# anime-tui

A terminal client for browsing and watching anime: it searches a catalogue, shows
details and covers, resolves an episode to playable streams, and plays them in mpv,
inside the terminal (Kitty graphics) or in a window of its own.

The logic is a library that Verus verifies; the program around it does the I/O.

## Layout

- `src/` — the library: every verified function of its logic has a proved contract.
  - `app` — what the user sees and selects: views, lists, seasons, paging.
    `app::sources` ranks and prepares streams. `app::run` is the session as a state
    machine: it takes what happened and answers with the commands to perform.
  - `provider` — catalogues: the offline one, and the site with its encrypted replies.
  - `resolver` — from an embed page to a stream address.
  - `player` — mpv's arguments and IPC protocol, and the Kitty graphics protocol.
  - `ui` — the texts and rectangles of the screen.
  - `images` — covers: decoding, scaling, PNG.
  - `cache`, `cli`, `config`, `database`, `errors`, `input`, `models`, `terminal` — the
    rest of the rules.
  - `codec`, `json`, `number`, `order`, `seconds`, `text` — what the above are built from.
- `app/` — the program: event loop, HTTP, SQLite, mpv processes, drawing.
- `tests/` — the library run on concrete values.

Properties that span several functions are proof functions whose names begin with
`law_`.

What is believed rather than proved are the trusted items: wrappers around calls into
outside crates and std, specifications of a few of their functions, declarations of their
types, and names for what they return. Each has a doc comment that says what is believed.

- `codec` — base64.
- `images` — image.
- `json` — serde_json.
- `provider::nakanime::parse` — scraper.
- `resolver` — url; `resolver::voe` — ring.
- `text` — std's `String` and `str`.
- `ui` — ratatui's layout.

The required methods of the trait `Provider` have no contract: they are for catalogues to
implement.
