//! How mpv is launched.
//!
//! mpv is ALWAYS spawned with a structured argument array (never a shell), with
//! stdin redirected from /dev/null so it cannot fight the TUI for the keyboard.
//! Control (pause, seek, volume, track selection, property observation) goes
//! over the IPC socket rather than fragile keypress injection.
//!
//! Two backends share this launcher:
//!   * External:  standalone/windowed mpv (reliable fallback).
//!   * Embedded:  `--vo=kitty` painted into a reserved cell rectangle.

use super::kitty::CellRect;
use crate::errors::Result;
use crate::json;
use crate::json::{Json, JsonModel};
use crate::models;
use crate::number;
use crate::seconds;
use crate::seconds::Seconds;
use crate::text;
use vstd::prelude::*;

verus! {

/// How mpv should present video.
#[derive(Debug)]
pub enum Presentation {
    /// Standalone mpv window / default VO. `input_conf` is an optional path to an
    /// mpv `input.conf` that mirrors the TUI keybinds so the WINDOW responds to the
    /// same keys (mpv's default bindings/mouse are kept too).
    External { input_conf: Option<String> },
    /// Embedded Kitty output confined to `rect` cells, painting into our screen
    /// (alt-screen and terminal-clear disabled so it doesn't hijack the TUI).
    EmbeddedKitty { rect: CellRect },
}

impl Clone for Presentation {
    fn clone(&self) -> (r: Self)
        ensures
            r == *self,
    {
        match self {
            Presentation::External { input_conf } => Presentation::External {
                input_conf: models::clone_text(input_conf),
            },
            Presentation::EmbeddedKitty { rect } => Presentation::EmbeddedKitty { rect: *rect },
        }
    }
}

/// A line of an input.conf: a key and what it does.
pub open spec fn binding(key: Seq<char>, words: Seq<char>) -> Seq<char> {
    key + " "@ + words + "\n"@
}

/// Seeks by so many seconds.
pub open spec fn seek_words(secs: int) -> Seq<char> {
    "seek "@ + number::signed(secs)
}

/// Changes the volume by so much.
pub open spec fn volume_words(amount: int) -> Seq<char> {
    "add volume "@ + number::signed(amount)
}

/// The key bindings of the window.
pub open spec fn input_conf(skip_intro_secs: u64) -> Seq<char> {
    "# anime-tui: keep in sync with Runner::on_player_key\n"@
        + binding("SPACE"@, "cycle pause"@)
        + binding("h"@, seek_words(-10))
        + binding("LEFT"@, seek_words(-10))
        + binding("l"@, seek_words(10))
        + binding("RIGHT"@, seek_words(10))
        + binding(","@, seek_words(-5))
        + binding("."@, seek_words(5))
        + binding("i"@, seek_words(skip_intro_secs as int))
        + binding("UP"@, volume_words(5))
        + binding("="@, volume_words(5))
        + binding("+"@, volume_words(5))
        + binding("DOWN"@, volume_words(-5))
        + binding("-"@, volume_words(-5))
        + binding("m"@, "cycle mute"@)
        + binding("s"@, "cycle sub"@)
        + binding("a"@, "cycle aid"@)
        + binding("f"@, "cycle fullscreen"@)
        + binding("q"@, "quit"@)
        + binding("ESC"@, "quit"@)
}

/// Appends a line of an input.conf.
fn bind(conf: &mut String, key: &str, words: &str)
    ensures
        final(conf)@ == old(conf)@ + binding(key@, words@),
{
    let ghost before = conf@;
    conf.append(key);
    conf.append(" ");
    conf.append(words);
    conf.append("\n");
    assert(conf@ =~= before + binding(key@, words@));
}

/// Appends a line that seeks.
fn bind_seek(conf: &mut String, key: &str, secs: i128)
    requires
        -u64::MAX <= secs <= u64::MAX,
    ensures
        final(conf)@ == old(conf)@ + binding(key@, seek_words(secs as int)),
{
    bind(conf, key, text::cat("seek ", number::signed_decimal(secs).as_str()).as_str());
}

/// Appends a line that changes the volume.
fn bind_volume(conf: &mut String, key: &str, amount: i128)
    requires
        -u64::MAX <= amount <= u64::MAX,
    ensures
        final(conf)@ == old(conf)@ + binding(key@, volume_words(amount as int)),
{
    bind(conf, key, text::cat("add volume ", number::signed_decimal(amount).as_str()).as_str());
}

/// Build an mpv `input.conf` that mirrors the TUI player keybinds, so the external
/// window responds to the same keys when it's focused. `q`/`ESC` quit (returning to
/// the TUI). Episode nav (n/p) is intentionally omitted — it needs the TUI.
pub fn external_input_conf(skip_intro_secs: u64) -> (r: String)
    ensures
        r@ == input_conf(skip_intro_secs),
{
    let mut s = "# anime-tui: keep in sync with Runner::on_player_key\n".to_string();
    bind(&mut s, "SPACE", "cycle pause");
    bind_seek(&mut s, "h", -10);
    bind_seek(&mut s, "LEFT", -10);
    bind_seek(&mut s, "l", 10);
    bind_seek(&mut s, "RIGHT", 10);
    bind_seek(&mut s, ",", -5);
    bind_seek(&mut s, ".", 5);
    bind_seek(&mut s, "i", skip_intro_secs as i128);
    bind_volume(&mut s, "UP", 5);
    bind_volume(&mut s, "=", 5);
    bind_volume(&mut s, "+", 5);
    bind_volume(&mut s, "DOWN", -5);
    bind_volume(&mut s, "-", -5);
    bind(&mut s, "m", "cycle mute");
    bind(&mut s, "s", "cycle sub");
    bind(&mut s, "a", "cycle aid");
    bind(&mut s, "f", "cycle fullscreen");
    bind(&mut s, "q", "quit");
    bind(&mut s, "ESC", "quit");
    s
}

/// Bounds on mpv's own read-ahead buffer so it doesn't hold large amounts of the
/// stream in RAM ("charging ahead"). Independent of the terminal image cache.
#[derive(Debug, Clone, Copy, PartialEq, Eq, Structural)]
pub struct MpvTuning {
    /// Max forward demuxer cache, MiB (`--demuxer-max-bytes`).
    pub max_buffer_mib: u64,
    /// Seconds to read ahead (`--demuxer-readahead-secs` / `--cache-secs`).
    pub readahead_secs: u64,
}

impl Default for MpvTuning {
    fn default() -> (r: Self)
        ensures
            r == (MpvTuning { max_buffer_mib: 64, readahead_secs: 10 }),
    {
        MpvTuning { max_buffer_mib: 64, readahead_secs: 10 }
    }
}

impl MpvTuning {
    /// Generous buffer for the standalone-window backend, which has no terminal
    /// image cache to worry about — favour smooth high-bitrate/HD playback.
    pub fn high_quality() -> (r: Self)
        ensures
            r == (MpvTuning { max_buffer_mib: 256, readahead_secs: 30 }),
    {
        MpvTuning { max_buffer_mib: 256, readahead_secs: 30 }
    }
}

/// The options that both backends get.
pub open spec fn common_args(socket: Seq<char>, tuning: MpvTuning) -> Seq<Seq<char>> {
    let back = if tuning.max_buffer_mib / 2 < 1 {
        1
    } else {
        tuning.max_buffer_mib / 2
    };
    seq![
        "--no-config"@,
        "--really-quiet"@,
        "--input-terminal=no"@,
        "--input-ipc-server="@ + socket,
        "--keep-open=no"@,
        "--idle=no"@,
        "--demuxer-max-bytes="@ + number::digits(tuning.max_buffer_mib as nat) + "MiB"@,
        "--demuxer-max-back-bytes="@ + number::digits(back as nat) + "MiB"@,
        "--demuxer-readahead-secs="@ + number::digits(tuning.readahead_secs as nat),
        "--cache-secs="@ + number::digits(tuning.readahead_secs as nat),
        "--cache-pause=no"@,
    ]
}

/// The options of the standalone window.
pub open spec fn window_args(conf: Option<Seq<char>>) -> Seq<Seq<char>> {
    let format = seq!["--ytdl-format=bestvideo+bestaudio/best"@];
    match conf {
        Some(path) => format.push("--input-conf="@ + path),
        None => format,
    }
}

/// The options that confine the picture to a rectangle of the terminal.
pub open spec fn embedded_args(rect: CellRect) -> Seq<Seq<char>> {
    let placed = seq![
        "--no-input-default-bindings"@,
        "--vo=kitty"@,
        "--vo-kitty-alt-screen=no"@,
        "--vo-kitty-config-clear=no"@,
        "--keepaspect=yes"@,
        "--vo-kitty-left="@ + number::digits(rect.left as nat),
        "--vo-kitty-top="@ + number::digits(rect.top as nat),
        "--vo-kitty-cols="@ + number::digits(rect.cols as nat),
        "--vo-kitty-rows="@ + number::digits(rect.rows as nat),
    ];
    let pixels = match (rect.pixel_width, rect.pixel_height) {
        (Some(w), Some(h)) => seq![
            "--vo-kitty-width="@ + number::digits(w as nat),
            "--vo-kitty-height="@ + number::digits(h as nat),
        ],
        _ => Seq::empty(),
    };
    placed + pixels + seq![
        "--vo-kitty-use-shm=yes"@,
        "--video-sync=display-desync"@,
        "--hwdec=auto"@,
    ]
}

/// The options of a presentation.
pub open spec fn presentation_args(p: Presentation) -> Seq<Seq<char>> {
    match p {
        Presentation::External { input_conf } => window_args(text::opt_text(input_conf)),
        Presentation::EmbeddedKitty { rect } => embedded_args(rect),
    }
}

/// The headers that can stand in mpv's comma-separated list: their value holds no
/// comma.
pub open spec fn safe_headers(headers: Seq<(Seq<char>, Seq<char>)>) -> Seq<(Seq<char>, Seq<char>)> {
    headers.filter(|h: (Seq<char>, Seq<char>)| !h.1.contains(','))
}

/// The header option; there is none when no header is left to send.
pub open spec fn header_args(headers: Seq<(Seq<char>, Seq<char>)>) -> Seq<Seq<char>> {
    let safe = safe_headers(headers);
    if safe.len() == 0 {
        Seq::empty()
    } else {
        seq![
            "--http-header-fields="@ + text::join(
                safe.map_values(|h: (Seq<char>, Seq<char>)| h.0 + ": "@ + h.1),
                ","@,
            ),
        ]
    }
}

/// The whole argument vector. The URL comes last, behind `--`, so that it can never be
/// read as an option.
pub open spec fn mpv_args(
    url: Seq<char>,
    socket: Seq<char>,
    presentation: Presentation,
    headers: Seq<(Seq<char>, Seq<char>)>,
    tuning: MpvTuning,
) -> Seq<Seq<char>> {
    common_args(socket, tuning) + presentation_args(presentation) + header_args(headers) + seq![
        "--"@,
        url,
    ]
}

/// The URL is the last argument and `--` the one before it, whatever the URL, the
/// headers and the presentation are.
pub proof fn law_url_is_last(
    url: Seq<char>,
    socket: Seq<char>,
    presentation: Presentation,
    headers: Seq<(Seq<char>, Seq<char>)>,
    tuning: MpvTuning,
)
    ensures
        ({
            let args = mpv_args(url, socket, presentation, headers, tuning);
            &&& args.len() >= 2
            &&& args.last() == url
            &&& args[args.len() - 2] == "--"@
        }),
{
}

/// A number behind a prefix and before a suffix.
fn option_num(prefix: &str, n: u64, suffix: &str) -> (r: String)
    ensures
        r@ == prefix@ + number::digits(n as nat) + suffix@,
{
    let mut s = prefix.to_string();
    s.append(number::decimal(n).as_str());
    s.append(suffix);
    s
}

/// Adds an option that ends in a number.
fn put_num(args: &mut Vec<String>, prefix: &str, n: u64)
    ensures
        text::texts(final(args)@) == text::texts(old(args)@).push(
            prefix@ + number::digits(n as nat),
        ),
{
    let mut s = prefix.to_string();
    s.append(number::decimal(n).as_str());
    text::put(args, s);
}

/// Adds the options of the embedded presentation.
fn put_embedded(args: &mut Vec<String>, rect: &CellRect)
    ensures
        text::texts(final(args)@) == text::texts(old(args)@) + embedded_args(*rect),
{
    let ghost before = text::texts(args@);
    // Embedded shares the terminal and is driven purely over IPC, so it must
    // have no key bindings of its own.
    text::put_str(args, "--no-input-default-bindings");
    text::put_str(args, "--vo=kitty");
    text::put_str(args, "--vo-kitty-alt-screen=no");
    text::put_str(args, "--vo-kitty-config-clear=no");
    // Preserve video aspect ratio; letterbox with black bars rather
    // than stretching to fill the cell rectangle.
    text::put_str(args, "--keepaspect=yes");
    put_num(args, "--vo-kitty-left=", rect.left as u64);
    put_num(args, "--vo-kitty-top=", rect.top as u64);
    put_num(args, "--vo-kitty-cols=", rect.cols as u64);
    put_num(args, "--vo-kitty-rows=", rect.rows as u64);
    if let (Some(w), Some(h)) = (rect.pixel_width, rect.pixel_height) {
        // Telling mpv the exact pixel dimensions it can paint avoids it
        // having to query the terminal itself and removes upscale/downscale
        // rounding artefacts at the cell boundary.
        put_num(args, "--vo-kitty-width=", w as u64);
        put_num(args, "--vo-kitty-height=", h as u64);
    }
    // SHM bypasses PTY base64 encoding entirely, which is required for
    // smooth playback at HD resolutions. Without it, 24 fps × ~8 MB/frame
    // ≈ 200 MB/s saturates the PTY and causes severe frame drops.
    // DO NOT remove this flag — base64 fallback is unusable at HD.
    text::put_str(args, "--vo-kitty-use-shm=yes");
    // Decouple frame delivery from display-sync timing. Without this mpv
    // tries to hit an exact display refresh rate that the terminal cannot
    // signal back, causing dropped/stuttered frames.
    text::put_str(args, "--video-sync=display-desync");
    // Hardware decoding reduces per-frame CPU load.
    text::put_str(args, "--hwdec=auto");
    assert(text::texts(args@) =~= before + embedded_args(*rect));
}

/// The header option's value: the headers whose value holds no comma, joined by
/// commas. `None` when there is none.
///
/// `--http-header-fields` is a COMMA-separated list with no escaping, so any
/// header whose value contains a comma (e.g. an `Accept`/`Accept-Language`
/// captured from yt-dlp) would corrupt the whole list and break every request.
fn joined_headers(headers: &[(String, String)]) -> (r: Option<String>)
    ensures
        match r {
            Some(s) => header_args(models::pairs(headers@)) == seq!["--http-header-fields="@ + s@],
            None => header_args(models::pairs(headers@)) == Seq::<Seq<char>>::empty(),
        },
{
    let ghost all = models::pairs(headers@);
    let ghost safe = |h: (Seq<char>, Seq<char>)| !h.1.contains(',');
    let ghost line = |h: (Seq<char>, Seq<char>)| h.0 + ": "@ + h.1;
    let mut out = String::new();
    let mut any: bool = false;
    let mut i: usize = 0;
    while i < headers.len()
        invariant
            i <= headers@.len(),
            all == models::pairs(headers@),
            safe == (|h: (Seq<char>, Seq<char>)| !h.1.contains(',')),
            line == (|h: (Seq<char>, Seq<char>)| h.0 + ": "@ + h.1),
            any == (all.take(i as int).filter(safe).len() > 0),
            out@ == text::join(all.take(i as int).filter(safe).map_values(line), ","@),
        decreases headers@.len() - i,
    {
        let ghost kept = all.take(i as int).filter(safe);
        proof {
            reveal(Seq::filter);
            assert(all.take(i + 1).drop_last() =~= all.take(i as int));
        }
        let value = text::chars_of(headers[i].1.as_str());
        if !text::one_of(',', value.as_slice()) {
            let ghost before = out@;
            if any {
                out.append(",");
            }
            out.append(headers[i].0.as_str());
            out.append(": ");
            out.append(headers[i].1.as_str());
            proof {
                let h = all[i as int];
                let next = kept.push(h);
                assert(next.map_values(line).drop_last() =~= kept.map_values(line));
                assert(next.map_values(line).last() == line(h));
                if any {
                    assert(out@ =~= before + ","@ + line(h));
                } else {
                    assert(kept.map_values(line) =~= Seq::<Seq<char>>::empty());
                    assert(out@ =~= line(h));
                }
            }
            any = true;
        }
        i = i + 1;
    }
    assert(all.take(all.len() as int) =~= all);
    if any {
        Some(out)
    } else {
        None
    }
}

/// Build the mpv argument vector. Pure + no IO so it is unit-testable, and so
/// the exact args handed to the process are auditable in one place.
///
/// `headers` (referer/user-agent/cookies) are passed via `--http-header-fields`
/// and are sensitive: callers must not log the returned vector verbatim.
pub fn build_args(
    url: &str,
    ipc_socket: &str,
    presentation: &Presentation,
    headers: &[(String, String)],
    tuning: &MpvTuning,
) -> (r: Vec<String>)
    ensures
        text::texts(r@) == mpv_args(
            url@,
            ipc_socket@,
            *presentation,
            models::pairs(headers@),
            *tuning,
        ),
{
    let mut args: Vec<String> = Vec::new();
    text::put_str(&mut args, "--no-config");
    text::put_str(&mut args, "--really-quiet");
    text::put_str(&mut args, "--input-terminal=no");  // do not read keys from the shared tty
    text::put(&mut args, text::cat("--input-ipc-server=", ipc_socket));
    text::put_str(&mut args, "--keep-open=no");
    text::put_str(&mut args, "--idle=no");
    // Bound mpv's own read-ahead so a long stream doesn't sit in RAM. Applies to
    // both backends. The back-buffer is half the forward cap. These are mpv's
    // memory, distinct from the terminal's Kitty image cache.
    text::put(&mut args, option_num("--demuxer-max-bytes=", tuning.max_buffer_mib, "MiB"));
    let half: u64 = tuning.max_buffer_mib / 2;
    let back: u64 = if half < 1 {
        1
    } else {
        half
    };
    text::put(&mut args, option_num("--demuxer-max-back-bytes=", back, "MiB"));
    put_num(&mut args, "--demuxer-readahead-secs=", tuning.readahead_secs);
    put_num(&mut args, "--cache-secs=", tuning.readahead_secs);
    // Start playing as soon as any data is available instead of waiting to fill
    // the cache — reduces time-to-first-frame on network streams (both backends).
    text::put_str(&mut args, "--cache-pause=no");
    assert(text::texts(args@) =~= common_args(ipc_socket@, *tuning));
    match presentation {
        Presentation::External { input_conf } => {
            // Standalone window. If mpv is handed a page URL (yt-dlp pre-resolution
            // failed) let its ytdl hook pick the best stream; when it already gets
            // a direct URL — the fast path — this is a harmless no-op.
            text::put_str(&mut args, "--ytdl-format=bestvideo+bestaudio/best");
            // The window keeps mpv's default bindings (mouse, OSC seek bar); our
            // conf overrides the specific keys to match the TUI.
            if let Some(path) = input_conf {
                text::put(&mut args, text::cat("--input-conf=", path.as_str()));
            }
        },
        Presentation::EmbeddedKitty { rect } => put_embedded(&mut args, rect),
    }
    assert(text::texts(args@) =~= common_args(ipc_socket@, *tuning) + presentation_args(
        *presentation,
    ));
    if let Some(joined) = joined_headers(headers) {
        text::put(&mut args, text::cat("--http-header-fields=", joined.as_str()));
    }
    assert(text::texts(args@) =~= common_args(ipc_socket@, *tuning) + presentation_args(
        *presentation,
    ) + header_args(models::pairs(headers@)));
    text::put_str(&mut args, "--");
    text::put_str(&mut args, url);
    assert(text::texts(args@) =~= mpv_args(
        url@,
        ipc_socket@,
        *presentation,
        models::pairs(headers@),
        *tuning,
    ));
    args
}

/// The arguments for one stream, starting at a position when there is one to start at:
/// `start` is the option that says so.
pub fn launch_args(
    url: &str,
    ipc_socket: &str,
    presentation: &Presentation,
    headers: &[(String, String)],
    tuning: &MpvTuning,
    start: Option<String>,
) -> (r: Vec<String>)
    ensures
        ({
            let args = mpv_args(
                url@,
                ipc_socket@,
                *presentation,
                models::pairs(headers@),
                *tuning,
            );
            match start {
                Some(option) => text::texts(r@) == args.insert(separator(args), option@),
                None => text::texts(r@) == args,
            }
        }),
{
    let mut args = build_args(url, ipc_socket, presentation, headers, tuning);
    if let Some(option) = start {
        let at: usize = position_of(&args, "--");
        let ghost before = args@;
        args.insert(at, option);
        assert(text::texts(args@) =~= text::texts(before).insert(at as int, option@));
    }
    args
}

/// The position of the first `--`, or the end when there is none.
pub open spec fn separator(args: Seq<Seq<char>>) -> int {
    separator_from(args, 0)
}

/// The position of the first `--` at or behind `i`.
pub open spec fn separator_from(args: Seq<Seq<char>>, i: int) -> int
    decreases args.len() - i,
{
    if i < 0 || i >= args.len() || args[i] == "--"@ {
        i
    } else {
        separator_from(args, i + 1)
    }
}

/// Every option is longer than the bare `--`, so the first `--` is the separator
/// before the URL: an option put there is read as an option.
pub proof fn law_separator(
    url: Seq<char>,
    socket: Seq<char>,
    presentation: Presentation,
    headers: Seq<(Seq<char>, Seq<char>)>,
    tuning: MpvTuning,
)
    ensures
        ({
            let args = mpv_args(url, socket, presentation, headers, tuning);
            separator(args) == args.len() - 2
        }),
{
    let args = mpv_args(url, socket, presentation, headers, tuning);
    let n = args.len() - 2;
    reveal_strlit("--");
    reveal_strlit("--cache-pause=no");
    reveal_strlit("--cache-secs=");
    reveal_strlit("--demuxer-max-back-bytes=");
    reveal_strlit("--demuxer-max-bytes=");
    reveal_strlit("--demuxer-readahead-secs=");
    reveal_strlit("--http-header-fields=");
    reveal_strlit("--hwdec=auto");
    reveal_strlit("--idle=no");
    reveal_strlit("--input-conf=");
    reveal_strlit("--input-ipc-server=");
    reveal_strlit("--input-terminal=no");
    reveal_strlit("--keep-open=no");
    reveal_strlit("--keepaspect=yes");
    reveal_strlit("--no-config");
    reveal_strlit("--no-input-default-bindings");
    reveal_strlit("--really-quiet");
    reveal_strlit("--video-sync=display-desync");
    reveal_strlit("--vo-kitty-alt-screen=no");
    reveal_strlit("--vo-kitty-cols=");
    reveal_strlit("--vo-kitty-config-clear=no");
    reveal_strlit("--vo-kitty-height=");
    reveal_strlit("--vo-kitty-left=");
    reveal_strlit("--vo-kitty-rows=");
    reveal_strlit("--vo-kitty-top=");
    reveal_strlit("--vo-kitty-use-shm=yes");
    reveal_strlit("--vo-kitty-width=");
    reveal_strlit("--vo=kitty");
    reveal_strlit("--ytdl-format=bestvideo+bestaudio/best");
    let a = common_args(socket, tuning);
    let b = presentation_args(presentation);
    let c = header_args(headers);
    assert forall|i: int| 0 <= i < n implies (#[trigger] args[i]).len() > 2 by {
        if i < a.len() {
            assert(args[i] == a[i]);
        } else if i < a.len() + b.len() {
            assert(args[i] == b[i - a.len()]);
        } else {
            assert(args[i] == c[i - a.len() - b.len()]);
        }
    }
    lemma_separator(args, 0, n);
}

proof fn lemma_separator(args: Seq<Seq<char>>, i: int, n: int)
    requires
        0 <= i <= n < args.len(),
        args[n] == "--"@,
        forall|j: int| i <= j < n ==> (#[trigger] args[j]).len() != "--"@.len(),
    ensures
        separator_from(args, i) == n,
    decreases n - i,
{
    if i < n {
        assert(args[i].len() != "--"@.len());
        lemma_separator(args, i + 1, n);
    }
}

fn position_of(args: &Vec<String>, what: &str) -> (r: usize)
    requires
        what@ == "--"@,
    ensures
        r == separator(text::texts(args@)),
        r <= args@.len(),
{
    let mut i: usize = 0;
    while i < args.len() && !text::str_same(args[i].as_str(), what)
        invariant
            i <= args@.len(),
            what@ == "--"@,
            separator_from(text::texts(args@), i as int) == separator(text::texts(args@)),
        decreases args@.len() - i,
    {
        i = i + 1;
    }
    i
}

/// An option with a value is among the arguments.
pub open spec fn has_option(args: Seq<Seq<char>>, name: Seq<char>, value: Seq<char>) -> bool {
    exists|i: int| 0 <= i < args.len() && #[trigger] args[i] == name + value
}

/// Every mpv is controlled over the given socket alone, reads no configuration of its own
/// and no keys of the terminal, and keeps as much of the stream as it is tuned to: half
/// as much behind as ahead, but something.
pub proof fn law_common_options(
    url: Seq<char>,
    socket: Seq<char>,
    presentation: Presentation,
    headers: Seq<(Seq<char>, Seq<char>)>,
    tuning: MpvTuning,
    back: u64,
)
    requires
        back > 0,
        back == tuning.max_buffer_mib / 2 || (back == 1 && tuning.max_buffer_mib < 2),
    ensures
        ({
            let args = mpv_args(url, socket, presentation, headers, tuning);
            &&& has_option(args, "--input-ipc-server="@, socket)
            &&& args.contains("--no-config"@)
            &&& args.contains("--input-terminal=no"@)
            &&& args.contains("--idle=no"@)
            &&& args.contains("--keep-open=no"@)
            &&& has_option(
                args,
                "--demuxer-max-bytes="@,
                number::digits(tuning.max_buffer_mib as nat) + "MiB"@,
            )
            &&& has_option(
                args,
                "--demuxer-max-back-bytes="@,
                number::digits(back as nat) + "MiB"@,
            )
            &&& has_option(
                args,
                "--demuxer-readahead-secs="@,
                number::digits(tuning.readahead_secs as nat),
            )
            &&& has_option(args, "--cache-secs="@, number::digits(tuning.readahead_secs as nat))
            &&& args.contains("--cache-pause=no"@)
        }),
{
    let args = mpv_args(url, socket, presentation, headers, tuning);
    let c = common_args(socket, tuning);
    assert(forall|i: int| 0 <= i < c.len() ==> args[i] == c[i]);
    assert(args[0] == "--no-config"@ && args[2] == "--input-terminal=no"@ && args[4]
        == "--keep-open=no"@ && args[5] == "--idle=no"@ && args[10] == "--cache-pause=no"@);
    assert(args[3] == "--input-ipc-server="@ + socket);
    assert(args[6] =~= "--demuxer-max-bytes="@ + (number::digits(tuning.max_buffer_mib as nat)
        + "MiB"@));
    assert(args[7] =~= "--demuxer-max-back-bytes="@ + (number::digits(back as nat) + "MiB"@));
    assert(args[8] == "--demuxer-readahead-secs="@ + number::digits(tuning.readahead_secs as nat));
    assert(args[9] == "--cache-secs="@ + number::digits(tuning.readahead_secs as nat));
}

/// Embedded video is painted into the given rectangle by its cells, and its pixels when
/// both are known; it has no keys of its own and leaves the screen alone.
pub proof fn law_embedded_options(rect: CellRect)
    ensures
        ({
            let args = embedded_args(rect);
            &&& args.contains("--vo=kitty"@)
            &&& args.contains("--no-input-default-bindings"@)
            &&& args.contains("--vo-kitty-alt-screen=no"@)
            &&& args.contains("--vo-kitty-config-clear=no"@)
            &&& args.contains("--keepaspect=yes"@)
            &&& args.contains("--vo-kitty-use-shm=yes"@)
            &&& has_option(args, "--vo-kitty-left="@, number::digits(rect.left as nat))
            &&& has_option(args, "--vo-kitty-top="@, number::digits(rect.top as nat))
            &&& has_option(args, "--vo-kitty-cols="@, number::digits(rect.cols as nat))
            &&& has_option(args, "--vo-kitty-rows="@, number::digits(rect.rows as nat))
            &&& rect.pixel_width matches Some(w) ==> (rect.pixel_height matches Some(h) ==> {
                &&& has_option(args, "--vo-kitty-width="@, number::digits(w as nat))
                &&& has_option(args, "--vo-kitty-height="@, number::digits(h as nat))
            })
            &&& args.len() == (if rect.pixel_width is Some && rect.pixel_height is Some {
                14nat
            } else {
                12nat
            })
        }),
{
    let args = embedded_args(rect);
    assert(args[0] == "--no-input-default-bindings"@ && args[1] == "--vo=kitty"@ && args[2]
        == "--vo-kitty-alt-screen=no"@ && args[3] == "--vo-kitty-config-clear=no"@ && args[4]
        == "--keepaspect=yes"@);
    assert(args[5] == "--vo-kitty-left="@ + number::digits(rect.left as nat));
    assert(args[6] == "--vo-kitty-top="@ + number::digits(rect.top as nat));
    assert(args[7] == "--vo-kitty-cols="@ + number::digits(rect.cols as nat));
    assert(args[8] == "--vo-kitty-rows="@ + number::digits(rect.rows as nat));
    assert(args[args.len() - 3] == "--vo-kitty-use-shm=yes"@);
    if rect.pixel_width is Some && rect.pixel_height is Some {
        assert(args[9] == "--vo-kitty-width="@ + number::digits(rect.pixel_width->0 as nat));
        assert(args[10] == "--vo-kitty-height="@ + number::digits(rect.pixel_height->0 as nat));
    }
}

/// The window gets the generated key bindings when there are any, and the best format.
pub proof fn law_window_options(path: Seq<char>)
    ensures
        has_option(window_args(Some(path)), "--input-conf="@, path),
        window_args(Some(path)).contains("--ytdl-format=bestvideo+bestaudio/best"@),
        window_args(None) == seq!["--ytdl-format=bestvideo+bestaudio/best"@],
{
    let args = window_args(Some(path));
    assert(args[0] == "--ytdl-format=bestvideo+bestaudio/best"@);
    assert(args[1] == "--input-conf="@ + path);
}

/// Headers go into one option, as `name: value` with commas between them, in order; a
/// header whose value holds a comma is left out, and without any there is no option.
pub proof fn law_header_option(
    headers: Seq<(Seq<char>, Seq<char>)>,
    name: Seq<char>,
    value: Seq<char>,
)
    ensures
        ({
            let longer = header_args(headers.push((name, value)));
            let before = header_args(headers);
            &&& value.contains(',') ==> longer == before
            &&& !value.contains(',') && before.len() == 0 ==> longer == seq![
                "--http-header-fields="@ + (name + ": "@ + value),
            ]
            &&& !value.contains(',') && before.len() > 0 ==> longer == seq![
                before[0] + ","@ + (name + ": "@ + value),
            ]
            &&& before.len() <= 1
        }),
        header_args(Seq::empty()).len() == 0,
{
    reveal(Seq::filter);
    let safe = |h: (Seq<char>, Seq<char>)| !h.1.contains(',');
    let line = |h: (Seq<char>, Seq<char>)| h.0 + ": "@ + h.1;
    let more = headers.push((name, value));
    assert(more.drop_last() =~= headers);
    let kept = headers.filter(safe);
    if !value.contains(',') {
        let next = kept.push((name, value));
        assert(more.filter(safe) == next);
        assert(next.map_values(line).drop_last() =~= kept.map_values(line));
        assert(next.map_values(line).last() == line((name, value)));
        if kept.len() == 0 {
            assert(next.map_values(line) =~= seq![line((name, value))]);
        } else {
            assert(text::join(next.map_values(line), ","@) == text::join(
                kept.map_values(line),
                ","@,
            ) + ","@ + line((name, value)));
            assert(header_args(more)[0] =~= header_args(headers)[0] + ","@ + (name + ": "@ + value));
        }
    }
}

/// The option that starts playback at a position: none within the first second.
pub open spec fn start_words(pos: Seconds, written: Seq<char>) -> Option<Seq<char>> {
    if pos.above(seconds::ONE) {
        Some("--start=+"@ + written)
    } else {
        None
    }
}

/// A later position that is started at is written behind the option, whatever it is, and
/// no position within the first second is.
pub proof fn law_start(pos: Seconds, written: Seq<char>)
    ensures
        pos.bits <= 0x3ff0_0000_0000_0000 ==> start_words(pos, written) is None,
        0x3ff0_0000_0000_0000 < pos.bits <= 0x7ff0_0000_0000_0000 ==> start_words(pos, written)
            == Some("--start=+"@ + written),
{
}

/// The option that starts playback at a position; none within the first second.
/// `written` is the position in seconds with three decimals.
pub fn start_option(pos: Seconds, written: &str) -> (r: Option<String>)
    ensures
        text::opt_text(r) == start_words(pos, written@),
{
    if pos.above_one() {
        Some(text::cat("--start=+", written))
    } else {
        None
    }
}

/// The JSON of an IPC command.
pub open spec fn command_json(parts: Seq<JsonModel>) -> JsonModel {
    JsonModel::Object(seq![("command"@, JsonModel::List(parts))])
}

/// A command is an object whose `command` is the list of its words.
pub proof fn law_command_json(parts: Seq<JsonModel>)
    ensures
        json::at(command_json(parts), "command"@) == JsonModel::List(parts),
{
    let m = command_json(parts);
    assert(m->Object_0[0] == ("command"@, JsonModel::List(parts)));
    assert(json::keys_ordered(m->Object_0));
    json::law_members_are_found(m, "command"@, JsonModel::List(parts));
}

/// The option that starts playback stands right before the separator, and everything
/// else stays as it was.
pub proof fn law_launch_args(
    url: &str,
    socket: &str,
    presentation: &Presentation,
    headers: &[(String, String)],
    tuning: &MpvTuning,
    start: Option<String>,
    r: Vec<String>,
)
    requires
        call_ensures(launch_args, (url, socket, presentation, headers, tuning, start), r),
    ensures
        ({
            let args = mpv_args(
                url@,
                socket@,
                *presentation,
                models::pairs(headers@),
                *tuning,
            );
            let n = args.len() as int;
            &&& start is None ==> text::texts(r@) == args
            &&& start matches Some(option) ==> text::texts(r@) == args.take(n - 2).push(option@)
                + seq!["--"@, url@]
        }),
{
    let args = mpv_args(url@, socket@, *presentation, models::pairs(headers@), *tuning);
    law_separator(url@, socket@, *presentation, models::pairs(headers@), *tuning);
    law_url_is_last(url@, socket@, *presentation, models::pairs(headers@), *tuning);
    if let Some(option) = start {
        let n = args.len() as int;
        assert(args.insert(n - 2, option@) =~= args.take(n - 2).push(option@) + seq!["--"@, url@]);
    }
}

/// A copy of a list of values.
fn copies(parts: &[Json]) -> (r: Vec<Json>)
    ensures
        json::models(r@) == json::models(parts@),
{
    let mut out: Vec<Json> = Vec::new();
    let mut i: usize = 0;
    while i < parts.len()
        invariant
            i <= parts@.len(),
            out@.len() == i,
            forall|k: int| 0 <= k < i ==> (#[trigger] out@[k])@ == parts@[k]@,
        decreases parts@.len() - i,
    {
        out.push(parts[i].copy());
        i = i + 1;
    }
    assert(json::models(out@) =~= json::models(parts@));
    out
}

/// A single JSON-IPC command line (newline-terminated) for mpv's socket.
pub fn ipc_command(command: &[Json]) -> (r: Result<String>)
    requires
        forall|i: int| 0 <= i < command@.len() ==> json::ordered((#[trigger] command@[i])@),
    ensures
        r matches Ok(line) && line@ == json::json_text(command_json(json::models(command@)))
            + "\n"@,
{
    let list = Json::List(copies(command));
    let ghost parts = json::models(command@);
    proof {
        assert(list@->List_0 =~= parts);
        assert forall|i: int| 0 <= i < parts.len() implies json::ordered(#[trigger] parts[i]) by {
            assert(parts[i] == command@[i]@);
        }
    }
    let mut members: Vec<(String, Json)> = Vec::new();
    members.push(("command".to_string(), list));
    let payload = Json::Object(members);
    proof {
        assert(payload@->Object_0 =~= command_json(parts)->Object_0);
        assert(json::ordered(JsonModel::List(parts)));
        assert(json::keys_ordered(payload@->Object_0));
        assert(payload@->Object_0[0].1 == JsonModel::List(parts));
    }
    let mut line = payload.text();
    line.append("\n");
    Ok(line)
}

/// A window is told to seek by seconds, and to turn the volume by percent, with a minus
/// sign where it is down.
pub proof fn law_window_words(n: nat)
    ensures
        seek_words(n as int) == "seek "@ + number::digits(n),
        n > 0 ==> seek_words(-n) == "seek "@ + ("-"@ + number::digits(n)),
        volume_words(n as int) == "add volume "@ + number::digits(n),
        n > 0 ==> volume_words(-n) == "add volume "@ + ("-"@ + number::digits(n)),
{
    number::law_signed(n);
}

} // verus!
