//! Kitty-graphics helpers: capability detection, cell-based placement geometry,
//! and cleanup escape sequences.
//!
//! For VIDEO we do NOT emit image data ourselves — mpv's `--vo=kitty` does that.
//! Our job there is (a) decide whether embedded playback is possible, (b) compute
//! the cell rectangle to hand mpv, and (c) guarantee image placements are deleted
//! on every exit path so the terminal is left clean.
//!
//! For the STATIC anime poster we do transmit the image ourselves via
//! [`transmit_png`] — a single decoded cover, unrelated to the video pipeline.

use crate::codec;
use crate::number;
use crate::text;
use vstd::prelude::*;

verus! {

/// A rectangle in terminal *cells* (columns/rows), matching mpv's
/// `--vo-kitty-left/top/cols/rows` coordinate space.
///
/// `pixel_width`/`pixel_height` carry the actual pixel dimensions of the area
/// when available (queried via `TIOCGWINSZ`). mpv uses these for exact pixel
/// sizing, avoiding cell-size rounding artefacts and unnecessary rescaling.
#[derive(Debug, Clone, Copy, PartialEq, Eq, Structural)]
pub struct CellRect {
    pub left: u16,
    pub top: u16,
    pub cols: u16,
    pub rows: u16,
    pub pixel_width: Option<u16>,
    pub pixel_height: Option<u16>,
}

impl CellRect {
    /// The rectangle covers no cell.
    pub open spec fn empty(self) -> bool {
        self.cols == 0 || self.rows == 0
    }

    /// The rectangle has a cursor position: its top-left corner counts from one.
    pub open spec fn addressable(self) -> bool {
        self.left < u16::MAX && self.top < u16::MAX
    }

    pub fn is_empty(&self) -> (r: bool)
        ensures
            r == self.empty(),
    {
        self.cols == 0 || self.rows == 0
    }
}

/// Escape sequence that deletes ALL Kitty image placements (`_Ga=d,d=A`).
/// Must be written to the terminal on cleanup / panic / resize-restart.
pub const DELETE_ALL_IMAGES: &'static str = "\x1b_Ga=d,d=A\x1b\\";

/// Fixed image id used for the anime poster, so it can be replaced/deleted on its
/// own without disturbing any mpv image placements.
pub const POSTER_ID: u32 = 7;

/// Delete just the poster image (by id), leaving other placements alone.
pub const DELETE_POSTER: &'static str = "\x1b_Ga=d,d=i,i=7\x1b\\";

/// Starting image id for browse cover thumbnails (each anime gets its own id,
/// counting up from here). Distinct from [`POSTER_ID`] so they never clash.
pub const THUMB_ID_BASE: u32 = 100;

/// How many characters of payload one escape sequence carries at most.
pub const CHUNK: usize = 4096;

/// How many chunks a payload of `len` characters is cut into.
pub open spec fn chunk_count(len: nat) -> nat {
    ((len + CHUNK - 1) / (CHUNK as int)) as nat
}

/// The `i`-th chunk of a payload.
pub open spec fn chunk(s: Seq<char>, i: int) -> Seq<char> {
    s.subrange(
        i * CHUNK,
        if (i + 1) * CHUNK < s.len() {
            (i + 1) * CHUNK
        } else {
            s.len() as int
        },
    )
}

/// The escape sequence of one chunk. The initial one carries the control keys
/// `first`, every later one `rest`; `m` tells whether more chunks follow.
pub open spec fn framed(
    piece: Seq<char>,
    first: Seq<char>,
    rest: Seq<char>,
    initial: bool,
    last: bool,
) -> Seq<char> {
    let m = if last {
        "0"@
    } else {
        "1"@
    };
    if initial {
        "\x1b_G"@ + first + ",m="@ + m + ";"@ + piece + "\x1b\\"@
    } else {
        "\x1b_Gm="@ + m + rest + ";"@ + piece + "\x1b\\"@
    }
}

/// The escape sequence of the `i`-th chunk.
pub open spec fn frame(s: Seq<char>, first: Seq<char>, rest: Seq<char>, i: int) -> Seq<char> {
    framed(chunk(s, i), first, rest, i == 0, i + 1 == chunk_count(s.len()))
}

/// The escape sequences of the first `n` chunks.
pub open spec fn frames(s: Seq<char>, first: Seq<char>, rest: Seq<char>, n: int) -> Seq<char>
    decreases n,
{
    if n <= 0 {
        Seq::empty()
    } else {
        frames(s, first, rest, n - 1) + frame(s, first, rest, n - 1)
    }
}

/// The chunks of a payload one after another.
pub open spec fn rejoined(s: Seq<char>, n: int) -> Seq<char>
    decreases n,
{
    if n <= 0 {
        Seq::empty()
    } else {
        rejoined(s, n - 1) + chunk(s, n - 1)
    }
}

/// A payload is cut without loss: its chunks make it up again, none is empty and
/// none is longer than the protocol allows.
pub proof fn law_chunks(s: Seq<char>)
    ensures
        rejoined(s, chunk_count(s.len()) as int) == s,
        forall|i: int| 0 <= i < chunk_count(s.len()) ==> 0 < (#[trigger] chunk(s, i)).len() <= CHUNK,
{
    lemma_rejoined(s, chunk_count(s.len()) as int);
    assert(rejoined(s, chunk_count(s.len()) as int) =~= s);
}

proof fn lemma_rejoined(s: Seq<char>, n: int)
    requires
        0 <= n <= chunk_count(s.len()),
    ensures
        rejoined(s, n) == s.take(
            if n * CHUNK < s.len() {
                n * CHUNK
            } else {
                s.len() as int
            },
        ),
    decreases n,
{
    if n > 0 {
        lemma_rejoined(s, n - 1);
        assert(rejoined(s, n) =~= s.take(
            if n * CHUNK < s.len() {
                n * CHUNK
            } else {
                s.len() as int
            },
        ));
    } else {
        assert(rejoined(s, n) =~= s.take(0));
    }
}

/// The decimal text of a number.
pub open spec fn num(n: int) -> Seq<char> {
    number::digits(n as nat)
}

/// The text that deletes an image by its id.
pub open spec fn image_deletion(id: u32) -> Seq<char> {
    "\x1b_Ga=d,d=i,i="@ + num(id as int) + "\x1b\\"@
}

/// The text that stores a PNG without showing it.
pub open spec fn transmission(payload: Seq<char>, id: u32) -> Seq<char> {
    frames(
        payload,
        "a=t,i="@ + num(id as int) + ",f=100,q=2"@,
        ",q=2"@,
        chunk_count(payload.len()) as int,
    )
}

/// The text that moves the cursor to the top-left cell of a rectangle.
pub open spec fn cursor_to(rect: CellRect) -> Seq<char> {
    "\x1b["@ + num(rect.top + 1) + ";"@ + num(rect.left + 1) + "H"@
}

/// The text that shows a stored image in a rectangle.
pub open spec fn placement(id: u32, placement_id: u32, rect: CellRect) -> Seq<char> {
    "\x1b7"@ + cursor_to(rect) + "\x1b_Ga=p,i="@ + num(id as int) + ",p="@ + num(
        placement_id as int,
    ) + ",c="@ + num(rect.cols as int) + ",r="@ + num(rect.rows as int) + ",C=1,q=2\x1b\\\x1b8"@
}

/// The text that removes one placement of an image and keeps the image.
pub open spec fn placement_deletion(id: u32, placement_id: u32) -> Seq<char> {
    "\x1b_Ga=d,d=i,i="@ + num(id as int) + ",p="@ + num(placement_id as int) + ",q=2\x1b\\"@
}

/// The text that frees an image.
pub open spec fn image_release(id: u32) -> Seq<char> {
    "\x1b_Ga=d,d=I,i="@ + num(id as int) + ",q=2\x1b\\"@
}

/// The text that stores a PNG and shows it in a rectangle, with the cursor put back
/// where it was.
pub open spec fn display(payload: Seq<char>, rect: CellRect, id: u32) -> Seq<char> {
    "\x1b7"@ + cursor_to(rect) + frames(
        payload,
        "a=T,f=100,i="@ + num(id as int) + ",c="@ + num(rect.cols as int) + ",r="@ + num(
            rect.rows as int,
        ),
        ""@,
        chunk_count(payload.len()) as int,
    ) + "\x1b8"@
}

/// The constant that deletes the poster is the deletion of the poster's image.
pub proof fn law_delete_poster()
    ensures
        DELETE_POSTER@ == image_deletion(POSTER_ID),
        POSTER_ID < THUMB_ID_BASE,
{
    reveal_strlit("\x1b_Ga=d,d=i,i=7\x1b\\");
    reveal_strlit("\x1b_Ga=d,d=i,i=");
    reveal_strlit("\x1b\\");
    assert(DELETE_POSTER@ =~= image_deletion(POSTER_ID));
}

/// A chunk is carried between the opening and the closing of an escape sequence; every
/// one but the last announces more, and only the first carries the control keys.
pub proof fn law_frames(s: Seq<char>, first: Seq<char>, rest: Seq<char>, i: int)
    requires
        0 <= i < chunk_count(s.len()),
    ensures
        ({
            let last = i == chunk_count(s.len()) - 1;
            let flag = if last {
                "m=0"@
            } else {
                "m=1"@
            };
            &&& i == 0 ==> frame(s, first, rest, i) == "\x1b_G"@ + first + ","@ + flag + ";"@
                + chunk(s, i) + "\x1b\\"@
            &&& i > 0 ==> frame(s, first, rest, i) == "\x1b_G"@ + flag + rest + ";"@ + chunk(s, i)
                + "\x1b\\"@
        }),
{
    reveal_strlit("m=0");
    reveal_strlit("m=1");
    reveal_strlit("0");
    reveal_strlit("1");
    reveal_strlit(",m=");
    reveal_strlit(",");
    reveal_strlit("\x1b_G");
    reveal_strlit("\x1b_Gm=");
    let last = i + 1 == chunk_count(s.len());
    let flag = if last {
        "m=0"@
    } else {
        "m=1"@
    };
    assert(",m="@ + (if last {
        "0"@
    } else {
        "1"@
    }) =~= ","@ + flag);
    assert("\x1b_Gm="@ + (if last {
        "0"@
    } else {
        "1"@
    }) =~= "\x1b_G"@ + flag);
    if i == 0 {
        assert(frame(s, first, rest, i) =~= "\x1b_G"@ + first + ","@ + flag + ";"@ + chunk(s, i)
            + "\x1b\\"@);
    } else {
        assert(frame(s, first, rest, i) =~= "\x1b_G"@ + flag + rest + ";"@ + chunk(s, i)
            + "\x1b\\"@);
    }
}

/// The cursor goes to the row and then the column of a rectangle's first cell, counted
/// from one.
pub proof fn law_cursor(rect: CellRect)
    ensures
        cursor_to(rect) == "\x1b["@ + number::digits((rect.top + 1) as nat) + ";"@ + number::digits(
            (rect.left + 1) as nat,
        ) + "H"@,
{
}

/// An image is placed where the cursor is put, over as many columns and rows as the
/// rectangle has, and the cursor goes back to where it was.
pub proof fn law_placement(id: u32, placement_id: u32, rect: CellRect)
    ensures
        placement(id, placement_id, rect) == "\x1b7"@ + cursor_to(rect) + ("\x1b_Ga=p,i="@
            + number::digits(id as nat) + ",p="@ + number::digits(placement_id as nat) + ",c="@
            + number::digits(rect.cols as nat) + ",r="@ + number::digits(rect.rows as nat)
            + ",C=1,q=2\x1b\\"@) + "\x1b8"@,
{
    reveal_strlit(",C=1,q=2\x1b\\\x1b8");
    reveal_strlit(",C=1,q=2\x1b\\");
    reveal_strlit("\x1b8");
    assert(",C=1,q=2\x1b\\\x1b8"@ =~= ",C=1,q=2\x1b\\"@ + "\x1b8"@);
    assert(placement(id, placement_id, rect) =~= "\x1b7"@ + cursor_to(rect) + ("\x1b_Ga=p,i="@
        + number::digits(id as nat) + ",p="@ + number::digits(placement_id as nat) + ",c="@
        + number::digits(rect.cols as nat) + ",r="@ + number::digits(rect.rows as nat)
        + ",C=1,q=2\x1b\\"@) + "\x1b8"@);
}

/// Taking a placement away keeps the image, and freeing an image does not: the first asks
/// for `d=i` of the image and the placement, the second for `d=I` of the image.
pub proof fn law_deletions(id: u32, placement_id: u32)
    ensures
        placement_deletion(id, placement_id) == "\x1b_Ga=d,d=i,i="@ + number::digits(id as nat)
            + ",p="@ + number::digits(placement_id as nat) + ",q=2\x1b\\"@,
        image_release(id) == "\x1b_Ga=d,d=I,i="@ + number::digits(id as nat) + ",q=2\x1b\\"@,
        image_deletion(id) == "\x1b_Ga=d,d=i,i="@ + number::digits(id as nat) + "\x1b\\"@,
        placement_deletion(id, placement_id) != image_release(id),
{
    reveal_strlit("\x1b_Ga=d,d=i,i=");
    reveal_strlit("\x1b_Ga=d,d=I,i=");
    assert(placement_deletion(id, placement_id)[9] == 'i');
    assert(image_release(id)[9] == 'I');
}

/// A terminal is taken to show graphics exactly when its name holds one of the three,
/// whatever the case of the letters.
pub proof fn law_kitty_names(s: Seq<char>)
    ensures
        names_kitty(s) <==> exists|i: int|
            #![trigger text::occurs_at(text::lowercase(s), "kitty"@, i)]
            #![trigger text::occurs_at(text::lowercase(s), "ghostty"@, i)]
            #![trigger text::occurs_at(text::lowercase(s), "wezterm"@, i)]
            text::occurs_at(text::lowercase(s), "kitty"@, i) || text::occurs_at(
                text::lowercase(s),
                "ghostty"@,
                i,
            ) || text::occurs_at(text::lowercase(s), "wezterm"@, i),
{
}

/// A PNG is stored under its id without being shown, and shown under its id at its place
/// and size; both ways the terminal is told that the payload is PNG.
pub proof fn law_transmissions(payload: Seq<char>, rect: CellRect, id: u32)
    requires
        0 < payload.len() <= 4096,
    ensures
        transmission(payload, id) == "\x1b_G"@ + ("a=t,i="@ + number::digits(id as nat)
            + ",f=100,q=2"@) + ",m=0;"@ + payload + "\x1b\\"@,
        display(payload, rect, id) == "\x1b7"@ + cursor_to(rect) + ("\x1b_G"@ + ("a=T,f=100,i="@
            + number::digits(id as nat) + ",c="@ + number::digits(rect.cols as nat) + ",r="@
            + number::digits(rect.rows as nat)) + ",m=0;"@ + payload + "\x1b\\"@) + "\x1b8"@,
{
    reveal_strlit(",m=0;");
    reveal_strlit(",m=");
    reveal_strlit("0");
    reveal_strlit(";");
    reveal_with_fuel(frames, 2);
    assert(chunk_count(payload.len()) == 1);
    assert(chunk(payload, 0) =~= payload);
    assert(",m="@ + "0"@ + ";"@ =~= ",m=0;"@);
    let keys = "a=t,i="@ + number::digits(id as nat) + ",f=100,q=2"@;
    assert(transmission(payload, id) =~= "\x1b_G"@ + keys + ",m=0;"@ + payload + "\x1b\\"@);
    let shown = "a=T,f=100,i="@ + number::digits(id as nat) + ",c="@ + number::digits(
        rect.cols as nat,
    ) + ",r="@ + number::digits(rect.rows as nat);
    assert(frames(payload, shown, ""@, 1) =~= "\x1b_G"@ + shown + ",m=0;"@ + payload + "\x1b\\"@);
}

/// Appends a number in decimal.
fn put_num(out: &mut String, n: u32)
    ensures
        final(out)@ == old(out)@ + num(n as int),
{
    out.append(number::decimal(n as u64).as_str());
}

/// Delete a single Kitty image by id (and its placements), keeping the data.
pub fn delete_image(id: u32) -> (r: String)
    ensures
        r@ == image_deletion(id),
{
    let mut out = "\x1b_Ga=d,d=i,i=".to_string();
    put_num(&mut out, id);
    out.append("\x1b\\");
    out
}

/// Appends the escape sequence that carries one chunk.
fn put_frame(out: &mut String, piece: &str, first: &str, rest: &str, initial: bool, last: bool)
    ensures
        final(out)@ == old(out)@ + framed(piece@, first@, rest@, initial, last),
{
    let ghost before = out@;
    let mut s: String;
    if initial {
        s = "\x1b_G".to_string();
        s.append(first);
        s.append(",m=");
    } else {
        s = "\x1b_Gm=".to_string();
    }
    if last {
        s.append("0");
    } else {
        s.append("1");
    }
    if !initial {
        s.append(rest);
    }
    s.append(";");
    s.append(piece);
    s.append("\x1b\\");
    out.append(s.as_str());
}

/// Only the last chunk reaches the end of the payload.
proof fn lemma_last_chunk(len: nat, n: int)
    requires
        0 <= n,
        n * CHUNK < len,
    ensures
        n < chunk_count(len),
        (len - n * CHUNK <= CHUNK) == (n + 1 == chunk_count(len)),
{
}

/// Appends the escape sequences that carry a payload in chunks.
fn put_frames(out: &mut String, payload: &str, first: &str, rest: &str)
    requires
        payload@.len() <= isize::MAX,
    ensures
        final(out)@ == old(out)@ + frames(
            payload@,
            first@,
            rest@,
            chunk_count(payload@.len()) as int,
        ),
{
    let s = text::chars_of(payload);
    let len: usize = s.len();
    let ghost before = out@;
    let mut i: usize = 0;
    let ghost mut n: int = 0;
    assert(before + frames(payload@, first@, rest@, 0) =~= before);
    while i < len
        invariant
            s@ == payload@,
            len == s@.len(),
            len <= isize::MAX,
            i == (if n * CHUNK < len {
                n * CHUNK
            } else {
                len as int
            }),
            0 <= n <= chunk_count(len as nat),
            i == len ==> n == chunk_count(len as nat),
            out@ == before + frames(payload@, first@, rest@, n),
        decreases len - i,
    {
        let end: usize = if len - i > CHUNK {
            i + CHUNK
        } else {
            len
        };
        let piece = text::string_of(vstd::slice::slice_subrange(s.as_slice(), i, end));
        assert(piece@ =~= chunk(payload@, n));
        let ghost head = out@;
        proof {
            lemma_last_chunk(len as nat, n);
        }
        put_frame(out, piece.as_str(), first, rest, i == 0, end == len);
        assert(out@ == head + frame(payload@, first@, rest@, n));
        assert(head + frame(payload@, first@, rest@, n) =~= before + frames(
            payload@,
            first@,
            rest@,
            n + 1,
        ));
        i = end;
        proof {
            n = n + 1;
        }
    }
}

/// Transmit (store) a PNG image under `id` WITHOUT displaying it (`a=t`). Chunked
/// (`m=1` on all but the last), quiet (`q=2`). Cursor is not touched. Display it
/// later with [`place`] — so scrolling only moves cheap placements, never re-sends
/// image data.
pub fn transmit_data(png: &[u8], id: u32) -> (r: String)
    requires
        codec::encodable(png@.len()),
    ensures
        r@ == transmission(codec::base64_text(png@), id),
{
    let b64 = codec::encode_base64(png);
    let mut first = "a=t,i=".to_string();
    put_num(&mut first, id);
    first.append(",f=100,q=2");
    let mut out = String::new();
    put_frames(&mut out, b64.as_str(), first.as_str(), ",q=2");
    assert(out@ =~= transmission(codec::base64_text(png@), id));
    out
}

/// Appends the sequence that moves the cursor to the top-left cell of a rectangle
/// (cursor positions count from one).
fn put_cursor(out: &mut String, rect: CellRect)
    requires
        rect.addressable(),
    ensures
        final(out)@ == old(out)@ + cursor_to(rect),
{
    let ghost before = out@;
    out.append("\x1b[");
    put_num(out, rect.top as u32 + 1);
    out.append(";");
    put_num(out, rect.left as u32 + 1);
    out.append("H");
    assert(out@ =~= before + cursor_to(rect));
}

/// Create a placement of the already-transmitted image `id` (see [`transmit_data`])
/// scaled into `rect.cols × rect.rows` cells at `rect.left/top`, without moving the
/// cursor (`C=1`). `placement_id` lets us delete just this placement later.
pub fn place(id: u32, placement_id: u32, rect: CellRect) -> (r: String)
    requires
        rect.addressable(),
    ensures
        r@ == placement(id, placement_id, rect),
{
    let mut out = "\x1b7".to_string();
    put_cursor(&mut out, rect);
    out.append("\x1b_Ga=p,i=");
    put_num(&mut out, id);
    out.append(",p=");
    put_num(&mut out, placement_id);
    out.append(",c=");
    put_num(&mut out, rect.cols as u32);
    out.append(",r=");
    put_num(&mut out, rect.rows as u32);
    out.append(",C=1,q=2\x1b\\\x1b8");
    out
}

/// Delete one placement of image `id` (lowercase `d=i` → keep the image data so it
/// can be re-placed on scroll without re-transmitting).
pub fn delete_placement(id: u32, placement_id: u32) -> (r: String)
    ensures
        r@ == placement_deletion(id, placement_id),
{
    let mut out = "\x1b_Ga=d,d=i,i=".to_string();
    put_num(&mut out, id);
    out.append(",p=");
    put_num(&mut out, placement_id);
    out.append(",q=2\x1b\\");
    out
}

/// Free image `id`'s stored data entirely (uppercase `d=I`) — used to bound terminal
/// memory when the browse result set changes.
pub fn free_image(id: u32) -> (r: String)
    ensures
        r@ == image_release(id),
{
    let mut out = "\x1b_Ga=d,d=I,i=".to_string();
    put_num(&mut out, id);
    out.append(",q=2\x1b\\");
    out
}

/// Place the details poster PNG into `rect` using the fixed [`POSTER_ID`].
pub fn transmit_png(png: &[u8], rect: CellRect) -> (r: String)
    requires
        codec::encodable(png@.len()),
        rect.addressable(),
    ensures
        r@ == display(codec::base64_text(png@), rect, POSTER_ID),
{
    transmit_png_id(png, rect, POSTER_ID)
}

/// Build the escape sequence that places a PNG, scaled into `rect.cols × rect.rows`
/// cells at `rect.left/top`, under image id `id`. The cursor is saved, moved to the
/// rect's top-left, the image transmitted+displayed in chunks, then restored — so it
/// never disturbs the TUI's cursor state.
///
/// Kitty requires the base64 payload split into ≤4096-byte chunks with `m=1` on
/// every chunk but the last. Pure string builder → no IO, unit-testable.
pub fn transmit_png_id(png: &[u8], rect: CellRect, id: u32) -> (r: String)
    requires
        codec::encodable(png@.len()),
        rect.addressable(),
    ensures
        r@ == display(codec::base64_text(png@), rect, id),
{
    let b64 = codec::encode_base64(png);
    let mut first = "a=T,f=100,i=".to_string();
    put_num(&mut first, id);
    first.append(",c=");
    put_num(&mut first, rect.cols as u32);
    first.append(",r=");
    put_num(&mut first, rect.rows as u32);
    let mut out = "\x1b7".to_string();
    put_cursor(&mut out, rect);
    put_frames(&mut out, b64.as_str(), first.as_str(), "");
    out.append("\x1b8");
    out
}

/// One of the names that tell a terminal with Kitty graphics.
pub open spec fn names_kitty(s: Seq<char>) -> bool {
    let l = text::lowercase(s);
    text::contains(l, "kitty"@) || text::contains(l, "ghostty"@) || text::contains(l, "wezterm"@)
}

fn is_kitty_name(s: &str) -> (r: bool)
    ensures
        r == names_kitty(s@),
{
    let l = text::lowered(s);
    text::str_has(l.as_str(), "kitty") || text::str_has(l.as_str(), "ghostty") || text::str_has(
        l.as_str(),
        "wezterm",
    )
}

/// Best-effort detection of Kitty graphics support, from whether `KITTY_WINDOW_ID`
/// is set and what `TERM` and `TERM_PROGRAM` say.
///
/// Ghostty, Kitty and WezTerm implement the protocol. `KITTY_WINDOW_ID` is set
/// by Kitty; `TERM`/`TERM_PROGRAM` cover Ghostty and WezTerm. This heuristic decides
/// the default backend without blocking startup.
pub fn probe_support(window_id: bool, term: &str, prog: &str) -> (r: bool)
    ensures
        r == (window_id || names_kitty(term@) || names_kitty(prog@)),
{
    window_id || is_kitty_name(term) || is_kitty_name(prog)
}

} // verus!
