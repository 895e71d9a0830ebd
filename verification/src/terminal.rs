//! What puts the terminal back in order when the app exits.

use crate::player::kitty::DELETE_ALL_IMAGES;
use crate::text;
use vstd::prelude::*;

verus! {

/// Sequences that disable terminal input modes mpv may turn on (mouse tracking
/// in all encodings, focus reporting, bracketed paste). mpv is killed abruptly
/// on our exit paths, so it never resets these itself — without this the shell
/// is flooded with mouse escape sequences (e.g. `CQ:`/`CN:`) after we quit.
pub const DISABLE_INPUT_MODES: &'static str =
    "\x1b[?1000l\x1b[?1002l\x1b[?1003l\x1b[?1006l\x1b[?1015l\x1b[?1004l\x1b[?2004l";

/// What is written to the terminal on every exit path, before the alternate screen is
/// left: the images go, and the input modes are off.
pub fn restoration() -> (r: String)
    ensures
        r@ == DELETE_ALL_IMAGES@ + DISABLE_INPUT_MODES@,
{
    text::cat(DELETE_ALL_IMAGES, DISABLE_INPUT_MODES)
}

} // verus!
