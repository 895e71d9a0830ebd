//! Input mapping: raw key events -> typed [`Action`]s. Keeping this separate
//! makes bindings configurable and lets state-transition tests drive the app
//! without a real terminal.

use vstd::prelude::*;

verus! {

/// Everything the user can ask the app to do. The event loop consumes these;
/// it never inspects raw keycodes directly.
#[derive(Debug, Clone, Copy, PartialEq, Eq, Structural)]
pub enum Action {
    Quit,
    Up,
    Down,
    Left,
    Right,
    Select,
    Back,
    Search,
    Tab,
    ToggleFavourite,
    /// Cycle catalogue sort order (browse views).
    CycleSort,
    /// Enter the client-side quick-filter capture (browse views).
    Filter,
    /// Open the source picker for the selected episode (Episodes view). Plain Enter
    /// plays the default source directly; this key lets you choose another.
    ChooseSource,
    /// Play the selected episode from the start (Episodes view).
    Replay,
    /// Download the selected episode, or the highlighted source in the picker.
    Download,
    /// Delete the selected episode's downloaded file (Episodes view).
    RemoveDownload,
    // Playback
    PlayPause,
    SeekForward,
    SeekBackward,
    VolumeUp,
    VolumeDown,
    Mute,
    NextEpisode,
    PrevEpisode,
    CycleSubtitle,
    CycleAudio,
    StopPlayback,
}

/// A key of the keyboard. Keys that nothing is bound to are `Other`.
#[derive(Debug, Clone, Copy, PartialEq, Eq, Structural)]
pub enum KeyCode {
    Char(char),
    Enter,
    Esc,
    Tab,
    Backspace,
    Up,
    Down,
    Left,
    Right,
    Other,
}

/// The modifier keys that the keymap tells apart: control is held down or it is not.
#[derive(Debug, Clone, Copy, PartialEq, Eq, Structural)]
pub enum KeyModifiers {
    NONE,
    CONTROL,
}

/// The keymap: which action each key asks for.
pub open spec fn bound(code: KeyCode, control: bool) -> Option<Action> {
    match code {
        KeyCode::Char(c) => if control && c == 'c' {
            Some(Action::Quit)
        } else if c == 'q' {
            Some(Action::Quit)
        } else if c == 'k' {
            Some(Action::Up)
        } else if c == 'j' {
            Some(Action::Down)
        } else if c == 'h' {
            Some(Action::Left)
        } else if c == 'l' {
            Some(Action::Right)
        } else if c == '/' {
            Some(Action::Search)
        } else if c == 'f' {
            Some(Action::ToggleFavourite)
        } else if c == 'S' {
            Some(Action::CycleSort)
        } else if c == 'F' {
            Some(Action::Filter)
        } else if c == 'c' {
            Some(Action::ChooseSource)
        } else if c == ' ' {
            Some(Action::PlayPause)
        } else if c == 'm' {
            Some(Action::Mute)
        } else if c == 'n' {
            Some(Action::NextEpisode)
        } else if c == 'p' {
            Some(Action::PrevEpisode)
        } else if c == 's' {
            Some(Action::CycleSubtitle)
        } else if c == 'a' {
            Some(Action::CycleAudio)
        } else {
            None
        },
        KeyCode::Up => Some(Action::Up),
        KeyCode::Down => Some(Action::Down),
        KeyCode::Left => Some(Action::Left),
        KeyCode::Right => Some(Action::Right),
        KeyCode::Enter => Some(Action::Select),
        KeyCode::Esc => Some(Action::Back),
        KeyCode::Tab => Some(Action::Tab),
        KeyCode::Backspace => None,
        KeyCode::Other => None,
    }
}

/// The letters of motion do what the arrow keys do, control with `c` quits as `q` does,
/// and no two other letters ask for the same thing: each action has its letter.
pub proof fn law_keymap(c: char, d: char, control: bool)
    ensures
        bound(KeyCode::Char('k'), control) == bound(KeyCode::Up, control),
        bound(KeyCode::Char('j'), control) == bound(KeyCode::Down, control),
        bound(KeyCode::Char('h'), control) == bound(KeyCode::Left, control),
        bound(KeyCode::Char('l'), control) == bound(KeyCode::Right, control),
        bound(KeyCode::Up, control) == Some(Action::Up),
        bound(KeyCode::Down, control) == Some(Action::Down),
        bound(KeyCode::Left, control) == Some(Action::Left),
        bound(KeyCode::Right, control) == Some(Action::Right),
        bound(KeyCode::Enter, control) == Some(Action::Select),
        bound(KeyCode::Esc, control) == Some(Action::Back),
        bound(KeyCode::Tab, control) == Some(Action::Tab),
        bound(KeyCode::Char('c'), true) == bound(KeyCode::Char('q'), true),
        bound(KeyCode::Char(c), false) is Some && bound(KeyCode::Char(c), false) == bound(
            KeyCode::Char(d),
            false,
        ) ==> c == d,
        c != 'c' ==> bound(KeyCode::Char(c), true) == bound(KeyCode::Char(c), false),
        bound(KeyCode::Char(c), false) == Some(Action::Quit) <==> c == 'q',
        bound(KeyCode::Char(c), false) == Some(Action::Search) <==> c == '/',
        bound(KeyCode::Char(c), false) == Some(Action::ToggleFavourite) <==> c == 'f',
        bound(KeyCode::Char(c), false) == Some(Action::CycleSort) <==> c == 'S',
        bound(KeyCode::Char(c), false) == Some(Action::Filter) <==> c == 'F',
        bound(KeyCode::Char(c), false) == Some(Action::ChooseSource) <==> c == 'c',
        bound(KeyCode::Char(c), false) == Some(Action::PlayPause) <==> c == ' ',
        bound(KeyCode::Char(c), false) == Some(Action::Mute) <==> c == 'm',
        bound(KeyCode::Char(c), false) == Some(Action::NextEpisode) <==> c == 'n',
        bound(KeyCode::Char(c), false) == Some(Action::PrevEpisode) <==> c == 'p',
        bound(KeyCode::Char(c), false) == Some(Action::CycleSubtitle) <==> c == 's',
        bound(KeyCode::Char(c), false) == Some(Action::CycleAudio) <==> c == 'a',
{
}

/// Default keymap. Vim-style motion plus intuitive playback keys.
pub fn default_binding(code: KeyCode, mods: KeyModifiers) -> (r: Option<Action>)
    ensures
        r == bound(code, mods == KeyModifiers::CONTROL),
{
    if mods == KeyModifiers::CONTROL && code == KeyCode::Char('c') {
        return Some(Action::Quit);
    }
    match code {
        KeyCode::Char('q') => Some(Action::Quit),
        KeyCode::Char('k') | KeyCode::Up => Some(Action::Up),
        KeyCode::Char('j') | KeyCode::Down => Some(Action::Down),
        KeyCode::Char('h') | KeyCode::Left => Some(Action::Left),
        KeyCode::Char('l') | KeyCode::Right => Some(Action::Right),
        KeyCode::Enter => Some(Action::Select),
        KeyCode::Esc => Some(Action::Back),
        KeyCode::Char('/') => Some(Action::Search),
        KeyCode::Tab => Some(Action::Tab),
        KeyCode::Char('f') => Some(Action::ToggleFavourite),
        KeyCode::Char('S') => Some(Action::CycleSort),
        KeyCode::Char('F') => Some(Action::Filter),
        KeyCode::Char('c') => Some(Action::ChooseSource),
        KeyCode::Char(' ') => Some(Action::PlayPause),
        KeyCode::Char('m') => Some(Action::Mute),
        KeyCode::Char('n') => Some(Action::NextEpisode),
        KeyCode::Char('p') => Some(Action::PrevEpisode),
        KeyCode::Char('s') => Some(Action::CycleSubtitle),
        KeyCode::Char('a') => Some(Action::CycleAudio),
        _ => None,
    }
}

} // verus!
