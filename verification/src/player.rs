//! Playback abstraction. Backends control mpv over IPC; presentation is either
//! embedded Kitty output or an external mpv process (fallback).

pub mod embedded;
pub mod kitty;
pub mod mpv;

use crate::config::Config;
use crate::errors::{Error, Fault, Result};
use crate::number;
use crate::player::kitty::CellRect;
use crate::player::mpv::Presentation;
use crate::text;
use vstd::prelude::*;

verus! {

/// The socket through which the window of the process `pid` is controlled.
pub open spec fn window_socket(pid: u32) -> Seq<char> {
    "/tmp/anime-tui-mpv-"@ + number::digits(pid as nat) + ".sock"@
}

/// IPC socket path for the external-window backend. Deterministic per app process
/// (only one external play runs at a time) so the event loop can send it `quit`.
pub fn external_socket_path(pid: u32) -> (r: String)
    ensures
        r@ == window_socket(pid),
{
    let mut s = "/tmp/anime-tui-mpv-".to_string();
    s.append(number::decimal(pid as u64).as_str());
    s.append(".sock");
    s
}

/// What mpv exits with is an error exactly where it did not succeed, and each window is
/// reached under a socket of its own process.
pub proof fn law_exit(success: bool, status: &str, r: Result<()>, pid: u32)
    requires
        call_ensures(exit_outcome, (success, status), r),
    ensures
        r is Ok <==> success,
        r matches Err(e) ==> e@ == Fault::Player("mpv exited with "@ + status@),
        window_socket(pid) == "/tmp/anime-tui-mpv-"@ + number::digits(pid as nat) + ".sock"@,
{
}

/// What the end of an external mpv process means: `status` is how it exited.
pub fn exit_outcome(success: bool, status: &str) -> (r: Result<()>)
    ensures
        success ==> r is Ok,
        !success ==> (r matches Err(e) && e@ == Fault::Player("mpv exited with "@ + status@)),
{
    if success {
        Ok(())
    } else {
        Err(Error::Player(text::cat("mpv exited with ", status)))
    }
}

/// Chosen playback backend for this session.
#[derive(Debug, Clone, Copy, PartialEq, Eq, Structural)]
pub enum Backend {
    EmbeddedKitty,
    ExternalMpv,
}

/// Decide the backend. The default is the standalone mpv window (higher quality,
/// no terminal image-cache RAM). Embedded Kitty playback is opt-in and only used
/// when the config asks for it AND the terminal actually supports Kitty graphics.
pub fn select_backend(config: &Config, kitty_graphics: bool) -> (r: Backend)
    ensures
        r == (if config.embedded_player && kitty_graphics {
            Backend::EmbeddedKitty
        } else {
            Backend::ExternalMpv
        }),
{
    if config.embedded_player && kitty_graphics {
        Backend::EmbeddedKitty
    } else {
        Backend::ExternalMpv
    }
}

/// The embedded player is chosen only where it is asked for and can be shown.
pub proof fn law_backend(config: &Config, kitty_graphics: bool, r: Backend)
    requires
        call_ensures(select_backend, (config, kitty_graphics), r),
    ensures
        r == Backend::EmbeddedKitty <==> config.embedded_player && kitty_graphics,
{
}

impl Backend {
    /// How mpv presents the video under this backend.
    pub fn presentation(self, video_rect: CellRect) -> (r: Presentation)
        ensures
            r == (match self {
                Backend::EmbeddedKitty => Presentation::EmbeddedKitty { rect: video_rect },
                Backend::ExternalMpv => Presentation::External { input_conf: None },
            }),
    {
        match self {
            Backend::EmbeddedKitty => Presentation::EmbeddedKitty { rect: video_rect },
            Backend::ExternalMpv => Presentation::External { input_conf: None },
        }
    }

    /// The backend's name.
    pub open spec fn named(self) -> Seq<char> {
        match self {
            Backend::EmbeddedKitty => "EmbeddedKitty"@,
            Backend::ExternalMpv => "ExternalMpv"@,
        }
    }

    /// The backend's name, as the status line shows it.
    pub fn name(self) -> (r: &'static str)
        ensures
            r@ == self.named(),
    {
        match self {
            Backend::EmbeddedKitty => "EmbeddedKitty",
            Backend::ExternalMpv => "ExternalMpv",
        }
    }
}

} // verus!
