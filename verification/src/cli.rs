//! The command line. Kept tiny and dependency-free.

use crate::config::Config;
use crate::errors::Result;
use crate::text;
use vstd::prelude::*;

verus! {

pub const VERSION: &'static str = "0.1.0";

pub const USAGE: &'static str =
    "anime-tui — terminal client for Nakanime with in-terminal (Kitty) playback via mpv\n\nUSAGE:\n    anime-tui [OPTIONS]\n\nOPTIONS:\n    -h, --help           Print this help and exit\n    -V, --version        Print version and exit\n        --paths          Print config/data/cache directories and exit\n        --config <PATH>  Use an alternate config file\n\nRuntime deps: mpv and yt-dlp on PATH (ffmpeg too, for downloading HLS episodes).\nConfig is TOML at the path shown by --paths.";

/// What the command line asks for.
#[derive(Debug, PartialEq, Eq)]
pub enum Cli {
    /// Run, with an alternate config file or without.
    Run { config: Option<String> },
    Help,
    Version,
    Paths,
    /// `--config` without a path.
    MissingPath,
    /// An argument that is none of ours.
    Unknown(String),
}

/// What a command line asks for.
pub ghost enum CliModel {
    Run { config: Option<Seq<char>> },
    Help,
    Version,
    Paths,
    MissingPath,
    Unknown(Seq<char>),
}

impl View for Cli {
    type V = CliModel;

    open spec fn view(&self) -> CliModel {
        match self {
            Cli::Run { config } => CliModel::Run { config: text::opt_text(*config) },
            Cli::Help => CliModel::Help,
            Cli::Version => CliModel::Version,
            Cli::Paths => CliModel::Paths,
            Cli::MissingPath => CliModel::MissingPath,
            Cli::Unknown(a) => CliModel::Unknown(a@),
        }
    }
}

/// What the arguments from position `i` on ask for, when `config` is the path given so
/// far. The first argument that ends the run decides; of several paths the last one
/// counts.
pub open spec fn asked(args: Seq<Seq<char>>, i: int, config: Option<Seq<char>>) -> CliModel
    decreases args.len() - i,
{
    if i < 0 || i >= args.len() {
        CliModel::Run { config }
    } else if args[i] == "-h"@ || args[i] == "--help"@ {
        CliModel::Help
    } else if args[i] == "-V"@ || args[i] == "--version"@ {
        CliModel::Version
    } else if args[i] == "--paths"@ {
        CliModel::Paths
    } else if args[i] == "--config"@ {
        if i + 1 < args.len() {
            asked(args, i + 2, Some(args[i + 1]))
        } else {
            CliModel::MissingPath
        }
    } else {
        CliModel::Unknown(args[i])
    }
}

/// A path behind `--config` is taken and the rest is read on its own; the first argument
/// that asks for something else decides, whatever stands behind it.
pub proof fn law_arguments(
    path: Seq<char>,
    rest: Seq<Seq<char>>,
    config: Option<Seq<char>>,
    arg: Seq<char>,
)
    ensures
        asked(seq!["--config"@, path] + rest, 0, config) == asked(rest, 0, Some(path)),
        asked(seq!["--config"@], 0, config) == CliModel::MissingPath,
        arg == "-h"@ || arg == "--help"@ ==> asked(seq![arg] + rest, 0, config) == CliModel::Help,
        arg == "-V"@ || arg == "--version"@ ==> asked(seq![arg] + rest, 0, config)
            == CliModel::Version,
        arg == "--paths"@ ==> asked(seq![arg] + rest, 0, config) == CliModel::Paths,
        arg != "-h"@ && arg != "--help"@ && arg != "-V"@ && arg != "--version"@ && arg
            != "--paths"@ && arg != "--config"@ ==> asked(seq![arg] + rest, 0, config)
            == CliModel::Unknown(arg),
        asked(Seq::empty(), 0, config) == (CliModel::Run { config }),
{
    reveal_strlit("-h");
    reveal_strlit("--help");
    reveal_strlit("-V");
    reveal_strlit("--version");
    reveal_strlit("--paths");
    reveal_strlit("--config");
    assert("-h"@[1] == 'h' && "-V"@[1] == 'V');
    assert("--help"@[2] == 'h' && "--version"@[2] == 'v' && "--paths"@[2] == 'p' && "--config"@[2]
        == 'c');
    let args = seq!["--config"@, path] + rest;
    assert(args[0] == "--config"@ && args[1] == path);
    lemma_asked_behind(seq!["--config"@, path], rest, 0, Some(path));
    let one = seq![arg] + rest;
    assert(one[0] == arg);
    assert(seq!["--config"@][0] == "--config"@);
}

proof fn lemma_asked_behind(
    a: Seq<Seq<char>>,
    b: Seq<Seq<char>>,
    i: int,
    config: Option<Seq<char>>,
)
    requires
        0 <= i <= b.len(),
    ensures
        asked(a + b, a.len() + i, config) == asked(b, i, config),
    decreases b.len() - i,
{
    if i < b.len() {
        assert((a + b)[a.len() + i] == b[i]);
        if i + 1 < b.len() {
            assert((a + b)[a.len() + i + 1] == b[i + 1]);
            lemma_asked_behind(a, b, i + 2, Some(b[i + 1]));
        }
    }
}

/// Parse the arguments behind the program's name.
pub fn parse_args(args: &Vec<String>) -> (r: Cli)
    ensures
        r@ == asked(text::texts(args@), 0, None),
{
    let ghost all = text::texts(args@);
    let mut config: Option<String> = None;
    let len: usize = args.len();
    let mut i: usize = 0;
    while i < len
        invariant
            i <= len,
            len == args@.len(),
            all == text::texts(args@),
            asked(all, i as int, text::opt_text(config)) == asked(all, 0, None),
        decreases len - i,
    {
        let arg = args[i].as_str();
        assert(all[i as int] == arg@);
        if text::str_same(arg, "-h") || text::str_same(arg, "--help") {
            return Cli::Help;
        }
        if text::str_same(arg, "-V") || text::str_same(arg, "--version") {
            return Cli::Version;
        }
        if text::str_same(arg, "--paths") {
            return Cli::Paths;
        }
        if !text::str_same(arg, "--config") {
            return Cli::Unknown(args[i].clone());
        }
        if i + 1 >= len {
            return Cli::MissingPath;
        }
        assert(all[i + 1] == args@[i + 1]@);
        config = Some(args[i + 1].clone());
        i = i + 2;
    }
    Cli::Run { config }
}

/// The line that says the version.
pub fn version_line() -> (r: String)
    ensures
        r@ == "anime-tui "@ + VERSION@,
{
    text::cat("anime-tui ", VERSION)
}

/// The complaint about a wrong command line, and nothing about a right one.
pub fn complaint(cli: &Cli) -> (r: Option<String>)
    ensures
        text::opt_text(r) == (match cli@ {
            CliModel::MissingPath => Some("error: --config requires a path argument"@),
            CliModel::Unknown(a) => Some(
                "error: unknown argument '"@ + a + "'\n\n"@ + USAGE@,
            ),
            _ => None,
        }),
{
    match cli {
        Cli::MissingPath => Some("error: --config requires a path argument".to_string()),
        Cli::Unknown(a) => {
            let mut s = text::cat("error: unknown argument '", a.as_str());
            s.append("'\n\n");
            s.append(USAGE);
            Some(s)
        },
        _ => None,
    }
}

/// A path that is known is printed behind its label, and one that is not as a question
/// mark.
pub proof fn law_path_line(label: &str, path: Result<String>, r: String)
    requires
        call_ensures(path_line, (label, path), r),
    ensures
        path matches Ok(p) ==> r@ == label@ + ": "@ + p@,
        path is Err ==> r@ == label@ + ": "@ + "?"@,
{
}

/// The line that shows a directory (best-effort; unknowns show as "?").
pub fn path_line(label: &str, path: Result<String>) -> (r: String)
    ensures
        r@ == label@ + ": "@ + (match path {
            Ok(p) => p@,
            Err(_) => "?"@,
        }),
{
    let mut s = text::cat(label, ": ");
    match path {
        Ok(p) => s.append(p.as_str()),
        Err(_) => s.append("?"),
    }
    s
}

/// Whether the offline mock provider is used: an empty `base_url` falls back to it
/// (useful for UI development / no network).
pub fn is_offline(config: &Config) -> (r: bool)
    ensures
        r == (config.base_url@.len() == 0),
{
    config.base_url.as_str().unicode_len() == 0
}

} // verus!
