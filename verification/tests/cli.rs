use anime_tui::cli::{complaint, is_offline, parse_args, path_line, version_line, Cli, USAGE};
use anime_tui::config::Config;
use anime_tui::database::{
    listed, migrated, now_unix, optional, stored_year, toggle_favourite, Row, Toggle,
};
use anime_tui::errors::Error;
use anime_tui::terminal::restoration;

fn parse(args: &[&str]) -> Cli {
    parse_args(&args.iter().map(|a| a.to_string()).collect())
}

#[test]
fn arguments_are_read_in_order() {
    assert_eq!(parse(&[]), Cli::Run { config: None });
    assert_eq!(parse(&["--config", "a"]), Cli::Run { config: Some("a".into()) });
    assert_eq!(
        parse(&["--config", "a", "--config", "b"]),
        Cli::Run { config: Some("b".into()) }
    );
    assert_eq!(parse(&["-h"]), Cli::Help);
    assert_eq!(parse(&["--help", "--nope"]), Cli::Help);
    assert_eq!(parse(&["-V"]), Cli::Version);
    assert_eq!(parse(&["--version"]), Cli::Version);
    assert_eq!(parse(&["--config", "a", "--paths"]), Cli::Paths);
    assert_eq!(parse(&["--config", "--help"]), Cli::Run { config: Some("--help".into()) });
    assert_eq!(parse(&["--config"]), Cli::MissingPath);
    assert_eq!(parse(&["--nope", "-h"]), Cli::Unknown("--nope".into()));
}

#[test]
fn wrong_arguments_are_complained_about() {
    assert_eq!(
        complaint(&Cli::MissingPath).as_deref(),
        Some("error: --config requires a path argument")
    );
    assert_eq!(
        complaint(&Cli::Unknown("x".into())),
        Some(format!("error: unknown argument 'x'\n\n{USAGE}"))
    );
    assert_eq!(complaint(&Cli::Help), None);
    assert_eq!(version_line(), "anime-tui 0.1.0");
    assert!(USAGE.contains("\n        --config <PATH>  Use an alternate config file\n"));
}

#[test]
fn unknown_directories_show_as_a_question_mark() {
    assert_eq!(path_line("data", Ok("/d".into())), "data: /d");
    assert_eq!(path_line("data", Err(Error::Timeout)), "data: ?");
}

#[test]
fn an_empty_base_url_means_offline() {
    assert!(is_offline(&Config::default()));
    let mut c = Config::default();
    c.base_url = "https://x".to_string();
    assert!(!is_offline(&c));
}

#[test]
fn a_missing_row_is_no_error() {
    assert_eq!(optional(Row::Found(3)), Ok(Some(3)));
    assert_eq!(optional::<u8>(Row::Missing), Ok(None));
    assert_eq!(
        optional::<u8>(Row::Failed("locked".into())),
        Err(Error::Database("locked".into()))
    );
}

#[test]
fn an_existing_column_needs_no_migration() {
    assert_eq!(migrated(Ok(())), Ok(()));
    assert_eq!(migrated(Err("duplicate column name: poster_url".into())), Ok(()));
    assert_eq!(migrated(Err("locked".into())), Err(Error::Database("locked".into())));
}

#[test]
fn toggling_removes_what_is_there() {
    assert_eq!(toggle_favourite(true), (Toggle::Remove, false));
    assert_eq!(toggle_favourite(false), (Toggle::Put, true));
}

#[test]
fn stored_years_come_back() {
    let a = listed("1".into(), "T".into(), stored_year(Some(2020)), Some("p".into()));
    assert_eq!(a.id.0, "1");
    assert_eq!(a.title, "T");
    assert_eq!(a.year, Some(2020));
    assert_eq!(a.poster_url.as_deref(), Some("p"));
    assert_eq!(listed("1".into(), "T".into(), Some(-1), None).year, Some(65535));
    assert_eq!(listed("1".into(), "T".into(), stored_year(None), None).year, None);
    assert_eq!(now_unix(Some(7)), 7);
    assert_eq!(now_unix(None), 0);
}

#[test]
fn restoring_drops_images_and_input_modes() {
    let s = restoration();
    assert!(s.starts_with("\x1b_Ga=d,d=A\x1b\\"));
    assert!(s.ends_with("\x1b[?1004l\x1b[?2004l"));
}
