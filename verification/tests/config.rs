use anime_tui::config::{Config, ConfigFile, PartialConfig};
use anime_tui::errors::Error;

fn nothing_said() -> PartialConfig {
    PartialConfig {
        base_url: None,
        mpv_path: None,
        embedded_player: None,
        cache_dir: None,
        progress_save_interval_secs: None,
        timeout_secs: None,
        max_retries: None,
        user_agent: None,
        max_buffer_mib: None,
        readahead_secs: None,
        skip_intro_secs: None,
        default_source: None,
    }
}

/// What a TOML text says of the fields that these tests use.
fn read(toml: &str) -> PartialConfig {
    let table: toml::Table = toml.parse().unwrap();
    let mut p = nothing_said();
    p.base_url = table.get("base_url").and_then(|v| v.as_str()).map(str::to_string);
    if let Some(playback) = table.get("playback").and_then(|v| v.as_table()) {
        p.skip_intro_secs =
            playback.get("skip_intro_secs").and_then(|v| v.as_integer()).map(|n| n as u64);
    }
    p
}

#[test]
fn defaults_are_sane() {
    let c = Config::default();
    assert_eq!(c.playback.skip_intro_secs, 85);
    assert!(!c.embedded_player);
}

#[test]
fn partial_toml_keeps_defaults() {
    // Only overriding one playback field keeps the rest at defaults.
    let c = read("[playback]\nskip_intro_secs = 90\n").complete();
    assert_eq!(c.playback.skip_intro_secs, 90);
    assert_eq!(c.playback.max_buffer_mib, 64);
}

#[test]
fn load_from_reads_alternate_file() {
    let alt = ConfigFile::Read(Ok(read("base_url = \"https://example.test\"\n")));
    let c = Config::load_from(alt).unwrap();
    assert_eq!(c.base_url, "https://example.test");
    // A missing file falls back to defaults rather than erroring.
    let missing = Config::load_from(ConfigFile::Missing).unwrap();
    assert_eq!(missing.base_url, Config::default().base_url);
}

#[test]
fn every_field_can_be_set() {
    let c = PartialConfig {
        base_url: Some("https://b".into()),
        mpv_path: Some("/usr/bin/mpv".into()),
        embedded_player: Some(true),
        cache_dir: Some("/c".into()),
        progress_save_interval_secs: Some(1),
        timeout_secs: Some(2),
        max_retries: Some(3),
        user_agent: Some("ua".into()),
        max_buffer_mib: Some(4),
        readahead_secs: Some(5),
        skip_intro_secs: Some(6),
        default_source: Some("sibnet".into()),
    }
    .complete();
    assert_eq!(c.base_url, "https://b");
    assert_eq!(c.mpv_path, "/usr/bin/mpv");
    assert!(c.embedded_player);
    assert_eq!(c.cache_dir.as_deref(), Some("/c"));
    assert_eq!(c.progress_save_interval_secs, 1);
    assert_eq!(c.network.timeout_secs, 2);
    assert_eq!(c.network.max_retries, 3);
    assert_eq!(c.network.user_agent, "ua");
    assert_eq!(c.playback.max_buffer_mib, 4);
    assert_eq!(c.playback.readahead_secs, 5);
    assert_eq!(c.playback.skip_intro_secs, 6);
    assert_eq!(c.playback.default_source, "sibnet");
}

#[test]
fn a_bad_config_file_is_an_error() {
    let bad = Config::load_from(ConfigFile::Read(Err("line 1".to_string())));
    assert!(matches!(bad, Err(Error::Config(ref m)) if m == "line 1"));
    let unreadable = Config::load_from(ConfigFile::Unreadable("denied".to_string()));
    assert!(matches!(unreadable, Err(Error::Io(ref m)) if m == "denied"));
}

#[test]
fn paths_need_a_platform_directory() {
    assert_eq!(Config::config_path(Some("/home/u/.config/app")).unwrap(), "/home/u/.config/app/config.toml");
    assert!(matches!(Config::config_path(None), Err(Error::Config(_))));
    assert!(matches!(Config::data_dir(None), Err(Error::Config(_))));
    assert!(matches!(Config::load(None, ConfigFile::Missing), Err(Error::Config(_))));
    assert!(Config::load(Some("/c"), ConfigFile::Missing).is_ok());
    assert_eq!(Config::data_dir(Some("/d")).unwrap(), "/d");
    let mut c = Config::default();
    assert!(matches!(c.cache_dir(None), Err(Error::Config(_))));
    assert_eq!(c.cache_dir(Some("/p")).unwrap(), "/p");
    c.cache_dir = Some("/own".to_string());
    assert_eq!(c.cache_dir(Some("/p")).unwrap(), "/own");
}
