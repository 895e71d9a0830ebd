use anime_tui::player::kitty::CellRect;
use anime_tui::json::Json;
use anime_tui::player::mpv::{
    build_args, external_input_conf, ipc_command, launch_args, start_option, MpvTuning,
    Presentation,
};
use anime_tui::seconds::Seconds;

#[test]
fn external_args_have_no_kitty_vo() {
    let a = build_args(
        "https://x/v.m3u8",
        "/tmp/s",
        &Presentation::External { input_conf: None },
        &[],
        &MpvTuning::default(),
    );
    assert!(!a.iter().any(|s| s.contains("vo=kitty")));
    assert!(a.iter().any(|s| s == "--input-terminal=no"));
    // URL is last and separated by `--` so it can't be read as a flag.
    assert_eq!(a.last().unwrap(), "https://x/v.m3u8");
    assert_eq!(a[a.len() - 2], "--");
}

#[test]
fn external_window_gets_our_bindings_embedded_does_not() {
    // External: no default-bindings suppression, and our conf when provided.
    let ext = build_args(
        "https://x/v",
        "/tmp/s",
        &Presentation::External { input_conf: Some("/tmp/anime-tui-input.conf".into()) },
        &[],
        &MpvTuning::default(),
    );
    assert!(!ext.iter().any(|s| s == "--no-input-default-bindings"));
    assert!(ext.iter().any(|s| s == "--input-conf=/tmp/anime-tui-input.conf"));
    // Embedded: bindings suppressed (driven over IPC), never an input-conf.
    let rect = CellRect { left: 0, top: 0, cols: 8, rows: 8, pixel_width: None, pixel_height: None };
    let emb = build_args(
        "https://x/v",
        "/tmp/s",
        &Presentation::EmbeddedKitty { rect },
        &[],
        &MpvTuning::default(),
    );
    assert!(emb.iter().any(|s| s == "--no-input-default-bindings"));
    assert!(!emb.iter().any(|s| s.starts_with("--input-conf")));
}

#[test]
fn external_input_conf_mirrors_tui_binds() {
    let conf = external_input_conf(85);
    assert!(conf.contains("SPACE cycle pause"));
    assert!(conf.contains("l seek 10"));
    assert!(conf.contains("h seek -10"));
    assert!(conf.contains("i seek 85"));
    assert!(conf.contains("q quit"));
}

#[test]
fn external_input_conf_has_a_line_for_each_key() {
    let lines = [
        "# anime-tui: keep in sync with Runner::on_player_key",
        "SPACE cycle pause",
        "h seek -10",
        "LEFT seek -10",
        "l seek 10",
        "RIGHT seek 10",
        ", seek -5",
        ". seek 5",
        "i seek 18446744073709551615",
        "UP add volume 5",
        "= add volume 5",
        "+ add volume 5",
        "DOWN add volume -5",
        "- add volume -5",
        "m cycle mute",
        "s cycle sub",
        "a cycle aid",
        "f cycle fullscreen",
        "q quit",
        "ESC quit",
        "",
    ];
    assert_eq!(external_input_conf(u64::MAX), lines.join("\n"));
}

#[test]
fn embedded_args_carry_placement() {
    let rect = CellRect { left: 3, top: 2, cols: 40, rows: 20, pixel_width: None, pixel_height: None };
    let a = build_args(
        "https://x/v",
        "/tmp/s",
        &Presentation::EmbeddedKitty { rect },
        &[],
        &MpvTuning::default(),
    );
    assert!(a.iter().any(|s| s == "--vo=kitty"));
    assert!(a.iter().any(|s| s == "--vo-kitty-cols=40"));
    assert!(a.iter().any(|s| s == "--vo-kitty-left=3"));
    assert!(a.iter().any(|s| s == "--vo-kitty-alt-screen=no"));
}

#[test]
fn external_requests_best_quality() {
    let a = build_args(
        "https://x/v",
        "/tmp/s",
        &Presentation::External { input_conf: None },
        &[],
        &MpvTuning::high_quality(),
    );
    assert!(a.iter().any(|s| s == "--ytdl-format=bestvideo+bestaudio/best"));
    assert!(a.iter().any(|s| s == "--demuxer-max-bytes=256MiB"));
    // Best-quality format selection is external-only, never embedded.
    let rect = CellRect { left: 0, top: 0, cols: 10, rows: 10, pixel_width: None, pixel_height: None };
    let e = build_args(
        "https://x/v",
        "/tmp/s",
        &Presentation::EmbeddedKitty { rect },
        &[],
        &MpvTuning::default(),
    );
    assert!(!e.iter().any(|s| s.starts_with("--ytdl-format")));
}

#[test]
fn tuning_bounds_readahead_buffer() {
    let t = MpvTuning { max_buffer_mib: 64, readahead_secs: 8 };
    let a = build_args("https://x/v", "/tmp/s", &Presentation::External { input_conf: None }, &[], &t);
    assert!(a.iter().any(|s| s == "--demuxer-max-bytes=64MiB"));
    assert!(a.iter().any(|s| s == "--demuxer-max-back-bytes=32MiB"));
    assert!(a.iter().any(|s| s == "--cache-secs=8"));
}

#[test]
fn headers_are_joined() {
    let h = vec![("Referer".into(), "https://ref".into())];
    let a = build_args(
        "https://x/v",
        "/tmp/s",
        &Presentation::External { input_conf: None },
        &h,
        &MpvTuning::default(),
    );
    assert!(a.iter().any(|s| s == "--http-header-fields=Referer: https://ref"));
}

#[test]
fn comma_valued_headers_are_dropped() {
    // A comma in a value would corrupt the comma-separated field list.
    let h = vec![
        ("Referer".into(), "https://ref".into()),
        ("Accept".into(), "text/html,application/xml".into()),
    ];
    let a = build_args(
        "https://x/v",
        "/tmp/s",
        &Presentation::External { input_conf: None },
        &h,
        &MpvTuning::default(),
    );
    // Only the comma-free header survives, and it's the whole field value.
    assert!(a.iter().any(|s| s == "--http-header-fields=Referer: https://ref"));
    assert!(!a.iter().any(|s| s.contains("Accept")));
}

#[test]
fn ipc_command_is_newline_terminated_json() {
    let line =
        ipc_command(&[Json::Text("cycle".to_string()), Json::Text("pause".to_string())]).unwrap();
    assert!(line.ends_with('\n'));
    assert!(line.contains("\"command\""));
    assert_eq!(line, "{\"command\":[\"cycle\",\"pause\"]}\n");
}

#[test]
fn playback_starts_at_a_saved_position_past_the_first_second() {
    let at = |secs: f64| Seconds { bits: secs.to_bits() };
    assert_eq!(start_option(at(1.0), "1.000"), None);
    assert_eq!(start_option(at(0.0), "0.000"), None);
    assert_eq!(start_option(at(f64::NAN), "NaN"), None);
    assert_eq!(start_option(at(42.5), "42.500").as_deref(), Some("--start=+42.500"));
}

#[test]
fn the_start_option_stands_before_the_separator() {
    let args = launch_args(
        "https://x/v",
        "/tmp/s",
        &Presentation::External { input_conf: None },
        &[],
        &MpvTuning::default(),
        Some("--start=+5.000".to_string()),
    );
    let n = args.len();
    assert_eq!(&args[n - 3..], &["--start=+5.000", "--", "https://x/v"]);
    let plain = launch_args(
        "https://x/v",
        "/tmp/s",
        &Presentation::External { input_conf: None },
        &[],
        &MpvTuning::default(),
        None,
    );
    assert_eq!(plain.len(), n - 1);
}

#[test]
fn the_window_skips_the_configured_opening() {
    assert!(external_input_conf(123).contains("\ni seek 123\n"));
    assert_eq!(MpvTuning::high_quality().max_buffer_mib, 256);
}
