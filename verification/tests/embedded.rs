use anime_tui::app::FrameRate;
use anime_tui::errors::Error;
use anime_tui::json::Json;
use anime_tui::player::embedded::{
    control_line, embedded_socket_path, is_removable, observe_lines, Control, Observer,
};
use anime_tui::player::{exit_outcome, external_socket_path};

fn change(name: &str, data: &str) -> String {
    format!("{{\"event\":\"property-change\",\"id\":1,\"name\":\"{name}\",\"data\":{data}}}")
}

#[test]
fn one_sample_per_whole_second() {
    let mut o = Observer::new();
    assert!(o.observe(&change("duration", "1400.5"), 0).is_none());
    let first = o.observe(&change("time-pos", "0.0"), 1).unwrap();
    assert_eq!(f64::from_bits(first.position.bits), 0.0);
    assert_eq!(f64::from_bits(first.duration.bits), 1400.5);
    assert!(!first.paused);
    assert!(o.observe(&change("time-pos", "0.9"), 2).is_none());
    assert!(o.observe(&change("pause", "true"), 3).is_none());
    let second = o.observe(&change("time-pos", "1.2"), 4).unwrap();
    assert!(second.paused);
    assert_eq!(f64::from_bits(second.position.bits), 1.2);
    // Seeking back is another second too.
    assert!(o.observe(&change("time-pos", "0.5"), 5).is_some());
}

#[test]
fn whole_numbers_count_as_positions() {
    let mut o = Observer::new();
    let u = o.observe(&change("time-pos", "7"), 0).unwrap();
    assert_eq!(f64::from_bits(u.position.bits), 7.0);
}

#[test]
fn other_lines_are_passed_over() {
    let mut o = Observer::new();
    assert!(o.observe("not json", 0).is_none());
    assert!(o.observe("{\"event\":\"end-file\"}", 0).is_none());
    assert!(o.observe("[1]", 0).is_none());
    assert!(o.observe(&change("volume", "3"), 0).is_none());
    assert!(o.observe(&change("time-pos", "null"), 0).is_none());
    assert!(o.observe(&change("pause", "1"), 0).is_none());
    assert!(!o.paused);
    assert!(o.frame_times.is_empty());
}

#[test]
fn the_rate_is_measured_over_the_last_frames() {
    let mut o = Observer::new();
    // 25 frames per second: one every 40 ms.
    for i in 0..50u64 {
        o.observe(&change("time-pos", &format!("{}.0", i)), i * 40_000_000);
    }
    assert_eq!(o.frame_times.len(), 30);
    assert_eq!(o.fps, Some(FrameRate { frames: 29, nanos: 29 * 40_000_000 }));
    let mut o = Observer::new();
    o.observe(&change("time-pos", "0"), 0);
    o.observe(&change("time-pos", "1"), 100_000_000);
    assert_eq!(o.fps, None);
    o.observe(&change("time-pos", "2"), 100_000_001);
    assert_eq!(o.fps, Some(FrameRate { frames: 2, nanos: 100_000_001 }));
}

#[test]
fn three_properties_are_observed() {
    assert_eq!(
        observe_lines(),
        vec![
            "{\"command\":[\"observe_property\",1,\"time-pos\"]}\n",
            "{\"command\":[\"observe_property\",2,\"duration\"]}\n",
            "{\"command\":[\"observe_property\",3,\"pause\"]}\n",
        ]
    );
}

#[test]
fn controls_are_written_as_commands() {
    let n = || Json::unsigned(5);
    let line = |c: Control| control_line(c, n());
    assert_eq!(line(Control::TogglePause), "{\"command\":[\"cycle\",\"pause\"]}\n");
    assert_eq!(line(Control::SeekRelative), "{\"command\":[\"seek\",5,\"relative\"]}\n");
    assert_eq!(line(Control::SeekAbsolute), "{\"command\":[\"seek\",5,\"absolute\"]}\n");
    assert_eq!(line(Control::AddVolume), "{\"command\":[\"add\",\"volume\",5]}\n");
    assert_eq!(line(Control::ToggleMute), "{\"command\":[\"cycle\",\"mute\"]}\n");
    assert_eq!(line(Control::CycleSubtitle), "{\"command\":[\"cycle\",\"sub\"]}\n");
    assert_eq!(line(Control::CycleAudio), "{\"command\":[\"cycle\",\"aid\"]}\n");
    assert_eq!(line(Control::Quit), "{\"command\":[\"quit\"]}\n");
    let half = Json::Number(serde_json::Number::from_f64(-10.0).unwrap());
    assert_eq!(
        control_line(Control::SeekRelative, half),
        "{\"command\":[\"seek\",-10.0,\"relative\"]}\n"
    );
}

#[test]
fn only_segments_of_mpv_are_removed() {
    let before = vec!["mpv-old".to_string()];
    assert!(is_removable(&before, "mpv-new", None, 0));
    assert!(is_removable(&before, "kitty-1", Some(1000), 1000));
    assert!(!is_removable(&before, "kitty-1", Some(999), 1000));
    assert!(!is_removable(&before, "mpv-old", None, 0));
    assert!(!is_removable(&before, "pulse-shm-1", None, 0));
}

#[test]
fn sockets_are_named_after_the_process() {
    assert_eq!(embedded_socket_path(42), "/tmp/anime-tui-embed-42.sock");
    assert_eq!(external_socket_path(42), "/tmp/anime-tui-mpv-42.sock");
}

#[test]
fn a_failed_exit_is_a_player_error() {
    assert_eq!(exit_outcome(true, "exit status: 0"), Ok(()));
    assert_eq!(
        exit_outcome(false, "exit status: 2"),
        Err(Error::Player("mpv exited with exit status: 2".to_string()))
    );
}
