use anime_tui::input::{default_binding, Action, KeyCode, KeyModifiers};

#[test]
fn vim_keys_map_to_motion() {
    assert_eq!(default_binding(KeyCode::Char('j'), KeyModifiers::NONE), Some(Action::Down));
    assert_eq!(default_binding(KeyCode::Char('k'), KeyModifiers::NONE), Some(Action::Up));
}

#[test]
fn sort_and_filter_bindings() {
    assert_eq!(default_binding(KeyCode::Char('S'), KeyModifiers::NONE), Some(Action::CycleSort));
    assert_eq!(default_binding(KeyCode::Char('F'), KeyModifiers::NONE), Some(Action::Filter));
    assert_eq!(default_binding(KeyCode::Char('c'), KeyModifiers::NONE), Some(Action::ChooseSource));
}

#[test]
fn ctrl_c_quits() {
    assert_eq!(
        default_binding(KeyCode::Char('c'), KeyModifiers::CONTROL),
        Some(Action::Quit)
    );
}
