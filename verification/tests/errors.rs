use anime_tui::errors::{provider_changed, Error};

#[test]
fn every_error_has_its_sentence() {
    let s = |e: Error| e.message();
    assert_eq!(s(Error::Network("x".into())), "network error: x");
    assert_eq!(s(Error::Timeout), "request timed out");
    assert_eq!(s(Error::Provider("x".into())), "provider error: x");
    assert_eq!(
        s(provider_changed("catalog", "no data")),
        "provider layout changed while parsing catalog: no data"
    );
    assert_eq!(s(Error::Resolve("x".into())), "could not resolve a playable source: x");
    assert_eq!(s(Error::InvalidUrl("x".into())), "invalid or unsupported url: x");
    assert_eq!(s(Error::Player("x".into())), "player error: x");
    assert_eq!(s(Error::Database("x".into())), "database error: x");
    assert_eq!(s(Error::Config("x".into())), "config error: x");
    assert_eq!(s(Error::Io("x".into())), "io error: x");
    assert_eq!(s(Error::NotImplemented("x")), "feature not implemented yet: x");
}

#[test]
fn only_transient_errors_are_retryable() {
    assert!(Error::Network("x".into()).is_retryable());
    assert!(Error::Timeout.is_retryable());
    assert!(!Error::Provider("x".into()).is_retryable());
    assert!(!Error::Io("x".into()).is_retryable());
}
