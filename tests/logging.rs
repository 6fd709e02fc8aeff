use hyprstream::logging::{enabled, log_line, set_level, Level, Logger};

#[test]
fn threshold_filters_lower_levels() {
    let mut l = Logger::new();
    assert!(!enabled(&l, Level::Debug));
    assert!(enabled(&l, Level::Info));
    assert_eq!(log_line(&l, Level::Debug, "x"), None);
    assert_eq!(
        log_line(&l, Level::Warn, "headless output was removed externally"),
        Some("hyprstream[warn]: headless output was removed externally".to_string())
    );
    set_level(&mut l, Level::Debug);
    assert!(enabled(&l, Level::Debug));
    set_level(&mut l, Level::Error);
    assert!(!enabled(&l, Level::Warn));
    assert_eq!(log_line(&l, Level::Error, "e"), Some("hyprstream[error]: e".to_string()));
}
