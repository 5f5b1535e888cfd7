use parallax::logging::{goes_to_stderr, level_label, log_line, LogLevel};

#[test]
fn log_line_layout() {
    assert_eq!(
        log_line("12.345", LogLevel::Warn, "net", "hi there"),
        "[12.345] [WARN] [net] hi there"
    );
    assert_eq!(log_line("0.000", LogLevel::Debug, "", ""), "[0.000] [DEBUG] [] ");
}

#[test]
fn levels() {
    assert_eq!(level_label(LogLevel::Debug), "DEBUG");
    assert_eq!(level_label(LogLevel::Info), "INFO");
    assert_eq!(level_label(LogLevel::Warn), "WARN");
    assert_eq!(level_label(LogLevel::Error), "ERROR");
    assert!(goes_to_stderr(LogLevel::Warn));
    assert!(goes_to_stderr(LogLevel::Error));
    assert!(!goes_to_stderr(LogLevel::Info));
    assert!(!goes_to_stderr(LogLevel::Debug));
}
