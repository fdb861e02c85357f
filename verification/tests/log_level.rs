use std::str::FromStr;
use wasmcloud_test_util::log_level::LogLevel;

#[test]
fn level_names_parse_in_any_case() {
    assert_eq!(LogLevel::from_str("info").unwrap().0, log::Level::Info);
    assert_eq!(LogLevel::from_str("INFO").unwrap().0, log::Level::Info);
    assert_eq!(LogLevel::from_str("Error").unwrap().0, log::Level::Error);
    assert_eq!("wArN".parse::<LogLevel>().unwrap().0, log::Level::Warn);
    assert_eq!("debug".parse::<LogLevel>().unwrap().0, log::Level::Debug);
    assert_eq!("TRACE".parse::<LogLevel>().unwrap().0, log::Level::Trace);
}

#[test]
fn other_names_are_no_level() {
    assert!(LogLevel::from_str("off").is_err());
    assert!(LogLevel::from_str("").is_err());
    assert!(LogLevel::from_str(" info").is_err());
    assert!(LogLevel::from_str("information").is_err());
}

#[test]
fn level_name_reads_back() {
    let levels = [
        (log::Level::Error, "ERROR"),
        (log::Level::Warn, "WARN"),
        (log::Level::Info, "INFO"),
        (log::Level::Debug, "DEBUG"),
        (log::Level::Trace, "TRACE"),
    ];
    for (level, name) in levels {
        let wrapped: LogLevel = level.into();
        assert_eq!(wrapped.as_str(), name);
        let again = LogLevel::from_str(wrapped.as_str()).unwrap();
        assert!(again.same_as(&wrapped));
        assert_eq!(*again, level);
        let inner: log::Level = again.into();
        assert_eq!(inner, level);
    }
}

#[test]
fn different_levels_are_told_apart() {
    assert!(!LogLevel(log::Level::Info).same_as(&LogLevel(log::Level::Debug)));
    assert!(LogLevel(log::Level::Warn).clone() == LogLevel(log::Level::Warn));
}
