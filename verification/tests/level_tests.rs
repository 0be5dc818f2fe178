use log_ingest::level::{get_level_abbreviation, level_from_bytes, LogLevel};

#[test]
fn canonical_names_parse() {
    assert_eq!(LogLevel::from_str("TRACE"), Some(LogLevel::Trace));
    assert_eq!(LogLevel::from_str("DEBUG"), Some(LogLevel::Debug));
    assert_eq!(LogLevel::from_str("INFO"), Some(LogLevel::Info));
    assert_eq!(LogLevel::from_str("WARN"), Some(LogLevel::Warn));
    assert_eq!(LogLevel::from_str("ERROR"), Some(LogLevel::Error));
    assert_eq!(LogLevel::from_str("FATAL"), Some(LogLevel::Fatal));
}

#[test]
fn parsing_is_case_insensitive() {
    assert_eq!(LogLevel::from_str("warn"), Some(LogLevel::Warn));
    assert_eq!(LogLevel::from_str("Warn"), Some(LogLevel::Warn));
    assert_eq!(LogLevel::from_str("wArN"), Some(LogLevel::Warn));
    assert_eq!(LogLevel::from_str("error"), Some(LogLevel::Error));
    assert_eq!(LogLevel::from_str("fatal"), Some(LogLevel::Fatal));
}

#[test]
fn unknown_names_give_none_and_coerce_to_info() {
    assert_eq!(LogLevel::from_str("verbose"), None);
    assert_eq!(LogLevel::from_str(""), None);
    assert_eq!(LogLevel::from_str("WARNING"), None);
    assert_eq!(get_level_abbreviation("verbose"), "I");
    assert_eq!(get_level_abbreviation(""), "I");
}

#[test]
fn abbreviations() {
    assert_eq!(LogLevel::Trace.to_abbreviation(), "T");
    assert_eq!(LogLevel::Debug.to_abbreviation(), "D");
    assert_eq!(LogLevel::Info.to_abbreviation(), "I");
    assert_eq!(LogLevel::Warn.to_abbreviation(), "W");
    assert_eq!(LogLevel::Error.to_abbreviation(), "E");
    assert_eq!(LogLevel::Fatal.to_abbreviation(), "F");
    assert_eq!(get_level_abbreviation("WARN"), "W");
    assert_eq!(get_level_abbreviation("trace"), "T");
}

#[test]
fn abbreviation_bytes_match_strings() {
    let levels = [
        LogLevel::Trace,
        LogLevel::Debug,
        LogLevel::Info,
        LogLevel::Warn,
        LogLevel::Error,
        LogLevel::Fatal,
    ];
    for l in levels {
        assert_eq!(l.to_abbreviation().as_bytes()[0], l.abbreviation_byte());
    }
}

#[test]
fn byte_level_classification() {
    assert_eq!(level_from_bytes(b"info"), Some(LogLevel::Info));
    assert_eq!(level_from_bytes(b"INF"), None);
    assert_eq!(level_from_bytes(b"INFOO"), None);
}

#[test]
fn classification_agrees_across_case_foldings() {
    for s in ["WARN", "warn", "TrAcE", "verbose", "WARNING", "fatal", ""] {
        let up = s.to_uppercase();
        let down = s.to_lowercase();
        assert_eq!(get_level_abbreviation(s), get_level_abbreviation(&up));
        assert_eq!(get_level_abbreviation(s), get_level_abbreviation(&down));
        assert_eq!(LogLevel::from_str(s), LogLevel::from_str(&up));
        assert_eq!(LogLevel::from_str(s), LogLevel::from_str(&down));
    }
}
