use log_ingest::config::{
    parse_cleanup_time, validate_config, validate_kafka_config, BusConfig, Config, ConfigError,
    LoggingConfig, TimeOfDayError,
};

fn base_config() -> Config {
    Config {
        logging: LoggingConfig {
            level: String::from("info"),
            path: String::from("logs"),
            retention_days: 7,
            cleanup_time: Some(String::from("01:00")),
        },
        bus: BusConfig {
            enabled: true,
            brokers: vec![String::from("127.0.0.1:9092")],
            group_id: String::from("log-server"),
            topics: vec![String::from("logs")],
            reconnect_interval_ms: 5000,
        },
    }
}

#[test]
fn cleanup_time_two_and_three_parts() {
    assert_eq!(parse_cleanup_time("01:00"), Ok((1, 0, 0)));
    assert_eq!(parse_cleanup_time("23:59:59"), Ok((23, 59, 59)));
    assert_eq!(parse_cleanup_time("7:5"), Ok((7, 5, 0)));
    assert_eq!(parse_cleanup_time("007:05:09"), Ok((7, 5, 9)));
}

#[test]
fn cleanup_time_part_count_errors() {
    assert_eq!(parse_cleanup_time("1"), Err(TimeOfDayError::Parts));
    assert_eq!(parse_cleanup_time(""), Err(TimeOfDayError::Parts));
    assert_eq!(parse_cleanup_time("1:2:3:4"), Err(TimeOfDayError::Parts));
}

#[test]
fn cleanup_time_digit_errors() {
    assert_eq!(parse_cleanup_time("aa:00"), Err(TimeOfDayError::HourDigits));
    assert_eq!(parse_cleanup_time(":00"), Err(TimeOfDayError::HourDigits));
    assert_eq!(parse_cleanup_time("00:"), Err(TimeOfDayError::MinuteDigits));
    assert_eq!(parse_cleanup_time("00:0x"), Err(TimeOfDayError::MinuteDigits));
    assert_eq!(parse_cleanup_time("00:00:zz"), Err(TimeOfDayError::SecondDigits));
    assert_eq!(parse_cleanup_time("+1:00"), Err(TimeOfDayError::HourDigits));
    // too large for 32 bits
    assert_eq!(parse_cleanup_time("4294967296:00"), Err(TimeOfDayError::HourDigits));
    assert_eq!(
        parse_cleanup_time("99999999999999999999:00"),
        Err(TimeOfDayError::HourDigits)
    );
}

#[test]
fn cleanup_time_range_errors() {
    assert_eq!(parse_cleanup_time("24:00"), Err(TimeOfDayError::HourRange));
    assert_eq!(parse_cleanup_time("12:60"), Err(TimeOfDayError::MinuteRange));
    assert_eq!(parse_cleanup_time("12:00:60"), Err(TimeOfDayError::SecondRange));
}

#[test]
fn valid_config_passes() {
    assert_eq!(validate_config(&base_config()), Ok(()));
}

#[test]
fn retention_days_zero_is_rejected() {
    let mut c = base_config();
    c.logging.retention_days = 0;
    assert_eq!(validate_config(&c), Err(ConfigError::RetentionDays));
}

#[test]
fn bad_cleanup_time_is_rejected() {
    let mut c = base_config();
    c.logging.cleanup_time = Some(String::from("25:00"));
    assert_eq!(
        validate_config(&c),
        Err(ConfigError::CleanupTime(TimeOfDayError::HourRange))
    );
    c.logging.cleanup_time = None;
    assert_eq!(validate_config(&c), Ok(()));
}

#[test]
fn enabled_bus_needs_brokers_topics_and_group() {
    let mut c = base_config();
    c.bus.brokers = vec![];
    assert_eq!(validate_config(&c), Err(ConfigError::EmptyBrokers));

    let mut c = base_config();
    c.bus.topics = vec![];
    assert_eq!(validate_kafka_config(&c.bus), Err(ConfigError::EmptyTopics));

    let mut c = base_config();
    c.bus.group_id = String::new();
    assert_eq!(validate_kafka_config(&c.bus), Err(ConfigError::EmptyGroupId));
}

#[test]
fn disabled_bus_skips_bus_validation() {
    let mut c = base_config();
    c.bus.enabled = false;
    c.bus.brokers = vec![];
    c.bus.topics = vec![];
    c.bus.group_id = String::new();
    assert_eq!(validate_config(&c), Ok(()));
}
