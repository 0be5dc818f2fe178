use log_ingest::time::{format_timestamp, parse_timestamp};
use log_ingest::writer::{init_plan, log_line_plan, write_plan};
use log_ingest::{CivilDateTime, LogLevel};

fn t(year: u32, month: u32, day: u32, hour: u32, minute: u32, second: u32) -> CivilDateTime {
    CivilDateTime { year, month, day, hour, minute, second }
}

#[test]
fn timestamp_formats_zero_padded() {
    let ts = format_timestamp(&t(2024, 3, 15, 10, 42, 7));
    assert_eq!(ts, b"2024-03-15 10:42:07".to_vec());
    let ts = format_timestamp(&t(1, 1, 1, 0, 0, 0));
    assert_eq!(ts, b"0001-01-01 00:00:00".to_vec());
}

#[test]
fn timestamp_round_trips() {
    let dt = t(2024, 12, 31, 23, 59, 59);
    assert_eq!(parse_timestamp(&format_timestamp(&dt)), Some(dt));
}

#[test]
fn timestamp_parse_rejects_bad_shapes() {
    assert_eq!(parse_timestamp(b"2024-3-15 10:42:07"), None);
    assert_eq!(parse_timestamp(b"2024-03-15T10:42:07"), None);
    assert_eq!(parse_timestamp(b"2024-02-30 10:42:07"), None);
    assert_eq!(parse_timestamp(b"2024-13-01 10:42:07"), None);
    assert_eq!(parse_timestamp(b"2024-03-15 24:00:00"), None);
    assert_eq!(parse_timestamp(b""), None);
    assert_eq!(parse_timestamp(b"2024-02-29 00:00:00").is_some(), true);
    assert_eq!(parse_timestamp(b"2023-02-29 00:00:00"), None);
}

#[test]
fn write_plan_places_record_by_event_time() {
    let dt = t(2024, 3, 15, 10, 42, 7);
    let p = write_plan(b"/var/log/X", &LogLevel::Warn, b"disk nearly full", &dt);
    assert_eq!(p.dir, b"/var/log/X/2024/03/15".to_vec());
    assert_eq!(p.file, b"/var/log/X/2024/03/15/10.log".to_vec());
    assert_eq!(p.line, b"[2024-03-15 10:42:07] [W] disk nearly full\n".to_vec());
}

#[test]
fn line_format_round_trips_through_regex_shape() {
    let dt = t(2024, 3, 15, 10, 42, 7);
    let p = write_plan(b"logs", &LogLevel::Error, b"boom", &dt);
    let line = p.line;
    assert_eq!(line[0], b'[');
    assert_eq!(&line[1..20], b"2024-03-15 10:42:07");
    assert_eq!(&line[20..23], b"] [");
    assert_eq!(line[23], b'E');
    assert_eq!(&line[24..26], b"] ");
    assert_eq!(&line[26..line.len() - 1], b"boom");
    assert_eq!(line[line.len() - 1], b'\n');
}

#[test]
fn log_line_plan_uses_given_timestamp_for_partition() {
    let now = t(2030, 1, 2, 3, 4, 5);
    let p = log_line_plan(b"logs", "warn", b"x", "2024-03-15 10:42:07", &now);
    assert_eq!(p.file, b"logs/2024/03/15/10.log".to_vec());
    assert_eq!(p.line, b"[2024-03-15 10:42:07] [W] x\n".to_vec());
}

#[test]
fn log_line_plan_falls_back_to_now_on_bad_timestamp() {
    let now = t(2030, 1, 2, 3, 4, 5);
    let p = log_line_plan(b"logs", "verbose", b"x", "not a time", &now);
    assert_eq!(p.file, b"logs/2030/01/02/03.log".to_vec());
    // the line still carries the caller's text, and the unknown level
    // coerces to Info
    assert_eq!(p.line, b"[not a time] [I] x\n".to_vec());
}

#[test]
fn init_plan_materialises_partition_and_formats_notices() {
    let now = t(2024, 3, 15, 10, 42, 7);
    let p = init_plan(b"logs", &now);
    assert_eq!(p.dir, b"logs/2024/03/15".to_vec());
    assert_eq!(p.file, b"logs/2024/03/15/10.log".to_vec());
    // the three notices are bound for the diagnostic sink, not the tree
    let banner = String::from_utf8(p.banner_line).unwrap();
    assert_eq!(banner, "[2024-03-15 10:42:07] [I] 日志系统已初始化\n");
    let dir_line = String::from_utf8(p.dir_line).unwrap();
    assert_eq!(dir_line, "[2024-03-15 10:42:07] [I] 日志目录: \"logs/2024/03/15\"\n");
    let file_line = String::from_utf8(p.file_line).unwrap();
    assert_eq!(
        file_line,
        "[2024-03-15 10:42:07] [I] 当前日志文件: \"logs/2024/03/15/10.log\"\n"
    );
}

#[test]
fn body_with_embedded_newline_is_written_as_is() {
    let dt = t(2024, 3, 15, 10, 42, 7);
    let p = write_plan(b"logs", &LogLevel::Info, b"a\nb", &dt);
    assert_eq!(p.line, b"[2024-03-15 10:42:07] [I] a\nb\n".to_vec());
}
