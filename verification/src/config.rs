//! The validated configuration record and its rules: a positive retention
//! horizon, a well-formed optional cleanup time of day (`HH:MM` or
//! `HH:MM:SS`), and, when the bus is enabled, non-empty endpoint, topic and
//! group settings.

use vstd::prelude::*;
use vstd::string::StringSliceAdditionalSpecFns;
use crate::time::{digit_val, is_digit};

verus! {

/// Logging section of the configuration.
#[derive(Debug, Clone)]
pub struct LoggingConfig {
    pub level: String,
    pub path: String,
    pub retention_days: u32,
    pub cleanup_time: Option<String>,
}

/// Bus (ingest) section of the configuration.
#[derive(Debug, Clone)]
pub struct BusConfig {
    pub enabled: bool,
    pub brokers: Vec<String>,
    pub group_id: String,
    pub topics: Vec<String>,
    pub reconnect_interval_ms: u64,
}

/// The whole validated configuration record.
#[derive(Debug, Clone)]
pub struct Config {
    pub logging: LoggingConfig,
    pub bus: BusConfig,
}

/// Why a cleanup time of day was rejected.
#[derive(Debug, Clone, Copy, PartialEq, Eq, Structural)]
pub enum TimeOfDayError {
    /// Not two or three colon-separated parts.
    Parts,
    /// The hour part is empty, non-numeric or too large for 32 bits.
    HourDigits,
    /// The minute part is empty, non-numeric or too large for 32 bits.
    MinuteDigits,
    /// The second part is empty, non-numeric or too large for 32 bits.
    SecondDigits,
    /// The hour is not in 0..=23.
    HourRange,
    /// The minute is not in 0..=59.
    MinuteRange,
    /// The second is not in 0..=59.
    SecondRange,
}

/// Why a configuration record was rejected.
#[derive(Debug, Clone, Copy, PartialEq, Eq, Structural)]
pub enum ConfigError {
    /// `retention_days` is zero.
    RetentionDays,
    /// `cleanup_time` is present but malformed.
    CleanupTime(TimeOfDayError),
    /// The bus is enabled with an empty broker list.
    EmptyBrokers,
    /// The bus is enabled with an empty topic list.
    EmptyTopics,
    /// The bus is enabled with an empty group id.
    EmptyGroupId,
}

/// The index of the first colon at or after `from`; `s.len()` if none.
pub open spec fn find_colon(s: Seq<u8>, from: int) -> int
    decreases s.len() - from,
{
    if from < 0 {
        from
    } else if from >= s.len() {
        s.len() as int
    } else if s[from] == (':' as u8) {
        from
    } else {
        find_colon(s, from + 1)
    }
}

/// The value of a non-empty all-digit byte string, as an unbounded natural.
pub open spec fn digits_val(s: Seq<u8>) -> int
    decreases s.len(),
{
    if s.len() == 0 {
        0
    } else {
        10 * digits_val(s.drop_last()) + digit_val(s.last())
    }
}

pub open spec fn all_digits(s: Seq<u8>) -> bool {
    forall|i: int| 0 <= i < s.len() ==> is_digit(s[i])
}

/// A numeric field: non-empty, all decimal digits, value within 32 bits.
pub open spec fn spec_parse_u32(s: Seq<u8>) -> Option<u32> {
    if s.len() > 0 && all_digits(s) && digits_val(s) <= u32::MAX {
        Some(digits_val(s) as u32)
    } else {
        None
    }
}

/// The cleanup time grammar: `HH:MM` or `HH:MM:SS`, decimal fields in range
/// (hour to 23, minute and second to 59); the second defaults to zero.
pub open spec fn spec_parse_cleanup_time(s: Seq<u8>) -> Result<(u32, u32, u32), TimeOfDayError> {
    let i = find_colon(s, 0);
    if i == s.len() {
        Err(TimeOfDayError::Parts)
    } else {
        let j = find_colon(s, i + 1);
        let hour_part = s.subrange(0, i);
        let minute_part = s.subrange(i + 1, j);
        if j == s.len() {
            spec_fields_to_time(hour_part, minute_part, Option::<Seq<u8>>::None)
        } else {
            let k = find_colon(s, j + 1);
            if k != s.len() {
                Err(TimeOfDayError::Parts)
            } else {
                spec_fields_to_time(
                    hour_part,
                    minute_part,
                    Some(s.subrange(j + 1, s.len() as int)),
                )
            }
        }
    }
}

/// Range-checks the split fields of a cleanup time.
pub open spec fn spec_fields_to_time(h: Seq<u8>, m: Seq<u8>, sec: Option<Seq<u8>>) -> Result<
    (u32, u32, u32),
    TimeOfDayError,
> {
    match spec_parse_u32(h) {
        None => Err(TimeOfDayError::HourDigits),
        Some(hv) => match spec_parse_u32(m) {
            None => Err(TimeOfDayError::MinuteDigits),
            Some(mv) => {
                let sv = match sec {
                    None => Some(0u32),
                    Some(sp) => spec_parse_u32(sp),
                };
                match sv {
                    None => Err(TimeOfDayError::SecondDigits),
                    Some(sv) => {
                        if hv > 23 {
                            Err(TimeOfDayError::HourRange)
                        } else if mv > 59 {
                            Err(TimeOfDayError::MinuteRange)
                        } else if sv > 59 {
                            Err(TimeOfDayError::SecondRange)
                        } else {
                            Ok((hv, mv, sv))
                        }
                    },
                }
            },
        },
    }
}

/// The first colon at or after `from`, or the length if none.
fn scan_colon(s: &[u8], from: usize) -> (r: usize)
    requires
        from <= s@.len(),
    ensures
        r == find_colon(s@, from as int),
        from <= r <= s@.len(),
        r < s@.len() ==> s@[r as int] == (':' as u8),
    decreases s@.len() - from,
{
    if from >= s.len() {
        s.len()
    } else if s[from] == (':' as u8) {
        from
    } else {
        scan_colon(s, from + 1)
    }
}

/// Parses one numeric field within the byte range `[lo, hi)`.
fn parse_u32_field(s: &[u8], lo: usize, hi: usize) -> (r: Option<u32>)
    requires
        lo <= hi <= s@.len(),
    ensures
        r == spec_parse_u32(s@.subrange(lo as int, hi as int)),
{
    let ghost part = s@.subrange(lo as int, hi as int);
    if lo == hi {
        return None;
    }
    let mut acc: u64 = 0;
    let mut i: usize = lo;
    while i < hi
        invariant
            lo <= i <= hi <= s@.len(),
            part == s@.subrange(lo as int, hi as int),
            all_digits(part.subrange(0, i - lo)),
            digits_val(part.subrange(0, i - lo)) <= u32::MAX ==> acc == digits_val(
                part.subrange(0, i - lo),
            ),
            digits_val(part.subrange(0, i - lo)) > u32::MAX ==> acc == 0x1_0000_0000u64,
            acc <= 0x1_0000_0000u64,
        decreases hi - i,
    {
        let ghost prefix = part.subrange(0, i - lo);
        let b = s[i];
        assert(part[i - lo] == b);
        if !(('0' as u8) <= b && b <= ('9' as u8)) {
            assert(!is_digit(part[i - lo]));
            assert(!all_digits(part));
            return None;
        }
        let d = (b - ('0' as u8)) as u64;
        proof {
            assert(part.subrange(0, i + 1 - lo).drop_last() =~= prefix);
            assert(part.subrange(0, i + 1 - lo).last() == b);
            assert(digits_val(part.subrange(0, i + 1 - lo)) == 10 * digits_val(prefix)
                + digit_val(b));
        }
        if acc > u32::MAX as u64 {
            acc = 0x1_0000_0000u64;
        } else {
            acc = 10 * acc + d;
            if acc > u32::MAX as u64 {
                acc = 0x1_0000_0000u64;
            }
        }
        i += 1;
    }
    assert(part.subrange(0, (hi - lo) as int) =~= part);
    if acc > u32::MAX as u64 {
        None
    } else {
        Some(acc as u32)
    }
}

/// Parses a cleanup time of day, `HH:MM` or `HH:MM:SS` with fields in range.
pub fn parse_cleanup_time(time_str: &str) -> (r: Result<(u32, u32, u32), TimeOfDayError>)
    ensures
        r == spec_parse_cleanup_time(time_str.spec_bytes()),
{
    let s = time_str.as_bytes();
    let i = scan_colon(s, 0);
    if i == s.len() {
        return Err(TimeOfDayError::Parts);
    }
    let j = scan_colon(s, i + 1);
    let hour = parse_u32_field(s, 0, i);
    let minute = parse_u32_field(s, i + 1, j);
    let second: Option<u32>;
    if j == s.len() {
        second = Some(0);
    } else {
        let k = scan_colon(s, j + 1);
        if k != s.len() {
            return Err(TimeOfDayError::Parts);
        }
        second = parse_u32_field(s, j + 1, s.len());
    }
    let hv = match hour {
        Some(h) => h,
        None => {
            return Err(TimeOfDayError::HourDigits);
        },
    };
    let mv = match minute {
        Some(m) => m,
        None => {
            return Err(TimeOfDayError::MinuteDigits);
        },
    };
    let sv = match second {
        Some(se) => se,
        None => {
            return Err(TimeOfDayError::SecondDigits);
        },
    };
    if hv > 23 {
        Err(TimeOfDayError::HourRange)
    } else if mv > 59 {
        Err(TimeOfDayError::MinuteRange)
    } else if sv > 59 {
        Err(TimeOfDayError::SecondRange)
    } else {
        Ok((hv, mv, sv))
    }
}

/// What a valid bus section requires when the bus is enabled.
pub open spec fn spec_validate_bus(k: BusConfig) -> Result<(), ConfigError> {
    if k.brokers@.len() == 0 {
        Err(ConfigError::EmptyBrokers)
    } else if k.topics@.len() == 0 {
        Err(ConfigError::EmptyTopics)
    } else if k.group_id@.len() == 0 {
        Err(ConfigError::EmptyGroupId)
    } else {
        Ok(())
    }
}

/// What a valid configuration record requires.
pub open spec fn spec_validate_config(c: Config) -> Result<(), ConfigError> {
    if c.logging.retention_days == 0 {
        Err(ConfigError::RetentionDays)
    } else {
        let cleanup_ok = match c.logging.cleanup_time {
            Some(ct) => spec_parse_cleanup_time(vstd::utf8::encode_utf8(ct@)),
            None => Ok((1u32, 0u32, 0u32)),
        };
        match cleanup_ok {
            Err(e) => Err(ConfigError::CleanupTime(e)),
            Ok(_) => {
                if c.bus.enabled {
                    spec_validate_bus(c.bus)
                } else {
                    Ok(())
                }
            },
        }
    }
}

/// Validates the bus section: enabled ingest needs brokers, topics and a
/// group id.
pub fn validate_kafka_config(bus: &BusConfig) -> (r: Result<(), ConfigError>)
    ensures
        r == spec_validate_bus(*bus),
{
    if bus.brokers.len() == 0 {
        Err(ConfigError::EmptyBrokers)
    } else if bus.topics.len() == 0 {
        Err(ConfigError::EmptyTopics)
    } else if bus.group_id.as_str().is_empty() {
        Err(ConfigError::EmptyGroupId)
    } else {
        Ok(())
    }
}

/// Validates a whole configuration record: positive retention, well-formed
/// cleanup time when present, and a complete bus section when enabled.
pub fn validate_config(config: &Config) -> (r: Result<(), ConfigError>)
    ensures
        r == spec_validate_config(*config),
{
    if config.logging.retention_days == 0 {
        return Err(ConfigError::RetentionDays);
    }
    match &config.logging.cleanup_time {
        Some(ct) => {
            match parse_cleanup_time(ct.as_str()) {
                Err(e) => {
                    return Err(ConfigError::CleanupTime(e));
                },
                Ok(_) => {},
            }
        },
        None => {},
    }
    if config.bus.enabled {
        validate_kafka_config(&config.bus)
    } else {
        Ok(())
    }
}

} // verus!
