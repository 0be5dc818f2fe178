//! Log levels: the closed six-member enumeration, its single-character
//! abbreviations, and case-insensitive classification of free-form level
//! names (unknown names coerce to `Info`).

use vstd::prelude::*;
use vstd::string::StringSliceAdditionalSpecFns;

verus! {

/// Severity of one log record.
#[derive(Debug, Clone, Copy, PartialEq, Eq, Structural)]
pub enum LogLevel {
    Trace,
    Debug,
    Info,
    Warn,
    Error,
    Fatal,
}

/// Uppercases one ASCII letter; every other byte is unchanged.
pub open spec fn ascii_upper(b: u8) -> u8 {
    if ('a' as u8) <= b && b <= ('z' as u8) {
        (b - 32) as u8
    } else {
        b
    }
}

/// ASCII-uppercases a whole byte string.
pub open spec fn upper_bytes(s: Seq<u8>) -> Seq<u8> {
    s.map_values(|b: u8| ascii_upper(b))
}

/// The canonical (uppercase) name of a level, as bytes.
pub open spec fn level_name_bytes(level: LogLevel) -> Seq<u8> {
    match level {
        LogLevel::Trace => seq![('T' as u8), ('R' as u8), ('A' as u8), ('C' as u8), ('E' as u8)],
        LogLevel::Debug => seq![('D' as u8), ('E' as u8), ('B' as u8), ('U' as u8), ('G' as u8)],
        LogLevel::Info => seq![('I' as u8), ('N' as u8), ('F' as u8), ('O' as u8)],
        LogLevel::Warn => seq![('W' as u8), ('A' as u8), ('R' as u8), ('N' as u8)],
        LogLevel::Error => seq![('E' as u8), ('R' as u8), ('R' as u8), ('O' as u8), ('R' as u8)],
        LogLevel::Fatal => seq![('F' as u8), ('A' as u8), ('T' as u8), ('A' as u8), ('L' as u8)],
    }
}

/// The single-byte abbreviation of a level, as it appears in a written line.
pub open spec fn abbr_byte(level: LogLevel) -> u8 {
    match level {
        LogLevel::Trace => ('T' as u8),
        LogLevel::Debug => ('D' as u8),
        LogLevel::Info => ('I' as u8),
        LogLevel::Warn => ('W' as u8),
        LogLevel::Error => ('E' as u8),
        LogLevel::Fatal => ('F' as u8),
    }
}

/// The abbreviation as a one-character string view.
pub open spec fn abbr_chars(level: LogLevel) -> Seq<char> {
    match level {
        LogLevel::Trace => seq!['T'],
        LogLevel::Debug => seq!['D'],
        LogLevel::Info => seq!['I'],
        LogLevel::Warn => seq!['W'],
        LogLevel::Error => seq!['E'],
        LogLevel::Fatal => seq!['F'],
    }
}

/// Case-insensitive classification of a level name; `None` for unknown names.
pub open spec fn spec_level_from_bytes(s: Seq<u8>) -> Option<LogLevel> {
    let u = upper_bytes(s);
    if u == level_name_bytes(LogLevel::Trace) {
        Some(LogLevel::Trace)
    } else if u == level_name_bytes(LogLevel::Debug) {
        Some(LogLevel::Debug)
    } else if u == level_name_bytes(LogLevel::Info) {
        Some(LogLevel::Info)
    } else if u == level_name_bytes(LogLevel::Warn) {
        Some(LogLevel::Warn)
    } else if u == level_name_bytes(LogLevel::Error) {
        Some(LogLevel::Error)
    } else if u == level_name_bytes(LogLevel::Fatal) {
        Some(LogLevel::Fatal)
    } else {
        None
    }
}

/// Total classification: unknown names coerce to `Info`.
pub open spec fn spec_coerce_level(s: Seq<u8>) -> LogLevel {
    match spec_level_from_bytes(s) {
        Some(level) => level,
        None => LogLevel::Info,
    }
}

/// Uppercases one ASCII letter; every other byte is unchanged.
fn upper(b: u8) -> (r: u8)
    ensures
        r == ascii_upper(b),
{
    if ('a' as u8) <= b && b <= ('z' as u8) {
        b - 32
    } else {
        b
    }
}

/// True exactly when `s`, ASCII-uppercased, equals the canonical name of
/// `level`.
fn matches_level(s: &[u8], level: LogLevel) -> (r: bool)
    ensures
        r == (upper_bytes(s@) == level_name_bytes(level)),
{
    let name: [u8; 5] = match level {
        LogLevel::Trace => [('T' as u8), ('R' as u8), ('A' as u8), ('C' as u8), ('E' as u8)],
        LogLevel::Debug => [('D' as u8), ('E' as u8), ('B' as u8), ('U' as u8), ('G' as u8)],
        LogLevel::Info => [('I' as u8), ('N' as u8), ('F' as u8), ('O' as u8), 0],
        LogLevel::Warn => [('W' as u8), ('A' as u8), ('R' as u8), ('N' as u8), 0],
        LogLevel::Error => [('E' as u8), ('R' as u8), ('R' as u8), ('O' as u8), ('R' as u8)],
        LogLevel::Fatal => [('F' as u8), ('A' as u8), ('T' as u8), ('A' as u8), ('L' as u8)],
    };
    let len: usize = match level {
        LogLevel::Info | LogLevel::Warn => 4,
        _ => 5,
    };
    proof {
        assert(forall|i: int| 0 <= i < len ==> name@[i] == level_name_bytes(level)[i]);
        assert(level_name_bytes(level).len() == len);
    }
    if s.len() != len {
        assert(upper_bytes(s@).len() != level_name_bytes(level).len());
        return false;
    }
    let mut i: usize = 0;
    while i < len
        invariant
            i <= len,
            len <= 5,
            s@.len() == len,
            level_name_bytes(level).len() == len,
            forall|k: int| 0 <= k < len ==> name@[k] == level_name_bytes(level)[k],
            forall|k: int| 0 <= k < i ==> ascii_upper(s@[k]) == level_name_bytes(level)[k],
        decreases len - i,
    {
        if upper(s[i]) != name[i] {
            assert(upper_bytes(s@)[i as int] != level_name_bytes(level)[i as int]);
            return false;
        }
        i += 1;
    }
    assert(upper_bytes(s@) =~= level_name_bytes(level));
    true
}

/// Case-insensitive classification of a level name given as bytes.
pub fn level_from_bytes(b: &[u8]) -> (r: Option<LogLevel>)
    ensures
        r == spec_level_from_bytes(b@),
{
    if matches_level(b, LogLevel::Trace) {
        Some(LogLevel::Trace)
    } else if matches_level(b, LogLevel::Debug) {
        Some(LogLevel::Debug)
    } else if matches_level(b, LogLevel::Info) {
        Some(LogLevel::Info)
    } else if matches_level(b, LogLevel::Warn) {
        Some(LogLevel::Warn)
    } else if matches_level(b, LogLevel::Error) {
        Some(LogLevel::Error)
    } else if matches_level(b, LogLevel::Fatal) {
        Some(LogLevel::Fatal)
    } else {
        None
    }
}

/// Total byte-level classification: unknown names coerce to `Info`.
pub fn coerce_level_bytes(b: &[u8]) -> (r: LogLevel)
    ensures
        r == spec_coerce_level(b@),
{
    match level_from_bytes(b) {
        Some(l) => l,
        None => LogLevel::Info,
    }
}

impl LogLevel {
    /// Case-insensitive parse of a level name; unknown names give `None`.
    pub fn from_str(level: &str) -> (r: Option<LogLevel>)
        ensures
            r == spec_level_from_bytes(level.spec_bytes()),
    {
        let b = level.as_bytes();
        if matches_level(b, LogLevel::Trace) {
            Some(LogLevel::Trace)
        } else if matches_level(b, LogLevel::Debug) {
            Some(LogLevel::Debug)
        } else if matches_level(b, LogLevel::Info) {
            Some(LogLevel::Info)
        } else if matches_level(b, LogLevel::Warn) {
            Some(LogLevel::Warn)
        } else if matches_level(b, LogLevel::Error) {
            Some(LogLevel::Error)
        } else if matches_level(b, LogLevel::Fatal) {
            Some(LogLevel::Fatal)
        } else {
            None
        }
    }

    /// The one-character abbreviation used in written lines.
    pub fn to_abbreviation(&self) -> (r: &'static str)
        ensures
            r@ == abbr_chars(*self),
    {
        match self {
            LogLevel::Trace => {
                proof { reveal_strlit("T"); }
                let r = "T";
                assert(r@ =~= abbr_chars(LogLevel::Trace));
                r
            }
            LogLevel::Debug => {
                proof { reveal_strlit("D"); }
                let r = "D";
                assert(r@ =~= abbr_chars(LogLevel::Debug));
                r
            }
            LogLevel::Info => {
                proof { reveal_strlit("I"); }
                let r = "I";
                assert(r@ =~= abbr_chars(LogLevel::Info));
                r
            }
            LogLevel::Warn => {
                proof { reveal_strlit("W"); }
                let r = "W";
                assert(r@ =~= abbr_chars(LogLevel::Warn));
                r
            }
            LogLevel::Error => {
                proof { reveal_strlit("E"); }
                let r = "E";
                assert(r@ =~= abbr_chars(LogLevel::Error));
                r
            }
            LogLevel::Fatal => {
                proof { reveal_strlit("F"); }
                let r = "F";
                assert(r@ =~= abbr_chars(LogLevel::Fatal));
                r
            }
        }
    }

    /// The one-byte abbreviation used when assembling line bytes.
    pub fn abbreviation_byte(&self) -> (r: u8)
        ensures
            r == abbr_byte(*self),
    {
        match self {
            LogLevel::Trace => ('T' as u8),
            LogLevel::Debug => ('D' as u8),
            LogLevel::Info => ('I' as u8),
            LogLevel::Warn => ('W' as u8),
            LogLevel::Error => ('E' as u8),
            LogLevel::Fatal => ('F' as u8),
        }
    }
}

/// The abbreviation of a free-form level name; unknown names coerce to
/// `Info`'s abbreviation.
pub fn get_level_abbreviation(level: &str) -> (r: &'static str)
    ensures
        r@ == abbr_chars(spec_coerce_level(level.spec_bytes())),
{
    match LogLevel::from_str(level) {
        Some(l) => l.to_abbreviation(),
        None => {
            proof { reveal_strlit("I"); }
            let r = "I";
            assert(r@ =~= abbr_chars(LogLevel::Info));
            r
        }
    }
}

/// Level classification is total and case-insensitive: classification only
/// reads the ASCII-uppercased bytes, so names equal up to ASCII case
/// classify alike, and a name that matches no canonical level falls back to
/// `Info`, so every input produces a level.
pub proof fn lemma_level_classification_case_insensitive_total(a: Seq<u8>, b: Seq<u8>)
    requires
        upper_bytes(a) == upper_bytes(b),
    ensures
        spec_coerce_level(a) == spec_coerce_level(b),
        spec_level_from_bytes(a) is None ==> spec_coerce_level(a) == LogLevel::Info,
{
}

} // verus!
