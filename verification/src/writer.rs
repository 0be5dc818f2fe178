//! The partition writer's pure core: partition keys, the directory and file
//! paths they map to, and the exact line format
//! `"[" timestamp "] [" abbreviation "] " body "\n"`.
//!
//! The embedding program carries a [`WritePlan`] out against the filesystem:
//! create the directory chain, open the file in create-and-append mode, and
//! append the line bytes in one write.

use vstd::prelude::*;
use vstd::string::StringSliceAdditionalSpecFns;
use crate::level::{abbr_byte, spec_coerce_level, LogLevel};
use crate::time::{spec_parse_timestamp, timestamp_bytes, valid_civil, CivilDateTime};
use crate::time::{push_four_digits, push_timestamp, push_two_digits};

verus! {

/// The 4-tuple identifying one output file.
#[derive(Debug, Clone, Copy, PartialEq, Eq, Structural)]
pub struct PartitionKey {
    pub year: u32,
    pub month: u32,
    pub day: u32,
    pub hour: u32,
}

/// The partition key of an event time.
pub open spec fn spec_partition_key(t: CivilDateTime) -> PartitionKey {
    PartitionKey { year: t.year, month: t.month, day: t.day, hour: t.hour }
}

/// `<root>/YYYY/MM/DD`: the directory of a partition key.
pub open spec fn dir_bytes(root: Seq<u8>, k: PartitionKey) -> Seq<u8> {
    root + seq![('/' as u8)] + crate::time::four_digits(k.year as int) + seq![('/' as u8)]
        + crate::time::two_digits(k.month as int) + seq![('/' as u8)] + crate::time::two_digits(
        k.day as int,
    )
}

/// `<root>/YYYY/MM/DD/HH.log`: the file of a partition key.
pub open spec fn file_bytes(root: Seq<u8>, k: PartitionKey) -> Seq<u8> {
    dir_bytes(root, k) + seq![('/' as u8)] + crate::time::two_digits(k.hour as int) + seq![
        ('.' as u8),
        ('l' as u8),
        ('o' as u8),
        ('g' as u8),
    ]
}

/// One line as written: `"[" ts "] [" abbr "] " body "\n"`.
pub open spec fn line_bytes(ts: Seq<u8>, abbr: u8, body: Seq<u8>) -> Seq<u8> {
    seq![('[' as u8)] + ts + seq![(']' as u8), (' ' as u8), ('[' as u8), abbr, (']' as u8)]
        + seq![(' ' as u8)] + body + seq![('\n' as u8)]
}

/// Everything the embedding program needs for one append: the directory to
/// materialise, the file to open in append mode, and the line to write.
#[derive(Debug, Clone, PartialEq, Eq)]
pub struct WritePlan {
    pub dir: Vec<u8>,
    pub file: Vec<u8>,
    pub line: Vec<u8>,
}

/// Appends every byte of `s` to `out`.
pub fn push_slice(out: &mut Vec<u8>, s: &[u8])
    ensures
        final(out)@ == old(out)@ + s@,
{
    let mut i: usize = 0;
    while i < s.len()
        invariant
            i <= s@.len(),
            out@ == old(out)@ + s@.subrange(0, i as int),
        decreases s@.len() - i,
    {
        out.push(s[i]);
        assert(out@ =~= old(out)@ + s@.subrange(0, i + 1));
        i += 1;
    }
    assert(out@ =~= old(out)@ + s@);
}

/// Builds the partition directory path `<root>/YYYY/MM/DD`.
pub fn build_dir_path(root: &[u8], k: &PartitionKey) -> (r: Vec<u8>)
    requires
        k.year <= 9999,
        k.month <= 99,
        k.day <= 99,
    ensures
        r@ == dir_bytes(root@, *k),
{
    let mut out: Vec<u8> = Vec::new();
    push_slice(&mut out, root);
    out.push('/' as u8);
    push_four_digits(&mut out, k.year);
    out.push('/' as u8);
    push_two_digits(&mut out, k.month);
    out.push('/' as u8);
    push_two_digits(&mut out, k.day);
    assert(out@ =~= dir_bytes(root@, *k));
    out
}

/// Builds the partition file path `<root>/YYYY/MM/DD/HH.log`.
pub fn build_file_path(root: &[u8], k: &PartitionKey) -> (r: Vec<u8>)
    requires
        k.year <= 9999,
        k.month <= 99,
        k.day <= 99,
        k.hour <= 99,
    ensures
        r@ == file_bytes(root@, *k),
{
    let mut out = build_dir_path(root, k);
    out.push('/' as u8);
    push_two_digits(&mut out, k.hour);
    out.push('.' as u8);
    out.push('l' as u8);
    out.push('o' as u8);
    out.push('g' as u8);
    assert(out@ =~= file_bytes(root@, *k));
    out
}

/// Assembles one line from already-formatted timestamp bytes.
pub fn build_line(ts: &[u8], abbr: u8, body: &[u8]) -> (r: Vec<u8>)
    ensures
        r@ == line_bytes(ts@, abbr, body@),
{
    let mut out: Vec<u8> = Vec::new();
    out.push('[' as u8);
    push_slice(&mut out, ts);
    out.push(']' as u8);
    out.push(' ' as u8);
    out.push('[' as u8);
    out.push(abbr);
    out.push(']' as u8);
    out.push(' ' as u8);
    push_slice(&mut out, body);
    out.push('\n' as u8);
    assert(out@ =~= line_bytes(ts@, abbr, body@));
    out
}

/// The plan for appending one record with event time `t`: the file is the
/// one keyed by `partition_key(t)`, and the line is the canonical formatting
/// of the record.
pub fn write_plan(root: &[u8], level: &LogLevel, body: &[u8], t: &CivilDateTime) -> (p: WritePlan)
    requires
        valid_civil(*t),
    ensures
        p.dir@ == dir_bytes(root@, spec_partition_key(*t)),
        p.file@ == file_bytes(root@, spec_partition_key(*t)),
        p.line@ == line_bytes(timestamp_bytes(*t), abbr_byte(*level), body@),
{
    let k = PartitionKey { year: t.year, month: t.month, day: t.day, hour: t.hour };
    let dir = build_dir_path(root, &k);
    let file = build_file_path(root, &k);
    let mut ts: Vec<u8> = Vec::new();
    push_timestamp(&mut ts, t);
    let line = build_line(ts.as_slice(), level.abbreviation_byte(), body);
    WritePlan { dir, file, line }
}

/// The plan for one free-form append: the level name is classified
/// case-insensitively (unknown names coerce to `Info`), the partition is
/// chosen by the given timestamp when it parses and by `now` otherwise, and
/// the line carries the given timestamp text as it stands.
pub fn log_line_plan(
    root: &[u8],
    level: &str,
    content: &[u8],
    timestamp: &str,
    now: &CivilDateTime,
) -> (p: WritePlan)
    requires
        valid_civil(*now),
    ensures
        ({
            let t = match spec_parse_timestamp(timestamp.spec_bytes()) {
                Some(t) => t,
                None => *now,
            };
            &&& p.dir@ == dir_bytes(root@, spec_partition_key(t))
            &&& p.file@ == file_bytes(root@, spec_partition_key(t))
            &&& p.line@ == line_bytes(
                timestamp.spec_bytes(),
                abbr_byte(spec_coerce_level(level.spec_bytes())),
                content@,
            )
        }),
{
    let ts_bytes = timestamp.as_bytes();
    let t = match crate::time::parse_timestamp(ts_bytes) {
        Some(t) => t,
        None => *now,
    };
    let k = PartitionKey { year: t.year, month: t.month, day: t.day, hour: t.hour };
    let dir = build_dir_path(root, &k);
    let file = build_file_path(root, &k);
    let abbr = match LogLevel::from_str(level) {
        Some(l) => l.abbreviation_byte(),
        None => 'I' as u8,
    };
    let line = build_line(ts_bytes, abbr, content);
    WritePlan { dir, file, line }
}

/// The fixed texts of the bring-up lines.
pub open spec fn init_banner_body() -> Seq<u8> {
    vstd::utf8::encode_utf8(("日志系统已初始化")@)
}

pub open spec fn init_dir_label() -> Seq<u8> {
    vstd::utf8::encode_utf8(("日志目录: ")@)
}

pub open spec fn init_file_label() -> Seq<u8> {
    vstd::utf8::encode_utf8(("当前日志文件: ")@)
}

/// A path as it appears inside a bring-up line: in double quotes.
pub open spec fn quoted(path: Seq<u8>) -> Seq<u8> {
    seq![('"' as u8)] + path + seq![('"' as u8)]
}

/// The bring-up of the partition tree: the current partition's directory to
/// materialise and its file path, and the three start-up notices for the
/// diagnostic sink.  The daemon's own messages never enter the partition
/// tree itself.
#[derive(Debug, Clone, PartialEq, Eq)]
pub struct InitPlan {
    pub dir: Vec<u8>,
    pub file: Vec<u8>,
    pub banner_line: Vec<u8>,
    pub dir_line: Vec<u8>,
    pub file_line: Vec<u8>,
}

/// Plans the bring-up: the partition directory of `now` is to be
/// materialised, while the three notices — a banner and one line each
/// naming the directory and the file, all at level `Info` — are bound for
/// the diagnostic sink only.
pub fn init_plan(root: &[u8], now: &CivilDateTime) -> (p: InitPlan)
    requires
        valid_civil(*now),
    ensures
        p.dir@ == dir_bytes(root@, spec_partition_key(*now)),
        p.file@ == file_bytes(root@, spec_partition_key(*now)),
        p.banner_line@ == line_bytes(
            timestamp_bytes(*now),
            abbr_byte(LogLevel::Info),
            init_banner_body(),
        ),
        p.dir_line@ == line_bytes(
            timestamp_bytes(*now),
            abbr_byte(LogLevel::Info),
            init_dir_label() + quoted(dir_bytes(root@, spec_partition_key(*now))),
        ),
        p.file_line@ == line_bytes(
            timestamp_bytes(*now),
            abbr_byte(LogLevel::Info),
            init_file_label() + quoted(file_bytes(root@, spec_partition_key(*now))),
        ),
{
    let k = PartitionKey { year: now.year, month: now.month, day: now.day, hour: now.hour };
    let dir = build_dir_path(root, &k);
    let file = build_file_path(root, &k);
    let mut ts: Vec<u8> = Vec::new();
    push_timestamp(&mut ts, now);
    let banner_line = build_line(ts.as_slice(), 'I' as u8, "日志系统已初始化".as_bytes());
    let mut dir_body: Vec<u8> = Vec::new();
    push_slice(&mut dir_body, "日志目录: ".as_bytes());
    dir_body.push('"' as u8);
    push_slice(&mut dir_body, dir.as_slice());
    dir_body.push('"' as u8);
    assert(dir_body@ =~= init_dir_label() + quoted(dir@));
    let dir_line = build_line(ts.as_slice(), 'I' as u8, dir_body.as_slice());
    let mut file_body: Vec<u8> = Vec::new();
    push_slice(&mut file_body, "当前日志文件: ".as_bytes());
    file_body.push('"' as u8);
    push_slice(&mut file_body, file.as_slice());
    file_body.push('"' as u8);
    assert(file_body@ =~= init_file_label() + quoted(file@));
    let file_line = build_line(ts.as_slice(), 'I' as u8, file_body.as_slice());
    InitPlan { dir, file, banner_line, dir_line, file_line }
}

/// The line format round-trips: from a formatted line, the fixed positions
/// give back the timestamp bytes, the abbreviation byte and the body bytes.
pub open spec fn spec_parse_line(line: Seq<u8>) -> Option<(Seq<u8>, u8, Seq<u8>)> {
    if line.len() >= 27 && line[0] == ('[' as u8) && spec_parse_timestamp(
        line.subrange(1, 20),
    ) is Some && line[20] == (']' as u8) && line[21] == (' ' as u8) && line[22] == ('[' as u8)
        && line[24] == (']' as u8) && line[25] == (' ' as u8) && line[line.len() - 1] == (
    '\n' as u8) {
        Some((line.subrange(1, 20), line[23], line.subrange(26, line.len() - 1)))
    } else {
        None
    }
}

/// Round trip of the line format: parsing an emitted line recovers the
/// original timestamp, abbreviation and body.
pub proof fn lemma_line_round_trip(t: CivilDateTime, abbr: u8, body: Seq<u8>)
    requires
        valid_civil(t),
    ensures
        spec_parse_line(line_bytes(timestamp_bytes(t), abbr, body)) == Some(
            (timestamp_bytes(t), abbr, body),
        ),
{
    let ts = timestamp_bytes(t);
    let line = line_bytes(ts, abbr, body);
    assert(ts.len() == 19);
    assert(line.len() == body.len() + 27);
    assert(line.subrange(1, 20) =~= ts);
    crate::time::lemma_timestamp_round_trip(t);
    assert(line.subrange(26, line.len() - 1) =~= body);
}

} // verus!
