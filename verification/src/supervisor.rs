//! The ingest supervisor's pure core: classifying failures, walking the
//! endpoint list, turning one received payload into a write plan, and the
//! reconnect decision after a session ends.
//!
//! The embedding program runs the outer loops: it connects, polls, sleeps
//! and appends; every decision along the way is a function here.

use vstd::prelude::*;
use vstd::string::StringSliceAdditionalSpecFns;
use crate::decode::{spec_decode, DecodeError};
use crate::level::{abbr_byte, level_name_bytes, spec_coerce_level, LogLevel};
use crate::time::{timestamp_bytes, valid_civil, CivilDateTime};
use crate::writer::{dir_bytes, file_bytes, line_bytes, push_slice, spec_partition_key, WritePlan};

verus! {

/// Lowercases one ASCII letter; every other byte is unchanged.
pub open spec fn ascii_lower(b: u8) -> u8 {
    if ('A' as u8) <= b && b <= ('Z' as u8) {
        (b + 32) as u8
    } else {
        b
    }
}

/// ASCII-lowercases a whole byte string.
pub open spec fn lower_bytes(s: Seq<u8>) -> Seq<u8> {
    s.map_values(|b: u8| ascii_lower(b))
}

/// `needle` occurs contiguously inside `haystack`.
pub open spec fn contains_sub(haystack: Seq<u8>, needle: Seq<u8>) -> bool {
    exists|k: int|
        0 <= k <= haystack.len() - needle.len() && #[trigger] haystack.subrange(
            k,
            k + needle.len(),
        ) == needle
}

/// The closed set of connection-error signatures, as UTF-8 bytes: transport
/// failures in their conventional English renderings, and the upstream
/// library's own phrasings of a failed, lost or interrupted connection.
pub open spec fn connection_error_tokens() -> Seq<Seq<u8>> {
    seq![
        vstd::utf8::encode_utf8(("connection refused")@),
        vstd::utf8::encode_utf8(("connection reset")@),
        vstd::utf8::encode_utf8(("network unreachable")@),
        vstd::utf8::encode_utf8(("timeout")@),
        vstd::utf8::encode_utf8(("broken pipe")@),
        vstd::utf8::encode_utf8(("连接失败")@),
        vstd::utf8::encode_utf8(("网络中断")@),
        vstd::utf8::encode_utf8(("连接中断")@),
    ]
}

/// A connection error: the ASCII-lowercased rendering of the error carries
/// one of the signature tokens as a substring.
pub open spec fn spec_is_connection_error(msg: Seq<u8>) -> bool {
    exists|k: int|
        0 <= k < connection_error_tokens().len() && contains_sub(
            lower_bytes(msg),
            #[trigger] connection_error_tokens()[k],
        )
}

/// ASCII-lowercases a byte string.
fn lower_vec(s: &[u8]) -> (r: Vec<u8>)
    ensures
        r@ == lower_bytes(s@),
{
    let mut out: Vec<u8> = Vec::new();
    let mut i: usize = 0;
    while i < s.len()
        invariant
            i <= s@.len(),
            out@ == lower_bytes(s@.subrange(0, i as int)),
        decreases s@.len() - i,
    {
        let b = s[i];
        if ('A' as u8) <= b && b <= ('Z' as u8) {
            out.push(b + 32);
        } else {
            out.push(b);
        }
        assert(out@ =~= lower_bytes(s@.subrange(0, i + 1)));
        i += 1;
    }
    assert(s@.subrange(0, s@.len() as int) =~= s@);
    out
}

/// Whether `n` stands at position `k` of `h`.
fn match_at(h: &[u8], n: &[u8], k: usize) -> (r: bool)
    requires
        k + n@.len() <= h@.len(),
    ensures
        r == (h@.subrange(k as int, k + n@.len()) == n@),
{
    let hlen = h.len();
    let nlen = n.len();
    let mut i: usize = 0;
    while i < nlen
        invariant
            i <= n@.len(),
            nlen == n@.len(),
            hlen == h@.len(),
            k + n@.len() <= h@.len(),
            forall|j: int| 0 <= j < i ==> h@[k + j] == n@[j],
        decreases n@.len() - i,
    {
        if h[k + i] != n[i] {
            assert(h@.subrange(k as int, k + n@.len())[i as int] != n@[i as int]);
            return false;
        }
        i += 1;
    }
    assert(h@.subrange(k as int, k + n@.len()) =~= n@);
    true
}

/// Whether `n` occurs contiguously inside `h`.
fn contains_slice(h: &[u8], n: &[u8]) -> (r: bool)
    ensures
        r == contains_sub(h@, n@),
{
    if n.len() > h.len() {
        return false;
    }
    if n.len() == 0 {
        proof {
            assert(h@.subrange(0int, 0int + n@.len() as int) =~= n@);
            assert(contains_sub(h@, n@));
        }
        return true;
    }
    let bound = h.len() - n.len();
    let mut k: usize = 0;
    while k <= bound
        invariant
            1 <= n@.len() <= h@.len(),
            h@.len() <= usize::MAX,
            bound == h@.len() - n@.len(),
            k <= h@.len() - n@.len() + 1,
            forall|j: int| 0 <= j < k ==> #[trigger] h@.subrange(j, j + n@.len()) != n@,
        decreases h@.len() - n@.len() + 1 - k,
    {
        if match_at(h, n, k) {
            return true;
        }
        k += 1;
    }
    false
}

/// Classifies one rendered error: connection errors end the session, other
/// errors are transient.  The match is a case-insensitive substring match
/// against the closed signature set.
pub fn is_connection_error(error_msg: &str) -> (r: bool)
    ensures
        r == spec_is_connection_error(error_msg.spec_bytes()),
{
    let lowered = lower_vec(error_msg.as_bytes());
    let ls = lowered.as_slice();
    let ghost toks = connection_error_tokens();
    if contains_slice(ls, "connection refused".as_bytes()) {
        assert(contains_sub(lowered@, toks[0]));
        return true;
    }
    if contains_slice(ls, "connection reset".as_bytes()) {
        assert(contains_sub(lowered@, toks[1]));
        return true;
    }
    if contains_slice(ls, "network unreachable".as_bytes()) {
        assert(contains_sub(lowered@, toks[2]));
        return true;
    }
    if contains_slice(ls, "timeout".as_bytes()) {
        assert(contains_sub(lowered@, toks[3]));
        return true;
    }
    if contains_slice(ls, "broken pipe".as_bytes()) {
        assert(contains_sub(lowered@, toks[4]));
        return true;
    }
    if contains_slice(ls, "连接失败".as_bytes()) {
        assert(contains_sub(lowered@, toks[5]));
        return true;
    }
    if contains_slice(ls, "网络中断".as_bytes()) {
        assert(contains_sub(lowered@, toks[6]));
        return true;
    }
    if contains_slice(ls, "连接中断".as_bytes()) {
        assert(contains_sub(lowered@, toks[7]));
        return true;
    }
    proof {
        assert(toks.len() == 8);
        assert forall|k: int| 0 <= k < 8 implies !contains_sub(
            lowered@,
            #[trigger] toks[k],
        ) by {
            if k == 0 {
            } else if k == 1 {
            } else if k == 2 {
            } else if k == 3 {
            } else if k == 4 {
            } else if k == 5 {
            } else if k == 6 {
            } else {
                assert(k == 7);
            }
        }
    }
    false
}

/// One step of the endpoint walk: success connects, failure moves to the
/// next endpoint, and falling off the end fails the session.
#[derive(Debug, Clone, Copy, PartialEq, Eq, Structural)]
pub enum ConnectOutcome {
    /// The session uses the endpoint at this index.
    Connected(usize),
    /// Attempt the endpoint at this index next.
    TryNext(usize),
    /// Every endpoint failed: the session ends in error.
    AllFailed,
}

/// Steps the connection phase after attempting the endpoint at `idx`.
pub fn connect_step(idx: usize, connected: bool, n_endpoints: usize) -> (r: ConnectOutcome)
    requires
        idx < n_endpoints,
    ensures
        r == if connected {
            ConnectOutcome::Connected(idx)
        } else if idx + 1 < n_endpoints {
            ConnectOutcome::TryNext((idx + 1) as usize)
        } else {
            ConnectOutcome::AllFailed
        },
{
    if connected {
        ConnectOutcome::Connected(idx)
    } else if idx + 1 < n_endpoints {
        ConnectOutcome::TryNext(idx + 1)
    } else {
        ConnectOutcome::AllFailed
    }
}

/// The first accepting endpoint at or after `from`.
pub open spec fn first_success(outcomes: Seq<bool>, from: int) -> Option<int>
    decreases outcomes.len() - from,
{
    if from < 0 || from >= outcomes.len() {
        None
    } else if outcomes[from] {
        Some(from)
    } else {
        first_success(outcomes, from + 1)
    }
}

/// Walking the endpoint list in order connects to the first endpoint that
/// accepts, after failing on exactly those before it; when none accepts,
/// every endpoint was tried in vain.
pub proof fn lemma_endpoint_walk(outcomes: Seq<bool>, from: int)
    requires
        0 <= from <= outcomes.len(),
    ensures
        match first_success(outcomes, from) {
            Some(i) => from <= i < outcomes.len() && outcomes[i] && forall|j: int|
                from <= j < i ==> !outcomes[j],
            None => forall|j: int| from <= j < outcomes.len() ==> !outcomes[j],
        },
    decreases outcomes.len() - from,
{
    if from < outcomes.len() && !outcomes[from] {
        lemma_endpoint_walk(outcomes, from + 1);
    }
}

/// What one received payload leads to.
#[derive(Debug, PartialEq, Eq)]
pub enum MessageOutcome {
    /// The payload did not decode: report and go on, the session stands.
    Skip(DecodeError),
    /// Append `plan`; `messages_done` counts this message, and every
    /// hundredth message asks for a counter checkpoint on the diagnostic
    /// sink.
    Write { plan: WritePlan, messages_done: u64, checkpoint: bool },
}

/// Decides everything about one received payload: decode it, plan the
/// append into the partition keyed by the decode-time clock, count it, and
/// flag every hundredth message for a checkpoint.
pub fn handle_message(root: &[u8], payload: &[u8], now: &CivilDateTime, messages_done: u64) -> (r:
    MessageOutcome)
    requires
        valid_civil(*now),
        messages_done < u64::MAX,
    ensures
        spec_decode(payload@) matches Err(e) ==> r == MessageOutcome::Skip(e),
        spec_decode(payload@) matches Ok(p) ==> r matches MessageOutcome::Write {
            plan,
            messages_done: c,
            checkpoint,
        } && c == messages_done + 1 && checkpoint == (c % 100 == 0) && plan.dir@ == dir_bytes(
            root@,
            spec_partition_key(*now),
        ) && plan.file@ == file_bytes(root@, spec_partition_key(*now)) && plan.line@ == line_bytes(
            timestamp_bytes(*now),
            abbr_byte(spec_coerce_level(p.0)),
            p.1,
        ),
{
    match crate::decode::decode(payload, now) {
        Err(e) => MessageOutcome::Skip(e),
        Ok(record) => {
            let plan = crate::writer::write_plan(
                root,
                &record.level,
                record.body.as_slice(),
                now,
            );
            let done = messages_done + 1;
            MessageOutcome::Write { plan, messages_done: done, checkpoint: done % 100 == 0 }
        },
    }
}

/// What to do after a failed receive.
#[derive(Debug, Clone, Copy, PartialEq, Eq, Structural)]
pub enum RecvAction {
    /// A connection error: end the session, the supervisor reconnects.
    EndSession,
    /// A transient error: sleep this long, then poll again.
    RetryAfterMillis(u64),
}

/// Classifies a failed receive: connection errors end the session, anything
/// else waits one second and polls again.
pub fn receive_error_action(error_msg: &str) -> (r: RecvAction)
    ensures
        r == if spec_is_connection_error(error_msg.spec_bytes()) {
            RecvAction::EndSession
        } else {
            RecvAction::RetryAfterMillis(1000u64)
        },
{
    if is_connection_error(error_msg) {
        RecvAction::EndSession
    } else {
        RecvAction::RetryAfterMillis(1000)
    }
}

/// What the supervisor does after one session ends.
#[derive(Debug, Clone, Copy, PartialEq, Eq, Structural)]
pub enum AfterSession {
    /// The session ended gracefully: the supervisor exits.
    Stop,
    /// The session failed: sleep this long, then reconnect from the top of
    /// the endpoint list.
    ReconnectAfterMillis(u64),
}

/// The reconnect decision: a graceful end stops the supervisor, a failed
/// session reconnects after the configured interval.
pub fn after_session(graceful: bool, reconnect_interval_ms: u64) -> (r: AfterSession)
    ensures
        r == if graceful {
            AfterSession::Stop
        } else {
            AfterSession::ReconnectAfterMillis(reconnect_interval_ms)
        },
{
    if graceful {
        AfterSession::Stop
    } else {
        AfterSession::ReconnectAfterMillis(reconnect_interval_ms)
    }
}

/// Relies on `rand::random`: an arbitrary value of the standard
/// distribution.  Nothing can be promised of a random value.
pub assume_specification<T>[ rand::random::<T> ]() -> (r: T)
    where
        rand::distr::StandardUniform: rand::distr::Distribution<T>,
;

/// Body bytes that need no escaping: printable ASCII without quote or
/// backslash.
pub open spec fn plain_body(b: Seq<u8>) -> bool {
    forall|i: int|
        0 <= i < b.len() ==> 0x20 <= #[trigger] b[i] < 0x7F && b[i] != ('"' as u8) && b[i] != (
        '\\' as u8)
}

/// The payload the stub bus emits: `{"L":"<name>","S":"<body>"}`.
pub open spec fn spec_sim_payload(level: LogLevel, body: Seq<u8>) -> Seq<u8> {
    seq![('{' as u8), ('"' as u8), ('L' as u8), ('"' as u8), (':' as u8), ('"' as u8)]
        + level_name_bytes(level) + seq![
        ('"' as u8),
        (',' as u8),
        ('"' as u8),
        ('S' as u8),
        ('"' as u8),
        (':' as u8),
        ('"' as u8),
    ] + body + seq![('"' as u8), ('}' as u8)]
}

/// One of the stub bus's sample bodies: plain ASCII, never empty.
fn sample_body(idx: u64) -> (r: &'static str)
    ensures
        r@.len() > 0,
        forall|i: int|
            0 <= i < r@.len() ==> ' ' <= #[trigger] r@[i] < '\u{7f}' && r@[i] != '"' && r@[i]
                != '\\',
{
    let pick = idx % 8;
    if pick == 0 {
        let s = "system startup complete";
        proof { reveal_strlit("system startup complete"); }
        s
    } else if pick == 1 {
        let s = "database connection established";
        proof { reveal_strlit("database connection established"); }
        s
    } else if pick == 2 {
        let s = "processing user login request";
        proof { reveal_strlit("processing user login request"); }
        s
    } else if pick == 3 {
        let s = "api call succeeded";
        proof { reveal_strlit("api call succeeded"); }
        s
    } else if pick == 4 {
        let s = "file upload finished";
        proof { reveal_strlit("file upload finished"); }
        s
    } else if pick == 5 {
        let s = "scheduled task executed";
        proof { reveal_strlit("scheduled task executed"); }
        s
    } else if pick == 6 {
        let s = "cache cleanup finished";
        proof { reveal_strlit("cache cleanup finished"); }
        s
    } else {
        let s = "performance metrics collected";
        proof { reveal_strlit("performance metrics collected"); }
        s
    }
}

/// Appends the canonical name of a level.
fn push_level_name(out: &mut Vec<u8>, level: LogLevel)
    ensures
        final(out)@ == old(out)@ + level_name_bytes(level),
{
    match level {
        LogLevel::Trace => {
            out.push('T' as u8);
            out.push('R' as u8);
            out.push('A' as u8);
            out.push('C' as u8);
            out.push('E' as u8);
        },
        LogLevel::Debug => {
            out.push('D' as u8);
            out.push('E' as u8);
            out.push('B' as u8);
            out.push('U' as u8);
            out.push('G' as u8);
        },
        LogLevel::Info => {
            out.push('I' as u8);
            out.push('N' as u8);
            out.push('F' as u8);
            out.push('O' as u8);
        },
        LogLevel::Warn => {
            out.push('W' as u8);
            out.push('A' as u8);
            out.push('R' as u8);
            out.push('N' as u8);
        },
        LogLevel::Error => {
            out.push('E' as u8);
            out.push('R' as u8);
            out.push('R' as u8);
            out.push('O' as u8);
            out.push('R' as u8);
        },
        LogLevel::Fatal => {
            out.push('F' as u8);
            out.push('A' as u8);
            out.push('T' as u8);
            out.push('A' as u8);
            out.push('L' as u8);
        },
    }
    assert(out@ =~= old(out)@ + level_name_bytes(level));
}

/// Why the stub bus failed to hand out a message.
#[derive(Debug, Clone, Copy, PartialEq, Eq, Structural)]
pub enum RecvError {
    /// The stub's stand-in for a dropped transport.
    SimulatedInterruption,
}

impl RecvError {
    /// The rendering the classifier sees.  It carries the signature of an
    /// interrupted connection, so a simulated interruption ends the session
    /// and triggers a reconnect.
    pub fn message(&self) -> (r: &'static str)
        ensures
            r@ == ("模拟网络连接中断")@,
            spec_is_connection_error(r.spec_bytes()),
    {
        let m = "模拟网络连接中断";
        proof {
            lemma_simulated_interruption_classified(m@);
        }
        m
    }
}

/// Every byte of the encoding of a scalar beyond ASCII lies beyond ASCII.
proof fn lemma_encode_scalar_non_ascii(c: u32)
    requires
        0x80 <= c,
        vstd::utf8::is_scalar(c),
    ensures
        forall|i: int|
            0 <= i < vstd::utf8::encode_scalar(c).len() ==> #[trigger] vstd::utf8::encode_scalar(
                c,
            )[i] >= 0x80,
{
    let x6 = ((c >> 6) & 0x1F) as u8;
    assert(0xC0u8 | x6 >= 0x80) by (bit_vector);
    let x12 = ((c >> 12) & 0x0F) as u8;
    assert(0xE0u8 | x12 >= 0x80) by (bit_vector);
    let x18 = ((c >> 18) & 0x7) as u8;
    assert(0xF0u8 | x18 >= 0x80) by (bit_vector);
    let y0 = (c & 0x3F) as u8;
    assert(0x80u8 | y0 >= 0x80) by (bit_vector);
    let y6 = ((c >> 6) & 0x3F) as u8;
    assert(0x80u8 | y6 >= 0x80) by (bit_vector);
    let y12 = ((c >> 12) & 0x3F) as u8;
    assert(0x80u8 | y12 >= 0x80) by (bit_vector);
}

/// The encoding of text whose characters all lie beyond ASCII holds no
/// ASCII byte.
proof fn lemma_encode_non_ascii_chars(s: Seq<char>)
    requires
        forall|i: int| 0 <= i < s.len() ==> #[trigger] s[i] as u32 >= 0x80,
    ensures
        forall|i: int|
            0 <= i < vstd::utf8::encode_utf8(s).len() ==> #[trigger] vstd::utf8::encode_utf8(
                s,
            )[i] >= 0x80,
    decreases s.len(),
{
    if s.len() > 0 {
        vstd::utf8::char_is_scalar(s[0]);
        lemma_encode_scalar_non_ascii(s[0] as u32);
        assert(forall|i: int|
            0 <= i < s.drop_first().len() ==> #[trigger] s.drop_first()[i] as u32 >= 0x80);
        lemma_encode_non_ascii_chars(s.drop_first());
        let head = vstd::utf8::encode_scalar(s[0] as u32);
        let tail = vstd::utf8::encode_utf8(s.drop_first());
        assert(vstd::utf8::encode_utf8(s) == head + tail);
        assert forall|i: int|
            0 <= i < vstd::utf8::encode_utf8(s).len() implies #[trigger] vstd::utf8::encode_utf8(
            s,
        )[i] >= 0x80 by {
            if i < head.len() {
                assert(head[i] >= 0x80);
            } else {
                assert(tail[i - head.len()] >= 0x80);
            }
        }
    }
}

/// Encoding distributes over concatenation of texts.
proof fn lemma_encode_concat(a: Seq<char>, b: Seq<char>)
    ensures
        vstd::utf8::encode_utf8(a + b) == vstd::utf8::encode_utf8(a) + vstd::utf8::encode_utf8(b),
    decreases a.len(),
{
    if a.len() == 0 {
        assert(a + b =~= b);
        assert(vstd::utf8::encode_utf8(a) + vstd::utf8::encode_utf8(b) =~= vstd::utf8::encode_utf8(
            b,
        ));
    } else {
        assert((a + b).drop_first() =~= a.drop_first() + b);
        lemma_encode_concat(a.drop_first(), b);
        assert(vstd::utf8::encode_utf8(a + b) =~= vstd::utf8::encode_utf8(a)
            + vstd::utf8::encode_utf8(b));
    }
}

/// The stub's interruption rendering carries the token naming an
/// interrupted connection, so the classifier ends the session on it.
proof fn lemma_simulated_interruption_classified(m: Seq<char>)
    requires
        m == ("模拟网络连接中断")@,
    ensures
        spec_is_connection_error(vstd::utf8::encode_utf8(m)),
{
    reveal_strlit("模拟网络连接中断");
    reveal_strlit("连接中断");
    let prefix_chars = m.subrange(0, 4);
    let token_chars = ("连接中断")@;
    assert(m.subrange(4, 8) =~= token_chars);
    assert(prefix_chars + m.subrange(4, 8) =~= m);
    lemma_encode_concat(prefix_chars, m.subrange(4, 8));
    let whole = vstd::utf8::encode_utf8(m);
    let prefix = vstd::utf8::encode_utf8(prefix_chars);
    let token = vstd::utf8::encode_utf8(token_chars);
    assert(whole == prefix + token);
    lemma_encode_non_ascii_chars(m);
    assert(lower_bytes(whole) =~= whole);
    let p = prefix.len() as int;
    assert(whole.subrange(p, p + token.len()) =~= token);
    assert(contains_sub(lower_bytes(whole), token));
    assert(connection_error_tokens()[7] == token);
}

/// A non-empty character sequence encodes to a non-empty byte sequence.
proof fn lemma_encode_nonempty(s: Seq<char>)
    requires
        s.len() > 0,
    ensures
        vstd::utf8::encode_utf8(s).len() > 0,
{
}

/// One poll of the stub bus: either a failure (the caller classifies it
/// through [`RecvError::message`]), or one well-formed two-field payload
/// with a canonical level name and a plain ASCII body.  Which of the two
/// comes, and which payload, is random.
pub fn simulate_kafka_message_reception() -> (r: Result<Option<Vec<u8>>, RecvError>)
    ensures
        r matches Ok(m) ==> m matches Some(msg) && exists|level: LogLevel, body: Seq<u8>|
            plain_body(body) && body.len() > 0 && msg@ == #[trigger] spec_sim_payload(level, body),
        r matches Ok(m) ==> m matches Some(msg) && spec_decode(msg@) is Ok,
{
    // the stub drops the transport for roughly one poll in ten
    if rand::random::<u64>() % 10 == 0 {
        return Err(RecvError::SimulatedInterruption);
    }
    let level = match rand::random::<u64>() % 6 {
        0u64 => LogLevel::Trace,
        1u64 => LogLevel::Debug,
        2u64 => LogLevel::Info,
        3u64 => LogLevel::Warn,
        4u64 => LogLevel::Error,
        _ => LogLevel::Fatal,
    };
    let body_str = sample_body(rand::random::<u64>());
    let body = body_str.as_bytes();
    let mut out: Vec<u8> = Vec::new();
    out.push('{' as u8);
    out.push('"' as u8);
    out.push('L' as u8);
    out.push('"' as u8);
    out.push(':' as u8);
    out.push('"' as u8);
    push_level_name(&mut out, level);
    out.push('"' as u8);
    out.push(',' as u8);
    out.push('"' as u8);
    out.push('S' as u8);
    out.push('"' as u8);
    out.push(':' as u8);
    out.push('"' as u8);
    push_slice(&mut out, body);
    out.push('"' as u8);
    out.push('}' as u8);
    proof {
        assert(out@ =~= spec_sim_payload(level, body@));
        lemma_ascii_body_plain(body_str);
        assert(plain_body(body@));
        lemma_encode_nonempty(body_str@);
        assert(body@.len() > 0);
        lemma_sim_payload_decodes(level, body@);
    }
    Ok(Some(out))
}

/// The encoding of printable ASCII text without quote or backslash is a
/// plain body.
proof fn lemma_ascii_body_plain(s: &str)
    requires
        forall|i: int|
            0 <= i < s@.len() ==> ' ' <= #[trigger] s@[i] < '\u{7f}' && s@[i] != '"' && s@[i]
                != '\\',
    ensures
        plain_body(s.spec_bytes()),
{
    broadcast use vstd::string::is_ascii_spec_bytes;

    assert(vstd::string::is_ascii(s));
    assert(s.spec_bytes() =~= Seq::new(s@.len(), |i: int| s@[i] as u8));
}

/// The canonical level names classify back to their levels: the stub's
/// level field is never coerced away.
pub proof fn lemma_canonical_name_classifies(level: LogLevel)
    ensures
        crate::level::spec_coerce_level(level_name_bytes(level)) == level,
{
    let n = level_name_bytes(level);
    assert(crate::level::upper_bytes(n) =~= n);
}

/// The member walk over a stub payload: the two fields come back exactly.
#[verifier::rlimit(100)]
#[verifier::spinoff_prover]
proof fn lemma_sim_payload_fields(level: LogLevel, body: Seq<u8>)
    requires
        plain_body(body),
    ensures
        ({
            let name = level_name_bytes(level);
            let s = spec_sim_payload(level, body);
            crate::decode::spec_parse_fields(
                s,
                1,
                crate::decode::spec_depth_limit(),
                s.len() as nat,
                None,
                None,
            ) == Ok::<_, DecodeError>(
                (Some(name), Some(body), s.len() as int),
            )
        }),
{
    let name = level_name_bytes(level);
    let nl = name.len() as int;
    let bl = body.len() as int;
    let s = spec_sim_payload(level, body);
    assert(s.len() == 15 + nl + bl);
    assert(forall|q: int| 0 <= q < nl ==> 0x41 <= #[trigger] name[q] <= 0x5A);
    assert(forall|p: int| 6 <= p < 6 + nl ==> #[trigger] s[p] == name[p - 6]);
    assert(forall|p: int| 13 + nl <= p < 13 + nl + bl ==> #[trigger] s[p] == body[p - 13 - nl]);
    let d: nat = crate::decode::spec_depth_limit();
    let n0: nat = s.len() as nat;

    // the first key
    crate::decode::lemma_parse_plain_string(s, 2, 3);
    assert(s.subrange(2, 3) =~= seq![('L' as u8)]);
    assert(crate::decode::spec_skip_ws(s, 4) == 4);
    assert(crate::decode::spec_skip_ws(s, 5) == 5);

    // the level value
    crate::decode::lemma_parse_plain_string(s, 6, 6 + nl);
    assert(s.subrange(6, 6 + nl) =~= name);
    assert(crate::decode::spec_parse_fields(s, 1, d, n0, None, None)
        == crate::decode::spec_fields_cont(s, 7 + nl, d, n0, Some(name), None));

    // the comma and the second key
    assert(crate::decode::spec_skip_ws(s, 7 + nl) == 7 + nl);
    assert(crate::decode::spec_skip_ws(s, 8 + nl) == 8 + nl);
    assert(crate::decode::spec_fields_cont(s, 7 + nl, d, n0, Some(name), None)
        == crate::decode::spec_parse_fields(s, 8 + nl, d, (n0 - 1) as nat, Some(name), None));
    crate::decode::lemma_parse_plain_string(s, 9 + nl, 10 + nl);
    assert(s.subrange(9 + nl, 10 + nl) =~= seq![('S' as u8)]);
    assert(seq![('S' as u8)][0] != seq![('L' as u8)][0]);
    assert(crate::decode::spec_skip_ws(s, 11 + nl) == 11 + nl);
    assert(crate::decode::spec_skip_ws(s, 12 + nl) == 12 + nl);

    // the body value and the closing brace
    crate::decode::lemma_parse_plain_string(s, 13 + nl, 13 + nl + bl);
    assert(s.subrange(13 + nl, 13 + nl + bl) =~= body);
    assert(crate::decode::spec_parse_fields(s, 8 + nl, d, (n0 - 1) as nat, Some(name), None)
        == crate::decode::spec_fields_cont(
        s,
        14 + nl + bl,
        d,
        (n0 - 1) as nat,
        Some(name),
        Some(body),
    ));
    assert(crate::decode::spec_skip_ws(s, 14 + nl + bl) == 14 + nl + bl);
    assert(crate::decode::spec_fields_cont(
        s,
        14 + nl + bl,
        d,
        (n0 - 1) as nat,
        Some(name),
        Some(body),
    ) == Ok::<_, DecodeError>((Some(name), Some(body), 15 + nl + bl)));
}

/// Round trip of the stub bus through the normalizer: every payload the
/// stub emits decodes back to the level name and body it was built from,
/// and the name classifies to the level that was chosen.
#[verifier::rlimit(100)]
#[verifier::spinoff_prover]
pub proof fn lemma_sim_payload_decodes(level: LogLevel, body: Seq<u8>)
    requires
        plain_body(body),
    ensures
        spec_decode(spec_sim_payload(level, body)) == Ok::<_, DecodeError>(
            (level_name_bytes(level), body),
        ),
        crate::level::spec_coerce_level(level_name_bytes(level)) == level,
{
    lemma_canonical_name_classifies(level);
    lemma_sim_payload_fields(level, body);
    let name = level_name_bytes(level);
    let s = spec_sim_payload(level, body);
    assert(s.len() == 15 + name.len() + body.len());
    assert(crate::decode::spec_skip_ws(s, 0) == 0);
    assert(crate::decode::spec_skip_ws(s, 1) == 1);
    assert(s[1] == ('"' as u8));
    assert(crate::decode::spec_skip_ws(s, s.len() as int) == s.len());
    assert(crate::decode::spec_decode(s) == Ok::<_, DecodeError>((name, body)));
}

} // verus!
