//! The record normalizer: decoding one upstream payload into a canonical
//! record.
//!
//! The payload is a JSON object with two string fields, a level under the
//! key `L` and a body under the key `S`; every other member is ignored.
//! A missing or non-string `L` or `S`, a duplicated `L` or `S`, a top-level
//! value that is not an object, malformed syntax, or trailing content is a
//! [`DecodeError`].  The grammar below is JSON: strings with the standard
//! escapes (including `\uXXXX` with surrogate pairs), numbers, `true`,
//! `false`, `null`, and nested arrays and objects (to the conventional
//! nesting limit of 128).

use vstd::prelude::*;
use crate::level::{spec_coerce_level, LogLevel};
use crate::time::{valid_civil, CivilDateTime};

verus! {

/// Why a payload was rejected.
#[derive(Debug, Clone, Copy, PartialEq, Eq, Structural)]
pub enum DecodeError {
    /// The top-level value is not an object.
    NotAnObject,
    /// Malformed syntax (or nesting beyond the limit).
    Syntax,
    /// The value of `L` or `S` is not a string.
    WrongType,
    /// The key `L` or `S` occurs twice.
    DuplicateField,
    /// No `L` member.
    MissingLevel,
    /// No `S` member.
    MissingBody,
    /// Well-formed object followed by more than whitespace.
    TrailingData,
}

pub open spec fn is_ws(b: u8) -> bool {
    b == 0x20 || b == 0x09 || b == 0x0A || b == 0x0D
}

/// The first non-whitespace position at or after `i`.
pub open spec fn spec_skip_ws(s: Seq<u8>, i: int) -> int
    decreases s.len() - i,
{
    if 0 <= i < s.len() && is_ws(s[i]) {
        spec_skip_ws(s, i + 1)
    } else {
        i
    }
}

pub open spec fn is_hex(b: u8) -> bool {
    is_dec(b) || (('a' as u8) <= b <= ('f' as u8)) || (('A' as u8) <= b <= ('F' as u8))
}

pub open spec fn is_dec(b: u8) -> bool {
    ('0' as u8) <= b <= ('9' as u8)
}

pub open spec fn hex_val(b: u8) -> int {
    if is_dec(b) {
        b - ('0' as u8)
    } else if ('a' as u8) <= b <= ('f' as u8) {
        b - ('a' as u8) + 10
    } else {
        b - ('A' as u8) + 10
    }
}

/// Whether four hex digits stand at `i`.
pub open spec fn hex4_ok(s: Seq<u8>, i: int) -> bool {
    i + 4 <= s.len() && is_hex(s[i]) && is_hex(s[i + 1]) && is_hex(s[i + 2]) && is_hex(s[i + 3])
}

/// The value of the four hex digits at `i`.
pub open spec fn hex4_val(s: Seq<u8>, i: int) -> int {
    4096 * hex_val(s[i]) + 256 * hex_val(s[i + 1]) + 16 * hex_val(s[i + 2]) + hex_val(s[i + 3])
}

/// The UTF-8 encoding of a scalar value.
pub open spec fn spec_utf8_encode(c: int) -> Seq<u8> {
    if c < 0x80 {
        seq![c as u8]
    } else if c < 0x800 {
        seq![(0xC0 + c / 64) as u8, (0x80 + c % 64) as u8]
    } else if c < 0x10000 {
        seq![(0xE0 + c / 4096) as u8, (0x80 + (c / 64) % 64) as u8, (0x80 + c % 64) as u8]
    } else {
        seq![
            (0xF0 + c / 262144) as u8,
            (0x80 + (c / 4096) % 64) as u8,
            (0x80 + (c / 64) % 64) as u8,
            (0x80 + c % 64) as u8,
        ]
    }
}

/// Unescapes one escape sequence, `i` standing on the byte after the
/// backslash: the unescaped bytes and the position after the sequence.
pub open spec fn spec_parse_escape(s: Seq<u8>, i: int) -> Option<(Seq<u8>, int)> {
    if i < 0 || i >= s.len() {
        None
    } else {
        let e = s[i];
        if e == ('"' as u8) || e == ('\\' as u8) || e == ('/' as u8) {
            Some((seq![e], i + 1))
        } else if e == ('b' as u8) {
            Some((seq![0x08u8], i + 1))
        } else if e == ('f' as u8) {
            Some((seq![0x0Cu8], i + 1))
        } else if e == ('n' as u8) {
            Some((seq![0x0Au8], i + 1))
        } else if e == ('r' as u8) {
            Some((seq![0x0Du8], i + 1))
        } else if e == ('t' as u8) {
            Some((seq![0x09u8], i + 1))
        } else if e == ('u' as u8) {
            if !hex4_ok(s, i + 1) {
                None
            } else {
                let c = hex4_val(s, i + 1);
                if 0xD800 <= c <= 0xDBFF {
                    // a high surrogate needs a low surrogate escape next
                    if i + 11 <= s.len() && s[i + 5] == ('\\' as u8) && s[i + 6] == ('u' as u8)
                        && hex4_ok(s, i + 7) && 0xDC00 <= hex4_val(s, i + 7) <= 0xDFFF {
                        let scalar = 0x10000 + 0x400 * (c - 0xD800) + (hex4_val(s, i + 7) - 0xDC00);
                        Some((spec_utf8_encode(scalar), i + 11))
                    } else {
                        None
                    }
                } else if 0xDC00 <= c <= 0xDFFF {
                    // a lone low surrogate is not a scalar
                    None
                } else {
                    Some((spec_utf8_encode(c), i + 5))
                }
            }
        } else {
            None
        }
    }
}

/// Parses JSON string content from `i` (just after the opening quote) to
/// the closing quote: the unescaped bytes and the position after the quote.
pub open spec fn spec_parse_string(s: Seq<u8>, i: int) -> Option<(Seq<u8>, int)>
    decreases s.len() - i,
{
    if i < 0 || i >= s.len() {
        None
    } else {
        let b = s[i];
        if b == ('"' as u8) {
            Some((Seq::<u8>::empty(), i + 1))
        } else if b == ('\\' as u8) {
            match spec_parse_escape(s, i + 1) {
                None => None,
                Some((head, j)) => if i + 1 < j <= s.len() {
                    spec_string_cons(head, spec_parse_string(s, j))
                } else {
                    // an escape always moves forward within the input
                    None
                },
            }
        } else if b < 0x20 {
            // raw control characters are not allowed inside strings
            None
        } else {
            spec_string_cons(seq![b], spec_parse_string(s, i + 1))
        }
    }
}

/// Prepends already-unescaped bytes to the rest of a string parse.
pub open spec fn spec_string_cons(head: Seq<u8>, rest: Option<(Seq<u8>, int)>) -> Option<
    (Seq<u8>, int),
> {
    match rest {
        None => None,
        Some((v, j)) => Some((head + v, j)),
    }
}

/// Parsing string content that needs no escaping: the content runs plainly
/// to its closing quote.
pub proof fn lemma_parse_plain_string(s: Seq<u8>, i: int, j: int)
    requires
        0 <= i <= j < s.len(),
        s[j] == ('"' as u8),
        forall|p: int|
            i <= p < j ==> 0x20 <= #[trigger] s[p] < 0x7F && s[p] != ('"' as u8) && s[p] != (
            '\\' as u8),
    ensures
        spec_parse_string(s, i) == Some((s.subrange(i, j), j + 1)),
    decreases j - i,
{
    if i == j {
        assert(s.subrange(i, j) =~= Seq::<u8>::empty());
    } else {
        lemma_parse_plain_string(s, i + 1, j);
        assert(seq![s[i]] + s.subrange(i + 1, j) =~= s.subrange(i, j));
    }
}

/// The first non-whitespace position at or after `i`.
pub fn skip_ws(s: &[u8], i: usize) -> (r: usize)
    requires
        i <= s@.len(),
    ensures
        r == spec_skip_ws(s@, i as int),
        i <= r <= s@.len(),
        r < s@.len() ==> !is_ws(s@[r as int]),
    decreases s@.len() - i,
{
    if i < s.len() {
        let b = s[i];
        if b == 0x20 || b == 0x09 || b == 0x0A || b == 0x0D {
            return skip_ws(s, i + 1);
        }
    }
    i
}

fn read_hex(b: u8) -> (r: Option<u8>)
    ensures
        r is Some <==> is_hex(b),
        r is Some ==> r->0 == hex_val(b) && r->0 <= 15,
{
    if ('0' as u8) <= b && b <= ('9' as u8) {
        Some(b - ('0' as u8))
    } else if ('a' as u8) <= b && b <= ('f' as u8) {
        Some(b - ('a' as u8) + 10)
    } else if ('A' as u8) <= b && b <= ('F' as u8) {
        Some(b - ('A' as u8) + 10)
    } else {
        None
    }
}

fn read_hex4(s: &[u8], i: usize) -> (r: Option<u32>)
    requires
        i <= s@.len(),
    ensures
        r is Some <==> hex4_ok(s@, i as int),
        r is Some ==> r->0 == hex4_val(s@, i as int) && r->0 <= 0xFFFF,
{
    if s.len() - i < 4 {
        return None;
    }
    let h0 = read_hex(s[i]);
    let h1 = read_hex(s[i + 1]);
    let h2 = read_hex(s[i + 2]);
    let h3 = read_hex(s[i + 3]);
    match (h0, h1, h2, h3) {
        (Some(a), Some(b), Some(c), Some(d)) => Some(
            4096 * (a as u32) + 256 * (b as u32) + 16 * (c as u32) + (d as u32),
        ),
        _ => None,
    }
}

/// Appends the UTF-8 encoding of the scalar `c`.
fn push_utf8(out: &mut Vec<u8>, c: u32)
    requires
        c < 0x110000,
    ensures
        final(out)@ == old(out)@ + spec_utf8_encode(c as int),
{
    if c < 0x80 {
        out.push(c as u8);
    } else if c < 0x800 {
        out.push((0xC0 + c / 64) as u8);
        out.push((0x80 + c % 64) as u8);
    } else if c < 0x10000 {
        out.push((0xE0 + c / 4096) as u8);
        out.push((0x80 + (c / 64) % 64) as u8);
        out.push((0x80 + c % 64) as u8);
    } else {
        out.push((0xF0 + c / 262144) as u8);
        out.push((0x80 + (c / 4096) % 64) as u8);
        out.push((0x80 + (c / 64) % 64) as u8);
        out.push((0x80 + c % 64) as u8);
    }
    assert(out@ =~= old(out)@ + spec_utf8_encode(c as int));
}

/// Unescapes one escape sequence, `i` standing on the byte after the
/// backslash.
#[verifier::rlimit(50)]
fn parse_escape(s: &[u8], i: usize) -> (r: Option<(Vec<u8>, usize)>)
    requires
        i <= s@.len(),
    ensures
        r is Some <==> spec_parse_escape(s@, i as int) is Some,
        r matches Some((v, j)) ==> spec_parse_escape(s@, i as int) == Some((v@, j as int)) && i < j
            <= s@.len(),
{
    if i >= s.len() {
        return None;
    }
    let e = s[i];
    if e == ('u' as u8) {
        let c = match read_hex4(s, i + 1) {
            Some(c) => c,
            None => {
                return None;
            },
        };
        if 0xD800 <= c && c <= 0xDBFF {
            if s.len() - i >= 11 && s[i + 5] == ('\\' as u8) && s[i + 6] == ('u' as u8) {
                let c2 = match read_hex4(s, i + 7) {
                    Some(c2) => c2,
                    None => {
                        return None;
                    },
                };
                if 0xDC00 <= c2 && c2 <= 0xDFFF {
                    let scalar = 0x10000 + 0x400 * (c - 0xD800) + (c2 - 0xDC00);
                    let mut out: Vec<u8> = Vec::new();
                    push_utf8(&mut out, scalar);
                    return Some((out, i + 11));
                }
                return None;
            }
            return None;
        }
        if 0xDC00 <= c && c <= 0xDFFF {
            return None;
        }
        let mut out: Vec<u8> = Vec::new();
        push_utf8(&mut out, c);
        return Some((out, i + 5));
    }
    let unescaped: u8 = if e == ('"' as u8) || e == ('\\' as u8) || e == ('/' as u8) {
        e
    } else if e == ('b' as u8) {
        0x08
    } else if e == ('f' as u8) {
        0x0C
    } else if e == ('n' as u8) {
        0x0A
    } else if e == ('r' as u8) {
        0x0D
    } else if e == ('t' as u8) {
        0x09
    } else {
        return None;
    };
    let mut out: Vec<u8> = Vec::new();
    out.push(unescaped);
    assert(out@ =~= seq![unescaped]);
    Some((out, i + 1))
}

/// Parses string content from `i` (just after the opening quote), yielding
/// the unescaped bytes and the position after the closing quote.
#[verifier::rlimit(50)]
pub fn parse_string(s: &[u8], i: usize) -> (r: Option<(Vec<u8>, usize)>)
    requires
        i <= s@.len(),
    ensures
        r is Some <==> spec_parse_string(s@, i as int) is Some,
        r matches Some((v, j)) ==> spec_parse_string(s@, i as int) == Some((v@, j as int)) && i < j
            <= s@.len(),
    decreases s@.len() - i,
{
    if i >= s.len() {
        return None;
    }
    let b = s[i];
    if b == ('"' as u8) {
        return Some((Vec::new(), i + 1));
    }
    if b == ('\\' as u8) {
        let (head, j) = match parse_escape(s, i + 1) {
            Some(h) => h,
            None => {
                return None;
            },
        };
        let rest = parse_string(s, j);
        match rest {
            None => return None,
            Some((v, k)) => {
                let mut out = head;
                let mut tail = v;
                out.append(&mut tail);
                assert(out@ =~= (spec_parse_escape(s@, i + 1)->0).0 + (spec_parse_string(
                    s@,
                    j as int,
                )->0).0);
                return Some((out, k));
            },
        }
    }
    if b < 0x20 {
        return None;
    }
    let rest = parse_string(s, i + 1);
    match rest {
        None => None,
        Some((v, j)) => {
            let mut out: Vec<u8> = Vec::new();
            out.push(b);
            let mut tail = v;
            out.append(&mut tail);
            assert(out@ =~= seq![b] + (spec_parse_string(s@, i + 1)->0).0);
            Some((out, j))
        },
    }
}

/// The first position at or after `i` holding no decimal digit.
pub open spec fn spec_skip_digits(s: Seq<u8>, i: int) -> int
    decreases s.len() - i,
{
    if 0 <= i < s.len() && is_dec(s[i]) {
        spec_skip_digits(s, i + 1)
    } else {
        i
    }
}

/// Lexes a JSON number beginning at `i`: an optional minus, an integer part
/// without leading zeroes, an optional fraction, an optional exponent; the
/// position after the number.
pub open spec fn spec_parse_number(s: Seq<u8>, i: int) -> Option<int> {
    if i < 0 || i >= s.len() {
        None
    } else {
        let j = if s[i] == ('-' as u8) {
            i + 1
        } else {
            i
        };
        if j >= s.len() || !is_dec(s[j]) {
            None
        } else {
            let k = if s[j] == ('0' as u8) {
                j + 1
            } else {
                spec_skip_digits(s, j)
            };
            let k2 = if k < s.len() && s[k] == ('.' as u8) {
                if k + 1 < s.len() && is_dec(s[k + 1]) {
                    spec_skip_digits(s, k + 1)
                } else {
                    -1
                }
            } else {
                k
            };
            if k2 < 0 {
                None
            } else {
                let k3 = if k2 < s.len() && (s[k2] == ('e' as u8) || s[k2] == ('E' as u8)) {
                    let m = if k2 + 1 < s.len() && (s[k2 + 1] == ('+' as u8) || s[k2 + 1] == (
                    '-' as u8)) {
                        k2 + 2
                    } else {
                        k2 + 1
                    };
                    if m < s.len() && is_dec(s[m]) {
                        spec_skip_digits(s, m)
                    } else {
                        -1
                    }
                } else {
                    k2
                };
                if k3 < 0 {
                    None
                } else {
                    Some(k3)
                }
            }
        }
    }
}

/// The nesting allowance for containers below the top-level object, the
/// conventional limit of 128 less the top level itself.
pub open spec fn spec_depth_limit() -> nat {
    127
}

/// Skips one JSON value beginning at `i` (whitespace already skipped);
/// `depth` bounds container nesting.
pub open spec fn spec_skip_value(s: Seq<u8>, i: int, depth: nat) -> Option<int>
    decreases depth, 0nat, 0nat,
{
    if i < 0 || i >= s.len() {
        None
    } else {
        let b = s[i];
        if b == ('"' as u8) {
            match spec_parse_string(s, i + 1) {
                None => None,
                Some((v, j)) => Some(j),
            }
        } else if b == ('{' as u8) {
            if depth == 0 {
                None
            } else {
                spec_skip_object_body(s, i + 1, (depth - 1) as nat, s.len() as nat)
            }
        } else if b == ('[' as u8) {
            if depth == 0 {
                None
            } else {
                spec_skip_array_body(s, i + 1, (depth - 1) as nat, s.len() as nat)
            }
        } else if b == ('t' as u8) {
            if i + 4 <= s.len() && s[i + 1] == ('r' as u8) && s[i + 2] == ('u' as u8) && s[i + 3]
                == ('e' as u8) {
                Some(i + 4)
            } else {
                None
            }
        } else if b == ('f' as u8) {
            if i + 5 <= s.len() && s[i + 1] == ('a' as u8) && s[i + 2] == ('l' as u8) && s[i + 3]
                == ('s' as u8) && s[i + 4] == ('e' as u8) {
                Some(i + 5)
            } else {
                None
            }
        } else if b == ('n' as u8) {
            if i + 4 <= s.len() && s[i + 1] == ('u' as u8) && s[i + 2] == ('l' as u8) && s[i + 3]
                == ('l' as u8) {
                Some(i + 4)
            } else {
                None
            }
        } else if b == ('-' as u8) || is_dec(b) {
            spec_parse_number(s, i)
        } else {
            None
        }
    }
}

/// After an opening brace: an empty object, or its members.
pub open spec fn spec_skip_object_body(s: Seq<u8>, i: int, depth: nat, n: nat) -> Option<int>
    decreases depth, n, 3nat,
{
    let j = spec_skip_ws(s, i);
    if j >= s.len() {
        None
    } else if s[j] == ('}' as u8) {
        Some(j + 1)
    } else {
        spec_skip_members(s, j, depth, n)
    }
}

/// A member list: a string key, a colon, a value, then a comma and more
/// members or a closing brace.
pub open spec fn spec_skip_members(s: Seq<u8>, i: int, depth: nat, n: nat) -> Option<int>
    decreases depth, n, 2nat,
{
    if i < 0 || i >= s.len() || s[i] != ('"' as u8) {
        None
    } else {
        match spec_parse_string(s, i + 1) {
            None => None,
            Some((key, j)) => {
                let j2 = spec_skip_ws(s, j);
                if j2 >= s.len() || s[j2] != (':' as u8) {
                    None
                } else {
                    let j3 = spec_skip_ws(s, j2 + 1);
                    match spec_skip_value(s, j3, depth) {
                        None => None,
                        Some(j4) => {
                            let j5 = spec_skip_ws(s, j4);
                            if j5 >= s.len() {
                                None
                            } else if s[j5] == ('}' as u8) {
                                Some(j5 + 1)
                            } else if s[j5] == (',' as u8) {
                                if n == 0 {
                                    None
                                } else {
                                    let j6 = spec_skip_ws(s, j5 + 1);
                                    spec_skip_members(s, j6, depth, (n - 1) as nat)
                                }
                            } else {
                                None
                            }
                        },
                    }
                }
            },
        }
    }
}

/// After an opening bracket: an empty array, or its elements.
pub open spec fn spec_skip_array_body(s: Seq<u8>, i: int, depth: nat, n: nat) -> Option<int>
    decreases depth, n, 3nat,
{
    let j = spec_skip_ws(s, i);
    if j >= s.len() {
        None
    } else if s[j] == (']' as u8) {
        Some(j + 1)
    } else {
        spec_skip_elements(s, j, depth, n)
    }
}

/// An element list: a value, then a comma and more elements or a closing
/// bracket.
pub open spec fn spec_skip_elements(s: Seq<u8>, i: int, depth: nat, n: nat) -> Option<int>
    decreases depth, n, 2nat,
{
    match spec_skip_value(s, i, depth) {
        None => None,
        Some(j) => {
            let j2 = spec_skip_ws(s, j);
            if j2 >= s.len() {
                None
            } else if s[j2] == (']' as u8) {
                Some(j2 + 1)
            } else if s[j2] == (',' as u8) {
                if n == 0 {
                    None
                } else {
                    let j3 = spec_skip_ws(s, j2 + 1);
                    spec_skip_elements(s, j3, depth, (n - 1) as nat)
                }
            } else {
                None
            }
        },
    }
}

/// Walks the members of the top-level object, collecting the string values
/// of `L` and `S` and skipping every other member; `i` stands at the start
/// of a member.
pub open spec fn spec_parse_fields(
    s: Seq<u8>,
    i: int,
    depth: nat,
    n: nat,
    level: Option<Seq<u8>>,
    body: Option<Seq<u8>>,
) -> Result<(Option<Seq<u8>>, Option<Seq<u8>>, int), DecodeError>
    decreases depth, n, 2nat,
{
    if i < 0 || i >= s.len() || s[i] != ('"' as u8) {
        Err(DecodeError::Syntax)
    } else {
        match spec_parse_string(s, i + 1) {
            None => Err(DecodeError::Syntax),
            Some((key, j)) => {
                let j2 = spec_skip_ws(s, j);
                if j2 >= s.len() || s[j2] != (':' as u8) {
                    Err(DecodeError::Syntax)
                } else {
                    let j3 = spec_skip_ws(s, j2 + 1);
                    if key == seq![('L' as u8)] || key == seq![('S' as u8)] {
                        if key == seq![('L' as u8)] && level is Some {
                            Err(DecodeError::DuplicateField)
                        } else if key == seq![('S' as u8)] && body is Some {
                            Err(DecodeError::DuplicateField)
                        } else if j3 >= s.len() {
                            Err(DecodeError::Syntax)
                        } else if s[j3] != ('"' as u8) {
                            Err(DecodeError::WrongType)
                        } else {
                            match spec_parse_string(s, j3 + 1) {
                                None => Err(DecodeError::Syntax),
                                Some((val, j4)) => {
                                    if key == seq![('L' as u8)] {
                                        spec_fields_cont(s, j4, depth, n, Some(val), body)
                                    } else {
                                        spec_fields_cont(s, j4, depth, n, level, Some(val))
                                    }
                                },
                            }
                        }
                    } else {
                        match spec_skip_value(s, j3, depth) {
                            None => Err(DecodeError::Syntax),
                            Some(j4) => spec_fields_cont(s, j4, depth, n, level, body),
                        }
                    }
                }
            },
        }
    }
}

/// After one member: a comma and more members, or the closing brace.
pub open spec fn spec_fields_cont(
    s: Seq<u8>,
    i: int,
    depth: nat,
    n: nat,
    level: Option<Seq<u8>>,
    body: Option<Seq<u8>>,
) -> Result<(Option<Seq<u8>>, Option<Seq<u8>>, int), DecodeError>
    decreases depth, n, 1nat,
{
    let j = spec_skip_ws(s, i);
    if j >= s.len() {
        Err(DecodeError::Syntax)
    } else if s[j] == ('}' as u8) {
        Ok((level, body, j + 1))
    } else if s[j] == (',' as u8) {
        if n == 0 {
            Err(DecodeError::Syntax)
        } else {
            let j2 = spec_skip_ws(s, j + 1);
            spec_parse_fields(s, j2, depth, (n - 1) as nat, level, body)
        }
    } else {
        Err(DecodeError::Syntax)
    }
}

/// Closes a decode: both fields must have been seen, and nothing but
/// whitespace may follow the object.
pub open spec fn spec_decode_finish(s: Seq<u8>, i: int, level: Option<Seq<u8>>, body: Option<
    Seq<u8>,
>) -> Result<(Seq<u8>, Seq<u8>), DecodeError> {
    match level {
        None => Err(DecodeError::MissingLevel),
        Some(l) => match body {
            None => Err(DecodeError::MissingBody),
            Some(b) => {
                if spec_skip_ws(s, i) < s.len() {
                    Err(DecodeError::TrailingData)
                } else {
                    Ok((l, b))
                }
            },
        },
    }
}

/// The whole decode of one payload: the raw level and body strings of the
/// top-level object.
pub open spec fn spec_decode(s: Seq<u8>) -> Result<(Seq<u8>, Seq<u8>), DecodeError> {
    let i = spec_skip_ws(s, 0);
    if i >= s.len() {
        Err(DecodeError::Syntax)
    } else if s[i] != ('{' as u8) {
        Err(DecodeError::NotAnObject)
    } else {
        let j = spec_skip_ws(s, i + 1);
        if j >= s.len() {
            Err(DecodeError::Syntax)
        } else if s[j] == ('}' as u8) {
            spec_decode_finish(s, j + 1, None, None)
        } else {
            match spec_parse_fields(s, j, spec_depth_limit(), s.len() as nat, None, None) {
                Err(e) => Err(e),
                Ok((level, body, k)) => spec_decode_finish(s, k, level, body),
            }
        }
    }
}

/// The first position at or after `i` holding no decimal digit.
fn skip_digits(s: &[u8], i: usize) -> (r: usize)
    requires
        i <= s@.len(),
    ensures
        r == spec_skip_digits(s@, i as int),
        i <= r <= s@.len(),
        i < s@.len() && is_dec(s@[i as int]) ==> r >= i + 1,
    decreases s@.len() - i,
{
    if i < s.len() && ('0' as u8) <= s[i] && s[i] <= ('9' as u8) {
        skip_digits(s, i + 1)
    } else {
        i
    }
}

/// Lexes one JSON number beginning at `i`.
fn parse_number(s: &[u8], i: usize) -> (r: Option<usize>)
    requires
        i <= s@.len(),
    ensures
        r is Some <==> spec_parse_number(s@, i as int) is Some,
        r matches Some(j) ==> spec_parse_number(s@, i as int) == Some(j as int) && i < j
            <= s@.len(),
{
    if i >= s.len() {
        return None;
    }
    let j = if s[i] == ('-' as u8) {
        i + 1
    } else {
        i
    };
    if j >= s.len() || !(('0' as u8) <= s[j] && s[j] <= ('9' as u8)) {
        return None;
    }
    let k = if s[j] == ('0' as u8) {
        j + 1
    } else {
        skip_digits(s, j)
    };
    let k2: usize;
    if k < s.len() && s[k] == ('.' as u8) {
        if k + 1 < s.len() && ('0' as u8) <= s[k + 1] && s[k + 1] <= ('9' as u8) {
            k2 = skip_digits(s, k + 1);
        } else {
            return None;
        }
    } else {
        k2 = k;
    }
    if k2 < s.len() && (s[k2] == ('e' as u8) || s[k2] == ('E' as u8)) {
        let m = if k2 + 1 < s.len() && (s[k2 + 1] == ('+' as u8) || s[k2 + 1] == ('-' as u8)) {
            k2 + 2
        } else {
            k2 + 1
        };
        if m < s.len() && ('0' as u8) <= s[m] && s[m] <= ('9' as u8) {
            Some(skip_digits(s, m))
        } else {
            None
        }
    } else {
        Some(k2)
    }
}

/// Skips one JSON value beginning at `i`.
fn skip_value(s: &[u8], i: usize, depth: usize) -> (r: Option<usize>)
    requires
        i <= s@.len(),
    ensures
        r is Some <==> spec_skip_value(s@, i as int, depth as nat) is Some,
        r matches Some(j) ==> spec_skip_value(s@, i as int, depth as nat) == Some(j as int) && i
            < j <= s@.len(),
    decreases depth, 0int, 0int,
{
    if i >= s.len() {
        return None;
    }
    let b = s[i];
    if b == ('"' as u8) {
        match parse_string(s, i + 1) {
            None => None,
            Some((_, j)) => Some(j),
        }
    } else if b == ('{' as u8) {
        if depth == 0 {
            None
        } else {
            skip_object_body(s, i + 1, depth - 1, s.len())
        }
    } else if b == ('[' as u8) {
        if depth == 0 {
            None
        } else {
            skip_array_body(s, i + 1, depth - 1, s.len())
        }
    } else if b == ('t' as u8) {
        if s.len() - i >= 4 && s[i + 1] == ('r' as u8) && s[i + 2] == ('u' as u8) && s[i + 3] == (
        'e' as u8) {
            Some(i + 4)
        } else {
            None
        }
    } else if b == ('f' as u8) {
        if s.len() - i >= 5 && s[i + 1] == ('a' as u8) && s[i + 2] == ('l' as u8) && s[i + 3] == (
        's' as u8) && s[i + 4] == ('e' as u8) {
            Some(i + 5)
        } else {
            None
        }
    } else if b == ('n' as u8) {
        if s.len() - i >= 4 && s[i + 1] == ('u' as u8) && s[i + 2] == ('l' as u8) && s[i + 3] == (
        'l' as u8) {
            Some(i + 4)
        } else {
            None
        }
    } else if b == ('-' as u8) || (('0' as u8) <= b && b <= ('9' as u8)) {
        parse_number(s, i)
    } else {
        None
    }
}

/// After an opening brace: an empty object, or its members.
fn skip_object_body(s: &[u8], i: usize, depth: usize, n: usize) -> (r: Option<usize>)
    requires
        i <= s@.len(),
    ensures
        r is Some <==> spec_skip_object_body(s@, i as int, depth as nat, n as nat) is Some,
        r matches Some(j) ==> spec_skip_object_body(s@, i as int, depth as nat, n as nat) == Some(
            j as int,
        ) && i <= j <= s@.len() + 1 && j <= s@.len(),
    decreases depth, n, 3int,
{
    let j = skip_ws(s, i);
    if j >= s.len() {
        None
    } else if s[j] == ('}' as u8) {
        Some(j + 1)
    } else {
        skip_members(s, j, depth, n)
    }
}

/// A member list of a skipped object.
fn skip_members(s: &[u8], i: usize, depth: usize, n: usize) -> (r: Option<usize>)
    requires
        i <= s@.len(),
    ensures
        r is Some <==> spec_skip_members(s@, i as int, depth as nat, n as nat) is Some,
        r matches Some(j) ==> spec_skip_members(s@, i as int, depth as nat, n as nat) == Some(
            j as int,
        ) && i < j <= s@.len(),
    decreases depth, n, 2int,
{
    if i >= s.len() || s[i] != ('"' as u8) {
        return None;
    }
    let j = match parse_string(s, i + 1) {
        None => {
            return None;
        },
        Some((_, j)) => j,
    };
    let j2 = skip_ws(s, j);
    if j2 >= s.len() || s[j2] != (':' as u8) {
        return None;
    }
    let j3 = skip_ws(s, j2 + 1);
    let j4 = match skip_value(s, j3, depth) {
        None => {
            return None;
        },
        Some(j4) => j4,
    };
    let j5 = skip_ws(s, j4);
    if j5 >= s.len() {
        None
    } else if s[j5] == ('}' as u8) {
        Some(j5 + 1)
    } else if s[j5] == (',' as u8) {
        if n == 0 {
            None
        } else {
            let j6 = skip_ws(s, j5 + 1);
            skip_members(s, j6, depth, n - 1)
        }
    } else {
        None
    }
}

/// After an opening bracket: an empty array, or its elements.
fn skip_array_body(s: &[u8], i: usize, depth: usize, n: usize) -> (r: Option<usize>)
    requires
        i <= s@.len(),
    ensures
        r is Some <==> spec_skip_array_body(s@, i as int, depth as nat, n as nat) is Some,
        r matches Some(j) ==> spec_skip_array_body(s@, i as int, depth as nat, n as nat) == Some(
            j as int,
        ) && i <= j <= s@.len(),
    decreases depth, n, 3int,
{
    let j = skip_ws(s, i);
    if j >= s.len() {
        None
    } else if s[j] == (']' as u8) {
        Some(j + 1)
    } else {
        skip_elements(s, j, depth, n)
    }
}

/// An element list of a skipped array.
fn skip_elements(s: &[u8], i: usize, depth: usize, n: usize) -> (r: Option<usize>)
    requires
        i <= s@.len(),
    ensures
        r is Some <==> spec_skip_elements(s@, i as int, depth as nat, n as nat) is Some,
        r matches Some(j) ==> spec_skip_elements(s@, i as int, depth as nat, n as nat) == Some(
            j as int,
        ) && i < j <= s@.len(),
    decreases depth, n, 2int,
{
    let j = match skip_value(s, i, depth) {
        None => {
            return None;
        },
        Some(j) => j,
    };
    let j2 = skip_ws(s, j);
    if j2 >= s.len() {
        None
    } else if s[j2] == (']' as u8) {
        Some(j2 + 1)
    } else if s[j2] == (',' as u8) {
        if n == 0 {
            None
        } else {
            let j3 = skip_ws(s, j2 + 1);
            skip_elements(s, j3, depth, n - 1)
        }
    } else {
        None
    }
}

/// The view of an optional byte vector.
pub open spec fn opt_view(o: Option<Vec<u8>>) -> Option<Seq<u8>> {
    match o {
        None => None,
        Some(v) => Some(v@),
    }
}

/// Walks the members of the top-level object, collecting the string values
/// of `L` and `S`.
#[verifier::rlimit(50)]
fn parse_fields(
    s: &[u8],
    i: usize,
    depth: usize,
    n: usize,
    level: Option<Vec<u8>>,
    body: Option<Vec<u8>>,
) -> (r: Result<(Option<Vec<u8>>, Option<Vec<u8>>, usize), DecodeError>)
    requires
        i <= s@.len(),
    ensures
        ({
            let spec_r = spec_parse_fields(
                s@,
                i as int,
                depth as nat,
                n as nat,
                opt_view(level),
                opt_view(body),
            );
            &&& (r matches Ok((l, b, j)) ==> spec_r == Ok::<_, DecodeError>(
                (opt_view(l), opt_view(b), j as int),
            ) && j <= s@.len())
            &&& (r matches Err(e) ==> spec_r == Err::<(Option<Seq<u8>>, Option<Seq<u8>>, int), _>(
                e,
            ))
        }),
    decreases depth, n, 2int,
{
    if i >= s.len() || s[i] != ('"' as u8) {
        return Err(DecodeError::Syntax);
    }
    let (key, j) = match parse_string(s, i + 1) {
        None => {
            return Err(DecodeError::Syntax);
        },
        Some(kj) => kj,
    };
    let j2 = skip_ws(s, j);
    if j2 >= s.len() || s[j2] != (':' as u8) {
        return Err(DecodeError::Syntax);
    }
    let j3 = skip_ws(s, j2 + 1);
    let key_is_l = key.len() == 1 && key[0] == ('L' as u8);
    let key_is_s = key.len() == 1 && key[0] == ('S' as u8);
    proof {
        if key_is_l {
            assert(key@ =~= seq![('L' as u8)]);
        } else {
            assert(key@ != seq![('L' as u8)]);
        }
        if key_is_s {
            assert(key@ =~= seq![('S' as u8)]);
        } else {
            assert(key@ != seq![('S' as u8)]);
        }
    }
    if key_is_l || key_is_s {
        if key_is_l && level.is_some() {
            return Err(DecodeError::DuplicateField);
        }
        if key_is_s && body.is_some() {
            return Err(DecodeError::DuplicateField);
        }
        if j3 >= s.len() {
            return Err(DecodeError::Syntax);
        }
        if s[j3] != ('"' as u8) {
            return Err(DecodeError::WrongType);
        }
        let (val, j4) = match parse_string(s, j3 + 1) {
            None => {
                return Err(DecodeError::Syntax);
            },
            Some(vj) => vj,
        };
        if key_is_l {
            parse_fields_cont(s, j4, depth, n, Some(val), body)
        } else {
            parse_fields_cont(s, j4, depth, n, level, Some(val))
        }
    } else {
        let j4 = match skip_value(s, j3, depth) {
            None => {
                return Err(DecodeError::Syntax);
            },
            Some(j4) => j4,
        };
        parse_fields_cont(s, j4, depth, n, level, body)
    }
}

/// After one member of the top-level object.
fn parse_fields_cont(
    s: &[u8],
    i: usize,
    depth: usize,
    n: usize,
    level: Option<Vec<u8>>,
    body: Option<Vec<u8>>,
) -> (r: Result<(Option<Vec<u8>>, Option<Vec<u8>>, usize), DecodeError>)
    requires
        i <= s@.len(),
    ensures
        ({
            let spec_r = spec_fields_cont(
                s@,
                i as int,
                depth as nat,
                n as nat,
                opt_view(level),
                opt_view(body),
            );
            &&& (r matches Ok((l, b, j)) ==> spec_r == Ok::<_, DecodeError>(
                (opt_view(l), opt_view(b), j as int),
            ) && j <= s@.len())
            &&& (r matches Err(e) ==> spec_r == Err::<(Option<Seq<u8>>, Option<Seq<u8>>, int), _>(
                e,
            ))
        }),
    decreases depth, n, 1int,
{
    let j = skip_ws(s, i);
    if j >= s.len() {
        Err(DecodeError::Syntax)
    } else if s[j] == ('}' as u8) {
        Ok((level, body, j + 1))
    } else if s[j] == (',' as u8) {
        if n == 0 {
            Err(DecodeError::Syntax)
        } else {
            let j2 = skip_ws(s, j + 1);
            parse_fields(s, j2, depth, n - 1, level, body)
        }
    } else {
        Err(DecodeError::Syntax)
    }
}

/// Decodes one payload into its raw level and body strings.
pub fn decode_payload(payload: &[u8]) -> (r: Result<(Vec<u8>, Vec<u8>), DecodeError>)
    ensures
        r matches Ok((l, b)) ==> spec_decode(payload@) == Ok::<_, DecodeError>((l@, b@)),
        r matches Err(e) ==> spec_decode(payload@) == Err::<(Seq<u8>, Seq<u8>), _>(e),
{
    let s = payload;
    let i = skip_ws(s, 0);
    if i >= s.len() {
        return Err(DecodeError::Syntax);
    }
    if s[i] != ('{' as u8) {
        return Err(DecodeError::NotAnObject);
    }
    let j = skip_ws(s, i + 1);
    if j >= s.len() {
        return Err(DecodeError::Syntax);
    }
    let fields = if s[j] == ('}' as u8) {
        (None, None, j + 1)
    } else {
        match parse_fields(s, j, 127, s.len(), None, None) {
            Err(e) => {
                return Err(e);
            },
            Ok(f) => f,
        }
    };
    let (level, body, k) = fields;
    let l = match level {
        None => {
            return Err(DecodeError::MissingLevel);
        },
        Some(l) => l,
    };
    let b = match body {
        None => {
            return Err(DecodeError::MissingBody);
        },
        Some(b) => b,
    };
    if skip_ws(s, k) < s.len() {
        return Err(DecodeError::TrailingData);
    }
    Ok((l, b))
}

/// One canonical record: the classified level, the body bytes as they stood
/// in the payload, and the local civil time stamped at decode.
#[derive(Debug, Clone, PartialEq, Eq)]
pub struct Record {
    pub level: LogLevel,
    pub body: Vec<u8>,
    pub event_time: CivilDateTime,
}

/// Decodes one payload into a canonical record.  The level name is
/// classified case-insensitively, an unknown name coercing to `Info`; the
/// event time is the local clock at the instant of decode success, handed in
/// by the caller, not anything carried in the payload.
pub fn decode(payload: &[u8], now: &CivilDateTime) -> (r: Result<Record, DecodeError>)
    requires
        valid_civil(*now),
    ensures
        r is Ok <==> spec_decode(payload@) is Ok,
        r matches Ok(rec) ==> spec_decode(payload@) matches Ok(p) && rec.level
            == spec_coerce_level(p.0) && rec.body@ == p.1 && rec.event_time == *now,
        r matches Err(e) ==> spec_decode(payload@) == Err::<(Seq<u8>, Seq<u8>), DecodeError>(e),
{
    match decode_payload(payload) {
        Err(e) => Err(e),
        Ok((level_name, body)) => {
            let level = crate::level::coerce_level_bytes(level_name.as_slice());
            Ok(Record { level, body, event_time: *now })
        },
    }
}

} // verus!
