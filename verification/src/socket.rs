//! The network session core: validation and parsing of the user-supplied
//! endpoint address — rejected before any I/O is attempted — the session's
//! error kinds, and the per-fill step of a seek cycle that decodes, smooths
//! and buffers one scratch buffer of wire data.
//!
//! The accepted address grammar has two forms. The dotted-quad form is four
//! decimal octets (0–255, no leading zeros), a colon and a port. The
//! bracketed form is `[host]:port`, where the host is made of 16-bit hex
//! groups (one to four digits each) separated by colons, with at most one
//! `::` eliding at least one zero group, eight logical groups in all, and
//! optionally a trailing dotted quad standing for the last two groups. The
//! port is decimal, at most 65535, leading zeros allowed. Zone identifiers
//! (`%` suffixes) are not part of the grammar.

use vstd::prelude::*;

use crate::buffer::push_samples;
use crate::codec::{carry_after, decode_seq, process_chunk};
use vstd::string::StrSliceExecFns;
use vstd::string::StringSliceAdditionalSpecFns;

verus! {

/// Seconds a blocking socket read may stall before it counts as failed.
pub const READ_TIMEOUT_SECS: u64 = 10;

/// Read fills one seek cycle performs before handing control back.
pub const SEEK_ITERATIONS: usize = 300;

/// Byte value of `.` in an address.
pub const DOT: u8 = 46;

/// Byte value of `:` in an address.
pub const COLON: u8 = 58;

/// Byte value of `[`.
pub const OPEN_BRACKET: u8 = 91;

/// Byte value of `]`.
pub const CLOSE_BRACKET: u8 = 93;

/// Byte value of `0`.
pub const DIGIT_ZERO: u8 = 48;

/// Byte value of `9`.
pub const DIGIT_NINE: u8 = 57;

/// Byte value of `a`.
pub const LOWER_A: u8 = 97;

/// Byte value of `f`.
pub const LOWER_F: u8 = 102;

/// Byte value of `A`.
pub const UPPER_A: u8 = 65;

/// Byte value of `F`.
pub const UPPER_F: u8 = 70;

/// Why a connect failed before or while opening the socket.
#[derive(Debug, Clone, Copy, PartialEq, Eq, Structural)]
pub enum SocketError {
    AddressError,
    ConnectionError,
    SetupError,
}

impl SocketError {
    /// The operator-facing description of the failure.
    pub fn message(&self) -> (r: String)
        ensures
            self is AddressError ==> r@ == "Device address invalid"@,
            self is ConnectionError ==> r@ == "Error connecting to device"@,
            self is SetupError ==> r@ == "Internal error"@,
    {
        match self {
            SocketError::AddressError => "Device address invalid".to_owned(),
            SocketError::ConnectionError => "Error connecting to device".to_owned(),
            SocketError::SetupError => "Internal error".to_owned(),
        }
    }
}

/// A parsed endpoint: the four octets of a dotted-quad address, or the
/// validated text of a bracketed host, each with the port.
#[derive(Debug, Clone, PartialEq, Eq)]
pub enum Endpoint {
    V4 { o0: u8, o1: u8, o2: u8, o3: u8, port: u16 },
    V6 { host: Vec<u8>, port: u16 },
}

/// A decimal digit byte.
pub open spec fn is_digit(b: u8) -> bool {
    DIGIT_ZERO <= b && b <= DIGIT_NINE
}

/// A hexadecimal digit byte, either case.
pub open spec fn is_hex_digit(b: u8) -> bool {
    is_digit(b) || (LOWER_A <= b && b <= LOWER_F) || (UPPER_A <= b && b <= UPPER_F)
}

/// Every byte of the segment is a decimal digit.
pub open spec fn all_digits(s: Seq<u8>) -> bool {
    forall|i: int| 0 <= i < s.len() ==> is_digit(s[i])
}

/// Value of a decimal digit string.
pub open spec fn dec_value(s: Seq<u8>) -> int
    decreases s.len(),
{
    if s.len() == 0 {
        0
    } else {
        dec_value(s.drop_last()) * 10 + (s.last() - DIGIT_ZERO)
    }
}

/// A decimal numeral: nonempty, digits only, no leading zero.
pub open spec fn is_numeral(s: Seq<u8>) -> bool {
    s.len() >= 1 && all_digits(s) && (s.len() > 1 ==> s[0] != DIGIT_ZERO)
}

/// The text of one address octet.
pub open spec fn is_octet_text(s: Seq<u8>) -> bool {
    is_numeral(s) && s.len() <= 3 && dec_value(s) <= 255
}

/// The text of a port: nonempty, digits only — leading zeros allowed —
/// valuing at most 65535.
pub open spec fn is_port_text(s: Seq<u8>) -> bool {
    s.len() >= 1 && all_digits(s) && dec_value(s) <= 65535
}

/// The positions `i1 < i2 < i3` of the dots and `j` of the colon split `s`
/// into four octets and a port.
pub open spec fn valid_split(s: Seq<u8>, i1: int, i2: int, i3: int, j: int) -> bool {
    &&& 0 <= i1 < i2 < i3 < j < s.len()
    &&& s[i1] == DOT
    &&& s[i2] == DOT
    &&& s[i3] == DOT
    &&& s[j] == COLON
    &&& is_octet_text(s.subrange(0, i1))
    &&& is_octet_text(s.subrange(i1 + 1, i2))
    &&& is_octet_text(s.subrange(i2 + 1, i3))
    &&& is_octet_text(s.subrange(i3 + 1, j))
    &&& is_port_text(s.subrange(j + 1, s.len() as int))
}

/// A well-formed dotted-quad endpoint.
pub open spec fn is_ipv4_address(s: Seq<u8>) -> bool {
    exists|i1: int, i2: int, i3: int, j: int| valid_split(s, i1, i2, i3, j)
}

/// First position of `target` in `s[from..to]`, or `to` when it is absent.
pub open spec fn find_in(s: Seq<u8>, from: int, to: int, target: u8) -> int
    decreases to - from,
{
    if from < 0 || from >= to || to > s.len() {
        to
    } else if s[from] == target {
        from
    } else {
        find_in(s, from + 1, to, target)
    }
}

/// `find_in` yields `to`, or a position of `target` at or beyond `from`.
proof fn lemma_find_in_bounds(s: Seq<u8>, from: int, to: int, target: u8)
    ensures
        ({
            let r = find_in(s, from, to, target);
            r == to || (from <= r < to && s[r] == target)
        }),
    decreases to - from,
{
    if !(from < 0 || from >= to || to > s.len()) && s[from] != target {
        lemma_find_in_bounds(s, from + 1, to, target);
    }
}

/// First position in `s[from..to]` where two colons stand side by side, or
/// `to` when there is none.
pub open spec fn find_elision(s: Seq<u8>, from: int, to: int) -> int
    decreases to - from,
{
    if from < 0 || from + 1 >= to || to > s.len() {
        to
    } else if s[from] == COLON && s[from + 1] == COLON {
        from
    } else {
        find_elision(s, from + 1, to)
    }
}

/// One 16-bit group of a bracketed host: one to four hex digits.
pub open spec fn is_h16(s: Seq<u8>, from: int, to: int) -> bool {
    &&& 1 <= to - from <= 4
    &&& forall|i: int| from <= i < to ==> is_hex_digit(s[i])
}

/// A dotted quad inside a bracketed host, split at the first dots.
pub open spec fn is_quad(s: Seq<u8>, from: int, to: int) -> bool {
    let i1 = find_in(s, from, to, DOT);
    let i2 = find_in(s, i1 + 1, to, DOT);
    let i3 = find_in(s, i2 + 1, to, DOT);
    &&& i3 < to
    &&& is_octet_text(s.subrange(from, i1))
    &&& is_octet_text(s.subrange(i1 + 1, i2))
    &&& is_octet_text(s.subrange(i2 + 1, i3))
    &&& is_octet_text(s.subrange(i3 + 1, to))
}

/// Logical group count of a colon-separated host part: each hex group
/// counts one; a trailing dotted quad — allowed only where `allow_quad`
/// holds — counts two. Nothing when the part is not well formed.
pub open spec fn group_count(s: Seq<u8>, from: int, to: int, allow_quad: bool) -> Option<int>
    decreases to - from,
    via group_count_decreases
{
    let c = find_in(s, from, to, COLON);
    if c >= to {
        if is_h16(s, from, to) {
            Some(1int)
        } else if allow_quad && is_quad(s, from, to) {
            Some(2int)
        } else {
            None
        }
    } else if is_h16(s, from, c) {
        match group_count(s, c + 1, to, allow_quad) {
            Some(n) => Some(n + 1),
            None => None,
        }
    } else {
        None
    }
}

#[via_fn]
proof fn group_count_decreases(s: Seq<u8>, from: int, to: int, allow_quad: bool) {
    lemma_find_in_bounds(s, from, to, COLON);
}

/// A bracketed host: at most one `::`, eliding at least one zero group;
/// eight logical groups without it, at most seven spelled out with it.
pub open spec fn is_v6_host(s: Seq<u8>, from: int, to: int) -> bool {
    let e = find_elision(s, from, to);
    if e == to {
        group_count(s, from, to, true) == Some(8int)
    } else {
        let a = if e == from {
            Some(0int)
        } else {
            group_count(s, from, e, false)
        };
        let b = if e + 2 == to {
            Some(0int)
        } else {
            group_count(s, e + 2, to, true)
        };
        &&& a is Some
        &&& b is Some
        &&& a.unwrap() + b.unwrap() <= 7
    }
}

/// A well-formed bracketed endpoint: `[host]:port`, the bracket closing at
/// the first `]`.
pub open spec fn is_ipv6_address(s: Seq<u8>) -> bool {
    let p = find_in(s, 0, s.len() as int, CLOSE_BRACKET);
    &&& s.len() >= 1
    &&& s[0] == OPEN_BRACKET
    &&& p + 1 < s.len()
    &&& s[p + 1] == COLON
    &&& is_v6_host(s, 1, p)
    &&& is_port_text(s.subrange(p + 2, s.len() as int))
}

/// A well-formed textual endpoint address: either of the two forms.
pub open spec fn is_valid_address(s: Seq<u8>) -> bool {
    is_ipv4_address(s) || is_ipv6_address(s)
}

/// A digit string's value is never negative.
proof fn lemma_dec_value_nonneg(s: Seq<u8>)
    requires
        all_digits(s),
    ensures
        dec_value(s) >= 0,
    decreases s.len(),
{
    if s.len() > 0 {
        assert(forall|m: int|
            0 <= m < s.drop_last().len() ==> is_digit(#[trigger] s.drop_last()[m]));
        lemma_dec_value_nonneg(s.drop_last());
        assert(is_digit(s.last()));
    }
}

/// Extending a digit string never lowers its value.
proof fn lemma_dec_value_prefix(s: Seq<u8>, k: int)
    requires
        all_digits(s),
        0 <= k <= s.len(),
    ensures
        dec_value(s.take(k)) <= dec_value(s),
    decreases s.len(),
{
    if k == s.len() {
        assert(s.take(k) =~= s);
    } else {
        assert(forall|m: int|
            0 <= m < s.drop_last().len() ==> is_digit(#[trigger] s.drop_last()[m]));
        assert(s.drop_last().take(k) =~= s.take(k));
        lemma_dec_value_prefix(s.drop_last(), k);
        lemma_dec_value_nonneg(s.drop_last());
        assert(is_digit(s.last()));
        assert(dec_value(s) >= dec_value(s.drop_last()));
    }
}

/// Inside a valid split, every byte of a segment is a digit, so none is a
/// dot or a colon.
proof fn lemma_split_positions(s: Seq<u8>, i1: int, i2: int, i3: int, j: int)
    requires
        valid_split(s, i1, i2, i3, j),
    ensures
        forall|m: int| 0 <= m < i1 ==> s[m] != DOT && s[m] != COLON,
        forall|m: int| i1 < m < i2 ==> s[m] != DOT && s[m] != COLON,
        forall|m: int| i2 < m < i3 ==> s[m] != DOT && s[m] != COLON,
        forall|m: int| i3 < m < j ==> s[m] != DOT && s[m] != COLON,
{
    assert forall|m: int| 0 <= m < i1 implies s[m] != DOT && s[m] != COLON by {
        assert(is_digit(s.subrange(0, i1)[m]));
    };
    assert forall|m: int| i1 < m < i2 implies s[m] != DOT && s[m] != COLON by {
        assert(is_digit(s.subrange(i1 + 1, i2)[m - (i1 + 1)]));
    };
    assert forall|m: int| i2 < m < i3 implies s[m] != DOT && s[m] != COLON by {
        assert(is_digit(s.subrange(i2 + 1, i3)[m - (i2 + 1)]));
    };
    assert forall|m: int| i3 < m < j implies s[m] != DOT && s[m] != COLON by {
        assert(is_digit(s.subrange(i3 + 1, j)[m - (i3 + 1)]));
    };
}

/// The scanner's first-dot and first-colon positions coincide with any
/// valid split's: octets hold no dot or colon, so the split is unique.
proof fn lemma_scan_matches_split(
    s: Seq<u8>,
    i1: int,
    i2: int,
    i3: int,
    j: int,
    f1: int,
    f2: int,
    f3: int,
    fc: int,
)
    requires
        valid_split(s, i1, i2, i3, j),
        0 <= f1 < s.len() && s[f1] == DOT && (forall|m: int| 0 <= m < f1 ==> s[m] != DOT),
        f1 < f2 < s.len() && s[f2] == DOT && (forall|m: int| f1 < m < f2 ==> s[m] != DOT),
        f2 < f3 < s.len() && s[f3] == DOT && (forall|m: int| f2 < m < f3 ==> s[m] != DOT),
        f3 < fc < s.len() && s[fc] == COLON && (forall|m: int| f3 < m < fc ==> s[m] != COLON),
    ensures
        f1 == i1 && f2 == i2 && f3 == i3 && fc == j,
{
    lemma_split_positions(s, i1, i2, i3, j);
    if f1 < i1 {
        assert(s[f1] != DOT);
    }
    if i1 < f1 {
        assert(s[i1] != DOT);
    }
    assert(f1 == i1);
    if f2 < i2 {
        assert(s[f2] != DOT);
    }
    if i2 < f2 {
        assert(s[i2] != DOT);
    }
    assert(f2 == i2);
    if f3 < i3 {
        assert(s[f3] != DOT);
    }
    if i3 < f3 {
        assert(s[i3] != DOT);
    }
    assert(f3 == i3);
    if fc < j {
        assert(s[fc] != COLON);
    }
    if j < fc {
        assert(s[j] != COLON);
    }
    assert(fc == j);
}

/// First position of `target` in `s[from..to]`, or `to`.
fn find_in_range(s: &Vec<u8>, from: usize, to: usize, target: u8) -> (r: usize)
    requires
        from <= to <= s@.len(),
    ensures
        r == find_in(s@, from as int, to as int, target),
        from <= r <= to,
        r < to ==> s@[r as int] == target,
        forall|m: int| from <= m < r ==> s@[m] != target,
{
    let mut i = from;
    while i < to
        invariant
            from <= i <= to <= s@.len(),
            find_in(s@, from as int, to as int, target) == find_in(
                s@,
                i as int,
                to as int,
                target,
            ),
            forall|m: int| from <= m < i ==> s@[m] != target,
        decreases to - i,
    {
        if s[i] == target {
            return i;
        }
        i += 1;
    }
    to
}

/// First position of a `::` in `s[from..to]`, or `to`.
fn find_elision_range(s: &Vec<u8>, from: usize, to: usize) -> (r: usize)
    requires
        from <= to <= s@.len(),
    ensures
        r == find_elision(s@, from as int, to as int),
        from <= r <= to,
        r < to ==> r + 1 < to && s@[r as int] == COLON && s@[r + 1] == COLON,
{
    let mut i = from;
    while to - i > 1
        invariant
            from <= i <= to <= s@.len(),
            find_elision(s@, from as int, to as int) == find_elision(s@, i as int, to as int),
        decreases to - i,
    {
        if s[i] == COLON && s[i + 1] == COLON {
            return i;
        }
        i += 1;
    }
    to
}

/// Checks one hex group of a bracketed host.
fn check_h16(s: &Vec<u8>, from: usize, to: usize) -> (r: bool)
    requires
        from <= to <= s@.len(),
    ensures
        r == is_h16(s@, from as int, to as int),
{
    if to - from < 1 || to - from > 4 {
        return false;
    }
    let mut i = from;
    while i < to
        invariant
            from <= i <= to <= s@.len(),
            1 <= to - from <= 4,
            forall|k: int| from <= k < i ==> is_hex_digit(s@[k]),
        decreases to - i,
    {
        let b = s[i];
        let hex = (b >= DIGIT_ZERO && b <= DIGIT_NINE) || (b >= LOWER_A && b <= LOWER_F) || (b
            >= UPPER_A && b <= UPPER_F);
        if !hex {
            proof {
                assert(!is_hex_digit(s@[i as int]));
            }
            return false;
        }
        i += 1;
    }
    true
}

/// Parses `s[from..to]` as a decimal numeral of at most `max_len` digits
/// and value at most `max_value`; yields its value exactly when the segment
/// meets all three conditions.
fn parse_numeral(s: &Vec<u8>, from: usize, to: usize, max_len: usize, max_value: u32) -> (r:
    Option<u32>)
    requires
        from <= to <= s@.len(),
        max_len <= 5,
        max_value <= 100000,
    ensures
        ({
            let seg = s@.subrange(from as int, to as int);
            let ok = is_numeral(seg) && seg.len() <= max_len && dec_value(seg) <= max_value;
            &&& r is Some <==> ok
            &&& r matches Some(v) ==> v == dec_value(seg)
        }),
{
    let ghost seg = s@.subrange(from as int, to as int);
    let len = to - from;
    if len == 0 || len > max_len {
        return None;
    }
    if len > 1 && s[from] == DIGIT_ZERO {
        proof {
            assert(seg[0] == s@[from as int]);
        }
        return None;
    }
    let mut acc: u32 = 0;
    let mut i = from;
    while i < to
        invariant
            from <= i <= to <= s@.len(),
            seg == s@.subrange(from as int, to as int),
            forall|m: int| from <= m < i ==> is_digit(s@[m]),
            acc == dec_value(s@.subrange(from as int, i as int)),
            acc <= max_value,
            max_value <= 100000,
        decreases to - i,
    {
        let b = s[i];
        if b < DIGIT_ZERO || b > DIGIT_NINE {
            proof {
                assert(seg[i - from] == s@[i as int]);
                assert(!all_digits(seg));
            }
            return None;
        }
        proof {
            let prefix = s@.subrange(from as int, i as int);
            let next = s@.subrange(from as int, i + 1);
            assert(next =~= prefix.push(s@[i as int]));
            assert(next.drop_last() =~= prefix);
            assert(next.last() == s@[i as int]);
        }
        acc = acc * 10 + (b - DIGIT_ZERO) as u32;
        if acc > max_value {
            proof {
                if is_numeral(seg) && seg.len() <= max_len && dec_value(seg) <= max_value {
                    lemma_dec_value_prefix(seg, i + 1 - from);
                    assert(seg.take(i + 1 - from) =~= s@.subrange(from as int, i + 1));
                }
            }
            return None;
        }
        i += 1;
    }
    proof {
        assert forall|m: int| 0 <= m < seg.len() implies is_digit(#[trigger] seg[m]) by {
            assert(seg[m] == s@[from + m]);
            assert(is_digit(s@[from + m]));
        };
        assert(seg[0] == s@[from as int]);
        assert(is_numeral(seg));
    }
    Some(acc)
}

/// Parses `s[from..to]` as a port numeral: digits only, leading zeros
/// allowed, value at most 65535.
fn parse_port(s: &Vec<u8>, from: usize, to: usize) -> (r: Option<u16>)
    requires
        from <= to <= s@.len(),
    ensures
        ({
            let seg = s@.subrange(from as int, to as int);
            &&& r is Some <==> is_port_text(seg)
            &&& r matches Some(v) ==> v == dec_value(seg)
        }),
{
    let ghost seg = s@.subrange(from as int, to as int);
    if to == from {
        return None;
    }
    let mut acc: u32 = 0;
    let mut i = from;
    while i < to
        invariant
            from <= i <= to <= s@.len(),
            seg == s@.subrange(from as int, to as int),
            forall|m: int| from <= m < i ==> is_digit(s@[m]),
            acc == dec_value(s@.subrange(from as int, i as int)),
            acc <= 65535,
        decreases to - i,
    {
        let b = s[i];
        if b < DIGIT_ZERO || b > DIGIT_NINE {
            proof {
                assert(seg[i - from] == s@[i as int]);
                assert(!all_digits(seg));
            }
            return None;
        }
        proof {
            let prefix = s@.subrange(from as int, i as int);
            let next = s@.subrange(from as int, i + 1);
            assert(next =~= prefix.push(s@[i as int]));
            assert(next.drop_last() =~= prefix);
            assert(next.last() == s@[i as int]);
        }
        acc = acc * 10 + (b - DIGIT_ZERO) as u32;
        if acc > 65535 {
            proof {
                if is_port_text(seg) {
                    lemma_dec_value_prefix(seg, i + 1 - from);
                    assert(seg.take(i + 1 - from) =~= s@.subrange(from as int, i + 1));
                }
            }
            return None;
        }
        i += 1;
    }
    proof {
        assert forall|m: int| 0 <= m < seg.len() implies is_digit(#[trigger] seg[m]) by {
            assert(seg[m] == s@[from + m]);
            assert(is_digit(s@[from + m]));
        };
    }
    Some(acc as u16)
}

/// Checks a dotted quad inside a bracketed host.
fn check_quad(s: &Vec<u8>, from: usize, to: usize) -> (r: bool)
    requires
        from <= to <= s@.len(),
    ensures
        r == is_quad(s@, from as int, to as int),
{
    let i1 = find_in_range(s, from, to, DOT);
    if i1 == to {
        return false;
    }
    let i2 = find_in_range(s, i1 + 1, to, DOT);
    if i2 == to {
        return false;
    }
    let i3 = find_in_range(s, i2 + 1, to, DOT);
    if i3 == to {
        return false;
    }
    let o0 = parse_numeral(s, from, i1, 3, 255);
    let o1 = parse_numeral(s, i1 + 1, i2, 3, 255);
    let o2 = parse_numeral(s, i2 + 1, i3, 3, 255);
    let o3 = parse_numeral(s, i3 + 1, to, 3, 255);
    o0.is_some() && o1.is_some() && o2.is_some() && o3.is_some()
}

/// Counts and validates the logical groups of `s[from..to]`.
fn check_groups(s: &Vec<u8>, from: usize, to: usize, allow_quad: bool) -> (r: Option<usize>)
    requires
        from <= to <= s@.len(),
    ensures
        r matches Some(n) ==> group_count(s@, from as int, to as int, allow_quad) == Some(
            n as int,
        ) && n <= 7 + to - from,
        r is None ==> group_count(s@, from as int, to as int, allow_quad) is None,
{
    let mut cur = from;
    let mut count: usize = 0;
    loop
        invariant
            from <= cur <= to <= s@.len(),
            2 * count <= cur - from,
            ({
                let full = group_count(s@, from as int, to as int, allow_quad);
                let rest = group_count(s@, cur as int, to as int, allow_quad);
                &&& (full is Some <==> rest is Some)
                &&& (rest matches Some(n) ==> full == Some(count + n))
            }),
        decreases to - cur,
    {
        let c = find_in_range(s, cur, to, COLON);
        if c == to {
            if check_h16(s, cur, to) {
                proof {
                    assert(group_count(s@, cur as int, to as int, allow_quad) == Some(1int));
                }
                return Some(count + 1);
            }
            if allow_quad {
                if check_quad(s, cur, to) {
                    proof {
                        assert(group_count(s@, cur as int, to as int, allow_quad) == Some(2int));
                    }
                    return Some(count + 2);
                }
            }
            proof {
                assert(group_count(s@, cur as int, to as int, allow_quad) is None);
            }
            return None;
        }
        if !check_h16(s, cur, c) {
            proof {
                assert(group_count(s@, cur as int, to as int, allow_quad) is None);
            }
            return None;
        }
        proof {
            assert(group_count(s@, cur as int, to as int, allow_quad) == match group_count(
                s@,
                c + 1,
                to as int,
                allow_quad,
            ) {
                Some(n) => Some(n + 1),
                None => None,
            });
        }
        cur = c + 1;
        count += 1;
    }
}

/// Checks a whole bracketed host.
fn check_v6_host(s: &Vec<u8>, from: usize, to: usize) -> (r: bool)
    requires
        from <= to <= s@.len(),
    ensures
        r == is_v6_host(s@, from as int, to as int),
{
    let e = find_elision_range(s, from, to);
    if e == to {
        match check_groups(s, from, to, true) {
            Some(n) => n == 8,
            None => false,
        }
    } else {
        let a = if e == from {
            Some(0)
        } else {
            check_groups(s, from, e, false)
        };
        let b = if e + 2 == to {
            Some(0)
        } else {
            check_groups(s, e + 2, to, true)
        };
        match (a, b) {
            (Some(x), Some(y)) => x <= 7 && y <= 7 && x + y <= 7,
            _ => false,
        }
    }
}

/// The bytes of `s[from..to]`, as their own vector.
fn copy_range(s: &Vec<u8>, from: usize, to: usize) -> (out: Vec<u8>)
    requires
        from <= to <= s@.len(),
    ensures
        out@ == s@.subrange(from as int, to as int),
{
    let mut out: Vec<u8> = Vec::new();
    proof {
        assert(s@.subrange(from as int, from as int) =~= Seq::<u8>::empty());
    }
    let mut i = from;
    while i < to
        invariant
            from <= i <= to <= s@.len(),
            out@ == s@.subrange(from as int, i as int),
        decreases to - i,
    {
        out.push(s[i]);
        proof {
            assert(s@.subrange(from as int, i + 1) =~= s@.subrange(from as int, i as int).push(
                s@[i as int],
            ));
        }
        i += 1;
    }
    out
}

/// Parses a textual endpoint address. Succeeds, with the parsed values,
/// exactly on the strings the address grammar accepts; every other string
/// is rejected with `AddressError`, before any I/O could happen.
#[verifier::rlimit(100)]
pub fn parse_address(address: &str) -> (r: Result<Endpoint, SocketError>)
    ensures
        r is Ok <==> is_valid_address(address.spec_bytes()),
        r matches Err(e) ==> e is AddressError,
        r matches Ok(ep) ==> (ep is V4 ==> is_ipv4_address(address.spec_bytes())) && (ep is V6
            ==> is_ipv6_address(address.spec_bytes())),
        r matches Ok(Endpoint::V4 { o0, o1, o2, o3, port }) ==> exists|
            i1: int,
            i2: int,
            i3: int,
            j: int,
        |
            #![trigger valid_split(address.spec_bytes(), i1, i2, i3, j)]
            {
                &&& valid_split(address.spec_bytes(), i1, i2, i3, j)
                &&& o0 == dec_value(address.spec_bytes().subrange(0, i1))
                &&& o1 == dec_value(address.spec_bytes().subrange(i1 + 1, i2))
                &&& o2 == dec_value(address.spec_bytes().subrange(i2 + 1, i3))
                &&& o3 == dec_value(address.spec_bytes().subrange(i3 + 1, j))
                &&& port == dec_value(
                    address.spec_bytes().subrange(j + 1, address.spec_bytes().len() as int),
                )
            },
        r matches Ok(Endpoint::V6 { host, port }) ==> ({
            let bs = address.spec_bytes();
            let p = find_in(bs, 0, bs.len() as int, CLOSE_BRACKET);
            &&& host@ == bs.subrange(1, p)
            &&& port == dec_value(bs.subrange(p + 2, bs.len() as int))
        }),
{
    let bytes = address.as_bytes_vec();
    let ghost bs = bytes@;
    let n = bytes.len();
    if n > 0 && bytes[0] == OPEN_BRACKET {
        proof {
            if is_ipv4_address(bs) {
                let (i1, i2, i3, j) = choose|i1: int, i2: int, i3: int, j: int|
                    valid_split(bs, i1, i2, i3, j);
                assert(is_digit(bs.subrange(0, i1)[0]));
            }
            assert(!is_ipv4_address(bs));
        }
        let fb = find_in_range(&bytes, 0, n, CLOSE_BRACKET);
        if fb == n || fb + 1 == n {
            return Err(SocketError::AddressError);
        }
        if bytes[fb + 1] != COLON {
            return Err(SocketError::AddressError);
        }
        if !check_v6_host(&bytes, 1, fb) {
            return Err(SocketError::AddressError);
        }
        let port = match parse_port(&bytes, fb + 2, n) {
            Some(v) => v,
            None => {
                return Err(SocketError::AddressError);
            },
        };
        let host = copy_range(&bytes, 1, fb);
        proof {
            assert(is_ipv6_address(bs));
        }
        return Ok(Endpoint::V6 { host, port });
    }
    proof {
        assert(!is_ipv6_address(bs));
    }
    let f1 = find_in_range(&bytes, 0, n, DOT);
    if f1 == n {
        proof {
            if is_ipv4_address(bs) {
                let (i1, i2, i3, j) = choose|i1: int, i2: int, i3: int, j: int|
                    valid_split(bs, i1, i2, i3, j);
                assert(bs[i1] == DOT);
            }
        }
        return Err(SocketError::AddressError);
    }
    let f2 = find_in_range(&bytes, f1 + 1, n, DOT);
    if f2 == n {
        proof {
            if is_ipv4_address(bs) {
                let (i1, i2, i3, j) = choose|i1: int, i2: int, i3: int, j: int|
                    valid_split(bs, i1, i2, i3, j);
                lemma_split_positions(bs, i1, i2, i3, j);
                assert(bs[f1 as int] == DOT);
                if i1 < f1 {
                    assert(bs[i1] != DOT);
                }
                assert(f1 <= i1);
                assert(bs[i2] == DOT);
            }
        }
        return Err(SocketError::AddressError);
    }
    let f3 = find_in_range(&bytes, f2 + 1, n, DOT);
    if f3 == n {
        proof {
            if is_ipv4_address(bs) {
                let (i1, i2, i3, j) = choose|i1: int, i2: int, i3: int, j: int|
                    valid_split(bs, i1, i2, i3, j);
                lemma_split_positions(bs, i1, i2, i3, j);
                assert(bs[f1 as int] == DOT);
                if f1 < i1 {
                    assert(bs[f1 as int] != DOT);
                }
                if i1 < f1 {
                    assert(bs[i1] != DOT);
                }
                assert(f1 == i1);
                assert(bs[f2 as int] == DOT);
                if f2 < i2 {
                    assert(bs[f2 as int] != DOT);
                }
                if i2 < f2 {
                    assert(bs[i2] != DOT);
                }
                assert(f2 <= i2);
                assert(bs[i3] == DOT);
            }
        }
        return Err(SocketError::AddressError);
    }
    let fc = find_in_range(&bytes, f3 + 1, n, COLON);
    if fc == n {
        proof {
            if is_ipv4_address(bs) {
                let (i1, i2, i3, j) = choose|i1: int, i2: int, i3: int, j: int|
                    valid_split(bs, i1, i2, i3, j);
                lemma_split_positions(bs, i1, i2, i3, j);
                assert(bs[f1 as int] == DOT);
                if f1 < i1 {
                    assert(bs[f1 as int] != DOT);
                }
                if i1 < f1 {
                    assert(bs[i1] != DOT);
                }
                assert(f1 == i1);
                assert(bs[f2 as int] == DOT);
                if f2 < i2 {
                    assert(bs[f2 as int] != DOT);
                }
                if i2 < f2 {
                    assert(bs[i2] != DOT);
                }
                assert(f2 == i2);
                assert(bs[f3 as int] == DOT);
                if f3 < i3 {
                    assert(bs[f3 as int] != DOT);
                }
                if i3 < f3 {
                    assert(bs[i3] != DOT);
                }
                assert(f3 <= i3);
                assert(bs[j] == COLON);
            }
        }
        return Err(SocketError::AddressError);
    }
    let o0 = match parse_numeral(&bytes, 0, f1, 3, 255) {
        Some(v) => v,
        None => {
            proof {
                if is_ipv4_address(bs) {
                    let (i1, i2, i3, j) = choose|i1: int, i2: int, i3: int, j: int|
                        valid_split(bs, i1, i2, i3, j);
                    lemma_scan_matches_split(
                        bs,
                        i1,
                        i2,
                        i3,
                        j,
                        f1 as int,
                        f2 as int,
                        f3 as int,
                        fc as int,
                    );
                    assert(is_octet_text(bs.subrange(0, i1)));
                }
            }
            return Err(SocketError::AddressError);
        },
    };
    let o1 = match parse_numeral(&bytes, f1 + 1, f2, 3, 255) {
        Some(v) => v,
        None => {
            proof {
                if is_ipv4_address(bs) {
                    let (i1, i2, i3, j) = choose|i1: int, i2: int, i3: int, j: int|
                        valid_split(bs, i1, i2, i3, j);
                    lemma_scan_matches_split(
                        bs,
                        i1,
                        i2,
                        i3,
                        j,
                        f1 as int,
                        f2 as int,
                        f3 as int,
                        fc as int,
                    );
                    assert(is_octet_text(bs.subrange(i1 + 1, i2)));
                }
            }
            return Err(SocketError::AddressError);
        },
    };
    let o2 = match parse_numeral(&bytes, f2 + 1, f3, 3, 255) {
        Some(v) => v,
        None => {
            proof {
                if is_ipv4_address(bs) {
                    let (i1, i2, i3, j) = choose|i1: int, i2: int, i3: int, j: int|
                        valid_split(bs, i1, i2, i3, j);
                    lemma_scan_matches_split(
                        bs,
                        i1,
                        i2,
                        i3,
                        j,
                        f1 as int,
                        f2 as int,
                        f3 as int,
                        fc as int,
                    );
                    assert(is_octet_text(bs.subrange(i2 + 1, i3)));
                }
            }
            return Err(SocketError::AddressError);
        },
    };
    let o3 = match parse_numeral(&bytes, f3 + 1, fc, 3, 255) {
        Some(v) => v,
        None => {
            proof {
                if is_ipv4_address(bs) {
                    let (i1, i2, i3, j) = choose|i1: int, i2: int, i3: int, j: int|
                        valid_split(bs, i1, i2, i3, j);
                    lemma_scan_matches_split(
                        bs,
                        i1,
                        i2,
                        i3,
                        j,
                        f1 as int,
                        f2 as int,
                        f3 as int,
                        fc as int,
                    );
                    assert(is_octet_text(bs.subrange(i3 + 1, j)));
                }
            }
            return Err(SocketError::AddressError);
        },
    };
    let port = match parse_port(&bytes, fc + 1, n) {
        Some(v) => v,
        None => {
            proof {
                if is_ipv4_address(bs) {
                    let (i1, i2, i3, j) = choose|i1: int, i2: int, i3: int, j: int|
                        valid_split(bs, i1, i2, i3, j);
                    lemma_scan_matches_split(
                        bs,
                        i1,
                        i2,
                        i3,
                        j,
                        f1 as int,
                        f2 as int,
                        f3 as int,
                        fc as int,
                    );
                    assert(is_port_text(bs.subrange(j + 1, bs.len() as int)));
                }
            }
            return Err(SocketError::AddressError);
        },
    };
    proof {
        assert(valid_split(bs, f1 as int, f2 as int, f3 as int, fc as int));
    }
    Ok(Endpoint::V4 { o0: o0 as u8, o1: o1 as u8, o2: o2 as u8, o3: o3 as u8, port })
}

/// One read fill of a live session, after the socket read succeeded: decode
/// the scratch buffer, smooth it with the session's carry, and push every
/// output into the sample buffer, dropping what a full buffer rejects rather
/// than blocking or overwriting. Returns the carry for the next fill and how
/// many samples were dropped.
pub fn process_fill(producer: &mut ringbuf::Producer<i16>, bytes: &Vec<u8>, carry: i16) -> (r: (
    i16,
    usize,
))
    requires
        bytes@.len() % 2 == 0,
    ensures
        r.0 == carry_after(decode_seq(bytes@), carry),
        r.1 <= decode_seq(bytes@).len(),
{
    let (samples, next_carry) = process_chunk(bytes, carry);
    proof {
        crate::codec::lemma_smooth_seq_len(decode_seq(bytes@), carry);
    }
    let dropped = push_samples(producer, &samples);
    (next_carry, dropped)
}

} // verus!
