//! What the HTTP transport decides on its own: the rate-limit signal of a
//! `429` reply and the delay that its `retry-after` header asks for.
use vstd::prelude::*;

use crate::time::{Duration, NANOS_PER_SEC};

verus! {

/// Carried back inside the transport error of a `429` reply, with the delay the
/// server asked for, where it gave one that could be read.
#[derive(Debug, Clone, Copy, PartialEq, Eq, Structural)]
pub struct RateLimited {
    pub retry_after: Option<Duration>,
}

/// The HTTP status of a reply that asks the client to slow down.
pub const TOO_MANY_REQUESTS: u16 = 429;

/// A byte that http's `HeaderValue::to_str` accepts: visible ASCII or a tab.
pub open spec fn is_visible_ascii(b: u8) -> bool {
    (32 <= b && b < 127) || b == 9
}

/// Whether http's `HeaderValue::to_str` reads the header value as text.
pub open spec fn is_header_text(s: Seq<u8>) -> bool {
    forall|i: int| 0 <= i < s.len() ==> is_visible_ascii(#[trigger] s[i])
}

/// The white space that `str::trim` removes from header text: space and tab.
pub open spec fn is_blank(b: u8) -> bool {
    b == 32 || b == 9
}

/// `s` without its leading blanks.
pub open spec fn trim_start(s: Seq<u8>) -> Seq<u8>
    decreases s.len(),
{
    if s.len() > 0 && is_blank(s[0]) {
        trim_start(s.drop_first())
    } else {
        s
    }
}

/// `s` without its trailing blanks.
pub open spec fn trim_end(s: Seq<u8>) -> Seq<u8>
    decreases s.len(),
{
    if s.len() > 0 && is_blank(s.last()) {
        trim_end(s.drop_last())
    } else {
        s
    }
}

/// `s` without its leading and trailing blanks.
pub open spec fn trim(s: Seq<u8>) -> Seq<u8> {
    trim_end(trim_start(s))
}

/// An ASCII decimal digit.
pub open spec fn is_digit(b: u8) -> bool {
    48 <= b <= 57
}

/// The number that a string of decimal digits writes.
pub open spec fn digits_value(s: Seq<u8>) -> nat
    decreases s.len(),
{
    if s.len() == 0 {
        0
    } else {
        digits_value(s.drop_last()) * 10 + (s.last() - 48) as nat
    }
}

/// `s` without the `+` sign it may start with.
pub open spec fn unsigned_digits(s: Seq<u8>) -> Seq<u8> {
    if s.len() > 0 && s[0] == 43 {
        s.drop_first()
    } else {
        s
    }
}

/// Whether every byte of `s` is a decimal digit.
pub open spec fn all_digits(s: Seq<u8>) -> bool {
    forall|i: int| 0 <= i < s.len() ==> is_digit(#[trigger] s[i])
}

/// `u64::from_str`: an optional `+` and at least one decimal digit, writing a
/// number no larger than `u64::MAX`.
pub open spec fn parse_u64(s: Seq<u8>) -> Option<u64> {
    let digits = unsigned_digits(s);
    if digits.len() > 0 && all_digits(digits) && digits_value(digits) <= u64::MAX {
        Some(digits_value(digits) as u64)
    } else {
        None
    }
}

/// The seconds that a `retry-after` header value asks for: only the delay-seconds
/// form is read; a missing header, one that is not text, or an HTTP date gives none.
pub open spec fn retry_after_secs(value: Option<&[u8]>) -> Option<u64> {
    match value {
        Some(v) => header_delay_secs(v@),
        None => None,
    }
}

/// The seconds that a present `retry-after` header value asks for.
pub open spec fn header_delay_secs(v: Seq<u8>) -> Option<u64> {
    if is_header_text(v) {
        parse_u64(trim(v))
    } else {
        None
    }
}

proof fn lemma_trim_start_skip(s: Seq<u8>, lo: int)
    requires
        0 <= lo < s.len(),
        is_blank(s[lo]),
    ensures
        trim_start(s.subrange(lo, s.len() as int)) == trim_start(
            s.subrange(lo + 1, s.len() as int),
        ),
{
    assert(s.subrange(lo, s.len() as int).drop_first() =~= s.subrange(lo + 1, s.len() as int));
}

proof fn lemma_trim_end_skip(s: Seq<u8>, lo: int, hi: int)
    requires
        0 <= lo < hi <= s.len(),
        is_blank(s[hi - 1]),
    ensures
        trim_end(s.subrange(lo, hi)) == trim_end(s.subrange(lo, hi - 1)),
{
    assert(s.subrange(lo, hi).drop_last() =~= s.subrange(lo, hi - 1));
}

proof fn lemma_digits_value_step(s: Seq<u8>, lo: int, hi: int)
    requires
        0 <= lo < hi <= s.len(),
    ensures
        digits_value(s.subrange(lo, hi)) == digits_value(s.subrange(lo, hi - 1)) * 10 + (s[hi
            - 1] - 48) as nat,
{
    assert(s.subrange(lo, hi).drop_last() =~= s.subrange(lo, hi - 1));
}

proof fn lemma_digits_value_grows(s: Seq<u8>, lo: int, mid: int, hi: int)
    requires
        0 <= lo <= mid <= hi <= s.len(),
    ensures
        digits_value(s.subrange(lo, mid)) <= digits_value(s.subrange(lo, hi)),
    decreases hi - mid,
{
    if mid < hi {
        lemma_digits_value_grows(s, lo, mid, hi - 1);
        lemma_digits_value_step(s, lo, hi);
    }
}

fn parse_header_delay(bytes: &[u8]) -> (r: Option<Duration>)
    ensures
        match header_delay_secs(bytes@) {
            Some(secs) => r matches Some(d) && d@ == secs * NANOS_PER_SEC,
            None => r is None,
        },
{
    let ghost s = bytes@;
    let len: usize = bytes.len();
    let mut i: usize = 0;
    while i < len
        invariant
            len == s.len(),
            s == bytes@,
            i <= len,
            forall|k: int| 0 <= k < i ==> is_visible_ascii(#[trigger] s[k]),
        decreases len - i,
    {
        let b: u8 = bytes[i];
        if !((32 <= b && b < 127) || b == 9) {
            assert(!is_visible_ascii(s[i as int]));
            assert(!is_header_text(s));
            return None;
        }
        i = i + 1;
    }
    assert(is_header_text(s));
    // leading blanks
    let mut lo: usize = 0;
    assert(s.subrange(0, len as int) =~= s);
    while lo < len && (bytes[lo] == 32 || bytes[lo] == 9)
        invariant
            len == s.len(),
            s == bytes@,
            lo <= len,
            trim_start(s) == trim_start(s.subrange(lo as int, len as int)),
        decreases len - lo,
    {
        proof {
            lemma_trim_start_skip(s, lo as int);
        }
        lo = lo + 1;
    }
    assert(trim_start(s) == s.subrange(lo as int, len as int));
    // trailing blanks
    let mut hi: usize = len;
    while hi > lo && (bytes[hi - 1] == 32 || bytes[hi - 1] == 9)
        invariant
            len == s.len(),
            s == bytes@,
            lo <= hi <= len,
            trim_end(s.subrange(lo as int, len as int)) == trim_end(
                s.subrange(lo as int, hi as int),
            ),
        decreases hi - lo,
    {
        proof {
            lemma_trim_end_skip(s, lo as int, hi as int);
        }
        hi = hi - 1;
    }
    let ghost t = s.subrange(lo as int, hi as int);
    assert(trim(s) == t);
    // optional sign, then digits
    let mut pos: usize = lo;
    if pos < hi && bytes[pos] == 43 {
        pos = pos + 1;
    }
    let ghost start = pos as int;
    let ghost digits = s.subrange(start, hi as int);
    assert(digits =~= unsigned_digits(t));
    if pos == hi {
        return None;
    }
    let mut acc: u64 = 0;
    assert(s.subrange(start, start) =~= Seq::<u8>::empty());
    while pos < hi
        invariant
            len == s.len(),
            s == bytes@,
            0 <= start <= pos <= hi <= len,
            digits == s.subrange(start, hi as int),
            trim(s) == t,
            is_header_text(s),
            digits == unsigned_digits(t),
            forall|k: int| start <= k < pos ==> is_digit(#[trigger] s[k]),
            acc == digits_value(s.subrange(start, pos as int)),
        decreases hi - pos,
    {
        let b: u8 = bytes[pos];
        if !(48 <= b && b <= 57) {
            assert(digits[pos - start] == s[pos as int]);
            assert(!is_digit(digits[pos - start]));
            assert(!all_digits(digits));
            return None;
        }
        let d: u64 = (b - 48) as u64;
        proof {
            lemma_digits_value_step(s, start, pos + 1);
        }
        if acc > (u64::MAX - d) / 10 {
            proof {
                assert(acc * 10 + d > u64::MAX) by (nonlinear_arith)
                    requires
                        acc > (u64::MAX - d) / 10,
                        d <= 9,
                ;
                lemma_digits_value_grows(s, start, pos + 1, hi as int);
            }
            return None;
        }
        proof {
            assert(acc * 10 + d <= u64::MAX) by (nonlinear_arith)
                requires
                    acc <= (u64::MAX - d) / 10,
                    d <= 9,
            ;
        }
        acc = acc * 10 + d;
        pos = pos + 1;
    }
    assert(s.subrange(start, pos as int) =~= digits);
    Some(Duration::from_secs(acc))
}

/// Reads the delay that a `retry-after` header value asks for, in its
/// delay-seconds form: the value must be header text, and, trimmed of blanks,
/// a decimal number of seconds that fits in a `u64`.
pub fn parse_retry_after(value: Option<&[u8]>) -> (r: Option<Duration>)
    ensures
        match retry_after_secs(value) {
            Some(secs) => r matches Some(d) && d@ == secs * NANOS_PER_SEC,
            None => r is None,
        },
{
    match value {
        Some(bytes) => parse_header_delay(bytes),
        None => None,
    }
}

/// The rate-limit signal of a reply: a `429` carries one, with the delay its
/// `retry-after` header asks for; any other status carries none.
pub fn rate_limit_signal(status: u16, retry_after: Option<&[u8]>) -> (r: Option<RateLimited>)
    ensures
        r is Some <==> status == TOO_MANY_REQUESTS,
        r matches Some(rl) ==> match retry_after_secs(retry_after) {
            Some(secs) => rl.retry_after matches Some(d) && d@ == secs * NANOS_PER_SEC,
            None => rl.retry_after is None,
        },
{
    if status == TOO_MANY_REQUESTS {
        Some(RateLimited { retry_after: parse_retry_after(retry_after) })
    } else {
        None
    }
}

} // verus!
