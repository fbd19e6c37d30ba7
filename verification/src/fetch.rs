//! The per-request decision layer of the fetcher.
//!
//! A response is classified by status: rate-limit responses are retried
//! after the number of seconds named by the `Retry-After` header (1 when
//! the header is absent or unreadable), success means the body is parsed,
//! and any other status fails the fetch at once.  The caller performs the
//! request and the sleep and feeds the status back in; nothing here does
//! I/O.

use vstd::prelude::*;

verus! {

/// `c` is one of `'0'` through `'9'`.
pub open spec fn is_decimal_digit(c: char) -> bool {
    '0' <= c && c <= '9'
}

/// The numeric value of a digit character.
pub open spec fn digit_value(c: char) -> int {
    c as int - '0' as int
}

/// Every character of `s` is a decimal digit.
pub open spec fn all_digits(s: Seq<char>) -> bool {
    forall|i: int| 0 <= i < s.len() ==> is_decimal_digit(s[i])
}

/// The value of a digit string, most significant first.
pub open spec fn digits_value(s: Seq<char>) -> int
    decreases s.len(),
{
    if s.len() == 0 {
        0
    } else {
        digits_value(s.drop_last()) * 10 + digit_value(s.last())
    }
}

/// The digit part of a decimal string: everything after an optional
/// leading `'+'`.
pub open spec fn spec_digit_part(s: Seq<char>) -> Seq<char> {
    if s.len() > 0 && s[0] == '+' {
        s.subrange(1, s.len() as int)
    } else {
        s
    }
}

/// What parsing `s` as a `u64` yields: an optional leading `'+'`, then at
/// least one digit, and a value that fits.
pub open spec fn spec_parse_u64(s: Seq<char>) -> Option<u64> {
    let digits = spec_digit_part(s);
    if digits.len() > 0 && all_digits(digits) && digits_value(digits) <= u64::MAX {
        Some(digits_value(digits) as u64)
    } else {
        None
    }
}

/// The seconds to wait before retrying a rate-limited request: the parsed
/// header value, or 1 when the header is absent or not a number.
pub open spec fn spec_retry_wait(h: Option<Seq<char>>) -> u64 {
    match h {
        None => 1u64,
        Some(s) => match spec_parse_u64(s) {
            Some(v) => v,
            None => 1u64,
        },
    }
}

/// The view of an optional borrowed header value.
pub open spec fn opt_str_view(h: Option<&str>) -> Option<Seq<char>> {
    match h {
        Some(s) => Some(s@),
        None => None,
    }
}

proof fn lemma_digits_value_push(p: Seq<char>, c: char)
    ensures
        digits_value(p.push(c)) == digits_value(p) * 10 + digit_value(c),
{
    assert(p.push(c).drop_last() =~= p);
    assert(p.push(c).last() == c);
}

proof fn lemma_digits_value_nonneg(s: Seq<char>)
    requires
        all_digits(s),
    ensures
        digits_value(s) >= 0,
    decreases s.len(),
{
    if s.len() > 0 {
        assert(all_digits(s.drop_last()));
        lemma_digits_value_nonneg(s.drop_last());
        assert(is_decimal_digit(s.last()));
    }
}

/// A longer digit prefix never has a smaller value.
proof fn lemma_digits_value_prefix(s: Seq<char>, j: int)
    requires
        all_digits(s),
        0 <= j <= s.len(),
    ensures
        digits_value(s.subrange(0, j)) <= digits_value(s),
        digits_value(s.subrange(0, j)) >= 0,
    decreases s.len() - j,
{
    assert(all_digits(s.subrange(0, j)));
    lemma_digits_value_nonneg(s.subrange(0, j));
    if j == s.len() {
        assert(s.subrange(0, j) =~= s);
    } else {
        assert(s.subrange(0, j + 1) =~= s.subrange(0, j).push(s[j]));
        lemma_digits_value_push(s.subrange(0, j), s[j]);
        assert(is_decimal_digit(s[j]));
        lemma_digits_value_prefix(s, j + 1);
    }
}

/// Parse a decimal `u64`, accepting an optional leading `'+'`, exactly
/// when the whole string is such a number and its value fits.
pub fn parse_u64(s: &str) -> (r: Option<u64>)
    ensures
        r == spec_parse_u64(s@),
{
    let len = s.unicode_len();
    let ghost digits = spec_digit_part(s@);
    let mut start: usize = 0;
    if len > 0 && s.get_char(0) == '+' {
        start = 1;
    }
    proof {
        assert(digits =~= s@.subrange(start as int, len as int));
    }
    if start >= len {
        return None;
    }
    let mut value: u64 = 0;
    let mut i: usize = start;
    while i < len
        invariant
            len == s@.len(),
            start <= i <= len,
            digits =~= s@.subrange(start as int, len as int),
            digits == spec_digit_part(s@),
            all_digits(digits.subrange(0, i - start)),
            value == digits_value(digits.subrange(0, i - start)),
        decreases len - i,
    {
        let c = s.get_char(i);
        let code = c as u32;
        proof {
            assert(digits[i - start] == c);
        }
        if code < 48 || code > 57 {
            proof {
                assert(!is_decimal_digit(c));
            }
            return None;
        }
        let d = (code - 48) as u64;
        proof {
            assert(is_decimal_digit(c));
            assert(d == digit_value(c));
            assert(digits.subrange(0, i - start + 1) =~= digits.subrange(0, i - start).push(c));
            lemma_digits_value_push(digits.subrange(0, i - start), c);
        }
        if value > (u64::MAX - d) / 10 {
            proof {
                let part = digits.subrange(0, i - start + 1);
                assert(digits_value(part) == value * 10 + d);
                assert(value * 10 + d > u64::MAX) by {
                    assert(value >= (u64::MAX - d) / 10 + 1);
                    assert((value) * 10 >= ((u64::MAX - d) / 10 + 1) * 10) by (nonlinear_arith)
                        requires
                            value >= (u64::MAX - d) / 10 + 1,
                    ;
                    assert(((u64::MAX - d) / 10 + 1) * 10 > u64::MAX - d);
                }
                if all_digits(digits) {
                    lemma_digits_value_prefix(digits, i - start + 1);
                    assert(digits_value(digits) > u64::MAX);
                }
            }
            return None;
        }
        value = value * 10 + d;
        i += 1;
    }
    proof {
        assert(digits.subrange(0, (len - start) as int) =~= digits);
    }
    Some(value)
}

/// How the fetch layer reacts to one HTTP response.
#[derive(Debug, PartialEq, Eq, Structural)]
pub enum FetchStep {
    /// Rate limited: sleep this many seconds, then repeat the identical
    /// request.
    Retry { wait_secs: u64 },
    /// Success: parse the body.
    Accept,
    /// Any other status: fail immediately, without retrying.
    Fail { status: u16 },
}

/// Classify one HTTP response of a catalog request.  `retry_after` is the
/// `Retry-After` header, if it was present and readable.
pub fn classify_response(status: u16, retry_after: Option<&str>) -> (r: FetchStep)
    ensures
        status == 429 ==> r == (FetchStep::Retry { wait_secs: spec_retry_wait(opt_str_view(retry_after)) }),
        status == 200 ==> r == FetchStep::Accept,
        status != 429 && status != 200 ==> r == (FetchStep::Fail { status }),
{
    if status == 429 {
        FetchStep::Retry { wait_secs: retry_wait_secs(retry_after) }
    } else if status == 200 {
        FetchStep::Accept
    } else {
        FetchStep::Fail { status }
    }
}

/// The seconds to wait before retrying: the parsed header value, with a
/// default of 1 when the header is absent or unparseable.
pub fn retry_wait_secs(header: Option<&str>) -> (r: u64)
    ensures
        r == spec_retry_wait(opt_str_view(header)),
{
    match header {
        None => 1,
        Some(s) => match parse_u64(s) {
            Some(v) => v,
            None => 1,
        },
    }
}

} // verus!
