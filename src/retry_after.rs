//! Turning a `Retry-After` header value into a wait.
//!
//! The value is either a count of seconds or an HTTP-date; anything else
//! gives a fixed fallback, so the result can always feed a backoff.
use vstd::prelude::*;

verus! {

/// The wait, in nanoseconds, when the header value cannot be read.
pub const FALLBACK_NANOS: u64 = 30_000_000_000;

/// What `str::trim` returns: the text without leading and trailing
/// whitespace.
pub uninterp spec fn trimmed(s: Seq<char>) -> Seq<char>;

/// What `httpdate::parse_http_date` makes of a text, as whole seconds since
/// the Unix epoch, when it reads it as a date.
pub uninterp spec fn http_date_of(s: Seq<char>) -> Option<u64>;

/// Relies on `str::trim`: the text without surrounding whitespace.
#[verifier::external_body]
pub(crate) fn trim(s: &str) -> (r: &str)
    ensures
        r@ == trimmed(s@),
{
    s.trim()
}

/// Relies on `httpdate::parse_http_date`, which reads the three HTTP-date
/// forms of RFC 7231 and yields a time no earlier than 1970.
#[verifier::external_body]
fn parse_http_date(s: &str) -> (r: Option<u64>)
    ensures
        r == http_date_of(s@),
{
    match httpdate::parse_http_date(s) {
        Ok(t) => match t.duration_since(std::time::UNIX_EPOCH) {
            Ok(d) => Some(d.as_secs()),
            Err(_) => None,
        },
        Err(_) => None,
    }
}

/// Relies on `std::time::SystemTime::now`: the wall clock in nanoseconds
/// since the Unix epoch (zero for a clock set before it). Nothing is known
/// of the value.
#[verifier::external_body]
pub(crate) fn unix_now_nanos() -> (r: u128) {
    match std::time::SystemTime::now().duration_since(std::time::UNIX_EPOCH) {
        Ok(d) => d.as_nanos(),
        Err(_) => 0,
    }
}

pub open spec fn is_digit(c: char) -> bool {
    '0' <= c && c <= '9'
}

/// The number that a string of decimal digits spells.
pub open spec fn digits_value(s: Seq<char>) -> nat
    decreases s.len(),
{
    if s.len() == 0 {
        0
    } else {
        digits_value(s.drop_last()) * 10 + (s.last() as u32 - '0' as u32) as nat
    }
}

pub open spec fn all_digits(s: Seq<char>) -> bool {
    forall|i: int| 0 <= i < s.len() ==> is_digit(#[trigger] s[i])
}

/// The text after an optional leading `+`.
pub open spec fn unsigned_part(s: Seq<char>) -> Seq<char> {
    if s.len() > 0 && s[0] == '+' {
        s.drop_first()
    } else {
        s
    }
}

/// A `u64` written in decimal: an optional `+`, then one or more digits,
/// of a value that fits.
pub open spec fn decimal_u64(s: Seq<char>) -> Option<u64> {
    let d = unsigned_part(s);
    if d.len() > 0 && all_digits(d) && digits_value(d) <= u64::MAX {
        Some(digits_value(d) as u64)
    } else {
        None
    }
}

/// `secs` seconds in nanoseconds, saturated at `u64::MAX`.
pub open spec fn secs_to_nanos(secs: u64) -> u64 {
    if secs * 1_000_000_000 > u64::MAX {
        u64::MAX
    } else {
        (secs * 1_000_000_000) as u64
    }
}

/// Nanoseconds from `now` (since the epoch) until `date` (seconds since the
/// epoch): zero for a date in the past, saturated at `u64::MAX`.
pub open spec fn nanos_until(date: u64, now: u128) -> u64 {
    let d = date * 1_000_000_000 - now;
    if d <= 0 {
        0
    } else if d > u64::MAX {
        u64::MAX
    } else {
        d as u64
    }
}

/// The wait that a trimmed header value gives at `now`, where `date` is its
/// reading as an HTTP-date.
pub open spec fn retry_delay(text: Seq<char>, date: Option<u64>, now: u128) -> u64 {
    match decimal_u64(text) {
        Some(secs) => secs_to_nanos(secs),
        None => match date {
            Some(d) => nanos_until(d, now),
            None => FALLBACK_NANOS,
        },
    }
}

/// A longer run of digits spells a number no smaller.
proof fn lemma_digits_grow(s: Seq<char>, k: int)
    requires
        0 <= k <= s.len(),
        all_digits(s),
    ensures
        digits_value(s.subrange(0, k)) <= digits_value(s),
    decreases s.len(),
{
    if k < s.len() {
        let t = s.drop_last();
        assert(all_digits(t));
        lemma_digits_grow(t, k);
        assert(t.subrange(0, k) =~= s.subrange(0, k));
        assert(is_digit(s.last()));
    } else {
        assert(s.subrange(0, k) =~= s);
    }
}

/// Reads `s` as a `u64` in decimal, as `str::parse::<u64>` does.
pub fn parse_decimal_u64(s: &str) -> (r: Option<u64>)
    ensures
        r == decimal_u64(s@),
{
    let len = s.unicode_len();
    let mut start: usize = 0;
    if len > 0 && s.get_char(0) == '+' {
        start = 1;
    }
    let ghost d = unsigned_part(s@);
    assert(d =~= s@.subrange(start as int, len as int));
    if start == len {
        return None;
    }
    let mut i: usize = start;
    let mut value: u64 = 0;
    while i < len
        invariant
            start <= i <= len,
            len == s@.len(),
            d == unsigned_part(s@),
            d =~= s@.subrange(start as int, len as int),
            all_digits(d.subrange(0, i - start)),
            value == digits_value(d.subrange(0, i - start)),
        decreases len - i,
    {
        let c = s.get_char(i);
        let ghost prefix = d.subrange(0, i - start);
        let ghost next = d.subrange(0, i + 1 - start);
        assert(next.drop_last() =~= prefix);
        assert(next.last() == c);
        if !('0' <= c && c <= '9') {
            assert(d[i - start] == c);
            assert(!is_digit(d[i - start]));
            return None;
        }
        let digit: u64 = (c as u32 - '0' as u32) as u64;
        if value > (u64::MAX - digit) / 10 {
            proof {
                assert(digits_value(next) == value * 10 + digit);
                assert(value * 10 + digit > u64::MAX) by (nonlinear_arith)
                    requires
                        value > (u64::MAX - digit) / 10,
                        digit <= 9,
                ;
                if all_digits(d) {
                    lemma_digits_grow(d, i + 1 - start);
                }
            }
            return None;
        }
        value = value * 10 + digit;
        assert(all_digits(next));
        i += 1;
    }
    assert(d.subrange(0, len - start) =~= d);
    Some(value)
}

/// Nanoseconds from `now` (nanoseconds since the epoch) until `date`
/// (seconds since the epoch); zero for a date that has passed.
pub fn delay_until(date: u64, now: u128) -> (r: u64)
    ensures
        r == nanos_until(date, now),
{
    let at: u128 = date as u128 * 1_000_000_000;
    if at <= now {
        0
    } else if at - now > u64::MAX as u128 {
        u64::MAX
    } else {
        (at - now) as u64
    }
}

/// The wait that the `Retry-After` value `value` asks for at `now`
/// (nanoseconds since the epoch), in nanoseconds: seconds when it is a
/// number, the time left until the date when it is an HTTP-date (zero if
/// the date has passed), and the fallback otherwise.
pub fn retry_after_at(value: &str, now: u128) -> (r: u64)
    ensures
        r == retry_delay(trimmed(value@), http_date_of(trimmed(value@)), now),
{
    let text = trim(value);
    match parse_decimal_u64(text) {
        Some(secs) => {
            if secs > u64::MAX / 1_000_000_000 {
                u64::MAX
            } else {
                secs * 1_000_000_000
            }
        },
        None => match parse_http_date(text) {
            Some(date) => delay_until(date, now),
            None => FALLBACK_NANOS,
        },
    }
}

} // verus!
