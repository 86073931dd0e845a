//! The decisions of the Have I Been Pwned client: which responses are
//! errors, which calls need a key, the request URLs, and the k-anonymity
//! split of a password hash. The HTTP exchange itself is done by the caller.
use vstd::prelude::*;
use vstd::utf8::encode_utf8;
use crate::retry_after::{decimal_u64, parse_decimal_u64, trim, trimmed};
use crate::text::chars_of;

verus! {

/// Errors of the Have I Been Pwned API.
pub enum HibpError {
    /// The client could not be built.
    ClientBuildError(String),
    /// Status `404`: in account queries, the account matched no entry.
    NotFound,
    /// Status `429`: try again later.
    RateLimit,
    /// Status `401`: missing or invalid API key.
    Unauthorized,
    /// Status `403`: request rejected (likely a missing or banned User-Agent).
    Forbidden,
    /// Status `400`: bad request (invalid email format).
    BadRequest,
    /// Status `503`: service unavailable.
    ServiceUnavailable,
    /// The request itself failed.
    Request(String),
    /// Any other status, with the body of the response.
    Unknown { status: u16, body: String },
}

/// What a response status means before its body is read.
pub enum StatusOutcome {
    /// Status `200`: the body holds the answer.
    Success,
    /// A status with an error of its own.
    Failure(HibpError),
    /// Any other status: the error is `Unknown`, with the body.
    Unexpected,
}

/// What a status means.
pub open spec fn status_outcome(status: u16) -> StatusOutcome {
    if status == 200 {
        StatusOutcome::Success
    } else if status == 404 {
        StatusOutcome::Failure(HibpError::NotFound)
    } else if status == 403 {
        StatusOutcome::Failure(HibpError::Forbidden)
    } else if status == 400 {
        StatusOutcome::Failure(HibpError::BadRequest)
    } else if status == 401 {
        StatusOutcome::Failure(HibpError::Unauthorized)
    } else if status == 429 {
        StatusOutcome::Failure(HibpError::RateLimit)
    } else if status == 503 {
        StatusOutcome::Failure(HibpError::ServiceUnavailable)
    } else {
        StatusOutcome::Unexpected
    }
}

/// Maps a response status to its meaning.
pub fn classify_status(status: u16) -> (r: StatusOutcome)
    ensures
        r == status_outcome(status),
{
    if status == 200 {
        StatusOutcome::Success
    } else if status == 404 {
        StatusOutcome::Failure(HibpError::NotFound)
    } else if status == 403 {
        StatusOutcome::Failure(HibpError::Forbidden)
    } else if status == 400 {
        StatusOutcome::Failure(HibpError::BadRequest)
    } else if status == 401 {
        StatusOutcome::Failure(HibpError::Unauthorized)
    } else if status == 429 {
        StatusOutcome::Failure(HibpError::RateLimit)
    } else if status == 503 {
        StatusOutcome::Failure(HibpError::ServiceUnavailable)
    } else {
        StatusOutcome::Unexpected
    }
}

/// Refuses a call that needs an API key when none is set.
pub fn assert_auth(api_key: &Option<String>) -> (r: Result<(), HibpError>)
    ensures
        r is Ok <==> api_key is Some,
        r matches Err(e) ==> e is Unauthorized,
{
    match api_key {
        Some(_) => Ok(()),
        None => Err(HibpError::Unauthorized),
    }
}

/// Refuses a User-Agent that is blank once trimmed.
pub fn check_user_agent(user_agent: &str) -> (r: Result<(), HibpError>)
    ensures
        r is Ok <==> trimmed(user_agent@).len() > 0,
        r matches Err(e) ==> e is ClientBuildError,
{
    if trim(user_agent).unicode_len() == 0 {
        Err(HibpError::ClientBuildError(String::from_str("User Agent can't be empty.")))
    } else {
        Ok(())
    }
}

/// The uppercase hexadecimal digit of `v < 16`.
pub open spec fn hex_digit(v: u8) -> char {
    seq!['0', '1', '2', '3', '4', '5', '6', '7', '8', '9', 'A', 'B', 'C', 'D', 'E', 'F'][v as int]
}

/// Bytes in uppercase hexadecimal, two digits each, high nibble first.
pub open spec fn hex_upper(b: Seq<u8>) -> Seq<char>
    decreases b.len(),
{
    if b.len() == 0 {
        Seq::empty()
    } else {
        hex_upper(b.drop_last()) + seq![hex_digit(b.last() / 16), hex_digit(b.last() % 16)]
    }
}

/// Bytes that URL encoding keeps: ASCII letters and digits, `-`, `.`, `_`
/// and `~`.
pub open spec fn unreserved(b: u8) -> bool {
    (48 <= b <= 57) || (65 <= b <= 90) || (97 <= b <= 122) || b == 45 || b == 46 || b == 95
        || b == 126
}

/// Bytes percent-encoded: each byte kept when unreserved, else `%` and two
/// uppercase hexadecimal digits.
pub open spec fn percent_encoded(b: Seq<u8>) -> Seq<char>
    decreases b.len(),
{
    if b.len() == 0 {
        Seq::empty()
    } else {
        let x = b.last();
        percent_encoded(b.drop_last()) + if unreserved(x) {
            seq![x as char]
        } else {
            seq!['%', hex_digit(x / 16), hex_digit(x % 16)]
        }
    }
}

/// What a SHA-1 digest of the bytes is.
pub uninterp spec fn sha1_of(data: Seq<u8>) -> Seq<u8>;

/// Relies on `sha1::Sha1::digest` (through `digest::Digest`): the 20-byte
/// SHA-1 digest of the bytes.
#[verifier::external_body]
fn sha1_digest(data: &[u8]) -> (r: Vec<u8>)
    ensures
        r@ == sha1_of(data@),
        r@.len() == 20,
{
    <sha1::Sha1 as sha1::Digest>::digest(data).to_vec()
}

/// Relies on `hex::encode_upper`: two uppercase hexadecimal digits for each
/// byte, high nibble first.
#[verifier::external_body]
fn hex_encode_upper(data: &[u8]) -> (r: String)
    ensures
        r@ == hex_upper(data@),
{
    hex::encode_upper(data)
}

/// Relies on `urlencoding::encode`: the UTF-8 bytes of the text, each
/// percent-encoded unless it is an ASCII letter or digit, `-`, `.`, `_` or
/// `~`.
#[verifier::external_body]
fn url_encode(s: &str) -> (r: String)
    ensures
        r@ == percent_encoded(encode_utf8(s@)),
{
    urlencoding::encode(s).into_owned()
}

proof fn lemma_hex_len(b: Seq<u8>)
    ensures
        hex_upper(b).len() == 2 * b.len(),
    decreases b.len(),
{
    if b.len() > 0 {
        lemma_hex_len(b.drop_last());
    }
}

/// The five-digit prefix and the thirty-five-digit suffix of the uppercase
/// hexadecimal SHA-1 digest of a password. Only the prefix is sent.
pub fn password_hash_parts(password: &[u8]) -> (r: (String, String))
    ensures
        r.0@ == hex_upper(sha1_of(password@)).subrange(0, 5),
        r.1@ == hex_upper(sha1_of(password@)).subrange(5, 40),
{
    let digest = sha1_digest(password);
    let hex = hex_encode_upper(digest.as_slice());
    proof {
        lemma_hex_len(digest@);
    }
    let prefix = String::from_str(hex.as_str().substring_char(0, 5));
    let suffix = String::from_str(hex.as_str().substring_char(5, 40));
    (prefix, suffix)
}

/// `base`, then `middle`, then `tail`.
fn joined(base: &str, middle: &str, tail: &str) -> (r: String)
    ensures
        r@ == base@ + middle@ + tail@,
{
    let s = String::from_str(base);
    let s = s.concat(middle);
    s.concat(tail)
}

/// The URL of the breaches of an account, in full or names only.
pub fn breached_account_url(email: &str, truncate: bool) -> (r: String)
    ensures
        r@ == "https://haveibeenpwned.com/api/v3/breachedaccount/"@ + percent_encoded(
            encode_utf8(email@),
        ) + (if truncate {
            "?truncateResponse=true"@
        } else {
            "?truncateResponse=false"@
        }),
{
    let enc = url_encode(email);
    if truncate {
        joined("https://haveibeenpwned.com/api/v3/breachedaccount/", enc.as_str(), "?truncateResponse=true")
    } else {
        joined("https://haveibeenpwned.com/api/v3/breachedaccount/", enc.as_str(), "?truncateResponse=false")
    }
}

/// The URL of the pastes of an account.
pub fn paste_account_url(email: &str) -> (r: String)
    ensures
        r@ == "https://haveibeenpwned.com/api/v3/pasteaccount/"@ + percent_encoded(encode_utf8(email@)),
{
    proof {
        reveal_strlit("");
    }
    let enc = url_encode(email);
    joined("https://haveibeenpwned.com/api/v3/pasteaccount/", enc.as_str(), "")
}

/// The URL of all breaches, or of those of one domain.
pub fn all_breaches_url(domain: Option<&str>) -> (r: String)
    ensures
        match domain {
            Some(d) => r@ == "https://haveibeenpwned.com/api/v3/breaches?domain="@ + percent_encoded(
                encode_utf8(d@),
            ),
            None => r@ == "https://haveibeenpwned.com/api/v3/breaches"@,
        },
{
    proof {
        reveal_strlit("");
    }
    match domain {
        Some(d) => {
            let enc = url_encode(d);
            joined("https://haveibeenpwned.com/api/v3/breaches?domain=", enc.as_str(), "")
        },
        None => String::from_str("https://haveibeenpwned.com/api/v3/breaches"),
    }
}

/// The URL of one breach, by name.
pub fn breach_url(name: &str) -> (r: String)
    ensures
        r@ == "https://haveibeenpwned.com/api/v3/breach/"@ + percent_encoded(encode_utf8(name@)),
{
    proof {
        reveal_strlit("");
    }
    let enc = url_encode(name);
    joined("https://haveibeenpwned.com/api/v3/breach/", enc.as_str(), "")
}

/// The URL of the Pwned Passwords range of a hash prefix.
pub fn password_range_url(prefix: &str) -> (r: String)
    ensures
        r@ == "https://api.pwnedpasswords.com/range/"@ + prefix@,
{
    proof {
        reveal_strlit("");
    }
    joined("https://api.pwnedpasswords.com/range/", prefix, "")
}

/// The lines of `s` from position `i` on, where `cur` is the part of the
/// current line already read, split as `str::lines` does: at each `\n`,
/// dropping one `\r` before it; a last line without `\n` is kept as it is.
pub open spec fn lines_from(s: Seq<char>, i: int, cur: Seq<char>) -> Seq<Seq<char>>
    decreases s.len() - i,
{
    if i >= s.len() || i < 0 {
        if cur.len() == 0 {
            Seq::empty()
        } else {
            seq![cur]
        }
    } else if s[i] == '\n' {
        seq![strip_cr(cur)] + lines_from(s, i + 1, Seq::empty())
    } else {
        lines_from(s, i + 1, cur.push(s[i]))
    }
}

/// The lines of `s`.
pub open spec fn lines_of(s: Seq<char>) -> Seq<Seq<char>> {
    lines_from(s, 0, Seq::empty())
}

/// `l` without one trailing `\r`.
pub open spec fn strip_cr(l: Seq<char>) -> Seq<char> {
    if l.len() > 0 && l.last() == '\r' {
        l.drop_last()
    } else {
        l
    }
}

/// The code of `c` with ASCII capitals made small.
pub open spec fn ascii_lower(c: char) -> u32 {
    if 'A' <= c && c <= 'Z' {
        (c as u32 + 32) as u32
    } else {
        c as u32
    }
}

/// Equality up to ASCII case, as `str::eq_ignore_ascii_case`.
pub open spec fn eq_ignore_ascii_case(a: Seq<char>, b: Seq<char>) -> bool {
    a.len() == b.len() && forall|i: int| 0 <= i < a.len() ==> ascii_lower(#[trigger] a[i]) == ascii_lower(b[i])
}

/// Whether `k` is the position of the first `:` of `l`.
pub open spec fn first_colon(l: Seq<char>, k: int) -> bool {
    &&& 0 <= k < l.len()
    &&& l[k] == ':'
    &&& forall|j: int| 0 <= j < k ==> #[trigger] l[j] != ':'
}

/// The count that a line `SUFFIX:COUNT` of a range response gives for
/// `suffix`: the count, trimmed and read as a `u64`, when the part before
/// the first `:` equals `suffix` up to ASCII case.
pub open spec fn line_count(l: Seq<char>, suffix: Seq<char>) -> Option<u64> {
    if exists|k: int| first_colon(l, k) {
        let k = choose|k: int| first_colon(l, k);
        if eq_ignore_ascii_case(l.subrange(0, k), suffix) {
            decimal_u64(trimmed(l.subrange(k + 1, l.len() as int)))
        } else {
            None
        }
    } else {
        None
    }
}

/// The count of the first line that gives one for `suffix`; zero if none does.
pub open spec fn first_count(lines: Seq<Seq<char>>, suffix: Seq<char>) -> u64
    decreases lines.len(),
{
    if lines.len() == 0 {
        0
    } else {
        match line_count(lines[0], suffix) {
            Some(v) => v,
            None => first_count(lines.drop_first(), suffix),
        }
    }
}

proof fn lemma_first_count_cons(line: Seq<char>, rest: Seq<Seq<char>>, suffix: Seq<char>)
    ensures
        first_count(seq![line] + rest, suffix) == match line_count(line, suffix) {
            Some(v) => v,
            None => first_count(rest, suffix),
        },
{
    assert((seq![line] + rest).drop_first() =~= rest);
    assert((seq![line] + rest)[0] == line);
}

/// The count that the line `s[ls..e]` of `body` gives for `suffix`.
fn count_of_line(body: &str, s: &Vec<char>, ls: usize, e: usize, suffix: &Vec<char>) -> (r: Option<u64>)
    requires
        s@ == body@,
        ls <= e <= s@.len(),
    ensures
        r == line_count(s@.subrange(ls as int, e as int), suffix@),
{
    let ghost l = s@.subrange(ls as int, e as int);
    let mut k: usize = ls;
    while k < e && s[k] != ':'
        invariant
            ls <= k <= e,
            e <= s@.len(),
            l == s@.subrange(ls as int, e as int),
            forall|j: int| 0 <= j < k - ls ==> #[trigger] l[j] != ':',
        decreases e - k,
    {
        k += 1;
    }
    if k == e {
        assert(!exists|c: int| first_colon(l, c)) by {
            if exists|c: int| first_colon(l, c) {
                let c = choose|c: int| first_colon(l, c);
                assert(l[c] != ':');
            }
        }
        return None;
    }
    let ghost kk = (k - ls) as int;
    assert(first_colon(l, kk));
    assert(forall|c: int| first_colon(l, c) ==> c == kk) by {
        assert forall|c: int| first_colon(l, c) implies c == kk by {
            if c < kk {
                assert(l[c] != ':');
            } else if c > kk {
                assert(l[kk] != ':');
            }
        }
    }
    let ghost sfx = l.subrange(0, kk);
    if k - ls != suffix.len() {
        return None;
    }
    let mut j: usize = 0;
    while j < suffix.len()
        invariant
            j <= suffix@.len(),
            k - ls == suffix@.len(),
            k < e <= s@.len(),
            sfx == s@.subrange(ls as int, k as int),
            l == s@.subrange(ls as int, e as int),
            kk == k - ls,
            sfx == l.subrange(0, kk),
            first_colon(l, kk),
            forall|c: int| first_colon(l, c) ==> c == kk,
            forall|m: int| 0 <= m < j ==> ascii_lower(#[trigger] sfx[m]) == ascii_lower(suffix@[m]),
        decreases suffix@.len() - j,
    {
        let a = s[ls + j];
        let b = suffix[j];
        let la: u32 = if 'A' <= a && a <= 'Z' {
            a as u32 + 32
        } else {
            a as u32
        };
        let lb: u32 = if 'A' <= b && b <= 'Z' {
            b as u32 + 32
        } else {
            b as u32
        };
        assert(sfx[j as int] == a);
        assert(la == ascii_lower(a));
        assert(lb == ascii_lower(b));
        if la != lb {
            assert(ascii_lower(sfx[j as int]) != ascii_lower(suffix@[j as int]));
            assert(!eq_ignore_ascii_case(sfx, suffix@));
            return None;
        }
        j += 1;
    }
    let cnt = body.substring_char(k + 1, e);
    assert(cnt@ =~= l.subrange(kk + 1, l.len() as int));
    parse_decimal_u64(trim(cnt))
}

/// The number of breaches that a Pwned Passwords range response `body`
/// gives for the hash suffix `suffix`: the count of the first line
/// `SUFFIX:COUNT` whose suffix matches up to ASCII case and whose count
/// reads as a number; zero when no line does.
pub fn count_in_range(body: &str, suffix: &str) -> (r: u64)
    ensures
        r == first_count(lines_of(body@), suffix@),
{
    let s = chars_of(body);
    let suf = chars_of(suffix);
    let mut i: usize = 0;
    let mut ls: usize = 0;
    assert(s@.subrange(0, 0) =~= Seq::<char>::empty());
    while i < s.len()
        invariant
            ls <= i <= s@.len(),
            s@ == body@,
            suf@ == suffix@,
            first_count(lines_of(body@), suffix@) == first_count(
                lines_from(s@, i as int, s@.subrange(ls as int, i as int)),
                suffix@,
            ),
        decreases s@.len() - i,
    {
        let ghost cur = s@.subrange(ls as int, i as int);
        if s[i] == '\n' {
            let e: usize = if i > ls && s[i - 1] == '\r' {
                i - 1
            } else {
                i
            };
            assert(strip_cr(cur) =~= s@.subrange(ls as int, e as int));
            proof {
                lemma_first_count_cons(strip_cr(cur), lines_from(s@, i + 1, Seq::empty()), suffix@);
            }
            match count_of_line(body, &s, ls, e, &suf) {
                Some(v) => {
                    return v;
                },
                None => {},
            }
            ls = i + 1;
            assert(s@.subrange(ls as int, ls as int) =~= Seq::<char>::empty());
        } else {
            assert(cur.push(s@[i as int]) =~= s@.subrange(ls as int, i + 1));
        }
        i += 1;
    }
    let ghost cur = s@.subrange(ls as int, i as int);
    if ls < i {
        proof {
            lemma_first_count_cons(cur, Seq::empty(), suffix@);
            assert(seq![cur] + Seq::<Seq<char>>::empty() =~= seq![cur]);
        }
        match count_of_line(body, &s, ls, i, &suf) {
            Some(v) => v,
            None => 0,
        }
    } else {
        0
    }
}

} // verus!
