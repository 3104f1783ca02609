//! The rules of the sidecar process: which port it listens on, which requests
//! it lets in, what its health probe answers, and what it can do for an ingest.
//!
//! Access fails closed. Without a configured token no request is let in.
//!
//! The sidecar has no downloader and no store of spaces: those belong to Core.
//! A URL cannot be ingested here, and a finished clip is not filed. All else
//! works as it does in Core.

use crate::json;
use crate::paths;
use crate::text;
use crate::DownloadedClip;
use serde_json::Value;
use vstd::prelude::*;
use vstd::string::*;
use vstd::utf8::*;

verus! {

/// The loopback port when none is configured.
pub const DEFAULT_PORT: u16 = 7992;

/// Whether `a` and `b` are the same bytes. All of `b` is gone over, whatever `a`
/// holds and however long it is, so the running time tells neither where they
/// differ nor that their lengths do.
pub fn ct_eq(a: &[u8], b: &[u8]) -> (res: bool)
    ensures
        res == (a@ == b@),
{
    let len: usize = a.len();
    let n: usize = b.len();
    let mut diff: u8 = if len == n {
        0
    } else {
        1
    };
    for i in 0..n
        invariant
            len == a@.len(),
            n == b@.len(),
            diff == 0 <==> len == n && forall|j: int| 0 <= j < i ==> a@[j] == b@[j],
    {
        let x: u8 = if i < len {
            a[i]
        } else {
            0
        };
        let y: u8 = b[i];
        assert((diff | (x ^ y)) == 0 <==> diff == 0 && x == y) by (bit_vector);
        diff = diff | (x ^ y);
    }
    assert(diff == 0 ==> a@ =~= b@);
    diff == 0
}

/// Whether a request that presents the token `provided` is let in where
/// `expected` is asked for: only when a token is configured, is not empty, and is
/// the one presented.
pub open spec fn passes(provided: Option<Seq<char>>, expected: Option<Seq<char>>) -> bool {
    &&& expected is Some
    &&& expected->0.len() > 0
    &&& provided == expected
}

/// Decides whether the presented token is the expected one.
pub fn bearer_ok(provided: Option<&str>, expected: Option<&str>) -> (res: bool)
    ensures
        res == passes(text::text_of(provided), text::text_of(expected)),
{
    match expected {
        Some(want) => {
            if want.is_empty() {
                return false;
            }
            let got: &str = match provided {
                Some(p) => p,
                None => "",
            };
            proof {
                reveal_strlit("");
                text::lemma_same_bytes(got@, want@);
            }
            ct_eq(got.as_bytes(), want.as_bytes())
        },
        None => false,
    }
}

/// The token that an `Authorization` header presents: what follows `Bearer `.
pub open spec fn presented_token(authorization: Option<Seq<char>>) -> Option<Seq<char>> {
    match authorization {
        Some(h) => if "Bearer "@.is_prefix_of(h) {
            Some(h.skip("Bearer "@.len() as int))
        } else {
            None
        },
        None => None,
    }
}

/// What becomes of a request to the clips routes.
#[derive(Clone, Copy, PartialEq, Eq, Structural, Debug)]
pub enum Access {
    /// The request goes on to its handler.
    Granted,
    /// The request is answered `401` with the text `unauthorized`.
    Unauthorized,
}

/// What becomes of a request with the `Authorization` header `authorization`,
/// where the token `expected` is asked for.
pub open spec fn access_of(
    authorization: Option<Seq<char>>,
    expected: Option<Seq<char>>,
) -> Access {
    if passes(presented_token(authorization), expected) {
        Access::Granted
    } else {
        Access::Unauthorized
    }
}

/// Decides whether a request is let in to the clips routes, given its
/// `Authorization` header and the configured token.
pub fn require_clips_token(authorization: Option<&str>, expected: Option<&str>) -> (res: Access)
    ensures
        res == access_of(text::text_of(authorization), text::text_of(expected)),
{
    let provided: Option<&str> = match authorization {
        Some(h) => {
            let scheme: &str = "Bearer ";
            if text::starts_with(h, scheme) {
                let n: usize = h.unicode_len();
                let from: usize = scheme.unicode_len();
                let token: &str = h.substring_char(from, n);
                assert(token@ =~= h@.skip(from as int));
                Some(token)
            } else {
                None
            }
        },
        None => None,
    };
    if bearer_ok(provided, expected) {
        Access::Granted
    } else {
        Access::Unauthorized
    }
}

/// The token that requests have to present, from what is configured: trimmed,
/// and none when it is blank.
pub fn expected_token(configured: Option<&str>) -> (res: Option<String>)
    ensures
        text::string_of(res) == text::trimmed_or_none(text::text_of(configured)),
{
    text::trim_or_none(configured)
}

/// Without a configured token, or with a blank one, no request passes.
pub proof fn law_access_fails_closed(
    authorization: Option<Seq<char>>,
    configured: Option<Seq<char>>,
)
    requires
        configured is None || text::trimmed(configured->0).len() == 0,
    ensures
        !passes(presented_token(authorization), text::trimmed_or_none(configured)),
{
}

/// With a configured token exactly one `Authorization` header passes: the word
/// `Bearer`, a space, and the token.
pub proof fn law_access_needs_the_bearer(
    authorization: Option<Seq<char>>,
    configured: Option<Seq<char>>,
)
    requires
        text::trimmed_or_none(configured) is Some,
    ensures
        passes(presented_token(authorization), text::trimmed_or_none(configured)) <==> authorization
            == Some("Bearer "@ + text::trimmed_or_none(configured)->0),
{
    let scheme = "Bearer "@;
    let token = text::trimmed_or_none(configured)->0;
    if passes(presented_token(authorization), Some(token)) {
        assert(authorization->0 =~= scheme + token);
    }
    if authorization == Some(scheme + token) {
        assert((scheme + token).skip(scheme.len() as int) =~= token);
    }
}

/// The value of a decimal digit.
pub open spec fn digit_value(c: char) -> nat {
    (c as u32 - '0' as u32) as nat
}

/// Whether `s` is one or more decimal digits.
pub open spec fn all_digits(s: Seq<char>) -> bool {
    s.len() > 0 && forall|i: int| 0 <= i < s.len() ==> '0' <= #[trigger] s[i] <= '9'
}

/// The number that the decimal digits `s` write.
pub open spec fn number(s: Seq<char>) -> nat
    decreases s.len(),
{
    if s.len() == 0 {
        0
    } else {
        10 * number(s.drop_last()) + digit_value(s.last())
    }
}

/// The digits of a port, without the sign that may stand before them.
pub open spec fn unsigned_part(s: Seq<char>) -> Seq<char> {
    if s.len() > 0 && s[0] == '+' {
        s.drop_first()
    } else {
        s
    }
}

/// The port that `s` writes: an optional `+`, then decimal digits that write a
/// number from zero to 65535.
pub open spec fn port_of(s: Seq<char>) -> Option<u16> {
    let digits = unsigned_part(s);
    if all_digits(digits) && number(digits) <= u16::MAX {
        Some(number(digits) as u16)
    } else {
        None
    }
}

proof fn lemma_number_grows(s: Seq<char>, k: int)
    requires
        0 <= k <= s.len(),
    ensures
        number(s.take(k)) <= number(s),
    decreases s.len(),
{
    if k < s.len() {
        lemma_number_grows(s.drop_last(), k);
        assert(s.drop_last().take(k) =~= s.take(k));
    } else {
        assert(s.take(k) =~= s);
    }
}

/// Reads a port.
pub fn parse_port(s: &str) -> (res: Option<u16>)
    ensures
        res == port_of(s@),
{
    let len: usize = s.unicode_len();
    let mut start: usize = 0;
    if len > 0 && s.get_char(0) == '+' {
        start = 1;
    }
    let digits: &str = s.substring_char(start, len);
    assert(digits@ =~= unsigned_part(s@));
    if digits.is_empty() {
        return None;
    }
    let mut value: u32 = 0;
    for c in it: digits.chars()
        invariant
            it.seq() == digits@,
            digits@ == unsigned_part(s@),
            digits@.len() > 0,
            value <= u16::MAX,
            value == number(digits@.take(it.index())),
            forall|i: int| 0 <= i < it.index() ==> '0' <= #[trigger] digits@[i] <= '9',
    {
        let ghost k = it.index();
        assert(c == digits@[k]);
        if c < '0' || c > '9' {
            assert(!all_digits(digits@));
            return None;
        }
        assert(digits@.take(k + 1).drop_last() =~= digits@.take(k));
        value = value * 10 + (c as u32 - '0' as u32);
        if value > 65535 {
            proof {
                lemma_number_grows(digits@, k + 1);
            }
            return None;
        }
    }
    assert(digits@.take(digits@.len() as int) =~= digits@);
    Some(value as u16)
}

/// The port to listen on where `configured` is what is configured.
pub open spec fn configured_port(configured: Option<Seq<char>>) -> u16 {
    match configured {
        Some(s) => match port_of(text::trimmed(s)) {
            Some(p) => p,
            None => DEFAULT_PORT,
        },
        None => DEFAULT_PORT,
    }
}

/// The port that the sidecar listens on: the configured one, trimmed, when it
/// is a port, and [`DEFAULT_PORT`] otherwise.
pub fn clips_port(configured: Option<&str>) -> (res: u16)
    ensures
        res == configured_port(text::text_of(configured)),
{
    match configured {
        Some(s) => match parse_port(text::trim(s)) {
            Some(p) => p,
            None => DEFAULT_PORT,
        },
        None => DEFAULT_PORT,
    }
}

/// What the health probe answers: that this process serves. Shadow is not asked,
/// since this process is well without it.
pub fn health() -> (res: (u16, Value))
    ensures
        res.0 == 200,
        json::json_of(res.1) == json::JsonView::Object(
            map!["ok"@ => json::JsonView::Bool(true)],
        ),
{
    let mut fields = serde_json::Map::new();
    fields.insert("ok".to_owned(), json::bool_value(true));
    (200, json::object_value(fields))
}

/// Why the sidecar cannot do what only Core can.
pub const BROKER_BACK_HINT: &'static str = "requires Core's kernel machinery (DownloadCenter / Spaces store), which the standalone ryu-clips sidecar does not link; use the in-process (Core-linked) build for this path";

fn url_ingest_reason() -> (res: String)
    ensures
        res@ == "URL ingest "@ + BROKER_BACK_HINT@,
{
    let mut res: String = "URL ingest ".to_owned();
    res.append(BROKER_BACK_HINT);
    res
}

/// Where the work directories of ingests go: `tmp` in the data directory.
pub fn tmp_dir(data_dir: &Vec<u8>) -> (res: Vec<u8>)
    ensures
        res@ == paths::joined(data_dir@, encode_utf8("tmp"@)),
{
    paths::join(data_dir.as_slice(), "tmp")
}

/// The sidecar has no downloader, and says why.
pub fn ensure_ytdlp() -> (res: Result<(), String>)
    ensures
        res matches Err(e) && e@ == "URL ingest "@ + BROKER_BACK_HINT@,
{
    Err(url_ingest_reason())
}

/// The sidecar downloads nothing, and says why.
pub fn download_video() -> (res: Result<DownloadedClip, String>)
    ensures
        res matches Err(e) && e@ == "URL ingest "@ + BROKER_BACK_HINT@,
{
    Err(url_ingest_reason())
}

/// A number is read digit by digit, each worth ten times the next.
pub proof fn law_digits_count_by_tens(s: Seq<char>, c: char)
    requires
        '0' <= c <= '9',
    ensures
        number(Seq::empty()) == 0,
        number(s.push(c)) == 10 * number(s) + (c as u32 - 48),
{
    assert(s.push(c).drop_last() =~= s);
}

/// A number that is written in decimal reads back as itself, and has no zero in
/// front that it does not need.
pub proof fn law_numbers_read_back(n: nat)
    ensures
        all_digits(text::decimal(n)),
        number(text::decimal(n)) == n,
        text::decimal(n)[0] == '0' <==> n == 0,
        n == 0 ==> text::decimal(n).len() == 1,
        n < 10 <==> text::decimal(n).len() == 1,
    decreases n,
{
    let s = text::decimal(n);
    if n < 10 {
        law_digits_count_by_tens(Seq::empty(), text::digit(n));
        assert(s =~= Seq::empty().push(text::digit(n)));
    } else {
        let front = text::decimal(n / 10);
        law_numbers_read_back(n / 10);
        law_digits_count_by_tens(front, text::digit(n % 10));
        assert(s[0] == front[0]);
        assert(10 * (n / 10) + n % 10 == n);
        assert forall|i: int| 0 <= i < s.len() implies '0' <= #[trigger] s[i] <= '9' by {
            if i < front.len() {
                assert(s[i] == front[i]);
            }
        }
    }
}

/// Two digits at least are written, and they read back as the number; there are
/// exactly two below a hundred.
pub proof fn law_two_digits_read_back(n: nat)
    ensures
        all_digits(text::two_digits(n)),
        number(text::two_digits(n)) == n,
        text::two_digits(n).len() >= 2,
        n < 100 <==> text::two_digits(n).len() == 2,
{
    law_numbers_read_back(n);
    let s = text::two_digits(n);
    if n < 10 {
        assert(s =~= seq!['0'].push(text::digit(n)));
        law_digits_count_by_tens(seq!['0'], text::digit(n));
        assert(seq!['0'] =~= Seq::empty().push('0'));
        law_digits_count_by_tens(Seq::empty(), '0');
    } else {
        law_numbers_read_back(n / 10);
    }
}

/// A port is read as the number it is written as, with or without a sign before
/// it, and a number that is no port is refused.
pub proof fn law_ports_read_back(n: nat)
    ensures
        port_of(text::decimal(n)) == (if n <= 65535 {
            Some(n as u16)
        } else {
            None
        }),
        port_of(seq!['+'] + text::decimal(n)) == port_of(text::decimal(n)),
{
    law_numbers_read_back(n);
    let digits = text::decimal(n);
    assert('0' <= digits[0] <= '9');
    assert((seq!['+'] + digits).drop_first() =~= digits);
}

/// Whatever is no number is no port: after the sign there are digits only.
pub proof fn law_ports_are_digits(s: Seq<char>, i: int)
    requires
        port_of(s) is Some,
        0 <= i < s.len(),
    ensures
        '0' <= s[i] <= '9' || (i == 0 && s[i] == '+' && s.len() > 1),
{
    if s[0] == '+' {
        if i > 0 {
            assert(s.drop_first()[i - 1] == s[i]);
        }
    }
}

/// White space around a configured port does not count, and without a port that
/// can be read the process listens on 7992.
pub proof fn law_port_is_configured_or_default(s: Seq<char>)
    ensures
        configured_port(None) == 7992,
        port_of(text::trimmed(s)) is None ==> configured_port(Some(s)) == 7992,
        port_of(text::trimmed(s)) matches Some(p) ==> configured_port(Some(s)) == p,
        configured_port(Some(text::trimmed(s))) == configured_port(Some(s)),
{
    text::lemma_trimmed_once(s);
}

/// A request is let in exactly when a token is asked for, which is not empty,
/// and the header is the word `Bearer`, a space and that token.
pub proof fn law_access_is_granted_to_the_bearer(
    authorization: Option<Seq<char>>,
    expected: Option<Seq<char>>,
)
    ensures
        access_of(authorization, expected) == Access::Granted <==> (expected matches Some(token)
            && token.len() > 0 && authorization == Some("Bearer "@ + token)),
{
    let scheme = "Bearer "@;
    if let Some(token) = expected {
        if passes(presented_token(authorization), expected) {
            assert(authorization->0 =~= scheme + token);
        }
        assert((scheme + token).skip(scheme.len() as int) =~= token);
    }
}

/// Any digits are a port when the number they write is one, with zeros in front
/// or without.
pub proof fn law_digits_are_a_port(s: Seq<char>)
    requires
        s.len() > 0,
        forall|i: int| 0 <= i < s.len() ==> '0' <= #[trigger] s[i] <= '9',
    ensures
        port_of(s) == (if number(s) <= 65535 {
            Some(number(s) as u16)
        } else {
            None
        }),
{
    assert('0' <= s[0] <= '9');
}

} // verus!
