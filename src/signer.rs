//! Signing of one outbound POST with the canonical-request / HMAC-chain protocol,
//! for the fixed header set `content-type`, `host`, `x-amz-date`.
use vstd::prelude::*;
use vstd::string::*;
use vstd::utf8::*;
use vstd::slice::slice_to_vec;

use crate::codec::{hex_digit, hex_of, is_lower_hex, lemma_hex_of, nibble_char, push_char, to_hex};
use crate::credentials::{AwsCreds, CredsView};

verus! {

/// A Gregorian leap year.
pub open spec fn is_leap_year(y: nat) -> bool {
    y % 4 == 0 && (y % 100 != 0 || y % 400 == 0)
}

/// The number of days in month `m` of year `y`.
pub open spec fn days_in_month(y: nat, m: nat) -> nat {
    if m == 2 {
        if is_leap_year(y) {
            29
        } else {
            28
        }
    } else if m == 4 || m == 6 || m == 9 || m == 11 {
        30
    } else {
        31
    }
}

fn month_length(y: u16, m: u8) -> (r: u8)
    ensures
        r as nat == days_in_month(y as nat, m as nat),
{
    if m == 2 {
        if y % 4 == 0 && (y % 100 != 0 || y % 400 == 0) {
            29
        } else {
            28
        }
    } else if m == 4 || m == 6 || m == 9 || m == 11 {
        30
    } else {
        31
    }
}

/// A UTC instant to the second, as the signature states it.
#[derive(Debug, Clone, Copy, PartialEq, Eq, Structural)]
pub struct UtcTime {
    year: u16,
    month: u8,
    day: u8,
    hour: u8,
    minute: u8,
    second: u8,
}

impl UtcTime {
    /// Year, month, day, hour, minute and second.
    pub closed spec fn view(&self) -> (nat, nat, nat, nat, nat, nat) {
        (
            self.year as nat,
            self.month as nat,
            self.day as nat,
            self.hour as nat,
            self.minute as nat,
            self.second as nat,
        )
    }

    /// A four-digit year, a day that exists in its month, and a time of day.
    pub open spec fn wf(&self) -> bool {
        self@.0 <= 9999 && 1 <= self@.1 <= 12 && 1 <= self@.2 <= days_in_month(self@.0, self@.1)
            && self@.3 < 24 && self@.4 < 60 && self@.5 < 60
    }

    /// The instant with these fields, if each is in its range.
    pub fn new(year: u16, month: u8, day: u8, hour: u8, minute: u8, second: u8) -> (r: Option<
        Self,
    >)
        ensures
            r is Some <==> (year <= 9999 && 1 <= month <= 12 && 1 <= day <= days_in_month(
                year as nat,
                month as nat,
            ) && hour < 24 && minute < 60 && second < 60),
            r is Some ==> r->Some_0.wf() && r->Some_0@ == (
                year as nat,
                month as nat,
                day as nat,
                hour as nat,
                minute as nat,
                second as nat,
            ),
    {
        if year <= 9999 && 1 <= month && month <= 12 && 1 <= day && day <= month_length(year, month)
            && hour < 24 && minute < 60 && second < 60 {
            Some(UtcTime { year, month, day, hour, minute, second })
        } else {
            None
        }
    }
}

/// Two decimal digits of `n`.
pub open spec fn two_digits(n: nat) -> Seq<char> {
    seq![hex_digit((n / 10) % 10), hex_digit(n % 10)]
}

/// Four decimal digits of `n`.
pub open spec fn four_digits(n: nat) -> Seq<char> {
    seq![
        hex_digit((n / 1000) % 10),
        hex_digit((n / 100) % 10),
        hex_digit((n / 10) % 10),
        hex_digit(n % 10),
    ]
}

/// `YYYYMMDD`.
pub open spec fn date_stamp(t: (nat, nat, nat, nat, nat, nat)) -> Seq<char> {
    four_digits(t.0) + two_digits(t.1) + two_digits(t.2)
}

/// ISO 8601 basic: `YYYYMMDD'T'HHMMSS'Z'`.
pub open spec fn amz_date(t: (nat, nat, nat, nat, nat, nat)) -> Seq<char> {
    date_stamp(t) + seq!['T'] + two_digits(t.3) + two_digits(t.4) + two_digits(t.5) + seq!['Z']
}

/// A character that `char::is_whitespace` accepts (Unicode White_Space).
pub open spec fn is_ws(c: char) -> bool {
    c == '\t' || c == '\n' || c == '\u{0B}' || c == '\u{0C}' || c == '\r' || c == ' ' || c
        == '\u{85}' || c == '\u{A0}' || c == '\u{1680}' || ('\u{2000}' <= c <= '\u{200A}') || c
        == '\u{2028}' || c == '\u{2029}' || c == '\u{202F}' || c == '\u{205F}' || c == '\u{3000}'
}

/// Collapsing read from the left: the text so far, and whether a space is owed before
/// the next word.
pub open spec fn collapse_state(s: Seq<char>) -> (Seq<char>, bool)
    decreases s.len(),
{
    if s.len() == 0 {
        (Seq::empty(), false)
    } else {
        let (out, gap) = collapse_state(s.drop_last());
        let c = s.last();
        if is_ws(c) {
            (out, out.len() > 0)
        } else if gap {
            (out.push(' ').push(c), false)
        } else {
            (out.push(c), false)
        }
    }
}

/// The words of `s` joined by single spaces, with no leading or trailing space.
pub open spec fn collapse_ws(s: Seq<char>) -> Seq<char> {
    collapse_state(s).0
}

/// What sha2's `Sha256::digest` gives for `b`.
pub uninterp spec fn sha256_of(b: Seq<u8>) -> Seq<u8>;

/// What hmac's `Hmac<Sha256>` gives for this key and message.
pub uninterp spec fn hmac_sha256_of(key: Seq<u8>, msg: Seq<u8>) -> Seq<u8>;

/// Relies on sha2's `Sha256::digest`: a 32-byte digest that depends on `b` alone.
#[verifier::external_body]
fn sha256(b: &[u8]) -> (r: Vec<u8>)
    ensures
        r@ == sha256_of(b@),
        r@.len() == 32,
{
    <sha2::Sha256 as sha2::Digest>::digest(b).to_vec()
}

/// Relies on hmac's `Hmac<Sha256>`: `new_from_slice` accepts a key of any length (a
/// long key is hashed first), and the tag is 32 bytes.
#[verifier::external_body]
fn hmac_sha256(key: &[u8], msg: &[u8]) -> (r: Vec<u8>)
    ensures
        r@ == hmac_sha256_of(key@, msg@),
        r@.len() == 32,
{
    let mut mac = <hmac::Hmac<sha2::Sha256> as hmac::Mac>::new_from_slice(key).unwrap();
    hmac::Mac::update(&mut mac, msg);
    hmac::Mac::finalize(mac).into_bytes().to_vec()
}

/// The region that calls are signed for.
pub open spec fn region() -> Seq<char> {
    "eu-west-1"@
}

/// The service that calls are signed for.
pub open spec fn service() -> Seq<char> {
    "lambda"@
}

/// The request kind that closes the credential scope.
pub open spec fn request_kind() -> Seq<char> {
    "aws4_request"@
}

/// The credential scope: date, region, service and request kind.
pub open spec fn scope(t: (nat, nat, nat, nat, nat, nat)) -> Seq<char> {
    date_stamp(t) + "/"@ + region() + "/"@ + service() + "/"@ + request_kind()
}

/// The names of the signed headers, sorted and joined by `;`.
pub open spec fn signed_headers() -> Seq<char> {
    "content-type;host;x-amz-date"@
}

/// The canonical header lines: lower-case names in sorted order, each value with its
/// whitespace collapsed.
pub open spec fn canonical_headers(host: Seq<char>, t: (nat, nat, nat, nat, nat, nat)) -> Seq<char> {
    "content-type:application/json"@ + "\n"@ + "host:"@ + collapse_ws(host) + "\n"@
        + "x-amz-date:"@ + amz_date(t)
}

/// The canonical request for a POST to `/` with no query.
pub open spec fn canonical_request(
    host: Seq<char>,
    body: Seq<u8>,
    t: (nat, nat, nat, nat, nat, nat),
) -> Seq<char> {
    "POST\n/\n\n"@ + canonical_headers(host, t) + "\n\n"@ + signed_headers() + "\n"@ + hex_of(
        sha256_of(body),
    )
}

/// The string to sign.
pub open spec fn string_to_sign(
    host: Seq<char>,
    body: Seq<u8>,
    t: (nat, nat, nat, nat, nat, nat),
) -> Seq<char> {
    "AWS4-HMAC-SHA256\n"@ + amz_date(t) + "\n"@ + scope(t) + "\n"@ + hex_of(
        sha256_of(encode_utf8(canonical_request(host, body, t))),
    )
}

/// The signing key: the HMAC chain over date, region, service and request kind.
pub open spec fn signing_key(secret: Seq<char>, t: (nat, nat, nat, nat, nat, nat)) -> Seq<u8> {
    let k_date = hmac_sha256_of(encode_utf8("AWS4"@ + secret), encode_utf8(date_stamp(t)));
    let k_region = hmac_sha256_of(k_date, encode_utf8(region()));
    let k_service = hmac_sha256_of(k_region, encode_utf8(service()));
    hmac_sha256_of(k_service, encode_utf8(request_kind()))
}

/// The hex signature of a call with body `body` at `t` under credentials `c`.
pub open spec fn signature(c: CredsView, body: Seq<u8>, t: (nat, nat, nat, nat, nat, nat)) -> Seq<
    char,
> {
    hex_of(hmac_sha256_of(signing_key(c.2, t), encode_utf8(string_to_sign(c.0, body, t))))
}

/// The value of the `Authorization` header.
pub open spec fn authorization(c: CredsView, body: Seq<u8>, t: (nat, nat, nat, nat, nat, nat)) -> Seq<
    char,
> {
    "AWS4-HMAC-SHA256 Credential="@ + c.1 + "/"@ + scope(t) + ", SignedHeaders="@
        + signed_headers() + ", Signature="@ + signature(c, body, t)
}

/// A signed call, ready for the transport: `method url` with these headers and body.
#[derive(Debug)]
pub struct SignedRequest {
    pub method: String,
    pub url: String,
    pub host: String,
    pub content_type: String,
    pub amz_date: String,
    pub authorization: String,
    pub body: Vec<u8>,
}

fn push_two(s: &mut String, n: u8)
    requires
        n < 100,
    ensures
        final(s)@ == old(s)@ + two_digits(n as nat),
{
    push_char(s, nibble_char(n / 10));
    push_char(s, nibble_char(n % 10));
    assert(final(s)@ =~= old(s)@ + two_digits(n as nat));
}

fn push_four(s: &mut String, n: u16)
    requires
        n <= 9999,
    ensures
        final(s)@ == old(s)@ + four_digits(n as nat),
{
    push_char(s, nibble_char((n / 1000) as u8));
    push_char(s, nibble_char(((n / 100) % 10) as u8));
    push_char(s, nibble_char(((n / 10) % 10) as u8));
    push_char(s, nibble_char((n % 10) as u8));
    assert(final(s)@ =~= old(s)@ + four_digits(n as nat));
}

impl UtcTime {
    /// `YYYYMMDD`.
    pub fn date_stamp(&self) -> (r: String)
        requires
            self.wf(),
        ensures
            r@ == date_stamp(self@),
    {
        let mut r = String::new();
        push_four(&mut r, self.year);
        push_two(&mut r, self.month);
        push_two(&mut r, self.day);
        assert(r@ =~= date_stamp(self@));
        r
    }

    /// `YYYYMMDD'T'HHMMSS'Z'`.
    pub fn amz_date(&self) -> (r: String)
        requires
            self.wf(),
        ensures
            r@ == amz_date(self@),
    {
        let mut r = self.date_stamp();
        push_char(&mut r, 'T');
        push_two(&mut r, self.hour);
        push_two(&mut r, self.minute);
        push_two(&mut r, self.second);
        push_char(&mut r, 'Z');
        assert(r@ =~= amz_date(self@));
        r
    }
}

fn is_ws_char(c: char) -> (r: bool)
    ensures
        r == is_ws(c),
{
    c == '\t' || c == '\n' || c == '\u{0B}' || c == '\u{0C}' || c == '\r' || c == ' ' || c
        == '\u{85}' || c == '\u{A0}' || c == '\u{1680}' || ('\u{2000}' <= c && c <= '\u{200A}')
        || c == '\u{2028}' || c == '\u{2029}' || c == '\u{202F}' || c == '\u{205F}' || c
        == '\u{3000}'
}

/// `s` with each run of whitespace made one space and the ends trimmed.
pub fn collapse_whitespace(s: &str) -> (r: String)
    ensures
        r@ == collapse_ws(s@),
{
    let n = s.unicode_len();
    let mut out = String::new();
    let mut gap = false;
    let mut i: usize = 0;
    while i < n
        invariant
            n == s@.len(),
            i <= n,
            (out@, gap) == collapse_state(s@.take(i as int)),
        decreases n - i,
    {
        let c = s.get_char(i);
        assert(s@.take(i + 1).drop_last() =~= s@.take(i as int));
        if is_ws_char(c) {
            gap = out.unicode_len() > 0;
        } else {
            if gap {
                push_char(&mut out, ' ');
            }
            push_char(&mut out, c);
            gap = false;
        }
        i = i + 1;
    }
    assert(s@.take(n as int) =~= s@);
    out
}

/// Signs a POST of `body` to the credentials' host at `time`.
pub fn new_signed_request(body: &[u8], creds: &AwsCreds, time: &UtcTime) -> (r: SignedRequest)
    requires
        time.wf(),
    ensures
        r.method@ == "POST"@,
        r.url@ == "https://"@ + creds.lambda_host@ + "/"@,
        r.host@ == creds.lambda_host@,
        r.content_type@ == "application/json"@,
        r.amz_date@ == amz_date(time@),
        r.authorization@ == authorization(creds.view(), body@, time@),
        signature(creds.view(), body@, time@).len() == 64,
        forall|i: int|
            0 <= i < 64 ==> is_lower_hex(#[trigger] signature(creds.view(), body@, time@)[i]),
        r.body@ == body@,
{
    let stamp = time.date_stamp();
    let time_str = time.amz_date();

    let mut headers = String::from_str("content-type:application/json");
    headers.append("\n");
    headers.append("host:");
    let host_value = collapse_whitespace(creds.lambda_host.as_str());
    headers.append(host_value.as_str());
    headers.append("\n");
    headers.append("x-amz-date:");
    headers.append(time_str.as_str());

    let names = String::from_str("content-type;host;x-amz-date");

    let body_hash = to_hex(sha256(body).as_slice());
    let mut canonical = String::from_str("POST\n/\n\n");
    canonical.append(headers.as_str());
    canonical.append("\n\n");
    canonical.append(names.as_str());
    canonical.append("\n");
    canonical.append(body_hash.as_str());
    assert(canonical@ =~= canonical_request(creds.lambda_host@, body@, time@));

    let canonical_hash = to_hex(sha256(canonical.as_str().as_bytes()).as_slice());

    let mut scope_str = stamp.clone();
    scope_str.append("/");
    scope_str.append("eu-west-1");
    scope_str.append("/");
    scope_str.append("lambda");
    scope_str.append("/");
    scope_str.append("aws4_request");
    assert(scope_str@ =~= scope(time@));

    let mut to_sign = String::from_str("AWS4-HMAC-SHA256\n");
    to_sign.append(time_str.as_str());
    to_sign.append("\n");
    to_sign.append(scope_str.as_str());
    to_sign.append("\n");
    to_sign.append(canonical_hash.as_str());
    assert(to_sign@ =~= string_to_sign(creds.lambda_host@, body@, time@));

    let mut secret = String::from_str("AWS4");
    secret.append(creds.access_key.as_str());
    let k_date = hmac_sha256(secret.as_str().as_bytes(), stamp.as_str().as_bytes());
    let k_region = hmac_sha256(k_date.as_slice(), "eu-west-1".as_bytes());
    let k_service = hmac_sha256(k_region.as_slice(), "lambda".as_bytes());
    let k_signing = hmac_sha256(k_service.as_slice(), "aws4_request".as_bytes());
    assert(k_signing@ == signing_key(creds.access_key@, time@));

    let mac = hmac_sha256(k_signing.as_slice(), to_sign.as_str().as_bytes());
    let sig = to_hex(mac.as_slice());
    proof {
        lemma_hex_of(mac@);
    }

    let mut auth = String::from_str("AWS4-HMAC-SHA256 Credential=");
    auth.append(creds.key_id.as_str());
    auth.append("/");
    auth.append(scope_str.as_str());
    auth.append(", SignedHeaders=");
    auth.append(names.as_str());
    auth.append(", Signature=");
    auth.append(sig.as_str());
    assert(auth@ =~= authorization(creds.view(), body@, time@));

    let mut url = String::from_str("https://");
    url.append(creds.lambda_host.as_str());
    url.append("/");

    SignedRequest {
        method: String::from_str("POST"),
        url,
        host: creds.lambda_host.clone(),
        content_type: String::from_str("application/json"),
        amz_date: time_str,
        authorization: auth,
        body: slice_to_vec(body),
    }
}

} // verus!
