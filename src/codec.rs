//! Text encodings used by the vault and the signer: lower-case hex,
//! fixed-width decimal, and Base64 (through `base64ct`).
use vstd::prelude::*;
use vstd::utf8::*;

verus! {

/// The lower-case hex digit for a nibble.
pub open spec fn hex_digit(n: nat) -> char {
    if n < 10 {
        ('0' as nat + n) as char
    } else {
        ('a' as nat + (n - 10)) as char
    }
}

/// Lower-case hex of a byte string, two digits per byte, high nibble first.
pub open spec fn hex_of(b: Seq<u8>) -> Seq<char>
    decreases b.len(),
{
    if b.len() == 0 {
        Seq::empty()
    } else {
        hex_of(b.drop_last()) + seq![hex_digit(b.last() as nat / 16), hex_digit(b.last() as nat % 16)]
    }
}

/// A lower-case hex digit.
pub open spec fn is_lower_hex(c: char) -> bool {
    ('0' <= c <= '9') || ('a' <= c <= 'f')
}

/// Hex text is two lower-case digits per byte.
pub proof fn lemma_hex_of(b: Seq<u8>)
    ensures
        hex_of(b).len() == 2 * b.len(),
        forall|i: int| 0 <= i < hex_of(b).len() ==> is_lower_hex(#[trigger] hex_of(b)[i]),
    decreases b.len(),
{
    if b.len() > 0 {
        lemma_hex_of(b.drop_last());
        let x = b.last() as nat;
        assert(x / 16 < 16 && x % 16 < 16) by (nonlinear_arith)
            requires
                x < 256,
        ;
        let h = hex_of(b);
        let p = hex_of(b.drop_last());
        assert forall|i: int| 0 <= i < h.len() implies is_lower_hex(#[trigger] h[i]) by {
            if i < p.len() {
                assert(h[i] == p[i]);
            }
        }
    }
}

/// Relies on `String::push`: appends one character.
#[verifier::external_body]
pub(crate) fn push_char(s: &mut String, c: char)
    ensures
        final(s)@ == old(s)@.push(c),
{
    s.push(c)
}

pub(crate) fn nibble_char(n: u8) -> (c: char)
    requires
        n < 16,
    ensures
        c == hex_digit(n as nat),
{
    match n {
        0 => '0',
        1 => '1',
        2 => '2',
        3 => '3',
        4 => '4',
        5 => '5',
        6 => '6',
        7 => '7',
        8 => '8',
        9 => '9',
        10 => 'a',
        11 => 'b',
        12 => 'c',
        13 => 'd',
        14 => 'e',
        _ => 'f',
    }
}

/// Lower-case hex encoding of `b`.
pub fn to_hex(b: &[u8]) -> (r: String)
    ensures
        r@ == hex_of(b@),
{
    let mut r = String::new();
    let mut i: usize = 0;
    while i < b.len()
        invariant
            i <= b@.len(),
            r@ == hex_of(b@.take(i as int)),
        decreases b@.len() - i,
    {
        let x = b[i];
        push_char(&mut r, nibble_char(x / 16));
        push_char(&mut r, nibble_char(x % 16));
        assert(b@.take(i + 1).drop_last() == b@.take(i as int));
        i = i + 1;
    }
    assert(b@.take(i as int) == b@);
    r
}

/// A character of the standard Base64 alphabet, padding included.
pub open spec fn is_b64_char(c: char) -> bool {
    ('A' <= c <= 'Z') || ('a' <= c <= 'z') || ('0' <= c <= '9') || c == '+' || c == '/' || c
        == '='
}

/// What base64ct's `Base64::encode_string` gives for `b`.
pub uninterp spec fn b64_encoded(b: Seq<u8>) -> Seq<char>;

/// What base64ct's `Base64::decode` gives for the bytes `s`, `None` where it refuses them.
pub uninterp spec fn b64_decoded(s: Seq<u8>) -> Option<Seq<u8>>;

/// Relies on base64ct's `Base64::encode_string` (standard alphabet, padded): its output
/// is made of alphabet characters and `Base64::decode` turns it back into `b`. It panics
/// only where four times the length overflows.
#[verifier::external_body]
pub(crate) fn b64_encode(b: &[u8]) -> (r: String)
    requires
        b@.len() <= usize::MAX / 4,
    ensures
        r@ == b64_encoded(b@),
        forall|i: int| 0 <= i < r@.len() ==> is_b64_char(#[trigger] r@[i]),
        b64_decoded(encode_utf8(r@)) == Some(b@),
{
    <base64ct::Base64 as base64ct::Encoding>::encode_string(b)
}

/// Relies on base64ct's `Base64::decode` (standard alphabet, padded, strict), given an
/// output buffer as long as the input, which is always enough.
#[verifier::external_body]
pub(crate) fn b64_decode(s: &[u8]) -> (r: Option<Vec<u8>>)
    ensures
        match r {
            Some(v) => b64_decoded(s@) == Some(v@),
            None => b64_decoded(s@) is None,
        },
{
    let mut out = vec![0u8; s.len()];
    <base64ct::Base64 as base64ct::Encoding>::decode(s, &mut out).ok().map(|d| d.to_vec())
}

/// Relies on `String::from_utf8`: it accepts exactly the valid UTF-8 byte strings.
#[verifier::external_body]
pub(crate) fn utf8_string(b: Vec<u8>) -> (r: Option<String>)
    ensures
        r is Some <==> valid_utf8(b@),
        r is Some ==> r->Some_0@ == decode_utf8(b@),
{
    String::from_utf8(b).ok()
}

/// The bytes of an ASCII text are its characters, one byte each.
pub proof fn lemma_ascii_bytes(s: Seq<char>)
    requires
        is_ascii_chars(s),
    ensures
        encode_utf8(s).len() == s.len(),
        forall|i: int| 0 <= i < s.len() ==> #[trigger] encode_utf8(s)[i] == s[i] as u8,
{
    is_ascii_chars_encode_utf8(s);
}

/// Base64 text is ASCII and holds no `:`.
pub proof fn lemma_b64_ascii(s: Seq<char>)
    requires
        forall|i: int| 0 <= i < s.len() ==> is_b64_char(#[trigger] s[i]),
    ensures
        is_ascii_chars(s),
        forall|i: int| 0 <= i < s.len() ==> #[trigger] s[i] != ':',
{
}

} // verus!
