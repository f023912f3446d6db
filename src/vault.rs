//! Password-derived keys and authenticated encryption of single text fields.
//!
//! A field is sealed with AES-256-GCM under a fresh random 12-byte nonce and
//! written as `base64(nonce) ":" base64(ciphertext ‖ tag)`.
use vstd::prelude::*;
use vstd::slice::slice_subrange;
use vstd::string::*;
use vstd::utf8::*;

use crate::codec::{
    b64_decode, b64_decoded, b64_encode, b64_encoded, is_b64_char, lemma_ascii_bytes,
    lemma_b64_ascii, utf8_string,
};

verus! {

/// Length of a derived key in bytes.
pub const KEY_LENGTH: usize = 32;

/// Length of a key-derivation salt in bytes.
pub const SALT_LENGTH: usize = 16;

/// Length of an AES-GCM nonce in bytes.
pub const NONCE_LENGTH: usize = 12;

/// Longest plaintext that AES-GCM accepts, in bytes.
pub const MAX_PLAINTEXT: u64 = 0x10_0000_0000;

/// The byte value of `:`.
pub const COLON: u8 = 58;

/// What argon2's `Argon2::hash_password_into` writes for this password and salt with
/// Argon2id, version 0x13, the crate's default costs and an output of `len` bytes.
pub uninterp spec fn argon2id_key(password: Seq<u8>, salt: Seq<u8>, len: nat) -> Seq<u8>;

/// What aes-gcm's `Aes256Gcm::encrypt` gives for this key, nonce and plaintext with no
/// associated data: the ciphertext followed by the 16-byte tag.
pub uninterp spec fn aes_gcm_sealed(key: Seq<u8>, nonce: Seq<u8>, plaintext: Seq<u8>) -> Seq<u8>;

/// What aes-gcm's `Aes256Gcm::decrypt` gives for this key, nonce and sealed text with no
/// associated data, `None` where the tag does not match.
pub uninterp spec fn aes_gcm_opened(key: Seq<u8>, nonce: Seq<u8>, sealed: Seq<u8>) -> Option<
    Seq<u8>,
>;

/// Relies on argon2's `Params::new` and `Argon2::hash_password_into`. With the default
/// costs and an output length from 4 to 2^32 - 1, `Params::new` succeeds; with a password
/// of at most 2^32 - 1 bytes and a salt of 8 to 2^32 - 1 bytes, so does the hash.
#[verifier::external_body]
fn argon2id(password: &[u8], salt: &[u8], len: usize) -> (r: Vec<u8>)
    requires
        password@.len() <= u32::MAX,
        8 <= salt@.len() <= u32::MAX,
        4 <= len <= u32::MAX,
    ensures
        r@ == argon2id_key(password@, salt@, len as nat),
        r@.len() == len,
{
    let params = argon2::Params::new(
        argon2::Params::DEFAULT_M_COST,
        argon2::Params::DEFAULT_T_COST,
        argon2::Params::DEFAULT_P_COST,
        Some(len),
    ).unwrap();
    let hasher = argon2::Argon2::new(argon2::Algorithm::Argon2id, argon2::Version::V0x13, params);
    let mut out = vec![0u8; len];
    hasher.hash_password_into(password, salt, &mut out).unwrap();
    out
}

/// Relies on aes-gcm's `Aes256Gcm::encrypt`: it refuses a plaintext over 2^36 bytes and
/// otherwise returns the ciphertext and tag, 16 bytes longer than the plaintext, which
/// `Aes256Gcm::decrypt` under the same key and nonce turns back into the plaintext.
#[verifier::external_body]
fn aes_gcm_seal(key: &[u8], nonce: &[u8], plaintext: &[u8]) -> (r: Option<Vec<u8>>)
    requires
        key@.len() == 32,
        nonce@.len() == 12,
    ensures
        r is None <==> plaintext@.len() > MAX_PLAINTEXT,
        r is Some ==> r->Some_0@ == aes_gcm_sealed(key@, nonce@, plaintext@),
        r is Some ==> r->Some_0@.len() == plaintext@.len() + 16,
        r is Some ==> aes_gcm_opened(key@, nonce@, r->Some_0@) == Some(plaintext@),
{
    let cipher = <aes_gcm::Aes256Gcm as aes_gcm::aead::KeyInit>::new(
        aes_gcm::Key::<aes_gcm::Aes256Gcm>::from_slice(key),
    );
    let nonce = aes_gcm::Nonce::from_slice(nonce);
    <aes_gcm::Aes256Gcm as aes_gcm::aead::Aead>::encrypt(&cipher, nonce, plaintext).ok()
}

/// Relies on aes-gcm's `Aes256Gcm::decrypt`. It returns a plaintext only when the tag
/// matches. A plaintext it returns that `encrypt` accepts (at most 2^36 bytes; decrypt
/// allows 16 bytes more) is one that `encrypt` seals into `sealed`.
#[verifier::external_body]
fn aes_gcm_open(key: &[u8], nonce: &[u8], sealed: &[u8]) -> (r: Option<Vec<u8>>)
    requires
        key@.len() == 32,
        nonce@.len() == 12,
    ensures
        match r {
            Some(p) => aes_gcm_opened(key@, nonce@, sealed@) == Some(p@),
            None => aes_gcm_opened(key@, nonce@, sealed@) is None,
        },
        r is Some && r->Some_0@.len() <= MAX_PLAINTEXT ==> aes_gcm_sealed(
            key@,
            nonce@,
            r->Some_0@,
        ) == sealed@,
{
    let cipher = <aes_gcm::Aes256Gcm as aes_gcm::aead::KeyInit>::new(
        aes_gcm::Key::<aes_gcm::Aes256Gcm>::from_slice(key),
    );
    let nonce = aes_gcm::Nonce::from_slice(nonce);
    <aes_gcm::Aes256Gcm as aes_gcm::aead::Aead>::decrypt(&cipher, nonce, sealed).ok()
}

/// Relies on rand_core's `OsRng`, as aes-gcm re-exports it: `len` bytes from the
/// operating system's secure generator. Nothing is known of their values.
#[verifier::external_body]
pub(crate) fn random_bytes(len: usize) -> (r: Vec<u8>)
    ensures
        r@.len() == len,
{
    let mut out = vec![0u8; len];
    aes_gcm::aead::rand_core::RngCore::fill_bytes(&mut aes_gcm::aead::OsRng, &mut out);
    out
}

/// Why a vault operation failed.
#[derive(Debug, Clone, Copy, PartialEq, Eq, Structural)]
pub enum VaultError {
    /// The salt is not Base64 of exactly `SALT_LENGTH` bytes.
    BadSalt,
    /// The password is longer than the key derivation accepts.
    PasswordTooLong,
    /// The plaintext is longer than AES-GCM or the encoding accepts.
    TooLong,
    /// The field is malformed, or its tag does not match under this key.
    Decryption,
}

/// A plaintext length, in bytes, that a field can hold.
pub open spec fn fits_field(n: nat) -> bool {
    n <= MAX_PLAINTEXT && n + 16 <= usize::MAX / 4
}

/// A password length, in bytes, that the key derivation accepts.
pub open spec fn fits_password(n: nat) -> bool {
    n <= u32::MAX
}

/// `i` is the position of the first `:` in `e`.
pub open spec fn colon_at(e: Seq<u8>, i: int) -> bool {
    0 <= i < e.len() && e[i] == COLON && forall|j: int| 0 <= j < i ==> e[j] != COLON
}

/// The position of the first `:` in `e`, if there is one.
pub open spec fn first_colon(e: Seq<u8>) -> Option<int> {
    if exists|i: int| colon_at(e, i) {
        Some(choose|i: int| colon_at(e, i))
    } else {
        None
    }
}

/// The text that the encoded field `e` (its UTF-8 bytes) holds under `key`: `None` when
/// there is no `:`, either side is not Base64, the nonce is not 12 bytes, the tag does
/// not match, or the plaintext is not UTF-8.
pub open spec fn field_plaintext(key: Seq<u8>, e: Seq<u8>) -> Option<Seq<char>> {
    match first_colon(e) {
        None => None,
        Some(i) => match (b64_decoded(e.take(i)), b64_decoded(e.skip(i + 1))) {
            (Some(nonce), Some(sealed)) => {
                if nonce.len() != NONCE_LENGTH {
                    None
                } else {
                    match aes_gcm_opened(key, nonce, sealed) {
                        Some(p) => if valid_utf8(p) {
                            Some(decode_utf8(p))
                        } else {
                            None
                        },
                        None => None,
                    }
                }
            },
            _ => None,
        },
    }
}

/// `e` holds Base64 of a nonce and of exactly what AES-GCM seals `plaintext` into
/// under `key` and that nonce.
pub open spec fn field_authentic(key: Seq<u8>, e: Seq<u8>, plaintext: Seq<char>) -> bool {
    match first_colon(e) {
        None => false,
        Some(i) => match (b64_decoded(e.take(i)), b64_decoded(e.skip(i + 1))) {
            (Some(nonce), Some(sealed)) => aes_gcm_sealed(key, nonce, encode_utf8(plaintext))
                == sealed,
            _ => false,
        },
    }
}

/// Key derivation depends on the password and the salt alone: equal inputs give equal
/// keys.
pub proof fn lemma_derive_key_deterministic(
    password1: Seq<u8>,
    salt1: Seq<u8>,
    password2: Seq<u8>,
    salt2: Seq<u8>,
)
    requires
        password1 == password2,
        salt1 == salt2,
    ensures
        argon2id_key(password1, salt1, KEY_LENGTH as nat) == argon2id_key(
            password2,
            salt2,
            KEY_LENGTH as nat,
        ),
{
}

/// `after` is `before` with its key derived from `password` and its salt.
pub open spec fn filled_from(after: KeyData, before: KeyData, password: Seq<char>) -> bool {
    after.salt() == before.salt() && after.key() == argon2id_key(
        encode_utf8(password),
        before.salt(),
        KEY_LENGTH as nat,
    )
}

/// Two keys filled from equal passwords over equal salts end up with equal bytes,
/// whatever they held before.
pub proof fn lemma_filled_keys_agree(
    a_before: KeyData,
    a_after: KeyData,
    password_a: Seq<char>,
    b_before: KeyData,
    b_after: KeyData,
    password_b: Seq<char>,
)
    requires
        a_before.salt() == b_before.salt(),
        password_a == password_b,
        filled_from(a_after, a_before, password_a),
        filled_from(b_after, b_before, password_b),
    ensures
        a_after.key() == b_after.key(),
        a_after.salt() == b_after.salt(),
{
}

/// The encoded field for `plaintext` sealed under `key` with `nonce`.
pub open spec fn field_encoding(key: Seq<u8>, nonce: Seq<u8>, plaintext: Seq<char>) -> Seq<char> {
    b64_encoded(nonce) + seq![':'] + b64_encoded(aes_gcm_sealed(key, nonce, encode_utf8(plaintext)))
}

/// `f` is Base64 text, one `:`, and Base64 text that decodes to `sealed`.
pub open spec fn field_parts(f: Seq<char>, n64: Seq<char>, s64: Seq<char>, sealed: Seq<u8>) -> bool {
    &&& f == n64 + seq![':'] + s64
    &&& forall|i: int| 0 <= i < n64.len() ==> is_b64_char(#[trigger] n64[i])
    &&& forall|i: int| 0 <= i < s64.len() ==> is_b64_char(#[trigger] s64[i])
    &&& b64_decoded(encode_utf8(s64)) == Some(sealed)
}

/// The position of the first `:` in `e`.
fn find_colon(e: &[u8]) -> (r: Option<usize>)
    ensures
        match r {
            Some(i) => i < e@.len() && first_colon(e@) == Some(i as int),
            None => first_colon(e@) is None,
        },
{
    let mut i: usize = 0;
    while i < e.len()
        invariant
            i <= e@.len(),
            forall|j: int| 0 <= j < i ==> e@[j] != COLON,
        decreases e@.len() - i,
    {
        if e[i] == COLON {
            assert(colon_at(e@, i as int));
            proof {
                let k = choose|k: int| colon_at(e@, k);
                assert(k == i);
            }
            return Some(i);
        }
        i = i + 1;
    }
    assert(!exists|k: int| colon_at(e@, k));
    None
}

/// A password-derived key and the salt it was derived with. `wipe` sets its bytes to
/// zero, and `new_from` zeroes the value it takes them from; dropping it does not.
pub struct KeyData {
    key: Vec<u8>,
    salt: Vec<u8>,
}

impl KeyData {
    /// The key bytes.
    pub closed spec fn key(&self) -> Seq<u8> {
        self.key@
    }

    /// The salt bytes.
    pub closed spec fn salt(&self) -> Seq<u8> {
        self.salt@
    }

    /// The salt, to be recorded beside what this key seals.
    pub fn salt_bytes(&self) -> (r: &[u8])
        ensures
            r@ == self.salt(),
    {
        self.salt.as_slice()
    }

    /// A key of `KEY_LENGTH` bytes with a salt of `SALT_LENGTH` bytes.
    pub open spec fn wf(&self) -> bool {
        self.key().len() == KEY_LENGTH && self.salt().len() == SALT_LENGTH
    }

    /// A zero key with the salt whose Base64 is `b64salt`.
    pub fn new_with_salt(b64salt: &str) -> (r: Result<Self, VaultError>)
        ensures
            match r {
                Ok(kd) => kd.wf() && Some(kd.salt()) == b64_decoded(b64salt.spec_bytes())
                    && kd.key() == Seq::new(KEY_LENGTH as nat, |i: int| 0u8),
                Err(e) => e == VaultError::BadSalt && !(b64_decoded(b64salt.spec_bytes()) is Some
                    && b64_decoded(b64salt.spec_bytes())->Some_0.len() == SALT_LENGTH),
            },
    {
        match b64_decode(b64salt.as_bytes()) {
            Some(salt) => match KeyData::with_salt(salt) {
                Some(kd) => Ok(kd),
                None => Err(VaultError::BadSalt),
            },
            None => Err(VaultError::BadSalt),
        }
    }

    /// A zero key with a fresh random salt.
    pub fn new() -> (r: Self)
        ensures
            r.wf(),
            r.key() == Seq::new(KEY_LENGTH as nat, |i: int| 0u8),
    {
        let drawn = random_bytes(SALT_LENGTH);
        KeyData::with_salt(drawn).unwrap()
    }

    /// A zero key with the salt `salt`, if it is `SALT_LENGTH` bytes long.
    pub fn with_salt(salt: Vec<u8>) -> (r: Option<Self>)
        ensures
            r is Some <==> salt@.len() == SALT_LENGTH,
            r is Some ==> r->Some_0.wf() && r->Some_0.salt() == salt@ && r->Some_0.key()
                == Seq::new(KEY_LENGTH as nat, |i: int| 0u8),
    {
        if salt.len() == SALT_LENGTH {
            let kd = KeyData { key: vec![0u8; KEY_LENGTH], salt };
            assert(kd.key() =~= Seq::new(KEY_LENGTH as nat, |i: int| 0u8));
            Some(kd)
        } else {
            None
        }
    }

    /// Moves the key and salt of `input` into a new value and zeroes `input`.
    pub fn new_from(input: &mut KeyData) -> (r: Self)
        ensures
            r.key() == old(input).key(),
            r.salt() == old(input).salt(),
            final(input).key() == Seq::new(old(input).key().len(), |i: int| 0u8),
            final(input).salt() == Seq::new(old(input).salt().len(), |i: int| 0u8),
    {
        let kd = KeyData { key: input.key.clone(), salt: input.salt.clone() };
        input.wipe();
        kd
    }

    /// Sets every byte of the key and the salt to zero.
    pub fn wipe(&mut self)
        ensures
            final(self).key() == Seq::new(old(self).key().len(), |i: int| 0u8),
            final(self).salt() == Seq::new(old(self).salt().len(), |i: int| 0u8),
    {
        zero_bytes(&mut self.key);
        zero_bytes(&mut self.salt);
    }

    /// Derives the key from `password` and the salt with Argon2id.
    pub fn fill_from_password(&mut self, password: &str)
        requires
            old(self).wf(),
            fits_password(password.spec_bytes().len()),
        ensures
            final(self).wf(),
            final(self).salt() == old(self).salt(),
            final(self).key() == argon2id_key(password.spec_bytes(), old(self).salt(), KEY_LENGTH as nat),
            filled_from(*final(self), *old(self), password@),
    {
        let derived = argon2id(password.as_bytes(), self.salt.as_slice(), KEY_LENGTH);
        self.key = derived;
    }

    /// Seals `plaintext` under a fresh random nonce. The result opens again to `plaintext`
    /// under this key.
    pub fn encrypt_string(&self, plaintext: &str) -> (r: Result<String, VaultError>)
        requires
            self.wf(),
        ensures
            r is Err <==> !fits_field(plaintext.spec_bytes().len()),
            r is Err ==> r->Err_0 == VaultError::TooLong,
            r is Ok ==> exists|nonce: Seq<u8>|
                nonce.len() == NONCE_LENGTH && r->Ok_0@ == #[trigger] field_encoding(
                    self.key(),
                    nonce,
                    plaintext@,
                ),
            r is Ok ==> field_plaintext(self.key(), encode_utf8(r->Ok_0@)) == Some(plaintext@),
            r is Ok ==> exists|n64: Seq<char>, s64: Seq<char>, sealed: Seq<u8>|
                #[trigger] field_parts(r->Ok_0@, n64, s64, sealed) && sealed.len()
                    == plaintext.spec_bytes().len() + 16,
    {
        let nonce = random_bytes(NONCE_LENGTH);
        self.seal_field(nonce.as_slice(), plaintext)
    }

    /// Seals `plaintext` under `nonce` and writes the field as
    /// `base64(nonce) ":" base64(ciphertext ‖ tag)`. The result opens again to `plaintext`
    /// under this key. A nonce must never be used twice with one key: `encrypt_string`
    /// draws a fresh one for every field.
    pub fn seal_field(&self, nonce: &[u8], plaintext: &str) -> (r: Result<String, VaultError>)
        requires
            self.wf(),
            nonce@.len() == NONCE_LENGTH,
        ensures
            r is Err <==> !fits_field(plaintext.spec_bytes().len()),
            r is Err ==> r->Err_0 == VaultError::TooLong,
            r is Ok ==> r->Ok_0@ == field_encoding(self.key(), nonce@, plaintext@),
            r is Ok ==> field_plaintext(self.key(), encode_utf8(r->Ok_0@)) == Some(plaintext@),
            r is Ok ==> exists|n64: Seq<char>, s64: Seq<char>, sealed: Seq<u8>|
                #[trigger] field_parts(r->Ok_0@, n64, s64, sealed) && sealed.len()
                    == plaintext.spec_bytes().len() + 16,
    {
        let pt = plaintext.as_bytes();
        let sealed = aes_gcm_seal(self.key.as_slice(), nonce, pt);
        match sealed {
            None => Err(VaultError::TooLong),
            Some(sealed) => {
                if sealed.len() > usize::MAX / 4 {
                    return Err(VaultError::TooLong);
                }
                let n64 = b64_encode(nonce);
                let s64 = b64_encode(sealed.as_slice());
                let mut out = n64;
                out.append(":");
                out.append(s64.as_str());
                proof {
                    reveal_strlit(":");
                    assert(out@ =~= field_encoding(self.key(), nonce@, plaintext@));
                    lemma_field_opens(self.key(), nonce@, plaintext@, sealed@, n64@, s64@);
                    assert(field_parts(out@, n64@, s64@, sealed@));
                }
                Ok(out)
            },
        }
    }

    /// The text that the encoded field `encoded` holds under this key.
    pub fn decrypt_string(&self, encoded: &str) -> (r: Result<String, VaultError>)
        requires
            self.wf(),
        ensures
            r is Ok && encode_utf8(r->Ok_0@).len() <= MAX_PLAINTEXT ==> field_authentic(
                self.key(),
                encoded.spec_bytes(),
                r->Ok_0@,
            ),
            match r {
                Ok(s) => field_plaintext(self.key(), encoded.spec_bytes()) == Some(s@),
                Err(e) => e == VaultError::Decryption && field_plaintext(
                    self.key(),
                    encoded.spec_bytes(),
                ) is None,
            },
    {
        let e = encoded.as_bytes();
        let len = e.len();
        let i = match find_colon(e) {
            Some(i) => i,
            None => return Err(VaultError::Decryption),
        };
        let nonce_part = slice_subrange(e, 0, i);
        let sealed_part = slice_subrange(e, i + 1, len);
        assert(nonce_part@ == e@.take(i as int));
        assert(sealed_part@ == e@.skip(i + 1));
        let nonce = match b64_decode(nonce_part) {
            Some(n) => n,
            None => return Err(VaultError::Decryption),
        };
        let sealed = match b64_decode(sealed_part) {
            Some(c) => c,
            None => return Err(VaultError::Decryption),
        };
        if nonce.len() != NONCE_LENGTH {
            return Err(VaultError::Decryption);
        }
        let opened = match aes_gcm_open(self.key.as_slice(), nonce.as_slice(), sealed.as_slice()) {
            Some(p) => p,
            None => return Err(VaultError::Decryption),
        };
        let ghost p = opened@;
        match utf8_string(opened) {
            Some(s) => {
                proof {
                    decode_utf8_encode_utf8(p);
                }
                Ok(s)
            },
            None => Err(VaultError::Decryption),
        }
    }
}

fn zero_bytes(v: &mut Vec<u8>)
    ensures
        final(v)@ == Seq::new(old(v)@.len(), |i: int| 0u8),
{
    let mut i: usize = 0;
    while i < v.len()
        invariant
            i <= v@.len(),
            v@.len() == old(v)@.len(),
            forall|j: int| 0 <= j < i ==> v@[j] == 0u8,
        decreases v@.len() - i,
    {
        v[i] = 0;
        i = i + 1;
    }
    assert(v@ =~= Seq::new(old(v)@.len(), |i: int| 0u8));
}

/// The encoded field made from `n64` and `s64`, the Base64 of a nonce and of what the
/// plaintext seals to, opens again to the plaintext.
proof fn lemma_field_opens(
    key: Seq<u8>,
    nonce: Seq<u8>,
    plaintext: Seq<char>,
    sealed: Seq<u8>,
    n64: Seq<char>,
    s64: Seq<char>,
)
    requires
        nonce.len() == NONCE_LENGTH,
        n64 == b64_encoded(nonce),
        s64 == b64_encoded(sealed),
        forall|i: int| 0 <= i < n64.len() ==> is_b64_char(#[trigger] n64[i]),
        forall|i: int| 0 <= i < s64.len() ==> is_b64_char(#[trigger] s64[i]),
        b64_decoded(encode_utf8(n64)) == Some(nonce),
        b64_decoded(encode_utf8(s64)) == Some(sealed),
        aes_gcm_opened(key, nonce, sealed) == Some(encode_utf8(plaintext)),
    ensures
        field_plaintext(key, encode_utf8(n64 + seq![':'] + s64)) == Some(plaintext),
{
    let whole = n64 + seq![':'] + s64;
    lemma_b64_ascii(n64);
    lemma_b64_ascii(s64);
    assert(is_ascii_chars(whole));
    lemma_ascii_bytes(whole);
    lemma_ascii_bytes(n64);
    lemma_ascii_bytes(s64);
    let e = encode_utf8(whole);
    let i = n64.len() as int;
    assert(e[i] == COLON) by {
        assert(whole[i] == ':');
    }
    assert forall|j: int| 0 <= j < i implies e[j] != COLON by {
        assert(whole[j] == n64[j]);
        assert(n64[j] != ':');
        assert(n64[j] <= '\u{7f}');
    }
    assert(colon_at(e, i));
    let k = choose|k: int| colon_at(e, k);
    assert(k == i);
    assert(e.take(i) =~= encode_utf8(n64));
    assert(e.skip(i + 1) =~= encode_utf8(s64));
    encode_utf8_valid_utf8(plaintext);
    encode_utf8_decode_utf8(plaintext);
}

} // verus!
