//! Cloud credentials in memory, and their encrypted form for storage.
use vstd::prelude::*;
use vstd::string::*;
use vstd::utf8::*;

use crate::codec::{b64_decoded, b64_encode, b64_encoded};
use crate::vault::{fits_field, field_plaintext, KeyData, VaultError};

verus! {

/// Credentials for the backend endpoint. They live only in memory and are never
/// written out as they are.
#[derive(Debug)]
pub struct AwsCreds {
    pub lambda_host: String,
    pub key_id: String,
    pub access_key: String,
}

/// Credentials as they are stored: the Base64 salt of the key that sealed them, and
/// each field sealed on its own.
#[derive(Debug)]
pub struct AwsCredsEncrypted {
    pub salt: String,
    pub lambda_host: String,
    pub key_id: String,
    pub access_key: String,
}

/// The three fields of plaintext credentials, as characters: host, key id, secret key.
pub type CredsView = (Seq<char>, Seq<char>, Seq<char>);

impl AwsCreds {
    pub open spec fn view(&self) -> CredsView {
        (self.lambda_host@, self.key_id@, self.access_key@)
    }

    /// Every field is short enough to be sealed.
    pub open spec fn fits(&self) -> bool {
        fits_field(encode_utf8(self.lambda_host@).len()) && fits_field(
            encode_utf8(self.key_id@).len(),
        ) && fits_field(encode_utf8(self.access_key@).len())
    }

    /// Gathers the three fields.
    pub fn create_and_save(lambda_host: String, key_id: String, access_key: String) -> (r: Self)
        ensures
            r.lambda_host == lambda_host,
            r.key_id == key_id,
            r.access_key == access_key,
    {
        AwsCreds { lambda_host, key_id, access_key }
    }

    /// Seals each field under `key_data` with its own nonce and records the salt.
    pub fn try_encrypt(&self, key_data: &KeyData) -> (r: Result<AwsCredsEncrypted, VaultError>)
        requires
            key_data.wf(),
        ensures
            r is Err <==> !self.fits(),
            r is Err ==> r->Err_0 == VaultError::TooLong,
            r is Ok ==> r->Ok_0.salt@ == b64_encoded(key_data.salt()),
            r is Ok ==> b64_decoded(encode_utf8(r->Ok_0.salt@)) == Some(key_data.salt()),
            r is Ok ==> bundle_plaintext(key_data.key(), r->Ok_0) == Some(self.view()),
    {
        let key_id = match key_data.encrypt_string(self.key_id.as_str()) {
            Ok(f) => f,
            Err(e) => return Err(e),
        };
        let access_key = match key_data.encrypt_string(self.access_key.as_str()) {
            Ok(f) => f,
            Err(e) => return Err(e),
        };
        let lambda_host = match key_data.encrypt_string(self.lambda_host.as_str()) {
            Ok(f) => f,
            Err(e) => return Err(e),
        };
        let salt = b64_encode(key_data.salt_bytes());
        Ok(AwsCredsEncrypted { salt, lambda_host, key_id, access_key })
    }
}

/// The plaintext credentials that `b` holds under `key`, if every field opens.
pub open spec fn bundle_plaintext(key: Seq<u8>, b: AwsCredsEncrypted) -> Option<CredsView> {
    match (
        field_plaintext(key, encode_utf8(b.lambda_host@)),
        field_plaintext(key, encode_utf8(b.key_id@)),
        field_plaintext(key, encode_utf8(b.access_key@)),
    ) {
        (Some(h), Some(k), Some(a)) => Some((h, k, a)),
        _ => None,
    }
}

impl AwsCredsEncrypted {
    /// Opens every field under `key_data`; fails as a whole if any field fails.
    pub fn try_decrypt(&self, key_data: &KeyData) -> (r: Result<AwsCreds, VaultError>)
        requires
            key_data.wf(),
        ensures
            match r {
                Ok(c) => bundle_plaintext(key_data.key(), *self) == Some(c.view()),
                Err(e) => e == VaultError::Decryption && bundle_plaintext(key_data.key(), *self) is None,
            },
    {
        let key_id = match key_data.decrypt_string(self.key_id.as_str()) {
            Ok(f) => f,
            Err(e) => return Err(e),
        };
        let access_key = match key_data.decrypt_string(self.access_key.as_str()) {
            Ok(f) => f,
            Err(e) => return Err(e),
        };
        let lambda_host = match key_data.decrypt_string(self.lambda_host.as_str()) {
            Ok(f) => f,
            Err(e) => return Err(e),
        };
        Ok(AwsCreds { key_id, access_key, lambda_host })
    }
}

} // verus!
