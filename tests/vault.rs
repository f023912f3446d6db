use base64ct::{Base64, Encoding};
use worker::codec::to_hex;
use worker::vault::{KeyData, VaultError};

const SALT: &str = "AAECAwQFBgcICQoLDA0ODw==";
const OTHER_SALT: &str = "DwAODQwLCgkIBwYFBAMCAQ==";

fn key(password: &str, salt: &str) -> KeyData {
    let mut kd = KeyData::new_with_salt(salt).unwrap();
    kd.fill_from_password(password);
    kd
}

#[test]
fn derived_key_opens_field_sealed_elsewhere() {
    // Sealed with AES-256-GCM under the Argon2id key for ("p", bytes 0..16).
    let kd = key("p", SALT);
    let field = "AAECAwQFBgcICQoL:ROaxHGNhbmkYhom0ektebhgz2PIyh0JSj5hssQA=";
    assert_eq!(kd.decrypt_string(field).unwrap(), "héllo wörld");
}

#[test]
fn derive_key_is_deterministic() {
    let a = key("correct horse", SALT);
    let b = key("correct horse", SALT);
    let field = a.encrypt_string("same key").unwrap();
    assert_eq!(b.decrypt_string(&field).unwrap(), "same key");
}

#[test]
fn different_salts_give_different_keys() {
    let a = key("correct horse", SALT);
    let b = key("correct horse", OTHER_SALT);
    let field = a.encrypt_string("salted").unwrap();
    assert_eq!(b.decrypt_string(&field), Err(VaultError::Decryption));
}

#[test]
fn field_round_trip() {
    let kd = key("pw", SALT);
    for m in ["", "a", "AKIA1", "host.example", "пароль ✓", "with:colons:inside"] {
        let field = kd.encrypt_string(m).unwrap();
        assert_eq!(field.matches(':').count(), 1);
        let sealed = Base64::decode_vec(field.split_once(':').unwrap().1).unwrap();
        assert_eq!(sealed.len(), m.len() + 16);
        assert_eq!(kd.decrypt_string(&field).unwrap(), m);
    }
}

#[test]
fn fresh_nonce_for_each_field() {
    let kd = key("pw", SALT);
    let a = kd.encrypt_string("same").unwrap();
    let b = kd.encrypt_string("same").unwrap();
    assert_ne!(a, b);
    let nonce = a.split(':').next().unwrap();
    assert_eq!(Base64::decode_vec(nonce).unwrap().len(), 12);
}

#[test]
fn wrong_key_fails() {
    let kd = key("pw", SALT);
    let wrong = key("pw2", SALT);
    let field = kd.encrypt_string("secret").unwrap();
    assert_eq!(wrong.decrypt_string(&field), Err(VaultError::Decryption));
}

#[test]
fn flipped_bit_fails() {
    let kd = key("p", SALT);
    let flipped = "AAECAwQFBgcICQoL:ReaxHGNhbmkYhom0ektebhgz2PIyh0JSj5hssQA=";
    assert_eq!(kd.decrypt_string(flipped), Err(VaultError::Decryption));
    let field = kd.encrypt_string("secret").unwrap();
    let (nonce, sealed) = field.split_once(':').unwrap();
    let mut bytes = Base64::decode_vec(sealed).unwrap();
    for i in [0usize, bytes.len() - 1] {
        bytes[i] ^= 0x01;
        let tampered = format!("{}:{}", nonce, Base64::encode_string(&bytes));
        assert_eq!(kd.decrypt_string(&tampered), Err(VaultError::Decryption));
        bytes[i] ^= 0x01;
    }
}

#[test]
fn malformed_field_fails() {
    let kd = key("pw", SALT);
    assert_eq!(kd.decrypt_string("bad:bad"), Err(VaultError::Decryption));
    assert_eq!(kd.decrypt_string("no separator"), Err(VaultError::Decryption));
    assert_eq!(kd.decrypt_string(""), Err(VaultError::Decryption));
    assert_eq!(kd.decrypt_string(":"), Err(VaultError::Decryption));
    // A nonce of the wrong length.
    assert_eq!(kd.decrypt_string("AAEC:AAECAwQFBgcICQoLDA0ODw=="), Err(VaultError::Decryption));
}

#[test]
fn bad_salt_is_refused() {
    assert!(matches!(KeyData::new_with_salt("not base64!"), Err(VaultError::BadSalt)));
    assert!(matches!(KeyData::new_with_salt("AAECAw=="), Err(VaultError::BadSalt)));
    assert!(KeyData::new_with_salt(SALT).is_ok());
}

#[test]
fn new_from_moves_and_zeroes() {
    let mut kd = key("pw", SALT);
    let field = kd.encrypt_string("moved").unwrap();
    let moved = KeyData::new_from(&mut kd);
    assert_eq!(moved.decrypt_string(&field).unwrap(), "moved");
    assert_eq!(kd.salt_bytes(), &[0u8; 16][..]);
    assert_eq!(kd.decrypt_string(&field), Err(VaultError::Decryption));
}

#[test]
fn random_salts_differ() {
    let a = KeyData::new();
    let b = KeyData::new();
    assert_eq!(a.salt_bytes().len(), 16);
    assert_ne!(a.salt_bytes(), b.salt_bytes());
}

#[test]
fn hex_encoding() {
    assert_eq!(to_hex(&[0x00, 0x0f, 0xa5, 0xff]), "000fa5ff");
    assert_eq!(to_hex(&[]), "");
}

#[test]
fn seal_field_with_given_nonce() {
    let kd = key("p", SALT);
    let nonce: Vec<u8> = (0u8..12).collect();
    let field = kd.seal_field(&nonce, "héllo wörld").unwrap();
    assert_eq!(field, "AAECAwQFBgcICQoL:ROaxHGNhbmkYhom0ektebhgz2PIyh0JSj5hssQA=");
    assert_eq!(kd.decrypt_string(&field).unwrap(), "héllo wörld");
}

#[test]
fn with_salt_takes_exact_length() {
    let salt: Vec<u8> = (0u8..16).collect();
    let mut kd = KeyData::with_salt(salt.clone()).unwrap();
    assert_eq!(kd.salt_bytes(), &salt[..]);
    kd.fill_from_password("p");
    let field = "AAECAwQFBgcICQoL:ROaxHGNhbmkYhom0ektebhgz2PIyh0JSj5hssQA=";
    assert_eq!(kd.decrypt_string(field).unwrap(), "héllo wörld");
    assert!(KeyData::with_salt(vec![0u8; 15]).is_none());
    assert!(KeyData::with_salt(vec![0u8; 17]).is_none());
}
