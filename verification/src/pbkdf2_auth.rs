//! Password digests made with PBKDF2-HMAC-SHA256 (4096 rounds, the salt
//! `test`, 20 bytes), written in lowercase hexadecimal.
use vstd::prelude::*;
use vstd::utf8::encode_utf8;
use crate::text::str_eq;

verus! {

broadcast use vstd::string::group_string_axioms;

/// The first `N` bytes that PBKDF2 with HMAC-SHA256 derives.
pub uninterp spec fn pbkdf2_sha256(password: Seq<u8>, salt: Seq<u8>, rounds: u32, n: nat) -> Seq<u8>;

/// `pbkdf2::pbkdf2_hmac_array::<sha2::Sha256, 20>`.
#[verifier::external_body]
fn pbkdf2_sha256_20(password: &[u8], salt: &[u8], rounds: u32) -> (key: [u8; 20])
    ensures
        key@ == pbkdf2_sha256(password@, salt@, rounds, 20),
{
    pbkdf2::pbkdf2_hmac_array::<sha2::Sha256, 20>(password, salt, rounds)
}

/// The lowercase hexadecimal digit of a value below 16.
pub open spec fn hex_digit(v: u8) -> char {
    if v < 10 {
        ((v + 48) as u8) as char
    } else {
        ((v + 87) as u8) as char
    }
}

/// Two lowercase hexadecimal digits per byte, the high one first.
pub open spec fn hex_lower(bytes: Seq<u8>) -> Seq<char>
    decreases bytes.len(),
{
    if bytes.len() == 0 {
        Seq::empty()
    } else {
        hex_lower(bytes.drop_last()) + seq![
            hex_digit(bytes.last() / 16),
            hex_digit(bytes.last() % 16),
        ]
    }
}

/// `hex::encode`: two lowercase hexadecimal digits per byte.
#[verifier::external_body]
fn hex_encode(bytes: &[u8]) -> (s: String)
    ensures
        s@ == hex_lower(bytes@),
{
    hex::encode(bytes)
}

/// The salt: the bytes of `test`.
pub open spec fn digest_salt() -> Seq<u8> {
    seq![116u8, 101u8, 115u8, 116u8]
}

/// The digest of a password.
pub fn hash_password(password: &String) -> (digest: String)
    ensures
        digest@ == hex_lower(pbkdf2_sha256(encode_utf8(password@), digest_salt(), 4096, 20)),
{
    let salt: Vec<u8> = vec![116u8, 101u8, 115u8, 116u8];
    assert(salt@ =~= digest_salt());
    let key = pbkdf2_sha256_20(password.as_str().as_bytes(), salt.as_slice(), 4096);
    hex_encode(&key)
}

/// Whether `password` has the stored digest.
pub fn password_matches(stored: &str, password: &String) -> (b: bool)
    ensures
        b == (stored@ == hex_lower(pbkdf2_sha256(encode_utf8(password@), digest_salt(), 4096, 20))),
{
    let digest = hash_password(password);
    str_eq(stored, digest.as_str())
}

} // verus!
