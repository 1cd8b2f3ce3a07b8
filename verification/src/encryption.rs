//! A point-to-point message-encryption capability: RSA-OAEP over SHA-256,
//! with helpers that move messages between strings and byte vectors. It is an
//! extension point for transport security and is not wired into the pipeline.
use vstd::prelude::*;
use vstd::slice::slice_to_vec;
use vstd::string::StringSliceAdditionalSpecFns;
use vstd::utf8::encode_utf8;

verus! {

/// An encryption or decryption failure reported by the cipher.
#[derive(Clone, Copy, PartialEq, Eq, Structural, Debug)]
pub enum CryptoError {
    Failed,
}

#[verifier::external_type_specification]
#[verifier::external_body]
pub struct ExRsaPublicKey(rsa::RsaPublicKey);

#[verifier::external_type_specification]
#[verifier::external_body]
pub struct ExRsaPrivateKey(rsa::RsaPrivateKey);

/// Converts a string to the vector of its UTF-8 bytes.
pub fn convert_to_utf(message: &str) -> (r: Vec<u8>)
    ensures
        r@ == message.spec_bytes(),
{
    slice_to_vec(message.as_bytes())
}

/// What decoding a byte sequence as UTF-8 yields once invalid sequences are
/// replaced; a function of the bytes alone, named but not written out.
pub uninterp spec fn lossy_decoded(bytes: Seq<u8>) -> Seq<char>;

/// Converts a vector of bytes to a string. Relies on
/// `String::from_utf8_lossy`: the result is a function of the bytes alone
/// (invalid UTF-8 becomes replacement characters), bytes that are the UTF-8
/// encoding of a string decode back to that string, and no bytes decode to
/// an empty string unless there are none.
#[verifier::external_body]
pub fn convert_to_string(message: &[u8]) -> (r: String)
    ensures
        r@ == lossy_decoded(message@),
        forall|s: Seq<char>| message@ == encode_utf8(s) ==> r@ == s,
        message@.len() == 0 <==> r@.len() == 0,
{
    String::from_utf8_lossy(message).to_string()
}

/// Encrypts a message from bytes using a public key. Relies on
/// `rsa::RsaPublicKey::encrypt` with OAEP/SHA-256 padding and operating
/// system randomness: the ciphertext is the size of the modulus, which must
/// exceed the message by the padding overhead of `2 + 2 * 32` bytes, and it
/// is randomized, so nothing more is promised of its value.
#[verifier::external_body]
pub fn encrypt(message: &[u8], public_key: &rsa::RsaPublicKey) -> (r: Result<Vec<u8>, CryptoError>)
    ensures
        r matches Ok(v) ==> v@.len() >= message@.len() + 66,
{
    let mut rng = rand::rngs::OsRng;
    let padding = rsa::Oaep::new::<sha2::Sha256>();
    match public_key.encrypt(&mut rng, padding, message) {
        Ok(v) => Ok(v),
        Err(_) => Err(CryptoError::Failed),
    }
}

/// Decrypts a message from bytes using a private key. Relies on
/// `rsa::RsaPrivateKey::decrypt` with OAEP/SHA-256 padding: the ciphertext
/// must be exactly the size of the modulus and the recovered plaintext is
/// shorter by at least the padding overhead of `2 + 2 * 32` bytes; the
/// plaintext depends on the opaque key, so nothing more is promised of its
/// value.
#[verifier::external_body]
pub fn decrypt(encrypted: &[u8], private_key: &rsa::RsaPrivateKey) -> (r: Result<
    Vec<u8>,
    CryptoError,
>)
    ensures
        r matches Ok(v) ==> v@.len() + 66 <= encrypted@.len(),
{
    let padding = rsa::Oaep::new::<sha2::Sha256>();
    match private_key.decrypt(padding, encrypted) {
        Ok(v) => Ok(v),
        Err(_) => Err(CryptoError::Failed),
    }
}

/// Encrypts a message from a `String` using a public key.
pub fn encrypt_string(message: &String, public_key: &rsa::RsaPublicKey) -> (r: Result<
    Vec<u8>,
    CryptoError,
>)
    ensures
        r matches Ok(v) ==> v@.len() >= encode_utf8(message@).len() + 66,
{
    encrypt(message.as_str().as_bytes(), public_key)
}

/// Decrypts a message from bytes using a private key and decodes the
/// plaintext, returning a `String`.
pub fn decrypt_string(encrypted: &[u8], private_key: &rsa::RsaPrivateKey) -> (r: Result<
    String,
    CryptoError,
>)
    ensures
        r matches Ok(s) ==> exists|b: Seq<u8>| s@ == lossy_decoded(b),
{
    match decrypt(encrypted, private_key) {
        Ok(decrypted_bytes) => {
            let s = convert_to_string(decrypted_bytes.as_slice());
            proof {
                assert(s@ == lossy_decoded(decrypted_bytes@));
            }
            Ok(s)
        },
        Err(e) => Err(e),
    }
}

} // verus!
