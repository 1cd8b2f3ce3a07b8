use chat_pipeline::encryption::{
    convert_to_string, convert_to_utf, decrypt, decrypt_string, encrypt, encrypt_string,
};
use rand::rngs::OsRng;
use rsa::{RsaPrivateKey, RsaPublicKey};

fn generate_keys() -> (RsaPrivateKey, RsaPublicKey) {
    let mut rng = OsRng;
    // 1024-bit keys keep key generation within the per-test time budget;
    // OAEP over SHA-256 still leaves 62 bytes of room for the test messages.
    let bits = 1024;
    let priv_key = RsaPrivateKey::new(&mut rng, bits).expect("Key Generation");
    let pub_key = RsaPublicKey::from(&priv_key);
    (priv_key, pub_key)
}

#[test]
fn test_encrypt() {
    let (_priv, pubk) = generate_keys();
    let message = b"Encrypt Test Message";
    let encrypted = encrypt(message, &pubk).expect("encryption failed");
    assert_ne!(&encrypted[..], &message[..]);
}

#[test]
fn test_decrypt() {
    let (privk, pubk) = generate_keys();
    let message = b"Decrypt Test Message";
    let encrypted = encrypt(message, &pubk).expect("encryption failed");
    let decrypted = decrypt(&encrypted, &privk).expect("decryption failed");
    assert_eq!(&decrypted[..], &message[..]);
}

#[test]
fn test_string_to_byte() {
    let s = String::from("byte test");
    let bytes = convert_to_utf(&s);
    assert_eq!(bytes, vec![98, 121, 116, 101, 32, 116, 101, 115, 116]);
}

#[test]
fn test_byte_to_string() {
    let bytes = vec![114, 117, 115, 116];
    let s = convert_to_string(&bytes);
    assert_eq!(s, "rust");
}

#[test]
fn test_string_encrypt() {
    let (_privk, pubk) = generate_keys();
    let message = "String Encrypt";
    let encrypted = encrypt_string(&message.to_string(), &pubk).expect("encryption failed");
    assert_ne!(&encrypted[..], message.as_bytes());
}

#[test]
fn test_string_decrypt() {
    let (privk, pubk) = generate_keys();
    let message = "String Decrypt";
    let encrypted = encrypt_string(&message.to_string(), &pubk).expect("encryption failed");
    let decrypted_str = decrypt_string(&encrypted, &privk).expect("decryption failed");
    assert_eq!(decrypted_str, message);
}

#[test]
fn test_round_trip_preserves_unicode() {
    let s = String::from("caf\u{e9} \u{2603}");
    let bytes = convert_to_utf(&s);
    assert!(bytes.len() > s.chars().count());
    let back = convert_to_string(&bytes);
    assert_eq!(back, s);
}

#[test]
fn test_convert_empty() {
    let bytes = convert_to_utf("");
    assert!(bytes.is_empty());
    let s = convert_to_string(&bytes);
    assert!(s.is_empty());
}
