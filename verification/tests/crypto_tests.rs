use aes_gcm::aead::Aead;
use aes_gcm::KeyInit;
use base64::Engine;
use blockwallet::crypto::{
    create_transaction_payload, decrypt_private_key, encrypt_private_key,
    encrypt_private_key_with_nonce, export_private_key_pem, export_public_key_pem,
    generate_keypair, generate_wallet_id, import_private_key_pem, import_public_key_pem,
    sha256_hash, sign_data, signing_digest, verify_signature, wallet_id_of_pem, CryptoError,
};

const PRIME_A: [&str; 4] = [
    "d7677b9e5090355382329b81f6a45afeeb9dd7f0bf7d2e5f646d1dbd14afbdc8",
    "f3af550522ef15f4eaa0bc4759ad38069dc53c2aca39d63fa70326b0055ff41a",
    "10d9c039fe1eada36affb08e79a05008ffaaf98eb46fed239bfc46e5aba4efb8",
    "03eeb144278b177cfec606168b1381b4d39e28d25773f70f5f95cff38ea4c447",
];
const PRIME_B: [&str; 4] = [
    "babfd103732cbf0bc595174c45c5e05e75bd81dd467ebabeca9103fc1a73768e",
    "bed1ce542287019a94c3189c807eafed632d9df6570028167a134207e20ca52b",
    "0683373dbff005ce4fdaa62ba582088ab93461cae082087c91e7074a1c2fe861",
    "b5480bf3a568b9ff678d153f4ef3b53d0d10a437e25d6b40b2a2ccb85bdcb001",
];
const PRIME_C: [&str; 4] = [
    "dd44a815407e4fe28d21e686174bf18d024fd64ab276550eb260525f8953af44",
    "7ffc97c97e4109789ba34ca4a478af5dd945a7292c5f80e81ee6d6ddc1a98794",
    "ab544681608549ceff0c659d0af6417422010efd44b59f23ce931c9f03d0c679",
    "779bf8112d2535be138620667eaa4987db8791b67f2e38c3e40a2f935669955f",
];
const PRIME_D: [&str; 4] = [
    "d46fe3d7193389df1b862517233a82c280d11f2fb0a7dd857190130c29b498ca",
    "12cd50f5bba0649dfadae350c7e5a803088875252e647f5fe44f3044862d0bc6",
    "5d555c2600bc5d76f8ce88383213efcf08fde793962ddff3aeb1a7bb7019da1c",
    "99a96b6c02338dda7e994fe99ee836160a4aa29f5352b2c3793c8445334fc34d",
];

fn number(parts: &[&str]) -> rsa::BigUint {
    rsa::BigUint::parse_bytes(parts.concat().as_bytes(), 16).unwrap()
}

fn keypair_from(p: &[&str], q: &[&str]) -> (rsa::RsaPrivateKey, rsa::RsaPublicKey) {
    let private_key =
        rsa::RsaPrivateKey::from_p_q(number(p), number(q), rsa::BigUint::from(65537u32)).unwrap();
    let public_key = rsa::RsaPublicKey::from(&private_key);
    (private_key, public_key)
}

/// A key pair of 2048 bits that is the same on every run.
fn stored_keypair() -> (rsa::RsaPrivateKey, rsa::RsaPublicKey) {
    keypair_from(&PRIME_A, &PRIME_B)
}

/// Another key pair of 2048 bits.
fn other_keypair() -> (rsa::RsaPrivateKey, rsa::RsaPublicKey) {
    keypair_from(&PRIME_C, &PRIME_D)
}

#[test]
fn test_keypair_generation() {
    let result = generate_keypair();
    assert!(result.is_ok());
}

#[test]
fn test_wallet_id_generation() {
    let (_, public_key) = stored_keypair();
    let wallet_id = generate_wallet_id(&public_key).unwrap();
    assert_eq!(wallet_id.len(), 64); // SHA-256 produces 64 hex characters
}

#[test]
fn test_signature_verification() {
    let (private_key, public_key) = stored_keypair();
    let data = "test transaction data";

    let signature = sign_data(&private_key, data).unwrap();
    let is_valid = verify_signature(&public_key, data, &signature).unwrap();

    assert!(is_valid);
}

#[test]
fn test_signature_verification_fails_with_wrong_data() {
    let (private_key, public_key) = stored_keypair();
    let data = "test transaction data";
    let wrong_data = "wrong transaction data";

    let signature = sign_data(&private_key, data).unwrap();
    let is_valid = verify_signature(&public_key, wrong_data, &signature).unwrap();

    assert!(!is_valid);
}

#[test]
fn test_private_key_encryption_decryption() {
    let (private_key, _) = stored_keypair();
    let private_key_pem = export_private_key_pem(&private_key).unwrap();

    let aes_key: [u8; 32] = rand::random();

    let encrypted = encrypt_private_key(&private_key_pem, &aes_key).unwrap();
    let decrypted = decrypt_private_key(&encrypted, &aes_key).unwrap();

    assert_eq!(private_key_pem, decrypted);
}

#[test]
fn test_sha256_hash() {
    let data = b"hello world";
    let hash = sha256_hash(data);
    assert_eq!(hash.len(), 64);

    // Hash should be deterministic
    let hash2 = sha256_hash(data);
    assert_eq!(hash, hash2);
}

#[test]
fn sha256_hash_of_known_texts() {
    assert_eq!(
        sha256_hash(b"hello world"),
        "b94d27b9934d3e08a52e52d7da7dabfac484efe37a5380ee9088f7ace2efcde9"
    );
    assert_eq!(
        sha256_hash(b""),
        "e3b0c44298fc1c149afbf4c8996fb92427ae41e4649b934ca495991b7852b855"
    );
    assert_eq!(
        sha256_hash(b"abc"),
        "ba7816bf8f01cfea414140de5dae2223b00361a396177a9cb410ff61f20015ad"
    );
}

#[test]
fn signing_digest_is_the_raw_digest() {
    let digest = signing_digest("abc");
    assert_eq!(digest.len(), 32);
    assert_eq!(digest[0], 0xba);
    assert_eq!(digest[1], 0x78);
    assert_eq!(digest[31], 0xad);
}

#[test]
fn signing_a_payload_and_verifying_it() {
    let (private_key, public_key) = stored_keypair();
    let (_, other_public_key) = other_keypair();
    let payload = create_transaction_payload("A", "B", 1_000_000_000, 1700000000, &None);
    assert_eq!(payload, "A|B|10|1700000000|");

    let signature = sign_data(&private_key, &payload).unwrap();
    assert!(verify_signature(&public_key, &payload, &signature).unwrap());
    assert!(!verify_signature(&other_public_key, &payload, &signature).unwrap());
    assert!(!verify_signature(&public_key, "A|B|11|1700000000|", &signature).unwrap());
}

#[test]
fn a_signature_is_lower_case_hexadecimal_of_the_key_size() {
    let (private_key, _) = stored_keypair();
    let signature = sign_data(&private_key, "data").unwrap();
    assert_eq!(signature.len(), 512);
    assert!(signature.chars().all(|c| c.is_ascii_digit() || ('a'..='f').contains(&c)));
    // the same key signs the same data to the same signature
    assert_eq!(signature, sign_data(&private_key, "data").unwrap());
}

#[test]
fn a_signature_that_is_not_hexadecimal_is_an_error() {
    let (_, public_key) = stored_keypair();
    for bad in ["xyz", "abc", "zz", "0g", "\u{e9}\u{e9}"] {
        match verify_signature(&public_key, "data", bad) {
            Err(CryptoError::VerificationError(msg)) => {
                assert!(msg.starts_with("Invalid hex signature: "))
            }
            other => panic!("unexpected: {:?}", other),
        }
    }
    // an even number of digits of either case is read, and does not match
    assert_eq!(verify_signature(&public_key, "data", "00FFab").unwrap(), false);
    assert_eq!(verify_signature(&public_key, "data", "").unwrap(), false);
}

#[test]
fn keys_go_through_pem() {
    let (private_key, public_key) = stored_keypair();
    let public_pem = export_public_key_pem(&public_key).unwrap();
    let private_pem = export_private_key_pem(&private_key).unwrap();
    // each stands between its opening and its closing line, with line feeds
    for (pem, kind) in [(&public_pem, "PUBLIC"), (&private_pem, "PRIVATE")] {
        assert!(pem.starts_with(&format!("-----BEGIN {} KEY-----\n", kind)));
        assert!(pem.ends_with(&format!("\n-----END {} KEY-----\n", kind)));
        assert!(!pem.contains('\r'));
    }

    let public_again = import_public_key_pem(&public_pem).unwrap();
    let private_again = import_private_key_pem(&private_pem).unwrap();
    assert_eq!(export_public_key_pem(&public_again).unwrap(), public_pem);
    assert_eq!(export_private_key_pem(&private_again).unwrap(), private_pem);

    let signature = sign_data(&private_again, "data").unwrap();
    assert!(verify_signature(&public_again, "data", &signature).unwrap());
}

#[test]
fn a_text_reads_as_a_key_or_does_not() {
    let (private_key, public_key) = stored_keypair();
    let public_pem = export_public_key_pem(&public_key).unwrap();
    let private_pem = export_private_key_pem(&private_key).unwrap();
    // the same text is read the same way every time
    for _ in 0..3 {
        assert!(import_public_key_pem(&public_pem).is_ok());
        assert!(import_private_key_pem(&private_pem).is_ok());
        assert!(import_public_key_pem(&private_pem).is_err());
        assert!(import_private_key_pem(&public_pem).is_err());
        assert!(import_public_key_pem("").is_err());
        assert!(import_private_key_pem("").is_err());
    }
    // a text that is cut short is no key
    let cut = &public_pem[..public_pem.len() - 30];
    assert!(matches!(import_public_key_pem(cut), Err(CryptoError::EncodingError(_))));
    // carriage returns are read, too
    assert!(import_public_key_pem(&public_pem.replace('\n', "\r\n")).is_ok());
}

#[test]
fn malformed_keys_are_encoding_errors() {
    assert!(matches!(import_public_key_pem("not a key"), Err(CryptoError::EncodingError(_))));
    assert!(matches!(import_private_key_pem("not a key"), Err(CryptoError::EncodingError(_))));
    let (_, public_key) = stored_keypair();
    let public_pem = export_public_key_pem(&public_key).unwrap();
    assert!(matches!(import_private_key_pem(&public_pem), Err(CryptoError::EncodingError(_))));
}

#[test]
fn the_wallet_id_is_the_hash_of_the_public_pem() {
    let (_, public_key) = stored_keypair();
    let pem = export_public_key_pem(&public_key).unwrap();
    let wallet_id = generate_wallet_id(&public_key).unwrap();
    assert_eq!(wallet_id, sha256_hash(pem.as_bytes()));
    assert_eq!(wallet_id, wallet_id_of_pem(&pem));
    assert_eq!(
        wallet_id_of_pem("abc"),
        "ba7816bf8f01cfea414140de5dae2223b00361a396177a9cb410ff61f20015ad"
    );
}

#[test]
fn a_master_key_of_the_wrong_length_is_refused() {
    match encrypt_private_key("pem", &[0u8; 31]) {
        Err(CryptoError::EncryptionError(msg)) => assert_eq!(msg, "AES key must be 32 bytes"),
        other => panic!("unexpected: {:?}", other),
    }
    match encrypt_private_key("pem", &[0u8; 33]) {
        Err(CryptoError::EncryptionError(msg)) => assert_eq!(msg, "AES key must be 32 bytes"),
        other => panic!("unexpected: {:?}", other),
    }
    match decrypt_private_key("AAAA", &[0u8; 16]) {
        Err(CryptoError::DecryptionError(msg)) => assert_eq!(msg, "AES key must be 32 bytes"),
        other => panic!("unexpected: {:?}", other),
    }
}

#[test]
fn a_blob_that_is_not_a_sealed_key_is_refused() {
    let key = [7u8; 32];
    match decrypt_private_key("not base64!", &key) {
        Err(CryptoError::DecryptionError(msg)) => assert!(msg.starts_with("Invalid base64: ")),
        other => panic!("unexpected: {:?}", other),
    }
    // eight bytes: shorter than a nonce
    match decrypt_private_key("AAAAAAAAAAA=", &key) {
        Err(CryptoError::DecryptionError(msg)) => assert_eq!(msg, "Invalid encrypted data"),
        other => panic!("unexpected: {:?}", other),
    }
    // a nonce and nothing that could hold a tag
    match decrypt_private_key("AAAAAAAAAAAAAAAA", &key) {
        Err(CryptoError::DecryptionError(msg)) => assert_eq!(msg, "Authentication failed"),
        other => panic!("unexpected: {:?}", other),
    }
    // sealed under another key
    let sealed = encrypt_private_key("secret", &key).unwrap();
    match decrypt_private_key(&sealed, &[8u8; 32]) {
        Err(CryptoError::DecryptionError(msg)) => assert_eq!(msg, "Authentication failed"),
        other => panic!("unexpected: {:?}", other),
    }
}

#[test]
fn sealing_with_a_given_nonce() {
    let key = [1u8; 32];
    let nonce = [2u8; 12];
    let sealed = encrypt_private_key_with_nonce("secret", &key, &nonce).unwrap();
    // the same key, nonce and text seal to the same blob
    assert_eq!(sealed, encrypt_private_key_with_nonce("secret", &key, &nonce).unwrap());
    // twelve bytes of nonce, six of text, sixteen of tag, in base64
    assert_eq!(sealed.len(), 48);
    // the nonce stands in front: sixteen characters of base64 for twelve bytes
    assert_eq!(&sealed[..16], "AgICAgICAgICAgIC");
    assert_eq!(decrypt_private_key(&sealed, &key).unwrap(), "secret");
    // another nonce gives another blob
    assert_ne!(sealed, encrypt_private_key_with_nonce("secret", &key, &[3u8; 12]).unwrap());
}

#[test]
fn each_sealing_draws_its_own_nonce() {
    let key = [1u8; 32];
    let a = encrypt_private_key("secret", &key).unwrap();
    let b = encrypt_private_key("secret", &key).unwrap();
    assert_ne!(a, b);
    assert_eq!(decrypt_private_key(&a, &key).unwrap(), "secret");
    assert_eq!(decrypt_private_key(&b, &key).unwrap(), "secret");
}

#[test]
fn a_sealed_text_that_is_not_utf8_is_refused() {
    let key = [1u8; 32];
    let nonce = [2u8; 12];
    let cipher = aes_gcm::Aes256Gcm::new(aes_gcm::Key::<aes_gcm::Aes256Gcm>::from_slice(&key));
    let sealed = cipher.encrypt(aes_gcm::Nonce::from_slice(&nonce), &[0xff, 0xfe][..]).unwrap();
    let mut blob = nonce.to_vec();
    blob.extend_from_slice(&sealed);
    let text = base64::engine::general_purpose::STANDARD.encode(&blob);
    match decrypt_private_key(&text, &key) {
        Err(CryptoError::DecryptionError(msg)) => assert!(msg.starts_with("Invalid UTF-8: ")),
        other => panic!("unexpected: {:?}", other),
    }
}

#[test]
fn the_payload_of_a_transfer() {
    assert_eq!(
        create_transaction_payload("A", "B", 1_000_000_000, 1700000000, &None),
        "A|B|10|1700000000|"
    );
    assert_eq!(
        create_transaction_payload("w1", "w2", 1_250_000_000, 5, &Some("rent".to_string())),
        "w1|w2|12.5|5|rent"
    );
    assert_eq!(
        create_transaction_payload("", "", 10_000_000, -3, &Some(String::new())),
        "||0.1|-3|"
    );
}

#[test]
fn crypto_errors_in_words() {
    assert_eq!(
        CryptoError::KeyGenerationError("x".to_string()).to_string(),
        "Key generation error: x"
    );
    assert_eq!(CryptoError::EncryptionError("x".to_string()).to_string(), "Encryption error: x");
    assert_eq!(CryptoError::DecryptionError("x".to_string()).to_string(), "Decryption error: x");
    assert_eq!(CryptoError::SignatureError("x".to_string()).to_string(), "Signature error: x");
    assert_eq!(
        CryptoError::VerificationError("x".to_string()).to_string(),
        "Verification error: x"
    );
    assert_eq!(CryptoError::EncodingError(String::new()).to_string(), "Encoding error: ");
}
