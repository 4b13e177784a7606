//! Hashing, signatures and the sealing of private keys.

use crate::models::text_view;
use crate::text::{amount_string, amount_text, decimal, push_decimal};
use aes_gcm::aead::Aead;
use aes_gcm::KeyInit;
use base64::Engine;
use rsa::pkcs8::{DecodePrivateKey, DecodePublicKey, EncodePrivateKey, EncodePublicKey};
use sha2::Digest;
use vstd::prelude::*;
use vstd::string::*;
use vstd::utf8::*;

verus! {

/// The SHA-256 digest of a byte string.
pub uninterp spec fn sha256(data: Seq<u8>) -> Seq<u8>;

/// One hexadecimal digit in lower case.
pub open spec fn hex_digit(v: int) -> char {
    if v == 0 {
        '0'
    } else if v == 1 {
        '1'
    } else if v == 2 {
        '2'
    } else if v == 3 {
        '3'
    } else if v == 4 {
        '4'
    } else if v == 5 {
        '5'
    } else if v == 6 {
        '6'
    } else if v == 7 {
        '7'
    } else if v == 8 {
        '8'
    } else if v == 9 {
        '9'
    } else if v == 10 {
        'a'
    } else if v == 11 {
        'b'
    } else if v == 12 {
        'c'
    } else if v == 13 {
        'd'
    } else if v == 14 {
        'e'
    } else {
        'f'
    }
}

/// Bytes in lower-case hexadecimal, two digits for each byte, the high half
/// first.
pub open spec fn hex_text(bytes: Seq<u8>) -> Seq<char> {
    Seq::new(
        2 * bytes.len(),
        |i: int|
            if i % 2 == 0 {
                hex_digit(bytes[i / 2] as int / 16)
            } else {
                hex_digit(bytes[i / 2] as int % 16)
            },
    )
}

/// The value of a hexadecimal digit given as an ASCII byte, in either case.
pub open spec fn hex_value(b: u8) -> Option<int> {
    if 48 <= b <= 57 {
        Some(b - 48)
    } else if 97 <= b <= 102 {
        Some(b - 97 + 10)
    } else if 65 <= b <= 70 {
        Some(b - 65 + 10)
    } else {
        None
    }
}

/// Whether `text` is an even number of hexadecimal digits.
pub open spec fn is_hex(text: Seq<u8>) -> bool {
    text.len() % 2 == 0 && forall|i: int| 0 <= i < text.len() ==> hex_value(#[trigger] text[i]) is Some
}

/// The bytes that an even number of hexadecimal digits stands for.
pub open spec fn hex_bytes(text: Seq<u8>) -> Seq<u8> {
    Seq::new(
        text.len() / 2,
        |i: int| (16 * hex_value(text[2 * i])->0 + hex_value(text[2 * i + 1])->0) as u8,
    )
}

/// The error of `hex::decode`, carried through to its text.
#[verifier::external_type_specification]
#[verifier::external_body]
pub struct ExFromHexError(hex::FromHexError);

/// `sha2::Sha256::digest`: the SHA-256 digest of `data`, which has 32 bytes.
#[verifier::external_body]
fn sha256_digest(data: &[u8]) -> (digest: Vec<u8>)
    ensures
        digest@ == sha256(data@),
        digest@.len() == 32,
{
    sha2::Sha256::digest(data).to_vec()
}

/// `hex::encode`: each byte as two lower-case hexadecimal digits.
#[verifier::external_body]
fn hex_encode(bytes: &[u8]) -> (text: String)
    ensures
        text@ == hex_text(bytes@),
{
    hex::encode(bytes)
}

/// `hex::decode`: succeeds on an even number of hexadecimal digits of either
/// case, and then gives the byte of each pair.
#[verifier::external_body]
fn hex_decode(text: &[u8]) -> (bytes: Result<Vec<u8>, hex::FromHexError>)
    ensures
        bytes is Ok <==> is_hex(text@),
        bytes is Ok ==> bytes->Ok_0@ == hex_bytes(text@),
{
    hex::decode(text)
}

/// The SHA-256 digest of `data` in lower-case hexadecimal.
pub open spec fn sha256_hex(data: Seq<u8>) -> Seq<char> {
    hex_text(sha256(data))
}

/// Hashes `data` with SHA-256 and writes the digest in hexadecimal.
pub fn sha256_hash(data: &[u8]) -> (hash: String)
    ensures
        hash@ == sha256_hex(data@),
        hash@.len() == 64,
{
    let digest = sha256_digest(data);
    hex_encode(digest.as_slice())
}

/// Bits in the modulus of a generated key.
pub const KEY_SIZE: usize = 2048;

/// Bytes in the master key that seals private keys.
pub const AES_KEY_SIZE: usize = 32;

/// Bytes in the nonce that is drawn for each sealing and stands in front of
/// the ciphertext.
pub const NONCE_SIZE: usize = 12;

/// What went wrong in the crypto layer, with the reason in words.
#[derive(Debug)]
pub enum CryptoError {
    KeyGenerationError(String),
    EncryptionError(String),
    DecryptionError(String),
    SignatureError(String),
    VerificationError(String),
    EncodingError(String),
}

impl CryptoError {
    /// The words that introduce the reason of each kind of error.
    pub open spec fn label(self) -> Seq<char> {
        match self {
            CryptoError::KeyGenerationError(_) => "Key generation error: "@,
            CryptoError::EncryptionError(_) => "Encryption error: "@,
            CryptoError::DecryptionError(_) => "Decryption error: "@,
            CryptoError::SignatureError(_) => "Signature error: "@,
            CryptoError::VerificationError(_) => "Verification error: "@,
            CryptoError::EncodingError(_) => "Encoding error: "@,
        }
    }

    /// The reason that the error carries.
    pub open spec fn reason(self) -> Seq<char> {
        match self {
            CryptoError::KeyGenerationError(msg) => msg@,
            CryptoError::EncryptionError(msg) => msg@,
            CryptoError::DecryptionError(msg) => msg@,
            CryptoError::SignatureError(msg) => msg@,
            CryptoError::VerificationError(msg) => msg@,
            CryptoError::EncodingError(msg) => msg@,
        }
    }

    /// The error as one line of text: its kind, then its reason.
    pub fn to_string(&self) -> (text: String)
        ensures
            text@ == self.label() + self.reason(),
    {
        let (label, msg) = match self {
            CryptoError::KeyGenerationError(msg) => ("Key generation error: ", msg),
            CryptoError::EncryptionError(msg) => ("Encryption error: ", msg),
            CryptoError::DecryptionError(msg) => ("Decryption error: ", msg),
            CryptoError::SignatureError(msg) => ("Signature error: ", msg),
            CryptoError::VerificationError(msg) => ("Verification error: ", msg),
            CryptoError::EncodingError(msg) => ("Encoding error: ", msg),
        };
        let mut text = label.to_owned();
        text.append(msg.as_str());
        text
    }
}

/// An RSA private key of the `rsa` crate, carried through.
#[verifier::external_type_specification]
#[verifier::external_body]
pub struct ExRsaPrivateKey(rsa::RsaPrivateKey);

/// An RSA public key of the `rsa` crate, carried through.
#[verifier::external_type_specification]
#[verifier::external_body]
pub struct ExRsaPublicKey(rsa::RsaPublicKey);

/// The error of the `rsa` crate, carried through to its text.
#[verifier::external_type_specification]
#[verifier::external_body]
pub struct ExRsaError(rsa::Error);

/// The error of reading and writing PKCS#8, carried through to its text.
#[verifier::external_type_specification]
#[verifier::external_body]
pub struct ExPkcs8Error(rsa::pkcs8::Error);

/// The error of reading and writing public keys, carried through to its text.
#[verifier::external_type_specification]
#[verifier::external_body]
pub struct ExSpkiError(rsa::pkcs8::spki::Error);

/// The error of AES-GCM, carried through to its text.
#[verifier::external_type_specification]
#[verifier::external_body]
pub struct ExAeadError(aes_gcm::Error);

/// The error of reading base64, carried through to its text.
#[verifier::external_type_specification]
#[verifier::external_body]
pub struct ExBase64DecodeError(base64::DecodeError);

/// The error of `String::from_utf8`, carried through to its text.
#[verifier::external_type_specification]
#[verifier::external_body]
pub struct ExFromUtf8Error(std::string::FromUtf8Error);

/// How many bits the modulus of a private key has.
pub uninterp spec fn modulus_bits(private_key: rsa::RsaPrivateKey) -> nat;

/// The public key that belongs to a private key.
pub uninterp spec fn public_half(private_key: rsa::RsaPrivateKey) -> rsa::RsaPublicKey;

/// A public key as PEM text with line feeds, or nothing where the `rsa`
/// crate cannot encode it.
pub uninterp spec fn public_key_pem(public_key: rsa::RsaPublicKey) -> Option<Seq<char>>;

/// A private key as PKCS#8 PEM text with line feeds, or nothing where the
/// `rsa` crate cannot encode it.
pub uninterp spec fn private_key_pem(private_key: rsa::RsaPrivateKey) -> Option<Seq<char>>;

/// The public key that the `rsa` crate reads from PEM text, or nothing where
/// the text is no PEM document of a public key that the crate accepts.
pub uninterp spec fn public_key_read(pem: Seq<char>) -> Option<rsa::RsaPublicKey>;

/// The private key that the `rsa` crate reads from PKCS#8 PEM text, or
/// nothing where the text is no PEM document of a private key that the crate
/// accepts.
pub uninterp spec fn private_key_read(pem: Seq<char>) -> Option<rsa::RsaPrivateKey>;

/// The PKCS#1 v1.5 signature of a private key over a digest, with nothing in
/// front of the digest, or nothing where the `rsa` crate cannot sign it.
pub uninterp spec fn rsa_signed(private_key: rsa::RsaPrivateKey, digest: Seq<u8>) -> Option<
    Seq<u8>,
>;

/// Whether a public key accepts `signature` as a PKCS#1 v1.5 signature over
/// `digest`, with nothing in front of the digest.
pub uninterp spec fn rsa_accepts(
    public_key: rsa::RsaPublicKey,
    digest: Seq<u8>,
    signature: Seq<u8>,
) -> bool;

/// The line that opens a PEM document of the kind `label`, with its line
/// feed.
pub open spec fn pem_opening(label: Seq<char>) -> Seq<char> {
    "-----BEGIN "@ + label + "-----\n"@
}

/// The line that closes a PEM document of the kind `label`, with its line
/// feed.
pub open spec fn pem_closing(label: Seq<char>) -> Seq<char> {
    "-----END "@ + label + "-----\n"@
}

/// Whether `text` stands in the frame of a PEM document of the kind `label`
/// with line feeds: it starts with the opening line and ends, after it, with
/// the closing line.
pub open spec fn is_pem_framed(text: Seq<char>, label: Seq<char>) -> bool {
    &&& pem_opening(label).is_prefix_of(text)
    &&& pem_closing(label).is_suffix_of(text)
    &&& pem_opening(label).len() + pem_closing(label).len() <= text.len()
}

/// The kind of PEM document that holds a public key.
pub open spec fn public_key_label() -> Seq<char> {
    "PUBLIC KEY"@
}

/// The kind of PEM document that holds a private key in PKCS#8.
pub open spec fn private_key_label() -> Seq<char> {
    "PRIVATE KEY"@
}

/// `rsa::RsaPrivateKey::new` with the operating system's random numbers: a
/// fresh private key whose modulus has `bit_size` bits, or the crate's
/// error. Which key it is, is not known. The sizes are those for which the
/// crate makes keys and accepts them.
#[verifier::external_body]
fn rsa_generate(bit_size: usize) -> (key: Result<rsa::RsaPrivateKey, rsa::Error>)
    requires
        64 <= bit_size <= 4096,
    ensures
        key is Ok ==> modulus_bits(key->Ok_0) == bit_size,
{
    rsa::RsaPrivateKey::new(&mut rand::rngs::OsRng, bit_size)
}

/// `rsa::RsaPublicKey::from`: the public half of a private key.
#[verifier::external_body]
fn rsa_public_half(private_key: &rsa::RsaPrivateKey) -> (public_key: rsa::RsaPublicKey)
    ensures
        public_key == public_half(*private_key),
{
    rsa::RsaPublicKey::from(private_key)
}

/// `EncodePublicKey::to_public_key_pem` with line feeds: where the key can be
/// encoded, the encoding in base64 between the opening and the closing line
/// of a public key.
#[verifier::external_body]
fn rsa_public_to_pem(public_key: &rsa::RsaPublicKey) -> (pem: Result<
    String,
    rsa::pkcs8::spki::Error,
>)
    ensures
        match pem {
            Ok(text) => public_key_pem(*public_key) == Some(text@),
            Err(_) => public_key_pem(*public_key) is None,
        },
        pem is Ok ==> is_pem_framed(pem->Ok_0@, public_key_label()),
{
    public_key.to_public_key_pem(rsa::pkcs8::LineEnding::LF)
}

/// `EncodePrivateKey::to_pkcs8_pem` with line feeds: where the key can be
/// encoded, the encoding in base64 between the opening and the closing line
/// of a private key.
#[verifier::external_body]
fn rsa_private_to_pem(private_key: &rsa::RsaPrivateKey) -> (pem: Result<
    String,
    rsa::pkcs8::Error,
>)
    ensures
        match pem {
            Ok(text) => private_key_pem(*private_key) == Some(text@),
            Err(_) => private_key_pem(*private_key) is None,
        },
        pem is Ok ==> is_pem_framed(pem->Ok_0@, private_key_label()),
{
    private_key.to_pkcs8_pem(rsa::pkcs8::LineEnding::LF).map(|pem| pem.to_string())
}

/// `DecodePublicKey::from_public_key_pem`: the key that the text holds, which
/// the text alone decides.
#[verifier::external_body]
fn rsa_public_from_pem(pem: &str) -> (key: Result<rsa::RsaPublicKey, rsa::pkcs8::spki::Error>)
    ensures
        match key {
            Ok(read) => public_key_read(pem@) == Some(read),
            Err(_) => public_key_read(pem@) is None,
        },
{
    rsa::RsaPublicKey::from_public_key_pem(pem)
}

/// `DecodePrivateKey::from_pkcs8_pem`: the key that the text holds, which the
/// text alone decides.
#[verifier::external_body]
fn rsa_private_from_pem(pem: &str) -> (key: Result<rsa::RsaPrivateKey, rsa::pkcs8::Error>)
    ensures
        match key {
            Ok(read) => private_key_read(pem@) == Some(read),
            Err(_) => private_key_read(pem@) is None,
        },
{
    rsa::RsaPrivateKey::from_pkcs8_pem(pem)
}

/// `rsa::RsaPrivateKey::sign` with PKCS#1 v1.5 padding and no digest prefix:
/// the signature over `digest`, which key and digest alone decide, or the
/// crate's error. The crate checks each signature against the public
/// exponent before it returns it, so the public half of the key accepts it.
#[verifier::external_body]
fn rsa_sign(private_key: &rsa::RsaPrivateKey, digest: &[u8]) -> (signature: Result<
    Vec<u8>,
    rsa::Error,
>)
    ensures
        match signature {
            Ok(raw) => rsa_signed(*private_key, digest@) == Some(raw@),
            Err(_) => rsa_signed(*private_key, digest@) is None,
        },
        signature is Ok ==> rsa_accepts(public_half(*private_key), digest@, signature->Ok_0@),
{
    private_key.sign(rsa::Pkcs1v15Sign::new_unprefixed(), digest)
}

/// `rsa::RsaPublicKey::verify` with PKCS#1 v1.5 padding and no digest prefix:
/// `Ok` where the key accepts `signature` as one over `digest`.
#[verifier::external_body]
fn rsa_verify(public_key: &rsa::RsaPublicKey, digest: &[u8], signature: &[u8]) -> (verdict:
    Result<(), rsa::Error>)
    ensures
        verdict is Ok <==> rsa_accepts(*public_key, digest@, signature@),
{
    public_key.verify(rsa::Pkcs1v15Sign::new_unprefixed(), digest, signature)
}

/// What AES-256-GCM makes of a plaintext under a key and a nonce, with no
/// associated data: the ciphertext with its tag, or nothing where the cipher
/// refuses the plaintext.
pub uninterp spec fn aes256_gcm_sealed(key: Seq<u8>, nonce: Seq<u8>, plaintext: Seq<u8>) -> Option<
    Seq<u8>,
>;

/// What AES-256-GCM recovers from a ciphertext with its tag under a key and a
/// nonce, with no associated data: the plaintext, or nothing where the tag
/// does not match.
pub uninterp spec fn aes256_gcm_opened(key: Seq<u8>, nonce: Seq<u8>, ciphertext: Seq<u8>) -> Option<
    Seq<u8>,
>;

/// Bytes in base64, standard alphabet, padded.
pub uninterp spec fn base64_text(bytes: Seq<u8>) -> Seq<char>;

/// The bytes that a padded base64 text of the standard alphabet stands for,
/// or nothing where the text is not such a text.
pub uninterp spec fn base64_bytes(text: Seq<char>) -> Option<Seq<u8>>;

/// `Aead::encrypt` of `aes_gcm::Aes256Gcm`: the ciphertext followed by its tag
/// of 16 bytes, which the same key and nonce open again to the plaintext.
#[verifier::external_body]
fn aes256_gcm_encrypt(key: &[u8], nonce: &[u8], plaintext: &[u8]) -> (sealed: Result<
    Vec<u8>,
    aes_gcm::Error,
>)
    requires
        key@.len() == 32,
        nonce@.len() == 12,
    ensures
        sealed is Ok <==> aes256_gcm_sealed(key@, nonce@, plaintext@) is Some,
        sealed is Ok ==> aes256_gcm_sealed(key@, nonce@, plaintext@) == Some(sealed->Ok_0@),
        sealed is Ok ==> sealed->Ok_0@.len() == plaintext@.len() + 16,
        sealed is Ok ==> aes256_gcm_opened(key@, nonce@, sealed->Ok_0@) == Some(plaintext@),
{
    let cipher = aes_gcm::Aes256Gcm::new(aes_gcm::Key::<aes_gcm::Aes256Gcm>::from_slice(key));
    cipher.encrypt(aes_gcm::Nonce::from_slice(nonce), plaintext)
}

/// `Aead::decrypt` of `aes_gcm::Aes256Gcm`.
#[verifier::external_body]
fn aes256_gcm_decrypt(key: &[u8], nonce: &[u8], ciphertext: &[u8]) -> (opened: Result<
    Vec<u8>,
    aes_gcm::Error,
>)
    requires
        key@.len() == 32,
        nonce@.len() == 12,
    ensures
        opened is Ok <==> aes256_gcm_opened(key@, nonce@, ciphertext@) is Some,
        opened is Ok ==> aes256_gcm_opened(key@, nonce@, ciphertext@) == Some(opened->Ok_0@),
{
    let cipher = aes_gcm::Aes256Gcm::new(aes_gcm::Key::<aes_gcm::Aes256Gcm>::from_slice(key));
    cipher.decrypt(aes_gcm::Nonce::from_slice(nonce), ciphertext)
}

/// `rand::random`: twelve random bytes.
#[verifier::external_body]
fn random_nonce() -> (nonce: Vec<u8>)
    ensures
        nonce@.len() == 12,
{
    rand::random::<[u8; 12]>().to_vec()
}

/// Draws a nonce for one sealing: twelve random bytes.
pub fn new_nonce() -> (nonce: Vec<u8>)
    ensures
        nonce@.len() == NONCE_SIZE,
{
    random_nonce()
}

/// Whether the base64 text of `n` bytes has a length that fits in `usize`.
pub open spec fn base64_fits(n: nat) -> bool {
    n / 3 * 4 + 4 <= usize::MAX
}

/// `Engine::encode` of `base64::engine::general_purpose::STANDARD`: the text
/// of the bytes, which reads back as the bytes.
#[verifier::external_body]
fn base64_encode(bytes: &[u8]) -> (text: String)
    requires
        base64_fits(bytes@.len()),
    ensures
        text@ == base64_text(bytes@),
        base64_bytes(text@) == Some(bytes@),
{
    base64::engine::general_purpose::STANDARD.encode(bytes)
}

/// `Engine::decode` of `base64::engine::general_purpose::STANDARD`.
#[verifier::external_body]
fn base64_decode(text: &str) -> (bytes: Result<Vec<u8>, base64::DecodeError>)
    ensures
        bytes is Ok <==> base64_bytes(text@) is Some,
        bytes is Ok ==> base64_bytes(text@) == Some(bytes->Ok_0@),
{
    base64::engine::general_purpose::STANDARD.decode(text)
}

/// `String::from_utf8`: the text that the bytes encode, where they are valid
/// UTF-8.
#[verifier::external_body]
fn string_from_utf8(bytes: Vec<u8>) -> (text: Result<String, std::string::FromUtf8Error>)
    ensures
        text is Ok <==> valid_utf8(bytes@),
        text is Ok ==> text->Ok_0@ == decode_utf8(bytes@),
{
    String::from_utf8(bytes)
}

/// Generates an RSA key pair of `KEY_SIZE` bits: a private key whose modulus
/// has that many bits, and the public key that belongs to it. A failure of
/// the generation is a key-generation error.
pub fn generate_keypair() -> (pair: Result<(rsa::RsaPrivateKey, rsa::RsaPublicKey), CryptoError>)
    ensures
        pair is Ok ==> {
            &&& modulus_bits(pair->Ok_0.0) == KEY_SIZE
            &&& pair->Ok_0.1 == public_half(pair->Ok_0.0)
        },
        pair is Err ==> pair->Err_0 is KeyGenerationError,
{
    match rsa_generate(KEY_SIZE) {
        Ok(private_key) => {
            let public_key = rsa_public_half(&private_key);
            Ok((private_key, public_key))
        },
        Err(e) => Err(CryptoError::KeyGenerationError(e.to_string())),
    }
}

/// Writes a public key as PEM text with line feeds: its encoding between the
/// opening and the closing line of a public key. A key that cannot be
/// encoded is an encoding error.
pub fn export_public_key_pem(public_key: &rsa::RsaPublicKey) -> (pem: Result<String, CryptoError>)
    ensures
        match public_key_pem(*public_key) {
            Some(text) => pem is Ok && pem->Ok_0@ == text,
            None => pem is Err && pem->Err_0 is EncodingError,
        },
        pem is Ok ==> is_pem_framed(pem->Ok_0@, public_key_label()),
{
    match rsa_public_to_pem(public_key) {
        Ok(pem) => Ok(pem),
        Err(e) => Err(CryptoError::EncodingError(e.to_string())),
    }
}

/// Writes a private key as PKCS#8 PEM text with line feeds: its encoding
/// between the opening and the closing line of a private key. A key that
/// cannot be encoded is an encoding error.
pub fn export_private_key_pem(private_key: &rsa::RsaPrivateKey) -> (pem: Result<
    String,
    CryptoError,
>)
    ensures
        match private_key_pem(*private_key) {
            Some(text) => pem is Ok && pem->Ok_0@ == text,
            None => pem is Err && pem->Err_0 is EncodingError,
        },
        pem is Ok ==> is_pem_framed(pem->Ok_0@, private_key_label()),
{
    match rsa_private_to_pem(private_key) {
        Ok(pem) => Ok(pem),
        Err(e) => Err(CryptoError::EncodingError(e.to_string())),
    }
}

/// Reads a public key from PEM text: the key that the text holds, and an
/// encoding error on every text that holds none.
pub fn import_public_key_pem(pem: &str) -> (key: Result<rsa::RsaPublicKey, CryptoError>)
    ensures
        match public_key_read(pem@) {
            Some(read) => key is Ok && key->Ok_0 == read,
            None => key is Err && key->Err_0 is EncodingError,
        },
{
    match rsa_public_from_pem(pem) {
        Ok(key) => Ok(key),
        Err(e) => Err(CryptoError::EncodingError(e.to_string())),
    }
}

/// Reads a private key from PKCS#8 PEM text: the key that the text holds,
/// and an encoding error on every text that holds none.
pub fn import_private_key_pem(pem: &str) -> (key: Result<rsa::RsaPrivateKey, CryptoError>)
    ensures
        match private_key_read(pem@) {
            Some(read) => key is Ok && key->Ok_0 == read,
            None => key is Err && key->Err_0 is EncodingError,
        },
{
    match rsa_private_from_pem(pem) {
        Ok(key) => Ok(key),
        Err(e) => Err(CryptoError::EncodingError(e.to_string())),
    }
}

/// The wallet identifier of a public key given as PEM text: the SHA-256 digest
/// of the text in hexadecimal.
pub fn wallet_id_of_pem(public_key_pem: &str) -> (wallet_id: String)
    ensures
        wallet_id@ == sha256_hex(encode_utf8(public_key_pem@)),
        wallet_id@.len() == 64,
{
    sha256_hash(public_key_pem.as_bytes())
}

/// The wallet identifier of a public key: that of its PEM text. A key that
/// cannot be encoded is an encoding error.
pub fn generate_wallet_id(public_key: &rsa::RsaPublicKey) -> (wallet_id: Result<
    String,
    CryptoError,
>)
    ensures
        match public_key_pem(*public_key) {
            Some(text) => wallet_id is Ok && wallet_id->Ok_0@ == sha256_hex(encode_utf8(text)),
            None => wallet_id is Err && wallet_id->Err_0 is EncodingError,
        },
        wallet_id is Ok ==> wallet_id->Ok_0@.len() == 64,
{
    match export_public_key_pem(public_key) {
        Ok(pem) => Ok(wallet_id_of_pem(pem.as_str())),
        Err(e) => Err(e),
    }
}

/// The bytes that are signed for `data`: the SHA-256 digest of its UTF-8
/// bytes, with nothing in front.
pub fn signing_digest(data: &str) -> (digest: Vec<u8>)
    ensures
        digest@ == sha256(encode_utf8(data@)),
        digest@.len() == 32,
{
    sha256_digest(data.as_bytes())
}

/// The signature of a private key over `data` as text: the signature over
/// the digest of the data in hexadecimal, or nothing where the key cannot
/// sign.
pub open spec fn signed_text(private_key: rsa::RsaPrivateKey, data: Seq<char>) -> Option<
    Seq<char>,
> {
    match rsa_signed(private_key, sha256(encode_utf8(data))) {
        Some(raw) => Some(hex_text(raw)),
        None => None,
    }
}

/// Whether `signature_hex` is hexadecimal and a public key accepts the bytes
/// it stands for as a signature over the digest of `data`.
pub open spec fn signature_verifies(
    public_key: rsa::RsaPublicKey,
    data: Seq<char>,
    signature_hex: Seq<char>,
) -> bool {
    is_hex(encode_utf8(signature_hex)) && rsa_accepts(
        public_key,
        sha256(encode_utf8(data)),
        hex_bytes(encode_utf8(signature_hex)),
    )
}

/// The value of a hexadecimal digit is the number it was written for.
proof fn lemma_hex_digit_value(v: int)
    requires
        0 <= v < 16,
    ensures
        '\0' <= hex_digit(v) <= '\u{7f}',
        hex_value(hex_digit(v) as u8) == Some(v),
{
}

/// Bytes written in hexadecimal read back as themselves.
pub proof fn lemma_hex_round_trip(bytes: Seq<u8>)
    ensures
        is_hex(encode_utf8(hex_text(bytes))),
        hex_bytes(encode_utf8(hex_text(bytes))) == bytes,
{
    let text = hex_text(bytes);
    assert forall|i: int| 0 <= i < text.len() implies '\0' <= #[trigger] text[i] <= '\u{7f}' by {
        lemma_hex_digit_value(bytes[i / 2] as int / 16);
        lemma_hex_digit_value(bytes[i / 2] as int % 16);
    }
    is_ascii_chars_encode_utf8(text);
    let encoded = encode_utf8(text);
    assert forall|i: int| 0 <= i < encoded.len() implies hex_value(#[trigger] encoded[i])
        is Some by {
        lemma_hex_digit_value(bytes[i / 2] as int / 16);
        lemma_hex_digit_value(bytes[i / 2] as int % 16);
        assert(encoded[i] == text[i] as u8);
    }
    assert forall|i: int| 0 <= i < bytes.len() implies #[trigger] hex_bytes(encoded)[i]
        == bytes[i] by {
        lemma_hex_digit_value(bytes[i] as int / 16);
        lemma_hex_digit_value(bytes[i] as int % 16);
        assert(encoded[2 * i] == text[2 * i] as u8);
        assert(encoded[2 * i + 1] == text[2 * i + 1] as u8);
        assert((2 * i) / 2 == i && (2 * i + 1) / 2 == i);
    }
    assert(hex_bytes(encoded) =~= bytes);
}

/// Signs `data`: hashes it, signs the digest with the private key, and writes
/// the signature in hexadecimal. The public key that belongs to the private
/// key verifies what comes back. A key that cannot sign is a signature
/// error.
pub fn sign_data(private_key: &rsa::RsaPrivateKey, data: &str) -> (signature: Result<
    String,
    CryptoError,
>)
    ensures
        match signed_text(*private_key, data@) {
            Some(text) => signature is Ok && signature->Ok_0@ == text,
            None => signature is Err && signature->Err_0 is SignatureError,
        },
        signature is Ok ==> signature_verifies(
            public_half(*private_key),
            data@,
            signature->Ok_0@,
        ),
{
    let digest = signing_digest(data);
    match rsa_sign(private_key, digest.as_slice()) {
        Ok(raw) => {
            proof {
                lemma_hex_round_trip(raw@);
            }
            Ok(hex_encode(raw.as_slice()))
        },
        Err(e) => Err(CryptoError::SignatureError(e.to_string())),
    }
}

/// Checks a hexadecimal signature over `data` against a public key. A
/// signature that is not hexadecimal is an error; one that the key does not
/// accept is `false`.
pub fn verify_signature(public_key: &rsa::RsaPublicKey, data: &str, signature_hex: &str) -> (valid:
    Result<bool, CryptoError>)
    ensures
        valid is Ok <==> is_hex(encode_utf8(signature_hex@)),
        valid is Ok ==> valid->Ok_0 == signature_verifies(*public_key, data@, signature_hex@),
        valid is Err ==> valid->Err_0 is VerificationError,
{
    match hex_decode(signature_hex.as_bytes()) {
        Ok(signature) => {
            let digest = signing_digest(data);
            match rsa_verify(public_key, digest.as_slice(), signature.as_slice()) {
                Ok(_) => Ok(true),
                Err(_) => Ok(false),
            }
        },
        Err(e) => {
            let mut msg = "Invalid hex signature: ".to_owned();
            msg.append(e.to_string().as_str());
            Err(CryptoError::VerificationError(msg))
        },
    }
}

/// What sealing `private_key_pem` under `aes_key` with `nonce` gives: the
/// nonce followed by the ciphertext, in base64.
pub open spec fn sealed_private_key(private_key_pem: Seq<char>, aes_key: Seq<u8>, nonce: Seq<u8>)
    -> Option<Seq<char>> {
    if aes_key.len() != 32 {
        None
    } else {
        match aes256_gcm_sealed(aes_key, nonce, encode_utf8(private_key_pem)) {
            Some(ciphertext) => Some(base64_text(nonce + ciphertext)),
            None => None,
        }
    }
}

/// Seals a private key's PEM text under the master key with the given nonce.
/// What comes back opens again, under the same key, to the same text.
pub fn encrypt_private_key_with_nonce(private_key_pem: &str, aes_key: &[u8], nonce: &[u8]) -> (blob:
    Result<String, CryptoError>)
    requires
        nonce@.len() == NONCE_SIZE,
        base64_fits(encode_utf8(private_key_pem@).len() + 28),
    ensures
        match sealed_private_key(private_key_pem@, aes_key@, nonce@) {
            Some(text) => blob is Ok && blob->Ok_0@ == text,
            None => blob is Err && blob->Err_0 is EncryptionError,
        },
        aes_key@.len() != 32 ==> blob->Err_0.reason() == "AES key must be 32 bytes"@,
        blob is Ok ==> opened_private_key(blob->Ok_0@, aes_key@) == Some(private_key_pem@),
{
    if aes_key.len() != AES_KEY_SIZE {
        return Err(CryptoError::EncryptionError("AES key must be 32 bytes".to_owned()));
    }
    match aes256_gcm_encrypt(aes_key, nonce, private_key_pem.as_bytes()) {
        Ok(ciphertext) => {
            let mut encrypted_data: Vec<u8> = Vec::new();
            encrypted_data.extend_from_slice(nonce);
            encrypted_data.extend_from_slice(ciphertext.as_slice());
            proof {
                let blob = nonce@ + ciphertext@;
                assert(encrypted_data@ =~= blob);
                assert(blob.subrange(0, 12) =~= nonce@);
                assert(blob.subrange(12, blob.len() as int) =~= ciphertext@);
                encode_utf8_valid_utf8(private_key_pem@);
                encode_utf8_decode_utf8(private_key_pem@);
            }
            Ok(base64_encode(encrypted_data.as_slice()))
        },
        Err(e) => Err(CryptoError::EncryptionError(e.to_string())),
    }
}

/// Seals a private key's PEM text under the master key, with a nonce drawn
/// for this call.
pub fn encrypt_private_key(private_key_pem: &str, aes_key: &[u8]) -> (blob: Result<
    String,
    CryptoError,
>)
    requires
        base64_fits(encode_utf8(private_key_pem@).len() + 28),
    ensures
        exists|nonce: Seq<u8>|
            nonce.len() == NONCE_SIZE && match sealed_private_key(
                private_key_pem@,
                aes_key@,
                nonce,
            ) {
                Some(text) => blob is Ok && blob->Ok_0@ == text,
                None => blob is Err && blob->Err_0 is EncryptionError,
            },
        aes_key@.len() != 32 ==> blob is Err && blob->Err_0.reason()
            == "AES key must be 32 bytes"@,
        blob is Ok ==> opened_private_key(blob->Ok_0@, aes_key@) == Some(private_key_pem@),
{
    let nonce = random_nonce();
    encrypt_private_key_with_nonce(private_key_pem, aes_key, nonce.as_slice())
}

/// What opening a sealed private key under `aes_key` gives: the PEM text, or
/// nothing where the key has the wrong length, the text is not base64, the
/// blob is shorter than a nonce, the tag does not match, or the plaintext is
/// not UTF-8.
pub open spec fn opened_private_key(encrypted_base64: Seq<char>, aes_key: Seq<u8>) -> Option<
    Seq<char>,
> {
    if aes_key.len() != 32 {
        None
    } else {
        match base64_bytes(encrypted_base64) {
            None => None,
            Some(blob) => if blob.len() < 12 {
                None
            } else {
                match aes256_gcm_opened(
                    aes_key,
                    blob.subrange(0, 12),
                    blob.subrange(12, blob.len() as int),
                ) {
                    None => None,
                    Some(plaintext) => if valid_utf8(plaintext) {
                        Some(decode_utf8(plaintext))
                    } else {
                        None
                    },
                }
            },
        }
    }
}

/// Why a sealed private key does not open. Each cause has a reason of its
/// own: a master key of the wrong length, text that is not base64, a blob
/// shorter than a nonce, a tag that does not match, and a plaintext that is
/// not UTF-8. For base64 and UTF-8 the reason goes on with what the decoder
/// says.
pub open spec fn decryption_failure(encrypted_base64: Seq<char>, aes_key: Seq<u8>, reason: Seq<char>)
    -> bool {
    if aes_key.len() != 32 {
        reason == "AES key must be 32 bytes"@
    } else {
        match base64_bytes(encrypted_base64) {
            None => "Invalid base64: "@.is_prefix_of(reason),
            Some(blob) => if blob.len() < 12 {
                reason == "Invalid encrypted data"@
            } else {
                match aes256_gcm_opened(
                    aes_key,
                    blob.subrange(0, 12),
                    blob.subrange(12, blob.len() as int),
                ) {
                    None => reason == "Authentication failed"@,
                    Some(_) => "Invalid UTF-8: "@.is_prefix_of(reason),
                }
            },
        }
    }
}

/// Opens a sealed private key under the master key. Every failure is a
/// decryption error, with its reason as `decryption_failure` says.
pub fn decrypt_private_key(encrypted_base64: &str, aes_key: &[u8]) -> (pem: Result<
    String,
    CryptoError,
>)
    ensures
        match opened_private_key(encrypted_base64@, aes_key@) {
            Some(text) => pem is Ok && pem->Ok_0@ == text,
            None => pem is Err && pem->Err_0 is DecryptionError,
        },
        pem is Err ==> decryption_failure(
            encrypted_base64@,
            aes_key@,
            pem->Err_0.reason(),
        ),
{
    if aes_key.len() != AES_KEY_SIZE {
        return Err(CryptoError::DecryptionError("AES key must be 32 bytes".to_owned()));
    }
    let encrypted_data = match base64_decode(encrypted_base64) {
        Ok(bytes) => bytes,
        Err(e) => {
            let mut msg = "Invalid base64: ".to_owned();
            msg.append(e.to_string().as_str());
            proof {
                assert(msg@.subrange(0, "Invalid base64: "@.len() as int) =~= "Invalid base64: "@);
            }
            return Err(CryptoError::DecryptionError(msg));
        },
    };
    if encrypted_data.len() < NONCE_SIZE {
        return Err(CryptoError::DecryptionError("Invalid encrypted data".to_owned()));
    }
    let (nonce_bytes, ciphertext) = encrypted_data.as_slice().split_at(NONCE_SIZE);
    let plaintext = match aes256_gcm_decrypt(aes_key, nonce_bytes, ciphertext) {
        Ok(bytes) => bytes,
        Err(_) => {
            return Err(CryptoError::DecryptionError("Authentication failed".to_owned()));
        },
    };
    match string_from_utf8(plaintext) {
        Ok(text) => Ok(text),
        Err(e) => {
            let mut msg = "Invalid UTF-8: ".to_owned();
            msg.append(e.to_string().as_str());
            proof {
                assert(msg@.subrange(0, "Invalid UTF-8: "@.len() as int) =~= "Invalid UTF-8: "@);
            }
            Err(CryptoError::DecryptionError(msg))
        },
    }
}

/// The text that is signed for a transfer: sender, receiver, amount in
/// coins, timestamp and note, with a bar between each two.
pub open spec fn transaction_payload(
    sender_id: Seq<char>,
    receiver_id: Seq<char>,
    amount: int,
    timestamp: int,
    note: Option<Seq<char>>,
) -> Seq<char> {
    sender_id + seq!['|'] + receiver_id + seq!['|'] + amount_text(amount) + seq!['|'] + decimal(
        timestamp,
    ) + seq!['|'] + match note {
        Some(text) => text,
        None => Seq::empty(),
    }
}

/// Builds the text that is signed for a transfer.
pub fn create_transaction_payload(
    sender_id: &str,
    receiver_id: &str,
    amount: i64,
    timestamp: i64,
    note: &Option<String>,
) -> (payload: String)
    ensures
        payload@ == transaction_payload(
            sender_id@,
            receiver_id@,
            amount as int,
            timestamp as int,
            text_view(*note),
        ),
{
    let mut payload = sender_id.to_owned();
    payload.append("|");
    payload.append(receiver_id);
    payload.append("|");
    payload.append(amount_string(amount).as_str());
    payload.append("|");
    push_decimal(&mut payload, timestamp);
    payload.append("|");
    match note {
        Some(text) => {
            payload.append(text.as_str());
        },
        None => {},
    }
    proof {
        reveal_strlit("|");
        assert("|"@ =~= seq!['|']);
        assert(payload@ =~= transaction_payload(
            sender_id@,
            receiver_id@,
            amount as int,
            timestamp as int,
            text_view(*note),
        ));
    }
    payload
}

} // verus!
