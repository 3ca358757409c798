use vstd::prelude::*;
use vstd::string::*;
use vstd::utf8::*;

use aes_gcm::aead::{Aead, KeyInit};
use aes_gcm::Aes256Gcm;
use base64::Engine;
use sha2::Digest;

use crate::constants::{NONCE_SIZE_CONSTANT, SALT_SIZE_CONSTANT};

verus! {

broadcast use vstd::string::group_string_axioms;

/// The error of `aes_gcm` encryption and decryption, held as an opaque value.
#[verifier::external_type_specification]
#[verifier::external_body]
pub struct ExAeadError(aes_gcm::Error);

/// The error of `base64` decoding, held as an opaque value.
#[verifier::external_type_specification]
#[verifier::external_body]
pub struct ExDecodeError(base64::DecodeError);

/// The error of `String::from_utf8`, held as an opaque value.
#[verifier::external_type_specification]
#[verifier::external_body]
pub struct ExFromUtf8Error(std::string::FromUtf8Error);

/// The longest plaintext, in bytes, that AES-256-GCM encrypts.
pub const MAX_PLAINTEXT_LEN: u64 = 68719476704;

/// The SHA-256 digest of some bytes.
pub uninterp spec fn sha256_of(data: Seq<u8>) -> Seq<u8>;

/// The AES-256-GCM ciphertext (with its tag) of `plaintext` under `key` and `nonce`.
pub uninterp spec fn aes256gcm_sealed(key: Seq<u8>, nonce: Seq<u8>, plaintext: Seq<u8>) -> Seq<u8>;

/// What AES-256-GCM decryption of `ciphertext` under `key` and `nonce` gives:
/// the plaintext, or nothing when the ciphertext is not authentic.
pub uninterp spec fn aes256gcm_opened(key: Seq<u8>, nonce: Seq<u8>, ciphertext: Seq<u8>) -> Option<
    Seq<u8>,
>;

/// The standard padded Base64 text of some bytes.
pub uninterp spec fn base64_text(bytes: Seq<u8>) -> Seq<char>;

/// The bytes that standard padded Base64 decoding gives for a text, or nothing
/// when the text is not valid Base64.
pub uninterp spec fn base64_decoded(text: Seq<char>) -> Option<Seq<u8>>;

/// Calls `sha2::Sha256::digest`: the result is named `sha256_of` and is 32
/// bytes long.
#[verifier::external_body]
fn sha256_digest(data: &[u8]) -> (digest: Vec<u8>)
    ensures
        digest@ == sha256_of(data@),
        digest@.len() == 32,
{
    sha2::Sha256::digest(data).to_vec()
}

/// Calls `Aead::encrypt` of `aes_gcm::Aes256Gcm` with a 32-byte key and a
/// 12-byte nonce. It fails exactly when the plaintext is longer than the
/// limit of AES-GCM; otherwise the ciphertext is named `aes256gcm_sealed`, and
/// decrypting it with the same key and nonce gives the plaintext back.
#[verifier::external_body]
fn aes256gcm_encrypt(key: &[u8], nonce: &[u8], plaintext: &[u8]) -> (sealed: Result<
    Vec<u8>,
    aes_gcm::Error,
>)
    requires
        key@.len() == 32,
        nonce@.len() == 12,
    ensures
        sealed is Ok <==> plaintext@.len() <= MAX_PLAINTEXT_LEN,
        sealed matches Ok(c) ==> c@ == aes256gcm_sealed(key@, nonce@, plaintext@)
            && aes256gcm_opened(key@, nonce@, c@) == Some(plaintext@),
{
    let cipher = Aes256Gcm::new(&aes_gcm::Key::<Aes256Gcm>::try_from(key).unwrap());
    let nonce = aes_gcm::aead::Nonce::<Aes256Gcm>::try_from(nonce).unwrap();
    cipher.encrypt(&nonce, plaintext)
}

/// Calls `Aead::decrypt` of `aes_gcm::Aes256Gcm` with a 32-byte key and a
/// 12-byte nonce; what it gives is named `aes256gcm_opened`.
#[verifier::external_body]
fn aes256gcm_decrypt(key: &[u8], nonce: &[u8], ciphertext: &[u8]) -> (opened: Result<
    Vec<u8>,
    aes_gcm::Error,
>)
    requires
        key@.len() == 32,
        nonce@.len() == 12,
    ensures
        match opened {
            Ok(p) => aes256gcm_opened(key@, nonce@, ciphertext@) == Some(p@),
            Err(_) => aes256gcm_opened(key@, nonce@, ciphertext@) is None,
        },
{
    let cipher = Aes256Gcm::new(&aes_gcm::Key::<Aes256Gcm>::try_from(key).unwrap());
    let nonce = aes_gcm::aead::Nonce::<Aes256Gcm>::try_from(nonce).unwrap();
    cipher.decrypt(&nonce, ciphertext)
}

/// Calls `Engine::encode` of `base64::engine::general_purpose::STANDARD`: the
/// text is named `base64_text`, and decoding it gives the bytes back.
#[verifier::external_body]
fn base64_encode(bytes: &[u8]) -> (text: String)
    ensures
        text@ == base64_text(bytes@),
        base64_decoded(text@) == Some(bytes@),
{
    base64::engine::general_purpose::STANDARD.encode(bytes)
}

/// Calls `Engine::decode` of `base64::engine::general_purpose::STANDARD`; what
/// it gives is named `base64_decoded`.
#[verifier::external_body]
fn base64_decode(text: &str) -> (bytes: Result<Vec<u8>, base64::DecodeError>)
    ensures
        match bytes {
            Ok(b) => base64_decoded(text@) == Some(b@),
            Err(_) => base64_decoded(text@) is None,
        },
{
    base64::engine::general_purpose::STANDARD.decode(text)
}

/// Calls `String::from_utf8`, which succeeds exactly on valid UTF-8 and then
/// holds the characters that the bytes encode.
#[verifier::external_body]
fn string_from_utf8(bytes: Vec<u8>) -> (text: Result<String, std::string::FromUtf8Error>)
    ensures
        match text {
            Ok(s) => valid_utf8(bytes@) && s@ == decode_utf8(bytes@),
            Err(_) => !valid_utf8(bytes@),
        },
{
    String::from_utf8(bytes)
}

/// Calls `rand::random` for a fresh salt; nothing is known of its bytes.
#[verifier::external_body]
fn random_salt() -> (salt: Vec<u8>)
    ensures
        salt@.len() == SALT_SIZE_CONSTANT,
{
    rand::random::<[u8; SALT_SIZE_CONSTANT]>().to_vec()
}

/// Calls `rand::random` for a fresh nonce; nothing is known of its bytes.
#[verifier::external_body]
fn random_nonce() -> (nonce: Vec<u8>)
    ensures
        nonce@.len() == NONCE_SIZE_CONSTANT,
{
    rand::random::<[u8; NONCE_SIZE_CONSTANT]>().to_vec()
}

/// Why an API key could not be sealed or unsealed.
#[derive(PartialEq, Eq, Structural, Debug, Clone, Copy)]
pub enum StorageError {
    /// The key is too long to encrypt.
    Encryption,
    /// A stored field is not valid Base64.
    InvalidBase64,
    /// The stored nonce does not have the length that AES-GCM needs.
    InvalidNonce,
    /// The stored key does not decrypt with this machine's key (wrong machine,
    /// or altered data).
    Decryption,
    /// The decrypted key is not valid UTF-8.
    InvalidUtf8,
}

/// A sealed API key as it is stored: salt, nonce and ciphertext, each in Base64.
pub struct EncryptedData {
    pub salt: String,
    pub nonce: String,
    pub payload: String,
}

/// The encryption key for a machine and a salt: the SHA-256 digest of the
/// machine's identifier (in UTF-8) followed by the salt.
pub open spec fn derived_key(machine_id: Seq<char>, salt: Seq<u8>) -> Seq<u8> {
    sha256_of(encode_utf8(machine_id) + salt)
}

/// Derives the encryption key for this machine and salt.
pub fn derive_key(machine_id: &str, salt: &[u8]) -> (key: Vec<u8>)
    ensures
        key@ == derived_key(machine_id@, salt@),
        key@ == sha256_of(encode_utf8(machine_id@) + salt@),
        key@.len() == 32,
{
    let mut data = machine_id.as_bytes_vec();
    let ghost start = data@;
    let n = salt.len();
    for i in 0..n
        invariant
            n == salt@.len(),
            data@ == start + salt@.take(i as int),
    {
        data.push(salt[i]);
        assert(salt@.take(i + 1) == salt@.take(i as int).push(salt@[i as int]));
    }
    assert(salt@.take(n as int) == salt@);
    sha256_digest(data.as_slice())
}

/// What unsealing stored fields gives on a machine: each field is decoded from
/// Base64 in turn, the nonce must have the AES-GCM length, the payload must
/// decrypt under the machine's key, and the plaintext must be UTF-8.
pub open spec fn unsealed_key(
    salt_text: Seq<char>,
    nonce_text: Seq<char>,
    payload_text: Seq<char>,
    machine_id: Seq<char>,
) -> Result<Seq<char>, StorageError> {
    match base64_decoded(salt_text) {
        None => Err(StorageError::InvalidBase64),
        Some(salt) => match base64_decoded(nonce_text) {
            None => Err(StorageError::InvalidBase64),
            Some(nonce) => match base64_decoded(payload_text) {
                None => Err(StorageError::InvalidBase64),
                Some(payload) => if nonce.len() != NONCE_SIZE_CONSTANT {
                    Err(StorageError::InvalidNonce)
                } else {
                    match aes256gcm_opened(derived_key(machine_id, salt), nonce, payload) {
                        None => Err(StorageError::Decryption),
                        Some(plain) => if valid_utf8(plain) {
                            Ok(decode_utf8(plain))
                        } else {
                            Err(StorageError::InvalidUtf8)
                        },
                    }
                },
            },
        },
    }
}

/// Fields that hold `api_key` sealed for `machine_id` under `salt` and `nonce`.
pub open spec fn seals(
    data: EncryptedData,
    api_key: Seq<char>,
    machine_id: Seq<char>,
    salt: Seq<u8>,
    nonce: Seq<u8>,
) -> bool {
    &&& data.salt@ == base64_text(salt)
    &&& data.nonce@ == base64_text(nonce)
    &&& data.payload@ == base64_text(
        aes256gcm_sealed(derived_key(machine_id, salt), nonce, encode_utf8(api_key)),
    )
}

/// Seals an API key for a machine with the given salt and nonce. It fails when
/// the nonce does not have the AES-GCM length or the key is too long to
/// encrypt; otherwise unsealing the result on the same machine gives the key
/// back.
pub fn seal_api_key(api_key: &str, machine_id: &str, salt: &[u8], nonce: &[u8]) -> (sealed: Result<
    EncryptedData,
    StorageError,
>)
    ensures
        match sealed {
            Ok(data) => {
                &&& seals(data, api_key@, machine_id@, salt@, nonce@)
                &&& unsealed_key(data.salt@, data.nonce@, data.payload@, machine_id@) == Ok::<Seq<char>, StorageError>(
                    api_key@,
                )
            },
            Err(e) => if nonce@.len() != NONCE_SIZE_CONSTANT {
                e == StorageError::InvalidNonce
            } else {
                e == StorageError::Encryption && encode_utf8(api_key@).len() > MAX_PLAINTEXT_LEN
            },
        },
        nonce@.len() == NONCE_SIZE_CONSTANT && encode_utf8(api_key@).len() <= MAX_PLAINTEXT_LEN
            ==> sealed is Ok,
{
    let key = derive_key(machine_id, salt);
    if nonce.len() != NONCE_SIZE_CONSTANT {
        return Err(StorageError::InvalidNonce);
    }
    let plaintext = api_key.as_bytes();
    let encrypted = match aes256gcm_encrypt(key.as_slice(), nonce, plaintext) {
        Ok(c) => c,
        Err(_) => {
            return Err(StorageError::Encryption);
        },
    };
    let data = EncryptedData {
        salt: base64_encode(salt),
        nonce: base64_encode(nonce),
        payload: base64_encode(encrypted.as_slice()),
    };
    proof {
        encode_utf8_valid_utf8(api_key@);
        encode_utf8_decode_utf8(api_key@);
    }
    Ok(data)
}

/// Seals an API key for a machine with a fresh random salt and nonce.
pub fn encrypt_api_key(api_key: &str, machine_id: &str) -> (sealed: Result<EncryptedData, StorageError>)
    ensures
        match sealed {
            Ok(data) => {
                &&& exists|salt: Seq<u8>, nonce: Seq<u8>|
                    salt.len() == SALT_SIZE_CONSTANT && nonce.len() == NONCE_SIZE_CONSTANT && seals(
                        data,
                        api_key@,
                        machine_id@,
                        salt,
                        nonce,
                    )
                &&& unsealed_key(data.salt@, data.nonce@, data.payload@, machine_id@) == Ok::<Seq<char>, StorageError>(
                    api_key@,
                )
            },
            Err(e) => e == StorageError::Encryption && encode_utf8(api_key@).len()
                > MAX_PLAINTEXT_LEN,
        },
        encode_utf8(api_key@).len() <= MAX_PLAINTEXT_LEN ==> sealed is Ok,
{
    let salt = random_salt();
    let nonce = random_nonce();
    seal_api_key(api_key, machine_id, salt.as_slice(), nonce.as_slice())
}

/// Unseals a stored API key on a machine.
pub fn open_api_key(data: &EncryptedData, machine_id: &str) -> (opened: Result<String, StorageError>)
    ensures
        match opened {
            Ok(key) => unsealed_key(data.salt@, data.nonce@, data.payload@, machine_id@) == Ok::<Seq<char>, StorageError>(
                key@,
            ),
            Err(e) => unsealed_key(data.salt@, data.nonce@, data.payload@, machine_id@) == Err::<
                Seq<char>,
                StorageError,
            >(e),
        },
        opened matches Ok(key) ==> exists|salt: Seq<u8>, nonce: Seq<u8>, payload: Seq<u8>|
            {
                &&& base64_decoded(data.salt@) == Some(salt)
                &&& base64_decoded(data.nonce@) == Some(nonce)
                &&& base64_decoded(data.payload@) == Some(payload)
                &&& nonce.len() == 12
                &&& aes256gcm_opened(
                    sha256_of(encode_utf8(machine_id@) + salt),
                    nonce,
                    payload,
                ) == Some(encode_utf8(key@))
            },
{
    let salt = match base64_decode(data.salt.as_str()) {
        Ok(b) => b,
        Err(_) => {
            return Err(StorageError::InvalidBase64);
        },
    };
    let nonce = match base64_decode(data.nonce.as_str()) {
        Ok(b) => b,
        Err(_) => {
            return Err(StorageError::InvalidBase64);
        },
    };
    let payload = match base64_decode(data.payload.as_str()) {
        Ok(b) => b,
        Err(_) => {
            return Err(StorageError::InvalidBase64);
        },
    };
    let key = derive_key(machine_id, salt.as_slice());
    if nonce.len() != NONCE_SIZE_CONSTANT {
        return Err(StorageError::InvalidNonce);
    }
    let plain = match aes256gcm_decrypt(key.as_slice(), nonce.as_slice(), payload.as_slice()) {
        Ok(p) => p,
        Err(_) => {
            return Err(StorageError::Decryption);
        },
    };
    let ghost plain_bytes = plain@;
    match string_from_utf8(plain) {
        Ok(s) => {
            proof {
                decode_utf8_encode_utf8(plain_bytes);
                assert(base64_decoded(data.salt@) == Some(salt@));
            }
            Ok(s)
        },
        Err(_) => Err(StorageError::InvalidUtf8),
    }
}

/// The key is hashed from the machine identifier's UTF-8 bytes followed by
/// every byte of the salt, whatever the salt's length; so two different salts
/// are hashed from different inputs.
pub proof fn lemma_derived_key_uses_whole_salt(machine_id: Seq<char>, salt1: Seq<u8>, salt2: Seq<u8>)
    ensures
        derived_key(machine_id, salt1) == sha256_of(encode_utf8(machine_id) + salt1),
        derived_key(machine_id, salt2) == sha256_of(encode_utf8(machine_id) + salt2),
        salt1 != salt2 ==> encode_utf8(machine_id) + salt1 != encode_utf8(machine_id) + salt2,
{
    let id = encode_utf8(machine_id);
    if salt1 != salt2 && id + salt1 == id + salt2 {
        assert((id + salt1).skip(id.len() as int) =~= salt1);
        assert((id + salt2).skip(id.len() as int) =~= salt2);
    }
}

} // verus!
