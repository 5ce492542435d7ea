use crate::crypto::{aes_256_gcm_seal, aes_gcm_max_input, aes_gcm_open, aes_gcm_seal, fill_random, system_random};
use vstd::prelude::*;

verus! {

/// Errors of secure storage.
#[derive(Debug)]
pub enum StorageError {
    EncryptionFailed(String),
    DecryptionFailed(String),
    IoError(String),
}

/// Data sealed with AES-256-GCM: the nonce, and the ciphertext followed by the tag.
#[derive(Debug, Clone)]
pub struct EncryptedData {
    pub nonce: Vec<u8>,
    pub ciphertext: Vec<u8>,
}

/// A 12-byte nonce as an array.
pub fn nonce_array(v: &Vec<u8>) -> (r: [u8; 12])
    requires
        v@.len() == 12,
    ensures
        r@ == v@,
{
    let r: [u8; 12] = [v[0], v[1], v[2], v[3], v[4], v[5], v[6], v[7], v[8], v[9], v[10], v[11]];
    assert(r@ =~= v@);
    r
}

/// Encrypts and decrypts with one AES-256 key.
pub struct SecureStorage {
    key: [u8; 32],
    rng: ring::rand::SystemRandom,
}

impl SecureStorage {
    /// The key's bytes.
    pub closed spec fn key(self) -> Seq<u8> {
        self.key@
    }

    /// A store using `key`.
    pub fn new(key: &[u8; 32]) -> (r: SecureStorage)
        ensures
            r.key() == key@,
    {
        SecureStorage { key: *key, rng: system_random() }
    }

    /// Seals `plaintext` under `nonce`. Fails only for a plaintext longer than AES-GCM allows.
    pub fn encrypt_with_nonce(&self, plaintext: &[u8], nonce: &[u8; 12]) -> (r: Result<EncryptedData, StorageError>)
        ensures
            r is Ok <==> plaintext@.len() <= aes_gcm_max_input(),
            r matches Ok(d) ==> d.nonce@ == nonce@ && d.ciphertext@ == aes_256_gcm_seal(self.key(), nonce@, plaintext@),
            r matches Err(e) ==> (e matches StorageError::EncryptionFailed(m)
                && m@ == "Encryption failed: ring::error::Unspecified"@),
    {
        match aes_gcm_seal(&self.key, nonce, plaintext) {
            Some(ciphertext) => {
                let n: Vec<u8> = vstd::slice::slice_to_vec(nonce.as_slice());
                Ok(EncryptedData { nonce: n, ciphertext })
            },
            None => Err(StorageError::EncryptionFailed("Encryption failed: ring::error::Unspecified".to_string())),
        }
    }

    /// Seals `plaintext` under a fresh random nonce. Fails when the random source fails, or for a
    /// plaintext longer than AES-GCM allows.
    pub fn encrypt(&self, plaintext: &[u8]) -> (r: Result<EncryptedData, StorageError>)
        ensures
            r matches Ok(d) ==> d.nonce@.len() == 12 && d.ciphertext@ == aes_256_gcm_seal(self.key(), d.nonce@, plaintext@),
            plaintext@.len() > aes_gcm_max_input() ==> r is Err,
            r matches Err(e) ==> (e matches StorageError::EncryptionFailed(m)
                && (m@ == "Failed to generate nonce: ring::error::Unspecified"@
                || m@ == "Encryption failed: ring::error::Unspecified"@)),
    {
        let mut buf: Vec<u8> = vec![0u8; 12];
        if !fill_random(&self.rng, &mut buf) {
            return Err(StorageError::EncryptionFailed("Failed to generate nonce: ring::error::Unspecified".to_string()));
        }
        let nonce = nonce_array(&buf);
        self.encrypt_with_nonce(plaintext, &nonce)
    }

    /// Opens sealed data. What `encrypt` or `encrypt_with_nonce` sealed under this key opens to
    /// its plaintext; anything that is not such a sealing is refused.
    pub fn decrypt(&self, data: &EncryptedData) -> (r: Result<Vec<u8>, StorageError>)
        ensures
            data.nonce@.len() != 12 ==> (r matches Err(StorageError::DecryptionFailed(m))
                && m@ == "Invalid nonce length"@),
            forall|p: Seq<u8>| data.nonce@.len() == 12 && p.len() <= aes_gcm_max_input()
                && #[trigger] aes_256_gcm_seal(self.key(), data.nonce@, p) == data.ciphertext@
                ==> (r matches Ok(v) && v@ == p),
            r matches Ok(v) ==> data.nonce@.len() == 12 && v@.len() + 16 == data.ciphertext@.len()
                && v@.len() <= aes_gcm_max_input()
                && aes_256_gcm_seal(self.key(), data.nonce@, v@) == data.ciphertext@,
            r matches Err(e) ==> (e matches StorageError::DecryptionFailed(m)
                && (m@ == "Invalid nonce length"@ || m@ == "Decryption failed: ring::error::Unspecified"@)),
    {
        if data.nonce.len() != 12 {
            return Err(StorageError::DecryptionFailed("Invalid nonce length".to_string()));
        }
        let nonce = nonce_array(&data.nonce);
        match aes_gcm_open(&self.key, &nonce, data.ciphertext.as_slice()) {
            Some(plaintext) => Ok(plaintext),
            None => Err(StorageError::DecryptionFailed("Decryption failed: ring::error::Unspecified".to_string())),
        }
    }
}

} // verus!
