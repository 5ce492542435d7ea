use hmac::Mac;
use ring::rand::SecureRandom;
use vstd::prelude::*;

verus! {

/// ring's handle on the operating system's random source.
#[verifier::external_type_specification]
#[verifier::external_body]
pub struct ExSystemRandom(ring::rand::SystemRandom);

/// ring's `SystemRandom::new()`: a handle on the operating system's random source. Nothing is
/// claimed of it.
#[verifier::external_body]
pub fn system_random() -> ring::rand::SystemRandom {
    ring::rand::SystemRandom::new()
}

/// ring's `SecureRandom::fill` on a `SystemRandom`: fills `dest` with random bytes; `false` when
/// the source fails. Claimed: the length of `dest` is kept. Nothing is claimed of the bytes.
#[verifier::external_body]
pub fn fill_random(rng: &ring::rand::SystemRandom, dest: &mut Vec<u8>) -> (r: bool)
    ensures
        final(dest)@.len() == old(dest)@.len(),
{
    rng.fill(dest.as_mut_slice()).is_ok()
}

/// The largest plaintext, in bytes, that ring's AES-GCM seals under one nonce.
pub open spec fn aes_gcm_max_input() -> nat {
    68719476704
}

/// AES-256-GCM with an empty associated data: the ciphertext followed by the 16-byte tag, for
/// a key, a 12-byte nonce and a plaintext.
pub uninterp spec fn aes_256_gcm_seal(key: Seq<u8>, nonce: Seq<u8>, plaintext: Seq<u8>) -> Seq<u8>;

/// ring's `LessSafeKey::seal_in_place_append_tag` under a key made by `UnboundKey::new` with
/// `AES_256_GCM`, with `Nonce::assume_unique_for_key` and `Aad::empty()`. Claimed: it succeeds
/// exactly when the plaintext has at most `aes_gcm_max_input()` bytes (ring's `MAX_IN_OUT_LEN`
/// check; a 32-byte key is always accepted), and then gives the ciphertext and tag named by
/// `aes_256_gcm_seal`, 16 bytes longer than the plaintext.
#[verifier::external_body]
pub fn aes_gcm_seal(key: &[u8; 32], nonce: &[u8; 12], plaintext: &[u8]) -> (r: Option<Vec<u8>>)
    ensures
        r is Some <==> plaintext@.len() <= aes_gcm_max_input(),
        r matches Some(c) ==> c@ == aes_256_gcm_seal(key@, nonce@, plaintext@)
            && c@.len() == plaintext@.len() + 16,
{
    let unbound = ring::aead::UnboundKey::new(&ring::aead::AES_256_GCM, key).ok()?;
    let sealing = ring::aead::LessSafeKey::new(unbound);
    let mut in_out = plaintext.to_vec();
    let nonce = ring::aead::Nonce::assume_unique_for_key(*nonce);
    sealing.seal_in_place_append_tag(nonce, ring::aead::Aad::empty(), &mut in_out).ok()?;
    Some(in_out)
}

/// ring's `LessSafeKey::open_in_place` under a key made by `UnboundKey::new` with
/// `AES_256_GCM`, with `Nonce::assume_unique_for_key` and `Aad::empty()`; the plaintext is what
/// precedes the tag. Claimed, as ring's source shows it: opening decrypts, recomputes the tag over
/// the ciphertext and fails unless it equals the tag received, and refuses inputs longer than
/// ring seals. So a plaintext comes out exactly when the input is the sealing of a plaintext of at
/// most `aes_gcm_max_input()` bytes under the same key and nonce, and it is that plaintext.
#[verifier::external_body]
pub fn aes_gcm_open(key: &[u8; 32], nonce: &[u8; 12], sealed: &[u8]) -> (r: Option<Vec<u8>>)
    ensures
        forall|p: Seq<u8>| p.len() <= aes_gcm_max_input() && #[trigger] aes_256_gcm_seal(key@, nonce@, p) == sealed@
            ==> r is Some && r.unwrap()@ == p,
        r matches Some(v) ==> v@.len() + 16 == sealed@.len() && v@.len() <= aes_gcm_max_input()
            && aes_256_gcm_seal(key@, nonce@, v@) == sealed@,
{
    let unbound = ring::aead::UnboundKey::new(&ring::aead::AES_256_GCM, key).ok()?;
    let opening = ring::aead::LessSafeKey::new(unbound);
    let mut in_out = sealed.to_vec();
    let nonce = ring::aead::Nonce::assume_unique_for_key(*nonce);
    let len = opening.open_in_place(nonce, ring::aead::Aad::empty(), &mut in_out).ok()?.len();
    in_out.truncate(len);
    Some(in_out)
}

/// HMAC-SHA-256 of `data` under `key`: 32 bytes.
pub uninterp spec fn hmac_sha256(key: Seq<u8>, data: Seq<u8>) -> Seq<u8>;

/// The hmac crate's `Hmac<Sha256>`: `Mac::new_from_slice(key)`, `update(data)`, `finalize()`.
/// Claimed: the tag is named by `hmac_sha256` of the key and data, and has 32 bytes.
/// `new_from_slice` accepts keys of any length (hmac 0.12 source), so the error arm is never taken.
#[verifier::external_body]
pub fn hmac_sha256_tag(key: &[u8], data: &[u8]) -> (r: Vec<u8>)
    ensures
        r@ == hmac_sha256(key@, data@),
        r@.len() == 32,
{
    match <hmac::Hmac<sha2::Sha256> as Mac>::new_from_slice(key) {
        Ok(mut mac) => {
            mac.update(data);
            mac.finalize().into_bytes().to_vec()
        },
        Err(_) => Vec::new(),
    }
}

/// The lower-case hex digit for `n < 16`.
pub open spec fn hex_digit(n: nat) -> char {
    if n < 10 {
        ((48 + n) as u8) as char
    } else {
        ((87 + n) as u8) as char
    }
}

/// Lower-case hex text of bytes: two digits per byte, high half first.
pub open spec fn lower_hex(bytes: Seq<u8>) -> Seq<char>
    decreases bytes.len(),
{
    if bytes.len() == 0 {
        Seq::empty()
    } else {
        seq![hex_digit((bytes[0] / 16) as nat), hex_digit((bytes[0] % 16) as nat)] + lower_hex(bytes.drop_first())
    }
}

/// Lower-case hex text has two digits per byte: at `2 * i` the high half of byte `i`, at
/// `2 * i + 1` its low half.
pub proof fn lemma_lower_hex_index(bytes: Seq<u8>)
    ensures
        lower_hex(bytes).len() == 2 * bytes.len(),
        forall|i: int| 0 <= i < bytes.len() ==> {
            &&& #[trigger] lower_hex(bytes)[2 * i] == hex_digit((bytes[i] / 16) as nat)
            &&& lower_hex(bytes)[2 * i + 1] == hex_digit((bytes[i] % 16) as nat)
        },
    decreases bytes.len(),
{
    if bytes.len() > 0 {
        let rest = bytes.drop_first();
        lemma_lower_hex_index(rest);
        let head = seq![hex_digit((bytes[0] / 16) as nat), hex_digit((bytes[0] % 16) as nat)];
        assert(lower_hex(bytes) == head + lower_hex(rest));
        assert forall|i: int| 0 <= i < bytes.len() implies {
            &&& #[trigger] lower_hex(bytes)[2 * i] == hex_digit((bytes[i] / 16) as nat)
            &&& lower_hex(bytes)[2 * i + 1] == hex_digit((bytes[i] % 16) as nat)
        } by {
            if i > 0 {
                assert(rest[i - 1] == bytes[i]);
                assert(lower_hex(rest)[2 * (i - 1)] == hex_digit((rest[i - 1] / 16) as nat));
                assert(lower_hex(rest)[2 * (i - 1) + 1] == hex_digit((rest[i - 1] % 16) as nat));
            }
        }
    }
}

/// The hex crate's `encode`: lower-case hex text of the bytes, two digits per byte.
#[verifier::external_body]
pub fn hex_encode(bytes: &[u8]) -> (r: String)
    ensures
        r@ == lower_hex(bytes@),
{
    hex::encode(bytes)
}

} // verus!
