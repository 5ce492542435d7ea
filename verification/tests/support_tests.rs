use moda_core::crypto::{aes_gcm_open, aes_gcm_seal, fill_random, hex_encode, hmac_sha256_tag, system_random};
use moda_core::ident::new_uuid_v4;
use moda_core::ipc::wire::{push_all, push_length_prefixed, push_u64_le};
use moda_core::name_map::NameMap;
use moda_core::text::{concat2, concat3, contains_char, debug_quote, push_char, push_decimal, same_text};
use moda_core::clock::unix_time_secs;

#[test]
fn decimal_and_text_helpers() {
    let mut s = "n=".to_string();
    push_decimal(&mut s, 0);
    push_char(&mut s, ',');
    push_decimal(&mut s, 18446744073709551615);
    assert_eq!(s, "n=0,18446744073709551615");
    assert_eq!(concat2("ab", "c"), "abc");
    assert_eq!(concat3("a", "", "é"), "aé");
    assert!(same_text("x", "x"));
    assert!(!same_text("x", "X"));
    assert!(contains_char("héllo", 'é'));
    assert!(!contains_char("", 'a'));
    assert_eq!(debug_quote("a\"b\n"), "\"a\\\"b\\n\"");
}

#[test]
fn hex_and_hmac_wrappers() {
    assert_eq!(hex_encode(&[0x00, 0x0f, 0xa0, 0xff]), "000fa0ff");
    assert_eq!(hex_encode(&[]), "");
    let tag = hmac_sha256_tag(b"key", b"The quick brown fox jumps over the lazy dog");
    assert_eq!(hex_encode(&tag), "f7bc83f430538424b13298e6aa6fb143ef4d59a14946175997479dbc2d1a3cd8");
}

#[test]
fn aes_gcm_wrappers() {
    let key = [4u8; 32];
    let nonce = [8u8; 12];
    let sealed = aes_gcm_seal(&key, &nonce, b"secret").unwrap();
    assert_eq!(sealed.len(), 6 + 16);
    assert_ne!(&sealed[..6], b"secret");
    assert_eq!(aes_gcm_open(&key, &nonce, &sealed).unwrap(), b"secret".to_vec());
    assert!(aes_gcm_open(&key, &[9u8; 12], &sealed).is_none());
    assert!(aes_gcm_open(&key, &nonce, &[1, 2, 3]).is_none());
}

#[test]
fn random_fill_keeps_length() {
    let rng = system_random();
    let mut a = vec![0u8; 32];
    let mut b = vec![0u8; 32];
    assert!(fill_random(&rng, &mut a));
    assert!(fill_random(&rng, &mut b));
    assert_eq!(a.len(), 32);
    assert_ne!(a, b);
}

#[test]
fn uuid_shape() {
    let id = new_uuid_v4(&system_random()).unwrap();
    let chars: Vec<char> = id.chars().collect();
    assert_eq!(chars.len(), 36);
    assert_eq!(chars[8], '-');
    assert_eq!(chars[13], '-');
    assert_eq!(chars[14], '4');
    assert_eq!(chars[18], '-');
    assert_eq!(chars[23], '-');
    assert!(matches!(chars[19], '8' | '9' | 'a' | 'b'));
    assert!(chars.iter().all(|c| *c == '-' || c.is_ascii_digit() || ('a'..='f').contains(c)));
    assert_ne!(id, new_uuid_v4(&system_random()).unwrap());
}

#[test]
fn clock_reads_after_2020() {
    assert!(unix_time_secs().unwrap() > 1_577_836_800);
}

#[test]
fn little_endian_framing() {
    let mut out = vec![0xAAu8];
    push_u64_le(&mut out, 0x0102030405060708);
    assert_eq!(out, vec![0xAA, 8, 7, 6, 5, 4, 3, 2, 1]);
    let mut framed = Vec::new();
    push_length_prefixed(&mut framed, b"hi");
    assert_eq!(framed, vec![2, 0, 0, 0, 0, 0, 0, 0, b'h', b'i']);
    push_all(&mut framed, &[7]);
    assert_eq!(framed.len(), 11);
}

#[test]
fn name_map_keeps_first_insertion_order() {
    let mut m: NameMap<u32> = NameMap::new();
    assert!(m.is_empty());
    m.insert("b", 1);
    m.insert("a", 2);
    m.insert("b", 3);
    assert_eq!(m.names_vec(), vec!["b".to_string(), "a".to_string()]);
    assert_eq!(m.get("b"), Some(&3));
    if let Some(v) = m.get_mut("a") {
        *v = 20;
    }
    assert_eq!(m.get("a"), Some(&20));
    assert_eq!(m.remove("b"), Some(3));
    assert_eq!(m.remove("b"), None);
    assert!(!m.contains("b"));
    assert_eq!(m.names_vec(), vec!["a".to_string()]);
}
