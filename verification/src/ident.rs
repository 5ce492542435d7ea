use crate::crypto::{fill_random, hex_digit, lemma_lower_hex_index, lower_hex};
use vstd::prelude::*;

verus! {

/// The 16 bytes of a version-4 UUID made from random bytes: the version nibble of byte 6 set
/// to 4, and the two top bits of byte 8 set to the RFC 4122 variant `10`.
pub open spec fn v4_bytes(b: Seq<u8>) -> Seq<u8> {
    b.update(6, (b[6] & 0x0f) | 0x40).update(8, (b[8] & 0x3f) | 0x80)
}

/// 32 hex digits in the hyphenated UUID layout: groups of 8, 4, 4, 4 and 12 digits.
pub open spec fn hyphenated(h: Seq<char>) -> Seq<char> {
    h.subrange(0, 8) + seq!['-'] + h.subrange(8, 12) + seq!['-'] + h.subrange(12, 16) + seq!['-']
        + h.subrange(16, 20) + seq!['-'] + h.subrange(20, 32)
}

/// The text of the version-4 UUID made from the 16 random bytes `b`.
pub open spec fn uuid_v4_text(b: Seq<u8>) -> Seq<char> {
    hyphenated(lower_hex(v4_bytes(b)))
}

/// uuid's `Builder::from_random_bytes(bytes).into_uuid().to_string()`: the builder sets the
/// version (4) and variant (RFC 4122) bits, and `to_string` writes the hyphenated lower-case
/// form. Claimed: the text is `uuid_v4_text` of the bytes.
#[verifier::external_body]
fn uuid_v4_from_bytes(bytes: &[u8; 16]) -> (r: String)
    ensures
        r@ == uuid_v4_text(bytes@),
{
    uuid::Builder::from_random_bytes(*bytes).into_uuid().to_string()
}

/// The shape of every version-4 UUID text: 36 characters, hyphens after the 8th, 12th, 16th and
/// 20th hex digits, the version digit `4` right after the second hyphen, and a variant digit
/// `8`, `9`, `a` or `b` right after the third.
pub proof fn lemma_uuid_shape(b: Seq<u8>)
    requires
        b.len() == 16,
    ensures
        uuid_v4_text(b).len() == 36,
        uuid_v4_text(b)[8] == '-',
        uuid_v4_text(b)[13] == '-',
        uuid_v4_text(b)[18] == '-',
        uuid_v4_text(b)[23] == '-',
        uuid_v4_text(b)[14] == '4',
        uuid_v4_text(b)[19] == '8' || uuid_v4_text(b)[19] == '9' || uuid_v4_text(b)[19] == 'a'
            || uuid_v4_text(b)[19] == 'b',
{
    let v = v4_bytes(b);
    lemma_lower_hex_index(v);
    let h = lower_hex(v);
    let x6 = b[6];
    let x8 = b[8];
    assert(((x6 & 0x0f) | 0x40) / 16 == 4) by (bit_vector);
    assert(8 <= ((x8 & 0x3f) | 0x80) / 16 <= 11) by (bit_vector);
    assert(v[6] == (x6 & 0x0f) | 0x40);
    assert(v[8] == (x8 & 0x3f) | 0x80);
    assert(h[2 * 6int] == hex_digit((v[6] / 16) as nat));
    assert(h[2 * 8int] == hex_digit((v[8] / 16) as nat));
    assert(uuid_v4_text(b)[14] == h[12]);
    assert(uuid_v4_text(b)[19] == h[16]);
}

/// A fresh random identifier: 16 bytes from the operating system's random source made into a
/// version-4 UUID, in its hyphenated lower-case text. `None` when the random source fails.
pub fn new_uuid_v4(rng: &ring::rand::SystemRandom) -> (r: Option<String>)
    ensures
        r matches Some(s) ==> exists|b: Seq<u8>| b.len() == 16 && s@ == #[trigger] uuid_v4_text(b),
{
    let mut buf: Vec<u8> = vec![0u8; 16];
    if !fill_random(rng, &mut buf) {
        return None;
    }
    let bytes: [u8; 16] = [
        buf[0], buf[1], buf[2], buf[3], buf[4], buf[5], buf[6], buf[7],
        buf[8], buf[9], buf[10], buf[11], buf[12], buf[13], buf[14], buf[15],
    ];
    Some(uuid_v4_from_bytes(&bytes))
}

} // verus!
