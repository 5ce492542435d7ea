use vstd::prelude::*;
use vstd::utf8::encode_utf8;

verus! {

// ---------------------------------------------------------------------------------------------
// The bytes that a message signature covers
// ---------------------------------------------------------------------------------------------

/// The lowest `n` bytes of `v`, least significant first.
pub open spec fn le_bytes(v: nat, n: nat) -> Seq<u8>
    decreases n,
{
    if n == 0 {
        Seq::empty()
    } else {
        seq![(v % 256) as u8] + le_bytes(v / 256, (n - 1) as nat)
    }
}

/// `v` as eight little-endian bytes.
pub open spec fn u64_le(v: nat) -> Seq<u8> {
    le_bytes(v, 8)
}

/// `bytes` preceded by their count as eight little-endian bytes.
pub open spec fn length_prefixed(bytes: Seq<u8>) -> Seq<u8> {
    u64_le(bytes.len()) + bytes
}

/// The bytes that a signature covers: the id, source and target as UTF-8 and the payload, each
/// preceded by its length, then the timestamp; all integers as eight little-endian bytes. This is
/// the fixed-width layout in which bincode 1 writes these five fields.
pub open spec fn signature_data(
    id: Seq<char>,
    source: Seq<char>,
    target: Seq<char>,
    payload: Seq<u8>,
    timestamp: u64,
) -> Seq<u8> {
    length_prefixed(encode_utf8(id)) + length_prefixed(encode_utf8(source)) + length_prefixed(
        encode_utf8(target),
    ) + length_prefixed(payload) + u64_le(timestamp as nat)
}

/// Appends `v` as eight little-endian bytes.
pub fn push_u64_le(out: &mut Vec<u8>, v: u64)
    ensures
        final(out)@ == old(out)@ + u64_le(v as nat),
{
    let mut x: u64 = v;
    let mut i: u64 = 0;
    while i < 8
        invariant
            i <= 8,
            old(out)@ + le_bytes(v as nat, 8) == out@ + le_bytes(x as nat, (8 - i) as nat),
        decreases 8 - i,
    {
        let ghost before = out@;
        out.push((x % 256) as u8);
        proof {
            assert(le_bytes(x as nat, (8 - i) as nat) == seq![(x % 256) as u8] + le_bytes((x / 256) as nat, (8 - i - 1) as nat));
            assert(out@ + le_bytes((x / 256) as nat, (8 - i - 1) as nat) =~= before + le_bytes(x as nat, (8 - i) as nat));
        }
        x = x / 256;
        i = i + 1;
    }
    assert(le_bytes(x as nat, 0) =~= Seq::<u8>::empty());
    assert(out@ =~= old(out)@ + le_bytes(v as nat, 8));
}

/// Appends `bytes`.
pub fn push_all(out: &mut Vec<u8>, bytes: &[u8])
    ensures
        final(out)@ == old(out)@ + bytes@,
{
    let mut i: usize = 0;
    while i < bytes.len()
        invariant
            i <= bytes@.len(),
            out@ == old(out)@ + bytes@.subrange(0, i as int),
        decreases bytes@.len() - i,
    {
        out.push(bytes[i]);
        proof {
            assert(out@ =~= old(out)@ + bytes@.subrange(0, i + 1));
        }
        i = i + 1;
    }
    assert(bytes@.subrange(0, bytes@.len() as int) =~= bytes@);
}

/// Appends `bytes` preceded by their count.
pub fn push_length_prefixed(out: &mut Vec<u8>, bytes: &[u8])
    ensures
        final(out)@ == old(out)@ + length_prefixed(bytes@),
{
    push_u64_le(out, bytes.len() as u64);
    push_all(out, bytes);
    assert(out@ =~= old(out)@ + length_prefixed(bytes@));
}

/// The bytes that a signature over these message fields covers.
pub fn signature_bytes(id: &str, source: &str, target: &str, payload: &[u8], timestamp: u64) -> (r: Vec<u8>)
    ensures
        r@ == signature_data(id@, source@, target@, payload@, timestamp),
{
    let mut out: Vec<u8> = Vec::new();
    push_length_prefixed(&mut out, id.as_bytes());
    push_length_prefixed(&mut out, source.as_bytes());
    push_length_prefixed(&mut out, target.as_bytes());
    push_length_prefixed(&mut out, payload);
    push_u64_le(&mut out, timestamp);
    assert(out@ =~= signature_data(id@, source@, target@, payload@, timestamp));
    out
}

// ---------------------------------------------------------------------------------------------
// The JSON text of an encrypted payload
// ---------------------------------------------------------------------------------------------

/// The ASCII code of the decimal digit `d`.
pub open spec fn digit(d: nat) -> u8 {
    (48 + d) as u8
}

/// Whether `c` is the ASCII code of a decimal digit.
pub open spec fn is_digit(c: u8) -> bool {
    48 <= c <= 57
}

/// `b` as a JSON number: its decimal digits, without leading zeros.
pub open spec fn dec_u8(b: u8) -> Seq<u8> {
    if b < 10 {
        seq![digit(b as nat)]
    } else if b < 100 {
        seq![digit((b / 10) as nat), digit((b % 10) as nat)]
    } else {
        seq![digit((b / 100) as nat), digit(((b / 10) % 10) as nat), digit((b % 10) as nat)]
    }
}

/// The items as JSON numbers separated by commas.
pub open spec fn json_items(items: Seq<u8>) -> Seq<u8>
    decreases items.len(),
{
    if items.len() == 0 {
        Seq::empty()
    } else if items.len() == 1 {
        dec_u8(items[0])
    } else {
        dec_u8(items[0]) + seq![44u8] + json_items(items.drop_first())
    }
}

/// The items as a JSON array of numbers, without spaces.
pub open spec fn json_array(items: Seq<u8>) -> Seq<u8> {
    seq![91u8] + json_items(items) + seq![93u8]
}

/// `{"nonce":`
pub open spec fn nonce_key() -> Seq<u8> {
    seq![123u8, 34, 110, 111, 110, 99, 101, 34, 58]
}

/// `,"ciphertext":`
pub open spec fn ciphertext_key() -> Seq<u8> {
    seq![44u8, 34, 99, 105, 112, 104, 101, 114, 116, 101, 120, 116, 34, 58]
}

/// The compact JSON object of an encrypted payload:
/// `{"nonce":[...],"ciphertext":[...]}`, the two byte lists as arrays of numbers.
pub open spec fn encrypted_payload_json(nonce: Seq<u8>, ciphertext: Seq<u8>) -> Seq<u8> {
    two_arrays(nonce_key(), nonce, ciphertext_key(), ciphertext)
}

/// `{"ciphertext":`
pub open spec fn ciphertext_first_key() -> Seq<u8> {
    seq![123u8, 34, 99, 105, 112, 104, 101, 114, 116, 101, 120, 116, 34, 58]
}

/// `,"nonce":`
pub open spec fn nonce_second_key() -> Seq<u8> {
    seq![44u8, 34, 110, 111, 110, 99, 101, 34, 58]
}

/// The compact JSON object of an encrypted payload with the ciphertext written first.
pub open spec fn swapped_payload_json(nonce: Seq<u8>, ciphertext: Seq<u8>) -> Seq<u8> {
    two_arrays(ciphertext_first_key(), ciphertext, nonce_second_key(), nonce)
}

/// An object of two array fields: the opening text `k1` with the first key, the first array, the
/// text `k2` with the comma and second key, the second array, and `}`.
pub open spec fn two_arrays(k1: Seq<u8>, a: Seq<u8>, k2: Seq<u8>, b: Seq<u8>) -> Seq<u8> {
    k1 + json_array(a) + k2 + json_array(b) + seq![125u8]
}

/// JSON's whitespace bytes: space, tab, line feed, carriage return.
pub open spec fn is_json_ws(b: u8) -> bool {
    b == 32 || b == 9 || b == 10 || b == 13
}

/// JSON's structural bytes: `{ } [ ] , :`.
pub open spec fn is_structural(b: u8) -> bool {
    b == 123 || b == 125 || b == 91 || b == 93 || b == 44 || b == 58
}

/// The text without its whitespace bytes.
pub open spec fn strip_ws(s: Seq<u8>) -> Seq<u8>
    decreases s.len(),
{
    if s.len() == 0 {
        s
    } else if is_json_ws(s.last()) {
        strip_ws(s.drop_last())
    } else {
        strip_ws(s.drop_last()).push(s.last())
    }
}

/// Whether whitespace in the text stands only where JSON allows it between tokens: every run of
/// whitespace between two other bytes has a structural byte on one side of it, so no number or
/// string is split by whitespace.
pub open spec fn ws_ok(s: Seq<u8>) -> bool
    decreases s.len(),
{
    if s.len() == 0 {
        true
    } else if is_json_ws(s.last()) {
        ws_ok(s.drop_last())
    } else {
        &&& ws_ok(s.drop_last())
        &&& (s.len() >= 2 && is_json_ws(s[s.len() - 2]) && strip_ws(s.drop_last()).len() > 0)
            ==> (is_structural(strip_ws(s.drop_last()).last()) || is_structural(s.last()))
    }
}

/// Whether `data` is a JSON text of an encrypted payload with this nonce and ciphertext: the two
/// fields in either order, with whitespace where JSON allows it.
pub open spec fn is_payload_text(data: Seq<u8>, nonce: Seq<u8>, ciphertext: Seq<u8>) -> bool {
    &&& ws_ok(data)
    &&& (strip_ws(data) == encrypted_payload_json(nonce, ciphertext)
        || strip_ws(data) == swapped_payload_json(nonce, ciphertext))
}

proof fn lemma_dec_u8_digits(b: u8)
    ensures
        1 <= dec_u8(b).len() <= 3,
        forall|i: int| 0 <= i < dec_u8(b).len() ==> is_digit(#[trigger] dec_u8(b)[i]),
        dec_u8(b).len() > 1 ==> dec_u8(b)[0] != 48,
{
}

/// The decimal text of a byte determines the byte.
proof fn lemma_dec_u8_injective(a: u8, b: u8)
    requires
        dec_u8(a) == dec_u8(b),
    ensures
        a == b,
{
    if a < 10 {
        assert(dec_u8(a).len() == 1);
        assert(b < 10);
        assert(dec_u8(a)[0] == dec_u8(b)[0]);
        assert(digit(a as nat) == 48 + a);
        assert(digit(b as nat) == 48 + b);
        assert(dec_u8(a)[0] == digit(a as nat));
        assert(dec_u8(b)[0] == digit(b as nat));
        assert(a == b);
    } else if a < 100 {
        assert(dec_u8(a).len() == 2);
        assert(dec_u8(a)[0] == dec_u8(b)[0]);
        assert(dec_u8(a)[1] == dec_u8(b)[1]);
        assert(a / 10 == b / 10);
        assert(a % 10 == b % 10);
        assert(a == b) by (nonlinear_arith)
            requires a / 10 == b / 10, a % 10 == b % 10;
        assert(a == b);
    } else {
        assert(dec_u8(a).len() == 3);
        assert(dec_u8(a)[0] == dec_u8(b)[0]);
        assert(dec_u8(a)[1] == dec_u8(b)[1]);
        assert(dec_u8(a)[2] == dec_u8(b)[2]);
        assert(a / 100 == b / 100);
        assert((a / 10) % 10 == (b / 10) % 10);
        assert(a % 10 == b % 10);
        assert(a == b) by (nonlinear_arith)
            requires a / 100 == b / 100, (a / 10) % 10 == (b / 10) % 10, a % 10 == b % 10;
    }
}

/// A number followed by a non-digit (or by nothing) cannot be read two ways.
proof fn lemma_dec_u8_prefix(a: u8, b: u8, x: Seq<u8>, y: Seq<u8>)
    requires
        dec_u8(a) + x == dec_u8(b) + y,
        x.len() > 0 ==> !is_digit(x[0]),
        y.len() > 0 ==> !is_digit(y[0]),
    ensures
        a == b,
        x == y,
{
    lemma_dec_u8_digits(a);
    lemma_dec_u8_digits(b);
    let s = dec_u8(a) + x;
    let la = dec_u8(a).len();
    let lb = dec_u8(b).len();
    if la < lb {
        assert(s[la as int] == dec_u8(b)[la as int]);
        if x.len() > 0 {
            assert(s[la as int] == x[0]);
        } else {
            assert(s.len() == la);
        }
    }
    if lb < la {
        assert(s[lb as int] == dec_u8(a)[lb as int]);
        assert((dec_u8(b) + y)[lb as int] == s[lb as int]);
        if y.len() > 0 {
            assert((dec_u8(b) + y)[lb as int] == y[0]);
        } else {
            assert((dec_u8(b) + y).len() == lb);
        }
    }
    assert(la == lb);
    assert(dec_u8(a) =~= s.subrange(0, la as int));
    assert(dec_u8(b) =~= (dec_u8(b) + y).subrange(0, lb as int));
    lemma_dec_u8_injective(a, b);
    assert(x =~= s.subrange(la as int, s.len() as int));
    assert(y =~= (dec_u8(b) + y).subrange(lb as int, s.len() as int));
}

/// The list text has at least one character per item.
proof fn lemma_json_items_len(items: Seq<u8>)
    ensures
        json_items(items).len() >= items.len(),
    decreases items.len(),
{
    if items.len() > 0 {
        lemma_dec_u8_digits(items[0]);
        lemma_json_items_len(items.drop_first());
    }
}

/// The JSON text of an encrypted payload is longer than the ciphertext it holds.
pub proof fn lemma_payload_json_longer(nonce: Seq<u8>, ciphertext: Seq<u8>)
    ensures
        encrypted_payload_json(nonce, ciphertext).len() > ciphertext.len(),
{
    lemma_json_items_len(ciphertext);
}

/// The list text splits after any item: the first `k` items, a comma, then the rest.
proof fn lemma_json_items_split(items: Seq<u8>, k: int)
    requires
        0 < k < items.len(),
    ensures
        json_items(items) == json_items(items.take(k)) + seq![44u8] + json_items(items.skip(k)),
    decreases k,
{
    if k == 1 {
        assert(items.take(1) =~= seq![items[0]]);
        assert(items.skip(1) =~= items.drop_first());
    } else {
        let rest = items.drop_first();
        lemma_json_items_split(rest, k - 1);
        assert(items.take(k).drop_first() =~= rest.take(k - 1));
        assert(items.take(k)[0] == items[0]);
        assert(rest.skip(k - 1) =~= items.skip(k));
        assert(json_items(items.take(k)) == dec_u8(items[0]) + seq![44u8] + json_items(rest.take(k - 1)));
    }
}

/// Appending an item to a non-empty list adds a comma and the item's number.
proof fn lemma_json_items_push(items: Seq<u8>, b: u8)
    ensures
        items.len() == 0 ==> json_items(items.push(b)) == dec_u8(b),
        items.len() > 0 ==> json_items(items.push(b)) == json_items(items) + seq![44u8] + dec_u8(b),
{
    let all = items.push(b);
    if items.len() == 0 {
        assert(all.len() == 1);
    } else {
        lemma_json_items_split(all, items.len() as int);
        assert(all.take(items.len() as int) =~= items);
        assert(all.skip(items.len() as int) =~= seq![b]);
    }
}

/// A list text closed by `]` cannot be read two ways.
proof fn lemma_json_items_unique(a: Seq<u8>, b: Seq<u8>, x: Seq<u8>, y: Seq<u8>)
    requires
        json_items(a) + seq![93u8] + x == json_items(b) + seq![93u8] + y,
    ensures
        a == b,
        x == y,
    decreases a.len(),
{
    let s = json_items(a) + seq![93u8] + x;
    if a.len() == 0 {
        if b.len() > 0 {
            lemma_dec_u8_digits(b[0]);
            assert(s[0] == 93u8);
            assert((json_items(b) + seq![93u8] + y)[0] == dec_u8(b[0])[0]);
        }
        assert(x =~= s.subrange(1, s.len() as int));
        assert(y =~= (json_items(b) + seq![93u8] + y).subrange(1, s.len() as int));
    } else if b.len() == 0 {
        lemma_dec_u8_digits(a[0]);
        assert(s[0] == dec_u8(a[0])[0]);
        assert((json_items(b) + seq![93u8] + y)[0] == 93u8);
    } else {
        let ta = if a.len() == 1 { seq![93u8] + x } else { seq![44u8] + json_items(a.drop_first()) + seq![93u8] + x };
        let tb = if b.len() == 1 { seq![93u8] + y } else { seq![44u8] + json_items(b.drop_first()) + seq![93u8] + y };
        assert(s =~= dec_u8(a[0]) + ta);
        assert(json_items(b) + seq![93u8] + y =~= dec_u8(b[0]) + tb);
        lemma_dec_u8_prefix(a[0], b[0], ta, tb);
        if a.len() == 1 && b.len() > 1 {
            assert(ta[0] != tb[0]);
        } else if a.len() > 1 && b.len() == 1 {
            assert(ta[0] != tb[0]);
        } else if a.len() == 1 {
            assert(a =~= b);
            assert(x =~= ta.subrange(1, ta.len() as int));
            assert(y =~= tb.subrange(1, tb.len() as int));
        } else {
            let ra = json_items(a.drop_first()) + seq![93u8] + x;
            let rb = json_items(b.drop_first()) + seq![93u8] + y;
            assert(ra =~= ta.subrange(1, ta.len() as int));
            assert(rb =~= tb.subrange(1, tb.len() as int));
            lemma_json_items_unique(a.drop_first(), b.drop_first(), x, y);
            assert(a =~= seq![a[0]] + a.drop_first());
            assert(b =~= seq![b[0]] + b.drop_first());
        }
    }
}

/// An object of two array fields, with its key texts fixed, determines both arrays.
proof fn lemma_two_arrays_unique(k1: Seq<u8>, k2: Seq<u8>, a1: Seq<u8>, b1: Seq<u8>, a2: Seq<u8>, b2: Seq<u8>)
    requires
        two_arrays(k1, a1, k2, b1) == two_arrays(k1, a2, k2, b2),
    ensures
        a1 == a2,
        b1 == b2,
{
    let s = two_arrays(k1, a1, k2, b1);
    let l = k1.len() as int;
    let x1 = k2 + json_array(b1) + seq![125u8];
    let x2 = k2 + json_array(b2) + seq![125u8];
    let t1 = json_items(a1) + seq![93u8] + x1;
    let t2 = json_items(a2) + seq![93u8] + x2;
    assert(s =~= k1 + seq![91u8] + t1);
    assert(two_arrays(k1, a2, k2, b2) =~= k1 + seq![91u8] + t2);
    assert(t1 =~= s.subrange(l + 1, s.len() as int));
    assert(t2 =~= s.subrange(l + 1, s.len() as int));
    lemma_json_items_unique(a1, a2, x1, x2);
    let m = k2.len() as int;
    let y1 = json_items(b1) + seq![93u8] + seq![125u8];
    let y2 = json_items(b2) + seq![93u8] + seq![125u8];
    assert(x1 =~= k2 + seq![91u8] + y1);
    assert(x2 =~= k2 + seq![91u8] + y2);
    assert(y1 =~= x1.subrange(m + 1, x1.len() as int));
    assert(y2 =~= x2.subrange(m + 1, x2.len() as int));
    lemma_json_items_unique(b1, b2, seq![125u8], seq![125u8]);
}

/// The JSON text of an encrypted payload determines the nonce and the ciphertext.
pub proof fn lemma_payload_json_unique(n1: Seq<u8>, c1: Seq<u8>, n2: Seq<u8>, c2: Seq<u8>)
    requires
        encrypted_payload_json(n1, c1) == encrypted_payload_json(n2, c2),
    ensures
        n1 == n2,
        c1 == c2,
{
    lemma_two_arrays_unique(nonce_key(), ciphertext_key(), n1, c1, n2, c2);
}

/// Appends `b` as a JSON number.
fn push_dec_u8(out: &mut Vec<u8>, b: u8)
    ensures
        final(out)@ == old(out)@ + dec_u8(b),
{
    if b >= 100 {
        out.push(48 + b / 100);
        out.push(48 + (b / 10) % 10);
        out.push(48 + b % 10);
    } else if b >= 10 {
        out.push(48 + b / 10);
        out.push(48 + b % 10);
    } else {
        out.push(48 + b);
    }
    assert(out@ =~= old(out)@ + dec_u8(b));
}

/// Appends `items` as a JSON array of numbers.
fn push_json_array(out: &mut Vec<u8>, items: &[u8])
    ensures
        final(out)@ == old(out)@ + json_array(items@),
{
    out.push(91);
    let mut i: usize = 0;
    while i < items.len()
        invariant
            i <= items@.len(),
            out@ == old(out)@ + seq![91u8] + json_items(items@.take(i as int)),
        decreases items@.len() - i,
    {
        let ghost before = out@;
        if i > 0 {
            out.push(44);
        }
        push_dec_u8(out, items[i]);
        proof {
            assert(items@.take(i as int).push(items@[i as int]) =~= items@.take(i + 1));
            lemma_json_items_push(items@.take(i as int), items@[i as int]);
            assert(out@ =~= old(out)@ + seq![91u8] + json_items(items@.take(i + 1)));
        }
        i = i + 1;
    }
    out.push(93);
    assert(items@.take(items@.len() as int) =~= items@);
    assert(out@ =~= old(out)@ + json_array(items@));
}

/// The compact JSON object of an encrypted payload.
pub fn encode_encrypted_payload(nonce: &[u8], ciphertext: &[u8]) -> (r: Vec<u8>)
    ensures
        r@ == encrypted_payload_json(nonce@, ciphertext@),
{
    let mut out: Vec<u8> = vec![123u8, 34, 110, 111, 110, 99, 101, 34, 58];
    assert(out@ =~= nonce_key());
    push_json_array(&mut out, nonce);
    let key: Vec<u8> = vec![44u8, 34, 99, 105, 112, 104, 101, 114, 116, 101, 120, 116, 34, 58];
    assert(key@ =~= ciphertext_key());
    push_all(&mut out, key.as_slice());
    push_json_array(&mut out, ciphertext);
    out.push(125);
    assert(out@ =~= encrypted_payload_json(nonce@, ciphertext@));
    out
}

fn byte_is_digit(c: u8) -> (r: bool)
    ensures
        r == is_digit(c),
{
    48 <= c && c <= 57
}

/// Reads a JSON number of at most 255, without leading zeros, at `pos`: the byte and the
/// position after it. When `expected` names a byte whose number stands at `pos`, followed by a
/// non-digit or by the end, that byte is read.
fn parse_dec_u8(data: &[u8], pos: usize, Ghost(expected): Ghost<Option<u8>>) -> (r: Option<(u8, usize)>)
    requires
        expected matches Some(b) ==> pos + dec_u8(b).len() <= data@.len()
            && data@.subrange(pos as int, pos + dec_u8(b).len()) == dec_u8(b)
            && (pos + dec_u8(b).len() < data@.len() ==> !is_digit(data@[pos + dec_u8(b).len()])),
    ensures
        r matches Some((b, end)) ==> pos < end <= data@.len() && data@.subrange(pos as int, end as int) == dec_u8(b)
            && (end < data@.len() ==> !is_digit(data@[end as int])),
        expected matches Some(b) ==> r == Some((b, (pos + dec_u8(b).len()) as usize)),
{
    proof {
        if let Some(b) = expected {
            lemma_dec_u8_digits(b);
            let l = dec_u8(b).len() as int;
            let sub = data@.subrange(pos as int, pos + l);
            assert(sub[0] == data@[pos as int]);
            assert(is_digit(dec_u8(b)[0]));
            if l > 1 {
                assert(sub[1] == data@[pos + 1]);
                assert(is_digit(dec_u8(b)[1]));
            }
            if l > 2 {
                assert(sub[2] == data@[pos + 2]);
                assert(is_digit(dec_u8(b)[2]));
            }
        }
    }
    let n = data.len();
    if pos >= n || !byte_is_digit(data[pos]) {
        return None;
    }
    let d0: u8 = data[pos] - 48;
    if pos + 1 >= n || !byte_is_digit(data[pos + 1]) {
        proof {
            assert(data@.subrange(pos as int, pos + 1) =~= dec_u8(d0));
        }
        return Some((d0, pos + 1));
    }
    if d0 == 0 {
        return None;
    }
    let d1: u8 = data[pos + 1] - 48;
    if pos + 2 >= n || !byte_is_digit(data[pos + 2]) {
        let v: u8 = d0 * 10 + d1;
        proof {
            assert(data@.subrange(pos as int, pos + 2) =~= dec_u8(v));
        }
        return Some((v, pos + 2));
    }
    let d2: u8 = data[pos + 2] - 48;
    if pos + 3 < n && byte_is_digit(data[pos + 3]) {
        return None;
    }
    let w: u16 = d0 as u16 * 100 + d1 as u16 * 10 + d2 as u16;
    if w > 255 {
        return None;
    }
    let v: u8 = w as u8;
    proof {
        assert(data@.subrange(pos as int, pos + 3) =~= dec_u8(v));
    }
    Some((v, pos + 3))
}

/// The length of the array text before item `k`'s number: the `[`, and the earlier items
/// with their commas.
pub open spec fn item_offset(items: Seq<u8>, k: int) -> int {
    if k == 0 { 1 } else { 2 + json_items(items.take(k)).len() as int }
}

/// Item `k`'s number stands at `item_offset` in the array text, followed by a comma when more
/// items follow and by `]` after the last.
proof fn lemma_item_position(items: Seq<u8>, k: int)
    requires
        0 <= k < items.len(),
    ensures
        item_offset(items, k) + dec_u8(items[k]).len() < json_array(items).len(),
        json_array(items).subrange(item_offset(items, k), item_offset(items, k) + dec_u8(items[k]).len())
            == dec_u8(items[k]),
        json_array(items)[item_offset(items, k) + dec_u8(items[k]).len()]
            == (if k + 1 < items.len() { 44u8 } else { 93u8 }),
{
    let b = items[k];
    let before = if k == 0 { seq![91u8] } else { seq![91u8] + json_items(items.take(k)) + seq![44u8] };
    let tail = if k + 1 < items.len() { seq![44u8] + json_items(items.skip(k + 1)) + seq![93u8] } else { seq![93u8] };
    if k > 0 {
        lemma_json_items_split(items, k);
        let rest = items.skip(k);
        if rest.len() > 1 {
            lemma_json_items_split(rest, 1);
            assert(rest.take(1) =~= seq![b]);
            assert(rest.skip(1) =~= items.skip(k + 1));
        }
        assert(json_array(items) =~= before + dec_u8(b) + tail);
    } else {
        if items.len() > 1 {
            lemma_json_items_split(items, 1);
            assert(items.take(1) =~= seq![b]);
        }
        assert(json_array(items) =~= before + dec_u8(b) + tail);
    }
    assert(before.len() == item_offset(items, k));
    assert(json_array(items).subrange(before.len() as int, (before.len() + dec_u8(b).len()) as int) =~= dec_u8(b));
}

/// Where the array text of `items` stands in `data` at `pos`, item `k`'s number stands at
/// `pos + item_offset`, followed by the comma or `]`.
proof fn lemma_expected_number(data: Seq<u8>, pos: int, items: Seq<u8>, k: int)
    requires
        0 <= pos,
        pos + json_array(items).len() <= data.len(),
        data.subrange(pos, pos + json_array(items).len()) == json_array(items),
        0 <= k < items.len(),
    ensures
        ({
            let at = pos + item_offset(items, k);
            let l = dec_u8(items[k]).len() as int;
            &&& at + l < data.len()
            &&& data.subrange(at, at + l) == dec_u8(items[k])
            &&& data[at + l] == (if k + 1 < items.len() { 44u8 } else { 93u8 })
        }),
{
    lemma_item_position(items, k);
    let whole = data.subrange(pos, pos + json_array(items).len());
    let off = item_offset(items, k);
    let l = dec_u8(items[k]).len() as int;
    assert(data.subrange(pos + off, pos + off + l) =~= whole.subrange(off, off + l));
    assert(whole[off + l] == data[pos + off + l]);
}

/// Reads a JSON array of such numbers at `pos`: the bytes and the position after the `]`. When
/// `expected` names a list whose array stands at `pos`, that list is read.
#[verifier::rlimit(40)]
fn parse_json_array(data: &[u8], pos: usize, Ghost(expected): Ghost<Option<Seq<u8>>>) -> (r: Option<(Vec<u8>, usize)>)
    requires
        expected matches Some(items) ==> pos + json_array(items).len() <= data@.len()
            && data@.subrange(pos as int, pos + json_array(items).len()) == json_array(items),
    ensures
        r matches Some((v, end)) ==> pos < end <= data@.len()
            && data@.subrange(pos as int, end as int) == json_array(v@),
        expected matches Some(items) ==> (r matches Some((v, end)) && v@ == items
            && end == pos + json_array(items).len()),
{
    let n = data.len();
    proof {
        if let Some(items) = expected {
            assert(data@.subrange(pos as int, pos + json_array(items).len())[0] == data@[pos as int]);
            if items.len() == 0 {
                assert(json_array(items) =~= seq![91u8, 93u8]);
                assert(data@.subrange(pos as int, pos + json_array(items).len())[1] == data@[pos + 1]);
            } else {
                lemma_expected_number(data@, pos as int, items, 0);
                lemma_dec_u8_digits(items[0]);
                assert(data@.subrange(pos + 1, pos + 1 + dec_u8(items[0]).len())[0] == data@[pos + 1]);
            }
        }
    }
    if pos >= n || data[pos] != 91 {
        return None;
    }
    let mut out: Vec<u8> = Vec::new();
    let mut cur: usize = pos + 1;
    if cur < n && data[cur] == 93 {
        proof {
            assert(data@.subrange(pos as int, cur + 1) =~= json_array(out@));
            if let Some(items) = expected {
                assert(items =~= out@);
            }
        }
        return Some((out, cur + 1));
    }
    loop
        invariant
            pos < cur <= n,
            n == data@.len(),
            data@[pos as int] == 91u8,
            out@.len() > 0 ==> data@.subrange(pos as int, cur as int) == seq![91u8] + json_items(out@) + seq![44u8],
            out@.len() == 0 ==> cur == pos + 1,
            expected matches Some(items) ==> {
                &&& pos + json_array(items).len() <= data@.len()
                &&& data@.subrange(pos as int, pos + json_array(items).len()) == json_array(items)
                &&& out@.len() < items.len()
                &&& out@ == items.take(out@.len() as int)
                &&& cur == pos + item_offset(items, out@.len() as int)
            },
        decreases n - cur,
    {
        let ghost k = out@.len() as int;
        let ghost exp_b: Option<u8> = match expected {
            Some(items) => Some(items[k]),
            None => None,
        };
        proof {
            if let Some(items) = expected {
                lemma_expected_number(data@, pos as int, items, k);
            }
        }
        let (b, end) = match parse_dec_u8(data, cur, Ghost(exp_b)) {
            Some(x) => x,
            None => return None,
        };
        let ghost prev = out@;
        out.push(b);
        proof {
            lemma_json_items_push(prev, b);
            assert(data@.subrange(pos as int, end as int) =~= data@.subrange(pos as int, cur as int) + data@.subrange(cur as int, end as int));
            if prev.len() == 0 {
                assert(data@.subrange(pos as int, cur as int) =~= seq![91u8]);
            }
            assert(data@.subrange(pos as int, end as int) == seq![91u8] + json_items(out@));
            if let Some(items) = expected {
                assert(out@ =~= items.take(k + 1));
            }
        }
        if end >= n {
            return None;
        }
        let c = data[end];
        if c == 93 {
            proof {
                assert(data@.subrange(pos as int, end + 1) =~= data@.subrange(pos as int, end as int).push(93u8));
                assert(data@.subrange(pos as int, end + 1) =~= json_array(out@));
                if let Some(items) = expected {
                    assert(out@.len() == items.len());
                    assert(out@ =~= items);
                }
            }
            return Some((out, end + 1));
        } else if c == 44 {
            proof {
                assert(data@.subrange(pos as int, end + 1) =~= data@.subrange(pos as int, end as int).push(44u8));
                if let Some(items) = expected {
                    assert(k + 1 < items.len());
                    assert(items.take(k + 1) == out@);
                }
            }
            cur = end + 1;
        } else {
            return None;
        }
    }
}

/// Whether the bytes of `lit` stand in `data` at `pos`.
fn bytes_at(data: &[u8], pos: usize, lit: &Vec<u8>) -> (r: bool)
    ensures
        r == (pos + lit@.len() <= data@.len() && data@.subrange(pos as int, pos + lit@.len()) == lit@),
{
    if pos > data.len() || lit.len() > data.len() - pos {
        return false;
    }
    let mut i: usize = 0;
    while i < lit.len()
        invariant
            pos + lit@.len() <= data@.len(),
            data@.len() <= usize::MAX,
            i <= lit@.len(),
            forall|j: int| 0 <= j < i ==> data@[pos + j] == lit@[j],
        decreases lit@.len() - i,
    {
        if data[pos + i] != lit[i] {
            assert(data@.subrange(pos as int, pos + lit@.len())[i as int] == data@[pos + i]);
            return false;
        }
        i = i + 1;
    }
    assert(data@.subrange(pos as int, pos + lit@.len()) =~= lit@);
    true
}

/// The two arrays of an object of two array fields with key texts `k1` and `k2`: `Some` exactly
/// when `data` is `two_arrays` of some arrays, and then those.
fn decode_two(data: &[u8], k1: &Vec<u8>, k2: &Vec<u8>) -> (r: Option<(Vec<u8>, Vec<u8>)>)
    ensures
        r matches Some((a, b)) ==> data@ == two_arrays(k1@, a@, k2@, b@),
        forall|a: Seq<u8>, b: Seq<u8>| #[trigger] two_arrays(k1@, a, k2@, b) == data@
            ==> (r matches Some((a2, b2)) && a2@ == a && b2@ == b),
{
    let ghost witness: Option<(Seq<u8>, Seq<u8>)> = if exists|a: Seq<u8>, b: Seq<u8>| #[trigger] two_arrays(k1@, a, k2@, b) == data@ {
        Some(choose|a: Seq<u8>, b: Seq<u8>| #[trigger] two_arrays(k1@, a, k2@, b) == data@)
    } else {
        None
    };
    let ghost wa: Option<Seq<u8>> = match witness { Some(w) => Some(w.0), None => None };
    let ghost wb: Option<Seq<u8>> = match witness { Some(w) => Some(w.1), None => None };
    let ghost l0: int = k1@.len() as int;
    let ghost m: int = k2@.len() as int;
    let ghost l1: int = match witness { Some(w) => l0 + json_array(w.0).len() as int, None => 0 };
    proof {
        if let Some(w) = witness {
            let d = data@;
            assert(d == two_arrays(k1@, w.0, k2@, w.1));
            assert(d.subrange(0, l0) =~= k1@);
            assert(d.subrange(l0, l1) =~= json_array(w.0));
            assert(d.subrange(l1, l1 + m) =~= k2@);
            assert(d.subrange(l1 + m, l1 + m + json_array(w.1).len()) =~= json_array(w.1));
            assert(d[l1 + m + json_array(w.1).len()] == 125u8);
        }
    }
    if !bytes_at(data, 0, k1) {
        return None;
    }
    let (a, e1) = match parse_json_array(data, k1.len(), Ghost(wa)) {
        Some(x) => x,
        None => return None,
    };
    if !bytes_at(data, e1, k2) {
        return None;
    }
    let dl = data.len();
    let kl = k2.len();
    assert(e1 + kl <= dl);
    let start = e1 + kl;
    let (b, e2) = match parse_json_array(data, start, Ghost(wb)) {
        Some(x) => x,
        None => return None,
    };
    if e2 >= data.len() || data[e2] != 125 || e2 + 1 != data.len() {
        return None;
    }
    proof {
        let d = data@;
        assert(d =~= d.subrange(0, l0) + d.subrange(l0, e1 as int) + d.subrange(e1 as int, e1 + m)
            + d.subrange(e1 + m, e2 as int) + seq![125u8]);
        assert(d =~= two_arrays(k1@, a@, k2@, b@));
        assert forall|a0: Seq<u8>, b0: Seq<u8>| #[trigger] two_arrays(k1@, a0, k2@, b0) == data@
            implies a0 == a@ && b0 == b@ by {
            lemma_two_arrays_unique(k1@, k2@, a0, b0, a@, b@);
        }
    }
    Some((a, b))
}

/// The text without whitespace, and whether its whitespace stands only where JSON allows it.
fn strip_json_ws(data: &[u8]) -> (r: (Vec<u8>, bool))
    ensures
        r.0@ == strip_ws(data@),
        r.1 == ws_ok(data@),
{
    let mut out: Vec<u8> = Vec::new();
    let mut ok: bool = true;
    let mut prev_ws: bool = false;
    let mut i: usize = 0;
    while i < data.len()
        invariant
            i <= data@.len(),
            out@ == strip_ws(data@.subrange(0, i as int)),
            ok == ws_ok(data@.subrange(0, i as int)),
            prev_ws == (i > 0 && is_json_ws(data@[i - 1])),
        decreases data@.len() - i,
    {
        let b = data[i];
        let ws = b == 32 || b == 9 || b == 10 || b == 13;
        let structural = b == 123 || b == 125 || b == 91 || b == 93 || b == 44 || b == 58;
        let ghost pre = data@.subrange(0, i as int);
        let ghost next = data@.subrange(0, i + 1);
        assert(next.drop_last() =~= pre);
        assert(next.last() == b);
        if !ws {
            if prev_ws && out.len() > 0 {
                let last = out[out.len() - 1];
                let last_structural = last == 123 || last == 125 || last == 91 || last == 93 || last == 44 || last == 58;
                if !last_structural && !structural {
                    ok = false;
                }
            }
            out.push(b);
        }
        proof {
            if i > 0 {
                assert(next[next.len() - 2] == data@[i - 1]);
            }
        }
        prev_ws = ws;
        i = i + 1;
    }
    assert(data@.subrange(0, data@.len() as int) =~= data@);
    (out, ok)
}

/// Text without whitespace bytes is its own stripped form, and its whitespace is in order.
proof fn lemma_no_ws(s: Seq<u8>)
    requires
        forall|i: int| 0 <= i < s.len() ==> !is_json_ws(#[trigger] s[i]),
    ensures
        strip_ws(s) == s,
        ws_ok(s),
    decreases s.len(),
{
    if s.len() > 0 {
        let p = s.drop_last();
        assert forall|i: int| 0 <= i < p.len() implies !is_json_ws(#[trigger] p[i]) by {
            assert(p[i] == s[i]);
        }
        lemma_no_ws(p);
        assert(s =~= p.push(s.last()));
        if s.len() >= 2 {
            assert(!is_json_ws(s[s.len() - 2]));
        }
    }
}

/// The bytes of a list text are digits and commas.
proof fn lemma_json_items_bytes(items: Seq<u8>)
    ensures
        forall|i: int| 0 <= i < json_items(items).len() ==> is_digit(#[trigger] json_items(items)[i])
            || json_items(items)[i] == 44u8,
    decreases items.len(),
{
    if items.len() > 0 {
        lemma_dec_u8_digits(items[0]);
        lemma_json_items_bytes(items.drop_first());
        let d = dec_u8(items[0]);
        if items.len() == 1 {
        } else {
            let rest = json_items(items.drop_first());
            let all = d + seq![44u8] + rest;
            assert(json_items(items) == all);
            assert forall|i: int| 0 <= i < all.len() implies is_digit(#[trigger] all[i]) || all[i] == 44u8 by {
                if i < d.len() {
                } else if i == d.len() {
                } else {
                    assert(all[i] == rest[i - d.len() - 1]);
                }
            }
        }
    }
}

/// An object of two array fields whose key texts hold no whitespace holds none at all.
proof fn lemma_two_arrays_no_ws(k1: Seq<u8>, a: Seq<u8>, k2: Seq<u8>, b: Seq<u8>)
    requires
        forall|i: int| 0 <= i < k1.len() ==> !is_json_ws(#[trigger] k1[i]),
        forall|i: int| 0 <= i < k2.len() ==> !is_json_ws(#[trigger] k2[i]),
    ensures
        forall|i: int| 0 <= i < two_arrays(k1, a, k2, b).len() ==> !is_json_ws(#[trigger] two_arrays(k1, a, k2, b)[i]),
{
    lemma_json_items_bytes(a);
    lemma_json_items_bytes(b);
    let ja = json_array(a);
    let jb = json_array(b);
    assert forall|i: int| 0 <= i < ja.len() implies !is_json_ws(#[trigger] ja[i]) by {
        if 0 < i < ja.len() - 1 {
            assert(ja[i] == json_items(a)[i - 1]);
        }
    }
    assert forall|i: int| 0 <= i < jb.len() implies !is_json_ws(#[trigger] jb[i]) by {
        if 0 < i < jb.len() - 1 {
            assert(jb[i] == json_items(b)[i - 1]);
        }
    }
    let t = two_arrays(k1, a, k2, b);
    assert forall|i: int| 0 <= i < t.len() implies !is_json_ws(#[trigger] t[i]) by {
        let p1 = k1.len() as int;
        let p2 = p1 + ja.len();
        let p3 = p2 + k2.len();
        let p4 = p3 + jb.len();
        if i < p1 {
            assert(t[i] == k1[i]);
        } else if i < p2 {
            assert(t[i] == ja[i - p1]);
        } else if i < p3 {
            assert(t[i] == k2[i - p2]);
        } else if i < p4 {
            assert(t[i] == jb[i - p3]);
        }
    }
}

/// Compact JSON texts of encrypted payloads hold no whitespace, and the two field orders never
/// give the same text.
proof fn lemma_compact_forms(n: Seq<u8>, c: Seq<u8>, n2: Seq<u8>, c2: Seq<u8>)
    ensures
        ws_ok(encrypted_payload_json(n, c)),
        strip_ws(encrypted_payload_json(n, c)) == encrypted_payload_json(n, c),
        ws_ok(swapped_payload_json(n, c)),
        strip_ws(swapped_payload_json(n, c)) == swapped_payload_json(n, c),
        encrypted_payload_json(n, c) != swapped_payload_json(n2, c2),
{
    lemma_two_arrays_no_ws(nonce_key(), n, ciphertext_key(), c);
    lemma_two_arrays_no_ws(ciphertext_first_key(), c, nonce_second_key(), n);
    lemma_no_ws(encrypted_payload_json(n, c));
    lemma_no_ws(swapped_payload_json(n, c));
    assert(encrypted_payload_json(n, c)[2] == 110u8);
    assert(swapped_payload_json(n2, c2)[2] == 99u8);
}

/// The compact text that encoding writes is a JSON text of its nonce and ciphertext.
pub proof fn lemma_compact_is_payload_text(nonce: Seq<u8>, ciphertext: Seq<u8>)
    ensures
        is_payload_text(encrypted_payload_json(nonce, ciphertext), nonce, ciphertext),
{
    lemma_compact_forms(nonce, ciphertext, nonce, ciphertext);
}

/// The nonce and ciphertext of an encrypted payload's JSON text: `Some` exactly when `data` is
/// such a text (`is_payload_text`: the two fields in either order, whitespace where JSON allows
/// it), and then those. A text with other fields besides these two is refused.
pub fn decode_encrypted_payload(data: &[u8]) -> (r: Option<(Vec<u8>, Vec<u8>)>)
    ensures
        r matches Some((n, c)) ==> is_payload_text(data@, n@, c@),
        forall|n: Seq<u8>, c: Seq<u8>| #[trigger] is_payload_text(data@, n, c)
            ==> (r matches Some((n2, c2)) && n2@ == n && c2@ == c),
{
    let (text, ok) = strip_json_ws(data);
    if !ok {
        return None;
    }
    let nonce_lit: Vec<u8> = vec![123u8, 34, 110, 111, 110, 99, 101, 34, 58];
    let ct_lit: Vec<u8> = vec![44u8, 34, 99, 105, 112, 104, 101, 114, 116, 101, 120, 116, 34, 58];
    let ct_first: Vec<u8> = vec![123u8, 34, 99, 105, 112, 104, 101, 114, 116, 101, 120, 116, 34, 58];
    let nonce_second: Vec<u8> = vec![44u8, 34, 110, 111, 110, 99, 101, 34, 58];
    assert(nonce_lit@ =~= nonce_key());
    assert(ct_lit@ =~= ciphertext_key());
    assert(ct_first@ =~= ciphertext_first_key());
    assert(nonce_second@ =~= nonce_second_key());
    match decode_two(text.as_slice(), &nonce_lit, &ct_lit) {
        Some((n, c)) => {
            proof {
                assert forall|n0: Seq<u8>, c0: Seq<u8>| #[trigger] is_payload_text(data@, n0, c0)
                    implies n0 == n@ && c0 == c@ by {
                    lemma_compact_forms(n@, c@, n0, c0);
                    lemma_payload_json_unique(n0, c0, n@, c@);
                }
            }
            Some((n, c))
        },
        None => {
            match decode_two(text.as_slice(), &ct_first, &nonce_second) {
                Some((c, n)) => {
                    proof {
                        assert forall|n0: Seq<u8>, c0: Seq<u8>| #[trigger] is_payload_text(data@, n0, c0)
                            implies n0 == n@ && c0 == c@ by {
                            lemma_compact_forms(n0, c0, n@, c@);
                            lemma_two_arrays_unique(ciphertext_first_key(), nonce_second_key(), c0, n0, c@, n@);
                        }
                    }
                    Some((n, c))
                },
                None => {
                    proof {
                        assert forall|n0: Seq<u8>, c0: Seq<u8>| !is_payload_text(data@, n0, c0) by {
                            if strip_ws(data@) == encrypted_payload_json(n0, c0) {
                                assert(two_arrays(nonce_key(), n0, ciphertext_key(), c0) == text@);
                            }
                            if strip_ws(data@) == swapped_payload_json(n0, c0) {
                                assert(two_arrays(ciphertext_first_key(), c0, nonce_second_key(), n0) == text@);
                            }
                        }
                    }
                    None
                },
            }
        },
    }
}

/// Reading back the JSON text of an encrypted payload gives the nonce and ciphertext it was
/// written from.
pub proof fn lemma_payload_round_trip(nonce: Seq<u8>, ciphertext: Seq<u8>, n: Seq<u8>, c: Seq<u8>)
    requires
        encrypted_payload_json(n, c) == encrypted_payload_json(nonce, ciphertext),
    ensures
        n == nonce,
        c == ciphertext,
{
    lemma_payload_json_unique(n, c, nonce, ciphertext);
}

} // verus!
