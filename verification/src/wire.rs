//! The recursive-length-prefix framing of a list of byte strings.
//!
//! The framing itself is done by the `rlp` crate. This module states what a
//! canonical encoding is, and hands out a list exactly where the bytes read
//! are the canonical encoding of one.

use vstd::prelude::*;
use crate::bigend::{
    be_min, be_value, lemma_min_is_minimal, lemma_min_len, lemma_min_value, lemma_pow256_eight,
    pow256,
};
use crate::u256::same_bytes;

verus! {

/// The largest payload the encoder is asked to frame: lengths are written
/// in at most four bytes.
pub const MAX_PAYLOAD_LEN: u64 = 0xFFFF_FFFF;

/// The length prefix of a payload of `len` bytes: one byte `base + len` up
/// to 55 bytes, else the byte `base + 55 + n` followed by the `n` bytes of
/// the shortest big-endian form of `len`.
pub open spec fn length_prefix(base: u8, len: nat) -> Seq<u8> {
    if len <= 55 {
        seq![(base + len) as u8]
    } else {
        seq![(base + 55 + be_min(len).len()) as u8] + be_min(len)
    }
}

/// The encoding of one byte string: a single byte below 0x80 stands for
/// itself, any other string follows its length prefix.
pub open spec fn string_code(s: Seq<u8>) -> Seq<u8> {
    if s.len() == 1 && s[0] < 0x80 {
        s
    } else {
        length_prefix(0x80, s.len()) + s
    }
}

/// The encodings of the strings of a list, one after the other.
pub open spec fn payload(items: Seq<Seq<u8>>) -> Seq<u8>
    decreases items.len(),
{
    if items.len() == 0 {
        Seq::empty()
    } else {
        payload(items.drop_last()) + string_code(items.last())
    }
}

/// The encoding of a list of byte strings.
pub open spec fn list_code(items: Seq<Seq<u8>>) -> Seq<u8> {
    length_prefix(0xc0, payload(items).len()) + payload(items)
}

/// The byte strings that a vector of vectors holds.
pub open spec fn byte_strings(items: Seq<Vec<u8>>) -> Seq<Seq<u8>> {
    Seq::new(items.len(), |i: int| items[i]@)
}

/// `bytes` is the encoding of the list, and the payload is short enough
/// for its length to be written in four bytes.
pub open spec fn encodes(items: Seq<Seq<u8>>, bytes: Seq<u8>) -> bool {
    payload(items).len() <= MAX_PAYLOAD_LEN && list_code(items) == bytes
}

/// The error of the `rlp` decoder, carried through unread.
#[verifier::external_type_specification]
#[verifier::external_body]
pub struct ExDecoderError(rlp::DecoderError);

/// `rlp::encode_list` on byte strings. For a payload whose length fits in
/// four bytes it returns the list's length prefix followed by each string's
/// encoding in order; longer payloads are left out, since the crate
/// truncates their length.
#[verifier::external_body]
fn rlp_encode_list(items: &Vec<Vec<u8>>) -> (out: Vec<u8>)
    requires
        payload(byte_strings(items@)).len() <= MAX_PAYLOAD_LEN,
    ensures
        out@ == list_code(byte_strings(items@)),
{
    rlp::encode_list::<Vec<u8>, Vec<u8>>(items.as_slice()).to_vec()
}

/// An outcome of decoding that gives, for bytes that are the encoding of a
/// list, that list.
pub open spec fn reads_back(bytes: Seq<u8>, out: Result<Vec<Vec<u8>>, rlp::DecoderError>) -> bool {
    forall|items: Seq<Seq<u8>>| #[trigger]
        encodes(items, bytes) ==> (out matches Ok(read) && byte_strings(read@) == items)
}

/// `rlp::Rlp::new` and `rlp::Rlp::as_list` with byte strings as items.
/// From the encoding of a list, as `encodes` has it, the decoder reads that
/// list: it walks the payload by the length prefixes and hands out each
/// string without its prefix. The crate also reads some bytes that are no
/// such encoding; of what it gives for those nothing is stated.
#[verifier::external_body]
fn rlp_decode_list(bytes: &[u8]) -> (out: Result<Vec<Vec<u8>>, rlp::DecoderError>)
    ensures
        reads_back(bytes@, out),
{
    rlp::Rlp::new(bytes).as_list::<Vec<u8>>()
}

/// The number of bytes in the shortest big-endian form of `n`.
pub fn byte_width(n: u64) -> (w: u64)
    ensures
        w == be_min(n as nat).len(),
        w <= 8,
    decreases n,
{
    proof {
        lemma_pow256_eight();
        lemma_min_len(n as nat, 8);
    }
    if n == 0 {
        0
    } else {
        byte_width(n / 256) + 1
    }
}

/// Computes the length of the encoding of a byte string of at most
/// `MAX_PAYLOAD_LEN` bytes.
pub fn code_len(s: &[u8]) -> (n: u64)
    requires
        s@.len() <= MAX_PAYLOAD_LEN,
    ensures
        n == string_code(s@).len(),
        s@.len() <= n <= s@.len() + 9,
{
    let len: usize = s.len();
    if len == 1 && s[0] < 0x80 {
        1
    } else if len <= 55 {
        1 + len as u64
    } else {
        1 + byte_width(len as u64) + len as u64
    }
}

/// The sum of the lengths of the strings of a list.
pub open spec fn total_len(items: Seq<Seq<u8>>) -> nat
    decreases items.len(),
{
    if items.len() == 0 {
        0
    } else {
        total_len(items.drop_last()) + items.last().len()
    }
}

/// Each string of a list costs at most nine bytes of framing.
pub proof fn lemma_payload_bound(items: Seq<Seq<u8>>)
    requires
        forall|i: int| 0 <= i < items.len() ==> (#[trigger] items[i]).len() <= u64::MAX,
    ensures
        payload(items).len() <= total_len(items) + 9 * items.len(),
    decreases items.len(),
{
    if items.len() > 0 {
        let front = items.drop_last();
        assert forall|i: int| 0 <= i < front.len() implies (#[trigger] front[i]).len()
            <= u64::MAX by {
            assert(front[i] == items[i]);
        }
        lemma_payload_bound(front);
        let s = items.last();
        lemma_pow256_eight();
        lemma_min_len(s.len(), 8);
    }
}

/// The payload of a list grows with the list.
pub proof fn lemma_payload_prefix(items: Seq<Seq<u8>>, k: int)
    requires
        0 <= k <= items.len(),
    ensures
        payload(items.subrange(0, k)).len() <= payload(items).len(),
    decreases items.len(),
{
    if k == items.len() {
        assert(items.subrange(0, k) =~= items);
    } else {
        lemma_payload_prefix(items.drop_last(), k);
        assert(items.drop_last().subrange(0, k) =~= items.subrange(0, k));
    }
}

/// Computes the length of the payload of a list, or nothing where it is
/// above `MAX_PAYLOAD_LEN`.
pub fn payload_len(items: &Vec<Vec<u8>>) -> (out: Option<u64>)
    ensures
        out is Some <==> payload(byte_strings(items@)).len() <= MAX_PAYLOAD_LEN,
        out matches Some(n) ==> n == payload(byte_strings(items@)).len(),
{
    let ghost all = byte_strings(items@);
    let mut total: u64 = 0;
    let mut i: usize = 0;
    while i < items.len()
        invariant
            i <= items@.len(),
            all == byte_strings(items@),
            total == payload(all.subrange(0, i as int)).len(),
            total <= MAX_PAYLOAD_LEN,
        decreases items@.len() - i,
    {
        let item = &items[i];
        proof {
            assert(all.subrange(0, i as int + 1).drop_last() =~= all.subrange(0, i as int));
            assert(all.subrange(0, i as int + 1).last() == item@);
            lemma_payload_prefix(all, i as int + 1);
        }
        if item.len() > MAX_PAYLOAD_LEN as usize {
            return None;
        }
        let n = code_len(item.as_slice());
        if n > MAX_PAYLOAD_LEN - total {
            return None;
        }
        total = total + n;
        i = i + 1;
    }
    proof {
        assert(all.subrange(0, i as int) =~= all);
    }
    Some(total)
}

/// Encodes a list of byte strings. There is no encoding where the payload
/// is longer than `MAX_PAYLOAD_LEN`.
pub fn encode_list(items: &Vec<Vec<u8>>) -> (out: Option<Vec<u8>>)
    ensures
        out is Some <==> payload(byte_strings(items@)).len() <= MAX_PAYLOAD_LEN,
        out matches Some(bytes) ==> bytes@ == list_code(byte_strings(items@)),
{
    match payload_len(items) {
        Some(_) => Some(rlp_encode_list(items)),
        None => None,
    }
}

/// Decodes a list of byte strings. It gives a list exactly where the
/// bytes are the canonical encoding of one: no other length prefixes,
/// nothing left over. What the decoder reads is encoded again and held
/// against the bytes.
pub fn decode_list(bytes: &[u8]) -> (out: Option<Vec<Vec<u8>>>)
    ensures
        out matches Some(items) ==> encodes(byte_strings(items@), bytes@),
        out is None ==> forall|items: Seq<Seq<u8>>| !#[trigger] encodes(items, bytes@),
{
    match rlp_decode_list(bytes) {
        Ok(items) => {
            match encode_list(&items) {
                Some(again) => {
                    if same_bytes(again.as_slice(), bytes) {
                        Some(items)
                    } else {
                        None
                    }
                },
                None => None,
            }
        },
        Err(_) => None,
    }
}

/// The number of bytes of a length prefix.
pub open spec fn prefix_len(len: nat) -> nat {
    if len <= 55 {
        1
    } else {
        1 + be_min(len).len()
    }
}

/// The shortest form of a length above 55 and below 256 to the eighth has
/// one to eight bytes.
pub proof fn lemma_length_width(len: nat)
    requires
        55 < len < pow256(8),
    ensures
        1 <= be_min(len).len() <= 8,
{
    lemma_min_is_minimal(len);
    lemma_min_len(len, 8);
}

/// A length prefix tells the length: two prefixes with the same first byte
/// are equally long, and two equal prefixes are of the same length.
pub proof fn lemma_prefix_tells_len(base: u8, n: nat, m: nat)
    requires
        base == 0x80 || base == 0xc0,
        n < pow256(8),
        m < pow256(8),
        length_prefix(base, n)[0] == length_prefix(base, m)[0],
    ensures
        length_prefix(base, n).len() == prefix_len(n),
        prefix_len(n) == prefix_len(m),
        n <= 55 <==> m <= 55,
        length_prefix(base, n) == length_prefix(base, m) ==> n == m,
{
    if n > 55 {
        lemma_length_width(n);
    }
    if m > 55 {
        lemma_length_width(m);
    }
    if n > 55 && m > 55 && length_prefix(base, n) == length_prefix(base, m) {
        let pn = length_prefix(base, n);
        let pm = length_prefix(base, m);
        assert(pn.subrange(1, pn.len() as int) =~= be_min(n));
        assert(pm.subrange(1, pm.len() as int) =~= be_min(m));
        lemma_min_value(n);
        lemma_min_value(m);
    }
}

/// The byte string whose encoding starts `b`, read from the first bytes.
pub open spec fn leading_string(b: Seq<u8>) -> Seq<u8> {
    if b.len() == 0 {
        Seq::empty()
    } else if b[0] < 0x80 {
        seq![b[0]]
    } else if b[0] <= 0xb7 {
        b.subrange(1, 1 + (b[0] - 0x80))
    } else {
        let w = b[0] - 0xb7;
        b.subrange(1 + w, 1 + w + be_value(b.subrange(1, 1 + w)))
    }
}

/// An encoded string is read back from the front of any bytes that start
/// with its encoding.
pub proof fn lemma_leading_string(s: Seq<u8>, rest: Seq<u8>)
    requires
        s.len() < pow256(8),
    ensures
        leading_string(string_code(s) + rest) == s,
        string_code(s).len() >= 1,
{
    let code = string_code(s);
    let b = code + rest;
    if s.len() == 1 && s[0] < 0x80 {
        assert(b[0] == s[0]);
        assert(leading_string(b) =~= s);
    } else if s.len() <= 55 {
        assert(b[0] == (0x80 + s.len()) as u8);
        assert(b.subrange(1, 1 + s.len() as int) =~= s);
    } else {
        lemma_length_width(s.len());
        let w = be_min(s.len()).len() as int;
        assert(b[0] == (0xb7 + w) as u8);
        assert(b.subrange(1, 1 + w) =~= be_min(s.len()));
        lemma_min_value(s.len());
        assert(b.subrange(1 + w, 1 + w + s.len()) =~= s);
    }
}

/// The payload of a list starts with the encoding of its first string.
pub proof fn lemma_payload_front(items: Seq<Seq<u8>>)
    requires
        items.len() >= 1,
    ensures
        payload(items) == string_code(items[0]) + payload(items.subrange(1, items.len() as int)),
    decreases items.len(),
{
    let n = items.len() as int;
    let tail = items.subrange(1, n);
    if n == 1 {
        assert(items.drop_last() =~= Seq::<Seq<u8>>::empty());
        assert(tail =~= Seq::<Seq<u8>>::empty());
        assert(payload(items) =~= string_code(items[0]) + payload(tail));
    } else {
        let front = items.drop_last();
        lemma_payload_front(front);
        assert(tail.drop_last() =~= front.subrange(1, n - 1));
        assert(tail.last() == items.last());
        assert(payload(items) =~= string_code(items[0]) + payload(tail));
    }
}

/// Strings that are short enough for their lengths to be written.
pub open spec fn framed(items: Seq<Seq<u8>>) -> bool {
    forall|i: int| 0 <= i < items.len() ==> (#[trigger] items[i]).len() < pow256(8)
}

/// The strings of a list are no longer than its payload.
pub proof fn lemma_payload_frames(items: Seq<Seq<u8>>)
    requires
        payload(items).len() < pow256(8),
    ensures
        framed(items),
    decreases items.len(),
{
    if items.len() > 0 {
        let front = items.drop_last();
        lemma_payload_frames(front);
        assert forall|i: int| 0 <= i < items.len() implies (#[trigger] items[i]).len() < pow256(
            8,
        ) by {
            if i < items.len() - 1 {
                assert(items[i] == front[i]);
            }
        }
    }
}

/// Two lists with the same payload are the same list.
pub proof fn lemma_payload_injective(a: Seq<Seq<u8>>, b: Seq<Seq<u8>>)
    requires
        framed(a),
        framed(b),
        payload(a) == payload(b),
    ensures
        a == b,
    decreases a.len(),
{
    if a.len() == 0 {
        if b.len() > 0 {
            lemma_payload_front(b);
            lemma_leading_string(b[0], payload(b.subrange(1, b.len() as int)));
        }
        assert(a =~= b);
    } else {
        let a_tail = a.subrange(1, a.len() as int);
        lemma_payload_front(a);
        lemma_leading_string(a[0], payload(a_tail));
        if b.len() == 0 {
            assert(payload(b).len() == 0);
            assert(false);
        }
        let b_tail = b.subrange(1, b.len() as int);
        lemma_payload_front(b);
        lemma_leading_string(b[0], payload(b_tail));
        assert(a[0] == b[0]);
        let c = string_code(a[0]).len() as int;
        assert(payload(a_tail) =~= payload(a).subrange(c, payload(a).len() as int));
        assert(payload(b_tail) =~= payload(b).subrange(c, payload(b).len() as int));
        assert(framed(a_tail)) by {
            assert forall|i: int| 0 <= i < a_tail.len() implies (#[trigger] a_tail[i]).len()
                < pow256(8) by {
                assert(a_tail[i] == a[i + 1]);
            }
        }
        assert(framed(b_tail)) by {
            assert forall|i: int| 0 <= i < b_tail.len() implies (#[trigger] b_tail[i]).len()
                < pow256(8) by {
                assert(b_tail[i] == b[i + 1]);
            }
        }
        lemma_payload_injective(a_tail, b_tail);
        assert(a =~= seq![a[0]] + a_tail);
        assert(b =~= seq![b[0]] + b_tail);
    }
}

/// The encoding of a list tells where it ends: where it starts the
/// encoding of another list, the two are equally long and the lists have
/// the same payload.
pub proof fn lemma_list_code_prefix(a: Seq<Seq<u8>>, b: Seq<Seq<u8>>, k: int)
    requires
        payload(a).len() < pow256(8),
        payload(b).len() < pow256(8),
        0 <= k <= list_code(b).len(),
        list_code(a) == list_code(b).subrange(0, k),
    ensures
        k == list_code(b).len(),
        payload(a) == payload(b),
{
    let la = payload(a).len();
    let lb = payload(b).len();
    let pa = length_prefix(0xc0, la);
    let pb = length_prefix(0xc0, lb);
    let code_a = list_code(a);
    let code_b = list_code(b);
    if la > 55 {
        lemma_length_width(la);
    }
    if lb > 55 {
        lemma_length_width(lb);
    }
    assert(code_a.len() == k);
    assert(pa.len() >= 1 && pb.len() >= 1);
    assert(k >= 1);
    assert(code_a[0] == pa[0]);
    assert(code_b[0] == pb[0]);
    assert(code_b.subrange(0, k)[0] == code_b[0]);
    assert(pa[0] == pb[0]);
    lemma_prefix_tells_len(0xc0, la, lb);
    lemma_prefix_tells_len(0xc0, lb, la);
    let h = prefix_len(la) as int;
    assert(pa.len() == h && pb.len() == h);
    assert(code_a.len() == h + la);
    assert(h <= k);
    assert(pa =~= code_a.subrange(0, h));
    assert(pb =~= code_b.subrange(0, h));
    assert(pa =~= pb) by {
        assert forall|i: int| 0 <= i < h implies pa[i] == pb[i] by {
            assert(pa[i] == code_a[i]);
            assert(code_a[i] == code_b.subrange(0, k)[i]);
            assert(pb[i] == code_b[i]);
        }
    }
    assert(la == lb);
    assert(payload(a) =~= code_a.subrange(h, code_a.len() as int));
    assert(payload(b) =~= code_b.subrange(h, code_b.len() as int));
    assert(code_a =~= code_b) by {
        assert(code_b.subrange(0, k) =~= code_b);
    }
}

/// Two framed lists with the same encoding are the same list.
pub proof fn lemma_list_code_injective(a: Seq<Seq<u8>>, b: Seq<Seq<u8>>)
    requires
        framed(a),
        framed(b),
        payload(a).len() < pow256(8),
        payload(b).len() < pow256(8),
        list_code(a) == list_code(b),
    ensures
        a == b,
{
    assert(list_code(b).subrange(0, list_code(b).len() as int) =~= list_code(b));
    lemma_list_code_prefix(a, b, list_code(b).len() as int);
    lemma_payload_injective(a, b);
}

} // verus!
