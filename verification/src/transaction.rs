//! Transactions, their canonical encoding and their signing digest.

use vstd::prelude::*;
use crate::bigend::{
    be_min, be_to_u64, is_minimal, lemma_min_is_minimal, lemma_min_len, lemma_min_value,
    lemma_pow256_eight, lemma_value_bound, lemma_value_min, pow256, u64_to_be_min,
};
use crate::error::Error;
use crate::hash::{keccak256, keccak256_digest};
use crate::replay::{
    decode_v, encodable, encode_v, lemma_v_parts_encode, lemma_v_round_trip,
    lemma_wire_v_injective, normal_chain, wire_v,
};
use crate::u256::{copy_bytes, Address, U256};
use crate::wire::{
    byte_strings, decode_list, encode_list, encodes, framed, lemma_list_code_injective,
    lemma_list_code_prefix, lemma_payload_bound, lemma_payload_frames, list_code, payload,
    total_len, MAX_PAYLOAD_LEN,
};

verus! {

/// The longest call data a transaction of this library carries.
pub const MAX_DATA_LEN: usize = 0xFFFF_0000;

/// What a transaction says before it is signed.
#[derive(Clone, Debug, PartialEq, Eq)]
pub struct TransactionBody {
    pub nonce: U256,
    pub gas_price: U256,
    pub gas_limit: U256,
    /// The receiver; absent where the transaction creates a contract.
    pub to: Option<Address>,
    pub value: U256,
    pub data: Vec<u8>,
}

/// A transaction body as numbers and byte strings.
pub struct BodyView {
    pub nonce: nat,
    pub gas_price: nat,
    pub gas_limit: nat,
    pub to: Option<Seq<u8>>,
    pub value: nat,
    pub data: Seq<u8>,
}

impl View for TransactionBody {
    type V = BodyView;

    open spec fn view(&self) -> BodyView {
        BodyView {
            nonce: self.nonce@,
            gas_price: self.gas_price@,
            gas_limit: self.gas_limit@,
            to: match self.to {
                Some(a) => Some(a@),
                None => None,
            },
            value: self.value@,
            data: self.data@,
        }
    }
}

/// A signature in the one form this library works with: the recovery id and
/// the chain identifier apart, never mixed into `v`.
#[derive(Clone, Copy, Debug, PartialEq, Eq)]
pub struct Signature {
    pub recovery_id: u8,
    /// The chain the signature is bound to; absent without replay protection.
    pub chain_id: Option<u64>,
    pub r: U256,
    pub s: U256,
}

/// A signature as numbers.
pub struct SignatureView {
    pub recovery_id: u8,
    pub chain_id: Option<u64>,
    pub r: nat,
    pub s: nat,
}

impl View for Signature {
    type V = SignatureView;

    open spec fn view(&self) -> SignatureView {
        SignatureView {
            recovery_id: self.recovery_id,
            chain_id: self.chain_id,
            r: self.r@,
            s: self.s@,
        }
    }
}

/// A signed transaction as numbers and byte strings.
pub struct SignedView {
    pub body: BodyView,
    pub signature: SignatureView,
}

/// A body that a `TransactionBody` within this library's limits can hold.
pub open spec fn body_valid(b: BodyView) -> bool {
    &&& b.nonce < pow256(32)
    &&& b.gas_price < pow256(32)
    &&& b.gas_limit < pow256(32)
    &&& b.value < pow256(32)
    &&& b.to matches Some(a) ==> a.len() == 20
    &&& b.data.len() <= MAX_DATA_LEN
}

/// A signature whose `v` can be written and read back unchanged.
pub open spec fn signature_valid(s: SignatureView) -> bool {
    &&& encodable(s.recovery_id, s.chain_id)
    &&& s.chain_id == normal_chain(s.chain_id)
    &&& s.r < pow256(32)
    &&& s.s < pow256(32)
}

/// A signed transaction that can be encoded.
pub open spec fn signed_valid(t: SignedView) -> bool {
    body_valid(t.body) && signature_valid(t.signature)
}

/// The six fields of a body in wire order, numbers in their shortest
/// big-endian form and an absent receiver as the empty string.
pub open spec fn body_items(b: BodyView) -> Seq<Seq<u8>> {
    seq![
        be_min(b.nonce),
        be_min(b.gas_price),
        be_min(b.gas_limit),
        match b.to {
            Some(a) => a,
            None => Seq::empty(),
        },
        be_min(b.value),
        b.data,
    ]
}

/// The fields that are signed: the body alone without replay protection,
/// the body followed by the chain identifier and two empty fields with it.
pub open spec fn signing_items(b: BodyView, chain_id: Option<u64>) -> Seq<Seq<u8>> {
    match chain_id {
        Some(id) if id != 0 => body_items(b) + seq![
            be_min(id as nat),
            Seq::<u8>::empty(),
            Seq::<u8>::empty(),
        ],
        _ => body_items(b),
    }
}

/// The nine fields of a signed transaction in wire order.
pub open spec fn signed_items(t: SignedView) -> Seq<Seq<u8>> {
    body_items(t.body) + seq![
        be_min(wire_v(t.signature.recovery_id, t.signature.chain_id)),
        be_min(t.signature.r),
        be_min(t.signature.s),
    ]
}

/// The canonical encoding of a signed transaction.
pub open spec fn encoding(t: SignedView) -> Seq<u8> {
    list_code(signed_items(t))
}

/// The bytes whose digest is signed.
pub open spec fn signing_preimage(b: BodyView, chain_id: Option<u64>) -> Seq<u8> {
    list_code(signing_items(b, chain_id))
}

/// The digest that is signed.
pub open spec fn signing_digest(b: BodyView, chain_id: Option<u64>) -> Seq<u8> {
    keccak256(signing_preimage(b, chain_id))
}

/// `bytes` decodes to `t`: `t` is valid, and `bytes` is its canonical
/// encoding.
pub open spec fn decodes_to(bytes: Seq<u8>, t: SignedView) -> bool {
    signed_valid(t) && encoding(t) == bytes
}

/// The transaction that `bytes` decode to, if there is one.
pub open spec fn decoded(bytes: Seq<u8>) -> Option<SignedView> {
    if exists|t: SignedView| decodes_to(bytes, t) {
        Some(choose|t: SignedView| decodes_to(bytes, t))
    } else {
        None
    }
}

/// A valid transaction is told by its nine fields.
pub proof fn lemma_fields_unique(t1: SignedView, t2: SignedView)
    requires
        signed_valid(t1),
        signed_valid(t2),
        signed_items(t1) == signed_items(t2),
    ensures
        t1 == t2,
{
    let f1 = signed_items(t1);
    let f2 = signed_items(t2);
    assert(f1[0] == f2[0]);
    assert(f1[1] == f2[1]);
    assert(f1[2] == f2[2]);
    assert(f1[3] == f2[3]);
    assert(f1[4] == f2[4]);
    assert(f1[5] == f2[5]);
    assert(f1[6] == f2[6]);
    assert(f1[7] == f2[7]);
    assert(f1[8] == f2[8]);
    lemma_min_value(t1.body.nonce);
    lemma_min_value(t2.body.nonce);
    lemma_min_value(t1.body.gas_price);
    lemma_min_value(t2.body.gas_price);
    lemma_min_value(t1.body.gas_limit);
    lemma_min_value(t2.body.gas_limit);
    lemma_min_value(t1.body.value);
    lemma_min_value(t2.body.value);
    lemma_min_value(t1.signature.r);
    lemma_min_value(t2.signature.r);
    lemma_min_value(t1.signature.s);
    lemma_min_value(t2.signature.s);
    let v1 = wire_v(t1.signature.recovery_id, t1.signature.chain_id);
    let v2 = wire_v(t2.signature.recovery_id, t2.signature.chain_id);
    lemma_min_value(v1);
    lemma_min_value(v2);
    lemma_wire_v_injective(
        t1.signature.recovery_id,
        t1.signature.chain_id,
        t2.signature.recovery_id,
        t2.signature.chain_id,
    );
    assert(t1.body.to == t2.body.to) by {
        if t1.body.to is Some {
            assert(f1[3].len() == 20);
        }
        if t2.body.to is Some {
            assert(f2[3].len() == 20);
        }
    }
    assert(t1.body.data == t2.body.data);
    assert(t1.body == t2.body);
    assert(t1.signature == t2.signature);
}

/// Bytes decode to one transaction at most.
pub proof fn lemma_decode_unique(bytes: Seq<u8>, t1: SignedView, t2: SignedView)
    requires
        decodes_to(bytes, t1),
        decodes_to(bytes, t2),
    ensures
        t1 == t2,
{
    lemma_encoding_injective(t1, t2);
}

/// Where bytes decode to a transaction, it is the one that `decoded` names.
pub proof fn lemma_decoded(bytes: Seq<u8>, t: SignedView)
    requires
        decodes_to(bytes, t),
    ensures
        decoded(bytes) == Some(t),
{
    let chosen = choose|t: SignedView| decodes_to(bytes, t);
    lemma_decode_unique(bytes, t, chosen);
}

/// The sum of the lengths of a list of nine strings, written out.
pub proof fn lemma_total_len_nine(items: Seq<Seq<u8>>)
    requires
        items.len() == 9,
    ensures
        total_len(items) == items[0].len() + items[1].len() + items[2].len() + items[3].len()
            + items[4].len() + items[5].len() + items[6].len() + items[7].len()
            + items[8].len(),
{
    let i8 = items.drop_last();
    let i7 = i8.drop_last();
    let i6 = i7.drop_last();
    let i5 = i6.drop_last();
    let i4 = i5.drop_last();
    let i3 = i4.drop_last();
    let i2 = i3.drop_last();
    let i1 = i2.drop_last();
    let i0 = i1.drop_last();
    assert(total_len(i0) == 0);
    assert(total_len(i1) == total_len(i0) + i1.last().len());
    assert(total_len(i2) == total_len(i1) + i2.last().len());
    assert(total_len(i3) == total_len(i2) + i3.last().len());
    assert(total_len(i4) == total_len(i3) + i4.last().len());
    assert(total_len(i5) == total_len(i4) + i5.last().len());
    assert(total_len(i6) == total_len(i5) + i6.last().len());
    assert(total_len(i7) == total_len(i6) + i7.last().len());
    assert(total_len(i8) == total_len(i7) + i8.last().len());
}

/// The sum of the lengths of a list of six strings, written out.
pub proof fn lemma_total_len_six(items: Seq<Seq<u8>>)
    requires
        items.len() == 6,
    ensures
        total_len(items) == items[0].len() + items[1].len() + items[2].len() + items[3].len()
            + items[4].len() + items[5].len(),
{
    let i5 = items.drop_last();
    let i4 = i5.drop_last();
    let i3 = i4.drop_last();
    let i2 = i3.drop_last();
    let i1 = i2.drop_last();
    let i0 = i1.drop_last();
    assert(total_len(i0) == 0);
    assert(total_len(i1) == total_len(i0) + i1.last().len());
    assert(total_len(i2) == total_len(i1) + i2.last().len());
    assert(total_len(i3) == total_len(i2) + i3.last().len());
    assert(total_len(i4) == total_len(i3) + i4.last().len());
    assert(total_len(i5) == total_len(i4) + i5.last().len());
}

/// Writes the six fields of a body.
pub fn body_fields(body: &TransactionBody) -> (items: Vec<Vec<u8>>)
    ensures
        byte_strings(items@) == body_items(body@),
        items@.len() == 6,
        forall|i: int| 0 <= i < 6 && i != 5 ==> (#[trigger] items@[i])@.len() <= 32,
        items@[5]@ == body@.data,
{
    let mut items: Vec<Vec<u8>> = Vec::new();
    items.push(body.nonce.to_be_min());
    items.push(body.gas_price.to_be_min());
    items.push(body.gas_limit.to_be_min());
    let to: Vec<u8> = match &body.to {
        Some(a) => a.to_vec(),
        None => Vec::new(),
    };
    items.push(to);
    items.push(body.value.to_be_min());
    items.push(copy_bytes(body.data.as_slice()));
    proof {
        assert(byte_strings(items@) =~= body_items(body@));
    }
    items
}

impl Signature {
    /// The recovery id is 0 or 1, `v` fits in 64 bits, and a chain
    /// identifier that is present is not zero.
    pub open spec fn wf(&self) -> bool {
        signature_valid(self@)
    }

    /// Whether `wf` holds.
    pub fn is_wf(&self) -> (r: bool)
        ensures
            r <==> self.wf(),
    {
        proof {
            lemma_value_bound(self.r.bytes@);
            lemma_value_bound(self.s.bytes@);
        }
        let zero_chain = match self.chain_id {
            Some(id) => id == 0,
            None => false,
        };
        encode_v(self.recovery_id, self.chain_id).is_some() && !zero_chain
    }
}

impl TransactionBody {
    /// Whether the body is within this library's limits.
    pub fn fits(&self) -> (r: bool)
        ensures
            r <==> body_valid(self@),
    {
        proof {
            lemma_value_bound(self.nonce.bytes@);
            lemma_value_bound(self.gas_price.bytes@);
            lemma_value_bound(self.gas_limit.bytes@);
            lemma_value_bound(self.value.bytes@);
        }
        self.data.len() <= MAX_DATA_LEN
    }
}

/// A body together with a signature. Nothing alters one in place: a change
/// of the body starts from `into_parts` and ends in a new signature.
#[derive(Debug, PartialEq, Eq)]
pub struct SignedTransaction {
    body: TransactionBody,
    signature: Signature,
}

impl View for SignedTransaction {
    type V = SignedView;

    closed spec fn view(&self) -> SignedView {
        SignedView { body: self.body@, signature: self.signature@ }
    }
}

impl Clone for SignedTransaction {
    fn clone(&self) -> (out: Self)
        ensures
            out@ == self@,
    {
        proof {
            use_type_invariant(self);
        }
        let body = TransactionBody {
            nonce: self.body.nonce,
            gas_price: self.body.gas_price,
            gas_limit: self.body.gas_limit,
            to: self.body.to,
            value: self.body.value,
            data: copy_bytes(self.body.data.as_slice()),
        };
        SignedTransaction { body, signature: self.signature }
    }
}

impl SignedTransaction {
    /// What the type holds at all times: a body within the limits and a
    /// signature that has a `v`, so that it can be encoded.
    #[verifier::type_invariant]
    closed spec fn valid(self) -> bool {
        signed_valid(self@)
    }

    /// The invariant of the type, for contracts: what it holds can be
    /// encoded.
    pub open spec fn wf(&self) -> bool {
        signed_valid(self@)
    }

    /// Joins a body and a signature. There is no such transaction where the
    /// body is beyond the limits or the signature has no `v`.
    pub fn new(body: TransactionBody, signature: Signature) -> (out: Option<SignedTransaction>)
        ensures
            out is Some <==> body_valid(body@) && signature.wf(),
            out matches Some(tx) ==> tx.wf() && tx@.body == body@ && tx@.signature == signature@,
    {
        if body.fits() && signature.is_wf() {
            Some(SignedTransaction { body, signature })
        } else {
            None
        }
    }

    /// The body.
    pub fn body(&self) -> (b: &TransactionBody)
        ensures
            b@ == self@.body,
    {
        &self.body
    }

    /// The signature.
    pub fn signature(&self) -> (s: &Signature)
        ensures
            s@ == self@.signature,
    {
        &self.signature
    }

    /// Takes the transaction apart.
    pub fn into_parts(self) -> (parts: (TransactionBody, Signature))
        ensures
            parts.0@ == self@.body,
            parts.1@ == self@.signature,
            body_valid(parts.0@),
            parts.1.wf(),
    {
        proof {
            use_type_invariant(&self);
        }
        (self.body, self.signature)
    }

    /// The canonical encoding.
    pub fn encode(&self) -> (out: Vec<u8>)
        ensures
            self.wf(),
            out@ == encoding(self@),
    {
        proof {
            use_type_invariant(self);
        }
        let mut items = body_fields(&self.body);
        let v = encode_v(self.signature.recovery_id, self.signature.chain_id);
        let v_bytes = u64_to_be_min(v.unwrap());
        let r_bytes = self.signature.r.to_be_min();
        let s_bytes = self.signature.s.to_be_min();
        items.push(v_bytes);
        items.push(r_bytes);
        items.push(s_bytes);
        proof {
            let all = byte_strings(items@);
            assert(all =~= signed_items(self@));
            lemma_total_len_nine(all);
            assert forall|i: int| 0 <= i < all.len() implies (#[trigger] all[i]).len()
                <= u64::MAX by {
                assert(all[i] == items@[i]@);
            }
            lemma_payload_bound(all);
        }
        let out = encode_list(&items);
        out.unwrap()
    }
}

/// Computes the digest to sign: of the six fields of the body without
/// replay protection, of nine fields (the body, the chain identifier and
/// two empty ones) with it.
pub fn signing_hash(body: &TransactionBody, chain_id: Option<u64>) -> (out: [u8; 32])
    requires
        body@.data.len() <= MAX_DATA_LEN,
    ensures
        out@ == signing_digest(body@, chain_id),
{
    let mut items = body_fields(body);
    let ghost six = byte_strings(items@);
    proof {
        lemma_total_len_six(six);
    }
    match chain_id {
        Some(id) => {
            if id != 0 {
                let id_bytes = u64_to_be_min(id);
                items.push(id_bytes);
                items.push(Vec::new());
                items.push(Vec::new());
                proof {
                    lemma_total_len_nine(byte_strings(items@));
                }
            }
        },
        None => {},
    }
    proof {
        let all = byte_strings(items@);
        assert(all =~= signing_items(body@, chain_id));
        assert forall|i: int| 0 <= i < all.len() implies (#[trigger] all[i]).len()
            <= u64::MAX by {
            assert(all[i] == items@[i]@);
        }
        lemma_payload_bound(all);
    }
    let preimage = encode_list(&items);
    keccak256_digest(preimage.unwrap().as_slice())
}

/// Reads a number field: at most 32 bytes, no leading zero.
pub fn parse_uint(item: &Vec<u8>) -> (out: Option<U256>)
    ensures
        out is Some <==> item@.len() <= 32 && is_minimal(item@),
        out matches Some(x) ==> be_min(x@) == item@,
        out is None ==> forall|n: nat| n < pow256(32) ==> be_min(n) != item@,
{
    if item.len() > 0 && item[0] == 0 {
        proof {
            assert forall|n: nat| n < pow256(32) implies be_min(n) != item@ by {
                lemma_min_is_minimal(n);
            }
        }
        return None;
    }
    match U256::from_be_slice(item.as_slice()) {
        Some(x) => {
            proof {
                lemma_value_min(item@);
            }
            Some(x)
        },
        None => {
            proof {
                assert forall|n: nat| n < pow256(32) implies be_min(n) != item@ by {
                    lemma_min_len(n, 32);
                }
            }
            None
        },
    }
}

/// Reads the `v` field: a number of at most eight bytes without a leading
/// zero, which belongs to one of the two schemes.
pub fn parse_v(item: &Vec<u8>) -> (out: Option<(u8, Option<u64>)>)
    ensures
        out matches Some((recovery_id, chain_id)) ==> encodable(recovery_id, chain_id)
            && chain_id == normal_chain(chain_id) && be_min(wire_v(recovery_id, chain_id))
            == item@,
        out is None ==> forall|recovery_id: u8, chain_id: Option<u64>|
            encodable(recovery_id, chain_id) ==> be_min(
                #[trigger] wire_v(recovery_id, chain_id),
            ) != item@,
{
    if item.len() > 0 && item[0] == 0 {
        proof {
            assert forall|recovery_id: u8, chain_id: Option<u64>|
                encodable(recovery_id, chain_id) implies be_min(
                #[trigger] wire_v(recovery_id, chain_id),
            ) != item@ by {
                lemma_min_is_minimal(wire_v(recovery_id, chain_id));
            }
        }
        return None;
    }
    match be_to_u64(item.as_slice()) {
        Some(v) => {
            match decode_v(v) {
                Some(parts) => {
                    proof {
                        lemma_v_parts_encode(v);
                        lemma_value_min(item@);
                    }
                    Some(parts)
                },
                None => {
                    proof {
                        assert forall|recovery_id: u8, chain_id: Option<u64>|
                            encodable(recovery_id, chain_id) implies be_min(
                            #[trigger] wire_v(recovery_id, chain_id),
                        ) != item@ by {
                            lemma_v_round_trip(recovery_id, chain_id);
                            lemma_min_value(wire_v(recovery_id, chain_id));
                        }
                    }
                    None
                },
            }
        },
        None => {
            proof {
                assert forall|recovery_id: u8, chain_id: Option<u64>|
                    encodable(recovery_id, chain_id) implies be_min(
                    #[trigger] wire_v(recovery_id, chain_id),
                ) != item@ by {
                    lemma_pow256_eight();
                    lemma_min_len(wire_v(recovery_id, chain_id), 8);
                }
            }
            None
        },
    }
}

/// Reads a signed transaction from its nine fields. The fields are taken by
/// position: nonce, gas price, gas limit, receiver, value, data, `v`, `r`,
/// `s`. There is a transaction exactly where the fields are those of a
/// valid one, and then it is that one.
pub fn parse_fields(items: &Vec<Vec<u8>>) -> (out: Option<SignedTransaction>)
    ensures
        out matches Some(tx) ==> tx.wf() && signed_items(tx@) == byte_strings(items@),
        out is None ==> forall|t: SignedView|
            signed_valid(t) ==> #[trigger] signed_items(t) != byte_strings(items@),
{
    let ghost all = byte_strings(items@);
    proof {
        assert forall|t: SignedView| (#[trigger] signed_items(t)).len() == 9 by {}
    }
    if items.len() != 9 {
        return None;
    }
    proof {
        assert forall|t: SignedView| #![auto] signed_items(t) == all implies signed_items(t)[0]
            == items@[0]@ && signed_items(t)[1] == items@[1]@ && signed_items(t)[2]
            == items@[2]@ && signed_items(t)[3] == items@[3]@ && signed_items(t)[4]
            == items@[4]@ && signed_items(t)[5] == items@[5]@ && signed_items(t)[6]
            == items@[6]@ && signed_items(t)[7] == items@[7]@ && signed_items(t)[8]
            == items@[8]@ by {
            assert(all[0] == items@[0]@);
            assert(all[1] == items@[1]@);
            assert(all[2] == items@[2]@);
            assert(all[3] == items@[3]@);
            assert(all[4] == items@[4]@);
            assert(all[5] == items@[5]@);
            assert(all[6] == items@[6]@);
            assert(all[7] == items@[7]@);
            assert(all[8] == items@[8]@);
        }
    }
    let nonce = match parse_uint(&items[0]) {
        Some(x) => x,
        None => {
            return None;
        },
    };
    let gas_price = match parse_uint(&items[1]) {
        Some(x) => x,
        None => {
            return None;
        },
    };
    let gas_limit = match parse_uint(&items[2]) {
        Some(x) => x,
        None => {
            return None;
        },
    };
    let to: Option<Address> = if items[3].len() == 0 {
        None
    } else {
        match Address::from_slice(items[3].as_slice()) {
            Some(a) => Some(a),
            None => {
                return None;
            },
        }
    };
    let value = match parse_uint(&items[4]) {
        Some(x) => x,
        None => {
            return None;
        },
    };
    if items[5].len() > MAX_DATA_LEN {
        return None;
    }
    let data = copy_bytes(items[5].as_slice());
    let (recovery_id, chain_id) = match parse_v(&items[6]) {
        Some(parts) => parts,
        None => {
            return None;
        },
    };
    let r = match parse_uint(&items[7]) {
        Some(x) => x,
        None => {
            return None;
        },
    };
    let s = match parse_uint(&items[8]) {
        Some(x) => x,
        None => {
            return None;
        },
    };
    let body = TransactionBody { nonce, gas_price, gas_limit, to, value, data };
    let signature = Signature { recovery_id, chain_id, r, s };
    proof {
        lemma_value_bound(nonce.bytes@);
        lemma_value_bound(gas_price.bytes@);
        lemma_value_bound(gas_limit.bytes@);
        lemma_value_bound(value.bytes@);
        lemma_value_bound(r.bytes@);
        lemma_value_bound(s.bytes@);
    }
    let tx = SignedTransaction { body, signature };
    proof {
        let fields = signed_items(tx@);
        assert(fields.len() == 9);
        assert(fields[0] == all[0]);
        assert(fields[1] == all[1]);
        assert(fields[2] == all[2]);
        assert(fields[3] =~= all[3]);
        assert(fields[4] == all[4]);
        assert(fields[5] == all[5]);
        assert(fields[6] == all[6]);
        assert(fields[7] == all[7]);
        assert(fields[8] == all[8]);
        assert(fields =~= all);
    }
    Some(tx)
}

/// Decodes a signed transaction. It succeeds exactly on the canonical
/// encoding of a valid transaction, and gives that transaction; all other
/// bytes, the empty string among them, are malformed.
pub fn decode(bytes: &[u8]) -> (out: Result<SignedTransaction, Error>)
    ensures
        match decoded(bytes@) {
            Some(t) => out matches Ok(tx) && tx@ == t && tx.wf(),
            None => out matches Err(e) && e == Error::MalformedEncoding,
        },
        out matches Ok(tx) ==> encoding(tx@) == bytes@,
        forall|t: SignedView|
            signed_valid(t) && #[trigger] encoding(t) == bytes@ ==> (out matches Ok(tx) && tx@
                == t),
        bytes@.len() == 0 ==> out is Err,
{
    match decode_list(bytes) {
        Some(items) => match parse_fields(&items) {
            Some(tx) => {
                proof {
                    lemma_decoded(bytes@, tx@);
                    assert forall|t: SignedView|
                        signed_valid(t) && #[trigger] encoding(t) == bytes@ implies tx@ == t by {
                        lemma_decode_unique(bytes@, t, tx@);
                    }
                }
                Ok(tx)
            },
            None => {
                proof {
                    let read = byte_strings(items@);
                    lemma_pow256_eight();
                    lemma_payload_frames(read);
                    assert forall|t: SignedView|
                        signed_valid(t) implies #[trigger] encoding(t) != bytes@ by {
                        if encoding(t) == bytes@ {
                            lemma_signed_items_framed(t);
                            lemma_list_code_injective(signed_items(t), read);
                        }
                    }
                    assert forall|t: SignedView| !#[trigger] decodes_to(bytes@, t) by {}
                }
                Err(Error::MalformedEncoding)
            },
        },
        None => {
            proof {
                assert forall|t: SignedView|
                    signed_valid(t) implies #[trigger] encoding(t) != bytes@ by {
                    if encoding(t) == bytes@ {
                        lemma_signed_items_framed(t);
                        assert(encodes(signed_items(t), bytes@));
                    }
                }
                assert forall|t: SignedView| !#[trigger] decodes_to(bytes@, t) by {}
            }
            Err(Error::MalformedEncoding)
        },
    }
}

/// The fields of a valid transaction are short enough to be framed.
pub proof fn lemma_signed_items_framed(t: SignedView)
    requires
        signed_valid(t),
    ensures
        framed(signed_items(t)),
        payload(signed_items(t)).len() <= MAX_PAYLOAD_LEN,
{
    let items = signed_items(t);
    let v = wire_v(t.signature.recovery_id, t.signature.chain_id);
    lemma_pow256_eight();
    lemma_min_len(t.body.nonce, 32);
    lemma_min_len(t.body.gas_price, 32);
    lemma_min_len(t.body.gas_limit, 32);
    lemma_min_len(t.body.value, 32);
    lemma_min_len(t.signature.r, 32);
    lemma_min_len(t.signature.s, 32);
    lemma_min_len(v, 8);
    assert(items.len() == 9);
    assert(items[0].len() <= 32);
    assert(items[1].len() <= 32);
    assert(items[2].len() <= 32);
    assert(items[3].len() <= 20);
    assert(items[4].len() <= 32);
    assert(items[5].len() <= MAX_DATA_LEN);
    assert(items[6].len() <= 8);
    assert(items[7].len() <= 32);
    assert(items[8].len() <= 32);
    assert(framed(items));
    lemma_total_len_nine(items);
    lemma_payload_bound(items);
}

/// Two valid transactions with the same encoding are the same transaction.
pub proof fn lemma_encoding_injective(t1: SignedView, t2: SignedView)
    requires
        signed_valid(t1),
        signed_valid(t2),
        encoding(t1) == encoding(t2),
    ensures
        t1 == t2,
{
    lemma_signed_items_framed(t1);
    lemma_signed_items_framed(t2);
    lemma_pow256_eight();
    lemma_list_code_injective(signed_items(t1), signed_items(t2));
    lemma_fields_unique(t1, t2);
}

/// Encoding what was decoded gives the bytes back: the transaction that
/// bytes decode to is valid, and its canonical encoding is those bytes,
/// byte for byte.
pub proof fn lemma_encoding_of_decoded(bytes: Seq<u8>)
    requires
        decoded(bytes) is Some,
    ensures
        signed_valid(decoded(bytes)->0),
        encoding(decoded(bytes)->0) == bytes,
{
    let t = choose|t: SignedView| decodes_to(bytes, t);
    assert(decodes_to(bytes, t));
}

/// Decoding what was encoded gives the transaction back: the canonical
/// encoding of a valid transaction decodes to that transaction.
pub proof fn lemma_decoded_of_encoding(t: SignedView)
    requires
        signed_valid(t),
    ensures
        decoded(encoding(t)) == Some(t),
{
    lemma_decoded(encoding(t), t);
}

/// No truncation of an encoded transaction decodes, the empty one
/// included: the length prefix says where the encoding ends.
pub proof fn lemma_truncated_is_malformed(bytes: Seq<u8>, k: int)
    requires
        decoded(bytes) is Some,
        0 <= k < bytes.len(),
    ensures
        decoded(bytes.subrange(0, k)) is None,
{
    let cut = bytes.subrange(0, k);
    lemma_encoding_of_decoded(bytes);
    let t = decoded(bytes)->0;
    if decoded(cut) is Some {
        lemma_encoding_of_decoded(cut);
        let short = decoded(cut)->0;
        lemma_signed_items_framed(t);
        lemma_signed_items_framed(short);
        lemma_pow256_eight();
        lemma_list_code_prefix(signed_items(short), signed_items(t), k);
    }
}

/// The empty byte string decodes to nothing.
pub proof fn lemma_empty_is_malformed()
    ensures
        decoded(Seq::<u8>::empty()) is None,
{
    if decoded(Seq::<u8>::empty()) is Some {
        lemma_encoding_of_decoded(Seq::<u8>::empty());
    }
}

} // verus!
