//! The `v` field of a signed transaction: the recovery id of the signature,
//! mixed with the chain identifier where replay protection is used.

use vstd::prelude::*;

verus! {

/// The largest chain identifier whose `v` fits in 64 bits with either
/// recovery id.
pub const MAX_CHAIN_ID: u64 = 9223372036854775789;

/// Whether a chain identifier asks for replay protection. Zero and an absent
/// identifier both stand for the scheme without it.
pub open spec fn replay_protected(chain_id: Option<u64>) -> bool {
    chain_id matches Some(id) && id != 0
}

/// The chain identifier with zero folded into absence.
pub open spec fn normal_chain(chain_id: Option<u64>) -> Option<u64> {
    if replay_protected(chain_id) {
        chain_id
    } else {
        None
    }
}

/// The value of `v` on the wire: `27 + recovery_id` without replay
/// protection, `chain_id * 2 + 35 + recovery_id` with it.
pub open spec fn wire_v(recovery_id: u8, chain_id: Option<u64>) -> nat {
    match chain_id {
        Some(id) if id != 0 => (id * 2 + 35 + recovery_id) as nat,
        _ => (27 + recovery_id) as nat,
    }
}

/// What a wire value of `v` stands for: the recovery id and the chain
/// identifier, or nothing where `v` belongs to neither scheme.
pub open spec fn v_parts(v: u64) -> Option<(u8, Option<u64>)> {
    if v == 27 || v == 28 {
        Some(((v - 27) as u8, None))
    } else if v >= 37 && (v - 35) / 2 <= MAX_CHAIN_ID {
        Some((((v - 35) % 2) as u8, Some(((v - 35) / 2) as u64)))
    } else {
        None
    }
}

/// A chain identifier whose `v` fits in 64 bits with either recovery id.
pub open spec fn chain_fits(chain_id: Option<u64>) -> bool {
    chain_id matches Some(id) ==> id <= MAX_CHAIN_ID
}

/// A recovery id and a chain identifier that have a wire value.
pub open spec fn encodable(recovery_id: u8, chain_id: Option<u64>) -> bool {
    recovery_id <= 1 && chain_fits(chain_id)
}

/// Whether `chain_fits` holds.
pub fn chain_id_fits(chain_id: Option<u64>) -> (r: bool)
    ensures
        r <==> chain_fits(chain_id),
{
    match chain_id {
        Some(id) => id <= MAX_CHAIN_ID,
        None => true,
    }
}

/// Reads a chain identifier given as a plain number, where zero means none.
pub fn chain_identity(id: u64) -> (out: Option<u64>)
    ensures
        out == normal_chain(Some(id)),
{
    if id == 0 {
        None
    } else {
        Some(id)
    }
}

/// Folds a chain identifier of zero into absence.
pub fn chain_identity_of(chain_id: Option<u64>) -> (out: Option<u64>)
    ensures
        out == normal_chain(chain_id),
{
    match chain_id {
        Some(id) => chain_identity(id),
        None => None,
    }
}

/// Computes the wire value of `v`. There is none where the recovery id is
/// not 0 or 1, or the chain identifier is above `MAX_CHAIN_ID`.
pub fn encode_v(recovery_id: u8, chain_id: Option<u64>) -> (out: Option<u64>)
    ensures
        out is Some <==> encodable(recovery_id, chain_id),
        out matches Some(v) ==> v == wire_v(recovery_id, chain_id),
{
    if recovery_id > 1 {
        return None;
    }
    match chain_id {
        Some(id) => {
            if id > MAX_CHAIN_ID {
                None
            } else if id == 0 {
                Some(27 + recovery_id as u64)
            } else {
                Some(id * 2 + 35 + recovery_id as u64)
            }
        },
        None => Some(27 + recovery_id as u64),
    }
}

/// Splits a wire value of `v`. Values that belong to neither scheme (below
/// 27, and 29 to 36) are refused rather than read as "no replay protection",
/// and so is the one value whose chain identifier is above `MAX_CHAIN_ID`.
pub fn decode_v(v: u64) -> (out: Option<(u8, Option<u64>)>)
    ensures
        out == v_parts(v),
        out matches Some((recovery_id, chain_id)) ==> encodable(recovery_id, chain_id)
            && chain_id == normal_chain(chain_id),
{
    if v == 27 || v == 28 {
        Some(((v - 27) as u8, None))
    } else if v >= 37 && (v - 35) / 2 <= MAX_CHAIN_ID {
        Some((((v - 35) % 2) as u8, Some((v - 35) / 2)))
    } else {
        None
    }
}

/// Encoding `v` and decoding it again gives back the recovery id and the
/// chain identifier, with a chain identifier of zero read as absent.
pub proof fn lemma_v_round_trip(recovery_id: u8, chain_id: Option<u64>)
    requires
        encodable(recovery_id, chain_id),
    ensures
        wire_v(recovery_id, chain_id) <= u64::MAX,
        v_parts(wire_v(recovery_id, chain_id) as u64) == Some(
            (recovery_id, normal_chain(chain_id)),
        ),
{
}

/// Decoding `v` and encoding the parts again gives back the same `v`.
pub proof fn lemma_v_parts_encode(v: u64)
    requires
        v_parts(v) is Some,
    ensures
        ({
            let (recovery_id, chain_id) = v_parts(v)->0;
            &&& encodable(recovery_id, chain_id)
            &&& wire_v(recovery_id, chain_id) == v
        }),
{
}

/// Two encodable pairs with the same wire value are the same pair, up to
/// reading a chain identifier of zero as absent.
pub proof fn lemma_wire_v_injective(r1: u8, c1: Option<u64>, r2: u8, c2: Option<u64>)
    requires
        encodable(r1, c1),
        encodable(r2, c2),
        wire_v(r1, c1) == wire_v(r2, c2),
    ensures
        r1 == r2,
        normal_chain(c1) == normal_chain(c2),
{
}

} // verus!
