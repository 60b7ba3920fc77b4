//! Signing a digest and recovering the signer of one, on the curve
//! secp256k1.

use vstd::prelude::*;
use crate::bigend::{
    be_min, be_value, left_padded, lemma_fixed_width_unique, lemma_min_len, lemma_min_value,
    lemma_value_bound, lemma_value_left_padded,
};
use crate::error::Error;
use crate::replay::{chain_fits, chain_identity_of, normal_chain};
use crate::transaction::{Signature, SignatureView};
use crate::u256::{Address, U256};

verus! {

/// The order of the group of secp256k1, as 32 big-endian bytes:
/// `FFFFFFFF FFFFFFFF FFFFFFFF FFFFFFFE BAAEDCE6 AF48A03B BFD25E8C D0364141`.
pub open spec fn curve_order_bytes() -> Seq<u8> {
    seq![
        0xffu8, 0xff, 0xff, 0xff, 0xff, 0xff, 0xff, 0xff,
        0xff, 0xff, 0xff, 0xff, 0xff, 0xff, 0xff, 0xfe,
        0xba, 0xae, 0xdc, 0xe6, 0xaf, 0x48, 0xa0, 0x3b,
        0xbf, 0xd2, 0x5e, 0x8c, 0xd0, 0x36, 0x41, 0x41,
    ]
}

/// Half the order of the group, rounded down, as 32 big-endian bytes:
/// `7FFFFFFF FFFFFFFF FFFFFFFF FFFFFFFF 5D576E73 57A4501D DFE92F46 681B20A0`.
pub open spec fn half_order_bytes() -> Seq<u8> {
    seq![
        0x7fu8, 0xff, 0xff, 0xff, 0xff, 0xff, 0xff, 0xff,
        0xff, 0xff, 0xff, 0xff, 0xff, 0xff, 0xff, 0xff,
        0x5d, 0x57, 0x6e, 0x73, 0x57, 0xa4, 0x50, 0x1d,
        0xdf, 0xe9, 0x2f, 0x46, 0x68, 0x1b, 0x20, 0xa0,
    ]
}

/// The order of the group of secp256k1.
pub open spec fn curve_order() -> nat {
    be_value(curve_order_bytes())
}

/// The largest `s` of a canonical signature.
pub open spec fn half_order() -> nat {
    be_value(half_order_bytes())
}

/// A canonical signature: recovery id 0 or 1, `r` above zero and below the
/// order of the group, `s` above zero and at most half the order.
pub open spec fn canonical(sig: SignatureView) -> bool {
    &&& sig.recovery_id <= 1
    &&& 0 < sig.r < curve_order()
    &&& 0 < sig.s <= half_order()
}

/// The 32 big-endian bytes of a number below 256 to the 32nd.
pub open spec fn word(n: nat) -> Seq<u8> {
    left_padded(be_min(n), 32)
}

/// A `U256` holds the word of its number.
pub proof fn lemma_word(x: U256)
    ensures
        x.bytes@ == word(x@),
{
    lemma_value_bound(x.bytes@);
    lemma_min_len(x@, 32);
    lemma_min_value(x@);
    lemma_value_left_padded(be_min(x@), 32);
    lemma_fixed_width_unique(x.bytes@, word(x@));
}

/// The address that ECDSA public-key recovery gives for a digest, a
/// recovery id and the 32-byte words `r` and `s`, if it gives a key: the
/// last 20 bytes of the Keccak-256 digest of the recovered public key.
pub uninterp spec fn recovered_address(digest: Seq<u8>, recovery_id: u8, r: Seq<u8>, s: Seq<u8>)
    -> Option<Seq<u8>>;

/// The signature that deterministic ECDSA gives for a digest under a secret
/// scalar, if the scalar is a valid key: the recovery id and the 32-byte
/// words `r` and `s`.
pub uninterp spec fn ecdsa_signature(digest: Seq<u8>, secret: Seq<u8>) -> Option<
    (u8, Seq<u8>, Seq<u8>),
>;

/// `ethsign::Signature::recover`, followed by `ethsign::PublicKey::address`.
/// Both depend on their arguments alone; a failure of the first is
/// reported as `None`.
#[verifier::external_body]
fn ecdsa_recover(digest: &[u8; 32], recovery_id: u8, r: &[u8; 32], s: &[u8; 32]) -> (out: Option<
    [u8; 20],
>)
    ensures
        out matches Some(a) ==> recovered_address(digest@, recovery_id, r@, s@) == Some(a@),
        out is None ==> recovered_address(digest@, recovery_id, r@, s@) is None,
{
    let signature = ethsign::Signature { v: recovery_id, r: *r, s: *s };
    match signature.recover(digest) {
        Ok(key) => Some(*key.address()),
        Err(_) => None,
    }
}

/// `ethsign::SecretKey::from_raw`, followed by `ethsign::SecretKey::sign`.
/// The nonce is derived from the key and the digest, so the signature
/// depends on the arguments alone; a failure of either is reported as
/// `None`.
#[verifier::external_body]
fn ecdsa_sign(digest: &[u8; 32], secret: &[u8; 32]) -> (out: Option<(u8, [u8; 32], [u8; 32])>)
    ensures
        out matches Some((v, r, s)) ==> ecdsa_signature(digest@, secret@) == Some((v, r@, s@)),
        out is None ==> ecdsa_signature(digest@, secret@) is None,
{
    match ethsign::SecretKey::from_raw(secret) {
        Ok(key) => match key.sign(digest) {
            Ok(signature) => Some((signature.v, signature.r, signature.s)),
            Err(_) => None,
        },
        Err(_) => None,
    }
}

fn curve_order_value() -> (out: U256)
    ensures
        out.bytes@ == curve_order_bytes(),
        out@ == curve_order(),
{
    let bytes: [u8; 32] = [
        0xff, 0xff, 0xff, 0xff, 0xff, 0xff, 0xff, 0xff,
        0xff, 0xff, 0xff, 0xff, 0xff, 0xff, 0xff, 0xfe,
        0xba, 0xae, 0xdc, 0xe6, 0xaf, 0x48, 0xa0, 0x3b,
        0xbf, 0xd2, 0x5e, 0x8c, 0xd0, 0x36, 0x41, 0x41,
    ];
    assert(bytes@ =~= curve_order_bytes());
    U256 { bytes }
}

fn half_order_value() -> (out: U256)
    ensures
        out.bytes@ == half_order_bytes(),
        out@ == half_order(),
{
    let bytes: [u8; 32] = [
        0x7f, 0xff, 0xff, 0xff, 0xff, 0xff, 0xff, 0xff,
        0xff, 0xff, 0xff, 0xff, 0xff, 0xff, 0xff, 0xff,
        0x5d, 0x57, 0x6e, 0x73, 0x57, 0xa4, 0x50, 0x1d,
        0xdf, 0xe9, 0x2f, 0x46, 0x68, 0x1b, 0x20, 0xa0,
    ];
    assert(bytes@ =~= half_order_bytes());
    U256 { bytes }
}

/// Whether a signature is canonical.
pub fn is_canonical(signature: &Signature) -> (r: bool)
    ensures
        r <==> canonical(signature@),
{
    let order = curve_order_value();
    let half = half_order_value();
    signature.recovery_id <= 1 && !signature.r.is_zero() && signature.r.lt(&order)
        && !signature.s.is_zero() && !half.lt(&signature.s)
}

/// The signer of a digest, as far as the signature tells: none where the
/// signature is not canonical, else what public-key recovery gives.
pub open spec fn signer_of(digest: Seq<u8>, sig: SignatureView) -> Option<Seq<u8>> {
    if canonical(sig) {
        recovered_address(digest, sig.recovery_id, word(sig.r), word(sig.s))
    } else {
        None
    }
}

/// What `recover` returns for each outcome of public-key recovery.
pub fn recovery_outcome(found: Option<[u8; 20]>) -> (out: Result<Address, Error>)
    ensures
        match found {
            Some(a) => out matches Ok(address) && address@ == a@,
            None => out == Err::<Address, Error>(Error::InvalidSignature),
        },
{
    match found {
        Some(bytes) => Ok(Address { bytes }),
        None => Err(Error::InvalidSignature),
    }
}

/// Recovers the address of the signer of `digest`. The signature is invalid
/// where it is not canonical or where recovery finds no public key.
pub fn recover(digest: &[u8; 32], signature: &Signature) -> (out: Result<Address, Error>)
    ensures
        match signer_of(digest@, signature@) {
            Some(a) => out matches Ok(address) && address@ == a,
            None => out == Err::<Address, Error>(Error::InvalidSignature),
        },
{
    if !is_canonical(signature) {
        return Err(Error::InvalidSignature);
    }
    proof {
        lemma_word(signature.r);
        lemma_word(signature.s);
    }
    let found = ecdsa_recover(digest, signature.recovery_id, &signature.r.bytes, &signature.s.bytes);
    recovery_outcome(found)
}

/// A secret scalar. It cannot be copied, printed or read back; `wipe`
/// overwrites it.
pub struct SecretScalar {
    bytes: [u8; 32],
}

impl View for SecretScalar {
    type V = Seq<u8>;

    closed spec fn view(&self) -> Seq<u8> {
        self.bytes@
    }
}

impl SecretScalar {
    /// Takes a scalar given as 32 big-endian bytes.
    pub fn from_bytes(bytes: [u8; 32]) -> (out: SecretScalar)
        ensures
            out@ == bytes@,
    {
        SecretScalar { bytes }
    }

    /// Overwrites the scalar with zero bytes.
    pub fn wipe(&mut self)
        ensures
            final(self)@.len() == 32,
            forall|i: int| 0 <= i < 32 ==> final(self)@[i] == 0,
    {
        self.bytes = [0u8; 32];
    }
}

/// The signature of `digest` under `secret` for a chain, as far as signing
/// tells: none where the scalar is no valid key or the signature that comes
/// back is not canonical.
pub open spec fn signature_of(digest: Seq<u8>, secret: Seq<u8>, chain_id: Option<u64>) -> Option<
    SignatureView,
> {
    match ecdsa_signature(digest, secret) {
        Some((v, r, s)) => {
            let sig = SignatureView {
                recovery_id: v,
                chain_id: normal_chain(chain_id),
                r: be_value(r),
                s: be_value(s),
            };
            if r.len() == 32 && s.len() == 32 && canonical(sig) {
                Some(sig)
            } else {
                None
            }
        },
        None => None,
    }
}

/// What `sign` returns for each outcome of the signer.
pub fn signing_outcome(made: Option<(u8, [u8; 32], [u8; 32])>, chain_id: Option<u64>) -> (out:
    Result<Signature, Error>)
    requires
        chain_fits(chain_id),
    ensures
        match made {
            Some((v, r, s)) => {
                let sig = SignatureView {
                    recovery_id: v,
                    chain_id: normal_chain(chain_id),
                    r: be_value(r@),
                    s: be_value(s@),
                };
                if canonical(sig) {
                    out matches Ok(signature) && signature@ == sig && signature.wf()
                } else {
                    out == Err::<Signature, Error>(Error::InvalidKey)
                }
            },
            None => out == Err::<Signature, Error>(Error::InvalidKey),
        },
{
    match made {
        Some((v, r, s)) => {
            let signature = Signature {
                recovery_id: v,
                chain_id: chain_identity_of(chain_id),
                r: U256 { bytes: r },
                s: U256 { bytes: s },
            };
            if is_canonical(&signature) {
                proof {
                    lemma_value_bound(r@);
                    lemma_value_bound(s@);
                }
                Ok(signature)
            } else {
                Err(Error::InvalidKey)
            }
        },
        None => Err(Error::InvalidKey),
    }
}

/// Signs `digest` with `secret` for a chain. The key is invalid where the
/// signer refuses it or hands back a signature that is not canonical.
pub fn sign(digest: &[u8; 32], secret: &SecretScalar, chain_id: Option<u64>) -> (out: Result<
    Signature,
    Error,
>)
    requires
        chain_fits(chain_id),
    ensures
        match signature_of(digest@, secret@, chain_id) {
            Some(sig) => out matches Ok(signature) && signature@ == sig && signature.wf()
                && canonical(sig),
            None => out == Err::<Signature, Error>(Error::InvalidKey),
        },
{
    let made = ecdsa_sign(digest, &secret.bytes);
    signing_outcome(made, chain_id)
}

/// A signature that signing makes is canonical: recovering the signer from
/// it fails only where public-key recovery itself finds no key.
pub proof fn lemma_made_signature_is_canonical(
    digest: Seq<u8>,
    secret: Seq<u8>,
    chain_id: Option<u64>,
)
    requires
        signature_of(digest, secret, chain_id) is Some,
    ensures
        ({
            let sig = signature_of(digest, secret, chain_id)->0;
            &&& canonical(sig)
            &&& signer_of(digest, sig) == recovered_address(
                digest,
                sig.recovery_id,
                word(sig.r),
                word(sig.s),
            )
        }),
{
}

} // verus!
