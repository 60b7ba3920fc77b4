//! The operations on transactions: raising the gas price of a signed
//! transaction, and building a transfer.

use vstd::prelude::*;
use crate::error::Error;
use crate::keystore::{open_keyfile, open_spec};
use crate::replay::{
    chain_fits, chain_identity, lemma_v_round_trip, normal_chain, v_parts, wire_v, MAX_CHAIN_ID,
};
use crate::signer::{ecdsa_signature, recover, sign, signature_of, signer_of};
use crate::transaction::{
    body_valid, decode, decoded, encoding, lemma_decoded_of_encoding, lemma_encoding_of_decoded,
    signed_valid, signing_digest, signing_hash, BodyView, SignedTransaction, SignedView,
    TransactionBody,
};
use crate::u256::{Address, U256};
use crate::bigend::{lemma_pow256_monotone, lemma_value_bound, pow256};

verus! {

/// The gas limit of a transfer: what moving value costs, and no more.
pub const TRANSFER_GAS_LIMIT: u64 = 21000;

/// `format!` with `{:?}`: the text that the type's `Debug` gives.
#[verifier::external_body]
fn debug_text<T: std::fmt::Debug>(t: &T) -> (out: String) {
    format!("{:?}", t)
}

/// Shows a value as its `Debug` text, for messages.
pub fn debug<T: std::fmt::Debug>(t: T) -> (out: String) {
    debug_text(&t)
}

/// A signed transaction that was verified and whose body was given a new
/// gas price: what is left to do is to sign the body again.
#[derive(Clone, Debug, PartialEq, Eq)]
pub struct BumpPlan {
    /// The signer of the transaction as it came.
    pub signer: Address,
    /// The gas price of the transaction as it came.
    pub old_gas_price: U256,
    /// The body with the new gas price.
    pub body: TransactionBody,
    /// The chain of the signature as it came.
    pub chain_id: Option<u64>,
}

pub struct PlanView {
    pub signer: Seq<u8>,
    pub old_gas_price: nat,
    pub body: BodyView,
    pub chain_id: Option<u64>,
}

impl View for BumpPlan {
    type V = PlanView;

    open spec fn view(&self) -> PlanView {
        PlanView {
            signer: self.signer@,
            old_gas_price: self.old_gas_price@,
            body: self.body@,
            chain_id: self.chain_id,
        }
    }
}

/// The body with another gas price, all else unchanged.
pub open spec fn with_gas_price(b: BodyView, gas_price: nat) -> BodyView {
    BodyView {
        nonce: b.nonce,
        gas_price,
        gas_limit: b.gas_limit,
        to: b.to,
        value: b.value,
        data: b.data,
    }
}

/// What verifying an encoded transaction and giving it a new gas price
/// comes to: malformed bytes and a signature that recovers no signer are
/// errors, and nothing is altered before the signer is known.
pub open spec fn plan_spec(gas_price: nat, rlp: Seq<u8>) -> Result<PlanView, Error> {
    match decoded(rlp) {
        None => Err(Error::MalformedEncoding),
        Some(t) => match signer_of(signing_digest(t.body, t.signature.chain_id), t.signature) {
            None => Err(Error::InvalidSignature),
            Some(signer) => Ok(
                PlanView {
                    signer,
                    old_gas_price: t.body.gas_price,
                    body: with_gas_price(t.body, gas_price),
                    chain_id: t.signature.chain_id,
                },
            ),
        },
    }
}

/// An outcome that stands for `expected`.
pub open spec fn plan_is(out: Result<BumpPlan, Error>, expected: Result<PlanView, Error>) -> bool {
    match expected {
        Ok(plan) => out matches Ok(p) && p@ == plan && body_valid(p@.body) && chain_fits(
            p@.chain_id,
        ),
        Err(e) => out matches Err(x) && x == e,
    }
}

/// Decodes a signed transaction, recovers its signer, and only then puts
/// the new gas price into its body. The chain of the new signature is the
/// chain of the old one.
pub fn plan_bump(gas_price: U256, rlp: &[u8]) -> (out: Result<BumpPlan, Error>)
    ensures
        plan_is(out, plan_spec(gas_price@, rlp@)),
{
    let tx = match decode(rlp) {
        Ok(tx) => tx,
        Err(e) => {
            return Err(e);
        },
    };
    let (body, signature) = tx.into_parts();
    let digest = signing_hash(&body, signature.chain_id);
    let signer = match recover(&digest, &signature) {
        Ok(signer) => signer,
        Err(e) => {
            return Err(e);
        },
    };
    let old_gas_price = body.gas_price;
    let body = TransactionBody {
        nonce: body.nonce,
        gas_price,
        gas_limit: body.gas_limit,
        to: body.to,
        value: body.value,
        data: body.data,
    };
    proof {
        lemma_value_bound(gas_price.bytes@);
    }
    Ok(BumpPlan { signer, old_gas_price, body, chain_id: signature.chain_id })
}

/// What signing a body with the key of a keystore document comes to.
pub open spec fn sign_spec(
    keystore: Seq<u8>,
    passphrase: Seq<u8>,
    body: BodyView,
    chain_id: Option<u64>,
) -> Result<SignedView, Error> {
    match open_spec(keystore, passphrase) {
        Err(e) => Err(e),
        Ok(secret) => match signature_of(signing_digest(body, chain_id), secret, chain_id) {
            Some(signature) => Ok(SignedView { body, signature }),
            None => Err(Error::InvalidKey),
        },
    }
}

/// An outcome that stands for `expected`.
pub open spec fn signed_is(out: Result<SignedTransaction, Error>, expected: Result<
    SignedView,
    Error,
>) -> bool {
    match expected {
        Ok(t) => out matches Ok(tx) && tx@ == t && tx.wf(),
        Err(e) => out matches Err(x) && x == e,
    }
}

/// Signs a body with the key of a keystore document. The secret scalar is
/// recovered once, used for the one signature and wiped; it does not leave
/// this function.
pub fn sign_transaction(
    keystore: &[u8],
    passphrase: &[u8],
    body: TransactionBody,
    chain_id: Option<u64>,
) -> (out: Result<SignedTransaction, Error>)
    requires
        body_valid(body@),
        chain_fits(chain_id),
    ensures
        signed_is(out, sign_spec(keystore@, passphrase@, body@, chain_id)),
{
    let mut secret = match open_keyfile(keystore, passphrase) {
        Ok(secret) => secret,
        Err(e) => {
            return Err(e);
        },
    };
    let digest = signing_hash(&body, chain_id);
    let signed = sign(&digest, &secret, chain_id);
    secret.wipe();
    match signed {
        Ok(signature) => {
            let tx = SignedTransaction::new(body, signature);
            Ok(tx.unwrap())
        },
        Err(e) => Err(e),
    }
}

/// What raising the gas price comes to, from the encoded transaction to
/// the encoded transaction.
pub open spec fn bump_spec(
    gas_price: nat,
    rlp: Seq<u8>,
    keystore: Seq<u8>,
    passphrase: Seq<u8>,
) -> Result<Seq<u8>, Error> {
    match plan_spec(gas_price, rlp) {
        Err(e) => Err(e),
        Ok(plan) => match sign_spec(keystore, passphrase, plan.body, plan.chain_id) {
            Err(e) => Err(e),
            Ok(t) => Ok(encoding(t)),
        },
    }
}

/// An outcome that stands for `expected`.
pub open spec fn bytes_are(out: Result<Vec<u8>, Error>, expected: Result<Seq<u8>, Error>) -> bool {
    match expected {
        Ok(bytes) => out matches Ok(v) && v@ == bytes,
        Err(e) => out matches Err(x) && x == e,
    }
}

/// Raises the gas price of a signed transaction: decodes it, recovers its
/// signer, puts in the new gas price, signs the body for the same chain
/// with the key of the keystore document, and encodes the result.
pub fn bump_gas_price(gas_price: U256, rlp: &[u8], keystore: &[u8], passphrase: &[u8]) -> (out:
    Result<Vec<u8>, Error>)
    ensures
        bytes_are(out, bump_spec(gas_price@, rlp@, keystore@, passphrase@)),
{
    let plan = match plan_bump(gas_price, rlp) {
        Ok(plan) => plan,
        Err(e) => {
            return Err(e);
        },
    };
    match sign_transaction(keystore, passphrase, plan.body, plan.chain_id) {
        Ok(tx) => Ok(tx.encode()),
        Err(e) => Err(e),
    }
}

/// The body of a transfer: the gas limit is 21000 and there is no data.
pub open spec fn transfer_body(to: Seq<u8>, nonce: nat, value: nat, gas_price: nat) -> BodyView {
    BodyView {
        nonce,
        gas_price,
        gas_limit: TRANSFER_GAS_LIMIT as nat,
        to: Some(to),
        value,
        data: Seq::empty(),
    }
}

/// What building a transfer comes to. A chain identifier of zero stands
/// for no replay protection.
pub open spec fn transfer_spec(
    to: Seq<u8>,
    nonce: nat,
    value: nat,
    gas_price: nat,
    chain_id: u64,
    keystore: Seq<u8>,
    passphrase: Seq<u8>,
) -> Result<Seq<u8>, Error> {
    match sign_spec(
        keystore,
        passphrase,
        transfer_body(to, nonce, value, gas_price),
        normal_chain(Some(chain_id)),
    ) {
        Err(e) => Err(e),
        Ok(t) => Ok(encoding(t)),
    }
}

/// Builds the body of a transfer.
pub fn build_transfer(to: Address, nonce: U256, value: U256, gas_price: U256) -> (body:
    TransactionBody)
    ensures
        body@ == transfer_body(to@, nonce@, value@, gas_price@),
        body_valid(body@),
{
    let body = TransactionBody {
        nonce,
        gas_price,
        gas_limit: U256::from_u64(TRANSFER_GAS_LIMIT),
        to: Some(to),
        value,
        data: Vec::new(),
    };
    proof {
        lemma_value_bound(nonce.bytes@);
        lemma_value_bound(gas_price.bytes@);
        lemma_value_bound(value.bytes@);
        lemma_value_bound(body.gas_limit.bytes@);
        assert(body@.data =~= Seq::<u8>::empty());
    }
    body
}

/// Builds a transfer of `value` to `to`, signs it with the key of the
/// keystore document, and encodes it.
pub fn transfer(
    to: Address,
    nonce: U256,
    value: U256,
    gas_price: U256,
    chain_id: u64,
    keystore: &[u8],
    passphrase: &[u8],
) -> (out: Result<Vec<u8>, Error>)
    requires
        chain_id <= MAX_CHAIN_ID,
    ensures
        bytes_are(
            out,
            transfer_spec(to@, nonce@, value@, gas_price@, chain_id, keystore@, passphrase@),
        ),
{
    let body = build_transfer(to, nonce, value, gas_price);
    match sign_transaction(keystore, passphrase, body, chain_identity(chain_id)) {
        Ok(tx) => Ok(tx.encode()),
        Err(e) => Err(e),
    }
}

/// Where the nonce of a transfer comes from.
#[derive(Clone, Debug, PartialEq, Eq)]
pub enum NonceSource {
    /// The nonce was given.
    Given(U256),
    /// The nonce is to be asked of the node at this URL, for the address
    /// of the keystore.
    Lookup(String),
}

/// Decides where the nonce comes from: a nonce that is given is used, else
/// it is looked up where an endpoint is given, and with neither an input is
/// missing.
pub fn get_nonce(rpc: &Option<String>, nonce: &Option<U256>) -> (out: Result<NonceSource, Error>)
    ensures
        match (*rpc, *nonce) {
            (_, Some(n)) => out matches Ok(NonceSource::Given(x)) && x == n,
            (Some(url), None) => out matches Ok(NonceSource::Lookup(u)) && u@ == url@,
            (None, None) => out matches Err(e) && e == Error::MissingInput,
        },
{
    match nonce {
        Some(n) => Ok(NonceSource::Given(*n)),
        None => match rpc {
            Some(url) => Ok(NonceSource::Lookup(url.clone())),
            None => Err(Error::MissingInput),
        },
    }
}

/// What signing comes to, where it succeeds: the body is the one that was
/// given, the transaction is valid, the recovery id is 0 or 1, `v` is
/// `27 + id` without replay protection and `chain * 2 + 35 + id` with it,
/// and `v` reads back as that recovery id and that chain.
pub proof fn lemma_signed_has_its_chain(
    keystore: Seq<u8>,
    passphrase: Seq<u8>,
    body: BodyView,
    chain_id: Option<u64>,
)
    requires
        body_valid(body),
        chain_fits(chain_id),
        sign_spec(keystore, passphrase, body, chain_id) is Ok,
    ensures
        ({
            let t = sign_spec(keystore, passphrase, body, chain_id)->Ok_0;
            let id = t.signature.recovery_id;
            let v = wire_v(id, t.signature.chain_id);
            &&& t.body == body
            &&& signed_valid(t)
            &&& id <= 1
            &&& t.signature.chain_id == normal_chain(chain_id)
            &&& v == (match normal_chain(chain_id) {
                Some(chain) => chain * 2 + 35 + id,
                None => 27 + id,
            })
            &&& v <= u64::MAX
            &&& v_parts(v as u64) == Some((id, normal_chain(chain_id)))
        }),
{
    let secret = open_spec(keystore, passphrase)->Ok_0;
    let digest = signing_digest(body, chain_id);
    let made = ecdsa_signature(digest, secret)->0;
    let t = sign_spec(keystore, passphrase, body, chain_id)->Ok_0;
    lemma_value_bound(made.1);
    lemma_value_bound(made.2);
    lemma_v_round_trip(t.signature.recovery_id, t.signature.chain_id);
}

/// Raising the gas price, where it succeeds: what came in is the canonical
/// encoding of the transaction it decodes to, and what goes out decodes to
/// a transaction, of which it is the canonical encoding, with the new gas
/// price, with the receiver, value, nonce, gas limit and data of the one
/// that came in, and with a `v` that reads back as the chain of the one
/// that came in.
pub proof fn lemma_bump_keeps_chain(
    gas_price: nat,
    rlp: Seq<u8>,
    keystore: Seq<u8>,
    passphrase: Seq<u8>,
)
    requires
        gas_price < pow256(32),
        bump_spec(gas_price, rlp, keystore, passphrase) is Ok,
    ensures
        decoded(rlp) is Some,
        encoding(decoded(rlp)->0) == rlp,
        ({
            let out = bump_spec(gas_price, rlp, keystore, passphrase)->Ok_0;
            let old = decoded(rlp)->0;
            &&& decoded(out) is Some
            &&& encoding(decoded(out)->0) == out
            &&& decoded(out)->0.body == with_gas_price(old.body, gas_price)
            &&& decoded(out)->0.signature.chain_id == old.signature.chain_id
            &&& decoded(out)->0.signature.recovery_id <= 1
            &&& v_parts(
                wire_v(
                    decoded(out)->0.signature.recovery_id,
                    decoded(out)->0.signature.chain_id,
                ) as u64,
            ) == Some((decoded(out)->0.signature.recovery_id, old.signature.chain_id))
        }),
{
    lemma_encoding_of_decoded(rlp);
    let plan = plan_spec(gas_price, rlp)->Ok_0;
    lemma_signed_has_its_chain(keystore, passphrase, plan.body, plan.chain_id);
    let new = sign_spec(keystore, passphrase, plan.body, plan.chain_id)->Ok_0;
    lemma_decoded_of_encoding(new);
}

/// Building a transfer, where it succeeds: what goes out decodes to a
/// transaction, of which it is the canonical encoding, with the fields
/// that were given, a gas limit of 21000 and no data, and with a `v` that
/// reads back as the chain that was given, where zero stands for none.
pub proof fn lemma_transfer_round_trips(
    to: Seq<u8>,
    nonce: nat,
    value: nat,
    gas_price: nat,
    chain_id: u64,
    keystore: Seq<u8>,
    passphrase: Seq<u8>,
)
    requires
        to.len() == 20,
        nonce < pow256(32),
        value < pow256(32),
        gas_price < pow256(32),
        chain_id <= MAX_CHAIN_ID,
        transfer_spec(to, nonce, value, gas_price, chain_id, keystore, passphrase) is Ok,
    ensures
        ({
            let out = transfer_spec(
                to,
                nonce,
                value,
                gas_price,
                chain_id,
                keystore,
                passphrase,
            )->Ok_0;
            let id = decoded(out)->0.signature.recovery_id;
            let v = wire_v(id, decoded(out)->0.signature.chain_id);
            &&& decoded(out) is Some
            &&& encoding(decoded(out)->0) == out
            &&& decoded(out)->0.body == transfer_body(to, nonce, value, gas_price)
            &&& decoded(out)->0.body.gas_limit == 21000
            &&& decoded(out)->0.body.data.len() == 0
            &&& id <= 1
            &&& v == (if chain_id == 0 {
                27 + id
            } else {
                chain_id * 2 + 35 + id
            })
            &&& v_parts(v as u64) == Some((id, normal_chain(Some(chain_id))))
        }),
{
    let body = transfer_body(to, nonce, value, gas_price);
    let chain = normal_chain(Some(chain_id));
    assert(TRANSFER_GAS_LIMIT < pow256(32)) by {
        lemma_pow256_monotone(2, 32);
        assert(pow256(2) == 256 * pow256(1));
        assert(pow256(1) == 256 * pow256(0));
    }
    lemma_signed_has_its_chain(keystore, passphrase, body, chain);
    let new = sign_spec(keystore, passphrase, body, chain)->Ok_0;
    lemma_decoded_of_encoding(new);
}

} // verus!
