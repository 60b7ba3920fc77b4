use eth_tx_util::error::Error;
use eth_tx_util::hex::{decode_hex, encode_hex};
use eth_tx_util::transaction::{
    decode, signing_hash, Signature, SignedTransaction, TransactionBody, MAX_DATA_LEN,
};
use eth_tx_util::u256::{Address, U256};
use std::borrow::Cow;

const SIGNED: &str = "f86c098504a817c800825208943535353535353535353535353535353535353535880de0b6b3a76400008025a028ef61340bd939bc2195fe537567866003e1a15d3c71ff63e1590620aa636276a067cbe9d8997f761aecb703304b3800ccf555c9f3dc64214b297fb1966a3b6d83";

fn bytes(hex: &str) -> Vec<u8> {
    decode_hex(hex).unwrap()
}

fn word(hex: &str) -> U256 {
    U256::from_be_slice(&bytes(hex)).unwrap()
}

fn example_body() -> TransactionBody {
    TransactionBody {
        nonce: U256::from_u64(9),
        gas_price: U256::from_u64(20_000_000_000),
        gas_limit: U256::from_u64(21000),
        to: Address::from_slice(&[0x35; 20]),
        value: U256::from_u64(1_000_000_000_000_000_000),
        data: vec![],
    }
}

fn example_signature() -> Signature {
    Signature {
        recovery_id: 0,
        chain_id: Some(1),
        r: word("28ef61340bd939bc2195fe537567866003e1a15d3c71ff63e1590620aa636276"),
        s: word("67cbe9d8997f761aecb703304b3800ccf555c9f3dc64214b297fb1966a3b6d83"),
    }
}

fn outside_tx(body: &TransactionBody) -> ethereum_transaction::Transaction {
    ethereum_transaction::Transaction {
        from: Default::default(),
        to: body.to.map(|a| ethereum_transaction::Address::from_slice(&a.bytes)),
        nonce: ethereum_transaction::U256::from_big_endian(&body.nonce.bytes),
        gas: ethereum_transaction::U256::from_big_endian(&body.gas_limit.bytes),
        gas_price: ethereum_transaction::U256::from_big_endian(&body.gas_price.bytes),
        value: ethereum_transaction::U256::from_big_endian(&body.value.bytes),
        data: ethereum_transaction::Bytes(body.data.clone()),
    }
}

#[test]
fn decodes_the_replay_protected_example() {
    let tx = decode(&bytes(SIGNED)).unwrap();
    assert_eq!(tx.body(), &example_body());
    assert_eq!(tx.signature(), &example_signature());
}

#[test]
fn encodes_the_replay_protected_example() {
    let tx = SignedTransaction::new(example_body(), example_signature()).unwrap();
    assert_eq!(encode_hex(&tx.encode()), SIGNED);
}

#[test]
fn encode_after_decode_gives_the_bytes_back() {
    let raw = bytes(SIGNED);
    assert_eq!(decode(&raw).unwrap().encode(), raw);
}

#[test]
fn decode_after_encode_gives_the_transaction_back() {
    let mut body = example_body();
    body.data = vec![0x00, 0x7f, 0x80, 0xff];
    body.to = None;
    body.nonce = U256::zero();
    for chain_id in [None, Some(1u64), Some(105), Some(4294967295)] {
        for recovery_id in [0u8, 1] {
            let signature = Signature { recovery_id, chain_id, ..example_signature() };
            let tx = SignedTransaction::new(body.clone(), signature).unwrap();
            assert_eq!(decode(&tx.encode()), Ok(tx));
        }
    }
}

#[test]
fn long_data_round_trips() {
    for len in [1usize, 55, 56, 255, 256, 70000] {
        let mut body = example_body();
        body.data = vec![0xab; len];
        let tx = SignedTransaction::new(body, example_signature()).unwrap();
        let raw = tx.encode();
        assert_eq!(decode(&raw), Ok(tx));
    }
}

#[test]
fn signing_hash_of_the_replay_protected_example() {
    let digest = signing_hash(&example_body(), Some(1));
    assert_eq!(
        encode_hex(&digest),
        "daf5a779ae972f972197303d7b574746c7ef83eadac0f2791ad23db92e4c8e53"
    );
}

#[test]
fn signing_hash_depends_on_the_scheme() {
    let body = example_body();
    let legacy = signing_hash(&body, None);
    assert_eq!(legacy, signing_hash(&body, Some(0)));
    assert_ne!(legacy, signing_hash(&body, Some(1)));
    assert_ne!(signing_hash(&body, Some(1)), signing_hash(&body, Some(105)));
}

#[test]
fn legacy_signing_hash_is_over_six_fields() {
    let body = example_body();
    let preimage =
        bytes("e9098504a817c800825208943535353535353535353535353535353535353535880de0b6b3a764000080");
    let mut expected = [0u8; 32];
    let mut hasher = tiny_keccak::Keccak::v256();
    tiny_keccak::Hasher::update(&mut hasher, &preimage);
    tiny_keccak::Hasher::finalize(hasher, &mut expected);
    assert_eq!(signing_hash(&body, None), expected);
}

#[test]
fn encoding_agrees_with_the_reference_encoder() {
    let mut body = example_body();
    body.data = vec![1, 2, 3];
    for chain_id in [1u64, 105, 4294967295] {
        for recovery_id in [0u8, 1] {
            let signature = Signature { recovery_id, chain_id: Some(chain_id), ..example_signature() };
            let ours = SignedTransaction::new(body.clone(), signature).unwrap().encode();
            let theirs = ethereum_transaction::SignedTransaction::new(
                Cow::Owned(outside_tx(&body)),
                chain_id,
                recovery_id,
                signature.r.bytes,
                signature.s.bytes,
            )
            .to_rlp();
            assert_eq!(ours, theirs);
        }
    }
}

#[test]
fn signing_hash_agrees_with_the_reference_hash() {
    let body = example_body();
    for chain_id in [1u64, 105, 4294967295] {
        let theirs = ethereum_transaction::SignTransaction::owned(outside_tx(&body), chain_id).hash();
        assert_eq!(signing_hash(&body, Some(chain_id)), theirs);
    }
}

#[test]
fn empty_input_is_malformed() {
    assert_eq!(decode(&[]), Err(Error::MalformedEncoding));
}

#[test]
fn truncated_length_header_is_malformed() {
    assert_eq!(decode(&[0xf8]), Err(Error::MalformedEncoding));
    assert_eq!(decode(&[0xf9, 0x01]), Err(Error::MalformedEncoding));
    assert_eq!(decode(&[0xb8]), Err(Error::MalformedEncoding));
}

#[test]
fn every_truncation_is_malformed() {
    let raw = bytes(SIGNED);
    for len in 0..raw.len() {
        assert_eq!(decode(&raw[..len]), Err(Error::MalformedEncoding));
    }
}

#[test]
fn trailing_bytes_are_malformed() {
    let mut raw = bytes(SIGNED);
    raw.push(0);
    assert_eq!(decode(&raw), Err(Error::MalformedEncoding));
}

#[test]
fn wrong_field_count_is_malformed() {
    // eight fields and ten fields
    assert_eq!(decode(&bytes("c88080808080801b01")), Err(Error::MalformedEncoding));
    assert_eq!(decode(&bytes("ca808080808080801b0101")), Err(Error::MalformedEncoding));
    // nine fields
    assert!(decode(&bytes("c98080808080801b0101")).is_ok());
}

#[test]
fn leading_zero_in_a_number_is_malformed() {
    // nonce written as 00 in place of the empty string
    assert_eq!(decode(&bytes("c90080808080801b0101")), Err(Error::MalformedEncoding));
    // r written as 0001
    assert_eq!(decode(&bytes("cb8080808080801b82000101")), Err(Error::MalformedEncoding));
}

#[test]
fn a_list_as_a_field_is_malformed() {
    assert_eq!(decode(&bytes("c9c080808080801b0101")), Err(Error::MalformedEncoding));
}

#[test]
fn non_canonical_length_prefix_is_malformed() {
    // the one-byte string 01 written with a length prefix
    assert_eq!(decode(&bytes("ca8080808080801b810101")), Err(Error::MalformedEncoding));
    // a short list written in the long form
    assert_eq!(decode(&bytes("f8098080808080801b0101")), Err(Error::MalformedEncoding));
}

#[test]
fn receiver_of_wrong_length_is_malformed() {
    assert_eq!(decode(&bytes("cb80808082010280801b0101")), Err(Error::MalformedEncoding));
}

#[test]
fn unrecognized_v_is_malformed() {
    for v in ["1a", "1d", "23", "24", "80"] {
        let raw = bytes(&format!("c9808080808080{}0101", v));
        assert_eq!(decode(&raw), Err(Error::MalformedEncoding));
    }
    let raw = bytes("c98080808080801c0101");
    assert_eq!(decode(&raw).unwrap().signature().recovery_id, 1);
}

#[test]
fn a_transaction_is_not_altered_in_place() {
    let tx = decode(&bytes(SIGNED)).unwrap();
    let (mut body, signature) = tx.clone().into_parts();
    body.gas_price = U256::from_u64(1);
    let rebuilt = SignedTransaction::new(body, signature).unwrap();
    assert_ne!(rebuilt, tx);
    assert_eq!(tx.body().gas_price, U256::from_u64(20_000_000_000));
}

#[test]
fn new_refuses_what_cannot_be_encoded() {
    let bad_recovery = Signature { recovery_id: 2, ..example_signature() };
    assert_eq!(SignedTransaction::new(example_body(), bad_recovery), None);
    let zero_chain = Signature { chain_id: Some(0), ..example_signature() };
    assert_eq!(SignedTransaction::new(example_body(), zero_chain), None);
    assert!(example_body().fits());
    assert!(MAX_DATA_LEN > 0);
}
