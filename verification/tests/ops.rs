use eth_tx_util::error::Error;
use eth_tx_util::hex::{decode_hex, encode_hex};
use eth_tx_util::ops::{
    build_transfer, bump_gas_price, debug, get_nonce, plan_bump, sign_transaction, transfer,
    NonceSource, TRANSFER_GAS_LIMIT,
};
use eth_tx_util::replay::{decode_v, encode_v};
use eth_tx_util::signer::recover;
use eth_tx_util::transaction::{decode, signing_hash, TransactionBody};
use eth_tx_util::u256::{Address, U256};

const KEYSTORE: &str = r#"{"id":"22a3741e-07b1-0cb0-80de-e6c56c17b276","version":3,"crypto":{"cipher":"aes-128-ctr","cipherparams":{"iv":"4aa67ba65757583f02e450c9c48c7404"},"ciphertext":"7ad169a1da815b619395aad94c41176702235cc87665c5ebe15df8b1e365d341","kdf":"pbkdf2","kdfparams":{"c":10240,"dklen":32,"prf":"hmac-sha256","salt":"317de285420d0adfbb46bd9cb0957166724faea84ab3af07d70976ab85b7381b"},"mac":"09bdad8d866a8a56ab28eabcfe917f6f77ce2a0581e8cb2ebad9c945a4212bf6"},"address":"005b3bcf82085eededd551f50de7892471ffb272"}"#;

const KEY_ADDRESS: &str = "005b3bcf82085eededd551f50de7892471ffb272";

const FOREIGN: &str = "f86c098504a817c800825208943535353535353535353535353535353535353535880de0b6b3a76400008025a028ef61340bd939bc2195fe537567866003e1a15d3c71ff63e1590620aa636276a067cbe9d8997f761aecb703304b3800ccf555c9f3dc64214b297fb1966a3b6d83";

fn body() -> TransactionBody {
    TransactionBody {
        nonce: U256::from_u64(3),
        gas_price: U256::from_u64(1_000_000_000),
        gas_limit: U256::from_u64(21000),
        to: Address::from_slice(&[0x11; 20]),
        value: U256::from_u64(12345),
        data: vec![0xde, 0xad],
    }
}

fn signed(chain_id: Option<u64>) -> Vec<u8> {
    sign_transaction(KEYSTORE.as_bytes(), b"", body(), chain_id).unwrap().encode()
}

fn signer_of(raw: &[u8]) -> String {
    let tx = decode(raw).unwrap();
    let digest = signing_hash(tx.body(), tx.signature().chain_id);
    encode_hex(&recover(&digest, tx.signature()).unwrap().bytes)
}

#[test]
fn bump_of_a_legacy_transaction() {
    let raw = signed(None);
    assert_eq!(signer_of(&raw), KEY_ADDRESS);
    let price = U256::from_u64(2_000_000_000);
    let out = bump_gas_price(price, &raw, KEYSTORE.as_bytes(), b"").unwrap();
    let tx = decode(&out).unwrap();
    assert_eq!(tx.body().gas_price, price);
    assert_eq!(tx.body().to, body().to);
    assert_eq!(tx.body().value, body().value);
    assert_eq!(tx.body().nonce, body().nonce);
    assert_eq!(tx.body().data, body().data);
    assert_eq!(tx.body().gas_limit, body().gas_limit);
    assert_eq!(tx.signature().chain_id, None);
    assert_eq!(signer_of(&out), KEY_ADDRESS);
}

#[test]
fn bump_keeps_chain_105() {
    let raw = signed(Some(105));
    let price = U256::from_u64(5_000_000_000);
    let out = bump_gas_price(price, &raw, KEYSTORE.as_bytes(), b"").unwrap();
    let tx = decode(&out).unwrap();
    assert_eq!(tx.signature().chain_id, Some(105));
    assert_eq!(tx.body().gas_price, price);
    assert_eq!(signer_of(&out), KEY_ADDRESS);
    assert_eq!(signer_of(&raw), KEY_ADDRESS);
}

#[test]
fn bump_is_reproducible() {
    let raw = signed(Some(1));
    let price = U256::from_u64(7);
    let a = bump_gas_price(price, &raw, KEYSTORE.as_bytes(), b"").unwrap();
    let b = bump_gas_price(price, &raw, KEYSTORE.as_bytes(), b"").unwrap();
    assert_eq!(a, b);
    assert_ne!(a, raw);
}

#[test]
fn plan_reports_the_signer_and_the_old_price() {
    let raw = decode_hex(FOREIGN).unwrap();
    let plan = plan_bump(U256::from_u64(30_000_000_000), &raw).unwrap();
    assert_eq!(encode_hex(&plan.signer.bytes), "9d8a62f656a8d1615c1294fd71e9cfb3e4855a4f");
    assert_eq!(plan.old_gas_price, U256::from_u64(20_000_000_000));
    assert_eq!(plan.body.gas_price, U256::from_u64(30_000_000_000));
    assert_eq!(plan.body.nonce, U256::from_u64(9));
    assert_eq!(plan.chain_id, Some(1));
}

#[test]
fn bump_stops_at_malformed_bytes() {
    let price = U256::from_u64(1);
    let out = bump_gas_price(price, &[0xc0], KEYSTORE.as_bytes(), b"");
    assert_eq!(out, Err(Error::MalformedEncoding));
    let out = bump_gas_price(price, &[], KEYSTORE.as_bytes(), b"not the password");
    assert_eq!(out, Err(Error::MalformedEncoding));
}

#[test]
fn bump_stops_at_a_signature_that_does_not_verify() {
    // r = 1 and s = 1 decode, and r = 5 has no curve point
    let raw = decode_hex("c98080808080801b0501").unwrap();
    assert!(decode(&raw).is_ok());
    let out = bump_gas_price(U256::from_u64(1), &raw, KEYSTORE.as_bytes(), b"");
    assert_eq!(out, Err(Error::InvalidSignature));
    // s = 0
    let raw = decode_hex("c98080808080801b0180").unwrap();
    let out = bump_gas_price(U256::from_u64(1), &raw, KEYSTORE.as_bytes(), b"");
    assert_eq!(out, Err(Error::InvalidSignature));
}

#[test]
fn bump_stops_at_a_wrong_password() {
    let raw = signed(None);
    let out = bump_gas_price(U256::from_u64(1), &raw, KEYSTORE.as_bytes(), b"wrong");
    assert_eq!(out, Err(Error::WrongPassword));
    let out = bump_gas_price(U256::from_u64(1), &raw, b"{}", b"");
    assert_eq!(out, Err(Error::MalformedKeystore));
}

#[test]
fn transfer_on_chain_one() {
    let to = Address::from_slice(&decode_hex("deadbeefdeadbeefdeadbeefdeadbeefdeadbeef").unwrap());
    let out = transfer(
        to.unwrap(),
        U256::zero(),
        U256::from_u64(1000),
        U256::from_u64(20_000_000_000),
        1,
        KEYSTORE.as_bytes(),
        b"",
    )
    .unwrap();
    let tx = decode(&out).unwrap();
    assert_eq!(tx.body().gas_limit, U256::from_u64(21000));
    assert_eq!(TRANSFER_GAS_LIMIT, 21000);
    assert_eq!(tx.body().to, to);
    assert_eq!(tx.body().value, U256::from_u64(1000));
    assert_eq!(tx.body().nonce, U256::zero());
    assert_eq!(tx.body().gas_price, U256::from_u64(20_000_000_000));
    assert!(tx.body().data.is_empty());
    assert_eq!(tx.signature().chain_id, Some(1));
    assert_eq!(signer_of(&out), KEY_ADDRESS);
}

#[test]
fn transfer_on_chain_zero_is_legacy() {
    let to = Address::from_slice(&[0x22; 20]).unwrap();
    let one = U256::from_u64(1);
    let out = transfer(to, one, one, one, 0, KEYSTORE.as_bytes(), b"").unwrap();
    let tx = decode(&out).unwrap();
    assert_eq!(tx.signature().chain_id, None);
    assert_eq!(signer_of(&out), KEY_ADDRESS);
}

#[test]
fn transfer_stops_at_a_wrong_password() {
    let to = Address::from_slice(&[0x22; 20]).unwrap();
    let one = U256::from_u64(1);
    let out = transfer(to, one, one, one, 105, KEYSTORE.as_bytes(), b"nope");
    assert_eq!(out, Err(Error::WrongPassword));
}

#[test]
fn nonce_given_or_looked_up_or_missing() {
    let url = Some("http://localhost:8545".to_owned());
    let nonce = Some(U256::from_u64(4));
    assert_eq!(get_nonce(&url, &nonce), Ok(NonceSource::Given(U256::from_u64(4))));
    assert_eq!(get_nonce(&None, &nonce), Ok(NonceSource::Given(U256::from_u64(4))));
    assert_eq!(
        get_nonce(&url, &None),
        Ok(NonceSource::Lookup("http://localhost:8545".to_owned()))
    );
    assert_eq!(get_nonce(&None, &None), Err(Error::MissingInput));
}

#[test]
fn debug_gives_the_debug_text() {
    assert_eq!(debug(Error::WrongPassword), "WrongPassword");
    assert_eq!(debug(Some(5u8)), "Some(5)");
    assert_eq!(debug("a\"b"), "\"a\\\"b\"");
}

#[test]
fn transfer_body_has_the_fixed_gas_limit_and_no_data() {
    let to = Address::from_slice(&[0x22; 20]).unwrap();
    let b = build_transfer(to, U256::from_u64(1), U256::from_u64(2), U256::from_u64(3));
    assert_eq!(b.nonce, U256::from_u64(1));
    assert_eq!(b.value, U256::from_u64(2));
    assert_eq!(b.gas_price, U256::from_u64(3));
    assert_eq!(b.gas_limit, U256::from_u64(21000));
    assert_eq!(b.to, Some(to));
    assert!(b.data.is_empty());
}

#[test]
fn messages_name_the_stage_and_hide_which_check_failed() {
    assert!(Error::MalformedEncoding.message().starts_with("decoding"));
    assert!(Error::InvalidSignature.message().starts_with("verifying"));
    assert!(Error::InvalidKey.message().starts_with("signing"));
    for e in [
        Error::WrongPassword,
        Error::UnsupportedKdf,
        Error::UnsupportedCipher,
        Error::MalformedKeystore,
    ] {
        assert!(e.message().starts_with("unlocking"));
    }
    assert_eq!(
        Error::WrongPassword.message(),
        "unlocking: the passphrase is wrong or the keystore is damaged"
    );
    assert_eq!(Error::MissingInput.message(), "a required input is missing");
}

#[test]
fn transfer_writes_v_for_each_chain() {
    let to = Address::from_slice(&[0x22; 20]).unwrap();
    let one = U256::from_u64(1);
    for (chain_id, base) in [(0u64, 27u64), (1, 37), (105, 245), (4294967295, 8589934625)] {
        let out = transfer(to, one, one, one, chain_id, KEYSTORE.as_bytes(), b"").unwrap();
        let tx = decode(&out).unwrap();
        assert_eq!(tx.encode(), out);
        let id = tx.signature().recovery_id;
        assert!(id <= 1);
        let v = encode_v(id, tx.signature().chain_id).unwrap();
        assert_eq!(v, base + id as u64);
        let chain = if chain_id == 0 { None } else { Some(chain_id) };
        assert_eq!(decode_v(v), Some((id, chain)));
        assert_eq!(tx.signature().chain_id, chain);
        assert_eq!(signer_of(&out), KEY_ADDRESS);
    }
}

#[test]
fn bump_output_decodes_to_what_was_signed() {
    let raw = signed(Some(105));
    let price = U256::from_u64(9_000_000_000);
    let out = bump_gas_price(price, &raw, KEYSTORE.as_bytes(), b"").unwrap();
    assert_eq!(decode(&raw).unwrap().encode(), raw);
    let tx = decode(&out).unwrap();
    assert_eq!(tx.encode(), out);
    let mut expected = body();
    expected.gas_price = price;
    let again = sign_transaction(KEYSTORE.as_bytes(), b"", expected, Some(105)).unwrap();
    assert_eq!(tx, again);
    let v = encode_v(tx.signature().recovery_id, tx.signature().chain_id).unwrap();
    assert!(v == 245 || v == 246);
}
