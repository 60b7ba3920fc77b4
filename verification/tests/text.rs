use eth_tx_util::amount::parse_u256;
use eth_tx_util::bigend::{be_to_u64, trim_leading_zeros, u64_to_be_min};
use eth_tx_util::error::Error;
use eth_tx_util::hex::{decode_hex, encode_hex, HexBytes};
use eth_tx_util::u256::{copy_bytes, same_bytes, Address, U256};
use eth_tx_util::wire::{byte_width, code_len, decode_list, encode_list, payload_len};

#[test]
fn hex_reads_both_cases_and_passes_over_blanks() {
    assert_eq!(decode_hex("666f6f626172"), Some(b"foobar".to_vec()));
    assert_eq!(decode_hex("666F6F626172"), Some(b"foobar".to_vec()));
    assert_eq!(decode_hex("666f 6f6\r\n26172\t"), Some(b"foobar".to_vec()));
    assert_eq!(decode_hex(""), Some(vec![]));
    assert_eq!(decode_hex("00ff"), Some(vec![0, 255]));
}

#[test]
fn hex_refuses_odd_lengths_and_other_characters() {
    assert_eq!(decode_hex("666"), None);
    assert_eq!(decode_hex("66 6"), None);
    assert_eq!(decode_hex("66y6"), None);
    assert_eq!(decode_hex("0x00"), None);
    assert_eq!(decode_hex("é0"), None);
}

#[test]
fn hex_writes_lower_case() {
    assert_eq!(encode_hex(b"foobar"), "666f6f626172");
    assert_eq!(encode_hex(&[0x00, 0x0a, 0xf0, 0xff]), "000af0ff");
    assert_eq!(encode_hex(&[]), "");
}

#[test]
fn hex_bytes_from_text_and_back() {
    let h = HexBytes::from_str("DEADbeef").unwrap();
    assert_eq!(h.as_slice(), &[0xde, 0xad, 0xbe, 0xef]);
    assert_eq!(h.to_hex(), "deadbeef");
    assert_eq!(HexBytes::from_str("xyz").err(), Some(Error::MalformedEncoding));
}

#[test]
fn amounts_in_decimal() {
    assert_eq!(parse_u256("0"), Some(U256::zero()));
    assert_eq!(parse_u256("21000"), Some(U256::from_u64(21000)));
    assert_eq!(parse_u256("20_000_000_000"), Some(U256::from_u64(20_000_000_000)));
    assert_eq!(parse_u256("+7"), Some(U256::from_u64(7)));
    assert_eq!(parse_u256("18446744073709551615"), Some(U256::from_u64(u64::MAX)));
    assert_eq!(parse_u256("007"), Some(U256::from_u64(7)));
    assert_eq!(parse_u256("10"), Some(U256::from_u64(10)));
}

#[test]
fn decimal_amounts_above_64_bits() {
    // two to the 64th
    let mut bytes = [0u8; 32];
    bytes[23] = 1;
    assert_eq!(parse_u256("18446744073709551616"), Some(U256 { bytes }));
    assert_eq!(parse_u256("+18_446_744_073_709_551_616"), Some(U256 { bytes }));
    // twenty ether in wei
    let twenty_ether = U256 { bytes: [0, 0, 0, 0, 0, 0, 0, 0, 0, 0, 0, 0, 0, 0, 0, 0, 0, 0, 0, 0, 0, 0, 0, 1, 21, 142, 70, 9, 19, 208, 0, 0] };
    assert_eq!(parse_u256("20000000000000000000"), Some(twenty_ether));
    assert_eq!(parse_u256("20_000_000_000_000_000_000"), Some(twenty_ether));
    // sixty-five digits are still a decimal number
    let ones = U256 { bytes: [0, 0, 0, 0, 0, 27, 2, 118, 31, 156, 107, 16, 15, 100, 225, 178, 122, 120, 36, 55, 13, 146, 91, 86, 113, 199, 28, 113, 199, 28, 113, 199] };
    assert_eq!(parse_u256(&"1".repeat(65)), Some(ones));
}

#[test]
fn decimal_amounts_up_to_256_bits_and_nothing_beyond() {
    let largest = "115792089237316195423570985008687907853269984665640564039457584007913129639935";
    assert_eq!(parse_u256(largest), Some(U256 { bytes: [0xff; 32] }));
    let zeros = format!("000{}", largest);
    assert_eq!(parse_u256(&zeros), Some(U256 { bytes: [0xff; 32] }));
    let beyond = "115792089237316195423570985008687907853269984665640564039457584007913129639936";
    assert_eq!(parse_u256(beyond), None);
    assert_eq!(parse_u256(&format!("+{}", beyond)), None);
    assert_eq!(parse_u256(&"9".repeat(78)), None);
    assert_eq!(parse_u256(&"1".repeat(200)), None);
}

#[test]
fn decimal_text_reads_back() {
    let cases: [(&str, u128); 4] = [
        ("340282366920938463463374607431768211455", u128::MAX),
        ("1000000000000000000", 1_000_000_000_000_000_000),
        ("99999999999999999999", 99_999_999_999_999_999_999),
        ("4294967296", 4_294_967_296),
    ];
    for (text, n) in cases {
        let mut bytes = [0u8; 32];
        bytes[16..].copy_from_slice(&n.to_be_bytes());
        assert_eq!(parse_u256(text), Some(U256 { bytes }));
        assert_eq!(n.to_string(), text);
    }
}

#[test]
fn amounts_that_are_no_decimal_are_hexadecimal() {
    assert_eq!(parse_u256("ff"), Some(U256::from_u64(255)));
    assert_eq!(parse_u256("0xFF"), Some(U256::from_u64(255)));
    assert_eq!(parse_u256("0x1_0"), Some(U256::from_u64(16)));
    assert_eq!(parse_u256("0x10"), Some(U256::from_u64(16)));
    assert_eq!(parse_u256("abc"), Some(U256::from_u64(0xabc)));
    assert_eq!(parse_u256("1a"), Some(U256::from_u64(26)));
    assert_eq!(parse_u256(""), Some(U256::zero()));
    assert_eq!(parse_u256("_"), Some(U256::zero()));
    assert_eq!(parse_u256("0x"), Some(U256::zero()));
    let all = "f".repeat(64);
    assert_eq!(parse_u256(&all), Some(U256 { bytes: [0xff; 32] }));
}

#[test]
fn amounts_that_are_neither_are_refused() {
    assert_eq!(parse_u256("-1"), None);
    assert_eq!(parse_u256("1.5"), None);
    assert_eq!(parse_u256("0X10"), None);
    assert_eq!(parse_u256("12g"), None);
    assert_eq!(parse_u256(" 1"), None);
    assert_eq!(parse_u256("+"), None);
    assert_eq!(parse_u256("++1"), None);
    assert_eq!(parse_u256("+ff"), None);
    assert_eq!(parse_u256("1+"), None);
    assert_eq!(parse_u256(&"f".repeat(65)), None);
}

#[test]
fn big_endian_numbers() {
    assert_eq!(u64_to_be_min(0), Vec::<u8>::new());
    assert_eq!(u64_to_be_min(1), vec![1]);
    assert_eq!(u64_to_be_min(256), vec![1, 0]);
    assert_eq!(u64_to_be_min(21000), vec![0x52, 0x08]);
    assert_eq!(u64_to_be_min(u64::MAX), vec![0xff; 8]);
    assert_eq!(be_to_u64(&[]), Some(0));
    assert_eq!(be_to_u64(&[0x52, 0x08]), Some(21000));
    assert_eq!(be_to_u64(&[0, 0, 1]), Some(1));
    assert_eq!(be_to_u64(&[0xff; 8]), Some(u64::MAX));
    assert_eq!(be_to_u64(&[0; 9]), None);
    assert_eq!(trim_leading_zeros(&[0, 0, 5, 0]), vec![5, 0]);
    assert_eq!(trim_leading_zeros(&[0, 0]), Vec::<u8>::new());
}

#[test]
fn u256_values() {
    let x = U256::from_u64(0x0102);
    assert_eq!(&x.bytes[..30], &[0u8; 30]);
    assert_eq!(&x.bytes[30..], &[1, 2]);
    assert_eq!(x.to_be_min(), vec![1, 2]);
    assert_eq!(U256::zero().to_be_min(), Vec::<u8>::new());
    assert!(U256::zero().is_zero());
    assert!(!x.is_zero());
    assert_eq!(U256::from_be_slice(&[1, 2]), Some(x));
    assert_eq!(U256::from_be_slice(&[0, 0, 1, 2]), Some(x));
    assert_eq!(U256::from_be_slice(&[1; 33]), None);
    assert!(U256::from_be_slice(&[1; 32]).is_some());
    assert!(x.same(&U256::from_u64(258)));
    assert!(!x.same(&U256::from_u64(259)));
}

#[test]
fn u256_order() {
    let small = U256::from_u64(5);
    let big = U256::from_be_slice(&[1, 0, 0, 0, 0, 0, 0, 0, 0]).unwrap();
    assert!(small.lt(&big));
    assert!(!big.lt(&small));
    assert!(!small.lt(&small));
    assert!(U256::zero().lt(&small));
    assert!(U256::from_u64(255).lt(&U256::from_u64(256)));
    assert!(!U256::from_u64(256).lt(&U256::from_u64(255)));
}

#[test]
fn addresses() {
    assert_eq!(Address::from_slice(&[1; 19]), None);
    assert_eq!(Address::from_slice(&[1; 21]), None);
    let a = Address::from_slice(&[1; 20]).unwrap();
    assert_eq!(a.to_vec(), vec![1; 20]);
    assert!(a.same(&a));
    assert!(!a.same(&Address::from_slice(&[2; 20]).unwrap()));
    assert_eq!(copy_bytes(&[1, 2, 3]), vec![1, 2, 3]);
    assert!(same_bytes(&[1, 2], &[1, 2]));
    assert!(!same_bytes(&[1, 2], &[1, 3]));
    assert!(!same_bytes(&[1, 2], &[1]));
}

#[test]
fn list_framing() {
    let cat_dog = vec![b"cat".to_vec(), b"dog".to_vec()];
    let raw = encode_list(&cat_dog).unwrap();
    assert_eq!(raw, vec![0xc8, 0x83, b'c', b'a', b't', 0x83, b'd', b'o', b'g']);
    assert_eq!(decode_list(&raw), Some(cat_dog));
    assert_eq!(encode_list(&vec![]), Some(vec![0xc0]));
    assert_eq!(decode_list(&[0xc0]), Some(vec![]));
    assert_eq!(encode_list(&vec![vec![], vec![0x7f], vec![0x80]]), Some(vec![0xc4, 0x80, 0x7f, 0x81, 0x80]));
    let long = vec![vec![7u8; 56]];
    let raw = encode_list(&long).unwrap();
    assert_eq!(&raw[..4], &[0xf8, 58, 0xb8, 56]);
    assert_eq!(raw.len(), 60);
    assert_eq!(decode_list(&raw), Some(long));
}

#[test]
fn list_framing_refuses_what_is_not_canonical() {
    assert_eq!(decode_list(&[]), None);
    assert_eq!(decode_list(&[0x80]), None);
    assert_eq!(decode_list(&[0x01]), None);
    assert_eq!(decode_list(&[0xc0, 0x00]), None);
    assert_eq!(decode_list(&[0xc1]), None);
    assert_eq!(decode_list(&[0xc2, 0x81, 0x01]), None);
    assert_eq!(decode_list(&[0xc1, 0xc0]), None);
    assert_eq!(decode_list(&[0xf8, 0x01, 0x01]), None);
}

#[test]
fn framing_lengths() {
    assert_eq!(byte_width(0), 0);
    assert_eq!(byte_width(255), 1);
    assert_eq!(byte_width(256), 2);
    assert_eq!(byte_width(u64::MAX), 8);
    assert_eq!(code_len(&[]), 1);
    assert_eq!(code_len(&[0x7f]), 1);
    assert_eq!(code_len(&[0x80]), 2);
    assert_eq!(code_len(&[0; 55]), 56);
    assert_eq!(code_len(&[0; 56]), 58);
    assert_eq!(code_len(&[0; 256]), 259);
    assert_eq!(payload_len(&vec![vec![0; 56], vec![1]]), Some(59));
    assert_eq!(payload_len(&vec![]), Some(0));
}
