//! Encrypted secret keys: reading a keystore record and recovering the
//! secret scalar it holds with a passphrase.

use vstd::prelude::*;
use crate::error::Error;
use crate::hex::{decode_hex, text_bytes};
use crate::signer::SecretScalar;
use crate::u256::{copy_bytes, Address};
use ethsign::keyfile::Cipher::Aes128Ctr as Aes;
use ethsign::keyfile::Kdf as Derivation;
use ethsign::keyfile::{Aes128Ctr, Bytes, Crypto, Pbkdf2, Prf, Scrypt};
use ethsign::Protected;

verus! {

/// The largest product of the scrypt parameters `n` and `r`, and of `p` and
/// `r`, that this library works on: 128 times the product is the memory
/// that the derivation takes, two GiB at the limit.
pub const MAX_SCRYPT_WORK: u64 = 0x100_0000;

/// A key-derivation function that is known, with its cost.
#[derive(Clone, Copy, Debug, PartialEq, Eq)]
pub enum KdfCost {
    /// PBKDF2 with HMAC-SHA256 and `c` iterations.
    Pbkdf2 { c: u32 },
    /// scrypt with cost `n`, parallelism `p` and block size `r`.
    Scrypt { n: u32, p: u32, r: u32 },
}

/// The key derivation of a record.
#[derive(Clone, Debug, PartialEq, Eq)]
pub struct Kdf {
    pub cost: KdfCost,
    pub salt: Vec<u8>,
}

/// A cipher that is known, with its parameters.
#[derive(Clone, Debug, PartialEq, Eq)]
pub enum Cipher {
    /// AES-128 in counter mode, started from `iv`.
    Aes128Ctr { iv: Vec<u8> },
}

/// An encrypted secret key as it is stored.
#[derive(Clone, Debug, PartialEq, Eq)]
pub struct KeystoreRecord {
    /// The address of the key, where the record gives it.
    pub address: Option<Vec<u8>>,
    /// The cipher; none where the record names one that is not known.
    pub cipher: Option<Cipher>,
    pub ciphertext: Vec<u8>,
    /// The key derivation; none where the record names one that is not known.
    pub kdf: Option<Kdf>,
    pub mac: Vec<u8>,
}

/// A key derivation as byte strings.
pub struct KdfView {
    pub cost: KdfCost,
    pub salt: Seq<u8>,
}

/// A cipher as byte strings.
pub enum CipherView {
    Aes128Ctr { iv: Seq<u8> },
}

/// A record as byte strings.
pub struct RecordView {
    pub address: Option<Seq<u8>>,
    pub cipher: Option<CipherView>,
    pub ciphertext: Seq<u8>,
    pub kdf: Option<KdfView>,
    pub mac: Seq<u8>,
}

impl View for Kdf {
    type V = KdfView;

    open spec fn view(&self) -> KdfView {
        KdfView { cost: self.cost, salt: self.salt@ }
    }
}

impl View for Cipher {
    type V = CipherView;

    open spec fn view(&self) -> CipherView {
        match self {
            Cipher::Aes128Ctr { iv } => CipherView::Aes128Ctr { iv: iv@ },
        }
    }
}

impl View for KeystoreRecord {
    type V = RecordView;

    open spec fn view(&self) -> RecordView {
        RecordView {
            address: match self.address {
                Some(a) => Some(a@),
                None => None,
            },
            cipher: match self.cipher {
                Some(c) => Some(c@),
                None => None,
            },
            ciphertext: self.ciphertext@,
            kdf: match self.kdf {
                Some(k) => Some(k@),
                None => None,
            },
            mac: self.mac@,
        }
    }
}

/// The string at a JSON pointer of a document, where the document is
/// well-formed JSON and holds a string there.
pub uninterp spec fn json_string(doc: Seq<u8>, pointer: Seq<char>) -> Option<Seq<char>>;

/// The number at a JSON pointer of a document, where the document is
/// well-formed JSON and holds a number there that fits in 64 bits unsigned.
pub uninterp spec fn json_number(doc: Seq<u8>, pointer: Seq<char>) -> Option<u64>;

/// What decryption gives for the parameters of a record and a passphrase:
/// the plaintext, or whether it was the integrity check that failed.
pub uninterp spec fn decrypted(
    cost: KdfCost,
    salt: Seq<u8>,
    iv: Seq<u8>,
    ciphertext: Seq<u8>,
    mac: Seq<u8>,
    passphrase: Seq<u8>,
) -> Result<Seq<u8>, bool>;

/// `serde_json::from_slice` to a `serde_json::Value`, then `Value::pointer`
/// and `Value::as_str`: the string at the pointer, if the document parses
/// and has one there.
#[verifier::external_body]
fn json_string_at(doc: &[u8], pointer: &str) -> (out: Option<String>)
    ensures
        out matches Some(s) ==> json_string(doc@, pointer@) == Some(s@),
        out is None ==> json_string(doc@, pointer@) is None,
{
    match serde_json::from_slice::<serde_json::Value>(doc) {
        Ok(value) => value.pointer(pointer).and_then(|v| v.as_str()).map(|s| s.to_owned()),
        Err(_) => None,
    }
}

/// `serde_json::from_slice` to a `serde_json::Value`, then `Value::pointer`
/// and `Value::as_u64`: the number at the pointer, if the document parses
/// and has one there.
#[verifier::external_body]
fn json_number_at(doc: &[u8], pointer: &str) -> (out: Option<u64>)
    ensures
        out == json_number(doc@, pointer@),
{
    match serde_json::from_slice::<serde_json::Value>(doc) {
        Ok(value) => value.pointer(pointer).and_then(|v| v.as_u64()),
        Err(_) => None,
    }
}

/// An outcome of decryption with its plaintext as a byte string.
pub open spec fn outcome_view(out: Result<Vec<u8>, bool>) -> Result<Seq<u8>, bool> {
    match out {
        Ok(plain) => Ok(plain@),
        Err(mac_failed) => Err(mac_failed),
    }
}

/// A cost that the key derivation is defined for: the cost `n` of scrypt
/// is not zero.
pub open spec fn cost_valid(cost: KdfCost) -> bool {
    match cost {
        KdfCost::Pbkdf2 { .. } => true,
        KdfCost::Scrypt { n, .. } => n >= 1,
    }
}

/// A cost that this library works on: the memory that scrypt takes stays
/// within `MAX_SCRYPT_WORK`.
pub open spec fn within_limits(cost: KdfCost) -> bool {
    match cost {
        KdfCost::Pbkdf2 { .. } => true,
        KdfCost::Scrypt { n, p, r } => n * r <= MAX_SCRYPT_WORK && p * r <= MAX_SCRYPT_WORK,
    }
}

/// `ethsign::keyfile::Crypto::decrypt` on a record built from the
/// parameters, with AES-128-CTR as the cipher and a derived key of 32
/// bytes. The result depends on the arguments alone. The failure
/// `InvalidPassword` (the MAC does not match) is reported as `Err(true)`,
/// any other as `Err(false)`. A scrypt cost of zero, on which the crate
/// does not return, is left out, and so are costs that take more memory
/// than the limit allows.
#[verifier::external_body]
fn decrypt_with(
    cost: KdfCost,
    salt: Vec<u8>,
    iv: Vec<u8>,
    ciphertext: Vec<u8>,
    mac: Vec<u8>,
    passphrase: Vec<u8>,
) -> (out: Result<Vec<u8>, bool>)
    requires
        cost_valid(cost),
        within_limits(cost),
    ensures
        outcome_view(out) == decrypted(cost, salt@, iv@, ciphertext@, mac@, passphrase@),
{
    let salt = Bytes(salt);
    let kdf = match cost {
        KdfCost::Pbkdf2 { c } => Derivation::Pbkdf2(Pbkdf2 { c, dklen: 32, prf: Prf::HmacSha256, salt }),
        KdfCost::Scrypt { n, p, r } => Derivation::Scrypt(Scrypt { dklen: 32, p, n, r, salt }),
    };
    let cipherparams = Aes128Ctr { iv: Bytes(iv) };
    let crypto = Crypto { cipher: Aes, cipherparams, ciphertext: Bytes(ciphertext), kdf, mac: Bytes(mac) };
    match crypto.decrypt(&Protected::new(passphrase)) {
        Ok(plain) => Ok(plain),
        Err(ethsign::Error::InvalidPassword) => Err(true),
        Err(_) => Err(false),
    }
}

/// The bytes of the hexadecimal string at a pointer.
pub open spec fn hex_field(doc: Seq<u8>, pointer: Seq<char>) -> Option<Seq<u8>> {
    match json_string(doc, pointer) {
        Some(text) => text_bytes(text),
        None => None,
    }
}

/// The number at a pointer, where it fits in 32 bits.
pub open spec fn small_number(doc: Seq<u8>, pointer: Seq<char>) -> Option<u32> {
    match json_number(doc, pointer) {
        Some(n) => if n <= u32::MAX {
            Some(n as u32)
        } else {
            None
        },
        None => None,
    }
}

/// The address of a document: absent where the document has no string
/// there, malformed (the outer `None`) where the string is not hexadecimal.
pub open spec fn address_of(doc: Seq<u8>) -> Option<Option<Seq<u8>>> {
    match json_string(doc, "/address"@) {
        Some(text) => match text_bytes(text) {
            Some(bytes) => Some(Some(bytes)),
            None => None,
        },
        None => Some(None),
    }
}

/// The cipher of a document: malformed (the outer `None`) where no cipher
/// is named, unknown (the inner `None`) where the name is not
/// `aes-128-ctr`. The name is judged first: only a known cipher needs its
/// parameter `cipherparams.iv`.
pub open spec fn cipher_of(doc: Seq<u8>) -> Option<Option<CipherView>> {
    match json_string(doc, "/crypto/cipher"@) {
        Some(name) => if name == "aes-128-ctr"@ {
            match hex_field(doc, "/crypto/cipherparams/iv"@) {
                Some(iv) => Some(Some(CipherView::Aes128Ctr { iv })),
                None => None,
            }
        } else {
            Some(None)
        },
        None => None,
    }
}

/// The PBKDF2 parameters of a document: malformed (the outer `None`) where
/// no pseudo-random function is named, unknown (the inner `None`) where
/// its name is not `hmac-sha256`. Only then are `c`, `dklen` and `salt`
/// asked for. The length `dklen` has to be there; the key that is derived
/// is 32 bytes long whatever it says.
pub open spec fn pbkdf2_of(doc: Seq<u8>) -> Option<Option<KdfView>> {
    match json_string(doc, "/crypto/kdfparams/prf"@) {
        Some(prf) => if prf == "hmac-sha256"@ {
            match (
                small_number(doc, "/crypto/kdfparams/c"@),
                small_number(doc, "/crypto/kdfparams/dklen"@),
                hex_field(doc, "/crypto/kdfparams/salt"@),
            ) {
                (Some(c), Some(_), Some(salt)) => Some(
                    Some(KdfView { cost: KdfCost::Pbkdf2 { c }, salt }),
                ),
                _ => None,
            }
        } else {
            Some(None)
        },
        None => None,
    }
}

/// The scrypt parameters of a document. The length `dklen` has to be
/// there; the key that is derived is 32 bytes long whatever it says.
pub open spec fn scrypt_of(doc: Seq<u8>) -> Option<Option<KdfView>> {
    match (
        small_number(doc, "/crypto/kdfparams/n"@),
        small_number(doc, "/crypto/kdfparams/p"@),
        small_number(doc, "/crypto/kdfparams/r"@),
        small_number(doc, "/crypto/kdfparams/dklen"@),
        hex_field(doc, "/crypto/kdfparams/salt"@),
    ) {
        (Some(n), Some(p), Some(r), Some(_), Some(salt)) => Some(
            Some(KdfView { cost: KdfCost::Scrypt { n, p, r }, salt }),
        ),
        _ => None,
    }
}

/// The key derivation of a document: malformed (the outer `None`) where
/// none is named or a parameter of the named one is missing, unknown (the
/// inner `None`) where the name is neither `pbkdf2` nor `scrypt`. The name
/// is judged first: of an unknown derivation no parameter is asked for.
pub open spec fn kdf_of(doc: Seq<u8>) -> Option<Option<KdfView>> {
    match json_string(doc, "/crypto/kdf"@) {
        Some(name) => if name == "pbkdf2"@ {
            pbkdf2_of(doc)
        } else if name == "scrypt"@ {
            scrypt_of(doc)
        } else {
            Some(None)
        },
        None => None,
    }
}

/// The record that a JSON document holds: an object with an optional
/// `address` and, under `crypto`, the fields `cipher`, `ciphertext`, `kdf`
/// and `mac`, and the parameters of the cipher and of the key derivation
/// where these are known. Other fields are passed over. There is no
/// record where the document is not JSON, a required field is missing or
/// of another type, or a byte string is not hexadecimal.
pub open spec fn record_of(doc: Seq<u8>) -> Option<RecordView> {
    match (
        address_of(doc),
        cipher_of(doc),
        hex_field(doc, "/crypto/ciphertext"@),
        kdf_of(doc),
        hex_field(doc, "/crypto/mac"@),
    ) {
        (Some(address), Some(cipher), Some(ciphertext), Some(kdf), Some(mac)) => Some(
            RecordView { address, cipher, ciphertext, kdf, mac },
        ),
        _ => None,
    }
}

fn text_is(s: &String, name: &str) -> (r: bool)
    ensures
        r <==> s@ == name@,
{
    let other = name.to_owned();
    *s == other
}

fn read_hex(doc: &[u8], pointer: &str) -> (out: Option<Vec<u8>>)
    ensures
        match hex_field(doc@, pointer@) {
            Some(bytes) => out matches Some(v) && v@ == bytes,
            None => out is None,
        },
{
    match json_string_at(doc, pointer) {
        Some(text) => decode_hex(text.as_str()),
        None => None,
    }
}

fn read_small(doc: &[u8], pointer: &str) -> (out: Option<u32>)
    ensures
        out == small_number(doc@, pointer@),
{
    match json_number_at(doc, pointer) {
        Some(n) => if n <= u32::MAX as u64 {
            Some(n as u32)
        } else {
            None
        },
        None => None,
    }
}

fn read_address(doc: &[u8]) -> (out: Option<Option<Vec<u8>>>)
    ensures
        match address_of(doc@) {
            Some(Some(bytes)) => out matches Some(Some(v)) && v@ == bytes,
            Some(None) => out == Some(None::<Vec<u8>>),
            None => out is None,
        },
{
    match json_string_at(doc, "/address") {
        Some(text) => match decode_hex(text.as_str()) {
            Some(bytes) => Some(Some(bytes)),
            None => None,
        },
        None => Some(None),
    }
}

/// An outcome of reading a cipher that stands for `expected`.
pub open spec fn cipher_read(out: Option<Option<Cipher>>, expected: Option<Option<CipherView>>)
    -> bool {
    match expected {
        Some(Some(view)) => out matches Some(Some(c)) && c@ == view,
        Some(None) => out == Some(None::<Cipher>),
        None => out is None,
    }
}

/// An outcome of reading a key derivation that stands for `expected`.
pub open spec fn kdf_read(out: Option<Option<Kdf>>, expected: Option<Option<KdfView>>) -> bool {
    match expected {
        Some(Some(view)) => out matches Some(Some(k)) && k@ == view,
        Some(None) => out == Some(None::<Kdf>),
        None => out is None,
    }
}

fn read_cipher(doc: &[u8]) -> (out: Option<Option<Cipher>>)
    ensures
        cipher_read(out, cipher_of(doc@)),
{
    match json_string_at(doc, "/crypto/cipher") {
        Some(name) => if text_is(&name, "aes-128-ctr") {
            match read_hex(doc, "/crypto/cipherparams/iv") {
                Some(iv) => Some(Some(Cipher::Aes128Ctr { iv })),
                None => None,
            }
        } else {
            Some(None)
        },
        None => None,
    }
}

fn read_pbkdf2(doc: &[u8]) -> (out: Option<Option<Kdf>>)
    ensures
        kdf_read(out, pbkdf2_of(doc@)),
{
    match json_string_at(doc, "/crypto/kdfparams/prf") {
        Some(prf) => if text_is(&prf, "hmac-sha256") {
            let c = read_small(doc, "/crypto/kdfparams/c");
            let dklen = read_small(doc, "/crypto/kdfparams/dklen");
            let salt = read_hex(doc, "/crypto/kdfparams/salt");
            match (c, dklen, salt) {
                (Some(c), Some(_), Some(salt)) => Some(
                    Some(Kdf { cost: KdfCost::Pbkdf2 { c }, salt }),
                ),
                _ => None,
            }
        } else {
            Some(None)
        },
        None => None,
    }
}

fn read_scrypt(doc: &[u8]) -> (out: Option<Option<Kdf>>)
    ensures
        kdf_read(out, scrypt_of(doc@)),
{
    let n = read_small(doc, "/crypto/kdfparams/n");
    let p = read_small(doc, "/crypto/kdfparams/p");
    let r = read_small(doc, "/crypto/kdfparams/r");
    let dklen = read_small(doc, "/crypto/kdfparams/dklen");
    let salt = read_hex(doc, "/crypto/kdfparams/salt");
    match (n, p, r, dklen, salt) {
        (Some(n), Some(p), Some(r), Some(_), Some(salt)) => Some(
            Some(Kdf { cost: KdfCost::Scrypt { n, p, r }, salt }),
        ),
        _ => None,
    }
}

fn read_kdf(doc: &[u8]) -> (out: Option<Option<Kdf>>)
    ensures
        kdf_read(out, kdf_of(doc@)),
{
    match json_string_at(doc, "/crypto/kdf") {
        Some(name) => if text_is(&name, "pbkdf2") {
            read_pbkdf2(doc)
        } else if text_is(&name, "scrypt") {
            read_scrypt(doc)
        } else {
            Some(None)
        },
        None => None,
    }
}

/// What decrypting a record with a passphrase gives. An unknown cipher or
/// key derivation is unsupported, and so is a scrypt cost beyond what this
/// library works on. A scrypt cost of zero, a failure other than of the
/// integrity check, and a plaintext that is not 32 bytes long make the
/// record malformed. A failed integrity check is a wrong password,
/// whatever else may be wrong with the bytes checked.
pub open spec fn decrypt_spec(record: RecordView, passphrase: Seq<u8>) -> Result<Seq<u8>, Error> {
    match (record.cipher, record.kdf) {
        (None, _) => Err(Error::UnsupportedCipher),
        (Some(_), None) => Err(Error::UnsupportedKdf),
        (Some(CipherView::Aes128Ctr { iv }), Some(kdf)) => if !cost_valid(kdf.cost) {
            Err(Error::MalformedKeystore)
        } else if !within_limits(kdf.cost) {
            Err(Error::UnsupportedKdf)
        } else {
            match decrypted(kdf.cost, kdf.salt, iv, record.ciphertext, record.mac, passphrase) {
                Ok(plain) => if plain.len() == 32 {
                    Ok(plain)
                } else {
                    Err(Error::MalformedKeystore)
                },
                Err(mac_failed) => if mac_failed {
                    Err(Error::WrongPassword)
                } else {
                    Err(Error::MalformedKeystore)
                },
            }
        },
    }
}

/// An outcome of decrypting that stands for `expected`.
pub open spec fn secret_is(out: Result<SecretScalar, Error>, expected: Result<Seq<u8>, Error>)
    -> bool {
    match expected {
        Ok(secret) => out matches Ok(s) && s@ == secret,
        Err(e) => out matches Err(x) && x == e,
    }
}

/// Whether the cost is one that the key derivation is defined for.
pub fn is_cost_valid(cost: KdfCost) -> (r: bool)
    ensures
        r <==> cost_valid(cost),
{
    match cost {
        KdfCost::Pbkdf2 { .. } => true,
        KdfCost::Scrypt { n, .. } => n >= 1,
    }
}

/// Whether the cost is one that this library works on.
pub fn kdf_within_limits(cost: KdfCost) -> (r: bool)
    ensures
        r <==> within_limits(cost),
{
    match cost {
        KdfCost::Pbkdf2 { .. } => true,
        KdfCost::Scrypt { n, p, r } => {
            let n: u64 = n as u64;
            let p: u64 = p as u64;
            let r: u64 = r as u64;
            assert(n * r <= 0xFFFF_FFFF * 0xFFFF_FFFF) by (nonlinear_arith)
                requires
                    n <= 0xFFFF_FFFF,
                    r <= 0xFFFF_FFFF,
            ;
            assert(p * r <= 0xFFFF_FFFF * 0xFFFF_FFFF) by (nonlinear_arith)
                requires
                    p <= 0xFFFF_FFFF,
                    r <= 0xFFFF_FFFF,
            ;
            n * r <= MAX_SCRYPT_WORK && p * r <= MAX_SCRYPT_WORK
        },
    }
}

/// What `decrypt` returns for each outcome of the decryption.
pub fn decryption_outcome(found: Result<Vec<u8>, bool>) -> (out: Result<SecretScalar, Error>)
    ensures
        match found {
            Ok(plain) => if plain@.len() == 32 {
                out matches Ok(s) && s@ == plain@
            } else {
                out matches Err(e) && e == Error::MalformedKeystore
            },
            Err(mac_failed) => if mac_failed {
                out matches Err(e) && e == Error::WrongPassword
            } else {
                out matches Err(e) && e == Error::MalformedKeystore
            },
        },
{
    match found {
        Ok(plain) => {
            let mut plain = plain;
            if plain.len() != 32 {
                return Err(Error::MalformedKeystore);
            }
            let ghost secret = plain@;
            let mut bytes: [u8; 32] = [0u8; 32];
            let mut i: usize = 0;
            // the scalar moves over byte by byte, and leaves zeroes behind
            while i < 32
                invariant
                    plain@.len() == 32,
                    secret.len() == 32,
                    i <= 32,
                    forall|j: int| 0 <= j < i ==> bytes@[j] == secret[j],
                    forall|j: int| i <= j < 32 ==> plain@[j] == secret[j],
                decreases 32 - i,
            {
                bytes[i] = plain[i];
                plain[i] = 0;
                i = i + 1;
            }
            proof {
                assert(bytes@ =~= secret);
            }
            Ok(SecretScalar::from_bytes(bytes))
        },
        Err(mac_failed) => if mac_failed {
            Err(Error::WrongPassword)
        } else {
            Err(Error::MalformedKeystore)
        },
    }
}

impl KeystoreRecord {
    /// Reads a record from a JSON document.
    pub fn from_json(doc: &[u8]) -> (out: Result<KeystoreRecord, Error>)
        ensures
            match record_of(doc@) {
                Some(view) => out matches Ok(record) && record@ == view,
                None => out matches Err(e) && e == Error::MalformedKeystore,
            },
    {
        let address = read_address(doc);
        let cipher = read_cipher(doc);
        let ciphertext = read_hex(doc, "/crypto/ciphertext");
        let kdf = read_kdf(doc);
        let mac = read_hex(doc, "/crypto/mac");
        match (address, cipher, ciphertext, kdf, mac) {
            (Some(address), Some(cipher), Some(ciphertext), Some(kdf), Some(mac)) => Ok(
                KeystoreRecord { address, cipher, ciphertext, kdf, mac },
            ),
            _ => Err(Error::MalformedKeystore),
        }
    }

    /// Recovers the secret scalar of the record with a passphrase. The
    /// key derivation is slow by design: call this once for each signature.
    pub fn decrypt(&self, passphrase: &[u8]) -> (out: Result<SecretScalar, Error>)
        ensures
            secret_is(out, decrypt_spec(self@, passphrase@)),
    {
        match (&self.cipher, &self.kdf) {
            (None, _) => Err(Error::UnsupportedCipher),
            (Some(_), None) => Err(Error::UnsupportedKdf),
            (Some(Cipher::Aes128Ctr { iv }), Some(kdf)) => {
                if !is_cost_valid(kdf.cost) {
                    return Err(Error::MalformedKeystore);
                }
                if !kdf_within_limits(kdf.cost) {
                    return Err(Error::UnsupportedKdf);
                }
                let found = decrypt_with(
                    kdf.cost,
                    copy_bytes(kdf.salt.as_slice()),
                    copy_bytes(iv.as_slice()),
                    copy_bytes(self.ciphertext.as_slice()),
                    copy_bytes(self.mac.as_slice()),
                    copy_bytes(passphrase),
                );
                decryption_outcome(found)
            },
        }
    }
}

/// What opening a keystore document with a passphrase gives.
pub open spec fn open_spec(doc: Seq<u8>, passphrase: Seq<u8>) -> Result<Seq<u8>, Error> {
    match record_of(doc) {
        Some(record) => decrypt_spec(record, passphrase),
        None => Err(Error::MalformedKeystore),
    }
}

/// Reads a keystore document and recovers its secret scalar.
pub fn open_keyfile(doc: &[u8], passphrase: &[u8]) -> (out: Result<SecretScalar, Error>)
    ensures
        secret_is(out, open_spec(doc@, passphrase@)),
{
    match KeystoreRecord::from_json(doc) {
        Ok(record) => record.decrypt(passphrase),
        Err(e) => Err(e),
    }
}

/// The address that a keystore document gives for its key. It is read
/// without the passphrase.
pub open spec fn keyfile_address(doc: Seq<u8>) -> Result<Seq<u8>, Error> {
    match record_of(doc) {
        Some(record) => match record.address {
            Some(a) => if a.len() == 20 {
                Ok(a)
            } else {
                Err(Error::MalformedKeystore)
            },
            None => Err(Error::MissingInput),
        },
        None => Err(Error::MalformedKeystore),
    }
}

/// Reads the address of the key from a keystore document. An address that
/// is absent is a missing input; one that is not 20 bytes long makes the
/// record malformed.
pub fn read_keyfile_address(doc: &[u8]) -> (out: Result<Address, Error>)
    ensures
        match keyfile_address(doc@) {
            Ok(a) => out matches Ok(address) && address@ == a,
            Err(e) => out matches Err(x) && x == e,
        },
{
    match KeystoreRecord::from_json(doc) {
        Ok(record) => match &record.address {
            Some(bytes) => match Address::from_slice(bytes.as_slice()) {
                Some(address) => Ok(address),
                None => Err(Error::MalformedKeystore),
            },
            None => Err(Error::MissingInput),
        },
        Err(e) => Err(e),
    }
}

/// The record can be worked on, and its integrity check fails under the
/// passphrase.
pub open spec fn mac_fails(record: RecordView, passphrase: Seq<u8>) -> bool {
    &&& record.cipher is Some
    &&& record.kdf is Some
    &&& cost_valid(record.kdf->0.cost)
    &&& within_limits(record.kdf->0.cost)
    &&& decrypted(
        record.kdf->0.cost,
        record.kdf->0.salt,
        record.cipher->0->iv,
        record.ciphertext,
        record.mac,
        passphrase,
    ) == Err::<Seq<u8>, bool>(true)
}

/// Two outcomes of decrypting one record with one passphrase are the same:
/// the same secret scalar, or the same error. With a passphrase under
/// which the integrity check fails, both are `WrongPassword`.
pub proof fn lemma_decrypt_deterministic(
    record: RecordView,
    passphrase: Seq<u8>,
    first: Result<SecretScalar, Error>,
    second: Result<SecretScalar, Error>,
)
    requires
        secret_is(first, decrypt_spec(record, passphrase)),
        secret_is(second, decrypt_spec(record, passphrase)),
    ensures
        first matches Ok(a) ==> second matches Ok(b) && a@ == b@,
        first matches Err(e) ==> second matches Err(x) && x == e,
        mac_fails(record, passphrase) ==> (first matches Err(e) && e == Error::WrongPassword),
{
}

} // verus!
