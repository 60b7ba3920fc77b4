//! The ways in which an operation of this library can fail.

use vstd::prelude::*;

verus! {

/// Every failure ends the operation that met it; nothing is retried and no
/// partial result is handed out.
#[derive(Clone, Copy, Debug, PartialEq, Eq, Structural)]
pub enum Error {
    /// The bytes are not the canonical encoding of a signed transaction.
    MalformedEncoding,
    /// The signature is out of range, or no public key can be recovered from it.
    InvalidSignature,
    /// The secret scalar cannot be used for signing.
    InvalidKey,
    /// The integrity check of the keystore record failed under the given passphrase.
    WrongPassword,
    /// The keystore record names a key-derivation function that is not
    /// known, or asks of it a cost beyond what this library works on.
    UnsupportedKdf,
    /// The keystore record names a cipher that is not known.
    UnsupportedCipher,
    /// The keystore record is not well-formed, or lacks a required field.
    MalformedKeystore,
    /// A required input was not given.
    MissingInput,
}

/// The text of each error. A failed integrity check reads the same whether
/// the passphrase was wrong or the record was damaged.
pub open spec fn message_text(e: Error) -> Seq<char> {
    match e {
        Error::MalformedEncoding => "decoding: the bytes are not a canonically encoded signed transaction"@,
        Error::InvalidSignature => "verifying: the signature is out of range or recovers no signer"@,
        Error::InvalidKey => "signing: the secret key is not valid"@,
        Error::WrongPassword => "unlocking: the passphrase is wrong or the keystore is damaged"@,
        Error::UnsupportedKdf => "unlocking: the key-derivation function of the keystore is not supported"@,
        Error::UnsupportedCipher => "unlocking: the cipher of the keystore is not supported"@,
        Error::MalformedKeystore => "unlocking: the keystore is not well-formed"@,
        Error::MissingInput => "a required input is missing"@,
    }
}

impl Error {
    /// A message for people, which names the stage that failed.
    pub fn message(&self) -> (out: String)
        ensures
            out@ == message_text(*self),
    {
        match self {
            Error::MalformedEncoding => "decoding: the bytes are not a canonically encoded signed transaction".to_owned(),
            Error::InvalidSignature => "verifying: the signature is out of range or recovers no signer".to_owned(),
            Error::InvalidKey => "signing: the secret key is not valid".to_owned(),
            Error::WrongPassword => "unlocking: the passphrase is wrong or the keystore is damaged".to_owned(),
            Error::UnsupportedKdf => "unlocking: the key-derivation function of the keystore is not supported".to_owned(),
            Error::UnsupportedCipher => "unlocking: the cipher of the keystore is not supported".to_owned(),
            Error::MalformedKeystore => "unlocking: the keystore is not well-formed".to_owned(),
            Error::MissingInput => "a required input is missing".to_owned(),
        }
    }
}

} // verus!
