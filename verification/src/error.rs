//! The error type shared by every fallible operation of the library.

use vstd::prelude::*;

verus! {

/// Why an operation failed.
#[derive(Debug, Clone, Copy, PartialEq, Eq, Structural)]
pub enum PassportError {
    /// A buffer handed to the mixer holds fewer than two bytes.
    InvalidKeyLength,
    /// No key pair could be generated for the requested bit size.
    KeyGenerationFailed,
    /// The plaintext does not fit the key, or the key cannot encrypt.
    EncryptionFailed,
    /// The ciphertext is not one that the key decrypts.
    DecryptionFailed,
    /// No signature could be produced with the key.
    SigningFailed,
    /// The signature does not belong to the data under the key.
    SignatureInvalid,
    /// No bucket of the store covers the timestamp.
    TimestampOutOfRange,
    /// The interval is not positive, or the range holds too many buckets.
    IntervalTooSmall,
    /// A bound of the time range is not written as a date and a time.
    InvalidTime,
    /// A key or a text could not be encoded or decoded.
    SerializationFailed,
}

/// Turns the outcome of a call that fails in a way of its own into one that
/// fails with `error`: a value is handed on, and every failure becomes
/// `error`.
pub fn or_fail<T, E>(outcome: Result<T, E>, error: PassportError) -> (r: Result<T, PassportError>)
    ensures
        match outcome {
            Ok(value) => r == Ok::<T, PassportError>(value),
            Err(_) => r == Err::<T, PassportError>(error),
        },
{
    match outcome {
        Ok(value) => Ok(value),
        Err(_) => Err(error),
    }
}

impl PassportError {
    /// A short description of the error, for messages.
    pub open spec fn spec_message(&self) -> Seq<char> {
        match self {
            PassportError::InvalidKeyLength => "key buffer shorter than two bytes"@,
            PassportError::KeyGenerationFailed => "key generation failed"@,
            PassportError::EncryptionFailed => "encryption failed"@,
            PassportError::DecryptionFailed => "decryption failed"@,
            PassportError::SigningFailed => "signing failed"@,
            PassportError::SignatureInvalid => "signature invalid"@,
            PassportError::TimestampOutOfRange => "timestamp out of scope of verification"@,
            PassportError::IntervalTooSmall => "interval too small for the time range"@,
            PassportError::InvalidTime => "time is not year-month-day hour:minute:second"@,
            PassportError::SerializationFailed => "encoding or decoding failed"@,
        }
    }

    /// A short description of the error, for messages.
    pub fn message(&self) -> (text: &'static str)
        ensures
            text@ == self.spec_message(),
    {
        match self {
            PassportError::InvalidKeyLength => "key buffer shorter than two bytes",
            PassportError::KeyGenerationFailed => "key generation failed",
            PassportError::EncryptionFailed => "encryption failed",
            PassportError::DecryptionFailed => "decryption failed",
            PassportError::SigningFailed => "signing failed",
            PassportError::SignatureInvalid => "signature invalid",
            PassportError::TimestampOutOfRange => "timestamp out of scope of verification",
            PassportError::IntervalTooSmall => "interval too small for the time range",
            PassportError::InvalidTime => "time is not year-month-day hour:minute:second",
            PassportError::SerializationFailed => "encoding or decoding failed",
        }
    }
}

} // verus!
