//! From a seed, a bucket id and a bit size to a credential.

use vstd::prelude::*;
use crate::error::PassportError;
use crate::primitive::random_i64;
use crate::keygen::PUBLIC_EXPONENT;
use crate::primitive::bit_len;
use crate::rsa_entity::{
    credential_error, generated_numbers, gives_credential, lemma_same_numbers, RsaEntity,
};
use crate::rule_rand::{be_bytes, seeded, RuleRandBuilder, MAX_SEED_LEN};

verus! {

/// The bit size of a builder that was given none.
pub const DEFAULT_BIT_SIZE: usize = 2048;

/// The numbers of the key pair that belongs to `seed` and `number` at
/// `bit_size` bits: the key pair generated from a fresh byte source under the
/// default mixer whose seed is `seed` followed by the eight bytes of
/// `number`. `None` where the seed is too long for the digest or no key pair
/// comes out.
pub open spec fn derived_numbers(seed: Seq<u8>, number: i64, bit_size: usize) -> Option<Seq<nat>> {
    if seed.len() + 8 < MAX_SEED_LEN {
        generated_numbers(seeded(seed + be_bytes(number)), bit_size)
    } else {
        None
    }
}

/// Whether `seed` and `number` give a credential at `bit_size` bits: the
/// seed is short enough for the digest, a key pair comes out, and its public
/// key can be written as PEM.
pub open spec fn derivable(seed: Seq<u8>, number: i64, bit_size: usize) -> bool {
    seed.len() + 8 < MAX_SEED_LEN && gives_credential(seeded(seed + be_bytes(number)), bit_size)
}

/// The error with which the derivation of a credential ends, where `seed`
/// and `number` give none.
pub open spec fn derivation_error(seed: Seq<u8>, number: i64, bit_size: usize) -> PassportError {
    if seed.len() + 8 < MAX_SEED_LEN {
        credential_error(seeded(seed + be_bytes(number)), bit_size)
    } else {
        PassportError::KeyGenerationFailed
    }
}

/// Collects what a credential is derived from.
pub struct RsaEntityBuilder {
    bit_size: usize,
    key: Vec<u8>,
    key_confuse_number: i64,
}

impl RsaEntityBuilder {
    /// The seed.
    pub closed spec fn seed(&self) -> Seq<u8> {
        self.key@
    }

    /// The bit size of the key pair to come.
    pub closed spec fn bit_size(&self) -> usize {
        self.bit_size
    }

    /// The number that is appended to the seed.
    pub closed spec fn confuse_number(&self) -> i64 {
        self.key_confuse_number
    }

    /// A builder for `key` with [`DEFAULT_BIT_SIZE`] bits and a number drawn
    /// at random: set the number to derive the same credential again.
    pub fn new(key: &[u8]) -> (b: Self)
        ensures
            b.seed() == key@,
            b.bit_size() == DEFAULT_BIT_SIZE,
    {
        let key_confuse_number = random_i64();
        let mut seed: Vec<u8> = Vec::new();
        seed.extend_from_slice(key);
        RsaEntityBuilder { bit_size: DEFAULT_BIT_SIZE, key: seed, key_confuse_number }
    }

    /// Sets the bit size.
    pub fn set_bit_size(self, bit_size: usize) -> (b: Self)
        ensures
            b.seed() == self.seed(),
            b.bit_size() == bit_size,
            b.confuse_number() == self.confuse_number(),
    {
        RsaEntityBuilder { bit_size, key: self.key, key_confuse_number: self.key_confuse_number }
    }

    /// Sets the number that is appended to the seed.
    pub fn set_confuse_number(self, nb: i64) -> (b: Self)
        ensures
            b.seed() == self.seed(),
            b.bit_size() == self.bit_size(),
            b.confuse_number() == nb,
    {
        RsaEntityBuilder { bit_size: self.bit_size, key: self.key, key_confuse_number: nb }
    }

    /// Derives the credential: the key pair that [`derived_numbers`] names
    /// for the seed, the number and the bit size. It succeeds exactly where
    /// they are [`derivable`]; else the error is that of
    /// [`derivation_error`].
    pub fn build_pkcs15(self) -> (r: Result<RsaEntity, PassportError>)
        ensures
            r is Ok <==> derivable(self.seed(), self.confuse_number(), self.bit_size()),
            match r {
                Ok(entity) => {
                    &&& derived_numbers(self.seed(), self.confuse_number(), self.bit_size())
                        == Some(entity.numbers())
                    &&& entity.numbers().len() == 5
                    &&& entity.numbers()[1] == PUBLIC_EXPONENT
                    &&& bit_len(entity.numbers()[0]) == self.bit_size()
                    &&& entity.public_pem() is Some
                },
                Err(e) => e == derivation_error(
                    self.seed(),
                    self.confuse_number(),
                    self.bit_size(),
                ),
            },
    {
        if self.key.len() as u64 >= MAX_SEED_LEN - 8 {
            return Err(PassportError::KeyGenerationFailed);
        }
        let mut rand = RuleRandBuilder::new(self.key.as_slice()).confuse_key_i64(
            self.key_confuse_number,
        ).build();
        RsaEntity::new(&mut rand, self.bit_size)
    }
}

/// Derivation is repeatable: two credentials derived from the same seed, the
/// same number and the same bit size, each from a fresh byte source, hold the
/// same numbers, and so the same key pair and the same private-key text,
/// letter for letter.
pub proof fn lemma_derivation_is_repeatable(
    seed: Seq<u8>,
    number: i64,
    bit_size: usize,
    first: RsaEntity,
    second: RsaEntity,
)
    requires
        derived_numbers(seed, number, bit_size) == Some(first.numbers()),
        derived_numbers(seed, number, bit_size) == Some(second.numbers()),
    ensures
        first.numbers() == second.numbers(),
        first.private_pem() == second.private_pem(),
        first.same_keys(&second),
{
    lemma_same_numbers(first, second);
}

} // verus!
