//! One credential: an RSA key pair and what can be done with it.
//!
//! The public key is always the one that belongs to the private key, and the
//! signing and verifying keys of each hash strength are made from these two
//! at every use, so a credential holds no key material of any other origin.

use vstd::prelude::*;
use crate::confuse::ConfuseRule;
use crate::error::{or_fail, PassportError};
use crate::keygen::{
    generate, generation, lemma_found_pair, lemma_three_bits, MAX_DRAWS, MIN_BIT_SIZE,
    PUBLIC_EXPONENT,
};
use crate::primitive::{
    bit_len,
    decrypt_pkcs1v15,
    encrypt_pkcs1v15,
    encryptable,
    is_prime,
    key_from_parts,
    key_numbers,
    modulus_bytes,
    pkcs1v15_decrypted,
    pkcs1v15_verifies,
    private_pem_text,
    private_to_pem,
    public_numbers,
    public_pem_text,
    public_to_pem,
    sign_sha256,
    sign_sha384,
    sign_sha512,
    signable,
    sound_pair,
    too_short_to_sign,
    to_public_key,
    undone_by,
    verify_sha256,
    verify_sha384,
    verify_sha512,
    PADDING_OVERHEAD,
};
use crate::rule_rand::{RandState, RuleRand};

verus! {

/// The hash under which data is signed.
#[derive(Debug, Clone, Copy, PartialEq, Eq, Structural)]
pub enum HashStrength {
    Sha256,
    Sha384,
    Sha512,
}

impl HashStrength {
    /// The number of bits of the hash.
    pub open spec fn bits(self) -> nat {
        match self {
            HashStrength::Sha256 => 256,
            HashStrength::Sha384 => 384,
            HashStrength::Sha512 => 512,
        }
    }
}

/// An RSA key pair with PKCS#1 v1.5 padding.
pub struct RsaEntity {
    prk: rsa::RsaPrivateKey,
    puk: rsa::RsaPublicKey,
    bit_size: usize,
    public_pem: String,
}

/// The numbers of the key pair that key generation gives from a source in
/// state `rng`, or `None` where no key pair comes out.
pub open spec fn generated_numbers(rng: RandState, bit_size: usize) -> Option<Seq<nat>> {
    generation(rng, bit_size).numbers
}

/// Whether key generation from a source in state `rng` gives a credential: a
/// key pair comes out, and its public key can be written as PEM.
pub open spec fn gives_credential(rng: RandState, bit_size: usize) -> bool {
    generated_numbers(rng, bit_size) matches Some(numbers) && public_pem_text(numbers.take(2))
        is Some
}

/// The error with which making a credential from a source in state `rng`
/// ends, where it gives none.
pub open spec fn credential_error(rng: RandState, bit_size: usize) -> PassportError {
    if generated_numbers(rng, bit_size) is None {
        PassportError::KeyGenerationFailed
    } else {
        PassportError::SerializationFailed
    }
}

impl RsaEntity {
    #[verifier::type_invariant]
    spec fn well_formed(self) -> bool {
        &&& key_numbers(self.prk).len() == 5
        &&& key_numbers(self.prk)[1] == PUBLIC_EXPONENT
        &&& bit_len(key_numbers(self.prk)[0]) == self.bit_size
        &&& public_numbers(self.puk) == key_numbers(self.prk).take(2)
        &&& public_pem_text(key_numbers(self.prk).take(2)) == Some(self.public_pem@)
    }

    /// The numbers of the key pair: modulus, public exponent, private
    /// exponent and the two primes. Two credentials with the same numbers
    /// hold the same key pair.
    pub closed spec fn numbers(&self) -> Seq<nat> {
        key_numbers(self.prk)
    }

    /// The numbers of the public key: modulus and public exponent.
    pub open spec fn public_numbers(&self) -> Seq<nat> {
        self.numbers().take(2)
    }

    /// The PKCS#1 PEM text of the private key, where it can be written.
    pub open spec fn private_pem(&self) -> Option<Seq<char>> {
        private_pem_text(self.numbers())
    }

    /// The PKCS#1 PEM text of the public key, where it can be written.
    pub open spec fn public_pem(&self) -> Option<Seq<char>> {
        public_pem_text(self.public_numbers())
    }

    /// The length of the modulus in bytes.
    pub open spec fn modulus_len(&self) -> nat {
        modulus_bytes(self.numbers())
    }

    /// The longest plaintext that one block takes. Below zero, none fits.
    pub open spec fn max_payload(&self) -> int {
        self.modulus_len() - PADDING_OVERHEAD
    }

    /// Whether a plaintext of `len` bytes is encrypted: it is no longer than
    /// [`max_payload`](Self::max_payload), and the key is within the limits
    /// of the primitive.
    pub open spec fn encrypts(&self, len: nat) -> bool {
        encryptable(self.public_numbers(), len)
    }

    /// Whether the key pair is what it is meant to be: two different primes
    /// and exponents that undo each other.
    pub open spec fn sound(&self) -> bool {
        sound_pair(self.numbers())
    }

    /// Whether decryption gives `plain` back for `cipher`, as far as the key
    /// pair is sound.
    pub open spec fn undoes(&self, plain: Seq<u8>, cipher: Seq<u8>) -> bool {
        undone_by(self.numbers(), plain, cipher)
    }

    /// What decryption makes of `cipher`: the plaintext, or `None`.
    pub open spec fn decrypted(&self, cipher: Seq<u8>) -> Option<Seq<u8>> {
        pkcs1v15_decrypted(self.numbers(), cipher)
    }

    /// Whether `signature` is accepted for `data` under `strength`.
    pub open spec fn accepts(
        &self,
        data: Seq<u8>,
        signature: Seq<u8>,
        strength: HashStrength,
    ) -> bool {
        pkcs1v15_verifies(self.public_numbers(), strength.bits(), data, signature)
    }

    /// Whether the key pair signs under `strength`: it is sound, and its
    /// modulus holds the digest beside the prefix and the padding.
    pub open spec fn signs(&self, strength: HashStrength) -> bool {
        signable(self.numbers(), strength.bits())
    }

    /// Whether the modulus is too short for a signature under `strength`.
    pub open spec fn too_short_for(&self, strength: HashStrength) -> bool {
        too_short_to_sign(self.numbers(), strength.bits())
    }

    /// What checking `signature` for `data` under `strength` gives.
    pub open spec fn verified(
        &self,
        data: Seq<u8>,
        signature: Seq<u8>,
        strength: HashStrength,
    ) -> Result<(), PassportError> {
        if self.accepts(data, signature, strength) {
            Ok(())
        } else {
            Err(PassportError::SignatureInvalid)
        }
    }

    /// Whether `self` and `other` hold the same key pair. Then their texts
    /// are the same, and they decrypt and accept alike.
    pub open spec fn same_keys(&self, other: &RsaEntity) -> bool {
        &&& self.numbers() == other.numbers()
        &&& self.private_pem() == other.private_pem()
        &&& self.public_pem() == other.public_pem()
        &&& self.modulus_len() == other.modulus_len()
        &&& forall|cipher: Seq<u8>| self.decrypted(cipher) == other.decrypted(cipher)
        &&& forall|data: Seq<u8>, signature: Seq<u8>, strength: HashStrength|
            self.accepts(data, signature, strength) == other.accepts(data, signature, strength)
    }

    /// Generates a key pair of `bit_size` bits from `rng`.
    ///
    /// The key pair is the one that [`generated_numbers`] names for the state
    /// of `rng`, and `rng` is left where the search ends. Where the search
    /// finds no key pair within its draws the error is
    /// `KeyGenerationFailed`; where the public key of the pair that it found
    /// cannot be written as PEM the error is `SerializationFailed`. Nothing
    /// is tried again.
    pub fn new<R: ConfuseRule>(rng: &mut RuleRand<R>, bit_size: usize) -> (r: Result<
        Self,
        PassportError,
    >)
        ensures
            final(rng)@ == generation(old(rng)@, bit_size).state,
            r is Ok <==> gives_credential(old(rng)@, bit_size),
            match r {
                Ok(entity) => {
                    &&& generated_numbers(old(rng)@, bit_size) == Some(entity.numbers())
                    &&& entity.numbers().len() == 5
                    &&& entity.numbers()[1] == PUBLIC_EXPONENT
                    &&& bit_len(entity.numbers()[0]) == bit_size
                    &&& entity.public_pem() is Some
                },
                Err(e) => e == credential_error(old(rng)@, bit_size),
            },
    {
        let (n, p, q, d) = match generate(rng, bit_size) {
            Some(parts) => parts,
            None => {
                return Err(PassportError::KeyGenerationFailed);
            },
        };
        let prk = match key_from_parts(
            n.as_slice(),
            PUBLIC_EXPONENT,
            d.as_slice(),
            p.as_slice(),
            q.as_slice(),
        ) {
            Ok(key) => key,
            Err(_) => {
                return Err(PassportError::KeyGenerationFailed);
            },
        };
        let puk = to_public_key(&prk);
        let public_pem = or_fail(public_to_pem(&puk), PassportError::SerializationFailed)?;
        Ok(RsaEntity { prk, puk, bit_size, public_pem })
    }

    /// Encrypts `data` for this key pair. The padding is random: two calls
    /// give different ciphertexts.
    ///
    /// A plaintext is encrypted exactly when it is no longer than
    /// [`max_payload`](Self::max_payload) and the key is within the limits of
    /// the primitive; nothing is split into blocks here. A ciphertext is as
    /// long as the modulus, and a sound key pair decrypts it to `data`.
    pub fn encrypt(&self, data: &[u8]) -> (r: Result<Vec<u8>, PassportError>)
        ensures
            r is Ok <==> self.encrypts(data@.len()),
            r matches Ok(cipher) ==> cipher@.len() == self.modulus_len() && self.undoes(
                data@,
                cipher@,
            ),
            r matches Err(e) ==> e == PassportError::EncryptionFailed,
    {
        proof {
            use_type_invariant(self);
        }
        let size: usize = self.bit_size / 8 + if self.bit_size % 8 == 0 {
            0
        } else {
            1
        };
        if size < PADDING_OVERHEAD {
            return Err(PassportError::EncryptionFailed);
        }
        or_fail(encrypt_pkcs1v15(&self.puk, data), PassportError::EncryptionFailed)
    }

    /// Decrypts `data` with the private key: the plaintext that
    /// [`decrypted`](Self::decrypted) names, or `DecryptionFailed` where it
    /// names none.
    pub fn decrypt(&self, data: &[u8]) -> (r: Result<Vec<u8>, PassportError>)
        ensures
            match r {
                Ok(plain) => self.decrypted(data@) == Some(plain@),
                Err(e) => e == PassportError::DecryptionFailed && self.decrypted(data@) is None,
            },
            r matches Ok(plain) ==> plain@.len() <= self.max_payload(),
    {
        or_fail(decrypt_pkcs1v15(&self.prk, data), PassportError::DecryptionFailed)
    }

    /// Signs `data` under `strength`, with fresh randomness at every call.
    /// A signature that comes back is as long as the modulus, and is one that
    /// [`verify`](Self::verify) accepts for the same data and strength. A
    /// modulus too short for the digest gives `SigningFailed`; a sound key
    /// pair with a modulus that is long enough always signs.
    pub fn sign(&self, data: &[u8], strength: HashStrength) -> (r: Result<Vec<u8>, PassportError>)
        ensures
            r matches Ok(signature) ==> self.accepts(data@, signature@, strength)
                && signature@.len() == self.modulus_len(),
            r matches Err(e) ==> e == PassportError::SigningFailed,
            self.too_short_for(strength) ==> r is Err,
            self.signs(strength) ==> r is Ok,
    {
        let outcome = match strength {
            HashStrength::Sha256 => sign_sha256(&self.prk, data),
            HashStrength::Sha384 => sign_sha384(&self.prk, data),
            HashStrength::Sha512 => sign_sha512(&self.prk, data),
        };
        or_fail(outcome, PassportError::SigningFailed)
    }

    /// Checks `signature` for `data` under `strength`: `Ok` exactly when
    /// [`accepts`](Self::accepts) holds, else `SignatureInvalid`.
    pub fn verify(&self, data: &[u8], signature: &[u8], strength: HashStrength) -> (r: Result<
        (),
        PassportError,
    >)
        ensures
            r == self.verified(data@, signature@, strength),
    {
        proof {
            use_type_invariant(self);
        }
        let outcome = match strength {
            HashStrength::Sha256 => verify_sha256(&self.puk, data, signature),
            HashStrength::Sha384 => verify_sha384(&self.puk, data, signature),
            HashStrength::Sha512 => verify_sha512(&self.puk, data, signature),
        };
        or_fail(outcome, PassportError::SignatureInvalid)
    }

    /// [`sign`](Self::sign) under SHA-256.
    pub fn sign_sha256(&self, data: &[u8]) -> (r: Result<Vec<u8>, PassportError>)
        ensures
            r matches Ok(signature) ==> self.accepts(data@, signature@, HashStrength::Sha256)
                && signature@.len() == self.modulus_len(),
            r matches Err(e) ==> e == PassportError::SigningFailed,
            self.too_short_for(HashStrength::Sha256) ==> r is Err,
            self.signs(HashStrength::Sha256) ==> r is Ok,
    {
        self.sign(data, HashStrength::Sha256)
    }

    /// [`verify`](Self::verify) under SHA-256.
    pub fn verify_sha256(&self, data: &[u8], sign: &[u8]) -> (r: Result<(), PassportError>)
        ensures
            r == self.verified(data@, sign@, HashStrength::Sha256),
    {
        self.verify(data, sign, HashStrength::Sha256)
    }

    /// The private key as PKCS#1 PEM text with `\n` line endings, or
    /// `SerializationFailed` where it cannot be written.
    pub fn generate_private_pkcs1_pem(&self) -> (r: Result<String, PassportError>)
        ensures
            match r {
                Ok(pem) => self.private_pem() == Some(pem@),
                Err(e) => e == PassportError::SerializationFailed && self.private_pem() is None,
            },
    {
        or_fail(private_to_pem(&self.prk), PassportError::SerializationFailed)
    }

    /// The public key as PKCS#1 PEM text with `\n` line endings. The text
    /// was written when the credential was made, so this never fails.
    pub fn write_public_pem(&self) -> (r: Result<String, PassportError>)
        ensures
            r matches Ok(pem) && self.public_pem() == Some(pem@),
    {
        proof {
            use_type_invariant(self);
        }
        Ok(self.public_pem.clone())
    }

    /// The public key.
    pub fn public_key(&self) -> (key: &rsa::RsaPublicKey)
        ensures
            public_numbers(*key) == self.public_numbers(),
    {
        proof {
            use_type_invariant(self);
        }
        &self.puk
    }

    /// The private key.
    pub fn private_key(&self) -> (key: &rsa::RsaPrivateKey)
        ensures
            key_numbers(*key) == self.numbers(),
    {
        &self.prk
    }
}

/// What a credential has signed, it verifies: a signature that `sign` hands
/// out for some data under some strength is accepted, so `verify` returns
/// `Ok` for it with the same data and strength.
pub proof fn lemma_signed_is_verified(
    entity: RsaEntity,
    data: Seq<u8>,
    strength: HashStrength,
    signature: Seq<u8>,
)
    requires
        entity.accepts(data, signature, strength),
    ensures
        entity.verified(data, signature, strength) is Ok,
{
}

/// What a credential has encrypted, it decrypts, as long as its key pair is
/// sound: a ciphertext that `encrypt` hands out for a plaintext is one for
/// which `decrypt` returns that plaintext.
pub proof fn lemma_encrypted_is_decrypted(entity: RsaEntity, plain: Seq<u8>, cipher: Seq<u8>)
    requires
        entity.undoes(plain, cipher),
        entity.sound(),
    ensures
        entity.decrypted(cipher) == Some(plain),
{
}

/// A key pair that key generation gives is sound as soon as the two numbers
/// that the search took for primes are primes: the primality test answers
/// for that, and nothing else is left open.
pub proof fn lemma_generated_is_sound(rng: RandState, bit_size: usize, entity: RsaEntity)
    requires
        generated_numbers(rng, bit_size) == Some(entity.numbers()),
        is_prime(entity.numbers()[3]),
        is_prime(entity.numbers()[4]),
    ensures
        entity.sound(),
{
    if bit_size >= MIN_BIT_SIZE {
        lemma_found_pair(rng, bit_size as nat, MAX_DRAWS as nat);
        lemma_three_bits(entity.numbers()[3]);
        lemma_three_bits(entity.numbers()[4]);
    }
}

/// Two credentials with the same numbers hold the same key pair: their texts
/// are the same, and what one decrypts and accepts, the other does too.
pub proof fn lemma_same_numbers(first: RsaEntity, second: RsaEntity)
    requires
        first.numbers() == second.numbers(),
    ensures
        first.same_keys(&second),
{
}

/// A credential that key generation gives for `bit_size` bits has a modulus
/// of `(bit_size + 7) / 8` bytes and encrypts every plaintext of up to that
/// less eleven bytes, as long as `bit_size` is within the limit of the
/// primitive.
pub proof fn lemma_generated_size(rng: RandState, bit_size: usize, entity: RsaEntity, len: nat)
    requires
        generated_numbers(rng, bit_size) == Some(entity.numbers()),
    ensures
        entity.modulus_len() == (bit_size + 7) / 8,
        entity.encrypts(len) <==> bit_size <= crate::primitive::MAX_MODULUS_BITS && len
            <= entity.max_payload(),
{
    if bit_size >= MIN_BIT_SIZE {
        lemma_found_pair(rng, bit_size as nat, MAX_DRAWS as nat);
    }
}

} // verus!
