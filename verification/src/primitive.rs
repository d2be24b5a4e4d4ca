//! The RSA primitive as the library sees it.
//!
//! Everything in this file is stated, not proved: the key types of the `rsa`
//! crate, names for what its functions return, and one small function per
//! call that says what the crate's source shows of it. The rest of the
//! library is proved against these statements.
//!
//! A big number crosses this border as its bytes, most significant first,
//! and is spoken of as the natural number that they write.

use vstd::prelude::*;

verus! {

/// The largest modulus, in bits, that the primitive encrypts for.
pub const MAX_MODULUS_BITS: usize = 4096;

/// The largest public exponent that the primitive encrypts for.
pub const MAX_PUBLIC_EXPONENT: u64 = 0x1_ffff_ffff;

/// The bytes that PKCS#1 v1.5 encryption padding takes from every block.
pub const PADDING_OVERHEAD: usize = 11;

/// The number that `bytes` write, most significant byte first.
pub open spec fn be_value(bytes: Seq<u8>) -> nat
    decreases bytes.len(),
{
    if bytes.len() == 0 {
        0
    } else {
        be_value(bytes.drop_last()) * 256 + bytes.last() as nat
    }
}

/// The number of bits of `n`: none for zero.
pub open spec fn bit_len(n: nat) -> nat
    decreases n,
{
    if n == 0 {
        0
    } else {
        1 + bit_len(n / 2)
    }
}

/// The length in bytes of the modulus of a key with these numbers.
pub open spec fn modulus_bytes(numbers: Seq<nat>) -> nat {
    (bit_len(numbers[0]) + 7) / 8
}

/// Whether the primitive encrypts `len` bytes for the public key with these
/// numbers: the modulus and the exponent are within its limits, and the
/// bytes fit the modulus beside the padding.
pub open spec fn encryptable(numbers: Seq<nat>, len: nat) -> bool {
    &&& bit_len(numbers[0]) <= MAX_MODULUS_BITS
    &&& 2 <= numbers[1] <= MAX_PUBLIC_EXPONENT
    &&& len + PADDING_OVERHEAD <= modulus_bytes(numbers)
}

/// The numbers of the key pair of the primes `p` and `q` with the private
/// exponent `d` and the public exponent `e`: modulus, public exponent,
/// private exponent and the primes.
pub open spec fn pair_numbers(p: nat, q: nat, d: nat, e: nat) -> Seq<nat> {
    key_numbers_of(p * q, e, d, p, q)
}

/// The numbers of a key in their order: modulus, public exponent, private
/// exponent and the two primes.
pub open spec fn key_numbers_of(n: nat, e: nat, d: nat, p: nat, q: nat) -> Seq<nat> {
    seq![n, e, d, p, q]
}

/// Whether `n` is a prime.
pub open spec fn is_prime(n: nat) -> bool {
    n >= 2 && forall|d: nat| 1 < d < n ==> #[trigger] (n % d) != 0
}

/// Whether these are the numbers of a key pair that is what it is meant to
/// be: the modulus is the product of two different odd primes of the same
/// length, give or take a bit, and the private exponent is the inverse of the
/// public one modulo the product of each prime less one.
pub open spec fn sound_pair(numbers: Seq<nat>) -> bool {
    &&& numbers.len() == 5
    &&& is_prime(numbers[3])
    &&& is_prime(numbers[4])
    &&& numbers[3] > 2
    &&& numbers[4] > 2
    &&& numbers[3] != numbers[4]
    &&& bit_len(numbers[3]) <= bit_len(numbers[4]) + 1
    &&& bit_len(numbers[4]) <= bit_len(numbers[3]) + 1
    &&& numbers[0] == numbers[3] * numbers[4]
    &&& inverse_mod(numbers[1], ((numbers[3] - 1) * (numbers[4] - 1)) as nat) == Some(numbers[2])
}

/// The bytes that a PKCS#1 v1.5 signature takes beside the digest: 19 of the
/// prefix that names the hash, and 11 of padding.
pub const SIGNING_OVERHEAD: usize = 30;

/// Whether the primitive signs with the private key of these numbers under
/// a hash of `digest_bits` bits: the pair is sound, and the modulus holds the
/// digest beside the prefix and the padding.
pub open spec fn signable(numbers: Seq<nat>, digest_bits: nat) -> bool {
    sound_pair(numbers) && modulus_bytes(numbers) >= SIGNING_OVERHEAD + digest_bits / 8
}

/// Whether the modulus of these numbers is too short for a signature under a
/// hash of `digest_bits` bits.
pub open spec fn too_short_to_sign(numbers: Seq<nat>, digest_bits: nat) -> bool {
    modulus_bytes(numbers) < SIGNING_OVERHEAD + digest_bits / 8
}

/// Whether decryption with the private key of these numbers gives `plain`
/// back for `cipher`, as far as the numbers are a sound pair.
pub open spec fn undone_by(numbers: Seq<nat>, plain: Seq<u8>, cipher: Seq<u8>) -> bool {
    sound_pair(numbers) ==> pkcs1v15_decrypted(numbers, cipher) == Some(plain)
}

/// `rsa::RsaPrivateKey`, carried through without a look inside.
#[verifier::external_type_specification]
#[verifier::external_body]
pub struct ExRsaPrivateKey(rsa::RsaPrivateKey);

/// `rsa::RsaPublicKey`, carried through without a look inside.
#[verifier::external_type_specification]
#[verifier::external_body]
pub struct ExRsaPublicKey(rsa::RsaPublicKey);

/// `rsa::errors::Error`: why an operation of the primitive failed. The
/// library only tells it from success.
#[verifier::external_type_specification]
#[verifier::external_body]
pub struct ExRsaError(rsa::errors::Error);

/// `rsa::pkcs1::Error`: why a key could not be written as PEM. The library
/// only tells it from success.
#[verifier::external_type_specification]
#[verifier::external_body]
pub struct ExPkcs1Error(rsa::pkcs1::Error);

/// `rsa::signature::Error`: why signing or verifying failed. The library
/// only tells it from success.
#[verifier::external_type_specification]
#[verifier::external_body]
pub struct ExSignatureError(rsa::signature::Error);

/// What a private key holds: its modulus, its public exponent, its private
/// exponent and its two primes, in this order.
pub uninterp spec fn key_numbers(key: rsa::RsaPrivateKey) -> Seq<nat>;

/// What a public key holds: its modulus and its public exponent.
pub uninterp spec fn public_numbers(key: rsa::RsaPublicKey) -> Seq<nat>;

/// Whether `prime::probably_prime` of `num-bigint-dig` takes `n` for a prime
/// after `rounds` rounds.
pub uninterp spec fn probable_prime(n: nat, rounds: nat) -> bool;

/// The inverse of `e` modulo `m` that `ModInverse::mod_inverse` gives, or
/// `None` where the two share a factor.
pub uninterp spec fn inverse_mod(e: nat, m: nat) -> Option<nat>;

/// The PKCS#1 PEM text, with `\n` line endings, that
/// `EncodeRsaPrivateKey::to_pkcs1_pem` writes for the private key with these
/// numbers, or `None` where it returns an error.
pub uninterp spec fn private_pem_text(numbers: Seq<nat>) -> Option<Seq<char>>;

/// The PKCS#1 PEM text, with `\n` line endings, that
/// `EncodeRsaPublicKey::to_pkcs1_pem` writes for the public key with these
/// numbers, or `None` where it returns an error.
pub uninterp spec fn public_pem_text(numbers: Seq<nat>) -> Option<Seq<char>>;

/// What `RsaPrivateKey::decrypt` with PKCS#1 v1.5 padding returns for
/// `cipher` under the private key with these numbers: the plaintext, or
/// `None` where it returns an error.
pub uninterp spec fn pkcs1v15_decrypted(numbers: Seq<nat>, cipher: Seq<u8>) -> Option<Seq<u8>>;

/// Whether `Verifier::verify` of a PKCS#1 v1.5 verifying key for SHA-2 with
/// `digest_bits` bits of output, made of the public key with these numbers,
/// accepts `signature` for `data`.
pub uninterp spec fn pkcs1v15_verifies(
    numbers: Seq<nat>,
    digest_bits: nat,
    data: Seq<u8>,
    signature: Seq<u8>,
) -> bool;

/// Calls `BigUint::from_bytes_be` and the remainder by `modulus`: the number
/// that `bytes` write, reduced modulo `modulus`.
#[verifier::external_body]
pub(crate) fn big_residue(bytes: &[u8], modulus: u64) -> (r: u64)
    requires
        modulus > 0,
    ensures
        r == be_value(bytes@) % (modulus as nat),
{
    let rest = num_bigint_dig::BigUint::from_bytes_be(bytes)
        % num_bigint_dig::BigUint::from(modulus);
    num_traits::ToPrimitive::to_u64(&rest).unwrap_or_default()
}

/// Calls `BigUint::from_bytes_be`, the sum with `delta` and
/// `BigUint::to_bytes_be`: the bytes of the number that `bytes` write, plus
/// `delta`.
#[verifier::external_body]
pub(crate) fn big_add(bytes: &[u8], delta: u64) -> (sum: Vec<u8>)
    ensures
        be_value(sum@) == be_value(bytes@) + delta,
{
    (num_bigint_dig::BigUint::from_bytes_be(bytes) + num_bigint_dig::BigUint::from(delta))
        .to_bytes_be()
}

/// Calls `BigUint::from_bytes_be` and `BigUint::bits`: the number of bits of
/// the number that `bytes` write.
#[verifier::external_body]
pub(crate) fn big_bits(bytes: &[u8]) -> (bits: usize)
    ensures
        bits == bit_len(be_value(bytes@)),
{
    num_bigint_dig::BigUint::from_bytes_be(bytes).bits()
}

/// Calls `BigUint::from_bytes_be` twice and `==`: whether the two write the
/// same number.
#[verifier::external_body]
pub(crate) fn big_equal(left: &[u8], right: &[u8]) -> (same: bool)
    ensures
        same == (be_value(left@) == be_value(right@)),
{
    num_bigint_dig::BigUint::from_bytes_be(left) == num_bigint_dig::BigUint::from_bytes_be(right)
}

/// Calls `BigUint::from_bytes_be` twice, the product and
/// `BigUint::to_bytes_be`: the bytes of the product of the two numbers.
#[verifier::external_body]
pub(crate) fn big_mul(left: &[u8], right: &[u8]) -> (product: Vec<u8>)
    ensures
        be_value(product@) == be_value(left@) * be_value(right@),
{
    (num_bigint_dig::BigUint::from_bytes_be(left) * num_bigint_dig::BigUint::from_bytes_be(right))
        .to_bytes_be()
}

/// Calls `BigUint::from_bytes_be`, the difference with one and
/// `BigUint::to_bytes_be`: the bytes of the number less one. The crate
/// panics where the difference would be below zero, so zero is left out.
#[verifier::external_body]
pub(crate) fn big_less_one(bytes: &[u8]) -> (less: Vec<u8>)
    requires
        be_value(bytes@) >= 1,
    ensures
        be_value(less@) == be_value(bytes@) - 1,
{
    (num_bigint_dig::BigUint::from_bytes_be(bytes) - num_bigint_dig::BigUint::from(1u64))
        .to_bytes_be()
}

/// Calls `prime::probably_prime` of `num-bigint-dig` on the number that
/// `bytes` write. The test draws its bases from a generator that it seeds
/// from the number itself, so the answer depends on the number and on
/// `rounds` alone: it is named [`probable_prime`]. The crate adds one to
/// `rounds`, so the largest count is left out.
#[verifier::external_body]
pub(crate) fn probably_prime(bytes: &[u8], rounds: usize) -> (prime: bool)
    requires
        rounds < usize::MAX,
    ensures
        prime == probable_prime(be_value(bytes@), rounds as nat),
{
    num_bigint_dig::prime::probably_prime(&num_bigint_dig::BigUint::from_bytes_be(bytes), rounds)
}

/// Calls `ModInverse::mod_inverse` of `exponent` modulo the number that
/// `modulus` writes, which is named [`inverse_mod`].
#[verifier::external_body]
pub(crate) fn private_exponent(exponent: u64, modulus: &[u8]) -> (d: Option<Vec<u8>>)
    ensures
        match d {
            Some(bytes) => inverse_mod(exponent as nat, be_value(modulus@)) == Some(
                be_value(bytes@),
            ),
            None => inverse_mod(exponent as nat, be_value(modulus@)) is None,
        },
{
    num_bigint_dig::ModInverse::mod_inverse(
        num_bigint_dig::BigUint::from(exponent),
        num_bigint_dig::BigUint::from_bytes_be(modulus),
    ).and_then(|d| d.to_biguint()).map(|d| d.to_bytes_be())
}

/// Calls `RsaPrivateKey::from_components` with the numbers as they come. It
/// fails only for fewer than two primes, so a key comes back, and it holds
/// the numbers that it was given. It divides by each prime less one, so
/// primes below two are left out.
#[verifier::external_body]
pub(crate) fn key_from_parts(n: &[u8], exponent: u64, d: &[u8], p: &[u8], q: &[u8]) -> (r: Result<
    rsa::RsaPrivateKey,
    rsa::errors::Error,
>)
    requires
        be_value(p@) >= 2,
        be_value(q@) >= 2,
    ensures
        r is Ok,
        r matches Ok(key) ==> key_numbers(key) == key_numbers_of(
            be_value(n@),
            exponent as nat,
            be_value(d@),
            be_value(p@),
            be_value(q@),
        ),
{
    rsa::RsaPrivateKey::from_components(
        num_bigint_dig::BigUint::from_bytes_be(n),
        num_bigint_dig::BigUint::from(exponent),
        num_bigint_dig::BigUint::from_bytes_be(d),
        vec![
            num_bigint_dig::BigUint::from_bytes_be(p),
            num_bigint_dig::BigUint::from_bytes_be(q),
        ],
    )
}

/// Calls `RsaPrivateKey::to_public_key`, which copies the modulus and the
/// public exponent out of the private key.
#[verifier::external_body]
pub(crate) fn to_public_key(key: &rsa::RsaPrivateKey) -> (public: rsa::RsaPublicKey)
    ensures
        public_numbers(public) == key_numbers(*key).take(2),
{
    key.to_public_key()
}

/// Calls `EncodeRsaPrivateKey::to_pkcs1_pem` with `LineEnding::LF`. The text
/// depends on the numbers of the key alone: it is named
/// [`private_pem_text`].
#[verifier::external_body]
pub(crate) fn private_to_pem(key: &rsa::RsaPrivateKey) -> (r: Result<String, rsa::pkcs1::Error>)
    ensures
        match r {
            Ok(pem) => private_pem_text(key_numbers(*key)) == Some(pem@),
            Err(_) => private_pem_text(key_numbers(*key)) is None,
        },
{
    rsa::pkcs1::EncodeRsaPrivateKey::to_pkcs1_pem(key, rsa::pkcs1::LineEnding::LF).map(
        |pem| pem.to_string(),
    )
}

/// Calls `EncodeRsaPublicKey::to_pkcs1_pem` with `LineEnding::LF`. The text
/// depends on the numbers of the key alone: it is named [`public_pem_text`].
#[verifier::external_body]
pub(crate) fn public_to_pem(key: &rsa::RsaPublicKey) -> (r: Result<String, rsa::pkcs1::Error>)
    ensures
        match r {
            Ok(pem) => public_pem_text(public_numbers(*key)) == Some(pem@),
            Err(_) => public_pem_text(public_numbers(*key)) is None,
        },
{
    rsa::pkcs1::EncodeRsaPublicKey::to_pkcs1_pem(key, rsa::pkcs1::LineEnding::LF)
}

/// Calls `PublicKey::encrypt` with `Pkcs1v15Encrypt` and the thread's random
/// generator. The padding is random, so the ciphertext has no name, but
/// whether one comes back is not left to chance: the crate refuses a key
/// beyond its limits (`check_public`) and a message longer than the modulus
/// less 11 bytes, and nothing else. It pads every ciphertext to the length
/// of the modulus.
///
///
/// The ciphertext is the padded message raised to the public exponent modulo
/// the modulus. Where the modulus is the product of two different primes and
/// the private exponent is the inverse of the public one, raising to the
/// private exponent gives the padded message back, which is what
/// `RsaPrivateKey::decrypt` does before it takes the padding off: every
/// private key of a sound pair with this public key decrypts the ciphertext
/// to `data`.
///
/// It subtracts 11 from the length of the modulus before it compares, so a
/// modulus shorter than that is left out.
#[verifier::external_body]
pub(crate) fn encrypt_pkcs1v15(key: &rsa::RsaPublicKey, data: &[u8]) -> (r: Result<
    Vec<u8>,
    rsa::errors::Error,
>)
    requires
        modulus_bytes(public_numbers(*key)) >= PADDING_OVERHEAD,
    ensures
        r is Ok <==> encryptable(public_numbers(*key), data@.len()),
        r matches Ok(cipher) ==> cipher@.len() == modulus_bytes(public_numbers(*key)),
        r matches Ok(cipher) ==> forall|numbers: Seq<nat>|
            numbers.take(2) == public_numbers(*key) ==> #[trigger] undone_by(
                numbers,
                data@,
                cipher@,
            ),
{
    let mut rng = rand::thread_rng();
    rsa::PublicKey::encrypt(key, &mut rng, rsa::Pkcs1v15Encrypt, data)
}

/// Calls `RsaPrivateKey::decrypt` with `Pkcs1v15Encrypt`, which uses no
/// randomness: what comes back is named [`pkcs1v15_decrypted`]. The crate
/// asks for at least eight bytes of padding between the two marks, so a
/// plaintext leaves 11 bytes of the modulus free.
#[verifier::external_body]
pub(crate) fn decrypt_pkcs1v15(key: &rsa::RsaPrivateKey, cipher: &[u8]) -> (r: Result<
    Vec<u8>,
    rsa::errors::Error,
>)
    ensures
        match r {
            Ok(plain) => pkcs1v15_decrypted(key_numbers(*key), cipher@) == Some(plain@),
            Err(_) => pkcs1v15_decrypted(key_numbers(*key), cipher@) is None,
        },
        r matches Ok(plain) ==> plain@.len() + PADDING_OVERHEAD <= modulus_bytes(
            key_numbers(*key),
        ),
{
    key.decrypt(rsa::Pkcs1v15Encrypt, cipher)
}

/// Calls `RandomizedSigner::try_sign_with_rng` of a `SigningKey<Sha256>` made
/// of a copy of `key` by `new_with_prefix`, with the thread's random
/// generator, which blinds the private-key operation, so the signature has
/// no name. Before the crate hands a signature out, its
/// `internals::decrypt_and_check` raises it to the public exponent again and
/// returns an error unless that gives back the padded digest. That is the
/// computation and the comparison that `pkcs1v15::verify` makes: a signature
/// that comes back is one that the verifying key of the same key pair
/// accepts for `data`. The crate pads it to the length of the modulus.
///
/// It refuses a modulus that does not hold the digest beside the prefix of
/// 19 bytes and 11 bytes of padding. Beyond that it fails only where the
/// check above fails, which it does not for a sound pair: there, raising to
/// the private exponent and then to the public one gives the number back.
#[verifier::external_body]
pub(crate) fn sign_sha256(key: &rsa::RsaPrivateKey, data: &[u8]) -> (r: Result<
    Vec<u8>,
    rsa::signature::Error,
>)
    ensures
        r matches Ok(signature) ==> pkcs1v15_verifies(
            key_numbers(*key).take(2),
            256,
            data@,
            signature@,
        ) && signature@.len() == modulus_bytes(key_numbers(*key)),
        too_short_to_sign(key_numbers(*key), 256) ==> r is Err,
        signable(key_numbers(*key), 256) ==> r is Ok,
{
    let signer = rsa::pkcs1v15::SigningKey::<rsa::sha2::Sha256>::new_with_prefix(key.clone());
    let mut rng = rand::thread_rng();
    rsa::signature::RandomizedSigner::try_sign_with_rng(&signer, &mut rng, data).map(
        |signature| rsa::signature::SignatureEncoding::to_vec(&signature),
    )
}

/// As [`sign_sha256`], with a `SigningKey<Sha384>`.
#[verifier::external_body]
pub(crate) fn sign_sha384(key: &rsa::RsaPrivateKey, data: &[u8]) -> (r: Result<
    Vec<u8>,
    rsa::signature::Error,
>)
    ensures
        r matches Ok(signature) ==> pkcs1v15_verifies(
            key_numbers(*key).take(2),
            384,
            data@,
            signature@,
        ) && signature@.len() == modulus_bytes(key_numbers(*key)),
        too_short_to_sign(key_numbers(*key), 384) ==> r is Err,
        signable(key_numbers(*key), 384) ==> r is Ok,
{
    let signer = rsa::pkcs1v15::SigningKey::<rsa::sha2::Sha384>::new_with_prefix(key.clone());
    let mut rng = rand::thread_rng();
    rsa::signature::RandomizedSigner::try_sign_with_rng(&signer, &mut rng, data).map(
        |signature| rsa::signature::SignatureEncoding::to_vec(&signature),
    )
}

/// As [`sign_sha256`], with a `SigningKey<Sha512>`.
#[verifier::external_body]
pub(crate) fn sign_sha512(key: &rsa::RsaPrivateKey, data: &[u8]) -> (r: Result<
    Vec<u8>,
    rsa::signature::Error,
>)
    ensures
        r matches Ok(signature) ==> pkcs1v15_verifies(
            key_numbers(*key).take(2),
            512,
            data@,
            signature@,
        ) && signature@.len() == modulus_bytes(key_numbers(*key)),
        too_short_to_sign(key_numbers(*key), 512) ==> r is Err,
        signable(key_numbers(*key), 512) ==> r is Ok,
{
    let signer = rsa::pkcs1v15::SigningKey::<rsa::sha2::Sha512>::new_with_prefix(key.clone());
    let mut rng = rand::thread_rng();
    rsa::signature::RandomizedSigner::try_sign_with_rng(&signer, &mut rng, data).map(
        |signature| rsa::signature::SignatureEncoding::to_vec(&signature),
    )
}

/// Calls `Verifier::verify` of a `VerifyingKey<Sha256>` made of a copy of
/// `key` by `new_with_prefix`, on `data` and on `signature` turned into a
/// `Signature`. The check uses no randomness: whether it accepts is named
/// [`pkcs1v15_verifies`].
#[verifier::external_body]
pub(crate) fn verify_sha256(key: &rsa::RsaPublicKey, data: &[u8], signature: &[u8]) -> (r: Result<
    (),
    rsa::signature::Error,
>)
    ensures
        r is Ok <==> pkcs1v15_verifies(public_numbers(*key), 256, data@, signature@),
{
    let verifier = rsa::pkcs1v15::VerifyingKey::<rsa::sha2::Sha256>::new_with_prefix(key.clone());
    let signature = rsa::pkcs1v15::Signature::try_from(signature)?;
    rsa::signature::Verifier::verify(&verifier, data, &signature)
}

/// As [`verify_sha256`], with a `VerifyingKey<Sha384>`.
#[verifier::external_body]
pub(crate) fn verify_sha384(key: &rsa::RsaPublicKey, data: &[u8], signature: &[u8]) -> (r: Result<
    (),
    rsa::signature::Error,
>)
    ensures
        r is Ok <==> pkcs1v15_verifies(public_numbers(*key), 384, data@, signature@),
{
    let verifier = rsa::pkcs1v15::VerifyingKey::<rsa::sha2::Sha384>::new_with_prefix(key.clone());
    let signature = rsa::pkcs1v15::Signature::try_from(signature)?;
    rsa::signature::Verifier::verify(&verifier, data, &signature)
}

/// As [`verify_sha256`], with a `VerifyingKey<Sha512>`.
#[verifier::external_body]
pub(crate) fn verify_sha512(key: &rsa::RsaPublicKey, data: &[u8], signature: &[u8]) -> (r: Result<
    (),
    rsa::signature::Error,
>)
    ensures
        r is Ok <==> pkcs1v15_verifies(public_numbers(*key), 512, data@, signature@),
{
    let verifier = rsa::pkcs1v15::VerifyingKey::<rsa::sha2::Sha512>::new_with_prefix(key.clone());
    let signature = rsa::pkcs1v15::Signature::try_from(signature)?;
    rsa::signature::Verifier::verify(&verifier, data, &signature)
}

/// Calls `rand::random` for an `i64`. Nothing is known of the number.
#[verifier::external_body]
pub(crate) fn random_i64() -> i64 {
    rand::random()
}

} // verus!
