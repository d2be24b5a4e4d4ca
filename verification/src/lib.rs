//! Rotating RSA credentials that are derived from a shared seed instead of
//! being stored.
//!
//! A seed and a time bucket determine a key pair: whoever holds the seed can
//! derive the key pair of any bucket again. The pieces, leaves first:
//!
//! * [`ConfuseRule`] / [`ConfuseRuleDefault`]: the byte mixer.
//! * [`RuleRand`]: the deterministic byte source built on the mixer.
//! * [`keygen`]: the search for the two primes of a key pair, with an end.
//! * [`RsaEntity`]: one key pair with its operations.
//! * [`RsaEntityBuilder`]: seed, bucket id and bit size to a key pair.
//! * [`PassportEntity`]: one key pair per time bucket, looked up by timestamp.
//!
//! **The byte source is not a cryptographically secure generator.** It only
//! makes key derivation repeatable from a seed that is already secret.

pub mod b64;
pub mod bucket;
pub mod clib;
pub mod confuse;
pub mod define;
pub mod error;
pub mod keygen;
pub mod passport;
pub mod pf;
pub mod primitive;
pub mod rsa_entity;
pub mod rsa_entity_builder;
pub mod rule_rand;

pub use b64::{decode, encode, Base64StdDecode, Base64StdEncode};
pub use confuse::{default_mixed, ConfuseRule, ConfuseRuleDefault};
pub use define::{
    default_passport, format_public_pem, init_passport, rsa_sha156_verify, rsa_sha256_decrypt,
    rsa_sha256_encrypt, rsa_sha256_sign,
};
pub use error::{or_fail, PassportError};
pub use passport::PassportEntity;
pub use pf::{PFErr, PFOk};
pub use rsa_entity::{HashStrength, RsaEntity};
pub use rsa_entity_builder::RsaEntityBuilder;
pub use rule_rand::{RandState, RuleRand, RuleRandBuilder};
