//! The deterministic byte source: a key buffer, made once from the digest of
//! a seed, that is stirred by a [`ConfuseRule`] before every draw.
//!
//! **This is not a cryptographically secure generator.** The mixer is a plain
//! rearrangement of bytes. The source exists to make key derivation repeatable
//! from a seed that is already secret, and one source should feed one
//! derivation only: keys drawn from one stream are correlated.

use vstd::prelude::*;
use crypto::digest::Digest;
use crate::confuse::{ConfuseRule, ConfuseRuleDefault};
use crate::error::PassportError;

verus! {

/// The number of bytes in the key buffer: the output size of the digest.
pub const DIGEST_LEN: usize = 20;

/// Seeds must be shorter than this many bytes: the digest counts the bits of
/// its input in 64 bits.
pub const MAX_SEED_LEN: u64 = 0x2000_0000_0000_0000;

/// The SHA-1 digest of `data`.
pub uninterp spec fn sha1_digest(data: Seq<u8>) -> Seq<u8>;

/// `rand::Error`, the error of a fallible fill. This source never makes one.
#[verifier::external_type_specification]
#[verifier::external_body]
pub struct ExRandError(::rand::Error);

/// Calls `crypto::sha1::Sha1` (`new`, `input`, `result`) on `data`. The
/// result is the SHA-1 digest of `data`, named [`sha1_digest`], and holds the
/// 20 bytes of `output_bytes()`. The digest panics once its input reaches
/// 2^61 bytes, which `requires` leaves out.
#[verifier::external_body]
fn sha1(data: &[u8]) -> (digest: Vec<u8>)
    requires
        data@.len() < MAX_SEED_LEN,
    ensures
        digest@ == sha1_digest(data@),
        digest@.len() == DIGEST_LEN,
{
    let mut hasher = ::crypto::sha1::Sha1::new();
    hasher.input(data);
    let mut digest = vec![0u8; hasher.output_bytes()];
    hasher.result(digest.as_mut_slice());
    digest
}

/// A mixing rule as a function on buffers.
pub open spec fn rule_fn<R: ConfuseRule>(rule: R) -> spec_fn(Seq<u8>) -> Seq<u8> {
    |buf: Seq<u8>| rule.mixed(buf)
}

/// What a byte source is, seen from outside: its key buffer and what one
/// mixing step makes of a buffer.
pub struct RandState {
    pub key: Seq<u8>,
    pub rule: spec_fn(Seq<u8>) -> Seq<u8>,
}

impl RandState {
    /// The state after one mixing step.
    pub open spec fn step(self) -> RandState {
        RandState { key: (self.rule)(self.key), rule: self.rule }
    }

    /// The state after `n` mixing steps.
    pub open spec fn advanced(self, n: nat) -> RandState
        decreases n,
    {
        if n == 0 {
            self
        } else {
            self.step().advanced((n - 1) as nat)
        }
    }
}

/// The first state of a source seeded with `seed` under the default mixer.
pub open spec fn seeded(seed: Seq<u8>) -> RandState {
    RandState { key: sha1_digest(seed), rule: rule_fn(ConfuseRuleDefault) }
}

/// The value of the first four bytes of `key`, least significant first.
pub open spec fn le_u32(key: Seq<u8>) -> int
    recommends
        key.len() >= 4,
{
    key[0] + key[1] * 0x100 + key[2] * 0x1_0000 + key[3] * 0x100_0000
}

/// The value of the first eight bytes of `key`, least significant first.
pub open spec fn le_u64(key: Seq<u8>) -> int
    recommends
        key.len() >= 8,
{
    le_u32(key) + 0x1_0000_0000 * (key[4] + key[5] * 0x100 + key[6] * 0x1_0000
        + key[7] * 0x100_0000)
}

/// `n` bytes read from `key` round and round, starting at its first byte.
pub open spec fn cycled(key: Seq<u8>, n: nat) -> Seq<u8>
    recommends
        key.len() > 0,
{
    Seq::new(n, |i: int| key[i % (key.len() as int)])
}

/// The eight bytes of `i` in two's complement, most significant first.
pub open spec fn be_bytes(i: i64) -> Seq<u8> {
    let u: int = if i >= 0 {
        i as int
    } else {
        i + 0x1_0000_0000_0000_0000
    };
    Seq::new(8, |k: int| ((u / pow256(7 - k)) % 256) as u8)
}

/// 256 to the power `k`, for the eight byte positions of a 64-bit value.
pub open spec fn pow256(k: int) -> int {
    if k <= 0 {
        1
    } else if k == 1 {
        0x100
    } else if k == 2 {
        0x1_0000
    } else if k == 3 {
        0x100_0000
    } else if k == 4 {
        0x1_0000_0000
    } else if k == 5 {
        0x100_0000_0000
    } else if k == 6 {
        0x1_0000_0000_0000
    } else {
        0x100_0000_0000_0000
    }
}

/// The deterministic byte source.
pub struct RuleRand<R: ConfuseRule = ConfuseRuleDefault> {
    key: Vec<u8>,
    confuse_rule: R,
}

impl<R: ConfuseRule> View for RuleRand<R> {
    type V = RandState;

    closed spec fn view(&self) -> RandState {
        RandState { key: self.key@, rule: rule_fn(self.confuse_rule) }
    }
}

impl RuleRand<ConfuseRuleDefault> {
    /// A source seeded with `key` under the default mixer.
    pub fn new(key: &[u8]) -> (r: Self)
        requires
            key@.len() < MAX_SEED_LEN,
        ensures
            r@ == seeded(key@),
    {
        RuleRandBuilder::new(key).build()
    }
}

impl<R: ConfuseRule> RuleRand<R> {
    #[verifier::type_invariant]
    spec fn well_formed(self) -> bool {
        self.key@.len() == DIGEST_LEN
    }

    /// The source whose first key buffer is the digest of `buf`.
    fn raw_new(buf: &Vec<u8>, confuse_rule: R) -> (r: Self)
        requires
            buf@.len() < MAX_SEED_LEN,
        ensures
            r@ == (RandState { key: sha1_digest(buf@), rule: rule_fn(confuse_rule) }),
    {
        let key = sha1(buf.as_slice());
        RuleRand { key, confuse_rule }
    }

    /// A source that takes up a stream at the key buffer `key`, which must
    /// hold [`DIGEST_LEN`] bytes.
    pub fn from_key(key: Vec<u8>, confuse_rule: R) -> (r: Result<Self, PassportError>)
        ensures
            match r {
                Ok(rng) => key@.len() == DIGEST_LEN && rng@ == (RandState {
                    key: key@,
                    rule: rule_fn(confuse_rule),
                }),
                Err(e) => key@.len() != DIGEST_LEN && e == PassportError::InvalidKeyLength,
            },
    {
        if key.len() != DIGEST_LEN {
            return Err(PassportError::InvalidKeyLength);
        }
        Ok(RuleRand { key, confuse_rule })
    }

    /// A copy of the key buffer as it stands.
    pub fn key(&self) -> (k: Vec<u8>)
        ensures
            k@ == self@.key,
            k@.len() == DIGEST_LEN,
    {
        proof {
            use_type_invariant(self);
        }
        self.key.clone()
    }

    /// One mixing step on the key buffer. The rule works on a copy, which
    /// then takes the place of the key, so the source never holds a buffer
    /// that is half mixed.
    fn confuse(&mut self)
        ensures
            final(self)@ == old(self)@.step(),
            final(self)@.key.len() == DIGEST_LEN,
    {
        proof {
            use_type_invariant(&*self);
        }
        let mut key = self.key.clone();
        let _ = self.confuse_rule.confuse(&mut key);
        self.key = key;
    }
}

/// The marker that key generation asks of its source. It is carried for that
/// call alone: the stream is predictable to whoever knows the seed.
impl<R: ConfuseRule> ::rand::CryptoRng for RuleRand<R> {

}

impl<R: ConfuseRule> ::rand::RngCore for RuleRand<R> {
    /// Mixes once, then reads the first four bytes of the key buffer, least
    /// significant first.
    fn next_u32(&mut self) -> (r: u32)
        ensures
            final(self)@ == old(self)@.step(),
            r == le_u32(final(self)@.key),
    {
        self.confuse();
        let k = &self.key;
        (k[0] as u32) + (k[1] as u32) * 0x100 + (k[2] as u32) * 0x1_0000
            + (k[3] as u32) * 0x100_0000
    }

    /// Mixes once, then reads the first eight bytes of the key buffer, least
    /// significant first.
    fn next_u64(&mut self) -> (r: u64)
        ensures
            final(self)@ == old(self)@.step(),
            r == le_u64(final(self)@.key),
    {
        self.confuse();
        let k = &self.key;
        let low: u64 = (k[0] as u64) + (k[1] as u64) * 0x100 + (k[2] as u64) * 0x1_0000
            + (k[3] as u64) * 0x100_0000;
        let high: u64 = (k[4] as u64) + (k[5] as u64) * 0x100 + (k[6] as u64) * 0x1_0000
            + (k[7] as u64) * 0x100_0000;
        low + high * 0x1_0000_0000
    }

    /// Mixes once, then fills `dest` from the key buffer, starting again at
    /// its first byte whenever its end is reached.
    fn fill_bytes(&mut self, dest: &mut [u8])
        ensures
            final(self)@ == old(self)@.step(),
            final(dest)@ == cycled(final(self)@.key, old(dest)@.len()),
    {
        self.confuse();
        let ghost total = dest@.len();
        let mut i: usize = 0;
        let mut j: usize = 0;
        while i < dest.len()
            invariant
                self.key@.len() == DIGEST_LEN,
                dest@.len() == total,
                i <= total,
                j <= DIGEST_LEN,
                j < DIGEST_LEN ==> j == i % DIGEST_LEN,
                j == DIGEST_LEN ==> i % DIGEST_LEN == 0,
                forall|k: int| 0 <= k < i ==> dest@[k] == self.key@[k % (DIGEST_LEN as int)],
            decreases total - i,
        {
            if j >= self.key.len() {
                j = 0;
            }
            dest[i] = self.key[j];
            i += 1;
            j += 1;
        }
        assert(dest@ =~= cycled(self@.key, total));
    }

    /// The same as `fill_bytes`; it never fails.
    fn try_fill_bytes(&mut self, dest: &mut [u8]) -> (r: Result<(), ::rand::Error>)
        ensures
            r is Ok,
            final(self)@ == old(self)@.step(),
            final(dest)@ == cycled(final(self)@.key, old(dest)@.len()),
    {
        self.fill_bytes(dest);
        Ok(())
    }
}

/// Collects the seed and the mixer of a [`RuleRand`].
pub struct RuleRandBuilder<R: ConfuseRule = ConfuseRuleDefault> {
    key: Vec<u8>,
    confuse_rule: R,
}

impl Default for RuleRandBuilder<ConfuseRuleDefault> {
    /// A builder with an empty seed and the default mixer.
    fn default() -> (b: Self)
        ensures
            b.seed() == Seq::<u8>::empty(),
            b.rule() == rule_fn(ConfuseRuleDefault),
    {
        RuleRandBuilder { key: Vec::new(), confuse_rule: ConfuseRuleDefault }
    }
}

impl RuleRandBuilder<ConfuseRuleDefault> {
    /// A builder with the seed `key` and the default mixer.
    pub fn new(key: &[u8]) -> (b: Self)
        ensures
            b.seed() == key@,
            b.rule() == rule_fn(ConfuseRuleDefault),
    {
        let mut seed: Vec<u8> = Vec::new();
        seed.extend_from_slice(key);
        RuleRandBuilder { key: seed, confuse_rule: ConfuseRuleDefault }
    }
}

impl<R: ConfuseRule> RuleRandBuilder<R> {
    /// The seed collected so far.
    pub closed spec fn seed(&self) -> Seq<u8> {
        self.key@
    }

    /// The mixer chosen so far, as a function on buffers.
    pub closed spec fn rule(&self) -> spec_fn(Seq<u8>) -> Seq<u8> {
        rule_fn(self.confuse_rule)
    }

    /// Replaces the seed by `buf`.
    pub fn reset(self, buf: Vec<u8>) -> (b: Self)
        ensures
            b.seed() == buf@,
            b.rule() == self.rule(),
    {
        RuleRandBuilder { key: buf, confuse_rule: self.confuse_rule }
    }

    /// Appends `buf` to the seed.
    pub fn confuse_key(self, buf: Vec<u8>) -> (b: Self)
        ensures
            b.seed() == self.seed() + buf@,
            b.rule() == self.rule(),
    {
        let mut key = self.key;
        let mut buf = buf;
        key.append(&mut buf);
        RuleRandBuilder { key, confuse_rule: self.confuse_rule }
    }

    /// Appends the eight bytes of `i`, most significant first, to the seed.
    pub fn confuse_key_i64(self, i: i64) -> (b: Self)
        ensures
            b.seed() == self.seed() + be_bytes(i),
            b.rule() == self.rule(),
    {
        let u: u64 = if i >= 0 {
            i as u64
        } else {
            (i - i64::MIN) as u64 + 0x8000_0000_0000_0000
        };
        let mut key = self.key;
        let ghost before = key@;
        key.push((u / 0x100_0000_0000_0000 % 256) as u8);
        key.push((u / 0x1_0000_0000_0000 % 256) as u8);
        key.push((u / 0x100_0000_0000 % 256) as u8);
        key.push((u / 0x1_0000_0000 % 256) as u8);
        key.push((u / 0x100_0000 % 256) as u8);
        key.push((u / 0x1_0000 % 256) as u8);
        key.push((u / 0x100 % 256) as u8);
        key.push((u % 256) as u8);
        assert(key@ =~= before + be_bytes(i));
        RuleRandBuilder { key, confuse_rule: self.confuse_rule }
    }

    /// Replaces the mixer by `rule`.
    pub fn confuse_rule<R2: ConfuseRule>(self, rule: R2) -> (b: RuleRandBuilder<R2>)
        ensures
            b.seed() == self.seed(),
            b.rule() == rule_fn(rule),
    {
        RuleRandBuilder { key: self.key, confuse_rule: rule }
    }

    /// The source whose first key buffer is the digest of the seed.
    pub fn build(self) -> (r: RuleRand<R>)
        requires
            self.seed().len() < MAX_SEED_LEN,
        ensures
            r@ == (RandState { key: sha1_digest(self.seed()), rule: self.rule() }),
    {
        RuleRand::raw_new(&self.key, self.confuse_rule)
    }
}

} // verus!
