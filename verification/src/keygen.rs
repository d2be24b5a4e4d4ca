//! The search for a key pair: primes are drawn from a byte source, one
//! candidate for every draw, until two of them make a key of the size asked
//! for or the draws are used up.
//!
//! The search is the one of the `rsa` crate, candidate for candidate, so a
//! seed gives the key pair here that it gives there. What is its own is the
//! end: after [`MAX_DRAWS`] draws the search gives up, where a stream that
//! runs in a circle would keep the other one busy for ever.

use vstd::prelude::*;
use crate::confuse::ConfuseRule;
use crate::primitive::{
    be_value,
    big_add,
    big_bits,
    big_equal,
    big_less_one,
    big_mul,
    big_residue,
    bit_len,
    inverse_mod,
    pair_numbers,
    private_exponent,
    probable_prime,
    probably_prime,
};
use crate::rule_rand::{cycled, RandState, RuleRand};

verus! {

/// The public exponent of every key pair.
pub const PUBLIC_EXPONENT: u64 = 65537;

/// The most candidates that are drawn for one key pair.
pub const MAX_DRAWS: usize = 65536;

/// The rounds of the primality test.
pub const PRIME_ROUNDS: usize = 20;

/// The smallest key: below it there are too few primes to choose from.
pub const MIN_BIT_SIZE: usize = 12;

/// The product of the odd primes up to 53.
pub const SMALL_PRIMES_PRODUCT: u64 = 16_294_579_238_595_022_365;

/// How far past a candidate the next number free of small factors is sought.
pub const SCAN_LIMIT: u64 = 1_048_576;

/// The number of bytes that hold `bits` bits.
pub open spec fn byte_len(bits: nat) -> nat {
    (bits + 7) / 8
}

/// The number of bits in the first byte of a number of `bits` bits.
pub open spec fn top_bits(bits: nat) -> nat {
    if bits % 8 == 0 {
        8
    } else {
        bits % 8
    }
}

/// Two to the power `k`, for the bits of a byte.
pub open spec fn pow2_small(k: nat) -> nat {
    if k == 0 {
        1
    } else if k == 1 {
        2
    } else if k == 2 {
        4
    } else if k == 3 {
        8
    } else if k == 4 {
        16
    } else if k == 5 {
        32
    } else {
        64
    }
}

/// The drawn bytes `raw` made into a candidate of exactly `bits` bits: the
/// bits above the size are cleared, the two highest bits of the size are set,
/// and the number is made odd.
pub open spec fn shaped(raw: Seq<u8>, bits: nat) -> Seq<u8>
    recommends
        bits >= 2,
        raw.len() == byte_len(bits),
{
    let b = top_bits(bits);
    let first = if b >= 2 {
        (raw[0] as nat % pow2_small((b - 2) as nat) + 3 * pow2_small((b - 2) as nat)) as u8
    } else {
        1u8
    };
    let lead = raw.update(0, first);
    let high = if b == 1 && raw.len() > 1 {
        lead.update(1, (lead[1] as nat % 128 + 128) as u8)
    } else {
        lead
    };
    let last = high.len() - 1;
    high.update(last, ((high[last] as nat / 2) * 2 + 1) as u8)
}

/// Whether `prime` keeps `m` from being a candidate: it divides `m`, and `m`
/// is not that prime itself as a candidate of six bits or fewer.
pub open spec fn blocked(m: nat, prime: nat, bits: nat) -> bool {
    m % prime == 0 && (bits > 6 || m != prime)
}

/// Whether one of the odd primes up to 53 keeps `m` from being a candidate.
pub open spec fn sieved_out(m: nat, bits: nat) -> bool {
    ||| blocked(m, 3, bits)
    ||| blocked(m, 5, bits)
    ||| blocked(m, 7, bits)
    ||| blocked(m, 11, bits)
    ||| blocked(m, 13, bits)
    ||| blocked(m, 17, bits)
    ||| blocked(m, 19, bits)
    ||| blocked(m, 23, bits)
    ||| blocked(m, 29, bits)
    ||| blocked(m, 31, bits)
    ||| blocked(m, 37, bits)
    ||| blocked(m, 41, bits)
    ||| blocked(m, 43, bits)
    ||| blocked(m, 47, bits)
    ||| blocked(m, 53, bits)
}

/// The first even step from `delta` on, below [`SCAN_LIMIT`], that takes the
/// residue `rest` to a number that is not sieved out.
pub open spec fn scan(rest: nat, bits: nat, delta: nat) -> Option<nat>
    decreases 1_048_578 - delta,
{
    if delta >= 1_048_576 {
        None
    } else if !sieved_out(rest + delta, bits) {
        Some(delta)
    } else {
        scan(rest, bits, delta + 2)
    }
}

/// The candidate that is made of the drawn bytes `raw`: the shaped number,
/// moved on to the next number free of small factors where there is one.
#[verifier::opaque]
pub open spec fn candidate(raw: Seq<u8>, bits: nat) -> nat {
    let start = be_value(shaped(raw, bits));
    match scan(start % (SMALL_PRIMES_PRODUCT as nat), bits, 0) {
        Some(delta) => start + delta,
        None => start,
    }
}

/// Whether a candidate is taken for a prime of `bits` bits.
pub open spec fn accepted(c: nat, bits: nat) -> bool {
    bit_len(c) == bits && probable_prime(c, PRIME_ROUNDS as nat)
}

/// How a search for a prime ends: the prime, if one was found, the state in
/// which the source is left, and the draws that are left.
pub struct PrimeSearch {
    pub prime: Option<nat>,
    pub state: RandState,
    pub draws: nat,
}

/// The search for a prime of `bits` bits from a source in `state` with
/// `draws` draws to spend: every draw mixes once and fills the bytes of one
/// candidate.
pub open spec fn find_prime(state: RandState, bits: nat, draws: nat) -> PrimeSearch
    decreases draws,
{
    if draws == 0 {
        PrimeSearch { prime: None, state, draws: 0 }
    } else {
        let next = state.step();
        let c = candidate(cycled(next.key, byte_len(bits)), bits);
        if accepted(c, bits) {
            PrimeSearch { prime: Some(c), state: next, draws: (draws - 1) as nat }
        } else {
            find_prime(next, bits, (draws - 1) as nat)
        }
    }
}

/// Whether two primes make a key pair of `bit_size` bits: they differ, their
/// product has exactly that many bits, and the public exponent has an
/// inverse modulo the product of each prime less one.
#[verifier::opaque]
pub open spec fn fits(p: nat, q: nat, bit_size: nat) -> bool {
    &&& p != q
    &&& bit_len(p * q) == bit_size
    &&& inverse_mod(PUBLIC_EXPONENT as nat, ((p - 1) * (q - 1)) as nat) is Some
}

/// The numbers of the key pair that two fitting primes make: modulus, public
/// exponent, private exponent and the primes.
pub open spec fn key_of(p: nat, q: nat) -> Seq<nat> {
    pair_numbers(
        p,
        q,
        inverse_mod(PUBLIC_EXPONENT as nat, ((p - 1) * (q - 1)) as nat).unwrap(),
        PUBLIC_EXPONENT as nat,
    )
}

/// How a search for a key pair ends: the numbers of the key pair, if one was
/// found, the state in which the source is left, and the draws that are
/// left.
pub struct KeySearch {
    pub numbers: Option<Seq<nat>>,
    pub state: RandState,
    pub draws: nat,
}

/// The search for a key pair of `bit_size` bits: a prime of half the bits,
/// then one of the other half, again and again until the two fit or the
/// draws are used up.
pub open spec fn find_pair(state: RandState, bit_size: nat, draws: nat) -> KeySearch
    decreases draws,
{
    let first = find_prime(state, bit_size / 2, draws);
    match first.prime {
        None => KeySearch { numbers: None, state: first.state, draws: first.draws },
        Some(p) => {
            let second = find_prime(first.state, (bit_size - bit_size / 2) as nat, first.draws);
            match second.prime {
                None => KeySearch { numbers: None, state: second.state, draws: second.draws },
                Some(q) => {
                    if fits(p, q, bit_size) {
                        KeySearch {
                            numbers: Some(key_of(p, q)),
                            state: second.state,
                            draws: second.draws,
                        }
                    } else if second.draws < draws {
                        find_pair(second.state, bit_size, second.draws)
                    } else {
                        KeySearch { numbers: None, state: second.state, draws: second.draws }
                    }
                },
            }
        },
    }
}

/// Key generation from a source in `state`: no key pair below
/// [`MIN_BIT_SIZE`] bits, and else the search with [`MAX_DRAWS`] draws.
pub open spec fn generation(state: RandState, bit_size: usize) -> KeySearch {
    if bit_size < MIN_BIT_SIZE {
        KeySearch { numbers: None, state, draws: MAX_DRAWS as nat }
    } else {
        find_pair(state, bit_size as nat, MAX_DRAWS as nat)
    }
}

/// A search for a prime never gains draws, and spends at least one where it
/// finds a prime.
pub proof fn lemma_find_prime_spends(state: RandState, bits: nat, draws: nat)
    ensures
        find_prime(state, bits, draws).draws <= draws,
        find_prime(state, bits, draws).prime is Some ==> find_prime(state, bits, draws).draws
            < draws,
        find_prime(state, bits, draws).prime matches Some(p) ==> accepted(p, bits),
    decreases draws,
{
    if draws > 0 {
        lemma_find_prime_spends(state.step(), bits, (draws - 1) as nat);
    }
}

/// A key pair that a search finds is made of two fitting numbers that the
/// search took for primes of half the bits each: its modulus is their
/// product and has the bits asked for, its public exponent is
/// [`PUBLIC_EXPONENT`], and its private exponent is the inverse of that.
pub proof fn lemma_found_pair(state: RandState, bit_size: nat, draws: nat)
    ensures
        find_pair(state, bit_size, draws).numbers matches Some(numbers) ==> numbers.len() == 5
            && bit_len(numbers[0]) == bit_size && numbers[1] == PUBLIC_EXPONENT && numbers[3]
            != numbers[4] && numbers[0] == numbers[3] * numbers[4] && inverse_mod(
            numbers[1],
            ((numbers[3] - 1) * (numbers[4] - 1)) as nat,
        ) == Some(numbers[2]) && accepted(numbers[3], bit_size / 2) && accepted(
            numbers[4],
            (bit_size - bit_size / 2) as nat,
        ),
    decreases draws,
{
    let first = find_prime(state, bit_size / 2, draws);
    lemma_find_prime_spends(state, bit_size / 2, draws);
    if first.prime is Some {
        let second = find_prime(first.state, (bit_size - bit_size / 2) as nat, first.draws);
        lemma_find_prime_spends(first.state, (bit_size - bit_size / 2) as nat, first.draws);
        if second.prime is Some {
            let p = first.prime.unwrap();
            let q = second.prime.unwrap();
            reveal(fits);
            if !fits(p, q, bit_size) && second.draws < draws {
                lemma_found_pair(second.state, bit_size, second.draws);
            }
        }
    }
}

/// A number of three bits or more is four or more.
pub proof fn lemma_three_bits(n: nat)
    requires
        bit_len(n) >= 3,
    ensures
        n >= 4,
{
    reveal_with_fuel(bit_len, 4);
}

/// Zero and one have fewer than two bits.
pub proof fn lemma_two_bits(n: nat)
    requires
        bit_len(n) >= 2,
    ensures
        n >= 2,
{
    reveal_with_fuel(bit_len, 3);
}

/// Two to the power `k`, for `k` up to six.
fn small_pow2(k: usize) -> (r: u8)
    requires
        k <= 6,
    ensures
        r == pow2_small(k as nat),
        1 <= r <= 64,
{
    if k == 0 {
        1
    } else if k == 1 {
        2
    } else if k == 2 {
        4
    } else if k == 3 {
        8
    } else if k == 4 {
        16
    } else if k == 5 {
        32
    } else {
        64
    }
}

/// Makes the drawn bytes into a candidate of exactly `bits` bits.
fn shape(bytes: &mut Vec<u8>, bits: usize)
    requires
        bits >= 2,
        old(bytes)@.len() == byte_len(bits as nat),
    ensures
        final(bytes)@ == shaped(old(bytes)@, bits as nat),
{
    let b: usize = if bits % 8 == 0 {
        8
    } else {
        bits % 8
    };
    if b >= 2 {
        let unit: u8 = small_pow2(b - 2);
        let first: u8 = bytes[0] % unit + 3 * unit;
        bytes[0] = first;
    } else {
        bytes[0] = 1;
        if bytes.len() > 1 {
            let second: u8 = bytes[1] % 128 + 128;
            bytes[1] = second;
        }
    }
    let last: usize = bytes.len() - 1;
    let odd: u8 = (bytes[last] / 2) * 2 + 1;
    bytes[last] = odd;
}

/// Whether one of the odd primes up to 53 keeps `m` from being a candidate.
fn is_sieved_out(m: u64, bits: usize) -> (r: bool)
    ensures
        r == sieved_out(m as nat, bits as nat),
{
    let wide: bool = bits > 6;
    (m % 3 == 0 && (wide || m != 3)) || (m % 5 == 0 && (wide || m != 5)) || (m % 7 == 0 && (wide
        || m != 7)) || (m % 11 == 0 && (wide || m != 11)) || (m % 13 == 0 && (wide || m != 13))
        || (m % 17 == 0 && (wide || m != 17)) || (m % 19 == 0 && (wide || m != 19)) || (m % 23
        == 0 && (wide || m != 23)) || (m % 29 == 0 && (wide || m != 29)) || (m % 31 == 0 && (wide
        || m != 31)) || (m % 37 == 0 && (wide || m != 37)) || (m % 41 == 0 && (wide || m != 41))
        || (m % 43 == 0 && (wide || m != 43)) || (m % 47 == 0 && (wide || m != 47)) || (m % 53
        == 0 && (wide || m != 53))
}

/// The first even step that takes the residue `rest` to a number that is not
/// sieved out.
fn first_step(rest: u64, bits: usize) -> (r: Option<u64>)
    requires
        rest < SMALL_PRIMES_PRODUCT,
    ensures
        match r {
            Some(delta) => scan(rest as nat, bits as nat, 0) == Some(delta as nat) && delta
                < SCAN_LIMIT,
            None => scan(rest as nat, bits as nat, 0) is None,
        },
{
    let mut delta: u64 = 0;
    while delta < SCAN_LIMIT
        invariant
            rest < SMALL_PRIMES_PRODUCT,
            delta <= SCAN_LIMIT + 1,
            scan(rest as nat, bits as nat, 0) == scan(rest as nat, bits as nat, delta as nat),
        decreases SCAN_LIMIT + 2 - delta,
    {
        if !is_sieved_out(rest + delta, bits) {
            return Some(delta);
        }
        delta = delta + 2;
    }
    None
}

/// Makes the candidate of the drawn bytes.
fn make_candidate(bytes: Vec<u8>, bits: usize) -> (found: Vec<u8>)
    requires
        bits >= 2,
        bytes@.len() == byte_len(bits as nat),
    ensures
        be_value(found@) == candidate(bytes@, bits as nat),
{
    reveal(candidate);
    let mut bytes = bytes;
    shape(&mut bytes, bits);
    let rest = big_residue(bytes.as_slice(), SMALL_PRIMES_PRODUCT);
    match first_step(rest, bits) {
        Some(delta) => big_add(bytes.as_slice(), delta),
        None => bytes,
    }
}

/// Whether the primes `p` and `q` make a key pair of `bit_size` bits, and if
/// so, its modulus and its private exponent.
fn fit(p: &Vec<u8>, q: &Vec<u8>, bit_size: usize) -> (r: Option<(Vec<u8>, Vec<u8>)>)
    requires
        be_value(p@) >= 1,
        be_value(q@) >= 1,
    ensures
        r is Some <==> fits(be_value(p@), be_value(q@), bit_size as nat),
        r matches Some((n, d)) ==> key_of(be_value(p@), be_value(q@)) == pair_numbers(
            be_value(p@),
            be_value(q@),
            be_value(d@),
            PUBLIC_EXPONENT as nat,
        ) && be_value(n@) == be_value(p@) * be_value(q@) && bit_len(be_value(n@)) == bit_size,
{
    reveal(fits);
    if big_equal(p.as_slice(), q.as_slice()) {
        return None;
    }
    let n = big_mul(p.as_slice(), q.as_slice());
    if big_bits(n.as_slice()) != bit_size {
        return None;
    }
    let p_less = big_less_one(p.as_slice());
    let q_less = big_less_one(q.as_slice());
    let totient = big_mul(p_less.as_slice(), q_less.as_slice());
    match private_exponent(PUBLIC_EXPONENT, totient.as_slice()) {
        Some(d) => Some((n, d)),
        None => None,
    }
}

/// Draws candidates of `bits` bits from `rng` until one is taken for a prime
/// or `draws` draws are spent. Returns the prime, if one was found, and the
/// draws that are left.
pub fn draw_prime<R: ConfuseRule>(rng: &mut RuleRand<R>, bits: usize, draws: usize) -> (r: (
    Option<Vec<u8>>,
    usize,
))
    requires
        bits >= 2,
    ensures
        final(rng)@ == find_prime(old(rng)@, bits as nat, draws as nat).state,
        r.1 == find_prime(old(rng)@, bits as nat, draws as nat).draws,
        match r.0 {
            Some(prime) => find_prime(old(rng)@, bits as nat, draws as nat).prime == Some(
                be_value(prime@),
            ),
            None => find_prime(old(rng)@, bits as nat, draws as nat).prime is None,
        },
{
    let ghost start = rng@;
    let len: usize = bits / 8 + if bits % 8 == 0 {
        0
    } else {
        1
    };
    let mut left: usize = draws;
    while left > 0
        invariant
            bits >= 2,
            len == byte_len(bits as nat),
            start == old(rng)@,
            find_prime(start, bits as nat, draws as nat) == find_prime(
                rng@,
                bits as nat,
                left as nat,
            ),
        decreases left,
    {
        let mut bytes: Vec<u8> = vec![0u8; len];
        ::rand::RngCore::fill_bytes(rng, bytes.as_mut_slice());
        let found = make_candidate(bytes, bits);
        left = left - 1;
        if big_bits(found.as_slice()) == bits && probably_prime(found.as_slice(), PRIME_ROUNDS) {
            return (Some(found), left);
        }
    }
    (None, left)
}

/// Searches for a key pair of `bit_size` bits with the draws of
/// [`MAX_DRAWS`]. Returns the modulus, the two primes and the private
/// exponent, as bytes, or `None` where the size is below [`MIN_BIT_SIZE`] or
/// the draws are used up.
pub fn generate<R: ConfuseRule>(rng: &mut RuleRand<R>, bit_size: usize) -> (r: Option<
    (Vec<u8>, Vec<u8>, Vec<u8>, Vec<u8>),
>)
    ensures
        final(rng)@ == generation(old(rng)@, bit_size).state,
        match r {
            Some((n, p, q, d)) => generation(old(rng)@, bit_size).numbers == Some(
                pair_numbers(be_value(p@), be_value(q@), be_value(d@), PUBLIC_EXPONENT as nat),
            ) && be_value(p@) >= 2 && be_value(q@) >= 2 && be_value(n@) == be_value(p@)
                * be_value(q@) && bit_len(be_value(n@)) == bit_size,
            None => generation(old(rng)@, bit_size).numbers is None,
        },
{
    if bit_size < MIN_BIT_SIZE {
        return None;
    }
    let ghost start = rng@;
    let half: usize = bit_size / 2;
    let mut left: usize = MAX_DRAWS;
    loop
        invariant
            bit_size >= MIN_BIT_SIZE,
            half == bit_size / 2,
            start == old(rng)@,
            find_pair(start, bit_size as nat, MAX_DRAWS as nat) == find_pair(
                rng@,
                bit_size as nat,
                left as nat,
            ),
        decreases left,
    {
        let ghost before = rng@;
        let ghost budget = left;
        proof {
            lemma_find_prime_spends(before, half as nat, left as nat);
        }
        let (first, after_first) = draw_prime(rng, half, left);
        let p = match first {
            Some(p) => p,
            None => {
                return None;
            },
        };
        let ghost middle = rng@;
        proof {
            lemma_find_prime_spends(middle, (bit_size - half) as nat, after_first as nat);
        }
        let (second, after_second) = draw_prime(rng, bit_size - half, after_first);
        let q = match second {
            Some(q) => q,
            None => {
                return None;
            },
        };
        proof {
            lemma_two_bits(be_value(p@));
            lemma_two_bits(be_value(q@));
        }
        match fit(&p, &q, bit_size) {
            Some((n, d)) => {
                return Some((n, p, q, d));
            },
            None => {},
        }
        left = after_second;
    }
}

} // verus!
