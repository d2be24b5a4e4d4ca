use rand::RngCore;
use rsa::pkcs1::{EncodeRsaPrivateKey, LineEnding};
use rsa::RsaPrivateKey;
use wd_passport::{ConfuseRule, ConfuseRuleDefault, PassportError, RuleRand, RuleRandBuilder};

const HELLO_DIGEST: [u8; 20] = [
    42, 174, 108, 53, 201, 79, 207, 180, 21, 219, 233, 95, 64, 139, 156, 233, 30, 232, 70, 237,
];

#[test]
fn test_rule_rand_generate() {
    let mut rng = RuleRandBuilder::new("hello world".as_bytes()).confuse_key_i64(123456).build();

    let bits = 2048;
    let private_key = RsaPrivateKey::new(&mut rng, bits).expect("failed to generate a key");
    let s = private_key.to_pkcs1_pem(LineEnding::default()).expect("generate pem bytes error");
    println!("{}", s.as_str());
}

#[test]
fn first_key_is_the_digest_of_the_seed() {
    let rng = RuleRand::new("hello world".as_bytes());
    assert_eq!(rng.key(), HELLO_DIGEST.to_vec());
    let empty = RuleRand::new(&[]);
    assert_eq!(
        empty.key(),
        vec![218, 57, 163, 238, 94, 107, 75, 13, 50, 85, 191, 239, 149, 96, 24, 144, 175, 216, 7, 9]
    );
}

#[test]
fn builder_appends_to_the_seed() {
    let rng = RuleRandBuilder::new("abc".as_bytes()).confuse_key("def".as_bytes().to_vec()).build();
    assert_eq!(
        rng.key(),
        vec![31, 138, 193, 15, 35, 197, 181, 188, 17, 103, 189, 168, 75, 131, 62, 92, 5, 122, 119, 210]
    );
    let reset = RuleRandBuilder::new("zzz".as_bytes()).reset("hello world".as_bytes().to_vec()).build();
    assert_eq!(reset.key(), HELLO_DIGEST.to_vec());
}

#[test]
fn builder_appends_numbers_most_significant_byte_first() {
    let rng = RuleRandBuilder::new("hello world".as_bytes()).confuse_key_i64(123456).build();
    assert_eq!(
        rng.key(),
        vec![157, 234, 143, 203, 154, 68, 163, 167, 202, 5, 18, 25, 226, 158, 221, 128, 5, 51, 4, 224]
    );
    let by_hand = RuleRandBuilder::new("hello world".as_bytes())
        .confuse_key(vec![0, 0, 0, 0, 0, 1, 226, 64])
        .build();
    assert_eq!(rng.key(), by_hand.key());
}

#[test]
fn builder_appends_negative_numbers_in_twos_complement() {
    let rng = RuleRandBuilder::new(&[]).confuse_key_i64(-2).build();
    assert_eq!(
        rng.key(),
        vec![66, 191, 186, 52, 202, 193, 87, 20, 192, 54, 244, 137, 198, 63, 53, 121, 4, 55, 24, 229]
    );
    let lowest = RuleRandBuilder::new(&[]).confuse_key_i64(i64::MIN).build();
    let by_hand = RuleRandBuilder::new(&[]).confuse_key(vec![128, 0, 0, 0, 0, 0, 0, 0]).build();
    assert_eq!(lowest.key(), by_hand.key());
}

#[test]
fn default_builder_has_an_empty_seed() {
    let rng = RuleRandBuilder::default().build();
    assert_eq!(rng.key(), RuleRand::new(&[]).key());
}

#[test]
fn draws_mix_once_and_read_from_the_front() {
    let mut rng = RuleRand::new("hello world".as_bytes());
    assert_eq!(rng.next_u32(), 1815030296);
    assert_eq!(
        rng.key(),
        vec![24, 42, 47, 108, 8, 201, 40, 207, 160, 21, 197, 233, 202, 64, 31, 156, 255, 30, 27, 70]
    );
    assert_eq!(rng.next_u64(), 2909334826181597279);
    let mut dest = vec![0u8; 45];
    rng.fill_bytes(&mut dest);
    let key = vec![
        123u8, 95, 90, 58, 149, 156, 189, 96, 54, 180, 124, 219, 221, 112, 105, 242, 204, 117, 83, 90,
    ];
    assert_eq!(rng.key(), key);
    for (i, byte) in dest.iter().enumerate() {
        assert_eq!(*byte, key[i % 20]);
    }
}

#[test]
fn fallible_fill_mixes_once() {
    let mut plain = RuleRand::new("hello world".as_bytes());
    let mut checked = RuleRand::new("hello world".as_bytes());
    let mut a = vec![0u8; 7];
    let mut b = vec![0u8; 7];
    plain.fill_bytes(&mut a);
    assert!(checked.try_fill_bytes(&mut b).is_ok());
    assert_eq!(a, b);
    assert_eq!(a, vec![24, 42, 47, 108, 8, 201, 40]);
    assert_eq!(plain.key(), checked.key());
}

#[test]
fn empty_destination_still_mixes() {
    let mut rng = RuleRand::new("hello world".as_bytes());
    let mut dest: Vec<u8> = Vec::new();
    rng.fill_bytes(&mut dest);
    assert_eq!(rng.key()[0], 24);
}

#[test]
fn same_seed_gives_the_same_stream() {
    let mut first = RuleRand::new("seed".as_bytes());
    let mut second = RuleRand::new("seed".as_bytes());
    for _ in 0..50 {
        assert_eq!(first.next_u64(), second.next_u64());
    }
    let mut other = RuleRand::new("seee".as_bytes());
    assert_ne!(first.next_u64(), other.next_u64());
}

struct Reverse;

impl ConfuseRule for Reverse {
    fn mixed(&self, _buf: vstd::seq::Seq<u8>) -> vstd::seq::Seq<u8> {
        unreachable!()
    }

    fn confuse(&self, buf: &mut Vec<u8>) -> Result<(), PassportError> {
        if buf.len() < 2 {
            return Err(PassportError::InvalidKeyLength);
        }
        buf.reverse();
        Ok(())
    }
}

#[test]
fn another_mixer_can_be_put_in() {
    let mut rng = RuleRandBuilder::new("hello world".as_bytes()).confuse_rule(Reverse).build();
    let mut dest = vec![0u8; 3];
    rng.fill_bytes(&mut dest);
    assert_eq!(dest, vec![237, 70, 232]);
    assert_eq!(rng.next_u32(), u32::from_le_bytes([42, 174, 108, 53]));
}

#[test]
fn a_stream_can_be_taken_up_at_a_key() {
    let key: Vec<u8> = (1..=20).collect();
    let mut rng = RuleRand::from_key(key.clone(), ConfuseRuleDefault).expect("twenty bytes");
    assert_eq!(rng.key(), key);
    // one step: even places take the mirrored sums, odd places the byte to their left
    assert_eq!(rng.next_u32(), u32::from_le_bytes([22, 1, 38, 3]));
    assert_eq!(
        rng.key(),
        vec![22, 1, 38, 3, 34, 5, 30, 7, 26, 9, 22, 11, 18, 13, 14, 15, 10, 17, 6, 19]
    );

    let mut seeded = RuleRand::new("hello world".as_bytes());
    let mut resumed = RuleRand::from_key(seeded.key(), ConfuseRuleDefault).expect("twenty bytes");
    assert_eq!(seeded.next_u64(), resumed.next_u64());

    assert!(matches!(
        RuleRand::from_key(vec![1, 2, 3], ConfuseRuleDefault),
        Err(PassportError::InvalidKeyLength)
    ));
    assert!(matches!(
        RuleRand::from_key(vec![0; 21], ConfuseRuleDefault),
        Err(PassportError::InvalidKeyLength)
    ));
}
