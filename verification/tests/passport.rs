use chrono::{TimeZone, Utc};
use wd_passport::bucket::resolve;
use wd_passport::{
    Base64StdDecode, Base64StdEncode, PassportEntity, PassportError,
    RsaEntityBuilder,
};

const DAY: i64 = 60 * 60 * 24;
const START_2023: i64 = 1675728000;
const END_2024: i64 = 1707177600;

fn year_store(bit_size: usize) -> PassportEntity {
    PassportEntity::new("hello world".as_bytes(), START_2023, END_2024, 30 * DAY, bit_size)
        .expect("store of one year")
}

fn small_store() -> PassportEntity {
    PassportEntity::new("hello world".as_bytes(), 1005, 1030, 10, 512).expect("small store")
}

#[test]
fn test_entity_new() {
    let start = Utc::now();
    let end = Utc
        .with_ymd_and_hms(2033, 2, 6, 0, 0, 0)
        .single()
        .expect("end of the window");
    let interval = 60 * 60 * 24 * 30;
    let start_generate = std::time::Instant::now();
    // keys of 512 bits: a store of this window takes minutes at 2048
    let _entity = PassportEntity::new(
        "hello world".as_bytes(),
        start.timestamp(),
        end.timestamp(),
        interval,
        512,
    )
    .expect("ten years of credentials");
    let end_generate = start_generate.elapsed();
    println!(
        "seconds to generate ten years of credentials, one every 30 days: {}",
        end_generate.as_secs()
    )
}

#[test]
fn test_sign_verify() {
    let interval = 60 * 60 * 24 * 30;
    let entity = PassportEntity::new("hello world".as_bytes(), START_2023, END_2024, interval, 1024)
        .expect("one year of credentials");

    let data = "hello world";
    let sign_raw = entity.sign_sha256(data.as_bytes(), 1678377600).expect("sign");
    let sign = (&sign_raw).base64().expect("base64 encode");
    println!("signature in base64: len:{} --->{}", sign.len(), sign);
    let result = (&sign).try_decode_base64().expect("base64 decode");
    assert_eq!(sign_raw, result, "base64 text does not decode to the signature");
    entity
        .verify_sha256(data.as_bytes(), result.as_slice(), 1678377600)
        .expect("rsa signature verification");
    println!("success");
}

#[test]
fn one_year_every_thirty_days() {
    let store = year_store(1024);
    // thirteen buckets begin within the window; the fourteenth is the one of slack past its end
    assert_eq!(store.len(), 14);
    assert_eq!(store.interval(), 30 * DAY);
    let data = "hello world".as_bytes();
    let signed_at = 1678377600;
    let signature = store.sign_sha256(data, signed_at).expect("sign");
    assert_eq!(store.verify_sha256(data, &signature, signed_at), Ok(()));

    // any timestamp of the same bucket is served by the same credential
    let bucket = resolve(signed_at, 30 * DAY).expect("bucket");
    assert_eq!(bucket, 1677024000);
    assert_eq!(store.verify_sha256(data, &signature, bucket), Ok(()));
    assert_eq!(store.verify_sha256(data, &signature, bucket + 30 * DAY - 1), Ok(()));

    // the neighbours have keys of their own
    assert_eq!(
        store.verify_sha256(data, &signature, bucket + 30 * DAY),
        Err(PassportError::SignatureInvalid)
    );
    assert_eq!(
        store.verify_sha256(data, &signature, bucket - 1),
        Err(PassportError::SignatureInvalid)
    );
}

#[test]
fn start_and_end_are_covered() {
    let store = year_store(512);
    assert!(store.get_rsa_entity(START_2023).is_some());
    assert!(store.get_rsa_entity(END_2024).is_some());
    let small = small_store();
    // buckets 1000, 1010, 1020 and, past the end, 1030
    assert_eq!(small.len(), 4);
    assert!(small.get_rsa_entity(1005).is_some());
    assert!(small.get_rsa_entity(1030).is_some());
    assert!(small.get_rsa_entity(1000).is_some());
    assert!(small.get_rsa_entity(1039).is_some());
}

#[test]
fn end_needs_the_bucket_of_slack() {
    // start 5, end 10: the bucket of 10 is the second one
    let store = PassportEntity::new("k".as_bytes(), 5, 10, 10, 512).expect("store");
    assert_eq!(store.len(), 2);
    assert!(store.get_rsa_entity(5).is_some());
    assert!(store.get_rsa_entity(10).is_some());
    assert!(store.get_rsa_entity(19).is_some());
    assert!(store.get_rsa_entity(20).is_none());
}

#[test]
fn outside_the_buckets_is_out_of_range() {
    let store = small_store();
    let data = "x".as_bytes();
    for t in [999i64, 1040, 0, -1, i64::MIN, i64::MAX, 1] {
        assert!(store.get_rsa_entity(t).is_none());
        assert_eq!(store.sign_sha256(data, t), Err(PassportError::TimestampOutOfRange));
        assert_eq!(store.verify_sha256(data, data, t), Err(PassportError::TimestampOutOfRange));
        assert_eq!(store.encrypt(data, t), Err(PassportError::TimestampOutOfRange));
        assert_eq!(store.decrypt(data, t), Err(PassportError::TimestampOutOfRange));
    }
}

#[test]
fn year_store_range_limits() {
    let store = year_store(512);
    let data = "hello world".as_bytes();
    assert_eq!(store.sign_sha256(data, 1), Err(PassportError::TimestampOutOfRange));
    assert_eq!(store.sign_sha256(data, 5607792000), Err(PassportError::TimestampOutOfRange));
    assert_eq!(store.sign_sha256(data, 1674432000 - 1), Err(PassportError::TimestampOutOfRange));
    assert!(store.sign_sha256(data, 1674432000).is_ok());
    assert!(store.sign_sha256(data, 1708128000 + 30 * DAY - 1).is_ok());
    assert_eq!(
        store.sign_sha256(data, 1708128000 + 30 * DAY),
        Err(PassportError::TimestampOutOfRange)
    );
}

#[test]
fn encrypt_and_decrypt_within_a_bucket() {
    let store = small_store();
    let data = "test data".as_bytes();
    let cipher = store.encrypt(data, 1012).expect("encrypt");
    assert_eq!(cipher.len(), 64);
    assert_ne!(cipher.as_slice(), data);
    assert_eq!(store.decrypt(&cipher, 1012), Ok(data.to_vec()));
    assert_eq!(store.decrypt(&cipher, 1019), Ok(data.to_vec()));
    assert_eq!(store.decrypt(&cipher, 1020), Err(PassportError::DecryptionFailed));
    let too_long = vec![7u8; 54];
    assert_eq!(store.encrypt(&too_long, 1012), Err(PassportError::EncryptionFailed));
    assert!(store.encrypt(&too_long[..53], 1012).is_ok());
}

#[test]
fn public_pem_is_listed_by_ascending_bucket() {
    let store = small_store();
    let list = store.to_public_pem();
    let ids: Vec<i64> = list.iter().map(|item| item.0).collect();
    assert_eq!(ids, vec![1000, 1010, 1020, 1030]);
    for (id, pem) in list.iter() {
        assert!(pem.starts_with("-----BEGIN RSA PUBLIC KEY-----\n"));
        assert!(pem.ends_with("-----END RSA PUBLIC KEY-----\n"));
        let entity = store.get_rsa_entity(*id).expect("bucket of the list");
        assert_eq!(entity.write_public_pem().as_ref(), Ok(pem));
    }
    let printed = PassportEntity::print_public_pem("hello world".as_bytes(), 1005, 1030, 10, 512);
    assert_eq!(printed, Ok(list));
}

#[test]
fn credentials_are_derived_from_seed_and_bucket() {
    let store = small_store();
    let again = small_store();
    let other_seed = PassportEntity::new("hello worle".as_bytes(), 1005, 1030, 10, 512).expect("store");
    for bucket in [1000i64, 1010, 1020, 1030] {
        let here = store.get_rsa_entity(bucket).expect("bucket").generate_private_pkcs1_pem();
        let there = again.get_rsa_entity(bucket + 3).expect("bucket").generate_private_pkcs1_pem();
        assert!(here.is_ok());
        assert_eq!(here, there);
        let alone = RsaEntityBuilder::new("hello world".as_bytes())
            .set_bit_size(512)
            .set_confuse_number(bucket)
            .build_pkcs15()
            .expect("credential")
            .generate_private_pkcs1_pem();
        assert_eq!(here, alone);
        let other = other_seed.get_rsa_entity(bucket).expect("bucket").generate_private_pkcs1_pem();
        assert_ne!(here, other);
    }
    let first = store.get_rsa_entity(1000).expect("bucket").generate_private_pkcs1_pem();
    let second = store.get_rsa_entity(1010).expect("bucket").generate_private_pkcs1_pem();
    assert_ne!(first, second);
}

#[test]
fn windows_that_are_not_valid_are_refused() {
    let key = "k".as_bytes();
    assert!(matches!(PassportEntity::new(key, 0, 100, 0, 512), Err(PassportError::IntervalTooSmall)));
    assert!(matches!(PassportEntity::new(key, 0, 100, -5, 512), Err(PassportError::IntervalTooSmall)));
    assert!(matches!(
        PassportEntity::new(key, 0, 1_000_000, 1, 512),
        Err(PassportError::IntervalTooSmall)
    ));
    assert!(matches!(
        PassportEntity::new(key, i64::MAX - 5, i64::MAX, 10, 512),
        Err(PassportError::IntervalTooSmall)
    ));
    assert!(matches!(
        PassportEntity::generate_rsa_entity(key, 0, 100, 0, 512),
        Err(PassportError::IntervalTooSmall)
    ));
    assert!(matches!(
        PassportEntity::print_public_pem(key, 0, 100, 0, 512),
        Err(PassportError::IntervalTooSmall)
    ));
}

#[test]
fn a_window_without_buckets_gives_an_empty_store() {
    let store = PassportEntity::new("k".as_bytes(), 1000, 0, 10, 512).expect("empty store");
    assert_eq!(store.len(), 0);
    assert!(store.to_public_pem().is_empty());
    assert!(store.get_rsa_entity(0).is_none());
    assert!(store.get_rsa_entity(1000).is_none());
}

#[test]
fn key_generation_failure_is_handed_on() {
    let key = "k".as_bytes();
    assert!(matches!(PassportEntity::new(key, 0, 5, 10, 0), Err(PassportError::KeyGenerationFailed)));
    assert!(matches!(
        PassportEntity::new(key, 0, 5, 10, 11),
        Err(PassportError::KeyGenerationFailed)
    ));
}

#[test]
fn generated_list_is_in_bucket_order() {
    let list = PassportEntity::generate_rsa_entity("hello world".as_bytes(), 1005, 1030, 10, 512)
        .expect("credentials");
    let ids: Vec<i64> = list.iter().map(|item| item.0).collect();
    assert_eq!(ids, vec![1000, 1010, 1020, 1030]);
}
