use wd_passport::define::parse_time;
use wd_passport::{
    default_passport, format_public_pem, init_passport, rsa_sha156_verify, rsa_sha256_decrypt,
    rsa_sha256_encrypt, rsa_sha256_sign, PassportEntity, PassportError,
};

#[test]
fn test_default_passport_show_public_pem() {
    let passport = default_passport().expect("rsa certs build failed");
    let list = format_public_pem(&passport);
    for i in list.iter() {
        println!("==============> {} ===============================|", i.0);
        println!("{}", i.1);
    }
}

#[test]
fn test_default_passport_sign_verify() {
    let passport = default_passport().expect("rsa certs build failed");
    let data = "hello world";
    let timestamp = 1866248975;
    let sign = rsa_sha256_sign(&passport, data.as_bytes(), timestamp).expect("sign error");
    rsa_sha156_verify(&passport, data.as_bytes(), sign.as_slice(), timestamp)
        .expect("verify error");
    println!("test_default_passport_sign_verify  success");
}

#[test]
fn default_passport_range_limits() {
    let passport = default_passport().expect("rsa certs build failed");
    assert_eq!(passport.len(), 12);
    assert_eq!(passport.interval(), 311_040_000);
    let data = "hello world".as_bytes();
    assert_eq!(rsa_sha256_sign(&passport, data, 1), Err(PassportError::TimestampOutOfRange));
    assert_eq!(
        rsa_sha256_sign(&passport, data, 5607792000),
        Err(PassportError::TimestampOutOfRange)
    );
    let list = format_public_pem(&passport);
    assert_eq!(list.len(), 12);
    assert_eq!(list[0].0, 1_555_200_000);
    assert_eq!(list[11].0, 4_976_640_000);
    assert!(rsa_sha256_sign(&passport, data, 1_555_200_000).is_ok());
    assert_eq!(
        rsa_sha256_sign(&passport, data, 1_555_200_000 - 1),
        Err(PassportError::TimestampOutOfRange)
    );
}

#[test]
fn default_passport_encrypt_decrypt() {
    let passport = default_passport().expect("rsa certs build failed");
    let data = "hello world".as_bytes();
    let timestamp = 1866248975;
    let cipher = rsa_sha256_encrypt(&passport, data, timestamp).expect("encrypt error");
    assert_eq!(cipher.len(), 128);
    assert_eq!(rsa_sha256_decrypt(&passport, &cipher, timestamp), Ok(data.to_vec()));
    assert_eq!(
        rsa_sha256_decrypt(&passport, &cipher, 1),
        Err(PassportError::TimestampOutOfRange)
    );
    assert_eq!(
        rsa_sha256_encrypt(&passport, &[0u8; 118], timestamp),
        Err(PassportError::EncryptionFailed)
    );
}

#[test]
fn times_are_read_as_utc() {
    assert_eq!(parse_time("2023-02-07 00:00:00"), Ok(1_675_728_000));
    assert_eq!(parse_time("2123-02-07 00:00:00"), Ok(4_831_401_600));
    assert_eq!(parse_time("1970-01-01 00:00:01"), Ok(1));
    assert_eq!(parse_time("1969-12-31 23:59:59"), Ok(-1));
    assert_eq!(parse_time("2023-02-07"), Err(PassportError::InvalidTime));
    assert_eq!(parse_time("2023-02-30 00:00:00"), Err(PassportError::InvalidTime));
    assert_eq!(parse_time(""), Err(PassportError::InvalidTime));
    assert_eq!(parse_time("2023-02-07T00:00:00Z"), Err(PassportError::InvalidTime));
}

#[test]
fn test_default_init_passport() {
    let key = "hello world".as_bytes();
    // keys of 1024 bits: fourteen keys of 2048 bits take about a minute
    init_passport(key, 1024, "2022-01-02 00:00:00", "2023-01-02 00:00:00", 60 * 60 * 24 * 30)
        .expect("passport entity init error");
    println!("success");
}

#[test]
fn init_passport_reads_the_window() {
    let key = "hello world".as_bytes();
    let store = init_passport(key, 512, "2022-01-02 00:00:00", "2023-01-02 00:00:00", 60 * 60 * 24 * 30)
        .expect("passport entity init error");
    assert_eq!(store.len(), 14);
    let direct = PassportEntity::new(key, 1_641_081_600, 1_672_617_600, 60 * 60 * 24 * 30, 512)
        .expect("store");
    assert_eq!(store.to_public_pem(), direct.to_public_pem());
}

#[test]
fn init_passport_refuses_bad_windows() {
    let key = "hello world".as_bytes();
    assert!(matches!(
        init_passport(key, 512, "yesterday", "2023-01-02 00:00:00", 10),
        Err(PassportError::InvalidTime)
    ));
    assert!(matches!(
        init_passport(key, 512, "2022-01-02 00:00:00", "tomorrow", 10),
        Err(PassportError::InvalidTime)
    ));
    assert!(matches!(
        init_passport(key, 512, "2022-01-02 00:00:00", "2023-01-02 00:00:00", 0),
        Err(PassportError::IntervalTooSmall)
    ));
    assert!(matches!(
        init_passport(key, 512, "2022-01-02 00:00:00", "2023-01-02 00:00:00", u64::MAX),
        Err(PassportError::IntervalTooSmall)
    ));
    assert!(matches!(
        init_passport(key, 512, "2022-01-02 00:00:00", "2023-01-02 00:00:00", 60),
        Err(PassportError::IntervalTooSmall)
    ));
}

#[test]
fn ten_years_every_thirty_days() {
    let start = 1_675_728_000;
    let end = 1_991_260_800;
    let interval = 60 * 60 * 24 * 30;
    let store = PassportEntity::new("hello world".as_bytes(), start, end, interval, 256)
        .expect("ten years of credentials");
    assert_eq!(store.len(), 123);
    assert!(store.get_rsa_entity(start).is_some());
    assert!(store.get_rsa_entity(end).is_some());
}
