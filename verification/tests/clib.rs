use wd_passport::clib::{copy_out, copy_prefix, decrypt, encrypt, sign, verify, FAILED, VERIFIED};
use wd_passport::PassportEntity;

fn store() -> PassportEntity {
    PassportEntity::new("hello world".as_bytes(), 1005, 1030, 10, 512).expect("store")
}

#[test]
fn copy_out_writes_all_or_nothing() {
    let mut dest = vec![9u8; 5];
    assert_eq!(copy_out(&[1, 2, 3], &mut dest), 3);
    assert_eq!(dest, vec![1, 2, 3, 9, 9]);
    assert_eq!(copy_out(&[4, 5, 6, 7, 8], &mut dest), 5);
    assert_eq!(dest, vec![4, 5, 6, 7, 8]);
    assert_eq!(copy_out(&[1, 1, 1, 1, 1, 1], &mut dest), FAILED);
    assert_eq!(dest, vec![4, 5, 6, 7, 8]);
    assert_eq!(copy_out(&[], &mut dest), 0);
    assert_eq!(dest, vec![4, 5, 6, 7, 8]);
}

#[test]
fn copy_prefix_cuts_to_the_buffer() {
    let mut dest = vec![9u8; 3];
    assert_eq!(copy_prefix(&[1, 2], &mut dest), 2);
    assert_eq!(dest, vec![1, 2, 9]);
    assert_eq!(copy_prefix(&[5, 6, 7, 8], &mut dest), 3);
    assert_eq!(dest, vec![5, 6, 7]);
    let mut none: Vec<u8> = Vec::new();
    assert_eq!(copy_prefix(&[1], &mut none), 0);
}

#[test]
fn sign_and_verify_through_buffers() {
    let store = store();
    let data = "hello world".as_bytes();
    let mut out = vec![0u8; 70];
    let n = sign(&store, data, 1012, &mut out);
    assert_eq!(n, 64);
    assert_eq!(&out[64..], &[0u8; 6]);
    assert_eq!(verify(&store, data, &out[..64], 1012), VERIFIED);
    assert_eq!(verify(&store, data, &out[..64], 1019), VERIFIED);
    assert_eq!(verify(&store, data, &out[..64], 1020), FAILED);
    assert_eq!(verify(&store, data, &out[..63], 1012), FAILED);
    assert_eq!(verify(&store, "hello".as_bytes(), &out[..64], 1012), FAILED);
    assert_eq!(verify(&store, data, &out[..64], 5000), FAILED);
}

#[test]
fn sign_fails_without_touching_the_buffer() {
    let store = store();
    let data = "hello world".as_bytes();
    let mut short = vec![7u8; 63];
    assert_eq!(sign(&store, data, 1012, &mut short), FAILED);
    assert_eq!(short, vec![7u8; 63]);
    let mut out = vec![7u8; 64];
    assert_eq!(sign(&store, data, 999, &mut out), FAILED);
    assert_eq!(out, vec![7u8; 64]);
}

#[test]
fn encrypt_and_decrypt_through_buffers() {
    let store = store();
    let data = "test data".as_bytes();
    let mut cipher = vec![0u8; 64];
    assert_eq!(encrypt(&store, data, 1030, &mut cipher), 64);
    assert_eq!(store.decrypt(&cipher, 1030), Ok(data.to_vec()));
    let mut plain = vec![0u8; 20];
    assert_eq!(decrypt(&store, &cipher, &mut plain, 1030), 9);
    assert_eq!(&plain[..9], data);
    assert_eq!(&plain[9..], &[0u8; 11]);

    let mut cut = vec![0u8; 4];
    assert_eq!(decrypt(&store, &cipher, &mut cut, 1035), 4);
    assert_eq!(cut, "test".as_bytes().to_vec());

    let mut untouched = vec![3u8; 20];
    assert_eq!(decrypt(&store, &cipher, &mut untouched, 1000), FAILED);
    assert_eq!(decrypt(&store, &cipher, &mut untouched, 2000), FAILED);
    assert_eq!(untouched, vec![3u8; 20]);

    let mut short = vec![1u8; 10];
    assert_eq!(encrypt(&store, data, 1030, &mut short), FAILED);
    assert_eq!(short, vec![1u8; 10]);
    assert_eq!(encrypt(&store, &[0u8; 54], 1030, &mut cipher), FAILED);
    assert_eq!(encrypt(&store, data, 1040, &mut cipher), FAILED);
}
