use wd_passport::b64::{decode, encode};
use wd_passport::{or_fail, Base64StdDecode, Base64StdEncode, PFErr, PFOk, PassportError};

#[test]
fn encode_is_url_safe_without_padding() {
    assert_eq!(encode("hello world~".as_bytes()), Ok("aGVsbG8gd29ybGR-".to_string()));
    assert_eq!(encode(&[0xfb, 0xff, 0xfe]), Ok("-__-".to_string()));
    assert_eq!(encode("hi".as_bytes()), Ok("aGk".to_string()));
    assert_eq!(encode("h".as_bytes()), Ok("aA".to_string()));
    assert_eq!(encode(&[]), Ok(String::new()));
}

#[test]
fn decode_reads_what_encode_writes() {
    assert_eq!(decode("aGVsbG8gd29ybGR-".as_bytes()), Ok("hello world~".as_bytes().to_vec()));
    assert_eq!(decode("-__-".as_bytes()), Ok(vec![0xfb, 0xff, 0xfe]));
    assert_eq!(decode("aGk".as_bytes()), Ok("hi".as_bytes().to_vec()));
    assert_eq!(decode(&[]), Ok(Vec::new()));
    for len in 0..70usize {
        let data: Vec<u8> = (0..len).map(|i| (i * 37 + 11) as u8).collect();
        let text = encode(&data).expect("encode");
        assert_eq!(text.len(), len / 3 * 4 + [0, 2, 3][len % 3]);
        assert_eq!(decode(text.as_bytes()), Ok(data));
    }
}

#[test]
fn decode_refuses_what_is_no_base64() {
    assert_eq!(decode("aGk=".as_bytes()), Err(PassportError::SerializationFailed));
    assert_eq!(decode("a".as_bytes()), Err(PassportError::SerializationFailed));
    assert_eq!(decode("+/+/".as_bytes()), Err(PassportError::SerializationFailed));
    assert_eq!(decode("aG k".as_bytes()), Err(PassportError::SerializationFailed));
    assert_eq!(decode("aGl".as_bytes()), Err(PassportError::SerializationFailed));
}

#[test]
fn values_encode_and_decode_themselves() {
    let bytes = vec![1u8, 2, 3, 250];
    let text = (&bytes).base64().expect("encode");
    assert_eq!(text, "AQID-g");
    assert_eq!(bytes.as_slice().base64(), Ok(text.clone()));
    assert_eq!("hi".base64(), Ok("aGk".to_string()));
    assert_eq!((&text).try_decode_base64(), Ok(bytes.clone()));
    assert_eq!(text.as_str().try_decode_base64(), Ok(bytes.clone()));
    assert_eq!(text.as_bytes().try_decode_base64(), Ok(bytes.clone()));
    assert_eq!((&text.as_bytes().to_vec()).try_decode_base64(), Ok(bytes));
    assert_eq!("?".try_decode_base64(), Err(PassportError::SerializationFailed));
    assert_eq!(vec![1u8, 2, 3, 250].base64(), Ok("AQID-g".to_string()));
    assert_eq!("hi".to_string().base64(), Ok("aGk".to_string()));
    assert_eq!((&"hi".to_string()).base64(), Ok("aGk".to_string()));
    assert_eq!("aGk".to_string().try_decode_base64(), Ok("hi".as_bytes().to_vec()));
    assert_eq!("aGk".as_bytes().to_vec().try_decode_base64(), Ok("hi".as_bytes().to_vec()));
}

#[test]
fn point_free_endings() {
    let done: Result<i32, String> = 5.ok();
    assert_eq!(done, Ok(5));
    let failed: Result<i32, String> = "no".to_string().err();
    assert_eq!(failed, Err("no".to_string()));
    let error: Result<Vec<u8>, PassportError> = PassportError::TimestampOutOfRange.err();
    assert_eq!(error, Err(PassportError::TimestampOutOfRange));
}

#[test]
fn outside_failures_become_errors_of_the_library() {
    let fine: Result<u8, String> = Ok(3);
    assert_eq!(or_fail(fine, PassportError::DecryptionFailed), Ok(3));
    let bad: Result<u8, String> = Err("broken".to_string());
    assert_eq!(or_fail(bad, PassportError::DecryptionFailed), Err(PassportError::DecryptionFailed));
    let outside: Result<Vec<u8>, rsa::errors::Error> = Err(rsa::errors::Error::MessageTooLong);
    assert_eq!(
        or_fail(outside, PassportError::EncryptionFailed),
        Err(PassportError::EncryptionFailed)
    );
}

#[test]
fn every_error_has_a_message() {
    let all = [
        PassportError::InvalidKeyLength,
        PassportError::KeyGenerationFailed,
        PassportError::EncryptionFailed,
        PassportError::DecryptionFailed,
        PassportError::SigningFailed,
        PassportError::SignatureInvalid,
        PassportError::TimestampOutOfRange,
        PassportError::IntervalTooSmall,
        PassportError::InvalidTime,
        PassportError::SerializationFailed,
    ];
    for (i, error) in all.iter().enumerate() {
        assert!(!error.message().is_empty());
        for other in all.iter().skip(i + 1) {
            assert_ne!(error.message(), other.message());
        }
    }
    assert_eq!(
        PassportError::TimestampOutOfRange.message(),
        "timestamp out of scope of verification"
    );
}
