use wd_passport::{ConfuseRule, ConfuseRuleDefault, PassportError};

#[test]
fn test_rule_rand() {
    let mut buf = vec![1, 2, 3, 4, 5, 6, 7];
    let _ = ConfuseRuleDefault.confuse(&mut buf);
    println!("{:?}", buf)
}

#[test]
fn mixer_mixes_seven_bytes() {
    let mut buf = vec![1, 2, 3, 4, 5, 6, 7];
    assert_eq!(ConfuseRuleDefault.confuse(&mut buf), Ok(()));
    assert_eq!(buf, vec![9, 1, 12, 3, 8, 5, 7]);
}

#[test]
fn mixer_changes_seven_bytes() {
    let before = vec![1u8, 2, 3, 4, 5, 6, 7];
    let mut buf = before.clone();
    assert_eq!(ConfuseRuleDefault.confuse(&mut buf), Ok(()));
    assert_ne!(buf, before);
    assert_eq!(buf.len(), before.len());
}

#[test]
fn mixer_is_not_idempotent() {
    let mut once = vec![1u8, 2, 3, 4, 5, 6, 7];
    ConfuseRuleDefault.confuse(&mut once).expect("first step");
    let mut twice = once.clone();
    ConfuseRuleDefault.confuse(&mut twice).expect("second step");
    assert_ne!(once, twice);
}

#[test]
fn mixer_even_length_wraps_to_first_byte() {
    let mut two = vec![1u8, 2];
    assert_eq!(ConfuseRuleDefault.confuse(&mut two), Ok(()));
    assert_eq!(two, vec![4, 1]);
    let mut four = vec![10u8, 20, 30, 40];
    assert_eq!(ConfuseRuleDefault.confuse(&mut four), Ok(()));
    assert_eq!(four, vec![51, 10, 51, 30]);
}

#[test]
fn mixer_sum_is_reduced_to_a_byte() {
    let mut buf = vec![200u8, 100, 7];
    assert_eq!(ConfuseRuleDefault.confuse(&mut buf), Ok(()));
    // position 0 takes (7 + 200 + 1) mod 256, position 1 the old first byte
    assert_eq!(buf, vec![208, 200, 7]);
}

#[test]
fn mixer_has_a_fixed_point_of_equal_pairs() {
    let mut buf = vec![255u8, 255];
    assert_eq!(ConfuseRuleDefault.confuse(&mut buf), Ok(()));
    assert_eq!(buf, vec![255, 255]);
}

#[test]
fn mixer_refuses_short_buffers() {
    let mut one = vec![42u8];
    assert_eq!(ConfuseRuleDefault.confuse(&mut one), Err(PassportError::InvalidKeyLength));
    assert_eq!(one, vec![42u8]);
    let mut none: Vec<u8> = Vec::new();
    assert_eq!(ConfuseRuleDefault.confuse(&mut none), Err(PassportError::InvalidKeyLength));
    assert!(none.is_empty());
}
