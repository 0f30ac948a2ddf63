use navs13::{create_fake_swiss_navs13, ean13_check, Nav13, ParseNav13Error};
use std::str::FromStr;

#[test]
fn test_ean13_check_7() {
    let digits: [u8; 12] = [7, 5, 6, 1, 2, 3, 4, 5, 6, 7, 8, 9];
    let c = ean13_check(&digits);
    assert_eq!(c, 7, "The control key must be 7")
}

#[test]
fn test_ean13_check_0() {
    let digits: [u8; 12] = [7, 5, 6, 4, 9, 6, 5, 7, 6, 6, 5, 6];
    let c = ean13_check(&digits);
    assert_eq!(c, 0, "The control key must be 0")
}

#[test]
fn test_ean13_check_9() {
    let digits: [u8; 12] = [4, 7, 1, 9, 5, 1, 2, 0, 0, 2, 8, 8];
    let c = ean13_check(&digits);
    assert_eq!(c, 9, "The control key must be 9")
}

#[test]
fn test_from_str_ok() {
    let test = Nav13::from_str("756.2465.8935.64");
    assert!(test.is_ok(), "{:?}", test.err().unwrap())
}

#[test]
fn test_from_str_nok_len_short() {
    let test = Nav13::from_str("756.246.8935.64");
    assert!(test.is_err());
    let e = test.err().unwrap();
    println!("Error {} - {:?}", e.code(), e);
    assert_eq!(e.code(), 64)
}

#[test]
fn test_from_str_nok_len_long() {
    let test = Nav13::from_str("756.246.8935.64789");
    assert!(test.is_err());
    let e = test.err().unwrap();
    println!("Error {} - {:?}", e.code(), e);
    assert_eq!(e.code(), 64)
}

#[test]
fn test_from_str_nok_iso() {
    let test = Nav13::from_str("471.9512.0028.88");
    assert!(test.is_err());
    let e = test.err().unwrap();
    println!("Error {} - {:?}", e.code(), e);
    assert_eq!(e.code(), 65)
}

#[test]
fn test_from_str_nok_ean() {
    let test = Nav13::from_str("756.2465.8935.65");
    assert!(test.is_err());
    let e = test.err().unwrap();
    println!("Error {} - {:?}", e.code(), e);
    assert_eq!(e.code(), 66)
}

#[test]
fn checksum_is_the_same_on_two_calls() {
    let digits: [u8; 12] = [7, 5, 6, 9, 2, 1, 7, 3, 4, 0, 5, 8];
    assert_eq!(ean13_check(&digits), ean13_check(&digits));
}

#[test]
fn checksum_weights_odd_positions_by_three() {
    // 1 at position 1 weighs 3: sum 3, check 7; at position 0 it weighs 1: check 9.
    assert_eq!(ean13_check(&[0, 1, 0, 0, 0, 0, 0, 0, 0, 0, 0, 0]), 7);
    assert_eq!(ean13_check(&[1, 0, 0, 0, 0, 0, 0, 0, 0, 0, 0, 0]), 9);
    assert_eq!(ean13_check(&[0; 12]), 0);
    assert_eq!(ean13_check(&[9; 12]), 4);
}

#[test]
fn parse_gives_digits_and_check() {
    let n = Nav13::parse("756.2465.8935.64").unwrap();
    assert_eq!(n.digits(), [7, 5, 6, 2, 4, 6, 5, 8, 9, 3, 5, 6]);
    assert_eq!(n.check(), 4);
}

#[test]
fn length_of_twelve_and_fourteen_digits_fails() {
    assert_eq!(
        Nav13::parse("756.246.8935.64").err(),
        Some(ParseNav13Error::InvalidLength(12))
    );
    assert_eq!(
        Nav13::parse("756.2465.8935.644").err(),
        Some(ParseNav13Error::InvalidLength(14))
    );
    assert_eq!(
        Nav13::parse("756.246.8935.64789").err(),
        Some(ParseNav13Error::InvalidLength(15))
    );
    assert_eq!(Nav13::parse("").err(), Some(ParseNav13Error::InvalidLength(0)));
}

#[test]
fn country_code_471_with_valid_checksum_fails() {
    assert_eq!(
        Nav13::parse("471.9512.0028.89").err(),
        Some(ParseNav13Error::InvalidCountryCode(4, 7, 1))
    );
    assert_eq!(
        Nav13::parse("471.9512.0028.88").err(),
        Some(ParseNav13Error::InvalidCountryCode(4, 7, 1))
    );
}

#[test]
fn country_code_needs_all_three_digits() {
    // Only the last digit of the prefix differs.
    assert_eq!(
        Nav13::parse("755.2465.8935.64").err(),
        Some(ParseNav13Error::InvalidCountryCode(7, 5, 5))
    );
    assert_eq!(
        Nav13::parse("156.2465.8935.64").err(),
        Some(ParseNav13Error::InvalidCountryCode(1, 5, 6))
    );
}

#[test]
fn changed_check_digit_fails() {
    for c in 0..10u8 {
        let text = format!("756.2465.8935.6{}", c);
        let r = Nav13::parse(&text);
        if c == 4 {
            assert!(r.is_ok());
        } else {
            assert_eq!(r.err(), Some(ParseNav13Error::InvalidChecksum(c)));
        }
    }
}

#[test]
fn length_is_checked_before_country_code() {
    assert_eq!(
        Nav13::parse("471.9512.0028.8").err(),
        Some(ParseNav13Error::InvalidLength(12))
    );
}

#[test]
fn country_code_is_checked_before_checksum() {
    assert_eq!(
        Nav13::parse("471.9512.0028.80").err(),
        Some(ParseNav13Error::InvalidCountryCode(4, 7, 1))
    );
}

#[test]
fn non_digits_are_ignored() {
    let plain = Nav13::parse("7562465893564").unwrap();
    let noisy = Nav13::parse("ab7 56-24x65/89..35 6 4!").unwrap();
    assert_eq!(plain.digits(), noisy.digits());
    assert_eq!(plain.check(), noisy.check());
    // Digits of other scripts are not decimal digits here.
    let other = Nav13::parse("756.2465.8935.64\u{0663}").unwrap();
    assert_eq!(other.digits(), plain.digits());
}

#[test]
fn format_is_canonical() {
    let n = Nav13::parse("7562465893564").unwrap();
    assert_eq!(n.format(), "756.2465.8935.64");
}

#[test]
fn from_free_digits_completes_the_number() {
    let n = Nav13::from_free_digits(&[1, 2, 3, 4, 5, 6, 7, 8, 9]);
    assert_eq!(n.digits(), [7, 5, 6, 1, 2, 3, 4, 5, 6, 7, 8, 9]);
    assert_eq!(n.check(), 7);
    assert_eq!(n.format(), "756.1234.5678.97");
    let z = Nav13::from_free_digits(&[4, 9, 6, 5, 7, 6, 6, 5, 6]);
    assert_eq!(z.check(), 0);
    assert_eq!(z.format(), "756.4965.7665.60");
}

#[test]
fn generated_numbers_round_trip() {
    for _ in 0..200 {
        let n = create_fake_swiss_navs13();
        let d = n.digits();
        assert_eq!(&d[0..3], &[7, 5, 6]);
        assert!(d.iter().all(|&x| x < 10));
        assert_eq!(n.check(), ean13_check(&d));
        let text = n.format();
        assert_eq!(text.len(), 16);
        let back = Nav13::parse(&text).unwrap();
        assert_eq!(back.digits(), d);
        assert_eq!(back.check(), n.check());
    }
}

#[test]
fn error_codes_are_distinct() {
    assert_eq!(ParseNav13Error::InvalidLength(3).code(), 64);
    assert_eq!(ParseNav13Error::InvalidCountryCode(1, 2, 3).code(), 65);
    assert_eq!(ParseNav13Error::InvalidChecksum(1).code(), 66);
}
