use cc_license::Version;

#[test]
fn version_test_to_string() {
    assert_eq!(Version::One.to_string(), "1.0".to_string());
    assert_eq!(Version::Two.to_string(), "2.0".to_string());
    assert_eq!(Version::TwoFive.to_string(), "2.5".to_string());
    assert_eq!(Version::Three.to_string(), "3.0".to_string());
    assert_eq!(Version::Four.to_string(), "4.0".to_string());
}

#[test]
fn version_test_from_string() {
    assert_eq!(Version::from_str("1.0").unwrap(), Version::One);
    assert_eq!(Version::from_str("2.0").unwrap(), Version::Two);
    assert_eq!(Version::from_str("2.5").unwrap(), Version::TwoFive);
    assert_eq!(Version::from_str("3.0").unwrap(), Version::Three);
    assert_eq!(Version::from_str("4.0").unwrap(), Version::Four);

    assert!(Version::from_str("1").is_err());
    assert!(Version::from_str("2").is_err());
    assert!(Version::from_str("4.5").is_err());
}
