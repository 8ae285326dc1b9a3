use cc_license::Rights;

#[test]
fn rights_test_to_string() {
    assert_eq!(Rights::By.to_string(), "CC BY".to_string());
    assert_eq!(Rights::BySa.to_string(), "CC BY-SA".to_string());
    assert_eq!(Rights::ByNd.to_string(), "CC BY-ND".to_string());
    assert_eq!(Rights::ByNc.to_string(), "CC BY-NC".to_string());
    assert_eq!(Rights::ByNcSa.to_string(), "CC BY-NC-SA".to_string());
    assert_eq!(Rights::ByNcNd.to_string(), "CC BY-NC-ND".to_string());
    assert_eq!(Rights::Zero.to_string(), "CC0".to_string());
}

#[test]
fn rights_test_from_string() {
    assert_eq!(Rights::from_str("by").unwrap(), Rights::By);
    assert_eq!(Rights::from_str("by-sa").unwrap(), Rights::BySa);
    assert_eq!(Rights::from_str("by-nd").unwrap(), Rights::ByNd);
    assert_eq!(Rights::from_str("by-nc").unwrap(), Rights::ByNc);
    assert_eq!(Rights::from_str("by-nc-sa").unwrap(), Rights::ByNcSa);
    assert_eq!(Rights::from_str("by-nc-nd").unwrap(), Rights::ByNcNd);
    assert_eq!(Rights::from_str("zero").unwrap(), Rights::Zero);

    assert!(Rights::from_str("CC by").is_err());
    assert!(Rights::from_str("cc By").is_err());
    assert!(Rights::from_str("Creative Commons BY").is_err());
}

#[test]
fn test_full_text() {
    assert_eq!(Rights::By.full_text(), "Attribution");
    assert_eq!(Rights::BySa.full_text(), "Attribution-ShareAlike");
    assert_eq!(Rights::ByNd.full_text(), "Attribution-NoDerivatives");
    assert_eq!(Rights::ByNc.full_text(), "Attribution-NonCommercial");
    assert_eq!(
        Rights::ByNcSa.full_text(),
        "Attribution-NonCommercial-ShareAlike"
    );
    assert_eq!(
        Rights::ByNcNd.full_text(),
        "Attribution-NonCommercial-NoDerivatives"
    );
    assert_eq!(Rights::Zero.full_text(), "CC0");
}
