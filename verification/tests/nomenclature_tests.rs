use cc_license::Nomenclature;

#[test]
fn nomenclature_test_to_string() {
    assert_eq!(Nomenclature::Generic.to_string(), "Generic".to_string());
    assert_eq!(Nomenclature::Unported.to_string(), "Unported".to_string());
    assert_eq!(
        Nomenclature::International.to_string(),
        "International".to_string()
    );
    assert_eq!(
        Nomenclature::Universal.to_string(),
        "Universal".to_string()
    );
}
