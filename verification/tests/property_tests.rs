use cc_license::License;
use cc_license::ParseError;
use cc_license::Rights;
use cc_license::Version;

#[test]
fn scenario_by_nc_sa_canonical() {
    let license = License::from_url("https://creativecommons.org/licenses/by-nc-sa/4.0/").unwrap();
    assert_eq!(
        license.to_string(),
        "Creative Commons Attribution-NonCommercial-ShareAlike 4.0 International license (CC BY-NC-SA 4.0)."
    );
}

#[test]
fn scenario_by_accessors() {
    let license = License::from_url("https://creativecommons.org/licenses/by/4.0/").unwrap();
    assert_eq!(license.rights(), "CC BY".to_string());
    assert_eq!(license.rights_full(), "Attribution".to_string());
    assert_eq!(license.version(), "4.0".to_string());
    assert_eq!(license.short(), "CC BY 4.0".to_string());
}

#[test]
fn scenario_no_trailing_slash_unported() {
    let license = License::from_url("http://creativecommons.org/licenses/by-nc-nd/3.0").unwrap();
    assert!(license.to_string().contains("Unported"));
}

#[test]
fn scenario_public_domain_canonical() {
    let license = License::from_url("https://creativecommons.org/publicdomain/zero/1.0/").unwrap();
    assert_eq!(
        license.to_string(),
        "Creative Commons CC0 1.0 Universal license (CC0 1.0)."
    );
}

#[test]
fn scenario_public_domain_bad_version() {
    assert_eq!(
        License::from_url("https://creativecommons.org/publicdomain/zero/2.0/"),
        Err(ParseError::InvalidPublicDomainVersion)
    );
}

#[test]
fn scenario_missing_scheme() {
    assert_eq!(
        License::from_url("creativecommons.org/licenses/by/1.0/"),
        Err(ParseError::InvalidUrl)
    );
}

#[test]
fn scenario_unknown_rights_token() {
    assert_eq!(
        License::from_url("https://creativecommons.org/licenses/attribution/4.0/"),
        Err(ParseError::InvalidRights)
    );
}

#[test]
fn scenario_unknown_version_token() {
    assert_eq!(
        License::from_url("https://creativecommons.org/licenses/by/5.0/"),
        Err(ParseError::InvalidVersion)
    );
}

#[test]
fn rights_decoding_is_case_sensitive() {
    assert_eq!(Rights::from_str("By"), Err(ParseError::InvalidRights));
    assert_eq!(Rights::from_str("BY"), Err(ParseError::InvalidRights));
    assert_eq!(Rights::from_str(" by"), Err(ParseError::InvalidRights));
    assert_eq!(
        License::from_url("https://creativecommons.org/licenses/By/4.0/"),
        Err(ParseError::InvalidRights)
    );
}

#[test]
fn version_decoding_is_exact() {
    assert_eq!(Version::from_str("1"), Err(ParseError::InvalidVersion));
    assert_eq!(Version::from_str("4.5"), Err(ParseError::InvalidVersion));
    assert_eq!(
        License::from_url("https://creativecommons.org/licenses/by/1/"),
        Err(ParseError::InvalidVersion)
    );
}

#[test]
fn parse_accepts_www_subdomain() {
    let license = License::from_url("https://www.creativecommons.org/licenses/by-sa/2.5/").unwrap();
    assert_eq!(
        license,
        License {
            rights: Rights::BySa,
            version: Version::TwoFive,
        }
    );
}

#[test]
fn parse_rejects_trailing_content() {
    assert_eq!(
        License::from_url("https://creativecommons.org/licenses/by/4.0/extra"),
        Err(ParseError::InvalidUrl)
    );
    assert_eq!(
        License::from_url("https://creativecommons.org/licenses/by/4.0//"),
        Err(ParseError::InvalidUrl)
    );
    assert_eq!(
        License::from_url("https://example.org/licenses/by/4.0/"),
        Err(ParseError::InvalidUrl)
    );
    assert_eq!(
        License::from_url("https://creativecommons.org/licenses//4.0/"),
        Err(ParseError::InvalidUrl)
    );
    assert_eq!(
        License::from_url("https://creativecommons.org/licenses/by/4.0/?query"),
        Err(ParseError::InvalidUrl)
    );
    assert_eq!(
        License::from_url(""),
        Err(ParseError::InvalidUrl)
    );
}

#[test]
fn parse_is_deterministic() {
    let first = License::from_url("https://creativecommons.org/licenses/by-nd/2.0/");
    let second = License::from_url("https://creativecommons.org/licenses/by-nd/2.0/");
    assert_eq!(first, second);
}

#[test]
fn parse_round_trips_through_rendered_tokens() {
    let license = License::from_url("https://creativecommons.org/licenses/by-nc/3.0").unwrap();
    let rebuilt = format!(
        "https://creativecommons.org/licenses/by-nc/{}/",
        license.version()
    );
    assert_eq!(License::from_url(&rebuilt).unwrap(), license);

    let zero = License::from_url("https://creativecommons.org/publicdomain/zero/1.0").unwrap();
    let rebuilt_zero = format!(
        "https://creativecommons.org/publicdomain/zero/{}/",
        zero.version()
    );
    assert_eq!(License::from_url(&rebuilt_zero).unwrap(), zero);
}

#[test]
fn error_messages() {
    assert_eq!(ParseError::InvalidUrl.message(), "Invalid URL");
    assert_eq!(ParseError::InvalidRights.message(), "Invalid rights string");
    assert_eq!(ParseError::InvalidVersion.message(), "Invalid version string");
    assert_eq!(
        ParseError::InvalidPublicDomainVersion.message(),
        "The version of CC0 licenses must be 1.0"
    );
}
