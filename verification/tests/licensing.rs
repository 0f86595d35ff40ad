use elm_pair::editors::Kind;
use elm_pair::licensing::{
    license_active, license_active_at, license_info, read_license, show_license_info,
    show_license_info_at,
    try_parse_license, License, LicenseText, YEAR_IN_SECS,
};
use std::time::{Duration, SystemTime, UNIX_EPOCH};

// Any key serves to check how keys with bad signatures are refused.
const SOME_PUBLIC_KEY: [u8; 32] = [7u8; 32];

fn parse_license(key: &str) -> Result<License, elm_pair::error::Error> {
    try_parse_license(key, &SOME_PUBLIC_KEY).expect("reading this key does not stop the program")
}

fn unix_seconds(t: SystemTime) -> u64 {
    t.duration_since(UNIX_EPOCH).unwrap().as_secs()
}

#[test]
fn error_for_license_with_too_short_a_signature() {
    let err = parse_license("1-88-1334910171-shortsig").unwrap_err();
    assert!(err.0.contains("failed to read ed25519 license signature"));
}

#[test]
fn error_for_license_with_invalid_signature() {
    let err = parse_license("1-88-1334910171-EshObAa93Ua1UzXeoJy53Yk9RivssP2MUAgphKbi21E27TQzzpH+9OaTZDwyzTscWxxXgYmB3LqBlWgpI6AXCQ==").unwrap_err();
    assert!(err.0.contains("failed to verify license signature"));
}

#[test]
fn cannot_parse_empty_license() {
    let err = parse_license("").unwrap_err();
    assert!(err.0.contains("can't read license version"));
}

#[test]
fn cannot_parse_license_without_segments() {
    let err = parse_license("---").unwrap_err();
    assert!(err.0.contains("can't read license version"));
}

#[test]
fn cannot_parse_license_with_unknown_version() {
    let err = parse_license("62-hi").unwrap_err();
    assert!(err.0.contains("license with unknown version 62"));
}

#[test]
fn cannot_parse_license_with_wrong_number_of_segments() {
    let err = parse_license("1-hi-there").unwrap_err();
    assert!(err.0.contains("v1 license has unexpected structure"));
}

#[test]
fn error_for_license_with_signature_that_is_not_base64() {
    let err = parse_license("1-88-1334910171-not base64!").unwrap_err();
    assert!(err.0.contains("failed to base64-decode license signature"));
}

#[test]
fn non_commercial_license_is_inactive() {
    assert!(!license_active(&License::NonCommercial));
}

#[test]
fn commercial_license_with_future_expire_time_is_active() {
    let future_time = SystemTime::now() + Duration::from_secs(100);
    let active_license = License::Commercial {
        order_id: "123".to_owned(),
        expires_at: unix_seconds(future_time),
    };
    assert!(license_active(&active_license));
}

#[test]
fn commercial_license_with_past_expire_time_is_inactive() {
    let past_time = SystemTime::now() - Duration::from_secs(100);
    let expired_license = License::Commercial {
        order_id: "123".to_owned(),
        expires_at: unix_seconds(past_time),
    };
    assert!(!license_active(&expired_license));
}

#[test]
fn license_is_active_until_the_second_it_expires() {
    let license = License::Commercial { order_id: "1".to_owned(), expires_at: 1000 };
    assert!(license_active_at(&license, Some(999)));
    assert!(!license_active_at(&license, Some(1000)));
    assert!(license_active_at(&license, None));
    assert!(!license_active_at(&License::NonCommercial, Some(0)));
}

#[test]
fn a_license_lasts_a_year() {
    assert_eq!(YEAR_IN_SECS, 31_536_000);
}

#[test]
fn license_info_for_each_license_and_editor() {
    assert_eq!(
        license_info(&License::NonCommercial, Kind::Neovim),
        vec![
            LicenseText::LicensingInfo,
            LicenseText::LineBreak,
            LicenseText::ActivateLicenseNeovim
        ]
    );
    let expired = License::Commercial { order_id: "9".to_owned(), expires_at: 0 };
    assert_eq!(
        license_info(&expired, Kind::VsCode),
        vec![
            LicenseText::LicenseExpiredInfo,
            LicenseText::LineBreak,
            LicenseText::ActivateLicenseVsCode
        ]
    );
}

#[test]
fn license_info_is_shown_only_without_an_active_license() {
    assert!(show_license_info(&License::NonCommercial, Kind::Neovim).is_some());
    let active = License::Commercial { order_id: "9".to_owned(), expires_at: u64::MAX / 2 };
    assert!(show_license_info(&active, Kind::Neovim).is_none());
}

#[test]
fn missing_or_unreadable_or_invalid_license_files_give_the_non_commercial_license() {
    assert_eq!(read_license(None, &SOME_PUBLIC_KEY), Some(License::NonCommercial));
    assert_eq!(
        read_license(Some(Err(elm_pair::error::Error("no access".to_string()))), &SOME_PUBLIC_KEY),
        Some(License::NonCommercial)
    );
    assert_eq!(
        read_license(Some(Ok("62-hi".to_string())), &SOME_PUBLIC_KEY),
        Some(License::NonCommercial)
    );
}

#[test]
fn license_info_at_a_given_time_is_hidden_exactly_while_the_license_is_active() {
    let license = License::Commercial { order_id: "3".to_owned(), expires_at: 1000 };
    assert_eq!(show_license_info_at(&license, Kind::Neovim, Some(999)), None);
    assert_eq!(
        show_license_info_at(&license, Kind::VsCode, Some(1000)),
        Some(vec![
            LicenseText::LicenseExpiredInfo,
            LicenseText::LineBreak,
            LicenseText::ActivateLicenseVsCode
        ])
    );
    assert_eq!(
        show_license_info_at(&License::NonCommercial, Kind::Neovim, None),
        Some(vec![
            LicenseText::LicensingInfo,
            LicenseText::LineBreak,
            LicenseText::ActivateLicenseNeovim
        ])
    );
}

#[test]
fn decoded_signatures_are_refused_with_the_reason() {
    let none = elm_pair::licensing::check_decoded_signature(&SOME_PUBLIC_KEY, "1-2", None);
    assert_eq!(none.unwrap_err().0, "failed to base64-decode license signature");
    let short = elm_pair::licensing::check_decoded_signature(&SOME_PUBLIC_KEY, "1-2", Some(&[0u8; 10]));
    assert_eq!(short.unwrap_err().0, "failed to read ed25519 license signature");
    let wrong = elm_pair::licensing::check_decoded_signature(&SOME_PUBLIC_KEY, "1-2", Some(&[0u8; 64]));
    assert_eq!(wrong.unwrap_err().0, "failed to verify license signature");
}
