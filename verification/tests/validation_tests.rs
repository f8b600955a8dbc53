use mento_core::dates::{epoch_millis, parse_ymd};
use mento_core::paging::{page_params, pages_for};
use mento_core::uploads::{
    extension_from_content_type,
    get_extension_from_filename,
    get_extension_from_mime,
    is_valid_document_extension,
    is_valid_document_mime,
    is_valid_image_extension,
};
use mento_core::validation::{generate_otp, validate_email, validate_mobile, validate_pincode};

#[test]
fn mobile_numbers_must_be_ten_digits_starting_six_to_nine() {
    assert!(validate_mobile(b"9876543210"));
    assert!(validate_mobile(b"6000000000"));
    assert!(!validate_mobile(b"5876543210"));
    assert!(!validate_mobile(b"987654321"));
    assert!(!validate_mobile(b"98765432100"));
    assert!(!validate_mobile(b"98765a3210"));
    assert!(!validate_mobile(b""));
}

#[test]
fn email_addresses_are_checked_structurally() {
    assert!(validate_email(b"a@b.co"));
    assert!(validate_email(b"user.name+tag@ex-ample.co.in"));
    assert!(validate_email(b"USER%42@host9.ORG"));
    assert!(!validate_email(b"plainaddress"));
    assert!(!validate_email(b"a@@b.co"));
    assert!(!validate_email(b"@b.co"));
    assert!(!validate_email(b"a@.co"));
    assert!(!validate_email(b"a@b"));
    assert!(!validate_email(b"a@b.c"));
    assert!(!validate_email(b"a@b.co."));
    assert!(!validate_email(b"a@b.c0m"));
}

#[test]
fn pincodes_are_six_digits() {
    assert!(validate_pincode(b"395007"));
    assert!(!validate_pincode(b"39500"));
    assert!(!validate_pincode(b"3950071"));
    assert!(!validate_pincode(b"39500a"));
}

#[test]
fn generated_otps_are_six_digits() {
    for _ in 0..50 {
        let otp = generate_otp();
        assert_eq!(otp.len(), 6);
        assert!(otp.iter().all(|c| c.is_ascii_digit()));
        assert_ne!(otp[0], b'0');
    }
}

#[test]
fn dates_parse_with_calendar_validation() {
    assert_eq!(parse_ymd(b"1990-05-17"), Some((1990, 5, 17)));
    assert_eq!(parse_ymd(b"2024-02-29"), Some((2024, 2, 29)));
    assert_eq!(parse_ymd(b"2000-02-29"), Some((2000, 2, 29)));
    assert_eq!(parse_ymd(b"2023-02-29"), None);
    assert_eq!(parse_ymd(b"1900-02-29"), None);
    assert_eq!(parse_ymd(b"1990-13-01"), None);
    assert_eq!(parse_ymd(b"1990-00-01"), None);
    assert_eq!(parse_ymd(b"1990-04-31"), None);
    assert_eq!(parse_ymd(b"1990-4-1"), None);
    assert_eq!(parse_ymd(b"90-04-01"), None);
    assert_eq!(parse_ymd(b"1990/04/01"), None);
}

#[test]
fn epoch_conversion_matches_known_timestamps() {
    assert_eq!(epoch_millis(1970, 1, 1), 0);
    assert_eq!(epoch_millis(1970, 1, 2), 86_400_000);
    assert_eq!(epoch_millis(2024, 1, 1), 1_704_067_200_000);
    assert_eq!(epoch_millis(1969, 12, 31), -86_400_000);
    assert_eq!(epoch_millis(2000, 3, 1), 951_868_800_000);
}

#[test]
fn filename_extensions_come_from_the_last_dot() {
    assert_eq!(get_extension_from_filename(b"photo.JPG"), Some(b"jpg".to_vec()));
    assert_eq!(get_extension_from_filename(b"archive.tar.gz"), Some(b"gz".to_vec()));
    assert_eq!(get_extension_from_filename(b".hidden"), Some(b"hidden".to_vec()));
    assert_eq!(get_extension_from_filename(b"noext"), None);
    assert_eq!(get_extension_from_filename(b"trailing."), Some(Vec::new()));
}

#[test]
fn image_and_document_extensions_are_whitelisted() {
    assert!(is_valid_image_extension(b"jpg"));
    assert!(is_valid_image_extension(b"jpeg"));
    assert!(is_valid_image_extension(b"png"));
    assert!(is_valid_image_extension(b"webp"));
    assert!(!is_valid_image_extension(b"pdf"));
    assert!(!is_valid_image_extension(b"gif"));
    assert!(is_valid_document_extension(b"pdf"));
    assert!(is_valid_document_extension(b"jpg"));
    assert!(!is_valid_document_extension(b"webp"));
}

#[test]
fn content_types_map_to_extensions() {
    assert_eq!(extension_from_content_type(b"image/jpeg"), Some(b"jpg".to_vec()));
    assert_eq!(extension_from_content_type(b"image/jpg"), Some(b"jpg".to_vec()));
    assert_eq!(extension_from_content_type(b"image/png"), Some(b"png".to_vec()));
    assert_eq!(extension_from_content_type(b"image/webp"), Some(b"webp".to_vec()));
    assert_eq!(extension_from_content_type(b"application/pdf"), Some(b"pdf".to_vec()));
    assert_eq!(extension_from_content_type(b"text/plain"), None);
    assert_eq!(get_extension_from_mime(b"image/png"), Some(b"png".to_vec()));
    assert!(is_valid_document_mime(b"image/jpeg"));
    assert!(is_valid_document_mime(b"application/pdf"));
    assert!(!is_valid_document_mime(b"image/webp"));
    assert!(!is_valid_document_mime(b"video/mp4"));
}

#[test]
fn page_parameters_are_normalized() {
    assert_eq!(page_params(None, None, 100), (1, 20));
    assert_eq!(page_params(Some(0), Some(500), 100), (1, 100));
    assert_eq!(page_params(Some(-5), Some(-1), 100), (1, 0));
    assert_eq!(page_params(Some(3), Some(7), 100), (3, 7));
}

#[test]
fn page_counts_round_up() {
    assert_eq!(pages_for(0, 20), 0);
    assert_eq!(pages_for(1, 20), 1);
    assert_eq!(pages_for(40, 20), 2);
    assert_eq!(pages_for(41, 20), 3);
}
