use screencap::util::{utf8_from_wide, validate_output_path, wide_from_utf8};

#[test]
fn valid_paths_pass() {
    assert!(validate_output_path(r"C:\Users\me\shot.png").is_ok());
    assert!(validate_output_path("C:/Users/me/shot.png").is_ok());
    assert!(validate_output_path("shot.png").is_ok());
}

#[test]
fn empty_or_blank_paths_are_rejected() {
    assert!(validate_output_path("").is_err());
    assert!(validate_output_path("   ").is_err());
}

#[test]
fn invalid_characters_are_rejected() {
    for bad in [
        "a<b.png", "a>b.png", "a\"b.png", "a|b.png", "a?b.png", "a*b.png",
    ] {
        assert!(
            validate_output_path(bad).is_err(),
            "{bad} should be rejected"
        );
    }
    assert!(validate_output_path("a\u{0007}b.png").is_err());
}

#[test]
fn paths_without_a_file_name_are_rejected() {
    assert!(validate_output_path(r"C:\").is_err());
    assert!(validate_output_path(r"\").is_err());
    assert!(validate_output_path(r"C:\dir\").is_err());
    assert!(validate_output_path(r"a\..").is_err());
}

#[test]
fn validation_messages() {
    assert_eq!(validate_output_path("  ").unwrap_err(), "Output path is empty.");
    assert_eq!(
        validate_output_path("a|b.png").unwrap_err(),
        "Output path contains an invalid character: |"
    );
    assert_eq!(
        validate_output_path("a\u{0001}b.png").unwrap_err(),
        "Output path contains a control character."
    );
    assert_eq!(
        validate_output_path(r"C:\dir\").unwrap_err(),
        r"Output path has no file name: C:\dir\"
    );
}

#[test]
fn unc_and_device_roots_have_no_file_name() {
    assert!(validate_output_path(r"\\server\share").is_err());
    assert!(validate_output_path(r"\\server\share\a.png").is_ok());
    assert!(validate_output_path(r"a\.").is_ok());
    assert!(validate_output_path("dir/./").is_err());
}

#[test]
fn utf16_round_trip_and_lossy_decoding() {
    let s = "a\u{e9}\u{1F600}z";
    let w = wide_from_utf8(s);
    assert_eq!(w, s.encode_utf16().collect::<Vec<u16>>());
    assert_eq!(utf8_from_wide(&w), s);
    assert_eq!(utf8_from_wide(&[0x61, 0xD800, 0x62]), "a\u{FFFD}b");
    assert_eq!(utf8_from_wide(&[0xDC00]), "\u{FFFD}");
}
