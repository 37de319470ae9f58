use screencap::encode_png::{
    check_output_directory, check_overwrite, com_init_outcome, final_path_from_buffer, final_path_step,
    normalize_path_separators, strip_extended_length_prefix, FinalPathStep,
};

#[test]
fn normalize_rewrites_forward_slashes() {
    assert_eq!(normalize_path_separators("a/b/c.png"), r"a\b\c.png");
    assert_eq!(
        normalize_path_separators("C:/Users/me/shot.png"),
        r"C:\Users\me\shot.png"
    );
}

#[test]
fn normalize_leaves_backslash_paths_untouched() {
    assert_eq!(normalize_path_separators(r"C:\dir\x.png"), r"C:\dir\x.png");
    assert_eq!(normalize_path_separators("plain.png"), "plain.png");
    assert_eq!(normalize_path_separators(""), "");
}

#[test]
fn strip_prefix_handles_dos_and_unc_and_plain() {
    assert_eq!(
        strip_extended_length_prefix(r"\\?\C:\dir\TEST.png"),
        r"C:\dir\TEST.png"
    );
    assert_eq!(
        strip_extended_length_prefix(r"\\?\UNC\server\share\a.png"),
        r"\\server\share\a.png"
    );
    assert_eq!(
        strip_extended_length_prefix(r"C:\already\clean.png"),
        r"C:\already\clean.png"
    );
}

#[test]
fn normalize_twice_equals_once() {
    let once = normalize_path_separators("a/b\\c//d.png");
    assert_eq!(once, r"a\b\c\\d.png");
    assert_eq!(normalize_path_separators(&once), once);
}

#[test]
fn overwrite_guard_refuses_existing_file() {
    let err = check_overwrite(false, true).unwrap_err();
    assert_eq!(err.message, "output exists (use --overwrite)");
    assert_eq!(err.where_, "SavePngWic");
    assert!(check_overwrite(true, true).is_ok());
    assert!(check_overwrite(false, false).is_ok());
}

#[test]
fn com_init_tolerates_changed_mode() {
    assert!(com_init_outcome(0).unwrap());
    assert!(com_init_outcome(1).unwrap());
    assert!(!com_init_outcome(0x8001_0106u32 as i32).unwrap());
    let err = com_init_outcome(0x8000_4005u32 as i32).unwrap_err();
    assert_eq!(err.message, "CoInitializeEx failed");
    assert_eq!(err.hresult, Some(0x8000_4005));
}

#[test]
fn final_path_steps() {
    assert_eq!(final_path_step(0, 512), FinalPathStep::Fallback);
    assert_eq!(final_path_step(20, 512), FinalPathStep::Use(20));
    assert_eq!(final_path_step(512, 512), FinalPathStep::Use(512));
    assert_eq!(final_path_step(700, 512), FinalPathStep::Grow(700));
}

#[test]
fn final_path_from_buffer_strips_prefix() {
    let mut buf: Vec<u16> = r"\\?\C:\dir\TEST.png".encode_utf16().collect();
    let len = buf.len();
    buf.extend_from_slice(&[0, 0, 0]);
    assert_eq!(final_path_from_buffer(&buf, len), r"C:\dir\TEST.png");
}

#[test]
fn missing_output_directory_is_named() {
    assert!(check_output_directory(r"C:\dir", true).is_ok());
    let e = check_output_directory(r"C:\nope", false).unwrap_err();
    assert_eq!(e.message, r"output directory does not exist: C:\nope");
}
