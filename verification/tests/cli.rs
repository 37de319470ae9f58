use screencap::cli::{
    check_method, crop_mode_from_name, crop_mode_name, join_args, parse_hotkey, parsed_args_from, wants_help, CapCli, MOD_ALT, MOD_CONTROL,
    MOD_NOREPEAT, MOD_SHIFT, VK_F1, VK_SNAPSHOT,
};
use screencap::types::{CommandType, CommonOptions, CropMode, CropRect, Pad, TargetType};

fn args(values: &[&str]) -> Vec<String> {
    values.iter().map(|value| value.to_string()).collect()
}

/// The `cap` arguments as the command line reads them when no flag is given
/// (`--target window`, `--crop none`, `--format png`).
fn cap_defaults(method: &str, out: &str) -> CapCli {
    CapCli {
        method: method.to_string(),
        target: TargetType::Window,
        out_path: out.to_string(),
        stdout: false,
        hwnd: None,
        pid: None,
        foreground: false,
        title: None,
        class_name: None,
        monitor: None,
        virtual_screen: false,
        crop: CropMode::NoCrop,
        crop_rect: None,
        pad: None,
        format: "png".to_string(),
        force_alpha: None,
        hotkey: None,
        hotkey_foreground: false,
        cursor: false,
    }
}

/// `cap --method wgc-window --foreground --out a.png`.
fn base_window_cap() -> CapCli {
    CapCli {
        foreground: true,
        ..cap_defaults("wgc-window", "a.png")
    }
}

fn window_cap_with_out(out: &str) -> CapCli {
    CapCli {
        foreground: true,
        ..cap_defaults("wgc-window", out)
    }
}

#[test]
fn parses_global_json_after_list_subcommand() {
    let argv = args(&["screencap-cli", "list", "windows", "--json"]);
    let common = CommonOptions {
        json: true,
        ..CommonOptions::default()
    };
    let parsed = parsed_args_from(&argv, CommandType::ListWindows, common, None)
        .expect("list windows should parse");
    assert_eq!(parsed.command, CommandType::ListWindows);
    assert!(parsed.common.json);
}

#[test]
fn parses_screen_capture_options() {
    let argv = args(&[
        "screencap-cli",
        "cap",
        "--method",
        "wgc-monitor",
        "--target",
        "screen",
        "--monitor",
        "primary",
        "--out",
        "a.png",
    ]);
    let cap = CapCli {
        target: TargetType::Screen,
        monitor: Some("primary".to_string()),
        ..cap_defaults("wgc-monitor", "a.png")
    };
    let parsed = parsed_args_from(&argv, CommandType::Cap, CommonOptions::default(), Some(cap))
        .expect("screen capture should parse");
    assert_eq!(parsed.command, CommandType::Cap);
    assert_eq!(parsed.cap.method, "wgc-monitor");
    assert_eq!(parsed.cap.target, TargetType::Screen);
    assert_eq!(parsed.cap.screen_query.monitor.as_deref(), Some("primary"));
    assert_eq!(parsed.cap.out_path, "a.png");
    assert_eq!(parsed.raw_args, argv.join(" "));
}

#[test]
fn validates_window_target_query() {
    let err = cap_defaults("wgc-window", "a.png")
        .into_options()
        .expect_err("window capture without target query should fail");
    assert_eq!(
        err.message,
        "window target needs one of --hwnd/--pid/--foreground/--title/--class"
    );
}

#[test]
fn no_args_returns_help() {
    assert!(wants_help(&args(&["screencap-cli"])));
    assert!(wants_help(&args(&["screencap-cli", "help"])));
    assert!(!wants_help(&args(&["screencap-cli", "cap"])));
}

#[test]
fn maps_window_query_and_defaults() {
    let o = base_window_cap().into_options().expect("should parse");
    assert_eq!(o.target, TargetType::Window);
    assert!(o.window_query.foreground);
    assert_eq!(o.crop_mode, CropMode::NoCrop);
    assert!(o.crop_rect.is_none());
    assert_eq!(o.pad, Pad::default());
    assert!(!o.force_alpha_255);
    assert!(!o.hotkey_enabled);
    assert!(!o.include_cursor);
}

#[test]
fn rejects_non_png_format() {
    let cap = CapCli {
        format: "jpg".to_string(),
        ..base_window_cap()
    };
    let err = cap.into_options().expect_err("non-png format should fail");
    assert_eq!(err.message, "only --format png is supported");
}

#[test]
fn rejects_stdout_flag() {
    let cap = CapCli {
        stdout: true,
        ..base_window_cap()
    };
    let err = cap.into_options().expect_err("--stdout should be unsupported");
    assert_eq!(err.message, "--stdout is not supported in this version");
}

#[test]
fn manual_crop_requires_crop_rect() {
    let cap = CapCli {
        crop: CropMode::Manual,
        ..base_window_cap()
    };
    let err = cap.into_options().expect_err("manual crop without rect should fail");
    assert_eq!(err.message, "manual crop needs --crop-rect");
}

#[test]
fn manual_crop_with_rect_maps_values() {
    let cap = CapCli {
        crop: CropMode::Manual,
        crop_rect: Some(vec![10, 20, 30, 40]),
        ..base_window_cap()
    };
    let o = cap.into_options().expect("manual crop with rect should parse");
    assert_eq!(o.crop_mode, CropMode::Manual);
    assert_eq!(
        o.crop_rect,
        Some(CropRect {
            x: 10,
            y: 20,
            w: 30,
            h: 40,
        })
    );
}

#[test]
fn pad_values_map_in_ltrb_order() {
    let cap = CapCli {
        pad: Some(vec![1, 2, 3, 4]),
        ..base_window_cap()
    };
    let o = cap.into_options().expect("pad should parse");
    assert_eq!(
        o.pad,
        Pad {
            l: 1,
            t: 2,
            r: 3,
            b: 4,
        }
    );
}

#[test]
fn force_alpha_only_accepts_255() {
    let ok = CapCli {
        force_alpha: Some(255),
        ..base_window_cap()
    };
    assert!(ok.into_options().expect("255 should parse").force_alpha_255);

    let bad = CapCli {
        force_alpha: Some(128),
        ..base_window_cap()
    };
    let err = bad.into_options().expect_err("non-255 force-alpha should fail");
    assert_eq!(err.message, "--force-alpha only supports 255");
}

#[test]
fn hotkey_spec_parses_modifiers_and_key() {
    let cap = CapCli {
        hotkey: Some("ctrl+shift+s".to_string()),
        ..base_window_cap()
    };
    let o = cap.into_options().expect("valid hotkey should parse");
    assert!(o.hotkey_enabled);
    assert_eq!(o.hotkey_spec, "ctrl+shift+s");
    assert_eq!(o.hotkey_vk, b'S' as u32);
    let expected = MOD_NOREPEAT | MOD_CONTROL | MOD_SHIFT;
    assert_eq!(o.hotkey_modifiers, expected);
}

#[test]
fn hotkey_without_modifier_is_invalid() {
    let cap = CapCli {
        hotkey: Some("s".to_string()),
        ..base_window_cap()
    };
    let err = cap.into_options().expect_err("hotkey without modifier should fail");
    assert_eq!(err.message, "invalid --hotkey (ex: ctrl+shift+s, alt+f9)");
}

#[test]
fn hotkey_foreground_requires_hotkey() {
    let cap = CapCli {
        hwnd: Some(1234),
        hotkey_foreground: true,
        ..cap_defaults("wgc-window", "a.png")
    };
    let err = cap
        .into_options()
        .expect_err("hotkey-foreground without hotkey should fail");
    assert_eq!(err.message, "--hotkey-foreground needs --hotkey");
}

#[test]
fn hotkey_foreground_forces_window_query() {
    let cap = CapCli {
        hwnd: Some(1234),
        hotkey: Some("alt+f9".to_string()),
        hotkey_foreground: true,
        ..cap_defaults("wgc-window", "a.png")
    };
    let o = cap
        .into_options()
        .expect("hotkey-foreground with hotkey should parse");
    assert!(o.hotkey_enabled);
    assert!(o.window_query.foreground);
    assert_eq!(o.hotkey_modifiers, MOD_NOREPEAT | MOD_ALT);
    assert_eq!(o.hotkey_vk, VK_F1 + 8);
}

#[test]
fn screen_target_requires_monitor_or_virtual() {
    let cap = CapCli {
        target: TargetType::Screen,
        ..cap_defaults("wgc-monitor", "a.png")
    };
    let err = cap.into_options().expect_err("screen target needs monitor/virtual");
    assert_eq!(err.message, "screen target needs --monitor or --virtual-screen");
}

#[test]
fn virtual_screen_target_parses() {
    let cap = CapCli {
        target: TargetType::Screen,
        virtual_screen: true,
        ..cap_defaults("wgc-monitor", "a.png")
    };
    let o = cap.into_options().expect("virtual-screen should parse");
    assert_eq!(o.target, TargetType::Screen);
    assert!(o.screen_query.virtual_screen);
}

#[test]
fn rejects_out_path_with_invalid_character() {
    let err = window_cap_with_out("shot?.png")
        .into_options()
        .expect_err("output path with an invalid character should fail");
    assert_eq!(err.message, "Output path contains an invalid character: ?");
}

#[test]
fn accepts_normal_out_path() {
    let o = window_cap_with_out("C:/tmp/a.png")
        .into_options()
        .expect("normal path should parse");
    assert_eq!(o.out_path, "C:/tmp/a.png");
}

#[test]
fn rejects_out_path_with_no_file_name() {
    let err = window_cap_with_out(r"C:\")
        .into_options()
        .expect_err("root output path should fail");
    assert_eq!(err.message, r"Output path has no file name: C:\");
}

#[test]
fn list_defaults_do_not_require_cap_flags() {
    let argv = args(&["screencap-cli", "list", "monitors"]);
    let parsed = parsed_args_from(&argv, CommandType::ListMonitors, CommonOptions::default(), None)
        .expect("list monitors should parse");
    assert_eq!(parsed.command, CommandType::ListMonitors);
    assert!(!parsed.cap.hotkey_enabled);
    assert_eq!(parsed.raw_args, "screencap-cli list monitors");
}

#[test]
fn hotkey_keys_and_errors() {
    assert_eq!(parse_hotkey("ctrl+printscreen"), Some((MOD_NOREPEAT | MOD_CONTROL, VK_SNAPSHOT)));
    assert_eq!(parse_hotkey("Alt+Shift+7+"), Some((MOD_NOREPEAT | MOD_ALT | MOD_SHIFT, b'7' as u32)));
    assert_eq!(parse_hotkey("ctrl+f24"), Some((MOD_NOREPEAT | MOD_CONTROL, VK_F1 + 23)));
    assert_eq!(parse_hotkey("ctrl+f25"), None);
    assert_eq!(parse_hotkey("ctrl+a+b"), None);
    assert_eq!(parse_hotkey("ctrl++a"), None);
    assert_eq!(parse_hotkey("ctrl"), None);
    assert_eq!(parse_hotkey(""), None);
}

#[test]
fn joined_raw_arguments() {
    assert_eq!(join_args(&args(&[])), "");
    assert_eq!(join_args(&args(&["a"])), "a");
    assert_eq!(join_args(&args(&["a", "b c", ""])), "a b c ");
}

#[test]
fn rejected_cap_arguments_reject_the_command_line() {
    let argv = args(&["screencap-cli", "cap"]);
    let err = parsed_args_from(
        &argv,
        CommandType::Cap,
        CommonOptions::default(),
        Some(cap_defaults("wgc-window", "a.png")),
    )
    .unwrap_err();
    assert!(err.message.starts_with("window target needs"));
}

#[test]
fn only_two_capture_methods_are_accepted() {
    assert!(check_method("wgc-window").is_none());
    assert!(check_method("wgc-monitor").is_none());
    assert_eq!(
        check_method("wgc-window2").unwrap(),
        "method 'wgc-window2' was removed; use wgc-window"
    );
    assert_eq!(
        check_method("wgc-monitor2").unwrap(),
        "method 'wgc-monitor2' was removed; use wgc-monitor"
    );
    assert_eq!(
        check_method("gdi-bitblt-screen").unwrap(),
        "unknown method 'gdi-bitblt-screen' (supported: wgc-window, wgc-monitor)"
    );
    let err = cap_defaults("dxgi-window", "a.png").into_options().unwrap_err();
    assert_eq!(
        err.message,
        "unknown method 'dxgi-window' (supported: wgc-window, wgc-monitor)"
    );
}

#[test]
fn crop_mode_names_read_back() {
    for m in [CropMode::NoCrop, CropMode::Window, CropMode::Client, CropMode::DwmFrame, CropMode::Manual] {
        assert_eq!(crop_mode_from_name(crop_mode_name(m)), Some(m));
    }
    assert_eq!(crop_mode_from_name("none"), Some(CropMode::NoCrop));
    assert_eq!(crop_mode_from_name("dwm-frame"), Some(CropMode::DwmFrame));
    assert_eq!(crop_mode_name(CropMode::Manual), "manual");
}

#[test]
fn unknown_crop_mode_names_are_refused() {
    assert_eq!(crop_mode_from_name("None"), None);
    assert_eq!(crop_mode_from_name("dwm_frame"), None);
    assert_eq!(crop_mode_from_name(""), None);
    assert_eq!(crop_mode_from_name("manual "), None);
}
