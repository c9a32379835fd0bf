use windows_island::accent::{average_rgb, wallpaper_accent, AccentColor};
use windows_island::desktop::{
    apply_sys_colors, blur_behind, cursor_position, describe_injection_error,
    fallback_windows_theme, ipc_config_for, is_island_window, island_label, mica_backdrop_type,
    parse_edge, refresh_injected_theme_config, restore_sys_colors, rounded_corner_size,
    select_injected_theme, single_instance_claimed, sys_colors_dark_for, to_bgr,
    toggle_visibility, tray_click_toggles, tray_menu_action, wallpaper_path, windows_theme,
    DwmBlurBehind, Edge, IslandVisibility, TrayAction, WindowsTheme,
};
use windows_island::injector::InjectorError;
use windows_island::media::{poll_interval_ms, poll_step, AsyncStatus, PollStep};
use windows_island::stats::{
    battery_status, core_temp_slots, memory_mib, network_totals, split_multi_sz, tjmax_slot,
    to_wide, SystemPowerStatus,
};
use windows_island::theme::InjectedTheme;

#[test]
fn bgr_swaps_red_and_blue() {
    assert_eq!(to_bgr(0x123456), 0x563412);
    assert_eq!(to_bgr(0x4a90d9), 0xd9904a);
    assert_eq!(to_bgr(0xff123456), 0x563412);
    assert_eq!(to_bgr(to_bgr(0x0078d7)), 0x0078d7);
}

#[test]
fn sys_colour_updates() {
    let dark = apply_sys_colors(true);
    assert_eq!(dark.indices, vec![3, 8, 15, 16, 17, 18, 19, 20]);
    assert_eq!(
        dark.values,
        vec![0x1a1a1a, 0xf0f0f0, 0x2d2d2d, 0x141414, 0x808080, 0xd9904a, 0xffffff, 0x2d2d2d]
    );
    let light = apply_sys_colors(false);
    assert_eq!(
        light.values,
        vec![0xffffff, 0x000000, 0xf0f0f0, 0xa0a0a0, 0x6d6d6d, 0xd77800, 0xffffff, 0xf0f0f0]
    );
    let restored = restore_sys_colors();
    assert_eq!(restored.indices, light.indices);
    assert_eq!(restored.values, light.values);
}

#[test]
fn windows_theme_from_registry() {
    assert_eq!(
        windows_theme(Some(0), Some(0xff_d7_78_00)),
        WindowsTheme { is_dark: true, accent_r: 0x00, accent_g: 0x78, accent_b: 0xd7 }
    );
    assert_eq!(
        windows_theme(Some(1), None),
        WindowsTheme { is_dark: false, accent_r: 0x33, accent_g: 0x99, accent_b: 0xcc }
    );
    assert!(windows_theme(None, None).is_dark);
    assert_eq!(
        fallback_windows_theme(),
        WindowsTheme { is_dark: true, accent_r: 100, accent_g: 180, accent_b: 255 }
    );
}

#[test]
fn win32_call_readings() {
    assert_eq!(cursor_position(true, 10, -20), (10, -20));
    assert_eq!(cursor_position(false, 10, 20), (0, i32::MAX));
    assert!(single_instance_claimed(true, 0));
    assert!(!single_instance_claimed(true, 183));
    assert!(single_instance_claimed(false, 183));
    assert_eq!(blur_behind(0), None);
    assert_eq!(
        blur_behind(0x1234),
        Some(DwmBlurBehind { dw_flags: 3, f_enable: 1, h_rgn_blur: 0x1234, f_transition_on_maximized: 0 })
    );
    assert_eq!(rounded_corner_size(12), 24);
    assert_eq!(mica_backdrop_type(true), 2);
    assert_eq!(mica_backdrop_type(false), 1);
}

#[test]
fn labels_edges_and_tray() {
    assert_eq!(parse_edge("bottom"), Edge::Bottom);
    assert_eq!(parse_edge("left"), Edge::Left);
    assert_eq!(parse_edge("right"), Edge::Right);
    assert_eq!(parse_edge("top"), Edge::Top);
    assert_eq!(parse_edge("Bottom"), Edge::Top);
    assert!(is_island_window("main"));
    assert!(is_island_window("island_2"));
    assert!(is_island_window("island"));
    assert!(!is_island_window("settings"));
    assert!(!is_island_window("isla"));
    assert_eq!(island_label(0), "island_0");
    assert_eq!(island_label(12), "island_12");
    assert_eq!(toggle_visibility(true), IslandVisibility::Hide);
    assert_eq!(toggle_visibility(false), IslandVisibility::Show);
    assert_eq!(tray_menu_action("toggle"), TrayAction::ToggleIslands);
    assert_eq!(tray_menu_action("quit"), TrayAction::Quit);
    assert_eq!(tray_menu_action("other"), TrayAction::Nothing);
    assert!(tray_click_toggles(true, true));
    assert!(!tray_click_toggles(true, false));
    assert!(!tray_click_toggles(false, true));
}

#[test]
fn theme_names() {
    assert_eq!(select_injected_theme("light").to_bytes(), InjectedTheme::light_theme().to_bytes());
    assert_eq!(select_injected_theme("vidrio").to_bytes(), InjectedTheme::vidrio_theme().to_bytes());
    assert_eq!(select_injected_theme("dark").to_bytes(), InjectedTheme::dark_theme().to_bytes());
    assert_eq!(select_injected_theme("").to_bytes(), InjectedTheme::dark_theme().to_bytes());
    assert!(!sys_colors_dark_for("light"));
    assert!(sys_colors_dark_for("vidrio"));
    assert!(ipc_config_for("dark").unwrap().is_dark_mode == 1);
    assert!(ipc_config_for("light").unwrap().is_dark_mode == 0);
    assert_eq!(
        ipc_config_for("vidrio").unwrap_err(),
        "Unknown theme 'vidrio'; expected 'dark' or 'light'"
    );
    assert!(refresh_injected_theme_config().is_ok());
}

#[test]
fn injection_error_messages() {
    assert_eq!(
        describe_injection_error(&InjectorError::OpenProcessFailed("PID 1".to_string())).unwrap(),
        "Administrator required — right-click Windows Island and select 'Run as administrator'"
    );
    assert_eq!(
        describe_injection_error(&InjectorError::DllNotFound).unwrap(),
        "Injector DLL not found. Try rebuilding the app."
    );
    assert!(describe_injection_error(&InjectorError::WriteFailed).is_none());
    assert!(describe_injection_error(&InjectorError::ProcessNotFound("x".to_string())).is_none());
}

#[test]
fn wallpaper_paths() {
    let mut buf = [0u16; 260];
    let path: Vec<u16> = "C:\\Wallpapers\\bosque.jpg".encode_utf16().collect();
    buf[..path.len()].copy_from_slice(&path);
    assert_eq!(wallpaper_path(true, &buf).unwrap(), "C:\\Wallpapers\\bosque.jpg");
    assert_eq!(wallpaper_path(false, &buf), None);
    assert_eq!(wallpaper_path(true, &[0u16; 260]), None);
    assert_eq!(wallpaper_path(true, &[0x41u16; 4]), None);
    assert_eq!(wallpaper_path(true, &[0x41, 0xd800, 0x42, 0]).unwrap(), "A\u{FFFD}B");
    assert_eq!(wallpaper_path(true, &[0xd83d, 0xde00, 0]).unwrap(), "\u{1F600}");
}

#[test]
fn battery_readings() {
    let mut s = SystemPowerStatus {
        ac_line_status: 1,
        battery_flag: 8,
        battery_life_percent: 76,
        system_status_flag: 0,
        battery_life_time: 0,
        battery_full_life_time: 0,
    };
    assert_eq!(battery_status(true, &s), (76, true));
    assert_eq!(battery_status(false, &s), (-1, false));
    s.ac_line_status = 0;
    assert_eq!(battery_status(true, &s), (76, false));
    s.battery_flag = 128;
    assert_eq!(battery_status(true, &s), (-1, false));
    s.battery_flag = 1;
    s.battery_life_percent = 255;
    assert_eq!(battery_status(true, &s), (-1, false));
}

#[test]
fn memory_and_network() {
    assert_eq!(memory_mib(16 * 1024 * 1024 * 1024, 3 * 1024 * 1024 + 5), (3, 16384));
    assert_eq!(network_totals(&[]), (0, 0));
    assert_eq!(network_totals(&[(10, 1), (20, 2), (30, 3)]), (60, 6));
}

#[test]
fn core_temp_slot_arithmetic() {
    assert_eq!(core_temp_slots(8, 1), 8);
    assert_eq!(core_temp_slots(64, 8), 256);
    assert_eq!(core_temp_slots(u32::MAX, u32::MAX), 256);
    assert_eq!(core_temp_slots(0, 4), 0);
    assert_eq!(tjmax_slot(13, 8), 1);
    assert_eq!(tjmax_slot(255, 1), 127);
}

#[test]
fn multi_sz_lists() {
    let w = |s: &str| s.encode_utf16().collect::<Vec<u16>>();
    let mut buf = w("a\\b");
    buf.push(0);
    buf.extend(w("cd"));
    buf.push(0);
    buf.push(0);
    buf.extend(w("ignored"));
    assert_eq!(split_multi_sz(&buf), vec![w("a\\b"), w("cd")]);
    assert!(split_multi_sz(&[]).is_empty());
    assert!(split_multi_sz(&[0, 0]).is_empty());
    let mut unterminated = w("x");
    unterminated.push(0);
    unterminated.extend(w("tail"));
    assert_eq!(split_multi_sz(&unterminated), vec![w("x")]);
}

#[test]
fn wide_strings() {
    let expected: Vec<u16> = "Local\\CoreTempMappingObjectEx".encode_utf16().chain(Some(0)).collect();
    assert_eq!(to_wide("Local\\CoreTempMappingObjectEx"), expected);
    let expected: Vec<u16> = "ñ😀".encode_utf16().chain(Some(0)).collect();
    assert_eq!(to_wide("ñ😀"), expected);
    assert_eq!(to_wide(""), vec![0]);
}

#[test]
fn average_colour_of_pixels() {
    assert_eq!(average_rgb(&[]), None);
    assert_eq!(average_rgb(&[1, 2]), None);
    assert_eq!(average_rgb(&[10, 20, 30, 11, 21, 31, 99]), Some(AccentColor { r: 10, g: 20, b: 30 }));
    assert_eq!(average_rgb(&[255, 0, 7, 255, 0, 8]), Some(AccentColor { r: 255, g: 0, b: 7 }));
    assert_eq!(average_rgb(&[7u8, 8, 9].repeat(5)), Some(AccentColor { r: 7, g: 8, b: 9 }));
}

#[test]
fn wallpaper_accent_of_images() {
    let uniform: Vec<u8> = [40u8, 90, 200].repeat(37 * 23);
    assert_eq!(wallpaper_accent(37, 23, &uniform), Some(AccentColor { r: 40, g: 90, b: 200 }));
    // Left half black, right half white: nearest sampling picks 8 columns of each.
    let mut halves = Vec::new();
    for _y in 0..32 {
        for x in 0..32 {
            let v = if x < 16 { 0u8 } else { 255u8 };
            halves.extend([v, v, v]);
        }
    }
    assert_eq!(wallpaper_accent(32, 32, &halves), Some(AccentColor { r: 127, g: 127, b: 127 }));
    // A 16x16 image is averaged as it is.
    let mut ramp = Vec::new();
    for i in 0..256u32 {
        ramp.extend([i as u8, 0, 0]);
    }
    assert_eq!(wallpaper_accent(16, 16, &ramp), Some(AccentColor { r: 127, g: 0, b: 0 }));
    // Alternating black and white columns average to grey, but halving the
    // width with nearest sampling keeps only one kind of column.
    let mut stripes = Vec::new();
    for _y in 0..16 {
        for x in 0..32 {
            let v = if x % 2 == 0 { 0u8 } else { 255u8 };
            stripes.extend([v, v, v]);
        }
    }
    assert_eq!(average_rgb(&stripes), Some(AccentColor { r: 127, g: 127, b: 127 }));
    assert_eq!(wallpaper_accent(32, 16, &stripes), Some(AccentColor { r: 255, g: 255, b: 255 }));
    // No pixels: the resize yields a blank 16x16 image.
    assert_eq!(wallpaper_accent(0, 0, &[]), Some(AccentColor { r: 0, g: 0, b: 0 }));
}

#[test]
fn media_polling() {
    assert_eq!(poll_step(AsyncStatus::Completed), PollStep::Ready);
    assert_eq!(poll_step(AsyncStatus::Started), PollStep::Wait);
    assert_eq!(poll_step(AsyncStatus::Canceled), PollStep::Failed);
    assert_eq!(poll_step(AsyncStatus::Error), PollStep::Failed);
    assert_eq!(poll_interval_ms(), 5);
}
