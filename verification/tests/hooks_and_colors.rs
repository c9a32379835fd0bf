use windows_island::hooks::{redraw_taskbar_windows, HookState};
use windows_island::sys_colors::{
    dark_theme_colors, get_override_color, needs_original, sys_color_for, ThemeHandler,
};

fn dummy_hook(_n_index: i32) -> u32 {
    0
}

#[test]
fn override_found_for_registered_index() {
    assert_eq!(get_override_color(3), Some(0x1a1a1a));
}

#[test]
fn no_override_for_unknown_index() {
    assert_eq!(get_override_color(99), None);
}

#[test]
fn override_found_for_highlight() {
    assert_eq!(get_override_color(10), Some(0x646464));
}

#[test]
fn original_pointer_starts_as_none() {
    let state = HookState::new();
    let current = state.original_get_sys_color();
    assert!(current.is_none());
}

#[test]
fn can_set_and_read_original_pointer() {
    let mut state = HookState::new();
    let fn_ptr: fn(i32) -> u32 = dummy_hook;
    state.set_original_get_sys_color(Some(fn_ptr as usize));
    assert!(
        state.original_get_sys_color().is_some(),
        "ORIGINAL_GET_SYS_COLOR should be Some after assignment"
    );
    assert_eq!(state.original_get_sys_color(), Some(fn_ptr as usize));
    let result = fn_ptr(0);
    assert_eq!(result, 0, "dummy_hook should return 0 for any input");
    state.set_original_get_sys_color(None);
    assert!(state.original_get_sys_color().is_none());
}

#[test]
fn unpatch_clears_the_pointer() {
    let mut state = HookState::new();
    let fn_ptr: fn(i32) -> u32 = dummy_hook;
    state.set_original_get_sys_color(Some(fn_ptr as usize));
    assert!(state.original_get_sys_color().is_some());
    state.unpatch_iat().expect("unpatch_iat must not fail");
    assert!(
        state.original_get_sys_color().is_none(),
        "unpatch_iat should clear ORIGINAL_GET_SYS_COLOR"
    );
}

#[test]
fn every_table_entry_is_an_override() {
    let table = dark_theme_colors();
    assert_eq!(table.len(), 10);
    for (idx, color) in table {
        assert_eq!(get_override_color(idx), Some(color));
    }
    assert_eq!(get_override_color(14), Some(0xcccccc));
    assert_eq!(get_override_color(1), None);
    assert_eq!(get_override_color(-1), None);
}

#[test]
fn hooked_color_prefers_override_then_original_then_dark() {
    assert_eq!(sys_color_for(5, Some(0x123456)), 0x0000ff);
    assert_eq!(sys_color_for(7, Some(0x123456)), 0x123456);
    assert_eq!(sys_color_for(7, None), 0x1a1a1a);
}

#[test]
fn handler_starts_with_dark_table() {
    let handler = ThemeHandler::new();
    for idx in -2..30 {
        assert_eq!(handler.get_override(idx), get_override_color(idx));
    }
    let default_handler = ThemeHandler::default();
    assert_eq!(default_handler.get_override(13), Some(0x808080));
}

#[test]
fn handler_set_then_get_and_clear() {
    let mut handler = ThemeHandler::new();
    assert!(handler.set_override(99, 0xabcdef).is_ok());
    assert_eq!(handler.get_override(99), Some(0xabcdef));
    assert!(handler.set_override(3, 0x010203).is_ok());
    assert_eq!(handler.get_override(3), Some(0x010203));
    assert_eq!(handler.get_override(4), Some(0x2d2d2d));
    assert!(handler.clear_overrides().is_ok());
    assert_eq!(handler.get_override(3), None);
    assert_eq!(handler.get_override(99), None);
    assert!(handler.apply_to_window(0).is_ok());
}

#[test]
fn install_and_uninstall_hooks() {
    let mut state = HookState::new();
    assert!(state.install_hooks(Ok(()), Some(0x7000)).is_ok());
    assert_eq!(state.original_get_sys_color(), Some(0x7000));
    assert!(state.message_hook_active());
    state.record_iat_patch(Ok(0x7000));
    assert!(state.iat_patched());
    let (restore, handle) = state.uninstall_hooks().unwrap();
    assert_eq!(restore, Some(0x7000));
    assert_eq!(handle, None);
    assert!(state.original_get_sys_color().is_none());
    assert!(!state.iat_patched());
    assert!(!state.message_hook_active());
}

#[test]
fn failed_iat_patch_is_not_fatal() {
    let mut state = HookState::new();
    assert!(state.install_hooks(Ok(()), Some(0x9000)).is_ok());
    state.record_iat_patch(Err("DLL 'user32.dll' not found in main module import table".to_string()));
    assert!(!state.iat_patched());
    let (restore, _) = state.uninstall_hooks().unwrap();
    assert_eq!(restore, None);
}

#[test]
fn install_hooks_reports_lookup_failures() {
    let mut state = HookState::new();
    let err = state.install_hooks(Err("access denied".to_string()), Some(1)).unwrap_err();
    assert_eq!(err, "GetModuleHandleA(\"user32.dll\") failed: access denied");
    let err = state.install_hooks(Ok(()), None).unwrap_err();
    assert_eq!(err, "GetProcAddress(\"GetSysColor\") returned null");
    assert!(state.original_get_sys_color().is_none());
    assert!(!state.message_hook_active());
    assert!(redraw_taskbar_windows().is_ok());
}

#[test]
fn real_get_sys_color_only_without_override() {
    assert!(!needs_original(3));
    assert!(!needs_original(14));
    assert!(needs_original(7));
    assert!(needs_original(-1));
}
