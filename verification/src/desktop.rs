//! Decisions of the desktop shell: the system colour table written on theme
//! changes, the Windows accent colour, window labels and actions, and the
//! readings of Win32 query results.

use vstd::prelude::*;
use vstd::string::StringExecFns;
use crate::injector::InjectorError;
use crate::text::{decimal, push_decimal, str_eq};
use crate::theme::{InjectedTheme, IpcThemeConfig, injected_theme_is, is_dark_ipc_config, is_light_ipc_config};

verus! {

/// A `0x00RRGGBB` colour as Win32 stores it, `0x00BBGGRR`.
pub open spec fn bgr(rgb: u32) -> u32 {
    ((rgb % 0x100) * 0x1_0000 + (rgb / 0x100 % 0x100) * 0x100 + rgb / 0x1_0000 % 0x100) as u32
}

/// Converts a `0x00RRGGBB` colour to Win32's `0x00BBGGRR`.
pub fn to_bgr(rgb: u32) -> (c: u32)
    ensures
        c == bgr(rgb),
{
    let r = (rgb >> 16) & 0xff;
    let g = (rgb >> 8) & 0xff;
    let b = rgb & 0xff;
    assert(((rgb & 0xff) << 16) | (((rgb >> 8) & 0xff) << 8) | ((rgb >> 16) & 0xff) == (rgb
        % 0x100) * 0x1_0000 + (rgb / 0x100 % 0x100) * 0x100 + rgb / 0x1_0000 % 0x100)
        by (bit_vector);
    (b << 16) | (g << 8) | r
}

/// Converting a 24-bit colour to Win32's byte order twice gives it back: the
/// conversion swaps the red and blue bytes.
pub proof fn law_bgr_swaps_back(rgb: u32)
    requires
        rgb < 0x100_0000,
    ensures
        bgr(bgr(rgb)) == rgb,
        bgr(rgb) < 0x100_0000,
{
    let r = rgb / 0x1_0000 % 0x100;
    let g = rgb / 0x100 % 0x100;
    let b = rgb % 0x100;
    assert(rgb == r * 0x1_0000 + g * 0x100 + b);
    let c = bgr(rgb);
    assert(c == b * 0x1_0000 + g * 0x100 + r);
    assert(c % 0x100 == r);
    assert(c / 0x100 % 0x100 == g);
    assert(c / 0x1_0000 % 0x100 == b);
}

/// The `COLOR_*` indices that a theme change overrides: window, window text,
/// 3D face, 3D shadow, grey text, highlight, highlight text, button face.
pub open spec fn sys_color_indices() -> Seq<i32> {
    seq![3i32, 8i32, 15i32, 16i32, 17i32, 18i32, 19i32, 20i32]
}

/// The `0x00RRGGBB` colours of those indices for a dark or light theme.
pub open spec fn sys_color_palette(dark: bool) -> Seq<u32> {
    if dark {
        seq![0x1a1a1au32, 0xf0f0f0u32, 0x2d2d2du32, 0x141414u32, 0x808080u32, 0x4a90d9u32, 0xffffffu32, 0x2d2d2du32]
    } else {
        seq![0xffffffu32, 0x000000u32, 0xf0f0f0u32, 0xa0a0a0u32, 0x6d6d6du32, 0x0078d7u32, 0xffffffu32, 0xf0f0f0u32]
    }
}

/// The arguments of one `SetSysColors` call: indices and `0x00BBGGRR` values.
#[derive(Debug)]
pub struct SysColorUpdate {
    pub indices: Vec<i32>,
    pub values: Vec<u32>,
}

/// The system colour update that applies the dark (`dark`) or light theme.
pub fn apply_sys_colors(dark: bool) -> (u: SysColorUpdate)
    ensures
        u.indices@ == sys_color_indices(),
        u.values@ == sys_color_palette(dark).map_values(|c: u32| bgr(c)),
{
    let palette: Vec<u32> = if dark {
        vec![0x1a1a1a, 0xf0f0f0, 0x2d2d2d, 0x141414, 0x808080, 0x4a90d9, 0xffffff, 0x2d2d2d]
    } else {
        vec![0xffffff, 0x000000, 0xf0f0f0, 0xa0a0a0, 0x6d6d6d, 0x0078d7, 0xffffff, 0xf0f0f0]
    };
    let mut values: Vec<u32> = Vec::new();
    let mut i: usize = 0;
    while i < palette.len()
        invariant
            palette@ == sys_color_palette(dark),
            0 <= i <= palette@.len(),
            values@ == palette@.take(i as int).map_values(|c: u32| bgr(c)),
        decreases palette@.len() - i,
    {
        values.push(to_bgr(palette[i]));
        i = i + 1;
        assert(values@ =~= palette@.take(i as int).map_values(|c: u32| bgr(c)));
    }
    assert(palette@.take(i as int) =~= palette@);
    SysColorUpdate { indices: vec![3, 8, 15, 16, 17, 18, 19, 20], values }
}

/// The system colour update that restores the default (light) colours.
pub fn restore_sys_colors() -> (u: SysColorUpdate)
    ensures
        u.indices@ == sys_color_indices(),
        u.values@ == sys_color_palette(false).map_values(|c: u32| bgr(c)),
{
    apply_sys_colors(false)
}

/// The Windows theme that the island mirrors.
#[derive(Debug, Clone, Copy, PartialEq, Eq)]
pub struct WindowsTheme {
    pub is_dark: bool,
    pub accent_r: u8,
    pub accent_g: u8,
    pub accent_b: u8,
}

/// The Windows theme from the registry values `SystemUsesLightTheme` and
/// `AccentColor` (`0xAABBGGRR`), each `None` when it could not be read; the
/// default is dark with a warm amber accent.
pub fn windows_theme(uses_light_theme: Option<u32>, accent_color: Option<u32>) -> (t: WindowsTheme)
    ensures
        t.is_dark == match uses_light_theme {
            Some(v) => v == 0,
            None => true,
        },
        ({
            let a = match accent_color {
                Some(v) => v,
                None => 0xffcc9933u32,
            };
            &&& t.accent_r == a % 0x100
            &&& t.accent_g == a / 0x100 % 0x100
            &&& t.accent_b == a / 0x1_0000 % 0x100
        }),
{
    let is_dark = match uses_light_theme {
        Some(v) => v == 0,
        None => true,
    };
    let a = match accent_color {
        Some(v) => v,
        None => 0xffcc9933,
    };
    WindowsTheme {
        is_dark,
        accent_r: (a % 0x100) as u8,
        accent_g: (a / 0x100 % 0x100) as u8,
        accent_b: (a / 0x1_0000 % 0x100) as u8,
    }
}

/// The theme reported where there is no Windows registry.
pub fn fallback_windows_theme() -> (t: WindowsTheme)
    ensures
        t == (WindowsTheme { is_dark: true, accent_r: 100, accent_g: 180, accent_b: 255 }),
{
    WindowsTheme { is_dark: true, accent_r: 100, accent_g: 180, accent_b: 255 }
}

/// The cursor position from `GetCursorPos`: when the call failed, `y` is
/// `i32::MAX`, so that no edge threshold is ever reached.
pub fn cursor_position(ok: bool, x: i32, y: i32) -> (p: (i32, i32))
    ensures
        p == if ok {
            (x, y)
        } else {
            (0i32, i32::MAX)
        },
{
    if !ok {
        return (0, i32::MAX);
    }
    (x, y)
}

/// Whether this process may run, from `CreateMutexW` (`created`: whether it
/// returned a handle) and `GetLastError`: it may unless the named mutex
/// already existed (error 183); a failed creation lets it run anyway.
pub fn single_instance_claimed(created: bool, last_error: u32) -> (b: bool)
    ensures
        b == (!created || last_error != 183),
{
    if !created {
        return true;
    }
    last_error != 183
}

/// The `DWM_BLURBEHIND` argument of `DwmEnableBlurBehindWindow`.
#[derive(Debug, Clone, Copy, PartialEq, Eq)]
pub struct DwmBlurBehind {
    pub dw_flags: u32,
    pub f_enable: i32,
    pub h_rgn_blur: isize,
    pub f_transition_on_maximized: i32,
}

/// The blur-behind settings that clip the blur to `region`; `None` when the
/// region could not be created (a zero handle).
pub fn blur_behind(region: isize) -> (b: Option<DwmBlurBehind>)
    ensures
        b == if region == 0 {
            None
        } else {
            Some(
                DwmBlurBehind {
                    dw_flags: 3,
                    f_enable: 1,
                    h_rgn_blur: region,
                    f_transition_on_maximized: 0,
                },
            )
        },
{
    if region == 0 {
        return None;
    }
    Some(
        DwmBlurBehind {
            dw_flags: 3,
            f_enable: 1,
            h_rgn_blur: region,
            f_transition_on_maximized: 0,
        },
    )
}

/// The corner ellipse size of a rounded region with corner `radius`.
pub fn rounded_corner_size(radius: i32) -> (s: i32)
    requires
        i32::MIN <= 2 * radius <= i32::MAX,
    ensures
        s == 2 * radius,
{
    radius * 2
}

/// The `DWMWA_SYSTEMBACKDROP_TYPE` value: Mica (2) when enabled, else automatic (1).
pub fn mica_backdrop_type(enabled: bool) -> (t: u32)
    ensures
        t == if enabled {
            2u32
        } else {
            1u32
        },
{
    if enabled {
        2
    } else {
        1
    }
}

/// The screen edge that an island snaps to.
#[derive(Debug, Clone, Copy, PartialEq, Eq)]
pub enum Edge {
    Top,
    Bottom,
    Left,
    Right,
}

/// The edge named by `name`; any other name means the top edge.
pub fn parse_edge(name: &str) -> (e: Edge)
    ensures
        e == if name@ == "bottom"@ {
            Edge::Bottom
        } else if name@ == "left"@ {
            Edge::Left
        } else if name@ == "right"@ {
            Edge::Right
        } else {
            Edge::Top
        },
{
    if str_eq(name, "bottom") {
        Edge::Bottom
    } else if str_eq(name, "left") {
        Edge::Left
    } else if str_eq(name, "right") {
        Edge::Right
    } else {
        Edge::Top
    }
}

/// Whether a window label names an island window: "main" or any label that
/// starts with "island".
pub open spec fn is_island_label(label: Seq<char>) -> bool {
    (label.len() >= 6 && label.subrange(0, 6) == "island"@) || label == "main"@
}

/// Whether the window with `label` is one of the islands.
pub fn is_island_window(label: &str) -> (b: bool)
    ensures
        b == is_island_label(label@),
{
    proof {
        reveal_strlit("island");
    }
    let n = label.unicode_len();
    if n >= 6 {
        let head = label.substring_char(0, 6);
        if str_eq(head, "island") {
            return true;
        }
    }
    str_eq(label, "main")
}

/// What to do with every island on a visibility toggle.
#[derive(Debug, Clone, Copy, PartialEq, Eq)]
pub enum IslandVisibility {
    Hide,
    Show,
}

/// The islands are hidden when the main island is visible, shown otherwise.
pub fn toggle_visibility(main_visible: bool) -> (v: IslandVisibility)
    ensures
        v == if main_visible {
            IslandVisibility::Hide
        } else {
            IslandVisibility::Show
        },
{
    if main_visible {
        IslandVisibility::Hide
    } else {
        IslandVisibility::Show
    }
}

/// The label of the island window created for monitor number `idx`.
pub fn island_label(idx: usize) -> (label: String)
    ensures
        label@ == "island_"@ + decimal(idx as nat),
{
    let mut label = String::from_str("island_");
    push_decimal(&mut label, idx as u64);
    label
}

/// What a tray-menu item does.
#[derive(Debug, Clone, Copy, PartialEq, Eq)]
pub enum TrayAction {
    ToggleIslands,
    Quit,
    Nothing,
}

/// The action of the tray-menu item with id `id`.
pub fn tray_menu_action(id: &str) -> (a: TrayAction)
    ensures
        a == if id@ == "toggle"@ {
            TrayAction::ToggleIslands
        } else if id@ == "quit"@ {
            TrayAction::Quit
        } else {
            TrayAction::Nothing
        },
{
    if str_eq(id, "toggle") {
        TrayAction::ToggleIslands
    } else if str_eq(id, "quit") {
        TrayAction::Quit
    } else {
        TrayAction::Nothing
    }
}

/// Whether a tray-icon click toggles the islands: a left click, on release.
pub fn tray_click_toggles(left_button: bool, released: bool) -> (b: bool)
    ensures
        b == (left_button && released),
{
    left_button && released
}

/// Whether `t` is the injected theme named by `name`: "light" or "vidrio",
/// and the dark theme for any other name.
pub open spec fn is_selected_theme(t: InjectedTheme, name: Seq<char>) -> bool {
    if name == "light"@ {
        injected_theme_is(
            t,
            seq![245u8, 245u8, 250u8],
            seq![100u8, 150u8, 220u8],
            0x3f6b851f,
            false,
            seq![255u8, 255u8, 255u8],
            seq![30u8, 30u8, 40u8],
            false,
            1,
        )
    } else if name == "vidrio"@ {
        injected_theme_is(
            t,
            seq![200u8, 220u8, 255u8],
            seq![150u8, 200u8, 255u8],
            0x3f400000,
            true,
            seq![220u8, 235u8, 255u8],
            seq![20u8, 30u8, 50u8],
            false,
            1,
        )
    } else {
        injected_theme_is(
            t,
            seq![20u8, 20u8, 25u8],
            seq![100u8, 180u8, 255u8],
            0x3f733333,
            false,
            seq![15u8, 15u8, 20u8],
            seq![240u8, 240u8, 255u8],
            true,
            1,
        )
    }
}

/// The injected theme named by `name`: "dark", "light" or "vidrio"; any
/// other name means dark.
pub fn select_injected_theme(name: &str) -> (t: InjectedTheme)
    ensures
        is_selected_theme(t, name@),
{
    if str_eq(name, "light") {
        InjectedTheme::light_theme()
    } else if str_eq(name, "vidrio") {
        InjectedTheme::vidrio_theme()
    } else {
        InjectedTheme::dark_theme()
    }
}

/// Whether enabling the theme `name` writes the dark system colours: every
/// theme but "light" does.
pub fn sys_colors_dark_for(name: &str) -> (dark: bool)
    ensures
        dark == (name@ != "light"@),
{
    !str_eq(name, "light")
}

/// The message of an injection error that has one of its own: the
/// administrator hint when Explorer could not be opened, the rebuild hint
/// when the DLL is missing.
pub open spec fn injection_error_text(e: InjectorError) -> Option<Seq<char>> {
    match e {
        InjectorError::OpenProcessFailed(_) => Some(
            "Administrator required — right-click Windows Island and select 'Run as administrator'"@,
        ),
        InjectorError::DllNotFound => Some("Injector DLL not found. Try rebuilding the app."@),
        _ => None,
    }
}

/// The message shown for an injection error that has one of its own; `None`
/// for the others, which are shown as "Injection failed: " and their debug
/// form.
pub fn describe_injection_error(e: &InjectorError) -> (m: Option<String>)
    ensures
        match injection_error_text(*e) {
            Some(t) => m matches Some(s) && s@ == t,
            None => m is None,
        },
{
    match e {
        InjectorError::OpenProcessFailed(_) => Some(
            String::from_str(
                "Administrator required — right-click Windows Island and select 'Run as administrator'",
            ),
        ),
        InjectorError::DllNotFound => Some(
            String::from_str("Injector DLL not found. Try rebuilding the app."),
        ),
        _ => None,
    }
}

/// The host configuration named by `config_name`: "dark" or "light";
/// any other name is refused with a message that names it.
pub fn ipc_config_for(config_name: &str) -> (r: Result<IpcThemeConfig, String>)
    ensures
        config_name@ == "dark"@ ==> (r matches Ok(c) && is_dark_ipc_config(c)),
        config_name@ == "light"@ ==> (r matches Ok(c) && is_light_ipc_config(c)),
        config_name@ != "dark"@ && config_name@ != "light"@ ==> (r matches Err(m) && m@
            == "Unknown theme '"@ + config_name@ + "'; expected 'dark' or 'light'"@),
{
    proof {
        reveal_strlit("dark");
        reveal_strlit("light");
        assert("dark"@.len() != "light"@.len());
    }
    if str_eq(config_name, "dark") {
        Ok(IpcThemeConfig::dark_theme())
    } else if str_eq(config_name, "light") {
        Ok(IpcThemeConfig::light_theme())
    } else {
        let mut m = String::from_str("Unknown theme '");
        m.append(config_name);
        m.append("'; expected 'dark' or 'light'");
        Err(m)
    }
}

/// Signals the injected DLL to re-read its configuration; the DLL reads on
/// demand, so there is nothing to do and this always succeeds.
pub fn refresh_injected_theme_config() -> (r: Result<(), String>)
    ensures
        r is Ok,
{
    Ok(())
}

/// The characters of UTF-16 code units, each unpaired surrogate replaced by
/// U+FFFD, as `String::from_utf16_lossy` decodes them.
pub open spec fn decode_utf16_lossy(u: Seq<u16>) -> Seq<char>
    decreases u.len(),
{
    if u.len() == 0 {
        Seq::empty()
    } else if u[0] < 0xd800 || u[0] > 0xdfff {
        seq![u[0] as char] + decode_utf16_lossy(u.drop_first())
    } else if u[0] <= 0xdbff && u.len() >= 2 && 0xdc00 <= u[1] <= 0xdfff {
        seq![(0x1_0000 + (u[0] - 0xd800) * 0x400 + (u[1] - 0xdc00)) as char]
            + decode_utf16_lossy(u.subrange(2, u.len() as int))
    } else {
        seq!['\u{FFFD}'] + decode_utf16_lossy(u.drop_first())
    }
}

/// `String::from_utf16_lossy`: decodes UTF-16, replacing each unpaired
/// surrogate with U+FFFD.
#[verifier::external_body]
fn utf16_lossy(units: &[u16]) -> (s: String)
    ensures
        s@ == decode_utf16_lossy(units@),
{
    String::from_utf16_lossy(units)
}

/// The length of the NUL-terminated string in `buf`, or 0 when there is no NUL.
pub open spec fn wide_len(buf: Seq<u16>) -> int {
    if exists|i: int| 0 <= i < buf.len() && buf[i] == 0 {
        choose|i: int| 0 <= i < buf.len() && buf[i] == 0 && forall|k: int| 0 <= k < i ==> buf[k] != 0
    } else {
        0
    }
}

/// The wallpaper path from `SystemParametersInfoW(SPI_GETDESKWALLPAPER)`:
/// `ok` is whether the call succeeded, `buf` the buffer it filled. There is
/// no path when the call failed or the string is empty (or unterminated).
pub fn wallpaper_path(ok: bool, buf: &[u16]) -> (p: Option<String>)
    ensures
        match p {
            None => !ok || wide_len(buf@) == 0,
            Some(s) => ok && wide_len(buf@) > 0 && s@ == decode_utf16_lossy(
                buf@.subrange(0, wide_len(buf@)),
            ),
        },
{
    if !ok {
        return None;
    }
    let mut i: usize = 0;
    while i < buf.len() && buf[i] != 0
        invariant
            0 <= i <= buf@.len(),
            forall|k: int| 0 <= k < i ==> buf@[k] != 0,
        decreases buf@.len() - i,
    {
        i = i + 1;
    }
    if i == buf.len() {
        assert(!exists|k: int| 0 <= k < buf@.len() && buf@[k] == 0);
        return None;
    }
    proof {
        assert(0 <= i < buf@.len() && buf@[i as int] == 0);
        let c = choose|j: int| 0 <= j < buf@.len() && buf@[j] == 0 && forall|k: int| 0 <= k < j ==> buf@[k] != 0;
        assert(0 <= i < buf@.len() && buf@[i as int] == 0 && forall|k: int| 0 <= k < i ==> buf@[k] != 0);
        if c < i {
            assert(buf@[c] != 0);
        } else if c > i {
            assert(buf@[i as int] != 0);
        }
        assert(wide_len(buf@) == i);
    }
    if i == 0 {
        return None;
    }
    let mut units: Vec<u16> = Vec::new();
    let mut j: usize = 0;
    while j < i
        invariant
            0 <= j <= i < buf@.len(),
            units@ == buf@.subrange(0, j as int),
        decreases i - j,
    {
        units.push(buf[j]);
        j = j + 1;
        assert(units@ =~= buf@.subrange(0, j as int));
    }
    Some(utf16_lossy(units.as_slice()))
}

} // verus!
