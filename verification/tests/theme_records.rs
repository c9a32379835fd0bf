use windows_island::theme::{InjectedTheme, IpcThemeConfig, ThemeConfig, ThemeError, THEME_RECORD_LEN};

#[test]
fn test_theme_constructors() {
    let dark = InjectedTheme::dark_theme();
    assert_eq!(dark.primary_rgb, [20, 20, 25]);
    assert_eq!(dark.accent_rgb, [100, 180, 255]);
    assert!(dark.is_dark_mode);
    assert!(!dark.border_iridescence);

    let light = InjectedTheme::light_theme();
    assert_eq!(light.primary_rgb, [245, 245, 250]);
    assert!(!light.is_dark_mode);

    let vidrio = InjectedTheme::vidrio_theme();
    assert_eq!(vidrio.primary_rgb, [200, 220, 255]);
    assert!(vidrio.border_iridescence);
}

#[test]
fn test_round_trip_theme_data() {
    let original = InjectedTheme::vidrio_theme();
    let bytes = original.to_bytes();
    let read_back = InjectedTheme::from_bytes(&bytes).expect("Failed to read theme");
    assert_eq!(read_back.primary_rgb, original.primary_rgb);
    assert_eq!(read_back.accent_rgb, original.accent_rgb);
    assert_eq!(
        f32::from_bits(read_back.transparency_bits),
        f32::from_bits(original.transparency_bits)
    );
    assert_eq!(read_back.border_iridescence, original.border_iridescence);
    assert_eq!(read_back.background_rgb, original.background_rgb);
    assert_eq!(read_back.foreground_rgb, original.foreground_rgb);
    assert_eq!(read_back.is_dark_mode, original.is_dark_mode);
    assert_eq!(read_back.version, original.version);
}

#[test]
fn theme_config_has_expected_size() {
    let size = std::mem::size_of::<ThemeConfig>();
    assert!(size >= 22, "ThemeConfig too small: {} bytes", size);
}

#[test]
fn theme_config_is_copy() {
    fn assert_copy<T: Copy>() {}
    assert_copy::<ThemeConfig>();
}

#[test]
fn ipc_theme_config_size_matches_dll() {
    assert!(
        std::mem::size_of::<IpcThemeConfig>() >= 22,
        "IpcThemeConfig too small: {} bytes",
        std::mem::size_of::<IpcThemeConfig>()
    );
}

#[test]
fn dark_theme_fields() {
    let d = IpcThemeConfig::dark_theme();
    assert_eq!(d.primary_rgb, [20, 20, 25]);
    assert_eq!(d.accent_rgb, [100, 180, 255]);
    assert_eq!(d.is_dark_mode, 1);
    assert_eq!(d.border_iridescence, 0);
    assert_eq!(d.version, 1);
}

#[test]
fn light_theme_fields() {
    let l = IpcThemeConfig::light_theme();
    assert_eq!(l.primary_rgb, [245, 245, 250]);
    assert_eq!(l.is_dark_mode, 0);
    assert_eq!(l.version, 1);
}

#[test]
fn transparency_bits_are_the_f32_levels() {
    assert_eq!(f32::from_bits(InjectedTheme::dark_theme().transparency_bits), 0.95);
    assert_eq!(f32::from_bits(InjectedTheme::light_theme().transparency_bits), 0.92);
    assert_eq!(f32::from_bits(InjectedTheme::vidrio_theme().transparency_bits), 0.75);
    assert_eq!(f32::from_bits(IpcThemeConfig::dark_theme().transparency_bits), 0.95);
    assert_eq!(f32::from_bits(IpcThemeConfig::light_theme().transparency_bits), 0.92);
}

#[test]
fn dark_record_has_c_layout() {
    let bytes = InjectedTheme::dark_theme().to_bytes();
    assert_eq!(bytes.len(), THEME_RECORD_LEN);
    let bits = 0.95f32.to_bits().to_le_bytes();
    let expected: Vec<u8> = vec![
        20, 20, 25, 100, 180, 255, 0, 0, bits[0], bits[1], bits[2], bits[3], 0, 15, 15, 20, 240,
        240, 255, 1, 1, 0, 0, 0,
    ];
    assert_eq!(bytes, expected);
}

#[test]
fn dll_reads_what_host_writes() {
    let host = IpcThemeConfig::light_theme();
    let cfg = ThemeConfig::from_bytes(&host.to_bytes()).expect("24 bytes");
    assert_eq!(cfg.primary_rgb, host.primary_rgb);
    assert_eq!(cfg.accent_rgb, host.accent_rgb);
    assert_eq!(cfg.transparency_bits, host.transparency_bits);
    assert_eq!(cfg.border_iridescence, host.border_iridescence);
    assert_eq!(cfg.background_rgb, host.background_rgb);
    assert_eq!(cfg.foreground_rgb, host.foreground_rgb);
    assert_eq!(cfg.is_dark_mode, host.is_dark_mode);
    assert_eq!(cfg.version, host.version);

    let theme = InjectedTheme::vidrio_theme();
    let cfg = ThemeConfig::from_bytes(&theme.to_bytes()).unwrap();
    assert_eq!(cfg.border_iridescence, 1);
    assert_eq!(cfg.is_dark_mode, 0);
}

#[test]
fn short_or_invalid_records_are_refused() {
    assert!(ThemeConfig::from_bytes(&[0u8; 23]).is_none());
    assert!(ThemeConfig::from_bytes(&[0u8; 30]).is_some());
    match InjectedTheme::from_bytes(&[0u8; 23]) {
        Err(ThemeError::ReadFailed(_)) => {}
        other => panic!("unexpected {:?}", other),
    }
    let mut bytes = InjectedTheme::dark_theme().to_bytes();
    bytes[12] = 2;
    assert!(InjectedTheme::from_bytes(&bytes).is_err());
}

#[test]
fn theme_error_messages() {
    assert_eq!(
        ThemeError::CreateMappingFailed("x".to_string()).message(),
        "Failed to create file mapping: x"
    );
    assert_eq!(ThemeError::MapViewFailed("y".to_string()).message(), "Failed to map view of file: y");
    assert_eq!(ThemeError::WriteFailed("z".to_string()).message(), "Failed to write theme data: z");
    assert_eq!(ThemeError::ReadFailed("w".to_string()).message(), "Failed to read theme data: w");
}
