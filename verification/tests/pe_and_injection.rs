use windows_island::injector::{
    InjectAction, InjectEvent, Injection, Injector, InjectorError, ProcessEntry,
};
use windows_island::pe_import::{image_size, locate_iat_slot, IatSlot, PeImportError};
use windows_island::theme::{InjectedTheme, ThemeError};
use windows_island::theme_injection::{
    EnableAction, EnableEvent, EnableFailure, ThemeEnabling,
};

fn put_u32(img: &mut [u8], off: usize, v: u32) {
    img[off..off + 4].copy_from_slice(&v.to_le_bytes());
}

fn put_u64(img: &mut [u8], off: usize, v: u64) {
    img[off..off + 8].copy_from_slice(&v.to_le_bytes());
}

fn put_bytes(img: &mut [u8], off: usize, b: &[u8]) {
    img[off..off + b.len()].copy_from_slice(b);
}

/// A small PE32+ image importing `Sleep` from KERNEL32.dll and, from
/// USER32.dll, one function by ordinal and then `GetSysColor`.
fn sample_image() -> Vec<u8> {
    let mut img = vec![0u8; 0x400];
    put_bytes(&mut img, 0, b"MZ");
    put_u32(&mut img, 60, 0x80);
    put_bytes(&mut img, 0x80, b"PE\0\0");
    put_u32(&mut img, 0x80 + 80, 0x400);
    put_u32(&mut img, 0x80 + 144, 0x200);
    // KERNEL32.dll descriptor
    put_u32(&mut img, 0x200, 0x240);
    put_u32(&mut img, 0x200 + 12, 0x300);
    put_u32(&mut img, 0x200 + 16, 0x280);
    // USER32.dll descriptor
    put_u32(&mut img, 0x214, 0x260);
    put_u32(&mut img, 0x214 + 12, 0x310);
    put_u32(&mut img, 0x214 + 16, 0x2a0);
    // terminator descriptor stays zero
    put_u64(&mut img, 0x240, 0x340);
    put_u64(&mut img, 0x260, (1u64 << 63) | 5);
    put_u64(&mut img, 0x268, 0x320);
    put_u64(&mut img, 0x280, 0x5555);
    put_u64(&mut img, 0x2a0, 0x1111);
    put_u64(&mut img, 0x2a8, 0x7ffa_1234_5678);
    put_bytes(&mut img, 0x300, b"KERNEL32.dll\0");
    put_bytes(&mut img, 0x310, b"USER32.dll\0");
    put_bytes(&mut img, 0x322, b"GetSysColor\0");
    put_bytes(&mut img, 0x342, b"Sleep\0");
    img
}

#[test]
fn finds_the_get_sys_color_slot() {
    let img = sample_image();
    assert_eq!(
        locate_iat_slot(&img, b"user32.dll", b"GetSysColor"),
        Ok(IatSlot { offset: 0x2a8, current: 0x7ffa_1234_5678 })
    );
    assert_eq!(
        locate_iat_slot(&img, b"kernel32.DLL", b"Sleep"),
        Ok(IatSlot { offset: 0x280, current: 0x5555 })
    );
}

#[test]
fn size_of_image_from_headers() {
    let img = sample_image();
    assert_eq!(image_size(&img), Some(0x400));
    assert_eq!(image_size(&img[..0xd4]), Some(0x400));
    assert_eq!(image_size(&img[..0xd3]), None);
    let mut bad = sample_image();
    bad[1] = 0;
    assert_eq!(image_size(&bad), None);
    let mut bad = sample_image();
    bad[0x80] = 0;
    assert_eq!(image_size(&bad), None);
}

#[test]
fn patched_slot_is_found_again_and_restored() {
    let img = sample_image();
    let slot = locate_iat_slot(&img, b"user32.dll", b"GetSysColor").unwrap();
    let mut patched = img.clone();
    put_u64(&mut patched, slot.offset, 0xdead_beef);
    assert_eq!(
        locate_iat_slot(&patched, b"user32.dll", b"GetSysColor"),
        Ok(IatSlot { offset: slot.offset, current: 0xdead_beef })
    );
    put_u64(&mut patched, slot.offset, slot.current);
    assert_eq!(patched, img);
}

#[test]
fn function_names_match_exactly() {
    let img = sample_image();
    assert_eq!(
        locate_iat_slot(&img, b"user32.dll", b"getsyscolor"),
        Err(PeImportError::FunctionNotFound)
    );
    assert_eq!(
        locate_iat_slot(&img, b"user32.dll", b"GetSysColorBrush"),
        Err(PeImportError::FunctionNotFound)
    );
}

#[test]
fn missing_dll_is_reported() {
    let img = sample_image();
    assert_eq!(locate_iat_slot(&img, b"gdi32.dll", b"GetSysColor"), Err(PeImportError::DllNotFound));
}

#[test]
fn header_errors_are_reported() {
    let mut img = sample_image();
    img[0] = b'X';
    assert_eq!(locate_iat_slot(&img, b"user32.dll", b"GetSysColor"), Err(PeImportError::InvalidDosMagic));

    let mut img = sample_image();
    img[0x81] = b'X';
    assert_eq!(
        locate_iat_slot(&img, b"user32.dll", b"GetSysColor"),
        Err(PeImportError::InvalidPeSignature)
    );

    let mut img = sample_image();
    put_u32(&mut img, 0x80 + 144, 0);
    assert_eq!(
        locate_iat_slot(&img, b"user32.dll", b"GetSysColor"),
        Err(PeImportError::NoImportDirectory)
    );
}

#[test]
fn reads_outside_the_image_are_refused() {
    assert_eq!(locate_iat_slot(&[], b"user32.dll", b"GetSysColor"), Err(PeImportError::ImageOutOfRange));
    let img = sample_image();
    assert_eq!(
        locate_iat_slot(&img[..0x210], b"user32.dll", b"GetSysColor"),
        Err(PeImportError::ImageOutOfRange)
    );
    let mut img = sample_image();
    put_u32(&mut img, 60, 0x7fff_0000);
    assert_eq!(locate_iat_slot(&img, b"user32.dll", b"GetSysColor"), Err(PeImportError::ImageOutOfRange));
}

#[test]
fn import_error_messages() {
    assert_eq!(
        PeImportError::InvalidDosMagic.message("user32.dll", "GetSysColor"),
        "Invalid DOS magic (expected MZ / 0x5A4D)"
    );
    assert_eq!(
        PeImportError::InvalidPeSignature.message("user32.dll", "GetSysColor"),
        "Invalid PE signature (expected PE\\0\\0 / 0x00004550)"
    );
    assert_eq!(
        PeImportError::NoImportDirectory.message("user32.dll", "GetSysColor"),
        "Module has no import directory"
    );
    assert_eq!(
        PeImportError::FunctionNotFound.message("user32.dll", "GetSysColor"),
        "'GetSysColor' not found in 'user32.dll' import thunks"
    );
    assert_eq!(
        PeImportError::DllNotFound.message("user32.dll", "GetSysColor"),
        "DLL 'user32.dll' not found in main module import table"
    );
}

fn snapshot() -> Vec<ProcessEntry> {
    vec![
        ProcessEntry { exe_name: "System".to_string(), pid: 4 },
        ProcessEntry { exe_name: "Explorer.EXE".to_string(), pid: 4242 },
        ProcessEntry { exe_name: "explorer.exe".to_string(), pid: 5000 },
        ProcessEntry { exe_name: "StartMenuExperienceHost.exe".to_string(), pid: 777 },
    ]
}

#[test]
fn process_lookup_ignores_ascii_case_and_takes_the_first() {
    let injector = Injector::new("C:\\island\\theme.dll".to_string());
    let procs = snapshot();
    assert_eq!(injector.find_process_by_name(&procs, "explorer.exe").unwrap(), 4242);
    assert_eq!(injector.find_process_by_name(&procs, "startmenuexperiencehost.EXE").unwrap(), 777);
    match injector.find_process_by_name(&procs, "notepad.exe") {
        Err(InjectorError::ProcessNotFound(name)) => assert_eq!(name, "notepad.exe"),
        other => panic!("unexpected {:?}", other),
    }
}

#[test]
fn explorer_and_start_menu_targets() {
    let injector = Injector::new("C:\\island\\theme.dll".to_string());
    let procs = snapshot();
    let inj = injector.inject_into_explorer(&procs).unwrap();
    assert!(matches!(inj.next_action(), InjectAction::CheckDllExists));
    let mut inj = injector.inject_into_startmenu(&procs).unwrap();
    inj.advance(InjectEvent::Done(true));
    assert!(matches!(inj.next_action(), InjectAction::OpenProcess(777)));
    match injector.inject_into_explorer(&procs[..1]) {
        Err(InjectorError::ProcessNotFound(name)) => assert_eq!(name, "explorer.exe"),
        other => panic!("unexpected {:?}", other.map(|_| ())),
    }
    match injector.inject_into_startmenu(&[]) {
        Err(InjectorError::ProcessNotFound(name)) => assert_eq!(name, "StartMenuExperienceHost.exe"),
        other => panic!("unexpected {:?}", other.map(|_| ())),
    }
}

#[test]
fn successful_injection_releases_everything() {
    let path = "C:\\island\\theme.dll";
    let mut inj = Injection::start(1234, path);
    assert!(matches!(inj.next_action(), InjectAction::CheckDllExists));
    inj.advance(InjectEvent::Done(true));
    assert!(matches!(inj.next_action(), InjectAction::OpenProcess(1234)));
    inj.advance(InjectEvent::Done(true));
    match inj.next_action() {
        InjectAction::AllocRemote(n) => assert_eq!(n, path.len() + 1),
        other => panic!("unexpected {:?}", other),
    }
    inj.advance(InjectEvent::Done(true));
    assert!(matches!(inj.next_action(), InjectAction::WritePath));
    let bytes = inj.path_with_nul();
    let mut expected = path.as_bytes().to_vec();
    expected.push(0);
    assert_eq!(bytes, expected);
    inj.advance(InjectEvent::Written(Some(bytes.len())));
    assert!(matches!(inj.next_action(), InjectAction::GetKernel32));
    inj.advance(InjectEvent::Done(true));
    assert!(matches!(inj.next_action(), InjectAction::GetLoadLibrary));
    inj.advance(InjectEvent::Done(true));
    assert!(matches!(inj.next_action(), InjectAction::CreateRemoteThread));
    inj.advance(InjectEvent::Done(true));
    assert!(matches!(inj.next_action(), InjectAction::WaitThread(5000)));
    inj.advance(InjectEvent::Done(false));
    assert!(matches!(
        inj.next_action(),
        InjectAction::Finish { free_remote: true, close_thread: true, close_process: true, result: Ok(()) }
    ));
    inj.advance(InjectEvent::Done(false));
    assert!(matches!(inj.next_action(), InjectAction::Finish { result: Ok(()), .. }));
}

#[test]
fn failed_open_names_the_pid() {
    let mut inj = Injection::start(1234, "C:\\x.dll");
    inj.advance(InjectEvent::Done(true));
    inj.advance(InjectEvent::Done(false));
    match inj.next_action() {
        InjectAction::Finish {
            free_remote: false,
            close_thread: false,
            close_process: false,
            result: Err(InjectorError::OpenProcessFailed(text)),
        } => assert_eq!(text, "PID 1234"),
        other => panic!("unexpected {:?}", other),
    }
}

#[test]
fn missing_dll_stops_before_opening() {
    let mut inj = Injection::start(1, "C:\\missing.dll");
    inj.advance(InjectEvent::Done(false));
    assert!(matches!(
        inj.next_action(),
        InjectAction::Finish {
            free_remote: false,
            close_thread: false,
            close_process: false,
            result: Err(InjectorError::DllNotFound)
        }
    ));
}

#[test]
fn short_write_frees_the_remote_memory() {
    let mut inj = Injection::start(9, "C:\\x.dll");
    inj.advance(InjectEvent::Done(true));
    inj.advance(InjectEvent::Done(true));
    inj.advance(InjectEvent::Done(true));
    inj.advance(InjectEvent::Written(Some(3)));
    assert!(matches!(
        inj.next_action(),
        InjectAction::Finish {
            free_remote: true,
            close_thread: false,
            close_process: true,
            result: Err(InjectorError::WriteFailed)
        }
    ));
    let mut inj = Injection::start(9, "C:\\x.dll");
    inj.advance(InjectEvent::Done(true));
    inj.advance(InjectEvent::Done(true));
    inj.advance(InjectEvent::Done(true));
    inj.advance(InjectEvent::Written(None));
    assert!(matches!(inj.next_action(), InjectAction::Finish { result: Err(InjectorError::WriteFailed), .. }));
}

#[test]
fn failed_allocation_and_thread_steps() {
    let mut inj = Injection::start(9, "C:\\x.dll");
    inj.advance(InjectEvent::Done(true));
    inj.advance(InjectEvent::Done(true));
    inj.advance(InjectEvent::Done(false));
    assert!(matches!(
        inj.next_action(),
        InjectAction::Finish {
            free_remote: false,
            close_thread: false,
            close_process: true,
            result: Err(InjectorError::AllocFailed)
        }
    ));
    let mut inj = Injection::start(9, "C:\\x.dll");
    for _ in 0..3 {
        inj.advance(InjectEvent::Done(true));
    }
    inj.advance(InjectEvent::Written(Some(9)));
    inj.advance(InjectEvent::Done(true));
    inj.advance(InjectEvent::Done(false));
    assert!(matches!(
        inj.next_action(),
        InjectAction::Finish {
            free_remote: true,
            close_thread: false,
            close_process: true,
            result: Err(InjectorError::CreateThreadFailed)
        }
    ));
}

#[test]
fn path_with_nul_byte_cannot_be_written() {
    let mut inj = Injection::start(9, "C:\\a\0b.dll");
    inj.advance(InjectEvent::Done(true));
    inj.advance(InjectEvent::Done(true));
    assert!(matches!(
        inj.next_action(),
        InjectAction::Finish {
            free_remote: false,
            close_thread: false,
            close_process: false,
            result: Err(InjectorError::AllocFailed)
        }
    ));
}

#[test]
fn enabling_when_active_does_nothing() {
    let e = ThemeEnabling::start(true, "dark");
    assert!(e.is_finished());
    assert!(matches!(e.next_action(), EnableAction::Finish));
    assert!(e.outcome().is_ok());
}

#[test]
fn enabling_light_runs_every_step() {
    let mut e = ThemeEnabling::start(false, "light");
    match e.next_action() {
        EnableAction::WriteTheme(t) => {
            let light = InjectedTheme::light_theme();
            assert_eq!(t.to_bytes(), light.to_bytes());
        }
        other => panic!("unexpected {:?}", other),
    }
    e.advance(EnableEvent::Done);
    assert!(matches!(e.next_action(), EnableAction::WriteTheme(_)));
    e.advance(EnableEvent::ThemeWritten(Ok(())));
    assert!(matches!(e.next_action(), EnableAction::InjectExplorer));
    e.advance(EnableEvent::Injected(Ok(())));
    assert!(matches!(e.next_action(), EnableAction::InjectStartMenu));
    e.advance(EnableEvent::Injected(Err(InjectorError::ProcessNotFound(
        "StartMenuExperienceHost.exe".to_string(),
    ))));
    assert!(matches!(e.next_action(), EnableAction::ApplySysColors(false)));
    e.advance(EnableEvent::Done);
    assert!(matches!(e.next_action(), EnableAction::MarkActive));
    e.advance(EnableEvent::Done);
    assert!(e.is_finished());
    assert!(e.outcome().is_ok());
}

#[test]
fn enabling_picks_theme_and_colours_by_name() {
    for (name, theme, dark) in [
        ("dark", InjectedTheme::dark_theme(), true),
        ("vidrio", InjectedTheme::vidrio_theme(), true),
        ("neon", InjectedTheme::dark_theme(), true),
    ] {
        let mut e = ThemeEnabling::start(false, name);
        match e.next_action() {
            EnableAction::WriteTheme(t) => assert_eq!(t.to_bytes(), theme.to_bytes()),
            other => panic!("unexpected {:?}", other),
        }
        e.advance(EnableEvent::ThemeWritten(Ok(())));
        e.advance(EnableEvent::Injected(Ok(())));
        e.advance(EnableEvent::Injected(Ok(())));
        match e.next_action() {
            EnableAction::ApplySysColors(d) => assert_eq!(d, dark),
            other => panic!("unexpected {:?}", other),
        }
    }
}

#[test]
fn enabling_failures_and_their_messages() {
    let mut e = ThemeEnabling::start(false, "dark");
    e.advance(EnableEvent::ThemeWritten(Err(ThemeError::WriteFailed("view is null".to_string()))));
    assert!(e.is_finished());
    let failure = e.outcome().unwrap_err();
    assert_eq!(
        failure.message().unwrap(),
        "Failed to write theme: Failed to write theme data: view is null"
    );

    let mut e = ThemeEnabling::start(false, "dark");
    e.advance(EnableEvent::ThemeWritten(Ok(())));
    e.advance(EnableEvent::Injected(Err(InjectorError::OpenProcessFailed("PID 4".to_string()))));
    let failure = e.outcome().unwrap_err();
    assert_eq!(
        failure.message().unwrap(),
        "Administrator required — right-click Windows Island and select 'Run as administrator'"
    );

    let failure = EnableFailure::Injection(InjectorError::DllNotFound);
    assert_eq!(failure.message().unwrap(), "Injector DLL not found. Try rebuilding the app.");
    let failure = EnableFailure::Injection(InjectorError::AllocFailed);
    assert!(failure.message().is_none());
}
