//! Verified core of Windows Island: the system-colour override tables, the
//! import-table lookup of the injected hook, the binary theme records shared
//! between the host and the injected DLL, the localized text tables, the
//! weather record, and the decision steps (DLL injection, theme enabling,
//! hook lifecycle) that the desktop shell drives.

pub mod accent;
pub mod desktop;
pub mod hooks;
pub mod i18n;
pub mod injector;
pub mod media;
pub mod pe_import;
pub mod stats;
pub mod sys_colors;
pub mod text;
pub mod theme;
pub mod theme_injection;
pub mod weather;
