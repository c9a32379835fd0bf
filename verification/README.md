# Windows Island

An always-on-top "island" widget for the Windows desktop (clock, weather,
media controls, system statistics) that can also inject a small DLL into
Explorer to recolour the taskbar.

## Layout

- `src/` — the verified library (`windows_island`), checked by Verus:
  - `sys_colors` — the dark-theme `GetSysColor` override table and the
    runtime override map;
  - `hooks` — the hook lifecycle of the injected DLL;
  - `pe_import` — the lookup of an import's IAT slot in a PE32+ image;
  - `theme` — the 24-byte theme records shared through memory mappings;
  - `injector`, `theme_injection` — DLL injection and theme enabling as
    step machines that the shell drives;
  - `i18n` — the English and Spanish text tables;
  - `weather` — the wttr.in address, the reading of its reply, the cache;
  - `accent`, `stats`, `media`, `desktop`, `text` — the smaller decisions
    and conversions of the shell.
- `tests/` — tests of the library.
- `app/` — the program around the library: Win32, WinRT and network calls,
  the Tauri shell, the code of the injected DLL, and floating-point
  arithmetic.
