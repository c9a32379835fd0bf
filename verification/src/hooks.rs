//! The hook lifecycle of the injected DLL: the original `GetSysColor`
//! address, whether its Import Address Table slot was patched, and the
//! window-message hook.
//!
//! The loader calls in and out of Win32 (`GetModuleHandleA`,
//! `GetProcAddress`, the IAT write, `UnhookWindowsHookEx`) are made by the DLL
//! shell; [`HookState`] holds what they decide.

use vstd::prelude::*;
use vstd::string::StringExecFns;

verus! {

/// The hook state of the injected DLL.
pub struct HookState {
    original_get_sys_color: Option<usize>,
    iat_patched: bool,
    message_hook_active: bool,
    message_hook_handle: Option<isize>,
}

impl HookState {
    pub closed spec fn original(&self) -> Option<usize> {
        self.original_get_sys_color
    }

    pub closed spec fn patched(&self) -> bool {
        self.iat_patched
    }

    pub closed spec fn message_active(&self) -> bool {
        self.message_hook_active
    }

    pub closed spec fn message_handle(&self) -> Option<isize> {
        self.message_hook_handle
    }

    /// Whether no hook of any kind is in place.
    pub open spec fn is_unhooked(&self) -> bool {
        &&& self.original() is None
        &&& !self.patched()
        &&& !self.message_active()
        &&& self.message_handle() is None
    }

    /// The state at DLL load: nothing hooked.
    pub fn new() -> (s: Self)
        ensures
            s.is_unhooked(),
    {
        HookState {
            original_get_sys_color: None,
            iat_patched: false,
            message_hook_active: false,
            message_hook_handle: None,
        }
    }

    /// The stored address of the original `GetSysColor`.
    pub fn original_get_sys_color(&self) -> (a: Option<usize>)
        ensures
            a == self.original(),
    {
        self.original_get_sys_color
    }

    /// Replaces the stored address of the original `GetSysColor`.
    pub fn set_original_get_sys_color(&mut self, address: Option<usize>)
        ensures
            final(self).original() == address,
            final(self).patched() == old(self).patched(),
            final(self).message_active() == old(self).message_active(),
            final(self).message_handle() == old(self).message_handle(),
    {
        self.original_get_sys_color = address;
    }

    /// Whether the message hook is active.
    pub fn message_hook_active(&self) -> (b: bool)
        ensures
            b == self.message_active(),
    {
        self.message_hook_active
    }

    /// Whether the IAT slot of `GetSysColor` currently points at the hook.
    pub fn iat_patched(&self) -> (b: bool)
        ensures
            b == self.patched(),
    {
        self.iat_patched
    }

    /// Records the lookups of the original `GetSysColor`: `user32` is the
    /// outcome of `GetModuleHandleA("user32.dll")` (its error text when it
    /// failed), `get_sys_color` what `GetProcAddress` returned. On success the
    /// address is stored.
    pub fn patch_iat_for_get_sys_color(
        &mut self,
        user32: Result<(), String>,
        get_sys_color: Option<usize>,
    ) -> (r: Result<(), String>)
        ensures
            match user32 {
                Err(e) => r matches Err(m) && m@ == "GetModuleHandleA(\"user32.dll\") failed: "@ + e@
                    && final(self).original() == old(self).original(),
                Ok(()) => match get_sys_color {
                    None => r matches Err(m) && m@ == "GetProcAddress(\"GetSysColor\") returned null"@
                        && final(self).original() == old(self).original(),
                    Some(a) => r is Ok && final(self).original() == Some(a),
                },
            },
            final(self).patched() == old(self).patched(),
            final(self).message_active() == old(self).message_active(),
            final(self).message_handle() == old(self).message_handle(),
    {
        match user32 {
            Err(e) => {
                let mut m = String::from_str("GetModuleHandleA(\"user32.dll\") failed: ");
                m.append(e.as_str());
                Err(m)
            },
            Ok(()) => match get_sys_color {
                None => Err(String::from_str("GetProcAddress(\"GetSysColor\") returned null")),
                Some(a) => {
                    self.original_get_sys_color = Some(a);
                    Ok(())
                },
            },
        }
    }

    /// Records the outcome of writing the hook into the IAT slot (the address
    /// it held, or why the slot could not be patched); a failure is not
    /// fatal, calls just are not intercepted at the IAT level.
    pub fn record_iat_patch(&mut self, outcome: Result<usize, String>)
        ensures
            final(self).patched() == (old(self).patched() || outcome is Ok),
            final(self).original() == old(self).original(),
            final(self).message_active() == old(self).message_active(),
            final(self).message_handle() == old(self).message_handle(),
    {
        if outcome.is_ok() {
            self.iat_patched = true;
        }
    }

    /// Forgets the original `GetSysColor` and the IAT patch. Returns the
    /// address that must be written back into the IAT slot: the original one,
    /// when the slot was patched and the original is known.
    pub fn unpatch_iat(&mut self) -> (r: Result<Option<usize>, String>)
        ensures
            r == Ok::<Option<usize>, String>(
                if old(self).patched() {
                    old(self).original()
                } else {
                    None
                },
            ),
            final(self).original() is None,
            !final(self).patched(),
            final(self).message_active() == old(self).message_active(),
            final(self).message_handle() == old(self).message_handle(),
    {
        let restore = if self.iat_patched {
            self.original_get_sys_color
        } else {
            None
        };
        self.iat_patched = false;
        self.original_get_sys_color = None;
        Ok(restore)
    }

    /// Marks the message hook active, unless a hook handle is already held.
    pub fn install_message_hook(&mut self) -> (r: Result<(), String>)
        ensures
            r is Ok,
            final(self).message_active() == (old(self).message_active() || old(
                self,
            ).message_handle() is None),
            final(self).message_handle() == old(self).message_handle(),
            final(self).original() == old(self).original(),
            final(self).patched() == old(self).patched(),
    {
        if self.message_hook_handle.is_some() {
            return Ok(());
        }
        self.message_hook_active = true;
        Ok(())
    }

    /// Marks the message hook inactive and hands back the hook handle to
    /// release with `UnhookWindowsHookEx`, if one was held.
    pub fn uninstall_message_hook(&mut self) -> (r: Result<Option<isize>, String>)
        ensures
            r == Ok::<Option<isize>, String>(old(self).message_handle()),
            !final(self).message_active(),
            final(self).message_handle() is None,
            final(self).original() == old(self).original(),
            final(self).patched() == old(self).patched(),
    {
        let handle = self.message_hook_handle;
        self.message_hook_handle = None;
        self.message_hook_active = false;
        Ok(handle)
    }

    /// Installs the `GetSysColor` hook (storing the original address looked up
    /// by the shell) and the message hook. The shell patches the IAT slot once
    /// this succeeds and reports it with [`HookState::record_iat_patch`].
    pub fn install_hooks(&mut self, user32: Result<(), String>, get_sys_color: Option<usize>) -> (r:
        Result<(), String>)
        ensures
            match user32 {
                Err(e) => r matches Err(m) && m@ == "GetModuleHandleA(\"user32.dll\") failed: "@ + e@,
                Ok(()) => match get_sys_color {
                    None => r matches Err(m) && m@ == "GetProcAddress(\"GetSysColor\") returned null"@,
                    Some(_) => r is Ok,
                },
            },
            r is Ok ==> final(self).original() == get_sys_color && final(self).message_active()
                == (old(self).message_active() || old(self).message_handle() is None),
            r is Err ==> final(self).original() == old(self).original()
                && final(self).message_active() == old(self).message_active(),
            final(self).patched() == old(self).patched(),
            final(self).message_handle() == old(self).message_handle(),
    {
        match self.patch_iat_for_get_sys_color(user32, get_sys_color) {
            Err(e) => {
                return Err(e);
            },
            Ok(()) => {},
        }
        self.install_message_hook()
    }

    /// Removes both hooks. Returns the address to write back into the IAT
    /// slot (if it was patched) and the message-hook handle to release (if
    /// one was held).
    pub fn uninstall_hooks(&mut self) -> (r: Result<(Option<usize>, Option<isize>), String>)
        ensures
            r == Ok::<(Option<usize>, Option<isize>), String>(
                (
                    if old(self).patched() {
                        old(self).original()
                    } else {
                        None
                    },
                    old(self).message_handle(),
                ),
            ),
            final(self).is_unhooked(),
    {
        let restore = match self.unpatch_iat() {
            Ok(a) => a,
            Err(e) => {
                return Err(e);
            },
        };
        let handle = match self.uninstall_message_hook() {
            Ok(h) => h,
            Err(e) => {
                return Err(e);
            },
        };
        Ok((restore, handle))
    }
}

/// Forces the taskbar windows to redraw with the new colours; the DLL does not
/// need it yet, so this always succeeds.
pub fn redraw_taskbar_windows() -> (r: Result<(), String>)
    ensures
        r is Ok,
{
    Ok(())
}

/// Installing the hooks and then removing them leaves nothing hooked, and the
/// address written back into a patched IAT slot is the original `GetSysColor`
/// that the installation looked up.
pub proof fn law_uninstall_undoes_install(
    before: HookState,
    installed: HookState,
    patched: HookState,
    address: usize,
    restore: Option<usize>,
    handle: Option<isize>,
)
    requires
        before.is_unhooked(),
        installed.original() == Some(address),
        installed.patched() == before.patched(),
        installed.message_handle() == before.message_handle(),
        patched.original() == installed.original(),
        patched.patched(),
        patched.message_handle() == installed.message_handle(),
        restore == (if patched.patched() {
            patched.original()
        } else {
            None
        }),
        handle == patched.message_handle(),
    ensures
        restore == Some(address),
        handle is None,
{
}

} // verus!
