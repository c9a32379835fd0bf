//! DLL injection into Explorer and the Start menu host.
//!
//! The injection is a fixed sequence of operating-system steps. [`Injection`]
//! holds the decisions: which step comes next, what a failed step is reported
//! as, and which acquired resources must be released at the end. The desktop
//! shell performs each [`InjectAction`] and reports the outcome back.

use vstd::prelude::*;
use vstd::string::StringExecFns;
use vstd::string::StringSliceAdditionalSpecFns;
use vstd::utf8::encode_utf8;
use crate::pe_import::ascii_ci_eq;
use crate::text::{decimal, push_decimal, str_eq_ignore_ascii_case};

verus! {

/// Why an injection failed.
#[derive(Debug)]
pub enum InjectorError {
    ProcessNotFound(String),
    OpenProcessFailed(String),
    AllocFailed,
    WriteFailed,
    CreateThreadFailed,
    DllNotFound,
}

impl InjectorError {
    /// A copy of this error.
    pub fn duplicate(&self) -> (e: Self)
        ensures
            e == *self,
    {
        match self {
            InjectorError::ProcessNotFound(s) => InjectorError::ProcessNotFound(s.clone()),
            InjectorError::OpenProcessFailed(s) => InjectorError::OpenProcessFailed(s.clone()),
            InjectorError::AllocFailed => InjectorError::AllocFailed,
            InjectorError::WriteFailed => InjectorError::WriteFailed,
            InjectorError::CreateThreadFailed => InjectorError::CreateThreadFailed,
            InjectorError::DllNotFound => InjectorError::DllNotFound,
        }
    }
}

/// One process of a process snapshot.
#[derive(Debug)]
pub struct ProcessEntry {
    pub exe_name: String,
    pub pid: u32,
}

/// The index of the first entry whose executable name matches `name` up to
/// ASCII case, if any.
pub open spec fn first_process_match(entries: Seq<ProcessEntry>, name: Seq<u8>) -> Option<int>
    decreases entries.len(),
{
    if entries.len() == 0 {
        None
    } else if ascii_ci_eq(encode_utf8(entries[0].exe_name@), name) {
        Some(0)
    } else {
        match first_process_match(entries.drop_first(), name) {
            Some(i) => Some(i + 1),
            None => None,
        }
    }
}

/// Where an injection stands.
#[derive(Debug)]
pub enum InjectPhase {
    CheckDll,
    OpenProcess,
    AllocRemote,
    WritePath,
    ResolveKernel32,
    ResolveLoadLibrary,
    StartThread,
    WaitThread,
    Finished(Result<(), InjectorError>),
}

/// The next thing the shell must do for an injection.
#[derive(Debug)]
pub enum InjectAction {
    /// Check that the DLL file exists.
    CheckDllExists,
    /// Open the target process with full access.
    OpenProcess(u32),
    /// Reserve this many bytes of read-write memory in the target process.
    AllocRemote(usize),
    /// Write [`Injection::path_with_nul`] into the reserved memory.
    WritePath,
    /// Get the module handle of `kernel32.dll`.
    GetKernel32,
    /// Get the address of `LoadLibraryA` in `kernel32.dll`.
    GetLoadLibrary,
    /// Start a remote thread at `LoadLibraryA` with the written path.
    CreateRemoteThread,
    /// Wait for the remote thread, at most this many milliseconds.
    WaitThread(u32),
    /// Release what is named, then report `result`: first free the remote
    /// memory, then close the thread handle, then close the process handle.
    Finish { free_remote: bool, close_thread: bool, close_process: bool, result: Result<(), InjectorError> },
}

/// The outcome of the last action.
#[derive(Debug, Clone, Copy, PartialEq, Eq)]
pub enum InjectEvent {
    /// The step succeeded (`true`) or failed.
    Done(bool),
    /// The path write failed (`None`) or wrote this many bytes.
    Written(Option<usize>),
}

/// One injection of the DLL into one process.
pub struct Injection {
    pid: u32,
    c_path: Vec<u8>,
    phase: InjectPhase,
    remote_allocated: bool,
    thread_started: bool,
    process_open: bool,
}

/// Whether a byte sequence holds a NUL.
pub open spec fn has_nul(bytes: Seq<u8>) -> bool {
    exists|i: int| 0 <= i < bytes.len() && bytes[i] == 0
}

/// The error text of a process that could not be opened.
pub open spec fn pid_text(pid: u32) -> Seq<char> {
    "PID "@ + decimal(pid as nat)
}

impl Injection {
    pub closed spec fn pid(&self) -> u32 {
        self.pid
    }

    /// The UTF-8 bytes of the DLL path, without a terminating NUL.
    pub closed spec fn path(&self) -> Seq<u8> {
        self.c_path@.drop_last()
    }

    pub closed spec fn phase(&self) -> InjectPhase {
        self.phase
    }

    /// Whether remote memory is held and must be freed.
    pub closed spec fn remote_allocated(&self) -> bool {
        self.remote_allocated
    }

    /// Whether a remote thread handle is held and must be closed.
    pub closed spec fn thread_started(&self) -> bool {
        self.thread_started
    }

    /// Whether the process handle is to be closed when the injection ends.
    /// A DLL path that cannot be written as a C string ends the injection
    /// right after the process was opened, without closing its handle.
    pub closed spec fn process_open(&self) -> bool {
        self.process_open
    }

    /// Which resources each phase holds.
    pub closed spec fn resources_consistent(&self) -> bool {
        &&& self.c_path@.len() >= 1
        &&& self.c_path@.last() == 0
        &&& match self.phase {
            InjectPhase::CheckDll | InjectPhase::OpenProcess => !self.process_open
                && !self.remote_allocated && !self.thread_started,
            InjectPhase::AllocRemote => self.process_open && !self.remote_allocated
                && !self.thread_started,
            InjectPhase::WritePath | InjectPhase::ResolveKernel32
            | InjectPhase::ResolveLoadLibrary
            | InjectPhase::StartThread => self.process_open && self.remote_allocated
                && !self.thread_started,
            InjectPhase::WaitThread => self.process_open && self.remote_allocated
                && self.thread_started,
            InjectPhase::Finished(_) => true,
        }
    }

    /// Starts an injection of the DLL at `dll_path` into process `pid`.
    pub fn start(pid: u32, dll_path: &str) -> (inj: Self)
        ensures
            inj.pid() == pid,
            inj.path() == dll_path.spec_bytes(),
            inj.phase() == InjectPhase::CheckDll,
            !inj.remote_allocated(),
            !inj.thread_started(),
            !inj.process_open(),
            inj.resources_consistent(),
    {
        let bytes = dll_path.as_bytes();
        let mut c_path: Vec<u8> = Vec::new();
        let mut i: usize = 0;
        while i < bytes.len()
            invariant
                0 <= i <= bytes@.len(),
                c_path@ == bytes@.subrange(0, i as int),
            decreases bytes@.len() - i,
        {
            c_path.push(bytes[i]);
            i = i + 1;
            assert(c_path@ =~= bytes@.subrange(0, i as int));
        }
        c_path.push(0);
        assert(c_path@.drop_last() =~= bytes@);
        Injection {
            pid,
            c_path,
            phase: InjectPhase::CheckDll,
            remote_allocated: false,
            thread_started: false,
            process_open: false,
        }
    }

    /// The DLL path as the C string written into the target: its bytes and a NUL.
    pub fn path_with_nul(&self) -> (bytes: Vec<u8>)
        requires
            self.resources_consistent(),
        ensures
            bytes@ == self.path().push(0u8),
    {
        assert(self.c_path@ =~= self.c_path@.drop_last().push(0u8));
        self.c_path.clone()
    }

    /// The action that the shell must perform next.
    pub fn next_action(&self) -> (action: InjectAction)
        requires
            self.resources_consistent(),
        ensures
            action == match self.phase() {
                InjectPhase::CheckDll => InjectAction::CheckDllExists,
                InjectPhase::OpenProcess => InjectAction::OpenProcess(self.pid()),
                InjectPhase::AllocRemote => InjectAction::AllocRemote(
                    (self.path().len() + 1) as usize,
                ),
                InjectPhase::WritePath => InjectAction::WritePath,
                InjectPhase::ResolveKernel32 => InjectAction::GetKernel32,
                InjectPhase::ResolveLoadLibrary => InjectAction::GetLoadLibrary,
                InjectPhase::StartThread => InjectAction::CreateRemoteThread,
                InjectPhase::WaitThread => InjectAction::WaitThread(5000),
                InjectPhase::Finished(result) => InjectAction::Finish {
                    free_remote: self.remote_allocated(),
                    close_thread: self.thread_started(),
                    close_process: self.process_open(),
                    result,
                },
            },
    {
        match &self.phase {
            InjectPhase::CheckDll => InjectAction::CheckDllExists,
            InjectPhase::OpenProcess => InjectAction::OpenProcess(self.pid),
            InjectPhase::AllocRemote => {
                assert(self.c_path@.len() == self.path().len() + 1);
                InjectAction::AllocRemote(self.c_path.len())
            },
            InjectPhase::WritePath => InjectAction::WritePath,
            InjectPhase::ResolveKernel32 => InjectAction::GetKernel32,
            InjectPhase::ResolveLoadLibrary => InjectAction::GetLoadLibrary,
            InjectPhase::StartThread => InjectAction::CreateRemoteThread,
            InjectPhase::WaitThread => InjectAction::WaitThread(5000),
            InjectPhase::Finished(result) => {
                let copied: Result<(), InjectorError> = match result {
                    Ok(u) => Ok(*u),
                    Err(e) => {
                        let d = e.duplicate();
                        assert(d == *e);
                        Err(d)
                    },
                };
                assert(copied == *result);
                InjectAction::Finish {
                    free_remote: self.remote_allocated,
                    close_thread: self.thread_started,
                    close_process: self.process_open,
                    result: copied,
                }
            },
        }
    }

    fn contains_nul(&self) -> (b: bool)
        requires
            self.c_path@.len() >= 1,
        ensures
            b == has_nul(self.path()),
    {
        let n = self.c_path.len() - 1;
        let mut i: usize = 0;
        while i < n
            invariant
                n == self.c_path@.len() - 1,
                0 <= i <= n,
                forall|j: int| 0 <= j < i ==> self.c_path@[j] != 0,
            decreases n - i,
        {
            if self.c_path[i] == 0 {
                assert(self.path()[i as int] == 0);
                return true;
            }
            i = i + 1;
        }
        false
    }

    /// Records the outcome of the action returned by [`Injection::next_action`].
    pub fn advance(&mut self, event: InjectEvent)
        requires
            old(self).resources_consistent(),
        ensures
            final(self).pid() == old(self).pid(),
            final(self).path() == old(self).path(),
            final(self).resources_consistent(),
            phase_after(old(self).phase(), event, old(self).pid(), old(self).path(), final(self).phase()),
            final(self).process_open() == match old(self).phase() {
                InjectPhase::OpenProcess => event == InjectEvent::Done(true) && !has_nul(
                    old(self).path(),
                ),
                _ => old(self).process_open(),
            },
            final(self).remote_allocated() == match old(self).phase() {
                InjectPhase::AllocRemote => event == InjectEvent::Done(true),
                _ => old(self).remote_allocated(),
            },
            final(self).thread_started() == match old(self).phase() {
                InjectPhase::StartThread => event == InjectEvent::Done(true),
                _ => old(self).thread_started(),
            },
    {
        let ok = match event {
            InjectEvent::Done(b) => b,
            InjectEvent::Written(_) => false,
        };
        match &self.phase {
            InjectPhase::CheckDll => {
                self.phase = if ok {
                    InjectPhase::OpenProcess
                } else {
                    InjectPhase::Finished(Err(InjectorError::DllNotFound))
                };
            },
            InjectPhase::OpenProcess => {
                if ok {
                    if self.contains_nul() {
                        self.phase = InjectPhase::Finished(Err(InjectorError::AllocFailed));
                    } else {
                        self.process_open = true;
                        self.phase = InjectPhase::AllocRemote;
                    }
                } else {
                    let mut text = String::from_str("PID ");
                    push_decimal(&mut text, self.pid as u64);
                    self.phase = InjectPhase::Finished(Err(InjectorError::OpenProcessFailed(text)));
                }
            },
            InjectPhase::AllocRemote => {
                if ok {
                    self.remote_allocated = true;
                    self.phase = InjectPhase::WritePath;
                } else {
                    self.phase = InjectPhase::Finished(Err(InjectorError::AllocFailed));
                }
            },
            InjectPhase::WritePath => {
                let complete = match event {
                    InjectEvent::Written(Some(n)) => n == self.c_path.len(),
                    _ => false,
                };
                self.phase = if complete {
                    InjectPhase::ResolveKernel32
                } else {
                    InjectPhase::Finished(Err(InjectorError::WriteFailed))
                };
            },
            InjectPhase::ResolveKernel32 => {
                self.phase = if ok {
                    InjectPhase::ResolveLoadLibrary
                } else {
                    InjectPhase::Finished(Err(InjectorError::CreateThreadFailed))
                };
            },
            InjectPhase::ResolveLoadLibrary => {
                self.phase = if ok {
                    InjectPhase::StartThread
                } else {
                    InjectPhase::Finished(Err(InjectorError::CreateThreadFailed))
                };
            },
            InjectPhase::StartThread => {
                if ok {
                    self.thread_started = true;
                    self.phase = InjectPhase::WaitThread;
                } else {
                    self.phase = InjectPhase::Finished(Err(InjectorError::CreateThreadFailed));
                }
            },
            InjectPhase::WaitThread => {
                self.phase = InjectPhase::Finished(Ok(()));
            },
            InjectPhase::Finished(_) => {},
        }
    }
}

/// Whether `next` is the phase that follows `phase` after `event`, for an
/// injection into `pid` of the DLL whose path has the bytes `path`.
pub open spec fn phase_after(
    phase: InjectPhase,
    event: InjectEvent,
    pid: u32,
    path: Seq<u8>,
    next: InjectPhase,
) -> bool {
    let ok = event == InjectEvent::Done(true);
    match phase {
        InjectPhase::CheckDll => next == if ok {
            InjectPhase::OpenProcess
        } else {
            InjectPhase::Finished(Err(InjectorError::DllNotFound))
        },
        InjectPhase::OpenProcess => if !ok {
            next matches InjectPhase::Finished(Err(InjectorError::OpenProcessFailed(text)))
                && text@ == pid_text(pid)
        } else if has_nul(path) {
            next == InjectPhase::Finished(Err(InjectorError::AllocFailed))
        } else {
            next == InjectPhase::AllocRemote
        },
        InjectPhase::AllocRemote => next == if ok {
            InjectPhase::WritePath
        } else {
            InjectPhase::Finished(Err(InjectorError::AllocFailed))
        },
        InjectPhase::WritePath => next == if event == InjectEvent::Written(
            Some((path.len() + 1) as usize),
        ) {
            InjectPhase::ResolveKernel32
        } else {
            InjectPhase::Finished(Err(InjectorError::WriteFailed))
        },
        InjectPhase::ResolveKernel32 => next == if ok {
            InjectPhase::ResolveLoadLibrary
        } else {
            InjectPhase::Finished(Err(InjectorError::CreateThreadFailed))
        },
        InjectPhase::ResolveLoadLibrary => next == if ok {
            InjectPhase::StartThread
        } else {
            InjectPhase::Finished(Err(InjectorError::CreateThreadFailed))
        },
        InjectPhase::StartThread => next == if ok {
            InjectPhase::WaitThread
        } else {
            InjectPhase::Finished(Err(InjectorError::CreateThreadFailed))
        },
        InjectPhase::WaitThread => next == InjectPhase::Finished(Ok(())),
        InjectPhase::Finished(r) => next == InjectPhase::Finished(r),
    }
}

/// The position of a phase in the injection sequence; a finished injection is last.
pub open spec fn phase_rank(phase: InjectPhase) -> int {
    match phase {
        InjectPhase::CheckDll => 0,
        InjectPhase::OpenProcess => 1,
        InjectPhase::AllocRemote => 2,
        InjectPhase::WritePath => 3,
        InjectPhase::ResolveKernel32 => 4,
        InjectPhase::ResolveLoadLibrary => 5,
        InjectPhase::StartThread => 6,
        InjectPhase::WaitThread => 7,
        InjectPhase::Finished(_) => 8,
    }
}

/// Every reported outcome moves an unfinished injection strictly forward,
/// so that it finishes after at most eight steps, and a finished injection
/// keeps its result whatever is reported.
pub proof fn law_injection_progresses(
    phase: InjectPhase,
    event: InjectEvent,
    pid: u32,
    path: Seq<u8>,
    next: InjectPhase,
)
    requires
        phase_after(phase, event, pid, path, next),
    ensures
        !(phase is Finished) ==> phase_rank(next) > phase_rank(phase),
        phase is Finished ==> next == phase,
{
}

/// The injector of the theme DLL.
pub struct Injector {
    dll_path: String,
}

/// How a process lookup ends: the pid of the first matching entry, or
/// `ProcessNotFound` naming the process.
pub open spec fn process_lookup(
    entries: Seq<ProcessEntry>,
    name: Seq<char>,
    r: Result<u32, InjectorError>,
) -> bool {
    match first_process_match(entries, encode_utf8(name)) {
        Some(i) => r == Ok::<u32, InjectorError>(entries[i].pid),
        None => r matches Err(InjectorError::ProcessNotFound(s)) && s@ == name,
    }
}

/// The target pid of a started injection, or the error.
pub open spec fn started_pid(r: Result<Injection, InjectorError>) -> Result<u32, InjectorError> {
    match r {
        Ok(inj) => Ok(inj.pid()),
        Err(e) => Err(e),
    }
}

impl Injector {
    /// The path of the DLL to inject.
    pub closed spec fn dll_path(&self) -> Seq<char> {
        self.dll_path@
    }

    /// An injector of the DLL at `dll_path`.
    pub fn new(dll_path: String) -> (inj: Self)
        ensures
            inj.dll_path() == dll_path@,
    {
        Injector { dll_path }
    }

    /// The pid of the first process of the snapshot `entries` whose executable
    /// name equals `name` up to ASCII case.
    pub fn find_process_by_name(&self, entries: &[ProcessEntry], name: &str) -> (r: Result<
        u32,
        InjectorError,
    >)
        ensures
            process_lookup(entries@, name@, r),
    {
        let mut i: usize = 0;
        assert(entries@.skip(0) =~= entries@);
        while i < entries.len()
            invariant
                0 <= i <= entries@.len(),
                first_process_match(entries@, encode_utf8(name@)) == match first_process_match(
                    entries@.skip(i as int),
                    encode_utf8(name@),
                ) {
                    Some(k) => Some(k + i),
                    None => None,
                },
            decreases entries@.len() - i,
        {
            assert(entries@.skip(i as int)[0] == entries@[i as int]);
            assert(entries@.skip(i as int).drop_first() =~= entries@.skip(i + 1));
            if str_eq_ignore_ascii_case(entries[i].exe_name.as_str(), name) {
                return Ok(entries[i].pid);
            }
            i = i + 1;
        }
        Err(InjectorError::ProcessNotFound(String::from_str(name)))
    }

    /// Starts an injection into process `pid`.
    pub fn inject_into_pid(&self, pid: u32) -> (inj: Injection)
        ensures
            inj.pid() == pid,
            inj.path() == encode_utf8(self.dll_path()),
            inj.phase() == InjectPhase::CheckDll,
            !inj.remote_allocated(),
            !inj.thread_started(),
            !inj.process_open(),
            inj.resources_consistent(),
    {
        Injection::start(pid, self.dll_path.as_str())
    }

    /// Starts an injection into Explorer (the taskbar), found in `processes`.
    pub fn inject_into_explorer(&self, processes: &[ProcessEntry]) -> (r: Result<
        Injection,
        InjectorError,
    >)
        ensures
            process_lookup(processes@, "explorer.exe"@, started_pid(r)),
            r matches Ok(inj) ==> inj.path() == encode_utf8(self.dll_path()) && inj.phase()
                == InjectPhase::CheckDll && inj.resources_consistent() && !inj.process_open()
                && !inj.remote_allocated() && !inj.thread_started(),
    {
        match self.find_process_by_name(processes, "explorer.exe") {
            Ok(pid) => Ok(self.inject_into_pid(pid)),
            Err(e) => Err(e),
        }
    }

    /// Starts an injection into the Windows 11 Start menu host, found in `processes`.
    pub fn inject_into_startmenu(&self, processes: &[ProcessEntry]) -> (r: Result<
        Injection,
        InjectorError,
    >)
        ensures
            process_lookup(processes@, "StartMenuExperienceHost.exe"@, started_pid(r)),
            r matches Ok(inj) ==> inj.path() == encode_utf8(self.dll_path()) && inj.phase()
                == InjectPhase::CheckDll && inj.resources_consistent() && !inj.process_open()
                && !inj.remote_allocated() && !inj.thread_started(),
    {
        match self.find_process_by_name(processes, "StartMenuExperienceHost.exe") {
            Ok(pid) => Ok(self.inject_into_pid(pid)),
            Err(e) => Err(e),
        }
    }
}

} // verus!
