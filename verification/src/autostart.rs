//! "Run Polaris when Windows starts".
//!
//! Two mechanisms, chosen by how the app was installed: an unpackaged build
//! keeps a per-user `Run` registry value whose command carries
//! [`STARTUP_ARG`] (so the sign-in launch starts hidden in the tray); a
//! packaged build toggles its declared `StartupTask`, where Windows has the
//! final say. The OS entry is the single source of truth; its state is
//! queried once and cached so the settings toggle reads it cheaply.
use vstd::prelude::*;

use crate::dialog::{push_utf16, utf16};

verus! {

/// Passed on the autostart command line so the app starts hidden in the tray.
pub const STARTUP_ARG: &'static str = "--startup";

/// Where the autostart state lives.
#[derive(Clone, Copy, PartialEq, Eq, Debug, Structural)]
pub enum Mechanism {
    /// The packaged app's `StartupTask`.
    StartupTask,
    /// The `HKCU\...\Run` registry value.
    RunKey,
}

/// The cached autostart state: 0 = not yet queried, 1 = on, 2 = off.
pub struct Autostart {
    pub state: u8,
}

impl Autostart {
    /// The cached answer, if the OS was queried.
    pub open spec fn cached(&self) -> Option<bool> {
        if self.state == 1 {
            Some(true)
        } else if self.state == 2 {
            Some(false)
        } else {
            None
        }
    }

    /// Nothing queried yet.
    pub fn new() -> (r: Autostart)
        ensures
            r.cached() is None,
    {
        Autostart { state: 0 }
    }
}

/// The mechanism for a packaged or unpackaged build.
pub fn mechanism(packaged: bool) -> (r: Mechanism)
    ensures
        r == (if packaged { Mechanism::StartupTask } else { Mechanism::RunKey }),
{
    if packaged {
        Mechanism::StartupTask
    } else {
        Mechanism::RunKey
    }
}

/// Caches a queried state and returns it.
pub fn cache(a: &mut Autostart, on: bool) -> (r: bool)
    ensures
        r == on,
        final(a).cached() == Some(on),
{
    a.state = if on { 1 } else { 2 };
    on
}

/// Caches the state found at startup (`present`: the task is enabled, or the
/// Run value exists). Returns whether the Run value must be rewritten to the
/// current exe path: only for an unpackaged build that has one.
pub fn init(a: &mut Autostart, packaged: bool, present: bool) -> (refresh: bool)
    ensures
        final(a).cached() == Some(present),
        refresh == (!packaged && present),
{
    cache(a, present);
    !packaged && present
}

/// Whether launch at sign-in is on, from the cache; `None` asks for a live
/// query (whose answer goes to [`cache`]).
pub fn is_enabled(a: &Autostart) -> (r: Option<bool>)
    ensures
        r == a.cached(),
{
    if a.state == 1 {
        Some(true)
    } else if a.state == 2 {
        Some(false)
    } else {
        None
    }
}

/// Records the outcome of turning launch at sign-in `on` or off and returns
/// the resulting state: a packaged build reports what its `StartupTask`
/// became (`task_state`, which Windows may refuse to enable), an unpackaged
/// one is exactly what was asked.
pub fn set_enabled(a: &mut Autostart, packaged: bool, on: bool, task_state: bool) -> (r: bool)
    ensures
        r == (if packaged { task_state } else { on }),
        final(a).cached() == Some(r),
{
    let effective = if packaged {
        task_state
    } else {
        on
    };
    cache(a, effective)
}

/// The autostart command for an exe path: the quoted path and
/// [`STARTUP_ARG`], as null-terminated UTF-16.
pub fn run_command(exe: &str) -> (r: Vec<u16>)
    ensures
        r@ == (utf16(seq!['"']) + utf16(exe@) + utf16("\" --startup"@)).push(0),
{
    let mut out: Vec<u16> = Vec::new();
    push_utf16(&mut out, "\"");
    push_utf16(&mut out, exe);
    push_utf16(&mut out, "\" --startup");
    out.push(0);
    proof {
        reveal_strlit("\"");
        assert("\""@ =~= seq!['"']);
    }
    out
}

} // verus!
