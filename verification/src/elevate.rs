//! Privilege and packaging state.
//!
//! The TUN adapter can only be created with administrator rights. Polaris
//! never forces elevation: unprivileged, the engine runs proxy-only. A
//! packaged build elevates through its manifest, so the runtime relaunch is
//! skipped there. Both facts are queried once and cached.
use vstd::prelude::*;

use crate::dialog::{push_utf16, utf16};

verus! {

/// Command-line marker passed to the elevated relaunch, telling it to take
/// over from the exiting instance.
pub const RELAUNCH_FLAG: &'static str = "--relaunch-elevated";

/// Cached answers: 0 = not yet queried, 1 = yes, 2 = no.
pub struct Privileges {
    pub elevated: u8,
    pub packaged: u8,
}

/// The cache code of an answer.
pub fn flag(v: bool) -> (r: u8)
    ensures
        r == (if v { 1u8 } else { 2u8 }),
{
    if v {
        1
    } else {
        2
    }
}

impl Privileges {
    /// Nothing queried yet.
    pub fn new() -> (r: Privileges)
        ensures
            r.elevated == 0,
            r.packaged == 0,
    {
        Privileges { elevated: 0, packaged: 0 }
    }
}

/// Caches the queried privilege and packaging state.
pub fn init(p: &mut Privileges, elevated: bool, packaged: bool)
    ensures
        final(p).elevated == flag_of(elevated),
        final(p).packaged == flag_of(packaged),
{
    p.elevated = flag(elevated);
    p.packaged = flag(packaged);
}

/// The cache code of an answer.
pub open spec fn flag_of(v: bool) -> u8 {
    if v { 1 } else { 2 }
}

/// Whether the process runs with administrator rights (no before [`init`]).
pub fn is_elevated(p: &Privileges) -> (r: bool)
    ensures
        r == (p.elevated == 1),
{
    p.elevated == 1
}

/// Whether the process runs from an MSIX/AppX package (no before [`init`]).
pub fn is_packaged(p: &Privileges) -> (r: bool)
    ensures
        r == (p.packaged == 1),
{
    p.packaged == 1
}

/// Whether one of the command-line arguments is exactly `flag`.
pub open spec fn has_arg(args: Seq<String>, flag: Seq<char>) -> bool {
    exists|i: int| 0 <= i < args.len() && (#[trigger] args[i])@ == flag
}

fn contains_arg(args: &Vec<String>, flag: &str) -> (r: bool)
    ensures
        r == has_arg(args@, flag@),
{
    let f = crate::text::owned(flag);
    let mut i: usize = 0;
    while i < args.len()
        invariant
            i <= args@.len(),
            f@ == flag@,
            forall|j: int| 0 <= j < i ==> (#[trigger] args@[j])@ != flag@,
        decreases args@.len() - i,
    {
        if args[i] == f {
            return true;
        }
        i = i + 1;
    }
    false
}

/// Whether this process was started by the elevated relaunch.
pub fn is_relaunch(args: &Vec<String>) -> (r: bool)
    ensures
        r == has_arg(args@, RELAUNCH_FLAG@),
{
    contains_arg(args, RELAUNCH_FLAG)
}

/// The parameters of the elevated relaunch, as null-terminated UTF-16: the
/// takeover flag, plus the startup flag when this launch carries it (so an
/// autostart launch that relaunches still starts hidden).
pub fn relaunch_params(args: &Vec<String>) -> (r: Vec<u16>)
    ensures
        r@ == (utf16(RELAUNCH_FLAG@) + if has_arg(args@, crate::autostart::STARTUP_ARG@) {
            utf16(" --startup"@)
        } else {
            Seq::empty()
        }).push(0),
{
    let mut out: Vec<u16> = Vec::new();
    push_utf16(&mut out, RELAUNCH_FLAG);
    if contains_arg(args, crate::autostart::STARTUP_ARG) {
        push_utf16(&mut out, " --startup");
    }
    out.push(0);
    proof {
        assert(out@ =~= (utf16(RELAUNCH_FLAG@) + if has_arg(args@, crate::autostart::STARTUP_ARG@) {
            utf16(" --startup"@)
        } else {
            Seq::empty()
        }).push(0));
    }
    out
}

} // verus!
