//! Text shown by the system-tray icon.
use vstd::prelude::*;

use crate::dialog::{push_utf16, utf16};
use crate::engine::{sum_peers, summary_text, Snapshot};
use crate::i18n::Translator;
use vstd::slice::SliceAdditionalExecFns;

verus! {

/// The tray tooltip: the app name and the connection summary.
pub fn tooltip(snap: &Snapshot, tr: &Translator) -> (r: String)
    requires
        sum_peers(snap.nets@) <= usize::MAX,
    ensures
        r@ == "Polaris — "@ + summary_text(*tr, snap.nets@),
{
    let mut s = crate::text::owned("Polaris — ");
    let summary = snap.status_summary(tr);
    crate::text::push_str(&mut s, summary.as_str());
    s
}

/// The contents of a fixed wide buffer of `len` units after writing `s`:
/// as many UTF-16 units as fit before a terminating zero, then zeros.
pub open spec fn wide_buffer(s: Seq<char>, len: nat) -> Seq<u16> {
    let max = if len == 0 { 0 } else { (len - 1) as nat };
    let k = if utf16(s).len() < max { utf16(s).len() } else { max };
    utf16(s).take(k as int) + Seq::new((len - k) as nat, |i: int| 0u16)
}

/// Copies `s` (UTF-16, truncated, null-terminated) into a fixed wide buffer.
pub fn write_wide(buf: &mut [u16], s: &str)
    ensures
        final(buf)@ == wide_buffer(s@, old(buf)@.len()),
{
    let mut units: Vec<u16> = Vec::new();
    push_utf16(&mut units, s);
    proof {
        assert(units@ =~= utf16(s@));
    }
    let len = buf.len();
    let max = if len == 0 { 0 } else { len - 1 };
    let k = if units.len() < max { units.len() } else { max };
    let mut i: usize = 0;
    while i < len
        invariant
            i <= len == buf@.len() == old(buf)@.len(),
            k <= max,
            k <= units@.len(),
            units@ == utf16(s@),
            max == (if len == 0 { 0 } else { len - 1 }),
            k == (if units@.len() < max { units@.len() } else { max as nat }),
            forall|j: int| 0 <= j < i ==> #[trigger] buf@[j] == wide_buffer(s@, len as nat)[j],
        decreases len - i,
    {
        let v = if i < k { units[i] } else { 0 };
        buf.set(i, v);
        i = i + 1;
    }
    proof {
        assert(buf@ =~= wide_buffer(s@, len as nat));
    }
}

/// A fixed wide buffer written by [`write_wide`] keeps its length and, when it
/// has room for anything, ends in a terminating zero; the units before it
/// are the start of the text's UTF-16 encoding.
pub proof fn lemma_wide_buffer_terminated(s: Seq<char>, len: nat)
    ensures
        wide_buffer(s, len).len() == len,
        len > 0 ==> wide_buffer(s, len)[len - 1] == 0u16,
        forall|i: int| 0 <= i < len && i < utf16(s).len() && i < len - 1 ==> #[trigger] wide_buffer(s, len)[i] == utf16(s)[i],
{
}

} // verus!
