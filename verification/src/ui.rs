//! Small text helpers of the pages: placeholders, yes/no, export names,
//! multi-line list fields and the log-retention picker.
use vstd::prelude::*;

use crate::config::{
    clamp_index, exports_profile, opt_view, same_but_forwards, LogLevel, PortForward, Profile, Settings, Store,
};
use crate::engine::{Command, NetSnapshot, Snapshot, Status};
use crate::text::{chars_of, copy_string, is_white_space, owned, push_char, trim, trim_seq};

verus! {

/// `s`, or an em dash when it is empty.
pub fn or_dash(s: &str) -> (r: String)
    ensures
        r@ == (if s@.len() == 0 { "—"@ } else { s@ }),
{
    if s.is_empty() {
        owned("—")
    } else {
        owned(s)
    }
}

/// `yes`/`no` for the plain-text exported log header (never translated).
pub fn yn(b: bool) -> (r: &'static str)
    ensures
        r@ == (if b { "yes"@ } else { "no"@ }),
{
    if b {
        "yes"
    } else {
        "no"
    }
}

/// Translation key for the yes/no shown on the Diagnostics page.
pub fn yn_key(b: bool) -> (r: &'static str)
    ensures
        r@ == (if b { "diagnostics.yes"@ } else { "diagnostics.no"@ }),
{
    if b {
        "diagnostics.yes"
    } else {
        "diagnostics.no"
    }
}

/// Retention presets (days) of the log-cleanup picker, in order.
pub open spec fn retention_days() -> Seq<u32> {
    seq![1u32, 3, 7, 14, 30]
}

/// The picker position of a retention, the default (7 days) for any other.
pub fn retention_index(days: u32) -> (r: i32)
    ensures
        0 <= r < 5,
        retention_days().contains(days) ==> retention_days()[r as int] == days,
        !retention_days().contains(days) ==> r == 2,
{
    proof {
        if retention_days().contains(days) {
            let i = choose|i: int| 0 <= i < 5 && retention_days()[i] == days;
            assert(retention_days()[i] == days);
        }
    }
    if days == 1 {
        0
    } else if days == 3 {
        1
    } else if days == 7 {
        2
    } else if days == 14 {
        3
    } else if days == 30 {
        4
    } else {
        2
    }
}

/// Whether `c` is alphabetic or numeric in Unicode (`char::is_alphanumeric`).
pub uninterp spec fn alphanumeric(c: char) -> bool;

/// `char::is_alphanumeric`: the Unicode `Alphabetic` or `Numeric` property.
#[verifier::external_body]
fn is_alphanumeric(c: char) -> (r: bool)
    ensures
        r == alphanumeric(c),
{
    c.is_alphanumeric()
}

/// The character a file name keeps for `c`: letters, digits, `-` and `_`
/// stay, anything else becomes `-`.
pub open spec fn safe_char(c: char) -> char {
    if alphanumeric(c) || c == '-' || c == '_' {
        c
    } else {
        '-'
    }
}

/// A profile name made safe for a file name; `network` when it is empty.
pub fn sanitize(name: &str) -> (r: String)
    ensures
        r@ == (if name@.len() == 0 { "network"@ } else { name@.map_values(|c: char| safe_char(c)) }),
{
    let v = chars_of(name);
    if v.len() == 0 {
        return owned("network");
    }
    let mut s = String::new();
    let mut i: usize = 0;
    while i < v.len()
        invariant
            i <= v@.len(),
            v@ == name@,
            s@ == v@.take(i as int).map_values(|c: char| safe_char(c)),
        decreases v@.len() - i,
    {
        let c = v[i];
        let keep = if is_alphanumeric(c) || c == '-' || c == '_' {
            c
        } else {
            '-'
        };
        push_char(&mut s, keep);
        proof {
            assert(v@.take(i + 1).map_values(|c: char| safe_char(c)) =~= v@.take(i as int).map_values(|c: char| safe_char(c)).push(safe_char(v@[i as int])));
        }
        i = i + 1;
    }
    proof {
        assert(v@.take(i as int) =~= v@);
    }
    s
}

/// The newline-separated segments of `s` after a partial segment `cur`.
pub open spec fn segments_from(s: Seq<char>, cur: Seq<char>) -> Seq<Seq<char>>
    decreases s.len(),
{
    if s.len() == 0 {
        seq![cur]
    } else if s[0] == '\n' {
        seq![cur] + segments_from(s.drop_first(), Seq::empty())
    } else {
        segments_from(s.drop_first(), cur.push(s[0]))
    }
}

/// The lines of a multi-line field (`split('\n')`), each trimmed.
pub open spec fn split_lines_seq(s: Seq<char>) -> Seq<Seq<char>> {
    segments_from(s, Seq::empty()).map_values(|l: Seq<char>| trim_seq(l))
}

fn trimmed_segment(cur: &Vec<char>) -> (r: String)
    ensures
        r@ == trim_seq(cur@),
{
    let mut t = String::new();
    let mut i: usize = 0;
    while i < cur.len()
        invariant
            i <= cur@.len(),
            t@ == cur@.take(i as int),
        decreases cur@.len() - i,
    {
        push_char(&mut t, cur[i]);
        proof {
            assert(cur@.take(i + 1) =~= cur@.take(i as int).push(cur@[i as int]));
        }
        i = i + 1;
    }
    proof {
        assert(cur@.take(i as int) =~= cur@);
    }
    trim(t.as_str())
}

/// Splits a multi-line list field into trimmed lines (blank lines kept).
pub fn split_lines(v: &str) -> (r: Vec<String>)
    ensures
        crate::text::views(r@) == split_lines_seq(v@),
{
    let c = chars_of(v);
    let mut out: Vec<String> = Vec::new();
    let mut cur: Vec<char> = Vec::new();
    let mut i: usize = 0;
    proof {
        assert(c@.subrange(0, c@.len() as int) =~= c@);
    }
    while i < c.len()
        invariant
            i <= c@.len(),
            c@ == v@,
            crate::text::views(out@) + segments_from(c@.subrange(i as int, c@.len() as int), cur@).map_values(|l: Seq<char>| trim_seq(l))
                == split_lines_seq(v@),
        decreases c@.len() - i,
    {
        let ghost rest = c@.subrange(i as int, c@.len() as int);
        proof {
            assert(rest.drop_first() =~= c@.subrange(i + 1, c@.len() as int));
            assert(rest[0] == c@[i as int]);
        }
        if c[i] == '\n' {
            let ghost before = out@;
            let line = trimmed_segment(&cur);
            out.push(line);
            proof {
                let tail = segments_from(c@.subrange(i + 1, c@.len() as int), Seq::empty());
                assert(segments_from(rest, cur@) == seq![cur@] + tail);
                assert((seq![cur@] + tail).map_values(|l: Seq<char>| trim_seq(l)) =~= seq![trim_seq(cur@)] + tail.map_values(|l: Seq<char>| trim_seq(l)));
                assert(crate::text::views(out@) =~= crate::text::views(before).push(trim_seq(cur@)));
                assert(crate::text::views(out@) + tail.map_values(|l: Seq<char>| trim_seq(l)) =~= crate::text::views(before) + (seq![cur@] + tail).map_values(|l: Seq<char>| trim_seq(l)));
            }
            cur = Vec::new();
        } else {
            cur.push(c[i]);
        }
        i = i + 1;
    }
    let ghost before = out@;
    let line = trimmed_segment(&cur);
    out.push(line);
    proof {
        assert(c@.subrange(i as int, c@.len() as int) =~= Seq::<char>::empty());
        assert(seq![cur@].map_values(|l: Seq<char>| trim_seq(l)) =~= seq![trim_seq(cur@)]);
        assert(crate::text::views(out@) =~= crate::text::views(before) + seq![trim_seq(cur@)]);
    }
    out
}

} // verus!

verus! {

// ─────────────────────────── network editor ────────────────────────────────

/// Whether `f` is the rule a new row starts as: TCP from `0.0.0.0`, no ports
/// and no destination yet.
pub open spec fn is_new_forward(f: PortForward) -> bool {
    &&& f.proto@ == "tcp"@
    &&& f.bind_ip@ == "0.0.0.0"@
    &&& f.bind_port == 0
    &&& f.dst_ip@.len() == 0
    &&& f.dst_port == 0
}

/// Whether `new` is `old` with the rules of the current profile made
/// `after`, and nothing else changed.
pub open spec fn forwards_edited(old: Store, new: Store, after: Seq<PortForward>) -> bool {
    let ci = clamp_index(old.selected, old.profiles@.len()) as int;
    &&& new.profiles@.len() == old.profiles@.len()
    &&& forall|j: int| 0 <= j < new.profiles@.len() && j != ci ==> #[trigger] new.profiles@[j] == old.profiles@[j]
    &&& same_but_forwards(new.profiles@[ci], old.profiles@[ci])
    &&& new.profiles@[ci].port_forwards@ == after
    &&& new.selected == old.selected
    &&& new.settings == old.settings
}

impl Store {
    /// The position of the profile being edited: the selection, clamped.
    pub fn current_index(&self) -> (r: usize)
        requires
            self.profiles@.len() > 0,
        ensures
            r == clamp_index(self.selected, self.profiles@.len()),
    {
        let last = self.profiles.len() - 1;
        if self.selected < last {
            self.selected
        } else {
            last
        }
    }

    /// Picks the network at position `i` of the network picker; a negative
    /// position (the picker reports one while its list is rebuilt) is ignored.
    pub fn select(&mut self, i: i32)
        requires
            old(self).profiles@.len() > 0,
        ensures
            i < 0 ==> *final(self) == *old(self),
            i >= 0 ==> final(self).selected == clamp_index(i as usize, old(self).profiles@.len()),
            final(self).profiles@ == old(self).profiles@,
            final(self).settings == old(self).settings,
    {
        if i >= 0 {
            let last = self.profiles.len() - 1;
            let k = i as usize;
            self.selected = if k < last { k } else { last };
        }
    }

    /// Takes the current profile out of the list.
    fn take_current(&mut self) -> (r: (usize, Profile))
        requires
            old(self).profiles@.len() > 0,
        ensures
            r.0 == clamp_index(old(self).selected, old(self).profiles@.len()),
            r.1 == old(self).profiles@[r.0 as int],
            final(self).profiles@ == old(self).profiles@.remove(r.0 as int),
            final(self).selected == old(self).selected,
            final(self).settings == old(self).settings,
    {
        let ci = self.current_index();
        let p = self.profiles.remove(ci);
        (ci, p)
    }

    /// Puts an edited current profile back in its place.
    fn put_current(&mut self, ci: usize, p: Profile, Ghost(orig): Ghost<Store>)
        requires
            orig.profiles@.len() > 0,
            ci == clamp_index(orig.selected, orig.profiles@.len()),
            old(self).profiles@ == orig.profiles@.remove(ci as int),
            old(self).selected == orig.selected,
            old(self).settings == orig.settings,
            same_but_forwards(p, orig.profiles@[ci as int]),
        ensures
            forwards_edited(orig, *final(self), p.port_forwards@),
    {
        self.profiles.insert(ci, p);
        proof {
            assert(self.profiles@ =~= orig.profiles@.update(ci as int, p));
        }
    }

    /// Adds an empty port-forwarding rule to the current profile.
    pub fn add_port_forward(&mut self)
        requires
            old(self).profiles@.len() > 0,
        ensures
            forwards_edited(
                *old(self),
                *final(self),
                old(self).profiles@[clamp_index(old(self).selected, old(self).profiles@.len()) as int].port_forwards@.push(
                    final(self).profiles@[clamp_index(old(self).selected, old(self).profiles@.len()) as int].port_forwards@.last(),
                ),
            ),
            is_new_forward(
                final(self).profiles@[clamp_index(old(self).selected, old(self).profiles@.len()) as int].port_forwards@.last(),
            ),
    {
        let ghost orig = *self;
        let (ci, mut p) = self.take_current();
        let f = PortForward::default();
        let ghost fv = f;
        p.port_forwards.push(f);
        proof {
            assert(p.port_forwards@.last() == fv);
        }
        self.put_current(ci, p, Ghost(orig));
    }

    /// Replaces rule `i` of the current profile with `f`; does nothing when
    /// there is no such rule.
    pub fn update_port_forward(&mut self, i: usize, f: PortForward)
        requires
            old(self).profiles@.len() > 0,
        ensures
            i < old(self).profiles@[clamp_index(old(self).selected, old(self).profiles@.len()) as int].port_forwards@.len()
                ==> forwards_edited(
                *old(self),
                *final(self),
                old(self).profiles@[clamp_index(old(self).selected, old(self).profiles@.len()) as int].port_forwards@.update(i as int, f),
            ),
            i >= old(self).profiles@[clamp_index(old(self).selected, old(self).profiles@.len()) as int].port_forwards@.len()
                ==> *final(self) == *old(self),
    {
        let ci = self.current_index();
        if i < self.profiles[ci].port_forwards.len() {
            let ghost orig = *self;
            let (ci, mut p) = self.take_current();
            p.port_forwards.set(i, f);
            self.put_current(ci, p, Ghost(orig));
        }
    }

    /// Deletes rule `i` of the current profile; does nothing when there is
    /// no such rule.
    pub fn remove_port_forward(&mut self, i: usize)
        requires
            old(self).profiles@.len() > 0,
        ensures
            i < old(self).profiles@[clamp_index(old(self).selected, old(self).profiles@.len()) as int].port_forwards@.len()
                ==> forwards_edited(
                *old(self),
                *final(self),
                old(self).profiles@[clamp_index(old(self).selected, old(self).profiles@.len()) as int].port_forwards@.remove(i as int),
            ),
            i >= old(self).profiles@[clamp_index(old(self).selected, old(self).profiles@.len()) as int].port_forwards@.len()
                ==> *final(self) == *old(self),
    {
        let ci = self.current_index();
        if i < self.profiles[ci].port_forwards.len() {
            let ghost orig = *self;
            let (ci, mut p) = self.take_current();
            p.port_forwards.remove(i);
            self.put_current(ci, p, Ghost(orig));
        }
    }
}

/// The protocol picker position of a rule: 1 for `udp`, 0 for anything else.
pub fn proto_index(f: &PortForward) -> (r: i32)
    ensures
        r == (if f.proto@ == "udp"@ { 1i32 } else { 0i32 }),
{
    let udp = owned("udp");
    if f.proto == udp {
        1
    } else {
        0
    }
}

/// The protocol at picker position `i`: `udp` at 1, `tcp` otherwise.
pub fn proto_at(i: i32) -> (r: &'static str)
    ensures
        r@ == (if i == 1 { "udp"@ } else { "tcp"@ }),
{
    if i == 1 {
        "udp"
    } else {
        "tcp"
    }
}

} // verus!

verus! {

// ───────────────────────────── home and lists ─────────────────────────────

/// What a network's card on the home page shows.
pub struct CardInfo {
    pub status: Status,
    /// Connected or connecting: the card offers Disconnect instead of Connect.
    pub live: bool,
    /// The virtual address, or an em dash.
    pub ip: String,
    pub peers: usize,
    pub rx: u64,
    pub tx: u64,
    /// The connection problem to report, if any.
    pub error: Option<String>,
}

/// The card of the network with profile id `id`: disconnected with nothing
/// to show when it has no state yet.
pub fn card_info(snap: &Snapshot, id: &str) -> (r: CardInfo)
    ensures
        !snap@.contains_key(id@) ==> {
            &&& r.status == Status::Disconnected
            &&& !r.live
            &&& r.ip@ == "—"@
            &&& r.peers == 0
            &&& r.rx == 0
            &&& r.tx == 0
            &&& r.error is None
        },
        snap@.contains_key(id@) ==> {
            let n = snap@[id@];
            &&& r.status == n.status
            &&& r.live == (n.status == Status::Connected || n.status == Status::Connecting)
            &&& r.ip@ == (if n.virtual_ip@.len() == 0 { "—"@ } else { n.virtual_ip@ })
            &&& r.peers == n.peers@.len()
            &&& r.rx == n.rx_bytes
            &&& r.tx == n.tx_bytes
            &&& opt_view(r.error) == opt_view(n.error)
        },
{
    match snap.net(id) {
        Some(n) => CardInfo {
            status: n.status,
            live: n.status == Status::Connected || n.status == Status::Connecting,
            ip: or_dash(n.virtual_ip.as_str()),
            peers: n.peers.len(),
            rx: n.rx_bytes,
            tx: n.tx_bytes,
            error: match &n.error {
                Some(e) => Some(copy_string(e)),
                None => None,
            },
        },
        None => CardInfo {
            status: Status::Disconnected,
            live: false,
            ip: owned("—"),
            peers: 0,
            rx: 0,
            tx: 0,
            error: None,
        },
    }
}

/// Whether the network of profile `p` has peers to list.
pub open spec fn lists_peers(snap: Map<Seq<char>, NetSnapshot>, p: Profile) -> bool {
    snap.contains_key(p.id@) && snap[p.id@].peers@.len() > 0
}

/// Whether the network of profile `p` has events to list.
pub open spec fn lists_events(snap: Map<Seq<char>, NetSnapshot>, p: Profile) -> bool {
    snap.contains_key(p.id@) && snap[p.id@].events@.len() > 0
}

/// Whether `r` holds, in order, the positions of the profiles in `ps` that
/// `keep` selects.
pub open spec fn positions_where(ps: Seq<Profile>, keep: spec_fn(Profile) -> bool, r: Seq<usize>) -> bool {
    &&& forall|k: int| 0 <= k < r.len() ==> (#[trigger] r[k]) < ps.len() && keep(ps[r[k] as int])
    &&& forall|k: int, l: int| 0 <= k < l < r.len() ==> #[trigger] r[k] < #[trigger] r[l]
    &&& forall|j: int| 0 <= j < ps.len() && keep(#[trigger] ps[j]) ==> r.contains(j as usize)
}

/// The profiles whose networks have peers (the Peers page) or, with
/// `events`, whose networks have events (the Activity page), by position.
pub fn listed_profiles(store: &Store, snap: &Snapshot, events: bool) -> (r: Vec<usize>)
    ensures
        positions_where(
            store.profiles@,
            |p: Profile| if events { lists_events(snap@, p) } else { lists_peers(snap@, p) },
            r@,
        ),
{
    let ghost keep = |p: Profile| if events { lists_events(snap@, p) } else { lists_peers(snap@, p) };
    let mut r: Vec<usize> = Vec::new();
    let mut i: usize = 0;
    while i < store.profiles.len()
        invariant
            i <= store.profiles@.len(),
            keep == (|p: Profile| if events { lists_events(snap@, p) } else { lists_peers(snap@, p) }),
            forall|k: int| 0 <= k < r@.len() ==> (#[trigger] r@[k]) < i && keep(store.profiles@[r@[k] as int]),
            forall|k: int, l: int| 0 <= k < l < r@.len() ==> #[trigger] r@[k] < #[trigger] r@[l],
            forall|j: int| 0 <= j < i && keep(#[trigger] store.profiles@[j]) ==> r@.contains(j as usize),
        decreases store.profiles@.len() - i,
    {
        let shown = match snap.net(store.profiles[i].id.as_str()) {
            Some(n) => if events { n.events.len() > 0 } else { n.peers.len() > 0 },
            None => false,
        };
        if shown {
            let ghost before = r@;
            r.push(i);
            proof {
                assert(r@[r@.len() - 1] == i);
                assert forall|j: int| 0 <= j < i + 1 && keep(#[trigger] store.profiles@[j]) implies r@.contains(j as usize) by {
                    if j < i {
                        let k = choose|k: int| 0 <= k < before.len() && before[k] == j as usize;
                        assert(r@[k] == j as usize);
                    } else {
                        assert(r@[r@.len() - 1] == j as usize);
                    }
                }
            }
        } else {
            proof {
                assert forall|j: int| 0 <= j < i + 1 && keep(#[trigger] store.profiles@[j]) implies r@.contains(j as usize) by {
                    if j == i {
                        assert(keep(store.profiles@[i as int]) == shown);
                    }
                }
            }
        }
        i = i + 1;
    }
    r
}

// ─────────────────────────────── export ───────────────────────────────────

/// The formats one network exports to.
#[derive(Clone, Copy, PartialEq, Eq, Debug, Structural)]
pub enum ExportFormat {
    /// Polaris's own JSON, which keeps every field.
    Polaris,
    /// EasyTier's TOML config.
    Toml,
    /// The EasyTier GUI's `NetworkConfig` JSON.
    EasyTierJson,
}

/// The format of the save dialog's file type `index` (1-based: Polaris,
/// TOML, EasyTier JSON; any other index means Polaris). Two of them share
/// `*.json`, so the index, not the extension, decides.
pub fn export_format(index: u32) -> (r: ExportFormat)
    ensures
        r == (if index == 2 {
            ExportFormat::Toml
        } else if index == 3 {
            ExportFormat::EasyTierJson
        } else {
            ExportFormat::Polaris
        }),
{
    if index == 2 {
        ExportFormat::Toml
    } else if index == 3 {
        ExportFormat::EasyTierJson
    } else {
        ExportFormat::Polaris
    }
}

impl ExportFormat {
    /// The file extension the export gets.
    pub fn extension(self) -> (r: &'static str)
        ensures
            r@ == (if self == ExportFormat::Toml { "toml"@ } else { "json"@ }),
    {
        match self {
            ExportFormat::Toml => "toml",
            _ => "json",
        }
    }
}

/// The default file name of a network's export: its sanitized name, `.json`.
pub fn export_file_name(name: &str) -> (r: String)
    ensures
        r@ == (if name@.len() == 0 { "network"@ } else { name@.map_values(|c: char| safe_char(c)) }) + ".json"@,
{
    let mut s = sanitize(name);
    crate::text::push_str(&mut s, ".json");
    s
}

// ───────────────────────────── administrator ──────────────────────────────

/// What the Settings page offers about administrator rights.
#[derive(Clone, Copy, PartialEq, Eq, Debug, Structural)]
pub enum AdminView {
    /// A packaged build elevates through its manifest: status text only.
    PackagedStatus,
    /// The "always launch as administrator" toggle and the status, plus a
    /// "restart as administrator" button when `restart` is set.
    Controls { restart: bool },
}

/// The administrator card for the given privilege and packaging state.
pub fn admin_view(elevated: bool, packaged: bool) -> (r: AdminView)
    ensures
        packaged ==> r == AdminView::PackagedStatus,
        !packaged ==> r == (AdminView::Controls { restart: !elevated }),
{
    if packaged {
        AdminView::PackagedStatus
    } else {
        AdminView::Controls { restart: !elevated }
    }
}

/// The translation key of the administrator status line.
pub fn admin_status_key(elevated: bool, packaged: bool) -> (r: &'static str)
    ensures
        r@ == (if elevated {
            "settings.admin_elevated"@
        } else if packaged {
            "settings.admin_packaged_not_elevated"@
        } else {
            "settings.admin_not_elevated"@
        }),
{
    if elevated {
        "settings.admin_elevated"
    } else if packaged {
        "settings.admin_packaged_not_elevated"
    } else {
        "settings.admin_not_elevated"
    }
}

} // verus!

verus! {

// ──────────────────────────── connect / startup ────────────────────────────

/// Whether the network of profile id `id` is connected or connecting.
pub open spec fn is_live_in(snap: Map<Seq<char>, NetSnapshot>, id: Seq<char>) -> bool {
    snap.contains_key(id) && (snap[id].status == Status::Connected || snap[id].status == Status::Connecting)
}

/// Whether `c` is what Connect/Disconnect asks for profile `p`: stop its
/// network when it is live, else start it with its exported configuration.
pub open spec fn toggles(p: Profile, snap: Map<Seq<char>, NetSnapshot>, c: Command) -> bool {
    if is_live_in(snap, p.id@) {
        c matches Command::Stop { id } && id@ == p.id@
    } else {
        c matches Command::Start { id, cfg } && id@ == p.id@ && exports_profile(p, cfg)
    }
}

/// The command of the Connect/Disconnect button of profile `p` (on its
/// home-page card).
pub fn toggle_command(p: &Profile, snap: &Snapshot) -> (r: Command)
    ensures
        toggles(*p, snap@, r),
{
    if snap.is_live(p.id.as_str()) {
        Command::Stop { id: copy_string(&p.id) }
    } else {
        Command::Start { id: copy_string(&p.id), cfg: p.to_network_config() }
    }
}

/// The command of the network page's Connect/Disconnect button, which acts
/// on the network being edited.
pub fn network_page_command(store: &Store, snap: &Snapshot) -> (r: Command)
    requires
        store.profiles@.len() > 0,
    ensures
        toggles(store.profiles@[clamp_index(store.selected, store.profiles@.len()) as int], snap@, r),
{
    toggle_command(store.current(), snap)
}

/// The command sent at startup: the selected network is started when
/// auto-connect is on and there is a network; nothing otherwise.
pub fn startup_command(store: &Store) -> (r: Option<Command>)
    ensures
        r is Some <==> (store.settings.auto_connect && store.profiles@.len() > 0),
        r is Some ==> {
            let p = store.profiles@[clamp_index(store.selected, store.profiles@.len()) as int];
            r->Some_0 matches Command::Start { id, cfg } && id@ == p.id@ && exports_profile(p, cfg)
        },
{
    if store.settings.auto_connect && store.profiles.len() > 0 {
        let p = store.current();
        Some(Command::Start { id: copy_string(&p.id), cfg: p.to_network_config() })
    } else {
        None
    }
}

/// The log level in force: the chosen one while diagnostics are on, `Off`
/// otherwise.
pub fn active_log_level(s: &Settings) -> (r: LogLevel)
    ensures
        r == (if s.diagnostics_enabled { s.log_level } else { LogLevel::Off }),
{
    if s.diagnostics_enabled {
        s.log_level
    } else {
        LogLevel::Off
    }
}

/// An export name keeps the length of a non-empty profile name and holds
/// only letters, digits, `-` and `_`; an empty name becomes `network`.
pub proof fn lemma_sanitized(name: Seq<char>, r: Seq<char>)
    requires
        r == (if name.len() == 0 { "network"@ } else { name.map_values(|c: char| safe_char(c)) }),
    ensures
        name.len() > 0 ==> r.len() == name.len(),
        name.len() > 0 ==> forall|i: int| 0 <= i < r.len() ==> {
            ||| alphanumeric(#[trigger] r[i])
            ||| r[i] == '-'
            ||| r[i] == '_'
        },
        name.len() > 0 ==> forall|i: int| 0 <= i < r.len() && (alphanumeric(name[i]) || name[i] == '-' || name[i] == '_') ==> #[trigger] r[i] == name[i],
{
}

} // verus!
