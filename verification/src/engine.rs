//! What the UI shows of the running networks: the per-network snapshot built
//! from an instance's running info, the combined snapshot keyed by profile
//! id, its tray summary, and byte counts in human units.
use vstd::prelude::*;

use crate::i18n::{t, tn, Translator};
use crate::json::{json_parse, parse_json, JsonNode};
use crate::text::{copy_string, decimal, owned, push_char, push_decimal, push_str, replace_seq};

verus! {

/// Connection lifecycle as surfaced to the UI.
#[derive(Clone, Copy, PartialEq, Eq, Debug, Structural)]
pub enum Status {
    Disconnected,
    Connecting,
    Connected,
    Error,
}

/// The English label of a status.
pub open spec fn status_text(s: Status) -> Seq<char> {
    match s {
        Status::Disconnected => "Disconnected"@,
        Status::Connecting => "Connecting…"@,
        Status::Connected => "Connected"@,
        Status::Error => "Error"@,
    }
}

impl Status {
    /// The label (a translation key as well as its English text).
    pub fn label(self) -> (r: &'static str)
        ensures
            r@ == status_text(self),
    {
        match self {
            Status::Disconnected => "Disconnected",
            Status::Connecting => "Connecting…",
            Status::Connected => "Connected",
            Status::Error => "Error",
        }
    }
}

// ──────────────────────────────── snapshots ────────────────────────────────

/// One row in a peers table, already formatted for display.
#[derive(Clone, PartialEq, Eq, Debug)]
pub struct PeerRow {
    pub hostname: String,
    pub ipv4: String,
    pub cost: String,
    /// Mean round-trip time of the direct connections in microseconds; `None`
    /// for relayed peers with no direct connection.
    pub latency_us: Option<u64>,
    pub tunnel: String,
    pub rx: u64,
    pub tx: u64,
    pub nat: String,
    pub version: String,
}

/// State of a single network instance.
#[derive(Clone, PartialEq, Eq, Debug)]
pub struct NetSnapshot {
    pub status: Status,
    pub virtual_ip: String,
    pub hostname: String,
    pub peer_id: u32,
    pub version: String,
    pub dev_name: String,
    pub nat_type: String,
    pub listeners: Vec<String>,
    pub public_ipv4: String,
    pub public_ipv6: String,
    pub vpn_portal_cfg: Option<String>,
    pub peers: Vec<PeerRow>,
    pub events: Vec<String>,
    pub error: Option<String>,
    pub rx_bytes: u64,
    pub tx_bytes: u64,
}

/// Whether `n` is the snapshot of a network with the given status and error
/// and nothing else known about it.
pub open spec fn is_bare_net(n: NetSnapshot, status: Status, error: Option<Seq<char>>) -> bool {
    &&& n.status == status
    &&& crate::config::opt_view(n.error) == error
    &&& n.virtual_ip@.len() == 0
    &&& n.hostname@.len() == 0
    &&& n.peer_id == 0
    &&& n.version@.len() == 0
    &&& n.dev_name@.len() == 0
    &&& n.nat_type@.len() == 0
    &&& n.listeners@.len() == 0
    &&& n.public_ipv4@.len() == 0
    &&& n.public_ipv6@.len() == 0
    &&& n.vpn_portal_cfg is None
    &&& n.peers@.len() == 0
    &&& n.events@.len() == 0
    &&& n.rx_bytes == 0
    &&& n.tx_bytes == 0
}

/// A snapshot with the given status and error and nothing else.
pub fn bare_net(status: Status, error: Option<String>) -> (r: NetSnapshot)
    ensures
        is_bare_net(r, status, crate::config::opt_view(error)),
{
    NetSnapshot {
        status,
        virtual_ip: String::new(),
        hostname: String::new(),
        peer_id: 0,
        version: String::new(),
        dev_name: String::new(),
        nat_type: String::new(),
        listeners: Vec::new(),
        public_ipv4: String::new(),
        public_ipv6: String::new(),
        vpn_portal_cfg: None,
        peers: Vec::new(),
        events: Vec::new(),
        error,
        rx_bytes: 0,
        tx_bytes: 0,
    }
}

/// Immutable view of all engine state, keyed by profile id; a later entry
/// for an id replaces an earlier one.
#[derive(Clone, PartialEq, Eq, Debug)]
pub struct Snapshot {
    pub nets: Vec<(String, NetSnapshot)>,
}

/// The table that key/value pairs describe, later pairs winning.
pub open spec fn last_map<V>(s: Seq<(Seq<char>, V)>) -> Map<Seq<char>, V>
    decreases s.len(),
{
    if s.len() == 0 {
        Map::empty()
    } else {
        last_map(s.drop_last()).insert(s.last().0, s.last().1)
    }
}

/// The key views of keyed entries.
pub open spec fn keyed<V>(s: Seq<(String, V)>) -> Seq<(Seq<char>, V)> {
    s.map_values(|p: (String, V)| (p.0@, p.1))
}

/// Whether no two entries share a key.
pub open spec fn keys_distinct<V>(s: Seq<(String, V)>) -> bool {
    forall|i: int, j: int| 0 <= i < j < s.len() ==> (#[trigger] s[i]).0@ != (#[trigger] s[j]).0@
}

impl View for Snapshot {
    type V = Map<Seq<char>, NetSnapshot>;

    open spec fn view(&self) -> Map<Seq<char>, NetSnapshot> {
        last_map(keyed(self.nets@))
    }
}

proof fn lemma_last_map_prefix<V>(s: Seq<(Seq<char>, V)>, j: int, k: Seq<char>)
    requires
        0 <= j <= s.len(),
        forall|i: int| j <= i < s.len() ==> (#[trigger] s[i]).0 != k,
    ensures
        last_map(s).contains_key(k) == last_map(s.take(j)).contains_key(k),
        last_map(s).contains_key(k) ==> last_map(s)[k] == last_map(s.take(j))[k],
    decreases s.len() - j,
{
    if j == s.len() {
        assert(s.take(j) =~= s);
    } else {
        let t = s.drop_last();
        assert forall|i: int| j <= i < t.len() implies (#[trigger] t[i]).0 != k by {
            assert(t[i] == s[i]);
        }
        lemma_last_map_prefix(t, j, k);
        assert(t.take(j) =~= s.take(j));
    }
}

/// Where key `k` was last recorded in `s`, if anywhere.
fn find_last<V>(s: &Vec<(String, V)>, k: &String) -> (r: Option<usize>)
    ensures
        match r {
            Some(i) => {
                &&& i < s@.len()
                &&& s@[i as int].0@ == k@
                &&& forall|j: int| i < j < s@.len() ==> (#[trigger] s@[j]).0@ != k@
            },
            None => forall|j: int| 0 <= j < s@.len() ==> (#[trigger] s@[j]).0@ != k@,
        },
{
    let mut j = s.len();
    while j > 0
        invariant
            j <= s@.len(),
            forall|i: int| j <= i < s@.len() ==> (#[trigger] s@[i]).0@ != k@,
        decreases j,
    {
        if s[j - 1].0 == *k {
            return Some(j - 1);
        }
        j = j - 1;
    }
    None
}

proof fn lemma_last_map_at<V>(s: Seq<(String, V)>, i: int)
    requires
        0 <= i < s.len(),
        forall|j: int| i < j < s.len() ==> (#[trigger] s[j]).0@ != s[i].0@,
    ensures
        last_map(keyed(s)).contains_key(s[i].0@),
        last_map(keyed(s))[s[i].0@] == s[i].1,
{
    let ks = keyed(s);
    assert forall|j: int| i + 1 <= j < ks.len() implies (#[trigger] ks[j]).0 != s[i].0@ by {
        assert(ks[j].0 == s[j].0@);
    }
    lemma_last_map_prefix(ks, i + 1, s[i].0@);
    assert(ks.take(i + 1).drop_last() =~= ks.take(i));
    assert(ks.take(i + 1).last() == (s[i].0@, s[i].1));
}

proof fn lemma_last_map_absent<V>(s: Seq<(String, V)>, k: Seq<char>)
    requires
        forall|j: int| 0 <= j < s.len() ==> (#[trigger] s[j]).0@ != k,
    ensures
        !last_map(keyed(s)).contains_key(k),
{
    let ks = keyed(s);
    assert forall|j: int| 0 <= j < ks.len() implies (#[trigger] ks[j]).0 != k by {
        assert(ks[j].0 == s[j].0@);
    }
    lemma_last_map_prefix(ks, 0, k);
    assert(ks.take(0) =~= Seq::<(Seq<char>, V)>::empty());
}

/// Whether entry `i` is the one the view holds for its id: no later entry
/// has the same id.
pub open spec fn in_view(s: Seq<(String, NetSnapshot)>, i: int) -> bool {
    forall|j: int| i < j < s.len() ==> (#[trigger] s[j]).0@ != s[i].0@
}

/// How many of the first `n` entries the view holds with status `st`.
pub open spec fn count_upto(s: Seq<(String, NetSnapshot)>, n: int, st: Status) -> nat
    decreases n,
{
    if n <= 0 {
        0
    } else {
        count_upto(s, n - 1, st) + if in_view(s, n - 1) && s[n - 1].1.status == st { 1nat } else { 0nat }
    }
}

/// The peers of the networks the view holds among the first `n` entries.
pub open spec fn peers_upto(s: Seq<(String, NetSnapshot)>, n: int) -> nat
    decreases n,
{
    if n <= 0 {
        0
    } else {
        peers_upto(s, n - 1) + if in_view(s, n - 1) { s[n - 1].1.peers@.len() } else { 0nat }
    }
}

/// The bytes received by the networks the view holds among the first `n`
/// entries.
pub open spec fn rx_upto(s: Seq<(String, NetSnapshot)>, n: int) -> nat
    decreases n,
{
    if n <= 0 {
        0
    } else {
        rx_upto(s, n - 1) + if in_view(s, n - 1) { s[n - 1].1.rx_bytes as nat } else { 0nat }
    }
}

/// The bytes sent by the networks the view holds among the first `n`
/// entries.
pub open spec fn tx_upto(s: Seq<(String, NetSnapshot)>, n: int) -> nat
    decreases n,
{
    if n <= 0 {
        0
    } else {
        tx_upto(s, n - 1) + if in_view(s, n - 1) { s[n - 1].1.tx_bytes as nat } else { 0nat }
    }
}

/// How many networks of the snapshot have status `st`, each id counted once
/// by the state the view holds for it.
pub open spec fn count_status(s: Seq<(String, NetSnapshot)>, st: Status) -> nat {
    count_upto(s, s.len() as int, st)
}

/// The peers of all networks of the snapshot, each id counted once.
pub open spec fn sum_peers(s: Seq<(String, NetSnapshot)>) -> nat {
    peers_upto(s, s.len() as int)
}

/// The bytes received by all networks of the snapshot, each id counted once.
pub open spec fn sum_rx(s: Seq<(String, NetSnapshot)>) -> nat {
    rx_upto(s, s.len() as int)
}

/// The bytes sent by all networks of the snapshot, each id counted once.
pub open spec fn sum_tx(s: Seq<(String, NetSnapshot)>) -> nat {
    tx_upto(s, s.len() as int)
}

proof fn lemma_upto_mono(s: Seq<(String, NetSnapshot)>, i: int, n: int)
    requires
        0 <= i <= n,
    ensures
        peers_upto(s, i) <= peers_upto(s, n),
        rx_upto(s, i) <= rx_upto(s, n),
        tx_upto(s, i) <= tx_upto(s, n),
    decreases n - i,
{
    if i < n {
        lemma_upto_mono(s, i, n - 1);
    }
}

/// An entry the view holds gives the state the view holds for its id.
pub proof fn lemma_in_view(s: Seq<(String, NetSnapshot)>, i: int)
    requires
        0 <= i < s.len(),
        in_view(s, i),
    ensures
        last_map(keyed(s)).contains_key(s[i].0@),
        last_map(keyed(s))[s[i].0@] == s[i].1,
{
    lemma_last_map_at(s, i);
}

/// The one-line tray summary of a snapshot: the connected and peer counts
/// when anything is connected, else whether something is connecting, has
/// failed, or nothing is running.
pub open spec fn summary_text(tr: Translator, s: Seq<(String, NetSnapshot)>) -> Seq<char> {
    if count_status(s, Status::Connected) > 0 {
        replace_seq(tr.translate("{n} connected"@), "{n}"@, decimal(count_status(s, Status::Connected)))
            + " · "@ + replace_seq(tr.translate("{n} peers"@), "{n}"@, decimal(sum_peers(s)))
    } else if count_status(s, Status::Connecting) > 0 {
        tr.translate("Connecting…"@)
    } else if count_status(s, Status::Error) > 0 {
        tr.translate("Error"@)
    } else {
        tr.translate("Not connected"@)
    }
}

impl Snapshot {
    /// A snapshot with no networks.
    pub fn new() -> (r: Snapshot)
        ensures
            r.nets@.len() == 0,
            r@ == Map::<Seq<char>, NetSnapshot>::empty(),
    {
        Snapshot { nets: Vec::new() }
    }

    /// The state of the network with profile id `id`, if it has one.
    pub fn net<'a>(&'a self, id: &str) -> (r: Option<&'a NetSnapshot>)
        ensures
            r is Some <==> self@.contains_key(id@),
            r is Some ==> *r.unwrap() == self@[id@],
    {
        let k = owned(id);
        match find_last(&self.nets, &k) {
            Some(i) => {
                proof {
                    lemma_last_map_at(self.nets@, i as int);
                }
                Some(&self.nets[i].1)
            },
            None => {
                proof {
                    lemma_last_map_absent(self.nets@, id@);
                }
                None
            },
        }
    }

    /// Records `net` as the state of network `id`, replacing any earlier one.
    pub fn insert(&mut self, id: String, net: NetSnapshot)
        ensures
            final(self)@ == old(self)@.insert(id@, net),
            keys_distinct(old(self).nets@) ==> keys_distinct(final(self).nets@),
    {
        match find_last(&self.nets, &id) {
            Some(i) => {
                let ghost k = id@;
                let ghost n = net;
                let ghost s0 = self.nets@;
                self.nets.set(i, (id, net));
                proof {
                    let s1 = self.nets@;
                    let m0 = last_map(keyed(s0));
                    let m1 = last_map(keyed(s1));
                    assert forall|x: Seq<char>| #![trigger m1.contains_key(x)] true implies m1.contains_key(x) == m0.insert(k, n).contains_key(x) && (m1.contains_key(x) ==> m1[x] == m0.insert(k, n)[x]) by {
                        if x == k {
                            lemma_last_map_at(s1, i as int);
                        } else {
                            let ks0 = keyed(s0);
                            let ks1 = keyed(s1);
                            lemma_map_same_except(ks0, ks1, i as int, x);
                        }
                    }
                    assert(m1 =~= m0.insert(k, n));
                    if keys_distinct(s0) {
                        assert forall|a: int, b: int| 0 <= a < b < s1.len() implies (#[trigger] s1[a]).0@ != (#[trigger] s1[b]).0@ by {
                            assert(s0[a].0@ != s0[b].0@);
                        }
                    }
                }
            },
            None => {
                let ghost k = id@;
                let ghost s0 = self.nets@;
                self.nets.push((id, net));
                proof {
                    assert(keyed(self.nets@).drop_last() =~= keyed(s0));
                    if keys_distinct(s0) {
                        let s1 = self.nets@;
                        assert forall|a: int, b: int| 0 <= a < b < s1.len() implies (#[trigger] s1[a]).0@ != (#[trigger] s1[b]).0@ by {
                            if b < s0.len() {
                                assert(s0[a].0@ != s0[b].0@);
                            }
                        }
                    }
                }
            },
        }
    }

    /// A network is "live" if it is connected or connecting.
    pub fn is_live(&self, id: &str) -> (r: bool)
        ensures
            r == (self@.contains_key(id@) && (self@[id@].status == Status::Connected
                || self@[id@].status == Status::Connecting)),
    {
        match self.net(id) {
            Some(n) => n.status == Status::Connected || n.status == Status::Connecting,
            None => false,
        }
    }

    /// Whether the view holds entry `i`.
    fn held(&self, i: usize) -> (r: bool)
        requires
            i < self.nets@.len(),
        ensures
            r == in_view(self.nets@, i as int),
    {
        match find_last(&self.nets, &self.nets[i].0) {
            Some(j) => {
                proof {
                    if j != i {
                        assert(j > i);
                        assert(self.nets@[j as int].0@ == self.nets@[i as int].0@);
                    }
                }
                j == i
            },
            None => {
                proof {
                    assert(self.nets@[i as int].0@ != self.nets@[i as int].0@);
                }
                false
            },
        }
    }

    fn count(&self, st: Status) -> (r: usize)
        ensures
            r == count_status(self.nets@, st),
    {
        let mut c: usize = 0;
        let mut i: usize = 0;
        while i < self.nets.len()
            invariant
                i <= self.nets@.len(),
                c == count_upto(self.nets@, i as int, st),
                c <= i,
            decreases self.nets@.len() - i,
        {
            if self.held(i) && self.nets[i].1.status == st {
                c = c + 1;
            }
            i = i + 1;
        }
        c
    }

    /// The number of connected networks.
    pub fn connected_count(&self) -> (r: usize)
        ensures
            r == count_status(self.nets@, Status::Connected),
    {
        self.count(Status::Connected)
    }

    /// The number of peers over all networks.
    pub fn total_peers(&self) -> (r: usize)
        requires
            sum_peers(self.nets@) <= usize::MAX,
        ensures
            r == sum_peers(self.nets@),
    {
        let mut c: usize = 0;
        let mut i: usize = 0;
        while i < self.nets.len()
            invariant
                i <= self.nets@.len(),
                c == peers_upto(self.nets@, i as int),
                sum_peers(self.nets@) <= usize::MAX,
            decreases self.nets@.len() - i,
        {
            proof {
                lemma_upto_mono(self.nets@, i + 1, self.nets@.len() as int);
            }
            if self.held(i) {
                c = c + self.nets[i].1.peers.len();
            }
            i = i + 1;
        }
        c
    }

    /// Bytes received over all networks.
    pub fn total_rx(&self) -> (r: u64)
        requires
            sum_rx(self.nets@) <= u64::MAX,
        ensures
            r == sum_rx(self.nets@),
    {
        let mut c: u64 = 0;
        let mut i: usize = 0;
        while i < self.nets.len()
            invariant
                i <= self.nets@.len(),
                c == rx_upto(self.nets@, i as int),
                sum_rx(self.nets@) <= u64::MAX,
            decreases self.nets@.len() - i,
        {
            proof {
                lemma_upto_mono(self.nets@, i + 1, self.nets@.len() as int);
            }
            if self.held(i) {
                c = c + self.nets[i].1.rx_bytes;
            }
            i = i + 1;
        }
        c
    }

    /// Bytes sent over all networks.
    pub fn total_tx(&self) -> (r: u64)
        requires
            sum_tx(self.nets@) <= u64::MAX,
        ensures
            r == sum_tx(self.nets@),
    {
        let mut c: u64 = 0;
        let mut i: usize = 0;
        while i < self.nets.len()
            invariant
                i <= self.nets@.len(),
                c == tx_upto(self.nets@, i as int),
                sum_tx(self.nets@) <= u64::MAX,
            decreases self.nets@.len() - i,
        {
            proof {
                lemma_upto_mono(self.nets@, i + 1, self.nets@.len() as int);
            }
            if self.held(i) {
                c = c + self.nets[i].1.tx_bytes;
            }
            i = i + 1;
        }
        c
    }

    /// One-line connection summary for the system-tray tooltip.
    pub fn status_summary(&self, tr: &Translator) -> (r: String)
        requires
            sum_peers(self.nets@) <= usize::MAX,
        ensures
            r@ == summary_text(*tr, self.nets@),
    {
        let connected = self.connected_count();
        if connected > 0 {
            let mut s = tn(tr, "{n} connected", connected);
            push_str(&mut s, " · ");
            let peers = tn(tr, "{n} peers", self.total_peers());
            push_str(&mut s, peers.as_str());
            s
        } else if self.count(Status::Connecting) > 0 {
            t(tr, "Connecting…")
        } else if self.count(Status::Error) > 0 {
            t(tr, "Error")
        } else {
            t(tr, "Not connected")
        }
    }
}

proof fn lemma_map_same_except<V>(s0: Seq<(Seq<char>, V)>, s1: Seq<(Seq<char>, V)>, i: int, x: Seq<char>)
    requires
        s0.len() == s1.len(),
        0 <= i < s0.len(),
        s0[i].0 != x,
        s1[i].0 != x,
        forall|j: int| 0 <= j < s0.len() && j != i ==> #[trigger] s0[j] == s1[j],
    ensures
        last_map(s0).contains_key(x) == last_map(s1).contains_key(x),
        last_map(s0).contains_key(x) ==> last_map(s0)[x] == last_map(s1)[x],
    decreases s0.len(),
{
    if s0.len() > 0 {
        if i < s0.len() - 1 {
            lemma_map_same_except(s0.drop_last(), s1.drop_last(), i, x);
            assert(s0.last() == s1.last());
        } else {
            assert(s0.drop_last() =~= s1.drop_last());
        }
    }
}

/// Whether `r` is the snapshot republished from the live instances'
/// snapshots and the recorded configuration errors: every network with an
/// error shows just that error, every other live network its own snapshot.
pub open spec fn published(
    instances: Seq<(String, NetSnapshot)>,
    errors: Seq<(String, String)>,
    r: Map<Seq<char>, NetSnapshot>,
) -> bool {
    let inst = last_map(keyed(instances));
    let err = last_map(keyed(errors));
    &&& r.dom() == inst.dom().union(err.dom())
    &&& forall|k: Seq<char>| #[trigger] r.contains_key(k) ==> if err.contains_key(k) {
        is_bare_net(r[k], Status::Error, Some(err[k]@))
    } else {
        r[k] == inst[k]
    }
}

/// Rebuilds the snapshot from the live instances' snapshots and the recorded
/// errors.
pub fn publish(instances: Vec<(String, NetSnapshot)>, errors: &Vec<(String, String)>) -> (r: Snapshot)
    ensures
        published(instances@, errors@, r@),
        keys_distinct(r.nets@),
{
    let ghost inst_seq = instances@;
    let mut snap = Snapshot::new();
    let mut rest = instances;
    let mut taken: usize = 0;
    let total = rest.len();
    while rest.len() > 0
        invariant
            taken + rest@.len() == inst_seq.len(),
            inst_seq.len() == total,
            rest@ == inst_seq.subrange(taken as int, inst_seq.len() as int),
            snap@ == last_map(keyed(inst_seq.take(taken as int))),
            keys_distinct(snap.nets@),
        decreases rest@.len(),
    {
        let (id, net) = rest.remove(0);
        proof {
            assert(inst_seq[taken as int] == (id, net));
            assert(keyed(inst_seq.take(taken + 1)).drop_last() =~= keyed(inst_seq.take(taken as int)));
            assert(keyed(inst_seq.take(taken + 1)).last() == (id@, net));
        }
        snap.insert(id, net);
        taken = taken + 1;
        proof {
            assert(rest@ =~= inst_seq.subrange(taken as int, inst_seq.len() as int));
        }
    }
    proof {
        assert(inst_seq.take(taken as int) =~= inst_seq);
    }
    let ghost inst = snap@;
    let mut i: usize = 0;
    while i < errors.len()
        invariant
            i <= errors@.len(),
            inst == last_map(keyed(inst_seq)),
            keys_distinct(snap.nets@),
            snap@.dom() == inst.dom().union(last_map(keyed(errors@.take(i as int))).dom()),
            forall|k: Seq<char>| #[trigger] snap@.contains_key(k) ==> if last_map(keyed(errors@.take(i as int))).contains_key(k) {
                is_bare_net(snap@[k], Status::Error, Some(last_map(keyed(errors@.take(i as int)))[k]@))
            } else {
                snap@[k] == inst[k]
            },
        decreases errors@.len() - i,
    {
        let id = copy_string(&errors[i].0);
        let msg = copy_string(&errors[i].1);
        let net = bare_net(Status::Error, Some(msg));
        let ghost before = snap@;
        snap.insert(id, net);
        proof {
            let e0 = last_map(keyed(errors@.take(i as int)));
            let e1 = last_map(keyed(errors@.take(i + 1)));
            assert(keyed(errors@.take(i + 1)).drop_last() =~= keyed(errors@.take(i as int)));
            assert(keyed(errors@.take(i + 1)).last() == (errors@[i as int].0@, errors@[i as int].1));
            assert(e1 == e0.insert(errors@[i as int].0@, errors@[i as int].1));
            assert(snap@.dom() =~= inst.dom().union(e1.dom()));
        }
        i = i + 1;
    }
    proof {
        assert(errors@.take(errors@.len() as int) =~= errors@);
    }
    snap
}

// ─────────────────────────────── byte sizes ────────────────────────────────

/// `a / d` rounded to the nearest integer, ties to the even one.
pub open spec fn div_round_even(a: nat, d: nat) -> nat {
    let q = a / d;
    let r = a % d;
    if 2 * r > d || (2 * r == d && q % 2 == 1) {
        q + 1
    } else {
        q
    }
}

/// The power-of-two scale (starting the search at `u`) at which `n` fits a
/// 53-bit significand.
pub open spec fn f64_scale(n: nat, u: nat) -> nat
    decreases n / u,
    when u > 0
{
    if n / u < 0x20_0000_0000_0000 {
        u
    } else {
        proof {
            lemma_div_twice(n, u);
        }
        f64_scale(n, 2 * u)
    }
}

/// Doubling a divisor strictly lowers a quotient that is at least 1.
pub proof fn lemma_div_twice(n: nat, u: nat)
    requires
        u > 0,
        n / u >= 1,
    ensures
        n / (2 * u) < n / u,
{
    assert(n / (2 * u) == (n / u) / 2) by {
        vstd::arithmetic::div_mod::lemma_div_denominator(n as int, u as int, 2);
    }
}

/// `n as f64`: exact below 2^53, otherwise rounded to the nearest multiple
/// of the scale, ties to an even significand.
pub open spec fn as_f64(n: nat) -> nat {
    let u = f64_scale(n, 1);
    div_round_even(n, u) * u
}

/// How many times a size of (rounded) value `v >= 1024` is divided by 1024:
/// up to 4 (terabytes).
pub open spec fn unit_index(v: nat) -> nat {
    if v >= 0x100_0000_0000 {
        4
    } else if v >= 0x4000_0000 {
        3
    } else if v >= 0x10_0000 {
        2
    } else {
        1
    }
}

/// 1024 to the power `i` (1..=4).
pub open spec fn unit_divisor(i: nat) -> nat {
    if i == 4 {
        0x100_0000_0000
    } else if i == 3 {
        0x4000_0000
    } else if i == 2 {
        0x10_0000
    } else {
        0x400
    }
}

/// The unit name for `i` divisions by 1024.
pub open spec fn unit_name(i: nat) -> Seq<char> {
    if i == 4 {
        "TB"@
    } else if i == 3 {
        "GB"@
    } else if i == 2 {
        "MB"@
    } else {
        "KB"@
    }
}

/// A byte count as `human_bytes` shows it: whole bytes below 1 KiB, else the
/// value (as the float `n as f64`) divided by 1024 up to four times while it
/// is at least 1024, with one decimal rounded half to even, and the unit.
pub open spec fn human_bytes_text(n: nat) -> Seq<char> {
    if n < 1024 {
        decimal(n) + " B"@
    } else {
        let v = as_f64(n);
        let i = unit_index(v);
        let tenths = div_round_even(v * 10, unit_divisor(i));
        decimal(tenths / 10) + "."@ + decimal(tenths % 10) + " "@ + unit_name(i)
    }
}

fn div_round_even_exec(a: u128, d: u128) -> (r: u128)
    requires
        0 < d <= 0x100_0000_0000,
        a <= 0xffff_ffff_ffff_ffff_ffff,
    ensures
        r == div_round_even(a as nat, d as nat),
        r <= a / d + 1,
{
    let q = a / d;
    let rem = a % d;
    if 2 * rem > d || (2 * rem == d && q % 2 == 1) {
        q + 1
    } else {
        q
    }
}

/// Human-readable byte size.
pub fn human_bytes(n: u64) -> (r: String)
    ensures
        r@ == human_bytes_text(n as nat),
{
    if n < 1024 {
        let mut s = String::new();
        push_decimal(&mut s, n);
        push_str(&mut s, " B");
        return s;
    }
    let big = n as u128;
    let mut u: u128 = 1;
    while big / u >= 0x20_0000_0000_0000
        invariant
            u >= 1,
            u <= 0x1000,
            big == n as u128,
            f64_scale(n as nat, u as nat) == f64_scale(n as nat, 1),
        decreases big / u,
    {
        proof {
            assert(u * 0x20_0000_0000_0000 <= big) by (nonlinear_arith)
                requires
                    big / u >= 0x20_0000_0000_0000,
                    u >= 1,
            ;
            assert(u < 0x800) by (nonlinear_arith)
                requires
                    u * 0x20_0000_0000_0000 <= big,
                    big <= 0xffff_ffff_ffff_ffff,
            ;
            lemma_div_twice(n as nat, u as nat);
        }
        u = u * 2;
    }
    let q = div_round_even_exec(big, u);
    proof {
        assert(q * u <= big + u) by (nonlinear_arith)
            requires
                q <= big / u + 1,
                u >= 1,
        ;
    }
    let v = q * u;
    let (i, d, unit): (u8, u128, &str) = if v >= 0x100_0000_0000 {
        (4, 0x100_0000_0000, "TB")
    } else if v >= 0x4000_0000 {
        (3, 0x4000_0000, "GB")
    } else if v >= 0x10_0000 {
        (2, 0x10_0000, "MB")
    } else {
        (1, 0x400, "KB")
    };
    let tenths = div_round_even_exec(v * 10, d);
    proof {
        assert(tenths / 10 <= 0xffff_ffff_ffff_ffff) by (nonlinear_arith)
            requires
                tenths <= (v as int * 10) / (d as int) + 1,
                d >= 1024,
                v <= 0x1_0000_0000_0000_1000,
        ;
    }
    let mut s = String::new();
    push_decimal(&mut s, (tenths / 10) as u64);
    push_char(&mut s, '.');
    push_decimal(&mut s, (tenths % 10) as u64);
    push_char(&mut s, ' ');
    push_str(&mut s, unit);
    proof {
        reveal_strlit(".");
        reveal_strlit(" ");
        assert(s@ =~= human_bytes_text(n as nat));
    }
    s
}

// ───────────────────────────── running info ────────────────────────────────

/// EasyTier's NAT classification.
#[derive(Clone, Copy, PartialEq, Eq, Debug, Structural)]
pub enum NatType {
    Unknown,
    OpenInternet,
    NoPat,
    FullCone,
    Restricted,
    PortRestricted,
    Symmetric,
    SymUdpFirewall,
    SymmetricEasyInc,
    SymmetricEasyDec,
}

/// The friendly label of a NAT type.
pub open spec fn nat_label(n: NatType) -> Seq<char> {
    match n {
        NatType::Unknown => "Unknown"@,
        NatType::OpenInternet => "Open Internet"@,
        NatType::NoPat => "No PAT"@,
        NatType::FullCone => "Full Cone"@,
        NatType::Restricted => "Restricted"@,
        NatType::PortRestricted => "Port Restricted"@,
        NatType::Symmetric => "Symmetric"@,
        NatType::SymUdpFirewall => "Symmetric UDP Firewall"@,
        NatType::SymmetricEasyInc => "Symmetric Easy Inc"@,
        NatType::SymmetricEasyDec => "Symmetric Easy Dec"@,
    }
}

/// The variant name of a NAT type (its `{:?}` rendering).
pub open spec fn nat_name(n: NatType) -> Seq<char> {
    match n {
        NatType::Unknown => "Unknown"@,
        NatType::OpenInternet => "OpenInternet"@,
        NatType::NoPat => "NoPat"@,
        NatType::FullCone => "FullCone"@,
        NatType::Restricted => "Restricted"@,
        NatType::PortRestricted => "PortRestricted"@,
        NatType::Symmetric => "Symmetric"@,
        NatType::SymUdpFirewall => "SymUdpFirewall"@,
        NatType::SymmetricEasyInc => "SymmetricEasyInc"@,
        NatType::SymmetricEasyDec => "SymmetricEasyDec"@,
    }
}

/// Maps EasyTier's NAT type to a friendlier label.
pub fn pretty_nat(n: NatType) -> (r: String)
    ensures
        r@ == nat_label(n),
{
    owned(
        match n {
            NatType::Unknown => "Unknown",
            NatType::OpenInternet => "Open Internet",
            NatType::NoPat => "No PAT",
            NatType::FullCone => "Full Cone",
            NatType::Restricted => "Restricted",
            NatType::PortRestricted => "Port Restricted",
            NatType::Symmetric => "Symmetric",
            NatType::SymUdpFirewall => "Symmetric UDP Firewall",
            NatType::SymmetricEasyInc => "Symmetric Easy Inc",
            NatType::SymmetricEasyDec => "Symmetric Easy Dec",
        },
    )
}

/// The variant name of a NAT type.
pub fn nat_debug_name(n: NatType) -> (r: String)
    ensures
        r@ == nat_name(n),
{
    owned(
        match n {
            NatType::Unknown => "Unknown",
            NatType::OpenInternet => "OpenInternet",
            NatType::NoPat => "NoPat",
            NatType::FullCone => "FullCone",
            NatType::Restricted => "Restricted",
            NatType::PortRestricted => "PortRestricted",
            NatType::Symmetric => "Symmetric",
            NatType::SymUdpFirewall => "SymUdpFirewall",
            NatType::SymmetricEasyInc => "SymmetricEasyInc",
            NatType::SymmetricEasyDec => "SymmetricEasyDec",
        },
    )
}

/// Traffic counters of one connection.
#[derive(Clone, Copy, PartialEq, Eq, Debug, Structural)]
pub struct ConnStats {
    pub rx_bytes: u64,
    pub tx_bytes: u64,
    pub latency_us: u64,
}

/// One connection to a peer.
#[derive(Clone, PartialEq, Eq, Debug)]
pub struct PeerConn {
    pub stats: Option<ConnStats>,
    /// The tunnel type, when the connection reports its tunnel.
    pub tunnel_type: Option<String>,
}

/// The connections to a peer.
#[derive(Clone, PartialEq, Eq, Debug)]
pub struct PeerInfo {
    pub conns: Vec<PeerConn>,
}

/// A route to a peer.
#[derive(Clone, PartialEq, Eq, Debug)]
pub struct Route {
    pub hostname: String,
    pub peer_id: u32,
    /// The peer's virtual address, already rendered.
    pub ipv4_addr: Option<String>,
    pub cost: i32,
    /// The peer's UDP NAT type, when it reported STUN info.
    pub nat_type: Option<NatType>,
    pub version: String,
}

/// A peer's route and connections.
#[derive(Clone, PartialEq, Eq, Debug)]
pub struct PeerRoutePair {
    pub route: Option<Route>,
    pub peer: Option<PeerInfo>,
}

/// This node as EasyTier reports it.
#[derive(Clone, PartialEq, Eq, Debug)]
pub struct NodeInfo {
    pub virtual_ipv4: Option<String>,
    pub hostname: String,
    pub peer_id: u32,
    pub version: String,
    pub vpn_portal_cfg: Option<String>,
    /// Listener URLs.
    pub listeners: Vec<String>,
    /// The UDP NAT type, when STUN info is present.
    pub nat_type: Option<NatType>,
    pub public_ipv4: Option<String>,
    pub public_ipv6: Option<String>,
}

/// An instance's running info.
#[derive(Clone, PartialEq, Eq, Debug)]
pub struct RunningInfo {
    pub running: bool,
    pub error_msg: Option<String>,
    pub dev_name: String,
    pub my_node_info: Option<NodeInfo>,
    /// Raw events, oldest first.
    pub events: Vec<String>,
    pub peer_route_pairs: Vec<PeerRoutePair>,
}

/// A peer row as plain values.
pub struct PeerRowView {
    pub hostname: Seq<char>,
    pub ipv4: Seq<char>,
    pub cost: Seq<char>,
    pub latency_us: Option<u64>,
    pub tunnel: Seq<char>,
    pub rx: u64,
    pub tx: u64,
    pub nat: Seq<char>,
    pub version: Seq<char>,
}

impl View for PeerRow {
    type V = PeerRowView;

    open spec fn view(&self) -> PeerRowView {
        PeerRowView {
            hostname: self.hostname@,
            ipv4: self.ipv4@,
            cost: self.cost@,
            latency_us: self.latency_us,
            tunnel: self.tunnel@,
            rx: self.rx,
            tx: self.tx,
            nat: self.nat@,
            version: self.version@,
        }
    }
}

/// Bytes received over the connections that report counters.
pub open spec fn conns_rx(c: Seq<PeerConn>) -> nat
    decreases c.len(),
{
    if c.len() == 0 {
        0
    } else {
        conns_rx(c.drop_last()) + match c.last().stats {
            Some(s) => s.rx_bytes as nat,
            None => 0,
        }
    }
}

/// Bytes sent over the connections that report counters.
pub open spec fn conns_tx(c: Seq<PeerConn>) -> nat
    decreases c.len(),
{
    if c.len() == 0 {
        0
    } else {
        conns_tx(c.drop_last()) + match c.last().stats {
            Some(s) => s.tx_bytes as nat,
            None => 0,
        }
    }
}

/// Summed round-trip times of the connections that report counters.
pub open spec fn conns_latency(c: Seq<PeerConn>) -> nat
    decreases c.len(),
{
    if c.len() == 0 {
        0
    } else {
        conns_latency(c.drop_last()) + match c.last().stats {
            Some(s) => s.latency_us as nat,
            None => 0,
        }
    }
}

/// How many connections report counters.
pub open spec fn conns_counted(c: Seq<PeerConn>) -> nat
    decreases c.len(),
{
    if c.len() == 0 {
        0
    } else {
        conns_counted(c.drop_last()) + if c.last().stats is Some { 1nat } else { 0nat }
    }
}

/// The upper-cased tunnel type a connection names (empty when none).
pub open spec fn conn_tunnel(c: PeerConn) -> Seq<char> {
    match c.tunnel_type {
        Some(t) => uppercase(t@),
        None => Seq::empty(),
    }
}

/// The tunnel of the first connection that names a non-empty one, upper-cased.
pub open spec fn first_tunnel(c: Seq<PeerConn>) -> Seq<char>
    decreases c.len(),
{
    if c.len() == 0 {
        Seq::empty()
    } else if first_tunnel(c.drop_last()).len() > 0 {
        first_tunnel(c.drop_last())
    } else {
        conn_tunnel(c.last())
    }
}

/// The connections of a pair (none without peer info).
pub open spec fn pair_conns(p: PeerRoutePair) -> Seq<PeerConn> {
    match p.peer {
        Some(pi) => pi.conns@,
        None => Seq::empty(),
    }
}

/// The table row of a peer with route `r` and connections `c`.
pub open spec fn row_of(r: Route, c: Seq<PeerConn>) -> PeerRowView {
    PeerRowView {
        hostname: if r.hostname@.len() == 0 { "peer-"@ + decimal(r.peer_id as nat) } else { r.hostname@ },
        ipv4: crate::config::or_empty(r.ipv4_addr),
        cost: if r.cost <= 1 { "Direct"@ } else { "Relay ×"@ + decimal(r.cost as nat) },
        latency_us: if conns_counted(c) == 0 { None } else { Some((conns_latency(c) / conns_counted(c)) as u64) },
        tunnel: if first_tunnel(c).len() == 0 { "—"@ } else { first_tunnel(c) },
        rx: conns_rx(c) as u64,
        tx: conns_tx(c) as u64,
        nat: match r.nat_type {
            Some(n) => nat_label(n),
            None => "Unknown"@,
        },
        version: if r.version@.len() == 0 { "—"@ } else { r.version@ },
    }
}

/// The rows of the pairs that have a route, in order.
pub open spec fn rows_of(pairs: Seq<PeerRoutePair>) -> Seq<PeerRowView>
    decreases pairs.len(),
{
    if pairs.len() == 0 {
        Seq::empty()
    } else {
        let rest = rows_of(pairs.drop_last());
        match pairs.last().route {
            Some(r) => rest.push(row_of(r, pair_conns(pairs.last()))),
            None => rest,
        }
    }
}

/// Bytes received from all routed peers.
pub open spec fn pairs_rx(pairs: Seq<PeerRoutePair>) -> nat
    decreases pairs.len(),
{
    if pairs.len() == 0 {
        0
    } else {
        pairs_rx(pairs.drop_last()) + if pairs.last().route is Some { conns_rx(pair_conns(pairs.last())) } else { 0 }
    }
}

/// Bytes sent to all routed peers.
pub open spec fn pairs_tx(pairs: Seq<PeerRoutePair>) -> nat
    decreases pairs.len(),
{
    if pairs.len() == 0 {
        0
    } else {
        pairs_tx(pairs.drop_last()) + if pairs.last().route is Some { conns_tx(pair_conns(pairs.last())) } else { 0 }
    }
}

/// Whether every counter sum that a snapshot takes fits in 64 bits.
pub open spec fn counters_fit(pairs: Seq<PeerRoutePair>) -> bool {
    &&& pairs_rx(pairs) <= u64::MAX
    &&& pairs_tx(pairs) <= u64::MAX
    &&& forall|i: int| 0 <= i < pairs.len() && (#[trigger] pairs[i]).route is Some ==> conns_latency(pair_conns(pairs[i])) <= u64::MAX
}

/// `s` upper-cased (`str::to_uppercase`).
pub uninterp spec fn uppercase(s: Seq<char>) -> Seq<char>;

/// `s` lower-cased (`str::to_lowercase`).
pub uninterp spec fn lowercase(s: Seq<char>) -> Seq<char>;

/// `str::to_uppercase`: the Unicode upper case of `s`, a function of `s`.
#[verifier::external_body]
fn to_uppercase(s: &str) -> (r: String)
    ensures
        r@ == uppercase(s@),
{
    s.to_uppercase()
}

/// `str::to_lowercase`: the Unicode lower case of `s`, a function of `s`.
#[verifier::external_body]
fn to_lowercase(s: &str) -> (r: String)
    ensures
        r@ == lowercase(s@),
{
    s.to_lowercase()
}

proof fn lemma_conns_prefix(c: Seq<PeerConn>, j: int)
    requires
        0 <= j <= c.len(),
    ensures
        conns_rx(c.take(j)) <= conns_rx(c),
        conns_tx(c.take(j)) <= conns_tx(c),
        conns_latency(c.take(j)) <= conns_latency(c),
        conns_counted(c.take(j)) <= j,
    decreases c.len() - j,
{
    if j < c.len() {
        lemma_conns_prefix(c.drop_last(), j);
        assert(c.drop_last().take(j) =~= c.take(j));
    } else {
        assert(c.take(j) =~= c);
        lemma_counted_le(c);
    }
}

proof fn lemma_counted_le(c: Seq<PeerConn>)
    ensures
        conns_counted(c) <= c.len(),
    decreases c.len(),
{
    if c.len() > 0 {
        lemma_counted_le(c.drop_last());
    }
}

/// The table row of a peer.
fn peer_row(r: &Route, conns: &Vec<PeerConn>) -> (row: PeerRow)
    requires
        conns_rx(conns@) <= u64::MAX,
        conns_tx(conns@) <= u64::MAX,
        conns_latency(conns@) <= u64::MAX,
    ensures
        row@ == row_of(*r, conns@),
{
    let mut rx: u64 = 0;
    let mut tx: u64 = 0;
    let mut latency_us: u64 = 0;
    let mut conn_count: u64 = 0;
    let mut tunnel = String::new();
    let mut i: usize = 0;
    while i < conns.len()
        invariant
            i <= conns@.len(),
            conns_rx(conns@) <= u64::MAX,
            conns_tx(conns@) <= u64::MAX,
            conns_latency(conns@) <= u64::MAX,
            rx == conns_rx(conns@.take(i as int)),
            tx == conns_tx(conns@.take(i as int)),
            latency_us == conns_latency(conns@.take(i as int)),
            conn_count == conns_counted(conns@.take(i as int)),
            conn_count <= i,
            tunnel@ == first_tunnel(conns@.take(i as int)),
        decreases conns@.len() - i,
    {
        proof {
            assert(conns@.take(i + 1).drop_last() =~= conns@.take(i as int));
            assert(conns@.take(i + 1).last() == conns@[i as int]);
            lemma_conns_prefix(conns@, i + 1);
        }
        let conn = &conns[i];
        match conn.stats {
            Some(s) => {
                rx = rx + s.rx_bytes;
                tx = tx + s.tx_bytes;
                latency_us = latency_us + s.latency_us;
                conn_count = conn_count + 1;
            },
            None => {},
        }
        if tunnel.as_str().is_empty() {
            match &conn.tunnel_type {
                Some(t) => {
                    tunnel = to_uppercase(t.as_str());
                },
                None => {},
            }
        }
        i = i + 1;
    }
    proof {
        assert(conns@.take(i as int) =~= conns@);
    }
    let latency = if conn_count == 0 {
        None
    } else {
        Some(latency_us / conn_count)
    };
    let hostname = if r.hostname.as_str().is_empty() {
        let mut h = owned("peer-");
        push_decimal(&mut h, r.peer_id as u64);
        h
    } else {
        copy_string(&r.hostname)
    };
    let ipv4 = match &r.ipv4_addr {
        Some(a) => copy_string(a),
        None => String::new(),
    };
    let cost = if r.cost <= 1 {
        owned("Direct")
    } else {
        let mut s = owned("Relay ×");
        push_decimal(&mut s, r.cost as u64);
        s
    };
    let nat_text = match r.nat_type {
        Some(n) => pretty_nat(n),
        None => owned("Unknown"),
    };
    let version = if r.version.as_str().is_empty() {
        owned("—")
    } else {
        copy_string(&r.version)
    };
    let tunnel = if tunnel.as_str().is_empty() {
        owned("—")
    } else {
        tunnel
    };
    PeerRow { hostname, ipv4, cost, latency_us: latency, tunnel, rx, tx, nat: nat_text, version }
}

/// Whether key `a` sorts no later than key `b` (code-point lexicographic
/// order, which is how strings compare).
pub open spec fn key_le(a: Seq<char>, b: Seq<char>) -> bool
    decreases a.len(),
{
    if a.len() == 0 {
        true
    } else if b.len() == 0 {
        false
    } else if a[0] != b[0] {
        (a[0] as u32) < (b[0] as u32)
    } else {
        key_le(a.drop_first(), b.drop_first())
    }
}

/// The sort key of a row: its lower-cased hostname.
pub open spec fn row_key(r: PeerRowView) -> Seq<char> {
    lowercase(r.hostname)
}

/// `x` inserted into `s` after every trailing row whose key is above `x`'s.
pub open spec fn insert_by_key(s: Seq<PeerRowView>, x: PeerRowView) -> Seq<PeerRowView>
    decreases s.len(),
{
    if s.len() == 0 || key_le(row_key(s.last()), row_key(x)) {
        s.push(x)
    } else {
        insert_by_key(s.drop_last(), x).push(s.last())
    }
}

/// `s` stably sorted by lower-cased hostname (`sort_by_key`).
pub open spec fn sort_rows(s: Seq<PeerRowView>) -> Seq<PeerRowView>
    decreases s.len(),
{
    if s.len() == 0 {
        s
    } else {
        insert_by_key(sort_rows(s.drop_last()), s.last())
    }
}

fn key_le_exec(a: &Vec<char>, b: &Vec<char>) -> (r: bool)
    ensures
        r == key_le(a@, b@),
{
    let mut i: usize = 0;
    proof {
        assert(a@.skip(0) =~= a@);
        assert(b@.skip(0) =~= b@);
    }
    while i < a.len() && i < b.len() && a[i] == b[i]
        invariant
            i <= a@.len(),
            i <= b@.len(),
            key_le(a@, b@) == key_le(a@.skip(i as int), b@.skip(i as int)),
        decreases a@.len() - i,
    {
        proof {
            assert(a@.skip(i as int).drop_first() =~= a@.skip(i + 1));
            assert(b@.skip(i as int).drop_first() =~= b@.skip(i + 1));
        }
        i = i + 1;
    }
    if i == a.len() {
        true
    } else if i == b.len() {
        false
    } else {
        (a[i] as u32) < (b[i] as u32)
    }
}

proof fn lemma_insert_at(s: Seq<PeerRowView>, x: PeerRowView, j: int)
    requires
        0 <= j <= s.len(),
        forall|i: int| j <= i < s.len() ==> !key_le(row_key(#[trigger] s[i]), row_key(x)),
        j == 0 || key_le(row_key(s[j - 1]), row_key(x)),
    ensures
        insert_by_key(s, x) == s.insert(j, x),
    decreases s.len() - j,
{
    if j == s.len() {
        assert(s.push(x) =~= s.insert(j, x));
    } else {
        let t = s.drop_last();
        assert forall|i: int| j <= i < t.len() implies !key_le(row_key(#[trigger] t[i]), row_key(x)) by {
            assert(t[i] == s[i]);
        }
        if j > 0 {
            assert(t[j - 1] == s[j - 1]);
        }
        lemma_insert_at(t, x, j);
        assert(!key_le(row_key(s.last()), row_key(x)));
        assert(t.insert(j, x).push(s.last()) =~= s.insert(j, x));
    }
}

/// The views of keyed rows.
pub open spec fn row_views(s: Seq<(Vec<char>, PeerRow)>) -> Seq<PeerRowView> {
    s.map_values(|p: (Vec<char>, PeerRow)| p.1@)
}

/// Sorts peer rows stably by lower-cased hostname.
pub fn sort_peers(rows: Vec<PeerRow>) -> (r: Vec<PeerRow>)
    ensures
        r@.map_values(|p: PeerRow| p@) == sort_rows(rows@.map_values(|p: PeerRow| p@)),
{
    let ghost input = rows@.map_values(|p: PeerRow| p@);
    let mut sorted: Vec<(Vec<char>, PeerRow)> = Vec::new();
    let mut rest = rows;
    let ghost orig = rest@;
    let total = rest.len();
    let mut k: usize = 0;
    while rest.len() > 0
        invariant
            k + rest@.len() == total == orig.len(),
            rest@ == orig.subrange(k as int, orig.len() as int),
            input == orig.map_values(|p: PeerRow| p@),
            row_views(sorted@) == sort_rows(input.take(k as int)),
            forall|i: int| 0 <= i < sorted@.len() ==> (#[trigger] sorted@[i]).0@ == row_key(sorted@[i].1@),
        decreases rest@.len(),
    {
        let row = rest.remove(0);
        let lower = to_lowercase(row.hostname.as_str());
        let key = crate::text::chars_of(lower.as_str());
        let mut j = sorted.len();
        while j > 0 && !key_le_exec(&sorted[j - 1].0, &key)
            invariant
                j <= sorted@.len(),
                key@ == row_key(row@),
                forall|i: int| 0 <= i < sorted@.len() ==> (#[trigger] sorted@[i]).0@ == row_key(sorted@[i].1@),
                forall|i: int| j <= i < sorted@.len() ==> !key_le(row_key(#[trigger] row_views(sorted@)[i]), row_key(row@)),
            decreases j,
        {
            j = j - 1;
        }
        let ghost before = sorted@;
        proof {
            assert(input[k as int] == row@);
            assert(input.take(k + 1).drop_last() =~= input.take(k as int));
            assert(input.take(k + 1).last() == row@);
            lemma_insert_at(row_views(before), row@, j as int);
        }
        sorted.insert(j, (key, row));
        proof {
            assert(row_views(sorted@) =~= row_views(before).insert(j as int, row@));
        }
        k = k + 1;
        proof {
            assert(rest@ =~= orig.subrange(k as int, orig.len() as int));
        }
    }
    proof {
        assert(input.take(k as int) =~= input);
    }
    let mut out: Vec<PeerRow> = Vec::new();
    let ghost sv = row_views(sorted@);
    let mut taken: usize = 0;
    let n = sorted.len();
    while sorted.len() > 0
        invariant
            taken + sorted@.len() == n == sv.len(),
            row_views(sorted@) == sv.subrange(taken as int, n as int),
            out@.map_values(|p: PeerRow| p@) == sv.take(taken as int),
        decreases sorted@.len(),
    {
        let ghost old_sorted = sorted@;
        let (_, row) = sorted.remove(0);
        let ghost before = out@;
        proof {
            assert(row_views(old_sorted)[0] == sv.subrange(taken as int, n as int)[0]);
            assert(row@ == sv[taken as int]);
            assert(row_views(sorted@) =~= row_views(old_sorted).drop_first());
        }
        out.push(row);
        proof {
            assert(out@.map_values(|p: PeerRow| p@) =~= before.map_values(|p: PeerRow| p@).push(sv[taken as int]));
            assert(sv.take(taken + 1) =~= sv.take(taken as int).push(sv[taken as int]));
        }
        taken = taken + 1;
        proof {
            assert(row_views(sorted@) =~= sv.subrange(taken as int, n as int));
        }
    }
    proof {
        assert(sv.take(taken as int) =~= sv);
    }
    out
}

// ─────────────────────────────────── events ────────────────────────────────

/// The number of bytes UTF-8 takes for `c` (`char::len_utf8`).
pub open spec fn utf8_len(c: char) -> nat {
    let u = c as u32;
    if u < 0x80 {
        1
    } else if u < 0x800 {
        2
    } else if u < 0x10000 {
        3
    } else {
        4
    }
}

/// The character index at which byte offset `b` of `s` (in UTF-8) falls, if
/// `b` is a character boundary within `s`.
pub open spec fn boundary_index(s: Seq<char>, b: nat) -> Option<nat>
    decreases s.len(),
{
    if b == 0 {
        Some(0)
    } else if s.len() == 0 || b < utf8_len(s[0]) {
        None
    } else {
        match boundary_index(s.drop_first(), (b - utf8_len(s[0])) as nat) {
            Some(i) => Some(i + 1),
            None => None,
        }
    }
}

/// `str::get(lo..hi)` for `lo <= hi`: the characters between byte offsets
/// `lo` and `hi`, when both are character boundaries within `s`.
pub open spec fn byte_range(s: Seq<char>, lo: nat, hi: nat) -> Option<Seq<char>> {
    match (boundary_index(s, lo), boundary_index(s, hi)) {
        (Some(a), Some(b)) => if a <= b { Some(s.subrange(a as int, b as int)) } else { None },
        _ => None,
    }
}

fn char_utf8_len(c: char) -> (r: usize)
    ensures
        r == utf8_len(c),
{
    let u = c as u32;
    if u < 0x80 {
        1
    } else if u < 0x800 {
        2
    } else if u < 0x10000 {
        3
    } else {
        4
    }
}

fn find_boundary(v: &Vec<char>, b: usize) -> (r: Option<usize>)
    ensures
        match boundary_index(v@, b as nat) {
            Some(i) => r == Some(i as usize) && i <= v@.len(),
            None => r is None,
        },
{
    let mut i: usize = 0;
    let mut rem = b;
    proof {
        assert(v@.skip(0) =~= v@);
        lemma_boundary_bound(v@, b as nat);
    }
    while rem > 0 && i < v.len() && rem >= char_utf8_len(v[i])
        invariant
            i <= v@.len(),
            rem <= b,
            boundary_index(v@, b as nat) == match boundary_index(v@.skip(i as int), rem as nat) {
                Some(k) => Some((k + i) as nat),
                None => None::<nat>,
            },
            forall|k: nat| boundary_index(v@.skip(i as int), rem as nat) == Some(k) ==> k <= v@.len() - i,
        decreases rem,
    {
        let ghost t = v@.skip(i as int);
        proof {
            assert(t[0] == v@[i as int]);
            assert(t.drop_first() =~= v@.skip(i + 1));
            lemma_boundary_bound(v@.skip(i + 1), (rem - utf8_len(v@[i as int])) as nat);
        }
        rem = rem - char_utf8_len(v[i]);
        i = i + 1;
    }
    if rem == 0 {
        Some(i)
    } else {
        None
    }
}

proof fn lemma_boundary_bound(s: Seq<char>, b: nat)
    ensures
        forall|k: nat| boundary_index(s, b) == Some(k) ==> k <= s.len(),
    decreases s.len(),
{
    if b > 0 && s.len() > 0 && b >= utf8_len(s[0]) {
        lemma_boundary_bound(s.drop_first(), (b - utf8_len(s[0])) as nat);
    }
}

/// The characters between byte offsets `lo` and `hi` of `v`, if both are
/// character boundaries.
fn get_byte_range(v: &Vec<char>, lo: usize, hi: usize) -> (r: Option<String>)
    requires
        lo <= hi,
    ensures
        crate::config::opt_view(r) == byte_range(v@, lo as nat, hi as nat),
{
    match (find_boundary(v, lo), find_boundary(v, hi)) {
        (Some(a), Some(b)) => if a <= b {
            Some(crate::text::string_from_chars(v, a, b))
        } else {
            None
        },
        _ => None,
    }
}

/// The member `key` of a JSON object (the first one, should it repeat).
pub open spec fn member(m: Seq<(String, JsonNode)>, key: Seq<char>) -> Option<JsonNode>
    decreases m.len(),
{
    if m.len() == 0 {
        None
    } else if m[0].0@ == key {
        Some(m[0].1)
    } else {
        member(m.drop_first(), key)
    }
}

/// `Value::get(key)`: the member of an object, nothing for other values.
pub open spec fn json_get(v: JsonNode, key: Seq<char>) -> Option<JsonNode> {
    match v {
        JsonNode::Object(m) => member(m@, key),
        _ => None,
    }
}

fn get_member<'a>(v: &'a JsonNode, key: &str) -> (r: Option<&'a JsonNode>)
    ensures
        match json_get(*v, key@) {
            Some(x) => r is Some && *r.unwrap() == x,
            None => r is None,
        },
{
    match v {
        JsonNode::Object(m) => {
            let k = owned(key);
            let mut i: usize = 0;
            proof {
                assert(m@.skip(0) =~= m@);
            }
            while i < m.len()
                invariant
                    i <= m@.len(),
                    k@ == key@,
                    *v is Object,
                    (*v)->Object_0 == *m,
                    member(m@, key@) == member(m@.skip(i as int), key@),
                decreases m@.len() - i,
            {
                proof {
                    assert(m@.skip(i as int)[0] == m@[i as int]);
                    assert(m@.skip(i as int).drop_first() =~= m@.skip(i + 1));
                }
                if m[i].0 == k {
                    return Some(&m[i].1);
                }
                i = i + 1;
            }
            None
        },
        _ => None,
    }
}

/// A value's JSON text cut to 160 characters, with `…` when it was longer.
pub open spec fn compact_text(s: Seq<char>) -> Seq<char> {
    if s.len() > 160 {
        s.take(160) + "…"@
    } else {
        s
    }
}

fn compact(v: &JsonNode) -> (r: String)
    ensures
        r@ == compact_text(crate::json::json_text(*v)),
{
    let s = crate::json::render_json(v);
    let chars = crate::text::chars_of(s.as_str());
    if chars.len() > 160 {
        let mut out = crate::text::string_from_chars(&chars, 0, 160);
        push_str(&mut out, "…");
        proof {
            assert(chars@.subrange(0, 160) =~= chars@.take(160));
        }
        out
    } else {
        s
    }
}

/// The `HH:MM:SS` part of an event's `time` (bytes 11..19), or nothing.
pub open spec fn event_time(v: JsonNode) -> Seq<char> {
    match json_get(v, "time"@) {
        Some(JsonNode::Str(t)) => match byte_range(t@, 11, 19) {
            Some(x) => x,
            None => Seq::empty(),
        },
        _ => Seq::empty(),
    }
}

/// The event's name and detail: a plain string event has no detail; an
/// object event is named by its first member, whose value is the detail.
pub open spec fn event_parts(v: JsonNode) -> (Seq<char>, Seq<char>) {
    match json_get(v, "event"@) {
        Some(JsonNode::Str(s)) => (s@, Seq::empty()),
        Some(JsonNode::Object(m)) => if m@.len() > 0 {
            (m@[0].0@, compact_text(crate::json::json_text(m@[0].1)))
        } else {
            ("Event"@, Seq::empty())
        },
        _ => ("Event"@, Seq::empty()),
    }
}

/// How an EasyTier event (`{"time": "...", "event": {<Variant>: ...}}`) is
/// shown: `HH:MM:SS  Variant  detail`, or the raw text when it is not JSON.
pub open spec fn pretty_event_text(raw: Seq<char>) -> Seq<char> {
    match json_parse(raw) {
        None => raw,
        Some(v) => event_line_text(v),
    }
}

/// How a parsed event is shown: `HH:MM:SS  Variant  detail`, the detail and
/// its two separating spaces left out when it is empty.
pub open spec fn event_line_text(v: JsonNode) -> Seq<char> {
    let (name, detail) = event_parts(v);
    if detail.len() == 0 {
        event_time(v) + "  "@ + name
    } else {
        event_time(v) + "  "@ + name + "  "@ + detail
    }
}

/// Renders an event as `HH:MM:SS  Variant  detail`, falling back to the raw
/// text.
pub fn pretty_event(raw: &str) -> (r: String)
    ensures
        r@ == pretty_event_text(raw@),
{
    match parse_json(raw) {
        Some(v) => event_line(&v),
        None => owned(raw),
    }
}

/// Renders a parsed event as `HH:MM:SS  Variant  detail`.
pub fn event_line(v: &JsonNode) -> (r: String)
    ensures
        r@ == event_line_text(*v),
{
    let time = match get_member(v, "time") {
        Some(JsonNode::Str(t)) => {
            let tc = crate::text::chars_of(t.as_str());
            match get_byte_range(&tc, 11, 19) {
                Some(x) => x,
                None => String::new(),
            }
        },
        _ => String::new(),
    };
    let (name, detail) = match get_member(v, "event") {
        Some(JsonNode::Str(s)) => (copy_string(s), String::new()),
        Some(JsonNode::Object(m)) => if m.len() > 0 {
            (copy_string(&m[0].0), compact(&m[0].1))
        } else {
            (owned("Event"), String::new())
        },
        _ => (owned("Event"), String::new()),
    };
    let mut out = time;
    push_str(&mut out, "  ");
    push_str(&mut out, name.as_str());
    if !detail.as_str().is_empty() {
        push_str(&mut out, "  ");
        push_str(&mut out, detail.as_str());
    }
    proof {
        assert(out@ =~= event_line_text(*v));
    }
    out
}

/// The newest 200 events (newest first), each rendered by [`pretty_event`].
pub open spec fn recent_events(ev: Seq<String>) -> Seq<Seq<char>> {
    let n = if ev.len() < 200 { ev.len() as int } else { 200 };
    Seq::new(n as nat, |i: int| pretty_event_text(ev[ev.len() - 1 - i]@))
}

/// The snapshot of an instance whose running info is not available yet (or
/// any more): failed when it reports an error, else still connecting.
pub fn net_snapshot_unavailable(latest_error: Option<String>) -> (r: NetSnapshot)
    ensures
        is_bare_net(
            r,
            if latest_error is Some { Status::Error } else { Status::Connecting },
            crate::config::opt_view(latest_error),
        ),
{
    let status = if latest_error.is_some() { Status::Error } else { Status::Connecting };
    bare_net(status, latest_error)
}

proof fn lemma_pairs_prefix(p: Seq<PeerRoutePair>, j: int)
    requires
        0 <= j <= p.len(),
    ensures
        pairs_rx(p.take(j)) <= pairs_rx(p),
        pairs_tx(p.take(j)) <= pairs_tx(p),
    decreases p.len() - j,
{
    if j < p.len() {
        lemma_pairs_prefix(p.drop_last(), j);
        assert(p.drop_last().take(j) =~= p.take(j));
    } else {
        assert(p.take(j) =~= p);
    }
}

/// The snapshot of a running instance: status, error and device, this node's
/// identity and addresses, the newest events, the peers (one row per routed
/// peer, sorted by lower-cased hostname) and the traffic over them.
pub fn net_snapshot(info: &RunningInfo) -> (r: NetSnapshot)
    requires
        counters_fit(info.peer_route_pairs@),
    ensures
        r.status == (if info.running { Status::Connected } else { Status::Connecting }),
        crate::config::opt_view(r.error) == crate::config::opt_view(info.error_msg),
        r.dev_name@ == info.dev_name@,
        match info.my_node_info {
            Some(node) => {
                &&& r.virtual_ip@ == crate::config::or_empty(node.virtual_ipv4)
                &&& r.hostname@ == node.hostname@
                &&& r.peer_id == node.peer_id
                &&& r.version@ == node.version@
                &&& crate::config::opt_view(r.vpn_portal_cfg) == crate::config::opt_view(node.vpn_portal_cfg)
                &&& crate::text::views(r.listeners@) == crate::text::views(node.listeners@)
                &&& r.nat_type@ == match node.nat_type {
                    Some(n) => nat_name(n),
                    None => Seq::empty(),
                }
                &&& r.public_ipv4@ == crate::config::or_empty(node.public_ipv4)
                &&& r.public_ipv6@ == crate::config::or_empty(node.public_ipv6)
            },
            None => {
                &&& r.virtual_ip@.len() == 0
                &&& r.hostname@.len() == 0
                &&& r.peer_id == 0
                &&& r.version@.len() == 0
                &&& r.vpn_portal_cfg is None
                &&& r.listeners@.len() == 0
                &&& r.nat_type@.len() == 0
                &&& r.public_ipv4@.len() == 0
                &&& r.public_ipv6@.len() == 0
            },
        },
        crate::text::views(r.events@) == recent_events(info.events@),
        r.peers@.map_values(|p: PeerRow| p@) == sort_rows(rows_of(info.peer_route_pairs@)),
        r.rx_bytes == pairs_rx(info.peer_route_pairs@),
        r.tx_bytes == pairs_tx(info.peer_route_pairs@),
{
    let status = if info.running { Status::Connected } else { Status::Connecting };
    let error = match &info.error_msg {
        Some(e) => Some(copy_string(e)),
        None => None,
    };
    let mut net = bare_net(status, error);
    net.dev_name = copy_string(&info.dev_name);
    match &info.my_node_info {
        Some(node) => {
            net.virtual_ip = match &node.virtual_ipv4 {
                Some(a) => copy_string(a),
                None => String::new(),
            };
            net.hostname = copy_string(&node.hostname);
            net.peer_id = node.peer_id;
            net.version = copy_string(&node.version);
            net.vpn_portal_cfg = match &node.vpn_portal_cfg {
                Some(c) => Some(copy_string(c)),
                None => None,
            };
            net.listeners = crate::text::copy_strings(&node.listeners);
            net.nat_type = match node.nat_type {
                Some(n) => nat_debug_name(n),
                None => String::new(),
            };
            net.public_ipv4 = match &node.public_ipv4 {
                Some(a) => copy_string(a),
                None => String::new(),
            };
            net.public_ipv6 = match &node.public_ipv6 {
                Some(a) => copy_string(a),
                None => String::new(),
            };
        },
        None => {},
    }
    // Newest events first.
    let ev = &info.events;
    let n = if ev.len() < 200 { ev.len() } else { 200 };
    let mut events: Vec<String> = Vec::new();
    let mut k: usize = 0;
    while k < n
        invariant
            k <= n,
            n == (if ev@.len() < 200 { ev@.len() as int } else { 200 }),
            crate::text::views(events@) == recent_events(ev@).take(k as int),
        decreases n - k,
    {
        let ghost before = events@;
        events.push(pretty_event(ev[ev.len() - 1 - k].as_str()));
        proof {
            assert(crate::text::views(events@) =~= crate::text::views(before).push(pretty_event_text(ev@[ev@.len() - 1 - k]@)));
            assert(recent_events(ev@).take(k + 1) =~= recent_events(ev@).take(k as int).push(recent_events(ev@)[k as int]));
        }
        k = k + 1;
    }
    proof {
        assert(recent_events(ev@).take(n as int) =~= recent_events(ev@));
    }
    net.events = events;
    // One row per routed peer.
    let pairs = &info.peer_route_pairs;
    let mut rows: Vec<PeerRow> = Vec::new();
    let mut rx: u64 = 0;
    let mut tx: u64 = 0;
    let mut i: usize = 0;
    let empty: Vec<PeerConn> = Vec::new();
    while i < pairs.len()
        invariant
            i <= pairs@.len(),
            counters_fit(pairs@),
            empty@.len() == 0,
            rows@.map_values(|p: PeerRow| p@) == rows_of(pairs@.take(i as int)),
            rx == pairs_rx(pairs@.take(i as int)),
            tx == pairs_tx(pairs@.take(i as int)),
        decreases pairs@.len() - i,
    {
        let pair = &pairs[i];
        proof {
            assert(pairs@.take(i + 1).drop_last() =~= pairs@.take(i as int));
            assert(pairs@.take(i + 1).last() == pairs@[i as int]);
            lemma_pairs_prefix(pairs@, i + 1);
            assert(pairs@[i as int].route is Some ==> conns_latency(pair_conns(pairs@[i as int])) <= u64::MAX);
        }
        match &pair.route {
            Some(route) => {
                let conns = match &pair.peer {
                    Some(pi) => &pi.conns,
                    None => &empty,
                };
                proof {
                    assert(conns@ == pair_conns(*pair));
                }
                let ghost before = rows@;
                let row = peer_row(route, conns);
                rx = rx + row.rx;
                tx = tx + row.tx;
                rows.push(row);
                proof {
                    assert(rows@.map_values(|p: PeerRow| p@) =~= before.map_values(|p: PeerRow| p@).push(row_of(*route, conns@)));
                }
            },
            None => {},
        }
        i = i + 1;
    }
    proof {
        assert(pairs@.take(i as int) =~= pairs@);
    }
    net.rx_bytes = rx;
    net.tx_bytes = tx;
    net.peers = sort_peers(rows);
    net
}

/// Readies a network's configuration for starting: without administrator
/// rights no TUN adapter can be created, so the network runs proxy-only
/// (SOCKS5 / port forwarding) instead of failing.
pub fn prepare_start(cfg: &mut crate::config::NetworkConfig, elevated: bool)
    ensures
        elevated ==> *final(cfg) == *old(cfg),
        !elevated ==> *final(cfg) == (crate::config::NetworkConfig { no_tun: Some(true), ..*old(cfg) }),
{
    if !elevated {
        cfg.no_tun = Some(true);
    }
}

// ──────────────────────────────── worker ───────────────────────────────────

/// A request to the engine.
pub enum Command {
    /// Bring up (or restart) the network of a profile with its configuration.
    Start { id: String, cfg: crate::config::NetworkConfig },
    /// Tear down the network of a profile.
    Stop { id: String },
}

/// The configuration a network is started with: proxy-only without
/// administrator rights (see [`prepare_start`]).
pub open spec fn prepared(cfg: crate::config::NetworkConfig, elevated: bool) -> crate::config::NetworkConfig {
    if elevated {
        cfg
    } else {
        crate::config::NetworkConfig { no_tun: Some(true), ..cfg }
    }
}

/// What the engine knows besides the running instances themselves: the ids
/// whose instance runs, and the networks whose start failed, with the error.
pub struct Worker {
    pub live: Vec<String>,
    pub errors: Vec<(String, String)>,
}

/// What the engine must do with its instances after a command.
pub enum Action {
    /// Drop the instance of this id, if any.
    Drop { id: String },
    /// Drop the instance of this id, if any, then build and start one with
    /// this configuration and report the outcome to [`record_launch`].
    Launch { id: String, cfg: crate::config::NetworkConfig },
}

/// How starting an instance went.
pub enum LaunchOutcome {
    Started,
    /// EasyTier refused the configuration, with its message.
    InvalidConfig(String),
    /// The instance failed to start, with the rendered error.
    StartFailed(String),
}

/// Whether an id is not `k`.
pub open spec fn is_not(k: Seq<char>) -> spec_fn(Seq<char>) -> bool {
    |x: Seq<char>| x != k
}

/// Whether an entry's key is not `k`.
pub open spec fn key_is_not(k: Seq<char>) -> spec_fn((Seq<char>, String)) -> bool {
    |p: (Seq<char>, String)| p.0 != k
}

/// The ids other than `k`, in order.
pub open spec fn without_id(s: Seq<Seq<char>>, k: Seq<char>) -> Seq<Seq<char>> {
    s.filter(is_not(k))
}

/// The entries whose key is not `k`, in order.
pub open spec fn without_key(s: Seq<(Seq<char>, String)>, k: Seq<char>) -> Seq<(Seq<char>, String)> {
    s.filter(key_is_not(k))
}

/// Whether `new` is the worker state `old` with everything known of network
/// `id` forgotten.
pub open spec fn forgets(old: Worker, new: Worker, id: Seq<char>) -> bool {
    &&& crate::text::views(new.live@) == without_id(crate::text::views(old.live@), id)
    &&& keyed(new.errors@) == without_key(keyed(old.errors@), id)
}

proof fn lemma_filter_push_any<A>(s: Seq<A>, x: A, p: spec_fn(A) -> bool)
    ensures
        s.push(x).filter(p) == (if p(x) { s.filter(p).push(x) } else { s.filter(p) }),
{
    reveal(Seq::filter);
    assert(s.push(x).drop_last() =~= s);
}

/// The table of the entries without key `k` is the table without `k`.
pub proof fn lemma_without_key(s: Seq<(Seq<char>, String)>, k: Seq<char>)
    ensures
        last_map(without_key(s, k)) == last_map(s).remove(k),
    decreases s.len(),
{
    if s.len() == 0 {
        reveal(Seq::filter);
        assert(last_map(s).remove(k) =~= Map::<Seq<char>, String>::empty());
    } else {
        let t = s.drop_last();
        let l = s.last();
        lemma_without_key(t, k);
        lemma_filter_push_any(t, l, key_is_not(k));
        assert(s =~= t.push(l));
        assert(last_map(s) == last_map(t).insert(l.0, l.1));
        if l.0 != k {
            let w = without_key(t, k);
            assert(without_key(s, k) == w.push(l));
            assert(w.push(l).drop_last() =~= w);
            assert(last_map(w.push(l)) == last_map(w).insert(l.0, l.1));
            assert(last_map(without_key(s, k)) =~= last_map(s).remove(k));
        } else {
            assert(without_key(s, k) == without_key(t, k));
            assert(last_map(without_key(s, k)) =~= last_map(s).remove(k));
        }
    }
}

fn forget_id(v: &mut Vec<String>, k: &str)
    ensures
        crate::text::views(final(v)@) == without_id(crate::text::views(old(v)@), k@),
{
    let key = owned(k);
    let mut kept: Vec<String> = Vec::new();
    let mut i: usize = 0;
    while i < v.len()
        invariant
            i <= v@.len(),
            v@ == old(v)@,
            key@ == k@,
            crate::text::views(kept@) == without_id(crate::text::views(v@.take(i as int)), k@),
        decreases v@.len() - i,
    {
        let ghost before = kept@;
        proof {
            assert(crate::text::views(v@.take(i + 1)) =~= crate::text::views(v@.take(i as int)).push(v@[i as int]@));
            lemma_filter_push_any(crate::text::views(v@.take(i as int)), v@[i as int]@, is_not(k@));
        }
        if !(v[i] == key) {
            kept.push(copy_string(&v[i]));
            proof {
                assert(crate::text::views(kept@) =~= crate::text::views(before).push(v@[i as int]@));
            }
        }
        i = i + 1;
    }
    proof {
        assert(v@.take(i as int) =~= v@);
    }
    *v = kept;
}

fn forget_key(v: &mut Vec<(String, String)>, k: &str)
    ensures
        keyed(final(v)@) == without_key(keyed(old(v)@), k@),
{
    let key = owned(k);
    let mut rest: Vec<(String, String)> = Vec::new();
    std::mem::swap(&mut rest, v);
    let ghost orig = rest@;
    let n = rest.len();
    let mut kept: Vec<(String, String)> = Vec::new();
    let mut i: usize = 0;
    while rest.len() > 0
        invariant
            n == orig.len(),
            i + rest@.len() == orig.len(),
            rest@ == orig.subrange(i as int, orig.len() as int),
            key@ == k@,
            keyed(kept@) == without_key(keyed(orig.take(i as int)), k@),
        decreases rest@.len(),
    {
        let e = rest.remove(0);
        let ghost before = kept@;
        proof {
            assert(e == orig[i as int]);
            assert(keyed(orig.take(i + 1)) =~= keyed(orig.take(i as int)).push((e.0@, e.1)));
            lemma_filter_push_any(keyed(orig.take(i as int)), (e.0@, e.1), key_is_not(k@));
        }
        if !(e.0 == key) {
            kept.push(e);
            proof {
                assert(keyed(kept@) =~= keyed(before).push((e.0@, e.1)));
            }
        }
        i = i + 1;
        proof {
            assert(rest@ =~= orig.subrange(i as int, orig.len() as int));
        }
    }
    proof {
        assert(orig.take(i as int) =~= orig);
    }
    *v = kept;
}

impl Worker {
    /// No network running and no error recorded.
    pub fn new() -> (r: Worker)
        ensures
            r.live@.len() == 0,
            r.errors@.len() == 0,
    {
        Worker { live: Vec::new(), errors: Vec::new() }
    }
}

/// Handles a command. Either way everything known of the network is
/// forgotten first (its running instance is to be dropped and its recorded
/// error cleared); a start then launches it with its configuration, made
/// proxy-only without administrator rights.
pub fn step(w: &mut Worker, cmd: Command, elevated: bool) -> (a: Action)
    ensures
        match cmd {
            Command::Stop { id } => forgets(*old(w), *final(w), id@) && a == (Action::Drop { id }),
            Command::Start { id, cfg } => {
                &&& forgets(*old(w), *final(w), id@)
                &&& a == (Action::Launch { id, cfg: prepared(cfg, elevated) })
            },
        },
{
    match cmd {
        Command::Stop { id } => {
            forget_id(&mut w.live, id.as_str());
            forget_key(&mut w.errors, id.as_str());
            Action::Drop { id }
        },
        Command::Start { id, cfg } => {
            forget_id(&mut w.live, id.as_str());
            forget_key(&mut w.errors, id.as_str());
            let mut cfg = cfg;
            prepare_start(&mut cfg, elevated);
            Action::Launch { id, cfg }
        },
    }
}

/// Records how launching network `id` went: a started instance runs; a
/// refused configuration is recorded as `Invalid configuration: <message>`;
/// a failed start as its error.
pub fn record_launch(w: &mut Worker, id: String, outcome: LaunchOutcome)
    ensures
        match outcome {
            LaunchOutcome::Started => {
                &&& crate::text::views(final(w).live@) == crate::text::views(old(w).live@).push(id@)
                &&& final(w).errors@ == old(w).errors@
            },
            LaunchOutcome::InvalidConfig(e) => {
                &&& final(w).live@ == old(w).live@
                &&& final(w).errors@.drop_last() == old(w).errors@
                &&& final(w).errors@.len() == old(w).errors@.len() + 1
                &&& final(w).errors@.last().0@ == id@
                &&& final(w).errors@.last().1@ == "Invalid configuration: "@ + e@
            },
            LaunchOutcome::StartFailed(e) => {
                &&& final(w).live@ == old(w).live@
                &&& final(w).errors@ == old(w).errors@.push((id, e))
            },
        },
{
    match outcome {
        LaunchOutcome::Started => {
            let ghost l = id@;
            w.live.push(id);
            proof {
                assert(crate::text::views(w.live@) =~= crate::text::views(old(w).live@).push(l));
            }
        },
        LaunchOutcome::InvalidConfig(e) => {
            let mut m = owned("Invalid configuration: ");
            push_str(&mut m, e.as_str());
            w.errors.push((id, m));
            proof {
                assert(w.errors@.drop_last() =~= old(w).errors@);
            }
        },
        LaunchOutcome::StartFailed(e) => {
            w.errors.push((id, e));
        },
    }
}

// ─────────────────────────────── sort laws ─────────────────────────────────

/// Whether rows are in key order.
pub open spec fn rows_sorted(s: Seq<PeerRowView>) -> bool {
    forall|i: int, j: int| 0 <= i < j < s.len() ==> key_le(row_key(#[trigger] s[i]), row_key(#[trigger] s[j]))
}

proof fn lemma_key_le_total(a: Seq<char>, b: Seq<char>)
    ensures
        key_le(a, b) || key_le(b, a),
    decreases a.len(),
{
    if a.len() > 0 && b.len() > 0 && a[0] == b[0] {
        lemma_key_le_total(a.drop_first(), b.drop_first());
    } else if a.len() > 0 && b.len() > 0 {
        vstd::utf8::char_u32_cast(a[0], a[0] as u32);
        vstd::utf8::char_u32_cast(b[0], b[0] as u32);
    }
}

proof fn lemma_key_le_trans(a: Seq<char>, b: Seq<char>, c: Seq<char>)
    requires
        key_le(a, b),
        key_le(b, c),
    ensures
        key_le(a, c),
    decreases a.len(),
{
    if a.len() > 0 && b.len() > 0 && c.len() > 0 {
        if a[0] == b[0] && b[0] == c[0] {
            lemma_key_le_trans(a.drop_first(), b.drop_first(), c.drop_first());
        } else {
            assert(a[0] as u32 <= b[0] as u32);
            assert(b[0] as u32 <= c[0] as u32);
            vstd::utf8::char_u32_cast(a[0], a[0] as u32);
            vstd::utf8::char_u32_cast(b[0], b[0] as u32);
            vstd::utf8::char_u32_cast(c[0], c[0] as u32);
        }
    }
}

proof fn lemma_insert_elements(t: Seq<PeerRowView>, x: PeerRowView)
    ensures
        insert_by_key(t, x).len() == t.len() + 1,
        forall|i: int| 0 <= i < insert_by_key(t, x).len() ==> #[trigger] insert_by_key(t, x)[i] == x || t.contains(insert_by_key(t, x)[i]),
        insert_by_key(t, x).to_multiset() == t.to_multiset().insert(x),
    decreases t.len(),
{
    broadcast use vstd::seq_lib::group_to_multiset_ensures;

    if t.len() == 0 || key_le(row_key(t.last()), row_key(x)) {
        assert forall|i: int| 0 <= i < insert_by_key(t, x).len() implies #[trigger] insert_by_key(t, x)[i] == x || t.contains(insert_by_key(t, x)[i]) by {
            if i < t.len() {
                assert(insert_by_key(t, x)[i] == t[i]);
            }
        }
    } else {
        let u = t.drop_last();
        lemma_insert_elements(u, x);
        let r = insert_by_key(u, x);
        assert forall|i: int| 0 <= i < insert_by_key(t, x).len() implies #[trigger] insert_by_key(t, x)[i] == x || t.contains(insert_by_key(t, x)[i]) by {
            if i < r.len() {
                assert(insert_by_key(t, x)[i] == r[i]);
                if r[i] != x {
                    assert(u.contains(r[i]));
                    let k = choose|k: int| 0 <= k < u.len() && u[k] == r[i];
                    assert(t[k] == u[k]);
                }
            } else {
                assert(insert_by_key(t, x)[i] == t.last());
                assert(t[t.len() - 1] == t.last());
            }
        }
        assert(t =~= u.push(t.last()));
    }
}

proof fn lemma_insert_sorted(t: Seq<PeerRowView>, x: PeerRowView)
    requires
        rows_sorted(t),
    ensures
        rows_sorted(insert_by_key(t, x)),
    decreases t.len(),
{
    if t.len() == 0 || key_le(row_key(t.last()), row_key(x)) {
        let r = t.push(x);
        assert forall|i: int, j: int| 0 <= i < j < r.len() implies key_le(row_key(#[trigger] r[i]), row_key(#[trigger] r[j])) by {
            if j == t.len() {
                if i < t.len() - 1 {
                    lemma_key_le_trans(row_key(t[i]), row_key(t.last()), row_key(x));
                }
            }
        }
    } else {
        let u = t.drop_last();
        assert(rows_sorted(u));
        lemma_insert_sorted(u, x);
        lemma_insert_elements(u, x);
        lemma_key_le_total(row_key(t.last()), row_key(x));
        let q = insert_by_key(u, x);
        let r = q.push(t.last());
        assert forall|i: int, j: int| 0 <= i < j < r.len() implies key_le(row_key(#[trigger] r[i]), row_key(#[trigger] r[j])) by {
            if j == q.len() {
                assert(r[i] == q[i]);
                if q[i] != x {
                    let k = choose|k: int| 0 <= k < u.len() && u[k] == q[i];
                    assert(t[k] == u[k]);
                    assert(r[j] == t[t.len() - 1]);
                }
            }
        }
    }
}

/// The peer table comes out in key order and holds exactly the input rows:
/// sorting neither adds, drops nor changes a row.
pub proof fn lemma_sort_rows(s: Seq<PeerRowView>)
    ensures
        rows_sorted(sort_rows(s)),
        sort_rows(s).to_multiset() == s.to_multiset(),
    decreases s.len(),
{
    broadcast use vstd::seq_lib::group_to_multiset_ensures;

    if s.len() > 0 {
        lemma_sort_rows(s.drop_last());
        lemma_insert_sorted(sort_rows(s.drop_last()), s.last());
        lemma_insert_elements(sort_rows(s.drop_last()), s.last());
        assert(s =~= s.drop_last().push(s.last()));
    } else {
        assert(sort_rows(s) =~= s);
    }
}

/// Whether a row has sort key `k`.
pub open spec fn has_key(k: Seq<char>) -> spec_fn(PeerRowView) -> bool {
    |r: PeerRowView| row_key(r) == k
}

proof fn lemma_filter_push(s: Seq<PeerRowView>, x: PeerRowView, p: spec_fn(PeerRowView) -> bool)
    ensures
        s.push(x).filter(p) == (if p(x) { s.filter(p).push(x) } else { s.filter(p) }),
{
    reveal(Seq::filter);
    assert(s.push(x).drop_last() =~= s);
}

proof fn lemma_insert_filter(t: Seq<PeerRowView>, x: PeerRowView, k: Seq<char>)
    ensures
        insert_by_key(t, x).filter(has_key(k)) == (if row_key(x) == k {
            t.filter(has_key(k)).push(x)
        } else {
            t.filter(has_key(k))
        }),
    decreases t.len(),
{
    if t.len() == 0 || key_le(row_key(t.last()), row_key(x)) {
        lemma_filter_push(t, x, has_key(k));
    } else {
        let u = t.drop_last();
        lemma_insert_filter(u, x, k);
        lemma_key_le_total(row_key(x), row_key(x));
        assert(row_key(t.last()) != row_key(x));
        lemma_filter_push(insert_by_key(u, x), t.last(), has_key(k));
        lemma_filter_push(u, t.last(), has_key(k));
        assert(t =~= u.push(t.last()));
        if row_key(x) == k {
            lemma_filter_push(u.filter(has_key(k)), x, has_key(k));
        }
    }
}

/// The peer sort is stable: the rows that share a sort key come out in the
/// order they went in.
pub proof fn lemma_sort_rows_stable(s: Seq<PeerRowView>, k: Seq<char>)
    ensures
        sort_rows(s).filter(has_key(k)) == s.filter(has_key(k)),
    decreases s.len(),
{
    if s.len() > 0 {
        lemma_sort_rows_stable(s.drop_last(), k);
        lemma_insert_filter(sort_rows(s.drop_last()), s.last(), k);
        lemma_filter_push(s.drop_last(), s.last(), has_key(k));
        assert(s =~= s.drop_last().push(s.last()));
    }
}

/// A snapshot gives back for a profile id the state last recorded for it,
/// and recording one network leaves every other as it was.
pub proof fn lemma_snapshot_read_back(
    before: Map<Seq<char>, NetSnapshot>,
    after: Map<Seq<char>, NetSnapshot>,
    id: Seq<char>,
    net: NetSnapshot,
    other: Seq<char>,
)
    requires
        after == before.insert(id, net),
        other != id,
    ensures
        after.contains_key(id),
        after[id] == net,
        after.contains_key(other) == before.contains_key(other),
        before.contains_key(other) ==> after[other] == before[other],
{
}

/// A peer's route column reads `Direct` exactly when the route costs at
/// most 1 (the peer is reached directly); a route through relays reads
/// `Relay ×<cost>`.
pub proof fn lemma_row_cost(r: Route, c: Seq<PeerConn>)
    ensures
        (row_of(r, c).cost == "Direct"@) <==> r.cost <= 1,
        r.cost >= 2 ==> row_of(r, c).cost == "Relay ×"@ + decimal(r.cost as nat),
{
    reveal_strlit("Direct");
    reveal_strlit("Relay ×");
    if r.cost > 1 {
        assert(("Relay ×"@ + decimal(r.cost as nat))[0] == 'R');
        assert("Direct"@[0] == 'D');
    }
}

proof fn lemma_rows_of_member(pairs: Seq<PeerRoutePair>, x: PeerRowView)
    requires
        rows_of(pairs).contains(x),
    ensures
        exists|j: int| 0 <= j < pairs.len() && (#[trigger] pairs[j]).route is Some
            && x == row_of(pairs[j].route->Some_0, pair_conns(pairs[j])),
    decreases pairs.len(),
{
    let rest = rows_of(pairs.drop_last());
    let last = pairs.last();
    if rest.contains(x) {
        lemma_rows_of_member(pairs.drop_last(), x);
        let j = choose|j: int| 0 <= j < pairs.drop_last().len() && (#[trigger] pairs.drop_last()[j]).route is Some
            && x == row_of(pairs.drop_last()[j].route->Some_0, pair_conns(pairs.drop_last()[j]));
        assert(pairs[j] == pairs.drop_last()[j]);
    } else {
        let k = choose|k: int| 0 <= k < rows_of(pairs).len() && rows_of(pairs)[k] == x;
        match last.route {
            Some(r) => {
                assert(rows_of(pairs) == rest.push(row_of(r, pair_conns(last))));
                if k < rest.len() {
                    assert(rest[k] == x);
                }
                assert(pairs[pairs.len() - 1] == last);
            },
            None => {
                assert(rows_of(pairs) == rest);
            },
        }
    }
}

/// Every row of a snapshot's peers table belongs to a routed peer, and its
/// route column reads `Direct` exactly when that peer's route costs at most 1,
/// else `Relay ×<cost>`.
pub proof fn lemma_table_costs(pairs: Seq<PeerRoutePair>, k: int)
    requires
        0 <= k < sort_rows(rows_of(pairs)).len(),
    ensures
        exists|j: int| #![trigger pairs[j]] 0 <= j < pairs.len() && pairs[j].route is Some && {
            let r = pairs[j].route->Some_0;
            &&& sort_rows(rows_of(pairs))[k] == row_of(r, pair_conns(pairs[j]))
            &&& (sort_rows(rows_of(pairs))[k].cost == "Direct"@ <==> r.cost <= 1)
            &&& (r.cost >= 2 ==> sort_rows(rows_of(pairs))[k].cost == "Relay ×"@ + decimal(r.cost as nat))
        },
{
    broadcast use vstd::seq_lib::group_to_multiset_ensures;

    let x = sort_rows(rows_of(pairs))[k];
    lemma_sort_rows(rows_of(pairs));
    assert(sort_rows(rows_of(pairs)).contains(x));
    assert(sort_rows(rows_of(pairs)).to_multiset().count(x) > 0);
    assert(rows_of(pairs).to_multiset().count(x) > 0);
    assert(rows_of(pairs).contains(x));
    lemma_rows_of_member(pairs, x);
    let j = choose|j: int| 0 <= j < pairs.len() && (#[trigger] pairs[j]).route is Some
        && x == row_of(pairs[j].route->Some_0, pair_conns(pairs[j]));
    lemma_row_cost(pairs[j].route->Some_0, pair_conns(pairs[j]));
}

/// The other columns of a peer's row: its hostname, or `peer-<id>` when it
/// has none; its version or an em dash; its NAT type's label or `Unknown`;
/// the first tunnel a connection names, upper-cased, or an em dash; no
/// latency when no connection reports counters; and the traffic summed over
/// its connections.
pub proof fn lemma_row_fields(r: Route, c: Seq<PeerConn>)
    ensures
        r.hostname@.len() > 0 ==> row_of(r, c).hostname == r.hostname@,
        r.hostname@.len() == 0 ==> row_of(r, c).hostname == "peer-"@ + decimal(r.peer_id as nat),
        r.version@.len() > 0 ==> row_of(r, c).version == r.version@,
        r.version@.len() == 0 ==> row_of(r, c).version == "—"@,
        r.nat_type is None ==> row_of(r, c).nat == "Unknown"@,
        r.nat_type matches Some(n) ==> row_of(r, c).nat == nat_label(n),
        first_tunnel(c).len() == 0 ==> row_of(r, c).tunnel == "—"@,
        first_tunnel(c).len() > 0 ==> row_of(r, c).tunnel == first_tunnel(c),
        row_of(r, c).latency_us is None <==> conns_counted(c) == 0,
        row_of(r, c).ipv4 == crate::config::or_empty(r.ipv4_addr),
{
}

/// Byte sizes are shown in whole bytes below 1 KiB; from there on, for every
/// size a double holds exactly, in the largest of KB, MB, GB and TB (powers
/// of 1024) that the size reaches, with one decimal rounded half to even.
pub proof fn lemma_human_bytes_units(n: nat)
    requires
        n < 0x20_0000_0000_0000,
    ensures
        n < 1024 ==> human_bytes_text(n) == decimal(n) + " B"@,
        1024 <= n < 0x10_0000 ==> human_bytes_text(n) == {
            let t = div_round_even(n * 10, 1024);
            decimal(t / 10) + "."@ + decimal(t % 10) + " KB"@
        },
        0x10_0000 <= n < 0x4000_0000 ==> human_bytes_text(n) == {
            let t = div_round_even(n * 10, 0x10_0000);
            decimal(t / 10) + "."@ + decimal(t % 10) + " MB"@
        },
        0x4000_0000 <= n < 0x100_0000_0000 ==> human_bytes_text(n) == {
            let t = div_round_even(n * 10, 0x4000_0000);
            decimal(t / 10) + "."@ + decimal(t % 10) + " GB"@
        },
        0x100_0000_0000 <= n ==> human_bytes_text(n) == {
            let t = div_round_even(n * 10, 0x100_0000_0000);
            decimal(t / 10) + "."@ + decimal(t % 10) + " TB"@
        },
{
    assert(n / 1 == n && n % 1 == 0) by (nonlinear_arith);
    assert(f64_scale(n, 1) == 1);
    assert(div_round_even(n, 1) == n);
    assert(as_f64(n) == n);
    reveal_strlit(" ");
    reveal_strlit(" KB");
    reveal_strlit(" MB");
    reveal_strlit(" GB");
    reveal_strlit(" TB");
    reveal_strlit("KB");
    reveal_strlit("MB");
    reveal_strlit("GB");
    reveal_strlit("TB");
    let t = div_round_even(as_f64(n) * 10, unit_divisor(unit_index(as_f64(n))));
    assert(" "@ + unit_name(unit_index(as_f64(n))) =~= (if n >= 0x100_0000_0000 {
        " TB"@
    } else if n >= 0x4000_0000 {
        " GB"@
    } else if n >= 0x10_0000 {
        " MB"@
    } else {
        " KB"@
    }));
    assert(decimal(t / 10) + "."@ + decimal(t % 10) + " "@ + unit_name(unit_index(as_f64(n))) =~= decimal(t / 10) + "."@ + decimal(t % 10) + (" "@ + unit_name(unit_index(as_f64(n)))));
}

} // verus!
