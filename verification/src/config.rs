//! App-side configuration: connection profiles and UI preferences, and the
//! conversion between a profile and EasyTier's `NetworkConfig` (modelled here
//! by [`NetworkConfig`], which holds every field the conversion reads or
//! writes).
//!
//! A profile is a superset of every `NetworkConfig` knob that the GUI exposes.
//! Each field has a default, so importing a short config (just `network_name`
//! and `network_secret`) still produces a working profile.
use vstd::prelude::*;

use crate::i18n::{ts, Translator};
use crate::text::{
    blank, copy_string, copy_strings, decimal, hex, is_blank, owned, push_char, push_decimal,
    push_hex, push_str, radix, trim, trim_seq, views,
};

verus! {

// ─────────────────────────────── profile ids ──────────────────────────────

/// The source of profile ids: a per-process counter, combined with the clock.
pub struct IdGen {
    pub counter: u64,
}

/// The id made from clock reading `t` (nanoseconds since the Unix epoch) and
/// counter value `n`: both in lower-case hex, joined by `-`.
pub open spec fn id_text(t: nat, n: nat) -> Seq<char> {
    hex(t) + seq!['-'] + hex(n)
}

/// The clock in nanoseconds since the Unix epoch (`SystemTime::now`, taken
/// `duration_since(UNIX_EPOCH)`), `None` for a clock set before it. It reads
/// the clock, so nothing is claimed of it.
#[verifier::external_body]
fn clock_nanos() -> Option<u128> {
    std::time::SystemTime::now().duration_since(std::time::UNIX_EPOCH).ok().map(|d| d.as_nanos())
}

impl IdGen {
    /// A generator whose first id uses counter value 0.
    pub fn new() -> (r: IdGen)
        ensures
            r.counter == 0,
    {
        IdGen { counter: 0 }
    }
}

/// A process-unique id used to key a profile's running network.
pub fn gen_id(ids: &mut IdGen) -> (r: String)
    ensures
        exists|t: u128| r@ == id_text(t as nat, old(ids).counter as nat),
        final(ids).counter == old(ids).counter.wrapping_add(1),
{
    let n = ids.counter;
    ids.counter = n.wrapping_add(1);
    make_id(clock_nanos(), n)
}

/// The id made from a clock reading (nanoseconds since the Unix epoch; none
/// for a clock set before it, which counts as 0) and a counter value.
pub fn make_id(clock: Option<u128>, counter: u64) -> (r: String)
    ensures
        r@ == id_text(
            match clock {
                Some(t) => t as nat,
                None => 0,
            },
            counter as nat,
        ),
{
    let t = match clock {
        Some(t) => t,
        None => 0,
    };
    let mut s = String::new();
    push_hex(&mut s, t);
    push_char(&mut s, '-');
    push_hex(&mut s, counter as u128);
    proof {
        assert(s@ =~= id_text(t as nat, counter as nat));
    }
    s
}

proof fn lemma_radix_len(n: nat, b: nat)
    requires
        2 <= b,
    ensures
        radix(n, b).len() >= 1,
        n >= b ==> radix(n, b).len() >= 2,
    decreases n,
{
    if n >= b {
        assert(n / b < n) by (nonlinear_arith)
            requires
                b >= 2,
                n >= b,
        ;
        lemma_radix_len(n / b, b);
    }
}

proof fn lemma_hex_no_dash(n: nat)
    ensures
        forall|i: int| 0 <= i < hex(n).len() ==> hex(n)[i] != '-',
    decreases n,
{
    if n >= 16 {
        lemma_hex_no_dash(n / 16);
        let p = hex(n / 16);
        assert(hex(n) == p.push(crate::text::digit_char((n % 16) as int)));
        assert forall|i: int| 0 <= i < hex(n).len() implies hex(n)[i] != '-' by {
            if i < p.len() {
                assert(hex(n)[i] == p[i]);
            }
        }
    }
}

proof fn lemma_hex_injective(n: nat, m: nat)
    requires
        hex(n) == hex(m),
    ensures
        n == m,
    decreases n,
{
    lemma_radix_len(n, 16);
    lemma_radix_len(m, 16);
    if n < 16 && m < 16 {
        let dn = crate::text::digit_char(n as int);
        let dm = crate::text::digit_char(m as int);
        assert(hex(n) == seq![dn]);
        assert(hex(m) == seq![dm]);
        assert(seq![dn][0] == dn);
        assert(seq![dm][0] == dm);
        assert(dn == dm);
        lemma_digit_injective(n as int, m as int);
    } else if n >= 16 && m >= 16 {
        let pn = hex(n / 16);
        let pm = hex(m / 16);
        assert(hex(n) == pn.push(crate::text::digit_char((n % 16) as int)));
        assert(hex(m) == pm.push(crate::text::digit_char((m % 16) as int)));
        assert(pn =~= hex(n).drop_last());
        assert(pm =~= hex(m).drop_last());
        assert(hex(n).last() == hex(m).last());
        assert(hex(n).last() == crate::text::digit_char((n % 16) as int));
        assert(hex(m).last() == crate::text::digit_char((m % 16) as int));
        lemma_digit_injective((n % 16) as int, (m % 16) as int);
        lemma_hex_injective(n / 16, m / 16);
        assert(n == 16 * (n / 16) + n % 16);
        assert(m == 16 * (m / 16) + m % 16);
    }
}

proof fn lemma_digit_injective(a: int, b: int)
    requires
        0 <= a < 16,
        0 <= b < 16,
        crate::text::digit_char(a) == crate::text::digit_char(b),
    ensures
        a == b,
{
}

/// Ids made with different counter values differ, whatever the clock read:
/// the counter part follows the only `-` in the id.
pub proof fn lemma_ids_distinct(t1: nat, n1: nat, t2: nat, n2: nat)
    requires
        n1 != n2,
    ensures
        id_text(t1, n1) != id_text(t2, n2),
{
    if id_text(t1, n1) == id_text(t2, n2) {
        let a = id_text(t1, n1);
        lemma_hex_no_dash(t1);
        lemma_hex_no_dash(t2);
        lemma_hex_no_dash(n1);
        lemma_hex_no_dash(n2);
        let l1 = hex(t1).len() as int;
        let l2 = hex(t2).len() as int;
        assert(a[l1] == '-');
        assert(a[l2] == '-');
        if l1 < l2 {
            assert(a[l1] == hex(t2)[l1]);
        } else if l2 < l1 {
            assert(a[l2] == hex(t1)[l2]);
        }
        assert(l1 == l2);
        assert(hex(n1) =~= a.subrange(l1 + 1, a.len() as int));
        assert(hex(n2) =~= a.subrange(l2 + 1, a.len() as int));
        lemma_hex_injective(n1, n2);
    }
}

// ─────────────────────────────── enumerations ─────────────────────────────

/// How this node joins the virtual network.
#[derive(Clone, Copy, PartialEq, Eq, Debug, Structural)]
pub enum JoinMethod {
    /// Connect through a shared/public relay server.
    PublicServer,
    /// Connect to explicit peer URLs.
    Manual,
    /// Run a standalone node (others connect to us).
    Standalone,
}

/// The join method at picker position `i` (negative counts as 0, past the
/// end gives `PublicServer`).
pub open spec fn join_method_at(i: int) -> JoinMethod {
    if i == 1 {
        JoinMethod::Manual
    } else if i == 2 {
        JoinMethod::Standalone
    } else {
        JoinMethod::PublicServer
    }
}

/// Picker position of a join method; also EasyTier's `NetworkingMethod` code.
pub open spec fn join_method_index(m: JoinMethod) -> int {
    match m {
        JoinMethod::PublicServer => 0,
        JoinMethod::Manual => 1,
        JoinMethod::Standalone => 2,
    }
}

impl JoinMethod {
    /// The translated label.
    pub fn label<'a>(self, tr: &'a Translator) -> (r: &'a str)
        ensures
            r@ == tr.translate(
                match self {
                    JoinMethod::PublicServer => "join_method.public"@,
                    JoinMethod::Manual => "join_method.manual"@,
                    JoinMethod::Standalone => "join_method.standalone"@,
                },
            ),
    {
        ts(
            tr,
            match self {
                JoinMethod::PublicServer => "join_method.public",
                JoinMethod::Manual => "join_method.manual",
                JoinMethod::Standalone => "join_method.standalone",
            },
        )
    }

    /// Picker position.
    pub fn index(self) -> (r: i32)
        ensures
            r == join_method_index(self),
    {
        match self {
            JoinMethod::PublicServer => 0,
            JoinMethod::Manual => 1,
            JoinMethod::Standalone => 2,
        }
    }

    /// The join method at picker position `i`.
    pub fn from_index(i: i32) -> (r: JoinMethod)
        ensures
            r == join_method_at(i as int),
    {
        if i == 1 {
            JoinMethod::Manual
        } else if i == 2 {
            JoinMethod::Standalone
        } else {
            JoinMethod::PublicServer
        }
    }
}

/// Application appearance theme.
#[derive(Clone, Copy, PartialEq, Eq, Debug, Structural)]
pub enum Theme {
    System,
    Light,
    Dark,
}

/// The theme at picker position `i`.
pub open spec fn theme_at(i: int) -> Theme {
    if i == 1 {
        Theme::Light
    } else if i == 2 {
        Theme::Dark
    } else {
        Theme::System
    }
}

/// Picker position of a theme.
pub open spec fn theme_index(t: Theme) -> int {
    match t {
        Theme::System => 0,
        Theme::Light => 1,
        Theme::Dark => 2,
    }
}

impl Theme {
    /// The translated label.
    pub fn label<'a>(self, tr: &'a Translator) -> (r: &'a str)
        ensures
            r@ == tr.translate(
                match self {
                    Theme::System => "theme.system"@,
                    Theme::Light => "theme.light"@,
                    Theme::Dark => "theme.dark"@,
                },
            ),
    {
        ts(
            tr,
            match self {
                Theme::System => "theme.system",
                Theme::Light => "theme.light",
                Theme::Dark => "theme.dark",
            },
        )
    }

    /// Picker position.
    pub fn index(self) -> (r: i32)
        ensures
            r == theme_index(self),
    {
        match self {
            Theme::System => 0,
            Theme::Light => 1,
            Theme::Dark => 2,
        }
    }

    /// The theme at picker position `i`.
    pub fn from_index(i: i32) -> (r: Theme)
        ensures
            r == theme_at(i as int),
    {
        if i == 1 {
            Theme::Light
        } else if i == 2 {
            Theme::Dark
        } else {
            Theme::System
        }
    }
}

/// Window backdrop material.
#[derive(Clone, Copy, PartialEq, Eq, Debug, Structural)]
pub enum Material {
    Mica,
    MicaAlt,
    Acrylic,
    Solid,
}

/// The material at picker position `i`.
pub open spec fn material_at(i: int) -> Material {
    if i == 1 {
        Material::MicaAlt
    } else if i == 2 {
        Material::Acrylic
    } else if i == 3 {
        Material::Solid
    } else {
        Material::Mica
    }
}

/// Picker position of a material.
pub open spec fn material_index(m: Material) -> int {
    match m {
        Material::Mica => 0,
        Material::MicaAlt => 1,
        Material::Acrylic => 2,
        Material::Solid => 3,
    }
}

impl Material {
    /// The translated label.
    pub fn label<'a>(self, tr: &'a Translator) -> (r: &'a str)
        ensures
            r@ == tr.translate(
                match self {
                    Material::Mica => "material.mica"@,
                    Material::MicaAlt => "material.mica_alt"@,
                    Material::Acrylic => "material.acrylic"@,
                    Material::Solid => "material.solid"@,
                },
            ),
    {
        ts(
            tr,
            match self {
                Material::Mica => "material.mica",
                Material::MicaAlt => "material.mica_alt",
                Material::Acrylic => "material.acrylic",
                Material::Solid => "material.solid",
            },
        )
    }

    /// Picker position.
    pub fn index(self) -> (r: i32)
        ensures
            r == material_index(self),
    {
        match self {
            Material::Mica => 0,
            Material::MicaAlt => 1,
            Material::Acrylic => 2,
            Material::Solid => 3,
        }
    }

    /// The material at picker position `i`.
    pub fn from_index(i: i32) -> (r: Material)
        ensures
            r == material_at(i as int),
    {
        if i == 1 {
            Material::MicaAlt
        } else if i == 2 {
            Material::Acrylic
        } else if i == 3 {
            Material::Solid
        } else {
            Material::Mica
        }
    }
}

/// Diagnostics verbosity for the in-app log panel and on-disk log files.
#[derive(Clone, Copy, PartialEq, Eq, Debug, Structural)]
pub enum LogLevel {
    Off,
    Error,
    Warn,
    Info,
    Debug,
    Trace,
}

/// The level at picker position `i`: negative positions count as 0 (`Off`),
/// positions past the end give `Info`.
pub open spec fn log_level_at(i: int) -> LogLevel {
    if i <= 0 {
        LogLevel::Off
    } else if i == 1 {
        LogLevel::Error
    } else if i == 2 {
        LogLevel::Warn
    } else if i == 3 {
        LogLevel::Info
    } else if i == 4 {
        LogLevel::Debug
    } else if i == 5 {
        LogLevel::Trace
    } else {
        LogLevel::Info
    }
}

/// Picker position of a level.
pub open spec fn log_level_index(l: LogLevel) -> int {
    match l {
        LogLevel::Off => 0,
        LogLevel::Error => 1,
        LogLevel::Warn => 2,
        LogLevel::Info => 3,
        LogLevel::Debug => 4,
        LogLevel::Trace => 5,
    }
}

/// The `tracing` filter directive token of a level.
pub open spec fn log_filter(l: LogLevel) -> Seq<char> {
    match l {
        LogLevel::Off => "off"@,
        LogLevel::Error => "error"@,
        LogLevel::Warn => "warn"@,
        LogLevel::Info => "info"@,
        LogLevel::Debug => "debug"@,
        LogLevel::Trace => "trace"@,
    }
}

impl LogLevel {
    /// The translated label.
    pub fn label<'a>(self, tr: &'a Translator) -> (r: &'a str)
        ensures
            r@ == tr.translate(
                match self {
                    LogLevel::Off => "log_level.off"@,
                    LogLevel::Error => "log_level.error"@,
                    LogLevel::Warn => "log_level.warn"@,
                    LogLevel::Info => "log_level.info"@,
                    LogLevel::Debug => "log_level.debug"@,
                    LogLevel::Trace => "log_level.trace"@,
                },
            ),
    {
        ts(
            tr,
            match self {
                LogLevel::Off => "log_level.off",
                LogLevel::Error => "log_level.error",
                LogLevel::Warn => "log_level.warn",
                LogLevel::Info => "log_level.info",
                LogLevel::Debug => "log_level.debug",
                LogLevel::Trace => "log_level.trace",
            },
        )
    }

    /// `tracing` filter directive token.
    pub fn as_filter(self) -> (r: &'static str)
        ensures
            r@ == log_filter(self),
    {
        match self {
            LogLevel::Off => "off",
            LogLevel::Error => "error",
            LogLevel::Warn => "warn",
            LogLevel::Info => "info",
            LogLevel::Debug => "debug",
            LogLevel::Trace => "trace",
        }
    }

    /// Picker position.
    pub fn index(self) -> (r: i32)
        ensures
            r == log_level_index(self),
    {
        match self {
            LogLevel::Off => 0,
            LogLevel::Error => 1,
            LogLevel::Warn => 2,
            LogLevel::Info => 3,
            LogLevel::Debug => 4,
            LogLevel::Trace => 5,
        }
    }

    /// The level at picker position `i`.
    pub fn from_index(i: i32) -> (r: LogLevel)
        ensures
            r == log_level_at(i as int),
    {
        if i <= 0 {
            LogLevel::Off
        } else if i == 1 {
            LogLevel::Error
        } else if i == 2 {
            LogLevel::Warn
        } else if i == 3 {
            LogLevel::Info
        } else if i == 4 {
            LogLevel::Debug
        } else if i == 5 {
            LogLevel::Trace
        } else {
            LogLevel::Info
        }
    }
}

/// Every picker maps a value's position back to the value.
pub proof fn lemma_index_roundtrip(m: JoinMethod, t: Theme, mat: Material, l: LogLevel)
    ensures
        join_method_at(join_method_index(m)) == m,
        theme_at(theme_index(t)) == t,
        material_at(material_index(mat)) == mat,
        log_level_at(log_level_index(l)) == l,
{
}

// ────────────────────────────── port forwarding ───────────────────────────

/// One port-forwarding rule of a profile.
#[derive(Clone, PartialEq, Eq, Debug)]
pub struct PortForward {
    /// `tcp` or `udp`.
    pub proto: String,
    pub bind_ip: String,
    pub bind_port: u16,
    pub dst_ip: String,
    pub dst_port: u16,
}

/// EasyTier's port-forward record (`PortForwardConfig`).
#[derive(Clone, PartialEq, Eq, Debug, Default)]
pub struct PortForwardConfig {
    pub proto: String,
    pub bind_ip: String,
    pub bind_port: u32,
    pub dst_ip: String,
    pub dst_port: u32,
}

impl Default for PortForward {
    fn default() -> (r: PortForward)
        ensures
            r.proto@ == "tcp"@,
            r.bind_ip@ == "0.0.0.0"@,
            r.bind_port == 0,
            r.dst_ip@.len() == 0,
            r.dst_port == 0,
    {
        PortForward {
            proto: owned("tcp"),
            bind_ip: owned("0.0.0.0"),
            bind_port: 0,
            dst_ip: String::new(),
            dst_port: 0,
        }
    }
}

/// Whether an exported rule carries the same fields as a profile's rule.
pub open spec fn forward_exported(pb: PortForwardConfig, f: PortForward) -> bool {
    &&& pb.proto@ == f.proto@
    &&& pb.bind_ip@ == f.bind_ip@
    &&& pb.bind_port == f.bind_port as u32
    &&& pb.dst_ip@ == f.dst_ip@
    &&& pb.dst_port == f.dst_port as u32
}

/// Whether an imported rule is what a profile makes of EasyTier's rule: an
/// empty protocol becomes `tcp`, ports are cut to 16 bits.
pub open spec fn forward_imported(f: PortForward, pb: PortForwardConfig) -> bool {
    &&& f.proto@ == (if pb.proto@.len() == 0 { "tcp"@ } else { pb.proto@ })
    &&& f.bind_ip@ == pb.bind_ip@
    &&& f.bind_port == pb.bind_port as u16
    &&& f.dst_ip@ == pb.dst_ip@
    &&& f.dst_port == pb.dst_port as u16
}

/// Whether a rule is complete enough to hand to EasyTier: both ports set and
/// a non-blank destination.
pub open spec fn forward_kept(f: PortForward) -> bool {
    f.bind_port != 0 && f.dst_port != 0 && !is_blank(f.dst_ip@)
}

/// The rules that are complete enough to export, in order.
pub open spec fn kept_forwards(s: Seq<PortForward>) -> Seq<PortForward>
    decreases s.len(),
{
    if s.len() == 0 {
        Seq::empty()
    } else if forward_kept(s.last()) {
        kept_forwards(s.drop_last()).push(s.last())
    } else {
        kept_forwards(s.drop_last())
    }
}

impl PortForward {
    /// EasyTier's record for this rule.
    fn to_proto(&self) -> (r: PortForwardConfig)
        ensures
            forward_exported(r, *self),
    {
        PortForwardConfig {
            proto: copy_string(&self.proto),
            bind_ip: copy_string(&self.bind_ip),
            bind_port: self.bind_port as u32,
            dst_ip: copy_string(&self.dst_ip),
            dst_port: self.dst_port as u32,
        }
    }

    /// The rule for EasyTier's record.
    fn from_proto(pb: &PortForwardConfig) -> (r: PortForward)
        ensures
            forward_imported(r, *pb),
    {
        PortForward {
            proto: if pb.proto.as_str().is_empty() {
                owned("tcp")
            } else {
                copy_string(&pb.proto)
            },
            bind_ip: copy_string(&pb.bind_ip),
            bind_port: pb.bind_port as u16,
            dst_ip: copy_string(&pb.dst_ip),
            dst_port: pb.dst_port as u16,
        }
    }
}

// ─────────────────────────────── NetworkConfig ────────────────────────────

/// EasyTier's launcher configuration, with every field that a profile
/// converts to or from. `None` or an empty list leaves a setting to
/// EasyTier's own default.
#[derive(Clone, PartialEq, Eq, Debug, Default)]
pub struct NetworkConfig {
    pub network_name: Option<String>,
    pub network_secret: Option<String>,
    pub hostname: Option<String>,
    pub dev_name: Option<String>,
    pub dhcp: Option<bool>,
    pub virtual_ipv4: Option<String>,
    pub network_length: Option<i32>,
    /// `NetworkingMethod`: 0 public server, 1 manual, 2 standalone.
    pub networking_method: Option<i32>,
    pub public_server_url: Option<String>,
    pub peer_urls: Vec<String>,
    pub listener_urls: Vec<String>,
    pub mapped_listeners: Vec<String>,
    pub proxy_cidrs: Vec<String>,
    pub enable_socks5: Option<bool>,
    pub socks5_port: Option<i32>,
    pub enable_vpn_portal: Option<bool>,
    pub vpn_portal_listen_port: Option<i32>,
    pub vpn_portal_client_network_addr: Option<String>,
    pub vpn_portal_client_network_len: Option<i32>,
    pub enable_manual_routes: Option<bool>,
    pub routes: Vec<String>,
    pub exit_nodes: Vec<String>,
    pub enable_exit_node: Option<bool>,
    pub enable_relay_network_whitelist: Option<bool>,
    pub relay_network_whitelist: Vec<String>,
    pub port_forwards: Vec<PortForwardConfig>,
    pub mtu: Option<i32>,
    pub instance_recv_bps_limit: Option<u64>,
    pub latency_first: Option<bool>,
    pub disable_encryption: Option<bool>,
    pub use_smoltcp: Option<bool>,
    pub disable_ipv6: Option<bool>,
    pub ipv6_public_addr_auto: Option<bool>,
    pub enable_kcp_proxy: Option<bool>,
    pub disable_kcp_input: Option<bool>,
    pub enable_quic_proxy: Option<bool>,
    pub disable_quic_input: Option<bool>,
    pub enable_udp_broadcast_relay: Option<bool>,
    pub disable_p2p: Option<bool>,
    pub p2p_only: Option<bool>,
    pub lazy_p2p: Option<bool>,
    pub need_p2p: Option<bool>,
    pub disable_tcp_hole_punching: Option<bool>,
    pub disable_udp_hole_punching: Option<bool>,
    pub disable_sym_hole_punching: Option<bool>,
    pub disable_upnp: Option<bool>,
    pub relay_all_peer_rpc: Option<bool>,
    pub multi_thread: Option<bool>,
    pub proxy_forward_by_system: Option<bool>,
    pub bind_device: Option<bool>,
    pub no_tun: Option<bool>,
    pub enable_magic_dns: Option<bool>,
    pub enable_private_mode: Option<bool>,
}

/// The character view of an optional string.
pub open spec fn opt_view(o: Option<String>) -> Option<Seq<char>> {
    match o {
        Some(s) => Some(s@),
        None => None,
    }
}

/// The text of an optional string, empty when absent (`unwrap_or_default`).
pub open spec fn or_empty(o: Option<String>) -> Seq<char> {
    match o {
        Some(s) => s@,
        None => Seq::empty(),
    }
}

/// `s` trimmed, or nothing when that leaves it empty.
pub open spec fn trimmed_spec(s: Seq<char>) -> Option<Seq<char>> {
    if trim_seq(s).len() == 0 {
        None
    } else {
        Some(trim_seq(s))
    }
}

/// Each item trimmed, blank items dropped.
pub open spec fn clean_seq(items: Seq<Seq<char>>) -> Seq<Seq<char>>
    decreases items.len(),
{
    if items.len() == 0 {
        Seq::empty()
    } else if trim_seq(items.last()).len() == 0 {
        clean_seq(items.drop_last())
    } else {
        clean_seq(items.drop_last()).push(trim_seq(items.last()))
    }
}

/// `s` trimmed, or `None` when blank.
fn trimmed(s: &String) -> (r: Option<String>)
    ensures
        opt_view(r) == trimmed_spec(s@),
{
    let t = trim(s.as_str());
    if t.as_str().is_empty() {
        None
    } else {
        Some(t)
    }
}

/// The text of an optional string, empty when absent.
fn unwrap_or_empty(o: &Option<String>) -> (r: String)
    ensures
        r@ == or_empty(*o),
{
    match o {
        Some(s) => copy_string(s),
        None => String::new(),
    }
}

/// Each item trimmed, blank items dropped.
pub fn clean_list(items: &Vec<String>) -> (r: Vec<String>)
    ensures
        views(r@) == clean_seq(views(items@)),
{
    let mut r: Vec<String> = Vec::new();
    let mut i: usize = 0;
    while i < items.len()
        invariant
            i <= items.len(),
            views(r@) == clean_seq(views(items@.take(i as int))),
        decreases items.len() - i,
    {
        let t = trim(items[i].as_str());
        let ghost before = r@;
        proof {
            assert(views(items@.take(i + 1)).drop_last() =~= views(items@.take(i as int)));
            assert(views(items@.take(i + 1)).last() == items@[i as int]@);
        }
        if !t.as_str().is_empty() {
            r.push(t);
            proof {
                assert(views(r@) =~= views(before).push(trim_seq(items@[i as int]@)));
            }
        }
        i = i + 1;
    }
    proof {
        assert(items@.take(items.len() as int) =~= items@);
    }
    r
}

// ─────────────────────────────────── Profile ──────────────────────────────

/// A single, named connection profile — a superset of EasyTier's
/// `NetworkConfig`.
#[derive(Clone, PartialEq, Debug)]
pub struct Profile {
    pub id: String,
    pub name: String,
    // Identity
    pub network_name: String,
    pub network_secret: String,
    pub hostname: String,
    pub dev_name: String,
    // Addressing
    pub dhcp: bool,
    pub virtual_ipv4: String,
    pub network_length: u8,
    // Connection
    pub join_method: JoinMethod,
    pub public_server: String,
    pub peers: Vec<String>,
    pub listeners: Vec<String>,
    pub mapped_listeners: Vec<String>,
    // Subnet proxy / SOCKS5
    pub proxy_cidrs: Vec<String>,
    pub enable_socks5: bool,
    pub socks5_port: u16,
    // VPN portal
    pub enable_vpn_portal: bool,
    pub vpn_portal_listen_port: u16,
    pub vpn_portal_client_network_addr: String,
    pub vpn_portal_client_network_len: u8,
    // Routing
    pub enable_manual_routes: bool,
    pub routes: Vec<String>,
    pub exit_nodes: Vec<String>,
    pub enable_exit_node: bool,
    pub enable_relay_network_whitelist: bool,
    pub relay_network_whitelist: Vec<String>,
    // Port forwarding
    pub port_forwards: Vec<PortForward>,
    // Performance limits (0 = unset / default).
    pub mtu: u32,
    pub instance_recv_bps_limit: u64,
    // Headline flags.
    pub latency_first: bool,
    pub enable_encryption: bool,
    pub use_smoltcp: bool,
    pub disable_ipv6: bool,
    pub ipv6_public_addr_auto: bool,
    pub enable_kcp_proxy: bool,
    pub disable_kcp_input: bool,
    pub enable_quic_proxy: bool,
    pub disable_quic_input: bool,
    pub enable_udp_broadcast_relay: bool,
    pub disable_p2p: bool,
    pub p2p_only: bool,
    pub lazy_p2p: bool,
    pub need_p2p: bool,
    pub disable_tcp_hole_punching: bool,
    pub disable_udp_hole_punching: bool,
    pub disable_sym_hole_punching: bool,
    pub disable_upnp: bool,
    pub relay_all_peer_rpc: bool,
    pub multi_thread: bool,
    pub proxy_forward_by_system: bool,
    pub bind_device: bool,
    pub no_tun: bool,
    pub enable_magic_dns: bool,
    pub enable_private_mode: bool,
}

/// Default for flags whose absence means "on".
pub fn default_true() -> (r: bool)
    ensures
        r,
{
    true
}

/// Default for `Settings::log_level`.
pub fn default_log_level() -> (r: LogLevel)
    ensures
        r == LogLevel::Info,
{
    LogLevel::Info
}

/// Default for `Settings::log_retention_days`.
pub fn default_log_retention() -> (r: u32)
    ensures
        r == 7,
{
    7
}

/// Default for `Profile::network_length`.
pub fn default_network_length() -> (r: u8)
    ensures
        r == 24,
{
    24
}

/// Default for `Profile::vpn_portal_listen_port`.
pub fn default_vpn_portal_port() -> (r: u16)
    ensures
        r == 22022,
{
    22022
}

/// Default for `Profile::vpn_portal_client_network_addr`.
pub fn default_vpn_portal_cidr() -> (r: String)
    ensures
        r@ == "10.14.14.0"@,
{
    owned("10.14.14.0")
}

/// Default for `Profile::vpn_portal_client_network_len`.
pub fn default_vpn_portal_len() -> (r: u8)
    ensures
        r == 24,
{
    24
}

/// Whether every field of `p` but its id holds the default of a new profile.
pub open spec fn is_default_profile(p: Profile) -> bool {
    p.name@ == "My network"@ && default_profile_settings(p)
}

/// Whether every field of `p` but its id and name holds the default of a new
/// profile.
pub open spec fn default_profile_settings(p: Profile) -> bool {
    &&& p.network_name@ == "polaris-net"@
    &&& p.network_secret@ == "change-this-secret"@
    &&& p.hostname@.len() == 0
    &&& p.dev_name@.len() == 0
    &&& p.dhcp
    &&& p.virtual_ipv4@ == "10.126.126.1"@
    &&& p.network_length == 24
    &&& p.join_method == JoinMethod::PublicServer
    &&& p.public_server@ == "tcp://public.easytier.cn:11010"@
    &&& p.peers@.len() == 0
    &&& p.listeners@.len() == 0
    &&& p.mapped_listeners@.len() == 0
    &&& p.proxy_cidrs@.len() == 0
    &&& !p.enable_socks5
    &&& p.socks5_port == 1080
    &&& !p.enable_vpn_portal
    &&& p.vpn_portal_listen_port == 22022
    &&& p.vpn_portal_client_network_addr@ == "10.14.14.0"@
    &&& p.vpn_portal_client_network_len == 24
    &&& !p.enable_manual_routes
    &&& p.routes@.len() == 0
    &&& p.exit_nodes@.len() == 0
    &&& !p.enable_exit_node
    &&& !p.enable_relay_network_whitelist
    &&& p.relay_network_whitelist@.len() == 0
    &&& p.port_forwards@.len() == 0
    &&& p.mtu == 0
    &&& p.instance_recv_bps_limit == 0
    &&& p.latency_first
    &&& p.enable_encryption
    &&& !p.use_smoltcp
    &&& !p.disable_ipv6
    &&& !p.ipv6_public_addr_auto
    &&& !p.enable_kcp_proxy
    &&& !p.disable_kcp_input
    &&& !p.enable_quic_proxy
    &&& !p.disable_quic_input
    &&& !p.enable_udp_broadcast_relay
    &&& !p.disable_p2p
    &&& !p.p2p_only
    &&& !p.lazy_p2p
    &&& !p.need_p2p
    &&& !p.disable_tcp_hole_punching
    &&& !p.disable_udp_hole_punching
    &&& !p.disable_sym_hole_punching
    &&& !p.disable_upnp
    &&& !p.relay_all_peer_rpc
    &&& p.multi_thread
    &&& !p.proxy_forward_by_system
    &&& p.bind_device
    &&& !p.no_tun
    &&& !p.enable_magic_dns
    &&& !p.enable_private_mode
}

/// Whether `nc` is what a profile `p` exports: identity and addressing
/// trimmed, optional text left out when blank, lists trimmed with blank
/// items dropped, port-dependent settings present only when their feature is
/// on, incomplete port forwards left out, zero limits left unset, and every
/// flag carried over.
pub open spec fn exports_profile(p: Profile, nc: NetworkConfig) -> bool {
    &&& opt_view(nc.network_name) == Some(trim_seq(p.network_name@))
    &&& opt_view(nc.network_secret) == Some(p.network_secret@)
    &&& opt_view(nc.hostname) == trimmed_spec(p.hostname@)
    &&& opt_view(nc.dev_name) == trimmed_spec(p.dev_name@)
    &&& nc.dhcp == Some(p.dhcp)
    &&& opt_view(nc.virtual_ipv4) == (if !p.dhcp { Some(trim_seq(p.virtual_ipv4@)) } else { None })
    &&& nc.network_length == (if !p.dhcp { Some(p.network_length as i32) } else { None })
    &&& nc.networking_method == Some(join_method_index(p.join_method) as i32)
    &&& opt_view(nc.public_server_url) == trimmed_spec(p.public_server@)
    &&& views(nc.peer_urls@) == clean_seq(views(p.peers@))
    &&& views(nc.listener_urls@) == clean_seq(views(p.listeners@))
    &&& views(nc.mapped_listeners@) == clean_seq(views(p.mapped_listeners@))
    &&& views(nc.proxy_cidrs@) == clean_seq(views(p.proxy_cidrs@))
    &&& views(nc.routes@) == clean_seq(views(p.routes@))
    &&& views(nc.exit_nodes@) == clean_seq(views(p.exit_nodes@))
    &&& views(nc.relay_network_whitelist@) == clean_seq(views(p.relay_network_whitelist@))
    &&& nc.enable_socks5 == Some(p.enable_socks5)
    &&& nc.socks5_port == (if p.enable_socks5 { Some(p.socks5_port as i32) } else { None })
    &&& nc.enable_vpn_portal == Some(p.enable_vpn_portal)
    &&& nc.vpn_portal_listen_port == (if p.enable_vpn_portal { Some(p.vpn_portal_listen_port as i32) } else { None })
    &&& opt_view(nc.vpn_portal_client_network_addr) == (if p.enable_vpn_portal { Some(trim_seq(p.vpn_portal_client_network_addr@)) } else { None })
    &&& nc.vpn_portal_client_network_len == (if p.enable_vpn_portal { Some(p.vpn_portal_client_network_len as i32) } else { None })
    &&& nc.enable_manual_routes == Some(p.enable_manual_routes)
    &&& nc.enable_exit_node == Some(p.enable_exit_node)
    &&& nc.enable_relay_network_whitelist == Some(p.enable_relay_network_whitelist)
    &&& nc.port_forwards@.len() == kept_forwards(p.port_forwards@).len()
    &&& forall|i: int| 0 <= i < nc.port_forwards@.len() ==> forward_exported(#[trigger] nc.port_forwards@[i], kept_forwards(p.port_forwards@)[i])
    &&& nc.mtu == (if p.mtu > 0 { Some(p.mtu as i32) } else { None })
    &&& nc.instance_recv_bps_limit == (if p.instance_recv_bps_limit > 0 { Some(p.instance_recv_bps_limit) } else { None })
    &&& nc.latency_first == Some(p.latency_first)
    &&& nc.disable_encryption == Some(!p.enable_encryption)
    &&& nc.use_smoltcp == Some(p.use_smoltcp)
    &&& nc.disable_ipv6 == Some(p.disable_ipv6)
    &&& nc.ipv6_public_addr_auto == Some(p.ipv6_public_addr_auto)
    &&& nc.enable_kcp_proxy == Some(p.enable_kcp_proxy)
    &&& nc.disable_kcp_input == Some(p.disable_kcp_input)
    &&& nc.enable_quic_proxy == Some(p.enable_quic_proxy)
    &&& nc.disable_quic_input == Some(p.disable_quic_input)
    &&& nc.enable_udp_broadcast_relay == Some(p.enable_udp_broadcast_relay)
    &&& nc.disable_p2p == Some(p.disable_p2p)
    &&& nc.p2p_only == Some(p.p2p_only)
    &&& nc.lazy_p2p == Some(p.lazy_p2p)
    &&& nc.need_p2p == Some(p.need_p2p)
    &&& nc.disable_tcp_hole_punching == Some(p.disable_tcp_hole_punching)
    &&& nc.disable_udp_hole_punching == Some(p.disable_udp_hole_punching)
    &&& nc.disable_sym_hole_punching == Some(p.disable_sym_hole_punching)
    &&& nc.disable_upnp == Some(p.disable_upnp)
    &&& nc.relay_all_peer_rpc == Some(p.relay_all_peer_rpc)
    &&& nc.multi_thread == Some(p.multi_thread)
    &&& nc.proxy_forward_by_system == Some(p.proxy_forward_by_system)
    &&& nc.bind_device == Some(p.bind_device)
    &&& nc.no_tun == Some(p.no_tun)
    &&& nc.enable_magic_dns == Some(p.enable_magic_dns)
    &&& nc.enable_private_mode == Some(p.enable_private_mode)
}

/// `len` clamped to a prefix length of 1..=32.
pub open spec fn prefix_len(len: i32) -> u8 {
    if len < 1 {
        1
    } else if len > 32 {
        32
    } else {
        len as u8
    }
}

/// Whether profile `p` is what an imported `nc` makes (apart from its fresh
/// id): absent text becomes empty, the display name follows the network
/// name, positive numbers replace the defaults (prefix lengths clamped to
/// 1..=32, ports cut to 16 bits), and absent flags take their defaults.
pub open spec fn imports_config(nc: NetworkConfig, p: Profile) -> bool {
    &&& p.name@ == (if or_empty(nc.network_name).len() == 0 { "Imported network"@ } else { or_empty(nc.network_name) })
    &&& p.network_name@ == or_empty(nc.network_name)
    &&& p.network_secret@ == or_empty(nc.network_secret)
    &&& p.hostname@ == or_empty(nc.hostname)
    &&& p.dev_name@ == or_empty(nc.dev_name)
    &&& p.dhcp == nc.dhcp.unwrap_or(true)
    &&& p.virtual_ipv4@ == or_empty(nc.virtual_ipv4)
    &&& p.network_length == (match nc.network_length { Some(len) => if len > 0 { prefix_len(len) } else { 24u8 }, None => 24u8 })
    &&& p.join_method == join_method_at(nc.networking_method.unwrap_or(0) as int)
    &&& p.public_server@ == or_empty(nc.public_server_url)
    &&& views(p.peers@) == views(nc.peer_urls@)
    &&& views(p.listeners@) == views(nc.listener_urls@)
    &&& views(p.mapped_listeners@) == views(nc.mapped_listeners@)
    &&& views(p.proxy_cidrs@) == views(nc.proxy_cidrs@)
    &&& p.enable_socks5 == nc.enable_socks5.unwrap_or(false)
    &&& p.socks5_port == (match nc.socks5_port { Some(port) => if port > 0 { port as u16 } else { 1080u16 }, None => 1080u16 })
    &&& p.enable_vpn_portal == nc.enable_vpn_portal.unwrap_or(false)
    &&& p.vpn_portal_listen_port == (match nc.vpn_portal_listen_port { Some(port) => if port > 0 { port as u16 } else { 22022u16 }, None => 22022u16 })
    &&& p.vpn_portal_client_network_addr@ == (match nc.vpn_portal_client_network_addr { Some(c) => if c@.len() > 0 { c@ } else { "10.14.14.0"@ }, None => "10.14.14.0"@ })
    &&& p.vpn_portal_client_network_len == (match nc.vpn_portal_client_network_len { Some(len) => if len > 0 { prefix_len(len) } else { 24u8 }, None => 24u8 })
    &&& p.enable_manual_routes == nc.enable_manual_routes.unwrap_or(false)
    &&& views(p.routes@) == views(nc.routes@)
    &&& views(p.exit_nodes@) == views(nc.exit_nodes@)
    &&& p.enable_exit_node == nc.enable_exit_node.unwrap_or(false)
    &&& p.enable_relay_network_whitelist == nc.enable_relay_network_whitelist.unwrap_or(false)
    &&& views(p.relay_network_whitelist@) == views(nc.relay_network_whitelist@)
    &&& p.port_forwards@.len() == nc.port_forwards@.len()
    &&& forall|i: int| 0 <= i < p.port_forwards@.len() ==> forward_imported(#[trigger] p.port_forwards@[i], nc.port_forwards@[i])
    &&& p.mtu == (match nc.mtu { Some(m) => if m > 0 { m as u32 } else { 0u32 }, None => 0u32 })
    &&& p.instance_recv_bps_limit == nc.instance_recv_bps_limit.unwrap_or(0)
    &&& p.latency_first == nc.latency_first.unwrap_or(true)
    &&& p.enable_encryption == !nc.disable_encryption.unwrap_or(false)
    &&& p.use_smoltcp == nc.use_smoltcp.unwrap_or(false)
    &&& p.disable_ipv6 == nc.disable_ipv6.unwrap_or(false)
    &&& p.ipv6_public_addr_auto == nc.ipv6_public_addr_auto.unwrap_or(false)
    &&& p.enable_kcp_proxy == nc.enable_kcp_proxy.unwrap_or(false)
    &&& p.disable_kcp_input == nc.disable_kcp_input.unwrap_or(false)
    &&& p.enable_quic_proxy == nc.enable_quic_proxy.unwrap_or(false)
    &&& p.disable_quic_input == nc.disable_quic_input.unwrap_or(false)
    &&& p.enable_udp_broadcast_relay == nc.enable_udp_broadcast_relay.unwrap_or(false)
    &&& p.disable_p2p == nc.disable_p2p.unwrap_or(false)
    &&& p.p2p_only == nc.p2p_only.unwrap_or(false)
    &&& p.lazy_p2p == nc.lazy_p2p.unwrap_or(false)
    &&& p.need_p2p == nc.need_p2p.unwrap_or(false)
    &&& p.disable_tcp_hole_punching == nc.disable_tcp_hole_punching.unwrap_or(false)
    &&& p.disable_udp_hole_punching == nc.disable_udp_hole_punching.unwrap_or(false)
    &&& p.disable_sym_hole_punching == nc.disable_sym_hole_punching.unwrap_or(false)
    &&& p.disable_upnp == nc.disable_upnp.unwrap_or(false)
    &&& p.relay_all_peer_rpc == nc.relay_all_peer_rpc.unwrap_or(false)
    &&& p.multi_thread == nc.multi_thread.unwrap_or(true)
    &&& p.proxy_forward_by_system == nc.proxy_forward_by_system.unwrap_or(false)
    &&& p.bind_device == nc.bind_device.unwrap_or(true)
    &&& p.no_tun == nc.no_tun.unwrap_or(false)
    &&& p.enable_magic_dns == nc.enable_magic_dns.unwrap_or(false)
    &&& p.enable_private_mode == nc.enable_private_mode.unwrap_or(false)
}

impl Profile {
    /// A new profile with default settings and a fresh id.
    pub fn fresh(ids: &mut IdGen) -> (r: Profile)
        ensures
            is_default_profile(r),
            exists|t: u128| r.id@ == id_text(t as nat, old(ids).counter as nat),
            final(ids).counter == old(ids).counter.wrapping_add(1),
    {
        Profile {
            id: gen_id(ids),
            name: owned("My network"),
            network_name: owned("polaris-net"),
            network_secret: owned("change-this-secret"),
            hostname: String::new(),
            dev_name: String::new(),
            dhcp: true,
            virtual_ipv4: owned("10.126.126.1"),
            network_length: 24,
            join_method: JoinMethod::PublicServer,
            public_server: owned("tcp://public.easytier.cn:11010"),
            peers: Vec::new(),
            listeners: Vec::new(),
            mapped_listeners: Vec::new(),
            proxy_cidrs: Vec::new(),
            enable_socks5: false,
            socks5_port: 1080,
            enable_vpn_portal: false,
            vpn_portal_listen_port: default_vpn_portal_port(),
            vpn_portal_client_network_addr: default_vpn_portal_cidr(),
            vpn_portal_client_network_len: default_vpn_portal_len(),
            enable_manual_routes: false,
            routes: Vec::new(),
            exit_nodes: Vec::new(),
            enable_exit_node: false,
            enable_relay_network_whitelist: false,
            relay_network_whitelist: Vec::new(),
            port_forwards: Vec::new(),
            mtu: 0,
            instance_recv_bps_limit: 0,
            latency_first: true,
            enable_encryption: true,
            use_smoltcp: false,
            disable_ipv6: false,
            ipv6_public_addr_auto: false,
            enable_kcp_proxy: false,
            disable_kcp_input: false,
            enable_quic_proxy: false,
            disable_quic_input: false,
            enable_udp_broadcast_relay: false,
            disable_p2p: false,
            p2p_only: false,
            lazy_p2p: false,
            need_p2p: false,
            disable_tcp_hole_punching: false,
            disable_udp_hole_punching: false,
            disable_sym_hole_punching: false,
            disable_upnp: false,
            relay_all_peer_rpc: false,
            multi_thread: true,
            proxy_forward_by_system: false,
            bind_device: true,
            no_tun: false,
            enable_magic_dns: false,
            enable_private_mode: false,
        }
    }

    /// Translates into EasyTier's launcher config; EasyTier fills defaults for
    /// anything left unset.
    pub fn to_network_config(&self) -> (r: NetworkConfig)
        ensures
            exports_profile(*self, r),
    {
        let mut port_forwards: Vec<PortForwardConfig> = Vec::new();
        let mut i: usize = 0;
        while i < self.port_forwards.len()
            invariant
                i <= self.port_forwards.len(),
                port_forwards@.len() == kept_forwards(self.port_forwards@.take(i as int)).len(),
                forall|j: int| 0 <= j < port_forwards@.len() ==> forward_exported(#[trigger] port_forwards@[j], kept_forwards(self.port_forwards@.take(i as int))[j]),
            decreases self.port_forwards.len() - i,
        {
            let f = &self.port_forwards[i];
            proof {
                assert(self.port_forwards@.take(i + 1).drop_last() =~= self.port_forwards@.take(i as int));
                assert(self.port_forwards@.take(i + 1).last() == self.port_forwards@[i as int]);
            }
            if f.bind_port != 0 && f.dst_port != 0 && !blank(f.dst_ip.as_str()) {
                port_forwards.push(f.to_proto());
            }
            i = i + 1;
        }
        proof {
            assert(self.port_forwards@.take(self.port_forwards.len() as int) =~= self.port_forwards@);
        }
        let enable_socks5 = self.enable_socks5;
        let enable_vpn_portal = self.enable_vpn_portal;
        NetworkConfig {
            network_name: Some(trim(self.network_name.as_str())),
            network_secret: Some(copy_string(&self.network_secret)),
            hostname: trimmed(&self.hostname),
            dev_name: trimmed(&self.dev_name),
            dhcp: Some(self.dhcp),
            virtual_ipv4: if !self.dhcp { Some(trim(self.virtual_ipv4.as_str())) } else { None },
            network_length: if !self.dhcp { Some(self.network_length as i32) } else { None },
            networking_method: Some(self.join_method.index()),
            public_server_url: trimmed(&self.public_server),
            peer_urls: clean_list(&self.peers),
            listener_urls: clean_list(&self.listeners),
            mapped_listeners: clean_list(&self.mapped_listeners),
            proxy_cidrs: clean_list(&self.proxy_cidrs),
            routes: clean_list(&self.routes),
            exit_nodes: clean_list(&self.exit_nodes),
            relay_network_whitelist: clean_list(&self.relay_network_whitelist),
            enable_socks5: Some(enable_socks5),
            socks5_port: if enable_socks5 { Some(self.socks5_port as i32) } else { None },
            enable_vpn_portal: Some(enable_vpn_portal),
            vpn_portal_listen_port: if enable_vpn_portal { Some(self.vpn_portal_listen_port as i32) } else { None },
            vpn_portal_client_network_addr: if enable_vpn_portal { Some(trim(self.vpn_portal_client_network_addr.as_str())) } else { None },
            vpn_portal_client_network_len: if enable_vpn_portal { Some(self.vpn_portal_client_network_len as i32) } else { None },
            enable_manual_routes: Some(self.enable_manual_routes),
            enable_exit_node: Some(self.enable_exit_node),
            enable_relay_network_whitelist: Some(self.enable_relay_network_whitelist),
            port_forwards,
            mtu: if self.mtu > 0 { Some(self.mtu as i32) } else { None },
            instance_recv_bps_limit: if self.instance_recv_bps_limit > 0 { Some(self.instance_recv_bps_limit) } else { None },
            latency_first: Some(self.latency_first),
            disable_encryption: Some(!self.enable_encryption),
            use_smoltcp: Some(self.use_smoltcp),
            disable_ipv6: Some(self.disable_ipv6),
            ipv6_public_addr_auto: Some(self.ipv6_public_addr_auto),
            enable_kcp_proxy: Some(self.enable_kcp_proxy),
            disable_kcp_input: Some(self.disable_kcp_input),
            enable_quic_proxy: Some(self.enable_quic_proxy),
            disable_quic_input: Some(self.disable_quic_input),
            enable_udp_broadcast_relay: Some(self.enable_udp_broadcast_relay),
            disable_p2p: Some(self.disable_p2p),
            p2p_only: Some(self.p2p_only),
            lazy_p2p: Some(self.lazy_p2p),
            need_p2p: Some(self.need_p2p),
            disable_tcp_hole_punching: Some(self.disable_tcp_hole_punching),
            disable_udp_hole_punching: Some(self.disable_udp_hole_punching),
            disable_sym_hole_punching: Some(self.disable_sym_hole_punching),
            disable_upnp: Some(self.disable_upnp),
            relay_all_peer_rpc: Some(self.relay_all_peer_rpc),
            multi_thread: Some(self.multi_thread),
            proxy_forward_by_system: Some(self.proxy_forward_by_system),
            bind_device: Some(self.bind_device),
            no_tun: Some(self.no_tun),
            enable_magic_dns: Some(self.enable_magic_dns),
            enable_private_mode: Some(self.enable_private_mode),
        }
    }

    /// Builds a profile from an EasyTier `NetworkConfig` (an imported config
    /// shared with the official EasyTier GUI). A fresh local id is assigned.
    pub fn from_network_config(nc: &NetworkConfig, ids: &mut IdGen) -> (r: Profile)
        ensures
            imports_config(*nc, r),
            exists|t: u128| r.id@ == id_text(t as nat, old(ids).counter as nat),
            final(ids).counter == old(ids).counter.wrapping_add(1),
    {
        let mut port_forwards: Vec<PortForward> = Vec::new();
        let mut i: usize = 0;
        while i < nc.port_forwards.len()
            invariant
                i <= nc.port_forwards.len(),
                port_forwards@.len() == i,
                forall|j: int| 0 <= j < i ==> forward_imported(#[trigger] port_forwards@[j], nc.port_forwards@[j]),
            decreases nc.port_forwards.len() - i,
        {
            port_forwards.push(PortForward::from_proto(&nc.port_forwards[i]));
            i = i + 1;
        }
        let net_name = unwrap_or_empty(&nc.network_name);
        let name = if net_name.as_str().is_empty() { owned("Imported network") } else { copy_string(&net_name) };
        let network_length: u8 = match nc.network_length {
            Some(len) => if len > 0 { if len > 32 { 32 } else { len as u8 } } else { 24 },
            None => 24,
        };
        let socks5_port: u16 = match nc.socks5_port {
            Some(port) => if port > 0 { port as u16 } else { 1080 },
            None => 1080,
        };
        let vpn_portal_listen_port: u16 = match nc.vpn_portal_listen_port {
            Some(port) => if port > 0 { port as u16 } else { default_vpn_portal_port() },
            None => default_vpn_portal_port(),
        };
        let vpn_portal_client_network_addr = match &nc.vpn_portal_client_network_addr {
            Some(c) => if !c.as_str().is_empty() { copy_string(c) } else { default_vpn_portal_cidr() },
            None => default_vpn_portal_cidr(),
        };
        let vpn_portal_client_network_len: u8 = match nc.vpn_portal_client_network_len {
            Some(len) => if len > 0 { if len > 32 { 32 } else { len as u8 } } else { default_vpn_portal_len() },
            None => default_vpn_portal_len(),
        };
        let mtu: u32 = match nc.mtu {
            Some(m) => if m > 0 { m as u32 } else { 0 },
            None => 0,
        };
        Profile {
            id: gen_id(ids),
            name,
            network_name: net_name,
            network_secret: unwrap_or_empty(&nc.network_secret),
            hostname: unwrap_or_empty(&nc.hostname),
            dev_name: unwrap_or_empty(&nc.dev_name),
            dhcp: match nc.dhcp { Some(b) => b, None => true },
            virtual_ipv4: unwrap_or_empty(&nc.virtual_ipv4),
            network_length,
            join_method: JoinMethod::from_index(match nc.networking_method { Some(m) => m, None => 0 }),
            public_server: unwrap_or_empty(&nc.public_server_url),
            peers: copy_strings(&nc.peer_urls),
            listeners: copy_strings(&nc.listener_urls),
            mapped_listeners: copy_strings(&nc.mapped_listeners),
            proxy_cidrs: copy_strings(&nc.proxy_cidrs),
            enable_socks5: match nc.enable_socks5 { Some(b) => b, None => false },
            socks5_port,
            enable_vpn_portal: match nc.enable_vpn_portal { Some(b) => b, None => false },
            vpn_portal_listen_port,
            vpn_portal_client_network_addr,
            vpn_portal_client_network_len,
            enable_manual_routes: match nc.enable_manual_routes { Some(b) => b, None => false },
            routes: copy_strings(&nc.routes),
            exit_nodes: copy_strings(&nc.exit_nodes),
            enable_exit_node: match nc.enable_exit_node { Some(b) => b, None => false },
            enable_relay_network_whitelist: match nc.enable_relay_network_whitelist { Some(b) => b, None => false },
            relay_network_whitelist: copy_strings(&nc.relay_network_whitelist),
            port_forwards,
            mtu,
            instance_recv_bps_limit: match nc.instance_recv_bps_limit { Some(b) => b, None => 0 },
            latency_first: match nc.latency_first { Some(b) => b, None => true },
            enable_encryption: !match nc.disable_encryption { Some(b) => b, None => false },
            use_smoltcp: match nc.use_smoltcp { Some(b) => b, None => false },
            disable_ipv6: match nc.disable_ipv6 { Some(b) => b, None => false },
            ipv6_public_addr_auto: match nc.ipv6_public_addr_auto { Some(b) => b, None => false },
            enable_kcp_proxy: match nc.enable_kcp_proxy { Some(b) => b, None => false },
            disable_kcp_input: match nc.disable_kcp_input { Some(b) => b, None => false },
            enable_quic_proxy: match nc.enable_quic_proxy { Some(b) => b, None => false },
            disable_quic_input: match nc.disable_quic_input { Some(b) => b, None => false },
            enable_udp_broadcast_relay: match nc.enable_udp_broadcast_relay { Some(b) => b, None => false },
            disable_p2p: match nc.disable_p2p { Some(b) => b, None => false },
            p2p_only: match nc.p2p_only { Some(b) => b, None => false },
            lazy_p2p: match nc.lazy_p2p { Some(b) => b, None => false },
            need_p2p: match nc.need_p2p { Some(b) => b, None => false },
            disable_tcp_hole_punching: match nc.disable_tcp_hole_punching { Some(b) => b, None => false },
            disable_udp_hole_punching: match nc.disable_udp_hole_punching { Some(b) => b, None => false },
            disable_sym_hole_punching: match nc.disable_sym_hole_punching { Some(b) => b, None => false },
            disable_upnp: match nc.disable_upnp { Some(b) => b, None => false },
            relay_all_peer_rpc: match nc.relay_all_peer_rpc { Some(b) => b, None => false },
            multi_thread: match nc.multi_thread { Some(b) => b, None => true },
            proxy_forward_by_system: match nc.proxy_forward_by_system { Some(b) => b, None => false },
            bind_device: match nc.bind_device { Some(b) => b, None => true },
            no_tun: match nc.no_tun { Some(b) => b, None => false },
            enable_magic_dns: match nc.enable_magic_dns { Some(b) => b, None => false },
            enable_private_mode: match nc.enable_private_mode { Some(b) => b, None => false },
        }
    }
}

/// Exporting a profile and importing the result again keeps every flag, the
/// secret, the join method and the port-dependent settings that were on,
/// gives back the trimmed identity, address and lists, and keeps the complete
/// port-forwarding rules (a rule without a protocol comes back as TCP).
pub proof fn lemma_export_import(p: Profile, nc: NetworkConfig, q: Profile)
    requires
        exports_profile(p, nc),
        imports_config(nc, q),
    ensures
        q.network_name@ == trim_seq(p.network_name@),
        q.network_secret@ == p.network_secret@,
        q.dhcp == p.dhcp,
        !p.dhcp ==> q.virtual_ipv4@ == trim_seq(p.virtual_ipv4@),
        !p.dhcp && 1 <= p.network_length <= 32 ==> q.network_length == p.network_length,
        q.join_method == p.join_method,
        q.public_server@ == trim_seq(p.public_server@),
        views(q.peers@) == clean_seq(views(p.peers@)),
        views(q.listeners@) == clean_seq(views(p.listeners@)),
        views(q.mapped_listeners@) == clean_seq(views(p.mapped_listeners@)),
        views(q.proxy_cidrs@) == clean_seq(views(p.proxy_cidrs@)),
        views(q.routes@) == clean_seq(views(p.routes@)),
        views(q.exit_nodes@) == clean_seq(views(p.exit_nodes@)),
        views(q.relay_network_whitelist@) == clean_seq(views(p.relay_network_whitelist@)),
        q.enable_socks5 == p.enable_socks5,
        q.enable_vpn_portal == p.enable_vpn_portal,
        q.enable_manual_routes == p.enable_manual_routes,
        q.enable_exit_node == p.enable_exit_node,
        q.enable_relay_network_whitelist == p.enable_relay_network_whitelist,
        q.latency_first == p.latency_first,
        p.enable_socks5 && p.socks5_port > 0 ==> q.socks5_port == p.socks5_port,
        p.enable_vpn_portal && p.vpn_portal_listen_port > 0 ==> q.vpn_portal_listen_port == p.vpn_portal_listen_port,
        p.enable_vpn_portal && 1 <= p.vpn_portal_client_network_len <= 32 ==> q.vpn_portal_client_network_len == p.vpn_portal_client_network_len,
        p.mtu <= i32::MAX ==> q.mtu == p.mtu,
        q.instance_recv_bps_limit == p.instance_recv_bps_limit,
        q.enable_encryption == p.enable_encryption,
        q.port_forwards@.len() == kept_forwards(p.port_forwards@).len(),
        forall|i: int| 0 <= i < q.port_forwards@.len() ==> {
            let f = kept_forwards(p.port_forwards@)[i];
            let g = #[trigger] q.port_forwards@[i];
            &&& g.proto@ == (if f.proto@.len() == 0 { "tcp"@ } else { f.proto@ })
            &&& g.bind_ip@ == f.bind_ip@
            &&& g.bind_port == f.bind_port
            &&& g.dst_ip@ == f.dst_ip@
            &&& g.dst_port == f.dst_port
        },
        q.use_smoltcp == p.use_smoltcp,
        q.disable_ipv6 == p.disable_ipv6,
        q.ipv6_public_addr_auto == p.ipv6_public_addr_auto,
        q.enable_kcp_proxy == p.enable_kcp_proxy,
        q.disable_kcp_input == p.disable_kcp_input,
        q.enable_quic_proxy == p.enable_quic_proxy,
        q.disable_quic_input == p.disable_quic_input,
        q.enable_udp_broadcast_relay == p.enable_udp_broadcast_relay,
        q.disable_p2p == p.disable_p2p,
        q.p2p_only == p.p2p_only,
        q.lazy_p2p == p.lazy_p2p,
        q.need_p2p == p.need_p2p,
        q.disable_tcp_hole_punching == p.disable_tcp_hole_punching,
        q.disable_udp_hole_punching == p.disable_udp_hole_punching,
        q.disable_sym_hole_punching == p.disable_sym_hole_punching,
        q.disable_upnp == p.disable_upnp,
        q.relay_all_peer_rpc == p.relay_all_peer_rpc,
        q.multi_thread == p.multi_thread,
        q.proxy_forward_by_system == p.proxy_forward_by_system,
        q.bind_device == p.bind_device,
        q.no_tun == p.no_tun,
        q.enable_magic_dns == p.enable_magic_dns,
        q.enable_private_mode == p.enable_private_mode,
{
    assert forall|i: int| 0 <= i < q.port_forwards@.len() implies {
        let f = kept_forwards(p.port_forwards@)[i];
        let g = #[trigger] q.port_forwards@[i];
        &&& g.proto@ == (if f.proto@.len() == 0 { "tcp"@ } else { f.proto@ })
        &&& g.bind_ip@ == f.bind_ip@
        &&& g.bind_port == f.bind_port
        &&& g.dst_ip@ == f.dst_ip@
        &&& g.dst_port == f.dst_port
    } by {
        let f = kept_forwards(p.port_forwards@)[i];
        let pb = nc.port_forwards@[i];
        assert(forward_exported(pb, f));
        assert(forward_imported(q.port_forwards@[i], pb));
        let bp = f.bind_port;
        let dp = f.dst_port;
        assert((bp as u32) as u16 == bp) by (bit_vector);
        assert((dp as u32) as u16 == dp) by (bit_vector);
    }
}

/// Whether a text is already trimmed.
pub open spec fn is_trimmed(s: Seq<char>) -> bool {
    trim_seq(s) == s
}

/// Whether a list holds only trimmed, non-blank entries.
pub open spec fn is_clean(l: Seq<String>) -> bool {
    clean_seq(views(l)) == views(l)
}

/// Whether exporting `p` loses nothing an import would need to rebuild it:
/// its texts and lists are already trimmed, it has a static address with a
/// valid prefix, SOCKS5 and the VPN portal are on with their settings in
/// range, every port forward is complete with a protocol, and the MTU fits
/// EasyTier's field.
pub open spec fn exports_losslessly(p: Profile) -> bool {
    &&& is_trimmed(p.network_name@)
    &&& is_trimmed(p.hostname@)
    &&& is_trimmed(p.dev_name@)
    &&& is_trimmed(p.virtual_ipv4@)
    &&& is_trimmed(p.public_server@)
    &&& is_trimmed(p.vpn_portal_client_network_addr@)
    &&& p.vpn_portal_client_network_addr@.len() > 0
    &&& is_clean(p.peers@)
    &&& is_clean(p.listeners@)
    &&& is_clean(p.mapped_listeners@)
    &&& is_clean(p.proxy_cidrs@)
    &&& is_clean(p.routes@)
    &&& is_clean(p.exit_nodes@)
    &&& is_clean(p.relay_network_whitelist@)
    &&& !p.dhcp
    &&& 1 <= p.network_length <= 32
    &&& p.enable_socks5 && p.socks5_port > 0
    &&& p.enable_vpn_portal && p.vpn_portal_listen_port > 0
    &&& 1 <= p.vpn_portal_client_network_len <= 32
    &&& kept_forwards(p.port_forwards@) == p.port_forwards@
    &&& forall|i: int| 0 <= i < p.port_forwards@.len() ==> (#[trigger] p.port_forwards@[i]).proto@.len() > 0
    &&& p.mtu <= i32::MAX
}

/// Exporting a profile that loses nothing and importing the result gives the
/// same profile back, but for its fresh id and its display name, which
/// becomes the network name (or `Imported network`).
pub proof fn lemma_export_import_exact(p: Profile, nc: NetworkConfig, q: Profile)
    requires
        exports_profile(p, nc),
        imports_config(nc, q),
        exports_losslessly(p),
    ensures
        same_settings(q, p),
        q.name@ == (if p.network_name@.len() == 0 { "Imported network"@ } else { p.network_name@ }),
{
    lemma_export_import(p, nc, q);
    assert(forwards_same(q.port_forwards@, p.port_forwards@)) by {
        assert forall|i: int| 0 <= i < q.port_forwards@.len() implies {
            &&& (#[trigger] q.port_forwards@[i]).proto@ == p.port_forwards@[i].proto@
            &&& q.port_forwards@[i].bind_ip@ == p.port_forwards@[i].bind_ip@
            &&& q.port_forwards@[i].bind_port == p.port_forwards@[i].bind_port
            &&& q.port_forwards@[i].dst_ip@ == p.port_forwards@[i].dst_ip@
            &&& q.port_forwards@[i].dst_port == p.port_forwards@[i].dst_port
        } by {
            assert(kept_forwards(p.port_forwards@)[i] == p.port_forwards@[i]);
            assert(p.port_forwards@[i].proto@.len() > 0);
        }
    }
    assert(q.hostname@ == p.hostname@);
    assert(q.dev_name@ == p.dev_name@);
}

proof fn lemma_kept_forwards_complete(s: Seq<PortForward>)
    ensures
        forall|i: int| 0 <= i < kept_forwards(s).len() ==> {
            &&& (#[trigger] kept_forwards(s)[i]).bind_port != 0
            &&& kept_forwards(s)[i].dst_port != 0
            &&& !is_blank(kept_forwards(s)[i].dst_ip@)
        },
    decreases s.len(),
{
    if s.len() > 0 {
        lemma_kept_forwards_complete(s.drop_last());
        let k = kept_forwards(s.drop_last());
        if forward_kept(s.last()) {
            assert forall|i: int| 0 <= i < kept_forwards(s).len() implies {
                &&& (#[trigger] kept_forwards(s)[i]).bind_port != 0
                &&& kept_forwards(s)[i].dst_port != 0
                &&& !is_blank(kept_forwards(s)[i].dst_ip@)
            } by {
                if i < k.len() {
                    assert(kept_forwards(s)[i] == k[i]);
                }
            }
        }
    }
}

/// An exported configuration holds only complete port forwards: each has a
/// non-zero listening port, a non-zero destination port and a non-blank
/// destination address; a rule still being filled in is left out.
pub proof fn lemma_exported_forwards_complete(p: Profile, nc: NetworkConfig)
    requires
        exports_profile(p, nc),
    ensures
        forall|i: int| 0 <= i < nc.port_forwards@.len() ==> {
            &&& (#[trigger] nc.port_forwards@[i]).bind_port != 0
            &&& nc.port_forwards@[i].dst_port != 0
            &&& !is_blank(nc.port_forwards@[i].dst_ip@)
        },
{
    lemma_kept_forwards_complete(p.port_forwards@);
    assert forall|i: int| 0 <= i < nc.port_forwards@.len() implies {
        &&& (#[trigger] nc.port_forwards@[i]).bind_port != 0
        &&& nc.port_forwards@[i].dst_port != 0
        &&& !is_blank(nc.port_forwards@[i].dst_ip@)
    } by {
        assert(forward_exported(nc.port_forwards@[i], kept_forwards(p.port_forwards@)[i]));
    }
}

/// Importing a configuration that leaves a switch out gives EasyTier's
/// default for it: DHCP, latency-first routing, encryption, multi-threading
/// and device binding on, every other switch off.
pub proof fn lemma_import_absent_switches(nc: NetworkConfig, p: Profile)
    requires
        imports_config(nc, p),
    ensures
        nc.dhcp is None ==> p.dhcp,
        nc.latency_first is None ==> p.latency_first,
        nc.disable_encryption is None ==> p.enable_encryption,
        nc.multi_thread is None ==> p.multi_thread,
        nc.bind_device is None ==> p.bind_device,
        nc.enable_socks5 is None ==> !p.enable_socks5,
        nc.enable_vpn_portal is None ==> !p.enable_vpn_portal,
        nc.enable_manual_routes is None ==> !p.enable_manual_routes,
        nc.enable_exit_node is None ==> !p.enable_exit_node,
        nc.enable_relay_network_whitelist is None ==> !p.enable_relay_network_whitelist,
        nc.use_smoltcp is None ==> !p.use_smoltcp,
        nc.disable_ipv6 is None ==> !p.disable_ipv6,
        nc.ipv6_public_addr_auto is None ==> !p.ipv6_public_addr_auto,
        nc.enable_kcp_proxy is None ==> !p.enable_kcp_proxy,
        nc.disable_kcp_input is None ==> !p.disable_kcp_input,
        nc.enable_quic_proxy is None ==> !p.enable_quic_proxy,
        nc.disable_quic_input is None ==> !p.disable_quic_input,
        nc.enable_udp_broadcast_relay is None ==> !p.enable_udp_broadcast_relay,
        nc.disable_p2p is None ==> !p.disable_p2p,
        nc.p2p_only is None ==> !p.p2p_only,
        nc.lazy_p2p is None ==> !p.lazy_p2p,
        nc.need_p2p is None ==> !p.need_p2p,
        nc.disable_tcp_hole_punching is None ==> !p.disable_tcp_hole_punching,
        nc.disable_udp_hole_punching is None ==> !p.disable_udp_hole_punching,
        nc.disable_sym_hole_punching is None ==> !p.disable_sym_hole_punching,
        nc.disable_upnp is None ==> !p.disable_upnp,
        nc.relay_all_peer_rpc is None ==> !p.relay_all_peer_rpc,
        nc.proxy_forward_by_system is None ==> !p.proxy_forward_by_system,
        nc.no_tun is None ==> !p.no_tun,
        nc.enable_magic_dns is None ==> !p.enable_magic_dns,
        nc.enable_private_mode is None ==> !p.enable_private_mode,
{
}

/// A new network starts with EasyTier's defaults: DHCP, latency-first
/// routing, encryption, multi-threading and device binding on, every other
/// switch off.
pub proof fn lemma_fresh_switches(p: Profile)
    requires
        default_profile_settings(p),
    ensures
        p.dhcp,
        p.latency_first,
        p.enable_encryption,
        p.multi_thread,
        p.bind_device,
        !p.enable_socks5,
        !p.enable_vpn_portal,
        !p.enable_manual_routes,
        !p.enable_exit_node,
        !p.enable_relay_network_whitelist,
        !p.use_smoltcp,
        !p.disable_ipv6,
        !p.ipv6_public_addr_auto,
        !p.enable_kcp_proxy,
        !p.disable_kcp_input,
        !p.enable_quic_proxy,
        !p.disable_quic_input,
        !p.enable_udp_broadcast_relay,
        !p.disable_p2p,
        !p.p2p_only,
        !p.lazy_p2p,
        !p.need_p2p,
        !p.disable_tcp_hole_punching,
        !p.disable_udp_hole_punching,
        !p.disable_sym_hole_punching,
        !p.disable_upnp,
        !p.relay_all_peer_rpc,
        !p.proxy_forward_by_system,
        !p.no_tun,
        !p.enable_magic_dns,
        !p.enable_private_mode,
{
}

/// Whether two profiles have every switch in the same position.
pub open spec fn same_switches(a: Profile, b: Profile) -> bool {
    &&& a.dhcp == b.dhcp
    &&& a.latency_first == b.latency_first
    &&& a.enable_encryption == b.enable_encryption
    &&& a.multi_thread == b.multi_thread
    &&& a.bind_device == b.bind_device
    &&& a.enable_socks5 == b.enable_socks5
    &&& a.enable_vpn_portal == b.enable_vpn_portal
    &&& a.enable_manual_routes == b.enable_manual_routes
    &&& a.enable_exit_node == b.enable_exit_node
    &&& a.enable_relay_network_whitelist == b.enable_relay_network_whitelist
    &&& a.use_smoltcp == b.use_smoltcp
    &&& a.disable_ipv6 == b.disable_ipv6
    &&& a.ipv6_public_addr_auto == b.ipv6_public_addr_auto
    &&& a.enable_kcp_proxy == b.enable_kcp_proxy
    &&& a.disable_kcp_input == b.disable_kcp_input
    &&& a.enable_quic_proxy == b.enable_quic_proxy
    &&& a.disable_quic_input == b.disable_quic_input
    &&& a.enable_udp_broadcast_relay == b.enable_udp_broadcast_relay
    &&& a.disable_p2p == b.disable_p2p
    &&& a.p2p_only == b.p2p_only
    &&& a.lazy_p2p == b.lazy_p2p
    &&& a.need_p2p == b.need_p2p
    &&& a.disable_tcp_hole_punching == b.disable_tcp_hole_punching
    &&& a.disable_udp_hole_punching == b.disable_udp_hole_punching
    &&& a.disable_sym_hole_punching == b.disable_sym_hole_punching
    &&& a.disable_upnp == b.disable_upnp
    &&& a.relay_all_peer_rpc == b.relay_all_peer_rpc
    &&& a.proxy_forward_by_system == b.proxy_forward_by_system
    &&& a.no_tun == b.no_tun
    &&& a.enable_magic_dns == b.enable_magic_dns
    &&& a.enable_private_mode == b.enable_private_mode
}

/// Whether a configuration leaves every switch out.
pub open spec fn sets_no_switch(nc: NetworkConfig) -> bool {
    &&& nc.dhcp is None
    &&& nc.latency_first is None
    &&& nc.disable_encryption is None
    &&& nc.multi_thread is None
    &&& nc.bind_device is None
    &&& nc.enable_socks5 is None
    &&& nc.enable_vpn_portal is None
    &&& nc.enable_manual_routes is None
    &&& nc.enable_exit_node is None
    &&& nc.enable_relay_network_whitelist is None
    &&& nc.use_smoltcp is None
    &&& nc.disable_ipv6 is None
    &&& nc.ipv6_public_addr_auto is None
    &&& nc.enable_kcp_proxy is None
    &&& nc.disable_kcp_input is None
    &&& nc.enable_quic_proxy is None
    &&& nc.disable_quic_input is None
    &&& nc.enable_udp_broadcast_relay is None
    &&& nc.disable_p2p is None
    &&& nc.p2p_only is None
    &&& nc.lazy_p2p is None
    &&& nc.need_p2p is None
    &&& nc.disable_tcp_hole_punching is None
    &&& nc.disable_udp_hole_punching is None
    &&& nc.disable_sym_hole_punching is None
    &&& nc.disable_upnp is None
    &&& nc.relay_all_peer_rpc is None
    &&& nc.proxy_forward_by_system is None
    &&& nc.no_tun is None
    &&& nc.enable_magic_dns is None
    &&& nc.enable_private_mode is None
}

/// A new network and one imported from a configuration that sets no switch
/// have every switch in the same position.
pub proof fn lemma_fresh_matches_bare_import(fresh: Profile, nc: NetworkConfig, imported: Profile)
    requires
        default_profile_settings(fresh),
        imports_config(nc, imported),
        sets_no_switch(nc),
    ensures
        same_switches(fresh, imported),
{
    lemma_fresh_switches(fresh);
    lemma_import_absent_switches(nc, imported);
}

/// The official GUI's saved list of `{ "config": ... }` records, when it is
/// non-empty and no Polaris shape fits, is what a JSON import reads: one
/// profile per record, from the record's configuration, whatever the text
/// also gives read as a plain list of configurations.
pub proof fn lemma_gui_records_win(a: JsonAttempts, r: Result<Vec<Profile>, ImportError>, c: u64)
    requires
        json_import(a, r, c),
        a.profile is None,
        a.profiles is None || a.profiles->Some_0@.len() == 0,
        a.store is None || a.store->Some_0.profiles@.len() == 0,
        a.stored is Some && a.stored->Some_0@.len() > 0,
    ensures
        r is Ok,
        r->Ok_0@.len() == a.stored->Some_0@.len(),
        forall|i: int| 0 <= i < r->Ok_0@.len() ==> imports_config(a.stored->Some_0@[i], #[trigger] r->Ok_0@[i]),
{
}

/// A new network has the documented starting values: named `My network`
/// on network `polaris-net` with a placeholder secret, DHCP with the
/// address `10.126.126.1/24` ready for static use, joined through the public
/// server, no lists or rules, SOCKS5 on port 1080 and the VPN portal on UDP
/// port 22022 for `10.14.14.0/24` (both off), no MTU or bandwidth limit.
pub proof fn lemma_fresh_values(p: Profile)
    requires
        is_default_profile(p),
    ensures
        p.name@ == "My network"@,
        p.network_name@ == "polaris-net"@,
        p.network_secret@ == "change-this-secret"@,
        p.hostname@.len() == 0 && p.dev_name@.len() == 0,
        p.virtual_ipv4@ == "10.126.126.1"@,
        p.network_length == 24,
        p.join_method == JoinMethod::PublicServer,
        p.public_server@ == "tcp://public.easytier.cn:11010"@,
        p.peers@.len() == 0 && p.listeners@.len() == 0 && p.mapped_listeners@.len() == 0,
        p.proxy_cidrs@.len() == 0 && p.routes@.len() == 0 && p.exit_nodes@.len() == 0,
        p.relay_network_whitelist@.len() == 0 && p.port_forwards@.len() == 0,
        p.socks5_port == 1080,
        p.vpn_portal_listen_port == 22022,
        p.vpn_portal_client_network_addr@ == "10.14.14.0"@,
        p.vpn_portal_client_network_len == 24,
        p.mtu == 0 && p.instance_recv_bps_limit == 0,
{
}

/// What an export writes: identity and flags always, the static address
/// only without DHCP, the SOCKS5 port only with SOCKS5 on, the portal's
/// settings only with the portal on, the MTU and bandwidth limit only when
/// set, the join method as EasyTier's number (0 public server, 1 manual,
/// 2 standalone), and encryption as its negation.
pub proof fn lemma_export_fields(p: Profile, nc: NetworkConfig)
    requires
        exports_profile(p, nc),
    ensures
        nc.dhcp == Some(p.dhcp),
        nc.virtual_ipv4 is Some <==> !p.dhcp,
        nc.network_length is Some <==> !p.dhcp,
        !p.dhcp ==> nc.network_length == Some(p.network_length as i32),
        nc.socks5_port is Some <==> p.enable_socks5,
        p.enable_socks5 ==> nc.socks5_port == Some(p.socks5_port as i32),
        nc.vpn_portal_listen_port is Some <==> p.enable_vpn_portal,
        nc.vpn_portal_client_network_addr is Some <==> p.enable_vpn_portal,
        nc.vpn_portal_client_network_len is Some <==> p.enable_vpn_portal,
        nc.mtu is Some <==> p.mtu > 0,
        nc.instance_recv_bps_limit is Some <==> p.instance_recv_bps_limit > 0,
        p.join_method == JoinMethod::PublicServer ==> nc.networking_method == Some(0i32),
        p.join_method == JoinMethod::Manual ==> nc.networking_method == Some(1i32),
        p.join_method == JoinMethod::Standalone ==> nc.networking_method == Some(2i32),
        nc.disable_encryption == Some(!p.enable_encryption),
        opt_view(nc.network_secret) == Some(p.network_secret@),
{
}

/// How an import reads numbers: a prefix length above 32 becomes 32, one
/// in 1..=32 is kept, and a missing or non-positive one gives 24; a missing
/// or non-positive SOCKS5 port gives 1080, a positive one is kept (cut to 16
/// bits); an empty network name makes the display name `Imported network`.
pub proof fn lemma_import_numbers(nc: NetworkConfig, p: Profile)
    requires
        imports_config(nc, p),
    ensures
        nc.network_length is None ==> p.network_length == 24,
        nc.network_length matches Some(l) ==> (l <= 0 ==> p.network_length == 24),
        nc.network_length matches Some(l) ==> (1 <= l <= 32 ==> p.network_length == l),
        nc.network_length matches Some(l) ==> (l > 32 ==> p.network_length == 32),
        nc.socks5_port is None ==> p.socks5_port == 1080,
        nc.socks5_port matches Some(q) ==> (q <= 0 ==> p.socks5_port == 1080),
        nc.socks5_port matches Some(q) ==> (1 <= q <= 65535 ==> p.socks5_port == q),
        or_empty(nc.network_name).len() == 0 ==> p.name@ == "Imported network"@,
        or_empty(nc.network_name).len() > 0 ==> p.name@ == p.network_name@,
        nc.networking_method == Some(1i32) ==> p.join_method == JoinMethod::Manual,
        nc.networking_method == Some(2i32) ==> p.join_method == JoinMethod::Standalone,
        nc.networking_method is None ==> p.join_method == JoinMethod::PublicServer,
{
    match nc.socks5_port {
        Some(q) => {
            if 1 <= q <= 65535 {
                assert((q as u16) as i32 == q) by (bit_vector)
                    requires
                        1 <= q <= 65535,
                ;
            }
        },
        None => {},
    }
}

/// A JSON import prefers Polaris's own shapes: a single Polaris profile is
/// taken as it is (with a fresh id), whatever else the text could be read as.
pub proof fn lemma_polaris_profile_wins(a: JsonAttempts, r: Result<Vec<Profile>, ImportError>, c: u64)
    requires
        json_import(a, r, c),
        a.profile is Some,
    ensures
        r is Ok,
        r->Ok_0@.len() == 1,
        same_but_id(r->Ok_0@[0], a.profile->Some_0),
        has_id(r->Ok_0@[0], c as nat),
{
    assert(counter_after(c, 0) == c as nat);
}

// ───────────────────────────── copying profiles ────────────────────────────

/// Whether two lists of port forwards hold the same rules.
pub open spec fn forwards_same(a: Seq<PortForward>, b: Seq<PortForward>) -> bool {
    &&& a.len() == b.len()
    &&& forall|i: int| 0 <= i < a.len() ==> {
        &&& (#[trigger] a[i]).proto@ == b[i].proto@
        &&& a[i].bind_ip@ == b[i].bind_ip@
        &&& a[i].bind_port == b[i].bind_port
        &&& a[i].dst_ip@ == b[i].dst_ip@
        &&& a[i].dst_port == b[i].dst_port
    }
}

/// Whether two profiles have the same settings (everything but id and name).
pub open spec fn same_settings(a: Profile, b: Profile) -> bool {
    &&& a.network_name@ == b.network_name@
    &&& a.network_secret@ == b.network_secret@
    &&& a.hostname@ == b.hostname@
    &&& a.dev_name@ == b.dev_name@
    &&& a.virtual_ipv4@ == b.virtual_ipv4@
    &&& a.public_server@ == b.public_server@
    &&& a.vpn_portal_client_network_addr@ == b.vpn_portal_client_network_addr@
    &&& views(a.peers@) == views(b.peers@)
    &&& views(a.listeners@) == views(b.listeners@)
    &&& views(a.mapped_listeners@) == views(b.mapped_listeners@)
    &&& views(a.proxy_cidrs@) == views(b.proxy_cidrs@)
    &&& views(a.routes@) == views(b.routes@)
    &&& views(a.exit_nodes@) == views(b.exit_nodes@)
    &&& views(a.relay_network_whitelist@) == views(b.relay_network_whitelist@)
    &&& forwards_same(a.port_forwards@, b.port_forwards@)
    &&& a.dhcp == b.dhcp
    &&& a.network_length == b.network_length
    &&& a.join_method == b.join_method
    &&& a.enable_socks5 == b.enable_socks5
    &&& a.socks5_port == b.socks5_port
    &&& a.enable_vpn_portal == b.enable_vpn_portal
    &&& a.vpn_portal_listen_port == b.vpn_portal_listen_port
    &&& a.vpn_portal_client_network_len == b.vpn_portal_client_network_len
    &&& a.enable_manual_routes == b.enable_manual_routes
    &&& a.enable_exit_node == b.enable_exit_node
    &&& a.enable_relay_network_whitelist == b.enable_relay_network_whitelist
    &&& a.mtu == b.mtu
    &&& a.instance_recv_bps_limit == b.instance_recv_bps_limit
    &&& a.latency_first == b.latency_first
    &&& a.enable_encryption == b.enable_encryption
    &&& a.use_smoltcp == b.use_smoltcp
    &&& a.disable_ipv6 == b.disable_ipv6
    &&& a.ipv6_public_addr_auto == b.ipv6_public_addr_auto
    &&& a.enable_kcp_proxy == b.enable_kcp_proxy
    &&& a.disable_kcp_input == b.disable_kcp_input
    &&& a.enable_quic_proxy == b.enable_quic_proxy
    &&& a.disable_quic_input == b.disable_quic_input
    &&& a.enable_udp_broadcast_relay == b.enable_udp_broadcast_relay
    &&& a.disable_p2p == b.disable_p2p
    &&& a.p2p_only == b.p2p_only
    &&& a.lazy_p2p == b.lazy_p2p
    &&& a.need_p2p == b.need_p2p
    &&& a.disable_tcp_hole_punching == b.disable_tcp_hole_punching
    &&& a.disable_udp_hole_punching == b.disable_udp_hole_punching
    &&& a.disable_sym_hole_punching == b.disable_sym_hole_punching
    &&& a.disable_upnp == b.disable_upnp
    &&& a.relay_all_peer_rpc == b.relay_all_peer_rpc
    &&& a.multi_thread == b.multi_thread
    &&& a.proxy_forward_by_system == b.proxy_forward_by_system
    &&& a.bind_device == b.bind_device
    &&& a.no_tun == b.no_tun
    &&& a.enable_magic_dns == b.enable_magic_dns
    &&& a.enable_private_mode == b.enable_private_mode
}

/// Whether two profiles agree in everything but their port-forwarding rules.
pub open spec fn same_but_forwards(a: Profile, b: Profile) -> bool {
    &&& a.id@ == b.id@
    &&& a.name@ == b.name@
    &&& a.network_name@ == b.network_name@
    &&& a.network_secret@ == b.network_secret@
    &&& a.hostname@ == b.hostname@
    &&& a.dev_name@ == b.dev_name@
    &&& a.virtual_ipv4@ == b.virtual_ipv4@
    &&& a.public_server@ == b.public_server@
    &&& a.vpn_portal_client_network_addr@ == b.vpn_portal_client_network_addr@
    &&& views(a.peers@) == views(b.peers@)
    &&& views(a.listeners@) == views(b.listeners@)
    &&& views(a.mapped_listeners@) == views(b.mapped_listeners@)
    &&& views(a.proxy_cidrs@) == views(b.proxy_cidrs@)
    &&& views(a.routes@) == views(b.routes@)
    &&& views(a.exit_nodes@) == views(b.exit_nodes@)
    &&& views(a.relay_network_whitelist@) == views(b.relay_network_whitelist@)
    &&& a.dhcp == b.dhcp
    &&& a.network_length == b.network_length
    &&& a.join_method == b.join_method
    &&& a.enable_socks5 == b.enable_socks5
    &&& a.socks5_port == b.socks5_port
    &&& a.enable_vpn_portal == b.enable_vpn_portal
    &&& a.vpn_portal_listen_port == b.vpn_portal_listen_port
    &&& a.vpn_portal_client_network_len == b.vpn_portal_client_network_len
    &&& a.enable_manual_routes == b.enable_manual_routes
    &&& a.enable_exit_node == b.enable_exit_node
    &&& a.enable_relay_network_whitelist == b.enable_relay_network_whitelist
    &&& a.mtu == b.mtu
    &&& a.instance_recv_bps_limit == b.instance_recv_bps_limit
    &&& a.latency_first == b.latency_first
    &&& a.enable_encryption == b.enable_encryption
    &&& a.use_smoltcp == b.use_smoltcp
    &&& a.disable_ipv6 == b.disable_ipv6
    &&& a.ipv6_public_addr_auto == b.ipv6_public_addr_auto
    &&& a.enable_kcp_proxy == b.enable_kcp_proxy
    &&& a.disable_kcp_input == b.disable_kcp_input
    &&& a.enable_quic_proxy == b.enable_quic_proxy
    &&& a.disable_quic_input == b.disable_quic_input
    &&& a.enable_udp_broadcast_relay == b.enable_udp_broadcast_relay
    &&& a.disable_p2p == b.disable_p2p
    &&& a.p2p_only == b.p2p_only
    &&& a.lazy_p2p == b.lazy_p2p
    &&& a.need_p2p == b.need_p2p
    &&& a.disable_tcp_hole_punching == b.disable_tcp_hole_punching
    &&& a.disable_udp_hole_punching == b.disable_udp_hole_punching
    &&& a.disable_sym_hole_punching == b.disable_sym_hole_punching
    &&& a.disable_upnp == b.disable_upnp
    &&& a.relay_all_peer_rpc == b.relay_all_peer_rpc
    &&& a.multi_thread == b.multi_thread
    &&& a.proxy_forward_by_system == b.proxy_forward_by_system
    &&& a.bind_device == b.bind_device
    &&& a.no_tun == b.no_tun
    &&& a.enable_magic_dns == b.enable_magic_dns
    &&& a.enable_private_mode == b.enable_private_mode

}

/// Whether two profiles agree in everything but their id.
pub open spec fn same_but_id(a: Profile, b: Profile) -> bool {
    a.name@ == b.name@ && same_settings(a, b)
}

fn copy_forwards(v: &Vec<PortForward>) -> (r: Vec<PortForward>)
    ensures
        forwards_same(r@, v@),
{
    let mut r: Vec<PortForward> = Vec::new();
    let mut i: usize = 0;
    while i < v.len()
        invariant
            i <= v.len(),
            r@.len() == i,
            forall|j: int| 0 <= j < i ==> {
                &&& (#[trigger] r@[j]).proto@ == v@[j].proto@
                &&& r@[j].bind_ip@ == v@[j].bind_ip@
                &&& r@[j].bind_port == v@[j].bind_port
                &&& r@[j].dst_ip@ == v@[j].dst_ip@
                &&& r@[j].dst_port == v@[j].dst_port
            },
        decreases v.len() - i,
    {
        let f = &v[i];
        r.push(
            PortForward {
                proto: copy_string(&f.proto),
                bind_ip: copy_string(&f.bind_ip),
                bind_port: f.bind_port,
                dst_ip: copy_string(&f.dst_ip),
                dst_port: f.dst_port,
            },
        );
        i = i + 1;
    }
    r
}

impl Profile {
    /// A field-by-field copy of this profile.
    pub fn copy(&self) -> (r: Profile)
        ensures
            same_but_id(r, *self),
            r.id@ == self.id@,
    {
        Profile {
            id: copy_string(&self.id),
            name: copy_string(&self.name),
            network_name: copy_string(&self.network_name),
            network_secret: copy_string(&self.network_secret),
            hostname: copy_string(&self.hostname),
            dev_name: copy_string(&self.dev_name),
            virtual_ipv4: copy_string(&self.virtual_ipv4),
            public_server: copy_string(&self.public_server),
            vpn_portal_client_network_addr: copy_string(&self.vpn_portal_client_network_addr),
            peers: copy_strings(&self.peers),
            listeners: copy_strings(&self.listeners),
            mapped_listeners: copy_strings(&self.mapped_listeners),
            proxy_cidrs: copy_strings(&self.proxy_cidrs),
            routes: copy_strings(&self.routes),
            exit_nodes: copy_strings(&self.exit_nodes),
            relay_network_whitelist: copy_strings(&self.relay_network_whitelist),
            port_forwards: copy_forwards(&self.port_forwards),
            dhcp: self.dhcp,
            network_length: self.network_length,
            join_method: self.join_method,
            enable_socks5: self.enable_socks5,
            socks5_port: self.socks5_port,
            enable_vpn_portal: self.enable_vpn_portal,
            vpn_portal_listen_port: self.vpn_portal_listen_port,
            vpn_portal_client_network_len: self.vpn_portal_client_network_len,
            enable_manual_routes: self.enable_manual_routes,
            enable_exit_node: self.enable_exit_node,
            enable_relay_network_whitelist: self.enable_relay_network_whitelist,
            mtu: self.mtu,
            instance_recv_bps_limit: self.instance_recv_bps_limit,
            latency_first: self.latency_first,
            enable_encryption: self.enable_encryption,
            use_smoltcp: self.use_smoltcp,
            disable_ipv6: self.disable_ipv6,
            ipv6_public_addr_auto: self.ipv6_public_addr_auto,
            enable_kcp_proxy: self.enable_kcp_proxy,
            disable_kcp_input: self.disable_kcp_input,
            enable_quic_proxy: self.enable_quic_proxy,
            disable_quic_input: self.disable_quic_input,
            enable_udp_broadcast_relay: self.enable_udp_broadcast_relay,
            disable_p2p: self.disable_p2p,
            p2p_only: self.p2p_only,
            lazy_p2p: self.lazy_p2p,
            need_p2p: self.need_p2p,
            disable_tcp_hole_punching: self.disable_tcp_hole_punching,
            disable_udp_hole_punching: self.disable_udp_hole_punching,
            disable_sym_hole_punching: self.disable_sym_hole_punching,
            disable_upnp: self.disable_upnp,
            relay_all_peer_rpc: self.relay_all_peer_rpc,
            multi_thread: self.multi_thread,
            proxy_forward_by_system: self.proxy_forward_by_system,
            bind_device: self.bind_device,
            no_tun: self.no_tun,
            enable_magic_dns: self.enable_magic_dns,
            enable_private_mode: self.enable_private_mode,
        }
    }
}

// ─────────────────────────── Settings & Store ─────────────────────────────

/// UI preferences.
#[derive(Clone, Copy, PartialEq, Eq, Debug, Structural)]
pub struct Settings {
    pub theme: Theme,
    pub material: Material,
    pub tall_titlebar: bool,
    pub auto_connect: bool,
    /// Closing the window hides Polaris to the tray instead of quitting.
    pub close_to_tray: bool,
    /// Minimizing the window hides Polaris to the tray instead of the taskbar.
    pub minimize_to_tray: bool,
    /// Request UAC elevation on launch so the VPN (TUN) adapter can be created.
    pub always_admin: bool,
    /// Collect logs and surface the Diagnostics panel in the sidebar.
    pub diagnostics_enabled: bool,
    /// Log verbosity while diagnostics are enabled.
    pub log_level: LogLevel,
    /// Delete log files older than this many days (run on startup).
    pub log_retention_days: u32,
    /// UI language; `System` follows the OS locale (English unless Chinese).
    pub language: crate::i18n::Language,
}

/// The preferences of a fresh installation.
pub open spec fn default_settings() -> Settings {
    Settings {
        theme: Theme::System,
        material: Material::Mica,
        tall_titlebar: true,
        auto_connect: false,
        close_to_tray: true,
        minimize_to_tray: false,
        always_admin: false,
        diagnostics_enabled: false,
        log_level: LogLevel::Info,
        log_retention_days: 7,
        language: crate::i18n::Language::System,
    }
}

impl Default for Settings {
    fn default() -> (r: Settings)
        ensures
            r == default_settings(),
    {
        Settings {
            theme: Theme::System,
            material: Material::Mica,
            tall_titlebar: true,
            auto_connect: false,
            close_to_tray: default_true(),
            minimize_to_tray: false,
            always_admin: false,
            diagnostics_enabled: false,
            log_level: default_log_level(),
            log_retention_days: default_log_retention(),
            language: crate::i18n::Language::System,
        }
    }
}

/// Everything that is persisted.
#[derive(Clone, PartialEq, Debug)]
pub struct Store {
    pub profiles: Vec<Profile>,
    pub selected: usize,
    pub settings: Settings,
}

/// Why profiles or a backup could not be imported.
#[derive(Clone, PartialEq, Eq, Debug)]
pub enum ImportError {
    /// The pasted text is blank ("clipboard is empty").
    Empty,
    /// The text is not a store ("not a Polaris backup: ..."), with the parser's message.
    NotBackup(String),
    /// The backup holds no networks.
    NoNetworks,
    /// The text is not an EasyTier TOML config, with the parser's message.
    Toml(String),
    /// The text is JSON of no known shape, with the parser's message.
    Json(String),
}

/// The message shown for an import error.
pub open spec fn import_error_text(e: ImportError) -> Seq<char> {
    match e {
        ImportError::Empty => "clipboard is empty"@,
        ImportError::NotBackup(m) => "not a Polaris backup: "@ + m@,
        ImportError::NoNetworks => "backup contains no networks"@,
        ImportError::Toml(m) => m@,
        ImportError::Json(m) => m@,
    }
}

impl ImportError {
    /// The message shown to the user.
    pub fn message(&self) -> (r: String)
        ensures
            r@ == import_error_text(*self),
    {
        match self {
            ImportError::Empty => owned("clipboard is empty"),
            ImportError::NotBackup(m) => {
                let mut s = owned("not a Polaris backup: ");
                push_str(&mut s, m.as_str());
                s
            },
            ImportError::NoNetworks => owned("backup contains no networks"),
            ImportError::Toml(m) => copy_string(m),
            ImportError::Json(m) => copy_string(m),
        }
    }
}

/// The counter value after `k` steps from `c`, each step a wrapping `+ 1`.
pub open spec fn counter_after(c: u64, k: nat) -> nat {
    (c as nat + k) % 0x1_0000_0000_0000_0000
}

/// Whether `p` carries an id made with counter value `n`.
pub open spec fn has_id(p: Profile, n: nat) -> bool {
    exists|t: u128| p.id@ == id_text(t as nat, n)
}

/// Whether `new` is `old` with every profile given a fresh id, in order,
/// from a generator whose counter stood at `c`.
pub open spec fn rekeyed(old: Seq<Profile>, new: Seq<Profile>, c: u64) -> bool {
    &&& new.len() == old.len()
    &&& forall|i: int| 0 <= i < new.len() ==> same_but_id(#[trigger] new[i], old[i])
    &&& forall|i: int| 0 <= i < new.len() ==> has_id(#[trigger] new[i], counter_after(c, i as nat))
}

/// Whether `ps` are the profiles made from `ncs`, in order, with fresh ids
/// from a generator whose counter stood at `c`.
pub open spec fn imported_all(ncs: Seq<NetworkConfig>, ps: Seq<Profile>, c: u64) -> bool {
    &&& ps.len() == ncs.len()
    &&& forall|i: int| 0 <= i < ps.len() ==> imports_config(ncs[i], #[trigger] ps[i])
    &&& forall|i: int| 0 <= i < ps.len() ==> has_id(#[trigger] ps[i], counter_after(c, i as nat))
}

/// Profiles given fresh ids in one pass ([`rekeyed`], [`imported_all`]) carry
/// pairwise distinct ids, for a pass of at most 2^64 profiles (the period of
/// the wrapping counter).
pub proof fn lemma_fresh_ids_distinct(ps: Seq<Profile>, c: u64, i: int, j: int)
    requires
        ps.len() <= 0x1_0000_0000_0000_0000,
        forall|k: int| 0 <= k < ps.len() ==> has_id(#[trigger] ps[k], counter_after(c, k as nat)),
        0 <= i < j < ps.len(),
    ensures
        ps[i].id@ != ps[j].id@,
{
    let a = c as int + i;
    let b = c as int + j;
    assert(a % 0x1_0000_0000_0000_0000 != b % 0x1_0000_0000_0000_0000) by (nonlinear_arith)
        requires
            0 <= a,
            0 < b - a < 0x1_0000_0000_0000_0000,
    {
        vstd::arithmetic::div_mod::lemma_fundamental_div_mod(a, 0x1_0000_0000_0000_0000);
        vstd::arithmetic::div_mod::lemma_fundamental_div_mod(b, 0x1_0000_0000_0000_0000);
    }
    assert(has_id(ps[i], counter_after(c, i as nat)));
    assert(has_id(ps[j], counter_after(c, j as nat)));
    let ti = choose|t: u128| ps[i].id@ == #[trigger] id_text(t as nat, counter_after(c, i as nat));
    let tj = choose|t: u128| ps[j].id@ == #[trigger] id_text(t as nat, counter_after(c, j as nat));
    lemma_ids_distinct(ti as nat, counter_after(c, i as nat), tj as nat, counter_after(c, j as nat));
}

proof fn lemma_counter_step(c: u64, k: nat)
    ensures
        (counter_after(c, k) as u64).wrapping_add(1) == counter_after(c, k + 1),
        counter_after(c, k) < 0x1_0000_0000_0000_0000,
{
}

/// Gives every profile a fresh id, keeping everything else.
fn rekey(profiles: Vec<Profile>, ids: &mut IdGen) -> (r: Vec<Profile>)
    ensures
        rekeyed(profiles@, r@, old(ids).counter),
        final(ids).counter == counter_after(old(ids).counter, profiles@.len()),
{
    let ghost c = ids.counter;
    let ghost orig = profiles@;
    let mut rest = profiles;
    let mut out: Vec<Profile> = Vec::new();
    while rest.len() > 0
        invariant
            out@.len() + rest@.len() == orig.len(),
            rest@ == orig.subrange(out@.len() as int, orig.len() as int),
            forall|i: int| 0 <= i < out@.len() ==> same_but_id(#[trigger] out@[i], orig[i]),
            forall|i: int| 0 <= i < out@.len() ==> has_id(#[trigger] out@[i], counter_after(c, i as nat)),
            ids.counter == counter_after(c, out@.len() as nat),
        decreases rest@.len(),
    {
        let mut p = rest.remove(0);
        let ghost k = out@.len();
        proof {
            lemma_counter_step(c, k as nat);
            assert(p == orig[k as int]);
        }
        p.id = gen_id(ids);
        out.push(p);
        proof {
            assert(has_id(out@[k as int], counter_after(c, k as nat)));
            assert(rest@ =~= orig.subrange(out@.len() as int, orig.len() as int));
        }
    }
    out
}

/// Makes profiles from EasyTier configs, in order, each with a fresh id.
fn import_configs(ncs: &Vec<NetworkConfig>, ids: &mut IdGen) -> (r: Vec<Profile>)
    ensures
        imported_all(ncs@, r@, old(ids).counter),
        final(ids).counter == counter_after(old(ids).counter, ncs@.len()),
{
    let ghost c = ids.counter;
    let mut out: Vec<Profile> = Vec::new();
    let mut i: usize = 0;
    while i < ncs.len()
        invariant
            i <= ncs.len(),
            out@.len() == i,
            forall|j: int| 0 <= j < i ==> imports_config(ncs@[j], #[trigger] out@[j]),
            forall|j: int| 0 <= j < i ==> has_id(#[trigger] out@[j], counter_after(c, j as nat)),
            ids.counter == counter_after(c, i as nat),
        decreases ncs.len() - i,
    {
        proof {
            lemma_counter_step(c, i as nat);
        }
        let p = Profile::from_network_config(&ncs[i], ids);
        out.push(p);
        proof {
            assert(has_id(out@[i as int], counter_after(c, i as nat)));
        }
        i = i + 1;
    }
    out
}

/// Whether `s` is usable: it holds at least one profile and selects one of them.
pub open spec fn store_wf(s: Store) -> bool {
    s.profiles@.len() > 0 && s.selected < s.profiles@.len()
}

/// The index that `selected` comes to once clamped to `len` profiles.
pub open spec fn clamp_index(selected: usize, len: nat) -> usize {
    if selected < len { selected } else { (len - 1) as usize }
}

impl Store {
    /// One default profile, selected, with default settings.
    pub fn fresh(ids: &mut IdGen) -> (r: Store)
        ensures
            store_wf(r),
            r.profiles@.len() == 1,
            is_default_profile(r.profiles@[0]),
            has_id(r.profiles@[0], old(ids).counter as nat),
            r.selected == 0,
            r.settings == default_settings(),
            final(ids).counter == old(ids).counter.wrapping_add(1),
    {
        let p = Profile::fresh(ids);
        let mut profiles: Vec<Profile> = Vec::new();
        profiles.push(p);
        Store { profiles, selected: 0, settings: Settings::default() }
    }

    /// The store to use after reading the saved one (`None` when it could not
    /// be read or parsed): defaults replace a missing store, a default profile
    /// fills an empty one, and the selection is clamped to the profiles.
    pub fn load(parsed: Option<Store>, ids: &mut IdGen) -> (r: Store)
        ensures
            store_wf(r),
            match parsed {
                None => {
                    &&& r.profiles@.len() == 1
                    &&& is_default_profile(r.profiles@[0])
                    &&& has_id(r.profiles@[0], old(ids).counter as nat)
                    &&& r.selected == 0
                    &&& r.settings == default_settings()
                },
                Some(s) => {
                    &&& r.settings == s.settings
                    &&& if s.profiles@.len() == 0 {
                        &&& r.profiles@.len() == 1
                        &&& is_default_profile(r.profiles@[0])
                        &&& has_id(r.profiles@[0], old(ids).counter as nat)
                        &&& r.selected == 0
                    } else {
                        &&& r.profiles@ == s.profiles@
                        &&& r.selected == clamp_index(s.selected, s.profiles@.len())
                    }
                },
            },
    {
        match parsed {
            None => Store::fresh(ids),
            Some(s) => {
                let mut store = s;
                if store.profiles.len() == 0 {
                    store.profiles.push(Profile::fresh(ids));
                }
                let last = store.profiles.len() - 1;
                if store.selected > last {
                    store.selected = last;
                }
                store
            },
        }
    }

    /// The selected profile (the last one when the selection is past the end).
    pub fn current(&self) -> (r: &Profile)
        requires
            self.profiles@.len() > 0,
        ensures
            *r == self.profiles@[clamp_index(self.selected, self.profiles@.len()) as int],
    {
        let last = self.profiles.len() - 1;
        let i = if self.selected < last { self.selected } else { last };
        &self.profiles[i]
    }

    /// Adds a default profile named `Network <count>` and selects it.
    pub fn add_network(&mut self, ids: &mut IdGen)
        requires
            old(self).profiles@.len() < usize::MAX,
        ensures
            final(self).profiles@.len() == old(self).profiles@.len() + 1,
            final(self).profiles@.drop_last() == old(self).profiles@,
            default_profile_settings(final(self).profiles@.last()),
            final(self).profiles@.last().name@ == "Network "@ + decimal(
                old(self).profiles@.len() + 1,
            ),
            has_id(final(self).profiles@.last(), old(ids).counter as nat),
            final(self).selected == old(self).profiles@.len(),
            final(self).settings == old(self).settings,
            store_wf(*final(self)),
            final(ids).counter == old(ids).counter.wrapping_add(1),
    {
        let n = self.profiles.len();
        let mut p = Profile::fresh(ids);
        let mut name = owned("Network ");
        push_decimal(&mut name, (n + 1) as u64);
        p.name = name;
        self.profiles.push(p);
        self.selected = n;
        proof {
            assert(final(self).profiles@.drop_last() =~= old(self).profiles@);
        }
    }

    /// Copies the selected profile, with a fresh id and ` (copy)` after its
    /// name, and selects the copy.
    pub fn duplicate_current(&mut self, ids: &mut IdGen)
        requires
            old(self).profiles@.len() > 0,
        ensures
            final(self).profiles@.len() == old(self).profiles@.len() + 1,
            final(self).profiles@.drop_last() == old(self).profiles@,
            same_settings(
                final(self).profiles@.last(),
                old(self).profiles@[clamp_index(old(self).selected, old(self).profiles@.len()) as int],
            ),
            final(self).profiles@.last().name@ == old(self).profiles@[clamp_index(
                old(self).selected,
                old(self).profiles@.len(),
            ) as int].name@ + " (copy)"@,
            has_id(final(self).profiles@.last(), old(ids).counter as nat),
            final(self).selected == old(self).profiles@.len(),
            final(self).settings == old(self).settings,
            store_wf(*final(self)),
            final(ids).counter == old(ids).counter.wrapping_add(1),
    {
        let mut p = self.current().copy();
        p.id = gen_id(ids);
        push_str(&mut p.name, " (copy)");
        let n = self.profiles.len();
        self.profiles.push(p);
        self.selected = n;
        proof {
            assert(final(self).profiles@.drop_last() =~= old(self).profiles@);
        }
    }

    /// Deletes the profile at `idx`, unless it is the only one or `idx` is
    /// past the end; returns whether it was deleted. The selection is
    /// clamped to the remaining profiles.
    pub fn delete_network(&mut self, idx: usize) -> (deleted: bool)
        ensures
            deleted == (old(self).profiles@.len() > 1 && idx < old(self).profiles@.len()),
            deleted ==> final(self).profiles@ == old(self).profiles@.remove(idx as int),
            deleted ==> final(self).selected == clamp_index(
                old(self).selected,
                (old(self).profiles@.len() - 1) as nat,
            ),
            !deleted ==> *final(self) == *old(self),
            final(self).settings == old(self).settings,
            store_wf(*old(self)) ==> store_wf(*final(self)),
    {
        if self.profiles.len() > 1 && idx < self.profiles.len() {
            self.profiles.remove(idx);
            let last = self.profiles.len() - 1;
            if self.selected > last {
                self.selected = last;
            }
            true
        } else {
            false
        }
    }

    /// Appends imported profiles and selects the first of them; does nothing
    /// when there are none. Returns whether anything was added.
    pub fn append_profiles(&mut self, profiles: Vec<Profile>) -> (added: bool)
        ensures
            added == (profiles@.len() > 0),
            added ==> final(self).profiles@ == old(self).profiles@ + profiles@,
            added ==> final(self).selected == old(self).profiles@.len(),
            !added ==> *final(self) == *old(self),
            final(self).settings == old(self).settings,
            store_wf(*old(self)) ==> store_wf(*final(self)),
    {
        if profiles.len() == 0 {
            return false;
        }
        let first = self.profiles.len();
        let mut rest = profiles;
        self.profiles.append(&mut rest);
        self.selected = first;
        true
    }
}


// ───────────────────────────── import & restore ────────────────────────────

/// Checks a parsed backup for "Restore backup": a text that is not a store is
/// refused, as is a store without networks; otherwise every profile gets a
/// fresh id (so a restored network cannot collide with one still running
/// under an old id) and the selection is clamped.
pub fn parse_backup(parsed: Result<Store, String>, ids: &mut IdGen) -> (r: Result<Store, ImportError>)
    ensures
        match parsed {
            Err(e) => r == Err::<Store, ImportError>(ImportError::NotBackup(e)) && final(ids).counter == old(ids).counter,
            Ok(s) => if s.profiles@.len() == 0 {
                r == Err::<Store, ImportError>(ImportError::NoNetworks) && final(ids).counter == old(ids).counter
            } else {
                &&& r is Ok
                &&& rekeyed(s.profiles@, r->Ok_0.profiles@, old(ids).counter)
                &&& r->Ok_0.selected == clamp_index(s.selected, s.profiles@.len())
                &&& r->Ok_0.settings == s.settings
                &&& store_wf(r->Ok_0)
                &&& final(ids).counter == counter_after(old(ids).counter, s.profiles@.len())
            },
        },
{
    match parsed {
        Err(e) => Err(ImportError::NotBackup(e)),
        Ok(s) => {
            if s.profiles.len() == 0 {
                return Err(ImportError::NoNetworks);
            }
            let Store { profiles, selected, settings } = s;
            let profiles = rekey(profiles, ids);
            let last = profiles.len() - 1;
            let selected = if selected < last { selected } else { last };
            Ok(Store { profiles, selected, settings })
        },
    }
}

/// The outcomes of reading one JSON text as each shape that an import
/// accepts, in the order they are tried.
pub struct JsonAttempts {
    /// As one Polaris profile.
    pub profile: Option<Profile>,
    /// As a list of Polaris profiles.
    pub profiles: Option<Vec<Profile>>,
    /// As a Polaris store (a full backup).
    pub store: Option<Store>,
    /// As the official GUI's list of `{ "config": NetworkConfig, ... }` records.
    pub stored: Option<Vec<NetworkConfig>>,
    /// As a list of EasyTier `NetworkConfig`s.
    pub configs: Option<Vec<NetworkConfig>>,
    /// As one EasyTier `NetworkConfig`, or the parser's message.
    pub config: Result<NetworkConfig, String>,
}

/// Whether `r` is what a JSON import makes of `a` with ids from a generator
/// whose counter stood at `c`: Polaris profiles first (re-keyed, since an
/// import adds networks and never adopts a live id), then a non-empty list
/// of them, then a backup's non-empty networks, then the GUI's records, a
/// list of configs, and finally a single config.
pub open spec fn json_import(a: JsonAttempts, r: Result<Vec<Profile>, ImportError>, c: u64) -> bool {
    if a.profile is Some {
        r is Ok && rekeyed(seq![a.profile->Some_0], r->Ok_0@, c)
    } else if a.profiles is Some && a.profiles->Some_0@.len() > 0 {
        r is Ok && rekeyed(a.profiles->Some_0@, r->Ok_0@, c)
    } else if a.store is Some && a.store->Some_0.profiles@.len() > 0 {
        r is Ok && rekeyed(a.store->Some_0.profiles@, r->Ok_0@, c)
    } else if a.stored is Some && a.stored->Some_0@.len() > 0 {
        r is Ok && imported_all(a.stored->Some_0@, r->Ok_0@, c)
    } else if a.configs is Some && a.configs->Some_0@.len() > 0 {
        r is Ok && imported_all(a.configs->Some_0@, r->Ok_0@, c)
    } else {
        match a.config {
            Ok(nc) => r is Ok && imported_all(seq![nc], r->Ok_0@, c),
            Err(e) => r == Err::<Vec<Profile>, ImportError>(ImportError::Json(e)),
        }
    }
}

/// Profiles from a JSON text produced by Polaris or the official EasyTier GUI.
pub fn parse_json_configs(a: JsonAttempts, ids: &mut IdGen) -> (r: Result<Vec<Profile>, ImportError>)
    ensures
        json_import(a, r, old(ids).counter),
{
    let JsonAttempts { profile, profiles, store, stored, configs, config } = a;
    if let Some(p) = profile {
        let mut v: Vec<Profile> = Vec::new();
        v.push(p);
        proof {
            assert(v@ =~= seq![a.profile->Some_0]);
        }
        return Ok(rekey(v, ids));
    }
    if let Some(v) = profiles {
        if v.len() > 0 {
            return Ok(rekey(v, ids));
        }
    }
    if let Some(s) = store {
        if s.profiles.len() > 0 {
            return Ok(rekey(s.profiles, ids));
        }
    }
    if let Some(arr) = stored {
        if arr.len() > 0 {
            return Ok(import_configs(&arr, ids));
        }
    }
    if let Some(arr) = configs {
        if arr.len() > 0 {
            return Ok(import_configs(&arr, ids));
        }
    }
    match config {
        Ok(nc) => {
            let mut v: Vec<NetworkConfig> = Vec::new();
            v.push(nc);
            proof {
                assert(v@ =~= seq![a.config->Ok_0]);
            }
            Ok(import_configs(&v, ids))
        },
        Err(e) => Err(ImportError::Json(e)),
    }
}

/// Whether `r` is what an EasyTier TOML import makes of a parse outcome.
pub open spec fn toml_import(parsed: Result<NetworkConfig, String>, r: Result<Vec<Profile>, ImportError>, c: u64) -> bool {
    match parsed {
        Ok(nc) => r is Ok && imported_all(seq![nc], r->Ok_0@, c),
        Err(e) => r == Err::<Vec<Profile>, ImportError>(ImportError::Toml(e)),
    }
}

/// The profile of an EasyTier TOML config (given as its parse outcome).
pub fn parse_toml_config(parsed: Result<NetworkConfig, String>, ids: &mut IdGen) -> (r: Result<Vec<Profile>, ImportError>)
    ensures
        toml_import(parsed, r, old(ids).counter),
{
    match parsed {
        Ok(nc) => {
            let mut v: Vec<NetworkConfig> = Vec::new();
            v.push(nc);
            proof {
                assert(v@ =~= seq![parsed->Ok_0]);
            }
            Ok(import_configs(&v, ids))
        },
        Err(e) => Err(ImportError::Toml(e)),
    }
}

/// Whether a text, once its leading whitespace is dropped, opens a JSON
/// object or array.
pub open spec fn looks_like_json(s: Seq<char>) -> bool {
    let t = crate::text::trim_start_seq(s);
    t.len() > 0 && (t[0] == '{' || t[0] == '[')
}

/// Whether `a` holds no shape that a JSON import accepts: every attempt
/// failed or found no networks.
pub open spec fn json_fails(a: JsonAttempts) -> bool {
    &&& a.profile is None
    &&& (a.profiles is None || a.profiles->Some_0@.len() == 0)
    &&& (a.store is None || a.store->Some_0.profiles@.len() == 0)
    &&& (a.stored is None || a.stored->Some_0@.len() == 0)
    &&& (a.configs is None || a.configs->Some_0@.len() == 0)
    &&& a.config is Err
}

fn json_fails_exec(a: &JsonAttempts) -> (r: bool)
    ensures
        r == json_fails(*a),
{
    let profiles_empty = match &a.profiles {
        Some(v) => v.len() == 0,
        None => true,
    };
    let store_empty = match &a.store {
        Some(st) => st.profiles.len() == 0,
        None => true,
    };
    let stored_empty = match &a.stored {
        Some(v) => v.len() == 0,
        None => true,
    };
    let configs_empty = match &a.configs {
        Some(v) => v.len() == 0,
        None => true,
    };
    a.profile.is_none() && profiles_empty && store_empty && stored_empty && configs_empty && a.config.is_err()
}

/// Profiles from pasted config text, auto-detecting JSON vs the EasyTier
/// TOML format. `json` and `toml` are the outcomes of parsing `text` each way.
/// Text that opens like JSON (`{` or `[`) is read as JSON; when no JSON shape
/// fits it (a TOML config may open with a `[table]` header) it is read as
/// TOML, and only when that fails too is it refused, with the JSON error.
/// Any other text is read as TOML.
pub fn parse_profiles_from_text(
    text: &str,
    json: JsonAttempts,
    toml: Result<NetworkConfig, String>,
    ids: &mut IdGen,
) -> (r: Result<Vec<Profile>, ImportError>)
    ensures
        is_blank(text@) ==> r == Err::<Vec<Profile>, ImportError>(ImportError::Empty),
        !is_blank(text@) && looks_like_json(text@) && !json_fails(json) ==> json_import(json, r, old(ids).counter),
        !is_blank(text@) && looks_like_json(text@) && json_fails(json) && toml is Ok ==> toml_import(
            toml,
            r,
            old(ids).counter,
        ),
        !is_blank(text@) && looks_like_json(text@) && json_fails(json) && toml is Err ==> r == Err::<
            Vec<Profile>,
            ImportError,
        >(ImportError::Json(json.config->Err_0)),
        !is_blank(text@) && !looks_like_json(text@) ==> toml_import(toml, r, old(ids).counter),
{
    if blank(text) {
        return Err(ImportError::Empty);
    }
    let t = crate::text::trim_start_chars(text);
    if t.len() > 0 && (t[0] == '{' || t[0] == '[') {
        if !json_fails_exec(&json) {
            parse_json_configs(json, ids)
        } else if toml.is_ok() {
            parse_toml_config(toml, ids)
        } else {
            Err(ImportError::Json(json.config.unwrap_err()))
        }
    } else {
        parse_toml_config(toml, ids)
    }
}

/// Profiles from a `.toml` or `.json` file produced by Polaris or the official
/// EasyTier GUI: the extension, in any case, picks the format.
pub fn import_profiles(
    ext: &str,
    json: JsonAttempts,
    toml: Result<NetworkConfig, String>,
    ids: &mut IdGen,
) -> (r: Result<Vec<Profile>, ImportError>)
    ensures
        crate::text::ascii_lower_seq(ext@) == "json"@ ==> json_import(json, r, old(ids).counter),
        crate::text::ascii_lower_seq(ext@) != "json"@ ==> toml_import(toml, r, old(ids).counter),
{
    let e = crate::text::chars_of(ext);
    let is_json = e.len() == 4 && crate::text::to_ascii_lower(e[0]) == 'j' && crate::text::to_ascii_lower(e[1]) == 's'
        && crate::text::to_ascii_lower(e[2]) == 'o' && crate::text::to_ascii_lower(e[3]) == 'n';
    proof {
        reveal_strlit("json");
        let l = crate::text::ascii_lower_seq(ext@);
        if is_json {
            assert(l =~= "json"@);
        } else if l == "json"@ {
            assert(l.len() == 4);
            assert(e@.len() == 4);
            assert(l[0] == crate::text::ascii_lower(e@[0]));
            assert(l[1] == crate::text::ascii_lower(e@[1]));
            assert(l[2] == crate::text::ascii_lower(e@[2]));
            assert(l[3] == crate::text::ascii_lower(e@[3]));
            assert(l[0] == 'j' && l[1] == 's' && l[2] == 'o' && l[3] == 'n');
        }
    }
    if is_json {
        parse_json_configs(json, ids)
    } else {
        parse_toml_config(toml, ids)
    }
}

} // verus!
