use polaris_et::config::NetworkConfig;
use polaris_et::engine::{
    bare_net, human_bytes, nat_debug_name, net_snapshot, net_snapshot_unavailable, prepare_start,
    pretty_event, pretty_nat, publish, sort_peers, ConnStats, NatType, NetSnapshot, NodeInfo,
    PeerConn, PeerInfo, PeerRoutePair, PeerRow, Route, RunningInfo, Snapshot, Status,
};
use polaris_et::i18n::{Language, Translator};
use polaris_et::tray::tooltip;

/// The byte formatting as done with floating point: divide by 1024 while the
/// value is at least 1024 (up to TB) and print one decimal.
fn float_reference(n: u64) -> String {
    let units = ["B", "KB", "MB", "GB", "TB"];
    let mut v = n as f64;
    let mut i = 0;
    while v >= 1024.0 && i < units.len() - 1 {
        v /= 1024.0;
        i += 1;
    }
    if i == 0 {
        format!("{n} B")
    } else {
        format!("{v:.1} {}", units[i])
    }
}

#[test]
fn human_bytes_exact_values() {
    assert_eq!(human_bytes(0), "0 B");
    assert_eq!(human_bytes(1023), "1023 B");
    assert_eq!(human_bytes(1024), "1.0 KB");
    assert_eq!(human_bytes(1536), "1.5 KB");
    assert_eq!(human_bytes(1_048_576), "1.0 MB");
    assert_eq!(human_bytes(5 * 1024 * 1024 * 1024), "5.0 GB");
    assert_eq!(human_bytes(1u64 << 40), "1.0 TB");
    assert_eq!(human_bytes(u64::MAX), "16777216.0 TB");
}

#[test]
fn human_bytes_rounding_boundary_stays_in_unit() {
    // Just under 1 MB rounds to 1024.0 KB, not 1.0 MB.
    assert_eq!(human_bytes(1_048_575), "1024.0 KB");
}

#[test]
fn human_bytes_agrees_with_float_formatting() {
    let mut samples: Vec<u64> = vec![
        1024, 1075, 1126, 1177, 1280, 1331, 1434, 1587, 1638, 1741, 1843, 1946, 2047, 2048, 2355,
        10_240, 99_999, 123_456_789, 987_654_321_012, 1_125_899_906_842_624,
        9_007_199_254_740_993, 18_014_398_509_481_985, u64::MAX - 1,
    ];
    // Exact ties of the first decimal in every unit.
    for unit in [1u64 << 10, 1 << 20, 1 << 30, 1 << 40] {
        for k in [1u64, 3, 5, 7, 9, 11, 13, 15, 21, 25] {
            samples.push(unit + unit / 20 * k);
            samples.push(unit * k + unit / 4);
            samples.push(unit * k + unit / 4 * 3);
        }
    }
    let mut x: u64 = 0x9E37_79B9_7F4A_7C15;
    for _ in 0..2000 {
        x ^= x << 13;
        x ^= x >> 7;
        x ^= x << 17;
        samples.push(x >> (x % 64));
    }
    for n in samples {
        assert_eq!(human_bytes(n), float_reference(n), "n = {n}");
    }
}

#[test]
fn nat_labels() {
    assert_eq!(pretty_nat(NatType::NoPat), "No PAT");
    assert_eq!(pretty_nat(NatType::SymUdpFirewall), "Symmetric UDP Firewall");
    assert_eq!(pretty_nat(NatType::Unknown), "Unknown");
    assert_eq!(nat_debug_name(NatType::PortRestricted), "PortRestricted");
    assert_eq!(nat_debug_name(NatType::SymmetricEasyDec), "SymmetricEasyDec");
}

#[test]
fn status_labels() {
    assert_eq!(Status::Connected.label(), "Connected");
    assert_eq!(Status::Connecting.label(), "Connecting…");
    assert_eq!(Status::Disconnected.label(), "Disconnected");
    assert_eq!(Status::Error.label(), "Error");
}

#[test]
fn event_with_variant_object_shows_time_name_and_detail() {
    let raw = r#"{"time":"2024-05-06T07:08:09.123+08:00","event":{"PeerAdded":{"peer_id":42}}}"#;
    assert_eq!(pretty_event(raw), r#"07:08:09  PeerAdded  {"peer_id":42}"#);
}

#[test]
fn event_with_string_variant_has_no_detail() {
    let raw = r#"{"time":"2024-05-06T07:08:09Z","event":"Started"}"#;
    assert_eq!(pretty_event(raw), "07:08:09  Started");
}

#[test]
fn event_without_time_or_variant() {
    assert_eq!(pretty_event(r#"{"other":1}"#), "  Event");
    assert_eq!(pretty_event(r#"{"time":"12:00","event":{}}"#), "  Event");
    assert_eq!(pretty_event(r#"{"time":5,"event":3}"#), "  Event");
}

#[test]
fn event_time_off_a_char_boundary_is_dropped() {
    let raw = r#"{"time":"ééééééT03:04:05","event":"X"}"#;
    assert_eq!(pretty_event(raw), "  X");
}

#[test]
fn event_object_uses_its_first_member_in_key_order() {
    let raw = r#"{"event":{"b":1,"a":[true,null]}}"#;
    assert_eq!(pretty_event(raw), "  a  [true,null]");
}

#[test]
fn non_json_event_is_shown_raw() {
    assert_eq!(pretty_event("plain text event"), "plain text event");
    assert_eq!(pretty_event(""), "");
}

#[test]
fn long_event_detail_is_cut_at_160_chars() {
    let long = "x".repeat(300);
    let raw = format!(r#"{{"event":{{"Msg":"{long}"}}}}"#);
    let out = pretty_event(&raw);
    let detail: String = format!("\"{long}\"").chars().take(160).collect();
    assert_eq!(out, format!("  Msg  {detail}…"));
    let short = "y".repeat(158);
    let raw = format!(r#"{{"event":{{"Msg":"{short}"}}}}"#);
    assert_eq!(pretty_event(&raw), format!("  Msg  \"{short}\""));
}

fn row(host: &str) -> PeerRow {
    PeerRow {
        hostname: host.to_string(),
        ipv4: String::new(),
        cost: "Direct".to_string(),
        latency_us: None,
        tunnel: "—".to_string(),
        rx: 0,
        tx: 0,
        nat: "Unknown".to_string(),
        version: "—".to_string(),
    }
}

#[test]
fn peers_sort_by_lowercase_hostname_stably() {
    let mut b1 = row("beta");
    b1.rx = 1;
    let mut b2 = row("BETA");
    b2.rx = 2;
    let rows = vec![row("gamma"), b1, row("Alpha"), b2, row("alpha2")];
    let sorted = sort_peers(rows);
    let names: Vec<&str> = sorted.iter().map(|r| r.hostname.as_str()).collect();
    assert_eq!(names, vec!["Alpha", "alpha2", "beta", "BETA", "gamma"]);
    assert_eq!(sorted[2].rx, 1);
    assert_eq!(sorted[3].rx, 2);
}

fn conn(rx: u64, tx: u64, lat: u64, tunnel: Option<&str>) -> PeerConn {
    PeerConn {
        stats: Some(ConnStats { rx_bytes: rx, tx_bytes: tx, latency_us: lat }),
        tunnel_type: tunnel.map(|t| t.to_string()),
    }
}

fn route(host: &str, id: u32, cost: i32) -> Route {
    Route {
        hostname: host.to_string(),
        peer_id: id,
        ipv4_addr: None,
        cost,
        nat_type: None,
        version: String::new(),
    }
}

fn running_info() -> RunningInfo {
    let mut direct = route("zeta", 1, 1);
    direct.ipv4_addr = Some("10.0.0.2/24".to_string());
    direct.nat_type = Some(NatType::FullCone);
    direct.version = "2.4.5".to_string();
    let relayed = route("", 7, 3);
    RunningInfo {
        running: true,
        error_msg: None,
        dev_name: "et0".to_string(),
        my_node_info: Some(NodeInfo {
            virtual_ipv4: Some("10.0.0.1/24".to_string()),
            hostname: "me".to_string(),
            peer_id: 99,
            version: "2.4.5".to_string(),
            vpn_portal_cfg: None,
            listeners: vec!["tcp://0.0.0.0:11010".to_string()],
            nat_type: Some(NatType::Symmetric),
            public_ipv4: Some("1.2.3.4".to_string()),
            public_ipv6: None,
        }),
        events: vec![
            r#"{"time":"2024-01-01T00:00:01Z","event":"First"}"#.to_string(),
            "not json".to_string(),
        ],
        peer_route_pairs: vec![
            PeerRoutePair {
                route: Some(direct),
                peer: Some(PeerInfo {
                    conns: vec![
                        PeerConn { stats: None, tunnel_type: Some(String::new()) },
                        conn(100, 10, 1000, Some("udp")),
                        conn(50, 5, 2001, Some("tcp")),
                    ],
                }),
            },
            PeerRoutePair { route: Some(relayed), peer: None },
            PeerRoutePair { route: None, peer: Some(PeerInfo { conns: vec![conn(7, 7, 7, None)] }) },
        ],
    }
}

#[test]
fn running_info_becomes_a_snapshot() {
    let net = net_snapshot(&running_info());
    assert_eq!(net.status, Status::Connected);
    assert_eq!(net.dev_name, "et0");
    assert_eq!(net.virtual_ip, "10.0.0.1/24");
    assert_eq!(net.hostname, "me");
    assert_eq!(net.peer_id, 99);
    assert_eq!(net.nat_type, "Symmetric");
    assert_eq!(net.public_ipv4, "1.2.3.4");
    assert_eq!(net.public_ipv6, "");
    assert_eq!(net.listeners, vec!["tcp://0.0.0.0:11010"]);
    // Newest first, each rendered.
    assert_eq!(net.events, vec!["not json".to_string(), "00:00:01  First".to_string()]);
    // Only pairs with a route give rows; traffic counts every pair with a route.
    assert_eq!(net.peers.len(), 2);
    assert_eq!(net.rx_bytes, 150);
    assert_eq!(net.tx_bytes, 15);

    let relayed = &net.peers[0];
    assert_eq!(relayed.hostname, "peer-7");
    assert_eq!(relayed.cost, "Relay ×3");
    assert_eq!(relayed.latency_us, None);
    assert_eq!(relayed.tunnel, "—");
    assert_eq!(relayed.nat, "Unknown");
    assert_eq!(relayed.version, "—");
    assert_eq!(relayed.ipv4, "");

    let direct = &net.peers[1];
    assert_eq!(direct.hostname, "zeta");
    assert_eq!(direct.cost, "Direct");
    assert_eq!(direct.latency_us, Some(1500));
    assert_eq!(direct.tunnel, "UDP");
    assert_eq!(direct.nat, "Full Cone");
    assert_eq!(direct.version, "2.4.5");
    assert_eq!(direct.ipv4, "10.0.0.2/24");
    assert_eq!((direct.rx, direct.tx), (150, 15));
}

#[test]
fn stopped_instance_without_node_info() {
    let info = RunningInfo {
        running: false,
        error_msg: Some("tun failed".to_string()),
        dev_name: String::new(),
        my_node_info: None,
        events: Vec::new(),
        peer_route_pairs: Vec::new(),
    };
    let net = net_snapshot(&info);
    assert_eq!(net.status, Status::Connecting);
    assert_eq!(net.error.as_deref(), Some("tun failed"));
    assert_eq!(net.hostname, "");
    assert!(net.peers.is_empty());
}

#[test]
fn only_the_newest_200_events_are_kept() {
    let mut info = running_info();
    info.events = (0..250).map(|i| format!("e{i}")).collect();
    let net = net_snapshot(&info);
    assert_eq!(net.events.len(), 200);
    assert_eq!(net.events[0], "e249");
    assert_eq!(net.events[199], "e50");
}

#[test]
fn unavailable_instance_is_connecting_or_failed() {
    let n = net_snapshot_unavailable(None);
    assert_eq!(n.status, Status::Connecting);
    assert!(n.error.is_none());
    let n = net_snapshot_unavailable(Some("boom".to_string()));
    assert_eq!(n.status, Status::Error);
    assert_eq!(n.error.as_deref(), Some("boom"));
    assert!(n.peers.is_empty() && n.hostname.is_empty());
}

fn net(status: Status, peers: usize, rx: u64, tx: u64) -> NetSnapshot {
    let mut n = bare_net(status, None);
    n.peers = (0..peers).map(|i| row(&format!("p{i}"))).collect();
    n.rx_bytes = rx;
    n.tx_bytes = tx;
    n
}

#[test]
fn snapshot_aggregates() {
    let mut s = Snapshot::new();
    s.insert("a".to_string(), net(Status::Connected, 2, 10, 1));
    s.insert("b".to_string(), net(Status::Connecting, 1, 5, 2));
    s.insert("c".to_string(), net(Status::Connected, 3, 1, 3));
    assert_eq!(s.connected_count(), 2);
    assert_eq!(s.total_peers(), 6);
    assert_eq!(s.total_rx(), 16);
    assert_eq!(s.total_tx(), 6);
    assert!(s.is_live("a"));
    assert!(!s.is_live("zzz"));
    // Replacing an entry replaces its contribution.
    s.insert("a".to_string(), net(Status::Error, 0, 0, 0));
    assert_eq!(s.connected_count(), 1);
    assert_eq!(s.total_peers(), 4);
    assert_eq!(s.net("a").map(|n| n.status), Some(Status::Error));
    assert!(s.net("nope").is_none());
}

#[test]
fn summary_and_tooltip_text() {
    let tr = Translator::new("{}", "{}");
    let mut s = Snapshot::new();
    assert_eq!(s.status_summary(&tr), "Not connected");
    s.insert("e".to_string(), net(Status::Error, 0, 0, 0));
    assert_eq!(s.status_summary(&tr), "Error");
    s.insert("c".to_string(), net(Status::Connecting, 0, 0, 0));
    assert_eq!(s.status_summary(&tr), "Connecting…");
    s.insert("a".to_string(), net(Status::Connected, 3, 0, 0));
    assert_eq!(s.status_summary(&tr), "1 connected · 3 peers");
    assert_eq!(tooltip(&s, &tr), "Polaris — 1 connected · 3 peers");
}

#[test]
fn tooltip_is_translated() {
    let mut tr = Translator::new("{}", r#"{"{n} connected":"已连接 {n} 个","{n} peers":"{n} 个节点"}"#);
    polaris_et::i18n::set(&mut tr, Language::Chinese);
    let mut s = Snapshot::new();
    s.insert("a".to_string(), net(Status::Connected, 2, 0, 0));
    assert_eq!(tooltip(&s, &tr), "Polaris — 已连接 1 个 · 2 个节点");
}

#[test]
fn publish_merges_instances_and_errors() {
    let instances = vec![
        ("a".to_string(), net(Status::Connected, 1, 0, 0)),
        ("b".to_string(), net(Status::Connecting, 0, 0, 0)),
    ];
    let errors = vec![("b".to_string(), "late".to_string()), ("x".to_string(), "dead".to_string())];
    let s = publish(instances, &errors);
    assert_eq!(s.net("a").map(|n| n.status), Some(Status::Connected));
    // A recorded error replaces the instance's own state.
    let b = s.net("b").expect("b listed");
    assert_eq!(b.status, Status::Error);
    assert_eq!(b.error.as_deref(), Some("late"));
    let x = s.net("x").expect("failed network listed");
    assert_eq!(x.status, Status::Error);
    assert_eq!(x.error.as_deref(), Some("dead"));
}

#[test]
fn starting_without_admin_rights_disables_tun() {
    let mut cfg = NetworkConfig::default();
    prepare_start(&mut cfg, true);
    assert_eq!(cfg.no_tun, None);
    prepare_start(&mut cfg, false);
    assert_eq!(cfg.no_tun, Some(true));
}
