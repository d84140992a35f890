use polaris_et::config::{IdGen, PortForward, Profile, Settings, Store};
use polaris_et::engine::{bare_net, PeerRow, Snapshot, Status};
use polaris_et::ui::{
    admin_status_key, admin_view, card_info, export_file_name, export_format, listed_profiles,
    proto_at, proto_index, AdminView, ExportFormat,
};

fn store_of(n: usize, selected: usize) -> Store {
    let mut ids = IdGen { counter: 500 };
    let mut profiles = Vec::new();
    for i in 0..n {
        let mut p = Profile::fresh(&mut ids);
        p.name = format!("p{i}");
        profiles.push(p);
    }
    Store { profiles, selected, settings: Settings::default() }
}

fn forward(port: u16) -> PortForward {
    PortForward {
        proto: "udp".to_string(),
        bind_ip: "127.0.0.1".to_string(),
        bind_port: port,
        dst_ip: "10.0.0.5".to_string(),
        dst_port: port + 1,
    }
}

#[test]
fn picker_selection_clamps_and_ignores_negative() {
    let mut s = store_of(3, 0);
    s.select(1);
    assert_eq!(s.selected, 1);
    s.select(-1);
    assert_eq!(s.selected, 1);
    s.select(9);
    assert_eq!(s.selected, 2);
    assert_eq!(s.current_index(), 2);
    s.selected = 7;
    assert_eq!(s.current_index(), 2);
}

#[test]
fn port_forward_rows_edit_the_current_profile() {
    let mut s = store_of(2, 1);
    let before = s.clone();
    s.add_port_forward();
    assert_eq!(s.profiles[1].port_forwards, vec![PortForward::default()]);
    assert_eq!(s.profiles[0], before.profiles[0]);
    assert_eq!(s.profiles[1].name, "p1");

    s.update_port_forward(0, forward(80));
    assert_eq!(s.profiles[1].port_forwards, vec![forward(80)]);
    // No such row: nothing changes.
    let same = s.clone();
    s.update_port_forward(5, forward(1));
    assert_eq!(s, same);

    s.add_port_forward();
    s.update_port_forward(1, forward(443));
    s.remove_port_forward(0);
    assert_eq!(s.profiles[1].port_forwards, vec![forward(443)]);
    s.remove_port_forward(3);
    assert_eq!(s.profiles[1].port_forwards.len(), 1);
    assert_eq!(s.selected, 1);
}

#[test]
fn protocol_picker() {
    let mut f = forward(1);
    assert_eq!(proto_index(&f), 1);
    f.proto = "tcp".to_string();
    assert_eq!(proto_index(&f), 0);
    f.proto = "UDP".to_string();
    assert_eq!(proto_index(&f), 0);
    assert_eq!(proto_at(1), "udp");
    assert_eq!(proto_at(0), "tcp");
    assert_eq!(proto_at(-1), "tcp");
}

fn row() -> PeerRow {
    PeerRow {
        hostname: "h".to_string(),
        ipv4: String::new(),
        cost: "Direct".to_string(),
        latency_us: None,
        tunnel: "—".to_string(),
        rx: 0,
        tx: 0,
        nat: "Unknown".to_string(),
        version: "—".to_string(),
    }
}

#[test]
fn network_cards() {
    let mut snap = Snapshot::new();
    let c = card_info(&snap, "a");
    assert_eq!(c.status, Status::Disconnected);
    assert!(!c.live);
    assert_eq!(c.ip, "—");
    assert_eq!((c.peers, c.rx, c.tx), (0, 0, 0));
    assert!(c.error.is_none());

    let mut n = bare_net(Status::Connecting, Some("slow".to_string()));
    n.peers = vec![row(), row()];
    n.rx_bytes = 5;
    n.tx_bytes = 6;
    snap.insert("a".to_string(), n);
    let c = card_info(&snap, "a");
    assert_eq!(c.status, Status::Connecting);
    assert!(c.live);
    assert_eq!(c.ip, "—");
    assert_eq!((c.peers, c.rx, c.tx), (2, 5, 6));
    assert_eq!(c.error.as_deref(), Some("slow"));

    let mut n = bare_net(Status::Error, None);
    n.virtual_ip = "10.0.0.1/24".to_string();
    snap.insert("a".to_string(), n);
    let c = card_info(&snap, "a");
    assert!(!c.live);
    assert_eq!(c.ip, "10.0.0.1/24");
}

#[test]
fn peers_and_activity_pages_list_active_networks() {
    let store = store_of(4, 0);
    let mut snap = Snapshot::new();
    let mut with_peers = bare_net(Status::Connected, None);
    with_peers.peers = vec![row()];
    let mut with_events = bare_net(Status::Connected, None);
    with_events.events = vec!["e".to_string()];
    snap.insert(store.profiles[3].id.clone(), with_peers.clone());
    snap.insert(store.profiles[1].id.clone(), with_events);
    snap.insert(store.profiles[0].id.clone(), with_peers);
    assert_eq!(listed_profiles(&store, &snap, false), vec![0, 3]);
    assert_eq!(listed_profiles(&store, &snap, true), vec![1]);
    assert!(listed_profiles(&store, &Snapshot::new(), false).is_empty());
}

#[test]
fn export_dialog_choices() {
    assert_eq!(export_format(1), ExportFormat::Polaris);
    assert_eq!(export_format(2), ExportFormat::Toml);
    assert_eq!(export_format(3), ExportFormat::EasyTierJson);
    assert_eq!(export_format(0), ExportFormat::Polaris);
    assert_eq!(ExportFormat::Toml.extension(), "toml");
    assert_eq!(ExportFormat::EasyTierJson.extension(), "json");
    assert_eq!(ExportFormat::Polaris.extension(), "json");
    assert_eq!(export_file_name("Home / Lab"), "Home---Lab.json");
    assert_eq!(export_file_name(""), "network.json");
}

#[test]
fn administrator_card() {
    assert_eq!(admin_view(false, true), AdminView::PackagedStatus);
    assert_eq!(admin_view(true, true), AdminView::PackagedStatus);
    assert_eq!(admin_view(false, false), AdminView::Controls { restart: true });
    assert_eq!(admin_view(true, false), AdminView::Controls { restart: false });
    assert_eq!(admin_status_key(true, true), "settings.admin_elevated");
    assert_eq!(admin_status_key(false, true), "settings.admin_packaged_not_elevated");
    assert_eq!(admin_status_key(false, false), "settings.admin_not_elevated");
}
