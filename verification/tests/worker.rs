use polaris_et::config::{IdGen, LogLevel, NetworkConfig, Profile, Settings, Store};
use polaris_et::engine::{
    bare_net, event_line, publish, record_launch, step, Action, Command, LaunchOutcome, NetSnapshot,
    Snapshot, Status, Worker,
};
use polaris_et::json::JsonNode;
use polaris_et::ui::{active_log_level, network_page_command, startup_command, toggle_command};

fn store_of(n: usize, selected: usize) -> Store {
    let mut ids = IdGen { counter: 900 };
    let mut profiles = Vec::new();
    for i in 0..n {
        let mut p = Profile::fresh(&mut ids);
        p.name = format!("p{i}");
        p.network_name = format!("net{i}");
        profiles.push(p);
    }
    Store { profiles, selected, settings: Settings::default() }
}

fn errors(w: &Worker) -> Vec<(&str, &str)> {
    w.errors.iter().map(|(a, b)| (a.as_str(), b.as_str())).collect()
}

#[test]
fn worker_start_forgets_then_launches_proxy_only_without_admin() {
    let mut w = Worker::new();
    w.live.push("a".to_string());
    w.errors.push(("a".to_string(), "old".to_string()));
    w.errors.push(("b".to_string(), "kept".to_string()));
    let cfg = NetworkConfig { network_name: Some("n".into()), ..Default::default() };
    match step(&mut w, Command::Start { id: "a".into(), cfg }, false) {
        Action::Launch { id, cfg } => {
            assert_eq!(id, "a");
            assert_eq!(cfg.no_tun, Some(true));
            assert_eq!(cfg.network_name.as_deref(), Some("n"));
        }
        Action::Drop { .. } => panic!("expected a launch"),
    }
    assert!(w.live.is_empty());
    assert_eq!(errors(&w), vec![("b", "kept")]);

    let cfg = NetworkConfig::default();
    match step(&mut w, Command::Start { id: "c".into(), cfg }, true) {
        Action::Launch { cfg, .. } => assert_eq!(cfg.no_tun, None),
        Action::Drop { .. } => panic!("expected a launch"),
    }
}

#[test]
fn worker_records_launch_outcomes() {
    let mut w = Worker::new();
    record_launch(&mut w, "a".into(), LaunchOutcome::Started);
    assert_eq!(w.live, vec!["a".to_string()]);
    record_launch(&mut w, "b".into(), LaunchOutcome::InvalidConfig("bad cidr".into()));
    record_launch(&mut w, "c".into(), LaunchOutcome::StartFailed("Tun(Denied)".into()));
    assert_eq!(errors(&w), vec![("b", "Invalid configuration: bad cidr"), ("c", "Tun(Denied)")]);
    // The published snapshot shows the failures as errors.
    let snap = publish(vec![("a".to_string(), bare_net(Status::Connected, None))], &w.errors);
    let b = snap.net("b").unwrap();
    assert_eq!(b.status, Status::Error);
    assert_eq!(b.error.as_deref(), Some("Invalid configuration: bad cidr"));

    match step(&mut w, Command::Stop { id: "a".into() }, true) {
        Action::Drop { id } => assert_eq!(id, "a"),
        Action::Launch { .. } => panic!("expected a drop"),
    }
    assert!(w.live.is_empty());
    assert_eq!(errors(&w).len(), 2);
}

fn net(status: Status) -> NetSnapshot {
    bare_net(status, None)
}

#[test]
fn connect_button_stops_live_networks_and_starts_others() {
    let store = store_of(2, 1);
    let mut snap = Snapshot::new();
    match toggle_command(&store.profiles[0], &snap) {
        Command::Start { id, cfg } => {
            assert_eq!(id, store.profiles[0].id);
            assert_eq!(cfg, store.profiles[0].to_network_config());
        }
        Command::Stop { .. } => panic!("expected a start"),
    }
    snap.insert(store.profiles[1].id.clone(), net(Status::Connecting));
    match network_page_command(&store, &snap) {
        Command::Stop { id } => assert_eq!(id, store.profiles[1].id),
        Command::Start { .. } => panic!("expected a stop"),
    }
    snap.insert(store.profiles[1].id.clone(), net(Status::Error));
    assert!(matches!(network_page_command(&store, &snap), Command::Start { .. }));
}

#[test]
fn startup_connects_only_when_asked_and_possible() {
    let mut store = store_of(3, 7);
    assert!(startup_command(&store).is_none());
    store.settings.auto_connect = true;
    match startup_command(&store) {
        Some(Command::Start { id, cfg }) => {
            assert_eq!(id, store.profiles[2].id);
            assert_eq!(cfg.network_name.as_deref(), Some("net2"));
        }
        _ => panic!("expected a start"),
    }
    let empty = Store { profiles: Vec::new(), selected: 0, settings: store.settings };
    assert!(startup_command(&empty).is_none());
}

#[test]
fn log_level_follows_the_diagnostics_switch() {
    let mut s = Settings::default();
    s.log_level = LogLevel::Debug;
    assert_eq!(active_log_level(&s), LogLevel::Off);
    s.diagnostics_enabled = true;
    assert_eq!(active_log_level(&s), LogLevel::Debug);
}

#[test]
fn parsed_events_render_as_lines() {
    let v = JsonNode::Object(vec![
        ("time".to_string(), JsonNode::Str("2024-05-06T07:08:09Z".to_string())),
        ("event".to_string(), JsonNode::Str("Started".to_string())),
    ]);
    assert_eq!(event_line(&v), "07:08:09  Started");
    let v = JsonNode::Object(vec![(
        "event".to_string(),
        JsonNode::Object(vec![("PeerAdded".to_string(), JsonNode::Number("42".to_string()))]),
    )]);
    assert_eq!(event_line(&v), "  PeerAdded  42");
    assert_eq!(event_line(&JsonNode::Null), "  Event");
}

#[test]
fn counts_go_by_the_state_each_id_holds() {
    let snap = Snapshot {
        nets: vec![
            ("a".to_string(), net(Status::Connected)),
            ("b".to_string(), net(Status::Connected)),
            ("a".to_string(), net(Status::Error)),
        ],
    };
    assert_eq!(snap.connected_count(), 1);
    assert_eq!(snap.net("a").map(|n| n.status), Some(Status::Error));
}
