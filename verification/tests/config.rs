use polaris_et::config::{
    clean_list, gen_id, import_profiles, make_id, parse_backup, parse_json_configs,
    parse_profiles_from_text, parse_toml_config, IdGen, ImportError, JoinMethod, JsonAttempts,
    LogLevel, Material, NetworkConfig, PortForward, PortForwardConfig, Profile, Settings, Store,
    Theme,
};
use polaris_et::i18n::{Language, Translator};

fn strs(v: &[&str]) -> Vec<String> {
    v.iter().map(|s| s.to_string()).collect()
}

fn no_json() -> JsonAttempts {
    JsonAttempts {
        profile: None,
        profiles: None,
        store: None,
        stored: None,
        configs: None,
        config: Err("expected value".to_string()),
    }
}

fn is_hex_id(id: &str) -> bool {
    let parts: Vec<&str> = id.split('-').collect();
    parts.len() == 2
        && parts.iter().all(|p| !p.is_empty() && p.chars().all(|c| c.is_ascii_hexdigit() && !c.is_ascii_uppercase()))
}

#[test]
fn ids_are_hex_clock_and_counter() {
    let mut ids = IdGen::new();
    let a = gen_id(&mut ids);
    let b = gen_id(&mut ids);
    assert!(is_hex_id(&a), "{a}");
    assert!(a.ends_with("-0"));
    assert!(b.ends_with("-1"));
    assert_ne!(a, b);
    assert_eq!(ids.counter, 2);
    let mut ids = IdGen { counter: 255 };
    assert!(gen_id(&mut ids).ends_with("-ff"));
}

#[test]
fn id_counter_wraps() {
    let mut ids = IdGen { counter: u64::MAX };
    let id = gen_id(&mut ids);
    assert!(id.ends_with("-ffffffffffffffff"));
    assert_eq!(ids.counter, 0);
}

#[test]
fn picker_indices_round_trip_and_clamp() {
    for m in [JoinMethod::PublicServer, JoinMethod::Manual, JoinMethod::Standalone] {
        assert_eq!(JoinMethod::from_index(m.index()), m);
    }
    for t in [Theme::System, Theme::Light, Theme::Dark] {
        assert_eq!(Theme::from_index(t.index()), t);
    }
    for m in [Material::Mica, Material::MicaAlt, Material::Acrylic, Material::Solid] {
        assert_eq!(Material::from_index(m.index()), m);
    }
    for l in [LogLevel::Off, LogLevel::Error, LogLevel::Warn, LogLevel::Info, LogLevel::Debug, LogLevel::Trace] {
        assert_eq!(LogLevel::from_index(l.index()), l);
    }
    assert_eq!(JoinMethod::from_index(-1), JoinMethod::PublicServer);
    assert_eq!(JoinMethod::from_index(3), JoinMethod::PublicServer);
    assert_eq!(Theme::from_index(7), Theme::System);
    assert_eq!(Material::from_index(4), Material::Mica);
    assert_eq!(LogLevel::from_index(-1), LogLevel::Off);
    assert_eq!(LogLevel::from_index(6), LogLevel::Info);
    assert_eq!(LogLevel::Debug.index(), 4);
}

#[test]
fn labels_translate_and_filters_name_levels() {
    let tr = Translator::new(r#"{"theme":{"dark":"Dark"},"join_method":{"manual":"Manual peers"}}"#, "{}");
    assert_eq!(Theme::Dark.label(&tr), "Dark");
    assert_eq!(Theme::Light.label(&tr), "theme.light");
    assert_eq!(JoinMethod::Manual.label(&tr), "Manual peers");
    assert_eq!(Material::MicaAlt.label(&tr), "material.mica_alt");
    assert_eq!(LogLevel::Warn.label(&tr), "log_level.warn");
    assert_eq!(LogLevel::Off.as_filter(), "off");
    assert_eq!(LogLevel::Trace.as_filter(), "trace");
}

#[test]
fn fresh_profile_has_documented_defaults() {
    let mut ids = IdGen::new();
    let p = Profile::fresh(&mut ids);
    assert_eq!(p.name, "My network");
    assert_eq!(p.network_name, "polaris-net");
    assert_eq!(p.network_secret, "change-this-secret");
    assert!(p.dhcp);
    assert_eq!(p.virtual_ipv4, "10.126.126.1");
    assert_eq!(p.network_length, 24);
    assert_eq!(p.join_method, JoinMethod::PublicServer);
    assert_eq!(p.public_server, "tcp://public.easytier.cn:11010");
    assert_eq!(p.socks5_port, 1080);
    assert_eq!(p.vpn_portal_listen_port, 22022);
    assert_eq!(p.vpn_portal_client_network_addr, "10.14.14.0");
    assert_eq!(p.vpn_portal_client_network_len, 24);
    assert!(p.latency_first && p.enable_encryption && p.multi_thread && p.bind_device);
    assert!(!p.no_tun && !p.enable_socks5 && !p.disable_p2p);
    assert!(is_hex_id(&p.id));
}

#[test]
fn port_forward_default() {
    let f = PortForward::default();
    assert_eq!(f.proto, "tcp");
    assert_eq!(f.bind_ip, "0.0.0.0");
    assert_eq!((f.bind_port, f.dst_port), (0, 0));
    assert!(f.dst_ip.is_empty());
}

#[test]
fn clean_list_trims_and_drops_blanks() {
    assert_eq!(clean_list(&strs(&[" tcp://a:1 ", "", "  ", "udp://b:2"])), strs(&["tcp://a:1", "udp://b:2"]));
    assert!(clean_list(&Vec::new()).is_empty());
}

fn sample_profile() -> Profile {
    let mut ids = IdGen::new();
    let mut p = Profile::fresh(&mut ids);
    p.network_name = "  net1 ".to_string();
    p.hostname = "   ".to_string();
    p.dev_name = " et0 ".to_string();
    p.dhcp = false;
    p.virtual_ipv4 = " 10.0.0.5 ".to_string();
    p.network_length = 16;
    p.join_method = JoinMethod::Manual;
    p.public_server = "".to_string();
    p.peers = strs(&["tcp://1.2.3.4:11010", "  "]);
    p.enable_socks5 = true;
    p.socks5_port = 7890;
    p.mtu = 1380;
    p.instance_recv_bps_limit = 0;
    p.enable_encryption = false;
    p.no_tun = true;
    p.port_forwards = vec![
        PortForward { proto: "udp".into(), bind_ip: "0.0.0.0".into(), bind_port: 53, dst_ip: "10.0.0.2".into(), dst_port: 5353 },
        PortForward { proto: "tcp".into(), bind_ip: "0.0.0.0".into(), bind_port: 0, dst_ip: "10.0.0.3".into(), dst_port: 80 },
        PortForward { proto: "tcp".into(), bind_ip: "0.0.0.0".into(), bind_port: 8080, dst_ip: "  ".into(), dst_port: 80 },
    ];
    p
}

#[test]
fn profile_exports_to_network_config() {
    let nc = sample_profile().to_network_config();
    assert_eq!(nc.network_name.as_deref(), Some("net1"));
    assert_eq!(nc.network_secret.as_deref(), Some("change-this-secret"));
    assert_eq!(nc.hostname, None);
    assert_eq!(nc.dev_name.as_deref(), Some("et0"));
    assert_eq!(nc.dhcp, Some(false));
    assert_eq!(nc.virtual_ipv4.as_deref(), Some("10.0.0.5"));
    assert_eq!(nc.network_length, Some(16));
    assert_eq!(nc.networking_method, Some(1));
    assert_eq!(nc.public_server_url, None);
    assert_eq!(nc.peer_urls, strs(&["tcp://1.2.3.4:11010"]));
    assert_eq!(nc.socks5_port, Some(7890));
    assert_eq!(nc.vpn_portal_listen_port, None);
    assert_eq!(nc.vpn_portal_client_network_addr, None);
    assert_eq!(nc.mtu, Some(1380));
    assert_eq!(nc.instance_recv_bps_limit, None);
    assert_eq!(nc.disable_encryption, Some(true));
    assert_eq!(nc.no_tun, Some(true));
    assert_eq!(nc.multi_thread, Some(true));
    assert_eq!(nc.port_forwards.len(), 1);
    assert_eq!(nc.port_forwards[0], PortForwardConfig { proto: "udp".into(), bind_ip: "0.0.0.0".into(), bind_port: 53, dst_ip: "10.0.0.2".into(), dst_port: 5353 });
}

#[test]
fn dhcp_profile_leaves_address_unset() {
    let mut ids = IdGen::new();
    let nc = Profile::fresh(&mut ids).to_network_config();
    assert_eq!(nc.dhcp, Some(true));
    assert_eq!(nc.virtual_ipv4, None);
    assert_eq!(nc.network_length, None);
    assert_eq!(nc.socks5_port, None);
    assert_eq!(nc.mtu, None);
    assert_eq!(nc.public_server_url.as_deref(), Some("tcp://public.easytier.cn:11010"));
    assert_eq!(nc.networking_method, Some(0));
}

#[test]
fn short_config_imports_as_working_profile() {
    let nc = NetworkConfig {
        network_name: Some("home".into()),
        network_secret: Some("s3cret".into()),
        ..NetworkConfig::default()
    };
    let mut ids = IdGen { counter: 5 };
    let p = Profile::from_network_config(&nc, &mut ids);
    assert_eq!(p.name, "home");
    assert_eq!(p.network_name, "home");
    assert_eq!(p.network_secret, "s3cret");
    assert!(p.dhcp);
    assert_eq!(p.virtual_ipv4, "");
    assert_eq!(p.network_length, 24);
    assert_eq!(p.join_method, JoinMethod::PublicServer);
    assert_eq!(p.public_server, "");
    assert_eq!(p.socks5_port, 1080);
    assert_eq!(p.vpn_portal_listen_port, 22022);
    assert!(p.latency_first && p.enable_encryption && p.multi_thread && p.bind_device);
    assert!(p.id.ends_with("-5"));
    assert_eq!(ids.counter, 6);
}

#[test]
fn import_clamps_and_truncates_numbers() {
    let nc = NetworkConfig {
        network_length: Some(40),
        networking_method: Some(2),
        socks5_port: Some(70000),
        vpn_portal_client_network_len: Some(-3),
        vpn_portal_client_network_addr: Some("".into()),
        mtu: Some(-5),
        disable_encryption: Some(true),
        port_forwards: vec![PortForwardConfig { proto: "".into(), bind_ip: "1.1.1.1".into(), bind_port: 65536 + 22, dst_ip: "2.2.2.2".into(), dst_port: 8080 }],
        ..NetworkConfig::default()
    };
    let mut ids = IdGen::new();
    let p = Profile::from_network_config(&nc, &mut ids);
    assert_eq!(p.name, "Imported network");
    assert_eq!(p.network_length, 32);
    assert_eq!(p.join_method, JoinMethod::Standalone);
    assert_eq!(p.socks5_port, (70000i32 as u16));
    assert_eq!(p.vpn_portal_client_network_len, 24);
    assert_eq!(p.vpn_portal_client_network_addr, "10.14.14.0");
    assert_eq!(p.mtu, 0);
    assert!(!p.enable_encryption);
    assert_eq!(p.port_forwards, vec![PortForward { proto: "tcp".into(), bind_ip: "1.1.1.1".into(), bind_port: 22, dst_ip: "2.2.2.2".into(), dst_port: 8080 }]);
}

#[test]
fn export_then_import_keeps_settings() {
    let p = sample_profile();
    let mut ids = IdGen { counter: 9 };
    let q = Profile::from_network_config(&p.to_network_config(), &mut ids);
    assert_eq!(q.network_name, "net1");
    assert_eq!(q.name, "net1");
    assert_eq!(q.network_secret, p.network_secret);
    assert_eq!(q.dhcp, p.dhcp);
    assert_eq!(q.virtual_ipv4, "10.0.0.5");
    assert_eq!(q.network_length, 16);
    assert_eq!(q.join_method, JoinMethod::Manual);
    assert_eq!(q.peers, strs(&["tcp://1.2.3.4:11010"]));
    assert_eq!(q.socks5_port, 7890);
    assert_eq!(q.mtu, 1380);
    assert_eq!(q.enable_encryption, false);
    assert_eq!(q.no_tun, true);
    assert_eq!(q.port_forwards, vec![p.port_forwards[0].clone()]);
    assert_ne!(q.id, p.id);
}

#[test]
fn copy_is_field_for_field() {
    let p = sample_profile();
    assert_eq!(p.copy(), p);
}

#[test]
fn settings_defaults() {
    let s = Settings::default();
    assert_eq!(s.theme, Theme::System);
    assert_eq!(s.material, Material::Mica);
    assert!(s.tall_titlebar && s.close_to_tray);
    assert!(!s.auto_connect && !s.minimize_to_tray && !s.always_admin && !s.diagnostics_enabled);
    assert_eq!(s.log_level, LogLevel::Info);
    assert_eq!(s.log_retention_days, 7);
    assert_eq!(s.language, Language::System);
}

fn store_of(n: usize, selected: usize) -> Store {
    let mut ids = IdGen { counter: 100 };
    let mut profiles = Vec::new();
    for i in 0..n {
        let mut p = Profile::fresh(&mut ids);
        p.name = format!("p{i}");
        profiles.push(p);
    }
    Store { profiles, selected, settings: Settings::default() }
}

#[test]
fn load_falls_back_to_defaults() {
    let mut ids = IdGen::new();
    let s = Store::load(None, &mut ids);
    assert_eq!(s.profiles.len(), 1);
    assert_eq!(s.selected, 0);
    assert_eq!(s.profiles[0].name, "My network");
    assert_eq!(s.settings, Settings::default());

    let mut empty = store_of(0, 4);
    empty.settings.auto_connect = true;
    let s = Store::load(Some(empty), &mut ids);
    assert_eq!(s.profiles.len(), 1);
    assert_eq!(s.selected, 0);
    assert!(s.settings.auto_connect);

    let s = Store::load(Some(store_of(3, 9)), &mut ids);
    assert_eq!(s.selected, 2);
    assert_eq!(s.profiles[1].name, "p1");
}

#[test]
fn current_clamps_selection() {
    let s = store_of(3, 1);
    assert_eq!(s.current().name, "p1");
    let s = store_of(3, 7);
    assert_eq!(s.current().name, "p2");
}

#[test]
fn add_duplicate_delete_networks() {
    let mut ids = IdGen { counter: 1000 };
    let mut s = store_of(2, 0);
    s.add_network(&mut ids);
    assert_eq!(s.profiles.len(), 3);
    assert_eq!(s.selected, 2);
    assert_eq!(s.profiles[2].name, "Network 3");

    s.selected = 0;
    s.duplicate_current(&mut ids);
    assert_eq!(s.profiles.len(), 4);
    assert_eq!(s.selected, 3);
    assert_eq!(s.profiles[3].name, "p0 (copy)");
    assert_ne!(s.profiles[3].id, s.profiles[0].id);
    assert_eq!(s.profiles[3].network_name, s.profiles[0].network_name);

    assert!(s.delete_network(3));
    assert_eq!(s.profiles.len(), 3);
    assert_eq!(s.selected, 2);
    assert!(!s.delete_network(5));
    assert!(s.delete_network(0));
    assert!(s.delete_network(0));
    assert_eq!(s.profiles.len(), 1);
    assert!(!s.delete_network(0));
    assert_eq!(s.selected, 0);
}

#[test]
fn append_selects_first_imported() {
    let mut s = store_of(2, 1);
    assert!(!s.append_profiles(Vec::new()));
    assert_eq!(s.selected, 1);
    let more = store_of(2, 0).profiles;
    assert!(s.append_profiles(more));
    assert_eq!(s.profiles.len(), 4);
    assert_eq!(s.selected, 2);
}

#[test]
fn backup_restore_rekeys_and_validates() {
    let mut ids = IdGen { counter: 7 };
    assert_eq!(parse_backup(Err("bad".into()), &mut ids), Err(ImportError::NotBackup("bad".into())));
    assert_eq!(parse_backup(Ok(store_of(0, 0)), &mut ids), Err(ImportError::NoNetworks));
    assert_eq!(ids.counter, 7);
    let original = store_of(3, 8);
    let restored = parse_backup(Ok(original.clone()), &mut ids).unwrap();
    assert_eq!(restored.selected, 2);
    assert_eq!(restored.profiles.len(), 3);
    for (a, b) in restored.profiles.iter().zip(original.profiles.iter()) {
        assert_ne!(a.id, b.id);
        assert_eq!(a.name, b.name);
    }
    assert!(restored.profiles[0].id.ends_with("-7"));
    assert!(restored.profiles[2].id.ends_with("-9"));
    assert_eq!(ids.counter, 10);
}

#[test]
fn json_import_prefers_polaris_shapes() {
    let mut ids = IdGen::new();
    let one = store_of(1, 0).profiles.remove(0);
    let mut a = no_json();
    a.profile = Some(one.clone());
    a.profiles = Some(store_of(2, 0).profiles);
    let r = parse_json_configs(a, &mut ids).unwrap();
    assert_eq!(r.len(), 1);
    assert_eq!(r[0].name, one.name);
    assert_ne!(r[0].id, one.id);

    let mut a = no_json();
    a.profiles = Some(Vec::new());
    a.store = Some(store_of(2, 0));
    let r = parse_json_configs(a, &mut ids).unwrap();
    assert_eq!(r.iter().map(|p| p.name.as_str()).collect::<Vec<_>>(), vec!["p0", "p1"]);

    let mut a = no_json();
    a.store = Some(store_of(0, 0));
    a.stored = Some(vec![NetworkConfig { network_name: Some("gui".into()), ..Default::default() }]);
    let r = parse_json_configs(a, &mut ids).unwrap();
    assert_eq!(r[0].name, "gui");

    let mut a = no_json();
    a.configs = Some(vec![NetworkConfig::default(), NetworkConfig { network_name: Some("b".into()), ..Default::default() }]);
    let r = parse_json_configs(a, &mut ids).unwrap();
    assert_eq!(r.len(), 2);
    assert_eq!(r[0].name, "Imported network");

    let mut a = no_json();
    a.config = Ok(NetworkConfig { network_name: Some("single".into()), ..Default::default() });
    assert_eq!(parse_json_configs(a, &mut ids).unwrap()[0].name, "single");

    assert_eq!(parse_json_configs(no_json(), &mut ids), Err(ImportError::Json("expected value".into())));
}

#[test]
fn toml_import_outcomes() {
    let mut ids = IdGen::new();
    let r = parse_toml_config(Ok(NetworkConfig { network_name: Some("t".into()), ..Default::default() }), &mut ids).unwrap();
    assert_eq!(r.len(), 1);
    assert_eq!(r[0].name, "t");
    assert_eq!(parse_toml_config(Err("bad".into()), &mut ids), Err(ImportError::Toml("bad".into())));
}

#[test]
fn pasted_text_format_detection() {
    let mut ids = IdGen::new();
    let toml_ok = || Ok(NetworkConfig { network_name: Some("from-toml".into()), ..Default::default() });
    let json_ok = || {
        let mut a = no_json();
        a.config = Ok(NetworkConfig { network_name: Some("from-json".into()), ..Default::default() });
        a
    };
    assert_eq!(parse_profiles_from_text("  \n\t", json_ok(), toml_ok(), &mut ids), Err(ImportError::Empty));
    assert_eq!(parse_profiles_from_text("  {\"a\":1}", json_ok(), toml_ok(), &mut ids).unwrap()[0].name, "from-json");
    assert_eq!(parse_profiles_from_text("\n[{}]", json_ok(), toml_ok(), &mut ids).unwrap()[0].name, "from-json");
    assert_eq!(parse_profiles_from_text("network_name = \"x\"", json_ok(), toml_ok(), &mut ids).unwrap()[0].name, "from-toml");
}

#[test]
fn file_extension_picks_format() {
    let mut ids = IdGen::new();
    let toml_ok = || Ok(NetworkConfig { network_name: Some("from-toml".into()), ..Default::default() });
    let json_ok = || {
        let mut a = no_json();
        a.config = Ok(NetworkConfig { network_name: Some("from-json".into()), ..Default::default() });
        a
    };
    assert_eq!(import_profiles("JSON", json_ok(), toml_ok(), &mut ids).unwrap()[0].name, "from-json");
    assert_eq!(import_profiles("json", json_ok(), toml_ok(), &mut ids).unwrap()[0].name, "from-json");
    assert_eq!(import_profiles("toml", json_ok(), toml_ok(), &mut ids).unwrap()[0].name, "from-toml");
    assert_eq!(import_profiles("", json_ok(), toml_ok(), &mut ids).unwrap()[0].name, "from-toml");
}

#[test]
fn import_error_messages() {
    assert_eq!(ImportError::Empty.message(), "clipboard is empty");
    assert_eq!(ImportError::NotBackup("EOF while parsing".into()).message(), "not a Polaris backup: EOF while parsing");
    assert_eq!(ImportError::NoNetworks.message(), "backup contains no networks");
    assert_eq!(ImportError::Toml("not a valid EasyTier config: x".into()).message(), "not a valid EasyTier config: x");
    assert_eq!(ImportError::Json("expected value".into()).message(), "expected value");
}

#[test]
fn ids_of_one_import_are_distinct() {
    let mut ids = IdGen { counter: u64::MAX - 1 };
    let mut a = no_json();
    a.configs = Some(vec![NetworkConfig::default(); 5]);
    let r = parse_json_configs(a, &mut ids).unwrap();
    for i in 0..r.len() {
        for j in (i + 1)..r.len() {
            assert_ne!(r[i].id, r[j].id);
        }
    }
    // The counter wrapped during the import.
    assert!(r[1].id.ends_with("-ffffffffffffffff"));
    assert!(r[2].id.ends_with("-0"));
    assert_eq!(ids.counter, 3);
}

#[test]
fn ids_from_clock_and_counter() {
    assert_eq!(make_id(Some(255), 16), "ff-10");
    assert_eq!(make_id(Some(0x1234_abcd), u64::MAX), "1234abcd-ffffffffffffffff");
    assert_eq!(make_id(None, 0), "0-0");
}

#[test]
fn pasted_toml_with_a_table_header_is_read_as_toml() {
    let mut ids = IdGen::new();
    let text = "[network_identity]\nnetwork_name = \"lab\"\nnetwork_secret = \"s\"\n";
    let toml = Ok(NetworkConfig {
        network_name: Some("lab".into()),
        network_secret: Some("s".into()),
        ..Default::default()
    });
    let r = parse_profiles_from_text(text, no_json(), toml, &mut ids).unwrap();
    assert_eq!(r.len(), 1);
    assert_eq!(r[0].network_name, "lab");
    assert_eq!(r[0].network_secret, "s");
    // Neither format fits: the JSON error is reported.
    assert_eq!(
        parse_profiles_from_text("[oops", no_json(), Err("bad toml".into()), &mut ids),
        Err(ImportError::Json("expected value".into()))
    );
    // JSON that fits wins over TOML.
    let mut a = no_json();
    a.config = Ok(NetworkConfig { network_name: Some("from-json".into()), ..Default::default() });
    let toml = Ok(NetworkConfig { network_name: Some("from-toml".into()), ..Default::default() });
    assert_eq!(parse_profiles_from_text("[{}]", a, toml, &mut ids).unwrap()[0].name, "from-json");
}

#[test]
fn lossless_profile_round_trips_through_export() {
    let mut ids = IdGen::new();
    let mut p = Profile::fresh(&mut ids);
    p.name = "Display".to_string();
    p.network_name = "lab".to_string();
    p.hostname = "box".to_string();
    p.dhcp = false;
    p.virtual_ipv4 = "10.1.0.2".to_string();
    p.network_length = 16;
    p.peers = strs(&["tcp://1.2.3.4:11010"]);
    p.enable_socks5 = true;
    p.socks5_port = 1081;
    p.enable_vpn_portal = true;
    p.vpn_portal_client_network_len = 28;
    p.port_forwards = vec![PortForward { proto: "udp".into(), bind_ip: "0.0.0.0".into(), bind_port: 53, dst_ip: "10.1.0.9".into(), dst_port: 53 }];
    p.mtu = 1400;
    let q = Profile::from_network_config(&p.to_network_config(), &mut ids);
    let expected = Profile { id: q.id.clone(), name: "lab".to_string(), ..p.clone() };
    assert_eq!(q, expected);
    assert_ne!(q.id, p.id);
}
