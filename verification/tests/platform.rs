use polaris_et::autostart::{
    cache, init as autostart_init, is_enabled, mechanism, run_command, set_enabled, Autostart,
    Mechanism, STARTUP_ARG,
};
use polaris_et::dialog::{push_utf16, wide};
use polaris_et::elevate::{
    flag, init as elevate_init, is_elevated, is_packaged, is_relaunch, relaunch_params,
    Privileges, RELAUNCH_FLAG,
};
use polaris_et::tray::write_wide;
use polaris_et::ui::{or_dash, retention_index, sanitize, split_lines, yn, yn_key};

fn std_wide(s: &str) -> Vec<u16> {
    s.encode_utf16().chain(std::iter::once(0)).collect()
}

#[test]
fn wide_strings_are_null_terminated_utf16() {
    assert_eq!(wide(""), vec![0]);
    assert_eq!(wide("Hi"), vec![72, 105, 0]);
    assert_eq!(wide("é€"), vec![0xE9, 0x20AC, 0]);
    // Outside the BMP: a surrogate pair.
    assert_eq!(wide("😀"), vec![0xD83D, 0xDE00, 0]);
    for s in ["Polaris — 2 connected", "中文 \u{10FFFF} \u{10000}", "a\u{FFFF}b"] {
        assert_eq!(wide(s), std_wide(s));
    }
}

#[test]
fn push_utf16_appends() {
    let mut v = vec![1u16];
    push_utf16(&mut v, "A😀");
    assert_eq!(v, vec![1, 65, 0xD83D, 0xDE00]);
}

#[test]
fn autostart_mechanism_follows_packaging() {
    assert_eq!(mechanism(true), Mechanism::StartupTask);
    assert_eq!(mechanism(false), Mechanism::RunKey);
}

#[test]
fn autostart_state_is_cached() {
    let mut a = Autostart::new();
    assert_eq!(is_enabled(&a), None);
    assert!(cache(&mut a, true));
    assert_eq!(is_enabled(&a), Some(true));
    assert!(!cache(&mut a, false));
    assert_eq!(is_enabled(&a), Some(false));
}

#[test]
fn autostart_init_refreshes_only_an_existing_run_value() {
    let mut a = Autostart::new();
    assert!(autostart_init(&mut a, false, true));
    assert_eq!(is_enabled(&a), Some(true));
    let mut a = Autostart::new();
    assert!(!autostart_init(&mut a, true, true));
    assert_eq!(is_enabled(&a), Some(true));
    let mut a = Autostart::new();
    assert!(!autostart_init(&mut a, false, false));
    assert_eq!(is_enabled(&a), Some(false));
}

#[test]
fn packaged_toggle_reports_what_windows_allowed() {
    let mut a = Autostart::new();
    // Windows refused to enable the task.
    assert!(!set_enabled(&mut a, true, true, false));
    assert_eq!(is_enabled(&a), Some(false));
    // The Run key does exactly what was asked.
    assert!(set_enabled(&mut a, false, true, false));
    assert_eq!(is_enabled(&a), Some(true));
}

#[test]
fn run_command_quotes_the_exe_and_adds_the_startup_flag() {
    assert_eq!(STARTUP_ARG, "--startup");
    let exe = r"C:\Program Files\Polaris\polaris.exe";
    assert_eq!(run_command(exe), std_wide(&format!("\"{exe}\" --startup")));
}

#[test]
fn privileges_cache() {
    let mut p = Privileges::new();
    assert!(!is_elevated(&p));
    assert!(!is_packaged(&p));
    elevate_init(&mut p, true, false);
    assert!(is_elevated(&p));
    assert!(!is_packaged(&p));
    assert_eq!(flag(true), 1);
    assert_eq!(flag(false), 2);
}

#[test]
fn relaunch_detection_and_parameters() {
    let args = |v: &[&str]| v.iter().map(|s| s.to_string()).collect::<Vec<String>>();
    assert!(is_relaunch(&args(&["polaris.exe", RELAUNCH_FLAG])));
    assert!(!is_relaunch(&args(&["polaris.exe", "--relaunch"])));
    assert_eq!(relaunch_params(&args(&["polaris.exe"])), std_wide("--relaunch-elevated"));
    assert_eq!(
        relaunch_params(&args(&["polaris.exe", "--startup"])),
        std_wide("--relaunch-elevated --startup")
    );
}

#[test]
fn fixed_wide_buffers_truncate_and_zero_fill() {
    let mut buf = [7u16; 6];
    write_wide(&mut buf, "Hello, world");
    assert_eq!(buf, [72, 101, 108, 108, 111, 0]);
    let mut buf = [7u16; 6];
    write_wide(&mut buf, "Hi");
    assert_eq!(buf, [72, 105, 0, 0, 0, 0]);
    let mut empty: [u16; 0] = [];
    write_wide(&mut empty, "x");
}

#[test]
fn small_ui_helpers() {
    assert_eq!(or_dash(""), "—");
    assert_eq!(or_dash("x"), "x");
    assert_eq!(yn(true), "yes");
    assert_eq!(yn(false), "no");
    assert_eq!(yn_key(true), "diagnostics.yes");
    assert_eq!(yn_key(false), "diagnostics.no");
}

#[test]
fn retention_picker_positions() {
    assert_eq!(retention_index(1), 0);
    assert_eq!(retention_index(3), 1);
    assert_eq!(retention_index(7), 2);
    assert_eq!(retention_index(14), 3);
    assert_eq!(retention_index(30), 4);
    assert_eq!(retention_index(5), 2);
    assert_eq!(retention_index(0), 2);
}

#[test]
fn export_names_are_sanitized() {
    assert_eq!(sanitize(""), "network");
    assert_eq!(sanitize("My net/1"), "My-net-1");
    assert_eq!(sanitize("家庭_网络-2"), "家庭_网络-2");
    assert_eq!(sanitize("a.b c"), "a-b-c");
}

#[test]
fn list_fields_split_into_trimmed_lines() {
    assert_eq!(split_lines(" a \n\n b\r\n"), vec!["a", "", "b", ""]);
    assert_eq!(split_lines(""), vec![""]);
    assert_eq!(split_lines("tcp://x:1"), vec!["tcp://x:1"]);
}
