use polaris_et::config::LogLevel;
use polaris_et::logging::{
    clear, env_filter_directive, export_text, is_expired, is_log_file, push_ring, recent, LogRing, DAY_NANOS, RING_CAP,
};

fn lines(r: &LogRing) -> Vec<String> {
    r.lines.iter().cloned().collect()
}

#[test]
fn rendered_text_is_split_into_trimmed_nonempty_lines() {
    let mut r = LogRing::new();
    push_ring(&mut r, "first\r\n\nsecond\r\r\nthird");
    assert_eq!(lines(&r), vec!["first", "second", "third"]);
}

#[test]
fn blank_and_carriage_return_only_text_adds_nothing() {
    let mut r = LogRing::new();
    push_ring(&mut r, "");
    push_ring(&mut r, "\n\r\n\r");
    assert!(r.lines.is_empty());
}

#[test]
fn only_trailing_carriage_returns_are_removed() {
    let mut r = LogRing::new();
    push_ring(&mut r, "\ra\rb\r\n");
    assert_eq!(lines(&r), vec!["\ra\rb"]);
}

#[test]
fn ring_keeps_the_newest_lines() {
    let mut r = LogRing::new();
    for i in 0..(RING_CAP + 5) {
        push_ring(&mut r, &format!("line {i}\n"));
    }
    assert_eq!(r.lines.len(), RING_CAP);
    assert_eq!(r.lines.front().map(|s| s.as_str()), Some("line 5"));
    let last = format!("line {}", RING_CAP + 4);
    assert_eq!(r.lines.back(), Some(&last));
}

#[test]
fn one_push_with_many_lines_also_evicts() {
    let mut r = LogRing::new();
    let mut text = String::new();
    for i in 0..(RING_CAP + 2) {
        text.push_str(&format!("{i}\n"));
    }
    push_ring(&mut r, &text);
    assert_eq!(r.lines.len(), RING_CAP);
    assert_eq!(r.lines.front().map(|s| s.as_str()), Some("2"));
}

#[test]
fn recent_returns_the_newest_lines_oldest_first() {
    let mut r = LogRing::new();
    push_ring(&mut r, "a\nb\nc\nd");
    assert_eq!(recent(&r, 2), vec!["c", "d"]);
    assert_eq!(recent(&r, 10), vec!["a", "b", "c", "d"]);
    assert!(recent(&r, 0).is_empty());
}

#[test]
fn clear_empties_the_ring() {
    let mut r = LogRing::new();
    push_ring(&mut r, "a\nb");
    clear(&mut r);
    assert!(r.lines.is_empty());
    assert!(recent(&r, 5).is_empty());
}

#[test]
fn filter_directives_per_level() {
    assert_eq!(env_filter_directive(LogLevel::Off), "off");
    assert_eq!(env_filter_directive(LogLevel::Info), "warn,polaris_et=info,easytier=info");
    assert_eq!(env_filter_directive(LogLevel::Trace), "warn,polaris_et=trace,easytier=trace");
    assert_eq!(env_filter_directive(LogLevel::Warn), "warn,polaris_et=warn,easytier=warn");
}

#[test]
fn log_files_expire_after_the_retention() {
    let now = 100 * DAY_NANOS;
    assert!(is_expired(now - 7 * DAY_NANOS - 1, now, 7));
    assert!(!is_expired(now - 7 * DAY_NANOS, now, 7));
    assert!(!is_expired(now, now, 0));
    assert!(is_expired(now - 1, now, 0));
    // A retention reaching back before the epoch keeps everything.
    assert!(!is_expired(0, now, 365));
    assert!(!is_expired(0, 0, u32::MAX));
}

#[test]
fn log_files_and_export_text() {
    assert!(is_log_file("polaris-2024-01-01.log"));
    assert!(is_log_file("..log"));
    assert!(!is_log_file(".log"));
    assert!(!is_log_file("log"));
    assert!(!is_log_file("a.LOG"));
    assert!(!is_log_file("a.log.txt"));
    let files = vec![
        ("a.log".to_string(), Some("one\n".to_string())),
        ("b.log".to_string(), None),
    ];
    assert_eq!(export_text("Polaris 1.0", &files), "Polaris 1.0\n\n\n===== a.log =====\none\n\n===== b.log =====\n");
    assert_eq!(export_text("H", &Vec::new()), "H\n\n");
}
