use polaris_et::json::JsonNode;
use polaris_et::i18n::{
    flatten,
    is_zh, load, locale_is_zh, resolve, resolve_with_locale, t, tn, ts, Catalog, Language,
    Translator, EN, ZH,
};

const EN_JSON: &str = r#"{"nav":{"home":"Home","peers":"Peers"},"peers":{"count":"{n} peers"},"settings":{"language_follow":"Follow system"},"only_en":"English only","num":5}"#;
const ZH_JSON: &str = r#"{"nav":{"home":"主页"},"peers":{"count":"{n} 个节点"}}"#;

fn translator() -> Translator {
    Translator::new(EN_JSON, ZH_JSON)
}

#[test]
fn locale_documents_flatten_to_dotted_keys() {
    let c = load(EN_JSON);
    assert_eq!(c.get("nav.home").map(|s| s.as_str()), Some("Home"));
    assert_eq!(c.get("peers.count").map(|s| s.as_str()), Some("{n} peers"));
    assert_eq!(c.get("only_en").map(|s| s.as_str()), Some("English only"));
    // Non-string leaves are ignored.
    assert!(c.get("num").is_none());
    assert!(c.get("nav").is_none());
}

#[test]
fn invalid_locale_document_gives_empty_catalog() {
    let c = load("{ not json");
    assert!(c.entries.is_empty());
    assert!(c.get("nav.home").is_none());
}

#[test]
fn later_catalog_entries_override_earlier_ones() {
    let mut c = Catalog::new();
    c.insert("k".to_string(), "one".to_string());
    c.insert("k".to_string(), "two".to_string());
    assert_eq!(c.get("k").map(|s| s.as_str()), Some("two"));
}

#[test]
fn english_is_used_by_default_and_unknown_keys_pass_through() {
    let tr = translator();
    assert_eq!(tr.effective, EN);
    assert!(!is_zh(&tr));
    assert_eq!(t(&tr, "nav.home"), "Home");
    assert_eq!(t(&tr, "My net (3 peers)"), "My net (3 peers)");
    assert_eq!(ts(&tr, "nav.peers"), "Peers");
}

#[test]
fn chinese_falls_back_to_english_for_missing_keys() {
    let mut tr = translator();
    polaris_et::i18n::set(&mut tr, Language::Chinese);
    assert!(is_zh(&tr));
    assert_eq!(t(&tr, "nav.home"), "主页");
    assert_eq!(t(&tr, "nav.peers"), "Peers");
    assert_eq!(t(&tr, "unknown.key"), "unknown.key");
    polaris_et::i18n::set(&mut tr, Language::English);
    assert_eq!(tr.effective, EN);
    assert_eq!(t(&tr, "nav.home"), "Home");
}

#[test]
fn tn_substitutes_the_count() {
    let mut tr = translator();
    assert_eq!(tn(&tr, "peers.count", 3), "3 peers");
    polaris_et::i18n::set(&mut tr, Language::Chinese);
    assert_eq!(tn(&tr, "peers.count", 12), "12 个节点");
    assert_eq!(tn(&tr, "{n} connected", 2), "2 connected");
}

#[test]
fn language_picker_positions_round_trip() {
    for l in [Language::System, Language::English, Language::Chinese] {
        assert_eq!(Language::from_index(l.index()), l);
    }
    assert_eq!(Language::from_index(-4), Language::System);
    assert_eq!(Language::from_index(9), Language::System);
    assert_eq!(Language::English.index(), 1);
}

#[test]
fn language_labels() {
    let tr = translator();
    assert_eq!(Language::System.label(&tr), "Follow system");
    assert_eq!(Language::English.label(&tr), "English");
    assert_eq!(Language::Chinese.label(&tr), "中文");
}

#[test]
fn chinese_locales_are_detected_case_insensitively() {
    assert!(locale_is_zh(&Some("zh-CN".to_string())));
    assert!(locale_is_zh(&Some("ZH_tw".to_string())));
    assert!(locale_is_zh(&Some("zh".to_string())));
    assert!(!locale_is_zh(&Some("en-US".to_string())));
    assert!(!locale_is_zh(&Some("z".to_string())));
    assert!(!locale_is_zh(&None));
}

#[test]
fn preferences_resolve_to_effective_languages() {
    assert_eq!(resolve(Language::English), EN);
    assert_eq!(resolve(Language::Chinese), ZH);
    let r = resolve(Language::System);
    assert!(r == EN || r == ZH);
    assert_eq!(resolve_with_locale(Language::System, &Some("zh-Hans".to_string())), ZH);
    assert_eq!(resolve_with_locale(Language::System, &Some("de-DE".to_string())), EN);
    assert_eq!(resolve_with_locale(Language::System, &None), EN);
    assert_eq!(resolve_with_locale(Language::English, &Some("zh-CN".to_string())), EN);
}

#[test]
fn nested_members_flatten_under_their_prefix() {
    let v = JsonNode::Object(vec![
        ("a".to_string(), JsonNode::Object(vec![("b".to_string(), JsonNode::Str("x".to_string()))])),
        ("n".to_string(), JsonNode::Bool(true)),
        ("c".to_string(), JsonNode::Str("y".to_string())),
    ]);
    let mut c = Catalog::new();
    flatten("root".to_string(), &v, &mut c);
    assert_eq!(c.get("root.a.b").map(|s| s.as_str()), Some("x"));
    assert_eq!(c.get("root.c").map(|s| s.as_str()), Some("y"));
    assert!(c.get("root.n").is_none());
    assert_eq!(c.entries.len(), 2);
}
