//! In-app internationalization (English + Simplified Chinese).
//!
//! UI strings are referenced by namespaced keys (`tray.show_polaris`,
//! `network.general.profile_name`). Each language is a JSON locale document
//! whose nested objects are flattened into dotted keys; English is the
//! fallback for any key missing from Chinese, and an unknown key translates to
//! itself. The effective language lives in a [`Translator`].
use vstd::prelude::*;

use crate::json::{json_parse, parse_json, JsonNode};
use crate::text::{
    ascii_lower, decimal, decimal_string, owned, replace, replace_seq, to_ascii_lower,
};

verus! {

// ───────────────────────────── language choice ─────────────────────────────

/// The user-facing language preference.
#[derive(Clone, Copy, PartialEq, Eq, Debug, Structural)]
pub enum Language {
    /// Follow the operating system's UI language (English unless it is Chinese).
    System,
    English,
    Chinese,
}

/// The preference at `i` in the picker's order (`System`, `English`,
/// `Chinese`); negative indices count as 0 and indices past the end give
/// `System`.
pub open spec fn language_at(i: int) -> Language {
    if i <= 0 {
        Language::System
    } else if i == 1 {
        Language::English
    } else if i == 2 {
        Language::Chinese
    } else {
        Language::System
    }
}

/// Position of a preference in the picker's order.
pub open spec fn language_index(l: Language) -> int {
    match l {
        Language::System => 0,
        Language::English => 1,
        Language::Chinese => 2,
    }
}

impl Language {
    /// Label for the language picker: the "system" option is translated, the
    /// concrete languages always read in their own script.
    pub fn label(self, tr: &Translator) -> (r: String)
        ensures
            self == Language::System ==> r@ == tr.translate("settings.language_follow"@),
            self == Language::English ==> r@ == "English"@,
            self == Language::Chinese ==> r@ == "中文"@,
    {
        match self {
            Language::System => t(tr, "settings.language_follow"),
            Language::English => owned("English"),
            Language::Chinese => owned("中文"),
        }
    }

    /// Position in the picker.
    pub fn index(self) -> (r: i32)
        ensures
            r == language_index(self),
    {
        match self {
            Language::System => 0,
            Language::English => 1,
            Language::Chinese => 2,
        }
    }

    /// The preference at picker position `i`.
    pub fn from_index(i: i32) -> (r: Language)
        ensures
            r == language_at(i as int),
    {
        if i <= 0 {
            Language::System
        } else if i == 1 {
            Language::English
        } else if i == 2 {
            Language::Chinese
        } else {
            Language::System
        }
    }
}

/// Picker positions and preferences correspond one to one.
pub proof fn lemma_language_index_roundtrip(l: Language)
    ensures
        language_at(language_index(l)) == l,
        0 <= language_index(l) < 3,
{
}

// ──────────────────────────────── catalogs ─────────────────────────────────

/// The translations of one language: key/text pairs, where a later pair
/// overrides an earlier one with the same key.
pub struct Catalog {
    pub entries: Vec<(String, String)>,
}

/// The character views of key/text pairs.
pub open spec fn pair_views(s: Seq<(String, String)>) -> Seq<(Seq<char>, Seq<char>)> {
    s.map_values(|p: (String, String)| (p.0@, p.1@))
}

/// The lookup table that a list of pairs describes (later pairs win).
pub open spec fn pairs_map(s: Seq<(Seq<char>, Seq<char>)>) -> Map<Seq<char>, Seq<char>>
    decreases s.len(),
{
    if s.len() == 0 {
        Map::empty()
    } else {
        pairs_map(s.drop_last()).insert(s.last().0, s.last().1)
    }
}

impl View for Catalog {
    type V = Map<Seq<char>, Seq<char>>;

    open spec fn view(&self) -> Map<Seq<char>, Seq<char>> {
        pairs_map(pair_views(self.entries@))
    }
}

proof fn lemma_pairs_map_prefix(s: Seq<(Seq<char>, Seq<char>)>, j: int, k: Seq<char>)
    requires
        0 <= j <= s.len(),
        forall|i: int| j <= i < s.len() ==> (#[trigger] s[i]).0 != k,
    ensures
        pairs_map(s).contains_key(k) == pairs_map(s.take(j)).contains_key(k),
        pairs_map(s).contains_key(k) ==> pairs_map(s)[k] == pairs_map(s.take(j))[k],
    decreases s.len() - j,
{
    if j == s.len() {
        assert(s.take(j) =~= s);
    } else {
        let t = s.drop_last();
        assert forall|i: int| j <= i < t.len() implies (#[trigger] t[i]).0 != k by {
            assert(t[i] == s[i]);
        }
        lemma_pairs_map_prefix(t, j, k);
        assert(t.take(j) =~= s.take(j));
    }
}

impl Catalog {
    /// An empty catalog.
    pub fn new() -> (r: Catalog)
        ensures
            r@ == Map::<Seq<char>, Seq<char>>::empty(),
            r.entries@.len() == 0,
    {
        Catalog { entries: Vec::new() }
    }

    /// Records `text` under `key`, replacing any earlier text for it.
    pub fn insert(&mut self, key: String, text: String)
        ensures
            pair_views(final(self).entries@) == pair_views(old(self).entries@).push((key@, text@)),
            final(self)@ == old(self)@.insert(key@, text@),
    {
        let ghost k = key@;
        let ghost v = text@;
        self.entries.push((key, text));
        proof {
            assert(pair_views(self.entries@) =~= pair_views(old(self).entries@).push((k, v)));
            assert(pair_views(self.entries@).drop_last() =~= pair_views(old(self).entries@));
        }
    }

    /// The text recorded for `key`, if any.
    pub fn get<'a>(&'a self, key: &str) -> (r: Option<&'a String>)
        ensures
            r is Some <==> self@.contains_key(key@),
            r is Some ==> r.unwrap()@ == self@[key@],
    {
        let k = owned(key);
        let ghost s = pair_views(self.entries@);
        let mut j = self.entries.len();
        while j > 0
            invariant
                j <= self.entries.len(),
                s == pair_views(self.entries@),
                k@ == key@,
                forall|i: int| j <= i < s.len() ==> (#[trigger] s[i]).0 != key@,
            decreases j,
        {
            if self.entries[j - 1].0 == k {
                proof {
                    lemma_pairs_map_prefix(s, j as int, key@);
                    assert(s.take(j as int).drop_last() =~= s.take(j - 1));
                    assert(s.take(j as int).last() == s[j - 1]);
                }
                return Some(&self.entries[j - 1].1);
            }
            j = j - 1;
        }
        proof {
            lemma_pairs_map_prefix(s, 0, key@);
            assert(s.take(0) =~= Seq::<(Seq<char>, Seq<char>)>::empty());
        }
        None
    }
}

// ─────────────────────────── locale documents ──────────────────────────────

/// The dotted key of member `k` under `prefix`.
pub open spec fn join_key(prefix: Seq<char>, k: Seq<char>) -> Seq<char> {
    if prefix.len() == 0 {
        k
    } else {
        prefix + seq!['.'] + k
    }
}

/// The key/text pairs of a JSON value whose path so far is `prefix`: a string
/// gives one pair, an object the pairs of its members in order, anything
/// else none.
pub open spec fn flat_node(prefix: Seq<char>, v: JsonNode) -> Seq<(Seq<char>, Seq<char>)>
    decreases v,
{
    match v {
        JsonNode::Object(m) => flat_members(prefix, m@),
        JsonNode::Str(s) => seq![(prefix, s@)],
        _ => Seq::empty(),
    }
}

/// The key/text pairs of object members `m` under `prefix`.
pub open spec fn flat_members(prefix: Seq<char>, m: Seq<(String, JsonNode)>) -> Seq<
    (Seq<char>, Seq<char>),
>
    decreases m,
{
    if m.len() == 0 {
        Seq::empty()
    } else {
        flat_members(prefix, m.drop_last()) + flat_node(
            join_key(prefix, m.last().0@),
            m.last().1,
        )
    }
}

/// Appends the pairs of `v`, found under `prefix`, to `out`: the texts of
/// its strings under their dotted keys, nested objects flattened in member
/// order, other values skipped.
pub fn flatten(prefix: String, v: &JsonNode, out: &mut Catalog)
    ensures
        pair_views(final(out).entries@) == pair_views(old(out).entries@) + flat_node(prefix@, *v),
        final(out)@ == pairs_map(pair_views(old(out).entries@) + flat_node(prefix@, *v)),
    decreases v,
{
    match v {
        JsonNode::Object(map) => {
            let mut i: usize = 0;
            proof {
                assert(map@.take(0) =~= Seq::<(String, JsonNode)>::empty());
                assert(pair_views(out.entries@) =~= pair_views(old(out).entries@) + flat_members(
                    prefix@,
                    map@.take(0),
                ));
            }
            while i < map.len()
                invariant
                    i <= map.len(),
                    *v is Object,
                    (*v)->Object_0 == *map,
                    pair_views(out.entries@) == pair_views(old(out).entries@) + flat_members(
                        prefix@,
                        map@.take(i as int),
                    ),
                decreases map.len() - i,
            {
                let k = &map[i].0;
                let key = if prefix.as_str().is_empty() {
                    k.clone()
                } else {
                    let mut s = prefix.clone();
                    crate::text::push_char(&mut s, '.');
                    crate::text::push_str(&mut s, k.as_str());
                    s
                };
                proof {
                    assert(key@ =~= join_key(prefix@, map@[i as int].0@));
                }
                proof {
                    assert(decreases_to!(*v => (*v)->Object_0));
                    assert(decreases_to!(*map => map@));
                    assert(decreases_to!(map@ => map@[i as int]));
                    assert(decreases_to!(map@[i as int] => map@[i as int].1));
                }
                flatten(key, &map[i].1, out);
                proof {
                    let t = map@.take(i + 1);
                    assert(t.drop_last() =~= map@.take(i as int));
                    assert(t.last() == map@[i as int]);
                    assert(pair_views(out.entries@) =~= pair_views(old(out).entries@)
                        + flat_members(prefix@, t));
                }
                i = i + 1;
            }
            proof {
                assert(map@.take(map.len() as int) =~= map@);
            }
        },
        JsonNode::Str(s) => {
            out.insert(prefix, s.clone());
            proof {
                assert(pair_views(out.entries@) =~= pair_views(old(out).entries@) + flat_node(
                    prefix@,
                    *v,
                ));
            }
        },
        _ => {
            proof {
                assert(pair_views(out.entries@) =~= pair_views(old(out).entries@) + flat_node(
                    prefix@,
                    *v,
                ));
            }
        },
    }
}

/// The catalog that a locale document describes: its nested objects
/// flattened into dotted keys, or nothing when the text is not JSON.
pub open spec fn locale_map(src: Seq<char>) -> Map<Seq<char>, Seq<char>> {
    match json_parse(src) {
        Some(v) => pairs_map(flat_node(Seq::empty(), v)),
        None => Map::empty(),
    }
}

/// Parses a locale JSON document and flattens its nested objects into dotted
/// keys.
pub fn load(src: &str) -> (r: Catalog)
    ensures
        r@ == locale_map(src@),
{
    let mut out = Catalog::new();
    match parse_json(src) {
        Some(v) => {
            let prefix = String::new();
            flatten(prefix, &v, &mut out);
            proof {
                assert(pair_views(out.entries@) =~= flat_node(Seq::empty(), v));
            }
        },
        None => {},
    }
    out
}

// ────────────────────────────── translation ────────────────────────────────

/// Effective language code for English.
pub const EN: u8 = 0;

/// Effective language code for Chinese.
pub const ZH: u8 = 1;

/// The effective language and the two catalogs.
pub struct Translator {
    pub effective: u8,
    pub en: Catalog,
    pub zh: Catalog,
}

impl Translator {
    /// The text shown for `key`: Chinese when that is the effective language
    /// and it has the key, else English when it has the key, else the key.
    pub open spec fn translate(&self, key: Seq<char>) -> Seq<char> {
        if self.effective == ZH && self.zh@.contains_key(key) {
            self.zh@[key]
        } else if self.en@.contains_key(key) {
            self.en@[key]
        } else {
            key
        }
    }

    /// A translator over the English and Chinese locale documents, starting
    /// in English.
    pub fn new(en_json: &str, zh_json: &str) -> (r: Translator)
        ensures
            r.effective == EN,
            r.en@ == locale_map(en_json@),
            r.zh@ == locale_map(zh_json@),
    {
        Translator { effective: EN, en: load(en_json), zh: load(zh_json) }
    }

    /// A translator over the given catalogs, starting in English.
    pub fn from_catalogs(en: Catalog, zh: Catalog) -> (r: Translator)
        ensures
            r.effective == EN,
            r.en == en,
            r.zh == zh,
    {
        Translator { effective: EN, en, zh }
    }
}

/// Whether a locale name (`zh-CN`, `zh_Hans`, `ZH-tw`, …) is Chinese: its
/// ASCII-lower-cased form starts with `zh`.
pub open spec fn is_zh_locale(l: Seq<char>) -> bool {
    l.len() >= 2 && ascii_lower(l[0]) == 'z' && ascii_lower(l[1]) == 'h'
}

/// Whether the operating system's locale, if known, is Chinese.
pub fn locale_is_zh(locale: &Option<String>) -> (r: bool)
    ensures
        r == (locale is Some && is_zh_locale(locale.unwrap()@)),
{
    match locale {
        Some(l) => {
            let v = crate::text::chars_of(l.as_str());
            v.len() >= 2 && to_ascii_lower(v[0]) == 'z' && to_ascii_lower(v[1]) == 'h'
        },
        None => false,
    }
}

/// The operating system's UI locale (`sys_locale::get_locale`). It depends on
/// the machine, so nothing is claimed of it.
#[verifier::external_body]
fn os_locale() -> Option<String> {
    sys_locale::get_locale()
}

/// Chinese if the OS UI locale starts with `zh`, English otherwise.
fn detect_os() -> (r: u8)
    ensures
        r == EN || r == ZH,
{
    resolve_with_locale(Language::System, &os_locale())
}

/// The effective language for a preference whose `System` choice follows a
/// locale whose Chinese-ness is `os_zh`.
pub open spec fn effective_for(lang: Language, os_zh: bool) -> u8 {
    match lang {
        Language::English => EN,
        Language::Chinese => ZH,
        Language::System => if os_zh { ZH } else { EN },
    }
}

/// Resolves a preference to a concrete language, asking the OS for `System`.
pub fn resolve(lang: Language) -> (r: u8)
    ensures
        r == EN || r == ZH,
        lang != Language::System ==> r == effective_for(lang, false),
{
    match lang {
        Language::English => EN,
        Language::Chinese => ZH,
        Language::System => detect_os(),
    }
}

/// Resolves a preference given the OS locale.
pub fn resolve_with_locale(lang: Language, locale: &Option<String>) -> (r: u8)
    ensures
        r == effective_for(lang, locale is Some && is_zh_locale(locale.unwrap()@)),
{
    match lang {
        Language::English => EN,
        Language::Chinese => ZH,
        Language::System => if locale_is_zh(locale) {
            ZH
        } else {
            EN
        },
    }
}

/// Applies the preference.
pub fn set(tr: &mut Translator, lang: Language)
    ensures
        final(tr).effective == EN || final(tr).effective == ZH,
        lang != Language::System ==> final(tr).effective == effective_for(lang, false),
        final(tr).en == old(tr).en,
        final(tr).zh == old(tr).zh,
{
    tr.effective = resolve(lang);
}

/// Whether the effective language is Chinese.
pub fn is_zh(tr: &Translator) -> (r: bool)
    ensures
        r == (tr.effective == ZH),
{
    tr.effective == ZH
}

/// Translates a key; unknown keys come back verbatim.
pub fn t(tr: &Translator, key: &str) -> (r: String)
    ensures
        r@ == tr.translate(key@),
{
    let s = ts(tr, key);
    owned(s)
}

/// Translates a key to a borrowed string; unknown keys return themselves.
pub fn ts<'a>(tr: &'a Translator, key: &'a str) -> (r: &'a str)
    ensures
        r@ == tr.translate(key@),
{
    if is_zh(tr) {
        if let Some(s) = tr.zh.get(key) {
            return s.as_str();
        }
    }
    match tr.en.get(key) {
        Some(s) => s.as_str(),
        None => key,
    }
}

/// Translates a key whose text contains `{n}`, then substitutes the count.
pub fn tn(tr: &Translator, key: &str, n: usize) -> (r: String)
    ensures
        r@ == replace_seq(tr.translate(key@), "{n}"@, decimal(n as nat)),
{
    let s = t(tr, key);
    let count = decimal_string(n as u64);
    proof {
        reveal_strlit("{n}");
    }
    replace(s.as_str(), "{n}", count.as_str())
}

// ─────────────────────────────────── laws ──────────────────────────────────

/// A catalog gives back for a key the text last recorded under it, and
/// recording one key leaves every other key as it was.
pub proof fn lemma_catalog_read_back(before: Catalog, after: Catalog, key: Seq<char>, text: Seq<char>, other: Seq<char>)
    requires
        after@ == before@.insert(key, text),
        other != key,
    ensures
        after@.contains_key(key),
        after@[key] == text,
        after@.contains_key(other) == before@.contains_key(other),
        before@.contains_key(other) ==> after@[other] == before@[other],
{
}

/// English is the fallback of every other language and unknown keys pass
/// through: Chinese text is shown only where Chinese is effective and has the
/// key, English text wherever English has the key and Chinese does not win,
/// and a key that no catalog holds is shown as itself.
pub proof fn lemma_translate_fallback(tr: Translator, key: Seq<char>)
    ensures
        tr.effective == ZH && tr.zh@.contains_key(key) ==> tr.translate(key) == tr.zh@[key],
        !(tr.effective == ZH && tr.zh@.contains_key(key)) && tr.en@.contains_key(key) ==> tr.translate(key) == tr.en@[key],
        !tr.en@.contains_key(key) && !tr.zh@.contains_key(key) ==> tr.translate(key) == key,
        tr.effective != ZH ==> tr.translate(key) == (if tr.en@.contains_key(key) { tr.en@[key] } else { key }),
{
}

} // verus!
