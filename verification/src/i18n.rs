//! Localized messages: the catalog of message templates per language, the
//! choice of a language from a locale tag, and the filling of `{n}`
//! placeholders.
use vstd::prelude::*;
use crate::symbols::{pairs_view, strings_view};
use crate::text::{chars_of, lowercase, range_starts_with, starts_with, string_of_all, to_lowercase};

verus! {

/// The messages the auditor and the editor integration produce.
pub enum MessageKey {
    MissingInCode(String),
    KindMismatch(String, String, String),
    TypeMismatch(String, String, String, String),
    VarTypeMismatch(String, String, String),
    ParamCountMismatch(String, usize, usize),
    ReturnTypeMismatch(String, String, String),
    LineNumberMissing(String),
    LineNumberMismatch(String, String, String),
    DependencyNotUsed(String, String),
    DeadCode(String),
    ReportTitle,
    ReportHeader,
    ReportSectionTitle,
    CodeActionTitle(String),
}

// ---------------------------------------------------------------------------
// Decimal numerals

pub open spec fn digit_char(d: nat) -> char {
    ((d % 10) + 48) as char
}

/// The decimal numeral of `n`, as `usize::to_string` writes it.
pub open spec fn decimal(n: nat) -> Seq<char>
    decreases n,
{
    if n < 10 {
        seq![digit_char(n)]
    } else {
        decimal(n / 10) + seq![digit_char(n % 10)]
    }
}

pub fn push_decimal(out: &mut Vec<char>, n: usize)
    ensures
        final(out)@ == old(out)@ + decimal(n as nat),
    decreases n,
{
    if n >= 10 {
        push_decimal(out, n / 10);
    }
    let d: u8 = (n % 10) as u8;
    let c: char = (d + 48u8) as char;
    assert(c == digit_char(n as nat));
    out.push(c);
}

/// The decimal numeral of `n`.
pub fn decimal_string(n: usize) -> (s: String)
    ensures
        s@ == decimal(n as nat),
{
    let mut v: Vec<char> = Vec::new();
    push_decimal(&mut v, n);
    assert(v@ =~= decimal(n as nat));
    string_of_all(v.as_slice())
}

// ---------------------------------------------------------------------------
// Replacing a pattern

/// `s` with every occurrence of `pat` replaced by `rep`, scanning from the
/// left and never overlapping, as `str::replace` does for a non-empty `pat`.
pub open spec fn replace_all(s: Seq<char>, pat: Seq<char>, rep: Seq<char>) -> Seq<char>
    recommends
        pat.len() > 0,
    decreases s.len(),
{
    if s.len() == 0 {
        seq![]
    } else if pat.len() > 0 && starts_with(s, pat) {
        rep + replace_all(s.skip(pat.len() as int), pat, rep)
    } else {
        seq![s[0]] + replace_all(s.drop_first(), pat, rep)
    }
}

/// `true` when `pat` occurs in `s` at position `i`.
fn occurs_at(s: &Vec<char>, i: usize, pat: &Vec<char>) -> (b: bool)
    requires
        i <= s@.len(),
    ensures
        b == starts_with(s@.skip(i as int), pat@),
{
    if pat.len() > s.len() - i {
        return false;
    }
    let mut k: usize = 0;
    while k < pat.len()
        invariant
            i + pat@.len() <= s@.len(),
            s@.len() == s.len(),
            k <= pat@.len(),
            forall|m: int| 0 <= m < k ==> s@[i + m] == pat@[m],
        decreases pat@.len() - k,
    {
        if s[i + k] != pat[k] {
            assert(s@.skip(i as int).subrange(0, pat@.len() as int)[k as int] != pat@[k as int]);
            return false;
        }
        k = k + 1;
    }
    assert(s@.skip(i as int).subrange(0, pat@.len() as int) =~= pat@);
    true
}

/// Replaces every occurrence of `pat` in `s` by `rep`.
pub fn replace_chars(s: &Vec<char>, pat: &Vec<char>, rep: &Vec<char>) -> (r: Vec<char>)
    requires
        pat@.len() > 0,
    ensures
        r@ == replace_all(s@, pat@, rep@),
{
    let mut out: Vec<char> = Vec::new();
    let mut i: usize = 0;
    assert(s@.skip(0) == s@);
    while i < s.len()
        invariant
            pat@.len() > 0,
            i <= s@.len(),
            out@ + replace_all(s@.skip(i as int), pat@, rep@) == replace_all(s@, pat@, rep@),
        decreases s@.len() - i,
    {
        if occurs_at(s, i, pat) {
            let ghost before = out@;
            let mut k: usize = 0;
            while k < rep.len()
                invariant
                    k <= rep@.len(),
                    out@ == before + rep@.take(k as int),
                decreases rep@.len() - k,
            {
                out.push(rep[k]);
                assert(rep@.take(k + 1) == rep@.take(k as int).push(rep@[k as int]));
                k = k + 1;
            }
            assert(rep@.take(rep@.len() as int) == rep@);
            assert(s@.skip(i as int).skip(pat@.len() as int) == s@.skip(i + pat@.len()));
            assert(out@ + replace_all(s@.skip(i + pat@.len()), pat@, rep@)
                == before + (rep@ + replace_all(s@.skip(i as int).skip(pat@.len() as int), pat@, rep@)));
            i = i + pat.len();
        } else {
            let ghost before = out@;
            out.push(s[i]);
            assert(s@.skip(i as int).drop_first() == s@.skip(i + 1));
            assert(out@ + replace_all(s@.skip(i + 1), pat@, rep@)
                == before + (seq![s@[i as int]] + replace_all(s@.skip(i as int).drop_first(), pat@, rep@)));
            i = i + 1;
        }
    }
    assert(s@.skip(i as int).len() == 0);
    assert(out@ + seq![] == out@);
    out
}

// ---------------------------------------------------------------------------
// Filling placeholders

/// The placeholder `{i}`.
pub open spec fn placeholder(i: nat) -> Seq<char> {
    seq!['{'] + decimal(i) + seq!['}']
}

/// `template` after the placeholders `{0}` .. `{n-1}` have been replaced, in
/// that order, by the first `n` arguments.
pub open spec fn fill_first(template: Seq<char>, args: Seq<Seq<char>>, n: nat) -> Seq<char>
    decreases n,
{
    if n == 0 {
        template
    } else {
        replace_all(fill_first(template, args, (n - 1) as nat), placeholder((n - 1) as nat), args[n - 1])
    }
}

/// `template` with every placeholder `{i}` replaced by `args[i]`, one after
/// the other from `{0}` on.
pub open spec fn fill_placeholders(template: Seq<char>, args: Seq<Seq<char>>) -> Seq<char> {
    fill_first(template, args, args.len())
}

pub open spec fn strs_view(args: Seq<&str>) -> Seq<Seq<char>> {
    args.map_values(|a: &str| a@)
}

/// Replaces the placeholder `{i}` of `template` by `args[i]`.
pub fn format_msg(template: &str, args: &[&str]) -> (r: String)
    ensures
        r@ == fill_placeholders(template@, strs_view(args@)),
{
    let ghost argv = strs_view(args@);
    let mut result = chars_of(template);
    let mut i: usize = 0;
    while i < args.len()
        invariant
            i <= args@.len(),
            argv == strs_view(args@),
            result@ == fill_first(template@, argv, i as nat),
        decreases args@.len() - i,
    {
        let mut pat: Vec<char> = Vec::new();
        pat.push('{');
        push_decimal(&mut pat, i);
        pat.push('}');
        assert(pat@ =~= placeholder(i as nat));
        let rep = chars_of(args[i]);
        result = replace_chars(&result, &pat, &rep);
        i = i + 1;
    }
    string_of_all(result.as_slice())
}

// ---------------------------------------------------------------------------
// Locales

/// The language whose messages serve a locale tag, already lowercased.
pub open spec fn locale_language(loc: Seq<char>) -> Seq<char> {
    if starts_with(loc, "ja"@) {
        "ja"@
    } else if starts_with(loc, "zh-cn"@) || starts_with(loc, "zh-hans"@) {
        "zh-cn"@
    } else if starts_with(loc, "zh-tw"@) || starts_with(loc, "zh-hk"@) || starts_with(loc, "zh-hant"@) {
        "zh-tw"@
    } else if starts_with(loc, "ko"@) {
        "ko"@
    } else if starts_with(loc, "et"@) {
        "et"@
    } else if starts_with(loc, "vi"@) {
        "vi"@
    } else if starts_with(loc, "es"@) {
        "es"@
    } else if starts_with(loc, "fr"@) {
        "fr"@
    } else if starts_with(loc, "de"@) {
        "de"@
    } else {
        "en"@
    }
}

/// The language for a locale tag as the editor sends it.
pub open spec fn language_of_locale(locale: Seq<char>) -> Seq<char> {
    locale_language(lowercase(locale))
}

/// The language whose messages serve `locale`.
pub fn resolve_language(locale: &str) -> (lang: &'static str)
    ensures
        lang@ == language_of_locale(locale@),
{
    let lowered = to_lowercase(locale);
    let v = chars_of(lowered.as_str());
    let n = v.len();
    assert(v@.subrange(0, n as int) == v@);
    if range_starts_with(v.as_slice(), 0, n, "ja") {
        "ja"
    } else if range_starts_with(v.as_slice(), 0, n, "zh-cn") || range_starts_with(v.as_slice(), 0, n, "zh-hans") {
        "zh-cn"
    } else if range_starts_with(v.as_slice(), 0, n, "zh-tw") || range_starts_with(v.as_slice(), 0, n, "zh-hk")
        || range_starts_with(v.as_slice(), 0, n, "zh-hant") {
        "zh-tw"
    } else if range_starts_with(v.as_slice(), 0, n, "ko") {
        "ko"
    } else if range_starts_with(v.as_slice(), 0, n, "et") {
        "et"
    } else if range_starts_with(v.as_slice(), 0, n, "vi") {
        "vi"
    } else if range_starts_with(v.as_slice(), 0, n, "es") {
        "es"
    } else if range_starts_with(v.as_slice(), 0, n, "fr") {
        "fr"
    } else if range_starts_with(v.as_slice(), 0, n, "de") {
        "de"
    } else {
        "en"
    }
}

// ---------------------------------------------------------------------------
// The catalog

/// The templates of one language, keyed by template name.
pub struct LocaleTable {
    pub lang: String,
    pub entries: Vec<(String, String)>,
}

/// The templates of every language.
pub struct LocaleCatalog {
    pub tables: Vec<LocaleTable>,
}

/// The view of a catalog: each language with its (key, template) pairs.
pub open spec fn catalog_view(c: LocaleCatalog) -> Seq<(Seq<char>, Seq<(Seq<char>, Seq<char>)>)> {
    c.tables@.map_values(|t: LocaleTable| (t.lang@, pairs_view(t.entries@)))
}

/// The value of the first pair whose key is `key`.
pub open spec fn lookup(pairs: Seq<(Seq<char>, Seq<char>)>, key: Seq<char>) -> Option<Seq<char>>
    decreases pairs.len(),
{
    if pairs.len() == 0 {
        None
    } else if pairs[0].0 == key {
        Some(pairs[0].1)
    } else {
        lookup(pairs.drop_first(), key)
    }
}

/// The templates of the first table of language `lang`.
pub open spec fn find_table(
    tables: Seq<(Seq<char>, Seq<(Seq<char>, Seq<char>)>)>,
    lang: Seq<char>,
) -> Option<Seq<(Seq<char>, Seq<char>)>>
    decreases tables.len(),
{
    if tables.len() == 0 {
        None
    } else if tables[0].0 == lang {
        Some(tables[0].1)
    } else {
        find_table(tables.drop_first(), lang)
    }
}

/// What `serde_json` reads from a JSON object whose values are all strings:
/// its (key, value) pairs in the ascending order of the keys, a later value
/// replacing an earlier one of the same key; `None` for any other text.
pub uninterp spec fn json_string_object(text: Seq<char>) -> Option<Seq<(Seq<char>, Seq<char>)>>;

/// Calls `serde_json::from_str` for a `BTreeMap<String, String>`, which holds
/// its keys in ascending order; the result depends on `text` alone.
#[verifier::external_body]
fn json_string_pairs(text: &str) -> (r: Option<Vec<(String, String)>>)
    ensures
        match r {
            Some(v) => json_string_object(text@) == Some(pairs_view(v@)),
            None => json_string_object(text@) is None,
        },
{
    let map: std::collections::BTreeMap<String, String> = serde_json::from_str(text).ok()?;
    Some(map.into_iter().collect())
}

impl LocaleTable {
    /// Reads the templates of language `lang` from a JSON object of strings;
    /// `None` where the text is no such object.
    pub fn from_json(lang: &str, json: &str) -> (t: Option<LocaleTable>)
        ensures
            match t {
                Some(t) => t.lang@ == lang@ && json_string_object(json@) == Some(pairs_view(t.entries@)),
                None => json_string_object(json@) is None,
            },
    {
        match json_string_pairs(json) {
            Some(entries) => Some(LocaleTable { lang: String::from_str(lang), entries }),
            None => None,
        }
    }

    /// The template stored under `key`.
    pub fn get(&self, key: &str) -> (r: Option<&String>)
        ensures
            match r {
                Some(s) => lookup(pairs_view(self.entries@), key@) == Some(s@),
                None => lookup(pairs_view(self.entries@), key@) is None,
            },
    {
        let ghost all = pairs_view(self.entries@);
        let mut i: usize = 0;
        assert(all.skip(0) == all);
        while i < self.entries.len()
            invariant
                i <= self.entries@.len(),
                all == pairs_view(self.entries@),
                lookup(all, key@) == lookup(all.skip(i as int), key@),
            decreases self.entries@.len() - i,
        {
            let (k, v) = &self.entries[i];
            if crate::text::str_is(k.as_str(), key) {
                return Some(v);
            }
            assert(all.skip(i as int).drop_first() == all.skip(i + 1));
            i = i + 1;
        }
        None
    }
}

impl LocaleCatalog {
    pub fn new() -> (c: LocaleCatalog)
        ensures
            catalog_view(c) == Seq::<(Seq<char>, Seq<(Seq<char>, Seq<char>)>)>::empty(),
    {
        let c = LocaleCatalog { tables: Vec::new() };
        assert(catalog_view(c) =~= Seq::<(Seq<char>, Seq<(Seq<char>, Seq<char>)>)>::empty());
        c
    }

    /// Adds the templates of one more language after the others.
    pub fn add(&mut self, table: LocaleTable)
        ensures
            catalog_view(*final(self)) == catalog_view(*old(self)).push((table.lang@, pairs_view(table.entries@))),
    {
        self.tables.push(table);
        assert(catalog_view(*self) =~= catalog_view(*old(self)).push((table.lang@, pairs_view(table.entries@))));
    }

    /// The first table of language `lang`.
    pub fn table(&self, lang: &str) -> (r: Option<&LocaleTable>)
        ensures
            match r {
                Some(t) => find_table(catalog_view(*self), lang@) == Some(pairs_view(t.entries@)),
                None => find_table(catalog_view(*self), lang@) is None,
            },
    {
        let ghost all = catalog_view(*self);
        let mut i: usize = 0;
        assert(all.skip(0) == all);
        while i < self.tables.len()
            invariant
                i <= self.tables@.len(),
                all == catalog_view(*self),
                find_table(all, lang@) == find_table(all.skip(i as int), lang@),
            decreases self.tables@.len() - i,
        {
            if crate::text::str_is(self.tables[i].lang.as_str(), lang) {
                return Some(&self.tables[i]);
            }
            assert(all.skip(i as int).drop_first() == all.skip(i + 1));
            i = i + 1;
        }
        None
    }
}

// ---------------------------------------------------------------------------
// Messages

/// The name of the template of a message.
pub open spec fn template_key(key: MessageKey) -> Seq<char> {
    match key {
        MessageKey::MissingInCode(..) => "missing_in_code"@,
        MessageKey::KindMismatch(..) => "kind_mismatch"@,
        MessageKey::TypeMismatch(..) => "type_mismatch"@,
        MessageKey::VarTypeMismatch(..) => "var_type_mismatch"@,
        MessageKey::ParamCountMismatch(..) => "param_count_mismatch"@,
        MessageKey::ReturnTypeMismatch(..) => "return_type_mismatch"@,
        MessageKey::LineNumberMissing(..) => "line_number_missing"@,
        MessageKey::LineNumberMismatch(..) => "line_number_mismatch"@,
        MessageKey::DependencyNotUsed(..) => "dependency_not_used"@,
        MessageKey::DeadCode(..) => "dead_code"@,
        MessageKey::ReportTitle => "report_title"@,
        MessageKey::ReportHeader => "report_header"@,
        MessageKey::ReportSectionTitle => "report_section_title"@,
        MessageKey::CodeActionTitle(..) => "code_action_title"@,
    }
}

/// The arguments that fill the template of a message, in placeholder order.
pub open spec fn template_args(key: MessageKey) -> Seq<Seq<char>> {
    match key {
        MessageKey::MissingInCode(a) => seq![a@],
        MessageKey::KindMismatch(a, b, c) => seq![a@, b@, c@],
        MessageKey::TypeMismatch(a, b, c, d) => seq![a@, b@, c@, d@],
        MessageKey::VarTypeMismatch(a, b, c) => seq![a@, b@, c@],
        MessageKey::ParamCountMismatch(a, b, c) => seq![a@, decimal(b as nat), decimal(c as nat)],
        MessageKey::ReturnTypeMismatch(a, b, c) => seq![a@, b@, c@],
        MessageKey::LineNumberMissing(a) => seq![a@],
        MessageKey::LineNumberMismatch(a, b, c) => seq![a@, b@, c@],
        MessageKey::DependencyNotUsed(a, b) => seq![a@, b@],
        MessageKey::DeadCode(a) => seq![a@],
        MessageKey::ReportTitle => seq![],
        MessageKey::ReportHeader => seq![],
        MessageKey::ReportSectionTitle => seq![],
        MessageKey::CodeActionTitle(a) => seq![a@],
    }
}

/// A catalog that can serve every locale: it has English templates.
pub open spec fn has_english(catalog: Seq<(Seq<char>, Seq<(Seq<char>, Seq<char>)>)>) -> bool {
    find_table(catalog, "en"@) is Some
}

/// The templates that serve a language: its own table, else the English one.
pub open spec fn table_for(
    catalog: Seq<(Seq<char>, Seq<(Seq<char>, Seq<char>)>)>,
    lang: Seq<char>,
) -> Seq<(Seq<char>, Seq<char>)> {
    match find_table(catalog, lang) {
        Some(t) => t,
        None => find_table(catalog, "en"@)->0,
    }
}

/// The template of `key` for `lang`: from the language's table, else from the
/// English one, else empty.
pub open spec fn template_for(
    catalog: Seq<(Seq<char>, Seq<(Seq<char>, Seq<char>)>)>,
    lang: Seq<char>,
    key: Seq<char>,
) -> Seq<char> {
    match lookup(table_for(catalog, lang), key) {
        Some(t) => t,
        None => match lookup(find_table(catalog, "en"@)->0, key) {
            Some(t) => t,
            None => Seq::empty(),
        },
    }
}

/// The text of the template named `tkey` for `locale`, filled with `args`.
pub open spec fn render(
    catalog: Seq<(Seq<char>, Seq<(Seq<char>, Seq<char>)>)>,
    locale: Seq<char>,
    tkey: Seq<char>,
    args: Seq<Seq<char>>,
) -> Seq<char> {
    fill_placeholders(template_for(catalog, language_of_locale(locale), tkey), args)
}

/// The text of a message in a locale.
pub open spec fn message_text(
    catalog: Seq<(Seq<char>, Seq<(Seq<char>, Seq<char>)>)>,
    key: MessageKey,
    locale: Seq<char>,
) -> Seq<char> {
    render(catalog, locale, template_key(key), template_args(key))
}

fn key_parts(key: &MessageKey) -> (r: (&'static str, Vec<String>))
    ensures
        r.0@ == template_key(*key),
        strings_view(r.1@) == template_args(*key),
{
    let (name, args): (&'static str, Vec<String>) = match key {
        MessageKey::MissingInCode(a) => ("missing_in_code", vec![a.clone()]),
        MessageKey::KindMismatch(a, b, c) => ("kind_mismatch", vec![a.clone(), b.clone(), c.clone()]),
        MessageKey::TypeMismatch(a, b, c, d) => ("type_mismatch", vec![a.clone(), b.clone(), c.clone(), d.clone()]),
        MessageKey::VarTypeMismatch(a, b, c) => ("var_type_mismatch", vec![a.clone(), b.clone(), c.clone()]),
        MessageKey::ParamCountMismatch(a, b, c) =>
            ("param_count_mismatch", vec![a.clone(), decimal_string(*b), decimal_string(*c)]),
        MessageKey::ReturnTypeMismatch(a, b, c) => ("return_type_mismatch", vec![a.clone(), b.clone(), c.clone()]),
        MessageKey::LineNumberMissing(a) => ("line_number_missing", vec![a.clone()]),
        MessageKey::LineNumberMismatch(a, b, c) => ("line_number_mismatch", vec![a.clone(), b.clone(), c.clone()]),
        MessageKey::DependencyNotUsed(a, b) => ("dependency_not_used", vec![a.clone(), b.clone()]),
        MessageKey::DeadCode(a) => ("dead_code", vec![a.clone()]),
        MessageKey::ReportTitle => ("report_title", Vec::new()),
        MessageKey::ReportHeader => ("report_header", Vec::new()),
        MessageKey::ReportSectionTitle => ("report_section_title", Vec::new()),
        MessageKey::CodeActionTitle(a) => ("code_action_title", vec![a.clone()]),
    };
    assert(strings_view(args@) =~= template_args(*key));
    (name, args)
}

/// The text of message `key` for `locale`, from the templates of `catalog`.
pub fn get_message(catalog: &LocaleCatalog, key: &MessageKey, locale: &str) -> (msg: String)
    requires
        has_english(catalog_view(*catalog)),
    ensures
        msg@ == message_text(catalog_view(*catalog), *key, locale@),
{
    let lang = resolve_language(locale);
    let english = match catalog.table("en") {
        Some(t) => t,
        None => {
            return String::new();
        },
    };
    let table = match catalog.table(lang) {
        Some(t) => t,
        None => english,
    };
    let (name, args) = key_parts(key);
    let template: String = match table.get(name) {
        Some(t) => t.clone(),
        None => match english.get(name) {
            Some(t) => t.clone(),
            None => String::new(),
        },
    };
    let mut refs: Vec<&str> = Vec::new();
    let mut i: usize = 0;
    while i < args.len()
        invariant
            i <= args@.len(),
            refs@.len() == i,
            forall|k: int| 0 <= k < i ==> refs@[k]@ == args@[k]@,
        decreases args@.len() - i,
    {
        refs.push(args[i].as_str());
        i = i + 1;
    }
    assert(strs_view(refs@) =~= strings_view(args@));
    format_msg(template.as_str(), refs.as_slice())
}

} // verus!

verus! {

/// The languages that the server has messages for.
pub open spec fn is_supported_language(lang: Seq<char>) -> bool {
    lang == "en"@ || lang == "ja"@ || lang == "zh-cn"@ || lang == "zh-tw"@ || lang == "ko"@ || lang == "et"@
        || lang == "vi"@ || lang == "es"@ || lang == "fr"@ || lang == "de"@
}

/// Law: every locale is served by one of the supported languages.
pub proof fn lemma_locale_has_language(locale: Seq<char>)
    ensures
        is_supported_language(language_of_locale(locale)),
{
}

/// The locale `en` is served in English.
pub proof fn lemma_english_is_english()
    ensures
        language_of_locale("en"@) == "en"@,
{
    reveal_strlit("en");
    reveal_strlit("ja");
    reveal_strlit("zh-cn");
    reveal_strlit("zh-hans");
    reveal_strlit("zh-tw");
    reveal_strlit("zh-hk");
    reveal_strlit("zh-hant");
    reveal_strlit("ko");
    reveal_strlit("et");
    reveal_strlit("vi");
    reveal_strlit("es");
    reveal_strlit("fr");
    reveal_strlit("de");
    assert(lowercase("en"@) =~= "en"@);
    assert(!starts_with("en"@, "et"@)) by {
        assert("en"@.subrange(0, 2)[1] != "et"@[1]);
    }
}

/// Law: a locale whose language has no messages of its own is answered in
/// English, word for word.
pub proof fn lemma_untranslated_locale_gets_english(
    catalog: Seq<(Seq<char>, Seq<(Seq<char>, Seq<char>)>)>,
    key: MessageKey,
    locale: Seq<char>,
)
    requires
        has_english(catalog),
        find_table(catalog, language_of_locale(locale)) is None,
    ensures
        message_text(catalog, key, locale) == message_text(catalog, key, "en"@),
{
    lemma_english_is_english();
}

} // verus!

verus! {

/// Each supported language code resolves to itself.
pub proof fn lemma_language_code_resolves_to_itself(lang: Seq<char>)
    requires
        is_supported_language(lang),
    ensures
        language_of_locale(lang) == lang,
{
    reveal_strlit("en");
    reveal_strlit("ja");
    reveal_strlit("zh-cn");
    reveal_strlit("zh-hans");
    reveal_strlit("zh-tw");
    reveal_strlit("zh-hk");
    reveal_strlit("zh-hant");
    reveal_strlit("ko");
    reveal_strlit("et");
    reveal_strlit("vi");
    reveal_strlit("es");
    reveal_strlit("fr");
    reveal_strlit("de");
    assert(lowercase(lang) =~= lang);
    if lang == "en"@ {
        assert(!starts_with(lang, "ja"@)) by {
            assert(lang.subrange(0, 2)[0] != "ja"@[0]);
        }
        assert(!starts_with(lang, "ko"@)) by {
            assert(lang.subrange(0, 2)[0] != "ko"@[0]);
        }
        assert(!starts_with(lang, "et"@)) by {
            assert(lang.subrange(0, 2)[1] != "et"@[1]);
        }
        assert(!starts_with(lang, "vi"@)) by {
            assert(lang.subrange(0, 2)[0] != "vi"@[0]);
        }
        assert(!starts_with(lang, "es"@)) by {
            assert(lang.subrange(0, 2)[1] != "es"@[1]);
        }
        assert(!starts_with(lang, "fr"@)) by {
            assert(lang.subrange(0, 2)[0] != "fr"@[0]);
        }
        assert(!starts_with(lang, "de"@)) by {
            assert(lang.subrange(0, 2)[0] != "de"@[0]);
        }
    } else if lang == "ja"@ {
        assert(lang.subrange(0, 2) =~= "ja"@);
    } else if lang == "zh-cn"@ {
        assert(lang.subrange(0, 5) =~= "zh-cn"@);
        assert(!starts_with(lang, "ja"@)) by {
            assert(lang.subrange(0, 2)[0] != "ja"@[0]);
        }
    } else if lang == "zh-tw"@ {
        assert(lang.subrange(0, 5) =~= "zh-tw"@);
        assert(!starts_with(lang, "ja"@)) by {
            assert(lang.subrange(0, 2)[0] != "ja"@[0]);
        }
        assert(!starts_with(lang, "zh-cn"@)) by {
            assert(lang.subrange(0, 5)[3] != "zh-cn"@[3]);
        }
    } else if lang == "ko"@ {
        assert(lang.subrange(0, 2) =~= "ko"@);
        assert(!starts_with(lang, "ja"@)) by {
            assert(lang.subrange(0, 2)[0] != "ja"@[0]);
        }
    } else if lang == "et"@ {
        assert(lang.subrange(0, 2) =~= "et"@);
        assert(!starts_with(lang, "ja"@)) by {
            assert(lang.subrange(0, 2)[0] != "ja"@[0]);
        }
        assert(!starts_with(lang, "ko"@)) by {
            assert(lang.subrange(0, 2)[0] != "ko"@[0]);
        }
    } else if lang == "vi"@ {
        assert(lang.subrange(0, 2) =~= "vi"@);
        assert(!starts_with(lang, "ja"@)) by {
            assert(lang.subrange(0, 2)[0] != "ja"@[0]);
        }
        assert(!starts_with(lang, "ko"@)) by {
            assert(lang.subrange(0, 2)[0] != "ko"@[0]);
        }
        assert(!starts_with(lang, "et"@)) by {
            assert(lang.subrange(0, 2)[0] != "et"@[0]);
        }
    } else if lang == "es"@ {
        assert(lang.subrange(0, 2) =~= "es"@);
        assert(!starts_with(lang, "ja"@)) by {
            assert(lang.subrange(0, 2)[0] != "ja"@[0]);
        }
        assert(!starts_with(lang, "ko"@)) by {
            assert(lang.subrange(0, 2)[0] != "ko"@[0]);
        }
        assert(!starts_with(lang, "et"@)) by {
            assert(lang.subrange(0, 2)[1] != "et"@[1]);
        }
        assert(!starts_with(lang, "vi"@)) by {
            assert(lang.subrange(0, 2)[0] != "vi"@[0]);
        }
    } else if lang == "fr"@ {
        assert(lang.subrange(0, 2) =~= "fr"@);
        assert(!starts_with(lang, "ja"@)) by {
            assert(lang.subrange(0, 2)[0] != "ja"@[0]);
        }
        assert(!starts_with(lang, "ko"@)) by {
            assert(lang.subrange(0, 2)[0] != "ko"@[0]);
        }
        assert(!starts_with(lang, "et"@)) by {
            assert(lang.subrange(0, 2)[0] != "et"@[0]);
        }
        assert(!starts_with(lang, "vi"@)) by {
            assert(lang.subrange(0, 2)[0] != "vi"@[0]);
        }
        assert(!starts_with(lang, "es"@)) by {
            assert(lang.subrange(0, 2)[0] != "es"@[0]);
        }
    } else if lang == "de"@ {
        assert(lang.subrange(0, 2) =~= "de"@);
        assert(!starts_with(lang, "ja"@)) by {
            assert(lang.subrange(0, 2)[0] != "ja"@[0]);
        }
        assert(!starts_with(lang, "ko"@)) by {
            assert(lang.subrange(0, 2)[0] != "ko"@[0]);
        }
        assert(!starts_with(lang, "et"@)) by {
            assert(lang.subrange(0, 2)[0] != "et"@[0]);
        }
        assert(!starts_with(lang, "vi"@)) by {
            assert(lang.subrange(0, 2)[0] != "vi"@[0]);
        }
        assert(!starts_with(lang, "es"@)) by {
            assert(lang.subrange(0, 2)[0] != "es"@[0]);
        }
        assert(!starts_with(lang, "fr"@)) by {
            assert(lang.subrange(0, 2)[0] != "fr"@[0]);
        }
    }
}

/// Law: a locale gives the same messages as the language it resolves to.
pub proof fn lemma_locale_speaks_its_language(
    catalog: Seq<(Seq<char>, Seq<(Seq<char>, Seq<char>)>)>,
    key: MessageKey,
    locale: Seq<char>,
)
    ensures
        message_text(catalog, key, locale) == message_text(catalog, key, language_of_locale(locale)),
{
    lemma_locale_has_language(locale);
    lemma_language_code_resolves_to_itself(language_of_locale(locale));
}

} // verus!
