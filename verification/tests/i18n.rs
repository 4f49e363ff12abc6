use docs_auditor::locales::builtin_locale_json;
use docs_auditor::i18n::{decimal_string, format_msg, get_message, resolve_language, LocaleCatalog, LocaleTable, MessageKey};

fn catalog() -> LocaleCatalog {
    let mut c = LocaleCatalog::new();
    c.add(
        LocaleTable::from_json(
            "en",
            r##"{"missing_in_code": "'{0}' is not defined in the code", "param_count_mismatch": "{0}: {1} vs {2}", "report_title": "# Audit\n"}"##,
        )
        .unwrap(),
    );
    c.add(LocaleTable::from_json("ja", r#"{"missing_in_code": "'{0}' はコードにありません"}"#).unwrap());
    c
}

#[test]
fn placeholders_are_filled_in_order() {
    assert_eq!(format_msg("{0} and {1}, {0} again", &["a", "b"]), "a and b, a again");
    assert_eq!(format_msg("no placeholders", &["x"]), "no placeholders");
    assert_eq!(format_msg("{1}{0}", &["x"]), "{1}x");
    assert_eq!(format_msg("{0}", &["{1}", "y"]), "y");
}

#[test]
fn locales_resolve_to_their_language() {
    assert_eq!(resolve_language("ja-JP"), "ja");
    assert_eq!(resolve_language("ZH-CN"), "zh-cn");
    assert_eq!(resolve_language("zh-Hans-SG"), "zh-cn");
    assert_eq!(resolve_language("zh-HK"), "zh-tw");
    assert_eq!(resolve_language("zh"), "en");
    assert_eq!(resolve_language("de-AT"), "de");
    assert_eq!(resolve_language("pt-BR"), "en");
    assert_eq!(resolve_language(""), "en");
}

#[test]
fn messages_in_the_locale() {
    let c = catalog();
    assert_eq!(get_message(&c, &MessageKey::MissingInCode("f".to_string()), "ja"), "'f' はコードにありません");
    assert_eq!(get_message(&c, &MessageKey::MissingInCode("f".to_string()), "en-US"), "'f' is not defined in the code");
    assert_eq!(get_message(&c, &MessageKey::ParamCountMismatch("g".to_string(), 2, 13), "en"), "g: 2 vs 13");
}

#[test]
fn untranslated_messages_come_in_english() {
    let c = catalog();
    assert_eq!(get_message(&c, &MessageKey::ReportTitle, "ja"), "# Audit\n");
    assert_eq!(
        get_message(&c, &MessageKey::MissingInCode("f".to_string()), "ko-KR"),
        get_message(&c, &MessageKey::MissingInCode("f".to_string()), "en")
    );
    assert_eq!(get_message(&c, &MessageKey::DeadCode("f".to_string()), "en"), "");
}

#[test]
fn tables_come_from_json_objects_of_strings() {
    let t = LocaleTable::from_json("fr", r#"{"a": "b", "c": "d"}"#).unwrap();
    assert_eq!(t.get("c"), Some(&"d".to_string()));
    assert_eq!(t.get("z"), None);
    assert!(LocaleTable::from_json("fr", "[1, 2]").is_none());
    assert!(LocaleTable::from_json("fr", r#"{"a": 1}"#).is_none());
    assert!(LocaleTable::from_json("fr", "not json").is_none());
}

#[test]
fn decimals() {
    assert_eq!(decimal_string(0), "0");
    assert_eq!(decimal_string(907), "907");
    assert_eq!(decimal_string(usize::MAX), usize::MAX.to_string());
}

#[test]
fn test_locales_keys_are_consistent() {
    let langs = ["en", "ja", "zh-cn", "zh-tw", "ko", "et", "vi", "es", "fr", "de"];
    let keys = |lang: &str| -> Vec<String> {
        let text = builtin_locale_json(lang).expect("every supported language has templates");
        let table = LocaleTable::from_json(lang, text).expect("templates are a JSON object of strings");
        let mut k: Vec<String> = table.entries.iter().map(|(key, _)| key.clone()).collect();
        k.sort();
        k
    };
    let en = keys("en");
    assert_eq!(en.len(), 14);
    for lang in langs {
        if lang == "en" {
            continue;
        }
        let other = keys(lang);
        for key in &en {
            assert!(other.contains(key), "Locale '{}' is missing key '{}' defined in en.json", lang, key);
        }
        for key in &other {
            assert!(en.contains(key), "Locale '{}' has extra key '{}' not defined in en.json", lang, key);
        }
    }
    assert!(builtin_locale_json("pt").is_none());
}

#[test]
fn built_in_templates_fill_their_placeholders() {
    let mut c = LocaleCatalog::new();
    for lang in ["en", "ja", "de"] {
        c.add(LocaleTable::from_json(lang, builtin_locale_json(lang).unwrap()).unwrap());
    }
    let ja = get_message(&c, &MessageKey::DeadCode("f".to_string()), "ja-JP");
    assert!(ja.contains("'f'"));
    let en = get_message(&c, &MessageKey::ParamCountMismatch("g".to_string(), 1, 2), "en");
    assert_eq!(en, "'g' is declared with 1 parameter(s) but has 2 in the code.");
    assert_eq!(get_message(&c, &MessageKey::CodeActionTitle("L1-2".to_string()), "de"), "Zeilennummern auf L1-2 aktualisieren");
}

#[test]
fn a_locale_speaks_as_its_language() {
    let c = catalog();
    for key in [MessageKey::MissingInCode("f".to_string()), MessageKey::ReportTitle, MessageKey::DeadCode("g".to_string())] {
        for locale in ["ja-JP", "JA", "en-GB", "ko-KR", "pt-BR", "zh-Hant-TW", ""] {
            let language = resolve_language(locale);
            assert_eq!(get_message(&c, &key, locale), get_message(&c, &key, language), "{locale}");
            assert_eq!(resolve_language(language), language);
        }
    }
}
