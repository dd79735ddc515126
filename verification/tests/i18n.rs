use winshell::i18n::{catalog, first_listed_language, languages, Language};

#[test]
fn locale_fallbacks_and_script_variants() {
    assert_eq!(
        Language::from_locale("zh-Hant-HK"),
        Language::TraditionalChinese
    );
    assert_eq!(Language::from_locale("zh_CN.UTF-8"), Language::Chinese);
    assert_eq!(Language::from_locale("ja-JP"), Language::Japanese);
    assert_eq!(Language::from_locale("de-AT"), Language::German);
    assert_eq!(Language::from_locale("unknown"), Language::English);
}

#[test]
fn catalog_is_complete_and_unique() {
    let mut keys = std::collections::HashSet::new();
    for (key, translations) in catalog() {
        assert!(keys.insert(key));
        assert!(translations.iter().all(|text| !text.is_empty()));
    }
    assert_eq!(Language::Chinese.t("Settings"), "设置");
}

#[test]
fn locale_spelling_is_ignored() {
    assert_eq!(Language::from_locale("ZH_tw"), Language::TraditionalChinese);
    assert_eq!(Language::from_locale("zh-MO"), Language::TraditionalChinese);
    assert_eq!(Language::from_locale("zh-hk"), Language::from_locale("ZH_HK"));
    assert_eq!(Language::from_locale("zhtw"), Language::Chinese);
    assert_eq!(Language::from_locale("KO_kr"), Language::Korean);
    assert_eq!(Language::from_locale("fr-CA"), Language::French);
    assert_eq!(Language::from_locale("es"), Language::Spanish);
    assert_eq!(Language::from_locale(""), Language::English);
}

#[test]
fn preference_and_system_locale() {
    assert_eq!(Language::resolve("system", "ja-JP"), Language::Japanese);
    assert_eq!(Language::resolve("", "de_DE.UTF-8"), Language::German);
    assert_eq!(Language::resolve("fr", "ja-JP"), Language::French);
}

#[test]
fn unknown_keys_are_shown_as_given() {
    assert_eq!(Language::German.t("No such text"), "No such text");
    assert_eq!(Language::English.t("Session ended"), "Session exited. Ctrl + Shift + T opens a new terminal.");
    assert_eq!(Language::Spanish.t("Bash history"), "Historial Bash");
    assert_eq!(languages().len(), 9);
    assert_eq!(languages()[2].0, "zh-CN");
}

#[test]
fn first_language_of_the_macos_list() {
    let listed = "(\n    \"zh-Hans-CN\",\n    \"en-US\"\n)\n";
    assert_eq!(first_listed_language(listed).as_deref(), Some("zh-Hans-CN"));
    assert_eq!(first_listed_language("(\n)\n"), None);
    assert_eq!(first_listed_language("\t en \r\n"), Some("en".to_string()));
    assert_eq!(first_listed_language(""), None);
}

#[test]
fn locale_case_does_not_matter() {
    assert_eq!(Language::from_locale("ZH-HANT-HK"), Language::TraditionalChinese);
    assert_eq!(Language::from_locale("JA_JP"), Language::Japanese);
    assert_eq!(Language::from_locale("De_at"), Language::from_locale("de-AT"));
}
