use algotrade_core::i18n::{Language, Translations};

#[test]
fn test_translations() {
    let mut translations = Translations::new();

    // English
    assert_eq!(translations.get("app.name"), "AlgoTrade OS");
    assert_eq!(translations.get("error.general"), "An error occurred");

    // Turkish
    translations.set_language(Language::Turkish);
    assert_eq!(translations.get("app.name"), "AlgoTrade OS");
    assert_eq!(translations.get("error.general"), "Bir hata oluştu");

    // Fallback
    assert_eq!(translations.get("unknown.key"), "unknown.key");
}

#[test]
fn test_language_code() {
    assert_eq!(Language::from_code("en"), Some(Language::English));
    assert_eq!(Language::from_code("tr"), Some(Language::Turkish));
    assert_eq!(Language::from_code("tr-TR"), Some(Language::Turkish));
    assert_eq!(Language::from_code("xx"), None);
}

#[test]
fn language_names_and_codes() {
    assert_eq!(Language::English.code(), "en");
    assert_eq!(Language::Turkish.code(), "tr");
    assert_eq!(Language::English.native_name(), "English");
    assert_eq!(Language::Turkish.native_name(), "Türkçe");
    assert_eq!(Language::from_code("EN-GB"), Some(Language::English));
}

#[test]
fn params_are_substituted() {
    let translations = Translations::new();
    // An unknown key comes back verbatim, so placeholders in it are
    // replaced like in any translated text.
    let params = vec![("symbol", "BTCUSDT"), ("price", "42000")];
    let text = translations.get_with_params("{symbol} is at {price}", &params);
    assert_eq!(text, "BTCUSDT is at 42000");
}

#[test]
fn current_language_follows_set_language() {
    let mut translations = Translations::new();
    assert_eq!(translations.current_language(), Language::English);
    translations.set_language(Language::Turkish);
    assert_eq!(translations.current_language(), Language::Turkish);
}
