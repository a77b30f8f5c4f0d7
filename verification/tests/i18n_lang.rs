use knowledge_base::i18n::I18n;
use knowledge_base::lang::{detect_language, language_of_lowercase};

#[test]
fn interface_string_found() {
    let i18n = I18n::new();
    assert_eq!(i18n.get("app_title"), "База знаний");
    assert_eq!(i18n.get("search_placeholder"), "Поиск по заголовкам, содержанию, тегам...");
    assert_eq!(i18n.get("unpin"), "Открепить");
}

#[test]
fn interface_string_missing_falls_back_to_key() {
    let i18n = I18n::new();
    assert_eq!(i18n.get("no_such_key"), "no_such_key");
    assert_eq!(i18n.get(""), "");
    // keys are case sensitive
    assert_eq!(i18n.get("APP_TITLE"), "APP_TITLE");
}

#[test]
fn interface_table_has_all_keys() {
    let i18n = I18n::new();
    assert_eq!(i18n.translations.len(), 25);
}

#[test]
fn language_russian_title() {
    assert_eq!(detect_language("Привет, мир"), "ru");
    assert_eq!(detect_language("ёжик"), "ru");
}

#[test]
fn language_english_title() {
    assert_eq!(detect_language("Hello world"), "en");
}

#[test]
fn language_mixed_title_is_russian() {
    assert_eq!(detect_language("Rust и Verus"), "ru");
}

#[test]
fn language_default_is_russian() {
    assert_eq!(detect_language("12345 !?"), "ru");
    assert_eq!(detect_language(""), "ru");
}

#[test]
fn language_upper_case_is_lowered_first() {
    // only lower-case letters count, so this passes through lower-casing
    assert_eq!(detect_language("HELLO"), "en");
    assert_eq!(detect_language("ПРИВЕТ"), "ru");
    assert_eq!(detect_language("Ё"), "ru");
}

#[test]
fn language_of_already_lowered_text() {
    assert_eq!(language_of_lowercase("HELLO"), "ru");
    assert_eq!(language_of_lowercase("hello"), "en");
    assert_eq!(language_of_lowercase("я"), "ru");
    assert_eq!(language_of_lowercase("ѐ"), "ru");
}
