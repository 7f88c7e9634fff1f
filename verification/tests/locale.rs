use openplay::tui::locale::{choose_locale, locale_from, strip_isolation_marks, Messages};

#[test]
fn first_negotiated_locale_is_taken() {
    let c = locale_from(&vec!["zh-CN".to_string(), "en".to_string()]);
    assert_eq!(c.locale, "zh-CN");
    assert_eq!(c.messages, Messages::SimplifiedChinese);
    assert!(c.english_fallback);
    let e = locale_from(&vec!["en".to_string()]);
    assert_eq!(e.locale, "en");
    assert_eq!(e.messages, Messages::English);
    assert!(!e.english_fallback);
    let none = locale_from(&vec![]);
    assert_eq!(none.locale, "en");
    assert_eq!(none.messages, Messages::English);
    assert!(!none.english_fallback);
}

#[test]
fn requested_locale_comes_before_the_system_one() {
    let c = choose_locale(Some("zh-CN"), Some("en-US"));
    assert_eq!(c.locale, "zh-CN");
    assert_eq!(c.messages, Messages::SimplifiedChinese);
    let s = choose_locale(None, Some("zh-CN"));
    assert_eq!(s.locale, "zh-CN");
    let e = choose_locale(Some("en"), Some("zh-CN"));
    assert_eq!(e.locale, "en");
    assert_eq!(e.messages, Messages::English);
}

#[test]
fn unknown_or_malformed_locales_fall_back_to_english() {
    let c = choose_locale(Some("!!"), None);
    assert_eq!(c.locale, "en");
    assert!(!c.english_fallback);
    let f = choose_locale(Some("fr"), Some("de-DE"));
    assert_eq!(f.locale, "en");
}

#[test]
fn isolation_marks_are_stripped() {
    assert_eq!(strip_isolation_marks("Hello \u{2068}Ann\u{2069}!"), "Hello Ann!");
    assert_eq!(strip_isolation_marks(""), "");
    assert_eq!(strip_isolation_marks("plain"), "plain");
}
