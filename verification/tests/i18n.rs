use caffeinate::i18n::{en, for_language, zh, Language};

#[test]
fn a_chinese_system_gets_chinese_strings() {
    // zh-TW, zh-CN and zh-HK all have primary language 0x04.
    assert_eq!(for_language(0x0404).language, Language::Chinese);
    assert_eq!(for_language(0x0804).language, Language::Chinese);
    assert_eq!(for_language(0x0C04).language, Language::Chinese);
    assert_eq!(for_language(0x0409).language, Language::English);
    assert_eq!(for_language(0x0411).language, Language::English);
    assert_eq!(for_language(0x0404).exit, "結束");
}

#[test]
fn cli_holds_are_labelled_per_language() {
    assert_eq!(en().cli_hold("cargo build"), "CLI: cargo build");
    assert_eq!(zh().cli_hold("cargo build"), "CLI：cargo build");
}

#[test]
fn composed_texts_follow_each_languages_word_order() {
    assert_eq!(en().remaining_text("00:01:02"), "00:01:02 remaining");
    assert_eq!(zh().remaining_text("00:01:02"), "剩餘 00:01:02");
    assert_eq!(en().tooltip("screen", None), "caffeinate: screen");
    assert_eq!(zh().tooltip("螢幕", Some("00:00:09")), "caffeinate：螢幕 · 剩餘 00:00:09");
}
