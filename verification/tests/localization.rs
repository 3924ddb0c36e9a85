use rusty_twinkle_tray::localization::{
    current, detect_system_language, init, parse_language, strings, Language, LanguageCell,
};

const ENGLISH_US: u16 = 0x0409;
const CHINESE_PRC: u16 = 0x0804;
const CHINESE_TAIWAN: u16 = 0x0404;
const GERMAN: u16 = 0x0407;

#[test]
fn setting_names_english() {
    for setting in ["en", "en-us", "english", "EN-US", "  English\t", "En-Us\n"] {
        assert_eq!(parse_language(setting), Some(Language::English), "{setting:?}");
    }
}

#[test]
fn setting_names_chinese() {
    for setting in ["zh", "zh-cn", "zh-hans", "chinese", "zh-CN", " ZH-Hans ", "\u{3000}Chinese"] {
        assert_eq!(parse_language(setting), Some(Language::Chinese), "{setting:?}");
    }
}

#[test]
fn setting_names_nothing() {
    for setting in ["", "auto", "de", "en_us", "en-gb", "zh-tw", "e n", "english!", "ENGL\u{130}SH"] {
        assert_eq!(parse_language(setting), None, "{setting:?}");
    }
}

#[test]
fn system_language_detection() {
    assert_eq!(detect_system_language(CHINESE_PRC), Language::Chinese);
    assert_eq!(detect_system_language(CHINESE_TAIWAN), Language::Chinese);
    assert_eq!(detect_system_language(0x0004), Language::Chinese);
    assert_eq!(detect_system_language(ENGLISH_US), Language::English);
    assert_eq!(detect_system_language(GERMAN), Language::English);
    // only the primary language (the low ten bits) counts
    assert_eq!(detect_system_language(0xfc04), Language::Chinese);
    assert_eq!(detect_system_language(0x0400), Language::English);
}

#[test]
fn auto_follows_system_language() {
    let mut cell = LanguageCell::new();
    init(&mut cell, "auto", CHINESE_PRC);
    assert_eq!(cell.get(), Some(Language::Chinese));
    assert_eq!(current(&mut cell, ENGLISH_US), Language::Chinese);

    let mut cell = LanguageCell::new();
    init(&mut cell, "something else", GERMAN);
    assert_eq!(current(&mut cell, GERMAN), Language::English);
}

#[test]
fn configured_language_wins_over_system() {
    let mut cell = LanguageCell::new();
    init(&mut cell, "en-US", CHINESE_PRC);
    assert_eq!(current(&mut cell, CHINESE_PRC), Language::English);

    let mut cell = LanguageCell::new();
    init(&mut cell, "zh-CN", ENGLISH_US);
    assert_eq!(current(&mut cell, ENGLISH_US), Language::Chinese);
}

#[test]
fn first_init_wins() {
    let mut cell = LanguageCell::new();
    init(&mut cell, "zh", ENGLISH_US);
    init(&mut cell, "en", ENGLISH_US);
    assert_eq!(cell.get(), Some(Language::Chinese));
}

#[test]
fn current_without_init_uses_system_and_stays() {
    let mut cell = LanguageCell::new();
    assert_eq!(cell.get(), None);
    assert_eq!(current(&mut cell, CHINESE_PRC), Language::Chinese);
    assert_eq!(current(&mut cell, ENGLISH_US), Language::Chinese);
    init(&mut cell, "en", ENGLISH_US);
    assert_eq!(current(&mut cell, ENGLISH_US), Language::Chinese);
}

#[test]
fn english_strings() {
    let mut cell = LanguageCell::new();
    init(&mut cell, "english", CHINESE_PRC);
    let s = strings(&mut cell, CHINESE_PRC);
    assert_eq!(s.adjust_brightness, "Adjust Brightness");
    assert_eq!(s.quit, "Quit");
    assert_eq!(s.settings_title, "Rusty Twinkle Tray Settings");
    assert_eq!(s.internal_display, "Internal Display");
    assert_eq!(s.failed_register_hotkey, "Failed to register hotkey");
}

#[test]
fn chinese_strings() {
    let mut cell = LanguageCell::new();
    let s = strings(&mut cell, CHINESE_PRC);
    assert_eq!(cell.get(), Some(Language::Chinese));
    assert_eq!(s.adjust_brightness, "调节亮度");
    assert_eq!(s.quit, "退出");
    assert_eq!(s.settings_title, "Rusty Twinkle Tray 设置");
    assert_eq!(s.internal_display, "内置屏幕");
    assert_eq!(s.monitors, "显示器");
}

#[test]
fn unsupported_system_language_gives_english_strings() {
    let mut cell = LanguageCell::new();
    init(&mut cell, "fr", 0x040c);
    assert_eq!(strings(&mut cell, 0x040c).settings, "Settings");
}
