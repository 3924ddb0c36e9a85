//! Tiny localization layer.
//!
//! The language comes from the `Language` key of the config file (`auto`,
//! `en-US` or `zh-CN`) and falls back to the system UI language. Only the
//! languages listed here are supported; everything else uses English.
//!
//! The chosen language is held in a [`LanguageCell`]: it is set once, by
//! [`init`] or by the first [`current`], and never changes afterwards. The
//! system UI language is handed in as the language identifier (`LANGID`)
//! that the system reports for the user.

use vstd::prelude::*;
use crate::utils::text::{
    ascii_lower_code, ascii_lowercase, chars_of, lemma_ascii_case_is_ignored, is_word_ignoring_ascii_case, range_is_word_ignoring_ascii_case, trim, trim_bounds,
};

verus! {

/// A language of the user interface.
#[derive(Debug, Clone, Copy, PartialEq, Eq, Structural)]
pub enum Language {
    English,
    Chinese,
}

/// All user visible strings of the app.
#[derive(Clone, Copy)]
pub struct Strings {
    // flyout
    pub adjust_brightness: &'static str,
    pub settings: &'static str,
    pub refresh: &'static str,
    // tray icon
    pub change_brightness: &'static str,
    pub quit: &'static str,
    // settings window
    pub settings_title: &'static str,
    pub general: &'static str,
    pub run_on_startup: &'static str,
    pub restore_saved_brightness: &'static str,
    pub controls: &'static str,
    pub icon_scroll: &'static str,
    pub hotkeys_intro: &'static str,
    pub increase_brightness: &'static str,
    pub decrease_brightness: &'static str,
    pub monitors: &'static str,
    pub monitors_hint: &'static str,
    pub failed_to_detect_monitors: &'static str,
    pub advanced: &'static str,
    pub autostart_priority: &'static str,
    // message boxes
    pub failed_enable_icon_scroll: &'static str,
    pub failed_register_hotkey: &'static str,
    // monitor names
    pub internal_display: &'static str,
}

/// The English strings.
pub open spec fn english_strings() -> Strings {
    Strings {
        adjust_brightness: "Adjust Brightness",
        settings: "Settings",
        refresh: "Refresh",
        change_brightness: "Change Brightness",
        quit: "Quit",
        settings_title: "Rusty Twinkle Tray Settings",
        general: "General",
        run_on_startup: "Automatically run on startup",
        restore_saved_brightness: "Automatically restore saved brightness",
        controls: "Controls",
        icon_scroll: "Adjust the brightness of all displays by scrolling over the tray icon",
        hotkeys_intro: "Adjust the brightness of all displays by pressing the following hotkeys:",
        increase_brightness: "Increase brightness",
        decrease_brightness: "Decrease brightness",
        monitors: "Monitors",
        monitors_hint: "Rename your displays. Leave a field empty to use its default name.",
        failed_to_detect_monitors: "Failed to detect monitors.",
        advanced: "Advanced",
        autostart_priority: "Use higher autostart priority (requires admin permissions)",
        failed_enable_icon_scroll: "Failed to enable icon scroll",
        failed_register_hotkey: "Failed to register hotkey",
        internal_display: "Internal Display",
    }
}

/// The Chinese strings.
pub open spec fn chinese_strings() -> Strings {
    Strings {
        adjust_brightness: "调节亮度",
        settings: "设置",
        refresh: "刷新",
        change_brightness: "调节亮度",
        quit: "退出",
        settings_title: "Rusty Twinkle Tray 设置",
        general: "通用",
        run_on_startup: "开机时自动启动",
        restore_saved_brightness: "自动恢复上次保存的亮度",
        controls: "控制方式",
        icon_scroll: "在托盘图标上滚动滚轮，调节所有显示器的亮度",
        hotkeys_intro: "按下面的快捷键，调节所有显示器的亮度：",
        increase_brightness: "提高亮度",
        decrease_brightness: "降低亮度",
        monitors: "显示器",
        monitors_hint: "可以给显示器重命名；留空则使用默认名称。",
        failed_to_detect_monitors: "未能检测到显示器。",
        advanced: "高级",
        autostart_priority: "使用更高的开机启动优先级（需要管理员权限）",
        failed_enable_icon_scroll: "启用滚轮调节失败",
        failed_register_hotkey: "注册快捷键失败",
        internal_display: "内置屏幕",
    }
}

/// The strings of `language`.
pub open spec fn strings_of(language: Language) -> Strings {
    match language {
        Language::English => english_strings(),
        Language::Chinese => chinese_strings(),
    }
}

/// The primary language of a `LANGID` is Chinese (`LANG_CHINESE`, 0x04).
pub open spec fn is_chinese_language_id(language_id: u16) -> bool {
    language_id & 0x3ff == 0x04
}

/// The supported language that a system UI language maps to: Chinese for
/// every Chinese variant, English for everything else.
pub open spec fn system_language(language_id: u16) -> Language {
    if is_chinese_language_id(language_id) {
        Language::Chinese
    } else {
        Language::English
    }
}

/// The language that a config value names, if it names one: after trimming
/// white space and ignoring case, `en`, `en-us` and `english` name English,
/// `zh`, `zh-cn`, `zh-hans` and `chinese` name Chinese.
pub open spec fn configured_language(setting: Seq<char>) -> Option<Language> {
    let t = trim(setting);
    if is_word_ignoring_ascii_case(t, seq!['e', 'n']) || is_word_ignoring_ascii_case(
        t,
        seq!['e', 'n', '-', 'u', 's'],
    ) || is_word_ignoring_ascii_case(t, seq!['e', 'n', 'g', 'l', 'i', 's', 'h']) {
        Some(Language::English)
    } else if is_word_ignoring_ascii_case(t, seq!['z', 'h']) || is_word_ignoring_ascii_case(
        t,
        seq!['z', 'h', '-', 'c', 'n'],
    ) || is_word_ignoring_ascii_case(t, seq!['z', 'h', '-', 'h', 'a', 'n', 's'])
        || is_word_ignoring_ascii_case(t, seq!['c', 'h', 'i', 'n', 'e', 's', 'e']) {
        Some(Language::Chinese)
    } else {
        None
    }
}

/// The language a config value selects: the one it names, or else (`auto`
/// and anything unknown) the system language.
pub open spec fn resolved_language(setting: Seq<char>, language_id: u16) -> Language {
    match configured_language(setting) {
        Some(language) => language,
        None => system_language(language_id),
    }
}

/// What a cell holds after [`init`]: the first language set stays.
pub open spec fn cell_after_init(cell: Option<Language>, setting: Seq<char>, language_id: u16) -> Option<Language> {
    match cell {
        Some(language) => Some(language),
        None => Some(resolved_language(setting, language_id)),
    }
}

/// What [`current`] reports for a cell: its language, or the system
/// language when none was set yet.
pub open spec fn current_language(cell: Option<Language>, language_id: u16) -> Language {
    match cell {
        Some(language) => language,
        None => system_language(language_id),
    }
}

/// The language of the user interface, set at most once.
pub struct LanguageCell {
    language: Option<Language>,
}

impl View for LanguageCell {
    type V = Option<Language>;

    closed spec fn view(&self) -> Option<Language> {
        self.language
    }
}

impl LanguageCell {
    /// A cell with no language set yet.
    pub fn new() -> (cell: LanguageCell)
        ensures
            cell@ == None::<Language>,
    {
        LanguageCell { language: None }
    }

    /// The language set so far, if any.
    pub fn get(&self) -> (language: Option<Language>)
        ensures
            language == self@,
    {
        self.language
    }
}

/// Maps the system UI language (a `LANGID`) to a supported language.
pub fn detect_system_language(language_id: u16) -> (language: Language)
    ensures
        language == system_language(language_id),
        language == Language::Chinese <==> language_id & 0x3ff == 0x04,
{
    // PRIMARYLANGID(lang) == LANG_CHINESE (0x04)
    if language_id & 0x3ff == 0x04 {
        Language::Chinese
    } else {
        Language::English
    }
}

/// The language that a config value names, if any.
pub fn parse_language(setting: &str) -> (language: Option<Language>)
    ensures
        language == configured_language(setting@),
{
    let v = chars_of(setting);
    let (start, end) = trim_bounds(&v);
    let en: [char; 2] = ['e', 'n'];
    let en_us: [char; 5] = ['e', 'n', '-', 'u', 's'];
    let english: [char; 7] = ['e', 'n', 'g', 'l', 'i', 's', 'h'];
    let zh: [char; 2] = ['z', 'h'];
    let zh_cn: [char; 5] = ['z', 'h', '-', 'c', 'n'];
    let zh_hans: [char; 7] = ['z', 'h', '-', 'h', 'a', 'n', 's'];
    let chinese: [char; 7] = ['c', 'h', 'i', 'n', 'e', 's', 'e'];
    assert(en@ =~= seq!['e', 'n']);
    assert(en_us@ =~= seq!['e', 'n', '-', 'u', 's']);
    assert(english@ =~= seq!['e', 'n', 'g', 'l', 'i', 's', 'h']);
    assert(zh@ =~= seq!['z', 'h']);
    assert(zh_cn@ =~= seq!['z', 'h', '-', 'c', 'n']);
    assert(zh_hans@ =~= seq!['z', 'h', '-', 'h', 'a', 'n', 's']);
    assert(chinese@ =~= seq!['c', 'h', 'i', 'n', 'e', 's', 'e']);
    if range_is_word_ignoring_ascii_case(&v, start, end, &en) || range_is_word_ignoring_ascii_case(
        &v,
        start,
        end,
        &en_us,
    ) || range_is_word_ignoring_ascii_case(&v, start, end, &english) {
        Some(Language::English)
    } else if range_is_word_ignoring_ascii_case(&v, start, end, &zh)
        || range_is_word_ignoring_ascii_case(&v, start, end, &zh_cn)
        || range_is_word_ignoring_ascii_case(&v, start, end, &zh_hans)
        || range_is_word_ignoring_ascii_case(&v, start, end, &chinese) {
        Some(Language::Chinese)
    } else {
        None
    }
}

/// Resolves the language. `setting` is the raw value of the config key;
/// `auto` (or anything unknown) means "follow the system language", which
/// `language_id` gives. A language that was set before stays.
pub fn init(cell: &mut LanguageCell, setting: &str, language_id: u16)
    ensures
        final(cell)@ == cell_after_init(old(cell)@, setting@, language_id),
{
    let language = match parse_language(setting) {
        Some(language) => language,
        None => detect_system_language(language_id),
    };
    if cell.language.is_none() {
        cell.language = Some(language);
    }
}

/// The language of the user interface; the system language when none was
/// set yet, which it then stays.
pub fn current(cell: &mut LanguageCell, language_id: u16) -> (language: Language)
    ensures
        language == current_language(old(cell)@, language_id),
        final(cell)@ == Some(language),
{
    match cell.language {
        Some(language) => language,
        None => {
            let language = detect_system_language(language_id);
            cell.language = Some(language);
            language
        },
    }
}

fn english() -> (s: Strings)
    ensures
        s == english_strings(),
{
    Strings {
        adjust_brightness: "Adjust Brightness",
        settings: "Settings",
        refresh: "Refresh",
        change_brightness: "Change Brightness",
        quit: "Quit",
        settings_title: "Rusty Twinkle Tray Settings",
        general: "General",
        run_on_startup: "Automatically run on startup",
        restore_saved_brightness: "Automatically restore saved brightness",
        controls: "Controls",
        icon_scroll: "Adjust the brightness of all displays by scrolling over the tray icon",
        hotkeys_intro: "Adjust the brightness of all displays by pressing the following hotkeys:",
        increase_brightness: "Increase brightness",
        decrease_brightness: "Decrease brightness",
        monitors: "Monitors",
        monitors_hint: "Rename your displays. Leave a field empty to use its default name.",
        failed_to_detect_monitors: "Failed to detect monitors.",
        advanced: "Advanced",
        autostart_priority: "Use higher autostart priority (requires admin permissions)",
        failed_enable_icon_scroll: "Failed to enable icon scroll",
        failed_register_hotkey: "Failed to register hotkey",
        internal_display: "Internal Display",
    }
}

fn chinese() -> (s: Strings)
    ensures
        s == chinese_strings(),
{
    Strings {
        adjust_brightness: "调节亮度",
        settings: "设置",
        refresh: "刷新",
        change_brightness: "调节亮度",
        quit: "退出",
        settings_title: "Rusty Twinkle Tray 设置",
        general: "通用",
        run_on_startup: "开机时自动启动",
        restore_saved_brightness: "自动恢复上次保存的亮度",
        controls: "控制方式",
        icon_scroll: "在托盘图标上滚动滚轮，调节所有显示器的亮度",
        hotkeys_intro: "按下面的快捷键，调节所有显示器的亮度：",
        increase_brightness: "提高亮度",
        decrease_brightness: "降低亮度",
        monitors: "显示器",
        monitors_hint: "可以给显示器重命名；留空则使用默认名称。",
        failed_to_detect_monitors: "未能检测到显示器。",
        advanced: "高级",
        autostart_priority: "使用更高的开机启动优先级（需要管理员权限）",
        failed_enable_icon_scroll: "启用滚轮调节失败",
        failed_register_hotkey: "注册快捷键失败",
        internal_display: "内置屏幕",
    }
}

/// The user visible strings in the current language (see [`current`]).
pub fn strings(cell: &mut LanguageCell, language_id: u16) -> (s: Strings)
    ensures
        s == strings_of(current_language(old(cell)@, language_id)),
        final(cell)@ == Some(current_language(old(cell)@, language_id)),
{
    match current(cell, language_id) {
        Language::English => english(),
        Language::Chinese => chinese(),
    }
}

/// Once a fresh cell is initialised from a config value, the language it
/// reports is the one that value selects, whatever the system language
/// reported later.
pub proof fn lemma_init_selects_language(setting: Seq<char>, language_id: u16, later_id: u16)
    ensures
        current_language(cell_after_init(None, setting, language_id), later_id)
            == resolved_language(setting, language_id),
{
}

/// The first language set stays: a later [`init`] changes nothing.
pub proof fn lemma_first_language_stays(
    cell: Option<Language>,
    first: Seq<char>,
    first_id: u16,
    second: Seq<char>,
    second_id: u16,
)
    ensures
        cell_after_init(cell_after_init(cell, first, first_id), second, second_id)
            == cell_after_init(cell, first, first_id),
{
}

/// [`current`] reports the same language every time: once it has reported
/// one, it reports that one again, whatever the system language.
pub proof fn lemma_current_is_stable(cell: Option<Language>, language_id: u16, later_id: u16)
    ensures
        current_language(Some(current_language(cell, language_id)), later_id)
            == current_language(cell, language_id),
{
}

/// A config value that names no supported language follows the system, and
/// every system language but Chinese gives English.
pub proof fn lemma_unknown_language_is_english(setting: Seq<char>, language_id: u16)
    requires
        configured_language(setting) is None,
        !is_chinese_language_id(language_id),
    ensures
        resolved_language(setting, language_id) == Language::English,
        strings_of(resolved_language(setting, language_id)) == english_strings(),
{
}

/// The English strings, field by field: every label says what its control
/// does, and the increase and decrease labels are not swapped.
pub proof fn lemma_english_labels()
    ensures
        strings_of(Language::English).adjust_brightness@ == "Adjust Brightness"@,
        strings_of(Language::English).settings@ == "Settings"@,
        strings_of(Language::English).refresh@ == "Refresh"@,
        strings_of(Language::English).change_brightness@ == "Change Brightness"@,
        strings_of(Language::English).quit@ == "Quit"@,
        strings_of(Language::English).settings_title@ == "Rusty Twinkle Tray Settings"@,
        strings_of(Language::English).general@ == "General"@,
        strings_of(Language::English).run_on_startup@ == "Automatically run on startup"@,
        strings_of(Language::English).restore_saved_brightness@ == "Automatically restore saved brightness"@,
        strings_of(Language::English).controls@ == "Controls"@,
        strings_of(Language::English).icon_scroll@ == "Adjust the brightness of all displays by scrolling over the tray icon"@,
        strings_of(Language::English).hotkeys_intro@ == "Adjust the brightness of all displays by pressing the following hotkeys:"@,
        strings_of(Language::English).increase_brightness@ == "Increase brightness"@,
        strings_of(Language::English).decrease_brightness@ == "Decrease brightness"@,
        strings_of(Language::English).monitors@ == "Monitors"@,
        strings_of(Language::English).monitors_hint@ == "Rename your displays. Leave a field empty to use its default name."@,
        strings_of(Language::English).failed_to_detect_monitors@ == "Failed to detect monitors."@,
        strings_of(Language::English).advanced@ == "Advanced"@,
        strings_of(Language::English).autostart_priority@ == "Use higher autostart priority (requires admin permissions)"@,
        strings_of(Language::English).failed_enable_icon_scroll@ == "Failed to enable icon scroll"@,
        strings_of(Language::English).failed_register_hotkey@ == "Failed to register hotkey"@,
        strings_of(Language::English).internal_display@ == "Internal Display"@,
{
}

/// The Chinese strings, field by field.
pub proof fn lemma_chinese_labels()
    ensures
        strings_of(Language::Chinese).adjust_brightness@ == "调节亮度"@,
        strings_of(Language::Chinese).settings@ == "设置"@,
        strings_of(Language::Chinese).refresh@ == "刷新"@,
        strings_of(Language::Chinese).change_brightness@ == "调节亮度"@,
        strings_of(Language::Chinese).quit@ == "退出"@,
        strings_of(Language::Chinese).settings_title@ == "Rusty Twinkle Tray 设置"@,
        strings_of(Language::Chinese).general@ == "通用"@,
        strings_of(Language::Chinese).run_on_startup@ == "开机时自动启动"@,
        strings_of(Language::Chinese).restore_saved_brightness@ == "自动恢复上次保存的亮度"@,
        strings_of(Language::Chinese).controls@ == "控制方式"@,
        strings_of(Language::Chinese).icon_scroll@ == "在托盘图标上滚动滚轮，调节所有显示器的亮度"@,
        strings_of(Language::Chinese).hotkeys_intro@ == "按下面的快捷键，调节所有显示器的亮度："@,
        strings_of(Language::Chinese).increase_brightness@ == "提高亮度"@,
        strings_of(Language::Chinese).decrease_brightness@ == "降低亮度"@,
        strings_of(Language::Chinese).monitors@ == "显示器"@,
        strings_of(Language::Chinese).monitors_hint@ == "可以给显示器重命名；留空则使用默认名称。"@,
        strings_of(Language::Chinese).failed_to_detect_monitors@ == "未能检测到显示器。"@,
        strings_of(Language::Chinese).advanced@ == "高级"@,
        strings_of(Language::Chinese).autostart_priority@ == "使用更高的开机启动优先级（需要管理员权限）"@,
        strings_of(Language::Chinese).failed_enable_icon_scroll@ == "启用滚轮调节失败"@,
        strings_of(Language::Chinese).failed_register_hotkey@ == "注册快捷键失败"@,
        strings_of(Language::Chinese).internal_display@ == "内置屏幕"@,
{
}

/// The system language is Chinese exactly for the language identifiers whose
/// primary language (the low ten bits) is `LANG_CHINESE` (4), and English for
/// every other one.
pub proof fn lemma_system_language(language_id: u16)
    ensures
        system_language(language_id) == Language::Chinese <==> language_id % 1024 == 4,
        system_language(language_id) == Language::English <==> language_id % 1024 != 4,
{
    assert(language_id & 0x3ff == language_id % 1024) by (bit_vector);
}

/// A config value names English when, without surrounding white space and
/// ignoring ASCII case, it is `en`, `en-us` or `english`; Chinese when it is
/// `zh`, `zh-cn`, `zh-hans` or `chinese`; and nothing otherwise.
pub proof fn lemma_configured_language_words(setting: Seq<char>)
    ensures
        ({
            let t = trim(setting);
            let english = is_word_ignoring_ascii_case(t, seq!['e', 'n'])
                || is_word_ignoring_ascii_case(t, seq!['e', 'n', '-', 'u', 's'])
                || is_word_ignoring_ascii_case(t, seq!['e', 'n', 'g', 'l', 'i', 's', 'h']);
            let chinese = is_word_ignoring_ascii_case(t, seq!['z', 'h'])
                || is_word_ignoring_ascii_case(t, seq!['z', 'h', '-', 'c', 'n'])
                || is_word_ignoring_ascii_case(t, seq!['z', 'h', '-', 'h', 'a', 'n', 's'])
                || is_word_ignoring_ascii_case(t, seq!['c', 'h', 'i', 'n', 'e', 's', 'e']);
            &&& english ==> configured_language(setting) == Some(Language::English)
            &&& chinese ==> configured_language(setting) == Some(Language::Chinese)
            &&& !english && !chinese ==> configured_language(setting) is None
        }),
{
    let t = trim(setting);
    if t.len() > 0 {
        // the English words start with `e`, the Chinese ones with `z` or `c`
        let first = ascii_lower_code(t[0]);
        assert(first == first);
    }
}

/// A config value names the same language whatever the ASCII case of its
/// letters: `ZH-CN`, `Zh-Cn` and `zh-cn` all name Chinese.
pub proof fn lemma_configured_language_ignores_case(setting: Seq<char>)
    ensures
        configured_language(ascii_lowercase(setting)) == configured_language(setting),
{
    lemma_ascii_case_is_ignored(setting, seq!['e']);
    let t = trim(setting);
    assert forall|word: Seq<char>| #[trigger] is_word_ignoring_ascii_case(
        trim(ascii_lowercase(setting)),
        word,
    ) == is_word_ignoring_ascii_case(t, word) by {
        lemma_ascii_case_is_ignored(t, word);
        lemma_ascii_case_is_ignored(setting, word);
    }
}

/// The language a config value selects is the one it names, and else the
/// system's: Chinese exactly when the value names Chinese, or names nothing
/// while the system's primary language is Chinese (4).
pub proof fn lemma_resolved_language(setting: Seq<char>, language_id: u16)
    ensures
        resolved_language(setting, language_id) == Language::Chinese <==> (configured_language(
            setting,
        ) == Some(Language::Chinese) || (configured_language(setting) is None && language_id
            % 1024 == 4)),
{
    lemma_system_language(language_id);
}

/// Before any language is set, the current language is the system's: Chinese
/// exactly when the system's primary language is Chinese (4); once one is
/// set, it is that one whatever the system's.
pub proof fn lemma_current_language(cell: Option<Language>, language_id: u16)
    ensures
        cell is None ==> (current_language(cell, language_id) == Language::Chinese
            <==> language_id % 1024 == 4),
        cell matches Some(language) ==> current_language(cell, language_id) == language,
{
    lemma_system_language(language_id);
}

} // verus!
