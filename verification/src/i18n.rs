//! The interface strings, picked from the system display language.
//!
//! **Why the language is not simply a preference:** a Win32 menu takes its font
//! from the system-wide `NONCLIENTMETRICS.lfMenuFont`, and no API can override
//! it for a single `HMENU`. On an English Windows that font is Segoe UI, which
//! has no CJK glyphs, so Chinese text would fall through GDI font linking into
//! a Japanese face that looks poor at menu sizes. Only when the system itself
//! is Chinese does the menu font suit Chinese text.
//!
//! So: Chinese system, Chinese UI. Anything else, English.

use vstd::prelude::*;
use vstd::string::*;

use crate::state::SPAN_COUNT;

verus! {

/// Which of the two string sets is in use. The composed texts differ in word
/// order between the two ("剩餘 01:23:45" versus "01:23:45 remaining"), so
/// they are built per language rather than from a shared format.
#[derive(Clone, Copy, PartialEq, Eq, Debug, Structural)]
pub enum Language {
    English,
    Chinese,
}

/// Every string a user can see.
pub struct Strings {
    // Menu entries
    pub keep_system: &'static str,
    pub keep_screen: &'static str,
    pub duration: &'static str,
    /// Labels for the duration entries, aligned by index with
    /// [`crate::state::spans`].
    pub spans: [&'static str; SPAN_COUNT],
    pub no_timer: &'static str,
    pub exit: &'static str,
    // Tooltip fragments describing what is being held
    pub tip_off: &'static str,
    pub tip_system: &'static str,
    pub tip_screen: &'static str,
    pub tip_both: &'static str,
    pub tip_power_failed: &'static str,
    // Startup failures
    pub err_tray: &'static str,
    pub err_timer: &'static str,
    pub err_mutex: &'static str,
    /// Decides how the "remaining" row, the tooltip and CLI hold labels are
    /// composed.
    pub language: Language,
}

impl Language {
    /// The menu's "remaining" row around an `HH:MM:SS` text.
    pub open spec fn remaining_text(self, hms: Seq<char>) -> Seq<char> {
        match self {
            Language::English => hms + " remaining"@,
            Language::Chinese => "剩餘 "@ + hms,
        }
    }

    /// A tooltip from a description of what is held and an optional
    /// `HH:MM:SS`.
    pub open spec fn tooltip(self, what: Seq<char>, hms: Option<Seq<char>>) -> Seq<char> {
        match (self, hms) {
            (Language::English, Some(h)) => "caffeinate: "@ + what + ", "@ + h + " remaining"@,
            (Language::English, None) => "caffeinate: "@ + what,
            (Language::Chinese, Some(h)) => "caffeinate："@ + what + " · 剩餘 "@ + h,
            (Language::Chinese, None) => "caffeinate："@ + what,
        }
    }

    /// The label of a hold announced by a `caffeinate` CLI process.
    pub open spec fn cli_hold(self, label: Seq<char>) -> Seq<char> {
        match self {
            Language::English => "CLI: "@ + label,
            Language::Chinese => "CLI："@ + label,
        }
    }
}

fn en_remaining(hms: &str) -> (r: String)
    ensures
        r@ == Language::English.remaining_text(hms@),
{
    let mut r = String::from_str(hms);
    r.append(" remaining");
    r
}

fn en_tooltip(what: &str, hms: Option<&str>) -> (r: String)
    ensures
        r@ == Language::English.tooltip(
            what@,
            match hms {
                Some(h) => Some(h@),
                None => None,
            },
        ),
{
    let mut r = String::from_str("caffeinate: ");
    r.append(what);
    match hms {
        Some(h) => {
            r.append(", ");
            r.append(h);
            r.append(" remaining");
        },
        None => {},
    }
    r
}

fn en_cli_hold(label: &str) -> (r: String)
    ensures
        r@ == Language::English.cli_hold(label@),
{
    let mut r = String::from_str("CLI: ");
    r.append(label);
    r
}

fn zh_remaining(hms: &str) -> (r: String)
    ensures
        r@ == Language::Chinese.remaining_text(hms@),
{
    let mut r = String::from_str("剩餘 ");
    r.append(hms);
    r
}

fn zh_tooltip(what: &str, hms: Option<&str>) -> (r: String)
    ensures
        r@ == Language::Chinese.tooltip(
            what@,
            match hms {
                Some(h) => Some(h@),
                None => None,
            },
        ),
{
    let mut r = String::from_str("caffeinate：");
    r.append(what);
    match hms {
        Some(h) => {
            r.append(" · 剩餘 ");
            r.append(h);
        },
        None => {},
    }
    r
}

fn zh_cli_hold(label: &str) -> (r: String)
    ensures
        r@ == Language::Chinese.cli_hold(label@),
{
    let mut r = String::from_str("CLI：");
    r.append(label);
    r
}

/// The English string set.
pub open spec fn english() -> Strings {
    Strings {
        keep_system: "Keep system awake",
        keep_screen: "Keep screen on",
        duration: "Duration",
        spans: [
            "Indefinitely",
            "5 minutes",
            "10 minutes",
            "15 minutes",
            "30 minutes",
            "1 hour",
            "2 hours",
            "5 hours",
        ],
        no_timer: "No timer",
        exit: "Exit",
        tip_off: "off",
        tip_system: "system",
        tip_screen: "screen",
        tip_both: "system + screen",
        tip_power_failed: "caffeinate: power request failed",
        err_tray: "Failed to create the tray icon:",
        err_timer: "Failed to create the timer. The countdown will not work.",
        err_mutex: "Failed to check whether caffeinate is already running.",
        language: Language::English,
    }
}

/// The (traditional) Chinese string set.
pub open spec fn chinese() -> Strings {
    Strings {
        keep_system: "電腦不睡眠",
        keep_screen: "螢幕不關閉",
        duration: "持續時間",
        spans: ["永久", "5 分鐘", "10 分鐘", "15 分鐘", "30 分鐘", "1 小時", "2 小時", "5 小時"],
        no_timer: "未計時",
        exit: "結束",
        tip_off: "未啟用",
        tip_system: "系統",
        tip_screen: "螢幕",
        tip_both: "系統+螢幕",
        tip_power_failed: "caffeinate：電源要求失敗",
        err_tray: "無法建立系統匣圖示：",
        err_timer: "無法建立計時器，倒數功能將無法運作。",
        err_mutex: "無法確認 caffeinate 是否已在執行。",
        language: Language::Chinese,
    }
}

/// The English string set.
pub fn en() -> (s: Strings)
    ensures
        s == english(),
{
    Strings {
        keep_system: "Keep system awake",
        keep_screen: "Keep screen on",
        duration: "Duration",
        spans: [
            "Indefinitely",
            "5 minutes",
            "10 minutes",
            "15 minutes",
            "30 minutes",
            "1 hour",
            "2 hours",
            "5 hours",
        ],
        no_timer: "No timer",
        exit: "Exit",
        tip_off: "off",
        tip_system: "system",
        tip_screen: "screen",
        tip_both: "system + screen",
        tip_power_failed: "caffeinate: power request failed",
        err_tray: "Failed to create the tray icon:",
        err_timer: "Failed to create the timer. The countdown will not work.",
        err_mutex: "Failed to check whether caffeinate is already running.",
        language: Language::English,
    }
}

/// The (traditional) Chinese string set.
pub fn zh() -> (s: Strings)
    ensures
        s == chinese(),
{
    Strings {
        keep_system: "電腦不睡眠",
        keep_screen: "螢幕不關閉",
        duration: "持續時間",
        spans: ["永久", "5 分鐘", "10 分鐘", "15 分鐘", "30 分鐘", "1 小時", "2 小時", "5 小時"],
        no_timer: "未計時",
        exit: "結束",
        tip_off: "未啟用",
        tip_system: "系統",
        tip_screen: "螢幕",
        tip_both: "系統+螢幕",
        tip_power_failed: "caffeinate：電源要求失敗",
        err_tray: "無法建立系統匣圖示：",
        err_timer: "無法建立計時器，倒數功能將無法運作。",
        err_mutex: "無法確認 caffeinate 是否已在執行。",
        language: Language::Chinese,
    }
}

/// The low 10 bits of a LANGID hold the primary language; `LANG_CHINESE` is
/// 0x04. Simplified and traditional are not distinguished: any Chinese system
/// gets the traditional strings.
pub const LANG_CHINESE: u16 = 0x04;

pub const PRIMARY_LANGID_MASK: u16 = 0x03ff;

/// Whether a LANGID names Chinese as its primary language.
pub open spec fn is_chinese(langid: u16) -> bool {
    langid & PRIMARY_LANGID_MASK == LANG_CHINESE
}

/// A LANGID is Chinese exactly when its low ten bits, the primary language,
/// are 4: Chinese (Traditional, Taiwan) 0x0404 and Chinese (Simplified) 0x0804
/// are, English (United States) 0x0409 is not.
pub proof fn law_chinese_is_the_primary_language(langid: u16)
    ensures
        is_chinese(langid) <==> langid % 1024 == 4,
        is_chinese(0x0404),
        is_chinese(0x0804),
        !is_chinese(0x0409),
{
    assert(langid & 0x03ff == 4 <==> langid % 1024 == 4) by (bit_vector);
    assert(0x0404u16 & 0x03ff == 4) by (bit_vector);
    assert(0x0804u16 & 0x03ff == 4) by (bit_vector);
    assert(0x0409u16 & 0x03ff != 4) by (bit_vector);
}

/// Each switch in the menu is labelled with what it holds, and the tooltip
/// names the switches the same way: "Keep system awake" is the system switch,
/// "Keep screen on" the screen switch, in English and in Chinese.
pub proof fn law_switch_labels_name_what_they_hold()
    ensures
        english().keep_system@ == "Keep system awake"@,
        english().keep_screen@ == "Keep screen on"@,
        english().tip_system@ == "system"@,
        english().tip_screen@ == "screen"@,
        english().tip_both@ == "system + screen"@,
        english().language == Language::English,
        chinese().keep_system@ == "電腦不睡眠"@,
        chinese().keep_screen@ == "螢幕不關閉"@,
        chinese().tip_system@ == "系統"@,
        chinese().tip_screen@ == "螢幕"@,
        chinese().language == Language::Chinese,
{
}

/// The duration entries are labelled, in order, with the spans they choose:
/// no limit, 5, 10, 15 and 30 minutes, 1, 2 and 5 hours.
pub proof fn law_duration_labels_follow_the_spans()
    ensures
        english().spans@ == seq![
            "Indefinitely", "5 minutes", "10 minutes", "15 minutes",
            "30 minutes", "1 hour", "2 hours", "5 hours",
        ],
        chinese().spans@ == seq![
            "永久", "5 分鐘", "10 分鐘", "15 分鐘", "30 分鐘", "1 小時", "2 小時", "5 小時",
        ],
{
    assert(english().spans@ =~= seq![
        "Indefinitely", "5 minutes", "10 minutes", "15 minutes",
        "30 minutes", "1 hour", "2 hours", "5 hours",
    ]);
    assert(chinese().spans@ =~= seq![
        "永久", "5 分鐘", "10 分鐘", "15 分鐘", "30 分鐘", "1 小時", "2 小時", "5 小時",
    ]);
}

/// Pick a string set from the user's display language.
pub fn for_language(langid: u16) -> (s: Strings)
    ensures
        s == (if is_chinese(langid) { chinese() } else { english() }),
{
    if langid & PRIMARY_LANGID_MASK == LANG_CHINESE {
        zh()
    } else {
        en()
    }
}

impl Strings {
    /// Turns `HH:MM:SS` into the menu's "remaining" row.
    pub fn remaining_text(&self, hms: &str) -> (r: String)
        ensures
            r@ == self.language.remaining_text(hms@),
    {
        match self.language {
            Language::English => en_remaining(hms),
            Language::Chinese => zh_remaining(hms),
        }
    }

    /// Turns a state description plus an optional `HH:MM:SS` into a tooltip.
    pub fn tooltip(&self, what: &str, hms: Option<&str>) -> (r: String)
        ensures
            r@ == self.language.tooltip(
                what@,
                match hms {
                    Some(h) => Some(h@),
                    None => None,
                },
            ),
    {
        match self.language {
            Language::English => en_tooltip(what, hms),
            Language::Chinese => zh_tooltip(what, hms),
        }
    }

    /// Labels a hold announced by a `caffeinate` CLI process.
    pub fn cli_hold(&self, label: &str) -> (r: String)
        ensures
            r@ == self.language.cli_hold(label@),
    {
        match self.language {
            Language::English => en_cli_hold(label),
            Language::Chinese => zh_cli_hold(label),
        }
    }
}

} // verus!
