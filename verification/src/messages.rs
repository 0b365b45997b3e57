//! Texts shown to the user that depend on the state: counts, states, tooltips and
//! event notes (the interface is in Arabic).

use vstd::prelude::*;
use vstd::string::*;
use crate::text::{decimal, decimal_string};
use crate::flow::FilterState;
use crate::config::{VIEW_GAMES, VIEW_HELP, VIEW_LOG, VIEW_NEWS};
use crate::status::LogLevel;
use crate::config::Theme;

verus! {

/// The sentence of the export dialog that counts the blocked servers.
pub open spec fn blocked_count_sentence_of(n: nat) -> Seq<char> {
    if n == 0 {
        "ما عندك سيرفرات محظورة."@
    } else if n == 1 {
        "عندك سيرفر واحد محظور."@
    } else if n == 2 {
        "عندك سيرفران محظوران."@
    } else if n <= 10 {
        "عندك "@ + decimal(n) + " سيرفرات محظورة."@
    } else {
        "عندك "@ + decimal(n) + " سيرفر محظور."@
    }
}

/// The sentence of the export dialog that counts the blocked servers (Arabic
/// plural forms: none, one, two, three to ten, more).
pub fn blocked_count_sentence(n: u64) -> (s: String)
    ensures
        s@ == blocked_count_sentence_of(n as nat),
{
    if n == 0 {
        String::from_str("ما عندك سيرفرات محظورة.")
    } else if n == 1 {
        String::from_str("عندك سيرفر واحد محظور.")
    } else if n == 2 {
        String::from_str("عندك سيرفران محظوران.")
    } else {
        let mut s = String::from_str("عندك ");
        let d = decimal_string(n);
        s.append(d.as_str());
        if n <= 10 {
            s.append(" سيرفرات محظورة.");
        } else {
            s.append(" سيرفر محظور.");
        }
        s
    }
}

/// How many servers are blocked, as the filter chip says it.
pub open spec fn blocked_phrase_of(n: nat) -> Seq<char> {
    if n == 0 {
        "بدون حظر"@
    } else if n == 1 {
        "سيرفر محظور"@
    } else if n == 2 {
        "سيرفران محظوران"@
    } else {
        decimal(n) + " محظورة"@
    }
}

/// Label of a filter state.
pub open spec fn filter_label_of(s: FilterState) -> Seq<char> {
    match s {
        FilterState::Active => "شغّال"@,
        FilterState::Stopped => "متوقف"@,
        FilterState::WaitingForGame => "بانتظار إغلاق اللعبة"@,
        FilterState::NotApplied => "لم يُطبَّق"@,
    }
}

/// How many servers are blocked, as the filter chip says it.
pub fn blocked_phrase(n: u64) -> (s: String)
    ensures
        s@ == blocked_phrase_of(n as nat),
{
    if n == 0 {
        String::from_str("بدون حظر")
    } else if n == 1 {
        String::from_str("سيرفر محظور")
    } else if n == 2 {
        String::from_str("سيرفران محظوران")
    } else {
        let mut s = decimal_string(n);
        s.append(" محظورة");
        s
    }
}

/// The filter chip of the top bar: its state and how many servers are blocked.
pub fn filter_chip_text(state: FilterState, blocked: u64) -> (s: String)
    ensures
        s@ == "الفلتر · "@ + filter_label_of(state) + " · "@ + blocked_phrase_of(blocked as nat),
{
    let mut s = String::from_str("الفلتر · ");
    let label = match state {
        FilterState::Active => "شغّال",
        FilterState::Stopped => "متوقف",
        FilterState::WaitingForGame => "بانتظار إغلاق اللعبة",
        FilterState::NotApplied => "لم يُطبَّق",
    };
    s.append(label);
    s.append(" · ");
    let p = blocked_phrase(blocked);
    s.append(p.as_str());
    s
}

/// The game chip of the top bar.
pub fn game_chip_text(open: bool) -> (s: String)
    ensures
        s@ == "اللعبة · "@ + (if open {
            "مكتشفة"@
        } else {
            "مغلقة"@
        }),
{
    let mut s = String::from_str("اللعبة · ");
    s.append(if open {
        "مكتشفة"
    } else {
        "مغلقة"
    });
    s
}

/// The tooltip of a server: its token, and whether it is blocked or waits for the
/// game to close.
pub fn server_tooltip(token: &str, blocked: bool, pending: bool) -> (s: String)
    ensures
        s@ == token@ + (if pending {
            " (بانتظار إغلاق اللعبة..)"@
        } else if blocked {
            " (محظور)"@
        } else {
            ""@
        }),
{
    let mut s = String::from_str(token);
    if pending {
        s.append(" (بانتظار إغلاق اللعبة..)");
    } else if blocked {
        s.append(" (محظور)");
    } else {
        s.append("");
    }
    s
}

/// The note about the game opening or closing.
pub fn process_status_message(process_name: &str, open: bool) -> (s: String)
    ensures
        s@ == "اللعبة \""@ + process_name@ + "\" "@ + (if open {
            "مفتوحة. ما يمكن حظر السيرفرات واللعبة مفتوحة"@
        } else {
            "مغلقة. حظر السيرفرات متاح الآن"@
        }),
{
    let mut s = String::from_str("اللعبة \"");
    s.append(process_name);
    s.append("\" ");
    s.append(if open {
        "مفتوحة. ما يمكن حظر السيرفرات واللعبة مفتوحة"
    } else {
        "مغلقة. حظر السيرفرات متاح الآن"
    });
    s
}

/// The note about an available update.
pub fn update_available_message(version: &str) -> (s: String)
    ensures
        s@ == "الإصدار v"@ + version@ + " متوفر"@,
{
    let mut s = String::from_str("الإصدار v");
    s.append(version);
    s.append(" متوفر");
    s
}

/// The error of a server none of whose addresses answered.
pub fn ping_failure_message(ip: &str) -> (s: String)
    ensures
        s@ == "<"@ + ip@ + "> فشل قياس البنق"@,
{
    let mut s = String::from_str("<");
    s.append(ip);
    s.append("> فشل قياس البنق");
    s
}

/// Heading of the games view by the number of known game executables.
pub fn games_label(n: usize) -> (s: &'static str)
    ensures
        s@ == (if n == 0 {
            "ما أضفت أي لعبة"@
        } else if n == 1 {
            "هذه اللعبة"@
        } else {
            "هذه الألعاب"@
        }),
{
    match n {
        0 => "ما أضفت أي لعبة",
        1 => "هذه اللعبة",
        _ => "هذه الألعاب",
    }
}

/// Title of the panel of a view other than the map.
pub fn panel_title(tab: usize) -> (s: &'static str)
    ensures
        s@ == (if tab == VIEW_GAMES {
            "الألعاب"@
        } else if tab == VIEW_NEWS {
            "الأخبار"@
        } else if tab == VIEW_LOG {
            "السجل"@
        } else if tab == VIEW_HELP {
            "المساعدة"@
        } else {
            "الخيارات"@
        }),
{
    if tab == VIEW_GAMES {
        "الألعاب"
    } else if tab == VIEW_NEWS {
        "الأخبار"
    } else if tab == VIEW_LOG {
        "السجل"
    } else if tab == VIEW_HELP {
        "المساعدة"
    } else {
        "الخيارات"
    }
}

/// Name of a log level in the log view.
pub fn level_label(l: LogLevel) -> (s: &'static str)
    ensures
        s@ == (match l {
            LogLevel::Error => "خطأ"@,
            LogLevel::Warn => "تنبيه"@,
            LogLevel::Info => "معلومة"@,
            LogLevel::Debug => "تصحيح"@,
            LogLevel::Trace => "تتبّع"@,
        }),
{
    match l {
        LogLevel::Error => "خطأ",
        LogLevel::Warn => "تنبيه",
        LogLevel::Info => "معلومة",
        LogLevel::Debug => "تصحيح",
        LogLevel::Trace => "تتبّع",
    }
}

/// Allowed servers out of all, as the server panel shows it: `allowed/total`.
pub fn servers_pill(allowed: u64, total: u64) -> (s: String)
    ensures
        s@ == decimal(allowed as nat) + "/"@ + decimal(total as nat),
{
    let mut s = decimal_string(allowed);
    s.append("/");
    let t = decimal_string(total);
    s.append(t.as_str());
    s
}

/// The items joined with a separator.
pub open spec fn joined(items: Seq<Seq<char>>, sep: Seq<char>) -> Seq<char>
    decreases items.len(),
{
    if items.len() == 0 {
        seq![]
    } else if items.len() == 1 {
        items[0]
    } else {
        joined(items.drop_last(), sep) + sep + items.last()
    }
}

/// The strings joined with a separator (the export dialog joins ranges with `,`,
/// the name lists with `، `).
pub fn join(items: &Vec<String>, sep: &str) -> (s: String)
    ensures
        s@ == joined(items@.map_values(|x: String| x@), sep@),
{
    let ghost v = items@.map_values(|x: String| x@);
    let mut s = String::from_str("");
    proof {
        reveal_strlit("");
    }
    let mut i: usize = 0;
    while i < items.len()
        invariant
            i <= items.len(),
            v == items@.map_values(|x: String| x@),
            s@ == joined(v.take(i as int), sep@),
        decreases items.len() - i,
    {
        proof {
            assert(v.take(i + 1).drop_last() =~= v.take(i as int));
        }
        if i > 0 {
            s.append(sep);
        }
        s.append(items[i].as_str());
        proof {
            if i == 0 {
                assert(s@ =~= v.take(1)[0]);
            }
        }
        i = i + 1;
    }
    assert(v.take(items.len() as int) =~= v);
    s
}

/// The tooltip of a shortcut button: what it blocks, and what the buttons do.
pub fn preset_tooltip(blocked: &Vec<String>) -> (s: String)
    ensures
        s@ == "يحظر: "@ + (if blocked@.len() == 0 {
            "لا شيء"@
        } else {
            joined(blocked@.map_values(|x: String| x@), "، "@)
        }) + "\nيسار: تطبيق · يمين: تعديل"@,
{
    let mut s = String::from_str("يحظر: ");
    if blocked.len() == 0 {
        s.append("لا شيء");
    } else {
        let j = join(blocked, "، ");
        s.append(j.as_str());
    }
    s.append("\nيسار: تطبيق · يمين: تعديل");
    s
}

/// The text of a shortcut button: its name, and its key when it has one.
pub fn preset_button_text(name: &str, key: &Option<String>) -> (s: String)
    ensures
        s@ == (match key {
            Some(k) => name@ + "  "@ + k@,
            None => name@,
        }),
{
    let mut s = String::from_str(name);
    match key {
        Some(k) => {
            s.append("  ");
            s.append(k.as_str());
        },
        None => {},
    }
    s
}

/// How many of the listed servers the edited shortcut blocks.
pub fn editor_count_text(blocked: u64, total: u64) -> (s: String)
    ensures
        s@ == "يُحظر "@ + decimal(blocked as nat) + " من "@ + decimal(total as nat),
{
    let mut s = String::from_str("يُحظر ");
    let b = decimal_string(blocked);
    s.append(b.as_str());
    s.append(" من ");
    let t = decimal_string(total);
    s.append(t.as_str());
    s
}

/// Name of a theme choice in the options.
pub fn theme_name(t: Option<Theme>) -> (s: &'static str)
    ensures
        s@ == (match t {
            Some(Theme::Light) => "فاتح"@,
            Some(Theme::Dark) => "داكن"@,
            None => "مثل الجهاز"@,
        }),
{
    match t {
        Some(Theme::Light) => "فاتح",
        Some(Theme::Dark) => "داكن",
        None => "مثل الجهاز",
    }
}

/// Name of a blocking duration choice in the options.
pub fn session_name(dynamic: bool) -> (s: &'static str)
    ensures
        s@ == (if dynamic {
            "فقط والبرنامج مفتوح"@
        } else {
            "دائمًا"@
        }),
{
    if dynamic {
        "فقط والبرنامج مفتوح"
    } else {
        "دائمًا"
    }
}

} // verus!
