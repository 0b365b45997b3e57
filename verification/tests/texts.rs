use dropship::{
    blocked_count_sentence, blocked_phrase, editor_count_text, filter_chip_text, game_chip_text, games_label, join,
    level_label, panel_title, ping_failure_message, preset_button_text, preset_tooltip, process_status_message,
    server_tooltip, servers_pill, status_message, status_text, update_available_message, FilterState, LogEntry,
    LogLevel, StatusKind, VIEW_LOG,
};

#[test]
fn count_sentences() {
    assert_eq!(blocked_count_sentence(0), "ما عندك سيرفرات محظورة.");
    assert_eq!(blocked_count_sentence(1), "عندك سيرفر واحد محظور.");
    assert_eq!(blocked_count_sentence(2), "عندك سيرفران محظوران.");
    assert_eq!(blocked_count_sentence(7), "عندك 7 سيرفرات محظورة.");
    assert_eq!(blocked_count_sentence(10), "عندك 10 سيرفرات محظورة.");
    assert_eq!(blocked_count_sentence(11), "عندك 11 سيرفر محظور.");
    assert_eq!(blocked_phrase(0), "بدون حظر");
    assert_eq!(blocked_phrase(105), "105 محظورة");
    assert_eq!(filter_chip_text(FilterState::Active, 2), "الفلتر · شغّال · سيرفران محظوران");
    assert_eq!(game_chip_text(true), "اللعبة · مكتشفة");
    assert_eq!(servers_pill(3, 12), "3/12");
    assert_eq!(editor_count_text(0, 4), "يُحظر 0 من 4");
}

#[test]
fn notes_and_tooltips() {
    assert_eq!(server_tooltip("ams1", true, true), "ams1 (بانتظار إغلاق اللعبة..)");
    assert_eq!(server_tooltip("ams1", true, false), "ams1 (محظور)");
    assert_eq!(server_tooltip("ams1", false, false), "ams1");
    assert_eq!(process_status_message("Overwatch.exe", false), "اللعبة \"Overwatch.exe\" مغلقة. حظر السيرفرات متاح الآن");
    assert_eq!(update_available_message("3.0.7"), "الإصدار v3.0.7 متوفر");
    assert_eq!(ping_failure_message("1.2.3.4"), "<1.2.3.4> فشل قياس البنق");
    assert_eq!(games_label(0), "ما أضفت أي لعبة");
    assert_eq!(games_label(5), "هذه الألعاب");
    assert_eq!(panel_title(VIEW_LOG), "السجل");
    assert_eq!(level_label(LogLevel::Warn), "تنبيه");
    assert_eq!(join(&vec!["a".into(), "b".into(), "c".into()], ","), "a,b,c");
    assert_eq!(join(&vec![], ","), "");
    assert_eq!(preset_tooltip(&vec![]), "يحظر: لا شيء\nيسار: تطبيق · يمين: تعديل");
    assert_eq!(preset_tooltip(&vec!["gmec2".into(), "ams1".into()]), "يحظر: gmec2، ams1\nيسار: تطبيق · يمين: تعديل");
    assert_eq!(preset_button_text("أوروبا", &Some("F1".into())), "أوروبا  F1");
}

fn entry(level: LogLevel, secs: i64, message: &str) -> LogEntry {
    LogEntry { level, time_ns: secs * 1_000_000_000, message: message.into() }
}

#[test]
fn status_line_prefers_recent_errors() {
    let logs = vec![
        entry(LogLevel::Error, 90, "old error"),
        entry(LogLevel::Warn, 95, "warning"),
        entry(LogLevel::Info, 98, "[ event ] info"),
    ];
    assert_eq!(status_message(&logs, 100 * 1_000_000_000), Some((1, StatusKind::Warning)));
    assert_eq!(status_message(&logs, 99 * 1_000_000_000), Some((0, StatusKind::Error)));
    assert_eq!(status_message(&logs, 105 * 1_000_000_000), Some((2, StatusKind::Plain)));
    assert_eq!(status_message(&logs, 108 * 1_000_000_000), None);
    assert_eq!(status_message(&vec![], 0), None);
    assert_eq!(status_text("[ event ] info"), "info");
    assert_eq!(status_text("[command] ping"), "ping");
    assert_eq!(status_text("plain"), "plain");
}

#[test]
fn trim_agrees_with_std() {
    let samples = [
        "", "   ", "a", "  a b  ", "\t\n x \r\u{b}\u{c}", "\u{a0}name\u{3000}", "\u{85}\u{1680}\u{2000}z\u{200a}\u{2028}\u{2029}\u{202f}\u{205f}",
        "\u{200b}zero width\u{200b}", "\u{180e}x", " 1.2.3.0/24 ", "أوروبا  ",
    ];
    for s in samples {
        assert_eq!(dropship::trim(s), s.trim(), "{s:?}");
    }
    for c in (0u32..0x3100).filter_map(char::from_u32) {
        assert_eq!(dropship::white_space(c), c.is_whitespace(), "{c:?}");
    }
}
