use genshin_dl::edition::Edition;
use genshin_dl::logging::{log_line, EventVisitor};
use genshin_dl::tui::app::{Action, Screen};
use genshin_dl::tui::view::{
    action_icon, action_line, classify_log_line, files_label, footer_hints, gauges_side_by_side,
    level_color, menu_line, param_rows, phase_icon, picker_count_title, picker_list_title,
    picker_option_texts, picker_summary, result_line, voice_display, LevelColor, LogLine,
    ResultTone,
};
use genshin_dl::tui::voice_picker::{voice_option, VoicePicker};

#[test]
fn phase_icons() {
    assert_eq!(phase_icon("Checking free space"), "🔍");
    assert_eq!(phase_icon("Checking files"), "🔎");
    assert_eq!(phase_icon("Pre-downloading game"), "⬇");
    assert_eq!(phase_icon("Downloading en-us"), "⬇");
    assert_eq!(phase_icon("Repairing game"), "🛠");
    assert_eq!(phase_icon("Deleting unused files"), "🗑");
    assert_eq!(phase_icon("Fetching game info"), "🌐");
    assert_eq!(phase_icon("Patching finished"), "🛠");
    assert_eq!(phase_icon("Download finished"), "✅");
    assert_eq!(phase_icon("Already up to date"), "✅");
    assert_eq!(phase_icon("Starting"), "⚙");
}

#[test]
fn action_icons() {
    assert_eq!(action_icon(Action::Download), "⬇");
    assert_eq!(action_icon(Action::Update), "🔄");
    assert_eq!(action_icon(Action::Quit), "🚪");
}

#[test]
fn voice_field_display() {
    assert_eq!(voice_display(""), "None (action default)");
    assert_eq!(voice_display("none"), "None");
    assert_eq!(voice_display("en-us,ja-jp"), "en-us,ja-jp");
}

#[test]
fn footers() {
    assert!(footer_hints(Screen::Progress, false, false).is_none());
    let menu = footer_hints(Screen::Menu, false, false).unwrap();
    assert_eq!(menu[0], ("←/→", "edition"));
    assert_eq!(menu.len(), 4);
    let explorer = footer_hints(Screen::Params, true, true).unwrap();
    assert_eq!(explorer[4], ("c", "choose current destination"));
    let picker = footer_hints(Screen::Params, false, true).unwrap();
    assert_eq!(picker[1], ("Space", "toggle"));
    let result = footer_hints(Screen::Result, false, false).unwrap();
    assert_eq!(result, vec![("↑/↓", "scroll"), ("Enter/Esc", "back to menu")]);
}

#[test]
fn progress_layout_and_labels() {
    assert!(gauges_side_by_side(72));
    assert!(!gauges_side_by_side(71));
    assert_eq!(files_label(12, 2673), "12 / 2673 files");
    assert_eq!(files_label(0, 0), "0 / 0 files");
}

#[test]
fn picker_texts() {
    let picker = VoicePicker::from_value("ja-jp, en-us");
    assert_eq!(picker.value(), "en-us,ja-jp");
    assert_eq!(picker_summary(&picker), "en-us, ja-jp");
    assert_eq!(picker_list_title(&picker), " Voices 1/6  ◆ 2 selected ");
    assert_eq!(picker_count_title(&picker), " 2/6 selected ");
    let empty = VoicePicker::from_value("");
    assert_eq!(empty.value(), "");
    assert_eq!(picker_summary(&empty), "None");
    assert_eq!(picker_list_title(&empty), " Voices 1/6 ");
    let all = VoicePicker::from_value("xx,all");
    assert_eq!(all.value(), "all");
    assert_eq!(picker_summary(&all), "All voices");
    assert_eq!(voice_option(5), ("zh-cn", "Chinese"));
}

#[test]
fn picker_toggles_exclude_each_other() {
    let mut picker = VoicePicker::from_value("ko-kr");
    picker.cursor = 1;
    picker.toggle_current();
    assert_eq!(picker.value(), "all");
    picker.cursor = 3;
    picker.toggle_current();
    assert_eq!(picker.value(), "ja-jp");
    picker.cursor = 0;
    picker.toggle_current();
    assert_eq!(picker.value(), "none");
    picker.toggle_current();
    assert_eq!(picker.value(), "");
    assert_eq!(picker.selected_count(), 0);
}

#[test]
fn forwards_events_to_tui() {
    let mut visitor = EventVisitor::new();
    visitor.record_value(
        "message",
        "107342 Chunks to download, 2673 Files to install".to_owned(),
    );
    let message = visitor.finish();
    assert_eq!(
        log_line("INFO", "sophon_lib::installer", &message),
        "INFO sophon_lib::installer: 107342 Chunks to download, 2673 Files to install"
    );
}

#[test]
fn visitor_joins_message_and_fields() {
    let mut visitor = EventVisitor::new();
    visitor.record_value("err", "timeout".to_owned());
    visitor.record_value("message", "failed to fetch".to_owned());
    visitor.record_value("retry", "2".to_owned());
    assert_eq!(visitor.finish(), "failed to fetch err=timeout retry=2");
    let mut visitor = EventVisitor::new();
    visitor.record_value("a", "1".to_owned());
    assert_eq!(visitor.finish(), "a=1");
    assert_eq!(EventVisitor::new().finish(), "");
}

#[test]
fn log_lines_are_read_back() {
    let line = log_line("WARN", "genshin_dl::download", "x: y");
    match classify_log_line(&line) {
        LogLine::Targeted { level, target, message } => {
            assert_eq!(level, "WARN");
            assert_eq!(target, "genshin_dl::download");
            assert_eq!(message, "x: y");
        }
        _ => panic!("expected a targeted line"),
    }
    assert!(matches!(classify_log_line("ERROR: boom"), LogLine::Error { message } if message == "boom"));
    assert!(matches!(classify_log_line("Download complete"), LogLine::Plain));
    assert!(matches!(classify_log_line("plain"), LogLine::Plain));
    assert!(matches!(classify_log_line("INFO no target"), LogLine::Leveled { level, rest } if level == "INFO" && rest == "no target"));
    assert_eq!(level_color("ERROR"), Some(LevelColor::Red));
    assert_eq!(level_color("INFO"), Some(LevelColor::Green));
    assert_eq!(level_color("other"), None);
    assert_eq!(Edition::Global.as_str(), "global");
}

#[test]
fn menu_lines_mark_the_selected_entry() {
    assert_eq!(menu_line(0, 0), "> ⬇ Download game");
    assert_eq!(menu_line(1, 0), "  🔄 Update game");
    assert_eq!(menu_line(3, 3), "> 🛠 Repair / check files");
    assert_eq!(menu_line(5, 2), "  🚪 Quit");
}

#[test]
fn action_heading() {
    assert_eq!(action_line(Action::Predownload), "📥 Pre-download update");
    assert_eq!(action_line(Action::List), "📋 List versions");
}

#[test]
fn parameter_rows_show_each_field() {
    let rows = param_rows("/games/gi", "8", "");
    assert_eq!(rows.len(), 3);
    assert_eq!(rows[0], (" 📂 Game directory:".to_owned(), "    /games/gi".to_owned()));
    assert_eq!(rows[1], (" ⚙️ Threads:".to_owned(), "    8".to_owned()));
    assert_eq!(rows[2], (" Voices:".to_owned(), "    None (action default)".to_owned()));
    assert_eq!(param_rows(".", "4", "none")[2].1, "    None");
    assert_eq!(param_rows(".", "4", "en-us,ja-jp")[2].1, "    en-us,ja-jp");
}

#[test]
fn picker_option_rows() {
    assert_eq!(picker_option_texts(0), (" None ".to_owned(), "(none)".to_owned()));
    assert_eq!(picker_option_texts(3), (" Japanese ".to_owned(), "(ja-jp)".to_owned()));
}

#[test]
fn result_messages() {
    assert_eq!(
        result_line(&Some(Ok(()))),
        ("Completed successfully".to_owned(), ResultTone::Success)
    );
    assert_eq!(
        result_line(&Some(Err("disk full".to_owned()))),
        ("Failed: disk full".to_owned(), ResultTone::Failure)
    );
    assert_eq!(result_line(&None), ("Nothing to show".to_owned(), ResultTone::Neutral));
}

#[test]
fn toggling_a_voice_twice_restores_the_selection() {
    let mut picker = VoicePicker::from_value("en-us,ko-kr");
    picker.cursor = 3;
    picker.toggle_current();
    assert_eq!(picker.value(), "en-us,ja-jp,ko-kr");
    picker.toggle_current();
    assert_eq!(picker.value(), "en-us,ko-kr");
}

#[test]
fn picker_values_read_back_and_normalise() {
    for v in ["none", "all", "", "en-us", "en-us,ja-jp", "ja-jp,zh-cn", "en-us,ja-jp,ko-kr,zh-cn"] {
        assert_eq!(VoicePicker::from_value(v).value(), v);
    }
    assert_eq!(VoicePicker::from_value("ja-jp, en-us,fr-fr").value(), "en-us,ja-jp");
    assert_eq!(VoicePicker::from_value("en-us,none").value(), "none");
    assert_eq!(VoicePicker::from_value("ko-kr,all").value(), "all");
}
