use genshin_dl::cmd::WorkKind;
use genshin_dl::download::Event;
use genshin_dl::edition::Edition;
use genshin_dl::tui::app::{
    parse_threads, Action, App, Effect, ExplorerOutcome, Key, KeyCode, PickerView, Screen,
};

fn params_app() -> App {
    let mut app = App::new(Edition::Global);
    app.screen = Screen::Params;
    app
}

fn key(code: KeyCode) -> Key {
    Key::plain(code)
}

fn picker(dir: &str) -> PickerView {
    PickerView {
        searching: false,
        current_dir: dir.to_owned(),
    }
}

#[test]
fn destination_explorer_enter_opens_selects_and_closes() {
    let expected = "/home/user/Games";
    let mut app = params_app();

    let effect = app.on_key(key(KeyCode::Enter));
    assert!(matches!(effect, Effect::OpenDestPicker));
    app.open_dest_picker(picker(expected));
    assert!(app.dest_picker.is_some());

    app.on_key(key(KeyCode::Char('c')));

    assert!(matches!(app.screen, Screen::Params));
    assert_eq!(app.dest, expected);
    assert!(app.dest_picker.is_none());
}

#[test]
fn destination_explorer_enter_reopens_after_close() {
    let mut app = params_app();

    assert!(matches!(app.on_key(key(KeyCode::Enter)), Effect::OpenDestPicker));
    app.open_dest_picker(picker("/tmp"));
    app.on_key(key(KeyCode::Char('c')));
    assert!(app.dest_picker.is_none());

    assert!(matches!(app.on_key(key(KeyCode::Enter)), Effect::OpenDestPicker));
    app.open_dest_picker(picker("/tmp"));

    assert!(app.dest_picker.is_some());
}

#[test]
fn enter_on_dest_opens_explorer_not_worker() {
    let mut app = params_app();

    let effect = app.on_key(key(KeyCode::Enter));
    assert!(matches!(effect, Effect::OpenDestPicker));
    app.open_dest_picker(picker("/tmp"));

    assert!(matches!(app.screen, Screen::Params));
    assert!(app.dest_picker.is_some());
    assert!(!app.worker_running);
}

#[test]
fn tab_reaches_start_field() {
    let mut app = params_app();

    for _ in 0..3 {
        app.on_key(key(KeyCode::Tab));
    }

    assert_eq!(app.field_focus, 3);
}

#[test]
fn destination_explorer_esc_closes_picker_keeps_path() {
    let mut app = params_app();
    let before = app.dest.clone();

    app.on_key(key(KeyCode::Enter));
    app.open_dest_picker(picker("/tmp"));
    assert!(app.dest_picker.is_some());

    let effect = app.on_key(key(KeyCode::Esc));
    assert!(matches!(effect, Effect::ForwardToExplorer));
    app.explorer_outcome(ExplorerOutcome::Dismissed);

    assert!(matches!(app.screen, Screen::Params));
    assert!(app.dest_picker.is_none());
    assert_eq!(app.dest, before);
}

#[test]
fn params_esc_with_no_picker_returns_to_menu() {
    let mut app = params_app();

    app.on_key(key(KeyCode::Esc));

    assert!(matches!(app.screen, Screen::Menu));
}

#[test]
fn voice_picker_round_trips_selected_voices() {
    let mut app = params_app();
    app.field_focus = 2;
    app.voice = "en-us,ja-jp".to_owned();

    app.on_key(key(KeyCode::Enter));
    app.on_key(key(KeyCode::Down));
    app.on_key(key(KeyCode::Up));
    app.on_key(key(KeyCode::Enter));

    assert!(matches!(app.screen, Screen::Params));
    assert_eq!(app.voice, "en-us,ja-jp");
    assert_eq!(app.field_focus, 3);
}

#[test]
fn voice_picker_can_select_all() {
    let mut app = params_app();
    app.field_focus = 2;

    app.on_key(key(KeyCode::Enter));
    app.on_key(key(KeyCode::Down));
    app.on_key(key(KeyCode::Char(' ')));

    assert_eq!(app.voice, "all");
}

#[test]
fn voice_picker_can_select_none() {
    let mut app = params_app();
    app.field_focus = 2;
    app.voice = "en-us,ja-jp".to_owned();

    app.on_key(key(KeyCode::Enter));
    app.on_key(key(KeyCode::Char(' ')));

    assert_eq!(app.voice, "none");
}

#[test]
fn threads_field_rejects_non_digits() {
    let mut app = params_app();
    app.field_focus = 1;

    app.on_key(key(KeyCode::Char('a')));
    assert_eq!(app.threads, "8");

    app.on_key(key(KeyCode::Char('1')));
    assert_eq!(app.threads, "81");
}

#[test]
fn parse_threads_falls_back_and_rejects_zero() {
    assert_eq!(parse_threads("12"), 12);
    assert_eq!(parse_threads("0"), 8);
    assert_eq!(parse_threads("abc"), 8);
    assert_eq!(parse_threads(""), 8);
}

#[test]
fn parse_threads_trims_and_accepts_plus() {
    assert_eq!(parse_threads("  16 "), 16);
    assert_eq!(parse_threads("+4"), 4);
    assert_eq!(parse_threads("-4"), 8);
    assert_eq!(parse_threads("99999999999999999999999"), 8);
}

#[test]
fn result_screen_scrolls_and_resets_on_back() {
    let mut app = App::new(Edition::Global);
    app.screen = Screen::Result;
    app.result_scroll = 0;

    app.on_key(key(KeyCode::Down));
    assert_eq!(app.result_scroll, 1);
    app.on_key(key(KeyCode::Up));
    assert_eq!(app.result_scroll, 0);
    app.on_key(key(KeyCode::Up));
    assert_eq!(app.result_scroll, 0);

    app.on_key(key(KeyCode::Down));
    app.on_key(key(KeyCode::Esc));
    assert!(matches!(app.screen, Screen::Menu));
    assert_eq!(app.result_scroll, 0);
}

#[test]
fn menu_wraps_and_switches_edition() {
    let mut app = App::new(Edition::Global);
    app.on_key(key(KeyCode::Up));
    assert_eq!(app.menu_idx, 5);
    app.on_key(key(KeyCode::Down));
    assert_eq!(app.menu_idx, 0);
    app.on_key(key(KeyCode::Right));
    assert_eq!(app.edition, Edition::China);
    app.on_key(key(KeyCode::Right));
    assert_eq!(app.edition, Edition::Global);
    app.on_key(key(KeyCode::Left));
    assert_eq!(app.edition, Edition::China);
}

#[test]
fn menu_enter_takes_actions() {
    let mut app = App::new(Edition::Global);
    app.on_key(key(KeyCode::Down));
    assert!(matches!(app.on_key(key(KeyCode::Enter)), Effect::Nothing));
    assert_eq!(app.action, Action::Update);
    assert!(matches!(app.screen, Screen::Params));

    let mut app = App::new(Edition::China);
    app.menu_idx = 4;
    app.log("old".to_owned());
    let effect = app.on_key(key(KeyCode::Enter));
    assert!(matches!(effect, Effect::RunList(Edition::China)));
    assert!(app.logs.is_empty());
    app.finish_list(Ok(vec!["line".to_owned()]));
    assert!(matches!(app.screen, Screen::Result));
    assert_eq!(app.list_output, vec!["line".to_owned()]);
    assert_eq!(app.result, Some(Ok(())));

    let mut app = App::new(Edition::Global);
    app.on_key(key(KeyCode::Enter));
    app.screen = Screen::Menu;
    app.menu_idx = 4;
    app.on_key(key(KeyCode::Enter));
    app.finish_list(Err(("fetch: timeout".to_owned(), "fetch".to_owned())));
    assert_eq!(app.list_output, vec!["ERROR: fetch: timeout".to_owned()]);
    assert_eq!(app.result, Some(Err("fetch".to_owned())));

    let mut app = App::new(Edition::Global);
    app.menu_idx = 5;
    app.on_key(key(KeyCode::Enter));
    assert!(app.quit);
}

#[test]
fn start_button_starts_worker() {
    let mut app = params_app();
    app.action = Action::Repair;
    app.dest = "  /games/gi ".to_owned();
    app.threads = "".to_owned();
    app.voice = " ja-jp, ko-kr ".to_owned();
    app.field_focus = 3;
    app.log("stale".to_owned());
    let effect = app.on_key(key(KeyCode::Enter));
    match effect {
        Effect::StartWorker(r) => {
            assert_eq!(r.kind, WorkKind::Repair);
            assert_eq!(r.edition, Edition::Global);
            assert_eq!(r.dest, "/games/gi");
            assert_eq!(r.threads, 8);
            assert!(r.temp.is_none());
            assert_eq!(r.voices, vec!["ja-jp".to_owned(), "ko-kr".to_owned()]);
            assert!(!r.no_free_space_check);
        }
        _ => panic!("expected a worker to start"),
    }
    assert!(matches!(app.screen, Screen::Progress));
    assert_eq!(app.phase, "Starting");
    assert!(app.logs.is_empty());
    assert!(app.worker_running);
}

#[test]
fn events_update_progress_and_finish() {
    let mut app = params_app();
    app.field_focus = 3;
    app.on_key(key(KeyCode::Enter));
    assert!(!app.handle_event(Event::Phase("Downloading game".to_owned())));
    assert_eq!(app.phase, "Downloading game");
    app.handle_event(Event::ProgressBytes { downloaded: 5, total: 10 });
    assert_eq!((app.bytes.done, app.bytes.total), (5, 10));
    app.handle_event(Event::ProgressFiles { downloaded: 1, total: 2 });
    assert_eq!((app.files.done, app.files.total), (1, 2));
    app.handle_event(Event::Error("chunk broken".to_owned()));
    assert_eq!(app.logs.back().unwrap(), "ERROR: chunk broken");
    assert!(app.handle_event(Event::Finished(Err("download failed for 'game'".to_owned()))));
    assert!(matches!(app.screen, Screen::Result));
    assert!(!app.worker_running);
    assert_eq!(app.logs.back().unwrap(), "Failed: download failed for 'game'");
    assert!(app.handle_event(Event::Finished(Ok(()))));
    assert_eq!(app.logs.back().unwrap(), "Completed successfully");
}

#[test]
fn log_keeps_the_newest_hundred_lines() {
    let mut app = App::new(Edition::Global);
    for i in 0..150 {
        app.log(format!("line {i}"));
    }
    assert_eq!(app.logs.len(), 100);
    assert_eq!(app.logs[0], "line 50");
    assert_eq!(app.logs[99], "line 149");
}

#[test]
fn progress_screen_quits_on_q_only() {
    let mut app = params_app();
    app.field_focus = 3;
    app.on_key(key(KeyCode::Enter));
    app.on_key(key(KeyCode::Esc));
    assert!(!app.quit);
    app.on_key(key(KeyCode::Char('Q')));
    assert!(app.quit);
}

#[test]
fn explorer_keys_while_searching_go_to_explorer() {
    let mut app = params_app();
    app.on_key(key(KeyCode::Enter));
    app.open_dest_picker(PickerView {
        searching: true,
        current_dir: "/x".to_owned(),
    });
    assert!(matches!(app.on_key(key(KeyCode::Char('c'))), Effect::ForwardToExplorer));
    app.sync_dest_picker(false, "/y".to_owned());
    assert!(matches!(app.on_key(key(KeyCode::Char('r'))), Effect::Nothing));
    assert!(matches!(
        app.on_key(Key { code: KeyCode::Char('c'), plain: false }),
        Effect::ForwardToExplorer
    ));
    app.explorer_outcome(ExplorerOutcome::Selected {
        path: "/y/file".to_owned(),
        is_dir: false,
    });
    assert!(app.dest_picker.is_some());
    app.explorer_outcome(ExplorerOutcome::Selected {
        path: "/y/dir".to_owned(),
        is_dir: true,
    });
    assert_eq!(app.dest, "/y/dir");
    assert!(app.dest_picker.is_none());
}
