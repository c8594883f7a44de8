//! The interface's state machine: which screen is shown, what the fields
//! hold, and how each key press and each engine event changes them.
//!
//! The program draws the state, reads keys, runs the file explorer and the
//! engine; every decision between those is made here. A key press returns an
//! `Effect` that tells the program what outside work to do next.
use std::collections::VecDeque;

use vstd::prelude::*;

use crate::cmd::{WorkKind, WorkRequest};
use crate::download::{Event, EventView};
use crate::edition::{edition_at, edition_index, Edition};
use crate::text::{append_str, parse_unsigned, parse_unsigned_spec, trim, trimmed, views};
use crate::tui::voice_picker::{
    selection_of, selection_value, toggled, VoicePicker, VOICE_OPTION_COUNT,
};
use crate::voice::{parse_arg, parse_arg_spec};

verus! {

/// The most log lines the progress screen keeps.
pub const LOG_LIMIT: usize = 100;

/// The number of entries of the main menu.
pub const ACTION_COUNT: usize = 6;

/// The number of focusable rows of the parameters screen (three fields and
/// the start button).
pub const FIELD_COUNT: usize = 4;

#[derive(Clone, Copy, PartialEq, Eq, Debug, Structural)]
pub enum Action {
    Download,
    Update,
    Predownload,
    Repair,
    List,
    Quit,
}

/// The action of menu entry `i`.
pub open spec fn action_of(i: int) -> Action {
    if i == 0 {
        Action::Download
    } else if i == 1 {
        Action::Update
    } else if i == 2 {
        Action::Predownload
    } else if i == 3 {
        Action::Repair
    } else if i == 4 {
        Action::List
    } else {
        Action::Quit
    }
}

/// The label of an action in the menu.
pub open spec fn action_label_spec(a: Action) -> Seq<char> {
    match a {
        Action::Download => "Download game"@,
        Action::Update => "Update game"@,
        Action::Predownload => "Pre-download update"@,
        Action::Repair => "Repair / check files"@,
        Action::List => "List versions"@,
        Action::Quit => "Quit"@,
    }
}

/// The action of menu entry `i`.
pub fn action_at(i: usize) -> (a: Action)
    requires
        i < ACTION_COUNT,
    ensures
        a == action_of(i as int),
{
    if i == 0 {
        Action::Download
    } else if i == 1 {
        Action::Update
    } else if i == 2 {
        Action::Predownload
    } else if i == 3 {
        Action::Repair
    } else if i == 4 {
        Action::List
    } else {
        Action::Quit
    }
}

/// The label of an action in the menu.
pub fn action_label(a: Action) -> (label: &'static str)
    ensures
        label@ == action_label_spec(a),
{
    match a {
        Action::Download => "Download game",
        Action::Update => "Update game",
        Action::Predownload => "Pre-download update",
        Action::Repair => "Repair / check files",
        Action::List => "List versions",
        Action::Quit => "Quit",
    }
}

/// The actions that run the download engine.
pub open spec fn is_work_action(a: Action) -> bool {
    ||| a == Action::Download
    ||| a == Action::Update
    ||| a == Action::Predownload
    ||| a == Action::Repair
}

/// The engine operation of a work action.
pub open spec fn work_kind_of(a: Action) -> WorkKind {
    match a {
        Action::Update => WorkKind::Update,
        Action::Predownload => WorkKind::Predownload,
        Action::Repair => WorkKind::Repair,
        _ => WorkKind::Download,
    }
}

#[derive(Clone, Copy, PartialEq, Eq, Debug, Structural)]
pub enum Screen {
    Menu,
    Params,
    Progress,
    Result,
}

/// A progress counter: how much of how much is done.
#[derive(Clone, Copy, PartialEq, Eq, Debug, Structural)]
pub struct Progress {
    pub done: u64,
    pub total: u64,
}

impl Default for Progress {
    fn default() -> (p: Self)
        ensures
            p == (Progress { done: 0, total: 0 }),
    {
        Progress { done: 0, total: 0 }
    }
}

impl Progress {
    pub fn set(&mut self, done: u64, total: u64)
        ensures
            *final(self) == (Progress { done, total }),
    {
        self.done = done;
        self.total = total;
    }
}

/// What the interface knows of an open file explorer.
pub struct PickerView {
    /// The explorer is taking a search query.
    pub searching: bool,
    /// The directory the explorer shows.
    pub current_dir: String,
}

/// A key of the keyboard, as the interface tells keys apart.
#[derive(Clone, Copy, PartialEq, Eq, Debug, Structural)]
pub enum KeyCode {
    Char(char),
    Enter,
    Esc,
    Tab,
    Up,
    Down,
    Left,
    Right,
    Backspace,
    Other,
}

/// A key press: the key, and whether it came without modifiers.
#[derive(Clone, Copy, PartialEq, Eq, Debug, Structural)]
pub struct Key {
    pub code: KeyCode,
    pub plain: bool,
}

impl Key {
    /// A key pressed without modifiers.
    pub fn plain(code: KeyCode) -> (k: Key)
        ensures
            k == (Key { code, plain: true }),
    {
        Key { code, plain: true }
    }
}

/// What the outcome of a key press asks the program to do.
pub enum Effect {
    /// Nothing beyond the change of state.
    Nothing,
    /// Open the file explorer for the game directory, then report it with
    /// `App::open_dest_picker`.
    OpenDestPicker,
    /// Hand the key to the open file explorer, then report the outcome with
    /// `App::explorer_outcome`.
    ForwardToExplorer,
    /// Build the version listing of the edition, then report it with
    /// `App::finish_list`.
    RunList(Edition),
    /// Start the engine on a background worker and feed its events to
    /// `App::handle_event`.
    StartWorker(WorkRequest),
}

/// What the file explorer did with a key.
pub enum ExplorerOutcome {
    Dismissed,
    Selected { path: String, is_dir: bool },
    Other,
}

pub struct WorkRequestView {
    pub kind: WorkKind,
    pub edition: Edition,
    pub dest: Seq<char>,
    pub threads: usize,
    pub temp: Option<Seq<char>>,
    pub voices: Seq<Seq<char>>,
    pub no_free_space_check: bool,
}

pub open spec fn work_request_view(r: WorkRequest) -> WorkRequestView {
    WorkRequestView {
        kind: r.kind,
        edition: r.edition,
        dest: r.dest@,
        threads: r.threads,
        temp: match r.temp {
            Some(t) => Some(t@),
            None => None,
        },
        voices: views(r.voices@),
        no_free_space_check: r.no_free_space_check,
    }
}

pub enum EffectView {
    Nothing,
    OpenDestPicker,
    ForwardToExplorer,
    RunList(Edition),
    StartWorker(WorkRequestView),
}

impl View for Effect {
    type V = EffectView;

    open spec fn view(&self) -> EffectView {
        match self {
            Effect::Nothing => EffectView::Nothing,
            Effect::OpenDestPicker => EffectView::OpenDestPicker,
            Effect::ForwardToExplorer => EffectView::ForwardToExplorer,
            Effect::RunList(e) => EffectView::RunList(*e),
            Effect::StartWorker(r) => EffectView::StartWorker(work_request_view(*r)),
        }
    }
}

/// The interface's state.
pub struct App {
    pub edition: Edition,
    pub screen: Screen,
    pub menu_idx: usize,
    pub action: Action,
    pub dest: String,
    pub threads: String,
    pub voice: String,
    pub field_focus: usize,
    pub phase: String,
    pub bytes: Progress,
    pub files: Progress,
    pub logs: VecDeque<String>,
    pub dest_picker: Option<PickerView>,
    pub voice_picker: Option<VoicePicker>,
    /// A worker runs and its events are awaited.
    pub worker_running: bool,
    pub result: Option<Result<(), String>>,
    pub list_output: Vec<String>,
    pub result_scroll: usize,
    pub quit: bool,
}

/// The state with its texts as character sequences.
#[verifier::ext_equal]
pub struct AppView {
    pub edition: Edition,
    pub screen: Screen,
    pub menu_idx: usize,
    pub action: Action,
    pub dest: Seq<char>,
    pub threads: Seq<char>,
    pub voice: Seq<char>,
    pub field_focus: usize,
    pub phase: Seq<char>,
    pub bytes: Progress,
    pub files: Progress,
    pub logs: Seq<Seq<char>>,
    /// Whether the explorer searches, and the directory it shows.
    pub dest_picker: Option<(bool, Seq<char>)>,
    /// The selection and the cursor of the voice picker.
    pub voice_picker: Option<(Seq<bool>, usize)>,
    pub worker_running: bool,
    pub result: Option<Result<(), Seq<char>>>,
    pub list_output: Seq<Seq<char>>,
    pub result_scroll: usize,
    pub quit: bool,
}

impl View for App {
    type V = AppView;

    open spec fn view(&self) -> AppView {
        AppView {
            edition: self.edition,
            screen: self.screen,
            menu_idx: self.menu_idx,
            action: self.action,
            dest: self.dest@,
            threads: self.threads@,
            voice: self.voice@,
            field_focus: self.field_focus,
            phase: self.phase@,
            bytes: self.bytes,
            files: self.files,
            logs: views(self.logs@),
            dest_picker: match self.dest_picker {
                Some(p) => Some((p.searching, p.current_dir@)),
                None => None,
            },
            voice_picker: match self.voice_picker {
                Some(p) => Some((p.selected@, p.cursor)),
                None => None,
            },
            worker_running: self.worker_running,
            result: match self.result {
                Some(Ok(())) => Some(Ok(())),
                Some(Err(e)) => Some(Err(e@)),
                None => None,
            },
            list_output: views(self.list_output@),
            result_scroll: self.result_scroll,
            quit: self.quit,
        }
    }
}

/// The invariant of the state: the cursors stay on their lists, the log
/// stays within its limit, and the parameters screen belongs to a work action.
pub open spec fn app_wf(a: AppView) -> bool {
    &&& a.menu_idx < ACTION_COUNT
    &&& a.field_focus < FIELD_COUNT
    &&& a.logs.len() <= LOG_LIMIT
    &&& (a.voice_picker matches Some(p) ==> p.1 < VOICE_OPTION_COUNT && p.0.len() == 6)
    &&& (a.screen == Screen::Params ==> is_work_action(a.action))
}

/// The log after a line is added: the oldest line goes once the limit is
/// reached.
pub open spec fn logged(logs: Seq<Seq<char>>, line: Seq<char>) -> Seq<Seq<char>> {
    (if logs.len() >= LOG_LIMIT {
        logs.drop_first()
    } else {
        logs
    }).push(line)
}

/// The number of threads a field holds: its trimmed text as a positive
/// number, else 8.
pub open spec fn threads_value(input: Seq<char>) -> usize {
    match parse_unsigned_spec(trimmed(input), usize::MAX as nat) {
        Some(v) => if v > 0 {
            v as usize
        } else {
            8
        },
        None => 8,
    }
}

/// The state and the request of a worker started from the parameters screen.
pub open spec fn start_worker_spec(o: AppView) -> (AppView, EffectView) {
    (
        AppView {
            worker_running: true,
            phase: "Starting"@,
            bytes: Progress { done: 0, total: 0 },
            files: Progress { done: 0, total: 0 },
            logs: Seq::empty(),
            result: None,
            screen: Screen::Progress,
            ..o
        },
        EffectView::StartWorker(
            WorkRequestView {
                kind: work_kind_of(o.action),
                edition: o.edition,
                dest: trimmed(o.dest),
                threads: threads_value(o.threads),
                temp: None,
                voices: parse_arg_spec(Some(trimmed(o.voice))),
                no_free_space_check: false,
            },
        ),
    )
}

pub open spec fn is_ascii_digit(c: char) -> bool {
    '0' as u32 <= c as u32 <= '9' as u32
}

/// A key on the main menu: ←/→ switch the edition, ↑/↓ move the cursor
/// round the menu, Enter takes the action under it, Esc and q quit.
pub open spec fn menu_key_spec(o: AppView, k: Key) -> (AppView, EffectView) {
    match k.code {
        KeyCode::Left => (
            AppView { edition: edition_at((edition_index(o.edition) - 1) % 2), ..o },
            EffectView::Nothing,
        ),
        KeyCode::Right => (
            AppView { edition: edition_at((edition_index(o.edition) + 1) % 2), ..o },
            EffectView::Nothing,
        ),
        KeyCode::Up => (
            AppView { menu_idx: ((o.menu_idx + ACTION_COUNT - 1) % ACTION_COUNT as int) as usize, ..o },
            EffectView::Nothing,
        ),
        KeyCode::Down => (
            AppView { menu_idx: ((o.menu_idx + 1) % ACTION_COUNT as int) as usize, ..o },
            EffectView::Nothing,
        ),
        KeyCode::Enter => {
            let a = action_of(o.menu_idx as int);
            if a == Action::Quit {
                (AppView { action: a, quit: true, ..o }, EffectView::Nothing)
            } else if a == Action::List {
                (
                    AppView {
                        action: a,
                        logs: Seq::empty(),
                        result: None,
                        list_output: Seq::empty(),
                        result_scroll: 0,
                        ..o
                    },
                    EffectView::RunList(o.edition),
                )
            } else {
                (
                    AppView { action: a, field_focus: 0, screen: Screen::Params, ..o },
                    EffectView::Nothing,
                )
            }
        },
        KeyCode::Esc => (AppView { quit: true, ..o }, EffectView::Nothing),
        KeyCode::Char(c) => if c == 'q' || c == 'Q' {
            (AppView { quit: true, ..o }, EffectView::Nothing)
        } else {
            (o, EffectView::Nothing)
        },
        _ => (o, EffectView::Nothing),
    }
}

/// A key while the file explorer is open: `c` takes the directory it shows,
/// the keys of its own file operations are ignored, everything else goes to
/// the explorer. While it takes a search query every key goes to it.
pub open spec fn explorer_key_spec(o: AppView, k: Key) -> (AppView, EffectView) {
    let picker = o.dest_picker->0;
    let searching = picker.0;
    let current = picker.1;
    if !searching && k.code == KeyCode::Char('c') && k.plain {
        (AppView { dest: current, dest_picker: None, ..o }, EffectView::Nothing)
    } else if !searching && k.plain && (k.code == KeyCode::Char(' ') || k.code == KeyCode::Char('n')
        || k.code == KeyCode::Char('N') || k.code == KeyCode::Char('r')) {
        (o, EffectView::Nothing)
    } else {
        (o, EffectView::ForwardToExplorer)
    }
}

/// A key while the voice picker is open: ↑/↓ move round the options, space
/// toggles one and takes the new value, Enter takes the value and moves on to
/// the start button, Esc closes the picker.
pub open spec fn voice_picker_key_spec(o: AppView, k: Key) -> (AppView, EffectView) {
    let picker = o.voice_picker->0;
    let sel = picker.0;
    let cur = picker.1;
    match k.code {
        KeyCode::Up => (
            AppView {
                voice_picker: Some(
                    (sel, ((cur + VOICE_OPTION_COUNT - 1) % VOICE_OPTION_COUNT as int) as usize),
                ),
                ..o
            },
            EffectView::Nothing,
        ),
        KeyCode::Down => (
            AppView {
                voice_picker: Some((sel, ((cur + 1) % VOICE_OPTION_COUNT as int) as usize)),
                ..o
            },
            EffectView::Nothing,
        ),
        KeyCode::Char(c) => if c == ' ' && k.plain {
            let sel2 = toggled(sel, cur as int);
            (
                AppView { voice_picker: Some((sel2, cur)), voice: selection_value(sel2), ..o },
                EffectView::Nothing,
            )
        } else {
            (o, EffectView::Nothing)
        },
        KeyCode::Enter => (
            AppView { voice: selection_value(sel), voice_picker: None, field_focus: 3, ..o },
            EffectView::Nothing,
        ),
        KeyCode::Esc => (AppView { voice_picker: None, ..o }, EffectView::Nothing),
        _ => (o, EffectView::Nothing),
    }
}

/// A key on the parameters screen. An open explorer or picker takes it
/// first. Else: Esc goes back to the menu; Enter opens the explorer on the
/// directory field, the picker on the voice field, and starts the worker on
/// the start button; ↓/Tab and ↑ move round the rows; on the threads field,
/// Backspace removes the last character and a digit is appended.
pub open spec fn params_key_spec(o: AppView, k: Key) -> (AppView, EffectView) {
    if o.dest_picker is Some {
        explorer_key_spec(o, k)
    } else if o.voice_picker is Some {
        voice_picker_key_spec(o, k)
    } else {
        match k.code {
            KeyCode::Esc => (AppView { screen: Screen::Menu, ..o }, EffectView::Nothing),
            KeyCode::Enter => if o.field_focus == 0 {
                (o, EffectView::OpenDestPicker)
            } else if o.field_focus == 2 {
                (
                    AppView {
                        voice_picker: Some((selection_of(parse_arg_spec(Some(o.voice))), 0)),
                        ..o
                    },
                    EffectView::Nothing,
                )
            } else if o.field_focus == 3 {
                start_worker_spec(o)
            } else {
                (o, EffectView::Nothing)
            },
            KeyCode::Down => (
                AppView { field_focus: ((o.field_focus + 1) % FIELD_COUNT as int) as usize, ..o },
                EffectView::Nothing,
            ),
            KeyCode::Tab => (
                AppView { field_focus: ((o.field_focus + 1) % FIELD_COUNT as int) as usize, ..o },
                EffectView::Nothing,
            ),
            KeyCode::Up => (
                AppView { field_focus: ((o.field_focus + 3) % FIELD_COUNT as int) as usize, ..o },
                EffectView::Nothing,
            ),
            KeyCode::Backspace => if o.field_focus == 1 {
                (
                    AppView {
                        threads: if o.threads.len() > 0 {
                            o.threads.drop_last()
                        } else {
                            o.threads
                        },
                        ..o
                    },
                    EffectView::Nothing,
                )
            } else {
                (o, EffectView::Nothing)
            },
            KeyCode::Char(c) => if o.field_focus == 1 && is_ascii_digit(c) {
                (AppView { threads: o.threads.push(c), ..o }, EffectView::Nothing)
            } else {
                (o, EffectView::Nothing)
            },
            _ => (o, EffectView::Nothing),
        }
    }
}

/// A key on the result screen: Esc/Enter go back to the menu from the top,
/// ↓/↑ scroll (not above the top).
pub open spec fn result_key_spec(o: AppView, k: Key) -> (AppView, EffectView) {
    match k.code {
        KeyCode::Esc => (AppView { result_scroll: 0, screen: Screen::Menu, ..o }, EffectView::Nothing),
        KeyCode::Enter => (
            AppView { result_scroll: 0, screen: Screen::Menu, ..o },
            EffectView::Nothing,
        ),
        KeyCode::Down => (
            AppView { result_scroll: (o.result_scroll + 1) as usize, ..o },
            EffectView::Nothing,
        ),
        KeyCode::Up => (
            AppView {
                result_scroll: if o.result_scroll > 0 {
                    (o.result_scroll - 1) as usize
                } else {
                    0
                },
                ..o
            },
            EffectView::Nothing,
        ),
        _ => (o, EffectView::Nothing),
    }
}

/// A key on any screen; on the progress screen only q quits.
pub open spec fn on_key_spec(o: AppView, k: Key) -> (AppView, EffectView) {
    match o.screen {
        Screen::Menu => menu_key_spec(o, k),
        Screen::Params => params_key_spec(o, k),
        Screen::Progress => if k.code == KeyCode::Char('q') || k.code == KeyCode::Char('Q') {
            (AppView { quit: true, ..o }, EffectView::Nothing)
        } else {
            (o, EffectView::Nothing)
        },
        Screen::Result => result_key_spec(o, k),
    }
}

/// The state after an engine event: a phase, progress or log line is shown;
/// the end of the run records its result, logs it and shows the result.
pub open spec fn handle_event_spec(o: AppView, e: EventView) -> AppView {
    match e {
        EventView::Phase(p) => AppView { phase: p, ..o },
        EventView::ProgressBytes { downloaded, total } => AppView {
            bytes: Progress { done: downloaded, total },
            ..o
        },
        EventView::ProgressFiles { downloaded, total } => AppView {
            files: Progress { done: downloaded, total },
            ..o
        },
        EventView::Message(m) => AppView { logs: logged(o.logs, m), ..o },
        EventView::Error(err) => AppView { logs: logged(o.logs, "ERROR: "@ + err), ..o },
        EventView::Finished(r) => AppView {
            worker_running: false,
            result_scroll: 0,
            result: Some(r),
            logs: logged(
                o.logs,
                match r {
                    Ok(()) => "Completed successfully"@,
                    Err(err) => "Failed: "@ + err,
                },
            ),
            screen: Screen::Result,
            ..o
        },
    }
}

/// The number of threads the threads field asks for: a positive number, or
/// 8 when the field holds none.
pub fn parse_threads(input: &str) -> (n: usize)
    ensures
        n == threads_value(input@),
        n > 0,
{
    let t = trim(input);
    match parse_unsigned(t.as_str(), usize::MAX as u64) {
        Some(v) => if v > 0 {
            v as usize
        } else {
            8
        },
        None => 8,
    }
}

impl App {
    /// The state the interface starts in: the menu, with the directory `.`,
    /// 8 threads and no voices.
    pub fn new(edition: Edition) -> (app: App)
        ensures
            app@ == (AppView {
                edition,
                screen: Screen::Menu,
                menu_idx: 0,
                action: Action::Download,
                dest: "."@,
                threads: "8"@,
                voice: Seq::empty(),
                field_focus: 0,
                phase: Seq::empty(),
                bytes: Progress { done: 0, total: 0 },
                files: Progress { done: 0, total: 0 },
                logs: Seq::empty(),
                dest_picker: None,
                voice_picker: None,
                worker_running: false,
                result: None,
                list_output: Seq::empty(),
                result_scroll: 0,
                quit: false,
            }),
            app_wf(app@),
    {
        let app = App {
            edition,
            screen: Screen::Menu,
            menu_idx: 0,
            action: Action::Download,
            dest: ".".to_owned(),
            threads: "8".to_owned(),
            voice: String::new(),
            field_focus: 0,
            phase: String::new(),
            bytes: Progress { done: 0, total: 0 },
            files: Progress { done: 0, total: 0 },
            logs: VecDeque::new(),
            dest_picker: None,
            voice_picker: None,
            worker_running: false,
            result: None,
            list_output: Vec::new(),
            result_scroll: 0,
            quit: false,
        };
        assert(app@.logs =~= Seq::<Seq<char>>::empty());
        assert(app@.list_output =~= Seq::<Seq<char>>::empty());
        app
    }

    /// Adds a line to the log, dropping the oldest once the limit is reached.
    pub fn log(&mut self, msg: String)
        requires
            old(self)@.logs.len() <= LOG_LIMIT,
        ensures
            final(self)@ == (AppView { logs: logged(old(self)@.logs, msg@), ..old(self)@ }),
    {
        let ghost before = views(self.logs@);
        if self.logs.len() >= LOG_LIMIT {
            self.logs.pop_front();
            assert(views(self.logs@) =~= before.drop_first());
        }
        let ghost mid = views(self.logs@);
        self.logs.push_back(msg);
        assert(views(self.logs@) =~= mid.push(msg@));
        assert(self@ =~= AppView { logs: logged(before, msg@), ..old(self)@ });
    }

    fn clear_logs(&mut self)
        ensures
            final(self)@ == (AppView { logs: Seq::empty(), ..old(self)@ }),
    {
        self.logs.clear();
        assert(self@ =~= AppView { logs: Seq::empty(), ..old(self)@ });
    }

    fn menu_key(&mut self, key: Key) -> (effect: Effect)
        requires
            app_wf(old(self)@),
            old(self).screen == Screen::Menu,
        ensures
            final(self)@ == menu_key_spec(old(self)@, key).0,
            effect@ == menu_key_spec(old(self)@, key).1,
    {
        match key.code {
            KeyCode::Left => {
                self.edition = self.edition.shifted(-1);
                Effect::Nothing
            },
            KeyCode::Right => {
                self.edition = self.edition.shifted(1);
                Effect::Nothing
            },
            KeyCode::Up => {
                self.menu_idx = (self.menu_idx + ACTION_COUNT - 1) % ACTION_COUNT;
                Effect::Nothing
            },
            KeyCode::Down => {
                self.menu_idx = (self.menu_idx + 1) % ACTION_COUNT;
                Effect::Nothing
            },
            KeyCode::Enter => {
                self.action = action_at(self.menu_idx);
                match self.action {
                    Action::Quit => {
                        self.quit = true;
                        Effect::Nothing
                    },
                    Action::List => {
                        self.clear_logs();
                        self.result = None;
                        self.list_output.clear();
                        self.result_scroll = 0;
                        assert(self@.list_output =~= Seq::<Seq<char>>::empty());
                        Effect::RunList(self.edition)
                    },
                    _ => {
                        self.field_focus = 0;
                        self.screen = Screen::Params;
                        Effect::Nothing
                    },
                }
            },
            KeyCode::Esc => {
                self.quit = true;
                Effect::Nothing
            },
            KeyCode::Char(c) => {
                if c == 'q' || c == 'Q' {
                    self.quit = true;
                }
                Effect::Nothing
            },
            _ => Effect::Nothing,
        }
    }

    fn explorer_key(&mut self, key: Key) -> (effect: Effect)
        requires
            old(self).dest_picker is Some,
        ensures
            final(self)@ == explorer_key_spec(old(self)@, key).0,
            effect@ == explorer_key_spec(old(self)@, key).1,
    {
        let searching = match &self.dest_picker {
            Some(p) => p.searching,
            None => false,
        };
        if !searching && key.code == KeyCode::Char('c') && key.plain {
            let dir = match &self.dest_picker {
                Some(p) => p.current_dir.clone(),
                None => String::new(),
            };
            self.dest = dir;
            self.dest_picker = None;
            return Effect::Nothing;
        }
        if !searching && key.plain && (key.code == KeyCode::Char(' ') || key.code == KeyCode::Char(
            'n',
        ) || key.code == KeyCode::Char('N') || key.code == KeyCode::Char('r')) {
            return Effect::Nothing;
        }
        Effect::ForwardToExplorer
    }

    fn voice_picker_key(&mut self, key: Key) -> (effect: Effect)
        requires
            app_wf(old(self)@),
            old(self).voice_picker is Some,
        ensures
            final(self)@ == voice_picker_key_spec(old(self)@, key).0,
            effect@ == voice_picker_key_spec(old(self)@, key).1,
    {
        let mut picker = match self.voice_picker.take() {
            Some(p) => p,
            None => {
                return Effect::Nothing;
            },
        };
        match key.code {
            KeyCode::Up => {
                picker.cursor = (picker.cursor + VOICE_OPTION_COUNT - 1) % VOICE_OPTION_COUNT;
                self.voice_picker = Some(picker);
            },
            KeyCode::Down => {
                picker.cursor = (picker.cursor + 1) % VOICE_OPTION_COUNT;
                self.voice_picker = Some(picker);
            },
            KeyCode::Char(c) => {
                if c == ' ' && key.plain {
                    picker.toggle_current();
                    self.voice = picker.value();
                }
                self.voice_picker = Some(picker);
            },
            KeyCode::Enter => {
                self.voice = picker.value();
                self.field_focus = 3;
            },
            KeyCode::Esc => {},
            _ => {
                self.voice_picker = Some(picker);
            },
        }
        Effect::Nothing
    }

    fn start_worker(&mut self) -> (effect: Effect)
        requires
            is_work_action(old(self).action),
        ensures
            final(self)@ == start_worker_spec(old(self)@).0,
            effect@ == start_worker_spec(old(self)@).1,
    {
        let kind = match self.action {
            Action::Update => WorkKind::Update,
            Action::Predownload => WorkKind::Predownload,
            Action::Repair => WorkKind::Repair,
            _ => WorkKind::Download,
        };
        let dest = trim(self.dest.as_str());
        let threads = parse_threads(self.threads.as_str());
        let voice = trim(self.voice.as_str());
        let voices = parse_arg(Some(voice.as_str()));
        let request = WorkRequest {
            kind,
            edition: self.edition,
            dest,
            threads,
            temp: None,
            voices,
            no_free_space_check: false,
        };
        self.worker_running = true;
        self.phase = "Starting".to_owned();
        self.bytes = Progress { done: 0, total: 0 };
        self.files = Progress { done: 0, total: 0 };
        self.clear_logs();
        self.result = None;
        self.screen = Screen::Progress;
        Effect::StartWorker(request)
    }

    fn params_key(&mut self, key: Key) -> (effect: Effect)
        requires
            app_wf(old(self)@),
            old(self).screen == Screen::Params,
        ensures
            final(self)@ == params_key_spec(old(self)@, key).0,
            effect@ == params_key_spec(old(self)@, key).1,
    {
        if self.dest_picker.is_some() {
            return self.explorer_key(key);
        }
        if self.voice_picker.is_some() {
            return self.voice_picker_key(key);
        }
        match key.code {
            KeyCode::Esc => {
                self.screen = Screen::Menu;
                Effect::Nothing
            },
            KeyCode::Enter => {
                if self.field_focus == 0 {
                    Effect::OpenDestPicker
                } else if self.field_focus == 2 {
                    self.voice_picker = Some(VoicePicker::from_value(self.voice.as_str()));
                    Effect::Nothing
                } else if self.field_focus == 3 {
                    self.start_worker()
                } else {
                    Effect::Nothing
                }
            },
            KeyCode::Down | KeyCode::Tab => {
                self.field_focus = (self.field_focus + 1) % FIELD_COUNT;
                Effect::Nothing
            },
            KeyCode::Up => {
                self.field_focus = (self.field_focus + 3) % FIELD_COUNT;
                Effect::Nothing
            },
            KeyCode::Backspace => {
                if self.field_focus == 1 {
                    self.threads.pop();
                }
                Effect::Nothing
            },
            KeyCode::Char(c) => {
                let u = c as u32;
                if self.field_focus == 1 && 48 <= u && u <= 57 {
                    self.threads.push(c);
                }
                Effect::Nothing
            },
            _ => Effect::Nothing,
        }
    }

    fn result_key(&mut self, key: Key) -> (effect: Effect)
        requires
            old(self).screen == Screen::Result,
            key.code == KeyCode::Down ==> old(self).result_scroll < usize::MAX,
        ensures
            final(self)@ == result_key_spec(old(self)@, key).0,
            effect@ == result_key_spec(old(self)@, key).1,
    {
        match key.code {
            KeyCode::Esc | KeyCode::Enter => {
                self.result_scroll = 0;
                self.screen = Screen::Menu;
            },
            KeyCode::Down => {
                self.result_scroll = self.result_scroll + 1;
            },
            KeyCode::Up => {
                self.result_scroll = if self.result_scroll > 0 {
                    self.result_scroll - 1
                } else {
                    0
                };
            },
            _ => {},
        }
        Effect::Nothing
    }

    /// Handles a key press, and tells what outside work it calls for.
    pub fn on_key(&mut self, key: Key) -> (effect: Effect)
        requires
            app_wf(old(self)@),
            old(self).screen == Screen::Result && key.code == KeyCode::Down
                ==> old(self).result_scroll < usize::MAX,
        ensures
            final(self)@ == on_key_spec(old(self)@, key).0,
            effect@ == on_key_spec(old(self)@, key).1,
            app_wf(final(self)@),
    {
        match self.screen {
            Screen::Menu => self.menu_key(key),
            Screen::Params => self.params_key(key),
            Screen::Progress => {
                if key.code == KeyCode::Char('q') || key.code == KeyCode::Char('Q') {
                    self.quit = true;
                }
                Effect::Nothing
            },
            Screen::Result => self.result_key(key),
        }
    }

    /// Records the file explorer the program opened for the directory field.
    pub fn open_dest_picker(&mut self, picker: PickerView)
        ensures
            final(self)@ == (AppView {
                dest_picker: Some((picker.searching, picker.current_dir@)),
                ..old(self)@
            }),
    {
        self.dest_picker = Some(picker);
    }

    /// Records what the open explorer shows after it handled a key.
    pub fn sync_dest_picker(&mut self, searching: bool, current_dir: String)
        ensures
            final(self)@ == (AppView {
                dest_picker: if old(self)@.dest_picker is Some {
                    Some((searching, current_dir@))
                } else {
                    None
                },
                ..old(self)@
            }),
    {
        if self.dest_picker.is_some() {
            self.dest_picker = Some(PickerView { searching, current_dir });
        }
    }

    /// Applies what the explorer did with a forwarded key: dismissing it
    /// closes it, choosing a directory takes it as the game directory and
    /// closes it; anything else leaves it open.
    pub fn explorer_outcome(&mut self, outcome: ExplorerOutcome)
        ensures
            match outcome {
                ExplorerOutcome::Dismissed => final(self)@ == (AppView {
                    dest_picker: None,
                    ..old(self)@
                }),
                ExplorerOutcome::Selected { path, is_dir } => if is_dir {
                    final(self)@ == (AppView { dest: path@, dest_picker: None, ..old(self)@ })
                } else {
                    final(self)@ == old(self)@
                },
                ExplorerOutcome::Other => final(self)@ == old(self)@,
            },
    {
        match outcome {
            ExplorerOutcome::Dismissed => {
                self.dest_picker = None;
            },
            ExplorerOutcome::Selected { path, is_dir } => {
                if is_dir {
                    self.dest = path;
                    self.dest_picker = None;
                }
            },
            ExplorerOutcome::Other => {},
        }
    }

    /// Shows the outcome of a version listing: its lines, or the error in
    /// one line (`alternate` is the error with its causes, `plain` the
    /// error alone).
    pub fn finish_list(&mut self, listing: Result<Vec<String>, (String, String)>)
        ensures
            match listing {
                Ok(lines) => final(self)@ == (AppView {
                    list_output: views(lines@),
                    result: Some(Ok(())),
                    screen: Screen::Result,
                    ..old(self)@
                }),
                Err((alternate, plain)) => final(self)@ == (AppView {
                    list_output: seq!["ERROR: "@ + alternate@],
                    result: Some(Err(plain@)),
                    screen: Screen::Result,
                    ..old(self)@
                }),
            },
    {
        match listing {
            Ok(lines) => {
                self.list_output = lines;
                self.result = Some(Ok(()));
            },
            Err((alternate, plain)) => {
                let mut out: Vec<String> = Vec::new();
                out.push(append_str("ERROR: ", alternate.as_str()));
                assert(views(out@) =~= seq!["ERROR: "@ + alternate@]);
                self.list_output = out;
                self.result = Some(Err(plain));
            },
        }
        self.screen = Screen::Result;
    }

    /// Applies an engine event; `true` when the run has ended and its worker
    /// can be joined.
    pub fn handle_event(&mut self, event: Event) -> (finished: bool)
        requires
            app_wf(old(self)@),
        ensures
            final(self)@ == handle_event_spec(old(self)@, event@),
            finished == (event@ is Finished),
            app_wf(final(self)@),
    {
        match event {
            Event::Phase(p) => {
                self.phase = p;
                false
            },
            Event::ProgressBytes { downloaded, total } => {
                self.bytes.set(downloaded, total);
                false
            },
            Event::ProgressFiles { downloaded, total } => {
                self.files.set(downloaded, total);
                false
            },
            Event::Message(m) => {
                self.log(m);
                false
            },
            Event::Error(err) => {
                self.log(append_str("ERROR: ", err.as_str()));
                false
            },
            Event::Finished(result) => {
                self.worker_running = false;
                self.result_scroll = 0;
                let line = match &result {
                    Ok(()) => "Completed successfully".to_owned(),
                    Err(err) => append_str("Failed: ", err.as_str()),
                };
                self.result = Some(result);
                self.log(line);
                self.screen = Screen::Result;
                true
            },
        }
    }
}


// ---------------------------------------------------------------------------
// Laws
// ---------------------------------------------------------------------------

/// On the menu, ↑ undoes ↓ and ↓ undoes ↑.
pub proof fn law_menu_moves_undo(o: AppView)
    requires
        app_wf(o),
        o.screen == Screen::Menu,
    ensures
        on_key_spec(on_key_spec(o, Key { code: KeyCode::Down, plain: true }).0, Key {
            code: KeyCode::Up,
            plain: true,
        }).0 == o,
        on_key_spec(on_key_spec(o, Key { code: KeyCode::Up, plain: true }).0, Key {
            code: KeyCode::Down,
            plain: true,
        }).0 == o,
{
    assert(on_key_spec(on_key_spec(o, Key { code: KeyCode::Down, plain: true }).0, Key {
        code: KeyCode::Up,
        plain: true,
    }).0 =~= o);
    assert(on_key_spec(on_key_spec(o, Key { code: KeyCode::Up, plain: true }).0, Key {
        code: KeyCode::Down,
        plain: true,
    }).0 =~= o);
}

/// On the menu, ← undoes → and → undoes ←, and two steps either way come
/// back to the same edition.
pub proof fn law_edition_switch_undo(o: AppView)
    requires
        o.screen == Screen::Menu,
    ensures
        on_key_spec(on_key_spec(o, Key { code: KeyCode::Right, plain: true }).0, Key {
            code: KeyCode::Left,
            plain: true,
        }).0 == o,
        on_key_spec(on_key_spec(o, Key { code: KeyCode::Left, plain: true }).0, Key {
            code: KeyCode::Right,
            plain: true,
        }).0 == o,
        on_key_spec(on_key_spec(o, Key { code: KeyCode::Right, plain: true }).0, Key {
            code: KeyCode::Right,
            plain: true,
        }).0 == o,
{
    assert(on_key_spec(on_key_spec(o, Key { code: KeyCode::Right, plain: true }).0, Key {
        code: KeyCode::Left,
        plain: true,
    }).0 =~= o);
    assert(on_key_spec(on_key_spec(o, Key { code: KeyCode::Left, plain: true }).0, Key {
        code: KeyCode::Right,
        plain: true,
    }).0 =~= o);
    assert(on_key_spec(on_key_spec(o, Key { code: KeyCode::Right, plain: true }).0, Key {
        code: KeyCode::Right,
        plain: true,
    }).0 =~= o);
}

/// On the parameters screen with nothing open, ↑ undoes ↓ (and Tab).
pub proof fn law_field_moves_undo(o: AppView)
    requires
        app_wf(o),
        o.screen == Screen::Params,
        o.dest_picker is None,
        o.voice_picker is None,
    ensures
        on_key_spec(on_key_spec(o, Key { code: KeyCode::Down, plain: true }).0, Key {
            code: KeyCode::Up,
            plain: true,
        }).0 == o,
        on_key_spec(on_key_spec(o, Key { code: KeyCode::Tab, plain: true }).0, Key {
            code: KeyCode::Up,
            plain: true,
        }).0 == o,
{
    assert(on_key_spec(on_key_spec(o, Key { code: KeyCode::Down, plain: true }).0, Key {
        code: KeyCode::Up,
        plain: true,
    }).0 =~= o);
    assert(on_key_spec(on_key_spec(o, Key { code: KeyCode::Tab, plain: true }).0, Key {
        code: KeyCode::Up,
        plain: true,
    }).0 =~= o);
}

/// In the voice picker, ↑ undoes ↓ and leaves the voices as they were.
pub proof fn law_picker_moves_undo(o: AppView)
    requires
        app_wf(o),
        o.screen == Screen::Params,
        o.dest_picker is None,
        o.voice_picker is Some,
    ensures
        on_key_spec(on_key_spec(o, Key { code: KeyCode::Down, plain: true }).0, Key {
            code: KeyCode::Up,
            plain: true,
        }).0 == o,
{
    assert(on_key_spec(on_key_spec(o, Key { code: KeyCode::Down, plain: true }).0, Key {
        code: KeyCode::Up,
        plain: true,
    }).0 =~= o);
}

/// On the result screen, ↑ undoes ↓, and ↑ at the top stays at the top.
pub proof fn law_scroll_undo(o: AppView)
    requires
        o.screen == Screen::Result,
        o.result_scroll < usize::MAX,
    ensures
        on_key_spec(on_key_spec(o, Key { code: KeyCode::Down, plain: true }).0, Key {
            code: KeyCode::Up,
            plain: true,
        }).0 == o,
        o.result_scroll == 0 ==> on_key_spec(o, Key { code: KeyCode::Up, plain: true }).0 == o,
{
    assert(on_key_spec(on_key_spec(o, Key { code: KeyCode::Down, plain: true }).0, Key {
        code: KeyCode::Up,
        plain: true,
    }).0 =~= o);
    if o.result_scroll == 0 {
        assert(on_key_spec(o, Key { code: KeyCode::Up, plain: true }).0 =~= o);
    }
}

/// Every character of `s` is an ASCII digit.
pub open spec fn all_ascii_digits(s: Seq<char>) -> bool {
    forall|i: int| 0 <= i < s.len() ==> is_ascii_digit(#[trigger] s[i])
}

/// On the parameters screen with nothing open, Enter on any row but the
/// start button starts no work and stays on the screen: on the directory it
/// asks to open the explorer, on the voices it opens the picker on the
/// field's value, on the threads it changes nothing.
pub proof fn law_enter_on_fields_starts_no_work(o: AppView)
    requires
        app_wf(o),
        o.screen == Screen::Params,
        o.dest_picker is None,
        o.voice_picker is None,
        o.field_focus != 3,
    ensures
        ({
            let (n, effect) = on_key_spec(o, Key { code: KeyCode::Enter, plain: true });
            &&& !(effect is StartWorker)
            &&& n.screen == Screen::Params
            &&& n.worker_running == o.worker_running
            &&& o.field_focus == 0 ==> n == o && effect == EffectView::OpenDestPicker
            &&& o.field_focus == 1 ==> n == o && effect == EffectView::Nothing
            &&& o.field_focus == 2 ==> n == (AppView {
                voice_picker: Some((selection_of(parse_arg_spec(Some(o.voice))), 0)),
                ..o
            }) && effect == EffectView::Nothing
        }),
{
}

/// While the explorer shows its listing (no search under way), space, `n`,
/// `N` and `r` without modifiers change nothing and are not handed to the
/// explorer, so no file is marked, created or renamed.
pub proof fn law_explorer_ignores_file_operations(o: AppView, c: char)
    requires
        o.screen == Screen::Params,
        o.dest_picker matches Some(p) && !p.0,
        c == ' ' || c == 'n' || c == 'N' || c == 'r',
    ensures
        on_key_spec(o, Key { code: KeyCode::Char(c), plain: true }) == (o, EffectView::Nothing),
{
}

/// Enter on the start button runs the engine on the chosen action: a
/// download for "Download game", an update for "Update game", a pre-download
/// for "Pre-download update" and a repair for "Repair / check files", with
/// the edition, the trimmed directory and the parsed voices of the screen,
/// and no temporary folder of its own; the progress screen is shown.
pub proof fn law_start_runs_the_chosen_action(o: AppView)
    requires
        app_wf(o),
        o.screen == Screen::Params,
        o.dest_picker is None,
        o.voice_picker is None,
        o.field_focus == 3,
    ensures
        ({
            let (n, effect) = on_key_spec(o, Key { code: KeyCode::Enter, plain: true });
            &&& n.screen == Screen::Progress
            &&& n.worker_running
            &&& effect matches EffectView::StartWorker(r) && {
                &&& o.action == Action::Download ==> r.kind == WorkKind::Download
                &&& o.action == Action::Update ==> r.kind == WorkKind::Update
                &&& o.action == Action::Predownload ==> r.kind == WorkKind::Predownload
                &&& o.action == Action::Repair ==> r.kind == WorkKind::Repair
                &&& r.edition == o.edition
                &&& r.dest == trimmed(o.dest)
                &&& r.voices == parse_arg_spec(Some(trimmed(o.voice)))
                &&& r.temp is None
                &&& !r.no_free_space_check
            }
        }),
{
}

/// The threads field holds digits only, whatever keys are pressed.
pub proof fn law_threads_field_holds_digits(o: AppView, k: Key)
    requires
        all_ascii_digits(o.threads),
    ensures
        all_ascii_digits(on_key_spec(o, k).0.threads),
{
    let n = on_key_spec(o, k).0;
    if o.screen == Screen::Params && o.dest_picker is None && o.voice_picker is None {
        match k.code {
            KeyCode::Backspace => {
                if o.field_focus == 1 && o.threads.len() > 0 {
                    assert forall|i: int| 0 <= i < n.threads.len() implies is_ascii_digit(
                        #[trigger] n.threads[i],
                    ) by {
                        assert(n.threads[i] == o.threads[i]);
                    }
                }
            },
            KeyCode::Char(c) => {
                if o.field_focus == 1 && is_ascii_digit(c) {
                    assert forall|i: int| 0 <= i < n.threads.len() implies is_ascii_digit(
                        #[trigger] n.threads[i],
                    ) by {
                        if i < o.threads.len() {
                            assert(n.threads[i] == o.threads[i]);
                        }
                    }
                }
            },
            _ => {},
        }
    }
}

/// A worker started from the parameters screen always asks for at least
/// one thread.
pub proof fn law_worker_threads_positive(o: AppView)
    ensures
        start_worker_spec(o).1 matches EffectView::StartWorker(r) && r.threads > 0,
{
}

/// The end of a run always shows the result screen, with the run's result,
/// and leaves no worker awaited.
pub proof fn law_finished_shows_result(o: AppView, r: Result<(), Seq<char>>)
    ensures
        handle_event_spec(o, EventView::Finished(r)).screen == Screen::Result,
        handle_event_spec(o, EventView::Finished(r)).result == Some(r),
        !handle_event_spec(o, EventView::Finished(r)).worker_running,
{
}

/// The log keeps the newest lines, never more than its limit.
pub proof fn law_log_bounded(logs: Seq<Seq<char>>, line: Seq<char>)
    requires
        logs.len() <= LOG_LIMIT,
    ensures
        logged(logs, line).len() <= LOG_LIMIT,
        logged(logs, line).last() == line,
        logs.len() < LOG_LIMIT ==> logged(logs, line) == logs.push(line),
{
}

} // verus!
