//! What the screens show, as far as it is decided by the state and not by
//! the terminal: icons, labels, hints, and the reading of a log line.
use vstd::prelude::*;

use crate::text::{
    chars_of, append_str, contains, decimal, decimal_string, has_sub, joined, push_decimal, push_str,
    starts_with, str_eq,
};
use crate::tui::app::{
    action_at, action_label, action_label_spec, action_of, Action, Screen, ACTION_COUNT,
};
use crate::tui::voice_picker::{
    checked_codes, checked_count, option_code, option_label, voice_option, VoicePicker,
    VOICE_OPTION_COUNT,
};

verus! {

/// The icon of an engine phase, by the words it contains.
pub open spec fn phase_icon_spec(p: Seq<char>) -> Seq<char> {
    if has_sub(p, "Checking free space"@) {
        "🔍"@
    } else if has_sub(p, "Checking files"@) {
        "🔎"@
    } else if has_sub(p, "Pre-downloading"@) || has_sub(p, "Downloading"@) {
        "⬇"@
    } else if has_sub(p, "Patching"@) || has_sub(p, "Repairing"@) {
        "🛠"@
    } else if has_sub(p, "Deleting"@) {
        "🗑"@
    } else if has_sub(p, "Fetching"@) {
        "🌐"@
    } else if has_sub(p, "finished"@) || has_sub(p, "Already up to date"@) {
        "✅"@
    } else {
        "⚙"@
    }
}

/// The icon of an engine phase.
pub fn phase_icon(phase: &str) -> (icon: &'static str)
    ensures
        icon@ == phase_icon_spec(phase@),
{
    if contains(phase, "Checking free space") {
        "🔍"
    } else if contains(phase, "Checking files") {
        "🔎"
    } else if contains(phase, "Pre-downloading") || contains(phase, "Downloading") {
        "⬇"
    } else if contains(phase, "Patching") || contains(phase, "Repairing") {
        "🛠"
    } else if contains(phase, "Deleting") {
        "🗑"
    } else if contains(phase, "Fetching") {
        "🌐"
    } else if contains(phase, "finished") || contains(phase, "Already up to date") {
        "✅"
    } else {
        "⚙"
    }
}

pub open spec fn action_icon_spec(a: Action) -> Seq<char> {
    match a {
        Action::Download => "⬇"@,
        Action::Update => "🔄"@,
        Action::Predownload => "📥"@,
        Action::Repair => "🛠"@,
        Action::List => "📋"@,
        Action::Quit => "🚪"@,
    }
}

/// The icon of a menu action.
pub fn action_icon(action: Action) -> (icon: &'static str)
    ensures
        icon@ == action_icon_spec(action),
{
    match action {
        Action::Download => "⬇",
        Action::Update => "🔄",
        Action::Predownload => "📥",
        Action::Repair => "🛠",
        Action::List => "📋",
        Action::Quit => "🚪",
    }
}

/// What the voice field shows for its value.
pub open spec fn voice_display_spec(voice: Seq<char>) -> Seq<char> {
    if voice.len() == 0 {
        "None (action default)"@
    } else if voice == "none"@ {
        "None"@
    } else {
        voice
    }
}

/// What the voice field of the parameters screen shows.
pub fn voice_display(voice: &str) -> (text: String)
    ensures
        text@ == voice_display_spec(voice@),
{
    if voice.unicode_len() == 0 {
        "None (action default)".to_owned()
    } else if str_eq(voice, "none") {
        "None".to_owned()
    } else {
        voice.to_owned()
    }
}

/// The key hints of the footer; the progress screen has none (it shows
/// that work is going on and that `q` quits).
pub open spec fn footer_hints_spec(screen: Screen, explorer_open: bool, picker_open: bool) -> Option<
    Seq<(Seq<char>, Seq<char>)>,
> {
    match screen {
        Screen::Menu => Some(
            seq![("←/→"@, "edition"@), ("↑/↓"@, "select"@), ("Enter"@, "confirm"@), ("q"@, "quit"@)],
        ),
        Screen::Params => if explorer_open {
            Some(
                seq![
                    ("Esc"@, "close"@),
                    ("↑/↓"@, "move"@),
                    ("Enter"@, "open"@),
                    ("Backspace"@, "parent"@),
                    ("c"@, "choose current destination"@),
                ],
            )
        } else if picker_open {
            Some(
                seq![
                    ("↑/↓"@, "move"@),
                    ("Space"@, "toggle"@),
                    ("Enter"@, "next"@),
                    ("Esc"@, "back"@),
                ],
            )
        } else {
            Some(seq![("↑/↓"@, "field"@), ("Enter"@, "open options"@), ("Esc"@, "back"@)])
        },
        Screen::Progress => None,
        Screen::Result => Some(seq![("↑/↓"@, "scroll"@), ("Enter/Esc"@, "back to menu"@)]),
    }
}

pub open spec fn hint_views(h: Seq<(&str, &str)>) -> Seq<(Seq<char>, Seq<char>)> {
    h.map_values(|p: (&str, &str)| (p.0@, p.1@))
}

fn hints(pairs: &[(&'static str, &'static str)]) -> (out: Vec<(&'static str, &'static str)>)
    ensures
        hint_views(out@) == hint_views(pairs@),
{
    let mut out: Vec<(&'static str, &'static str)> = Vec::new();
    let mut i: usize = 0;
    while i < pairs.len()
        invariant
            i <= pairs@.len(),
            out@ == pairs@.take(i as int),
        decreases pairs@.len() - i,
    {
        out.push(pairs[i]);
        i = i + 1;
        assert(out@ =~= pairs@.take(i as int));
    }
    assert(out@ =~= pairs@);
    out
}

/// The key hints of the footer of a screen.
pub fn footer_hints(screen: Screen, explorer_open: bool, picker_open: bool) -> (out: Option<
    Vec<(&'static str, &'static str)>,
>)
    ensures
        match out {
            Some(h) => footer_hints_spec(screen, explorer_open, picker_open) == Some(hint_views(h@)),
            None => footer_hints_spec(screen, explorer_open, picker_open) is None,
        },
{
    match screen {
        Screen::Menu => {
            let a = [("←/→", "edition"), ("↑/↓", "select"), ("Enter", "confirm"), ("q", "quit")];
            let h = hints(a.as_slice());
            assert(hint_views(h@) =~= footer_hints_spec(screen, explorer_open, picker_open)->0);
            Some(h)
        },
        Screen::Params => {
            if explorer_open {
                let a = [
                    ("Esc", "close"),
                    ("↑/↓", "move"),
                    ("Enter", "open"),
                    ("Backspace", "parent"),
                    ("c", "choose current destination"),
                ];
                let h = hints(a.as_slice());
                assert(hint_views(h@) =~= footer_hints_spec(screen, explorer_open, picker_open)->0);
                Some(h)
            } else if picker_open {
                let a = [("↑/↓", "move"), ("Space", "toggle"), ("Enter", "next"), ("Esc", "back")];
                let h = hints(a.as_slice());
                assert(hint_views(h@) =~= footer_hints_spec(screen, explorer_open, picker_open)->0);
                Some(h)
            } else {
                let a = [("↑/↓", "field"), ("Enter", "open options"), ("Esc", "back")];
                let h = hints(a.as_slice());
                assert(hint_views(h@) =~= footer_hints_spec(screen, explorer_open, picker_open)->0);
                Some(h)
            }
        },
        Screen::Progress => None,
        Screen::Result => {
            let a = [("↑/↓", "scroll"), ("Enter/Esc", "back to menu")];
            let h = hints(a.as_slice());
            assert(hint_views(h@) =~= footer_hints_spec(screen, explorer_open, picker_open)->0);
            Some(h)
        },
    }
}

/// The narrowest width of one progress gauge.
pub const MIN_GAUGE_WIDTH: u16 = 36;

/// Whether the two gauges of the progress screen fit side by side.
pub fn gauges_side_by_side(width: u16) -> (side: bool)
    ensures
        side == (width >= 2 * MIN_GAUGE_WIDTH),
{
    width >= MIN_GAUGE_WIDTH * 2
}

/// The label of the files gauge.
pub fn files_label(done: u64, total: u64) -> (text: String)
    ensures
        text@ == decimal(done as nat) + " / "@ + decimal(total as nat) + " files"@,
{
    let mut text = decimal_string(done);
    push_str(&mut text, " / ");
    push_decimal(&mut text, total);
    push_str(&mut text, " files");
    text
}

/// The summary of a voice selection: `None`, `All voices`, or the checked
/// voice packs joined with `, ` (`None` when there are none).
pub open spec fn picker_summary_spec(sel: Seq<bool>) -> Seq<char> {
    if sel[0] {
        "None"@
    } else if sel[1] {
        "All voices"@
    } else if checked_codes(sel, 6).len() == 0 {
        "None"@
    } else {
        joined(checked_codes(sel, 6), ", "@)
    }
}

/// The summary line above the options of the voice picker.
pub fn picker_summary(picker: &VoicePicker) -> (text: String)
    ensures
        text@ == picker_summary_spec(picker.selected@),
{
    if picker.selected[0] {
        return "None".to_owned();
    }
    if picker.selected[1] {
        return "All voices".to_owned();
    }
    let mut text = String::new();
    let mut any = false;
    let mut idx: usize = 2;
    while idx < 6
        invariant
            2 <= idx <= 6,
            picker.selected@.len() == 6,
            any == (checked_codes(picker.selected@, idx as int).len() > 0),
            text@ == joined(checked_codes(picker.selected@, idx as int), ", "@),
        decreases 6 - idx,
    {
        if picker.selected[idx] {
            let (code, _) = crate::tui::voice_picker::voice_option(idx);
            let ghost before = checked_codes(picker.selected@, idx as int);
            if any {
                push_str(&mut text, ", ");
            }
            push_str(&mut text, code);
            any = true;
            proof {
                let after = before.push(option_code(idx as int));
                assert(after.drop_last() =~= before);
                if before.len() == 0 {
                    assert(joined(after, ", "@) == after[0]);
                }
            }
        }
        idx = idx + 1;
    }
    if !any {
        return "None".to_owned();
    }
    text
}

/// The title of the picker's option list: the cursor's position and, when
/// any option is checked, how many are.
pub open spec fn picker_list_title_spec(cursor: usize, count: nat) -> Seq<char> {
    let pos = decimal((cursor + 1) as nat) + "/6"@;
    if count > 0 {
        " Voices "@ + pos + "  ◆ "@ + decimal(count) + " selected "@
    } else {
        " Voices "@ + pos + " "@
    }
}

/// The title of the voice picker's option list.
pub fn picker_list_title(picker: &VoicePicker) -> (text: String)
    requires
        picker.cursor < 6,
    ensures
        text@ == picker_list_title_spec(picker.cursor, checked_count(picker.selected@, 6)),
{
    let count = picker.selected_count();
    let mut text = " Voices ".to_owned();
    push_decimal(&mut text, (picker.cursor + 1) as u64);
    push_str(&mut text, "/6");
    if count > 0 {
        push_str(&mut text, "  ◆ ");
        push_decimal(&mut text, count as u64);
        push_str(&mut text, " selected ");
    } else {
        push_str(&mut text, " ");
    }
    text
}

/// The count shown under the picker's summary: `{n}/6 selected`.
pub fn picker_count_title(picker: &VoicePicker) -> (text: String)
    ensures
        text@ == " "@ + decimal(checked_count(picker.selected@, 6)) + "/6 selected "@,
{
    let count = picker.selected_count();
    let mut text = " ".to_owned();
    push_decimal(&mut text, count as u64);
    push_str(&mut text, "/6 selected ");
    text
}

/// The line of menu entry `i`: a `>` marks the selected entry, then the
/// action's icon and label.
pub fn menu_line(i: usize, selected: usize) -> (text: String)
    requires
        i < ACTION_COUNT,
    ensures
        text@ == (if i == selected {
            "> "@
        } else {
            "  "@
        }) + action_icon_spec(action_of(i as int)) + " "@ + action_label_spec(action_of(i as int)),
{
    let a = action_at(i);
    let mut text = if i == selected {
        "> ".to_owned()
    } else {
        "  ".to_owned()
    };
    push_str(&mut text, action_icon(a));
    push_str(&mut text, " ");
    push_str(&mut text, action_label(a));
    text
}

/// The heading of the parameters screen: the chosen action's icon and label.
pub fn action_line(a: Action) -> (text: String)
    ensures
        text@ == action_icon_spec(a) + " "@ + action_label_spec(a),
{
    let mut text = append_str(action_icon(a), " ");
    push_str(&mut text, action_label(a));
    text
}

/// The three editable fields of the parameters screen, each as its label
/// line and its value line: the game directory, the threads and the voices.
pub fn param_rows(dest: &str, threads: &str, voice: &str) -> (rows: Vec<(String, String)>)
    ensures
        rows@.len() == 3,
        rows@[0].0@ == " 📂 Game directory:"@,
        rows@[0].1@ == "    "@ + dest@,
        rows@[1].0@ == " ⚙️ Threads:"@,
        rows@[1].1@ == "    "@ + threads@,
        rows@[2].0@ == " Voices:"@,
        rows@[2].1@ == "    "@ + voice_display_spec(voice@),
{
    let mut rows: Vec<(String, String)> = Vec::new();
    rows.push((" 📂 Game directory:".to_owned(), append_str("    ", dest)));
    rows.push((" ⚙️ Threads:".to_owned(), append_str("    ", threads)));
    let shown = voice_display(voice);
    rows.push((" Voices:".to_owned(), append_str("    ", shown.as_str())));
    rows
}

/// The texts of option `i` in the voice picker's list: its label between
/// spaces, and its code in brackets.
pub fn picker_option_texts(i: usize) -> (texts: (String, String))
    requires
        i < VOICE_OPTION_COUNT,
    ensures
        texts.0@ == " "@ + option_label(i as int) + " "@,
        texts.1@ == "("@ + option_code(i as int) + ")"@,
{
    let (code, label) = voice_option(i);
    let mut shown = append_str(" ", label);
    push_str(&mut shown, " ");
    let mut bracketed = append_str("(", code);
    push_str(&mut bracketed, ")");
    (shown, bracketed)
}

/// How the result screen colours its message.
#[derive(Clone, Copy, Debug, PartialEq, Eq, Structural)]
pub enum ResultTone {
    Success,
    Failure,
    Neutral,
}

/// The message of the result screen when there is no listing to show.
pub fn result_line(result: &Option<Result<(), String>>) -> (line: (String, ResultTone))
    ensures
        match result {
            Some(Ok(())) => line.0@ == "Completed successfully"@ && line.1 == ResultTone::Success,
            Some(Err(e)) => line.0@ == "Failed: "@ + e@ && line.1 == ResultTone::Failure,
            None => line.0@ == "Nothing to show"@ && line.1 == ResultTone::Neutral,
        },
{
    match result {
        Some(Ok(())) => ("Completed successfully".to_owned(), ResultTone::Success),
        Some(Err(e)) => (append_str("Failed: ", e.as_str()), ResultTone::Failure),
        None => ("Nothing to show".to_owned(), ResultTone::Neutral),
    }
}

// ---------------------------------------------------------------------------
// Log lines
// ---------------------------------------------------------------------------

/// The first position at or after `from` where `pat` occurs in `s`.
pub open spec fn find_from(s: Seq<char>, pat: Seq<char>, from: int) -> Option<int>
    decreases s.len() + 1 - from,
{
    if from < 0 || from + pat.len() > s.len() {
        None
    } else if s.subrange(from, from + pat.len()) == pat {
        Some(from)
    } else {
        find_from(s, pat, from + 1)
    }
}

/// The log levels that a log line may begin with.
pub open spec fn is_level(l: Seq<char>) -> bool {
    l == "TRACE"@ || l == "DEBUG"@ || l == "INFO"@ || l == "WARN"@ || l == "ERROR"@
}

/// How the log panel reads a line.
pub enum LogLine {
    /// A line the engine marked as an error: `ERROR: ` and the message.
    Error { message: String },
    /// A line shown as it is.
    Plain,
    /// A level, then text without a target.
    Leveled { level: String, rest: String },
    /// A level, a target and a message (`LEVEL target: message`).
    Targeted { level: String, target: String, message: String },
}

pub enum LogLineView {
    Error { message: Seq<char> },
    Plain,
    Leveled { level: Seq<char>, rest: Seq<char> },
    Targeted { level: Seq<char>, target: Seq<char>, message: Seq<char> },
}

impl View for LogLine {
    type V = LogLineView;

    open spec fn view(&self) -> LogLineView {
        match self {
            LogLine::Error { message } => LogLineView::Error { message: message@ },
            LogLine::Plain => LogLineView::Plain,
            LogLine::Leveled { level, rest } => LogLineView::Leveled { level: level@, rest: rest@ },
            LogLine::Targeted { level, target, message } => LogLineView::Targeted {
                level: level@,
                target: target@,
                message: message@,
            },
        }
    }
}

/// The reading of a log line: `ERROR: ` marks an engine error; else the
/// text up to the first space must be a level; the rest up to the first
/// `: ` is the target, if there is one.
pub open spec fn classify_spec(s: Seq<char>) -> LogLineView {
    if s.len() >= 7 && s.subrange(0, 7) == "ERROR: "@ {
        LogLineView::Error { message: s.subrange(7, s.len() as int) }
    } else {
        match find_from(s, " "@, 0) {
            None => LogLineView::Plain,
            Some(i) => {
                let level = s.subrange(0, i);
                let rest = s.subrange(i + 1, s.len() as int);
                if !is_level(level) {
                    LogLineView::Plain
                } else {
                    match find_from(rest, ": "@, 0) {
                        None => LogLineView::Leveled { level, rest },
                        Some(j) => LogLineView::Targeted {
                            level,
                            target: rest.subrange(0, j),
                            message: rest.subrange(j + 2, rest.len() as int),
                        },
                    }
                }
            },
        }
    }
}

fn find_in(cs: &Vec<char>, from: usize, pat: &Vec<char>) -> (at: Option<usize>)
    requires
        from <= cs@.len(),
    ensures
        match at {
            Some(i) => find_from(cs@.subrange(from as int, cs@.len() as int), pat@, 0) == Some(
                i - from,
            ) && from <= i && i + pat@.len() <= cs@.len(),
            None => find_from(cs@.subrange(from as int, cs@.len() as int), pat@, 0) is None,
        },
{
    let ghost s = cs@.subrange(from as int, cs@.len() as int);
    let n = cs.len();
    let m = pat.len();
    if m > n - from {
        return None;
    }
    let mut i: usize = from;
    while m <= n - i
        invariant
            s == cs@.subrange(from as int, cs@.len() as int),
            n == cs@.len(),
            m == pat@.len(),
            from <= i,
            i <= n,
            find_from(s, pat@, 0) == find_from(s, pat@, i - from),
        decreases n - i,
    {
        let mut k: usize = 0;
        let mut ok = true;
        while k < m
            invariant
                n == cs@.len(),
                m == pat@.len(),
                i + m <= n,
                k <= m,
                ok == (forall|j: int| 0 <= j < k ==> cs@[i + j] == pat@[j]),
            decreases m - k,
        {
            if cs[i + k] != pat[k] {
                ok = false;
            }
            k = k + 1;
        }
        proof {
            assert(s.subrange(i - from, i - from + m) =~= cs@.subrange(i as int, i + m));
            if ok {
                assert(cs@.subrange(i as int, i + m) =~= pat@);
            } else {
                let j = choose|j: int| 0 <= j < m && cs@[i + j] != pat@[j];
                assert(cs@.subrange(i as int, i + m)[j] != pat@[j]);
            }
        }
        if ok {
            return Some(i);
        }
        i = i + 1;
    }
    None
}

fn string_range(cs: &Vec<char>, from: usize, to: usize) -> (out: String)
    requires
        from <= to <= cs@.len(),
    ensures
        out@ == cs@.subrange(from as int, to as int),
{
    let mut out = String::new();
    crate::text::push_range(&mut out, cs.as_slice(), from, to);
    assert(out@ =~= cs@.subrange(from as int, to as int));
    out
}

/// Reads a log line for the log panel.
pub fn classify_log_line(line: &str) -> (out: LogLine)
    ensures
        out@ == classify_spec(line@),
{
    let cs = chars_of(line);
    let n = cs.len();
    if starts_with(&cs, "ERROR: ") {
        proof {
            reveal_strlit("ERROR: ");
        }
        return LogLine::Error { message: string_range(&cs, 7, n) };
    }
    proof {
        reveal_strlit("ERROR: ");
        assert(cs@.subrange(0, n as int) =~= cs@);
    }
    let space = chars_of(" ");
    let i = match find_in(&cs, 0, &space) {
        Some(i) => i,
        None => {
            return LogLine::Plain;
        },
    };
    proof {
        reveal_strlit(" ");
    }
    let level = string_range(&cs, 0, i);
    if !(str_eq(level.as_str(), "TRACE") || str_eq(level.as_str(), "DEBUG") || str_eq(
        level.as_str(),
        "INFO",
    ) || str_eq(level.as_str(), "WARN") || str_eq(level.as_str(), "ERROR")) {
        return LogLine::Plain;
    }
    let sep = chars_of(": ");
    proof {
        reveal_strlit(": ");
    }
    let ghost rest = cs@.subrange(i + 1, n as int);
    match find_in(&cs, i + 1, &sep) {
        None => LogLine::Leveled { level, rest: string_range(&cs, i + 1, n) },
        Some(j) => {
            assert(rest.subrange(0, j - (i + 1)) =~= cs@.subrange(i + 1, j as int));
            assert(rest.subrange(j - (i + 1) + 2, rest.len() as int) =~= cs@.subrange(
                j + 2,
                n as int,
            ));
            LogLine::Targeted {
                level,
                target: string_range(&cs, i + 1, j),
                message: string_range(&cs, j + 2, n),
            }
        },
    }
}

/// The colour of a log level in the log panel.
#[derive(Clone, Copy, PartialEq, Eq, Debug, Structural)]
pub enum LevelColor {
    Magenta,
    Blue,
    Green,
    Yellow,
    Red,
}

pub open spec fn level_color_spec(level: Seq<char>) -> Option<LevelColor> {
    if level == "TRACE"@ {
        Some(LevelColor::Magenta)
    } else if level == "DEBUG"@ {
        Some(LevelColor::Blue)
    } else if level == "INFO"@ {
        Some(LevelColor::Green)
    } else if level == "WARN"@ {
        Some(LevelColor::Yellow)
    } else if level == "ERROR"@ {
        Some(LevelColor::Red)
    } else {
        None
    }
}

/// The colour of a log level; other text keeps the default style.
pub fn level_color(level: &str) -> (color: Option<LevelColor>)
    ensures
        color == level_color_spec(level@),
{
    if str_eq(level, "TRACE") {
        Some(LevelColor::Magenta)
    } else if str_eq(level, "DEBUG") {
        Some(LevelColor::Blue)
    } else if str_eq(level, "INFO") {
        Some(LevelColor::Green)
    } else if str_eq(level, "WARN") {
        Some(LevelColor::Yellow)
    } else if str_eq(level, "ERROR") {
        Some(LevelColor::Red)
    } else {
        None
    }
}


// ---------------------------------------------------------------------------
// Laws
// ---------------------------------------------------------------------------

proof fn lemma_find_first(s: Seq<char>, pat: Seq<char>, from: int, i: int)
    requires
        0 <= from <= i,
        i + pat.len() <= s.len(),
        s.subrange(i, i + pat.len()) == pat,
        forall|j: int| from <= j < i ==> #[trigger] s.subrange(j, j + pat.len()) != pat,
    ensures
        find_from(s, pat, from) == Some(i),
    decreases i - from,
{
    if from < i {
        lemma_find_first(s, pat, from + 1, i);
    }
}

/// The log panel reads the lines the logging layer writes back into their
/// level, target and message, whatever the message holds.
pub proof fn law_log_lines_read_back(level: Seq<char>, target: Seq<char>, message: Seq<char>)
    requires
        is_level(level),
        !has_sub(target, ": "@),
    ensures
        classify_spec(level + " "@ + target + ": "@ + message) == (LogLineView::Targeted {
            level,
            target,
            message,
        }),
{
    reveal_strlit("TRACE");
    reveal_strlit("DEBUG");
    reveal_strlit("INFO");
    reveal_strlit("WARN");
    reveal_strlit("ERROR");
    reveal_strlit("ERROR: ");
    reveal_strlit(" ");
    reveal_strlit(": ");
    let s = level + " "@ + target + ": "@ + message;
    let l = level.len() as int;
    assert(s[l] == ' ');
    assert(!(s.len() >= 7 && s.subrange(0, 7) == "ERROR: "@)) by {
        if s.len() >= 7 && s.subrange(0, 7) == "ERROR: "@ {
            assert(s.subrange(0, 7)[5] == ':');
            assert(s[5] == ':');
            if level == "ERROR"@ {
                assert(s[5] == ' ');
            } else {
                assert(s.subrange(0, 7)[0] == 'E');
                assert(s[0] == level[0]);
                assert(level[0] != 'E');
            }
        }
    }
    assert forall|j: int| 0 <= j < l implies #[trigger] s.subrange(j, j + 1) != " "@ by {
        assert(s.subrange(j, j + 1)[0] == s[j]);
        assert(s[j] == level[j]);
    }
    assert(s.subrange(l, l + 1) =~= " "@);
    lemma_find_first(s, " "@, 0, l);
    assert(s.subrange(0, l) =~= level);
    let rest = s.subrange(l + 1, s.len() as int);
    assert(rest =~= target + ": "@ + message);
    let t = target.len() as int;
    assert forall|j: int| 0 <= j < t implies #[trigger] rest.subrange(j, j + 2) != ": "@ by {
        if rest.subrange(j, j + 2) == ": "@ {
            assert(rest.subrange(j, j + 2)[0] == ':');
            assert(rest.subrange(j, j + 2)[1] == ' ');
            if j + 1 < t {
                assert(target.subrange(j, j + 2) =~= rest.subrange(j, j + 2));
                assert(0 <= j <= target.len() - (": "@).len());
            } else {
                assert(rest[j + 1] == ':');
            }
        }
    }
    assert(rest.subrange(t, t + 2) =~= ": "@);
    lemma_find_first(rest, ": "@, 0, t);
    assert(rest.subrange(0, t) =~= target);
    assert(rest.subrange(t + 2, rest.len() as int) =~= message);
}

} // verus!
