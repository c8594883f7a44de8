//! What a command asks for: the listing of one edition, or one run of the
//! download engine with its parameters.
use vstd::prelude::*;

use crate::cli::Command;
use crate::download::Event;
use crate::edition::{edition_name, Edition};
use crate::text::{
    append_str, pad_left, pad_right, padded_left, padded_right, parse_unsigned,
    parse_unsigned_spec, push_str,
};

verus! {

/// The four operations of the download engine.
#[derive(Clone, Copy, Debug, PartialEq, Eq, Structural)]
pub enum WorkKind {
    Download,
    Update,
    Predownload,
    Repair,
}

/// One run of the download engine.
pub struct WorkRequest {
    pub kind: WorkKind,
    pub edition: Edition,
    /// Game installation directory
    pub dest: String,
    /// Number of download threads
    pub threads: usize,
    /// Temporary download folder (the system's when absent)
    pub temp: Option<String>,
    /// Requested voiceover codes
    pub voices: Vec<String>,
    pub no_free_space_check: bool,
}

/// What a command asks of the program.
pub enum Job {
    /// Print the version and download manifest listing of an edition.
    List(Edition),
    /// Run the download engine.
    Work(WorkRequest),
}

/// The job a command line command stands for (every command but the
/// interactive interface, which the program starts itself).
pub fn run(command: Command, edition: Edition) -> (job: Job)
    requires
        !(command is Tui),
    ensures
        match command {
            Command::List => job == Job::List(edition),
            Command::Download { dest, threads, temp, voice, no_free_space_check } => job
                == Job::Work(
                WorkRequest {
                    kind: WorkKind::Download,
                    edition,
                    dest,
                    threads,
                    temp,
                    voices: voice,
                    no_free_space_check,
                },
            ),
            Command::Update { dest, threads, temp, voice, no_free_space_check } => job == Job::Work(
                WorkRequest {
                    kind: WorkKind::Update,
                    edition,
                    dest,
                    threads,
                    temp,
                    voices: voice,
                    no_free_space_check,
                },
            ),
            Command::Predownload { dest, threads, temp, voice, no_free_space_check } => job
                == Job::Work(
                WorkRequest {
                    kind: WorkKind::Predownload,
                    edition,
                    dest,
                    threads,
                    temp,
                    voices: voice,
                    no_free_space_check,
                },
            ),
            Command::Repair { dest, threads, temp, voice, no_free_space_check } => job == Job::Work(
                WorkRequest {
                    kind: WorkKind::Repair,
                    edition,
                    dest,
                    threads,
                    temp,
                    voices: voice,
                    no_free_space_check,
                },
            ),
            Command::Tui => false,
        },
{
    match command {
        Command::List => Job::List(edition),
        Command::Download { dest, threads, temp, voice, no_free_space_check } => Job::Work(
            WorkRequest {
                kind: WorkKind::Download,
                edition,
                dest,
                threads,
                temp,
                voices: voice,
                no_free_space_check,
            },
        ),
        Command::Update { dest, threads, temp, voice, no_free_space_check } => Job::Work(
            WorkRequest {
                kind: WorkKind::Update,
                edition,
                dest,
                threads,
                temp,
                voices: voice,
                no_free_space_check,
            },
        ),
        Command::Predownload { dest, threads, temp, voice, no_free_space_check } => Job::Work(
            WorkRequest {
                kind: WorkKind::Predownload,
                edition,
                dest,
                threads,
                temp,
                voices: voice,
                no_free_space_check,
            },
        ),
        Command::Repair { dest, threads, temp, voice, no_free_space_check } => Job::Work(
            WorkRequest {
                kind: WorkKind::Repair,
                edition,
                dest,
                threads,
                temp,
                voices: voice,
                no_free_space_check,
            },
        ),
        Command::Tui => unreached(),
    }
}


// ---------------------------------------------------------------------------
// The version listing
// ---------------------------------------------------------------------------

/// The first line of the listing of an edition.
pub fn edition_heading(edition: Edition) -> (line: String)
    ensures
        line@ == "== Edition: "@ + edition_name(edition) + " =="@,
{
    let mut line = append_str("== Edition: ", edition.as_str());
    push_str(&mut line, " ==");
    line
}

/// A version text, or `-` when there is none.
pub open spec fn or_dash(v: Option<Seq<char>>) -> Seq<char> {
    match v {
        Some(t) => t,
        None => "-"@,
    }
}

pub open spec fn opt_str_view(o: Option<&str>) -> Option<Seq<char>> {
    match o {
        Some(s) => Some(s@),
        None => None,
    }
}

/// The line of one game branch: its main and pre-download versions, each in
/// a column of 12 characters, then its game id and business name.
pub fn branch_line(main: Option<&str>, pre_download: Option<&str>, id: &str, biz: &str) -> (line:
    String)
    ensures
        line@ == "  version "@ + padded_right(or_dash(opt_str_view(main)), 12) + " pre-download "@
            + padded_right(or_dash(opt_str_view(pre_download)), 12) + " id="@ + id@ + " biz="@
            + biz@,
{
    let m = match main {
        Some(t) => t,
        None => "-",
    };
    let p = match pre_download {
        Some(t) => t,
        None => "-",
    };
    let mut line = "  version ".to_owned();
    push_str(&mut line, pad_right(m, 12).as_str());
    push_str(&mut line, " pre-download ");
    push_str(&mut line, pad_right(p, 12).as_str());
    push_str(&mut line, " id=");
    push_str(&mut line, id);
    push_str(&mut line, " biz=");
    push_str(&mut line, biz);
    line
}

/// The heading of the manifests of the latest version.
pub fn manifests_heading(tag: &str) -> (line: String)
    ensures
        line@ == "Download manifests for version "@ + tag@ + ":"@,
{
    let mut line = append_str("Download manifests for version ", tag);
    push_str(&mut line, ":");
    line
}

/// A size given as text, as a number of bytes; 0 when it is not one.
pub fn size_of_text(s: &str) -> (bytes: u64)
    ensures
        bytes == match parse_unsigned_spec(s@, u64::MAX as nat) {
            Some(v) => v as u64,
            None => 0,
        },
{
    match parse_unsigned(s, u64::MAX) {
        Some(v) => v,
        None => 0,
    }
}

/// The line of one download manifest: its field in a column of 10, its
/// sizes right-aligned in columns of 10, its file and chunk counts.
pub fn manifest_line(
    field: &str,
    compressed: &str,
    uncompressed: &str,
    files: &str,
    chunks: &str,
) -> (line: String)
    ensures
        line@ == "  "@ + padded_right(field@, 10) + " compressed "@ + padded_left(compressed@, 10)
            + "  uncompressed "@ + padded_left(uncompressed@, 10) + "  files "@ + files@
            + "  chunks "@ + chunks@,
{
    let mut line = "  ".to_owned();
    push_str(&mut line, pad_right(field, 10).as_str());
    push_str(&mut line, " compressed ");
    push_str(&mut line, pad_left(compressed, 10).as_str());
    push_str(&mut line, "  uncompressed ");
    push_str(&mut line, pad_left(uncompressed, 10).as_str());
    push_str(&mut line, "  files ");
    push_str(&mut line, files);
    push_str(&mut line, "  chunks ");
    push_str(&mut line, chunks);
    line
}


// ---------------------------------------------------------------------------
// The progress display of the command line
// ---------------------------------------------------------------------------

/// What the command line's progress display does with one engine event.
pub enum ProgressOutput {
    /// Show this text on the status line.
    Status(String),
    /// Move the bytes bar.
    Bytes { position: u64, length: u64 },
    /// Move the files bar.
    Files { position: u64, length: u64 },
    /// Log `logged` as an error and show `shown` on the status line.
    Error { logged: String, shown: String },
    /// Finish the bars, end the status line with `message`, and fail with
    /// `failure` when there is one.
    Finished { message: String, failure: Option<String> },
}

/// Handles one engine event in the command line's progress display; `phase`
/// is the phase announced last.
pub fn progress_output(phase: &mut String, event: Event) -> (out: ProgressOutput)
    ensures
        match event {
            Event::Phase(p) => {
                &&& final(phase)@ == p@
                &&& out matches ProgressOutput::Status(t) && t@ == p@ + "..."@
            },
            Event::ProgressBytes { downloaded, total } => {
                &&& final(phase)@ == old(phase)@
                &&& out == (ProgressOutput::Bytes { position: downloaded, length: total })
            },
            Event::ProgressFiles { downloaded, total } => {
                &&& final(phase)@ == old(phase)@
                &&& out == (ProgressOutput::Files { position: downloaded, length: total })
            },
            Event::Message(m) => {
                &&& final(phase)@ == old(phase)@
                &&& out matches ProgressOutput::Status(t) && t@ == m@
            },
            Event::Error(e) => {
                &&& final(phase)@ == old(phase)@
                &&& out matches ProgressOutput::Error { logged, shown } && logged@ == e@ && shown@
                    == "ERROR: "@ + e@
            },
            Event::Finished(r) => {
                &&& final(phase)@ == old(phase)@
                &&& out matches ProgressOutput::Finished { message, failure } && message@ == old(
                    phase,
                )@ + " - "@ + (if r is Ok {
                    "ok"@
                } else {
                    "failed"@
                }) && match r {
                    Ok(()) => failure is None,
                    Err(e) => failure matches Some(f) && f@ == e@,
                }
            },
        },
{
    match event {
        Event::Phase(p) => {
            let shown = append_str(p.as_str(), "...");
            *phase = p;
            ProgressOutput::Status(shown)
        },
        Event::ProgressBytes { downloaded, total } => ProgressOutput::Bytes {
            position: downloaded,
            length: total,
        },
        Event::ProgressFiles { downloaded, total } => ProgressOutput::Files {
            position: downloaded,
            length: total,
        },
        Event::Message(m) => ProgressOutput::Status(m),
        Event::Error(e) => {
            let shown = append_str("ERROR: ", e.as_str());
            ProgressOutput::Error { logged: e, shown }
        },
        Event::Finished(r) => {
            let mut message = append_str(phase.as_str(), " - ");
            match r {
                Ok(()) => {
                    push_str(&mut message, "ok");
                    ProgressOutput::Finished { message, failure: None }
                },
                Err(e) => {
                    push_str(&mut message, "failed");
                    ProgressOutput::Finished { message, failure: Some(e) }
                },
            }
        },
    }
}

} // verus!
