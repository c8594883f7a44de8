//! The download engine's events, and how the installer's and the patcher's
//! progress reports become events.
use vstd::prelude::*;

use crate::cmd::WorkKind;
use crate::text::{append_str, is_white, joined, lemma_trimmed_self, push_str, trim, trimmed, views};
use crate::voice::{
    mentions, resolve, resolve_request, resolve_request_spec, resolve_spec, str_views, voice_fields, voice_fields_spec,
    VoiceError,
};

verus! {

/// Unified progress/status events emitted by the download engine.
#[derive(Debug)]
pub enum Event {
    Phase(String),
    ProgressBytes { downloaded: u64, total: u64 },
    ProgressFiles { downloaded: u64, total: u64 },
    Message(String),
    Error(String),
    Finished(Result<(), String>),
}

/// An event, with its texts as character sequences.
pub enum EventView {
    Phase(Seq<char>),
    ProgressBytes { downloaded: u64, total: u64 },
    ProgressFiles { downloaded: u64, total: u64 },
    Message(Seq<char>),
    Error(Seq<char>),
    Finished(Result<(), Seq<char>>),
}

impl View for Event {
    type V = EventView;

    open spec fn view(&self) -> EventView {
        match self {
            Event::Phase(p) => EventView::Phase(p@),
            Event::ProgressBytes { downloaded, total } => EventView::ProgressBytes {
                downloaded: *downloaded,
                total: *total,
            },
            Event::ProgressFiles { downloaded, total } => EventView::ProgressFiles {
                downloaded: *downloaded,
                total: *total,
            },
            Event::Message(m) => EventView::Message(m@),
            Event::Error(e) => EventView::Error(e@),
            Event::Finished(r) => EventView::Finished(
                match r {
                    Ok(()) => Ok(()),
                    Err(e) => Err(e@),
                },
            ),
        }
    }
}

/// The views of a sequence of events.
pub open spec fn event_views(s: Seq<Event>) -> Seq<EventView> {
    s.map_values(|e: Event| e@)
}

/// A progress report of the installer (full download, pre-download or
/// repair of one manifest), with paths and errors given as text.
pub enum InstallerUpdate {
    CheckingFreeSpace(String),
    CheckingFiles { total_files: u64 },
    CheckingFilesProgress { passed: u64, total: u64 },
    DownloadingStarted { location: String, total_bytes: u64, total_files: u64 },
    DownloadingProgressBytes { downloaded_bytes: u64, total_bytes: u64 },
    DownloadingProgressFiles { downloaded_files: u64, total_files: u64 },
    DownloadingFinished,
    DownloadingError(String),
}

/// A progress report of the patcher (update or pre-download of one diff),
/// with paths and errors given as text.
pub enum PatcherUpdate {
    CheckingFreeSpace(String),
    CheckingFilesStarted,
    DeletingStarted,
    DeletingProgress { deleted_files: u64, total_unused: u64 },
    DeletingFinished,
    DownloadingStarted(String),
    DownloadingProgressBytes { downloaded_bytes: u64, total_bytes: u64 },
    DownloadingFinished,
    PatchingStarted,
    PatchingProgress { patched_files: u64, total_files: u64 },
    PatchingFinished,
    DownloadingError(String),
    PatchingError(String),
    FileHashCheckFailed(String),
}

/// The events an installer report gives, while the installer works on the
/// step whose phase is `phase`.
pub open spec fn installer_events(u: InstallerUpdate, phase: Seq<char>) -> Seq<EventView> {
    match u {
        InstallerUpdate::CheckingFreeSpace(_) => seq![EventView::Phase("Checking free space"@)],
        InstallerUpdate::CheckingFiles { total_files } => seq![
            EventView::Phase("Checking files"@),
            EventView::ProgressFiles { downloaded: 0, total: total_files },
        ],
        InstallerUpdate::CheckingFilesProgress { passed, total } => seq![
            EventView::ProgressFiles { downloaded: passed, total: total },
        ],
        InstallerUpdate::DownloadingStarted { total_bytes, total_files, .. } => seq![
            EventView::Phase(phase),
            EventView::ProgressBytes { downloaded: 0, total: total_bytes },
            EventView::ProgressFiles { downloaded: 0, total: total_files },
        ],
        InstallerUpdate::DownloadingProgressBytes { downloaded_bytes, total_bytes } => seq![
            EventView::ProgressBytes { downloaded: downloaded_bytes, total: total_bytes },
        ],
        InstallerUpdate::DownloadingProgressFiles { downloaded_files, total_files } => seq![
            EventView::ProgressFiles { downloaded: downloaded_files, total: total_files },
        ],
        InstallerUpdate::DownloadingFinished => seq![EventView::Phase("Download finished"@)],
        InstallerUpdate::DownloadingError(err) => seq![EventView::Error(err@)],
    }
}

/// Whether an installer report marks the step as failed.
pub open spec fn installer_fails(u: InstallerUpdate) -> bool {
    u is DownloadingError
}

/// The events a patcher report gives.
pub open spec fn patcher_events(u: PatcherUpdate) -> Seq<EventView> {
    match u {
        PatcherUpdate::CheckingFreeSpace(_) => seq![EventView::Phase("Checking free space"@)],
        PatcherUpdate::CheckingFilesStarted => seq![EventView::Phase("Checking files"@)],
        PatcherUpdate::DeletingStarted => seq![EventView::Phase("Deleting unused files"@)],
        PatcherUpdate::DeletingProgress { deleted_files, total_unused } => seq![
            EventView::ProgressFiles { downloaded: deleted_files, total: total_unused },
        ],
        PatcherUpdate::DeletingFinished => seq![EventView::Phase("Deleting finished"@)],
        PatcherUpdate::DownloadingStarted(_) => seq![EventView::Phase("Downloading update"@)],
        PatcherUpdate::DownloadingProgressBytes { downloaded_bytes, total_bytes } => seq![
            EventView::ProgressBytes { downloaded: downloaded_bytes, total: total_bytes },
        ],
        PatcherUpdate::DownloadingFinished => seq![EventView::Phase("Download finished"@)],
        PatcherUpdate::PatchingStarted => seq![EventView::Phase("Patching"@)],
        PatcherUpdate::PatchingProgress { patched_files, total_files } => seq![
            EventView::ProgressFiles { downloaded: patched_files, total: total_files },
        ],
        PatcherUpdate::PatchingFinished => seq![EventView::Phase("Patching finished"@)],
        PatcherUpdate::DownloadingError(err) => seq![EventView::Error(err@)],
        PatcherUpdate::PatchingError(err) => seq![EventView::Error(err@)],
        PatcherUpdate::FileHashCheckFailed(path) => seq![
            EventView::Error("file hash check failed: "@ + path@),
        ],
    }
}

/// Whether a patcher report marks the step as failed.
pub open spec fn patcher_fails(u: PatcherUpdate) -> bool {
    ||| u is DownloadingError
    ||| u is PatchingError
    ||| u is FileHashCheckFailed
}

fn phase(text: &str) -> (e: Event)
    ensures
        e@ == EventView::Phase(text@),
{
    Event::Phase(text.to_owned())
}

fn one(e: Event) -> (events: Vec<Event>)
    ensures
        event_views(events@) == seq![e@],
{
    let mut events = Vec::new();
    events.push(e);
    assert(event_views(events@) =~= seq![e@]);
    events
}

/// The events that an installer report gives, and whether it marks the step
/// as failed. `phase` is the phase of the step the installer works on; it is
/// announced again when the download proper starts.
pub fn installer_update_events(update: InstallerUpdate, phase_text: &str) -> (out: (
    Vec<Event>,
    bool,
))
    ensures
        event_views(out.0@) == installer_events(update, phase_text@),
        out.1 == installer_fails(update),
{
    match update {
        InstallerUpdate::CheckingFreeSpace(_) => (one(phase("Checking free space")), false),
        InstallerUpdate::CheckingFiles { total_files } => {
            let mut events = Vec::new();
            events.push(phase("Checking files"));
            events.push(Event::ProgressFiles { downloaded: 0, total: total_files });
            assert(event_views(events@) =~= installer_events(update, phase_text@));
            (events, false)
        },
        InstallerUpdate::CheckingFilesProgress { passed, total } => (
            one(Event::ProgressFiles { downloaded: passed, total }),
            false,
        ),
        InstallerUpdate::DownloadingStarted { location: _, total_bytes, total_files } => {
            let mut events = Vec::new();
            events.push(phase(phase_text));
            events.push(Event::ProgressBytes { downloaded: 0, total: total_bytes });
            events.push(Event::ProgressFiles { downloaded: 0, total: total_files });
            assert(event_views(events@) =~= installer_events(update, phase_text@));
            (events, false)
        },
        InstallerUpdate::DownloadingProgressBytes { downloaded_bytes, total_bytes } => (
            one(Event::ProgressBytes { downloaded: downloaded_bytes, total: total_bytes }),
            false,
        ),
        InstallerUpdate::DownloadingProgressFiles { downloaded_files, total_files } => (
            one(Event::ProgressFiles { downloaded: downloaded_files, total: total_files }),
            false,
        ),
        InstallerUpdate::DownloadingFinished => (one(phase("Download finished")), false),
        InstallerUpdate::DownloadingError(err) => (one(Event::Error(err)), true),
    }
}

/// The events that a patcher report gives, and whether it marks the step as
/// failed.
pub fn patcher_update_events(update: PatcherUpdate) -> (out: (Vec<Event>, bool))
    ensures
        event_views(out.0@) == patcher_events(update),
        out.1 == patcher_fails(update),
{
    match update {
        PatcherUpdate::CheckingFreeSpace(_) => (one(phase("Checking free space")), false),
        PatcherUpdate::CheckingFilesStarted => (one(phase("Checking files")), false),
        PatcherUpdate::DeletingStarted => (one(phase("Deleting unused files")), false),
        PatcherUpdate::DeletingProgress { deleted_files, total_unused } => (
            one(Event::ProgressFiles { downloaded: deleted_files, total: total_unused }),
            false,
        ),
        PatcherUpdate::DeletingFinished => (one(phase("Deleting finished")), false),
        PatcherUpdate::DownloadingStarted(_) => (one(phase("Downloading update")), false),
        PatcherUpdate::DownloadingProgressBytes { downloaded_bytes, total_bytes } => (
            one(Event::ProgressBytes { downloaded: downloaded_bytes, total: total_bytes }),
            false,
        ),
        PatcherUpdate::DownloadingFinished => (one(phase("Download finished")), false),
        PatcherUpdate::PatchingStarted => (one(phase("Patching")), false),
        PatcherUpdate::PatchingProgress { patched_files, total_files } => (
            one(Event::ProgressFiles { downloaded: patched_files, total: total_files }),
            false,
        ),
        PatcherUpdate::PatchingFinished => (one(phase("Patching finished")), false),
        PatcherUpdate::DownloadingError(err) => (one(Event::Error(err)), true),
        PatcherUpdate::PatchingError(err) => (one(Event::Error(err)), true),
        PatcherUpdate::FileHashCheckFailed(path) => (
            one(Event::Error(append_str("file hash check failed: ", path.as_str()))),
            true,
        ),
    }
}


// ---------------------------------------------------------------------------
// Plans: which installer or patcher runs, on which manifest, in which order
// ---------------------------------------------------------------------------

/// One unit of work on one manifest or diff, named by its `matching_field`.
#[derive(Debug)]
pub enum Step {
    /// Full download of a manifest that must be listed.
    Install(String),
    /// Full download of a manifest, skipped when it is not listed.
    InstallIfListed(String),
    /// Update through a diff.
    Patch(String),
    /// Download of a manifest's chunks without applying them.
    PreDownloadManifest(String),
    /// Download of a diff's chunks without applying them.
    PreDownloadDiff(String),
    /// Verification and repair against a manifest.
    Repair(String),
}

pub enum StepView {
    Install(Seq<char>),
    InstallIfListed(Seq<char>),
    Patch(Seq<char>),
    PreDownloadManifest(Seq<char>),
    PreDownloadDiff(Seq<char>),
    Repair(Seq<char>),
}

impl View for Step {
    type V = StepView;

    open spec fn view(&self) -> StepView {
        match self {
            Step::Install(f) => StepView::Install(f@),
            Step::InstallIfListed(f) => StepView::InstallIfListed(f@),
            Step::Patch(f) => StepView::Patch(f@),
            Step::PreDownloadManifest(f) => StepView::PreDownloadManifest(f@),
            Step::PreDownloadDiff(f) => StepView::PreDownloadDiff(f@),
            Step::Repair(f) => StepView::Repair(f@),
        }
    }
}

pub open spec fn step_views(s: Seq<Step>) -> Seq<StepView> {
    s.map_values(|x: Step| x@)
}

/// Why a plan cannot be made.
#[derive(Debug)]
pub enum DlError {
    /// The download info lists no `game` manifest.
    NoGameManifest,
    /// A requested voiceover package is not available.
    Voice(VoiceError),
}

impl DlError {
    /// The error's text.
    pub fn message(&self) -> (text: String)
        ensures
            self is NoGameManifest ==> text@ == "no game download manifest found"@,
            self matches DlError::Voice(v) ==> v.message_spec(text@),
    {
        match self {
            DlError::NoGameManifest => "no game download manifest found".to_owned(),
            DlError::Voice(v) => v.message(),
        }
    }
}

/// The view of an optional version text.
pub open spec fn opt_view(o: Option<&str>) -> Option<Seq<char>> {
    match o {
        Some(s) => Some(s@),
        None => None,
    }
}

/// A diff applies to the installed version: one is installed and the
/// package lists its text among the versions it has diffs from.
pub open spec fn can_patch_spec(current: Option<Seq<char>>, diff_tags: Seq<Seq<char>>) -> bool {
    current is Some && diff_tags.contains(current->0)
}

/// Those of `fields` that are listed in `listed`, in order.
pub open spec fn listed_fields(fields: Seq<Seq<char>>, listed: Seq<Seq<char>>) -> Seq<Seq<char>>
    decreases fields.len(),
{
    if fields.len() == 0 {
        Seq::empty()
    } else {
        let init = listed_fields(fields.drop_last(), listed);
        if listed.contains(fields.last()) {
            init.push(fields.last())
        } else {
            init
        }
    }
}

/// The voice steps of an update: a patch where a diff for the field exists
/// and applies, else a full download if the manifest is listed.
pub open spec fn update_voice_step(f: Seq<char>, diff_fields: Seq<Seq<char>>, patchable: bool) -> StepView {
    if diff_fields.contains(f) && patchable {
        StepView::Patch(f)
    } else {
        StepView::InstallIfListed(f)
    }
}

/// The pre-download step of one field: the diff where one exists and applies,
/// else the manifest where one is listed, else nothing.
pub open spec fn pre_download_step_spec(
    f: Seq<char>,
    diff_fields: Seq<Seq<char>>,
    manifest_fields: Seq<Seq<char>>,
    patchable: bool,
) -> Option<StepView> {
    if diff_fields.contains(f) && patchable {
        Some(StepView::PreDownloadDiff(f))
    } else if manifest_fields.contains(f) {
        Some(StepView::PreDownloadManifest(f))
    } else {
        None
    }
}

/// The pre-download steps of `fields`, in order, those without one left out.
pub open spec fn pre_download_steps_spec(
    fields: Seq<Seq<char>>,
    diff_fields: Seq<Seq<char>>,
    manifest_fields: Seq<Seq<char>>,
    patchable: bool,
) -> Seq<StepView>
    decreases fields.len(),
{
    if fields.len() == 0 {
        Seq::empty()
    } else {
        let init = pre_download_steps_spec(fields.drop_last(), diff_fields, manifest_fields, patchable);
        match pre_download_step_spec(fields.last(), diff_fields, manifest_fields, patchable) {
            Some(st) => init.push(st),
            None => init,
        }
    }
}

/// The full download: the `game` manifest, then each resolved voice whose
/// manifest is listed. Voices default to none.
pub open spec fn download_plan_spec(
    manifest_fields: Seq<Seq<char>>,
    voices: Seq<Seq<char>>,
) -> Result<Seq<StepView>, Option<Seq<char>>> {
    if !manifest_fields.contains("game"@) {
        Err(None)
    } else {
        match resolve_spec(voices, voice_fields_spec(manifest_fields), false) {
            Ok(fields) => Ok(
                seq![StepView::Install("game"@)] + listed_fields(fields, manifest_fields).map_values(
                    |f: Seq<char>| StepView::Install(f),
                ),
            ),
            Err(name) => Err(Some(name)),
        }
    }
}

/// The repair: the `game` manifest if listed, then each resolved voice whose
/// manifest is listed. Voices default to those installed; `all` is every
/// listed voice pack.
pub open spec fn repair_plan_spec(
    manifest_fields: Seq<Seq<char>>,
    voices: Seq<Seq<char>>,
    installed: Seq<Seq<char>>,
) -> Result<Seq<StepView>, Seq<char>> {
    match resolve_request_spec(voices, voice_fields_spec(manifest_fields), installed) {
        Ok(fields) => Ok(
            (if manifest_fields.contains("game"@) {
                seq![StepView::Repair("game"@)]
            } else {
                Seq::empty()
            }) + listed_fields(fields, manifest_fields).map_values(
                |f: Seq<char>| StepView::Repair(f),
            ),
        ),
        Err(name) => Err(name),
    }
}

/// The views of `v`'s strings as slices of them.
pub fn as_strs<'a>(v: &'a [String]) -> (out: Vec<&'a str>)
    ensures
        str_views(out@) == views(v@),
{
    let mut out: Vec<&'a str> = Vec::new();
    let mut i: usize = 0;
    while i < v.len()
        invariant
            i <= v@.len(),
            str_views(out@) == views(v@).take(i as int),
        decreases v@.len() - i,
    {
        let ghost before = str_views(out@);
        out.push(v[i].as_str());
        assert(str_views(out@) =~= before.push(v@[i as int]@));
        assert(views(v@).take(i + 1) =~= views(v@).take(i as int).push(v@[i as int]@));
        i = i + 1;
    }
    assert(views(v@).take(v@.len() as int) =~= views(v@));
    out
}

/// The version text that a `.version` file holds: its contents without
/// surrounding white space, or none when nothing else is left.
pub fn version_text(contents: &str) -> (text: Option<String>)
    ensures
        match text {
            Some(t) => t@ == trimmed(contents@) && t@.len() > 0,
            None => trimmed(contents@).len() == 0,
        },
{
    let t = trim(contents);
    if t.unicode_len() == 0 {
        None
    } else {
        Some(t)
    }
}

/// A version is installed and equals the latest one.
pub fn is_up_to_date(current: Option<&str>, latest: &str) -> (up: bool)
    ensures
        up == (opt_view(current) == Some(latest@)),
{
    match current {
        Some(c) => crate::text::str_eq(c, latest),
        None => false,
    }
}

/// Whether a diff applies to the installed version `current`: the package
/// lists it among the versions it has diffs from.
pub fn can_patch(current: Option<&str>, diff_tags: &[String]) -> (patchable: bool)
    ensures
        patchable == can_patch_spec(opt_view(current), views(diff_tags@)),
{
    match current {
        Some(c) => mentions(diff_tags, c),
        None => false,
    }
}

/// The steps of a full download, given the fields of the listed manifests
/// and the requested voices.
pub fn download_plan(manifest_fields: &[String], voices: &[String]) -> (plan: Result<
    Vec<Step>,
    DlError,
>)
    ensures
        match plan {
            Ok(steps) => download_plan_spec(views(manifest_fields@), views(voices@)) == Ok::<
                Seq<StepView>,
                Option<Seq<char>>,
            >(step_views(steps@)),
            Err(DlError::NoGameManifest) => download_plan_spec(
                views(manifest_fields@),
                views(voices@),
            ) == Err::<Seq<StepView>, Option<Seq<char>>>(None),
            Err(DlError::Voice(VoiceError::Unknown { name, available })) => download_plan_spec(
                views(manifest_fields@),
                views(voices@),
            ) == Err::<Seq<StepView>, Option<Seq<char>>>(Some(name@)) && views(available@)
                == voice_fields_spec(views(manifest_fields@)),
        },
{
    let ghost mf = views(manifest_fields@);
    if !mentions(manifest_fields, "game") {
        return Err(DlError::NoGameManifest);
    }
    let strs = as_strs(manifest_fields);
    let available = voice_fields(strs.as_slice());
    let fields = match resolve(voices, available.as_slice(), false) {
        Ok(f) => f,
        Err(e) => {
            return Err(DlError::Voice(e));
        },
    };
    let ghost fs = views(fields@);
    let mut steps: Vec<Step> = Vec::new();
    steps.push(Step::Install("game".to_owned()));
    let ghost head = seq![StepView::Install("game"@)];
    assert(step_views(steps@) =~= head);
    let mut i: usize = 0;
    while i < fields.len()
        invariant
            mf == views(manifest_fields@),
            fs == views(fields@),
            i <= fields@.len(),
            head == seq![StepView::Install("game"@)],
            step_views(steps@) == head + listed_fields(fs.take(i as int), mf).map_values(
                |f: Seq<char>| StepView::Install(f),
            ),
        decreases fields@.len() - i,
    {
        assert(fs.take(i + 1).drop_last() =~= fs.take(i as int));
        let ghost before = step_views(steps@);
        if mentions(manifest_fields, fields[i].as_str()) {
            steps.push(Step::Install(fields[i].clone()));
            assert(step_views(steps@) =~= before.push(StepView::Install(fs[i as int])));
        }
        i = i + 1;
        assert(step_views(steps@) =~= head + listed_fields(fs.take(i as int), mf).map_values(
            |f: Seq<char>| StepView::Install(f),
        ));
    }
    assert(fs.take(fields@.len() as int) =~= fs);
    Ok(steps)
}

/// The steps of a repair, given the fields of the listed manifests, the
/// requested voices and the installed ones.
pub fn repair_plan(manifest_fields: &[String], voices: &[String], installed: &[String]) -> (plan:
    Result<Vec<Step>, VoiceError>)
    ensures
        match plan {
            Ok(steps) => repair_plan_spec(views(manifest_fields@), views(voices@), views(installed@))
                == Ok::<Seq<StepView>, Seq<char>>(step_views(steps@)),
            Err(VoiceError::Unknown { name, available }) => repair_plan_spec(
                views(manifest_fields@),
                views(voices@),
                views(installed@),
            ) == Err::<Seq<StepView>, Seq<char>>(name@) && views(available@) == voice_fields_spec(
                views(manifest_fields@),
            ),
        },
{
    let ghost mf = views(manifest_fields@);
    let strs = as_strs(manifest_fields);
    let listed = voice_fields(strs.as_slice());
    let mut steps: Vec<Step> = Vec::new();
    if mentions(manifest_fields, "game") {
        steps.push(Step::Repair("game".to_owned()));
    }
    let ghost head = step_views(steps@);
    assert(head =~= if mf.contains("game"@) {
        seq![StepView::Repair("game"@)]
    } else {
        Seq::empty()
    });
    let fields = resolve_request(voices, listed.as_slice(), installed)?;
    let ghost fs = views(fields@);
    let mut i: usize = 0;
    assert(listed_fields(fs.take(0), mf) =~= Seq::<Seq<char>>::empty());
    assert(step_views(steps@) =~= head + listed_fields(fs.take(0), mf).map_values(
        |f: Seq<char>| StepView::Repair(f),
    ));
    while i < fields.len()
        invariant
            mf == views(manifest_fields@),
            fs == views(fields@),
            i <= fields@.len(),
            step_views(steps@) == head + listed_fields(fs.take(i as int), mf).map_values(
                |f: Seq<char>| StepView::Repair(f),
            ),
        decreases fields@.len() - i,
    {
        assert(fs.take(i + 1).drop_last() =~= fs.take(i as int));
        let ghost before = step_views(steps@);
        if mentions(manifest_fields, fields[i].as_str()) {
            steps.push(Step::Repair(fields[i].clone()));
            assert(step_views(steps@) =~= before.push(StepView::Repair(fs[i as int])));
        }
        i = i + 1;
        assert(step_views(steps@) =~= head + listed_fields(fs.take(i as int), mf).map_values(
            |f: Seq<char>| StepView::Repair(f),
        ));
    }
    assert(fs.take(fields@.len() as int) =~= fs);
    Ok(steps)
}

/// The game step of an update: a patch when a `game` diff exists and applies
/// to the installed version, else a full download of the `game` manifest.
pub fn update_game_step(has_game_diff: bool, current: Option<&str>, diff_tags: &[String]) -> (step:
    Step)
    ensures
        step@ == if has_game_diff && can_patch_spec(opt_view(current), views(diff_tags@)) {
            StepView::Patch("game"@)
        } else {
            StepView::Install("game"@)
        },
{
    if has_game_diff && can_patch(current, diff_tags) {
        Step::Patch("game".to_owned())
    } else {
        Step::Install("game".to_owned())
    }
}

/// The voice steps of an update, given the requested voices, the installed
/// ones, the listed download manifests, the fields that have diffs and the
/// installed version. Voices default to those installed; `all` is every
/// listed voice pack.
pub fn update_voice_steps(
    voices: &[String],
    installed: &[String],
    manifest_fields: &[String],
    diff_fields: &[String],
    current: Option<&str>,
    diff_tags: &[String],
) -> (plan: Result<Vec<Step>, VoiceError>)
    ensures
        match plan {
            Ok(steps) => {
                let p = can_patch_spec(opt_view(current), views(diff_tags@));
                let r = resolve_request_spec(
                    views(voices@),
                    voice_fields_spec(views(manifest_fields@)),
                    views(installed@),
                );
                &&& r is Ok
                &&& step_views(steps@) == r->Ok_0.map_values(
                    |f: Seq<char>| update_voice_step(f, views(diff_fields@), p),
                )
            },
            Err(VoiceError::Unknown { name, available }) => resolve_request_spec(
                views(voices@),
                voice_fields_spec(views(manifest_fields@)),
                views(installed@),
            ) == Err::<Seq<Seq<char>>, Seq<char>>(name@) && views(available@) == voice_fields_spec(
                views(manifest_fields@),
            ),
        },
{
    let patchable = can_patch(current, diff_tags);
    let ghost df = views(diff_fields@);
    let strs = as_strs(manifest_fields);
    let listed = voice_fields(strs.as_slice());
    let fields = resolve_request(voices, listed.as_slice(), installed)?;
    let ghost fs = views(fields@);
    let mut steps: Vec<Step> = Vec::new();
    let mut i: usize = 0;
    while i < fields.len()
        invariant
            df == views(diff_fields@),
            fs == views(fields@),
            i <= fields@.len(),
            step_views(steps@) == fs.take(i as int).map_values(
                |f: Seq<char>| update_voice_step(f, df, patchable),
            ),
        decreases fields@.len() - i,
    {
        let ghost before = step_views(steps@);
        if mentions(diff_fields, fields[i].as_str()) && patchable {
            steps.push(Step::Patch(fields[i].clone()));
        } else {
            steps.push(Step::InstallIfListed(fields[i].clone()));
        }
        assert(step_views(steps@) =~= before.push(update_voice_step(fs[i as int], df, patchable)));
        i = i + 1;
        assert(step_views(steps@) =~= fs.take(i as int).map_values(
            |f: Seq<char>| update_voice_step(f, df, patchable),
        ));
    }
    assert(fs.take(fields@.len() as int) =~= fs);
    Ok(steps)
}

/// The pre-download step of one field, if it has one.
pub fn pre_download_step(
    field: &str,
    diff_fields: &[String],
    manifest_fields: &[String],
    patchable: bool,
) -> (step: Option<Step>)
    ensures
        match step {
            Some(st) => pre_download_step_spec(
                field@,
                views(diff_fields@),
                views(manifest_fields@),
                patchable,
            ) == Some(st@),
            None => pre_download_step_spec(
                field@,
                views(diff_fields@),
                views(manifest_fields@),
                patchable,
            ) is None,
        },
{
    if mentions(diff_fields, field) && patchable {
        Some(Step::PreDownloadDiff(field.to_owned()))
    } else if mentions(manifest_fields, field) {
        Some(Step::PreDownloadManifest(field.to_owned()))
    } else {
        None
    }
}

/// The voice steps of a pre-download, given the requested voices, the
/// listed manifests, the fields that have diffs and whether diffs apply.
/// Voices default to all available ones.
pub fn pre_download_voice_steps(
    voices: &[String],
    manifest_fields: &[String],
    diff_fields: &[String],
    patchable: bool,
) -> (plan: Result<Vec<Step>, VoiceError>)
    ensures
        match plan {
            Ok(steps) => {
                let r = resolve_spec(
                    views(voices@),
                    voice_fields_spec(views(manifest_fields@)),
                    true,
                );
                &&& r is Ok
                &&& step_views(steps@) == pre_download_steps_spec(
                    r->Ok_0,
                    views(diff_fields@),
                    views(manifest_fields@),
                    patchable,
                )
            },
            Err(VoiceError::Unknown { name, available }) => resolve_spec(
                views(voices@),
                voice_fields_spec(views(manifest_fields@)),
                true,
            ) == Err::<Seq<Seq<char>>, Seq<char>>(name@) && views(available@) == voice_fields_spec(
                views(manifest_fields@),
            ),
        },
{
    let ghost df = views(diff_fields@);
    let ghost mf = views(manifest_fields@);
    let strs = as_strs(manifest_fields);
    let available = voice_fields(strs.as_slice());
    let fields = resolve(voices, available.as_slice(), true)?;
    let ghost fs = views(fields@);
    let mut steps: Vec<Step> = Vec::new();
    let mut i: usize = 0;
    while i < fields.len()
        invariant
            df == views(diff_fields@),
            mf == views(manifest_fields@),
            fs == views(fields@),
            i <= fields@.len(),
            step_views(steps@) == pre_download_steps_spec(fs.take(i as int), df, mf, patchable),
        decreases fields@.len() - i,
    {
        assert(fs.take(i + 1).drop_last() =~= fs.take(i as int));
        let ghost before = step_views(steps@);
        match pre_download_step(fields[i].as_str(), diff_fields, manifest_fields, patchable) {
            Some(st) => {
                steps.push(st);
                assert(step_views(steps@) =~= before.push(st@));
            },
            None => {},
        }
        i = i + 1;
    }
    assert(fs.take(fields@.len() as int) =~= fs);
    Ok(steps)
}

/// The `matching_field` a step works on.
pub open spec fn step_field(s: StepView) -> Seq<char> {
    match s {
        StepView::Install(f) => f,
        StepView::InstallIfListed(f) => f,
        StepView::Patch(f) => f,
        StepView::PreDownloadManifest(f) => f,
        StepView::PreDownloadDiff(f) => f,
        StepView::Repair(f) => f,
    }
}

/// The phase announced when a step starts.
pub open spec fn step_phase_spec(s: StepView) -> Seq<char> {
    match s {
        StepView::Install(f) => "Downloading "@ + f,
        StepView::InstallIfListed(f) => "Downloading "@ + f,
        StepView::Patch(f) => "Patching "@ + f,
        StepView::PreDownloadManifest(f) => "Pre-downloading "@ + f,
        StepView::PreDownloadDiff(f) => "Pre-downloading "@ + f,
        StepView::Repair(f) => "Repairing "@ + f,
    }
}

/// The error of a step during which a report marked a failure.
pub open spec fn step_failure_spec(s: StepView) -> Seq<char> {
    match s {
        StepView::Install(f) => "download failed for '"@ + f + "'"@,
        StepView::InstallIfListed(f) => "download failed for '"@ + f + "'"@,
        StepView::Patch(f) => "patching failed for '"@ + f + "'"@,
        StepView::PreDownloadManifest(f) => "pre-download failed for '"@ + f + "'"@,
        StepView::PreDownloadDiff(f) => "pre-download failed for '"@ + f + "'"@,
        StepView::Repair(f) => "repair failed for '"@ + f + "'"@,
    }
}

/// The context of an error that setting a step's installer or patcher up gave.
pub open spec fn step_setup_failure_spec(s: StepView) -> Seq<char> {
    match s {
        StepView::Install(f) => "failed to init installer for '"@ + f + "'"@,
        StepView::InstallIfListed(f) => "failed to init installer for '"@ + f + "'"@,
        StepView::PreDownloadManifest(f) => "failed to init installer for '"@ + f + "'"@,
        StepView::Patch(f) => "failed to init patcher for '"@ + f + "'"@,
        StepView::PreDownloadDiff(f) => "failed to init patcher for '"@ + f + "'"@,
        StepView::Repair(f) => "failed to init repairer for '"@ + f + "'"@,
    }
}

fn quoted(prefix: &str, field: &String) -> (text: String)
    ensures
        text@ == prefix@ + field@ + "'"@,
{
    let mut text = append_str(prefix, field.as_str());
    push_str(&mut text, "'");
    text
}

impl Step {
    /// The `matching_field` this step works on.
    pub fn field(&self) -> (f: &String)
        ensures
            f@ == step_field(self@),
    {
        match self {
            Step::Install(f) => f,
            Step::InstallIfListed(f) => f,
            Step::Patch(f) => f,
            Step::PreDownloadManifest(f) => f,
            Step::PreDownloadDiff(f) => f,
            Step::Repair(f) => f,
        }
    }

    /// The phase announced when this step starts.
    pub fn phase(&self) -> (text: String)
        ensures
            text@ == step_phase_spec(self@),
    {
        match self {
            Step::Install(f) => append_str("Downloading ", f.as_str()),
            Step::InstallIfListed(f) => append_str("Downloading ", f.as_str()),
            Step::Patch(f) => append_str("Patching ", f.as_str()),
            Step::PreDownloadManifest(f) => append_str("Pre-downloading ", f.as_str()),
            Step::PreDownloadDiff(f) => append_str("Pre-downloading ", f.as_str()),
            Step::Repair(f) => append_str("Repairing ", f.as_str()),
        }
    }

    /// The error of this step when a report marked a failure.
    pub fn failure(&self) -> (text: String)
        ensures
            text@ == step_failure_spec(self@),
    {
        match self {
            Step::Install(f) => quoted("download failed for '", f),
            Step::InstallIfListed(f) => quoted("download failed for '", f),
            Step::Patch(f) => quoted("patching failed for '", f),
            Step::PreDownloadManifest(f) => quoted("pre-download failed for '", f),
            Step::PreDownloadDiff(f) => quoted("pre-download failed for '", f),
            Step::Repair(f) => quoted("repair failed for '", f),
        }
    }

    /// The context of an error that setting this step's installer or patcher
    /// up gave.
    pub fn setup_failure(&self) -> (text: String)
        ensures
            text@ == step_setup_failure_spec(self@),
    {
        match self {
            Step::Install(f) => quoted("failed to init installer for '", f),
            Step::InstallIfListed(f) => quoted("failed to init installer for '", f),
            Step::PreDownloadManifest(f) => quoted("failed to init installer for '", f),
            Step::Patch(f) => quoted("failed to init patcher for '", f),
            Step::PreDownloadDiff(f) => quoted("failed to init patcher for '", f),
            Step::Repair(f) => quoted("failed to init repairer for '", f),
        }
    }
}

/// Watches the reports of one installer or patcher run: it turns each report
/// into events, and remembers whether any of them marked a failure, so that
/// the run ends with the step's error.
pub struct StepMonitor {
    pub failed: bool,
}

/// Whether a run whose installer gave `reports` failed: some report marked a
/// failure.
pub open spec fn installer_run_failed(reports: Seq<InstallerUpdate>) -> bool
    decreases reports.len(),
{
    reports.len() > 0 && (installer_run_failed(reports.drop_last()) || installer_fails(
        reports.last(),
    ))
}

/// Whether a run whose patcher gave `reports` failed: some report marked a
/// failure.
pub open spec fn patcher_run_failed(reports: Seq<PatcherUpdate>) -> bool
    decreases reports.len(),
{
    reports.len() > 0 && (patcher_run_failed(reports.drop_last()) || patcher_fails(
        reports.last(),
    ))
}

impl StepMonitor {
    /// A monitor that has seen no report.
    pub fn new() -> (m: StepMonitor)
        ensures
            !m.failed,
    {
        StepMonitor { failed: false }
    }

    /// Takes an installer report of the step whose phase is `phase`: its
    /// events, and a failure remembered if it marks one.
    pub fn installer_report(&mut self, update: InstallerUpdate, phase: &str) -> (events: Vec<Event>)
        ensures
            event_views(events@) == installer_events(update, phase@),
            final(self).failed == (old(self).failed || installer_fails(update)),
    {
        let (events, fails) = installer_update_events(update, phase);
        if fails {
            self.failed = true;
        }
        events
    }

    /// Takes a patcher report: its events, and a failure remembered if it
    /// marks one.
    pub fn patcher_report(&mut self, update: PatcherUpdate) -> (events: Vec<Event>)
        ensures
            event_views(events@) == patcher_events(update),
            final(self).failed == (old(self).failed || patcher_fails(update)),
    {
        let (events, fails) = patcher_update_events(update);
        if fails {
            self.failed = true;
        }
        events
    }

    /// How the step ends once its run is over: with the step's failure when
    /// a report marked one, else well.
    pub fn outcome(&self, step: &Step) -> (r: Result<(), String>)
        ensures
            match r {
                Ok(()) => !self.failed,
                Err(e) => self.failed && e@ == step_failure_spec(step@),
            },
    {
        if self.failed {
            Err(step.failure())
        } else {
            Ok(())
        }
    }
}

/// One thing a download or a repair does on the outside, in the order the
/// run does them.
pub enum RunAction {
    /// Create the game directory.
    CreateGameDir,
    /// Run the installer on one step.
    Run(Step),
    /// Record the installed version in `.version`.
    WriteVersion,
    /// End the run well, with this message.
    Finish(String),
    /// End the run with this error.
    Fail(String),
}

pub enum RunActionView {
    CreateGameDir,
    Run(StepView),
    WriteVersion,
    Finish(Seq<char>),
    Fail(Seq<char>),
}

impl View for RunAction {
    type V = RunActionView;

    open spec fn view(&self) -> RunActionView {
        match self {
            RunAction::CreateGameDir => RunActionView::CreateGameDir,
            RunAction::Run(st) => RunActionView::Run(st@),
            RunAction::WriteVersion => RunActionView::WriteVersion,
            RunAction::Finish(m) => RunActionView::Finish(m@),
            RunAction::Fail(e) => RunActionView::Fail(e@),
        }
    }
}

pub open spec fn run_action_views(s: Seq<RunAction>) -> Seq<RunActionView> {
    s.map_values(|a: RunAction| a@)
}

/// The error of a request naming a voice that is not among `available`.
pub open spec fn unknown_voice_message(name: Seq<char>, available: Seq<Seq<char>>) -> Seq<char> {
    "unknown voiceover package '"@ + name + "', available: "@ + joined(available, ", "@)
}

/// What a full download does: nothing but fail when its plan fails (no game
/// manifest, or an unknown voice); else create the game directory, run every
/// step of the plan, record the version and end well.
pub open spec fn download_actions_spec(
    manifest_fields: Seq<Seq<char>>,
    voices: Seq<Seq<char>>,
) -> Seq<RunActionView> {
    match download_plan_spec(manifest_fields, voices) {
        Ok(steps) => seq![RunActionView::CreateGameDir] + steps.map_values(
            |st: StepView| RunActionView::Run(st),
        ) + seq![RunActionView::WriteVersion, RunActionView::Finish("Download complete"@)],
        Err(None) => seq![RunActionView::Fail("no game download manifest found"@)],
        Err(Some(name)) => seq![
            RunActionView::Fail(unknown_voice_message(name, voice_fields_spec(manifest_fields))),
        ],
    }
}

/// What a repair does: create the game directory, then fail on an unknown
/// voice, or run every step of its plan and end well. A repair never records
/// the version.
pub open spec fn repair_actions_spec(
    manifest_fields: Seq<Seq<char>>,
    voices: Seq<Seq<char>>,
    installed: Seq<Seq<char>>,
) -> Seq<RunActionView> {
    seq![RunActionView::CreateGameDir] + match repair_plan_spec(manifest_fields, voices, installed) {
        Ok(steps) => steps.map_values(|st: StepView| RunActionView::Run(st)) + seq![
            RunActionView::Finish("Repair complete"@),
        ],
        Err(name) => seq![
            RunActionView::Fail(unknown_voice_message(name, voice_fields_spec(manifest_fields))),
        ],
    }
}

/// Appends a `Run` action for each of `steps`, in order.
fn push_runs(actions: &mut Vec<RunAction>, steps: Vec<Step>)
    ensures
        run_action_views(final(actions)@) == run_action_views(old(actions)@) + step_views(
            steps@,
        ).map_values(|st: StepView| RunActionView::Run(st)),
{
    let ghost orig = step_views(steps@);
    let ghost head = run_action_views(actions@);
    let mut rest = steps;
    let n = rest.len();
    let mut k: usize = 0;
    assert(orig.take(0).map_values(|st: StepView| RunActionView::Run(st)) =~= Seq::<
        RunActionView,
    >::empty());
    assert(run_action_views(actions@) =~= head + orig.take(0).map_values(
        |st: StepView| RunActionView::Run(st),
    ));
    while rest.len() > 0
        invariant
            k <= orig.len(),
            orig.len() == n,
            step_views(rest@) == orig.skip(k as int),
            run_action_views(actions@) == head + orig.take(k as int).map_values(
                |st: StepView| RunActionView::Run(st),
            ),
        decreases rest@.len(),
    {
        let ghost before = run_action_views(actions@);
        let ghost rest_before = rest@;
        assert(step_views(rest@).len() == rest@.len());
        let st = rest.remove(0);
        assert(st@ == step_views(rest_before)[0]);
        assert(orig.skip(k as int)[0] == orig[k as int]);
        actions.push(RunAction::Run(st));
        assert(run_action_views(actions@) =~= before.push(RunActionView::Run(orig[k as int])));
        assert(orig.take(k + 1) =~= orig.take(k as int).push(orig[k as int]));
        assert(orig.take(k + 1).map_values(|st: StepView| RunActionView::Run(st)) =~= orig.take(
            k as int,
        ).map_values(|st: StepView| RunActionView::Run(st)).push(RunActionView::Run(orig[k as int])));
        assert(step_views(rest@) =~= step_views(rest_before).drop_first());
        assert(orig.skip(k + 1) =~= orig.skip(k as int).drop_first());
        k = k + 1;
    }
    assert(orig.take(k as int) =~= orig);
}

/// What a full download does, in order: see `download_actions_spec`.
pub fn download_actions(manifest_fields: &[String], voices: &[String]) -> (actions: Vec<RunAction>)
    ensures
        run_action_views(actions@) == download_actions_spec(views(manifest_fields@), views(voices@)),
{
    let mut actions: Vec<RunAction> = Vec::new();
    match download_plan(manifest_fields, voices) {
        Ok(steps) => {
            actions.push(RunAction::CreateGameDir);
            assert(run_action_views(actions@) =~= seq![RunActionView::CreateGameDir]);
            push_runs(&mut actions, steps);
            actions.push(RunAction::WriteVersion);
            actions.push(RunAction::Finish("Download complete".to_owned()));
        },
        Err(e) => {
            let text = e.message();
            proof {
                match e {
                    DlError::NoGameManifest => {},
                    DlError::Voice(VoiceError::Unknown { name, available }) => {
                        assert(text@ == unknown_voice_message(
                            name@,
                            voice_fields_spec(views(manifest_fields@)),
                        ));
                    },
                }
            }
            actions.push(RunAction::Fail(text));
        },
    }
    assert(run_action_views(actions@) =~= download_actions_spec(
        views(manifest_fields@),
        views(voices@),
    ));
    actions
}

/// What a repair does, in order: see `repair_actions_spec`.
pub fn repair_actions(manifest_fields: &[String], voices: &[String], installed: &[String]) -> (actions:
    Vec<RunAction>)
    ensures
        run_action_views(actions@) == repair_actions_spec(
            views(manifest_fields@),
            views(voices@),
            views(installed@),
        ),
{
    let mut actions: Vec<RunAction> = Vec::new();
    actions.push(RunAction::CreateGameDir);
    assert(run_action_views(actions@) =~= seq![RunActionView::CreateGameDir]);
    match repair_plan(manifest_fields, voices, installed) {
        Ok(steps) => {
            let ghost sv = step_views(steps@);
            push_runs(&mut actions, steps);
            let ghost mid = run_action_views(actions@);
            assert(mid =~= seq![RunActionView::CreateGameDir] + sv.map_values(
                |st: StepView| RunActionView::Run(st),
            ));
            let done = "Repair complete".to_owned();
            let ghost dv = done@;
            actions.push(RunAction::Finish(done));
            assert(run_action_views(actions@) =~= mid.push(RunActionView::Finish(dv)));
            assert(run_action_views(actions@) =~= seq![RunActionView::CreateGameDir] + (
            sv.map_values(|st: StepView| RunActionView::Run(st)) + seq![
                RunActionView::Finish("Repair complete"@),
            ]));
        },
        Err(e) => {
            let text = e.message();
            proof {
                match e {
                    VoiceError::Unknown { name, available } => {
                        assert(text@ == unknown_voice_message(
                            name@,
                            voice_fields_spec(views(manifest_fields@)),
                        ));
                    },
                }
            }
            actions.push(RunAction::Fail(text));
        },
    }
    assert(run_action_views(actions@) =~= repair_actions_spec(
        views(manifest_fields@),
        views(voices@),
        views(installed@),
    ));
    actions
}

/// The event every run of the engine begins with.
pub fn run_start() -> (e: Event)
    ensures
        e@ == EventView::Phase("Fetching game info"@),
{
    Event::Phase("Fetching game info".to_owned())
}

/// The events of an update that finds `latest` installed already; the run
/// then ends without any step and without writing `.version`.
pub fn up_to_date_events(latest: &str) -> (events: Vec<Event>)
    ensures
        event_views(events@) == seq![
            EventView::Phase("Already up to date"@),
            EventView::Message("Already at the latest version "@ + latest@),
        ],
{
    let mut events: Vec<Event> = Vec::new();
    events.push(Event::Phase("Already up to date".to_owned()));
    events.push(Event::Message(up_to_date_message(latest)));
    assert(event_views(events@) =~= seq![
        EventView::Phase("Already up to date"@),
        EventView::Message("Already at the latest version "@ + latest@),
    ]);
    events
}

/// The start of an update: when the installed version `current` is the
/// latest one, the events the run ends with at once (no step runs, no
/// directory is created and `.version` stays as it is); else none, and the
/// update goes on.
pub fn up_to_date_check(current: Option<&str>, latest: &str) -> (ends: Option<Vec<Event>>)
    ensures
        match ends {
            Some(events) => opt_view(current) == Some(latest@) && event_views(events@) == seq![
                EventView::Phase("Already up to date"@),
                EventView::Message("Already at the latest version "@ + latest@),
            ],
            None => opt_view(current) != Some(latest@),
        },
{
    if is_up_to_date(current, latest) {
        Some(up_to_date_events(latest))
    } else {
        None
    }
}

/// How a run ends once all its steps went well: whether the installed
/// version is then recorded in `.version`, and the message of the last event.
pub struct RunEnd {
    pub writes_version: bool,
    pub message: String,
}

/// The end of a run of `kind` whose steps all went well; `latest` is the
/// version an update brought. A download and an update record the version;
/// a pre-download and a repair leave `.version` as it is.
pub fn run_end(kind: WorkKind, latest: &str) -> (end: RunEnd)
    ensures
        end.writes_version == (kind == WorkKind::Download || kind == WorkKind::Update),
        end.message@ == match kind {
            WorkKind::Download => "Download complete"@,
            WorkKind::Update => "Updated to "@ + latest@,
            WorkKind::Predownload => "Pre-download complete, install with the same --temp to reuse the chunks"@,
            WorkKind::Repair => "Repair complete"@,
        },
{
    match kind {
        WorkKind::Download => RunEnd { writes_version: true, message: "Download complete".to_owned() },
        WorkKind::Update => RunEnd { writes_version: true, message: updated_message(latest) },
        WorkKind::Predownload => RunEnd {
            writes_version: false,
            message: "Pre-download complete, install with the same --temp to reuse the chunks".to_owned(),
        },
        WorkKind::Repair => RunEnd { writes_version: false, message: "Repair complete".to_owned() },
    }
}

/// The message that ends a successful update to `latest`.
pub fn updated_message(latest: &str) -> (text: String)
    ensures
        text@ == "Updated to "@ + latest@,
{
    append_str("Updated to ", latest)
}

/// The message of an update that finds `latest` installed already.
pub fn up_to_date_message(latest: &str) -> (text: String)
    ensures
        text@ == "Already at the latest version "@ + latest@,
{
    append_str("Already at the latest version ", latest)
}


// ---------------------------------------------------------------------------
// Laws
// ---------------------------------------------------------------------------

/// A full download without a voice request installs the game alone.
pub proof fn law_download_defaults_to_game_only(manifest_fields: Seq<Seq<char>>)
    requires
        manifest_fields.contains("game"@),
    ensures
        download_plan_spec(manifest_fields, Seq::empty()) == Ok::<Seq<StepView>, Option<Seq<char>>>(
            seq![StepView::Install("game"@)],
        ),
{
    crate::voice::law_empty_request_default(voice_fields_spec(manifest_fields), false);
    assert(listed_fields(Seq::empty(), manifest_fields) =~= Seq::<Seq<char>>::empty());
    assert(seq![StepView::Install("game"@)] + Seq::<Seq<char>>::empty().map_values(
        |f: Seq<char>| StepView::Install(f),
    ) =~= seq![StepView::Install("game"@)]);
}

/// A full download always begins with the game manifest.
pub proof fn law_download_begins_with_game(
    manifest_fields: Seq<Seq<char>>,
    voices: Seq<Seq<char>>,
)
    ensures
        download_plan_spec(manifest_fields, voices) matches Ok(steps) ==> steps.len() >= 1
            && steps[0] == StepView::Install("game"@),
{
}

/// Without an installed version nothing is patched: an update downloads the
/// game and its voices in full.
pub proof fn law_update_without_version_downloads(
    has_game_diff: bool,
    diff_tags: Seq<Seq<char>>,
    fields: Seq<Seq<char>>,
    diff_fields: Seq<Seq<char>>,
)
    ensures
        !(has_game_diff && can_patch_spec(None, diff_tags)),
        forall|k: int|
            0 <= k < fields.len() ==> #[trigger] update_voice_step(fields[k], diff_fields, false)
                == StepView::InstallIfListed(fields[k]),
{
}

/// A version that the package lists no diff from is never patched.
pub proof fn law_no_diff_no_patch(current: Seq<char>, diff_tags: Seq<Seq<char>>)
    requires
        !diff_tags.contains(current),
    ensures
        !can_patch_spec(Some(current), diff_tags),
{
}

/// A pre-download without a voice request covers every available voice.
pub proof fn law_pre_download_defaults_to_all(manifest_fields: Seq<Seq<char>>)
    ensures
        resolve_spec(Seq::empty(), voice_fields_spec(manifest_fields), true) == Ok::<
            Seq<Seq<char>>,
            Seq<char>,
        >(voice_fields_spec(manifest_fields)),
{
    crate::voice::law_empty_request_default(voice_fields_spec(manifest_fields), true);
}

/// A version tag written to `.version` reads back as itself: a non-empty tag
/// without white space at either end is its own trimmed text, so
/// `version_text` gives it back unchanged.
pub proof fn law_version_tag_reads_back(tag: Seq<char>)
    requires
        tag.len() > 0,
        !is_white(tag[0]),
        !is_white(tag.last()),
    ensures
        trimmed(tag) == tag,
        trimmed(tag).len() > 0,
{
    lemma_trimmed_self(tag);
}

/// A repair or an update without a voice request covers the installed voices.
pub proof fn law_repair_defaults_to_installed(listed: Seq<Seq<char>>, installed: Seq<Seq<char>>)
    ensures
        resolve_request_spec(Seq::empty(), listed, installed) == Ok::<Seq<Seq<char>>, Seq<char>>(
            installed,
        ),
{
}

/// For a repair or an update, a request that names `all` (and not `none`)
/// means every listed voice pack, whatever is installed.
pub proof fn law_all_means_every_listed_voice(
    requested: Seq<Seq<char>>,
    listed: Seq<Seq<char>>,
    installed: Seq<Seq<char>>,
)
    requires
        requested.contains("all"@),
        !requested.contains("none"@),
    ensures
        resolve_request_spec(requested, listed, installed) == Ok::<Seq<Seq<char>>, Seq<char>>(
            listed,
        ),
{
}

/// Every voice field of a manifest list is one of its fields.
proof fn lemma_voice_fields_listed(fields: Seq<Seq<char>>)
    ensures
        forall|k: int|
            0 <= k < voice_fields_spec(fields).len() ==> fields.contains(
                #[trigger] voice_fields_spec(fields)[k],
            ),
    decreases fields.len(),
{
    if fields.len() > 0 {
        let init = fields.drop_last();
        lemma_voice_fields_listed(init);
        let all = voice_fields_spec(fields);
        let before = voice_fields_spec(init);
        assert forall|k: int| 0 <= k < all.len() implies fields.contains(#[trigger] all[k]) by {
            if k < before.len() {
                assert(all[k] == before[k]);
                let j = choose|j: int| 0 <= j < init.len() && init[j] == before[k];
                assert(fields[j] == init[j]);
            } else {
                assert(all[k] == fields.last());
                assert(fields[fields.len() - 1] == fields.last());
            }
        }
    }
}

/// Fields that are all listed are all kept, in order.
proof fn lemma_listed_fields_all(fields: Seq<Seq<char>>, listed: Seq<Seq<char>>)
    requires
        forall|k: int| 0 <= k < fields.len() ==> listed.contains(#[trigger] fields[k]),
    ensures
        listed_fields(fields, listed) == fields,
    decreases fields.len(),
{
    if fields.len() > 0 {
        let init = fields.drop_last();
        assert forall|k: int| 0 <= k < init.len() implies listed.contains(#[trigger] init[k]) by {
            assert(init[k] == fields[k]);
        }
        lemma_listed_fields_all(init, listed);
        assert(fields[fields.len() - 1] == fields.last());
        assert(init.push(fields.last()) =~= fields);
    }
}

/// `--voice all` repairs the game (where listed) and every listed voice pack,
/// whatever is installed.
pub proof fn law_repair_all_covers_every_voice(
    manifest_fields: Seq<Seq<char>>,
    installed: Seq<Seq<char>>,
)
    ensures
        repair_plan_spec(manifest_fields, seq!["all"@], installed) == Ok::<Seq<StepView>, Seq<char>>(
            (if manifest_fields.contains("game"@) {
                seq![StepView::Repair("game"@)]
            } else {
                Seq::empty()
            }) + voice_fields_spec(manifest_fields).map_values(|f: Seq<char>| StepView::Repair(f)),
        ),
{
    let req = seq!["all"@];
    reveal_strlit("all");
    reveal_strlit("none");
    assert(req[0] == "all"@);
    assert(req.contains("all"@));
    assert(!req.contains("none"@)) by {
        if req.contains("none"@) {
            assert(req[0] == "none"@);
            assert(("all"@).len() != ("none"@).len());
        }
    }
    lemma_voice_fields_listed(manifest_fields);
    lemma_listed_fields_all(voice_fields_spec(manifest_fields), manifest_fields);
}

/// `--voice all` updates every listed voice pack, whatever is installed.
pub proof fn law_update_all_covers_every_voice(
    manifest_fields: Seq<Seq<char>>,
    installed: Seq<Seq<char>>,
)
    ensures
        resolve_request_spec(seq!["all"@], voice_fields_spec(manifest_fields), installed) == Ok::<
            Seq<Seq<char>>,
            Seq<char>,
        >(voice_fields_spec(manifest_fields)),
{
    let req = seq!["all"@];
    reveal_strlit("all");
    reveal_strlit("none");
    assert(req[0] == "all"@);
    assert(req.contains("all"@));
    assert(!req.contains("none"@)) by {
        if req.contains("none"@) {
            assert(req[0] == "none"@);
            assert(("all"@).len() != ("none"@).len());
        }
    }
}

/// A run fails exactly when one of its reports marked a failure: the
/// failure a monitor remembers over a run is that of `installer_run_failed`
/// (and `patcher_run_failed`), which holds exactly when some report fails.
pub proof fn law_run_fails_iff_a_report_fails(i: Seq<InstallerUpdate>, p: Seq<PatcherUpdate>)
    ensures
        installer_run_failed(i) <==> exists|k: int| 0 <= k < i.len() && installer_fails(#[trigger] i[k]),
        patcher_run_failed(p) <==> exists|k: int| 0 <= k < p.len() && patcher_fails(#[trigger] p[k]),
    decreases i.len() + p.len(),
{
    if i.len() > 0 {
        law_run_fails_iff_a_report_fails(i.drop_last(), p);
        let init = i.drop_last();
        if installer_run_failed(init) {
            let k = choose|k: int| 0 <= k < init.len() && installer_fails(#[trigger] init[k]);
            assert(i[k] == init[k]);
        }
        if exists|k: int| 0 <= k < i.len() && installer_fails(#[trigger] i[k]) {
            let k = choose|k: int| 0 <= k < i.len() && installer_fails(#[trigger] i[k]);
            if k < init.len() {
                assert(init[k] == i[k]);
            } else {
                assert(i[k] == i.last());
            }
        }
        if installer_fails(i.last()) {
            assert(i[i.len() - 1] == i.last());
        }
    } else if p.len() > 0 {
        law_run_fails_iff_a_report_fails(i, p.drop_last());
        let init = p.drop_last();
        if patcher_run_failed(init) {
            let k = choose|k: int| 0 <= k < init.len() && patcher_fails(#[trigger] init[k]);
            assert(p[k] == init[k]);
        }
        if exists|k: int| 0 <= k < p.len() && patcher_fails(#[trigger] p[k]) {
            let k = choose|k: int| 0 <= k < p.len() && patcher_fails(#[trigger] p[k]);
            if k < init.len() {
                assert(init[k] == p[k]);
            } else {
                assert(p[k] == p.last());
            }
        }
        if patcher_fails(p.last()) {
            assert(p[p.len() - 1] == p.last());
        }
    }
}

/// A download whose plan fails (no game manifest, or an unknown voice)
/// does nothing but fail: it creates no directory, runs no step and records
/// no version.
pub proof fn law_failed_download_does_nothing(manifest_fields: Seq<Seq<char>>, voices: Seq<Seq<char>>)
    requires
        download_plan_spec(manifest_fields, voices) is Err,
    ensures
        download_actions_spec(manifest_fields, voices).len() == 1,
        download_actions_spec(manifest_fields, voices)[0] is Fail,
{
}

/// A download that goes ahead creates the game directory first, then runs
/// its steps, and records the version only after every step, just before it
/// ends well.
pub proof fn law_download_records_version_last(manifest_fields: Seq<Seq<char>>, voices: Seq<Seq<char>>)
    requires
        download_plan_spec(manifest_fields, voices) is Ok,
    ensures
        ({
            let a = download_actions_spec(manifest_fields, voices);
            &&& a.len() >= 3
            &&& a[0] == RunActionView::CreateGameDir
            &&& forall|k: int| 0 < k < a.len() - 2 ==> #[trigger] a[k] is Run
            &&& a[a.len() - 2] == RunActionView::WriteVersion
            &&& a.last() == RunActionView::Finish("Download complete"@)
        }),
{
    let steps = download_plan_spec(manifest_fields, voices)->Ok_0;
    let runs = steps.map_values(|st: StepView| RunActionView::Run(st));
    let a = download_actions_spec(manifest_fields, voices);
    assert forall|k: int| 0 < k < a.len() - 2 implies #[trigger] a[k] is Run by {
        assert(a[k] == runs[k - 1]);
    }
}

/// A repair creates the game directory first and never records the version;
/// it ends with its last action, well or with the unknown voice's error.
pub proof fn law_repair_never_records_version(
    manifest_fields: Seq<Seq<char>>,
    voices: Seq<Seq<char>>,
    installed: Seq<Seq<char>>,
)
    ensures
        ({
            let a = repair_actions_spec(manifest_fields, voices, installed);
            &&& a.len() >= 2
            &&& a[0] == RunActionView::CreateGameDir
            &&& forall|k: int| 0 <= k < a.len() ==> !(#[trigger] a[k] is WriteVersion)
            &&& (a.last() is Finish || a.last() is Fail)
            &&& forall|k: int| 0 < k < a.len() - 1 ==> #[trigger] a[k] is Run
        }),
{
    let a = repair_actions_spec(manifest_fields, voices, installed);
    match repair_plan_spec(manifest_fields, voices, installed) {
        Ok(steps) => {
            let runs = steps.map_values(|st: StepView| RunActionView::Run(st));
            assert forall|k: int| 0 <= k < a.len() implies !(#[trigger] a[k] is WriteVersion) by {
                if 0 < k < a.len() - 1 {
                    assert(a[k] == runs[k - 1]);
                }
            }
            assert forall|k: int| 0 < k < a.len() - 1 implies #[trigger] a[k] is Run by {
                assert(a[k] == runs[k - 1]);
            }
        },
        Err(_) => {},
    }
}

/// A pre-download whose download info could not be fetched goes on with no
/// listed manifest: it pre-downloads a diff where one exists and applies,
/// and skips every other field.
pub proof fn law_pre_download_without_listing(
    field: Seq<char>,
    diff_fields: Seq<Seq<char>>,
    patchable: bool,
)
    ensures
        pre_download_step_spec(field, diff_fields, Seq::empty(), patchable) == if diff_fields.contains(
            field,
        ) && patchable {
            Some(StepView::PreDownloadDiff(field))
        } else {
            None
        },
        voice_fields_spec(Seq::empty()) == Seq::<Seq<char>>::empty(),
{
}

/// Every listed field other than `game` is among the voice fields.
proof fn lemma_listed_voice_field(fields: Seq<Seq<char>>, x: Seq<char>)
    requires
        fields.contains(x),
        x != "game"@,
    ensures
        voice_fields_spec(fields).contains(x),
    decreases fields.len(),
{
    let init = fields.drop_last();
    let before = voice_fields_spec(init);
    if fields.last() == x {
        assert(voice_fields_spec(fields) == before.push(x));
        assert(voice_fields_spec(fields)[before.len() as int] == x);
    } else {
        let j = choose|j: int| 0 <= j < fields.len() && fields[j] == x;
        assert(j < fields.len() - 1);
        assert(init[j] == x);
        lemma_listed_voice_field(init, x);
        let k = choose|k: int| 0 <= k < before.len() && before[k] == x;
        if fields.last() != "game"@ {
            assert(voice_fields_spec(fields)[k] == before[k]);
        }
    }
}

/// A download that names voice packs (neither `none` nor `all`), each of
/// them listed, installs the game and then exactly the named packs, every
/// one of them, in the order they were named.
pub proof fn law_download_installs_every_named_voice(
    manifest_fields: Seq<Seq<char>>,
    voices: Seq<Seq<char>>,
)
    requires
        manifest_fields.contains("game"@),
        !voices.contains("none"@),
        !voices.contains("all"@),
        forall|k: int|
            0 <= k < voices.len() ==> manifest_fields.contains(#[trigger] voices[k]) && voices[k]
                != "game"@,
    ensures
        download_plan_spec(manifest_fields, voices) == Ok::<Seq<StepView>, Option<Seq<char>>>(
            seq![StepView::Install("game"@)] + voices.map_values(|f: Seq<char>| StepView::Install(f)),
        ),
{
    let avail = voice_fields_spec(manifest_fields);
    assert forall|k: int| 0 <= k < voices.len() implies avail.contains(#[trigger] voices[k]) by {
        lemma_listed_voice_field(manifest_fields, voices[k]);
    }
    if voices.len() > 0 {
        crate::voice::law_valid_request_is_kept(voices, avail, false);
    } else {
        assert(voices =~= Seq::<Seq<char>>::empty());
        assert(resolve_spec(voices, avail, false) == Ok::<Seq<Seq<char>>, Seq<char>>(voices));
    }
    assert forall|k: int| 0 <= k < voices.len() implies manifest_fields.contains(
        #[trigger] voices[k],
    ) by {}
    lemma_listed_fields_all(voices, manifest_fields);
}

/// A diff applies exactly when a version is installed and the package lists
/// it among the versions it has diffs from, whatever else it lists and in
/// whatever order.
pub proof fn law_patchable_iff_listed(current: Option<Seq<char>>, diff_tags: Seq<Seq<char>>)
    ensures
        can_patch_spec(current, diff_tags) <==> (current matches Some(c) && diff_tags.contains(c)),
{
}

/// A repair that resolves always repairs the game first when its manifest is
/// listed, whatever voices are requested (`none` included).
pub proof fn law_repair_begins_with_game(
    manifest_fields: Seq<Seq<char>>,
    voices: Seq<Seq<char>>,
    installed: Seq<Seq<char>>,
)
    requires
        manifest_fields.contains("game"@),
        repair_plan_spec(manifest_fields, voices, installed) is Ok,
    ensures
        repair_plan_spec(manifest_fields, voices, installed)->Ok_0.len() >= 1,
        repair_plan_spec(manifest_fields, voices, installed)->Ok_0[0] == StepView::Repair("game"@),
{
}

/// A repair that names `none` repairs the game alone (when listed) and no
/// voice pack.
pub proof fn law_repair_none_is_game_only(
    manifest_fields: Seq<Seq<char>>,
    voices: Seq<Seq<char>>,
    installed: Seq<Seq<char>>,
)
    requires
        voices.contains("none"@),
    ensures
        repair_plan_spec(manifest_fields, voices, installed) == Ok::<Seq<StepView>, Seq<char>>(
            if manifest_fields.contains("game"@) {
                seq![StepView::Repair("game"@)]
            } else {
                Seq::empty()
            },
        ),
{
    assert(voices.len() > 0);
    assert(listed_fields(Seq::<Seq<char>>::empty(), manifest_fields) =~= Seq::<Seq<char>>::empty());
    assert(Seq::<Seq<char>>::empty().map_values(|f: Seq<char>| StepView::Repair(f)) =~= Seq::<
        StepView,
    >::empty());
    if manifest_fields.contains("game"@) {
        assert(seq![StepView::Repair("game"@)] + Seq::<StepView>::empty() =~= seq![
            StepView::Repair("game"@),
        ]);
    } else {
        assert(Seq::<StepView>::empty() + Seq::<StepView>::empty() =~= Seq::<StepView>::empty());
    }
}

/// A report fails its step exactly when it gives an error event: no error
/// goes by without failing the step, and no step fails without an error.
pub proof fn law_error_events_fail_the_step(i: InstallerUpdate, p: PatcherUpdate, phase: Seq<char>)
    ensures
        installer_fails(i) <==> exists|k: int|
            0 <= k < installer_events(i, phase).len() && #[trigger] installer_events(i, phase)[k] is Error,
        patcher_fails(p) <==> exists|k: int|
            0 <= k < patcher_events(p).len() && #[trigger] patcher_events(p)[k] is Error,
{
    if installer_fails(i) {
        assert(installer_events(i, phase)[0] is Error);
    }
    if patcher_fails(p) {
        assert(patcher_events(p)[0] is Error);
    }
}

/// Every report that marks a failure also reports it as an error event, so
/// that no failure goes unseen.
pub proof fn law_failures_are_reported(i: InstallerUpdate, p: PatcherUpdate, phase: Seq<char>)
    ensures
        installer_fails(i) ==> installer_events(i, phase).len() == 1 && installer_events(
            i,
            phase,
        )[0] is Error,
        patcher_fails(p) ==> patcher_events(p).len() == 1 && patcher_events(p)[0] is Error,
{
}

} // verus!
