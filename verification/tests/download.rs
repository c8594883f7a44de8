use genshin_dl::cmd::WorkKind;
use genshin_dl::download::{
    can_patch, download_plan, installer_update_events, is_up_to_date, patcher_update_events,
    pre_download_step, pre_download_voice_steps, repair_plan, up_to_date_message,
    update_game_step, update_voice_steps, updated_message, version_text, run_end, run_start, up_to_date_events, download_actions, repair_actions,
    up_to_date_check, RunAction, DlError, StepMonitor, Event, InstallerUpdate,
    PatcherUpdate, Step,
};

fn phases_from(update: InstallerUpdate, phase: &str) -> Vec<String> {
    let (events, _failed) = installer_update_events(update, phase);
    events
        .into_iter()
        .filter_map(|event| match event {
            Event::Phase(phase) => Some(phase),
            _ => None,
        })
        .collect()
}

fn strings(v: &[&str]) -> Vec<String> {
    v.iter().map(|s| s.to_string()).collect()
}

fn describe(steps: &[Step]) -> Vec<String> {
    steps
        .iter()
        .map(|s| match s {
            Step::Install(f) => format!("install {f}"),
            Step::InstallIfListed(f) => format!("install? {f}"),
            Step::Patch(f) => format!("patch {f}"),
            Step::PreDownloadManifest(f) => format!("pre {f}"),
            Step::PreDownloadDiff(f) => format!("prediff {f}"),
            Step::Repair(f) => format!("repair {f}"),
        })
        .collect()
}

#[test]
fn checking_files_advances_phase() {
    assert_eq!(
        phases_from(
            InstallerUpdate::CheckingFiles { total_files: 10 },
            "Repairing game"
        ),
        vec!["Checking files".to_owned()]
    );
}

#[test]
fn downloading_started_restores_action_phase() {
    let phases = phases_from(
        InstallerUpdate::DownloadingStarted {
            location: ".".to_owned(),
            total_bytes: 100,
            total_files: 2,
        },
        "Repairing game",
    );
    assert!(phases.contains(&"Repairing game".to_owned()));
}

#[test]
fn checking_free_space_reports_phase() {
    assert_eq!(
        phases_from(
            InstallerUpdate::CheckingFreeSpace(".".to_owned()),
            "Repairing game"
        ),
        vec!["Checking free space".to_owned()]
    );
}

#[test]
fn downloading_started_resets_both_counters() {
    let (events, failed) = installer_update_events(
        InstallerUpdate::DownloadingStarted {
            location: ".".to_owned(),
            total_bytes: 100,
            total_files: 2,
        },
        "Downloading game",
    );
    assert!(!failed);
    assert_eq!(events.len(), 3);
    assert!(matches!(&events[0], Event::Phase(p) if p == "Downloading game"));
    assert!(matches!(events[1], Event::ProgressBytes { downloaded: 0, total: 100 }));
    assert!(matches!(events[2], Event::ProgressFiles { downloaded: 0, total: 2 }));
}

#[test]
fn installer_error_marks_failure() {
    let (events, failed) =
        installer_update_events(InstallerUpdate::DownloadingError("boom".to_owned()), "x");
    assert!(failed);
    assert!(matches!(&events[..], [Event::Error(e)] if e == "boom"));
    let (_, failed) = installer_update_events(
        InstallerUpdate::DownloadingProgressBytes {
            downloaded_bytes: 5,
            total_bytes: 9,
        },
        "x",
    );
    assert!(!failed);
}

#[test]
fn patcher_reports_map_to_events() {
    let (events, failed) = patcher_update_events(PatcherUpdate::FileHashCheckFailed(
        "GenshinImpact_Data/x.blk".to_owned(),
    ));
    assert!(failed);
    assert!(
        matches!(&events[..], [Event::Error(e)] if e == "file hash check failed: GenshinImpact_Data/x.blk")
    );
    let (events, failed) = patcher_update_events(PatcherUpdate::DeletingProgress {
        deleted_files: 3,
        total_unused: 7,
    });
    assert!(!failed);
    assert!(matches!(events[..], [Event::ProgressFiles { downloaded: 3, total: 7 }]));
    let (events, failed) = patcher_update_events(PatcherUpdate::PatchingError("bad".to_owned()));
    assert!(failed);
    assert!(matches!(&events[..], [Event::Error(e)] if e == "bad"));
    let (events, _) = patcher_update_events(PatcherUpdate::DownloadingStarted(".".to_owned()));
    assert!(matches!(&events[..], [Event::Phase(p)] if p == "Downloading update"));
    let (events, _) = patcher_update_events(PatcherUpdate::PatchingFinished);
    assert!(matches!(&events[..], [Event::Phase(p)] if p == "Patching finished"));
}

#[test]
fn download_plan_installs_game_then_voices() {
    let fields = strings(&["game", "en-us", "ja-jp"]);
    let plan = download_plan(&fields, &strings(&["ja-jp"])).unwrap();
    assert_eq!(describe(&plan), vec!["install game", "install ja-jp"]);
    let plan = download_plan(&fields, &[]).unwrap();
    assert_eq!(describe(&plan), vec!["install game"]);
    let plan = download_plan(&fields, &strings(&["all"])).unwrap();
    assert_eq!(
        describe(&plan),
        vec!["install game", "install en-us", "install ja-jp"]
    );
}

#[test]
fn download_plan_errors() {
    assert!(matches!(
        download_plan(&strings(&["en-us"]), &[]),
        Err(DlError::NoGameManifest)
    ));
    assert_eq!(
        DlError::NoGameManifest.message(),
        "no game download manifest found"
    );
    let err = download_plan(&strings(&["game", "en-us"]), &strings(&["game"])).unwrap_err();
    assert_eq!(
        err.message(),
        "unknown voiceover package 'game', available: en-us"
    );
}

#[test]
fn repair_plan_uses_installed_voices() {
    let fields = strings(&["game", "en-us", "ja-jp"]);
    let plan = repair_plan(&fields, &[], &strings(&["ja-jp", "ko-kr"])).unwrap();
    assert_eq!(describe(&plan), vec!["repair game", "repair ja-jp"]);
    let plan = repair_plan(&strings(&["en-us"]), &strings(&["none"]), &[]).unwrap();
    assert!(plan.is_empty());
    let plan = repair_plan(&fields, &strings(&["en-us"]), &strings(&["ja-jp"])).unwrap();
    assert_eq!(describe(&plan), vec!["repair game", "repair en-us"]);
    let err = repair_plan(&fields, &strings(&["xx"]), &strings(&["ja-jp"])).unwrap_err();
    assert_eq!(err.message(), "unknown voiceover package 'xx', available: en-us, ja-jp");
}

#[test]
fn repair_all_covers_every_listed_voice() {
    let plan = repair_plan(&strings(&["game", "ko-kr"]), &strings(&["all"]), &[]).unwrap();
    assert_eq!(describe(&plan), vec!["repair game", "repair ko-kr"]);
}

#[test]
fn update_decisions() {
    let tags = strings(&["5.0.0", "5.1.0"]);
    assert!(is_up_to_date(Some("5.2.0"), "5.2.0"));
    assert!(!is_up_to_date(None, "5.2.0"));
    assert!(!is_up_to_date(Some("5.1.0"), "5.2.0"));
    assert!(can_patch(Some("5.1.0"), &tags));
    assert!(!can_patch(Some("4.8.0"), &tags));
    assert!(!can_patch(None, &tags));
    assert!(matches!(update_game_step(true, Some("5.1.0"), &tags), Step::Patch(f) if f == "game"));
    assert!(matches!(update_game_step(true, Some("4.8.0"), &tags), Step::Install(f) if f == "game"));
    assert!(matches!(update_game_step(false, Some("5.1.0"), &tags), Step::Install(f) if f == "game"));
    let steps = update_voice_steps(
        &[],
        &strings(&["en-us", "ja-jp"]),
        &strings(&["game", "en-us", "ja-jp", "ko-kr"]),
        &strings(&["game", "en-us"]),
        Some("5.1.0"),
        &tags,
    )
    .unwrap();
    assert_eq!(describe(&steps), vec!["patch en-us", "install? ja-jp"]);
    let steps = update_voice_steps(
        &[],
        &strings(&["en-us"]),
        &strings(&["game", "en-us"]),
        &strings(&["en-us"]),
        None,
        &tags,
    )
    .unwrap();
    assert_eq!(describe(&steps), vec!["install? en-us"]);
    let steps = update_voice_steps(
        &strings(&["all"]),
        &strings(&["en-us"]),
        &strings(&["game", "en-us", "ko-kr"]),
        &strings(&["game", "en-us"]),
        Some("5.1.0"),
        &tags,
    )
    .unwrap();
    assert_eq!(describe(&steps), vec!["patch en-us", "install? ko-kr"]);
    assert_eq!(updated_message("5.2.0"), "Updated to 5.2.0");
    assert_eq!(
        up_to_date_message("5.2.0"),
        "Already at the latest version 5.2.0"
    );
}

#[test]
fn pre_download_decisions() {
    let manifests = strings(&["game", "en-us", "ja-jp"]);
    let diffs = strings(&["game", "en-us"]);
    assert!(matches!(pre_download_step("game", &diffs, &manifests, true), Some(Step::PreDownloadDiff(f)) if f == "game"));
    assert!(matches!(pre_download_step("game", &diffs, &manifests, false), Some(Step::PreDownloadManifest(f)) if f == "game"));
    assert!(pre_download_step("ko-kr", &diffs, &manifests, true).is_none());
    let steps = pre_download_voice_steps(&[], &manifests, &diffs, true).unwrap();
    assert_eq!(describe(&steps), vec!["prediff en-us", "pre ja-jp"]);
    let steps = pre_download_voice_steps(&strings(&["none"]), &manifests, &diffs, true).unwrap();
    assert!(steps.is_empty());
}

#[test]
fn step_texts() {
    let s = Step::Repair("game".to_owned());
    assert_eq!(s.phase(), "Repairing game");
    assert_eq!(s.failure(), "repair failed for 'game'");
    assert_eq!(s.setup_failure(), "failed to init repairer for 'game'");
    assert_eq!(s.field(), "game");
    let s = Step::InstallIfListed("en-us".to_owned());
    assert_eq!(s.phase(), "Downloading en-us");
    assert_eq!(s.failure(), "download failed for 'en-us'");
    assert_eq!(s.setup_failure(), "failed to init installer for 'en-us'");
    let s = Step::Patch("game".to_owned());
    assert_eq!(s.phase(), "Patching game");
    assert_eq!(s.failure(), "patching failed for 'game'");
    assert_eq!(s.setup_failure(), "failed to init patcher for 'game'");
    let s = Step::PreDownloadDiff("ja-jp".to_owned());
    assert_eq!(s.phase(), "Pre-downloading ja-jp");
    assert_eq!(s.failure(), "pre-download failed for 'ja-jp'");
}

#[test]
fn version_file_contents() {
    assert_eq!(version_text("5.4.0\n"), Some("5.4.0".to_owned()));
    assert_eq!(version_text("  5.5.0  "), Some("5.5.0".to_owned()));
    assert_eq!(version_text(" \n\t"), None);
    assert_eq!(version_text(""), None);
}

#[test]
fn a_failed_report_fails_the_step() {
    let step = Step::Install("game".to_owned());
    let mut monitor = StepMonitor::new();
    let events = monitor.installer_report(InstallerUpdate::DownloadingFinished, "Downloading game");
    assert_eq!(events.len(), 1);
    assert_eq!(monitor.outcome(&step), Ok(()));
    let events = monitor.installer_report(
        InstallerUpdate::DownloadingError("chunk 7 broken".to_owned()),
        "Downloading game",
    );
    assert!(matches!(&events[..], [Event::Error(e)] if e == "chunk 7 broken"));
    monitor.installer_report(InstallerUpdate::DownloadingFinished, "Downloading game");
    assert_eq!(monitor.outcome(&step), Err("download failed for 'game'".to_owned()));

    let patch = Step::Patch("en-us".to_owned());
    let mut monitor = StepMonitor::new();
    monitor.patcher_report(PatcherUpdate::FileHashCheckFailed("a.pck".to_owned()));
    assert_eq!(monitor.outcome(&patch), Err("patching failed for 'en-us'".to_owned()));
}

#[test]
fn runs_begin_and_end() {
    assert!(matches!(run_start(), Event::Phase(p) if p == "Fetching game info"));
    let events = up_to_date_events("5.2.0");
    assert!(matches!(&events[..], [Event::Phase(p), Event::Message(m)]
        if p == "Already up to date" && m == "Already at the latest version 5.2.0"));
    let end = run_end(WorkKind::Download, "5.2.0");
    assert!(end.writes_version);
    assert_eq!(end.message, "Download complete");
    let end = run_end(WorkKind::Update, "5.2.0");
    assert!(end.writes_version);
    assert_eq!(end.message, "Updated to 5.2.0");
    let end = run_end(WorkKind::Predownload, "5.3.0");
    assert!(!end.writes_version);
    assert_eq!(end.message, "Pre-download complete, install with the same --temp to reuse the chunks");
    let end = run_end(WorkKind::Repair, "5.2.0");
    assert!(!end.writes_version);
    assert_eq!(end.message, "Repair complete");
}

fn describe_actions(actions: &[RunAction]) -> Vec<String> {
    actions
        .iter()
        .map(|a| match a {
            RunAction::CreateGameDir => "mkdir".to_owned(),
            RunAction::Run(st) => format!("run {}", st.field()),
            RunAction::WriteVersion => "write version".to_owned(),
            RunAction::Finish(m) => format!("finish {m}"),
            RunAction::Fail(e) => format!("fail {e}"),
        })
        .collect()
}

#[test]
fn download_and_repair_actions_in_order() {
    let fields = strings(&["game", "en-us", "ja-jp"]);
    assert_eq!(
        describe_actions(&download_actions(&fields, &strings(&["ja-jp"]))),
        vec!["mkdir", "run game", "run ja-jp", "write version", "finish Download complete"]
    );
    assert_eq!(
        describe_actions(&download_actions(&fields, &strings(&["xx"]))),
        vec!["fail unknown voiceover package 'xx', available: en-us, ja-jp"]
    );
    assert_eq!(
        describe_actions(&download_actions(&strings(&["en-us"]), &[])),
        vec!["fail no game download manifest found"]
    );
    assert_eq!(
        describe_actions(&repair_actions(&fields, &[], &strings(&["en-us"]))),
        vec!["mkdir", "run game", "run en-us", "finish Repair complete"]
    );
    assert_eq!(
        describe_actions(&repair_actions(&fields, &strings(&["xx"]), &[])),
        vec!["mkdir", "fail unknown voiceover package 'xx', available: en-us, ja-jp"]
    );
}

#[test]
fn update_stops_when_up_to_date() {
    let events = up_to_date_check(Some("5.2.0"), "5.2.0").unwrap();
    assert_eq!(events.len(), 2);
    assert!(up_to_date_check(Some("5.1.0"), "5.2.0").is_none());
    assert!(up_to_date_check(None, "5.2.0").is_none());
}

#[test]
fn pre_download_without_listing_uses_diffs_only() {
    let diffs = strings(&["game"]);
    assert!(matches!(pre_download_step("game", &diffs, &[], true), Some(Step::PreDownloadDiff(_))));
    assert!(pre_download_step("game", &diffs, &[], false).is_none());
    assert!(pre_download_voice_steps(&[], &[], &diffs, true).unwrap().is_empty());
}
