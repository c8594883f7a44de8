use genshin_dl::cli::Command;
use genshin_dl::cmd::{
    branch_line, edition_heading, manifest_line, manifests_heading, progress_output, run,
    size_of_text, Job, ProgressOutput, WorkKind,
};
use genshin_dl::download::Event;
use genshin_dl::edition::Edition;
use genshin_dl::text::{
    append_str, contains, decimal_string, join, pad_left, pad_right, parse_unsigned, str_eq, trim,
};

#[test]
fn trimming() {
    assert_eq!(trim("  a b \t\n"), "a b");
    assert_eq!(trim("\u{00A0}x\u{2003}"), "x");
    assert_eq!(trim("   "), "");
    assert_eq!(trim(""), "");
}

#[test]
fn decimals_and_parsing() {
    assert_eq!(decimal_string(0), "0");
    assert_eq!(decimal_string(1234567890), "1234567890");
    assert_eq!(decimal_string(u64::MAX), u64::MAX.to_string());
    assert_eq!(parse_unsigned("18446744073709551615", u64::MAX), Some(u64::MAX));
    assert_eq!(parse_unsigned("18446744073709551616", u64::MAX), None);
    assert_eq!(parse_unsigned("+7", u64::MAX), Some(7));
    assert_eq!(parse_unsigned("+", u64::MAX), None);
    assert_eq!(parse_unsigned("", u64::MAX), None);
    assert_eq!(parse_unsigned("1 2", u64::MAX), None);
    assert_eq!(parse_unsigned("300", 255), None);
    assert_eq!(parse_unsigned("0255", 255), Some(255));
}

#[test]
fn joining_padding_searching() {
    let parts = vec!["a".to_owned(), "b".to_owned(), "c".to_owned()];
    assert_eq!(join(&parts, ", "), "a, b, c");
    assert_eq!(join(&[], ", "), "");
    assert_eq!(pad_right("ab", 5), "ab   ");
    assert_eq!(pad_left("ab", 5), "   ab");
    assert_eq!(pad_left("abcdef", 3), "abcdef");
    assert!(contains("Pre-downloading game", "downloading"));
    assert!(!contains("abc", "abcd"));
    assert!(contains("abc", ""));
    assert!(str_eq("é", "é"));
    assert_eq!(append_str("a", "b"), "ab");
}

#[test]
fn listing_lines() {
    assert_eq!(edition_heading(Edition::China), "== Edition: china ==");
    assert_eq!(
        branch_line(Some("5.2.0"), None, "gopR6Cufr3", "hk4e_global"),
        format!(
            "  version {:<12} pre-download {:<12} id={} biz={}",
            "5.2.0", "-", "gopR6Cufr3", "hk4e_global"
        )
    );
    assert_eq!(
        manifests_heading("5.2.0"),
        "Download manifests for version 5.2.0:"
    );
    assert_eq!(
        manifest_line("game", "68.3 GB", "80.1 GB", "2673", "107342"),
        format!(
            "  {:<10} compressed {:>10}  uncompressed {:>10}  files {}  chunks {}",
            "game", "68.3 GB", "80.1 GB", "2673", "107342"
        )
    );
    assert_eq!(size_of_text("1024"), 1024);
    assert_eq!(size_of_text("n/a"), 0);
}

#[test]
fn commands_become_jobs() {
    assert!(matches!(run(Command::List, Edition::China), Job::List(Edition::China)));
    let job = run(
        Command::Update {
            dest: "/g".to_owned(),
            threads: 4,
            temp: Some("/t".to_owned()),
            voice: vec!["en-us".to_owned()],
            no_free_space_check: true,
        },
        Edition::Global,
    );
    match job {
        Job::Work(r) => {
            assert_eq!(r.kind, WorkKind::Update);
            assert_eq!(r.dest, "/g");
            assert_eq!(r.threads, 4);
            assert_eq!(r.temp.as_deref(), Some("/t"));
            assert_eq!(r.voices, vec!["en-us".to_owned()]);
            assert!(r.no_free_space_check);
        }
        _ => panic!("expected work"),
    }
}

#[test]
fn progress_display_follows_events() {
    let mut phase = String::new();
    match progress_output(&mut phase, Event::Phase("Downloading game".to_owned())) {
        ProgressOutput::Status(text) => assert_eq!(text, "Downloading game..."),
        _ => panic!("a phase shows on the status line"),
    }
    assert_eq!(phase, "Downloading game");
    assert!(matches!(
        progress_output(&mut phase, Event::ProgressBytes { downloaded: 5, total: 10 }),
        ProgressOutput::Bytes { position: 5, length: 10 }
    ));
    assert!(matches!(
        progress_output(&mut phase, Event::ProgressFiles { downloaded: 1, total: 2 }),
        ProgressOutput::Files { position: 1, length: 2 }
    ));
    match progress_output(&mut phase, Event::Error("bad chunk".to_owned())) {
        ProgressOutput::Error { logged, shown } => {
            assert_eq!(logged, "bad chunk");
            assert_eq!(shown, "ERROR: bad chunk");
        }
        _ => panic!("an error is logged and shown"),
    }
    match progress_output(&mut phase, Event::Finished(Ok(()))) {
        ProgressOutput::Finished { message, failure } => {
            assert_eq!(message, "Downloading game - ok");
            assert!(failure.is_none());
        }
        _ => panic!("the run ends"),
    }
    match progress_output(&mut phase, Event::Finished(Err("no space".to_owned()))) {
        ProgressOutput::Finished { message, failure } => {
            assert_eq!(message, "Downloading game - failed");
            assert_eq!(failure, Some("no space".to_owned()));
        }
        _ => panic!("the run ends"),
    }
    assert_eq!(phase, "Downloading game");
}
