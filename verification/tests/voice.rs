use genshin_dl::voice::{codes_of_folders, folder_to_code, parse_arg, resolve, voice_fields, VoiceError};

fn strings(v: &[&str]) -> Vec<String> {
    v.iter().map(|s| s.to_string()).collect()
}

#[test]
fn resolve_empty() {
    let available = vec!["en-us".to_string(), "ja-jp".to_string()];
    assert_eq!(resolve(&[], &available, true).unwrap(), available);
    assert!(resolve(&[], &available, false).unwrap().is_empty());
}

#[test]
fn resolve_none() {
    let available = vec!["en-us".to_string(), "ja-jp".to_string()];
    assert!(resolve(&["none".to_string()], &available, true)
        .unwrap()
        .is_empty());
    assert!(resolve(&["none".to_string()], &available, false)
        .unwrap()
        .is_empty());
}

#[test]
fn resolve_all() {
    let available = vec!["en-us".to_string(), "ja-jp".to_string()];
    assert_eq!(
        resolve(&["all".to_string()], &available, false).unwrap(),
        available
    );
}

#[test]
fn resolve_selected() {
    let available = vec!["en-us".to_string(), "ja-jp".to_string()];
    assert_eq!(
        resolve(&["en-us".to_string()], &available, false).unwrap(),
        vec!["en-us".to_string()]
    );
}

#[test]
fn resolve_unknown() {
    let available = vec!["en-us".to_string()];
    assert!(resolve(&["xx".to_string()], &available, false).is_err());
}

#[test]
fn resolve_unknown_names_first_unknown_and_lists_available() {
    let available = strings(&["en-us", "ja-jp"]);
    let err = resolve(&strings(&["ja-jp", "xx", "yy"]), &available, true).unwrap_err();
    match &err {
        VoiceError::Unknown { name, available: listed } => {
            assert_eq!(name, "xx");
            assert_eq!(listed, &available);
        }
    }
    assert_eq!(
        err.message(),
        "unknown voiceover package 'xx', available: en-us, ja-jp"
    );
}

#[test]
fn resolve_none_beats_unknown_and_all() {
    let available = strings(&["en-us"]);
    assert!(resolve(&strings(&["xx", "none", "all"]), &available, false)
        .unwrap()
        .is_empty());
    assert_eq!(
        resolve(&strings(&["xx", "all"]), &available, false).unwrap(),
        available
    );
}

#[test]
fn resolve_keeps_request_order() {
    let available = strings(&["en-us", "ja-jp", "ko-kr"]);
    assert_eq!(
        resolve(&strings(&["ko-kr", "en-us"]), &available, true).unwrap(),
        strings(&["ko-kr", "en-us"])
    );
}

#[test]
fn voice_fields_skips_game() {
    let fields = vec!["game", "en-us", "ja-jp"];
    assert_eq!(voice_fields(&fields), vec!["en-us", "ja-jp"]);
}

#[test]
fn folder_names_map_to_locale_codes() {
    assert_eq!(folder_to_code("English(US)"), Some("en-us"));
    assert_eq!(folder_to_code("English"), Some("en-us"));
    assert_eq!(folder_to_code("Japanese"), Some("ja-jp"));
    assert_eq!(folder_to_code("Korean"), Some("ko-kr"));
    assert_eq!(folder_to_code("Chinese"), Some("zh-cn"));
    assert_eq!(folder_to_code("Chinese(PRC)"), Some("zh-cn"));
    assert_eq!(folder_to_code("French"), None);
}

#[test]
fn detect_installed_returns_locale_codes() {
    let mut detected = codes_of_folders(&strings(&["English(US)", "Japanese", "unrelated"]));
    detected.sort();
    assert_eq!(detected, vec!["en-us", "ja-jp"]);
}

#[test]
fn parse_arg_splits_trims_and_drops_empty() {
    assert_eq!(parse_arg(Some(" en-us , ja-jp,,")), strings(&["en-us", "ja-jp"]));
    assert_eq!(parse_arg(Some("")), Vec::<String>::new());
    assert_eq!(parse_arg(None), Vec::<String>::new());
    assert_eq!(parse_arg(Some("all")), strings(&["all"]));
    assert_eq!(parse_arg(Some("\u{3000}ko-kr\t")), strings(&["ko-kr"]));
}

#[test]
fn parsed_voices_read_back_after_joining() {
    let codes = parse_arg(Some(" en-us , ,ja-jp ,"));
    assert_eq!(codes, vec!["en-us".to_owned(), "ja-jp".to_owned()]);
    let joined = genshin_dl::text::join(&codes, ",");
    assert_eq!(joined, "en-us,ja-jp");
    assert_eq!(parse_arg(Some(joined.as_str())), codes);
    assert!(parse_arg(Some(" , ")).is_empty());
    assert!(parse_arg(Some(genshin_dl::text::join(&parse_arg(Some(" , ")), ",").as_str())).is_empty());
}
