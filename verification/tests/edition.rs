use std::str::FromStr;

use genshin_dl::cli::EditionArg;
use genshin_dl::edition::Edition;

#[test]
fn parse_editions() {
    assert_eq!(Edition::from_str("global").unwrap(), Edition::Global);
    assert_eq!(Edition::from_str("china").unwrap(), Edition::China);
    assert_eq!(Edition::from_str("CN").unwrap(), Edition::China);
    assert!(Edition::from_str("jp").is_err());
}

#[test]
fn game_ids() {
    assert_eq!(Edition::Global.game_id(), "gopR6Cufr3");
    assert_eq!(Edition::China.game_id(), "1Z8W5NHUQb");
}

#[test]
fn edition_names_and_folders() {
    assert_eq!(Edition::Global.as_str(), "global");
    assert_eq!(Edition::China.as_str(), "china");
    assert_eq!(Edition::Global.data_folder(), "GenshinImpact_Data");
    assert_eq!(Edition::China.data_folder(), "YuanShen_Data");
}

#[test]
fn parse_is_case_insensitive_and_reports_lowercase() {
    assert_eq!(Edition::parse("Global").unwrap(), Edition::Global);
    assert_eq!(Edition::parse("ChInA").unwrap(), Edition::China);
    let err = Edition::parse("JP").unwrap_err();
    assert_eq!(err.message(), "unknown edition: jp");
}

#[test]
fn from_lowercase_needs_lowercase() {
    assert_eq!(Edition::from_lowercase("cn").unwrap(), Edition::China);
    assert!(Edition::from_lowercase("CN").is_err());
}

#[test]
fn names_read_back() {
    for e in Edition::ALL {
        assert_eq!(Edition::from_lowercase(e.as_str()).unwrap(), e);
        assert_eq!(Edition::ALL[e.index()], e);
    }
}

#[test]
fn shifting_goes_round() {
    assert_eq!(Edition::Global.shifted(1), Edition::China);
    assert_eq!(Edition::Global.shifted(-1), Edition::China);
    assert_eq!(Edition::China.shifted(1), Edition::Global);
    assert_eq!(Edition::China.shifted(-1), Edition::Global);
    assert_eq!(Edition::China.shifted(2), Edition::China);
    assert_eq!(Edition::Global.shifted(-128), Edition::Global);
    assert_eq!(Edition::China.shifted(-3), Edition::Global);
}

#[test]
fn edition_arg_converts() {
    assert_eq!(Edition::from(EditionArg::Global), Edition::Global);
    assert_eq!(Edition::from(EditionArg::China), Edition::China);
    assert_eq!(EditionArg::default(), EditionArg::Global);
}
