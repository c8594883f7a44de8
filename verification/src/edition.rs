//! Game editions (Global and China) and their fixed identifiers.
use vstd::prelude::*;

use crate::text::str_eq;

verus! {

/// A published edition of the game.
#[derive(Debug, Clone, Copy, PartialEq, Eq, Structural)]
pub enum Edition {
    Global,
    China,
}

/// The name of an edition, as the command line and the TUI show it.
pub open spec fn edition_name(e: Edition) -> Seq<char> {
    match e {
        Edition::Global => "global"@,
        Edition::China => "china"@,
    }
}

/// The game id of an edition in the Sophon API.
pub open spec fn edition_game_id(e: Edition) -> Seq<char> {
    match e {
        Edition::Global => "gopR6Cufr3"@,
        Edition::China => "1Z8W5NHUQb"@,
    }
}

/// The game data folder of an edition.
pub open spec fn edition_data_folder(e: Edition) -> Seq<char> {
    match e {
        Edition::Global => "GenshinImpact_Data"@,
        Edition::China => "YuanShen_Data"@,
    }
}

/// The position of an edition in `Edition::ALL`.
pub open spec fn edition_index(e: Edition) -> int {
    match e {
        Edition::Global => 0,
        Edition::China => 1,
    }
}

/// The edition at position `i` of `Edition::ALL`.
pub open spec fn edition_at(i: int) -> Edition {
    if i == 0 {
        Edition::Global
    } else {
        Edition::China
    }
}

/// The edition a lower-cased name denotes, if any.
pub open spec fn edition_of_lowercase(name: Seq<char>) -> Option<Edition> {
    if name == "global"@ {
        Some(Edition::Global)
    } else if name == "china"@ || name == "cn"@ {
        Some(Edition::China)
    } else {
        None
    }
}

/// Every character of `s` is ASCII.
pub open spec fn is_ascii_text(s: Seq<char>) -> bool {
    forall|i: int| 0 <= i < s.len() ==> (#[trigger] s[i] as u32) < 128
}

/// The lower-case form of one ASCII character: `A`..`Z` become `a`..`z`,
/// every other character stays.
pub open spec fn ascii_lower_char(c: char) -> char {
    if 'A' <= c && c <= 'Z' {
        ((c as u32) + 32) as char
    } else {
        c
    }
}

/// `s` with each character lower-cased as ASCII.
pub open spec fn ascii_lowercase(s: Seq<char>) -> Seq<char> {
    s.map_values(|c: char| ascii_lower_char(c))
}

/// The lower-case form of `s` that `str::to_lowercase` gives.
pub uninterp spec fn lowercase(s: Seq<char>) -> Seq<char>;

/// Calls `str::to_lowercase`; the result is taken to be `lowercase` of the
/// argument. Of the Unicode case mapping only its ASCII part is stated: on
/// ASCII text, `A`..`Z` become `a`..`z` and every other character stays.
#[verifier::external_body]
fn to_lowercase(s: &str) -> (lower: String)
    ensures
        lower@ == lowercase(s@),
        is_ascii_text(s@) ==> lower@ == ascii_lowercase(s@),
{
    s.to_lowercase()
}

/// A name that denotes no edition.
#[derive(Debug)]
pub enum EditionError {
    Unknown(String),
}

impl EditionError {
    /// The error's text.
    pub fn message(&self) -> (text: String)
        ensures
            match self {
                EditionError::Unknown(name) => text@ == "unknown edition: "@ + name@,
            },
    {
        match self {
            EditionError::Unknown(name) => crate::text::append_str("unknown edition: ", name.as_str()),
        }
    }
}

impl Edition {
    pub const ALL: [Edition; 2] = [Edition::Global, Edition::China];

    pub fn as_str(self) -> (name: &'static str)
        ensures
            name@ == edition_name(self),
    {
        match self {
            Self::Global => "global",
            Self::China => "china",
        }
    }

    pub fn game_id(self) -> (id: &'static str)
        ensures
            id@ == edition_game_id(self),
    {
        match self {
            Self::Global => "gopR6Cufr3",
            Self::China => "1Z8W5NHUQb",
        }
    }

    /// Game data folder, used to locate the voiceover packages path
    pub fn data_folder(self) -> (folder: &'static str)
        ensures
            folder@ == edition_data_folder(self),
    {
        match self {
            Self::Global => "GenshinImpact_Data",
            Self::China => "YuanShen_Data",
        }
    }

    /// The position of this edition in `Edition::ALL`.
    pub fn index(self) -> (i: usize)
        ensures
            i == edition_index(self),
            Self::ALL@[i as int] == self,
    {
        match self {
            Self::Global => 0,
            Self::China => 1,
        }
    }

    /// The edition `delta` places after this one in `Edition::ALL`, going
    /// round at either end.
    pub fn shifted(self, delta: i8) -> (e: Edition)
        requires
            edition_index(self) + delta <= 127,
        ensures
            e == edition_at((edition_index(self) + delta) % 2),
    {
        let idx: i8 = if self.index() == 0 {
            0
        } else {
            1
        };
        let sum: i16 = idx as i16 + delta as i16;
        let odd: bool = if sum >= 0 {
            (sum as u16) % 2 == 1
        } else {
            ((-sum) as u16) % 2 == 1
        };
        proof {
            let s = sum as int;
            if s >= 0 {
                assert(odd == (s % 2 == 1));
            } else {
                assert((-s) % 2 == 1 <==> s % 2 == 1) by (nonlinear_arith)
                    requires
                        s < 0,
                ;
            }
        }
        if odd {
            Edition::China
        } else {
            Edition::Global
        }
    }

    /// The edition a lower-cased name denotes: `global`, or `china` / `cn`.
    pub fn from_lowercase(name: &str) -> (parsed: Result<Edition, EditionError>)
        ensures
            match parsed {
                Ok(e) => edition_of_lowercase(name@) == Some(e),
                Err(EditionError::Unknown(other)) => edition_of_lowercase(name@) is None
                    && other@ == name@,
            },
    {
        if str_eq(name, "global") {
            Ok(Self::Global)
        } else if str_eq(name, "china") || str_eq(name, "cn") {
            Ok(Self::China)
        } else {
            Err(EditionError::Unknown(name.to_owned()))
        }
    }

    /// The edition that `s` names, whatever its letter case.
    pub fn parse(s: &str) -> (parsed: Result<Edition, EditionError>)
        ensures
            match parsed {
                Ok(e) => edition_of_lowercase(lowercase(s@)) == Some(e),
                Err(EditionError::Unknown(other)) => edition_of_lowercase(lowercase(s@)) is None
                    && other@ == lowercase(s@),
            },
            is_ascii_text(s@) ==> lowercase(s@) == ascii_lowercase(s@),
    {
        let lower = to_lowercase(s);
        Self::from_lowercase(lower.as_str())
    }
}

impl std::str::FromStr for Edition {
    type Err = EditionError;

    fn from_str(s: &str) -> (parsed: Result<Self, Self::Err>)
        ensures
            match parsed {
                Ok(e) => edition_of_lowercase(lowercase(s@)) == Some(e),
                Err(EditionError::Unknown(other)) => edition_of_lowercase(lowercase(s@)) is None
                    && other@ == lowercase(s@),
            },
            is_ascii_text(s@) ==> lowercase(s@) == ascii_lowercase(s@),
    {
        Edition::parse(s)
    }
}


/// The name of every edition is read back as that edition.
pub proof fn law_edition_names_read_back(e: Edition)
    ensures
        edition_of_lowercase(edition_name(e)) == Some(e),
{
    reveal_strlit("global");
    reveal_strlit("china");
    reveal_strlit("cn");
    if e == Edition::China {
        assert(edition_name(e) != "global"@) by {
            assert(edition_name(e).len() != ("global"@).len());
        }
    }
}

/// The name of every edition is ASCII and lower-case already, so parsing it,
/// in any letter case that lower-cases to it, gives that edition.
pub proof fn law_edition_names_parse(e: Edition)
    ensures
        is_ascii_text(edition_name(e)),
        ascii_lowercase(edition_name(e)) == edition_name(e),
        edition_of_lowercase(ascii_lowercase(edition_name(e))) == Some(e),
{
    reveal_strlit("global");
    reveal_strlit("china");
    let n = edition_name(e);
    assert(ascii_lowercase(n) =~= n);
    law_edition_names_read_back(e);
}

/// Lower-casing ASCII text twice gives what lower-casing it once gives, and
/// the text stays ASCII; so parsing ASCII text and parsing its lower-cased
/// form give the same result.
pub proof fn law_lowercase_twice(s: Seq<char>)
    requires
        is_ascii_text(s),
    ensures
        is_ascii_text(ascii_lowercase(s)),
        ascii_lowercase(ascii_lowercase(s)) == ascii_lowercase(s),
{
    let l = ascii_lowercase(s);
    assert forall|i: int| 0 <= i < l.len() implies (#[trigger] l[i] as u32) < 128 by {
        assert(l[i] == ascii_lower_char(s[i]));
        assert((s[i] as u32) < 128);
    }
    assert(ascii_lowercase(l) =~= l);
}

/// `Edition::ALL` lists each edition once, at its index.
pub proof fn law_editions_indexed(e: Edition)
    ensures
        0 <= edition_index(e) < 2,
        edition_at(edition_index(e)) == e,
        Edition::ALL@[edition_index(e)] == e,
{
}

} // verus!
