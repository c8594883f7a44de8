//! Voiceover package selection: which `matching_field` values name voice
//! packs, how a request is resolved against what is available, and how the
//! comma separated command line argument is split.
use vstd::prelude::*;

use crate::text::{
    chars_of, comma_pieces, append_str, join, joined, lemma_split_joined, lemma_trimmed_clean,
    push_str, str_eq, trim_bounds, trimmed, views,
};

verus! {

/// The fields of `fields` that are not `"game"`, in order.
pub open spec fn voice_fields_spec(fields: Seq<Seq<char>>) -> Seq<Seq<char>>
    decreases fields.len(),
{
    if fields.len() == 0 {
        Seq::empty()
    } else {
        let init = voice_fields_spec(fields.drop_last());
        if fields.last() == "game"@ {
            init
        } else {
            init.push(fields.last())
        }
    }
}

/// The views of a sequence of string slices.
pub open spec fn str_views(s: Seq<&str>) -> Seq<Seq<char>> {
    s.map_values(|x: &str| x@)
}

/// The first requested name that is not among `available`, if any.
pub open spec fn first_unknown(requested: Seq<Seq<char>>, available: Seq<Seq<char>>) -> Option<
    Seq<char>,
>
    decreases requested.len(),
{
    if requested.len() == 0 {
        None
    } else if !available.contains(requested[0]) {
        Some(requested[0])
    } else {
        first_unknown(requested.drop_first(), available)
    }
}

/// How a voiceover request resolves: `Ok` with the voices to install, or
/// `Err` with the first requested voice that is not available.
///
/// - a request that names `none` => no voices
/// - an empty request => all available voices if `default_all`, else none
/// - a request that names `all` => all available voices
/// - otherwise every requested voice must be available, and the request is
///   kept as it is
pub open spec fn resolve_spec(
    requested: Seq<Seq<char>>,
    available: Seq<Seq<char>>,
    default_all: bool,
) -> Result<Seq<Seq<char>>, Seq<char>> {
    if requested.contains("none"@) {
        Ok(Seq::empty())
    } else if requested.len() == 0 {
        Ok(
            if default_all {
                available
            } else {
                Seq::empty()
            },
        )
    } else if requested.contains("all"@) {
        Ok(available)
    } else {
        match first_unknown(requested, available) {
            Some(name) => Err(name),
            None => Ok(requested),
        }
    }
}

/// The locale code of a voiceover folder name.
pub open spec fn folder_code(folder: Seq<char>) -> Option<Seq<char>> {
    if folder == "English(US)"@ || folder == "English"@ {
        Some("en-us"@)
    } else if folder == "Japanese"@ {
        Some("ja-jp"@)
    } else if folder == "Korean"@ {
        Some("ko-kr"@)
    } else if folder == "Chinese"@ || folder == "Chinese(PRC)"@ {
        Some("zh-cn"@)
    } else {
        None
    }
}

/// The locale codes of those of `folders` that name a voiceover folder, in
/// order.
pub open spec fn folder_codes(folders: Seq<Seq<char>>) -> Seq<Seq<char>>
    decreases folders.len(),
{
    if folders.len() == 0 {
        Seq::empty()
    } else {
        let init = folder_codes(folders.drop_last());
        match folder_code(folders.last()) {
            Some(code) => init.push(code),
            None => init,
        }
    }
}

/// The trimmed, non-empty pieces among `pieces`, in order.
pub open spec fn kept_pieces(pieces: Seq<Seq<char>>) -> Seq<Seq<char>>
    decreases pieces.len(),
{
    if pieces.len() == 0 {
        Seq::empty()
    } else {
        let init = kept_pieces(pieces.drop_last());
        let t = trimmed(pieces.last());
        if t.len() > 0 {
            init.push(t)
        } else {
            init
        }
    }
}

/// The voiceover codes of a comma separated argument: its pieces, trimmed,
/// with the empty ones left out. No argument gives no codes.
pub open spec fn parse_arg_spec(s: Option<Seq<char>>) -> Seq<Seq<char>> {
    match s {
        Some(t) => kept_pieces(comma_pieces(t)),
        None => Seq::empty(),
    }
}

/// A requested voiceover package that is not available.
#[derive(Debug)]
pub enum VoiceError {
    Unknown { name: String, available: Vec<String> },
}

impl VoiceError {
    /// `text` is this error's text: the unknown name and the available ones.
    pub open spec fn message_spec(&self, text: Seq<char>) -> bool {
        match self {
            VoiceError::Unknown { name, available } => text == "unknown voiceover package '"@
                + name@ + "', available: "@ + joined(views(available@), ", "@),
        }
    }

    /// The error's text: the unknown name and the available ones.
    pub fn message(&self) -> (text: String)
        ensures
            self.message_spec(text@),
    {
        match self {
            VoiceError::Unknown { name, available } => {
                let mut text = append_str("unknown voiceover package '", name.as_str());
                push_str(&mut text, "', available: ");
                let list = join(available.as_slice(), ", ");
                push_str(&mut text, list.as_str());
                text
            },
        }
    }
}

/// Copies of the strings of `v`, in order.
pub fn clone_strings(v: &[String]) -> (out: Vec<String>)
    ensures
        views(out@) == views(v@),
{
    let mut out: Vec<String> = Vec::new();
    let mut i: usize = 0;
    while i < v.len()
        invariant
            i <= v@.len(),
            views(out@) == views(v@).take(i as int),
        decreases v@.len() - i,
    {
        let c = v[i].clone();
        assert(c@ == v@[i as int]@);
        let ghost before = views(out@);
        out.push(c);
        assert(views(out@) =~= before.push(c@));
        assert(views(v@).take(i + 1) =~= views(v@).take(i as int).push(v@[i as int]@));
        i = i + 1;
    }
    assert(views(v@).take(v@.len() as int) =~= views(v@));
    out
}

/// Whether one of `list` holds the characters of `word`.
pub fn mentions(list: &[String], word: &str) -> (found: bool)
    ensures
        found == views(list@).contains(word@),
{
    let mut i: usize = 0;
    while i < list.len()
        invariant
            i <= list@.len(),
            forall|k: int| 0 <= k < i ==> list@[k]@ != word@,
        decreases list@.len() - i,
    {
        if str_eq(list[i].as_str(), word) {
            assert(views(list@)[i as int] == word@);
            return true;
        }
        i = i + 1;
    }
    proof {
        if views(list@).contains(word@) {
            let k = choose|k: int| 0 <= k < views(list@).len() && views(list@)[k] == word@;
            assert(list@[k]@ == word@);
        }
    }
    false
}

/// Collect all voiceover `matching_field` values from the given manifest
/// fields. The `game` field itself is always excluded.
pub fn voice_fields(fields: &[&str]) -> (voices: Vec<String>)
    ensures
        views(voices@) == voice_fields_spec(str_views(fields@)),
{
    let ghost fs = str_views(fields@);
    let mut voices: Vec<String> = Vec::new();
    let mut i: usize = 0;
    while i < fields.len()
        invariant
            fs == str_views(fields@),
            i <= fields@.len(),
            views(voices@) == voice_fields_spec(fs.take(i as int)),
        decreases fields@.len() - i,
    {
        let f = fields[i];
        assert(fs.take(i + 1).drop_last() =~= fs.take(i as int));
        if !str_eq(f, "game") {
            voices.push(f.to_owned());
        }
        i = i + 1;
        assert(views(voices@) =~= voice_fields_spec(fs.take(i as int)));
    }
    assert(fs.take(fields@.len() as int) =~= fs);
    voices
}

proof fn lemma_first_unknown_none(requested: Seq<Seq<char>>, available: Seq<Seq<char>>)
    requires
        forall|k: int| 0 <= k < requested.len() ==> available.contains(#[trigger] requested[k]),
    ensures
        first_unknown(requested, available) is None,
    decreases requested.len(),
{
    if requested.len() > 0 {
        assert(available.contains(requested[0]));
        assert forall|k: int| 0 <= k < requested.drop_first().len() implies available.contains(
            #[trigger] requested.drop_first()[k],
        ) by {
            assert(requested.drop_first()[k] == requested[k + 1]);
        }
        lemma_first_unknown_none(requested.drop_first(), available);
    }
}

proof fn lemma_first_unknown_at(requested: Seq<Seq<char>>, available: Seq<Seq<char>>, i: int)
    requires
        0 <= i < requested.len(),
        forall|k: int| 0 <= k < i ==> available.contains(#[trigger] requested[k]),
        !available.contains(requested[i]),
    ensures
        first_unknown(requested, available) == Some(requested[i]),
    decreases i,
{
    if i > 0 {
        assert(available.contains(requested[0]));
        assert forall|k: int| 0 <= k < i - 1 implies available.contains(
            #[trigger] requested.drop_first()[k],
        ) by {
            assert(requested.drop_first()[k] == requested[k + 1]);
        }
        lemma_first_unknown_at(requested.drop_first(), available, i - 1);
    }
}

/// Resolve the requested voiceover fields against the available ones.
///
/// - empty request + `default_all` => all available voices
/// - empty request + !`default_all` => no voices
/// - `all` => all available voices
/// - `none` => no voices
/// - otherwise validate every requested field against the available list
pub fn resolve(requested: &[String], available: &[String], default_all: bool) -> (resolved: Result<
    Vec<String>,
    VoiceError,
>)
    ensures
        match resolved {
            Ok(v) => resolve_spec(views(requested@), views(available@), default_all) == Ok::<
                Seq<Seq<char>>,
                Seq<char>,
            >(views(v@)),
            Err(VoiceError::Unknown { name, available: listed }) => resolve_spec(
                views(requested@),
                views(available@),
                default_all,
            ) == Err::<Seq<Seq<char>>, Seq<char>>(name@) && views(listed@) == views(available@),
        },
{
    let ghost req = views(requested@);
    let ghost avail = views(available@);
    let none: Vec<String> = Vec::new();
    assert(views(none@) =~= Seq::<Seq<char>>::empty());
    if mentions(requested, "none") {
        return Ok(none);
    }
    if requested.len() == 0 {
        if default_all {
            return Ok(clone_strings(available));
        } else {
            return Ok(none);
        }
    }
    if mentions(requested, "all") {
        return Ok(clone_strings(available));
    }
    let mut i: usize = 0;
    while i < requested.len()
        invariant
            req == views(requested@),
            avail == views(available@),
            !req.contains("none"@),
            !req.contains("all"@),
            req.len() > 0,
            i <= requested@.len(),
            forall|k: int| 0 <= k < i ==> avail.contains(#[trigger] req[k]),
        decreases requested@.len() - i,
    {
        if !mentions(available, requested[i].as_str()) {
            proof {
                lemma_first_unknown_at(req, avail, i as int);
            }
            let name = requested[i].clone();
            assert(name@ == req[i as int]);
            let listed = clone_strings(available);
            assert(resolve_spec(req, avail, default_all) == Err::<Seq<Seq<char>>, Seq<char>>(
                name@,
            ));
            return Err(VoiceError::Unknown { name, available: listed });
        }
        i = i + 1;
    }
    proof {
        lemma_first_unknown_none(req, avail);
    }
    Ok(clone_strings(requested))
}

/// How the voice request of an update or a repair resolves: an empty request
/// keeps the installed voices; any other request resolves against the voice
/// packs that are listed for download, so that `all` means every one of them
/// and a named voice must be among them.
pub open spec fn resolve_request_spec(
    requested: Seq<Seq<char>>,
    listed: Seq<Seq<char>>,
    installed: Seq<Seq<char>>,
) -> Result<Seq<Seq<char>>, Seq<char>> {
    if requested.len() == 0 {
        Ok(installed)
    } else {
        resolve_spec(requested, listed, false)
    }
}

/// Resolves the voice request of an update or a repair: the installed voices
/// when nothing is requested, else the request against the listed voice packs.
pub fn resolve_request(requested: &[String], listed: &[String], installed: &[String]) -> (resolved:
    Result<Vec<String>, VoiceError>)
    ensures
        match resolved {
            Ok(v) => resolve_request_spec(views(requested@), views(listed@), views(installed@))
                == Ok::<Seq<Seq<char>>, Seq<char>>(views(v@)),
            Err(VoiceError::Unknown { name, available }) => resolve_request_spec(
                views(requested@),
                views(listed@),
                views(installed@),
            ) == Err::<Seq<Seq<char>>, Seq<char>>(name@) && views(available@) == views(listed@),
        },
{
    if requested.len() == 0 {
        Ok(clone_strings(installed))
    } else {
        resolve(requested, listed, false)
    }
}

/// Map a voiceover folder name to its locale code, as used by the Sophon
/// manifest/diff `matching_field` values.
pub fn folder_to_code(folder: &str) -> (code: Option<&'static str>)
    ensures
        match code {
            Some(c) => folder_code(folder@) == Some(c@),
            None => folder_code(folder@) is None,
        },
{
    if str_eq(folder, "English(US)") || str_eq(folder, "English") {
        Some("en-us")
    } else if str_eq(folder, "Japanese") {
        Some("ja-jp")
    } else if str_eq(folder, "Korean") {
        Some("ko-kr")
    } else if str_eq(folder, "Chinese") || str_eq(folder, "Chinese(PRC)") {
        Some("zh-cn")
    } else {
        None
    }
}

/// The locale codes of the voiceover folders among `folders` (the names of
/// the directories found in the game's `AudioAssets` folder), in order.
pub fn codes_of_folders(folders: &[String]) -> (codes: Vec<String>)
    ensures
        views(codes@) == folder_codes(views(folders@)),
{
    let ghost fs = views(folders@);
    let mut codes: Vec<String> = Vec::new();
    let mut i: usize = 0;
    while i < folders.len()
        invariant
            fs == views(folders@),
            i <= folders@.len(),
            views(codes@) == folder_codes(fs.take(i as int)),
        decreases folders@.len() - i,
    {
        assert(fs.take(i + 1).drop_last() =~= fs.take(i as int));
        match folder_to_code(folders[i].as_str()) {
            Some(c) => codes.push(c.to_owned()),
            None => {},
        }
        i = i + 1;
        assert(views(codes@) =~= folder_codes(fs.take(i as int)));
    }
    assert(fs.take(folders@.len() as int) =~= fs);
    codes
}

/// Adds the trimmed `piece` to `out` unless it is empty.
fn keep_piece(out: &mut Vec<String>, piece: &Vec<char>)
    ensures
        views(final(out)@) == if trimmed(piece@).len() > 0 {
            views(old(out)@).push(trimmed(piece@))
        } else {
            views(old(out)@)
        },
{
    let (a, b) = trim_bounds(piece.as_slice());
    if a < b {
        let mut s = String::new();
        crate::text::push_range(&mut s, piece.as_slice(), a, b);
        assert(s@ =~= trimmed(piece@));
        out.push(s);
        assert(views(out@) =~= views(old(out)@).push(trimmed(piece@)));
    }
}

/// Split a comma separated voiceover argument list
pub fn parse_arg(s: Option<&str>) -> (codes: Vec<String>)
    ensures
        views(codes@) == parse_arg_spec(
            match s {
                Some(t) => Some(t@),
                None => None,
            },
        ),
{
    let mut codes: Vec<String> = Vec::new();
    match s {
        None => codes,
        Some(t) => {
            let cs = chars_of(t);
            let mut cur: Vec<char> = Vec::new();
            let ghost mut done: Seq<Seq<char>> = Seq::empty();
            let mut i: usize = 0;
            assert(cs@.take(0) =~= Seq::<char>::empty());
            assert(comma_pieces(cs@.take(0)) =~= done.push(cur@));
            while i < cs.len()
                invariant
                    cs@ == t@,
                    i <= cs@.len(),
                    comma_pieces(cs@.take(i as int)) == done.push(cur@),
                    views(codes@) == kept_pieces(done),
                decreases cs@.len() - i,
            {
                let c = cs[i];
                let ghost pre = cs@.take(i as int);
                assert(cs@.take(i + 1).drop_last() =~= pre);
                assert(cs@.take(i + 1).last() == c);
                if c == ',' {
                    keep_piece(&mut codes, &cur);
                    proof {
                        assert(done.push(cur@).drop_last() =~= done);
                        done = done.push(cur@);
                    }
                    cur = Vec::new();
                    assert(comma_pieces(cs@.take(i + 1)) =~= done.push(cur@));
                } else {
                    let ghost old_cur = cur@;
                    cur.push(c);
                    assert(comma_pieces(cs@.take(i + 1)) =~= done.push(old_cur).update(
                        done.len() as int,
                        old_cur.push(c),
                    ));
                    assert(done.push(old_cur).update(done.len() as int, old_cur.push(c))
                        =~= done.push(cur@));
                }
                i = i + 1;
            }
            assert(cs@.take(cs@.len() as int) =~= cs@);
            keep_piece(&mut codes, &cur);
            assert(done.push(cur@).drop_last() =~= done);
            codes
        },
    }
}


// ---------------------------------------------------------------------------
// Laws
// ---------------------------------------------------------------------------

proof fn lemma_first_unknown_none_all(requested: Seq<Seq<char>>, available: Seq<Seq<char>>)
    requires
        first_unknown(requested, available) is None,
    ensures
        forall|k: int| 0 <= k < requested.len() ==> available.contains(#[trigger] requested[k]),
    decreases requested.len(),
{
    if requested.len() > 0 {
        lemma_first_unknown_none_all(requested.drop_first(), available);
        assert forall|k: int| 0 <= k < requested.len() implies available.contains(
            #[trigger] requested[k],
        ) by {
            if k > 0 {
                assert(requested[k] == requested.drop_first()[k - 1]);
            }
        }
    }
}

/// Every voice a request resolves to is an available one.
pub proof fn law_resolved_voices_are_available(
    requested: Seq<Seq<char>>,
    available: Seq<Seq<char>>,
    default_all: bool,
)
    ensures
        resolve_spec(requested, available, default_all) matches Ok(voices) ==> forall|k: int|
            0 <= k < voices.len() ==> available.contains(#[trigger] voices[k]),
{
    if !requested.contains("none"@) && requested.len() > 0 && !requested.contains("all"@) {
        if first_unknown(requested, available) is None {
            lemma_first_unknown_none_all(requested, available);
        }
    }
    assert forall|k: int| 0 <= k < available.len() implies available.contains(
        #[trigger] available[k],
    ) by {}
}

/// A request that names `none` installs no voice, whatever else it names.
pub proof fn law_none_wins(requested: Seq<Seq<char>>, available: Seq<Seq<char>>, default_all: bool)
    requires
        requested.contains("none"@),
    ensures
        resolve_spec(requested, available, default_all) == Ok::<Seq<Seq<char>>, Seq<char>>(
            Seq::empty(),
        ),
{
}

/// An empty request installs every available voice where the operation
/// defaults to all, and none where it defaults to none.
pub proof fn law_empty_request_default(available: Seq<Seq<char>>, default_all: bool)
    ensures
        resolve_spec(Seq::empty(), available, default_all) == Ok::<Seq<Seq<char>>, Seq<char>>(
            if default_all {
                available
            } else {
                Seq::empty()
            },
        ),
{
    assert(!Seq::<Seq<char>>::empty().contains("none"@));
}

/// A request of available voices only (and neither `none` nor `all`)
/// resolves to itself, in its own order.
pub proof fn law_valid_request_is_kept(
    requested: Seq<Seq<char>>,
    available: Seq<Seq<char>>,
    default_all: bool,
)
    requires
        requested.len() > 0,
        !requested.contains("none"@),
        !requested.contains("all"@),
        forall|k: int| 0 <= k < requested.len() ==> available.contains(#[trigger] requested[k]),
    ensures
        resolve_spec(requested, available, default_all) == Ok::<Seq<Seq<char>>, Seq<char>>(
            requested,
        ),
{
    lemma_first_unknown_none(requested, available);
}

/// The game manifest is never taken for a voice pack.
pub proof fn law_voice_fields_exclude_game(fields: Seq<Seq<char>>)
    ensures
        !voice_fields_spec(fields).contains("game"@),
    decreases fields.len(),
{
    if fields.len() > 0 {
        law_voice_fields_exclude_game(fields.drop_last());
        let init = voice_fields_spec(fields.drop_last());
        if fields.last() != "game"@ {
            assert forall|k: int| 0 <= k < init.push(fields.last()).len() implies #[trigger] init.push(
                fields.last(),
            )[k] != "game"@ by {
                if k < init.len() {
                    assert(init.push(fields.last())[k] == init[k]);
                }
            }
        }
    }
}


/// Pieces that are non-empty and trimmed already are all kept, as they are.
pub proof fn lemma_kept_all(parts: Seq<Seq<char>>)
    requires
        forall|k: int|
            0 <= k < parts.len() ==> (#[trigger] parts[k]).len() > 0 && trimmed(parts[k])
                == parts[k],
    ensures
        kept_pieces(parts) == parts,
    decreases parts.len(),
{
    if parts.len() > 0 {
        let init = parts.drop_last();
        assert forall|k: int| 0 <= k < init.len() implies (#[trigger] init[k]).len() > 0 && trimmed(
            init[k],
        ) == init[k] by {
            assert(init[k] == parts[k]);
        }
        lemma_kept_all(init);
        assert(parts[parts.len() - 1] == parts.last());
        assert(init.push(parts.last()) =~= parts);
    }
}


/// No piece between commas holds a comma.
proof fn lemma_comma_pieces_no_comma(s: Seq<char>)
    ensures
        forall|k: int|
            0 <= k < comma_pieces(s).len() ==> !(#[trigger] comma_pieces(s)[k]).contains(','),
    decreases s.len(),
{
    if s.len() > 0 {
        lemma_comma_pieces_no_comma(s.drop_last());
        let init = comma_pieces(s.drop_last());
        crate::text::lemma_comma_pieces_len(s.drop_last());
        if s.last() != ',' {
            let last = init.last().push(s.last());
            assert(!last.contains(',')) by {
                if last.contains(',') {
                    let j = choose|j: int| 0 <= j < last.len() && last[j] == ',';
                    if j < init.last().len() {
                        assert(init.last()[j] == ',');
                        assert(init[init.len() - 1] == init.last());
                    }
                }
            }
            let all = comma_pieces(s);
            assert forall|k: int| 0 <= k < all.len() implies !(#[trigger] all[k]).contains(',') by {
                if k < init.len() - 1 {
                    assert(all[k] == init[k]);
                }
            }
        } else {
            let all = comma_pieces(s);
            assert forall|k: int| 0 <= k < all.len() implies !(#[trigger] all[k]).contains(',') by {
                if k < init.len() {
                    assert(all[k] == init[k]);
                } else {
                    assert(all[k] =~= Seq::<char>::empty());
                }
            }
        }
    }
}

/// The pieces kept from comma-free pieces are non-empty, trimmed and free of
/// commas.
proof fn lemma_kept_pieces_clean(pieces: Seq<Seq<char>>)
    requires
        forall|k: int| 0 <= k < pieces.len() ==> !(#[trigger] pieces[k]).contains(','),
    ensures
        forall|k: int|
            0 <= k < kept_pieces(pieces).len() ==> {
                let p = #[trigger] kept_pieces(pieces)[k];
                &&& p.len() > 0
                &&& trimmed(p) == p
                &&& !p.contains(',')
            },
    decreases pieces.len(),
{
    if pieces.len() > 0 {
        let init = pieces.drop_last();
        assert forall|k: int| 0 <= k < init.len() implies !(#[trigger] init[k]).contains(',') by {
            assert(init[k] == pieces[k]);
        }
        lemma_kept_pieces_clean(init);
        let t = trimmed(pieces.last());
        lemma_trimmed_clean(pieces.last());
        assert(!pieces.last().contains(',')) by {
            assert(pieces[pieces.len() - 1] == pieces.last());
        }
        let all = kept_pieces(pieces);
        let before = kept_pieces(init);
        assert forall|k: int| 0 <= k < all.len() implies {
            let p = #[trigger] all[k];
            &&& p.len() > 0
            &&& trimmed(p) == p
            &&& !p.contains(',')
        } by {
            if k < before.len() {
                assert(all[k] == before[k]);
            } else {
                assert(all[k] == t);
                assert(!t.contains(',')) by {
                    if t.contains(',') {
                        assert(pieces.last().contains(','));
                    }
                }
            }
        }
    }
}

/// Every voice code read from an argument is non-empty, trimmed and free of
/// commas.
pub proof fn law_parsed_voices_are_clean(s: Seq<char>)
    ensures
        forall|k: int|
            0 <= k < parse_arg_spec(Some(s)).len() ==> {
                let v = #[trigger] parse_arg_spec(Some(s))[k];
                &&& v.len() > 0
                &&& trimmed(v) == v
                &&& !v.contains(',')
            },
{
    lemma_comma_pieces_no_comma(s);
    lemma_kept_pieces_clean(comma_pieces(s));
}

/// Joining the codes read from an argument with commas gives an argument
/// that reads back as the same codes.
pub proof fn law_parse_arg_reads_back(s: Seq<char>)
    ensures
        parse_arg_spec(Some(joined(parse_arg_spec(Some(s)), ","@))) == parse_arg_spec(Some(s)),
{
    let codes = parse_arg_spec(Some(s));
    law_parsed_voices_are_clean(s);
    if codes.len() == 0 {
        assert(joined(codes, ","@) =~= Seq::<char>::empty());
        assert(comma_pieces(Seq::<char>::empty()) =~= seq![Seq::<char>::empty()]);
        assert(trimmed(Seq::<char>::empty()) =~= Seq::<char>::empty());
        assert(kept_pieces(Seq::<Seq<char>>::empty()) =~= Seq::<Seq<char>>::empty());
        assert(seq![Seq::<char>::empty()].drop_last() =~= Seq::<Seq<char>>::empty());
        assert(seq![Seq::<char>::empty()].last() == Seq::<char>::empty());
        assert(kept_pieces(seq![Seq::<char>::empty()]) =~= Seq::<Seq<char>>::empty());
    } else {
        assert forall|k: int| 0 <= k < codes.len() implies !(#[trigger] codes[k]).contains(',') by {}
        lemma_split_joined(codes);
        assert forall|k: int| 0 <= k < codes.len() implies (#[trigger] codes[k]).len() > 0
            && trimmed(codes[k]) == codes[k] by {}
        lemma_kept_all(codes);
    }
}

} // verus!
