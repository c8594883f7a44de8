//! The voice pack picker: which of the fixed options are checked, and the
//! comma separated value that the selection stands for.
use vstd::prelude::*;

use crate::text::{
    comma_pieces, is_white, joined, lemma_split_joined, lemma_trimmed_self, push_str, trimmed,
    views,
};
use crate::voice::{kept_pieces, lemma_kept_all, mentions, parse_arg, parse_arg_spec};

verus! {

/// The number of options the picker offers.
pub const VOICE_OPTION_COUNT: usize = 6;

/// The code of option `i`: `none`, `all`, then the four voice packs.
pub open spec fn option_code(i: int) -> Seq<char> {
    if i == 0 {
        "none"@
    } else if i == 1 {
        "all"@
    } else if i == 2 {
        "en-us"@
    } else if i == 3 {
        "ja-jp"@
    } else if i == 4 {
        "ko-kr"@
    } else {
        "zh-cn"@
    }
}

/// The label shown for option `i`.
pub open spec fn option_label(i: int) -> Seq<char> {
    if i == 0 {
        "None"@
    } else if i == 1 {
        "All voices"@
    } else if i == 2 {
        "English"@
    } else if i == 3 {
        "Japanese"@
    } else if i == 4 {
        "Korean"@
    } else {
        "Chinese"@
    }
}

/// The code and the label of option `i`.
pub fn voice_option(i: usize) -> (option: (&'static str, &'static str))
    requires
        i < VOICE_OPTION_COUNT,
    ensures
        option.0@ == option_code(i as int),
        option.1@ == option_label(i as int),
{
    if i == 0 {
        ("none", "None")
    } else if i == 1 {
        ("all", "All voices")
    } else if i == 2 {
        ("en-us", "English")
    } else if i == 3 {
        ("ja-jp", "Japanese")
    } else if i == 4 {
        ("ko-kr", "Korean")
    } else {
        ("zh-cn", "Chinese")
    }
}

/// The selection a requested voice list opens the picker with: `none` alone
/// if requested, else `all` alone if requested, else each voice pack that is
/// requested.
pub open spec fn selection_of(requested: Seq<Seq<char>>) -> Seq<bool> {
    if requested.contains("none"@) {
        seq![true, false, false, false, false, false]
    } else if requested.contains("all"@) {
        seq![false, true, false, false, false, false]
    } else {
        Seq::new(6, |i: int| i >= 2 && requested.contains(option_code(i)))
    }
}

/// The selection after toggling option `cursor`: `none` and `all` each
/// exclude every other option; a voice pack excludes `none` and `all`.
pub open spec fn toggled(sel: Seq<bool>, cursor: int) -> Seq<bool> {
    if cursor == 0 {
        Seq::new(6, |i: int| if i == 0 { !sel[0] } else { false })
    } else if cursor == 1 {
        Seq::new(6, |i: int| if i == 1 { !sel[1] } else { false })
    } else {
        Seq::new(
            6,
            |i: int|
                if i == 0 || i == 1 {
                    false
                } else if i == cursor {
                    !sel[i]
                } else {
                    sel[i]
                },
        )
    }
}

/// The codes of the checked voice packs among options `2..n`, in order.
pub open spec fn checked_codes(sel: Seq<bool>, n: int) -> Seq<Seq<char>>
    decreases n,
{
    if n <= 2 {
        Seq::empty()
    } else if sel[n - 1] {
        checked_codes(sel, n - 1).push(option_code(n - 1))
    } else {
        checked_codes(sel, n - 1)
    }
}

/// The value a selection stands for: `none`, `all`, or the checked voice
/// packs joined with commas.
pub open spec fn selection_value(sel: Seq<bool>) -> Seq<char> {
    if sel[0] {
        "none"@
    } else if sel[1] {
        "all"@
    } else {
        joined(checked_codes(sel, 6), ","@)
    }
}

/// The number of checked options among the first `n`.
pub open spec fn checked_count(sel: Seq<bool>, n: int) -> nat
    decreases n,
{
    if n <= 0 {
        0
    } else {
        checked_count(sel, n - 1) + if sel[n - 1] {
            1nat
        } else {
            0nat
        }
    }
}

pub struct VoicePicker {
    pub selected: [bool; 6],
    pub cursor: usize,
}

impl VoicePicker {
    /// The picker opened on a voice field holding `value`, cursor on the
    /// first option.
    pub fn from_value(value: &str) -> (picker: VoicePicker)
        ensures
            picker.selected@ == selection_of(parse_arg_spec(Some(value@))),
            picker.cursor == 0,
    {
        let requested = parse_arg(Some(value));
        let ghost req = views(requested@);
        let mut selected = [false, false, false, false, false, false];
        if mentions(requested.as_slice(), "none") {
            selected[0] = true;
        } else if mentions(requested.as_slice(), "all") {
            selected[1] = true;
        } else {
            let mut idx: usize = 2;
            while idx < VOICE_OPTION_COUNT
                invariant
                    req == views(requested@),
                    2 <= idx <= 6,
                    !req.contains("none"@),
                    !req.contains("all"@),
                    forall|i: int|
                        0 <= i < 6 ==> selected@[i] == (2 <= i < idx && req.contains(
                            option_code(i),
                        )),
                decreases 6 - idx,
            {
                let (code, _) = voice_option(idx);
                let m = mentions(requested.as_slice(), code);
                selected[idx] = m;
                idx = idx + 1;
            }
        }
        assert(selected@ =~= selection_of(req));
        VoicePicker { selected, cursor: 0 }
    }

    /// Toggle the option under the cursor.
    pub fn toggle_current(&mut self)
        requires
            old(self).cursor < VOICE_OPTION_COUNT,
        ensures
            final(self).selected@ == toggled(old(self).selected@, old(self).cursor as int),
            final(self).cursor == old(self).cursor,
    {
        let c = self.cursor;
        if c == 0 {
            let v = !self.selected[0];
            self.selected = [v, false, false, false, false, false];
        } else if c == 1 {
            let v = !self.selected[1];
            self.selected = [false, v, false, false, false, false];
        } else {
            let v = !self.selected[c];
            self.selected[0] = false;
            self.selected[1] = false;
            self.selected[c] = v;
        }
        assert(self.selected@ =~= toggled(old(self).selected@, c as int));
    }

    /// The value the selection stands for.
    pub fn value(&self) -> (text: String)
        ensures
            text@ == selection_value(self.selected@),
    {
        if self.selected[0] {
            return "none".to_owned();
        }
        if self.selected[1] {
            return "all".to_owned();
        }
        let mut text = String::new();
        let mut any = false;
        let mut idx: usize = 2;
        while idx < VOICE_OPTION_COUNT
            invariant
                2 <= idx <= 6,
                self.selected@.len() == 6,
                any == (checked_codes(self.selected@, idx as int).len() > 0),
                text@ == joined(checked_codes(self.selected@, idx as int), ","@),
            decreases 6 - idx,
        {
            if self.selected[idx] {
                let (code, _) = voice_option(idx);
                let ghost before = checked_codes(self.selected@, idx as int);
                if any {
                    push_str(&mut text, ",");
                }
                push_str(&mut text, code);
                any = true;
                proof {
                    let after = before.push(option_code(idx as int));
                    assert(after.drop_last() =~= before);
                    if before.len() == 0 {
                        assert(joined(after, ","@) == after[0]);
                    }
                }
            }
            idx = idx + 1;
        }
        text
    }

    /// The number of checked options.
    pub fn selected_count(&self) -> (n: usize)
        ensures
            n == checked_count(self.selected@, 6),
    {
        let mut n: usize = 0;
        let mut idx: usize = 0;
        while idx < VOICE_OPTION_COUNT
            invariant
                idx <= 6,
                self.selected@.len() == 6,
                n == checked_count(self.selected@, idx as int),
                n <= idx,
            decreases 6 - idx,
        {
            if self.selected[idx] {
                n = n + 1;
            }
            idx = idx + 1;
        }
        n
    }
}


// ---------------------------------------------------------------------------
// Laws
// ---------------------------------------------------------------------------

/// A selection the picker can hold: six options, and `none` or `all`, when
/// checked, checked alone.
pub open spec fn selection_wf(sel: Seq<bool>) -> bool {
    &&& sel.len() == 6
    &&& sel[0] ==> forall|i: int| 1 <= i < 6 ==> !#[trigger] sel[i]
    &&& sel[1] ==> forall|i: int| 0 <= i < 6 && i != 1 ==> !#[trigger] sel[i]
}

proof fn lemma_option_codes()
    ensures
        forall|i: int, j: int|
            0 <= i < 6 && 0 <= j < 6 && i != j ==> option_code(i) != option_code(j),
        forall|i: int|
            0 <= i < 6 ==> {
                let c = #[trigger] option_code(i);
                &&& c.len() > 0
                &&& !c.contains(',')
                &&& !is_white(c[0])
                &&& !is_white(c.last())
            },
{
    reveal_strlit("none");
    reveal_strlit("all");
    reveal_strlit("en-us");
    reveal_strlit("ja-jp");
    reveal_strlit("ko-kr");
    reveal_strlit("zh-cn");
    assert forall|i: int, j: int|
        0 <= i < 6 && 0 <= j < 6 && i != j implies option_code(i) != option_code(j) by {
        let a = option_code(i);
        let b = option_code(j);
        if a.len() == b.len() {
            if a[0] == b[0] {
                assert(a[1] != b[1] || a[3] != b[3]);
            }
        }
    }
    assert forall|i: int| 0 <= i < 6 implies {
        let c = #[trigger] option_code(i);
        &&& c.len() > 0
        &&& !c.contains(',')
        &&& !is_white(c[0])
        &&& !is_white(c.last())
    } by {
        let c = option_code(i);
        assert forall|k: int| 0 <= k < c.len() implies c[k] != ',' by {}
    }
}

/// Which option the `k`-th entry of `checked_codes(sel, n)` names.
spec fn checked_option(sel: Seq<bool>, n: int, k: int) -> int
    decreases n,
{
    if n <= 2 {
        0
    } else if sel[n - 1] && k == checked_codes(sel, n - 1).len() {
        n - 1
    } else {
        checked_option(sel, n - 1, k)
    }
}

/// The `k`-th entry of `checked_codes(sel, n)` is the code of a voice pack
/// option below `n`.
spec fn entry_names_option(sel: Seq<bool>, n: int, k: int) -> bool {
    &&& 2 <= checked_option(sel, n, k) < n
    &&& checked_codes(sel, n)[k] == option_code(checked_option(sel, n, k))
}

proof fn lemma_checked_codes_are_options(sel: Seq<bool>, n: int)
    requires
        sel.len() == 6,
        2 <= n <= 6,
    ensures
        forall|k: int|
            0 <= k < checked_codes(sel, n).len() ==> #[trigger] entry_names_option(sel, n, k),
    decreases n,
{
    if n > 2 {
        lemma_checked_codes_are_options(sel, n - 1);
        assert forall|k: int| 0 <= k < checked_codes(sel, n).len() implies #[trigger]
            entry_names_option(sel, n, k) by {
            if k < checked_codes(sel, n - 1).len() {
                assert(entry_names_option(sel, n - 1, k));
                assert(checked_codes(sel, n)[k] == checked_codes(sel, n - 1)[k]);
                assert(checked_option(sel, n, k) == checked_option(sel, n - 1, k));
            } else {
                assert(sel[n - 1]);
                assert(checked_option(sel, n, k) == n - 1);
            }
        }
    } else {
        assert(checked_codes(sel, n).len() == 0);
    }
}

proof fn lemma_checked_codes_contains(sel: Seq<bool>, n: int, i: int)
    requires
        sel.len() == 6,
        2 <= n <= 6,
        0 <= i < 6,
    ensures
        checked_codes(sel, n).contains(option_code(i)) <==> (2 <= i < n && sel[i]),
    decreases n,
{
    lemma_option_codes();
    if n > 2 {
        lemma_checked_codes_contains(sel, n - 1, i);
        let init = checked_codes(sel, n - 1);
        if sel[n - 1] {
            let after = init.push(option_code(n - 1));
            if after.contains(option_code(i)) {
                let k = choose|k: int| 0 <= k < after.len() && after[k] == option_code(i);
                if k < init.len() {
                    assert(init[k] == option_code(i));
                    assert(init.contains(option_code(i)));
                }
            }
            if i == n - 1 {
                assert(after[after.len() - 1] == option_code(i));
            }
            if 2 <= i < n - 1 && sel[i] {
                let k = choose|k: int| 0 <= k < init.len() && init[k] == option_code(i);
                assert(after[k] == option_code(i));
            }
        }
    } else {
        assert(checked_codes(sel, n).len() == 0);
    }
}

/// Toggling any option keeps a selection one the picker can hold.
pub proof fn law_toggle_keeps_selection_wf(sel: Seq<bool>, cursor: int)
    requires
        selection_wf(sel),
        0 <= cursor < 6,
    ensures
        selection_wf(toggled(sel, cursor)),
{
}

/// Toggling the same voice pack twice gives the selection back, when neither
/// `none` nor `all` is checked.
pub proof fn law_toggle_twice_restores(sel: Seq<bool>, cursor: int)
    requires
        selection_wf(sel),
        2 <= cursor < 6,
        !sel[0],
        !sel[1],
    ensures
        toggled(toggled(sel, cursor), cursor) == sel,
{
    assert(toggled(toggled(sel, cursor), cursor) =~= sel);
}

/// The picker opens on a selection it can hold.
pub proof fn law_opened_selection_wf(requested: Seq<Seq<char>>)
    ensures
        selection_wf(selection_of(requested)),
{
}

/// The value of a selection opens the picker on that same selection again:
/// the voice field and the picker round-trip.
pub proof fn law_value_round_trip(sel: Seq<bool>)
    requires
        selection_wf(sel),
    ensures
        selection_of(parse_arg_spec(Some(selection_value(sel)))) == sel,
{
    lemma_option_codes();
    assert(option_code(0) == "none"@);
    assert(option_code(1) == "all"@);
    if sel[0] || sel[1] {
        let c = if sel[0] {
            option_code(0)
        } else {
            option_code(1)
        };
        assert(selection_value(sel) == c);
        let parts = seq![c];
        assert(parts[0] == c);
        assert(joined(parts, ","@) == c);
        lemma_split_joined(parts);
        lemma_trimmed_self(c);
        lemma_kept_all(parts);
        assert(parse_arg_spec(Some(c)) == parts);
        assert(parts.contains(c));
        if sel[0] {
            assert(selection_of(parts) =~= sel);
        } else {
            assert(!parts.contains("none"@)) by {
                if parts.contains("none"@) {
                    assert(parts[0] == "none"@);
                    assert(option_code(1) != option_code(0));
                }
            }
            assert(selection_of(parts) =~= sel);
        }
    } else {
        let codes = checked_codes(sel, 6);
        assert forall|i: int| 0 <= i < 6 implies (codes.contains(option_code(i)) <==> (2 <= i < 6
            && sel[i])) by {
            lemma_checked_codes_contains(sel, 6, i);
        }
        lemma_checked_codes_contains(sel, 6, 0);
        lemma_checked_codes_are_options(sel, 6);
        let parsed = parse_arg_spec(Some(selection_value(sel)));
        if codes.len() == 0 {
            assert(joined(codes, ","@) =~= Seq::<char>::empty());
            assert(comma_pieces(Seq::<char>::empty()) =~= seq![Seq::<char>::empty()]);
            assert(trimmed(Seq::<char>::empty()) =~= Seq::<char>::empty());
            assert(kept_pieces(Seq::<Seq<char>>::empty()) =~= Seq::<Seq<char>>::empty());
            assert(seq![Seq::<char>::empty()].drop_last() =~= Seq::<Seq<char>>::empty());
            assert(seq![Seq::<char>::empty()].last() == Seq::<char>::empty());
            assert(kept_pieces(seq![Seq::<char>::empty()]) =~= Seq::<Seq<char>>::empty());
            assert(parsed =~= Seq::<Seq<char>>::empty());
            assert(selection_of(parsed) =~= sel);
        } else {
            assert forall|k: int| 0 <= k < codes.len() implies !(#[trigger] codes[k]).contains(
                ',',
            ) && codes[k].len() > 0 && trimmed(codes[k]) == codes[k] by {
                assert(entry_names_option(sel, 6, k));
                lemma_trimmed_self(option_code(checked_option(sel, 6, k)));
            }
            lemma_split_joined(codes);
            lemma_kept_all(codes);
            assert(parsed == codes);
            assert(!codes.contains("none"@));
            lemma_checked_codes_contains(sel, 6, 1);
            assert(!codes.contains("all"@));
            assert(selection_of(parsed) =~= sel);
        }
    }
}

/// A value the picker gives (`none`, `all`, or some of the voice packs in
/// their listed order, joined with commas) opens the picker on a selection
/// whose value is that same value again.
pub proof fn law_canonical_value_round_trip(sel: Seq<bool>)
    requires
        selection_wf(sel),
    ensures
        selection_value(selection_of(parse_arg_spec(Some(selection_value(sel)))))
            == selection_value(sel),
{
    law_value_round_trip(sel);
}

/// Opening the picker on any voice field and taking its value normalises
/// the field: codes that name no option are dropped, `none` and `all` win over
/// the rest, the voice packs come in the order of the options, and the result
/// is a value the picker gives back unchanged when opened on it again.
pub proof fn law_picker_value_normalises(v: Seq<char>)
    ensures
        ({
            let sel = selection_of(parse_arg_spec(Some(v)));
            let w = selection_value(sel);
            &&& selection_wf(sel)
            &&& selection_value(selection_of(parse_arg_spec(Some(w)))) == w
        }),
{
    let sel = selection_of(parse_arg_spec(Some(v)));
    law_opened_selection_wf(parse_arg_spec(Some(v)));
    law_canonical_value_round_trip(sel);
}

} // verus!
