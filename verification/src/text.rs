//! Character-level text helpers shared by the rest of the library: trimming,
//! splitting, joining, padding, decimal formatting and parsing.
use vstd::prelude::*;

verus! {

/// `String::push` appends one character.
pub assume_specification[ String::push ](string: &mut String, ch: char)
    ensures
        final(string)@ == old(string)@.push(ch),
;

/// `String::pop` removes and returns the last character, if there is one.
pub assume_specification[ String::pop ](string: &mut String) -> (last: Option<char>)
    ensures
        old(string)@.len() == 0 ==> last is None && final(string)@ == old(string)@,
        old(string)@.len() > 0 ==> last == Some(old(string)@.last()) && final(string)@
            == old(string)@.drop_last(),
;

// ---------------------------------------------------------------------------
// Specifications
// ---------------------------------------------------------------------------

/// Unicode `White_Space`, as `char::is_whitespace` decides it.
pub open spec fn is_white(c: char) -> bool {
    let u = c as u32;
    ||| 9 <= u <= 13
    ||| u == 32
    ||| u == 0x85
    ||| u == 0xA0
    ||| u == 0x1680
    ||| 0x2000 <= u <= 0x200A
    ||| u == 0x2028
    ||| u == 0x2029
    ||| u == 0x202F
    ||| u == 0x205F
    ||| u == 0x3000
}

/// `s` without its leading white space.
pub open spec fn trim_front(s: Seq<char>) -> Seq<char>
    decreases s.len(),
{
    if s.len() > 0 && is_white(s[0]) {
        trim_front(s.drop_first())
    } else {
        s
    }
}

/// `s` without its trailing white space.
pub open spec fn trim_back(s: Seq<char>) -> Seq<char>
    decreases s.len(),
{
    if s.len() > 0 && is_white(s.last()) {
        trim_back(s.drop_last())
    } else {
        s
    }
}

/// `s` without white space at either end (what `str::trim` gives).
pub open spec fn trimmed(s: Seq<char>) -> Seq<char> {
    trim_back(trim_front(s))
}

/// The pieces of `s` between commas, empty pieces included (what
/// `str::split(',')` gives): one more piece than there are commas.
pub open spec fn comma_pieces(s: Seq<char>) -> Seq<Seq<char>>
    decreases s.len(),
{
    if s.len() == 0 {
        seq![Seq::<char>::empty()]
    } else {
        let init = comma_pieces(s.drop_last());
        if s.last() == ',' {
            init.push(Seq::<char>::empty())
        } else {
            init.update(init.len() - 1, init.last().push(s.last()))
        }
    }
}

/// `parts` joined with `sep` between each two neighbours.
pub open spec fn joined(parts: Seq<Seq<char>>, sep: Seq<char>) -> Seq<char>
    decreases parts.len(),
{
    if parts.len() == 0 {
        Seq::<char>::empty()
    } else if parts.len() == 1 {
        parts[0]
    } else {
        joined(parts.drop_last(), sep) + sep + parts.last()
    }
}

/// The character of the decimal digit `d` (for `d < 10`).
pub open spec fn digit_char(d: nat) -> char {
    if d == 0 {
        '0'
    } else if d == 1 {
        '1'
    } else if d == 2 {
        '2'
    } else if d == 3 {
        '3'
    } else if d == 4 {
        '4'
    } else if d == 5 {
        '5'
    } else if d == 6 {
        '6'
    } else if d == 7 {
        '7'
    } else if d == 8 {
        '8'
    } else {
        '9'
    }
}

/// The decimal digits of `n`, without leading zeros (`"0"` for zero).
pub open spec fn decimal(n: nat) -> Seq<char>
    decreases n,
{
    if n < 10 {
        seq![digit_char(n)]
    } else {
        decimal(n / 10).push(digit_char(n % 10))
    }
}

pub open spec fn is_digit(c: char) -> bool {
    '0' as u32 <= c as u32 <= '9' as u32
}

pub open spec fn digit_value(c: char) -> nat {
    (c as u32 - '0' as u32) as nat
}

/// The number that a run of decimal digits denotes.
pub open spec fn digits_value(s: Seq<char>) -> nat
    decreases s.len(),
{
    if s.len() == 0 {
        0
    } else {
        digits_value(s.drop_last()) * 10 + digit_value(s.last())
    }
}

/// `s` without one leading `+`, if it has one.
pub open spec fn unsigned_digits(s: Seq<char>) -> Seq<char> {
    if s.len() > 0 && s[0] == '+' {
        s.drop_first()
    } else {
        s
    }
}

/// Every character of `d` is an ASCII digit.
pub open spec fn all_digits(d: Seq<char>) -> bool {
    forall|i: int| 0 <= i < d.len() ==> is_digit(#[trigger] d[i])
}

/// The number that `s` denotes as an unsigned integer in the syntax that
/// `str::parse` accepts for unsigned types: an optional `+`, then one or
/// more ASCII digits; `None` for anything else.
pub open spec fn unsigned_text(s: Seq<char>) -> Option<nat> {
    let d = unsigned_digits(s);
    if d.len() > 0 && all_digits(d) {
        Some(digits_value(d))
    } else {
        None
    }
}

/// What `str::parse` gives for an unsigned type whose largest value is `max`.
pub open spec fn parse_unsigned_spec(s: Seq<char>, max: nat) -> Option<nat> {
    match unsigned_text(s) {
        Some(v) => if v <= max {
            Some(v)
        } else {
            None
        },
        None => None,
    }
}

pub open spec fn spaces(n: nat) -> Seq<char> {
    Seq::new(n, |i: int| ' ')
}

/// `s` followed by spaces up to `width` characters (`{:<width}`).
pub open spec fn padded_right(s: Seq<char>, width: nat) -> Seq<char> {
    if s.len() < width {
        s + spaces((width - s.len()) as nat)
    } else {
        s
    }
}

/// Spaces up to `width` characters followed by `s` (`{:>width}`).
pub open spec fn padded_left(s: Seq<char>, width: nat) -> Seq<char> {
    if s.len() < width {
        spaces((width - s.len()) as nat) + s
    } else {
        s
    }
}

/// `needle` occurs in `hay` at some position.
pub open spec fn has_sub(hay: Seq<char>, needle: Seq<char>) -> bool {
    exists|i: int| 0 <= i <= hay.len() - needle.len() && #[trigger] hay.subrange(i, i + needle.len()) == needle
}

/// The views of a sequence of strings.
pub open spec fn views(s: Seq<String>) -> Seq<Seq<char>> {
    s.map_values(|x: String| x@)
}

// ---------------------------------------------------------------------------
// Lemmas
// ---------------------------------------------------------------------------

proof fn lemma_trim_front_sub(s: Seq<char>, i: int)
    requires
        0 <= i < s.len(),
        is_white(s[i]),
    ensures
        trim_front(s.subrange(i, s.len() as int)) == trim_front(s.subrange(i + 1, s.len() as int)),
{
    assert(s.subrange(i, s.len() as int).drop_first() =~= s.subrange(i + 1, s.len() as int));
}

proof fn lemma_trim_back_sub(s: Seq<char>, i: int, j: int)
    requires
        0 <= i < j <= s.len(),
        is_white(s[j - 1]),
    ensures
        trim_back(s.subrange(i, j)) == trim_back(s.subrange(i, j - 1)),
{
    assert(s.subrange(i, j).drop_last() =~= s.subrange(i, j - 1));
}

proof fn lemma_decimal_len(n: nat)
    ensures
        decimal(n).len() >= 1,
    decreases n,
{
    if n >= 10 {
        lemma_decimal_len(n / 10);
    }
}

// ---------------------------------------------------------------------------
// Executable helpers
// ---------------------------------------------------------------------------

/// The characters of `s`, in order.
pub fn chars_of(s: &str) -> (out: Vec<char>)
    ensures
        out@ == s@,
{
    let n = s.unicode_len();
    let mut out: Vec<char> = Vec::new();
    let mut i: usize = 0;
    while i < n
        invariant
            n == s@.len(),
            i <= n,
            out@ == s@.take(i as int),
        decreases n - i,
    {
        let c = s.get_char(i);
        out.push(c);
        i = i + 1;
        assert(out@ =~= s@.take(i as int));
    }
    assert(out@ =~= s@);
    out
}

/// Appends the characters `cs[from..to]` to `out`.
pub fn push_range(out: &mut String, cs: &[char], from: usize, to: usize)
    requires
        from <= to <= cs@.len(),
    ensures
        final(out)@ == old(out)@ + cs@.subrange(from as int, to as int),
{
    let mut i: usize = from;
    while i < to
        invariant
            from <= i <= to <= cs@.len(),
            out@ == old(out)@ + cs@.subrange(from as int, i as int),
        decreases to - i,
    {
        out.push(cs[i]);
        i = i + 1;
        assert(out@ =~= old(out)@ + cs@.subrange(from as int, i as int));
    }
}

/// Appends `s` to `out`.
pub fn push_str(out: &mut String, s: &str)
    ensures
        final(out)@ == old(out)@ + s@,
{
    out.append(s);
}

/// The concatenation of `a` and `b`.
pub fn append_str(a: &str, b: &str) -> (out: String)
    ensures
        out@ == a@ + b@,
{
    let mut out = a.to_owned();
    out.append(b);
    out
}

/// Whether `a` and `b` hold the same characters.
pub fn str_eq(a: &str, b: &str) -> (eq: bool)
    ensures
        eq == (a@ == b@),
{
    let ac = chars_of(a);
    let bc = chars_of(b);
    if ac.len() != bc.len() {
        return false;
    }
    let mut i: usize = 0;
    while i < ac.len()
        invariant
            ac@ == a@,
            bc@ == b@,
            ac@.len() == bc@.len(),
            i <= ac@.len(),
            forall|k: int| 0 <= k < i ==> ac@[k] == bc@[k],
        decreases ac@.len() - i,
    {
        if ac[i] != bc[i] {
            return false;
        }
        i = i + 1;
    }
    assert(a@ =~= b@);
    true
}

/// Whether `c` is white space in Unicode's sense (`char::is_whitespace`).
pub fn is_white_char(c: char) -> (w: bool)
    ensures
        w == is_white(c),
{
    let u = c as u32;
    (9 <= u && u <= 13) || u == 32 || u == 0x85 || u == 0xA0 || u == 0x1680 || (0x2000 <= u && u
        <= 0x200A) || u == 0x2028 || u == 0x2029 || u == 0x202F || u == 0x205F || u == 0x3000
}

/// The bounds of `cs` without white space at either end.
pub fn trim_bounds(cs: &[char]) -> (bounds: (usize, usize))
    ensures
        bounds.0 <= bounds.1 <= cs@.len(),
        cs@.subrange(bounds.0 as int, bounds.1 as int) == trimmed(cs@),
{
    let n = cs.len();
    let mut i: usize = 0;
    assert(cs@.subrange(0, n as int) =~= cs@);
    while i < n && is_white_char(cs[i])
        invariant
            n == cs@.len(),
            i <= n,
            trim_front(cs@) == trim_front(cs@.subrange(i as int, n as int)),
        decreases n - i,
    {
        proof {
            lemma_trim_front_sub(cs@, i as int);
        }
        i = i + 1;
    }
    let ghost front = cs@.subrange(i as int, n as int);
    assert(trim_front(front) == front);
    let mut j: usize = n;
    while j > i && is_white_char(cs[j - 1])
        invariant
            n == cs@.len(),
            i <= j <= n,
            front == cs@.subrange(i as int, n as int),
            trim_back(front) == trim_back(cs@.subrange(i as int, j as int)),
        decreases j - i,
    {
        proof {
            lemma_trim_back_sub(cs@, i as int, j as int);
        }
        j = j - 1;
    }
    assert(trim_back(cs@.subrange(i as int, j as int)) == cs@.subrange(i as int, j as int));
    (i, j)
}

/// `s` without white space at either end (`str::trim`).
pub fn trim(s: &str) -> (out: String)
    ensures
        out@ == trimmed(s@),
{
    let cs = chars_of(s);
    let (i, j) = trim_bounds(cs.as_slice());
    let mut out = String::new();
    push_range(&mut out, cs.as_slice(), i, j);
    assert(out@ =~= cs@.subrange(i as int, j as int));
    out
}

/// The character of the decimal digit `d`.
pub fn digit(d: u64) -> (c: char)
    requires
        d < 10,
    ensures
        c == digit_char(d as nat),
{
    if d == 0 {
        '0'
    } else if d == 1 {
        '1'
    } else if d == 2 {
        '2'
    } else if d == 3 {
        '3'
    } else if d == 4 {
        '4'
    } else if d == 5 {
        '5'
    } else if d == 6 {
        '6'
    } else if d == 7 {
        '7'
    } else if d == 8 {
        '8'
    } else {
        '9'
    }
}

/// Appends the decimal digits of `n` to `out`.
pub fn push_decimal(out: &mut String, n: u64)
    ensures
        final(out)@ == old(out)@ + decimal(n as nat),
    decreases n,
{
    if n >= 10 {
        push_decimal(out, n / 10);
    }
    out.push(digit(n % 10));
    proof {
        if n >= 10 {
            assert(decimal(n as nat) == decimal((n / 10) as nat).push(digit_char((n % 10) as nat)));
        }
        assert(out@ =~= old(out)@ + decimal(n as nat));
    }
}

/// The decimal text of `n` (what `n.to_string()` gives).
pub fn decimal_string(n: u64) -> (out: String)
    ensures
        out@ == decimal(n as nat),
{
    let mut out = String::new();
    push_decimal(&mut out, n);
    assert(out@ =~= decimal(n as nat));
    out
}


proof fn lemma_digits_prefix(s: Seq<char>, k: int)
    requires
        0 <= k <= s.len(),
    ensures
        digits_value(s.take(k)) <= digits_value(s),
    decreases s.len() - k,
{
    if k < s.len() {
        lemma_digits_prefix(s, k + 1);
        assert(s.take(k + 1).drop_last() =~= s.take(k));
    } else {
        assert(s.take(k) =~= s);
    }
}

/// The number `s` denotes as an unsigned integer no larger than `max`, in
/// the syntax that `str::parse` accepts for unsigned integer types.
pub fn parse_unsigned(s: &str, max: u64) -> (value: Option<u64>)
    ensures
        value is Some <==> parse_unsigned_spec(s@, max as nat) is Some,
        value is Some ==> parse_unsigned_spec(s@, max as nat) == Some(value->0 as nat),
{
    let cs = chars_of(s);
    let n = cs.len();
    let start: usize = if n > 0 && cs[0] == '+' {
        1
    } else {
        0
    };
    let ghost d = unsigned_digits(s@);
    assert(d =~= cs@.subrange(start as int, n as int));
    if start == n {
        return None;
    }
    let mut acc: u64 = 0;
    let mut i: usize = start;
    while i < n
        invariant
            cs@ == s@,
            n == cs@.len(),
            start <= i <= n,
            d == cs@.subrange(start as int, n as int),
            d == unsigned_digits(s@),
            forall|k: int| 0 <= k < i - start ==> is_digit(#[trigger] d[k]),
            acc as nat == digits_value(d.take(i - start)),
            acc <= max,
        decreases n - i,
    {
        let c = cs[i];
        let cu = c as u32;
        assert(is_digit(c) == (48 <= cu && cu <= 57));
        assert(d[i - start] == c);
        if !(48 <= cu && cu <= 57) {
            assert(!is_digit(d[i - start]));
            return None;
        }
        let dv: u64 = (cu - 48) as u64;
        assert(digit_value(c) == dv);
        if dv > max {
            proof {
                if all_digits(d) {
                    lemma_digits_prefix(d, i - start + 1);
                    assert(d.take(i - start + 1).drop_last() =~= d.take(i - start));
                }
            }
            return None;
        }
        assert(d.take(i - start + 1).drop_last() =~= d.take(i - start));
        assert(d[i - start] == c);
        if acc > (max - dv) / 10 {
            proof {
                assert(acc * 10 + dv > max) by (nonlinear_arith)
                    requires
                        acc > (max - dv) / 10,
                        dv <= 9,
                ;
                if all_digits(d) {
                    lemma_digits_prefix(d, i - start + 1);
                }
            }
            return None;
        }
        assert(acc * 10 + dv <= max) by (nonlinear_arith)
            requires
                acc <= (max - dv) / 10,
                dv <= max,
        ;
        acc = acc * 10 + dv;
        i = i + 1;
    }
    assert(d.take(n - start) =~= d);
    Some(acc)
}

/// `parts` joined with `sep` between each two neighbours (`[String]::join`).
pub fn join(parts: &[String], sep: &str) -> (out: String)
    ensures
        out@ == joined(views(parts@), sep@),
{
    let ghost ps = views(parts@);
    let mut out = String::new();
    let mut i: usize = 0;
    while i < parts.len()
        invariant
            ps == views(parts@),
            i <= parts@.len(),
            out@ == joined(ps.take(i as int), sep@),
        decreases parts@.len() - i,
    {
        if i > 0 {
            out.append(sep);
        }
        out.append(parts[i].as_str());
        proof {
            let t = ps.take(i + 1);
            assert(t.drop_last() =~= ps.take(i as int));
            if i == 0 {
                assert(ps.take(0) =~= Seq::<Seq<char>>::empty());
            }
        }
        i = i + 1;
    }
    assert(ps.take(parts@.len() as int) =~= ps);
    out
}

/// Appends `n` spaces to `out`.
fn push_spaces(out: &mut String, n: usize)
    ensures
        final(out)@ == old(out)@ + spaces(n as nat),
{
    let mut k: usize = 0;
    while k < n
        invariant
            k <= n,
            out@ == old(out)@ + spaces(k as nat),
        decreases n - k,
    {
        out.push(' ');
        k = k + 1;
        assert(out@ =~= old(out)@ + spaces(k as nat));
    }
}

/// `s` left-aligned in a field of `width` characters (`format!("{s:<width}")`).
pub fn pad_right(s: &str, width: usize) -> (out: String)
    ensures
        out@ == padded_right(s@, width as nat),
{
    let len = s.unicode_len();
    let mut out = s.to_owned();
    if len < width {
        push_spaces(&mut out, width - len);
    }
    out
}

/// `s` right-aligned in a field of `width` characters (`format!("{s:>width}")`).
pub fn pad_left(s: &str, width: usize) -> (out: String)
    ensures
        out@ == padded_left(s@, width as nat),
{
    let len = s.unicode_len();
    let mut out = String::new();
    if len < width {
        push_spaces(&mut out, width - len);
    }
    out.append(s);
    assert(out@ =~= padded_left(s@, width as nat));
    out
}

/// Whether `needle` occurs in `hay` at position `at`.
fn matches_at(hay: &Vec<char>, needle: &Vec<char>, at: usize) -> (m: bool)
    requires
        at + needle@.len() <= hay@.len(),
    ensures
        m == (hay@.subrange(at as int, at + needle@.len()) == needle@),
{
    let mut k: usize = 0;
    while k < needle.len()
        invariant
            at + needle@.len() <= hay@.len(),
            k <= needle@.len(),
            forall|j: int| 0 <= j < k ==> hay@[at + j] == needle@[j],
        decreases needle@.len() - k,
    {
        let hl = hay.len();
        if hay[at + k] != needle[k] {
            assert(hay@.subrange(at as int, at + needle@.len())[k as int] != needle@[k as int]);
            return false;
        }
        k = k + 1;
    }
    assert(hay@.subrange(at as int, at + needle@.len()) =~= needle@);
    true
}

/// Whether `needle` occurs in `hay` (`str::contains`).
pub fn contains(hay: &str, needle: &str) -> (found: bool)
    ensures
        found == has_sub(hay@, needle@),
{
    let hc = chars_of(hay);
    let nc = chars_of(needle);
    if nc.len() > hc.len() {
        return false;
    }
    let last = hc.len() - nc.len();
    let mut i: usize = 0;
    while i <= last
        invariant
            hc@ == hay@,
            nc@ == needle@,
            last == hc@.len() - nc@.len(),
            i <= last + 1,
            forall|j: int| 0 <= j < i ==> #[trigger] hay@.subrange(j, j + needle@.len()) != needle@,
        decreases last + 1 - i,
    {
        if matches_at(&hc, &nc, i) {
            assert(hay@.subrange(i as int, i + needle@.len()) == needle@);
            return true;
        }
        if i == last {
            return false;
        }
        i = i + 1;
    }
    false
}

/// Whether `s` begins with `prefix`.
pub fn starts_with(s: &Vec<char>, prefix: &str) -> (yes: bool)
    ensures
        yes == (prefix@.len() <= s@.len() && s@.subrange(0, prefix@.len() as int) == prefix@),
{
    let pc = chars_of(prefix);
    if pc.len() > s.len() {
        return false;
    }
    matches_at(s, &pc, 0)
}


// ---------------------------------------------------------------------------
// Lemmas on splitting and joining
// ---------------------------------------------------------------------------

/// Splitting always gives at least one piece.
pub proof fn lemma_comma_pieces_len(s: Seq<char>)
    ensures
        comma_pieces(s).len() >= 1,
    decreases s.len(),
{
    if s.len() > 0 {
        lemma_comma_pieces_len(s.drop_last());
    }
}

/// Appending text without commas extends the last piece.
pub proof fn lemma_comma_pieces_append(a: Seq<char>, b: Seq<char>)
    requires
        !b.contains(','),
    ensures
        comma_pieces(a + b) == comma_pieces(a).update(
            comma_pieces(a).len() - 1,
            comma_pieces(a).last() + b,
        ),
    decreases b.len(),
{
    lemma_comma_pieces_len(a);
    if b.len() == 0 {
        assert(a + b =~= a);
        assert(comma_pieces(a).last() + b =~= comma_pieces(a).last());
        assert(comma_pieces(a).update(comma_pieces(a).len() - 1, comma_pieces(a).last())
            =~= comma_pieces(a));
    } else {
        let b0 = b.drop_last();
        assert(!b0.contains(',')) by {
            if b0.contains(',') {
                let k = choose|k: int| 0 <= k < b0.len() && b0[k] == ',';
                assert(b[k] == ',');
            }
        }
        lemma_comma_pieces_append(a, b0);
        assert((a + b).drop_last() =~= a + b0);
        assert((a + b).last() == b.last());
        assert(b.last() != ',') by {
            assert(b[b.len() - 1] == b.last());
        }
        lemma_comma_pieces_len(a + b0);
        let pa = comma_pieces(a);
        assert(pa.last() + b0 + seq![b.last()] =~= pa.last() + b);
        assert((pa.last() + b0).push(b.last()) =~= pa.last() + b);
        assert(comma_pieces(a + b) =~= pa.update(pa.len() - 1, pa.last() + b));
    }
}

/// Splitting pieces that hold no comma, once joined with commas, gives the
/// pieces back.
pub proof fn lemma_split_joined(parts: Seq<Seq<char>>)
    requires
        parts.len() >= 1,
        forall|k: int| 0 <= k < parts.len() ==> !(#[trigger] parts[k]).contains(','),
    ensures
        comma_pieces(joined(parts, ","@)) == parts,
    decreases parts.len(),
{
    if parts.len() == 1 {
        lemma_comma_pieces_append(Seq::empty(), parts[0]);
        assert(Seq::<char>::empty() + parts[0] =~= parts[0]);
        assert(comma_pieces(Seq::<char>::empty()) =~= seq![Seq::<char>::empty()]);
        assert(Seq::<char>::empty() + parts[0] =~= parts[0]);
        assert(seq![Seq::<char>::empty()].update(0, Seq::<char>::empty() + parts[0]) =~= parts);
    } else {
        let init = parts.drop_last();
        assert forall|k: int| 0 <= k < init.len() implies !(#[trigger] init[k]).contains(',') by {
            assert(init[k] == parts[k]);
        }
        lemma_split_joined(init);
        let j = joined(init, ","@);
        reveal_strlit(",");
        let jc = j + ","@;
        assert(jc.drop_last() =~= j);
        assert(jc.last() == ',');
        assert(comma_pieces(jc) == comma_pieces(j).push(Seq::<char>::empty()));
        assert(!parts.last().contains(',')) by {
            assert(parts[parts.len() - 1] == parts.last());
        }
        lemma_comma_pieces_append(jc, parts.last());
        assert(joined(parts, ","@) == jc + parts.last());
        assert(Seq::<char>::empty() + parts.last() =~= parts.last());
        assert(init.push(Seq::<char>::empty()).update(init.len() as int, parts.last()) =~= parts);
    }
}

/// Text that begins and ends with something other than white space is its
/// own trimmed form.
proof fn lemma_trim_front_suffix(s: Seq<char>)
    ensures
        trim_front(s).len() <= s.len(),
        trim_front(s) == s.subrange(s.len() - trim_front(s).len(), s.len() as int),
        trim_front(s).len() > 0 ==> !is_white(trim_front(s)[0]),
    decreases s.len(),
{
    if s.len() > 0 && is_white(s[0]) {
        lemma_trim_front_suffix(s.drop_first());
        let t = trim_front(s.drop_first());
        assert(s.drop_first().subrange(s.len() - 1 - t.len(), s.len() - 1) =~= s.subrange(
            s.len() - t.len(),
            s.len() as int,
        ));
    } else {
        assert(s.subrange(0, s.len() as int) =~= s);
    }
}

proof fn lemma_trim_back_prefix(s: Seq<char>)
    ensures
        trim_back(s).len() <= s.len(),
        trim_back(s) == s.subrange(0, trim_back(s).len() as int),
        trim_back(s).len() > 0 ==> !is_white(trim_back(s).last()),
    decreases s.len(),
{
    if s.len() > 0 && is_white(s.last()) {
        lemma_trim_back_prefix(s.drop_last());
        let t = trim_back(s.drop_last());
        assert(s.drop_last().subrange(0, t.len() as int) =~= s.subrange(0, t.len() as int));
    } else {
        assert(s.subrange(0, s.len() as int) =~= s);
    }
}

/// What trimming leaves holds only characters of `s`, and trimming it again
/// changes nothing.
pub proof fn lemma_trimmed_clean(s: Seq<char>)
    ensures
        forall|c: char| trimmed(s).contains(c) ==> s.contains(c),
        trimmed(trimmed(s)) == trimmed(s),
{
    lemma_trim_front_suffix(s);
    let f = trim_front(s);
    lemma_trim_back_prefix(f);
    let t = trimmed(s);
    let off = s.len() - f.len();
    assert forall|c: char| t.contains(c) implies s.contains(c) by {
        let k = choose|k: int| 0 <= k < t.len() && t[k] == c;
        assert(t[k] == f[k]);
        assert(f[k] == s[off + k]);
    }
    if t.len() > 0 {
        assert(t[0] == f[0]);
        lemma_trimmed_self(t);
    } else {
        assert(trim_front(t) == t);
    }
}

pub proof fn lemma_trimmed_self(s: Seq<char>)
    requires
        s.len() > 0,
        !is_white(s[0]),
        !is_white(s.last()),
    ensures
        trimmed(s) == s,
{
}

} // verus!
