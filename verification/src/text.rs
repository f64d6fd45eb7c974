//! Plain text helpers: decimal numerals, whitespace trimming and the
//! splitting of patch notes into the lines that are displayed.

use vstd::prelude::*;

verus! {

/// The character of the decimal digit `d` (`0 <= d < 10`).
pub open spec fn digit_char(d: nat) -> char {
    (48 + d) as char
}

/// The decimal numeral of `n`, without sign or leading zeros.
pub open spec fn decimal(n: nat) -> Seq<char>
    decreases n,
{
    if n < 10 {
        seq![digit_char(n)]
    } else {
        decimal(n / 10).push(digit_char(n % 10))
    }
}

/// Appends one character to a string with `String::push`; the contract
/// claims what its documentation says: the character is added at the end.
#[verifier::external_body]
pub(crate) fn push_char(s: &mut String, c: char)
    ensures
        final(s)@ == old(s)@.push(c),
{
    s.push(c);
}

pub(crate) fn digit(d: u128) -> (c: char)
    requires
        d < 10,
    ensures
        c == digit_char(d as nat),
{
    let b: u8 = 48u8 + (d as u8);
    b as char
}

/// The decimal numeral of `n`.
pub fn decimal_string(n: u128) -> (s: String)
    ensures
        s@ == decimal(n as nat),
    decreases n,
{
    if n < 10 {
        let mut s = String::new();
        push_char(&mut s, digit(n));
        s
    } else {
        let mut s = decimal_string(n / 10);
        push_char(&mut s, digit(n % 10));
        s
    }
}


/// The characters of `s`, in order.
pub(crate) fn chars_of(s: &str) -> (v: Vec<char>)
    ensures
        v@ == s@,
{
    let mut v: Vec<char> = Vec::new();
    for c in it: s.chars()
        invariant
            v@ == it.seq().take(it.index() as int),
    {
        v.push(c);
    }
    v
}


/// Whether two strings hold the same characters.
pub fn str_eq(a: &str, b: &str) -> (r: bool)
    ensures
        r == (a@ == b@),
{
    let x = chars_of(a);
    let y = chars_of(b);
    if x.len() != y.len() {
        return false;
    }
    let mut i: usize = 0;
    while i < x.len()
        invariant
            x@ == a@,
            y@ == b@,
            x@.len() == y@.len(),
            i <= x@.len(),
            forall|j: int| 0 <= j < i ==> x@[j] == y@[j],
        decreases x@.len() - i,
    {
        if x[i] != y[i] {
            return false;
        }
        i = i + 1;
    }
    assert(x@ =~= y@);
    true
}

/// Whether `c` has the Unicode `White_Space` property, which is what
/// `char::is_whitespace` and `str::trim` go by.
pub open spec fn is_white_space(c: char) -> bool {
    let u = c as u32;
    ||| 9 <= u <= 13
    ||| u == 32
    ||| u == 0x85
    ||| u == 0xA0
    ||| u == 0x1680
    ||| 0x2000 <= u <= 0x200A
    ||| u == 0x2028
    ||| u == 0x2029
    ||| u == 0x202F
    ||| u == 0x205F
    ||| u == 0x3000
}

/// Whether `c` is white space (see `is_white_space`).
pub fn white_space(c: char) -> (b: bool)
    ensures
        b == is_white_space(c),
{
    let u = c as u32;
    (9 <= u && u <= 13) || u == 32 || u == 0x85 || u == 0xA0 || u == 0x1680 || (0x2000 <= u && u
        <= 0x200A) || u == 0x2028 || u == 0x2029 || u == 0x202F || u == 0x205F || u == 0x3000
}

/// `s` without its leading white space.
pub open spec fn trim_start(s: Seq<char>) -> Seq<char>
    decreases s.len(),
{
    if s.len() > 0 && is_white_space(s[0]) {
        trim_start(s.drop_first())
    } else {
        s
    }
}

/// `s` without its trailing white space.
pub open spec fn trim_end(s: Seq<char>) -> Seq<char>
    decreases s.len(),
{
    if s.len() > 0 && is_white_space(s.last()) {
        trim_end(s.drop_last())
    } else {
        s
    }
}

/// `s` without leading and trailing white space, as `str::trim` gives it.
pub open spec fn trim(s: Seq<char>) -> Seq<char> {
    trim_end(trim_start(s))
}

/// The bounds, within `a..b`, of `cs[a..b]` trimmed.
fn trimmed_range(cs: &Vec<char>, a: usize, b: usize) -> (r: (usize, usize))
    requires
        a <= b <= cs@.len(),
    ensures
        a <= r.0 <= r.1 <= b,
        cs@.subrange(r.0 as int, r.1 as int) == trim(cs@.subrange(a as int, b as int)),
{
    let mut i = a;
    while i < b && white_space(cs[i])
        invariant
            a <= i <= b <= cs@.len(),
            trim_start(cs@.subrange(a as int, b as int)) == trim_start(
                cs@.subrange(i as int, b as int),
            ),
        decreases b - i,
    {
        assert(cs@.subrange(i as int + 1, b as int) =~= cs@.subrange(i as int, b as int).drop_first());
        i = i + 1;
    }
    assert(trim_start(cs@.subrange(i as int, b as int)) == cs@.subrange(i as int, b as int));
    let mut j = b;
    while j > i && white_space(cs[j - 1])
        invariant
            a <= i <= j <= b <= cs@.len(),
            trim_end(cs@.subrange(i as int, b as int)) == trim_end(cs@.subrange(i as int, j as int)),
        decreases j - i,
    {
        assert(cs@.subrange(i as int, j - 1) =~= cs@.subrange(i as int, j as int).drop_last());
        j = j - 1;
    }
    (i, j)
}

/// The string made of `cs[a..b]`.
fn string_of_range(cs: &Vec<char>, a: usize, b: usize) -> (s: String)
    requires
        a <= b <= cs@.len(),
    ensures
        s@ == cs@.subrange(a as int, b as int),
{
    let mut s = String::new();
    let mut k = a;
    while k < b
        invariant
            a <= k <= b <= cs@.len(),
            s@ == cs@.subrange(a as int, k as int),
        decreases b - k,
    {
        push_char(&mut s, cs[k]);
        assert(cs@.subrange(a as int, k + 1) =~= cs@.subrange(a as int, k as int).push(cs@[k as int]));
        k = k + 1;
    }
    s
}

/// The pieces of `s` between line feeds: `k` line feeds make `k + 1` pieces.
pub open spec fn split_lines(s: Seq<char>) -> Seq<Seq<char>>
    decreases s.len(),
{
    if s.len() == 0 {
        seq![Seq::empty()]
    } else if s.last() == '\n' {
        split_lines(s.drop_last()).push(Seq::empty())
    } else {
        let p = split_lines(s.drop_last());
        p.update(p.len() - 1, p.last().push(s.last()))
    }
}

/// The pieces trimmed, with the ones that trim to nothing left out.
pub open spec fn shown_lines(pieces: Seq<Seq<char>>) -> Seq<Seq<char>>
    decreases pieces.len(),
{
    if pieces.len() == 0 {
        Seq::empty()
    } else {
        let rest = shown_lines(pieces.drop_last());
        let t = trim(pieces.last());
        if t.len() > 0 {
            rest.push(t)
        } else {
            rest
        }
    }
}

/// The lines that a text box of patch notes displays for `text`: its lines
/// (`str::lines`), each trimmed, blank ones skipped.
pub open spec fn note_lines(text: Seq<char>) -> Seq<Seq<char>> {
    shown_lines(split_lines(text))
}

/// The views of a vector of strings.
pub open spec fn string_views(v: Seq<String>) -> Seq<Seq<char>> {
    v.map_values(|s: String| s@)
}

proof fn lemma_split_lines_nonempty(s: Seq<char>)
    ensures
        split_lines(s).len() >= 1,
    decreases s.len(),
{
    if s.len() > 0 {
        lemma_split_lines_nonempty(s.drop_last());
    }
}

/// The lines of `text` that are displayed, trimmed, blank ones skipped.
pub fn note_lines_of(text: &str) -> (lines: Vec<String>)
    ensures
        string_views(lines@) == note_lines(text@),
{
    let cs = chars_of(text);
    let n = cs.len();
    let mut out: Vec<String> = Vec::new();
    let mut start: usize = 0;
    let mut k: usize = 0;
    assert(cs@.take(0) =~= Seq::<char>::empty());
    while k < n
        invariant
            n == cs@.len(),
            cs@ == text@,
            start <= k <= n,
            split_lines(cs@.take(k as int)).len() >= 1,
            split_lines(cs@.take(k as int)).last() == cs@.subrange(start as int, k as int),
            string_views(out@) == shown_lines(split_lines(cs@.take(k as int)).drop_last()),
        decreases n - k,
    {
        let ghost pre = cs@.take(k as int);
        let ghost post = cs@.take(k + 1);
        assert(post.drop_last() =~= pre);
        assert(post.last() == cs@[k as int]);
        proof {
            lemma_split_lines_nonempty(pre);
        }
        if cs[k] == '\n' {
            let (a, b) = trimmed_range(&cs, start, k);
            assert(split_lines(post).drop_last() =~= split_lines(pre));
            if a < b {
                let line = string_of_range(&cs, a, b);
                out.push(line);
                assert(string_views(out@) =~= shown_lines(split_lines(pre).drop_last()).push(
                    line@,
                ));
            } else {
                assert(string_views(out@) =~= shown_lines(split_lines(pre).drop_last()));
            }
            start = k + 1;
            assert(cs@.subrange(start as int, k + 1) =~= Seq::<char>::empty());
        } else {
            let ghost sp = split_lines(pre);
            assert(split_lines(post) == sp.update(sp.len() - 1, sp.last().push(cs@[k as int])));
            assert(split_lines(post).drop_last() =~= sp.drop_last());
            assert(cs@.subrange(start as int, k + 1) =~= cs@.subrange(start as int, k as int).push(
                cs@[k as int],
            ));
        }
        k = k + 1;
    }
    assert(cs@.take(n as int) =~= cs@);
    let (a, b) = trimmed_range(&cs, start, n);
    proof {
        lemma_split_lines_nonempty(cs@);
    }
    if a < b {
        let line = string_of_range(&cs, a, b);
        out.push(line);
        assert(string_views(out@) =~= note_lines(text@));
    } else {
        assert(string_views(out@) =~= note_lines(text@));
    }
    out
}


proof fn lemma_trim_start(s: Seq<char>)
    ensures
        trim_start(s).len() > 0 ==> !is_white_space(trim_start(s)[0]),
    decreases s.len(),
{
    if s.len() > 0 && is_white_space(s[0]) {
        lemma_trim_start(s.drop_first());
    }
}

proof fn lemma_trim_end(s: Seq<char>)
    ensures
        trim_end(s).len() <= s.len(),
        trim_end(s) == s.subrange(0, trim_end(s).len() as int),
        trim_end(s).len() > 0 ==> !is_white_space(trim_end(s).last()),
    decreases s.len(),
{
    if s.len() > 0 && is_white_space(s.last()) {
        lemma_trim_end(s.drop_last());
        assert(s.drop_last().subrange(0, trim_end(s).len() as int) =~= s.subrange(
            0,
            trim_end(s).len() as int,
        ));
    } else {
        assert(s.subrange(0, s.len() as int) =~= s);
    }
}

/// Trimming leaves no white space at either end.
pub proof fn lemma_trim_ends(s: Seq<char>)
    ensures
        trim(s).len() > 0 ==> !is_white_space(trim(s)[0]) && !is_white_space(trim(s).last()),
{
    lemma_trim_start(s);
    lemma_trim_end(trim_start(s));
    if trim(s).len() > 0 {
        assert(trim(s)[0] == trim_start(s)[0]);
    }
}

/// Every displayed line of patch notes is non-empty and starts and ends
/// with a character that is not white space.
pub proof fn lemma_note_lines_trimmed(text: Seq<char>)
    ensures
        forall|i: int|
            0 <= i < note_lines(text).len() ==> #[trigger] note_lines(text)[i].len() > 0
                && !is_white_space(note_lines(text)[i][0]) && !is_white_space(
                note_lines(text)[i].last(),
            ),
{
    lemma_shown_lines_trimmed(split_lines(text));
}

proof fn lemma_shown_lines_trimmed(pieces: Seq<Seq<char>>)
    ensures
        forall|i: int|
            0 <= i < shown_lines(pieces).len() ==> #[trigger] shown_lines(pieces)[i].len() > 0
                && !is_white_space(shown_lines(pieces)[i][0]) && !is_white_space(
                shown_lines(pieces)[i].last(),
            ),
    decreases pieces.len(),
{
    if pieces.len() > 0 {
        let rest = shown_lines(pieces.drop_last());
        let t = trim(pieces.last());
        lemma_shown_lines_trimmed(pieces.drop_last());
        lemma_trim_ends(pieces.last());
        assert forall|i: int| 0 <= i < shown_lines(pieces).len() implies #[trigger] shown_lines(
            pieces,
        )[i].len() > 0 && !is_white_space(shown_lines(pieces)[i][0]) && !is_white_space(
            shown_lines(pieces)[i].last(),
        ) by {
            if i < rest.len() {
                assert(shown_lines(pieces)[i] == rest[i]);
            } else {
                assert(shown_lines(pieces)[i] == t);
            }
        }
    }
}


proof fn lemma_trim_start_cut(s: Seq<char>) -> (i: int)
    ensures
        0 <= i <= s.len(),
        trim_start(s) == s.subrange(i, s.len() as int),
        forall|k: int| 0 <= k < i ==> is_white_space(#[trigger] s[k]),
        i < s.len() ==> !is_white_space(s[i]),
    decreases s.len(),
{
    if s.len() > 0 && is_white_space(s[0]) {
        let i0 = lemma_trim_start_cut(s.drop_first());
        assert(s.drop_first().subrange(i0, s.len() - 1) =~= s.subrange(i0 + 1, s.len() as int));
        assert forall|k: int| 0 <= k < i0 + 1 implies is_white_space(#[trigger] s[k]) by {
            if k > 0 {
                assert(s[k] == s.drop_first()[k - 1]);
            }
        }
        i0 + 1
    } else {
        assert(s.subrange(0, s.len() as int) =~= s);
        0
    }
}

proof fn lemma_trim_end_cut(s: Seq<char>) -> (j: int)
    ensures
        0 <= j <= s.len(),
        trim_end(s) == s.subrange(0, j),
        forall|k: int| j <= k < s.len() ==> is_white_space(#[trigger] s[k]),
        j > 0 ==> !is_white_space(s[j - 1]),
    decreases s.len(),
{
    if s.len() > 0 && is_white_space(s.last()) {
        let j0 = lemma_trim_end_cut(s.drop_last());
        assert(s.drop_last().subrange(0, j0) =~= s.subrange(0, j0));
        assert forall|k: int| j0 <= k < s.len() implies is_white_space(#[trigger] s[k]) by {
            if k < s.len() - 1 {
                assert(s[k] == s.drop_last()[k]);
            }
        }
        j0
    } else {
        assert(s.subrange(0, s.len() as int) =~= s);
        s.len() as int
    }
}

/// Trimming cuts white space from both ends and nothing else: the result is
/// a stretch `s[i..j]` of the text, all that is cut off is white space, and
/// a non-empty result starts and ends with a character that is not.
pub proof fn lemma_trim_cuts_only_white_space(s: Seq<char>)
    ensures
        exists|i: int, j: int|
            0 <= i <= j <= s.len() && trim(s) == s.subrange(i, j) && (forall|k: int|
                0 <= k < i ==> is_white_space(#[trigger] s[k])) && (forall|k: int|
                j <= k < s.len() ==> is_white_space(#[trigger] s[k])) && (i < j ==> !is_white_space(
                s[i],
            ) && !is_white_space(s[j - 1])),
{
    let i = lemma_trim_start_cut(s);
    let r = s.subrange(i, s.len() as int);
    let j0 = lemma_trim_end_cut(r);
    let j = i + j0;
    assert(r.subrange(0, j0) =~= s.subrange(i, j));
    assert forall|k: int| j <= k < s.len() implies is_white_space(#[trigger] s[k]) by {
        assert(s[k] == r[k - i]);
    }
    if i < j {
        assert(s[j - 1] == r[j0 - 1]);
        assert(s[i] == r[0]);
    }
}

/// No line feed in `s`.
pub open spec fn single_line(s: Seq<char>) -> bool {
    forall|k: int| 0 <= k < s.len() ==> s[k] != '\n'
}

proof fn lemma_split_single(s: Seq<char>)
    requires
        single_line(s),
    ensures
        split_lines(s) == seq![s],
    decreases s.len(),
{
    if s.len() > 0 {
        lemma_split_single(s.drop_last());
        assert(s.drop_last().push(s.last()) =~= s);
        assert(seq![s.drop_last()].update(0, s.drop_last().push(s.last())) =~= seq![s]);
    } else {
        assert(s =~= Seq::<char>::empty());
    }
}

proof fn lemma_split_append(p: Seq<char>, s: Seq<char>)
    requires
        single_line(s),
    ensures
        split_lines(p + seq!['\n'] + s) == split_lines(p).push(s),
    decreases s.len(),
{
    let t = p + seq!['\n'] + s;
    if s.len() == 0 {
        assert(t.drop_last() =~= p);
        assert(s =~= Seq::<char>::empty());
    } else {
        lemma_split_append(p, s.drop_last());
        assert(t.drop_last() =~= p + seq!['\n'] + s.drop_last());
        assert(t.last() == s.last());
        assert(s.drop_last().push(s.last()) =~= s);
        assert(split_lines(p).push(s.drop_last()).update(
            split_lines(p).len() as int,
            s.drop_last().push(s.last()),
        ) =~= split_lines(p).push(s));
    }
}

proof fn lemma_shown_single(y: Seq<char>)
    ensures
        shown_lines(seq![y]) == (if trim(y).len() > 0 {
            seq![trim(y)]
        } else {
            Seq::<Seq<char>>::empty()
        }),
{
    assert(seq![y].drop_last() =~= Seq::<Seq<char>>::empty());
    assert(seq![y].last() == y);
    assert(shown_lines(Seq::<Seq<char>>::empty()) == Seq::<Seq<char>>::empty());
    assert(Seq::<Seq<char>>::empty().push(trim(y)) =~= seq![trim(y)]);
}

proof fn lemma_shown_push(x: Seq<Seq<char>>, y: Seq<char>)
    ensures
        shown_lines(x.push(y)) == shown_lines(x) + shown_lines(seq![y]),
{
    assert(x.push(y).drop_last() =~= x);
    assert(x.push(y).last() == y);
    lemma_shown_single(y);
    assert(shown_lines(x) + Seq::<Seq<char>>::empty() =~= shown_lines(x));
    assert(shown_lines(x) + seq![trim(y)] =~= shown_lines(x).push(trim(y)));
}

/// A text of one line shows that line trimmed, or nothing when it is blank.
pub proof fn lemma_note_lines_single(s: Seq<char>)
    requires
        single_line(s),
    ensures
        note_lines(s) == (if trim(s).len() > 0 {
            seq![trim(s)]
        } else {
            Seq::<Seq<char>>::empty()
        }),
{
    lemma_split_single(s);
    lemma_shown_single(s);
}

/// A further line after a line feed adds its own lines after those already
/// shown: every line of the notes is shown, in order, without any cap.
pub proof fn lemma_note_lines_append(p: Seq<char>, s: Seq<char>)
    requires
        single_line(s),
    ensures
        note_lines(p + seq!['\n'] + s) == note_lines(p) + note_lines(s),
{
    lemma_split_append(p, s);
    lemma_shown_push(split_lines(p), s);
    lemma_split_single(s);
}

} // verus!
