//! Character-level text operations used by the parsers of this crate.
//!
//! Every operation works on the sequence of `char`s of a string and is
//! specified by a spec function over `Seq<char>`.
use vstd::prelude::*;

verus! {

// ---------------------------------------------------------------------------
// Specifications
// ---------------------------------------------------------------------------

/// The characters with the Unicode `White_Space` property (what
/// `char::is_whitespace` tests).
pub open spec fn is_white_space(c: char) -> bool {
    ||| ('\t' <= c && c <= '\r')
    ||| c == ' '
    ||| c == '\u{85}'
    ||| c == '\u{a0}'
    ||| c == '\u{1680}'
    ||| ('\u{2000}' <= c && c <= '\u{200a}')
    ||| c == '\u{2028}'
    ||| c == '\u{2029}'
    ||| c == '\u{202f}'
    ||| c == '\u{205f}'
    ||| c == '\u{3000}'
}

/// `s` without its leading white space.
pub open spec fn trim_start_spec(s: Seq<char>) -> Seq<char>
    decreases s.len(),
{
    if s.len() > 0 && is_white_space(s[0]) {
        trim_start_spec(s.drop_first())
    } else {
        s
    }
}

/// `s` without its trailing white space.
pub open spec fn trim_end_spec(s: Seq<char>) -> Seq<char>
    decreases s.len(),
{
    if s.len() > 0 && is_white_space(s.last()) {
        trim_end_spec(s.drop_last())
    } else {
        s
    }
}

/// `s` without leading and trailing white space.
pub open spec fn trim_spec(s: Seq<char>) -> Seq<char> {
    trim_end_spec(trim_start_spec(s))
}

/// `s` without any number of trailing copies of `c`.
pub open spec fn trim_end_char_spec(s: Seq<char>, c: char) -> Seq<char>
    decreases s.len(),
{
    if s.len() > 0 && s.last() == c {
        trim_end_char_spec(s.drop_last(), c)
    } else {
        s
    }
}

/// `pat` occurs in `s` at position `i`.
pub open spec fn matches_at(s: Seq<char>, i: int, pat: Seq<char>) -> bool {
    &&& 0 <= i
    &&& i + pat.len() <= s.len()
    &&& s.subrange(i, i + pat.len()) == pat
}

/// `s` begins with `prefix`.
pub open spec fn has_prefix(s: Seq<char>, prefix: Seq<char>) -> bool {
    matches_at(s, 0, prefix)
}

/// The pieces of `s` between occurrences of `sep` (what `str::split` with a
/// `char` separator yields); there is always at least one piece.
pub open spec fn split_spec(s: Seq<char>, sep: char) -> Seq<Seq<char>>
    decreases s.len(),
{
    if s.len() == 0 {
        seq![Seq::<char>::empty()]
    } else {
        let prev = split_spec(s.drop_last(), sep);
        if s.last() == sep {
            prev.push(Seq::<char>::empty())
        } else {
            prev.update(prev.len() - 1, prev.last().push(s.last()))
        }
    }
}

/// The piece of `s` before the first `sep` (all of `s` when there is none).
pub open spec fn before_first(s: Seq<char>, sep: char) -> Seq<char> {
    split_spec(s, sep)[0]
}

/// The piece of `s` after the last `sep` (all of `s` when there is none).
pub open spec fn after_last(s: Seq<char>, sep: char) -> Seq<char> {
    split_spec(s, sep).last()
}

/// One trailing carriage return removed, if there is one.
pub open spec fn strip_cr(s: Seq<char>) -> Seq<char> {
    if s.len() > 0 && s.last() == '\r' {
        s.drop_last()
    } else {
        s
    }
}

/// The lines of `s` as `str::lines` yields them: the text between line feeds,
/// a carriage return before a line feed dropped, and no empty line after a
/// final line feed.
pub open spec fn lines_spec(s: Seq<char>) -> Seq<Seq<char>> {
    let p = split_spec(s, '\n');
    let kept = if p.last().len() == 0 {
        (p.len() - 1) as nat
    } else {
        p.len()
    };
    Seq::new(kept, |k: int| if k < p.len() - 1 { strip_cr(p[k]) } else { p[k] })
}

/// Every occurrence of `pat` in `s`, scanned from the left without overlap,
/// replaced by `rep`.
pub open spec fn replace_spec(s: Seq<char>, pat: Seq<char>, rep: Seq<char>) -> Seq<char>
    decreases s.len(),
{
    if s.len() == 0 {
        Seq::<char>::empty()
    } else if pat.len() > 0 && has_prefix(s, pat) {
        rep + replace_spec(s.skip(pat.len() as int), pat, rep)
    } else {
        seq![s[0]] + replace_spec(s.skip(1), pat, rep)
    }
}

/// The decimal digit for `d < 10`.
pub open spec fn digit_spec(d: nat) -> char {
    if d == 0 {
        '0'
    } else if d == 1 {
        '1'
    } else if d == 2 {
        '2'
    } else if d == 3 {
        '3'
    } else if d == 4 {
        '4'
    } else if d == 5 {
        '5'
    } else if d == 6 {
        '6'
    } else if d == 7 {
        '7'
    } else if d == 8 {
        '8'
    } else {
        '9'
    }
}

/// The decimal representation of `n`, without leading zeros.
pub open spec fn decimal_spec(n: nat) -> Seq<char>
    decreases n,
{
    if n < 10 {
        seq![digit_spec(n)]
    } else {
        decimal_spec(n / 10).push(digit_spec(n % 10))
    }
}

// ---------------------------------------------------------------------------
// Lemmas
// ---------------------------------------------------------------------------

/// `split_spec` always yields at least one piece.
pub proof fn lemma_split_nonempty(s: Seq<char>, sep: char)
    ensures
        split_spec(s, sep).len() >= 1,
    decreases s.len(),
{
    if s.len() > 0 {
        lemma_split_nonempty(s.drop_last(), sep);
    }
}

/// The pieces `ps` joined with `sep` between them.
pub open spec fn join_spec(ps: Seq<Seq<char>>, sep: char) -> Seq<char>
    decreases ps.len(),
{
    if ps.len() == 0 {
        Seq::<char>::empty()
    } else if ps.len() == 1 {
        ps[0]
    } else {
        join_spec(ps.drop_last(), sep) + seq![sep] + ps.last()
    }
}

/// Splitting loses nothing: the pieces, joined with the separator, give
/// back the text, and no piece holds the separator.
pub proof fn lemma_split_join(s: Seq<char>, sep: char)
    ensures
        join_spec(split_spec(s, sep), sep) == s,
        forall|k: int|
            0 <= k < split_spec(s, sep).len() ==> !(#[trigger] split_spec(s, sep)[k]).contains(sep),
    decreases s.len(),
{
    lemma_split_nonempty(s, sep);
    if s.len() > 0 {
        let t = s.drop_last();
        lemma_split_join(t, sep);
        lemma_split_nonempty(t, sep);
        let prev = split_spec(t, sep);
        let c = s.last();
        if c == sep {
            let ps = prev.push(Seq::<char>::empty());
            assert(ps.drop_last() =~= prev);
            assert(join_spec(ps, sep) =~= t + seq![sep] + Seq::<char>::empty());
            assert(s =~= t.push(c));
            assert forall|k: int| 0 <= k < ps.len() implies !(#[trigger] ps[k]).contains(sep) by {
                if k < prev.len() {
                    assert(ps[k] == prev[k]);
                }
            }
        } else {
            let ps = prev.update(prev.len() - 1, prev.last().push(c));
            assert forall|k: int| 0 <= k < ps.len() implies !(#[trigger] ps[k]).contains(sep) by {
                if k < prev.len() - 1 {
                    assert(ps[k] == prev[k]);
                } else {
                    assert(!prev[k].contains(sep));
                    if ps[k].contains(sep) {
                        let j = choose|j: int| 0 <= j < ps[k].len() && ps[k][j] == sep;
                        if j < prev[k].len() {
                            assert(prev[k][j] == sep);
                        }
                    }
                }
            }
            if prev.len() == 1 {
                assert(join_spec(ps, sep) == ps[0]);
                assert(join_spec(prev, sep) == prev[0]);
                assert(s =~= t.push(c));
            } else {
                assert(ps.drop_last() =~= prev.drop_last());
                assert(join_spec(ps, sep) =~= join_spec(prev.drop_last(), sep) + seq![sep]
                    + prev.last().push(c));
                assert(s =~= (join_spec(prev.drop_last(), sep) + seq![sep] + prev.last()).push(c));
            }
        }
    }
}

/// No line holds a line feed, and there are never more lines than pieces
/// between line feeds.
pub proof fn lemma_lines_have_no_line_feed(s: Seq<char>)
    ensures
        lines_spec(s).len() <= split_spec(s, '\n').len(),
        forall|k: int| 0 <= k < lines_spec(s).len() ==> !(#[trigger] lines_spec(s)[k]).contains('\n'),
{
    lemma_split_join(s, '\n');
    lemma_split_nonempty(s, '\n');
    let p = split_spec(s, '\n');
    assert forall|k: int| 0 <= k < lines_spec(s).len() implies !(#[trigger] lines_spec(s)[k]).contains('\n') by {
        assert(!p[k].contains('\n'));
        let l = lines_spec(s)[k];
        if l.contains('\n') {
            let j = choose|j: int| 0 <= j < l.len() && l[j] == '\n';
            if k < p.len() - 1 && p[k].len() > 0 && p[k].last() == '\r' {
                assert(l == p[k].drop_last());
                assert(p[k][j] == '\n');
            } else {
                assert(l == p[k]);
            }
        }
    }
}

/// The first piece of a join is where the joined text begins.
proof fn lemma_join_prefix(ps: Seq<Seq<char>>, sep: char)
    requires
        ps.len() >= 1,
    ensures
        join_spec(ps, sep).len() >= ps[0].len(),
        join_spec(ps, sep).subrange(0, ps[0].len() as int) == ps[0],
    decreases ps.len(),
{
    if ps.len() > 1 {
        lemma_join_prefix(ps.drop_last(), sep);
        let j = join_spec(ps.drop_last(), sep);
        assert((j + seq![sep] + ps.last()).subrange(0, ps[0].len() as int) =~= j.subrange(
            0,
            ps[0].len() as int,
        ));
    }
}

/// The piece before the first separator begins the text and holds no
/// separator.
pub proof fn lemma_before_first(s: Seq<char>, sep: char)
    ensures
        !before_first(s, sep).contains(sep),
        before_first(s, sep).len() <= s.len(),
        s.subrange(0, before_first(s, sep).len() as int) == before_first(s, sep),
{
    lemma_split_join(s, sep);
    lemma_split_nonempty(s, sep);
    lemma_join_prefix(split_spec(s, sep), sep);
    assert(!split_spec(s, sep)[0].contains(sep));
}

proof fn lemma_join_first_sep(ps: Seq<Seq<char>>, sep: char)
    requires
        ps.len() >= 2,
    ensures
        join_spec(ps, sep).len() > ps[0].len(),
        join_spec(ps, sep)[ps[0].len() as int] == sep,
    decreases ps.len(),
{
    let q = ps.drop_last();
    if q.len() == 1 {
        assert(join_spec(q, sep) == ps[0]);
    } else {
        lemma_join_first_sep(q, sep);
    }
    let j = join_spec(q, sep);
    assert((j + seq![sep] + ps.last())[ps[0].len() as int] == j[ps[0].len() as int]
        || ps[0].len() == j.len());
}

/// The piece before the first separator ends where the text ends or right
/// before a separator.
pub proof fn lemma_before_first_boundary(s: Seq<char>, sep: char)
    ensures
        before_first(s, sep).len() == s.len() || s[before_first(s, sep).len() as int] == sep,
{
    lemma_split_join(s, sep);
    lemma_split_nonempty(s, sep);
    let ps = split_spec(s, sep);
    if ps.len() == 1 {
        assert(join_spec(ps, sep) == ps[0]);
    } else {
        lemma_join_first_sep(ps, sep);
    }
}

/// The piece after the last separator holds no separator.
pub proof fn lemma_after_last(s: Seq<char>, sep: char)
    ensures
        !after_last(s, sep).contains(sep),
{
    lemma_split_join(s, sep);
    lemma_split_nonempty(s, sep);
    let ps = split_spec(s, sep);
    assert(!ps[ps.len() - 1].contains(sep));
}

proof fn lemma_trim_start_shape(s: Seq<char>)
    ensures
        trim_start_spec(s).len() > 0 ==> !is_white_space(trim_start_spec(s)[0]),
        trim_start_spec(s).len() <= s.len(),
        trim_start_spec(s) == s.skip(s.len() - trim_start_spec(s).len()),
    decreases s.len(),
{
    if s.len() > 0 && is_white_space(s[0]) {
        lemma_trim_start_shape(s.drop_first());
        let r = trim_start_spec(s.drop_first());
        assert(s.drop_first().skip(s.drop_first().len() - r.len()) =~= s.skip(s.len() - r.len()));
    } else {
        assert(s.skip(0) =~= s);
    }
}

proof fn lemma_trim_end_shape(s: Seq<char>)
    ensures
        trim_end_spec(s).len() > 0 ==> !is_white_space(trim_end_spec(s).last()),
        trim_end_spec(s).len() <= s.len(),
        trim_end_spec(s) == s.take(trim_end_spec(s).len() as int),
    decreases s.len(),
{
    if s.len() > 0 && is_white_space(s.last()) {
        lemma_trim_end_shape(s.drop_last());
        let r = trim_end_spec(s.drop_last());
        assert(s.drop_last().take(r.len() as int) =~= s.take(r.len() as int));
    } else {
        assert(s.take(s.len() as int) =~= s);
    }
}

/// Trimmed text neither begins nor ends with white space, and trimming it
/// again changes nothing.
pub proof fn lemma_trim_idempotent(s: Seq<char>)
    ensures
        trim_spec(s).len() > 0 ==> !is_white_space(trim_spec(s)[0]) && !is_white_space(
            trim_spec(s).last(),
        ),
        trim_spec(trim_spec(s)) == trim_spec(s),
{
    let a = trim_start_spec(s);
    let t = trim_end_spec(a);
    lemma_trim_start_shape(s);
    lemma_trim_end_shape(a);
    if t.len() > 0 {
        assert(t[0] == a[0]);
    }
    // trimming t: no leading white space, so the start stays
    assert(trim_start_spec(t) == t);
    // and no trailing white space
    assert(trim_end_spec(t) == t);
}

/// After removing every trailing `c`, the text does not end with `c`.
pub proof fn lemma_trim_end_char(s: Seq<char>, c: char)
    ensures
        trim_end_char_spec(s, c).len() > 0 ==> trim_end_char_spec(s, c).last() != c,
        trim_end_char_spec(s, c).len() <= s.len(),
        trim_end_char_spec(s, c) == s.take(trim_end_char_spec(s, c).len() as int),
    decreases s.len(),
{
    if s.len() > 0 && s.last() == c {
        lemma_trim_end_char(s.drop_last(), c);
        let r = trim_end_char_spec(s.drop_last(), c);
        assert(s.drop_last().take(r.len() as int) =~= s.take(r.len() as int));
    } else {
        assert(s.take(s.len() as int) =~= s);
    }
}

// ---------------------------------------------------------------------------
// Conversions between strings and character vectors
// ---------------------------------------------------------------------------

/// `String::push`: appends `c` to `s`.
#[verifier::external_body]
fn push_char(s: &mut String, c: char)
    ensures
        final(s)@ == old(s)@.push(c),
{
    s.push(c);
}

/// The characters of `s`.
pub fn chars_of(s: &str) -> (res: Vec<char>)
    ensures
        res@ == s@,
{
    let mut res: Vec<char> = Vec::new();
    for c in it: s.chars()
        invariant
            it.seq() == s@,
            res@ == it.seq().subrange(0, it.index() as int),
    {
        res.push(c);
    }
    res
}

/// The string made of the characters `cs`.
pub fn string_of(cs: &Vec<char>) -> (res: String)
    ensures
        res@ == cs@,
{
    let mut res = String::new();
    let mut i: usize = 0;
    while i < cs.len()
        invariant
            i <= cs.len(),
            res@ == cs@.subrange(0, i as int),
        decreases cs.len() - i,
    {
        push_char(&mut res, cs[i]);
        proof {
            assert(cs@.subrange(0, i + 1) =~= cs@.subrange(0, i as int).push(cs@[i as int]));
        }
        i += 1;
    }
    proof {
        assert(cs@.subrange(0, cs@.len() as int) =~= cs@);
    }
    res
}

/// The characters of `s` from position `from` up to (not including) `to`.
pub fn sub_chars(s: &Vec<char>, from: usize, to: usize) -> (res: Vec<char>)
    requires
        from <= to <= s.len(),
    ensures
        res@ == s@.subrange(from as int, to as int),
{
    let mut res: Vec<char> = Vec::new();
    let mut i: usize = from;
    while i < to
        invariant
            from <= i <= to <= s.len(),
            res@ == s@.subrange(from as int, i as int),
        decreases to - i,
    {
        res.push(s[i]);
        proof {
            assert(s@.subrange(from as int, i + 1) =~= s@.subrange(from as int, i as int).push(
                s@[i as int],
            ));
        }
        i += 1;
    }
    res
}

/// `a` followed by `b`.
pub fn join_text(a: &str, b: &str) -> (res: String)
    ensures
        res@ == a@ + b@,
{
    let mut ca = chars_of(a);
    let cb = chars_of(b);
    let mut i: usize = 0;
    while i < cb.len()
        invariant
            i <= cb.len(),
            cb@ == b@,
            ca@ == a@ + cb@.subrange(0, i as int),
        decreases cb.len() - i,
    {
        ca.push(cb[i]);
        proof {
            assert(cb@.subrange(0, i + 1) =~= cb@.subrange(0, i as int).push(cb@[i as int]));
        }
        i += 1;
    }
    proof {
        assert(cb@.subrange(0, cb@.len() as int) =~= cb@);
    }
    string_of(&ca)
}

/// Whether `a` and `b` hold the same characters.
pub fn str_equal(a: &str, b: &str) -> (res: bool)
    ensures
        res == (a@ == b@),
{
    let ca = chars_of(a);
    let cb = chars_of(b);
    if ca.len() != cb.len() {
        return false;
    }
    let mut i: usize = 0;
    while i < ca.len()
        invariant
            i <= ca.len() == cb.len(),
            ca@ == a@,
            cb@ == b@,
            forall|j: int| 0 <= j < i ==> ca@[j] == cb@[j],
        decreases ca.len() - i,
    {
        if ca[i] != cb[i] {
            return false;
        }
        i += 1;
    }
    proof {
        assert(ca@ =~= cb@);
    }
    true
}

// ---------------------------------------------------------------------------
// White space
// ---------------------------------------------------------------------------

/// Whether `c` is white space (`char::is_whitespace`).
pub fn is_white_space_char(c: char) -> (res: bool)
    ensures
        res == is_white_space(c),
{
    ('\t' <= c && c <= '\r') || c == ' ' || c == '\u{85}' || c == '\u{a0}' || c == '\u{1680}' || (
    '\u{2000}' <= c && c <= '\u{200a}') || c == '\u{2028}' || c == '\u{2029}' || c == '\u{202f}'
        || c == '\u{205f}' || c == '\u{3000}'
}

/// The characters of `s` without leading and trailing white space.
pub fn trim_chars(s: &Vec<char>) -> (res: Vec<char>)
    ensures
        res@ == trim_spec(s@),
{
    let n = s.len();
    let mut a: usize = 0;
    proof {
        assert(s@.skip(0) =~= s@);
    }
    while a < n && is_white_space_char(s[a])
        invariant
            a <= n,
            n == s@.len(),
            trim_start_spec(s@) == trim_start_spec(s@.skip(a as int)),
        decreases n - a,
    {
        proof {
            assert(s@.skip(a as int).drop_first() =~= s@.skip(a + 1));
        }
        a += 1;
    }
    proof {
        assert(trim_start_spec(s@.skip(a as int)) == s@.skip(a as int));
        assert(s@.skip(a as int) =~= s@.subrange(a as int, n as int));
    }
    let mut b: usize = n;
    while b > a && is_white_space_char(s[b - 1])
        invariant
            a <= b <= n,
            n == s@.len(),
            trim_spec(s@) == trim_end_spec(s@.subrange(a as int, b as int)),
        decreases b - a,
    {
        proof {
            assert(s@.subrange(a as int, b as int).drop_last() =~= s@.subrange(
                a as int,
                b - 1,
            ));
        }
        b -= 1;
    }
    sub_chars(s, a, b)
}

/// `s` without leading and trailing white space (`str::trim`).
pub fn trim(s: &str) -> (res: String)
    ensures
        res@ == trim_spec(s@),
{
    let cs = chars_of(s);
    let t = trim_chars(&cs);
    string_of(&t)
}

/// `s` without any number of trailing copies of `c` (`str::trim_end_matches`
/// with a `char`).
pub fn trim_end_char(s: &str, c: char) -> (res: String)
    ensures
        res@ == trim_end_char_spec(s@, c),
{
    let cs = chars_of(s);
    let mut b: usize = cs.len();
    proof {
        assert(cs@.subrange(0, b as int) =~= cs@);
    }
    while b > 0 && cs[b - 1] == c
        invariant
            b <= cs.len(),
            cs@ == s@,
            trim_end_char_spec(s@, c) == trim_end_char_spec(cs@.subrange(0, b as int), c),
        decreases b,
    {
        proof {
            assert(cs@.subrange(0, b as int).drop_last() =~= cs@.subrange(0, b - 1));
        }
        b -= 1;
    }
    let t = sub_chars(&cs, 0, b);
    string_of(&t)
}

// ---------------------------------------------------------------------------
// Searching
// ---------------------------------------------------------------------------

/// Whether `pat` occurs in `s` at position `i`.
pub fn matches_at_exec(s: &Vec<char>, i: usize, pat: &Vec<char>) -> (res: bool)
    ensures
        res == matches_at(s@, i as int, pat@),
{
    if i > s.len() || pat.len() > s.len() - i {
        return false;
    }
    let mut k: usize = 0;
    while k < pat.len()
        invariant
            i + pat.len() <= s.len(),
            k <= pat.len(),
            forall|j: int| 0 <= j < k ==> s@[i + j] == pat@[j],
        decreases pat.len() - k,
    {
        if s[i + k] != pat[k] {
            proof {
                assert(s@.subrange(i as int, i + pat.len())[k as int] != pat@[k as int]);
            }
            return false;
        }
        k += 1;
    }
    proof {
        assert(s@.subrange(i as int, i + pat@.len()) =~= pat@);
    }
    true
}

/// Whether `s` begins with `prefix` (`str::starts_with`).
pub fn starts_with(s: &str, prefix: &str) -> (res: bool)
    ensures
        res == has_prefix(s@, prefix@),
{
    let cs = chars_of(s);
    let cp = chars_of(prefix);
    matches_at_exec(&cs, 0, &cp)
}

/// `s` without `prefix` when it begins with it (`str::strip_prefix`).
pub fn strip_prefix(s: &str, prefix: &str) -> (res: Option<String>)
    ensures
        res is Some <==> has_prefix(s@, prefix@),
        res matches Some(rest) ==> rest@ == s@.skip(prefix@.len() as int),
{
    let cs = chars_of(s);
    let cp = chars_of(prefix);
    if matches_at_exec(&cs, 0, &cp) {
        let rest = sub_chars(&cs, cp.len(), cs.len());
        proof {
            assert(rest@ =~= s@.skip(prefix@.len() as int));
        }
        Some(string_of(&rest))
    } else {
        None
    }
}

/// The first position at which `pat` occurs in `s` (`str::find`).
pub fn find(s: &str, pat: &str) -> (res: Option<usize>)
    ensures
        res matches Some(i) ==> matches_at(s@, i as int, pat@) && forall|j: int|
            0 <= j < i ==> !matches_at(s@, j, pat@),
        res is None ==> forall|j: int| !matches_at(s@, j, pat@),
{
    let cs = chars_of(s);
    let cp = chars_of(pat);
    let mut i: usize = 0;
    while i < cs.len()
        invariant
            i <= cs.len(),
            cs@ == s@,
            cp@ == pat@,
            forall|j: int| 0 <= j < i ==> !matches_at(s@, j, pat@),
        decreases cs.len() - i,
    {
        if matches_at_exec(&cs, i, &cp) {
            return Some(i);
        }
        i += 1;
    }
    if matches_at_exec(&cs, i, &cp) {
        return Some(i);
    }
    None
}

/// The characters of `s` from the first occurrence of `pat` on, if there is
/// one.
pub fn from_first(s: &str, pat: &str) -> (res: Option<String>)
    ensures
        res is Some <==> exists|j: int| matches_at(s@, j, pat@),
        res matches Some(t) ==> exists|i: int|
            #![trigger matches_at(s@, i, pat@)]
            {
                &&& matches_at(s@, i, pat@)
                &&& (forall|j: int| 0 <= j < i ==> !matches_at(s@, j, pat@))
                &&& t@ == s@.skip(i)
            },
{
    match find(s, pat) {
        Some(i) => {
            let cs = chars_of(s);
            let t = sub_chars(&cs, i, cs.len());
            proof {
                assert(t@ =~= s@.skip(i as int));
            }
            Some(string_of(&t))
        },
        None => None,
    }
}

// ---------------------------------------------------------------------------
// Splitting
// ---------------------------------------------------------------------------

/// The views of a vector of character vectors.
pub open spec fn views_of(v: Seq<Vec<char>>) -> Seq<Seq<char>> {
    v.map_values(|p: Vec<char>| p@)
}

/// The pieces of `s` between occurrences of `sep` (`str::split`).
pub fn split_chars(s: &Vec<char>, sep: char) -> (res: Vec<Vec<char>>)
    ensures
        views_of(res@) == split_spec(s@, sep),
        res@.len() >= 1,
{
    let mut pieces: Vec<Vec<char>> = Vec::new();
    let mut cur: Vec<char> = Vec::new();
    let mut i: usize = 0;
    proof {
        assert(s@.take(0) =~= Seq::<char>::empty());
        assert(views_of(pieces@).push(cur@) =~= seq![Seq::<char>::empty()]);
    }
    while i < s.len()
        invariant
            i <= s.len(),
            views_of(pieces@).push(cur@) == split_spec(s@.take(i as int), sep),
        decreases s.len() - i,
    {
        let c = s[i];
        proof {
            assert(s@.take(i + 1).drop_last() =~= s@.take(i as int));
            assert(s@.take(i + 1).last() == c);
            lemma_split_nonempty(s@.take(i as int), sep);
        }
        let ghost old_pieces = views_of(pieces@);
        let ghost old_cur = cur@;
        if c == sep {
            pieces.push(cur);
            cur = Vec::new();
            proof {
                assert(views_of(pieces@) =~= old_pieces.push(old_cur));
                assert(views_of(pieces@).push(cur@) =~= old_pieces.push(old_cur).push(
                    Seq::<char>::empty(),
                ));
            }
        } else {
            cur.push(c);
            proof {
                assert(views_of(pieces@).push(cur@) =~= old_pieces.push(old_cur).update(
                    old_pieces.len() as int,
                    old_cur.push(c),
                ));
            }
        }
        i += 1;
    }
    let ghost before = views_of(pieces@);
    let ghost last = cur@;
    pieces.push(cur);
    proof {
        assert(s@.take(s@.len() as int) =~= s@);
        assert(views_of(pieces@) =~= before.push(last));
    }
    pieces
}

/// The piece of `cs` before the first `sep`.
pub fn first_piece_chars(cs: &Vec<char>, sep: char) -> (res: Vec<char>)
    ensures
        res@ == before_first(cs@, sep),
{
    let pieces = split_chars(cs, sep);
    proof {
        assert(views_of(pieces@)[0] == pieces@[0]@);
    }
    let n = pieces[0].len();
    let r = sub_chars(&pieces[0], 0, n);
    proof {
        assert(pieces@[0]@.subrange(0, n as int) =~= pieces@[0]@);
    }
    r
}

/// The piece of `cs` after the last `sep`.
pub fn last_piece_chars(cs: &Vec<char>, sep: char) -> (res: Vec<char>)
    ensures
        res@ == after_last(cs@, sep),
{
    let pieces = split_chars(cs, sep);
    let k = pieces.len() - 1;
    proof {
        assert(views_of(pieces@)[k as int] == pieces@[k as int]@);
    }
    let n = pieces[k].len();
    let r = sub_chars(&pieces[k], 0, n);
    proof {
        assert(pieces@[k as int]@.subrange(0, n as int) =~= pieces@[k as int]@);
    }
    r
}

/// The piece of `s` before the first `sep` (`s.split(sep).next()`).
pub fn first_piece(s: &str, sep: char) -> (res: String)
    ensures
        res@ == before_first(s@, sep),
{
    let cs = chars_of(s);
    let r = first_piece_chars(&cs, sep);
    string_of(&r)
}

/// The piece of `s` after the last `sep` (`s.split(sep).last()`).
pub fn last_piece(s: &str, sep: char) -> (res: String)
    ensures
        res@ == after_last(s@, sep),
{
    let cs = chars_of(s);
    let r = last_piece_chars(&cs, sep);
    string_of(&r)
}

/// The lines of `s` (`str::lines`).
pub fn lines(s: &str) -> (res: Vec<Vec<char>>)
    ensures
        views_of(res@) == lines_spec(s@),
{
    let cs = chars_of(s);
    let p = split_chars(&cs, '\n');
    let n = p.len();
    let kept = if p[n - 1].len() == 0 {
        n - 1
    } else {
        n
    };
    let ghost ps = views_of(p@);
    proof {
        assert(ps.last() == p@[n - 1]@);
    }
    let mut res: Vec<Vec<char>> = Vec::new();
    let mut k: usize = 0;
    while k < kept
        invariant
            k <= kept <= n == p@.len(),
            ps == views_of(p@),
            ps == split_spec(s@, '\n'),
            kept == (if ps.last().len() == 0 {
                (ps.len() - 1) as nat
            } else {
                ps.len()
            }),
            res@.len() == k,
            forall|j: int|
                0 <= j < k ==> #[trigger] res@[j]@ == (if j < ps.len() - 1 {
                    strip_cr(ps[j])
                } else {
                    ps[j]
                }),
        decreases kept - k,
    {
        let piece = &p[k];
        proof {
            assert(ps[k as int] == piece@);
        }
        let len = piece.len();
        let line = if k < n - 1 && len > 0 && piece[len - 1] == '\r' {
            sub_chars(piece, 0, len - 1)
        } else {
            sub_chars(piece, 0, len)
        };
        proof {
            assert(piece@.subrange(0, len as int) =~= piece@);
            assert(piece@.subrange(0, len - 1) =~= piece@.drop_last());
        }
        res.push(line);
        k += 1;
    }
    proof {
        assert(views_of(res@) =~= lines_spec(s@));
    }
    res
}

// ---------------------------------------------------------------------------
// Replacing
// ---------------------------------------------------------------------------

proof fn lemma_replace_step(s: Seq<char>, i: int, pat: Seq<char>, rep: Seq<char>)
    requires
        0 <= i < s.len(),
        pat.len() > 0,
    ensures
        matches_at(s, i, pat) ==> replace_spec(s.skip(i), pat, rep) == rep + replace_spec(
            s.skip(i + pat.len()),
            pat,
            rep,
        ),
        !matches_at(s, i, pat) ==> replace_spec(s.skip(i), pat, rep) == seq![s[i]]
            + replace_spec(s.skip(i + 1), pat, rep),
{
    let t = s.skip(i);
    assert(t.len() > 0);
    if matches_at(s, i, pat) {
        assert(t.subrange(0, pat.len() as int) =~= s.subrange(i, i + pat.len()));
        assert(t.skip(pat.len() as int) =~= s.skip(i + pat.len()));
    } else {
        if i + pat.len() <= s.len() {
            assert(t.subrange(0, pat.len() as int) =~= s.subrange(i, i + pat.len()));
        }
        assert(t.skip(1) =~= s.skip(i + 1));
    }
}

/// Every occurrence of `pat` in `s` replaced by `rep` (`str::replace`, for a
/// pattern that is not empty).
pub fn replace(s: &str, pat: &str, rep: &str) -> (res: String)
    requires
        pat@.len() > 0,
    ensures
        res@ == replace_spec(s@, pat@, rep@),
{
    let cs = chars_of(s);
    let cp = chars_of(pat);
    let cr = chars_of(rep);
    let mut out: Vec<char> = Vec::new();
    let mut i: usize = 0;
    proof {
        assert(s@.skip(0) =~= s@);
    }
    while i < cs.len()
        invariant
            i <= cs.len(),
            cs@ == s@,
            cp@ == pat@,
            cr@ == rep@,
            pat@.len() > 0,
            replace_spec(s@, pat@, rep@) == out@ + replace_spec(s@.skip(i as int), pat@, rep@),
        decreases cs.len() - i,
    {
        proof {
            lemma_replace_step(s@, i as int, pat@, rep@);
        }
        let ghost before = out@;
        if matches_at_exec(&cs, i, &cp) {
            let mut k: usize = 0;
            while k < cr.len()
                invariant
                    k <= cr.len(),
                    out@ == before + cr@.subrange(0, k as int),
                decreases cr.len() - k,
            {
                out.push(cr[k]);
                proof {
                    assert(cr@.subrange(0, k + 1) =~= cr@.subrange(0, k as int).push(
                        cr@[k as int],
                    ));
                }
                k += 1;
            }
            proof {
                assert(cr@.subrange(0, cr@.len() as int) =~= cr@);
                assert(out@ + replace_spec(s@.skip(i + cp@.len()), pat@, rep@) =~= before + (
                rep@ + replace_spec(s@.skip(i + cp@.len()), pat@, rep@)));
            }
            i = i + cp.len();
        } else {
            out.push(cs[i]);
            proof {
                assert(out@ + replace_spec(s@.skip(i + 1), pat@, rep@) =~= before + (seq![
                    s@[i as int],
                ] + replace_spec(s@.skip(i + 1), pat@, rep@)));
            }
            i = i + 1;
        }
    }
    proof {
        assert(s@.skip(cs@.len() as int) =~= Seq::<char>::empty());
        assert(out@ + Seq::<char>::empty() =~= out@);
    }
    string_of(&out)
}

// ---------------------------------------------------------------------------
// Numbers
// ---------------------------------------------------------------------------

fn digit(d: u64) -> (c: char)
    requires
        d < 10,
    ensures
        c == digit_spec(d as nat),
{
    if d == 0 {
        '0'
    } else if d == 1 {
        '1'
    } else if d == 2 {
        '2'
    } else if d == 3 {
        '3'
    } else if d == 4 {
        '4'
    } else if d == 5 {
        '5'
    } else if d == 6 {
        '6'
    } else if d == 7 {
        '7'
    } else if d == 8 {
        '8'
    } else {
        '9'
    }
}

fn decimal_chars(n: u64) -> (res: Vec<char>)
    ensures
        res@ == decimal_spec(n as nat),
    decreases n,
{
    if n < 10 {
        let mut v: Vec<char> = Vec::new();
        v.push(digit(n));
        proof {
            assert(v@ =~= seq![digit_spec(n as nat)]);
        }
        v
    } else {
        let mut v = decimal_chars(n / 10);
        v.push(digit(n % 10));
        v
    }
}

/// The decimal representation of `n` (`u64::to_string`).
pub fn decimal(n: u64) -> (res: String)
    ensures
        res@ == decimal_spec(n as nat),
{
    let v = decimal_chars(n);
    string_of(&v)
}

} // verus!
