//! Character-level text handling shared by the parsers of git output.
//!
//! Strings are modelled by their view, a `Seq<char>`.  The spec functions here
//! say what `str::find`, `str::split_once`, `str::strip_prefix`,
//! `str::split_terminator` and `str::lines` compute, and the executable
//! functions compute exactly that.
use vstd::prelude::*;
use vstd::utf8::valid_utf8;
use vstd::utf8::decode_utf8;

verus! {

/// `p` occurs in `s` starting at index `i`.
pub open spec fn occurs_at(s: Seq<char>, p: Seq<char>, i: int) -> bool {
    &&& 0 <= i
    &&& i + p.len() <= s.len()
    &&& s.subrange(i, i + p.len()) == p
}

/// `i` is the first index at which `p` occurs in `s`.
pub open spec fn is_first_occurrence(s: Seq<char>, p: Seq<char>, i: int) -> bool {
    &&& occurs_at(s, p, i)
    &&& forall|j: int| 0 <= j < i ==> !occurs_at(s, p, j)
}

/// The index of the first occurrence of `p` in `s`, if any.
pub open spec fn find_spec(s: Seq<char>, p: Seq<char>) -> Option<int> {
    if exists|i: int| is_first_occurrence(s, p, i) {
        Some(choose|i: int| is_first_occurrence(s, p, i))
    } else {
        None
    }
}

/// What `str::split_once` gives: the text before and after the first occurrence of `p`.
pub open spec fn split_once_spec(s: Seq<char>, p: Seq<char>) -> Option<(Seq<char>, Seq<char>)> {
    match find_spec(s, p) {
        Some(i) => Some((s.take(i), s.skip(i + p.len()))),
        None => None,
    }
}

/// What `str::strip_prefix` gives.
pub open spec fn strip_prefix_spec(s: Seq<char>, p: Seq<char>) -> Option<Seq<char>> {
    if p.is_prefix_of(s) {
        Some(s.skip(p.len() as int))
    } else {
        None
    }
}

/// `s` starts with `p`.
pub open spec fn starts_with_spec(s: Seq<char>, p: Seq<char>) -> bool {
    p.is_prefix_of(s)
}

/// What `str::split` on a single character gives: the pieces between separators.
pub open spec fn split_spec(s: Seq<char>, c: char) -> Seq<Seq<char>>
    decreases s.len(),
{
    if exists|i: int| is_first_occurrence(s, seq![c], i) {
        let i = choose|i: int| is_first_occurrence(s, seq![c], i);
        seq![s.take(i)] + split_spec(s.skip(i + 1), c)
    } else {
        seq![s]
    }
}

/// What `str::split_terminator` on a single character gives: `split`, without a final
/// empty piece.
pub open spec fn split_terminator_spec(s: Seq<char>, c: char) -> Seq<Seq<char>> {
    let parts = split_spec(s, c);
    if parts.last().len() == 0 {
        parts.drop_last()
    } else {
        parts
    }
}

/// Remove one trailing carriage return.
pub open spec fn strip_cr(line: Seq<char>) -> Seq<char> {
    if line.len() > 0 && line.last() == '\r' {
        line.drop_last()
    } else {
        line
    }
}

/// What `str::lines` gives: pieces ended by `\n` (with a `\r` before it removed), and
/// a final unterminated piece when it is not empty.
pub open spec fn lines_spec(s: Seq<char>) -> Seq<Seq<char>> {
    let parts = split_spec(s, '\n');
    let ended = parts.drop_last().map_values(|l: Seq<char>| strip_cr(l));
    if parts.last().len() == 0 {
        ended
    } else {
        ended.push(parts.last())
    }
}

/// The views of a sequence of string slices.
pub open spec fn views(v: Seq<&str>) -> Seq<Seq<char>> {
    v.map_values(|x: &str| x@)
}

/// The views of a sequence of strings.
pub open spec fn string_views(v: Seq<String>) -> Seq<Seq<char>> {
    v.map_values(|x: String| x@)
}

/// A first occurrence is unique.
pub proof fn lemma_first_occurrence_unique(s: Seq<char>, p: Seq<char>, i: int, j: int)
    requires
        is_first_occurrence(s, p, i),
        is_first_occurrence(s, p, j),
    ensures
        i == j,
{
}

/// Once a first occurrence is known, `find_spec` returns it.
pub proof fn lemma_find_is(s: Seq<char>, p: Seq<char>, i: int)
    requires
        is_first_occurrence(s, p, i),
    ensures
        find_spec(s, p) == Some(i),
{
    let k = choose|k: int| is_first_occurrence(s, p, k);
    lemma_first_occurrence_unique(s, p, i, k);
}

/// Without any occurrence, `find_spec` returns `None`.
pub proof fn lemma_find_none(s: Seq<char>, p: Seq<char>)
    requires
        forall|j: int| !occurs_at(s, p, j),
    ensures
        find_spec(s, p) is None,
{
}

/// One step of `split_spec`: a separator at `i`, first in `s`.
pub proof fn lemma_split_step(s: Seq<char>, c: char, i: int)
    requires
        0 <= i < s.len(),
        s[i] == c,
        forall|j: int| 0 <= j < i ==> s[j] != c,
    ensures
        split_spec(s, c) == seq![s.take(i)] + split_spec(s.skip(i + 1), c),
{
    assert(s.subrange(i, i + 1) =~= seq![c]);
    assert forall|j: int| 0 <= j < i implies !occurs_at(s, seq![c], j) by {
        if occurs_at(s, seq![c], j) {
            assert(s.subrange(j, j + 1)[0] == s[j]);
        }
    }
    assert(is_first_occurrence(s, seq![c], i));
    let k = choose|k: int| is_first_occurrence(s, seq![c], k);
    lemma_first_occurrence_unique(s, seq![c], i, k);
}

/// The last step of `split_spec`: no separator left.
pub proof fn lemma_split_last(s: Seq<char>, c: char)
    requires
        forall|j: int| 0 <= j < s.len() ==> s[j] != c,
    ensures
        split_spec(s, c) == seq![s],
{
    assert forall|j: int| !is_first_occurrence(s, seq![c], j) by {
        if is_first_occurrence(s, seq![c], j) {
            assert(s.subrange(j, j + 1)[0] == s[j]);
        }
    }
}

/// The characters of a string slice, as a vector.
pub fn chars_of(s: &str) -> (out: Vec<char>)
    ensures
        out@ == s@,
{
    let mut out: Vec<char> = Vec::new();
    for c in it: s.chars()
        invariant
            out@ == it.seq().take(it.index() as int),
    {
        out.push(c);
    }
    out
}

/// Whether `p` occurs in `s` at index `i`.
pub fn occurs_at_exec(s: &Vec<char>, p: &Vec<char>, i: usize) -> (b: bool)
    ensures
        b == occurs_at(s@, p@, i as int),
{
    if i > s.len() || p.len() > s.len() - i {
        return false;
    }
    let mut k: usize = 0;
    while k < p.len()
        invariant
            i + p.len() <= s.len(),
            k <= p.len(),
            forall|m: int| 0 <= m < k ==> s@[i + m] == p@[m],
        decreases p.len() - k,
    {
        if s[i + k] != p[k] {
            assert(s@.subrange(i as int, i + p.len())[k as int] != p@[k as int]);
            return false;
        }
        k = k + 1;
    }
    assert(s@.subrange(i as int, i + p.len()) =~= p@);
    true
}

/// The first index at which `p` occurs in `s`.
pub fn find_chars(s: &Vec<char>, p: &Vec<char>) -> (r: Option<usize>)
    ensures
        match r {
            Some(i) => find_spec(s@, p@) == Some(i as int) && is_first_occurrence(s@, p@, i as int),
            None => find_spec(s@, p@) is None && forall|j: int| !occurs_at(s@, p@, j),
        },
{
    if p.len() > s.len() {
        proof {
            lemma_find_none(s@, p@);
        }
        return None;
    }
    let last = s.len() - p.len();
    let mut i: usize = 0;
    loop
        invariant
            i <= last,
            last == s@.len() - p@.len(),
            forall|j: int| 0 <= j < i ==> !occurs_at(s@, p@, j),
        ensures
            forall|j: int| 0 <= j <= last ==> !occurs_at(s@, p@, j),
        decreases last - i,
    {
        if occurs_at_exec(s, p, i) {
            proof {
                lemma_find_is(s@, p@, i as int);
            }
            return Some(i);
        }
        if i == last {
            break;
        }
        i = i + 1;
    }
    proof {
        assert forall|j: int| !occurs_at(s@, p@, j) by {
            if j > last {
                assert(j + p@.len() > s@.len());
            }
        }
        lemma_find_none(s@, p@);
    }
    None
}

/// The char index of the first occurrence of `p` in `s` (`str::find`, counted in chars).
pub fn find(s: &str, p: &str) -> (r: Option<usize>)
    ensures
        match r {
            Some(i) => find_spec(s@, p@) == Some(i as int),
            None => find_spec(s@, p@) is None,
        },
{
    let cs = chars_of(s);
    let ps = chars_of(p);
    find_chars(&cs, &ps)
}

/// Whether `p` occurs somewhere in `s`.
pub fn contains(s: &str, p: &str) -> (b: bool)
    ensures
        b == (find_spec(s@, p@) is Some),
        b == exists|j: int| occurs_at(s@, p@, j),
{
    let cs = chars_of(s);
    let ps = chars_of(p);
    match find_chars(&cs, &ps) {
        Some(_) => true,
        None => false,
    }
}

/// Whether `s` starts with `p`.
pub fn starts_with(s: &str, p: &str) -> (b: bool)
    ensures
        b == starts_with_spec(s@, p@),
{
    let cs = chars_of(s);
    let ps = chars_of(p);
    let b = occurs_at_exec(&cs, &ps, 0);
    proof {
        if b {
            assert(s@.subrange(0, p@.len() as int) =~= p@);
        }
        if p@.is_prefix_of(s@) {
            assert(occurs_at(s@, p@, 0));
        }
    }
    b
}

/// Whether two string slices hold the same text.
pub fn str_eq(a: &str, b: &str) -> (r: bool)
    ensures
        r == (a@ == b@),
{
    let ca = chars_of(a);
    let cb = chars_of(b);
    if ca.len() != cb.len() {
        return false;
    }
    let r = occurs_at_exec(&ca, &cb, 0);
    proof {
        if r {
            assert(a@ =~= a@.subrange(0, b@.len() as int));
        } else {
            assert(a@ == b@ ==> a@.subrange(0, b@.len() as int) =~= b@);
        }
    }
    r
}

/// `str::strip_prefix`.
pub fn strip_prefix<'a>(s: &'a str, p: &str) -> (r: Option<&'a str>)
    ensures
        match r {
            Some(rest) => strip_prefix_spec(s@, p@) == Some(rest@),
            None => strip_prefix_spec(s@, p@) is None,
        },
{
    let n = s.unicode_len();
    let m = p.unicode_len();
    if starts_with(s, p) {
        Some(s.substring_char(m, n))
    } else {
        None
    }
}

/// `str::split_once` with a pattern string.
pub fn split_once<'a>(s: &'a str, p: &str) -> (r: Option<(&'a str, &'a str)>)
    ensures
        match r {
            Some((a, b)) => split_once_spec(s@, p@) == Some((a@, b@)),
            None => split_once_spec(s@, p@) is None,
        },
{
    let cs = chars_of(s);
    let ps = chars_of(p);
    match find_chars(&cs, &ps) {
        Some(i) => {
            let plen = ps.len();
            let clen = cs.len();
            assert(occurs_at(cs@, ps@, i as int));
            assert(i + plen <= clen);
            let a = s.substring_char(0, i);
            let b = s.substring_char(i + plen, clen);
            Some((a, b))
        },
        None => None,
    }
}

/// `str::split` on a character.
pub fn split_char<'a>(s: &'a str, c: char) -> (out: Vec<&'a str>)
    ensures
        views(out@) == split_spec(s@, c),
{
    let cs = chars_of(s);
    let n = cs.len();
    let mut out: Vec<&'a str> = Vec::new();
    let mut start: usize = 0;
    let mut j: usize = 0;
    assert(s@.skip(0) =~= s@);
    assert(views(out@) =~= Seq::<Seq<char>>::empty());
    while j < n
        invariant
            n == cs@.len(),
            cs@ == s@,
            start <= j <= n,
            forall|k: int| start <= k < j ==> cs@[k] != c,
            views(out@) + split_spec(s@.skip(start as int), c) == split_spec(s@, c),
        decreases n - j,
    {
        if cs[j] == c {
            let piece = s.substring_char(start, j);
            proof {
                let rest = s@.skip(start as int);
                let i = j - start;
                assert forall|k: int| 0 <= k < i implies rest[k] != c by {
                    assert(rest[k] == cs@[start + k]);
                }
                lemma_split_step(rest, c, i);
                assert(rest.take(i) =~= piece@);
                assert(rest.skip(i + 1) =~= s@.skip(j + 1));
                assert(views(out@.push(piece)) =~= views(out@).push(piece@));
                assert(views(out@).push(piece@) + split_spec(s@.skip(j + 1), c) =~= views(out@)
                    + (seq![rest.take(i)] + split_spec(rest.skip(i + 1), c)));
            }
            out.push(piece);
            start = j + 1;
        }
        j = j + 1;
    }
    let piece = s.substring_char(start, n);
    proof {
        let rest = s@.skip(start as int);
        assert forall|k: int| 0 <= k < rest.len() implies rest[k] != c by {
            assert(rest[k] == cs@[start + k]);
        }
        lemma_split_last(rest, c);
        assert(rest =~= piece@);
        assert(views(out@.push(piece)) =~= views(out@).push(piece@));
        assert(views(out@).push(piece@) =~= views(out@) + seq![rest]);
    }
    out.push(piece);
    out
}

/// `str::split_terminator` on a character.
pub fn split_terminator<'a>(s: &'a str, c: char) -> (out: Vec<&'a str>)
    ensures
        views(out@) == split_terminator_spec(s@, c),
{
    let mut parts = split_char(s, c);
    proof {
        assert(split_spec(s@, c).len() > 0) by {
            lemma_split_nonempty(s@, c);
        }
    }
    let last_len = parts[parts.len() - 1].unicode_len();
    if last_len == 0 {
        let ghost before = parts@;
        parts.pop();
        proof {
            assert(views(parts@) =~= views(before).drop_last());
        }
    }
    parts
}

/// `split_spec` always has a piece.
pub proof fn lemma_split_nonempty(s: Seq<char>, c: char)
    ensures
        split_spec(s, c).len() > 0,
    decreases s.len(),
{
    if exists|i: int| is_first_occurrence(s, seq![c], i) {
        let i = choose|i: int| is_first_occurrence(s, seq![c], i);
        lemma_split_nonempty(s.skip(i + 1), c);
    }
}

/// `str::lines`.
pub fn lines<'a>(s: &'a str) -> (out: Vec<&'a str>)
    ensures
        views(out@) == lines_spec(s@),
{
    let parts = split_char(s, '\n');
    proof {
        lemma_split_nonempty(s@, '\n');
    }
    let n = parts.len();
    let mut out: Vec<&'a str> = Vec::new();
    let mut k: usize = 0;
    while k + 1 < n
        invariant
            n == parts@.len(),
            n > 0,
            k + 1 <= n,
            views(parts@) == split_spec(s@, '\n'),
            views(out@) == views(parts@).take(k as int).map_values(|l: Seq<char>| strip_cr(l)),
        decreases n - k,
    {
        let line = parts[k];
        let len = line.unicode_len();
        let cut = if len > 0 && line.get_char(len - 1) == '\r' {
            line.substring_char(0, len - 1)
        } else {
            line
        };
        proof {
            assert(views(parts@)[k as int] == line@);
            assert(cut@ =~= strip_cr(line@));
            assert(views(out@.push(cut)) =~= views(out@).push(cut@));
            assert(views(parts@).take(k + 1).map_values(|l: Seq<char>| strip_cr(l)) =~= views(
                parts@,
            ).take(k as int).map_values(|l: Seq<char>| strip_cr(l)).push(strip_cr(line@)));
        }
        out.push(cut);
        k = k + 1;
    }
    let last = parts[n - 1];
    proof {
        assert(views(parts@).take(k as int) =~= views(parts@).drop_last());
        assert(views(parts@).last() == last@);
    }
    if last.unicode_len() > 0 {
        proof {
            assert(views(out@.push(last)) =~= views(out@).push(last@));
        }
        out.push(last);
    }
    out
}

/// A vector of owned strings copied from string slices.
pub fn to_owned_all(v: &Vec<&str>) -> (out: Vec<String>)
    ensures
        string_views(out@) == views(v@),
{
    let mut out: Vec<String> = Vec::new();
    let mut k: usize = 0;
    while k < v.len()
        invariant
            k <= v.len(),
            string_views(out@) == views(v@).take(k as int),
        decreases v.len() - k,
    {
        let s = v[k].to_owned();
        proof {
            assert(string_views(out@.push(s)) =~= string_views(out@).push(s@));
            assert(views(v@).take(k + 1) =~= views(v@).take(k as int).push(v@[k as int]@));
        }
        out.push(s);
        k = k + 1;
    }
    proof {
        assert(views(v@).take(v.len() as int) =~= views(v@));
    }
    out
}


/// Unicode `White_Space` characters, those that `char::is_whitespace` accepts.
pub open spec fn is_white_space(c: char) -> bool {
    ||| ('\u{9}' <= c && c <= '\u{d}')
    ||| c == ' '
    ||| c == '\u{85}'
    ||| c == '\u{a0}'
    ||| c == '\u{1680}'
    ||| ('\u{2000}' <= c && c <= '\u{200a}')
    ||| c == '\u{2028}'
    ||| c == '\u{2029}'
    ||| c == '\u{202f}'
    ||| c == '\u{205f}'
    ||| c == '\u{3000}'
}

/// The number of white-space characters at the start of `s`.
pub open spec fn leading_white(s: Seq<char>) -> nat
    decreases s.len(),
{
    if s.len() > 0 && is_white_space(s[0]) {
        1 + leading_white(s.skip(1))
    } else {
        0
    }
}

/// The number of white-space characters at the end of `s`.
pub open spec fn trailing_white(s: Seq<char>) -> nat
    decreases s.len(),
{
    if s.len() > 0 && is_white_space(s.last()) {
        1 + trailing_white(s.drop_last())
    } else {
        0
    }
}

/// What `str::trim` gives: `s` without its leading and trailing white space.
pub open spec fn trim_spec(s: Seq<char>) -> Seq<char> {
    let front = s.skip(leading_white(s) as int);
    front.take(front.len() - trailing_white(front))
}

/// `std::str::from_utf8`: the text that the bytes encode, when they are valid UTF-8.
#[verifier::external_body]
pub(crate) fn utf8_text(bytes: &[u8]) -> (r: Option<&str>)
    ensures
        r is Some <==> valid_utf8(bytes@),
        r matches Some(s) ==> s@ == decode_utf8(bytes@),
{
    std::str::from_utf8(bytes).ok()
}

/// Whether `c` is Unicode white space.
fn white_space(c: char) -> (b: bool)
    ensures
        b == is_white_space(c),
{
    ('\u{9}' <= c && c <= '\u{d}') || c == ' ' || c == '\u{85}' || c == '\u{a0}' || c == '\u{1680}' || (
    '\u{2000}' <= c && c <= '\u{200a}') || c == '\u{2028}' || c == '\u{2029}' || c == '\u{202f}' || c
        == '\u{205f}' || c == '\u{3000}'
}

/// The leading white space ends at the first character that is not white space.
proof fn lemma_leading_white(s: Seq<char>, i: int)
    requires
        0 <= i <= s.len(),
        forall|k: int| 0 <= k < i ==> is_white_space(#[trigger] s[k]),
        i == s.len() || !is_white_space(s[i]),
    ensures
        leading_white(s) == i,
    decreases s.len(),
{
    if i > 0 {
        assert(is_white_space(s[0]));
        assert forall|k: int| 0 <= k < i - 1 implies is_white_space(#[trigger] s.skip(1)[k]) by {
            assert(s.skip(1)[k] == s[k + 1]);
        }
        if i < s.len() {
            assert(s.skip(1)[i - 1] == s[i]);
        }
        lemma_leading_white(s.skip(1), i - 1);
    }
}

/// The trailing white space starts after the last character that is not white space.
proof fn lemma_trailing_white(s: Seq<char>, j: int)
    requires
        0 <= j <= s.len(),
        forall|k: int| j <= k < s.len() ==> is_white_space(#[trigger] s[k]),
        j == 0 || !is_white_space(s[j - 1]),
    ensures
        trailing_white(s) == s.len() - j,
    decreases s.len(),
{
    if j < s.len() {
        assert(is_white_space(s[s.len() - 1]));
        assert forall|k: int| j <= k < s.drop_last().len() implies is_white_space(
            #[trigger] s.drop_last()[k],
        ) by {
            assert(s.drop_last()[k] == s[k]);
        }
        if j > 0 {
            assert(s.drop_last()[j - 1] == s[j - 1]);
        }
        lemma_trailing_white(s.drop_last(), j);
    }
}

/// What `str::trim` gives: the slice without leading and trailing Unicode white space.
pub fn trim(s: &str) -> (r: &str)
    ensures
        r@ == trim_spec(s@),
{
    let n = s.unicode_len();
    let mut i: usize = 0;
    while i < n && white_space(s.get_char(i))
        invariant
            i <= n,
            n == s@.len(),
            forall|k: int| 0 <= k < i ==> is_white_space(#[trigger] s@[k]),
        decreases n - i,
    {
        i = i + 1;
    }
    proof {
        lemma_leading_white(s@, i as int);
    }
    let mut j: usize = n;
    while j > i && white_space(s.get_char(j - 1))
        invariant
            i <= j <= n,
            n == s@.len(),
            forall|k: int| j <= k < n ==> is_white_space(#[trigger] s@[k]),
        decreases j,
    {
        j = j - 1;
    }
    proof {
        let front = s@.skip(i as int);
        assert forall|k: int| j - i <= k < front.len() implies is_white_space(#[trigger] front[k]) by {
            assert(front[k] == s@[k + i]);
        }
        if j > i {
            assert(front[j - i - 1] == s@[j - 1]);
        }
        lemma_trailing_white(front, j - i);
        assert(front.take(front.len() - trailing_white(front)) =~= s@.subrange(i as int, j as int));
    }
    s.substring_char(i, j)
}


/// Whether `s` ends with `p`.
pub fn ends_with(s: &str, p: &str) -> (b: bool)
    ensures
        b == p@.is_suffix_of(s@),
{
    let cs = chars_of(s);
    let ps = chars_of(p);
    if ps.len() > cs.len() {
        return false;
    }
    let start = cs.len() - ps.len();
    let b = occurs_at_exec(&cs, &ps, start);
    proof {
        if b {
            assert(s@.subrange(start as int, s@.len() as int) =~= p@);
        }
        if p@.is_suffix_of(s@) {
            assert(occurs_at(s@, p@, start as int));
        }
    }
    b
}


/// The decimal digit for `d`.
pub open spec fn digit_char(d: nat) -> char {
    if d == 0 { '0' } else if d == 1 { '1' } else if d == 2 { '2' } else if d == 3 { '3' }
    else if d == 4 { '4' } else if d == 5 { '5' } else if d == 6 { '6' } else if d == 7 { '7' }
    else if d == 8 { '8' } else { '9' }
}

/// The decimal form of `n`, as `Display` writes an unsigned integer.
pub open spec fn decimal_spec(n: nat) -> Seq<char>
    decreases n,
{
    if n < 10 {
        seq![digit_char(n)]
    } else {
        decimal_spec(n / 10).push(digit_char(n % 10))
    }
}

/// The decimal digit for `d`, as text.
fn digit(d: u64) -> (s: &'static str)
    requires
        d < 10,
    ensures
        s@ == seq![digit_char(d as nat)],
{
    proof {
        reveal_strlit("0");
        reveal_strlit("1");
        reveal_strlit("2");
        reveal_strlit("3");
        reveal_strlit("4");
        reveal_strlit("5");
        reveal_strlit("6");
        reveal_strlit("7");
        reveal_strlit("8");
        reveal_strlit("9");
    }
    if d == 0 { "0" } else if d == 1 { "1" } else if d == 2 { "2" } else if d == 3 { "3" }
    else if d == 4 { "4" } else if d == 5 { "5" } else if d == 6 { "6" } else if d == 7 { "7" }
    else if d == 8 { "8" } else { "9" }
}

/// The decimal form of `n`.
pub fn decimal(n: u64) -> (r: String)
    ensures
        r@ == decimal_spec(n as nat),
    decreases n,
{
    if n < 10 {
        String::from_str(digit(n))
    } else {
        let mut r = decimal(n / 10);
        r.append(digit(n % 10));
        r
    }
}


/// A one-character pattern occurs exactly where the character does.
pub proof fn lemma_contains_char(s: Seq<char>, c: char)
    ensures
        (exists|j: int| occurs_at(s, seq![c], j)) <==> s.contains(c),
{
    if s.contains(c) {
        let j = choose|j: int| 0 <= j < s.len() && s[j] == c;
        assert(s.subrange(j, j + 1) =~= seq![c]);
        assert(occurs_at(s, seq![c], j));
    }
    if exists|j: int| occurs_at(s, seq![c], j) {
        let j = choose|j: int| occurs_at(s, seq![c], j);
        assert(s.subrange(j, j + 1)[0] == s[j]);
        assert(s[j] == c);
    }
}

} // verus!
