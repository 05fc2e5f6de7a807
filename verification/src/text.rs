//! Text primitives over sequences of characters.
//!
//! Every rule of this crate that looks inside a string is stated over
//! `Seq<char>` with the functions of this module. The executable functions
//! work on `[char]`, so that a position is reached in constant time;
//! [`chars_of`] and [`string_of`] convert from and to `str`.

use vstd::prelude::*;

verus! {

/// `String::push` appends one character to the end of the string.
pub assume_specification[ String::push ](s: &mut String, ch: char)
    ensures
        final(s)@ == old(s)@.push(ch),
;

/// `pat` stands in `s` at position `at`.
pub open spec fn matches_at(s: Seq<char>, at: int, pat: Seq<char>) -> bool {
    0 <= at && at + pat.len() <= s.len() && s.subrange(at, at + pat.len()) == pat
}

/// `pat` occurs somewhere in `s`.
pub open spec fn contains(s: Seq<char>, pat: Seq<char>) -> bool {
    exists|at: int| matches_at(s, at, pat)
}

/// The first position at or after `from` where `pat` stands in `s`, or -1.
pub open spec fn index_from(s: Seq<char>, pat: Seq<char>, from: int) -> int
    decreases s.len() - from + 1,
{
    if from < 0 || from + pat.len() > s.len() {
        -1
    } else if matches_at(s, from, pat) {
        from
    } else {
        index_from(s, pat, from + 1)
    }
}

/// The first position at or after `from` where `s` holds `c`, or -1.
pub open spec fn index_of(s: Seq<char>, c: char, from: int) -> int
    decreases s.len() - from,
{
    if from < 0 || from >= s.len() {
        -1
    } else if s[from] == c {
        from
    } else {
        index_of(s, c, from + 1)
    }
}

/// How often `c` occurs in `s`.
pub open spec fn count(s: Seq<char>, c: char) -> nat
    decreases s.len(),
{
    if s.len() == 0 {
        0
    } else {
        count(s.drop_last(), c) + if s.last() == c {
            1nat
        } else {
            0nat
        }
    }
}

/// `s` with every `c` taken out.
pub open spec fn without(s: Seq<char>, c: char) -> Seq<char>
    decreases s.len(),
{
    if s.len() == 0 {
        s
    } else if s.last() == c {
        without(s.drop_last(), c)
    } else {
        without(s.drop_last(), c).push(s.last())
    }
}

/// `s` with every occurrence of `pat` taken out, the occurrences found from
/// the left and not overlapping. An empty `pat` takes nothing out.
pub open spec fn remove_all(s: Seq<char>, pat: Seq<char>) -> Seq<char>
    decreases s.len(),
{
    if pat.len() == 0 || s.len() < pat.len() {
        s
    } else if matches_at(s, 0, pat) {
        remove_all(s.skip(pat.len() as int), pat)
    } else {
        seq![s[0]] + remove_all(s.skip(1), pat)
    }
}

/// White space: the space, the controls from tab to carriage return, and the
/// other characters that Unicode gives the property `White_Space`.
pub open spec fn is_space(c: char) -> bool {
    c == ' ' || ('\u{9}' <= c && c <= '\u{d}') || c == '\u{85}' || c == '\u{a0}' || c == '\u{1680}'
        || ('\u{2000}' <= c && c <= '\u{200a}') || c == '\u{2028}' || c == '\u{2029}' || c
        == '\u{202f}' || c == '\u{205f}' || c == '\u{3000}'
}

/// `s` without the white space at its start.
pub open spec fn trim_start(s: Seq<char>) -> Seq<char>
    decreases s.len(),
{
    if s.len() > 0 && is_space(s[0]) {
        trim_start(s.skip(1))
    } else {
        s
    }
}

/// `s` without the white space at its end.
pub open spec fn trim_end(s: Seq<char>) -> Seq<char>
    decreases s.len(),
{
    if s.len() > 0 && is_space(s.last()) {
        trim_end(s.drop_last())
    } else {
        s
    }
}

/// `s` without the white space at its start and at its end.
pub open spec fn trim(s: Seq<char>) -> Seq<char> {
    trim_end(trim_start(s))
}

/// `s` up to its first `c`, or all of `s` where it holds none.
pub open spec fn before(s: Seq<char>, c: char) -> Seq<char> {
    if index_of(s, c, 0) < 0 {
        s
    } else {
        s.take(index_of(s, c, 0))
    }
}

/// What follows the first `c` in `s`, or nothing where `s` holds none.
pub open spec fn after(s: Seq<char>, c: char) -> Seq<char> {
    if index_of(s, c, 0) < 0 {
        Seq::empty()
    } else {
        s.skip(index_of(s, c, 0) + 1)
    }
}

/// A line as it stood before a line feed: without one carriage return at
/// its end.
pub open spec fn strip_return(line: Seq<char>) -> Seq<char> {
    if line.len() > 0 && line.last() == '\r' {
        line.drop_last()
    } else {
        line
    }
}

/// The lines of `s`. A line ends at a line feed, or at the end of `s`; the
/// line feed, and a carriage return before it, belong to no line. Nothing
/// follows a last line feed.
pub open spec fn lines(s: Seq<char>) -> Seq<Seq<char>>
    decreases s.len(),
{
    if s.len() == 0 {
        Seq::empty()
    } else if index_of(s, '\n', 0) < 0 || index_of(s, '\n', 0) >= s.len() {
        seq![s]
    } else {
        seq![strip_return(s.take(index_of(s, '\n', 0)))] + lines(s.skip(index_of(s, '\n', 0) + 1))
    }
}

/// What `index_of` finds is the first `c` at or after `from`.
pub proof fn lemma_index_of(s: Seq<char>, c: char, from: int)
    requires
        0 <= from,
    ensures
        index_of(s, c, from) == -1 || (from <= index_of(s, c, from) < s.len() && s[index_of(
            s,
            c,
            from,
        )] == c),
        forall|j: int|
            from <= j < s.len() && (index_of(s, c, from) == -1 || j < index_of(s, c, from))
                ==> s[j] != c,
    decreases s.len() - from,
{
    if from < s.len() && s[from] != c {
        lemma_index_of(s, c, from + 1);
    }
}

/// What `index_from` finds is the first occurrence of `pat` at or after
/// `from`.
pub proof fn lemma_index_from(s: Seq<char>, pat: Seq<char>, from: int)
    requires
        0 <= from,
    ensures
        index_from(s, pat, from) == -1 || (from <= index_from(s, pat, from) && matches_at(
            s,
            index_from(s, pat, from),
            pat,
        )),
        forall|j: int|
            from <= j && (index_from(s, pat, from) == -1 || j < index_from(s, pat, from))
                ==> !matches_at(s, j, pat),
    decreases s.len() - from + 1,
{
    if from + pat.len() <= s.len() && !matches_at(s, from, pat) {
        lemma_index_from(s, pat, from + 1);
    }
}

/// `pat` occurs in `s` exactly where `index_from` finds it from the start.
pub proof fn lemma_contains_index(s: Seq<char>, pat: Seq<char>)
    ensures
        contains(s, pat) <==> index_from(s, pat, 0) >= 0,
{
    lemma_index_from(s, pat, 0);
}

/// The characters of `s`, in order.
pub fn chars_of(s: &str) -> (r: Vec<char>)
    ensures
        r@ == s@,
{
    let mut out: Vec<char> = Vec::new();
    for c in it: s.chars()
        invariant
            out@ == it.seq().take(it.index()),
            it.seq() == s@,
    {
        out.push(c);
    }
    out
}

/// The string made of the characters of `v`, in order.
pub fn string_of(v: &[char]) -> (r: String)
    ensures
        r@ == v@,
{
    let mut out = String::new();
    let mut i: usize = 0;
    while i < v.len()
        invariant
            i <= v.len(),
            out@ == v@.take(i as int),
        decreases v.len() - i,
    {
        out.push(v[i]);
        i += 1;
    }
    out
}

/// The characters of `v` from `from` up to `to`.
pub fn slice_of(v: &[char], from: usize, to: usize) -> (r: Vec<char>)
    requires
        from <= to <= v.len(),
    ensures
        r@ == v@.subrange(from as int, to as int),
{
    let mut out: Vec<char> = Vec::new();
    let mut i: usize = from;
    while i < to
        invariant
            from <= i <= to <= v.len(),
            out@ == v@.subrange(from as int, i as int),
        decreases to - i,
    {
        out.push(v[i]);
        i += 1;
    }
    out
}

/// Whether `a` and `b` hold the same characters.
pub fn same(a: &[char], b: &[char]) -> (r: bool)
    ensures
        r == (a@ == b@),
{
    if a.len() != b.len() {
        return false;
    }
    let mut i: usize = 0;
    while i < a.len()
        invariant
            i <= a.len(),
            a.len() == b.len(),
            a@.take(i as int) == b@.take(i as int),
        decreases a.len() - i,
    {
        if a[i] != b[i] {
            return false;
        }
        assert(a@.take(i + 1) == a@.take(i as int).push(a@[i as int]));
        assert(b@.take(i + 1) == b@.take(i as int).push(b@[i as int]));
        i += 1;
    }
    assert(a@.take(a.len() as int) == a@);
    assert(b@.take(b.len() as int) == b@);
    true
}

/// Whether `a` and `b` read the same.
pub fn equal(a: &str, b: &str) -> (r: bool)
    ensures
        r == (a@ == b@),
{
    let x = chars_of(a);
    let y = chars_of(b);
    same(x.as_slice(), y.as_slice())
}

/// `s` is `lower` or `upper`, or mixes the two position by position: it
/// spells the same word, in whatever case each letter stands.
pub open spec fn matches_either(s: Seq<char>, lower: Seq<char>, upper: Seq<char>) -> bool {
    &&& s.len() == lower.len()
    &&& s.len() == upper.len()
    &&& forall|i: int| 0 <= i < s.len() ==> s[i] == #[trigger] lower[i] || s[i] == upper[i]
}

/// Whether `s` spells the word that `lower` and `upper` spell.
pub fn either(s: &[char], lower: &[char], upper: &[char]) -> (r: bool)
    ensures
        r == matches_either(s@, lower@, upper@),
{
    if s.len() != lower.len() || s.len() != upper.len() {
        return false;
    }
    let mut i: usize = 0;
    while i < s.len()
        invariant
            i <= s.len(),
            s.len() == lower.len(),
            s.len() == upper.len(),
            forall|j: int| 0 <= j < i ==> s@[j] == #[trigger] lower@[j] || s@[j] == upper@[j],
        decreases s.len() - i,
    {
        if s[i] != lower[i] && s[i] != upper[i] {
            return false;
        }
        i += 1;
    }
    true
}

/// Whether `pat` stands in `s` at position `at`.
pub fn occurs_at(s: &[char], at: usize, pat: &[char]) -> (r: bool)
    ensures
        r == matches_at(s@, at as int, pat@),
{
    if pat.len() > s.len() || at > s.len() - pat.len() {
        return false;
    }
    let mut i: usize = 0;
    while i < pat.len()
        invariant
            i <= pat.len(),
            at + pat.len() <= s.len(),
            s@.subrange(at as int, at + i) == pat@.take(i as int),
        decreases pat.len() - i,
    {
        if s[at + i] != pat[i] {
            assert(s@.subrange(at as int, at + pat.len())[i as int] != pat@[i as int]);
            return false;
        }
        assert(s@.subrange(at as int, at + i + 1) == s@.subrange(at as int, at + i).push(
            s@[at + i],
        ));
        assert(pat@.take(i + 1) == pat@.take(i as int).push(pat@[i as int]));
        i += 1;
    }
    assert(pat@.take(pat.len() as int) == pat@);
    true
}

/// The first position at or after `from` where `pat` stands in `s`.
pub fn find(s: &[char], pat: &[char], from: usize) -> (r: Option<usize>)
    ensures
        match r {
            Some(at) => at as int == index_from(s@, pat@, from as int),
            None => index_from(s@, pat@, from as int) == -1,
        },
{
    if pat.len() > s.len() || from > s.len() - pat.len() {
        return None;
    }
    let last: usize = s.len() - pat.len();
    let mut i: usize = from;
    loop
        invariant
            from <= i <= last,
            last + pat.len() == s.len(),
            index_from(s@, pat@, from as int) == index_from(s@, pat@, i as int),
        decreases last - i,
    {
        if occurs_at(s, i, pat) {
            return Some(i);
        }
        if i == last {
            assert(index_from(s@, pat@, i + 1) == -1);
            return None;
        }
        i += 1;
    }
}

/// Whether `pat` occurs in `s`.
pub fn includes(s: &[char], pat: &[char]) -> (r: bool)
    ensures
        r == contains(s@, pat@),
{
    proof {
        lemma_contains_index(s@, pat@);
    }
    find(s, pat, 0).is_some()
}

/// The first position at or after `from` where `s` holds `c`.
pub fn position(s: &[char], c: char, from: usize) -> (r: Option<usize>)
    ensures
        match r {
            Some(at) => at as int == index_of(s@, c, from as int),
            None => index_of(s@, c, from as int) == -1,
        },
{
    let mut i: usize = from;
    while i < s.len()
        invariant
            from <= i,
            index_of(s@, c, from as int) == index_of(s@, c, i as int),
        decreases s.len() - i,
    {
        if s[i] == c {
            return Some(i);
        }
        i += 1;
    }
    None
}

/// How often `c` occurs in `s`.
pub fn occurrences(s: &[char], c: char) -> (r: usize)
    ensures
        r as nat == count(s@, c),
{
    let mut n: usize = 0;
    let mut i: usize = 0;
    while i < s.len()
        invariant
            i <= s.len(),
            n <= i,
            n as nat == count(s@.take(i as int), c),
        decreases s.len() - i,
    {
        assert(s@.take(i + 1).drop_last() == s@.take(i as int));
        if s[i] == c {
            n += 1;
        }
        i += 1;
    }
    assert(s@.take(s.len() as int) == s@);
    n
}

/// `s` with every `c` taken out.
pub fn strip(s: &[char], c: char) -> (r: Vec<char>)
    ensures
        r@ == without(s@, c),
{
    let mut out: Vec<char> = Vec::new();
    let mut i: usize = 0;
    while i < s.len()
        invariant
            i <= s.len(),
            out@ == without(s@.take(i as int), c),
        decreases s.len() - i,
    {
        assert(s@.take(i + 1).drop_last() == s@.take(i as int));
        if s[i] != c {
            out.push(s[i]);
        }
        i += 1;
    }
    assert(s@.take(s.len() as int) == s@);
    out
}

/// `s` with every occurrence of `pat` taken out.
pub fn erase(s: &[char], pat: &[char]) -> (r: Vec<char>)
    ensures
        r@ == remove_all(s@, pat@),
{
    if pat.len() == 0 {
        return slice_of(s, 0, s.len());
    }
    let mut out: Vec<char> = Vec::new();
    let mut i: usize = 0;
    assert(s@.skip(0) == s@);
    assert(out@ + remove_all(s@, pat@) == remove_all(s@, pat@));
    while i < s.len()
        invariant
            i <= s.len(),
            pat.len() > 0,
            out@ + remove_all(s@.skip(i as int), pat@) == remove_all(s@, pat@),
        decreases s.len() - i,
    {
        let ghost rest = s@.skip(i as int);
        if occurs_at(s, i, pat) {
            assert(rest.subrange(0, pat.len() as int) == s@.subrange(i as int, i + pat.len()));
            assert(rest.skip(pat.len() as int) == s@.skip(i + pat.len()));
            i += pat.len();
        } else {
            assert(rest.len() >= pat.len() ==> rest.subrange(0, pat.len() as int) == s@.subrange(
                i as int,
                i + pat.len(),
            ));
            assert(rest.skip(1) == s@.skip(i + 1));
            proof {
                if rest.len() < pat.len() {
                    assert(rest == seq![rest[0]] + rest.skip(1));
                    lemma_remove_all_short(rest.skip(1), pat@);
                }
            }
            assert((out@.push(s@[i as int])) + remove_all(s@.skip(i + 1), pat@) == out@ + (
            seq![s@[i as int]] + remove_all(s@.skip(i + 1), pat@)));
            out.push(s[i]);
            i += 1;
        }
    }
    assert(s@.skip(s.len() as int) == Seq::<char>::empty());
    out
}

/// Nothing is taken out of a text shorter than the pattern.
pub proof fn lemma_remove_all_short(s: Seq<char>, pat: Seq<char>)
    requires
        s.len() < pat.len(),
    ensures
        remove_all(s, pat) == s,
{
}

/// Whether `c` counts as white space.
pub fn space(c: char) -> (r: bool)
    ensures
        r == is_space(c),
{
    c == ' ' || ('\u{9}' <= c && c <= '\u{d}') || c == '\u{85}' || c == '\u{a0}' || c == '\u{1680}'
        || ('\u{2000}' <= c && c <= '\u{200a}') || c == '\u{2028}' || c == '\u{2029}' || c
        == '\u{202f}' || c == '\u{205f}' || c == '\u{3000}'
}

/// `s` without the white space at its start and at its end.
pub fn trimmed(s: &[char]) -> (r: Vec<char>)
    ensures
        r@ == trim(s@),
{
    let mut start: usize = 0;
    assert(s@.skip(0) == s@);
    while start < s.len() && space(s[start])
        invariant
            start <= s.len(),
            trim_start(s@) == trim_start(s@.skip(start as int)),
        decreases s.len() - start,
    {
        assert(s@.skip(start as int).skip(1) == s@.skip(start + 1));
        start += 1;
    }
    let mut end: usize = s.len();
    while end > start && space(s[end - 1])
        invariant
            start <= end <= s.len(),
            trim_start(s@) == s@.skip(start as int),
            trim_end(s@.skip(start as int)) == trim_end(s@.subrange(start as int, end as int)),
        decreases end - start,
    {
        assert(s@.subrange(start as int, end as int).drop_last() == s@.subrange(
            start as int,
            end - 1,
        ));
        end -= 1;
    }
    assert(s@.skip(start as int) == s@.subrange(start as int, s.len() as int));
    slice_of(s, start, end)
}

/// `s` up to its first `c`, or all of `s` where it holds none.
pub fn head(s: &[char], c: char) -> (r: Vec<char>)
    ensures
        r@ == before(s@, c),
{
    proof {
        lemma_index_of(s@, c, 0);
    }
    match position(s, c, 0) {
        Some(at) => slice_of(s, 0, at),
        None => slice_of(s, 0, s.len()),
    }
}

/// What follows the first `c` in `s`, or nothing where `s` holds none.
pub fn tail(s: &[char], c: char) -> (r: Vec<char>)
    ensures
        r@ == after(s@, c),
{
    proof {
        lemma_index_of(s@, c, 0);
    }
    match position(s, c, 0) {
        Some(at) => {
            assert(at < s.len());
            slice_of(s, at + 1, s.len())
        },
        None => Vec::new(),
    }
}

/// The views of the lines held in `v`.
pub open spec fn views(v: Seq<Vec<char>>) -> Seq<Seq<char>> {
    Seq::new(v.len(), |i: int| v[i]@)
}

/// The lines of `s`.
pub fn split_lines(s: &[char]) -> (r: Vec<Vec<char>>)
    ensures
        views(r@) == lines(s@),
{
    let mut out: Vec<Vec<char>> = Vec::new();
    let mut start: usize = 0;
    assert(s@.skip(0) == s@);
    assert(views(out@) + lines(s@) == lines(s@));
    while start < s.len()
        invariant
            start <= s.len(),
            views(out@) + lines(s@.skip(start as int)) == lines(s@),
        decreases s.len() - start,
    {
        let ghost rest = s@.skip(start as int);
        let ghost done = views(out@);
        proof {
            lemma_index_of(rest, '\n', 0);
            lemma_index_of(s@, '\n', start as int);
            lemma_index_of_skip(s@, '\n', start as int, start as int);
        }
        match position(s, '\n', start) {
            Some(at) => {
                let stop: usize = if at > start && s[at - 1] == '\r' {
                    at - 1
                } else {
                    at
                };
                let line = slice_of(s, start, stop);
                assert(rest.take(at - start) == s@.subrange(start as int, at as int));
                assert(line@ == strip_return(rest.take(at - start)));
                assert(rest.skip(at - start + 1) == s@.skip(at + 1));
                out.push(line);
                assert(views(out@) == done + seq![line@]);
                assert(views(out@) + lines(s@.skip(at + 1)) == done + (seq![line@] + lines(
                    s@.skip(at + 1),
                )));
                start = at + 1;
            },
            None => {
                let line = slice_of(s, start, s.len());
                assert(line@ == rest);
                out.push(line);
                assert(views(out@) == done + seq![line@]);
                assert(lines(s@.skip(s.len() as int)) == Seq::<Seq<char>>::empty());
                start = s.len();
            },
        }
    }
    assert(lines(s@.skip(s.len() as int)) == Seq::<Seq<char>>::empty());
    out
}

/// Searching what is left after `k` characters finds the same place,
/// counted from there.
pub proof fn lemma_index_of_skip(s: Seq<char>, c: char, k: int, from: int)
    requires
        0 <= k <= from,
        k <= s.len(),
    ensures
        index_of(s, c, from) == -1 <==> index_of(s.skip(k), c, from - k) == -1,
        index_of(s, c, from) != -1 ==> index_of(s.skip(k), c, from - k) == index_of(s, c, from)
            - k,
    decreases s.len() - from,
{
    if from < s.len() {
        assert(s.skip(k)[from - k] == s[from]);
        if s[from] != c {
            lemma_index_of_skip(s, c, k, from + 1);
        }
    }
}

/// The first occurrence of `pat` in a text stands where `pat` stands and
/// no occurrence precedes.
pub proof fn lemma_index_from_first(s: Seq<char>, pat: Seq<char>, at: int, from: int)
    requires
        0 <= from <= at,
        matches_at(s, at, pat),
        forall|j: int| from <= j < at ==> !matches_at(s, j, pat),
    ensures
        index_from(s, pat, from) == at,
    decreases at - from,
{
    if from < at {
        lemma_index_from_first(s, pat, at, from + 1);
    }
}

/// The first `c` of a text stands where a `c` stands that none precedes.
pub proof fn lemma_index_of_first(s: Seq<char>, c: char, at: int, from: int)
    requires
        0 <= from <= at < s.len(),
        s[at] == c,
        forall|j: int| from <= j < at ==> s[j] != c,
    ensures
        index_of(s, c, from) == at,
    decreases at - from,
{
    if from < at {
        lemma_index_of_first(s, c, at, from + 1);
    }
}

/// Counting in two texts adds up.
pub proof fn lemma_count_add(a: Seq<char>, b: Seq<char>, c: char)
    ensures
        count(a + b, c) == count(a, c) + count(b, c),
    decreases b.len(),
{
    if b.len() == 0 {
        assert(a + b == a);
    } else {
        assert((a + b).drop_last() == a + b.drop_last());
        lemma_count_add(a, b.drop_last(), c);
    }
}

/// A text holds no `c` exactly if none is counted in it.
pub proof fn lemma_count_none(s: Seq<char>, c: char)
    ensures
        count(s, c) == 0 <==> (forall|i: int| 0 <= i < s.len() ==> s[i] != c),
    decreases s.len(),
{
    if s.len() > 0 {
        lemma_count_none(s.drop_last(), c);
        if count(s, c) == 0 {
            assert forall|i: int| 0 <= i < s.len() implies s[i] != c by {
                if i < s.len() - 1 {
                    assert(s.drop_last()[i] == s[i]);
                }
            }
        } else if s.last() != c {
            let i = choose|i: int| 0 <= i < s.len() - 1 && s.drop_last()[i] == c;
            assert(s[i] == c);
        }
    }
}

/// Taking `c` out of two texts takes it out of each.
pub proof fn lemma_without_add(a: Seq<char>, b: Seq<char>, c: char)
    ensures
        without(a + b, c) == without(a, c) + without(b, c),
    decreases b.len(),
{
    if b.len() == 0 {
        assert(a + b == a);
        assert(without(a, c) + without(b, c) == without(a, c));
    } else {
        assert((a + b).drop_last() == a + b.drop_last());
        lemma_without_add(a, b.drop_last(), c);
        if b.last() != c {
            assert((without(a, c) + without(b.drop_last(), c)).push(b.last()) == without(a, c)
                + without(b.drop_last(), c).push(b.last()));
        }
    }
}

/// Nothing is taken out of a text that holds no `c`.
pub proof fn lemma_without_none(s: Seq<char>, c: char)
    requires
        count(s, c) == 0,
    ensures
        without(s, c) == s,
    decreases s.len(),
{
    if s.len() > 0 {
        lemma_without_none(s.drop_last(), c);
        assert(s.drop_last().push(s.last()) == s);
    }
}

/// A text holds no `c` once `c` is taken out of it.
pub proof fn lemma_without_leaves_none(s: Seq<char>, c: char)
    ensures
        count(without(s, c), c) == 0,
    decreases s.len(),
{
    if s.len() > 0 {
        lemma_without_leaves_none(s.drop_last(), c);
        if s.last() != c {
            assert(without(s.drop_last(), c).push(s.last()).drop_last() == without(
                s.drop_last(),
                c,
            ));
        }
    }
}

/// A text in which `pat` stands is what precedes it, `pat`, and what follows.
pub proof fn lemma_split_at(s: Seq<char>, at: int, pat: Seq<char>)
    requires
        matches_at(s, at, pat),
    ensures
        s == s.take(at) + pat + s.skip(at + pat.len()),
{
    assert(s =~= s.take(at) + s.subrange(at, at + pat.len()) + s.skip(at + pat.len()));
}

/// A text holds a character at least as often as a text that occurs in it.
pub proof fn lemma_contains_count(s: Seq<char>, pat: Seq<char>, c: char)
    requires
        contains(s, pat),
    ensures
        count(s, c) >= count(pat, c),
{
    let at = choose|at: int| matches_at(s, at, pat);
    lemma_split_at(s, at, pat);
    lemma_count_add(s.take(at) + pat, s.skip(at + pat.len()), c);
    lemma_count_add(s.take(at), pat, c);
}

/// A text that occurs in another still occurs once a character is taken out
/// that it does not hold.
pub proof fn lemma_contains_without(s: Seq<char>, pat: Seq<char>, c: char)
    requires
        contains(s, pat),
        count(pat, c) == 0,
    ensures
        contains(without(s, c), pat),
{
    let at = choose|at: int| matches_at(s, at, pat);
    let a = s.take(at);
    let b = s.skip(at + pat.len());
    lemma_split_at(s, at, pat);
    lemma_without_add(a + pat, b, c);
    lemma_without_add(a, pat, c);
    lemma_without_none(pat, c);
    let bare = without(a, c) + pat + without(b, c);
    let start = without(a, c).len() as int;
    assert(without(s, c) == bare);
    assert(bare.subrange(start, start + pat.len()) =~= pat);
    assert(matches_at(bare, start, pat));
}

/// Trimming leaves a text alone that neither begins nor ends with white
/// space.
pub proof fn lemma_trim_nothing(s: Seq<char>)
    requires
        s.len() == 0 || (!is_space(s[0]) && !is_space(s.last())),
    ensures
        trim(s) == s,
{
}

} // verus!
