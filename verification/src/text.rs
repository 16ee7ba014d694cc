//! Text as a sequence of Unicode scalar values.
//!
//! Every rule of this crate is stated over `Seq<char>`; the functions here are
//! the executable counterparts, working on `Vec<char>`.

use vstd::prelude::*;
use vstd::std_specs::iter::IteratorSpec;

pub mod laws;

verus! {

/// `String::push` appends one scalar value to the end of the string.
pub assume_specification[ String::push ](s: &mut String, c: char)
    ensures
        final(s)@ == old(s)@.push(c),
;

/// The scalar values of `s`, in order.
pub fn chars_of(s: &str) -> (out: Vec<char>)
    ensures
        out@ == s@,
{
    let mut out: Vec<char> = Vec::new();
    for c in it: s.chars()
        invariant
            out@.len() == it.index(),
            it.seq() == s@,
            forall|j: int| 0 <= j < out@.len() ==> out@[j] == it.seq()[j],
    {
        out.push(c);
    }
    assert(out@ =~= s@);
    out
}

/// The string made of the scalar values of `v`, in order.
pub fn string_of(v: &Vec<char>) -> (out: String)
    ensures
        out@ == v@,
{
    let mut out = String::new();
    let mut i: usize = 0;
    while i < v.len()
        invariant
            i <= v.len(),
            out@ == v@.subrange(0, i as int),
        decreases v.len() - i,
    {
        out.push(v[i]);
        i += 1;
        assert(v@.subrange(0, i as int) =~= v@.subrange(0, i - 1).push(v@[i - 1]));
    }
    assert(v@.subrange(0, v.len() as int) =~= v@);
    out
}

/// The scalar values with the Unicode property `White_Space`.
pub open spec fn is_whitespace(c: char) -> bool {
    ||| '\u{9}' <= c <= '\u{d}'
    ||| c == ' '
    ||| c == '\u{85}'
    ||| c == '\u{a0}'
    ||| c == '\u{1680}'
    ||| '\u{2000}' <= c <= '\u{200a}'
    ||| c == '\u{2028}'
    ||| c == '\u{2029}'
    ||| c == '\u{202f}'
    ||| c == '\u{205f}'
    ||| c == '\u{3000}'
}

/// Whether `c` is whitespace.
pub fn whitespace(c: char) -> (r: bool)
    ensures
        r == is_whitespace(c),
{
    ('\u{9}' <= c && c <= '\u{d}') || c == ' ' || c == '\u{85}' || c == '\u{a0}' || c == '\u{1680}'
        || ('\u{2000}' <= c && c <= '\u{200a}') || c == '\u{2028}' || c == '\u{2029}' || c
        == '\u{202f}' || c == '\u{205f}' || c == '\u{3000}'
}

/// The index of the first scalar value at or after `i` that is no whitespace,
/// or the length of `s` where there is none.
pub open spec fn skip_whitespace(s: Seq<char>, i: int) -> int
    decreases s.len() - i,
{
    if i < 0 || i >= s.len() {
        s.len() as int
    } else if !is_whitespace(s[i]) {
        i
    } else {
        skip_whitespace(s, i + 1)
    }
}

/// The end of the last run of scalar values before `j` that are no
/// whitespace, or 0 where there is none.
pub open spec fn skip_whitespace_back(s: Seq<char>, j: int) -> int
    decreases j,
{
    if j <= 0 || j > s.len() {
        0
    } else if !is_whitespace(s[j - 1]) {
        j
    } else {
        skip_whitespace_back(s, j - 1)
    }
}

/// `s` without its leading and trailing whitespace.
pub open spec fn trimmed(s: Seq<char>) -> Seq<char> {
    let a = skip_whitespace(s, 0);
    let b = skip_whitespace_back(s, s.len() as int);
    if a >= b {
        Seq::empty()
    } else {
        s.subrange(a, b)
    }
}

/// The scalar values of `v` from `from` up to `to`.
pub(crate) fn slice(v: &Vec<char>, from: usize, to: usize) -> (out: Vec<char>)
    requires
        from <= to <= v.len(),
    ensures
        out@ == v@.subrange(from as int, to as int),
{
    let mut out: Vec<char> = Vec::new();
    let mut i: usize = from;
    while i < to
        invariant
            from <= i <= to <= v.len(),
            out@ == v@.subrange(from as int, i as int),
        decreases to - i,
    {
        out.push(v[i]);
        i += 1;
        assert(v@.subrange(from as int, i as int) =~= v@.subrange(from as int, i - 1).push(
            v@[i - 1],
        ));
    }
    out
}

/// `v` without its leading and trailing whitespace.
pub fn trim(v: &Vec<char>) -> (out: Vec<char>)
    ensures
        out@ == trimmed(v@),
{
    let mut a: usize = 0;
    while a < v.len() && whitespace(v[a])
        invariant
            a <= v.len(),
            skip_whitespace(v@, 0) == skip_whitespace(v@, a as int),
        decreases v.len() - a,
    {
        a += 1;
    }
    let mut b: usize = v.len();
    while b > 0 && whitespace(v[b - 1])
        invariant
            b <= v.len(),
            skip_whitespace_back(v@, v.len() as int) == skip_whitespace_back(v@, b as int),
        decreases b,
    {
        b -= 1;
    }
    if a >= b {
        Vec::new()
    } else {
        slice(v, a, b)
    }
}

/// Whether `a` and `b` hold the same scalar values.
pub fn same(a: &Vec<char>, b: &Vec<char>) -> (r: bool)
    ensures
        r == (a@ == b@),
{
    if a.len() != b.len() {
        return false;
    }
    let mut i: usize = 0;
    while i < a.len()
        invariant
            i <= a.len(),
            a.len() == b.len(),
            a@.subrange(0, i as int) == b@.subrange(0, i as int),
        decreases a.len() - i,
    {
        if a[i] != b[i] {
            return false;
        }
        i += 1;
        assert(a@.subrange(0, i as int) =~= a@.subrange(0, i - 1).push(a@[i - 1]));
        assert(b@.subrange(0, i as int) =~= b@.subrange(0, i - 1).push(b@[i - 1]));
    }
    assert(a@ =~= a@.subrange(0, a.len() as int));
    assert(b@ =~= b@.subrange(0, b.len() as int));
    true
}

/// `pat` stands in `s` at index `i`.
pub open spec fn occurs_at(s: Seq<char>, pat: Seq<char>, i: int) -> bool {
    0 <= i && i + pat.len() <= s.len() && s.subrange(i, i + pat.len()) == pat
}

/// The index of the first occurrence of `pat` in `s` at or after `i`, or -1.
pub open spec fn find_from(s: Seq<char>, pat: Seq<char>, i: int) -> int
    decreases s.len() + 1 - i,
{
    if i < 0 || i + pat.len() > s.len() {
        -1
    } else if occurs_at(s, pat, i) {
        i
    } else {
        find_from(s, pat, i + 1)
    }
}

/// Whether `pat` stands in `v` at index `i`.
pub fn occurs(v: &Vec<char>, pat: &Vec<char>, i: usize) -> (r: bool)
    ensures
        r == occurs_at(v@, pat@, i as int),
{
    if i > v.len() || pat.len() > v.len() - i {
        return false;
    }
    let mut k: usize = 0;
    while k < pat.len()
        invariant
            k <= pat.len(),
            i + pat.len() <= v.len(),
            v@.subrange(i as int, i + k) == pat@.subrange(0, k as int),
        decreases pat.len() - k,
    {
        if v[i + k] != pat[k] {
            assert(v@.subrange(i as int, i + pat.len())[k as int] != pat@[k as int]);
            return false;
        }
        k += 1;
        assert(v@.subrange(i as int, i + k) =~= v@.subrange(i as int, i + k - 1).push(
            v@[i + k - 1],
        ));
        assert(pat@.subrange(0, k as int) =~= pat@.subrange(0, k - 1).push(pat@[k - 1]));
    }
    assert(pat@ =~= pat@.subrange(0, pat.len() as int));
    true
}

/// The index of the first occurrence of `pat` in `v` at or after `from`.
pub fn find(v: &Vec<char>, pat: &Vec<char>, from: usize) -> (r: Option<usize>)
    ensures
        match r {
            Some(i) => find_from(v@, pat@, from as int) == i,
            None => find_from(v@, pat@, from as int) == -1,
        },
{
    if pat.len() > v.len() || from > v.len() - pat.len() {
        return None;
    }
    let last: usize = v.len() - pat.len();
    let mut i: usize = from;
    while i <= last
        invariant
            from <= i <= last,
            last == v.len() - pat.len(),
            find_from(v@, pat@, from as int) == find_from(v@, pat@, i as int),
        decreases last - i,
    {
        if occurs(v, pat, i) {
            return Some(i);
        }
        if i == last {
            assert(find_from(v@, pat@, i + 1) == -1);
            return None;
        }
        i += 1;
    }
    None
}


/// The views of a list of texts.
pub open spec fn views(parts: Seq<Vec<char>>) -> Seq<Seq<char>> {
    parts.map_values(|v: Vec<char>| v@)
}

/// The views of a list of strings.
pub open spec fn texts(list: Seq<String>) -> Seq<Seq<char>> {
    list.map_values(|s: String| s@)
}

/// The pieces of `s` from `start` on, cut at each occurrence of the non-empty
/// `pat`, the occurrences taken from left to right without overlap.
pub open spec fn split_from(s: Seq<char>, pat: Seq<char>, start: int) -> Seq<Seq<char>>
    decreases s.len() - start,
{
    let i = find_from(s, pat, start);
    if pat.len() == 0 || start < 0 || i < start || i + pat.len() > s.len() {
        seq![s.subrange(start, s.len() as int)]
    } else {
        seq![s.subrange(start, i)] + split_from(s, pat, i + pat.len())
    }
}

/// The pieces of `s` between the occurrences of `pat`. An empty `pat` cuts
/// before and after every scalar value.
pub open spec fn split(s: Seq<char>, pat: Seq<char>) -> Seq<Seq<char>> {
    if pat.len() == 0 {
        seq![Seq::<char>::empty()] + Seq::new(s.len(), |i: int| seq![s[i]]) + seq![
            Seq::<char>::empty(),
        ]
    } else {
        split_from(s, pat, 0)
    }
}

/// The pieces of `parts` in order, with `sep` between each two.
pub open spec fn join(parts: Seq<Seq<char>>, sep: Seq<char>) -> Seq<char>
    decreases parts.len(),
{
    if parts.len() == 0 {
        Seq::empty()
    } else if parts.len() == 1 {
        parts[0]
    } else {
        join(parts.drop_last(), sep) + sep + parts.last()
    }
}

/// `s` with every occurrence of `pat` replaced by `rep`, the occurrences
/// taken from left to right without overlap.
pub open spec fn replaced(s: Seq<char>, pat: Seq<char>, rep: Seq<char>) -> Seq<char> {
    join(split(s, pat), rep)
}

/// The part of `s` before the first occurrence of `pat` and the part after
/// it, where there is one.
pub open spec fn split_once(s: Seq<char>, pat: Seq<char>) -> Option<(Seq<char>, Seq<char>)> {
    let i = find_from(s, pat, 0);
    if 0 <= i && i + pat.len() <= s.len() {
        Some((s.subrange(0, i), s.subrange(i + pat.len(), s.len() as int)))
    } else {
        None
    }
}

/// The first occurrence found at or after `i` lies in `s`, and none lies
/// between `i` and it.
pub proof fn lemma_find_from(s: Seq<char>, pat: Seq<char>, i: int)
    requires
        0 <= i,
    ensures
        find_from(s, pat, i) == -1 || (i <= find_from(s, pat, i) && occurs_at(
            s,
            pat,
            find_from(s, pat, i),
        )),
        forall|k: int|
            i <= k && (k < find_from(s, pat, i) || find_from(s, pat, i) == -1) ==> !occurs_at(
                s,
                pat,
                k,
            ),
    decreases s.len() + 1 - i,
{
    if i + pat.len() > s.len() {
    } else if occurs_at(s, pat, i) {
    } else {
        lemma_find_from(s, pat, i + 1);
    }
}

/// Puts `more` at the end of `out`.
pub fn extend(out: &mut Vec<char>, more: &Vec<char>)
    ensures
        final(out)@ == old(out)@ + more@,
{
    let mut i: usize = 0;
    while i < more.len()
        invariant
            i <= more.len(),
            out@ == old(out)@ + more@.subrange(0, i as int),
        decreases more.len() - i,
    {
        out.push(more[i]);
        i += 1;
        assert(more@.subrange(0, i as int) =~= more@.subrange(0, i - 1).push(more@[i - 1]));
        assert(out@ =~= old(out)@ + more@.subrange(0, i as int));
    }
    assert(more@.subrange(0, more.len() as int) =~= more@);
}

/// The pieces of `v` between the occurrences of `pat`.
pub fn split_text(v: &Vec<char>, pat: &Vec<char>) -> (out: Vec<Vec<char>>)
    ensures
        views(out@) == split(v@, pat@),
{
    let mut out: Vec<Vec<char>> = Vec::new();
    if pat.len() == 0 {
        out.push(Vec::new());
        let mut i: usize = 0;
        while i < v.len()
            invariant
                i <= v.len(),
                views(out@) == seq![Seq::<char>::empty()] + Seq::new(
                    i as nat,
                    |k: int| seq![v@[k]],
                ),
            decreases v.len() - i,
        {
            let mut one: Vec<char> = Vec::new();
            one.push(v[i]);
            assert(one@ =~= seq![v@[i as int]]);
            let ghost before = views(out@);
            out.push(one);
            assert(views(out@) =~= before.push(seq![v@[i as int]]));
            i += 1;
            assert(views(out@) =~= seq![Seq::<char>::empty()] + Seq::new(
                i as nat,
                |k: int| seq![v@[k]],
            ));
        }
        out.push(Vec::new());
        assert(views(out@) =~= split(v@, pat@));
        return out;
    }
    let mut start: usize = 0;
    loop
        invariant
            pat.len() > 0,
            start <= v.len(),
            split(v@, pat@) == views(out@) + split_from(v@, pat@, start as int),
        decreases v.len() - start,
    {
        proof {
            lemma_find_from(v@, pat@, start as int);
        }
        match find(v, pat, start) {
            Some(i) => {
                let piece = slice(v, start, i);
                let ghost before = views(out@);
                out.push(piece);
                assert(views(out@) =~= before + seq![v@.subrange(start as int, i as int)]);
                start = i + pat.len();
            },
            None => {
                let piece = slice(v, start, v.len());
                let ghost before = views(out@);
                out.push(piece);
                assert(views(out@) =~= before + seq![v@.subrange(start as int, v.len() as int)]);
                return out;
            },
        }
    }
}

/// The pieces of `parts` in order, with `sep` between each two.
pub fn join_text(parts: &Vec<Vec<char>>, sep: &Vec<char>) -> (out: Vec<char>)
    ensures
        out@ == join(views(parts@), sep@),
{
    let mut out: Vec<char> = Vec::new();
    let mut i: usize = 0;
    while i < parts.len()
        invariant
            i <= parts.len(),
            out@ == join(views(parts@).take(i as int), sep@),
        decreases parts.len() - i,
    {
        if i > 0 {
            extend(&mut out, sep);
        }
        extend(&mut out, &parts[i]);
        i += 1;
        assert(views(parts@).take(i as int).drop_last() =~= views(parts@).take(i - 1));
    }
    assert(views(parts@).take(parts.len() as int) =~= views(parts@));
    out
}

/// `v` with every occurrence of `pat` replaced by `rep`.
pub fn replace(v: &Vec<char>, pat: &Vec<char>, rep: &Vec<char>) -> (out: Vec<char>)
    ensures
        out@ == replaced(v@, pat@, rep@),
{
    let parts = split_text(v, pat);
    join_text(&parts, rep)
}

/// The part of `v` before the first occurrence of `pat` and the part after
/// it, where there is one.
pub fn split_once_text(v: &Vec<char>, pat: &Vec<char>) -> (out: Option<(Vec<char>, Vec<char>)>)
    ensures
        match out {
            Some((a, b)) => split_once(v@, pat@) == Some((a@, b@)),
            None => split_once(v@, pat@).is_none(),
        },
{
    proof {
        lemma_find_from(v@, pat@, 0);
    }
    match find(v, pat, 0) {
        Some(i) => {
            assert(occurs_at(v@, pat@, i as int));
            let a = slice(v, 0, i);
            let b = slice(v, i + pat.len(), v.len());
            Some((a, b))
        },
        None => None,
    }
}


/// Whether `c`, a scalar value beyond ASCII, is a letter or a number, as
/// `char::is_alphanumeric` tells.
pub uninterp spec fn alphanumeric(c: char) -> bool;

/// `char::is_alphanumeric` depends on the scalar value alone.
pub assume_specification[ char::is_alphanumeric ](c: char) -> (r: bool)
    ensures
        r == alphanumeric(c),
;

/// Whether `c` is a letter or a number: in ASCII, a Latin letter or a digit.
pub open spec fn is_letter_or_number(c: char) -> bool {
    if c <= '\u{7f}' {
        'a' <= c <= 'z' || 'A' <= c <= 'Z' || '0' <= c <= '9'
    } else {
        alphanumeric(c)
    }
}

/// Whether `c` is a letter or a number.
pub fn letter_or_number(c: char) -> (r: bool)
    ensures
        r == is_letter_or_number(c),
{
    if c <= '\u{7f}' {
        ('a' <= c && c <= 'z') || ('A' <= c && c <= 'Z') || ('0' <= c && c <= '9')
    } else {
        c.is_alphanumeric()
    }
}

/// The letters and numbers of `s`, in order.
pub open spec fn letters_and_numbers(s: Seq<char>) -> Seq<char>
    decreases s.len(),
{
    if s.len() == 0 {
        Seq::empty()
    } else if is_letter_or_number(s.last()) {
        letters_and_numbers(s.drop_last()).push(s.last())
    } else {
        letters_and_numbers(s.drop_last())
    }
}

/// The letters and numbers of `v`, in order.
pub fn keep_letters_and_numbers(v: &Vec<char>) -> (out: Vec<char>)
    ensures
        out@ == letters_and_numbers(v@),
{
    let mut out: Vec<char> = Vec::new();
    let mut i: usize = 0;
    while i < v.len()
        invariant
            i <= v.len(),
            out@ == letters_and_numbers(v@.take(i as int)),
        decreases v.len() - i,
    {
        proof {
            assert(v@.take(i + 1).drop_last() =~= v@.take(i as int));
        }
        if letter_or_number(v[i]) {
            out.push(v[i]);
        }
        i += 1;
    }
    assert(v@.take(v.len() as int) =~= v@);
    out
}

/// The texts `a` and `b`, one after the other.
pub fn concat(a: &Vec<char>, b: &Vec<char>) -> (out: Vec<char>)
    ensures
        out@ == a@ + b@,
{
    let mut out: Vec<char> = Vec::new();
    extend(&mut out, a);
    extend(&mut out, b);
    out
}



/// The scalar values of each string of `list`.
pub fn chars_of_each(list: &Vec<String>) -> (out: Vec<Vec<char>>)
    ensures
        views(out@) == texts(list@),
{
    let mut out: Vec<Vec<char>> = Vec::new();
    let mut i: usize = 0;
    while i < list.len()
        invariant
            i <= list.len(),
            views(out@) == texts(list@).take(i as int),
        decreases list.len() - i,
    {
        let ghost before = views(out@);
        out.push(chars_of(list[i].as_str()));
        assert(views(out@) =~= before.push(list@[i as int]@));
        i += 1;
        assert(texts(list@).take(i as int) =~= texts(list@).take(i - 1).push(list@[i - 1]@));
    }
    assert(texts(list@).take(list.len() as int) =~= texts(list@));
    out
}

/// The string of each text of `list`.
pub fn strings_of_each(list: &Vec<Vec<char>>) -> (out: Vec<String>)
    ensures
        texts(out@) == views(list@),
{
    let mut out: Vec<String> = Vec::new();
    let mut i: usize = 0;
    while i < list.len()
        invariant
            i <= list.len(),
            texts(out@) == views(list@).take(i as int),
        decreases list.len() - i,
    {
        let ghost before = texts(out@);
        out.push(string_of(&list[i]));
        assert(texts(out@) =~= before.push(list@[i as int]@));
        i += 1;
        assert(views(list@).take(i as int) =~= views(list@).take(i - 1).push(list@[i - 1]@));
    }
    assert(views(list@).take(list.len() as int) =~= views(list@));
    out
}


} // verus!
