//! What holds of cutting, joining, replacing and trimming.

use vstd::prelude::*;
use crate::text::{
    find_from, is_whitespace, join, lemma_find_from, occurs_at, replaced, skip_whitespace,
    skip_whitespace_back, split, split_from, split_once, trimmed,
};

verus! {

/// A text is cut into one piece at least.
pub proof fn lemma_split_is_not_empty(s: Seq<char>, pat: Seq<char>)
    ensures
        split(s, pat).len() > 0,
{
}

/// Where `pat` occurs at `k` and nowhere from `i` up to `k`, the first
/// occurrence at or after `i` is at `k`.
pub proof fn lemma_first_occurrence(s: Seq<char>, pat: Seq<char>, i: int, k: int)
    requires
        0 <= i <= k,
        occurs_at(s, pat, k),
        forall|j: int| i <= j < k ==> !occurs_at(s, pat, j),
    ensures
        find_from(s, pat, i) == k,
    decreases k - i,
{
    if i < k {
        lemma_first_occurrence(s, pat, i + 1, k);
    }
}

/// Where `pat` occurs nowhere at or after `i`, none is found.
pub proof fn lemma_no_occurrence(s: Seq<char>, pat: Seq<char>, i: int)
    requires
        0 <= i,
        forall|j: int| i <= j ==> !occurs_at(s, pat, j),
    ensures
        find_from(s, pat, i) == -1,
{
    lemma_find_from(s, pat, i);
}

/// An occurrence in what follows `x` is one in the whole, `x` further on.
pub proof fn lemma_occurs_shift(x: Seq<char>, rest: Seq<char>, pat: Seq<char>, i: int)
    requires
        0 <= i,
    ensures
        occurs_at(x + rest, pat, x.len() + i) == occurs_at(rest, pat, i),
{
    if i + pat.len() <= rest.len() {
        assert((x + rest).subrange(x.len() + i, x.len() + i + pat.len()) =~= rest.subrange(
            i,
            i + pat.len(),
        ));
    }
}

/// The first occurrence in what follows `x` is the first one in the whole
/// that lies after `x`.
pub proof fn lemma_find_shift(x: Seq<char>, rest: Seq<char>, pat: Seq<char>, i: int)
    requires
        0 <= i,
    ensures
        find_from(x + rest, pat, x.len() + i) == if find_from(rest, pat, i) < 0 {
            -1
        } else {
            x.len() + find_from(rest, pat, i)
        },
    decreases rest.len() + 1 - i,
{
    lemma_occurs_shift(x, rest, pat, i);
    if i + pat.len() > rest.len() {
    } else if occurs_at(rest, pat, i) {
    } else {
        lemma_find_shift(x, rest, pat, i + 1);
    }
}

/// What follows `x` is cut as it is cut in the whole.
pub proof fn lemma_split_shift(x: Seq<char>, rest: Seq<char>, pat: Seq<char>, start: int)
    requires
        0 <= start <= rest.len(),
        pat.len() > 0,
    ensures
        split_from(x + rest, pat, x.len() + start) == split_from(rest, pat, start),
    decreases rest.len() - start,
{
    let s = x + rest;
    lemma_find_shift(x, rest, pat, start);
    lemma_find_from(rest, pat, start);
    let i = find_from(rest, pat, start);
    if i < start || i + pat.len() > rest.len() {
        assert(s.subrange(x.len() + start, s.len() as int) =~= rest.subrange(
            start,
            rest.len() as int,
        ));
    } else {
        assert(s.subrange(x.len() + start, x.len() + i) =~= rest.subrange(start, i));
        lemma_split_shift(x, rest, pat, i + pat.len());
    }
}

/// Joining a first piece and more pieces: the first piece, the separator,
/// and the other pieces joined.
pub proof fn lemma_join_first(first: Seq<char>, more: Seq<Seq<char>>, sep: Seq<char>)
    requires
        more.len() > 0,
    ensures
        join(seq![first] + more, sep) == first + sep + join(more, sep),
    decreases more.len(),
{
    let all = seq![first] + more;
    assert(all.drop_last() =~= seq![first] + more.drop_last());
    assert(all.last() == more.last());
    if more.len() == 1 {
        assert(all.drop_last() =~= seq![first]);
        assert(join(all.drop_last(), sep) == first);
        assert(join(more, sep) == more[0]);
    } else {
        lemma_join_first(first, more.drop_last(), sep);
        assert(join(all, sep) =~= first + sep + join(more, sep));
    }
}

/// A text in which `pat` does not occur is left as it is.
pub proof fn lemma_replaced_nothing(s: Seq<char>, pat: Seq<char>, rep: Seq<char>)
    requires
        pat.len() > 0,
        forall|j: int| 0 <= j ==> !occurs_at(s, pat, j),
    ensures
        replaced(s, pat, rep) == s,
{
    lemma_no_occurrence(s, pat, 0);
    assert(s.subrange(0, s.len() as int) =~= s);
}

/// Where `pat` does not occur before the end of `x`, replacing in `x` and
/// what follows it leaves `x` and replaces in what follows.
pub proof fn lemma_replaced_after(x: Seq<char>, rest: Seq<char>, pat: Seq<char>, rep: Seq<char>)
    requires
        pat.len() > 0,
        forall|j: int| 0 <= j < x.len() ==> !occurs_at(x + rest, pat, j),
    ensures
        replaced(x + rest, pat, rep) == x + replaced(rest, pat, rep),
{
    let s = x + rest;
    lemma_find_from(s, pat, 0);
    lemma_find_from(rest, pat, 0);
    lemma_find_shift(x, rest, pat, 0);
    let f = find_from(s, pat, 0);
    let g = find_from(rest, pat, 0);
    assert(find_from(s, pat, x.len() as int) == if g < 0 {
        -1
    } else {
        x.len() + g
    });
    if f >= 0 {
        assert(f >= x.len());
        assert(occurs_at(s, pat, f));
        lemma_occurs_shift(x, rest, pat, f - x.len());
        assert(occurs_at(rest, pat, f - x.len()));
        assert forall|j: int| 0 <= j < f - x.len() implies !occurs_at(rest, pat, j) by {
            lemma_occurs_shift(x, rest, pat, j);
        }
        lemma_first_occurrence(rest, pat, 0, f - x.len());
        assert(g == f - x.len());
        let tail = split_from(rest, pat, g + pat.len());
        lemma_split_shift(x, rest, pat, g + pat.len());
        assert(split_from(s, pat, f + pat.len()) == tail);
        assert(s.subrange(0, f) =~= x + rest.subrange(0, g));
        lemma_join_first(s.subrange(0, f), tail, rep);
        lemma_join_first(rest.subrange(0, g), tail, rep);
        assert(replaced(s, pat, rep) =~= x + replaced(rest, pat, rep));
    } else {
        assert forall|j: int| 0 <= j implies !occurs_at(rest, pat, j) by {
            lemma_occurs_shift(x, rest, pat, j);
        }
        lemma_no_occurrence(rest, pat, 0);
        assert(s.subrange(0, s.len() as int) =~= s);
        assert(rest.subrange(0, rest.len() as int) =~= rest);
    }
}

/// Replacing in `pat` and what follows it gives `rep`, and replaces in what
/// follows.
pub proof fn lemma_replaced_first(rest: Seq<char>, pat: Seq<char>, rep: Seq<char>)
    requires
        pat.len() > 0,
    ensures
        replaced(pat + rest, pat, rep) == rep + replaced(rest, pat, rep),
{
    let s = pat + rest;
    assert(s.subrange(0, pat.len() as int) =~= pat);
    assert(occurs_at(s, pat, 0));
    lemma_split_shift(pat, rest, pat, 0);
    let tail = split_from(rest, pat, 0);
    assert(s.subrange(0, 0) =~= Seq::<char>::empty());
    lemma_join_first(Seq::<char>::empty(), tail, rep);
    assert(replaced(s, pat, rep) =~= rep + replaced(rest, pat, rep));
}


/// Every scalar value of `s` is whitespace.
pub open spec fn is_blank(s: Seq<char>) -> bool {
    forall|i: int| 0 <= i < s.len() ==> is_whitespace(s[i])
}

/// `s` is not empty, and neither starts nor ends with whitespace.
pub open spec fn is_trimmed(s: Seq<char>) -> bool {
    s.len() > 0 && !is_whitespace(s[0]) && !is_whitespace(s[s.len() - 1])
}

/// Whitespace from `i` up to `k` is passed over.
pub proof fn lemma_skip_whitespace(s: Seq<char>, i: int, k: int)
    requires
        0 <= i <= k <= s.len(),
        forall|j: int| i <= j < k ==> is_whitespace(s[j]),
        k < s.len() ==> !is_whitespace(s[k]),
    ensures
        skip_whitespace(s, i) == k,
    decreases k - i,
{
    if i < k {
        lemma_skip_whitespace(s, i + 1, k);
    }
}

/// Whitespace from `j` back to `k` is passed over.
pub proof fn lemma_skip_whitespace_back(s: Seq<char>, j: int, k: int)
    requires
        0 <= k <= j <= s.len(),
        forall|i: int| k <= i < j ==> is_whitespace(s[i]),
        k > 0 ==> !is_whitespace(s[k - 1]),
    ensures
        skip_whitespace_back(s, j) == k,
    decreases j - k,
{
    if k < j {
        lemma_skip_whitespace_back(s, j - 1, k);
    }
}

/// A trimmed text between two runs of whitespace is what is left when the
/// whole is trimmed.
pub proof fn lemma_trimmed_around(before: Seq<char>, s: Seq<char>, after: Seq<char>)
    requires
        is_blank(before),
        is_trimmed(s),
        is_blank(after),
    ensures
        trimmed(before + s + after) == s,
{
    let all = before + s + after;
    lemma_skip_whitespace(all, 0, before.len() as int);
    lemma_skip_whitespace_back(all, all.len() as int, (before.len() + s.len()) as int);
    assert(all.subrange(before.len() as int, (before.len() + s.len()) as int) =~= s);
}

/// A trimmed text is left as it is when it is trimmed.
pub proof fn lemma_trimmed_is_kept(s: Seq<char>)
    requires
        is_trimmed(s),
    ensures
        trimmed(s) == s,
{
    lemma_trimmed_around(Seq::empty(), s, Seq::empty());
    assert(Seq::<char>::empty() + s + Seq::<char>::empty() =~= s);
}

/// Nothing is left of whitespace when it is trimmed.
pub proof fn lemma_trimmed_blank(s: Seq<char>)
    requires
        is_blank(s),
    ensures
        trimmed(s).len() == 0,
{
    lemma_skip_whitespace(s, 0, s.len() as int);
    lemma_skip_whitespace_back(s, s.len() as int, 0);
}

/// `s` holds no `c`.
pub open spec fn is_free_of(s: Seq<char>, c: char) -> bool {
    forall|i: int| 0 <= i < s.len() ==> s[i] != c
}

/// The one-scalar-value pattern `c` occurs where `c` stands.
pub proof fn lemma_occurs_one(s: Seq<char>, c: char, i: int)
    ensures
        occurs_at(s, seq![c], i) == (0 <= i < s.len() && s[i] == c),
{
    if 0 <= i < s.len() {
        if s[i] == c {
            assert(s.subrange(i, i + 1) =~= seq![c]);
        } else {
            assert(s.subrange(i, i + 1)[0] == s[i]);
        }
    }
}

/// A text without `c`, cut at `c`, is one piece.
pub proof fn lemma_split_nothing(s: Seq<char>, c: char)
    requires
        is_free_of(s, c),
    ensures
        split(s, seq![c]) == seq![s],
{
    assert forall|j: int| 0 <= j implies !occurs_at(s, seq![c], j) by {
        lemma_occurs_one(s, c, j);
    }
    lemma_no_occurrence(s, seq![c], 0);
    assert(s.subrange(0, s.len() as int) =~= s);
}

/// A text without `c`, then `c`, then more: cut at `c`, the text is the first
/// piece, and the other pieces are those of what follows.
pub proof fn lemma_split_first(x: Seq<char>, rest: Seq<char>, c: char)
    requires
        is_free_of(x, c),
    ensures
        split(x + seq![c] + rest, seq![c]) == seq![x] + split(rest, seq![c]),
{
    let s = x + seq![c] + rest;
    let pat = seq![c];
    assert forall|j: int| 0 <= j < x.len() implies !occurs_at(s, pat, j) by {
        lemma_occurs_one(s, c, j);
    }
    lemma_occurs_one(s, c, x.len() as int);
    lemma_first_occurrence(s, pat, 0, x.len() as int);
    assert(s.subrange(0, x.len() as int) =~= x);
    assert(s =~= (x + seq![c]) + rest);
    lemma_split_shift(x + seq![c], rest, pat, 0);
}

/// Texts without `c`, joined with `c` and cut at `c`, are what they were.
pub proof fn lemma_split_join(parts: Seq<Seq<char>>, c: char)
    requires
        parts.len() > 0,
        forall|i: int| 0 <= i < parts.len() ==> is_free_of(#[trigger] parts[i], c),
    ensures
        split(join(parts, seq![c]), seq![c]) == parts,
    decreases parts.len(),
{
    if parts.len() == 1 {
        lemma_split_nothing(parts[0], c);
        assert(parts =~= seq![parts[0]]);
    } else {
        let more = parts.drop_first();
        assert(parts =~= seq![parts[0]] + more);
        lemma_join_first(parts[0], more, seq![c]);
        assert forall|i: int| 0 <= i < more.len() implies is_free_of(#[trigger] more[i], c) by {
            assert(more[i] == parts[i + 1]);
        }
        lemma_split_join(more, c);
        lemma_split_first(parts[0], join(more, seq![c]), c);
    }
}

/// Where `pat` does not occur before the end of `x`, cutting `x`, `pat` and
/// what follows once gives `x` and what follows.
pub proof fn lemma_split_once(x: Seq<char>, pat: Seq<char>, rest: Seq<char>)
    requires
        forall|j: int| 0 <= j < x.len() ==> !occurs_at(x + pat + rest, pat, j),
    ensures
        split_once(x + pat + rest, pat) == Some((x, rest)),
{
    let s = x + pat + rest;
    assert(s.subrange(x.len() as int, (x.len() + pat.len()) as int) =~= pat);
    lemma_first_occurrence(s, pat, 0, x.len() as int);
    assert(s.subrange(0, x.len() as int) =~= x);
    assert(s.subrange((x.len() + pat.len()) as int, s.len() as int) =~= rest);
}


/// No three hyphens of `s` stand side by side.
pub open spec fn has_no_triple_hyphen(s: Seq<char>) -> bool {
    forall|i: int|
        0 <= i < s.len() - 2 ==> !(#[trigger] s[i] == '-' && s[i + 1] == '-' && s[i + 2] == '-')
}

/// Two texts without a triple hyphen, one after the other, have none where
/// the first does not end with a hyphen.
pub proof fn lemma_no_triple_hyphen_add(a: Seq<char>, b: Seq<char>)
    requires
        has_no_triple_hyphen(a),
        has_no_triple_hyphen(b),
        a.len() > 0 ==> a[a.len() - 1] != '-',
    ensures
        has_no_triple_hyphen(a + b),
{
    let s = a + b;
    assert forall|i: int| 0 <= i < s.len() - 2 implies !(#[trigger] s[i] == '-' && s[i + 1] == '-'
        && s[i + 2] == '-') by {
        if i + 2 < a.len() {
            assert(s[i] == a[i] && s[i + 1] == a[i + 1] && s[i + 2] == a[i + 2]);
        } else if i < a.len() {
            assert(s[a.len() - 1] == a[a.len() - 1]);
        } else {
            assert(s[i] == b[i - a.len()] && s[i + 1] == b[i + 1 - a.len()] && s[i + 2] == b[i + 2
                - a.len()]);
        }
    }
}

/// Two texts without a triple hyphen, with a scalar value that is no hyphen
/// between them, have none.
pub proof fn lemma_no_triple_hyphen_between(a: Seq<char>, c: char, b: Seq<char>)
    requires
        has_no_triple_hyphen(a),
        has_no_triple_hyphen(b),
        c != '-',
    ensures
        has_no_triple_hyphen(a + seq![c] + b),
{
    let s = a + seq![c] + b;
    assert forall|i: int| 0 <= i < s.len() - 2 implies !(#[trigger] s[i] == '-' && s[i + 1] == '-'
        && s[i + 2] == '-') by {
        if i + 2 < a.len() {
            assert(s[i] == a[i] && s[i + 1] == a[i + 1] && s[i + 2] == a[i + 2]);
        } else if i <= a.len() {
            assert(s[a.len() as int] == c);
        } else {
            assert(s[i] == b[i - a.len() - 1] && s[i + 1] == b[i - a.len()] && s[i + 2] == b[i
                + 1 - a.len()]);
        }
    }
}

/// What is said of each of the parts `parts`: it neither starts nor ends
/// with whitespace, and it holds no `c`, no line feed and no triple hyphen.
/// A part may be empty.
pub open spec fn are_words(parts: Seq<Seq<char>>, c: char) -> bool {
    forall|i: int|
        0 <= i < parts.len() ==> {
            &&& (#[trigger] parts[i]).len() == 0 || is_trimmed(parts[i])
            &&& is_free_of(parts[i], c)
            &&& is_free_of(parts[i], '\n')
            &&& has_no_triple_hyphen(parts[i])
        }
}

/// Words joined with `c` between them, where `c` is neither whitespace nor a
/// hyphen, hold no line feed and no triple hyphen, and neither start nor end
/// with whitespace, unless nothing is joined but one empty word.
pub proof fn lemma_join_words(parts: Seq<Seq<char>>, c: char)
    requires
        parts.len() > 0,
        are_words(parts, c),
        !is_whitespace(c) && c != '-',
    ensures
        parts.len() > 1 ==> join(parts, seq![c]).len() > 0,
        join(parts, seq![c]).len() > 0 ==> is_trimmed(join(parts, seq![c])),
        is_free_of(join(parts, seq![c]), '\n'),
        has_no_triple_hyphen(join(parts, seq![c])),
    decreases parts.len(),
{
    if parts.len() > 1 {
        let before = parts.drop_last();
        assert forall|i: int| 0 <= i < before.len() implies {
            &&& (#[trigger] before[i]).len() == 0 || is_trimmed(before[i])
            &&& is_free_of(before[i], c)
            &&& is_free_of(before[i], '\n')
            &&& has_no_triple_hyphen(before[i])
        } by {
            assert(before[i] == parts[i]);
        }
        lemma_join_words(before, c);
        let head = join(before, seq![c]);
        let last = parts[parts.len() - 1];
        let all = head + seq![c] + last;
        assert(last.len() == 0 || is_trimmed(last));
        lemma_no_triple_hyphen_between(head, c, last);
        assert(all[head.len() as int] == c);
        if head.len() > 0 {
            assert(all[0] == head[0]);
        }
        if last.len() > 0 {
            assert(all[all.len() - 1] == last[last.len() - 1]);
        }
    } else {
        assert(parts[0].len() == 0 || is_trimmed(parts[0]));
    }
}

/// What is left of a text with a scalar value that is no whitespace, once it
/// is trimmed, is not empty.
pub proof fn lemma_trimmed_is_not_empty(s: Seq<char>, k: int)
    requires
        0 <= k < s.len(),
        !is_whitespace(s[k]),
    ensures
        trimmed(s).len() > 0,
{
    lemma_skip_whitespace_bound(s, 0, k);
    lemma_skip_whitespace_back_bound(s, s.len() as int, k);
}

/// Passing over whitespace from `i` on stops at the latest where a scalar
/// value is no whitespace.
pub proof fn lemma_skip_whitespace_bound(s: Seq<char>, i: int, k: int)
    requires
        0 <= i <= k < s.len(),
        !is_whitespace(s[k]),
    ensures
        i <= skip_whitespace(s, i) <= k,
    decreases k - i,
{
    if i < k && is_whitespace(s[i]) {
        lemma_skip_whitespace_bound(s, i + 1, k);
    }
}

/// Passing over whitespace from `j` back stops at the latest where a scalar
/// value is no whitespace.
pub proof fn lemma_skip_whitespace_back_bound(s: Seq<char>, j: int, k: int)
    requires
        0 <= k < j <= s.len(),
        !is_whitespace(s[k]),
    ensures
        k < skip_whitespace_back(s, j) <= j,
    decreases j - k,
{
    if k + 1 < j && is_whitespace(s[j - 1]) {
        lemma_skip_whitespace_back_bound(s, j - 1, k);
    }
}


/// Texts that are not empty and hold no `c` and no triple hyphen, joined
/// with `c` between them, where `c` is no hyphen: the whole starts with the
/// first text and ends with the last, and holds no triple hyphen.
pub proof fn lemma_join_lines(parts: Seq<Seq<char>>, c: char)
    requires
        parts.len() > 0,
        forall|i: int|
            0 <= i < parts.len() ==> (#[trigger] parts[i]).len() > 0 && has_no_triple_hyphen(
                parts[i],
            ),
        c != '-',
    ensures
        join(parts, seq![c]).len() > 0,
        join(parts, seq![c])[0] == parts[0][0],
        join(parts, seq![c])[join(parts, seq![c]).len() - 1] == parts[parts.len() - 1][parts[
            parts.len() - 1].len() - 1],
        has_no_triple_hyphen(join(parts, seq![c])),
    decreases parts.len(),
{
    if parts.len() > 1 {
        let before = parts.drop_last();
        assert forall|i: int| 0 <= i < before.len() implies (#[trigger] before[i]).len() > 0
            && has_no_triple_hyphen(before[i]) by {
            assert(before[i] == parts[i]);
        }
        lemma_join_lines(before, c);
        let head = join(before, seq![c]);
        let last = parts[parts.len() - 1];
        assert(last.len() > 0);
        lemma_no_triple_hyphen_between(head, c, last);
        assert(before[0] == parts[0]);
    } else {
        assert(parts[0].len() > 0);
    }
}

/// A text without hyphens, followed by a text without a triple hyphen, has
/// no triple hyphen; it holds no `c` where neither holds one.
pub proof fn lemma_label_and_value(label: Seq<char>, value: Seq<char>, c: char)
    requires
        is_free_of(label, '-'),
        is_free_of(label, c),
        has_no_triple_hyphen(value),
        is_free_of(value, c),
    ensures
        has_no_triple_hyphen(label + value),
        is_free_of(label + value, c),
{
    lemma_no_triple_hyphen_add(label, value);
}


/// What is left of a text once it is trimmed neither starts nor ends with
/// whitespace.
pub proof fn lemma_trimmed_ends(s: Seq<char>)
    ensures
        trimmed(s).len() > 0 ==> is_trimmed(trimmed(s)),
{
    let a = skip_whitespace(s, 0);
    let b = skip_whitespace_back(s, s.len() as int);
    lemma_skip_whitespace_stops(s, 0);
    lemma_skip_whitespace_back_stops(s, s.len() as int);
    if a < b {
        assert(trimmed(s)[0] == s[a]);
        assert(trimmed(s)[trimmed(s).len() - 1] == s[b - 1]);
    }
}

/// Passing over whitespace stops at a scalar value that is no whitespace,
/// or at the end.
pub proof fn lemma_skip_whitespace_stops(s: Seq<char>, i: int)
    requires
        0 <= i <= s.len(),
    ensures
        i <= skip_whitespace(s, i) <= s.len(),
        skip_whitespace(s, i) < s.len() ==> !is_whitespace(s[skip_whitespace(s, i)]),
    decreases s.len() - i,
{
    if i < s.len() && is_whitespace(s[i]) {
        lemma_skip_whitespace_stops(s, i + 1);
    }
}

/// Passing over whitespace backwards stops after a scalar value that is no
/// whitespace, or at the start.
pub proof fn lemma_skip_whitespace_back_stops(s: Seq<char>, j: int)
    requires
        0 <= j <= s.len(),
    ensures
        0 <= skip_whitespace_back(s, j) <= j,
        skip_whitespace_back(s, j) > 0 ==> !is_whitespace(s[skip_whitespace_back(s, j) - 1]),
    decreases j,
{
    if j > 0 && is_whitespace(s[j - 1]) {
        lemma_skip_whitespace_back_stops(s, j - 1);
    }
}

} // verus!
