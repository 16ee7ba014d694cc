//! What holds of filling a template, and of reading back what was written.

use vstd::prelude::*;
use crate::grow::serdes::{marker, rendered};
use crate::table::value_at;
use crate::text::{occurs_at, replaced};
use crate::text::laws::{
    is_free_of, lemma_replaced_after, lemma_replaced_first, lemma_replaced_nothing,
};

verus! {

/// A part of a template: text that stays, or the place of a bound value.
pub enum Piece {
    Text(Seq<char>),
    Slot(Seq<char>),
}

/// What a piece is written as: a slot as the marker of its key.
pub open spec fn piece_text(piece: Piece) -> Seq<char> {
    match piece {
        Piece::Text(text) => text,
        Piece::Slot(key) => marker(key),
    }
}

/// The pieces from index `i` on, written one after the other.
pub open spec fn written(pieces: Seq<Piece>, i: int) -> Seq<char>
    decreases pieces.len() - i,
{
    if i < 0 || i >= pieces.len() {
        Seq::empty()
    } else {
        piece_text(pieces[i]) + written(pieces, i + 1)
    }
}

/// The piece after `value` was bound to `key`.
pub open spec fn fill_piece(piece: Piece, key: Seq<char>, value: Seq<char>) -> Piece {
    if piece == Piece::Slot(key) {
        Piece::Text(value)
    } else {
        piece
    }
}

/// The pieces after `value` was bound to `key`.
pub open spec fn fill(pieces: Seq<Piece>, key: Seq<char>, value: Seq<char>) -> Seq<Piece> {
    pieces.map_values(|piece: Piece| fill_piece(piece, key, value))
}

/// The pieces after each binding in turn was applied.
pub open spec fn fill_all(pieces: Seq<Piece>, bindings: Seq<(Seq<char>, Seq<char>)>) -> Seq<Piece>
    decreases bindings.len(),
{
    if bindings.len() == 0 {
        pieces
    } else {
        fill(fill_all(pieces, bindings.drop_last()), bindings.last().0, bindings.last().1)
    }
}

/// A key without square brackets.
pub open spec fn is_plain_key(key: Seq<char>) -> bool {
    is_free_of(key, '[') && is_free_of(key, ']')
}

/// The marker of `key` stands somewhere in `s`.
pub open spec fn holds_marker(s: Seq<char>, key: Seq<char>) -> bool {
    exists|p: int| occurs_at(s, marker(key), p)
}

/// The marker of `key` cannot reach into the piece after the one at `i`:
/// that piece is a text that starts with a scalar value which the marker
/// does not hold.
pub open spec fn is_closed(pieces: Seq<Piece>, i: int, key: Seq<char>) -> bool {
    i + 1 < pieces.len() && match pieces[i + 1] {
        Piece::Text(next) => next.len() > 0 && is_free_of(marker(key), next[0]),
        Piece::Slot(_) => false,
    }
}

/// Replacing the marker of `key` passes over the piece at `i` or fills it: a
/// slot has a plain key, and a text either holds no opening square bracket,
/// or does not hold the marker while the marker cannot reach into the piece
/// after it.
pub open spec fn is_quiet(pieces: Seq<Piece>, i: int, key: Seq<char>) -> bool {
    match pieces[i] {
        Piece::Text(text) => is_free_of(text, '[') || (!holds_marker(text, key) && is_closed(
            pieces,
            i,
            key,
        )),
        Piece::Slot(other) => is_plain_key(other),
    }
}

/// The marker of no key of `bindings` holds `c`.
pub open spec fn is_stop(c: char, bindings: Seq<(Seq<char>, Seq<char>)>) -> bool {
    forall|n: int| 0 <= n < bindings.len() ==> is_free_of(marker((#[trigger] bindings[n]).0), c)
}

/// The pieces of a template that `bindings` can fill: a text holds no
/// opening square bracket; a slot has a plain key, and after it comes a text
/// that starts with a scalar value which the marker of no bound key holds.
pub open spec fn is_template(pieces: Seq<Piece>, bindings: Seq<(Seq<char>, Seq<char>)>) -> bool {
    forall|i: int|
        0 <= i < pieces.len() ==> match #[trigger] pieces[i] {
            Piece::Text(text) => is_free_of(text, '['),
            Piece::Slot(key) => is_plain_key(key) && i + 1 < pieces.len() && match pieces[i
                + 1] {
                Piece::Text(next) => next.len() > 0 && is_stop(next[0], bindings),
                Piece::Slot(_) => false,
            },
        }
}

/// Plain keys, each bound to a value that holds the marker of no key bound
/// after it.
pub open spec fn are_ordered_bindings(bindings: Seq<(Seq<char>, Seq<char>)>) -> bool {
    &&& forall|n: int| 0 <= n < bindings.len() ==> is_plain_key((#[trigger] bindings[n]).0)
    &&& forall|j: int, k: int|
        0 <= j < k < bindings.len() ==> !holds_marker(
            (#[trigger] bindings[j]).1,
            (#[trigger] bindings[k]).0,
        )
}

/// A text without an opening square bracket holds no marker.
pub proof fn lemma_no_bracket_no_marker(s: Seq<char>, key: Seq<char>)
    requires
        is_free_of(s, '['),
    ensures
        !holds_marker(s, key),
{
    let m = marker(key);
    assert forall|p: int| !occurs_at(s, m, p) by {
        if occurs_at(s, m, p) {
            assert(s.subrange(p, p + m.len())[0] == m[0]);
            assert(s[p] == '[');
        }
    }
}

/// What a piece becomes under the bindings: a slot whose key is bound
/// becomes the first value bound to it.
pub open spec fn resolved(piece: Piece, bindings: Seq<(Seq<char>, Seq<char>)>) -> Piece {
    match piece {
        Piece::Text(_) => piece,
        Piece::Slot(key) => match value_at(bindings, key) {
            Some(value) => Piece::Text(value),
            None => piece,
        },
    }
}

/// The marker of one plain key does not stand at the start of the marker of
/// another.
proof fn lemma_markers_differ(key: Seq<char>, other: Seq<char>, rest: Seq<char>)
    requires
        is_plain_key(key),
        is_plain_key(other),
        key != other,
    ensures
        !occurs_at(marker(other) + rest, marker(key), 0),
{
    let s = marker(other) + rest;
    let m = marker(key);
    if occurs_at(s, m, 0) {
        let part = s.subrange(0, m.len() as int);
        assert(part == m);
        if key.len() < other.len() {
            assert(part[key.len() as int + 1] == other[key.len() as int]);
            assert(m[key.len() as int + 1] == ']');
        } else if key.len() > other.len() {
            assert(part[other.len() as int + 1] == ']');
            assert(m[other.len() as int + 1] == key[other.len() as int]);
        } else {
            assert forall|j: int| 0 <= j < key.len() implies key[j] == other[j] by {
                assert(part[j + 1] == other[j]);
                assert(m[j + 1] == key[j]);
            }
            assert(key =~= other);
        }
    }
}

/// Replacing the marker of `key` in what the pieces write fills the slots of
/// `key`.
pub proof fn lemma_replaced_fills(pieces: Seq<Piece>, key: Seq<char>, value: Seq<char>, i: int)
    requires
        forall|k: int| 0 <= k < pieces.len() ==> is_quiet(pieces, k, key),
        is_plain_key(key),
        0 <= i <= pieces.len(),
    ensures
        replaced(written(pieces, i), marker(key), value) == written(fill(pieces, key, value), i),
    decreases pieces.len() - i,
{
    let m = marker(key);
    if i >= pieces.len() {
        lemma_replaced_nothing(Seq::<char>::empty(), m, value);
    } else {
        lemma_replaced_fills(pieces, key, value, i + 1);
        let rest = written(pieces, i + 1);
        assert(is_quiet(pieces, i, key));
        match pieces[i] {
            Piece::Text(text) => {
                let s = text + rest;
                assert forall|j: int| 0 <= j < text.len() implies !occurs_at(s, m, j) by {
                    if occurs_at(s, m, j) {
                        let part = s.subrange(j, j + m.len());
                        assert(part[0] == m[0]);
                        assert(text[j] == '[');
                        if j + m.len() <= text.len() {
                            assert(text.subrange(j, j + m.len()) =~= part);
                            assert(occurs_at(text, m, j));
                        } else {
                            assert(is_closed(pieces, i, key));
                            assert(part[text.len() - j] == m[text.len() - j]);
                            assert(s[text.len() as int] == rest[0]);
                        }
                    }
                }
                lemma_replaced_after(text, rest, m, value);
            },
            Piece::Slot(other) => {
                if other == key {
                    lemma_replaced_first(rest, m, value);
                } else {
                    let x = marker(other);
                    assert forall|j: int| 0 <= j < x.len() implies !occurs_at(x + rest, m, j) by {
                        if j == 0 {
                            lemma_markers_differ(key, other, rest);
                        } else if occurs_at(x + rest, m, j) {
                            assert((x + rest).subrange(j, j + m.len())[0] == m[0]);
                            assert(x[j] == '[');
                            if j <= other.len() {
                                assert(x[j] == other[j - 1]);
                            }
                        }
                    }
                    lemma_replaced_after(x, rest, m, value);
                }
            },
        }
    }
}

/// Once some bindings have filled a template, replacing the marker of the
/// key bound next passes over each piece or fills it.
proof fn lemma_filled_is_quiet(
    pieces: Seq<Piece>,
    bindings: Seq<(Seq<char>, Seq<char>)>,
    i: int,
)
    requires
        bindings.len() > 0,
        is_template(pieces, bindings),
        are_ordered_bindings(bindings),
        0 <= i < pieces.len(),
    ensures
        is_quiet(fill_all(pieces, bindings.drop_last()), i, bindings.last().0),
{
    let before = bindings.drop_last();
    let filled = fill_all(pieces, before);
    let key = bindings.last().0;
    lemma_fill_all_resolves(pieces, before, i);
    match pieces[i] {
        Piece::Text(text) => {},
        Piece::Slot(slot) => {
            crate::table::lemma_position(before, slot);
            let at = crate::table::position(before, slot);
            if 0 <= at < before.len() {
                assert(before[at] == bindings[at]);
                assert(bindings.last() == bindings[bindings.len() - 1]);
                assert(!holds_marker(bindings[at].1, bindings[bindings.len() - 1].0));
                lemma_fill_all_resolves(pieces, before, i + 1);
                assert(is_closed(filled, i, key));
            } else {
            }
        },
    }
}

/// Filling a template binding by binding fills its pieces binding by
/// binding, where each value holds the marker of no key bound after it.
pub proof fn lemma_rendered_fills(pieces: Seq<Piece>, bindings: Seq<(Seq<char>, Seq<char>)>)
    requires
        is_template(pieces, bindings),
        are_ordered_bindings(bindings),
    ensures
        rendered(written(pieces, 0), bindings) == written(fill_all(pieces, bindings), 0),
    decreases bindings.len(),
{
    if bindings.len() > 0 {
        let before = bindings.drop_last();
        assert forall|n: int| 0 <= n < before.len() implies #[trigger] before[n]
            == bindings[n] by {
        }
        assert(is_template(pieces, before)) by {
            assert forall|i: int| 0 <= i < pieces.len() implies match #[trigger] pieces[i] {
                Piece::Text(text) => is_free_of(text, '['),
                Piece::Slot(key) => is_plain_key(key) && i + 1 < pieces.len() && match pieces[i
                    + 1] {
                    Piece::Text(next) => next.len() > 0 && is_stop(next[0], before),
                    Piece::Slot(_) => false,
                },
            } by {
                match pieces[i] {
                    Piece::Text(_) => {},
                    Piece::Slot(_) => {
                        match pieces[i + 1] {
                            Piece::Text(next) => {
                                assert(is_stop(next[0], bindings));
                                assert forall|n: int| 0 <= n < before.len() implies is_free_of(
                                    marker((#[trigger] before[n]).0),
                                    next[0],
                                ) by {
                                    assert(before[n] == bindings[n]);
                                }
                            },
                            Piece::Slot(_) => {},
                        }
                    },
                }
            }
        }
        assert(are_ordered_bindings(before)) by {
            assert forall|n: int| 0 <= n < before.len() implies is_plain_key(
                (#[trigger] before[n]).0,
            ) by {
                assert(before[n] == bindings[n]);
            }
            assert forall|j: int, k: int| 0 <= j < k < before.len() implies !holds_marker(
                (#[trigger] before[j]).1,
                (#[trigger] before[k]).0,
            ) by {
                assert(before[j] == bindings[j] && before[k] == bindings[k]);
            }
        }
        lemma_rendered_fills(pieces, before);
        let last = bindings.last();
        assert(last == bindings[bindings.len() - 1]);
        let filled = fill_all(pieces, before);
        lemma_fill_all_resolves_len(pieces, before);
        assert forall|i: int| 0 <= i < filled.len() implies is_quiet(filled, i, last.0) by {
            lemma_filled_is_quiet(pieces, bindings, i);
        }
        lemma_replaced_fills(filled, last.0, last.1, 0);
    }
}

/// Filling leaves as many pieces as there were.
pub proof fn lemma_fill_all_resolves_len(
    pieces: Seq<Piece>,
    bindings: Seq<(Seq<char>, Seq<char>)>,
)
    ensures
        fill_all(pieces, bindings).len() == pieces.len(),
    decreases bindings.len(),
{
    if bindings.len() > 0 {
        lemma_fill_all_resolves_len(pieces, bindings.drop_last());
    }
}

/// Each piece is filled with the first value bound to its key.
pub proof fn lemma_fill_all_resolves(
    pieces: Seq<Piece>,
    bindings: Seq<(Seq<char>, Seq<char>)>,
    i: int,
)
    requires
        0 <= i < pieces.len(),
    ensures
        fill_all(pieces, bindings).len() == pieces.len(),
        fill_all(pieces, bindings)[i] == resolved(pieces[i], bindings),
    decreases bindings.len(),
{
    if bindings.len() > 0 {
        lemma_fill_all_resolves(pieces, bindings.drop_last(), i);
        crate::table::lemma_position(bindings.drop_last(), piece_key(pieces[i]));
    }
}

/// The key of a slot; of a text, nothing.
pub open spec fn piece_key(piece: Piece) -> Seq<char> {
    match piece {
        Piece::Text(_) => Seq::empty(),
        Piece::Slot(key) => key,
    }
}

/// The first `n` pieces, written one after the other.
pub open spec fn written_first(pieces: Seq<Piece>, n: int) -> Seq<char>
    decreases n,
{
    if n <= 0 || n > pieces.len() {
        Seq::empty()
    } else {
        written_first(pieces, n - 1) + piece_text(pieces[n - 1])
    }
}

/// The first pieces and the pieces that follow them write what all the
/// pieces write.
pub proof fn lemma_written_first(pieces: Seq<Piece>, n: int)
    requires
        0 <= n <= pieces.len(),
    ensures
        written_first(pieces, n) + written(pieces, n) == written(pieces, 0),
    decreases n,
{
    if n == 0 {
        assert(Seq::<char>::empty() + written(pieces, 0) =~= written(pieces, 0));
    } else {
        lemma_written_first(pieces, n - 1);
        assert(written_first(pieces, n) + written(pieces, n) =~= written_first(pieces, n - 1) + (
        piece_text(pieces[n - 1]) + written(pieces, n)));
    }
}

/// All the pieces, written from the first on, are all the pieces written.
pub proof fn lemma_written_all(pieces: Seq<Piece>)
    ensures
        written_first(pieces, pieces.len() as int) == written(pieces, 0),
{
    lemma_written_first(pieces, pieces.len() as int);
    assert(written_first(pieces, pieces.len() as int) + Seq::<char>::empty() =~= written_first(
        pieces,
        pieces.len() as int,
    ));
}

} // verus!
