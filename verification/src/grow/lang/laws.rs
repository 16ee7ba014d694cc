//! What holds of the slug of a title made of words.

use vstd::prelude::*;
use crate::grow::lang::{
    ascii_lower, hyphenated, image, lowered, slug_of, slug_of_lowercase, table_of, transliterated,
};
use crate::grow::post::{is_slug, is_slug_char};
use crate::text::{join, trimmed};
use crate::text::laws::{is_trimmed, lemma_trimmed_is_kept};

verus! {

/// A Latin lower-case letter or a digit.
pub open spec fn is_slug_letter(c: char) -> bool {
    'a' <= c <= 'z' || '0' <= c <= '9'
}

/// A text of Latin lower-case letters and digits.
pub open spec fn is_slug_text(s: Seq<char>) -> bool {
    forall|i: int| 0 <= i < s.len() ==> is_slug_letter(#[trigger] s[i])
}

/// A word of a title that the table can write: it holds no space and no
/// hyphen, each of its scalar values gives way to Latin lower-case letters
/// and digits or to nothing, and one of them at least gives way to
/// something. Spaces and hyphens stand between words.
pub open spec fn is_slug_word(word: Seq<char>, table: Seq<(Seq<char>, Seq<char>)>) -> bool {
    &&& forall|i: int|
        0 <= i < word.len() ==> (#[trigger] word[i]) != ' ' && word[i] != '-' && is_slug_text(
            image(table, word[i]),
        )
    &&& transliterated(word, table).len() > 0
}

/// Each of the words is one that the table can write.
pub open spec fn are_slug_words(words: Seq<Seq<char>>, table: Seq<(Seq<char>, Seq<char>)>) -> bool {
    forall|i: int| 0 <= i < words.len() ==> is_slug_word(#[trigger] words[i], table)
}

/// Hyphens take the place of spaces scalar value by scalar value.
pub proof fn lemma_hyphenated_add(a: Seq<char>, b: Seq<char>)
    ensures
        hyphenated(a + b) == hyphenated(a) + hyphenated(b),
{
    assert(hyphenated(a + b) =~= hyphenated(a) + hyphenated(b));
}

/// The words `words` with the scalar values `between` between them: after
/// each word but the last comes the scalar value of the same index.
pub open spec fn interleaved(words: Seq<Seq<char>>, between: Seq<char>) -> Seq<char>
    decreases words.len(),
{
    if words.len() == 0 {
        Seq::empty()
    } else if words.len() == 1 || between.len() == 0 {
        words[0]
    } else {
        interleaved(words.drop_last(), between.drop_last()) + seq![between.last()] + words.last()
    }
}

/// Each of the scalar values `between` is a space or a hyphen.
pub open spec fn are_separators(between: Seq<char>) -> bool {
    forall|i: int| 0 <= i < between.len() ==> between[i] == ' ' || between[i] == '-'
}

/// Words without spaces, with a space or a hyphen between each two: with a
/// hyphen in the place of each space, they are the words joined with a
/// hyphen.
pub proof fn lemma_hyphenated_interleaved(words: Seq<Seq<char>>, between: Seq<char>)
    requires
        words.len() == between.len() + 1,
        are_separators(between),
        forall|i: int, k: int|
            0 <= i < words.len() && 0 <= k < words[i].len() ==> (#[trigger] words[i][k]) != ' ',
    ensures
        hyphenated(interleaved(words, between)) == join(words, seq!['-']),
    decreases words.len(),
{
    if words.len() == 1 {
        assert(hyphenated(words[0]) =~= words[0]);
    } else {
        let before = words.drop_last();
        assert forall|i: int, k: int| 0 <= i < before.len() && 0 <= k < before[i].len() implies (
        #[trigger] before[i][k]) != ' ' by {
            assert(before[i] == words[i]);
        }
        assert forall|i: int| 0 <= i < between.drop_last().len() implies between.drop_last()[i]
            == ' ' || between.drop_last()[i] == '-' by {
            assert(between.drop_last()[i] == between[i]);
        }
        lemma_hyphenated_interleaved(before, between.drop_last());
        let head = interleaved(before, between.drop_last());
        let sep = seq![between.last()];
        lemma_hyphenated_add(head + sep, words.last());
        lemma_hyphenated_add(head, sep);
        assert(between.last() == between[between.len() - 1]);
        assert(hyphenated(sep) =~= seq!['-']);
        assert(hyphenated(words.last()) =~= words.last());
    }
}

/// A text is written scalar value by scalar value.
pub proof fn lemma_transliterated_add(
    a: Seq<char>,
    b: Seq<char>,
    table: Seq<(Seq<char>, Seq<char>)>,
)
    ensures
        transliterated(a + b, table) == transliterated(a, table) + transliterated(b, table),
    decreases b.len(),
{
    if b.len() == 0 {
        assert(a + b =~= a);
        assert(transliterated(a, table) + transliterated(b, table) =~= transliterated(a, table));
    } else {
        lemma_transliterated_add(a, b.drop_last(), table);
        assert((a + b).drop_last() =~= a + b.drop_last());
        assert((a + b).last() == b.last());
        assert(transliterated(a, table) + transliterated(b.drop_last(), table) + image(
            table,
            b.last(),
        ) =~= transliterated(a, table) + (transliterated(b.drop_last(), table) + image(
            table,
            b.last(),
        )));
    }
}

/// A single scalar value is written as what stands for it.
pub proof fn lemma_transliterated_one(c: char, table: Seq<(Seq<char>, Seq<char>)>)
    ensures
        transliterated(seq![c], table) == image(table, c),
{
    let one = seq![c];
    assert(one.drop_last() =~= Seq::<char>::empty());
    assert(transliterated(one.drop_last(), table) =~= Seq::<char>::empty());
    assert(one.last() == c);
    assert(Seq::<char>::empty() + image(table, c) =~= image(table, c));
}

/// What each of the words is written as.
pub open spec fn written_words(words: Seq<Seq<char>>, table: Seq<(Seq<char>, Seq<char>)>) -> Seq<
    Seq<char>,
> {
    words.map_values(|w: Seq<char>| transliterated(w, table))
}

/// Words joined with a hyphen are written as what the words are written as,
/// joined with a hyphen, where the table leaves the hyphen as it is.
pub proof fn lemma_transliterated_join(words: Seq<Seq<char>>, table: Seq<(Seq<char>, Seq<char>)>)
    requires
        image(table, '-') == seq!['-'],
    ensures
        transliterated(join(words, seq!['-']), table) == join(
            written_words(words, table),
            seq!['-'],
        ),
    decreases words.len(),
{
    let pieces = written_words(words, table);
    if words.len() == 0 {
    } else if words.len() == 1 {
    } else {
        let before = words.drop_last();
        lemma_transliterated_join(before, table);
        assert(pieces.drop_last() =~= written_words(before, table));
        let head = join(before, seq!['-']);
        lemma_transliterated_add(head + seq!['-'], words.last(), table);
        lemma_transliterated_add(head, seq!['-'], table);
        lemma_transliterated_one('-', table);
    }
}

/// A word that the table can write is written as Latin lower-case letters
/// and digits.
pub proof fn lemma_transliterated_word(word: Seq<char>, table: Seq<(Seq<char>, Seq<char>)>)
    requires
        forall|i: int| 0 <= i < word.len() ==> is_slug_text(image(table, #[trigger] word[i])),
    ensures
        is_slug_text(transliterated(word, table)),
    decreases word.len(),
{
    if word.len() > 0 {
        let before = word.drop_last();
        assert forall|i: int| 0 <= i < before.len() implies is_slug_text(
            image(table, #[trigger] before[i]),
        ) by {
            assert(before[i] == word[i]);
        }
        lemma_transliterated_word(before, table);
        let head = transliterated(before, table);
        let tail = image(table, word.last());
        assert(is_slug_text(tail)) by {
            assert(word.last() == word[word.len() - 1]);
        }
        assert forall|i: int| 0 <= i < (head + tail).len() implies is_slug_letter(
            #[trigger] (head + tail)[i],
        ) by {
            if i < head.len() {
                assert((head + tail)[i] == head[i]);
            } else {
                assert((head + tail)[i] == tail[i - head.len()]);
            }
        }
    }
}

/// Texts of Latin lower-case letters and digits, none of them empty, joined
/// with a hyphen, are a slug.
pub proof fn lemma_join_is_slug(pieces: Seq<Seq<char>>)
    requires
        pieces.len() > 0,
        forall|i: int|
            0 <= i < pieces.len() ==> (#[trigger] pieces[i]).len() > 0 && is_slug_text(pieces[i]),
    ensures
        is_slug(join(pieces, seq!['-'])),
        join(pieces, seq!['-']).len() > 0,
    decreases pieces.len(),
{
    if pieces.len() == 1 {
        let p = pieces[0];
        assert(p.len() > 0 && is_slug_text(p));
        assert forall|i: int| 0 <= i < p.len() implies is_slug_char(#[trigger] p[i]) by {
            assert(is_slug_letter(p[i]));
        }
        assert(is_slug_letter(p[0]) && is_slug_letter(p[p.len() - 1]));
        assert forall|i: int| 0 <= i < p.len() - 1 implies !(#[trigger] p[i] == '-' && p[i + 1]
            == '-') by {
            assert(is_slug_letter(p[i]));
        }
    } else {
        let before = pieces.drop_last();
        assert forall|i: int| 0 <= i < before.len() implies (#[trigger] before[i]).len() > 0
            && is_slug_text(before[i]) by {
            assert(before[i] == pieces[i]);
        }
        lemma_join_is_slug(before);
        let head = join(before, seq!['-']);
        let last = pieces.last();
        assert(last == pieces[pieces.len() - 1]);
        assert(last.len() > 0 && is_slug_text(last));
        let all = head + seq!['-'] + last;
        assert forall|i: int| 0 <= i < all.len() implies is_slug_char(#[trigger] all[i]) by {
            if i < head.len() {
                assert(all[i] == head[i]);
            } else if i > head.len() {
                assert(all[i] == last[i - head.len() - 1]);
                assert(is_slug_letter(last[i - head.len() - 1]));
            }
        }
        assert(all[0] == head[0]);
        assert(all[all.len() - 1] == last[last.len() - 1]);
        assert(is_slug_letter(last[last.len() - 1]));
        assert(is_slug_letter(last[0]));
        assert forall|i: int| 0 <= i < all.len() - 1 implies !(#[trigger] all[i] == '-' && all[i
            + 1] == '-') by {
            if i + 1 < head.len() {
                assert(all[i] == head[i] && all[i + 1] == head[i + 1]);
            } else if i + 1 == head.len() {
                assert(all[i] == head[head.len() - 1]);
            } else if i == head.len() {
                assert(all[i + 1] == last[0]);
            } else {
                assert(all[i] == last[i - head.len() - 1]);
                assert(is_slug_letter(last[i - head.len() - 1]));
            }
        }
    }
}

/// A slug that is not empty is left as it is when it is trimmed and put in
/// lower case.
pub proof fn lemma_slug_is_kept(s: Seq<char>)
    requires
        is_slug(s),
        s.len() > 0,
    ensures
        trimmed(s) == s,
        lowered(s) == s,
{
    assert(is_slug_char(s[0]) && is_slug_char(s[s.len() - 1]));
    assert(is_trimmed(s));
    lemma_trimmed_is_kept(s);
    assert forall|i: int| 0 <= i < s.len() implies s[i] <= '\u{7f}' && ascii_lower(s[i])
        == s[i] by {
        assert(is_slug_char(s[i]));
    }
    assert(s.map_values(|c: char| ascii_lower(c)) =~= s);
}

/// The slug of a lower-case title made of words with one space or one
/// hyphen between each two is made of Latin lower-case letters, digits and
/// hyphens, does not start or end with a hyphen, has no two hyphens in a
/// row, and is not empty. The words are such as the table can write, and
/// the table leaves the hyphen as it is.
pub proof fn lemma_slug_of_words(words: Seq<Seq<char>>, between: Seq<char>, mapping: Seq<char>)
    requires
        words.len() == between.len() + 1,
        are_separators(between),
        are_slug_words(words, table_of(mapping)),
        image(table_of(mapping), '-') == seq!['-'],
    ensures
        is_slug(slug_of_lowercase(interleaved(words, between), mapping)),
        slug_of_lowercase(interleaved(words, between), mapping).len() > 0,
        lowered(slug_of_lowercase(interleaved(words, between), mapping)) == slug_of_lowercase(
            interleaved(words, between),
            mapping,
        ),
{
    let table = table_of(mapping);
    assert forall|i: int, k: int| 0 <= i < words.len() && 0 <= k < words[i].len() implies (
    #[trigger] words[i][k]) != ' ' by {
        assert(is_slug_word(words[i], table));
    }
    lemma_hyphenated_interleaved(words, between);
    lemma_transliterated_join(words, table);
    let pieces = written_words(words, table);
    assert forall|i: int| 0 <= i < pieces.len() implies (#[trigger] pieces[i]).len() > 0
        && is_slug_text(pieces[i]) by {
        assert(is_slug_word(words[i], table));
        lemma_transliterated_word(words[i], table);
    }
    lemma_join_is_slug(pieces);
    lemma_slug_is_kept(join(pieces, seq!['-']));
}

/// The slug of a title whose lower-case form, without the whitespace around
/// it, is made of words with one space or one hyphen between each two: see
/// [`lemma_slug_of_words`].
pub proof fn lemma_slug_of_title(
    value: Seq<char>,
    words: Seq<Seq<char>>,
    between: Seq<char>,
    mapping: Seq<char>,
)
    requires
        words.len() == between.len() + 1,
        are_separators(between),
        are_slug_words(words, table_of(mapping)),
        image(table_of(mapping), '-') == seq!['-'],
    ensures
        lowered(trimmed(value)) == interleaved(words, between) ==> is_slug(
            slug_of(value, mapping),
        ) && slug_of(value, mapping).len() > 0,
{
    lemma_slug_of_words(words, between, mapping);
    if lowered(trimmed(value)) == interleaved(words, between) {
        let title = lowered(trimmed(value));
        if title.len() == 0 {
            assert(hyphenated(title) =~= Seq::<char>::empty());
            crate::text::laws::lemma_trimmed_blank(Seq::<char>::empty());
        }
    }
}

} // verus!
