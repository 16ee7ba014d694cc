//! A published record is read back from the document it was written as.

use vstd::prelude::*;
use crate::command::{gives, ErrorView};
use crate::grow::{
    DEFAULT_IMAGE, ISO8601_DATE_TIME_FORMAT, KEYWORDS_DELIMITER, KEY_VALUE_DELIMITER, LF,
    MAX_CHARS_IN_DESCRIPTION, MAX_CHARS_IN_TITLE, MAX_KEYWORDS_COUNT, META_DELIMITER, POST_TEMPLATE,
};
use crate::grow::builder::{
    checked_description, checked_keywords, checked_text, checked_title, GrowBuilderView, PostFields,
};
use crate::grow::lang::{lang_name, lang_of, Lang};
use crate::grow::post::{
    author_of, is_slug, is_slug_char, published, record_bindings, ApprovedPostView, GrowPostView,
};
use crate::grow::serdes::{
    grow_fold, grow_map, grow_post_of, grow_step, key_and_value, marker, meta_and_text,
    meta_of_lines, rendered,
};
use crate::grow::serdes::laws::{
    are_ordered_bindings, fill_all, holds_marker, is_plain_key, is_stop, is_template,
    lemma_fill_all_resolves, lemma_no_bracket_no_marker, lemma_rendered_fills, lemma_written_all,
    written, written_first, Piece,
};
use crate::grow::time::parsed_time;
use crate::table::{lemma_position_is, lemma_position_none, value_at};
use crate::text::{is_letter_or_number, join, letters_and_numbers, occurs_at, split, trimmed};
use crate::text::laws::{
    are_words, has_no_triple_hyphen, is_free_of, is_trimmed, lemma_join_lines, lemma_join_words,
    lemma_label_and_value, lemma_no_triple_hyphen_add, lemma_no_triple_hyphen_between,
    lemma_occurs_one, lemma_split_join, lemma_split_once, lemma_trimmed_around, lemma_trimmed_blank,
    lemma_trimmed_is_kept, lemma_trimmed_is_not_empty,
};

verus! {

/// The record template, piece by piece.
pub open spec fn post_pieces() -> Seq<Piece> {
    seq![
        Piece::Text("---\n$title@: "@),
        Piece::Slot("title"@),
        Piece::Text("\nauthor@: "@),
        Piece::Slot("author"@),
        Piece::Text("\ndescription: "@),
        Piece::Slot("description"@),
        Piece::Text("\nkeywords: "@),
        Piece::Slot("keywords"@),
        Piece::Text("\nimage: "@),
        Piece::Slot("image"@),
        Piece::Text("\nlang: "@),
        Piece::Slot("lang"@),
        Piece::Text("\nslug"@),
        Piece::Slot("lang"@),
        Piece::Text(": "@),
        Piece::Slot("slug"@),
        Piece::Text("\n$dates:\n  published: "@),
        Piece::Slot("published"@),
        Piece::Text("\n---\n\n"@),
        Piece::Slot("text"@),
        Piece::Text("\n"@),
    ]
}

/// The document of a published record, `published` being the instant of
/// publication as text.
pub open spec fn record_document(post: GrowPostView, published: Seq<char>) -> Seq<char> {
    "---\n$title@: "@ + post.slug + "\nauthor@: "@ + post.author + "\ndescription: "@
        + post.fields.description + "\nkeywords: "@ + join(
        post.fields.keywords,
        KEYWORDS_DELIMITER@,
    ) + "\nimage: "@ + DEFAULT_IMAGE@ + "\nlang: "@ + lang_name(post.fields.lang) + "\nslug"@
        + lang_name(post.fields.lang) + ": "@ + post.slug + "\n$dates:\n  published: "@
        + published + "\n---\n\n"@ + post.fields.text + "\n"@
}

/// The record template is what its pieces write.
pub proof fn lemma_post_template_pieces()
    ensures
        POST_TEMPLATE@ == written(post_pieces(), 0),
{
    reveal_strlit(
        "---\n$title@: [title]\nauthor@: [author]\ndescription: [description]\nkeywords: [keywords]\nimage: [image]\nlang: [lang]\nslug[lang]: [slug]\n$dates:\n  published: [published]\n---\n\n[text]\n",
    );
    reveal_strlit("---\n$title@: ");
    reveal_strlit("title");
    reveal_strlit("\nauthor@: ");
    reveal_strlit("author");
    reveal_strlit("\ndescription: ");
    reveal_strlit("description");
    reveal_strlit("\nkeywords: ");
    reveal_strlit("keywords");
    reveal_strlit("\nimage: ");
    reveal_strlit("image");
    reveal_strlit("\nlang: ");
    reveal_strlit("lang");
    reveal_strlit("\nslug");
    reveal_strlit(": ");
    reveal_strlit("slug");
    reveal_strlit("\n$dates:\n  published: ");
    reveal_strlit("published");
    reveal_strlit("\n---\n\n");
    reveal_strlit("text");
    reveal_strlit("\n");
    let p = post_pieces();
    reveal_with_fuel(written, 22);
    assert(written(p, 0) =~= "---\n$title@: "@ + marker("title"@) + "\nauthor@: "@ + marker(
        "author"@,
    ) + "\ndescription: "@ + marker("description"@) + "\nkeywords: "@ + marker("keywords"@)
        + "\nimage: "@ + marker("image"@) + "\nlang: "@ + marker("lang"@) + "\nslug"@ + marker(
        "lang"@,
    ) + ": "@ + marker("slug"@) + "\n$dates:\n  published: "@ + marker("published"@)
        + "\n---\n\n"@ + marker("text"@) + "\n"@);
    assert(POST_TEMPLATE@ =~= written(p, 0));
}

/// The keys of a record, in the order in which they are bound.
pub open spec fn record_keys() -> Seq<Seq<char>> {
    seq![
        "title"@,
        "author"@,
        "description"@,
        "image"@,
        "lang"@,
        "slug"@,
        "text"@,
        "published"@,
        "keywords"@,
    ]
}

/// `s` holds the marker of no key that is bound after the `n`-th key.
pub open spec fn holds_no_later_marker(s: Seq<char>, n: int) -> bool {
    forall|k: int| n < k < record_keys().len() ==> !holds_marker(s, #[trigger] record_keys()[k])
}

/// Each text of a record holds the marker of no key that is bound after it:
/// the slug and the author none but `[title]`, the description none of
/// `[image]`, `[lang]`, `[slug]`, `[text]`, `[published]` and `[keywords]`,
/// the body neither `[published]` nor `[keywords]`, the date not
/// `[keywords]`.
pub open spec fn is_unmarked(post: GrowPostView, published: Seq<char>) -> bool {
    &&& holds_no_later_marker(post.slug, 0)
    &&& holds_no_later_marker(post.author, 1)
    &&& holds_no_later_marker(post.fields.description, 2)
    &&& holds_no_later_marker(post.fields.text, 6)
    &&& holds_no_later_marker(published, 7)
}

/// The marker of a key holds a scalar value only where the key holds it,
/// but for the square brackets.
proof fn lemma_marker_is_free_of(key: Seq<char>, c: char)
    requires
        is_free_of(key, c),
        c != '[' && c != ']',
    ensures
        is_free_of(marker(key), c),
{
    let m = marker(key);
    assert forall|i: int| 0 <= i < m.len() implies m[i] != c by {
        if 0 < i <= key.len() {
            assert(m[i] == key[i - 1]);
        }
    }
}

/// The keys of a record are plain, and their markers hold neither a line
/// feed nor a colon.
proof fn lemma_record_keys_are_plain()
    ensures
        record_keys().len() == 9,
        forall|k: int|
            0 <= k < 9 ==> {
                &&& is_plain_key(#[trigger] record_keys()[k])
                &&& is_free_of(marker(record_keys()[k]), '\n')
                &&& is_free_of(marker(record_keys()[k]), ':')
            },
{
    reveal_strlit("title");
    reveal_strlit("author");
    reveal_strlit("description");
    reveal_strlit("keywords");
    reveal_strlit("image");
    reveal_strlit("lang");
    reveal_strlit("slug");
    reveal_strlit("published");
    reveal_strlit("text");
    assert forall|k: int| 0 <= k < 9 implies {
        &&& is_plain_key(#[trigger] record_keys()[k])
        &&& is_free_of(marker(record_keys()[k]), '\n')
        &&& is_free_of(marker(record_keys()[k]), ':')
    } by {
        let key = record_keys()[k];
        assert(is_free_of(key, '[') && is_free_of(key, ']') && is_free_of(key, '\n')
            && is_free_of(key, ':'));
        lemma_marker_is_free_of(key, '\n');
        lemma_marker_is_free_of(key, ':');
    }
}

/// The pieces of the record template are such as the bindings of a record
/// can fill.
proof fn lemma_post_pieces_are_template(post: GrowPostView, published: Seq<char>)
    ensures
        is_template(post_pieces(), record_bindings(post, published)),
{
    let p = post_pieces();
    let b = record_bindings(post, published);
    lemma_record_keys_are_plain();
    assert forall|n: int| 0 <= n < b.len() implies (#[trigger] b[n]).0 == record_keys()[n] by {
    }
    assert(is_stop('\n', b));
    assert(is_stop(':', b));
    reveal_strlit("---\n$title@: ");
    reveal_strlit("\nauthor@: ");
    reveal_strlit("\ndescription: ");
    reveal_strlit("\nkeywords: ");
    reveal_strlit("\nimage: ");
    reveal_strlit("\nlang: ");
    reveal_strlit("\nslug");
    reveal_strlit(": ");
    reveal_strlit("\n$dates:\n  published: ");
    reveal_strlit("\n---\n\n");
    reveal_strlit("\n");
    assert(p[1] == Piece::Slot(record_keys()[0]));
    assert(p[3] == Piece::Slot(record_keys()[1]));
    assert(p[5] == Piece::Slot(record_keys()[2]));
    assert(p[7] == Piece::Slot(record_keys()[8]));
    assert(p[9] == Piece::Slot(record_keys()[3]));
    assert(p[11] == Piece::Slot(record_keys()[4]));
    assert(p[13] == Piece::Slot(record_keys()[4]));
    assert(p[15] == Piece::Slot(record_keys()[5]));
    assert(p[17] == Piece::Slot(record_keys()[7]));
    assert(p[19] == Piece::Slot(record_keys()[6]));
    assert forall|i: int| 0 <= i < p.len() implies match #[trigger] p[i] {
        Piece::Text(text) => is_free_of(text, '['),
        Piece::Slot(key) => is_plain_key(key) && i + 1 < p.len() && match p[i + 1] {
            Piece::Text(next) => next.len() > 0 && is_stop(next[0], b),
            Piece::Slot(_) => false,
        },
    } by {
    }
}

/// The bindings of a record whose texts hold the marker of no key bound
/// after them are such as fill a template in order.
proof fn lemma_record_bindings_are_ordered(post: GrowPostView, published: Seq<char>)
    requires
        is_unmarked(post, published),
    ensures
        are_ordered_bindings(record_bindings(post, published)),
{
    let b = record_bindings(post, published);
    lemma_record_keys_are_plain();
    assert forall|n: int| 0 <= n < b.len() implies (#[trigger] b[n]).0 == record_keys()[n] by {
    }
    reveal_strlit("/static/images/default.png");
    reveal_strlit("Ru");
    reveal_strlit("En");
    assert forall|j: int, k: int| 0 <= j < k < b.len() implies !holds_marker(
        (#[trigger] b[j]).1,
        (#[trigger] b[k]).0,
    ) by {
        let key = record_keys()[k];
        assert(b[k].0 == key);
        if j == 3 || j == 4 {
            lemma_no_bracket_no_marker(b[j].1, key);
        }
    }
}

/// The keys of the record template differ from one another.
proof fn lemma_keys_differ()
    ensures
        "title"@.len() == 5 && "title"@[0] == 't',
        "author"@.len() == 6,
        "description"@.len() == 11,
        "image"@.len() == 5 && "image"@[0] == 'i',
        "lang"@.len() == 4 && "lang"@[0] == 'l',
        "slug"@.len() == 4 && "slug"@[0] == 's',
        "text"@.len() == 4 && "text"@[0] == 't',
        "published"@.len() == 9,
        "keywords"@.len() == 8,
{
    reveal_strlit("title");
    reveal_strlit("author");
    reveal_strlit("description");
    reveal_strlit("keywords");
    reveal_strlit("image");
    reveal_strlit("lang");
    reveal_strlit("slug");
    reveal_strlit("published");
    reveal_strlit("text");
}

/// What the bindings of a record hold under each key.
proof fn lemma_record_bindings_values(post: GrowPostView, published: Seq<char>)
    ensures
        value_at(record_bindings(post, published), "title"@) == Some(post.slug),
        value_at(record_bindings(post, published), "author"@) == Some(post.author),
        value_at(record_bindings(post, published), "description"@) == Some(
            post.fields.description,
        ),
        value_at(record_bindings(post, published), "image"@) == Some(DEFAULT_IMAGE@),
        value_at(record_bindings(post, published), "lang"@) == Some(lang_name(post.fields.lang)),
        value_at(record_bindings(post, published), "slug"@) == Some(post.slug),
        value_at(record_bindings(post, published), "text"@) == Some(post.fields.text),
        value_at(record_bindings(post, published), "published"@) == Some(published),
        value_at(record_bindings(post, published), "keywords"@) == Some(
            join(post.fields.keywords, KEYWORDS_DELIMITER@),
        ),
{
    let b = record_bindings(post, published);
    lemma_keys_differ();
    assert(b[0].0 == "title"@ && b[1].0 == "author"@ && b[2].0 == "description"@ && b[3].0
        == "image"@ && b[4].0 == "lang"@ && b[5].0 == "slug"@ && b[6].0 == "text"@ && b[7].0
        == "published"@ && b[8].0 == "keywords"@);
    lemma_position_is(b, "title"@, 0);
    lemma_position_is(b, "author"@, 1);
    lemma_position_is(b, "description"@, 2);
    lemma_position_is(b, "image"@, 3);
    lemma_position_is(b, "lang"@, 4);
    lemma_position_is(b, "slug"@, 5);
    lemma_position_is(b, "text"@, 6);
    lemma_position_is(b, "published"@, 7);
    lemma_position_is(b, "keywords"@, 8);
}

/// The pieces of the record template, each slot filled with its field.
pub open spec fn record_pieces(post: GrowPostView, published: Seq<char>) -> Seq<Piece> {
    seq![
        Piece::Text("---\n$title@: "@),
        Piece::Text(post.slug),
        Piece::Text("\nauthor@: "@),
        Piece::Text(post.author),
        Piece::Text("\ndescription: "@),
        Piece::Text(post.fields.description),
        Piece::Text("\nkeywords: "@),
        Piece::Text(join(post.fields.keywords, KEYWORDS_DELIMITER@)),
        Piece::Text("\nimage: "@),
        Piece::Text(DEFAULT_IMAGE@),
        Piece::Text("\nlang: "@),
        Piece::Text(lang_name(post.fields.lang)),
        Piece::Text("\nslug"@),
        Piece::Text(lang_name(post.fields.lang)),
        Piece::Text(": "@),
        Piece::Text(post.slug),
        Piece::Text("\n$dates:\n  published: "@),
        Piece::Text(published),
        Piece::Text("\n---\n\n"@),
        Piece::Text(post.fields.text),
        Piece::Text("\n"@),
    ]
}

/// The record template, filled with the bindings of a record.
proof fn lemma_record_pieces(post: GrowPostView, published: Seq<char>)
    ensures
        fill_all(post_pieces(), record_bindings(post, published)) == record_pieces(
            post,
            published,
        ),
{
    let p = post_pieces();
    let b = record_bindings(post, published);
    lemma_record_bindings_values(post, published);
    let filled = fill_all(p, b);
    assert forall|i: int| 0 <= i < p.len() implies #[trigger] filled[i] == record_pieces(
        post,
        published,
    )[i] by {
        lemma_fill_all_resolves(p, b, i);
    }
    lemma_fill_all_resolves(p, b, 0);
    assert(filled =~= record_pieces(post, published));
}

/// The filled pieces of a record write its document.
proof fn lemma_record_pieces_written(post: GrowPostView, published: Seq<char>)
    ensures
        written(record_pieces(post, published), 0) == record_document(post, published),
{
    let p = record_pieces(post, published);
    lemma_written_all(p);
    reveal_with_fuel(written_first, 23);
    assert(written_first(p, 0) =~= Seq::<char>::empty());
    assert(written_first(p, 1) =~= "---\n$title@: "@);
    assert(written_first(p, 21) == record_document(post, published));
}

/// A record whose texts hold the marker of no key bound after them is
/// written as its document: the texts of the template, with the fields
/// between them.
pub proof fn lemma_record_is_written(post: GrowPostView, published: Seq<char>)
    requires
        is_unmarked(post, published),
    ensures
        rendered(POST_TEMPLATE@, record_bindings(post, published)) == record_document(
            post,
            published,
        ),
{
    lemma_post_template_pieces();
    lemma_post_pieces_are_template(post, published);
    lemma_record_bindings_are_ordered(post, published);
    lemma_rendered_fills(post_pieces(), record_bindings(post, published));
    lemma_record_pieces(post, published);
    lemma_record_pieces_written(post, published);
}

/// The lines of the metadata block of a record.
pub open spec fn record_lines(post: GrowPostView, published: Seq<char>) -> Seq<Seq<char>> {
    seq![
        "$title@: "@ + post.slug,
        "author@: "@ + post.author,
        "description: "@ + post.fields.description,
        "keywords: "@ + join(post.fields.keywords, KEYWORDS_DELIMITER@),
        "image: "@ + DEFAULT_IMAGE@,
        "lang: "@ + lang_name(post.fields.lang),
        "slug"@ + lang_name(post.fields.lang) + ": "@ + post.slug,
        "$dates:"@,
        "  published: "@ + published,
    ]
}

/// The document of a record up to the `n`-th line of its metadata block.
pub open spec fn record_start(post: GrowPostView, published: Seq<char>, n: int) -> Seq<char> {
    "---"@ + ("\n"@ + join(record_lines(post, published).take(n), "\n"@))
}

/// Joining one line more.
proof fn lemma_join_take(lines: Seq<Seq<char>>, n: int, sep: Seq<char>)
    requires
        0 < n < lines.len(),
    ensures
        join(lines.take(n + 1), sep) == join(lines.take(n), sep) + sep + lines[n],
{
    assert(lines.take(n + 1).drop_last() =~= lines.take(n));
    assert(lines.take(n + 1).last() == lines[n]);
}

/// Joining the first line.
proof fn lemma_join_take_one(lines: Seq<Seq<char>>, sep: Seq<char>)
    requires
        0 < lines.len(),
    ensures
        join(lines.take(1), sep) == lines[0],
{
    assert(lines.take(1)[0] == lines[0]);
}

/// The document of a record up to the first line of its metadata block.
proof fn lemma_record_start_1(post: GrowPostView, published: Seq<char>)
    ensures
        written_first(record_pieces(post, published), 2) == record_start(post, published, 1),
{
    let p = record_pieces(post, published);
    reveal_with_fuel(written_first, 3);
    reveal_strlit("---\n$title@: ");
    reveal_strlit("---");
    reveal_strlit("\n");
    reveal_strlit("$title@: ");
    assert("---\n$title@: "@ =~= "---"@ + "\n"@ + "$title@: "@);
    lemma_join_take_one(record_lines(post, published), "\n"@);
    assert(written_first(p, 2) =~= record_start(post, published, 1));
}

/// The document of a record up to the second line of its metadata block.
proof fn lemma_record_start_2(post: GrowPostView, published: Seq<char>)
    ensures
        written_first(record_pieces(post, published), 4) == record_start(post, published, 2),
{
    let p = record_pieces(post, published);
    lemma_record_start_1(post, published);
    reveal_with_fuel(written_first, 3);
    assert(written_first(p, 4) == written_first(p, 2) + "\nauthor@: "@ + post.author);
    reveal_strlit("\nauthor@: ");
    reveal_strlit("\n");
    reveal_strlit("author@: ");
    assert("\nauthor@: "@ =~= "\n"@ + "author@: "@);
    lemma_join_take(record_lines(post, published), 1, "\n"@);
    assert(written_first(p, 4) =~= record_start(post, published, 2));
}

/// The document of a record up to the third line of its metadata block.
proof fn lemma_record_start_3(post: GrowPostView, published: Seq<char>)
    ensures
        written_first(record_pieces(post, published), 6) == record_start(post, published, 3),
{
    let p = record_pieces(post, published);
    lemma_record_start_2(post, published);
    reveal_with_fuel(written_first, 3);
    assert(written_first(p, 6) == written_first(p, 4) + "\ndescription: "@
        + post.fields.description);
    reveal_strlit("\ndescription: ");
    reveal_strlit("\n");
    reveal_strlit("description: ");
    assert("\ndescription: "@ =~= "\n"@ + "description: "@);
    lemma_join_take(record_lines(post, published), 2, "\n"@);
    assert(written_first(p, 6) =~= record_start(post, published, 3));
}

/// The document of a record up to the fourth line of its metadata block.
proof fn lemma_record_start_4(post: GrowPostView, published: Seq<char>)
    ensures
        written_first(record_pieces(post, published), 8) == record_start(post, published, 4),
{
    let p = record_pieces(post, published);
    lemma_record_start_3(post, published);
    reveal_with_fuel(written_first, 3);
    assert(written_first(p, 8) == written_first(p, 6) + "\nkeywords: "@ + join(
        post.fields.keywords,
        KEYWORDS_DELIMITER@,
    ));
    reveal_strlit("\nkeywords: ");
    reveal_strlit("\n");
    reveal_strlit("keywords: ");
    assert("\nkeywords: "@ =~= "\n"@ + "keywords: "@);
    lemma_join_take(record_lines(post, published), 3, "\n"@);
    assert(written_first(p, 8) =~= record_start(post, published, 4));
}

/// The document of a record up to the fifth line of its metadata block.
proof fn lemma_record_start_5(post: GrowPostView, published: Seq<char>)
    ensures
        written_first(record_pieces(post, published), 10) == record_start(post, published, 5),
{
    let p = record_pieces(post, published);
    lemma_record_start_4(post, published);
    reveal_with_fuel(written_first, 3);
    assert(written_first(p, 10) == written_first(p, 8) + "\nimage: "@ + DEFAULT_IMAGE@);
    reveal_strlit("\nimage: ");
    reveal_strlit("\n");
    reveal_strlit("image: ");
    assert("\nimage: "@ =~= "\n"@ + "image: "@);
    lemma_join_take(record_lines(post, published), 4, "\n"@);
    assert(written_first(p, 10) =~= record_start(post, published, 5));
}

/// The document of a record up to the sixth line of its metadata block.
proof fn lemma_record_start_6(post: GrowPostView, published: Seq<char>)
    ensures
        written_first(record_pieces(post, published), 12) == record_start(post, published, 6),
{
    let p = record_pieces(post, published);
    lemma_record_start_5(post, published);
    reveal_with_fuel(written_first, 3);
    assert(written_first(p, 12) == written_first(p, 10) + "\nlang: "@ + lang_name(
        post.fields.lang,
    ));
    reveal_strlit("\nlang: ");
    reveal_strlit("\n");
    reveal_strlit("lang: ");
    assert("\nlang: "@ =~= "\n"@ + "lang: "@);
    lemma_join_take(record_lines(post, published), 5, "\n"@);
    assert(written_first(p, 12) =~= record_start(post, published, 6));
}

/// The document of a record up to the seventh line of its metadata block.
proof fn lemma_record_start_7(post: GrowPostView, published: Seq<char>)
    ensures
        written_first(record_pieces(post, published), 16) == record_start(post, published, 7),
{
    let p = record_pieces(post, published);
    lemma_record_start_6(post, published);
    reveal_with_fuel(written_first, 5);
    assert(written_first(p, 16) == written_first(p, 12) + "\nslug"@ + lang_name(post.fields.lang)
        + ": "@ + post.slug);
    reveal_strlit("\nslug");
    reveal_strlit("\n");
    reveal_strlit("slug");
    assert("\nslug"@ =~= "\n"@ + "slug"@);
    lemma_join_take(record_lines(post, published), 6, "\n"@);
    assert(written_first(p, 16) =~= record_start(post, published, 7));
}

/// The document of a record up to the ninth line of its metadata block.
proof fn lemma_record_start_9(post: GrowPostView, published: Seq<char>)
    ensures
        written_first(record_pieces(post, published), 18) == record_start(post, published, 9),
{
    let p = record_pieces(post, published);
    lemma_record_start_7(post, published);
    reveal_with_fuel(written_first, 3);
    assert(written_first(p, 18) == written_first(p, 16) + "\n$dates:\n  published: "@
        + published);
    reveal_strlit("\n$dates:\n  published: ");
    reveal_strlit("\n");
    reveal_strlit("$dates:");
    reveal_strlit("  published: ");
    assert("\n$dates:\n  published: "@ =~= "\n"@ + "$dates:"@ + "\n"@ + "  published: "@);
    lemma_join_take(record_lines(post, published), 7, "\n"@);
    lemma_join_take(record_lines(post, published), 8, "\n"@);
    assert(written_first(p, 18) =~= record_start(post, published, 9));
}

/// The metadata block of a record: its lines, each on a line of its own.
pub open spec fn record_meta(post: GrowPostView, published: Seq<char>) -> Seq<char> {
    "\n"@ + join(record_lines(post, published), "\n"@) + "\n"@
}

/// The document of a record is the delimiter, the metadata block, the
/// delimiter once more, and the body.
pub proof fn lemma_record_document_shape(post: GrowPostView, published: Seq<char>)
    ensures
        record_document(post, published) == "---"@ + record_meta(post, published) + "---"@ + (
        "\n\n"@ + post.fields.text) + "\n"@,
{
    let p = record_pieces(post, published);
    lemma_record_start_9(post, published);
    lemma_record_pieces_written(post, published);
    lemma_written_all(p);
    reveal_with_fuel(written_first, 4);
    assert(written_first(p, 21) == written_first(p, 18) + "\n---\n\n"@ + post.fields.text
        + "\n"@);
    reveal_strlit("\n---\n\n");
    reveal_strlit("\n");
    reveal_strlit("---");
    reveal_strlit("\n\n");
    assert("\n---\n\n"@ =~= "\n"@ + "---"@ + "\n\n"@);
    assert(record_lines(post, published).take(9) =~= record_lines(post, published));
    assert(written_first(p, 21) =~= "---"@ + record_meta(post, published) + "---"@ + ("\n\n"@
        + post.fields.text) + "\n"@);
}

/// A text that can stand as a value in a metadata line: it is not empty,
/// neither starts nor ends with whitespace, and holds no line feed and no
/// triple hyphen.
pub open spec fn is_line(s: Seq<char>) -> bool {
    &&& is_trimmed(s)
    &&& is_free_of(s, '\n')
    &&& has_no_triple_hyphen(s)
}

/// A record whose document can be read back. Its slug, author and
/// description can stand in a metadata line, and meet the rules of a title
/// and of a description. Its keywords are at least one and at most the
/// limit; each neither starts nor ends with whitespace and holds no comma, no
/// line feed and no triple hyphen; joined, they are not empty. Its body is
/// not empty, and neither starts nor ends with whitespace. Its date can
/// stand in a metadata line. Each of these texts holds the marker of no key
/// bound after it.
pub open spec fn is_writable(post: GrowPostView, published: Seq<char>) -> bool {
    &&& is_line(post.slug)
    &&& post.slug.len() < MAX_CHARS_IN_TITLE
    &&& is_line(post.author)
    &&& is_line(post.fields.description)
    &&& post.fields.description.len() < MAX_CHARS_IN_DESCRIPTION
    &&& 0 < post.fields.keywords.len() <= MAX_KEYWORDS_COUNT
    &&& are_words(post.fields.keywords, ',')
    &&& join(post.fields.keywords, KEYWORDS_DELIMITER@).len() > 0
    &&& is_trimmed(post.fields.text)
    &&& is_line(published)
    &&& is_unmarked(post, published)
}

/// The keywords of a writable record, joined, can stand in a metadata line.
proof fn lemma_keywords_line(post: GrowPostView, published: Seq<char>)
    requires
        is_writable(post, published),
    ensures
        is_line(join(post.fields.keywords, KEYWORDS_DELIMITER@)),
{
    reveal_strlit(",");
    assert(KEYWORDS_DELIMITER@ =~= seq![',']);
    lemma_join_words(post.fields.keywords, ',');
}

/// What is known of each line of the metadata block of a writable record.
proof fn lemma_record_lines(post: GrowPostView, published: Seq<char>)
    requires
        is_writable(post, published),
    ensures
        record_lines(post, published).len() == 9,
        forall|i: int|
            0 <= i < 9 ==> {
                &&& (#[trigger] record_lines(post, published)[i]).len() > 0
                &&& has_no_triple_hyphen(record_lines(post, published)[i])
                &&& is_free_of(record_lines(post, published)[i], '\n')
            },
        record_lines(post, published)[0][0] == '$',
        record_lines(post, published)[8][record_lines(post, published)[8].len() - 1]
            == published[published.len() - 1],
{
    let lines = record_lines(post, published);
    lemma_keywords_line(post, published);
    reveal_strlit("$title@: ");
    reveal_strlit("author@: ");
    reveal_strlit("description: ");
    reveal_strlit("keywords: ");
    reveal_strlit("image: ");
    reveal_strlit("/static/images/default.png");
    reveal_strlit("lang: ");
    reveal_strlit("slug");
    reveal_strlit(": ");
    reveal_strlit("Ru");
    reveal_strlit("En");
    reveal_strlit("$dates:");
    reveal_strlit("  published: ");
    lemma_label_and_value("$title@: "@, post.slug, '\n');
    lemma_label_and_value("author@: "@, post.author, '\n');
    lemma_label_and_value("description: "@, post.fields.description, '\n');
    lemma_label_and_value(
        "keywords: "@,
        join(post.fields.keywords, KEYWORDS_DELIMITER@),
        '\n',
    );
    lemma_label_and_value("image: "@, DEFAULT_IMAGE@, '\n');
    lemma_label_and_value("lang: "@, lang_name(post.fields.lang), '\n');
    lemma_label_and_value("slug"@ + lang_name(post.fields.lang) + ": "@, post.slug, '\n');
    lemma_label_and_value("$dates:"@, Seq::<char>::empty(), '\n');
    assert("$dates:"@ + Seq::<char>::empty() =~= "$dates:"@);
    lemma_label_and_value("  published: "@, published, '\n');
}

/// The delimiter does not occur in the metadata block of a writable record.
proof fn lemma_record_meta_is_whole(post: GrowPostView, published: Seq<char>, rest: Seq<char>)
    requires
        is_writable(post, published),
    ensures
        forall|j: int|
            0 <= j < record_meta(post, published).len() ==> !occurs_at(
                record_meta(post, published) + "---"@ + rest,
                "---"@,
                j,
            ),
        trimmed(record_meta(post, published)) == join(record_lines(post, published), "\n"@),
{
    let lines = record_lines(post, published);
    let meta = record_meta(post, published);
    lemma_record_lines(post, published);
    reveal_strlit("\n");
    reveal_strlit("---");
    assert("\n"@ =~= seq!['\n']);
    lemma_join_lines(lines, '\n');
    let joined = join(lines, "\n"@);
    assert(is_trimmed(published));
    assert(is_trimmed(joined));
    lemma_trimmed_around("\n"@, joined, "\n"@);
    lemma_no_triple_hyphen_add("\n"@, joined);
    lemma_no_triple_hyphen_between("\n"@ + joined, '\n', Seq::<char>::empty());
    assert(("\n"@ + joined) + seq!['\n'] + Seq::<char>::empty() =~= meta);
    let s = meta + "---"@ + rest;
    assert forall|j: int| 0 <= j < meta.len() implies !occurs_at(s, "---"@, j) by {
        if occurs_at(s, "---"@, j) {
            let part = s.subrange(j, j + 3);
            assert(part[0] == '-' && part[1] == '-' && part[2] == '-');
            assert(s[j] == '-' && s[j + 1] == '-' && s[j + 2] == '-');
            if j + 2 < meta.len() {
                assert(meta[j] == '-' && meta[j + 1] == '-' && meta[j + 2] == '-');
            } else {
                assert(s[meta.len() - 1] == '\n');
            }
        }
    }
}

/// The document of a writable record is cut into its metadata block and its
/// body.
proof fn lemma_record_meta_and_text(post: GrowPostView, published: Seq<char>)
    requires
        is_writable(post, published),
    ensures
        gives(
            meta_and_text(record_document(post, published), META_DELIMITER@),
            (record_meta(post, published), "\n\n"@ + post.fields.text),
        ),
{
    let meta = record_meta(post, published);
    let body = "\n\n"@ + post.fields.text;
    let whole = "---"@ + meta + "---"@ + body;
    lemma_record_document_shape(post, published);
    reveal_strlit("\n");
    reveal_strlit("---");
    reveal_strlit("\n\n");
    assert(is_trimmed(whole)) by {
        assert(whole[0] == '-');
        assert(whole[whole.len() - 1] == post.fields.text[post.fields.text.len() - 1]);
    }
    lemma_trimmed_around(Seq::<char>::empty(), whole, "\n"@);
    assert(Seq::<char>::empty() + whole + "\n"@ =~= record_document(post, published));
    assert(whole.subrange(0, 3) =~= "---"@);
    assert(occurs_at(whole, "---"@, 0));
    assert(whole.subrange(3, whole.len() as int) =~= meta + "---"@ + body);
    lemma_record_meta_is_whole(post, published, body);
    lemma_split_once(meta, "---"@, body);
}

/// The metadata block of a writable record is cut into its lines.
proof fn lemma_record_meta_lines(post: GrowPostView, published: Seq<char>)
    requires
        is_writable(post, published),
    ensures
        split(trimmed(record_meta(post, published)), seq![LF]) == record_lines(post, published),
{
    lemma_record_meta_is_whole(post, published, Seq::<char>::empty());
    lemma_record_lines(post, published);
    reveal_strlit("\n");
    assert("\n"@ =~= seq!['\n']);
    lemma_split_join(record_lines(post, published), '\n');
}

/// A metadata line that is a label, a colon, a space and a value gives the
/// letters and numbers of the label as its key, and the value.
proof fn lemma_meta_line(label: Seq<char>, value: Seq<char>)
    requires
        is_free_of(label, ':'),
        is_trimmed(value),
    ensures
        gives(
            key_and_value(label + ":"@ + " "@ + value, KEY_VALUE_DELIMITER@),
            (letters_and_numbers(label), value),
        ),
        trimmed(label + ":"@ + " "@ + value).len() > 0,
{
    let line = label + ":"@ + " "@ + value;
    reveal_strlit(":");
    reveal_strlit(" ");
    assert(":"@ =~= seq![':']);
    assert forall|j: int| 0 <= j < label.len() implies !occurs_at(
        label + ":"@ + (" "@ + value),
        ":"@,
        j,
    ) by {
        lemma_occurs_one(label + ":"@ + (" "@ + value), ':', j);
    }
    lemma_split_once(label, ":"@, " "@ + value);
    assert(label + ":"@ + (" "@ + value) =~= line);
    lemma_trimmed_around(" "@, value, Seq::<char>::empty());
    assert(" "@ + value + Seq::<char>::empty() =~= " "@ + value);
    assert(line[line.len() - 1] == value[value.len() - 1]);
    lemma_trimmed_is_not_empty(line, line.len() - 1);
}

/// Taking one metadata line more, with a key that was not met before.
proof fn lemma_meta_step(
    lines: Seq<Seq<char>>,
    n: int,
    map: Seq<(Seq<char>, Seq<char>)>,
    label: Seq<char>,
    value: Seq<char>,
)
    requires
        0 < n <= lines.len(),
        gives(meta_of_lines(lines.take(n - 1)), map),
        lines[n - 1] == label + ":"@ + " "@ + value,
        is_free_of(label, ':'),
        is_trimmed(value),
        letters_and_numbers(label).len() > 0,
        forall|j: int| 0 <= j < map.len() ==> map[j].0 != letters_and_numbers(label),
    ensures
        gives(meta_of_lines(lines.take(n)), map.push((letters_and_numbers(label), value))),
{
    assert(lines.take(n).drop_last() =~= lines.take(n - 1));
    assert(lines.take(n).last() == lines[n - 1]);
    lemma_meta_line(label, value);
    lemma_position_none(map, letters_and_numbers(label));
}

/// Taking one metadata line more, which is a label and a colon alone.
proof fn lemma_meta_skip(
    lines: Seq<Seq<char>>,
    n: int,
    map: Seq<(Seq<char>, Seq<char>)>,
    label: Seq<char>,
)
    requires
        0 < n <= lines.len(),
        gives(meta_of_lines(lines.take(n - 1)), map),
        lines[n - 1] == label + ":"@,
        is_free_of(label, ':'),
    ensures
        gives(meta_of_lines(lines.take(n)), map),
{
    assert(lines.take(n).drop_last() =~= lines.take(n - 1));
    assert(lines.take(n).last() == lines[n - 1]);
    let line = label + ":"@;
    reveal_strlit(":");
    assert(":"@ =~= seq![':']);
    assert forall|j: int| 0 <= j < label.len() implies !occurs_at(
        label + ":"@ + Seq::<char>::empty(),
        ":"@,
        j,
    ) by {
        lemma_occurs_one(label + ":"@ + Seq::<char>::empty(), ':', j);
    }
    lemma_split_once(label, ":"@, Seq::<char>::empty());
    assert(label + ":"@ + Seq::<char>::empty() =~= line);
    lemma_trimmed_blank(Seq::<char>::empty());
}

/// The letters and numbers of the labels of the record template.
proof fn lemma_labels()
    ensures
        letters_and_numbers("$title@"@) == "title"@,
        letters_and_numbers("author@"@) == "author"@,
        letters_and_numbers("description"@) == "description"@,
        letters_and_numbers("keywords"@) == "keywords"@,
        letters_and_numbers("image"@) == "image"@,
        letters_and_numbers("lang"@) == "lang"@,
        letters_and_numbers("slugRu"@) == "slugRu"@,
        letters_and_numbers("slugEn"@) == "slugEn"@,
        letters_and_numbers("  published"@) == "published"@,
{
    lemma_label_title();
    lemma_label_author();
    lemma_label_description();
    lemma_label_keywords();
    lemma_label_image();
    lemma_label_lang();
    lemma_label_slug();
    lemma_label_published();
}

/// The letters and numbers of a text of letters and numbers are the text.
proof fn lemma_letters_and_numbers_all(s: Seq<char>)
    requires
        forall|i: int| 0 <= i < s.len() ==> is_letter_or_number(s[i]),
    ensures
        letters_and_numbers(s) == s,
    decreases s.len(),
{
    if s.len() > 0 {
        lemma_letters_and_numbers_all(s.drop_last());
        assert(s.drop_last().push(s.last()) =~= s);
    }
}

/// The letters and numbers of a text after a scalar value that is neither.
proof fn lemma_letters_and_numbers_after(c: char, s: Seq<char>)
    requires
        !is_letter_or_number(c),
    ensures
        letters_and_numbers(seq![c] + s) == letters_and_numbers(s),
    decreases s.len(),
{
    let all = seq![c] + s;
    if s.len() == 0 {
        assert(all.drop_last() =~= Seq::<char>::empty());
        assert(all.last() == c);
        assert(s =~= Seq::<char>::empty());
        assert(letters_and_numbers(all) == letters_and_numbers(all.drop_last()));
    } else {
        lemma_letters_and_numbers_after(c, s.drop_last());
        assert(all.drop_last() =~= seq![c] + s.drop_last());
        assert(all.last() == s.last());
    }
}

/// The letters and numbers of a text before a scalar value that is neither.
proof fn lemma_letters_and_numbers_before(s: Seq<char>, c: char)
    requires
        !is_letter_or_number(c),
    ensures
        letters_and_numbers(s + seq![c]) == letters_and_numbers(s),
{
    assert((s + seq![c]).drop_last() =~= s);
}

/// The letters and numbers of the label of the title.
proof fn lemma_label_title()
    ensures
        letters_and_numbers("$title@"@) == "title"@,
{
    reveal_strlit("$title@");
    reveal_strlit("title");
    assert("$title@"@ =~= seq!['$'] + ("title"@ + seq!['@']));
    lemma_letters_and_numbers_after('$', "title"@ + seq!['@']);
    lemma_letters_and_numbers_before("title"@, '@');
    lemma_letters_and_numbers_all("title"@);
}

/// The letters and numbers of the label of the author.
proof fn lemma_label_author()
    ensures
        letters_and_numbers("author@"@) == "author"@,
{
    reveal_strlit("author@");
    reveal_strlit("author");
    assert("author@"@ =~= "author"@ + seq!['@']);
    lemma_letters_and_numbers_before("author"@, '@');
    lemma_letters_and_numbers_all("author"@);
}

/// The letters and numbers of the label of the description.
proof fn lemma_label_description()
    ensures
        letters_and_numbers("description"@) == "description"@,
{
    reveal_strlit("description");
    lemma_letters_and_numbers_all("description"@);
}

/// The letters and numbers of the label of the keywords.
proof fn lemma_label_keywords()
    ensures
        letters_and_numbers("keywords"@) == "keywords"@,
{
    reveal_strlit("keywords");
    lemma_letters_and_numbers_all("keywords"@);
}

/// The letters and numbers of the label of the image.
proof fn lemma_label_image()
    ensures
        letters_and_numbers("image"@) == "image"@,
{
    reveal_strlit("image");
    lemma_letters_and_numbers_all("image"@);
}

/// The letters and numbers of the label of the lang.
proof fn lemma_label_lang()
    ensures
        letters_and_numbers("lang"@) == "lang"@,
{
    reveal_strlit("lang");
    lemma_letters_and_numbers_all("lang"@);
}

/// The letters and numbers of the label of the slug.
proof fn lemma_label_slug()
    ensures
        letters_and_numbers("slugRu"@) == "slugRu"@,
        letters_and_numbers("slugEn"@) == "slugEn"@,
{
    reveal_strlit("slugRu");
    reveal_strlit("slugEn");
    lemma_letters_and_numbers_all("slugRu"@);
    lemma_letters_and_numbers_all("slugEn"@);
}

/// The letters and numbers of the label of the published.
proof fn lemma_label_published()
    ensures
        letters_and_numbers("  published"@) == "published"@,
{
    reveal_strlit("  published");
    reveal_strlit("published");
    assert("  published"@ =~= seq![' '] + (seq![' '] + "published"@));
    lemma_letters_and_numbers_after(' ', seq![' '] + "published"@);
    lemma_letters_and_numbers_after(' ', "published"@);
    lemma_letters_and_numbers_all("published"@);
}

/// The key under which a record holds its slug.
pub open spec fn slug_key(lang: Lang) -> Seq<char> {
    match lang {
        Lang::Ru => "slugRu"@,
        Lang::En => "slugEn"@,
    }
}

/// The keys and values of the metadata block of a record.
pub open spec fn record_map(post: GrowPostView, published: Seq<char>) -> Seq<
    (Seq<char>, Seq<char>),
> {
    seq![
        ("title"@, post.slug),
        ("author"@, post.author),
        ("description"@, post.fields.description),
        ("keywords"@, join(post.fields.keywords, KEYWORDS_DELIMITER@)),
        ("image"@, DEFAULT_IMAGE@),
        ("lang"@, lang_name(post.fields.lang)),
        (slug_key(post.fields.lang), post.slug),
        ("published"@, published),
    ]
}

/// The keys of a record differ from one another.
proof fn lemma_record_keys()
    ensures
        "title"@.len() == 5 && "title"@[0] == 't' && "title"@[1] == 'i',
        "author"@.len() == 6 && "author"@[0] == 'a',
        "description"@.len() == 11,
        "image"@.len() == 5 && "image"@[0] == 'i',
        "lang"@.len() == 4 && "lang"@[0] == 'l',
        "slugRu"@.len() == 6 && "slugRu"@[0] == 's' && "slugRu"@[4] == 'R',
        "slugEn"@.len() == 6 && "slugEn"@[0] == 's' && "slugEn"@[4] == 'E',
        "text"@.len() == 4 && "text"@[0] == 't' && "text"@[1] == 'e',
        "published"@.len() == 9,
        "keywords"@.len() == 8,
{
    reveal_strlit("title");
    reveal_strlit("author");
    reveal_strlit("description");
    reveal_strlit("keywords");
    reveal_strlit("image");
    reveal_strlit("lang");
    reveal_strlit("slugRu");
    reveal_strlit("slugEn");
    reveal_strlit("published");
    reveal_strlit("text");
}

/// The values of a writable record that the template gives are trimmed.
proof fn lemma_record_values(post: GrowPostView, published: Seq<char>)
    requires
        is_writable(post, published),
    ensures
        is_trimmed(join(post.fields.keywords, KEYWORDS_DELIMITER@)),
        is_trimmed(DEFAULT_IMAGE@),
        is_trimmed(lang_name(post.fields.lang)),
{
    lemma_keywords_line(post, published);
    reveal_strlit("/static/images/default.png");
    reveal_strlit("Ru");
    reveal_strlit("En");
}

/// The keys and values of the metadata block up to its first line.
proof fn lemma_record_meta_1(post: GrowPostView, published: Seq<char>)
    requires
        is_writable(post, published),
    ensures
        gives(
            meta_of_lines(record_lines(post, published).take(1)),
            record_map(post, published).take(1),
        ),
{
    let lines = record_lines(post, published);
    let map = record_map(post, published).take(0);
    let label = "$title@"@;
    let value = post.slug;
    assert(lines.take(0) =~= Seq::<Seq<char>>::empty());
    assert(map =~= Seq::<(Seq<char>, Seq<char>)>::empty());
    assert(lines.take(0).len() == 0);
    lemma_record_values(post, published);
    lemma_record_keys();
    lemma_labels();
    reveal_strlit("$title@");
    reveal_strlit("$title@: ");
    reveal_strlit(":");
    reveal_strlit(" ");
    assert(lines[0] =~= label + ":"@ + " "@ + value);
    lemma_meta_step(lines, 1, map, label, value);
    assert(map.push((letters_and_numbers(label), value)) =~= record_map(post, published).take(
        1,
    ));
}

/// The keys and values of the metadata block up to its second line.
proof fn lemma_record_meta_2(post: GrowPostView, published: Seq<char>)
    requires
        is_writable(post, published),
    ensures
        gives(
            meta_of_lines(record_lines(post, published).take(2)),
            record_map(post, published).take(2),
        ),
{
    let lines = record_lines(post, published);
    let map = record_map(post, published).take(1);
    let label = "author@"@;
    let value = post.author;
    lemma_record_meta_1(post, published);
    lemma_record_values(post, published);
    lemma_record_keys();
    lemma_labels();
    reveal_strlit("author@");
    reveal_strlit("author@: ");
    reveal_strlit(":");
    reveal_strlit(" ");
    assert(lines[1] =~= label + ":"@ + " "@ + value);
    assert(map[0].0 == "title"@);
    lemma_meta_step(lines, 2, map, label, value);
    assert(map.push((letters_and_numbers(label), value)) =~= record_map(post, published).take(
        2,
    ));
}

/// The keys and values of the metadata block up to its third line.
proof fn lemma_record_meta_3(post: GrowPostView, published: Seq<char>)
    requires
        is_writable(post, published),
    ensures
        gives(
            meta_of_lines(record_lines(post, published).take(3)),
            record_map(post, published).take(3),
        ),
{
    let lines = record_lines(post, published);
    let map = record_map(post, published).take(2);
    let label = "description"@;
    let value = post.fields.description;
    lemma_record_meta_2(post, published);
    lemma_record_values(post, published);
    lemma_record_keys();
    lemma_labels();
    reveal_strlit("description");
    reveal_strlit("description: ");
    reveal_strlit(":");
    reveal_strlit(" ");
    assert(lines[2] =~= label + ":"@ + " "@ + value);
    assert(map[0].0 == "title"@);
    assert(map[1].0 == "author"@);
    lemma_meta_step(lines, 3, map, label, value);
    assert(map.push((letters_and_numbers(label), value)) =~= record_map(post, published).take(
        3,
    ));
}

/// The keys and values of the metadata block up to its fourth line.
proof fn lemma_record_meta_4(post: GrowPostView, published: Seq<char>)
    requires
        is_writable(post, published),
    ensures
        gives(
            meta_of_lines(record_lines(post, published).take(4)),
            record_map(post, published).take(4),
        ),
{
    let lines = record_lines(post, published);
    let map = record_map(post, published).take(3);
    let label = "keywords"@;
    let value = join(post.fields.keywords, KEYWORDS_DELIMITER@);
    lemma_record_meta_3(post, published);
    lemma_record_values(post, published);
    lemma_record_keys();
    lemma_labels();
    reveal_strlit("keywords");
    reveal_strlit("keywords: ");
    reveal_strlit(":");
    reveal_strlit(" ");
    assert(lines[3] =~= label + ":"@ + " "@ + value);
    assert(map[0].0 == "title"@);
    assert(map[1].0 == "author"@);
    assert(map[2].0 == "description"@);
    lemma_meta_step(lines, 4, map, label, value);
    assert(map.push((letters_and_numbers(label), value)) =~= record_map(post, published).take(
        4,
    ));
}

/// The keys and values of the metadata block up to its fifth line.
proof fn lemma_record_meta_5(post: GrowPostView, published: Seq<char>)
    requires
        is_writable(post, published),
    ensures
        gives(
            meta_of_lines(record_lines(post, published).take(5)),
            record_map(post, published).take(5),
        ),
{
    let lines = record_lines(post, published);
    let map = record_map(post, published).take(4);
    let label = "image"@;
    let value = DEFAULT_IMAGE@;
    lemma_record_meta_4(post, published);
    lemma_record_values(post, published);
    lemma_record_keys();
    lemma_labels();
    reveal_strlit("image");
    reveal_strlit("image: ");
    reveal_strlit(":");
    reveal_strlit(" ");
    assert(lines[4] =~= label + ":"@ + " "@ + value);
    assert(map[0].0 == "title"@);
    assert(map[1].0 == "author"@);
    assert(map[2].0 == "description"@);
    assert(map[3].0 == "keywords"@);
    lemma_meta_step(lines, 5, map, label, value);
    assert(map.push((letters_and_numbers(label), value)) =~= record_map(post, published).take(
        5,
    ));
}

/// The keys and values of the metadata block up to its sixth line.
proof fn lemma_record_meta_6(post: GrowPostView, published: Seq<char>)
    requires
        is_writable(post, published),
    ensures
        gives(
            meta_of_lines(record_lines(post, published).take(6)),
            record_map(post, published).take(6),
        ),
{
    let lines = record_lines(post, published);
    let map = record_map(post, published).take(5);
    let label = "lang"@;
    let value = lang_name(post.fields.lang);
    lemma_record_meta_5(post, published);
    lemma_record_values(post, published);
    lemma_record_keys();
    lemma_labels();
    reveal_strlit("lang");
    reveal_strlit("lang: ");
    reveal_strlit(":");
    reveal_strlit(" ");
    assert(lines[5] =~= label + ":"@ + " "@ + value);
    assert(map[0].0 == "title"@);
    assert(map[1].0 == "author"@);
    assert(map[2].0 == "description"@);
    assert(map[3].0 == "keywords"@);
    assert(map[4].0 == "image"@);
    lemma_meta_step(lines, 6, map, label, value);
    assert(map.push((letters_and_numbers(label), value)) =~= record_map(post, published).take(
        6,
    ));
}

/// The keys and values of the metadata block up to its seventh line.
proof fn lemma_record_meta_7(post: GrowPostView, published: Seq<char>)
    requires
        is_writable(post, published),
    ensures
        gives(
            meta_of_lines(record_lines(post, published).take(7)),
            record_map(post, published).take(7),
        ),
{
    let lines = record_lines(post, published);
    let map = record_map(post, published).take(6);
    let label = slug_key(post.fields.lang);
    let value = post.slug;
    lemma_record_meta_6(post, published);
    lemma_record_values(post, published);
    lemma_record_keys();
    lemma_labels();
    reveal_strlit("slug");
    reveal_strlit("Ru");
    reveal_strlit("En");
    reveal_strlit("slugRu");
    reveal_strlit("slugEn");
    reveal_strlit(": ");
    reveal_strlit(":");
    reveal_strlit(" ");
    assert(lines[6] =~= label + ":"@ + " "@ + value);
    assert(map[0].0 == "title"@);
    assert(map[1].0 == "author"@);
    assert(map[2].0 == "description"@);
    assert(map[3].0 == "keywords"@);
    assert(map[4].0 == "image"@);
    assert(map[5].0 == "lang"@);
    lemma_meta_step(lines, 7, map, label, value);
    assert(map.push((letters_and_numbers(label), value)) =~= record_map(post, published).take(
        7,
    ));
}

/// The keys and values of the metadata block up to its eighth line.
proof fn lemma_record_meta_8(post: GrowPostView, published: Seq<char>)
    requires
        is_writable(post, published),
    ensures
        gives(
            meta_of_lines(record_lines(post, published).take(8)),
            record_map(post, published).take(7),
        ),
{
    let lines = record_lines(post, published);
    lemma_record_meta_7(post, published);
    reveal_strlit("$dates:");
    reveal_strlit("$dates");
    reveal_strlit(":");
    assert(lines[7] =~= "$dates"@ + ":"@);
    lemma_meta_skip(lines, 8, record_map(post, published).take(7), "$dates"@);
}

/// The keys and values of the metadata block up to its ninth line.
proof fn lemma_record_meta_9(post: GrowPostView, published: Seq<char>)
    requires
        is_writable(post, published),
    ensures
        gives(meta_of_lines(record_lines(post, published)), record_map(post, published)),
{
    let lines = record_lines(post, published);
    let map = record_map(post, published).take(7);
    let label = "  published"@;
    lemma_record_meta_8(post, published);
    lemma_record_keys();
    lemma_labels();
    reveal_strlit("  published");
    reveal_strlit("  published: ");
    reveal_strlit(":");
    reveal_strlit(" ");
    assert(lines[8] =~= label + ":"@ + " "@ + published);
    assert(map[0].0 == "title"@);
    assert(map[1].0 == "author"@);
    assert(map[2].0 == "description"@);
    assert(map[3].0 == "keywords"@);
    assert(map[4].0 == "image"@);
    assert(map[5].0 == "lang"@);
    assert(map[6].0 == slug_key(post.fields.lang));
    lemma_meta_step(lines, 9, map, label, published);
    assert(lines.take(9) =~= lines);
    assert(map.push((letters_and_numbers(label), published)) =~= record_map(post, published));
}

/// The keys and values of the document of a writable record: those of its
/// metadata block, and the body.
proof fn lemma_record_grow_map(post: GrowPostView, published: Seq<char>)
    requires
        is_writable(post, published),
    ensures
        gives(
            grow_map(record_document(post, published)),
            record_map(post, published).push(("text"@, "\n\n"@ + post.fields.text)),
        ),
{
    let map = record_map(post, published);
    lemma_record_meta_and_text(post, published);
    lemma_record_meta_lines(post, published);
    lemma_record_meta_9(post, published);
    lemma_record_keys();
    assert(map[0].0 == "title"@);
    assert(map[1].0 == "author"@);
    assert(map[2].0 == "description"@);
    assert(map[3].0 == "keywords"@);
    assert(map[4].0 == "image"@);
    assert(map[5].0 == "lang"@);
    assert(map[6].0 == slug_key(post.fields.lang));
    assert(map[7].0 == "published"@);
    lemma_position_none(map, "text"@);
}

/// What has been read of a record once the first `n` of its keys were
/// applied, `at` being the instant that its date is read as.
pub open spec fn record_state(post: GrowPostView, at: int, n: int) -> GrowBuilderView {
    GrowBuilderView {
        fields: PostFields {
            title: if n >= 1 {
                post.slug
            } else {
                Seq::empty()
            },
            description: if n >= 3 {
                post.fields.description
            } else {
                Seq::empty()
            },
            keywords: if n >= 4 {
                post.fields.keywords
            } else {
                Seq::empty()
            },
            lang: if n >= 6 {
                post.fields.lang
            } else {
                Lang::Ru
            },
            text: if n >= 9 {
                post.fields.text
            } else {
                Seq::empty()
            },
        },
        author: if n >= 2 {
            post.author
        } else {
            Seq::empty()
        },
        image: if n >= 5 {
            DEFAULT_IMAGE@
        } else {
            Seq::empty()
        },
        slug: if n >= 7 {
            post.slug
        } else {
            Seq::empty()
        },
        published_at: if n >= 8 {
            at
        } else {
            0
        },
        post_path: Seq::empty(),
        translation_path: Seq::empty(),
    }
}

/// All the keys and values of the document of a record.
pub open spec fn record_entries(post: GrowPostView, published: Seq<char>) -> Seq<
    (Seq<char>, Seq<char>),
> {
    record_map(post, published).push(("text"@, "\n\n"@ + post.fields.text))
}

/// Applying one key more.
proof fn lemma_fold_step(
    map: Seq<(Seq<char>, Seq<char>)>,
    n: int,
    state: GrowBuilderView,
    next: Result<GrowBuilderView, ErrorView>,
)
    requires
        0 < n <= map.len(),
        gives(grow_fold(map.take(n - 1), GrowBuilderView::empty()), state),
        grow_step(state, map[n - 1].0, map[n - 1].1) == next,
    ensures
        grow_fold(map.take(n), GrowBuilderView::empty()) == next,
{
    assert(map.take(n).drop_last() =~= map.take(n - 1));
    assert(map.take(n).last() == map[n - 1]);
}

/// What has been read of a record before any of its keys is applied.
proof fn lemma_record_fold_0(post: GrowPostView, published: Seq<char>, at: int)
    ensures
        gives(
            grow_fold(record_entries(post, published).take(0), GrowBuilderView::empty()),
            record_state(post, at, 0),
        ),
{
    assert(record_entries(post, published).take(0).len() == 0);
}

/// What has been read of a record once its first key is applied.
proof fn lemma_record_fold_1(post: GrowPostView, published: Seq<char>, at: int)
    requires
        is_writable(post, published),
    ensures
        gives(
            grow_fold(record_entries(post, published).take(1), GrowBuilderView::empty()),
            record_state(post, at, 1),
        ),
{
    let map = record_entries(post, published);
    let state = record_state(post, at, 0);
    lemma_record_fold_0(post, published, at);
    lemma_record_keys();
    assert(map[0] == ("title"@, post.slug));
    lemma_trimmed_is_kept(post.slug);
    assert(gives(checked_title(post.slug), post.slug));
    assert(gives(grow_step(state, map[0].0, map[0].1), record_state(post, at, 1)));
    lemma_fold_step(map, 1, state, Ok(record_state(post, at, 1)));
}

/// What has been read of a record once its second key is applied.
proof fn lemma_record_fold_2(post: GrowPostView, published: Seq<char>, at: int)
    requires
        is_writable(post, published),
    ensures
        gives(
            grow_fold(record_entries(post, published).take(2), GrowBuilderView::empty()),
            record_state(post, at, 2),
        ),
{
    let map = record_entries(post, published);
    let state = record_state(post, at, 1);
    lemma_record_fold_1(post, published, at);
    lemma_record_keys();
    assert(map[1] == ("author"@, post.author));
    assert(gives(grow_step(state, map[1].0, map[1].1), record_state(post, at, 2)));
    lemma_fold_step(map, 2, state, Ok(record_state(post, at, 2)));
}

/// What has been read of a record once its third key is applied.
proof fn lemma_record_fold_3(post: GrowPostView, published: Seq<char>, at: int)
    requires
        is_writable(post, published),
    ensures
        gives(
            grow_fold(record_entries(post, published).take(3), GrowBuilderView::empty()),
            record_state(post, at, 3),
        ),
{
    let map = record_entries(post, published);
    let state = record_state(post, at, 2);
    lemma_record_fold_2(post, published, at);
    lemma_record_keys();
    assert(map[2] == ("description"@, post.fields.description));
    lemma_trimmed_is_kept(post.fields.description);
    assert(gives(checked_description(post.fields.description), post.fields.description));
    assert(gives(grow_step(state, map[2].0, map[2].1), record_state(post, at, 3)));
    lemma_fold_step(map, 3, state, Ok(record_state(post, at, 3)));
}

/// What has been read of a record once its fourth key is applied.
proof fn lemma_record_fold_4(post: GrowPostView, published: Seq<char>, at: int)
    requires
        is_writable(post, published),
    ensures
        gives(
            grow_fold(record_entries(post, published).take(4), GrowBuilderView::empty()),
            record_state(post, at, 4),
        ),
{
    let map = record_entries(post, published);
    let state = record_state(post, at, 3);
    lemma_record_fold_3(post, published, at);
    lemma_record_keys();
    assert(map[3] == ("keywords"@, join(post.fields.keywords, KEYWORDS_DELIMITER@)));
    lemma_record_keywords(post, published);
    assert(gives(grow_step(state, map[3].0, map[3].1), record_state(post, at, 4)));
    lemma_fold_step(map, 4, state, Ok(record_state(post, at, 4)));
}

/// What has been read of a record once its fifth key is applied.
proof fn lemma_record_fold_5(post: GrowPostView, published: Seq<char>, at: int)
    requires
        is_writable(post, published),
    ensures
        gives(
            grow_fold(record_entries(post, published).take(5), GrowBuilderView::empty()),
            record_state(post, at, 5),
        ),
{
    let map = record_entries(post, published);
    let state = record_state(post, at, 4);
    lemma_record_fold_4(post, published, at);
    lemma_record_keys();
    assert(map[4] == ("image"@, DEFAULT_IMAGE@));
    assert(gives(grow_step(state, map[4].0, map[4].1), record_state(post, at, 5)));
    lemma_fold_step(map, 5, state, Ok(record_state(post, at, 5)));
}

/// What has been read of a record once its sixth key is applied.
proof fn lemma_record_fold_6(post: GrowPostView, published: Seq<char>, at: int)
    requires
        is_writable(post, published),
    ensures
        gives(
            grow_fold(record_entries(post, published).take(6), GrowBuilderView::empty()),
            record_state(post, at, 6),
        ),
{
    let map = record_entries(post, published);
    let state = record_state(post, at, 5);
    lemma_record_fold_5(post, published, at);
    lemma_record_keys();
    assert(map[5] == ("lang"@, lang_name(post.fields.lang)));
    lemma_record_lang(post.fields.lang);
    assert(gives(grow_step(state, map[5].0, map[5].1), record_state(post, at, 6)));
    lemma_fold_step(map, 6, state, Ok(record_state(post, at, 6)));
}

/// What has been read of a record once its seventh key is applied.
proof fn lemma_record_fold_7(post: GrowPostView, published: Seq<char>, at: int)
    requires
        is_writable(post, published),
    ensures
        gives(
            grow_fold(record_entries(post, published).take(7), GrowBuilderView::empty()),
            record_state(post, at, 7),
        ),
{
    let map = record_entries(post, published);
    let state = record_state(post, at, 6);
    lemma_record_fold_6(post, published, at);
    lemma_record_keys();
    assert(map[6] == (slug_key(post.fields.lang), post.slug));
    assert(gives(grow_step(state, map[6].0, map[6].1), record_state(post, at, 7)));
    lemma_fold_step(map, 7, state, Ok(record_state(post, at, 7)));
}

/// What has been read of a record once its eighth key is applied.
proof fn lemma_record_fold_8(post: GrowPostView, published: Seq<char>, at: int)
    requires
        is_writable(post, published),
        parsed_time(published, ISO8601_DATE_TIME_FORMAT@) == Some(at),
    ensures
        gives(
            grow_fold(record_entries(post, published).take(8), GrowBuilderView::empty()),
            record_state(post, at, 8),
        ),
{
    let map = record_entries(post, published);
    let state = record_state(post, at, 7);
    lemma_record_fold_7(post, published, at);
    lemma_record_keys();
    assert(map[7] == ("published"@, published));
    assert(gives(grow_step(state, map[7].0, map[7].1), record_state(post, at, 8)));
    lemma_fold_step(map, 8, state, Ok(record_state(post, at, 8)));
}

/// What has been read of a record once its ninth key is applied.
proof fn lemma_record_fold_9(post: GrowPostView, published: Seq<char>, at: int)
    requires
        is_writable(post, published),
        parsed_time(published, ISO8601_DATE_TIME_FORMAT@) == Some(at),
    ensures
        gives(
            grow_fold(record_entries(post, published).take(9), GrowBuilderView::empty()),
            record_state(post, at, 9),
        ),
{
    let map = record_entries(post, published);
    let state = record_state(post, at, 8);
    lemma_record_fold_8(post, published, at);
    lemma_record_keys();
    assert(map[8] == ("text"@, "\n\n"@ + post.fields.text));
    reveal_strlit("\n\n");
    lemma_trimmed_around("\n\n"@, post.fields.text, Seq::<char>::empty());
    assert("\n\n"@ + post.fields.text + Seq::<char>::empty() =~= "\n\n"@ + post.fields.text);
    assert(gives(checked_text("\n\n"@ + post.fields.text), post.fields.text));
    assert(gives(grow_step(state, map[8].0, map[8].1), record_state(post, at, 9)));
    lemma_fold_step(map, 9, state, Ok(record_state(post, at, 9)));
}

/// The keywords of a writable record are read back from their line.
proof fn lemma_record_keywords(post: GrowPostView, published: Seq<char>)
    requires
        is_writable(post, published),
    ensures
        gives(
            checked_keywords(
                split(join(post.fields.keywords, KEYWORDS_DELIMITER@), KEYWORDS_DELIMITER@),
            ),
            post.fields.keywords,
        ),
{
    let k = post.fields.keywords;
    reveal_strlit(",");
    assert(KEYWORDS_DELIMITER@ =~= seq![',']);
    lemma_split_join(k, ',');
    assert forall|i: int| 0 <= i < k.len() implies trimmed(#[trigger] k[i]) == k[i] by {
        if k[i].len() == 0 {
            lemma_trimmed_blank(k[i]);
            assert(trimmed(k[i]) =~= k[i]);
        } else {
            lemma_trimmed_is_kept(k[i]);
        }
    }
    assert(k.map_values(|w: Seq<char>| trimmed(w)) =~= k);
}

/// The name of a language is read back as the language.
proof fn lemma_record_lang(lang: Lang)
    ensures
        lang_of(lang_name(lang)) == Some(lang),
{
    reveal_strlit("Ru");
    reveal_strlit("En");
    lemma_trimmed_is_kept(lang_name(lang));
}

/// The key of the date is the eighth key of a record.
proof fn lemma_record_fold_fails(post: GrowPostView, published: Seq<char>)
    requires
        is_writable(post, published),
        parsed_time(published, ISO8601_DATE_TIME_FORMAT@).is_none(),
    ensures
        grow_fold(record_entries(post, published), GrowBuilderView::empty()) == Err::<
            GrowBuilderView,
            ErrorView,
        >(ErrorView::DateTimeError),
{
    let map = record_entries(post, published);
    let state = record_state(post, 0, 7);
    lemma_record_fold_7(post, published, 0);
    lemma_record_keys();
    assert(map[7] == ("published"@, published));
    assert(grow_step(state, map[7].0, map[7].1) == Err::<GrowBuilderView, ErrorView>(
        ErrorView::DateTimeError,
    ));
    lemma_fold_step(map, 8, state, Err(ErrorView::DateTimeError));
    crate::grow::serdes::lemma_grow_fold_fails(map, GrowBuilderView::empty(), 8);
}

/// Reading the document of a writable record gives the record back: its
/// author, description, keywords, language, slug and body, with the slug as
/// its title, and as its instant of publication what its date is read as. A
/// date that cannot be read fails the reading.
pub proof fn lemma_record_round_trip(post: GrowPostView, published: Seq<char>)
    requires
        is_writable(post, published),
    ensures
        grow_post_of(rendered(POST_TEMPLATE@, record_bindings(post, published))) == (match
        parsed_time(published, ISO8601_DATE_TIME_FORMAT@) {
            Some(at) => Ok::<GrowPostView, ErrorView>(
                GrowPostView {
                    fields: PostFields { title: post.slug, ..post.fields },
                    author: post.author,
                    slug: post.slug,
                    published_at: at,
                },
            ),
            None => Err::<GrowPostView, ErrorView>(ErrorView::DateTimeError),
        }),
{
    lemma_record_is_written(post, published);
    lemma_record_grow_map(post, published);
    match parsed_time(published, ISO8601_DATE_TIME_FORMAT@) {
        Some(at) => {
            lemma_record_fold_9(post, published, at);
            assert(record_entries(post, published).take(9) =~= record_entries(post, published));
        },
        None => {
            lemma_record_fold_fails(post, published);
        },
    }
}

/// A slug that is not empty can stand as a value in a metadata line, and
/// holds no marker.
pub proof fn lemma_slug_is_line(slug: Seq<char>)
    requires
        is_slug(slug),
        slug.len() > 0,
    ensures
        is_line(slug),
        holds_no_later_marker(slug, 0),
{
    assert(is_slug_char(slug[0]) && is_slug_char(slug[slug.len() - 1]));
    assert forall|i: int| 0 <= i < slug.len() implies slug[i] != '\n' && slug[i] != '[' by {
        assert(is_slug_char(slug[i]));
    }
    assert forall|k: int| 0 < k < record_keys().len() implies !holds_marker(
        slug,
        #[trigger] record_keys()[k],
    ) by {
        lemma_no_bracket_no_marker(slug, record_keys()[k]);
    }
}

/// The authors can stand as values in a metadata line, and hold no marker.
pub proof fn lemma_author_is_line(lang: Lang)
    ensures
        is_line(author_of(lang)),
        holds_no_later_marker(author_of(lang), 1),
{
    reveal_strlit("Виктор Жарина");
    reveal_strlit("Viktor Zharina");
    let a = author_of(lang);
    assert(is_free_of(a, '-'));
    assert(is_free_of(a, '['));
    assert forall|k: int| 1 < k < record_keys().len() implies !holds_marker(
        a,
        #[trigger] record_keys()[k],
    ) by {
        lemma_no_bracket_no_marker(a, record_keys()[k]);
    }
}

/// The description, the keywords and the body of a valid draft neither
/// start nor end with whitespace.
proof fn lemma_valid_is_trimmed(draft: PostFields)
    requires
        draft.valid(),
    ensures
        is_trimmed(draft.description),
        draft.description.len() < MAX_CHARS_IN_DESCRIPTION,
        is_trimmed(draft.text),
        0 < draft.keywords.len() <= MAX_KEYWORDS_COUNT,
        forall|i: int|
            0 <= i < draft.keywords.len() ==> (#[trigger] draft.keywords[i]).len() == 0
                || is_trimmed(draft.keywords[i]),
{
    assert(gives(checked_description(draft.description), draft.description));
    assert(trimmed(draft.description) == draft.description);
    crate::text::laws::lemma_trimmed_ends(draft.description);
    assert(gives(checked_text(draft.text), draft.text));
    assert(trimmed(draft.text) == draft.text);
    crate::text::laws::lemma_trimmed_ends(draft.text);
    let k = draft.keywords;
    assert(gives(checked_keywords(k), k));
    let kept = k.map_values(|w: Seq<char>| trimmed(w));
    assert(kept == k);
    assert forall|i: int| 0 <= i < k.len() implies (#[trigger] k[i]).len() == 0 || is_trimmed(
        k[i],
    ) by {
        assert(kept[i] == trimmed(k[i]));
        crate::text::laws::lemma_trimmed_ends(k[i]);
    }
}

/// A valid draft that is approved, published, written as a document and
/// read back, is the draft again, with its slug as the title: the
/// description, the keywords, the language and the body are the same. This
/// holds of a draft
/// - whose slug is not empty and is shorter than the limit of a title;
/// - whose description holds no line feed and no triple hyphen;
/// - whose keywords hold no comma, no line feed and no triple hyphen, and are
///   not one empty keyword alone;
/// - whose description holds the marker of none of `image`, `lang`, `slug`,
///   `text`, `published` and `keywords`, and whose body holds neither
///   `[published]` nor `[keywords]`;
/// - whose date of publication, `date`, can stand in a metadata line and
///   does not hold `[keywords]`.
///
/// The instant of publication is what the date is read as.
pub proof fn lemma_draft_round_trip(
    draft: PostFields,
    slug: Seq<char>,
    published_at: int,
    date: Seq<char>,
)
    requires
        draft.valid(),
        is_slug(slug),
        0 < slug.len() < MAX_CHARS_IN_TITLE,
        is_free_of(draft.description, '\n'),
        has_no_triple_hyphen(draft.description),
        holds_no_later_marker(draft.description, 2),
        forall|i: int|
            0 <= i < draft.keywords.len() ==> is_free_of(#[trigger] draft.keywords[i], ',')
                && is_free_of(draft.keywords[i], '\n') && has_no_triple_hyphen(draft.keywords[i]),
        join(draft.keywords, KEYWORDS_DELIMITER@).len() > 0,
        holds_no_later_marker(draft.text, 6),
        is_line(date),
        holds_no_later_marker(date, 7),
    ensures
        gives(
            published(
                ApprovedPostView { fields: draft, author: author_of(draft.lang), slug },
                published_at,
            ),
            GrowPostView { fields: draft, author: author_of(draft.lang), slug, published_at },
        ),
        grow_post_of(
            rendered(
                POST_TEMPLATE@,
                record_bindings(
                    GrowPostView {
                        fields: draft,
                        author: author_of(draft.lang),
                        slug,
                        published_at,
                    },
                    date,
                ),
            ),
        ) == (match parsed_time(date, ISO8601_DATE_TIME_FORMAT@) {
            Some(at) => Ok::<GrowPostView, ErrorView>(
                GrowPostView {
                    fields: PostFields { title: slug, ..draft },
                    author: author_of(draft.lang),
                    slug,
                    published_at: at,
                },
            ),
            None => Err::<GrowPostView, ErrorView>(ErrorView::DateTimeError),
        }),
{
    let post = GrowPostView { fields: draft, author: author_of(draft.lang), slug, published_at };
    lemma_slug_is_line(slug);
    lemma_author_is_line(draft.lang);
    lemma_valid_is_trimmed(draft);
    assert(are_words(draft.keywords, ','));
    assert(is_unmarked(post, date));
    assert(is_writable(post, date));
    lemma_record_round_trip(post, date);
}

} // verus!
