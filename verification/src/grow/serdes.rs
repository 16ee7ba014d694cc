//! Reading a document of the record format, and filling a template.
//!
//! A document is a metadata block and a body. The delimiter line stands
//! between the two; a document may also open with it. Each line of the
//! metadata block that is not blank is a key, a colon and a value.

use vstd::prelude::*;
use crate::command::{fails, gives, Error, ErrorView};
use crate::grow::builder::{DraftPostBuilder, GrowBuilderView, GrowPostBuilder, PostFields};
use crate::grow::lang::{lang_of, Lang};
use crate::grow::post::{DraftPost, GrowPost, GrowPostView};
use crate::grow::time::parsed_time;
use crate::grow::{
    AUTHOR_FIELD_NAME, DESCRIPTION_FIELD_NAME, IMAGE_FIELD_NAME, ISO8601_DATE_TIME_FORMAT,
    KEYWORDS_DELIMITER, KEYWORDS_FIELD_NAME, KEY_VALUE_DELIMITER, LANGUAGE_FIELD_NAME, LF,
    META_DELIMITER, PUBLISHED_DATE_FIELD_NAME, SLUG_FIELD_NAME_EN, SLUG_FIELD_NAME_RU,
    TEXT_FIELD_NAME, TITLE_FIELD_NAME,
};
use crate::table::{insert, pairs, put};
use crate::text::{
    chars_of, concat, keep_letters_and_numbers, letters_and_numbers, occurs, occurs_at, replace,
    replaced, same, slice, split, split_once, split_once_text, split_text, string_of, trim, trimmed,
    views,
};

pub mod grow_post_serializer;
pub mod laws;

verus! {

/// What is said of a document without the delimiter.
pub open spec fn shape_message(delimiter: Seq<char>) -> Seq<char> {
    "Check post format. Should be "@ + delimiter + "\nmeta\n"@ + delimiter
        + "text , content `"@ + delimiter + "`"@
}

/// What is said of a metadata line without the delimiter.
pub open spec fn line_message(delimiter: Seq<char>, content: Seq<char>) -> Seq<char> {
    "Meta key value should be delimited by `"@ + delimiter + "`, content `"@ + content + "`"@
}

/// The metadata block and the body of the document `value`. Where the
/// document opens with the delimiter, the block ends at the next one;
/// where it does not, the block ends at the first one. The body is all that
/// follows.
pub open spec fn meta_and_text(value: Seq<char>, delimiter: Seq<char>) -> Result<
    (Seq<char>, Seq<char>),
    ErrorView,
> {
    let document = trimmed(value);
    let start = if occurs_at(document, delimiter, 0) {
        delimiter.len() as int
    } else {
        0
    };
    match split_once(document.subrange(start, document.len() as int), delimiter) {
        Some(parts) => Ok(parts),
        None => Err(ErrorView::IncorrectFormat(shape_message(delimiter))),
    }
}

/// The key and the value of the metadata line `content`: the letters and
/// numbers before the first delimiter, and what follows it without the
/// whitespace around it.
pub open spec fn key_and_value(content: Seq<char>, delimiter: Seq<char>) -> Result<
    (Seq<char>, Seq<char>),
    ErrorView,
> {
    match split_once(content, delimiter) {
        Some((key, value)) => Ok((letters_and_numbers(key), trimmed(value))),
        None => Err(ErrorView::IncorrectFormat(line_message(delimiter, content))),
    }
}

/// The keys and values of the metadata lines `lines`, in the order in which
/// each key first occurs, each key with its last value. Blank lines, and
/// lines that leave the key or the value empty, are passed over.
pub open spec fn meta_of_lines(lines: Seq<Seq<char>>) -> Result<
    Seq<(Seq<char>, Seq<char>)>,
    ErrorView,
>
    decreases lines.len(),
{
    if lines.len() == 0 {
        Ok(Seq::empty())
    } else {
        match meta_of_lines(lines.drop_last()) {
            Err(e) => Err(e),
            Ok(map) => {
                let line = lines.last();
                if trimmed(line).len() == 0 {
                    Ok(map)
                } else {
                    match key_and_value(line, KEY_VALUE_DELIMITER@) {
                        Err(e) => Err(e),
                        Ok((key, value)) => if key.len() == 0 || value.len() == 0 {
                            Ok(map)
                        } else {
                            Ok(put(map, key, value))
                        },
                    }
                }
            },
        }
    }
}

/// The keys and values of the metadata block `content`.
pub open spec fn meta_map(content: Seq<char>) -> Result<Seq<(Seq<char>, Seq<char>)>, ErrorView> {
    meta_of_lines(split(trimmed(content), seq![LF]))
}

/// The keys and values of the document `content`, the body under the key
/// `text`.
pub open spec fn grow_map(content: Seq<char>) -> Result<Seq<(Seq<char>, Seq<char>)>, ErrorView> {
    match meta_and_text(content, META_DELIMITER@) {
        Err(e) => Err(e),
        Ok((meta, text)) => match meta_map(meta) {
            Err(e) => Err(e),
            Ok(map) => Ok(put(map, TEXT_FIELD_NAME@, text)),
        },
    }
}

/// The outcome `r`, as sequences of scalar values.
pub open spec fn pair_outcome(r: Result<(String, String), Error>) -> Result<
    (Seq<char>, Seq<char>),
    ErrorView,
> {
    match r {
        Ok((a, b)) => Ok((a@, b@)),
        Err(e) => Err(e@),
    }
}

/// The outcome `r`, as sequences of scalar values.
pub open spec fn map_outcome(r: Result<Vec<(String, String)>, Error>) -> Result<
    Seq<(Seq<char>, Seq<char>)>,
    ErrorView,
> {
    match r {
        Ok(map) => Ok(pairs(map@)),
        Err(e) => Err(e@),
    }
}

/// Cuts a document into its metadata block and its body.
pub fn split_meta_and_text(value: &str, delimiter: &str) -> (r: Result<(String, String), Error>)
    ensures
        pair_outcome(r) == meta_and_text(value@, delimiter@),
{
    let document = trim(&chars_of(value));
    let pattern = chars_of(delimiter);
    let start: usize = if occurs(&document, &pattern, 0) {
        pattern.len()
    } else {
        0
    };
    let rest = slice(&document, start, document.len());
    match split_once_text(&rest, &pattern) {
        Some((meta, body)) => Ok((string_of(&meta), string_of(&body))),
        None => {
            let mut message = chars_of("Check post format. Should be ");
            message = concat(&message, &pattern);
            message = concat(&message, &chars_of("\nmeta\n"));
            message = concat(&message, &pattern);
            message = concat(&message, &chars_of("text , content `"));
            message = concat(&message, &pattern);
            message = concat(&message, &chars_of("`"));
            Err(Error::IncorrectFormat(string_of(&message)))
        },
    }
}

/// Cuts a metadata line into its key and its value.
pub fn split_key_value(content: &str, delimiter: &str) -> (r: Result<(String, String), Error>)
    ensures
        pair_outcome(r) == key_and_value(content@, delimiter@),
{
    let line = chars_of(content);
    let pattern = chars_of(delimiter);
    match split_once_text(&line, &pattern) {
        Some((key, value)) => {
            let key = keep_letters_and_numbers(&key);
            let value = trim(&value);
            Ok((string_of(&key), string_of(&value)))
        },
        None => {
            let mut message = chars_of("Meta key value should be delimited by `");
            message = concat(&message, &pattern);
            message = concat(&message, &chars_of("`, content `"));
            message = concat(&message, &line);
            message = concat(&message, &chars_of("`"));
            Err(Error::IncorrectFormat(string_of(&message)))
        },
    }
}

/// Reads the keys and values of a metadata block.
pub fn parse_meta_into_map(content: String) -> (r: Result<Vec<(String, String)>, Error>)
    ensures
        map_outcome(r) == meta_map(content@),
{
    let mut separator: Vec<char> = Vec::new();
    separator.push(LF);
    assert(separator@ =~= seq![LF]);
    let lines = split_text(&trim(&chars_of(content.as_str())), &separator);
    let mut map: Vec<(String, String)> = Vec::new();
    let mut i: usize = 0;
    assert(pairs(map@) =~= Seq::empty());
    while i < lines.len()
        invariant
            i <= lines.len(),
            views(lines@) == split(trimmed(content@), seq![LF]),
            gives(meta_of_lines(views(lines@).take(i as int)), pairs(map@)),
        decreases lines.len() - i,
    {
        proof {
            assert(views(lines@).take(i + 1).drop_last() =~= views(lines@).take(i as int));
            assert(views(lines@).take(i + 1).last() == lines@[i as int]@);
        }
        if trim(&lines[i]).len() != 0 {
            match split_key_value(string_of(&lines[i]).as_str(), KEY_VALUE_DELIMITER) {
                Ok((key, value)) => {
                    if !(key.as_str().unicode_len() == 0 || value.as_str().unicode_len() == 0) {
                        insert(&mut map, key, value);
                    }
                },
                Err(e) => {
                    proof {
                        lemma_meta_of_lines_fails(views(lines@), i + 1);
                    }
                    return Err(e);
                },
            }
        }
        i += 1;
    }
    assert(views(lines@).take(lines.len() as int) =~= views(lines@));
    Ok(map)
}

/// Once the first `n` lines have failed, all the lines fail in the same way.
pub proof fn lemma_meta_of_lines_fails(lines: Seq<Seq<char>>, n: int)
    requires
        0 <= n <= lines.len(),
        meta_of_lines(lines.take(n)).is_err(),
    ensures
        meta_of_lines(lines) == meta_of_lines(lines.take(n)),
    decreases lines.len() - n,
{
    if n < lines.len() {
        assert(lines.take(n + 1).drop_last() =~= lines.take(n));
        lemma_meta_of_lines_fails(lines, n + 1);
    } else {
        assert(lines.take(n) =~= lines);
    }
}

/// Reads the keys and values of a document, the body under the key `text`.
pub fn convert_grow_content_to_hashmap(content: &str) -> (r: Result<
    Vec<(String, String)>,
    Error,
>)
    ensures
        map_outcome(r) == grow_map(content@),
{
    match split_meta_and_text(content, META_DELIMITER) {
        Err(e) => Err(e),
        Ok((meta, body)) => match parse_meta_into_map(meta) {
            Err(e) => Err(e),
            Ok(map) => {
                let mut map = map;
                insert(&mut map, TEXT_FIELD_NAME.to_owned(), body);
                Ok(map)
            },
        },
    }
}

/// What the fields of a draft become when the metadata gives `value` under
/// the key `name`.
pub open spec fn draft_step(fields: PostFields, name: Seq<char>, value: Seq<char>) -> Result<
    PostFields,
    ErrorView,
> {
    if name == TITLE_FIELD_NAME@ {
        fields.with_title(value)
    } else if name == DESCRIPTION_FIELD_NAME@ {
        fields.with_description(value)
    } else if name == KEYWORDS_FIELD_NAME@ {
        fields.with_keywords(split(value, KEYWORDS_DELIMITER@))
    } else if name == LANGUAGE_FIELD_NAME@ {
        match lang_of(value) {
            Some(lang) => Ok(PostFields { lang, ..fields }),
            None => Err(ErrorView::UnknownLang(value)),
        }
    } else if name == TEXT_FIELD_NAME@ {
        fields.with_text(value)
    } else {
        Err(ErrorView::UnknownKey(name))
    }
}

/// What the fields `start` become when the keys and values of `map` are
/// applied in order. The first one that is refused ends it.
pub open spec fn draft_fold(map: Seq<(Seq<char>, Seq<char>)>, start: PostFields) -> Result<
    PostFields,
    ErrorView,
>
    decreases map.len(),
{
    if map.len() == 0 {
        Ok(start)
    } else {
        match draft_fold(map.drop_last(), start) {
            Err(e) => Err(e),
            Ok(fields) => draft_step(fields, map.last().0, map.last().1),
        }
    }
}

/// The draft that the document `source` holds.
pub open spec fn draft_of(source: Seq<char>) -> Result<PostFields, ErrorView> {
    match grow_map(source) {
        Err(e) => Err(e),
        Ok(map) => draft_fold(map, PostFields::empty()),
    }
}

/// What a record becomes when the metadata gives `value` under the key
/// `name`.
pub open spec fn grow_step(record: GrowBuilderView, name: Seq<char>, value: Seq<char>) -> Result<
    GrowBuilderView,
    ErrorView,
> {
    if name == AUTHOR_FIELD_NAME@ {
        Ok(GrowBuilderView { author: value, ..record })
    } else if name == SLUG_FIELD_NAME_RU@ || name == SLUG_FIELD_NAME_EN@ {
        Ok(GrowBuilderView { slug: value, ..record })
    } else if name == PUBLISHED_DATE_FIELD_NAME@ {
        match parsed_time(value, ISO8601_DATE_TIME_FORMAT@) {
            Some(published_at) => Ok(GrowBuilderView { published_at, ..record }),
            None => Err(ErrorView::DateTimeError),
        }
    } else if name == IMAGE_FIELD_NAME@ {
        Ok(GrowBuilderView { image: value, ..record })
    } else {
        match draft_step(record.fields, name, value) {
            Ok(fields) => Ok(GrowBuilderView { fields, ..record }),
            Err(e) => Err(e),
        }
    }
}

/// What the record `start` becomes when the keys and values of `map` are
/// applied in order. The first one that is refused ends it.
pub open spec fn grow_fold(map: Seq<(Seq<char>, Seq<char>)>, start: GrowBuilderView) -> Result<
    GrowBuilderView,
    ErrorView,
>
    decreases map.len(),
{
    if map.len() == 0 {
        Ok(start)
    } else {
        match grow_fold(map.drop_last(), start) {
            Err(e) => Err(e),
            Ok(record) => grow_step(record, map.last().0, map.last().1),
        }
    }
}

/// The published record that the document `source` holds.
pub open spec fn grow_post_of(source: Seq<char>) -> Result<GrowPostView, ErrorView> {
    match grow_map(source) {
        Err(e) => Err(e),
        Ok(map) => match grow_fold(map, GrowBuilderView::empty()) {
            Err(e) => Err(e),
            Ok(record) => Ok(
                GrowPostView {
                    fields: record.fields,
                    author: record.author,
                    slug: record.slug,
                    published_at: record.published_at,
                },
            ),
        },
    }
}

/// Once the first `n` keys have failed, all the keys fail in the same way.
pub proof fn lemma_draft_fold_fails(map: Seq<(Seq<char>, Seq<char>)>, start: PostFields, n: int)
    requires
        0 <= n <= map.len(),
        draft_fold(map.take(n), start).is_err(),
    ensures
        draft_fold(map, start) == draft_fold(map.take(n), start),
    decreases map.len() - n,
{
    if n < map.len() {
        assert(map.take(n + 1).drop_last() =~= map.take(n));
        lemma_draft_fold_fails(map, start, n + 1);
    } else {
        assert(map.take(n) =~= map);
    }
}

/// Once the first `n` keys have failed, all the keys fail in the same way.
pub proof fn lemma_grow_fold_fails(
    map: Seq<(Seq<char>, Seq<char>)>,
    start: GrowBuilderView,
    n: int,
)
    requires
        0 <= n <= map.len(),
        grow_fold(map.take(n), start).is_err(),
    ensures
        grow_fold(map, start) == grow_fold(map.take(n), start),
    decreases map.len() - n,
{
    if n < map.len() {
        assert(map.take(n + 1).drop_last() =~= map.take(n));
        lemma_grow_fold_fails(map, start, n + 1);
    } else {
        assert(map.take(n) =~= map);
    }
}

/// Whether `name` is the key `key`.
fn is_key(name: &str, key: &str) -> (r: bool)
    ensures
        r == (name@ == key@),
{
    same(&chars_of(name), &chars_of(key))
}

/// Applies one key of the metadata to a draft.
fn apply_to_draft(builder: &mut DraftPostBuilder, name: &str, value: String) -> (r: Result<
    (),
    Error,
>)
    ensures
        match r {
            Ok(_) => gives(draft_step(old(builder)@, name@, value@), final(builder)@),
            Err(e) => fails(draft_step(old(builder)@, name@, value@), e),
        },
{
    if is_key(name, TITLE_FIELD_NAME) {
        match builder.title(value) {
            Ok(_) => Ok(()),
            Err(e) => Err(e),
        }
    } else if is_key(name, DESCRIPTION_FIELD_NAME) {
        match builder.description(value) {
            Ok(_) => Ok(()),
            Err(e) => Err(e),
        }
    } else if is_key(name, KEYWORDS_FIELD_NAME) {
        match builder.keywords_as_str(value, KEYWORDS_DELIMITER) {
            Ok(_) => Ok(()),
            Err(e) => Err(e),
        }
    } else if is_key(name, LANGUAGE_FIELD_NAME) {
        match Lang::from_str(value.as_str()) {
            Ok(lang) => match builder.lang(lang) {
                Ok(_) => Ok(()),
                Err(e) => Err(e),
            },
            Err(code) => Err(Error::UnknownLang(code)),
        }
    } else if is_key(name, TEXT_FIELD_NAME) {
        match builder.text(value) {
            Ok(_) => Ok(()),
            Err(e) => Err(e),
        }
    } else {
        Err(Error::UnknownKey(name.to_owned()))
    }
}

/// Applies one key of the metadata to a published record.
fn apply_to_grow_post(builder: &mut GrowPostBuilder, name: &str, value: String) -> (r: Result<
    (),
    Error,
>)
    ensures
        match r {
            Ok(_) => gives(grow_step(old(builder)@, name@, value@), final(builder)@),
            Err(e) => fails(grow_step(old(builder)@, name@, value@), e),
        },
{
    if is_key(name, AUTHOR_FIELD_NAME) {
        match builder.author(value) {
            Ok(_) => Ok(()),
            Err(e) => Err(e),
        }
    } else if is_key(name, SLUG_FIELD_NAME_RU) || is_key(name, SLUG_FIELD_NAME_EN) {
        match builder.slug(value) {
            Ok(_) => Ok(()),
            Err(e) => Err(e),
        }
    } else if is_key(name, PUBLISHED_DATE_FIELD_NAME) {
        match builder.published_at_str(value) {
            Ok(_) => Ok(()),
            Err(e) => Err(e),
        }
    } else if is_key(name, IMAGE_FIELD_NAME) {
        match builder.image(value) {
            Ok(_) => Ok(()),
            Err(e) => Err(e),
        }
    } else if is_key(name, TITLE_FIELD_NAME) {
        match builder.title(value) {
            Ok(_) => Ok(()),
            Err(e) => Err(e),
        }
    } else if is_key(name, DESCRIPTION_FIELD_NAME) {
        match builder.description(value) {
            Ok(_) => Ok(()),
            Err(e) => Err(e),
        }
    } else if is_key(name, KEYWORDS_FIELD_NAME) {
        match builder.keywords_as_str(value, KEYWORDS_DELIMITER) {
            Ok(_) => Ok(()),
            Err(e) => Err(e),
        }
    } else if is_key(name, LANGUAGE_FIELD_NAME) {
        match Lang::from_str(value.as_str()) {
            Ok(lang) => match builder.lang(lang) {
                Ok(_) => Ok(()),
                Err(e) => Err(e),
            },
            Err(code) => Err(Error::UnknownLang(code)),
        }
    } else if is_key(name, TEXT_FIELD_NAME) {
        match builder.text(value) {
            Ok(_) => Ok(()),
            Err(e) => Err(e),
        }
    } else {
        Err(Error::UnknownKey(name.to_owned()))
    }
}

/// Reads a value from a document of the record format.
pub trait GrowDeserializer<T> {
    fn deserialize(source: &str) -> Result<T, Error>;
}

impl GrowDeserializer<DraftPost> for DraftPost {
    /// Reads a draft. The keys of a draft are `title`, `description`,
    /// `keywords` and `lang`; a field whose key the document lacks stays
    /// empty.
    fn deserialize(source: &str) -> (r: Result<DraftPost, Error>)
        ensures
            match r {
                Ok(draft) => gives(draft_of(source@), draft@),
                Err(e) => fails(draft_of(source@), e),
            },
    {
        let map = match convert_grow_content_to_hashmap(source) {
            Ok(map) => map,
            Err(e) => {
                return Err(e);
            },
        };
        let mut builder = DraftPostBuilder::new();
        let mut i: usize = 0;
        while i < map.len()
            invariant
                i <= map.len(),
                gives(grow_map(source@), pairs(map@)),
                gives(draft_fold(pairs(map@).take(i as int), PostFields::empty()), builder@),
            decreases map.len() - i,
        {
            proof {
                assert(pairs(map@).take(i + 1).drop_last() =~= pairs(map@).take(i as int));
            }
            match apply_to_draft(&mut builder, map[i].0.as_str(), map[i].1.clone()) {
                Ok(_) => {},
                Err(e) => {
                    proof {
                        lemma_draft_fold_fails(pairs(map@), PostFields::empty(), i + 1);
                    }
                    return Err(e);
                },
            }
            i += 1;
        }
        assert(pairs(map@).take(map.len() as int) =~= pairs(map@));
        Ok(builder.build())
    }
}

impl GrowDeserializer<GrowPost> for GrowPost {
    /// Reads a published record. Its keys are those of a draft, and `author`,
    /// `image`, `slugRu`, `slugEn` and `published`; a field whose key the
    /// document lacks stays empty.
    fn deserialize(source: &str) -> (r: Result<GrowPost, Error>)
        ensures
            match r {
                Ok(post) => gives(grow_post_of(source@), post@),
                Err(e) => fails(grow_post_of(source@), e),
            },
    {
        let map = match convert_grow_content_to_hashmap(source) {
            Ok(map) => map,
            Err(e) => {
                return Err(e);
            },
        };
        let mut builder = GrowPostBuilder::new();
        let mut i: usize = 0;
        while i < map.len()
            invariant
                i <= map.len(),
                gives(grow_map(source@), pairs(map@)),
                gives(grow_fold(pairs(map@).take(i as int), GrowBuilderView::empty()), builder@),
            decreases map.len() - i,
        {
            proof {
                assert(pairs(map@).take(i + 1).drop_last() =~= pairs(map@).take(i as int));
            }
            match apply_to_grow_post(&mut builder, map[i].0.as_str(), map[i].1.clone()) {
                Ok(_) => {},
                Err(e) => {
                    proof {
                        lemma_grow_fold_fails(pairs(map@), GrowBuilderView::empty(), i + 1);
                    }
                    return Err(e);
                },
            }
            i += 1;
        }
        assert(pairs(map@).take(map.len() as int) =~= pairs(map@));
        Ok(builder.build())
    }
}

/// The views of a list of bindings.
pub open spec fn bound(bindings: Seq<(&str, String)>) -> Seq<(Seq<char>, Seq<char>)> {
    bindings.map_values(|b: (&str, String)| (b.0@, b.1@))
}

/// What stands in a template for the value bound to `key`: the key in square
/// brackets.
pub open spec fn marker(key: Seq<char>) -> Seq<char> {
    seq!['['] + key + seq![']']
}

/// `template` after each binding in turn has had every occurrence of its
/// marker replaced by its value.
pub open spec fn rendered(template: Seq<char>, bindings: Seq<(Seq<char>, Seq<char>)>) -> Seq<
    char,
>
    decreases bindings.len(),
{
    if bindings.len() == 0 {
        template
    } else {
        replaced(
            rendered(template, bindings.drop_last()),
            marker(bindings.last().0),
            bindings.last().1,
        )
    }
}

/// Fills a template: the bindings are taken in the order given, and for each
/// one every occurrence of its key in square brackets is replaced by its
/// value. A marker whose key is not bound stays as it is.
pub fn process_template(template: String, bindings: Vec<(&str, String)>) -> (out: String)
    ensures
        out@ == rendered(template@, bound(bindings@)),
{
    let mut filled = chars_of(template.as_str());
    let mut i: usize = 0;
    while i < bindings.len()
        invariant
            i <= bindings.len(),
            filled@ == rendered(template@, bound(bindings@).take(i as int)),
        decreases bindings.len() - i,
    {
        let mut pattern: Vec<char> = Vec::new();
        pattern.push('[');
        pattern = concat(&pattern, &chars_of(bindings[i].0));
        pattern.push(']');
        assert(pattern@ =~= marker(bindings@[i as int].0@));
        filled = replace(&filled, &pattern, &chars_of(bindings[i].1.as_str()));
        proof {
            assert(bound(bindings@).take(i + 1).drop_last() =~= bound(bindings@).take(i as int));
        }
        i += 1;
    }
    assert(bound(bindings@).take(bindings.len() as int) =~= bound(bindings@));
    string_of(&filled)
}

} // verus!
