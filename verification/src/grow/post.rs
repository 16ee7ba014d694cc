//! A record on its way from draft to publication.

use vstd::prelude::*;
use crate::command::{fails, gives, Error, ErrorView};
use crate::grow::{
    AUTHOR_FIELD_NAME, DEFAULT_AUTHOR, DEFAULT_AUTHOR_EN, DEFAULT_IMAGE, DESCRIPTION_FIELD_NAME,
    DRAFT_TEMPLATE, IMAGE_FIELD_NAME, ISO8601_DATE_FORMAT, ISO8601_DATE_TIME_FORMAT,
    KEYWORDS_DELIMITER, KEYWORDS_FIELD_NAME, LANGUAGE_FIELD_NAME, LF, MAX_CHARS_IN_DESCRIPTION,
    MAX_CHARS_IN_TITLE, POST_TEMPLATE, PUBLISHED_DATE_FIELD_NAME, SLUG_FIELD_NAME, TEXT_FIELD_NAME,
    TITLE_FIELD_NAME, TRANSLATION_ID_FIELD, TRANSLATION_TEMPLATE, TRANSLATION_VALUE_FIELD,
};
use crate::grow::builder::{
    check_keywords, check_line, check_text, split_keywords, DraftPostBuilder, GrowPostBuilder,
    PostBuilder, PostFields,
};
use crate::grow::lang::{lang_code, lang_name, Lang};
use crate::grow::serdes::{bound, grow_post_of, process_template, rendered, GrowDeserializer};
use crate::grow::time::{formatted_time, Timestamp};
use crate::table::last_value;
use crate::text::{
    chars_of, chars_of_each, concat, find, find_from, join, join_text, lemma_find_from, occurs,
    occurs_at, same, slice, split, string_of, texts,
};

verus! {

/// A record that is not published yet.
#[derive(Debug, PartialEq, Eq)]
pub struct DraftPost {
    /// The title, in the language of the body.
    pub title: String,
    pub description: String,
    pub keywords: Vec<String>,
    pub lang: Lang,
    /// The body.
    pub text: String,
}

impl View for DraftPost {
    type V = PostFields;

    open spec fn view(&self) -> PostFields {
        PostFields {
            title: self.title@,
            description: self.description@,
            keywords: texts(self.keywords@),
            lang: self.lang,
            text: self.text@,
        }
    }
}

impl Default for DraftPost {
    fn default() -> (draft: DraftPost)
        ensures
            draft@ == PostFields::empty(),
    {
        let draft = DraftPost {
            title: String::new(),
            description: String::new(),
            keywords: Vec::new(),
            lang: Lang::Ru,
            text: String::new(),
        };
        assert(texts(draft.keywords@) =~= Seq::empty());
        draft
    }
}

/// A published record, as sequences of scalar values.
pub struct GrowPostView {
    pub fields: PostFields,
    pub author: Seq<char>,
    pub slug: Seq<char>,
    pub published_at: int,
}

/// A published record.
#[derive(Debug, PartialEq, Eq, Clone)]
pub struct GrowPost {
    pub title: String,
    pub author: String,
    pub description: String,
    pub keywords: Vec<String>,
    pub lang: Lang,
    pub published_at: Timestamp,
    pub slug: String,
    pub text: String,
}

impl View for GrowPost {
    type V = GrowPostView;

    open spec fn view(&self) -> GrowPostView {
        GrowPostView {
            fields: PostFields {
                title: self.title@,
                description: self.description@,
                keywords: texts(self.keywords@),
                lang: self.lang,
                text: self.text@,
            },
            author: self.author@,
            slug: self.slug@,
            published_at: self.published_at@,
        }
    }
}


impl Default for GrowPost {
    fn default() -> (post: GrowPost)
        ensures
            post@ == (GrowPostView {
                fields: PostFields::empty(),
                author: Seq::empty(),
                slug: Seq::empty(),
                published_at: 0,
            }),
    {
        let post = GrowPost {
            title: String::new(),
            author: String::new(),
            description: String::new(),
            keywords: Vec::new(),
            lang: Lang::Ru,
            published_at: Timestamp::default(),
            slug: String::new(),
            text: String::new(),
        };
        assert(texts(post.keywords@) =~= Seq::empty());
        post
    }
}

/// A kind of record, with the builder that makes it.
pub trait PostContent<B>: Sized {
    fn new() -> Self;

    fn builder() -> B where B: PostBuilder;
}

impl PostContent<DraftPostBuilder> for DraftPost {
    fn new() -> (draft: DraftPost)
        ensures
            draft@ == PostFields::empty(),
    {
        DraftPost::default()
    }

    fn builder() -> (builder: DraftPostBuilder)
        ensures
            builder@ == PostFields::empty(),
    {
        DraftPostBuilder::new()
    }
}

impl PostContent<GrowPostBuilder> for GrowPost {
    fn new() -> (post: GrowPost)
        ensures
            post@ == (GrowPostView {
                fields: PostFields::empty(),
                author: Seq::empty(),
                slug: Seq::empty(),
                published_at: 0,
            }),
    {
        GrowPost::default()
    }

    fn builder() -> (builder: GrowPostBuilder)
        ensures
            builder@ == crate::grow::builder::GrowBuilderView::empty(),
    {
        GrowPostBuilder::new()
    }
}

/// The slug that the crate `slug` derives from a title.
pub uninterp spec fn slug_text(title: Seq<char>) -> Seq<char>;

/// The scalar values that a slug is made of.
pub open spec fn is_slug_char(c: char) -> bool {
    'a' <= c <= 'z' || '0' <= c <= '9' || c == '-'
}

/// `s` is made of lower-case Latin letters, digits and hyphens, does not
/// start or end with a hyphen, and has no two hyphens in a row.
pub open spec fn is_slug(s: Seq<char>) -> bool {
    &&& forall|i: int| 0 <= i < s.len() ==> is_slug_char(#[trigger] s[i])
    &&& s.len() > 0 ==> s[0] != '-' && s[s.len() - 1] != '-'
    &&& forall|i: int| 0 <= i < s.len() - 1 ==> !(#[trigger] s[i] == '-' && s[i + 1] == '-')
}

/// `slug::slugify`. The slug depends on the title alone. As the crate
/// documents, it is made of `a` to `z`, `0` to `9` and `-`, never has two
/// `-` in a row, and never starts or ends with `-`.
#[verifier::external_body]
fn title_slug(title: &str) -> (slug: String)
    ensures
        slug@ == slug_text(title@),
        is_slug(slug@),
{
    slug::slugify(title)
}

/// The author of the records in the language `lang`.
pub open spec fn author_of(lang: Lang) -> Seq<char> {
    match lang {
        Lang::Ru => DEFAULT_AUTHOR@,
        Lang::En => DEFAULT_AUTHOR_EN@,
    }
}

/// A draft that was approved, as sequences of scalar values.
pub struct ApprovedPostView {
    pub fields: PostFields,
    pub author: Seq<char>,
    pub slug: Seq<char>,
}

/// A draft that was approved: it has its author and its slug.
#[derive(Debug, PartialEq, Eq)]
pub struct ApprovedPost {
    pub title: String,
    pub author: String,
    pub description: String,
    pub keywords: Vec<String>,
    pub lang: Lang,
    pub slug: String,
    pub text: String,
}

impl View for ApprovedPost {
    type V = ApprovedPostView;

    open spec fn view(&self) -> ApprovedPostView {
        ApprovedPostView {
            fields: PostFields {
                title: self.title@,
                description: self.description@,
                keywords: texts(self.keywords@),
                lang: self.lang,
                text: self.text@,
            },
            author: self.author@,
            slug: self.slug@,
        }
    }
}

impl Default for ApprovedPost {
    fn default() -> (post: ApprovedPost)
        ensures
            post@ == (ApprovedPostView {
                fields: PostFields::empty(),
                author: Seq::empty(),
                slug: Seq::empty(),
            }),
    {
        let post = ApprovedPost {
            title: String::new(),
            author: String::new(),
            description: String::new(),
            keywords: Vec::new(),
            lang: Lang::Ru,
            slug: String::new(),
            text: String::new(),
        };
        assert(texts(post.keywords@) =~= Seq::empty());
        post
    }
}

/// The bindings under which a draft is written out.
pub open spec fn draft_bindings(draft: PostFields) -> Seq<(Seq<char>, Seq<char>)> {
    seq![
        (TITLE_FIELD_NAME@, draft.title),
        (DESCRIPTION_FIELD_NAME@, draft.description),
        (LANGUAGE_FIELD_NAME@, lang_name(draft.lang)),
        (TEXT_FIELD_NAME@, draft.text),
        (KEYWORDS_FIELD_NAME@, join(draft.keywords, KEYWORDS_DELIMITER@)),
    ]
}

/// The keywords of `list`, with the delimiter between each two.
pub fn join_keywords(list: &Vec<String>) -> (out: String)
    ensures
        out@ == join(texts(list@), KEYWORDS_DELIMITER@),
{
    string_of(&join_text(&chars_of_each(list), &chars_of(KEYWORDS_DELIMITER)))
}

impl DraftPost {
    /// The bindings under which the draft is written out.
    pub fn as_hashmap(&self) -> (bindings: Vec<(&'static str, String)>)
        ensures
            bound(bindings@) == draft_bindings(self@),
    {
        let mut bindings: Vec<(&'static str, String)> = Vec::new();
        bindings.push((TITLE_FIELD_NAME, self.title.clone()));
        bindings.push((DESCRIPTION_FIELD_NAME, self.description.clone()));
        bindings.push((LANGUAGE_FIELD_NAME, self.lang.to_string()));
        bindings.push((TEXT_FIELD_NAME, self.text.clone()));
        bindings.push((KEYWORDS_FIELD_NAME, join_keywords(&self.keywords)));
        assert(bound(bindings@) =~= draft_bindings(self@));
        bindings
    }

    /// The draft as a document: the draft template, filled.
    pub fn to_string(&self) -> (out: String)
        ensures
            out@ == rendered(DRAFT_TEMPLATE@, draft_bindings(self@)),
    {
        process_template(DRAFT_TEMPLATE.to_owned(), self.as_hashmap())
    }

    /// The approved record with the slug `slug`: the fields of the draft, and
    /// the author that goes with its language.
    pub fn approve_as(&self, slug: String) -> (post: ApprovedPost)
        ensures
            post@ == (ApprovedPostView {
                fields: self@,
                author: author_of(self.lang),
                slug: slug@,
            }),
    {
        let author = match self.lang {
            Lang::Ru => DEFAULT_AUTHOR.to_owned(),
            Lang::En => DEFAULT_AUTHOR_EN.to_owned(),
        };
        ApprovedPost {
            title: self.title.clone(),
            author,
            slug,
            description: self.description.clone(),
            keywords: self.keywords.clone(),
            lang: self.lang,
            text: self.text.clone(),
        }
    }

    /// Approves the draft: the record has the fields of the draft, the author
    /// that goes with its language, and the slug of its title.
    pub fn approve(&self) -> (post: ApprovedPost)
        ensures
            post@ == (ApprovedPostView {
                fields: self@,
                author: author_of(self.lang),
                slug: slug_text(self.title@),
            }),
            is_slug(post.slug@),
    {
        self.approve_as(title_slug(self.title.as_str()))
    }
}

/// The record that an approved draft becomes when it is published at the
/// instant `published_at`. Each field is held to its rule once more.
pub open spec fn published(approved: ApprovedPostView, published_at: int) -> Result<
    GrowPostView,
    ErrorView,
> {
    match PostFields::empty().with_title(approved.fields.title) {
        Err(e) => Err(e),
        Ok(titled) => match titled.with_description(approved.fields.description) {
            Err(e) => Err(e),
            Ok(described) => match described.with_keywords(approved.fields.keywords) {
                Err(e) => Err(e),
                Ok(tagged) => match tagged.with_text(approved.fields.text) {
                    Err(e) => Err(e),
                    Ok(fields) => Ok(
                        GrowPostView {
                            fields: PostFields { lang: approved.fields.lang, ..fields },
                            author: approved.author,
                            slug: approved.slug,
                            published_at,
                        },
                    ),
                },
            },
        },
    }
}

impl ApprovedPost {
    /// The published record, with `published_at` as the instant of
    /// publication.
    pub fn to_grow_post_at(&self, published_at: Timestamp) -> (r: Result<GrowPost, Error>)
        ensures
            match r {
                Ok(post) => gives(published(self@, published_at@), post@),
                Err(e) => fails(published(self@, published_at@), e),
            },
    {
        let mut builder = GrowPostBuilder::new();
        builder.title(self.title.clone())?.description(self.description.clone())?.author(
            self.author.clone(),
        )?.keywords(self.keywords.clone())?.lang(self.lang)?.published_at(published_at)?.slug(
            self.slug.clone(),
        )?.text(self.text.clone())?;
        Ok(builder.build())
    }

    /// The published record, with the present instant as the instant of
    /// publication.
    pub fn to_grow_post(&self) -> (r: Result<GrowPost, Error>)
        ensures
            match r {
                Ok(post) => gives(published(self@, post@.published_at), post@),
                Err(e) => forall|at: int| fails(#[trigger] published(self@, at), e),
            },
    {
        self.to_grow_post_at(Timestamp::now())
    }
}

/// The path of the file of a record: under `posts_path`, in the directory of
/// its language, named by the date of publication, the slug and the
/// language.
pub open spec fn post_path(post: GrowPostView, posts_path: Seq<char>) -> Seq<char> {
    posts_path + "/"@ + lang_code(post.fields.lang) + "/"@ + formatted_time(
        post.published_at,
        ISO8601_DATE_FORMAT@,
    ) + "-"@ + post.slug + "@"@ + lang_code(post.fields.lang) + ".md"@
}

/// The bindings under which a published record is written out, `published`
/// being the instant of publication as text. The title of the document is
/// the slug of the record: the title that a reader sees is kept in the
/// translation catalog, under the slug.
pub open spec fn record_bindings(post: GrowPostView, published: Seq<char>) -> Seq<
    (Seq<char>, Seq<char>),
> {
    seq![
        (TITLE_FIELD_NAME@, post.slug),
        (AUTHOR_FIELD_NAME@, post.author),
        (DESCRIPTION_FIELD_NAME@, post.fields.description),
        (IMAGE_FIELD_NAME@, DEFAULT_IMAGE@),
        (LANGUAGE_FIELD_NAME@, lang_name(post.fields.lang)),
        (SLUG_FIELD_NAME@, post.slug),
        (TEXT_FIELD_NAME@, post.fields.text),
        (PUBLISHED_DATE_FIELD_NAME@, published),
        (KEYWORDS_FIELD_NAME@, join(post.fields.keywords, KEYWORDS_DELIMITER@)),
    ]
}

/// The bindings under which a published record is written out.
pub open spec fn post_bindings(post: GrowPostView) -> Seq<(Seq<char>, Seq<char>)> {
    record_bindings(post, formatted_time(post.published_at, ISO8601_DATE_TIME_FORMAT@))
}

impl GrowPost {
    /// The bindings under which the record is written out.
    pub fn as_hashmap(&self) -> (bindings: Vec<(&'static str, String)>)
        ensures
            bound(bindings@) == post_bindings(self@),
    {
        let mut bindings: Vec<(&'static str, String)> = Vec::new();
        bindings.push((TITLE_FIELD_NAME, self.slug.clone()));
        bindings.push((AUTHOR_FIELD_NAME, self.author.clone()));
        bindings.push((DESCRIPTION_FIELD_NAME, self.description.clone()));
        bindings.push((IMAGE_FIELD_NAME, DEFAULT_IMAGE.to_owned()));
        bindings.push((LANGUAGE_FIELD_NAME, self.lang.to_string()));
        bindings.push((SLUG_FIELD_NAME, self.slug.clone()));
        bindings.push((TEXT_FIELD_NAME, self.text.clone()));
        bindings.push((PUBLISHED_DATE_FIELD_NAME, self.published_at.date_time()));
        bindings.push((KEYWORDS_FIELD_NAME, join_keywords(&self.keywords)));
        assert(bound(bindings@) =~= post_bindings(self@));
        bindings
    }

    /// The record as a document: the record template, filled.
    pub fn to_string(&self) -> (out: String)
        ensures
            out@ == rendered(POST_TEMPLATE@, post_bindings(self@)),
    {
        process_template(POST_TEMPLATE.to_owned(), self.as_hashmap())
    }

    /// The path of the file of the record under `posts_path`.
    pub fn build_post_path(&self, posts_path: &str) -> (path: String)
        ensures
            path@ == post_path(self@, posts_path@),
    {
        let lang = chars_of(self.lang.to_lowercase().as_str());
        let mut path = chars_of(posts_path);
        path = concat(&path, &chars_of("/"));
        path = concat(&path, &lang);
        path = concat(&path, &chars_of("/"));
        path = concat(&path, &chars_of(self.published_at.date().as_str()));
        path = concat(&path, &chars_of("-"));
        path = concat(&path, &chars_of(self.slug.as_str()));
        path = concat(&path, &chars_of("@"));
        path = concat(&path, &lang);
        path = concat(&path, &chars_of(".md"));
        string_of(&path)
    }
}


/// One entry of a translation catalog: what a reader sees for an identifier.
#[derive(Debug, PartialEq, Eq, Clone)]
pub struct GrowPostTranslation {
    /// The identifier: the slug of a record.
    pub id: String,
    pub translated_value: String,
}

impl View for GrowPostTranslation {
    type V = (Seq<char>, Seq<char>);

    open spec fn view(&self) -> (Seq<char>, Seq<char>) {
        (self.id@, self.translated_value@)
    }
}

impl Default for GrowPostTranslation {
    fn default() -> (entry: GrowPostTranslation)
        ensures
            entry@ == (Seq::<char>::empty(), Seq::<char>::empty()),
    {
        GrowPostTranslation { id: String::new(), translated_value: String::new() }
    }
}

/// The views of a list of entries.
pub open spec fn entries(list: Seq<GrowPostTranslation>) -> Seq<(Seq<char>, Seq<char>)> {
    list.map_values(|t: GrowPostTranslation| t@)
}

/// What opens the line of an identifier in a catalog.
pub open spec fn id_opening() -> Seq<char> {
    TRANSLATION_ID_FIELD@ + seq![' ', '"']
}

/// What opens the line of a value in a catalog.
pub open spec fn value_opening() -> Seq<char> {
    TRANSLATION_VALUE_FIELD@ + seq![' ', '"']
}

/// The index of the last `"` of `text` between `from` and `to`, or -1.
pub open spec fn last_quote(text: Seq<char>, from: int, to: int) -> int
    decreases to - from,
{
    if to <= from || to > text.len() || from < 0 {
        -1
    } else if text[to - 1] == '"' {
        to - 1
    } else {
        last_quote(text, from, to - 1)
    }
}

/// The index at which the line that holds index `from` ends.
pub open spec fn line_end(text: Seq<char>, from: int) -> int {
    let i = find_from(text, seq![LF], from);
    if i < 0 {
        text.len() as int
    } else {
        i
    }
}

/// The catalog entry that starts at index `p` of `text`, and the index at
/// which it ends. An entry is two lines. The first holds `msgid "`, the
/// identifier, and `"` at its end. The second starts with `msgstr "`; the
/// value goes up to the last `"` of that line.
pub open spec fn entry_at(text: Seq<char>, p: int) -> Option<(Seq<char>, Seq<char>, int)> {
    let id_start = p + id_opening().len();
    let id_line = find_from(text, seq![LF], id_start);
    let value_start = id_line + 1 + value_opening().len();
    let close = last_quote(text, value_start, line_end(text, value_start));
    if occurs_at(text, id_opening(), p) && id_line > id_start && text[id_line - 1] == '"'
        && occurs_at(text, value_opening(), id_line + 1) && close >= value_start {
        Some((text.subrange(id_start, id_line - 1), text.subrange(value_start, close), close + 1))
    } else {
        None
    }
}

/// The entries of the catalog `text` from index `p` on: each time the first
/// one that starts at or after the end of the one before.
pub open spec fn entries_from(text: Seq<char>, p: int) -> Seq<(Seq<char>, Seq<char>)>
    decreases text.len() - p,
{
    if p < 0 || p >= text.len() {
        Seq::empty()
    } else {
        match entry_at(text, p) {
            Some((id, value, end)) => if p < end <= text.len() {
                seq![(id, value)] + entries_from(text, end)
            } else {
                Seq::empty()
            },
            None => entries_from(text, p + 1),
        }
    }
}

/// The value that the catalog `catalog` gives for the identifier `id`: that
/// of the last entry with this identifier.
pub open spec fn translation_of(catalog: Seq<(Seq<char>, Seq<char>)>, id: Seq<char>) -> Option<
    Seq<char>,
> {
    last_value(catalog, id)
}

fn find_last_quote(text: &Vec<char>, from: usize, to: usize) -> (r: Option<usize>)
    requires
        from <= to <= text.len(),
    ensures
        match r {
            Some(i) => last_quote(text@, from as int, to as int) == i && from <= i < to,
            None => last_quote(text@, from as int, to as int) == -1,
        },
{
    let mut j: usize = to;
    while j > from
        invariant
            from <= j <= to <= text.len(),
            last_quote(text@, from as int, to as int) == last_quote(text@, from as int, j as int),
        decreases j,
    {
        if text[j - 1] == '"' {
            return Some(j - 1);
        }
        j -= 1;
    }
    None
}

fn entry(
    text: &Vec<char>,
    p: usize,
    id_open: &Vec<char>,
    value_open: &Vec<char>,
    newline: &Vec<char>,
) -> (r: Option<(Vec<char>, Vec<char>, usize)>)
    requires
        id_open@ == id_opening(),
        value_open@ == value_opening(),
        newline@ == seq![LF],
    ensures
        match r {
            Some((id, value, end)) => entry_at(text@, p as int) == Some((id@, value@, end as int))
                && p < end <= text.len(),
            None => entry_at(text@, p as int).is_none(),
        },
{
    let size: usize = text.len();
    if !occurs(text, id_open, p) {
        return None;
    }
    assert(p + id_open.len() <= size);
    let id_start: usize = p + id_open.len();
    proof {
        lemma_find_from(text@, newline@, id_start as int);
        reveal_strlit("msgid");
        reveal_strlit("msgstr");
    }
    let id_line: usize = match find(text, newline, id_start) {
        Some(i) => i,
        None => {
            return None;
        },
    };
    assert(id_line + 1 <= size);
    if id_line <= id_start || text[id_line - 1] != '"' {
        return None;
    }
    if !occurs(text, value_open, id_line + 1) {
        return None;
    }
    let value_start: usize = id_line + 1 + value_open.len();
    proof {
        lemma_find_from(text@, newline@, value_start as int);
    }
    let value_line: usize = match find(text, newline, value_start) {
        Some(i) => i,
        None => text.len(),
    };
    match find_last_quote(text, value_start, value_line) {
        Some(close) => Some(
            (slice(text, id_start, id_line - 1), slice(text, value_start, close), close + 1),
        ),
        None => None,
    }
}

impl GrowPostTranslation {
    /// An entry of which nothing has been set yet.
    pub fn new() -> (entry: GrowPostTranslation)
        ensures
            entry@ == (Seq::<char>::empty(), Seq::<char>::empty()),
    {
        GrowPostTranslation::default()
    }

    /// The entries of a catalog, in the order in which they stand in it.
    pub fn get_translations(content: &str) -> (list: Vec<GrowPostTranslation>)
        ensures
            entries(list@) == entries_from(content@, 0),
    {
        let text = chars_of(content);
        let id_open = concat(&chars_of(TRANSLATION_ID_FIELD), &chars_of(" \""));
        let value_open = concat(&chars_of(TRANSLATION_VALUE_FIELD), &chars_of(" \""));
        let mut newline: Vec<char> = Vec::new();
        newline.push(LF);
        proof {
            reveal_strlit(" \"");
            assert(id_open@ =~= id_opening());
            assert(value_open@ =~= value_opening());
            assert(newline@ =~= seq![LF]);
        }
        let mut list: Vec<GrowPostTranslation> = Vec::new();
        let mut p: usize = 0;
        assert(entries(list@) =~= Seq::empty());
        while p < text.len()
            invariant
                text@ == content@,
                id_open@ == id_opening(),
                value_open@ == value_opening(),
                newline@ == seq![LF],
                entries_from(content@, 0) == entries(list@) + entries_from(content@, p as int),
            decreases text.len() - p,
        {
            match entry(&text, p, &id_open, &value_open, &newline) {
                Some((id, value, end)) => {
                    let ghost before = entries(list@);
                    list.push(
                        GrowPostTranslation {
                            id: string_of(&id),
                            translated_value: string_of(&value),
                        },
                    );
                    assert(entries(list@) =~= before.push((id@, value@)));
                    assert(entries_from(content@, 0) =~= entries(list@) + entries_from(
                        content@,
                        end as int,
                    ));
                    p = end;
                },
                None => {
                    p += 1;
                },
            }
        }
        assert(entries(list@) + Seq::empty() =~= entries(list@));
        list
    }

    /// The entry as it stands in a catalog: the entry template, filled.
    pub fn to_string(&self) -> (out: String)
        ensures
            out@ == rendered(
                TRANSLATION_TEMPLATE@,
                seq![("id"@, self.id@), ("value"@, self.translated_value@)],
            ),
    {
        let mut bindings: Vec<(&'static str, String)> = Vec::new();
        bindings.push(("id", self.id.clone()));
        bindings.push(("value", self.translated_value.clone()));
        assert(bound(bindings@) =~= seq![("id"@, self.id@), ("value"@, self.translated_value@)]);
        process_template(TRANSLATION_TEMPLATE.to_owned(), bindings)
    }

    /// The value that `catalog` gives for the identifier `id`: that of the
    /// last entry with this identifier.
    pub fn find(catalog: &Vec<GrowPostTranslation>, id: &str) -> (r: Option<String>)
        ensures
            match r {
                Some(value) => translation_of(entries(catalog@), id@) == Some(value@),
                None => translation_of(entries(catalog@), id@).is_none(),
            },
    {
        let wanted = chars_of(id);
        let mut i: usize = catalog.len();
        assert(entries(catalog@).take(i as int) =~= entries(catalog@));
        while i > 0
            invariant
                i <= catalog.len(),
                wanted@ == id@,
                translation_of(entries(catalog@), id@) == translation_of(
                    entries(catalog@).take(i as int),
                    id@,
                ),
            decreases i,
        {
            proof {
                assert(entries(catalog@).take(i as int).drop_last() =~= entries(catalog@).take(
                    i - 1,
                ));
            }
            if same(&chars_of(catalog[i - 1].id.as_str()), &wanted) {
                return Some(catalog[i - 1].translated_value.clone());
            }
            i -= 1;
        }
        None
    }
}

/// The records that the documents `documents` hold, each in the language
/// `lang`. The first document that cannot be read ends it.
pub open spec fn posts_of(documents: Seq<Seq<char>>, lang: Lang) -> Result<
    Seq<GrowPostView>,
    ErrorView,
>
    decreases documents.len(),
{
    if documents.len() == 0 {
        Ok(Seq::empty())
    } else {
        match posts_of(documents.drop_last(), lang) {
            Err(e) => Err(e),
            Ok(posts) => match grow_post_of(documents.last()) {
                Err(e) => Err(e),
                Ok(post) => Ok(
                    posts.push(
                        GrowPostView { fields: PostFields { lang, ..post.fields }, ..post },
                    ),
                ),
            },
        }
    }
}

/// Once the first `n` documents have failed, all of them fail in the same
/// way.
pub proof fn lemma_posts_of_fails(documents: Seq<Seq<char>>, lang: Lang, n: int)
    requires
        0 <= n <= documents.len(),
        posts_of(documents.take(n), lang).is_err(),
    ensures
        posts_of(documents, lang) == posts_of(documents.take(n), lang),
    decreases documents.len() - n,
{
    if n < documents.len() {
        assert(documents.take(n + 1).drop_last() =~= documents.take(n));
        lemma_posts_of_fails(documents, lang, n + 1);
    } else {
        assert(documents.take(n) =~= documents);
    }
}

/// The views of a list of records.
pub open spec fn posts(list: Seq<GrowPost>) -> Seq<GrowPostView> {
    list.map_values(|p: GrowPost| p@)
}

impl GrowPost {
    /// Reads the records of one language, one from each document.
    pub fn get_posts_by_lang(documents: &Vec<String>, lang: Lang) -> (r: Result<
        Vec<GrowPost>,
        Error,
    >)
        ensures
            match r {
                Ok(list) => gives(posts_of(texts(documents@), lang), posts(list@)),
                Err(e) => fails(posts_of(texts(documents@), lang), e),
            },
    {
        let mut list: Vec<GrowPost> = Vec::new();
        let mut i: usize = 0;
        assert(posts(list@) =~= Seq::empty());
        while i < documents.len()
            invariant
                i <= documents.len(),
                gives(posts_of(texts(documents@).take(i as int), lang), posts(list@)),
            decreases documents.len() - i,
        {
            proof {
                assert(texts(documents@).take(i + 1).drop_last() =~= texts(documents@).take(
                    i as int,
                ));
            }
            match GrowPost::deserialize(documents[i].as_str()) {
                Ok(post) => {
                    let mut post = post;
                    post.lang = lang;
                    let ghost before = posts(list@);
                    list.push(post);
                    assert(posts(list@) =~= before.push(post@));
                },
                Err(e) => {
                    proof {
                        lemma_posts_of_fails(texts(documents@), lang, i + 1);
                    }
                    return Err(e);
                },
            }
            i += 1;
        }
        assert(texts(documents@).take(documents.len() as int) =~= texts(documents@));
        Ok(list)
    }
}


impl DraftPost {
    /// A draft of which nothing has been set yet.
    pub fn new() -> (draft: DraftPost)
        ensures
            draft@ == PostFields::empty(),
    {
        DraftPost::default()
    }

    /// Sets the title, held to its rule.
    pub fn title(&mut self, title: &str) -> (r: Result<&mut DraftPost, Error>)
        ensures
            match r {
                Ok(draft) => gives(old(self)@.with_title(title@), draft@)
                    && *final(self) == *final(draft),
                Err(e) => fails(old(self)@.with_title(title@), e)
                    && *final(self) == *old(self),
            },
    {
        match check_line(title, TITLE_FIELD_NAME, MAX_CHARS_IN_TITLE) {
            Ok(value) => {
                self.title = value;
                Ok(self)
            },
            Err(e) => Err(e),
        }
    }

    /// Sets the description, held to its rule.
    pub fn description(&mut self, description: &str) -> (r: Result<&mut DraftPost, Error>)
        ensures
            match r {
                Ok(draft) => gives(old(self)@.with_description(description@), draft@)
                    && *final(self) == *final(draft),
                Err(e) => fails(old(self)@.with_description(description@), e)
                    && *final(self) == *old(self),
            },
    {
        match check_line(description, DESCRIPTION_FIELD_NAME, MAX_CHARS_IN_DESCRIPTION) {
            Ok(value) => {
                self.description = value;
                Ok(self)
            },
            Err(e) => Err(e),
        }
    }

    /// Sets the keywords, held to their rule.
    pub fn keywords(&mut self, keywords: Vec<String>) -> (r: Result<&mut DraftPost, Error>)
        ensures
            match r {
                Ok(draft) => gives(old(self)@.with_keywords(texts(keywords@)), draft@)
                    && *final(self) == *final(draft),
                Err(e) => fails(old(self)@.with_keywords(texts(keywords@)), e)
                    && *final(self) == *old(self),
            },
    {
        match check_keywords(&keywords) {
            Ok(value) => {
                self.keywords = value;
                Ok(self)
            },
            Err(e) => Err(e),
        }
    }

    /// Sets the keywords that `keywords` lists, cut at each `delimiter`.
    pub fn keywords_as_str(&mut self, keywords: &str, delimiter: &str) -> (r: Result<
        &mut DraftPost,
        Error,
    >)
        ensures
            match r {
                Ok(draft) => gives(old(self)@.with_keywords(split(keywords@, delimiter@)), draft@)
                    && *final(self) == *final(draft),
                Err(e) => fails(old(self)@.with_keywords(split(keywords@, delimiter@)), e)
                    && *final(self) == *old(self),
            },
    {
        let list = split_keywords(keywords, delimiter);
        self.keywords(list)
    }

    /// Sets the language.
    pub fn lang(&mut self, lang: Lang) -> (draft: &mut DraftPost)
        ensures
            draft@ == (PostFields { lang, ..old(self)@ }),
            *final(self) == *final(draft),
    {
        self.lang = lang;
        self
    }

    /// Sets the body, held to its rule.
    pub fn content(&mut self, content: &str) -> (r: Result<&mut DraftPost, Error>)
        ensures
            match r {
                Ok(draft) => gives(old(self)@.with_text(content@), draft@)
                    && *final(self) == *final(draft),
                Err(e) => fails(old(self)@.with_text(content@), e)
                    && *final(self) == *old(self),
            },
    {
        match check_text(content) {
            Ok(value) => {
                self.text = value;
                Ok(self)
            },
            Err(e) => Err(e),
        }
    }
}

} // verus!
