//! The fields that every record has, and the rules that each must meet.

use vstd::prelude::*;
use crate::command::{fails, gives, text_outcome, Error, ErrorView};
use crate::grow::lang::Lang;
use crate::grow::post::{DraftPost, GrowPost, GrowPostView};
use crate::grow::time::{parsed_time, Timestamp};
use crate::grow::{
    DESCRIPTION_FIELD_NAME, ISO8601_DATE_TIME_FORMAT, KEYWORDS_DELIMITER, KEYWORDS_FIELD_NAME,
    MAX_CHARS_IN_DESCRIPTION, MAX_CHARS_IN_TITLE, MAX_KEYWORDS_COUNT, TEXT_FIELD_NAME,
    TITLE_FIELD_NAME,
};
use crate::text::{
    chars_of, chars_of_each, join, join_text, split, split_text, string_of, strings_of_each,
    texts, trim, trimmed, views,
};

verus! {

/// What `raw` is stored as in a field that holds one line of at most `limit`
/// scalar values less one: `raw` without the whitespace around it, unless
/// nothing is left of it or it is too long.
pub open spec fn checked_line(raw: Seq<char>, name: Seq<char>, limit: nat) -> Result<
    Seq<char>,
    ErrorView,
> {
    let value = trimmed(raw);
    if value.len() == 0 {
        Err(ErrorView::EmptyValue(name))
    } else if value.len() >= limit {
        Err(ErrorView::ValueTooLong(name, value, limit))
    } else {
        Ok(value)
    }
}

/// What `raw` is stored as in the title.
pub open spec fn checked_title(raw: Seq<char>) -> Result<Seq<char>, ErrorView> {
    checked_line(raw, TITLE_FIELD_NAME@, MAX_CHARS_IN_TITLE as nat)
}

/// What `raw` is stored as in the description.
pub open spec fn checked_description(raw: Seq<char>) -> Result<Seq<char>, ErrorView> {
    checked_line(raw, DESCRIPTION_FIELD_NAME@, MAX_CHARS_IN_DESCRIPTION as nat)
}

/// What `raw` is stored as in the body: `raw` without the whitespace around
/// it, unless nothing is left of it.
pub open spec fn checked_text(raw: Seq<char>) -> Result<Seq<char>, ErrorView> {
    let value = trimmed(raw);
    if value.len() == 0 {
        Err(ErrorView::EmptyValue(TEXT_FIELD_NAME@))
    } else {
        Ok(value)
    }
}

/// What the list `raw` is stored as in the keywords: each keyword without the
/// whitespace around it, in the order given, unless the list is empty or has
/// too many.
pub open spec fn checked_keywords(raw: Seq<Seq<char>>) -> Result<Seq<Seq<char>>, ErrorView> {
    if raw.len() == 0 {
        Err(ErrorView::EmptyValue(KEYWORDS_FIELD_NAME@))
    } else if raw.len() > MAX_KEYWORDS_COUNT {
        Err(
            ErrorView::ValueTooLong(
                KEYWORDS_FIELD_NAME@,
                join(raw, KEYWORDS_DELIMITER@),
                MAX_KEYWORDS_COUNT as nat,
            ),
        )
    } else {
        Ok(raw.map_values(|k: Seq<char>| trimmed(k)))
    }
}

/// A title is accepted when, without the whitespace around it, it has at
/// least one scalar value and fewer than the limit; it is refused, with its
/// name, its value and the limit, when it has as many as the limit or more.
pub proof fn lemma_title_boundary(raw: Seq<char>)
    ensures
        0 < trimmed(raw).len() < MAX_CHARS_IN_TITLE ==> gives(checked_title(raw), trimmed(raw)),
        trimmed(raw).len() >= MAX_CHARS_IN_TITLE ==> checked_title(raw) == Err::<
            Seq<char>,
            ErrorView,
        >(ErrorView::ValueTooLong(TITLE_FIELD_NAME@, trimmed(raw), MAX_CHARS_IN_TITLE as nat)),
        trimmed(raw).len() == 0 ==> checked_title(raw) == Err::<Seq<char>, ErrorView>(
            ErrorView::EmptyValue(TITLE_FIELD_NAME@),
        ),
{
}

/// A list of keywords is accepted when it has at least one keyword and at
/// most as many as the limit; it is refused when it has more.
pub proof fn lemma_keywords_boundary(raw: Seq<Seq<char>>)
    ensures
        0 < raw.len() <= MAX_KEYWORDS_COUNT ==> checked_keywords(raw) is Ok,
        raw.len() > MAX_KEYWORDS_COUNT ==> checked_keywords(raw) == Err::<
            Seq<Seq<char>>,
            ErrorView,
        >(
            ErrorView::ValueTooLong(
                KEYWORDS_FIELD_NAME@,
                join(raw, KEYWORDS_DELIMITER@),
                MAX_KEYWORDS_COUNT as nat,
            ),
        ),
        raw.len() == 0 ==> checked_keywords(raw) == Err::<Seq<Seq<char>>, ErrorView>(
            ErrorView::EmptyValue(KEYWORDS_FIELD_NAME@),
        ),
{
}

/// The outcome `r`, with its keywords as sequences of scalar values.
pub open spec fn list_outcome(r: Result<Vec<String>, Error>) -> Result<
    Seq<Seq<char>>,
    ErrorView,
> {
    match r {
        Ok(list) => Ok(texts(list@)),
        Err(e) => Err(e@),
    }
}

/// Holds `raw` to the rule of a field of one line: what it is stored as, or why
/// it is refused, the field being named `name`.
pub fn check_line(raw: &str, name: &str, limit: usize) -> (r: Result<String, Error>)
    ensures
        text_outcome(r) == checked_line(raw@, name@, limit as nat),
{
    let value = trim(&chars_of(raw));
    if value.len() == 0 {
        return Err(Error::EmptyValue(name.to_owned()));
    }
    if value.len() >= limit {
        return Err(Error::ValueTooLong(name.to_owned(), string_of(&value), limit));
    }
    Ok(string_of(&value))
}

/// Holds `raw` to the rule of the body: what it is stored as, or why it is
/// refused.
pub fn check_text(raw: &str) -> (r: Result<String, Error>)
    ensures
        text_outcome(r) == checked_text(raw@),
{
    let value = trim(&chars_of(raw));
    if value.len() == 0 {
        return Err(Error::EmptyValue(TEXT_FIELD_NAME.to_owned()));
    }
    Ok(string_of(&value))
}

/// Holds `raw` to the rule of the keywords: what they are stored as, or why
/// they are refused.
pub fn check_keywords(raw: &Vec<String>) -> (r: Result<Vec<String>, Error>)
    ensures
        list_outcome(r) == checked_keywords(texts(raw@)),
{
    if raw.len() == 0 {
        return Err(Error::EmptyValue(KEYWORDS_FIELD_NAME.to_owned()));
    }
    let pieces = chars_of_each(raw);
    if raw.len() > MAX_KEYWORDS_COUNT {
        let joined = join_text(&pieces, &chars_of(KEYWORDS_DELIMITER));
        return Err(
            Error::ValueTooLong(
                KEYWORDS_FIELD_NAME.to_owned(),
                string_of(&joined),
                MAX_KEYWORDS_COUNT,
            ),
        );
    }
    let mut out: Vec<String> = Vec::new();
    let mut i: usize = 0;
    while i < pieces.len()
        invariant
            i <= pieces.len(),
            pieces.len() == raw.len(),
            views(pieces@) == texts(raw@),
            texts(out@) == texts(raw@).map_values(|k: Seq<char>| trimmed(k)).take(i as int),
        decreases pieces.len() - i,
    {
        let ghost before = texts(out@);
        let keyword = trim(&pieces[i]);
        out.push(string_of(&keyword));
        assert(pieces@[i as int]@ == views(pieces@)[i as int]);
        assert(texts(out@) =~= before.push(trimmed(texts(raw@)[i as int])));
        i += 1;
        assert(texts(raw@).map_values(|k: Seq<char>| trimmed(k)).take(i as int) =~= texts(
            raw@,
        ).map_values(|k: Seq<char>| trimmed(k)).take(i - 1).push(trimmed(texts(raw@)[i - 1])));
    }
    assert(texts(raw@).map_values(|k: Seq<char>| trimmed(k)).take(raw.len() as int) =~= texts(
        raw@,
    ).map_values(|k: Seq<char>| trimmed(k)));
    Ok(out)
}

/// The keywords that the text `raw` lists, cut at each `delimiter`.
pub fn split_keywords(raw: &str, delimiter: &str) -> (out: Vec<String>)
    ensures
        texts(out@) == split(raw@, delimiter@),
{
    let pieces = split_text(&chars_of(raw), &chars_of(delimiter));
    strings_of_each(&pieces)
}


/// The fields that every record has, as sequences of scalar values.
pub struct PostFields {
    pub title: Seq<char>,
    pub description: Seq<char>,
    pub keywords: Seq<Seq<char>>,
    pub lang: Lang,
    pub text: Seq<char>,
}

impl PostFields {
    /// The fields of a record of which nothing has been set yet.
    pub open spec fn empty() -> PostFields {
        PostFields {
            title: Seq::empty(),
            description: Seq::empty(),
            keywords: Seq::empty(),
            lang: Lang::Ru,
            text: Seq::empty(),
        }
    }

    /// The fields after a title was offered.
    pub open spec fn with_title(self, raw: Seq<char>) -> Result<PostFields, ErrorView> {
        match checked_title(raw) {
            Ok(title) => Ok(PostFields { title, ..self }),
            Err(e) => Err(e),
        }
    }

    /// The fields after a description was offered.
    pub open spec fn with_description(self, raw: Seq<char>) -> Result<PostFields, ErrorView> {
        match checked_description(raw) {
            Ok(description) => Ok(PostFields { description, ..self }),
            Err(e) => Err(e),
        }
    }

    /// The fields after a list of keywords was offered.
    pub open spec fn with_keywords(self, raw: Seq<Seq<char>>) -> Result<PostFields, ErrorView> {
        match checked_keywords(raw) {
            Ok(keywords) => Ok(PostFields { keywords, ..self }),
            Err(e) => Err(e),
        }
    }

    /// The fields after a body was offered.
    pub open spec fn with_text(self, raw: Seq<char>) -> Result<PostFields, ErrorView> {
        match checked_text(raw) {
            Ok(text) => Ok(PostFields { text, ..self }),
            Err(e) => Err(e),
        }
    }

    /// Every field meets its rule.
    pub open spec fn valid(self) -> bool {
        &&& gives(checked_title(self.title), self.title)
        &&& gives(checked_description(self.description), self.description)
        &&& gives(checked_keywords(self.keywords), self.keywords)
        &&& gives(checked_text(self.text), self.text)
    }
}

/// The fields that every record has.
#[derive(Debug, PartialEq, Eq, Clone)]
pub struct BasePost {
    title: String,
    description: String,
    keywords: Vec<String>,
    lang: Lang,
    text: String,
}

impl View for BasePost {
    type V = PostFields;

    closed spec fn view(&self) -> PostFields {
        PostFields {
            title: self.title@,
            description: self.description@,
            keywords: texts(self.keywords@),
            lang: self.lang,
            text: self.text@,
        }
    }
}

impl Default for BasePost {
    fn default() -> (base: BasePost)
        ensures
            base@ == PostFields::empty(),
    {
        let base = BasePost {
            title: String::new(),
            description: String::new(),
            keywords: Vec::new(),
            lang: Lang::Ru,
            text: String::new(),
        };
        assert(texts(base.keywords@) =~= Seq::empty());
        base
    }
}

/// Whether a step on the fields `before` ended as `outcome` says, the new
/// fields being `after` where it went well and `before` where it did not.
pub open spec fn stepped(
    outcome: Result<PostFields, ErrorView>,
    before: PostFields,
    after: PostFields,
    error: Option<Error>,
) -> bool {
    match error {
        None => gives(outcome, after),
        Some(e) => fails(outcome, e) && after == before,
    }
}

impl BasePost {
    fn set_title(&mut self, title: &str) -> (r: Result<(), Error>)
        ensures
            stepped(old(self)@.with_title(title@), old(self)@, final(self)@, r.err()),
    {
        match check_line(title, TITLE_FIELD_NAME, MAX_CHARS_IN_TITLE) {
            Ok(value) => {
                self.title = value;
                Ok(())
            },
            Err(e) => Err(e),
        }
    }

    fn set_description(&mut self, description: &str) -> (r: Result<(), Error>)
        ensures
            stepped(
                old(self)@.with_description(description@),
                old(self)@,
                final(self)@,
                r.err(),
            ),
    {
        match check_line(description, DESCRIPTION_FIELD_NAME, MAX_CHARS_IN_DESCRIPTION) {
            Ok(value) => {
                self.description = value;
                Ok(())
            },
            Err(e) => Err(e),
        }
    }

    fn set_keywords(&mut self, keywords: &Vec<String>) -> (r: Result<(), Error>)
        ensures
            stepped(
                old(self)@.with_keywords(texts(keywords@)),
                old(self)@,
                final(self)@,
                r.err(),
            ),
    {
        match check_keywords(keywords) {
            Ok(value) => {
                self.keywords = value;
                Ok(())
            },
            Err(e) => Err(e),
        }
    }

    fn set_text(&mut self, text: &str) -> (r: Result<(), Error>)
        ensures
            stepped(old(self)@.with_text(text@), old(self)@, final(self)@, r.err()),
    {
        match check_text(text) {
            Ok(value) => {
                self.text = value;
                Ok(())
            },
            Err(e) => Err(e),
        }
    }
}


/// Marks the types that build a record field by field.
pub trait PostBuilder {

}

/// Builds a [`DraftPost`] field by field, each field held to its rule.
pub struct DraftPostBuilder {
    draft: BasePost,
}

impl PostBuilder for DraftPostBuilder {

}

impl View for DraftPostBuilder {
    type V = PostFields;

    closed spec fn view(&self) -> PostFields {
        self.draft@
    }
}

impl Default for DraftPostBuilder {
    fn default() -> (builder: DraftPostBuilder)
        ensures
            builder@ == PostFields::empty(),
    {
        DraftPostBuilder { draft: BasePost::default() }
    }
}

impl DraftPostBuilder {
    /// A builder of which nothing has been set yet.
    pub fn new() -> (builder: DraftPostBuilder)
        ensures
            builder@ == PostFields::empty(),
    {
        DraftPostBuilder { draft: BasePost::default() }
    }

    /// Sets the title: one line, not empty, shorter than the limit.
    pub fn title(&mut self, title: String) -> (r: Result<&mut DraftPostBuilder, Error>)
        ensures
            match r {
                Ok(b) => gives(old(self)@.with_title(title@), b@)
                    && *final(self) == *final(b),
                Err(e) => fails(old(self)@.with_title(title@), e)
                    && final(self)@ == old(self)@,
            },
    {
        match self.draft.set_title(title.as_str()) {
            Ok(()) => Ok(self),
            Err(e) => Err(e),
        }
    }

    /// Sets the description: one line, not empty, shorter than the limit.
    pub fn description(&mut self, description: String) -> (r: Result<&mut DraftPostBuilder, Error>)
        ensures
            match r {
                Ok(b) => gives(old(self)@.with_description(description@), b@)
                    && *final(self) == *final(b),
                Err(e) => fails(old(self)@.with_description(description@), e)
                    && final(self)@ == old(self)@,
            },
    {
        match self.draft.set_description(description.as_str()) {
            Ok(()) => Ok(self),
            Err(e) => Err(e),
        }
    }

    /// Sets the keywords: one at least, and no more than the limit.
    pub fn keywords(&mut self, keywords: Vec<String>) -> (r: Result<&mut DraftPostBuilder, Error>)
        ensures
            match r {
                Ok(b) => gives(old(self)@.with_keywords(texts(keywords@)), b@)
                    && *final(self) == *final(b),
                Err(e) => fails(old(self)@.with_keywords(texts(keywords@)), e)
                    && final(self)@ == old(self)@,
            },
    {
        match self.draft.set_keywords(&keywords) {
            Ok(()) => Ok(self),
            Err(e) => Err(e),
        }
    }

    /// Sets the keywords that `keywords` lists, cut at each `delimiter`.
    pub fn keywords_as_str(&mut self, keywords: String, delimiter: &str) -> (r: Result<
        &mut DraftPostBuilder,
        Error,
    >)
        ensures
            match r {
                Ok(b) => gives(old(self)@.with_keywords(split(keywords@, delimiter@)), b@)
                    && *final(self) == *final(b),
                Err(e) => fails(old(self)@.with_keywords(split(keywords@, delimiter@)), e)
                    && final(self)@ == old(self)@,
            },
    {
        let list = split_keywords(keywords.as_str(), delimiter);
        self.keywords(list)
    }

    /// Sets the language.
    pub fn lang(&mut self, lang: Lang) -> (r: Result<&mut DraftPostBuilder, Error>)
        ensures
            match r {
                Ok(b) => b@ == (PostFields { lang, ..old(self)@ }) && *final(self) == *final(b),
                Err(_) => false,
            },
    {
        self.draft.lang = lang;
        Ok(self)
    }

    /// Sets the body, which is not empty.
    pub fn text(&mut self, text: String) -> (r: Result<&mut DraftPostBuilder, Error>)
        ensures
            match r {
                Ok(b) => gives(old(self)@.with_text(text@), b@)
                    && *final(self) == *final(b),
                Err(e) => fails(old(self)@.with_text(text@), e)
                    && final(self)@ == old(self)@,
            },
    {
        match self.draft.set_text(text.as_str()) {
            Ok(()) => Ok(self),
            Err(e) => Err(e),
        }
    }

    /// The draft with the fields as they stand.
    pub fn build(&self) -> (draft: DraftPost)
        ensures
            draft@ == self@,
    {
        DraftPost {
            title: self.draft.title.clone(),
            description: self.draft.description.clone(),
            keywords: self.draft.keywords.clone(),
            lang: self.draft.lang,
            text: self.draft.text.clone(),
        }
    }
}


/// What a [`GrowPostBuilder`] holds, as sequences of scalar values.
pub struct GrowBuilderView {
    pub fields: PostFields,
    pub author: Seq<char>,
    pub image: Seq<char>,
    pub slug: Seq<char>,
    pub published_at: int,
    pub post_path: Seq<char>,
    pub translation_path: Seq<char>,
}

/// Builds a [`GrowPost`] field by field, each field held to its rule.
pub struct GrowPostBuilder {
    base_post: BasePost,
    author: String,
    image: String,
    slug: String,
    published_at: Timestamp,
    post_path: String,
    translation_path: String,
}

impl PostBuilder for GrowPostBuilder {

}

impl View for GrowPostBuilder {
    type V = GrowBuilderView;

    closed spec fn view(&self) -> GrowBuilderView {
        GrowBuilderView {
            fields: self.base_post@,
            author: self.author@,
            image: self.image@,
            slug: self.slug@,
            published_at: self.published_at@,
            post_path: self.post_path@,
            translation_path: self.translation_path@,
        }
    }
}

impl GrowBuilderView {
    /// What a builder holds of which nothing has been set yet.
    pub open spec fn empty() -> GrowBuilderView {
        GrowBuilderView {
            fields: PostFields::empty(),
            author: Seq::empty(),
            image: Seq::empty(),
            slug: Seq::empty(),
            published_at: 0,
            post_path: Seq::empty(),
            translation_path: Seq::empty(),
        }
    }
}

impl Default for GrowPostBuilder {
    fn default() -> (builder: GrowPostBuilder)
        ensures
            builder@ == GrowBuilderView::empty(),
    {
        GrowPostBuilder {
            base_post: BasePost::default(),
            author: String::new(),
            image: String::new(),
            slug: String::new(),
            published_at: Timestamp::default(),
            post_path: String::new(),
            translation_path: String::new(),
        }
    }
}

impl GrowPostBuilder {
    /// A builder of which nothing has been set yet.
    pub fn new() -> (builder: GrowPostBuilder)
        ensures
            builder@ == GrowBuilderView::empty(),
    {
        GrowPostBuilder::default()
    }

    /// Sets the path of the record.
    pub fn post_path(&mut self, post_path: String) -> (r: Result<&mut GrowPostBuilder, Error>)
        ensures
            match r {
                Ok(b) => b@ == (GrowBuilderView { post_path: post_path@, ..old(self)@ })
                    && *final(self) == *final(b),
                Err(_) => false,
            },
    {
        self.post_path = post_path;
        Ok(self)
    }

    /// Sets the path of the translation catalog.
    pub fn translation_path(&mut self, translation_path: String) -> (r: Result<
        &mut GrowPostBuilder,
        Error,
    >)
        ensures
            match r {
                Ok(b) => b@ == (GrowBuilderView {
                    translation_path: translation_path@,
                    ..old(self)@
                }) && *final(self) == *final(b),
                Err(_) => false,
            },
    {
        self.translation_path = translation_path;
        Ok(self)
    }

    /// Sets the author.
    pub fn author(&mut self, author: String) -> (r: Result<&mut GrowPostBuilder, Error>)
        ensures
            match r {
                Ok(b) => b@ == (GrowBuilderView { author: author@, ..old(self)@ }) && *final(self)
                    == *final(b),
                Err(_) => false,
            },
    {
        self.author = author;
        Ok(self)
    }

    /// Sets the cover image.
    pub fn image(&mut self, image: String) -> (r: Result<&mut GrowPostBuilder, Error>)
        ensures
            match r {
                Ok(b) => b@ == (GrowBuilderView { image: image@, ..old(self)@ }) && *final(self)
                    == *final(b),
                Err(_) => false,
            },
    {
        self.image = image;
        Ok(self)
    }

    /// Sets the slug.
    pub fn slug(&mut self, slug: String) -> (r: Result<&mut GrowPostBuilder, Error>)
        ensures
            match r {
                Ok(b) => b@ == (GrowBuilderView { slug: slug@, ..old(self)@ }) && *final(self)
                    == *final(b),
                Err(_) => false,
            },
    {
        self.slug = slug;
        Ok(self)
    }

    /// Sets the instant of publication from a date and time written as
    /// `YYYY-MM-DD HH:MM:SS`.
    pub fn published_at_str(&mut self, published_at: String) -> (r: Result<
        &mut GrowPostBuilder,
        Error,
    >)
        ensures
            match r {
                Ok(b) => parsed_time(published_at@, ISO8601_DATE_TIME_FORMAT@) == Some(
                    b@.published_at,
                ) && b@ == (GrowBuilderView { published_at: b@.published_at, ..old(self)@ })
                    && *final(self) == *final(b),
                Err(e) => parsed_time(published_at@, ISO8601_DATE_TIME_FORMAT@).is_none()
                    && e is DateTimeError && final(self)@ == old(self)@,
            },
    {
        match Timestamp::parse(published_at.as_str()) {
            Ok(at) => {
                self.published_at = at;
                Ok(self)
            },
            Err(e) => Err(e),
        }
    }

    /// Sets the instant of publication.
    pub fn published_at(&mut self, published_at: Timestamp) -> (r: Result<
        &mut GrowPostBuilder,
        Error,
    >)
        ensures
            match r {
                Ok(b) => b@ == (GrowBuilderView { published_at: published_at@, ..old(self)@ })
                    && *final(self) == *final(b),
                Err(_) => false,
            },
    {
        self.published_at = published_at;
        Ok(self)
    }

    /// Sets the title: one line, not empty, shorter than the limit.
    pub fn title(&mut self, title: String) -> (r: Result<&mut GrowPostBuilder, Error>)
        ensures
            match r {
                Ok(b) => gives(old(self)@.fields.with_title(title@), b@.fields)
                    && b@ == (GrowBuilderView { fields: b@.fields, ..old(self)@ }) && *final(self)
                    == *final(b),
                Err(e) => fails(old(self)@.fields.with_title(title@), e)
                    && final(self)@ == old(self)@,
            },
    {
        match self.base_post.set_title(title.as_str()) {
            Ok(()) => Ok(self),
            Err(e) => Err(e),
        }
    }

    /// Sets the description: one line, not empty, shorter than the limit.
    pub fn description(&mut self, description: String) -> (r: Result<&mut GrowPostBuilder, Error>)
        ensures
            match r {
                Ok(b) => gives(old(self)@.fields.with_description(description@), b@.fields)
                    && b@ == (GrowBuilderView { fields: b@.fields, ..old(self)@ }) && *final(self)
                    == *final(b),
                Err(e) => fails(old(self)@.fields.with_description(description@), e)
                    && final(self)@ == old(self)@,
            },
    {
        match self.base_post.set_description(description.as_str()) {
            Ok(()) => Ok(self),
            Err(e) => Err(e),
        }
    }

    /// Sets the keywords: one at least, and no more than the limit.
    pub fn keywords(&mut self, keywords: Vec<String>) -> (r: Result<&mut GrowPostBuilder, Error>)
        ensures
            match r {
                Ok(b) => gives(old(self)@.fields.with_keywords(texts(keywords@)), b@.fields)
                    && b@ == (GrowBuilderView { fields: b@.fields, ..old(self)@ }) && *final(self)
                    == *final(b),
                Err(e) => fails(old(self)@.fields.with_keywords(texts(keywords@)), e)
                    && final(self)@ == old(self)@,
            },
    {
        match self.base_post.set_keywords(&keywords) {
            Ok(()) => Ok(self),
            Err(e) => Err(e),
        }
    }

    /// Sets the keywords that `keywords` lists, cut at each `delimiter`.
    pub fn keywords_as_str(&mut self, keywords: String, delimiter: &str) -> (r: Result<
        &mut GrowPostBuilder,
        Error,
    >)
        ensures
            match r {
                Ok(b) => gives(
                    old(self)@.fields.with_keywords(split(keywords@, delimiter@)),
                    b@.fields,
                )
                    && b@ == (GrowBuilderView { fields: b@.fields, ..old(self)@ })
                    && *final(self) == *final(b),
                Err(e) => fails(old(self)@.fields.with_keywords(split(keywords@, delimiter@)), e)
                    && final(self)@ == old(self)@,
            },
    {
        let list = split_keywords(keywords.as_str(), delimiter);
        self.keywords(list)
    }

    /// Sets the language.
    pub fn lang(&mut self, lang: Lang) -> (r: Result<&mut GrowPostBuilder, Error>)
        ensures
            match r {
                Ok(b) => b@ == (GrowBuilderView {
                    fields: PostFields { lang, ..old(self)@.fields },
                    ..old(self)@
                }) && *final(self) == *final(b),
                Err(_) => false,
            },
    {
        self.base_post.lang = lang;
        Ok(self)
    }

    /// Sets the body, which is not empty.
    pub fn text(&mut self, text: String) -> (r: Result<&mut GrowPostBuilder, Error>)
        ensures
            match r {
                Ok(b) => gives(old(self)@.fields.with_text(text@), b@.fields)
                    && b@ == (GrowBuilderView { fields: b@.fields, ..old(self)@ }) && *final(self)
                    == *final(b),
                Err(e) => fails(old(self)@.fields.with_text(text@), e)
                    && final(self)@ == old(self)@,
            },
    {
        match self.base_post.set_text(text.as_str()) {
            Ok(()) => Ok(self),
            Err(e) => Err(e),
        }
    }

    /// The record with the fields as they stand.
    pub fn build(&self) -> (post: GrowPost)
        ensures
            post@ == (GrowPostView {
                fields: self@.fields,
                author: self@.author,
                slug: self@.slug,
                published_at: self@.published_at,
            }),
    {
        GrowPost {
            title: self.base_post.title.clone(),
            author: self.author.clone(),
            description: self.base_post.description.clone(),
            keywords: self.base_post.keywords.clone(),
            lang: self.base_post.lang,
            published_at: self.published_at,
            slug: self.slug.clone(),
            text: self.base_post.text.clone(),
        }
    }
}

} // verus!
