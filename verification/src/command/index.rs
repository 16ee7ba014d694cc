//! The search index: one entry for each published record, with the title
//! that the translation catalogs give for it.

use vstd::prelude::*;
use crate::command::{fails, gives, CommandResult, Details, Error, ErrorView, INDEX_COMMAND_NAME};
use crate::config::Config;
use crate::text::texts;
use crate::grow::lang::{lang_code, Lang};
use crate::grow::post::{
    entries, entries_from, posts, posts_of, translation_of, GrowPost, GrowPostTranslation,
    GrowPostView,
};
use crate::grow::serdes::{bound, process_template, rendered};
use crate::grow::TRANSLATION_INDEX_TEMPLATE;
use crate::text::{
    chars_of, extend, find, find_from, join, join_text, lemma_find_from, string_of, views,
};

verus! {

/// `s` from index `i` on, without its tags. A tag goes from a `<` to the
/// next `>`; a `<` that no `>` follows is no tag.
pub open spec fn without_tags(s: Seq<char>, i: int) -> Seq<char>
    decreases s.len() - i,
{
    if i < 0 || i >= s.len() {
        Seq::empty()
    } else if s[i] == '<' {
        let close = find_from(s, seq!['>'], i + 1);
        if i < close < s.len() {
            without_tags(s, close + 1)
        } else {
            s.subrange(i, s.len() as int)
        }
    } else {
        seq![s[i]] + without_tags(s, i + 1)
    }
}

/// The scalar values that are taken out of an index entry: line feed,
/// carriage return, tab, no-break space and backslash.
pub open spec fn is_dropped(c: char) -> bool {
    c == '\n' || c == '\r' || c == '\t' || c == '\u{a0}' || c == '\\'
}

/// What stands for `c` in an index entry: nothing where `c` is taken out, a
/// backslash and the quote where `c` is a double quote, else `c`.
pub open spec fn clean_char(c: char) -> Seq<char> {
    if is_dropped(c) {
        Seq::empty()
    } else if c == '"' {
        seq!['\\', '"']
    } else {
        seq![c]
    }
}

/// What stands for `s` in an index entry, scalar value by scalar value.
pub open spec fn cleaned(s: Seq<char>) -> Seq<char>
    decreases s.len(),
{
    if s.len() == 0 {
        Seq::empty()
    } else {
        cleaned(s.drop_last()) + clean_char(s.last())
    }
}

/// `s` as it stands in an index entry: without its tags, then cleaned.
pub open spec fn sanitized(s: Seq<char>) -> Seq<char> {
    cleaned(without_tags(s, 0))
}

/// One entry of the index, as sequences of scalar values.
pub struct IndexContentView {
    pub id: Seq<char>,
    pub title: Seq<char>,
    pub content: Seq<char>,
}

/// One entry of the index.
#[derive(Debug)]
pub struct IndexContent {
    /// The path of the record under the root of the site.
    id: String,
    /// The title, in the language of the record.
    title: String,
    /// The body of the record.
    content: String,
}

impl View for IndexContent {
    type V = IndexContentView;

    closed spec fn view(&self) -> IndexContentView {
        IndexContentView { id: self.id@, title: self.title@, content: self.content@ }
    }
}

impl Default for IndexContent {
    fn default() -> (entry: IndexContent)
        ensures
            entry@ == (IndexContentView {
                id: Seq::empty(),
                title: Seq::empty(),
                content: Seq::empty(),
            }),
    {
        IndexContent { id: String::new(), title: String::new(), content: String::new() }
    }
}

/// The entry of the record `post`, whose title for a reader is
/// `translated_value`.
pub open spec fn index_content(
    post: GrowPostView,
    translated_value: Seq<char>,
) -> IndexContentView {
    IndexContentView {
        id: "/"@ + lang_code(post.fields.lang) + "/posts/"@ + post.slug,
        title: sanitized(translated_value),
        content: sanitized(post.fields.text),
    }
}

/// An entry as it stands in the index: the entry template, filled.
pub open spec fn index_text(entry: IndexContentView) -> Seq<char> {
    rendered(
        TRANSLATION_INDEX_TEMPLATE@,
        seq![("id"@, entry.id), ("title"@, entry.title), ("content"@, entry.content)],
    )
}

fn strip_tags(v: &Vec<char>) -> (out: Vec<char>)
    ensures
        out@ == without_tags(v@, 0),
{
    let mut out: Vec<char> = Vec::new();
    let mut close: Vec<char> = Vec::new();
    close.push('>');
    let mut i: usize = 0;
    while i < v.len()
        invariant
            i <= v.len(),
            close@ == seq!['>'],
            without_tags(v@, 0) == out@ + without_tags(v@, i as int),
        decreases v.len() - i,
    {
        if v[i] == '<' {
            proof {
                lemma_find_from(v@, close@, i + 1);
            }
            match find(v, &close, i + 1) {
                Some(at) => {
                    i = at + 1;
                },
                None => {
                    let rest = crate::text::slice(v, i, v.len());
                    extend(&mut out, &rest);
                    return out;
                },
            }
        } else {
            let ghost before = out@;
            out.push(v[i]);
            assert(out@ + without_tags(v@, i + 1) =~= before + (seq![v@[i as int]] + without_tags(
                v@,
                i + 1,
            )));
            i += 1;
        }
    }
    assert(out@ + Seq::<char>::empty() =~= out@);
    out
}

fn clean(v: &Vec<char>) -> (out: Vec<char>)
    ensures
        out@ == cleaned(v@),
{
    let mut out: Vec<char> = Vec::new();
    let mut i: usize = 0;
    while i < v.len()
        invariant
            i <= v.len(),
            out@ == cleaned(v@.take(i as int)),
        decreases v.len() - i,
    {
        proof {
            assert(v@.take(i + 1).drop_last() =~= v@.take(i as int));
        }
        let c = v[i];
        let ghost before = out@;
        if c == '\n' || c == '\r' || c == '\t' || c == '\u{a0}' || c == '\\' {
            assert(before + clean_char(c) =~= before);
        } else if c == '"' {
            out.push('\\');
            out.push('"');
            assert(out@ =~= before + clean_char(c));
        } else {
            out.push(c);
            assert(out@ =~= before + clean_char(c));
        }
        i += 1;
    }
    assert(v@.take(v.len() as int) =~= v@);
    out
}

impl IndexContent {
    /// Takes out of `value` what an index entry cannot hold: tags, line
    /// breaks, tabs, no-break spaces and backslashes; a double quote gets a
    /// backslash before it.
    pub fn sanitize(value: &str) -> (out: String)
        ensures
            out@ == sanitized(value@),
    {
        string_of(&clean(&strip_tags(&chars_of(value))))
    }

    /// The entry of the record `post`, whose title for a reader is
    /// `translated_value`.
    pub fn from_post_and_translation(post: &GrowPost, translated_value: &str) -> (entry:
        IndexContent)
        ensures
            entry@ == index_content(post@, translated_value@),
    {
        let mut id = chars_of("/");
        extend(&mut id, &chars_of(post.lang.to_lowercase().as_str()));
        extend(&mut id, &chars_of("/posts/"));
        extend(&mut id, &chars_of(post.slug.as_str()));
        IndexContent {
            id: string_of(&id),
            title: IndexContent::sanitize(translated_value),
            content: IndexContent::sanitize(post.text.as_str()),
        }
    }

    /// The entry as it stands in the index.
    pub fn to_string(&self) -> (out: String)
        ensures
            out@ == index_text(self@),
    {
        let mut bindings: Vec<(&'static str, String)> = Vec::new();
        bindings.push(("id", self.id.clone()));
        bindings.push(("title", self.title.clone()));
        bindings.push(("content", self.content.clone()));
        assert(bound(bindings@) =~= seq![
            ("id"@, self.id@),
            ("title"@, self.title@),
            ("content"@, self.content@),
        ]);
        process_template(TRANSLATION_INDEX_TEMPLATE.to_owned(), bindings)
    }
}

/// What the index is built from, for one language.
#[derive(Debug)]
pub struct Source {
    pub lang: Lang,
    /// The translation catalog of the language.
    pub translations: String,
    /// The published records of the language, one document each.
    pub posts: Vec<String>,
}

/// A [`Source`], as sequences of scalar values.
pub struct SourceView {
    pub lang: Lang,
    pub translations: Seq<char>,
    pub posts: Seq<Seq<char>>,
}

impl View for Source {
    type V = SourceView;

    open spec fn view(&self) -> SourceView {
        SourceView { lang: self.lang, translations: self.translations@, posts: texts(self.posts@) }
    }
}

/// The views of a list of sources.
pub open spec fn sources(list: Seq<Source>) -> Seq<SourceView> {
    list.map_values(|s: Source| s@)
}

/// The entries of the catalogs of all the languages, one catalog after the
/// other.
pub open spec fn catalog_of(list: Seq<SourceView>) -> Seq<(Seq<char>, Seq<char>)>
    decreases list.len(),
{
    if list.len() == 0 {
        Seq::empty()
    } else {
        catalog_of(list.drop_last()) + entries_from(list.last().translations, 0)
    }
}

/// The index entry of `post`, as text. A record whose slug the catalog does
/// not hold has none.
pub open spec fn index_item(post: GrowPostView, catalog: Seq<(Seq<char>, Seq<char>)>) -> Result<
    Seq<char>,
    ErrorView,
> {
    match translation_of(catalog, post.slug) {
        Some(title) => Ok(index_text(index_content(post, title))),
        None => Err(ErrorView::MissingTranslation(post.slug)),
    }
}

/// The index entries of the records `list`, in order. The first record
/// without a translation ends it.
pub open spec fn index_items(
    list: Seq<GrowPostView>,
    catalog: Seq<(Seq<char>, Seq<char>)>,
) -> Result<Seq<Seq<char>>, ErrorView>
    decreases list.len(),
{
    if list.len() == 0 {
        Ok(Seq::empty())
    } else {
        match index_items(list.drop_last(), catalog) {
            Err(e) => Err(e),
            Ok(items) => match index_item(list.last(), catalog) {
                Err(e) => Err(e),
                Ok(item) => Ok(items.push(item)),
            },
        }
    }
}

/// The index entries of one language: its records are read, then each gets
/// its entry.
pub open spec fn source_items(source: SourceView, catalog: Seq<(Seq<char>, Seq<char>)>) -> Result<
    Seq<Seq<char>>,
    ErrorView,
> {
    match posts_of(source.posts, source.lang) {
        Err(e) => Err(e),
        Ok(list) => index_items(list, catalog),
    }
}

/// The index entries of all the languages, one language after the other.
/// The first language that fails ends it.
pub open spec fn all_items(list: Seq<SourceView>, catalog: Seq<(Seq<char>, Seq<char>)>) -> Result<
    Seq<Seq<char>>,
    ErrorView,
>
    decreases list.len(),
{
    if list.len() == 0 {
        Ok(Seq::empty())
    } else {
        match all_items(list.drop_last(), catalog) {
            Err(e) => Err(e),
            Ok(items) => match source_items(list.last(), catalog) {
                Err(e) => Err(e),
                Ok(more) => Ok(items + more),
            },
        }
    }
}

/// The index: the entries of all the languages between square brackets,
/// with a comma between each two.
pub open spec fn index_of(list: Seq<SourceView>) -> Result<Seq<char>, ErrorView> {
    match all_items(list, catalog_of(list)) {
        Err(e) => Err(e),
        Ok(items) => Ok("["@ + join(items, ","@) + "]"@),
    }
}

/// Once the first `n` records have failed, all of them fail in the same way.
pub proof fn lemma_index_items_fail(
    list: Seq<GrowPostView>,
    catalog: Seq<(Seq<char>, Seq<char>)>,
    n: int,
)
    requires
        0 <= n <= list.len(),
        index_items(list.take(n), catalog).is_err(),
    ensures
        index_items(list, catalog) == index_items(list.take(n), catalog),
    decreases list.len() - n,
{
    if n < list.len() {
        assert(list.take(n + 1).drop_last() =~= list.take(n));
        lemma_index_items_fail(list, catalog, n + 1);
    } else {
        assert(list.take(n) =~= list);
    }
}

/// Once the first `n` languages have failed, all of them fail in the same
/// way.
pub proof fn lemma_all_items_fail(
    list: Seq<SourceView>,
    catalog: Seq<(Seq<char>, Seq<char>)>,
    n: int,
)
    requires
        0 <= n <= list.len(),
        all_items(list.take(n), catalog).is_err(),
    ensures
        all_items(list, catalog) == all_items(list.take(n), catalog),
    decreases list.len() - n,
{
    if n < list.len() {
        assert(list.take(n + 1).drop_last() =~= list.take(n));
        lemma_all_items_fail(list, catalog, n + 1);
    } else {
        assert(list.take(n) =~= list);
    }
}

/// The command that builds the search index.
pub struct Index {
    config: Config,
}

/// The entries of the catalogs of all the languages, one catalog after the
/// other.
fn read_catalogs(list: &Vec<Source>) -> (catalog: Vec<GrowPostTranslation>)
    ensures
        entries(catalog@) == catalog_of(sources(list@)),
{
    let mut catalog: Vec<GrowPostTranslation> = Vec::new();
    let mut i: usize = 0;
    assert(entries(catalog@) =~= Seq::empty());
    while i < list.len()
        invariant
            i <= list.len(),
            entries(catalog@) == catalog_of(sources(list@).take(i as int)),
        decreases list.len() - i,
    {
        proof {
            assert(sources(list@).take(i + 1).drop_last() =~= sources(list@).take(i as int));
        }
        let mut more = GrowPostTranslation::get_translations(list[i].translations.as_str());
        let ghost before = entries(catalog@);
        let ghost added = entries(more@);
        catalog.append(&mut more);
        assert(entries(catalog@) =~= before + added);
        i += 1;
    }
    assert(sources(list@).take(list.len() as int) =~= sources(list@));
    catalog
}

/// The index entries of the records `list`, in order.
fn index_records(list: &Vec<GrowPost>, catalog: &Vec<GrowPostTranslation>) -> (r: Result<
    Vec<Vec<char>>,
    Error,
>)
    ensures
        match r {
            Ok(items) => gives(index_items(posts(list@), entries(catalog@)), views(items@)),
            Err(e) => fails(index_items(posts(list@), entries(catalog@)), e),
        },
{
    let mut items: Vec<Vec<char>> = Vec::new();
    let mut i: usize = 0;
    assert(views(items@) =~= Seq::empty());
    while i < list.len()
        invariant
            i <= list.len(),
            gives(index_items(posts(list@).take(i as int), entries(catalog@)), views(items@)),
        decreases list.len() - i,
    {
        proof {
            assert(posts(list@).take(i + 1).drop_last() =~= posts(list@).take(i as int));
        }
        match GrowPostTranslation::find(catalog, list[i].slug.as_str()) {
            Some(title) => {
                let entry = IndexContent::from_post_and_translation(&list[i], title.as_str());
                let ghost before = views(items@);
                items.push(chars_of(entry.to_string().as_str()));
                assert(views(items@) =~= before.push(index_text(entry@)));
            },
            None => {
                proof {
                    lemma_index_items_fail(posts(list@), entries(catalog@), i + 1);
                }
                return Err(Error::MissingTranslation(list[i].slug.clone()));
            },
        }
        i += 1;
    }
    assert(posts(list@).take(list.len() as int) =~= posts(list@));
    Ok(items)
}

impl View for Index {
    type V = Seq<(Seq<char>, Seq<char>)>;

    /// The arguments of the command.
    closed spec fn view(&self) -> Seq<(Seq<char>, Seq<char>)> {
        self.config@
    }
}

impl Index {
    /// The command, with its arguments.
    pub fn new(config: Config) -> (index: Box<Index>)
        ensures
            index@ == config@,
    {
        Box::new(Index { config })
    }

    /// The arguments of the command.
    pub fn config(&self) -> (config: &Config)
        ensures
            config@ == self@,
    {
        &self.config
    }

    /// The index of the records of `list`, or why there is none.
    pub fn compose(&self, list: &Vec<Source>) -> (r: Result<String, Error>)
        ensures
            crate::command::text_outcome(r) == index_of(sources(list@)),
    {
        let catalog = read_catalogs(list);
        let mut items: Vec<Vec<char>> = Vec::new();
        let mut i: usize = 0;
        assert(views(items@) =~= Seq::empty());
        while i < list.len()
            invariant
                i <= list.len(),
                entries(catalog@) == catalog_of(sources(list@)),
                gives(all_items(sources(list@).take(i as int), entries(catalog@)), views(items@)),
            decreases list.len() - i,
        {
            proof {
                assert(sources(list@).take(i + 1).drop_last() =~= sources(list@).take(i as int));
            }
            let records = match GrowPost::get_posts_by_lang(&list[i].posts, list[i].lang) {
                Ok(records) => records,
                Err(e) => {
                    proof {
                        lemma_all_items_fail(sources(list@), entries(catalog@), i + 1);
                    }
                    return Err(e);
                },
            };
            let mut more = match index_records(&records, &catalog) {
                Ok(more) => more,
                Err(e) => {
                    proof {
                        lemma_all_items_fail(sources(list@), entries(catalog@), i + 1);
                    }
                    return Err(e);
                },
            };
            let ghost before = views(items@);
            let ghost added = views(more@);
            items.append(&mut more);
            assert(views(items@) =~= before + added);
            i += 1;
        }
        assert(sources(list@).take(list.len() as int) =~= sources(list@));
        let mut out = chars_of("[");
        extend(&mut out, &join_text(&items, &chars_of(",")));
        extend(&mut out, &chars_of("]"));
        Ok(string_of(&out))
    }

    /// What the command reports once the index is built: the path of the
    /// index.
    pub fn report(&self, index_path: &str) -> (result: CommandResult)
        ensures
            result.command() == INDEX_COMMAND_NAME@,
            result.details() == seq![("index_path"@, index_path@)],
    {
        let mut details = Details::new();
        details.push("index_path".to_owned(), index_path.to_owned());
        CommandResult::new(INDEX_COMMAND_NAME.to_owned(), details)
    }
}

/// No `>` of `s` stands after a `<`: `s` holds no tag.
pub open spec fn tag_free(s: Seq<char>) -> bool {
    forall|i: int, j: int| 0 <= i < j < s.len() ==> !(s[i] == '<' && s[j] == '>')
}

/// Cleaning goes scalar value by scalar value.
pub proof fn lemma_cleaned_add(a: Seq<char>, b: Seq<char>)
    ensures
        cleaned(a + b) == cleaned(a) + cleaned(b),
    decreases b.len(),
{
    if b.len() == 0 {
        assert(a + b =~= a);
        assert(cleaned(a) + cleaned(b) =~= cleaned(a));
    } else {
        lemma_cleaned_add(a, b.drop_last());
        assert((a + b).drop_last() =~= a + b.drop_last());
        assert((a + b).last() == b.last());
        assert(cleaned(a) + cleaned(b.drop_last()) + clean_char(b.last()) =~= cleaned(a) + (
        cleaned(b.drop_last()) + clean_char(b.last())));
    }
}

/// Cleaning a single scalar value gives what stands for it.
pub proof fn lemma_cleaned_one(c: char)
    ensures
        cleaned(seq![c]) == clean_char(c),
{
    let one = seq![c];
    assert(one.drop_last() =~= Seq::<char>::empty());
    assert(cleaned(one.drop_last()) =~= Seq::<char>::empty());
    assert(one.last() == c);
    assert(cleaned(one) =~= Seq::<char>::empty() + clean_char(c));
    assert(Seq::<char>::empty() + clean_char(c) =~= clean_char(c));
}

/// What stands for one scalar value is left as it is by cleaning.
pub proof fn lemma_clean_char_is_clean(c: char)
    ensures
        cleaned(clean_char(c)) == clean_char(c),
{
    if is_dropped(c) {
    } else if c == '"' {
        lemma_cleaned_one('\\');
        lemma_cleaned_one('"');
        lemma_cleaned_add(seq!['\\'], seq!['"']);
        assert(seq!['\\'] + seq!['"'] =~= clean_char(c));
        assert(cleaned(seq!['\\']) + cleaned(seq!['"']) =~= clean_char(c));
    } else {
        lemma_cleaned_one(c);
    }
}

/// A cleaned text is left as it is by cleaning.
pub proof fn lemma_cleaned_twice(s: Seq<char>)
    ensures
        cleaned(cleaned(s)) == cleaned(s),
    decreases s.len(),
{
    if s.len() > 0 {
        lemma_cleaned_twice(s.drop_last());
        lemma_cleaned_add(cleaned(s.drop_last()), clean_char(s.last()));
        lemma_clean_char_is_clean(s.last());
    }
}

/// Cleaning brings in neither `<` nor `>`.
pub proof fn lemma_cleaned_brackets(s: Seq<char>)
    ensures
        cleaned(s).contains('<') ==> s.contains('<'),
        cleaned(s).contains('>') ==> s.contains('>'),
    decreases s.len(),
{
    if s.len() > 0 {
        let head = cleaned(s.drop_last());
        let tail = clean_char(s.last());
        lemma_cleaned_brackets(s.drop_last());
        assert forall|c: char| (c == '<' || c == '>') && cleaned(s).contains(c) implies s.contains(
            c,
        ) by {
            let k = choose|k: int| 0 <= k < cleaned(s).len() && cleaned(s)[k] == c;
            if k < head.len() {
                assert(head[k] == c);
                assert(head.contains(c));
                let m = choose|m: int| 0 <= m < s.drop_last().len() && s.drop_last()[m] == c;
                assert(s[m] == c);
            } else {
                assert(tail[k - head.len()] == c);
                assert(s[s.len() - 1] == c);
            }
        }
    }
}

/// A text without tags has none after cleaning.
pub proof fn lemma_cleaned_is_tag_free(s: Seq<char>)
    requires
        tag_free(s),
    ensures
        tag_free(cleaned(s)),
    decreases s.len(),
{
    if s.len() > 0 {
        let head = cleaned(s.drop_last());
        let tail = clean_char(s.last());
        assert(tag_free(s.drop_last())) by {
            assert forall|i: int, j: int| 0 <= i < j < s.drop_last().len() implies !(
            s.drop_last()[i] == '<' && s.drop_last()[j] == '>') by {
                assert(s.drop_last()[i] == s[i] && s.drop_last()[j] == s[j]);
            }
        }
        lemma_cleaned_is_tag_free(s.drop_last());
        lemma_cleaned_brackets(s.drop_last());
        assert forall|i: int, j: int| 0 <= i < j < cleaned(s).len() implies !(cleaned(s)[i] == '<'
            && cleaned(s)[j] == '>') by {
            if cleaned(s)[i] == '<' && cleaned(s)[j] == '>' {
                if j < head.len() {
                    assert(head[i] == '<' && head[j] == '>');
                } else if i < head.len() {
                    assert(head[i] == '<');
                    assert(head.contains('<'));
                    let m = choose|m: int|
                        0 <= m < s.drop_last().len() && s.drop_last()[m] == '<';
                    assert(tail[j - head.len()] == '>');
                    assert(s[m] == '<' && s[s.len() - 1] == '>');
                } else {
                    assert(tail[i - head.len()] == '<');
                    assert(tail[j - head.len()] == '>');
                }
            }
        }
    }
}

/// What is left of a text once its tags are taken out holds no tag.
pub proof fn lemma_without_tags_is_tag_free(s: Seq<char>, i: int)
    requires
        0 <= i <= s.len(),
    ensures
        tag_free(without_tags(s, i)),
    decreases s.len() - i,
{
    if i >= s.len() {
    } else if s[i] == '<' {
        let close = find_from(s, seq!['>'], i + 1);
        lemma_find_from(s, seq!['>'], i + 1);
        if i < close < s.len() {
            lemma_without_tags_is_tag_free(s, close + 1);
        } else {
            let rest = s.subrange(i, s.len() as int);
            assert forall|a: int, b: int| 0 <= a < b < rest.len() implies !(rest[a] == '<'
                && rest[b] == '>') by {
                if rest[b] == '>' {
                    assert(s.subrange(i + b, i + b + 1) =~= seq!['>']);
                    assert(crate::text::occurs_at(s, seq!['>'], i + b));
                }
            }
        }
    } else {
        lemma_without_tags_is_tag_free(s, i + 1);
        let rest = without_tags(s, i + 1);
        let all = seq![s[i]] + rest;
        assert forall|a: int, b: int| 0 <= a < b < all.len() implies !(all[a] == '<' && all[b]
            == '>') by {
            if a > 0 {
                assert(all[a] == rest[a - 1] && all[b] == rest[b - 1]);
            }
        }
    }
}

/// A text that holds no tag is left as it is when tags are taken out.
pub proof fn lemma_tag_free_is_kept(s: Seq<char>, i: int)
    requires
        tag_free(s),
        0 <= i <= s.len(),
    ensures
        without_tags(s, i) == s.subrange(i, s.len() as int),
    decreases s.len() - i,
{
    if i >= s.len() {
        assert(s.subrange(i, s.len() as int) =~= Seq::<char>::empty());
    } else if s[i] == '<' {
        let close = find_from(s, seq!['>'], i + 1);
        lemma_find_from(s, seq!['>'], i + 1);
        if i < close < s.len() {
            assert(s.subrange(close, close + 1)[0] == '>');
            assert(s[close] == '>');
        }
    } else {
        lemma_tag_free_is_kept(s, i + 1);
        assert(seq![s[i]] + s.subrange(i + 1, s.len() as int) =~= s.subrange(i, s.len() as int));
    }
}

/// A sanitized text is left as it is when it is sanitized once more.
pub proof fn lemma_sanitized_twice(s: Seq<char>)
    ensures
        sanitized(sanitized(s)) == sanitized(s),
{
    let bare = without_tags(s, 0);
    lemma_without_tags_is_tag_free(s, 0);
    lemma_cleaned_is_tag_free(bare);
    lemma_tag_free_is_kept(cleaned(bare), 0);
    assert(cleaned(bare).subrange(0, cleaned(bare).len() as int) =~= cleaned(bare));
    lemma_cleaned_twice(bare);
}

} // verus!
