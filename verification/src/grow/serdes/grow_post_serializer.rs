//! Writing a published record out under a template of one's own.

use vstd::prelude::*;
use crate::grow::{DEFAULT_IMAGE, ISO8601_DATE_TIME_FORMAT, KEYWORDS_DELIMITER};
use crate::grow::lang::lang_name;
use crate::grow::post::{join_keywords, GrowPost, GrowPostView};
use crate::grow::serdes::{bound, process_template, rendered};
use crate::grow::time::formatted_time;
use crate::text::join;

verus! {

/// The bindings under which a published record is written out under a
/// template of one's own: the body under `content`, the instant of
/// publication under `publish_date`. The title is the slug of the record:
/// the title that a reader sees is kept in the translation catalog, under
/// the slug.
pub open spec fn serializer_bindings(post: GrowPostView) -> Seq<(Seq<char>, Seq<char>)> {
    seq![
        ("title"@, post.slug),
        ("author"@, post.author),
        ("description"@, post.fields.description),
        ("image"@, DEFAULT_IMAGE@),
        ("lang"@, lang_name(post.fields.lang)),
        ("slug"@, post.slug),
        ("content"@, post.fields.text),
        ("publish_date"@, formatted_time(post.published_at, ISO8601_DATE_TIME_FORMAT@)),
        ("keywords"@, join(post.fields.keywords, KEYWORDS_DELIMITER@)),
    ]
}

/// The published record as a document: `template`, filled.
pub fn serialize_with_template(post: &GrowPost, template: String) -> (out: String)
    ensures
        out@ == rendered(template@, serializer_bindings(post@)),
{
    let mut bindings: Vec<(&'static str, String)> = Vec::new();
    bindings.push(("title", post.slug.clone()));
    bindings.push(("author", post.author.clone()));
    bindings.push(("description", post.description.clone()));
    bindings.push(("image", DEFAULT_IMAGE.to_owned()));
    bindings.push(("lang", post.lang.to_string()));
    bindings.push(("slug", post.slug.clone()));
    bindings.push(("content", post.text.clone()));
    bindings.push(("publish_date", post.published_at.date_time()));
    bindings.push(("keywords", join_keywords(&post.keywords)));
    assert(bound(bindings@) =~= serializer_bindings(post@));
    process_template(template, bindings)
}

} // verus!
