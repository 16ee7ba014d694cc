//! Publishing a draft: the draft is read and approved, and becomes a record
//! and an entry of the translation catalog of its language.

use vstd::prelude::*;
use crate::command::{fails, gives, CommandResult, Details, Error, ErrorView, PUBLISH_COMMAND_NAME};
use crate::config::Config;
use crate::grow::{POST_TEMPLATE, TRANSLATION_TEMPLATE};
use crate::grow::lang::{lang_code, Lang};
use crate::grow::post::{
    author_of, post_bindings, post_path, published, slug_text, ApprovedPostView, DraftPost,
    GrowPost, GrowPostTranslation, GrowPostView,
};
use crate::grow::serdes::{draft_of, rendered, GrowDeserializer};
use crate::grow::time::Timestamp;
use crate::table::value_at;
use crate::text::{chars_of, extend, string_of};

verus! {

/// A file to write, as sequences of scalar values.
pub struct FileWriteView {
    pub path: Seq<char>,
    pub content: Seq<char>,
    pub append: bool,
}

/// A file to write.
#[derive(Debug, PartialEq, Eq)]
pub struct FileWrite {
    pub path: String,
    pub content: String,
    /// Whether the content goes after what the file holds, or in its place.
    pub append: bool,
}

impl View for FileWrite {
    type V = FileWriteView;

    open spec fn view(&self) -> FileWriteView {
        FileWriteView { path: self.path@, content: self.content@, append: self.append }
    }
}

/// What publishing a draft comes to, as sequences of scalar values.
pub struct PublicationView {
    pub post: GrowPostView,
    pub translation: (Seq<char>, Seq<char>),
    pub post_path: Seq<char>,
    pub translation_path: Seq<char>,
    pub writes: Seq<FileWriteView>,
}

/// What publishing a draft comes to.
#[derive(Debug)]
pub struct Publication {
    /// The record.
    pub post: GrowPost,
    /// The entry of the translation catalog: the title under the slug.
    pub translation: GrowPostTranslation,
    /// The path of the file of the record.
    pub post_path: String,
    /// The path of the translation catalog.
    pub translation_path: String,
    /// The files to write, in order; none on a dry run.
    pub writes: Vec<FileWrite>,
}

impl View for Publication {
    type V = PublicationView;

    open spec fn view(&self) -> PublicationView {
        PublicationView {
            post: self.post@,
            translation: self.translation@,
            post_path: self.post_path@,
            translation_path: self.translation_path@,
            writes: self.writes@.map_values(|w: FileWrite| w@),
        }
    }
}

/// The path of the translation catalog of the language `lang` under
/// `translations_path`.
pub open spec fn catalog_path(translations_path: Seq<char>, lang: Lang) -> Seq<char> {
    translations_path + "/"@ + lang_code(lang) + "/LC_MESSAGES/messages.po"@
}

/// The entry of the translation catalog for the record `post`.
pub open spec fn translation_entry(post: GrowPostView) -> (Seq<char>, Seq<char>) {
    (post.slug, post.fields.title)
}

/// The files that publishing the record `post` writes: the record, in a
/// file of its own, and its entry at the end of the translation catalog. A
/// dry run writes none.
pub open spec fn writes_of(
    post: GrowPostView,
    posts_path: Seq<char>,
    translations_path: Seq<char>,
    dry_run: bool,
) -> Seq<FileWriteView> {
    if dry_run {
        Seq::empty()
    } else {
        seq![
            FileWriteView {
                path: post_path(post, posts_path),
                content: rendered(POST_TEMPLATE@, post_bindings(post)),
                append: false,
            },
            FileWriteView {
                path: catalog_path(translations_path, post.fields.lang),
                content: rendered(
                    TRANSLATION_TEMPLATE@,
                    seq![("id"@, post.slug), ("value"@, post.fields.title)],
                ),
                append: true,
            },
        ]
    }
}

/// What publishing the draft `draft` at the instant `published_at` comes to.
pub open spec fn publication(
    draft: Seq<char>,
    posts_path: Seq<char>,
    translations_path: Seq<char>,
    published_at: int,
    dry_run: bool,
) -> Result<PublicationView, ErrorView> {
    match draft_of(draft) {
        Err(e) => Err(e),
        Ok(fields) => match published(
            ApprovedPostView {
                fields,
                author: author_of(fields.lang),
                slug: slug_text(fields.title),
            },
            published_at,
        ) {
            Err(e) => Err(e),
            Ok(post) => Ok(
                PublicationView {
                    post,
                    translation: translation_entry(post),
                    post_path: post_path(post, posts_path),
                    translation_path: catalog_path(translations_path, post.fields.lang),
                    writes: writes_of(post, posts_path, translations_path, dry_run),
                },
            ),
        },
    }
}

/// The command that publishes a draft.
pub struct Publish {
    config: Config,
}

impl View for Publish {
    type V = Seq<(Seq<char>, Seq<char>)>;

    /// The arguments of the command.
    closed spec fn view(&self) -> Seq<(Seq<char>, Seq<char>)> {
        self.config@
    }
}

impl Publish {
    /// The command, with its arguments.
    pub fn new(config: Config) -> (publish: Box<Publish>)
        ensures
            publish@ == config@,
    {
        Box::new(Publish { config })
    }

    /// The arguments of the command.
    pub fn config(&self) -> (config: &Config)
        ensures
            config@ == self@,
    {
        &self.config
    }

    /// What publishing the draft `draft` at the instant `published_at` comes
    /// to, or why it cannot be published.
    pub fn prepare_at(
        &self,
        draft: &str,
        posts_path: &str,
        translations_path: &str,
        published_at: Timestamp,
    ) -> (r: Result<Publication, Error>)
        ensures
            match r {
                Ok(p) => gives(
                    publication(
                        draft@,
                        posts_path@,
                        translations_path@,
                        published_at@,
                        value_at(self@, "--dry-run"@).is_some(),
                    ),
                    p@,
                ),
                Err(e) => fails(
                    publication(
                        draft@,
                        posts_path@,
                        translations_path@,
                        published_at@,
                        value_at(self@, "--dry-run"@).is_some(),
                    ),
                    e,
                ),
            },
    {
        let draft_post = match DraftPost::deserialize(draft) {
            Ok(draft_post) => draft_post,
            Err(e) => {
                return Err(e);
            },
        };
        let post = match draft_post.approve().to_grow_post_at(published_at) {
            Ok(post) => post,
            Err(e) => {
                return Err(e);
            },
        };
        let post_path = post.build_post_path(posts_path);
        let translation = GrowPostTranslation {
            id: post.slug.clone(),
            translated_value: post.title.clone(),
        };
        let mut translation_path = chars_of(translations_path);
        extend(&mut translation_path, &chars_of("/"));
        extend(&mut translation_path, &chars_of(post.lang.to_lowercase().as_str()));
        extend(&mut translation_path, &chars_of("/LC_MESSAGES/messages.po"));
        let translation_path = string_of(&translation_path);
        let mut writes: Vec<FileWrite> = Vec::new();
        if !self.config.is_dry_run() {
            writes.push(
                FileWrite { path: post_path.clone(), content: post.to_string(), append: false },
            );
            writes.push(
                FileWrite {
                    path: translation_path.clone(),
                    content: translation.to_string(),
                    append: true,
                },
            );
        }
        let publication = Publication { post, translation, post_path, translation_path, writes };
        assert(publication@.writes =~= writes_of(
            publication.post@,
            posts_path@,
            translations_path@,
            value_at(self@, "--dry-run"@).is_some(),
        ));
        Ok(publication)
    }

    /// What publishing the draft `draft` now comes to, or why it cannot be
    /// published.
    pub fn prepare(&self, draft: &str, posts_path: &str, translations_path: &str) -> (r: Result<
        Publication,
        Error,
    >)
        ensures
            match r {
                Ok(p) => gives(
                    publication(
                        draft@,
                        posts_path@,
                        translations_path@,
                        p@.post.published_at,
                        value_at(self@, "--dry-run"@).is_some(),
                    ),
                    p@,
                ),
                Err(e) => forall|at: int|
                    fails(
                        #[trigger] publication(
                            draft@,
                            posts_path@,
                            translations_path@,
                            at,
                            value_at(self@, "--dry-run"@).is_some(),
                        ),
                        e,
                    ),
            },
    {
        self.prepare_at(draft, posts_path, translations_path, Timestamp::now())
    }

    /// What the command reports: the paths of the record and of the
    /// translation catalog.
    pub fn report(&self, publication: &Publication) -> (result: CommandResult)
        ensures
            result.command() == PUBLISH_COMMAND_NAME@,
            result.details() == seq![
                ("post_path"@, publication.post_path@),
                ("translation_path"@, publication.translation_path@),
            ],
    {
        let mut details = Details::new();
        details.push("post_path".to_owned(), publication.post_path.clone());
        details.push("translation_path".to_owned(), publication.translation_path.clone());
        CommandResult::new(PUBLISH_COMMAND_NAME.to_owned(), details)
    }
}

} // verus!
