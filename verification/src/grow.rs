//! The record format: its field names, limits and templates.

use vstd::prelude::*;

pub mod builder;
pub mod lang;
pub mod post;
pub mod round_trip;
pub mod serdes;
pub mod time;

verus! {

/// The keys of the record format.
pub const TITLE_FIELD_NAME: &'static str = "title";

pub const DESCRIPTION_FIELD_NAME: &'static str = "description";

pub const TEXT_FIELD_NAME: &'static str = "text";

pub const LANGUAGE_FIELD_NAME: &'static str = "lang";

pub const KEYWORDS_FIELD_NAME: &'static str = "keywords";

pub const AUTHOR_FIELD_NAME: &'static str = "author";

pub const IMAGE_FIELD_NAME: &'static str = "image";

pub const SLUG_FIELD_NAME: &'static str = "slug";

pub const SLUG_FIELD_NAME_RU: &'static str = "slugRu";

pub const SLUG_FIELD_NAME_EN: &'static str = "slugEn";

pub const PUBLISHED_DATE_FIELD_NAME: &'static str = "published";

/// What opens the identifier of an entry of a translation catalog.
pub const TRANSLATION_ID_FIELD: &'static str = "msgid";

/// What opens the value of an entry of a translation catalog.
pub const TRANSLATION_VALUE_FIELD: &'static str = "msgstr";

/// The author of a record in Russian.
pub const DEFAULT_AUTHOR: &'static str = "Виктор Жарина";

/// The author of a record in any other language.
pub const DEFAULT_AUTHOR_EN: &'static str = "Viktor Zharina";

/// The cover image of every record.
pub const DEFAULT_IMAGE: &'static str = "/static/images/default.png";

/// A published record. Every `[key]` is replaced by the field of that name,
/// the title by the slug.
pub const POST_TEMPLATE: &'static str =
    "---\n$title@: [title]\nauthor@: [author]\ndescription: [description]\nkeywords: [keywords]\nimage: [image]\nlang: [lang]\nslug[lang]: [slug]\n$dates:\n  published: [published]\n---\n\n[text]\n";

/// One entry of a translation catalog.
pub const TRANSLATION_TEMPLATE: &'static str = "msgid \"[id]\"\nmsgstr \"[value]\"\n";

/// A draft.
pub const DRAFT_TEMPLATE: &'static str =
    "---\ntitle: [title]\nlang: [lang]\ndescription: [description]\nkeywords: [keywords]\n---\n\n[text]\n";

/// One entry of the search index.
pub const TRANSLATION_INDEX_TEMPLATE: &'static str =
    "{\"id\": \"[id]\", \"title\": \"[title]\", \"content\": \"[content]\"}";

/// The transliteration table: one line for each scalar value, the value, a
/// semicolon and what stands for it in a slug.
pub const RU_EN_MAPPING: &'static str =
    "а;a\nб;b\nв;v\nг;g\nд;d\nе;e\nё;e\nж;zh\nз;z\nи;i\nй;i\nк;k\nл;l\nм;m\nн;n\nо;o\nп;p\nр;r\nс;s\nт;t\nу;u\nф;f\nх;kh\nц;ts\nч;ch\nш;sh\nщ;shch\nъ;\nы;y\nь;\nэ;e\nю;iu\nя;ia\n,;\n!;\n?;\n#;\n$;\n@;\n*;\n%;\n^;";

/// How the instant of publication is written in a record.
pub const ISO8601_DATE_TIME_FORMAT: &'static str = "%Y-%m-%d %H:%M:%S";

/// How the date of publication is written in the name of a file.
pub const ISO8601_DATE_FORMAT: &'static str = "%Y-%m-%d";

/// What stands between the metadata block and the body of a document.
pub const META_DELIMITER: &'static str = "---";

/// What stands between a key and its value in a metadata line.
pub const KEY_VALUE_DELIMITER: &'static str = ":";

/// What stands between two keywords.
pub const KEYWORDS_DELIMITER: &'static str = ",";

/// What ends a line.
pub const LF: char = '\n';

/// A description has fewer scalar values than this.
pub const MAX_CHARS_IN_DESCRIPTION: usize = 255;

/// A title has fewer scalar values than this.
pub const MAX_CHARS_IN_TITLE: usize = 100;

/// A record has at most this many keywords.
pub const MAX_KEYWORDS_COUNT: usize = 10;

} // verus!
