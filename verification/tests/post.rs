use mashinka::command::Error;
use mashinka::grow::lang::Lang;
use mashinka::grow::post::{ApprovedPost, DraftPost, GrowPost, GrowPostTranslation};
use mashinka::grow::serdes::grow_post_serializer::serialize_with_template;
use mashinka::grow::serdes::GrowDeserializer;
use mashinka::grow::time::Timestamp;
use mashinka::grow::{MAX_CHARS_IN_DESCRIPTION, MAX_CHARS_IN_TITLE};

const RECORD: &str = "---
$title@: eto-testovyi-zagolovok
author@: Виктор Жарина
description: Тестовое описание для записи
keywords: бумага,А4,297 мм
image: /static/images/default.png
lang: Ru
slugRu: eto-testovyi-zagolovok
$dates:
  published: 2021-11-16 19:16:00
---

test_text
";

fn draft() -> DraftPost {
    DraftPost {
        title: "Это тестовый заголовок".to_string(),
        description: "Тестовое описание для записи".to_string(),
        keywords: vec!["бумага".to_string(), "А4".to_string(), "297 мм".to_string()],
        lang: Lang::Ru,
        text: "test_text".to_string(),
    }
}

fn record() -> GrowPost {
    draft().approve().to_grow_post_at(Timestamp::from_seconds(1637090160).unwrap()).unwrap()
}

fn entry(id: &str, value: &str) -> GrowPostTranslation {
    GrowPostTranslation { id: id.to_string(), translated_value: value.to_string() }
}

fn entries_by_pattern(content: &str) -> Vec<GrowPostTranslation> {
    let re = regex::Regex::new("msgid \"(.*)\"\nmsgstr \"(.*)\"").unwrap();
    re.captures_iter(content).map(|cap| entry(&cap[1], &cap[2])).collect()
}

#[test]
fn post_test_draft_from_string_conversion_with_default_values() {
    let default_draft = DraftPost { text: "text".to_string(), ..DraftPost::default() };

    let draft_post = DraftPost::deserialize(&default_draft.to_string()).unwrap();

    assert_eq!(default_draft.title, draft_post.title);
    assert_eq!(default_draft.text, draft_post.text);
    assert_eq!(default_draft.description, draft_post.description);
    assert_eq!(default_draft.keywords, draft_post.keywords);
    assert_eq!(default_draft.lang, draft_post.lang);
}

#[test]
fn post_fail_draft_from_string_conversion_when_title_out_of_limit() {
    let too_many_chars_in_title = String::from_utf8(vec![b'X'; MAX_CHARS_IN_TITLE + 1]);
    let draft_content = DraftPost {
        title: too_many_chars_in_title.unwrap(),
        text: "test_text".to_string(),
        ..DraftPost::default()
    };

    let result = DraftPost::deserialize(&draft_content.to_string());
    assert_eq!(
        Error::ValueTooLong("title".to_string(), draft_content.title, MAX_CHARS_IN_TITLE),
        result.err().unwrap()
    )
}

#[test]
fn post_fail_draft_from_string_conversion_when_description_out_of_limit() {
    let too_many_chars_in_description =
        String::from_utf8(vec![b'X'; MAX_CHARS_IN_DESCRIPTION + 1]);
    let draft_content = DraftPost {
        description: too_many_chars_in_description.unwrap(),
        text: "test_text".to_string(),
        ..DraftPost::default()
    };
    let result = DraftPost::deserialize(&draft_content.to_string());
    assert_eq!(
        Error::ValueTooLong(
            "description".to_string(),
            draft_content.description,
            MAX_CHARS_IN_DESCRIPTION
        ),
        result.err().unwrap()
    )
}

#[test]
fn test_draft_to_approved_post_conversion() {
    let default_draft = DraftPost { text: "txt".to_string(), ..DraftPost::default() };
    let draft_post = DraftPost::deserialize(&default_draft.to_string()).unwrap();

    let approved_post = draft_post.approve();

    assert_eq!(draft_post.title, approved_post.title);
    assert_eq!(draft_post.description, approved_post.description);
    assert_eq!(draft_post.keywords, approved_post.keywords);
    assert_eq!(draft_post.text, approved_post.text);
    assert_eq!(draft_post.lang, approved_post.lang);
}

#[test]
fn test_grow_from_string_conversion_with_default_values() {
    let default_grow_post =
        GrowPost { text: "text".to_string(), author: "Author".to_string(), ..GrowPost::default() };

    let grow_post = GrowPost::deserialize(&default_grow_post.to_string()).unwrap();

    assert_eq!(default_grow_post.title, grow_post.title);
    assert_eq!(default_grow_post.text, grow_post.text);
    assert_eq!(default_grow_post.description, grow_post.description);
    assert_eq!(default_grow_post.keywords, grow_post.keywords);
    assert_eq!(default_grow_post.lang, grow_post.lang);
    assert_eq!(default_grow_post.author, grow_post.author);
    assert_eq!(default_grow_post.slug, grow_post.slug);
}

#[test]
fn draft_is_written_as_a_document() {
    assert_eq!(
        "---\ntitle: Это тестовый заголовок\nlang: Ru\ndescription: Тестовое описание для записи\nkeywords: бумага,А4,297 мм\n---\n\ntest_text\n",
        draft().to_string()
    );
    assert_eq!(draft(), DraftPost::deserialize(&draft().to_string()).unwrap());
}

#[test]
fn approved_post_has_the_author_of_its_language() {
    let approved = draft().approve();
    assert_eq!("Виктор Жарина", approved.author);
    assert_eq!("eto-testovyi-zagolovok", approved.slug);
    assert_eq!("Это тестовый заголовок", approved.title);
    let english = DraftPost { lang: Lang::En, title: "You & Me".to_string(), ..draft() }.approve();
    assert_eq!("Viktor Zharina", english.author);
    assert_eq!("you-me", english.slug);
    assert_eq!("given", draft().approve_as("given".to_string()).slug);
}

#[test]
fn title_of_symbols_alone_has_an_empty_slug() {
    assert_eq!("", DraftPost { title: "!?!".to_string(), ..draft() }.approve().slug);
}

#[test]
fn approved_post_becomes_a_record() {
    let post = record();
    assert_eq!("Это тестовый заголовок", post.title);
    assert_eq!("Виктор Жарина", post.author);
    assert_eq!("eto-testovyi-zagolovok", post.slug);
    assert_eq!(1637090160, post.published_at.seconds());
    assert_eq!(Lang::Ru, post.lang);
    assert_eq!(vec!["бумага", "А4", "297 мм"], post.keywords);
}

#[test]
fn approved_post_is_held_to_the_rules_once_more() {
    let at = Timestamp::default();
    let approved = ApprovedPost { text: "t".to_string(), ..ApprovedPost::default() };
    assert_eq!(Some(Error::EmptyValue("title".to_string())), approved.to_grow_post_at(at).err());
    let approved = ApprovedPost { title: "t".to_string(), ..ApprovedPost::default() };
    assert_eq!(
        Some(Error::EmptyValue("description".to_string())),
        approved.to_grow_post_at(at).err()
    );
    let approved = ApprovedPost {
        title: "t".to_string(),
        description: "d".to_string(),
        text: "t".to_string(),
        ..ApprovedPost::default()
    };
    assert_eq!(Some(Error::EmptyValue("keywords".to_string())), approved.to_grow_post().err());
}

#[test]
fn record_is_written_as_a_document() {
    assert_eq!(RECORD, record().to_string());
}

#[test]
fn record_is_bound_under_the_keys_of_its_template() {
    let bindings = record().as_hashmap();
    let keys: Vec<&str> = bindings.iter().map(|b| b.0).collect();
    assert_eq!(
        vec![
            "title",
            "author",
            "description",
            "image",
            "lang",
            "slug",
            "text",
            "published",
            "keywords"
        ],
        keys
    );
    assert_eq!("eto-testovyi-zagolovok", bindings[0].1);
    assert_eq!("test_text", bindings[6].1);
    assert_eq!("2021-11-16 19:16:00", bindings[7].1);
}

#[test]
fn serializer_binds_the_instant_under_publish_date() {
    assert_eq!(
        "2021-11-16 19:16:00",
        serialize_with_template(&record(), "[publish_date]".to_string())
    );
    assert_eq!("test_text", serialize_with_template(&record(), "[content]".to_string()));
    assert_eq!(
        "[published] [text]",
        serialize_with_template(&record(), "[published] [text]".to_string())
    );
}

#[test]
fn serializer_fills_a_template_of_ones_own() {
    assert_eq!(
        "eto-testovyi-zagolovok|Виктор Жарина|Тестовое описание для записи|Ru|eto-testovyi-zagolovok|2021-11-16 19:16:00|бумага,А4,297 мм|/static/images/default.png|test_text",
        serialize_with_template(
            &record(),
            "[title]|[author]|[description]|[lang]|[slug]|[publish_date]|[keywords]|[image]|[content]"
                .to_string()
        )
    );
}

#[test]
fn record_is_read_back_from_its_document() {
    let read = GrowPost::deserialize(RECORD).unwrap();
    assert_eq!(GrowPost { title: "eto-testovyi-zagolovok".to_string(), ..record() }, read);
}

#[test]
fn record_has_its_path_from_date_slug_and_language() {
    assert_eq!(
        "/site/posts/ru/2021-11-16-eto-testovyi-zagolovok@ru.md",
        record().build_post_path("/site/posts")
    );
    assert_eq!("/en/1970-01-01-@en.md", GrowPost { lang: Lang::En, ..GrowPost::default() }.build_post_path(""));
}

#[test]
fn records_of_a_language_are_read_in_order() {
    let documents = vec![RECORD.to_string(), "---\nslugEn: b\nlang: ru\n---\nbody".to_string()];
    let posts = GrowPost::get_posts_by_lang(&documents, Lang::En).unwrap();
    assert_eq!(2, posts.len());
    assert_eq!("eto-testovyi-zagolovok", posts[0].slug);
    assert_eq!("b", posts[1].slug);
    assert_eq!(Lang::En, posts[0].lang);
    assert_eq!(Lang::En, posts[1].lang);
    assert_eq!(Ok(Vec::new()), GrowPost::get_posts_by_lang(&Vec::new(), Lang::Ru));
    let broken = vec![RECORD.to_string(), "nothing".to_string(), "---\nx: y\n---\n".to_string()];
    assert!(matches!(
        GrowPost::get_posts_by_lang(&broken, Lang::Ru),
        Err(Error::IncorrectFormat(_))
    ));
}

#[test]
fn translation_is_written_as_a_catalog_entry() {
    assert_eq!(
        "msgid \"eto-testovyi-zagolovok\"\nmsgstr \"Это тестовый заголовок\"\n",
        entry("eto-testovyi-zagolovok", "Это тестовый заголовок").to_string()
    );
    assert_eq!(entry("", ""), GrowPostTranslation::new());
}

#[test]
fn catalog_entries_are_read_in_order() {
    let catalog = "msgid \"title\"\nmsgstr \"перевод\"\nmsgid \"title-another\"\nmsgstr \"translation\"\n";
    assert_eq!(
        vec![entry("title", "перевод"), entry("title-another", "translation")],
        GrowPostTranslation::get_translations(catalog)
    );
    let written = format!("{}{}", entry("a", "b").to_string(), entry("c", "d").to_string());
    assert_eq!(vec![entry("a", "b"), entry("c", "d")], GrowPostTranslation::get_translations(&written));
}

#[test]
fn catalog_entries_are_what_the_pattern_matches() {
    for catalog in [
        "",
        "msgid \"a\"\nmsgstr \"b\"",
        "msgid \"a\"\nmsgstr \"b\"\n\nmsgid \"c\"\nmsgstr \"d\"\n",
        "msgid \"\"\nmsgstr \"\"\n",
        "msgid \"a \"quoted\" id\"\nmsgstr \"a \"quoted\" value\" # \"note\"\n",
        "msgid \"a\"\r\nmsgstr \"b\"\r\n",
        "msgid \"a\"\nmsgid \"b\"\nmsgstr \"c\"\n",
        "msgid \"a\"\n msgstr \"b\"\n",
        "msgid \"a\"\nmsgstr \"b\nmsgid \"c\"\nmsgstr \"d\"",
        "# msgid \"a\"\nmsgstr \"b\" msgid \"c\"\nmsgstr \"d\"",
        "msgid \"msgid \"a\"\nmsgstr \"b\"",
        "msgid \"a\" \nmsgstr \"b\"\n",
        "msgid \"a\"\nmsgstr b\n",
        "msgid \"\nmsgstr \"b\"\n",
        "msgid \"a\"",
        "msgid \"a\"\n",
        "msgid \"a\"\nmsgstr \"",
    ] {
        assert_eq!(
            entries_by_pattern(catalog),
            GrowPostTranslation::get_translations(catalog),
            "{:?}",
            catalog
        );
    }
}

#[test]
fn the_last_entry_for_an_identifier_counts() {
    let catalog = vec![entry("a", "1"), entry("b", "2"), entry("a", "3")];
    assert_eq!(Some("3".to_string()), GrowPostTranslation::find(&catalog, "a"));
    assert_eq!(Some("2".to_string()), GrowPostTranslation::find(&catalog, "b"));
    assert_eq!(None, GrowPostTranslation::find(&catalog, "c"));
    assert_eq!(None, GrowPostTranslation::find(&Vec::new(), "a"));
}

fn read_back(post: &GrowPost) -> Result<GrowPost, Error> {
    GrowPost::deserialize(&post.to_string())
}

#[test]
fn record_is_read_back_as_it_was_written() {
    let post = GrowPost {
        description: "Dashes -- and: colons, commas".to_string(),
        keywords: vec!["one two".to_string(), "three-four".to_string()],
        lang: Lang::En,
        text: "First line\n---\n\nkey: value, and a rule above".to_string(),
        ..record()
    };
    assert_eq!(Ok(GrowPost { title: post.slug.clone(), ..post.clone() }), read_back(&post));
}

#[test]
fn record_with_a_line_feed_in_a_field_is_not_read_back() {
    let post = GrowPost { description: "one\ntwo".to_string(), ..record() };
    assert!(matches!(read_back(&post), Err(Error::IncorrectFormat(_))));
}

#[test]
fn record_with_a_marker_in_a_field_is_not_read_back() {
    let post = GrowPost { description: "see [text]".to_string(), ..record() };
    assert_eq!("see test_text", read_back(&post).unwrap().description);
}

#[test]
fn record_with_the_delimiter_in_a_field_is_not_read_back() {
    let post = GrowPost { description: "before --- after".to_string(), ..record() };
    let read = read_back(&post).unwrap();
    assert_eq!("before", read.description);
    assert_ne!(post.text, read.text);
}

#[test]
fn record_with_a_comma_in_a_keyword_is_not_read_back() {
    let post = GrowPost { keywords: vec!["a,b".to_string()], ..record() };
    assert_eq!(vec!["a", "b"], read_back(&post).unwrap().keywords);
}

#[test]
fn record_with_a_long_slug_is_not_read_back() {
    let post = GrowPost { slug: "s".repeat(100), ..record() };
    assert_eq!(
        Err(Error::ValueTooLong("title".to_string(), "s".repeat(100), 100)),
        read_back(&post)
    );
}

#[test]
fn record_with_brackets_in_its_texts_is_read_back() {
    let post = GrowPost {
        description: "A [link](https://example.com), [title] and [author] too".to_string(),
        keywords: vec!["[one]".to_string(), "".to_string(), "[text]".to_string()],
        text: "See [the docs](docs.md), [text] and [slug[lang]].\n\n- [ ] todo [".to_string(),
        ..record()
    };
    assert_eq!(Ok(GrowPost { title: post.slug.clone(), ..post.clone() }), read_back(&post));
}

#[test]
fn record_with_a_later_marker_in_its_body_is_not_read_back() {
    let post = GrowPost { text: "on [published]".to_string(), ..record() };
    assert_eq!("on 2021-11-16 19:16:00", read_back(&post).unwrap().text);
    let post = GrowPost { text: "about [keywords]".to_string(), ..record() };
    assert_eq!("about бумага,А4,297 мм", read_back(&post).unwrap().text);
}

#[test]
fn record_with_one_empty_keyword_is_not_read_back() {
    let post = GrowPost { keywords: vec!["".to_string()], ..record() };
    assert!(read_back(&post).unwrap().keywords.is_empty());
    let post = GrowPost { keywords: vec!["".to_string(), "".to_string()], ..record() };
    assert_eq!(vec!["", ""], read_back(&post).unwrap().keywords);
}
