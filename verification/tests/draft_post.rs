use mashinka::command::Error;
use mashinka::grow::lang::Lang;
use mashinka::grow::post::DraftPost;
use mashinka::grow::serdes::{process_template, GrowDeserializer};
use mashinka::grow::{
    DEFAULT_AUTHOR, ISO8601_DATE_FORMAT, KEYWORDS_DELIMITER, MAX_CHARS_IN_DESCRIPTION,
    MAX_CHARS_IN_TITLE,
};

const TEST_DRAFT_TITLE: &str = "Это тестовый заголовок";
const TEST_POST_TITLE: &str = "Это тестовый заголовок";
const TEST_DESCRIPTION: &str = "Тестовое описание для записи";
const TEST_CONTENT: &str = "test_content";
const TEST_SLUG: &str = "eto-testovyi-zagolovok";
const TEST_KEYWORDS_AS_STRING: &str = "бумага,А4,297 мм";
const TEST_LANG_AS_STRING: &str = "ru";

const TEST_DRAFT_TEMPLATE: &str = r#"
title: [title]
lang: [lang]
description: [description]
keywords: [keywords]
---

[content]
"#;

#[derive(Default)]
struct TestDraftPost {
    title: Option<String>,
    description: Option<String>,
    keywords_as_string: Option<String>,
    content: Option<String>,
}

fn generate_test_draft_string(test_draft_post: TestDraftPost) -> String {
    let title = test_draft_post.title.unwrap_or(TEST_DRAFT_TITLE.to_string());

    let description = test_draft_post.description.unwrap_or(TEST_DESCRIPTION.to_string());

    let keywords_as_string =
        test_draft_post.keywords_as_string.unwrap_or(TEST_KEYWORDS_AS_STRING.to_string());

    let content = test_draft_post.content.unwrap_or(TEST_CONTENT.to_string());

    let bindings_with_defaults = vec![
        ("title", title),
        ("description", description),
        ("keywords", keywords_as_string),
        ("content", content),
        ("lang", Lang::Ru.to_string()),
    ];

    process_template(TEST_DRAFT_TEMPLATE.to_owned(), bindings_with_defaults)
}

#[test]
fn draft_post_test_draft_from_string_conversion_with_default_values() {
    let draft_content = generate_test_draft_string(TestDraftPost::default());

    let draft_post = DraftPost::deserialize(&draft_content).unwrap();

    assert_eq!(TEST_DRAFT_TITLE, draft_post.title);
    assert_eq!(TEST_CONTENT, draft_post.text);
    assert_eq!(TEST_DESCRIPTION, draft_post.description);

    let keywords: Vec<String> =
        TEST_KEYWORDS_AS_STRING.split(KEYWORDS_DELIMITER).map(ToString::to_string).collect();
    assert_eq!(keywords, draft_post.keywords);
    assert_eq!(Lang::Ru, draft_post.lang);
}

#[test]
fn draft_post_fail_draft_from_string_conversion_when_title_out_of_limit() {
    let many_chars_in_title = String::from_utf8(vec![b'X'; MAX_CHARS_IN_TITLE + 1]).unwrap();
    let test_draft_post =
        TestDraftPost { title: Option::from(many_chars_in_title.clone()), ..TestDraftPost::default() };
    let draft_content = generate_test_draft_string(test_draft_post);
    let result = DraftPost::deserialize(&draft_content);
    assert_eq!(
        Error::ValueTooLong("title".to_string(), many_chars_in_title, MAX_CHARS_IN_TITLE),
        result.err().unwrap()
    )
}

#[test]
fn draft_post_fail_draft_from_string_conversion_when_description_out_of_limit() {
    let many_chars_in_description =
        String::from_utf8(vec![b'X'; MAX_CHARS_IN_DESCRIPTION + 1]).unwrap();
    let test_draft_post = TestDraftPost {
        description: Option::from(many_chars_in_description.clone()),
        ..TestDraftPost::default()
    };
    let draft_content = generate_test_draft_string(test_draft_post);
    let result = DraftPost::deserialize(&draft_content);
    assert_eq!(
        Error::ValueTooLong(
            "description".to_string(),
            many_chars_in_description,
            MAX_CHARS_IN_DESCRIPTION
        ),
        result.err().unwrap()
    )
}

#[test]
fn test_draft_to_post_conversion() {
    let draft_string = generate_test_draft_string(TestDraftPost::default());
    let draft_post = DraftPost::deserialize(&draft_string).unwrap();
    let post = draft_post.approve();

    assert_eq!(TEST_SLUG, post.slug);
    assert_eq!(TEST_DESCRIPTION, post.description);
    assert_eq!(TEST_KEYWORDS_AS_STRING, post.keywords.join(KEYWORDS_DELIMITER));
    assert_eq!(TEST_CONTENT, post.text);
    assert_eq!(TEST_DESCRIPTION, post.description);
    assert_eq!(Lang::Ru, post.lang);
    assert_eq!(TEST_LANG_AS_STRING, post.lang.to_string().to_lowercase());
    assert_eq!(DEFAULT_AUTHOR, post.author);
    assert_eq!(TEST_POST_TITLE, post.title);

    let expected_formatted_date_time = chrono::Utc::now().format(ISO8601_DATE_FORMAT).to_string();

    let post_formatted_date_time = post.to_grow_post().unwrap().published_at.date();

    assert_eq!(expected_formatted_date_time, post_formatted_date_time);
}
