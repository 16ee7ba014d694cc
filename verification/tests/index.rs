use mashinka::command::index::{Index, IndexContent, Source};
use mashinka::command::Error;
use mashinka::config::Config;
use mashinka::grow::lang::Lang;
use mashinka::grow::post::GrowPost;

const TEST_POST_CONTENT_RU: &str = r#"---
$title@: title
author@: автор
description: описание
keywords: слово, другое
image: /static/images/default.png
slugRu: title
$dates:
  published: 2021-11-16 19:16:00
---

<h3>тест</h3>
"#;

const TEST_POST_CONTENT_EN: &str = r#"---
$title@: title-another
author@: author
description: description
keywords: k1,k2
image: /static/images/default.png
slugEn: title-another
$dates:
  published: 2021-11-16 19:15:19
---

<h3>text</h3>
"#;

const TEST_TRANSLATION_CONTENT_RU: &str = r#"msgid "title"
msgstr "перевод"
"#;

const TEST_TRANSLATION_CONTENT_EN: &str = r#"msgid "title-another"
msgstr "translation"
"#;

fn index() -> Box<Index> {
    Index::new(Config::default())
}

fn sources() -> Vec<Source> {
    vec![
        Source {
            lang: Lang::Ru,
            translations: TEST_TRANSLATION_CONTENT_RU.to_string(),
            posts: vec![TEST_POST_CONTENT_RU.to_string()],
        },
        Source {
            lang: Lang::En,
            translations: TEST_TRANSLATION_CONTENT_EN.to_string(),
            posts: vec![TEST_POST_CONTENT_EN.to_string()],
        },
    ]
}

fn sanitize_by_pattern(value: &str) -> String {
    let re = regex::RegexBuilder::new("<[^>]*>").build().unwrap();
    re.replace_all(value, "").replace(['\n', '\r', '\t', '\u{a0}', '\\'], "").replace('"', "\\\"")
}

#[test]
fn index_holds_the_records_of_all_the_languages() {
    let expected_index_data = r#"[{ru_part},{en_part}]"#
        .replace("{ru_part}", r#"{"id": "/ru/posts/title", "title": "перевод", "content": "тест"}"#)
        .replace(
            "{en_part}",
            r#"{"id": "/en/posts/title-another", "title": "translation", "content": "text"}"#,
        );
    assert_eq!(Ok(expected_index_data), index().compose(&sources()));
}

#[test]
fn index_of_nothing_is_an_empty_list() {
    assert_eq!(Ok("[]".to_string()), index().compose(&Vec::new()));
    let empty = vec![Source { lang: Lang::Ru, translations: String::new(), posts: Vec::new() }];
    assert_eq!(Ok("[]".to_string()), index().compose(&empty));
}

#[test]
fn index_entry_joins_a_record_with_its_translation() {
    let post = GrowPost {
        slug: "title-another".to_string(),
        lang: Lang::En,
        text: "<p>The \"body\"\n of <b>it</b></p>".to_string(),
        ..GrowPost::default()
    };
    let entry = IndexContent::from_post_and_translation(&post, "translation");
    assert_eq!(
        r#"{"id": "/en/posts/title-another", "title": "translation", "content": "The \"body\" of it"}"#,
        entry.to_string()
    );
}

#[test]
fn index_takes_a_translation_from_any_catalog() {
    let mut list = sources();
    list[0].translations = format!("{}{}", TEST_TRANSLATION_CONTENT_EN, TEST_TRANSLATION_CONTENT_RU);
    list[1].translations = "msgid \"title\"\nmsgstr \"later\"\n".to_string();
    assert_eq!(
        Ok(r#"[{"id": "/ru/posts/title", "title": "later", "content": "тест"},{"id": "/en/posts/title-another", "title": "translation", "content": "text"}]"#.to_string()),
        index().compose(&list)
    );
}

#[test]
fn record_without_a_translation_fails_the_index() {
    let mut list = sources();
    list[1].translations = String::new();
    assert_eq!(
        Err(Error::MissingTranslation("title-another".to_string())),
        index().compose(&list)
    );
}

#[test]
fn record_that_cannot_be_read_fails_the_index() {
    let mut list = sources();
    list[0].translations = String::new();
    list[0].posts.push("---\n$order: 1\n---\nbody".to_string());
    assert_eq!(Err(Error::UnknownKey("order".to_string())), index().compose(&list));
    list[0].posts.pop();
    assert_eq!(Err(Error::MissingTranslation("title".to_string())), index().compose(&list));
}

#[test]
fn sanitize_takes_out_tags_and_line_breaks() {
    assert_eq!("тест", IndexContent::sanitize("\n<h3>тест</h3>\n"));
    assert_eq!("ab", IndexContent::sanitize("a<br/>\r\n\tb\u{a0}"));
    assert_eq!("a  b", IndexContent::sanitize("a <i\nclass=\"x\"> b"));
    assert_eq!("say \\\"hi\\\"", IndexContent::sanitize("say \"hi\""));
    assert_eq!("ab", IndexContent::sanitize("a\\b"));
    assert_eq!("a>b<c", IndexContent::sanitize("a>b<c"));
    assert_eq!("a>", IndexContent::sanitize("<<b>a>"));
    assert_eq!("", IndexContent::sanitize(""));
}

#[test]
fn sanitize_is_what_the_pattern_gives() {
    for value in [
        "",
        "<h3>text</h3>",
        "a < b > c < d",
        "<<>>",
        "><",
        "<a href=\"x\">\"q\"</a>\\\n\r\t\u{a0}",
        "no tags \"at\" all",
        "<unclosed",
        "x<>y",
        "<\n>",
    ] {
        assert_eq!(sanitize_by_pattern(value), IndexContent::sanitize(value), "{:?}", value);
    }
}

#[test]
fn sanitize_twice_is_sanitize_once() {
    for value in ["\"", "\\\"", "<p>\"a\"</p>", "a < b > \"c\" < d\n", "<<b>a>", "\\\\\"\\"] {
        let once = IndexContent::sanitize(value);
        assert_eq!(once, IndexContent::sanitize(&once), "{:?}", value);
    }
}

#[test]
fn index_reports_its_path() {
    assert_eq!(
        "Command `index` successfully completed. index_path:/site/data.json",
        index().report("/site/data.json").summarize()
    );
    assert!(!index().config().is_dry_run());
}
