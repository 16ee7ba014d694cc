use mashinka::command::Error;
use mashinka::grow::lang::Lang;
use mashinka::grow::post::{DraftPost, GrowPost};
use mashinka::grow::serdes::{
    convert_grow_content_to_hashmap, parse_meta_into_map, process_template, split_key_value,
    split_meta_and_text, GrowDeserializer,
};
use mashinka::grow::{DEFAULT_AUTHOR, KEY_VALUE_DELIMITER};
use mashinka::table::{get, insert};

const SCENARIO_DRAFT: &str = "title: Это тестовый заголовок
lang: ru
description: Тестовое описание для записи
keywords: бумага,А4,297 мм
---
test_content
";

fn pair(a: &str, b: &str) -> (String, String) {
    (a.to_string(), b.to_string())
}

#[test]
fn fail_deserialize_when_meta_content_have_incorrect_delimiter() {
    let err = Error::IncorrectFormat(
        "Check post format. Should be ---\nmeta\n---text , content `---`".to_string(),
    );

    assert_eq!(err, DraftPost::deserialize("Incorrect value").err().unwrap());
}

#[test]
fn fail_deserialize_when_meta_content_have_incorrect_key_value_delimiter() {
    let err = Error::IncorrectFormat(format!(
        "Meta key value should be delimited by `{}`, content `incorrect_meta_value`",
        KEY_VALUE_DELIMITER
    ));

    assert_eq!(err, DraftPost::deserialize("---\nincorrect_meta_value\n---content").err().unwrap());
}

#[test]
fn draft_of_the_scenario_is_read_and_approved() {
    let draft = DraftPost::deserialize(SCENARIO_DRAFT).unwrap();
    assert_eq!("Это тестовый заголовок", draft.title);
    assert_eq!(Lang::Ru, draft.lang);
    assert_eq!("Тестовое описание для записи", draft.description);
    assert_eq!(vec!["бумага", "А4", "297 мм"], draft.keywords);
    assert_eq!("test_content", draft.text);

    let approved = draft.approve();
    assert_eq!("eto-testovyi-zagolovok", approved.slug);
    assert_eq!(DEFAULT_AUTHOR, approved.author);
    assert_eq!("Виктор Жарина", approved.author);
}

#[test]
fn unknown_key_of_a_draft_is_an_error() {
    assert_eq!(
        Some(Error::UnknownKey("foo".to_string())),
        DraftPost::deserialize("title: t\nfoo: bar\n---\nbody").err()
    );
    assert_eq!(
        Some(Error::UnknownKey("author".to_string())),
        DraftPost::deserialize("---\nauthor@: a\n---\nbody").err()
    );
    assert_eq!(
        Some(Error::UnknownKey("order".to_string())),
        GrowPost::deserialize("---\n$order: 332\n---\nbody").err()
    );
}

#[test]
fn unknown_lang_of_a_document_is_an_error() {
    assert_eq!(
        Some(Error::UnknownLang("de".to_string())),
        DraftPost::deserialize("lang: de\n---\nbody").err()
    );
    assert_eq!(
        Some(Error::UnknownLang("russian".to_string())),
        GrowPost::deserialize("---\nlang:  russian \n---\nbody").err()
    );
}

#[test]
fn the_first_error_in_the_document_is_reported() {
    assert_eq!(
        Some(Error::UnknownKey("foo".to_string())),
        DraftPost::deserialize("foo: bar\nlang: de\n---\nbody").err()
    );
    assert_eq!(
        Some(Error::UnknownLang("de".to_string())),
        DraftPost::deserialize("lang: de\nfoo: bar\n---\nbody").err()
    );
    assert_eq!(
        Some(Error::EmptyValue("text".to_string())),
        DraftPost::deserialize("title: t\n---\n  \n").err()
    );
    assert!(matches!(
        DraftPost::deserialize("no colon\nfoo: bar\n---\nbody").err(),
        Some(Error::IncorrectFormat(_))
    ));
}

#[test]
fn a_key_given_twice_has_its_last_value() {
    let draft = DraftPost::deserialize("title: one\nlang: en\ntitle: two\n---\nbody").unwrap();
    assert_eq!("two", draft.title);
    assert_eq!(Lang::En, draft.lang);
    let long = "X".repeat(200);
    let draft = DraftPost::deserialize(&format!("title: {}\ntitle: short\n---\nb", long)).unwrap();
    assert_eq!("short", draft.title);
}

#[test]
fn the_body_takes_the_place_of_a_text_key() {
    let draft = DraftPost::deserialize("text: from the metadata\n---\nfrom the body").unwrap();
    assert_eq!("from the body", draft.text);
}

#[test]
fn lines_without_a_key_or_a_value_are_passed_over() {
    let draft = DraftPost::deserialize("\n$dates:\n\n: value\ntitle: t\n \n---\nb").unwrap();
    assert_eq!("t", draft.title);
    assert_eq!("", draft.description);
    assert!(draft.keywords.is_empty());
}

#[test]
fn document_may_open_with_the_delimiter() {
    assert_eq!(
        Ok(pair("\nmeta\n", "text---more")),
        split_meta_and_text("  ---\nmeta\n---text---more\n", "---")
    );
    assert_eq!(Ok(pair("meta\n", "\ntext")), split_meta_and_text("meta\n---\ntext", "---"));
    assert_eq!(Ok(pair("", "")), split_meta_and_text("------", "---"));
    assert_eq!(Ok(pair("", "a")), split_meta_and_text("a", ""));
}

#[test]
fn document_without_the_delimiter_is_an_error() {
    assert_eq!(
        Err(Error::IncorrectFormat(
            "Check post format. Should be ===\nmeta\n===text , content `===`".to_string()
        )),
        split_meta_and_text("a: b", "===")
    );
    assert_eq!(
        Err(Error::IncorrectFormat(
            "Check post format. Should be ---\nmeta\n---text , content `---`".to_string()
        )),
        split_meta_and_text("---\na: b\n", "---")
    );
}

#[test]
fn key_is_cut_from_value_at_the_first_delimiter() {
    assert_eq!(Ok(pair("title", "a: b")), split_key_value("$title@:  a: b ", ":"));
    assert_eq!(Ok(pair("published", "2021-11-16 19:16:00")), split_key_value("  published: 2021-11-16 19:16:00", ":"));
    assert_eq!(Ok(pair("", "")), split_key_value(":", ":"));
    assert_eq!(Ok(pair("ключ7", "v")), split_key_value("ключ-7=v", "="));
    assert_eq!(
        Err(Error::IncorrectFormat(
            "Meta key value should be delimited by `=`, content `a: b`".to_string()
        )),
        split_key_value("a: b", "=")
    );
}

#[test]
fn metadata_keeps_the_order_of_the_keys() {
    assert_eq!(
        Ok(vec![pair("b", "3"), pair("a", "2")]),
        parse_meta_into_map("\nb: 1\na: 2\nb: 3\nc:\n".to_string())
    );
    assert_eq!(Ok(vec![]), parse_meta_into_map("".to_string()));
    assert_eq!(
        Ok(vec![pair("title", "t"), pair("text", "body \n x")]),
        convert_grow_content_to_hashmap("title: t\n---body \n x\n")
    );
    assert_eq!(
        Ok(vec![pair("text", "body"), pair("title", "t")]),
        convert_grow_content_to_hashmap("---\ntext: x\ntitle: t\n---body")
    );
}

#[test]
fn table_holds_each_key_once() {
    let mut table = vec![pair("a", "1")];
    insert(&mut table, "b".to_string(), "2".to_string());
    insert(&mut table, "a".to_string(), "3".to_string());
    assert_eq!(vec![pair("a", "3"), pair("b", "2")], table);
    assert_eq!(Some("3".to_string()), get(&table, "a"));
    assert_eq!(None, get(&table, "c"));
}

#[test]
fn template_has_every_marker_replaced() {
    assert_eq!(
        "x and x, y",
        process_template(
            "[a] and [a], [b]".to_string(),
            vec![("a", "x".to_string()), ("b", "y".to_string())]
        )
    );
}

#[test]
fn template_keeps_the_markers_that_are_not_bound() {
    assert_eq!(
        "[a] x [c",
        process_template(
            "[a] [b] [c".to_string(),
            vec![("b", "x".to_string()), ("d", "y".to_string())]
        )
    );
    assert_eq!("t", process_template("t".to_string(), Vec::new()));
}

#[test]
fn template_takes_the_bindings_in_order() {
    assert_eq!(
        "y",
        process_template("[a]".to_string(), vec![("a", "[b]".to_string()), ("b", "y".to_string())])
    );
    assert_eq!(
        "[b]",
        process_template("[a]".to_string(), vec![("b", "y".to_string()), ("a", "[b]".to_string())])
    );
    assert_eq!("[]x", process_template("[][k]".to_string(), vec![("k", "x".to_string())]));
    assert_eq!("x[k]", process_template("[][k]".to_string(), vec![("", "x".to_string())]));
}
