use mashinka::command::publish::{FileWrite, Publish};
use mashinka::command::Error;
use mashinka::config::Config;
use mashinka::grow::lang::Lang;
use mashinka::grow::post::{DraftPost, GrowPostTranslation};
use mashinka::grow::time::Timestamp;
use mashinka::grow::ISO8601_DATE_FORMAT;

const TEST_DRAFT_CONTENT: &str = r#"---
title: Это тестовый заголовок
lang: ru
description: Тестовое описание для записи
keywords: бумага,А4,297 мм
---

test_text
"#;

fn publish(args: &[&str]) -> Box<Publish> {
    Publish::new(Config::parse_args(args.iter().map(ToString::to_string).collect()).unwrap())
}

fn at() -> Timestamp {
    Timestamp::from_seconds(1637090160).unwrap()
}

#[test]
fn publishing_writes_the_record_and_its_translation() {
    let publication =
        publish(&[]).prepare_at(TEST_DRAFT_CONTENT, "/site/posts", "/site/translations", at()).unwrap();

    assert_eq!(
        "/site/posts/ru/2021-11-16-eto-testovyi-zagolovok@ru.md",
        publication.post_path
    );
    assert_eq!("/site/translations/ru/LC_MESSAGES/messages.po", publication.translation_path);

    let expected_draft_post = DraftPost {
        title: "Это тестовый заголовок".to_string(),
        description: "Тестовое описание для записи".to_string(),
        keywords: vec!["бумага".to_string(), "А4".to_string(), "297 мм".to_string()],
        lang: Lang::Ru,
        text: "test_text".to_string(),
    };
    let grow_post = expected_draft_post.approve().to_grow_post_at(at()).unwrap();
    assert_eq!(grow_post, publication.post);

    let translation =
        GrowPostTranslation { id: grow_post.slug.clone(), translated_value: grow_post.title.clone() };
    assert_eq!(translation, publication.translation);

    assert_eq!(
        vec![
            FileWrite {
                path: "/site/posts/ru/2021-11-16-eto-testovyi-zagolovok@ru.md".to_string(),
                content: grow_post.to_string(),
                append: false,
            },
            FileWrite {
                path: "/site/translations/ru/LC_MESSAGES/messages.po".to_string(),
                content: "msgid \"eto-testovyi-zagolovok\"\nmsgstr \"Это тестовый заголовок\"\n"
                    .to_string(),
                append: true,
            },
        ],
        publication.writes
    );
}

#[test]
fn dry_run_writes_nothing() {
    let publication = publish(&["--dry-run"])
        .prepare_at(TEST_DRAFT_CONTENT, "/site/posts", "/site/translations", at())
        .unwrap();
    assert!(publication.writes.is_empty());
    assert_eq!(
        "/site/posts/ru/2021-11-16-eto-testovyi-zagolovok@ru.md",
        publication.post_path
    );
    assert_eq!("eto-testovyi-zagolovok", publication.post.slug);
}

#[test]
fn publishing_now_dates_the_record_today() {
    let publication = publish(&[]).prepare(TEST_DRAFT_CONTENT, "posts", "translations").unwrap();
    let formatted_date = chrono::Utc::now().format(ISO8601_DATE_FORMAT).to_string();
    assert_eq!(
        format!("posts/ru/{formatted_date}-eto-testovyi-zagolovok@ru.md"),
        publication.post_path
    );
    assert_eq!(2, publication.writes.len());
}

#[test]
fn draft_that_cannot_be_read_is_not_published() {
    assert_eq!(
        Some(Error::UnknownKey("foo".to_string())),
        publish(&[]).prepare("foo: bar\n---\nbody", "p", "t").err()
    );
    assert!(matches!(
        publish(&["--dry-run"]).prepare("no delimiter", "p", "t").err(),
        Some(Error::IncorrectFormat(_))
    ));
}

#[test]
fn draft_that_lacks_a_field_is_not_published() {
    assert_eq!(
        Some(Error::EmptyValue("title".to_string())),
        publish(&[]).prepare_at("lang: en\n---\nbody", "p", "t", at()).err()
    );
    assert_eq!(
        Some(Error::EmptyValue("keywords".to_string())),
        publish(&[]).prepare_at("title: t\ndescription: d\n---\nbody", "p", "t", at()).err()
    );
}

#[test]
fn publish_reports_its_paths() {
    let command = publish(&["--dry-run"]);
    let publication = command.prepare_at(TEST_DRAFT_CONTENT, "/p", "/t", at()).unwrap();
    assert_eq!(
        "Command `publish` successfully completed. post_path:/p/ru/2021-11-16-eto-testovyi-zagolovok@ru.mdtranslation_path:/t/ru/LC_MESSAGES/messages.po",
        command.report(&publication).summarize()
    );
    assert!(command.config().is_dry_run());
}
