use mashinka::command::Error;
use mashinka::grow::builder::{
    check_keywords, check_line, check_text, split_keywords, DraftPostBuilder, GrowPostBuilder,
};
use mashinka::grow::lang::Lang;
use mashinka::grow::post::{DraftPost, GrowPost, PostContent};
use mashinka::grow::time::Timestamp;
use mashinka::grow::{MAX_CHARS_IN_DESCRIPTION, MAX_CHARS_IN_TITLE, MAX_KEYWORDS_COUNT};

fn letters(n: usize) -> String {
    "я".repeat(n)
}

fn keywords(n: usize) -> Vec<String> {
    (0..n).map(|i| format!(" k{} ", i)).collect()
}

#[test]
fn title_is_counted_in_scalar_values() {
    let mut builder = DraftPostBuilder::new();
    assert!(builder.title(letters(MAX_CHARS_IN_TITLE - 1)).is_ok());
    assert_eq!(letters(MAX_CHARS_IN_TITLE - 1), builder.build().title);
}

#[test]
fn title_at_the_limit_is_refused() {
    let mut builder = DraftPostBuilder::new();
    assert_eq!(
        Some(Error::ValueTooLong("title".to_string(), letters(MAX_CHARS_IN_TITLE), 100)),
        builder.title(letters(MAX_CHARS_IN_TITLE)).err()
    );
    assert_eq!(
        Some(Error::ValueTooLong("title".to_string(), letters(MAX_CHARS_IN_TITLE + 1), 100)),
        builder.title(format!("  {}\n", letters(MAX_CHARS_IN_TITLE + 1))).err()
    );
    assert_eq!("", builder.build().title);
}

#[test]
fn title_is_trimmed_and_not_empty() {
    let mut builder = DraftPostBuilder::new();
    assert_eq!(Some(Error::EmptyValue("title".to_string())), builder.title(" \t".to_string()).err());
    assert!(builder.title("  Заголовок \n".to_string()).is_ok());
    assert_eq!("Заголовок", builder.build().title);
}

#[test]
fn description_has_its_own_limit() {
    let mut builder = DraftPostBuilder::new();
    assert!(builder.description(letters(MAX_CHARS_IN_DESCRIPTION - 1)).is_ok());
    assert_eq!(
        Some(Error::ValueTooLong(
            "description".to_string(),
            letters(MAX_CHARS_IN_DESCRIPTION),
            255
        )),
        builder.description(letters(MAX_CHARS_IN_DESCRIPTION)).err()
    );
    assert_eq!(
        Some(Error::EmptyValue("description".to_string())),
        builder.description("".to_string()).err()
    );
    assert_eq!(letters(MAX_CHARS_IN_DESCRIPTION - 1), builder.build().description);
}

#[test]
fn keywords_up_to_the_limit_are_accepted() {
    let mut builder = DraftPostBuilder::new();
    assert!(builder.keywords(keywords(MAX_KEYWORDS_COUNT)).is_ok());
    let expected: Vec<String> = (0..10).map(|i| format!("k{}", i)).collect();
    assert_eq!(expected, builder.build().keywords);
}

#[test]
fn keywords_over_the_limit_are_refused() {
    let mut builder = DraftPostBuilder::new();
    let list = keywords(MAX_KEYWORDS_COUNT + 1);
    assert_eq!(
        Some(Error::ValueTooLong("keywords".to_string(), list.join(","), 10)),
        builder.keywords(list).err()
    );
    assert_eq!(
        Some(Error::EmptyValue("keywords".to_string())),
        builder.keywords(Vec::new()).err()
    );
    assert!(builder.build().keywords.is_empty());
}

#[test]
fn keywords_keep_their_order_and_their_doubles() {
    let mut builder = DraftPostBuilder::new();
    builder.keywords_as_str("b, a ,b,,c".to_string(), ",").unwrap();
    assert_eq!(vec!["b", "a", "b", "", "c"], builder.build().keywords);
    builder.keywords_as_str("x".to_string(), ",").unwrap();
    assert_eq!(vec!["x"], builder.build().keywords);
}

#[test]
fn keywords_are_cut_at_the_delimiter() {
    assert_eq!(vec!["a", " b", ""], split_keywords("a; b;", ";"));
    assert_eq!(vec!["", "a", "b", ""], split_keywords("ab", ""));
    assert_eq!(vec![""], split_keywords("", ","));
}

#[test]
fn text_is_trimmed_and_not_empty() {
    let mut builder = DraftPostBuilder::new();
    assert_eq!(Some(Error::EmptyValue("text".to_string())), builder.text("\n\n".to_string()).err());
    assert!(builder.text(format!("\n{}\n", letters(5000))).is_ok());
    assert_eq!(letters(5000), builder.build().text);
}

#[test]
fn checks_give_the_stored_value() {
    assert_eq!(Ok("a b".to_string()), check_line(" a b ", "title", 4));
    assert_eq!(
        Err(Error::ValueTooLong("title".to_string(), "a b".to_string(), 3)),
        check_line(" a b ", "title", 3)
    );
    assert_eq!(Err(Error::EmptyValue("n".to_string())), check_line("", "n", 3));
    assert_eq!(Ok("x".to_string()), check_text(" x "));
    assert_eq!(Ok(vec!["a".to_string()]), check_keywords(&vec![" a".to_string()]));
}

#[test]
fn draft_builder_builds_what_was_set() {
    let mut builder = DraftPost::builder();
    builder
        .title("T".to_string())
        .unwrap()
        .description("D".to_string())
        .unwrap()
        .keywords(vec!["k".to_string()])
        .unwrap()
        .lang(Lang::En)
        .unwrap()
        .text("B".to_string())
        .unwrap();
    assert_eq!(
        DraftPost {
            title: "T".to_string(),
            description: "D".to_string(),
            keywords: vec!["k".to_string()],
            lang: Lang::En,
            text: "B".to_string(),
        },
        builder.build()
    );
    assert_eq!(DraftPost::default(), DraftPostBuilder::new().build());
    assert_eq!(DraftPost::default(), <DraftPost as PostContent<DraftPostBuilder>>::new());
}

#[test]
fn grow_builder_builds_what_was_set() {
    let at = Timestamp::from_seconds(1637090160).unwrap();
    let mut builder = GrowPost::builder();
    builder
        .title(" T ".to_string())
        .unwrap()
        .author("A".to_string())
        .unwrap()
        .image("/i.png".to_string())
        .unwrap()
        .slug("t".to_string())
        .unwrap()
        .published_at(at)
        .unwrap()
        .post_path("/posts".to_string())
        .unwrap()
        .translation_path("/translations".to_string())
        .unwrap()
        .lang(Lang::En)
        .unwrap()
        .text("B".to_string())
        .unwrap();
    assert_eq!(
        GrowPost {
            title: "T".to_string(),
            author: "A".to_string(),
            description: String::new(),
            keywords: Vec::new(),
            lang: Lang::En,
            published_at: at,
            slug: "t".to_string(),
            text: "B".to_string(),
        },
        builder.build()
    );
    assert_eq!(GrowPost::default(), GrowPostBuilder::new().build());
}

#[test]
fn grow_builder_reads_the_instant_of_publication() {
    let mut builder = GrowPostBuilder::new();
    builder.published_at_str("2021-11-16 19:16:00".to_string()).unwrap();
    assert_eq!(1637090160, builder.build().published_at.seconds());
    assert!(matches!(
        builder.published_at_str("16.11.2021".to_string()).err(),
        Some(Error::DateTimeError(_))
    ));
    assert_eq!(1637090160, builder.build().published_at.seconds());
}

#[test]
fn draft_setters_hold_each_field_to_its_rule() {
    let mut draft = DraftPost::new();
    draft
        .title(" T ")
        .unwrap()
        .description(" D ")
        .unwrap()
        .keywords_as_str("a, b", ",")
        .unwrap()
        .lang(Lang::En)
        .content(" B ")
        .unwrap();
    assert_eq!("T", draft.title);
    assert_eq!("D", draft.description);
    assert_eq!(vec!["a", "b"], draft.keywords);
    assert_eq!(Lang::En, draft.lang);
    assert_eq!("B", draft.text);
    assert_eq!(Some(Error::EmptyValue("title".to_string())), draft.title("").err());
    assert_eq!(Some(Error::EmptyValue("text".to_string())), draft.content(" ").err());
    assert_eq!(Some(Error::EmptyValue("keywords".to_string())), draft.keywords(vec![]).err());
    assert_eq!(
        Some(Error::ValueTooLong("description".to_string(), letters(255), 255)),
        draft.description(&letters(255)).err()
    );
    assert_eq!("T", draft.title);
    assert_eq!("B", draft.text);
}
