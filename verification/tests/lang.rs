use mashinka::grow::lang::{lower, read_mapping, slugify, transliterate, Lang};
use mashinka::grow::post::DraftPost;
use mashinka::grow::RU_EN_MAPPING;

#[test]
fn lang_is_read_in_any_letter_case() {
    assert_eq!(Ok(Lang::Ru), Lang::from_str("ru"));
    assert_eq!(Ok(Lang::Ru), Lang::from_str(" RU\n"));
    assert_eq!(Ok(Lang::Ru), Lang::from_str("rU"));
    assert_eq!(Ok(Lang::En), Lang::from_str("En"));
    assert_eq!(Ok(Lang::En), Lang::from_str("en"));
}

#[test]
fn unknown_lang_comes_back_as_given() {
    assert_eq!(Err("de".to_string()), Lang::from_str("de"));
    assert_eq!(Err(" rus ".to_string()), Lang::from_str(" rus "));
    assert_eq!(Err("".to_string()), Lang::from_str(""));
    assert_eq!(Err("r u".to_string()), Lang::from_str("r u"));
}

#[test]
fn lang_is_written_as_name_and_as_code() {
    assert_eq!("Ru", Lang::Ru.to_string());
    assert_eq!("En", Lang::En.to_string());
    assert_eq!("ru", Lang::Ru.to_lowercase());
    assert_eq!("en", Lang::En.to_lowercase());
    assert_eq!(Lang::Ru, Lang::default());
}

#[test]
fn slugify_transliterates_a_title() {
    assert_eq!("eto-testovyi-zagolovok", slugify("Это тестовый заголовок", RU_EN_MAPPING));
    assert_eq!("shchuka-i-zhuk", slugify("  Щука и жук!  ", RU_EN_MAPPING));
    assert_eq!("hello-world-42", slugify("Hello, World 42", RU_EN_MAPPING));
    assert_eq!("obezd", slugify("Объезд", RU_EN_MAPPING));
}

#[test]
fn slugify_of_nothing_is_nothing() {
    assert_eq!("", slugify("", RU_EN_MAPPING));
    assert_eq!("", slugify("   ", RU_EN_MAPPING));
    assert_eq!("", slugify("!?#$@*%^,", RU_EN_MAPPING));
}

#[test]
fn slugify_lowers_the_case() {
    assert_eq!("abc-где", slugify("ABC ГДЕ", "x;y"));
    assert_eq!("привет", slugify("ПРИВЕТ", ""));
}

#[test]
fn slugify_keeps_what_the_table_does_not_hold() {
    assert_eq!("a_b", slugify("a_b", RU_EN_MAPPING));
    assert_eq!("a--b", slugify("a  b", RU_EN_MAPPING));
    assert_eq!("a-", slugify("a !", RU_EN_MAPPING));
}

#[test]
fn the_last_line_for_a_scalar_value_counts() {
    assert_eq!("2b", slugify("ab", "a;1\na;2"));
    assert_eq!("b", slugify("ab", "a;1\r\na;\r\n"));
    assert_eq!("a;b", slugify("x", "x;a;b"));
}

#[test]
fn transliterate_takes_the_text_as_it_is() {
    assert_eq!("A-b", transliterate("A b", RU_EN_MAPPING));
    assert_eq!("Эto", transliterate("Это", RU_EN_MAPPING));
    assert_eq!("-a-b-", transliterate(" a b ", " ;x"));
    assert_eq!("-a", transliterate(" a\n", "b;c"));
}

#[test]
fn a_mapping_is_read_line_by_line() {
    assert_eq!(vec![(vec!['a'], vec!['1', '2']), (vec![], vec![])], read_mapping("a;12\n;"));
    assert!(read_mapping("").is_empty());
    assert_eq!(42, read_mapping(RU_EN_MAPPING).len());
}

#[test]
fn a_line_without_a_semicolon_is_passed_over() {
    assert_eq!(vec![(vec!['a'], vec!['1'])], read_mapping("a;1\nb"));
    assert_eq!(
        vec![(vec!['a'], vec!['1']), (vec!['b'], vec!['2'])],
        read_mapping("a;1\n\nb;2\n")
    );
    assert_eq!("1b", slugify("ab", "a;1\nb"));
}

#[test]
fn lower_is_what_std_puts_in_lower_case() {
    for s in [
        "",
        "abc",
        "ABC xyz 123 -_[]@`{",
        "AZaz@[",
        "Это Тест",
        "ΟΔΥΣΣΕΥΣ",
        "İstanbul",
        "Straße ÀÉ",
        "mixed ASCII then Я",
    ] {
        assert_eq!(s.to_lowercase(), lower(s), "{:?}", s);
    }
}

fn is_slug(slug: &str) -> bool {
    regex::Regex::new("^[a-z0-9]+(-[a-z0-9]+)*$").unwrap().is_match(slug)
}

#[test]
fn slug_of_words_with_spaces_or_hyphens_between_them_is_well_formed() {
    for title in [
        "Это тестовый заголовок",
        "  Щука, и жук!  ",
        "Hello World",
        "x",
        "2024 год",
        "Объезд!",
        "ЁЖ и ёж",
        "a-b",
        "Как-то так",
        "север-юг запад-восток",
    ] {
        let slug = slugify(title, RU_EN_MAPPING);
        assert!(is_slug(&slug), "{:?} -> {:?}", title, slug);
    }
}

#[test]
fn slug_of_other_titles_may_be_ill_formed() {
    for title in ["a  b", "a -b", "a--b", "a !", "ъ ь", "a_b", "É"] {
        let slug = slugify(title, RU_EN_MAPPING);
        assert!(!is_slug(&slug), "{:?} -> {:?}", title, slug);
    }
}

#[test]
fn slug_of_an_approved_draft_is_well_formed_or_empty() {
    for title in [
        "Это тестовый заголовок",
        "a  b",
        "a -b",
        "a_b!",
        "  --test_-_cool",
        "Æúű--cool?",
        "user@example.com",
        "!?",
        "日本語 テキスト",
        "-",
    ] {
        let draft = DraftPost { title: title.to_string(), ..DraftPost::default() };
        let slug = draft.approve().slug;
        assert!(slug.is_empty() || is_slug(&slug), "{:?} -> {:?}", title, slug);
        assert_eq!(slug::slugify(title), slug);
    }
}
