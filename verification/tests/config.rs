use mashinka::command::Error;
use mashinka::config::Config;
use mashinka::grow::lang::Lang;

fn config(args: &[&str]) -> Result<Config, Error> {
    Config::parse_args(args.iter().map(ToString::to_string).collect())
}

#[test]
fn arguments_are_names_with_or_without_a_value() {
    let config = config(&["--dry-run", "--draft-path=/d.md", "--posts-path=/p=q"]).unwrap();
    assert!(config.is_dry_run());
    assert_eq!(Ok("/d.md".to_string()), config.get_draft_path_or_default("/default.md"));
    assert_eq!(Ok("/p=q".to_string()), config.get_posts_path_or_default("/default"));
}

#[test]
fn argument_without_prefix_or_value_is_refused() {
    assert_eq!(Some(Error::Parse()), config(&["--dry-run", "publish"]).err());
    assert_eq!(Some(Error::Parse()), config(&["-d"]).err());
    assert!(config(&["a=b", "x--y"]).is_ok());
    assert!(config(&[]).is_ok());
}

#[test]
fn the_last_value_of_an_argument_counts() {
    let config = config(&["--index-path=a", "--index-path=b"]).unwrap();
    assert_eq!(Ok("b".to_string()), config.get_index_file_path_or_default("c"));
}

#[test]
fn path_falls_back_to_the_default() {
    let config = config(&["--translations-path=/t"]).unwrap();
    assert!(!config.is_dry_run());
    assert_eq!(Ok("/t".to_string()), config.get_translations_path_or_default("/default"));
    assert_eq!(Ok("/default".to_string()), config.get_posts_path_or_default("/default"));
    assert_eq!(Ok("/default".to_string()), config.get_draft_path_or_default("/default"));
    assert_eq!(Ok("/default".to_string()), config.get_index_file_path_or_default("/default"));
}

#[test]
fn empty_default_is_refused() {
    let config = config(&["--draft-path=/d", "--dry-run=no"]).unwrap();
    assert!(config.is_dry_run());
    assert_eq!(
        Err(Error::EmptyValue("ABS_POST_DRAFT_FILE".to_string())),
        config.get_draft_path_or_default("")
    );
    assert_eq!(
        Err(Error::EmptyValue("ABS_POSTS_PATH".to_string())),
        config.get_posts_path_or_default("")
    );
    assert_eq!(
        Err(Error::EmptyValue("ABS_TRANSLATIONS_PATH".to_string())),
        config.get_translations_path_or_default("")
    );
    assert_eq!(
        Err(Error::EmptyValue("ABS_INDEX_FILE".to_string())),
        config.get_index_file_path_or_default("")
    );
}

#[test]
fn languages_are_russian_and_english() {
    assert_eq!(vec![Lang::Ru, Lang::En], Config::default().available_languages());
}
