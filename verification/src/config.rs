//! The arguments of a command.

use vstd::prelude::*;
use crate::command::{fails, gives, text_outcome, Error, ErrorView};
use crate::grow::lang::Lang;
use crate::table::{get, insert, pairs, put, value_at};
use crate::text::{chars_of, find, find_from, split_once, split_once_text, string_of};

verus! {

/// What stands between the name of an argument and its value.
pub const PARAMETER_KEY_VALUE_DELIMITER: &'static str = "=";

/// What the name of an argument starts with.
pub const PARAMETER_PREFIX: &'static str = "--";

/// The arguments of a command: each name with its value.
pub struct Config {
    args_map: Vec<(String, String)>,
}

impl View for Config {
    type V = Seq<(Seq<char>, Seq<char>)>;

    closed spec fn view(&self) -> Seq<(Seq<char>, Seq<char>)> {
        pairs(self.args_map@)
    }
}

impl Default for Config {
    fn default() -> (config: Config)
        ensures
            config@ == Seq::<(Seq<char>, Seq<char>)>::empty(),
    {
        let config = Config { args_map: Vec::new() };
        assert(pairs(config.args_map@) =~= Seq::empty());
        config
    }
}

/// What the arguments `map` become with the argument `param`. One that holds
/// `=` is a name and its value; one that holds `--` is a name whose value
/// is `true`; any other is refused.
pub open spec fn with_argument(map: Seq<(Seq<char>, Seq<char>)>, param: Seq<char>) -> Result<
    Seq<(Seq<char>, Seq<char>)>,
    ErrorView,
> {
    match split_once(param, PARAMETER_KEY_VALUE_DELIMITER@) {
        Some((name, value)) => Ok(put(map, name, value)),
        None => if find_from(param, PARAMETER_PREFIX@, 0) >= 0 {
            Ok(put(map, param, "true"@))
        } else {
            Err(ErrorView::Parse)
        },
    }
}

/// The arguments that the list `args` gives, in the order in which each
/// name first occurs, each name with its last value. The first argument
/// that is refused ends it.
pub open spec fn arguments(args: Seq<Seq<char>>) -> Result<Seq<(Seq<char>, Seq<char>)>, ErrorView>
    decreases args.len(),
{
    if args.len() == 0 {
        Ok(Seq::empty())
    } else {
        match arguments(args.drop_last()) {
            Err(e) => Err(e),
            Ok(map) => with_argument(map, args.last()),
        }
    }
}

/// Once the first `n` arguments have failed, all of them fail in the same
/// way.
pub proof fn lemma_arguments_fail(args: Seq<Seq<char>>, n: int)
    requires
        0 <= n <= args.len(),
        arguments(args.take(n)).is_err(),
    ensures
        arguments(args) == arguments(args.take(n)),
    decreases args.len() - n,
{
    if n < args.len() {
        assert(args.take(n + 1).drop_last() =~= args.take(n));
        lemma_arguments_fail(args, n + 1);
    } else {
        assert(args.take(n) =~= args);
    }
}

/// The path to use: the value of the argument `name` where it was given,
/// else `default`. An empty `default` is refused in either case, and named
/// by `variable`.
pub open spec fn path_or_default(
    map: Seq<(Seq<char>, Seq<char>)>,
    name: Seq<char>,
    default: Seq<char>,
    variable: Seq<char>,
) -> Result<Seq<char>, ErrorView> {
    if default.len() == 0 {
        Err(ErrorView::EmptyValue(variable))
    } else {
        match value_at(map, name) {
            Some(value) => Ok(value),
            None => Ok(default),
        }
    }
}

impl Config {
    /// The languages of the site, in the order in which they are indexed.
    pub fn available_languages(&self) -> (languages: Vec<Lang>)
        ensures
            languages@ == seq![Lang::Ru, Lang::En],
    {
        let mut languages: Vec<Lang> = Vec::new();
        languages.push(Lang::Ru);
        languages.push(Lang::En);
        assert(languages@ =~= seq![Lang::Ru, Lang::En]);
        languages
    }

    /// Reads the arguments of a command. Each is `--name` or `--name=value`.
    pub fn parse_args(args: Vec<String>) -> (r: Result<Config, Error>)
        ensures
            match r {
                Ok(config) => gives(arguments(crate::text::texts(args@)), config@),
                Err(e) => fails(arguments(crate::text::texts(args@)), e),
            },
    {
        let ghost list = crate::text::texts(args@);
        let mut args_map: Vec<(String, String)> = Vec::new();
        let separator = chars_of(PARAMETER_KEY_VALUE_DELIMITER);
        let prefix = chars_of(PARAMETER_PREFIX);
        let mut i: usize = 0;
        assert(pairs(args_map@) =~= Seq::empty());
        while i < args.len()
            invariant
                i <= args.len(),
                list == crate::text::texts(args@),
                separator@ == PARAMETER_KEY_VALUE_DELIMITER@,
                prefix@ == PARAMETER_PREFIX@,
                gives(arguments(list.take(i as int)), pairs(args_map@)),
            decreases args.len() - i,
        {
            proof {
                assert(list.take(i + 1).drop_last() =~= list.take(i as int));
                assert(list.take(i + 1).last() == args@[i as int]@);
            }
            let param = chars_of(args[i].as_str());
            match split_once_text(&param, &separator) {
                Some((name, value)) => {
                    insert(&mut args_map, string_of(&name), string_of(&value));
                },
                None => {
                    if find(&param, &prefix, 0).is_some() {
                        insert(&mut args_map, string_of(&param), "true".to_owned());
                    } else {
                        proof {
                            lemma_arguments_fail(list, i + 1);
                        }
                        return Err(Error::Parse());
                    }
                },
            }
            i += 1;
        }
        assert(list.take(args.len() as int) =~= list);
        Ok(Config { args_map })
    }

    /// Whether the command is to change nothing on disk.
    pub fn is_dry_run(&self) -> (r: bool)
        ensures
            r == value_at(self@, "--dry-run"@).is_some(),
    {
        get(&self.args_map, "--dry-run").is_some()
    }

    fn path(&self, name: &str, default: &str, variable: &str) -> (r: Result<String, Error>)
        ensures
            text_outcome(r) == path_or_default(self@, name@, default@, variable@),
    {
        if default.unicode_len() == 0 {
            return Err(Error::EmptyValue(variable.to_owned()));
        }
        match get(&self.args_map, name) {
            Some(value) => Ok(value),
            None => Ok(default.to_owned()),
        }
    }

    /// The path of the draft: the argument `--draft-path`, or else
    /// `default_draft_path`, the value of the variable `ABS_POST_DRAFT_FILE`.
    pub fn get_draft_path_or_default(&self, default_draft_path: &str) -> (r: Result<
        String,
        Error,
    >)
        ensures
            text_outcome(r) == path_or_default(
                self@,
                "--draft-path"@,
                default_draft_path@,
                "ABS_POST_DRAFT_FILE"@,
            ),
    {
        self.path("--draft-path", default_draft_path, "ABS_POST_DRAFT_FILE")
    }

    /// The directory of the records: the argument `--posts-path`, or else
    /// `default_posts_path`, the value of the variable `ABS_POSTS_PATH`.
    pub fn get_posts_path_or_default(&self, default_posts_path: &str) -> (r: Result<
        String,
        Error,
    >)
        ensures
            text_outcome(r) == path_or_default(
                self@,
                "--posts-path"@,
                default_posts_path@,
                "ABS_POSTS_PATH"@,
            ),
    {
        self.path("--posts-path", default_posts_path, "ABS_POSTS_PATH")
    }

    /// The directory of the translation catalogs: the argument
    /// `--translations-path`, or else `default_translation_path`, the value
    /// of the variable `ABS_TRANSLATIONS_PATH`.
    pub fn get_translations_path_or_default(&self, default_translation_path: &str) -> (r: Result<
        String,
        Error,
    >)
        ensures
            text_outcome(r) == path_or_default(
                self@,
                "--translations-path"@,
                default_translation_path@,
                "ABS_TRANSLATIONS_PATH"@,
            ),
    {
        self.path("--translations-path", default_translation_path, "ABS_TRANSLATIONS_PATH")
    }

    /// The path of the index: the argument `--index-path`, or else
    /// `default_path`, the value of the variable `ABS_INDEX_FILE`.
    pub fn get_index_file_path_or_default(&self, default_path: &str) -> (r: Result<String, Error>)
        ensures
            text_outcome(r) == path_or_default(
                self@,
                "--index-path"@,
                default_path@,
                "ABS_INDEX_FILE"@,
            ),
    {
        self.path("--index-path", default_path, "ABS_INDEX_FILE")
    }
}

} // verus!
