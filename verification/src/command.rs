//! What a command reports: its errors and its result.

use vstd::prelude::*;
use crate::text::{chars_of, extend, same, string_of};

pub mod index;
pub mod publish;

verus! {

/// The names of the commands.
pub const INDEX_COMMAND_NAME: &'static str = "index";

pub const PUBLISH_COMMAND_NAME: &'static str = "publish";

pub const HELP_COMMAND_NAME: &'static str = "help";

pub const DEPLOY_COMMAND_NAME: &'static str = "deploy";

pub const VERSION_COMMAND_NAME: &'static str = "version";

/// The error that `chrono` gives for a date and time it cannot read.
#[verifier::external_type_specification]
#[verifier::external_body]
pub struct ExParseError(chrono::format::ParseError);

/// Why a command stopped.
#[derive(Debug, PartialEq, Eq)]
pub enum Error {
    /// An argument is neither `--name` nor `--name=value`.
    Parse(),
    /// A date and time is not written as the record format asks.
    DateTimeError(chrono::format::ParseError),
    /// The named field is empty.
    EmptyValue(String),
    /// The named field, with the given value, reaches the given limit.
    ValueTooLong(String, String, usize),
    /// A metadata key that the document's kind does not have.
    UnknownKey(String),
    /// A language code that is none of the known ones.
    UnknownLang(String),
    /// A document that does not have the expected shape.
    IncorrectFormat(String),
    /// A record whose slug the translation catalogs do not hold.
    MissingTranslation(String),
}

/// An [`Error`] with its texts as sequences of scalar values.
pub enum ErrorView {
    Parse,
    DateTimeError,
    EmptyValue(Seq<char>),
    ValueTooLong(Seq<char>, Seq<char>, nat),
    UnknownKey(Seq<char>),
    UnknownLang(Seq<char>),
    IncorrectFormat(Seq<char>),
    MissingTranslation(Seq<char>),
}

impl View for Error {
    type V = ErrorView;

    open spec fn view(&self) -> ErrorView {
        match self {
            Error::Parse() => ErrorView::Parse,
            Error::DateTimeError(_) => ErrorView::DateTimeError,
            Error::EmptyValue(name) => ErrorView::EmptyValue(name@),
            Error::ValueTooLong(name, value, limit) => ErrorView::ValueTooLong(
                name@,
                value@,
                *limit as nat,
            ),
            Error::UnknownKey(key) => ErrorView::UnknownKey(key@),
            Error::UnknownLang(code) => ErrorView::UnknownLang(code@),
            Error::IncorrectFormat(what) => ErrorView::IncorrectFormat(what@),
            Error::MissingTranslation(slug) => ErrorView::MissingTranslation(slug@),
        }
    }
}

/// The outcome `outcome` is the value `value`.
pub open spec fn gives<T>(outcome: Result<T, ErrorView>, value: T) -> bool {
    outcome == Ok::<T, ErrorView>(value)
}

/// The outcome `outcome` is the error `e`.
pub open spec fn fails<T>(outcome: Result<T, ErrorView>, e: Error) -> bool {
    outcome == Err::<T, ErrorView>(e@)
}

/// The outcome `r`, with its texts as sequences of scalar values.
pub open spec fn text_outcome(r: Result<String, Error>) -> Result<Seq<char>, ErrorView> {
    match r {
        Ok(value) => Ok(value@),
        Err(e) => Err(e@),
    }
}

/// One thing that a command reports of its run.
#[derive(Debug)]
pub struct Detail {
    /// What the message is about; may be empty.
    pub id: String,
    pub message: String,
}

impl Default for Detail {
    fn default() -> (detail: Detail)
        ensures
            detail.id@ == Seq::<char>::empty(),
            detail.message@ == Seq::<char>::empty(),
    {
        Detail { id: String::new(), message: String::new() }
    }
}

/// What a command reports of its run.
#[derive(Debug)]
pub struct Details {
    items: Vec<Detail>,
}

impl View for Details {
    type V = Seq<(Seq<char>, Seq<char>)>;

    closed spec fn view(&self) -> Seq<(Seq<char>, Seq<char>)> {
        self.items@.map_values(|d: Detail| (d.id@, d.message@))
    }
}

impl Default for Details {
    fn default() -> (details: Details)
        ensures
            details@ == Seq::<(Seq<char>, Seq<char>)>::empty(),
    {
        let details = Details { items: Vec::new() };
        assert(details@ =~= Seq::empty());
        details
    }
}

/// One detail as text: the message, after what it is about and a colon
/// where that is not empty.
pub open spec fn detail_text(detail: (Seq<char>, Seq<char>)) -> Seq<char> {
    if detail.0.len() == 0 {
        detail.1
    } else {
        detail.0 + ":"@ + detail.1
    }
}

/// The details as text, one after the other.
pub open spec fn details_text(details: Seq<(Seq<char>, Seq<char>)>) -> Seq<char>
    decreases details.len(),
{
    if details.len() == 0 {
        Seq::empty()
    } else {
        details_text(details.drop_last()) + detail_text(details.last())
    }
}

/// What is said of a command that ended well. A command without a name
/// gives its details alone.
pub open spec fn summary(command: Seq<char>, details: Seq<(Seq<char>, Seq<char>)>) -> Seq<char> {
    if command.len() == 0 {
        details_text(details)
    } else {
        "Command `"@ + command + "` successfully completed. "@ + details_text(details)
    }
}

impl Details {
    /// Nothing to report yet.
    pub fn new() -> (details: Details)
        ensures
            details@ == Seq::<(Seq<char>, Seq<char>)>::empty(),
    {
        Details::default()
    }

    /// Adds a message, and what it is about.
    pub fn push(&mut self, id: String, message: String)
        ensures
            final(self)@ == old(self)@.push((id@, message@)),
    {
        self.items.push(Detail { id, message });
        assert(self@ =~= old(self)@.push((id@, message@)));
    }

    /// The details as text, one after the other.
    pub fn to_string(&self) -> (out: String)
        ensures
            out@ == details_text(self@),
    {
        let mut out: Vec<char> = Vec::new();
        let mut i: usize = 0;
        while i < self.items.len()
            invariant
                i <= self.items.len(),
                out@ == details_text(self@.take(i as int)),
            decreases self.items.len() - i,
        {
            proof {
                assert(self@.take(i + 1).drop_last() =~= self@.take(i as int));
            }
            let id = chars_of(self.items[i].id.as_str());
            if id.len() != 0 {
                extend(&mut out, &id);
                extend(&mut out, &chars_of(":"));
            }
            extend(&mut out, &chars_of(self.items[i].message.as_str()));
            i += 1;
        }
        assert(self@.take(self.items.len() as int) =~= self@);
        string_of(&out)
    }
}

/// How a command ended.
#[derive(Debug)]
pub struct CommandResult {
    command: String,
    details: Details,
}

impl Default for CommandResult {
    fn default() -> (result: CommandResult)
        ensures
            result.command() == Seq::<char>::empty(),
            result.details() == Seq::<(Seq<char>, Seq<char>)>::empty(),
    {
        CommandResult { command: String::new(), details: Details::default() }
    }
}

impl CommandResult {
    /// The name of the command.
    pub closed spec fn command(&self) -> Seq<char> {
        self.command@
    }

    /// What the command reports of its run.
    pub closed spec fn details(&self) -> Seq<(Seq<char>, Seq<char>)> {
        self.details@
    }

    /// The outcome of the command `command`.
    pub fn new(command: String, details: Details) -> (result: CommandResult)
        ensures
            result.command() == command@,
            result.details() == details@,
    {
        CommandResult { command, details }
    }

    /// What is said of a command that ended well.
    pub fn summarize(&mut self) -> (out: String)
        ensures
            out@ == summary(old(self).command(), old(self).details()),
            final(self).command() == old(self).command(),
            final(self).details() == old(self).details(),
    {
        let details = chars_of(self.details.to_string().as_str());
        if self.command.as_str().unicode_len() == 0 {
            return string_of(&details);
        }
        let mut out = chars_of("Command `");
        extend(&mut out, &chars_of(self.command.as_str()));
        extend(&mut out, &chars_of("` successfully completed. "));
        extend(&mut out, &details);
        string_of(&out)
    }
}

/// The commands.
#[derive(Debug, PartialEq, Eq, Clone, Copy, Structural)]
pub enum CommandKind {
    Index,
    Publish,
    Help,
    Version,
    Deploy,
}

/// The command that `name` asks for. A name that is none of the commands'
/// asks for help.
pub open spec fn selected(name: Seq<char>) -> CommandKind {
    if name == INDEX_COMMAND_NAME@ {
        CommandKind::Index
    } else if name == PUBLISH_COMMAND_NAME@ {
        CommandKind::Publish
    } else if name == VERSION_COMMAND_NAME@ {
        CommandKind::Version
    } else if name == DEPLOY_COMMAND_NAME@ {
        CommandKind::Deploy
    } else {
        CommandKind::Help
    }
}

/// The command to run for the first argument of the program, where there is
/// one; without it, help.
pub fn select(name: Option<String>) -> (kind: CommandKind)
    ensures
        kind == match name {
            Some(name) => selected(name@),
            None => CommandKind::Help,
        },
{
    match name {
        None => CommandKind::Help,
        Some(name) => {
            let name = chars_of(name.as_str());
            if same(&name, &chars_of(INDEX_COMMAND_NAME)) {
                CommandKind::Index
            } else if same(&name, &chars_of(PUBLISH_COMMAND_NAME)) {
                CommandKind::Publish
            } else if same(&name, &chars_of(VERSION_COMMAND_NAME)) {
                CommandKind::Version
            } else if same(&name, &chars_of(DEPLOY_COMMAND_NAME)) {
                CommandKind::Deploy
            } else {
                CommandKind::Help
            }
        },
    }
}

} // verus!
