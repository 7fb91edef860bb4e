//! What every built-in command shares: its input sources, its errors, and the
//! shape of its flags.
use vstd::prelude::*;

use crate::redirect::BuildError;

verus! {

/// Where a command reads from.
pub enum InputFile {
    /// The process's standard input.
    Stdin,
    /// The read end of the pipe from the previous command of the line.
    Pipe,
    /// A file named relative to the working directory.
    File(String),
}

/// An input source as the contracts see it.
pub enum InputName {
    Stdin,
    Pipe,
    File(Seq<char>),
}

impl View for InputFile {
    type V = InputName;

    open spec fn view(&self) -> InputName {
        match self {
            InputFile::Stdin => InputName::Stdin,
            InputFile::Pipe => InputName::Pipe,
            InputFile::File(name) => InputName::File(name@),
        }
    }
}

pub open spec fn input_names(v: Seq<InputFile>) -> Seq<InputName> {
    v.map_values(|f: InputFile| f@)
}

/// Why a command stopped before or while running.
pub enum CommandError<E> {
    /// Writing to a sink failed: the reason.
    WriteError(String),
    /// The command could not be built.
    BuildError(BuildError),
    /// Help was asked for; the command does not run.
    Help,
    /// An error of the command itself, with the command's name.
    Other(String, E),
}

/// How parsing a command's arguments fails, as the contracts see it.
pub enum ParseFailure {
    /// Help was asked for.
    Help,
    /// A flag the command does not know.
    Unexpected(Seq<char>),
    /// A flag that takes a value came last.
    NoArgument(Seq<char>),
    /// An error of the command itself, about the given text.
    Own(Seq<char>),
}

/// Whether `e` is the error that `f` describes for the command named
/// `name`; `own` tells whether an error of the command itself is the one
/// about the given text.
pub open spec fn fails_as<E>(
    e: CommandError<E>,
    f: ParseFailure,
    name: Seq<char>,
    own: spec_fn(E, Seq<char>) -> bool,
) -> bool {
    match f {
        ParseFailure::Help => e is Help,
        ParseFailure::Unexpected(t) => e matches CommandError::BuildError(
            BuildError::UnexpectedArg(s),
        ) && s@ == t,
        ParseFailure::NoArgument(t) => e matches CommandError::BuildError(
            BuildError::NoArgument(s),
        ) && s@ == t,
        ParseFailure::Own(t) => e matches CommandError::Other(n, x) && n@ == name && own(x, t),
    }
}

/// A token that is read as a flag: it starts with `-` or `>`.
pub open spec fn flag_like(t: Seq<char>) -> bool {
    t.len() > 0 && (t[0] == '-' || t[0] == '>')
}

pub fn is_flag(t: &str) -> (r: bool)
    ensures
        r == flag_like(t@),
{
    if t.unicode_len() == 0 {
        false
    } else {
        let c = t.get_char(0);
        c == '-' || c == '>'
    }
}

pub open spec fn is_help_flag(t: Seq<char>) -> bool {
    t == "-he"@ || t == "--help"@ || t == "--help-mode"@
}

pub fn help_flag(t: &str) -> (r: bool)
    ensures
        r == is_help_flag(t@),
{
    crate::text::same_text(t, "-he") || crate::text::same_text(t, "--help")
        || crate::text::same_text(t, "--help-mode")
}

/// Errors that can say what went wrong.
pub trait Describe {
    /// The message, as the contracts see it.
    spec fn described(&self) -> Seq<char>;

    /// The message.
    fn describe(&self) -> (r: String)
        ensures
            r@ == self.described(),
    ;
}

/// The message of a command error whose own error reads `own`.
pub open spec fn command_error_text<E>(e: CommandError<E>, own: spec_fn(E) -> Seq<char>) -> Seq<char> {
    match e {
        CommandError::WriteError(s) => "shu: error with write into file: "@ + s@,
        CommandError::Help => "shu: Just helping"@,
        CommandError::Other(name, x) => "shu: "@ + name@ + ": "@ + own(x),
        CommandError::BuildError(b) => "shu: build Error: "@ + b.described(),
    }
}

impl<E: Describe> CommandError<E> {
    /// The message shown for this error.
    pub fn describe(&self) -> (r: String)
        ensures
            r@ == command_error_text(*self, |x: E| x.described()),
    {
        match self {
            CommandError::WriteError(s) => {
                let mut r = String::from_str("shu: error with write into file: ");
                r.append(s.as_str());
                r
            },
            CommandError::Help => String::from_str("shu: Just helping"),
            CommandError::Other(name, x) => {
                let mut r = String::from_str("shu: ");
                r.append(name.as_str());
                r.append(": ");
                r.append(x.describe().as_str());
                r
            },
            CommandError::BuildError(b) => {
                let mut r = String::from_str("shu: build Error: ");
                r.append(b.describe().as_str());
                r
            },
        }
    }
}

} // verus!
