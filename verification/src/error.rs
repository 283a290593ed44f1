//! The errors of the library, their views and their messages.

use crate::text::{decimal, decimal_string};
use vstd::prelude::*;
use vstd::string::*;

verus! {

/// A block or a file could not be reached.
#[derive(Debug)]
pub enum AccessErrors {
    /// A file could not be read: its path and the system's message.
    FileError(String, String),
    /// No block has this name.
    BlockNotFound(String),
    /// The default block cannot be moved.
    DefaultBlockNotMovable,
}

/// An [`AccessErrors`] with the texts of its strings.
pub enum AccessErrorsView {
    FileError(Seq<char>, Seq<char>),
    BlockNotFound(Seq<char>),
    DefaultBlockNotMovable,
}

impl View for AccessErrors {
    type V = AccessErrorsView;

    open spec fn view(&self) -> AccessErrorsView {
        match self {
            AccessErrors::FileError(path, message) => AccessErrorsView::FileError(
                path@,
                message@,
            ),
            AccessErrors::BlockNotFound(name) => AccessErrorsView::BlockNotFound(name@),
            AccessErrors::DefaultBlockNotMovable => AccessErrorsView::DefaultBlockNotMovable,
        }
    }
}

/// The command line asked for nothing that can be done.
#[derive(Debug)]
pub enum CliErrors {
    NoOperationFound,
    NoInputFound,
    /// The first argument names no command.
    UnknownCommand(String),
    /// A command lacks an argument: what to provide.
    FailedToParseArgs(String),
}

/// A [`CliErrors`] with the texts of its strings.
pub enum CliErrorsView {
    NoOperationFound,
    NoInputFound,
    UnknownCommand(Seq<char>),
    FailedToParseArgs(Seq<char>),
}

impl View for CliErrors {
    type V = CliErrorsView;

    open spec fn view(&self) -> CliErrorsView {
        match self {
            CliErrors::NoOperationFound => CliErrorsView::NoOperationFound,
            CliErrors::NoInputFound => CliErrorsView::NoInputFound,
            CliErrors::UnknownCommand(name) => CliErrorsView::UnknownCommand(name@),
            CliErrors::FailedToParseArgs(what) => CliErrorsView::FailedToParseArgs(what@),
        }
    }
}

/// A name breaks the naming rules. Lines are counted from 0.
#[derive(Debug)]
pub enum NamingErrors {
    BlockNameEmpty,
    VariableNameEmpty,
    /// The line and the first character after the first that a block name may not hold.
    BlockContainsInvalidCharacter(u16, String),
    /// The line and the first character after the first that a variable name may not hold.
    VariableContainsInvalidCharacter(u16, String),
    /// The line and the first character of a name that may not begin with it.
    StartsWithInvalidCharacter(u16, String),
}

/// A [`NamingErrors`] with the texts of its strings.
pub enum NamingErrorsView {
    BlockNameEmpty,
    VariableNameEmpty,
    BlockContainsInvalidCharacter(u16, Seq<char>),
    VariableContainsInvalidCharacter(u16, Seq<char>),
    StartsWithInvalidCharacter(u16, Seq<char>),
}

impl View for NamingErrors {
    type V = NamingErrorsView;

    open spec fn view(&self) -> NamingErrorsView {
        match self {
            NamingErrors::BlockNameEmpty => NamingErrorsView::BlockNameEmpty,
            NamingErrors::VariableNameEmpty => NamingErrorsView::VariableNameEmpty,
            NamingErrors::BlockContainsInvalidCharacter(line, c) => {
                NamingErrorsView::BlockContainsInvalidCharacter(*line, c@)
            },
            NamingErrors::VariableContainsInvalidCharacter(line, c) => {
                NamingErrorsView::VariableContainsInvalidCharacter(*line, c@)
            },
            NamingErrors::StartsWithInvalidCharacter(line, c) => {
                NamingErrorsView::StartsWithInvalidCharacter(*line, c@)
            },
        }
    }
}

/// An error of no other kind.
#[derive(Debug, Clone, Copy, PartialEq, Eq, Structural)]
pub enum OtherErrors {
    Unknown,
}

/// The text breaks the grammar. Lines are counted from 0.
#[derive(Debug)]
pub enum ParsingErrors {
    /// A line that is neither blank nor a marker holds no `=`.
    MissingEqSeparator(u16),
    /// A block is opened on this line inside the open block of this name.
    NestedBlock(u16, String),
    EmptyInput,
    /// A block is closed on this line where none is open.
    BlockNeverOpened(u16),
    /// A block is given the reserved name on this line.
    ReservedWord(u16, String),
    /// A second block of this name is closed.
    DuplicateBlock(String),
    /// A second variable of this key is added to the block of this name.
    DuplicateVariable(String, String),
}

/// A [`ParsingErrors`] with the texts of its strings.
pub enum ParsingErrorsView {
    MissingEqSeparator(u16),
    NestedBlock(u16, Seq<char>),
    EmptyInput,
    BlockNeverOpened(u16),
    ReservedWord(u16, Seq<char>),
    DuplicateBlock(Seq<char>),
    DuplicateVariable(Seq<char>, Seq<char>),
}

impl View for ParsingErrors {
    type V = ParsingErrorsView;

    open spec fn view(&self) -> ParsingErrorsView {
        match self {
            ParsingErrors::MissingEqSeparator(line) => ParsingErrorsView::MissingEqSeparator(
                *line,
            ),
            ParsingErrors::NestedBlock(line, name) => ParsingErrorsView::NestedBlock(
                *line,
                name@,
            ),
            ParsingErrors::EmptyInput => ParsingErrorsView::EmptyInput,
            ParsingErrors::BlockNeverOpened(line) => ParsingErrorsView::BlockNeverOpened(*line),
            ParsingErrors::ReservedWord(line, name) => ParsingErrorsView::ReservedWord(
                *line,
                name@,
            ),
            ParsingErrors::DuplicateBlock(name) => ParsingErrorsView::DuplicateBlock(name@),
            ParsingErrors::DuplicateVariable(key, block) => ParsingErrorsView::DuplicateVariable(
                key@,
                block@,
            ),
        }
    }
}

/// Any error of the library.
#[derive(Debug)]
pub enum Error {
    AccessError(AccessErrors),
    NamingError(NamingErrors),
    OtherError(OtherErrors),
    ParsingError(ParsingErrors),
    CliError(CliErrors),
}

/// An [`Error`] with the texts of its strings.
pub enum ErrorView {
    AccessError(AccessErrorsView),
    NamingError(NamingErrorsView),
    OtherError(OtherErrors),
    ParsingError(ParsingErrorsView),
    CliError(CliErrorsView),
}

impl View for Error {
    type V = ErrorView;

    open spec fn view(&self) -> ErrorView {
        match self {
            Error::AccessError(e) => ErrorView::AccessError(e@),
            Error::NamingError(e) => ErrorView::NamingError(e@),
            Error::OtherError(e) => ErrorView::OtherError(*e),
            Error::ParsingError(e) => ErrorView::ParsingError(e@),
            Error::CliError(e) => ErrorView::CliError(e@),
        }
    }
}

/// The words `Line`, a line's number counted from 1, and a colon.
pub open spec fn line_prefix(line: u16) -> Seq<char> {
    "Line "@ + decimal((line + 1) as nat) + ": "@
}

/// The words `Line`, the line's number counted from 1, and a colon.
fn line_prefix_string(line: u16) -> (s: String)
    ensures
        s@ == line_prefix(line),
{
    let mut s = String::from_str("Line ");
    let n = decimal_string(line as u64 + 1);
    s.append(n.as_str());
    s.append(": ");
    s
}

/// `head`, `middle` and `tail` in one string.
fn three(head: &str, middle: &str, tail: &str) -> (s: String)
    ensures
        s@ == head@ + middle@ + tail@,
{
    let mut s = String::from_str(head);
    s.append(middle);
    s.append(tail);
    s
}

/// The message of an access error.
pub open spec fn access_message(e: AccessErrorsView) -> Seq<char> {
    match e {
        AccessErrorsView::FileError(path, message) => "Error reading file '"@ + path + "': "@
            + message,
        AccessErrorsView::BlockNotFound(name) => "Block '"@ + name + "' was not found"@,
        AccessErrorsView::DefaultBlockNotMovable => "default block is not movable"@,
    }
}

/// The message of a command-line error.
pub open spec fn cli_message(e: CliErrorsView) -> Seq<char> {
    match e {
        CliErrorsView::NoOperationFound => "No operation found"@,
        CliErrorsView::NoInputFound => "No input found"@,
        CliErrorsView::UnknownCommand(name) => "Unknown command '"@ + name + "'"@,
        CliErrorsView::FailedToParseArgs(what) => "Failed to parse arguments: "@ + what,
    }
}

/// The message of a naming error. Lines are shown counted from 1.
pub open spec fn naming_message(e: NamingErrorsView) -> Seq<char> {
    match e {
        NamingErrorsView::BlockNameEmpty => "Block name can not be empty"@,
        NamingErrorsView::VariableNameEmpty => "Variable name can not be empty"@,
        NamingErrorsView::BlockContainsInvalidCharacter(line, c) => line_prefix(line)
            + "Block name contains invalid characters '"@ + c + "'"@,
        NamingErrorsView::VariableContainsInvalidCharacter(line, c) => line_prefix(line)
            + "Variable name contains invalid characters '"@ + c + "'"@,
        NamingErrorsView::StartsWithInvalidCharacter(line, c) => line_prefix(line)
            + "Block name starts with invalid character '"@ + c + "'"@,
    }
}

/// The message of an error of no other kind.
pub open spec fn other_message(e: OtherErrors) -> Seq<char> {
    "Unknown error occurred"@
}

/// The message of a parsing error. Lines are shown counted from 1.
pub open spec fn parsing_message(e: ParsingErrorsView) -> Seq<char> {
    match e {
        ParsingErrorsView::MissingEqSeparator(line) => line_prefix(line)
            + "Missing key and optional value separator"@,
        ParsingErrorsView::NestedBlock(line, name) => line_prefix(line) + "Block '"@ + name
            + "' can not wrap another block"@,
        ParsingErrorsView::EmptyInput => "Empty input"@,
        ParsingErrorsView::BlockNeverOpened(line) => line_prefix(line)
            + "Closed block was never opened"@,
        ParsingErrorsView::ReservedWord(line, name) => line_prefix(line)
            + "You can not use keyword '"@ + name + "'"@,
        ParsingErrorsView::DuplicateBlock(name) => "Duplicate block '"@ + name + "' found"@,
        ParsingErrorsView::DuplicateVariable(key, block) => "Duplicate variable '"@ + key
            + "' found in block '"@ + block + "'"@,
    }
}

/// The message of an error: that of its kind.
pub open spec fn error_message(e: ErrorView) -> Seq<char> {
    match e {
        ErrorView::AccessError(e) => access_message(e),
        ErrorView::NamingError(e) => naming_message(e),
        ErrorView::OtherError(e) => other_message(e),
        ErrorView::ParsingError(e) => parsing_message(e),
        ErrorView::CliError(e) => cli_message(e),
    }
}

impl AccessErrors {
    /// The message shown for this error.
    pub fn to_string(&self) -> (s: String)
        ensures
            s@ == access_message(self@),
    {
        match self {
            AccessErrors::FileError(path, message) => {
                let mut s = three("Error reading file '", path.as_str(), "': ");
                s.append(message.as_str());
                s
            },
            AccessErrors::BlockNotFound(name) => three("Block '", name.as_str(), "' was not found"),
            AccessErrors::DefaultBlockNotMovable => String::from_str(
                "default block is not movable",
            ),
        }
    }
}

impl CliErrors {
    /// The message shown for this error.
    pub fn to_string(&self) -> (s: String)
        ensures
            s@ == cli_message(self@),
    {
        match self {
            CliErrors::NoOperationFound => String::from_str("No operation found"),
            CliErrors::NoInputFound => String::from_str("No input found"),
            CliErrors::UnknownCommand(name) => three("Unknown command '", name.as_str(), "'"),
            CliErrors::FailedToParseArgs(what) => {
                let mut s = String::from_str("Failed to parse arguments: ");
                s.append(what.as_str());
                s
            },
        }
    }
}

impl NamingErrors {
    /// The message shown for this error.
    pub fn to_string(&self) -> (s: String)
        ensures
            s@ == naming_message(self@),
    {
        match self {
            NamingErrors::BlockNameEmpty => String::from_str("Block name can not be empty"),
            NamingErrors::VariableNameEmpty => String::from_str("Variable name can not be empty"),
            NamingErrors::BlockContainsInvalidCharacter(line, c) => {
                let mut s = line_prefix_string(*line);
                s.append("Block name contains invalid characters '");
                s.append(c.as_str());
                s.append("'");
                s
            },
            NamingErrors::VariableContainsInvalidCharacter(line, c) => {
                let mut s = line_prefix_string(*line);
                s.append("Variable name contains invalid characters '");
                s.append(c.as_str());
                s.append("'");
                s
            },
            NamingErrors::StartsWithInvalidCharacter(line, c) => {
                let mut s = line_prefix_string(*line);
                s.append("Block name starts with invalid character '");
                s.append(c.as_str());
                s.append("'");
                s
            },
        }
    }
}

impl OtherErrors {
    /// The message shown for this error.
    pub fn to_string(&self) -> (s: String)
        ensures
            s@ == other_message(*self),
    {
        String::from_str("Unknown error occurred")
    }
}

impl ParsingErrors {
    /// The message shown for this error.
    pub fn to_string(&self) -> (s: String)
        ensures
            s@ == parsing_message(self@),
    {
        match self {
            ParsingErrors::MissingEqSeparator(line) => {
                let mut s = line_prefix_string(*line);
                s.append("Missing key and optional value separator");
                s
            },
            ParsingErrors::NestedBlock(line, name) => {
                let mut s = line_prefix_string(*line);
                s.append("Block '");
                s.append(name.as_str());
                s.append("' can not wrap another block");
                s
            },
            ParsingErrors::EmptyInput => String::from_str("Empty input"),
            ParsingErrors::BlockNeverOpened(line) => {
                let mut s = line_prefix_string(*line);
                s.append("Closed block was never opened");
                s
            },
            ParsingErrors::ReservedWord(line, name) => {
                let mut s = line_prefix_string(*line);
                s.append("You can not use keyword '");
                s.append(name.as_str());
                s.append("'");
                s
            },
            ParsingErrors::DuplicateBlock(name) => three(
                "Duplicate block '",
                name.as_str(),
                "' found",
            ),
            ParsingErrors::DuplicateVariable(key, block) => {
                let mut s = three("Duplicate variable '", key.as_str(), "' found in block '");
                s.append(block.as_str());
                s.append("'");
                s
            },
        }
    }
}

impl Error {
    /// The message shown for this error.
    pub fn to_string(&self) -> (s: String)
        ensures
            s@ == error_message(self@),
    {
        match self {
            Error::AccessError(e) => e.to_string(),
            Error::NamingError(e) => e.to_string(),
            Error::OtherError(e) => e.to_string(),
            Error::ParsingError(e) => e.to_string(),
            Error::CliError(e) => e.to_string(),
        }
    }
}

} // verus!
