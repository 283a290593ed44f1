//! What the command line asks for: the command and the input that it works on.

use crate::error::{CliErrors, CliErrorsView, Error, ErrorView};
use vstd::prelude::*;
use vstd::string::*;

verus! {

/// The file that is read where none is named and nothing is piped in.
pub const DEFAULT_FILE: &'static str = ".env";

/// The name under which the program reports its version.
pub const PROGRAM_NAME: &'static str = "envmn";

/// The version that the program reports.
pub const PROGRAM_VERSION: &'static str = "0.2.7";

/// Where the text comes from.
#[derive(Debug)]
pub enum InputSource {
    /// The text that was piped in.
    StdIn(String),
    /// The path of the file to read.
    FileName(String),
}

/// The arguments as they were given.
#[derive(Debug)]
pub struct Args {
    /// Whether the version was asked for.
    pub version: bool,
    pub command: Option<ArgCommands>,
}

/// A subcommand as it was given, with the file it names, if any.
#[derive(Debug)]
pub enum ArgCommands {
    Lint { file: Option<String> },
    Format { file: Option<String> },
    List { file: Option<String> },
    Pick { block: String, file: Option<String> },
}

/// What is to be done.
#[derive(Debug)]
pub enum Commands {
    Version { name: String, version: String },
    Help,
    Lint,
    Format,
    List,
    Pick { block_name: String },
}

/// A command and its input. `Version` and `Help` have no input.
#[derive(Debug)]
pub struct Cli {
    pub input: Option<InputSource>,
    pub command: Commands,
}

/// `source` is the input for a command that names `file`, with
/// `stdin_input` piped in: what was piped in if anything was, else the file
/// that the command names, else the file `.env`.
pub open spec fn is_resolved(
    file: Option<Seq<char>>,
    stdin_input: Option<InputSource>,
    source: InputSource,
) -> bool {
    match stdin_input {
        Some(piped) => source == piped,
        None => source matches InputSource::FileName(path) && path@ == match file {
            Some(named) => named,
            None => ".env"@,
        },
    }
}

/// The text of a string that may be there.
pub open spec fn text_of(s: Option<String>) -> Option<Seq<char>> {
    match s {
        Some(s) => Some(s@),
        None => None,
    }
}

/// The file that a subcommand names.
pub open spec fn file_of(command: ArgCommands) -> Option<Seq<char>> {
    match command {
        ArgCommands::Lint { file } => text_of(file),
        ArgCommands::Format { file } => text_of(file),
        ArgCommands::List { file } => text_of(file),
        ArgCommands::Pick { block, file } => text_of(file),
    }
}

/// What a subcommand asks for.
pub open spec fn command_of(command: ArgCommands) -> Commands {
    match command {
        ArgCommands::Lint { file } => Commands::Lint,
        ArgCommands::Format { file } => Commands::Format,
        ArgCommands::List { file } => Commands::List,
        ArgCommands::Pick { block, file } => Commands::Pick { block_name: block },
    }
}

/// `command` reports this program's name and version.
pub open spec fn is_version(command: Commands) -> bool {
    command matches Commands::Version { name, version } && name@ == "envmn"@ && version@
        == "0.2.7"@
}

impl Cli {
    /// What the given arguments and the piped input ask for. The version
    /// flag asks for the version, whatever else is given; without it a
    /// subcommand is needed, which works on the resolved input.
    pub fn init(args: Args, stdin_input: Option<InputSource>) -> (r: Result<Cli, Error>)
        ensures
            args.version ==> r is Ok && r->Ok_0.input is None && is_version(r->Ok_0.command),
            !args.version && args.command is None ==> r is Err && r->Err_0@ == ErrorView::CliError(
                CliErrorsView::NoOperationFound,
            ),
            !args.version && args.command is Some ==> r is Ok && r->Ok_0.command == command_of(
                args.command->0,
            ) && r->Ok_0.input is Some && is_resolved(
                file_of(args.command->0),
                stdin_input,
                r->Ok_0.input->0,
            ),
    {
        if args.version {
            return Ok(Cli { input: None, command: Self::version_command() });
        }
        match args.command {
            None => Err(Error::CliError(CliErrors::NoOperationFound)),
            Some(ArgCommands::Lint { file }) => Ok(
                Cli { input: Some(Self::resolve_input(file, stdin_input)), command: Commands::Lint },
            ),
            Some(ArgCommands::Format { file }) => Ok(
                Cli {
                    input: Some(Self::resolve_input(file, stdin_input)),
                    command: Commands::Format,
                },
            ),
            Some(ArgCommands::List { file }) => Ok(
                Cli { input: Some(Self::resolve_input(file, stdin_input)), command: Commands::List },
            ),
            Some(ArgCommands::Pick { block, file }) => Ok(
                Cli {
                    input: Some(Self::resolve_input(file, stdin_input)),
                    command: Commands::Pick { block_name: block },
                },
            ),
        }
    }

    /// The input of a command: what was piped in if anything was, else the
    /// file that the command names, else the file `.env`.
    pub fn resolve_input(file: Option<String>, stdin_input: Option<InputSource>) -> (source:
        InputSource)
        ensures
            is_resolved(text_of(file), stdin_input, source),
    {
        match stdin_input {
            Some(piped) => piped,
            None => match file {
                Some(path) => InputSource::FileName(path),
                None => InputSource::FileName(String::from_str(DEFAULT_FILE)),
            },
        }
    }

    /// The command that reports this program's name and version.
    pub fn version_command() -> (command: Commands)
        ensures
            is_version(command),
    {
        Commands::Version {
            name: String::from_str(PROGRAM_NAME),
            version: String::from_str(PROGRAM_VERSION),
        }
    }
}

} // verus!
