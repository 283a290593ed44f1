//! The commands as they are read from a list of arguments, one type per command.

use crate::cli::{is_resolved, is_version, text_of, Cli, Commands, InputSource};
use crate::error::{CliErrors, CliErrorsView, Error, ErrorView};
use crate::text::same_text;
use vstd::prelude::*;
use vstd::string::*;

verus! {

/// The arguments begin with the command of this name.
pub open spec fn names_command(params: Seq<String>, name: Seq<char>) -> bool {
    params.len() > 0 && params[0]@ == name
}

/// The argument at `i`, if there is one.
pub open spec fn param(params: Seq<String>, i: int) -> Option<Seq<char>> {
    if 0 <= i < params.len() {
        Some(params[i]@)
    } else {
        None
    }
}

/// Whether the arguments begin with the command of this name.
fn is_command(params: &[String], name: &str) -> (r: bool)
    ensures
        r == names_command(params@, name@),
{
    params.len() > 0 && same_text(params[0].as_str(), name)
}

/// A copy of the argument at `i`, if there is one.
fn param_at(params: &[String], i: usize) -> (r: Option<String>)
    ensures
        text_of(r) == param(params@, i as int),
{
    if i < params.len() {
        Some(params[i].clone())
    } else {
        None
    }
}

/// Turns a command that was read from the arguments into what is to be done.
pub trait CliCmd<T> {
    /// `cli` is what `cmd` asks for, with `stdin_input` piped in.
    spec fn asked(cmd: T, stdin_input: Option<InputSource>, cli: Cli) -> bool;

    fn try_from(cmd: T, stdin_input: Option<InputSource>) -> (r: Result<Cli, Error>)
        ensures
            r is Ok,
            Self::asked(cmd, stdin_input, r->Ok_0),
    ;
}

/// `help`.
#[derive(Clone, Copy, Debug)]
pub struct HelpCmd;

impl HelpCmd {
    pub fn try_from(params: &[String]) -> (r: Result<Option<Self>, Error>)
        ensures
            r is Ok,
            r->Ok_0 is Some <==> names_command(params@, "help"@),
    {
        if is_command(params, "help") {
            Ok(Some(HelpCmd))
        } else {
            Ok(None)
        }
    }
}

impl CliCmd<HelpCmd> for Cli {
    open spec fn asked(cmd: HelpCmd, stdin_input: Option<InputSource>, cli: Cli) -> bool {
        cli.input is None && cli.command is Help
    }

    fn try_from(cmd: HelpCmd, stdin_input: Option<InputSource>) -> (r: Result<Cli, Error>) {
        Ok(Cli { input: None, command: Commands::Help })
    }
}

/// `version`.
#[derive(Debug)]
pub struct VersionCmd {
    pub name: String,
    pub version: String,
}

impl VersionCmd {
    pub fn try_from(params: &[String]) -> (r: Result<Option<Self>, Error>)
        ensures
            r is Ok,
            r->Ok_0 is Some <==> names_command(params@, "version"@),
            r->Ok_0 matches Some(cmd) ==> cmd.name@ == "envmn"@ && cmd.version@ == "0.2.7"@,
    {
        if is_command(params, "version") {
            match Cli::version_command() {
                Commands::Version { name, version } => Ok(Some(VersionCmd { name, version })),
                _ => Ok(None),
            }
        } else {
            Ok(None)
        }
    }
}

impl CliCmd<VersionCmd> for Cli {
    open spec fn asked(cmd: VersionCmd, stdin_input: Option<InputSource>, cli: Cli) -> bool {
        cli.input is None && cli.command == (Commands::Version { name: cmd.name, version: cmd.version })
    }

    fn try_from(cmd: VersionCmd, stdin_input: Option<InputSource>) -> (r: Result<Cli, Error>) {
        Ok(Cli { input: None, command: Commands::Version { name: cmd.name, version: cmd.version } })
    }
}

/// `lint [file]`.
#[derive(Debug)]
pub struct LintCmd {
    file_name: Option<String>,
}

impl LintCmd {
    /// The file that the command names.
    pub closed spec fn file(&self) -> Option<Seq<char>> {
        text_of(self.file_name)
    }

    pub fn try_from(params: &[String]) -> (r: Result<Option<Self>, Error>)
        ensures
            r is Ok,
            r->Ok_0 is Some <==> names_command(params@, "lint"@),
            r->Ok_0 matches Some(cmd) ==> cmd.file() == param(params@, 1),
    {
        if is_command(params, "lint") {
            Ok(Some(LintCmd { file_name: param_at(params, 1) }))
        } else {
            Ok(None)
        }
    }
}

impl CliCmd<LintCmd> for Cli {
    open spec fn asked(cmd: LintCmd, stdin_input: Option<InputSource>, cli: Cli) -> bool {
        cli.command is Lint && cli.input is Some && is_resolved(cmd.file(), stdin_input, cli.input->0)
    }

    fn try_from(cmd: LintCmd, stdin_input: Option<InputSource>) -> (r: Result<Cli, Error>) {
        Ok(Cli { input: Some(Cli::resolve_input(cmd.file_name, stdin_input)), command: Commands::Lint })
    }
}

/// `format [file]`.
#[derive(Debug)]
pub struct FormatCmd {
    file_name: Option<String>,
}

impl FormatCmd {
    /// The file that the command names.
    pub closed spec fn file(&self) -> Option<Seq<char>> {
        text_of(self.file_name)
    }

    pub fn try_from(params: &[String]) -> (r: Result<Option<Self>, Error>)
        ensures
            r is Ok,
            r->Ok_0 is Some <==> names_command(params@, "format"@),
            r->Ok_0 matches Some(cmd) ==> cmd.file() == param(params@, 1),
    {
        if is_command(params, "format") {
            Ok(Some(FormatCmd { file_name: param_at(params, 1) }))
        } else {
            Ok(None)
        }
    }
}

impl CliCmd<FormatCmd> for Cli {
    open spec fn asked(cmd: FormatCmd, stdin_input: Option<InputSource>, cli: Cli) -> bool {
        cli.command is Format && cli.input is Some && is_resolved(cmd.file(), stdin_input, cli.input->0)
    }

    fn try_from(cmd: FormatCmd, stdin_input: Option<InputSource>) -> (r: Result<Cli, Error>) {
        Ok(
            Cli {
                input: Some(Cli::resolve_input(cmd.file_name, stdin_input)),
                command: Commands::Format,
            },
        )
    }
}

/// `list [file]`.
#[derive(Debug)]
pub struct ListCmd {
    file_name: Option<String>,
}

impl ListCmd {
    /// The file that the command names.
    pub closed spec fn file(&self) -> Option<Seq<char>> {
        text_of(self.file_name)
    }

    pub fn try_from(params: &[String]) -> (r: Result<Option<Self>, Error>)
        ensures
            r is Ok,
            r->Ok_0 is Some <==> names_command(params@, "list"@),
            r->Ok_0 matches Some(cmd) ==> cmd.file() == param(params@, 1),
    {
        if is_command(params, "list") {
            Ok(Some(ListCmd { file_name: param_at(params, 1) }))
        } else {
            Ok(None)
        }
    }
}

impl CliCmd<ListCmd> for Cli {
    open spec fn asked(cmd: ListCmd, stdin_input: Option<InputSource>, cli: Cli) -> bool {
        cli.command is List && cli.input is Some && is_resolved(cmd.file(), stdin_input, cli.input->0)
    }

    fn try_from(cmd: ListCmd, stdin_input: Option<InputSource>) -> (r: Result<Cli, Error>) {
        Ok(Cli { input: Some(Cli::resolve_input(cmd.file_name, stdin_input)), command: Commands::List })
    }
}

/// `pick <block> [file]`.
#[derive(Debug)]
pub struct PickCmd {
    pub block_name: String,
    file_name: Option<String>,
}

impl PickCmd {
    /// The block that the command names.
    pub closed spec fn block(&self) -> Seq<char> {
        self.block_name@
    }

    /// The file that the command names.
    pub closed spec fn file(&self) -> Option<Seq<char>> {
        text_of(self.file_name)
    }

    /// Reads `pick <block> [file]`. Arguments that begin with another
    /// command are none of this command's; `pick` without a block is refused.
    pub fn try_from(params: &[String]) -> (r: Result<Option<Self>, Error>)
        ensures
            !names_command(params@, "pick"@) ==> r is Ok && r->Ok_0 is None,
            names_command(params@, "pick"@) && params@.len() < 2 ==> r is Err && r->Err_0@
                == ErrorView::CliError(CliErrorsView::FailedToParseArgs("Provide a block name"@)),
            names_command(params@, "pick"@) && params@.len() >= 2 ==> r is Ok && r->Ok_0 is Some
                && r->Ok_0->0.block() == params@[1]@ && r->Ok_0->0.file() == param(params@, 2),
    {
        if !is_command(params, "pick") {
            return Ok(None);
        }
        if params.len() < 2 {
            return Err(
                Error::CliError(
                    CliErrors::FailedToParseArgs(String::from_str("Provide a block name")),
                ),
            );
        }
        Ok(Some(PickCmd { block_name: params[1].clone(), file_name: param_at(params, 2) }))
    }
}

impl CliCmd<PickCmd> for Cli {
    open spec fn asked(cmd: PickCmd, stdin_input: Option<InputSource>, cli: Cli) -> bool {
        &&& cli.command matches Commands::Pick { block_name }
        &&& block_name@ == cmd.block()
        &&& cli.input is Some
        &&& is_resolved(cmd.file(), stdin_input, cli.input->0)
    }

    fn try_from(cmd: PickCmd, stdin_input: Option<InputSource>) -> (r: Result<Cli, Error>) {
        Ok(
            Cli {
                input: Some(Cli::resolve_input(cmd.file_name, stdin_input)),
                command: Commands::Pick { block_name: cmd.block_name },
            },
        )
    }
}

/// The arguments name one of the commands.
pub open spec fn names_any_command(params: Seq<String>) -> bool {
    ||| names_command(params, "pick"@)
    ||| names_command(params, "list"@)
    ||| names_command(params, "lint"@)
    ||| names_command(params, "format"@)
    ||| names_command(params, "version"@)
    ||| names_command(params, "help"@)
}

/// `cli` is what the arguments ask for, with `stdin_input` piped in.
pub open spec fn asks_for(params: Seq<String>, stdin_input: Option<InputSource>, cli: Cli) -> bool {
    if names_command(params, "pick"@) {
        &&& cli.command matches Commands::Pick { block_name }
        &&& param(params, 1) == Some(block_name@)
        &&& cli.input is Some
        &&& is_resolved(param(params, 2), stdin_input, cli.input->0)
    } else if names_command(params, "version"@) {
        cli.input is None && is_version(cli.command)
    } else if names_command(params, "help"@) {
        cli.input is None && cli.command is Help
    } else {
        &&& cli.input is Some
        &&& is_resolved(param(params, 1), stdin_input, cli.input->0)
        &&& if names_command(params, "list"@) {
            cli.command is List
        } else if names_command(params, "lint"@) {
            cli.command is Lint
        } else {
            cli.command is Format
        }
    }
}

/// What the arguments are refused for, if they are: that there is none, that
/// the first names no command, or that `pick` names no block.
pub open spec fn params_fault(params: Seq<String>) -> Option<CliErrorsView> {
    if params.len() == 0 {
        Some(CliErrorsView::NoOperationFound)
    } else if !names_any_command(params) {
        Some(CliErrorsView::UnknownCommand(params[0]@))
    } else if names_command(params, "pick"@) && params.len() < 2 {
        Some(CliErrorsView::FailedToParseArgs("Provide a block name"@))
    } else {
        None
    }
}

impl Cli {
    /// What a list of arguments and the piped input ask for.
    pub fn from_params(params: &[String], stdin_input: Option<InputSource>) -> (r: Result<
        Cli,
        Error,
    >)
        ensures
            match params_fault(params@) {
                Some(fault) => r is Err && r->Err_0@ == ErrorView::CliError(fault),
                None => r is Ok && asks_for(params@, stdin_input, r->Ok_0),
            },
    {
        proof {
            reveal_strlit("pick");
            reveal_strlit("list");
            reveal_strlit("lint");
            reveal_strlit("format");
            reveal_strlit("version");
            reveal_strlit("help");
            assert("pick"@.len() == 4 && "list"@.len() == 4 && "lint"@.len() == 4);
            assert("format"@.len() == 6 && "version"@.len() == 7);
            assert("help"@[0] == 'h' && "pick"@[0] == 'p' && "list"@[2] == 's' && "lint"@[2] == 'n');
            assert("list"@[0] == 'l' && "lint"@[0] == 'l');
        }
        if params.len() == 0 {
            return Err(Error::CliError(CliErrors::NoOperationFound));
        }
        match PickCmd::try_from(params) {
            Err(e) => {
                return Err(e);
            },
            Ok(Some(cmd)) => {
                return <Cli as CliCmd<PickCmd>>::try_from(cmd, stdin_input);
            },
            Ok(None) => {},
        }
        match ListCmd::try_from(params) {
            Ok(Some(cmd)) => {
                return <Cli as CliCmd<ListCmd>>::try_from(cmd, stdin_input);
            },
            _ => {},
        }
        match LintCmd::try_from(params) {
            Ok(Some(cmd)) => {
                return <Cli as CliCmd<LintCmd>>::try_from(cmd, stdin_input);
            },
            _ => {},
        }
        match FormatCmd::try_from(params) {
            Ok(Some(cmd)) => {
                return <Cli as CliCmd<FormatCmd>>::try_from(cmd, stdin_input);
            },
            _ => {},
        }
        match VersionCmd::try_from(params) {
            Ok(Some(cmd)) => {
                return <Cli as CliCmd<VersionCmd>>::try_from(cmd, stdin_input);
            },
            _ => {},
        }
        match HelpCmd::try_from(params) {
            Ok(Some(cmd)) => {
                return <Cli as CliCmd<HelpCmd>>::try_from(cmd, stdin_input);
            },
            _ => {},
        }
        Err(Error::CliError(CliErrors::UnknownCommand(params[0].clone())))
    }
}

} // verus!
