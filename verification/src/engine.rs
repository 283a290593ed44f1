//! The engine: carries out a command on a parsed document and says what is
//! to be written where.

use crate::block::BlockView;
use crate::cli::{Cli, Commands, InputSource};
use crate::document::{document_text, names_of, picked, Document};
use crate::error::{CliErrors, CliErrorsView, Error, ErrorView};
use crate::text::{decimal, decimal_string, join, join_strings, texts};
use vstd::prelude::*;
use vstd::string::*;

verus! {

/// What the caller is to do once a command has been carried out.
#[derive(Debug)]
pub enum Output {
    /// Nothing is written.
    Nothing,
    /// This text goes to standard output.
    Print(String),
    /// The file at this path is overwritten with this text.
    Write(String, String),
}

/// A command, its input, and the document that was parsed from the input.
pub struct Engine {
    cli: Cli,
    document: Document,
}

/// What `help` prints.
pub const HELP_TEXT: &'static str = "
envmn — environment manager for .env-style files

Usage:
  envmn <command> [options] [file]

Commands:
  help                  Show this help message
  version               Display the current version
  list                  List all environment blocks in the file
  lint                  Check for syntax and linting errors
  format                Pretty-format the file
  pick <block>          Reorder the file by moving the specified block down

Input modes:
  - If data is piped in, envmn reads from standard input and writes to standard output.
  - If both a pipe and a file are provided, the piped input takes priority.
  - If no file is provided, envmn assumes a `.env` file exists in the current directory (for convenience).
  - When a file path is provided (or .env is assumed), envmn reads from (and edits, if a file was passed) the file directly.

Examples:
  cat .env | envmn lint
  envmn format .env
  envmn pick database_block .env > out.env
  envmn version

For more information, visit: https://github.com/devark28/envmn

";

/// The names of the blocks as the items of a list.
pub open spec fn list_items(names: Seq<Seq<char>>) -> Seq<Seq<char>> {
    Seq::new(names.len(), |i: int| "- "@ + names[i])
}

/// What `list` prints: the number of blocks, then their names in order,
/// one per line.
pub open spec fn list_text(d: Seq<BlockView>) -> Seq<char> {
    "Blocks ("@ + decimal(d.len()) + "):\n"@ + join(list_items(names_of(d)), "\n"@) + "\n"@
}

/// What `version` prints.
pub open spec fn version_text(name: Seq<char>, version: Seq<char>) -> Seq<char> {
    name + " version "@ + version + "\n"@
}

/// `r` says to print `text`.
pub open spec fn prints(r: Result<Output, Error>, text: Seq<char>) -> bool {
    r matches Ok(Output::Print(t)) && t@ == text
}

/// `r` says to overwrite the file at `path` with `text`.
pub open spec fn writes(r: Result<Output, Error>, path: Seq<char>, text: Seq<char>) -> bool {
    r matches Ok(Output::Write(p, t)) && p@ == path && t@ == text
}

/// `r` is the error `e`.
pub open spec fn fails_with(r: Result<Output, Error>, e: ErrorView) -> bool {
    r matches Err(x) && x@ == e
}

/// `r` sends `text` back to where the input came from: to standard output
/// where it was piped in, to the file where it was read from one. Without
/// an input there is nowhere to send it.
pub open spec fn emitted(input: Option<InputSource>, text: Seq<char>, r: Result<Output, Error>) -> bool {
    match input {
        None => fails_with(r, ErrorView::CliError(CliErrorsView::NoInputFound)),
        Some(InputSource::StdIn(_)) => prints(r, text),
        Some(InputSource::FileName(path)) => writes(r, path@, text),
    }
}

/// What carrying out `command` on the document `d` read from `input` gives.
pub open spec fn processed(
    command: Commands,
    input: Option<InputSource>,
    d: Seq<BlockView>,
    r: Result<Output, Error>,
) -> bool {
    match command {
        Commands::Lint => r matches Ok(Output::Nothing),
        Commands::List => prints(r, list_text(d)),
        Commands::Format => emitted(input, document_text(d), r),
        Commands::Pick { block_name } => match picked(d, block_name@) {
            Err(e) => fails_with(r, ErrorView::AccessError(e)),
            Ok(moved) => emitted(input, document_text(moved), r),
        },
        _ => fails_with(r, ErrorView::CliError(CliErrorsView::NoOperationFound)),
    }
}

/// Says where `text` goes, given where the input came from.
fn emit(input: Option<InputSource>, text: String) -> (r: Result<Output, Error>)
    ensures
        emitted(input, text@, r),
{
    match input {
        None => Err(Error::CliError(CliErrors::NoInputFound)),
        Some(InputSource::StdIn(_)) => Ok(Output::Print(text)),
        Some(InputSource::FileName(path)) => Ok(Output::Write(path, text)),
    }
}

impl Engine {
    /// The command and its input.
    pub closed spec fn cli(&self) -> Cli {
        self.cli
    }

    /// The document.
    pub closed spec fn document(&self) -> Seq<BlockView> {
        self.document@
    }

    /// The engine is in order: its document is.
    pub closed spec fn wf(&self) -> bool {
        self.document.wf()
    }

    pub fn new(cli: Cli, document: Document) -> (e: Self)
        ensures
            e.cli() == cli,
            e.document() == document@,
            e.wf() == document.wf(),
    {
        Engine { cli, document }
    }

    /// Carries out the command. `lint` has nothing to write, `list` prints
    /// the names of the blocks, `format` and `pick` send the document's text
    /// back to where the input came from; `version` and `help` are no
    /// operations on a document.
    pub fn process(self) -> (r: Result<Output, Error>)
        requires
            self.wf(),
        ensures
            processed(self.cli().command, self.cli().input, self.document(), r),
    {
        match &self.cli.command {
            Commands::Lint => Ok(Output::Nothing),
            Commands::List => Ok(Output::Print(self.process_list_cmd())),
            Commands::Format => self.process_format_cmd(),
            Commands::Pick { block_name } => {
                let name = block_name.clone();
                self.process_pick_cmd(name)
            },
            _ => Err(Error::CliError(CliErrors::NoOperationFound)),
        }
    }

    /// What `list` prints.
    pub fn process_list_cmd(&self) -> (s: String)
        ensures
            s@ == list_text(self.document()),
    {
        let blocks = self.document.get_blocks();
        let mut items: Vec<String> = Vec::new();
        let mut i: usize = 0;
        while i < blocks.len()
            invariant
                i <= blocks@.len(),
                blocks@.len() == self.document@.len(),
                forall|j: int| 0 <= j < blocks@.len() ==> (#[trigger] blocks@[j])@ == self.document@[j],
                texts(items@) == list_items(names_of(self.document@)).take(i as int),
            decreases blocks@.len() - i,
        {
            let ghost before = texts(items@);
            let mut item = String::from_str("- ");
            item.append(blocks[i].name().as_str());
            let ghost text = item@;
            items.push(item);
            proof {
                assert(texts(items@) =~= before.push(text));
                assert(before.push(text) =~= list_items(names_of(self.document@)).take(i + 1));
            }
            i = i + 1;
        }
        assert(list_items(names_of(self.document@)).take(i as int) =~= list_items(
            names_of(self.document@),
        ));
        let mut s = String::from_str("Blocks (");
        let count = decimal_string(self.document.blocks_len() as u64);
        s.append(count.as_str());
        s.append("):\n");
        let list = join_strings(&items, "\n");
        s.append(list.as_str());
        s.append("\n");
        s
    }

    /// Sends the document's text back to where the input came from.
    pub fn process_format_cmd(self) -> (r: Result<Output, Error>)
        ensures
            emitted(self.cli().input, document_text(self.document()), r),
    {
        let text = self.document.to_string();
        emit(self.cli.input, text)
    }

    /// Moves the block of this name behind all the others and sends the
    /// document's text back to where the input came from.
    pub fn process_pick_cmd(self, block_name: String) -> (r: Result<Output, Error>)
        requires
            self.wf(),
        ensures
            match picked(self.document(), block_name@) {
                Err(e) => fails_with(r, ErrorView::AccessError(e)),
                Ok(moved) => emitted(self.cli().input, document_text(moved), r),
            },
    {
        let mut document = self.document;
        match document.pick(block_name.as_str()) {
            Err(e) => Err(e),
            Ok(_) => {
                let text = document.to_string();
                emit(self.cli.input, text)
            },
        }
    }

    /// What `help` prints.
    pub fn process_help_cmd() -> (s: String)
        ensures
            s@ == HELP_TEXT@,
    {
        String::from_str(HELP_TEXT)
    }

    /// What `version` prints.
    pub fn process_version_cmd(name: &str, version: &str) -> (s: String)
        ensures
            s@ == version_text(name@, version@),
    {
        let mut s = String::from_str(name);
        s.append(" version ");
        s.append(version);
        s.append("\n");
        s
    }
}

} // verus!
