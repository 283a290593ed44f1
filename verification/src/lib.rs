//! Parsing, validation, formatting and reordering of `.env`-style files
//! whose variables may be grouped into named blocks.
//!
//! A text is read by [`Parser`] into a [`Document`]: the default block and
//! the named blocks after it, each a [`Block`] of comments and variables.
//! A document can be reordered with [`Document::pick`] and written out again
//! with [`Document::to_string`]. [`Engine`] carries out the commands of the
//! command line on a parsed document.

pub mod block;
pub mod cli;
pub mod commands;
pub mod constants;
pub mod document;
pub mod engine;
pub mod error;
pub mod keyset;
pub mod laws;
pub mod line;
pub mod parser;
pub mod roundtrip;
pub mod text;
pub mod validators;
pub mod variable;

pub use block::Block;
pub use cli::{ArgCommands, Args, Cli, Commands, InputSource};
pub use commands::{CliCmd, FormatCmd, HelpCmd, LintCmd, ListCmd, PickCmd, VersionCmd};
pub use document::Document;
pub use engine::{Engine, Output};
pub use error::{AccessErrors, CliErrors, Error, NamingErrors, OtherErrors, ParsingErrors};
pub use line::Line;
pub use parser::Parser;
pub use validators::{validate_block_name, validate_variable_name};
pub use variable::Variable;
