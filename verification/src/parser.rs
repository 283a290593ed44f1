//! The parser: a state machine that reads a text line by line and builds a document.

use crate::block::{empty_block, has_key, with_comment, with_variable, Block, BlockView};
use crate::constants::DEFAULT_BLOCK_NAME;
use crate::document::{has_block, Document};
use crate::error::{
    AccessErrors, AccessErrorsView, Error, ErrorView, ParsingErrors, ParsingErrorsView,
};
use crate::text::{
    after_first_line, chars_of, drop_space, find_char, first_line, index_of, lines_of, same_text,
    skip_space, string_of, trim, trim_start,
};
use crate::validators::{
    block_name_fault, validate_block_name, validate_variable_name, variable_name_fault,
};
use crate::variable::{Variable, VariableView};
use vstd::prelude::*;
use vstd::string::*;

verus! {

/// The parser's state: the document built so far and the block that is
/// open, if one is.
pub struct Parser {
    pub document: Document,
    current_block: Option<Block>,
}

/// What the parser's state holds: the blocks of the document so far, and
/// the open block.
pub struct ParserView {
    pub document: Seq<BlockView>,
    pub current: Option<BlockView>,
}

/// The number under which the line at `index` (counted from 0) is reported.
pub open spec fn line_number(index: nat) -> u16 {
    (index % 0x10000) as u16
}

/// The line opens a block: it begins with `#@`.
pub open spec fn opens_block(line: Seq<char>) -> bool {
    line.len() >= 2 && line[0] == '#' && line[1] == '@'
}

/// The line closes a block: it begins with `##`.
pub open spec fn closes_block(line: Seq<char>) -> bool {
    line.len() >= 2 && line[0] == '#' && line[1] == '#'
}

/// The line begins with `#`.
pub open spec fn begins_comment(line: Seq<char>) -> bool {
    line.len() >= 1 && line[0] == '#'
}

/// The line holds nothing but white space.
pub open spec fn is_blank(line: Seq<char>) -> bool {
    trim_start(line).len() == 0
}

/// The block that takes the next line: the open block, or the default block.
pub open spec fn target(st: ParserView) -> BlockView {
    match st.current {
        Some(b) => b,
        None => st.document[0],
    }
}

/// `st` with `b` in place of the block that takes the next line.
pub open spec fn with_target(st: ParserView, b: BlockView) -> ParserView {
    match st.current {
        Some(_) => ParserView { document: st.document, current: Some(b) },
        None => ParserView { document: st.document.update(0, b), current: None },
    }
}

/// The state before the first line: the empty default block, no block open.
pub open spec fn initial_state() -> ParserView {
    ParserView { document: seq![empty_block("default"@)], current: None }
}

/// What a line that opens a block does: it is refused inside an open
/// block, under the reserved name and under a name that breaks the naming
/// rules; else the block of that name is open and empty.
pub open spec fn open_step(st: ParserView, line: Seq<char>, n: u16) -> Result<
    ParserView,
    ErrorView,
> {
    match st.current {
        Some(open) => Err(ErrorView::ParsingError(ParsingErrorsView::NestedBlock(n, open.name))),
        None => {
            let name = trim(line.skip(2));
            if name == "default"@ {
                Err(ErrorView::ParsingError(ParsingErrorsView::ReservedWord(n, name)))
            } else {
                match block_name_fault(n, name) {
                    Some(fault) => Err(ErrorView::NamingError(fault)),
                    None => Ok(
                        ParserView { document: st.document, current: Some(empty_block(name)) },
                    ),
                }
            }
        },
    }
}

/// What a line that closes a block does: it is refused where no block is
/// open and where the document has a block of the open block's name; else
/// the open block becomes the document's last block.
pub open spec fn close_step(st: ParserView, n: u16) -> Result<ParserView, ErrorView> {
    match st.current {
        None => Err(ErrorView::ParsingError(ParsingErrorsView::BlockNeverOpened(n))),
        Some(b) => {
            if has_block(st.document, b.name) {
                Err(ErrorView::ParsingError(ParsingErrorsView::DuplicateBlock(b.name)))
            } else {
                Ok(ParserView { document: st.document.push(b), current: None })
            }
        },
    }
}

/// What a line that assigns a variable does: it is refused without `=`,
/// with a key that breaks the naming rules, and with a key that the target
/// block holds already; else the target block gets the variable.
pub open spec fn variable_step(st: ParserView, line: Seq<char>, n: u16) -> Result<
    ParserView,
    ErrorView,
> {
    let k = index_of(line, '=') as int;
    if k >= line.len() {
        Err(ErrorView::ParsingError(ParsingErrorsView::MissingEqSeparator(n)))
    } else {
        let v = VariableView { key: line.take(k), value: line.skip(k + 1) };
        match variable_name_fault(n, v.key) {
            Some(fault) => Err(ErrorView::NamingError(fault)),
            None => {
                if has_key(target(st).lines, v.key) {
                    Err(
                        ErrorView::ParsingError(
                            ParsingErrorsView::DuplicateVariable(v.key, target(st).name),
                        ),
                    )
                } else {
                    Ok(with_target(st, with_variable(target(st), v)))
                }
            },
        }
    }
}

/// What one line does to the state. `n` is the number under which the line
/// is reported.
pub open spec fn step(st: ParserView, line: Seq<char>, n: u16) -> Result<ParserView, ErrorView> {
    if opens_block(line) {
        open_step(st, line, n)
    } else if closes_block(line) {
        close_step(st, n)
    } else if begins_comment(line) {
        Ok(with_target(st, with_comment(target(st), trim_start(line.skip(1)))))
    } else if is_blank(line) {
        Ok(st)
    } else {
        variable_step(st, line, n)
    }
}

/// What lines do to the state, one after the other, the first of them
/// being the line at `index`. The first line that is refused ends the run.
pub open spec fn run(st: ParserView, lines: Seq<Seq<char>>, index: nat) -> Result<
    ParserView,
    ErrorView,
>
    decreases lines.len(),
{
    if lines.len() == 0 {
        Ok(st)
    } else {
        match step(st, lines[0], line_number(index)) {
            Err(e) => Err(e),
            Ok(next) => run(next, lines.drop_first(), index + 1),
        }
    }
}

/// The document that a text gives when it is read from the state `st`. An
/// empty text is refused. A block that is still open at the end is left out.
pub open spec fn parsed_from(st: ParserView, text: Seq<char>) -> Result<
    Seq<BlockView>,
    ErrorView,
> {
    if text.len() == 0 {
        Err(ErrorView::ParsingError(ParsingErrorsView::EmptyInput))
    } else {
        match run(st, lines_of(text), 0) {
            Err(e) => Err(e),
            Ok(end) => Ok(end.document),
        }
    }
}

/// The document that a text gives.
pub open spec fn parsed(text: Seq<char>) -> Result<Seq<BlockView>, ErrorView> {
    parsed_from(initial_state(), text)
}

/// What reading a file gives: the document of its content, or, where the
/// file could not be read, the path and the message with which reading failed.
pub open spec fn parsed_file(st: ParserView, path: Seq<char>, content: Result<Seq<char>, Seq<char>>) -> Result<
    Seq<BlockView>,
    ErrorView,
> {
    match content {
        Ok(text) => parsed_from(st, text),
        Err(message) => Err(ErrorView::AccessError(AccessErrorsView::FileError(path, message))),
    }
}

impl View for Parser {
    type V = ParserView;

    closed spec fn view(&self) -> ParserView {
        ParserView {
            document: self.document@,
            current: match self.current_block {
                Some(b) => Some(b@),
                None => None,
            },
        }
    }
}

/// The number under which the line at `index` is reported.
#[verifier::truncate]
fn line_no(index: usize) -> (n: u16)
    ensures
        n == line_number(index as nat),
{
    (index % 0x10000) as u16
}

impl Parser {
    /// The parser is in order: its document is, and so is the open block.
    pub closed spec fn wf(&self) -> bool {
        &&& self.document.wf()
        &&& match self.current_block {
            Some(b) => b.wf(),
            None => true,
        }
    }

    /// A parser before the first line.
    pub fn new() -> (p: Self)
        ensures
            p.wf(),
            p@ == initial_state(),
    {
        Parser { document: Document::new(), current_block: None }
    }

    /// Adds a comment to the block that takes the next line.
    fn add_comment(&mut self, text: &str) -> (r: Result<(), Error>)
        requires
            old(self).wf(),
        ensures
            r is Ok,
            final(self).wf(),
            final(self)@ == with_target(old(self)@, with_comment(target(old(self)@), text@)),
    {
        match self.current_block.take() {
            Some(mut block) => {
                block.add_comment(text);
                self.current_block = Some(block);
                Ok(())
            },
            None => {
                match self.document.get_default_block_mut() {
                    Ok(block) => {
                        block.add_comment(text);
                        Ok(())
                    },
                    Err(e) => Err(e),
                }
            },
        }
    }

    /// Adds a variable to the block that takes the next line.
    fn add_variable(&mut self, variable: Variable) -> (r: Result<(), Error>)
        requires
            old(self).wf(),
        ensures
            final(self).wf(),
            r is Err <==> has_key(target(old(self)@).lines, variable@.key),
            r is Ok ==> final(self)@ == with_target(
                old(self)@,
                with_variable(target(old(self)@), variable@),
            ),
            r matches Err(e) ==> e@ == ErrorView::ParsingError(
                ParsingErrorsView::DuplicateVariable(variable@.key, target(old(self)@).name),
            ),
    {
        match self.current_block.take() {
            Some(mut block) => {
                let r = block.add_variable(variable);
                self.current_block = Some(block);
                r
            },
            None => {
                match self.document.get_default_block_mut() {
                    Ok(block) => block.add_variable(variable),
                    Err(e) => Err(e),
                }
            },
        }
    }

    /// Takes one line, `chars[from..to]`, found at `index`.
    fn take_line(&mut self, chars: &Vec<char>, from: usize, to: usize, index: usize) -> (r: Result<
        (),
        Error,
    >)
        requires
            old(self).wf(),
            from <= to <= chars@.len(),
        ensures
            match step(
                old(self)@,
                chars@.subrange(from as int, to as int),
                line_number(index as nat),
            ) {
                Ok(st) => r is Ok && final(self).wf() && final(self)@ == st,
                Err(e) => r is Err && r->Err_0@ == e,
            },
    {
        let ghost line = chars@.subrange(from as int, to as int);
        let n = line_no(index);
        if to - from >= 2 && chars[from] == '#' && chars[from + 1] == '@' {
            match &self.current_block {
                Some(open) => {
                    return Err(
                        Error::ParsingError(ParsingErrors::NestedBlock(n, open.name().clone())),
                    );
                },
                None => {},
            }
            let a = skip_space(chars, from + 2, to);
            let b = drop_space(chars, a, to);
            let name = string_of(chars, a, b);
            proof {
                assert(line.skip(2) =~= chars@.subrange(from + 2, to as int));
            }
            if same_text(name.as_str(), DEFAULT_BLOCK_NAME) {
                return Err(Error::ParsingError(ParsingErrors::ReservedWord(n, name)));
            }
            match validate_block_name(n, name.as_str()) {
                Err(e) => {
                    return Err(e);
                },
                Ok(_) => {},
            }
            self.current_block = Some(Block::new(name.as_str()));
            Ok(())
        } else if to - from >= 2 && chars[from] == '#' && chars[from + 1] == '#' {
            match self.current_block.take() {
                None => Err(Error::ParsingError(ParsingErrors::BlockNeverOpened(n))),
                Some(block) => self.document.add_block(block),
            }
        } else if to - from >= 1 && chars[from] == '#' {
            let a = skip_space(chars, from + 1, to);
            let text = string_of(chars, a, to);
            proof {
                assert(line.skip(1) =~= chars@.subrange(from + 1, to as int));
            }
            self.add_comment(text.as_str())
        } else {
            let a = skip_space(chars, from, to);
            if a == to {
                return Ok(());
            }
            let k = find_char(chars, from, to, '=');
            if k == to {
                return Err(Error::ParsingError(ParsingErrors::MissingEqSeparator(n)));
            }
            let key = string_of(chars, from, k);
            let value = string_of(chars, k + 1, to);
            proof {
                assert(line.take(k - from) =~= chars@.subrange(from as int, k as int));
                assert(line.skip(k - from + 1) =~= chars@.subrange(k + 1, to as int));
            }
            match validate_variable_name(n, key.as_str()) {
                Err(e) => {
                    return Err(e);
                },
                Ok(_) => {},
            }
            self.add_variable(Variable { key, value })
        }
    }

    /// Reads a text line by line. An empty text is refused, and so is the
    /// first line that breaks the grammar or the naming rules; else the
    /// document is returned. A block that is still open at the end of the text
    /// is left out of it.
    pub fn parse(self, input: &str) -> (r: Result<Document, Error>)
        requires
            self.wf(),
        ensures
            match parsed_from(self@, input@) {
                Ok(d) => r is Ok && r->Ok_0.wf() && r->Ok_0@ == d,
                Err(e) => r is Err && r->Err_0@ == e,
            },
    {
        if input.is_empty() {
            return Err(Error::ParsingError(ParsingErrors::EmptyInput));
        }
        let mut state = self;
        let chars = chars_of(input);
        let n: usize = chars.len();
        let ghost start = state@;
        let mut pos: usize = 0;
        let mut index: usize = 0;
        proof {
            assert(chars@.skip(0) =~= chars@);
        }
        while pos < n
            invariant
                state.wf(),
                start == self@,
                input@.len() > 0,
                chars@ == input@,
                n == chars@.len(),
                index <= pos <= n,
                run(state@, lines_of(chars@.skip(pos as int)), index as nat) == run(
                    start,
                    lines_of(chars@),
                    0,
                ),
            decreases n - pos,
        {
            let ghost rest = chars@.skip(pos as int);
            let feed = find_char(&chars, pos, n, '\n');
            let end: usize = if feed < n && feed > pos && chars[feed - 1] == '\r' {
                feed - 1
            } else {
                feed
            };
            let next: usize = if feed < n {
                feed + 1
            } else {
                n
            };
            proof {
                assert(rest =~= chars@.subrange(pos as int, n as int));
                assert(first_line(rest) =~= chars@.subrange(pos as int, end as int));
                assert(after_first_line(rest) =~= chars@.skip(next as int));
                let lines = lines_of(rest);
                assert(lines.drop_first() =~= lines_of(after_first_line(rest)));
            }
            match state.take_line(&chars, pos, end, index) {
                Err(e) => {
                    return Err(e);
                },
                Ok(_) => {},
            }
            pos = next;
            index = index + 1;
        }
        Ok(state.document)
    }

    /// Reads the content of a file, as it was read from `file_path`: the
    /// text, or the message with which reading failed.
    pub fn parse_file(self, file_path: &str, content: Result<String, String>) -> (r: Result<
        Document,
        Error,
    >)
        requires
            self.wf(),
        ensures
            match parsed_file(
                self@,
                file_path@,
                match content {
                    Ok(text) => Ok(text@),
                    Err(message) => Err(message@),
                },
            ) {
                Ok(d) => r is Ok && r->Ok_0.wf() && r->Ok_0@ == d,
                Err(e) => r is Err && r->Err_0@ == e,
            },
    {
        match content {
            Ok(text) => self.parse(text.as_str()),
            Err(message) => Err(
                Error::AccessError(AccessErrors::FileError(String::from_str(file_path), message)),
            ),
        }
    }
}

} // verus!
