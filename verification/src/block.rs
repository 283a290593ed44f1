//! A block: a name, its tags, and its lines in the order in which they were added.

use crate::constants::{BLOCK_END_SYMBOL, BLOCK_START_SYMBOL, DEFAULT_BLOCK_NAME};
use crate::error::{Error, ErrorView, ParsingErrors, ParsingErrorsView};
use crate::keyset::{set_clone, set_insert, set_items, set_len, set_new, set_same, set_to_vec};
use crate::line::{line_text, Line, LineView};
use crate::text::{join, join_strings, same_text, texts};
use crate::variable::{Variable, VariableView};
use indexmap::IndexSet;
use vstd::prelude::*;
use vstd::std_specs::cmp::PartialEqSpecImpl;
use vstd::string::*;

verus! {

/// A named group of lines. No two of its variables have the same key;
/// comments may repeat. Two blocks are equal where their names are equal
/// and they carry the same tags.
#[derive(Debug)]
pub struct Block {
    pub name: String,
    /// The tags, each once, in the order in which they were given.
    pub tags: IndexSet<String>,
    /// The lines, in the order in which they were added.
    lines: Vec<Line>,
    /// The keys of the variables among the lines, by which a second
    /// variable of a key is found.
    keys: IndexSet<String>,
}

/// What a block holds: its name, its tags and its lines, each in order.
pub struct BlockView {
    pub name: Seq<char>,
    pub tags: Seq<Seq<char>>,
    pub lines: Seq<LineView>,
}

/// The keys of the variables among `lines`, in order.
pub open spec fn keys_of(lines: Seq<LineView>) -> Seq<Seq<char>>
    decreases lines.len(),
{
    if lines.len() == 0 {
        Seq::<Seq<char>>::empty()
    } else {
        match lines.last() {
            LineView::Variable(v) => keys_of(lines.drop_last()).push(v.key),
            LineView::Comment(_) => keys_of(lines.drop_last()),
        }
    }
}

/// Whether a variable among `lines` has this key.
pub open spec fn has_key(lines: Seq<LineView>, key: Seq<char>) -> bool {
    keys_of(lines).contains(key)
}

/// `items` without the repetitions: of equal strings the first stays.
pub open spec fn distinct(items: Seq<Seq<char>>) -> Seq<Seq<char>>
    decreases items.len(),
{
    if items.len() == 0 {
        Seq::<Seq<char>>::empty()
    } else {
        let before = distinct(items.drop_last());
        if before.contains(items.last()) {
            before
        } else {
            before.push(items.last())
        }
    }
}

/// The texts of lines, one per line.
pub open spec fn line_texts(lines: Seq<LineView>) -> Seq<Seq<char>> {
    Seq::new(lines.len(), |i: int| line_text(lines[i]))
}

/// What follows a block's name where the block is opened: nothing where
/// the block has no tags, else a space and the tags in square brackets, in
/// order, with a space between each two of them.
pub open spec fn tags_text(tags: Seq<Seq<char>>) -> Seq<char> {
    if tags.len() == 0 {
        Seq::<char>::empty()
    } else {
        " ["@ + join(tags, " "@) + "]"@
    }
}

/// A block as text. The default block is its lines alone; a named block
/// stands between the line that opens it and the line that closes it.
pub open spec fn block_text(b: BlockView) -> Seq<char> {
    if b.name == "default"@ {
        join(line_texts(b.lines), "\n"@)
    } else {
        "#@"@ + " "@ + b.name + tags_text(b.tags) + "\n"@ + join(line_texts(b.lines), "\n"@)
            + "\n"@ + "##"@
    }
}

/// `b` after a try to add `v`: with `v` as its last line, or unchanged where
/// one of its variables has the key of `v` already.
pub open spec fn with_variable(b: BlockView, v: VariableView) -> BlockView {
    if has_key(b.lines, v.key) {
        b
    } else {
        BlockView { name: b.name, tags: b.tags, lines: b.lines.push(LineView::Variable(v)) }
    }
}

/// `b` with one more comment as its last line.
pub open spec fn with_comment(b: BlockView, text: Seq<char>) -> BlockView {
    BlockView { name: b.name, tags: b.tags, lines: b.lines.push(LineView::Comment(text)) }
}

/// An empty block without tags.
pub open spec fn empty_block(name: Seq<char>) -> BlockView {
    BlockView { name, tags: Seq::<Seq<char>>::empty(), lines: Seq::<LineView>::empty() }
}

/// The keys after one more line: one more key where the line is a variable.
pub proof fn lemma_keys_of_push(lines: Seq<LineView>, l: LineView)
    ensures
        keys_of(lines.push(l)) == match l {
            LineView::Variable(v) => keys_of(lines).push(v.key),
            LineView::Comment(_) => keys_of(lines),
        },
{
    assert(lines.push(l).drop_last() =~= lines);
}

impl View for Block {
    type V = BlockView;

    closed spec fn view(&self) -> BlockView {
        BlockView { name: self.name@, tags: set_items(self.tags), lines: self.lines_view() }
    }
}

impl Block {
    /// The lines of the block, in the order in which they were added.
    pub closed spec fn lines_view(&self) -> Seq<LineView> {
        Seq::new(self.lines@.len(), |i: int| self.lines@[i]@)
    }

    /// The block is in order: it knows the keys of its variables, and no two
    /// of them are equal.
    pub closed spec fn wf(&self) -> bool {
        &&& set_items(self.keys) == keys_of(self.lines_view())
        &&& keys_of(self.lines_view()).no_duplicates()
    }

    /// In a block that is in order no key occurs twice.
    pub proof fn lemma_unique_keys(&self)
        requires
            self.wf(),
        ensures
            keys_of(self@.lines).no_duplicates(),
    {
    }

    /// An empty block with the reserved name.
    pub fn default() -> (b: Self)
        ensures
            b.wf(),
            b@ == empty_block("default"@),
    {
        let b = Block {
            name: String::from_str(DEFAULT_BLOCK_NAME),
            tags: set_new(),
            lines: Vec::new(),
            keys: set_new(),
        };
        assert(b.lines_view() =~= Seq::<LineView>::empty());
        b
    }

    /// An empty block of the given name, without tags.
    pub fn new(name: &str) -> (b: Self)
        ensures
            b.wf(),
            b@ == empty_block(name@),
    {
        let b = Block {
            name: String::from_str(name),
            tags: set_new(),
            lines: Vec::new(),
            keys: set_new(),
        };
        assert(b.lines_view() =~= Seq::<LineView>::empty());
        b
    }

    /// An empty block of the given name with the given tags, each once, in
    /// the order in which they first occur.
    pub fn new_with_tags(name: &str, tags: Vec<String>) -> (b: Self)
        ensures
            b.wf(),
            b@ == (BlockView {
                name: name@,
                tags: distinct(texts(tags@)),
                lines: Seq::<LineView>::empty(),
            }),
    {
        let mut set = set_new();
        let mut i: usize = 0;
        while i < tags.len()
            invariant
                i <= tags@.len(),
                set_items(set) == distinct(texts(tags@).take(i as int)),
            decreases tags@.len() - i,
        {
            proof {
                assert(texts(tags@).take(i + 1).drop_last() =~= texts(tags@).take(i as int));
                assert(texts(tags@).take(i + 1).last() == tags@[i as int]@);
            }
            set_insert(&mut set, tags[i].clone());
            i = i + 1;
        }
        assert(texts(tags@).take(i as int) =~= texts(tags@));
        let b = Block { name: String::from_str(name), tags: set, lines: Vec::new(), keys: set_new() };
        assert(b.lines_view() =~= Seq::<LineView>::empty());
        b
    }

    /// Adds a variable after the lines that the block holds, unless the
    /// block has a variable of the same key already: then the block stays as
    /// it is and the variable is refused.
    pub fn add_variable(&mut self, variable: Variable) -> (r: Result<(), Error>)
        requires
            old(self).wf(),
        ensures
            final(self).wf(),
            final(self)@ == with_variable(old(self)@, variable@),
            r is Err <==> has_key(old(self)@.lines, variable@.key),
            r matches Err(e) ==> e@ == ErrorView::ParsingError(
                ParsingErrorsView::DuplicateVariable(variable@.key, old(self)@.name),
            ),
    {
        let fresh = set_insert(&mut self.keys, variable.key.clone());
        if !fresh {
            return Err(
                Error::ParsingError(
                    ParsingErrors::DuplicateVariable(variable.key, self.name.clone()),
                ),
            );
        }
        let ghost before = self.lines_view();
        let ghost added = LineView::Variable(variable@);
        self.lines.push(Line::Variable(variable));
        proof {
            assert(self.lines_view() =~= before.push(added));
            lemma_keys_of_push(before, added);
        }
        Ok(())
    }

    /// Adds a comment after the lines that the block holds.
    pub fn add_comment(&mut self, comment: &str)
        requires
            old(self).wf(),
        ensures
            final(self).wf(),
            final(self)@ == with_comment(old(self)@, comment@),
    {
        let ghost before = self.lines_view();
        self.lines.push(Line::Comment(String::from_str(comment)));
        proof {
            assert(self.lines_view() =~= before.push(LineView::Comment(comment@)));
            lemma_keys_of_push(before, LineView::Comment(comment@));
        }
    }

    /// The name of the block.
    pub fn name(&self) -> (name: &String)
        ensures
            name@ == self@.name,
    {
        &self.name
    }

    /// The tags of the block, in the order in which they were given.
    pub fn tags(&self) -> (tags: Vec<String>)
        ensures
            texts(tags@) == self@.tags,
    {
        let tags = set_to_vec(&self.tags);
        assert(texts(tags@) =~= set_items(self.tags));
        tags
    }

    /// The number of lines.
    pub fn lines_len(&self) -> (n: usize)
        ensures
            n == self@.lines.len(),
    {
        self.lines.len()
    }

    /// The line at `index`, or `None` past the last line.
    pub fn get_line(&self, index: usize) -> (l: Option<&Line>)
        ensures
            match l {
                Some(line) => index < self@.lines.len() && line@ == self@.lines[index as int],
                None => index >= self@.lines.len(),
            },
    {
        if index < self.lines.len() {
            Some(&self.lines[index])
        } else {
            None
        }
    }

    /// The block as text.
    pub fn to_string(&self) -> (s: String)
        ensures
            s@ == block_text(self@),
    {
        let mut parts: Vec<String> = Vec::new();
        let mut i: usize = 0;
        while i < self.lines.len()
            invariant
                i <= self.lines@.len(),
                texts(parts@) == line_texts(self.lines_view()).take(i as int),
            decreases self.lines@.len() - i,
        {
            let ghost before = texts(parts@);
            let t = self.lines[i].to_string();
            let ghost text = t@;
            parts.push(t);
            proof {
                assert(self.lines_view()[i as int] == self.lines@[i as int]@);
                assert(texts(parts@) =~= before.push(text));
                assert(before.push(text) =~= line_texts(self.lines_view()).take(i + 1));
            }
            i = i + 1;
        }
        assert(line_texts(self.lines_view()).take(i as int) =~= line_texts(self.lines_view()));
        let body = join_strings(&parts, "\n");
        if same_text(self.name.as_str(), DEFAULT_BLOCK_NAME) {
            body
        } else {
            let mut s = String::from_str(BLOCK_START_SYMBOL);
            s.append(" ");
            s.append(self.name.as_str());
            if set_len(&self.tags) > 0 {
                let tags = set_to_vec(&self.tags);
                assert(texts(tags@) =~= set_items(self.tags));
                let list = join_strings(&tags, " ");
                s.append(" [");
                s.append(list.as_str());
                s.append("]");
                assert(s@ =~= "#@"@ + " "@ + self.name@ + tags_text(set_items(self.tags)));
            } else {
                assert(s@ =~= "#@"@ + " "@ + self.name@ + tags_text(set_items(self.tags)));
            }
            s.append("\n");
            s.append(body.as_str());
            s.append("\n");
            s.append(BLOCK_END_SYMBOL);
            s
        }
    }
}

impl Clone for Block {
    fn clone(&self) -> (b: Self)
        ensures
            b@ == self@,
            self.wf() ==> b.wf(),
    {
        let mut lines: Vec<Line> = Vec::new();
        let mut i: usize = 0;
        while i < self.lines.len()
            invariant
                i <= self.lines@.len(),
                lines@.len() == i,
                forall|j: int| 0 <= j < i ==> lines@[j]@ == self.lines@[j]@,
            decreases self.lines@.len() - i,
        {
            lines.push(self.lines[i].clone());
            i = i + 1;
        }
        let b = Block {
            name: self.name.clone(),
            tags: set_clone(&self.tags),
            lines,
            keys: set_clone(&self.keys),
        };
        assert(b.lines_view() =~= self.lines_view());
        b
    }
}

impl PartialEq for Block {
    fn eq(&self, other: &Self) -> (r: bool) {
        self.name == other.name && set_same(&self.tags, &other.tags)
    }
}

impl PartialEqSpecImpl for Block {
    open spec fn obeys_eq_spec() -> bool {
        true
    }

    open spec fn eq_spec(&self, other: &Self) -> bool {
        self@.name == other@.name && self@.tags.to_set() == other@.tags.to_set()
    }
}

} // verus!
