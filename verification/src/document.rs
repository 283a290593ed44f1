//! A document: the default block and the named blocks after it, in order.

use crate::block::{block_text, empty_block, keys_of, Block, BlockView};
use crate::constants::DEFAULT_BLOCK_NAME;
use crate::error::{AccessErrors, AccessErrorsView, Error, ErrorView, ParsingErrors, ParsingErrorsView};
use crate::keyset::{
    set_clone, set_get_index_of, set_insert, set_items, set_move_index, set_new,
};
use crate::text::{join, join_strings, same_text, texts};
use indexmap::IndexSet;
use vstd::prelude::*;
use vstd::std_specs::cmp::PartialEqSpecImpl;
use vstd::string::*;

verus! {

/// The blocks of a file. The default block is always there and always
/// first, and no two blocks have the same name.
#[derive(Debug)]
pub struct Document {
    /// The blocks in order, the default block first.
    blocks: Vec<Block>,
    /// The names of the blocks in the same order, by which a block is found.
    names: IndexSet<String>,
}

/// The names of the blocks, in order.
pub open spec fn names_of(d: Seq<BlockView>) -> Seq<Seq<char>> {
    Seq::new(d.len(), |i: int| d[i].name)
}

/// Whether a block of `d` has this name.
pub open spec fn has_block(d: Seq<BlockView>, name: Seq<char>) -> bool {
    names_of(d).contains(name)
}

/// The position of the first block of this name, or the number of blocks
/// where none has it.
pub open spec fn position_of(d: Seq<BlockView>, name: Seq<char>) -> nat
    decreases d.len(),
{
    if d.len() == 0 || d[0].name == name {
        0
    } else {
        1 + position_of(d.drop_first(), name)
    }
}

/// What a document must be: it begins with the default block, no two of its
/// blocks have the same name, and no block has two variables of one key.
pub open spec fn valid_document(d: Seq<BlockView>) -> bool {
    &&& d.len() > 0
    &&& d[0].name == "default"@
    &&& names_of(d).no_duplicates()
    &&& forall|i: int| 0 <= i < d.len() ==> keys_of(#[trigger] d[i].lines).no_duplicates()
}

/// `d` after a try to add `b`: with `b` as its last block, or unchanged
/// where one of its blocks has the name of `b` already.
pub open spec fn with_block(d: Seq<BlockView>, b: BlockView) -> Seq<BlockView> {
    if has_block(d, b.name) {
        d
    } else {
        d.push(b)
    }
}

/// `d` with the block at `i` taken out and put back after all the others.
pub open spec fn moved_last(d: Seq<BlockView>, i: int) -> Seq<BlockView> {
    d.remove(i).push(d[i])
}

/// `d` after picking the block of this name: that block stands last and the
/// others keep their order. The default block cannot be picked, nor a block
/// that `d` does not hold.
pub open spec fn picked(d: Seq<BlockView>, name: Seq<char>) -> Result<
    Seq<BlockView>,
    AccessErrorsView,
> {
    if name == "default"@ {
        Err(AccessErrorsView::DefaultBlockNotMovable)
    } else if !has_block(d, name) {
        Err(AccessErrorsView::BlockNotFound(name))
    } else {
        Ok(moved_last(d, position_of(d, name) as int))
    }
}

/// Two blocks are the same block: they have the same name and the same tags.
pub open spec fn same_block(a: BlockView, b: BlockView) -> bool {
    a.name == b.name && a.tags.to_set() == b.tags.to_set()
}

/// Whether `d` has a block that is the same block as `b`.
pub open spec fn holds_block(d: Seq<BlockView>, b: BlockView) -> bool {
    exists|j: int| 0 <= j < d.len() && same_block(b, #[trigger] d[j])
}

/// The texts of blocks, one per block.
pub open spec fn block_texts(d: Seq<BlockView>) -> Seq<Seq<char>> {
    Seq::new(d.len(), |i: int| block_text(d[i]))
}

/// A document as text: its blocks with an empty line between each two of
/// them, and a line feed at the end.
pub open spec fn document_text(d: Seq<BlockView>) -> Seq<char> {
    join(block_texts(d), "\n\n"@) + "\n"@
}

/// Where no two blocks have the same name, a block of a given name stands
/// at the position that `position_of` gives.
pub proof fn lemma_position_of(d: Seq<BlockView>, name: Seq<char>, i: int)
    requires
        0 <= i < d.len(),
        d[i].name == name,
        names_of(d).no_duplicates(),
    ensures
        position_of(d, name) == i,
    decreases d.len(),
{
    if d[0].name == name {
        if i != 0 {
            assert(names_of(d)[0] == names_of(d)[i]);
        }
    } else {
        let t = d.drop_first();
        assert forall|a: int, b: int| 0 <= a < t.len() && 0 <= b < t.len() && a != b implies names_of(
            t,
        )[a] != names_of(t)[b] by {
            assert(names_of(t)[a] == names_of(d)[a + 1]);
            assert(names_of(t)[b] == names_of(d)[b + 1]);
        }
        lemma_position_of(t, name, i - 1);
    }
}

/// `position_of` is a position of `d` exactly where `d` has a block of that name.
pub proof fn lemma_position_of_bounds(d: Seq<BlockView>, name: Seq<char>)
    ensures
        position_of(d, name) <= d.len(),
        position_of(d, name) < d.len() <==> has_block(d, name),
        position_of(d, name) < d.len() ==> d[position_of(d, name) as int].name == name,
    decreases d.len(),
{
    if d.len() == 0 {
    } else if d[0].name == name {
        assert(names_of(d)[0] == name);
    } else {
        let t = d.drop_first();
        lemma_position_of_bounds(t, name);
        if has_block(t, name) {
            let j = choose|j: int| 0 <= j < t.len() && names_of(t)[j] == name;
            assert(names_of(d)[j + 1] == name);
        }
        if has_block(d, name) {
            let j = choose|j: int| 0 <= j < d.len() && names_of(d)[j] == name;
            assert(names_of(t)[j - 1] == name);
        }
    }
}

impl View for Document {
    type V = Seq<BlockView>;

    closed spec fn view(&self) -> Seq<BlockView> {
        Seq::new(self.blocks@.len(), |i: int| self.blocks@[i]@)
    }
}

impl Document {
    /// The document is in order: it is a valid document, it knows the names
    /// of its blocks, and each of its blocks is in order.
    pub closed spec fn wf(&self) -> bool {
        &&& set_items(self.names) == names_of(self@)
        &&& names_of(self@).no_duplicates()
        &&& self@.len() > 0
        &&& self@[0].name == "default"@
        &&& forall|i: int| 0 <= i < self.blocks@.len() ==> (#[trigger] self.blocks@[i]).wf()
    }

    /// A document that is in order is a valid document.
    pub proof fn law_is_valid(&self)
        requires
            self.wf(),
        ensures
            valid_document(self@),
    {
        assert forall|i: int| 0 <= i < self@.len() implies keys_of(
            #[trigger] self@[i].lines,
        ).no_duplicates() by {
            self.blocks@[i].lemma_unique_keys();
        }
    }

    /// A document that holds the empty default block and nothing else.
    pub fn new() -> (d: Self)
        ensures
            d.wf(),
            d@ == seq![empty_block("default"@)],
    {
        let mut names = set_new();
        set_insert(&mut names, String::from_str(DEFAULT_BLOCK_NAME));
        let mut blocks: Vec<Block> = Vec::new();
        blocks.push(Block::default());
        let d = Document { blocks, names };
        proof {
            assert(d@ =~= seq![empty_block("default"@)]);
            assert(names_of(d@) =~= seq!["default"@]);
            assert(set_items(d.names) =~= names_of(d@));
        }
        d
    }

    /// Adds a block after the blocks that the document holds, unless one of
    /// them has the same name (the default block too): then the document stays
    /// as it is and the block is refused.
    pub fn add_block(&mut self, block: Block) -> (r: Result<(), Error>)
        requires
            old(self).wf(),
            block.wf(),
        ensures
            final(self).wf(),
            final(self)@ == with_block(old(self)@, block@),
            r is Err <==> has_block(old(self)@, block@.name),
            r matches Err(e) ==> e@ == ErrorView::ParsingError(
                ParsingErrorsView::DuplicateBlock(block@.name),
            ),
    {
        let fresh = set_insert(&mut self.names, block.name().clone());
        if !fresh {
            return Err(Error::ParsingError(ParsingErrors::DuplicateBlock(block.name().clone())));
        }
        let ghost before = self@;
        self.blocks.push(block);
        proof {
            assert(self@ =~= before.push(block@));
            assert(names_of(self@) =~= names_of(before).push(block@.name));
        }
        Ok(())
    }

    /// The position of the block of this name, or `None` where the document
    /// has no such block.
    pub fn get_index(&self, name: &str) -> (r: Option<usize>)
        requires
            self.wf(),
        ensures
            r is Some <==> has_block(self@, name@),
            r matches Some(i) ==> i == position_of(self@, name@) && i < self@.len() && self@[i as int].name
                == name@,
    {
        let found = set_get_index_of(&self.names, name);
        proof {
            if let Some(i) = found {
                assert(names_of(self@)[i as int] == name@);
                lemma_position_of(self@, name@, i as int);
            }
        }
        found
    }

    /// The block of this name, or `None` where the document has no such block.
    pub fn get_block(&self, name: &str) -> (r: Option<&Block>)
        requires
            self.wf(),
        ensures
            r is Some <==> has_block(self@, name@),
            r matches Some(b) ==> b@ == self@[position_of(self@, name@) as int] && b.wf(),
    {
        match self.get_index(name) {
            Some(i) => Some(&self.blocks[i]),
            None => None,
        }
    }

    /// The blocks in order, the default block first.
    pub fn get_blocks(&self) -> (r: Vec<&Block>)
        ensures
            r@.len() == self@.len(),
            forall|i: int| 0 <= i < r@.len() ==> (#[trigger] r@[i])@ == self@[i],
            self.wf() ==> forall|i: int| 0 <= i < r@.len() ==> (#[trigger] r@[i]).wf(),
    {
        let mut r: Vec<&Block> = Vec::new();
        let mut i: usize = 0;
        while i < self.blocks.len()
            invariant
                i <= self.blocks@.len(),
                r@.len() == i,
                forall|j: int| 0 <= j < i ==> *(#[trigger] r@[j]) == self.blocks@[j],
            decreases self.blocks@.len() - i,
        {
            r.push(&self.blocks[i]);
            i = i + 1;
        }
        r
    }

    /// The number of blocks, the default block included.
    pub fn blocks_len(&self) -> (n: usize)
        ensures
            n == self@.len(),
    {
        self.blocks.len()
    }

    /// The default block.
    pub fn get_default_block(&self) -> (r: Result<&Block, Error>)
        requires
            self.wf(),
        ensures
            r is Ok,
            r->Ok_0@ == self@[0],
            r->Ok_0@.name == "default"@,
            r->Ok_0.wf(),
    {
        if self.blocks.len() > 0 {
            Ok(&self.blocks[0])
        } else {
            Err(
                Error::AccessError(
                    AccessErrors::BlockNotFound(String::from_str(DEFAULT_BLOCK_NAME)),
                ),
            )
        }
    }

    /// The default block, to change it. The document is in order afterwards
    /// where the block is left in order and under its name.
    pub fn get_default_block_mut(&mut self) -> (r: Result<&mut Block, Error>)
        requires
            old(self).wf(),
        ensures
            r is Ok,
            (*r->Ok_0)@ == old(self)@[0],
            (*r->Ok_0)@.name == "default"@,
            (*r->Ok_0).wf(),
            final(self)@ == old(self)@.update(0, (*final(r->Ok_0))@),
            (*final(r->Ok_0)).wf() && (*final(r->Ok_0))@.name == "default"@ ==> final(self).wf(),
    {
        match self.blocks.first_mut() {
            Some(block) => {
                assert((*final(block))@.name == "default"@ ==> names_of(final(self)@) =~= names_of(
                    old(self)@,
                ));
                assert(forall|i: int|
                    0 < i < final(self).blocks@.len() ==> #[trigger] final(self).blocks@[i] == old(
                        self,
                    ).blocks@[i]);
                Ok(block)
            },
            None => Err(
                Error::AccessError(
                    AccessErrors::BlockNotFound(String::from_str(DEFAULT_BLOCK_NAME)),
                ),
            ),
        }
    }

    /// Moves the block of this name behind all the others, which keep their
    /// order. The default block cannot be moved, nor a block that the document
    /// does not hold: the document then stays as it is.
    pub fn pick(&mut self, name: &str) -> (r: Result<(), Error>)
        requires
            old(self).wf(),
        ensures
            final(self).wf(),
            match picked(old(self)@, name@) {
                Ok(d) => r is Ok && final(self)@ == d,
                Err(e) => {
                    &&& final(self)@ == old(self)@
                    &&& r is Err
                    &&& r->Err_0@ == ErrorView::AccessError(e)
                },
            },
    {
        if same_text(name, DEFAULT_BLOCK_NAME) {
            return Err(Error::AccessError(AccessErrors::DefaultBlockNotMovable));
        }
        match self.get_index(name) {
            None => Err(Error::AccessError(AccessErrors::BlockNotFound(String::from_str(name)))),
            Some(index) => {
                let ghost before = self@;
                let ghost names = set_items(self.names);
                let last: usize = self.blocks.len() - 1;
                set_move_index(&mut self.names, index, last);
                let block = self.blocks.remove(index);
                self.blocks.push(block);
                proof {
                    let i = index as int;
                    assert(self@ =~= moved_last(before, i));
                    assert(names.remove(i).insert(last as int, names[i]) =~= names.remove(i).push(
                        names[i],
                    ));
                    assert(names_of(self@) =~= names.remove(i).push(names[i]));
                    lemma_moved_names(names, i);
                    assert(self@[0] == before[0]);
                }
                Ok(())
            },
        }
    }

    /// The document as text.
    pub fn to_string(&self) -> (s: String)
        ensures
            s@ == document_text(self@),
    {
        let mut parts: Vec<String> = Vec::new();
        let mut i: usize = 0;
        while i < self.blocks.len()
            invariant
                i <= self.blocks@.len(),
                texts(parts@) == block_texts(self@).take(i as int),
            decreases self.blocks@.len() - i,
        {
            let ghost before = texts(parts@);
            let t = self.blocks[i].to_string();
            let ghost text = t@;
            parts.push(t);
            proof {
                assert(texts(parts@) =~= before.push(text));
                assert(before.push(text) =~= block_texts(self@).take(i + 1));
            }
            i = i + 1;
        }
        assert(block_texts(self@).take(i as int) =~= block_texts(self@));
        let mut s = join_strings(&parts, "\n\n");
        s.append("\n");
        s
    }
}

impl Document {
    /// Whether the document has a block that is the same block as `block`.
    fn holds(&self, block: &Block) -> (r: bool)
        ensures
            r == holds_block(self@, block@),
    {
        let mut j: usize = 0;
        while j < self.blocks.len()
            invariant
                j <= self.blocks@.len(),
                forall|k: int| 0 <= k < j ==> !same_block(block@, #[trigger] self@[k]),
            decreases self.blocks@.len() - j,
        {
            if *block == self.blocks[j] {
                assert(same_block(block@, self@[j as int]));
                return true;
            }
            j = j + 1;
        }
        false
    }
}

impl Clone for Document {
    fn clone(&self) -> (d: Self)
        ensures
            d@ == self@,
            self.wf() ==> d.wf(),
    {
        let mut blocks: Vec<Block> = Vec::new();
        let mut i: usize = 0;
        while i < self.blocks.len()
            invariant
                i <= self.blocks@.len(),
                blocks@.len() == i,
                forall|j: int| 0 <= j < i ==> (#[trigger] blocks@[j])@ == self.blocks@[j]@,
                forall|j: int| 0 <= j < i && self.blocks@[j].wf() ==> (#[trigger] blocks@[j]).wf(),
            decreases self.blocks@.len() - i,
        {
            blocks.push(self.blocks[i].clone());
            i = i + 1;
        }
        let d = Document { blocks, names: set_clone(&self.names) };
        assert(d@ =~= self@);
        d
    }
}

/// Two documents are equal where they have as many blocks and each block
/// of the first is the same block as one of the second.
impl PartialEq for Document {
    fn eq(&self, other: &Self) -> (r: bool) {
        if self.blocks.len() != other.blocks.len() {
            return false;
        }
        let mut i: usize = 0;
        while i < self.blocks.len()
            invariant
                i <= self.blocks@.len(),
                self@.len() == other@.len(),
                forall|k: int| 0 <= k < i ==> holds_block(other@, #[trigger] self@[k]),
            decreases self.blocks@.len() - i,
        {
            if !other.holds(&self.blocks[i]) {
                assert(!holds_block(other@, self@[i as int]));
                return false;
            }
            i = i + 1;
        }
        true
    }
}

impl PartialEqSpecImpl for Document {
    open spec fn obeys_eq_spec() -> bool {
        true
    }

    open spec fn eq_spec(&self, other: &Self) -> bool {
        &&& self@.len() == other@.len()
        &&& forall|i: int| 0 <= i < self@.len() ==> holds_block(other@, #[trigger] self@[i])
    }
}

/// Moving one of several distinct names to the end leaves them distinct.
proof fn lemma_moved_names(names: Seq<Seq<char>>, i: int)
    requires
        0 <= i < names.len(),
        names.no_duplicates(),
    ensures
        names.remove(i).push(names[i]).no_duplicates(),
{
    let moved = names.remove(i).push(names[i]);
    assert forall|a: int, b: int| 0 <= a < moved.len() && 0 <= b < moved.len() && a != b implies moved[a]
        != moved[b] by {
        let origin = |k: int| if k == moved.len() - 1 { i } else if k < i { k } else { k + 1 };
        assert(moved[a] == names[origin(a)]);
        assert(moved[b] == names[origin(b)]);
        assert(origin(a) != origin(b));
    }
}

} // verus!
