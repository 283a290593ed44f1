//! What holds of blocks and documents whatever they contain.

use crate::block::{has_key, keys_of, lemma_keys_of_push, with_variable, BlockView};
use crate::document::{
    has_block, lemma_position_of, lemma_position_of_bounds, moved_last, names_of, picked,
    position_of, valid_document, with_block,
};
use crate::error::AccessErrorsView;
use crate::line::LineView;
use crate::variable::VariableView;
use vstd::prelude::*;

verus! {

/// Of two variables with the same key that are added to a block one after
/// the other, the second is refused, whatever the two values are: after the
/// first try the block has a variable of that key, and the second try leaves
/// the block as the first left it.
pub proof fn law_second_variable_is_refused(
    b: BlockView,
    first: VariableView,
    second: VariableView,
)
    requires
        first.key == second.key,
    ensures
        has_key(with_variable(b, first).lines, second.key),
        with_variable(with_variable(b, first), second) == with_variable(b, first),
{
    if !has_key(b.lines, first.key) {
        lemma_keys_of_push(b.lines, LineView::Variable(first));
        let keys = keys_of(b.lines).push(first.key);
        assert(keys[keys.len() - 1] == first.key);
    }
}

/// Of two blocks with the same name that are added to a document one after
/// the other, the second is refused: after the first try the document has a
/// block of that name, and the second try leaves the document as the first
/// left it.
pub proof fn law_second_block_is_refused(d: Seq<BlockView>, first: BlockView, second: BlockView)
    requires
        first.name == second.name,
    ensures
        has_block(with_block(d, first), second.name),
        with_block(with_block(d, first), second) == with_block(d, first),
{
    if !has_block(d, first.name) {
        let after = d.push(first);
        assert(names_of(after)[after.len() - 1] == first.name);
    }
}

/// The default block is never picked.
pub proof fn law_pick_refuses_default(d: Seq<BlockView>)
    ensures
        picked(d, "default"@) == Err::<Seq<BlockView>, AccessErrorsView>(
            AccessErrorsView::DefaultBlockNotMovable,
        ),
{
}

/// A block that the document does not hold is never picked.
pub proof fn law_pick_refuses_missing(d: Seq<BlockView>, name: Seq<char>)
    requires
        !has_block(d, name),
    ensures
        picked(d, name) is Err,
        name != "default"@ ==> picked(d, name) == Err::<Seq<BlockView>, AccessErrorsView>(
            AccessErrorsView::BlockNotFound(name),
        ),
{
}

/// Picking a named block that a valid document holds succeeds. The block
/// then stands last, behind every other block; the other blocks keep their
/// order, the default block stays first, no block is lost or added, and the
/// document is still valid.
pub proof fn law_pick_moves_last(d: Seq<BlockView>, name: Seq<char>)
    requires
        valid_document(d),
        has_block(d, name),
        name != "default"@,
    ensures
        picked(d, name) is Ok,
        ({
            let after = picked(d, name)->Ok_0;
            let i = position_of(d, name) as int;
            &&& 0 < i < d.len()
            &&& d[i].name == name
            &&& after.len() == d.len()
            &&& after.last() == d[i]
            &&& after.drop_last() == d.remove(i)
            &&& after[0] == d[0]
            &&& forall|j: int| 0 <= j < after.len() - 1 ==> (#[trigger] after[j]).name != name
            &&& after.to_multiset() == d.to_multiset()
            &&& valid_document(after)
        }),
{
    lemma_position_of_bounds(d, name);
    let i = position_of(d, name) as int;
    let after = moved_last(d, i);
    assert(after.drop_last() =~= d.remove(i));
    let origin = |k: int|
        if k == after.len() - 1 {
            i
        } else if k < i {
            k
        } else {
            k + 1
        };
    assert forall|k: int| 0 <= k < after.len() implies #[trigger] after[k] == d[origin(k)] by {}
    assert forall|j: int| 0 <= j < after.len() - 1 implies (#[trigger] after[j]).name != name by {
        assert(names_of(d)[origin(j)] == d[origin(j)].name);
        assert(names_of(d)[i] == name);
    }
    assert forall|a: int, b: int|
        0 <= a < after.len() && 0 <= b < after.len() && a != b implies names_of(after)[a]
        != names_of(after)[b] by {
        assert(names_of(after)[a] == names_of(d)[origin(a)]);
        assert(names_of(after)[b] == names_of(d)[origin(b)]);
    }
    assert forall|k: int| 0 <= k < after.len() implies keys_of(
        #[trigger] after[k].lines,
    ).no_duplicates() by {
        assert(after[k] == d[origin(k)]);
    }
    assert(d =~= d.remove(i).insert(i, d[i]));
    vstd::seq_lib::to_multiset_insert(d.remove(i), i, d[i]);
    vstd::seq_lib::to_multiset_build(d.remove(i), d[i]);
}

/// Picking the block that was picked last changes nothing.
pub proof fn law_pick_again_changes_nothing(d: Seq<BlockView>, name: Seq<char>)
    requires
        valid_document(d),
        has_block(d, name),
        name != "default"@,
    ensures
        picked(picked(d, name)->Ok_0, name) == picked(d, name),
{
    law_pick_moves_last(d, name);
    let after = picked(d, name)->Ok_0;
    let last = after.len() - 1;
    assert(names_of(after)[last] == name);
    lemma_position_of(after, name, last);
    assert(moved_last(after, last) =~= after);
}

} // verus!
