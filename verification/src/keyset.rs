//! Insertion-ordered sets of strings.
//!
//! The sets are `indexmap::IndexSet<String>`. Everything the rest of the
//! library knows about them is stated here, over [`set_items`]: the strings a
//! set holds, in the order in which they were inserted.

use indexmap::IndexSet;
use vstd::prelude::*;

verus! {

#[verifier::external_type_specification]
#[verifier::external_body]
#[verifier::reject_recursive_types(T)]
/// `indexmap::IndexSet`, an insertion-ordered hash set.
#[verifier::reject_recursive_types(S)]
pub struct ExIndexSet<T, S>(indexmap::IndexSet<T, S>);

/// The strings held by a set, in insertion order.
pub uninterp spec fn set_items(s: IndexSet<String>) -> Seq<Seq<char>>;

/// `IndexSet::new`: the new set holds nothing.
#[verifier::external_body]
pub(crate) fn set_new() -> (s: IndexSet<String>)
    ensures
        set_items(s) == Seq::<Seq<char>>::empty(),
{
    IndexSet::new()
}

/// `IndexSet::len`: the number of strings held.
#[verifier::external_body]
pub(crate) fn set_len(s: &IndexSet<String>) -> (n: usize)
    ensures
        n == set_items(*s).len(),
{
    s.len()
}

/// `IndexSet::insert`: a string that the set does not hold yet is appended
/// and `true` is returned; one that it holds already leaves the set as it
/// was and `false` is returned.
#[verifier::external_body]
pub(crate) fn set_insert(s: &mut IndexSet<String>, value: String) -> (fresh: bool)
    ensures
        fresh == !set_items(*old(s)).contains(value@),
        fresh ==> set_items(*final(s)) == set_items(*old(s)).push(value@),
        !fresh ==> set_items(*final(s)) == set_items(*old(s)),
{
    s.insert(value)
}

/// `IndexSet::get_index_of`: the position of a string in the set, or `None`
/// where the set does not hold it.
#[verifier::external_body]
pub(crate) fn set_get_index_of(s: &IndexSet<String>, value: &str) -> (found: Option<usize>)
    ensures
        match found {
            Some(i) => i < set_items(*s).len() && set_items(*s)[i as int] == value@,
            None => !set_items(*s).contains(value@),
        },
{
    s.get_index_of(value)
}

/// `IndexSet::move_index`: the string at `from` is taken out and put back
/// at `to`; the strings between the two shift by one place and every other
/// string stays where it was.
#[verifier::external_body]
pub(crate) fn set_move_index(s: &mut IndexSet<String>, from: usize, to: usize)
    requires
        from < set_items(*old(s)).len(),
        to < set_items(*old(s)).len(),
    ensures
        set_items(*final(s)) == set_items(*old(s)).remove(from as int).insert(
            to as int,
            set_items(*old(s))[from as int],
        ),
{
    s.move_index(from, to)
}

/// `IndexSet::iter`: the strings held, in insertion order.
#[verifier::external_body]
pub(crate) fn set_to_vec(s: &IndexSet<String>) -> (v: Vec<String>)
    ensures
        v@.len() == set_items(*s).len(),
        forall|i: int| 0 <= i < v@.len() ==> (#[trigger] v@[i])@ == set_items(*s)[i],
{
    s.iter().cloned().collect()
}

/// `IndexSet`'s `==`: two sets are equal where they hold the same strings,
/// whatever the order.
#[verifier::external_body]
pub(crate) fn set_same(a: &IndexSet<String>, b: &IndexSet<String>) -> (same: bool)
    ensures
        same == (set_items(*a).to_set() == set_items(*b).to_set()),
{
    a == b
}

/// `IndexSet`'s `clone`: the copy holds the same strings in the same order.
#[verifier::external_body]
pub(crate) fn set_clone(s: &IndexSet<String>) -> (c: IndexSet<String>)
    ensures
        set_items(c) == set_items(*s),
{
    s.clone()
}

} // verus!
