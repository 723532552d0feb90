//! Sets of ids, walked in ascending order.

use std::collections::{BTreeMap, BTreeSet};

use vstd::prelude::*;

verus! {

/// Whether the ids stand in strictly ascending order.
pub open spec fn is_ascending(ids: Seq<usize>) -> bool {
    forall|i: int, j: int| 0 <= i < j < ids.len() ==> ids[i] < ids[j]
}

/// Whether `ids` lists the members of `set` in ascending order, each once.
pub open spec fn lists(ids: Seq<usize>, set: Set<usize>) -> bool {
    &&& is_ascending(ids)
    &&& forall|id: usize| #[trigger] ids.contains(id) <==> set.contains(id)
}

/// The members of a set that are below `bound`, in ascending order.
pub open spec fn members_below(set: Set<usize>, bound: nat) -> Seq<usize>
    decreases bound,
{
    if bound == 0 {
        seq![]
    } else {
        let id = (bound - 1) as usize;
        let smaller = members_below(set, (bound - 1) as nat);
        if set.contains(id) {
            smaller.push(id)
        } else {
            smaller
        }
    }
}

/// The members of a set in ascending order.
pub open spec fn ascending(set: Set<usize>) -> Seq<usize> {
    members_below(set, usize::MAX as nat + 1)
}

proof fn lemma_members_below(set: Set<usize>, bound: nat)
    requires
        bound <= usize::MAX as nat + 1,
    ensures
        is_ascending(members_below(set, bound)),
        forall|id: usize| #[trigger]
            members_below(set, bound).contains(id) <==> set.contains(id) && id < bound,
    decreases bound,
{
    if bound > 0 {
        let smaller = members_below(set, (bound - 1) as nat);
        let ids = members_below(set, bound);
        lemma_members_below(set, (bound - 1) as nat);
        assert forall|i: int| 0 <= i < smaller.len() implies #[trigger] smaller[i] < bound - 1 by {
            assert(smaller.contains(smaller[i]));
        }
        assert forall|id: usize| #[trigger]
            ids.contains(id) <==> set.contains(id) && id < bound by {
            if smaller.contains(id) {
                let i = choose|i: int| 0 <= i < smaller.len() && smaller[i] == id;
                assert(ids[i] == id);
            }
            if set.contains(id) && id == bound - 1 {
                assert(ids[smaller.len() as int] == id);
            }
            if ids.contains(id) {
                let i = choose|i: int| 0 <= i < ids.len() && ids[i] == id;
                if i < smaller.len() {
                    assert(smaller[i] == id);
                    assert(smaller.contains(id));
                }
            }
        }
    }
}

/// [`ascending`] lists the members of every set.
pub proof fn lemma_ascending_lists(set: Set<usize>)
    ensures
        lists(ascending(set), set),
{
    lemma_members_below(set, usize::MAX as nat + 1);
}

/// The members of a set can be listed in ascending order in one way only.
pub proof fn lemma_lists_unique(a: Seq<usize>, b: Seq<usize>, set: Set<usize>)
    requires
        lists(a, set),
        lists(b, set),
    ensures
        a == b,
    decreases a.len(),
{
    if a.len() == 0 {
        if b.len() > 0 {
            assert(b.contains(b[0]));
            assert(a.contains(b[0]));
        }
        assert(a =~= b);
    } else {
        assert(a.contains(a.last()));
        assert(b.contains(a.last()));
        assert(b.contains(b.last()));
        assert(a.contains(b.last()));
        let last = a.last();
        assert(a.last() == b.last());
        let rest = set.remove(last);
        assert forall|id: usize| #[trigger] a.drop_last().contains(id) <==> rest.contains(id) by {
            if rest.contains(id) {
                assert(a.contains(id));
                let i = choose|i: int| 0 <= i < a.len() && a[i] == id;
                assert(a.drop_last()[i] == id);
            }
            if a.drop_last().contains(id) {
                let i = choose|i: int| 0 <= i < a.drop_last().len() && a.drop_last()[i] == id;
                assert(a[i] == id);
                assert(a.contains(id));
            }
        }
        assert forall|id: usize| #[trigger] b.drop_last().contains(id) <==> rest.contains(id) by {
            if rest.contains(id) {
                assert(b.contains(id));
                let i = choose|i: int| 0 <= i < b.len() && b[i] == id;
                assert(b.drop_last()[i] == id);
            }
            if b.drop_last().contains(id) {
                let i = choose|i: int| 0 <= i < b.drop_last().len() && b.drop_last()[i] == id;
                assert(b[i] == id);
                assert(b.contains(id));
            }
        }
        lemma_lists_unique(a.drop_last(), b.drop_last(), rest);
        assert(a =~= a.drop_last().push(last));
        assert(b =~= b.drop_last().push(last));
    }
}

/// A list of the members of a set in ascending order is the one that [`ascending`] names.
pub proof fn lemma_ascending(ids: Seq<usize>, set: Set<usize>)
    requires
        lists(ids, set),
    ensures
        ids == ascending(set),
{
    lemma_ascending_lists(set);
    lemma_lists_unique(ids, ascending(set), set);
}

/// What an ordered collection of ids yields is an ascending list of its members.
proof fn lemma_yielded_in_order(yielded: Seq<&usize>, set: Set<usize>)
    requires
        vstd::std_specs::btree::increasing_seq(yielded),
        yielded.unref().to_set() == set,
    ensures
        lists(yielded.unref(), set),
{
    broadcast use vstd::laws_cmp::group_laws_cmp;
    broadcast use vstd::std_specs::btree::group_btree_axioms;

    let ids = yielded.unref();
    assert forall|i: int, j: int| 0 <= i < j < ids.len() implies ids[i] < ids[j] by {
        assert(vstd::laws_cmp::obeys_cmp::<&usize>());
        assert(vstd::std_specs::cmp::OrdSpec::cmp_spec(&yielded[i], &yielded[j]) is Less);
    }
    assert forall|id: usize| #[trigger] ids.contains(id) <==> set.contains(id) by {
        assert(ids.to_set().contains(id) <==> ids.contains(id));
    }
}

/// Lists the members of a set in ascending order.
pub fn members(set: &BTreeSet<usize>) -> (ids: Vec<usize>)
    ensures
        lists(ids@, set@),
        ids@ == ascending(set@),
{
    broadcast use vstd::laws_cmp::group_laws_cmp;

    let mut ids: Vec<usize> = Vec::new();
    for id in it: set.iter()
        invariant
            it.seq() == vstd::std_specs::iter::IteratorSpec::remaining(
                &vstd::std_specs::btree::spec_btree_keys_iter(set),
            ),
            ids@ == it.seq().unref().take(it.index()),
    {
        ids.push(*id);
        assert(ids@ =~= it.seq().unref().take(it.index() + 1));
    }
    proof {
        let yielded = vstd::std_specs::iter::IteratorSpec::remaining(
                &vstd::std_specs::btree::spec_btree_keys_iter(set),
            );
        assert(ids@ =~= yielded.unref());
        lemma_yielded_in_order(yielded, set@);
        lemma_ascending(ids@, set@);
    }
    ids
}

/// Lists the keys of a map in ascending order.
pub fn keys<V>(map: &BTreeMap<usize, V>) -> (ids: Vec<usize>)
    ensures
        lists(ids@, map@.dom()),
        ids@ == ascending(map@.dom()),
{
    broadcast use vstd::laws_cmp::group_laws_cmp;

    let mut ids: Vec<usize> = Vec::new();
    for id in it: map.keys()
        invariant
            it.seq() == vstd::std_specs::iter::IteratorSpec::remaining(
                &vstd::std_specs::btree::spec_keys_iter(map),
            ),
            ids@ == it.seq().unref().take(it.index()),
    {
        ids.push(*id);
        assert(ids@ =~= it.seq().unref().take(it.index() + 1));
    }
    proof {
        let yielded = vstd::std_specs::iter::IteratorSpec::remaining(
                &vstd::std_specs::btree::spec_keys_iter(map),
            );
        assert(ids@ =~= yielded.unref());
        lemma_yielded_in_order(yielded, map@.dom());
        lemma_ascending(ids@, map@.dom());
    }
    ids
}

} // verus!
