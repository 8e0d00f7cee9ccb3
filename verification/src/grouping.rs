//! Batching by basis: operations that go to the same peers are sent together.

use vstd::prelude::*;
use crate::bytes::{bytes_eq, lemma_views_push, lemma_views_take, views};
use crate::publish_query::{get_ops_to_publish, lemma_filter_push, ops_to_publish};
use crate::types::{AuthoredOp, DhtOp, DhtOpView, PublishConfig, PublishItem, PublishItemView};

verus! {

/// The operations that share one basis: their hashes, and their published
/// forms in the same order.
#[derive(Clone, Debug, PartialEq, Eq)]
pub struct BasisGroup {
    pub basis: Vec<u8>,
    pub op_hash_list: Vec<Vec<u8>>,
    pub op_data_list: Vec<DhtOp>,
}

/// What a [`BasisGroup`] is, mathematically.
pub struct BasisGroupView {
    pub basis: Seq<u8>,
    pub op_hash_list: Seq<Seq<u8>>,
    pub op_data_list: Seq<DhtOpView>,
}

impl View for BasisGroup {
    type V = BasisGroupView;

    open spec fn view(&self) -> BasisGroupView {
        BasisGroupView {
            basis: self.basis@,
            op_hash_list: views(self.op_hash_list@),
            op_data_list: views(self.op_data_list@),
        }
    }
}

/// The predicate "goes to this basis" on items.
pub open spec fn with_basis(basis: Seq<u8>) -> spec_fn(PublishItemView) -> bool {
    |item: PublishItemView| item.basis == basis
}

/// The group of a basis: the items that go there, in their order.
pub open spec fn group_of(items: Seq<PublishItemView>, basis: Seq<u8>) -> BasisGroupView {
    let members = items.filter(with_basis(basis));
    BasisGroupView {
        basis,
        op_hash_list: members.map_values(|item: PublishItemView| item.op_hash),
        op_data_list: members.map_values(|item: PublishItemView| item.op),
    }
}

/// The bases that occur among the items, each once, in the order in which
/// they first occur.
pub open spec fn distinct_bases(items: Seq<PublishItemView>) -> Seq<Seq<u8>>
    decreases items.len(),
{
    if items.len() == 0 {
        Seq::empty()
    } else {
        let before = distinct_bases(items.drop_last());
        if before.contains(items.last().basis) {
            before
        } else {
            before.push(items.last().basis)
        }
    }
}

/// The items batched by basis: one group for each basis that occurs, in the
/// order in which the bases first occur.
pub open spec fn group_by_basis(items: Seq<PublishItemView>) -> Seq<BasisGroupView> {
    distinct_bases(items).map_values(|basis: Seq<u8>| group_of(items, basis))
}

/// A group with one more item at its end.
pub open spec fn extended(group: BasisGroupView, item: PublishItemView) -> BasisGroupView {
    BasisGroupView {
        basis: group.basis,
        op_hash_list: group.op_hash_list.push(item.op_hash),
        op_data_list: group.op_data_list.push(item.op),
    }
}

/// The group that holds one item.
pub open spec fn singleton_group(item: PublishItemView) -> BasisGroupView {
    BasisGroupView {
        basis: item.basis,
        op_hash_list: seq![item.op_hash],
        op_data_list: seq![item.op],
    }
}

/// No basis is listed twice, and a basis is listed exactly if an item goes
/// there.
pub proof fn lemma_distinct_bases(items: Seq<PublishItemView>)
    ensures
        distinct_bases(items).no_duplicates(),
        forall|b: Seq<u8>|
            distinct_bases(items).contains(b) <==> exists|j: int|
                0 <= j < items.len() && (#[trigger] items[j]).basis == b,
    decreases items.len(),
{
    if items.len() > 0 {
        let rest = items.drop_last();
        let before = distinct_bases(rest);
        let last = items.last();
        lemma_distinct_bases(rest);
        let after = distinct_bases(items);
        assert forall|b: Seq<u8>| after.contains(b) implies exists|j: int|
            0 <= j < items.len() && (#[trigger] items[j]).basis == b by {
            if before.contains(b) {
                let j = choose|j: int| 0 <= j < rest.len() && (#[trigger] rest[j]).basis == b;
                assert(items[j].basis == b);
            } else {
                let k = choose|k: int| 0 <= k < after.len() && after[k] == b;
                if k < before.len() {
                    assert(before[k] == b);
                }
                assert(items[items.len() - 1].basis == b);
            }
        }
        assert forall|b: Seq<u8>|
            (exists|j: int| 0 <= j < items.len() && (#[trigger] items[j]).basis == b)
            implies after.contains(b) by {
            let j = choose|j: int| 0 <= j < items.len() && (#[trigger] items[j]).basis == b;
            if j < rest.len() {
                assert(rest[j].basis == b);
                assert(before.contains(b));
                let k = choose|k: int| 0 <= k < before.len() && before[k] == b;
                assert(after[k] == b);
            } else {
                if before.contains(b) {
                } else {
                    assert(after[after.len() - 1] == b);
                }
            }
        }
    }
}

/// The members of a basis that no item goes to.
proof fn lemma_no_members(items: Seq<PublishItemView>, basis: Seq<u8>)
    requires
        forall|j: int| 0 <= j < items.len() ==> (#[trigger] items[j]).basis != basis,
    ensures
        items.filter(with_basis(basis)) == Seq::<PublishItemView>::empty(),
    decreases items.len(),
{
    reveal(Seq::filter);
    if items.len() > 0 {
        let rest = items.drop_last();
        assert forall|j: int| 0 <= j < rest.len() implies (#[trigger] rest[j]).basis != basis by {
            assert(items[j].basis != basis);
        }
        lemma_no_members(rest, basis);
        assert(items[items.len() - 1].basis != basis);
    }
}

/// The group of a basis after one more item arrived.
proof fn lemma_group_of_push(items: Seq<PublishItemView>, item: PublishItemView, basis: Seq<u8>)
    ensures
        group_of(items.push(item), basis) == if item.basis == basis {
            extended(group_of(items, basis), item)
        } else {
            group_of(items, basis)
        },
{
    lemma_filter_push(items, with_basis(basis), item);
    if item.basis == basis {
        let g = group_of(items.push(item), basis);
        let e = extended(group_of(items, basis), item);
        assert(g.op_hash_list =~= e.op_hash_list);
        assert(g.op_data_list =~= e.op_data_list);
    }
}

/// How the batches change when one more item arrives: it joins the group of
/// its basis, or opens a new group at the end.
pub proof fn lemma_group_by_basis_push(items: Seq<PublishItemView>, item: PublishItemView)
    ensures
        group_by_basis(items).len() == distinct_bases(items).len(),
        forall|k: int|
            0 <= k < group_by_basis(items).len() ==> (#[trigger] group_by_basis(items)[k]).basis
                == distinct_bases(items)[k],
        forall|k: int|
            0 <= k < group_by_basis(items).len() && (#[trigger] group_by_basis(items)[k]).basis
                == item.basis ==> group_by_basis(items.push(item)) == group_by_basis(items).update(
                k,
                extended(group_by_basis(items)[k], item),
            ),
        (forall|k: int|
            0 <= k < group_by_basis(items).len() ==> (#[trigger] group_by_basis(items)[k]).basis
                != item.basis) ==> group_by_basis(items.push(item)) == group_by_basis(items).push(
            singleton_group(item),
        ),
{
    let groups = group_by_basis(items);
    let bases = distinct_bases(items);
    let grown = items.push(item);
    lemma_distinct_bases(items);
    assert(grown.drop_last() =~= items);
    assert(grown.last() == item);
    assert forall|k: int| 0 <= k < groups.len() && (#[trigger] groups[k]).basis == item.basis
        implies group_by_basis(grown) == groups.update(k, extended(groups[k], item)) by {
        assert(bases[k] == item.basis);
        assert(bases.contains(item.basis));
        assert(distinct_bases(grown) == bases);
        let target = groups.update(k, extended(groups[k], item));
        assert forall|j: int| 0 <= j < bases.len() implies group_by_basis(grown)[j] == target[j] by {
            lemma_group_of_push(items, item, bases[j]);
            if j != k {
                assert(bases[j] != bases[k]);
            }
        }
        assert(group_by_basis(grown) =~= target);
    }
    if forall|k: int| 0 <= k < groups.len() ==> (#[trigger] groups[k]).basis != item.basis {
        if bases.contains(item.basis) {
            let k = choose|k: int| 0 <= k < bases.len() && bases[k] == item.basis;
            assert(groups[k].basis == item.basis);
        }
        assert(distinct_bases(grown) == bases.push(item.basis));
        let target = groups.push(singleton_group(item));
        assert forall|j: int| 0 <= j < bases.len() + 1 implies group_by_basis(grown)[j]
            == target[j] by {
            if j < bases.len() {
                lemma_group_of_push(items, item, bases[j]);
                assert(groups[j].basis != item.basis);
            } else {
                lemma_group_of_push(items, item, item.basis);
                assert forall|i: int| 0 <= i < items.len() implies (#[trigger] items[i]).basis
                    != item.basis by {
                    if items[i].basis == item.basis {
                        assert(bases.contains(item.basis));
                    }
                }
                lemma_no_members(items, item.basis);
                let g = group_of(grown, item.basis);
                let s = singleton_group(item);
                assert(g.op_hash_list =~= s.op_hash_list);
                assert(g.op_data_list =~= s.op_data_list);
            }
        }
        assert(group_by_basis(grown) =~= target);
    }
}

/// The place of the group of a basis among the groups, if there is one.
pub fn find_group(groups: &Vec<BasisGroup>, basis: &Vec<u8>) -> (place: Option<usize>)
    ensures
        match place {
            Some(k) => k < groups.len() && groups@[k as int].basis@ == basis@ && forall|j: int|
                0 <= j < k ==> (#[trigger] groups@[j]).basis@ != basis@,
            None => forall|j: int| 0 <= j < groups.len() ==> (#[trigger] groups@[j]).basis@ != basis@,
        },
{
    let mut k: usize = 0;
    while k < groups.len()
        invariant
            k <= groups.len(),
            forall|j: int| 0 <= j < k ==> (#[trigger] groups@[j]).basis@ != basis@,
        decreases groups.len() - k,
    {
        if bytes_eq(&groups[k].basis, basis) {
            return Some(k);
        }
        k += 1;
    }
    None
}

/// Batches items by basis. Each basis that occurs gets one group, the groups
/// stand in the order in which their bases first occur, and each group lists
/// its items in the order in which they came.
pub fn batch_by_basis(items: Vec<PublishItem>) -> (groups: Vec<BasisGroup>)
    ensures
        views(groups@) == group_by_basis(views(items@)),
{
    let mut groups: Vec<BasisGroup> = Vec::new();
    let ghost all = items@;
    assert(views(all.take(0)) =~= Seq::<PublishItemView>::empty());
    assert(views(groups@) =~= group_by_basis(views(all.take(0))));
    for item in it: items.into_iter()
        invariant
            it.seq() == all,
            views(groups@) == group_by_basis(views(all.take(it.index() as int))),
    {
        let ghost n = it.index() as int;
        proof {
            assert(item == all[n]);
            lemma_views_take(all, n);
            lemma_group_by_basis_push(views(all.take(n)), item@);
        }
        let ghost before = groups@;
        match find_group(&groups, &item.basis) {
            Some(k) => {
                let group = &mut groups[k];
                group.op_hash_list.push(item.op_hash);
                group.op_data_list.push(item.op);
                proof {
                    lemma_views_push(before[k as int].op_hash_list@, item.op_hash);
                    lemma_views_push(before[k as int].op_data_list@, item.op);
                    assert(views(before)[k as int].basis == item@.basis);
                    assert(groups@[k as int]@ == extended(views(before)[k as int], item@));
                    assert(views(groups@) =~= views(before).update(
                        k as int,
                        extended(views(before)[k as int], item@),
                    ));
                }
            },
            None => {
                let mut op_hash_list: Vec<Vec<u8>> = Vec::new();
                let mut op_data_list: Vec<DhtOp> = Vec::new();
                proof {
                    lemma_views_push(op_hash_list@, item.op_hash);
                    lemma_views_push(op_data_list@, item.op);
                }
                op_hash_list.push(item.op_hash);
                op_data_list.push(item.op);
                let group = BasisGroup { basis: item.basis, op_hash_list, op_data_list };
                proof {
                    assert(group@.op_hash_list =~= singleton_group(item@).op_hash_list);
                    assert(group@.op_data_list =~= singleton_group(item@).op_data_list);
                    lemma_views_push(before, group);
                    assert forall|j: int| 0 <= j < views(before).len() implies (#[trigger] views(
                        before,
                    )[j]).basis != item@.basis by {
                        assert(before[j].basis@ != item.basis@);
                    }
                }
                groups.push(group);
            },
        }
    }
    assert(all.take(all.len() as int) =~= all);
    groups
}

/// Reads the store for the agent's operations that are due at `now` and
/// batches them by basis, ready to be broadcast group by group.
pub fn publish_dht_ops_workflow_inner(
    agent: &Vec<u8>,
    store: &Vec<AuthoredOp>,
    now: u64,
    config: &PublishConfig,
) -> (to_publish: Vec<BasisGroup>)
    ensures
        views(to_publish@) == group_by_basis(ops_to_publish(views(store@), agent@, now, *config)),
{
    batch_by_basis(get_ops_to_publish(agent, store, now, config))
}

} // verus!
