//! What holds of selection, batching and whole rounds, for every store and
//! every behaviour of the network.

use vstd::prelude::*;
use crate::error::BroadcastFailure;
use crate::grouping::{
    distinct_bases, group_by_basis, lemma_distinct_bases, with_basis, BasisGroupView,
};
use crate::publish_query::{
    backlog_len, due_at, is_due, meets_publish_conditions, ops_to_publish, still_needs_publish,
};
use crate::redaction::{published_form, withheld};
use crate::round::{acknowledged, round, signal_after};
use crate::store::{hashes_are_unique, store_after_commit};
use crate::types::{
    AuthoredOpView, DhtOpType, EntryVisibility, PublishConfig, PublishItemView,
};
use crate::workflow::{
    request_for, step, LoopCommand, PublishActionView, PublishEventView, PublishStateView,
    WorkComplete,
};

verus! {

/// [`meets_publish_conditions`] as a predicate on records.
pub open spec fn conditions_at(agent: Seq<u8>, now: u64, config: PublishConfig) -> spec_fn(
    AuthoredOpView,
) -> bool {
    |r: AuthoredOpView| meets_publish_conditions(r, agent, now, config)
}

/// Two predicates that agree on the elements of a sequence filter it alike.
pub proof fn lemma_filter_agree<A>(s: Seq<A>, p: spec_fn(A) -> bool, q: spec_fn(A) -> bool)
    requires
        forall|i: int| 0 <= i < s.len() ==> p(#[trigger] s[i]) == q(s[i]),
    ensures
        s.filter(p) == s.filter(q),
    decreases s.len(),
{
    reveal(Seq::filter);
    if s.len() > 0 {
        let rest = s.drop_last();
        assert forall|i: int| 0 <= i < rest.len() implies p(#[trigger] rest[i]) == q(rest[i]) by {
            assert(rest[i] == s[i]);
        }
        lemma_filter_agree(rest, p, q);
        assert(p(s[s.len() - 1]) == q(s[s.len() - 1]));
    }
}

/// Every element that a filter keeps stands in the sequence and meets the
/// predicate.
pub proof fn lemma_kept_is_element<A>(s: Seq<A>, p: spec_fn(A) -> bool, m: int)
    requires
        0 <= m < s.filter(p).len(),
    ensures
        p(s.filter(p)[m]),
        exists|i: int| 0 <= i < s.len() && #[trigger] s[i] == s.filter(p)[m],
{
    let kept = s.filter(p);
    s.lemma_filter_pred(p, m);
    assert(kept.contains(kept[m]));
    s.lemma_filter_contains_rev(p, kept[m]);
    let i = choose|i: int| 0 <= i < s.len() && s[i] == kept[m];
    assert(s[i] == kept[m]);
}

/// Every element that meets the predicate is kept by the filter.
pub proof fn lemma_element_is_kept<A>(s: Seq<A>, p: spec_fn(A) -> bool, i: int)
    requires
        0 <= i < s.len(),
        p(s[i]),
    ensures
        exists|m: int| 0 <= m < s.filter(p).len() && #[trigger] s.filter(p)[m] == s[i],
{
    s.lemma_filter_contains(p, i);
    let kept = s.filter(p);
    let m = choose|m: int| 0 <= m < kept.len() && kept[m] == s[i];
    assert(kept[m] == s[i]);
}

/// Every selected item is the published form of a record that is due.
pub proof fn lemma_selected_is_due(
    store: Seq<AuthoredOpView>,
    agent: Seq<u8>,
    now: u64,
    config: PublishConfig,
    k: int,
)
    requires
        0 <= k < ops_to_publish(store, agent, now, config).len(),
    ensures
        exists|i: int|
            0 <= i < store.len() && is_due(#[trigger] store[i], agent, now, config)
                && ops_to_publish(store, agent, now, config)[k] == published_form(store[i]),
{
    let pred = due_at(agent, now, config);
    lemma_kept_is_element(store, pred, k);
    let i = choose|i: int| 0 <= i < store.len() && #[trigger] store[i] == store.filter(pred)[k];
    assert(is_due(store[i], agent, now, config));
}

/// Every record that is due is selected.
pub proof fn lemma_due_is_selected(
    store: Seq<AuthoredOpView>,
    agent: Seq<u8>,
    now: u64,
    config: PublishConfig,
    i: int,
)
    requires
        0 <= i < store.len(),
        is_due(store[i], agent, now, config),
    ensures
        exists|k: int|
            0 <= k < ops_to_publish(store, agent, now, config).len() && #[trigger] ops_to_publish(
                store,
                agent,
                now,
                config,
            )[k] == published_form(store[i]),
{
    let pred = due_at(agent, now, config);
    lemma_element_is_kept(store, pred, i);
    let k = choose|k: int|
        0 <= k < store.filter(pred).len() && #[trigger] store.filter(pred)[k] == store[i];
    assert(ops_to_publish(store, agent, now, config)[k] == published_form(store[i]));
}

/// Selection is exact. The selector returns the published form of a record
/// exactly if the record is the agent's own, is valid, is short of receipts
/// and was not published within the interval, with one exception that
/// privacy makes: a record that is kept back is never returned. Where the
/// store holds no such record, the selection is the records that meet the
/// four conditions, in order.
pub proof fn law_selection_correctness(
    store: Seq<AuthoredOpView>,
    agent: Seq<u8>,
    now: u64,
    config: PublishConfig,
)
    ensures
        forall|k: int|
            0 <= k < ops_to_publish(store, agent, now, config).len() ==> exists|i: int|
                0 <= i < store.len() && meets_publish_conditions(
                    #[trigger] store[i],
                    agent,
                    now,
                    config,
                ) && !withheld(store[i]) && (#[trigger] ops_to_publish(store, agent, now, config)[k])
                    == published_form(store[i]),
        forall|i: int|
            0 <= i < store.len() && meets_publish_conditions(
                #[trigger] store[i],
                agent,
                now,
                config,
            ) && !withheld(store[i]) ==> ops_to_publish(store, agent, now, config).contains(
                published_form(store[i]),
            ),
        (forall|i: int| 0 <= i < store.len() ==> !withheld(#[trigger] store[i]))
            ==> ops_to_publish(store, agent, now, config) == store.filter(
            conditions_at(agent, now, config),
        ).map_values(|r: AuthoredOpView| published_form(r)),
{
    let selected = ops_to_publish(store, agent, now, config);
    assert forall|k: int| 0 <= k < selected.len() implies exists|i: int|
        0 <= i < store.len() && meets_publish_conditions(#[trigger] store[i], agent, now, config)
            && !withheld(store[i]) && (#[trigger] selected[k]) == published_form(store[i]) by {
        lemma_selected_is_due(store, agent, now, config, k);
        let i = choose|i: int|
            0 <= i < store.len() && is_due(#[trigger] store[i], agent, now, config) && selected[k]
                == published_form(store[i]);
        assert(meets_publish_conditions(store[i], agent, now, config));
    }
    assert forall|i: int|
        0 <= i < store.len() && meets_publish_conditions(#[trigger] store[i], agent, now, config)
            && !withheld(store[i]) implies selected.contains(published_form(store[i])) by {
        lemma_due_is_selected(store, agent, now, config, i);
    }
    if forall|i: int| 0 <= i < store.len() ==> !withheld(#[trigger] store[i]) {
        lemma_filter_agree(store, due_at(agent, now, config), conditions_at(agent, now, config));
        assert(selected =~= store.filter(conditions_at(agent, now, config)).map_values(
            |r: AuthoredOpView| published_form(r),
        ));
    }
}

/// Enough receipts end publishing for good: a record that has reached the
/// redundancy factor is not selected at any time and no longer counts as
/// needing to be published.
pub proof fn law_enough_receipts_end_publishing(
    r: AuthoredOpView,
    agent: Seq<u8>,
    now: u64,
    config: PublishConfig,
)
    requires
        r.receipt_count >= config.redundancy_factor,
    ensures
        !is_due(r, agent, now, config),
        !still_needs_publish(r, agent, config),
{
}

/// Batching mixes nothing: no two groups share a basis.
pub proof fn law_groups_have_distinct_bases(items: Seq<PublishItemView>, g: int, h: int)
    requires
        0 <= g < h < group_by_basis(items).len(),
    ensures
        group_by_basis(items)[g].basis != group_by_basis(items)[h].basis,
{
    lemma_distinct_bases(items);
    assert(distinct_bases(items)[g] != distinct_bases(items)[h]);
}

/// Batching invents nothing: a group is not empty, lists as many hashes as
/// published forms, and each of its entries is an item with the group's
/// basis.
pub proof fn law_group_entries_are_items(items: Seq<PublishItemView>, g: int, m: int)
    requires
        0 <= g < group_by_basis(items).len(),
    ensures
        group_by_basis(items)[g].op_hash_list.len() > 0,
        group_by_basis(items)[g].op_hash_list.len() == group_by_basis(items)[g].op_data_list.len(),
        0 <= m < group_by_basis(items)[g].op_hash_list.len() ==> exists|k: int|
            0 <= k < items.len() && (#[trigger] items[k]).basis == group_by_basis(items)[g].basis
                && items[k].op_hash == group_by_basis(items)[g].op_hash_list[m] && items[k].op
                == group_by_basis(items)[g].op_data_list[m],
{
    let basis = distinct_bases(items)[g];
    let members = items.filter(with_basis(basis));
    lemma_distinct_bases(items);
    assert(distinct_bases(items).contains(basis));
    let j = choose|j: int| 0 <= j < items.len() && (#[trigger] items[j]).basis == basis;
    lemma_element_is_kept(items, with_basis(basis), j);
    if 0 <= m < members.len() {
        lemma_kept_is_element(items, with_basis(basis), m);
        let k = choose|k: int| 0 <= k < items.len() && #[trigger] items[k] == members[m];
        assert(items[k].basis == basis);
    }
}

/// Batching loses nothing: every item stands in the group of its basis.
pub proof fn law_item_stands_in_its_group(items: Seq<PublishItemView>, k: int)
    requires
        0 <= k < items.len(),
    ensures
        exists|g: int, m: int|
            0 <= g < group_by_basis(items).len() && 0 <= m < group_by_basis(
                items,
            )[g].op_hash_list.len() && group_by_basis(items)[g].basis == items[k].basis
                && #[trigger] group_by_basis(items)[g].op_hash_list[m] == items[k].op_hash
                && group_by_basis(items)[g].op_data_list[m] == items[k].op,
{
    let basis = items[k].basis;
    let members = items.filter(with_basis(basis));
    lemma_distinct_bases(items);
    assert(distinct_bases(items).contains(basis));
    let g = choose|g: int| 0 <= g < distinct_bases(items).len() && distinct_bases(items)[g] == basis;
    lemma_element_is_kept(items, with_basis(basis), k);
    let m = choose|m: int| 0 <= m < members.len() && #[trigger] members[m] == items[k];
    assert(group_by_basis(items)[g].op_hash_list[m] == items[k].op_hash);
    assert(group_by_basis(items)[g].op_data_list[m] == items[k].op);
}

/// Private entries stay home. An operation that only stores a private entry
/// is never selected, and a selected operation carries an entry body only
/// where the entry is public.
pub proof fn law_private_entries_are_not_published(
    store: Seq<AuthoredOpView>,
    agent: Seq<u8>,
    now: u64,
    config: PublishConfig,
)
    ensures
        forall|i: int|
            0 <= i < store.len() && (#[trigger] store[i]).kind == DhtOpType::StoreEntry
                && store[i].entry_visibility == Some(EntryVisibility::Private) ==> !is_due(
                store[i],
                agent,
                now,
                config,
            ),
        forall|k: int|
            0 <= k < ops_to_publish(store, agent, now, config).len() ==> exists|i: int|
                0 <= i < store.len() && (#[trigger] ops_to_publish(store, agent, now, config)[k])
                    == published_form(#[trigger] store[i]) && !(store[i].kind
                    == DhtOpType::StoreEntry && store[i].entry_visibility == Some(
                    EntryVisibility::Private,
                )) && (ops_to_publish(store, agent, now, config)[k].op.entry is Some
                    ==> store[i].entry_visibility == Some(EntryVisibility::Public)),
{
    let selected = ops_to_publish(store, agent, now, config);
    assert forall|k: int| 0 <= k < selected.len() implies exists|i: int|
        0 <= i < store.len() && (#[trigger] selected[k]) == published_form(#[trigger] store[i]) && !(
        store[i].kind == DhtOpType::StoreEntry && store[i].entry_visibility == Some(
            EntryVisibility::Private,
        )) && (selected[k].op.entry is Some ==> store[i].entry_visibility == Some(
            EntryVisibility::Public,
        )) by {
        lemma_selected_is_due(store, agent, now, config, k);
        let i = choose|i: int|
            0 <= i < store.len() && is_due(#[trigger] store[i], agent, now, config) && selected[k]
                == published_form(store[i]);
        assert(selected[k] == published_form(store[i]));
    }
}

/// Whether every group that the round may still send is one of `groups`.
pub open spec fn sends_within(state: PublishStateView, agent: Seq<u8>, groups: Seq<BasisGroupView>) -> bool {
    match state {
        PublishStateView::Selecting { .. } => false,
        PublishStateView::Broadcasting { agent: author, queued, .. } => author == agent && forall|
            q: int,
        |
            0 <= q < queued.len() ==> groups.contains(#[trigger] queued[q]),
        _ => true,
    }
}

/// Whether the action, if it is a broadcast, sends one of `groups` in the
/// agent's name.
pub open spec fn sends_one_of(action: PublishActionView, agent: Seq<u8>, groups: Seq<BasisGroupView>) -> bool {
    action matches PublishActionView::Publish(request) ==> exists|g: int|
        0 <= g < groups.len() && request == request_for(agent, #[trigger] groups[g])
}

/// Nothing but the selection reaches the network. Before the store is read
/// the round sends nothing. Reading the store sends, if anything, one of the
/// batches of what was selected. From then on every event, whatever it is,
/// sends at most one of those batches.
pub proof fn law_only_selected_is_sent(
    state: PublishStateView,
    event: PublishEventView,
    agent: Seq<u8>,
    config: PublishConfig,
    groups: Seq<BasisGroupView>,
)
    ensures
        state is Selecting && !(event is OpsLoaded) ==> !(step(state, event).1 is Publish),
        state == (PublishStateView::Selecting { agent, config }) ==> (event matches PublishEventView::OpsLoaded {
            store,
            now,
        } ==> {
            let selected = group_by_basis(ops_to_publish(store, agent, now, config));
            sends_within(step(state, event).0, agent, selected) && sends_one_of(
                step(state, event).1,
                agent,
                selected,
            )
        }),
        sends_within(state, agent, groups) ==> sends_within(step(state, event).0, agent, groups)
            && sends_one_of(step(state, event).1, agent, groups),
{
    if state == (PublishStateView::Selecting { agent, config }) {
        if let PublishEventView::OpsLoaded { store, now } = event {
            let selected = group_by_basis(ops_to_publish(store, agent, now, config));
            if selected.len() > 0 {
                assert(selected.contains(selected[0]));
                let rest = selected.subrange(1, selected.len() as int);
                assert forall|q: int| 0 <= q < rest.len() implies selected.contains(
                    #[trigger] rest[q],
                ) by {
                    assert(selected[q + 1] == rest[q]);
                }
            }
        }
    }
    if sends_within(state, agent, groups) {
        if let PublishStateView::Broadcasting { agent: author, queued, .. } = state {
            if queued.len() > 0 {
                assert(groups.contains(queued[0]));
                let g = choose|g: int| 0 <= g < groups.len() && groups[g] == queued[0];
                assert(request_for(agent, queued[0]) == request_for(agent, groups[g]));
                let rest = queued.subrange(1, queued.len() as int);
                assert forall|q: int| 0 <= q < rest.len() implies groups.contains(
                    #[trigger] rest[q],
                ) by {
                    assert(queued[q + 1] == rest[q]);
                }
            }
        }
    }
}

/// A hash is acknowledged exactly if it belongs to a group whose broadcast
/// the network took.
pub proof fn lemma_acknowledged(
    groups: Seq<BasisGroupView>,
    outcomes: Seq<Result<(), BroadcastFailure>>,
    op_hash: Seq<u8>,
)
    requires
        outcomes.len() <= groups.len(),
    ensures
        acknowledged(groups, outcomes).contains(op_hash) <==> exists|g: int|
            0 <= g < outcomes.len() && (#[trigger] outcomes[g]) is Ok
                && groups[g].op_hash_list.contains(op_hash),
    decreases outcomes.len(),
{
    if outcomes.len() > 0 {
        let earlier = outcomes.drop_last();
        let last = outcomes.len() - 1;
        lemma_acknowledged(groups, earlier, op_hash);
        let before = acknowledged(groups, earlier);
        let all = acknowledged(groups, outcomes);
        if all.contains(op_hash) {
            if before.contains(op_hash) {
                let g = choose|g: int|
                    0 <= g < earlier.len() && (#[trigger] earlier[g]) is Ok
                        && groups[g].op_hash_list.contains(op_hash);
                assert(outcomes[g] is Ok);
            } else {
                let at = choose|at: int| 0 <= at < all.len() && all[at] == op_hash;
                if at < before.len() {
                    assert(before[at] == op_hash);
                }
                assert(outcomes[last] is Ok);
                assert(groups[last].op_hash_list[at - before.len()] == op_hash);
            }
        }
        if exists|g: int|
            0 <= g < outcomes.len() && (#[trigger] outcomes[g]) is Ok
                && groups[g].op_hash_list.contains(op_hash) {
            let g = choose|g: int|
                0 <= g < outcomes.len() && (#[trigger] outcomes[g]) is Ok
                    && groups[g].op_hash_list.contains(op_hash);
            if g < last {
                assert(earlier[g] is Ok);
                assert(before.contains(op_hash));
                let at = choose|at: int| 0 <= at < before.len() && before[at] == op_hash;
                assert(all[at] == op_hash);
            } else {
                let list = groups[last].op_hash_list;
                let at = choose|at: int| 0 <= at < list.len() && list[at] == op_hash;
                assert(all[before.len() + at] == op_hash);
            }
        }
    }
}

/// A round is incomplete exactly if some broadcast found routing not ready.
pub proof fn lemma_signal(outcomes: Seq<Result<(), BroadcastFailure>>)
    ensures
        signal_after(outcomes) == WorkComplete::Incomplete <==> exists|g: int|
            0 <= g < outcomes.len() && #[trigger] outcomes[g] == Err::<(), BroadcastFailure>(
                BroadcastFailure::RoutingNotReady,
            ),
    decreases outcomes.len(),
{
    if outcomes.len() > 0 {
        let earlier = outcomes.drop_last();
        let last = outcomes.len() - 1;
        lemma_signal(earlier);
        let not_ready = Err::<(), BroadcastFailure>(BroadcastFailure::RoutingNotReady);
        if exists|g: int| 0 <= g < earlier.len() && #[trigger] earlier[g] == not_ready {
            let g = choose|g: int| 0 <= g < earlier.len() && #[trigger] earlier[g] == not_ready;
            assert(outcomes[g] == not_ready);
        }
        if exists|g: int| 0 <= g < outcomes.len() && #[trigger] outcomes[g] == not_ready {
            let g = choose|g: int| 0 <= g < outcomes.len() && #[trigger] outcomes[g] == not_ready;
            if g < last {
                assert(earlier[g] == not_ready);
            }
        }
        if signal_after(outcomes) == WorkComplete::Incomplete && signal_after(earlier)
            != WorkComplete::Incomplete {
            assert(outcomes[last] == not_ready);
        }
    }
}

/// Every hash that a group lists is the hash of a due record with the
/// group's basis.
proof fn lemma_listed_hash_is_due(
    store: Seq<AuthoredOpView>,
    agent: Seq<u8>,
    now: u64,
    config: PublishConfig,
    g: int,
    op_hash: Seq<u8>,
)
    requires
        0 <= g < group_by_basis(ops_to_publish(store, agent, now, config)).len(),
        group_by_basis(ops_to_publish(store, agent, now, config))[g].op_hash_list.contains(op_hash),
    ensures
        exists|j: int|
            0 <= j < store.len() && is_due(#[trigger] store[j], agent, now, config)
                && store[j].hash == op_hash && store[j].basis == group_by_basis(
                ops_to_publish(store, agent, now, config),
            )[g].basis,
{
    let selected = ops_to_publish(store, agent, now, config);
    let groups = group_by_basis(selected);
    let basis = groups[g].basis;
    let members = selected.filter(with_basis(basis));
    let list = groups[g].op_hash_list;
    let m = choose|m: int| 0 <= m < list.len() && list[m] == op_hash;
    lemma_kept_is_element(selected, with_basis(basis), m);
    let k = choose|k: int| 0 <= k < selected.len() && #[trigger] selected[k] == members[m];
    lemma_selected_is_due(store, agent, now, config, k);
    let j = choose|j: int|
        0 <= j < store.len() && is_due(#[trigger] store[j], agent, now, config) && selected[k]
            == published_form(store[j]);
    assert(store[j].hash == op_hash);
    assert(store[j].basis == basis);
}

/// No two records share a hash, so records with one hash are one record.
proof fn lemma_same_hash_same_record(store: Seq<AuthoredOpView>, i: int, j: int)
    requires
        hashes_are_unique(store),
        0 <= i < store.len(),
        0 <= j < store.len(),
        store[i].hash == store[j].hash,
    ensures
        i == j,
{
    if i < j {
        assert(store[i].hash != store[j].hash);
    }
    if j < i {
        assert(store[j].hash != store[i].hash);
    }
}

/// The hash of a due record stands in the group of a basis exactly if that
/// basis is the record's own, provided that hashes are unique.
proof fn lemma_group_holds_hash(
    store: Seq<AuthoredOpView>,
    agent: Seq<u8>,
    now: u64,
    config: PublishConfig,
    i: int,
    g: int,
)
    requires
        0 <= i < store.len(),
        is_due(store[i], agent, now, config),
        0 <= g < group_by_basis(ops_to_publish(store, agent, now, config)).len(),
    ensures
        store[i].basis == group_by_basis(ops_to_publish(store, agent, now, config))[g].basis
            ==> group_by_basis(ops_to_publish(store, agent, now, config))[g].op_hash_list.contains(
            store[i].hash,
        ),
        hashes_are_unique(store) && group_by_basis(
            ops_to_publish(store, agent, now, config),
        )[g].op_hash_list.contains(store[i].hash) ==> store[i].basis == group_by_basis(
            ops_to_publish(store, agent, now, config),
        )[g].basis,
{
    let selected = ops_to_publish(store, agent, now, config);
    let groups = group_by_basis(selected);
    let basis = groups[g].basis;
    let members = selected.filter(with_basis(basis));
    if store[i].basis == basis {
        lemma_due_is_selected(store, agent, now, config, i);
        let k = choose|k: int|
            0 <= k < selected.len() && #[trigger] selected[k] == published_form(store[i]);
        lemma_element_is_kept(selected, with_basis(basis), k);
        let m = choose|m: int| 0 <= m < members.len() && #[trigger] members[m] == selected[k];
        assert(groups[g].op_hash_list[m] == store[i].hash);
    }
    if hashes_are_unique(store) && groups[g].op_hash_list.contains(store[i].hash) {
        lemma_listed_hash_is_due(store, agent, now, config, g, store[i].hash);
        let j = choose|j: int|
            0 <= j < store.len() && is_due(#[trigger] store[j], agent, now, config)
                && store[j].hash == store[i].hash && store[j].basis == basis;
        lemma_same_hash_same_record(store, i, j);
    }
}

/// A commit writes publish times and nothing else. The store keeps its
/// records, each keeps every other attribute, and a time of last publishing
/// either stays or becomes the time of the commit.
pub proof fn law_commit_changes_only_publish_times(
    store: Seq<AuthoredOpView>,
    op_hashes: Seq<Seq<u8>>,
    now: u64,
    i: int,
)
    requires
        0 <= i < store.len(),
    ensures
        store_after_commit(store, op_hashes, now).len() == store.len(),
        store_after_commit(store, op_hashes, now)[i] == (AuthoredOpView {
            last_publish_time: store_after_commit(store, op_hashes, now)[i].last_publish_time,
            ..store[i]
        }),
        store_after_commit(store, op_hashes, now)[i].last_publish_time == if op_hashes.contains(
            store[i].hash,
        ) {
            Some(now)
        } else {
            store[i].last_publish_time
        },
{
}

/// What was not selected is not touched. A record that was not due when the
/// round read the store is after the round exactly as it was. Hashes are
/// taken to be unique.
pub proof fn law_unselected_records_are_untouched(
    store: Seq<AuthoredOpView>,
    agent: Seq<u8>,
    now: u64,
    commit_time: u64,
    config: PublishConfig,
    outcomes: Seq<Result<(), BroadcastFailure>>,
    i: int,
)
    requires
        hashes_are_unique(store),
        outcomes.len() == group_by_basis(ops_to_publish(store, agent, now, config)).len(),
        0 <= i < store.len(),
        !is_due(store[i], agent, now, config),
    ensures
        round(store, agent, now, commit_time, config, outcomes).store[i] == store[i],
{
    let groups = group_by_basis(ops_to_publish(store, agent, now, config));
    let committed = acknowledged(groups, outcomes);
    lemma_acknowledged(groups, outcomes, store[i].hash);
    if committed.contains(store[i].hash) {
        let g = choose|g: int|
            0 <= g < outcomes.len() && (#[trigger] outcomes[g]) is Ok
                && groups[g].op_hash_list.contains(store[i].hash);
        lemma_listed_hash_is_due(store, agent, now, config, g, store[i].hash);
        let j = choose|j: int|
            0 <= j < store.len() && is_due(#[trigger] store[j], agent, now, config)
                && store[j].hash == store[i].hash && store[j].basis == groups[g].basis;
        lemma_same_hash_same_record(store, i, j);
    }
}

/// Timestamps follow acknowledgement, group by group. Take a record that was
/// selected in a round, and the group of its basis. If the network took that
/// group's broadcast, the record's time of last publishing is the time of
/// the commit. If the broadcast failed, the record is exactly as it was,
/// whatever became of the other groups. Hashes are taken to be unique.
pub proof fn law_timestamps_follow_acknowledgement(
    store: Seq<AuthoredOpView>,
    agent: Seq<u8>,
    now: u64,
    commit_time: u64,
    config: PublishConfig,
    outcomes: Seq<Result<(), BroadcastFailure>>,
    i: int,
    g: int,
)
    requires
        hashes_are_unique(store),
        outcomes.len() == group_by_basis(ops_to_publish(store, agent, now, config)).len(),
        0 <= i < store.len(),
        is_due(store[i], agent, now, config),
        0 <= g < outcomes.len(),
        store[i].basis == group_by_basis(ops_to_publish(store, agent, now, config))[g].basis,
    ensures
        outcomes[g] is Ok ==> round(store, agent, now, commit_time, config, outcomes).store[i] == (
        AuthoredOpView { last_publish_time: Some(commit_time), ..store[i] }),
        outcomes[g] is Err ==> round(store, agent, now, commit_time, config, outcomes).store[i]
            == store[i],
{
    let groups = group_by_basis(ops_to_publish(store, agent, now, config));
    let committed = acknowledged(groups, outcomes);
    lemma_acknowledged(groups, outcomes, store[i].hash);
    lemma_group_holds_hash(store, agent, now, config, i, g);
    if outcomes[g] is Err {
        if committed.contains(store[i].hash) {
            let h = choose|h: int|
                0 <= h < outcomes.len() && (#[trigger] outcomes[h]) is Ok
                    && groups[h].op_hash_list.contains(store[i].hash);
            lemma_group_holds_hash(store, agent, now, config, i, h);
            if h < g {
                law_groups_have_distinct_bases(ops_to_publish(store, agent, now, config), h, g);
            } else {
                law_groups_have_distinct_bases(ops_to_publish(store, agent, now, config), g, h);
            }
        }
    }
}

/// Partial failure isolation. If the broadcast for one basis finds routing
/// not ready while the broadcast for another basis succeeds, then after the
/// round the operations of the second have their time of last publishing
/// set, those of the first are untouched, and the round is incomplete.
/// Hashes are taken to be unique.
pub proof fn law_partial_failure_isolation(
    store: Seq<AuthoredOpView>,
    agent: Seq<u8>,
    now: u64,
    commit_time: u64,
    config: PublishConfig,
    outcomes: Seq<Result<(), BroadcastFailure>>,
    x: int,
    y: int,
)
    requires
        hashes_are_unique(store),
        outcomes.len() == group_by_basis(ops_to_publish(store, agent, now, config)).len(),
        0 <= x < outcomes.len(),
        0 <= y < outcomes.len(),
        outcomes[x] == Err::<(), BroadcastFailure>(BroadcastFailure::RoutingNotReady),
        outcomes[y] is Ok,
    ensures
        forall|i: int|
            0 <= i < store.len() && is_due(#[trigger] store[i], agent, now, config)
                && store[i].basis == group_by_basis(ops_to_publish(store, agent, now, config))[y].basis
                ==> round(
                store,
                agent,
                now,
                commit_time,
                config,
                outcomes,
            ).store[i].last_publish_time == Some(commit_time),
        forall|i: int|
            0 <= i < store.len() && is_due(#[trigger] store[i], agent, now, config)
                && store[i].basis == group_by_basis(ops_to_publish(store, agent, now, config))[x].basis
                ==> round(store, agent, now, commit_time, config, outcomes).store[i] == store[i],
        round(store, agent, now, commit_time, config, outcomes).complete == WorkComplete::Incomplete,
{
    let groups = group_by_basis(ops_to_publish(store, agent, now, config));
    assert forall|i: int|
        0 <= i < store.len() && is_due(#[trigger] store[i], agent, now, config) && store[i].basis
            == groups[y].basis implies round(
        store,
        agent,
        now,
        commit_time,
        config,
        outcomes,
    ).store[i].last_publish_time == Some(commit_time) by {
        law_timestamps_follow_acknowledgement(
            store,
            agent,
            now,
            commit_time,
            config,
            outcomes,
            i,
            y,
        );
    }
    assert forall|i: int|
        0 <= i < store.len() && is_due(#[trigger] store[i], agent, now, config) && store[i].basis
            == groups[x].basis implies round(store, agent, now, commit_time, config, outcomes).store[i]
        == store[i] by {
        law_timestamps_follow_acknowledgement(
            store,
            agent,
            now,
            commit_time,
            config,
            outcomes,
            i,
            x,
        );
    }
    lemma_signal(outcomes);
}

/// What was acknowledged rests. A record whose hash was committed in a round
/// is not selected again before the interval has passed since the commit.
pub proof fn law_acknowledged_rest(
    store: Seq<AuthoredOpView>,
    op_hashes: Seq<Seq<u8>>,
    commit_time: u64,
    agent: Seq<u8>,
    later: u64,
    config: PublishConfig,
    i: int,
)
    requires
        0 <= i < store.len(),
        op_hashes.contains(store[i].hash),
        later - commit_time < config.min_publish_interval,
    ensures
        !is_due(store_after_commit(store, op_hashes, commit_time)[i], agent, later, config),
{
}

/// Idempotent quiescence. Invoke the scheduler a second time before the
/// interval has passed since the commit of the first round, with the store
/// untouched in between. If every record that would be due at the second
/// invocation had its hash committed by the first round, the second round
/// selects nothing and hands no broadcast to the network.
pub proof fn law_idempotent_quiescence(
    store: Seq<AuthoredOpView>,
    agent: Seq<u8>,
    now: u64,
    commit_time: u64,
    later: u64,
    later_commit_time: u64,
    config: PublishConfig,
    outcomes: Seq<Result<(), BroadcastFailure>>,
)
    requires
        later - commit_time < config.min_publish_interval,
        forall|i: int|
            0 <= i < store.len() && is_due(#[trigger] store[i], agent, later, config) ==> round(
                store,
                agent,
                now,
                commit_time,
                config,
                outcomes,
            ).committed.contains(store[i].hash),
    ensures
        ops_to_publish(
            round(store, agent, now, commit_time, config, outcomes).store,
            agent,
            later,
            config,
        ).len() == 0,
        round(
            round(store, agent, now, commit_time, config, outcomes).store,
            agent,
            later,
            later_commit_time,
            config,
            Seq::empty(),
        ).requests.len() == 0,
{
    let committed = round(store, agent, now, commit_time, config, outcomes).committed;
    let after = store_after_commit(store, committed, commit_time);
    let pred = due_at(agent, later, config);
    assert forall|e: AuthoredOpView| after.contains(e) implies !pred(e) by {
        let i = choose|i: int| 0 <= i < after.len() && after[i] == e;
        if committed.contains(store[i].hash) {
            law_acknowledged_rest(store, committed, commit_time, agent, later, config, i);
        } else {
            assert(after[i] == store[i]);
        }
    }
    after.lemma_all_neg_filter_empty(pred);
    let again = ops_to_publish(after, agent, later, config);
    assert(again.len() == 0);
    assert(distinct_bases(again) =~= Seq::<Seq<u8>>::empty());
}

/// The same in terms of what happened. If the network took every broadcast
/// of the first round, and no record that the first round passed over comes
/// due by the mere passing of time, then a second round within the interval
/// selects nothing and hands no broadcast to the network.
pub proof fn law_quiescence_after_full_success(
    store: Seq<AuthoredOpView>,
    agent: Seq<u8>,
    now: u64,
    commit_time: u64,
    later: u64,
    later_commit_time: u64,
    config: PublishConfig,
    outcomes: Seq<Result<(), BroadcastFailure>>,
)
    requires
        outcomes.len() == group_by_basis(ops_to_publish(store, agent, now, config)).len(),
        forall|g: int| 0 <= g < outcomes.len() ==> (#[trigger] outcomes[g]) is Ok,
        later - commit_time < config.min_publish_interval,
        forall|i: int|
            0 <= i < store.len() && !is_due(#[trigger] store[i], agent, now, config) ==> !is_due(
                store[i],
                agent,
                later,
                config,
            ),
    ensures
        ops_to_publish(
            round(store, agent, now, commit_time, config, outcomes).store,
            agent,
            later,
            config,
        ).len() == 0,
        round(
            round(store, agent, now, commit_time, config, outcomes).store,
            agent,
            later,
            later_commit_time,
            config,
            Seq::empty(),
        ).requests.len() == 0,
{
    let selected = ops_to_publish(store, agent, now, config);
    let groups = group_by_basis(selected);
    lemma_distinct_bases(selected);
    assert forall|i: int|
        0 <= i < store.len() && is_due(#[trigger] store[i], agent, later, config) implies round(
        store,
        agent,
        now,
        commit_time,
        config,
        outcomes,
    ).committed.contains(store[i].hash) by {
        lemma_due_is_selected(store, agent, now, config, i);
        let k = choose|k: int|
            0 <= k < selected.len() && #[trigger] selected[k] == published_form(store[i]);
        assert(selected[k].basis == store[i].basis);
        assert(distinct_bases(selected).contains(store[i].basis));
        let g = choose|g: int|
            0 <= g < distinct_bases(selected).len() && distinct_bases(selected)[g]
                == store[i].basis;
        assert(groups[g].basis == store[i].basis);
        lemma_group_holds_hash(store, agent, now, config, i, g);
        assert(outcomes[g] is Ok);
        lemma_acknowledged(groups, outcomes, store[i].hash);
    }
    law_idempotent_quiescence(
        store,
        agent,
        now,
        commit_time,
        later,
        later_commit_time,
        config,
        outcomes,
    );
}

/// Backlog drives the cadence. When the commit reports that operations still
/// need publishing, the loop is told to resume; when it reports none, to
/// pause. Either way the round ends with the signal it had reached.
pub proof fn law_backlog_drives_cadence(complete: WorkComplete, still_needing_publish: usize)
    ensures
        step(
            PublishStateView::Committing { complete },
            PublishEventView::Committed { still_needing_publish },
        ) == (
            PublishStateView::Finished,
            PublishActionView::Finish {
                command: if still_needing_publish > 0 {
                    LoopCommand::Resume
                } else {
                    LoopCommand::Pause
                },
                complete,
            },
        ),
{
}

/// The same of a whole round: the loop is resumed exactly if, after the
/// commit, the store still holds operations of the agent that need
/// publishing.
pub proof fn law_round_resumes_on_backlog(
    store: Seq<AuthoredOpView>,
    agent: Seq<u8>,
    now: u64,
    commit_time: u64,
    config: PublishConfig,
    outcomes: Seq<Result<(), BroadcastFailure>>,
)
    ensures
        round(store, agent, now, commit_time, config, outcomes).command == LoopCommand::Resume
            <==> backlog_len(
            round(store, agent, now, commit_time, config, outcomes).store,
            agent,
            config,
        ) > 0,
        round(store, agent, now, commit_time, config, outcomes).command == LoopCommand::Pause
            <==> backlog_len(
            round(store, agent, now, commit_time, config, outcomes).store,
            agent,
            config,
        ) == 0,
{
}

} // verus!
