//! The selector: which authored operations are due for publishing now.
//!
//! The store is read as a list of records. Selecting changes nothing.

use vstd::prelude::*;
use crate::bytes::{bytes_eq, lemma_views_push, lemma_views_take, views};
use crate::redaction::{is_withheld, published_form, redact, withheld};
use crate::types::{
    AuthoredOp, AuthoredOpView, PublishConfig, PublishItem, PublishItemView, ValidationStatus,
};

verus! {

/// Whether enough time has passed since the last successful broadcast.
/// An operation that was never published is always due.
pub open spec fn interval_elapsed(last_publish_time: Option<u64>, now: u64, interval: u64) -> bool {
    match last_publish_time {
        None => true,
        Some(t) => now - t >= interval,
    }
}

/// The conditions on a record that make it a candidate for publishing now:
/// it is the agent's own, it is valid, it is short of receipts, and it was
/// not published within the interval.
pub open spec fn meets_publish_conditions(
    r: AuthoredOpView,
    agent: Seq<u8>,
    now: u64,
    config: PublishConfig,
) -> bool {
    &&& r.author == agent
    &&& r.validity_status == ValidationStatus::Valid
    &&& r.receipt_count < config.redundancy_factor
    &&& interval_elapsed(r.last_publish_time, now, config.min_publish_interval)
}

/// Whether a record is published now: it is a candidate and privacy does
/// not keep it back.
pub open spec fn is_due(r: AuthoredOpView, agent: Seq<u8>, now: u64, config: PublishConfig) -> bool {
    meets_publish_conditions(r, agent, now, config) && !withheld(r)
}

/// Whether a record will have to be published now or later: as
/// [`is_due`], but whatever the time of its last broadcast. The interval only
/// delays an operation; receipts, validity and privacy decide whether it is
/// ever sent again.
pub open spec fn still_needs_publish(r: AuthoredOpView, agent: Seq<u8>, config: PublishConfig) -> bool {
    &&& r.author == agent
    &&& r.validity_status == ValidationStatus::Valid
    &&& r.receipt_count < config.redundancy_factor
    &&& !withheld(r)
}

/// [`is_due`] as a predicate on records.
pub open spec fn due_at(agent: Seq<u8>, now: u64, config: PublishConfig) -> spec_fn(
    AuthoredOpView,
) -> bool {
    |r: AuthoredOpView| is_due(r, agent, now, config)
}

/// [`still_needs_publish`] as a predicate on records.
pub open spec fn backlog_of(agent: Seq<u8>, config: PublishConfig) -> spec_fn(AuthoredOpView) -> bool {
    |r: AuthoredOpView| still_needs_publish(r, agent, config)
}

/// The operations to publish now: the records that are due, in the order of
/// the store, each in its published form.
pub open spec fn ops_to_publish(
    store: Seq<AuthoredOpView>,
    agent: Seq<u8>,
    now: u64,
    config: PublishConfig,
) -> Seq<PublishItemView> {
    store.filter(due_at(agent, now, config)).map_values(|r: AuthoredOpView| published_form(r))
}

/// The number of records that still need publishing, now or later.
pub open spec fn backlog_len(store: Seq<AuthoredOpView>, agent: Seq<u8>, config: PublishConfig) -> nat {
    store.filter(backlog_of(agent, config)).len()
}

/// Filtering a sequence that grew by one element.
pub proof fn lemma_filter_push<A>(s: Seq<A>, pred: spec_fn(A) -> bool, x: A)
    ensures
        s.push(x).filter(pred) == if pred(x) {
            s.filter(pred).push(x)
        } else {
            s.filter(pred)
        },
{
    reveal(Seq::filter);
    assert(s.push(x).drop_last() =~= s);
}

/// The selection from a store that grew by one record.
pub proof fn lemma_ops_to_publish_push(
    store: Seq<AuthoredOpView>,
    r: AuthoredOpView,
    agent: Seq<u8>,
    now: u64,
    config: PublishConfig,
)
    ensures
        ops_to_publish(store.push(r), agent, now, config) == if is_due(r, agent, now, config) {
            ops_to_publish(store, agent, now, config).push(published_form(r))
        } else {
            ops_to_publish(store, agent, now, config)
        },
{
    let pred = due_at(agent, now, config);
    lemma_filter_push(store, pred, r);
    if is_due(r, agent, now, config) {
        assert(ops_to_publish(store.push(r), agent, now, config) =~= ops_to_publish(
            store,
            agent,
            now,
            config,
        ).push(published_form(r)));
    }
}

/// Whether the interval has passed since the last successful broadcast.
pub fn has_interval_elapsed(last_publish_time: Option<u64>, now: u64, interval: u64) -> (elapsed:
    bool)
    ensures
        elapsed == interval_elapsed(last_publish_time, now, interval),
{
    match last_publish_time {
        None => true,
        Some(t) => now >= t && now - t >= interval,
    }
}

/// Whether a record will have to be published now or later.
pub fn needs_publish(record: &AuthoredOp, agent: &Vec<u8>, config: &PublishConfig) -> (needed: bool)
    ensures
        needed == still_needs_publish(record@, agent@, *config),
{
    bytes_eq(&record.author, agent) && record.validity_status == ValidationStatus::Valid
        && record.receipt_count < config.redundancy_factor as u32 && !is_withheld(record)
}

/// Whether a record is published now.
pub fn should_publish(record: &AuthoredOp, agent: &Vec<u8>, now: u64, config: &PublishConfig) -> (due:
    bool)
    ensures
        due == is_due(record@, agent@, now, *config),
{
    needs_publish(record, agent, config) && has_interval_elapsed(
        record.last_publish_time,
        now,
        config.min_publish_interval,
    )
}

/// Selects the agent's operations that are due for publishing at `now`:
/// valid, short of receipts, not published within the interval and not kept
/// back by privacy. They come in the order of the store, each with its basis,
/// its hash and its published form.
pub fn get_ops_to_publish(
    agent: &Vec<u8>,
    store: &Vec<AuthoredOp>,
    now: u64,
    config: &PublishConfig,
) -> (items: Vec<PublishItem>)
    ensures
        views(items@) == ops_to_publish(views(store@), agent@, now, *config),
{
    let mut items: Vec<PublishItem> = Vec::new();
    let mut i: usize = 0;
    assert(views(store@).take(0) =~= Seq::<AuthoredOpView>::empty());
    assert(views(items@) =~= ops_to_publish(views(store@).take(0), agent@, now, *config));
    while i < store.len()
        invariant
            i <= store.len(),
            views(items@) == ops_to_publish(views(store@).take(i as int), agent@, now, *config),
        decreases store.len() - i,
    {
        proof {
            lemma_views_take(store@, i as int);
            lemma_ops_to_publish_push(
                views(store@).take(i as int),
                store@[i as int]@,
                agent@,
                now,
                *config,
            );
        }
        if should_publish(&store[i], agent, now, config) {
            let item = redact(&store[i]);
            proof {
                lemma_views_push(items@, item);
            }
            items.push(item);
        }
        i += 1;
    }
    assert(views(store@).take(store.len() as int) =~= views(store@));
    items
}

/// Counts the agent's operations that still need publishing, now or later.
/// The publish loop goes on while this is not zero.
pub fn num_still_needing_publish(store: &Vec<AuthoredOp>, agent: &Vec<u8>, config: &PublishConfig) -> (count:
    usize)
    ensures
        count == backlog_len(views(store@), agent@, *config),
{
    let mut count: usize = 0;
    let mut i: usize = 0;
    assert(views(store@).take(0) =~= Seq::<AuthoredOpView>::empty());
    while i < store.len()
        invariant
            i <= store.len(),
            count <= i,
            count == backlog_len(views(store@).take(i as int), agent@, *config),
        decreases store.len() - i,
    {
        proof {
            lemma_views_take(store@, i as int);
            lemma_filter_push(
                views(store@).take(i as int),
                backlog_of(agent@, *config),
                store@[i as int]@,
            );
        }
        if needs_publish(&store[i], agent, config) {
            count += 1;
        }
        i += 1;
    }
    assert(views(store@).take(store.len() as int) =~= views(store@));
    count
}

} // verus!
