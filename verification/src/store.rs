//! The store's side of a commit, on a list of records.
//!
//! A commit sets the time of last publishing of the operations that were
//! acknowledged, all at one instant, and then counts what still needs
//! publishing. Nothing else in a record ever changes here, and no record is
//! added or removed.

use vstd::prelude::*;
use crate::bytes::{bytes_eq, lemma_views_take, views};
use crate::publish_query::{backlog_len, num_still_needing_publish};
use crate::types::{AuthoredOp, AuthoredOpView, PublishConfig};

verus! {

/// A record after a commit of the given hashes at `now`: if its hash is
/// among them, its time of last publishing is `now`; if not, it is as it was.
pub open spec fn stamped(r: AuthoredOpView, op_hashes: Seq<Seq<u8>>, now: u64) -> AuthoredOpView {
    if op_hashes.contains(r.hash) {
        AuthoredOpView { last_publish_time: Some(now), ..r }
    } else {
        r
    }
}

/// The store after a commit of the given hashes at `now`.
pub open spec fn store_after_commit(
    store: Seq<AuthoredOpView>,
    op_hashes: Seq<Seq<u8>>,
    now: u64,
) -> Seq<AuthoredOpView> {
    store.map_values(|r: AuthoredOpView| stamped(r, op_hashes, now))
}

/// A hash is a content address: no two records of a store share one.
pub open spec fn hashes_are_unique(store: Seq<AuthoredOpView>) -> bool {
    forall|i: int, j: int|
        0 <= i < j < store.len() ==> (#[trigger] store[i]).hash != (#[trigger] store[j]).hash
}

/// Committing hash after hash at one instant is committing them all.
pub proof fn lemma_commit_one_more(
    store: Seq<AuthoredOpView>,
    op_hashes: Seq<Seq<u8>>,
    op_hash: Seq<u8>,
    now: u64,
)
    ensures
        store_after_commit(store_after_commit(store, op_hashes, now), seq![op_hash], now)
            == store_after_commit(store, op_hashes.push(op_hash), now),
{
    let step_by_step = store_after_commit(
        store_after_commit(store, op_hashes, now),
        seq![op_hash],
        now,
    );
    let at_once = store_after_commit(store, op_hashes.push(op_hash), now);
    assert forall|i: int| 0 <= i < store.len() implies step_by_step[i] == at_once[i] by {
        let r = store[i];
        let grown = op_hashes.push(op_hash);
        assert(seq![op_hash].contains(r.hash) <==> r.hash == op_hash) by {
            if r.hash == op_hash {
                assert(seq![op_hash][0] == r.hash);
            }
        }
        assert(grown.contains(r.hash) <==> op_hashes.contains(r.hash) || r.hash == op_hash) by {
            if op_hashes.contains(r.hash) {
                let k = choose|k: int| 0 <= k < op_hashes.len() && op_hashes[k] == r.hash;
                assert(grown[k] == r.hash);
            }
            if r.hash == op_hash {
                assert(grown[grown.len() - 1] == r.hash);
            }
        }
    }
    assert(step_by_step =~= at_once);
}

/// Sets the time of last publishing of the operation with the given hash to
/// `now`. Every other record stays as it is.
pub fn set_last_publish_time(store: &mut Vec<AuthoredOp>, op_hash: &Vec<u8>, now: u64)
    ensures
        views(final(store)@) == store_after_commit(views(old(store)@), seq![op_hash@], now),
{
    let ghost before = views(store@);
    let ghost only = seq![op_hash@];
    let mut i: usize = 0;
    while i < store.len()
        invariant
            i <= store.len(),
            store.len() == before.len(),
            only == seq![op_hash@],
            forall|j: int| 0 <= j < i ==> views(store@)[j] == stamped(before[j], only, now),
            forall|j: int| i <= j < store.len() ==> views(store@)[j] == before[j],
        decreases store.len() - i,
    {
        let ghost at_i = views(store@);
        let ghost old_records = store@;
        assert(only.contains(before[i as int].hash) <==> before[i as int].hash == op_hash@) by {
            if before[i as int].hash == op_hash@ {
                assert(only[0] == op_hash@);
            }
        }
        if bytes_eq(&store[i].hash, op_hash) {
            let record = &mut store[i];
            record.last_publish_time = Some(now);
        }
        assert forall|j: int| 0 <= j < i + 1 implies views(store@)[j] == stamped(
            before[j],
            only,
            now,
        ) by {
            if j < i {
                assert(store@[j] == old_records[j]);
                assert(at_i[j] == stamped(before[j], only, now));
            }
        }
        assert forall|j: int| i < j < store.len() implies views(store@)[j] == before[j] by {
            assert(store@[j] == old_records[j]);
            assert(at_i[j] == before[j]);
        }
        i += 1;
    }
    assert(views(store@) =~= store_after_commit(before, only, now));
}

/// Commits a round on the store: sets the time of last publishing of every
/// operation in `op_hashes` to `now`, then counts the agent's operations that
/// still need publishing in the store as it then is.
pub fn commit_publish_times(
    store: &mut Vec<AuthoredOp>,
    op_hashes: &Vec<Vec<u8>>,
    agent: &Vec<u8>,
    now: u64,
    config: &PublishConfig,
) -> (still_needing_publish: usize)
    ensures
        views(final(store)@) == store_after_commit(views(old(store)@), views(op_hashes@), now),
        still_needing_publish == backlog_len(views(final(store)@), agent@, *config),
{
    let ghost before = views(store@);
    let mut i: usize = 0;
    assert(views(store@) =~= store_after_commit(before, views(op_hashes@).take(0), now)) by {
        assert forall|j: int| 0 <= j < before.len() implies !views(op_hashes@).take(0).contains(
            (#[trigger] before[j]).hash,
        ) by {}
    }
    while i < op_hashes.len()
        invariant
            i <= op_hashes.len(),
            views(store@) == store_after_commit(before, views(op_hashes@).take(i as int), now),
        decreases op_hashes.len() - i,
    {
        proof {
            lemma_commit_one_more(before, views(op_hashes@).take(i as int), op_hashes@[i as int]@, now);
            lemma_views_take(op_hashes@, i as int);
        }
        set_last_publish_time(store, &op_hashes[i], now);
        i += 1;
    }
    assert(views(op_hashes@).take(op_hashes.len() as int) =~= views(op_hashes@));
    num_still_needing_publish(store, agent, config)
}

} // verus!
