//! Reclamation of the records of finished proposals.

use vstd::prelude::*;
use crate::contract::{contains_id, CallContext, MultisigContract, MultisigError};
use crate::ledger::{committed, committed_total, lemma_total_push, lemma_total_same};
use crate::storage::TransactionStorage;
use crate::types::{EventView, MultisigEvent, TransactionView};
use crate::validation::MAX_CLEANUP_BATCH;

verus! {

/// What a reclamation returns.
#[derive(Debug)]
pub struct CleanupOutcome {
    /// The number of records that were dropped.
    pub removed: u64,
    /// What the engine reports.
    pub events: Vec<MultisigEvent>,
}

/// The identifiers that have a pending record.
pub open spec fn is_pending_in(records: Map<u64, TransactionView>) -> spec_fn(u64) -> bool {
    |id: u64| records.contains_key(id) && records[id].is_pending()
}

/// The identifiers that have a record which is executed or cancelled.
pub open spec fn is_finished_in(records: Map<u64, TransactionView>) -> spec_fn(u64) -> bool {
    |id: u64| records.contains_key(id) && !records[id].is_pending()
}

/// How many positions a reclamation scans: up to the cutoff, the end of the
/// sequence and [`MAX_CLEANUP_BATCH`], whichever comes first.
pub open spec fn cleanup_window(before_index: u64, len: nat) -> int {
    let end = if before_index < len {
        before_index as int
    } else {
        len as int
    };
    if end < MAX_CLEANUP_BATCH {
        end
    } else {
        MAX_CLEANUP_BATCH as int
    }
}

/// The sequence that a reclamation leaves: of the first `w` identifiers
/// those with a pending record, then all that follow.
pub open spec fn cleanup_kept(order: Seq<u64>, records: Map<u64, TransactionView>, w: int) -> Seq<
    u64,
> {
    order.take(w).filter(is_pending_in(records)) + order.skip(w)
}

/// The identifiers whose records a reclamation drops: of the first `w`
/// those with a record that is executed or cancelled.
pub open spec fn cleanup_removed(
    order: Seq<u64>,
    records: Map<u64, TransactionView>,
    w: int,
) -> Seq<u64> {
    order.take(w).filter(is_finished_in(records))
}

/// What a filter keeps of a duplicate-free sequence: exactly the items that
/// meet the predicate, each once.
pub proof fn lemma_filter_members(s: Seq<u64>, p: spec_fn(u64) -> bool)
    requires
        s.no_duplicates(),
    ensures
        s.filter(p).no_duplicates(),
        forall|x: u64| #[trigger] s.filter(p).contains(x) <==> s.contains(x) && p(x),
    decreases s.len(),
{
    if s.len() == 0 {
        reveal(Seq::filter);
    } else {
        let front = s.drop_last();
        let last = s.last();
        lemma_filter_members(front, p);
        assert(s =~= front.push(last));
        front.lemma_filter_push(last, p);
        assert(!front.contains(last)) by {
            if front.contains(last) {
                let k = choose|k: int| 0 <= k < front.len() && front[k] == last;
                assert(s[k] == s[s.len() - 1]);
            }
        }
        let kept = front.filter(p);
        assert forall|x: u64| #[trigger] s.filter(p).contains(x) <==> s.contains(x) && p(x) by {
            if s.filter(p).contains(x) {
                let k = choose|k: int| 0 <= k < s.filter(p).len() && s.filter(p)[k] == x;
                if k < kept.len() {
                    assert(kept[k] == x);
                    assert(kept.contains(x));
                    let j = choose|j: int| 0 <= j < front.len() && front[j] == x;
                    assert(s[j] == x);
                } else {
                    assert(x == last);
                    assert(s[s.len() - 1] == x);
                }
            }
            if s.contains(x) && p(x) {
                let j = choose|j: int| 0 <= j < s.len() && s[j] == x;
                if j < front.len() {
                    assert(front[j] == x);
                    assert(kept.contains(x));
                    let k = choose|k: int| 0 <= k < kept.len() && kept[k] == x;
                    assert(s.filter(p)[k] == x);
                } else {
                    assert(s.filter(p)[kept.len() as int] == x);
                }
            }
        }
        if p(last) {
            assert forall|a: int, b: int|
                0 <= a < s.filter(p).len() && 0 <= b < s.filter(p).len() && a != b implies s.filter(
                p,
            )[a] != s.filter(p)[b] by {
                if a < kept.len() {
                    assert(kept.contains(kept[a]));
                }
                if b < kept.len() {
                    assert(kept.contains(kept[b]));
                }
            }
        }
    }
}

/// Leaving out identifiers that commit nothing leaves the total as it is.
pub proof fn lemma_total_filter(
    s: Seq<u64>,
    p: spec_fn(u64) -> bool,
    records: Map<u64, TransactionView>,
    in_flight: Set<u64>,
)
    requires
        forall|i: int| 0 <= i < s.len() && !p(#[trigger] s[i]) ==> committed(
            records,
            in_flight,
            s[i],
        ) == 0,
    ensures
        committed_total(s.filter(p), records, in_flight) == committed_total(
            s,
            records,
            in_flight,
        ),
    decreases s.len(),
{
    if s.len() == 0 {
        reveal(Seq::filter);
    } else {
        let front = s.drop_last();
        let last = s.last();
        assert forall|i: int| 0 <= i < front.len() && !p(#[trigger] front[i]) implies committed(
            records,
            in_flight,
            front[i],
        ) == 0 by {
            assert(front[i] == s[i]);
        }
        lemma_total_filter(front, p, records, in_flight);
        assert(s =~= front.push(last));
        front.lemma_filter_push(last, p);
        assert(last == s[s.len() - 1]);
        if p(last) {
            lemma_total_push(front.filter(p), records, in_flight, last);
        }
    }
}

/// The total of a sequence in two parts is the sum of the totals of the parts.
pub proof fn lemma_total_concat(
    a: Seq<u64>,
    b: Seq<u64>,
    records: Map<u64, TransactionView>,
    in_flight: Set<u64>,
)
    ensures
        committed_total(a + b, records, in_flight) == committed_total(a, records, in_flight)
            + committed_total(b, records, in_flight),
    decreases b.len(),
{
    if b.len() == 0 {
        assert(a + b =~= a);
    } else {
        lemma_total_concat(a, b.drop_last(), records, in_flight);
        assert((a + b).drop_last() =~= a + b.drop_last());
        assert((a + b).last() == b.last());
    }
}

/// How a reclamation divides the sequence: what it keeps has no duplicates,
/// every identifier is either kept or removed, only finished records are
/// removed, and what is kept commits as much as the whole sequence did
/// wherever the removed records commit nothing.
pub proof fn lemma_cleanup_split(order: Seq<u64>, records: Map<u64, TransactionView>, w: int)
    requires
        order.no_duplicates(),
        0 <= w <= order.len(),
        forall|i: int| 0 <= i < order.len() ==> records.contains_key(#[trigger] order[i]),
    ensures
        cleanup_kept(order, records, w).no_duplicates(),
        cleanup_kept(order, records, w).len() <= order.len(),
        forall|x: u64| #[trigger]
            cleanup_kept(order, records, w).contains(x) <==> order.contains(x) && !cleanup_removed(
                order,
                records,
                w,
            ).contains(x),
        forall|x: u64| #[trigger]
            cleanup_removed(order, records, w).contains(x) ==> order.contains(x)
                && records.contains_key(x) && !records[x].is_pending(),
        forall|x: u64|
            order.contains(x) && records[x].is_pending() ==> #[trigger] cleanup_kept(
                order,
                records,
                w,
            ).contains(x),
        forall|f: Set<u64>|
            (forall|x: u64| #[trigger]
                cleanup_removed(order, records, w).contains(x) ==> committed(records, f, x) == 0)
                ==> #[trigger] committed_total(cleanup_kept(order, records, w), records, f)
                == committed_total(order, records, f),
{
    let head = order.take(w);
    let tail = order.skip(w);
    let pending = is_pending_in(records);
    let finished = is_finished_in(records);
    let kept_head = head.filter(pending);
    let kept = cleanup_kept(order, records, w);
    let removed = cleanup_removed(order, records, w);
    assert(order =~= head + tail);
    assert(head.no_duplicates());
    assert(tail.no_duplicates()) by {
        assert forall|a: int, b: int|
            0 <= a < tail.len() && 0 <= b < tail.len() && a != b implies tail[a] != tail[b] by {
            assert(tail[a] == order[a + w]);
            assert(tail[b] == order[b + w]);
        }
    }
    lemma_filter_members(head, pending);
    lemma_filter_members(head, finished);
    head.lemma_filter_len(pending);
    assert forall|x: u64| head.contains(x) implies order.contains(x) && !tail.contains(x) by {
        let j = choose|j: int| 0 <= j < head.len() && head[j] == x;
        assert(order[j] == x);
        if tail.contains(x) {
            let k = choose|k: int| 0 <= k < tail.len() && tail[k] == x;
            assert(order[k + w] == x);
        }
    }
    assert forall|x: u64| tail.contains(x) implies order.contains(x) by {
        let k = choose|k: int| 0 <= k < tail.len() && tail[k] == x;
        assert(order[k + w] == x);
    }
    assert forall|x: u64| order.contains(x) implies head.contains(x) || tail.contains(x) by {
        let j = choose|j: int| 0 <= j < order.len() && order[j] == x;
        if j < w {
            assert(head[j] == x);
        } else {
            assert(tail[j - w] == x);
        }
    }
    assert forall|i: int, j: int|
        0 <= i < kept_head.len() && 0 <= j < tail.len() implies kept_head[i] != tail[j] by {
        assert(kept_head.contains(kept_head[i]));
        assert(tail.contains(tail[j]));
    }
    vstd::seq_lib::lemma_no_dup_in_concat(kept_head, tail);
    assert forall|x: u64| #[trigger] kept.contains(x) <==> kept_head.contains(x) || tail.contains(
        x,
    ) by {
        if kept.contains(x) {
            let k = choose|k: int| 0 <= k < kept.len() && kept[k] == x;
            if k < kept_head.len() {
                assert(kept_head[k] == x);
            } else {
                assert(tail[k - kept_head.len()] == x);
            }
        }
        if kept_head.contains(x) {
            let k = choose|k: int| 0 <= k < kept_head.len() && kept_head[k] == x;
            assert(kept[k] == x);
        }
        if tail.contains(x) {
            let k = choose|k: int| 0 <= k < tail.len() && tail[k] == x;
            assert(kept[k + kept_head.len()] == x);
        }
    }
    assert forall|x: u64| #[trigger] kept.contains(x) <==> order.contains(x) && !removed.contains(
        x,
    ) by {
        if order.contains(x) {
            let j = choose|j: int| 0 <= j < order.len() && order[j] == x;
            assert(records.contains_key(order[j]));
        }
    }
    assert forall|x: u64|
        order.contains(x) && records[x].is_pending() implies #[trigger] kept.contains(x) by {
        let j = choose|j: int| 0 <= j < order.len() && order[j] == x;
        assert(records.contains_key(order[j]));
    }
    assert forall|f: Set<u64>|
        (forall|x: u64| #[trigger] removed.contains(x) ==> committed(records, f, x) == 0)
        implies #[trigger] committed_total(kept, records, f) == committed_total(
        order,
        records,
        f,
    ) by {
        assert forall|i: int| 0 <= i < head.len() && !pending(#[trigger] head[i]) implies committed(
            records,
            f,
            head[i],
        ) == 0 by {
            assert(head.contains(head[i]));
            assert(order.contains(head[i]));
            let j = choose|j: int| 0 <= j < order.len() && order[j] == head[i];
            assert(records.contains_key(order[j]));
            assert(finished(head[i]));
            assert(removed.contains(head[i]));
        }
        lemma_total_filter(head, pending, records, f);
        lemma_total_concat(kept_head, tail, records, f);
        lemma_total_concat(head, tail, records, f);
    }
}

impl MultisigContract {
    /// The first reason for which a reclamation is refused, if it is.
    pub open spec fn cleanup_error(&self, ctx: &CallContext, before_index: u64) -> Option<
        MultisigError,
    > {
        if !self.has_owner(ctx.predecessor@) {
            Some(MultisigError::NotOwner)
        } else if before_index > u32::MAX {
            Some(MultisigError::IndexTooLarge)
        } else if self.pending_callbacks != 0 {
            Some(MultisigError::CallbacksPending)
        } else {
            None
        }
    }

    /// Drops the records of finished proposals among the first positions
    /// of the sequence, up to `before_index` and at most
    /// [`MAX_CLEANUP_BATCH`] of them, and numbers the positions anew.
    /// Pending records stay, and so does everything behind the scanned
    /// positions. Refused while an execution is in flight; a refused
    /// reclamation changes nothing.
    pub fn cleanup_old_transactions(&mut self, ctx: &CallContext, before_index: u64) -> (r: Result<
        CleanupOutcome,
        MultisigError,
    >)
        requires
            old(self).wf(),
        ensures
            match r {
                Err(e) => old(self).cleanup_error(ctx, before_index) == Some(e) && *final(self)
                    == *old(self),
                Ok(out) => {
                    let w = cleanup_window(before_index, old(self).storage.order().len());
                    let removed = cleanup_removed(
                        old(self).storage.order(),
                        old(self).records(),
                        w,
                    );
                    &&& old(self).cleanup_error(ctx, before_index) is None
                    &&& out.removed == removed.len()
                    &&& out.events.deep_view() == seq![
                        EventView::TransactionsCleanedUp {
                            count: out.removed,
                            from_index: 0,
                            to_index: w as u64,
                            cleaner: ctx.predecessor@,
                        },
                    ]
                    &&& final(self).storage.order() == cleanup_kept(
                        old(self).storage.order(),
                        old(self).records(),
                        w,
                    )
                    &&& final(self).records() == old(self).records().remove_keys(removed.to_set())
                    &&& forall|id: u64|
                        old(self).records().contains_key(id)
                            && old(self).records()[id].is_pending()
                            ==> #[trigger] final(self).records().contains_key(id)
                            && final(self).records()[id] == old(self).records()[id]
                    &&& final(self).next_tx_id == old(self).next_tx_id
                    &&& final(self).reserved_balance == old(self).reserved_balance
                    &&& final(self).pending_callbacks == old(self).pending_callbacks
                    &&& final(self).same_settings(old(self))
                },
            },
            final(self).wf(),
            forall|f: Set<u64>| #[trigger]
                old(self).reservation_holds(f) ==> final(self).reservation_holds(f),
    {
        let ghost pre = *self;
        let ghost order = pre.storage.order();
        let ghost records = pre.records();
        if !contains_id(&self.owners, &ctx.predecessor) {
            return Err(MultisigError::NotOwner);
        }
        if before_index > u32::MAX as u64 {
            return Err(MultisigError::IndexTooLarge);
        }
        if self.pending_callbacks != 0 {
            return Err(MultisigError::CallbacksPending);
        }
        let len = self.storage.tx_ids.len();
        let end: usize = if (before_index as usize) < len {
            before_index as usize
        } else {
            len
        };
        let window: usize = if end < MAX_CLEANUP_BATCH as usize {
            end
        } else {
            MAX_CLEANUP_BATCH as usize
        };
        let ghost w = window as int;
        assert(w == cleanup_window(before_index, order.len()));
        let ghost pending = is_pending_in(records);
        let ghost finished = is_finished_in(records);
        let mut kept: Vec<u64> = Vec::new();
        let mut removed: Vec<u64> = Vec::new();
        let mut count: u64 = 0;
        let mut i: usize = 0;
        proof {
            reveal(Seq::filter);
            assert(order.take(0).filter(pending) =~= Seq::<u64>::empty());
            assert(order.take(0).filter(finished) =~= Seq::<u64>::empty());
        }
        while i < window
            invariant
                i <= window <= len,
                window <= MAX_CLEANUP_BATCH,
                len == order.len(),
                *self == pre,
                order == self.storage.tx_ids@,
                records == self.records(),
                pending == is_pending_in(records),
                finished == is_finished_in(records),
                kept@ == order.take(i as int).filter(pending),
                removed@ == order.take(i as int).filter(finished),
                count == removed@.len(),
                count <= i,
            decreases window - i,
        {
            let id = self.storage.tx_ids[i];
            proof {
                assert(order.take(i + 1) =~= order.take(i as int).push(id));
                order.take(i as int).lemma_filter_push(id, pending);
                order.take(i as int).lemma_filter_push(id, finished);
            }
            match self.storage.get_transaction(id) {
                Some(tx) => {
                    if !tx.executed && !tx.cancelled {
                        kept.push(id);
                    } else {
                        removed.push(id);
                        count = count + 1;
                    }
                },
                None => {},
            }
            i += 1;
        }
        let ghost kept_head = kept@;
        while i < len
            invariant
                window <= i <= len,
                len == order.len(),
                *self == pre,
                order == self.storage.tx_ids@,
                kept@ == kept_head + order.subrange(window as int, i as int),
            decreases len - i,
        {
            let id = self.storage.tx_ids[i];
            proof {
                assert(order.subrange(window as int, i + 1) =~= order.subrange(
                    window as int,
                    i as int,
                ).push(id));
                assert(kept@.push(id) =~= kept_head + order.subrange(window as int, i + 1));
            }
            kept.push(id);
            i += 1;
        }
        proof {
            assert(order.subrange(window as int, len as int) =~= order.skip(w));
            assert(kept@ == cleanup_kept(order, records, w));
            assert(removed@ == cleanup_removed(order, records, w));
            assert forall|k: int| 0 <= k < order.len() implies records.contains_key(
                #[trigger] order[k],
            ) by {
                assert(order.to_set().contains(order[k]));
            }
            lemma_cleanup_split(order, records, w);
        }
        let ghost kept_ids = kept@;
        self.storage.rebuild_storage(kept);
        let mut j: usize = 0;
        while j < removed.len()
            invariant
                j <= removed.len(),
                self.storage.order() == kept_ids,
                self.storage.indexed(),
                self.records() == records.remove_keys(removed@.take(j as int).to_set()),
                self.state_version == pre.state_version,
                self.owners == pre.owners,
                self.num_confirmations == pre.num_confirmations,
                self.pending_callbacks == pre.pending_callbacks,
                self.callback_gas == pre.callback_gas,
                self.storage_deposit == pre.storage_deposit,
                self.next_tx_id == pre.next_tx_id,
                self.reserved_balance == pre.reserved_balance,
            decreases removed.len() - j,
        {
            let id = removed[j];
            proof {
                let before = removed@.take(j as int);
                let after = removed@.take(j + 1);
                assert(after =~= before.push(id));
                before.lemma_push_to_set_commute(id);
                assert(records.remove_keys(before.to_set()).remove(id) =~= records.remove_keys(
                    after.to_set(),
                ));
            }
            self.storage.remove_transaction(id);
            j += 1;
        }
        let mut events: Vec<MultisigEvent> = Vec::new();
        events.push(
            MultisigEvent::TransactionsCleanedUp {
                count,
                from_index: 0,
                to_index: window as u64,
                cleaner: ctx.predecessor.clone(),
            },
        );
        proof {
            assert(events.deep_view() =~= seq![
                EventView::TransactionsCleanedUp {
                    count,
                    from_index: 0,
                    to_index: w as u64,
                    cleaner: ctx.predecessor@,
                },
            ]);
            assert(removed@.take(removed@.len() as int) =~= removed@);
            let gone = removed@.to_set();
            assert(self.records().dom() =~= kept_ids.to_set()) by {
                assert forall|x: u64| self.records().dom().contains(x) <==> kept_ids.to_set().contains(
                    x,
                ) by {
                    if records.contains_key(x) {
                        assert(order.to_set().contains(x));
                    }
                    if kept_ids.contains(x) {
                        assert(order.to_set().contains(x));
                    }
                }
            }
            assert forall|f: Set<u64>| #[trigger] pre.reservation_holds(f) implies self.reservation_holds(
                f,
            ) by {
                assert(f.len() == 0);
                assert(f =~= Set::<u64>::empty());
                assert(committed_total(kept_ids, records, f) == committed_total(order, records, f));
                assert forall|k: int| 0 <= k < kept_ids.len() implies committed(
                    records,
                    f,
                    #[trigger] kept_ids[k],
                ) == committed(self.records(), f, kept_ids[k]) by {
                    assert(kept_ids.contains(kept_ids[k]));
                }
                lemma_total_same(kept_ids, records, f, self.records(), f);
            }
        }
        Ok(CleanupOutcome { removed: count, events })
    }
}

} // verus!
