//! The reservation ledger as a sum over the store, and how the sum moves
//! when the store changes.

use vstd::prelude::*;
use crate::types::TransactionView;
use crate::validation::capped_value;

verus! {

/// Where a proposal stands in its life.
pub ghost enum Status {
    /// Submitted, and no execution was ever started: it can be confirmed,
    /// executed or cancelled.
    Pending,
    /// Its execution was started and the outcome is not yet reconciled.
    Executing,
    /// Its execution succeeded.
    Executed,
    /// Its execution failed: it can be executed again, and confirmed, but
    /// no longer cancelled.
    FailedRetryable,
    /// It was cancelled.
    Cancelled,
}

/// Where a record stands, given whether its execution is in flight.
pub open spec fn status_of(record: TransactionView, in_flight: bool) -> Status {
    if record.cancelled {
        Status::Cancelled
    } else if record.executed {
        if in_flight {
            Status::Executing
        } else {
            Status::Executed
        }
    } else if record.execution_attempted {
        Status::FailedRetryable
    } else {
        Status::Pending
    }
}

/// The value that the record of `id` holds in the ledger.
///
/// A record commits its value while it is pending, while its execution is
/// in flight, and while it waits for another execution after a failed one:
/// `in_flight` names the executions that were started and whose outcome has
/// not been reconciled.
pub open spec fn committed(records: Map<u64, TransactionView>, in_flight: Set<u64>, id: u64) -> nat {
    if !records.contains_key(id) {
        0
    } else {
        match status_of(records[id], in_flight.contains(id)) {
            Status::Pending | Status::Executing | Status::FailedRetryable => capped_value(
                records[id].actions,
            ) as nat,
            Status::Executed | Status::Cancelled => 0,
        }
    }
}

/// The value that all records of `order` hold in the ledger.
pub open spec fn committed_total(
    order: Seq<u64>,
    records: Map<u64, TransactionView>,
    in_flight: Set<u64>,
) -> nat
    decreases order.len(),
{
    if order.len() == 0 {
        0
    } else {
        committed_total(order.drop_last(), records, in_flight) + committed(
            records,
            in_flight,
            order.last(),
        )
    }
}

/// The total depends only on what each identifier of the sequence commits.
pub proof fn lemma_total_same(
    order: Seq<u64>,
    r1: Map<u64, TransactionView>,
    f1: Set<u64>,
    r2: Map<u64, TransactionView>,
    f2: Set<u64>,
)
    requires
        forall|i: int|
            0 <= i < order.len() ==> committed(r1, f1, #[trigger] order[i]) == committed(
                r2,
                f2,
                order[i],
            ),
    ensures
        committed_total(order, r1, f1) == committed_total(order, r2, f2),
    decreases order.len(),
{
    if order.len() > 0 {
        let front = order.drop_last();
        assert forall|i: int| 0 <= i < front.len() implies committed(r1, f1, #[trigger] front[i])
            == committed(r2, f2, front[i]) by {
            assert(front[i] == order[i]);
        }
        lemma_total_same(front, r1, f1, r2, f2);
        assert(order.last() == order[order.len() - 1]);
    }
}

/// Appending an identifier adds what it commits.
pub proof fn lemma_total_push(
    order: Seq<u64>,
    records: Map<u64, TransactionView>,
    in_flight: Set<u64>,
    id: u64,
)
    ensures
        committed_total(order.push(id), records, in_flight) == committed_total(
            order,
            records,
            in_flight,
        ) + committed(records, in_flight, id),
{
    assert(order.push(id).drop_last() =~= order);
}

/// Where one identifier of a duplicate-free sequence commits another value
/// and the others commit what they did, the total moves by the difference.
pub proof fn lemma_total_change(
    order: Seq<u64>,
    r1: Map<u64, TransactionView>,
    f1: Set<u64>,
    r2: Map<u64, TransactionView>,
    f2: Set<u64>,
    id: u64,
)
    requires
        order.no_duplicates(),
        order.contains(id),
        forall|i: int|
            0 <= i < order.len() && order[i] != id ==> committed(r1, f1, #[trigger] order[i])
                == committed(r2, f2, order[i]),
    ensures
        committed_total(order, r2, f2) + committed(r1, f1, id) == committed_total(order, r1, f1)
            + committed(r2, f2, id),
    decreases order.len(),
{
    let front = order.drop_last();
    let last = order.last();
    assert(order.len() > 0);
    assert(last == order[order.len() - 1]);
    assert forall|i: int| 0 <= i < front.len() implies front[i] == order[i] by {}
    if last == id {
        assert forall|i: int| 0 <= i < front.len() implies committed(r1, f1, #[trigger] front[i])
            == committed(r2, f2, front[i]) by {
            assert(front[i] == order[i]);
            assert(order[i] != order[order.len() - 1]);
        }
        lemma_total_same(front, r1, f1, r2, f2);
    } else {
        let k = choose|k: int| 0 <= k < order.len() && order[k] == id;
        assert(front[k] == id);
        assert(front.no_duplicates());
        assert forall|i: int| 0 <= i < front.len() && front[i] != id implies committed(
            r1,
            f1,
            #[trigger] front[i],
        ) == committed(r2, f2, front[i]) by {
            assert(front[i] == order[i]);
        }
        lemma_total_change(front, r1, f1, r2, f2, id);
    }
}

/// The total is at least what any one identifier of the sequence commits.
pub proof fn lemma_total_covers(
    order: Seq<u64>,
    records: Map<u64, TransactionView>,
    in_flight: Set<u64>,
    id: u64,
)
    requires
        order.contains(id),
    ensures
        committed_total(order, records, in_flight) >= committed(records, in_flight, id),
    decreases order.len(),
{
    let front = order.drop_last();
    assert(order.len() > 0);
    if order.last() != id {
        let k = choose|k: int| 0 <= k < order.len() && order[k] == id;
        assert(order.last() == order[order.len() - 1]);
        assert(front[k] == id);
        lemma_total_covers(front, records, in_flight, id);
    }
}

} // verus!
