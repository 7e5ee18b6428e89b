//! The transaction store: an ordered sequence of identifiers, the records by
//! identifier, and the position of each identifier in the sequence.

use std::collections::HashMap;
use vstd::prelude::*;
use crate::types::{Transaction, TransactionView};

verus! {

broadcast use vstd::std_specs::hash::group_hash_axioms;

/// The identifiers of `order` and their positions agree with `positions`.
pub open spec fn index_agrees(order: Seq<u64>, positions: Map<u64, u32>) -> bool {
    &&& order.len() <= u32::MAX
    &&& order.no_duplicates()
    &&& positions.dom() =~= order.to_set()
    &&& forall|i: int| 0 <= i < order.len() ==> (#[trigger] positions[order[i]]) == i
}

/// Where `id` stands last in `order`, for an `id` that stands in it.
pub open spec fn is_last_position(order: Seq<u64>, id: u64, p: int) -> bool {
    &&& 0 <= p < order.len()
    &&& order[p] == id
    &&& forall|j: int| p < j < order.len() ==> order[j] != id
}

/// The operations of a transaction store.
pub trait TransactionStorage: Sized {
    /// The identifiers, in the order in which they were first stored.
    spec fn order(&self) -> Seq<u64>;

    /// The stored records, by identifier.
    spec fn records(&self) -> Map<u64, TransactionView>;

    /// The recorded position of each identifier.
    spec fn positions(&self) -> Map<u64, u32>;

    /// The sequence and the position index agree.
    open spec fn indexed(&self) -> bool {
        index_agrees(self.order(), self.positions())
    }

    /// The three structures agree: every identifier of the sequence has a
    /// record and its position, and nothing else has one.
    open spec fn wf(&self) -> bool {
        &&& self.indexed()
        &&& self.records().dom() =~= self.order().to_set()
    }

    /// The record stored under `tx_id`, if there is one.
    fn get_transaction(&self, tx_id: u64) -> (r: Option<&Transaction>)
        ensures
            r is Some <==> self.records().contains_key(tx_id),
            r is Some ==> r.unwrap()@ == self.records()[tx_id],
    ;

    /// The record stored under `tx_id`, which must exist.
    fn get_transaction_or_panic(&self, tx_id: u64) -> (r: &Transaction)
        requires
            self.records().contains_key(tx_id),
        ensures
            r@ == self.records()[tx_id],
    ;

    /// The recorded position of `tx_id`, if it has one.
    fn get_transaction_index(&self, tx_id: u64) -> (r: Option<u32>)
        ensures
            r is Some <==> self.positions().contains_key(tx_id),
            r is Some ==> r.unwrap() == self.positions()[tx_id],
    ;

    /// Stores a record under its own identifier. A new identifier is appended
    /// to the sequence and gets the next position; a known one keeps its place.
    fn upsert_transaction(&mut self, tx: Transaction)
        requires
            old(self).indexed(),
            !old(self).positions().contains_key(tx.id) ==> old(self).order().len() < u32::MAX,
        ensures
            final(self).records() == old(self).records().insert(tx.id, tx@),
            old(self).positions().contains_key(tx.id) ==> final(self).order() == old(self).order()
                && final(self).positions() == old(self).positions(),
            !old(self).positions().contains_key(tx.id) ==> final(self).order() == old(
                self,
            ).order().push(tx.id) && final(self).positions() == old(self).positions().insert(
                tx.id,
                old(self).order().len() as u32,
            ),
            final(self).indexed(),
            old(self).wf() ==> final(self).wf(),
    ;

    /// Drops the record of `tx_id`. The sequence and the positions stay as
    /// they are: the caller rebuilds them.
    fn remove_transaction(&mut self, tx_id: u64)
        ensures
            final(self).records() == old(self).records().remove(tx_id),
            final(self).order() == old(self).order(),
            final(self).positions() == old(self).positions(),
    ;

    /// The number of identifiers in the sequence.
    fn transaction_count(&self) -> (r: u32)
        requires
            self.order().len() <= u32::MAX,
        ensures
            r == self.order().len(),
    ;

    /// Replaces the sequence by `tx_ids_to_keep` and numbers the positions
    /// anew. The records stay as they are.
    fn rebuild_storage(&mut self, tx_ids_to_keep: Vec<u64>)
        requires
            tx_ids_to_keep@.len() <= u32::MAX,
        ensures
            final(self).order() == tx_ids_to_keep@,
            final(self).records() == old(self).records(),
            final(self).positions().dom() =~= tx_ids_to_keep@.to_set(),
            forall|id: u64| #[trigger]
                final(self).positions().contains_key(id) ==> is_last_position(
                    tx_ids_to_keep@,
                    id,
                    final(self).positions()[id] as int,
                ),
            tx_ids_to_keep@.no_duplicates() ==> final(self).indexed(),
    ;
}

/// The store of the engine.
pub struct MultisigStorage {
    /// The identifiers, in order of first storage.
    pub tx_ids: Vec<u64>,
    /// Identifier to record.
    pub tx_by_id: HashMap<u64, Transaction>,
    /// Identifier to position in `tx_ids`.
    pub tx_index: HashMap<u64, u32>,
}

impl MultisigStorage {
    /// A store that holds nothing.
    pub fn new() -> (r: Self)
        ensures
            r.order() == Seq::<u64>::empty(),
            r.records() == Map::<u64, TransactionView>::empty(),
            r.positions() == Map::<u64, u32>::empty(),
            r.wf(),
    {
        let r = MultisigStorage {
            tx_ids: Vec::new(),
            tx_by_id: HashMap::new(),
            tx_index: HashMap::new(),
        };
        assert(r.records() =~= Map::<u64, TransactionView>::empty());
        assert(r.order().to_set() =~= Set::<u64>::empty());
        r
    }
}

impl TransactionStorage for MultisigStorage {
    open spec fn order(&self) -> Seq<u64> {
        self.tx_ids@
    }

    open spec fn records(&self) -> Map<u64, TransactionView> {
        self.tx_by_id@.map_values(|t: Transaction| t@)
    }

    open spec fn positions(&self) -> Map<u64, u32> {
        self.tx_index@
    }

    fn get_transaction(&self, tx_id: u64) -> (r: Option<&Transaction>) {
        self.tx_by_id.get(&tx_id)
    }

    fn get_transaction_or_panic(&self, tx_id: u64) -> (r: &Transaction) {
        match self.tx_by_id.get(&tx_id) {
            Some(tx) => tx,
            None => {
                proof {
                    assert(false);
                }
                vstd::pervasive::unreached()
            },
        }
    }

    fn get_transaction_index(&self, tx_id: u64) -> (r: Option<u32>) {
        match self.tx_index.get(&tx_id) {
            Some(p) => Some(*p),
            None => None,
        }
    }

    fn upsert_transaction(&mut self, tx: Transaction) {
        let tx_id = tx.id;
        let ghost before = *self;
        if !self.tx_index.contains_key(&tx_id) {
            let position = self.tx_ids.len() as u32;
            self.tx_ids.push(tx_id);
            self.tx_index.insert(tx_id, position);
            proof {
                lemma_index_push(before.order(), before.positions(), tx_id);
            }
        }
        self.tx_by_id.insert(tx_id, tx);
        proof {
            assert(self.records() =~= before.records().insert(tx_id, tx@));
            if before.wf() {
                assert(before.positions().contains_key(tx_id) ==> before.order().to_set().contains(
                    tx_id,
                ));
                assert(self.order().to_set() =~= before.order().to_set().insert(tx_id));
            }
        }
    }

    fn remove_transaction(&mut self, tx_id: u64) {
        let ghost before = *self;
        self.tx_by_id.remove(&tx_id);
        proof {
            assert(self.records() =~= before.records().remove(tx_id));
        }
    }

    fn transaction_count(&self) -> (r: u32) {
        self.tx_ids.len() as u32
    }

    fn rebuild_storage(&mut self, tx_ids_to_keep: Vec<u64>) {
        let mut index: HashMap<u64, u32> = HashMap::new();
        let mut i: usize = 0;
        while i < tx_ids_to_keep.len()
            invariant
                i <= tx_ids_to_keep.len() <= u32::MAX,
                index@.dom() =~= tx_ids_to_keep@.take(i as int).to_set(),
                forall|id: u64| #[trigger]
                    index@.contains_key(id) ==> is_last_position(
                        tx_ids_to_keep@.take(i as int),
                        id,
                        index@[id] as int,
                    ),
            decreases tx_ids_to_keep.len() - i,
        {
            let ghost front = tx_ids_to_keep@.take(i as int);
            let ghost next = tx_ids_to_keep@.take(i + 1);
            let ghost earlier = index@;
            let id = tx_ids_to_keep[i];
            index.insert(id, i as u32);
            proof {
                assert(next =~= front.push(id));
                front.lemma_push_to_set_commute(id);
                assert forall|x: u64| #[trigger] index@.contains_key(x) implies is_last_position(
                    next,
                    x,
                    index@[x] as int,
                ) by {
                    if x != id {
                        assert(earlier.contains_key(x));
                        assert(is_last_position(front, x, earlier[x] as int));
                    }
                }
            }
            i += 1;
        }
        proof {
            assert(tx_ids_to_keep@.take(tx_ids_to_keep@.len() as int) =~= tx_ids_to_keep@);
        }
        self.tx_ids = tx_ids_to_keep;
        self.tx_index = index;
        proof {
            if self.tx_ids@.no_duplicates() {
                assert forall|k: int| 0 <= k < self.order().len() implies (
                #[trigger] self.positions()[self.order()[k]]) == k by {
                    let id = self.order()[k];
                    assert(self.order().to_set().contains(id));
                    assert(is_last_position(self.order(), id, self.positions()[id] as int));
                }
            }
        }
    }
}

/// Appending an identifier that has no position keeps sequence and index in
/// agreement.
pub proof fn lemma_index_push(order: Seq<u64>, positions: Map<u64, u32>, id: u64)
    requires
        index_agrees(order, positions),
        !positions.contains_key(id),
        order.len() < u32::MAX,
    ensures
        index_agrees(order.push(id), positions.insert(id, order.len() as u32)),
{
    let next = order.push(id);
    assert(!order.contains(id)) by {
        if order.contains(id) {
            assert(order.to_set().contains(id));
        }
    }
    order.lemma_push_to_set_commute(id);
    assert forall|i: int, j: int| 0 <= i < next.len() && 0 <= j < next.len() && i != j implies next[i]
        != next[j] by {
        if i < order.len() {
            assert(order.contains(next[i]));
        }
        if j < order.len() {
            assert(order.contains(next[j]));
        }
    }
}

impl MultisigStorage {
    /// Whether the three structures agree.
    pub fn is_consistent(&self) -> (r: bool)
        ensures
            r == self.wf(),
    {
        let n = self.tx_ids.len();
        let ghost order = self.order();
        let ghost positions = self.positions();
        let ghost stored = self.tx_by_id@.dom();
        if n > u32::MAX as usize {
            return false;
        }
        proof {
            vstd::seq_lib::seq_to_set_is_finite(order);
            if order.no_duplicates() {
                order.unique_seq_to_set();
            }
            assert(self.records().dom() =~= stored);
        }
        if self.tx_index.len() != n || self.tx_by_id.len() != n {
            return false;
        }
        let mut i: usize = 0;
        while i < n
            invariant
                i <= n <= u32::MAX,
                n == self.tx_ids.len(),
                order == self.order(),
                positions == self.positions(),
                stored == self.tx_by_id@.dom(),
                forall|k: int|
                    0 <= k < i ==> positions.contains_key(#[trigger] order[k]) && positions[order[k]]
                        == k && stored.contains(order[k]),
            decreases n - i,
        {
            let id = self.tx_ids[i];
            match self.tx_index.get(&id) {
                Some(p) => {
                    if *p != i as u32 {
                        assert(positions[order[i as int]] != i);
                        return false;
                    }
                },
                None => {
                    assert(order.to_set().contains(order[i as int]));
                    return false;
                },
            }
            if !self.tx_by_id.contains_key(&id) {
                assert(order.to_set().contains(order[i as int]));
                assert(!self.records().dom().contains(id));
                return false;
            }
            i += 1;
        }
        proof {
            assert forall|a: int, b: int|
                0 <= a < order.len() && 0 <= b < order.len() && a != b implies order[a]
                != order[b] by {
                assert(positions[order[a]] == a);
                assert(positions[order[b]] == b);
            }
            order.unique_seq_to_set();
            assert(order.to_set().subset_of(positions.dom())) by {
                assert forall|x: u64| order.to_set().contains(x) implies positions.dom().contains(
                    x,
                ) by {
                    let k = choose|k: int| 0 <= k < order.len() && order[k] == x;
                    assert(positions.contains_key(order[k]));
                }
            }
            assert(order.to_set().subset_of(stored)) by {
                assert forall|x: u64| order.to_set().contains(x) implies stored.contains(x) by {
                    let k = choose|k: int| 0 <= k < order.len() && order[k] == x;
                    assert(stored.contains(order[k]));
                }
            }
            vstd::set_lib::lemma_subset_equality(order.to_set(), positions.dom());
            vstd::set_lib::lemma_subset_equality(order.to_set(), stored);
        }
        true
    }
}

} // verus!
