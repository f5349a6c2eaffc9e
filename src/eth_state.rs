use std::collections::HashMap;
use vstd::prelude::*;
use vstd::std_specs::iter::IteratorSpec;

use crate::params::PRIORITY_EXPIRATION;
use crate::types::{PriorityOp, SerialId};

verus! {

broadcast use vstd::std_specs::hash::group_hash_axioms;

/// Whether `op` is too old to be executed once the chain head is at `head`:
/// its block is at most `head - PRIORITY_EXPIRATION`.
pub open spec fn is_expired(op: PriorityOp, head: u64) -> bool {
    op.eth_block + PRIORITY_EXPIRATION <= head
}

/// The entries of `queue` that are not expired at `head`.
pub open spec fn unexpired(queue: Map<SerialId, PriorityOp>, head: u64) -> Map<SerialId, PriorityOp> {
    Map::new(|k: SerialId| queue.contains_key(k) && !is_expired(queue[k], head), |k: SerialId| queue[k])
}

/// `queue` after inserting `ops` in order, each under its serial id; an
/// operation replaces any entry that has the same serial id.
pub open spec fn insert_ops(queue: Map<SerialId, PriorityOp>, ops: Seq<PriorityOp>) -> Map<SerialId, PriorityOp>
    decreases ops.len(),
{
    if ops.len() == 0 {
        queue
    } else {
        insert_ops(queue, ops.drop_last()).insert(ops.last().serial_id, ops.last())
    }
}

/// Whether some operation of `ops` carries serial id `id`.
pub open spec fn has_serial_id(ops: Seq<PriorityOp>, id: SerialId) -> bool {
    exists|i: int| 0 <= i < ops.len() && ops[i].serial_id == id
}

/// The longest run of operations of `queue` with consecutive serial ids
/// `id, id + 1, ...` whose total cost in chunks stays within `budget`. It ends
/// at the first missing id or at the first operation that would exceed the
/// budget.
pub open spec fn contiguous_run(queue: Map<SerialId, PriorityOp>, id: int, budget: int) -> Seq<PriorityOp>
    decreases u64::MAX + 1 - id,
{
    if id < 0 || id > u64::MAX || !queue.contains_key(id as u64) || queue[id as u64].chunks > budget {
        seq![]
    } else {
        seq![queue[id as u64]] + contiguous_run(queue, id + 1, budget - queue[id as u64].chunks)
    }
}

/// Whether `op` is expired at `head`.
pub fn op_is_expired(op: &PriorityOp, head: u64) -> (r: bool)
    ensures
        r == is_expired(*op, head),
{
    head >= PRIORITY_EXPIRATION && op.eth_block <= head - PRIORITY_EXPIRATION
}

/// Drops from `queue` every operation that is expired at the new head `head`.
pub fn sift_outdated_ops(queue: &HashMap<SerialId, PriorityOp>, head: u64) -> (r: HashMap<SerialId, PriorityOp>)
    ensures
        r@ == unexpired(queue@, head),
{
    let mut kept: HashMap<SerialId, PriorityOp> = HashMap::new();
    let ghost keys = queue.keys().remaining().unref();
    proof {
        assert(keys.to_set() == queue@.dom());
    }
    for id in it: queue.keys()
        invariant
            keys.to_set() == queue@.dom(),
            it.seq().unref() == keys,
            forall|k: SerialId| #[trigger]
                kept@.contains_key(k) ==> queue@.contains_key(k) && !is_expired(queue@[k], head)
                    && kept@[k] == queue@[k],
            forall|i: int|
                0 <= i < it.index() && !is_expired(queue@[keys[i]], head) ==> #[trigger] kept@.contains_key(keys[i]),
    {
        assert(keys.contains(*id));
        let op = *queue.get(id).unwrap();
        if !op_is_expired(&op, head) {
            kept.insert(*id, op);
        }
    }
    proof {
        assert forall|k: SerialId| #[trigger] unexpired(queue@, head).contains_key(k) implies kept@.contains_key(k) by {
            assert(keys.to_set().contains(k));
            let i = keys.index_of(k);
            assert(keys[i] == k);
        }
        assert(kept@ =~= unexpired(queue@, head));
    }
    kept
}

/// Inserts `ops` into `queue` in order; an operation replaces the entry that
/// has the same serial id, so observing an operation again changes nothing.
pub fn merge_ops(queue: &mut HashMap<SerialId, PriorityOp>, ops: &Vec<PriorityOp>)
    ensures
        final(queue)@ == insert_ops(old(queue)@, ops@),
{
    let mut i: usize = 0;
    while i < ops.len()
        invariant
            i <= ops.len(),
            queue@ == insert_ops(old(queue)@, ops@.take(i as int)),
        decreases ops.len() - i,
    {
        let op = ops[i];
        queue.insert(op.serial_id, op);
        proof {
            assert(ops@.take(i + 1).drop_last() =~= ops@.take(i as int));
        }
        i = i + 1;
    }
    proof {
        assert(ops@.take(ops.len() as int) =~= ops@);
    }
}

/// The operations of `queue` with consecutive serial ids from `op_start_id`
/// on, as many as fit in `max_chunks` chunks.
pub fn priority_ops_from(queue: &HashMap<SerialId, PriorityOp>, op_start_id: SerialId, max_chunks: usize) -> (r: Vec<PriorityOp>)
    ensures
        r@ == contiguous_run(queue@, op_start_id as int, max_chunks as int),
{
    let mut result: Vec<PriorityOp> = Vec::new();
    let mut id: u64 = op_start_id;
    let mut budget: usize = max_chunks;
    loop
        invariant
            result@ + contiguous_run(queue@, id as int, budget as int)
                == contiguous_run(queue@, op_start_id as int, max_chunks as int),
        decreases u64::MAX - id,
    {
        match queue.get(&id) {
            None => {
                assert(result@ + seq![] =~= result@);
                return result;
            },
            Some(op) => {
                if op.chunks > budget {
                    assert(result@ + seq![] =~= result@);
                    return result;
                }
                let op = *op;
                let ghost prev = result@;
                result.push(op);
                budget = budget - op.chunks;
                assert(prev + contiguous_run(queue@, id as int, (budget + op.chunks) as int)
                    =~= result@ + contiguous_run(queue@, id + 1, budget as int));
                if id == u64::MAX {
                    assert(result@ + seq![] =~= result@);
                    return result;
                }
                id = id + 1;
            },
        }
    }
}

proof fn lemma_has_serial_id_drop_last(ops: Seq<PriorityOp>, id: SerialId)
    requires
        ops.len() > 0,
    ensures
        has_serial_id(ops, id) <==> has_serial_id(ops.drop_last(), id) || ops.last().serial_id == id,
{
    let rest = ops.drop_last();
    if has_serial_id(ops, id) && ops.last().serial_id != id {
        let i = choose|i: int| 0 <= i < ops.len() && ops[i].serial_id == id;
        assert(rest[i].serial_id == id);
    }
    if has_serial_id(rest, id) {
        let i = choose|i: int| 0 <= i < rest.len() && rest[i].serial_id == id;
        assert(ops[i].serial_id == id);
    }
    if ops.last().serial_id == id {
        assert(ops[ops.len() - 1].serial_id == id);
    }
}

/// The entries of `insert_ops(queue, ops)`: the ids of `queue` and of `ops`;
/// an id that `ops` carries maps to one of `ops`, any other keeps its entry.
pub proof fn lemma_insert_ops_entries(queue: Map<SerialId, PriorityOp>, ops: Seq<PriorityOp>)
    ensures
        forall|k: SerialId| #[trigger]
            insert_ops(queue, ops).contains_key(k) <==> queue.contains_key(k) || has_serial_id(ops, k),
        forall|k: SerialId|
            queue.contains_key(k) && !has_serial_id(ops, k) ==> #[trigger] insert_ops(queue, ops)[k] == queue[k],
        forall|k: SerialId|
            has_serial_id(ops, k) ==> ops.contains(#[trigger] insert_ops(queue, ops)[k]),
    decreases ops.len(),
{
    if ops.len() > 0 {
        let rest = ops.drop_last();
        lemma_insert_ops_entries(queue, rest);
        assert(insert_ops(queue, ops) == insert_ops(queue, rest).insert(ops.last().serial_id, ops.last()));
        assert forall|k: SerialId| #[trigger]
            insert_ops(queue, ops).contains_key(k) <==> queue.contains_key(k) || has_serial_id(ops, k) by {
            lemma_has_serial_id_drop_last(ops, k);
            assert(insert_ops(queue, rest).contains_key(k) <==> queue.contains_key(k) || has_serial_id(rest, k));
        }
        assert forall|k: SerialId|
            queue.contains_key(k) && !has_serial_id(ops, k) implies #[trigger] insert_ops(queue, ops)[k] == queue[k] by {
            lemma_has_serial_id_drop_last(ops, k);
            assert(insert_ops(queue, rest)[k] == queue[k]);
        }
        assert forall|k: SerialId| has_serial_id(ops, k) implies ops.contains(#[trigger] insert_ops(queue, ops)[k]) by {
            lemma_has_serial_id_drop_last(ops, k);
            if ops.last().serial_id == k {
                assert(ops[ops.len() - 1] == insert_ops(queue, ops)[k]);
            } else {
                let op = insert_ops(queue, ops)[k];
                assert(rest.contains(op));
                let i = choose|i: int| 0 <= i < rest.len() && rest[i] == op;
                assert(ops[i] == op);
            }
        }
    }
}

/// What `insert_ops(queue, ops)` holds under an id that `ops` carries does not
/// depend on `queue`.
pub proof fn lemma_insert_ops_overrides(a: Map<SerialId, PriorityOp>, b: Map<SerialId, PriorityOp>, ops: Seq<PriorityOp>)
    ensures
        forall|k: SerialId|
            has_serial_id(ops, k) ==> #[trigger] insert_ops(a, ops)[k] == insert_ops(b, ops)[k],
    decreases ops.len(),
{
    if ops.len() > 0 {
        let rest = ops.drop_last();
        lemma_insert_ops_overrides(a, b, rest);
        assert(insert_ops(a, ops) == insert_ops(a, rest).insert(ops.last().serial_id, ops.last()));
        assert(insert_ops(b, ops) == insert_ops(b, rest).insert(ops.last().serial_id, ops.last()));
        assert forall|k: SerialId| has_serial_id(ops, k) implies #[trigger] insert_ops(a, ops)[k] == insert_ops(b, ops)[k] by {
            lemma_has_serial_id_drop_last(ops, k);
            if ops.last().serial_id != k {
                assert(insert_ops(a, rest)[k] == insert_ops(b, rest)[k]);
            }
        }
    }
}

/// Merging the same accepted operations a second time, as overlapping windows
/// would, leaves the queue as merging them once did.
pub proof fn lemma_merge_idempotent(queue: Map<SerialId, PriorityOp>, ops: Seq<PriorityOp>)
    ensures
        insert_ops(insert_ops(queue, ops), ops) == insert_ops(queue, ops),
{
    let once = insert_ops(queue, ops);
    let twice = insert_ops(once, ops);
    lemma_insert_ops_entries(queue, ops);
    lemma_insert_ops_entries(once, ops);
    lemma_insert_ops_overrides(once, queue, ops);
    assert(twice =~= once);
}

/// After a poll that reached head `head`, when the newly accepted operations
/// are not expired at `head`, no operation left in the queue is expired.
pub proof fn lemma_no_expired_after_poll(queue: Map<SerialId, PriorityOp>, head: u64, ops: Seq<PriorityOp>)
    requires
        forall|i: int| 0 <= i < ops.len() ==> !is_expired(#[trigger] ops[i], head),
    ensures
        forall|k: SerialId| #[trigger]
            insert_ops(unexpired(queue, head), ops).contains_key(k)
                ==> !is_expired(insert_ops(unexpired(queue, head), ops)[k], head),
{
    lemma_insert_ops_entries(unexpired(queue, head), ops);
}

/// Gathered state of the Ethereum network: the last block known to the
/// watcher and the accepted priority operations that have not expired, keyed
/// by serial id.
///
/// The fields are private: the state stands for what the contract holds on
/// Ethereum, so it is never updated in part. A new state replaces the old one
/// as a whole, or nothing changes.
#[derive(Debug, Clone)]
pub struct ETHState {
    /// The last block of the Ethereum network known to the Ethereum watcher.
    last_ethereum_block: u64,
    /// Accepted priority operations that have not expired yet.
    priority_queue: HashMap<SerialId, PriorityOp>,
}

impl ETHState {
    /// The last block folded into this state.
    pub closed spec fn last_block(&self) -> u64 {
        self.last_ethereum_block
    }

    /// The accepted operations of this state, by serial id.
    pub closed spec fn queue(&self) -> Map<SerialId, PriorityOp> {
        self.priority_queue@
    }

    pub fn new(last_ethereum_block: u64, priority_queue: HashMap<SerialId, PriorityOp>) -> (r: Self)
        ensures
            r.last_block() == last_ethereum_block,
            r.queue() == priority_queue@,
    {
        Self { last_ethereum_block, priority_queue }
    }

    pub fn last_ethereum_block(&self) -> (r: u64)
        ensures
            r == self.last_block(),
    {
        self.last_ethereum_block
    }

    pub fn priority_queue(&self) -> (r: &HashMap<SerialId, PriorityOp>)
        ensures
            r@ == self.queue(),
    {
        &self.priority_queue
    }

    /// The state that replaces this one once a poll reached head `head`: the
    /// operations expired at `head` are dropped, then the operations of the
    /// newly accepted range are inserted.
    pub fn after_poll(&self, head: u64, accepted_ops: &Vec<PriorityOp>) -> (r: Self)
        ensures
            r.last_block() == head,
            r.queue() == insert_ops(unexpired(self.queue(), head), accepted_ops@),
    {
        let mut priority_queue = sift_outdated_ops(&self.priority_queue, head);
        merge_ops(&mut priority_queue, accepted_ops);
        Self { last_ethereum_block: head, priority_queue }
    }

    /// The state rebuilt at startup from the operations of the restore window,
    /// with head `head`: those that are not expired at `head`.
    pub fn restored(head: u64, accepted_ops: &Vec<PriorityOp>) -> (r: Self)
        ensures
            r.last_block() == head,
            r.queue() == unexpired(insert_ops(Map::empty(), accepted_ops@), head),
    {
        let mut all: HashMap<SerialId, PriorityOp> = HashMap::new();
        merge_ops(&mut all, accepted_ops);
        let priority_queue = sift_outdated_ops(&all, head);
        Self { last_ethereum_block: head, priority_queue }
    }

    /// The operations with consecutive serial ids from `op_start_id` on that
    /// fit in `max_chunks` chunks.
    pub fn priority_queue_ops(&self, op_start_id: SerialId, max_chunks: usize) -> (r: Vec<PriorityOp>)
        ensures
            r@ == contiguous_run(self.queue(), op_start_id as int, max_chunks as int),
    {
        priority_ops_from(&self.priority_queue, op_start_id, max_chunks)
    }
}

impl Default for ETHState {
    fn default() -> (r: Self)
        ensures
            r.last_block() == 0,
            r.queue() == Map::<SerialId, PriorityOp>::empty(),
    {
        Self { last_ethereum_block: 0, priority_queue: HashMap::new() }
    }
}

} // verus!
