//! The deferred-mutation log.
//!
//! During a scheduler pass the store is read-only: every mutation a reaction
//! issues is queued here as an explicit operation. The whole queue is applied
//! in one flush step strictly after the pass, never interleaved with reads,
//! so every change check within one pass sees the same pre-pass state.

use crate::store::{
    insert_bundle, remove_records, Bundle, EntityId, KindId, Marker, Record, RecordVal, Store,
    StoreModel,
};
use vstd::prelude::*;

verus! {

/// A deferred store mutation, queued during a pass and applied at the flush.
#[derive(Debug)]
pub enum Op {
    /// Insert (or overwrite) the bundle's records on the entity.
    Insert { entity: EntityId, bundle: Bundle },
    /// Remove the records of the listed kinds from the entity.
    Remove { entity: EntityId, kinds: Vec<KindId> },
    /// Populate a freshly reserved entity with the bundle's records.
    Spawn { entity: EntityId, bundle: Bundle },
    /// Remove every record of the entity.
    Despawn { entity: EntityId },
}

/// The mathematical model of an [`Op`].
pub enum OpModel {
    Insert { entity: EntityId, items: Seq<RecordVal> },
    Remove { entity: EntityId, kinds: Seq<KindId> },
    Spawn { entity: EntityId, items: Seq<RecordVal> },
    Despawn { entity: EntityId },
}

impl View for Op {
    type V = OpModel;

    open spec fn view(&self) -> OpModel {
        match self {
            Op::Insert { entity, bundle } => OpModel::Insert { entity: *entity, items: bundle@ },
            Op::Remove { entity, kinds } => OpModel::Remove { entity: *entity, kinds: kinds@ },
            Op::Spawn { entity, bundle } => OpModel::Spawn { entity: *entity, items: bundle@ },
            Op::Despawn { entity } => OpModel::Despawn { entity: *entity },
        }
    }
}

impl OpModel {
    /// The entity the operation is aimed at.
    pub open spec fn target(&self) -> EntityId {
        match self {
            OpModel::Insert { entity, .. } => *entity,
            OpModel::Remove { entity, .. } => *entity,
            OpModel::Spawn { entity, .. } => *entity,
            OpModel::Despawn { entity } => *entity,
        }
    }

    /// An operation is well formed for a queue whose allocation counter is
    /// `next`: its target was allocated below that counter.
    pub open spec fn wf(&self, next: EntityId) -> bool {
        self.target() < next
    }
}

/// The mathematical model of a [`CommandQueue`].
pub struct QueueModel {
    pub ops: Seq<OpModel>,
    pub next_entity: EntityId,
}

impl QueueModel {
    /// Every queued operation targets an allocated entity.
    pub open spec fn wf(&self) -> bool {
        forall|i: int| 0 <= i < self.ops.len() ==> (#[trigger] self.ops[i]).wf(self.next_entity)
    }
}

/// The deferred-mutation queue of one scheduler pass: the pending operations
/// in order, and the fresh-entity counter (seeded from the store, so entities
/// can be reserved while the store itself is read-only).
#[derive(Debug)]
pub struct CommandQueue {
    pub ops: Vec<Op>,
    pub next_entity: EntityId,
}

impl View for CommandQueue {
    type V = QueueModel;

    open spec fn view(&self) -> QueueModel {
        QueueModel {
            ops: self.ops@.map_values(|op: Op| op@),
            next_entity: self.next_entity,
        }
    }
}

impl CommandQueue {
    /// An empty queue for a pass over `store`.
    pub fn new(store: &Store) -> (q: CommandQueue)
        ensures
            q@.ops == Seq::<OpModel>::empty(),
            q@.next_entity == store.next_entity,
            q@.wf(),
    {
        let q = CommandQueue { ops: Vec::new(), next_entity: store.next_entity };
        proof {
            assert(q@.ops =~= Seq::<OpModel>::empty());
        }
        q
    }

    /// Reserve a fresh entity identifier while the store is read-only.
    pub fn alloc_entity(&mut self) -> (e: EntityId)
        requires
            old(self).next_entity < u64::MAX,
        ensures
            e == old(self).next_entity,
            final(self)@.ops == old(self)@.ops,
            final(self)@.next_entity == old(self).next_entity + 1,
            old(self)@.wf() ==> final(self)@.wf(),
    {
        let e = self.next_entity;
        self.next_entity = self.next_entity + 1;
        e
    }

    /// Queue an insertion of `bundle` onto `entity`.
    pub fn push_insert(&mut self, entity: EntityId, bundle: Bundle)
        requires
            entity < old(self).next_entity,
        ensures
            final(self)@.ops == old(self)@.ops.push(OpModel::Insert { entity, items: bundle@ }),
            final(self)@.next_entity == old(self).next_entity,
            old(self)@.wf() ==> final(self)@.wf(),
    {
        let ghost items = bundle@;
        self.ops.push(Op::Insert { entity, bundle });
        proof {
            assert(self@.ops =~= old(self)@.ops.push(OpModel::Insert { entity, items }));
        }
    }

    /// Queue a removal of the records of kinds `kinds` from `entity`.
    pub fn push_remove(&mut self, entity: EntityId, kinds: Vec<KindId>)
        requires
            entity < old(self).next_entity,
        ensures
            final(self)@.ops == old(self)@.ops.push(OpModel::Remove { entity, kinds: kinds@ }),
            final(self)@.next_entity == old(self).next_entity,
            old(self)@.wf() ==> final(self)@.wf(),
    {
        let ghost ks = kinds@;
        self.ops.push(Op::Remove { entity, kinds });
        proof {
            assert(self@.ops =~= old(self)@.ops.push(OpModel::Remove { entity, kinds: ks }));
        }
    }

    /// Queue the population of a freshly reserved `entity` with `bundle`.
    pub fn push_spawn(&mut self, entity: EntityId, bundle: Bundle)
        requires
            entity < old(self).next_entity,
        ensures
            final(self)@.ops == old(self)@.ops.push(OpModel::Spawn { entity, items: bundle@ }),
            final(self)@.next_entity == old(self).next_entity,
            old(self)@.wf() ==> final(self)@.wf(),
    {
        let ghost items = bundle@;
        self.ops.push(Op::Spawn { entity, bundle });
        proof {
            assert(self@.ops =~= old(self)@.ops.push(OpModel::Spawn { entity, items }));
        }
    }

    /// Queue the removal of every record of `entity`.
    pub fn push_despawn(&mut self, entity: EntityId)
        requires
            entity < old(self).next_entity,
        ensures
            final(self)@.ops == old(self)@.ops.push(OpModel::Despawn { entity }),
            final(self)@.next_entity == old(self).next_entity,
            old(self)@.wf() ==> final(self)@.wf(),
    {
        self.ops.push(Op::Despawn { entity });
        proof {
            assert(self@.ops =~= old(self)@.ops.push(OpModel::Despawn { entity }));
        }
    }
}

// ------------------------------------------------------------------
// Applying the queue
// ------------------------------------------------------------------

/// The record sequence after one operation, stamping writes with `stamp`.
pub open spec fn apply_op_records(rs: Seq<Record>, op: OpModel, stamp: Marker) -> Seq<Record> {
    match op {
        OpModel::Insert { entity, items } => insert_bundle(rs, entity, items, stamp),
        OpModel::Spawn { entity, items } => insert_bundle(rs, entity, items, stamp),
        OpModel::Remove { entity, kinds } => remove_records(rs, entity, kinds, false),
        OpModel::Despawn { entity } => remove_records(rs, entity, Seq::empty(), true),
    }
}

/// The store model after one operation.
pub open spec fn apply_op_model(m: StoreModel, op: OpModel) -> StoreModel {
    StoreModel { records: apply_op_records(m.records, op, m.tick), ..m }
}

/// The store model after a sequence of operations, applied in order.
pub open spec fn apply_ops_model(m: StoreModel, ops: Seq<OpModel>) -> StoreModel
    decreases ops.len(),
{
    if ops.len() == 0 {
        m
    } else {
        apply_ops_model(apply_op_model(m, ops[0]), ops.drop_first())
    }
}

/// The store after a flush of queue `q`: the tick advances by one, the
/// allocation counter catches up with the queue's reservations, and the
/// queued operations are applied in order, stamped with the new tick.
pub open spec fn flush_model(m: StoreModel, q: QueueModel) -> StoreModel {
    apply_ops_model(
        StoreModel { tick: (m.tick + 1) as Marker, next_entity: q.next_entity, ..m },
        q.ops,
    )
}

/// One operation keeps the store well formed and touches only the records.
pub proof fn lemma_apply_op_wf(m: StoreModel, op: OpModel)
    requires
        m.wf(),
        op.wf(m.next_entity),
    ensures
        apply_op_model(m, op).wf(),
{
    let out = apply_op_model(m, op);
    match op {
        OpModel::Insert { entity, items } => {
            crate::store::lemma_insert_bundle(m.records, entity, items, m.tick);
            assert forall|i: int| 0 <= i < out.records.len() implies (
            #[trigger] out.records[i]).changed_at <= out.tick && out.records[i].entity
                < out.next_entity by {
                if !(out.records[i].entity == entity && out.records[i].changed_at == m.tick) {
                    assert(m.records.contains(out.records[i]));
                    let j = choose|j: int| 0 <= j < m.records.len() && m.records[j] == out.records[i];
                }
            }
        },
        OpModel::Spawn { entity, items } => {
            crate::store::lemma_insert_bundle(m.records, entity, items, m.tick);
            assert forall|i: int| 0 <= i < out.records.len() implies (
            #[trigger] out.records[i]).changed_at <= out.tick && out.records[i].entity
                < out.next_entity by {
                if !(out.records[i].entity == entity && out.records[i].changed_at == m.tick) {
                    assert(m.records.contains(out.records[i]));
                    let j = choose|j: int| 0 <= j < m.records.len() && m.records[j] == out.records[i];
                }
            }
        },
        OpModel::Remove { entity, kinds } => {
            crate::store::lemma_remove_records(m.records, entity, kinds, false);
            assert forall|i: int| 0 <= i < out.records.len() implies (
            #[trigger] out.records[i]).changed_at <= out.tick && out.records[i].entity
                < out.next_entity by {
                assert(m.records.contains(out.records[i]));
                let j = choose|j: int| 0 <= j < m.records.len() && m.records[j] == out.records[i];
            }
        },
        OpModel::Despawn { entity } => {
            crate::store::lemma_remove_records(m.records, entity, Seq::empty(), true);
            assert forall|i: int| 0 <= i < out.records.len() implies (
            #[trigger] out.records[i]).changed_at <= out.tick && out.records[i].entity
                < out.next_entity by {
                assert(m.records.contains(out.records[i]));
                let j = choose|j: int| 0 <= j < m.records.len() && m.records[j] == out.records[i];
            }
        },
    }
}

/// A sequence of operations keeps the store well formed and touches only the
/// records.
pub proof fn lemma_apply_ops_wf(m: StoreModel, ops: Seq<OpModel>)
    requires
        m.wf(),
        forall|i: int| 0 <= i < ops.len() ==> (#[trigger] ops[i]).wf(m.next_entity),
    ensures
        apply_ops_model(m, ops).wf(),
        apply_ops_model(m, ops).tick == m.tick,
        apply_ops_model(m, ops).next_entity == m.next_entity,
        apply_ops_model(m, ops).resources == m.resources,
    decreases ops.len(),
{
    if ops.len() == 0 {
    } else {
        lemma_apply_op_wf(m, ops[0]);
        let mid = apply_op_model(m, ops[0]);
        assert(forall|i: int| 0 <= i < ops.drop_first().len() ==> ops.drop_first()[i] == ops[i + 1]);
        lemma_apply_ops_wf(mid, ops.drop_first());
    }
}

/// Test whether `ks` lists the kind `k`.
#[verifier::loop_isolation(false)]
fn contains_kind(ks: &Vec<KindId>, k: KindId) -> (r: bool)
    ensures
        r == ks@.contains(k),
{
    let mut i: usize = 0;
    while i < ks.len()
        invariant
            i <= ks@.len(),
            forall|j: int| 0 <= j < i ==> ks@[j] != k,
        decreases ks@.len() - i,
    {
        if ks[i] == k {
            return true;
        }
        i = i + 1;
    }
    false
}

/// Write every record value of `bundle` onto `e`, in order, stamped `stamp`.
#[verifier::loop_isolation(false)]
fn insert_bundle_exec(records: &mut Vec<Record>, e: EntityId, bundle: &Bundle, stamp: Marker)
    ensures
        final(records)@ == insert_bundle(old(records)@, e, bundle@, stamp),
{
    let ghost orig = records@;
    let mut i: usize = 0;
    proof {
        assert(bundle@.skip(0) =~= bundle@);
    }
    while i < bundle.items.len()
        invariant
            i <= bundle@.len(),
            insert_bundle(orig, e, bundle@, stamp) == insert_bundle(
                records@,
                e,
                bundle@.skip(i as int),
                stamp,
            ),
        decreases bundle@.len() - i,
    {
        let ghost s = bundle@.skip(i as int);
        proof {
            assert(s[0] == bundle@[i as int]);
            assert(s.drop_first() =~= bundle@.skip(i as int + 1));
        }
        let rv = bundle.items[i];
        crate::store::upsert_record_vec(records, e, rv.kind, rv.value, stamp);
        i = i + 1;
    }
    proof {
        assert(bundle@.skip(bundle@.len() as int) =~= Seq::<RecordVal>::empty());
    }
}

/// Remove from entity `e` either every record (`all`) or the kinds in `ks`.
#[verifier::loop_isolation(false)]
fn remove_records_exec(records: &mut Vec<Record>, e: EntityId, ks: &Vec<KindId>, all: bool)
    ensures
        final(records)@ == remove_records(old(records)@, e, ks@, all),
{
    let ghost orig = records@;
    let mut out: Vec<Record> = Vec::new();
    let mut i: usize = 0;
    proof {
        assert(orig.skip(0) =~= orig);
        assert(out@ + remove_records(orig, e, ks@, all) =~= remove_records(orig, e, ks@, all));
    }
    while i < records.len()
        invariant
            i <= orig.len(),
            records@ == orig,
            remove_records(orig, e, ks@, all) == out@ + remove_records(
                orig.skip(i as int),
                e,
                ks@,
                all,
            ),
        decreases orig.len() - i,
    {
        let ghost s = orig.skip(i as int);
        let ghost pre = out@;
        proof {
            assert(s[0] == orig[i as int]);
            assert(s.drop_first() =~= orig.skip(i as int + 1));
        }
        let r = records[i];
        let hit = r.entity == e && (all || contains_kind(ks, r.kind));
        if !hit {
            out.push(r);
            proof {
                assert(pre + remove_records(s, e, ks@, all) =~= out@ + remove_records(
                    orig.skip(i as int + 1),
                    e,
                    ks@,
                    all,
                ));
            }
        }
        i = i + 1;
    }
    proof {
        assert(orig.skip(orig.len() as int) =~= Seq::<Record>::empty());
        assert(out@ + remove_records(orig.skip(orig.len() as int), e, ks@, all) =~= out@);
    }
    *records = out;
}

/// Apply one operation to the record vector, stamping writes with `stamp`.
fn apply_op_exec(records: &mut Vec<Record>, op: &Op, stamp: Marker)
    ensures
        final(records)@ == apply_op_records(old(records)@, op@, stamp),
{
    match op {
        Op::Insert { entity, bundle } => {
            insert_bundle_exec(records, *entity, bundle, stamp);
        },
        Op::Spawn { entity, bundle } => {
            insert_bundle_exec(records, *entity, bundle, stamp);
        },
        Op::Remove { entity, kinds } => {
            remove_records_exec(records, *entity, kinds, false);
        },
        Op::Despawn { entity } => {
            let empty: Vec<KindId> = Vec::new();
            remove_records_exec(records, *entity, &empty, true);
            proof {
                assert(empty@ =~= Seq::<KindId>::empty());
            }
        },
    }
}

impl Store {
    /// Flush a pass's deferred mutations into the store: advance the tick,
    /// adopt the queue's entity reservations, and apply every queued
    /// operation in order. The queue is left empty.
    #[verifier::loop_isolation(false)]
    pub fn apply(&mut self, queue: &mut CommandQueue)
        requires
            old(self)@.wf(),
            old(queue)@.wf(),
            old(self).tick < u64::MAX,
            old(queue).next_entity >= old(self).next_entity,
        ensures
            final(self)@ == flush_model(old(self)@, old(queue)@),
            final(self)@.wf(),
            final(queue)@.ops == Seq::<OpModel>::empty(),
            final(queue)@.next_entity == old(queue)@.next_entity,
            final(queue)@.wf(),
    {
        self.tick = self.tick + 1;
        self.next_entity = queue.next_entity;
        let ghost stamped = self@;
        let ghost all_ops = queue@.ops;
        proof {
            assert(stamped.wf());
            assert(all_ops.skip(0) =~= all_ops);
            lemma_apply_ops_wf(stamped, all_ops);
        }
        let mut i: usize = 0;
        while i < queue.ops.len()
            invariant
                i <= all_ops.len(),
                queue.ops@.map_values(|op: Op| op@) == all_ops,
                queue.next_entity == old(queue).next_entity,
                self@.tick == stamped.tick,
                self@.next_entity == stamped.next_entity,
                self@.resources == stamped.resources,
                self@.wf(),
                apply_ops_model(stamped, all_ops) == apply_ops_model(
                    self@,
                    all_ops.skip(i as int),
                ),
            decreases all_ops.len() - i,
        {
            let ghost s = all_ops.skip(i as int);
            let ghost cur = self@;
            proof {
                assert(s[0] == all_ops[i as int]);
                assert(s.drop_first() =~= all_ops.skip(i as int + 1));
                assert(all_ops[i as int].wf(stamped.next_entity));
                lemma_apply_op_wf(cur, all_ops[i as int]);
            }
            let op = &queue.ops[i];
            proof {
                assert(op@ == all_ops[i as int]);
            }
            let stamp = self.tick;
            apply_op_exec(&mut self.records, op, stamp);
            proof {
                assert(self@ == apply_op_model(cur, all_ops[i as int]));
            }
            i = i + 1;
        }
        proof {
            assert(all_ops.skip(all_ops.len() as int) =~= Seq::<OpModel>::empty());
        }
        queue.ops = Vec::new();
        proof {
            assert(queue@.ops =~= Seq::<OpModel>::empty());
        }
    }
}

} // verus!
