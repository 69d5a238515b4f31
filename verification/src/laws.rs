//! The laws of the reactive engine, stated and proved over the models that
//! the executable functions' contracts are written in.

use crate::commands::{apply_op_model, apply_ops_model, OpModel, QueueModel};
use crate::params::{any_subscribed_changed, Query, ReactiveQuery, ReactiveQueryModel, Res};
use crate::reaction::{Reaction, ReactionModel};
use crate::stages::{switch_ops, SwitchModel, SwitchStage};
use crate::store::{
    bundle_lookup, kinds_of, EntityId, KindId, Marker, Record,
    RecordVal, StoreModel,
};
use crate::system::{MapModel, MapSystem, ReactiveSystem, ReactiveSystemParam};
use vstd::prelude::*;

verus! {

// ------------------------------------------------------------------
// Vacuous first run
// ------------------------------------------------------------------

/// A freshly initialized fine-grained query has an empty subscription set,
/// and an empty subscription set reports changed vacuously: every reaction
/// over such a query executes at least once after attachment, even with no
/// prior writes.
pub proof fn lemma_vacuous_first_run(q: ReactiveQuery, store: StoreModel)
    ensures
        q.changed_spec(q.init_spec(), store),
{
}

/// The vacuous report holds of every state with an empty subscription set,
/// not only the fresh one.
pub proof fn lemma_empty_subscriptions_changed(
    q: ReactiveQuery,
    st: ReactiveQueryModel,
    store: StoreModel,
)
    requires
        st.entities.len() == 0,
    ensures
        q.changed_spec(st, store),
{
}

// ------------------------------------------------------------------
// No spurious reruns
// ------------------------------------------------------------------

/// When nothing within a reaction's capability set changed, one evaluation
/// leaves the invocation counter and the mutation queue untouched: the body
/// is not invoked.
pub proof fn lemma_no_spurious_rerun<S: ReactiveSystem<In = (), Out = ()>>(
    m: ReactionModel<S::V>,
    store: StoreModel,
    queue: QueueModel,
    entity: EntityId,
)
    requires
        !S::changed_spec(m.system, store),
    ensures
        Reaction::<S>::step_model(m, store, queue, entity).runs == m.runs,
        Reaction::<S>::step_model(m, store, queue, entity).targets == m.targets,
        Reaction::<S>::step_queue(m, store, queue, entity) == queue,
{
}

/// A resource capability is quiet exactly when the resource's marker did not
/// advance past the last check.
pub proof fn lemma_res_quiet(p: Res, st: Marker, store: StoreModel)
    ensures
        p.changed_spec(st, store) == store.resource_changed_since(p.kind, st),
{
}

/// A coarse query is quiet exactly when no record of its kind changed since
/// the last check.
pub proof fn lemma_query_quiet(p: Query, st: Marker, store: StoreModel)
    ensures
        p.changed_spec(st, store) == store.kind_changed_since(p.kind, st),
{
}

/// A fine-grained query with subscriptions is quiet exactly when none of the
/// subscribed records changed since the last check.
pub proof fn lemma_fine_quiet(q: ReactiveQuery, st: ReactiveQueryModel, store: StoreModel)
    requires
        st.entities.len() > 0,
    ensures
        q.changed_spec(st, store) == any_subscribed_changed(st, q.kind, store),
{
}

/// In a well-formed store, nothing has changed past the current tick: a
/// capability whose marker caught up with the tick is quiet until a write
/// advances the store.
pub proof fn lemma_quiet_at_tick(store: StoreModel, k: KindId, e: EntityId, m: Marker)
    requires
        store.wf(),
        store.tick <= m,
    ensures
        !store.kind_changed_since(k, m),
        !store.record_changed_since(e, k, m),
        !store.resource_changed_since(k, m),
{
    if store.rec(e, k) is Some {
        crate::store::lemma_find_record_some(store.records, e, k, store.rec(e, k)->Some_0);
    }
    if store.res(k) is Some {
        crate::store::lemma_find_resource_some(store.resources, k, store.res(k)->Some_0);
    }
}

/// Re-checking immediately after a check, with no intervening writes,
/// reports unchanged: a resource or coarse capability settles, and a fine
/// capability with subscriptions settles too.
pub proof fn lemma_check_settles(
    p: Res,
    cq: Query,
    fq: ReactiveQuery,
    st: Marker,
    fst: ReactiveQueryModel,
    store: StoreModel,
)
    requires
        store.wf(),
    ensures
        !p.changed_spec(p.checked_spec(st, store), store),
        !cq.changed_spec(cq.checked_spec(st, store), store),
        fq.checked_spec(fst, store).entities.len() > 0 ==> !fq.changed_spec(
            fq.checked_spec(fst, store),
            store,
        ),
{
    lemma_quiet_at_tick(store, p.kind, 0, store.tick);
    lemma_quiet_at_tick(store, cq.kind, 0, store.tick);
    let checked = fq.checked_spec(fst, store);
    if checked.entities.len() > 0 {
        assert forall|j: int| 0 <= j < checked.entities.len() implies !store.record_changed_since(
            #[trigger] checked.entities[j],
            fq.kind,
            checked.last,
        ) by {
            lemma_quiet_at_tick(store, fq.kind, checked.entities[j], store.tick);
        }
    }
}

// ------------------------------------------------------------------
// Composition law of sequential composition
// ------------------------------------------------------------------

/// A composition reports changed exactly when either stage does.
pub proof fn lemma_map_is_changed<A: ReactiveSystem, B: ReactiveSystem<In = A::Out>>(
    m: MapModel<A::V, B::V>,
    store: StoreModel,
)
    ensures
        MapSystem::<A, B>::changed_spec(m, store) == (A::changed_spec(m.a, store)
            || B::changed_spec(m.b, store)),
{
}

/// Running a composition is running the first stage and feeding its output,
/// under its queue, to the second.
pub proof fn lemma_map_run<A: ReactiveSystem, B: ReactiveSystem<In = A::Out>>(
    m: MapModel<A::V, B::V>,
    store: StoreModel,
    input: <A::In as View>::V,
    entity: EntityId,
    queue: QueueModel,
)
    ensures
        MapSystem::<A, B>::run_out_spec(m, store, input, entity, queue) == B::run_out_spec(
            m.b,
            store,
            A::run_out_spec(m.a, store, input, entity, queue),
            entity,
            A::run_queue_spec(m.a, store, input, entity, queue),
        ),
        MapSystem::<A, B>::run_queue_spec(m, store, input, entity, queue) == B::run_queue_spec(
            m.b,
            store,
            A::run_out_spec(m.a, store, input, entity, queue),
            entity,
            A::run_queue_spec(m.a, store, input, entity, queue),
        ),
{
}

// ------------------------------------------------------------------
// Switch edge-triggering
// ------------------------------------------------------------------

/// A switch run mutates only on a value change from the previous input: a
/// repeated input queues nothing and keeps the flag, and a changed input
/// queues exactly one removal and one insertion and flips the flag.
pub proof fn lemma_switch_edge(
    m: SwitchModel,
    store: StoreModel,
    input: bool,
    entity: EntityId,
    queue: QueueModel,
)
    requires
        m.state is Some,
    ensures
        input == m.state->Some_0 ==> SwitchStage::run_queue_spec(m, store, input, entity, queue)
            == queue,
        input != m.state->Some_0 ==> SwitchStage::run_queue_spec(
            m,
            store,
            input,
            entity,
            queue,
        ).ops == queue.ops + switch_ops(m, input, entity) && switch_ops(m, input, entity).len()
            == 2,
        SwitchStage::run_state_spec(m, store, input, entity, queue).state == Some(input),
{
    if input == m.state->Some_0 {
        assert(queue.ops + switch_ops(m, input, entity) =~= queue.ops);
    }
}

/// A kind is assigned by a bundle exactly when it is among the bundle's
/// kinds.
pub proof fn lemma_bundle_lookup_kinds(items: Seq<RecordVal>, k: KindId)
    ensures
        bundle_lookup(items, k) is Some <==> kinds_of(items).contains(k),
    decreases items.len(),
{
    let ks = kinds_of(items);
    if items.len() == 0 {
        assert(ks.len() == 0);
    } else {
        let tail = items.drop_first();
        lemma_bundle_lookup_kinds(tail, k);
        let kt = kinds_of(tail);
        assert(kt =~= ks.drop_first());
        assert(ks[0] == items[0].kind);
        if bundle_lookup(items, k) is Some {
            if bundle_lookup(tail, k) is Some {
                let i = choose|i: int| 0 <= i < kt.len() && kt[i] == k;
                assert(ks[i + 1] == k);
                assert(ks.contains(k));
            } else {
                assert(items[0].kind == k);
                assert(ks.contains(k)) by {
                    assert(ks[0] == k);
                }
            }
        }
        if ks.contains(k) {
            let i = choose|i: int| 0 <= i < ks.len() && ks[i] == k;
            if i == 0 {
                assert(items[0].kind == k);
            } else {
                assert(kt[i - 1] == k);
                assert(kt.contains(k));
            }
        }
    }
}

/// What one switch transition does to the store: every kind the arriving
/// bundle assigns is written on the entity, every departing kind not
/// re-assigned is removed, everything else — other kinds, other entities —
/// is untouched. With disjoint bundles the entity thus carries exactly the
/// arriving side.
pub proof fn lemma_switch_transition(m: StoreModel, sw: SwitchModel, input: bool, entity: EntityId)
    requires
        m.wf(),
        sw.state is Some,
        input != sw.state->Some_0,
    ensures
        ({
            let arriving = if input {
                sw.if_items
            } else {
                sw.else_items
            };
            let departing = if input {
                sw.else_items
            } else {
                sw.if_items
            };
            let out = apply_ops_model(m, switch_ops(sw, input, entity));
            &&& forall|k: KindId|
                #[trigger] out.rec(entity, k) == (match bundle_lookup(arriving, k) {
                    Some(v) => Some(Record { entity, kind: k, value: v, changed_at: m.tick }),
                    None => if kinds_of(departing).contains(k) {
                        None::<Record>
                    } else {
                        m.rec(entity, k)
                    },
                })
            &&& forall|e2: EntityId, k: KindId|
                e2 != entity ==> #[trigger] out.rec(e2, k) == m.rec(e2, k)
            &&& forall|k: KindId|
                kinds_of(arriving).contains(k) ==> (#[trigger] out.rec(entity, k)) is Some
            &&& forall|k: KindId|
                kinds_of(departing).contains(k) && !kinds_of(arriving).contains(k) ==> (
                #[trigger] out.rec(entity, k)) is None
        }),
{
    let arriving = if input {
        sw.if_items
    } else {
        sw.else_items
    };
    let departing = if input {
        sw.else_items
    } else {
        sw.if_items
    };
    let ops = switch_ops(sw, input, entity);
    assert(ops[0] == OpModel::Remove { entity, kinds: kinds_of(departing) });
    assert(ops[1] == OpModel::Insert { entity, items: arriving });
    let mid = apply_op_model(m, ops[0]);
    let out2 = apply_op_model(mid, ops[1]);
    assert(ops.drop_first() =~= seq![ops[1]]);
    assert(ops.drop_first().drop_first() =~= Seq::<OpModel>::empty());
    assert(apply_ops_model(m, ops) == apply_ops_model(mid, ops.drop_first()));
    assert(apply_ops_model(mid, ops.drop_first()) == apply_ops_model(
        out2,
        ops.drop_first().drop_first(),
    ));
    assert(apply_ops_model(m, ops) == out2);
    crate::store::lemma_remove_records(m.records, entity, kinds_of(departing), false);
    crate::store::lemma_insert_bundle(mid.records, entity, arriving, mid.tick);
    let out = apply_ops_model(m, ops);
    assert forall|k: KindId| true implies #[trigger] out.rec(entity, k) == (match bundle_lookup(
        arriving,
        k,
    ) {
        Some(v) => Some(Record { entity, kind: k, value: v, changed_at: m.tick }),
        None => if kinds_of(departing).contains(k) {
            None::<Record>
        } else {
            m.rec(entity, k)
        },
    }) by {
        lemma_bundle_lookup_kinds(arriving, k);
    }
    assert forall|k: KindId| kinds_of(arriving).contains(k) implies (#[trigger] out.rec(
        entity,
        k,
    )) is Some by {
        lemma_bundle_lookup_kinds(arriving, k);
    }
    assert forall|k: KindId|
        kinds_of(departing).contains(k) && !kinds_of(arriving).contains(k) implies (
    #[trigger] out.rec(entity, k)) is None by {
        lemma_bundle_lookup_kinds(arriving, k);
    }
}

} // verus!

verus! {

// ------------------------------------------------------------------
// FromIter full regeneration
// ------------------------------------------------------------------

/// Applying a concatenation of operations is applying the parts in order.
pub proof fn lemma_apply_ops_concat(m: StoreModel, a: Seq<OpModel>, b: Seq<OpModel>)
    ensures
        apply_ops_model(m, a + b) == apply_ops_model(apply_ops_model(m, a), b),
    decreases a.len(),
{
    if a.len() == 0 {
        assert(a + b =~= b);
    } else {
        assert((a + b)[0] == a[0]);
        assert((a + b).drop_first() =~= a.drop_first() + b);
        lemma_apply_ops_concat(apply_op_model(m, a[0]), a.drop_first(), b);
    }
}

/// In a well-formed store, an entity at or above the allocation counter
/// carries no record.
pub proof fn lemma_fresh_entity_empty(m: StoreModel, e: EntityId)
    requires
        m.wf(),
        e >= m.next_entity,
    ensures
        forall|k: KindId| (#[trigger] m.rec(e, k)) is None,
{
    assert forall|k: KindId| (#[trigger] m.rec(e, k)) is None by {
        if m.rec(e, k) is Some {
            crate::store::lemma_find_record_some(m.records, e, k, m.rec(e, k)->Some_0);
        }
    }
}

/// What a run of despawns does: every listed entity loses all its records,
/// every other entity is untouched.
pub proof fn lemma_despawns_apply(m: StoreModel, children: Seq<EntityId>)
    requires
        crate::store::records_nodup(m.records),
    ensures
        ({
            let out = apply_ops_model(m, crate::stages::despawn_ops(children));
            &&& crate::store::records_nodup(out.records)
            &&& out.tick == m.tick
            &&& out.next_entity == m.next_entity
            &&& out.resources == m.resources
            &&& forall|e2: EntityId, k: KindId|
                #[trigger] out.rec(e2, k) == (if children.contains(e2) {
                    None::<Record>
                } else {
                    m.rec(e2, k)
                })
        }),
    decreases children.len(),
{
    let ops = crate::stages::despawn_ops(children);
    let out = apply_ops_model(m, ops);
    if children.len() == 0 {
        assert(ops.len() == 0);
        assert(forall|e2: EntityId| !children.contains(e2));
    } else {
        let c0 = children[0];
        assert(ops[0] == OpModel::Despawn { entity: c0 });
        assert(ops.drop_first() =~= crate::stages::despawn_ops(children.drop_first()));
        let mid = apply_op_model(m, ops[0]);
        crate::store::lemma_remove_records(m.records, c0, Seq::empty(), true);
        lemma_despawns_apply(mid, children.drop_first());
        assert(out == apply_ops_model(mid, crate::stages::despawn_ops(children.drop_first())));
        assert forall|e2: EntityId, k: KindId| true implies #[trigger] out.rec(e2, k) == (
        if children.contains(e2) {
            None::<Record>
        } else {
            m.rec(e2, k)
        }) by {
            if children.contains(e2) {
                let i = choose|i: int| 0 <= i < children.len() && children[i] == e2;
                if e2 == c0 {
                    if children.drop_first().contains(e2) {
                    } else {
                        assert(mid.rec(e2, k) is None);
                    }
                } else {
                    assert(children.drop_first()[i - 1] == e2);
                    assert(children.drop_first().contains(e2));
                }
            } else {
                assert(e2 != c0);
                assert forall|i: int|
                    0 <= i < children.drop_first().len() implies children.drop_first()[i]
                    != e2 by {
                    assert(children.drop_first()[i] == children[i + 1]);
                }
                assert(!children.drop_first().contains(e2));
            }
        }
    }
}

/// What a run of spawns does: each reserved entity, in order, carries
/// exactly what its bundle assigns, over whatever it had before; entities
/// outside the reserved range are untouched.
pub proof fn lemma_spawns_apply(m: StoreModel, items: Seq<Seq<RecordVal>>, base: EntityId)
    requires
        crate::store::records_nodup(m.records),
        base + items.len() <= u64::MAX,
    ensures
        ({
            let out = apply_ops_model(m, crate::stages::spawn_ops(items, base));
            &&& crate::store::records_nodup(out.records)
            &&& out.tick == m.tick
            &&& out.next_entity == m.next_entity
            &&& out.resources == m.resources
            &&& forall|i: int, k: KindId|
                0 <= i < items.len() ==> #[trigger] out.rec((base + i) as EntityId, k) == (
                match bundle_lookup(items[i], k) {
                    Some(v) => Some(
                        Record {
                            entity: (base + i) as EntityId,
                            kind: k,
                            value: v,
                            changed_at: m.tick,
                        },
                    ),
                    None => m.rec((base + i) as EntityId, k),
                })
            &&& forall|e2: EntityId, k: KindId|
                !(base <= e2 < base + items.len()) ==> #[trigger] out.rec(e2, k) == m.rec(e2, k)
        }),
    decreases items.len(),
{
    let ops = crate::stages::spawn_ops(items, base);
    let out = apply_ops_model(m, ops);
    if items.len() == 0 {
        assert(ops.len() == 0);
    } else {
        assert(ops[0] == OpModel::Spawn { entity: base, items: items[0] });
        assert(ops.drop_first() =~= crate::stages::spawn_ops(
            items.drop_first(),
            (base + 1) as EntityId,
        ));
        let mid = apply_op_model(m, ops[0]);
        crate::store::lemma_insert_bundle(m.records, base, items[0], m.tick);
        lemma_spawns_apply(mid, items.drop_first(), (base + 1) as EntityId);
        assert(out == apply_ops_model(
            mid,
            crate::stages::spawn_ops(items.drop_first(), (base + 1) as EntityId),
        ));
        assert forall|i: int, k: KindId| 0 <= i < items.len() implies #[trigger] out.rec(
            (base + i) as EntityId,
            k,
        ) == (match bundle_lookup(items[i], k) {
            Some(v) => Some(
                Record {
                    entity: (base + i) as EntityId,
                    kind: k,
                    value: v,
                    changed_at: m.tick,
                },
            ),
            None => m.rec((base + i) as EntityId, k),
        }) by {
            if i == 0 {
                assert(out.rec(base, k) == mid.rec(base, k));
            } else {
                assert(items.drop_first()[i - 1] == items[i]);
                assert(((base + 1) as EntityId + (i - 1)) as EntityId == (base + i) as EntityId);
                assert(mid.rec((base + i) as EntityId, k) == m.rec((base + i) as EntityId, k));
            }
        }
        assert forall|e2: EntityId, k: KindId| !(base <= e2 < base + items.len()) implies
        #[trigger] out.rec(e2, k) == m.rec(e2, k) by {
            assert(e2 != base);
            assert(mid.rec(e2, k) == m.rec(e2, k));
        }
    }
}

/// Full regeneration: after one triggering run of an iterating computation,
/// every previously spawned child is despawned, and there is exactly one
/// fresh child per produced bundle — consecutively reserved entities that
/// did not exist before the run — each carrying exactly what its bundle
/// assigns; every unrelated entity is untouched.
pub proof fn lemma_from_iter_regeneration(
    m: StoreModel,
    children: Seq<EntityId>,
    items: Seq<Seq<RecordVal>>,
    base: EntityId,
)
    requires
        m.wf(),
        base >= m.next_entity,
        base + items.len() <= u64::MAX,
        forall|i: int| 0 <= i < children.len() ==> #[trigger] children[i] < base,
    ensures
        ({
            let out = apply_ops_model(
                m,
                crate::stages::despawn_ops(children) + crate::stages::spawn_ops(items, base),
            );
            // all prior children are gone
            &&& forall|i: int, k: KindId|
                0 <= i < children.len() ==> (#[trigger] out.rec(children[i], k)) is None
            // each of the `items.len()` fresh children carries its bundle,
            // and nothing else: it did not exist before the run
            &&& forall|i: int, k: KindId|
                0 <= i < items.len() ==> #[trigger] out.rec((base + i) as EntityId, k) == (
                match bundle_lookup(items[i], k) {
                    Some(v) => Some(
                        Record {
                            entity: (base + i) as EntityId,
                            kind: k,
                            value: v,
                            changed_at: m.tick,
                        },
                    ),
                    None => None::<Record>,
                })
            // the fresh children are pairwise distinct and distinct from
            // every prior child
            &&& forall|i: int, j: int|
                0 <= i < j < items.len() ==> #[trigger] crate::stages::fresh_children(
                    base,
                    items.len(),
                )[i] != #[trigger] crate::stages::fresh_children(base, items.len())[j]
            &&& forall|i: int, j: int|
                0 <= i < children.len() && 0 <= j < items.len() ==> #[trigger] children[i]
                    != #[trigger] crate::stages::fresh_children(base, items.len())[j]
            // every entity that is neither a prior child nor a fresh one is
            // untouched
            &&& forall|e2: EntityId, k: KindId|
                !children.contains(e2) && !(base <= e2 < base + items.len())
                    ==> #[trigger] out.rec(e2, k) == m.rec(e2, k)
        }),
{
    let d = crate::stages::despawn_ops(children);
    let s = crate::stages::spawn_ops(items, base);
    let mid = apply_ops_model(m, d);
    lemma_apply_ops_concat(m, d, s);
    lemma_despawns_apply(m, children);
    lemma_spawns_apply(mid, items, base);
    let out = apply_ops_model(m, d + s);
    assert forall|i: int, k: KindId| 0 <= i < children.len() implies (#[trigger] out.rec(
        children[i],
        k,
    )) is None by {
        assert(children.contains(children[i]));
        assert(mid.rec(children[i], k) is None);
        assert(!(base <= children[i] < base + items.len()));
    }
    assert forall|i: int, k: KindId| 0 <= i < items.len() implies #[trigger] out.rec(
        (base + i) as EntityId,
        k,
    ) == (match bundle_lookup(items[i], k) {
        Some(v) => Some(
            Record { entity: (base + i) as EntityId, kind: k, value: v, changed_at: m.tick },
        ),
        None => None::<Record>,
    }) by {
        lemma_fresh_entity_empty(m, (base + i) as EntityId);
        assert(m.rec((base + i) as EntityId, k) is None);
        if children.contains((base + i) as EntityId) {
            let j = choose|j: int| 0 <= j < children.len() && children[j] == (base + i) as EntityId;
            assert(false);
        }
        assert(mid.rec((base + i) as EntityId, k) == m.rec((base + i) as EntityId, k));
    }
}

} // verus!

verus! {

// ------------------------------------------------------------------
// Switch exclusivity across whole input sequences
// ------------------------------------------------------------------

/// The bundle of the side a switch flag marks active.
pub open spec fn switch_active(sw: SwitchModel) -> Seq<RecordVal> {
    if sw.state->Some_0 {
        sw.if_items
    } else {
        sw.else_items
    }
}

/// The bundle of the side a switch flag marks inactive.
pub open spec fn switch_inactive(sw: SwitchModel) -> Seq<RecordVal> {
    if sw.state->Some_0 {
        sw.else_items
    } else {
        sw.if_items
    }
}

/// The entity carries the active bundle's kinds and none of the kinds that
/// belong only to the inactive bundle.
pub open spec fn switch_exclusive(
    m: StoreModel,
    e: EntityId,
    active: Seq<RecordVal>,
    inactive: Seq<RecordVal>,
) -> bool {
    &&& forall|k: KindId| kinds_of(active).contains(k) ==> (#[trigger] m.rec(e, k)) is Some
    &&& forall|k: KindId|
        kinds_of(inactive).contains(k) && !kinds_of(active).contains(k) ==> (#[trigger] m.rec(
            e,
            k,
        )) is None
}

/// The store and flag after a sequence of triggering switch runs, each
/// flushed on its own: one step per boolean input.
pub open spec fn switch_trace(
    m: StoreModel,
    sw: SwitchModel,
    e: EntityId,
    inputs: Seq<bool>,
) -> (StoreModel, SwitchModel)
    decreases inputs.len(),
{
    if inputs.len() == 0 {
        (m, sw)
    } else {
        let stamped = StoreModel { tick: (m.tick + 1) as Marker, ..m };
        let m2 = apply_ops_model(stamped, switch_ops(sw, inputs[0], e));
        let sw2 = SwitchModel { state: Some(inputs[0]), ..sw };
        switch_trace(m2, sw2, e, inputs.drop_first())
    }
}

/// One transition step establishes exclusivity outright, whatever the entity
/// carried before.
pub proof fn lemma_switch_step_establishes(m: StoreModel, sw: SwitchModel, input: bool, e: EntityId)
    requires
        m.wf(),
        e < m.next_entity,
        m.tick < u64::MAX,
        sw.state is Some,
        input != sw.state->Some_0,
        forall|k: KindId|
            !(kinds_of(sw.if_items).contains(k) && #[trigger] kinds_of(sw.else_items).contains(k)),
    ensures
        ({
            let stamped = StoreModel { tick: (m.tick + 1) as Marker, ..m };
            let m2 = apply_ops_model(stamped, switch_ops(sw, input, e));
            let sw2 = SwitchModel { state: Some(input), ..sw };
            &&& m2.wf()
            &&& m2.next_entity == m.next_entity
            &&& m2.tick == m.tick + 1
            &&& switch_exclusive(m2, e, switch_active(sw2), switch_inactive(sw2))
        }),
{
    let stamped = StoreModel { tick: (m.tick + 1) as Marker, ..m };
    let ops = switch_ops(sw, input, e);
    let m2 = apply_ops_model(stamped, ops);
    let arriving = if input {
        sw.if_items
    } else {
        sw.else_items
    };
    let departing = if input {
        sw.else_items
    } else {
        sw.if_items
    };
    assert(stamped.wf());
    lemma_switch_transition(stamped, sw, input, e);
    assert forall|i: int| 0 <= i < ops.len() implies (#[trigger] ops[i]).wf(
        stamped.next_entity,
    ) by {
        assert(ops[i].target() == e);
    }
    crate::commands::lemma_apply_ops_wf(stamped, ops);
    assert forall|k: KindId| kinds_of(arriving).contains(k) implies (#[trigger] m2.rec(
        e,
        k,
    )) is Some by {
        lemma_bundle_lookup_kinds(arriving, k);
    }
}

/// Exclusivity is an invariant of every further run: a repeated input leaves
/// the records as they are, a changed input re-establishes it for the other
/// side.
pub proof fn lemma_switch_trace_maintains(
    m: StoreModel,
    sw: SwitchModel,
    e: EntityId,
    inputs: Seq<bool>,
)
    requires
        m.wf(),
        e < m.next_entity,
        m.tick + inputs.len() <= u64::MAX,
        sw.state is Some,
        switch_exclusive(m, e, switch_active(sw), switch_inactive(sw)),
        forall|k: KindId|
            !(kinds_of(sw.if_items).contains(k) && #[trigger] kinds_of(sw.else_items).contains(k)),
    ensures
        ({
            let (mf, swf) = switch_trace(m, sw, e, inputs);
            &&& mf.wf()
            &&& mf.next_entity == m.next_entity
            &&& swf.if_items == sw.if_items
            &&& swf.else_items == sw.else_items
            &&& swf.state == (if inputs.len() == 0 {
                sw.state
            } else {
                Some(inputs.last())
            })
            &&& switch_exclusive(mf, e, switch_active(swf), switch_inactive(swf))
        }),
    decreases inputs.len(),
{
    if inputs.len() == 0 {
    } else {
        let input = inputs[0];
        let stamped = StoreModel { tick: (m.tick + 1) as Marker, ..m };
        let m2 = apply_ops_model(stamped, switch_ops(sw, input, e));
        let sw2 = SwitchModel { state: Some(input), ..sw };
        if input == sw.state->Some_0 {
            assert(switch_ops(sw, input, e).len() == 0);
            assert(m2 == stamped);
            assert(stamped.wf());
            assert(switch_active(sw2) == switch_active(sw));
            assert(switch_inactive(sw2) == switch_inactive(sw));
            assert forall|k: KindId|
                kinds_of(switch_active(sw2)).contains(k) implies (#[trigger] m2.rec(
                e,
                k,
            )) is Some by {
                assert(m2.records == m.records);
                assert(m2.rec(e, k) == m.rec(e, k));
            }
            assert forall|k: KindId|
                kinds_of(switch_inactive(sw2)).contains(k) && !kinds_of(
                    switch_active(sw2),
                ).contains(k) implies (#[trigger] m2.rec(e, k)) is None by {
                assert(m2.records == m.records);
                assert(m2.rec(e, k) == m.rec(e, k));
            }
            assert(switch_exclusive(m2, e, switch_active(sw2), switch_inactive(sw2)));
        } else {
            lemma_switch_step_establishes(m, sw, input, e);
        }
        lemma_switch_trace_maintains(m2, sw2, e, inputs.drop_first());
        if inputs.len() > 1 {
            assert(inputs.drop_first().last() == inputs.last());
        }
    }
}

/// Switch exclusivity over whole input sequences: starting from the freshly
/// initialized flag, for any sequence of triggering runs whose first input is
/// true (the first transition; until one happens the entity simply keeps what
/// it had), the entity carries exactly one of the two disjoint bundles after
/// every run — all of the active side, none of the kinds belonging only to
/// the other.
pub proof fn lemma_switch_sequence_exclusive(
    m: StoreModel,
    sw: SwitchModel,
    e: EntityId,
    inputs: Seq<bool>,
)
    requires
        m.wf(),
        e < m.next_entity,
        m.tick + inputs.len() <= u64::MAX,
        sw.state == Some(false),
        inputs.len() > 0,
        inputs[0] == true,
        forall|k: KindId|
            !(kinds_of(sw.if_items).contains(k) && #[trigger] kinds_of(sw.else_items).contains(k)),
    ensures
        ({
            let (mf, swf) = switch_trace(m, sw, e, inputs);
            &&& mf.wf()
            &&& swf.state == Some(inputs.last())
            &&& switch_exclusive(mf, e, switch_active(swf), switch_inactive(swf))
        }),
{
    let stamped = StoreModel { tick: (m.tick + 1) as Marker, ..m };
    let m2 = apply_ops_model(stamped, switch_ops(sw, inputs[0], e));
    let sw2 = SwitchModel { state: Some(inputs[0]), ..sw };
    lemma_switch_step_establishes(m, sw, inputs[0], e);
    lemma_switch_trace_maintains(m2, sw2, e, inputs.drop_first());
    if inputs.len() > 1 {
        assert(inputs.drop_first().last() == inputs.last());
    }
}


} // verus!
