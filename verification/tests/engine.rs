//! End-to-end tests of the reactive engine over the modeled store.

use bevy_mod_reaction::bodies::{scale_value, EqualsBody, PerRowBody, ScaleBody, SumBody};
use bevy_mod_reaction::commands::CommandQueue;
use bevy_mod_reaction::params::{Query, ReactiveQuery, Res};
use bevy_mod_reaction::reaction::{react, run_pass, Installed, Reaction};
use bevy_mod_reaction::stages::InsertStage;
use bevy_mod_reaction::store::{Bundle, Store};
use bevy_mod_reaction::system::{FunctionReactiveSystem, MapSystem, ReactiveSystem};
use bevy_mod_reaction::Error;

const HEALTH: u32 = 1;
const DAMAGE: u32 = 2;
const ARMOR: u32 = 3;
const POWER: u32 = 10;

/// A reaction that derives `out_kind = factor * kind + offset` from the
/// record `kind` of its target entity, through a fine-grained query.
fn derive_scaled(
    kind: u32,
    factor: i64,
    offset: i64,
    out_kind: u32,
) -> Reaction<MapSystem<FunctionReactiveSystem<ReactiveQuery, ScaleBody>, InsertStage>> {
    Reaction::derive(FunctionReactiveSystem::new(
        ReactiveQuery { kind },
        ScaleBody { factor, offset, out_kind },
    ))
}

/// One scheduler pass over a single reaction, flushed into the store.
fn pass<S: ReactiveSystem<In = (), Out = ()>>(
    store: &mut Store,
    reaction: &mut Reaction<S>,
    entity: u64,
) {
    let mut queue = CommandQueue::new(store);
    reaction.run(store, &mut queue, entity);
    store.apply(&mut queue);
}

#[test]
fn vacuous_first_run() {
    // a freshly initialized fine-grained query has an empty subscription
    // set, so the reaction executes once even with no prior writes
    let mut store = Store::new();
    let owner: u64 = store.alloc_entity();
    let mut reaction = derive_scaled(HEALTH, 2, 0, DAMAGE);
    reaction.init().unwrap();
    assert_eq!(reaction.runs, 0);
    pass(&mut store, &mut reaction, owner);
    assert_eq!(reaction.runs, 1);
    // the read missed (no Health anywhere), so nothing was derived
    assert_eq!(store.record_value(owner, DAMAGE), Err(Error::NotFound));
}

#[test]
fn no_spurious_rerun() {
    // once the subscribed record is unchanged, the body is not invoked
    let mut store = Store::new();
    let owner: u64 = store.alloc_entity();
    store.set_record(owner, HEALTH, 100);
    let mut reaction = derive_scaled(HEALTH, 2, 0, DAMAGE);
    reaction.init().unwrap();
    pass(&mut store, &mut reaction, owner);
    assert_eq!(reaction.runs, 1);
    // two further passes without writes: the counter must not move
    pass(&mut store, &mut reaction, owner);
    pass(&mut store, &mut reaction, owner);
    assert_eq!(reaction.runs, 1);
}

#[test]
fn map_composition_matches_source() {
    // is_changed of a composition equals is_changed of its source wherever
    // the second stage never reports change of its own
    let mut store = Store::new();
    let e: u64 = store.alloc_entity();
    store.set_record(e, HEALTH, 5);

    let mut source = FunctionReactiveSystem::new(
        ReactiveQuery { kind: HEALTH },
        ScaleBody { factor: 1, offset: 0, out_kind: DAMAGE },
    );
    let mut composed = MapSystem::new(
        FunctionReactiveSystem::new(
            ReactiveQuery { kind: HEALTH },
            ScaleBody { factor: 1, offset: 0, out_kind: DAMAGE },
        ),
        InsertStage::new(),
    );
    source.init().unwrap();
    composed.init().unwrap();

    // vacuous first check on both
    assert!(source.is_changed(&store));
    assert!(composed.is_changed(&store));

    // subscribe both to `e`, then compare check outcomes step by step
    let mut queue = CommandQueue::new(&store);
    source.run((), &store, e, &mut queue);
    composed.run((), &store, e, &mut queue);
    assert!(!source.is_changed(&store));
    assert!(!composed.is_changed(&store));

    store.set_record(e, HEALTH, 6);
    assert!(source.is_changed(&store));
    assert!(composed.is_changed(&store));
    assert!(!source.is_changed(&store));
    assert!(!composed.is_changed(&store));
}

#[test]
fn double_initialization_rejected() {
    let mut reaction = derive_scaled(HEALTH, 2, 0, DAMAGE);
    assert_eq!(reaction.init(), Ok(()));
    assert_eq!(reaction.init(), Err(Error::DoubleInit));
}

#[test]
fn missing_lookups_are_recoverable() {
    let mut store = Store::new();
    let e: u64 = store.alloc_entity();
    assert_eq!(store.record_value(e, HEALTH), Err(Error::NotFound));
    assert_eq!(store.resource_value(POWER), Err(Error::NotFound));
    store.set_record(e, HEALTH, 9);
    store.set_resource(POWER, 4);
    assert_eq!(store.record_value(e, HEALTH), Ok(9));
    assert_eq!(store.resource_value(POWER), Ok(4));
}

#[test]
fn switch_edge_triggering() {
    // the entity carries exactly one of the two bundles after the first
    // run, and a mutation happens only on a value change of the input
    let mut store = Store::new();
    let owner: u64 = store.alloc_entity();
    store.set_record(owner, HEALTH, 0);
    let mut reaction = Reaction::switch(
        FunctionReactiveSystem::new(ReactiveQuery { kind: HEALTH }, EqualsBody { value: 0 }),
        Bundle::single(ARMOR, 50),
        Bundle::single(DAMAGE, 100),
    );
    reaction.init().unwrap();

    // first run: health == 0, flag false -> transition to the if side
    pass(&mut store, &mut reaction, owner);
    assert_eq!(store.record_value(owner, ARMOR), Ok(50));
    assert_eq!(store.record_value(owner, DAMAGE), Err(Error::NotFound));

    // same input again (a write with the same value still marks the record
    // changed): the body reruns but queues nothing
    store.set_record(owner, HEALTH, 0);
    let mut queue = CommandQueue::new(&store);
    reaction.run(&store, &mut queue, owner);
    assert!(queue.ops.is_empty());
    store.apply(&mut queue);
    assert_eq!(store.record_value(owner, ARMOR), Ok(50));
    assert_eq!(store.record_value(owner, DAMAGE), Err(Error::NotFound));

    // input flips: transition to the else side
    store.set_record(owner, HEALTH, 5);
    pass(&mut store, &mut reaction, owner);
    assert_eq!(store.record_value(owner, ARMOR), Err(Error::NotFound));
    assert_eq!(store.record_value(owner, DAMAGE), Ok(100));

    // repeated false input: no mutation again
    store.set_record(owner, HEALTH, 7);
    let mut queue = CommandQueue::new(&store);
    reaction.run(&store, &mut queue, owner);
    assert!(queue.ops.is_empty());
    store.apply(&mut queue);
    assert_eq!(store.record_value(owner, ARMOR), Err(Error::NotFound));
    assert_eq!(store.record_value(owner, DAMAGE), Ok(100));
}

#[test]
fn from_iter_full_regeneration() {
    // a triggering run producing n items leaves exactly n fresh children;
    // the next one despawns all of them and spawns the new set
    let mut store = Store::new();
    let e1: u64 = store.alloc_entity();
    let e2: u64 = store.alloc_entity();
    let owner: u64 = store.alloc_entity();
    store.set_record(e1, HEALTH, 3);
    store.set_record(e2, HEALTH, 7);

    let mut reaction = Reaction::from_iter(FunctionReactiveSystem::new(
        Query { kind: HEALTH },
        PerRowBody { out_kind: DAMAGE },
    ));
    reaction.init().unwrap();

    // first run: two children, carrying the two health values in row order
    pass(&mut store, &mut reaction, owner);
    let c1: u64 = 3;
    let c2: u64 = 4;
    assert_eq!(store.record_value(c1, DAMAGE), Ok(3));
    assert_eq!(store.record_value(c2, DAMAGE), Ok(7));
    assert_eq!(store.next_entity, 5);

    // second triggering run: the two prior children are despawned, two new
    // ones exist, and none of the new ones existed before
    store.set_record(e1, HEALTH, 9);
    pass(&mut store, &mut reaction, owner);
    assert_eq!(store.record_value(c1, DAMAGE), Err(Error::NotFound));
    assert_eq!(store.record_value(c2, DAMAGE), Err(Error::NotFound));
    assert_eq!(store.record_value(5, DAMAGE), Ok(9));
    assert_eq!(store.record_value(6, DAMAGE), Ok(7));
    assert_eq!(store.next_entity, 7);

    // a pass without a triggering write regenerates nothing
    pass(&mut store, &mut reaction, owner);
    assert_eq!(store.record_value(5, DAMAGE), Ok(9));
    assert_eq!(store.next_entity, 7);
}

#[test]
fn end_to_end_derive() {
    // Health = 100; a derive reaction computes Damage = Health * 2
    let mut store = Store::new();
    let e: u64 = store.alloc_entity();
    store.set_record(e, HEALTH, 100);
    let mut reaction = derive_scaled(HEALTH, 2, 0, DAMAGE);
    reaction.init().unwrap();

    // after the first pass, E holds Damage = 200
    pass(&mut store, &mut reaction, e);
    assert_eq!(store.record_value(e, DAMAGE), Ok(200));
    assert_eq!(reaction.runs, 1);

    // set Health = 50; the next pass sets Damage = 100
    store.set_record(e, HEALTH, 50);
    pass(&mut store, &mut reaction, e);
    assert_eq!(store.record_value(e, DAMAGE), Ok(100));
    assert_eq!(reaction.runs, 2);

    // a further pass with no writes: Damage stays and the counter does not
    // move
    pass(&mut store, &mut reaction, e);
    assert_eq!(store.record_value(e, DAMAGE), Ok(100));
    assert_eq!(reaction.runs, 2);
}

#[test]
fn multi_target_runs_once_per_target() {
    // a reaction derived from a resource, with two targets: one resource
    // change makes the body run exactly twice, once per target
    let mut store = Store::new();
    let a: u64 = store.alloc_entity();
    let b: u64 = store.alloc_entity();
    let owner: u64 = store.alloc_entity();
    store.set_resource(POWER, 21);

    let mut reaction = Reaction::derive(FunctionReactiveSystem::new(
        Res { kind: POWER },
        ScaleBody { factor: 2, offset: 0, out_kind: DAMAGE },
    ));
    reaction.add_target(a);
    reaction.add_target(b);
    reaction.init().unwrap();

    pass(&mut store, &mut reaction, owner);
    assert_eq!(reaction.runs, 2);
    // each target received the derived record under its own scope; the
    // owning entity was ignored because targets are listed
    assert_eq!(store.record_value(a, DAMAGE), Ok(42));
    assert_eq!(store.record_value(b, DAMAGE), Ok(42));
    assert_eq!(store.record_value(owner, DAMAGE), Err(Error::NotFound));

    // quiet pass: no further runs
    pass(&mut store, &mut reaction, owner);
    assert_eq!(reaction.runs, 2);

    // another resource change: exactly two more runs
    store.set_resource(POWER, 5);
    pass(&mut store, &mut reaction, owner);
    assert_eq!(reaction.runs, 4);
    assert_eq!(store.record_value(a, DAMAGE), Ok(10));
    assert_eq!(store.record_value(b, DAMAGE), Ok(10));
}

#[test]
fn scheduler_pass_over_many_reactions() {
    // the scheduler evaluates every installed reaction once, sharing one
    // deferred-mutation queue, flushed after the pass
    let mut store = Store::new();
    let e1: u64 = store.alloc_entity();
    let e2: u64 = store.alloc_entity();
    store.set_record(e1, HEALTH, 10);
    store.set_record(e2, HEALTH, 20);

    let mut r1 = derive_scaled(HEALTH, 2, 0, DAMAGE);
    let mut r2 = derive_scaled(HEALTH, 1, 5, ARMOR);
    r1.init().unwrap();
    r2.init().unwrap();
    let mut installed = vec![
        Installed { entity: e1, reaction: r1 },
        Installed { entity: e2, reaction: r2 },
    ];

    let mut queue = CommandQueue::new(&store);
    react(&store, &mut installed, &mut queue);
    // both ran, but nothing is visible before the flush
    assert_eq!(store.record_value(e1, DAMAGE), Err(Error::NotFound));
    store.apply(&mut queue);
    assert_eq!(store.record_value(e1, DAMAGE), Ok(20));
    assert_eq!(store.record_value(e2, ARMOR), Ok(25));
    assert_eq!(installed[0].reaction.runs, 1);
    assert_eq!(installed[1].reaction.runs, 1);

    // a quiet pass runs nobody
    let mut queue = CommandQueue::new(&store);
    react(&store, &mut installed, &mut queue);
    assert!(queue.ops.is_empty());
    assert_eq!(installed[0].reaction.runs, 1);
    assert_eq!(installed[1].reaction.runs, 1);
}

#[test]
fn coarse_query_sees_any_record_of_kind() {
    // a coarse query reports change for any record of its kind, whether or
    // not a prior read used it
    let mut store = Store::new();
    let e1: u64 = store.alloc_entity();
    store.set_record(e1, HEALTH, 1);

    let mut source = FunctionReactiveSystem::new(
        Query { kind: HEALTH },
        PerRowBody { out_kind: DAMAGE },
    );
    source.init().unwrap();
    assert!(source.is_changed(&store));
    assert!(!source.is_changed(&store));

    // a record on a brand-new entity still triggers the coarse query
    let e2: u64 = store.alloc_entity();
    store.set_record(e2, HEALTH, 2);
    assert!(source.is_changed(&store));

    // a record of another kind does not
    store.set_record(e1, ARMOR, 9);
    assert!(!source.is_changed(&store));

    let rows = store.rows_of_kind(HEALTH);
    assert_eq!(rows.len(), 2);
    assert_eq!(rows[0].entity, e1);
    assert_eq!(rows[0].value, 1);
    assert_eq!(rows[1].entity, e2);
    assert_eq!(rows[1].value, 2);
}

#[test]
fn fine_query_ignores_unsubscribed_records() {
    // the fine-grained variant reruns only for records it consulted
    let mut store = Store::new();
    let e1: u64 = store.alloc_entity();
    let e2: u64 = store.alloc_entity();
    store.set_record(e1, HEALTH, 1);
    store.set_record(e2, HEALTH, 2);

    let mut reaction = derive_scaled(HEALTH, 2, 0, DAMAGE);
    reaction.init().unwrap();
    pass(&mut store, &mut reaction, e1);
    assert_eq!(reaction.runs, 1);

    // a write to the unsubscribed record does not rerun the reaction
    store.set_record(e2, HEALTH, 3);
    pass(&mut store, &mut reaction, e1);
    assert_eq!(reaction.runs, 1);

    // a write to the subscribed record does
    store.set_record(e1, HEALTH, 4);
    pass(&mut store, &mut reaction, e1);
    assert_eq!(reaction.runs, 2);
    assert_eq!(store.record_value(e1, DAMAGE), Ok(8));
}

#[test]
fn scaling_collapses_on_overflow() {
    assert_eq!(scale_value(2, 100, 0), 200);
    assert_eq!(scale_value(3, -4, 5), -7);
    assert_eq!(scale_value(i64::MAX, 2, 0), 0);
    assert_eq!(scale_value(1, i64::MAX, 1), 0);
    assert_eq!(scale_value(-1, i64::MIN, 0), 0);
}

#[test]
fn bundles_report_their_kinds() {
    let mut b = Bundle::new();
    b.push(HEALTH, 1);
    b.push(ARMOR, 2);
    let ks = b.kinds();
    assert_eq!(ks.len(), 2);
    assert_eq!(ks[0], HEALTH);
    assert_eq!(ks[1], ARMOR);
}

#[test]
fn composite_capability_sums_two_reads() {
    // a pair capability reports changed when either member does, and its
    // body sees both reads
    let mut store = Store::new();
    let e: u64 = store.alloc_entity();
    store.set_record(e, HEALTH, 30);
    store.set_resource(POWER, 12);

    let mut reaction = Reaction::derive(FunctionReactiveSystem::new(
        (Res { kind: POWER }, ReactiveQuery { kind: HEALTH }),
        SumBody { out_kind: DAMAGE },
    ));
    reaction.init().unwrap();

    pass(&mut store, &mut reaction, e);
    assert_eq!(store.record_value(e, DAMAGE), Ok(42));
    assert_eq!(reaction.runs, 1);

    // quiet pass
    pass(&mut store, &mut reaction, e);
    assert_eq!(reaction.runs, 1);

    // either member alone re-triggers the composite
    store.set_resource(POWER, 20);
    pass(&mut store, &mut reaction, e);
    assert_eq!(store.record_value(e, DAMAGE), Ok(50));
    assert_eq!(reaction.runs, 2);

    store.set_record(e, HEALTH, 1);
    pass(&mut store, &mut reaction, e);
    assert_eq!(store.record_value(e, DAMAGE), Ok(21));
    assert_eq!(reaction.runs, 3);
}

#[test]
fn run_pass_reacts_then_flushes() {
    // the whole-tick entry point: one read-only pass, one flush
    let mut store = Store::new();
    let e: u64 = store.alloc_entity();
    store.set_record(e, HEALTH, 4);
    let mut r = derive_scaled(HEALTH, 3, 1, DAMAGE);
    r.init().unwrap();
    let mut installed = vec![Installed { entity: e, reaction: r }];

    run_pass(&mut store, &mut installed);
    assert_eq!(store.record_value(e, DAMAGE), Ok(13));
    assert_eq!(installed[0].reaction.runs, 1);

    run_pass(&mut store, &mut installed);
    assert_eq!(installed[0].reaction.runs, 1);

    store.set_record(e, HEALTH, 5);
    run_pass(&mut store, &mut installed);
    assert_eq!(store.record_value(e, DAMAGE), Ok(16));
    assert_eq!(installed[0].reaction.runs, 2);
}
