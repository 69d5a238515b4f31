//! The reaction handle and the scheduler pass.
//!
//! A reaction pairs a computation unit with an explicit list of target
//! entities and an invocation counter. The scheduler pass evaluates every
//! installed reaction once: it checks for change, and only on change runs the
//! body once per target (or once against the owning entity when no target is
//! listed), queueing all writes for the post-pass flush.

use crate::commands::{CommandQueue, QueueModel};
use crate::stages::{FromIterModel, FromIterStage, InsertStage, SwitchModel, SwitchStage};
use crate::store::{Bundle, BundleList, EntityId, Store, StoreModel};
use crate::system::{MapModel, MapSystem, ReactiveSystem};
use crate::Error;
use vstd::prelude::*;

verus! {

/// `a + b`, saturating at the largest counter value.
pub open spec fn sat_add(a: u64, b: nat) -> u64 {
    if a + b > u64::MAX {
        u64::MAX
    } else {
        (a + b) as u64
    }
}

/// Saturation composes: counting `n` and then one more is counting `n + 1`.
pub proof fn lemma_sat_add_one(a: u64, n: nat)
    ensures
        sat_add(a, n + 1) == sat_add(sat_add(a, n), 1),
{
}

/// What running a computation once per target, in order, demands of the
/// queue: each run's demand, under the states and queues the previous runs
/// produce.
pub open spec fn run_seq_req<S: ReactiveSystem<In = (), Out = ()>>(
    m: S::V,
    store: StoreModel,
    queue: QueueModel,
    targets: Seq<EntityId>,
) -> bool
    decreases targets.len(),
{
    targets.len() == 0 || (S::run_req(m, store, (), targets[0], queue) && run_seq_req::<S>(
        S::run_state_spec(m, store, (), targets[0], queue),
        store,
        S::run_queue_spec(m, store, (), targets[0], queue),
        targets.drop_first(),
    ))
}

/// The computation state after running once per target, in order.
pub open spec fn run_seq_state<S: ReactiveSystem<In = (), Out = ()>>(
    m: S::V,
    store: StoreModel,
    queue: QueueModel,
    targets: Seq<EntityId>,
) -> S::V
    decreases targets.len(),
{
    if targets.len() == 0 {
        m
    } else {
        run_seq_state::<S>(
            S::run_state_spec(m, store, (), targets[0], queue),
            store,
            S::run_queue_spec(m, store, (), targets[0], queue),
            targets.drop_first(),
        )
    }
}

/// The queue after running once per target, in order.
pub open spec fn run_seq_queue<S: ReactiveSystem<In = (), Out = ()>>(
    m: S::V,
    store: StoreModel,
    queue: QueueModel,
    targets: Seq<EntityId>,
) -> QueueModel
    decreases targets.len(),
{
    if targets.len() == 0 {
        queue
    } else {
        run_seq_queue::<S>(
            S::run_state_spec(m, store, (), targets[0], queue),
            store,
            S::run_queue_spec(m, store, (), targets[0], queue),
            targets.drop_first(),
        )
    }
}

/// The model of a [`Reaction`].
pub struct ReactionModel<SV> {
    pub system: SV,
    pub targets: Seq<EntityId>,
    pub runs: u64,
}

/// A shareable reaction: a computation unit, the entities to run it against,
/// and a counter of body invocations.
///
/// An empty target list means "run against the owning entity"; a non-empty
/// list means "run once per listed entity, ignoring the owner".
#[derive(Debug)]
pub struct Reaction<S> {
    pub system: S,
    pub targets: Vec<EntityId>,
    pub runs: u64,
}

impl<S: View> View for Reaction<S> {
    type V = ReactionModel<S::V>;

    open spec fn view(&self) -> ReactionModel<S::V> {
        ReactionModel { system: self.system@, targets: self.targets@, runs: self.runs }
    }
}

impl<S: ReactiveSystem<In = (), Out = ()>> Reaction<S> {
    /// Structural invariant: the computation's own invariant.
    pub open spec fn inv(&self) -> bool {
        self.system.inv()
    }

    /// The entities one evaluation runs against: the targets, or the owning
    /// entity where none are listed.
    pub open spec fn effective_targets(m: ReactionModel<S::V>, entity: EntityId) -> Seq<EntityId> {
        if m.targets.len() == 0 {
            seq![entity]
        } else {
            m.targets
        }
    }

    /// What one evaluation demands of the queue, should the reaction run.
    pub open spec fn run_pre(
        m: ReactionModel<S::V>,
        store: StoreModel,
        queue: QueueModel,
        entity: EntityId,
    ) -> bool {
        S::changed_spec(m.system, store) ==> run_seq_req::<S>(
            S::checked_spec(m.system, store),
            store,
            queue,
            Self::effective_targets(m, entity),
        )
    }

    /// The reaction after one evaluation: the change check always happens;
    /// the body runs once per effective target only on change, counting each
    /// invocation.
    pub open spec fn step_model(
        m: ReactionModel<S::V>,
        store: StoreModel,
        queue: QueueModel,
        entity: EntityId,
    ) -> ReactionModel<S::V> {
        let checked = S::checked_spec(m.system, store);
        if S::changed_spec(m.system, store) {
            let tgts = Self::effective_targets(m, entity);
            ReactionModel {
                system: run_seq_state::<S>(checked, store, queue, tgts),
                targets: m.targets,
                runs: sat_add(m.runs, tgts.len()),
            }
        } else {
            ReactionModel { system: checked, targets: m.targets, runs: m.runs }
        }
    }

    /// The queue after one evaluation: untouched unless the reaction ran.
    pub open spec fn step_queue(
        m: ReactionModel<S::V>,
        store: StoreModel,
        queue: QueueModel,
        entity: EntityId,
    ) -> QueueModel {
        if S::changed_spec(m.system, store) {
            run_seq_queue::<S>(
                S::checked_spec(m.system, store),
                store,
                queue,
                Self::effective_targets(m, entity),
            )
        } else {
            queue
        }
    }

    /// A detached reaction over `system`, with no targets and no runs.
    pub fn new(system: S) -> (r: Reaction<S>)
        ensures
            r@.system == system@,
            r@.targets == Seq::<EntityId>::empty(),
            r@.runs == 0,
            system.inv() ==> r.inv(),
    {
        let r = Reaction { system, targets: Vec::new(), runs: 0 };
        proof {
            assert(r@.targets =~= Seq::<EntityId>::empty());
        }
        r
    }

    /// Append an entity to the target list; it affects only future
    /// evaluations.
    pub fn add_target(&mut self, entity: EntityId)
        ensures
            final(self)@.targets == old(self)@.targets.push(entity),
            final(self).system == old(self).system,
            final(self)@.runs == old(self)@.runs,
    {
        self.targets.push(entity);
    }

    /// Initialize the computation unit. Called exactly once, before any
    /// evaluation; a second call is rejected with [`Error::DoubleInit`].
    pub fn init(&mut self) -> (r: Result<(), Error>)
        requires
            old(self).inv(),
        ensures
            !S::initialized(old(self)@.system) ==> r == Ok::<(), Error>(()) && final(self)@.system
                == S::init_spec(old(self)@.system),
            S::initialized(old(self)@.system) ==> r == Err::<(), Error>(Error::DoubleInit)
                && final(self)@.system == old(self)@.system,
            final(self).inv(),
            S::initialized(final(self)@.system),
            final(self)@.targets == old(self)@.targets,
            final(self)@.runs == old(self)@.runs,
    {
        self.system.init()
    }

    /// One evaluation: check for change against the current store view and,
    /// only on change, run the body once per effective target, queueing all
    /// writes.
    #[verifier::loop_isolation(false)]
    pub fn run(&mut self, store: &Store, queue: &mut CommandQueue, entity: EntityId)
        requires
            old(self).inv(),
            S::initialized(old(self)@.system),
            store@.wf(),
            old(queue)@.wf(),
            Self::run_pre(old(self)@, store@, old(queue)@, entity),
        ensures
            final(self)@ == Self::step_model(old(self)@, store@, old(queue)@, entity),
            final(queue)@ == Self::step_queue(old(self)@, store@, old(queue)@, entity),
            final(self).inv(),
            S::initialized(final(self)@.system),
            final(queue)@.wf(),
            final(queue)@.next_entity >= old(queue)@.next_entity,
    {
        let ghost m0 = self@;
        let changed = self.system.is_changed(store);
        if !changed {
            return ;
        }
        let ghost checked = S::checked_spec(m0.system, store@);
        let ghost q0 = queue@;
        if self.targets.len() == 0 {
            let ghost tgts = Self::effective_targets(m0, entity);
            proof {
                assert(tgts == seq![entity]);
                assert(tgts[0] == entity);
                assert(tgts.drop_first() =~= Seq::<EntityId>::empty());
            }
            self.system.run((), store, entity, queue);
            if self.runs < u64::MAX {
                self.runs = self.runs + 1;
            }
            proof {
                assert(run_seq_state::<S>(self@.system, store@, queue@, tgts.drop_first())
                    == self@.system);
                assert(run_seq_queue::<S>(self@.system, store@, queue@, tgts.drop_first())
                    == queue@);
                assert(run_seq_state::<S>(checked, store@, q0, tgts) == self@.system);
                assert(run_seq_queue::<S>(checked, store@, q0, tgts) == queue@);
                assert(self.runs == sat_add(m0.runs, tgts.len()));
            }
        } else {
            let ghost tgts = m0.targets;
            proof {
                assert(tgts == Self::effective_targets(m0, entity));
                assert(tgts.skip(0) =~= tgts);
            }
            let n = self.targets.len();
            let mut i: usize = 0;
            while i < n
                invariant
                    i <= n,
                    n == tgts.len(),
                    self.targets@ == tgts,
                    run_seq_state::<S>(checked, store@, q0, tgts) == run_seq_state::<S>(
                        self@.system,
                        store@,
                        queue@,
                        tgts.skip(i as int),
                    ),
                    run_seq_queue::<S>(checked, store@, q0, tgts) == run_seq_queue::<S>(
                        self@.system,
                        store@,
                        queue@,
                        tgts.skip(i as int),
                    ),
                    run_seq_req::<S>(self@.system, store@, queue@, tgts.skip(i as int)),
                    self.system.inv(),
                    S::initialized(self@.system),
                    queue@.wf(),
                    queue@.next_entity >= q0.next_entity,
                    self.runs == sat_add(m0.runs, i as nat),
                decreases n - i,
            {
                let ghost s = tgts.skip(i as int);
                let ghost cur = self@.system;
                let ghost qcur = queue@;
                proof {
                    assert(s[0] == tgts[i as int]);
                    assert(s.drop_first() =~= tgts.skip(i as int + 1));
                    assert(run_seq_req::<S>(cur, store@, qcur, s));
                    assert(S::run_req(cur, store@, (), s[0], qcur));
                }
                let t = self.targets[i];
                self.system.run((), store, t, queue);
                if self.runs < u64::MAX {
                    self.runs = self.runs + 1;
                }
                proof {
                    lemma_sat_add_one(m0.runs, i as nat);
                }
                i = i + 1;
            }
            proof {
                assert(tgts.skip(n as int) =~= Seq::<EntityId>::empty());
                assert(run_seq_state::<S>(self@.system, store@, queue@, tgts.skip(n as int))
                    == self@.system);
                assert(run_seq_queue::<S>(self@.system, store@, queue@, tgts.skip(n as int))
                    == queue@);
            }
        }
    }
}

impl<S2: ReactiveSystem<In = (), Out = Bundle>> Reaction<MapSystem<S2, InsertStage>> {
    /// A reaction that derives records: whenever the bundle-producing
    /// `system` reports change, its output is recomputed and overwritten onto
    /// the target entity.
    pub fn derive(system: S2) -> (r: Self)
        requires
            system.inv(),
            !S2::initialized(system@),
        ensures
            r@.system == (MapModel { a: system@, b: InsertStage { state: None }@ }),
            r@.targets == Seq::<EntityId>::empty(),
            r@.runs == 0,
            r.inv(),
    {
        Reaction::new(MapSystem::new(system, InsertStage::new()))
    }
}

impl<S2: ReactiveSystem<In = (), Out = bool>> Reaction<MapSystem<S2, SwitchStage>> {
    /// A reaction that toggles between two bundles, edge-triggered: when the
    /// boolean-producing `system` flips to true, `if_bundle` replaces
    /// `else_bundle`'s kinds on the target entity, and symmetrically on a
    /// flip to false; a repeated value is a no-op.
    pub fn switch(system: S2, if_bundle: Bundle, else_bundle: Bundle) -> (r: Self)
        requires
            system.inv(),
            !S2::initialized(system@),
        ensures
            r@.system == (MapModel {
                a: system@,
                b: SwitchModel {
                    if_items: if_bundle@,
                    else_items: else_bundle@,
                    state: None,
                },
            }),
            r@.targets == Seq::<EntityId>::empty(),
            r@.runs == 0,
            r.inv(),
    {
        Reaction::new(MapSystem::new(system, SwitchStage::new(if_bundle, else_bundle)))
    }
}

impl<S2: ReactiveSystem<In = (), Out = BundleList>> Reaction<MapSystem<S2, FromIterStage>> {
    /// A reaction that fully regenerates a child list: each triggering run
    /// despawns every previously spawned child and spawns one fresh entity
    /// per produced bundle.
    pub fn from_iter(system: S2) -> (r: Self)
        requires
            system.inv(),
            !S2::initialized(system@),
        ensures
            r@.system == (MapModel { a: system@, b: FromIterModel { children: None } }),
            r@.targets == Seq::<EntityId>::empty(),
            r@.runs == 0,
            r.inv(),
    {
        Reaction::new(MapSystem::new(system, FromIterStage::new()))
    }
}

} // verus!

verus! {

/// The model of an [`Installed`] reaction.
pub struct InstalledModel<SV> {
    pub entity: EntityId,
    pub reaction: ReactionModel<SV>,
}

/// A reaction installed on an owning entity, as the scheduler sees it.
#[derive(Debug)]
pub struct Installed<S> {
    pub entity: EntityId,
    pub reaction: Reaction<S>,
}

impl<S: View> View for Installed<S> {
    type V = InstalledModel<S::V>;

    open spec fn view(&self) -> InstalledModel<S::V> {
        InstalledModel { entity: self.entity, reaction: self.reaction@ }
    }
}

/// The models of a sequence of installed reactions.
pub open spec fn installed_views<S: ReactiveSystem<In = (), Out = ()>>(
    v: Seq<Installed<S>>,
) -> Seq<InstalledModel<S::V>> {
    v.map_values(|x: Installed<S>| x@)
}

/// What one scheduler pass demands of the queue: each reaction's demand,
/// under the queues the previous reactions produce.
pub open spec fn react_seq_req<S: ReactiveSystem<In = (), Out = ()>>(
    rs: Seq<InstalledModel<S::V>>,
    store: StoreModel,
    queue: QueueModel,
) -> bool
    decreases rs.len(),
{
    rs.len() == 0 || (Reaction::<S>::run_pre(rs[0].reaction, store, queue, rs[0].entity)
        && react_seq_req::<S>(
        rs.drop_first(),
        store,
        Reaction::<S>::step_queue(rs[0].reaction, store, queue, rs[0].entity),
    ))
}

/// The installed reactions after one scheduler pass, in order.
pub open spec fn react_seq_models<S: ReactiveSystem<In = (), Out = ()>>(
    rs: Seq<InstalledModel<S::V>>,
    store: StoreModel,
    queue: QueueModel,
) -> Seq<InstalledModel<S::V>>
    decreases rs.len(),
{
    if rs.len() == 0 {
        rs
    } else {
        seq![
            InstalledModel {
                entity: rs[0].entity,
                reaction: Reaction::<S>::step_model(rs[0].reaction, store, queue, rs[0].entity),
            },
        ] + react_seq_models::<S>(
            rs.drop_first(),
            store,
            Reaction::<S>::step_queue(rs[0].reaction, store, queue, rs[0].entity),
        )
    }
}

/// The queue after one scheduler pass.
pub open spec fn react_seq_queue<S: ReactiveSystem<In = (), Out = ()>>(
    rs: Seq<InstalledModel<S::V>>,
    store: StoreModel,
    queue: QueueModel,
) -> QueueModel
    decreases rs.len(),
{
    if rs.len() == 0 {
        queue
    } else {
        react_seq_queue::<S>(
            rs.drop_first(),
            store,
            Reaction::<S>::step_queue(rs[0].reaction, store, queue, rs[0].entity),
        )
    }
}

/// One scheduler pass: evaluate every installed reaction once, in order,
/// against the same read-only store view, queueing every write. All runs in
/// one pass observe the same pre-pass state; the queue is flushed afterwards
/// by [`Store::apply`].
#[verifier::loop_isolation(false)]
pub fn react<S: ReactiveSystem<In = (), Out = ()>>(
    store: &Store,
    installed: &mut Vec<Installed<S>>,
    queue: &mut CommandQueue,
)
    requires
        store@.wf(),
        old(queue)@.wf(),
        forall|i: int|
            0 <= i < old(installed)@.len() ==> (#[trigger] old(installed)@[i]).reaction.inv()
                && S::initialized(old(installed)@[i].reaction@.system),
        react_seq_req::<S>(installed_views(old(installed)@), store@, old(queue)@),
    ensures
        installed_views(final(installed)@) == react_seq_models::<S>(
            installed_views(old(installed)@),
            store@,
            old(queue)@,
        ),
        final(queue)@ == react_seq_queue::<S>(
            installed_views(old(installed)@),
            store@,
            old(queue)@,
        ),
        forall|i: int|
            0 <= i < final(installed)@.len() ==> (#[trigger] final(installed)@[i]).reaction.inv()
                && S::initialized(final(installed)@[i].reaction@.system),
        final(queue)@.wf(),
        final(queue)@.next_entity >= old(queue)@.next_entity,
{
    let ghost rs0 = installed_views(installed@);
    let ghost q0 = queue@;
    let mut done: Vec<Installed<S>> = Vec::new();
    proof {
        assert(installed_views(done@) =~= Seq::<InstalledModel<S::V>>::empty());
        assert(installed_views(done@) + react_seq_models::<S>(rs0, store@, q0)
            =~= react_seq_models::<S>(rs0, store@, q0));
    }
    while installed.len() > 0
        invariant
            react_seq_models::<S>(rs0, store@, q0) == installed_views(done@) + react_seq_models::<
                S,
            >(installed_views(installed@), store@, queue@),
            react_seq_queue::<S>(rs0, store@, q0) == react_seq_queue::<S>(
                installed_views(installed@),
                store@,
                queue@,
            ),
            react_seq_req::<S>(installed_views(installed@), store@, queue@),
            forall|i: int|
                0 <= i < installed@.len() ==> (#[trigger] installed@[i]).reaction.inv()
                    && S::initialized(installed@[i].reaction@.system),
            forall|i: int|
                0 <= i < done@.len() ==> (#[trigger] done@[i]).reaction.inv() && S::initialized(
                    done@[i].reaction@.system,
                ),
            queue@.wf(),
            queue@.next_entity >= q0.next_entity,
        decreases installed@.len(),
    {
        let ghost rs_pre = installed_views(installed@);
        let ghost q_pre = queue@;
        let ghost done_pre = installed_views(done@);
        let mut inst = installed.remove(0);
        proof {
            assert(rs_pre[0] == inst@);
            assert(rs_pre.drop_first() =~= installed_views(installed@));
        }
        let entity = inst.entity;
        inst.reaction.run(store, queue, entity);
        done.push(inst);
        proof {
            let stepped = InstalledModel {
                entity: rs_pre[0].entity,
                reaction: Reaction::<S>::step_model(rs_pre[0].reaction, store@, q_pre, rs_pre[0].entity),
            };
            assert(inst@ == stepped);
            assert(installed_views(done@) =~= done_pre.push(stepped));
            assert(react_seq_models::<S>(rs_pre, store@, q_pre) == seq![stepped]
                + react_seq_models::<S>(rs_pre.drop_first(), store@, queue@));
            assert(done_pre + react_seq_models::<S>(rs_pre, store@, q_pre) =~= installed_views(
                done@,
            ) + react_seq_models::<S>(installed_views(installed@), store@, queue@));
        }
    }
    proof {
        assert(installed_views(installed@).len() == 0);
        assert(react_seq_models::<S>(installed_views(installed@), store@, queue@)
            =~= Seq::<InstalledModel<S::V>>::empty());
        assert(react_seq_models::<S>(rs0, store@, q0) =~= installed_views(done@));
    }
    let mut taken = done;
    core::mem::swap(installed, &mut taken);
}

} // verus!

verus! {

/// One whole tick of the reactive layer: a read-only scheduler pass over
/// every installed reaction, followed by the flush that applies the queued
/// mutations. The two phases never interleave, which is what keeps every
/// change check of one pass consistent regardless of evaluation order.
pub fn run_pass<S: ReactiveSystem<In = (), Out = ()>>(
    store: &mut Store,
    installed: &mut Vec<Installed<S>>,
)
    requires
        old(store)@.wf(),
        old(store).tick < u64::MAX,
        forall|i: int|
            0 <= i < old(installed)@.len() ==> (#[trigger] old(installed)@[i]).reaction.inv()
                && S::initialized(old(installed)@[i].reaction@.system),
        react_seq_req::<S>(
            installed_views(old(installed)@),
            old(store)@,
            QueueModel { ops: Seq::empty(), next_entity: old(store).next_entity },
        ),
    ensures
        ({
            let q0 = QueueModel { ops: Seq::empty(), next_entity: old(store).next_entity };
            let rs0 = installed_views(old(installed)@);
            &&& installed_views(final(installed)@) == react_seq_models::<S>(rs0, old(store)@, q0)
            &&& final(store)@ == crate::commands::flush_model(
                old(store)@,
                react_seq_queue::<S>(rs0, old(store)@, q0),
            )
            &&& final(store)@.wf()
            &&& forall|i: int|
                0 <= i < final(installed)@.len() ==> (#[trigger] final(installed)@[i]).reaction.inv()
                    && S::initialized(final(installed)@[i].reaction@.system)
        }),
{
    let mut queue = CommandQueue::new(store);
    proof {
        assert(queue@ == (QueueModel { ops: Seq::empty(), next_entity: store.next_entity }));
    }
    react(store, installed, &mut queue);
    store.apply(&mut queue);
}

} // verus!
