//! Combinator stages: computation units that perform the deferred side
//! effects of the built-in combinators. Each is the second half of a
//! pipeline: it consumes the upstream output and queues mutations. Their
//! capabilities (the mutation handle, persistent local cells) never report
//! a change of their own.

use crate::commands::{CommandQueue, OpModel, QueueModel};
use crate::store::{kinds_of, Bundle, BundleList, EntityId, RecordVal, Store, StoreModel};
use crate::system::ReactiveSystem;
use crate::Error;
use vstd::prelude::*;

verus! {

// ------------------------------------------------------------------
// Derive: insert the produced bundle onto the target entity
// ------------------------------------------------------------------

/// The stage behind `derive`: whenever the source ran, overwrite the produced
/// bundle's records on the target entity through the mutation queue.
#[derive(Clone, Copy, Debug)]
pub struct InsertStage {
    pub state: Option<()>,
}

impl InsertStage {
    /// A detached insert stage.
    pub fn new() -> (s: InsertStage)
        ensures
            s.state is None,
            s.inv(),
    {
        InsertStage { state: None }
    }
}

impl View for InsertStage {
    type V = InsertStage;

    open spec fn view(&self) -> InsertStage {
        *self
    }
}

impl ReactiveSystem for InsertStage {
    type In = Bundle;

    type Out = ();

    open spec fn inv(&self) -> bool {
        true
    }

    open spec fn initialized(m: Self::V) -> bool {
        m.state is Some
    }

    open spec fn init_spec(m: Self::V) -> Self::V {
        InsertStage { state: Some(()) }
    }

    open spec fn changed_spec(m: Self::V, store: StoreModel) -> bool {
        false
    }

    open spec fn checked_spec(m: Self::V, store: StoreModel) -> Self::V {
        m
    }

    open spec fn run_req(
        m: Self::V,
        store: StoreModel,
        input: Seq<RecordVal>,
        entity: EntityId,
        queue: QueueModel,
    ) -> bool {
        entity < queue.next_entity
    }

    open spec fn run_out_spec(
        m: Self::V,
        store: StoreModel,
        input: Seq<RecordVal>,
        entity: EntityId,
        queue: QueueModel,
    ) -> () {
        ()
    }

    open spec fn run_state_spec(
        m: Self::V,
        store: StoreModel,
        input: Seq<RecordVal>,
        entity: EntityId,
        queue: QueueModel,
    ) -> Self::V {
        m
    }

    open spec fn run_queue_spec(
        m: Self::V,
        store: StoreModel,
        input: Seq<RecordVal>,
        entity: EntityId,
        queue: QueueModel,
    ) -> QueueModel {
        QueueModel {
            ops: queue.ops.push(OpModel::Insert { entity, items: input }),
            next_entity: queue.next_entity,
        }
    }

    fn init(&mut self) -> (r: Result<(), Error>) {
        match self.state {
            Some(_) => Err(Error::DoubleInit),
            None => {
                self.state = Some(());
                Ok(())
            },
        }
    }

    fn is_changed(&mut self, store: &Store) -> (r: bool) {
        false
    }

    fn run(&mut self, input: Bundle, store: &Store, entity: EntityId, queue: &mut CommandQueue) -> (out:
        ()) {
        queue.push_insert(entity, input);
    }
}

// ------------------------------------------------------------------
// Switch: toggle between two bundles, edge-triggered
// ------------------------------------------------------------------

/// The model of a [`SwitchStage`].
pub struct SwitchModel {
    pub if_items: Seq<RecordVal>,
    pub else_items: Seq<RecordVal>,
    pub state: Option<bool>,
}

/// The operations a switch run queues: a transition removes the departing
/// side's kinds and inserts the arriving side's bundle; a repeated input
/// queues nothing.
pub open spec fn switch_ops(m: SwitchModel, input: bool, entity: EntityId) -> Seq<OpModel> {
    let flag = m.state->Some_0;
    if input && !flag {
        seq![
            OpModel::Remove { entity, kinds: kinds_of(m.else_items) },
            OpModel::Insert { entity, items: m.if_items },
        ]
    } else if !input && flag {
        seq![
            OpModel::Remove { entity, kinds: kinds_of(m.if_items) },
            OpModel::Insert { entity, items: m.else_items },
        ]
    } else {
        Seq::empty()
    }
}

/// The stage behind `switch`: one persistent boolean flag, initially false
/// ("else side active"). A run whose boolean input differs from the flag
/// removes the departing bundle's kinds, inserts the arriving bundle, and
/// flips the flag; a run with the same input queues nothing. The toggle is
/// edge-triggered, never level-triggered.
#[derive(Debug)]
pub struct SwitchStage {
    pub if_bundle: Bundle,
    pub else_bundle: Bundle,
    pub state: Option<bool>,
}

impl SwitchStage {
    /// A detached switch stage over the two bundles.
    pub fn new(if_bundle: Bundle, else_bundle: Bundle) -> (s: SwitchStage)
        ensures
            s@.if_items == if_bundle@,
            s@.else_items == else_bundle@,
            s@.state is None,
            s.inv(),
    {
        SwitchStage { if_bundle, else_bundle, state: None }
    }
}

impl View for SwitchStage {
    type V = SwitchModel;

    open spec fn view(&self) -> SwitchModel {
        SwitchModel {
            if_items: self.if_bundle@,
            else_items: self.else_bundle@,
            state: self.state,
        }
    }
}

impl ReactiveSystem for SwitchStage {
    type In = bool;

    type Out = ();

    open spec fn inv(&self) -> bool {
        true
    }

    open spec fn initialized(m: Self::V) -> bool {
        m.state is Some
    }

    open spec fn init_spec(m: Self::V) -> Self::V {
        SwitchModel { if_items: m.if_items, else_items: m.else_items, state: Some(false) }
    }

    open spec fn changed_spec(m: Self::V, store: StoreModel) -> bool {
        false
    }

    open spec fn checked_spec(m: Self::V, store: StoreModel) -> Self::V {
        m
    }

    open spec fn run_req(
        m: Self::V,
        store: StoreModel,
        input: bool,
        entity: EntityId,
        queue: QueueModel,
    ) -> bool {
        entity < queue.next_entity
    }

    open spec fn run_out_spec(
        m: Self::V,
        store: StoreModel,
        input: bool,
        entity: EntityId,
        queue: QueueModel,
    ) -> () {
        ()
    }

    open spec fn run_state_spec(
        m: Self::V,
        store: StoreModel,
        input: bool,
        entity: EntityId,
        queue: QueueModel,
    ) -> Self::V {
        SwitchModel { if_items: m.if_items, else_items: m.else_items, state: Some(input) }
    }

    open spec fn run_queue_spec(
        m: Self::V,
        store: StoreModel,
        input: bool,
        entity: EntityId,
        queue: QueueModel,
    ) -> QueueModel {
        QueueModel {
            ops: queue.ops + switch_ops(m, input, entity),
            next_entity: queue.next_entity,
        }
    }

    fn init(&mut self) -> (r: Result<(), Error>) {
        match self.state {
            Some(_) => Err(Error::DoubleInit),
            None => {
                self.state = Some(false);
                Ok(())
            },
        }
    }

    fn is_changed(&mut self, store: &Store) -> (r: bool) {
        false
    }

    fn run(&mut self, input: bool, store: &Store, entity: EntityId, queue: &mut CommandQueue) -> (out:
        ()) {
        let flag = self.state.unwrap();
        if input && !flag {
            let ks = self.else_bundle.kinds();
            queue.push_remove(entity, ks);
            let b = self.if_bundle.duplicate();
            queue.push_insert(entity, b);
            self.state = Some(true);
            proof {
                assert(queue@.ops =~= old(queue)@.ops + switch_ops(old(self)@, input, entity));
            }
        } else if !input && flag {
            let ks = self.if_bundle.kinds();
            queue.push_remove(entity, ks);
            let b = self.else_bundle.duplicate();
            queue.push_insert(entity, b);
            self.state = Some(false);
            proof {
                assert(queue@.ops =~= old(queue)@.ops + switch_ops(old(self)@, input, entity));
            }
        } else {
            proof {
                assert(queue@.ops =~= old(queue)@.ops + switch_ops(old(self)@, input, entity));
            }
        }
    }
}

// ------------------------------------------------------------------
// FromIter: fully regenerate a child-record list
// ------------------------------------------------------------------

/// The despawn operations for the previously spawned children, in order.
pub open spec fn despawn_ops(children: Seq<EntityId>) -> Seq<OpModel> {
    children.map_values(|c: EntityId| OpModel::Despawn { entity: c })
}

/// The spawn operations for the produced bundles, reserving consecutive
/// entities from `base`.
pub open spec fn spawn_ops(items: Seq<Seq<RecordVal>>, base: EntityId) -> Seq<OpModel> {
    Seq::new(
        items.len(),
        |i: int| OpModel::Spawn { entity: (base + i) as EntityId, items: items[i] },
    )
}

/// The `n` consecutive entities reserved from `base`.
pub open spec fn fresh_children(base: EntityId, n: nat) -> Seq<EntityId> {
    Seq::new(n, |i: int| (base + i) as EntityId)
}

/// The model of a [`FromIterStage`]: the child list, present once
/// initialized.
pub struct FromIterModel {
    pub children: Option<Seq<EntityId>>,
}

/// The stage behind `from_iter`: a persistent list of previously spawned
/// child entities. Each run despawns every listed child, then spawns one
/// fresh entity per produced bundle and records it. This is full
/// regeneration, not incremental diffing, by design simplification: the cost
/// is proportional to the old children plus the new items on every
/// triggering run.
#[derive(Debug)]
pub struct FromIterStage {
    pub inited: bool,
    pub kids: Vec<EntityId>,
}

impl FromIterStage {
    /// A detached stage with no children.
    pub fn new() -> (s: FromIterStage)
        ensures
            s@.children is None,
            s.inv(),
    {
        FromIterStage { inited: false, kids: Vec::new() }
    }
}

impl View for FromIterStage {
    type V = FromIterModel;

    open spec fn view(&self) -> FromIterModel {
        FromIterModel {
            children: if self.inited {
                Some(self.kids@)
            } else {
                None
            },
        }
    }
}

impl ReactiveSystem for FromIterStage {
    type In = BundleList;

    type Out = ();

    open spec fn inv(&self) -> bool {
        true
    }

    open spec fn initialized(m: Self::V) -> bool {
        m.children is Some
    }

    open spec fn init_spec(m: Self::V) -> Self::V {
        FromIterModel { children: Some(Seq::empty()) }
    }

    open spec fn changed_spec(m: Self::V, store: StoreModel) -> bool {
        false
    }

    open spec fn checked_spec(m: Self::V, store: StoreModel) -> Self::V {
        m
    }

    open spec fn run_req(
        m: Self::V,
        store: StoreModel,
        input: Seq<Seq<RecordVal>>,
        entity: EntityId,
        queue: QueueModel,
    ) -> bool {
        &&& queue.next_entity + input.len() <= u64::MAX
        &&& forall|i: int|
            0 <= i < m.children->Some_0.len() ==> #[trigger] m.children->Some_0[i]
                < queue.next_entity
    }

    open spec fn run_out_spec(
        m: Self::V,
        store: StoreModel,
        input: Seq<Seq<RecordVal>>,
        entity: EntityId,
        queue: QueueModel,
    ) -> () {
        ()
    }

    open spec fn run_state_spec(
        m: Self::V,
        store: StoreModel,
        input: Seq<Seq<RecordVal>>,
        entity: EntityId,
        queue: QueueModel,
    ) -> Self::V {
        FromIterModel { children: Some(fresh_children(queue.next_entity, input.len())) }
    }

    open spec fn run_queue_spec(
        m: Self::V,
        store: StoreModel,
        input: Seq<Seq<RecordVal>>,
        entity: EntityId,
        queue: QueueModel,
    ) -> QueueModel {
        QueueModel {
            ops: queue.ops + despawn_ops(m.children->Some_0) + spawn_ops(input, queue.next_entity),
            next_entity: (queue.next_entity + input.len()) as EntityId,
        }
    }

    fn init(&mut self) -> (r: Result<(), Error>) {
        if self.inited {
            Err(Error::DoubleInit)
        } else {
            self.inited = true;
            self.kids = Vec::new();
            proof {
                assert(self@.children->Some_0 =~= Seq::<EntityId>::empty());
            }
            Ok(())
        }
    }

    fn is_changed(&mut self, store: &Store) -> (r: bool) {
        false
    }

    #[verifier::loop_isolation(false)]
    fn run(&mut self, input: BundleList, store: &Store, entity: EntityId, queue: &mut CommandQueue) -> (out:
        ()) {
        let ghost q0 = queue@;
        let ghost ch0 = self.kids@;
        let ghost base = queue.next_entity;
        // despawn every previously spawned child, in order
        let mut i: usize = 0;
        proof {
            assert(q0.ops + despawn_ops(ch0.take(0)) =~= q0.ops);
        }
        while i < self.kids.len()
            invariant
                i <= ch0.len(),
                self.kids@ == ch0,
                self.inited == old(self).inited,
                queue@.ops == q0.ops + despawn_ops(ch0.take(i as int)),
                queue@.next_entity == base,
                queue@.wf(),
            decreases ch0.len() - i,
        {
            let c = self.kids[i];
            proof {
                assert(old(self)@.children->Some_0 == ch0);
                assert(old(self)@.children->Some_0[i as int] < base);
            }
            queue.push_despawn(c);
            proof {
                assert(despawn_ops(ch0.take(i as int + 1)) =~= despawn_ops(
                    ch0.take(i as int),
                ).push(OpModel::Despawn { entity: ch0[i as int] }));
                assert(queue@.ops =~= q0.ops + despawn_ops(ch0.take(i as int + 1)));
            }
            i = i + 1;
        }
        proof {
            assert(ch0.take(ch0.len() as int) =~= ch0);
        }
        // spawn one fresh entity per produced bundle, in order
        let ghost mid_ops = queue@.ops;
        let mut kids: Vec<EntityId> = Vec::new();
        let mut j: usize = 0;
        proof {
            assert(mid_ops + spawn_ops(input@.take(0), base) =~= mid_ops);
            assert(kids@ =~= fresh_children(base, 0));
        }
        while j < input.bundles.len()
            invariant
                j <= input@.len(),
                queue@.ops == mid_ops + spawn_ops(input@.take(j as int), base),
                queue@.next_entity == base + j,
                queue@.wf(),
                kids@ == fresh_children(base, j as nat),
            decreases input@.len() - j,
        {
            let e = queue.alloc_entity();
            let b = input.bundles[j].duplicate();
            proof {
                assert(b@ == input@[j as int]);
            }
            queue.push_spawn(e, b);
            kids.push(e);
            proof {
                assert(spawn_ops(input@.take(j as int + 1), base) =~= spawn_ops(
                    input@.take(j as int),
                    base,
                ).push(OpModel::Spawn { entity: (base + j) as EntityId, items: input@[j as int] }));
                assert(queue@.ops =~= mid_ops + spawn_ops(input@.take(j as int + 1), base));
                assert(kids@ =~= fresh_children(base, (j + 1) as nat));
            }
            j = j + 1;
        }
        proof {
            assert(input@.take(input@.len() as int) =~= input@);
        }
        self.kids = kids;
        proof {
            assert(queue@.ops =~= q0.ops + despawn_ops(ch0) + spawn_ops(input@, base));
        }
    }
}

} // verus!
