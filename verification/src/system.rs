//! The computation-unit abstraction: a uniform `init` / `is_changed` / `run`
//! contract over the store, plus the capability and body traits that build
//! computation units, and the sequential composition combinator.

use crate::commands::{CommandQueue, QueueModel};
use crate::store::{EntityId, Store, StoreModel};
use crate::Error;
use vstd::prelude::*;

verus! {

/// The execution context handed to a computation body: the entity the run is
/// aimed at, and the upstream input (`()` for a root computation, the
/// upstream output for a combinator stage).
pub struct Scope<T> {
    pub entity: EntityId,
    pub input: T,
}

/// A reactive capability: a typed adapter over one piece of store state,
/// exposing `init`, `is_changed` and `get` together with per-computation
/// persistent state (last-seen markers, subscription sets).
///
/// Separating "check changed" from "read" lets the scheduler decide whether a
/// computation must run without materializing the data it would read.
pub trait ReactiveSystemParam: Sized {
    /// The persistent capability state.
    type State: View;

    /// The plain value a read produces.
    type Item: View;

    /// Invariant of the capability state.
    spec fn state_inv(&self, st: Self::State) -> bool;

    /// The state a fresh initialization produces.
    spec fn init_spec(&self) -> <Self::State as View>::V;

    /// What a change check returns.
    spec fn changed_spec(&self, st: <Self::State as View>::V, store: StoreModel) -> bool;

    /// The state after a change check.
    spec fn checked_spec(
        &self,
        st: <Self::State as View>::V,
        store: StoreModel,
    ) -> <Self::State as View>::V;

    /// What a read aimed at `entity` produces.
    spec fn item_spec(
        &self,
        st: <Self::State as View>::V,
        store: StoreModel,
        entity: EntityId,
    ) -> <Self::Item as View>::V;

    /// The state after a read aimed at `entity`.
    spec fn got_spec(
        &self,
        st: <Self::State as View>::V,
        store: StoreModel,
        entity: EntityId,
    ) -> <Self::State as View>::V;

    /// Allocate the capability state.
    fn init(&self) -> (st: Self::State)
        ensures
            st@ == self.init_spec(),
            self.state_inv(st),
    ;

    /// Whether the observed piece of store state changed since the last check.
    fn is_changed(&self, store: &Store, st: &mut Self::State) -> (r: bool)
        requires
            self.state_inv(*old(st)),
            store@.wf(),
        ensures
            r == self.changed_spec(old(st)@, store@),
            final(st)@ == self.checked_spec(old(st)@, store@),
            self.state_inv(*final(st)),
    ;

    /// Read the observed piece of store state, aimed at `entity`.
    fn get(&self, store: &Store, st: &mut Self::State, entity: EntityId) -> (item: Self::Item)
        requires
            self.state_inv(*old(st)),
            store@.wf(),
        ensures
            item@ == self.item_spec(old(st)@, store@, entity),
            final(st)@ == self.got_spec(old(st)@, store@, entity),
            self.state_inv(*final(st)),
    ;
}

/// A pure computation body over the item a capability read produced: the
/// value-producing half of a computation unit.
pub trait ReactiveSystemParamFunction<Item: View>: Sized {
    /// The upstream input type.
    type In: View;

    /// The output type.
    type Out: View;

    /// What the body returns.
    spec fn out_spec(
        &self,
        item: <Item as View>::V,
        input: <Self::In as View>::V,
        entity: EntityId,
    ) -> <Self::Out as View>::V;

    /// Run the body on the read item, under the given scope.
    fn run(&self, item: Item, scope: Scope<Self::In>) -> (out: Self::Out)
        ensures
            out@ == self.out_spec(item@, scope.input@, scope.entity),
    ;
}

/// A computation unit: the thing the scheduler evaluates and conditionally
/// executes, with a uniform `init` / `is_changed` / `run` contract. Its
/// behaviour is specified over its view (`Self::V`), so state transitions
/// compose in specifications.
///
/// `init` must run exactly once before any evaluation; a second `init` is
/// rejected with [`Error::DoubleInit`] and leaves the state untouched.
/// `is_changed` and `run` require initialization; the scheduler upholds that.
pub trait ReactiveSystem: View + Sized {
    /// The upstream input type (`()` for a root computation).
    type In: View;

    /// The output type.
    type Out: View;

    /// Structural invariant of the executable value.
    spec fn inv(&self) -> bool;

    /// Whether `init` has run.
    spec fn initialized(m: Self::V) -> bool;

    /// The computation after a fresh initialization.
    spec fn init_spec(m: Self::V) -> Self::V;

    /// What a change check returns.
    spec fn changed_spec(m: Self::V, store: StoreModel) -> bool;

    /// The computation after a change check.
    spec fn checked_spec(m: Self::V, store: StoreModel) -> Self::V;

    /// What a run demands of the queue (room to reserve fresh entities, a
    /// target entity the queue knows to be allocated).
    spec fn run_req(
        m: Self::V,
        store: StoreModel,
        input: <Self::In as View>::V,
        entity: EntityId,
        queue: QueueModel,
    ) -> bool;

    /// What a run returns.
    spec fn run_out_spec(
        m: Self::V,
        store: StoreModel,
        input: <Self::In as View>::V,
        entity: EntityId,
        queue: QueueModel,
    ) -> <Self::Out as View>::V;

    /// The computation after a run.
    spec fn run_state_spec(
        m: Self::V,
        store: StoreModel,
        input: <Self::In as View>::V,
        entity: EntityId,
        queue: QueueModel,
    ) -> Self::V;

    /// The deferred-mutation queue after a run.
    spec fn run_queue_spec(
        m: Self::V,
        store: StoreModel,
        input: <Self::In as View>::V,
        entity: EntityId,
        queue: QueueModel,
    ) -> QueueModel;

    /// Allocate the capability state. Initializing twice is rejected and
    /// reported, leaving the computation untouched.
    fn init(&mut self) -> (r: Result<(), Error>)
        requires
            old(self).inv(),
        ensures
            !Self::initialized(old(self)@) ==> r == Ok::<(), Error>(()) && final(self)@
                == Self::init_spec(old(self)@),
            Self::initialized(old(self)@) ==> r == Err::<(), Error>(Error::DoubleInit)
                && final(self)@ == old(self)@,
            final(self).inv(),
            Self::initialized(final(self)@),
    ;

    /// Whether anything within the computation's capability set changed since
    /// the last check.
    fn is_changed(&mut self, store: &Store) -> (r: bool)
        requires
            old(self).inv(),
            Self::initialized(old(self)@),
            store@.wf(),
        ensures
            r == Self::changed_spec(old(self)@, store@),
            final(self)@ == Self::checked_spec(old(self)@, store@),
            final(self).inv(),
            Self::initialized(final(self)@),
    ;

    /// Read the capability and run the body against `entity`, queueing any
    /// writes on `queue`.
    fn run(&mut self, input: Self::In, store: &Store, entity: EntityId, queue: &mut CommandQueue) -> (out:
        Self::Out)
        requires
            old(self).inv(),
            Self::initialized(old(self)@),
            store@.wf(),
            old(queue)@.wf(),
            Self::run_req(old(self)@, store@, input@, entity, old(queue)@),
        ensures
            out@ == Self::run_out_spec(old(self)@, store@, input@, entity, old(queue)@),
            final(self)@ == Self::run_state_spec(old(self)@, store@, input@, entity, old(queue)@),
            final(queue)@ == Self::run_queue_spec(old(self)@, store@, input@, entity, old(queue)@),
            final(self).inv(),
            Self::initialized(final(self)@),
            final(queue)@.wf(),
            final(queue)@.next_entity >= old(queue)@.next_entity,
    ;
}

/// The model of a [`FunctionReactiveSystem`]: the capability descriptor and
/// body as they stand, and the capability state as its view.
pub struct FunctionSystemModel<P, F, StV> {
    pub param: P,
    pub f: F,
    pub state: Option<StV>,
}

/// A computation unit built from one capability and one body, with the
/// capability state allocated lazily by `init`.
pub struct FunctionReactiveSystem<P: ReactiveSystemParam, F> {
    pub param: P,
    pub f: F,
    pub state: Option<P::State>,
}

impl<P: ReactiveSystemParam, F> View for FunctionReactiveSystem<P, F> {
    type V = FunctionSystemModel<P, F, <P::State as View>::V>;

    open spec fn view(&self) -> Self::V {
        FunctionSystemModel {
            param: self.param,
            f: self.f,
            state: match self.state {
                Some(st) => Some(st@),
                None => None,
            },
        }
    }
}

impl<P: ReactiveSystemParam, F: ReactiveSystemParamFunction<P::Item>> FunctionReactiveSystem<P, F> {
    /// A detached computation unit over capability `param` and body `f`.
    pub fn new(param: P, f: F) -> (s: FunctionReactiveSystem<P, F>)
        ensures
            s@.param == param,
            s@.f == f,
            s@.state is None,
            s.inv(),
    {
        FunctionReactiveSystem { param, f, state: None }
    }
}

impl<P: ReactiveSystemParam, F: ReactiveSystemParamFunction<P::Item>> ReactiveSystem
    for FunctionReactiveSystem<P, F> {
    type In = F::In;

    type Out = F::Out;

    open spec fn inv(&self) -> bool {
        match self.state {
            Some(st) => self.param.state_inv(st),
            None => true,
        }
    }

    open spec fn initialized(m: Self::V) -> bool {
        m.state is Some
    }

    open spec fn init_spec(m: Self::V) -> Self::V {
        FunctionSystemModel { param: m.param, f: m.f, state: Some(m.param.init_spec()) }
    }

    open spec fn changed_spec(m: Self::V, store: StoreModel) -> bool {
        m.param.changed_spec(m.state->Some_0, store)
    }

    open spec fn checked_spec(m: Self::V, store: StoreModel) -> Self::V {
        FunctionSystemModel {
            param: m.param,
            f: m.f,
            state: Some(m.param.checked_spec(m.state->Some_0, store)),
        }
    }

    open spec fn run_req(
        m: Self::V,
        store: StoreModel,
        input: <Self::In as View>::V,
        entity: EntityId,
        queue: QueueModel,
    ) -> bool {
        true
    }

    open spec fn run_out_spec(
        m: Self::V,
        store: StoreModel,
        input: <Self::In as View>::V,
        entity: EntityId,
        queue: QueueModel,
    ) -> <Self::Out as View>::V {
        m.f.out_spec(m.param.item_spec(m.state->Some_0, store, entity), input, entity)
    }

    open spec fn run_state_spec(
        m: Self::V,
        store: StoreModel,
        input: <Self::In as View>::V,
        entity: EntityId,
        queue: QueueModel,
    ) -> Self::V {
        FunctionSystemModel {
            param: m.param,
            f: m.f,
            state: Some(m.param.got_spec(m.state->Some_0, store, entity)),
        }
    }

    open spec fn run_queue_spec(
        m: Self::V,
        store: StoreModel,
        input: <Self::In as View>::V,
        entity: EntityId,
        queue: QueueModel,
    ) -> QueueModel {
        queue
    }

    fn init(&mut self) -> (r: Result<(), Error>) {
        match self.state {
            Some(_) => Err(Error::DoubleInit),
            None => {
                self.state = Some(self.param.init());
                Ok(())
            },
        }
    }

    fn is_changed(&mut self, store: &Store) -> (r: bool) {
        let st = self.state.as_mut().unwrap();
        self.param.is_changed(store, st)
    }

    fn run(&mut self, input: Self::In, store: &Store, entity: EntityId, queue: &mut CommandQueue) -> (out:
        Self::Out) {
        let st = self.state.as_mut().unwrap();
        let item = self.param.get(store, st, entity);
        self.f.run(item, Scope { entity, input })
    }
}

/// The model of a [`MapSystem`]: the models of its two stages.
pub struct MapModel<AV, BV> {
    pub a: AV,
    pub b: BV,
}

/// Sequential composition of two computation units: the output of `a` feeds
/// the input of `b`. This is the composition primitive every combinator is
/// built from.
pub struct MapSystem<A, B> {
    pub a: A,
    pub b: B,
}

impl<A: View, B: View> View for MapSystem<A, B> {
    type V = MapModel<A::V, B::V>;

    open spec fn view(&self) -> Self::V {
        MapModel { a: self.a@, b: self.b@ }
    }
}

impl<A, B> MapSystem<A, B> where A: ReactiveSystem, B: ReactiveSystem<In = A::Out> {
    /// Compose `a` before `b`.
    pub fn new(a: A, b: B) -> (m: MapSystem<A, B>)
        ensures
            m@.a == a@,
            m@.b == b@,
            a.inv() && b.inv() && A::initialized(a@) == B::initialized(b@) ==> m.inv(),
    {
        MapSystem { a, b }
    }
}

impl<A, B> ReactiveSystem for MapSystem<A, B> where
    A: ReactiveSystem,
    B: ReactiveSystem<In = A::Out>,
 {
    type In = A::In;

    type Out = B::Out;

    open spec fn inv(&self) -> bool {
        self.a.inv() && self.b.inv() && A::initialized(self.a@) == B::initialized(self.b@)
    }

    open spec fn initialized(m: Self::V) -> bool {
        A::initialized(m.a)
    }

    open spec fn init_spec(m: Self::V) -> Self::V {
        MapModel { a: A::init_spec(m.a), b: B::init_spec(m.b) }
    }

    open spec fn changed_spec(m: Self::V, store: StoreModel) -> bool {
        A::changed_spec(m.a, store) || B::changed_spec(m.b, store)
    }

    open spec fn checked_spec(m: Self::V, store: StoreModel) -> Self::V {
        if A::changed_spec(m.a, store) {
            MapModel { a: A::checked_spec(m.a, store), b: m.b }
        } else {
            MapModel { a: A::checked_spec(m.a, store), b: B::checked_spec(m.b, store) }
        }
    }

    open spec fn run_req(
        m: Self::V,
        store: StoreModel,
        input: <Self::In as View>::V,
        entity: EntityId,
        queue: QueueModel,
    ) -> bool {
        A::run_req(m.a, store, input, entity, queue) && B::run_req(
            m.b,
            store,
            A::run_out_spec(m.a, store, input, entity, queue),
            entity,
            A::run_queue_spec(m.a, store, input, entity, queue),
        )
    }

    open spec fn run_out_spec(
        m: Self::V,
        store: StoreModel,
        input: <Self::In as View>::V,
        entity: EntityId,
        queue: QueueModel,
    ) -> <Self::Out as View>::V {
        B::run_out_spec(
            m.b,
            store,
            A::run_out_spec(m.a, store, input, entity, queue),
            entity,
            A::run_queue_spec(m.a, store, input, entity, queue),
        )
    }

    open spec fn run_state_spec(
        m: Self::V,
        store: StoreModel,
        input: <Self::In as View>::V,
        entity: EntityId,
        queue: QueueModel,
    ) -> Self::V {
        MapModel {
            a: A::run_state_spec(m.a, store, input, entity, queue),
            b: B::run_state_spec(
                m.b,
                store,
                A::run_out_spec(m.a, store, input, entity, queue),
                entity,
                A::run_queue_spec(m.a, store, input, entity, queue),
            ),
        }
    }

    open spec fn run_queue_spec(
        m: Self::V,
        store: StoreModel,
        input: <Self::In as View>::V,
        entity: EntityId,
        queue: QueueModel,
    ) -> QueueModel {
        B::run_queue_spec(
            m.b,
            store,
            A::run_out_spec(m.a, store, input, entity, queue),
            entity,
            A::run_queue_spec(m.a, store, input, entity, queue),
        )
    }

    fn init(&mut self) -> (r: Result<(), Error>) {
        match self.a.init() {
            Ok(()) => {
                let rb = self.b.init();
                assert(rb == Ok::<(), Error>(()));
                Ok(())
            },
            Err(e) => Err(e),
        }
    }

    fn is_changed(&mut self, store: &Store) -> (r: bool) {
        let ra = self.a.is_changed(store);
        if ra {
            true
        } else {
            self.b.is_changed(store)
        }
    }

    fn run(&mut self, input: Self::In, store: &Store, entity: EntityId, queue: &mut CommandQueue) -> (out:
        Self::Out) {
        let mid = self.a.run(input, store, entity, queue);
        self.b.run(mid, store, entity, queue)
    }
}

/// Conversion into a computation unit, mirroring how bodies and capability
/// pairs become schedulable computations.
pub trait IntoReactiveSystem: Sized {
    /// The computation unit this converts into.
    type System: ReactiveSystem;

    /// The model of the computation unit this converts into.
    spec fn into_spec(&self) -> <Self::System as View>::V;

    /// Convert into a computation unit.
    fn into_reactive_system(self) -> (s: Self::System)
        ensures
            s@ == self.into_spec(),
    ;
}

impl<S: ReactiveSystem> IntoReactiveSystem for S {
    type System = S;

    open spec fn into_spec(&self) -> S::V {
        self@
    }

    fn into_reactive_system(self) -> (s: S) {
        self
    }
}

} // verus!
