//! The built-in reactive capabilities: resource reads, coarse record
//! queries, fine-grained subscription queries, and composite pairs.

use crate::store::{rows_of, EntityId, KindId, Marker, RecordRow, Store, StoreModel};
use crate::system::ReactiveSystemParam;
use crate::Lookup;
use vstd::prelude::*;

verus! {

/// A capability over one global resource: reports changed when the
/// resource's marker advanced since the last check.
#[derive(Clone, Copy, Debug, PartialEq, Eq, Structural)]
pub struct Res {
    pub kind: KindId,
}

impl ReactiveSystemParam for Res {
    type State = Marker;

    type Item = Lookup;

    open spec fn state_inv(&self, st: Marker) -> bool {
        true
    }

    open spec fn init_spec(&self) -> Marker {
        0
    }

    open spec fn changed_spec(&self, st: Marker, store: StoreModel) -> bool {
        store.resource_changed_since(self.kind, st)
    }

    open spec fn checked_spec(&self, st: Marker, store: StoreModel) -> Marker {
        store.tick
    }

    open spec fn item_spec(&self, st: Marker, store: StoreModel, entity: EntityId) -> Lookup {
        match store.res(self.kind) {
            Some(r) => Lookup::Found(r.value),
            None => Lookup::Missing,
        }
    }

    open spec fn got_spec(&self, st: Marker, store: StoreModel, entity: EntityId) -> Marker {
        st
    }

    fn init(&self) -> (st: Marker) {
        0
    }

    fn is_changed(&self, store: &Store, st: &mut Marker) -> (r: bool) {
        let r = store.resource_changed(self.kind, *st);
        *st = store.tick;
        r
    }

    fn get(&self, store: &Store, st: &mut Marker, entity: EntityId) -> (item: Lookup) {
        match store.lookup_resource(self.kind) {
            Some(r) => Lookup::Found(r.value),
            None => Lookup::Missing,
        }
    }
}

/// A coarse query capability over one record kind: reports changed when any
/// record of that kind changed since the last check, whether or not a prior
/// read used it; a read materializes every matching row.
#[derive(Clone, Copy, Debug, PartialEq, Eq, Structural)]
pub struct Query {
    pub kind: KindId,
}

impl ReactiveSystemParam for Query {
    type State = Marker;

    type Item = Vec<RecordRow>;

    open spec fn state_inv(&self, st: Marker) -> bool {
        true
    }

    open spec fn init_spec(&self) -> Marker {
        0
    }

    open spec fn changed_spec(&self, st: Marker, store: StoreModel) -> bool {
        store.kind_changed_since(self.kind, st)
    }

    open spec fn checked_spec(&self, st: Marker, store: StoreModel) -> Marker {
        store.tick
    }

    open spec fn item_spec(&self, st: Marker, store: StoreModel, entity: EntityId) -> Seq<
        RecordRow,
    > {
        rows_of(store.records, self.kind)
    }

    open spec fn got_spec(&self, st: Marker, store: StoreModel, entity: EntityId) -> Marker {
        st
    }

    fn init(&self) -> (st: Marker) {
        0
    }

    fn is_changed(&self, store: &Store, st: &mut Marker) -> (r: bool) {
        let r = store.kind_changed(self.kind, *st);
        *st = store.tick;
        r
    }

    fn get(&self, store: &Store, st: &mut Marker, entity: EntityId) -> (item: Vec<RecordRow>) {
        store.rows_of_kind(self.kind)
    }
}

/// The persistent state of a fine-grained subscription query: the marker of
/// the last check, and the entities consulted so far.
#[derive(Debug)]
pub struct ReactiveQueryState {
    pub last: Marker,
    pub entities: Vec<EntityId>,
}

/// The model of a [`ReactiveQueryState`].
pub struct ReactiveQueryModel {
    pub last: Marker,
    pub entities: Seq<EntityId>,
}

impl View for ReactiveQueryState {
    type V = ReactiveQueryModel;

    open spec fn view(&self) -> ReactiveQueryModel {
        ReactiveQueryModel { last: self.last, entities: self.entities@ }
    }
}

/// Whether any subscribed entity's record of kind `k` changed after `last`.
pub open spec fn any_subscribed_changed(
    st: ReactiveQueryModel,
    k: KindId,
    store: StoreModel,
) -> bool {
    exists|j: int|
        0 <= j < st.entities.len() && store.record_changed_since(
            #[trigger] st.entities[j],
            k,
            st.last,
        )
}

/// A fine-grained subscription query over one record kind: it tracks exactly
/// which entities a computation consulted, and reports changed only if one of
/// those specific records changed — or vacuously, while nothing has been
/// consulted yet, which forces every computation to run at least once.
#[derive(Clone, Copy, Debug, PartialEq, Eq, Structural)]
pub struct ReactiveQuery {
    pub kind: KindId,
}

impl ReactiveSystemParam for ReactiveQuery {
    type State = ReactiveQueryState;

    type Item = Lookup;

    open spec fn state_inv(&self, st: ReactiveQueryState) -> bool {
        true
    }

    open spec fn init_spec(&self) -> ReactiveQueryModel {
        ReactiveQueryModel { last: 0, entities: Seq::empty() }
    }

    open spec fn changed_spec(&self, st: ReactiveQueryModel, store: StoreModel) -> bool {
        st.entities.len() == 0 || any_subscribed_changed(st, self.kind, store)
    }

    open spec fn checked_spec(&self, st: ReactiveQueryModel, store: StoreModel) -> ReactiveQueryModel {
        ReactiveQueryModel { last: store.tick, entities: st.entities }
    }

    open spec fn item_spec(
        &self,
        st: ReactiveQueryModel,
        store: StoreModel,
        entity: EntityId,
    ) -> Lookup {
        match store.rec(entity, self.kind) {
            Some(r) => Lookup::Found(r.value),
            None => Lookup::Missing,
        }
    }

    open spec fn got_spec(
        &self,
        st: ReactiveQueryModel,
        store: StoreModel,
        entity: EntityId,
    ) -> ReactiveQueryModel {
        ReactiveQueryModel {
            last: st.last,
            entities: if st.entities.contains(entity) {
                st.entities
            } else {
                st.entities.push(entity)
            },
        }
    }

    fn init(&self) -> (st: ReactiveQueryState) {
        let st = ReactiveQueryState { last: 0, entities: Vec::new() };
        proof {
            assert(st@.entities =~= Seq::<EntityId>::empty());
        }
        st
    }

    #[verifier::loop_isolation(false)]
    fn is_changed(&self, store: &Store, st: &mut ReactiveQueryState) -> (r: bool) {
        let mut found = false;
        let mut j: usize = 0;
        while j < st.entities.len()
            invariant
                j <= st.entities@.len(),
                found ==> any_subscribed_changed(old(st)@, self.kind, store@),
                !found ==> forall|i: int|
                    0 <= i < j ==> !store@.record_changed_since(
                        #[trigger] st.entities@[i],
                        self.kind,
                        st.last,
                    ),
                st.entities@ == old(st)@.entities,
                st.last == old(st)@.last,
            decreases st.entities@.len() - j,
        {
            let e = st.entities[j];
            if store.record_changed(e, self.kind, st.last) {
                found = true;
            }
            j = j + 1;
        }
        let empty = st.entities.len() == 0;
        st.last = store.tick;
        empty || found
    }

    /// Subscribe `entity` and read its record; a missing or non-matching
    /// entity is a recoverable failure, never an abort.
    #[verifier::loop_isolation(false)]
    fn get(&self, store: &Store, st: &mut ReactiveQueryState, entity: EntityId) -> (item:
        Lookup) {
        let mut present = false;
        let mut j: usize = 0;
        while j < st.entities.len()
            invariant
                j <= st.entities@.len(),
                present ==> st.entities@.contains(entity),
                !present ==> forall|i: int| 0 <= i < j ==> st.entities@[i] != entity,
                st.entities@ == old(st)@.entities,
                st.last == old(st)@.last,
            decreases st.entities@.len() - j,
        {
            if st.entities[j] == entity {
                present = true;
            }
            j = j + 1;
        }
        if !present {
            proof {
                assert(!st.entities@.contains(entity));
            }
            st.entities.push(entity);
        }
        match store.lookup_record(entity, self.kind) {
            Some(r) => Lookup::Found(r.value),
            None => Lookup::Missing,
        }
    }
}

/// A composite capability: a pair of capabilities checked left to right,
/// reporting changed when either member does, and read member-wise.
impl<P1: ReactiveSystemParam, P2: ReactiveSystemParam> ReactiveSystemParam for (P1, P2) {
    type State = (P1::State, P2::State);

    type Item = (P1::Item, P2::Item);

    open spec fn state_inv(&self, st: (P1::State, P2::State)) -> bool {
        self.0.state_inv(st.0) && self.1.state_inv(st.1)
    }

    open spec fn init_spec(&self) -> (<P1::State as View>::V, <P2::State as View>::V) {
        (self.0.init_spec(), self.1.init_spec())
    }

    open spec fn changed_spec(
        &self,
        st: (<P1::State as View>::V, <P2::State as View>::V),
        store: StoreModel,
    ) -> bool {
        self.0.changed_spec(st.0, store) || self.1.changed_spec(st.1, store)
    }

    open spec fn checked_spec(
        &self,
        st: (<P1::State as View>::V, <P2::State as View>::V),
        store: StoreModel,
    ) -> (<P1::State as View>::V, <P2::State as View>::V) {
        (self.0.checked_spec(st.0, store), self.1.checked_spec(st.1, store))
    }

    open spec fn item_spec(
        &self,
        st: (<P1::State as View>::V, <P2::State as View>::V),
        store: StoreModel,
        entity: EntityId,
    ) -> (<P1::Item as View>::V, <P2::Item as View>::V) {
        (self.0.item_spec(st.0, store, entity), self.1.item_spec(st.1, store, entity))
    }

    open spec fn got_spec(
        &self,
        st: (<P1::State as View>::V, <P2::State as View>::V),
        store: StoreModel,
        entity: EntityId,
    ) -> (<P1::State as View>::V, <P2::State as View>::V) {
        (self.0.got_spec(st.0, store, entity), self.1.got_spec(st.1, store, entity))
    }

    fn init(&self) -> (st: (P1::State, P2::State)) {
        (self.0.init(), self.1.init())
    }

    fn is_changed(&self, store: &Store, st: &mut (P1::State, P2::State)) -> (r: bool) {
        // both members are checked: change checks are read-only, so no
        // short-circuit is needed
        let r1 = self.0.is_changed(store, &mut st.0);
        let r2 = self.1.is_changed(store, &mut st.1);
        r1 || r2
    }

    fn get(&self, store: &Store, st: &mut (P1::State, P2::State), entity: EntityId) -> (item: (
        P1::Item,
        P2::Item,
    )) {
        (self.0.get(store, &mut st.0, entity), self.1.get(store, &mut st.1, entity))
    }
}

} // verus!
