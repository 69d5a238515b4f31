//! The modeled entity-record store that the reactive engine runs against.
//!
//! The host data store is consumed through a narrow interface: entities are
//! opaque identifiers, records and resources are integer values stamped with a
//! monotonically increasing change marker. This module models exactly that
//! surface as plain data, so that change detection and the scheduler can be
//! specified and verified over it.

use vstd::prelude::*;

verus! {

/// Opaque identifier of an entity in the store.
pub type EntityId = u64;

/// Identifier of a record (component) or resource kind.
pub type KindId = u32;

/// A monotonically increasing change marker ("tick").
pub type Marker = u64;

/// One record value inside a bundle: a kind together with its value.
#[derive(Clone, Copy, Debug, PartialEq, Eq, Structural)]
pub struct RecordVal {
    pub kind: KindId,
    pub value: i64,
}

/// A record attached to an entity, stamped with the marker of its last write.
#[derive(Clone, Copy, Debug, PartialEq, Eq, Structural)]
pub struct Record {
    pub entity: EntityId,
    pub kind: KindId,
    pub value: i64,
    pub changed_at: Marker,
}

/// A global singleton value, stamped with the marker of its last write.
#[derive(Clone, Copy, Debug, PartialEq, Eq, Structural)]
pub struct ResourceSlot {
    pub kind: KindId,
    pub value: i64,
    pub changed_at: Marker,
}

/// An immutable group of record values inserted onto or removed from an
/// entity as a unit.
#[derive(Debug)]
pub struct Bundle {
    pub items: Vec<RecordVal>,
}

impl View for Bundle {
    type V = Seq<RecordVal>;

    open spec fn view(&self) -> Seq<RecordVal> {
        self.items@
    }
}

impl Bundle {
    /// An empty bundle.
    pub fn new() -> (b: Bundle)
        ensures
            b@ == Seq::<RecordVal>::empty(),
    {
        Bundle { items: Vec::new() }
    }

    /// Append one record value to the bundle.
    pub fn push(&mut self, kind: KindId, value: i64)
        ensures
            final(self)@ == old(self)@.push(RecordVal { kind, value }),
    {
        self.items.push(RecordVal { kind, value });
    }

    /// A bundle with a single record value.
    pub fn single(kind: KindId, value: i64) -> (b: Bundle)
        ensures
            b@ == seq![RecordVal { kind, value }],
    {
        let mut items: Vec<RecordVal> = Vec::new();
        items.push(RecordVal { kind, value });
        let b = Bundle { items };
        assert(b@ =~= seq![RecordVal { kind, value }]);
        b
    }

    /// A copy of this bundle.
    pub fn duplicate(&self) -> (b: Bundle)
        ensures
            b@ == self@,
    {
        let mut items: Vec<RecordVal> = Vec::new();
        let mut i: usize = 0;
        while i < self.items.len()
            invariant
                i <= self.items.len(),
                items@ == self.items@.take(i as int),
            decreases self.items.len() - i,
        {
            items.push(self.items[i]);
            assert(self.items@.take(i + 1 as int) =~= self.items@.take(i as int).push(self.items@[i as int]));
            i = i + 1;
        }
        assert(items@ =~= self.items@);
        Bundle { items }
    }

    /// The kinds of the records in this bundle, in order.
    pub fn kinds(&self) -> (ks: Vec<KindId>)
        ensures
            ks@ == kinds_of(self@),
    {
        let mut ks: Vec<KindId> = Vec::new();
        let mut i: usize = 0;
        while i < self.items.len()
            invariant
                i <= self.items.len(),
                ks@ == kinds_of(self.items@.take(i as int)),
            decreases self.items.len() - i,
        {
            ks.push(self.items[i].kind);
            assert(self.items@.take(i + 1 as int) =~= self.items@.take(i as int).push(self.items@[i as int]));
            assert(kinds_of(self.items@.take(i + 1 as int)) =~= kinds_of(self.items@.take(i as int)).push(self.items@[i as int].kind));
            i = i + 1;
        }
        assert(self.items@.take(self.items@.len() as int) =~= self.items@);
        ks
    }
}

/// The kinds of a sequence of record values, in order.
pub open spec fn kinds_of(items: Seq<RecordVal>) -> Seq<KindId> {
    items.map_values(|rv: RecordVal| rv.kind)
}

/// The mathematical model of a [`Store`]: the same data, as sequences.
pub struct StoreModel {
    pub records: Seq<Record>,
    pub resources: Seq<ResourceSlot>,
    pub tick: Marker,
    pub next_entity: EntityId,
}

/// The first record with the given entity and kind, if any.
pub open spec fn find_record(rs: Seq<Record>, e: EntityId, k: KindId) -> Option<Record>
    decreases rs.len(),
{
    if rs.len() == 0 {
        None
    } else if rs[0].entity == e && rs[0].kind == k {
        Some(rs[0])
    } else {
        find_record(rs.drop_first(), e, k)
    }
}

/// The first resource slot with the given kind, if any.
pub open spec fn find_resource(xs: Seq<ResourceSlot>, k: KindId) -> Option<ResourceSlot>
    decreases xs.len(),
{
    if xs.len() == 0 {
        None
    } else if xs[0].kind == k {
        Some(xs[0])
    } else {
        find_resource(xs.drop_first(), k)
    }
}

/// No two records share an entity and kind.
pub open spec fn records_nodup(rs: Seq<Record>) -> bool {
    forall|i: int, j: int|
        0 <= i < j < rs.len() ==> !(rs[i].entity == rs[j].entity && rs[i].kind == rs[j].kind)
}

/// No two resource slots share a kind.
pub open spec fn resources_nodup(xs: Seq<ResourceSlot>) -> bool {
    forall|i: int, j: int| 0 <= i < j < xs.len() ==> xs[i].kind != xs[j].kind
}

impl StoreModel {
    /// Well-formedness: unique keys, stamps bounded by the current tick,
    /// entities bounded by the allocation counter.
    pub open spec fn wf(&self) -> bool {
        &&& records_nodup(self.records)
        &&& resources_nodup(self.resources)
        &&& forall|i: int|
            0 <= i < self.records.len() ==> (#[trigger] self.records[i]).changed_at <= self.tick
                && self.records[i].entity < self.next_entity
        &&& forall|i: int|
            0 <= i < self.resources.len() ==> (#[trigger] self.resources[i]).changed_at <= self.tick
    }

    /// The record attached to `e` of kind `k`, if any.
    pub open spec fn rec(&self, e: EntityId, k: KindId) -> Option<Record> {
        find_record(self.records, e, k)
    }

    /// The resource of kind `k`, if any.
    pub open spec fn res(&self, k: KindId) -> Option<ResourceSlot> {
        find_resource(self.resources, k)
    }

    /// Whether any record of kind `k` changed strictly after marker `m`.
    pub open spec fn kind_changed_since(&self, k: KindId, m: Marker) -> bool {
        exists|i: int|
            0 <= i < self.records.len() && (#[trigger] self.records[i]).kind == k
                && self.records[i].changed_at > m
    }

    /// Whether the record attached to `e` of kind `k` changed strictly after
    /// marker `m`. A missing record counts as unchanged.
    pub open spec fn record_changed_since(&self, e: EntityId, k: KindId, m: Marker) -> bool {
        match self.rec(e, k) {
            Some(r) => r.changed_at > m,
            None => false,
        }
    }

    /// Whether the resource of kind `k` changed strictly after marker `m`.
    pub open spec fn resource_changed_since(&self, k: KindId, m: Marker) -> bool {
        match self.res(k) {
            Some(r) => r.changed_at > m,
            None => false,
        }
    }
}

/// The entity-record store: records and resources with change markers, the
/// current tick, and the fresh-entity counter.
#[derive(Debug)]
pub struct Store {
    pub records: Vec<Record>,
    pub resources: Vec<ResourceSlot>,
    pub tick: Marker,
    pub next_entity: EntityId,
}

impl View for Store {
    type V = StoreModel;

    open spec fn view(&self) -> StoreModel {
        StoreModel {
            records: self.records@,
            resources: self.resources@,
            tick: self.tick,
            next_entity: self.next_entity,
        }
    }
}

// ------------------------------------------------------------------
// Lemmas about record lookup
// ------------------------------------------------------------------

/// A successful lookup returns a record with the requested key that is a
/// member of the sequence.
pub proof fn lemma_find_record_some(rs: Seq<Record>, e: EntityId, k: KindId, r: Record)
    requires
        find_record(rs, e, k) == Some(r),
    ensures
        r.entity == e,
        r.kind == k,
        exists|i: int| 0 <= i < rs.len() && rs[i] == r,
    decreases rs.len(),
{
    if rs.len() == 0 {
    } else if rs[0].entity == e && rs[0].kind == k {
        assert(rs[0] == r);
    } else {
        lemma_find_record_some(rs.drop_first(), e, k, r);
        let i = choose|i: int| 0 <= i < rs.drop_first().len() && rs.drop_first()[i] == r;
        assert(rs[i + 1] == r);
    }
}

/// Resource analogue of [`lemma_find_record_some`].
pub proof fn lemma_find_resource_some(xs: Seq<ResourceSlot>, k: KindId, r: ResourceSlot)
    requires
        find_resource(xs, k) == Some(r),
    ensures
        r.kind == k,
        exists|i: int| 0 <= i < xs.len() && xs[i] == r,
    decreases xs.len(),
{
    if xs.len() == 0 {
    } else if xs[0].kind == k {
        assert(xs[0] == r);
    } else {
        lemma_find_resource_some(xs.drop_first(), k, r);
        let i = choose|i: int| 0 <= i < xs.drop_first().len() && xs.drop_first()[i] == r;
        assert(xs[i + 1] == r);
    }
}

/// Unfolding lookup over a sequence with an explicit head.
pub proof fn lemma_find_record_cons(r: Record, rest: Seq<Record>, e2: EntityId, k2: KindId)
    ensures
        find_record(seq![r] + rest, e2, k2) == (if r.entity == e2 && r.kind == k2 {
            Some(r)
        } else {
            find_record(rest, e2, k2)
        }),
{
    let s = seq![r] + rest;
    assert(s[0] == r);
    assert(s.drop_first() =~= rest);
}

/// Resource analogue of [`lemma_find_record_cons`].
pub proof fn lemma_find_resource_cons(r: ResourceSlot, rest: Seq<ResourceSlot>, k2: KindId)
    ensures
        find_resource(seq![r] + rest, k2) == (if r.kind == k2 {
            Some(r)
        } else {
            find_resource(rest, k2)
        }),
{
    let s = seq![r] + rest;
    assert(s[0] == r);
    assert(s.drop_first() =~= rest);
}

// ------------------------------------------------------------------
// Upserting one record
// ------------------------------------------------------------------

/// The sequence after writing value `v` for `(e, k)` stamped `stamp`:
/// overwrite the existing record of that key, or append a new one.
pub open spec fn upsert(rs: Seq<Record>, e: EntityId, k: KindId, v: i64, stamp: Marker) -> Seq<
    Record,
>
    decreases rs.len(),
{
    let fresh = Record { entity: e, kind: k, value: v, changed_at: stamp };
    if rs.len() == 0 {
        seq![fresh]
    } else if rs[0].entity == e && rs[0].kind == k {
        seq![fresh] + rs.drop_first()
    } else {
        seq![rs[0]] + upsert(rs.drop_first(), e, k, v, stamp)
    }
}

/// What `upsert` does: it writes the requested key, leaves every other key
/// unchanged, keeps keys unique, and introduces no record besides the written
/// one.
pub proof fn lemma_upsert(rs: Seq<Record>, e: EntityId, k: KindId, v: i64, stamp: Marker)
    requires
        records_nodup(rs),
    ensures
        records_nodup(upsert(rs, e, k, v, stamp)),
        find_record(upsert(rs, e, k, v, stamp), e, k) == Some(
            Record { entity: e, kind: k, value: v, changed_at: stamp },
        ),
        forall|e2: EntityId, k2: KindId|
            !(e2 == e && k2 == k) ==> #[trigger] find_record(upsert(rs, e, k, v, stamp), e2, k2)
                == find_record(rs, e2, k2),
        forall|i: int|
            0 <= i < upsert(rs, e, k, v, stamp).len() ==> (#[trigger] upsert(
                rs,
                e,
                k,
                v,
                stamp,
            )[i] == Record { entity: e, kind: k, value: v, changed_at: stamp } || rs.contains(
                upsert(rs, e, k, v, stamp)[i],
            )),
    decreases rs.len(),
{
    let fresh = Record { entity: e, kind: k, value: v, changed_at: stamp };
    let out = upsert(rs, e, k, v, stamp);
    if rs.len() == 0 {
        assert(out =~= seq![fresh] + Seq::<Record>::empty());
        lemma_find_record_cons(fresh, Seq::<Record>::empty(), e, k);
        assert forall|e2: EntityId, k2: KindId| !(e2 == e && k2 == k) implies #[trigger] find_record(
            out,
            e2,
            k2,
        ) == find_record(rs, e2, k2) by {
            lemma_find_record_cons(fresh, Seq::<Record>::empty(), e2, k2);
        }
    } else if rs[0].entity == e && rs[0].kind == k {
        let tail = rs.drop_first();
        assert(out =~= seq![fresh] + tail);
        assert(rs =~= seq![rs[0]] + tail);
        assert(forall|i: int| 1 <= i < out.len() ==> out[i] == rs[i]);
        lemma_find_record_cons(fresh, tail, e, k);
        assert forall|e2: EntityId, k2: KindId| !(e2 == e && k2 == k) implies #[trigger] find_record(
            out,
            e2,
            k2,
        ) == find_record(rs, e2, k2) by {
            lemma_find_record_cons(fresh, tail, e2, k2);
            lemma_find_record_cons(rs[0], tail, e2, k2);
        }
        assert(records_nodup(out));
        assert(forall|i: int| 0 <= i < out.len() ==> (out[i] == fresh || rs.contains(out[i])));
    } else {
        let tail = rs.drop_first();
        assert(records_nodup(tail)) by {
            assert(forall|x: int, y: int|
                0 <= x < y < tail.len() ==> tail[x] == rs[x + 1] && tail[y] == rs[y + 1]);
        }
        lemma_upsert(tail, e, k, v, stamp);
        let sub = upsert(tail, e, k, v, stamp);
        assert(out =~= seq![rs[0]] + sub);
        assert(rs =~= seq![rs[0]] + tail);
        lemma_find_record_cons(rs[0], sub, e, k);
        assert forall|e2: EntityId, k2: KindId| !(e2 == e && k2 == k) implies #[trigger] find_record(
            out,
            e2,
            k2,
        ) == find_record(rs, e2, k2) by {
            lemma_find_record_cons(rs[0], sub, e2, k2);
            lemma_find_record_cons(rs[0], tail, e2, k2);
        }
        // membership: elements of `out` are the head, the fresh record, or tail members
        assert(forall|i: int| 0 <= i < tail.len() ==> rs.contains(tail[i])) by {
            assert(forall|i: int| 0 <= i < tail.len() ==> tail[i] == rs[i + 1]);
        }
        assert forall|i: int| 0 <= i < out.len() implies (#[trigger] out[i] == fresh
            || rs.contains(out[i])) by {
            if i == 0 {
                assert(rs.contains(out[0])) by {
                    assert(out[0] == rs[0]);
                }
            } else {
                assert(out[i] == sub[i - 1]);
            }
        }
        // unique keys: the head's key is absent from `sub`
        assert(forall|i: int|
            0 <= i < tail.len() ==> !((#[trigger] tail[i]).entity == rs[0].entity && tail[i].kind
                == rs[0].kind)) by {
            assert(forall|i: int| 0 <= i < tail.len() ==> tail[i] == rs[i + 1]);
        }
        assert forall|i: int|
            0 <= i < sub.len() implies !((#[trigger] sub[i]).entity == rs[0].entity && sub[i].kind
            == rs[0].kind) by {
            if sub[i] == fresh {
            } else {
                assert(tail.contains(sub[i]));
            }
        }
        assert(records_nodup(out)) by {
            assert(forall|i: int| 1 <= i < out.len() ==> out[i] == sub[i - 1]);
        }
    }
}

/// Resource analogue of [`upsert`].
pub open spec fn upsert_resource(xs: Seq<ResourceSlot>, k: KindId, v: i64, stamp: Marker) -> Seq<
    ResourceSlot,
>
    decreases xs.len(),
{
    let fresh = ResourceSlot { kind: k, value: v, changed_at: stamp };
    if xs.len() == 0 {
        seq![fresh]
    } else if xs[0].kind == k {
        seq![fresh] + xs.drop_first()
    } else {
        seq![xs[0]] + upsert_resource(xs.drop_first(), k, v, stamp)
    }
}

/// Resource analogue of [`lemma_upsert`].
pub proof fn lemma_upsert_resource(xs: Seq<ResourceSlot>, k: KindId, v: i64, stamp: Marker)
    requires
        resources_nodup(xs),
    ensures
        resources_nodup(upsert_resource(xs, k, v, stamp)),
        find_resource(upsert_resource(xs, k, v, stamp), k) == Some(
            ResourceSlot { kind: k, value: v, changed_at: stamp },
        ),
        forall|k2: KindId|
            k2 != k ==> #[trigger] find_resource(upsert_resource(xs, k, v, stamp), k2)
                == find_resource(xs, k2),
        forall|i: int|
            0 <= i < upsert_resource(xs, k, v, stamp).len() ==> (#[trigger] upsert_resource(
                xs,
                k,
                v,
                stamp,
            )[i] == ResourceSlot { kind: k, value: v, changed_at: stamp } || xs.contains(
                upsert_resource(xs, k, v, stamp)[i],
            )),
    decreases xs.len(),
{
    let fresh = ResourceSlot { kind: k, value: v, changed_at: stamp };
    let out = upsert_resource(xs, k, v, stamp);
    if xs.len() == 0 {
        assert(out =~= seq![fresh] + Seq::<ResourceSlot>::empty());
        lemma_find_resource_cons(fresh, Seq::<ResourceSlot>::empty(), k);
        assert forall|k2: KindId| k2 != k implies #[trigger] find_resource(out, k2)
            == find_resource(xs, k2) by {
            lemma_find_resource_cons(fresh, Seq::<ResourceSlot>::empty(), k2);
        }
    } else if xs[0].kind == k {
        let tail = xs.drop_first();
        assert(out =~= seq![fresh] + tail);
        assert(xs =~= seq![xs[0]] + tail);
        assert(forall|i: int| 1 <= i < out.len() ==> out[i] == xs[i]);
        lemma_find_resource_cons(fresh, tail, k);
        assert forall|k2: KindId| k2 != k implies #[trigger] find_resource(out, k2)
            == find_resource(xs, k2) by {
            lemma_find_resource_cons(fresh, tail, k2);
            lemma_find_resource_cons(xs[0], tail, k2);
        }
        assert(resources_nodup(out));
        assert(forall|i: int| 0 <= i < out.len() ==> (out[i] == fresh || xs.contains(out[i])));
    } else {
        let tail = xs.drop_first();
        assert(resources_nodup(tail)) by {
            assert(forall|x: int, y: int|
                0 <= x < y < tail.len() ==> tail[x] == xs[x + 1] && tail[y] == xs[y + 1]);
        }
        lemma_upsert_resource(tail, k, v, stamp);
        let sub = upsert_resource(tail, k, v, stamp);
        assert(out =~= seq![xs[0]] + sub);
        assert(xs =~= seq![xs[0]] + tail);
        lemma_find_resource_cons(xs[0], sub, k);
        assert forall|k2: KindId| k2 != k implies #[trigger] find_resource(out, k2)
            == find_resource(xs, k2) by {
            lemma_find_resource_cons(xs[0], sub, k2);
            lemma_find_resource_cons(xs[0], tail, k2);
        }
        assert(forall|i: int| 0 <= i < tail.len() ==> xs.contains(tail[i])) by {
            assert(forall|i: int| 0 <= i < tail.len() ==> tail[i] == xs[i + 1]);
        }
        assert forall|i: int| 0 <= i < out.len() implies (#[trigger] out[i] == fresh
            || xs.contains(out[i])) by {
            if i == 0 {
                assert(xs.contains(out[0])) by {
                    assert(out[0] == xs[0]);
                }
            } else {
                assert(out[i] == sub[i - 1]);
            }
        }
        assert(forall|i: int| 0 <= i < tail.len() ==> (#[trigger] tail[i]).kind != xs[0].kind) by {
            assert(forall|i: int| 0 <= i < tail.len() ==> tail[i] == xs[i + 1]);
        }
        assert forall|i: int| 0 <= i < sub.len() implies (#[trigger] sub[i]).kind != xs[0].kind by {
            if sub[i] == fresh {
            } else {
                assert(tail.contains(sub[i]));
            }
        }
        assert(resources_nodup(out)) by {
            assert(forall|i: int| 1 <= i < out.len() ==> out[i] == sub[i - 1]);
        }
    }
}

} // verus!

verus! {

// ------------------------------------------------------------------
// Locating records by scanning
// ------------------------------------------------------------------

/// Lookup returns the record at the first matching index.
pub proof fn lemma_find_record_first(rs: Seq<Record>, e: EntityId, k: KindId, i: int)
    requires
        0 <= i < rs.len(),
        rs[i].entity == e,
        rs[i].kind == k,
        forall|j: int| 0 <= j < i ==> !((#[trigger] rs[j]).entity == e && rs[j].kind == k),
    ensures
        find_record(rs, e, k) == Some(rs[i]),
    decreases i,
{
    if i == 0 {
    } else {
        let tail = rs.drop_first();
        assert(forall|j: int| 0 <= j < tail.len() ==> tail[j] == rs[j + 1]);
        lemma_find_record_first(tail, e, k, i - 1);
    }
}

/// If no index matches, lookup fails.
pub proof fn lemma_find_record_absent(rs: Seq<Record>, e: EntityId, k: KindId)
    requires
        forall|j: int| 0 <= j < rs.len() ==> !((#[trigger] rs[j]).entity == e && rs[j].kind == k),
    ensures
        find_record(rs, e, k) is None,
    decreases rs.len(),
{
    if rs.len() == 0 {
    } else {
        let tail = rs.drop_first();
        assert(forall|j: int| 0 <= j < tail.len() ==> tail[j] == rs[j + 1]);
        lemma_find_record_absent(tail, e, k);
    }
}

/// Resource analogue of [`lemma_find_record_first`].
pub proof fn lemma_find_resource_first(xs: Seq<ResourceSlot>, k: KindId, i: int)
    requires
        0 <= i < xs.len(),
        xs[i].kind == k,
        forall|j: int| 0 <= j < i ==> (#[trigger] xs[j]).kind != k,
    ensures
        find_resource(xs, k) == Some(xs[i]),
    decreases i,
{
    if i == 0 {
    } else {
        let tail = xs.drop_first();
        assert(forall|j: int| 0 <= j < tail.len() ==> tail[j] == xs[j + 1]);
        lemma_find_resource_first(tail, k, i - 1);
    }
}

/// Resource analogue of [`lemma_find_record_absent`].
pub proof fn lemma_find_resource_absent(xs: Seq<ResourceSlot>, k: KindId)
    requires
        forall|j: int| 0 <= j < xs.len() ==> (#[trigger] xs[j]).kind != k,
    ensures
        find_resource(xs, k) is None,
    decreases xs.len(),
{
    if xs.len() == 0 {
    } else {
        let tail = xs.drop_first();
        assert(forall|j: int| 0 <= j < tail.len() ==> tail[j] == xs[j + 1]);
        lemma_find_resource_absent(tail, k);
    }
}

// ------------------------------------------------------------------
// Upsert as an index update or an append
// ------------------------------------------------------------------

/// When index `i` is the first match, upsert is an update at `i`.
pub proof fn lemma_upsert_is_update(
    rs: Seq<Record>,
    e: EntityId,
    k: KindId,
    v: i64,
    stamp: Marker,
    i: int,
)
    requires
        0 <= i < rs.len(),
        rs[i].entity == e,
        rs[i].kind == k,
        forall|j: int| 0 <= j < i ==> !((#[trigger] rs[j]).entity == e && rs[j].kind == k),
    ensures
        upsert(rs, e, k, v, stamp) == rs.update(
            i,
            Record { entity: e, kind: k, value: v, changed_at: stamp },
        ),
    decreases i,
{
    let fresh = Record { entity: e, kind: k, value: v, changed_at: stamp };
    if i == 0 {
        assert(upsert(rs, e, k, v, stamp) =~= rs.update(0, fresh));
    } else {
        let tail = rs.drop_first();
        assert(forall|j: int| 0 <= j < tail.len() ==> tail[j] == rs[j + 1]);
        lemma_upsert_is_update(tail, e, k, v, stamp, i - 1);
        assert(upsert(rs, e, k, v, stamp) =~= rs.update(i, fresh));
    }
}

/// When no index matches, upsert is an append.
pub proof fn lemma_upsert_is_push(rs: Seq<Record>, e: EntityId, k: KindId, v: i64, stamp: Marker)
    requires
        forall|j: int| 0 <= j < rs.len() ==> !((#[trigger] rs[j]).entity == e && rs[j].kind == k),
    ensures
        upsert(rs, e, k, v, stamp) == rs.push(
            Record { entity: e, kind: k, value: v, changed_at: stamp },
        ),
    decreases rs.len(),
{
    let fresh = Record { entity: e, kind: k, value: v, changed_at: stamp };
    if rs.len() == 0 {
        assert(upsert(rs, e, k, v, stamp) =~= rs.push(fresh));
    } else {
        let tail = rs.drop_first();
        assert(forall|j: int| 0 <= j < tail.len() ==> tail[j] == rs[j + 1]);
        lemma_upsert_is_push(tail, e, k, v, stamp);
        assert(upsert(rs, e, k, v, stamp) =~= rs.push(fresh));
    }
}

/// Resource analogue of [`lemma_upsert_is_update`].
pub proof fn lemma_upsert_resource_is_update(
    xs: Seq<ResourceSlot>,
    k: KindId,
    v: i64,
    stamp: Marker,
    i: int,
)
    requires
        0 <= i < xs.len(),
        xs[i].kind == k,
        forall|j: int| 0 <= j < i ==> (#[trigger] xs[j]).kind != k,
    ensures
        upsert_resource(xs, k, v, stamp) == xs.update(
            i,
            ResourceSlot { kind: k, value: v, changed_at: stamp },
        ),
    decreases i,
{
    let fresh = ResourceSlot { kind: k, value: v, changed_at: stamp };
    if i == 0 {
        assert(upsert_resource(xs, k, v, stamp) =~= xs.update(0, fresh));
    } else {
        let tail = xs.drop_first();
        assert(forall|j: int| 0 <= j < tail.len() ==> tail[j] == xs[j + 1]);
        lemma_upsert_resource_is_update(tail, k, v, stamp, i - 1);
        assert(upsert_resource(xs, k, v, stamp) =~= xs.update(i, fresh));
    }
}

/// Resource analogue of [`lemma_upsert_is_push`].
pub proof fn lemma_upsert_resource_is_push(xs: Seq<ResourceSlot>, k: KindId, v: i64, stamp: Marker)
    requires
        forall|j: int| 0 <= j < xs.len() ==> (#[trigger] xs[j]).kind != k,
    ensures
        upsert_resource(xs, k, v, stamp) == xs.push(
            ResourceSlot { kind: k, value: v, changed_at: stamp },
        ),
    decreases xs.len(),
{
    let fresh = ResourceSlot { kind: k, value: v, changed_at: stamp };
    if xs.len() == 0 {
        assert(upsert_resource(xs, k, v, stamp) =~= xs.push(fresh));
    } else {
        let tail = xs.drop_first();
        assert(forall|j: int| 0 <= j < tail.len() ==> tail[j] == xs[j + 1]);
        lemma_upsert_resource_is_push(tail, k, v, stamp);
        assert(upsert_resource(xs, k, v, stamp) =~= xs.push(fresh));
    }
}

} // verus!

verus! {

// ------------------------------------------------------------------
// Removing records
// ------------------------------------------------------------------

/// Whether removal aimed at entity `e` (all kinds, or the kinds in `ks`)
/// takes the record `r` out.
pub open spec fn removal_hits(r: Record, e: EntityId, ks: Seq<KindId>, all: bool) -> bool {
    r.entity == e && (all || ks.contains(r.kind))
}

/// The sequence after removing from entity `e` either every record (`all`)
/// or the records whose kind is listed in `ks`.
pub open spec fn remove_records(rs: Seq<Record>, e: EntityId, ks: Seq<KindId>, all: bool) -> Seq<
    Record,
>
    decreases rs.len(),
{
    if rs.len() == 0 {
        rs
    } else {
        let rest = remove_records(rs.drop_first(), e, ks, all);
        if removal_hits(rs[0], e, ks, all) {
            rest
        } else {
            seq![rs[0]] + rest
        }
    }
}

/// What removal does: the targeted keys are gone, every other key is
/// unchanged, keys stay unique, and no new record appears.
pub proof fn lemma_remove_records(rs: Seq<Record>, e: EntityId, ks: Seq<KindId>, all: bool)
    requires
        records_nodup(rs),
    ensures
        records_nodup(remove_records(rs, e, ks, all)),
        forall|e2: EntityId, k2: KindId|
            #[trigger] find_record(remove_records(rs, e, ks, all), e2, k2) == (if e2 == e && (all
                || ks.contains(k2)) {
                None::<Record>
            } else {
                find_record(rs, e2, k2)
            }),
        forall|i: int|
            0 <= i < remove_records(rs, e, ks, all).len() ==> rs.contains(
                #[trigger] remove_records(rs, e, ks, all)[i],
            ),
    decreases rs.len(),
{
    let out = remove_records(rs, e, ks, all);
    if rs.len() == 0 {
    } else {
        let tail = rs.drop_first();
        assert(forall|i: int| 0 <= i < tail.len() ==> tail[i] == rs[i + 1]);
        assert(records_nodup(tail));
        lemma_remove_records(tail, e, ks, all);
        let rest = remove_records(tail, e, ks, all);
        assert(rs =~= seq![rs[0]] + tail);
        assert(forall|i: int| 0 <= i < tail.len() ==> rs.contains(tail[i]));
        assert(forall|i: int| 0 <= i < rest.len() ==> rs.contains(rest[i]));
        if removal_hits(rs[0], e, ks, all) {
            assert(out == rest);
            assert forall|e2: EntityId, k2: KindId| true implies #[trigger] find_record(
                out,
                e2,
                k2,
            ) == (if e2 == e && (all || ks.contains(k2)) {
                None::<Record>
            } else {
                find_record(rs, e2, k2)
            }) by {
                lemma_find_record_cons(rs[0], tail, e2, k2);
                if !(e2 == e && (all || ks.contains(k2))) {
                    // the removed head cannot carry a key that removal spares
                    assert(!(rs[0].entity == e2 && rs[0].kind == k2));
                }
            }
        } else {
            assert(out =~= seq![rs[0]] + rest);
            assert forall|e2: EntityId, k2: KindId| true implies #[trigger] find_record(
                out,
                e2,
                k2,
            ) == (if e2 == e && (all || ks.contains(k2)) {
                None::<Record>
            } else {
                find_record(rs, e2, k2)
            }) by {
                lemma_find_record_cons(rs[0], rest, e2, k2);
                lemma_find_record_cons(rs[0], tail, e2, k2);
                if rs[0].entity == e2 && rs[0].kind == k2 {
                    // a key equal to the spared head is never a removed key
                    assert(!(e2 == e && (all || ks.contains(k2))));
                }
            }
            assert forall|i: int| 0 <= i < out.len() implies rs.contains(#[trigger] out[i]) by {
                if i == 0 {
                    assert(out[0] == rs[0]);
                    assert(rs.contains(rs[0]));
                } else {
                    assert(out[i] == rest[i - 1]);
                }
            }
            // unique keys: the head's key is absent from the rest
            assert(forall|i: int|
                0 <= i < tail.len() ==> !((#[trigger] tail[i]).entity == rs[0].entity
                    && tail[i].kind == rs[0].kind));
            assert forall|i: int|
                0 <= i < rest.len() implies !((#[trigger] rest[i]).entity == rs[0].entity
                && rest[i].kind == rs[0].kind) by {
                assert(tail.contains(rest[i]));
            }
            assert(records_nodup(out)) by {
                assert(forall|i: int| 1 <= i < out.len() ==> out[i] == rest[i - 1]);
            }
        }
    }
}

// ------------------------------------------------------------------
// Inserting a bundle
// ------------------------------------------------------------------

/// The sequence after writing every record value of `items` onto entity `e`,
/// in order, each stamped `stamp`.
pub open spec fn insert_bundle(
    rs: Seq<Record>,
    e: EntityId,
    items: Seq<RecordVal>,
    stamp: Marker,
) -> Seq<Record>
    decreases items.len(),
{
    if items.len() == 0 {
        rs
    } else {
        insert_bundle(
            upsert(rs, e, items[0].kind, items[0].value, stamp),
            e,
            items.drop_first(),
            stamp,
        )
    }
}

/// The value a bundle assigns to kind `k`: the last item of that kind wins.
pub open spec fn bundle_lookup(items: Seq<RecordVal>, k: KindId) -> Option<i64>
    decreases items.len(),
{
    if items.len() == 0 {
        None
    } else {
        let rest = bundle_lookup(items.drop_first(), k);
        if rest is Some {
            rest
        } else if items[0].kind == k {
            Some(items[0].value)
        } else {
            None
        }
    }
}

/// What inserting a bundle does: each kind the bundle assigns is written with
/// its assigned value, every other key is unchanged, keys stay unique, and
/// every new record carries the entity and the stamp.
pub proof fn lemma_insert_bundle(rs: Seq<Record>, e: EntityId, items: Seq<RecordVal>, stamp: Marker)
    requires
        records_nodup(rs),
    ensures
        records_nodup(insert_bundle(rs, e, items, stamp)),
        forall|e2: EntityId, k2: KindId|
            #[trigger] find_record(insert_bundle(rs, e, items, stamp), e2, k2) == (match
                bundle_lookup(items, k2) {
                Some(v2) => if e2 == e {
                    Some(Record { entity: e, kind: k2, value: v2, changed_at: stamp })
                } else {
                    find_record(rs, e2, k2)
                },
                None => find_record(rs, e2, k2),
            }),
        forall|i: int|
            0 <= i < insert_bundle(rs, e, items, stamp).len() ==> ((#[trigger] insert_bundle(
                rs,
                e,
                items,
                stamp,
            )[i]).entity == e && insert_bundle(rs, e, items, stamp)[i].changed_at == stamp
                || rs.contains(insert_bundle(rs, e, items, stamp)[i])),
    decreases items.len(),
{
    let out = insert_bundle(rs, e, items, stamp);
    if items.len() == 0 {
    } else {
        let head = items[0];
        let rest_items = items.drop_first();
        let fresh = Record { entity: e, kind: head.kind, value: head.value, changed_at: stamp };
        let mid = upsert(rs, e, head.kind, head.value, stamp);
        lemma_upsert(rs, e, head.kind, head.value, stamp);
        lemma_insert_bundle(mid, e, rest_items, stamp);
        assert(out == insert_bundle(mid, e, rest_items, stamp));
        assert forall|e2: EntityId, k2: KindId| true implies #[trigger] find_record(out, e2, k2)
            == (match bundle_lookup(items, k2) {
            Some(v2) => if e2 == e {
                Some(Record { entity: e, kind: k2, value: v2, changed_at: stamp })
            } else {
                find_record(rs, e2, k2)
            },
            None => find_record(rs, e2, k2),
        }) by {
            if bundle_lookup(rest_items, k2) is Some {
            } else if head.kind == k2 {
                if e2 == e {
                    assert(find_record(mid, e2, k2) == Some(fresh));
                } else {
                    assert(find_record(mid, e2, k2) == find_record(rs, e2, k2));
                }
            } else {
                assert(find_record(mid, e2, k2) == find_record(rs, e2, k2));
            }
        }
        assert forall|i: int| 0 <= i < out.len() implies ((#[trigger] out[i]).entity == e
            && out[i].changed_at == stamp || rs.contains(out[i])) by {
            if out[i].entity == e && out[i].changed_at == stamp {
            } else {
                assert(mid.contains(out[i]));
                let j = choose|j: int| 0 <= j < mid.len() && mid[j] == out[i];
                assert(mid[j] == fresh || rs.contains(mid[j]));
            }
        }
    }
}

} // verus!

verus! {

use crate::Error;

/// One row of a coarse query: an entity together with its record value.
#[derive(Clone, Copy, Debug, PartialEq, Eq, Structural)]
pub struct RecordRow {
    pub entity: EntityId,
    pub value: i64,
}

/// The rows of every record of kind `k`, in store order.
pub open spec fn rows_of(rs: Seq<Record>, k: KindId) -> Seq<RecordRow>
    decreases rs.len(),
{
    if rs.len() == 0 {
        Seq::empty()
    } else {
        let rest = rows_of(rs.drop_first(), k);
        if rs[0].kind == k {
            seq![RecordRow { entity: rs[0].entity, value: rs[0].value }] + rest
        } else {
            rest
        }
    }
}

/// Write value `v` for key `(e, k)` stamped `stamp` into a record vector.
#[verifier::loop_isolation(false)]
pub(crate) fn upsert_record_vec(records: &mut Vec<Record>, e: EntityId, k: KindId, v: i64, stamp: Marker)
    ensures
        final(records)@ == upsert(old(records)@, e, k, v, stamp),
{
    let ghost orig = records@;
    let fresh = Record { entity: e, kind: k, value: v, changed_at: stamp };
    let mut i: usize = 0;
    while i < records.len()
        invariant
            i <= orig.len(),
            records@ == orig,
            orig == old(records)@,
            forall|j: int| 0 <= j < i ==> !((#[trigger] orig[j]).entity == e && orig[j].kind == k),
        decreases orig.len() - i,
    {
        let r = records[i];
        if r.entity == e && r.kind == k {
            records.set(i, fresh);
            proof {
                lemma_upsert_is_update(orig, e, k, v, stamp, i as int);
            }
            return ;
        }
        i = i + 1;
    }
    records.push(fresh);
    proof {
        lemma_upsert_is_push(orig, e, k, v, stamp);
    }
}

/// Resource analogue of [`upsert_record_vec`].
#[verifier::loop_isolation(false)]
pub(crate) fn upsert_resource_vec(resources: &mut Vec<ResourceSlot>, k: KindId, v: i64, stamp: Marker)
    ensures
        final(resources)@ == upsert_resource(old(resources)@, k, v, stamp),
{
    let ghost orig = resources@;
    let fresh = ResourceSlot { kind: k, value: v, changed_at: stamp };
    let mut i: usize = 0;
    while i < resources.len()
        invariant
            i <= orig.len(),
            resources@ == orig,
            orig == old(resources)@,
            forall|j: int| 0 <= j < i ==> (#[trigger] orig[j]).kind != k,
        decreases orig.len() - i,
    {
        let r = resources[i];
        if r.kind == k {
            resources.set(i, fresh);
            proof {
                lemma_upsert_resource_is_update(orig, k, v, stamp, i as int);
            }
            return ;
        }
        i = i + 1;
    }
    resources.push(fresh);
    proof {
        lemma_upsert_resource_is_push(orig, k, v, stamp);
    }
}

impl Store {
    /// An empty store at tick zero.
    pub fn new() -> (s: Store)
        ensures
            s@ == (StoreModel {
                records: Seq::<Record>::empty(),
                resources: Seq::<ResourceSlot>::empty(),
                tick: 0,
                next_entity: 0,
            }),
            s@.wf(),
    {
        let s = Store { records: Vec::new(), resources: Vec::new(), tick: 0, next_entity: 0 };
        proof {
            assert(s@.records =~= Seq::<Record>::empty());
            assert(s@.resources =~= Seq::<ResourceSlot>::empty());
        }
        s
    }

    /// Reserve a fresh entity identifier.
    pub fn alloc_entity(&mut self) -> (e: EntityId)
        requires
            old(self).next_entity < u64::MAX,
        ensures
            e == old(self).next_entity,
            final(self)@ == (StoreModel {
                next_entity: (old(self).next_entity + 1) as u64,
                ..old(self)@
            }),
            old(self)@.wf() ==> final(self)@.wf(),
    {
        let e = self.next_entity;
        self.next_entity = self.next_entity + 1;
        e
    }

    /// A host write: set the record of kind `kind` on `entity` to `value`,
    /// advancing the tick and stamping the record with it.
    pub fn set_record(&mut self, entity: EntityId, kind: KindId, value: i64)
        requires
            old(self)@.wf(),
            old(self).tick < u64::MAX,
            entity < old(self).next_entity,
        ensures
            final(self)@ == (StoreModel {
                tick: (old(self).tick + 1) as u64,
                records: upsert(
                    old(self)@.records,
                    entity,
                    kind,
                    value,
                    (old(self).tick + 1) as u64,
                ),
                ..old(self)@
            }),
            final(self)@.wf(),
            final(self)@.rec(entity, kind) == Some(
                Record { entity, kind, value, changed_at: (old(self).tick + 1) as u64 },
            ),
            forall|e2: EntityId, k2: KindId|
                !(e2 == entity && k2 == kind) ==> #[trigger] final(self)@.rec(e2, k2) == old(
                    self,
                )@.rec(e2, k2),
    {
        let ghost orig = self@;
        self.tick = self.tick + 1;
        let stamp = self.tick;
        upsert_record_vec(&mut self.records, entity, kind, value, stamp);
        proof {
            lemma_upsert(orig.records, entity, kind, value, stamp);
            let out = self@.records;
            assert forall|i: int| 0 <= i < out.len() implies (#[trigger] out[i]).changed_at
                <= self.tick && out[i].entity < self.next_entity by {
                let fresh = Record { entity, kind, value, changed_at: stamp };
                if out[i] == fresh {
                } else {
                    assert(orig.records.contains(out[i]));
                    let j = choose|j: int| 0 <= j < orig.records.len() && orig.records[j] == out[i];
                }
            }
        }
    }

    /// A host write: set the resource of kind `kind` to `value`, advancing
    /// the tick and stamping the slot with it.
    pub fn set_resource(&mut self, kind: KindId, value: i64)
        requires
            old(self)@.wf(),
            old(self).tick < u64::MAX,
        ensures
            final(self)@ == (StoreModel {
                tick: (old(self).tick + 1) as u64,
                resources: upsert_resource(
                    old(self)@.resources,
                    kind,
                    value,
                    (old(self).tick + 1) as u64,
                ),
                ..old(self)@
            }),
            final(self)@.wf(),
            final(self)@.res(kind) == Some(
                ResourceSlot { kind, value, changed_at: (old(self).tick + 1) as u64 },
            ),
            forall|k2: KindId|
                k2 != kind ==> #[trigger] final(self)@.res(k2) == old(self)@.res(k2),
    {
        let ghost orig = self@;
        self.tick = self.tick + 1;
        let stamp = self.tick;
        upsert_resource_vec(&mut self.resources, kind, value, stamp);
        proof {
            lemma_upsert_resource(orig.resources, kind, value, stamp);
            let out = self@.resources;
            assert forall|i: int| 0 <= i < out.len() implies (#[trigger] out[i]).changed_at
                <= self.tick by {
                let fresh = ResourceSlot { kind, value, changed_at: stamp };
                if out[i] == fresh {
                } else {
                    assert(orig.resources.contains(out[i]));
                    let j = choose|j: int|
                        0 <= j < orig.resources.len() && orig.resources[j] == out[i];
                }
            }
        }
    }

    /// The record attached to `e` of kind `k`, if any.
    #[verifier::loop_isolation(false)]
pub fn lookup_record(&self, e: EntityId, k: KindId) -> (r: Option<Record>)
        ensures
            r == self@.rec(e, k),
    {
        let mut i: usize = 0;
        while i < self.records.len()
            invariant
                i <= self.records@.len(),
                forall|j: int|
                    0 <= j < i ==> !((#[trigger] self.records@[j]).entity == e
                        && self.records@[j].kind == k),
            decreases self.records@.len() - i,
        {
            let r = self.records[i];
            if r.entity == e && r.kind == k {
                proof {
                    lemma_find_record_first(self.records@, e, k, i as int);
                }
                return Some(r);
            }
            i = i + 1;
        }
        proof {
            lemma_find_record_absent(self.records@, e, k);
        }
        None
    }

    /// The resource of kind `k`, if any.
    #[verifier::loop_isolation(false)]
pub fn lookup_resource(&self, k: KindId) -> (r: Option<ResourceSlot>)
        ensures
            r == self@.res(k),
    {
        let mut i: usize = 0;
        while i < self.resources.len()
            invariant
                i <= self.resources@.len(),
                forall|j: int| 0 <= j < i ==> (#[trigger] self.resources@[j]).kind != k,
            decreases self.resources@.len() - i,
        {
            let r = self.resources[i];
            if r.kind == k {
                proof {
                    lemma_find_resource_first(self.resources@, k, i as int);
                }
                return Some(r);
            }
            i = i + 1;
        }
        proof {
            lemma_find_resource_absent(self.resources@, k);
        }
        None
    }

    /// The value of the record of kind `k` on `e`; `NotFound` if absent.
    pub fn record_value(&self, e: EntityId, k: KindId) -> (r: Result<i64, Error>)
        ensures
            r == (match self@.rec(e, k) {
                Some(rr) => Ok::<i64, Error>(rr.value),
                None => Err::<i64, Error>(Error::NotFound),
            }),
    {
        match self.lookup_record(e, k) {
            Some(r) => Ok(r.value),
            None => Err(Error::NotFound),
        }
    }

    /// The value of the resource of kind `k`; `NotFound` if absent.
    pub fn resource_value(&self, k: KindId) -> (r: Result<i64, Error>)
        ensures
            r == (match self@.res(k) {
                Some(rr) => Ok::<i64, Error>(rr.value),
                None => Err::<i64, Error>(Error::NotFound),
            }),
    {
        match self.lookup_resource(k) {
            Some(r) => Ok(r.value),
            None => Err(Error::NotFound),
        }
    }

    /// Whether any record of kind `k` changed strictly after marker `m`.
    #[verifier::loop_isolation(false)]
pub fn kind_changed(&self, k: KindId, m: Marker) -> (r: bool)
        ensures
            r == self@.kind_changed_since(k, m),
    {
        let mut i: usize = 0;
        while i < self.records.len()
            invariant
                i <= self.records@.len(),
                forall|j: int|
                    0 <= j < i ==> !((#[trigger] self.records@[j]).kind == k
                        && self.records@[j].changed_at > m),
            decreases self.records@.len() - i,
        {
            let r = self.records[i];
            if r.kind == k && r.changed_at > m {
                proof {
                    let m0 = self@;
                    assert(m0.records[i as int].kind == k && m0.records[i as int].changed_at > m);
                    assert(m0.kind_changed_since(k, m));
                }
                return true;
            }
            i = i + 1;
        }
        false
    }

    /// Whether the record of kind `k` on `e` changed strictly after `m`.
    pub fn record_changed(&self, e: EntityId, k: KindId, m: Marker) -> (r: bool)
        ensures
            r == self@.record_changed_since(e, k, m),
    {
        match self.lookup_record(e, k) {
            Some(r) => r.changed_at > m,
            None => false,
        }
    }

    /// Whether the resource of kind `k` changed strictly after `m`.
    pub fn resource_changed(&self, k: KindId, m: Marker) -> (r: bool)
        ensures
            r == self@.resource_changed_since(k, m),
    {
        match self.lookup_resource(k) {
            Some(r) => r.changed_at > m,
            None => false,
        }
    }

    /// Every record of kind `k`, as rows, in store order.
    #[verifier::loop_isolation(false)]
pub fn rows_of_kind(&self, k: KindId) -> (rows: Vec<RecordRow>)
        ensures
            rows@ == rows_of(self@.records, k),
    {
        let mut rows: Vec<RecordRow> = Vec::new();
        let mut i: usize = 0;
        proof {
            assert(self.records@.skip(0) =~= self.records@);
        }
        while i < self.records.len()
            invariant
                i <= self.records@.len(),
                rows_of(self.records@, k) == rows@ + rows_of(
                    self.records@.skip(i as int),
                    k,
                ),
            decreases self.records@.len() - i,
        {
            let ghost pre = rows@;
            let ghost s = self.records@.skip(i as int);
            proof {
                assert(s[0] == self.records@[i as int]);
                assert(s.drop_first() =~= self.records@.skip(i as int + 1));
            }
            let r = self.records[i];
            if r.kind == k {
                rows.push(RecordRow { entity: r.entity, value: r.value });
                proof {
                    assert(pre + rows_of(s, k) =~= rows@ + rows_of(
                        self.records@.skip(i as int + 1),
                        k,
                    ));
                }
            } else {
                proof {
                    assert(pre + rows_of(s, k) =~= rows@ + rows_of(
                        self.records@.skip(i as int + 1),
                        k,
                    ));
                }
            }
            i = i + 1;
        }
        proof {
            assert(self.records@.skip(self.records@.len() as int) =~= Seq::<Record>::empty());
            assert(rows@ + rows_of(self.records@.skip(self.records@.len() as int), k) =~= rows@);
        }
        rows
    }
}

} // verus!

verus! {

/// A list of bundles, one per child record an iterating computation produced.
#[derive(Debug)]
pub struct BundleList {
    pub bundles: Vec<Bundle>,
}

impl View for BundleList {
    type V = Seq<Seq<RecordVal>>;

    open spec fn view(&self) -> Seq<Seq<RecordVal>> {
        self.bundles@.map_values(|b: Bundle| b@)
    }
}

impl BundleList {
    /// An empty list.
    pub fn new() -> (l: BundleList)
        ensures
            l@ == Seq::<Seq<RecordVal>>::empty(),
    {
        let l = BundleList { bundles: Vec::new() };
        proof {
            assert(l@ =~= Seq::<Seq<RecordVal>>::empty());
        }
        l
    }

    /// Append one bundle.
    pub fn push(&mut self, b: Bundle)
        ensures
            final(self)@ == old(self)@.push(b@),
    {
        let ghost bv = b@;
        self.bundles.push(b);
        proof {
            assert(self@ =~= old(self)@.push(bv));
        }
    }

    /// The number of bundles.
    pub fn len(&self) -> (n: usize)
        ensures
            n == self@.len(),
    {
        self.bundles.len()
    }
}

} // verus!
