//! Built-in computation bodies: the pure value-producing functions that,
//! paired with a capability, form a computation unit.

use crate::store::{Bundle, BundleList, EntityId, KindId, RecordRow, RecordVal};
use crate::system::{ReactiveSystemParamFunction, Scope};
use crate::Lookup;
use vstd::prelude::*;

verus! {

/// `factor * value + offset`, where a step that leaves the value range
/// collapses to zero.
pub open spec fn scaled(factor: int, v: int, offset: int) -> int {
    let p = factor * v;
    let q = if p < i64::MIN as int || p > i64::MAX as int {
        0int
    } else {
        p
    };
    let s = q + offset;
    if s < i64::MIN as int || s > i64::MAX as int {
        0int
    } else {
        s
    }
}

/// Compute [`scaled`] on machine integers, using a wide intermediate.
pub fn scale_value(factor: i64, v: i64, offset: i64) -> (s: i64)
    ensures
        s as int == scaled(factor as int, v as int, offset as int),
{
    proof {
        assert((factor as int) * (v as int) <= i128::MAX as int && (factor as int) * (v as int)
            >= i128::MIN as int) by (nonlinear_arith)
            requires
                i64::MIN as int <= factor as int <= i64::MAX as int,
                i64::MIN as int <= v as int <= i64::MAX as int,
        ;
    }
    let p: i128 = (factor as i128) * (v as i128);
    let q: i64 = if p < i64::MIN as i128 || p > i64::MAX as i128 {
        0
    } else {
        p as i64
    };
    let s128: i128 = (q as i128) + (offset as i128);
    if s128 < i64::MIN as i128 || s128 > i64::MAX as i128 {
        0
    } else {
        s128 as i64
    }
}

/// A body that derives one record from a read value: it produces a bundle
/// holding `factor * value + offset` under `out_kind`, or an empty bundle on
/// a missed read.
#[derive(Clone, Copy, Debug, PartialEq, Eq, Structural)]
pub struct ScaleBody {
    pub factor: i64,
    pub offset: i64,
    pub out_kind: KindId,
}

impl ReactiveSystemParamFunction<Lookup> for ScaleBody {
    type In = ();

    type Out = Bundle;

    open spec fn out_spec(&self, item: Lookup, input: (), entity: EntityId) -> Seq<RecordVal> {
        match item {
            Lookup::Found(v) => seq![
                RecordVal {
                    kind: self.out_kind,
                    value: scaled(self.factor as int, v as int, self.offset as int) as i64,
                },
            ],
            Lookup::Missing => Seq::empty(),
        }
    }

    fn run(&self, item: Lookup, scope: Scope<()>) -> (out: Bundle) {
        match item {
            Lookup::Found(v) => {
                let s = scale_value(self.factor, v, self.offset);
                Bundle::single(self.out_kind, s)
            },
            Lookup::Missing => Bundle::new(),
        }
    }
}

/// A body that tests a read value against a constant; a missed read counts
/// as unequal.
#[derive(Clone, Copy, Debug, PartialEq, Eq, Structural)]
pub struct EqualsBody {
    pub value: i64,
}

impl ReactiveSystemParamFunction<Lookup> for EqualsBody {
    type In = ();

    type Out = bool;

    open spec fn out_spec(&self, item: Lookup, input: (), entity: EntityId) -> bool {
        match item {
            Lookup::Found(v) => v == self.value,
            Lookup::Missing => false,
        }
    }

    fn run(&self, item: Lookup, scope: Scope<()>) -> (out: bool) {
        match item {
            Lookup::Found(v) => v == self.value,
            Lookup::Missing => false,
        }
    }
}

/// A body that turns every row of a coarse query into one single-record
/// bundle under `out_kind`, in row order.
#[derive(Clone, Copy, Debug, PartialEq, Eq, Structural)]
pub struct PerRowBody {
    pub out_kind: KindId,
}

impl ReactiveSystemParamFunction<Vec<RecordRow>> for PerRowBody {
    type In = ();

    type Out = BundleList;

    open spec fn out_spec(&self, item: Seq<RecordRow>, input: (), entity: EntityId) -> Seq<
        Seq<RecordVal>,
    > {
        item.map_values(
            |row: RecordRow| seq![RecordVal { kind: self.out_kind, value: row.value }],
        )
    }

    #[verifier::loop_isolation(false)]
    fn run(&self, item: Vec<RecordRow>, scope: Scope<()>) -> (out: BundleList) {
        let mut out = BundleList::new();
        let mut i: usize = 0;
        proof {
            assert(out@ =~= item@.take(0).map_values(
                |row: RecordRow| seq![RecordVal { kind: self.out_kind, value: row.value }],
            ));
        }
        while i < item.len()
            invariant
                i <= item@.len(),
                out@ == item@.take(i as int).map_values(
                    |row: RecordRow| seq![RecordVal { kind: self.out_kind, value: row.value }],
                ),
            decreases item@.len() - i,
        {
            let row = item[i];
            out.push(Bundle::single(self.out_kind, row.value));
            proof {
                assert(out@ =~= item@.take(i as int + 1).map_values(
                    |row: RecordRow| seq![RecordVal { kind: self.out_kind, value: row.value }],
                ));
            }
            i = i + 1;
        }
        proof {
            assert(item@.take(item@.len() as int) =~= item@);
        }
        out
    }
}

} // verus!

verus! {

/// `a + b`, where a sum that leaves the value range collapses to zero.
pub open spec fn summed(a: int, b: int) -> int {
    let s = a + b;
    if s < i64::MIN as int || s > i64::MAX as int {
        0int
    } else {
        s
    }
}

/// A body over a composite capability: it derives one record holding the sum
/// of the two read values, or an empty bundle when either read missed.
#[derive(Clone, Copy, Debug, PartialEq, Eq, Structural)]
pub struct SumBody {
    pub out_kind: KindId,
}

impl ReactiveSystemParamFunction<(Lookup, Lookup)> for SumBody {
    type In = ();

    type Out = Bundle;

    open spec fn out_spec(&self, item: (Lookup, Lookup), input: (), entity: EntityId) -> Seq<
        RecordVal,
    > {
        match (item.0, item.1) {
            (Lookup::Found(a), Lookup::Found(b)) => seq![
                RecordVal { kind: self.out_kind, value: summed(a as int, b as int) as i64 },
            ],
            _ => Seq::empty(),
        }
    }

    fn run(&self, item: (Lookup, Lookup), scope: Scope<()>) -> (out: Bundle) {
        match (item.0, item.1) {
            (Lookup::Found(a), Lookup::Found(b)) => {
                let s128: i128 = (a as i128) + (b as i128);
                let s: i64 = if s128 < i64::MIN as i128 || s128 > i64::MAX as i128 {
                    0
                } else {
                    s128 as i64
                };
                Bundle::single(self.out_kind, s)
            },
            _ => Bundle::new(),
        }
    }
}

} // verus!
