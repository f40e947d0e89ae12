//! Modelled runtime values, and how a value conforms to a shape.
//!
//! The reflection layer is type-erased: an operation sees a value only
//! through the shape that describes it.  Here such values are modelled
//! explicitly — scalars, fixed-arity composites, and maps as lists of
//! distinct-keyed entries — so the interpreters can be verified against
//! them.

use vstd::prelude::*;

use crate::shape::Def;
use crate::shape::ScalarKind;
use crate::shape::Shape;

verus! {

/// One key/value pair of a map value.
pub struct MapEntry {
    /// The entry's key.
    pub key: Value,
    /// The entry's value.
    pub value: Value,
}

/// A modelled runtime value.
pub enum Value {
    /// The unit value.
    Unit,
    /// A boolean.
    Bool(bool),
    /// An unsigned integer, up to 64 bits wide.
    Unsigned(u64),
    /// A signed integer, up to 64 bits wide.
    Signed(i64),
    /// A text value.
    Text(String),
    /// A composite: one member value per field, in declaration order.
    Tuple(Vec<Value>),
    /// A map: entries in insertion order, with pairwise distinct keys.
    Mapping(Vec<MapEntry>),
}

/// Structural equality of two values; text compares by contents.
pub open spec fn veq(a: Value, b: Value) -> bool
    decreases a,
{
    match (a, b) {
        (Value::Unit, Value::Unit) => true,
        (Value::Bool(x), Value::Bool(y)) => x == y,
        (Value::Unsigned(x), Value::Unsigned(y)) => x == y,
        (Value::Signed(x), Value::Signed(y)) => x == y,
        (Value::Text(x), Value::Text(y)) => x@ == y@,
        (Value::Tuple(xs), Value::Tuple(ys)) => {
            &&& xs.len() == ys.len()
            &&& forall|i: int| 0 <= i < xs.len() ==> veq(#[trigger] xs[i], ys[i])
        },
        (Value::Mapping(xs), Value::Mapping(ys)) => {
            &&& xs.len() == ys.len()
            &&& forall|i: int|
                0 <= i < xs.len() ==> veq(#[trigger] xs[i].key, ys[i].key) && veq(
                    xs[i].value,
                    ys[i].value,
                )
        },
        _ => false,
    }
}

/// Whether a value has the representation a scalar kind calls for.
pub open spec fn scalar_fits(k: ScalarKind, v: Value) -> bool {
    match k {
        ScalarKind::U8 => v matches Value::Unsigned(x) && x <= 0xff,
        ScalarKind::U16 => v matches Value::Unsigned(x) && x <= 0xffff,
        ScalarKind::U32 => v matches Value::Unsigned(x) && x <= 0xffff_ffff,
        ScalarKind::U64 => v matches Value::Unsigned(_),
        ScalarKind::I8 => v matches Value::Signed(x) && -0x80 <= x <= 0x7f,
        ScalarKind::I16 => v matches Value::Signed(x) && -0x8000 <= x <= 0x7fff,
        ScalarKind::I32 => v matches Value::Signed(x) && -0x8000_0000 <= x <= 0x7fff_ffff,
        ScalarKind::I64 => v matches Value::Signed(_),
        ScalarKind::Boolean => v matches Value::Bool(_),
        ScalarKind::Str => v matches Value::Text(_),
        ScalarKind::Nothing => v matches Value::Unit,
    }
}

/// The keys of a map value are pairwise distinct.
pub open spec fn distinct_keys(es: Seq<MapEntry>) -> bool {
    forall|i: int, j: int| 0 <= i < j < es.len() ==> !veq(#[trigger] es[i].key, #[trigger] es[j].key)
}

/// Whether a value conforms to a shape: scalars have the right
/// representation, composites have one conforming member per field, maps
/// have conforming distinct-keyed entries.
pub open spec fn value_fits(s: Shape, v: Value) -> bool
    decreases s,
{
    match s.def {
        Def::Scalar(k) => scalar_fits(k, v),
        Def::Struct(sd) => {
            &&& v matches Value::Tuple(vs)
            &&& vs.len() == sd.fields.len()
            &&& forall|i: int|
                0 <= i < sd.fields.len() ==> value_fits(#[trigger] sd.fields[i].shape, vs[i])
        },
        Def::Mapping(md) => {
            &&& v matches Value::Mapping(es)
            &&& distinct_keys(es@)
            &&& forall|i: int|
                0 <= i < es.len() ==> value_fits(*md.k, (#[trigger] es[i]).key) && value_fits(
                    *md.v,
                    es[i].value,
                )
        },
    }
}

/// Equality of values is reflexive.
pub proof fn lemma_veq_reflexive(a: Value)
    ensures
        veq(a, a),
    decreases a,
{
    match a {
        Value::Tuple(vs) => {
            assert forall|i: int| 0 <= i < vs@.len() implies veq(#[trigger] vs@[i], vs@[i]) by {
                assert(vs == a->Tuple_0);
                assert(decreases_to!(a => a->Tuple_0));
                assert(decreases_to!(vs => vs@[i]));
                assert(decreases_to!(a => vs@[i]));
                lemma_veq_reflexive(vs@[i]);
            }
        },
        Value::Mapping(es) => {
            assert forall|i: int|
                0 <= i < es@.len() implies veq(#[trigger] es@[i].key, es@[i].key) && veq(
                es@[i].value,
                es@[i].value,
            ) by {
                assert(es == a->Mapping_0);
                assert(decreases_to!(a => a->Mapping_0));
                assert(decreases_to!(es => es@[i]));
                assert(decreases_to!(es@[i] => es@[i].key));
                assert(decreases_to!(es@[i] => es@[i].value));
                assert(decreases_to!(a => es@[i].key));
                assert(decreases_to!(a => es@[i].value));
                lemma_veq_reflexive(es@[i].key);
                lemma_veq_reflexive(es@[i].value);
            }
        },
        _ => {},
    }
}

/// Equality of values is symmetric.
pub proof fn lemma_veq_symmetric(a: Value, b: Value)
    ensures
        veq(a, b) == veq(b, a),
    decreases a,
{
    match a {
        Value::Tuple(vs) => {
            if b is Tuple {
                let ws = b->Tuple_0;
                assert forall|i: int|
                    0 <= i < vs@.len() && i < ws@.len() implies veq(#[trigger] vs@[i], ws@[i])
                    == veq(ws@[i], vs@[i]) by {
                    assert(vs == a->Tuple_0);
                    assert(decreases_to!(a => a->Tuple_0));
                    assert(decreases_to!(vs => vs@[i]));
                    assert(decreases_to!(a => vs@[i]));
                    lemma_veq_symmetric(vs@[i], ws@[i]);
                }
            }
        },
        Value::Mapping(es) => {
            if b is Mapping {
                let fs = b->Mapping_0;
                assert forall|i: int|
                    0 <= i < es@.len() && i < fs@.len() implies veq(#[trigger] es@[i].key, fs@[i].key)
                    == veq(fs@[i].key, es@[i].key) && veq(es@[i].value, fs@[i].value) == veq(
                    fs@[i].value,
                    es@[i].value,
                ) by {
                    assert(es == a->Mapping_0);
                    assert(decreases_to!(a => a->Mapping_0));
                    assert(decreases_to!(es => es@[i]));
                    assert(decreases_to!(es@[i] => es@[i].key));
                    assert(decreases_to!(es@[i] => es@[i].value));
                    assert(decreases_to!(a => es@[i].key));
                    assert(decreases_to!(a => es@[i].value));
                    lemma_veq_symmetric(es@[i].key, fs@[i].key);
                    lemma_veq_symmetric(es@[i].value, fs@[i].value);
                }
            }
        },
        _ => {},
    }
}

/// Structural equality, executably: `true` exactly when [`veq`] holds.
pub fn value_eq(a: &Value, b: &Value) -> (r: bool)
    ensures
        r == veq(*a, *b),
    decreases *a,
{
    match a {
        Value::Unit => matches!(b, Value::Unit),
        Value::Bool(x) => match b {
            Value::Bool(y) => *x == *y,
            _ => false,
        },
        Value::Unsigned(x) => match b {
            Value::Unsigned(y) => *x == *y,
            _ => false,
        },
        Value::Signed(x) => match b {
            Value::Signed(y) => *x == *y,
            _ => false,
        },
        Value::Text(x) => match b {
            Value::Text(y) => *x == *y,
            _ => false,
        },
        Value::Tuple(xs) => match b {
            Value::Tuple(ys) => {
                if xs.len() != ys.len() {
                    return false;
                }
                let n: usize = xs.len();
                let mut i: usize = 0;
                let mut same: bool = true;
                while i < n
                    invariant
                        0 <= i <= n,
                        n == xs@.len() == ys@.len(),
                        *a == Value::Tuple(*xs),
                        *b == Value::Tuple(*ys),
                        same == forall|j: int| 0 <= j < i ==> veq(#[trigger] xs@[j], ys@[j]),
                    decreases n - i,
                {
                    proof {
                        assert(*xs == (*a)->Tuple_0);
                        assert(decreases_to!(*a => (*a)->Tuple_0));
                        assert(decreases_to!(*xs => xs@[i as int]));
                        assert(decreases_to!(*a => xs@[i as int]));
                    }
                    if !value_eq(&xs[i], &ys[i]) {
                        same = false;
                    }
                    i = i + 1;
                }
                same
            },
            _ => false,
        },
        Value::Mapping(xs) => match b {
            Value::Mapping(ys) => {
                if xs.len() != ys.len() {
                    return false;
                }
                let n: usize = xs.len();
                let mut i: usize = 0;
                let mut same: bool = true;
                while i < n
                    invariant
                        0 <= i <= n,
                        n == xs@.len() == ys@.len(),
                        *a == Value::Mapping(*xs),
                        *b == Value::Mapping(*ys),
                        same == forall|j: int|
                            0 <= j < i ==> veq(#[trigger] xs@[j].key, ys@[j].key) && veq(
                                xs@[j].value,
                                ys@[j].value,
                            ),
                    decreases n - i,
                {
                    proof {
                        assert(*xs == (*a)->Mapping_0);
                        assert(decreases_to!(*a => (*a)->Mapping_0));
                        assert(decreases_to!(*xs => xs@[i as int]));
                        assert(decreases_to!(xs@[i as int] => xs@[i as int].key));
                        assert(decreases_to!(xs@[i as int] => xs@[i as int].value));
                        assert(decreases_to!(*a => xs@[i as int].key));
                        assert(decreases_to!(*a => xs@[i as int].value));
                    }
                    if !value_eq(&xs[i].key, &ys[i].key) {
                        same = false;
                    } else if !value_eq(&xs[i].value, &ys[i].value) {
                        same = false;
                    }
                    i = i + 1;
                }
                same
            },
            _ => false,
        },
    }
}

} // verus!
