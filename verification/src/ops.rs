//! Interpreters for the value operations an operation table records:
//! equality, ordering, hashing, cloning and default construction.
//!
//! Every interpreter requires the entry it implements to be present —
//! invoking an absent entry is a caller error, so callers check presence
//! first — and dispatches on the shape's structural definition: scalars act
//! on their representation, composites delegate to every member in
//! declaration order.

use vstd::prelude::*;
use vstd::pervasive::unreached;
use vstd::string::StrSliceExecFns;

use crate::shape::Def;
use crate::shape::InvariantRule;
use crate::shape::Field;
use crate::shape::ScalarKind;
use crate::shape::Shape;
use crate::shape::has_clone;
use crate::shape::has_default;
use crate::shape::has_drop;
use crate::shape::has_eq;
use crate::shape::has_hash;
use crate::shape::has_ord;
use crate::shape::has_partial_ord;
use crate::shape::wf_shape;
use crate::vtable::HasherProxy;
use crate::vtable::hash_bytes_spec;
use core::cmp::Ordering;
use crate::value::Value;
use crate::value::value_eq;
use crate::value::value_fits;
use crate::value::veq;

verus! {

/// The member values of a composite value.
pub fn tuple_members<'a>(v: &'a Value) -> (r: &'a Vec<Value>)
    requires
        *v is Tuple,
    ensures
        *r == (*v)->Tuple_0,
{
    match v {
        Value::Tuple(vs) => vs,
        _ => unreached(),
    }
}

/// Equality through a shape's equality entry: members are compared in
/// declaration order, returning `false` the instant a pair differs, with the
/// final member on a dedicated direct-return path.
pub fn eq_value(s: &Shape, a: &Value, b: &Value) -> (r: bool)
    requires
        wf_shape(*s),
        value_fits(*s, *a),
        value_fits(*s, *b),
        has_eq(*s),
    ensures
        r == veq(*a, *b),
    decreases *s,
{
    match &s.def {
        Def::Scalar(_) => value_eq(a, b),
        Def::Struct(sd) => {
            let vs_a = tuple_members(a);
            let vs_b = tuple_members(b);
            let n: usize = sd.fields.len();
            if n == 0 {
                return true;
            }
            let mut i: usize = 0;
            // Compare every member but the last, bailing out on the first
            // difference.
            while i < n - 1
                invariant
                    0 <= i < n,
                    n == sd.fields@.len(),
                    s.def == Def::Struct(*sd),
                    *a == Value::Tuple(*vs_a),
                    *b == Value::Tuple(*vs_b),
                    wf_shape(*s),
                    value_fits(*s, *a),
                    value_fits(*s, *b),
                    has_eq(*s),
                    forall|j: int| 0 <= j < i ==> veq(#[trigger] vs_a@[j], vs_b@[j]),
                decreases n - 1 - i,
            {
                proof {
                    assert(*sd == (*s).def->Struct_0);
                    assert(decreases_to!(*s => (*s).def));
                    assert(decreases_to!((*s).def => (*s).def->Struct_0));
                    assert(decreases_to!(*sd => sd.fields));
                    assert(decreases_to!(sd.fields => sd.fields@[i as int]));
                    assert(decreases_to!(sd.fields@[i as int] => sd.fields@[i as int].shape));
                    assert(decreases_to!(*s => sd.fields@[i as int].shape));
                }
                if !eq_value(&sd.fields[i].shape, &vs_a[i], &vs_b[i]) {
                    return false;
                }
                i = i + 1;
            }
            // The last member: nothing is left to short-circuit against.
            proof {
                assert(*sd == (*s).def->Struct_0);
                assert(decreases_to!(*s => (*s).def));
                assert(decreases_to!((*s).def => (*s).def->Struct_0));
                assert(decreases_to!(*sd => sd.fields));
                assert(decreases_to!(sd.fields => sd.fields@[n - 1]));
                assert(decreases_to!(sd.fields@[n - 1] => sd.fields@[n - 1].shape));
                assert(decreases_to!(*s => sd.fields@[n - 1].shape));
            }
            eq_value(&sd.fields[n - 1].shape, &vs_a[n - 1], &vs_b[n - 1])
        },
        Def::Mapping(_) => unreached(),
    }
}

/// Lexicographic ordering of two character sequences: the first differing
/// position decides; a proper prefix orders before its extension.
pub open spec fn text_cmp_spec(a: Seq<char>, b: Seq<char>) -> Ordering
    decreases a.len(),
{
    if a.len() == 0 && b.len() == 0 {
        Ordering::Equal
    } else if a.len() == 0 {
        Ordering::Less
    } else if b.len() == 0 {
        Ordering::Greater
    } else if a[0] != b[0] {
        if a[0] < b[0] {
            Ordering::Less
        } else {
            Ordering::Greater
        }
    } else {
        text_cmp_spec(a.skip(1), b.skip(1))
    }
}

/// Two character sequences compare equal exactly when they are equal.
pub proof fn lemma_text_cmp_eq(a: Seq<char>, b: Seq<char>)
    ensures
        (text_cmp_spec(a, b) == Ordering::Equal) <==> a == b,
    decreases a.len(),
{
    if a.len() == 0 && b.len() == 0 {
        assert(a =~= b);
    } else if a.len() > 0 && b.len() > 0 && a[0] == b[0] {
        lemma_text_cmp_eq(a.skip(1), b.skip(1));
        if text_cmp_spec(a, b) == Ordering::Equal {
            assert(a.skip(1) == b.skip(1));
            assert(a =~= b) by {
                assert(forall|i: int| 1 <= i < a.len() ==> a.skip(1)[i - 1] == #[trigger] a[i]);
                assert(forall|i: int| 1 <= i < b.len() ==> b.skip(1)[i - 1] == #[trigger] b[i]);
            }
        }
        if a == b {
            assert(a.skip(1) =~= b.skip(1));
        }
    }
}

/// Compare two texts lexicographically.
fn text_cmp(x: &str, y: &str) -> (r: Ordering)
    ensures
        r == text_cmp_spec(x@, y@),
{
    let xn: usize = x.unicode_len();
    let yn: usize = y.unicode_len();
    let mut i: usize = 0;
    proof {
        assert(x@.skip(0) =~= x@);
        assert(y@.skip(0) =~= y@);
    }
    while i < xn && i < yn
        invariant
            0 <= i,
            i <= xn,
            i <= yn,
            xn == x@.len(),
            yn == y@.len(),
            text_cmp_spec(x@, y@) == text_cmp_spec(x@.skip(i as int), y@.skip(i as int)),
        decreases xn - i,
    {
        let cx = x.get_char(i);
        let cy = y.get_char(i);
        proof {
            assert(x@.skip(i as int)[0] == x@[i as int]);
            assert(y@.skip(i as int)[0] == y@[i as int]);
            assert(x@.skip(i as int).skip(1) =~= x@.skip(i + 1));
            assert(y@.skip(i as int).skip(1) =~= y@.skip(i + 1));
        }
        if cx < cy {
            return Ordering::Less;
        }
        if cy < cx {
            return Ordering::Greater;
        }
        i = i + 1;
    }
    proof {
        assert(x@.skip(i as int).len() == xn - i);
        assert(y@.skip(i as int).len() == yn - i);
    }
    if i < yn {
        Ordering::Less
    } else if i < xn {
        Ordering::Greater
    } else {
        Ordering::Equal
    }
}

/// The ordering of two scalar values of one kind: numbers and booleans by
/// magnitude, text lexicographically; the unit value compares equal to
/// itself, as does every mismatched pairing, which no conforming values
/// reach.
pub open spec fn scalar_cmp_spec(a: Value, b: Value) -> Ordering {
    match (a, b) {
        (Value::Bool(x), Value::Bool(y)) => if x == y {
            Ordering::Equal
        } else if !x {
            Ordering::Less
        } else {
            Ordering::Greater
        },
        (Value::Unsigned(x), Value::Unsigned(y)) => if x < y {
            Ordering::Less
        } else if x == y {
            Ordering::Equal
        } else {
            Ordering::Greater
        },
        (Value::Signed(x), Value::Signed(y)) => if x < y {
            Ordering::Less
        } else if x == y {
            Ordering::Equal
        } else {
            Ordering::Greater
        },
        (Value::Text(x), Value::Text(y)) => text_cmp_spec(x@, y@),
        _ => Ordering::Equal,
    }
}

/// The ordering of two values of a shape: scalars compare directly, a
/// composite compares its members lexicographically in declaration order.
pub open spec fn vcmp(s: Shape, a: Value, b: Value) -> Ordering
    decreases s, 0int,
    via vcmp_dec
{
    match s.def {
        Def::Scalar(_) => scalar_cmp_spec(a, b),
        Def::Struct(sd) => vcmp_members(sd.fields, a->Tuple_0@, b->Tuple_0@, 0),
        Def::Mapping(_) => Ordering::Equal,
    }
}

/// Lexicographic comparison of the members from index `i` on.
pub open spec fn vcmp_members(fields: Vec<Field>, va: Seq<Value>, vb: Seq<Value>, i: int) -> Ordering
    decreases fields, fields@.len() - i,
    via vcmp_members_dec
{
    if i < 0 || i >= fields@.len() {
        Ordering::Equal
    } else {
        let c = vcmp(fields@[i].shape, va[i], vb[i]);
        if c == Ordering::Equal {
            vcmp_members(fields, va, vb, i + 1)
        } else {
            c
        }
    }
}

#[via_fn]
proof fn vcmp_dec(s: Shape, a: Value, b: Value) {
    match s.def {
        Def::Struct(sd) => {
            assert(decreases_to!(s => s.def));
            assert(decreases_to!(s.def => s.def->Struct_0));
            assert(decreases_to!(sd => sd.fields));
            assert(decreases_to!(s => sd.fields));
        },
        _ => {},
    }
}

#[via_fn]
proof fn vcmp_members_dec(fields: Vec<Field>, va: Seq<Value>, vb: Seq<Value>, i: int) {
    if 0 <= i < fields@.len() {
        assert(decreases_to!(fields => fields@[i]));
        assert(decreases_to!(fields@[i] => fields@[i].shape));
        assert(decreases_to!(fields => fields@[i].shape));
    }
}

/// Compare two scalar values of one kind.
fn scalar_cmp(a: &Value, b: &Value) -> (r: Ordering)
    requires
        !(*a is Tuple),
        !(*a is Mapping),
    ensures
        r == scalar_cmp_spec(*a, *b),
{
    match a {
        Value::Bool(x) => match b {
            Value::Bool(y) => if *x == *y {
                Ordering::Equal
            } else if !*x {
                Ordering::Less
            } else {
                Ordering::Greater
            },
            _ => Ordering::Equal,
        },
        Value::Unsigned(x) => match b {
            Value::Unsigned(y) => if *x < *y {
                Ordering::Less
            } else if *x == *y {
                Ordering::Equal
            } else {
                Ordering::Greater
            },
            _ => Ordering::Equal,
        },
        Value::Signed(x) => match b {
            Value::Signed(y) => if *x < *y {
                Ordering::Less
            } else if *x == *y {
                Ordering::Equal
            } else {
                Ordering::Greater
            },
            _ => Ordering::Equal,
        },
        Value::Text(x) => match b {
            Value::Text(y) => text_cmp(x.as_str(), y.as_str()),
            _ => Ordering::Equal,
        },
        _ => Ordering::Equal,
    }
}

/// Total ordering through a shape's ordering entry: members are compared
/// lexicographically in declaration order.
pub fn cmp_value(s: &Shape, a: &Value, b: &Value) -> (r: Ordering)
    requires
        wf_shape(*s),
        value_fits(*s, *a),
        value_fits(*s, *b),
        has_ord(*s),
    ensures
        r == vcmp(*s, *a, *b),
    decreases *s,
{
    match &s.def {
        Def::Scalar(_) => scalar_cmp(a, b),
        Def::Struct(sd) => {
            let vs_a = tuple_members(a);
            let vs_b = tuple_members(b);
            let n: usize = sd.fields.len();
            let mut i: usize = 0;
            while i < n
                invariant
                    0 <= i <= n,
                    n == sd.fields@.len(),
                    s.def == Def::Struct(*sd),
                    *a == Value::Tuple(*vs_a),
                    *b == Value::Tuple(*vs_b),
                    wf_shape(*s),
                    value_fits(*s, *a),
                    value_fits(*s, *b),
                    has_ord(*s),
                    vcmp_members(sd.fields, vs_a@, vs_b@, 0) == vcmp_members(
                        sd.fields,
                        vs_a@,
                        vs_b@,
                        i as int,
                    ),
                decreases n - i,
            {
                proof {
                    assert(*sd == (*s).def->Struct_0);
                    assert(decreases_to!(*s => (*s).def));
                    assert(decreases_to!((*s).def => (*s).def->Struct_0));
                    assert(decreases_to!(*sd => sd.fields));
                    assert(decreases_to!(sd.fields => sd.fields@[i as int]));
                    assert(decreases_to!(sd.fields@[i as int] => sd.fields@[i as int].shape));
                    assert(decreases_to!(*s => sd.fields@[i as int].shape));
                }
                let c = cmp_value(&sd.fields[i].shape, &vs_a[i], &vs_b[i]);
                if !matches!(c, Ordering::Equal) {
                    return c;
                }
                i = i + 1;
            }
            Ordering::Equal
        },
        Def::Mapping(_) => unreached(),
    }
}

/// Partial ordering through a shape's partial-ordering entry.  Every
/// ordering this model grants is total, so the result is always present.
pub fn partial_cmp_value(s: &Shape, a: &Value, b: &Value) -> (r: Option<Ordering>)
    requires
        wf_shape(*s),
        value_fits(*s, *a),
        value_fits(*s, *b),
        has_partial_ord(*s),
        has_ord(*s),
    ensures
        r == Some(vcmp(*s, *a, *b)),
{
    Some(cmp_value(s, a, b))
}

/// Shapes whose values are ordered: every scalar is, a composite is when
/// its members are, and maps are not ordered at all.
pub open spec fn ordered_shape(s: Shape) -> bool
    decreases s,
{
    match s.def {
        Def::Scalar(_) => true,
        Def::Struct(sd) => forall|i: int|
            0 <= i < sd.fields.len() ==> ordered_shape(#[trigger] sd.fields[i].shape),
        Def::Mapping(_) => false,
    }
}

/// Ordering agrees with equality: over an ordered shape, two conforming
/// values compare equal exactly when they are equal.
pub proof fn lemma_cmp_consistent_with_eq(s: Shape, a: Value, b: Value)
    requires
        value_fits(s, a),
        value_fits(s, b),
        ordered_shape(s),
    ensures
        (vcmp(s, a, b) == Ordering::Equal) <==> veq(a, b),
    decreases s, 0int,
{
    match s.def {
        Def::Scalar(_) => {
            if a is Text && b is Text {
                lemma_text_cmp_eq(a->Text_0@, b->Text_0@);
            }
        },
        Def::Struct(sd) => {
            assert(decreases_to!(s => s.def));
            assert(decreases_to!(s.def => s.def->Struct_0));
            assert(decreases_to!(sd => sd.fields));
            assert(decreases_to!(s => sd.fields));
            lemma_cmp_members_consistent(sd.fields, a->Tuple_0@, b->Tuple_0@, 0);
        },
        Def::Mapping(_) => {},
    }
}

/// Ordering of the members from `i` on agrees with their pairwise equality.
proof fn lemma_cmp_members_consistent(fields: Vec<Field>, va: Seq<Value>, vb: Seq<Value>, i: int)
    requires
        0 <= i <= fields@.len(),
        va.len() == fields@.len(),
        vb.len() == fields@.len(),
        forall|j: int|
            0 <= j < fields@.len() ==> value_fits((#[trigger] fields@[j]).shape, va[j])
                && value_fits(fields@[j].shape, vb[j]) && ordered_shape(fields@[j].shape),
    ensures
        (vcmp_members(fields, va, vb, i) == Ordering::Equal) <==> (forall|j: int|
            i <= j < fields@.len() ==> veq(#[trigger] va[j], vb[j])),
    decreases fields, fields@.len() - i, 1int,
{
    if i < fields@.len() {
        assert(decreases_to!(fields => fields@[i]));
        assert(decreases_to!(fields@[i] => fields@[i].shape));
        assert(decreases_to!(fields => fields@[i].shape));
        lemma_cmp_consistent_with_eq(fields@[i].shape, va[i], vb[i]);
        lemma_cmp_members_consistent(fields, va, vb, i + 1);
    }
}

/// The bytes a scalar value feeds into the hash accumulator: booleans as one
/// byte, numbers as eight little-endian bytes, text as its length followed
/// by each character in order.
pub open spec fn scalar_hash_bytes(v: Value) -> Seq<u8> {
    match v {
        Value::Bool(b) => seq![
            if b {
                1u8
            } else {
                0u8
            },
        ],
        Value::Unsigned(x) => le_bytes8(x),
        Value::Signed(x) => le_bytes8(x as u64),
        Value::Text(t) => le_bytes8(t@.len() as u64) + char_run(t@),
        _ => Seq::empty(),
    }
}

/// A character as four little-endian bytes of its code point.
pub open spec fn char_bytes4(c: char) -> Seq<u8> {
    seq![
        ((c as u32) & 0xff) as u8,
        (((c as u32) >> 8) & 0xff) as u8,
        (((c as u32) >> 16) & 0xff) as u8,
        (((c as u32) >> 24) & 0xff) as u8,
    ]
}

/// The characters of a text, each as four bytes, in order.
pub open spec fn char_run(chars: Seq<char>) -> Seq<u8>
    decreases chars.len(),
{
    if chars.len() == 0 {
        Seq::empty()
    } else {
        char_run(chars.drop_last()) + char_bytes4(chars.last())
    }
}

/// Absorbing a concatenation absorbs the two parts in order.
proof fn lemma_hash_bytes_append(state: u64, a: Seq<u8>, b: Seq<u8>)
    ensures
        hash_bytes_spec(state, a + b) == hash_bytes_spec(hash_bytes_spec(state, a), b),
    decreases b.len(),
{
    if b.len() == 0 {
        assert(a + b =~= a);
    } else {
        assert((a + b).drop_last() =~= a + b.drop_last());
        assert((a + b).last() == b.last());
        lemma_hash_bytes_append(state, a, b.drop_last());
    }
}

/// A 64-bit number as eight little-endian bytes.
pub open spec fn le_bytes8(x: u64) -> Seq<u8> {
    seq![
        (x & 0xff) as u8,
        ((x >> 8) & 0xff) as u8,
        ((x >> 16) & 0xff) as u8,
        ((x >> 24) & 0xff) as u8,
        ((x >> 32) & 0xff) as u8,
        ((x >> 40) & 0xff) as u8,
        ((x >> 48) & 0xff) as u8,
        ((x >> 56) & 0xff) as u8,
    ]
}

/// The accumulator state after hashing a value of a shape into it: scalars
/// feed their bytes, a composite feeds every member in declaration order.
pub open spec fn hash_spec(s: Shape, v: Value, state: u64) -> u64
    decreases s, 0int,
    via hash_spec_dec
{
    match s.def {
        Def::Scalar(_) => hash_bytes_spec(state, scalar_hash_bytes(v)),
        Def::Struct(sd) => hash_members_spec(sd.fields, v->Tuple_0@, 0, state),
        Def::Mapping(_) => state,
    }
}

/// The accumulator state after hashing the members from index `i` on.
pub open spec fn hash_members_spec(fields: Vec<Field>, vs: Seq<Value>, i: int, state: u64) -> u64
    decreases fields, fields@.len() - i,
    via hash_members_spec_dec
{
    if i < 0 || i >= fields@.len() {
        state
    } else {
        hash_members_spec(fields, vs, i + 1, hash_spec(fields@[i].shape, vs[i], state))
    }
}

#[via_fn]
proof fn hash_spec_dec(s: Shape, v: Value, state: u64) {
    match s.def {
        Def::Struct(sd) => {
            assert(decreases_to!(s => s.def));
            assert(decreases_to!(s.def => s.def->Struct_0));
            assert(decreases_to!(sd => sd.fields));
            assert(decreases_to!(s => sd.fields));
        },
        _ => {},
    }
}

#[via_fn]
proof fn hash_members_spec_dec(fields: Vec<Field>, vs: Seq<Value>, i: int, state: u64) {
    if 0 <= i < fields@.len() {
        assert(decreases_to!(fields => fields@[i]));
        assert(decreases_to!(fields@[i] => fields@[i].shape));
        assert(decreases_to!(fields => fields@[i].shape));
    }
}

/// Feed a scalar value's bytes into the accumulator.
fn scalar_hash(v: &Value, h: &mut HasherProxy)
    requires
        !(*v is Tuple),
        !(*v is Mapping),
    ensures
        final(h).state() == hash_bytes_spec(old(h).state(), scalar_hash_bytes(*v)),
{
    match v {
        Value::Unit => {},
        Value::Text(t) => {
            let ghost st0 = h.state();
            let n: usize = t.as_str().unicode_len();
            write_le_bytes8(n as u64, h);
            let ghost st1 = h.state();
            proof {
                assert(char_run(t@.take(0)) =~= Seq::<u8>::empty()) by {
                    assert(t@.take(0) =~= Seq::<char>::empty());
                }
            }
            let mut i: usize = 0;
            while i < n
                invariant
                    0 <= i <= n,
                    n == t@.len(),
                    h.state() == hash_bytes_spec(st1, char_run(t@.take(i as int))),
                decreases n - i,
            {
                let c = t.as_str().get_char(i);
                write_char_bytes(c, h);
                proof {
                    assert(t@.take(i + 1).drop_last() =~= t@.take(i as int));
                    assert(t@.take(i + 1).last() == t@[i as int]);
                    lemma_hash_bytes_append(st1, char_run(t@.take(i as int)), char_bytes4(c));
                }
                i = i + 1;
            }
            proof {
                assert(t@.take(n as int) =~= t@);
                lemma_hash_bytes_append(st0, le_bytes8(n as u64), char_run(t@));
            }
        },
        Value::Bool(b) => {
            let byte: u8 = if *b {
                1
            } else {
                0
            };
            let bytes: [u8; 1] = [byte];
            h.write(bytes.as_slice());
            proof {
                assert(bytes@ =~= scalar_hash_bytes(*v));
            }
        },
        Value::Unsigned(x) => {
            write_le_bytes8(*x, h);
        },
        Value::Signed(x) => {
            let wide: u64 = *x as u64;
            write_le_bytes8(wide, h);
            proof {
                assert(le_bytes8(wide) =~= scalar_hash_bytes(*v));
            }
        },
        _ => unreached(),
    }
}

/// Feed a character's four code-point bytes into the accumulator.
fn write_char_bytes(c: char, h: &mut HasherProxy)
    ensures
        final(h).state() == hash_bytes_spec(old(h).state(), char_bytes4(c)),
{
    let x: u32 = c as u32;
    let bytes: [u8; 4] = [
        (x & 0xff) as u8,
        ((x >> 8) & 0xff) as u8,
        ((x >> 16) & 0xff) as u8,
        ((x >> 24) & 0xff) as u8,
    ];
    h.write(bytes.as_slice());
    proof {
        assert(bytes@ =~= char_bytes4(c));
    }
}

/// Feed eight little-endian bytes into the accumulator.
fn write_le_bytes8(x: u64, h: &mut HasherProxy)
    ensures
        final(h).state() == hash_bytes_spec(old(h).state(), le_bytes8(x)),
{
    let bytes: [u8; 8] = [
        (x & 0xff) as u8,
        ((x >> 8) & 0xff) as u8,
        ((x >> 16) & 0xff) as u8,
        ((x >> 24) & 0xff) as u8,
        ((x >> 32) & 0xff) as u8,
        ((x >> 40) & 0xff) as u8,
        ((x >> 48) & 0xff) as u8,
        ((x >> 56) & 0xff) as u8,
    ];
    h.write(bytes.as_slice());
    proof {
        assert(bytes@ =~= le_bytes8(x));
    }
}

/// Hash a value through a shape's hashing entry, feeding each member's
/// contribution into the shared accumulator in declaration order.
pub fn hash_value(s: &Shape, v: &Value, h: &mut HasherProxy)
    requires
        wf_shape(*s),
        value_fits(*s, *v),
        has_hash(*s),
    ensures
        final(h).state() == hash_spec(*s, *v, old(h).state()),
    decreases *s,
{
    match &s.def {
        Def::Scalar(_) => scalar_hash(v, h),
        Def::Struct(sd) => {
            let vs = tuple_members(v);
            let n: usize = sd.fields.len();
            let ghost st0 = h.state();
            let mut i: usize = 0;
            while i < n
                invariant
                    0 <= i <= n,
                    n == sd.fields@.len(),
                    s.def == Def::Struct(*sd),
                    *v == Value::Tuple(*vs),
                    wf_shape(*s),
                    value_fits(*s, *v),
                    has_hash(*s),
                    hash_members_spec(sd.fields, vs@, 0, st0) == hash_members_spec(
                        sd.fields,
                        vs@,
                        i as int,
                        h.state(),
                    ),
                decreases n - i,
            {
                proof {
                    assert(*sd == (*s).def->Struct_0);
                    assert(decreases_to!(*s => (*s).def));
                    assert(decreases_to!((*s).def => (*s).def->Struct_0));
                    assert(decreases_to!(*sd => sd.fields));
                    assert(decreases_to!(sd.fields => sd.fields@[i as int]));
                    assert(decreases_to!(sd.fields@[i as int] => sd.fields@[i as int].shape));
                    assert(decreases_to!(*s => sd.fields@[i as int].shape));
                }
                hash_value(&sd.fields[i].shape, &vs[i], h);
                i = i + 1;
            }
        },
        Def::Mapping(_) => unreached(),
    }
}

/// Duplicate a value through a shape's clone entry, member by member in
/// declaration order.
pub fn clone_value(s: &Shape, v: &Value) -> (r: Value)
    requires
        wf_shape(*s),
        value_fits(*s, *v),
        has_clone(*s),
    ensures
        veq(r, *v),
        value_fits(*s, r),
    decreases *s,
{
    match &s.def {
        Def::Scalar(_) => match v {
            Value::Unit => Value::Unit,
            Value::Bool(b) => Value::Bool(*b),
            Value::Unsigned(x) => Value::Unsigned(*x),
            Value::Signed(x) => Value::Signed(*x),
            Value::Text(t) => Value::Text(t.clone()),
            _ => unreached(),
        },
        Def::Struct(sd) => {
            let vs = tuple_members(v);
            let n: usize = sd.fields.len();
            let mut out: Vec<Value> = Vec::new();
            let mut i: usize = 0;
            while i < n
                invariant
                    0 <= i <= n,
                    n == sd.fields@.len(),
                    s.def == Def::Struct(*sd),
                    *v == Value::Tuple(*vs),
                    wf_shape(*s),
                    value_fits(*s, *v),
                    has_clone(*s),
                    out@.len() == i,
                    forall|j: int|
                        0 <= j < i ==> veq(#[trigger] out@[j], vs@[j]) && value_fits(
                            sd.fields@[j].shape,
                            out@[j],
                        ),
                decreases n - i,
            {
                proof {
                    assert(*sd == (*s).def->Struct_0);
                    assert(decreases_to!(*s => (*s).def));
                    assert(decreases_to!((*s).def => (*s).def->Struct_0));
                    assert(decreases_to!(*sd => sd.fields));
                    assert(decreases_to!(sd.fields => sd.fields@[i as int]));
                    assert(decreases_to!(sd.fields@[i as int] => sd.fields@[i as int].shape));
                    assert(decreases_to!(*s => sd.fields@[i as int].shape));
                }
                let part = clone_value(&sd.fields[i].shape, &vs[i]);
                out.push(part);
                i = i + 1;
            }
            Value::Tuple(out)
        },
        Def::Mapping(_) => unreached(),
    }
}

/// What the default value of a shape looks like: zero for numbers, `false`
/// for booleans, empty text, the unit value, and for a composite the default
/// of every member.
pub open spec fn is_default_value(s: Shape, v: Value) -> bool
    decreases s,
{
    match s.def {
        Def::Scalar(k) => match k {
            ScalarKind::Boolean => v == Value::Bool(false),
            ScalarKind::Str => v matches Value::Text(t) && t@ == Seq::<char>::empty(),
            ScalarKind::Nothing => v == Value::Unit,
            ScalarKind::I8 | ScalarKind::I16 | ScalarKind::I32 | ScalarKind::I64 => v
                == Value::Signed(0),
            _ => v == Value::Unsigned(0),
        },
        Def::Struct(sd) => {
            &&& v matches Value::Tuple(vs)
            &&& vs.len() == sd.fields.len()
            &&& forall|i: int|
                0 <= i < sd.fields.len() ==> is_default_value(#[trigger] sd.fields[i].shape, vs[i])
        },
        Def::Mapping(_) => v matches Value::Mapping(es) && es@.len() == 0,
    }
}

/// Construct the default value through a shape's default-construction entry,
/// member by member in declaration order.
pub fn default_value(s: &Shape) -> (r: Value)
    requires
        wf_shape(*s),
        has_default(*s),
    ensures
        is_default_value(*s, r),
        value_fits(*s, r),
    decreases *s,
{
    match &s.def {
        Def::Scalar(k) => match k {
            ScalarKind::Boolean => Value::Bool(false),
            ScalarKind::Str => Value::Text(String::new()),
            ScalarKind::Nothing => Value::Unit,
            ScalarKind::I8 | ScalarKind::I16 | ScalarKind::I32 | ScalarKind::I64 => Value::Signed(
                0,
            ),
            _ => Value::Unsigned(0),
        },
        Def::Struct(sd) => {
            let n: usize = sd.fields.len();
            let mut out: Vec<Value> = Vec::new();
            let mut i: usize = 0;
            while i < n
                invariant
                    0 <= i <= n,
                    n == sd.fields@.len(),
                    s.def == Def::Struct(*sd),
                    wf_shape(*s),
                    has_default(*s),
                    out@.len() == i,
                    forall|j: int|
                        0 <= j < i ==> is_default_value(#[trigger] sd.fields@[j].shape, out@[j])
                            && value_fits(sd.fields@[j].shape, out@[j]),
                decreases n - i,
            {
                proof {
                    assert(*sd == (*s).def->Struct_0);
                    assert(decreases_to!(*s => (*s).def));
                    assert(decreases_to!((*s).def => (*s).def->Struct_0));
                    assert(decreases_to!(*sd => sd.fields));
                    assert(decreases_to!(sd.fields => sd.fields@[i as int]));
                    assert(decreases_to!(sd.fields@[i as int] => sd.fields@[i as int].shape));
                    assert(decreases_to!(*s => sd.fields@[i as int].shape));
                }
                let part = default_value(&sd.fields[i].shape);
                out.push(part);
                i = i + 1;
            }
            Value::Tuple(out)
        },
        Def::Mapping(_) => unreached(),
    }
}

/// The order in which drop entries run when a value of a shape is torn
/// down, as the identities of the dropped shapes: a scalar drops itself, a
/// composite drops its members in declaration order.
pub open spec fn drop_order_spec(s: Shape) -> Seq<u64>
    decreases s, 0int,
    via drop_order_spec_dec
{
    match s.def {
        Def::Scalar(_) => seq![s.id],
        Def::Struct(sd) => drop_members_spec(sd.fields, sd.fields@.len() as int),
        Def::Mapping(_) => Seq::empty(),
    }
}

/// The drop order of the first `i` members, concatenated.
pub open spec fn drop_members_spec(fields: Vec<Field>, i: int) -> Seq<u64>
    decreases fields, i,
    via drop_members_spec_dec
{
    if i <= 0 || i > fields@.len() {
        Seq::empty()
    } else {
        drop_members_spec(fields, i - 1) + drop_order_spec(fields@[i - 1].shape)
    }
}

#[via_fn]
proof fn drop_order_spec_dec(s: Shape) {
    match s.def {
        Def::Struct(sd) => {
            assert(decreases_to!(s => s.def));
            assert(decreases_to!(s.def => s.def->Struct_0));
            assert(decreases_to!(sd => sd.fields));
            assert(decreases_to!(s => sd.fields));
        },
        _ => {},
    }
}

#[via_fn]
proof fn drop_members_spec_dec(fields: Vec<Field>, i: int) {
    if 0 < i <= fields@.len() {
        assert(decreases_to!(fields => fields@[i - 1]));
        assert(decreases_to!(fields@[i - 1] => fields@[i - 1].shape));
        assert(decreases_to!(fields => fields@[i - 1].shape));
    }
}

/// Tear a value down through a shape's drop entry, reporting which shapes'
/// drop entries ran and in what order: the declaration order, consistently.
pub fn drop_order(s: &Shape) -> (r: Vec<u64>)
    requires
        wf_shape(*s),
        has_drop(*s),
    ensures
        r@ == drop_order_spec(*s),
    decreases *s,
{
    match &s.def {
        Def::Scalar(_) => {
            let mut out: Vec<u64> = Vec::new();
            out.push(s.id);
            proof {
                assert(out@ =~= drop_order_spec(*s));
            }
            out
        },
        Def::Struct(sd) => {
            let n: usize = sd.fields.len();
            let mut out: Vec<u64> = Vec::new();
            let mut i: usize = 0;
            while i < n
                invariant
                    0 <= i <= n,
                    n == sd.fields@.len(),
                    s.def == Def::Struct(*sd),
                    wf_shape(*s),
                    has_drop(*s),
                    out@ == drop_members_spec(sd.fields, i as int),
                decreases n - i,
            {
                proof {
                    assert(*sd == (*s).def->Struct_0);
                    assert(decreases_to!(*s => (*s).def));
                    assert(decreases_to!((*s).def => (*s).def->Struct_0));
                    assert(decreases_to!(*sd => sd.fields));
                    assert(decreases_to!(sd.fields => sd.fields@[i as int]));
                    assert(decreases_to!(sd.fields@[i as int] => sd.fields@[i as int].shape));
                    assert(decreases_to!(*s => sd.fields@[i as int].shape));
                }
                let mut part = drop_order(&sd.fields[i].shape);
                out.append(&mut part);
                proof {
                    assert(out@ =~= drop_members_spec(sd.fields, i + 1));
                }
                i = i + 1;
            }
            out
        },
        Def::Mapping(_) => unreached(),
    }
}

/// Whether a value satisfies an invariant-check rule.
pub open spec fn invariant_holds(rule: InvariantRule, v: Value) -> bool {
    match rule {
        InvariantRule::NonZero => match v {
            Value::Unsigned(x) => x != 0,
            Value::Signed(x) => x != 0,
            _ => true,
        },
        InvariantRule::NonEmpty => match v {
            Value::Text(t) => t@.len() != 0,
            Value::Tuple(vs) => vs@.len() != 0,
            Value::Mapping(es) => es@.len() != 0,
            _ => true,
        },
    }
}

/// Check a value against the shape's invariant-check hook: `None` when the
/// shape has none, otherwise whether the domain rule holds.  A failure is
/// reported to the caller, never raised.
pub fn check_invariant(s: &Shape, v: &Value) -> (r: Option<bool>)
    ensures
        r is Some <==> s.invariant_check is Some,
        r matches Some(ok) ==> s.invariant_check matches Some(rule) && ok == invariant_holds(
            *rule,
            *v,
        ),
{
    match &s.invariant_check {
        None => None,
        Some(rule) => Some(
            match &**rule {
                InvariantRule::NonZero => match v {
                    Value::Unsigned(x) => *x != 0,
                    Value::Signed(x) => *x != 0,
                    _ => true,
                },
                InvariantRule::NonEmpty => match v {
                    Value::Text(t) => !t.as_str().is_empty(),
                    Value::Tuple(vs) => vs.len() != 0,
                    Value::Mapping(es) => es.len() != 0,
                    _ => true,
                },
            },
        ),
    }
}

/// Equality of a composite value is the conjunction of member equality, in
/// any order: the composite's members are equal pairwise exactly when the
/// composites are equal.
pub proof fn lemma_composite_eq(s: Shape, a: Value, b: Value)
    requires
        s.def is Struct,
        value_fits(s, a),
        value_fits(s, b),
    ensures
        veq(a, b) <==> (forall|i: int|
            0 <= i < a->Tuple_0@.len() ==> veq(#[trigger] a->Tuple_0@[i], b->Tuple_0@[i])),
{
}

/// A composite differing in its first member is unequal, whatever the later
/// members hold: the later comparisons cannot change the outcome.
pub proof fn lemma_eq_short_circuit_first(s: Shape, a: Value, b: Value)
    requires
        s.def is Struct,
        value_fits(s, a),
        value_fits(s, b),
        s.def->Struct_0.fields@.len() >= 1,
        !veq(a->Tuple_0@[0], b->Tuple_0@[0]),
    ensures
        !veq(a, b),
{
}

/// The dedicated last-member path: when every earlier member pair is equal,
/// the composites are equal exactly when the final comparison succeeds.
pub proof fn lemma_eq_last_member(s: Shape, a: Value, b: Value)
    requires
        s.def is Struct,
        value_fits(s, a),
        value_fits(s, b),
        s.def->Struct_0.fields@.len() >= 1,
        forall|i: int|
            0 <= i < s.def->Struct_0.fields@.len() - 1 ==> veq(
                #[trigger] a->Tuple_0@[i],
                b->Tuple_0@[i],
            ),
    ensures
        veq(a, b) <==> veq(
            a->Tuple_0@[s.def->Struct_0.fields@.len() - 1],
            b->Tuple_0@[s.def->Struct_0.fields@.len() - 1],
        ),
{
}

} // verus!
