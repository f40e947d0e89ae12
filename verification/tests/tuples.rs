use std::cmp::Ordering;

use shapely::Def;
use shapely::HasherProxy;
use shapely::ScalarKind;
use shapely::Shape;
use shapely::Value;
use shapely::clone_value;
use shapely::cmp_value;
use shapely::default_value;
use shapely::drop_order;
use shapely::eq_value;
use shapely::generate_tuples_impls;
use shapely::hash_value;
use shapely::scalar_shape;
use shapely::tuple_shape;
use shapely::value_eq;

const KINDS: [ScalarKind; 4] = [ScalarKind::U8, ScalarKind::U16, ScalarKind::U32, ScalarKind::U64];

fn members_for_arity(n: usize) -> Vec<Shape> {
    (0..n).map(|i| scalar_shape(KINDS[i % 4])).collect()
}

fn align_up(off: usize, align: usize) -> usize {
    let rem = off % align;
    if rem == 0 { off } else { off + (align - rem) }
}

#[test]
fn family_has_one_field_per_member_at_true_offsets() {
    let instantiations: Vec<Vec<Shape>> = (1..=12).map(members_for_arity).collect();
    let shapes = generate_tuples_impls(instantiations);
    assert_eq!(shapes.len(), 12);
    for (k, s) in shapes.iter().enumerate() {
        let n = k + 1;
        let members = members_for_arity(n);
        let fields = match &s.def {
            Def::Struct(sd) => &sd.fields,
            _ => panic!("composite expected"),
        };
        assert_eq!(fields.len(), n);
        let mut off: usize = 0;
        let mut end: usize = 0;
        let mut maxa: usize = 1;
        for i in 0..n {
            let l = members[i].layout;
            off = if i == 0 { 0 } else { align_up(end, l.align) };
            end = off + l.size;
            if l.align > maxa {
                maxa = l.align;
            }
            assert_eq!(fields[i].offset, off, "offset of member {i} at arity {n}");
            assert_eq!(fields[i].shape.id, members[i].id, "field shape identity {i} at arity {n}");
            assert_eq!(fields[i].name, format!("{i}"));
        }
        assert_eq!(s.layout.size, align_up(end, maxa));
        assert_eq!(s.layout.align, maxa);
    }
}

#[test]
fn mixed_offsets_are_aligned() {
    let members = vec![
        scalar_shape(ScalarKind::U8),
        scalar_shape(ScalarKind::U32),
        scalar_shape(ScalarKind::U8),
    ];
    let s = tuple_shape(members);
    let fields = match &s.def {
        Def::Struct(sd) => &sd.fields,
        _ => panic!("composite expected"),
    };
    assert_eq!(fields[0].offset, 0);
    assert_eq!(fields[1].offset, 4);
    assert_eq!(fields[2].offset, 8);
    assert_eq!(s.layout.size, 12);
    assert_eq!(s.layout.align, 4);
    assert_eq!(s.id, 1048967136441024897);
}

#[test]
fn capability_present_when_all_members_have_it() {
    let members = vec![
        scalar_shape(ScalarKind::U64),
        scalar_shape(ScalarKind::Boolean),
        scalar_shape(ScalarKind::Str),
    ];
    let s = tuple_shape(members);
    assert!(s.vtable.eq.is_some());
    assert!(s.vtable.debug.is_some());
    assert!(s.vtable.clone_into.is_some());
    assert!(s.vtable.default_in_place.is_some());
    assert!(s.vtable.ord.is_some());
    assert!(s.vtable.partial_ord.is_some());
    assert!(s.vtable.hash.is_some());
    // No member but text needs a drop, so the composite lacks one; display
    // is never derived for composites.
    assert!(s.vtable.drop_in_place.is_none());
    assert!(s.vtable.display.is_none());
}

#[test]
fn capability_absent_when_one_member_lacks_it() {
    let mut odd = scalar_shape(ScalarKind::U8);
    odd.vtable.eq = None;
    let members = vec![scalar_shape(ScalarKind::U64), odd, scalar_shape(ScalarKind::Boolean)];
    let s = tuple_shape(members);
    assert!(s.vtable.eq.is_none());
}

fn triple_shape() -> Shape {
    tuple_shape(vec![
        scalar_shape(ScalarKind::U64),
        scalar_shape(ScalarKind::Boolean),
        scalar_shape(ScalarKind::U8),
    ])
}

fn triple(a: u64, b: bool, c: u64) -> Value {
    Value::Tuple(vec![Value::Unsigned(a), Value::Bool(b), Value::Unsigned(c)])
}

#[test]
fn eq_is_conjunction_of_member_eq() {
    let s = triple_shape();
    assert!(eq_value(&s, &triple(1, true, 2), &triple(1, true, 2)));
    assert!(!eq_value(&s, &triple(1, true, 2), &triple(1, false, 2)));
    assert!(!eq_value(&s, &triple(1, true, 2), &triple(3, true, 2)));
    assert!(!eq_value(&s, &triple(1, true, 2), &triple(1, true, 9)));
}

#[test]
fn eq_short_circuits_on_first_member() {
    // The two values differ only in member 0; the comparison is decided
    // there, before the later members are reached.
    let s = triple_shape();
    assert!(!eq_value(&s, &triple(1, true, 2), &triple(9, true, 2)));
}

#[test]
fn eq_last_member_direct_path() {
    // The two values agree everywhere but possibly in the last member: the
    // outcome is exactly the final comparison's.
    let s = triple_shape();
    assert!(!eq_value(&s, &triple(1, true, 2), &triple(1, true, 7)));
    assert!(eq_value(&s, &triple(1, true, 7), &triple(1, true, 7)));
}

#[test]
fn cmp_is_lexicographic() {
    let members = vec![scalar_shape(ScalarKind::U64), scalar_shape(ScalarKind::U8)];
    let s = tuple_shape(members);
    let v = |a: u64, b: u64| Value::Tuple(vec![Value::Unsigned(a), Value::Unsigned(b)]);
    assert_eq!(cmp_value(&s, &v(1, 9), &v(2, 0)), Ordering::Less);
    assert_eq!(cmp_value(&s, &v(2, 0), &v(1, 9)), Ordering::Greater);
    assert_eq!(cmp_value(&s, &v(1, 1), &v(1, 2)), Ordering::Less);
    assert_eq!(cmp_value(&s, &v(1, 2), &v(1, 2)), Ordering::Equal);
}

#[test]
fn text_orders_lexicographically() {
    let ts = scalar_shape(ScalarKind::Str);
    let t = |s: &str| Value::Text(String::from(s));
    assert_eq!(cmp_value(&ts, &t("apple"), &t("banana")), Ordering::Less);
    assert_eq!(cmp_value(&ts, &t("banana"), &t("apple")), Ordering::Greater);
    assert_eq!(cmp_value(&ts, &t("app"), &t("apple")), Ordering::Less);
    assert_eq!(cmp_value(&ts, &t("apple"), &t("apple")), Ordering::Equal);
    assert_eq!(cmp_value(&ts, &t(""), &t("")), Ordering::Equal);
    assert_eq!(cmp_value(&ts, &t(""), &t("a")), Ordering::Less);
}

#[test]
fn text_hashes_by_contents() {
    let ts = scalar_shape(ScalarKind::Str);
    let mut h1 = HasherProxy::new();
    hash_value(&ts, &Value::Text(String::from("ab")), &mut h1);
    let mut h2 = HasherProxy::new();
    hash_value(&ts, &Value::Text(String::from("ba")), &mut h2);
    assert_ne!(h1.finish(), h2.finish());

    let mut h3 = HasherProxy::new();
    hash_value(&ts, &Value::Text(String::from("ab")), &mut h3);
    assert_eq!(h1.finish(), h3.finish());
}

#[test]
fn hash_feeds_members_in_order() {
    let s64 = scalar_shape(ScalarKind::U64);
    let mut h = HasherProxy::new();
    hash_value(&s64, &Value::Unsigned(5), &mut h);
    assert_eq!(h.finish(), 137563070555);

    let s = tuple_shape(vec![scalar_shape(ScalarKind::U64), scalar_shape(ScalarKind::U64)]);
    let mut h1 = HasherProxy::new();
    hash_value(&s, &Value::Tuple(vec![Value::Unsigned(1), Value::Unsigned(2)]), &mut h1);
    let mut h2 = HasherProxy::new();
    hash_value(&s, &Value::Tuple(vec![Value::Unsigned(2), Value::Unsigned(1)]), &mut h2);
    assert_ne!(h1.finish(), h2.finish());
}

#[test]
fn default_of_composite_is_member_defaults() {
    let s = tuple_shape(vec![
        scalar_shape(ScalarKind::U64),
        scalar_shape(ScalarKind::Boolean),
        scalar_shape(ScalarKind::Str),
    ]);
    let d = default_value(&s);
    let expected = Value::Tuple(vec![
        Value::Unsigned(0),
        Value::Bool(false),
        Value::Text(String::new()),
    ]);
    assert!(value_eq(&d, &expected));
}

#[test]
fn clone_of_composite_equals_original() {
    let s = triple_shape();
    let v = triple(7, true, 200);
    let c = clone_value(&s, &v);
    assert!(value_eq(&c, &v));
}

#[test]
fn drop_runs_member_by_member_in_declaration_order() {
    let text = scalar_shape(ScalarKind::Str);
    assert_eq!(drop_order(&text), vec![10]);
    let s = tuple_shape(vec![scalar_shape(ScalarKind::Str), scalar_shape(ScalarKind::Str)]);
    assert!(s.vtable.drop_in_place.is_some());
    assert_eq!(drop_order(&s), vec![10, 10]);
}

#[test]
fn arity_twelve_is_the_largest_generated() {
    let s = tuple_shape(members_for_arity(12));
    match &s.def {
        Def::Struct(sd) => assert_eq!(sd.fields.len(), 12),
        _ => panic!("composite expected"),
    }
}
