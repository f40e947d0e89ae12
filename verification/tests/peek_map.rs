use shapely::Def;
use shapely::InvariantRule;
use shapely::MapEntry;
use shapely::Peek;
use shapely::PeekMap;
use shapely::ScalarKind;
use shapely::Shape;
use shapely::ShapeBuilder;
use shapely::Value;
use shapely::check_invariant;
use shapely::map_shape;
use shapely::scalar_shape;
use shapely::value_eq;

fn sample_map_shape() -> Shape {
    map_shape(scalar_shape(ScalarKind::U64), scalar_shape(ScalarKind::Str))
}

fn sample_map_value() -> Value {
    Value::Mapping(vec![
        MapEntry { key: Value::Unsigned(1), value: Value::Text(String::from("one")) },
        MapEntry { key: Value::Unsigned(2), value: Value::Text(String::from("two")) },
        MapEntry { key: Value::Unsigned(3), value: Value::Text(String::from("three")) },
    ])
}

fn peek_map<'m>(shape: &'m Shape, value: &'m Value) -> PeekMap<'m> {
    let def = match &shape.def {
        Def::Mapping(md) => md,
        _ => panic!("map shape expected"),
    };
    PeekMap::new(Peek { data: value, shape }, def)
}

#[test]
fn len_and_emptiness() {
    let shape = sample_map_shape();
    let value = sample_map_value();
    let pm = peek_map(&shape, &value);
    assert_eq!(pm.len(), 3);
    assert!(!pm.is_empty());

    let empty = Value::Mapping(vec![]);
    let pm2 = peek_map(&shape, &empty);
    assert_eq!(pm2.len(), 0);
    assert!(pm2.is_empty());
}

#[test]
fn contains_key_agrees_with_iteration() {
    let shape = sample_map_shape();
    let value = sample_map_value();
    let pm = peek_map(&shape, &value);

    let mut seen: Vec<Value> = Vec::new();
    let mut it = pm.iter();
    while let Some((k, _v)) = it.next() {
        seen.push(k.data.clone_for_test());
    }
    it.release();
    assert_eq!(seen.len(), 3);
    for k in &seen {
        assert!(pm.contains_key(k));
    }
    assert!(!pm.contains_key(&Value::Unsigned(9)));
}

// A plain deep copy for test bookkeeping.
trait CloneForTest {
    fn clone_for_test(&self) -> Value;
}

impl CloneForTest for Value {
    fn clone_for_test(&self) -> Value {
        match self {
            Value::Unit => Value::Unit,
            Value::Bool(b) => Value::Bool(*b),
            Value::Unsigned(x) => Value::Unsigned(*x),
            Value::Signed(x) => Value::Signed(*x),
            Value::Text(t) => Value::Text(t.clone()),
            Value::Tuple(vs) => Value::Tuple(vs.iter().map(|v| v.clone_for_test()).collect()),
            Value::Mapping(es) => Value::Mapping(
                es.iter()
                    .map(|e| MapEntry {
                        key: e.key.clone_for_test(),
                        value: e.value.clone_for_test(),
                    })
                    .collect(),
            ),
        }
    }
}

#[test]
fn get_returns_the_stored_value() {
    let shape = sample_map_shape();
    let value = sample_map_value();
    let pm = peek_map(&shape, &value);
    let p = pm.get(&Value::Unsigned(2)).expect("key 2 is present");
    assert!(value_eq(p.data, &Value::Text(String::from("two"))));
    assert!(pm.get(&Value::Unsigned(9)).is_none());
}

#[test]
fn iteration_yields_every_pair_once() {
    let shape = sample_map_shape();
    let value = sample_map_value();
    let pm = peek_map(&shape, &value);
    let mut it = pm.iter();
    let mut count = 0;
    while let Some((k, v)) = it.next() {
        match (count, k.data, v.data) {
            (0, Value::Unsigned(1), Value::Text(t)) => assert_eq!(t, "one"),
            (1, Value::Unsigned(2), Value::Text(t)) => assert_eq!(t, "two"),
            (2, Value::Unsigned(3), Value::Text(t)) => assert_eq!(t, "three"),
            _ => panic!("unexpected pair"),
        }
        count += 1;
    }
    assert_eq!(count, 3);
    assert!(it.next().is_none());
    it.release();
    assert_eq!(it.release_count(), 1);
}

#[test]
fn release_happens_once_when_abandoned_early() {
    let shape = sample_map_shape();
    let value = sample_map_value();
    let pm = peek_map(&shape, &value);
    let mut it = pm.iter();
    assert_eq!(it.release_count(), 0);
    let first = it.next();
    assert!(first.is_some());
    it.release();
    assert_eq!(it.release_count(), 1);
}

#[test]
fn empty_map_iteration() {
    let shape = sample_map_shape();
    let empty = Value::Mapping(vec![]);
    let pm = peek_map(&shape, &empty);
    let mut it = pm.iter();
    assert!(it.next().is_none());
    it.release();
    assert_eq!(it.release_count(), 1);
}

#[test]
fn invariant_hook_reports_to_caller() {
    let plain = scalar_shape(ScalarKind::U64);
    assert!(check_invariant(&plain, &Value::Unsigned(0)).is_none());

    let mut guarded = scalar_shape(ScalarKind::U64);
    guarded.invariant_check = Some(Box::new(InvariantRule::NonZero));
    assert_eq!(check_invariant(&guarded, &Value::Unsigned(0)), Some(false));
    assert_eq!(check_invariant(&guarded, &Value::Unsigned(3)), Some(true));
}

#[test]
fn builder_assembles_a_shape() {
    let model = scalar_shape(ScalarKind::U32);
    let s = ShapeBuilder::new()
        .id(77)
        .layout(model.layout)
        .vtable(model.vtable)
        .def(model.def)
        .doc(String::from("a little number"))
        .invariant_check(InvariantRule::NonZero)
        .build();
    assert_eq!(s.id, 77);
    assert_eq!(s.layout.size, 4);
    assert_eq!(s.doc.as_deref(), Some("a little number"));
    assert!(s.invariant_check.is_some());
    assert!(s.vtable.eq.is_some());
    match s.def {
        Def::Scalar(ScalarKind::U32) => {},
        _ => panic!("scalar definition expected"),
    }
}
