use shapely::HasherProxy;
use shapely::ScalarKind;
use shapely::TypeNameOpts;
use shapely::ValueVTable;
use shapely::clone_into_fn_for;
use shapely::cmp_fn_for;
use shapely::debug_fn_for;
use shapely::default_in_place_fn_for;
use shapely::display_fn_for;
use shapely::drop_in_place_fn_for;
use shapely::hash_fn_for;
use shapely::parse_fn_for;
use shapely::partial_eq_fn_for;
use shapely::partial_ord_fn_for;
use shapely::Shapely;
use shapely::scalar_shape;

#[test]
fn test_vtable_size() {
    assert_eq!(std::mem::size_of::<ValueVTable>(), 104);
}

#[test]
fn opts_constructors() {
    assert_eq!(TypeNameOpts::none().recurse_ttl, 0);
    assert_eq!(TypeNameOpts::one().recurse_ttl, 1);
    assert_eq!(TypeNameOpts::infinite().recurse_ttl, -1);
    assert_eq!(TypeNameOpts::default().recurse_ttl, -1);
}

#[test]
fn opts_for_children_counts_down() {
    let one = TypeNameOpts::one();
    let zero = one.for_children().unwrap();
    assert_eq!(zero.recurse_ttl, 0);
    assert!(zero.for_children().is_none());
}

#[test]
fn opts_infinite_never_runs_out() {
    let inf = TypeNameOpts::infinite();
    let next = inf.for_children().unwrap();
    assert_eq!(next.recurse_ttl, -1);
}

#[test]
fn marker_traits_of_scalars() {
    let n = scalar_shape(ScalarKind::U64).vtable;
    assert!(n.is_eq());
    assert!(n.is_send());
    assert!(n.is_sync());
    assert!(n.is_copy());
    let t = scalar_shape(ScalarKind::Str).vtable;
    assert!(t.is_eq());
    assert!(t.is_send());
    assert!(t.is_sync());
    assert!(!t.is_copy());
}

#[test]
fn hasher_accumulates_in_order() {
    let mut h = HasherProxy::new();
    h.write(&[1u8, 2u8]);
    assert_eq!(h.finish(), 33);
    let mut g = HasherProxy::new();
    g.write(&[2u8, 1u8]);
    assert_ne!(g.finish(), 33);
}

#[test]
fn shapely_impls_hand_out_their_own_shapes() {
    assert_eq!(<u8 as Shapely>::shape().id, scalar_shape(ScalarKind::U8).id);
    assert_eq!(<u64 as Shapely>::shape().layout.size, 8);
    assert_eq!(<bool as Shapely>::shape().id, 9);
    assert_eq!(<String as Shapely>::shape().id, 10);
    assert_eq!(<() as Shapely>::shape().id, 11);
    assert_eq!(<i32 as Shapely>::shape().layout.align, 4);
}

#[test]
fn entry_builders_yield_present_entries() {
    assert!(drop_in_place_fn_for().is_some());
    assert!(clone_into_fn_for().is_some());
    assert!(default_in_place_fn_for().is_some());
    assert!(parse_fn_for().is_some());
    assert!(partial_eq_fn_for().is_some());
    assert!(partial_ord_fn_for().is_some());
    assert!(cmp_fn_for().is_some());
    assert!(hash_fn_for().is_some());
    assert!(display_fn_for().is_some());
    assert!(debug_fn_for().is_some());
}
