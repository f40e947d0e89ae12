//! A reflection substrate: static descriptors ("shapes") record a type's
//! identity, memory layout, structural definition and a table of optional
//! operations, and verified interpreters carry those operations out on
//! modelled runtime values.

mod fmt;
mod ops;
mod peek;
mod scalar_impls;
mod shape;
mod tuples;
mod value;
mod vtable;

pub use fmt::all_dec_digits;
pub use fmt::bool_text;
pub use fmt::dec_value;
pub use fmt::digit_val;
pub use fmt::is_dec_digit;
pub use fmt::lemma_display_parse_round_trip;
pub use fmt::PadAlign;
pub use fmt::PadOpts;
pub use fmt::parse_bool_spec;
pub use fmt::parse_signed_spec;
pub use fmt::parse_unsigned_spec;
pub use fmt::parse_value;
pub use fmt::bool_to_string;
pub use fmt::debug_members_spec;
pub use fmt::debug_spec;
pub use fmt::debug_value;
pub use fmt::dec_digit;
pub use fmt::dec_spec;
pub use fmt::display_value;
pub use fmt::ellipsis;
pub use fmt::i64_to_string;
pub use fmt::int_dec_spec;
pub use fmt::lemma_budget_one_composite;
pub use fmt::lemma_debug_composite;
pub use fmt::lemma_debug_member_step;
pub use fmt::lemma_debug_single_member;
pub use fmt::lemma_ellipsis_fallback;
pub use fmt::name_list_spec;
pub use fmt::pad_spec;
pub use fmt::pad_text;
pub use fmt::repeat_text;
pub use fmt::shape_list_names_spec;
pub use fmt::type_name_list_body_spec;
pub use fmt::write_type_name_list;
pub use fmt::render_type_name;
pub use fmt::scalar_debug_spec;
pub use fmt::scalar_display_spec;
pub use fmt::type_name_spec;
pub use fmt::u64_to_string;
pub use fmt::write_type_name;
pub use ops::check_invariant;
pub use ops::clone_value;
pub use ops::cmp_value;
pub use ops::default_value;
pub use ops::drop_members_spec;
pub use ops::drop_order;
pub use ops::drop_order_spec;
pub use ops::eq_value;
pub use ops::hash_members_spec;
pub use ops::hash_spec;
pub use ops::hash_value;
pub use ops::invariant_holds;
pub use ops::is_default_value;
pub use ops::le_bytes8;
pub use ops::lemma_cmp_consistent_with_eq;
pub use ops::ordered_shape;
pub use ops::lemma_composite_eq;
pub use ops::lemma_eq_last_member;
pub use ops::lemma_eq_short_circuit_first;
pub use ops::partial_cmp_value;
pub use ops::scalar_cmp_spec;
pub use ops::scalar_hash_bytes;
pub use ops::text_cmp_spec;
pub use ops::lemma_text_cmp_eq;
pub use ops::char_bytes4;
pub use ops::char_run;
pub use ops::tuple_members;
pub use ops::vcmp;
pub use ops::vcmp_members;
pub use peek::Peek;
pub use peek::PeekMap;
pub use peek::PeekMapIter;
pub use peek::is_map_shape_for;
pub use peek::map_shape;
pub use scalar_impls::Shapely;
pub use scalar_impls::is_scalar_shape_for;
pub use scalar_impls::scalar_name_spec;
pub use scalar_impls::scalar_shape;
pub use shape::Def;
pub use shape::Field;
pub use shape::InvariantRule;
pub use shape::Layout;
pub use shape::MapDef;
pub use shape::ScalarKind;
pub use shape::Shape;
pub use shape::ShapeBuilder;
pub use shape::StructDef;
pub use shape::StructKind;
pub use shape::has_clone;
pub use shape::has_debug;
pub use shape::has_default;
pub use shape::has_display;
pub use shape::has_drop;
pub use shape::has_eq;
pub use shape::has_hash;
pub use shape::has_ord;
pub use shape::has_parse;
pub use shape::has_partial_ord;
pub use shape::has_try_from;
pub use shape::map_slots_ok;
pub use shape::scalar_id;
pub use shape::scalar_layout;
pub use shape::scalar_slots_ok;
pub use shape::struct_gates_ok;
pub use shape::wf_shape;
pub use tuples::MAX_TUPLE_ARITY;
pub use tuples::align_up;
pub use tuples::generate_tuples_impls;
pub use tuples::id_mix;
pub use tuples::is_tuple_shape_for;
pub use tuples::layouts_ok;
pub use tuples::lemma_align_up;
pub use tuples::lemma_max_align;
pub use tuples::lemma_offset_bounded;
pub use tuples::lemma_offset_nonneg;
pub use tuples::lemma_payload_in_size;
pub use tuples::max_align_of;
pub use tuples::member_layouts;
pub use tuples::offset_at;
pub use tuples::payload_end;
pub use tuples::tuple_id_spec;
pub use tuples::tuple_shape;
pub use tuples::tuple_size_spec;
pub use value::MapEntry;
pub use value::Value;
pub use value::distinct_keys;
pub use value::lemma_veq_reflexive;
pub use value::lemma_veq_symmetric;
pub use value::scalar_fits;
pub use value::value_eq;
pub use value::value_fits;
pub use value::veq;
pub use vtable::HasherProxy;
pub use vtable::OpBody;
pub use vtable::OpSlot;
pub use vtable::TypeNameOp;
pub use vtable::TypeNameOpts;
pub use vtable::ValueVTable;
pub use vtable::clone_into_fn_for;
pub use vtable::cmp_fn_for;
pub use vtable::debug_fn_for;
pub use vtable::default_in_place_fn_for;
pub use vtable::display_fn_for;
pub use vtable::drop_in_place_fn_for;
pub use vtable::hash_bytes_spec;
pub use vtable::hash_fn_for;
pub use vtable::hash_step;
pub use vtable::parse_fn_for;
pub use vtable::partial_eq_fn_for;
pub use vtable::partial_ord_fn_for;
pub use vtable::slot_direct;
pub use vtable::slot_per_member;
