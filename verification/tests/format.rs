use shapely::ScalarKind;
use shapely::TypeNameOpts;
use shapely::Value;
use shapely::Shape;
use shapely::bool_to_string;
use shapely::debug_value;
use shapely::display_value;
use shapely::i64_to_string;
use shapely::PadAlign;
use shapely::PadOpts;
use shapely::map_shape;
use shapely::pad_text;
use shapely::parse_value;
use shapely::render_type_name;
use shapely::scalar_shape;
use shapely::tuple_shape;
use shapely::u64_to_string;
use shapely::write_type_name;
use shapely::write_type_name_list;

#[test]
fn decimal_rendering() {
    assert_eq!(u64_to_string(0), "0");
    assert_eq!(u64_to_string(42), "42");
    assert_eq!(u64_to_string(18446744073709551615), "18446744073709551615");
    assert_eq!(i64_to_string(-7), "-7");
    assert_eq!(i64_to_string(0), "0");
    assert_eq!(i64_to_string(-9223372036854775808), "-9223372036854775808");
    assert_eq!(bool_to_string(true), "true");
    assert_eq!(bool_to_string(false), "false");
}

#[test]
fn scalar_debug_renderings() {
    assert_eq!(debug_value(&scalar_shape(ScalarKind::U64), &Value::Unsigned(42)), "42");
    assert_eq!(debug_value(&scalar_shape(ScalarKind::I64), &Value::Signed(-3)), "-3");
    assert_eq!(debug_value(&scalar_shape(ScalarKind::Boolean), &Value::Bool(true)), "true");
    assert_eq!(
        debug_value(&scalar_shape(ScalarKind::Str), &Value::Text(String::from("hi"))),
        "\"hi\""
    );
    assert_eq!(debug_value(&scalar_shape(ScalarKind::Nothing), &Value::Unit), "()");
}

#[test]
fn scalar_display_renders_text_bare() {
    assert_eq!(
        display_value(&scalar_shape(ScalarKind::Str), &Value::Text(String::from("hi"))),
        "hi"
    );
    assert_eq!(display_value(&scalar_shape(ScalarKind::U8), &Value::Unsigned(7)), "7");
}

#[test]
fn composite_debug_joins_members() {
    let s = tuple_shape(vec![
        scalar_shape(ScalarKind::U8),
        scalar_shape(ScalarKind::Boolean),
        scalar_shape(ScalarKind::Str),
    ]);
    let v = Value::Tuple(vec![
        Value::Unsigned(5),
        Value::Bool(true),
        Value::Text(String::from("hi")),
    ]);
    assert_eq!(debug_value(&s, &v), "(5, true, \"hi\")");
}

#[test]
fn single_member_debug_has_no_separator() {
    let s = tuple_shape(vec![scalar_shape(ScalarKind::U8)]);
    let v = Value::Tuple(vec![Value::Unsigned(5)]);
    assert_eq!(debug_value(&s, &v), "(5)");
}

#[test]
fn nested_composite_debug() {
    let inner = tuple_shape(vec![scalar_shape(ScalarKind::U8), scalar_shape(ScalarKind::U8)]);
    let s = tuple_shape(vec![scalar_shape(ScalarKind::U64), inner]);
    let v = Value::Tuple(vec![
        Value::Unsigned(1),
        Value::Tuple(vec![Value::Unsigned(2), Value::Unsigned(3)]),
    ]);
    assert_eq!(debug_value(&s, &v), "(1, (2, 3))");
}

#[test]
fn scalar_type_names() {
    let inf = TypeNameOpts::infinite();
    assert_eq!(render_type_name(&scalar_shape(ScalarKind::U8), inf), "u8");
    assert_eq!(render_type_name(&scalar_shape(ScalarKind::Str), inf), "String");
    assert_eq!(render_type_name(&scalar_shape(ScalarKind::Nothing), inf), "()");
}

fn nested_pair() -> Shape {
    let inner = tuple_shape(vec![scalar_shape(ScalarKind::U8), scalar_shape(ScalarKind::U16)]);
    tuple_shape(vec![scalar_shape(ScalarKind::U64), inner])
}

#[test]
fn budget_zero_renders_ellipsis() {
    let s = nested_pair();
    assert_eq!(render_type_name(&s, TypeNameOpts::none()), "(\u{22ef})");
}

#[test]
fn budget_one_expands_one_level() {
    let s = nested_pair();
    assert_eq!(render_type_name(&s, TypeNameOpts::one()), "(u64, (\u{22ef}))");
}

#[test]
fn infinite_budget_expands_everything() {
    let s = nested_pair();
    assert_eq!(render_type_name(&s, TypeNameOpts::infinite()), "(u64, (u8, u16))");
}

#[test]
fn map_type_name_lists_key_and_value() {
    let m = map_shape(scalar_shape(ScalarKind::U64), scalar_shape(ScalarKind::Str));
    assert_eq!(render_type_name(&m, TypeNameOpts::infinite()), "HashMap<u64, String>");
    assert_eq!(render_type_name(&m, TypeNameOpts::none()), "HashMap<\u{22ef}>");
}

fn unwrap_unsigned(v: Option<Value>) -> u64 {
    match v {
        Some(Value::Unsigned(x)) => x,
        _ => panic!("unsigned value expected"),
    }
}

#[test]
fn parse_reads_unsigned_decimals() {
    let u8s = scalar_shape(ScalarKind::U8);
    assert_eq!(unwrap_unsigned(parse_value(&u8s, "42")), 42);
    assert_eq!(unwrap_unsigned(parse_value(&u8s, "0")), 0);
    assert_eq!(unwrap_unsigned(parse_value(&u8s, "255")), 255);
    assert!(parse_value(&u8s, "256").is_none());
    assert!(parse_value(&u8s, "").is_none());
    assert!(parse_value(&u8s, "4a").is_none());
    assert!(parse_value(&u8s, "-1").is_none());

    let u64s = scalar_shape(ScalarKind::U64);
    assert_eq!(unwrap_unsigned(parse_value(&u64s, "18446744073709551615")), 18446744073709551615);
    assert!(parse_value(&u64s, "18446744073709551616").is_none());
}

#[test]
fn parse_reads_boolean_words() {
    let bs = scalar_shape(ScalarKind::Boolean);
    assert!(matches!(parse_value(&bs, "true"), Some(Value::Bool(true))));
    assert!(matches!(parse_value(&bs, "false"), Some(Value::Bool(false))));
    assert!(parse_value(&bs, "tru").is_none());
    assert!(parse_value(&bs, "TRUE").is_none());
    assert!(parse_value(&bs, "").is_none());
}

#[test]
fn parse_reads_text_as_itself() {
    let ts = scalar_shape(ScalarKind::Str);
    match parse_value(&ts, "anything at all") {
        Some(Value::Text(t)) => assert_eq!(t, "anything at all"),
        _ => panic!("text value expected"),
    }
}

#[test]
fn only_the_unit_scalar_has_no_parse_entry() {
    assert!(scalar_shape(ScalarKind::I64).vtable.parse.is_some());
    assert!(scalar_shape(ScalarKind::Nothing).vtable.parse.is_none());
}

fn unwrap_signed(v: Option<Value>) -> i64 {
    match v {
        Some(Value::Signed(x)) => x,
        _ => panic!("signed value expected"),
    }
}

#[test]
fn parse_reads_signed_decimals() {
    let i8s = scalar_shape(ScalarKind::I8);
    assert_eq!(unwrap_signed(parse_value(&i8s, "-128")), -128);
    assert_eq!(unwrap_signed(parse_value(&i8s, "127")), 127);
    assert_eq!(unwrap_signed(parse_value(&i8s, "-0")), 0);
    assert!(parse_value(&i8s, "128").is_none());
    assert!(parse_value(&i8s, "-129").is_none());
    assert!(parse_value(&i8s, "-").is_none());
    assert!(parse_value(&i8s, "--1").is_none());

    let i64s = scalar_shape(ScalarKind::I64);
    assert_eq!(unwrap_signed(parse_value(&i64s, "-9223372036854775808")), -9223372036854775808);
    assert_eq!(unwrap_signed(parse_value(&i64s, "9223372036854775807")), 9223372036854775807);
    assert!(parse_value(&i64s, "9223372036854775808").is_none());
    assert!(parse_value(&i64s, "-9223372036854775809").is_none());
}

#[test]
fn display_then_parse_round_trips() {
    let u64s = scalar_shape(ScalarKind::U64);
    for n in [0u64, 7, 10, 99, 1000000007, 18446744073709551615] {
        let rendered = u64_to_string(n);
        assert_eq!(unwrap_unsigned(parse_value(&u64s, &rendered)), n);
    }
}

#[test]
fn write_type_name_appends_to_sink() {
    let mut out = String::from("name: ");
    write_type_name(&mut out, &scalar_shape(ScalarKind::Boolean), TypeNameOpts::infinite());
    assert_eq!(out, "name: bool");
}

fn pad(width: usize, align: PadAlign) -> PadOpts {
    PadOpts { width, align, fill: String::from(" ") }
}

#[test]
fn padding_fills_to_the_requested_width() {
    assert_eq!(pad_text("(", &pad(4, PadAlign::Left)), "(   ");
    assert_eq!(pad_text("(", &pad(4, PadAlign::Right)), "   (");
    assert_eq!(pad_text("(", &pad(4, PadAlign::Center)), " (  ");
    let dots = PadOpts { width: 3, align: PadAlign::Right, fill: String::from(".") };
    assert_eq!(pad_text("<", &dots), "..<");
}

#[test]
fn padding_leaves_wide_text_alone() {
    assert_eq!(pad_text("(((", &pad(2, PadAlign::Right)), "(((");
    assert_eq!(pad_text("(", &pad(0, PadAlign::Left)), "(");
}

#[test]
fn type_name_list_honors_padding_around_delimiters() {
    let shapes = vec![scalar_shape(ScalarKind::U8), scalar_shape(ScalarKind::Boolean)];
    let mut out = String::new();
    write_type_name_list(
        &mut out,
        TypeNameOpts::infinite(),
        &pad(3, PadAlign::Left),
        "(",
        ", ",
        ")",
        &shapes,
    );
    assert_eq!(out, "(  u8, bool)  ");
}

#[test]
fn type_name_list_pads_delimiters_around_the_ellipsis_body() {
    let shapes = vec![scalar_shape(ScalarKind::U8)];
    let mut out = String::new();
    write_type_name_list(
        &mut out,
        TypeNameOpts::none(),
        &pad(2, PadAlign::Right),
        "(",
        ", ",
        ")",
        &shapes,
    );
    assert_eq!(out, " (\u{22ef} )");
}
