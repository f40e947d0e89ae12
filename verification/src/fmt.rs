//! Textual rendering: decimal numbers, scalar atoms, and — on top of those —
//! the debug, display and type-name interpreters.

use vstd::prelude::*;
use vstd::string::StrSliceExecFns;
use vstd::string::StringExecFns;

use vstd::slice::slice_index_get;

use crate::ops::tuple_members;
use crate::shape::Def;
use crate::shape::ScalarKind;
use crate::shape::Field;
use crate::shape::Shape;
use crate::shape::has_debug;
use crate::shape::has_parse;
use crate::shape::has_display;
use crate::shape::wf_shape;
use crate::value::Value;
use crate::value::value_fits;
use crate::vtable::TypeNameOp;
use crate::vtable::TypeNameOpts;

verus! {

/// The ellipsis marker emitted when the recursion budget is exhausted.
pub open spec fn ellipsis() -> Seq<char> {
    seq!['\u{22ef}']
}

/// The decimal digit character for one digit value.
pub open spec fn dec_digit(d: int) -> char {
    if d == 0 {
        '0'
    } else if d == 1 {
        '1'
    } else if d == 2 {
        '2'
    } else if d == 3 {
        '3'
    } else if d == 4 {
        '4'
    } else if d == 5 {
        '5'
    } else if d == 6 {
        '6'
    } else if d == 7 {
        '7'
    } else if d == 8 {
        '8'
    } else {
        '9'
    }
}

/// The decimal rendering of a natural number, most significant digit first.
pub open spec fn dec_spec(n: nat) -> Seq<char>
    decreases n,
{
    if n < 10 {
        seq![dec_digit(n as int)]
    } else {
        dec_spec(n / 10) + seq![dec_digit((n % 10) as int)]
    }
}

/// The decimal rendering of an integer: a leading minus sign when negative.
pub open spec fn int_dec_spec(n: int) -> Seq<char> {
    if n < 0 {
        seq!['-'] + dec_spec((-n) as nat)
    } else {
        dec_spec(n as nat)
    }
}

/// The rendering of a boolean.
pub open spec fn bool_text(b: bool) -> Seq<char> {
    if b {
        seq!['t', 'r', 'u', 'e']
    } else {
        seq!['f', 'a', 'l', 's', 'e']
    }
}

/// One decimal digit as text.
fn digit_str(d: u64) -> (r: &'static str)
    requires
        d < 10,
    ensures
        r@ == seq![dec_digit(d as int)],
{
    if d == 0 {
        proof {
            reveal_strlit("0");
            assert("0"@ =~= seq![dec_digit(0)]);
        }
        "0"
    } else if d == 1 {
        proof {
            reveal_strlit("1");
            assert("1"@ =~= seq![dec_digit(1)]);
        }
        "1"
    } else if d == 2 {
        proof {
            reveal_strlit("2");
            assert("2"@ =~= seq![dec_digit(2)]);
        }
        "2"
    } else if d == 3 {
        proof {
            reveal_strlit("3");
            assert("3"@ =~= seq![dec_digit(3)]);
        }
        "3"
    } else if d == 4 {
        proof {
            reveal_strlit("4");
            assert("4"@ =~= seq![dec_digit(4)]);
        }
        "4"
    } else if d == 5 {
        proof {
            reveal_strlit("5");
            assert("5"@ =~= seq![dec_digit(5)]);
        }
        "5"
    } else if d == 6 {
        proof {
            reveal_strlit("6");
            assert("6"@ =~= seq![dec_digit(6)]);
        }
        "6"
    } else if d == 7 {
        proof {
            reveal_strlit("7");
            assert("7"@ =~= seq![dec_digit(7)]);
        }
        "7"
    } else if d == 8 {
        proof {
            reveal_strlit("8");
            assert("8"@ =~= seq![dec_digit(8)]);
        }
        "8"
    } else {
        proof {
            reveal_strlit("9");
            assert("9"@ =~= seq![dec_digit(9)]);
        }
        "9"
    }
}

/// Render an unsigned number in decimal.
pub fn u64_to_string(n: u64) -> (r: String)
    ensures
        r@ == dec_spec(n as nat),
    decreases n,
{
    if n < 10 {
        digit_str(n).to_owned()
    } else {
        let mut s = u64_to_string(n / 10);
        s.append(digit_str(n % 10));
        proof {
            assert(s@ =~= dec_spec(n as nat));
        }
        s
    }
}

/// Render a signed number in decimal, with a leading minus sign when
/// negative.
pub fn i64_to_string(n: i64) -> (r: String)
    ensures
        r@ == int_dec_spec(n as int),
{
    if n >= 0 {
        u64_to_string(n as u64)
    } else {
        let wide: i128 = n as i128;
        let mag: u64 = (-wide) as u64;
        let mut s = {
            proof {
                reveal_strlit("-");
                assert("-"@ =~= seq!['-']);
            }
            "-".to_owned()
        };
        s.append(u64_to_string(mag).as_str());
        proof {
            assert(s@ =~= int_dec_spec(n as int));
        }
        s
    }
}

/// Render a boolean.
pub fn bool_to_string(b: bool) -> (r: String)
    ensures
        r@ == bool_text(b),
{
    if b {
        proof {
            reveal_strlit("true");
            assert("true"@ =~= bool_text(true));
        }
        "true".to_owned()
    } else {
        proof {
            reveal_strlit("false");
            assert("false"@ =~= bool_text(false));
        }
        "false".to_owned()
    }
}

/// The debug rendering of a scalar value: numbers in decimal, booleans as
/// words, text verbatim between quotes (no escaping), the unit value as an
/// empty pair of parentheses.
pub open spec fn scalar_debug_spec(v: Value) -> Seq<char> {
    match v {
        Value::Unit => seq!['(', ')'],
        Value::Bool(b) => bool_text(b),
        Value::Unsigned(x) => dec_spec(x as nat),
        Value::Signed(x) => int_dec_spec(x as int),
        Value::Text(t) => seq!['"'] + t@ + seq!['"'],
        _ => Seq::empty(),
    }
}

/// The display rendering of a scalar value: as the debug rendering, except
/// that text renders bare.
pub open spec fn scalar_display_spec(v: Value) -> Seq<char> {
    match v {
        Value::Text(t) => t@,
        _ => scalar_debug_spec(v),
    }
}

/// The debug rendering of a value of a shape: scalars render directly, a
/// composite renders every member in declaration order, separated by a fixed
/// separator, between an open and a close delimiter.
pub open spec fn debug_spec(s: Shape, v: Value) -> Seq<char>
    decreases s, 0int,
    via debug_spec_dec
{
    match s.def {
        Def::Scalar(_) => scalar_debug_spec(v),
        Def::Struct(sd) => seq!['('] + debug_members_spec(sd.fields, v->Tuple_0@, sd.fields@.len() as int) + seq![')'],
        Def::Mapping(_) => Seq::empty(),
    }
}

/// The first `i` members' debug renderings, joined by the fixed separator.
pub open spec fn debug_members_spec(fields: Vec<Field>, vs: Seq<Value>, i: int) -> Seq<char>
    decreases fields, i,
    via debug_members_spec_dec
{
    if i <= 0 || i > fields@.len() {
        Seq::empty()
    } else if i == 1 {
        debug_spec(fields@[0].shape, vs[0])
    } else {
        debug_members_spec(fields, vs, i - 1) + seq![',', ' '] + debug_spec(
            fields@[i - 1].shape,
            vs[i - 1],
        )
    }
}

#[via_fn]
proof fn debug_spec_dec(s: Shape, v: Value) {
    match s.def {
        Def::Struct(sd) => {
            assert(decreases_to!(s => s.def));
            assert(decreases_to!(s.def => s.def->Struct_0));
            assert(decreases_to!(sd => sd.fields));
            assert(decreases_to!(s => sd.fields));
        },
        _ => {},
    }
}

#[via_fn]
proof fn debug_members_spec_dec(fields: Vec<Field>, vs: Seq<Value>, i: int) {
    if 0 < i <= fields@.len() {
        assert(decreases_to!(fields => fields@[0]));
        assert(decreases_to!(fields@[0] => fields@[0].shape));
        assert(decreases_to!(fields => fields@[0].shape));
        assert(decreases_to!(fields => fields@[i - 1]));
        assert(decreases_to!(fields@[i - 1] => fields@[i - 1].shape));
        assert(decreases_to!(fields => fields@[i - 1].shape));
    }
}

/// Render a scalar value for debugging.
fn scalar_debug(v: &Value) -> (r: String)
    requires
        !(*v is Tuple),
        !(*v is Mapping),
    ensures
        r@ == scalar_debug_spec(*v),
{
    match v {
        Value::Unit => {
            proof {
                reveal_strlit("()");
                assert("()"@ =~= seq!['(', ')']);
            }
            "()".to_owned()
        },
        Value::Bool(b) => bool_to_string(*b),
        Value::Unsigned(x) => u64_to_string(*x),
        Value::Signed(x) => i64_to_string(*x),
        Value::Text(t) => {
            proof {
                reveal_strlit("\"");
                assert("\""@ =~= seq!['"']);
            }
            let mut out = "\"".to_owned();
            out.append(t.as_str());
            out.append("\"");
            proof {
                assert(out@ =~= scalar_debug_spec(*v));
            }
            out
        },
        _ => vstd::pervasive::unreached(),
    }
}

/// Format a value for debugging through the shape's debug entry.
pub fn debug_value(s: &Shape, v: &Value) -> (r: String)
    requires
        wf_shape(*s),
        value_fits(*s, *v),
        has_debug(*s),
    ensures
        r@ == debug_spec(*s, *v),
    decreases *s,
{
    match &s.def {
        Def::Scalar(_) => scalar_debug(v),
        Def::Struct(sd) => {
            let vs = tuple_members(v);
            let n: usize = sd.fields.len();
            proof {
                reveal_strlit("(");
                assert("("@ =~= seq!['(']);
                reveal_strlit(", ");
                assert(", "@ =~= seq![',', ' ']);
                reveal_strlit(")");
                assert(")"@ =~= seq![')']);
            }
            let mut out = "(".to_owned();
            let mut i: usize = 0;
            while i < n
                invariant
                    0 <= i <= n,
                    n == sd.fields@.len(),
                    s.def == Def::Struct(*sd),
                    *v == Value::Tuple(*vs),
                    wf_shape(*s),
                    value_fits(*s, *v),
                    has_debug(*s),
                    out@ == seq!['('] + debug_members_spec(sd.fields, vs@, i as int),
                decreases n - i,
            {
                proof {
                    assert(*sd == (*s).def->Struct_0);
                    assert(decreases_to!(*s => (*s).def));
                    assert(decreases_to!((*s).def => (*s).def->Struct_0));
                    assert(decreases_to!(*sd => sd.fields));
                    assert(decreases_to!(sd.fields => sd.fields@[i as int]));
                    assert(decreases_to!(sd.fields@[i as int] => sd.fields@[i as int].shape));
                    assert(decreases_to!(*s => sd.fields@[i as int].shape));
                    reveal_strlit(", ");
                    assert(", "@ =~= seq![',', ' ']);
                }
                if i > 0 {
                    out.append(", ");
                }
                let part = debug_value(&sd.fields[i].shape, &vs[i]);
                out.append(part.as_str());
                proof {
                    assert(out@ =~= seq!['('] + debug_members_spec(sd.fields, vs@, i + 1));
                }
                i = i + 1;
            }
            out.append(")");
            proof {
                assert(out@ =~= debug_spec(*s, *v));
            }
            out
        },
        Def::Mapping(_) => vstd::pervasive::unreached(),
    }
}

/// The rendered name of a type: an atom renders as is; a delimited name
/// renders its children — the member shapes of a composite, or the key and
/// value shapes of a map — joined by the separator, between the open and
/// close delimiters, or the ellipsis marker when the recursion budget is
/// exhausted.
pub open spec fn type_name_spec(s: Shape, opts: TypeNameOpts) -> Seq<char>
    decreases s, 0int,
    via type_name_spec_dec
{
    match *s.vtable.type_name_op {
        TypeNameOp::Atom(name) => name@,
        TypeNameOp::Delimited { open, sep, close } => {
            let body = match opts.for_children_spec() {
                Option::None => ellipsis(),
                Option::Some(c) => match s.def {
                    Def::Scalar(_) => Seq::<char>::empty(),
                    Def::Struct(sd) => name_list_spec(
                        sd.fields,
                        c,
                        sep@,
                        sd.fields@.len() as int,
                    ),
                    Def::Mapping(md) => type_name_spec(*md.k, c) + sep@ + type_name_spec(
                        *md.v,
                        c,
                    ),
                },
            };
            open@ + body + close@
        },
    }
}

/// The first `i` fields' type names, joined by the separator.
pub open spec fn name_list_spec(
    fields: Vec<Field>,
    opts: TypeNameOpts,
    sep: Seq<char>,
    i: int,
) -> Seq<char>
    decreases fields, i,
    via name_list_spec_dec
{
    if i <= 0 || i > fields@.len() {
        Seq::empty()
    } else if i == 1 {
        type_name_spec(fields@[0].shape, opts)
    } else {
        name_list_spec(fields, opts, sep, i - 1) + sep + type_name_spec(
            fields@[i - 1].shape,
            opts,
        )
    }
}

#[via_fn]
proof fn type_name_spec_dec(s: Shape, opts: TypeNameOpts) {
    match s.def {
        Def::Struct(sd) => {
            assert(decreases_to!(s => s.def));
            assert(decreases_to!(s.def => s.def->Struct_0));
            assert(decreases_to!(sd => sd.fields));
            assert(decreases_to!(s => sd.fields));
        },
        Def::Mapping(md) => {
            assert(decreases_to!(s => s.def));
            assert(decreases_to!(s.def => s.def->Mapping_0));
            assert(decreases_to!(md => md.k));
            assert(decreases_to!(md => md.v));
            assert(decreases_to!(s => *md.k));
            assert(decreases_to!(s => *md.v));
        },
        _ => {},
    }
}

#[via_fn]
proof fn name_list_spec_dec(fields: Vec<Field>, opts: TypeNameOpts, sep: Seq<char>, i: int) {
    if 0 < i <= fields@.len() {
        assert(decreases_to!(fields => fields@[0]));
        assert(decreases_to!(fields@[0] => fields@[0].shape));
        assert(decreases_to!(fields => fields@[0].shape));
        assert(decreases_to!(fields => fields@[i - 1]));
        assert(decreases_to!(fields@[i - 1] => fields@[i - 1].shape));
        assert(decreases_to!(fields => fields@[i - 1].shape));
    }
}

/// The ellipsis marker as text.
fn ellipsis_str() -> (r: &'static str)
    ensures
        r@ == ellipsis(),
{
    proof {
        reveal_strlit("⋯");
        assert("⋯"@ =~= ellipsis());
    }
    "⋯"
}

/// Render the name of a shape's type.
pub fn render_type_name(s: &Shape, opts: TypeNameOpts) -> (r: String)
    ensures
        r@ == type_name_spec(*s, opts),
    decreases *s,
{
    match &*s.vtable.type_name_op {
        TypeNameOp::Atom(name) => {
            let mut out = String::new();
            out.append(name.as_str());
            out
        },
        TypeNameOp::Delimited { open, sep, close } => {
            let mut out = String::new();
            out.append(open.as_str());
            match opts.for_children() {
                Option::None => {
                    out.append(ellipsis_str());
                },
                Option::Some(c) => {
                    match &s.def {
                        Def::Scalar(_) => {},
                        Def::Struct(sd) => {
                            let n: usize = sd.fields.len();
                            let mut i: usize = 0;
                            while i < n
                                invariant
                                    0 <= i <= n,
                                    n == sd.fields@.len(),
                                    s.def == Def::Struct(*sd),
                                    (*s.vtable.type_name_op) matches TypeNameOp::Delimited {
                                        open: o2,
                                        sep: s2,
                                        close: c2,
                                    } && s2 == *sep && o2 == *open,
                                    out@ == open@ + name_list_spec(sd.fields, c, sep@, i as int),
                                decreases n - i,
                            {
                                proof {
                                    assert(*sd == (*s).def->Struct_0);
                                    assert(decreases_to!(*s => (*s).def));
                                    assert(decreases_to!((*s).def => (*s).def->Struct_0));
                                    assert(decreases_to!(*sd => sd.fields));
                                    assert(decreases_to!(sd.fields => sd.fields@[i as int]));
                                    assert(decreases_to!(sd.fields@[i as int] => sd.fields@[i as int].shape));
                                    assert(decreases_to!(*s => sd.fields@[i as int].shape));
                                }
                                if i > 0 {
                                    out.append(sep.as_str());
                                }
                                let part = render_type_name(&sd.fields[i].shape, c);
                                out.append(part.as_str());
                                proof {
                                    assert(out@ =~= open@ + name_list_spec(
                                        sd.fields,
                                        c,
                                        sep@,
                                        i + 1,
                                    ));
                                }
                                i = i + 1;
                            }
                        },
                        Def::Mapping(md) => {
                            proof {
                                assert(*md == (*s).def->Mapping_0);
                                assert(decreases_to!(*s => (*s).def));
                                assert(decreases_to!((*s).def => (*s).def->Mapping_0));
                                assert(decreases_to!(*md => md.k));
                                assert(decreases_to!(*md => md.v));
                                assert(decreases_to!(*s => *md.k));
                                assert(decreases_to!(*s => *md.v));
                            }
                            let part_k = render_type_name(&md.k, c);
                            out.append(part_k.as_str());
                            out.append(sep.as_str());
                            let part_v = render_type_name(&md.v, c);
                            out.append(part_v.as_str());
                        },
                    }
                },
            }
            out.append(close.as_str());
            proof {
                assert(out@ =~= type_name_spec(*s, opts));
            }
            out
        },
    }
}

/// Append the rendered type name to a caller-supplied sink.
pub fn write_type_name(out: &mut String, s: &Shape, opts: TypeNameOpts)
    ensures
        final(out)@ == old(out)@ + type_name_spec(*s, opts),
{
    let part = render_type_name(s, opts);
    out.append(part.as_str());
}

/// Alignment of a padded delimiter within its minimum width.
#[derive(Clone, Copy, PartialEq, Eq, Structural)]
pub enum PadAlign {
    /// The delimiter first, fill after it.
    Left,
    /// Fill split around the delimiter, the odd position going to the right.
    Center,
    /// Fill first, the delimiter after it.
    Right,
}

/// Caller-specified padding applied around produced delimiters: a minimum
/// width in characters, an alignment, and the fill text appended once per
/// missing character position (conventionally a single space).
pub struct PadOpts {
    /// Minimum width of the padded delimiter, in characters.
    pub width: usize,
    /// Where the delimiter sits within the width.
    pub align: PadAlign,
    /// The fill, appended once per missing character position.
    pub fill: String,
}

/// The fill text repeated `n` times.
pub open spec fn repeat_text(fill: Seq<char>, n: int) -> Seq<char>
    decreases n,
{
    if n <= 0 {
        Seq::empty()
    } else {
        repeat_text(fill, n - 1) + fill
    }
}

/// A delimiter padded to a minimum width: text shorter than the width gets
/// the fill on the side (or sides) its alignment dictates; text at least as
/// wide stays as it is.
pub open spec fn pad_spec(text: Seq<char>, width: int, align: PadAlign, fill: Seq<char>) -> Seq<
    char,
> {
    if text.len() >= width {
        text
    } else {
        let k = width - text.len();
        match align {
            PadAlign::Left => text + repeat_text(fill, k),
            PadAlign::Right => repeat_text(fill, k) + text,
            PadAlign::Center => repeat_text(fill, k / 2) + text + repeat_text(fill, k - k / 2),
        }
    }
}

/// The fill text repeated `n` times, executably.
fn repeat_fill(fill: &str, n: usize) -> (r: String)
    ensures
        r@ == repeat_text(fill@, n as int),
{
    let mut out = String::new();
    let mut i: usize = 0;
    while i < n
        invariant
            0 <= i <= n,
            out@ == repeat_text(fill@, i as int),
        decreases n - i,
    {
        out.append(fill);
        i = i + 1;
    }
    out
}

/// Pad a delimiter to the caller's width and alignment.
pub fn pad_text(text: &str, p: &PadOpts) -> (r: String)
    ensures
        r@ == pad_spec(text@, p.width as int, p.align, p.fill@),
{
    let len: usize = text.unicode_len();
    if len >= p.width {
        text.to_owned()
    } else {
        let k: usize = p.width - len;
        match p.align {
            PadAlign::Left => {
                let mut out = text.to_owned();
                out.append(repeat_fill(p.fill.as_str(), k).as_str());
                out
            },
            PadAlign::Right => {
                let mut out = repeat_fill(p.fill.as_str(), k);
                out.append(text);
                out
            },
            PadAlign::Center => {
                let left: usize = k / 2;
                let mut out = repeat_fill(p.fill.as_str(), left);
                out.append(text);
                out.append(repeat_fill(p.fill.as_str(), k - left).as_str());
                out
            },
        }
    }
}

/// The first `i` shapes' type names, joined by the separator.
pub open spec fn shape_list_names_spec(
    shapes: Vec<Shape>,
    opts: TypeNameOpts,
    sep: Seq<char>,
    i: int,
) -> Seq<char>
    decreases shapes, i,
    via shape_list_names_spec_dec
{
    if i <= 0 || i > shapes@.len() {
        Seq::empty()
    } else if i == 1 {
        type_name_spec(shapes@[0], opts)
    } else {
        shape_list_names_spec(shapes, opts, sep, i - 1) + sep + type_name_spec(
            shapes@[i - 1],
            opts,
        )
    }
}

#[via_fn]
proof fn shape_list_names_spec_dec(shapes: Vec<Shape>, opts: TypeNameOpts, sep: Seq<char>, i: int) {
    if 0 < i <= shapes@.len() {
        assert(decreases_to!(shapes => shapes@[0]));
        assert(decreases_to!(shapes => shapes@[i - 1]));
    }
}

/// The body of a delimited list: the shapes' names joined by the separator,
/// or the ellipsis marker when the budget is exhausted.
pub open spec fn type_name_list_body_spec(
    shapes: Vec<Shape>,
    opts: TypeNameOpts,
    sep: Seq<char>,
) -> Seq<char> {
    match opts.for_children_spec() {
        Option::None => ellipsis(),
        Option::Some(c) => shape_list_names_spec(shapes, c, sep, shapes@.len() as int),
    }
}

/// Append a delimited list of type names to a caller-supplied sink,
/// honoring the caller's padding and alignment around the open and close
/// delimiters — also when the body falls to the ellipsis marker.
pub fn write_type_name_list(
    out: &mut String,
    opts: TypeNameOpts,
    pad: &PadOpts,
    open: &str,
    sep: &str,
    close: &str,
    shapes: &Vec<Shape>,
)
    ensures
        final(out)@ == old(out)@ + pad_spec(open@, pad.width as int, pad.align, pad.fill@)
            + type_name_list_body_spec(*shapes, opts, sep@) + pad_spec(
            close@,
            pad.width as int,
            pad.align,
            pad.fill@,
        ),
{
    let mut piece = pad_text(open, pad);
    match opts.for_children() {
        Option::None => {
            piece.append(ellipsis_str());
        },
        Option::Some(c) => {
            let n: usize = shapes.len();
            let ghost opened = piece@;
            let mut i: usize = 0;
            while i < n
                invariant
                    0 <= i <= n,
                    n == shapes@.len(),
                    piece@ == opened + shape_list_names_spec(*shapes, c, sep@, i as int),
                decreases n - i,
            {
                if i > 0 {
                    piece.append(sep);
                }
                let part = render_type_name(&shapes[i], c);
                piece.append(part.as_str());
                proof {
                    assert(piece@ =~= opened + shape_list_names_spec(*shapes, c, sep@, i + 1));
                }
                i = i + 1;
            }
        },
    }
    let closing = pad_text(close, pad);
    piece.append(closing.as_str());
    out.append(piece.as_str());
}

/// With the recursion budget exhausted, a delimited name renders the
/// ellipsis marker in place of its children, whatever they are.
pub proof fn lemma_ellipsis_fallback(s: Shape, opts: TypeNameOpts)
    requires
        opts.recurse_ttl == 0,
    ensures
        (*s.vtable.type_name_op) matches TypeNameOp::Delimited { open, sep, close }
            ==> type_name_spec(s, opts) == open@ + ellipsis() + close@,
{
}

/// With a budget of one, a composite expands exactly one level: its members
/// are rendered with an exhausted budget, so their own children fall to the
/// ellipsis marker.
pub proof fn lemma_budget_one_composite(s: Shape)
    requires
        s.def is Struct,
    ensures
        (*s.vtable.type_name_op) matches TypeNameOp::Delimited { open, sep, close }
            ==> type_name_spec(s, TypeNameOpts { recurse_ttl: 1 }) == open@ + name_list_spec(
            s.def->Struct_0.fields,
            TypeNameOpts { recurse_ttl: 0 },
            sep@,
            s.def->Struct_0.fields@.len() as int,
        ) + close@,
{
}

/// The debug rendering of a composite is exactly the members' renderings
/// joined by the fixed separator between the open and close delimiters.
pub proof fn lemma_debug_composite(s: Shape, v: Value)
    requires
        s.def is Struct,
        value_fits(s, v),
    ensures
        debug_spec(s, v) == seq!['('] + debug_members_spec(
            s.def->Struct_0.fields,
            v->Tuple_0@,
            s.def->Struct_0.fields@.len() as int,
        ) + seq![')'],
{
}

/// A single-member composite renders with no separator at all.
pub proof fn lemma_debug_single_member(s: Shape, v: Value)
    requires
        s.def is Struct,
        s.def->Struct_0.fields@.len() == 1,
        value_fits(s, v),
    ensures
        debug_spec(s, v) == seq!['('] + debug_spec(
            s.def->Struct_0.fields@[0].shape,
            v->Tuple_0@[0],
        ) + seq![')'],
{
}

/// Each further member contributes exactly one separator and its own
/// rendering.
pub proof fn lemma_debug_member_step(fields: Vec<Field>, vs: Seq<Value>, i: int)
    requires
        2 <= i <= fields@.len(),
    ensures
        debug_members_spec(fields, vs, i) == debug_members_spec(fields, vs, i - 1) + seq![
            ',',
            ' ',
        ] + debug_spec(fields@[i - 1].shape, vs[i - 1]),
{
}

/// A decimal digit character.
pub open spec fn is_dec_digit(c: char) -> bool {
    '0' <= c <= '9'
}

/// The numeric value of a digit character.
pub open spec fn digit_val(c: char) -> int {
    (c as u32) - 48
}

/// Every character is a decimal digit.
pub open spec fn all_dec_digits(chars: Seq<char>) -> bool {
    forall|i: int| 0 <= i < chars.len() ==> is_dec_digit(#[trigger] chars[i])
}

/// The number a digit string denotes, most significant digit first.
pub open spec fn dec_value(chars: Seq<char>) -> int
    decreases chars.len(),
{
    if chars.len() == 0 {
        0
    } else {
        dec_value(chars.drop_last()) * 10 + digit_val(chars.last())
    }
}

/// What parsing an unsigned decimal yields: the denoted number when the
/// text is one or more digits denoting at most `max`; nothing otherwise.
pub open spec fn parse_unsigned_spec(chars: Seq<char>, max: u64) -> Option<Value> {
    if chars.len() >= 1 && all_dec_digits(chars) && dec_value(chars) <= max {
        Some(Value::Unsigned(dec_value(chars) as u64))
    } else {
        None
    }
}

/// What parsing a boolean yields: the word `true` or the word `false`,
/// nothing otherwise.
pub open spec fn parse_bool_spec(chars: Seq<char>) -> Option<Value> {
    if chars == bool_text(true) {
        Some(Value::Bool(true))
    } else if chars == bool_text(false) {
        Some(Value::Bool(false))
    } else {
        None
    }
}

/// A digit string denotes a non-negative number.
proof fn lemma_dec_value_nonneg(chars: Seq<char>)
    requires
        all_dec_digits(chars),
    ensures
        dec_value(chars) >= 0,
    decreases chars.len(),
{
    if chars.len() > 0 {
        assert(all_dec_digits(chars.drop_last())) by {
            assert(forall|i: int|
                0 <= i < chars.len() - 1 ==> (#[trigger] chars.drop_last()[i]) == chars[i]);
        }
        lemma_dec_value_nonneg(chars.drop_last());
        assert(is_dec_digit(chars.last()));
    }
}

/// A digit string denotes at least what any of its prefixes denotes.
proof fn lemma_dec_value_prefix(chars: Seq<char>, i: int)
    requires
        all_dec_digits(chars),
        0 <= i <= chars.len(),
    ensures
        dec_value(chars.take(i)) <= dec_value(chars),
    decreases chars.len() - i,
{
    if i < chars.len() {
        assert(all_dec_digits(chars.take(i))) by {
            assert(forall|j: int|
                0 <= j < i ==> (#[trigger] chars.take(i)[j]) == chars[j]);
        }
        lemma_dec_value_nonneg(chars.take(i));
        assert(chars.take(i + 1).drop_last() =~= chars.take(i));
        assert(chars.take(i + 1).last() == chars[i]);
        assert(is_dec_digit(chars[i]));
        lemma_dec_value_prefix(chars, i + 1);
    } else {
        assert(chars.take(i) =~= chars);
    }
}

/// Parse an unsigned decimal of at most `max`.
fn parse_decimal(text: &str, max: u64) -> (r: Option<u64>)
    ensures
        match r {
            Some(v) => parse_unsigned_spec(text@, max) == Some(Value::Unsigned(v)),
            None => parse_unsigned_spec(text@, max) is None,
        },
{
    if !text.is_ascii() {
        proof {
            if text@.len() >= 1 && all_dec_digits(text@) {
                assert(vstd::utf8::is_ascii_chars(text@)) by {
                    assert(forall|i: int|
                        0 <= i < text@.len() ==> '\0' <= #[trigger] text@[i] <= '\u{7f}');
                }
            }
        }
        return None;
    }
    let bytes = text.as_bytes();
    let n: usize = bytes.len();
    proof {
        assert(bytes@ =~= Seq::new(text@.len(), |i: int| text@[i] as u8));
    }
    if n == 0 {
        return None;
    }
    let wide_max: u128 = max as u128;
    let mut acc: u128 = 0;
    let mut i: usize = 0;
    while i < n
        invariant
            0 <= i <= n,
            n == text@.len(),
            bytes@ == Seq::new(text@.len(), |j: int| text@[j] as u8),
            vstd::string::is_ascii(text),
            wide_max == max,
            all_dec_digits(text@.take(i as int)),
            acc == dec_value(text@.take(i as int)),
            acc <= wide_max,
        decreases n - i,
    {
        let b: u8 = *slice_index_get(bytes, i);
        proof {
            assert(bytes@[i as int] == text@[i as int] as u8);
            assert('\0' <= text@[i as int] <= '\u{7f}');
        }
        if b < 48 || b > 57 {
            proof {
                assert(!is_dec_digit(text@[i as int]));
            }
            return None;
        }
        let d: u8 = b - 48;
        acc = acc * 10 + (d as u128);
        proof {
            assert(text@.take(i + 1).drop_last() =~= text@.take(i as int));
            assert(text@.take(i + 1).last() == text@[i as int]);
            assert(is_dec_digit(text@[i as int]));
            assert(digit_val(text@[i as int]) == d);
        }
        if acc > wide_max {
            proof {
                if text@.len() >= 1 && all_dec_digits(text@) {
                    lemma_dec_value_prefix(text@, i + 1);
                }
            }
            return None;
        }
        i = i + 1;
    }
    proof {
        assert(text@.take(n as int) =~= text@);
    }
    Some(acc as u64)
}

/// What parsing a signed decimal yields: an optional leading minus sign
/// before one or more digits, the denoted value lying within `min..=max`;
/// nothing otherwise.
pub open spec fn parse_signed_spec(chars: Seq<char>, min: int, max: int) -> Option<Value> {
    if chars.len() >= 2 && chars[0] == '-' && all_dec_digits(chars.skip(1)) && min <= -dec_value(
        chars.skip(1),
    ) {
        Some(Value::Signed((-dec_value(chars.skip(1))) as i64))
    } else if chars.len() >= 1 && all_dec_digits(chars) && dec_value(chars) <= max {
        Some(Value::Signed(dec_value(chars) as i64))
    } else {
        None
    }
}

/// Parse a signed decimal: magnitudes up to `min_mag` when negative, up to
/// `max` when not.
fn parse_signed(text: &str, min_mag: u64, max: u64) -> (r: Option<i64>)
    requires
        min_mag <= 0x8000_0000_0000_0000,
        max < 0x8000_0000_0000_0000,
    ensures
        match r {
            Some(v) => parse_signed_spec(text@, -(min_mag as int), max as int) == Some(
                Value::Signed(v),
            ),
            None => parse_signed_spec(text@, -(min_mag as int), max as int) is None,
        },
        r matches Some(v) ==> -(min_mag as int) <= v <= max,
{
    if !text.is_ascii() {
        proof {
            if (text@.len() >= 2 && text@[0] == '-' && all_dec_digits(text@.skip(1))) || (
            text@.len() >= 1 && all_dec_digits(text@)) {
                assert(vstd::utf8::is_ascii_chars(text@)) by {
                    assert(forall|i: int|
                        1 <= i < text@.len() ==> text@.skip(1)[i - 1] == #[trigger] text@[i]);
                    assert(forall|i: int|
                        0 <= i < text@.len() ==> '\0' <= #[trigger] text@[i] <= '\u{7f}');
                }
            }
        }
        return None;
    }
    let bytes = text.as_bytes();
    proof {
        assert(bytes@ =~= Seq::new(text@.len(), |i: int| text@[i] as u8));
    }
    let n: usize = bytes.len();
    if n >= 1 && *slice_index_get(bytes, 0) == 45 {
        proof {
            assert(bytes@[0] == text@[0] as u8);
            assert('\0' <= text@[0] <= '\u{7f}');
            assert(text@[0] == '-');
        }
        let rest = text.substring_ascii(1, n);
        proof {
            assert(rest@ =~= text@.skip(1));
        }
        match parse_decimal(rest, min_mag) {
            Some(mag) => {
                let neg: i64 = (-(mag as i128)) as i64;
                proof {
                    assert(parse_unsigned_spec(rest@, min_mag) == Some(Value::Unsigned(mag)));
                    assert(all_dec_digits(rest@));
                    lemma_dec_value_nonneg(rest@);
                }
                Some(neg)
            },
            None => {
                proof {
                    assert(parse_unsigned_spec(rest@, min_mag) is None);
                    if all_dec_digits(rest@) && rest@.len() >= 1 {
                        lemma_dec_value_nonneg(rest@);
                    }
                    assert(!is_dec_digit(text@[0]));
                }
                None
            },
        }
    } else {
        proof {
            if text@.len() >= 1 {
                assert(bytes@[0] == text@[0] as u8);
                assert('\0' <= text@[0] <= '\u{7f}');
                assert(text@[0] != '-');
            }
        }
        match parse_decimal(text, max) {
            Some(v) => {
                proof {
                    assert(parse_unsigned_spec(text@, max) == Some(Value::Unsigned(v)));
                    assert(all_dec_digits(text@));
                    lemma_dec_value_nonneg(text@);
                }
                Some(v as i64)
            },
            None => None,
        }
    }
}

/// Parse a boolean word.
fn parse_bool(text: &str) -> (r: Option<bool>)
    ensures
        match r {
            Some(v) => parse_bool_spec(text@) == Some(Value::Bool(v)),
            None => parse_bool_spec(text@) is None,
        },
{
    if !text.is_ascii() {
        proof {
            if text@ == bool_text(true) || text@ == bool_text(false) {
                assert(vstd::utf8::is_ascii_chars(text@)) by {
                    assert(forall|i: int|
                        0 <= i < text@.len() ==> '\0' <= #[trigger] text@[i] <= '\u{7f}');
                }
            }
        }
        return None;
    }
    let bytes = text.as_bytes();
    proof {
        assert(bytes@ =~= Seq::new(text@.len(), |i: int| text@[i] as u8));
    }
    if bytes.len() == 4 {
        let b0 = *slice_index_get(bytes, 0);
        let b1 = *slice_index_get(bytes, 1);
        let b2 = *slice_index_get(bytes, 2);
        let b3 = *slice_index_get(bytes, 3);
        if b0 == 116 && b1 == 114 && b2 == 117 && b3 == 101 {
            proof {
                assert forall|i: int| 0 <= i < 4 implies text@[i] == bool_text(true)[i] by {
                    assert(bytes@[i] == text@[i] as u8);
                    assert('\0' <= text@[i] <= '\u{7f}');
                }
                assert(text@ =~= bool_text(true));
            }
            return Some(true);
        }
    }
    if bytes.len() == 5 {
        let b0 = *slice_index_get(bytes, 0);
        let b1 = *slice_index_get(bytes, 1);
        let b2 = *slice_index_get(bytes, 2);
        let b3 = *slice_index_get(bytes, 3);
        let b4 = *slice_index_get(bytes, 4);
        if b0 == 102 && b1 == 97 && b2 == 108 && b3 == 115 && b4 == 101 {
            proof {
                assert forall|i: int| 0 <= i < 5 implies text@[i] == bool_text(false)[i] by {
                    assert(bytes@[i] == text@[i] as u8);
                    assert('\0' <= text@[i] <= '\u{7f}');
                }
                assert(text@ =~= bool_text(false));
            }
            return Some(false);
        }
    }
    proof {
        if text@ == bool_text(true) {
            assert(bytes@[0] == 116 && bytes@[1] == 114 && bytes@[2] == 117 && bytes@[3] == 101);
        }
        if text@ == bool_text(false) {
            assert(bytes@[0] == 102 && bytes@[1] == 97 && bytes@[2] == 108 && bytes@[3] == 115
                && bytes@[4] == 101);
        }
    }
    None
}

/// Parse a value from text through the shape's parse entry.  Failure is
/// reported by an absent result, never raised: numbers parse from decimal
/// digits within the kind's range, with an optional leading minus sign for
/// the signed kinds, booleans from the two boolean words, text from itself;
/// the unit value does not parse.
pub fn parse_value(s: &Shape, text: &str) -> (r: Option<Value>)
    requires
        wf_shape(*s),
        has_parse(*s),
    ensures
        match s.def {
            Def::Scalar(k) => match k {
                ScalarKind::U8 => r == parse_unsigned_spec(text@, 0xff),
                ScalarKind::U16 => r == parse_unsigned_spec(text@, 0xffff),
                ScalarKind::U32 => r == parse_unsigned_spec(text@, 0xffff_ffff),
                ScalarKind::U64 => r == parse_unsigned_spec(text@, 0xffff_ffff_ffff_ffff),
                ScalarKind::I8 => r == parse_signed_spec(text@, -0x80, 0x7f),
                ScalarKind::I16 => r == parse_signed_spec(text@, -0x8000, 0x7fff),
                ScalarKind::I32 => r == parse_signed_spec(text@, -0x8000_0000, 0x7fff_ffff),
                ScalarKind::I64 => r == parse_signed_spec(
                    text@,
                    -0x8000_0000_0000_0000,
                    0x7fff_ffff_ffff_ffff,
                ),
                ScalarKind::Boolean => r == parse_bool_spec(text@),
                ScalarKind::Str => r matches Some(v) && v matches Value::Text(t) && t@ == text@,
                ScalarKind::Nothing => r is None,
            },
            _ => r is None,
        },
        r matches Some(v) ==> value_fits(*s, v),
{
    match &s.def {
        Def::Scalar(k) => match k {
            ScalarKind::U8 => match parse_decimal(text, 0xff) {
                Some(v) => {
                    proof {
                        assert(parse_unsigned_spec(text@, 0xff) == Some(Value::Unsigned(v)));
                        assert(all_dec_digits(text@));
                        lemma_dec_value_nonneg(text@);
                        assert(v <= 0xff);
                    }
                    Some(Value::Unsigned(v))
                },
                None => None,
            },
            ScalarKind::U16 => match parse_decimal(text, 0xffff) {
                Some(v) => {
                    proof {
                        assert(parse_unsigned_spec(text@, 0xffff) == Some(Value::Unsigned(v)));
                        assert(all_dec_digits(text@));
                        lemma_dec_value_nonneg(text@);
                        assert(v <= 0xffff);
                    }
                    Some(Value::Unsigned(v))
                },
                None => None,
            },
            ScalarKind::U32 => match parse_decimal(text, 0xffff_ffff) {
                Some(v) => {
                    proof {
                        assert(parse_unsigned_spec(text@, 0xffff_ffff) == Some(Value::Unsigned(v)));
                        assert(all_dec_digits(text@));
                        lemma_dec_value_nonneg(text@);
                        assert(v <= 0xffff_ffff);
                    }
                    Some(Value::Unsigned(v))
                },
                None => None,
            },
            ScalarKind::U64 => match parse_decimal(text, 0xffff_ffff_ffff_ffff) {
                Some(v) => {
                    proof {
                        assert(parse_unsigned_spec(text@, 0xffff_ffff_ffff_ffff) == Some(Value::Unsigned(v)));
                        assert(all_dec_digits(text@));
                        lemma_dec_value_nonneg(text@);
                        assert(v <= 0xffff_ffff_ffff_ffff);
                    }
                    Some(Value::Unsigned(v))
                },
                None => None,
            },
            ScalarKind::I8 => match parse_signed(text, 0x80, 0x7f) {
                Some(v) => Some(Value::Signed(v)),
                None => None,
            },
            ScalarKind::I16 => match parse_signed(text, 0x8000, 0x7fff) {
                Some(v) => Some(Value::Signed(v)),
                None => None,
            },
            ScalarKind::I32 => match parse_signed(text, 0x8000_0000, 0x7fff_ffff) {
                Some(v) => Some(Value::Signed(v)),
                None => None,
            },
            ScalarKind::I64 => match parse_signed(text, 0x8000_0000_0000_0000, 0x7fff_ffff_ffff_ffff) {
                Some(v) => Some(Value::Signed(v)),
                None => None,
            },
            ScalarKind::Boolean => match parse_bool(text) {
                Some(v) => Some(Value::Bool(v)),
                None => None,
            },
            ScalarKind::Str => Some(Value::Text(text.to_owned())),
            ScalarKind::Nothing => None,
        },
        _ => vstd::pervasive::unreached(),
    }
}

/// The display rendering of a number consists of decimal digits.
proof fn lemma_dec_spec_digits(n: nat)
    ensures
        dec_spec(n).len() >= 1,
        all_dec_digits(dec_spec(n)),
    decreases n,
{
    if n < 10 {
        assert(is_dec_digit(dec_digit(n as int)));
    } else {
        lemma_dec_spec_digits(n / 10);
        assert(is_dec_digit(dec_digit((n % 10) as int)));
        assert(forall|i: int|
            0 <= i < dec_spec(n).len() - 1 ==> (#[trigger] dec_spec(n)[i]) == dec_spec(n / 10)[i]);
        assert(dec_spec(n)[dec_spec(n).len() - 1] == dec_digit((n % 10) as int));
    }
}

/// The display rendering of a number denotes the number itself.
proof fn lemma_dec_value_of_dec_spec(n: nat)
    ensures
        dec_value(dec_spec(n)) == n,
    decreases n,
{
    if n < 10 {
        assert(seq![dec_digit(n as int)].drop_last() =~= Seq::<char>::empty());
        assert(dec_value(Seq::<char>::empty()) == 0);
        assert(seq![dec_digit(n as int)].last() == dec_digit(n as int));
        assert(digit_val(dec_digit(n as int)) == n);
    } else {
        lemma_dec_value_of_dec_spec(n / 10);
        assert(dec_spec(n).drop_last() =~= dec_spec(n / 10));
        assert(dec_spec(n).last() == dec_digit((n % 10) as int));
        assert(digit_val(dec_digit((n % 10) as int)) == n % 10);
        assert(dec_spec(n).len() == dec_spec(n / 10).len() + 1);
        assert(dec_value(dec_spec(n)) == dec_value(dec_spec(n).drop_last()) * 10 + digit_val(
            dec_spec(n).last(),
        ));
        assert((n / 10) * 10 + n % 10 == n) by {
            vstd::arithmetic::div_mod::lemma_fundamental_div_mod(n as int, 10);
        }
    }
}

/// Display and parse round-trip: parsing the decimal rendering of an
/// unsigned number yields the number back.
pub proof fn lemma_display_parse_round_trip(n: u64)
    ensures
        parse_unsigned_spec(dec_spec(n as nat), 0xffff_ffff_ffff_ffff) == Some(Value::Unsigned(n)),
{
    lemma_dec_spec_digits(n as nat);
    lemma_dec_value_of_dec_spec(n as nat);
}

/// Format a value for display through the shape's display entry.  Only
/// scalar shapes carry a display entry.
pub fn display_value(s: &Shape, v: &Value) -> (r: String)
    requires
        wf_shape(*s),
        value_fits(*s, *v),
        has_display(*s),
    ensures
        r@ == scalar_display_spec(*v),
{
    match &s.def {
        Def::Scalar(_) => match v {
            Value::Text(t) => {
                let mut out = String::new();
                out.append(t.as_str());
                out
            },
            _ => scalar_debug(v),
        },
        _ => vstd::pervasive::unreached(),
    }
}

} // verus!
