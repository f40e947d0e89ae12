//! The shapes of the scalar types, and the trait through which a described
//! type hands out its shape.

use vstd::prelude::*;

use crate::shape::Def;
use crate::shape::ScalarKind;
use crate::shape::Shape;
use crate::shape::scalar_id;
use crate::shape::scalar_layout;
use crate::shape::wf_shape;
use crate::vtable::TypeNameOp;
use crate::vtable::ValueVTable;
use crate::vtable::clone_into_fn_for;
use crate::vtable::cmp_fn_for;
use crate::vtable::debug_fn_for;
use crate::vtable::default_in_place_fn_for;
use crate::vtable::display_fn_for;
use crate::vtable::drop_in_place_fn_for;
use crate::vtable::hash_fn_for;
use crate::vtable::parse_fn_for;
use crate::vtable::partial_eq_fn_for;
use crate::vtable::partial_ord_fn_for;
use crate::vtable::slot_direct;

verus! {

/// The rendered name of each scalar kind.
pub open spec fn scalar_name_spec(k: ScalarKind) -> Seq<char> {
    match k {
        ScalarKind::U8 => seq!['u', '8'],
        ScalarKind::U16 => seq!['u', '1', '6'],
        ScalarKind::U32 => seq!['u', '3', '2'],
        ScalarKind::U64 => seq!['u', '6', '4'],
        ScalarKind::I8 => seq!['i', '8'],
        ScalarKind::I16 => seq!['i', '1', '6'],
        ScalarKind::I32 => seq!['i', '3', '2'],
        ScalarKind::I64 => seq!['i', '6', '4'],
        ScalarKind::Boolean => seq!['b', 'o', 'o', 'l'],
        ScalarKind::Str => seq!['S', 't', 'r', 'i', 'n', 'g'],
        ScalarKind::Nothing => seq!['(', ')'],
    }
}

/// What the shape of a scalar kind looks like: the fixed identity, layout
/// and name of the kind, every value operation except convert-from acting
/// directly on the representation — only text needs a drop, and everything
/// but the unit value parses from text — and the marker bits of the kind.
pub open spec fn is_scalar_shape_for(s: Shape, k: ScalarKind) -> bool {
    &&& s.id == scalar_id(k)
    &&& s.layout == scalar_layout(k)
    &&& s.def == Def::Scalar(k)
    &&& s.doc is None
    &&& s.invariant_check is None
    &&& (*s.vtable.type_name_op) matches TypeNameOp::Atom(name) && name@ == scalar_name_spec(k)
    &&& slot_direct(s.vtable.display)
    &&& slot_direct(s.vtable.debug)
    &&& slot_direct(s.vtable.default_in_place)
    &&& slot_direct(s.vtable.clone_into)
    &&& slot_direct(s.vtable.eq)
    &&& slot_direct(s.vtable.partial_ord)
    &&& slot_direct(s.vtable.ord)
    &&& slot_direct(s.vtable.hash)
    &&& (k == ScalarKind::Str ==> slot_direct(s.vtable.drop_in_place))
    &&& (k != ScalarKind::Str ==> s.vtable.drop_in_place is None)
    &&& (k == ScalarKind::Nothing ==> s.vtable.parse is None)
    &&& (k != ScalarKind::Nothing ==> slot_direct(s.vtable.parse))
    &&& s.vtable.try_from is None
    &&& s.vtable.marker_traits == (if k == ScalarKind::Str {
        7u8
    } else {
        15u8
    })
}

/// The name of a scalar kind as text.
fn scalar_name(k: ScalarKind) -> (r: String)
    ensures
        r@ == scalar_name_spec(k),
{
    match k {
        ScalarKind::U8 => {
            proof {
                reveal_strlit("u8");
                assert("u8"@ =~= scalar_name_spec(ScalarKind::U8));
            }
            "u8".to_owned()
        },
        ScalarKind::U16 => {
            proof {
                reveal_strlit("u16");
                assert("u16"@ =~= scalar_name_spec(ScalarKind::U16));
            }
            "u16".to_owned()
        },
        ScalarKind::U32 => {
            proof {
                reveal_strlit("u32");
                assert("u32"@ =~= scalar_name_spec(ScalarKind::U32));
            }
            "u32".to_owned()
        },
        ScalarKind::U64 => {
            proof {
                reveal_strlit("u64");
                assert("u64"@ =~= scalar_name_spec(ScalarKind::U64));
            }
            "u64".to_owned()
        },
        ScalarKind::I8 => {
            proof {
                reveal_strlit("i8");
                assert("i8"@ =~= scalar_name_spec(ScalarKind::I8));
            }
            "i8".to_owned()
        },
        ScalarKind::I16 => {
            proof {
                reveal_strlit("i16");
                assert("i16"@ =~= scalar_name_spec(ScalarKind::I16));
            }
            "i16".to_owned()
        },
        ScalarKind::I32 => {
            proof {
                reveal_strlit("i32");
                assert("i32"@ =~= scalar_name_spec(ScalarKind::I32));
            }
            "i32".to_owned()
        },
        ScalarKind::I64 => {
            proof {
                reveal_strlit("i64");
                assert("i64"@ =~= scalar_name_spec(ScalarKind::I64));
            }
            "i64".to_owned()
        },
        ScalarKind::Boolean => {
            proof {
                reveal_strlit("bool");
                assert("bool"@ =~= scalar_name_spec(ScalarKind::Boolean));
            }
            "bool".to_owned()
        },
        ScalarKind::Str => {
            proof {
                reveal_strlit("String");
                assert("String"@ =~= scalar_name_spec(ScalarKind::Str));
            }
            "String".to_owned()
        },
        ScalarKind::Nothing => {
            proof {
                reveal_strlit("()");
                assert("()"@ =~= scalar_name_spec(ScalarKind::Nothing));
            }
            "()".to_owned()
        },
    }
}

/// The shape of a scalar kind.
pub fn scalar_shape(k: ScalarKind) -> (s: Shape)
    ensures
        is_scalar_shape_for(s, k),
        wf_shape(s),
{
    let is_str = matches!(k, ScalarKind::Str);
    let vt = ValueVTable {
        type_name_op: Box::new(TypeNameOp::Atom(scalar_name(k))),
        display: display_fn_for(),
        debug: debug_fn_for(),
        default_in_place: default_in_place_fn_for(),
        clone_into: clone_into_fn_for(),
        eq: partial_eq_fn_for(),
        partial_ord: partial_ord_fn_for(),
        ord: cmp_fn_for(),
        hash: hash_fn_for(),
        drop_in_place: if is_str {
            drop_in_place_fn_for()
        } else {
            None
        },
        parse: if matches!(k, ScalarKind::Nothing) {
            None
        } else {
            parse_fn_for()
        },
        try_from: None,
        marker_traits: if is_str {
            7
        } else {
            15
        },
    };
    let (size, align): (usize, usize) = match k {
        ScalarKind::U8 => (1, 1),
        ScalarKind::U16 => (2, 2),
        ScalarKind::U32 => (4, 4),
        ScalarKind::U64 => (8, 8),
        ScalarKind::I8 => (1, 1),
        ScalarKind::I16 => (2, 2),
        ScalarKind::I32 => (4, 4),
        ScalarKind::I64 => (8, 8),
        ScalarKind::Boolean => (1, 1),
        ScalarKind::Str => (24, 8),
        ScalarKind::Nothing => (0, 1),
    };
    let ident: u64 = match k {
        ScalarKind::U8 => 1,
        ScalarKind::U16 => 2,
        ScalarKind::U32 => 3,
        ScalarKind::U64 => 4,
        ScalarKind::I8 => 5,
        ScalarKind::I16 => 6,
        ScalarKind::I32 => 7,
        ScalarKind::I64 => 8,
        ScalarKind::Boolean => 9,
        ScalarKind::Str => 10,
        ScalarKind::Nothing => 11,
    };
    Shape {
        id: ident,
        layout: crate::shape::Layout { size, align },
        vtable: vt,
        def: Def::Scalar(k),
        doc: None,
        invariant_check: None,
    }
}

/// A type that hands out its own shape.
pub trait Shapely {
    /// What the shape of this type looks like: each implementation pins the
    /// descriptor [`Self::shape`] returns.
    spec fn shape_spec(s: Shape) -> bool;

    /// The shape describing this type.
    fn shape() -> (s: Shape)
        ensures
            wf_shape(s),
            Self::shape_spec(s),
    ;
}

impl Shapely for u8 {
    open spec fn shape_spec(s: Shape) -> bool {
        is_scalar_shape_for(s, ScalarKind::U8)
    }

    fn shape() -> (s: Shape) {
        scalar_shape(ScalarKind::U8)
    }
}

impl Shapely for u16 {
    open spec fn shape_spec(s: Shape) -> bool {
        is_scalar_shape_for(s, ScalarKind::U16)
    }

    fn shape() -> (s: Shape) {
        scalar_shape(ScalarKind::U16)
    }
}

impl Shapely for u32 {
    open spec fn shape_spec(s: Shape) -> bool {
        is_scalar_shape_for(s, ScalarKind::U32)
    }

    fn shape() -> (s: Shape) {
        scalar_shape(ScalarKind::U32)
    }
}

impl Shapely for u64 {
    open spec fn shape_spec(s: Shape) -> bool {
        is_scalar_shape_for(s, ScalarKind::U64)
    }

    fn shape() -> (s: Shape) {
        scalar_shape(ScalarKind::U64)
    }
}

impl Shapely for i8 {
    open spec fn shape_spec(s: Shape) -> bool {
        is_scalar_shape_for(s, ScalarKind::I8)
    }

    fn shape() -> (s: Shape) {
        scalar_shape(ScalarKind::I8)
    }
}

impl Shapely for i16 {
    open spec fn shape_spec(s: Shape) -> bool {
        is_scalar_shape_for(s, ScalarKind::I16)
    }

    fn shape() -> (s: Shape) {
        scalar_shape(ScalarKind::I16)
    }
}

impl Shapely for i32 {
    open spec fn shape_spec(s: Shape) -> bool {
        is_scalar_shape_for(s, ScalarKind::I32)
    }

    fn shape() -> (s: Shape) {
        scalar_shape(ScalarKind::I32)
    }
}

impl Shapely for i64 {
    open spec fn shape_spec(s: Shape) -> bool {
        is_scalar_shape_for(s, ScalarKind::I64)
    }

    fn shape() -> (s: Shape) {
        scalar_shape(ScalarKind::I64)
    }
}

impl Shapely for bool {
    open spec fn shape_spec(s: Shape) -> bool {
        is_scalar_shape_for(s, ScalarKind::Boolean)
    }

    fn shape() -> (s: Shape) {
        scalar_shape(ScalarKind::Boolean)
    }
}

impl Shapely for String {
    open spec fn shape_spec(s: Shape) -> bool {
        is_scalar_shape_for(s, ScalarKind::Str)
    }

    fn shape() -> (s: Shape) {
        scalar_shape(ScalarKind::Str)
    }
}

impl Shapely for () {
    open spec fn shape_spec(s: Shape) -> bool {
        is_scalar_shape_for(s, ScalarKind::Nothing)
    }

    fn shape() -> (s: Shape) {
        scalar_shape(ScalarKind::Nothing)
    }
}

} // verus!
