//! Shapes: static descriptors tying a type's identity, memory layout,
//! structural definition and operation table together.
//!
//! One shape exists per described type; it is immutable once built.  The
//! structural definition drives the interpreters: a scalar acts on its own
//! representation, a composite delegates to its members at their recorded
//! byte offsets, a map is traversed through [`crate::PeekMap`].

use vstd::prelude::*;

use crate::vtable::OpSlot;
use crate::vtable::ValueVTable;
use crate::vtable::slot_direct;
use crate::vtable::slot_per_member;

verus! {

/// The scalar representations a shape can describe.
#[derive(Clone, Copy, PartialEq, Eq, Structural)]
pub enum ScalarKind {
    U8,
    U16,
    U32,
    U64,
    I8,
    I16,
    I32,
    I64,
    Boolean,
    Str,
    Nothing,
}

/// Size and alignment of a type, in bytes, on a 64-bit target.
#[derive(Clone, Copy, PartialEq, Eq, Structural)]
pub struct Layout {
    /// Size in bytes.
    pub size: usize,
    /// Alignment in bytes; at least 1.
    pub align: usize,
}

/// Which flavour of composite a structural definition describes.
#[derive(Clone, Copy, PartialEq, Eq, Structural)]
pub enum StructKind {
    /// A record with named members.
    Struct,
    /// A nominal type with positional members.
    TupleStruct,
    /// An anonymous product with positional members.
    Tuple,
    /// A composite without members.
    Unit,
}

/// One member of a composite: its name (a decimal position for positional
/// members), its own shape, its byte offset within the owner, and flag bits.
pub struct Field {
    /// Member name, or the decimal rendering of its position.
    pub name: String,
    /// The member's own shape.
    pub shape: Shape,
    /// Byte offset of the member within the owning composite.
    pub offset: usize,
    /// Flag bits; 0 means none.
    pub flags: u64,
}

/// The structural definition of a composite.
pub struct StructDef {
    /// Which flavour of composite this is.
    pub kind: StructKind,
    /// The members, in declaration order.
    pub fields: Vec<Field>,
}

/// The structural definition of a map: the shapes of its keys and values.
pub struct MapDef {
    /// Shape of the keys.
    pub k: Box<Shape>,
    /// Shape of the values.
    pub v: Box<Shape>,
}

/// The structural definition variant of a shape.
pub enum Def {
    /// A scalar.
    Scalar(ScalarKind),
    /// A composite with members.
    Struct(StructDef),
    /// A map from keys to values.
    Mapping(MapDef),
}

/// A domain rule a value may be checked against beyond structural
/// conformance: the invariant-check hook of a shape.  A failed check means
/// the value is structurally valid but semantically invalid; it is reported
/// to the caller, never raised.
pub enum InvariantRule {
    /// A numeric scalar must not be zero.
    NonZero,
    /// Text or a map must not be empty.
    NonEmpty,
}

/// A static descriptor of one concrete type.
pub struct Shape {
    /// Identity of the described type.
    pub id: u64,
    /// Memory layout of the described type.
    pub layout: Layout,
    /// The operations the type supports.
    pub vtable: ValueVTable,
    /// The structural definition.
    pub def: Def,
    /// Optional documentation.
    pub doc: Option<String>,
    /// Optional post-construction domain rule for values of the type.
    pub invariant_check: Option<Box<InvariantRule>>,
}

/// Identity of each scalar shape.
pub open spec fn scalar_id(k: ScalarKind) -> u64 {
    match k {
        ScalarKind::U8 => 1,
        ScalarKind::U16 => 2,
        ScalarKind::U32 => 3,
        ScalarKind::U64 => 4,
        ScalarKind::I8 => 5,
        ScalarKind::I16 => 6,
        ScalarKind::I32 => 7,
        ScalarKind::I64 => 8,
        ScalarKind::Boolean => 9,
        ScalarKind::Str => 10,
        ScalarKind::Nothing => 11,
    }
}

/// Memory layout of each scalar shape, as on a 64-bit target.
pub open spec fn scalar_layout(k: ScalarKind) -> Layout {
    match k {
        ScalarKind::U8 => Layout { size: 1, align: 1 },
        ScalarKind::U16 => Layout { size: 2, align: 2 },
        ScalarKind::U32 => Layout { size: 4, align: 4 },
        ScalarKind::U64 => Layout { size: 8, align: 8 },
        ScalarKind::I8 => Layout { size: 1, align: 1 },
        ScalarKind::I16 => Layout { size: 2, align: 2 },
        ScalarKind::I32 => Layout { size: 4, align: 4 },
        ScalarKind::I64 => Layout { size: 8, align: 8 },
        ScalarKind::Boolean => Layout { size: 1, align: 1 },
        ScalarKind::Str => Layout { size: 24, align: 8 },
        ScalarKind::Nothing => Layout { size: 0, align: 1 },
    }
}

/// Whether the display entry is present.
pub open spec fn has_display(s: Shape) -> bool {
    s.vtable.display is Some
}

/// Whether the debug entry is present.
pub open spec fn has_debug(s: Shape) -> bool {
    s.vtable.debug is Some
}

/// Whether the default-construction entry is present.
pub open spec fn has_default(s: Shape) -> bool {
    s.vtable.default_in_place is Some
}

/// Whether the clone entry is present.
pub open spec fn has_clone(s: Shape) -> bool {
    s.vtable.clone_into is Some
}

/// Whether the equality entry is present.
pub open spec fn has_eq(s: Shape) -> bool {
    s.vtable.eq is Some
}

/// Whether the partial-ordering entry is present.
pub open spec fn has_partial_ord(s: Shape) -> bool {
    s.vtable.partial_ord is Some
}

/// Whether the total-ordering entry is present.
pub open spec fn has_ord(s: Shape) -> bool {
    s.vtable.ord is Some
}

/// Whether the hashing entry is present.
pub open spec fn has_hash(s: Shape) -> bool {
    s.vtable.hash is Some
}

/// Whether the drop entry is present.
pub open spec fn has_drop(s: Shape) -> bool {
    s.vtable.drop_in_place is Some
}

/// Whether the parse entry is present.
pub open spec fn has_parse(s: Shape) -> bool {
    s.vtable.parse is Some
}

/// Whether the convert-from entry is present.
pub open spec fn has_try_from(s: Shape) -> bool {
    s.vtable.try_from is Some
}

/// Every present value-operation entry of a scalar's table acts directly on
/// the scalar representation.
pub open spec fn scalar_slots_ok(vt: ValueVTable) -> bool {
    &&& (vt.display is Some ==> slot_direct(vt.display))
    &&& (vt.debug is Some ==> slot_direct(vt.debug))
    &&& (vt.default_in_place is Some ==> slot_direct(vt.default_in_place))
    &&& (vt.clone_into is Some ==> slot_direct(vt.clone_into))
    &&& (vt.eq is Some ==> slot_direct(vt.eq))
    &&& (vt.partial_ord is Some ==> slot_direct(vt.partial_ord))
    &&& (vt.ord is Some ==> slot_direct(vt.ord))
    &&& (vt.hash is Some ==> slot_direct(vt.hash))
    &&& (vt.drop_in_place is Some ==> slot_direct(vt.drop_in_place))
    &&& (vt.parse is Some ==> slot_direct(vt.parse))
    &&& (vt.try_from is Some ==> slot_direct(vt.try_from))
}

/// A shape is well formed: its layout is sane and its operation table is
/// coherent with its structural definition — scalar entries act directly,
/// composite entries delegate member-by-member and are present only when
/// every member supports the capability, and map shapes carry no value
/// operations (maps are traversed through [`crate::PeekMap`]).
pub open spec fn wf_shape(s: Shape) -> bool
    decreases s,
{
    &&& s.layout.align >= 1
    &&& match s.def {
        Def::Scalar(k) => {
            &&& s.layout == scalar_layout(k)
            &&& scalar_slots_ok(s.vtable)
        },
        Def::Struct(sd) => {
            &&& (forall|i: int| 0 <= i < sd.fields.len() ==> wf_shape(#[trigger] sd.fields[i].shape))
            &&& struct_gates_ok(s.vtable, sd.fields@)
        },
        Def::Mapping(md) => {
            &&& wf_shape(*md.k)
            &&& wf_shape(*md.v)
            &&& map_slots_ok(s.vtable)
        },
    }
}

/// The gates of every derivable capability of a composite, and the absence of
/// the non-derivable ones.
pub open spec fn struct_gates_ok(vt: ValueVTable, fields: Seq<Field>) -> bool {
    &&& (vt.debug is Some ==> slot_per_member(vt.debug) && forall|i: int|
        0 <= i < fields.len() ==> has_debug(#[trigger] fields[i].shape))
    &&& (vt.eq is Some ==> slot_per_member(vt.eq) && forall|i: int|
        0 <= i < fields.len() ==> has_eq(#[trigger] fields[i].shape))
    &&& (vt.partial_ord is Some ==> slot_per_member(vt.partial_ord) && forall|i: int|
        0 <= i < fields.len() ==> has_partial_ord(#[trigger] fields[i].shape))
    &&& (vt.ord is Some ==> slot_per_member(vt.ord) && forall|i: int|
        0 <= i < fields.len() ==> has_ord(#[trigger] fields[i].shape))
    &&& (vt.hash is Some ==> slot_per_member(vt.hash) && forall|i: int|
        0 <= i < fields.len() ==> has_hash(#[trigger] fields[i].shape))
    &&& (vt.clone_into is Some ==> slot_per_member(vt.clone_into) && forall|i: int|
        0 <= i < fields.len() ==> has_clone(#[trigger] fields[i].shape))
    &&& (vt.default_in_place is Some ==> slot_per_member(vt.default_in_place) && forall|i: int|
        0 <= i < fields.len() ==> has_default(#[trigger] fields[i].shape))
    &&& (vt.drop_in_place is Some ==> slot_per_member(vt.drop_in_place) && forall|i: int|
        0 <= i < fields.len() ==> has_drop(#[trigger] fields[i].shape))
    &&& vt.display is None
    &&& vt.parse is None
    &&& vt.try_from is None
}

/// A builder for shapes: set the identity, layout, operation table and
/// structural definition, optionally documentation and an invariant-check
/// rule, then finalize.  No partial shape is observable before `build`.
pub struct ShapeBuilder {
    /// The identity, once set.
    pub id: Option<u64>,
    /// The layout, once set.
    pub layout: Option<Layout>,
    /// The operation table, once set.
    pub vtable: Option<ValueVTable>,
    /// The structural definition, once set.
    pub def: Option<Def>,
    /// Optional documentation.
    pub doc: Option<String>,
    /// Optional invariant-check rule.
    pub invariant_check: Option<Box<InvariantRule>>,
}

impl ShapeBuilder {
    /// An empty builder.
    pub fn new() -> (r: Self)
        ensures
            r.id is None,
            r.layout is None,
            r.vtable is None,
            r.def is None,
            r.doc is None,
            r.invariant_check is None,
    {
        Self { id: None, layout: None, vtable: None, def: None, doc: None, invariant_check: None }
    }

    /// Set the identity.
    pub fn id(self, id: u64) -> (r: Self)
        ensures
            r == (ShapeBuilder { id: Some(id), ..self }),
    {
        Self { id: Some(id), ..self }
    }

    /// Set the layout.
    pub fn layout(self, layout: Layout) -> (r: Self)
        ensures
            r == (ShapeBuilder { layout: Some(layout), ..self }),
    {
        Self { layout: Some(layout), ..self }
    }

    /// Set the operation table.
    pub fn vtable(self, vtable: ValueVTable) -> (r: Self)
        ensures
            r == (ShapeBuilder { vtable: Some(vtable), ..self }),
    {
        Self { vtable: Some(vtable), ..self }
    }

    /// Set the structural definition.
    pub fn def(self, def: Def) -> (r: Self)
        ensures
            r == (ShapeBuilder { def: Some(def), ..self }),
    {
        Self { def: Some(def), ..self }
    }

    /// Set the documentation.
    pub fn doc(self, doc: String) -> (r: Self)
        ensures
            r == (ShapeBuilder { doc: Some(doc), ..self }),
    {
        Self { doc: Some(doc), ..self }
    }

    /// Set the invariant-check rule.
    pub fn invariant_check(self, rule: InvariantRule) -> (r: Self)
        ensures
            r == (ShapeBuilder { invariant_check: Some(Box::new(rule)), ..self }),
    {
        Self { invariant_check: Some(Box::new(rule)), ..self }
    }

    /// Finalize: every required part must have been set.
    pub fn build(self) -> (s: Shape)
        requires
            self.id is Some,
            self.layout is Some,
            self.vtable is Some,
            self.def is Some,
        ensures
            self.id matches Some(i) ==> s.id == i,
            self.layout matches Some(l) ==> s.layout == l,
            self.vtable matches Some(vt) ==> s.vtable == vt,
            self.def matches Some(d) ==> s.def == d,
            s.doc == self.doc,
            s.invariant_check == self.invariant_check,
    {
        match (self.id, self.layout, self.vtable, self.def) {
            (Some(id), Some(layout), Some(vtable), Some(def)) => Shape {
                id,
                layout,
                vtable,
                def,
                doc: self.doc,
                invariant_check: self.invariant_check,
            },
            _ => vstd::pervasive::unreached(),
        }
    }
}

/// Map shapes carry no value operations; their contents are reached through
/// traversal.
pub open spec fn map_slots_ok(vt: ValueVTable) -> bool {
    &&& vt.display is None
    &&& vt.debug is None
    &&& vt.default_in_place is None
    &&& vt.clone_into is None
    &&& vt.eq is None
    &&& vt.partial_ord is None
    &&& vt.ord is None
    &&& vt.hash is None
    &&& vt.drop_in_place is None
    &&& vt.parse is None
    &&& vt.try_from is None
}

} // verus!
