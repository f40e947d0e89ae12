//! Capability-conditional composition, and the bounded-arity family of
//! composite shapes built with it.
//!
//! A composite shape is derived from its member shapes: each derivable
//! capability is granted only when every member grants it, and the members'
//! byte offsets are computed from the members' own layouts, never guessed.

use vstd::prelude::*;
use vstd::arithmetic::div_mod::lemma_mod_bound;

use crate::fmt::dec_spec;
use crate::fmt::u64_to_string;
use crate::shape::Def;
use crate::shape::Field;
use crate::shape::Layout;
use crate::shape::Shape;
use crate::shape::StructDef;
use crate::shape::StructKind;
use crate::shape::has_clone;
use crate::shape::has_debug;
use crate::shape::has_default;
use crate::shape::has_drop;
use crate::shape::has_eq;
use crate::shape::has_hash;
use crate::shape::has_ord;
use crate::shape::has_partial_ord;
use crate::shape::wf_shape;
use crate::vtable::OpBody;
use crate::vtable::TypeNameOp;
use crate::vtable::ValueVTable;

verus! {

/// The largest arity in the generated family of composites.
pub const MAX_TUPLE_ARITY: usize = 12;

/// `off` rounded up to the next multiple of `align`.
pub open spec fn align_up(off: int, align: int) -> int
    recommends
        0 <= off,
        1 <= align,
{
    if off % align == 0 {
        off
    } else {
        off + align - off % align
    }
}

/// The layouts of a member list, in declaration order.
pub open spec fn member_layouts(members: Seq<Shape>) -> Seq<Layout> {
    members.map(|i: int, m: Shape| m.layout)
}

/// Every alignment is at least 1.
pub open spec fn layouts_ok(ls: Seq<Layout>) -> bool {
    forall|i: int| 0 <= i < ls.len() ==> (#[trigger] ls[i]).align >= 1
}

/// The byte offset of member `i` in the composite of members with layouts
/// `ls`: members are placed in declaration order, each aligned to its own
/// alignment.
pub open spec fn offset_at(ls: Seq<Layout>, i: int) -> int
    recommends
        0 <= i < ls.len(),
        layouts_ok(ls),
    decreases i,
{
    if i <= 0 {
        0
    } else {
        align_up(offset_at(ls, i - 1) + ls[i - 1].size, ls[i].align as int)
    }
}

/// The largest member alignment, or 1 when there are no members.
pub open spec fn max_align_of(ls: Seq<Layout>) -> int
    decreases ls.len(),
{
    if ls.len() == 0 {
        1
    } else {
        let rest = max_align_of(ls.drop_last());
        if ls.last().align > rest {
            ls.last().align as int
        } else {
            rest
        }
    }
}

/// One past the last byte of the last member.
pub open spec fn payload_end(ls: Seq<Layout>) -> int {
    if ls.len() == 0 {
        0
    } else {
        offset_at(ls, ls.len() - 1) + ls.last().size
    }
}

/// The size of the composite: the payload, rounded up to the composite's
/// alignment.
pub open spec fn tuple_size_spec(ls: Seq<Layout>) -> int {
    align_up(payload_end(ls), max_align_of(ls))
}

/// One mixing step of the composite identity.
pub open spec fn id_mix(acc: u64, x: u64) -> u64 {
    ((acc << 7) | (acc >> 57)) ^ x
}

/// The identity of a composite, mixed from its members' identities in
/// declaration order.
pub open spec fn tuple_id_spec(members: Seq<Shape>) -> u64
    decreases members.len(),
{
    if members.len() == 0 {
        0x7475706c65
    } else {
        id_mix(tuple_id_spec(members.drop_last()), members.last().id)
    }
}

/// Rounding up to a positive alignment moves an offset forward by less than
/// one alignment unit.
pub proof fn lemma_align_up(off: int, align: int)
    requires
        0 <= off,
        1 <= align,
    ensures
        off <= align_up(off, align) < off + align,
{
    lemma_mod_bound(off, align);
}

/// The alignment of the composite is positive and no smaller than any
/// member's.
pub proof fn lemma_max_align(ls: Seq<Layout>)
    requires
        layouts_ok(ls),
    ensures
        max_align_of(ls) >= 1,
        forall|i: int| 0 <= i < ls.len() ==> (#[trigger] ls[i]).align <= max_align_of(ls),
    decreases ls.len(),
{
    if ls.len() > 0 {
        assert(layouts_ok(ls.drop_last())) by {
            assert(forall|i: int|
                0 <= i < ls.len() - 1 ==> (#[trigger] ls.drop_last()[i]) == ls[i]);
        }
        lemma_max_align(ls.drop_last());
        assert forall|i: int|
            0 <= i < ls.len() - 1 implies (#[trigger] ls[i]).align <= max_align_of(
            ls.drop_last(),
        ) by {
            assert(ls.drop_last()[i] == ls[i]);
        }
    }
}

/// Offsets are non-negative.
pub proof fn lemma_offset_nonneg(ls: Seq<Layout>, i: int)
    requires
        layouts_ok(ls),
        0 <= i < ls.len(),
    ensures
        0 <= offset_at(ls, i),
    decreases i,
{
    if i > 0 {
        lemma_offset_nonneg(ls, i - 1);
        lemma_align_up(offset_at(ls, i - 1) + ls[i - 1].size, ls[i].align as int);
    }
}

/// Every member lies wholly within the payload.
pub proof fn lemma_offset_bounded(ls: Seq<Layout>, i: int)
    requires
        layouts_ok(ls),
        0 <= i < ls.len(),
    ensures
        offset_at(ls, i) + ls[i].size <= payload_end(ls),
    decreases ls.len() - i,
{
    if i < ls.len() - 1 {
        lemma_offset_nonneg(ls, i);
        lemma_align_up(offset_at(ls, i) + ls[i].size, ls[i + 1].align as int);
        lemma_offset_bounded(ls, i + 1);
    }
}

/// The payload fits in the composite's size.
pub proof fn lemma_payload_in_size(ls: Seq<Layout>)
    requires
        layouts_ok(ls),
        ls.len() >= 1,
    ensures
        0 <= payload_end(ls) <= tuple_size_spec(ls),
    decreases ls.len(),
{
    lemma_offset_nonneg(ls, ls.len() - 1);
    lemma_max_align(ls);
    lemma_align_up(payload_end(ls), max_align_of(ls));
}

/// What the composite shape of a member list looks like: its identity is
/// mixed from the members' identities; its layout is computed from the
/// members' layouts; it has one positionally-named field per member, at that
/// member's computed offset; and each derivable capability is present
/// exactly when every member has it, delegating member-by-member.  Type-name
/// rendering is never gated: the members' names are joined between the fixed
/// delimiters.
pub open spec fn is_tuple_shape_for(s: Shape, members: Seq<Shape>) -> bool {
    let ls = member_layouts(members);
    &&& s.id == tuple_id_spec(members)
    &&& s.layout.size == tuple_size_spec(ls)
    &&& s.layout.align == max_align_of(ls)
    &&& s.doc is None
    &&& s.invariant_check is None
    &&& s.vtable.marker_traits == 0
    &&& (*s.vtable.type_name_op) matches TypeNameOp::Delimited { open, sep, close }
        && open@ == seq!['('] && sep@ == seq![',', ' '] && close@ == seq![')']
    &&& s.def matches Def::Struct(sd) && {
        &&& sd.kind == StructKind::Tuple
        &&& sd.fields@.len() == members.len()
        &&& forall|i: int|
            0 <= i < members.len() ==> {
                &&& (#[trigger] sd.fields@[i]).shape == members[i]
                &&& sd.fields@[i].offset == offset_at(ls, i)
                &&& sd.fields@[i].name@ == dec_spec(i as nat)
                &&& sd.fields@[i].flags == 0
            }
    }
    &&& (has_debug(s) <==> forall|i: int| 0 <= i < members.len() ==> has_debug(
        #[trigger] members[i],
    ))
    &&& (has_eq(s) <==> forall|i: int| 0 <= i < members.len() ==> has_eq(#[trigger] members[i]))
    &&& (has_partial_ord(s) <==> forall|i: int| 0 <= i < members.len() ==> has_partial_ord(
        #[trigger] members[i],
    ))
    &&& (has_ord(s) <==> forall|i: int| 0 <= i < members.len() ==> has_ord(#[trigger] members[i]))
    &&& (has_hash(s) <==> forall|i: int| 0 <= i < members.len() ==> has_hash(
        #[trigger] members[i],
    ))
    &&& (has_clone(s) <==> forall|i: int| 0 <= i < members.len() ==> has_clone(
        #[trigger] members[i],
    ))
    &&& (has_default(s) <==> forall|i: int| 0 <= i < members.len() ==> has_default(
        #[trigger] members[i],
    ))
    &&& (has_drop(s) <==> forall|i: int| 0 <= i < members.len() ==> has_drop(
        #[trigger] members[i],
    ))
    &&& s.vtable.display is None
    &&& s.vtable.parse is None
    &&& s.vtable.try_from is None
}

/// `off` rounded up to the next multiple of `align`, executably.
fn align_up_usize(off: usize, align: usize) -> (r: usize)
    requires
        1 <= align,
        align_up(off as int, align as int) <= usize::MAX,
    ensures
        r as int == align_up(off as int, align as int),
{
    proof {
        lemma_mod_bound(off as int, align as int);
    }
    let rem: usize = off % align;
    if rem == 0 {
        off
    } else {
        off + (align - rem)
    }
}

/// Derive the composite shape of a member list: the capability-conditional
/// composition.  Each derivable capability is granted exactly when all
/// members grant it; fields are positionally named and placed at offsets
/// computed from the members' layouts.
pub fn tuple_shape(members: Vec<Shape>) -> (s: Shape)
    requires
        1 <= members@.len(),
        forall|i: int| 0 <= i < members@.len() ==> wf_shape(#[trigger] members@[i]),
        tuple_size_spec(member_layouts(members@)) <= usize::MAX,
    ensures
        is_tuple_shape_for(s, members@),
        wf_shape(s),
{
    let ghost ms = members@;
    let ghost ls = member_layouts(ms);
    proof {
        assert forall|i: int| 0 <= i < ls.len() implies (#[trigger] ls[i]).align >= 1 by {
            assert(ls[i] == ms[i].layout);
            assert(wf_shape(ms[i]));
        }
        assert(layouts_ok(ls));
    }
    let n: usize = members.len();

    // Which capabilities every member grants.
    let mut all_debug: bool = true;
    let mut all_eq: bool = true;
    let mut all_partial_ord: bool = true;
    let mut all_ord: bool = true;
    let mut all_hash: bool = true;
    let mut all_clone: bool = true;
    let mut all_default: bool = true;
    let mut all_drop: bool = true;
    let mut i: usize = 0;
    while i < n
        invariant
            0 <= i <= n,
            n == ms.len(),
            members@ == ms,
            all_debug == (forall|j: int| 0 <= j < i ==> has_debug(#[trigger] ms[j])),
            all_eq == (forall|j: int| 0 <= j < i ==> has_eq(#[trigger] ms[j])),
            all_partial_ord == (forall|j: int| 0 <= j < i ==> has_partial_ord(#[trigger] ms[j])),
            all_ord == (forall|j: int| 0 <= j < i ==> has_ord(#[trigger] ms[j])),
            all_hash == (forall|j: int| 0 <= j < i ==> has_hash(#[trigger] ms[j])),
            all_clone == (forall|j: int| 0 <= j < i ==> has_clone(#[trigger] ms[j])),
            all_default == (forall|j: int| 0 <= j < i ==> has_default(#[trigger] ms[j])),
            all_drop == (forall|j: int| 0 <= j < i ==> has_drop(#[trigger] ms[j])),
        decreases n - i,
    {
        let m = &members[i];
        if m.vtable.debug.is_none() {
            all_debug = false;
        }
        if m.vtable.eq.is_none() {
            all_eq = false;
        }
        if m.vtable.partial_ord.is_none() {
            all_partial_ord = false;
        }
        if m.vtable.ord.is_none() {
            all_ord = false;
        }
        if m.vtable.hash.is_none() {
            all_hash = false;
        }
        if m.vtable.clone_into.is_none() {
            all_clone = false;
        }
        if m.vtable.default_in_place.is_none() {
            all_default = false;
        }
        if m.vtable.drop_in_place.is_none() {
            all_drop = false;
        }
        i = i + 1;
    }

    // The composite's identity, mixed from the members' identities.
    let mut ident: u64 = 0x7475706c65u64;
    i = 0;
    while i < n
        invariant
            0 <= i <= n,
            n == ms.len(),
            members@ == ms,
            ident == tuple_id_spec(ms.take(i as int)),
        decreases n - i,
    {
        let mid: u64 = members[i].id;
        ident = ((ident << 7) | (ident >> 57)) ^ mid;
        proof {
            assert(ms.take(i + 1).drop_last() =~= ms.take(i as int));
            assert(ms.take(i + 1).last() == ms[i as int]);
        }
        i = i + 1;
    }
    proof {
        assert(ms.take(n as int) =~= ms);
    }

    // Member offsets, each aligned to the member's own alignment.
    let mut offsets: Vec<usize> = Vec::new();
    let mut end: usize = 0;
    i = 0;
    while i < n
        invariant
            0 <= i <= n,
            n == ms.len(),
            members@ == ms,
            ls == member_layouts(ms),
            layouts_ok(ls),
            tuple_size_spec(ls) <= usize::MAX,
            offsets@.len() == i,
            forall|j: int| 0 <= j < i ==> offsets@[j] == offset_at(ls, j),
            end == (if i == 0 {
                0int
            } else {
                offset_at(ls, i - 1) + ls[i - 1].size
            }),
        decreases n - i,
    {
        proof {
            assert(ls[i as int] == ms[i as int].layout);
            lemma_offset_bounded(ls, i as int);
            lemma_payload_in_size(ls);
            lemma_offset_nonneg(ls, i as int);
        }
        let al: usize = members[i].layout.align;
        let off: usize = if i == 0 {
            0
        } else {
            align_up_usize(end, al)
        };
        offsets.push(off);
        end = off + members[i].layout.size;
        i = i + 1;
    }

    // The composite's alignment: the largest member alignment.
    let mut maxa: usize = 1;
    i = 0;
    while i < n
        invariant
            0 <= i <= n,
            n == ms.len(),
            members@ == ms,
            ls == member_layouts(ms),
            1 <= maxa,
            maxa as int == max_align_of(ls.take(i as int)),
        decreases n - i,
    {
        let al: usize = members[i].layout.align;
        if al > maxa {
            maxa = al;
        }
        proof {
            assert(ls.take(i + 1).drop_last() =~= ls.take(i as int));
            assert(ls.take(i + 1).last() == ls[i as int]);
            assert(ls[i as int] == ms[i as int].layout);
        }
        i = i + 1;
    }
    proof {
        assert(ls.take(n as int) =~= ls);
        lemma_payload_in_size(ls);
    }
    let size: usize = align_up_usize(end, maxa);

    // The fields, consuming the members in declaration order.
    let mut fields: Vec<Field> = Vec::new();
    let mut rest = members;
    i = 0;
    while i < n
        invariant
            0 <= i <= n,
            n == ms.len(),
            ls == member_layouts(ms),
            rest@ == ms.skip(i as int),
            offsets@.len() == n,
            forall|j: int| 0 <= j < n ==> offsets@[j] == offset_at(ls, j),
            fields@.len() == i,
            forall|j: int|
                0 <= j < i ==> {
                    &&& (#[trigger] fields@[j]).shape == ms[j]
                    &&& fields@[j].offset == offset_at(ls, j)
                    &&& fields@[j].name@ == dec_spec(j as nat)
                    &&& fields@[j].flags == 0
                },
        decreases n - i,
    {
        proof {
            assert(ms.skip(i as int)[0] == ms[i as int]);
            assert(ms.skip(i as int).remove(0) =~= ms.skip(i as int + 1));
        }
        let m = rest.remove(0);
        let name = u64_to_string(i as u64);
        let off: usize = offsets[i];
        fields.push(Field { name, shape: m, offset: off, flags: 0 });
        i = i + 1;
    }

    let open_str = {
        proof {
            reveal_strlit("(");
            assert("("@ =~= seq!['(']);
        }
        "(".to_owned()
    };
    let sep_str = {
        proof {
            reveal_strlit(", ");
            assert(", "@ =~= seq![',', ' ']);
        }
        ", ".to_owned()
    };
    let close_str = {
        proof {
            reveal_strlit(")");
            assert(")"@ =~= seq![')']);
        }
        ")".to_owned()
    };
    let vt = ValueVTable {
        type_name_op: Box::new(
            TypeNameOp::Delimited { open: open_str, sep: sep_str, close: close_str },
        ),
        display: None,
        debug: if all_debug {
            Some(Box::new(OpBody::PerMember))
        } else {
            None
        },
        default_in_place: if all_default {
            Some(Box::new(OpBody::PerMember))
        } else {
            None
        },
        clone_into: if all_clone {
            Some(Box::new(OpBody::PerMember))
        } else {
            None
        },
        eq: if all_eq {
            Some(Box::new(OpBody::PerMember))
        } else {
            None
        },
        partial_ord: if all_partial_ord {
            Some(Box::new(OpBody::PerMember))
        } else {
            None
        },
        ord: if all_ord {
            Some(Box::new(OpBody::PerMember))
        } else {
            None
        },
        hash: if all_hash {
            Some(Box::new(OpBody::PerMember))
        } else {
            None
        },
        drop_in_place: if all_drop {
            Some(Box::new(OpBody::PerMember))
        } else {
            None
        },
        parse: None,
        try_from: None,
        marker_traits: 0,
    };
    let s = Shape {
        id: ident,
        layout: Layout { size, align: maxa },
        vtable: vt,
        def: Def::Struct(StructDef { kind: StructKind::Tuple, fields }),
        doc: None,
        invariant_check: None,
    };
    proof {
        assert(is_tuple_shape_for(s, ms));
        assert(wf_shape(s)) by {
            let sd = s.def->Struct_0;
            assert forall|j: int| 0 <= j < sd.fields.len() implies wf_shape(
                #[trigger] sd.fields[j].shape,
            ) by {
                assert(sd.fields[j].shape == ms[j]);
            }
        }
    }
    s
}

/// Instantiate the composition once per arity: given one independent member
/// list per arity, from 1 up to at most [`MAX_TUPLE_ARITY`], derive the
/// composite shape of each.  The instantiations share no state and do not
/// depend on each other's order.
pub fn generate_tuples_impls(instantiations: Vec<Vec<Shape>>) -> (shapes: Vec<Shape>)
    requires
        instantiations@.len() <= MAX_TUPLE_ARITY,
        forall|k: int|
            0 <= k < instantiations@.len() ==> (#[trigger] instantiations@[k])@.len() == k + 1,
        forall|k: int, i: int|
            0 <= k < instantiations@.len() && 0 <= i < instantiations@[k]@.len() ==> wf_shape(
                #[trigger] instantiations@[k]@[i],
            ),
        forall|k: int|
            0 <= k < instantiations@.len() ==> tuple_size_spec(
                member_layouts((#[trigger] instantiations@[k])@),
            ) <= usize::MAX,
    ensures
        shapes@.len() == instantiations@.len(),
        forall|k: int|
            0 <= k < shapes@.len() ==> is_tuple_shape_for(
                #[trigger] shapes@[k],
                instantiations@[k]@,
            ) && wf_shape(shapes@[k]),
{
    let ghost insts = instantiations@;
    let n: usize = instantiations.len();
    let mut shapes: Vec<Shape> = Vec::new();
    let mut rest = instantiations;
    let mut k: usize = 0;
    while k < n
        invariant
            0 <= k <= n,
            n == insts.len(),
            rest@ == insts.skip(k as int),
            shapes@.len() == k,
            forall|j: int|
                0 <= j < insts.len() ==> (#[trigger] insts[j])@.len() == j + 1,
            forall|j: int, i: int|
                0 <= j < insts.len() && 0 <= i < insts[j]@.len() ==> wf_shape(
                    #[trigger] insts[j]@[i],
                ),
            forall|j: int|
                0 <= j < insts.len() ==> tuple_size_spec(member_layouts((#[trigger] insts[j])@))
                    <= usize::MAX,
            forall|j: int|
                0 <= j < k ==> is_tuple_shape_for(#[trigger] shapes@[j], insts[j]@) && wf_shape(
                    shapes@[j],
                ),
        decreases n - k,
    {
        proof {
            assert(insts.skip(k as int)[0] == insts[k as int]);
            assert(insts.skip(k as int).remove(0) =~= insts.skip(k as int + 1));
        }
        let members = rest.remove(0);
        let s = tuple_shape(members);
        shapes.push(s);
        k = k + 1;
    }
    shapes
}

} // verus!
