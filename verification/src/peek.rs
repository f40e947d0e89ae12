//! Read-only structural traversal: a transient cursor pairing a shape with a
//! value, and map traversal over it.
//!
//! A map is iterated through an explicit iterator state: constructed from
//! the map, advanced one entry at a time, and released exactly once — the
//! release is a separate obligation so that every exit path, normal
//! completion, early termination or abandonment, can discharge it, and a
//! released iterator can be neither advanced nor released again.

use vstd::prelude::*;
use vstd::pervasive::unreached;

use crate::shape::Def;
use crate::shape::MapDef;
use crate::shape::Shape;
use crate::shape::wf_shape;
use crate::vtable::TypeNameOp;
use crate::vtable::ValueVTable;
use crate::value::MapEntry;
use crate::value::Value;
use crate::value::value_eq;
use crate::value::value_fits;
use crate::value::veq;

verus! {

/// A transient, non-owning cursor: a value together with the shape that
/// describes it.  It must not outlive the referenced value.
#[derive(Clone, Copy)]
pub struct Peek<'mem> {
    /// The referenced value.
    pub data: &'mem Value,
    /// The shape describing it.
    pub shape: &'mem Shape,
}

/// The entries of a map value.
fn map_entries<'a>(v: &'a Value) -> (r: &'a Vec<MapEntry>)
    requires
        *v is Mapping,
    ensures
        *r == (*v)->Mapping_0,
{
    match v {
        Value::Mapping(es) => es,
        _ => unreached(),
    }
}

/// What the shape of a map from `k` to `v` looks like: a map definition over
/// the two shapes, no value operations — a map's contents are reached by
/// traversal — and a name rendered from the key and value names.
pub open spec fn is_map_shape_for(s: Shape, k: Shape, v: Shape) -> bool {
    &&& s.def matches Def::Mapping(md) && *md.k == k && *md.v == v
    &&& s.id == crate::tuples::id_mix(crate::tuples::id_mix(0x6d6170, k.id), v.id)
    &&& s.layout.size == 48
    &&& s.layout.align == 8
    &&& s.doc is None
    &&& s.invariant_check is None
    &&& crate::shape::map_slots_ok(s.vtable)
    &&& (*s.vtable.type_name_op) matches TypeNameOp::Delimited { open, sep, close } && open@
        == seq!['H', 'a', 's', 'h', 'M', 'a', 'p', '<'] && sep@ == seq![',', ' '] && close@
        == seq!['>']
    &&& s.vtable.marker_traits == 6
}

/// The shape of a map from keys of shape `k` to values of shape `v`.
pub fn map_shape(k: Shape, v: Shape) -> (s: Shape)
    requires
        wf_shape(k),
        wf_shape(v),
    ensures
        is_map_shape_for(s, k, v),
        wf_shape(s),
{
    let open_str = {
        proof {
            reveal_strlit("HashMap<");
            assert("HashMap<"@ =~= seq!['H', 'a', 's', 'h', 'M', 'a', 'p', '<']);
        }
        "HashMap<".to_owned()
    };
    let sep_str = {
        proof {
            reveal_strlit(", ");
            assert(", "@ =~= seq![',', ' ']);
        }
        ", ".to_owned()
    };
    let close_str = {
        proof {
            reveal_strlit(">");
            assert(">"@ =~= seq!['>']);
        }
        ">".to_owned()
    };
    let ident: u64 = {
        let acc: u64 = 0x6d6170;
        let acc2: u64 = ((acc << 7) | (acc >> 57)) ^ k.id;
        ((acc2 << 7) | (acc2 >> 57)) ^ v.id
    };
    Shape {
        id: ident,
        layout: crate::shape::Layout { size: 48, align: 8 },
        vtable: ValueVTable {
            type_name_op: Box::new(
                TypeNameOp::Delimited { open: open_str, sep: sep_str, close: close_str },
            ),
            display: None,
            debug: None,
            default_in_place: None,
            clone_into: None,
            eq: None,
            partial_ord: None,
            ord: None,
            hash: None,
            drop_in_place: None,
            parse: None,
            try_from: None,
            marker_traits: 6,
        },
        def: Def::Mapping(MapDef { k: Box::new(k), v: Box::new(v) }),
        doc: None,
        invariant_check: None,
    }
}

/// A read-only view over a map-defined shape.
#[derive(Clone, Copy)]
pub struct PeekMap<'mem> {
    /// The cursor over the map value.
    pub value: Peek<'mem>,
    /// The map's structural definition: its key and value shapes.
    pub def: &'mem MapDef,
}

impl<'mem> PeekMap<'mem> {
    /// The cursor is coherent: the shape is a well-formed map shape whose
    /// definition is `def`, and the value conforms to it.
    pub open spec fn inv(self) -> bool {
        &&& wf_shape(*self.value.shape)
        &&& self.value.shape.def == Def::Mapping(*self.def)
        &&& value_fits(*self.value.shape, *self.value.data)
    }

    /// The entries of the viewed map, in insertion order.
    pub open spec fn entries(self) -> Seq<MapEntry> {
        (*self.value.data)->Mapping_0@
    }

    /// Whether some entry's key equals `key`.
    pub open spec fn contains_key_spec(self, key: Value) -> bool {
        exists|i: int| 0 <= i < self.entries().len() && veq(self.entries()[i].key, key)
    }

    /// Pair a cursor with its map definition.
    pub fn new(value: Peek<'mem>, def: &'mem MapDef) -> (r: Self)
        requires
            wf_shape(*value.shape),
            value.shape.def == Def::Mapping(*def),
            value_fits(*value.shape, *value.data),
        ensures
            r.inv(),
            r.value == value,
            r.def == def,
    {
        Self { value, def }
    }

    /// The number of entries in the map.
    pub fn len(&self) -> (r: usize)
        requires
            self.inv(),
        ensures
            r == self.entries().len(),
    {
        map_entries(self.value.data).len()
    }

    /// Whether the map is empty.
    pub fn is_empty(&self) -> (r: bool)
        requires
            self.inv(),
        ensures
            r == (self.entries().len() == 0),
    {
        self.len() == 0
    }

    /// Whether the map contains `key`.
    pub fn contains_key(&self, key: &Value) -> (r: bool)
        requires
            self.inv(),
        ensures
            r == self.contains_key_spec(*key),
    {
        let es = map_entries(self.value.data);
        let n: usize = es.len();
        let mut i: usize = 0;
        while i < n
            invariant
                0 <= i <= n,
                n == es@.len(),
                *self.value.data == Value::Mapping(*es),
                forall|j: int| 0 <= j < i ==> !veq(es@[j].key, *key),
            decreases n - i,
        {
            if value_eq(&es[i].key, key) {
                return true;
            }
            i = i + 1;
        }
        false
    }

    /// The value stored under `key`, as a cursor, or `None` when the key is
    /// absent.
    pub fn get(&self, key: &Value) -> (r: Option<Peek<'mem>>)
        requires
            self.inv(),
        ensures
            r is Some <==> self.contains_key_spec(*key),
            r matches Some(p) ==> {
                &&& *p.shape == *self.def.v
                &&& exists|i: int|
                    0 <= i < self.entries().len() && veq(self.entries()[i].key, *key)
                        && *p.data == self.entries()[i].value
            },
    {
        let es = map_entries(self.value.data);
        let n: usize = es.len();
        let mut i: usize = 0;
        while i < n
            invariant
                0 <= i <= n,
                n == es@.len(),
                *self.value.data == Value::Mapping(*es),
                forall|j: int| 0 <= j < i ==> !veq(es@[j].key, *key),
            decreases n - i,
        {
            if value_eq(&es[i].key, key) {
                return Some(Peek { data: &es[i].value, shape: &self.def.v });
            }
            i = i + 1;
        }
        None
    }

    /// Construct the iterator state for this map.
    pub fn iter(self) -> (r: PeekMapIter<'mem>)
        requires
            self.inv(),
        ensures
            r.map == self,
            r.pos == 0,
            !r.released,
    {
        PeekMapIter { map: self, pos: 0, released: false }
    }
}

/// Iterator state over the key/value pairs of a [`PeekMap`]: single-pass,
/// advanced one entry at a time, released exactly once.
pub struct PeekMapIter<'mem> {
    /// The map being iterated.
    pub map: PeekMap<'mem>,
    /// How many entries have been yielded.
    pub pos: usize,
    /// Whether the state has been released.
    pub released: bool,
}

impl<'mem> PeekMapIter<'mem> {
    /// Yield the next key/value pair as cursors, or `None` once every entry
    /// has been yielded.  Advancing a released iterator is not allowed.
    pub fn next(&mut self) -> (r: Option<(Peek<'mem>, Peek<'mem>)>)
        requires
            old(self).map.inv(),
            !old(self).released,
        ensures
            final(self).map == old(self).map,
            !final(self).released,
            old(self).pos < old(self).map.entries().len() ==> {
                &&& final(self).pos == old(self).pos + 1
                &&& r matches Some(kv) && {
                    &&& *kv.0.shape == *old(self).map.def.k
                    &&& *kv.1.shape == *old(self).map.def.v
                    &&& *kv.0.data == old(self).map.entries()[old(self).pos as int].key
                    &&& *kv.1.data == old(self).map.entries()[old(self).pos as int].value
                }
            },
            old(self).pos >= old(self).map.entries().len() ==> {
                &&& final(self).pos == old(self).pos
                &&& r is None
            },
    {
        let es = map_entries(self.map.value.data);
        if self.pos < es.len() {
            let k = Peek { data: &es[self.pos].key, shape: &self.map.def.k };
            let v = Peek { data: &es[self.pos].value, shape: &self.map.def.v };
            self.pos = self.pos + 1;
            Some((k, v))
        } else {
            None
        }
    }

    /// Release the iterator state.  Each state is released exactly once, on
    /// every exit path; a released state cannot be released again.
    pub fn release(&mut self)
        requires
            !old(self).released,
        ensures
            final(self).released,
            final(self).map == old(self).map,
            final(self).pos == old(self).pos,
    {
        self.released = true;
    }

    /// How many times this state has been released: 0 before the release, 1
    /// after it — never more, since a released state cannot be released
    /// again.
    pub fn release_count(&self) -> (r: usize)
        ensures
            r == if self.released {
                1int
            } else {
                0int
            },
    {
        if self.released {
            1
        } else {
            0
        }
    }
}

} // verus!
