//! The operation table attached to every shape, and the options that steer
//! type-name formatting.
//!
//! Each capability of a type — equality, ordering, hashing, formatting and so
//! on — is one independently optional entry of [`ValueVTable`].  An absent
//! entry means the type lacks that capability; callers check presence before
//! invoking.  A present entry records how the operation computes: directly on
//! the scalar representation, or by delegating to every member of a composite
//! in declaration order.  The interpreter functions of the crate carry the
//! recorded operations out.

use vstd::prelude::*;
use vstd::slice::slice_index_get;

verus! {

/// How a present operation-table entry computes when invoked.
pub enum OpBody {
    /// The entry acts on the scalar representation of the value itself.
    Direct,
    /// The entry delegates to the corresponding entry of every member of a
    /// composite, in declaration order.
    PerMember,
}

/// How the type-name entry of a shape renders.  Type-name rendering is never
/// gated by member capabilities: a composite always concatenates its members'
/// names between fixed delimiters, subject to the recursion budget of
/// [`TypeNameOpts`].
pub enum TypeNameOp {
    /// A fixed name, rendered as is.
    Atom(String),
    /// The children's names (taken from the shape's structural definition),
    /// separated by `sep`, between `open` and `close`.
    Delimited { open: String, sep: String, close: String },
}

/// An operation-table entry: absent, or present with its body.
pub type OpSlot = Option<Box<OpBody>>;

/// Whether an entry is present and acts directly on the scalar
/// representation.
pub open spec fn slot_direct(s: OpSlot) -> bool {
    s matches Some(b) && *b == OpBody::Direct
}

/// Whether an entry is present and delegates member-by-member.
pub open spec fn slot_per_member(s: OpSlot) -> bool {
    s matches Some(b) && *b == OpBody::PerMember
}

/// Options for formatting the name of a type.
#[non_exhaustive]
#[derive(Clone, Copy)]
pub struct TypeNameOpts {
    /// As long as this is > 0, nested type parameters keep being expanded;
    /// at 0 they are rendered as an ellipsis; a negative value expands all
    /// of them.
    pub recurse_ttl: isize,
}

impl TypeNameOpts {
    /// Options under which none of the type parameters are formatted.
    pub fn none() -> (r: Self)
        ensures
            r.recurse_ttl == 0,
    {
        Self { recurse_ttl: 0 }
    }

    /// Options under which only the direct children are formatted.
    pub fn one() -> (r: Self)
        ensures
            r.recurse_ttl == 1,
    {
        Self { recurse_ttl: 1 }
    }

    /// Options under which all type parameters are formatted.
    pub fn infinite() -> (r: Self)
        ensures
            r.recurse_ttl == -1,
    {
        Self { recurse_ttl: -1 }
    }

    /// The options to hand to children when descending one level: the budget
    /// decreases when finite, stays put when negative (infinite), and is
    /// exhausted at zero, in which case the caller renders an ellipsis
    /// instead of its list of parameters.
    pub open spec fn for_children_spec(self) -> Option<TypeNameOpts> {
        if self.recurse_ttl > 0 {
            Some(TypeNameOpts { recurse_ttl: (self.recurse_ttl - 1) as isize })
        } else if self.recurse_ttl < 0 {
            Some(self)
        } else {
            None
        }
    }

    /// Decrease the budget; `None` means nested parameters must be rendered
    /// as an ellipsis.
    pub fn for_children(&self) -> (r: Option<Self>)
        ensures
            r == self.for_children_spec(),
    {
        if self.recurse_ttl > 0 {
            Some(Self { recurse_ttl: self.recurse_ttl - 1 })
        } else if self.recurse_ttl < 0 {
            Some(Self { recurse_ttl: self.recurse_ttl })
        } else {
            None
        }
    }
}

impl Default for TypeNameOpts {
    /// By default all type parameters are formatted.
    fn default() -> (r: Self)
        ensures
            r.recurse_ttl == -1,
    {
        Self { recurse_ttl: -1 }
    }
}

/// The table of operations shared by all instances of a type: twelve
/// word-sized entries — the type-name renderer, which is always present, and
/// eleven independently optional capabilities — followed by the marker-trait
/// bitset.
pub struct ValueVTable {
    /// How the type's name renders; never optional.
    pub type_name_op: Box<TypeNameOp>,
    /// Format a value for human display.
    pub display: OpSlot,
    /// Format a value for debugging.
    pub debug: OpSlot,
    /// Construct the default value.
    pub default_in_place: OpSlot,
    /// Duplicate a value into fresh storage.
    pub clone_into: OpSlot,
    /// Equality comparison.
    pub eq: OpSlot,
    /// Partial ordering comparison.
    pub partial_ord: OpSlot,
    /// Total ordering.
    pub ord: OpSlot,
    /// Feed a value into a hash accumulator.
    pub hash: OpSlot,
    /// Tear a value down; absent means dropping has no side effect.
    pub drop_in_place: OpSlot,
    /// Parse a value from text.
    pub parse: OpSlot,
    /// Convert from a value of another shape.
    pub try_from: OpSlot,
    /// Marker traits of the type, as a bitset of the `MARKER_` flags.
    pub marker_traits: u8,
}

impl ValueVTable {
    /// Bit flag for types with reflexive equality.
    pub const MARKER_EQ: u8 = 1;

    /// Bit flag for types that may be sent to another thread.
    pub const MARKER_SEND: u8 = 2;

    /// Bit flag for types that may be shared between threads.
    pub const MARKER_SYNC: u8 = 4;

    /// Bit flag for types whose values may be duplicated byte by byte.
    pub const MARKER_COPY: u8 = 8;

    /// Whether the marker bitset records reflexive equality.
    pub fn is_eq(&self) -> (r: bool)
        ensures
            r == ((self.marker_traits & ValueVTable::MARKER_EQ) != 0),
    {
        (self.marker_traits & Self::MARKER_EQ) != 0
    }

    /// Whether the marker bitset records permission to send across threads.
    pub fn is_send(&self) -> (r: bool)
        ensures
            r == ((self.marker_traits & ValueVTable::MARKER_SEND) != 0),
    {
        (self.marker_traits & Self::MARKER_SEND) != 0
    }

    /// Whether the marker bitset records permission to share across threads.
    pub fn is_sync(&self) -> (r: bool)
        ensures
            r == ((self.marker_traits & ValueVTable::MARKER_SYNC) != 0),
    {
        (self.marker_traits & Self::MARKER_SYNC) != 0
    }

    /// Whether the marker bitset records byte-by-byte duplicability.
    pub fn is_copy(&self) -> (r: bool)
        ensures
            r == ((self.marker_traits & ValueVTable::MARKER_COPY) != 0),
    {
        (self.marker_traits & Self::MARKER_COPY) != 0
    }
}

/// The drop entry of a scalar shape.
pub fn drop_in_place_fn_for() -> (r: OpSlot)
    ensures
        slot_direct(r),
{
    Some(Box::new(OpBody::Direct))
}

/// The clone entry of a scalar shape.
pub fn clone_into_fn_for() -> (r: OpSlot)
    ensures
        slot_direct(r),
{
    Some(Box::new(OpBody::Direct))
}

/// The default-construction entry of a scalar shape.
pub fn default_in_place_fn_for() -> (r: OpSlot)
    ensures
        slot_direct(r),
{
    Some(Box::new(OpBody::Direct))
}

/// The parse-from-text entry of a scalar shape.
pub fn parse_fn_for() -> (r: OpSlot)
    ensures
        slot_direct(r),
{
    Some(Box::new(OpBody::Direct))
}

/// The equality entry of a scalar shape.
pub fn partial_eq_fn_for() -> (r: OpSlot)
    ensures
        slot_direct(r),
{
    Some(Box::new(OpBody::Direct))
}

/// The partial-ordering entry of a scalar shape.
pub fn partial_ord_fn_for() -> (r: OpSlot)
    ensures
        slot_direct(r),
{
    Some(Box::new(OpBody::Direct))
}

/// The total-ordering entry of a scalar shape.
pub fn cmp_fn_for() -> (r: OpSlot)
    ensures
        slot_direct(r),
{
    Some(Box::new(OpBody::Direct))
}

/// The hashing entry of a scalar shape.
pub fn hash_fn_for() -> (r: OpSlot)
    ensures
        slot_direct(r),
{
    Some(Box::new(OpBody::Direct))
}

/// The display entry of a scalar shape.
pub fn display_fn_for() -> (r: OpSlot)
    ensures
        slot_direct(r),
{
    Some(Box::new(OpBody::Direct))
}

/// The debug entry of a scalar shape.
pub fn debug_fn_for() -> (r: OpSlot)
    ensures
        slot_direct(r),
{
    Some(Box::new(OpBody::Direct))
}

/// One step of the hash accumulator: absorb a single byte.
pub open spec fn hash_step(state: u64, b: u8) -> u64 {
    (((state as int) * 31 + b) % 0x1_0000_0000_0000_0000) as u64
}

/// Absorb a sequence of bytes, left to right.
pub open spec fn hash_bytes_spec(state: u64, bytes: Seq<u8>) -> u64
    decreases bytes.len(),
{
    if bytes.len() == 0 {
        state
    } else {
        hash_step(hash_bytes_spec(state, bytes.drop_last()), bytes.last())
    }
}

/// The shared hash accumulator that the hashing entries feed, member by
/// member and in declaration order.
pub struct HasherProxy {
    state: u64,
}

impl HasherProxy {
    /// The accumulated state.
    pub closed spec fn state(&self) -> u64 {
        self.state
    }

    /// A fresh accumulator.
    pub fn new() -> (r: Self)
        ensures
            r.state() == 0,
    {
        Self { state: 0 }
    }

    /// Absorb `bytes` into the accumulator, left to right.
    pub fn write(&mut self, bytes: &[u8])
        ensures
            final(self).state() == hash_bytes_spec(old(self).state(), bytes@),
    {
        let n: usize = bytes.len();
        let mut i: usize = 0;
        let mut acc: u64 = self.state;
        let ghost s0: u64 = self.state;
        while i < n
            invariant
                0 <= i <= n,
                n == bytes@.len(),
                acc == hash_bytes_spec(s0, bytes@.take(i as int)),
            decreases n - i,
        {
            let b: u8 = *slice_index_get(bytes, i);
            let wide: u128 = (acc as u128) * 31 + (b as u128);
            let narrowed: u128 = wide % 0x1_0000_0000_0000_0000u128;
            acc = narrowed as u64;
            proof {
                assert(acc == hash_step(hash_bytes_spec(s0, bytes@.take(i as int)), b));
                assert(bytes@.take(i + 1).drop_last() =~= bytes@.take(i as int));
                assert(bytes@.take(i + 1).last() == b);
            }
            i = i + 1;
        }
        proof {
            assert(bytes@.take(n as int) =~= bytes@);
        }
        self.state = acc;
    }

    /// The accumulated hash.
    pub fn finish(&self) -> (r: u64)
        ensures
            r == self.state(),
    {
        self.state
    }
}

} // verus!
