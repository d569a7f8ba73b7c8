//! The integer representation of a type: a set of bits with the codes that
//! the code generator gives its type descriptors.
use vstd::prelude::*;

verus! {

/// Kind code of the empty type.
pub const KIND_VOID: i32 = 0;
/// Kind code of a signed byte.
pub const KIND_SBYTE: i32 = 1;
/// Kind code of an unsigned byte.
pub const KIND_UBYTE: i32 = 2;
/// Kind code of a signed 16-bit integer.
pub const KIND_SHORT: i32 = 3;
/// Kind code of an unsigned 16-bit integer.
pub const KIND_USHORT: i32 = 4;
/// Kind code of a signed 32-bit integer.
pub const KIND_INT: i32 = 5;
/// Kind code of an unsigned 32-bit integer.
pub const KIND_UINT: i32 = 6;
/// Kind code of a signed native integer.
pub const KIND_NINT: i32 = 7;
/// Kind code of an unsigned native integer.
pub const KIND_NUINT: i32 = 8;
/// Kind code of a signed 64-bit integer.
pub const KIND_LONG: i32 = 9;
/// Kind code of an unsigned 64-bit integer.
pub const KIND_ULONG: i32 = 10;
/// Kind code of a 32-bit float.
pub const KIND_FLOAT32: i32 = 11;
/// Kind code of a 64-bit float.
pub const KIND_FLOAT64: i32 = 12;
/// Kind code of the native float.
pub const KIND_NFLOAT: i32 = 13;
/// Kind code of a structure.
pub const KIND_STRUCT: i32 = 14;
/// Kind code of a union.
pub const KIND_UNION: i32 = 15;
/// Kind code of a function signature.
pub const KIND_SIGNATURE: i32 = 16;
/// Kind code of a pointer.
pub const KIND_POINTER: i32 = 17;
/// The flag that this library calls `FirstTagged`.
pub const KIND_FIRST_TAGGED_FLAG: i32 = 2;
/// Tag code of the system `bool` type.
pub const KIND_SYS_BOOL: i32 = 10009;
/// Tag code of the system `char` type.
pub const KIND_SYS_CHAR: i32 = 10010;
/// The union of every named flag.
pub const KIND_ALL: i32 = 10015;

/// The integer representation of a type, handled as a set of bit flags.
#[derive(PartialEq, Eq, Structural, Clone, Copy, Debug)]
pub struct TypeKind {
    bits: i32,
}

/// Whether every bit of `b` is set in `a`.
pub open spec fn bits_contain(a: i32, b: i32) -> bool {
    a & b == b
}

impl View for TypeKind {
    type V = i32;

    open spec fn view(&self) -> i32 {
        self.spec_bits()
    }
}

#[allow(non_snake_case)]
impl TypeKind {
    /// The raw bits of the kind.
    pub closed spec fn spec_bits(&self) -> i32 {
        self.bits
    }

    /// Wrap raw bits, keeping every bit.
    pub(crate) fn from_raw(bits: i32) -> (r: TypeKind)
        ensures
            r@ == bits,
    {
        TypeKind { bits }
    }

    /// The empty type.
    pub fn Void() -> (r: TypeKind)
        ensures
            r@ == KIND_VOID,
    {
        TypeKind { bits: KIND_VOID }
    }

    /// A signed byte.
    pub fn SByte() -> (r: TypeKind)
        ensures
            r@ == KIND_SBYTE,
    {
        TypeKind { bits: KIND_SBYTE }
    }

    /// An unsigned byte.
    pub fn UByte() -> (r: TypeKind)
        ensures
            r@ == KIND_UBYTE,
    {
        TypeKind { bits: KIND_UBYTE }
    }

    /// A signed 16-bit integer.
    pub fn Short() -> (r: TypeKind)
        ensures
            r@ == KIND_SHORT,
    {
        TypeKind { bits: KIND_SHORT }
    }

    /// An unsigned 16-bit integer.
    pub fn UShort() -> (r: TypeKind)
        ensures
            r@ == KIND_USHORT,
    {
        TypeKind { bits: KIND_USHORT }
    }

    /// A signed 32-bit integer.
    pub fn Int() -> (r: TypeKind)
        ensures
            r@ == KIND_INT,
    {
        TypeKind { bits: KIND_INT }
    }

    /// An unsigned 32-bit integer.
    pub fn UInt() -> (r: TypeKind)
        ensures
            r@ == KIND_UINT,
    {
        TypeKind { bits: KIND_UINT }
    }

    /// A signed native integer.
    pub fn NInt() -> (r: TypeKind)
        ensures
            r@ == KIND_NINT,
    {
        TypeKind { bits: KIND_NINT }
    }

    /// An unsigned native integer.
    pub fn NUInt() -> (r: TypeKind)
        ensures
            r@ == KIND_NUINT,
    {
        TypeKind { bits: KIND_NUINT }
    }

    /// A signed 64-bit integer.
    pub fn Long() -> (r: TypeKind)
        ensures
            r@ == KIND_LONG,
    {
        TypeKind { bits: KIND_LONG }
    }

    /// An unsigned 64-bit integer.
    pub fn ULong() -> (r: TypeKind)
        ensures
            r@ == KIND_ULONG,
    {
        TypeKind { bits: KIND_ULONG }
    }

    /// A 32-bit float.
    pub fn Float32() -> (r: TypeKind)
        ensures
            r@ == KIND_FLOAT32,
    {
        TypeKind { bits: KIND_FLOAT32 }
    }

    /// A 64-bit float.
    pub fn Float64() -> (r: TypeKind)
        ensures
            r@ == KIND_FLOAT64,
    {
        TypeKind { bits: KIND_FLOAT64 }
    }

    /// The native float.
    pub fn NFloat() -> (r: TypeKind)
        ensures
            r@ == KIND_NFLOAT,
    {
        TypeKind { bits: KIND_NFLOAT }
    }

    /// A structure.
    pub fn Struct() -> (r: TypeKind)
        ensures
            r@ == KIND_STRUCT,
    {
        TypeKind { bits: KIND_STRUCT }
    }

    /// A union.
    pub fn Union() -> (r: TypeKind)
        ensures
            r@ == KIND_UNION,
    {
        TypeKind { bits: KIND_UNION }
    }

    /// A function signature.
    pub fn Signature() -> (r: TypeKind)
        ensures
            r@ == KIND_SIGNATURE,
    {
        TypeKind { bits: KIND_SIGNATURE }
    }

    /// A pointer.
    pub fn Pointer() -> (r: TypeKind)
        ensures
            r@ == KIND_POINTER,
    {
        TypeKind { bits: KIND_POINTER }
    }

    /// The flag named `FirstTagged`.
    pub fn FirstTagged() -> (r: TypeKind)
        ensures
            r@ == KIND_FIRST_TAGGED_FLAG,
    {
        TypeKind { bits: KIND_FIRST_TAGGED_FLAG }
    }

    /// The system `bool` tag.
    pub fn SysBool() -> (r: TypeKind)
        ensures
            r@ == KIND_SYS_BOOL,
    {
        TypeKind { bits: KIND_SYS_BOOL }
    }

    /// The system `char` tag.
    pub fn SysChar() -> (r: TypeKind)
        ensures
            r@ == KIND_SYS_CHAR,
    {
        TypeKind { bits: KIND_SYS_CHAR }
    }

    /// The kind with no bit set.
    pub fn empty() -> (r: TypeKind)
        ensures
            r@ == 0,
    {
        TypeKind { bits: 0 }
    }

    /// The kind with every named bit set.
    pub fn all() -> (r: TypeKind)
        ensures
            r@ == KIND_ALL,
    {
        TypeKind { bits: KIND_ALL }
    }

    /// The raw bits.
    pub fn bits(&self) -> (r: i32)
        ensures
            r == self@,
    {
        self.bits
    }

    /// The kind with exactly these bits, when every one of them is a named bit.
    pub fn from_bits(bits: i32) -> (r: Option<TypeKind>)
        ensures
            r is Some <==> bits & !KIND_ALL == 0,
            r matches Some(k) ==> k@ == bits,
    {
        if bits & !KIND_ALL == 0 {
            Some(TypeKind { bits })
        } else {
            None
        }
    }

    /// The kind with the named bits among these.
    pub fn from_bits_truncate(bits: i32) -> (r: TypeKind)
        ensures
            r@ == bits & KIND_ALL,
    {
        TypeKind { bits: bits & KIND_ALL }
    }

    /// Whether no bit is set.
    pub fn is_empty(&self) -> (r: bool)
        ensures
            r == (self@ == 0),
    {
        self.bits == 0
    }

    /// Whether every named bit is set.
    pub fn is_all(&self) -> (r: bool)
        ensures
            r == (self@ == KIND_ALL),
    {
        self.bits == KIND_ALL
    }

    /// Whether every bit of `other` is set in `self`.
    pub fn contains(&self, other: TypeKind) -> (r: bool)
        ensures
            r == bits_contain(self@, other@),
    {
        self.bits & other.bits == other.bits
    }

    /// Whether `self` and `other` share a bit.
    pub fn intersects(&self, other: TypeKind) -> (r: bool)
        ensures
            r == (self@ & other@ != 0),
    {
        self.bits & other.bits != 0
    }

    /// Set the bits of `other`.
    pub fn insert(&mut self, other: TypeKind)
        ensures
            final(self)@ == old(self)@ | other@,
    {
        self.bits = self.bits | other.bits;
    }

    /// Clear the bits of `other`.
    pub fn remove(&mut self, other: TypeKind)
        ensures
            final(self)@ == old(self)@ & !other@,
    {
        self.bits = self.bits & !other.bits;
    }

    /// Flip the bits of `other`.
    pub fn toggle(&mut self, other: TypeKind)
        ensures
            final(self)@ == old(self)@ ^ other@,
    {
        self.bits = self.bits ^ other.bits;
    }
}

/// Every kind contains itself.
pub proof fn lemma_contains_reflexive(a: TypeKind)
    ensures
        bits_contain(a@, a@),
{
    let x = a@;
    assert(x & x == x) by (bit_vector);
}

/// Containment of kinds is transitive.
pub proof fn lemma_contains_transitive(a: TypeKind, b: TypeKind, c: TypeKind)
    requires
        bits_contain(a@, b@),
        bits_contain(b@, c@),
    ensures
        bits_contain(a@, c@),
{
    let (x, y, z) = (a@, b@, c@);
    assert(x & z == z) by (bit_vector)
        requires
            x & y == y,
            y & z == z,
    ;
}

/// Two kinds that contain each other are the same kind.
pub proof fn lemma_contains_antisymmetric(a: TypeKind, b: TypeKind)
    requires
        bits_contain(a@, b@),
        bits_contain(b@, a@),
    ensures
        a@ == b@,
{
    let (x, y) = (a@, b@);
    assert(x == y) by (bit_vector)
        requires
            x & y == y,
            y & x == x,
    ;
}

/// Every kind contains the empty kind, and so contains `Void`.
pub proof fn lemma_contains_void(a: TypeKind)
    ensures
        bits_contain(a@, KIND_VOID),
{
    let x = a@;
    assert(x & 0 == 0) by (bit_vector);
}

/// After inserting `b` into `a`, the result contains both `a` and `b`.
pub proof fn lemma_insert_contains(a: TypeKind, b: TypeKind)
    ensures
        bits_contain(a@ | b@, a@),
        bits_contain(a@ | b@, b@),
{
    let (x, y) = (a@, b@);
    assert((x | y) & x == x && (x | y) & y == y) by (bit_vector);
}

/// After removing `b` from `a`, the result shares no bit with `b` and is
/// contained in `a`.
pub proof fn lemma_remove_disjoint(a: TypeKind, b: TypeKind)
    ensures
        (a@ & !b@) & b@ == 0,
        bits_contain(a@, a@ & !b@),
{
    let (x, y) = (a@, b@);
    assert((x & !y) & y == 0 && x & (x & !y) == (x & !y)) by (bit_vector);
}

/// Toggling the same bits twice gives back the kind.
pub proof fn lemma_toggle_twice(a: TypeKind, b: TypeKind)
    ensures
        (a@ ^ b@) ^ b@ == a@,
{
    let (x, y) = (a@, b@);
    assert((x ^ y) ^ y == x) by (bit_vector);
}

/// Every named kind code is one of the named bits.
pub proof fn lemma_named_kinds_in_all()
    ensures
        bits_contain(KIND_ALL, KIND_SBYTE),
        bits_contain(KIND_ALL, KIND_POINTER),
        bits_contain(KIND_ALL, KIND_SYS_BOOL),
        bits_contain(KIND_ALL, KIND_SYS_CHAR),
        bits_contain(KIND_ALL, KIND_UNION),
{
    assert(10015i32 & 1i32 == 1i32) by (bit_vector);
    assert(10015i32 & 17i32 == 17i32) by (bit_vector);
    assert(10015i32 & 10009i32 == 10009i32) by (bit_vector);
    assert(10015i32 & 10010i32 == 10010i32) by (bit_vector);
    assert(10015i32 & 15i32 == 15i32) by (bit_vector);
}

} // verus!
