//! Type descriptors: primitives, structures, unions, pointers, signatures and
//! tagged types, held as plain values.
use std::rc::Rc;
use vstd::prelude::*;
use vstd::string::StringExecFns;
use crate::kind::{
    bits_contain, KIND_FLOAT32, KIND_FLOAT64, KIND_INT, KIND_LONG, KIND_NFLOAT,
    KIND_NINT, KIND_NUINT, KIND_POINTER, KIND_SBYTE, KIND_SHORT, KIND_SIGNATURE, KIND_STRUCT,
    KIND_SYS_BOOL, KIND_SYS_CHAR, KIND_UBYTE, KIND_UINT, KIND_ULONG, KIND_UNION, KIND_USHORT,
    KIND_VOID,
};

verus! {

/// Kind codes at or above this value mark a tagged type; the tag is the
/// difference.
pub const FIRST_TAGGED_KIND: i32 = 32;
/// The index that names no field.
pub const INVALID_NAME: u32 = 4294967295;

/// A platform's application binary interface
#[derive(PartialEq, Eq, Structural, Clone, Copy, Debug)]
pub enum Abi {
    /// The C application binary interface
    CDecl,
    /// The C application binary interface with variable arguments
    VarArg,
    /// A Windows application binary interface
    StdCall,
    /// A Windows application binary interface
    FastCall,
}

impl Default for Abi {
    fn default() -> (r: Abi)
        ensures
            r == Abi::CDecl,
    {
        Abi::CDecl
    }
}

/// The kinds of type descriptors, by name.
#[derive(PartialEq, Eq, Structural, Clone, Copy, Debug)]
pub enum TypeKind {
    /// The empty type
    Void,
    /// A signed byte
    SByte,
    /// An unsigned byte
    UByte,
    /// A signed 16-bit integer
    Short,
    /// An unsigned 16-bit integer
    UShort,
    /// A signed 32-bit integer
    Int,
    /// An unsigned 32-bit integer
    UInt,
    /// A signed native integer
    NInt,
    /// An unsigned native integer
    NUInt,
    /// A signed 64-bit integer
    Long,
    /// An unsigned 64-bit integer
    ULong,
    /// A 32-bit float
    Float32,
    /// A 64-bit float
    Float64,
    /// A native float
    NFloat,
    /// A structure
    Struct,
    /// A union
    Union,
    /// A function signature
    Signature,
    /// A pointer
    Pointer,
    /// The first kind of the tagged types
    FirstTagged,
    /// The system `bool` type
    SysBool,
    /// The system `char` type
    SysChar,
}

impl TypeKind {
    /// The code of the kind.
    pub open spec fn code(self) -> i32 {
        match self {
            TypeKind::Void => KIND_VOID,
            TypeKind::SByte => KIND_SBYTE,
            TypeKind::UByte => KIND_UBYTE,
            TypeKind::Short => KIND_SHORT,
            TypeKind::UShort => KIND_USHORT,
            TypeKind::Int => KIND_INT,
            TypeKind::UInt => KIND_UINT,
            TypeKind::NInt => KIND_NINT,
            TypeKind::NUInt => KIND_NUINT,
            TypeKind::Long => KIND_LONG,
            TypeKind::ULong => KIND_ULONG,
            TypeKind::Float32 => KIND_FLOAT32,
            TypeKind::Float64 => KIND_FLOAT64,
            TypeKind::NFloat => KIND_NFLOAT,
            TypeKind::Struct => KIND_STRUCT,
            TypeKind::Union => KIND_UNION,
            TypeKind::Signature => KIND_SIGNATURE,
            TypeKind::Pointer => KIND_POINTER,
            TypeKind::FirstTagged => FIRST_TAGGED_KIND,
            TypeKind::SysBool => KIND_SYS_BOOL,
            TypeKind::SysChar => KIND_SYS_CHAR,
        }
    }

    /// The code of the kind.
    pub fn bits(&self) -> (r: i32)
        ensures
            r == self.code(),
    {
        match self {
            TypeKind::Void => KIND_VOID,
            TypeKind::SByte => KIND_SBYTE,
            TypeKind::UByte => KIND_UBYTE,
            TypeKind::Short => KIND_SHORT,
            TypeKind::UShort => KIND_USHORT,
            TypeKind::Int => KIND_INT,
            TypeKind::UInt => KIND_UINT,
            TypeKind::NInt => KIND_NINT,
            TypeKind::NUInt => KIND_NUINT,
            TypeKind::Long => KIND_LONG,
            TypeKind::ULong => KIND_ULONG,
            TypeKind::Float32 => KIND_FLOAT32,
            TypeKind::Float64 => KIND_FLOAT64,
            TypeKind::NFloat => KIND_NFLOAT,
            TypeKind::Struct => KIND_STRUCT,
            TypeKind::Union => KIND_UNION,
            TypeKind::Signature => KIND_SIGNATURE,
            TypeKind::Pointer => KIND_POINTER,
            TypeKind::FirstTagged => FIRST_TAGGED_KIND,
            TypeKind::SysBool => KIND_SYS_BOOL,
            TypeKind::SysChar => KIND_SYS_CHAR,
        }
    }

    /// The kind as a set of kind bits.
    pub fn flags(&self) -> (r: crate::kind::TypeKind)
        ensures
            r@ == self.code(),
    {
        crate::kind::TypeKind::from_raw(self.bits())
    }

    /// The named kind with this code, if there is one.
    pub fn from_code(code: i32) -> (r: Option<TypeKind>)
        ensures
            r matches Some(k) ==> k.code() == code,
            r is None ==> forall|k: TypeKind| #[trigger] k.code() != code,
    {
        if code == KIND_VOID {
            Some(TypeKind::Void)
        } else if code == KIND_SBYTE {
            Some(TypeKind::SByte)
        } else if code == KIND_UBYTE {
            Some(TypeKind::UByte)
        } else if code == KIND_SHORT {
            Some(TypeKind::Short)
        } else if code == KIND_USHORT {
            Some(TypeKind::UShort)
        } else if code == KIND_INT {
            Some(TypeKind::Int)
        } else if code == KIND_UINT {
            Some(TypeKind::UInt)
        } else if code == KIND_NINT {
            Some(TypeKind::NInt)
        } else if code == KIND_NUINT {
            Some(TypeKind::NUInt)
        } else if code == KIND_LONG {
            Some(TypeKind::Long)
        } else if code == KIND_ULONG {
            Some(TypeKind::ULong)
        } else if code == KIND_FLOAT32 {
            Some(TypeKind::Float32)
        } else if code == KIND_FLOAT64 {
            Some(TypeKind::Float64)
        } else if code == KIND_NFLOAT {
            Some(TypeKind::NFloat)
        } else if code == KIND_STRUCT {
            Some(TypeKind::Struct)
        } else if code == KIND_UNION {
            Some(TypeKind::Union)
        } else if code == KIND_SIGNATURE {
            Some(TypeKind::Signature)
        } else if code == KIND_POINTER {
            Some(TypeKind::Pointer)
        } else if code == FIRST_TAGGED_KIND {
            Some(TypeKind::FirstTagged)
        } else if code == KIND_SYS_BOOL {
            Some(TypeKind::SysBool)
        } else if code == KIND_SYS_CHAR {
            Some(TypeKind::SysChar)
        } else {
            None
        }
    }
}

/// Each named kind has the kind code of the same name, and the kind codes
/// name their kinds back.
pub proof fn lemma_kind_table()
    ensures
        TypeKind::Void.code() == KIND_VOID,
        TypeKind::SByte.code() == KIND_SBYTE,
        TypeKind::UByte.code() == KIND_UBYTE,
        TypeKind::Short.code() == KIND_SHORT,
        TypeKind::UShort.code() == KIND_USHORT,
        TypeKind::Int.code() == KIND_INT,
        TypeKind::UInt.code() == KIND_UINT,
        TypeKind::NInt.code() == KIND_NINT,
        TypeKind::NUInt.code() == KIND_NUINT,
        TypeKind::Long.code() == KIND_LONG,
        TypeKind::ULong.code() == KIND_ULONG,
        TypeKind::Float32.code() == KIND_FLOAT32,
        TypeKind::Float64.code() == KIND_FLOAT64,
        TypeKind::NFloat.code() == KIND_NFLOAT,
        TypeKind::Struct.code() == KIND_STRUCT,
        TypeKind::Union.code() == KIND_UNION,
        TypeKind::Signature.code() == KIND_SIGNATURE,
        TypeKind::Pointer.code() == KIND_POINTER,
        TypeKind::FirstTagged.code() == FIRST_TAGGED_KIND,
        TypeKind::SysBool.code() == KIND_SYS_BOOL,
        TypeKind::SysChar.code() == KIND_SYS_CHAR,
{
}

/// A field of a structure or union, or a parameter of a signature.
#[derive(PartialEq, Eq)]
pub struct Component {
    ty: Type,
    name: Option<String>,
}

/// What a type descriptor records.
#[derive(PartialEq, Eq)]
struct TypeData {
    kind: i32,
    abi: Abi,
    sub: Option<Type>,
    components: Vec<Component>,
}

/// An object that represents a native system type.
///
/// Each `Type` represents a basic system type, be it a primitive, a struct, a
/// union, a pointer, or a function signature. A descriptor is a value: a
/// copy describes the same type, changing the names of one leaves the other
/// as it was, and `==` compares what two descriptors describe.
#[derive(PartialEq, Eq)]
pub struct Type {
    data: Rc<TypeData>,
    layout: Option<(usize, usize)>,
}

/// A borrowed type descriptor.
pub type Ty = Type;

/// Another handle to the same shared value, by `std::rc::Rc::clone`, which
/// makes a new pointer to the same allocation; the contract claims only that
/// the handle holds the same value.
#[verifier::external_body]
fn rc_share<T>(r: &Rc<T>) -> (res: Rc<T>)
    ensures
        res == *r,
{
    Rc::clone(r)
}

/// Whether a kind code has a sub-type: the referent of a pointer, the
/// return type of a signature, the underlying type of a tagged type.
pub open spec fn kind_has_sub(kind: i32) -> bool {
    kind == KIND_POINTER || kind == KIND_SIGNATURE || kind >= FIRST_TAGGED_KIND
}

/// Whether a kind code has components: the fields of a structure or union,
/// the parameters of a signature.
pub open spec fn kind_has_components(kind: i32) -> bool {
    kind == KIND_STRUCT || kind == KIND_UNION || kind == KIND_SIGNATURE
}

impl Component {
    /// The type of this component.
    pub closed spec fn spec_ty(self) -> Type {
        self.ty
    }

    /// The name of this component, if it has one.
    pub closed spec fn spec_name(self) -> Option<Seq<char>> {
        match self.name {
            Some(s) => Some(s@),
            None => None,
        }
    }
}

impl Type {
    /// The kind code of the descriptor.
    pub closed spec fn kind_code(self) -> i32 {
        self.data.kind
    }

    /// The ABI recorded in the descriptor.
    pub closed spec fn spec_abi(self) -> Abi {
        self.data.abi
    }

    /// The sub-type of the descriptor.
    pub closed spec fn sub_type(self) -> Option<Type> {
        self.data.sub
    }

    /// The components (fields or parameters) of the descriptor.
    pub closed spec fn components(self) -> Seq<Component> {
        self.data.components@
    }

    /// The size and alignment set for the descriptor, in place of the
    /// layout computed from its fields.
    pub closed spec fn explicit_layout(self) -> Option<(usize, usize)> {
        self.layout
    }

    /// The number of components.
    pub open spec fn num_components(self) -> nat {
        self.components().len()
    }

    /// The type of the component at `i`.
    pub open spec fn component_type(self, i: int) -> Type {
        self.components()[i].spec_ty()
    }

    /// The name of the component at `i`.
    pub open spec fn component_name(self, i: int) -> Option<Seq<char>> {
        self.components()[i].spec_name()
    }

    /// A primitive descriptor with the given kind and no sub-type.
    pub open spec fn is_plain(self, kind: i32) -> bool {
        &&& self.kind_code() == kind
        &&& self.sub_type() is None
        &&& self.num_components() == 0
        &&& self.spec_abi() == Abi::CDecl
        &&& self.explicit_layout() is None
    }

    /// A tagged descriptor with the given tag over the given underlying type.
    pub open spec fn is_tagged_over(self, tag: i32, underlying: Type) -> bool {
        &&& self.kind_code() == FIRST_TAGGED_KIND + tag
        &&& self.sub_type() == Some(underlying)
        &&& self.num_components() == 0
        &&& self.spec_abi() == Abi::CDecl
        &&& self.explicit_layout() is None
    }

    /// A tagged descriptor with the given tag over a primitive of the given
    /// kind.
    pub open spec fn is_tagged_plain(self, tag: i32, kind: i32) -> bool {
        &&& self.kind_code() == FIRST_TAGGED_KIND + tag
        &&& self.num_components() == 0
        &&& self.spec_abi() == Abi::CDecl
        &&& self.explicit_layout() is None
        &&& self.sub_type() matches Some(u) && u.is_plain(kind)
    }

    /// What every descriptor satisfies.
    #[verifier::type_invariant]
    closed spec fn inv(self) -> bool {
        &&& self.data.components@.len() <= u32::MAX
        &&& kind_has_sub(self.data.kind) <==> self.data.sub is Some
        &&& !kind_has_components(self.data.kind) ==> self.data.components@.len() == 0
    }

    pub(crate) fn plain(kind: i32) -> (r: Type)
        requires
            !kind_has_sub(kind),
        ensures
            r.is_plain(kind),
    {
        Type { data: Rc::new(TypeData { kind, abi: Abi::CDecl, sub: None, components: Vec::new() }), layout: None }
    }

    pub(crate) fn tagged_over(tag: i32, underlying: Type) -> (r: Type)
        requires
            0 <= tag <= i32::MAX - FIRST_TAGGED_KIND,
        ensures
            r.is_tagged_over(tag, underlying),
    {
        Type {
            data: Rc::new(
                TypeData {
                    kind: FIRST_TAGGED_KIND + tag,
                    abi: Abi::CDecl,
                    sub: Some(underlying),
                    components: Vec::new(),
                },
            ),
            layout: None,
        }
    }

    /// Copy the descriptor; the copy describes the same type.
    pub fn clone(&self) -> (r: Type)
        ensures
            r == *self,
    {
        proof {
            use_type_invariant(self);
        }
        Type { data: rc_share(&self.data), layout: self.layout }
    }

    fn components_of(types: &[&Ty]) -> (r: Vec<Component>)
        ensures
            r@.len() == types@.len(),
            forall|i: int|
                0 <= i < types@.len() ==> r@[i].spec_ty() == *types@[i] && r@[i].spec_name()
                    is None,
    {
        let mut r: Vec<Component> = Vec::new();
        let mut i: usize = 0;
        while i < types.len()
            invariant
                i <= types@.len(),
                r@.len() == i,
                forall|j: int|
                    0 <= j < i ==> r@[j].spec_ty() == *types@[j] && r@[j].spec_name() is None,
            decreases types@.len() - i,
        {
            r.push(Component { ty: types[i].clone(), name: None });
            i = i + 1;
        }
        r
    }

    /// Create a type descriptor for a function signature.
    pub fn new_signature(abi: Abi, return_type: &Ty, params: &mut [&Ty]) -> (r: Type)
        requires
            old(params)@.len() <= u32::MAX,
        ensures
            r.kind_code() == KIND_SIGNATURE,
            r.spec_abi() == abi,
            r.explicit_layout() is None,
            r.sub_type() == Some(*return_type),
            r.num_components() == old(params)@.len(),
            forall|i: int|
                0 <= i < old(params)@.len() ==> r.component_type(i) == *old(params)@[i]
                    && r.component_name(i) is None,
            final(params)@ == old(params)@,
    {
        let components = Type::components_of(params);
        Type {
            data: Rc::new(
                TypeData {
                    kind: KIND_SIGNATURE,
                    abi,
                    sub: Some(return_type.clone()),
                    components,
                },
            ),
            layout: None,
        }
    }

    /// Create a type descriptor for a structure.
    pub fn new_struct(fields: &mut [&Ty]) -> (r: Type)
        requires
            old(fields)@.len() <= u32::MAX,
        ensures
            r.kind_code() == KIND_STRUCT,
            r.spec_abi() == Abi::CDecl,
            r.sub_type() is None,
            r.explicit_layout() is None,
            r.num_components() == old(fields)@.len(),
            forall|i: int|
                0 <= i < old(fields)@.len() ==> r.component_type(i) == *old(fields)@[i]
                    && r.component_name(i) is None,
            final(fields)@ == old(fields)@,
    {
        let components = Type::components_of(fields);
        Type {
            data: Rc::new(TypeData { kind: KIND_STRUCT, abi: Abi::CDecl, sub: None, components }),
            layout: None,
        }
    }

    /// Create a type descriptor for a union.
    pub fn new_union(fields: &mut [&Ty]) -> (r: Type)
        requires
            old(fields)@.len() <= u32::MAX,
        ensures
            r.kind_code() == KIND_UNION,
            r.spec_abi() == Abi::CDecl,
            r.sub_type() is None,
            r.explicit_layout() is None,
            r.num_components() == old(fields)@.len(),
            forall|i: int|
                0 <= i < old(fields)@.len() ==> r.component_type(i) == *old(fields)@[i]
                    && r.component_name(i) is None,
            final(fields)@ == old(fields)@,
    {
        let components = Type::components_of(fields);
        Type {
            data: Rc::new(TypeData { kind: KIND_UNION, abi: Abi::CDecl, sub: None, components }),
            layout: None,
        }
    }

    /// Create a type descriptor for a pointer to another type.
    pub fn new_pointer(pointee: &Ty) -> (r: Type)
        ensures
            r.kind_code() == KIND_POINTER,
            r.spec_abi() == Abi::CDecl,
            r.sub_type() == Some(*pointee),
            r.num_components() == 0,
            r.explicit_layout() is None,
    {
        Type {
            data: Rc::new(
                TypeData {
                    kind: KIND_POINTER,
                    abi: Abi::CDecl,
                    sub: Some(pointee.clone()),
                    components: Vec::new(),
                },
            ),
            layout: None,
        }
    }
}


/// The number of fields a descriptor shows: its components when it is a
/// structure or union, none otherwise.
pub open spec fn field_count(t: Type) -> nat {
    if t.kind_code() == KIND_STRUCT || t.kind_code() == KIND_UNION {
        t.num_components()
    } else {
        0
    }
}

/// The number of parameters a descriptor shows: its components when it is a
/// signature, none otherwise.
pub open spec fn param_count(t: Type) -> nat {
    if t.kind_code() == KIND_SIGNATURE {
        t.num_components()
    } else {
        0
    }
}

/// The index of the first component named `name`, or `INVALID_NAME` when no
/// component is, or when the descriptor has no components by kind.
pub open spec fn find_name(t: Type, name: Seq<char>) -> u32 {
    if kind_has_components(t.kind_code()) && exists|i: int|
        0 <= i < t.num_components() && t.component_name(i) == Some(name) {
        (choose|i: int|
            0 <= i < t.num_components() && t.component_name(i) == Some(name) && forall|j: int|
                0 <= j < i ==> t.component_name(j) != Some(name)) as u32
    } else {
        INVALID_NAME
    }
}

/// `after` is `before` with the names `names` given to its first components,
/// when its kind has components; otherwise `after` is `before`.
pub open spec fn renamed(before: Type, after: Type, names: Seq<&str>) -> bool {
    &&& after.kind_code() == before.kind_code()
    &&& after.spec_abi() == before.spec_abi()
    &&& after.sub_type() == before.sub_type()
    &&& after.num_components() == before.num_components()
    &&& forall|i: int|
        0 <= i < before.num_components() ==> {
            &&& #[trigger] after.component_type(i) == before.component_type(i)
            &&& after.component_name(i) == if kind_has_components(before.kind_code()) && i
                < names.len() {
                Some(names[i]@)
            } else {
                before.component_name(i)
            }
        }
}

/// Once names are given to the components of a structure, union or
/// signature, looking a name up finds the first component given it.
pub proof fn lemma_field_found_after_naming(before: Type, after: Type, names: Seq<&str>, i: int)
    requires
        renamed(before, after, names),
        kind_has_components(before.kind_code()),
        0 <= i < names.len(),
        i < before.num_components(),
        i < INVALID_NAME,
        forall|j: int| 0 <= j < i ==> names[j]@ != names[i]@,
    ensures
        find_name(after, names[i]@) == i,
{
    assert(after.component_type(i) == before.component_type(i));
    assert(after.component_name(i) == Some(names[i]@));
    assert forall|j: int| 0 <= j < i implies after.component_name(j) != Some(names[i]@) by {
        assert(after.component_type(j) == before.component_type(j));
    }
    let name = names[i]@;
    assert(0 <= i < after.num_components() && after.component_name(i) == Some(name) && forall|
        j: int,
    |
        0 <= j < i ==> after.component_name(j) != Some(name));
    let c = choose|k: int|
        0 <= k < after.num_components() && after.component_name(k) == Some(name) && forall|j: int|
            0 <= j < k ==> after.component_name(j) != Some(name);
    if c > i {
        assert(after.component_name(i) != Some(name));
    }
    if c < i {
        assert(after.component_name(c) != Some(name));
    }
    assert(c == i);
}

/// A signature made of a return type and parameters shows exactly those
/// parameters, in order, through its parameter iterator, and its return type
/// as its return: the iterator over it has as many steps as parameters, and
/// the step at each position yields the parameter there.
pub proof fn lemma_signature_params(sig: Type, ret: Type, params: Seq<Type>, it: Params)
    requires
        sig.kind_code() == KIND_SIGNATURE,
        sig.sub_type() == Some(ret),
        sig.num_components() == params.len(),
        forall|i: int| 0 <= i < params.len() ==> sig.component_type(i) == params[i],
        it.owner() == sig,
        it.length() == param_count(sig),
    ensures
        it.length() == params.len(),
        forall|i: int| 0 <= i < it.length() ==> #[trigger] it.owner().component_type(i) == params[i],
        kind_has_sub(sig.kind_code()) && sig.sub_type() == Some(ret),
{
}

/// Whether no name contains the terminating character of a C string.
pub open spec fn names_are_c_strings(names: Seq<&str>) -> bool {
    forall|i: int| 0 <= i < names.len() ==> !names[i]@.contains('\0')
}

/// A single field of a struct
pub struct Field<'a> {
    /// The index of the field
    pub index: u32,
    ty: &'a Ty,
}

/// Iterates through all the fields of a struct
pub struct Fields<'a> {
    ty: &'a Ty,
    index: u32,
    length: u32,
}

/// Iterator through all the arguments a function takes
pub struct Params<'a> {
    ty: &'a Ty,
    index: u32,
    length: u32,
}

impl<'a> Field<'a> {
    /// The descriptor this field belongs to.
    pub closed spec fn owner(&self) -> Type {
        *self.ty
    }

    /// The index of the field.
    pub closed spec fn field_index(&self) -> u32 {
        self.index
    }

    /// Get the field's name or none if it lacks one
    pub fn get_name(&self) -> (r: Option<&'a str>)
        ensures
            self.field_index() < self.owner().num_components() ==> match r {
                Some(s) => self.owner().component_name(self.field_index() as int) == Some(s@),
                None => self.owner().component_name(self.field_index() as int) is None,
            },
            self.field_index() >= self.owner().num_components() ==> r is None,
    {
        let ty: &'a Ty = self.ty;
        if (self.index as usize) < ty.data.components.len() {
            match &ty.data.components[self.index as usize].name {
                Some(s) => Some(s.as_str()),
                None => None,
            }
        } else {
            None
        }
    }

    /// Get the type of the field
    pub fn get_type(&self) -> (r: &'a Ty)
        requires
            self.field_index() < field_count(self.owner()),
        ensures
            *r == self.owner().component_type(self.field_index() as int),
    {
        let ty: &'a Ty = self.ty;
        &ty.data.components[self.index as usize].ty
    }
}

impl<'a> Fields<'a> {
    /// The descriptor whose fields are iterated.
    pub closed spec fn owner(&self) -> Type {
        *self.ty
    }

    /// The index of the next field.
    pub closed spec fn position(&self) -> u32 {
        self.index
    }

    /// The number of fields iterated over.
    pub closed spec fn length(&self) -> u32 {
        self.length
    }

    #[verifier::type_invariant]
    closed spec fn inv(&self) -> bool {
        &&& self.index <= self.length
        &&& self.length == field_count(*self.ty)
    }

    fn new(ty: &'a Ty) -> (r: Fields<'a>)
        ensures
            r.owner() == *ty,
            r.position() == 0,
            r.length() == field_count(*ty),
    {
        proof {
            use_type_invariant(ty);
        }
        let length: u32 = if ty.data.kind == KIND_STRUCT || ty.data.kind == KIND_UNION {
            ty.data.components.len() as u32
        } else {
            0
        };
        Fields { ty, index: 0, length }
    }

    /// The next field, in index order.
    pub fn next(&mut self) -> (r: Option<Field<'a>>)
        ensures
            final(self).owner() == old(self).owner(),
            final(self).length() == old(self).length(),
            old(self).position() < old(self).length() ==> {
                &&& r matches Some(f) && f.field_index() == old(self).position() && f.owner() == old(
                    self,
                ).owner()
                &&& final(self).position() == old(self).position() + 1
            },
            old(self).position() >= old(self).length() ==> r is None && final(self).position()
                == old(self).position(),
    {
        proof {
            use_type_invariant(&*self);
        }
        if self.index < self.length {
            let index = self.index;
            self.index = self.index + 1;
            Some(Field { index, ty: self.ty })
        } else {
            None
        }
    }

    /// The number of fields left, and no upper bound.
    pub fn size_hint(&self) -> (r: (usize, Option<usize>))
        ensures
            r.0 == self.length() - self.position(),
            r.1 is None,
    {
        proof {
            use_type_invariant(self);
        }
        ((self.length - self.index) as usize, None)
    }
}

impl<'a> Params<'a> {
    /// The descriptor whose parameters are iterated.
    pub closed spec fn owner(&self) -> Type {
        *self.ty
    }

    /// The index of the next parameter.
    pub closed spec fn position(&self) -> u32 {
        self.index
    }

    /// The number of parameters iterated over.
    pub closed spec fn length(&self) -> u32 {
        self.length
    }

    #[verifier::type_invariant]
    closed spec fn inv(&self) -> bool {
        &&& self.index <= self.length
        &&& self.length == param_count(*self.ty)
    }

    fn new(ty: &'a Ty) -> (r: Params<'a>)
        ensures
            r.owner() == *ty,
            r.position() == 0,
            r.length() == param_count(*ty),
    {
        proof {
            use_type_invariant(ty);
        }
        let length: u32 = if ty.data.kind == KIND_SIGNATURE {
            ty.data.components.len() as u32
        } else {
            0
        };
        Params { ty, index: 0, length }
    }

    /// The type of the next parameter, in index order.
    pub fn next(&mut self) -> (r: Option<&'a Ty>)
        ensures
            final(self).owner() == old(self).owner(),
            final(self).length() == old(self).length(),
            old(self).position() < old(self).length() ==> {
                &&& r matches Some(t) && *t == old(self).owner().component_type(
                    old(self).position() as int,
                )
                &&& final(self).position() == old(self).position() + 1
            },
            old(self).position() >= old(self).length() ==> r is None && final(self).position()
                == old(self).position(),
    {
        proof {
            use_type_invariant(&*self);
        }
        if self.index < self.length {
            let index = self.index;
            self.index = self.index + 1;
            let ty: &'a Ty = self.ty;
            Some(&ty.data.components[index as usize].ty)
        } else {
            None
        }
    }

    /// The number of parameters left, and no upper bound.
    pub fn size_hint(&self) -> (r: (usize, Option<usize>))
        ensures
            r.0 == self.length() - self.position(),
            r.1 is None,
    {
        proof {
            use_type_invariant(self);
        }
        ((self.length - self.index) as usize, None)
    }
}

impl Ty {
    /// Get a value that indicates the kind of this type. This allows callers to
    /// quickly classify a type to determine how it should be handled further.
    pub fn get_kind(&self) -> (r: crate::kind::TypeKind)
        ensures
            r@ == self.kind_code(),
    {
        crate::kind::TypeKind::from_raw(self.data.kind)
    }

    /// Get the type that is referred to by this pointer type.
    pub fn get_ref(&self) -> (r: Option<&Ty>)
        ensures
            r is Some <==> self.kind_code() == KIND_POINTER,
            r matches Some(t) ==> Some(*t) == self.sub_type(),
    {
        proof {
            use_type_invariant(self);
        }
        if self.data.kind == KIND_POINTER {
            match &self.data.sub {
                Some(t) => Some(t),
                None => None,
            }
        } else {
            None
        }
    }

    /// Get the type returned by this function type.
    pub fn get_return(&self) -> (r: Option<&Ty>)
        ensures
            r is Some <==> self.kind_code() == KIND_SIGNATURE,
            r matches Some(t) ==> Some(*t) == self.sub_type(),
    {
        proof {
            use_type_invariant(self);
        }
        if self.data.kind == KIND_SIGNATURE {
            match &self.data.sub {
                Some(t) => Some(t),
                None => None,
            }
        } else {
            None
        }
    }

    /// Get the type that a tagged type is tagged over.
    pub fn get_tagged_type(&self) -> (r: Option<&Ty>)
        ensures
            r is Some <==> self.kind_code() >= FIRST_TAGGED_KIND,
            r matches Some(t) ==> Some(*t) == self.sub_type(),
    {
        proof {
            use_type_invariant(self);
        }
        if self.data.kind >= FIRST_TAGGED_KIND {
            match &self.data.sub {
                Some(t) => Some(t),
                None => None,
            }
        } else {
            None
        }
    }

    /// Get the application binary interface recorded in the type.
    pub fn get_abi(&self) -> (r: Abi)
        ensures
            r == self.spec_abi(),
    {
        self.data.abi
    }

    /// Iterate over the type's fields
    pub fn fields(&self) -> (r: Fields)
        ensures
            r.owner() == *self,
            r.position() == 0,
            r.length() == field_count(*self),
    {
        Fields::new(self)
    }

    /// Iterate over the function signature's parameters
    pub fn params(&self) -> (r: Params)
        ensures
            r.owner() == *self,
            r.position() == 0,
            r.length() == param_count(*self),
    {
        Params::new(self)
    }

    /// Check if this is a primitive
    pub fn is_primitive(&self) -> (r: bool)
        ensures
            r == (self.kind_code() <= KIND_NFLOAT),
    {
        self.data.kind <= KIND_NFLOAT
    }

    /// Check if this is a struct
    pub fn is_struct(&self) -> (r: bool)
        ensures
            r == (self.kind_code() == KIND_STRUCT),
    {
        self.data.kind == KIND_STRUCT
    }

    /// Check if this is a union
    pub fn is_union(&self) -> (r: bool)
        ensures
            r == (self.kind_code() == KIND_UNION),
    {
        self.data.kind == KIND_UNION
    }

    /// Check if this is a signature
    pub fn is_signature(&self) -> (r: bool)
        ensures
            r == (self.kind_code() == KIND_SIGNATURE),
    {
        self.data.kind == KIND_SIGNATURE
    }

    /// Check if this is a pointer
    pub fn is_pointer(&self) -> (r: bool)
        ensures
            r == (self.kind_code() == KIND_POINTER),
    {
        self.data.kind == KIND_POINTER
    }

    /// Check if this is tagged
    pub fn is_tagged(&self) -> (r: bool)
        ensures
            r == (self.kind_code() >= FIRST_TAGGED_KIND),
    {
        self.data.kind >= FIRST_TAGGED_KIND
    }

    /// Set the field or parameter names of this struct, union or signature
    /// type. The first names go to the first components; a type of another
    /// kind is left as it is.
    pub fn set_names(&mut self, names: &[&str])
        requires
            names_are_c_strings(names@),
        ensures
            renamed(*old(self), *final(self), names@),
            final(self).explicit_layout() == old(self).explicit_layout(),
    {
        proof {
            use_type_invariant(&*self);
        }
        if kind_has_components_exec(self.data.kind) {
            let mut components: Vec<Component> = Vec::new();
            let n = self.data.components.len();
            let mut i: usize = 0;
            while i < n
                invariant
                    n == self.data.components@.len(),
                    i <= n,
                    components@.len() == i,
                    forall|j: int|
                        0 <= j < i ==> {
                            &&& components@[j].spec_ty() == self.component_type(j)
                            &&& components@[j].spec_name() == if j < names@.len() {
                                Some(names@[j]@)
                            } else {
                                self.component_name(j)
                            }
                        },
                decreases n - i,
            {
                let old_component = &self.data.components[i];
                let name = if i < names.len() {
                    Some(names[i].to_owned())
                } else {
                    match &old_component.name {
                        Some(s) => Some(s.clone()),
                        None => None,
                    }
                };
                components.push(Component { ty: old_component.ty.clone(), name });
                i = i + 1;
            }
            let sub = match &self.data.sub {
                Some(t) => Some(t.clone()),
                None => None,
            };
            let data = TypeData { kind: self.data.kind, abi: self.data.abi, sub, components };
            self.data = Rc::new(data);
        }
    }

    /// Set the size and alignment of this structure or union type, in place
    /// of the layout computed from its fields; a type of another kind is
    /// left as it is.
    pub fn set_size_and_alignment(&mut self, size: usize, alignment: usize)
        ensures
            final(self).kind_code() == old(self).kind_code(),
            final(self).spec_abi() == old(self).spec_abi(),
            final(self).sub_type() == old(self).sub_type(),
            final(self).components() == old(self).components(),
            final(self).explicit_layout() == if old(self).kind_code() == KIND_STRUCT || old(self).kind_code()
                == KIND_UNION {
                Some((size, alignment))
            } else {
                old(self).explicit_layout()
            },
    {
        proof {
            use_type_invariant(&*self);
        }
        if self.data.kind == KIND_STRUCT || self.data.kind == KIND_UNION {
            self.layout = Some((size, alignment));
        }
    }

    /// The size and alignment set for this type, if any.
    pub fn get_explicit_layout(&self) -> (r: Option<(usize, usize)>)
        ensures
            r == self.explicit_layout(),
    {
        self.layout
    }

    /// Find the field/parameter index for a particular name.
    pub fn get_field(&self, name: &str) -> (r: Field)
        requires
            !name@.contains('\0'),
        ensures
            r.owner() == *self,
            r.field_index() == find_name(*self, name@),
    {
        let key = name.to_owned();
        let mut index: u32 = INVALID_NAME;
        proof {
            use_type_invariant(self);
        }
        if kind_has_components_exec(self.data.kind) {
            let n = self.data.components.len();
            let mut i: usize = 0;
            while i < n
                invariant
                    n == self.num_components(),
                    n <= u32::MAX,
                    i <= n,
                    key@ == name@,
                    index == INVALID_NAME ==> forall|j: int|
                        0 <= j < i ==> self.component_name(j) != Some(name@),
                    index != INVALID_NAME ==> {
                        &&& index < i
                        &&& self.component_name(index as int) == Some(name@)
                        &&& forall|j: int|
                            0 <= j < index ==> self.component_name(j) != Some(name@)
                    },
                decreases n - i,
            {
                if index == INVALID_NAME {
                    let found = match &self.data.components[i].name {
                        Some(s) => *s == key,
                        None => false,
                    };
                    if found {
                        index = i as u32;
                    }
                }
                i = i + 1;
            }
            proof {
                if index != INVALID_NAME {
                    let w = index as int;
                    let c = choose|k: int|
                        0 <= k < self.num_components() && self.component_name(k) == Some(name@)
                            && forall|j: int| 0 <= j < k ==> self.component_name(j) != Some(name@);
                    if c < w {
                        assert(self.component_name(c) != Some(name@));
                    }
                    if c > w {
                        assert(self.component_name(w) != Some(name@));
                    }
                }
            }
        }
        Field { index, ty: self }
    }
}

/// Whether a kind code has components.
fn kind_has_components_exec(kind: i32) -> (r: bool)
    ensures
        r == kind_has_components(kind),
{
    kind == KIND_STRUCT || kind == KIND_UNION || kind == KIND_SIGNATURE
}


/// The text that names a type in Rust-like syntax.
///
/// The kind is tested bit-wise, in this order: `char`, `bool`, pointer,
/// signature, structure, union, then the primitives from the widest code
/// down. A pointer shows `&mut` twice before its referent; a signature shows
/// its parameters and never its return type (every kind contains `Void`); a
/// union whose kind also contains the structure bits shows as a structure.
pub open spec fn describe_type(t: Type) -> Seq<char>
    decreases t, 1int, 0int,
{
    let k = t.kind_code();
    if bits_contain(k, KIND_SYS_CHAR) {
        "char"@
    } else if bits_contain(k, KIND_SYS_BOOL) {
        "bool"@
    } else if bits_contain(k, KIND_POINTER) {
        match t.sub_type() {
            Some(r) => {
                if t.kind_code() == KIND_POINTER {
                    "&mut"@ + "&mut "@ + describe_type(r)
                } else {
                    "&mut"@
                }
            },
            None => "&mut"@,
        }
    } else if bits_contain(k, KIND_SIGNATURE) {
        "fn("@ + describe_items(t, param_count(t) as int, param_count(t) as int) + ")"@
    } else if bits_contain(k, KIND_STRUCT) {
        "("@ + describe_items(t, field_count(t) as int, field_count(t) as int) + ")"@
    } else if bits_contain(k, KIND_UNION) {
        "union("@ + describe_items(t, field_count(t) as int, field_count(t) as int) + ")"@
    } else {
        primitive_name(k)
    }
}

/// The name of a kind that is neither composite nor one of the system tags.
pub open spec fn primitive_name(k: i32) -> Seq<char> {
    if bits_contain(k, KIND_NFLOAT) {
        "float"@
    } else if bits_contain(k, KIND_FLOAT32) {
        "f32"@
    } else if bits_contain(k, KIND_FLOAT64) {
        "f64"@
    } else if bits_contain(k, KIND_ULONG) {
        "u64"@
    } else if bits_contain(k, KIND_LONG) {
        "i64"@
    } else if bits_contain(k, KIND_NUINT) {
        "usize"@
    } else if bits_contain(k, KIND_NINT) {
        "isize"@
    } else if bits_contain(k, KIND_UINT) {
        "u32"@
    } else if bits_contain(k, KIND_INT) {
        "i32"@
    } else if bits_contain(k, KIND_USHORT) {
        "u16"@
    } else if bits_contain(k, KIND_SHORT) {
        "i16"@
    } else if bits_contain(k, KIND_UBYTE) {
        "u8"@
    } else if bits_contain(k, KIND_SBYTE) {
        "i8"@
    } else {
        "()"@
    }
}

/// The first `i` of `count` components of `t`, named and separated by `", "`.
pub open spec fn describe_items(t: Type, count: int, i: int) -> Seq<char>
    decreases t, 0int, i,
{
    if i <= 0 || i > t.num_components() {
        Seq::empty()
    } else {
        describe_items(t, count, i - 1) + describe_type(t.component_type(i - 1)) + if i - 1
            < count - 1 {
            ", "@
        } else {
            Seq::empty()
        }
    }
}

/// Whether naming `t` never asks a pointer-like kind for a referent it
/// lacks.
pub open spec fn describable(t: Type) -> bool
    decreases t, 1int, 0int,
{
    let k = t.kind_code();
    if bits_contain(k, KIND_SYS_CHAR) || bits_contain(k, KIND_SYS_BOOL) {
        true
    } else if bits_contain(k, KIND_POINTER) {
        k == KIND_POINTER && match t.sub_type() {
            Some(r) => describable(r),
            None => false,
        }
    } else if bits_contain(k, KIND_SIGNATURE) {
        items_describable(t, param_count(t) as int)
    } else if bits_contain(k, KIND_STRUCT) || bits_contain(k, KIND_UNION) {
        items_describable(t, field_count(t) as int)
    } else {
        true
    }
}

/// Whether the first `i` components of `t` are describable.
pub open spec fn items_describable(t: Type, i: int) -> bool
    decreases t, 0int, i,
{
    if i <= 0 || i > t.num_components() {
        true
    } else {
        items_describable(t, i - 1) && describable(t.component_type(i - 1))
    }
}

impl Ty {
    /// The name of this type in Rust-like syntax, as its debug output shows it.
    pub fn describe(&self) -> (r: String)
        requires
            describable(*self),
        ensures
            r@ == describe_type(*self),
        decreases *self, 1int, 0int,
    {
        proof {
            use_type_invariant(self);
        }
        let kind = self.get_kind();
        let mut out = String::new();
        if kind.contains(crate::kind::TypeKind::SysChar()) {
            out.append("char");
        } else if kind.contains(crate::kind::TypeKind::SysBool()) {
            out.append("bool");
        } else if kind.contains(crate::kind::TypeKind::Pointer()) {
            out.append("&mut");
            out.append("&mut ");
            match self.get_ref() {
                Some(r) => {
                    let inner = r.describe();
                    out.append(inner.as_str());
                },
                None => {},
            }
        } else if kind.contains(crate::kind::TypeKind::Signature()) {
            out.append("fn(");
            let count = self.params().size_hint().0;
            self.describe_items_into(count, &mut out);
            out.append(")");
            match self.get_return() {
                Some(ret) => {
                    let ret_kind = ret.get_kind();
                    proof {
                        crate::kind::lemma_contains_void(ret_kind);
                    }
                    if !ret_kind.contains(crate::kind::TypeKind::Void()) {
                        out.append(" -> ");
                        out.append(ret.describe().as_str());
                    }
                },
                None => {},
            }
        } else if kind.contains(crate::kind::TypeKind::Struct()) {
            out.append("(");
            let count = self.fields().size_hint().0;
            self.describe_items_into(count, &mut out);
            out.append(")");
        } else if kind.contains(crate::kind::TypeKind::Union()) {
            out.append("union(");
            let count = self.fields().size_hint().0;
            self.describe_items_into(count, &mut out);
            out.append(")");
        } else {
            out.append(primitive_name_exec(kind));
        }
        out
    }

    /// Append the names of the first `count` components, separated by `", "`.
    fn describe_items_into(&self, count: usize, out: &mut String)
        requires
            count <= self.num_components(),
            items_describable(*self, count as int),
        ensures
            final(out)@ == old(out)@ + describe_items(*self, count as int, count as int),
        decreases *self, 0int, count,
    {
        let mut i: usize = 0;
        while i < count
            invariant
                i <= count,
                count <= self.num_components(),
                items_describable(*self, count as int),
                out@ == old(out)@ + describe_items(*self, count as int, i as int),
            decreases count - i,
        {
            proof {
                lemma_items_describable_prefix(*self, count as int, i as int + 1);
            }
            let item = &self.data.components[i].ty;
            proof {
                assert(*item == self.component_type(i as int));
                assert(decreases_to!(*self => self.data));
            }
            let text = item.describe();
            out.append(text.as_str());
            if i < count - 1 {
                out.append(", ");
            }
            proof {
                assert(out@ == old(out)@ + describe_items(*self, count as int, i as int + 1));
            }
            i = i + 1;
        }
    }
}

/// Describable prefixes of a describable list are describable, and so is
/// every item in them.
proof fn lemma_items_describable_prefix(t: Type, n: int, i: int)
    requires
        items_describable(t, n),
        0 < i <= n <= t.num_components(),
    ensures
        items_describable(t, i),
        describable(t.component_type(i - 1)),
    decreases n - i,
{
    if i < n {
        lemma_items_describable_prefix(t, n, i + 1);
    }
}

fn primitive_name_exec(kind: crate::kind::TypeKind) -> (r: &'static str)
    ensures
        r@ == primitive_name(kind@),
{
    if kind.contains(crate::kind::TypeKind::NFloat()) {
        "float"
    } else if kind.contains(crate::kind::TypeKind::Float32()) {
        "f32"
    } else if kind.contains(crate::kind::TypeKind::Float64()) {
        "f64"
    } else if kind.contains(crate::kind::TypeKind::ULong()) {
        "u64"
    } else if kind.contains(crate::kind::TypeKind::Long()) {
        "i64"
    } else if kind.contains(crate::kind::TypeKind::NUInt()) {
        "usize"
    } else if kind.contains(crate::kind::TypeKind::NInt()) {
        "isize"
    } else if kind.contains(crate::kind::TypeKind::UInt()) {
        "u32"
    } else if kind.contains(crate::kind::TypeKind::Int()) {
        "i32"
    } else if kind.contains(crate::kind::TypeKind::UShort()) {
        "u16"
    } else if kind.contains(crate::kind::TypeKind::Short()) {
        "i16"
    } else if kind.contains(crate::kind::TypeKind::UByte()) {
        "u8"
    } else if kind.contains(crate::kind::TypeKind::SByte()) {
        "i8"
    } else {
        "()"
    }
}

/// A type descriptor tagged with data of type `T`: it stands for the type
/// it was made from, marked with a kind of its own.
pub struct TaggedType<T> {
    ty: Type,
    data: Box<T>,
}

impl<T> TaggedType<T> {
    /// The tagged descriptor.
    pub closed spec fn spec_type(&self) -> Type {
        self.ty
    }

    /// The data the type is tagged with.
    pub closed spec fn spec_data(&self) -> T {
        *self.data
    }

    #[verifier::type_invariant]
    closed spec fn inv(&self) -> bool {
        self.ty.kind_code() >= FIRST_TAGGED_KIND
    }

    /// Create a new tagged type
    pub fn new(ty: &Ty, kind: crate::kind::TypeKind, data: Box<T>) -> (r: TaggedType<T>)
        requires
            0 <= kind@ <= i32::MAX - FIRST_TAGGED_KIND,
        ensures
            r.spec_type().is_tagged_over(kind@, *ty),
            r.spec_data() == *data,
    {
        TaggedType { ty: Type::tagged_over(kind.bits(), ty.clone()), data }
    }

    /// Get the data this is tagged to
    pub fn get_tagged_data(&self) -> (r: Option<&T>)
        ensures
            r == Some(&self.spec_data()),
    {
        Some(&*self.data)
    }

    /// Get the type this is tagged to
    pub fn get_tagged_type(&self) -> (r: &Ty)
        ensures
            Some(*r) == self.spec_type().sub_type(),
    {
        proof {
            use_type_invariant(self);
            use_type_invariant(&self.ty);
        }
        match &self.ty.data.sub {
            Some(t) => t,
            None => {
                proof {
                    assert(false);
                }
                &self.ty
            },
        }
    }

    /// Change the data this is tagged to
    pub fn set_tagged_data(&mut self, data: Box<T>)
        ensures
            final(self).spec_type() == old(self).spec_type(),
            final(self).spec_data() == *data,
    {
        proof {
            use_type_invariant(&*self);
        }
        self.data = data;
    }

    /// The tagged descriptor itself.
    pub fn as_ty(&self) -> (r: &Ty)
        ensures
            *r == self.spec_type(),
    {
        &self.ty
    }
}

} // verus!
