//! Type constants: the primitive descriptors and the system C types of a
//! 64-bit Linux target, where `char` is signed and `long` has 64 bits.
use vstd::prelude::*;
use crate::types::Type;
use crate::expr::is_name;
use crate::compile::Compile;
use vstd::string::StrSliceExecFns;
use crate::kind::{KIND_FLOAT32, KIND_FLOAT64, KIND_INT, KIND_LONG, KIND_NFLOAT, KIND_NINT, KIND_NUINT, KIND_SBYTE, KIND_SHORT, KIND_UBYTE, KIND_UINT, KIND_ULONG, KIND_USHORT, KIND_VOID, KIND_POINTER};

verus! {

/// The tags that mark the system C types.
pub const TAG_SYS_BOOL: i32 = 10009;
pub const TAG_SYS_CHAR: i32 = 10010;
pub const TAG_SYS_UCHAR: i32 = 10012;
pub const TAG_SYS_SHORT: i32 = 10013;
pub const TAG_SYS_USHORT: i32 = 10014;
pub const TAG_SYS_INT: i32 = 10015;
pub const TAG_SYS_UINT: i32 = 10016;
pub const TAG_SYS_LONG: i32 = 10017;
pub const TAG_SYS_ULONG: i32 = 10018;
pub const TAG_SYS_LONGLONG: i32 = 10019;
pub const TAG_SYS_ULONGLONG: i32 = 10020;
pub const TAG_SYS_FLOAT: i32 = 10021;
pub const TAG_SYS_DOUBLE: i32 = 10022;
pub const TAG_SYS_LONG_DOUBLE: i32 = 10023;

/// The descriptor of the empty type.
pub fn get_void() -> (r: Type)
    ensures
        r.is_plain(KIND_VOID),
{
    Type::plain(KIND_VOID)
}

/// The descriptor of a signed byte.
pub fn get_sbyte() -> (r: Type)
    ensures
        r.is_plain(KIND_SBYTE),
{
    Type::plain(KIND_SBYTE)
}

/// The descriptor of an unsigned byte.
pub fn get_ubyte() -> (r: Type)
    ensures
        r.is_plain(KIND_UBYTE),
{
    Type::plain(KIND_UBYTE)
}

/// The descriptor of a signed 16-bit integer.
pub fn get_short() -> (r: Type)
    ensures
        r.is_plain(KIND_SHORT),
{
    Type::plain(KIND_SHORT)
}

/// The descriptor of an unsigned 16-bit integer.
pub fn get_ushort() -> (r: Type)
    ensures
        r.is_plain(KIND_USHORT),
{
    Type::plain(KIND_USHORT)
}

/// The descriptor of a signed 32-bit integer.
pub fn get_int() -> (r: Type)
    ensures
        r.is_plain(KIND_INT),
{
    Type::plain(KIND_INT)
}

/// The descriptor of an unsigned 32-bit integer.
pub fn get_uint() -> (r: Type)
    ensures
        r.is_plain(KIND_UINT),
{
    Type::plain(KIND_UINT)
}

/// The descriptor of a signed native integer.
pub fn get_nint() -> (r: Type)
    ensures
        r.is_plain(KIND_NINT),
{
    Type::plain(KIND_NINT)
}

/// The descriptor of an unsigned native integer.
pub fn get_nuint() -> (r: Type)
    ensures
        r.is_plain(KIND_NUINT),
{
    Type::plain(KIND_NUINT)
}

/// The descriptor of a signed 64-bit integer.
pub fn get_long() -> (r: Type)
    ensures
        r.is_plain(KIND_LONG),
{
    Type::plain(KIND_LONG)
}

/// The descriptor of an unsigned 64-bit integer.
pub fn get_ulong() -> (r: Type)
    ensures
        r.is_plain(KIND_ULONG),
{
    Type::plain(KIND_ULONG)
}

/// The descriptor of a 32-bit float.
pub fn get_float32() -> (r: Type)
    ensures
        r.is_plain(KIND_FLOAT32),
{
    Type::plain(KIND_FLOAT32)
}

/// The descriptor of a 64-bit float.
pub fn get_float64() -> (r: Type)
    ensures
        r.is_plain(KIND_FLOAT64),
{
    Type::plain(KIND_FLOAT64)
}

/// The descriptor of the native float.
pub fn get_nfloat() -> (r: Type)
    ensures
        r.is_plain(KIND_NFLOAT),
{
    Type::plain(KIND_NFLOAT)
}

/// The descriptor of an untyped pointer: a pointer to the empty type.
pub fn get_void_ptr() -> (r: Type)
    ensures
        r.kind_code() == KIND_POINTER,
        r.num_components() == 0,
        r.sub_type() matches Some(u) && u.is_plain(KIND_VOID),
{
    Type::new_pointer(&get_void())
}

/// The descriptor of the system `bool` type: a tagged primitive.
pub fn get_sys_bool() -> (r: Type)
    ensures
        r.is_tagged_plain(TAG_SYS_BOOL, KIND_UBYTE),
{
    Type::tagged_over(TAG_SYS_BOOL, Type::plain(KIND_UBYTE))
}

/// The descriptor of the system `char` type: a tagged primitive.
pub fn get_sys_char() -> (r: Type)
    ensures
        r.is_tagged_plain(TAG_SYS_CHAR, KIND_SBYTE),
{
    Type::tagged_over(TAG_SYS_CHAR, Type::plain(KIND_SBYTE))
}

/// The descriptor of the system `unsigned char` type: a tagged primitive.
pub fn get_sys_uchar() -> (r: Type)
    ensures
        r.is_tagged_plain(TAG_SYS_UCHAR, KIND_UBYTE),
{
    Type::tagged_over(TAG_SYS_UCHAR, Type::plain(KIND_UBYTE))
}

/// The descriptor of the system `short` type: a tagged primitive.
pub fn get_sys_short() -> (r: Type)
    ensures
        r.is_tagged_plain(TAG_SYS_SHORT, KIND_SHORT),
{
    Type::tagged_over(TAG_SYS_SHORT, Type::plain(KIND_SHORT))
}

/// The descriptor of the system `unsigned short` type: a tagged primitive.
pub fn get_sys_ushort() -> (r: Type)
    ensures
        r.is_tagged_plain(TAG_SYS_USHORT, KIND_USHORT),
{
    Type::tagged_over(TAG_SYS_USHORT, Type::plain(KIND_USHORT))
}

/// The descriptor of the system `int` type: a tagged primitive.
pub fn get_sys_int() -> (r: Type)
    ensures
        r.is_tagged_plain(TAG_SYS_INT, KIND_INT),
{
    Type::tagged_over(TAG_SYS_INT, Type::plain(KIND_INT))
}

/// The descriptor of the system `unsigned int` type: a tagged primitive.
pub fn get_sys_uint() -> (r: Type)
    ensures
        r.is_tagged_plain(TAG_SYS_UINT, KIND_UINT),
{
    Type::tagged_over(TAG_SYS_UINT, Type::plain(KIND_UINT))
}

/// The descriptor of the system `long` type: a tagged primitive.
pub fn get_sys_long() -> (r: Type)
    ensures
        r.is_tagged_plain(TAG_SYS_LONG, KIND_LONG),
{
    Type::tagged_over(TAG_SYS_LONG, Type::plain(KIND_LONG))
}

/// The descriptor of the system `unsigned long` type: a tagged primitive.
pub fn get_sys_ulong() -> (r: Type)
    ensures
        r.is_tagged_plain(TAG_SYS_ULONG, KIND_ULONG),
{
    Type::tagged_over(TAG_SYS_ULONG, Type::plain(KIND_ULONG))
}

/// The descriptor of the system `long long` type: a tagged primitive.
pub fn get_sys_longlong() -> (r: Type)
    ensures
        r.is_tagged_plain(TAG_SYS_LONGLONG, KIND_LONG),
{
    Type::tagged_over(TAG_SYS_LONGLONG, Type::plain(KIND_LONG))
}

/// The descriptor of the system `unsigned long long` type: a tagged primitive.
pub fn get_sys_ulonglong() -> (r: Type)
    ensures
        r.is_tagged_plain(TAG_SYS_ULONGLONG, KIND_ULONG),
{
    Type::tagged_over(TAG_SYS_ULONGLONG, Type::plain(KIND_ULONG))
}

/// The descriptor of the system `float` type: a tagged primitive.
pub fn get_sys_float() -> (r: Type)
    ensures
        r.is_tagged_plain(TAG_SYS_FLOAT, KIND_FLOAT32),
{
    Type::tagged_over(TAG_SYS_FLOAT, Type::plain(KIND_FLOAT32))
}

/// The descriptor of the system `double` type: a tagged primitive.
pub fn get_sys_double() -> (r: Type)
    ensures
        r.is_tagged_plain(TAG_SYS_DOUBLE, KIND_FLOAT64),
{
    Type::tagged_over(TAG_SYS_DOUBLE, Type::plain(KIND_FLOAT64))
}

/// The descriptor of the system `long double` type: a tagged primitive.
pub fn get_sys_long_double() -> (r: Type)
    ensures
        r.is_tagged_plain(TAG_SYS_LONG_DOUBLE, KIND_NFLOAT),
{
    Type::tagged_over(TAG_SYS_LONG_DOUBLE, Type::plain(KIND_NFLOAT))
}

/// Whether `t` is the descriptor that the Rust type named `name` has: a
/// primitive by its name, or the untyped pointer for a pointer or reference.
pub open spec fn names_type(name: Seq<char>, t: Type) -> bool {
    if name == "i8"@ {
        t.is_plain(KIND_SBYTE)
    } else if name == "u8"@ {
        t.is_plain(KIND_UBYTE)
    } else if name == "i16"@ {
        t.is_plain(KIND_SHORT)
    } else if name == "u16"@ {
        t.is_plain(KIND_USHORT)
    } else if name == "i32"@ {
        t.is_plain(KIND_INT)
    } else if name == "u32"@ {
        t.is_plain(KIND_UINT)
    } else if name == "i64"@ {
        t.is_plain(KIND_LONG)
    } else if name == "u64"@ {
        t.is_plain(KIND_ULONG)
    } else if name == "isize"@ {
        t.is_plain(KIND_NINT)
    } else if name == "usize"@ {
        t.is_plain(KIND_NUINT)
    } else if name == "f32"@ {
        t.is_plain(KIND_FLOAT32)
    } else if name == "f64"@ {
        t.is_plain(KIND_FLOAT64)
    } else if name == "bool"@ {
        t.is_tagged_plain(TAG_SYS_BOOL, KIND_UBYTE)
    } else if name == "char"@ {
        t.is_tagged_plain(TAG_SYS_CHAR, KIND_SBYTE)
    } else if is_pointer_name(name) {
        t.kind_code() == KIND_POINTER && t.num_components() == 0 && (t.sub_type() matches Some(u) && u.is_plain(KIND_VOID))
    } else {
        false
    }
}

/// Whether the name is that of a pointer or reference type.
pub open spec fn is_pointer_name(name: Seq<char>) -> bool {
    name.len() > 0 && (name[0] == '&' || name[0] == '*')
}

/// Whether the name names a type that `type_of_name` knows.
pub open spec fn is_type_name(name: Seq<char>) -> bool {
    name == "i8"@ || name == "u8"@ || name == "i16"@ || name == "u16"@ || name == "i32"@ || name == "u32"@ || name == "i64"@ || name == "u64"@ || name == "isize"@ || name == "usize"@ || name == "f32"@ || name == "f64"@ || name == "bool"@ || name == "char"@ || is_pointer_name(name)
}

/// The descriptor of the Rust type named `name`, when it is a primitive or
/// a pointer or reference; other types are described by their `Compile`
/// impl.
pub fn type_of_name(name: &str) -> (r: Option<Type>)
    ensures
        r is Some <==> is_type_name(name@),
        r matches Some(t) ==> names_type(name@, t),
{
    let n = name.to_owned();
    if is_name(&n, "i8") {
        Some(get_sbyte())
    } else if is_name(&n, "u8") {
        Some(get_ubyte())
    } else if is_name(&n, "i16") {
        Some(get_short())
    } else if is_name(&n, "u16") {
        Some(get_ushort())
    } else if is_name(&n, "i32") {
        Some(get_int())
    } else if is_name(&n, "u32") {
        Some(get_uint())
    } else if is_name(&n, "i64") {
        Some(get_long())
    } else if is_name(&n, "u64") {
        Some(get_ulong())
    } else if is_name(&n, "isize") {
        Some(get_nint())
    } else if is_name(&n, "usize") {
        Some(get_nuint())
    } else if is_name(&n, "f32") {
        Some(get_float32())
    } else if is_name(&n, "f64") {
        Some(get_float64())
    } else if is_name(&n, "bool") {
        Some(get_sys_bool())
    } else if is_name(&n, "char") {
        Some(get_sys_char())
    } else if !name.is_empty() && (name.get_char(0) == '&' || name.get_char(0) == '*') {
        Some(get_void_ptr())
    } else {
        None
    }
}

/// The descriptor a primitive Rust type name stands for is the one that
/// type compiles with: a name and a type's `Compile` impl agree on every
/// descriptor, and the float names stand for the plain float descriptors.
pub proof fn lemma_names_agree_with_compile(t: Type)
    ensures
        names_type("i8"@, t) <==> <i8 as Compile>::describes(t),
        names_type("u8"@, t) <==> <u8 as Compile>::describes(t),
        names_type("i16"@, t) <==> <i16 as Compile>::describes(t),
        names_type("u16"@, t) <==> <u16 as Compile>::describes(t),
        names_type("i32"@, t) <==> <i32 as Compile>::describes(t),
        names_type("u32"@, t) <==> <u32 as Compile>::describes(t),
        names_type("i64"@, t) <==> <i64 as Compile>::describes(t),
        names_type("u64"@, t) <==> <u64 as Compile>::describes(t),
        names_type("isize"@, t) <==> <isize as Compile>::describes(t),
        names_type("usize"@, t) <==> <usize as Compile>::describes(t),
        names_type("bool"@, t) <==> <bool as Compile>::describes(t),
        names_type("char"@, t) <==> <char as Compile>::describes(t),
        names_type("f32"@, t) <==> t.is_plain(KIND_FLOAT32),
        names_type("f64"@, t) <==> t.is_plain(KIND_FLOAT64),
        is_type_name("i8"@),
        is_type_name("u8"@),
        is_type_name("i16"@),
        is_type_name("u16"@),
        is_type_name("i32"@),
        is_type_name("u32"@),
        is_type_name("i64"@),
        is_type_name("u64"@),
        is_type_name("isize"@),
        is_type_name("usize"@),
        is_type_name("f32"@),
        is_type_name("f64"@),
        is_type_name("bool"@),
        is_type_name("char"@),
{
    reveal_strlit("i8");
    reveal_strlit("u8");
    reveal_strlit("i16");
    reveal_strlit("u16");
    reveal_strlit("i32");
    reveal_strlit("u32");
    reveal_strlit("i64");
    reveal_strlit("u64");
    reveal_strlit("isize");
    reveal_strlit("usize");
    reveal_strlit("f32");
    reveal_strlit("f64");
    reveal_strlit("bool");
    reveal_strlit("char");
    assert("u8"@[0] != "i8"@[0]);
    assert("i16"@.len() != "i8"@.len());
    assert("i16"@.len() != "u8"@.len());
    assert("u16"@.len() != "i8"@.len());
    assert("u16"@.len() != "u8"@.len());
    assert("u16"@[0] != "i16"@[0]);
    assert("i32"@.len() != "i8"@.len());
    assert("i32"@.len() != "u8"@.len());
    assert("i32"@[1] != "i16"@[1]);
    assert("i32"@[0] != "u16"@[0]);
    assert("u32"@.len() != "i8"@.len());
    assert("u32"@.len() != "u8"@.len());
    assert("u32"@[0] != "i16"@[0]);
    assert("u32"@[1] != "u16"@[1]);
    assert("u32"@[0] != "i32"@[0]);
    assert("i64"@.len() != "i8"@.len());
    assert("i64"@.len() != "u8"@.len());
    assert("i64"@[1] != "i16"@[1]);
    assert("i64"@[0] != "u16"@[0]);
    assert("i64"@[1] != "i32"@[1]);
    assert("i64"@[0] != "u32"@[0]);
    assert("u64"@.len() != "i8"@.len());
    assert("u64"@.len() != "u8"@.len());
    assert("u64"@[0] != "i16"@[0]);
    assert("u64"@[1] != "u16"@[1]);
    assert("u64"@[0] != "i32"@[0]);
    assert("u64"@[1] != "u32"@[1]);
    assert("u64"@[0] != "i64"@[0]);
    assert("isize"@.len() != "i8"@.len());
    assert("isize"@.len() != "u8"@.len());
    assert("isize"@.len() != "i16"@.len());
    assert("isize"@.len() != "u16"@.len());
    assert("isize"@.len() != "i32"@.len());
    assert("isize"@.len() != "u32"@.len());
    assert("isize"@.len() != "i64"@.len());
    assert("isize"@.len() != "u64"@.len());
    assert("usize"@.len() != "i8"@.len());
    assert("usize"@.len() != "u8"@.len());
    assert("usize"@.len() != "i16"@.len());
    assert("usize"@.len() != "u16"@.len());
    assert("usize"@.len() != "i32"@.len());
    assert("usize"@.len() != "u32"@.len());
    assert("usize"@.len() != "i64"@.len());
    assert("usize"@.len() != "u64"@.len());
    assert("usize"@[0] != "isize"@[0]);
    assert("f32"@.len() != "i8"@.len());
    assert("f32"@.len() != "u8"@.len());
    assert("f32"@[0] != "i16"@[0]);
    assert("f32"@[0] != "u16"@[0]);
    assert("f32"@[0] != "i32"@[0]);
    assert("f32"@[0] != "u32"@[0]);
    assert("f32"@[0] != "i64"@[0]);
    assert("f32"@[0] != "u64"@[0]);
    assert("f32"@.len() != "isize"@.len());
    assert("f32"@.len() != "usize"@.len());
    assert("f64"@.len() != "i8"@.len());
    assert("f64"@.len() != "u8"@.len());
    assert("f64"@[0] != "i16"@[0]);
    assert("f64"@[0] != "u16"@[0]);
    assert("f64"@[0] != "i32"@[0]);
    assert("f64"@[0] != "u32"@[0]);
    assert("f64"@[0] != "i64"@[0]);
    assert("f64"@[0] != "u64"@[0]);
    assert("f64"@.len() != "isize"@.len());
    assert("f64"@.len() != "usize"@.len());
    assert("f64"@[1] != "f32"@[1]);
    assert("bool"@.len() != "i8"@.len());
    assert("bool"@.len() != "u8"@.len());
    assert("bool"@.len() != "i16"@.len());
    assert("bool"@.len() != "u16"@.len());
    assert("bool"@.len() != "i32"@.len());
    assert("bool"@.len() != "u32"@.len());
    assert("bool"@.len() != "i64"@.len());
    assert("bool"@.len() != "u64"@.len());
    assert("bool"@.len() != "isize"@.len());
    assert("bool"@.len() != "usize"@.len());
    assert("bool"@.len() != "f32"@.len());
    assert("bool"@.len() != "f64"@.len());
    assert("char"@.len() != "i8"@.len());
    assert("char"@.len() != "u8"@.len());
    assert("char"@.len() != "i16"@.len());
    assert("char"@.len() != "u16"@.len());
    assert("char"@.len() != "i32"@.len());
    assert("char"@.len() != "u32"@.len());
    assert("char"@.len() != "i64"@.len());
    assert("char"@.len() != "u64"@.len());
    assert("char"@.len() != "isize"@.len());
    assert("char"@.len() != "usize"@.len());
    assert("char"@.len() != "f32"@.len());
    assert("char"@.len() != "f64"@.len());
    assert("char"@[0] != "bool"@[0]);
    assert(!is_pointer_name("i8"@));
    assert(!is_pointer_name("u8"@));
    assert(!is_pointer_name("i16"@));
    assert(!is_pointer_name("u16"@));
    assert(!is_pointer_name("i32"@));
    assert(!is_pointer_name("u32"@));
    assert(!is_pointer_name("i64"@));
    assert(!is_pointer_name("u64"@));
    assert(!is_pointer_name("isize"@));
    assert(!is_pointer_name("usize"@));
    assert(!is_pointer_name("f32"@));
    assert(!is_pointer_name("f64"@));
    assert(!is_pointer_name("bool"@));
    assert(!is_pointer_name("char"@));
}

} // verus!
