//! Rust values that can be compiled into a function: constants, strings
//! and vectors built on the stack behind a header structure, and tuples
//! stored field by field.
use vstd::prelude::*;
use crate::function::{
    lemma_added_value_extends, lemma_extends_trans, lemma_recorded_extends, lemma_value_at, value_at, Insn, UnaryOp, UncompiledFunction, Value, ValueInfo, ValueOrigin,
};
use crate::kind::{
    KIND_INT, KIND_LONG, KIND_POINTER, KIND_STRUCT, KIND_NINT, KIND_NUINT, KIND_SBYTE, KIND_SHORT, KIND_UBYTE, KIND_UINT, KIND_ULONG, KIND_USHORT, KIND_VOID,
};
use crate::typecs;
use crate::types::{Abi, Ty, Type, TypeKind};
use crate::kind::bits_contain;
use vstd::string::StringSliceAdditionalSpecFns;
use vstd::utf8::encode_utf8;
use vstd::layout::{align_of_as_usize, size_of_as_usize};

verus! {

/// A type that can be compiled into a LibJIT representation
pub trait Compile: Sized {
    /// Whether `t` is the type descriptor that represents this type.
    spec fn describes(t: Type) -> bool;

    /// Whether compiling `self` into the function `before` gives `after`,
    /// with `r` the value that represents `self`.
    spec fn compiled(&self, before: UncompiledFunction, after: UncompiledFunction, r: Value) -> bool;

    /// Get the type descriptor that represents this type
    fn get_type() -> (r: Type)
        ensures
            Self::describes(r),
    ;

    /// Get a JIT representation of this value: a new value of the function,
    /// of this type's descriptor.
    fn compile(&self, func: &mut UncompiledFunction) -> (r: Value)
        requires
            old(func).wf(),
        ensures
            final(func).wf(),
            final(func).extends(*old(func)),
            final(func).holds(r),
            final(func).values()[r.position() as int].ty matches Some(t) && Self::describes(t),
            self.compiled(*old(func), *final(func), r),
    ;
}

/// The bits a constant of the system `bool` type holds.
pub open spec fn bool_bits(b: bool) -> u64 {
    if b {
        1
    } else {
        0
    }
}

impl Compile for () {
    open spec fn describes(t: Type) -> bool {
        t.is_plain(KIND_VOID)
    }

    open spec fn compiled(&self, before: UncompiledFunction, after: UncompiledFunction, r: Value) -> bool {
        after.added_value_of(before, r, ValueOrigin::Local)
    }

    fn get_type() -> (r: Type) {
        typecs::get_void()
    }

    fn compile(&self, func: &mut UncompiledFunction) -> (r: Value) {
        let ty = typecs::get_void();
        let ghost before = *func;
        let r = Value::new(func, &ty);
        proof {
            lemma_added_value_extends(before, *func, r);
        }
        r
    }
}

impl Compile for bool {
    open spec fn describes(t: Type) -> bool {
        t.is_tagged_plain(typecs::TAG_SYS_BOOL, KIND_UBYTE)
    }

    open spec fn compiled(&self, before: UncompiledFunction, after: UncompiledFunction, r: Value) -> bool {
        after.added_value_of(before, r, ValueOrigin::Constant(bool_bits(*self)))
    }

    fn get_type() -> (r: Type) {
        typecs::get_sys_bool()
    }

    fn compile(&self, func: &mut UncompiledFunction) -> (r: Value) {
        let ty = typecs::get_sys_bool();
        let bits: u64 = if *self {
            1
        } else {
            0
        };
        let ghost before = *func;
        let r = func.insn_constant(&ty, bits);
        proof {
            lemma_added_value_extends(before, *func, r);
        }
        r
    }
}

impl Compile for char {
    open spec fn describes(t: Type) -> bool {
        t.is_tagged_plain(typecs::TAG_SYS_CHAR, KIND_SBYTE)
    }

    open spec fn compiled(&self, before: UncompiledFunction, after: UncompiledFunction, r: Value) -> bool {
        after.added_value_of(before, r, ValueOrigin::Constant((*self as u32) as u64))
    }

    fn get_type() -> (r: Type) {
        typecs::get_sys_char()
    }

    fn compile(&self, func: &mut UncompiledFunction) -> (r: Value) {
        let ty = typecs::get_sys_char();
        let ghost before = *func;
        let r = func.insn_constant(&ty, *self as u32 as u64);
        proof {
            lemma_added_value_extends(before, *func, r);
        }
        r
    }
}

impl Compile for i8 {
    open spec fn describes(t: Type) -> bool {
        t.is_plain(KIND_SBYTE)
    }

    open spec fn compiled(&self, before: UncompiledFunction, after: UncompiledFunction, r: Value) -> bool {
        after.added_value_of(before, r, ValueOrigin::Constant(*self as u64))
    }

    fn get_type() -> (r: Type) {
        typecs::get_sbyte()
    }

    fn compile(&self, func: &mut UncompiledFunction) -> (r: Value) {
        let ty = typecs::get_sbyte();
        let ghost before = *func;
        let r = func.insn_constant(&ty, *self as u64);
        proof {
            lemma_added_value_extends(before, *func, r);
        }
        r
    }
}

impl Compile for u8 {
    open spec fn describes(t: Type) -> bool {
        t.is_plain(KIND_UBYTE)
    }

    open spec fn compiled(&self, before: UncompiledFunction, after: UncompiledFunction, r: Value) -> bool {
        after.added_value_of(before, r, ValueOrigin::Constant(*self as u64))
    }

    fn get_type() -> (r: Type) {
        typecs::get_ubyte()
    }

    fn compile(&self, func: &mut UncompiledFunction) -> (r: Value) {
        let ty = typecs::get_ubyte();
        let ghost before = *func;
        let r = func.insn_constant(&ty, *self as u64);
        proof {
            lemma_added_value_extends(before, *func, r);
        }
        r
    }
}

impl Compile for i16 {
    open spec fn describes(t: Type) -> bool {
        t.is_plain(KIND_SHORT)
    }

    open spec fn compiled(&self, before: UncompiledFunction, after: UncompiledFunction, r: Value) -> bool {
        after.added_value_of(before, r, ValueOrigin::Constant(*self as u64))
    }

    fn get_type() -> (r: Type) {
        typecs::get_short()
    }

    fn compile(&self, func: &mut UncompiledFunction) -> (r: Value) {
        let ty = typecs::get_short();
        let ghost before = *func;
        let r = func.insn_constant(&ty, *self as u64);
        proof {
            lemma_added_value_extends(before, *func, r);
        }
        r
    }
}

impl Compile for u16 {
    open spec fn describes(t: Type) -> bool {
        t.is_plain(KIND_USHORT)
    }

    open spec fn compiled(&self, before: UncompiledFunction, after: UncompiledFunction, r: Value) -> bool {
        after.added_value_of(before, r, ValueOrigin::Constant(*self as u64))
    }

    fn get_type() -> (r: Type) {
        typecs::get_ushort()
    }

    fn compile(&self, func: &mut UncompiledFunction) -> (r: Value) {
        let ty = typecs::get_ushort();
        let ghost before = *func;
        let r = func.insn_constant(&ty, *self as u64);
        proof {
            lemma_added_value_extends(before, *func, r);
        }
        r
    }
}

impl Compile for i32 {
    open spec fn describes(t: Type) -> bool {
        t.is_plain(KIND_INT)
    }

    open spec fn compiled(&self, before: UncompiledFunction, after: UncompiledFunction, r: Value) -> bool {
        after.added_value_of(before, r, ValueOrigin::Constant(*self as u64))
    }

    fn get_type() -> (r: Type) {
        typecs::get_int()
    }

    fn compile(&self, func: &mut UncompiledFunction) -> (r: Value) {
        let ty = typecs::get_int();
        let ghost before = *func;
        let r = func.insn_constant(&ty, *self as u64);
        proof {
            lemma_added_value_extends(before, *func, r);
        }
        r
    }
}

impl Compile for u32 {
    open spec fn describes(t: Type) -> bool {
        t.is_plain(KIND_UINT)
    }

    open spec fn compiled(&self, before: UncompiledFunction, after: UncompiledFunction, r: Value) -> bool {
        after.added_value_of(before, r, ValueOrigin::Constant(*self as u64))
    }

    fn get_type() -> (r: Type) {
        typecs::get_uint()
    }

    fn compile(&self, func: &mut UncompiledFunction) -> (r: Value) {
        let ty = typecs::get_uint();
        let ghost before = *func;
        let r = func.insn_constant(&ty, *self as u64);
        proof {
            lemma_added_value_extends(before, *func, r);
        }
        r
    }
}

impl Compile for i64 {
    open spec fn describes(t: Type) -> bool {
        t.is_plain(KIND_LONG)
    }

    open spec fn compiled(&self, before: UncompiledFunction, after: UncompiledFunction, r: Value) -> bool {
        after.added_value_of(before, r, ValueOrigin::Constant(*self as u64))
    }

    fn get_type() -> (r: Type) {
        typecs::get_long()
    }

    fn compile(&self, func: &mut UncompiledFunction) -> (r: Value) {
        let ty = typecs::get_long();
        let ghost before = *func;
        let r = func.insn_constant(&ty, *self as u64);
        proof {
            lemma_added_value_extends(before, *func, r);
        }
        r
    }
}

impl Compile for u64 {
    open spec fn describes(t: Type) -> bool {
        t.is_plain(KIND_ULONG)
    }

    open spec fn compiled(&self, before: UncompiledFunction, after: UncompiledFunction, r: Value) -> bool {
        after.added_value_of(before, r, ValueOrigin::Constant(*self as u64))
    }

    fn get_type() -> (r: Type) {
        typecs::get_ulong()
    }

    fn compile(&self, func: &mut UncompiledFunction) -> (r: Value) {
        let ty = typecs::get_ulong();
        let ghost before = *func;
        let r = func.insn_constant(&ty, *self as u64);
        proof {
            lemma_added_value_extends(before, *func, r);
        }
        r
    }
}

impl Compile for isize {
    open spec fn describes(t: Type) -> bool {
        t.is_plain(KIND_NINT)
    }

    open spec fn compiled(&self, before: UncompiledFunction, after: UncompiledFunction, r: Value) -> bool {
        after.added_value_of(before, r, ValueOrigin::Constant(*self as u64))
    }

    fn get_type() -> (r: Type) {
        typecs::get_nint()
    }

    fn compile(&self, func: &mut UncompiledFunction) -> (r: Value) {
        let ty = typecs::get_nint();
        let ghost before = *func;
        let r = func.insn_constant(&ty, *self as u64);
        proof {
            lemma_added_value_extends(before, *func, r);
        }
        r
    }
}

impl Compile for usize {
    open spec fn describes(t: Type) -> bool {
        t.is_plain(KIND_NUINT)
    }

    open spec fn compiled(&self, before: UncompiledFunction, after: UncompiledFunction, r: Value) -> bool {
        after.added_value_of(before, r, ValueOrigin::Constant(*self as u64))
    }

    fn get_type() -> (r: Type) {
        typecs::get_nuint()
    }

    fn compile(&self, func: &mut UncompiledFunction) -> (r: Value) {
        let ty = typecs::get_nuint();
        let ghost before = *func;
        let r = func.insn_constant(&ty, *self as u64);
        proof {
            lemma_added_value_extends(before, *func, r);
        }
        r
    }
}

/// A pointer to unsigned bytes.
pub open spec fn describes_byte_pointer(p: Type) -> bool {
    &&& p.kind_code() == KIND_POINTER
    &&& p.spec_abi() == Abi::CDecl
    &&& p.num_components() == 0
    &&& p.explicit_layout() is None
    &&& p.sub_type() matches Some(u) && u.is_plain(KIND_UBYTE)
}

/// The descriptor of a string slice: a structure of `ptr`, a pointer to its
/// bytes, and `len`, their number as an unsigned native integer.
pub open spec fn describes_str(t: Type) -> bool {
    &&& t.kind_code() == KIND_STRUCT
    &&& t.spec_abi() == Abi::CDecl
    &&& t.sub_type() is None
    &&& t.explicit_layout() is None
    &&& t.num_components() == 2
    &&& describes_byte_pointer(t.component_type(0)) && t.component_name(0) == Some("ptr"@)
    &&& t.component_type(1).is_plain(KIND_NUINT) && t.component_name(1) == Some("len"@)
}

/// The descriptor of an owned string: a structure of `len` and `cap`,
/// unsigned native integers, and `ptr`, a pointer to its bytes.
pub open spec fn describes_string(t: Type) -> bool {
    &&& t.kind_code() == KIND_STRUCT
    &&& t.spec_abi() == Abi::CDecl
    &&& t.sub_type() is None
    &&& t.explicit_layout() is None
    &&& t.num_components() == 3
    &&& t.component_type(0).is_plain(KIND_NUINT) && t.component_name(0) == Some("len"@)
    &&& t.component_type(1).is_plain(KIND_NUINT) && t.component_name(1) == Some("cap"@)
    &&& describes_byte_pointer(t.component_type(2)) && t.component_name(2) == Some("ptr"@)
}

/// A new constant, not addressable, whose type is a plain one of `kind`.
pub open spec fn is_plain_constant(info: ValueInfo, bits: u64, kind: i32) -> bool {
    &&& info.origin == ValueOrigin::Constant(bits)
    &&& !info.addressable
    &&& info.ty matches Some(t) && t.is_plain(kind)
}

/// Whether the values of `vals` from `n` on are those of a buffer of the
/// bytes `bytes` built on the stack: the pointer, a local; the length, a
/// constant; the address of the room allocated; then each byte, a constant.
pub open spec fn buffer_infos(bytes: Seq<u8>, n: int, vals: Seq<ValueInfo>) -> bool {
    &&& vals[n].origin == ValueOrigin::Local
    &&& !vals[n].addressable
    &&& vals[n].ty matches Some(p) && describes_byte_pointer(p)
    &&& is_plain_constant(vals[n + 1], bytes.len() as u64, KIND_NUINT)
    &&& vals[n + 2] == (ValueInfo { ty: None, origin: ValueOrigin::Result, addressable: false })
    &&& forall|i: int| 0 <= i < bytes.len() ==> is_plain_constant(#[trigger] vals[n + 3 + i], bytes[i] as u64, KIND_UBYTE)
}

/// The instructions that build the buffer of `bytes` in function `id`
/// whose values number `n` before: room for the bytes allocated on the stack
/// and its address stored in the pointer, then each byte stored at its
/// offset from the pointer.
pub open spec fn buffer_code(bytes: Seq<u8>, id: u64, n: int) -> Seq<Insn> {
    seq![
        Insn::Unary(UnaryOp::Alloca, value_at(id, n + 1), value_at(id, n + 2)),
        Insn::Store(value_at(id, n), value_at(id, n + 2)),
    ] + Seq::new(bytes.len(), |i: int| Insn::StoreRelative(value_at(id, n), i as usize, value_at(id, n + 3 + i)))
}

/// Whether `after` is `before` with `count` values added after the old
/// ones and the instructions `code` recorded after the old ones.
pub open spec fn grown_by(before: UncompiledFunction, after: UncompiledFunction, count: nat, code: Seq<Insn>) -> bool {
    let n = before.values().len() as int;
    &&& after.same_but_values_and_insns(before)
    &&& after.values().len() == n + count
    &&& forall|j: int| 0 <= j < n ==> #[trigger] after.values()[j] == before.values()[j]
    &&& after.insns() == before.insns() + code
}

/// The number of values a string slice of `len` bytes compiles into.
pub open spec fn str_count(len: nat) -> nat {
    len + 5
}

/// Whether the values from `n` on are those of the string slice of `bytes`:
/// its buffer, then its header, a local, and its length, a constant.
pub open spec fn str_infos(bytes: Seq<u8>, n: int, vals: Seq<ValueInfo>) -> bool {
    let h = n + 3 + bytes.len();
    &&& buffer_infos(bytes, n, vals)
    &&& vals[h].origin == ValueOrigin::Local
    &&& !vals[h].addressable
    &&& vals[h].ty matches Some(t) && describes_str(t)
    &&& is_plain_constant(vals[h + 1], bytes.len() as u64, KIND_NUINT)
}

/// The instructions of the string slice of `bytes`: those of its buffer,
/// then the pointer stored at offset 0 of the header and the length in its
/// field `len`.
pub open spec fn str_code(bytes: Seq<u8>, id: u64, n: int) -> Seq<Insn> {
    let h = n + 3 + bytes.len();
    buffer_code(bytes, id, n) + seq![
        Insn::StoreRelative(value_at(id, h), 0, value_at(id, n)),
        Insn::StoreField(value_at(id, h), 1, value_at(id, h + 1)),
    ]
}

/// The value a string slice compiles into: its header.
pub open spec fn str_result(bytes: Seq<u8>, id: u64, n: int) -> Value {
    value_at(id, n + 3 + bytes.len())
}

/// Whether the values from `n` on are those of the owned string of `bytes`:
/// its buffer, then its header, a local, and its length, a constant.
pub open spec fn string_infos(bytes: Seq<u8>, n: int, vals: Seq<ValueInfo>) -> bool {
    let h = n + 3 + bytes.len();
    &&& buffer_infos(bytes, n, vals)
    &&& vals[h].origin == ValueOrigin::Local
    &&& !vals[h].addressable
    &&& vals[h].ty matches Some(t) && describes_string(t)
    &&& is_plain_constant(vals[h + 1], bytes.len() as u64, KIND_NUINT)
}

/// The instructions of the owned string of `bytes`: those of its buffer,
/// then the length stored at offset 0 of the header and in its field `cap`,
/// and the pointer in its field `ptr`.
pub open spec fn string_code(bytes: Seq<u8>, id: u64, n: int) -> Seq<Insn> {
    let h = n + 3 + bytes.len();
    buffer_code(bytes, id, n) + seq![
        Insn::StoreRelative(value_at(id, h), 0, value_at(id, h + 1)),
        Insn::StoreField(value_at(id, h), 1, value_at(id, h + 1)),
        Insn::StoreField(value_at(id, h), 2, value_at(id, n)),
    ]
}

/// Build the buffer of `bytes` on the stack of the function; the result is
/// the pointer to it.
fn compile_buffer(bytes: &[u8], func: &mut UncompiledFunction) -> (r: Value)
    requires
        old(func).wf(),
    ensures
        final(func).wf(),
        grown_by(*old(func), *final(func), bytes@.len() + 3, buffer_code(bytes@, old(func).id(), old(func).values().len() as int)),
        buffer_infos(bytes@, old(func).values().len() as int, final(func).values()),
        r == value_at(old(func).id(), old(func).values().len() as int),
        r.func_id() == old(func).id(),
        r.position() == old(func).values().len(),
{
    let ghost before = *func;
    let ghost n = func.values().len() as int;
    let ghost id = func.id();
    let len = bytes.len();
    let ptr_t = Type::new_pointer(&typecs::get_ubyte());
    let ptr = Value::new(func, &ptr_t);
    let count = len.compile(func);
    let room = func.insn_alloca(count);
    func.insn_store(ptr, room);
    proof {
        lemma_value_at(ptr, id, n);
        lemma_value_at(count, id, n + 1);
        lemma_value_at(room, id, n + 2);
        assert(func.insns() =~= before.insns() + buffer_code(bytes@, id, n).take(2));
    }
    let mut i: usize = 0;
    while i < len
        invariant
            0 <= i <= len,
            len == bytes@.len(),
            func.wf(),
            func.same_but_values_and_insns(before),
            func.id() == id,
            id == before.id(),
            n == before.values().len(),
            func.values().len() == n + 3 + i,
            forall|j: int| 0 <= j < n ==> #[trigger] func.values()[j] == before.values()[j],
            func.values()[n].origin == ValueOrigin::Local,
            !func.values()[n].addressable,
            func.values()[n].ty matches Some(p) && describes_byte_pointer(p),
            is_plain_constant(func.values()[n + 1], len as u64, KIND_NUINT),
            func.values()[n + 2] == (ValueInfo { ty: None, origin: ValueOrigin::Result, addressable: false }),
            forall|j: int| 0 <= j < i ==> is_plain_constant(#[trigger] func.values()[n + 3 + j], bytes@[j] as u64, KIND_UBYTE),
            ptr == value_at(id, n),
            ptr.func_id() == id,
            ptr.position() == n,
            func.insns() == before.insns() + buffer_code(bytes@, id, n).take(2 + i),
        decreases len - i,
    {
        let byte = bytes[i].compile(func);
        func.insn_store_relative(ptr, i, byte);
        proof {
            lemma_value_at(byte, id, n + 3 + i);
            assert(buffer_code(bytes@, id, n).take(2 + i + 1) =~= buffer_code(bytes@, id, n).take(2 + i).push(
                Insn::StoreRelative(ptr, i, byte),
            ));
        }
        i = i + 1;
    }
    proof {
        assert(buffer_code(bytes@, id, n).take(2 + len) =~= buffer_code(bytes@, id, n));
    }
    ptr
}

/// A function that grew as `grown_by` says grew.
proof fn lemma_grown_extends(before: UncompiledFunction, after: UncompiledFunction, count: nat, code: Seq<Insn>)
    requires
        grown_by(before, after, count, code),
    ensures
        after.extends(before),
{
    assert(after.insns().take(before.insns().len() as int) =~= before.insns());
}

/// The descriptor of a string slice.
fn str_type() -> (r: Type)
    ensures
        describes_str(r),
{
    let ptr_t = Type::new_pointer(&typecs::get_ubyte());
    let len_t = typecs::get_nuint();
    let mut parts: Vec<&Ty> = Vec::new();
    parts.push(&ptr_t);
    parts.push(&len_t);
    let mut ty = Type::new_struct(parts.as_mut_slice());
    proof {
        assert(ty.component_type(0) == ptr_t);
        assert(ty.component_type(1) == len_t);
    }
    let ghost unnamed = ty;
    let names: [&str; 2] = ["ptr", "len"];
    proof {
        reveal_strlit("ptr");
        reveal_strlit("len");
        assert(names@ == seq!["ptr", "len"]);
        assert(!"ptr"@.contains('\0'));
        assert(!"len"@.contains('\0'));
    }
    ty.set_names(&names);
    proof {
        assert(ty.component_type(0) == unnamed.component_type(0));
        assert(ty.component_type(1) == unnamed.component_type(1));
    }
    ty
}

/// The descriptor of an owned string.
fn string_type() -> (r: Type)
    ensures
        describes_string(r),
{
    let ptr_t = Type::new_pointer(&typecs::get_ubyte());
    let len_t = typecs::get_nuint();
    let cap_t = typecs::get_nuint();
    let mut parts: Vec<&Ty> = Vec::new();
    parts.push(&len_t);
    parts.push(&cap_t);
    parts.push(&ptr_t);
    let mut ty = Type::new_struct(parts.as_mut_slice());
    proof {
        assert(ty.component_type(0) == len_t);
        assert(ty.component_type(1) == cap_t);
        assert(ty.component_type(2) == ptr_t);
    }
    let ghost unnamed = ty;
    let names: [&str; 3] = ["len", "cap", "ptr"];
    proof {
        reveal_strlit("len");
        reveal_strlit("cap");
        reveal_strlit("ptr");
        assert(names@ == seq!["len", "cap", "ptr"]);
        assert(!"len"@.contains('\0'));
        assert(!"cap"@.contains('\0'));
        assert(!"ptr"@.contains('\0'));
    }
    ty.set_names(&names);
    proof {
        assert(ty.component_type(0) == unnamed.component_type(0));
        assert(ty.component_type(1) == unnamed.component_type(1));
        assert(ty.component_type(2) == unnamed.component_type(2));
    }
    ty
}

/// Compile a string slice of `bytes`: its buffer, then a header of the
/// pointer and the length.
pub(crate) fn compile_str(bytes: &[u8], func: &mut UncompiledFunction) -> (r: Value)
    requires
        old(func).wf(),
    ensures
        final(func).wf(),
        grown_by(*old(func), *final(func), str_count(bytes@.len()), str_code(bytes@, old(func).id(), old(func).values().len() as int)),
        str_infos(bytes@, old(func).values().len() as int, final(func).values()),
        r == str_result(bytes@, old(func).id(), old(func).values().len() as int),
        r.func_id() == old(func).id(),
        r.position() == old(func).values().len() + 3 + bytes@.len(),
{
    let ghost before = *func;
    let ghost n = func.values().len() as int;
    let ghost id = func.id();
    let ptr = compile_buffer(bytes, func);
    let ghost m = *func;
    let ty = str_type();
    let header = Value::new(func, &ty);
    func.insn_store_relative(header, 0, ptr);
    let len = bytes.len().compile(func);
    func.insn_store_field(header, 1, len);
    proof {
        let h = n + 3 + bytes@.len();
        lemma_value_at(header, id, h);
        lemma_value_at(len, id, h + 1);
        assert(func.insns() =~= before.insns() + str_code(bytes@, id, n));
        assert forall|i: int| 0 <= i < bytes@.len() implies is_plain_constant(#[trigger] func.values()[n + 3 + i], bytes@[i] as u64, KIND_UBYTE) by {
            assert(func.values()[n + 3 + i] == m.values()[n + 3 + i]);
        }
    }
    header
}

/// Compile an owned string of `bytes`: its buffer, then a header of the
/// length, the capacity (the length again) and the pointer.
fn compile_string(bytes: &[u8], func: &mut UncompiledFunction) -> (r: Value)
    requires
        old(func).wf(),
    ensures
        final(func).wf(),
        grown_by(*old(func), *final(func), str_count(bytes@.len()), string_code(bytes@, old(func).id(), old(func).values().len() as int)),
        string_infos(bytes@, old(func).values().len() as int, final(func).values()),
        r == str_result(bytes@, old(func).id(), old(func).values().len() as int),
        r.func_id() == old(func).id(),
        r.position() == old(func).values().len() + 3 + bytes@.len(),
{
    let ghost before = *func;
    let ghost n = func.values().len() as int;
    let ghost id = func.id();
    let ptr = compile_buffer(bytes, func);
    let ghost m = *func;
    let ty = string_type();
    let header = Value::new(func, &ty);
    let len = bytes.len().compile(func);
    func.insn_store_relative(header, 0, len);
    func.insn_store_field(header, 1, len);
    func.insn_store_field(header, 2, ptr);
    proof {
        let h = n + 3 + bytes@.len();
        lemma_value_at(header, id, h);
        lemma_value_at(len, id, h + 1);
        assert(func.insns() =~= before.insns() + string_code(bytes@, id, n));
        assert forall|i: int| 0 <= i < bytes@.len() implies is_plain_constant(#[trigger] func.values()[n + 3 + i], bytes@[i] as u64, KIND_UBYTE) by {
            assert(func.values()[n + 3 + i] == m.values()[n + 3 + i]);
        }
    }
    header
}

impl Compile for String {
    open spec fn describes(t: Type) -> bool {
        describes_string(t)
    }

    open spec fn compiled(&self, before: UncompiledFunction, after: UncompiledFunction, r: Value) -> bool {
        let bytes = encode_utf8(self@);
        let n = before.values().len() as int;
        &&& grown_by(before, after, str_count(bytes.len()), string_code(bytes, before.id(), n))
        &&& string_infos(bytes, n, after.values())
        &&& r == str_result(bytes, before.id(), n)
    }

    fn get_type() -> (r: Type) {
        string_type()
    }

    fn compile(&self, func: &mut UncompiledFunction) -> (r: Value) {
        let ghost before = *func;
        let r = compile_string(self.as_str().as_bytes(), func);
        proof {
            lemma_grown_extends(before, *func, str_count(encode_utf8(self@).len()), string_code(encode_utf8(self@), before.id(), before.values().len() as int));
        }
        r
    }
}

impl<'a> Compile for &'a str {
    open spec fn describes(t: Type) -> bool {
        describes_str(t)
    }

    open spec fn compiled(&self, before: UncompiledFunction, after: UncompiledFunction, r: Value) -> bool {
        let n = before.values().len() as int;
        &&& grown_by(before, after, str_count(self.spec_bytes().len()), str_code(self.spec_bytes(), before.id(), n))
        &&& str_infos(self.spec_bytes(), n, after.values())
        &&& r == str_result(self.spec_bytes(), before.id(), n)
    }

    fn get_type() -> (r: Type) {
        str_type()
    }

    fn compile(&self, func: &mut UncompiledFunction) -> (r: Value) {
        let ghost before = *func;
        let r = compile_str(self.as_bytes(), func);
        proof {
            lemma_grown_extends(before, *func, str_count(self.spec_bytes().len()), str_code(self.spec_bytes(), before.id(), before.values().len() as int));
        }
        r
    }
}

impl<A: Compile, B: Compile> Compile for (A, B) {
    open spec fn describes(t: Type) -> bool {
        &&& t.kind_code() == KIND_STRUCT
        &&& t.spec_abi() == Abi::CDecl
        &&& t.sub_type() is None
        &&& t.num_components() == 2
        &&& t.explicit_layout() == Some((size_of_as_usize::<(A, B)>(), align_of_as_usize::<(A, B)>()))
        &&& A::describes(t.component_type(0)) && t.component_name(0) is None
        &&& B::describes(t.component_type(1)) && t.component_name(1) is None
    }

    open spec fn compiled(&self, before: UncompiledFunction, after: UncompiledFunction, r: Value) -> bool {
        exists|m0: UncompiledFunction, m1: UncompiledFunction, m2: UncompiledFunction, s1: UncompiledFunction, e0: Value, e1: Value|
            #![trigger self.0.compiled(m0, m1, e0), self.1.compiled(m1, m2, e1), s1.recorded(m2, Insn::StoreField(r, 0, e0))]
            {
                &&& m0.added_value_of(before, r, ValueOrigin::Local)
                &&& m0.values()[r.position() as int].ty matches Some(t) && Self::describes(t)
                &&& self.0.compiled(m0, m1, e0)
                &&& self.1.compiled(m1, m2, e1)
                &&& s1.recorded(m2, Insn::StoreField(r, 0, e0))
                &&& after.recorded(s1, Insn::StoreField(r, 1, e1))
            }
    }

    fn get_type() -> (r: Type) {
        let t0 = A::get_type();
        let t1 = B::get_type();
        let mut parts: Vec<&Ty> = Vec::new();
        parts.push(&t0);
        parts.push(&t1);
        let mut ty = Type::new_struct(parts.as_mut_slice());
        proof {
            assert(ty.component_type(0) == t0);
            assert(ty.component_type(1) == t1);
        }
        let size = core::mem::size_of::<(A, B)>();
        let alignment = core::mem::align_of::<(A, B)>();
        ty.set_size_and_alignment(size, alignment);
        proof {
            assert(size == size_of_as_usize::<(A, B)>());
            assert(alignment == align_of_as_usize::<(A, B)>());
        }
        ty
    }

    fn compile(&self, func: &mut UncompiledFunction) -> (r: Value) {
        let ty = Self::get_type();
        let ghost before = *func;
        let tuple = Value::new(func, &ty);
        proof {
            lemma_added_value_extends(before, *func, tuple);
        }
        let ghost m0 = *func;
        let e0 = self.0.compile(func);
        let ghost m1 = *func;
        proof {
            lemma_extends_trans(before, m0, m1);
        }
        let e1 = self.1.compile(func);
        let ghost m2 = *func;
        proof {
            lemma_extends_trans(before, m1, m2);
        }
        func.insn_store_field(tuple, 0, e0);
        let ghost s1 = *func;
        proof {
            lemma_recorded_extends(m2, s1);
            lemma_extends_trans(before, m2, s1);
        }
        func.insn_store_field(tuple, 1, e1);
        proof {
            lemma_recorded_extends(s1, *func);
            lemma_extends_trans(before, s1, *func);
        }
        tuple
    }
}

impl<A: Compile, B: Compile, C: Compile> Compile for (A, B, C) {
    open spec fn describes(t: Type) -> bool {
        &&& t.kind_code() == KIND_STRUCT
        &&& t.spec_abi() == Abi::CDecl
        &&& t.sub_type() is None
        &&& t.num_components() == 3
        &&& t.explicit_layout() == Some((size_of_as_usize::<(A, B, C)>(), align_of_as_usize::<(A, B, C)>()))
        &&& A::describes(t.component_type(0)) && t.component_name(0) is None
        &&& B::describes(t.component_type(1)) && t.component_name(1) is None
        &&& C::describes(t.component_type(2)) && t.component_name(2) is None
    }

    open spec fn compiled(&self, before: UncompiledFunction, after: UncompiledFunction, r: Value) -> bool {
        exists|m0: UncompiledFunction, m1: UncompiledFunction, m2: UncompiledFunction, m3: UncompiledFunction, s1: UncompiledFunction, s2: UncompiledFunction, e0: Value, e1: Value, e2: Value|
            #![trigger self.0.compiled(m0, m1, e0), self.1.compiled(m1, m2, e1), self.2.compiled(m2, m3, e2), s1.recorded(m3, Insn::StoreField(r, 0, e0)), s2.recorded(s1, Insn::StoreField(r, 1, e1))]
            {
                &&& m0.added_value_of(before, r, ValueOrigin::Local)
                &&& m0.values()[r.position() as int].ty matches Some(t) && Self::describes(t)
                &&& self.0.compiled(m0, m1, e0)
                &&& self.1.compiled(m1, m2, e1)
                &&& self.2.compiled(m2, m3, e2)
                &&& s1.recorded(m3, Insn::StoreField(r, 0, e0))
                &&& s2.recorded(s1, Insn::StoreField(r, 1, e1))
                &&& after.recorded(s2, Insn::StoreField(r, 2, e2))
            }
    }

    fn get_type() -> (r: Type) {
        let t0 = A::get_type();
        let t1 = B::get_type();
        let t2 = C::get_type();
        let mut parts: Vec<&Ty> = Vec::new();
        parts.push(&t0);
        parts.push(&t1);
        parts.push(&t2);
        let mut ty = Type::new_struct(parts.as_mut_slice());
        proof {
            assert(ty.component_type(0) == t0);
            assert(ty.component_type(1) == t1);
            assert(ty.component_type(2) == t2);
        }
        let size = core::mem::size_of::<(A, B, C)>();
        let alignment = core::mem::align_of::<(A, B, C)>();
        ty.set_size_and_alignment(size, alignment);
        proof {
            assert(size == size_of_as_usize::<(A, B, C)>());
            assert(alignment == align_of_as_usize::<(A, B, C)>());
        }
        ty
    }

    fn compile(&self, func: &mut UncompiledFunction) -> (r: Value) {
        let ty = Self::get_type();
        let ghost before = *func;
        let tuple = Value::new(func, &ty);
        proof {
            lemma_added_value_extends(before, *func, tuple);
        }
        let ghost m0 = *func;
        let e0 = self.0.compile(func);
        let ghost m1 = *func;
        proof {
            lemma_extends_trans(before, m0, m1);
        }
        let e1 = self.1.compile(func);
        let ghost m2 = *func;
        proof {
            lemma_extends_trans(before, m1, m2);
        }
        let e2 = self.2.compile(func);
        let ghost m3 = *func;
        proof {
            lemma_extends_trans(before, m2, m3);
        }
        func.insn_store_field(tuple, 0, e0);
        let ghost s1 = *func;
        proof {
            lemma_recorded_extends(m3, s1);
            lemma_extends_trans(before, m3, s1);
        }
        func.insn_store_field(tuple, 1, e1);
        let ghost s2 = *func;
        proof {
            lemma_recorded_extends(s1, s2);
            lemma_extends_trans(before, s1, s2);
        }
        func.insn_store_field(tuple, 2, e2);
        proof {
            lemma_recorded_extends(s2, *func);
            lemma_extends_trans(before, s2, *func);
        }
        tuple
    }
}

impl<A: Compile, B: Compile, C: Compile, D: Compile> Compile for (A, B, C, D) {
    open spec fn describes(t: Type) -> bool {
        &&& t.kind_code() == KIND_STRUCT
        &&& t.spec_abi() == Abi::CDecl
        &&& t.sub_type() is None
        &&& t.num_components() == 4
        &&& t.explicit_layout() == Some((size_of_as_usize::<(A, B, C, D)>(), align_of_as_usize::<(A, B, C, D)>()))
        &&& A::describes(t.component_type(0)) && t.component_name(0) is None
        &&& B::describes(t.component_type(1)) && t.component_name(1) is None
        &&& C::describes(t.component_type(2)) && t.component_name(2) is None
        &&& D::describes(t.component_type(3)) && t.component_name(3) is None
    }

    open spec fn compiled(&self, before: UncompiledFunction, after: UncompiledFunction, r: Value) -> bool {
        exists|m0: UncompiledFunction, m1: UncompiledFunction, m2: UncompiledFunction, m3: UncompiledFunction, m4: UncompiledFunction, s1: UncompiledFunction, s2: UncompiledFunction, s3: UncompiledFunction, e0: Value, e1: Value, e2: Value, e3: Value|
            #![trigger self.0.compiled(m0, m1, e0), self.1.compiled(m1, m2, e1), self.2.compiled(m2, m3, e2), self.3.compiled(m3, m4, e3), s1.recorded(m4, Insn::StoreField(r, 0, e0)), s2.recorded(s1, Insn::StoreField(r, 1, e1)), s3.recorded(s2, Insn::StoreField(r, 2, e2))]
            {
                &&& m0.added_value_of(before, r, ValueOrigin::Local)
                &&& m0.values()[r.position() as int].ty matches Some(t) && Self::describes(t)
                &&& self.0.compiled(m0, m1, e0)
                &&& self.1.compiled(m1, m2, e1)
                &&& self.2.compiled(m2, m3, e2)
                &&& self.3.compiled(m3, m4, e3)
                &&& s1.recorded(m4, Insn::StoreField(r, 0, e0))
                &&& s2.recorded(s1, Insn::StoreField(r, 1, e1))
                &&& s3.recorded(s2, Insn::StoreField(r, 2, e2))
                &&& after.recorded(s3, Insn::StoreField(r, 3, e3))
            }
    }

    fn get_type() -> (r: Type) {
        let t0 = A::get_type();
        let t1 = B::get_type();
        let t2 = C::get_type();
        let t3 = D::get_type();
        let mut parts: Vec<&Ty> = Vec::new();
        parts.push(&t0);
        parts.push(&t1);
        parts.push(&t2);
        parts.push(&t3);
        let mut ty = Type::new_struct(parts.as_mut_slice());
        proof {
            assert(ty.component_type(0) == t0);
            assert(ty.component_type(1) == t1);
            assert(ty.component_type(2) == t2);
            assert(ty.component_type(3) == t3);
        }
        let size = core::mem::size_of::<(A, B, C, D)>();
        let alignment = core::mem::align_of::<(A, B, C, D)>();
        ty.set_size_and_alignment(size, alignment);
        proof {
            assert(size == size_of_as_usize::<(A, B, C, D)>());
            assert(alignment == align_of_as_usize::<(A, B, C, D)>());
        }
        ty
    }

    fn compile(&self, func: &mut UncompiledFunction) -> (r: Value) {
        let ty = Self::get_type();
        let ghost before = *func;
        let tuple = Value::new(func, &ty);
        proof {
            lemma_added_value_extends(before, *func, tuple);
        }
        let ghost m0 = *func;
        let e0 = self.0.compile(func);
        let ghost m1 = *func;
        proof {
            lemma_extends_trans(before, m0, m1);
        }
        let e1 = self.1.compile(func);
        let ghost m2 = *func;
        proof {
            lemma_extends_trans(before, m1, m2);
        }
        let e2 = self.2.compile(func);
        let ghost m3 = *func;
        proof {
            lemma_extends_trans(before, m2, m3);
        }
        let e3 = self.3.compile(func);
        let ghost m4 = *func;
        proof {
            lemma_extends_trans(before, m3, m4);
        }
        func.insn_store_field(tuple, 0, e0);
        let ghost s1 = *func;
        proof {
            lemma_recorded_extends(m4, s1);
            lemma_extends_trans(before, m4, s1);
        }
        func.insn_store_field(tuple, 1, e1);
        let ghost s2 = *func;
        proof {
            lemma_recorded_extends(s1, s2);
            lemma_extends_trans(before, s1, s2);
        }
        func.insn_store_field(tuple, 2, e2);
        let ghost s3 = *func;
        proof {
            lemma_recorded_extends(s2, s3);
            lemma_extends_trans(before, s2, s3);
        }
        func.insn_store_field(tuple, 3, e3);
        proof {
            lemma_recorded_extends(s3, *func);
            lemma_extends_trans(before, s3, *func);
        }
        tuple
    }
}

impl<A: Compile, B: Compile, C: Compile, D: Compile, E: Compile> Compile for (A, B, C, D, E) {
    open spec fn describes(t: Type) -> bool {
        &&& t.kind_code() == KIND_STRUCT
        &&& t.spec_abi() == Abi::CDecl
        &&& t.sub_type() is None
        &&& t.num_components() == 5
        &&& t.explicit_layout() == Some((size_of_as_usize::<(A, B, C, D, E)>(), align_of_as_usize::<(A, B, C, D, E)>()))
        &&& A::describes(t.component_type(0)) && t.component_name(0) is None
        &&& B::describes(t.component_type(1)) && t.component_name(1) is None
        &&& C::describes(t.component_type(2)) && t.component_name(2) is None
        &&& D::describes(t.component_type(3)) && t.component_name(3) is None
        &&& E::describes(t.component_type(4)) && t.component_name(4) is None
    }

    open spec fn compiled(&self, before: UncompiledFunction, after: UncompiledFunction, r: Value) -> bool {
        exists|m0: UncompiledFunction, m1: UncompiledFunction, m2: UncompiledFunction, m3: UncompiledFunction, m4: UncompiledFunction, m5: UncompiledFunction, s1: UncompiledFunction, s2: UncompiledFunction, s3: UncompiledFunction, s4: UncompiledFunction, e0: Value, e1: Value, e2: Value, e3: Value, e4: Value|
            #![trigger self.0.compiled(m0, m1, e0), self.1.compiled(m1, m2, e1), self.2.compiled(m2, m3, e2), self.3.compiled(m3, m4, e3), self.4.compiled(m4, m5, e4), s1.recorded(m5, Insn::StoreField(r, 0, e0)), s2.recorded(s1, Insn::StoreField(r, 1, e1)), s3.recorded(s2, Insn::StoreField(r, 2, e2)), s4.recorded(s3, Insn::StoreField(r, 3, e3))]
            {
                &&& m0.added_value_of(before, r, ValueOrigin::Local)
                &&& m0.values()[r.position() as int].ty matches Some(t) && Self::describes(t)
                &&& self.0.compiled(m0, m1, e0)
                &&& self.1.compiled(m1, m2, e1)
                &&& self.2.compiled(m2, m3, e2)
                &&& self.3.compiled(m3, m4, e3)
                &&& self.4.compiled(m4, m5, e4)
                &&& s1.recorded(m5, Insn::StoreField(r, 0, e0))
                &&& s2.recorded(s1, Insn::StoreField(r, 1, e1))
                &&& s3.recorded(s2, Insn::StoreField(r, 2, e2))
                &&& s4.recorded(s3, Insn::StoreField(r, 3, e3))
                &&& after.recorded(s4, Insn::StoreField(r, 4, e4))
            }
    }

    fn get_type() -> (r: Type) {
        let t0 = A::get_type();
        let t1 = B::get_type();
        let t2 = C::get_type();
        let t3 = D::get_type();
        let t4 = E::get_type();
        let mut parts: Vec<&Ty> = Vec::new();
        parts.push(&t0);
        parts.push(&t1);
        parts.push(&t2);
        parts.push(&t3);
        parts.push(&t4);
        let mut ty = Type::new_struct(parts.as_mut_slice());
        proof {
            assert(ty.component_type(0) == t0);
            assert(ty.component_type(1) == t1);
            assert(ty.component_type(2) == t2);
            assert(ty.component_type(3) == t3);
            assert(ty.component_type(4) == t4);
        }
        let size = core::mem::size_of::<(A, B, C, D, E)>();
        let alignment = core::mem::align_of::<(A, B, C, D, E)>();
        ty.set_size_and_alignment(size, alignment);
        proof {
            assert(size == size_of_as_usize::<(A, B, C, D, E)>());
            assert(alignment == align_of_as_usize::<(A, B, C, D, E)>());
        }
        ty
    }

    fn compile(&self, func: &mut UncompiledFunction) -> (r: Value) {
        let ty = Self::get_type();
        let ghost before = *func;
        let tuple = Value::new(func, &ty);
        proof {
            lemma_added_value_extends(before, *func, tuple);
        }
        let ghost m0 = *func;
        let e0 = self.0.compile(func);
        let ghost m1 = *func;
        proof {
            lemma_extends_trans(before, m0, m1);
        }
        let e1 = self.1.compile(func);
        let ghost m2 = *func;
        proof {
            lemma_extends_trans(before, m1, m2);
        }
        let e2 = self.2.compile(func);
        let ghost m3 = *func;
        proof {
            lemma_extends_trans(before, m2, m3);
        }
        let e3 = self.3.compile(func);
        let ghost m4 = *func;
        proof {
            lemma_extends_trans(before, m3, m4);
        }
        let e4 = self.4.compile(func);
        let ghost m5 = *func;
        proof {
            lemma_extends_trans(before, m4, m5);
        }
        func.insn_store_field(tuple, 0, e0);
        let ghost s1 = *func;
        proof {
            lemma_recorded_extends(m5, s1);
            lemma_extends_trans(before, m5, s1);
        }
        func.insn_store_field(tuple, 1, e1);
        let ghost s2 = *func;
        proof {
            lemma_recorded_extends(s1, s2);
            lemma_extends_trans(before, s1, s2);
        }
        func.insn_store_field(tuple, 2, e2);
        let ghost s3 = *func;
        proof {
            lemma_recorded_extends(s2, s3);
            lemma_extends_trans(before, s2, s3);
        }
        func.insn_store_field(tuple, 3, e3);
        let ghost s4 = *func;
        proof {
            lemma_recorded_extends(s3, s4);
            lemma_extends_trans(before, s3, s4);
        }
        func.insn_store_field(tuple, 4, e4);
        proof {
            lemma_recorded_extends(s4, *func);
            lemma_extends_trans(before, s4, *func);
        }
        tuple
    }
}

/// The descriptor of a vector of `T`: a structure of its length `len`, its
/// capacity `cap`, both unsigned native integers, and `ptr`, a pointer to
/// its elements.
pub open spec fn describes_vec<T: Compile>(t: Type) -> bool {
    &&& t.kind_code() == KIND_STRUCT
    &&& t.spec_abi() == Abi::CDecl
    &&& t.sub_type() is None
    &&& t.explicit_layout() is None
    &&& t.num_components() == 3
    &&& t.component_type(0).is_plain(KIND_NUINT) && t.component_name(0) == Some("len"@)
    &&& t.component_type(1).is_plain(KIND_NUINT) && t.component_name(1) == Some("cap"@)
    &&& describes_elem_pointer::<T>(t.component_type(2)) && t.component_name(2) == Some("ptr"@)
}

/// A pointer to a descriptor of `T`.
pub open spec fn describes_elem_pointer<T: Compile>(p: Type) -> bool {
    &&& p.kind_code() == KIND_POINTER
    &&& p.spec_abi() == Abi::CDecl
    &&& p.num_components() == 0
    &&& p.explicit_layout() is None
    &&& p.sub_type() matches Some(u) && T::describes(u)
}

/// Whether `after` is `before` with room for `n` elements of `T` set up:
/// a new local `ptr`, a pointer to `T`, a constant of `n`, room for that
/// many elements allocated on the stack, and its address stored in `ptr`.
pub open spec fn array_allocated<T: Compile>(n: nat, before: UncompiledFunction, after: UncompiledFunction, ptr: Value) -> bool {
    let k = before.values().len() as int;
    let id = before.id();
    &&& after.same_but_values_and_insns(before)
    &&& after.values().len() == k + 3
    &&& forall|j: int| 0 <= j < k ==> #[trigger] after.values()[j] == before.values()[j]
    &&& after.values()[k].origin == ValueOrigin::Local
    &&& !after.values()[k].addressable
    &&& after.values()[k + 1].origin == ValueOrigin::Constant(n as u64)
    &&& !after.values()[k + 1].addressable
    &&& after.values()[k + 1].ty matches Some(c) && c.is_plain(KIND_NUINT)
    &&& after.values()[k + 2] == (ValueInfo { ty: None, origin: ValueOrigin::Result, addressable: false })
    &&& ptr == value_at(id, k)
    &&& after.values()[k].ty matches Some(p) && describes_elem_pointer::<T>(p)
    &&& after.insns() == before.insns().push(
        Insn::AllocaArray(value_at(id, k + 1), after.values()[k].ty.unwrap().sub_type().unwrap(), value_at(id, k + 2)),
    ).push(Insn::Store(ptr, value_at(id, k + 2)))
}

/// Whether `after` is `before` with the elements `elems` compiled in turn,
/// each stored right after it at the offset of its index, in bytes, from
/// `ptr`.
pub open spec fn elems_stored<T: Compile>(elems: Seq<T>, ptr: Value, before: UncompiledFunction, after: UncompiledFunction) -> bool
    decreases elems.len(),
{
    if elems.len() == 0 {
        after == before
    } else {
        exists|m: UncompiledFunction, s: UncompiledFunction, e: Value|
            #![trigger elems.last().compiled(m, s, e)]
            {
                &&& elems_stored(elems.drop_last(), ptr, before, m)
                &&& elems.last().compiled(m, s, e)
                &&& after.recorded(s, Insn::StoreRelative(ptr, (elems.len() - 1) as usize, e))
            }
    }
}

/// Whether `after` is `before` with the header `r` of a vector of `n`
/// elements at `ptr` filled: a new local of a vector descriptor, a constant
/// of `n` stored in the fields `len` and `cap`, and `ptr` stored in the
/// field `ptr`.
pub open spec fn vec_header<T: Compile>(n: nat, ptr: Value, before: UncompiledFunction, after: UncompiledFunction, r: Value) -> bool {
    let k = before.values().len() as int;
    let id = before.id();
    let l = value_at(id, k + 1);
    &&& after.same_but_values_and_insns(before)
    &&& after.values().len() == k + 2
    &&& forall|j: int| 0 <= j < k ==> #[trigger] after.values()[j] == before.values()[j]
    &&& after.values()[k].origin == ValueOrigin::Local
    &&& !after.values()[k].addressable
    &&& after.values()[k].ty matches Some(t) && describes_vec::<T>(t)
    &&& after.values()[k + 1].origin == ValueOrigin::Constant(n as u64)
    &&& !after.values()[k + 1].addressable
    &&& after.values()[k + 1].ty matches Some(c) && c.is_plain(KIND_NUINT)
    &&& r == value_at(id, k)
    &&& after.insns() == before.insns().push(Insn::StoreField(r, 0, l)).push(Insn::StoreField(r, 1, l)).push(
        Insn::StoreField(r, 2, ptr),
    )
}

impl<T: Compile> Compile for Vec<T> {
    open spec fn describes(t: Type) -> bool {
        describes_vec::<T>(t)
    }

    open spec fn compiled(&self, before: UncompiledFunction, after: UncompiledFunction, r: Value) -> bool {
        exists|s: UncompiledFunction, m: UncompiledFunction, ptr: Value|
            #![trigger elems_stored(self@, ptr, s, m)]
            {
                &&& array_allocated::<T>(self@.len(), before, s, ptr)
                &&& elems_stored(self@, ptr, s, m)
                &&& vec_header::<T>(self@.len(), ptr, m, after, r)
            }
    }

    fn get_type() -> (r: Type) {
        let elem_t = T::get_type();
        let ptr_t = Type::new_pointer(&elem_t);
        let len_t = typecs::get_nuint();
        let cap_t = typecs::get_nuint();
        let mut ty = Type::new_struct(&mut [&len_t, &cap_t, &ptr_t]);
        let ghost unnamed = ty;
        let names: [&str; 3] = ["len", "cap", "ptr"];
        proof {
            reveal_strlit("len");
            reveal_strlit("cap");
            reveal_strlit("ptr");
            assert(names@ == seq!["len", "cap", "ptr"]);
            assert(!"len"@.contains('\0'));
            assert(!"cap"@.contains('\0'));
            assert(!"ptr"@.contains('\0'));
        }
        ty.set_names(&names);
        proof {
            assert(ty.component_type(0) == unnamed.component_type(0));
            assert(ty.component_type(1) == unnamed.component_type(1));
            assert(ty.component_type(2) == unnamed.component_type(2));
        }
        ty
    }

    fn compile(&self, func: &mut UncompiledFunction) -> (r: Value) {
        let ghost before = *func;
        let ghost k = before.values().len() as int;
        let ghost id = before.id();
        let elem_t = T::get_type();
        let ptr_t = Type::new_pointer(&elem_t);
        let ptr = Value::new(func, &ptr_t);
        let ghost a1 = *func;
        let n = self.len();
        let count = n.compile(func);
        let ghost a2 = *func;
        let mem = func.insn_alloca_array(count, &elem_t);
        let ghost a3 = *func;
        func.insn_store(ptr, mem);
        let ghost s = *func;
        proof {
            lemma_value_at(ptr, id, k);
            lemma_value_at(count, id, k + 1);
            lemma_value_at(mem, id, k + 2);
            assert(array_allocated::<T>(self@.len(), before, s, ptr));
            lemma_added_value_extends(before, a1, ptr);
            lemma_recorded_extends(a2, a3);
            lemma_recorded_extends(a3, s);
            lemma_extends_trans(before, a1, a2);
            lemma_extends_trans(before, a2, a3);
            lemma_extends_trans(before, a3, s);
            assert(s.insns().take(s.insns().len() as int) =~= s.insns());
        }
        let mut i: usize = 0;
        while i < n
            invariant
                n == self@.len(),
                i <= n,
                func.wf(),
                func.extends(s),
                s.extends(before),
                func.id() == id,
                s.id() == id,
                func.holds(ptr),
                elems_stored(self@.take(i as int), ptr, s, *func),
            decreases n - i,
        {
            let ghost m = *func;
            let e = self[i].compile(func);
            let ghost sm = *func;
            func.insn_store_relative(ptr, i, e);
            proof {
                let el = self@.take(i as int + 1);
                assert(el.drop_last() =~= self@.take(i as int));
                assert(el.last() == self@[i as int]);
                assert(el.last().compiled(m, sm, e));
                assert(elems_stored(el, ptr, s, *func));
                lemma_recorded_extends(sm, *func);
                lemma_extends_trans(m, sm, *func);
                lemma_extends_trans(s, m, *func);
            }
            i = i + 1;
        }
        proof {
            assert(self@.take(n as int) =~= self@);
        }
        let ghost mm = *func;
        let ghost k2 = mm.values().len() as int;
        let ty = Self::get_type();
        let vec = Value::new(func, &ty);
        let ghost b1 = *func;
        let length = n.compile(func);
        let ghost b2 = *func;
        func.insn_store_field(vec, 0, length);
        let ghost b3 = *func;
        func.insn_store_field(vec, 1, length);
        let ghost b4 = *func;
        func.insn_store_field(vec, 2, ptr);
        proof {
            lemma_value_at(vec, id, k2);
            lemma_value_at(length, id, k2 + 1);
            assert(vec_header::<T>(self@.len(), ptr, mm, *func, vec));
            assert(elems_stored(self@, ptr, s, mm));
            lemma_added_value_extends(mm, b1, vec);
            lemma_recorded_extends(b2, b3);
            lemma_recorded_extends(b3, b4);
            lemma_recorded_extends(b4, *func);
            lemma_extends_trans(before, s, mm);
            lemma_extends_trans(before, mm, b1);
            lemma_extends_trans(before, b1, b2);
            lemma_extends_trans(before, b2, b3);
            lemma_extends_trans(before, b3, b4);
            lemma_extends_trans(before, b4, *func);
        }
        vec
    }
}

/// Get the type descriptor that represents `T`
pub fn get<T: Compile>() -> (r: Type)
    ensures
        T::describes(r),
{
    T::get_type()
}

/// The descriptor a primitive Rust type compiles with has the kind of the
/// same name: `i64` has kind `Long`, `u64` has kind `ULong`, and so on; the
/// `bool` and `char` descriptors are tagged types whose kind holds the
/// system `bool` and `char` kinds.
pub proof fn lemma_primitive_kinds(t: Type)
    ensures
        <() as Compile>::describes(t) ==> t.kind_code() == TypeKind::Void.code(),
        <i8 as Compile>::describes(t) ==> t.kind_code() == TypeKind::SByte.code(),
        <u8 as Compile>::describes(t) ==> t.kind_code() == TypeKind::UByte.code(),
        <i16 as Compile>::describes(t) ==> t.kind_code() == TypeKind::Short.code(),
        <u16 as Compile>::describes(t) ==> t.kind_code() == TypeKind::UShort.code(),
        <i32 as Compile>::describes(t) ==> t.kind_code() == TypeKind::Int.code(),
        <u32 as Compile>::describes(t) ==> t.kind_code() == TypeKind::UInt.code(),
        <i64 as Compile>::describes(t) ==> t.kind_code() == TypeKind::Long.code(),
        <u64 as Compile>::describes(t) ==> t.kind_code() == TypeKind::ULong.code(),
        <isize as Compile>::describes(t) ==> t.kind_code() == TypeKind::NInt.code(),
        <usize as Compile>::describes(t) ==> t.kind_code() == TypeKind::NUInt.code(),
        <bool as Compile>::describes(t) ==> bits_contain(t.kind_code(), TypeKind::SysBool.code()),
        <char as Compile>::describes(t) ==> bits_contain(t.kind_code(), TypeKind::SysChar.code()),
{
    assert(10041i32 & 10009i32 == 10009i32) by (bit_vector);
    assert(10042i32 & 10010i32 == 10010i32) by (bit_vector);
}

/// Compiling a pair makes a new local of the pair's descriptor,
/// compiles the elements in order, and then stores each element in the
/// field of the same index: element `i` goes to field `i`.
pub proof fn lemma_pair_fields<A: Compile, B: Compile>(x: (A, B), before: UncompiledFunction, after: UncompiledFunction, r: Value)
    requires
        x.compiled(before, after, r),
    ensures
        exists|m0: UncompiledFunction, m1: UncompiledFunction, m2: UncompiledFunction, e0: Value, e1: Value|
            #![trigger x.0.compiled(m0, m1, e0), x.1.compiled(m1, m2, e1)]
            {
                &&& m0.added_value_of(before, r, ValueOrigin::Local)
                &&& m0.values()[r.position() as int].ty matches Some(t) && <(A, B) as Compile>::describes(t)
                &&& x.0.compiled(m0, m1, e0)
                &&& x.1.compiled(m1, m2, e1)
                &&& after.same_but_values_and_insns(m2)
                &&& after.values() == m2.values()
                &&& after.insns() == m2.insns() + seq![Insn::StoreField(r, 0, e0), Insn::StoreField(r, 1, e1)]
            },
{
    let (m0, m1, m2, s1, e0, e1) = choose|m0: UncompiledFunction, m1: UncompiledFunction, m2: UncompiledFunction, s1: UncompiledFunction, e0: Value, e1: Value|
        m0.added_value_of(before, r, ValueOrigin::Local) && (m0.values()[r.position() as int].ty matches Some(t) && <(A, B) as Compile>::describes(t)) && x.0.compiled(m0, m1, e0) && x.1.compiled(m1, m2, e1) && s1.recorded(m2, Insn::StoreField(r, 0, e0)) && after.recorded(s1, Insn::StoreField(r, 1, e1));
    assert(after.insns() =~= m2.insns() + seq![Insn::StoreField(r, 0, e0), Insn::StoreField(r, 1, e1)]);
}

/// Compiling a triple makes a new local of the triple's descriptor,
/// compiles the elements in order, and then stores each element in the
/// field of the same index: element `i` goes to field `i`.
pub proof fn lemma_triple_fields<A: Compile, B: Compile, C: Compile>(x: (A, B, C), before: UncompiledFunction, after: UncompiledFunction, r: Value)
    requires
        x.compiled(before, after, r),
    ensures
        exists|m0: UncompiledFunction, m1: UncompiledFunction, m2: UncompiledFunction, m3: UncompiledFunction, e0: Value, e1: Value, e2: Value|
            #![trigger x.0.compiled(m0, m1, e0), x.1.compiled(m1, m2, e1), x.2.compiled(m2, m3, e2)]
            {
                &&& m0.added_value_of(before, r, ValueOrigin::Local)
                &&& m0.values()[r.position() as int].ty matches Some(t) && <(A, B, C) as Compile>::describes(t)
                &&& x.0.compiled(m0, m1, e0)
                &&& x.1.compiled(m1, m2, e1)
                &&& x.2.compiled(m2, m3, e2)
                &&& after.same_but_values_and_insns(m3)
                &&& after.values() == m3.values()
                &&& after.insns() == m3.insns() + seq![Insn::StoreField(r, 0, e0), Insn::StoreField(r, 1, e1), Insn::StoreField(r, 2, e2)]
            },
{
    let (m0, m1, m2, m3, s1, s2, e0, e1, e2) = choose|m0: UncompiledFunction, m1: UncompiledFunction, m2: UncompiledFunction, m3: UncompiledFunction, s1: UncompiledFunction, s2: UncompiledFunction, e0: Value, e1: Value, e2: Value|
        m0.added_value_of(before, r, ValueOrigin::Local) && (m0.values()[r.position() as int].ty matches Some(t) && <(A, B, C) as Compile>::describes(t)) && x.0.compiled(m0, m1, e0) && x.1.compiled(m1, m2, e1) && x.2.compiled(m2, m3, e2) && s1.recorded(m3, Insn::StoreField(r, 0, e0)) && s2.recorded(s1, Insn::StoreField(r, 1, e1)) && after.recorded(s2, Insn::StoreField(r, 2, e2));
    assert(after.insns() =~= m3.insns() + seq![Insn::StoreField(r, 0, e0), Insn::StoreField(r, 1, e1), Insn::StoreField(r, 2, e2)]);
}

/// Compiling a quadruple makes a new local of the quadruple's descriptor,
/// compiles the elements in order, and then stores each element in the
/// field of the same index: element `i` goes to field `i`.
pub proof fn lemma_quadruple_fields<A: Compile, B: Compile, C: Compile, D: Compile>(x: (A, B, C, D), before: UncompiledFunction, after: UncompiledFunction, r: Value)
    requires
        x.compiled(before, after, r),
    ensures
        exists|m0: UncompiledFunction, m1: UncompiledFunction, m2: UncompiledFunction, m3: UncompiledFunction, m4: UncompiledFunction, e0: Value, e1: Value, e2: Value, e3: Value|
            #![trigger x.0.compiled(m0, m1, e0), x.1.compiled(m1, m2, e1), x.2.compiled(m2, m3, e2), x.3.compiled(m3, m4, e3)]
            {
                &&& m0.added_value_of(before, r, ValueOrigin::Local)
                &&& m0.values()[r.position() as int].ty matches Some(t) && <(A, B, C, D) as Compile>::describes(t)
                &&& x.0.compiled(m0, m1, e0)
                &&& x.1.compiled(m1, m2, e1)
                &&& x.2.compiled(m2, m3, e2)
                &&& x.3.compiled(m3, m4, e3)
                &&& after.same_but_values_and_insns(m4)
                &&& after.values() == m4.values()
                &&& after.insns() == m4.insns() + seq![Insn::StoreField(r, 0, e0), Insn::StoreField(r, 1, e1), Insn::StoreField(r, 2, e2), Insn::StoreField(r, 3, e3)]
            },
{
    let (m0, m1, m2, m3, m4, s1, s2, s3, e0, e1, e2, e3) = choose|m0: UncompiledFunction, m1: UncompiledFunction, m2: UncompiledFunction, m3: UncompiledFunction, m4: UncompiledFunction, s1: UncompiledFunction, s2: UncompiledFunction, s3: UncompiledFunction, e0: Value, e1: Value, e2: Value, e3: Value|
        m0.added_value_of(before, r, ValueOrigin::Local) && (m0.values()[r.position() as int].ty matches Some(t) && <(A, B, C, D) as Compile>::describes(t)) && x.0.compiled(m0, m1, e0) && x.1.compiled(m1, m2, e1) && x.2.compiled(m2, m3, e2) && x.3.compiled(m3, m4, e3) && s1.recorded(m4, Insn::StoreField(r, 0, e0)) && s2.recorded(s1, Insn::StoreField(r, 1, e1)) && s3.recorded(s2, Insn::StoreField(r, 2, e2)) && after.recorded(s3, Insn::StoreField(r, 3, e3));
    assert(after.insns() =~= m4.insns() + seq![Insn::StoreField(r, 0, e0), Insn::StoreField(r, 1, e1), Insn::StoreField(r, 2, e2), Insn::StoreField(r, 3, e3)]);
}

/// Compiling a quintuple makes a new local of the quintuple's descriptor,
/// compiles the elements in order, and then stores each element in the
/// field of the same index: element `i` goes to field `i`.
pub proof fn lemma_quintuple_fields<A: Compile, B: Compile, C: Compile, D: Compile, E: Compile>(x: (A, B, C, D, E), before: UncompiledFunction, after: UncompiledFunction, r: Value)
    requires
        x.compiled(before, after, r),
    ensures
        exists|m0: UncompiledFunction, m1: UncompiledFunction, m2: UncompiledFunction, m3: UncompiledFunction, m4: UncompiledFunction, m5: UncompiledFunction, e0: Value, e1: Value, e2: Value, e3: Value, e4: Value|
            #![trigger x.0.compiled(m0, m1, e0), x.1.compiled(m1, m2, e1), x.2.compiled(m2, m3, e2), x.3.compiled(m3, m4, e3), x.4.compiled(m4, m5, e4)]
            {
                &&& m0.added_value_of(before, r, ValueOrigin::Local)
                &&& m0.values()[r.position() as int].ty matches Some(t) && <(A, B, C, D, E) as Compile>::describes(t)
                &&& x.0.compiled(m0, m1, e0)
                &&& x.1.compiled(m1, m2, e1)
                &&& x.2.compiled(m2, m3, e2)
                &&& x.3.compiled(m3, m4, e3)
                &&& x.4.compiled(m4, m5, e4)
                &&& after.same_but_values_and_insns(m5)
                &&& after.values() == m5.values()
                &&& after.insns() == m5.insns() + seq![Insn::StoreField(r, 0, e0), Insn::StoreField(r, 1, e1), Insn::StoreField(r, 2, e2), Insn::StoreField(r, 3, e3), Insn::StoreField(r, 4, e4)]
            },
{
    let (m0, m1, m2, m3, m4, m5, s1, s2, s3, s4, e0, e1, e2, e3, e4) = choose|m0: UncompiledFunction, m1: UncompiledFunction, m2: UncompiledFunction, m3: UncompiledFunction, m4: UncompiledFunction, m5: UncompiledFunction, s1: UncompiledFunction, s2: UncompiledFunction, s3: UncompiledFunction, s4: UncompiledFunction, e0: Value, e1: Value, e2: Value, e3: Value, e4: Value|
        m0.added_value_of(before, r, ValueOrigin::Local) && (m0.values()[r.position() as int].ty matches Some(t) && <(A, B, C, D, E) as Compile>::describes(t)) && x.0.compiled(m0, m1, e0) && x.1.compiled(m1, m2, e1) && x.2.compiled(m2, m3, e2) && x.3.compiled(m3, m4, e3) && x.4.compiled(m4, m5, e4) && s1.recorded(m5, Insn::StoreField(r, 0, e0)) && s2.recorded(s1, Insn::StoreField(r, 1, e1)) && s3.recorded(s2, Insn::StoreField(r, 2, e2)) && s4.recorded(s3, Insn::StoreField(r, 3, e3)) && after.recorded(s4, Insn::StoreField(r, 4, e4));
    assert(after.insns() =~= m5.insns() + seq![Insn::StoreField(r, 0, e0), Insn::StoreField(r, 1, e1), Insn::StoreField(r, 2, e2), Insn::StoreField(r, 3, e3), Insn::StoreField(r, 4, e4)]);
}

} // verus!
