use jit::compile::{get, Compile};
use jit::context::Context;
use jit::function::{Insn, UnaryOp, UncompiledFunction, ValueOrigin};
use jit::typecs;
use jit::types::{Abi, Type, TypeKind};

fn with_empty_func<F: FnOnce(&mut UncompiledFunction)>(cb: F) {
    let mut ctx = Context::<()>::new();
    let void = get::<()>();
    let sig = Type::new_signature(Abi::CDecl, &void, &mut []);
    let mut func = UncompiledFunction::new(&mut ctx, &sig);
    cb(&mut func)
}

fn test_compile<T: Compile + Default>(kind: TypeKind) {
    with_empty_func(|func| {
        let pval: T = Default::default();
        let val = pval.compile(func);
        assert!(val.get_type(func).unwrap().get_kind().contains(kind.flags()));
    })
}

fn test_compile_f64_kind() {
    with_empty_func(|func| {
        let pval: f64 = Default::default();
        let val = func.insn_of_float64_bits(pval.to_bits());
        assert!(val.get_type(func).unwrap().get_kind().contains(TypeKind::Float64.flags()));
    })
}

fn test_compile_f32_kind() {
    with_empty_func(|func| {
        let pval: f32 = Default::default();
        let val = func.insn_of_float32_bits(pval.to_bits());
        assert!(val.get_type(func).unwrap().get_kind().contains(TypeKind::Float32.flags()));
    })
}

#[test]
fn test_compile_unit() {
    test_compile::<()>(TypeKind::Void)
}

#[test]
fn test_compile_f64() {
    test_compile_f64_kind()
}

#[test]
fn test_compile_f32() {
    test_compile_f32_kind()
}

#[test]
fn test_compile_int() {
    test_compile::<isize>(TypeKind::NInt)
}

#[test]
fn test_compile_uint() {
    test_compile::<usize>(TypeKind::NUInt)
}

#[test]
fn test_compile_i32() {
    test_compile::<i32>(TypeKind::Int)
}

#[test]
fn test_compile_u32() {
    test_compile::<u32>(TypeKind::UInt)
}

#[test]
fn test_compile_i16() {
    test_compile::<i16>(TypeKind::Short)
}

#[test]
fn test_compile_u16() {
    test_compile::<u16>(TypeKind::UShort)
}

#[test]
fn test_compile_i8() {
    test_compile::<i8>(TypeKind::SByte)
}

#[test]
fn test_compile_u8() {
    test_compile::<u8>(TypeKind::UByte)
}

#[test]
fn test_compile_bool() {
    test_compile::<bool>(TypeKind::SysBool)
}

#[test]
fn test_compile_char() {
    test_compile::<char>(TypeKind::SysChar)
}

#[test]
fn test_compiles() {
    test_compile::<()>(TypeKind::Void);
    test_compile_f64_kind();
    test_compile_f32_kind();
    test_compile::<isize>(TypeKind::NInt);
    test_compile::<usize>(TypeKind::NUInt);
    test_compile::<i32>(TypeKind::Int);
    test_compile::<u32>(TypeKind::UInt);
    test_compile::<i16>(TypeKind::Short);
    test_compile::<u16>(TypeKind::UShort);
    test_compile::<i8>(TypeKind::SByte);
    test_compile::<u8>(TypeKind::UByte);
    test_compile::<bool>(TypeKind::SysBool);
    test_compile::<char>(TypeKind::SysChar);
}

#[test]
fn compiled_constants_keep_their_bits() {
    with_empty_func(|func| {
        let a = func.insn_of(&-1i8);
        let b = func.insn_of(&true);
        let c = func.insn_of(&'A');
        let d = func.insn_of(&300u16);
        let e = func.insn_of(&());
        let f = func.insn_of(&-2i64);
        let infos = func.get_values();
        assert_eq!(infos[a.index()].origin, ValueOrigin::Constant(u64::MAX));
        assert_eq!(infos[b.index()].origin, ValueOrigin::Constant(1));
        assert_eq!(infos[c.index()].origin, ValueOrigin::Constant(65));
        assert_eq!(infos[d.index()].origin, ValueOrigin::Constant(300));
        assert_eq!(infos[e.index()].origin, ValueOrigin::Local);
        assert_eq!(infos[f.index()].origin, ValueOrigin::Constant(u64::MAX - 1));
        assert_eq!(a.index(), 0);
        assert_eq!(f.index(), 5);
    })
}

#[test]
fn compiled_types_name_their_rust_types() {
    assert_eq!(get::<i8>().describe(), "i8");
    assert_eq!(get::<u8>().describe(), "u8");
    assert_eq!(get::<i16>().describe(), "i16");
    assert_eq!(get::<u16>().describe(), "u16");
    assert_eq!(get::<i32>().describe(), "i32");
    assert_eq!(get::<u32>().describe(), "u32");
    assert_eq!(get::<i64>().describe(), "i64");
    assert_eq!(get::<u64>().describe(), "u64");
    assert_eq!(get::<isize>().describe(), "isize");
    assert_eq!(get::<usize>().describe(), "usize");
    assert_eq!(get::<bool>().describe(), "bool");
    assert_eq!(get::<char>().describe(), "char");
    assert_eq!(get::<()>().describe(), "()");
    assert_eq!(typecs::get_float64().describe(), "f64");
    assert_eq!(typecs::get_float32().describe(), "f32");
    assert_eq!(typecs::get_nfloat().describe(), "float");
}

#[test]
fn the_bool_type_is_tagged_over_a_byte() {
    let t = get::<bool>();
    assert_eq!(t.get_kind().bits(), 32 + 10009);
    assert!(t.is_tagged());
    assert!(!t.is_primitive());
    let c = get::<char>();
    assert_eq!(c.get_kind().bits(), 32 + 10010);
}

#[test]
fn tuples_store_their_elements_in_their_fields() {
    with_empty_func(|func| {
        let t = func.insn_of(&(7i32, true));
        let values = func.get_values();
        assert_eq!(t.index(), 0);
        assert_eq!(values[0].origin, ValueOrigin::Local);
        assert_eq!(values[1].origin, ValueOrigin::Constant(7));
        assert_eq!(values[2].origin, ValueOrigin::Constant(1));
        let ty = values[0].ty.as_ref().unwrap();
        assert!(ty.is_struct());
        assert_eq!(ty.describe(), "(i32, bool)");
        let insns = func.get_insns();
        assert_eq!(insns.len(), 2);
        assert!(matches!(insns[0], Insn::StoreField(d, 0, e) if d == t && e.index() == 1));
        assert!(matches!(insns[1], Insn::StoreField(d, 1, e) if d == t && e.index() == 2));
    });
    assert_eq!(get::<(u8, i64, char)>().describe(), "(u8, i64, char)");
    assert_eq!(get::<(u8, u8, u8, u8, u8)>().fields().size_hint().0, 5);
}

#[test]
fn strings_are_built_on_the_stack() {
    with_empty_func(|func| {
        let s = func.insn_of(&"hi");
        assert_eq!(s.index(), 5);
        let values = func.get_values();
        assert_eq!(values.len(), 7);
        assert_eq!(values[0].origin, ValueOrigin::Local);
        assert!(values[0].ty.as_ref().unwrap().is_pointer());
        assert_eq!(values[1].origin, ValueOrigin::Constant(2));
        assert_eq!(values[2].origin, ValueOrigin::Result);
        assert_eq!(values[3].origin, ValueOrigin::Constant(104));
        assert_eq!(values[4].origin, ValueOrigin::Constant(105));
        assert_eq!(values[5].origin, ValueOrigin::Local);
        assert_eq!(values[6].origin, ValueOrigin::Constant(2));
        let header = values[5].ty.as_ref().unwrap();
        assert_eq!(header.get_field("ptr").index, 0);
        assert_eq!(header.get_field("len").index, 1);
        let insns = func.get_insns();
        assert_eq!(insns.len(), 6);
        assert!(matches!(insns[0], Insn::Unary(UnaryOp::Alloca, a, d) if a.index() == 1 && d.index() == 2));
        assert!(matches!(insns[1], Insn::Store(d, v) if d.index() == 0 && v.index() == 2));
        assert!(matches!(insns[2], Insn::StoreRelative(d, 0, c) if d.index() == 0 && c.index() == 3));
        assert!(matches!(insns[3], Insn::StoreRelative(d, 1, c) if d.index() == 0 && c.index() == 4));
        assert!(matches!(insns[4], Insn::StoreRelative(d, 0, p) if d == s && p.index() == 0));
        assert!(matches!(insns[5], Insn::StoreField(d, 1, l) if d == s && l.index() == 6));
    });
    with_empty_func(|func| {
        let owned = String::from("a");
        let s = func.insn_of(&owned);
        assert_eq!(s.index(), 4);
        let values = func.get_values();
        assert_eq!(values.len(), 6);
        assert_eq!(values[3].origin, ValueOrigin::Constant(97));
        assert_eq!(values[5].origin, ValueOrigin::Constant(1));
        let header = values[4].ty.as_ref().unwrap();
        assert_eq!(header.get_field("len").index, 0);
        assert_eq!(header.get_field("cap").index, 1);
        assert_eq!(header.get_field("ptr").index, 2);
        let insns = func.get_insns();
        assert_eq!(insns.len(), 6);
        assert!(matches!(insns[3], Insn::StoreRelative(d, 0, l) if d == s && l.index() == 5));
        assert!(matches!(insns[4], Insn::StoreField(d, 1, l) if d == s && l.index() == 5));
        assert!(matches!(insns[5], Insn::StoreField(d, 2, p) if d == s && p.index() == 0));
    });
}

#[test]
fn vectors_store_their_elements_then_their_header() {
    with_empty_func(|func| {
        let v = func.insn_of(&vec![5u16, 9u16]);
        let values = func.get_values();
        assert_eq!(values.len(), 7);
        assert_eq!(values[0].origin, ValueOrigin::Local);
        assert!(values[0].ty.as_ref().unwrap().is_pointer());
        assert_eq!(values[1].origin, ValueOrigin::Constant(2));
        assert_eq!(values[2].origin, ValueOrigin::Result);
        assert_eq!(values[3].origin, ValueOrigin::Constant(5));
        assert_eq!(values[4].origin, ValueOrigin::Constant(9));
        assert_eq!(v.index(), 5);
        assert_eq!(values[5].origin, ValueOrigin::Local);
        assert_eq!(values[6].origin, ValueOrigin::Constant(2));
        let insns = func.get_insns();
        assert_eq!(insns.len(), 7);
        assert!(matches!(&insns[0], Insn::AllocaArray(c, t, d) if c.index() == 1 && d.index() == 2 && t.get_kind().contains(TypeKind::UShort.flags())));
        assert!(matches!(insns[1], Insn::Store(p, m) if p.index() == 0 && m.index() == 2));
        assert!(matches!(insns[2], Insn::StoreRelative(p, 0, e) if p.index() == 0 && e.index() == 3));
        assert!(matches!(insns[3], Insn::StoreRelative(p, 1, e) if p.index() == 0 && e.index() == 4));
        assert!(matches!(insns[4], Insn::StoreField(d, 0, l) if d == v && l.index() == 6));
        assert!(matches!(insns[5], Insn::StoreField(d, 1, l) if d == v && l.index() == 6));
        assert!(matches!(insns[6], Insn::StoreField(d, 2, p) if d == v && p.index() == 0));
    });
    let ty = get::<Vec<u8>>();
    assert!(ty.is_struct());
    assert_eq!(ty.get_field("len").index, 0);
    assert_eq!(ty.get_field("cap").index, 1);
    assert_eq!(ty.get_field("ptr").index, 2);
}

#[test]
fn an_empty_vector_allocates_no_elements() {
    with_empty_func(|func| {
        let empty: Vec<i32> = Vec::new();
        func.insn_of(&empty);
        let values = func.get_values();
        assert_eq!(values[1].origin, ValueOrigin::Constant(0));
        assert_eq!(func.get_insns().len(), 5);
    });
}

#[test]
fn tuples_take_the_layout_of_their_rust_type() {
    let ty = get::<(u8, i64)>();
    assert_eq!(ty.get_explicit_layout(), Some((std::mem::size_of::<(u8, i64)>(), std::mem::align_of::<(u8, i64)>())));
    assert_eq!(get::<u8>().get_explicit_layout(), None);
    let mut p = Type::new_pointer(&get::<u8>());
    p.set_size_and_alignment(4, 4);
    assert_eq!(p.get_explicit_layout(), None);
}
