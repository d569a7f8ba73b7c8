use jit::compile::get;
use jit::context::Context;
use jit::flags::CallFlags;
use jit::function::{
    AnyFunction, BinaryOp, Function, Insn, Label, UncompiledFunction, UnaryOp, Value, ValueOrigin,
    MAX_OPTIMIZATION_LEVEL,
};
use jit::types::{Abi, Type};

fn binary_sig() -> Type {
    let u = get::<usize>();
    Type::new_signature(Abi::CDecl, &u, &mut [&u, &u])
}

#[test]
fn parameters_are_the_first_values() {
    let mut ctx = Context::<()>::new();
    let sig = binary_sig();
    let func = UncompiledFunction::new(&mut ctx, &sig);
    let x = func.get_param(0);
    let y = func.get_param(1);
    assert_eq!(x.index(), 0);
    assert_eq!(y.index(), 1);
    assert_eq!(func.get_values()[1].origin, ValueOrigin::Param(1));
    assert!(x.get_type(&func).unwrap() == &get::<usize>());
    assert!(func.get_insns().is_empty());
    assert_eq!(func.get_id(), 0);
    assert!(!func.is_compiled());
    assert!(func.get_signature() == &sig);
    let other = UncompiledFunction::new(&mut ctx, &sig);
    assert_eq!(other.get_id(), 1);
    assert_eq!(ctx.functions().size_hint().0, 2);
}

#[test]
fn instructions_are_recorded_in_order() {
    let mut ctx = Context::<()>::new();
    let sig = binary_sig();
    let mut func = UncompiledFunction::new(&mut ctx, &sig);
    let x = func.get_param(0);
    let y = func.get_param(1);
    let s = func.insn_add(x, y);
    let n = func.insn_neg(s);
    func.insn_return(n);
    assert_eq!(s.index(), 2);
    assert_eq!(n.index(), 3);
    let insns = func.get_insns();
    assert_eq!(insns.len(), 3);
    assert!(matches!(insns[0], Insn::Binary(BinaryOp::Add, a, b, d) if a == x && b == y && d == s));
    assert!(matches!(insns[1], Insn::Unary(UnaryOp::Neg, a, d) if a == s && d == n));
    assert!(matches!(insns[2], Insn::Return(v) if v == n));
    assert_eq!(func.get_values()[2].origin, ValueOrigin::Result);
    assert!(s.get_type(&func).is_none());
}

#[test]
fn labels_are_numbered_in_order() {
    let mut ctx = Context::<()>::new();
    let sig = binary_sig();
    let mut func = UncompiledFunction::new(&mut ctx, &sig);
    let mut a = Label::new(&mut func);
    let mut b = Label::new(&mut func);
    assert_eq!(a.get_value(), 0);
    assert_eq!(b.get_value(), 1);
    let x = func.get_param(0);
    func.insn_branch_if(x, &mut b);
    func.insn_label(&mut a);
    func.insn_branch(&mut a);
    func.insn_label(&mut b);
    let mut table = [a, b, a];
    func.insn_jump_table(x, &mut table);
    let insns = func.get_insns();
    assert!(matches!(insns[0], Insn::BranchIf(v, 1) if v == x));
    assert!(matches!(insns[1], Insn::Label(0)));
    assert!(matches!(insns[2], Insn::Branch(0)));
    assert!(matches!(insns[3], Insn::Label(1)));
    match &insns[4] {
        Insn::JumpTable(v, targets) => {
            assert!(*v == x);
            assert_eq!(targets, &vec![0u64, 1, 0]);
        }
        _ => panic!("not a jump table"),
    }
    assert_eq!(func.get_label_count(), 2);
}

#[test]
fn if_wraps_its_block_between_a_branch_and_a_label() {
    let mut ctx = Context::<()>::new();
    let sig = binary_sig();
    let mut func = UncompiledFunction::new(&mut ctx, &sig);
    let x = func.get_param(0);
    let y = func.get_param(1);
    let c = func.insn_eq(x, y);
    func.insn_if(c, |f: &mut UncompiledFunction| f.insn_return(x));
    func.insn_if_not(c, |f: &mut UncompiledFunction| f.insn_return(y));
    let insns = func.get_insns();
    assert_eq!(insns.len(), 7);
    assert!(matches!(insns[1], Insn::BranchIfNot(v, 0) if v == c));
    assert!(matches!(insns[2], Insn::Return(v) if v == x));
    assert!(matches!(insns[3], Insn::Label(0)));
    assert!(matches!(insns[4], Insn::BranchIf(v, 1) if v == c));
    assert!(matches!(insns[5], Insn::Return(v) if v == y));
    assert!(matches!(insns[6], Insn::Label(1)));
}

#[test]
fn loops_branch_back_to_their_start() {
    let mut ctx = Context::<()>::new();
    let sig = binary_sig();
    let mut func = UncompiledFunction::new(&mut ctx, &sig);
    let x = func.get_param(0);
    func.insn_while(
        |f: &mut UncompiledFunction| f.insn_not(x),
        |f: &mut UncompiledFunction| f.insn_default_return(),
    );
    {
        let insns = func.get_insns();
        assert_eq!(insns.len(), 6);
        assert!(matches!(insns[0], Insn::Label(0)));
        assert!(matches!(insns[1], Insn::Unary(UnaryOp::Not, _, _)));
        assert!(matches!(insns[2], Insn::BranchIfNot(_, 1)));
        assert!(matches!(insns[3], Insn::DefaultReturn));
        assert!(matches!(insns[4], Insn::Branch(0)));
        assert!(matches!(insns[5], Insn::Label(1)));
    }
    func.insn_loop_while(
        |f: &mut UncompiledFunction| f.insn_dup(x),
        |f: &mut UncompiledFunction| f.insn_uses_catcher(),
    );
    {
        let insns = func.get_insns();
        assert!(matches!(insns[6], Insn::Label(2)));
        assert!(matches!(insns[7], Insn::UsesCatcher));
        assert!(matches!(insns[8], Insn::Unary(UnaryOp::Load, _, _)));
        assert!(matches!(insns[9], Insn::BranchIf(_, 2)));
    }
    func.insn_loop(|f: &mut UncompiledFunction| f.insn_throw(x));
    let insns = func.get_insns();
    assert!(matches!(insns[10], Insn::Label(3)));
    assert!(matches!(insns[11], Insn::Throw(_)));
    assert!(matches!(insns[12], Insn::Branch(3)));
}

#[test]
fn calls_record_their_callee_and_arguments() {
    let mut ctx = Context::<()>::new();
    let sig = binary_sig();
    let mut func = UncompiledFunction::new(&mut ctx, &sig);
    let callee = UncompiledFunction::new(&mut ctx, &sig);
    let x = func.get_param(0);
    let y = func.get_param(1);
    let mut args = [y, x];
    let r = func.insn_call(Some("other"), &callee, None, &mut args, CallFlags::NO_THROW());
    let me = func.as_callee();
    let r2 = func.insn_call(None, &me, Some(&sig), &mut args, CallFlags::TAIL());
    let r3 = func.insn_call_native(Some("puts"), 4096, &sig, &mut args, CallFlags::empty());
    let r4 = func.insn_call_indirect(x, &sig, &mut [], CallFlags::empty());
    assert!(func.insn_memcpy(x, y, r));
    let insns = func.get_insns();
    match &insns[0] {
        Insn::Call(name, id, s, a, flags, d) => {
            assert_eq!(name.as_deref(), Some("other"));
            assert_eq!(*id, 1);
            assert!(s.is_none());
            assert!(a == &vec![y, x]);
            assert_eq!(flags.bits(), 1);
            assert!(*d == r);
        }
        _ => panic!("not a call"),
    }
    match &insns[1] {
        Insn::Call(name, id, s, _, flags, d) => {
            assert!(name.is_none());
            assert_eq!(*id, 0);
            assert!(s.as_ref().unwrap() == &sig);
            assert_eq!(flags.bits(), 4);
            assert!(*d == r2);
        }
        _ => panic!("not a call"),
    }
    assert!(matches!(&insns[2], Insn::CallNative(Some(n), 4096, _, _, _, d) if n == "puts" && *d == r3));
    assert!(matches!(&insns[3], Insn::CallIndirect(f, _, a, _, d) if *f == x && a.is_empty() && *d == r4));
    assert!(matches!(insns[4], Insn::Memcpy(a, b, c) if a == x && b == y && c == r));
}

#[test]
fn settings_are_kept_by_compiling() {
    let mut ctx = Context::<()>::new();
    let sig = binary_sig();
    let mut func = UncompiledFunction::new(&mut ctx, &sig);
    func.set_optimization_level(9);
    func.set_recompilable();
    let x = func.get_param(0);
    let v = Value::new(&mut func, &get::<u8>());
    assert!(!v.is_addressable(&func));
    v.set_addressable(&mut func);
    assert!(v.is_addressable(&func));
    func.insn_store(v, x);
    let c = func.insn_convert(x, &get::<u8>(), true);
    assert!(c.get_type(&func).unwrap() == &get::<u8>());
    func.insn_return(c);
    let compiled = func.compile();
    assert!(compiled.is_compiled());
    assert_eq!(compiled.get_optimization_level(), MAX_OPTIMIZATION_LEVEL);
    assert_eq!(UncompiledFunction::get_max_optimization_level(), 1);
    assert!(compiled.get_recompilable());
    assert_eq!(compiled.get_insns().len(), 3);
    assert_eq!(compiled.get_values().len(), 4);
    assert!(compiled.get_values()[2].addressable);
    let any = AnyFunction::Compiled(compiled);
    assert!(any.is_compiled());
    assert_eq!(any.get_id(), 0);
    assert!(any.into_uncompiled().is_none());
}

#[test]
fn nested_functions_know_their_parent() {
    let mut ctx = Context::<()>::new();
    let sig = binary_sig();
    let outer = UncompiledFunction::new(&mut ctx, &sig);
    let inner = UncompiledFunction::new_nested(&mut ctx, &sig, &outer);
    assert_eq!(inner.get_id(), 1);
    let compiled = inner.compile();
    assert_eq!(compiled.get_parent(), Some(0));
    let any = AnyFunction::Uncompiled(outer);
    assert!(!any.is_compiled());
    assert!(any.into_compiled().is_none());
}

#[test]
fn new_values_start_as_block_temporaries() {
    let mut ctx = Context::<()>::new();
    let sig = binary_sig();
    let mut func = UncompiledFunction::new(&mut ctx, &sig);
    let x = func.get_param(0);
    assert!(x.is_temp(&func));
    let ty = get::<isize>();
    let v = Value::new(&mut func, &ty);
    assert!(v.is_temp(&func));
    let c = func.insn_of(&3isize);
    assert!(!c.is_temp(&func));
    func.insn_store(v, c);
    assert!(v.is_temp(&func));
    let mut l = Label::new(&mut func);
    func.insn_label(&mut l);
    let w = Value::new(&mut func, &ty);
    assert!(w.is_temp(&func));
    func.insn_store(w, c);
    assert!(w.is_temp(&func));
    assert!(v.is_temp(&func));
    func.insn_store(v, w);
    assert!(!v.is_temp(&func));
    assert!(w.is_temp(&func));
    let s = func.insn_add(x, c);
    assert!(!x.is_temp(&func));
    assert!(s.is_temp(&func));
}
