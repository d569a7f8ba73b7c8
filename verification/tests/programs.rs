use jit::compile::get;
use jit::context::Context;
use jit::flags::CallFlags;
use jit::function::{BinaryOp, Insn, UnaryOp, UncompiledFunction};
use jit::typecs;
use jit::types::{Abi, Type};

#[test]
fn test_gcd() {
    let mut ctx = Context::<()>::new();
    let u = get::<usize>();
    let sig = Type::new_signature(Abi::CDecl, &u, &mut [&u, &u]);
    let mut func = UncompiledFunction::new(&mut ctx, &sig);
    let x = func.get_param(0);
    let y = func.get_param(1);
    let me = func.as_callee();
    let eq = func.insn_eq(x, y);
    func.insn_if(eq, |f: &mut UncompiledFunction| f.insn_return(x));
    let lt = func.insn_lt(x, y);
    func.insn_if(lt, |f: &mut UncompiledFunction| {
        let d = f.insn_sub(y, x);
        let mut args = [x, d];
        let v = f.insn_call(Some("gcd"), &me, None, &mut args, CallFlags::NO_THROW());
        f.insn_return(v);
    });
    let d = func.insn_sub(x, y);
    let mut args = [d, y];
    let temp4 = func.insn_call(Some("gcd"), &me, None, &mut args, CallFlags::NO_THROW());
    func.insn_return(temp4);
    let insns = func.get_insns();
    assert_eq!(insns.len(), 13);
    assert!(matches!(insns[0], Insn::Binary(BinaryOp::Eq, a, b, _) if a == x && b == y));
    assert!(matches!(insns[1], Insn::BranchIfNot(_, 0)));
    assert!(matches!(insns[2], Insn::Return(v) if v == x));
    assert!(matches!(insns[3], Insn::Label(0)));
    assert!(matches!(insns[4], Insn::Binary(BinaryOp::Lt, a, b, _) if a == x && b == y));
    assert!(matches!(insns[5], Insn::BranchIfNot(_, 1)));
    assert!(matches!(insns[6], Insn::Binary(BinaryOp::Sub, a, b, _) if a == y && b == x));
    match &insns[7] {
        Insn::Call(Some(name), callee, None, a, flags, _) => {
            assert_eq!(name, "gcd");
            assert_eq!(*callee, 0);
            assert_eq!(a.len(), 2);
            assert!(a[0] == x);
            assert_eq!(flags.bits(), 1);
        }
        _ => panic!("not a call of gcd"),
    }
    assert!(matches!(insns[8], Insn::Return(_)));
    assert!(matches!(insns[9], Insn::Label(1)));
    assert!(matches!(insns[10], Insn::Binary(BinaryOp::Sub, a, b, _) if a == x && b == y));
    assert!(matches!(&insns[11], Insn::Call(_, 0, _, a, _, _) if a[1] == y));
    assert!(matches!(insns[12], Insn::Return(v) if v == temp4));
}

#[test]
fn test_sqrt() {
    let mut ctx = Context::<()>::new();
    assert_eq!(ctx.functions().size_hint().0, 0);
    let u = get::<usize>();
    let sig = Type::new_signature(Abi::CDecl, &u, &mut [&u]);
    let mut func = UncompiledFunction::new(&mut ctx, &sig);
    let arg = func.get_param(0);
    assert!(arg.get_type(&func).unwrap() == &get::<usize>());
    let sqrt_arg = func.insn_sqrt(arg);
    let sqrt_arg_ui = func.insn_convert(sqrt_arg, &get::<usize>(), false);
    func.insn_return(sqrt_arg_ui);
    let compiled = func.compile();
    let insns = compiled.get_insns();
    assert_eq!(insns.len(), 3);
    assert!(matches!(insns[0], Insn::Unary(UnaryOp::Sqrt, a, d) if a == arg && d == sqrt_arg));
    assert!(matches!(&insns[1], Insn::Convert(a, t, false, d) if *a == sqrt_arg && *t == get::<usize>() && *d == sqrt_arg_ui));
    assert!(matches!(insns[2], Insn::Return(v) if v == sqrt_arg_ui));
    assert_eq!(ctx.functions().size_hint().0, 1);
}

#[test]
fn test_alt_sqrt() {
    let mut ctx = Context::<()>::new();
    assert_eq!(ctx.functions().size_hint().0, 0);
    let f = typecs::get_float32();
    let sig = Type::new_signature(Abi::CDecl, &f, &mut [&f]);
    let mut func = UncompiledFunction::new(&mut ctx, &sig);
    let num = func.get_param(0);
    let root = func.insn_sqrt(num);
    func.insn_return(root);
    let insns = func.get_insns();
    assert!(matches!(insns[0], Insn::Unary(UnaryOp::Sqrt, a, _) if a == num));
    assert!(matches!(insns[1], Insn::Return(v) if v == root));
    assert!(num.get_type(&func).unwrap() == &typecs::get_float32());
    assert_eq!(ctx.functions().size_hint().0, 1);
}
