use jit::context::Context;
use jit::derive::{derive_item, DeriveError, DeriveItem, Derived, PackedStores};
use jit::expr::{compile_body, compile_expr, BinOp, ExprError, JitExpr, JitLit, JitStmt};
use jit::function::{BinaryOp, Insn, UnaryOp, UncompiledFunction, ValueOrigin};
use jit::compile::get;
use jit::types::{Abi, Type};

fn binary_func(ctx: &mut Context<()>) -> UncompiledFunction {
    let u = get::<isize>();
    let sig = Type::new_signature(Abi::CDecl, &u, &mut [&u, &u]);
    UncompiledFunction::new(ctx, &sig)
}

#[test]
fn operators_compile_left_to_right() {
    let mut ctx = Context::<()>::new();
    let mut func = binary_func(&mut ctx);
    let env = [func.get_param(0), func.get_param(1)];
    let e = JitExpr::Binary(
        BinOp::Add,
        Box::new(JitExpr::Binary(BinOp::Mul, Box::new(JitExpr::Var(0)), Box::new(JitExpr::Var(1)))),
        Box::new(JitExpr::Lit(JitLit::ISize(1))),
    );
    let r = compile_expr(&mut func, &env, &e).unwrap().unwrap();
    assert_eq!(r.index(), 4);
    let values = func.get_values();
    assert_eq!(values[3].origin, ValueOrigin::Constant(1));
    let insns = func.get_insns();
    assert_eq!(insns.len(), 2);
    assert!(matches!(insns[0], Insn::Binary(BinaryOp::Mul, a, b, d) if a == env[0] && b == env[1] && d.index() == 2));
    assert!(matches!(insns[1], Insn::Binary(BinaryOp::Add, a, b, d) if a.index() == 2 && b.index() == 3 && d == r));
}

#[test]
fn methods_casts_and_unary_forms() {
    let mut ctx = Context::<()>::new();
    let mut func = binary_func(&mut ctx);
    let env = [func.get_param(0)];
    let e = JitExpr::Cast(
        Box::new(JitExpr::Method("sqrt".to_string(), Box::new(JitExpr::Neg(Box::new(JitExpr::Paren(Box::new(JitExpr::Var(0)))))))),
        get::<usize>(),
    );
    let r = compile_expr(&mut func, &env, &e).unwrap().unwrap();
    let insns = func.get_insns();
    assert_eq!(insns.len(), 3);
    assert!(matches!(insns[0], Insn::Unary(UnaryOp::Neg, a, _) if a == env[0]));
    assert!(matches!(insns[1], Insn::Unary(UnaryOp::Sqrt, _, _)));
    assert!(matches!(&insns[2], Insn::Convert(_, t, false, d) if *t == get::<usize>() && *d == r));
    assert!(r.get_type(&func).unwrap() == &get::<usize>());
}

#[test]
fn errors_record_nothing() {
    let mut ctx = Context::<()>::new();
    let mut func = binary_func(&mut ctx);
    let env = [func.get_param(0)];
    let e = JitExpr::Not(Box::new(JitExpr::Var(3)));
    assert!(matches!(compile_expr(&mut func, &env, &e), Err(ExprError::UnboundVariable(3))));
    let m = JitExpr::Method("powi".to_string(), Box::new(JitExpr::Var(0)));
    match compile_expr(&mut func, &env, &m) {
        Err(ExprError::UnsupportedMethod(name)) => assert_eq!(name, "powi"),
        _ => panic!("the method is not a math method"),
    }
    assert!(func.get_insns().is_empty());
    assert_eq!(func.get_values().len(), 2);
}

#[test]
fn derived_compile_stores_at_packed_offsets() {
    let mut ctx = Context::<()>::new();
    let mut func = binary_func(&mut ctx);
    let ty = jit::derive::derive_struct_type(&[get::<u8>(), get::<i32>(), get::<u16>()], &["a", "b", "c"]);
    let mut stores = PackedStores::begin(&mut func, &ty, vec![1, 4, 2]);
    let v = stores.get_local();
    assert_eq!(v.index(), 2);
    let a = func.insn_of(&1u8);
    stores.store_next(&mut func, a);
    let b = func.insn_of(&2i32);
    stores.store_next(&mut func, b);
    let c = func.insn_of(&3u16);
    stores.store_next(&mut func, c);
    assert!(func.holds_value(&v));
    assert!(func.holds_values(&[a, b, c]));
    assert_eq!(func.get_values()[2].origin, ValueOrigin::Local);
    let insns = func.get_insns();
    assert_eq!(insns.len(), 3);
    assert!(matches!(insns[0], Insn::StoreRelative(d, 0, x) if d == v && x == a));
    assert!(matches!(insns[1], Insn::StoreRelative(d, 1, x) if d == v && x == b));
    assert!(matches!(insns[2], Insn::StoreRelative(d, 5, x) if d == v && x == c));
}

#[test]
fn bodies_bind_lets_then_return_the_tail() {
    let mut ctx = Context::<()>::new();
    let mut func = binary_func(&mut ctx);
    let stmts = vec![
        JitStmt::Let(JitExpr::Binary(BinOp::Add, Box::new(JitExpr::Var(0)), Box::new(JitExpr::Var(1)))),
        JitStmt::Expr(JitExpr::Var(2)),
    ];
    let tail = JitExpr::Binary(BinOp::Mul, Box::new(JitExpr::Var(2)), Box::new(JitExpr::Var(0)));
    assert!(compile_body(&mut func, &stmts, Some(&tail)).is_ok());
    let insns = func.get_insns();
    assert_eq!(insns.len(), 3);
    assert!(matches!(insns[0], Insn::Binary(BinaryOp::Add, a, b, d) if a.index() == 0 && b.index() == 1 && d.index() == 2));
    assert!(matches!(insns[1], Insn::Binary(BinaryOp::Mul, a, b, d) if a.index() == 2 && b.index() == 0 && d.index() == 3));
    assert!(matches!(insns[2], Insn::Return(v) if v.index() == 3));
}

#[test]
fn bodies_without_a_tail_return_by_default() {
    let mut ctx = Context::<()>::new();
    let mut func = binary_func(&mut ctx);
    assert!(compile_body(&mut func, &[], None).is_ok());
    let insns = func.get_insns();
    assert_eq!(insns.len(), 1);
    assert!(matches!(insns[0], Insn::DefaultReturn));
}

#[test]
fn body_errors_record_nothing() {
    let mut ctx = Context::<()>::new();
    let mut func = binary_func(&mut ctx);
    let stmts = vec![JitStmt::Expr(JitExpr::Var(0)), JitStmt::Expr(JitExpr::Var(2))];
    assert!(matches!(compile_body(&mut func, &stmts, None), Err(ExprError::UnboundVariable(2))));
    let tail = JitExpr::Var(2);
    assert!(matches!(compile_body(&mut func, &[], Some(&tail)), Err(ExprError::UnboundVariable(2))));
    assert_eq!(func.get_insns().len(), 0);
    assert_eq!(func.get_values().len(), 2);
}

#[test]
fn conditionals_branch_past_their_block() {
    let mut ctx = Context::<()>::new();
    let mut func = binary_func(&mut ctx);
    let env = [func.get_param(0), func.get_param(1)];
    let cond = JitExpr::Binary(BinOp::Lt, Box::new(JitExpr::Var(0)), Box::new(JitExpr::Var(1)));
    let e = JitExpr::If(Box::new(cond), Box::new(JitExpr::Return(Some(Box::new(JitExpr::Var(0))))));
    assert!(compile_expr(&mut func, &env, &e).unwrap().is_none());
    assert_eq!(func.get_label_count(), 1);
    let insns = func.get_insns();
    assert_eq!(insns.len(), 4);
    assert!(matches!(insns[0], Insn::Binary(BinaryOp::Lt, a, b, d) if a == env[0] && b == env[1] && d.index() == 2));
    assert!(matches!(insns[1], Insn::BranchIfNot(c, 0) if c.index() == 2));
    assert!(matches!(insns[2], Insn::Return(v) if v == env[0]));
    assert!(matches!(insns[3], Insn::Label(0)));
}

#[test]
fn if_else_runs_one_block_or_the_other() {
    let mut ctx = Context::<()>::new();
    let mut func = binary_func(&mut ctx);
    let env = [func.get_param(0), func.get_param(1)];
    let e = JitExpr::IfElse(
        Box::new(JitExpr::Var(0)),
        Box::new(JitExpr::Return(Some(Box::new(JitExpr::Var(0))))),
        Box::new(JitExpr::Return(Some(Box::new(JitExpr::Var(1))))),
    );
    assert!(compile_expr(&mut func, &env, &e).unwrap().is_none());
    assert_eq!(func.get_label_count(), 2);
    let insns = func.get_insns();
    assert_eq!(insns.len(), 6);
    assert!(matches!(insns[0], Insn::BranchIfNot(c, 0) if c == env[0]));
    assert!(matches!(insns[1], Insn::Return(v) if v == env[0]));
    assert!(matches!(insns[2], Insn::Branch(1)));
    assert!(matches!(insns[3], Insn::Label(0)));
    assert!(matches!(insns[4], Insn::Return(v) if v == env[1]));
    assert!(matches!(insns[5], Insn::Label(1)));
}

#[test]
fn loops_and_whiles_branch_back_to_their_start() {
    let mut ctx = Context::<()>::new();
    let mut func = binary_func(&mut ctx);
    let env = [func.get_param(0), func.get_param(1)];
    let e = JitExpr::While(Box::new(JitExpr::Var(0)), Box::new(JitExpr::Loop(Box::new(JitExpr::Return(None)))));
    assert!(compile_expr(&mut func, &env, &e).unwrap().is_none());
    assert_eq!(func.get_label_count(), 3);
    let insns = func.get_insns();
    assert_eq!(insns.len(), 7);
    assert!(matches!(insns[0], Insn::Label(0)));
    assert!(matches!(insns[1], Insn::BranchIfNot(c, 1) if c == env[0]));
    assert!(matches!(insns[2], Insn::Label(2)));
    assert!(matches!(insns[3], Insn::DefaultReturn));
    assert!(matches!(insns[4], Insn::Branch(2)));
    assert!(matches!(insns[5], Insn::Branch(0)));
    assert!(matches!(insns[6], Insn::Label(1)));
}

#[test]
fn forms_without_a_value_cannot_be_operands() {
    let mut ctx = Context::<()>::new();
    let mut func = binary_func(&mut ctx);
    let env = [func.get_param(0)];
    let e = JitExpr::Not(Box::new(JitExpr::Return(None)));
    assert!(matches!(compile_expr(&mut func, &env, &e), Err(ExprError::NoValue)));
    let w = JitExpr::While(Box::new(JitExpr::Loop(Box::new(JitExpr::Var(0)))), Box::new(JitExpr::Var(0)));
    assert!(matches!(compile_expr(&mut func, &env, &w), Err(ExprError::NoValue)));
    assert!(func.get_insns().is_empty());
    assert_eq!(func.get_label_count(), 0);
}

#[test]
fn string_and_float_literals() {
    let mut ctx = Context::<()>::new();
    let mut func = binary_func(&mut ctx);
    let env = [func.get_param(0)];
    let f = compile_expr(&mut func, &env, &JitExpr::Lit(JitLit::F64Bits(1.5f64.to_bits()))).unwrap().unwrap();
    assert_eq!(func.get_values()[f.index()].origin, ValueOrigin::Constant(1.5f64.to_bits()));
    let g = compile_expr(&mut func, &env, &JitExpr::Lit(JitLit::F32Bits(2.0f32.to_bits()))).unwrap().unwrap();
    assert_eq!(func.get_values()[g.index()].origin, ValueOrigin::Constant(2.0f32.to_bits() as u64));
    let s = compile_expr(&mut func, &env, &JitExpr::Lit(JitLit::Str("ok".to_string()))).unwrap().unwrap();
    assert_eq!(s.index(), 4 + 5);
    assert_eq!(func.get_values()[s.index() + 1].origin, ValueOrigin::Constant(2));
    assert_eq!(func.get_insns().len(), 6);
}

#[test]
fn statements_with_a_semicolon_are_passed_over() {
    let mut ctx = Context::<()>::new();
    let mut func = binary_func(&mut ctx);
    let stmts = vec![
        JitStmt::Semi(JitExpr::Var(7)),
        JitStmt::Semi(JitExpr::Not(Box::new(JitExpr::Var(0)))),
    ];
    assert!(compile_body(&mut func, &stmts, None).is_ok());
    let insns = func.get_insns();
    assert_eq!(insns.len(), 1);
    assert!(matches!(insns[0], Insn::DefaultReturn));
    assert_eq!(func.get_values().len(), 2);
}

#[test]
fn only_structs_and_repr_enums_derive_compile() {
    assert!(matches!(derive_item(&DeriveItem::Struct), Ok(Derived::Struct)));
    match derive_item(&DeriveItem::Enum(Some("u8".to_string()))) {
        Ok(Derived::Enum(t)) => assert!(t == get::<u8>()),
        _ => panic!("a u8 enum derives its repr type"),
    }
    assert!(matches!(derive_item(&DeriveItem::Enum(None)), Err(DeriveError::BadItem)));
    assert!(matches!(derive_item(&DeriveItem::Enum(Some("C".to_string()))), Err(DeriveError::BadItem)));
    assert!(matches!(derive_item(&DeriveItem::Other), Err(DeriveError::BadItem)));
}
