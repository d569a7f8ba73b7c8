//! Expressions of a small Rust-like language compiled into a function, as
//! the `jit!` front end compiles a closure body: literals, bound values,
//! operators, casts, dereferences, the math methods, conditionals, loops
//! and returns.
use vstd::prelude::*;
use crate::compile::Compile;
use crate::compile::{bool_bits, compile_str, str_code, str_count, str_infos, str_result};
use crate::function::{
    Function, Label, lemma_extends_trans, lemma_recorded_extends, lemma_value_at, value_at, BinaryOp, Insn,
    UnaryOp, UncompiledFunction, Value, ValueInfo, ValueOrigin,
};
use crate::kind::{KIND_FLOAT32, KIND_FLOAT64};
use crate::types::{param_count, Type};
use vstd::utf8::encode_utf8;

verus! {

/// A literal of one of the primitive types.
pub enum JitLit {
    I8(i8),
    U8(u8),
    I16(i16),
    U16(u16),
    I32(i32),
    U32(u32),
    I64(i64),
    U64(u64),
    ISize(isize),
    USize(usize),
    Bool(bool),
    Char(char),
    /// A 32-bit float, by its bit pattern.
    F32Bits(u32),
    /// A 64-bit float, by its bit pattern.
    F64Bits(u64),
    /// A string literal, compiled as a string slice.
    Str(String),
}

/// The binary operators of the language.
#[derive(PartialEq, Eq, Structural, Clone, Copy, Debug)]
pub enum BinOp {
    Add,
    Sub,
    Mul,
    Div,
    Rem,
    /// `&&` and `&`
    And,
    /// `||` and `|`
    Or,
    Xor,
    Shl,
    Shr,
    Eq,
    Lt,
    Le,
    Ne,
    Ge,
    Gt,
}

/// An expression.
pub enum JitExpr {
    /// A literal, compiled as a constant of its type.
    Lit(JitLit),
    /// The bound value at this index: a parameter, then the values of the
    /// `let` statements before, in order.
    Var(u32),
    /// The value of this type that the pointer points to.
    Deref(Box<JitExpr>, Type),
    /// `!e`
    Not(Box<JitExpr>),
    /// `-e`
    Neg(Box<JitExpr>),
    /// `a op b`
    Binary(BinOp, Box<JitExpr>, Box<JitExpr>),
    /// `e as t`
    Cast(Box<JitExpr>, Type),
    /// `&e`
    AddrOf(Box<JitExpr>),
    /// `e.name()`, a math method.
    Method(String, Box<JitExpr>),
    /// `(e)`
    Paren(Box<JitExpr>),
    /// `if c { a }`
    If(Box<JitExpr>, Box<JitExpr>),
    /// `if c { a } else { b }`
    IfElse(Box<JitExpr>, Box<JitExpr>, Box<JitExpr>),
    /// `loop { a }`
    Loop(Box<JitExpr>),
    /// `while c { a }`
    While(Box<JitExpr>, Box<JitExpr>),
    /// `return` and `return e`
    Return(Option<Box<JitExpr>>),
}

/// Why an expression cannot be compiled.
#[derive(Debug)]
pub enum ExprError {
    /// No value is bound at this index.
    UnboundVariable(u32),
    /// The method is not one of the math methods.
    UnsupportedMethod(String),
    /// A conditional, loop or return stands where a value is needed.
    NoValue,
}

/// The instruction of a binary operator.
pub open spec fn bin_insn(op: BinOp) -> BinaryOp {
    match op {
        BinOp::Add => BinaryOp::Add,
        BinOp::Sub => BinaryOp::Sub,
        BinOp::Mul => BinaryOp::Mul,
        BinOp::Div => BinaryOp::Div,
        BinOp::Rem => BinaryOp::Rem,
        BinOp::And => BinaryOp::And,
        BinOp::Or => BinaryOp::Or,
        BinOp::Xor => BinaryOp::Xor,
        BinOp::Shl => BinaryOp::Shl,
        BinOp::Shr => BinaryOp::Shr,
        BinOp::Eq => BinaryOp::Eq,
        BinOp::Lt => BinaryOp::Lt,
        BinOp::Le => BinaryOp::Le,
        BinOp::Ne => BinaryOp::Ne,
        BinOp::Ge => BinaryOp::Ge,
        BinOp::Gt => BinaryOp::Gt,
    }
}

fn bin_insn_exec(op: BinOp) -> (r: BinaryOp)
    ensures
        r == bin_insn(op),
{
    match op {
        BinOp::Add => BinaryOp::Add,
        BinOp::Sub => BinaryOp::Sub,
        BinOp::Mul => BinaryOp::Mul,
        BinOp::Div => BinaryOp::Div,
        BinOp::Rem => BinaryOp::Rem,
        BinOp::And => BinaryOp::And,
        BinOp::Or => BinaryOp::Or,
        BinOp::Xor => BinaryOp::Xor,
        BinOp::Shl => BinaryOp::Shl,
        BinOp::Shr => BinaryOp::Shr,
        BinOp::Eq => BinaryOp::Eq,
        BinOp::Lt => BinaryOp::Lt,
        BinOp::Le => BinaryOp::Le,
        BinOp::Ne => BinaryOp::Ne,
        BinOp::Ge => BinaryOp::Ge,
        BinOp::Gt => BinaryOp::Gt,
    }
}

/// The instruction of a math method, by its name.
pub open spec fn method_insn(name: Seq<char>) -> Option<UnaryOp> {
    if name == "abs"@ {
        Some(UnaryOp::Abs)
    } else if name == "acos"@ {
        Some(UnaryOp::Acos)
    } else if name == "asin"@ {
        Some(UnaryOp::Asin)
    } else if name == "atan"@ {
        Some(UnaryOp::Atan)
    } else if name == "ceil"@ {
        Some(UnaryOp::Ceil)
    } else if name == "cos"@ {
        Some(UnaryOp::Cos)
    } else if name == "floor"@ {
        Some(UnaryOp::Floor)
    } else if name == "is_finite"@ {
        Some(UnaryOp::IsFinite)
    } else if name == "is_infinite"@ {
        Some(UnaryOp::IsInf)
    } else if name == "is_nan"@ {
        Some(UnaryOp::IsNan)
    } else if name == "sin"@ {
        Some(UnaryOp::Sin)
    } else if name == "sqrt"@ {
        Some(UnaryOp::Sqrt)
    } else if name == "tan"@ {
        Some(UnaryOp::Tan)
    } else if name == "trunc"@ {
        Some(UnaryOp::Trunc)
    } else {
        None
    }
}

/// Whether the string is the literal.
pub fn is_name(s: &String, lit: &str) -> (b: bool)
    ensures
        b == (s@ == lit@),
{
    let l = lit.to_owned();
    *s == l
}

fn method_insn_exec(name: &String) -> (r: Option<UnaryOp>)
    ensures
        r == method_insn(name@),
{
    if is_name(name, "abs") {
        Some(UnaryOp::Abs)
    } else if is_name(name, "acos") {
        Some(UnaryOp::Acos)
    } else if is_name(name, "asin") {
        Some(UnaryOp::Asin)
    } else if is_name(name, "atan") {
        Some(UnaryOp::Atan)
    } else if is_name(name, "ceil") {
        Some(UnaryOp::Ceil)
    } else if is_name(name, "cos") {
        Some(UnaryOp::Cos)
    } else if is_name(name, "floor") {
        Some(UnaryOp::Floor)
    } else if is_name(name, "is_finite") {
        Some(UnaryOp::IsFinite)
    } else if is_name(name, "is_infinite") {
        Some(UnaryOp::IsInf)
    } else if is_name(name, "is_nan") {
        Some(UnaryOp::IsNan)
    } else if is_name(name, "sin") {
        Some(UnaryOp::Sin)
    } else if is_name(name, "sqrt") {
        Some(UnaryOp::Sqrt)
    } else if is_name(name, "tan") {
        Some(UnaryOp::Tan)
    } else if is_name(name, "trunc") {
        Some(UnaryOp::Trunc)
    } else {
        None
    }
}

/// Whether the expression is a conditional, a loop or a return, which give
/// no value.
pub open spec fn is_unit(e: JitExpr) -> bool
    decreases e,
{
    match e {
        JitExpr::If(_, _) => true,
        JitExpr::IfElse(_, _, _) => true,
        JitExpr::Loop(_) => true,
        JitExpr::While(_, _) => true,
        JitExpr::Return(_) => true,
        JitExpr::Paren(a) => is_unit(*a),
        _ => false,
    }
}

/// Whether the expression compiles with `n` bound values: every variable is
/// bound, every method is a math method, and a value stands wherever one is
/// needed.
pub open spec fn expr_ok(e: JitExpr, n: nat) -> bool
    decreases e,
{
    match e {
        JitExpr::Lit(_) => true,
        JitExpr::Var(i) => i < n,
        JitExpr::Deref(a, _) => expr_ok(*a, n) && !is_unit(*a),
        JitExpr::Not(a) => expr_ok(*a, n) && !is_unit(*a),
        JitExpr::Neg(a) => expr_ok(*a, n) && !is_unit(*a),
        JitExpr::Binary(_, a, b) => expr_ok(*a, n) && !is_unit(*a) && expr_ok(*b, n) && !is_unit(*b),
        JitExpr::Cast(a, _) => expr_ok(*a, n) && !is_unit(*a),
        JitExpr::AddrOf(a) => expr_ok(*a, n) && !is_unit(*a),
        JitExpr::Method(name, a) => expr_ok(*a, n) && !is_unit(*a) && method_insn(name@) is Some,
        JitExpr::Paren(a) => expr_ok(*a, n),
        JitExpr::If(c, a) => expr_ok(*c, n) && !is_unit(*c) && expr_ok(*a, n),
        JitExpr::IfElse(c, a, b) => expr_ok(*c, n) && !is_unit(*c) && expr_ok(*a, n) && expr_ok(*b, n),
        JitExpr::Loop(a) => expr_ok(*a, n),
        JitExpr::While(c, a) => expr_ok(*c, n) && !is_unit(*c) && expr_ok(*a, n),
        JitExpr::Return(None) => true,
        JitExpr::Return(Some(a)) => expr_ok(*a, n) && !is_unit(*a),
    }
}

/// Whether the expression compiles to a value with `n` bound values.
pub open spec fn value_ok(e: JitExpr, n: nat) -> bool {
    expr_ok(e, n) && !is_unit(e)
}

/// Whether `err` is the first error of `e` where a value is needed: its own
/// first error, or that it gives no value.
pub open spec fn value_error(e: JitExpr, n: nat, err: ExprError) -> bool
    decreases e, 1nat,
{
    if !expr_ok(e, n) {
        first_error(e, n, err)
    } else {
        is_unit(e) && err == ExprError::NoValue
    }
}

/// Whether `err` is the first error of the expression with `n` bound values,
/// subexpressions from left to right and the receiver of a method before its
/// name.
pub open spec fn first_error(e: JitExpr, n: nat, err: ExprError) -> bool
    decreases e, 0nat,
{
    match e {
        JitExpr::Lit(_) => false,
        JitExpr::Var(i) => i >= n && err == ExprError::UnboundVariable(i),
        JitExpr::Deref(a, _) => value_error(*a, n, err),
        JitExpr::Not(a) => value_error(*a, n, err),
        JitExpr::Neg(a) => value_error(*a, n, err),
        JitExpr::Binary(_, a, b) => if !value_ok(*a, n) {
            value_error(*a, n, err)
        } else {
            value_error(*b, n, err)
        },
        JitExpr::Cast(a, _) => value_error(*a, n, err),
        JitExpr::AddrOf(a) => value_error(*a, n, err),
        JitExpr::Method(name, a) => if !value_ok(*a, n) {
            value_error(*a, n, err)
        } else {
            method_insn(name@) is None && (err matches ExprError::UnsupportedMethod(s) && s@
                == name@)
        },
        JitExpr::Paren(a) => first_error(*a, n, err),
        JitExpr::If(c, a) => if !value_ok(*c, n) {
            value_error(*c, n, err)
        } else {
            first_error(*a, n, err)
        },
        JitExpr::IfElse(c, a, b) => if !value_ok(*c, n) {
            value_error(*c, n, err)
        } else if !expr_ok(*a, n) {
            first_error(*a, n, err)
        } else {
            first_error(*b, n, err)
        },
        JitExpr::Loop(a) => first_error(*a, n, err),
        JitExpr::While(c, a) => if !value_ok(*c, n) {
            value_error(*c, n, err)
        } else {
            first_error(*a, n, err)
        },
        JitExpr::Return(None) => false,
        JitExpr::Return(Some(a)) => value_error(*a, n, err),
    }
}

/// The bytes of a string literal.
pub open spec fn str_bytes(s: String) -> Seq<u8> {
    encode_utf8(s@)
}

/// The number of values a literal compiles into.
pub open spec fn lit_count(l: JitLit) -> nat {
    match l {
        JitLit::Str(s) => str_count(str_bytes(s).len()),
        _ => 1,
    }
}

/// The number of values that compiling the expression adds.
pub open spec fn expr_count(e: JitExpr) -> nat
    decreases e,
{
    match e {
        JitExpr::Lit(l) => lit_count(l),
        JitExpr::Var(_) => 0,
        JitExpr::Deref(a, _) => expr_count(*a) + 1,
        JitExpr::Not(a) => expr_count(*a) + 1,
        JitExpr::Neg(a) => expr_count(*a) + 1,
        JitExpr::Binary(_, a, b) => expr_count(*a) + expr_count(*b) + 1,
        JitExpr::Cast(a, _) => expr_count(*a) + 1,
        JitExpr::AddrOf(a) => expr_count(*a) + 1,
        JitExpr::Method(_, a) => expr_count(*a) + 1,
        JitExpr::Paren(a) => expr_count(*a),
        JitExpr::If(c, a) => expr_count(*c) + expr_count(*a),
        JitExpr::IfElse(c, a, b) => expr_count(*c) + expr_count(*a) + expr_count(*b),
        JitExpr::Loop(a) => expr_count(*a),
        JitExpr::While(c, a) => expr_count(*c) + expr_count(*a),
        JitExpr::Return(None) => 0,
        JitExpr::Return(Some(a)) => expr_count(*a),
    }
}

/// The number of labels that compiling the expression reserves.
pub open spec fn expr_labels(e: JitExpr) -> nat
    decreases e,
{
    match e {
        JitExpr::Lit(_) => 0,
        JitExpr::Var(_) => 0,
        JitExpr::Deref(a, _) => expr_labels(*a),
        JitExpr::Not(a) => expr_labels(*a),
        JitExpr::Neg(a) => expr_labels(*a),
        JitExpr::Binary(_, a, b) => expr_labels(*a) + expr_labels(*b),
        JitExpr::Cast(a, _) => expr_labels(*a),
        JitExpr::AddrOf(a) => expr_labels(*a),
        JitExpr::Method(_, a) => expr_labels(*a),
        JitExpr::Paren(a) => expr_labels(*a),
        JitExpr::If(c, a) => expr_labels(*c) + 1 + expr_labels(*a),
        JitExpr::IfElse(c, a, b) => expr_labels(*c) + 2 + expr_labels(*a) + expr_labels(*b),
        JitExpr::Loop(a) => 1 + expr_labels(*a),
        JitExpr::While(c, a) => 2 + expr_labels(*c) + expr_labels(*a),
        JitExpr::Return(None) => 0,
        JitExpr::Return(Some(a)) => expr_labels(*a),
    }
}

/// The value of a literal compiled into function `id` whose values number
/// `n` before.
pub open spec fn lit_result(l: JitLit, id: u64, n: int) -> Value {
    match l {
        JitLit::Str(s) => str_result(str_bytes(s), id, n),
        _ => value_at(id, n),
    }
}

/// The value of the expression when it is compiled into function `id`
/// whose values number `n` before.
pub open spec fn expr_result(e: JitExpr, env: Seq<Value>, id: u64, n: int) -> Value
    decreases e,
{
    match e {
        JitExpr::Lit(l) => lit_result(l, id, n),
        JitExpr::Var(i) => env[i as int],
        JitExpr::Binary(_, a, b) => value_at(id, n + expr_count(*a) + expr_count(*b)),
        JitExpr::Paren(a) => expr_result(*a, env, id, n),
        JitExpr::Deref(a, _) => value_at(id, n + expr_count(*a)),
        JitExpr::Not(a) => value_at(id, n + expr_count(*a)),
        JitExpr::Neg(a) => value_at(id, n + expr_count(*a)),
        JitExpr::Cast(a, _) => value_at(id, n + expr_count(*a)),
        JitExpr::AddrOf(a) => value_at(id, n + expr_count(*a)),
        JitExpr::Method(_, a) => value_at(id, n + expr_count(*a)),
        _ => value_at(id, n),
    }
}

/// The instruction of a unary form applied to the value `v`, giving `d`.
pub open spec fn unary_form_insn(e: JitExpr, v: Value, d: Value) -> Insn {
    match e {
        JitExpr::Deref(_, t) => Insn::LoadRelative(v, 0, t, d),
        JitExpr::Not(_) => Insn::Unary(UnaryOp::Not, v, d),
        JitExpr::Neg(_) => Insn::Unary(UnaryOp::Neg, v, d),
        JitExpr::Cast(_, t) => Insn::Convert(v, t, false, d),
        JitExpr::AddrOf(_) => Insn::Unary(UnaryOp::AddressOf, v, d),
        JitExpr::Method(name, _) => Insn::Unary(method_insn(name@).unwrap(), v, d),
        _ => Insn::DefaultReturn,
    }
}

/// The instructions of a literal.
pub open spec fn lit_code(l: JitLit, id: u64, n: int) -> Seq<Insn> {
    match l {
        JitLit::Str(s) => str_code(str_bytes(s), id, n),
        _ => Seq::empty(),
    }
}

/// The label at `l` as the instructions name it.
pub open spec fn label_at(l: int) -> u64 {
    l as u64
}

/// The instructions that compiling the expression records, in order, into
/// function `id` whose values number `n` and whose labels number `l`
/// before: the operands' first, left to right, then the operator's. A
/// conditional branches past its block when the condition fails; a loop
/// branches back to its start; `while` tests its condition at the start and
/// leaves when it fails; `if … else` runs the first block and branches past
/// the second, or branches to the second.
pub open spec fn expr_code(e: JitExpr, env: Seq<Value>, id: u64, n: int, l: int) -> Seq<Insn>
    decreases e,
{
    match e {
        JitExpr::Lit(lit) => lit_code(lit, id, n),
        JitExpr::Var(_) => Seq::empty(),
        JitExpr::Binary(op, a, b) => expr_code(*a, env, id, n, l) + expr_code(
            *b,
            env,
            id,
            n + expr_count(*a),
            l + expr_labels(*a),
        ) + seq![
            Insn::Binary(
                bin_insn(op),
                expr_result(*a, env, id, n),
                expr_result(*b, env, id, n + expr_count(*a)),
                value_at(id, n + expr_count(*a) + expr_count(*b)),
            ),
        ],
        JitExpr::Paren(a) => expr_code(*a, env, id, n, l),
        JitExpr::Deref(a, _) => expr_code(*a, env, id, n, l) + seq![
            unary_form_insn(e, expr_result(*a, env, id, n), value_at(id, n + expr_count(*a))),
        ],
        JitExpr::Not(a) => expr_code(*a, env, id, n, l) + seq![
            unary_form_insn(e, expr_result(*a, env, id, n), value_at(id, n + expr_count(*a))),
        ],
        JitExpr::Neg(a) => expr_code(*a, env, id, n, l) + seq![
            unary_form_insn(e, expr_result(*a, env, id, n), value_at(id, n + expr_count(*a))),
        ],
        JitExpr::Cast(a, _) => expr_code(*a, env, id, n, l) + seq![
            unary_form_insn(e, expr_result(*a, env, id, n), value_at(id, n + expr_count(*a))),
        ],
        JitExpr::AddrOf(a) => expr_code(*a, env, id, n, l) + seq![
            unary_form_insn(e, expr_result(*a, env, id, n), value_at(id, n + expr_count(*a))),
        ],
        JitExpr::Method(_, a) => expr_code(*a, env, id, n, l) + seq![
            unary_form_insn(e, expr_result(*a, env, id, n), value_at(id, n + expr_count(*a))),
        ],
        JitExpr::If(c, a) => {
            let lc = l + expr_labels(*c);
            expr_code(*c, env, id, n, l) + seq![Insn::BranchIfNot(expr_result(*c, env, id, n), label_at(lc))]
                + expr_code(*a, env, id, n + expr_count(*c), lc + 1) + seq![Insn::Label(label_at(lc))]
        },
        JitExpr::IfElse(c, a, b) => {
            let lc = l + expr_labels(*c);
            let la = lc + 2 + expr_labels(*a);
            expr_code(*c, env, id, n, l) + seq![Insn::BranchIfNot(expr_result(*c, env, id, n), label_at(lc))]
                + expr_code(*a, env, id, n + expr_count(*c), lc + 2) + seq![
                Insn::Branch(label_at(lc + 1)),
                Insn::Label(label_at(lc)),
            ] + expr_code(*b, env, id, n + expr_count(*c) + expr_count(*a), la) + seq![
                Insn::Label(label_at(lc + 1)),
            ]
        },
        JitExpr::Loop(a) => seq![Insn::Label(label_at(l))] + expr_code(*a, env, id, n, l + 1) + seq![
            Insn::Branch(label_at(l)),
        ],
        JitExpr::While(c, a) => seq![Insn::Label(label_at(l))] + expr_code(*c, env, id, n, l + 2) + seq![
            Insn::BranchIfNot(expr_result(*c, env, id, n), label_at(l + 1)),
        ] + expr_code(*a, env, id, n + expr_count(*c), l + 2 + expr_labels(*c)) + seq![
            Insn::Branch(label_at(l)),
            Insn::Label(label_at(l + 1)),
        ],
        JitExpr::Return(None) => seq![Insn::DefaultReturn],
        JitExpr::Return(Some(a)) => expr_code(*a, env, id, n, l) + seq![
            Insn::Return(expr_result(*a, env, id, n)),
        ],
    }
}

/// The constant of a literal of one value, as its type compiles it.
pub open spec fn lit_info(l: JitLit, info: ValueInfo) -> bool {
    &&& !info.addressable
    &&& match l {
        JitLit::I8(x) => info.origin == ValueOrigin::Constant(x as u64) && (info.ty matches Some(t) && <i8 as Compile>::describes(t)),
        JitLit::U8(x) => info.origin == ValueOrigin::Constant(x as u64) && (info.ty matches Some(t) && <u8 as Compile>::describes(t)),
        JitLit::I16(x) => info.origin == ValueOrigin::Constant(x as u64) && (info.ty matches Some(t) && <i16 as Compile>::describes(t)),
        JitLit::U16(x) => info.origin == ValueOrigin::Constant(x as u64) && (info.ty matches Some(t) && <u16 as Compile>::describes(t)),
        JitLit::I32(x) => info.origin == ValueOrigin::Constant(x as u64) && (info.ty matches Some(t) && <i32 as Compile>::describes(t)),
        JitLit::U32(x) => info.origin == ValueOrigin::Constant(x as u64) && (info.ty matches Some(t) && <u32 as Compile>::describes(t)),
        JitLit::I64(x) => info.origin == ValueOrigin::Constant(x as u64) && (info.ty matches Some(t) && <i64 as Compile>::describes(t)),
        JitLit::U64(x) => info.origin == ValueOrigin::Constant(x as u64) && (info.ty matches Some(t) && <u64 as Compile>::describes(t)),
        JitLit::ISize(x) => info.origin == ValueOrigin::Constant(x as u64) && (info.ty matches Some(t) && <isize as Compile>::describes(t)),
        JitLit::USize(x) => info.origin == ValueOrigin::Constant(x as u64) && (info.ty matches Some(t) && <usize as Compile>::describes(t)),
        JitLit::Bool(x) => info.origin == ValueOrigin::Constant(bool_bits(x)) && (info.ty matches Some(t) && <bool as Compile>::describes(t)),
        JitLit::Char(x) => info.origin == ValueOrigin::Constant((x as u32) as u64) && (info.ty matches Some(t) && <char as Compile>::describes(t)),
        JitLit::F32Bits(x) => info.origin == ValueOrigin::Constant(x as u64) && (info.ty matches Some(t) && t.is_plain(KIND_FLOAT32)),
        JitLit::F64Bits(x) => info.origin == ValueOrigin::Constant(x) && (info.ty matches Some(t) && t.is_plain(KIND_FLOAT64)),
        JitLit::Str(_) => false,
    }
}

/// Whether the values from `n` on are those of the literal.
pub open spec fn lit_infos(l: JitLit, n: int, vals: Seq<ValueInfo>) -> bool {
    match l {
        JitLit::Str(s) => str_infos(str_bytes(s), n, vals),
        _ => lit_info(l, vals[n]),
    }
}

/// The type a unary form gives its result, if it fixes one.
pub open spec fn unary_form_type(e: JitExpr) -> Option<Type> {
    match e {
        JitExpr::Deref(_, t) => Some(t),
        JitExpr::Cast(_, t) => Some(t),
        _ => None,
    }
}

/// The description of the result of an operator.
pub open spec fn result_info(ty: Option<Type>) -> ValueInfo {
    ValueInfo { ty, origin: ValueOrigin::Result, addressable: false }
}

/// Whether the values from `n` on, among `vals`, are those that compiling
/// the expression adds: the values of its literals and the results of its
/// operators, in order.
pub open spec fn expr_infos(e: JitExpr, n: int, vals: Seq<ValueInfo>) -> bool
    decreases e,
{
    match e {
        JitExpr::Lit(l) => lit_infos(l, n, vals),
        JitExpr::Var(_) => true,
        JitExpr::Binary(_, a, b) => expr_infos(*a, n, vals) && expr_infos(*b, n + expr_count(*a), vals)
            && vals[n + expr_count(*a) + expr_count(*b)] == result_info(None),
        JitExpr::Paren(a) => expr_infos(*a, n, vals),
        JitExpr::Deref(a, _) => expr_infos(*a, n, vals) && vals[n + expr_count(*a)] == result_info(unary_form_type(e)),
        JitExpr::Not(a) => expr_infos(*a, n, vals) && vals[n + expr_count(*a)] == result_info(unary_form_type(e)),
        JitExpr::Neg(a) => expr_infos(*a, n, vals) && vals[n + expr_count(*a)] == result_info(unary_form_type(e)),
        JitExpr::Cast(a, _) => expr_infos(*a, n, vals) && vals[n + expr_count(*a)] == result_info(unary_form_type(e)),
        JitExpr::AddrOf(a) => expr_infos(*a, n, vals) && vals[n + expr_count(*a)] == result_info(unary_form_type(e)),
        JitExpr::Method(_, a) => expr_infos(*a, n, vals) && vals[n + expr_count(*a)] == result_info(unary_form_type(e)),
        JitExpr::If(c, a) => expr_infos(*c, n, vals) && expr_infos(*a, n + expr_count(*c), vals),
        JitExpr::IfElse(c, a, b) => expr_infos(*c, n, vals) && expr_infos(*a, n + expr_count(*c), vals)
            && expr_infos(*b, n + expr_count(*c) + expr_count(*a), vals),
        JitExpr::Loop(a) => expr_infos(*a, n, vals),
        JitExpr::While(c, a) => expr_infos(*c, n, vals) && expr_infos(*a, n + expr_count(*c), vals),
        JitExpr::Return(None) => true,
        JitExpr::Return(Some(a)) => expr_infos(*a, n, vals),
    }
}

/// Everything of `a` but its values, instructions and labels is as in `b`.
pub open spec fn same_settings(a: UncompiledFunction, b: UncompiledFunction) -> bool {
    &&& a.id() == b.id()
    &&& a.signature() == b.signature()
    &&& a.parent() == b.parent()
    &&& a.optimization() == b.optimization()
    &&& a.is_recompilable() == b.is_recompilable()
}

/// Whether compiling `e` with the bound values `env` into `before` gives
/// `after`, with `r` the value of `e`, none for a conditional, loop or
/// return.
pub open spec fn expr_compiled(
    e: JitExpr,
    env: Seq<Value>,
    before: UncompiledFunction,
    after: UncompiledFunction,
    r: Option<Value>,
) -> bool {
    let n = before.values().len() as int;
    let id = before.id();
    &&& same_settings(after, before)
    &&& after.label_count() == before.label_count() + expr_labels(e)
    &&& after.values().len() == n + expr_count(e)
    &&& forall|j: int| 0 <= j < n ==> #[trigger] after.values()[j] == before.values()[j]
    &&& expr_infos(e, n, after.values())
    &&& after.insns() == before.insns() + expr_code(e, env, id, n, before.label_count() as int)
    &&& r == if is_unit(e) {
        None
    } else {
        Some(expr_result(e, env, id, n))
    }
}

/// The values a literal adds keep their description as more are added.
proof fn lemma_lit_infos_stable(l: JitLit, n: int, v1: Seq<ValueInfo>, v2: Seq<ValueInfo>)
    requires
        lit_infos(l, n, v1),
        0 <= n,
        forall|j: int| 0 <= j < n + lit_count(l) ==> #[trigger] v2[j] == v1[j],
    ensures
        lit_infos(l, n, v2),
{
    match l {
        JitLit::Str(s) => {
            let b = str_bytes(s);
            assert(v2[n] == v1[n]);
            assert(v2[n + 1] == v1[n + 1]);
            assert(v2[n + 2] == v1[n + 2]);
            assert(v2[n + 3 + b.len()] == v1[n + 3 + b.len()]);
            assert(v2[n + 3 + b.len() + 1] == v1[n + 3 + b.len() + 1]);
            assert forall|i: int| 0 <= i < b.len() implies #[trigger] v2[n + 3 + i] == v1[n + 3 + i] by {}
        },
        _ => {
            assert(v2[n] == v1[n]);
        },
    }
}

/// The values an expression adds keep their description as more are added.
proof fn lemma_infos_stable(e: JitExpr, n: int, v1: Seq<ValueInfo>, v2: Seq<ValueInfo>)
    requires
        expr_infos(e, n, v1),
        0 <= n,
        forall|j: int| 0 <= j < n + expr_count(e) ==> #[trigger] v2[j] == v1[j],
    ensures
        expr_infos(e, n, v2),
    decreases e,
{
    match e {
        JitExpr::Lit(l) => {
            lemma_lit_infos_stable(l, n, v1, v2);
        },
        JitExpr::Var(_) => {},
        JitExpr::Binary(_, a, b) => {
            lemma_infos_stable(*a, n, v1, v2);
            lemma_infos_stable(*b, n + expr_count(*a), v1, v2);
            assert(v2[n + expr_count(*a) + expr_count(*b)] == v1[n + expr_count(*a) + expr_count(*b)]);
        },
        JitExpr::Paren(a) => {
            lemma_infos_stable(*a, n, v1, v2);
        },
        JitExpr::Deref(a, _) => {
            lemma_infos_stable(*a, n, v1, v2);
            assert(v2[n + expr_count(*a)] == v1[n + expr_count(*a)]);
        },
        JitExpr::Not(a) => {
            lemma_infos_stable(*a, n, v1, v2);
            assert(v2[n + expr_count(*a)] == v1[n + expr_count(*a)]);
        },
        JitExpr::Neg(a) => {
            lemma_infos_stable(*a, n, v1, v2);
            assert(v2[n + expr_count(*a)] == v1[n + expr_count(*a)]);
        },
        JitExpr::Cast(a, _) => {
            lemma_infos_stable(*a, n, v1, v2);
            assert(v2[n + expr_count(*a)] == v1[n + expr_count(*a)]);
        },
        JitExpr::AddrOf(a) => {
            lemma_infos_stable(*a, n, v1, v2);
            assert(v2[n + expr_count(*a)] == v1[n + expr_count(*a)]);
        },
        JitExpr::Method(_, a) => {
            lemma_infos_stable(*a, n, v1, v2);
            assert(v2[n + expr_count(*a)] == v1[n + expr_count(*a)]);
        },
        JitExpr::If(c, a) => {
            lemma_infos_stable(*c, n, v1, v2);
            lemma_infos_stable(*a, n + expr_count(*c), v1, v2);
        },
        JitExpr::IfElse(c, a, b) => {
            lemma_infos_stable(*c, n, v1, v2);
            lemma_infos_stable(*a, n + expr_count(*c), v1, v2);
            lemma_infos_stable(*b, n + expr_count(*c) + expr_count(*a), v1, v2);
        },
        JitExpr::Loop(a) => {
            lemma_infos_stable(*a, n, v1, v2);
        },
        JitExpr::While(c, a) => {
            lemma_infos_stable(*c, n, v1, v2);
            lemma_infos_stable(*a, n + expr_count(*c), v1, v2);
        },
        JitExpr::Return(None) => {},
        JitExpr::Return(Some(a)) => {
            lemma_infos_stable(*a, n, v1, v2);
        },
    }
}

/// Whether the expression gives no value.
fn is_unit_exec(e: &JitExpr) -> (b: bool)
    ensures
        b == is_unit(*e),
    decreases e,
{
    match e {
        JitExpr::If(_, _) => true,
        JitExpr::IfElse(_, _, _) => true,
        JitExpr::Loop(_) => true,
        JitExpr::While(_, _) => true,
        JitExpr::Return(_) => true,
        JitExpr::Paren(a) => is_unit_exec(a),
        _ => false,
    }
}

/// The first error of an expression where a value is needed, if any.
fn check_value(e: &JitExpr, n: u128) -> (r: Option<ExprError>)
    ensures
        r is None <==> value_ok(*e, n as nat),
        r matches Some(err) ==> value_error(*e, n as nat, err),
    decreases e, 1nat,
{
    match check_expr(e, n) {
        Some(err) => Some(err),
        None => if is_unit_exec(e) {
            Some(ExprError::NoValue)
        } else {
            None
        },
    }
}

/// The first error of an expression, if any.
fn check_expr(e: &JitExpr, n: u128) -> (r: Option<ExprError>)
    ensures
        r is None <==> expr_ok(*e, n as nat),
        r matches Some(err) ==> first_error(*e, n as nat, err),
    decreases e, 0nat,
{
    match e {
        JitExpr::Lit(_) => None,
        JitExpr::Var(i) => if (*i as u128) < n {
            None
        } else {
            Some(ExprError::UnboundVariable(*i))
        },
        JitExpr::Deref(a, _) => check_value(a, n),
        JitExpr::Not(a) => check_value(a, n),
        JitExpr::Neg(a) => check_value(a, n),
        JitExpr::Binary(_, a, b) => match check_value(a, n) {
            Some(err) => Some(err),
            None => check_value(b, n),
        },
        JitExpr::Cast(a, _) => check_value(a, n),
        JitExpr::AddrOf(a) => check_value(a, n),
        JitExpr::Method(name, a) => match check_value(a, n) {
            Some(err) => Some(err),
            None => match method_insn_exec(name) {
                Some(_) => None,
                None => Some(ExprError::UnsupportedMethod(name.clone())),
            },
        },
        JitExpr::Paren(a) => check_expr(a, n),
        JitExpr::If(c, a) => match check_value(c, n) {
            Some(err) => Some(err),
            None => check_expr(a, n),
        },
        JitExpr::IfElse(c, a, b) => match check_value(c, n) {
            Some(err) => Some(err),
            None => match check_expr(a, n) {
                Some(err) => Some(err),
                None => check_expr(b, n),
            },
        },
        JitExpr::Loop(a) => check_expr(a, n),
        JitExpr::While(c, a) => match check_value(c, n) {
            Some(err) => Some(err),
            None => check_expr(a, n),
        },
        JitExpr::Return(None) => None,
        JitExpr::Return(Some(a)) => check_value(a, n),
    }
}

fn compile_lit(func: &mut UncompiledFunction, l: &JitLit) -> (r: Value)
    requires
        old(func).wf(),
    ensures
        final(func).wf(),
        final(func).same_but_values_and_insns(*old(func)),
        final(func).values().len() == old(func).values().len() + lit_count(*l),
        forall|j: int| 0 <= j < old(func).values().len() ==> #[trigger] final(func).values()[j] == old(func).values()[j],
        lit_infos(*l, old(func).values().len() as int, final(func).values()),
        final(func).insns() == old(func).insns() + lit_code(*l, old(func).id(), old(func).values().len() as int),
        r == lit_result(*l, old(func).id(), old(func).values().len() as int),
        r.func_id() == old(func).id(),
        r.position() < final(func).values().len(),
{
    let ghost before = *func;
    let ghost n = func.values().len() as int;
    let r = match l {
        JitLit::I8(x) => x.compile(func),
        JitLit::U8(x) => x.compile(func),
        JitLit::I16(x) => x.compile(func),
        JitLit::U16(x) => x.compile(func),
        JitLit::I32(x) => x.compile(func),
        JitLit::U32(x) => x.compile(func),
        JitLit::I64(x) => x.compile(func),
        JitLit::U64(x) => x.compile(func),
        JitLit::ISize(x) => x.compile(func),
        JitLit::USize(x) => x.compile(func),
        JitLit::Bool(x) => x.compile(func),
        JitLit::Char(x) => x.compile(func),
        JitLit::F32Bits(x) => func.insn_of_float32_bits(*x),
        JitLit::F64Bits(x) => func.insn_of_float64_bits(*x),
        JitLit::Str(s) => {
            let r = compile_str(s.as_str().as_bytes(), func);
            return r;
        },
    };
    proof {
        lemma_value_at(r, before.id(), n);
        assert(func.insns() =~= before.insns() + lit_code(*l, before.id(), n));
        assert forall|j: int| 0 <= j < n implies #[trigger] func.values()[j] == before.values()[j] by {
            assert(func.values()[j] == before.values().push(func.values()[n])[j]);
        }
    }
    r
}

/// The last step of a unary form: its operand's code, then its instruction.
proof fn finish_unary(
    e: JitExpr,
    a: JitExpr,
    env: Seq<Value>,
    before: UncompiledFunction,
    m: UncompiledFunction,
    after: UncompiledFunction,
    v: Value,
    r: Value,
)
    requires
        expr_compiled(a, env, before, m, Some(v)),
        !is_unit(a),
        !is_unit(e),
        after.recorded_result(m, unary_form_insn(e, v, r), r, unary_form_type(e)),
        expr_count(e) == expr_count(a) + 1,
        expr_labels(e) == expr_labels(a),
        expr_result(e, env, before.id(), before.values().len() as int) == value_at(
            before.id(),
            (before.values().len() + expr_count(a)) as int,
        ),
        expr_code(e, env, before.id(), before.values().len() as int, before.label_count() as int) == expr_code(
            a,
            env,
            before.id(),
            before.values().len() as int,
            before.label_count() as int,
        ) + seq![
            unary_form_insn(
                e,
                expr_result(a, env, before.id(), before.values().len() as int),
                value_at(before.id(), (before.values().len() + expr_count(a)) as int),
            ),
        ],
        expr_infos(e, before.values().len() as int, after.values()) == (expr_infos(
            a,
            before.values().len() as int,
            after.values(),
        ) && after.values()[(before.values().len() + expr_count(a)) as int] == result_info(unary_form_type(e))),
    ensures
        expr_compiled(e, env, before, after, Some(r)),
{
    let n = before.values().len() as int;
    lemma_value_at(r, before.id(), n + expr_count(a));
    lemma_infos_stable(a, n, m.values(), after.values());
    assert(after.insns() =~= before.insns() + expr_code(e, env, before.id(), n, before.label_count() as int));
}

/// A function that compiling grew, grew.
proof fn lemma_compiled_extends(e: JitExpr, env: Seq<Value>, before: UncompiledFunction, after: UncompiledFunction, r: Option<Value>)
    requires
        expr_compiled(e, env, before, after, r),
    ensures
        after.extends(before),
{
    assert(after.insns().take(before.insns().len() as int) =~= before.insns());
}

/// A function that grows keeps holding its values.
proof fn lemma_holds_grows(a: UncompiledFunction, b: UncompiledFunction, v: Value)
    requires
        b.extends(a),
        a.holds(v),
    ensures
        b.holds(v),
{
}

/// A function that grows keeps holding a list of its values.
proof fn lemma_holds_all_grows(a: UncompiledFunction, b: UncompiledFunction, vs: Seq<Value>)
    requires
        b.extends(a),
        a.holds_all(vs),
    ensures
        b.holds_all(vs),
{
    assert forall|i: int| 0 <= i < vs.len() implies b.holds(#[trigger] vs[i]) by {
        assert(a.holds(vs[i]));
    }
}

/// The last step of compiling an operator: the function grew by one result.
proof fn finish(before: UncompiledFunction, m: UncompiledFunction, after: UncompiledFunction, env: Seq<Value>)
    requires
        m.extends(before),
        m.holds_all(env),
        after.id() == m.id(),
        after.signature() == m.signature(),
        after.parent() == m.parent(),
        after.label_count() == m.label_count(),
        after.values().len() == m.values().len() + 1,
        forall|j: int| 0 <= j < m.values().len() ==> #[trigger] after.values()[j] == m.values()[j],
        exists|x: Insn| after.insns() == m.insns().push(x),
    ensures
        after.extends(before),
        after.holds_all(env),
{
    lemma_recorded_extends(m, after);
    lemma_extends_trans(before, m, after);
    lemma_holds_all_grows(m, after, env);
}

#[verifier::spinoff_prover]
#[verifier::rlimit(40)]
fn compile_ok(func: &mut UncompiledFunction, env: &[Value], e: &JitExpr) -> (r: Option<Value>)
    requires
        old(func).wf(),
        old(func).holds_all(env@),
        expr_ok(*e, env@.len()),
        old(func).label_count() + expr_labels(*e) < u64::MAX,
    ensures
        final(func).wf(),
        final(func).extends(*old(func)),
        r matches Some(v) ==> final(func).holds(v),
        final(func).holds_all(env@),
        expr_compiled(*e, env@, *old(func), *final(func), r),
    decreases e,
{
    let ghost before = *func;
    let ghost n = func.values().len() as int;
    let ghost id = func.id();
    let ghost l = func.label_count() as int;
    match e {
        JitExpr::Lit(lit) => {
            let r = compile_lit(func, lit);
            proof {
                lemma_compiled_extends(*e, env@, before, *func, Some(r));
                lemma_holds_all_grows(before, *func, env@);
            }
            Some(r)
        },
        JitExpr::Var(i) => {
            let r = env[*i as usize];
            proof {
                assert(func.insns() =~= before.insns() + expr_code(*e, env@, id, n, l));
                lemma_compiled_extends(*e, env@, before, *func, Some(r));
            }
            Some(r)
        },
        JitExpr::Deref(a, t) => {
            let v = compile_ok(func, env, a).unwrap();
            let ghost m = *func;
            let r = func.insn_load_relative(v, 0, t);
            proof {
                finish(before, m, *func, env@);
                finish_unary(*e, **a, env@, before, m, *func, v, r);
            }
            Some(r)
        },
        JitExpr::Not(a) => {
            let v = compile_ok(func, env, a).unwrap();
            let ghost m = *func;
            let r = func.insn_unary(UnaryOp::Not, v);
            proof {
                finish(before, m, *func, env@);
                finish_unary(*e, **a, env@, before, m, *func, v, r);
            }
            Some(r)
        },
        JitExpr::Neg(a) => {
            let v = compile_ok(func, env, a).unwrap();
            let ghost m = *func;
            let r = func.insn_unary(UnaryOp::Neg, v);
            proof {
                finish(before, m, *func, env@);
                finish_unary(*e, **a, env@, before, m, *func, v, r);
            }
            Some(r)
        },
        JitExpr::Binary(op, a, b) => {
            let va = compile_ok(func, env, a).unwrap();
            let ghost m1 = *func;
            let vb = compile_ok(func, env, b).unwrap();
            let ghost m2 = *func;
            proof {
                lemma_extends_trans(before, m1, m2);
                lemma_holds_grows(m1, m2, va);
            }
            let r = func.insn_binary(bin_insn_exec(*op), va, vb);
            proof {
                finish(before, m2, *func, env@);
                let ca = expr_count(**a);
                let cb = expr_count(**b);
                lemma_value_at(r, id, n + ca + cb);
                lemma_infos_stable(**a, n, m1.values(), func.values());
                lemma_infos_stable(**b, n + ca, m2.values(), func.values());
                assert(func.insns() =~= before.insns() + expr_code(*e, env@, id, n, l));
            }
            Some(r)
        },
        JitExpr::Cast(a, t) => {
            let v = compile_ok(func, env, a).unwrap();
            let ghost m = *func;
            let r = func.insn_convert(v, t, false);
            proof {
                finish(before, m, *func, env@);
                finish_unary(*e, **a, env@, before, m, *func, v, r);
            }
            Some(r)
        },
        JitExpr::AddrOf(a) => {
            let v = compile_ok(func, env, a).unwrap();
            let ghost m = *func;
            let r = func.insn_unary(UnaryOp::AddressOf, v);
            proof {
                finish(before, m, *func, env@);
                finish_unary(*e, **a, env@, before, m, *func, v, r);
            }
            Some(r)
        },
        JitExpr::Method(name, a) => {
            let v = compile_ok(func, env, a).unwrap();
            let ghost m = *func;
            let op = match method_insn_exec(name) {
                Some(op) => op,
                None => {
                    proof {
                        assert(false);
                    }
                    UnaryOp::Abs
                },
            };
            let r = func.insn_unary(op, v);
            proof {
                finish(before, m, *func, env@);
                finish_unary(*e, **a, env@, before, m, *func, v, r);
            }
            Some(r)
        },
        JitExpr::Paren(a) => compile_ok(func, env, a),
        JitExpr::If(c, a) => {
            let vc = compile_ok(func, env, c).unwrap();
            let ghost m1 = *func;
            let mut skip = Label::new(func);
            func.insn_branch_if_not(vc, &mut skip);
            let ghost m2 = *func;
            proof {
                lemma_recorded_extends(m1, m2);
                lemma_extends_trans(before, m1, m2);
                lemma_holds_all_grows(m1, m2, env@);
            }
            let _ = compile_ok(func, env, a);
            let ghost m3 = *func;
            func.insn_label(&mut skip);
            proof {
                lemma_recorded_extends(m3, *func);
                lemma_extends_trans(before, m2, m3);
                lemma_extends_trans(before, m3, *func);
                lemma_holds_all_grows(m3, *func, env@);
                lemma_infos_stable(**c, n, m1.values(), func.values());
                lemma_infos_stable(**a, n + expr_count(**c), m3.values(), func.values());
                assert(func.insns() =~= before.insns() + expr_code(*e, env@, id, n, l));
            }
            None
        },
        JitExpr::IfElse(c, a, b) => {
            let vc = compile_ok(func, env, c).unwrap();
            let ghost m1 = *func;
            let mut other = Label::new(func);
            let mut end = Label::new(func);
            func.insn_branch_if_not(vc, &mut other);
            let ghost m2 = *func;
            proof {
                lemma_recorded_extends(m1, m2);
                lemma_extends_trans(before, m1, m2);
                lemma_holds_all_grows(m1, m2, env@);
            }
            let _ = compile_ok(func, env, a);
            let ghost m3 = *func;
            func.insn_branch(&mut end);
            let ghost m3b = *func;
            func.insn_label(&mut other);
            let ghost m4 = *func;
            proof {
                lemma_recorded_extends(m3, m3b);
                lemma_recorded_extends(m3b, m4);
                lemma_extends_trans(m3, m3b, m4);
                lemma_extends_trans(before, m2, m3);
                lemma_extends_trans(before, m3, m4);
                lemma_holds_all_grows(m3, m4, env@);
            }
            let _ = compile_ok(func, env, b);
            let ghost m5 = *func;
            func.insn_label(&mut end);
            proof {
                lemma_recorded_extends(m5, *func);
                lemma_extends_trans(before, m4, m5);
                lemma_extends_trans(before, m5, *func);
                lemma_holds_all_grows(m5, *func, env@);
                lemma_infos_stable(**c, n, m1.values(), func.values());
                lemma_infos_stable(**a, n + expr_count(**c), m3.values(), func.values());
                lemma_infos_stable(**b, n + expr_count(**c) + expr_count(**a), m5.values(), func.values());
                assert(func.insns() =~= before.insns() + expr_code(*e, env@, id, n, l));
            }
            None
        },
        JitExpr::Loop(a) => {
            let mut start = Label::new(func);
            func.insn_label(&mut start);
            let ghost m1 = *func;
            proof {
                lemma_recorded_extends(before, m1);
                lemma_holds_all_grows(before, m1, env@);
            }
            let _ = compile_ok(func, env, a);
            let ghost m2 = *func;
            func.insn_branch(&mut start);
            proof {
                lemma_recorded_extends(m2, *func);
                lemma_extends_trans(before, m1, m2);
                lemma_extends_trans(before, m2, *func);
                lemma_holds_all_grows(m2, *func, env@);
                lemma_infos_stable(**a, n, m2.values(), func.values());
                assert(func.insns() =~= before.insns() + expr_code(*e, env@, id, n, l));
            }
            None
        },
        JitExpr::While(c, a) => {
            let mut start = Label::new(func);
            func.insn_label(&mut start);
            let mut after = Label::new(func);
            let ghost m1 = *func;
            proof {
                lemma_recorded_extends(before, m1);
                lemma_holds_all_grows(before, m1, env@);
            }
            let vc = compile_ok(func, env, c).unwrap();
            let ghost m2 = *func;
            func.insn_branch_if_not(vc, &mut after);
            let ghost m3 = *func;
            proof {
                lemma_recorded_extends(m2, m3);
                lemma_extends_trans(before, m1, m2);
                lemma_extends_trans(before, m2, m3);
                lemma_holds_all_grows(m2, m3, env@);
            }
            let _ = compile_ok(func, env, a);
            let ghost m4 = *func;
            func.insn_branch(&mut start);
            let ghost m4b = *func;
            func.insn_label(&mut after);
            proof {
                lemma_recorded_extends(m4, m4b);
                lemma_recorded_extends(m4b, *func);
                lemma_extends_trans(m4, m4b, *func);
                lemma_extends_trans(before, m3, m4);
                lemma_extends_trans(before, m4, *func);
                lemma_holds_all_grows(m4, *func, env@);
                lemma_infos_stable(**c, n, m2.values(), func.values());
                lemma_infos_stable(**a, n + expr_count(**c), m4.values(), func.values());
                assert(func.insns() =~= before.insns() + expr_code(*e, env@, id, n, l));
            }
            None
        },
        JitExpr::Return(None) => {
            func.insn_default_return();
            proof {
                lemma_recorded_extends(before, *func);
                lemma_holds_all_grows(before, *func, env@);
                assert(func.insns() =~= before.insns() + expr_code(*e, env@, id, n, l));
            }
            None
        },
        JitExpr::Return(Some(a)) => {
            let v = compile_ok(func, env, a).unwrap();
            let ghost m = *func;
            func.insn_return(v);
            proof {
                lemma_recorded_extends(m, *func);
                lemma_extends_trans(before, m, *func);
                lemma_holds_all_grows(m, *func, env@);
                lemma_infos_stable(**a, n, m.values(), func.values());
                assert(func.insns() =~= before.insns() + expr_code(*e, env@, id, n, l));
            }
            None
        },
    }
}

/// Compile the expression with the bound values `env`. The result is the
/// value of the expression, none for a conditional, loop or return; nothing
/// is recorded when the expression has an error, which is then its first
/// one.
pub fn compile_expr(func: &mut UncompiledFunction, env: &[Value], e: &JitExpr) -> (r: Result<Option<Value>, ExprError>)
    requires
        old(func).wf(),
        old(func).holds_all(env@),
        old(func).label_count() + expr_labels(*e) < u64::MAX,
    ensures
        final(func).wf(),
        r is Err <==> !expr_ok(*e, env@.len()),
        r matches Err(err) ==> first_error(*e, env@.len(), err) && *final(func) == *old(func),
        r matches Ok(v) ==> {
            &&& final(func).extends(*old(func))
            &&& v matches Some(x) ==> final(func).holds(x)
            &&& expr_compiled(*e, env@, *old(func), *final(func), v)
        },
{
    match check_expr(e, env.len() as u128) {
        Some(err) => Err(err),
        None => Ok(compile_ok(func, env, e)),
    }
}

/// A statement of a closure body.
pub enum JitStmt {
    /// `let x = e;`: the value of `e` is bound next.
    Let(JitExpr),
    /// `e` standing as a statement without a semicolon, such as a
    /// conditional or a loop: it is compiled.
    Expr(JitExpr),
    /// `e;`: the front end passes it over, and nothing is compiled.
    Semi(JitExpr),
}

/// The number of values a statement adds.
pub open spec fn stmt_count(s: JitStmt) -> nat {
    match s {
        JitStmt::Let(e) => expr_count(e),
        JitStmt::Expr(e) => expr_count(e),
        JitStmt::Semi(_) => 0,
    }
}

/// The number of labels a statement reserves.
pub open spec fn stmt_labels(s: JitStmt) -> nat {
    match s {
        JitStmt::Let(e) => expr_labels(e),
        JitStmt::Expr(e) => expr_labels(e),
        JitStmt::Semi(_) => 0,
    }
}

/// The instructions of a statement.
pub open spec fn stmt_code(s: JitStmt, env: Seq<Value>, id: u64, n: int, l: int) -> Seq<Insn> {
    match s {
        JitStmt::Let(e) => expr_code(e, env, id, n, l),
        JitStmt::Expr(e) => expr_code(e, env, id, n, l),
        JitStmt::Semi(_) => Seq::empty(),
    }
}

/// Whether the values from `n` on are those of the statement.
pub open spec fn stmt_infos(s: JitStmt, n: int, vals: Seq<ValueInfo>) -> bool {
    match s {
        JitStmt::Let(e) => expr_infos(e, n, vals),
        JitStmt::Expr(e) => expr_infos(e, n, vals),
        JitStmt::Semi(_) => true,
    }
}

/// Whether the statement compiles with `k` bound values: a `let` needs a
/// value.
pub open spec fn stmt_ok(s: JitStmt, k: nat) -> bool {
    match s {
        JitStmt::Let(e) => value_ok(e, k),
        JitStmt::Expr(e) => expr_ok(e, k),
        JitStmt::Semi(_) => true,
    }
}

/// The number of values after the first `i` statements, counted from `n`.
pub open spec fn n_after(stmts: Seq<JitStmt>, n: int, i: int) -> int
    decreases i,
{
    if i <= 0 {
        n
    } else {
        n_after(stmts, n, i - 1) + stmt_count(stmts[i - 1])
    }
}

/// The number of labels after the first `i` statements, counted from `l`.
pub open spec fn labels_after(stmts: Seq<JitStmt>, l: int, i: int) -> int
    decreases i,
{
    if i <= 0 {
        l
    } else {
        labels_after(stmts, l, i - 1) + stmt_labels(stmts[i - 1])
    }
}

/// The bound values after the first `i` statements.
pub open spec fn env_after(stmts: Seq<JitStmt>, env: Seq<Value>, id: u64, n: int, i: int) -> Seq<Value>
    decreases i,
{
    if i <= 0 {
        env
    } else {
        let prev = env_after(stmts, env, id, n, i - 1);
        match stmts[i - 1] {
            JitStmt::Let(e) => prev.push(expr_result(e, prev, id, n_after(stmts, n, i - 1))),
            _ => prev,
        }
    }
}

/// The instructions of the first `i` statements.
pub open spec fn code_after(stmts: Seq<JitStmt>, env: Seq<Value>, id: u64, n: int, l: int, i: int) -> Seq<Insn>
    decreases i,
{
    if i <= 0 {
        Seq::empty()
    } else {
        code_after(stmts, env, id, n, l, i - 1) + stmt_code(
            stmts[i - 1],
            env_after(stmts, env, id, n, i - 1),
            id,
            n_after(stmts, n, i - 1),
            labels_after(stmts, l, i - 1),
        )
    }
}

/// Whether `vals` holds the values of the first `i` statements.
pub open spec fn infos_after(stmts: Seq<JitStmt>, n: int, i: int, vals: Seq<ValueInfo>) -> bool
    decreases i,
{
    i <= 0 || (infos_after(stmts, n, i - 1, vals) && stmt_infos(stmts[i - 1], n_after(stmts, n, i - 1), vals))
}

/// Whether the first `i` statements compile with `k` values bound before.
pub open spec fn stmts_ok(stmts: Seq<JitStmt>, k: nat, i: int) -> bool
    decreases i,
{
    i <= 0 || (stmts_ok(stmts, k, i - 1) && stmt_ok(stmts[i - 1], (k + lets_before(stmts, i - 1)) as nat))
}

/// The number of `let` statements among the first `i`.
pub open spec fn lets_before(stmts: Seq<JitStmt>, i: int) -> nat
    decreases i,
{
    if i <= 0 {
        0
    } else {
        lets_before(stmts, i - 1) + if stmts[i - 1] is Let {
            1nat
        } else {
            0nat
        }
    }
}

/// The parameters of function `id`, in order.
pub open spec fn param_values(id: u64, k: nat) -> Seq<Value> {
    Seq::new(k, |i: int| value_at(id, i))
}

/// The tail expression, if any.
pub open spec fn tail_expr(tail: Option<&JitExpr>) -> Option<JitExpr> {
    match tail {
        Some(e) => Some(*e),
        None => None,
    }
}

/// Whether the body compiles: its statements with the parameters bound,
/// then its tail expression, which needs a value.
pub open spec fn body_ok(stmts: Seq<JitStmt>, tail: Option<JitExpr>, k: nat) -> bool {
    &&& stmts_ok(stmts, k, stmts.len() as int)
    &&& tail matches Some(e) ==> value_ok(e, (k + lets_before(stmts, stmts.len() as int)) as nat)
}

/// The number of labels the body reserves.
pub open spec fn body_labels(stmts: Seq<JitStmt>, tail: Option<JitExpr>) -> int {
    labels_after(stmts, 0, stmts.len() as int) + match tail {
        Some(e) => expr_labels(e) as int,
        None => 0,
    }
}

proof fn lemma_env_len(stmts: Seq<JitStmt>, env: Seq<Value>, id: u64, n: int, i: int)
    requires
        0 <= i <= stmts.len(),
    ensures
        env_after(stmts, env, id, n, i).len() == env.len() + lets_before(stmts, i),
    decreases i,
{
    if i > 0 {
        lemma_env_len(stmts, env, id, n, i - 1);
    }
}

proof fn lemma_n_after_grows(stmts: Seq<JitStmt>, n: int, i: int, j: int)
    requires
        0 <= j <= i,
    ensures
        n_after(stmts, n, j) <= n_after(stmts, n, i),
    decreases i,
{
    if j < i {
        lemma_n_after_grows(stmts, n, i - 1, j);
    }
}

proof fn lemma_labels_after_shift(stmts: Seq<JitStmt>, l: int, i: int)
    requires
        0 <= i,
    ensures
        labels_after(stmts, l, i) == l + labels_after(stmts, 0, i),
    decreases i,
{
    if i > 0 {
        lemma_labels_after_shift(stmts, l, i - 1);
    }
}

proof fn lemma_labels_after_grows(stmts: Seq<JitStmt>, l: int, i: int, j: int)
    requires
        0 <= j <= i,
    ensures
        labels_after(stmts, l, j) <= labels_after(stmts, l, i),
    decreases i,
{
    if j < i {
        lemma_labels_after_grows(stmts, l, i - 1, j);
    }
}

proof fn lemma_infos_after_stable(stmts: Seq<JitStmt>, n: int, i: int, v1: Seq<ValueInfo>, v2: Seq<ValueInfo>)
    requires
        0 <= n,
        0 <= i <= stmts.len(),
        infos_after(stmts, n, i, v1),
        forall|j: int| 0 <= j < n_after(stmts, n, i) ==> #[trigger] v2[j] == v1[j],
    ensures
        infos_after(stmts, n, i, v2),
    decreases i,
{
    if i > 0 {
        lemma_n_after_grows(stmts, n, i, i - 1);
        lemma_n_after_grows(stmts, n, i - 1, 0);
        lemma_infos_after_stable(stmts, n, i - 1, v1, v2);
        match stmts[i - 1] {
            JitStmt::Let(e) => lemma_infos_stable(e, n_after(stmts, n, i - 1), v1, v2),
            JitStmt::Expr(e) => lemma_infos_stable(e, n_after(stmts, n, i - 1), v1, v2),
            JitStmt::Semi(_) => {},
        }
    }
}

proof fn lemma_stmts_ok_prefix(stmts: Seq<JitStmt>, k: nat, i: int)
    requires
        0 <= i <= stmts.len(),
    ensures
        stmts_ok(stmts, k, stmts.len() as int) ==> stmts_ok(stmts, k, i),
        !stmts_ok(stmts, k, i) ==> !stmts_ok(stmts, k, stmts.len() as int),
    decreases stmts.len() - i,
{
    if i < stmts.len() {
        lemma_stmts_ok_prefix(stmts, k, i + 1);
    }
}

proof fn lemma_lets_bounded(stmts: Seq<JitStmt>, i: int)
    requires
        0 <= i <= stmts.len(),
    ensures
        lets_before(stmts, i) <= i,
    decreases i,
{
    if i > 0 {
        lemma_lets_bounded(stmts, i - 1);
    }
}

/// Compile a closure body into the function, as the `jit!` front end does:
/// its parameters are bound in order, each statement is compiled in turn
/// and a `let` binds its value next, then the function returns the value of
/// the tail expression, or returns by default without one. Nothing is
/// recorded when the body has an error.
pub fn compile_body(func: &mut UncompiledFunction, stmts: &[JitStmt], tail: Option<&JitExpr>) -> (r: Result<(), ExprError>)
    requires
        old(func).wf(),
        old(func).values().len() >= param_count(old(func).signature()),
        old(func).label_count() + body_labels(stmts@, tail_expr(tail)) < u64::MAX,
    ensures
        final(func).wf(),
        r is Err <==> !body_ok(stmts@, tail_expr(tail), param_count(old(func).signature())),
        r is Err ==> *final(func) == *old(func),
        r is Ok ==> {
            let n = old(func).values().len() as int;
            let l = old(func).label_count() as int;
            let id = old(func).id();
            let env0 = param_values(id, param_count(old(func).signature()));
            let len = stmts@.len() as int;
            let nb = n_after(stmts@, n, len);
            let lb = labels_after(stmts@, l, len);
            let envb = env_after(stmts@, env0, id, n, len);
            let body = old(func).insns() + code_after(stmts@, env0, id, n, l, len);
            &&& final(func).extends(*old(func))
            &&& same_settings(*final(func), *old(func))
            &&& forall|j: int| 0 <= j < n ==> #[trigger] final(func).values()[j] == old(func).values()[j]
            &&& infos_after(stmts@, n, len, final(func).values())
            &&& match tail {
                Some(e) => {
                    &&& final(func).values().len() == nb + expr_count(*e)
                    &&& final(func).label_count() == lb + expr_labels(*e)
                    &&& expr_infos(*e, nb, final(func).values())
                    &&& final(func).insns() == body + expr_code(*e, envb, id, nb, lb) + seq![
                        Insn::Return(expr_result(*e, envb, id, nb)),
                    ]
                },
                None => {
                    &&& final(func).values().len() == nb
                    &&& final(func).label_count() == lb
                    &&& final(func).insns() == body + seq![Insn::DefaultReturn]
                },
            }
        },
{
    let ghost before = *func;
    let ghost n = func.values().len() as int;
    let ghost l = func.label_count() as int;
    let ghost id = func.id();
    let k = func.get_signature().params().size_hint().0;
    let ghost kk = param_count(func.signature());
    let mut env: Vec<Value> = Vec::new();
    let mut p: usize = 0;
    while p < k
        invariant
            k == kk,
            p <= k,
            *func == before,
            n == before.values().len(),
            id == before.id(),
            func.values().len() >= kk,
            func.id() == id,
            kk == param_count(func.signature()),
            env@ == param_values(id, kk).take(p as int),
        decreases k - p,
    {
        let v = func.get_param(p);
        proof {
            lemma_value_at(v, id, p as int);
            assert(param_values(id, kk).take(p as int + 1) =~= param_values(id, kk).take(p as int).push(v));
        }
        env.push(v);
        p = p + 1;
    }
    proof {
        assert(param_values(id, kk).take(k as int) =~= param_values(id, kk));
    }
    let ghost env0 = env@;
    let mut bound: u128 = k as u128;
    let mut i: usize = 0;
    while i < stmts.len()
        invariant
            i <= stmts@.len(),
            stmts_ok(stmts@, kk, i as int),
            bound == kk + lets_before(stmts@, i as int),
            kk <= u32::MAX,
            *func == before,
            before == *old(func),
            before.wf(),
            env@ == env0,
            env0 == param_values(id, kk),
            k == kk,
            kk == param_count(before.signature()),
            kk <= n,
            n == before.values().len(),
            id == before.id(),
        decreases stmts@.len() - i,
    {
        let check = match &stmts[i] {
            JitStmt::Let(e) => check_value(e, bound),
            JitStmt::Expr(e) => check_expr(e, bound),
            JitStmt::Semi(_) => None,
        };
        match check {
            Some(err) => {
                proof {
                    assert(!stmts_ok(stmts@, kk, i as int + 1));
                    lemma_stmts_ok_prefix(stmts@, kk, i as int + 1);
                }
                return Err(err);
            },
            None => {},
        }
        if let JitStmt::Let(_) = &stmts[i] {
            proof {
                lemma_lets_bounded(stmts@, i as int);
            }
            bound = bound + 1;
        }
        i = i + 1;
    }
    match tail {
        Some(e) => match check_value(e, bound) {
            Some(err) => {
                proof {
                    assert(tail_expr(tail) == Some(*e));
                }
                return Err(err);
            },
            None => {},
        },
        None => {},
    }
    proof {
        lemma_recorded_extends(before, *func);
        assert forall|j: int| 0 <= j < env@.len() implies func.holds(#[trigger] env@[j]) by {
            lemma_value_at(env@[j], id, j);
        }
        assert(func.insns() =~= before.insns() + code_after(stmts@, env0, id, n, l, 0));
        lemma_labels_after_shift(stmts@, l, stmts@.len() as int);
    }
    i = 0;
    while i < stmts.len()
        invariant
            i <= stmts@.len(),
            stmts_ok(stmts@, kk, stmts@.len() as int),
            func.wf(),
            func.extends(before),
            same_settings(*func, before),
            func.id() == id,
            n == before.values().len(),
            l == before.label_count(),
            0 <= n,
            env0 == param_values(id, kk),
            kk <= n,
            env@ == env_after(stmts@, env0, id, n, i as int),
            func.holds_all(env@),
            func.values().len() == n_after(stmts@, n, i as int),
            func.label_count() == labels_after(stmts@, l, i as int),
            labels_after(stmts@, l, stmts@.len() as int) + match tail {
                Some(e) => expr_labels(*e) as int,
                None => 0,
            } < u64::MAX,
            forall|j: int| 0 <= j < n ==> #[trigger] func.values()[j] == before.values()[j],
            infos_after(stmts@, n, i as int, func.values()),
            func.insns() == before.insns() + code_after(stmts@, env0, id, n, l, i as int),
        decreases stmts@.len() - i,
    {
        proof {
            lemma_stmts_ok_prefix(stmts@, kk, i as int + 1);
            lemma_env_len(stmts@, env0, id, n, i as int);
            lemma_labels_after_grows(stmts@, l, stmts@.len() as int, i as int + 1);
        }
        let ghost m = *func;
        match &stmts[i] {
            JitStmt::Let(e) => {
                let v = compile_ok(func, env.as_slice(), e).unwrap();
                proof {
                    lemma_extends_trans(before, m, *func);
                    lemma_n_after_grows(stmts@, n, i as int, 0);
                    lemma_infos_after_stable(stmts@, n, i as int, m.values(), func.values());
                    assert(func.insns() =~= before.insns() + code_after(stmts@, env0, id, n, l, i as int + 1));
                }
                env.push(v);
            },
            JitStmt::Expr(e) => {
                let _ = compile_ok(func, env.as_slice(), e);
                proof {
                    lemma_extends_trans(before, m, *func);
                    lemma_n_after_grows(stmts@, n, i as int, 0);
                    lemma_infos_after_stable(stmts@, n, i as int, m.values(), func.values());
                    assert(func.insns() =~= before.insns() + code_after(stmts@, env0, id, n, l, i as int + 1));
                }
            },
            JitStmt::Semi(_) => {
                proof {
                    assert(func.insns() =~= before.insns() + code_after(stmts@, env0, id, n, l, i as int + 1));
                }
            },
        }
        i = i + 1;
    }
    proof {
        lemma_n_after_grows(stmts@, n, stmts@.len() as int, 0);
        lemma_env_len(stmts@, env0, id, n, stmts@.len() as int);
    }
    let ghost mb = *func;
    match tail {
        Some(e) => {
            let v = compile_ok(func, env.as_slice(), e).unwrap();
            let ghost mt = *func;
            proof {
                lemma_extends_trans(before, mb, mt);
                lemma_infos_after_stable(stmts@, n, stmts@.len() as int, mb.values(), mt.values());
            }
            func.insn_return(v);
            proof {
                lemma_recorded_extends(mt, *func);
                lemma_extends_trans(before, mt, *func);
                assert(func.insns() =~= before.insns() + code_after(stmts@, env0, id, n, l, stmts@.len() as int) + expr_code(*e, env@, id, mb.values().len() as int, mb.label_count() as int) + seq![Insn::Return(v)]);
            }
        },
        None => {
            func.insn_default_return();
            proof {
                lemma_recorded_extends(mb, *func);
                lemma_extends_trans(before, mb, *func);
                assert(func.insns() =~= before.insns() + code_after(stmts@, env0, id, n, l, stmts@.len() as int) + seq![Insn::DefaultReturn]);
            }
        },
    }
    Ok(())
}

/// Each operator of the language is the instruction of the same name.
pub proof fn lemma_operator_table()
    ensures
        bin_insn(BinOp::Add) == BinaryOp::Add,
        bin_insn(BinOp::Sub) == BinaryOp::Sub,
        bin_insn(BinOp::Mul) == BinaryOp::Mul,
        bin_insn(BinOp::Div) == BinaryOp::Div,
        bin_insn(BinOp::Rem) == BinaryOp::Rem,
        bin_insn(BinOp::And) == BinaryOp::And,
        bin_insn(BinOp::Or) == BinaryOp::Or,
        bin_insn(BinOp::Xor) == BinaryOp::Xor,
        bin_insn(BinOp::Shl) == BinaryOp::Shl,
        bin_insn(BinOp::Shr) == BinaryOp::Shr,
        bin_insn(BinOp::Eq) == BinaryOp::Eq,
        bin_insn(BinOp::Lt) == BinaryOp::Lt,
        bin_insn(BinOp::Le) == BinaryOp::Le,
        bin_insn(BinOp::Ne) == BinaryOp::Ne,
        bin_insn(BinOp::Ge) == BinaryOp::Ge,
        bin_insn(BinOp::Gt) == BinaryOp::Gt,
{
}

/// Compiling `a op b` records, after the code of its operands, the binary
/// instruction of the same operator on the operands' values, giving the
/// next new value.
pub proof fn lemma_binary_records(op: BinOp, a: JitExpr, b: JitExpr, env: Seq<Value>, id: u64, n: int, l: int)
    ensures
        ({
            let code = expr_code(JitExpr::Binary(op, Box::new(a), Box::new(b)), env, id, n, l);
            let ra = expr_result(a, env, id, n);
            let rb = expr_result(b, env, id, n + expr_count(a));
            let d = value_at(id, n + expr_count(a) + expr_count(b));
            &&& code == expr_code(a, env, id, n, l) + expr_code(b, env, id, n + expr_count(a), l + expr_labels(a))
                + seq![code.last()]
            &&& expr_result(JitExpr::Binary(op, Box::new(a), Box::new(b)), env, id, n) == d
            &&& op == BinOp::Add ==> code.last() == Insn::Binary(BinaryOp::Add, ra, rb, d)
            &&& op == BinOp::Sub ==> code.last() == Insn::Binary(BinaryOp::Sub, ra, rb, d)
            &&& op == BinOp::Mul ==> code.last() == Insn::Binary(BinaryOp::Mul, ra, rb, d)
            &&& op == BinOp::Div ==> code.last() == Insn::Binary(BinaryOp::Div, ra, rb, d)
            &&& op == BinOp::Rem ==> code.last() == Insn::Binary(BinaryOp::Rem, ra, rb, d)
            &&& op == BinOp::And ==> code.last() == Insn::Binary(BinaryOp::And, ra, rb, d)
            &&& op == BinOp::Or ==> code.last() == Insn::Binary(BinaryOp::Or, ra, rb, d)
            &&& op == BinOp::Xor ==> code.last() == Insn::Binary(BinaryOp::Xor, ra, rb, d)
            &&& op == BinOp::Shl ==> code.last() == Insn::Binary(BinaryOp::Shl, ra, rb, d)
            &&& op == BinOp::Shr ==> code.last() == Insn::Binary(BinaryOp::Shr, ra, rb, d)
            &&& op == BinOp::Eq ==> code.last() == Insn::Binary(BinaryOp::Eq, ra, rb, d)
            &&& op == BinOp::Lt ==> code.last() == Insn::Binary(BinaryOp::Lt, ra, rb, d)
            &&& op == BinOp::Le ==> code.last() == Insn::Binary(BinaryOp::Le, ra, rb, d)
            &&& op == BinOp::Ne ==> code.last() == Insn::Binary(BinaryOp::Ne, ra, rb, d)
            &&& op == BinOp::Ge ==> code.last() == Insn::Binary(BinaryOp::Ge, ra, rb, d)
            &&& op == BinOp::Gt ==> code.last() == Insn::Binary(BinaryOp::Gt, ra, rb, d)
        }),
{
    let code = expr_code(JitExpr::Binary(op, Box::new(a), Box::new(b)), env, id, n, l);
    assert(code.drop_last() =~= expr_code(a, env, id, n, l) + expr_code(b, env, id, n + expr_count(a), l + expr_labels(a)));
    assert(code =~= code.drop_last() + seq![code.last()]);
}

/// Each math method compiles to the unary instruction of the same name,
/// and no other name is a math method.
pub proof fn lemma_method_table()
    ensures
        method_insn("abs"@) == Some(UnaryOp::Abs),
        method_insn("acos"@) == Some(UnaryOp::Acos),
        method_insn("asin"@) == Some(UnaryOp::Asin),
        method_insn("atan"@) == Some(UnaryOp::Atan),
        method_insn("ceil"@) == Some(UnaryOp::Ceil),
        method_insn("cos"@) == Some(UnaryOp::Cos),
        method_insn("floor"@) == Some(UnaryOp::Floor),
        method_insn("is_finite"@) == Some(UnaryOp::IsFinite),
        method_insn("is_infinite"@) == Some(UnaryOp::IsInf),
        method_insn("is_nan"@) == Some(UnaryOp::IsNan),
        method_insn("sin"@) == Some(UnaryOp::Sin),
        method_insn("sqrt"@) == Some(UnaryOp::Sqrt),
        method_insn("tan"@) == Some(UnaryOp::Tan),
        method_insn("trunc"@) == Some(UnaryOp::Trunc),
{
    reveal_strlit("abs");
    reveal_strlit("acos");
    reveal_strlit("asin");
    reveal_strlit("atan");
    reveal_strlit("ceil");
    reveal_strlit("cos");
    reveal_strlit("floor");
    reveal_strlit("is_finite");
    reveal_strlit("is_infinite");
    reveal_strlit("is_nan");
    reveal_strlit("sin");
    reveal_strlit("sqrt");
    reveal_strlit("tan");
    reveal_strlit("trunc");
    assert("acos"@.len() != "abs"@.len());
    assert("asin"@.len() != "abs"@.len());
    assert("asin"@[1] != "acos"@[1]);
    assert("atan"@.len() != "abs"@.len());
    assert("atan"@[1] != "acos"@[1]);
    assert("atan"@[1] != "asin"@[1]);
    assert("ceil"@.len() != "abs"@.len());
    assert("ceil"@[0] != "acos"@[0]);
    assert("ceil"@[0] != "asin"@[0]);
    assert("ceil"@[0] != "atan"@[0]);
    assert("cos"@[0] != "abs"@[0]);
    assert("cos"@.len() != "acos"@.len());
    assert("cos"@.len() != "asin"@.len());
    assert("cos"@.len() != "atan"@.len());
    assert("cos"@.len() != "ceil"@.len());
    assert("floor"@.len() != "abs"@.len());
    assert("floor"@.len() != "acos"@.len());
    assert("floor"@.len() != "asin"@.len());
    assert("floor"@.len() != "atan"@.len());
    assert("floor"@.len() != "ceil"@.len());
    assert("floor"@.len() != "cos"@.len());
    assert("is_finite"@.len() != "abs"@.len());
    assert("is_finite"@.len() != "acos"@.len());
    assert("is_finite"@.len() != "asin"@.len());
    assert("is_finite"@.len() != "atan"@.len());
    assert("is_finite"@.len() != "ceil"@.len());
    assert("is_finite"@.len() != "cos"@.len());
    assert("is_finite"@.len() != "floor"@.len());
    assert("is_infinite"@.len() != "abs"@.len());
    assert("is_infinite"@.len() != "acos"@.len());
    assert("is_infinite"@.len() != "asin"@.len());
    assert("is_infinite"@.len() != "atan"@.len());
    assert("is_infinite"@.len() != "ceil"@.len());
    assert("is_infinite"@.len() != "cos"@.len());
    assert("is_infinite"@.len() != "floor"@.len());
    assert("is_infinite"@.len() != "is_finite"@.len());
    assert("is_nan"@.len() != "abs"@.len());
    assert("is_nan"@.len() != "acos"@.len());
    assert("is_nan"@.len() != "asin"@.len());
    assert("is_nan"@.len() != "atan"@.len());
    assert("is_nan"@.len() != "ceil"@.len());
    assert("is_nan"@.len() != "cos"@.len());
    assert("is_nan"@.len() != "floor"@.len());
    assert("is_nan"@.len() != "is_finite"@.len());
    assert("is_nan"@.len() != "is_infinite"@.len());
    assert("sin"@[0] != "abs"@[0]);
    assert("sin"@.len() != "acos"@.len());
    assert("sin"@.len() != "asin"@.len());
    assert("sin"@.len() != "atan"@.len());
    assert("sin"@.len() != "ceil"@.len());
    assert("sin"@[0] != "cos"@[0]);
    assert("sin"@.len() != "floor"@.len());
    assert("sin"@.len() != "is_finite"@.len());
    assert("sin"@.len() != "is_infinite"@.len());
    assert("sin"@.len() != "is_nan"@.len());
    assert("sqrt"@.len() != "abs"@.len());
    assert("sqrt"@[0] != "acos"@[0]);
    assert("sqrt"@[0] != "asin"@[0]);
    assert("sqrt"@[0] != "atan"@[0]);
    assert("sqrt"@[0] != "ceil"@[0]);
    assert("sqrt"@.len() != "cos"@.len());
    assert("sqrt"@.len() != "floor"@.len());
    assert("sqrt"@.len() != "is_finite"@.len());
    assert("sqrt"@.len() != "is_infinite"@.len());
    assert("sqrt"@.len() != "is_nan"@.len());
    assert("sqrt"@.len() != "sin"@.len());
    assert("tan"@[0] != "abs"@[0]);
    assert("tan"@.len() != "acos"@.len());
    assert("tan"@.len() != "asin"@.len());
    assert("tan"@.len() != "atan"@.len());
    assert("tan"@.len() != "ceil"@.len());
    assert("tan"@[0] != "cos"@[0]);
    assert("tan"@.len() != "floor"@.len());
    assert("tan"@.len() != "is_finite"@.len());
    assert("tan"@.len() != "is_infinite"@.len());
    assert("tan"@.len() != "is_nan"@.len());
    assert("tan"@[0] != "sin"@[0]);
    assert("tan"@.len() != "sqrt"@.len());
    assert("trunc"@.len() != "abs"@.len());
    assert("trunc"@.len() != "acos"@.len());
    assert("trunc"@.len() != "asin"@.len());
    assert("trunc"@.len() != "atan"@.len());
    assert("trunc"@.len() != "ceil"@.len());
    assert("trunc"@.len() != "cos"@.len());
    assert("trunc"@[0] != "floor"@[0]);
    assert("trunc"@.len() != "is_finite"@.len());
    assert("trunc"@.len() != "is_infinite"@.len());
    assert("trunc"@.len() != "is_nan"@.len());
    assert("trunc"@.len() != "sin"@.len());
    assert("trunc"@.len() != "sqrt"@.len());
    assert("trunc"@.len() != "tan"@.len());
}

/// Compiling the method call `a.name()` of a math method records, after the
/// code of `a`, the unary instruction of the same name on its value, giving
/// the next new value.
pub proof fn lemma_method_records(name: String, a: JitExpr, env: Seq<Value>, id: u64, n: int, l: int)
    ensures
        ({
            let e = JitExpr::Method(name, Box::new(a));
            let code = expr_code(e, env, id, n, l);
            let ra = expr_result(a, env, id, n);
            let d = value_at(id, n + expr_count(a));
            &&& code == expr_code(a, env, id, n, l) + seq![code.last()]
            &&& expr_result(e, env, id, n) == d
            &&& name@ == "abs"@ ==> code.last() == Insn::Unary(UnaryOp::Abs, ra, d)
            &&& name@ == "acos"@ ==> code.last() == Insn::Unary(UnaryOp::Acos, ra, d)
            &&& name@ == "asin"@ ==> code.last() == Insn::Unary(UnaryOp::Asin, ra, d)
            &&& name@ == "atan"@ ==> code.last() == Insn::Unary(UnaryOp::Atan, ra, d)
            &&& name@ == "ceil"@ ==> code.last() == Insn::Unary(UnaryOp::Ceil, ra, d)
            &&& name@ == "cos"@ ==> code.last() == Insn::Unary(UnaryOp::Cos, ra, d)
            &&& name@ == "floor"@ ==> code.last() == Insn::Unary(UnaryOp::Floor, ra, d)
            &&& name@ == "is_finite"@ ==> code.last() == Insn::Unary(UnaryOp::IsFinite, ra, d)
            &&& name@ == "is_infinite"@ ==> code.last() == Insn::Unary(UnaryOp::IsInf, ra, d)
            &&& name@ == "is_nan"@ ==> code.last() == Insn::Unary(UnaryOp::IsNan, ra, d)
            &&& name@ == "sin"@ ==> code.last() == Insn::Unary(UnaryOp::Sin, ra, d)
            &&& name@ == "sqrt"@ ==> code.last() == Insn::Unary(UnaryOp::Sqrt, ra, d)
            &&& name@ == "tan"@ ==> code.last() == Insn::Unary(UnaryOp::Tan, ra, d)
            &&& name@ == "trunc"@ ==> code.last() == Insn::Unary(UnaryOp::Trunc, ra, d)
        }),
{
    lemma_method_table();
    let e = JitExpr::Method(name, Box::new(a));
    let code = expr_code(e, env, id, n, l);
    assert(code.drop_last() =~= expr_code(a, env, id, n, l));
    assert(code =~= code.drop_last() + seq![code.last()]);
}

/// Compiling `!a`, `-a`, `&a`, `*a` or `a as t` records, after the code of
/// `a`, the instruction of that form on the value of `a`: a logical not, a
/// negation, taking the address, a load from offset 0 of the pointee type,
/// or a conversion to `t` without an overflow check.
pub proof fn lemma_unary_records(a: JitExpr, t: Type, env: Seq<Value>, id: u64, n: int, l: int)
    ensures
        ({
            let ra = expr_result(a, env, id, n);
            let d = value_at(id, n + expr_count(a));
            let pre = expr_code(a, env, id, n, l);
            &&& expr_code(JitExpr::Not(Box::new(a)), env, id, n, l) == pre.push(Insn::Unary(UnaryOp::Not, ra, d))
            &&& expr_code(JitExpr::Neg(Box::new(a)), env, id, n, l) == pre.push(Insn::Unary(UnaryOp::Neg, ra, d))
            &&& expr_code(JitExpr::AddrOf(Box::new(a)), env, id, n, l) == pre.push(Insn::Unary(UnaryOp::AddressOf, ra, d))
            &&& expr_code(JitExpr::Deref(Box::new(a), t), env, id, n, l) == pre.push(Insn::LoadRelative(ra, 0, t, d))
            &&& expr_code(JitExpr::Cast(Box::new(a), t), env, id, n, l) == pre.push(Insn::Convert(ra, t, false, d))
        }),
{
    let pre = expr_code(a, env, id, n, l);
    assert(expr_code(JitExpr::Not(Box::new(a)), env, id, n, l) =~= pre.push(Insn::Unary(UnaryOp::Not, expr_result(a, env, id, n), value_at(id, n + expr_count(a)))));
    assert(expr_code(JitExpr::Neg(Box::new(a)), env, id, n, l) =~= pre.push(Insn::Unary(UnaryOp::Neg, expr_result(a, env, id, n), value_at(id, n + expr_count(a)))));
    assert(expr_code(JitExpr::AddrOf(Box::new(a)), env, id, n, l) =~= pre.push(Insn::Unary(UnaryOp::AddressOf, expr_result(a, env, id, n), value_at(id, n + expr_count(a)))));
    assert(expr_code(JitExpr::Deref(Box::new(a), t), env, id, n, l) =~= pre.push(Insn::LoadRelative(expr_result(a, env, id, n), 0, t, value_at(id, n + expr_count(a)))));
    assert(expr_code(JitExpr::Cast(Box::new(a), t), env, id, n, l) =~= pre.push(Insn::Convert(expr_result(a, env, id, n), t, false, value_at(id, n + expr_count(a)))));
}

/// `if c { a }` runs `a` only when `c` holds: after the code of `c` it
/// branches, when `c` is false, to a new label placed after the code of
/// `a`. `return e` returns the value of `e`, and `return` alone returns by
/// default.
pub proof fn lemma_if_and_return_records(c: JitExpr, a: JitExpr, env: Seq<Value>, id: u64, n: int, l: int)
    ensures
        ({
            let skip = (l + expr_labels(c)) as u64;
            &&& expr_code(JitExpr::If(Box::new(c), Box::new(a)), env, id, n, l) == expr_code(c, env, id, n, l).push(
                Insn::BranchIfNot(expr_result(c, env, id, n), skip),
            ) + expr_code(a, env, id, n + expr_count(c), l + expr_labels(c) + 1).push(Insn::Label(skip))
            &&& expr_code(JitExpr::Return(Some(Box::new(a))), env, id, n, l) == expr_code(a, env, id, n, l).push(
                Insn::Return(expr_result(a, env, id, n)),
            )
            &&& expr_code(JitExpr::Return(None), env, id, n, l) == seq![Insn::DefaultReturn]
        }),
{
    let skip = (l + expr_labels(c)) as u64;
    assert(expr_code(JitExpr::If(Box::new(c), Box::new(a)), env, id, n, l) =~= expr_code(c, env, id, n, l).push(
        Insn::BranchIfNot(expr_result(c, env, id, n), skip),
    ) + expr_code(a, env, id, n + expr_count(c), l + expr_labels(c) + 1).push(Insn::Label(skip)));
    assert(expr_code(JitExpr::Return(Some(Box::new(a))), env, id, n, l) =~= expr_code(a, env, id, n, l).push(
        Insn::Return(expr_result(a, env, id, n)),
    ));
}

/// `if c { a } else { b }` runs `a` when `c` holds and `b` otherwise: it
/// branches to the start of `b` when `c` is false, and after `a` branches
/// past `b`. `loop { a }` branches back to a label before `a`. `while c { a }`
/// tests `c` at a label before it, leaves to a label at the end when `c` is
/// false, and after `a` branches back to the test.
pub proof fn lemma_else_and_loops_record(c: JitExpr, a: JitExpr, b: JitExpr, env: Seq<Value>, id: u64, n: int, l: int)
    ensures
        ({
            let other = (l + expr_labels(c)) as u64;
            let end = (l + expr_labels(c) + 1) as u64;
            let na = n + expr_count(c);
            let la = l + expr_labels(c) + 2;
            expr_code(JitExpr::IfElse(Box::new(c), Box::new(a), Box::new(b)), env, id, n, l) == expr_code(c, env, id, n, l).push(
                Insn::BranchIfNot(expr_result(c, env, id, n), other),
            ) + expr_code(a, env, id, na, la).push(Insn::Branch(end)).push(Insn::Label(other)) + expr_code(
                b,
                env,
                id,
                na + expr_count(a),
                la + expr_labels(a),
            ).push(Insn::Label(end))
        }),
        expr_code(JitExpr::Loop(Box::new(a)), env, id, n, l) == seq![Insn::Label(l as u64)] + expr_code(a, env, id, n, l + 1).push(
            Insn::Branch(l as u64),
        ),
        expr_code(JitExpr::While(Box::new(c), Box::new(a)), env, id, n, l) == seq![Insn::Label(l as u64)] + expr_code(c, env, id, n, l + 2).push(
            Insn::BranchIfNot(expr_result(c, env, id, n), (l + 1) as u64),
        ) + expr_code(a, env, id, n + expr_count(c), l + 2 + expr_labels(c)).push(Insn::Branch(l as u64)).push(
            Insn::Label((l + 1) as u64),
        ),
{
    let other = (l + expr_labels(c)) as u64;
    let end = (l + expr_labels(c) + 1) as u64;
    let na = n + expr_count(c);
    let la = l + expr_labels(c) + 2;
    assert(expr_code(JitExpr::IfElse(Box::new(c), Box::new(a), Box::new(b)), env, id, n, l) =~= expr_code(c, env, id, n, l).push(
        Insn::BranchIfNot(expr_result(c, env, id, n), other),
    ) + expr_code(a, env, id, na, la).push(Insn::Branch(end)).push(Insn::Label(other)) + expr_code(
        b,
        env,
        id,
        na + expr_count(a),
        la + expr_labels(a),
    ).push(Insn::Label(end)));
    assert(expr_code(JitExpr::Loop(Box::new(a)), env, id, n, l) =~= seq![Insn::Label(l as u64)] + expr_code(a, env, id, n, l + 1).push(
        Insn::Branch(l as u64),
    ));
    assert(expr_code(JitExpr::While(Box::new(c), Box::new(a)), env, id, n, l) =~= seq![Insn::Label(l as u64)] + expr_code(c, env, id, n, l + 2).push(
        Insn::BranchIfNot(expr_result(c, env, id, n), (l + 1) as u64),
    ) + expr_code(a, env, id, n + expr_count(c), l + 2 + expr_labels(c)).push(Insn::Branch(l as u64)).push(
        Insn::Label((l + 1) as u64),
    ));
}

} // verus!
