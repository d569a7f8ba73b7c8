//! Functions under construction: values, labels and the instructions that
//! are recorded for them, in the order they are made.
use vstd::prelude::*;
use crate::context::Context;
use crate::flags::CallFlags;
use crate::types::{Ty, Type};
use crate::compile::Compile;

verus! {

/// A value of a function: a constant, a local variable, a parameter, or the
/// result of an instruction.
#[derive(PartialEq, Eq, Structural, Clone, Copy, Debug)]
pub struct Value {
    func: u64,
    index: usize,
}

/// A label in the code that can be branched to in instructions
#[derive(PartialEq, Eq, Structural, Clone, Copy, Debug)]
pub struct Label {
    func: u64,
    value: u64,
}

/// Operations of two values.
#[derive(PartialEq, Eq, Structural, Clone, Copy, Debug)]
pub enum BinaryOp {
    Mul,
    MulOvf,
    Add,
    AddOvf,
    Sub,
    SubOvf,
    Div,
    Rem,
    Le,
    Ge,
    Lt,
    Gt,
    Eq,
    Ne,
    And,
    Or,
    Xor,
    Shl,
    Shr,
    UShr,
    Atan2,
    Pow,
    Min,
    Max,
}

/// Operations of one value.
#[derive(PartialEq, Eq, Structural, Clone, Copy, Debug)]
pub enum UnaryOp {
    Not,
    Neg,
    Load,
    Acos,
    Asin,
    Atan,
    Ceil,
    Cos,
    Cosh,
    Exp,
    Floor,
    Log,
    Log10,
    Rint,
    Round,
    Sin,
    Sinh,
    Sqrt,
    Tan,
    Tanh,
    Trunc,
    IsNan,
    IsFinite,
    IsInf,
    Abs,
    Sign,
    Alloca,
    AddressOf,
}

/// How a value came to be.
#[derive(PartialEq, Eq, Structural, Clone, Copy, Debug)]
pub enum ValueOrigin {
    /// The parameter at this index.
    Param(u32),
    /// A value made by `Value::new`.
    Local,
    /// A constant with this bit pattern, read by its type.
    Constant(u64),
    /// The result of an instruction.
    Result,
}

/// What a function knows of one of its values.
pub struct ValueInfo {
    /// The type, when it is fixed on creation; the code generator gives the
    /// others theirs.
    pub ty: Option<Type>,
    /// How the value came to be.
    pub origin: ValueOrigin,
    /// Whether the value's address may be taken.
    pub addressable: bool,
}

/// One recorded instruction. The last value of those that produce one is
/// the result.
pub enum Insn {
    Binary(BinaryOp, Value, Value, Value),
    Unary(UnaryOp, Value, Value),
    Convert(Value, Type, bool, Value),
    LoadRelative(Value, usize, Type, Value),
    Store(Value, Value),
    StoreRelative(Value, usize, Value),
    Label(u64),
    Branch(u64),
    BranchIf(Value, u64),
    BranchIfNot(Value, u64),
    JumpTable(Value, Vec<u64>),
    UsesCatcher,
    Throw(Value),
    Return(Value),
    DefaultReturn,
    Call(Option<String>, u64, Option<Type>, Vec<Value>, CallFlags, Value),
    CallIndirect(Value, Type, Vec<Value>, CallFlags, Value),
    CallNative(Option<String>, usize, Type, Vec<Value>, CallFlags, Value),
    Memcpy(Value, Value, Value),
    Memmove(Value, Value, Value),
    Memset(Value, Value, Value),
    /// Store the last value relative to the first, a structure, at the
    /// offset of the field at this index in the structure's layout.
    StoreField(Value, u32, Value),
    /// Allocate on the stack room for as many values of the type as the
    /// first value counts; the last value is the address of that room.
    AllocaArray(Value, Type, Value),
}

impl Value {
    /// The function this value belongs to.
    pub closed spec fn func_id(&self) -> u64 {
        self.func
    }

    /// The position of the value among its function's values.
    pub closed spec fn position(&self) -> usize {
        self.index
    }

    /// The position of the value among its function's values.
    pub fn index(&self) -> (r: usize)
        ensures
            r == self.position(),
    {
        self.index
    }

    /// The identity of the function which made this value.
    pub fn get_function(&self) -> (r: u64)
        ensures
            r == self.func_id(),
    {
        self.func
    }

    /// Create a new value of the function, of the type given. The value
    /// starts off as a temporary of the current block.
    pub fn new(func: &mut UncompiledFunction, value_type: &Ty) -> (r: Value)
        requires
            old(func).wf(),
        ensures
            final(func).wf(),
            final(func).added_value(
                *old(func),
                r,
                ValueInfo { ty: Some(*value_type), origin: ValueOrigin::Local, addressable: false },
            ),
            final(func).insns() == old(func).insns(),
            final(func).is_temp(r),
            final(func).value_block(r) == block_at(old(func).insns(), old(func).insns().len() as int),
    {
        proof {
            lemma_no_refs_beyond(*func, func.values().len());
        }
        func.push_value(Some(value_type.clone()), ValueOrigin::Local)
    }

    /// Whether the value is a temporary: one that only instructions of its
    /// own block refer to.
    pub fn is_temp(&self, func: &UncompiledFunction) -> (b: bool)
        requires
            func.wf(),
        ensures
            b == func.is_temp(*self),
    {
        if self.func != func.id || self.index >= func.values.len() {
            return false;
        }
        proof {
            assert(func.insns@.take(func.insns@.len() as int) =~= func.insns@);
        }
        let origin_block: u128 = match func.values[self.index].origin {
            ValueOrigin::Constant(_) => {
                return false;
            },
            ValueOrigin::Param(_) => 0,
            ValueOrigin::Result => {
                let m = func.marks[self.index];
                if m < func.insns.len() {
                    block_after(&func.insns, m + 1)
                } else {
                    block_after(&func.insns, func.insns.len())
                }
            },
            ValueOrigin::Local => {
                let m = func.marks[self.index];
                if m <= func.insns.len() {
                    block_after(&func.insns, m)
                } else {
                    block_after(&func.insns, func.insns.len())
                }
            },
        };
        let n = func.insns.len();
        let mut state = (1u128, true, false);
        let mut k: usize = 0;
        while k < n
            invariant
                n == func.insns@.len(),
                k <= n,
                state.0 <= k + 1,
                state.0 == block_state(func.insns@.take(k as int)).0,
                state.1 == block_state(func.insns@.take(k as int)).1,
                state.2 == block_state(func.insns@.take(k as int)).2,
                origin_block == func.value_block(*self),
                func.holds(*self),
                !(func.values()[self.position() as int].origin is Constant),
                forall|j: int| 0 <= j < k && #[trigger] refers(func.insns()[j], *self) ==> block_at(func.insns(), j)
                    == func.value_block(*self),
            decreases n - k,
        {
            proof {
                assert(func.insns@.take(k as int + 1).drop_last() =~= func.insns@.take(k as int));
                assert(func.insns@.take(k as int + 1).last() == func.insns@[k as int]);
            }
            let insn = &func.insns[k];
            if refers_exec(insn, self) && state.0 != origin_block {
                return false;
            }
            state = step_exec(state, insn);
            k = k + 1;
        }
        true
    }

    /// Get the type of the value, when it is fixed on creation.
    pub fn get_type<'f>(&self, func: &'f UncompiledFunction) -> (r: Option<&'f Ty>)
        requires
            func.holds(*self),
        ensures
            r matches Some(t) ==> func.values()[self.position() as int].ty == Some(*t),
            r is None ==> func.values()[self.position() as int].ty is None,
    {
        match &func.values[self.index].ty {
            Some(t) => Some(t),
            None => None,
        }
    }

    /// Determine if a value is addressable.
    pub fn is_addressable(&self, func: &UncompiledFunction) -> (r: bool)
        requires
            func.holds(*self),
        ensures
            r == func.values()[self.position() as int].addressable,
    {
        func.values[self.index].addressable
    }

    /// Set a flag on a value to indicate that it is addressable.
    /// This should be used when you want to take the address of a value (e.g.
    /// `&variable` in Rust/C).  The value is guaranteed to not be stored in a
    /// register across a function call.
    pub fn set_addressable(&self, func: &mut UncompiledFunction)
        requires
            old(func).wf(),
            old(func).holds(*self),
        ensures
            final(func).wf(),
            final(func).same_but_values(*old(func)),
            final(func).values().len() == old(func).values().len(),
            forall|i: int|
                0 <= i < old(func).values().len() ==> final(func).values()[i] == if i
                    == self.position() {
                    ValueInfo {
                        ty: old(func).values()[i].ty,
                        origin: old(func).values()[i].origin,
                        addressable: true,
                    }
                } else {
                    old(func).values()[i]
                },
    {
        func.mark_addressable(self.index);
    }
}

impl Label {
    /// The function this label belongs to.
    pub closed spec fn func_id(&self) -> u64 {
        self.func
    }

    /// The number of the label within its function.
    pub closed spec fn number(&self) -> u64 {
        self.value
    }

    /// Create a new label
    pub fn new(func: &mut UncompiledFunction) -> (r: Label)
        requires
            old(func).wf(),
            old(func).label_count() < u64::MAX,
        ensures
            final(func).wf(),
            r.func_id() == old(func).id(),
            r.number() == old(func).label_count(),
            final(func).label_count() == old(func).label_count() + 1,
            final(func).same_but_labels(*old(func)),
    {
        func.reserve_label()
    }

    /// The number of the label within its function.
    pub fn get_value(&self) -> (r: u64)
        ensures
            r == self.number(),
    {
        self.value
    }
}

/// The value at `pos` of the function `id`.
pub closed spec fn value_at(id: u64, pos: int) -> Value {
    Value { func: id, index: pos as usize }
}

/// A value is the value at its position of its function.
pub proof fn lemma_value_at(v: Value, id: u64, pos: int)
    requires
        0 <= pos <= usize::MAX,
    ensures
        value_at(id, pos).func_id() == id,
        value_at(id, pos).position() == pos,
        v.func_id() == id && v.position() == pos ==> v == value_at(id, pos),
{
}

/// Whether a value belongs to function `id` among its first `n` values.
pub open spec fn value_in(v: Value, id: u64, n: nat) -> bool {
    v.func_id() == id && v.position() < n
}

/// Whether all values of a list belong to function `id` among its first `n`.
pub open spec fn values_in(vs: Seq<Value>, id: u64, n: nat) -> bool {
    forall|i: int| 0 <= i < vs.len() ==> value_in(#[trigger] vs[i], id, n)
}

/// Whether all labels of a list are among the first `l` labels.
pub open spec fn labels_in(ls: Seq<u64>, l: nat) -> bool {
    forall|i: int| 0 <= i < ls.len() ==> #[trigger] ls[i] < l
}

/// Whether an instruction of function `id` refers only to its first `n`
/// values and its first `l` labels.
pub open spec fn insn_refs_in(insn: Insn, id: u64, n: nat, l: nat) -> bool {
    match insn {
        Insn::Binary(_, a, b, d) => value_in(a, id, n) && value_in(b, id, n) && value_in(d, id, n),
        Insn::Unary(_, a, d) => value_in(a, id, n) && value_in(d, id, n),
        Insn::Convert(a, _, _, d) => value_in(a, id, n) && value_in(d, id, n),
        Insn::LoadRelative(a, _, _, d) => value_in(a, id, n) && value_in(d, id, n),
        Insn::Store(a, b) => value_in(a, id, n) && value_in(b, id, n),
        Insn::StoreRelative(a, _, b) => value_in(a, id, n) && value_in(b, id, n),
        Insn::Label(x) => x < l,
        Insn::Branch(x) => x < l,
        Insn::BranchIf(a, x) => value_in(a, id, n) && x < l,
        Insn::BranchIfNot(a, x) => value_in(a, id, n) && x < l,
        Insn::JumpTable(a, xs) => value_in(a, id, n) && labels_in(xs@, l),
        Insn::UsesCatcher => true,
        Insn::Throw(a) => value_in(a, id, n),
        Insn::Return(a) => value_in(a, id, n),
        Insn::DefaultReturn => true,
        Insn::Call(_, _, _, args, _, d) => values_in(args@, id, n) && value_in(d, id, n),
        Insn::CallIndirect(f, _, args, _, d) => value_in(f, id, n) && values_in(args@, id, n)
            && value_in(d, id, n),
        Insn::CallNative(_, _, _, args, _, d) => values_in(args@, id, n) && value_in(d, id, n),
        Insn::Memcpy(a, b, c) => value_in(a, id, n) && value_in(b, id, n) && value_in(c, id, n),
        Insn::Memmove(a, b, c) => value_in(a, id, n) && value_in(b, id, n) && value_in(c, id, n),
        Insn::Memset(a, b, c) => value_in(a, id, n) && value_in(b, id, n) && value_in(c, id, n),
        Insn::StoreField(a, _, b) => value_in(a, id, n) && value_in(b, id, n),
        Insn::AllocaArray(a, _, d) => value_in(a, id, n) && value_in(d, id, n),
    }
}

/// Whether every instruction of a list refers only to the first `n` values
/// and the first `l` labels of function `id`.
pub open spec fn insns_refs_in(insns: Seq<Insn>, id: u64, n: nat, l: nat) -> bool {
    forall|k: int| 0 <= k < insns.len() ==> insn_refs_in(#[trigger] insns[k], id, n, l)
}

/// Whether the instruction reads `v` as an operand.
pub open spec fn refers(insn: Insn, v: Value) -> bool {
    match insn {
        Insn::Binary(_, a, b, _) => a == v || b == v,
        Insn::Unary(_, a, _) => a == v,
        Insn::Convert(a, _, _, _) => a == v,
        Insn::LoadRelative(a, _, _, _) => a == v,
        Insn::Store(a, b) => a == v || b == v,
        Insn::StoreRelative(a, _, b) => a == v || b == v,
        Insn::Label(_) => false,
        Insn::Branch(_) => false,
        Insn::BranchIf(a, _) => a == v,
        Insn::BranchIfNot(a, _) => a == v,
        Insn::JumpTable(a, _) => a == v,
        Insn::UsesCatcher => false,
        Insn::Throw(a) => a == v,
        Insn::Return(a) => a == v,
        Insn::DefaultReturn => false,
        Insn::Call(_, _, _, args, _, _) => args@.contains(v),
        Insn::CallIndirect(f, _, args, _, _) => f == v || args@.contains(v),
        Insn::CallNative(_, _, _, args, _, _) => args@.contains(v),
        Insn::Memcpy(a, b, c) => a == v || b == v || c == v,
        Insn::Memmove(a, b, c) => a == v || b == v || c == v,
        Insn::Memset(a, b, c) => a == v || b == v || c == v,
        Insn::StoreField(a, _, b) => a == v || b == v,
        Insn::AllocaArray(a, _, _) => a == v,
    }
}

/// The block of the parameters: the entry block, before the body.
pub open spec fn entry_block() -> int {
    0
}

/// Where a block stands: its number, whether it holds no instruction yet,
/// and whether nothing can reach it.
pub type BlockState = (int, bool, bool);

/// The block state after a call with these flags: a call that may throw
/// ends its block, and one that does not return, or is a tail call, leaves
/// what follows unreachable.
pub open spec fn call_step(s: BlockState, flags: i32) -> BlockState {
    let dead = flags & 6 != 0;
    if flags & 1 == 0 {
        (s.0 + 1, true, dead)
    } else {
        (s.0, false, s.2 || dead)
    }
}

/// The block state after the instruction: a label starts a block unless
/// the current one holds nothing; a branch, a return or a throw ends the
/// block, and so does a default return unless the block is unreachable.
pub open spec fn block_step(s: BlockState, insn: Insn) -> BlockState {
    match insn {
        Insn::Label(_) => if s.1 {
            (s.0, true, false)
        } else {
            (s.0 + 1, true, false)
        },
        Insn::Branch(_) => (s.0 + 1, true, true),
        Insn::Return(_) => (s.0 + 1, true, true),
        Insn::Throw(_) => (s.0 + 1, true, true),
        Insn::DefaultReturn => if s.2 {
            s
        } else {
            (s.0 + 1, true, true)
        },
        Insn::BranchIf(_, _) => (s.0 + 1, true, false),
        Insn::BranchIfNot(_, _) => (s.0 + 1, true, false),
        Insn::JumpTable(_, _) => (s.0 + 1, true, false),
        Insn::Call(_, _, _, _, flags, _) => call_step(s, flags@),
        Insn::CallIndirect(_, _, _, flags, _) => call_step(s, flags@),
        Insn::CallNative(_, _, _, _, flags, _) => call_step(s, flags@),
        _ => (s.0, false, s.2),
    }
}

/// The block state after the instructions: the body starts in the block
/// after the entry block, empty and reachable.
pub open spec fn block_state(insns: Seq<Insn>) -> BlockState
    decreases insns.len(),
{
    if insns.len() == 0 {
        (entry_block() + 1, true, false)
    } else {
        block_step(block_state(insns.drop_last()), insns.last())
    }
}

/// The block current after the first `k` instructions.
pub open spec fn block_at(insns: Seq<Insn>, k: int) -> int {
    if k <= insns.len() {
        block_state(insns.take(k)).0
    } else {
        block_state(insns).0
    }
}

/// No instruction that refers only to the first `n` values refers to a
/// later one.
proof fn lemma_no_refs_beyond(f: UncompiledFunction, n: nat)
    requires
        f.wf(),
        n == f.values().len(),
    ensures
        forall|k: int, v: Value|
            0 <= k < f.insns().len() && v.position() >= n ==> !#[trigger] refers(f.insns()[k], v),
{
    assert forall|k: int, v: Value| 0 <= k < f.insns().len() && v.position() >= n implies !#[trigger] refers(f.insns()[k], v) by {
        let insn = f.insns()[k];
        assert(insn_refs_in(insn, f.id(), n, f.label_count() as nat));
        match insn {
            Insn::Call(_, _, _, args, _, _) => {
                if args@.contains(v) {
                    let i = choose|i: int| 0 <= i < args@.len() && args@[i] == v;
                    assert(value_in(args@[i], f.id(), n));
                }
            },
            Insn::CallIndirect(_, _, args, _, _) => {
                if args@.contains(v) {
                    let i = choose|i: int| 0 <= i < args@.len() && args@[i] == v;
                    assert(value_in(args@[i], f.id(), n));
                }
            },
            Insn::CallNative(_, _, _, args, _, _) => {
                if args@.contains(v) {
                    let i = choose|i: int| 0 <= i < args@.len() && args@[i] == v;
                    assert(value_in(args@[i], f.id(), n));
                }
            },
            _ => {},
        }
    }
}

/// The block number after the first `k` instructions.
fn block_after(insns: &Vec<Insn>, k: usize) -> (r: u128)
    requires
        k <= insns@.len(),
    ensures
        r == block_at(insns@, k as int),
{
    let mut state = (1u128, true, false);
    let mut i: usize = 0;
    while i < k
        invariant
            k <= insns@.len(),
            i <= k,
            state.0 <= i + 1,
            state.0 == block_state(insns@.take(i as int)).0,
            state.1 == block_state(insns@.take(i as int)).1,
            state.2 == block_state(insns@.take(i as int)).2,
        decreases k - i,
    {
        proof {
            assert(insns@.take(i as int + 1).drop_last() =~= insns@.take(i as int));
            assert(insns@.take(i as int + 1).last() == insns@[i as int]);
        }
        state = step_exec(state, &insns[i]);
        i = i + 1;
    }
    state.0
}

/// The block state after a call with these flags.
fn call_step_exec(s: (u128, bool, bool), flags: &CallFlags) -> (r: (u128, bool, bool))
    requires
        s.0 < u128::MAX,
    ensures
        r.0 == call_step((s.0 as int, s.1, s.2), flags@).0,
        r.1 == call_step((s.0 as int, s.1, s.2), flags@).1,
        r.2 == call_step((s.0 as int, s.1, s.2), flags@).2,
{
    let bits = flags.bits();
    let dead = bits & 6 != 0;
    if bits & 1 == 0 {
        (s.0 + 1, true, dead)
    } else {
        (s.0, false, s.2 || dead)
    }
}

/// The block state after the instruction.
fn step_exec(s: (u128, bool, bool), insn: &Insn) -> (r: (u128, bool, bool))
    requires
        s.0 < u128::MAX,
    ensures
        r.0 == block_step((s.0 as int, s.1, s.2), *insn).0,
        r.1 == block_step((s.0 as int, s.1, s.2), *insn).1,
        r.2 == block_step((s.0 as int, s.1, s.2), *insn).2,
        r.0 <= s.0 + 1,
{
    match insn {
        Insn::Label(_) => if s.1 {
            (s.0, true, false)
        } else {
            (s.0 + 1, true, false)
        },
        Insn::Branch(_) => (s.0 + 1, true, true),
        Insn::Return(_) => (s.0 + 1, true, true),
        Insn::Throw(_) => (s.0 + 1, true, true),
        Insn::DefaultReturn => if s.2 {
            s
        } else {
            (s.0 + 1, true, true)
        },
        Insn::BranchIf(_, _) => (s.0 + 1, true, false),
        Insn::BranchIfNot(_, _) => (s.0 + 1, true, false),
        Insn::JumpTable(_, _) => (s.0 + 1, true, false),
        Insn::Call(_, _, _, _, flags, _) => call_step_exec(s, flags),
        Insn::CallIndirect(_, _, _, flags, _) => call_step_exec(s, flags),
        Insn::CallNative(_, _, _, _, flags, _) => call_step_exec(s, flags),
        _ => (s.0, false, s.2),
    }
}

/// Whether `v` is among the values.
fn contains_value(vs: &Vec<Value>, v: &Value) -> (b: bool)
    ensures
        b == vs@.contains(*v),
{
    let mut i: usize = 0;
    while i < vs.len()
        invariant
            i <= vs@.len(),
            forall|j: int| 0 <= j < i ==> vs@[j] != *v,
        decreases vs@.len() - i,
    {
        if vs[i] == *v {
            return true;
        }
        i = i + 1;
    }
    false
}

/// Whether the instruction reads `v` as an operand.
fn refers_exec(insn: &Insn, v: &Value) -> (b: bool)
    ensures
        b == refers(*insn, *v),
{
    match insn {
        Insn::Binary(_, a, b, _) => *a == *v || *b == *v,
        Insn::Unary(_, a, _) => *a == *v,
        Insn::Convert(a, _, _, _) => *a == *v,
        Insn::LoadRelative(a, _, _, _) => *a == *v,
        Insn::Store(a, b) => *a == *v || *b == *v,
        Insn::StoreRelative(a, _, b) => *a == *v || *b == *v,
        Insn::Label(_) => false,
        Insn::Branch(_) => false,
        Insn::BranchIf(a, _) => *a == *v,
        Insn::BranchIfNot(a, _) => *a == *v,
        Insn::JumpTable(a, _) => *a == *v,
        Insn::UsesCatcher => false,
        Insn::Throw(a) => *a == *v,
        Insn::Return(a) => *a == *v,
        Insn::DefaultReturn => false,
        Insn::Call(_, _, _, args, _, _) => contains_value(args, v),
        Insn::CallIndirect(f, _, args, _, _) => *f == *v || contains_value(args, v),
        Insn::CallNative(_, _, _, args, _, _) => contains_value(args, v),
        Insn::Memcpy(a, b, c) => *a == *v || *b == *v || *c == *v,
        Insn::Memmove(a, b, c) => *a == *v || *b == *v || *c == *v,
        Insn::Memset(a, b, c) => *a == *v || *b == *v || *c == *v,
        Insn::StoreField(a, _, b) => *a == *v || *b == *v,
        Insn::AllocaArray(a, _, _) => *a == *v,
    }
}

/// The highest optimization level that the code generator distinguishes.
pub const MAX_OPTIMIZATION_LEVEL: u32 = 1;

/// A function which has not been compiled yet, so it can have instructions
/// added to it.
///
/// A function persists for the lifetime of its containing context. This
/// represents the function in the "building" state, where the user
/// constructs instructions that represents the function body. Once the build
/// process is complete, the user calls `function.compile()` to convert it
/// into its executable form.
pub struct UncompiledFunction {
    id: u64,
    signature: Type,
    parent: Option<u64>,
    values: Vec<ValueInfo>,
    marks: Vec<usize>,
    insns: Vec<Insn>,
    next_label: u64,
    optimization_level: u32,
    recompilable: bool,
}

/// A function which has already been compiled from an `UncompiledFunction`.
/// Its instructions are fixed.
pub struct CompiledFunction {
    id: u64,
    signature: Type,
    parent: Option<u64>,
    values: Vec<ValueInfo>,
    insns: Vec<Insn>,
    labels: u64,
    optimization_level: u32,
    recompilable: bool,
}

/// A function that can be compiled or not
pub trait Function {
    /// The identity of the function within its context.
    spec fn spec_id(&self) -> u64;

    /// The signature of the function.
    spec fn spec_signature(&self) -> Type;

    /// Whether the function is compiled.
    spec fn spec_compiled(&self) -> bool;

    /// Check if this function is compiled
    fn is_compiled(&self) -> (r: bool)
        ensures
            r == self.spec_compiled(),
    ;

    /// Get the signature of this function
    fn get_signature(&self) -> (r: &Ty)
        ensures
            *r == self.spec_signature(),
    ;

    /// The identity of the function within its context.
    fn get_id(&self) -> (r: u64)
        ensures
            r == self.spec_id(),
    ;
}

impl UncompiledFunction {
    /// The identity of the function within its context.
    pub closed spec fn id(&self) -> u64 {
        self.id
    }

    /// The signature the function was created with.
    pub closed spec fn signature(&self) -> Type {
        self.signature
    }

    /// The function this one is nested in, if any.
    pub closed spec fn parent(&self) -> Option<u64> {
        self.parent
    }

    /// The values made so far, in order.
    pub closed spec fn values(&self) -> Seq<ValueInfo> {
        self.values@
    }

    /// The instructions recorded so far, in order.
    pub closed spec fn insns(&self) -> Seq<Insn> {
        self.insns@
    }

    /// The number of labels reserved so far.
    pub closed spec fn label_count(&self) -> u64 {
        self.next_label
    }

    /// The optimization level set for the function.
    pub closed spec fn optimization(&self) -> u32 {
        self.optimization_level
    }

    /// Whether the function is a candidate for recompilation.
    pub closed spec fn is_recompilable(&self) -> bool {
        self.recompilable
    }

    /// Whether `v` is a value of this function.
    pub open spec fn holds(&self, v: Value) -> bool {
        value_in(v, self.id(), self.values().len())
    }

    /// Whether `l` is a label reserved in this function.
    pub open spec fn holds_label(&self, l: Label) -> bool {
        l.func_id() == self.id() && l.number() < self.label_count()
    }

    /// Whether all values of a list are values of this function.
    pub open spec fn holds_all(&self, vs: Seq<Value>) -> bool {
        values_in(vs, self.id(), self.values().len())
    }

    /// Everything but the values is as in `old`.
    pub open spec fn same_but_values(&self, old: UncompiledFunction) -> bool {
        &&& self.id() == old.id()
        &&& self.signature() == old.signature()
        &&& self.parent() == old.parent()
        &&& self.insns() == old.insns()
        &&& self.label_count() == old.label_count()
        &&& self.optimization() == old.optimization()
        &&& self.is_recompilable() == old.is_recompilable()
    }

    /// Everything but the labels is as in `old`.
    pub open spec fn same_but_labels(&self, old: UncompiledFunction) -> bool {
        &&& self.id() == old.id()
        &&& self.signature() == old.signature()
        &&& self.parent() == old.parent()
        &&& self.values() == old.values()
        &&& self.insns() == old.insns()
        &&& self.optimization() == old.optimization()
        &&& self.is_recompilable() == old.is_recompilable()
    }

    /// Everything but the settings is as in `old`.
    pub open spec fn same_but_settings(&self, old: UncompiledFunction) -> bool {
        &&& self.id() == old.id()
        &&& self.signature() == old.signature()
        &&& self.parent() == old.parent()
        &&& self.values() == old.values()
        &&& self.insns() == old.insns()
        &&& self.label_count() == old.label_count()
    }

    /// `self` is `old` with the value `v`, described by `info`, added.
    pub open spec fn added_value(&self, old: UncompiledFunction, v: Value, info: ValueInfo) -> bool {
        &&& self.id() == old.id()
        &&& self.signature() == old.signature()
        &&& self.parent() == old.parent()
        &&& self.label_count() == old.label_count()
        &&& self.optimization() == old.optimization()
        &&& self.is_recompilable() == old.is_recompilable()
        &&& v.func_id() == old.id()
        &&& v.position() == old.values().len()
        &&& self.values() == old.values().push(info)
    }

    /// `self` is `old` with the instruction `insn` recorded.
    pub open spec fn recorded(&self, old: UncompiledFunction, insn: Insn) -> bool {
        &&& self.id() == old.id()
        &&& self.signature() == old.signature()
        &&& self.parent() == old.parent()
        &&& self.label_count() == old.label_count()
        &&& self.optimization() == old.optimization()
        &&& self.is_recompilable() == old.is_recompilable()
        &&& self.values() == old.values()
        &&& self.insns() == old.insns().push(insn)
    }

    /// `self` is `old` with the instruction `insn` recorded, whose result is
    /// the new value `v` of type `ty`.
    pub open spec fn recorded_result(
        &self,
        old: UncompiledFunction,
        insn: Insn,
        v: Value,
        ty: Option<Type>,
    ) -> bool {
        &&& self.id() == old.id()
        &&& self.signature() == old.signature()
        &&& self.parent() == old.parent()
        &&& self.label_count() == old.label_count()
        &&& self.optimization() == old.optimization()
        &&& self.is_recompilable() == old.is_recompilable()
        &&& v.func_id() == old.id()
        &&& v.position() == old.values().len()
        &&& self.values() == old.values().push(
            ValueInfo { ty, origin: ValueOrigin::Result, addressable: false },
        )
        &&& self.insns() == old.insns().push(insn)
    }

    /// Every instruction refers only to values and labels of this function
    /// made before it.
    /// How many instructions were recorded when the value at `i` was made;
    /// the parameters count as made before any.
    pub closed spec fn made_at(&self, i: int) -> usize {
        self.marks@[i]
    }

    /// The block a value belongs to: the entry block for a parameter, the
    /// block current after its instruction for a result, and the block
    /// current when it was made for a local.
    pub open spec fn value_block(&self, v: Value) -> int {
        let i = v.position() as int;
        match self.values()[i].origin {
            ValueOrigin::Param(_) => entry_block(),
            ValueOrigin::Result => block_at(self.insns(), self.made_at(i) + 1),
            _ => block_at(self.insns(), self.made_at(i) as int),
        }
    }

    /// Whether `v` is a temporary: a value of this function that is not a
    /// constant, and that no instruction refers to from a block other than
    /// its own, so that LibJIT keeps it block-local.
    pub open spec fn is_temp(&self, v: Value) -> bool {
        &&& self.holds(v)
        &&& !(self.values()[v.position() as int].origin is Constant)
        &&& forall|k: int|
            0 <= k < self.insns().len() && #[trigger] refers(self.insns()[k], v) ==> block_at(self.insns(), k)
                == self.value_block(v)
    }

    pub closed spec fn wf(&self) -> bool {
        &&& insns_refs_in(self.insns@, self.id, self.values@.len(), self.next_label as nat)
        &&& self.marks@.len() == self.values@.len()
    }
}


impl UncompiledFunction {
    fn push_value(&mut self, ty: Option<Type>, origin: ValueOrigin) -> (r: Value)
        requires
            old(self).wf(),
        ensures
            final(self).wf(),
            final(self).added_value(
                *old(self),
                r,
                ValueInfo { ty, origin, addressable: false },
            ),
            final(self).insns() == old(self).insns(),
            final(self).made_at(old(self).values().len() as int) == old(self).insns().len(),
            forall|i: int| 0 <= i < old(self).values().len() ==> #[trigger] final(self).made_at(i) == old(self).made_at(i),
    {
        proof {
            lemma_insns_refs_grow(
                self.insns@,
                self.id,
                self.values@.len(),
                self.next_label as nat,
                self.values@.len() + 1,
                self.next_label as nat,
            );
        }
        let r = Value { func: self.id, index: self.values.len() };
        self.values.push(ValueInfo { ty, origin, addressable: false });
        self.marks.push(self.insns.len());
        r
    }

    fn mark_addressable(&mut self, index: usize)
        requires
            old(self).wf(),
            index < old(self).values().len(),
        ensures
            final(self).wf(),
            final(self).same_but_values(*old(self)),
            final(self).values().len() == old(self).values().len(),
            forall|i: int|
                0 <= i < old(self).values().len() ==> final(self).values()[i] == if i == index {
                    ValueInfo {
                        ty: old(self).values()[i].ty,
                        origin: old(self).values()[i].origin,
                        addressable: true,
                    }
                } else {
                    old(self).values()[i]
                },
    {
        let ty = match &self.values[index].ty {
            Some(t) => Some(t.clone()),
            None => None,
        };
        let origin = self.values[index].origin;
        self.values.set(index, ValueInfo { ty, origin, addressable: true });
    }

    fn reserve_label(&mut self) -> (r: Label)
        requires
            old(self).wf(),
            old(self).label_count() < u64::MAX,
        ensures
            final(self).wf(),
            r.func_id() == old(self).id(),
            r.number() == old(self).label_count(),
            final(self).label_count() == old(self).label_count() + 1,
            final(self).same_but_labels(*old(self)),
    {
        proof {
            lemma_insns_refs_grow(
                self.insns@,
                self.id,
                self.values@.len(),
                self.next_label as nat,
                self.values@.len(),
                self.next_label as nat + 1,
            );
        }
        let r = Label { func: self.id, value: self.next_label };
        self.next_label = self.next_label + 1;
        r
    }

    fn record(&mut self, insn: Insn)
        requires
            old(self).wf(),
            insn_refs_in(insn, old(self).id(), old(self).values().len(), old(self).label_count() as nat),
        ensures
            final(self).wf(),
            final(self).recorded(*old(self), insn),
    {
        self.insns.push(insn);
    }

    fn record_result(&mut self, ty: Option<Type>, make: InsnWithResult) -> (r: Value)
        requires
            old(self).wf(),
            result_refs_in(make, old(self).id(), old(self).values().len(), old(self).label_count() as nat),
        ensures
            final(self).wf(),
            final(self).recorded_result(*old(self), make.with_result(r), r, ty),
    {
        let r = self.push_value(ty, ValueOrigin::Result);
        proof {
            lemma_result_refs_in(make, self.id, (self.values@.len() - 1) as nat, self.next_label as nat, r);
        }
        self.record(make.into_insn(r));
        r
    }

    /// Make an instruction that multiplies the values
    pub fn insn_mul(&mut self, v1: Value, v2: Value) -> (r: Value)
        requires
            old(self).wf(),
            old(self).holds(v1),
            old(self).holds(v2),
        ensures
            final(self).wf(),
            final(self).recorded_result(*old(self), Insn::Binary(BinaryOp::Mul, v1, v2, r), r, None),
    {
        self.record_result(None, InsnWithResult::Binary(BinaryOp::Mul, v1, v2))
    }

    /// Make an instruction that multiplies the values and throws upon overflow
    pub fn insn_mul_ovf(&mut self, v1: Value, v2: Value) -> (r: Value)
        requires
            old(self).wf(),
            old(self).holds(v1),
            old(self).holds(v2),
        ensures
            final(self).wf(),
            final(self).recorded_result(*old(self), Insn::Binary(BinaryOp::MulOvf, v1, v2, r), r, None),
    {
        self.record_result(None, InsnWithResult::Binary(BinaryOp::MulOvf, v1, v2))
    }

    /// Make an instruction that adds the values
    pub fn insn_add(&mut self, v1: Value, v2: Value) -> (r: Value)
        requires
            old(self).wf(),
            old(self).holds(v1),
            old(self).holds(v2),
        ensures
            final(self).wf(),
            final(self).recorded_result(*old(self), Insn::Binary(BinaryOp::Add, v1, v2, r), r, None),
    {
        self.record_result(None, InsnWithResult::Binary(BinaryOp::Add, v1, v2))
    }

    /// Make an instruction that adds the values and throws upon overflow
    pub fn insn_add_ovf(&mut self, v1: Value, v2: Value) -> (r: Value)
        requires
            old(self).wf(),
            old(self).holds(v1),
            old(self).holds(v2),
        ensures
            final(self).wf(),
            final(self).recorded_result(*old(self), Insn::Binary(BinaryOp::AddOvf, v1, v2, r), r, None),
    {
        self.record_result(None, InsnWithResult::Binary(BinaryOp::AddOvf, v1, v2))
    }

    /// Make an instruction that subtracts the second value from the first
    pub fn insn_sub(&mut self, v1: Value, v2: Value) -> (r: Value)
        requires
            old(self).wf(),
            old(self).holds(v1),
            old(self).holds(v2),
        ensures
            final(self).wf(),
            final(self).recorded_result(*old(self), Insn::Binary(BinaryOp::Sub, v1, v2, r), r, None),
    {
        self.record_result(None, InsnWithResult::Binary(BinaryOp::Sub, v1, v2))
    }

    /// Make an instruction that subtracts the second value from the first and throws upon overflow
    pub fn insn_sub_ovf(&mut self, v1: Value, v2: Value) -> (r: Value)
        requires
            old(self).wf(),
            old(self).holds(v1),
            old(self).holds(v2),
        ensures
            final(self).wf(),
            final(self).recorded_result(*old(self), Insn::Binary(BinaryOp::SubOvf, v1, v2, r), r, None),
    {
        self.record_result(None, InsnWithResult::Binary(BinaryOp::SubOvf, v1, v2))
    }

    /// Make an instruction that divides the first number by the second
    pub fn insn_div(&mut self, v1: Value, v2: Value) -> (r: Value)
        requires
            old(self).wf(),
            old(self).holds(v1),
            old(self).holds(v2),
        ensures
            final(self).wf(),
            final(self).recorded_result(*old(self), Insn::Binary(BinaryOp::Div, v1, v2, r), r, None),
    {
        self.record_result(None, InsnWithResult::Binary(BinaryOp::Div, v1, v2))
    }

    /// Make an instruction that finds the remainder when the first number is divided by the second
    pub fn insn_rem(&mut self, v1: Value, v2: Value) -> (r: Value)
        requires
            old(self).wf(),
            old(self).holds(v1),
            old(self).holds(v2),
        ensures
            final(self).wf(),
            final(self).recorded_result(*old(self), Insn::Binary(BinaryOp::Rem, v1, v2, r), r, None),
    {
        self.record_result(None, InsnWithResult::Binary(BinaryOp::Rem, v1, v2))
    }

    /// Make an instruction that checks if the first value is lower than or equal to the second
    pub fn insn_leq(&mut self, v1: Value, v2: Value) -> (r: Value)
        requires
            old(self).wf(),
            old(self).holds(v1),
            old(self).holds(v2),
        ensures
            final(self).wf(),
            final(self).recorded_result(*old(self), Insn::Binary(BinaryOp::Le, v1, v2, r), r, None),
    {
        self.record_result(None, InsnWithResult::Binary(BinaryOp::Le, v1, v2))
    }

    /// Make an instruction that checks if the first value is greater than or equal to the second
    pub fn insn_geq(&mut self, v1: Value, v2: Value) -> (r: Value)
        requires
            old(self).wf(),
            old(self).holds(v1),
            old(self).holds(v2),
        ensures
            final(self).wf(),
            final(self).recorded_result(*old(self), Insn::Binary(BinaryOp::Ge, v1, v2, r), r, None),
    {
        self.record_result(None, InsnWithResult::Binary(BinaryOp::Ge, v1, v2))
    }

    /// Make an instruction that checks if the first value is lower than the second
    pub fn insn_lt(&mut self, v1: Value, v2: Value) -> (r: Value)
        requires
            old(self).wf(),
            old(self).holds(v1),
            old(self).holds(v2),
        ensures
            final(self).wf(),
            final(self).recorded_result(*old(self), Insn::Binary(BinaryOp::Lt, v1, v2, r), r, None),
    {
        self.record_result(None, InsnWithResult::Binary(BinaryOp::Lt, v1, v2))
    }

    /// Make an instruction that checks if the first value is greater than the second
    pub fn insn_gt(&mut self, v1: Value, v2: Value) -> (r: Value)
        requires
            old(self).wf(),
            old(self).holds(v1),
            old(self).holds(v2),
        ensures
            final(self).wf(),
            final(self).recorded_result(*old(self), Insn::Binary(BinaryOp::Gt, v1, v2, r), r, None),
    {
        self.record_result(None, InsnWithResult::Binary(BinaryOp::Gt, v1, v2))
    }

    /// Make an instruction that checks if the values are equal
    pub fn insn_eq(&mut self, v1: Value, v2: Value) -> (r: Value)
        requires
            old(self).wf(),
            old(self).holds(v1),
            old(self).holds(v2),
        ensures
            final(self).wf(),
            final(self).recorded_result(*old(self), Insn::Binary(BinaryOp::Eq, v1, v2, r), r, None),
    {
        self.record_result(None, InsnWithResult::Binary(BinaryOp::Eq, v1, v2))
    }

    /// Make an instruction that checks if the values are not equal
    pub fn insn_neq(&mut self, v1: Value, v2: Value) -> (r: Value)
        requires
            old(self).wf(),
            old(self).holds(v1),
            old(self).holds(v2),
        ensures
            final(self).wf(),
            final(self).recorded_result(*old(self), Insn::Binary(BinaryOp::Ne, v1, v2, r), r, None),
    {
        self.record_result(None, InsnWithResult::Binary(BinaryOp::Ne, v1, v2))
    }

    /// Make an instruction that performs a bitwise and on the two values
    pub fn insn_and(&mut self, v1: Value, v2: Value) -> (r: Value)
        requires
            old(self).wf(),
            old(self).holds(v1),
            old(self).holds(v2),
        ensures
            final(self).wf(),
            final(self).recorded_result(*old(self), Insn::Binary(BinaryOp::And, v1, v2, r), r, None),
    {
        self.record_result(None, InsnWithResult::Binary(BinaryOp::And, v1, v2))
    }

    /// Make an instruction that performs a bitwise or on the two values
    pub fn insn_or(&mut self, v1: Value, v2: Value) -> (r: Value)
        requires
            old(self).wf(),
            old(self).holds(v1),
            old(self).holds(v2),
        ensures
            final(self).wf(),
            final(self).recorded_result(*old(self), Insn::Binary(BinaryOp::Or, v1, v2, r), r, None),
    {
        self.record_result(None, InsnWithResult::Binary(BinaryOp::Or, v1, v2))
    }

    /// Make an instruction that performs a bitwise xor on the two values
    pub fn insn_xor(&mut self, v1: Value, v2: Value) -> (r: Value)
        requires
            old(self).wf(),
            old(self).holds(v1),
            old(self).holds(v2),
        ensures
            final(self).wf(),
            final(self).recorded_result(*old(self), Insn::Binary(BinaryOp::Xor, v1, v2, r), r, None),
    {
        self.record_result(None, InsnWithResult::Binary(BinaryOp::Xor, v1, v2))
    }

    /// Make an instruction that performs a left bitwise shift on the first value by the second value
    pub fn insn_shl(&mut self, v1: Value, v2: Value) -> (r: Value)
        requires
            old(self).wf(),
            old(self).holds(v1),
            old(self).holds(v2),
        ensures
            final(self).wf(),
            final(self).recorded_result(*old(self), Insn::Binary(BinaryOp::Shl, v1, v2, r), r, None),
    {
        self.record_result(None, InsnWithResult::Binary(BinaryOp::Shl, v1, v2))
    }

    /// Make an instruction that performs a right bitwise shift on the first value by the second value
    pub fn insn_shr(&mut self, v1: Value, v2: Value) -> (r: Value)
        requires
            old(self).wf(),
            old(self).holds(v1),
            old(self).holds(v2),
        ensures
            final(self).wf(),
            final(self).recorded_result(*old(self), Insn::Binary(BinaryOp::Shr, v1, v2, r), r, None),
    {
        self.record_result(None, InsnWithResult::Binary(BinaryOp::Shr, v1, v2))
    }

    /// Make an instruction that performs an unsigned right bitwise shift on the first value by the second value
    pub fn insn_ushr(&mut self, v1: Value, v2: Value) -> (r: Value)
        requires
            old(self).wf(),
            old(self).holds(v1),
            old(self).holds(v2),
        ensures
            final(self).wf(),
            final(self).recorded_result(*old(self), Insn::Binary(BinaryOp::UShr, v1, v2, r), r, None),
    {
        self.record_result(None, InsnWithResult::Binary(BinaryOp::UShr, v1, v2))
    }

    /// Make an instruction that gets the inverse tangent of the numbers given
    pub fn insn_atan2(&mut self, v1: Value, v2: Value) -> (r: Value)
        requires
            old(self).wf(),
            old(self).holds(v1),
            old(self).holds(v2),
        ensures
            final(self).wf(),
            final(self).recorded_result(*old(self), Insn::Binary(BinaryOp::Atan2, v1, v2, r), r, None),
    {
        self.record_result(None, InsnWithResult::Binary(BinaryOp::Atan2, v1, v2))
    }

    /// Make an instruction that gets the result of raising the first value to the power of the second value
    pub fn insn_pow(&mut self, v1: Value, v2: Value) -> (r: Value)
        requires
            old(self).wf(),
            old(self).holds(v1),
            old(self).holds(v2),
        ensures
            final(self).wf(),
            final(self).recorded_result(*old(self), Insn::Binary(BinaryOp::Pow, v1, v2, r), r, None),
    {
        self.record_result(None, InsnWithResult::Binary(BinaryOp::Pow, v1, v2))
    }

    /// Make an instruction that gets the smallest of two numbers
    pub fn insn_min(&mut self, v1: Value, v2: Value) -> (r: Value)
        requires
            old(self).wf(),
            old(self).holds(v1),
            old(self).holds(v2),
        ensures
            final(self).wf(),
            final(self).recorded_result(*old(self), Insn::Binary(BinaryOp::Min, v1, v2, r), r, None),
    {
        self.record_result(None, InsnWithResult::Binary(BinaryOp::Min, v1, v2))
    }

    /// Make an instruction that gets the biggest of two numbers
    pub fn insn_max(&mut self, v1: Value, v2: Value) -> (r: Value)
        requires
            old(self).wf(),
            old(self).holds(v1),
            old(self).holds(v2),
        ensures
            final(self).wf(),
            final(self).recorded_result(*old(self), Insn::Binary(BinaryOp::Max, v1, v2, r), r, None),
    {
        self.record_result(None, InsnWithResult::Binary(BinaryOp::Max, v1, v2))
    }

    /// Make an instruction that performs a bitwise not on the value
    pub fn insn_not(&mut self, v: Value) -> (r: Value)
        requires
            old(self).wf(),
            old(self).holds(v),
        ensures
            final(self).wf(),
            final(self).recorded_result(*old(self), Insn::Unary(UnaryOp::Not, v, r), r, None),
    {
        self.record_result(None, InsnWithResult::Unary(UnaryOp::Not, v))
    }

    /// Make an instruction that negates the value
    pub fn insn_neg(&mut self, v: Value) -> (r: Value)
        requires
            old(self).wf(),
            old(self).holds(v),
        ensures
            final(self).wf(),
            final(self).recorded_result(*old(self), Insn::Unary(UnaryOp::Neg, v, r), r, None),
    {
        self.record_result(None, InsnWithResult::Unary(UnaryOp::Neg, v))
    }

    /// Make an instruction that duplicates the value given
    pub fn insn_dup(&mut self, v: Value) -> (r: Value)
        requires
            old(self).wf(),
            old(self).holds(v),
        ensures
            final(self).wf(),
            final(self).recorded_result(*old(self), Insn::Unary(UnaryOp::Load, v, r), r, None),
    {
        self.record_result(None, InsnWithResult::Unary(UnaryOp::Load, v))
    }

    /// Make an instruction that loads a value from a src value
    pub fn insn_load(&mut self, v: Value) -> (r: Value)
        requires
            old(self).wf(),
            old(self).holds(v),
        ensures
            final(self).wf(),
            final(self).recorded_result(*old(self), Insn::Unary(UnaryOp::Load, v, r), r, None),
    {
        self.record_result(None, InsnWithResult::Unary(UnaryOp::Load, v))
    }

    /// Make an instruction that gets the inverse cosine of the number given
    pub fn insn_acos(&mut self, v: Value) -> (r: Value)
        requires
            old(self).wf(),
            old(self).holds(v),
        ensures
            final(self).wf(),
            final(self).recorded_result(*old(self), Insn::Unary(UnaryOp::Acos, v, r), r, None),
    {
        self.record_result(None, InsnWithResult::Unary(UnaryOp::Acos, v))
    }

    /// Make an instruction that gets the inverse sine of the number given
    pub fn insn_asin(&mut self, v: Value) -> (r: Value)
        requires
            old(self).wf(),
            old(self).holds(v),
        ensures
            final(self).wf(),
            final(self).recorded_result(*old(self), Insn::Unary(UnaryOp::Asin, v, r), r, None),
    {
        self.record_result(None, InsnWithResult::Unary(UnaryOp::Asin, v))
    }

    /// Make an instruction that gets the inverse tangent of the number given
    pub fn insn_atan(&mut self, v: Value) -> (r: Value)
        requires
            old(self).wf(),
            old(self).holds(v),
        ensures
            final(self).wf(),
            final(self).recorded_result(*old(self), Insn::Unary(UnaryOp::Atan, v, r), r, None),
    {
        self.record_result(None, InsnWithResult::Unary(UnaryOp::Atan, v))
    }

    /// Make an instruction that finds the nearest integer above a number
    pub fn insn_ceil(&mut self, v: Value) -> (r: Value)
        requires
            old(self).wf(),
            old(self).holds(v),
        ensures
            final(self).wf(),
            final(self).recorded_result(*old(self), Insn::Unary(UnaryOp::Ceil, v, r), r, None),
    {
        self.record_result(None, InsnWithResult::Unary(UnaryOp::Ceil, v))
    }

    /// Make an instruction that gets the cosine of the number given
    pub fn insn_cos(&mut self, v: Value) -> (r: Value)
        requires
            old(self).wf(),
            old(self).holds(v),
        ensures
            final(self).wf(),
            final(self).recorded_result(*old(self), Insn::Unary(UnaryOp::Cos, v, r), r, None),
    {
        self.record_result(None, InsnWithResult::Unary(UnaryOp::Cos, v))
    }

    /// Make an instruction that gets the hyperbolic cosine of the number given
    pub fn insn_cosh(&mut self, v: Value) -> (r: Value)
        requires
            old(self).wf(),
            old(self).holds(v),
        ensures
            final(self).wf(),
            final(self).recorded_result(*old(self), Insn::Unary(UnaryOp::Cosh, v, r), r, None),
    {
        self.record_result(None, InsnWithResult::Unary(UnaryOp::Cosh, v))
    }

    /// Make an instruction that gets the natural exponential of the number
    pub fn insn_exp(&mut self, v: Value) -> (r: Value)
        requires
            old(self).wf(),
            old(self).holds(v),
        ensures
            final(self).wf(),
            final(self).recorded_result(*old(self), Insn::Unary(UnaryOp::Exp, v, r), r, None),
    {
        self.record_result(None, InsnWithResult::Unary(UnaryOp::Exp, v))
    }

    /// Make an instruction that finds the nearest integer below a number
    pub fn insn_floor(&mut self, v: Value) -> (r: Value)
        requires
            old(self).wf(),
            old(self).holds(v),
        ensures
            final(self).wf(),
            final(self).recorded_result(*old(self), Insn::Unary(UnaryOp::Floor, v, r), r, None),
    {
        self.record_result(None, InsnWithResult::Unary(UnaryOp::Floor, v))
    }

    /// Make an instruction that gets the natural logarithm of the number
    pub fn insn_log(&mut self, v: Value) -> (r: Value)
        requires
            old(self).wf(),
            old(self).holds(v),
        ensures
            final(self).wf(),
            final(self).recorded_result(*old(self), Insn::Unary(UnaryOp::Log, v, r), r, None),
    {
        self.record_result(None, InsnWithResult::Unary(UnaryOp::Log, v))
    }

    /// Make an instruction that gets the base 10 logarithm of the number
    pub fn insn_log10(&mut self, v: Value) -> (r: Value)
        requires
            old(self).wf(),
            old(self).holds(v),
        ensures
            final(self).wf(),
            final(self).recorded_result(*old(self), Insn::Unary(UnaryOp::Log10, v, r), r, None),
    {
        self.record_result(None, InsnWithResult::Unary(UnaryOp::Log10, v))
    }

    /// Make an instruction that rounds the value to the nearest integer
    pub fn insn_rint(&mut self, v: Value) -> (r: Value)
        requires
            old(self).wf(),
            old(self).holds(v),
        ensures
            final(self).wf(),
            final(self).recorded_result(*old(self), Insn::Unary(UnaryOp::Rint, v, r), r, None),
    {
        self.record_result(None, InsnWithResult::Unary(UnaryOp::Rint, v))
    }

    /// Make an instruction that rounds the value to the nearest integer
    pub fn insn_round(&mut self, v: Value) -> (r: Value)
        requires
            old(self).wf(),
            old(self).holds(v),
        ensures
            final(self).wf(),
            final(self).recorded_result(*old(self), Insn::Unary(UnaryOp::Round, v, r), r, None),
    {
        self.record_result(None, InsnWithResult::Unary(UnaryOp::Round, v))
    }

    /// Make an instruction that gets the sine of the number
    pub fn insn_sin(&mut self, v: Value) -> (r: Value)
        requires
            old(self).wf(),
            old(self).holds(v),
        ensures
            final(self).wf(),
            final(self).recorded_result(*old(self), Insn::Unary(UnaryOp::Sin, v, r), r, None),
    {
        self.record_result(None, InsnWithResult::Unary(UnaryOp::Sin, v))
    }

    /// Make an instruction that gets the hyperbolic sine of the number
    pub fn insn_sinh(&mut self, v: Value) -> (r: Value)
        requires
            old(self).wf(),
            old(self).holds(v),
        ensures
            final(self).wf(),
            final(self).recorded_result(*old(self), Insn::Unary(UnaryOp::Sinh, v, r), r, None),
    {
        self.record_result(None, InsnWithResult::Unary(UnaryOp::Sinh, v))
    }

    /// Make an instruction that gets the square root of a number
    pub fn insn_sqrt(&mut self, v: Value) -> (r: Value)
        requires
            old(self).wf(),
            old(self).holds(v),
        ensures
            final(self).wf(),
            final(self).recorded_result(*old(self), Insn::Unary(UnaryOp::Sqrt, v, r), r, None),
    {
        self.record_result(None, InsnWithResult::Unary(UnaryOp::Sqrt, v))
    }

    /// Make an instruction that gets the tangent of a number
    pub fn insn_tan(&mut self, v: Value) -> (r: Value)
        requires
            old(self).wf(),
            old(self).holds(v),
        ensures
            final(self).wf(),
            final(self).recorded_result(*old(self), Insn::Unary(UnaryOp::Tan, v, r), r, None),
    {
        self.record_result(None, InsnWithResult::Unary(UnaryOp::Tan, v))
    }

    /// Make an instruction that gets the hyperbolic tangent of a number
    pub fn insn_tanh(&mut self, v: Value) -> (r: Value)
        requires
            old(self).wf(),
            old(self).holds(v),
        ensures
            final(self).wf(),
            final(self).recorded_result(*old(self), Insn::Unary(UnaryOp::Tanh, v, r), r, None),
    {
        self.record_result(None, InsnWithResult::Unary(UnaryOp::Tanh, v))
    }

    /// Make an instruction that truncates the value
    pub fn insn_trunc(&mut self, v: Value) -> (r: Value)
        requires
            old(self).wf(),
            old(self).holds(v),
        ensures
            final(self).wf(),
            final(self).recorded_result(*old(self), Insn::Unary(UnaryOp::Trunc, v, r), r, None),
    {
        self.record_result(None, InsnWithResult::Unary(UnaryOp::Trunc, v))
    }

    /// Make an instruction that checks if the number is NaN
    pub fn insn_is_nan(&mut self, v: Value) -> (r: Value)
        requires
            old(self).wf(),
            old(self).holds(v),
        ensures
            final(self).wf(),
            final(self).recorded_result(*old(self), Insn::Unary(UnaryOp::IsNan, v, r), r, None),
    {
        self.record_result(None, InsnWithResult::Unary(UnaryOp::IsNan, v))
    }

    /// Make an instruction that checks if the number is finite
    pub fn insn_is_finite(&mut self, v: Value) -> (r: Value)
        requires
            old(self).wf(),
            old(self).holds(v),
        ensures
            final(self).wf(),
            final(self).recorded_result(*old(self), Insn::Unary(UnaryOp::IsFinite, v, r), r, None),
    {
        self.record_result(None, InsnWithResult::Unary(UnaryOp::IsFinite, v))
    }

    /// Make an instruction that checks if the number is infinite
    pub fn insn_is_inf(&mut self, v: Value) -> (r: Value)
        requires
            old(self).wf(),
            old(self).holds(v),
        ensures
            final(self).wf(),
            final(self).recorded_result(*old(self), Insn::Unary(UnaryOp::IsInf, v, r), r, None),
    {
        self.record_result(None, InsnWithResult::Unary(UnaryOp::IsInf, v))
    }

    /// Make an instruction that gets the absolute value of a number
    pub fn insn_abs(&mut self, v: Value) -> (r: Value)
        requires
            old(self).wf(),
            old(self).holds(v),
        ensures
            final(self).wf(),
            final(self).recorded_result(*old(self), Insn::Unary(UnaryOp::Abs, v, r), r, None),
    {
        self.record_result(None, InsnWithResult::Unary(UnaryOp::Abs, v))
    }

    /// Make an instruction that gets the sign of a number
    pub fn insn_sign(&mut self, v: Value) -> (r: Value)
        requires
            old(self).wf(),
            old(self).holds(v),
        ensures
            final(self).wf(),
            final(self).recorded_result(*old(self), Insn::Unary(UnaryOp::Sign, v, r), r, None),
    {
        self.record_result(None, InsnWithResult::Unary(UnaryOp::Sign, v))
    }

    /// Make an instruction that allocates some space
    pub fn insn_alloca(&mut self, v: Value) -> (r: Value)
        requires
            old(self).wf(),
            old(self).holds(v),
        ensures
            final(self).wf(),
            final(self).recorded_result(*old(self), Insn::Unary(UnaryOp::Alloca, v, r), r, None),
    {
        self.record_result(None, InsnWithResult::Unary(UnaryOp::Alloca, v))
    }

    /// Make an instruction that gets the address of a value
    pub fn insn_address_of(&mut self, v: Value) -> (r: Value)
        requires
            old(self).wf(),
            old(self).holds(v),
        ensures
            final(self).wf(),
            final(self).recorded_result(*old(self), Insn::Unary(UnaryOp::AddressOf, v, r), r, None),
    {
        self.record_result(None, InsnWithResult::Unary(UnaryOp::AddressOf, v))
    }

    /// Create a new function block and associate it with a JIT context.
    /// Its parameters become its first values, in order.
    pub fn new<T>(context: &mut Context<T>, signature: &Ty) -> (r: UncompiledFunction)
        requires
            old(context).function_count() < u64::MAX,
        ensures
            r.wf(),
            r.id() == old(context).function_count(),
            final(context).function_count() == old(context).function_count() + 1,
            final(context).meta() == old(context).meta(),
            r.signature() == *signature,
            r.parent() is None,
            r.is_fresh(),
    {
        let id = context.add_function();
        UncompiledFunction::with_params(id, signature, None)
    }

    /// Create a new function block and associate it with a JIT context.
    /// In addition, this function is nested inside the specified *parent*
    /// function and is able to access its parent's (and grandparent's) local
    /// variables.
    ///
    /// The front end is responsible for ensuring that the nested function can
    /// never be called by anyone except its parent and sibling functions.
    /// The front end is also responsible for ensuring that the nested function
    /// is compiled before its parent.
    pub fn new_nested<T>(
        context: &mut Context<T>,
        signature: &Ty,
        parent: &UncompiledFunction,
    ) -> (r: UncompiledFunction)
        requires
            old(context).function_count() < u64::MAX,
        ensures
            r.wf(),
            r.id() == old(context).function_count(),
            final(context).function_count() == old(context).function_count() + 1,
            final(context).meta() == old(context).meta(),
            r.signature() == *signature,
            r.parent() == Some(parent.id()),
            r.is_fresh(),
    {
        let id = context.add_function();
        UncompiledFunction::with_params(id, signature, Some(parent.id))
    }

    /// A new function has its parameters as values, nothing recorded, no
    /// label, the lowest optimization level and is not recompilable.
    pub open spec fn is_fresh(&self) -> bool {
        &&& self.values().len() == crate::types::param_count(self.signature())
        &&& forall|i: int|
            0 <= i < self.values().len() ==> #[trigger] self.values()[i] == ValueInfo {
                ty: Some(self.signature().component_type(i)),
                origin: ValueOrigin::Param(i as u32),
                addressable: false,
            }
        &&& self.insns().len() == 0
        &&& self.label_count() == 0
        &&& self.optimization() == 0
        &&& !self.is_recompilable()
    }

    fn with_params(id: u64, signature: &Ty, parent: Option<u64>) -> (r: UncompiledFunction)
        ensures
            r.wf(),
            r.id() == id,
            r.signature() == *signature,
            r.parent() == parent,
            r.is_fresh(),
    {
        let mut values: Vec<ValueInfo> = Vec::new();
        let mut marks: Vec<usize> = Vec::new();
        let mut params = signature.params();
        let n = params.size_hint().0;
        let mut i: usize = 0;
        while i < n
            invariant
                n == params.length(),
                params.owner() == *signature,
                params.length() == crate::types::param_count(*signature),
                params.position() == i,
                i <= n,
                values@.len() == i,
                marks@.len() == i,
                forall|j: int|
                    0 <= j < i ==> #[trigger] values@[j] == (ValueInfo {
                        ty: Some(signature.component_type(j)),
                        origin: ValueOrigin::Param(j as u32),
                        addressable: false,
                    }),
            decreases n - i,
        {
            let ty = match params.next() {
                Some(t) => Some(t.clone()),
                None => None,
            };
            values.push(ValueInfo { ty, origin: ValueOrigin::Param(i as u32), addressable: false });
            marks.push(0);
            i = i + 1;
        }
        UncompiledFunction {
            id,
            signature: signature.clone(),
            parent,
            values,
            marks,
            insns: Vec::new(),
            next_label: 0,
            optimization_level: 0,
            recompilable: false,
        }
    }

    /// Get the value that corresponds to a specified function parameter.
    pub fn get_param(&self, param: usize) -> (r: Value)
        requires
            param < crate::types::param_count(self.signature()),
            self.values().len() >= crate::types::param_count(self.signature()),
        ensures
            r.func_id() == self.id(),
            r.position() == param,
    {
        Value { func: self.id, index: param }
    }

    /// Make an instruction that converts the value to the type given
    pub fn insn_convert(&mut self, v: Value, t: &Ty, overflow_check: bool) -> (r: Value)
        requires
            old(self).wf(),
            old(self).holds(v),
        ensures
            final(self).wf(),
            final(self).recorded_result(
                *old(self),
                Insn::Convert(v, *t, overflow_check, r),
                r,
                Some(*t),
            ),
    {
        let r = self.push_value(Some(t.clone()), ValueOrigin::Result);
        self.record(Insn::Convert(v, t.clone(), overflow_check, r));
        r
    }

    /// Make an instructional representation of a Rust value
    pub fn insn_of<T: Compile>(&mut self, val: &T) -> (r: Value)
        requires
            old(self).wf(),
        ensures
            final(self).wf(),
            final(self).extends(*old(self)),
            final(self).holds(r),
            final(self).values()[r.position() as int].ty matches Some(t) && T::describes(t),
            val.compiled(*old(self), *final(self), r),
    {
        val.compile(self)
    }

    /// A constant of type `ty` with the bit pattern `bits`.
    pub fn insn_constant(&mut self, ty: &Ty, bits: u64) -> (r: Value)
        requires
            old(self).wf(),
        ensures
            final(self).wf(),
            final(self).added_value_of(*old(self), r, ValueOrigin::Constant(bits)),
            final(self).values()[r.position() as int].ty == Some(*ty),
    {
        self.push_value(Some(ty.clone()), ValueOrigin::Constant(bits))
    }

    /// A 64-bit float constant, given by its bit pattern.
    pub fn insn_of_float64_bits(&mut self, bits: u64) -> (r: Value)
        requires
            old(self).wf(),
        ensures
            final(self).wf(),
            final(self).added_value_of(*old(self), r, ValueOrigin::Constant(bits)),
            final(self).values()[r.position() as int].ty matches Some(t) && t.is_plain(
                crate::kind::KIND_FLOAT64,
            ),
    {
        let ty = crate::typecs::get_float64();
        self.insn_constant(&ty, bits)
    }

    /// A 32-bit float constant, given by its bit pattern.
    pub fn insn_of_float32_bits(&mut self, bits: u32) -> (r: Value)
        requires
            old(self).wf(),
        ensures
            final(self).wf(),
            final(self).added_value_of(*old(self), r, ValueOrigin::Constant(bits as u64)),
            final(self).values()[r.position() as int].ty matches Some(t) && t.is_plain(
                crate::kind::KIND_FLOAT32,
            ),
    {
        let ty = crate::typecs::get_float32();
        self.insn_constant(&ty, bits as u64)
    }

    /// `self` is `old` with one more value `v`, made in the way `origin`
    /// says, with a type fixed on creation, and with nothing recorded.
    pub open spec fn added_value_of(&self, old: UncompiledFunction, v: Value, origin: ValueOrigin) -> bool {
        &&& self.values().len() == old.values().len() + 1
        &&& self.values()[old.values().len() as int].ty is Some
        &&& self.added_value(
            old,
            v,
            ValueInfo { ty: self.values()[old.values().len() as int].ty, origin, addressable: false },
        )
        &&& self.insns() == old.insns()
    }

    /// Notify the function building process that this function has a catch block
    /// in it. This must be called before any code that is part of a try block
    pub fn insn_uses_catcher(&mut self)
        requires
            old(self).wf(),
        ensures
            final(self).wf(),
            final(self).recorded(*old(self), Insn::UsesCatcher),
    {
        self.record(Insn::UsesCatcher);
    }

    /// Throw an exception from the function with the value given
    pub fn insn_throw(&mut self, retval: Value)
        requires
            old(self).wf(),
            old(self).holds(retval),
        ensures
            final(self).wf(),
            final(self).recorded(*old(self), Insn::Throw(retval)),
    {
        self.record(Insn::Throw(retval));
    }

    /// Return from the function with the value given
    pub fn insn_return(&mut self, retval: Value)
        requires
            old(self).wf(),
            old(self).holds(retval),
        ensures
            final(self).wf(),
            final(self).recorded(*old(self), Insn::Return(retval)),
    {
        self.record(Insn::Return(retval));
    }

    /// Return from the function
    pub fn insn_default_return(&mut self)
        requires
            old(self).wf(),
        ensures
            final(self).wf(),
            final(self).recorded(*old(self), Insn::DefaultReturn),
    {
        self.record(Insn::DefaultReturn);
    }

    /// Make an instruction that loads a value of type `ty` from `offset` bytes
    /// past the address in `src`
    pub fn insn_load_relative(&mut self, src: Value, offset: usize, ty: &Ty) -> (r: Value)
        requires
            old(self).wf(),
            old(self).holds(src),
        ensures
            final(self).wf(),
            final(self).recorded_result(
                *old(self),
                Insn::LoadRelative(src, offset, *ty, r),
                r,
                Some(*ty),
            ),
    {
        let r = self.push_value(Some(ty.clone()), ValueOrigin::Result);
        self.record(Insn::LoadRelative(src, offset, ty.clone(), r));
        r
    }

    /// Make an instruction that stores a value at a destination value
    pub fn insn_store(&mut self, dest: Value, src: Value)
        requires
            old(self).wf(),
            old(self).holds(dest),
            old(self).holds(src),
        ensures
            final(self).wf(),
            final(self).recorded(*old(self), Insn::Store(dest, src)),
    {
        self.record(Insn::Store(dest, src));
    }

    /// Make an instruction that stores a value a certain offset away from a
    /// destination value
    pub fn insn_store_relative(&mut self, dest: Value, offset: usize, src: Value)
        requires
            old(self).wf(),
            old(self).holds(dest),
            old(self).holds(src),
        ensures
            final(self).wf(),
            final(self).recorded(*old(self), Insn::StoreRelative(dest, offset, src)),
    {
        self.record(Insn::StoreRelative(dest, offset, src));
    }

    /// Make an instruction that sets a label
    pub fn insn_label(&mut self, label: &mut Label)
        requires
            old(self).wf(),
            old(self).holds_label(*old(label)),
        ensures
            final(self).wf(),
            final(self).recorded(*old(self), Insn::Label(old(label).number())),
            *final(label) == *old(label),
    {
        self.record(Insn::Label(label.value));
    }

    /// Make an instruction that branches to a certain label
    pub fn insn_branch(&mut self, label: &mut Label)
        requires
            old(self).wf(),
            old(self).holds_label(*old(label)),
        ensures
            final(self).wf(),
            final(self).recorded(*old(self), Insn::Branch(old(label).number())),
            *final(label) == *old(label),
    {
        self.record(Insn::Branch(label.value));
    }

    /// Make an instruction that branches to a certain label if the value is true
    pub fn insn_branch_if(&mut self, value: Value, label: &mut Label)
        requires
            old(self).wf(),
            old(self).holds(value),
            old(self).holds_label(*old(label)),
        ensures
            final(self).wf(),
            final(self).recorded(*old(self), Insn::BranchIf(value, old(label).number())),
            *final(label) == *old(label),
    {
        self.record(Insn::BranchIf(value, label.value));
    }

    /// Make an instruction that branches to a certain label if the value is false
    pub fn insn_branch_if_not(&mut self, value: Value, label: &mut Label)
        requires
            old(self).wf(),
            old(self).holds(value),
            old(self).holds_label(*old(label)),
        ensures
            final(self).wf(),
            final(self).recorded(*old(self), Insn::BranchIfNot(value, old(label).number())),
            *final(label) == *old(label),
    {
        self.record(Insn::BranchIfNot(value, label.value));
    }

    /// Make an instruction that branches to the label in the table at the
    /// index the value gives
    pub fn insn_jump_table(&mut self, value: Value, labels: &mut [Label])
        requires
            old(self).wf(),
            old(self).holds(value),
            forall|i: int| 0 <= i < old(labels)@.len() ==> old(self).holds_label(#[trigger] old(labels)@[i]),
        ensures
            final(self).wf(),
            final(labels)@ == old(labels)@,
            final(self).values() == old(self).values(),
            final(self).insns().len() == old(self).insns().len() + 1,
            final(self).insns().take(old(self).insns().len() as int) == old(self).insns(),
            final(self).insns().last() matches Insn::JumpTable(v, targets) && v == value && targets@
                == old(labels)@.map_values(|l: Label| l.number()),
            final(self).label_count() == old(self).label_count(),
            final(self).same_but_values_and_insns(*old(self)),
    {
        let mut targets: Vec<u64> = Vec::new();
        let mut i: usize = 0;
        while i < labels.len()
            invariant
                i <= labels@.len(),
                targets@ == labels@.take(i as int).map_values(|l: Label| l.number()),
                forall|j: int| 0 <= j < labels@.len() ==> self.holds_label(#[trigger] labels@[j]),
            decreases labels@.len() - i,
        {
            targets.push(labels[i].value);
            proof {
                assert(labels@.take(i as int + 1) == labels@.take(i as int).push(labels@[i as int]));
            }
            i = i + 1;
        }
        proof {
            assert(labels@.take(labels@.len() as int) == labels@);
            assert forall|j: int| 0 <= j < targets@.len() implies #[trigger] targets@[j] < self.label_count() by {
                assert(self.holds_label(labels@[j]));
            }
        }
        self.record(Insn::JumpTable(value, targets));
    }

    /// Whether an optional name can be handed on as a C string.
    pub open spec fn name_is_c_string(name: Option<&str>) -> bool {
        name matches Some(n) ==> !n@.contains('\0')
    }

    /// The name as the instruction keeps it.
    pub open spec fn kept_name(name: Option<&str>) -> Option<Seq<char>> {
        match name {
            Some(n) => Some(n@),
            None => None,
        }
    }

    /// The name of a call instruction as it was recorded.
    pub open spec fn recorded_name(name: Option<String>) -> Option<Seq<char>> {
        match name {
            Some(n) => Some(n@),
            None => None,
        }
    }

    fn copy_name(name: Option<&str>) -> (r: Option<String>)
        ensures
            Self::recorded_name(r) == Self::kept_name(name),
    {
        match name {
            Some(n) => Some(n.to_owned()),
            None => None,
        }
    }

    fn copy_args(args: &[Value]) -> (r: Vec<Value>)
        ensures
            r@ == args@,
    {
        let mut r: Vec<Value> = Vec::new();
        let mut i: usize = 0;
        while i < args.len()
            invariant
                i <= args@.len(),
                r@ == args@.take(i as int),
            decreases args@.len() - i,
        {
            r.push(args[i]);
            proof {
                assert(args@.take(i as int + 1) == args@.take(i as int).push(args@[i as int]));
            }
            i = i + 1;
        }
        proof {
            assert(args@.take(args@.len() as int) == args@);
        }
        r
    }

    /// `self` is `old` with a call recorded whose result is the new value
    /// `r`, with the arguments `args` and the rest of the call as `insn`
    /// says.
    pub open spec fn recorded_call(&self, old: UncompiledFunction, insn: Insn, r: Value) -> bool {
        self.recorded_result(old, insn, r, None)
    }

    /// Call the function, which may or may not be translated yet. The
    /// signature is that of `func` unless one is given. The name is for
    /// diagnostics only.
    pub fn insn_call<F: Function>(
        &mut self,
        name: Option<&str>,
        func: &F,
        sig: Option<&Ty>,
        args: &mut [Value],
        flags: CallFlags,
    ) -> (r: Value)
        requires
            old(self).wf(),
            Self::name_is_c_string(name),
            old(self).holds_all(old(args)@),
        ensures
            final(self).wf(),
            final(args)@ == old(args)@,
            final(self).recorded_result(*old(self), final(self).insns().last(), r, None),
            final(self).insns().last() matches Insn::Call(n, callee, s, a, f, d) && {
                &&& Self::recorded_name(n) == Self::kept_name(name)
                &&& callee == func.spec_id()
                &&& s == match sig {
                    Some(t) => Some(*t),
                    None => None,
                }
                &&& a@ == old(args)@
                &&& f == flags
                &&& d == r
            },
    {
        let n = Self::copy_name(name);
        let callee = func.get_id();
        let s = match sig {
            Some(t) => Some(t.clone()),
            None => None,
        };
        let a = Self::copy_args(args);
        let r = self.push_value(None, ValueOrigin::Result);
        proof {
            assert(values_in(a@, self.id, self.values@.len() as nat));
        }
        self.record(Insn::Call(n, callee, s, a, flags, r));
        r
    }

    /// Make an instruction that calls a function that has the signature given
    /// with some arguments through a pointer to the fucntion
    pub fn insn_call_indirect(
        &mut self,
        func: Value,
        signature: &Ty,
        args: &mut [Value],
        flags: CallFlags,
    ) -> (r: Value)
        requires
            old(self).wf(),
            old(self).holds(func),
            old(self).holds_all(old(args)@),
        ensures
            final(self).wf(),
            final(args)@ == old(args)@,
            final(self).recorded_result(*old(self), final(self).insns().last(), r, None),
            final(self).insns().last() matches Insn::CallIndirect(fv, s, a, f, d) && {
                &&& fv == func
                &&& s == *signature
                &&& a@ == old(args)@
                &&& f == flags
                &&& d == r
            },
    {
        let a = Self::copy_args(args);
        let r = self.push_value(None, ValueOrigin::Result);
        proof {
            assert(values_in(a@, self.id, self.values@.len() as nat));
        }
        self.record(Insn::CallIndirect(func, signature.clone(), a, flags, r));
        r
    }

    /// Make an instruction that calls a native function at the address
    /// `native_func`, which has the signature given, with some arguments.
    pub fn insn_call_native(
        &mut self,
        name: Option<&str>,
        native_func: usize,
        signature: &Ty,
        args: &mut [Value],
        flags: CallFlags,
    ) -> (r: Value)
        requires
            old(self).wf(),
            Self::name_is_c_string(name),
            old(self).holds_all(old(args)@),
        ensures
            final(self).wf(),
            final(args)@ == old(args)@,
            final(self).recorded_result(*old(self), final(self).insns().last(), r, None),
            final(self).insns().last() matches Insn::CallNative(n, addr, s, a, f, d) && {
                &&& Self::recorded_name(n) == Self::kept_name(name)
                &&& addr == native_func
                &&& s == *signature
                &&& a@ == old(args)@
                &&& f == flags
                &&& d == r
            },
    {
        let n = Self::copy_name(name);
        let a = Self::copy_args(args);
        let r = self.push_value(None, ValueOrigin::Result);
        proof {
            assert(values_in(a@, self.id, self.values@.len() as nat));
        }
        self.record(Insn::CallNative(n, native_func, signature.clone(), a, flags, r));
        r
    }

    /// Make an instruction that copies memory from a source address to a destination address
    pub fn insn_memcpy(&mut self, dest: Value, source: Value, size: Value) -> (r: bool)
        requires
            old(self).wf(),
            old(self).holds(dest),
            old(self).holds(source),
            old(self).holds(size),
        ensures
            r,
            final(self).wf(),
            final(self).recorded(*old(self), Insn::Memcpy(dest, source, size)),
    {
        self.record(Insn::Memcpy(dest, source, size));
        true
    }

    /// Make an instruction that moves memory from a source address to a destination address
    pub fn insn_memmove(&mut self, dest: Value, source: Value, size: Value) -> (r: bool)
        requires
            old(self).wf(),
            old(self).holds(dest),
            old(self).holds(source),
            old(self).holds(size),
        ensures
            r,
            final(self).wf(),
            final(self).recorded(*old(self), Insn::Memmove(dest, source, size)),
    {
        self.record(Insn::Memmove(dest, source, size));
        true
    }

    /// Make an instruction that sets memory at the destination address
    pub fn insn_memset(&mut self, dest: Value, source: Value, size: Value) -> (r: bool)
        requires
            old(self).wf(),
            old(self).holds(dest),
            old(self).holds(source),
            old(self).holds(size),
        ensures
            r,
            final(self).wf(),
            final(self).recorded(*old(self), Insn::Memset(dest, source, size)),
    {
        self.record(Insn::Memset(dest, source, size));
        true
    }

    /// Set the optimization level of the function, where the bigger the level,
    /// the more effort should be spent optimising. Levels above the maximum
    /// are taken as the maximum.
    pub fn set_optimization_level(&mut self, level: u32)
        requires
            old(self).wf(),
        ensures
            final(self).wf(),
            final(self).same_but_settings(*old(self)),
            final(self).is_recompilable() == old(self).is_recompilable(),
            final(self).optimization() == if level > MAX_OPTIMIZATION_LEVEL {
                MAX_OPTIMIZATION_LEVEL
            } else {
                level
            },
    {
        if level > MAX_OPTIMIZATION_LEVEL {
            self.optimization_level = MAX_OPTIMIZATION_LEVEL;
        } else {
            self.optimization_level = level;
        }
    }

    /// Get the max optimization level
    pub fn get_max_optimization_level() -> (r: u32)
        ensures
            r == MAX_OPTIMIZATION_LEVEL,
    {
        MAX_OPTIMIZATION_LEVEL
    }

    /// Make this function a candidate for recompilation
    pub fn set_recompilable(&mut self)
        requires
            old(self).wf(),
        ensures
            final(self).wf(),
            final(self).same_but_settings(*old(self)),
            final(self).optimization() == old(self).optimization(),
            final(self).is_recompilable(),
    {
        self.recompilable = true;
    }

    /// Compile the function: its instructions, values and labels are fixed
    /// from here on.
    pub fn compile(self) -> (r: CompiledFunction)
        requires
            self.wf(),
        ensures
            r.id() == self.id(),
            r.signature() == self.signature(),
            r.parent() == self.parent(),
            r.values() == self.values(),
            r.insns() == self.insns(),
            r.label_count() == self.label_count(),
            r.optimization() == self.optimization(),
            r.is_recompilable() == self.is_recompilable(),
    {
        CompiledFunction {
            id: self.id,
            signature: self.signature,
            parent: self.parent,
            values: self.values,
            insns: self.insns,
            labels: self.next_label,
            optimization_level: self.optimization_level,
            recompilable: self.recompilable,
        }
    }

    /// A handle by which instructions of this or another function can call
    /// this one.
    pub fn as_callee(&self) -> (r: Callee)
        ensures
            r.spec_id() == self.id(),
            r.spec_signature() == self.signature(),
    {
        Callee { id: self.id, signature: self.signature.clone() }
    }

    /// `self` is `old` grown: the same function, with values added, with
    /// instructions recorded after those of `old` and with labels reserved.
    pub open spec fn extends(&self, old: UncompiledFunction) -> bool {
        &&& self.id() == old.id()
        &&& self.signature() == old.signature()
        &&& self.parent() == old.parent()
        &&& old.values().len() <= self.values().len()
        &&& forall|j: int|
            0 <= j < old.values().len() ==> (#[trigger] self.values()[j]).ty == old.values()[j].ty
                && self.values()[j].origin == old.values()[j].origin
        &&& old.insns().len() <= self.insns().len()
        &&& self.insns().take(old.insns().len() as int) == old.insns()
        &&& old.label_count() <= self.label_count()
    }

    /// `self` is `old` with one label reserved and then `insn` recorded.
    pub open spec fn labelled_then(&self, old: UncompiledFunction, insn: Insn) -> bool {
        &&& self.id() == old.id()
        &&& self.signature() == old.signature()
        &&& self.parent() == old.parent()
        &&& self.values() == old.values()
        &&& self.optimization() == old.optimization()
        &&& self.is_recompilable() == old.is_recompilable()
        &&& self.label_count() == old.label_count() + 1
        &&& self.insns() == old.insns().push(insn)
    }

    /// Make instructions to run the block if the condition is met
    pub fn insn_if<B: FnOnce(&mut UncompiledFunction)>(&mut self, cond: Value, block: B)
        requires
            old(self).wf(),
            old(self).holds(cond),
            old(self).label_count() < u64::MAX,
            forall|f: &mut UncompiledFunction|
                f.wf() && f.extends(*old(self)) ==> #[trigger] call_requires(block, (f,)),
            forall|f: &mut UncompiledFunction, u: ()|
                #[trigger] call_ensures(block, (f,), u) ==> final(f).wf() && final(f).extends(*f),
        ensures
            final(self).wf(),
            final(self).extends(*old(self)),
            exists|b: &mut UncompiledFunction|
                {
                    &&& b.labelled_then(
                        *old(self),
                        Insn::BranchIfNot(cond, old(self).label_count()),
                    )
                    &&& call_ensures(block, (b,), ())
                    &&& final(self).recorded(*final(b), Insn::Label(old(self).label_count()))
                },
    {
        let mut after = Label::new(self);
        self.insn_branch_if_not(cond, &mut after);
        proof {
            lemma_recorded_extends(*old(self), *self);
        }
        let ghost mid = *self;
        block(self);
        proof {
            lemma_extends_trans(*old(self), mid, *self);
        }
        let ghost before_label = *self;
        self.insn_label(&mut after);
        proof {
            lemma_recorded_extends(before_label, *self);
            lemma_extends_trans(*old(self), before_label, *self);
        }
    }

    /// Make instructions to run the block if the condition is not met
    pub fn insn_if_not<B: FnOnce(&mut UncompiledFunction)>(&mut self, cond: Value, block: B)
        requires
            old(self).wf(),
            old(self).holds(cond),
            old(self).label_count() < u64::MAX,
            forall|f: &mut UncompiledFunction|
                f.wf() && f.extends(*old(self)) ==> #[trigger] call_requires(block, (f,)),
            forall|f: &mut UncompiledFunction, u: ()|
                #[trigger] call_ensures(block, (f,), u) ==> final(f).wf() && final(f).extends(*f),
        ensures
            final(self).wf(),
            final(self).extends(*old(self)),
            exists|b: &mut UncompiledFunction|
                {
                    &&& b.labelled_then(*old(self), Insn::BranchIf(cond, old(self).label_count()))
                    &&& call_ensures(block, (b,), ())
                    &&& final(self).recorded(*final(b), Insn::Label(old(self).label_count()))
                },
    {
        let mut after = Label::new(self);
        self.insn_branch_if(cond, &mut after);
        proof {
            lemma_recorded_extends(*old(self), *self);
        }
        let ghost mid = *self;
        block(self);
        proof {
            lemma_extends_trans(*old(self), mid, *self);
        }
        let ghost before_label = *self;
        self.insn_label(&mut after);
        proof {
            lemma_recorded_extends(before_label, *self);
            lemma_extends_trans(*old(self), before_label, *self);
        }
    }

    /// Make instructions to run the block forever
    pub fn insn_loop<B: FnOnce(&mut UncompiledFunction)>(&mut self, block: B)
        requires
            old(self).wf(),
            old(self).label_count() < u64::MAX,
            forall|f: &mut UncompiledFunction|
                f.wf() && f.extends(*old(self)) ==> #[trigger] call_requires(block, (f,)),
            forall|f: &mut UncompiledFunction, u: ()|
                #[trigger] call_ensures(block, (f,), u) ==> final(f).wf() && final(f).extends(*f),
        ensures
            final(self).wf(),
            final(self).extends(*old(self)),
            exists|b: &mut UncompiledFunction|
                {
                    &&& b.labelled_then(*old(self), Insn::Label(old(self).label_count()))
                    &&& call_ensures(block, (b,), ())
                    &&& final(self).recorded(*final(b), Insn::Branch(old(self).label_count()))
                },
    {
        let mut start = Label::new(self);
        self.insn_label(&mut start);
        proof {
            lemma_recorded_extends(*old(self), *self);
        }
        let ghost mid = *self;
        block(self);
        proof {
            lemma_extends_trans(*old(self), mid, *self);
        }
        let ghost before_branch = *self;
        self.insn_branch(&mut start);
        proof {
            lemma_recorded_extends(before_branch, *self);
            lemma_extends_trans(*old(self), before_branch, *self);
        }
    }

    /// Make instructions to run the block and continue running it so long
    /// as the condition is met
    pub fn insn_loop_while<C: FnOnce(&mut UncompiledFunction) -> Value, B: FnOnce(&mut UncompiledFunction)>(
        &mut self,
        cond: C,
        block: B,
    )
        requires
            old(self).wf(),
            old(self).label_count() < u64::MAX,
            forall|f: &mut UncompiledFunction|
                f.wf() && f.extends(*old(self)) ==> #[trigger] call_requires(block, (f,)),
            forall|f: &mut UncompiledFunction, u: ()|
                #[trigger] call_ensures(block, (f,), u) ==> final(f).wf() && final(f).extends(*f),
            forall|f: &mut UncompiledFunction|
                f.wf() && f.extends(*old(self)) ==> #[trigger] call_requires(cond, (f,)),
            forall|f: &mut UncompiledFunction, v: Value|
                #[trigger] call_ensures(cond, (f,), v) ==> final(f).wf() && final(f).extends(*f)
                    && final(f).holds(v),
        ensures
            final(self).wf(),
            final(self).extends(*old(self)),
            exists|b: &mut UncompiledFunction, c: &mut UncompiledFunction, v: Value|
                #![trigger call_ensures(block, (b,), ()), call_ensures(cond, (c,), v)]
                {
                    &&& b.labelled_then(*old(self), Insn::Label(old(self).label_count()))
                    &&& call_ensures(block, (b,), ())
                    &&& c.same_as(*final(b))
                    &&& call_ensures(cond, (c,), v)
                    &&& final(self).recorded(*final(c), Insn::BranchIf(v, old(self).label_count()))
                },
    {
        let mut start = Label::new(self);
        self.insn_label(&mut start);
        proof {
            lemma_recorded_extends(*old(self), *self);
        }
        let ghost mid = *self;
        block(self);
        proof {
            lemma_extends_trans(*old(self), mid, *self);
        }
        let ghost after_block = *self;
        let v = cond(self);
        proof {
            lemma_extends_trans(*old(self), after_block, *self);
        }
        let ghost before_branch = *self;
        self.insn_branch_if(v, &mut start);
        proof {
            lemma_recorded_extends(before_branch, *self);
            lemma_extends_trans(*old(self), before_branch, *self);
        }
    }

    /// `self` is in every observable respect `other`.
    pub open spec fn same_as(&self, other: UncompiledFunction) -> bool {
        &&& self.same_but_values_and_insns(other)
        &&& self.values() == other.values()
        &&& self.insns() == other.insns()
    }

    /// `self` is `old` with a label reserved, then set, and a second label
    /// reserved.
    pub open spec fn loop_opened(&self, old: UncompiledFunction) -> bool {
        &&& self.id() == old.id()
        &&& self.signature() == old.signature()
        &&& self.parent() == old.parent()
        &&& self.values() == old.values()
        &&& self.optimization() == old.optimization()
        &&& self.is_recompilable() == old.is_recompilable()
        &&& self.label_count() == old.label_count() + 2
        &&& self.insns() == old.insns().push(Insn::Label(old.label_count()))
    }

    /// Make instructions to run the block and continue running it so long
    /// as the condition is met
    pub fn insn_while<C: FnOnce(&mut UncompiledFunction) -> Value, B: FnOnce(&mut UncompiledFunction)>(
        &mut self,
        cond: C,
        block: B,
    )
        requires
            old(self).wf(),
            old(self).label_count() < u64::MAX - 1,
            forall|f: &mut UncompiledFunction|
                f.wf() && f.extends(*old(self)) ==> #[trigger] call_requires(block, (f,)),
            forall|f: &mut UncompiledFunction, u: ()|
                #[trigger] call_ensures(block, (f,), u) ==> final(f).wf() && final(f).extends(*f),
            forall|f: &mut UncompiledFunction|
                f.wf() && f.extends(*old(self)) ==> #[trigger] call_requires(cond, (f,)),
            forall|f: &mut UncompiledFunction, v: Value|
                #[trigger] call_ensures(cond, (f,), v) ==> final(f).wf() && final(f).extends(*f)
                    && final(f).holds(v),
        ensures
            final(self).wf(),
            final(self).extends(*old(self)),
            exists|c: &mut UncompiledFunction, v: Value, b: &mut UncompiledFunction|
                {
                    &&& c.loop_opened(*old(self))
                    &&& call_ensures(cond, (c,), v)
                    &&& b.recorded(*final(c), Insn::BranchIfNot(v, (old(self).label_count() + 1) as u64))
                    &&& call_ensures(block, (b,), ())
                    &&& final(self).same_but_values_and_insns(*final(b))
                    &&& final(self).values() == final(b).values()
                    &&& final(self).insns() == final(b).insns().push(
                        Insn::Branch(old(self).label_count()),
                    ).push(Insn::Label((old(self).label_count() + 1) as u64))
                },
    {
        let mut start = Label::new(self);
        self.insn_label(&mut start);
        let mut after = Label::new(self);
        proof {
            lemma_recorded_extends(*old(self), *self);
        }
        let ghost opened = *self;
        let v = cond(self);
        proof {
            lemma_extends_trans(*old(self), opened, *self);
        }
        let ghost before_test = *self;
        self.insn_branch_if_not(v, &mut after);
        proof {
            lemma_recorded_extends(before_test, *self);
            lemma_extends_trans(*old(self), before_test, *self);
        }
        let ghost mid = *self;
        block(self);
        proof {
            lemma_extends_trans(*old(self), mid, *self);
        }
        let ghost after_block = *self;
        self.insn_branch(&mut start);
        proof {
            lemma_recorded_extends(after_block, *self);
            lemma_extends_trans(*old(self), after_block, *self);
        }
        let ghost before_label = *self;
        self.insn_label(&mut after);
        proof {
            lemma_recorded_extends(before_label, *self);
            lemma_extends_trans(*old(self), before_label, *self);
        }
    }

    /// Whether `v` is a value of this function.
    pub fn holds_value(&self, v: &Value) -> (b: bool)
        ensures
            b == self.holds(*v),
    {
        v.func == self.id && v.index < self.values.len()
    }

    /// Whether every value of `vs` is a value of this function.
    pub fn holds_values(&self, vs: &[Value]) -> (b: bool)
        ensures
            b == self.holds_all(vs@),
    {
        let mut i: usize = 0;
        while i < vs.len()
            invariant
                i <= vs@.len(),
                forall|j: int| 0 <= j < i ==> self.holds(#[trigger] vs@[j]),
            decreases vs@.len() - i,
        {
            if !self.holds_value(&vs[i]) {
                return false;
            }
            i = i + 1;
        }
        true
    }

    /// The values made so far, in order.
    pub fn get_values(&self) -> (r: &[ValueInfo])
        ensures
            r@ == self.values(),
    {
        self.values.as_slice()
    }

    /// The instructions recorded so far, in order.
    pub fn get_insns(&self) -> (r: &[Insn])
        ensures
            r@ == self.insns(),
    {
        self.insns.as_slice()
    }

    /// The number of labels reserved so far.
    pub fn get_label_count(&self) -> (r: u64)
        ensures
            r == self.label_count(),
    {
        self.next_label
    }

    /// Record a store of `src` in the field at `index` of the structure
    /// `dest`.
    pub(crate) fn insn_store_field(&mut self, dest: Value, index: u32, src: Value)
        requires
            old(self).wf(),
            old(self).holds(dest),
            old(self).holds(src),
        ensures
            final(self).wf(),
            final(self).recorded(*old(self), Insn::StoreField(dest, index, src)),
    {
        self.record(Insn::StoreField(dest, index, src));
    }

    /// Make an instruction that allocates room on the stack for as many
    /// values of the type `elem` as `count` holds.
    pub fn insn_alloca_array(&mut self, count: Value, elem: &Ty) -> (r: Value)
        requires
            old(self).wf(),
            old(self).holds(count),
        ensures
            final(self).wf(),
            final(self).recorded_result(*old(self), Insn::AllocaArray(count, *elem, r), r, None),
    {
        self.record_result(None, InsnWithResult::AllocaArray(count, elem.clone()))
    }

    /// Record the operation `op` of two values.
    pub(crate) fn insn_binary(&mut self, op: BinaryOp, v1: Value, v2: Value) -> (r: Value)
        requires
            old(self).wf(),
            old(self).holds(v1),
            old(self).holds(v2),
        ensures
            final(self).wf(),
            final(self).recorded_result(*old(self), Insn::Binary(op, v1, v2, r), r, None),
    {
        self.record_result(None, InsnWithResult::Binary(op, v1, v2))
    }

    /// Record the operation `op` of one value.
    pub(crate) fn insn_unary(&mut self, op: UnaryOp, v: Value) -> (r: Value)
        requires
            old(self).wf(),
            old(self).holds(v),
        ensures
            final(self).wf(),
            final(self).recorded_result(*old(self), Insn::Unary(op, v, r), r, None),
    {
        self.record_result(None, InsnWithResult::Unary(op, v))
    }

    /// Everything but the values and instructions is as in `old`.
    pub open spec fn same_but_values_and_insns(&self, old: UncompiledFunction) -> bool {
        &&& self.id() == old.id()
        &&& self.signature() == old.signature()
        &&& self.parent() == old.parent()
        &&& self.label_count() == old.label_count()
        &&& self.optimization() == old.optimization()
        &&& self.is_recompilable() == old.is_recompilable()
    }
}

/// A function as the target of a call: its identity and its signature.
pub struct Callee {
    id: u64,
    signature: Type,
}

/// Any kind of function, compiled or not
pub enum AnyFunction {
    Uncompiled(UncompiledFunction),
    Compiled(CompiledFunction),
}

impl CompiledFunction {
    /// The identity of the function within its context.
    pub closed spec fn id(&self) -> u64 {
        self.id
    }

    /// The signature the function was created with.
    pub closed spec fn signature(&self) -> Type {
        self.signature
    }

    /// The function this one is nested in, if any.
    pub closed spec fn parent(&self) -> Option<u64> {
        self.parent
    }

    /// The values of the function, in order.
    pub closed spec fn values(&self) -> Seq<ValueInfo> {
        self.values@
    }

    /// The instructions of the function, in order.
    pub closed spec fn insns(&self) -> Seq<Insn> {
        self.insns@
    }

    /// The number of labels of the function.
    pub closed spec fn label_count(&self) -> u64 {
        self.labels
    }

    /// The optimization level set for the function.
    pub closed spec fn optimization(&self) -> u32 {
        self.optimization_level
    }

    /// Whether the function is a candidate for recompilation.
    pub closed spec fn is_recompilable(&self) -> bool {
        self.recompilable
    }

    /// The values of the function, in order.
    pub fn get_values(&self) -> (r: &[ValueInfo])
        ensures
            r@ == self.values(),
    {
        self.values.as_slice()
    }

    /// The instructions of the function, in order.
    pub fn get_insns(&self) -> (r: &[Insn])
        ensures
            r@ == self.insns(),
    {
        self.insns.as_slice()
    }

    /// The number of labels of the function.
    pub fn get_label_count(&self) -> (r: u64)
        ensures
            r == self.label_count(),
    {
        self.labels
    }

    /// The optimization level set for the function.
    pub fn get_optimization_level(&self) -> (r: u32)
        ensures
            r == self.optimization(),
    {
        self.optimization_level
    }

    /// Whether the function is a candidate for recompilation.
    pub fn get_recompilable(&self) -> (r: bool)
        ensures
            r == self.is_recompilable(),
    {
        self.recompilable
    }

    /// The function this one is nested in, if any.
    pub fn get_parent(&self) -> (r: Option<u64>)
        ensures
            r == self.parent(),
    {
        self.parent
    }
}

impl Function for UncompiledFunction {
    open spec fn spec_id(&self) -> u64 {
        self.id()
    }

    open spec fn spec_signature(&self) -> Type {
        self.signature()
    }

    open spec fn spec_compiled(&self) -> bool {
        false
    }

    fn is_compiled(&self) -> (r: bool) {
        false
    }

    fn get_signature(&self) -> (r: &Ty) {
        &self.signature
    }

    fn get_id(&self) -> (r: u64) {
        self.id
    }
}

impl Function for CompiledFunction {
    open spec fn spec_id(&self) -> u64 {
        self.id()
    }

    open spec fn spec_signature(&self) -> Type {
        self.signature()
    }

    open spec fn spec_compiled(&self) -> bool {
        true
    }

    fn is_compiled(&self) -> (r: bool) {
        true
    }

    fn get_signature(&self) -> (r: &Ty) {
        &self.signature
    }

    fn get_id(&self) -> (r: u64) {
        self.id
    }
}

impl Function for Callee {
    closed spec fn spec_id(&self) -> u64 {
        self.id
    }

    closed spec fn spec_signature(&self) -> Type {
        self.signature
    }

    open spec fn spec_compiled(&self) -> bool {
        false
    }

    fn is_compiled(&self) -> (r: bool) {
        false
    }

    fn get_signature(&self) -> (r: &Ty) {
        &self.signature
    }

    fn get_id(&self) -> (r: u64) {
        self.id
    }
}

impl Function for AnyFunction {
    open spec fn spec_id(&self) -> u64 {
        match self {
            AnyFunction::Uncompiled(f) => f.id(),
            AnyFunction::Compiled(f) => f.id(),
        }
    }

    open spec fn spec_signature(&self) -> Type {
        match self {
            AnyFunction::Uncompiled(f) => f.signature(),
            AnyFunction::Compiled(f) => f.signature(),
        }
    }

    open spec fn spec_compiled(&self) -> bool {
        self is Compiled
    }

    fn is_compiled(&self) -> (r: bool) {
        match self {
            AnyFunction::Uncompiled(_) => false,
            AnyFunction::Compiled(_) => true,
        }
    }

    fn get_signature(&self) -> (r: &Ty) {
        match self {
            AnyFunction::Uncompiled(f) => &f.signature,
            AnyFunction::Compiled(f) => &f.signature,
        }
    }

    fn get_id(&self) -> (r: u64) {
        match self {
            AnyFunction::Uncompiled(f) => f.id,
            AnyFunction::Compiled(f) => f.id,
        }
    }
}

impl AnyFunction {
    /// Return the compiled function if there is one
    pub fn into_compiled(self) -> (r: Option<CompiledFunction>)
        ensures
            match self {
                AnyFunction::Compiled(f) => r == Some(f),
                AnyFunction::Uncompiled(_) => r is None,
            },
    {
        match self {
            AnyFunction::Compiled(f) => Some(f),
            AnyFunction::Uncompiled(_) => None,
        }
    }

    /// Return the uncompiled function if there is one
    pub fn into_uncompiled(self) -> (r: Option<UncompiledFunction>)
        ensures
            match self {
                AnyFunction::Uncompiled(f) => r == Some(f),
                AnyFunction::Compiled(_) => r is None,
            },
    {
        match self {
            AnyFunction::Uncompiled(f) => Some(f),
            AnyFunction::Compiled(_) => None,
        }
    }
}

/// Growth is transitive.
pub proof fn lemma_extends_trans(a: UncompiledFunction, b: UncompiledFunction, c: UncompiledFunction)
    requires
        b.extends(a),
        c.extends(b),
    ensures
        c.extends(a),
{
    assert(c.insns().take(a.insns().len() as int) =~= a.insns()) by {
        assert forall|i: int| 0 <= i < a.insns().len() implies c.insns()[i] == a.insns()[i] by {
            assert(c.insns().take(b.insns().len() as int)[i] == c.insns()[i]);
            assert(b.insns().take(a.insns().len() as int)[i] == b.insns()[i]);
        }
    }
}

/// A value added to a function grows it, and the function holds it.
pub proof fn lemma_added_value_extends(before: UncompiledFunction, after: UncompiledFunction, r: Value)
    requires
        after.values().len() == before.values().len() + 1,
        after.added_value(before, r, after.values()[before.values().len() as int]),
        after.insns() == before.insns(),
    ensures
        after.extends(before),
        after.holds(r),
{
    lemma_recorded_extends(before, after);
}

/// A function grows by adding values, reserving labels and recording
/// instructions after the others.
pub proof fn lemma_recorded_extends(a: UncompiledFunction, b: UncompiledFunction)
    requires
        b.id() == a.id(),
        b.signature() == a.signature(),
        b.parent() == a.parent(),
        a.values().len() <= b.values().len(),
        forall|j: int| 0 <= j < a.values().len() ==> #[trigger] b.values()[j] == a.values()[j],
        a.label_count() <= b.label_count(),
        b.insns() == a.insns() || exists|x: Insn| b.insns() == a.insns().push(x),
    ensures
        b.extends(a),
{
    if b.insns() == a.insns() {
        assert(b.insns().take(a.insns().len() as int) =~= a.insns());
    } else {
        let x = choose|x: Insn| b.insns() == a.insns().push(x);
        assert(a.insns().push(x).take(a.insns().len() as int) =~= a.insns());
    }
}

/// An instruction that produces a result, before the result is known.
pub enum InsnWithResult {
    Binary(BinaryOp, Value, Value),
    Unary(UnaryOp, Value),
    AllocaArray(Value, Type),
}

impl InsnWithResult {
    /// The instruction with its result.
    pub open spec fn with_result(self, r: Value) -> Insn {
        match self {
            InsnWithResult::Binary(op, a, b) => Insn::Binary(op, a, b, r),
            InsnWithResult::Unary(op, a) => Insn::Unary(op, a, r),
            InsnWithResult::AllocaArray(a, t) => Insn::AllocaArray(a, t, r),
        }
    }

    fn into_insn(self, r: Value) -> (i: Insn)
        ensures
            i == self.with_result(r),
    {
        match self {
            InsnWithResult::Binary(op, a, b) => Insn::Binary(op, a, b, r),
            InsnWithResult::Unary(op, a) => Insn::Unary(op, a, r),
            InsnWithResult::AllocaArray(a, t) => Insn::AllocaArray(a, t, r),
        }
    }
}

/// Whether the operands of an instruction that produces a result belong to
/// the first `n` values of function `id`.
pub open spec fn result_refs_in(make: InsnWithResult, id: u64, n: nat, l: nat) -> bool {
    match make {
        InsnWithResult::Binary(_, a, b) => value_in(a, id, n) && value_in(b, id, n),
        InsnWithResult::Unary(_, a) => value_in(a, id, n),
        InsnWithResult::AllocaArray(a, _) => value_in(a, id, n),
    }
}

proof fn lemma_result_refs_in(make: InsnWithResult, id: u64, n: nat, l: nat, r: Value)
    requires
        result_refs_in(make, id, n, l),
        value_in(r, id, n + 1),
    ensures
        insn_refs_in(make.with_result(r), id, n + 1, l),
{
}

proof fn lemma_insn_refs_grow(insn: Insn, id: u64, n1: nat, l1: nat, n2: nat, l2: nat)
    requires
        insn_refs_in(insn, id, n1, l1),
        n1 <= n2,
        l1 <= l2,
    ensures
        insn_refs_in(insn, id, n2, l2),
{
    match insn {
        Insn::JumpTable(_, xs) => {
            assert(labels_in(xs@, l2));
        },
        Insn::Call(_, _, _, args, _, _) => {
            assert(values_in(args@, id, n2));
        },
        Insn::CallIndirect(_, _, args, _, _) => {
            assert(values_in(args@, id, n2));
        },
        Insn::CallNative(_, _, _, args, _, _) => {
            assert(values_in(args@, id, n2));
        },
        _ => {},
    }
}

proof fn lemma_insns_refs_grow(insns: Seq<Insn>, id: u64, n1: nat, l1: nat, n2: nat, l2: nat)
    requires
        insns_refs_in(insns, id, n1, l1),
        n1 <= n2,
        l1 <= l2,
    ensures
        insns_refs_in(insns, id, n2, l2),
{
    assert forall|k: int| 0 <= k < insns.len() implies insn_refs_in(#[trigger] insns[k], id, n2, l2) by {
        lemma_insn_refs_grow(insns[k], id, n1, l1, n2, l2);
    }
}

} // verus!
