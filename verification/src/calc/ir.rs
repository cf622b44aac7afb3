//! A model of the code that the generator emits: straight-line
//! instructions over values that are each defined once, and what such
//! code computes.

use vstd::prelude::*;
use cranelift::prelude::{Block, Type, Value};
use cranelift_module::{FuncId, Linkage};
use crate::calc::ast::Term;

verus! {

/// One instruction of the single block that a compiled program consists
/// of. `dst` is the value that the instruction defines.
pub enum Inst {
    /// `dst` is the constant `value`.
    Const { dst: Value, value: i64 },
    /// `dst` is `arg` negated.
    Neg { dst: Value, arg: Value },
    /// `dst` is `lhs + rhs`.
    Add { dst: Value, lhs: Value, rhs: Value },
    /// `dst` is `lhs - rhs`.
    Sub { dst: Value, lhs: Value, rhs: Value },
    /// `dst` is `lhs * rhs`.
    Mul { dst: Value, lhs: Value, rhs: Value },
    /// The function returns `arg`.
    Return { arg: Value },
}

/// The kind of an instruction, with the constant that it holds if it holds
/// one: an instruction without the names of the values that it reads
/// and defines.
pub enum Op {
    Const(i64),
    Neg,
    Add,
    Sub,
    Mul,
    Return,
}

/// The kind of `inst`.
pub open spec fn op_of(inst: Inst) -> Op {
    match inst {
        Inst::Const { dst, value } => Op::Const(value),
        Inst::Neg { dst, arg } => Op::Neg,
        Inst::Add { dst, lhs, rhs } => Op::Add,
        Inst::Sub { dst, lhs, rhs } => Op::Sub,
        Inst::Mul { dst, lhs, rhs } => Op::Mul,
        Inst::Return { arg } => Op::Return,
    }
}

/// The kinds of the instructions of `code`, in their order.
pub open spec fn ops(code: Seq<Inst>) -> Seq<Op> {
    Seq::new(code.len(), |k: int| op_of(code[k]))
}

/// The kinds of the instructions that a tree is lowered to: first those of
/// the left operand, then those of the right, then the operation itself. A
/// use of a name takes no instruction, nor does the binding of one.
pub open spec fn lowering(t: Term) -> Seq<Op>
    decreases t,
{
    match t {
        Term::Lit(v) => seq![Op::Const(v)],
        Term::Var(_) => seq![],
        Term::Neg(a) => lowering(*a).push(Op::Neg),
        Term::Add(a, b) => (lowering(*a) + lowering(*b)).push(Op::Add),
        Term::Sub(a, b) => (lowering(*a) + lowering(*b)).push(Op::Sub),
        Term::Mul(a, b) => (lowering(*a) + lowering(*b)).push(Op::Mul),
        Term::Let(_, a, b) => lowering(*a) + lowering(*b),
    }
}

/// One more instruction is one more kind.
pub proof fn lemma_ops_push(code: Seq<Inst>, inst: Inst)
    ensures
        ops(code.push(inst)) == ops(code).push(op_of(inst)),
{
    assert(ops(code.push(inst)) =~= ops(code).push(op_of(inst)));
}

/// Where a function builder stands in the making of a function that is
/// one block of straight-line code. In every stage but the last, the
/// function holds no block that the builder has not created.
pub enum Stage {
    /// The builder stands at no block and has entered none.
    Idle,
    /// The builder stands at this block, the only one that it has entered.
    /// No instruction jumps to the block, the block is not sealed, and
    /// nothing has been emitted, written or read at it.
    Entered(Block),
    /// The builder stands at the only block that it has entered. No
    /// instruction jumps to the block and the block is sealed. It holds
    /// instructions of the kinds of [`Inst`] only, and no terminator yet.
    /// No slot was read at it that had not been written at it before.
    Open,
    /// As `Open`, but the block ends in its terminator.
    Closed,
    /// Anything else.
    Other,
}

/// What a function builder holds, as far as the code generator depends on
/// it.
pub struct Built {
    /// The instructions of the block that the builder stands at, in their
    /// order; none where it stands at no block.
    pub code: Seq<Inst>,
    /// The values of the function, each with its type.
    pub values: Map<Value, Type>,
    /// The slots that have been declared, by their numbers, each with its
    /// type.
    pub declared: Map<int, Type>,
    /// For each slot that has been written at the block that the builder
    /// stands at, the value written last.
    pub bound: Map<int, Value>,
    /// The blocks that the builder has created and not entered, and that
    /// nothing has touched since: no instruction jumps to them, they are
    /// not sealed, and they hold no instruction.
    pub blocks: Set<Block>,
    /// The stage that the builder is at.
    pub stage: Stage,
}

/// A signature, as the value types of its parameters and of its returns.
pub struct Sig {
    pub params: Seq<Type>,
    pub returns: Seq<Type>,
}

/// How a module knows a function that it has declared.
pub struct Declaration {
    pub name: Seq<char>,
    pub linkage: Linkage,
    pub sig: Sig,
}

/// What a module holds.
pub struct Loaded {
    /// Whether the module's target is set to position-independent code.
    pub pic: bool,
    /// The functions that have been declared, each as it was declared.
    pub declared: Map<FuncId, Declaration>,
    /// The functions that have been compiled into the module's memory,
    /// each with the listing of the function that its code was made from.
    pub defined: Map<FuncId, Seq<char>>,
    /// The defined functions whose code is finished and can be run.
    pub finalized: Set<FuncId>,
}

/// An operation on two operands.
#[derive(Clone, Copy, Debug, PartialEq, Eq, Structural)]
pub enum Arith {
    Add,
    Sub,
    Mul,
}

impl Arith {
    /// The operation on sixty-four-bit integers: it wraps.
    pub open spec fn apply(self, x: i64, y: i64) -> i64 {
        match self {
            Arith::Add => x.wrapping_add(y),
            Arith::Sub => x.wrapping_sub(y),
            Arith::Mul => x.wrapping_mul(y),
        }
    }

    /// The tree that applies the operation to `a` and `b`.
    pub open spec fn term(self, a: Term, b: Term) -> Term {
        match self {
            Arith::Add => Term::Add(Box::new(a), Box::new(b)),
            Arith::Sub => Term::Sub(Box::new(a), Box::new(b)),
            Arith::Mul => Term::Mul(Box::new(a), Box::new(b)),
        }
    }

    /// The instruction that defines `dst` as the operation on `lhs` and
    /// `rhs`.
    pub open spec fn inst(self, dst: Value, lhs: Value, rhs: Value) -> Inst {
        match self {
            Arith::Add => Inst::Add { dst, lhs, rhs },
            Arith::Sub => Inst::Sub { dst, lhs, rhs },
            Arith::Mul => Inst::Mul { dst, lhs, rhs },
        }
    }
}

/// The slot of each name.
pub type Table = Map<Seq<char>, nat>;

/// How lowering a tree leaves the slot table: the first name met that has
/// no slot, if there is one, at which lowering stops; the table; and the
/// next free slot.
pub struct Allotment {
    pub failed: Option<Seq<char>>,
    pub table: Table,
    pub next: nat,
}

/// The slots that lowering `t` hands out, from the table `table` and the
/// next free slot `next`. Operands come from left to right; each `Let`
/// takes the next free slot for its name once its bound tree is lowered,
/// in place of any slot that the name had.
pub open spec fn allot(t: Term, table: Table, next: nat) -> Allotment
    decreases t,
{
    match t {
        Term::Lit(_) => Allotment { failed: None, table, next },
        Term::Var(n) => Allotment {
            failed: if table.contains_key(n) {
                None
            } else {
                Some(n)
            },
            table,
            next,
        },
        Term::Neg(a) => allot(*a, table, next),
        Term::Add(a, b) => {
            let first = allot(*a, table, next);
            if first.failed is Some {
                first
            } else {
                allot(*b, first.table, first.next)
            }
        },
        Term::Sub(a, b) => {
            let first = allot(*a, table, next);
            if first.failed is Some {
                first
            } else {
                allot(*b, first.table, first.next)
            }
        },
        Term::Mul(a, b) => {
            let first = allot(*a, table, next);
            if first.failed is Some {
                first
            } else {
                allot(*b, first.table, first.next)
            }
        },
        Term::Let(n, a, b) => {
            let first = allot(*a, table, next);
            if first.failed is Some {
                first
            } else {
                allot(*b, first.table.insert(n, first.next), first.next + 1)
            }
        },
    }
}

/// What each value holds while the code runs.
pub type Machine = Map<Value, i64>;

/// The machine after one more instruction. Arithmetic is that of the
/// sixty-four-bit integer type: it wraps.
pub open spec fn step(m: Machine, inst: Inst) -> Machine {
    match inst {
        Inst::Const { dst, value } => m.insert(dst, value),
        Inst::Neg { dst, arg } => m.insert(dst, 0i64.wrapping_sub(m[arg])),
        Inst::Add { dst, lhs, rhs } => m.insert(dst, m[lhs].wrapping_add(m[rhs])),
        Inst::Sub { dst, lhs, rhs } => m.insert(dst, m[lhs].wrapping_sub(m[rhs])),
        Inst::Mul { dst, lhs, rhs } => m.insert(dst, m[lhs].wrapping_mul(m[rhs])),
        Inst::Return { arg } => m,
    }
}

/// The machine after `code` has run from the start.
pub open spec fn run(code: Seq<Inst>) -> Machine
    decreases code.len(),
{
    if code.len() == 0 {
        Map::empty()
    } else {
        step(run(code.drop_last()), code.last())
    }
}

/// What a function with the body `code` returns: the value that its last
/// instruction hands back, if that instruction is a return.
pub open spec fn returned(code: Seq<Inst>) -> Option<i64> {
    if code.len() > 0 && code.last() is Return {
        Some(run(code)[code.last()->Return_arg])
    } else {
        None
    }
}

/// Running one more instruction is one step from where the code before it
/// left the machine.
pub proof fn lemma_run_push(code: Seq<Inst>, inst: Inst)
    ensures
        run(code.push(inst)) == step(run(code), inst),
{
    assert(code.push(inst).drop_last() == code);
}

} // verus!
