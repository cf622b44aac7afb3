//! The syntax tree that both back ends take as input.

use vstd::prelude::*;

verus! {

/// A program as a mathematical tree: what an [`Expr`] stands for in
/// contracts. Names are sequences of characters.
pub enum Term {
    Lit(i64),
    Var(Seq<char>),
    Neg(Box<Term>),
    Add(Box<Term>, Box<Term>),
    Sub(Box<Term>, Box<Term>),
    Mul(Box<Term>, Box<Term>),
    Let(Seq<char>, Box<Term>, Box<Term>),
}

/// A program. Every node owns its children; a tree is never changed once
/// it is built.
#[derive(Debug, PartialEq, Eq)]
pub enum Expr {
    /// An integer literal.
    Value(i64),
    /// A use of a name.
    EVar(String),
    /// Arithmetic negation.
    ENeg(Box<Expr>),
    /// Sum of two operands.
    EAdd(Box<Expr>, Box<Expr>),
    /// Difference of two operands.
    ESub(Box<Expr>, Box<Expr>),
    /// Product of two operands.
    EMul(Box<Expr>, Box<Expr>),
    /// `ELet(name, bound, body)`: binds `name` to the value of `bound`, then
    /// gives the value of `body`.
    ELet(String, Box<Expr>, Box<Expr>),
}

/// The mathematical tree that `e` stands for.
pub open spec fn term_of(e: Expr) -> Term
    decreases e,
{
    match e {
        Expr::Value(v) => Term::Lit(v),
        Expr::EVar(n) => Term::Var(n@),
        Expr::ENeg(a) => Term::Neg(Box::new(term_of(*a))),
        Expr::EAdd(a, b) => Term::Add(Box::new(term_of(*a)), Box::new(term_of(*b))),
        Expr::ESub(a, b) => Term::Sub(Box::new(term_of(*a)), Box::new(term_of(*b))),
        Expr::EMul(a, b) => Term::Mul(Box::new(term_of(*a)), Box::new(term_of(*b))),
        Expr::ELet(n, a, b) => Term::Let(n@, Box::new(term_of(*a)), Box::new(term_of(*b))),
    }
}

impl View for Expr {
    type V = Term;

    open spec fn view(&self) -> Term {
        term_of(*self)
    }
}

impl Term {
    /// The number of nodes of the tree.
    pub open spec fn size(self) -> nat
        decreases self,
    {
        match self {
            Term::Lit(_) => 1,
            Term::Var(_) => 1,
            Term::Neg(a) => 1 + a.size(),
            Term::Add(a, b) => 1 + a.size() + b.size(),
            Term::Sub(a, b) => 1 + a.size() + b.size(),
            Term::Mul(a, b) => 1 + a.size() + b.size(),
            Term::Let(_, a, b) => 1 + a.size() + b.size(),
        }
    }

    /// The number of `Let` nodes in the tree.
    pub open spec fn lets(self) -> nat
        decreases self,
    {
        match self {
            Term::Lit(_) => 0,
            Term::Var(_) => 0,
            Term::Neg(a) => a.lets(),
            Term::Add(a, b) => a.lets() + b.lets(),
            Term::Sub(a, b) => a.lets() + b.lets(),
            Term::Mul(a, b) => a.lets() + b.lets(),
            Term::Let(_, a, b) => 1 + a.lets() + b.lets(),
        }
    }
}

impl Expr {
    /// The number of `ELet` nodes in the tree, if it is no more than
    /// `u32::MAX`.
    pub fn let_count(&self) -> (r: Option<u32>)
        ensures
            r == (if self@.lets() <= u32::MAX {
                Some(self@.lets() as u32)
            } else {
                None
            }),
        decreases self,
    {
        match self {
            Expr::Value(_) => Some(0),
            Expr::EVar(_) => Some(0),
            Expr::ENeg(a) => a.let_count(),
            Expr::EAdd(a, b) => Self::both(a.let_count(), b.let_count(), 0),
            Expr::ESub(a, b) => Self::both(a.let_count(), b.let_count(), 0),
            Expr::EMul(a, b) => Self::both(a.let_count(), b.let_count(), 0),
            Expr::ELet(_, a, b) => Self::both(a.let_count(), b.let_count(), 1),
        }
    }

    fn both(a: Option<u32>, b: Option<u32>, more: u32) -> (r: Option<u32>)
        requires
            more <= 1,
        ensures
            r == (if a is Some && b is Some && a->0 + b->0 + more <= u32::MAX {
                Some((a->0 + b->0 + more) as u32)
            } else {
                None
            }),
    {
        match (a, b) {
            (Some(x), Some(y)) => if x <= u32::MAX - y && x + y <= u32::MAX - more {
                Some(x + y + more)
            } else {
                None
            },
            _ => None,
        }
    }
}

} // verus!
