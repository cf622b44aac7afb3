//! The tree-walking interpreter.

use vstd::prelude::*;
use crate::calc::ast::{Expr, Term};
use crate::calc::error::{outcome, Error, ErrorView};
use crate::calc::parser::{parse, parse_spec};
use crate::calc::scope::Bindings;

verus! {

/// The environment of a session: the value of each name bound so far.
pub type Env = Map<Seq<char>, i64>;

/// What evaluating `t` in the environment `env` gives: the value, or the
/// first unbound name met, and the environment that is left behind.
///
/// Operands are evaluated from left to right. Arithmetic wraps at
/// sixty-four bits. A `Let` overwrites its name in the one environment of
/// the session and never takes it out again, so a binding made inside an
/// operand is seen by everything evaluated after it.
pub open spec fn eval_spec(t: Term, env: Env) -> (Result<i64, ErrorView>, Env)
    decreases t,
{
    match t {
        Term::Lit(v) => (Ok(v), env),
        Term::Var(n) => if env.contains_key(n) {
            (Ok(env[n]), env)
        } else {
            (Err(ErrorView::UnboundName(n)), env)
        },
        Term::Neg(a) => {
            let (ra, e1) = eval_spec(*a, env);
            match ra {
                Ok(x) => (Ok(0i64.wrapping_sub(x)), e1),
                Err(f) => (Err(f), e1),
            }
        },
        Term::Add(a, b) => {
            let (ra, e1) = eval_spec(*a, env);
            match ra {
                Ok(x) => {
                    let (rb, e2) = eval_spec(*b, e1);
                    match rb {
                        Ok(y) => (Ok(x.wrapping_add(y)), e2),
                        Err(f) => (Err(f), e2),
                    }
                },
                Err(f) => (Err(f), e1),
            }
        },
        Term::Sub(a, b) => {
            let (ra, e1) = eval_spec(*a, env);
            match ra {
                Ok(x) => {
                    let (rb, e2) = eval_spec(*b, e1);
                    match rb {
                        Ok(y) => (Ok(x.wrapping_sub(y)), e2),
                        Err(f) => (Err(f), e2),
                    }
                },
                Err(f) => (Err(f), e1),
            }
        },
        Term::Mul(a, b) => {
            let (ra, e1) = eval_spec(*a, env);
            match ra {
                Ok(x) => {
                    let (rb, e2) = eval_spec(*b, e1);
                    match rb {
                        Ok(y) => (Ok(x.wrapping_mul(y)), e2),
                        Err(f) => (Err(f), e2),
                    }
                },
                Err(f) => (Err(f), e1),
            }
        },
        Term::Let(n, a, b) => {
            let (ra, e1) = eval_spec(*a, env);
            match ra {
                Ok(x) => eval_spec(*b, e1.insert(n, x)),
                Err(f) => (Err(f), e1),
            }
        },
    }
}

/// The value of the whole program `t`, evaluated in a fresh session.
pub open spec fn value_of(t: Term) -> Result<i64, ErrorView> {
    eval_spec(t, Map::empty()).0
}

/// The value of the program that the text `s` writes: its syntax failure
/// where it does not parse, else the value of its tree.
pub open spec fn source_value(s: Seq<char>) -> Result<i64, ErrorView> {
    match parse_spec(s) {
        Ok(t) => value_of(t),
        Err(f) => Err(f),
    }
}

/// An interpreter session: one environment, empty at the start, that every
/// evaluation in the session reads and extends.
pub struct Interpreter {
    env: Bindings<i64>,
}

impl Interpreter {
    /// The environment of the session.
    pub closed spec fn bindings(&self) -> Env {
        self.env@
    }

    /// A session with nothing bound.
    pub fn new() -> (r: Self)
        ensures
            r.bindings() == Env::empty(),
    {
        Interpreter { env: Bindings::new() }
    }

    /// Evaluates `e` in this session.
    pub fn eval(&mut self, e: Expr) -> (r: Result<i64, Error>)
        ensures
            outcome(r) == eval_spec(e@, old(self).bindings()).0,
            final(self).bindings() == eval_spec(e@, old(self).bindings()).1,
        decreases e,
    {
        match e {
            Expr::Value(v) => Ok(v),
            Expr::EVar(n) => match self.env.get(&n) {
                Some(v) => Ok(v),
                None => Err(Error::UnboundName(n)),
            },
            Expr::ENeg(a) => match self.eval(*a) {
                Ok(x) => Ok(0i64.wrapping_sub(x)),
                Err(f) => Err(f),
            },
            Expr::EAdd(a, b) => match self.eval(*a) {
                Ok(x) => match self.eval(*b) {
                    Ok(y) => Ok(x.wrapping_add(y)),
                    Err(f) => Err(f),
                },
                Err(f) => Err(f),
            },
            Expr::ESub(a, b) => match self.eval(*a) {
                Ok(x) => match self.eval(*b) {
                    Ok(y) => Ok(x.wrapping_sub(y)),
                    Err(f) => Err(f),
                },
                Err(f) => Err(f),
            },
            Expr::EMul(a, b) => match self.eval(*a) {
                Ok(x) => match self.eval(*b) {
                    Ok(y) => Ok(x.wrapping_mul(y)),
                    Err(f) => Err(f),
                },
                Err(f) => Err(f),
            },
            Expr::ELet(n, a, b) => match self.eval(*a) {
                Ok(x) => {
                    self.env.insert(n, x);
                    self.eval(*b)
                },
                Err(f) => Err(f),
            },
        }
    }
}

/// Parses `src` and evaluates the program in a session of its own.
pub fn eval(src: &str) -> (r: Result<i64, Error>)
    ensures
        outcome(r) == source_value(src@),
{
    let mut interp = Interpreter::new();
    match parse(src) {
        Ok(ast) => interp.eval(ast),
        Err(f) => Err(f),
    }
}

} // verus!
