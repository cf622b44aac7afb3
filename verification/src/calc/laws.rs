//! What holds of the two paths together, and of the language.

use vstd::prelude::*;
use crate::calc::ast::{Expr, Term};
use crate::calc::error::{outcome, Error, ErrorView};
use crate::calc::interp::{eval_spec, source_value, value_of, Env};
use crate::calc::parser::{parse_spec, parsed};
use crate::calc::ir::{allot, Table};
use crate::calc::staged::{agrees, fails_alike, failure_of, not_compiled, Compiled};

verus! {

/// The two paths agree on values: where a text is a program in which no
/// name is used unbound, and the compiled path has produced a function for
/// it, that function returns, by the meaning of its instructions, the
/// value that the interpreter gives.
///
/// `interpreted` is any result that the interpreter path may give for
/// `src`, `compiled` any result that the compiled path may give.
pub proof fn lemma_paths_agree(
    src: Seq<char>,
    interpreted: Result<i64, Error>,
    compiled: Result<Compiled, Error>,
)
    requires
        outcome(interpreted) == source_value(src),
        agrees(source_value(src), compiled),
        source_value(src) is Ok,
        compiled is Ok,
    ensures
        interpreted is Ok,
        compiled->Ok_0.meaning() == Some(interpreted->Ok_0),
{
}

/// The two paths agree on the value of a tree: where no name is used
/// unbound in `t`, and the compiled path has produced a function for it,
/// that function returns, by the meaning of its instructions, the value
/// that the interpreter gives in a session of its own.
pub proof fn lemma_paths_agree_on_a_tree(
    t: Term,
    interpreted: Result<i64, Error>,
    compiled: Result<Compiled, Error>,
)
    requires
        outcome(interpreted) == value_of(t),
        agrees(value_of(t), compiled),
        value_of(t) is Ok,
        compiled is Ok,
    ensures
        interpreted is Ok,
        compiled->Ok_0.meaning() == Some(interpreted->Ok_0),
{
}

/// What a session owes for a tree in which no name is used unbound: the
/// function that returns the interpreter's value, or the failure of a
/// function that could not be compiled. `compiled` is any result that a
/// session on a target of sixty-four bits may give for a tree with a slot
/// for each of its bindings.
pub proof fn lemma_session_gives_the_value(
    t: Term,
    interpreted: Result<i64, Error>,
    compiled: Result<Compiled, Error>,
)
    requires
        outcome(interpreted) == value_of(t),
        value_of(t) is Ok,
        agrees(value_of(t), compiled),
        compiled is Err ==> not_compiled(failure_of(compiled)->0),
    ensures
        interpreted is Ok,
        match compiled {
            Ok(c) => c.meaning() == Some(interpreted->Ok_0),
            Err(f) => not_compiled(f@),
        },
{
}

/// The two paths agree on failures: where the interpreter path fails on a
/// text, the compiled path fails too, and with the same failure unless
/// with a failure to compile.
pub proof fn lemma_paths_fail_alike(
    src: Seq<char>,
    interpreted: Result<i64, Error>,
    compiled: Result<Compiled, Error>,
)
    requires
        outcome(interpreted) == source_value(src),
        agrees(source_value(src), compiled),
        interpreted is Err,
    ensures
        compiled is Err,
        failure_of(compiled)->0 is CompilationError || failure_of(compiled) == Some(
            interpreted->Err_0@,
        ),
{
}

/// An unbound name is reported on both paths: where the compiled path
/// fails as the interpreter does whenever the interpreter fails, as it
/// does for every tree that has a slot for each of its bindings on a
/// target of sixty-four bits, one path fails with the unbound name `n`
/// exactly if the other does.
pub proof fn lemma_unbound_on_both_paths(
    t: Term,
    n: Seq<char>,
    interpreted: Result<i64, Error>,
    compiled: Result<Compiled, Error>,
)
    requires
        outcome(interpreted) == value_of(t),
        agrees(value_of(t), compiled),
        fails_alike(value_of(t), compiled),
    ensures
        failure_of(interpreted) == Some(ErrorView::UnboundName(n)) <==> failure_of(compiled)
            == Some(ErrorView::UnboundName(n)),
{
}

/// The code generator meets an unbound name exactly where the interpreter
/// does, and the same one: where the slot table has a slot for just the
/// names that the environment binds, handing out slots for `t` fails with
/// a name exactly if evaluating `t` fails with that name as unbound, and
/// the two leave the same names bound.
pub proof fn lemma_allot_fails_like_eval(t: Term, table: Table, next: nat, env: Env)
    requires
        table.dom() == env.dom(),
    ensures
        allot(t, table, next).failed is Some <==> eval_spec(t, env).0 is Err,
        allot(t, table, next).failed matches Some(n) ==> eval_spec(t, env).0 == Err::<
            i64,
            ErrorView,
        >(ErrorView::UnboundName(n)),
        allot(t, table, next).table.dom() == eval_spec(t, env).1.dom(),
    decreases t,
{
    match t {
        Term::Lit(_) => {},
        Term::Var(n) => {
            assert(table.contains_key(n) <==> env.dom().contains(n));
        },
        Term::Neg(a) => {
            lemma_allot_fails_like_eval(*a, table, next, env);
        },
        Term::Add(a, b) => {
            lemma_allot_fails_like_eval(*a, table, next, env);
            let first = allot(*a, table, next);
            lemma_allot_fails_like_eval(*b, first.table, first.next, eval_spec(*a, env).1);
        },
        Term::Sub(a, b) => {
            lemma_allot_fails_like_eval(*a, table, next, env);
            let first = allot(*a, table, next);
            lemma_allot_fails_like_eval(*b, first.table, first.next, eval_spec(*a, env).1);
        },
        Term::Mul(a, b) => {
            lemma_allot_fails_like_eval(*a, table, next, env);
            let first = allot(*a, table, next);
            lemma_allot_fails_like_eval(*b, first.table, first.next, eval_spec(*a, env).1);
        },
        Term::Let(n, a, b) => {
            lemma_allot_fails_like_eval(*a, table, next, env);
            let first = allot(*a, table, next);
            let (ra, e1) = eval_spec(*a, env);
            if ra is Ok {
                assert(first.table.insert(n, first.next).dom() =~= e1.insert(n, ra->Ok_0).dom());
                lemma_allot_fails_like_eval(
                    *b,
                    first.table.insert(n, first.next),
                    first.next + 1,
                    e1.insert(n, ra->Ok_0),
                );
            }
        },
    }
}

/// Whether `t` binds the name `n` somewhere.
pub open spec fn binds(t: Term, n: Seq<char>) -> bool
    decreases t,
{
    match t {
        Term::Lit(_) => false,
        Term::Var(_) => false,
        Term::Neg(a) => binds(*a, n),
        Term::Add(a, b) => binds(*a, n) || binds(*b, n),
        Term::Sub(a, b) => binds(*a, n) || binds(*b, n),
        Term::Mul(a, b) => binds(*a, n) || binds(*b, n),
        Term::Let(m, a, b) => m == n || binds(*a, n) || binds(*b, n),
    }
}

/// Slots are handed out upwards and never reused: the next free slot does
/// not go down; every name that had a slot still has one; a name that the
/// tree does not bind keeps its slot, and a name has a slot afterwards
/// only if it had one or the tree binds it; and every other slot is a new
/// one, not below the next free slot from before and below the one after.
pub proof fn lemma_slots_are_never_reused(t: Term, table: Table, next: nat)
    ensures
        next <= allot(t, table, next).next,
        table.dom().subset_of(allot(t, table, next).table.dom()),
        forall|n: Seq<char>| #[trigger]
            allot(t, table, next).table.contains_key(n) ==> {
                ||| table.contains_key(n) && allot(t, table, next).table[n] == table[n]
                ||| binds(t, n) && next <= allot(t, table, next).table[n] < allot(
                    t,
                    table,
                    next,
                ).next
            },
        forall|n: Seq<char>|
            table.contains_key(n) && !binds(t, n) ==> #[trigger] allot(t, table, next).table[n]
                == table[n],
    decreases t,
{
    match t {
        Term::Lit(_) => {},
        Term::Var(_) => {},
        Term::Neg(a) => {
            lemma_slots_are_never_reused(*a, table, next);
        },
        Term::Add(a, b) => {
            lemma_slots_are_never_reused(*a, table, next);
            let first = allot(*a, table, next);
            lemma_slots_are_never_reused(*b, first.table, first.next);
        },
        Term::Sub(a, b) => {
            lemma_slots_are_never_reused(*a, table, next);
            let first = allot(*a, table, next);
            lemma_slots_are_never_reused(*b, first.table, first.next);
        },
        Term::Mul(a, b) => {
            lemma_slots_are_never_reused(*a, table, next);
            let first = allot(*a, table, next);
            lemma_slots_are_never_reused(*b, first.table, first.next);
        },
        Term::Let(m, a, b) => {
            lemma_slots_are_never_reused(*a, table, next);
            let first = allot(*a, table, next);
            if first.failed is None {
                let bound = first.table.insert(m, first.next);
                lemma_slots_are_never_reused(*b, bound, first.next + 1);
                let last = allot(*b, bound, first.next + 1);
                assert forall|n: Seq<char>| #[trigger] last.table.contains_key(n) implies ({
                    ||| table.contains_key(n) && last.table[n] == table[n]
                    ||| binds(t, n) && next <= last.table[n] < last.next
                }) by {
                    if bound.contains_key(n) && last.table[n] == bound[n] {
                        if n != m {
                            assert(first.table.contains_key(n));
                        }
                    }
                }
            }
        },
    }
}

/// A `Let` that is lowered to the end gives its name a new slot: one that
/// is not below the next free slot from before.
pub proof fn lemma_let_takes_a_new_slot(
    n: Seq<char>,
    bound: Term,
    body: Term,
    table: Table,
    next: nat,
)
    requires
        allot(Term::Let(n, Box::new(bound), Box::new(body)), table, next).failed is None,
    ensures
        allot(Term::Let(n, Box::new(bound), Box::new(body)), table, next).table.contains_key(n),
        allot(Term::Let(n, Box::new(bound), Box::new(body)), table, next).table[n] >= next,
{
    let first = allot(bound, table, next);
    lemma_slots_are_never_reused(bound, table, next);
    lemma_slots_are_never_reused(body, first.table.insert(n, first.next), first.next + 1);
    assert(first.table.insert(n, first.next).dom().contains(n));
}

/// Parsing is a function of the text: two results of parsing one text are
/// the same tree, or the same failure.
pub proof fn lemma_parse_is_pure(
    src: Seq<char>,
    first: Result<Expr, Error>,
    second: Result<Expr, Error>,
)
    requires
        parsed(first) == parse_spec(src),
        parsed(second) == parse_spec(src),
    ensures
        parsed(first) == parsed(second),
{
}

/// Evaluation never takes a binding away: every name bound before is
/// bound afterwards, whether the evaluation succeeds or fails.
pub proof fn lemma_bindings_stay(t: Term, env: Env)
    ensures
        env.dom().subset_of(eval_spec(t, env).1.dom()),
    decreases t,
{
    match t {
        Term::Lit(_) => {},
        Term::Var(_) => {},
        Term::Neg(a) => {
            lemma_bindings_stay(*a, env);
        },
        Term::Add(a, b) => {
            lemma_bindings_stay(*a, env);
            lemma_bindings_stay(*b, eval_spec(*a, env).1);
        },
        Term::Sub(a, b) => {
            lemma_bindings_stay(*a, env);
            lemma_bindings_stay(*b, eval_spec(*a, env).1);
        },
        Term::Mul(a, b) => {
            lemma_bindings_stay(*a, env);
            lemma_bindings_stay(*b, eval_spec(*a, env).1);
        },
        Term::Let(n, a, b) => {
            lemma_bindings_stay(*a, env);
            let (ra, e1) = eval_spec(*a, env);
            if ra is Ok {
                lemma_bindings_stay(*b, e1.insert(n, ra->Ok_0));
            }
        },
    }
}

/// A `Let` that is evaluated to the end leaves its name bound: the
/// binding is seen by whatever the session evaluates next.
pub proof fn lemma_let_leaks(n: Seq<char>, bound: Term, body: Term, env: Env)
    requires
        eval_spec(Term::Let(n, Box::new(bound), Box::new(body)), env).0 is Ok,
    ensures
        eval_spec(Term::Let(n, Box::new(bound), Box::new(body)), env).1.contains_key(n),
{
    let (ra, e1) = eval_spec(bound, env);
    lemma_bindings_stay(body, e1.insert(n, ra->Ok_0));
    assert(e1.insert(n, ra->Ok_0).dom().contains(n));
}

/// Negating twice gives the value back, and changes nothing else.
pub proof fn lemma_double_negation(t: Term, env: Env)
    ensures
        eval_spec(Term::Neg(Box::new(Term::Neg(Box::new(t)))), env) == eval_spec(t, env),
{
    let inner = Term::Neg(Box::new(t));
    assert(eval_spec(Term::Neg(Box::new(inner)), env).1 == eval_spec(inner, env).1);
    assert(eval_spec(inner, env).1 == eval_spec(t, env).1);
    match eval_spec(t, env).0 {
        Ok(x) => {
            assert(eval_spec(inner, env).0 == Ok::<i64, ErrorView>(0i64.wrapping_sub(x)));
            assert(0i64.wrapping_sub(0i64.wrapping_sub(x)) == x);
        },
        Err(f) => {},
    }
}

} // verus!
