//! The grammar, and the parser that reads it.
//!
//! From the loosest rule to the tightest:
//!
//! ```text
//! declaration := "let" name "=" sum ";" declaration | sum
//! sum         := product (("+" | "-") product)*
//! product     := unary ("*" unary)*
//! unary       := "-"* atom
//! atom        := integer | "(" sum ")" | name
//! ```
//!
//! Alternatives are tried in the order written and the first that fits is
//! taken; a repetition takes as much as it can. White space may stand
//! around a declaration, an integer, a name and an operator. None may stand
//! before `(`, `)`, `=` or `;` unless one of those comes before it and
//! takes it. `let` is a name like any other wherever the first form of a
//! declaration does not fit.
//!
//! Every rule is a function of the text, a position and the furthest
//! failure met so far. Every position that a rule hands on lies ahead of
//! the one it was given and within the text; where a rule is applied to
//! such a position the definition says so (`i < k <= s.len()`), which is
//! what shows that the definitions end.

use vstd::prelude::*;
use crate::calc::ast::{Expr, Term};
use crate::calc::error::{Error, ErrorView, Expected, SyntaxFailure};
use crate::calc::text::{
    characters, is_let, lemma_literal_bounds, lemma_name_bounds, lemma_skip_space_bounds,
    literal_at, literal_span, literal_value, name_at, name_span, number, skip_space, skip_spaces,
    text_of,
};

verus! {

/// What a rule finds at a position.
pub struct Scan {
    /// The tree that the rule recognised and the position after it, or
    /// nothing where the rule does not fit.
    pub hit: Option<(Term, int)>,
    /// The furthest failure met so far.
    pub far: Option<SyntaxFailure>,
}

/// `far`, or the failure at `position` if that lies further on.
pub open spec fn further(
    far: Option<SyntaxFailure>,
    position: int,
    expected: Expected,
) -> Option<SyntaxFailure> {
    if far is Some && far->0.position >= position {
        far
    } else {
        Some(SyntaxFailure { position: position as usize, expected })
    }
}

/// The rule fits: `t` was recognised and the text goes on at `next`.
pub open spec fn found(t: Term, next: int, far: Option<SyntaxFailure>) -> Scan {
    Scan { hit: Some((t, next)), far }
}

/// The rule does not fit.
pub open spec fn missed(far: Option<SyntaxFailure>) -> Scan {
    Scan { hit: None, far }
}

/// `atom := integer | "(" sum ")" | name`
pub open spec fn atom_at(s: Seq<char>, i: int, far: Option<SyntaxFailure>) -> Scan
    decreases s.len() - i, 0int,
{
    let j = skip_space(s, i);
    match literal_at(s, j) {
        Some(k) => if number(s.subrange(j, k)) <= i64::MAX {
            found(Term::Lit(number(s.subrange(j, k)) as i64), skip_space(s, k), far)
        } else {
            missed(further(far, j, Expected::SmallerInteger))
        },
        None => if 0 <= i < s.len() && s[i] == '(' {
            let inner = sum_at(s, i + 1, far);
            match inner.hit {
                Some((t, k)) => if 0 <= k < s.len() && s[k] == ')' {
                    found(t, k + 1, inner.far)
                } else {
                    missed(further(inner.far, k, Expected::CloseParen))
                },
                None => inner,
            }
        } else {
            match name_at(s, j) {
                Some(k) => found(Term::Var(s.subrange(j, k)), skip_space(s, k), far),
                None => missed(further(far, j, Expected::Operand)),
            }
        },
    }
}

/// `unary := "-"* atom`
pub open spec fn unary_at(s: Seq<char>, i: int, far: Option<SyntaxFailure>) -> Scan
    decreases s.len() - i, 1int,
{
    let j = skip_space(s, i);
    if 0 <= j < s.len() && s[j] == '-' {
        let k = skip_space(s, j + 1);
        if i < k <= s.len() {
            let operand = unary_at(s, k, far);
            match operand.hit {
                Some((t, next)) => found(Term::Neg(Box::new(t)), next, operand.far),
                None => operand,
            }
        } else {
            missed(far)
        }
    } else {
        atom_at(s, i, far)
    }
}

/// `("*" unary)*`, after the product `lhs`.
pub open spec fn product_from(s: Seq<char>, i: int, lhs: Term, far: Option<SyntaxFailure>) -> Scan
    decreases s.len() - i, 2int,
{
    let j = skip_space(s, i);
    let k = skip_space(s, j + 1);
    if 0 <= j < s.len() && s[j] == '*' && i < k <= s.len() {
        let rhs = unary_at(s, k, far);
        match rhs.hit {
            Some((t, next)) => if k <= next <= s.len() {
                product_from(s, next, Term::Mul(Box::new(lhs), Box::new(t)), rhs.far)
            } else {
                found(lhs, i, rhs.far)
            },
            None => found(lhs, i, rhs.far),
        }
    } else {
        found(lhs, i, far)
    }
}

/// `product := unary ("*" unary)*`
pub open spec fn product_at(s: Seq<char>, i: int, far: Option<SyntaxFailure>) -> Scan
    decreases s.len() - i, 3int,
{
    let first = unary_at(s, i, far);
    match first.hit {
        Some((t, k)) => if i <= k <= s.len() {
            product_from(s, k, t, first.far)
        } else {
            first
        },
        None => first,
    }
}

/// `(("+" | "-") product)*`, after the sum `lhs`.
pub open spec fn sum_from(s: Seq<char>, i: int, lhs: Term, far: Option<SyntaxFailure>) -> Scan
    decreases s.len() - i, 4int,
{
    let j = skip_space(s, i);
    let k = skip_space(s, j + 1);
    if 0 <= j < s.len() && (s[j] == '+' || s[j] == '-') && i < k <= s.len() {
        let rhs = product_at(s, k, far);
        match rhs.hit {
            Some((t, next)) => if k <= next <= s.len() {
                sum_from(
                    s,
                    next,
                    if s[j] == '+' {
                        Term::Add(Box::new(lhs), Box::new(t))
                    } else {
                        Term::Sub(Box::new(lhs), Box::new(t))
                    },
                    rhs.far,
                )
            } else {
                found(lhs, i, rhs.far)
            },
            None => found(lhs, i, rhs.far),
        }
    } else {
        found(lhs, i, far)
    }
}

/// `sum := product (("+" | "-") product)*`
pub open spec fn sum_at(s: Seq<char>, i: int, far: Option<SyntaxFailure>) -> Scan
    decreases s.len() - i, 5int,
{
    let first = product_at(s, i, far);
    match first.hit {
        Some((t, k)) => if i <= k <= s.len() {
            sum_from(s, k, t, first.far)
        } else {
            first
        },
        None => first,
    }
}

/// `"let" name "=" sum ";" declaration`, with `i` at the word `let`.
pub open spec fn binding_at(s: Seq<char>, i: int, far: Option<SyntaxFailure>) -> Scan
    decreases s.len() - i, 6int,
{
    match name_at(s, i) {
        Some(word_end) => if is_let(s.subrange(i, word_end)) {
            let a = skip_space(s, word_end);
            match name_at(s, a) {
                Some(b) => {
                    let c = skip_space(s, b);
                    if i < c < s.len() && s[c] == '=' {
                        let bound = sum_at(s, c + 1, far);
                        match bound.hit {
                            Some((t1, d)) => if c < d < s.len() && s[d] == ';' {
                                let body = declaration_at(s, d + 1, bound.far);
                                match body.hit {
                                    Some((t2, e)) => found(
                                        Term::Let(s.subrange(a, b), Box::new(t1), Box::new(t2)),
                                        e,
                                        body.far,
                                    ),
                                    None => body,
                                }
                            } else {
                                missed(further(bound.far, d, Expected::Semicolon))
                            },
                            None => bound,
                        }
                    } else {
                        missed(further(far, c, Expected::Equals))
                    }
                },
                None => missed(further(far, a, Expected::Name)),
            }
        } else {
            missed(far)
        },
        None => missed(far),
    }
}

/// `declaration := "let" name "=" sum ";" declaration | sum`, with white
/// space allowed before and after.
pub open spec fn declaration_at(s: Seq<char>, i: int, far: Option<SyntaxFailure>) -> Scan
    decreases s.len() - i, 7int,
{
    let j = skip_space(s, i);
    if i <= j <= s.len() {
        let first = binding_at(s, j, far);
        match first.hit {
            Some((t, k)) => found(t, skip_space(s, k), first.far),
            None => {
                let second = sum_at(s, j, first.far);
                match second.hit {
                    Some((t, k)) => found(t, skip_space(s, k), second.far),
                    None => second,
                }
            },
        }
    } else {
        missed(far)
    }
}

/// The tree that the text `s` writes: a declaration that takes up the whole
/// text. Where `s` is no such text, the furthest failure that the rules
/// met.
pub open spec fn parse_spec(s: Seq<char>) -> Result<Term, ErrorView> {
    let whole = declaration_at(s, 0, None);
    match whole.hit {
        Some((t, k)) => if k == s.len() {
            Ok(t)
        } else {
            Err(ErrorView::SyntaxError(further(whole.far, k, Expected::EndOfInput)->0))
        },
        None => Err(
            ErrorView::SyntaxError(
                match whole.far {
                    Some(f) => f,
                    None => SyntaxFailure { position: 0, expected: Expected::Operand },
                },
            ),
        ),
    }
}

impl Scan {
    /// Whether the position handed on, if there is one, lies in `lo..=hi`.
    pub open spec fn lands_in(self, lo: int, hi: int) -> bool {
        self.hit matches Some((_, k)) ==> lo <= k <= hi
    }

    /// Whether this is what a rule may find in a text of length `len` when
    /// it is given the failure `before`: the position handed on lies in
    /// `lo..=len`; a rule that does not fit has met a failure; the failure
    /// is `before` or one further on; and it lies within the text if
    /// `before` does.
    pub open spec fn keeps(self, before: Option<SyntaxFailure>, lo: int, len: int) -> bool {
        &&& self.lands_in(lo, len)
        &&& self.hit is None ==> self.far is Some
        &&& before is Some ==> self.far is Some && self.far->0.position >= before->0.position
        &&& within(before, len) ==> within(self.far, len)
    }
}

/// Whether `far`, if it is a failure, lies within a text of length `len`
/// or at its end.
pub open spec fn within(far: Option<SyntaxFailure>, len: int) -> bool {
    far matches Some(f) ==> f.position <= len
}

/// Every rule that fits takes at least one character and stays within the
/// text, so the conditions on positions in the rules' definitions always
/// hold.
pub proof fn lemma_rules_advance(s: Seq<char>, i: int, far: Option<SyntaxFailure>)
    requires
        0 <= i <= s.len() <= usize::MAX,
    ensures
        atom_at(s, i, far).lands_in(i + 1, s.len() as int),
        unary_at(s, i, far).lands_in(i + 1, s.len() as int),
        product_at(s, i, far).lands_in(i + 1, s.len() as int),
        sum_at(s, i, far).lands_in(i + 1, s.len() as int),
        binding_at(s, i, far).lands_in(i + 1, s.len() as int),
        declaration_at(s, i, far).lands_in(i + 1, s.len() as int),
{
    lemma_atom(s, i, far);
    lemma_unary(s, i, far);
    lemma_product(s, i, far);
    lemma_sum(s, i, far);
    lemma_binding(s, i, far);
    lemma_declaration(s, i, far);
}

/// A repetition always fits, and hands on a position that is not behind
/// the one it was given.
pub proof fn lemma_repetitions_fit(s: Seq<char>, i: int, lhs: Term, far: Option<SyntaxFailure>)
    requires
        0 <= i <= s.len() <= usize::MAX,
    ensures
        product_from(s, i, lhs, far).hit is Some,
        product_from(s, i, lhs, far).lands_in(i, s.len() as int),
        sum_from(s, i, lhs, far).hit is Some,
        sum_from(s, i, lhs, far).lands_in(i, s.len() as int),
{
    lemma_product_from(s, i, lhs, far);
    lemma_sum_from(s, i, lhs, far);
}

/// A text is a program or has a syntax failure, and the failure lies
/// within the text or at its end.
pub proof fn lemma_failure_lies_in_the_text(s: Seq<char>)
    requires
        s.len() <= usize::MAX,
    ensures
        parse_spec(s) matches Err(f) ==> f matches ErrorView::SyntaxError(at) && at.position
            <= s.len(),
{
    lemma_declaration(s, 0, None);
}

proof fn lemma_atom(s: Seq<char>, i: int, far: Option<SyntaxFailure>)
    requires
        0 <= i <= s.len() <= usize::MAX,
    ensures
        atom_at(s, i, far).keeps(far, i + 1, s.len() as int),
    decreases s.len() - i, 0int,
{
    lemma_skip_space_bounds(s, i);
    let j = skip_space(s, i);
    lemma_literal_bounds(s, j);
    lemma_name_bounds(s, j);
    match literal_at(s, j) {
        Some(k) => {
            lemma_skip_space_bounds(s, k);
        },
        None => if i < s.len() && s[i] == '(' {
            lemma_sum(s, i + 1, far);
        } else {
            match name_at(s, j) {
                Some(k) => {
                    lemma_skip_space_bounds(s, k);
                },
                None => {},
            }
        },
    }
}

proof fn lemma_unary(s: Seq<char>, i: int, far: Option<SyntaxFailure>)
    requires
        0 <= i <= s.len() <= usize::MAX,
    ensures
        unary_at(s, i, far).keeps(far, i + 1, s.len() as int),
    decreases s.len() - i, 1int,
{
    lemma_skip_space_bounds(s, i);
    let j = skip_space(s, i);
    if j < s.len() && s[j] == '-' {
        lemma_skip_space_bounds(s, j + 1);
        lemma_unary(s, skip_space(s, j + 1), far);
    } else {
        lemma_atom(s, i, far);
    }
}

proof fn lemma_product_from(s: Seq<char>, i: int, lhs: Term, far: Option<SyntaxFailure>)
    requires
        0 <= i <= s.len() <= usize::MAX,
    ensures
        product_from(s, i, lhs, far).hit is Some,
        product_from(s, i, lhs, far).keeps(far, i, s.len() as int),
    decreases s.len() - i, 2int,
{
    lemma_skip_space_bounds(s, i);
    let j = skip_space(s, i);
    if j < s.len() && s[j] == '*' {
        lemma_skip_space_bounds(s, j + 1);
        let k = skip_space(s, j + 1);
        lemma_unary(s, k, far);
        let rhs = unary_at(s, k, far);
        match rhs.hit {
            Some((t, next)) => {
                lemma_product_from(s, next, Term::Mul(Box::new(lhs), Box::new(t)), rhs.far);
            },
            None => {},
        }
    }
}

proof fn lemma_product(s: Seq<char>, i: int, far: Option<SyntaxFailure>)
    requires
        0 <= i <= s.len() <= usize::MAX,
    ensures
        product_at(s, i, far).keeps(far, i + 1, s.len() as int),
    decreases s.len() - i, 3int,
{
    lemma_unary(s, i, far);
    let first = unary_at(s, i, far);
    match first.hit {
        Some((t, k)) => {
            lemma_product_from(s, k, t, first.far);
        },
        None => {},
    }
}

proof fn lemma_sum_from(s: Seq<char>, i: int, lhs: Term, far: Option<SyntaxFailure>)
    requires
        0 <= i <= s.len() <= usize::MAX,
    ensures
        sum_from(s, i, lhs, far).hit is Some,
        sum_from(s, i, lhs, far).keeps(far, i, s.len() as int),
    decreases s.len() - i, 4int,
{
    lemma_skip_space_bounds(s, i);
    let j = skip_space(s, i);
    if j < s.len() && (s[j] == '+' || s[j] == '-') {
        lemma_skip_space_bounds(s, j + 1);
        let k = skip_space(s, j + 1);
        lemma_product(s, k, far);
        let rhs = product_at(s, k, far);
        match rhs.hit {
            Some((t, next)) => {
                lemma_sum_from(
                    s,
                    next,
                    if s[j] == '+' {
                        Term::Add(Box::new(lhs), Box::new(t))
                    } else {
                        Term::Sub(Box::new(lhs), Box::new(t))
                    },
                    rhs.far,
                );
            },
            None => {},
        }
    }
}

proof fn lemma_sum(s: Seq<char>, i: int, far: Option<SyntaxFailure>)
    requires
        0 <= i <= s.len() <= usize::MAX,
    ensures
        sum_at(s, i, far).keeps(far, i + 1, s.len() as int),
    decreases s.len() - i, 5int,
{
    lemma_product(s, i, far);
    let first = product_at(s, i, far);
    match first.hit {
        Some((t, k)) => {
            lemma_sum_from(s, k, t, first.far);
        },
        None => {},
    }
}

proof fn lemma_binding(s: Seq<char>, i: int, far: Option<SyntaxFailure>)
    requires
        0 <= i <= s.len() <= usize::MAX,
    ensures
        binding_at(s, i, far).lands_in(i + 1, s.len() as int),
        far is Some ==> binding_at(s, i, far).far is Some && binding_at(s, i, far).far->0.position
            >= far->0.position,
        within(far, s.len() as int) ==> within(binding_at(s, i, far).far, s.len() as int),
    decreases s.len() - i, 6int,
{
    lemma_name_bounds(s, i);
    match name_at(s, i) {
        Some(word_end) => {
            lemma_skip_space_bounds(s, word_end);
            let a = skip_space(s, word_end);
            lemma_name_bounds(s, a);
            match name_at(s, a) {
                Some(b) => {
                    lemma_skip_space_bounds(s, b);
                    let c = skip_space(s, b);
                    if c < s.len() && s[c] == '=' {
                        lemma_sum(s, c + 1, far);
                        let bound = sum_at(s, c + 1, far);
                        match bound.hit {
                            Some((t1, d)) => if d < s.len() && s[d] == ';' {
                                lemma_declaration(s, d + 1, bound.far);
                            },
                            None => {},
                        }
                    }
                },
                None => {},
            }
        },
        None => {},
    }
}

proof fn lemma_declaration(s: Seq<char>, i: int, far: Option<SyntaxFailure>)
    requires
        0 <= i <= s.len() <= usize::MAX,
    ensures
        declaration_at(s, i, far).keeps(far, i + 1, s.len() as int),
    decreases s.len() - i, 7int,
{
    lemma_skip_space_bounds(s, i);
    let j = skip_space(s, i);
    lemma_binding(s, j, far);
    let first = binding_at(s, j, far);
    match first.hit {
        Some((t, k)) => {
            lemma_skip_space_bounds(s, k);
        },
        None => {
            lemma_sum(s, j, first.far);
            let second = sum_at(s, j, first.far);
            match second.hit {
                Some((t, k)) => {
                    lemma_skip_space_bounds(s, k);
                },
                None => {},
            }
        },
    }
}

/// What a rule finds at a position, as the parser holds it.
pub struct Step {
    pub hit: Option<(Expr, usize)>,
    pub far: Option<SyntaxFailure>,
}

impl View for Step {
    type V = Scan;

    open spec fn view(&self) -> Scan {
        Scan {
            hit: match self.hit {
                Some((e, k)) => Some((e@, k as int)),
                None => None,
            },
            far: self.far,
        }
    }
}

impl Step {
    /// Whether the position handed on, if there is one, lies in `lo..=hi`.
    pub open spec fn lands_in(&self, lo: int, hi: int) -> bool {
        self.hit matches Some((_, k)) ==> lo <= k <= hi
    }
}

/// A parsed tree or a failure, each by its view.
pub open spec fn parsed(r: Result<Expr, Error>) -> Result<Term, ErrorView> {
    match r {
        Ok(e) => Ok(e@),
        Err(f) => Err(f@),
    }
}

/// `far`, or the failure at `position` if that lies further on.
fn note(
    far: Option<SyntaxFailure>,
    position: usize,
    expected: Expected,
) -> (r: Option<SyntaxFailure>)
    ensures
        r == further(far, position as int, expected),
{
    match far {
        Some(f) => if f.position >= position {
            far
        } else {
            Some(SyntaxFailure { position, expected })
        },
        None => Some(SyntaxFailure { position, expected }),
    }
}

/// `atom := integer | "(" sum ")" | name`
fn atom(src: &Vec<char>, i: usize, far: Option<SyntaxFailure>) -> (r: Step)
    requires
        i <= src.len(),
    ensures
        r@ == atom_at(src@, i as int, far),
        r.lands_in(i + 1, src.len() as int),
    decreases src.len() - i, 0int,
{
    let j = skip_spaces(src, i);
    match literal_span(src, j) {
        Some(k) => match literal_value(src, j, k) {
            Some(v) => Step { hit: Some((Expr::Value(v), skip_spaces(src, k))), far },
            None => Step { hit: None, far: note(far, j, Expected::SmallerInteger) },
        },
        None => if i < src.len() && src[i] == '(' {
            let inner = sum(src, i + 1, far);
            match inner.hit {
                Some((e, k)) => if k < src.len() && src[k] == ')' {
                    Step { hit: Some((e, k + 1)), far: inner.far }
                } else {
                    Step { hit: None, far: note(inner.far, k, Expected::CloseParen) }
                },
                None => Step { hit: None, far: inner.far },
            }
        } else {
            match name_span(src, j) {
                Some(k) => Step {
                    hit: Some((Expr::EVar(text_of(src, j, k)), skip_spaces(src, k))),
                    far,
                },
                None => Step { hit: None, far: note(far, j, Expected::Operand) },
            }
        },
    }
}

/// `unary := "-"* atom`
fn unary(src: &Vec<char>, i: usize, far: Option<SyntaxFailure>) -> (r: Step)
    requires
        i <= src.len(),
    ensures
        r@ == unary_at(src@, i as int, far),
        r.lands_in(i + 1, src.len() as int),
    decreases src.len() - i, 1int,
{
    let j = skip_spaces(src, i);
    if j < src.len() && src[j] == '-' {
        let k = skip_spaces(src, j + 1);
        let operand = unary(src, k, far);
        match operand.hit {
            Some((e, next)) => Step { hit: Some((Expr::ENeg(Box::new(e)), next)), far: operand.far },
            None => Step { hit: None, far: operand.far },
        }
    } else {
        atom(src, i, far)
    }
}

/// `("*" unary)*`, after the product `lhs`.
fn product_rest(src: &Vec<char>, i: usize, lhs: Expr, far: Option<SyntaxFailure>) -> (r: Step)
    requires
        i <= src.len(),
    ensures
        r@ == product_from(src@, i as int, lhs@, far),
        r.hit is Some,
        r.lands_in(i as int, src.len() as int),
    decreases src.len() - i, 2int,
{
    let j = skip_spaces(src, i);
    if j < src.len() && src[j] == '*' {
        let k = skip_spaces(src, j + 1);
        let rhs = unary(src, k, far);
        match rhs.hit {
            Some((e, next)) => product_rest(
                src,
                next,
                Expr::EMul(Box::new(lhs), Box::new(e)),
                rhs.far,
            ),
            None => Step { hit: Some((lhs, i)), far: rhs.far },
        }
    } else {
        Step { hit: Some((lhs, i)), far }
    }
}

/// `product := unary ("*" unary)*`
fn product(src: &Vec<char>, i: usize, far: Option<SyntaxFailure>) -> (r: Step)
    requires
        i <= src.len(),
    ensures
        r@ == product_at(src@, i as int, far),
        r.lands_in(i + 1, src.len() as int),
    decreases src.len() - i, 3int,
{
    let first = unary(src, i, far);
    match first.hit {
        Some((e, k)) => product_rest(src, k, e, first.far),
        None => Step { hit: None, far: first.far },
    }
}

/// `(("+" | "-") product)*`, after the sum `lhs`.
fn sum_rest(src: &Vec<char>, i: usize, lhs: Expr, far: Option<SyntaxFailure>) -> (r: Step)
    requires
        i <= src.len(),
    ensures
        r@ == sum_from(src@, i as int, lhs@, far),
        r.hit is Some,
        r.lands_in(i as int, src.len() as int),
    decreases src.len() - i, 4int,
{
    let j = skip_spaces(src, i);
    if j < src.len() && (src[j] == '+' || src[j] == '-') {
        let plus = src[j] == '+';
        let k = skip_spaces(src, j + 1);
        let rhs = product(src, k, far);
        match rhs.hit {
            Some((e, next)) => sum_rest(
                src,
                next,
                if plus {
                    Expr::EAdd(Box::new(lhs), Box::new(e))
                } else {
                    Expr::ESub(Box::new(lhs), Box::new(e))
                },
                rhs.far,
            ),
            None => Step { hit: Some((lhs, i)), far: rhs.far },
        }
    } else {
        Step { hit: Some((lhs, i)), far }
    }
}

/// `sum := product (("+" | "-") product)*`
fn sum(src: &Vec<char>, i: usize, far: Option<SyntaxFailure>) -> (r: Step)
    requires
        i <= src.len(),
    ensures
        r@ == sum_at(src@, i as int, far),
        r.lands_in(i + 1, src.len() as int),
    decreases src.len() - i, 5int,
{
    let first = product(src, i, far);
    match first.hit {
        Some((e, k)) => sum_rest(src, k, e, first.far),
        None => Step { hit: None, far: first.far },
    }
}

/// `"let" name "=" sum ";" declaration`, with `i` at the word `let`.
fn binding(src: &Vec<char>, i: usize, far: Option<SyntaxFailure>) -> (r: Step)
    requires
        i <= src.len(),
    ensures
        r@ == binding_at(src@, i as int, far),
        r.lands_in(i + 1, src.len() as int),
    decreases src.len() - i, 6int,
{
    let word_end = match name_span(src, i) {
        Some(k) => k,
        None => {
            return Step { hit: None, far };
        },
    };
    if !(word_end - i == 3 && src[i] == 'l' && src[i + 1] == 'e' && src[i + 2] == 't') {
        assert(!is_let(src@.subrange(i as int, word_end as int))) by {
            let w = src@.subrange(i as int, word_end as int);
            if is_let(w) {
                assert(w.len() == 3);
                assert(w[0] == 'l' && w[1] == 'e' && w[2] == 't');
            }
        }
        return Step { hit: None, far };
    }
    assert(src@.subrange(i as int, word_end as int) =~= seq!['l', 'e', 't']);
    let a = skip_spaces(src, word_end);
    let b = match name_span(src, a) {
        Some(b) => b,
        None => {
            return Step { hit: None, far: note(far, a, Expected::Name) };
        },
    };
    let c = skip_spaces(src, b);
    if !(c < src.len() && src[c] == '=') {
        return Step { hit: None, far: note(far, c, Expected::Equals) };
    }
    let bound = sum(src, c + 1, far);
    let (e1, d) = match bound.hit {
        Some(h) => h,
        None => {
            return Step { hit: None, far: bound.far };
        },
    };
    if !(d < src.len() && src[d] == ';') {
        return Step { hit: None, far: note(bound.far, d, Expected::Semicolon) };
    }
    let body = declaration(src, d + 1, bound.far);
    match body.hit {
        Some((e2, e)) => Step {
            hit: Some((Expr::ELet(text_of(src, a, b), Box::new(e1), Box::new(e2)), e)),
            far: body.far,
        },
        None => Step { hit: None, far: body.far },
    }
}

/// `declaration := "let" name "=" sum ";" declaration | sum`
fn declaration(src: &Vec<char>, i: usize, far: Option<SyntaxFailure>) -> (r: Step)
    requires
        i <= src.len(),
    ensures
        r@ == declaration_at(src@, i as int, far),
        r.lands_in(i + 1, src.len() as int),
    decreases src.len() - i, 7int,
{
    let j = skip_spaces(src, i);
    let first = binding(src, j, far);
    match first.hit {
        Some((e, k)) => Step { hit: Some((e, skip_spaces(src, k))), far: first.far },
        None => {
            let second = sum(src, j, first.far);
            match second.hit {
                Some((e, k)) => Step { hit: Some((e, skip_spaces(src, k))), far: second.far },
                None => Step { hit: None, far: second.far },
            }
        },
    }
}

/// Reads the program that `src` writes.
///
/// Gives the tree, or the syntax failure, that [`parse_spec`] defines for
/// the characters of `src`, and never a part of a tree.
pub fn parse(src: &str) -> (r: Result<Expr, Error>)
    ensures
        parsed(r) == parse_spec(src@),
{
    let text = characters(src);
    let whole = declaration(&text, 0, None);
    match whole.hit {
        Some((e, k)) => if k == text.len() {
            Ok(e)
        } else {
            match note(whole.far, k, Expected::EndOfInput) {
                Some(f) => Err(Error::SyntaxError(f)),
                None => Err(
                    Error::SyntaxError(
                        SyntaxFailure { position: k, expected: Expected::EndOfInput },
                    ),
                ),
            }
        },
        None => match whole.far {
            Some(f) => Err(Error::SyntaxError(f)),
            None => Err(
                Error::SyntaxError(SyntaxFailure { position: 0, expected: Expected::Operand }),
            ),
        },
    }
}

} // verus!
