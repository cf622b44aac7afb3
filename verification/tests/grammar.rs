use chumsky::prelude::{end, just, recursive, Simple};
use chumsky::text;
use chumsky::text::TextParser;
use chumsky::Parser;
use language_greenhouse::calc::{parse, Expr};

fn join(op: char, lhs: Expr, rhs: Expr) -> Expr {
    match op {
        '+' => Expr::EAdd(Box::new(lhs), Box::new(rhs)),
        '-' => Expr::ESub(Box::new(lhs), Box::new(rhs)),
        _ => Expr::EMul(Box::new(lhs), Box::new(rhs)),
    }
}

/// The grammar written with parser combinators, to hold the parser against.
/// A literal that does not fit in sixty-four bits is no literal.
fn combinators() -> impl Parser<char, Expr, Error = Simple<char>> {
    let name = text::ident::<char, Simple<char>>().padded();
    let symbol = |c: char| just::<char, char, Simple<char>>(c).padded();

    let sum = recursive(|sum| {
        let literal = text::int::<char, Simple<char>>(10)
            .try_map(|digits: String, span| {
                digits
                    .parse::<i64>()
                    .map(Expr::Value)
                    .map_err(|_| Simple::custom(span, "does not fit"))
            })
            .padded();
        let atom = literal
            .or(sum.delimited_by(just('('), just(')')))
            .or(name.map(Expr::EVar));
        let unary = symbol('-')
            .repeated()
            .then(atom)
            .foldr(|_minus, operand| Expr::ENeg(Box::new(operand)));
        let product = unary
            .clone()
            .then(symbol('*').then(unary).repeated())
            .foldl(|lhs, (op, rhs)| join(op, lhs, rhs));
        product
            .clone()
            .then(symbol('+').or(symbol('-')).then(product).repeated())
            .foldl(|lhs, (op, rhs)| join(op, lhs, rhs))
    });

    let declaration = recursive(|declaration| {
        let binding = text::keyword::<char, &str, Simple<char>>("let")
            .ignore_then(name)
            .then_ignore(just('='))
            .then(sum.clone())
            .then_ignore(just(';'))
            .then(declaration)
            .map(|((bound_name, bound), body)| {
                Expr::ELet(bound_name, Box::new(bound), Box::new(body))
            });
        binding.or(sum).padded()
    });

    declaration.then_ignore(end())
}

fn agree(src: &str) -> bool {
    let ours = parse(src).ok();
    let theirs = combinators().parse(src).ok();
    assert_eq!(ours, theirs, "on {:?}", src);
    ours.is_some()
}

struct Dice(u64);

impl Dice {
    fn roll(&mut self, sides: usize) -> usize {
        self.0 = self
            .0
            .wrapping_mul(6364136223846793005)
            .wrapping_add(1442695040888963407);
        ((self.0 >> 33) % (sides as u64)) as usize
    }
}

/// Holds the parser against the combinators on `texts` texts made of up to
/// `longest` of the `pieces`, and gives the number of texts that are programs.
fn agree_on_random_texts(seed: u64, pieces: &[&str], longest: usize, texts: usize) -> usize {
    let mut dice = Dice(seed);
    let mut programs = 0;
    for _ in 0..texts {
        let mut src = String::new();
        for _ in 0..1 + dice.roll(longest) {
            src.push_str(pieces[dice.roll(pieces.len())]);
        }
        if agree(&src) {
            programs += 1;
        }
    }
    programs
}

#[test]
fn agrees_with_combinators_on_chosen_texts() {
    for src in [
        "",
        " ",
        "1",
        "x",
        "let",
        "letx",
        "let x",
        "let x = 1",
        "let x = 1;",
        "let x = 1; x",
        "let x=1;let y=2;x+y",
        "let x = ; 1",
        "let let = 1; let",
        "let + 1",
        "let(1)",
        "( (2))",
        "((2) )",
        "((2))",
        "( 2 )",
        " (2)",
        "- (2)",
        "1 + (2) ",
        "let x = (2); x",
        "let x =(2); x",
        "let x =(2) ; x",
        "let x = 1 ; x",
        "let x = 1;x",
        "--5",
        "- - 5",
        "1--1",
        "1 - - 1",
        "2*3+4",
        "2+3*4",
        "(2+3)*4",
        "1-2-3",
        "1 +",
        "* 2",
        "1 2",
        "007",
        "0",
        "00",
        "1a",
        "a1",
        "_",
        "_1_",
        "9223372036854775807",
        "9223372036854775808",
        "99999999999999999999999",
        "x\u{a0}+\u{2003}1",
        "\u{e9}",
        "1\n+\n2",
        "let\tx\t=\t1;\tx",
        "(",
        ")",
        "()",
        "(1",
        "1)",
        "=",
        ";",
        "let x = let y = 1; y; x",
        "let x = 1; let",
        "x let",
    ] {
        agree(src);
    }
}

#[test]
fn agrees_with_combinators_on_random_expressions() {
    let pieces = ["1", "0", "27", "x", "y1", "+", "-", "*", "(", ")", " ", "  "];
    let programs = agree_on_random_texts(1, &pieces, 9, 4000);
    assert!(programs > 400 && programs < 3600, "{}", programs);
}

#[test]
fn agrees_with_combinators_on_random_declarations() {
    let pieces = [
        "let", "let ", "x", "y", " ", "=", "= ", ";", "; ", "1", "40", "+", "*", "-", "(", ")",
    ];
    let programs = agree_on_random_texts(2, &pieces, 12, 4000);
    assert!(programs > 100 && programs < 3900, "{}", programs);
}

#[test]
fn agrees_with_combinators_on_random_well_formed_texts() {
    let pieces = [
        "let x = 1; ", "let y =(x + 2); ", "let x = -x * y;", "x", "y", "3", " + ", " * ", "-",
        "(x)", "(1 - y)", " ",
    ];
    let programs = agree_on_random_texts(3, &pieces, 8, 4000);
    assert!(programs > 400 && programs < 3600, "{}", programs);
}

#[test]
fn agrees_with_combinators_on_random_characters() {
    let pieces = [
        "l", "e", "t", "_", "9", "0", " ", "\t", "\u{3000}", "\u{e9}", "=", ";", "+", "(", ")",
    ];
    let programs = agree_on_random_texts(4, &pieces, 10, 4000);
    assert!(programs > 100 && programs < 3900, "{}", programs);
}
