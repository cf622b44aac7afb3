use language_greenhouse::calc::{eval, parse, Error, Expected, Expr, Interpreter, SyntaxFailure};

fn lit(v: i64) -> Box<Expr> {
    Box::new(Expr::Value(v))
}

fn var(name: &str) -> Box<Expr> {
    Box::new(Expr::EVar(name.to_string()))
}

fn syntax(position: usize, expected: Expected) -> Error {
    Error::SyntaxError(SyntaxFailure { position, expected })
}

#[test]
fn calc_0() {
    let expr = Expr::EMul(Box::new(Expr::Value(5)), Box::new(Expr::Value(5)));
    let v = Interpreter::new().eval(expr).unwrap();
    assert!(v == 25);
}

#[test]
fn calc_1() {
    let src = "let x = 5; x * x";
    let v = eval(src).unwrap();
    assert!(v == 25);
}

#[test]
fn calc_2() {
    let src = "let x = 5; (x + x) * x";
    let v = eval(src).unwrap();
    assert!(v == 50);
}

#[test]
fn arithmetic() {
    assert_eq!(eval("2*3+4"), Ok(10));
    assert_eq!(eval("-5"), Ok(-5));
    assert_eq!(eval("--5"), Ok(5));
}

#[test]
fn let_and_shadowing() {
    assert_eq!(eval("let x = 5; x * x"), Ok(25));
    assert_eq!(eval("let x = 1; let x = 2; x"), Ok(2));
}

#[test]
fn earlier_bindings_stay_visible() {
    assert_eq!(eval("let x = 5; let y = x + 1; y"), Ok(6));
}

#[test]
fn binding_inside_an_operand_is_seen_by_the_next_operand() {
    let tree = Expr::EAdd(
        Box::new(Expr::ELet("x".to_string(), lit(1), var("x"))),
        var("x"),
    );
    assert_eq!(Interpreter::new().eval(tree), Ok(2));
}

#[test]
fn session_keeps_bindings_between_evaluations() {
    let mut session = Interpreter::new();
    assert_eq!(session.eval(Expr::ELet("x".to_string(), lit(7), lit(0))), Ok(0));
    assert_eq!(session.eval(Expr::EVar("x".to_string())), Ok(7));
    assert_eq!(session.eval(Expr::ELet("x".to_string(), lit(8), var("x"))), Ok(8));
    assert_eq!(session.eval(Expr::EVar("x".to_string())), Ok(8));
}

#[test]
fn unbound_name_is_reported() {
    assert_eq!(eval("x + 1"), Err(Error::UnboundName("x".to_string())));
    assert_eq!(eval("let x = 1; y"), Err(Error::UnboundName("y".to_string())));
    assert_eq!(eval("let x = x; x"), Err(Error::UnboundName("x".to_string())));
}

#[test]
fn first_unbound_name_from_the_left_wins() {
    assert_eq!(eval("a + b"), Err(Error::UnboundName("a".to_string())));
    assert_eq!(eval("1 + b * c"), Err(Error::UnboundName("b".to_string())));
}

#[test]
fn syntax_failure_gives_no_value() {
    assert_eq!(eval("let x = ; 1"), Err(syntax(8, Expected::Operand)));
    assert_eq!(parse("let x = ; 1"), Err(syntax(8, Expected::Operand)));
}

#[test]
fn parsing_twice_gives_the_same_tree() {
    let src = "let a = 2; let b = -a * (a - 1); a + b * 3";
    assert_eq!(parse(src), parse(src));
    assert!(parse(src).is_ok());
    assert_eq!(parse("1 +"), parse("1 +"));
}

#[test]
fn precedence() {
    assert_eq!(eval("2+3*4"), Ok(14));
    assert_eq!(eval("(2+3)*4"), Ok(20));
}

#[test]
fn product_binds_tighter_than_sum() {
    assert_eq!(
        parse("2+3*4"),
        Ok(Expr::EAdd(lit(2), Box::new(Expr::EMul(lit(3), lit(4)))))
    );
    assert_eq!(
        parse("2*3+4"),
        Ok(Expr::EAdd(Box::new(Expr::EMul(lit(2), lit(3))), lit(4)))
    );
}

#[test]
fn minus_binds_tighter_than_product() {
    assert_eq!(
        parse("-5 * 2"),
        Ok(Expr::EMul(Box::new(Expr::ENeg(lit(5))), lit(2)))
    );
    assert_eq!(
        parse("2 * -5"),
        Ok(Expr::EMul(lit(2), Box::new(Expr::ENeg(lit(5)))))
    );
    assert_eq!(
        parse("1 - -1"),
        Ok(Expr::ESub(lit(1), Box::new(Expr::ENeg(lit(1)))))
    );
}

#[test]
fn each_minus_is_a_node_of_its_own() {
    assert_eq!(
        parse("--5"),
        Ok(Expr::ENeg(Box::new(Expr::ENeg(lit(5)))))
    );
    assert_eq!(
        parse("- - -x"),
        Ok(Expr::ENeg(Box::new(Expr::ENeg(Box::new(Expr::ENeg(var("x")))))))
    );
}

#[test]
fn sums_and_products_lean_left() {
    assert_eq!(
        parse("1-2-3"),
        Ok(Expr::ESub(Box::new(Expr::ESub(lit(1), lit(2))), lit(3)))
    );
    assert_eq!(eval("1-2-3"), Ok(-4));
    assert_eq!(
        parse("1-2+3"),
        Ok(Expr::EAdd(Box::new(Expr::ESub(lit(1), lit(2))), lit(3)))
    );
    assert_eq!(
        parse("2*3*4"),
        Ok(Expr::EMul(Box::new(Expr::EMul(lit(2), lit(3))), lit(4)))
    );
}

#[test]
fn let_chain_nests_to_the_right() {
    assert_eq!(
        parse("let x=1; let y=2; x+y"),
        Ok(Expr::ELet(
            "x".to_string(),
            lit(1),
            Box::new(Expr::ELet(
                "y".to_string(),
                lit(2),
                Box::new(Expr::EAdd(var("x"), var("y")))
            ))
        ))
    );
}

#[test]
fn parentheses_leave_no_node() {
    assert_eq!(parse("((7))"), Ok(Expr::Value(7)));
    assert_eq!(
        parse("(1+2)*(3)"),
        Ok(Expr::EMul(Box::new(Expr::EAdd(lit(1), lit(2))), lit(3)))
    );
}

#[test]
fn names_are_letters_digits_and_underscores() {
    assert_eq!(parse("_a1"), Ok(Expr::EVar("_a1".to_string())));
    assert_eq!(parse("Zz_9"), Ok(Expr::EVar("Zz_9".to_string())));
    assert_eq!(parse("letx"), Ok(Expr::EVar("letx".to_string())));
    assert_eq!(parse("1a"), Err(syntax(1, Expected::EndOfInput)));
    assert_eq!(parse("\u{e9}"), Err(syntax(0, Expected::Operand)));
}

#[test]
fn let_is_a_name_where_no_binding_fits() {
    assert_eq!(parse("let"), Ok(Expr::EVar("let".to_string())));
    assert_eq!(
        parse("let + 1"),
        Ok(Expr::EAdd(var("let"), lit(1)))
    );
    assert_eq!(eval("let"), Err(Error::UnboundName("let".to_string())));
    assert_eq!(eval("let let = 3; let * 2"), Ok(6));
}

#[test]
fn white_space_around_tokens() {
    assert_eq!(eval("  1 +\t2 *\n3  "), Ok(7));
    assert_eq!(eval("\u{a0}4\u{2003}-\u{3000}1"), Ok(3));
    assert_eq!(eval("let   x   =1;x"), Ok(1));
    assert_eq!(eval("( 1 )"), Ok(1));
    assert_eq!(eval("- (2)"), Ok(-2));
    assert_eq!(eval("1 + (2) "), Ok(3));
    assert_eq!(eval(" (2)"), Ok(2));
}

#[test]
fn no_white_space_before_a_parenthesis_that_follows_a_bare_symbol() {
    assert_eq!(parse("( (2))"), Err(syntax(2, Expected::Operand)));
    assert_eq!(parse("((2) )"), Err(syntax(4, Expected::CloseParen)));
    assert_eq!(parse("let x = (2); x"), Err(syntax(8, Expected::Operand)));
    assert_eq!(eval("let x =(2); x"), Ok(2));
    assert_eq!(parse("let x =(2) ; x"), Err(syntax(10, Expected::Semicolon)));
}

#[test]
fn integer_literals() {
    assert_eq!(parse("0"), Ok(Expr::Value(0)));
    assert_eq!(parse("10"), Ok(Expr::Value(10)));
    assert_eq!(
        parse("9223372036854775807"),
        Ok(Expr::Value(9223372036854775807))
    );
    assert_eq!(eval("1234567890123"), Ok(1234567890123));
}

#[test]
fn integer_literal_that_does_not_fit() {
    assert_eq!(
        parse("9223372036854775808"),
        Err(syntax(0, Expected::SmallerInteger))
    );
    assert_eq!(
        parse("1 + 99999999999999999999"),
        Err(syntax(4, Expected::SmallerInteger))
    );
    assert_eq!(
        parse("-9223372036854775808"),
        Err(syntax(1, Expected::SmallerInteger))
    );
}

#[test]
fn leading_zero_ends_the_literal() {
    assert_eq!(parse("007"), Err(syntax(1, Expected::EndOfInput)));
    assert_eq!(parse("0 + 0"), Ok(Expr::EAdd(lit(0), lit(0))));
}

#[test]
fn failure_is_the_furthest_one() {
    assert_eq!(parse(""), Err(syntax(0, Expected::Operand)));
    assert_eq!(parse("   "), Err(syntax(3, Expected::Operand)));
    assert_eq!(parse("1 +"), Err(syntax(3, Expected::Operand)));
    assert_eq!(parse("1 2"), Err(syntax(2, Expected::EndOfInput)));
    assert_eq!(parse("(1"), Err(syntax(2, Expected::CloseParen)));
    assert_eq!(parse("(1 2)"), Err(syntax(3, Expected::CloseParen)));
    assert_eq!(parse("2 * )"), Err(syntax(4, Expected::Operand)));
    assert_eq!(parse("let x 1; x"), Err(syntax(6, Expected::Equals)));
    assert_eq!(parse("let x = 1 x"), Err(syntax(10, Expected::Semicolon)));
    assert_eq!(parse("let 1 = 2; 3"), Err(syntax(4, Expected::Name)));
    assert_eq!(parse("let x = 1; let y = ; 2"), Err(syntax(19, Expected::Operand)));
    assert_eq!(parse("let x = 1;"), Err(syntax(10, Expected::Operand)));
}

#[test]
fn failure_lies_within_the_text() {
    for src in ["", " ", "1 +", "(((", "let x = 1; let y", "let x = 1; y z", "1 * * 2", "\u{3000}(\u{3000}"] {
        match parse(src) {
            Err(Error::SyntaxError(f)) => assert!(f.position <= src.chars().count(), "{:?}", src),
            other => panic!("{:?}", other),
        }
    }
}

#[test]
fn positions_count_characters() {
    assert_eq!(parse("\u{3000}\u{3000}1 \u{e9}"), Err(syntax(4, Expected::EndOfInput)));
}

#[test]
fn arithmetic_wraps_at_sixty_four_bits() {
    assert_eq!(
        Interpreter::new().eval(Expr::EAdd(lit(i64::MAX), lit(1))),
        Ok(i64::MIN)
    );
    assert_eq!(
        Interpreter::new().eval(Expr::ESub(lit(i64::MIN), lit(1))),
        Ok(i64::MAX)
    );
    assert_eq!(
        Interpreter::new().eval(Expr::EMul(lit(i64::MAX), lit(2))),
        Ok(-2)
    );
    assert_eq!(
        Interpreter::new().eval(Expr::ENeg(lit(i64::MIN))),
        Ok(i64::MIN)
    );
    assert_eq!(eval("9223372036854775807 + 1"), Ok(i64::MIN));
    assert_eq!(eval("-9223372036854775807 - 2"), Ok(i64::MAX));
    assert_eq!(eval("4611686018427387904 * 4"), Ok(0));
}

#[test]
fn double_negation_gives_the_value_back() {
    assert_eq!(eval("let x = 41; --x"), eval("let x = 41; x"));
    assert_eq!(
        Interpreter::new().eval(Expr::ENeg(Box::new(Expr::ENeg(lit(i64::MIN))))),
        Ok(i64::MIN)
    );
}

#[test]
fn let_count_counts_bindings() {
    assert_eq!(Expr::Value(1).let_count(), Some(0));
    assert_eq!(parse("let x = 1; let y = x; x + y").unwrap().let_count(), Some(2));
    let nested = Expr::EMul(
        Box::new(Expr::ELet("a".to_string(), Box::new(Expr::ELet("b".to_string(), lit(1), var("b"))), var("a"))),
        Box::new(Expr::ENeg(Box::new(Expr::ELet("c".to_string(), lit(2), lit(3))))),
    );
    assert_eq!(nested.let_count(), Some(3));
}
