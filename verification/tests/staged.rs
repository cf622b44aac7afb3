use cranelift::prelude::types;
use cranelift_module::ModuleError;
use language_greenhouse::calc::staged::{compilation_failure, or_refused};
use language_greenhouse::calc::{
    eval, eval_staged, parse, Compiled, Error, Expected, Expr, Interpreter, StagedInterpreter,
    SyntaxFailure,
};

fn body(compiled: &Compiled) -> Vec<String> {
    compiled
        .listing()
        .lines()
        .map(|line| line.split(';').next().unwrap().trim().to_string())
        .filter(|line| line.contains('=') || line.starts_with("return"))
        .collect()
}

fn compiled_body(src: &str) -> Vec<String> {
    body(&eval_staged(src).unwrap())
}

fn number(text: &str) -> i64 {
    let digits = text.replace('_', "");
    match digits.strip_prefix("0x") {
        Some(hex) => u64::from_str_radix(hex, 16).unwrap() as i64,
        None => digits.parse().unwrap(),
    }
}

fn held(values: &[(String, i64)], name: &str) -> i64 {
    values.iter().find(|(n, _)| n == name).unwrap().1
}

/// What the instructions of `body` return, read off their text.
fn result_of(body: &[String]) -> i64 {
    let mut values: Vec<(String, i64)> = Vec::new();
    for line in body {
        let words: Vec<&str> = line
            .split(|c: char| c == ' ' || c == ',')
            .filter(|w| !w.is_empty())
            .collect();
        if words[0] == "return" {
            return held(&values, words[1]);
        }
        let value = match words[2] {
            "iconst.i64" => number(words[3]),
            "ineg" => held(&values, words[3]).wrapping_neg(),
            "iadd" => held(&values, words[3]).wrapping_add(held(&values, words[4])),
            "isub" => held(&values, words[3]).wrapping_sub(held(&values, words[4])),
            "imul" => held(&values, words[3]).wrapping_mul(held(&values, words[4])),
            other => panic!("{}", other),
        };
        assert!(values.iter().all(|(n, _)| n != words[0]), "{} defined twice", words[0]);
        values.push((words[0].to_string(), value));
    }
    panic!("no return")
}

fn failure(src: &str) -> Error {
    match eval_staged(src) {
        Ok(_) => panic!("compiled"),
        Err(f) => f,
    }
}

#[test]
fn unbound_name_on_the_compiled_path() {
    assert_eq!(failure("x + 1"), Error::UnboundName("x".to_string()));
    assert_eq!(eval("x + 1"), Err(failure("x + 1")));
    assert_eq!(failure("let x = 1; y"), Error::UnboundName("y".to_string()));
    assert_eq!(failure("a + b"), Error::UnboundName("a".to_string()));
}

#[test]
fn syntax_failure_on_the_compiled_path() {
    assert_eq!(
        failure("let x = ; 1"),
        Error::SyntaxError(SyntaxFailure { position: 8, expected: Expected::Operand })
    );
    assert_eq!(eval("let x = ; 1"), Err(failure("let x = ; 1")));
}

#[test]
fn a_literal_is_a_constant() {
    assert_eq!(compiled_body("7"), vec!["v0 = iconst.i64 7", "return v0"]);
    assert_eq!(
        compiled_body("9223372036854775807"),
        vec!["v0 = iconst.i64 0x7fff_ffff_ffff_ffff", "return v0"]
    );
}

#[test]
fn operands_are_lowered_from_left_to_right() {
    assert_eq!(
        compiled_body("2*3+4"),
        vec![
            "v0 = iconst.i64 2",
            "v1 = iconst.i64 3",
            "v2 = imul v0, v1",
            "v3 = iconst.i64 4",
            "v4 = iadd v2, v3",
            "return v4",
        ]
    );
    assert_eq!(
        compiled_body("1-2"),
        vec!["v0 = iconst.i64 1", "v1 = iconst.i64 2", "v2 = isub v0, v1", "return v2"]
    );
}

#[test]
fn negation_is_one_instruction_for_each_minus() {
    assert_eq!(
        compiled_body("--5"),
        vec!["v0 = iconst.i64 5", "v1 = ineg v0", "v2 = ineg v1", "return v2"]
    );
}

#[test]
fn a_name_reads_the_value_written_to_its_slot() {
    assert_eq!(
        compiled_body("let x = 5; x * x"),
        vec!["v0 = iconst.i64 5", "v1 = imul v0, v0", "return v1"]
    );
    assert_eq!(
        compiled_body("let x = 5; let y = x + 1; y"),
        vec!["v0 = iconst.i64 5", "v1 = iconst.i64 1", "v2 = iadd v0, v1", "return v2"]
    );
}

#[test]
fn shadowing_takes_a_new_slot_and_keeps_the_old_code() {
    assert_eq!(
        compiled_body("let x = 1; let x = 2; x"),
        vec!["v0 = iconst.i64 1", "v1 = iconst.i64 2", "return v1"]
    );
    assert_eq!(
        compiled_body("let x = 1; let x = x + x; x"),
        vec!["v0 = iconst.i64 1", "v1 = iadd v0, v0", "return v1"]
    );
}

#[test]
fn the_function_takes_nothing_and_returns_one_integer() {
    let compiled = eval_staged("1").unwrap();
    let first = compiled.listing().lines().next().unwrap().to_string();
    assert!(first.starts_with("function "), "{}", first);
    assert!(first.contains("() -> i64"), "{}", first);
    assert_eq!(compiled.listing().matches("block").count(), 1);
}

#[test]
fn the_instructions_compute_what_the_interpreter_gives() {
    for src in [
        "2*3+4",
        "-5",
        "--5",
        "let x = 5; x * x",
        "let x = 1; let x = 2; x",
        "let x = 5; let y = x + 1; y",
        "2+3*4",
        "(2+3)*4",
        "let x = 5; (x + x) * x",
        "1-2-3",
        "let a = 7; let b = a * a - a; let a = b - -a; a * b + 1",
        "9223372036854775807 + 1",
        "-9223372036854775807 - 2",
        "4611686018427387904 * 4",
        "let x = 3037000500; x * x",
        "0",
    ] {
        assert_eq!(eval(src), Ok(result_of(&compiled_body(src))), "on {:?}", src);
    }
}

#[test]
fn the_instructions_of_a_tree_compute_what_the_interpreter_gives() {
    let trees = || {
        vec![
            Expr::Value(-5),
            Expr::Value(i64::MIN),
            Expr::ENeg(Box::new(Expr::Value(i64::MIN))),
            Expr::EMul(Box::new(Expr::Value(i64::MIN)), Box::new(Expr::Value(-1))),
            Expr::ESub(Box::new(Expr::Value(i64::MIN)), Box::new(Expr::Value(i64::MAX))),
            Expr::EAdd(
                Box::new(Expr::ELet(
                    "x".to_string(),
                    Box::new(Expr::Value(20)),
                    Box::new(Expr::EVar("x".to_string())),
                )),
                Box::new(Expr::EMul(
                    Box::new(Expr::EVar("x".to_string())),
                    Box::new(Expr::ELet(
                        "x".to_string(),
                        Box::new(Expr::Value(3)),
                        Box::new(Expr::EVar("x".to_string())),
                    )),
                )),
            ),
        ]
    };
    for (tree, again) in trees().into_iter().zip(trees()) {
        let compiled = StagedInterpreter::new().unwrap().eval(tree).unwrap();
        assert_eq!(Interpreter::new().eval(again), Ok(result_of(&body(&compiled))));
    }
}

#[test]
fn a_function_is_generated_before_it_is_compiled() {
    let session = StagedInterpreter::new().unwrap();
    let generated = session.generate(parse("let x = 5; x * x").unwrap()).unwrap();
    let text = generated.listing().clone();
    assert!(text.contains("imul v0, v0"), "{}", text);
    let compiled = generated.finish().unwrap();
    assert_eq!(compiled.listing(), &text);
    assert_eq!(body(&compiled), vec!["v0 = iconst.i64 5", "v1 = imul v0, v0", "return v1"]);
}

#[test]
fn nothing_is_generated_for_an_unbound_name() {
    let session = StagedInterpreter::new().unwrap();
    match session.generate(parse("1 + nothing").unwrap()) {
        Ok(_) => panic!("generated"),
        Err(f) => assert_eq!(f, Error::UnboundName("nothing".to_string())),
    }
    let session = StagedInterpreter::new().unwrap();
    match session.generate_as(Expr::Value(1), types::I32) {
        Ok(_) => panic!("generated"),
        Err(f) => assert_eq!(
            f,
            Error::CompilationError("the target's integer type is not 64 bits wide".to_string())
        ),
    }
}

#[test]
fn sessions_share_nothing() {
    let first = StagedInterpreter::new().unwrap();
    let second = StagedInterpreter::new().unwrap();
    let one = first.eval(Expr::Value(1)).unwrap();
    let two = second.eval(Expr::Value(2)).unwrap();
    assert_eq!(body(&one), vec!["v0 = iconst.i64 1", "return v0"]);
    assert_eq!(body(&two), vec!["v0 = iconst.i64 2", "return v0"]);
}

#[test]
fn a_session_compiles_a_tree() {
    let session = StagedInterpreter::new().unwrap();
    let tree = Expr::EMul(Box::new(Expr::Value(5)), Box::new(Expr::Value(5)));
    let compiled = session.eval(tree).unwrap();
    assert_eq!(
        body(&compiled),
        vec!["v0 = iconst.i64 5", "v1 = iconst.i64 5", "v2 = imul v0, v1", "return v2"]
    );
    let (_module, _id) = compiled.into_parts();
}

#[test]
fn binding_inside_an_operand_reaches_the_next_operand_when_compiled() {
    let tree = Expr::EAdd(
        Box::new(Expr::ELet(
            "x".to_string(),
            Box::new(Expr::Value(1)),
            Box::new(Expr::EVar("x".to_string())),
        )),
        Box::new(Expr::EVar("x".to_string())),
    );
    let compiled = StagedInterpreter::new().unwrap().eval(tree).unwrap();
    assert_eq!(body(&compiled), vec!["v0 = iconst.i64 1", "v1 = iadd v0, v0", "return v1"]);
}

#[test]
fn each_program_has_a_session_of_its_own() {
    assert!(eval_staged("let x = 1; x").is_ok());
    assert_eq!(failure("x"), Error::UnboundName("x".to_string()));
}

#[test]
fn an_integer_type_of_another_width_is_refused() {
    let session = StagedInterpreter::new().unwrap();
    match session.eval_as(Expr::Value(1), types::I32) {
        Ok(_) => panic!("compiled"),
        Err(f) => assert_eq!(
            f,
            Error::CompilationError("the target's integer type is not 64 bits wide".to_string())
        ),
    }
    let session = StagedInterpreter::new().unwrap();
    assert!(session.eval_as(Expr::Value(1), types::I64).is_ok());
}

#[test]
fn unbound_name_comes_before_anything_is_compiled() {
    let session = StagedInterpreter::new().unwrap();
    match session.eval_as(parse("1 + nothing").unwrap(), types::I64) {
        Ok(_) => panic!("compiled"),
        Err(f) => assert_eq!(f, Error::UnboundName("nothing".to_string())),
    }
}

#[test]
fn what_the_module_refuses_is_a_compilation_error() {
    let refused = ModuleError::Undeclared("main".to_string());
    let text = refused.to_string();
    assert!(text.contains("main"));
    assert_eq!(compilation_failure(&refused), Error::CompilationError(text.clone()));
    assert_eq!(or_refused::<u8>(Err(refused)), Err(Error::CompilationError(text)));
    assert_eq!(or_refused(Ok(7)), Ok(7));
}
