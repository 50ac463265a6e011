//! Behavioural tests of the evaluator: golden scenarios, the language laws on
//! concrete programs, and every error variant.

use minirust::{BinOp, EvalError, Expr, Function, State, Statement};

const FUEL: u64 = 1_000_000;

fn var(name: &str) -> Expr {
    Expr::Var(name.to_string())
}

#[test]
fn answer_expression() {
    let mut state = State::new();
    state.set_variable(String::from("x"), 7);
    let expr = Expr::BinOp(
        BinOp::Mul,
        Box::new(Expr::Constant(6)),
        Box::new(Expr::Var(String::from("x"))),
    );
    let result = expr.eval(&mut state, FUEL);
    assert_eq!(result, Ok(42));
}

#[test]
fn countdown_statement() {
    let mut state = State::new();
    state.set_variable(String::from("x"), 10);
    let stmt = Statement::DoWhile(
        Expr::Var(String::from("x")),
        Box::new(Statement::Sequence(
            Box::new(Statement::Print(Expr::Var(String::from("x")))),
            Box::new(Statement::Assign(
                String::from("x"),
                Expr::BinOp(
                    BinOp::Sub,
                    Box::new(Expr::Var(String::from("x"))),
                    Box::new(Expr::Constant(1)),
                ),
            )),
        )),
    );
    stmt.run(&mut state, FUEL).unwrap();
    assert_eq!(
        state.output(),
        vec!["10", "9", "8", "7", "6", "5", "4", "3", "2", "1"]
    )
}

#[test]
fn rerunning_same_program_replays_same_log() {
    let run_once = || {
        let mut state = State::new();
        let stmt = Statement::fibonacci(10);
        stmt.run(&mut state, FUEL).unwrap();
        (state.output(), state.stacks().len())
    };
    let (out1, stacks1) = run_once();
    let (out2, stacks2) = run_once();
    assert_eq!(out1, out2);
    assert_eq!(stacks1, stacks2);
}

#[test]
fn if_then_else_prints_only_taken_branch() {
    let mut state = State::new();
    state.add_function(Function {
        name: "then_side".to_string(),
        variables: vec![],
        body: Statement::seq(
            Statement::Print(Expr::Constant(111)),
            Statement::Ret(Expr::Constant(1)),
        ),
    });
    state.add_function(Function {
        name: "else_side".to_string(),
        variables: vec![],
        body: Statement::seq(
            Statement::Print(Expr::Constant(222)),
            Statement::Ret(Expr::Constant(2)),
        ),
    });
    let stmt = Statement::Print(Expr::if_then_else(
        Expr::Constant(1),
        Expr::call("then_side", vec![]),
        Expr::call("else_side", vec![]),
    ));
    stmt.run(&mut state, FUEL).unwrap();
    assert_eq!(state.output(), vec!["111", "1"]);
    assert!(!state.output().iter().any(|s| s == "222"));
}

#[test]
fn undefined_variable_reads_zero() {
    let mut state = State::new();
    assert_eq!(var("undefined").eval(&mut state, FUEL), Ok(0));
}

#[test]
fn return_skips_rest_of_sequence() {
    let mut state = State::new();
    let stmt = Statement::seq(
        Statement::Ret(Expr::Constant(5)),
        Statement::Print(Expr::Constant(99)),
    );
    let result = stmt.run(&mut state, FUEL);
    assert_eq!(result, Ok(Some(5)));
    assert!(state.output().is_empty());
}

#[test]
fn do_while_runs_body_at_least_once() {
    let mut state = State::new();
    // The counter starts at the terminal condition: `x` is unset, so the
    // condition is already 0 — yet the body must run once.
    let stmt = Statement::do_while(var("x"), Statement::Print(Expr::Constant(7)));
    assert_eq!(stmt.run(&mut state, FUEL), Ok(None));
    assert_eq!(state.output(), vec!["7"]);
}

#[test]
fn gcd_of_42_and_15_is_3() {
    let mut state = State::new();
    state.add_function(Function::gcd());
    let stmt = Statement::Print(Expr::call(
        "gcd",
        vec![Expr::Constant(42), Expr::Constant(15)],
    ));
    stmt.run(&mut state, FUEL).unwrap();
    // Each activation prints its two arguments on entry; the final line is
    // the result.
    assert_eq!(
        state.output(),
        vec!["42", "15", "15", "12", "12", "3", "3", "0", "3"]
    );
}

#[test]
fn fibonacci_of_10_prints_first_ten_numbers() {
    let mut state = State::new();
    let stmt = Statement::fibonacci(10);
    stmt.run(&mut state, FUEL).unwrap();
    assert_eq!(
        state.output(),
        vec!["0", "1", "1", "2", "3", "5", "8", "13", "21", "34"]
    );
}

#[test]
fn called_function_cannot_see_or_touch_caller_frame() {
    let mut state = State::new();
    state.set_variable("x".to_string(), 3);
    state.set_variable("y".to_string(), 5);
    state.add_function(Function {
        name: "meddle".to_string(),
        variables: vec!["a".to_string()],
        body: Statement::seq(
            Statement::Assign("y".to_string(), Expr::Constant(99)),
            // The caller's `x` is not visible: this reads the callee's own
            // (unset) `x`, which defaults to 0.
            Statement::Ret(var("x")),
        ),
    });
    let result = Expr::call("meddle", vec![Expr::Constant(1)]).eval(&mut state, FUEL);
    assert_eq!(result, Ok(0));
    assert_eq!(state.read_variable(&"y".to_string()), 5);
    assert_eq!(state.read_variable(&"x".to_string()), 3);
}

#[test]
fn function_result_defaults_to_zero_without_return() {
    let mut state = State::new();
    state.add_function(Function {
        name: "silent".to_string(),
        variables: vec![],
        body: Statement::Print(Expr::Constant(1)),
    });
    assert_eq!(Expr::call("silent", vec![]).eval(&mut state, FUEL), Ok(0));
}

#[test]
fn missing_arguments_default_to_zero_and_extra_ones_are_dropped() {
    let mut state = State::new();
    state.add_function(Function {
        name: "addup".to_string(),
        variables: vec!["a".to_string(), "b".to_string()],
        body: Statement::Ret(Expr::BinOp(
            BinOp::Add,
            Box::new(var("a")),
            Box::new(var("b")),
        )),
    });
    let short = Expr::call("addup", vec![Expr::Constant(5)]);
    assert_eq!(short.eval(&mut state, FUEL), Ok(5));
    let long = Expr::call(
        "addup",
        vec![Expr::Constant(1), Expr::Constant(2), Expr::Constant(3)],
    );
    assert_eq!(long.eval(&mut state, FUEL), Ok(3));
}

#[test]
fn division_by_zero_is_an_arithmetic_error() {
    let mut state = State::new();
    let division = Expr::BinOp(
        BinOp::Div,
        Box::new(Expr::Constant(1)),
        Box::new(Expr::Constant(0)),
    );
    assert_eq!(
        division.eval(&mut state, FUEL),
        Err(EvalError::ArithmeticError)
    );
    let modulo = Expr::BinOp(
        BinOp::Mod,
        Box::new(Expr::Constant(1)),
        Box::new(Expr::Constant(0)),
    );
    assert_eq!(
        modulo.eval(&mut state, FUEL),
        Err(EvalError::ArithmeticError)
    );
}

#[test]
fn overflowing_division_is_an_arithmetic_error() {
    let mut state = State::new();
    let division = Expr::BinOp(
        BinOp::Div,
        Box::new(Expr::Constant(i32::MIN)),
        Box::new(Expr::Constant(-1)),
    );
    assert_eq!(
        division.eval(&mut state, FUEL),
        Err(EvalError::ArithmeticError)
    );
    // The matching modulo is defined: its value is 0.
    let modulo = Expr::BinOp(
        BinOp::Mod,
        Box::new(Expr::Constant(i32::MIN)),
        Box::new(Expr::Constant(-1)),
    );
    assert_eq!(
        modulo.eval(&mut state, FUEL),
        Err(EvalError::ArithmeticError)
    );
}

#[test]
fn unknown_function_is_reported() {
    let mut state = State::new();
    assert_eq!(
        Expr::call("nowhere", vec![]).eval(&mut state, FUEL),
        Err(EvalError::UndefinedFunction)
    );
}

#[test]
fn endless_loop_exhausts_fuel() {
    let mut state = State::new();
    let stmt = Statement::do_while(Expr::Constant(1), Statement::Print(Expr::Constant(0)));
    assert_eq!(stmt.run(&mut state, 10), Err(EvalError::StackOverflow));
    // The prints that happened before the abort remain recorded.
    assert!(!state.output().is_empty());
}

#[test]
fn endless_recursion_exhausts_fuel() {
    let mut state = State::new();
    state.add_function(Function {
        name: "spin".to_string(),
        variables: vec![],
        body: Statement::Ret(Expr::call("spin", vec![])),
    });
    assert_eq!(
        Expr::call("spin", vec![]).eval(&mut state, 100),
        Err(EvalError::StackOverflow)
    );
}

#[test]
fn addition_and_multiplication_wrap_around() {
    let mut state = State::new();
    let add = Expr::BinOp(
        BinOp::Add,
        Box::new(Expr::Constant(i32::MAX)),
        Box::new(Expr::Constant(1)),
    );
    assert_eq!(add.eval(&mut state, FUEL), Ok(i32::MIN));
    let sub = Expr::BinOp(
        BinOp::Sub,
        Box::new(Expr::Constant(i32::MIN)),
        Box::new(Expr::Constant(1)),
    );
    assert_eq!(sub.eval(&mut state, FUEL), Ok(i32::MAX));
    let mul = Expr::BinOp(
        BinOp::Mul,
        Box::new(Expr::Constant(65536)),
        Box::new(Expr::Constant(65536)),
    );
    assert_eq!(mul.eval(&mut state, FUEL), Ok(0));
}

#[test]
fn division_truncates_toward_zero() {
    assert_eq!(BinOp::Div.eval(-7, 2), Ok(-3));
    assert_eq!(BinOp::Div.eval(7, -2), Ok(-3));
    assert_eq!(BinOp::Mod.eval(-7, 2), Ok(-1));
    assert_eq!(BinOp::Mod.eval(7, -2), Ok(1));
    assert_eq!(BinOp::Add.eval(2, 3), Ok(5));
    assert_eq!(BinOp::Sub.eval(2, 3), Ok(-1));
    assert_eq!(BinOp::Mul.eval(-4, 3), Ok(-12));
}

#[test]
fn printing_renders_negative_and_extreme_values() {
    let mut state = State::new();
    for n in [0, -5, 42, i32::MIN, i32::MAX] {
        Statement::Print(Expr::Constant(n))
            .run(&mut state, FUEL)
            .unwrap();
    }
    assert_eq!(
        state.output(),
        vec!["0", "-5", "42", "-2147483648", "2147483647"]
    );
}

#[test]
fn arguments_evaluate_left_to_right_in_caller_frame() {
    let mut state = State::new();
    state.set_variable("x".to_string(), 40);
    state.add_function(Function {
        name: "second".to_string(),
        variables: vec!["a".to_string(), "b".to_string()],
        body: Statement::Ret(var("b")),
    });
    // Both arguments read the caller's frame.
    let call = Expr::call("second", vec![Expr::Constant(1), var("x")]);
    assert_eq!(call.eval(&mut state, FUEL), Ok(40));
}

#[test]
fn errors_abort_but_keep_the_log_so_far() {
    let mut state = State::new();
    let stmt = Statement::seq(
        Statement::Print(Expr::Constant(1)),
        Statement::Print(Expr::BinOp(
            BinOp::Div,
            Box::new(Expr::Constant(1)),
            Box::new(Expr::Constant(0)),
        )),
    );
    assert_eq!(stmt.run(&mut state, FUEL), Err(EvalError::ArithmeticError));
    assert_eq!(state.output(), vec!["1"]);
}
