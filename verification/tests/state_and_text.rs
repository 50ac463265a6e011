//! Tests of the state containers (frames, stack, change log, function table)
//! and of the textual projections.

use minirust::{BinOp, Change, Expr, Function, Stack, StackFrame, State, Statement};

const FUEL: u64 = 1_000_000;

#[test]
fn fresh_frame_reads_every_name_as_zero() {
    let frame = StackFrame::new();
    assert_eq!(frame.read_variable(&"anything".to_string()), 0);
}

#[test]
fn setting_a_variable_twice_keeps_one_entry() {
    let mut frame = StackFrame::new();
    frame.set_variable("x".to_string(), 1);
    frame.set_variable("x".to_string(), 2);
    frame.set_variable("y".to_string(), 3);
    assert_eq!(frame.read_variable(&"x".to_string()), 2);
    assert_eq!(frame.read_variable(&"y".to_string()), 3);
    assert_eq!(frame.iter().len(), 2);
}

#[test]
fn from_bindings_applies_later_bindings_last() {
    let frame = StackFrame::from_bindings(vec![
        ("a".to_string(), 1),
        ("b".to_string(), 2),
        ("a".to_string(), 7),
    ]);
    assert_eq!(frame.read_variable(&"a".to_string()), 7);
    assert_eq!(frame.read_variable(&"b".to_string()), 2);
}

#[test]
fn stack_reads_and_writes_target_the_top_frame() {
    let mut stack = Stack::new();
    stack.push_frame(StackFrame::new());
    stack.set_variable("x".to_string(), 1);
    let mut top = StackFrame::new();
    top.set_variable("x".to_string(), 50);
    stack.push_frame(top);
    assert_eq!(stack.read_variable(&"x".to_string()), 50);
    stack.set_variable("x".to_string(), 51);
    assert_eq!(stack.read_variable(&"x".to_string()), 51);
    stack.pop_frame();
    assert_eq!(stack.read_variable(&"x".to_string()), 1);
    assert_eq!(stack.iter().len(), 1);
}

#[test]
fn change_log_keeps_prints_and_snapshots_in_order() {
    let mut state = State::new();
    state.set_variable("x".to_string(), 1);
    state.print("one".to_string());
    state.set_variable("x".to_string(), 2);
    state.print("two".to_string());
    assert_eq!(state.output(), vec!["one", "two"]);
    let stacks = state.stacks();
    assert_eq!(stacks.len(), 2);
    assert_eq!(stacks[0].read_variable(&"x".to_string()), 1);
    assert_eq!(stacks[1].read_variable(&"x".to_string()), 2);
}

#[test]
fn snapshots_are_deep_copies() {
    let mut state = State::new();
    state.set_variable("x".to_string(), 1);
    state.set_variable("x".to_string(), 2);
    let stacks = state.stacks();
    // The first snapshot still shows the value at its instant.
    assert_eq!(stacks[0].read_variable(&"x".to_string()), 1);
}

#[test]
fn registering_a_name_again_overwrites_the_function() {
    let mut state = State::new();
    state.add_function(Function {
        name: "f".to_string(),
        variables: vec![],
        body: Statement::Ret(Expr::Constant(1)),
    });
    state.add_function(Function {
        name: "f".to_string(),
        variables: vec![],
        body: Statement::Ret(Expr::Constant(2)),
    });
    assert_eq!(Expr::call("f", vec![]).eval(&mut state, FUEL), Ok(2));
}

#[test]
fn prepare_function_pushes_a_frame_with_the_bindings() {
    let mut state = State::new();
    state.add_function(Function {
        name: "f".to_string(),
        variables: vec!["a".to_string(), "b".to_string()],
        body: Statement::Ret(Expr::Var("a".to_string())),
    });
    assert!(state.has_function(&"f".to_string()));
    assert!(!state.has_function(&"g".to_string()));
    let body = state.prepare_function(&"f".to_string(), vec![10, 20]);
    assert_eq!(state.stack.iter().len(), 2);
    assert_eq!(state.read_variable(&"a".to_string()), 10);
    assert_eq!(state.read_variable(&"b".to_string()), 20);
    let result = body.run(&mut state, FUEL);
    assert_eq!(result, Ok(Some(10)));
    state.pop_frame();
    assert_eq!(state.stack.iter().len(), 1);
}

#[test]
fn expressions_render_as_one_line() {
    let expr = Expr::BinOp(
        BinOp::Add,
        Box::new(Expr::Var("a".to_string())),
        Box::new(Expr::Constant(2)),
    );
    assert_eq!(expr.to_text(), "a + 2");
    assert_eq!(BinOp::Mod.to_text(), "%");
    let ite = Expr::if_then_else(
        Expr::Var("c".to_string()),
        Expr::Constant(1),
        Expr::Constant(-1),
    );
    assert_eq!(ite.to_text(), "IF c THEN 1 ELSE -1");
    let call = Expr::call("gcd", vec![Expr::Constant(42), Expr::Constant(15)]);
    assert_eq!(call.to_text(), "gcd(...)");
}

#[test]
fn statements_render_with_indentation() {
    let stmt = Statement::seq(
        Statement::Assign("x".to_string(), Expr::Constant(3)),
        Statement::do_while(
            Expr::Var("x".to_string()),
            Statement::Print(Expr::Var("x".to_string())),
        ),
    );
    assert_eq!(stmt.to_text(), "LET x = 3;\nWHILE x {\n  PRINT x\n}");
    let ret = Statement::Ret(Expr::Constant(5));
    assert_eq!(ret.to_text(), "RETURN 5");
}

#[test]
fn state_renders_its_global_frame() {
    let mut state = State::new();
    state.set_variable("x".to_string(), 7);
    assert_eq!(state.to_text(), "x: 7\n");
}

#[test]
fn cloned_programs_behave_identically() {
    let original = Statement::fibonacci(5);
    let copy = original.clone();
    let mut state1 = State::new();
    let mut state2 = State::new();
    original.run(&mut state1, FUEL).unwrap();
    copy.run(&mut state2, FUEL).unwrap();
    assert_eq!(state1.output(), state2.output());
    assert_eq!(original.to_text(), copy.to_text());
    let fun = Function::gcd();
    let fun_copy = fun.clone();
    assert_eq!(fun.name, fun_copy.name);
    assert_eq!(fun.variables, fun_copy.variables);
    assert_eq!(fun.body.to_text(), fun_copy.body.to_text());
}

#[test]
fn frames_render_one_line_per_variable() {
    let mut frame = StackFrame::new();
    frame.set_variable("a".to_string(), 1);
    frame.set_variable("b".to_string(), -2);
    assert_eq!(frame.to_text(), "a: 1\nb: -2\n");
}

#[test]
fn changes_expose_their_content() {
    let print_change = Change::Print("hello".to_string());
    match print_change {
        Change::Print(msg) => assert_eq!(msg, "hello"),
        Change::Stack(_) => panic!("expected a print entry"),
    }
}
