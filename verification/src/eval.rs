//! The evaluator: recursive evaluation of expressions to integers and
//! recursive execution of statements against the mutable state.
//!
//! The semantics is a mathematical interpreter over the ghost mirrors of the
//! syntax and the state (`eval_expr_spec`, `run_stmt_spec`, ...): a function
//! of the program, the starting state, and a fuel bound. The executable
//! evaluator returns exactly what the mathematical interpreter says, for
//! every input. Fuel bounds the number of function calls and loop repetitions
//! taken together; exhausting it aborts the run with `StackOverflow`, since
//! the language can express programs that never finish on their own.

use vstd::prelude::*;

use crate::state::{
    bind_frame, frame_read, state_after_assign, state_after_print, ChangeView, State, StateView,
};
use crate::syntax::{
    expr_size, exprs_view, exprs_size, stmt_size, BinOp, Expr, ExprView, FunctionView, Statement,
    StatementView,
};
use crate::text::dec_str;

verus! {

/// A fatal condition that aborts a run. The change log accumulated up to the
/// abort remains valid.
#[derive(Clone, Copy, PartialEq, Eq, Structural, Debug)]
pub enum EvalError {
    /// Division or modulo by zero, or an overflowing division.
    ArithmeticError,
    /// A call of a name with no registered function.
    UndefinedFunction,
    /// The fuel bound on calls and loop repetitions ran out.
    StackOverflow,
}

/// What evaluating an expression comes to: a value or an error, and the state
/// as it stands afterwards.
pub struct ExprOutcome {
    pub result: Result<i32, EvalError>,
    pub state: StateView,
}

/// What evaluating an argument list comes to.
pub struct ArgsOutcome {
    pub result: Result<Seq<i32>, EvalError>,
    pub state: StateView,
}

/// What running a statement comes to: `Ok(Some(v))` is a return value that
/// terminates the enclosing function body; `Ok(None)` means execution simply
/// continues.
pub struct StmtOutcome {
    pub result: Result<Option<i32>, EvalError>,
    pub state: StateView,
}

/// What a binary operator computes. Addition, subtraction and multiplication
/// wrap around the 32-bit signed range; division and modulo truncate toward
/// zero and fail on a zero divisor or on the one overflowing quotient.
pub open spec fn bin_op_spec(op: BinOp, m: i32, n: i32) -> Result<i32, EvalError> {
    match op {
        BinOp::Add => Ok(vstd::wrapping::i32_specs::wrapping_add(m, n)),
        BinOp::Sub => Ok(vstd::wrapping::i32_specs::wrapping_sub(m, n)),
        BinOp::Mul => Ok(vstd::wrapping::i32_specs::wrapping_mul(m, n)),
        BinOp::Div => match m.checked_div(n) {
            Some(q) => Ok(q),
            None => Err(EvalError::ArithmeticError),
        },
        BinOp::Mod => match m.checked_rem(n) {
            Some(r) => Ok(r),
            None => Err(EvalError::ArithmeticError),
        },
    }
}

/// Evaluates an expression: a value and the state after the evaluation.
/// Variable reads default to 0; only the taken branch of a conditional is
/// evaluated; operands and arguments are evaluated left to right.
pub open spec fn eval_expr_spec(e: ExprView, st: StateView, fuel: nat) -> ExprOutcome
    decreases fuel, expr_size(e), 0nat,
{
    match e {
        ExprView::Var(x) => ExprOutcome {
            result: Ok(frame_read(st.stack.last(), x)),
            state: st,
        },
        ExprView::Constant(n) => ExprOutcome { result: Ok(n), state: st },
        ExprView::IfThenElse(c, a, b) => {
            let co = eval_expr_spec(*c, st, fuel);
            match co.result {
                Ok(v) => if v != 0 {
                    eval_expr_spec(*a, co.state, fuel)
                } else {
                    eval_expr_spec(*b, co.state, fuel)
                },
                Err(_) => co,
            }
        },
        ExprView::BinOp(op, l, r) => {
            let lo = eval_expr_spec(*l, st, fuel);
            match lo.result {
                Ok(lv) => {
                    let ro = eval_expr_spec(*r, lo.state, fuel);
                    match ro.result {
                        Ok(rv) => ExprOutcome { result: bin_op_spec(op, lv, rv), state: ro.state },
                        Err(_) => ro,
                    }
                },
                Err(_) => lo,
            }
        },
        ExprView::Call(f, args) => {
            let ao = eval_args_spec(args, st, fuel);
            match ao.result {
                Ok(vals) => if !ao.state.functions.contains_key(f) {
                    ExprOutcome { result: Err(EvalError::UndefinedFunction), state: ao.state }
                } else if fuel == 0 {
                    ExprOutcome { result: Err(EvalError::StackOverflow), state: ao.state }
                } else {
                    invoke_spec(ao.state.functions[f], vals, ao.state, (fuel - 1) as nat)
                },
                Err(er) => ExprOutcome { result: Err(er), state: ao.state },
            }
        },
    }
}

/// Evaluates an argument list left to right, threading the state.
pub open spec fn eval_args_spec(es: Seq<ExprView>, st: StateView, fuel: nat) -> ArgsOutcome
    decreases fuel, exprs_size(es), 0nat,
{
    if es.len() == 0 {
        ArgsOutcome { result: Ok(Seq::empty()), state: st }
    } else {
        let fo = eval_expr_spec(es[0], st, fuel);
        match fo.result {
            Ok(v) => {
                let ro = eval_args_spec(es.drop_first(), fo.state, fuel);
                match ro.result {
                    Ok(vs) => ArgsOutcome { result: Ok(seq![v] + vs), state: ro.state },
                    Err(_) => ro,
                }
            },
            Err(e) => ArgsOutcome { result: Err(e), state: fo.state },
        }
    }
}

/// Invokes a function on already-evaluated argument values: a fresh frame
/// with the positional parameter bindings is pushed, the body runs against
/// it, and the frame is popped on return. A body that never executes a
/// return statement yields 0.
pub open spec fn invoke_spec(f: FunctionView, vals: Seq<i32>, st: StateView, fuel: nat) -> ExprOutcome
    decreases fuel, stmt_size(f.body), 1nat,
{
    let entered = StateView { stack: st.stack.push(bind_frame(f.params, vals)), ..st };
    let bo = run_stmt_spec(f.body, entered, fuel);
    match bo.result {
        Ok(ret) => ExprOutcome {
            result: Ok(match ret {
                Some(v) => v,
                None => 0,
            }),
            state: StateView { stack: bo.state.stack.drop_last(), ..bo.state },
        },
        Err(e) => ExprOutcome { result: Err(e), state: bo.state },
    }
}

/// Runs a statement: an optional return value and the state afterwards. A
/// return value produced anywhere inside propagates out, skipping the rest of
/// the enclosing body.
pub open spec fn run_stmt_spec(s: StatementView, st: StateView, fuel: nat) -> StmtOutcome
    decreases fuel, stmt_size(s), 0nat,
{
    match s {
        StatementView::Assign(x, e) => {
            let eo = eval_expr_spec(e, st, fuel);
            match eo.result {
                Ok(v) => StmtOutcome { result: Ok(None), state: state_after_assign(eo.state, x, v) },
                Err(er) => StmtOutcome { result: Err(er), state: eo.state },
            }
        },
        StatementView::Print(e) => {
            let eo = eval_expr_spec(e, st, fuel);
            match eo.result {
                Ok(v) => StmtOutcome {
                    result: Ok(None),
                    state: state_after_print(eo.state, dec_str(v as int)),
                },
                Err(er) => StmtOutcome { result: Err(er), state: eo.state },
            }
        },
        StatementView::Ret(e) => {
            let eo = eval_expr_spec(e, st, fuel);
            match eo.result {
                Ok(v) => StmtOutcome { result: Ok(Some(v)), state: eo.state },
                Err(er) => StmtOutcome { result: Err(er), state: eo.state },
            }
        },
        StatementView::Sequence(s1, s2) => {
            let o1 = run_stmt_spec(*s1, st, fuel);
            match o1.result {
                Ok(None) => run_stmt_spec(*s2, o1.state, fuel),
                Ok(Some(_)) => o1,
                Err(_) => o1,
            }
        },
        StatementView::DoWhile(c, body) => {
            let bo = run_stmt_spec(*body, st, fuel);
            match bo.result {
                Ok(None) => {
                    let co = eval_expr_spec(c, bo.state, fuel);
                    match co.result {
                        Ok(v) => if v == 0 {
                            StmtOutcome { result: Ok(None), state: co.state }
                        } else if fuel == 0 {
                            StmtOutcome { result: Err(EvalError::StackOverflow), state: co.state }
                        } else {
                            run_stmt_spec(s, co.state, (fuel - 1) as nat)
                        },
                        Err(er) => StmtOutcome { result: Err(er), state: co.state },
                    }
                },
                Ok(Some(_)) => bo,
                Err(_) => bo,
            }
        },
    }
}

/// One change log extends another: the old entries stand unchanged at the
/// front of the new log. The log is append-only.
pub open spec fn log_extends(old_log: Seq<ChangeView>, new_log: Seq<ChangeView>) -> bool {
    &&& old_log.len() <= new_log.len()
    &&& forall|i: int| 0 <= i < old_log.len() ==> new_log[i] == old_log[i]
}

/// The state discipline of expression evaluation: the function table is
/// untouched, the change log only grows, every frame of the starting stack
/// stands unchanged — evaluation never writes any variable the caller can
/// see — and on success the stack is exactly as it was.
pub open spec fn expr_state_discipline(st: StateView, o: ExprOutcome) -> bool {
    &&& o.state.functions == st.functions
    &&& log_extends(st.changes, o.state.changes)
    &&& st.stack.len() <= o.state.stack.len()
    &&& forall|i: int| 0 <= i < st.stack.len() ==> o.state.stack[i] == st.stack[i]
    &&& (o.result is Ok ==> o.state.stack == st.stack)
}

/// The state discipline of statement execution: the function table is
/// untouched, the change log only grows, every frame below the current one
/// stands unchanged — a statement writes at most the topmost frame — and on
/// success the stack has exactly its starting depth.
pub open spec fn stmt_state_discipline(st: StateView, o: StmtOutcome) -> bool {
    &&& o.state.functions == st.functions
    &&& log_extends(st.changes, o.state.changes)
    &&& st.stack.len() <= o.state.stack.len()
    &&& forall|i: int| 0 <= i < st.stack.len() - 1 ==> o.state.stack[i] == st.stack[i]
    &&& (o.result is Ok ==> o.state.stack.len() == st.stack.len())
}

/// Evaluating an expression obeys the state discipline.
pub proof fn lemma_eval_expr_discipline(e: ExprView, st: StateView, fuel: nat)
    requires
        st.stack.len() > 0,
    ensures
        expr_state_discipline(st, eval_expr_spec(e, st, fuel)),
    decreases fuel, expr_size(e), 0nat,
{
    match e {
        ExprView::Var(_) => {},
        ExprView::Constant(_) => {},
        ExprView::IfThenElse(c, a, b) => {
            lemma_eval_expr_discipline(*c, st, fuel);
            let co = eval_expr_spec(*c, st, fuel);
            match co.result {
                Ok(v) => if v != 0 {
                    lemma_eval_expr_discipline(*a, co.state, fuel);
                } else {
                    lemma_eval_expr_discipline(*b, co.state, fuel);
                },
                Err(_) => {},
            }
        },
        ExprView::BinOp(op, l, r) => {
            lemma_eval_expr_discipline(*l, st, fuel);
            let lo = eval_expr_spec(*l, st, fuel);
            match lo.result {
                Ok(_) => {
                    lemma_eval_expr_discipline(*r, lo.state, fuel);
                },
                Err(_) => {},
            }
        },
        ExprView::Call(f, args) => {
            lemma_eval_args_discipline(args, st, fuel);
            let ao = eval_args_spec(args, st, fuel);
            match ao.result {
                Ok(vals) => {
                    if ao.state.functions.contains_key(f) && fuel > 0 {
                        lemma_invoke_discipline(
                            ao.state.functions[f],
                            vals,
                            ao.state,
                            (fuel - 1) as nat,
                        );
                    }
                },
                Err(_) => {},
            }
        },
    }
}

/// The state discipline of argument-list evaluation, stated as for a single
/// expression.
pub open spec fn args_state_discipline(st: StateView, o: ArgsOutcome) -> bool {
    &&& o.state.functions == st.functions
    &&& log_extends(st.changes, o.state.changes)
    &&& st.stack.len() <= o.state.stack.len()
    &&& forall|i: int| 0 <= i < st.stack.len() ==> o.state.stack[i] == st.stack[i]
    &&& (o.result is Ok ==> o.state.stack == st.stack)
}

/// Evaluating an argument list obeys the state discipline.
pub proof fn lemma_eval_args_discipline(es: Seq<ExprView>, st: StateView, fuel: nat)
    requires
        st.stack.len() > 0,
    ensures
        args_state_discipline(st, eval_args_spec(es, st, fuel)),
    decreases fuel, exprs_size(es), 0nat,
{
    if es.len() > 0 {
        lemma_eval_expr_discipline(es[0], st, fuel);
        let fo = eval_expr_spec(es[0], st, fuel);
        match fo.result {
            Ok(_) => {
                lemma_eval_args_discipline(es.drop_first(), fo.state, fuel);
            },
            Err(_) => {},
        }
    }
}

/// Invoking a function obeys the state discipline: in particular the caller's
/// frames, its own topmost one included, are exactly as they were when the
/// call returns.
pub proof fn lemma_invoke_discipline(f: FunctionView, vals: Seq<i32>, st: StateView, fuel: nat)
    requires
        st.stack.len() > 0,
    ensures
        expr_state_discipline(st, invoke_spec(f, vals, st, fuel)),
    decreases fuel, stmt_size(f.body), 1nat,
{
    let entered = StateView { stack: st.stack.push(bind_frame(f.params, vals)), ..st };
    lemma_run_stmt_discipline(f.body, entered, fuel);
    let bo = run_stmt_spec(f.body, entered, fuel);
    assert(entered.stack.len() == st.stack.len() + 1);
    assert forall|i: int| 0 <= i < st.stack.len() implies bo.state.stack[i] == st.stack[i] by {
        assert(entered.stack[i] == st.stack[i]);
    }
    match bo.result {
        Ok(_) => {
            assert(bo.state.stack.len() == st.stack.len() + 1);
            assert(bo.state.stack.drop_last() =~= st.stack);
        },
        Err(_) => {},
    }
}

/// Running a statement obeys the state discipline.
pub proof fn lemma_run_stmt_discipline(s: StatementView, st: StateView, fuel: nat)
    requires
        st.stack.len() > 0,
    ensures
        stmt_state_discipline(st, run_stmt_spec(s, st, fuel)),
    decreases fuel, stmt_size(s), 0nat,
{
    match s {
        StatementView::Assign(x, e) => {
            lemma_eval_expr_discipline(e, st, fuel);
            let eo = eval_expr_spec(e, st, fuel);
            match eo.result {
                Ok(v) => {
                    let st2 = state_after_assign(eo.state, x, v);
                    assert(st2.stack.len() == st.stack.len());
                    assert forall|i: int| 0 <= i < st.stack.len() - 1 implies st2.stack[i]
                        == st.stack[i] by {
                        assert(eo.state.stack[i] == st.stack[i]);
                    }
                    assert(log_extends(st.changes, st2.changes)) by {
                        assert(forall|i: int|
                            0 <= i < st.changes.len() ==> st2.changes[i] == eo.state.changes[i]);
                    }
                },
                Err(_) => {},
            }
        },
        StatementView::Print(e) => {
            lemma_eval_expr_discipline(e, st, fuel);
            let eo = eval_expr_spec(e, st, fuel);
            match eo.result {
                Ok(v) => {
                    let st2 = state_after_print(eo.state, dec_str(v as int));
                    assert(log_extends(st.changes, st2.changes)) by {
                        assert(forall|i: int|
                            0 <= i < st.changes.len() ==> st2.changes[i] == eo.state.changes[i]);
                    }
                },
                Err(_) => {},
            }
        },
        StatementView::Ret(e) => {
            lemma_eval_expr_discipline(e, st, fuel);
        },
        StatementView::Sequence(s1, s2) => {
            lemma_run_stmt_discipline(*s1, st, fuel);
            let o1 = run_stmt_spec(*s1, st, fuel);
            match o1.result {
                Ok(None) => {
                    lemma_run_stmt_discipline(*s2, o1.state, fuel);
                },
                Ok(Some(_)) => {},
                Err(_) => {},
            }
        },
        StatementView::DoWhile(c, body) => {
            lemma_run_stmt_discipline(*body, st, fuel);
            let bo = run_stmt_spec(*body, st, fuel);
            match bo.result {
                Ok(None) => {
                    lemma_eval_expr_discipline(c, bo.state, fuel);
                    let co = eval_expr_spec(c, bo.state, fuel);
                    match co.result {
                        Ok(v) => {
                            if v != 0 && fuel > 0 {
                                lemma_run_stmt_discipline(s, co.state, (fuel - 1) as nat);
                            }
                        },
                        Err(_) => {},
                    }
                },
                Ok(Some(_)) => {},
                Err(_) => {},
            }
        },
    }
}

impl BinOp {
    /// Applies the operator to two values, exactly as `bin_op_spec` says.
    pub fn eval(&self, m: i32, n: i32) -> (r: Result<i32, EvalError>)
        ensures
            r == bin_op_spec(*self, m, n),
    {
        match self {
            BinOp::Add => Ok(m.wrapping_add(n)),
            BinOp::Sub => Ok(m.wrapping_sub(n)),
            BinOp::Mul => Ok(m.wrapping_mul(n)),
            BinOp::Div => match m.checked_div(n) {
                Some(q) => Ok(q),
                None => Err(EvalError::ArithmeticError),
            },
            BinOp::Mod => match m.checked_rem(n) {
                Some(r) => Ok(r),
                None => Err(EvalError::ArithmeticError),
            },
        }
    }
}

impl Expr {
    /// Evaluates the expression against the state, returning exactly what the
    /// mathematical interpreter `eval_expr_spec` says, and leaving the state
    /// exactly as it says.
    pub fn eval(&self, state: &mut State, fuel: u64) -> (r: Result<i32, EvalError>)
        requires
            old(state).wf(),
        ensures
            final(state).wf(),
            ({
                let o = eval_expr_spec(self@, old(state)@, fuel as nat);
                r == o.result && final(state)@ == o.state
            }),
        decreases fuel, expr_size(self@), 0nat,
    {
        match self {
            Expr::Var(x) => {
                return Ok(state.read_variable(x));
            },
            Expr::Constant(n) => {
                return Ok(*n);
            },
            Expr::IfThenElse(c, a, b) => {
                let cv = match c.eval(state, fuel) {
                    Ok(v) => v,
                    Err(er) => {
                        return Err(er);
                    },
                };
                if cv != 0 {
                    return a.eval(state, fuel);
                } else {
                    return b.eval(state, fuel);
                }
            },
            Expr::BinOp(op, l, r) => {
                let lv = match l.eval(state, fuel) {
                    Ok(v) => v,
                    Err(er) => {
                        return Err(er);
                    },
                };
                let rv = match r.eval(state, fuel) {
                    Ok(v) => v,
                    Err(er) => {
                        return Err(er);
                    },
                };
                return op.eval(lv, rv);
            },
            Expr::Call(f, args) => {
                proof {
                    assert(exprs_view(args@).skip(0) =~= exprs_view(args@));
                }
                let mut vals: Vec<i32> = Vec::new();
                match Self::eval_args(args, 0, &mut vals, state, fuel) {
                    Ok(_) => {},
                    Err(er) => {
                        return Err(er);
                    },
                }
                if !state.has_function(f) {
                    return Err(EvalError::UndefinedFunction);
                }
                if fuel == 0 {
                    return Err(EvalError::StackOverflow);
                }
                proof {
                    old(state).lemma_wf_stack_depth();
                    lemma_eval_args_discipline(exprs_view(args@), old(state)@, fuel as nat);
                    let ao = eval_args_spec(exprs_view(args@), old(state)@, fuel as nat);
                    match ao.result {
                        Ok(vs) => {
                            assert(vals@ =~= vs);
                        },
                        Err(_) => {},
                    }
                }
                let ghost entry_state = state@;
                let ghost arg_vals = vals@;
                let body = state.prepare_function(f, vals);
                let ghost entered = state@;
                let ret = body.run(state, fuel - 1);
                proof {
                    let fv = entry_state.functions[f@];
                    assert(eval_expr_spec(self@, old(state)@, fuel as nat) == invoke_spec(
                        fv,
                        arg_vals,
                        entry_state,
                        (fuel - 1) as nat,
                    ));
                    lemma_run_stmt_discipline(fv.body, entered, (fuel - 1) as nat);
                }
                match ret {
                    Ok(opt) => {
                        state.pop_frame();
                        return Ok(
                            match opt {
                                Some(v) => v,
                                None => 0,
                            },
                        );
                    },
                    Err(er) => {
                        return Err(er);
                    },
                }
            },
        }
    }

    /// Evaluates the arguments from position `i` on, left to right, appending
    /// their values.
    fn eval_args(args: &Vec<Expr>, i: usize, out: &mut Vec<i32>, state: &mut State, fuel: u64) -> (r:
        Result<(), EvalError>)
        requires
            i <= args@.len(),
            old(state).wf(),
        ensures
            final(state).wf(),
            ({
                let o = eval_args_spec(exprs_view(args@).skip(i as int), old(state)@, fuel as nat);
                match r {
                    Ok(_) => match o.result {
                        Ok(vs) => final(out)@ == old(out)@ + vs && final(state)@ == o.state,
                        Err(_) => false,
                    },
                    Err(er) => o.result == Err::<Seq<i32>, EvalError>(er) && final(state)@
                        == o.state,
                }
            }),
        decreases fuel, exprs_size(exprs_view(args@).skip(i as int)), 0nat,
    {
        proof {
            crate::syntax::lemma_exprs_view_len(args@);
        }
        if i == args.len() {
            proof {
                assert(exprs_view(args@).skip(i as int) =~= Seq::<ExprView>::empty());
                assert(out@ =~= old(out)@ + Seq::<i32>::empty());
            }
            return Ok(());
        }
        let ghost es = exprs_view(args@).skip(i as int);
        proof {
            crate::syntax::lemma_exprs_view_index(args@, i as int);
            assert(es[0] == args@[i as int]@);
            assert(es.drop_first() =~= exprs_view(args@).skip(i + 1));
        }
        let v = match args[i].eval(state, fuel) {
            Ok(v) => v,
            Err(er) => {
                return Err(er);
            },
        };
        out.push(v);
        match Self::eval_args(args, i + 1, out, state, fuel) {
            Ok(_) => {
                proof {
                    let o = eval_args_spec(es, old(state)@, fuel as nat);
                    match o.result {
                        Ok(vs) => {
                            assert(out@ =~= old(out)@ + vs);
                        },
                        Err(_) => {},
                    }
                }
                Ok(())
            },
            Err(er) => Err(er),
        }
    }
}

impl Statement {
    /// Runs two statements in order; a return value from the first skips the
    /// second. Behaves exactly as their sequential composition.
    fn run_two(stmt1: &Self, stmt2: &Self, state: &mut State, fuel: u64) -> (r: Result<
        Option<i32>,
        EvalError,
    >)
        requires
            old(state).wf(),
        ensures
            final(state).wf(),
            ({
                let o = run_stmt_spec(
                    StatementView::Sequence(Box::new(stmt1@), Box::new(stmt2@)),
                    old(state)@,
                    fuel as nat,
                );
                r == o.result && final(state)@ == o.state
            }),
        decreases fuel, stmt_size(stmt1@) + stmt_size(stmt2@), 0nat,
    {
        proof {
            crate::syntax::lemma_stmt_size_pos(stmt1@);
            crate::syntax::lemma_stmt_size_pos(stmt2@);
        }
        match stmt1.run(state, fuel) {
            Ok(None) => stmt2.run(state, fuel),
            Ok(Some(v)) => Ok(Some(v)),
            Err(er) => Err(er),
        }
    }

    /// Runs the statement against the state, returning exactly what the
    /// mathematical interpreter `run_stmt_spec` says, and leaving the state
    /// exactly as it says.
    pub fn run(&self, state: &mut State, fuel: u64) -> (r: Result<Option<i32>, EvalError>)
        requires
            old(state).wf(),
        ensures
            final(state).wf(),
            ({
                let o = run_stmt_spec(self@, old(state)@, fuel as nat);
                r == o.result && final(state)@ == o.state
            }),
        decreases fuel, stmt_size(self@), 0nat,
    {
        match self {
            Statement::Assign(x, e) => {
                let v = match e.eval(state, fuel) {
                    Ok(v) => v,
                    Err(er) => {
                        return Err(er);
                    },
                };
                state.set_variable(x.clone(), v);
                Ok(None)
            },
            Statement::Print(e) => {
                let v = match e.eval(state, fuel) {
                    Ok(v) => v,
                    Err(er) => {
                        return Err(er);
                    },
                };
                state.print(crate::text::int_to_string(v));
                Ok(None)
            },
            Statement::Ret(e) => match e.eval(state, fuel) {
                Ok(v) => Ok(Some(v)),
                Err(er) => Err(er),
            },
            Statement::Sequence(s1, s2) => Self::run_two(s1, s2, state, fuel),
            Statement::DoWhile(c, body) => {
                match body.run(state, fuel) {
                    Ok(None) => {},
                    Ok(Some(v)) => {
                        return Ok(Some(v));
                    },
                    Err(er) => {
                        return Err(er);
                    },
                }
                let cv = match c.eval(state, fuel) {
                    Ok(v) => v,
                    Err(er) => {
                        return Err(er);
                    },
                };
                if cv == 0 {
                    return Ok(None);
                }
                if fuel == 0 {
                    return Err(EvalError::StackOverflow);
                }
                self.run(state, fuel - 1)
            },
        }
    }
}

} // verus!
