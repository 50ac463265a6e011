//! The laws of the evaluator, each proved once and for all over the
//! mathematical interpreter: determinism, short-circuit evaluation, the
//! default of zero for unbound names, return propagation, do-while order,
//! and frame isolation across calls.

use vstd::prelude::*;

use crate::eval::{
    eval_args_spec, eval_expr_spec, invoke_spec, lemma_invoke_discipline,
    lemma_run_stmt_discipline, log_extends, run_stmt_spec, EvalError, ExprOutcome, StmtOutcome,
};
use crate::state::StateView;
use crate::syntax::{expr_size, exprs_size, stmt_size, ExprView, FunctionView, StatementView};

verus! {

/// Law: execution is deterministic. The outcome of a run — return value,
/// error, final state, and with them the whole change log — is a function of
/// the program, the starting state, and the fuel alone; there is no hidden
/// state. Two runs of one program from equal states replay the same log.
pub proof fn lemma_run_deterministic(
    s1: StatementView,
    s2: StatementView,
    st1: StateView,
    st2: StateView,
    fuel: nat,
)
    requires
        s1 == s2,
        st1 == st2,
    ensures
        run_stmt_spec(s1, st1, fuel) == run_stmt_spec(s2, st2, fuel),
{
}

/// Law: a conditional expression evaluates only the taken branch. Once the
/// condition has come to a nonzero value the whole conditional behaves
/// exactly as the then-branch alone, and on zero exactly as the else-branch
/// alone: no effect of the untaken branch — no print, no call — can reach
/// the change log.
pub proof fn lemma_if_then_else_short_circuit(
    c: ExprView,
    a: ExprView,
    b: ExprView,
    st: StateView,
    fuel: nat,
)
    ensures
        ({
            let co = eval_expr_spec(c, st, fuel);
            let ite = eval_expr_spec(
                ExprView::IfThenElse(Box::new(c), Box::new(a), Box::new(b)),
                st,
                fuel,
            );
            match co.result {
                Ok(v) => ite == if v != 0 {
                    eval_expr_spec(a, co.state, fuel)
                } else {
                    eval_expr_spec(b, co.state, fuel)
                },
                Err(_) => ite == co,
            }
        }),
{
}

/// Law: a name with no binding in the current frame evaluates to 0, with no
/// other effect.
pub proof fn lemma_unbound_variable_reads_zero(x: Seq<char>, st: StateView, fuel: nat)
    requires
        !st.stack.last().contains_key(x),
    ensures
        eval_expr_spec(ExprView::Var(x), st, fuel) == (ExprOutcome {
            result: Ok(0),
            state: st,
        }),
{
}

/// Law: a return value short-circuits a sequence. When the first statement
/// produces a return value, the composition behaves exactly as the first
/// statement alone: the second never runs, and none of its effects appears.
pub proof fn lemma_return_short_circuits_sequence(
    s1: StatementView,
    s2: StatementView,
    st: StateView,
    fuel: nat,
)
    requires
        run_stmt_spec(s1, st, fuel).result matches Ok(Some(_)),
    ensures
        run_stmt_spec(StatementView::Sequence(Box::new(s1), Box::new(s2)), st, fuel)
            == run_stmt_spec(s1, st, fuel),
{
}

/// Law: a do-while loop runs its body before it ever looks at the condition.
/// Every effect of one body execution is in the final state even when the
/// condition is already zero; a return value from the body propagates out at
/// once, and the condition is then never checked.
pub proof fn lemma_do_while_runs_body_first(
    c: ExprView,
    body: StatementView,
    st: StateView,
    fuel: nat,
)
    ensures
        ({
            let bo = run_stmt_spec(body, st, fuel);
            let w = run_stmt_spec(StatementView::DoWhile(c, Box::new(body)), st, fuel);
            match bo.result {
                Ok(None) => ({
                    let co = eval_expr_spec(c, bo.state, fuel);
                    match co.result {
                        Ok(v) => v == 0 ==> w == (StmtOutcome {
                            result: Ok(None),
                            state: co.state,
                        }),
                        Err(er) => w == (StmtOutcome { result: Err(er), state: co.state }),
                    }
                }),
                Ok(Some(_)) => w == bo,
                Err(_) => w == bo,
            }
        }),
{
}

/// Law: frame isolation. A call runs the body against a fresh frame holding
/// nothing but the positional parameter bindings — the callee cannot see any
/// caller variable that was not passed — and when the call returns, the whole
/// caller stack, its topmost frame included, is exactly as it was. The
/// function table is never changed, and the change log has only grown.
pub proof fn lemma_call_frame_isolation(f: FunctionView, vals: Seq<i32>, st: StateView, fuel: nat)
    requires
        st.stack.len() > 0,
    ensures
        ({
            let o = invoke_spec(f, vals, st, fuel);
            &&& (o.result is Ok ==> o.state.stack == st.stack)
            &&& o.state.functions == st.functions
            &&& log_extends(st.changes, o.state.changes)
        }),
{
    lemma_invoke_discipline(f, vals, st, fuel);
}

/// Law: the change log is append-only across any statement execution — what
/// was recorded stays recorded, whether the run succeeds, returns, or aborts
/// with an error.
pub proof fn lemma_change_log_append_only(s: StatementView, st: StateView, fuel: nat)
    requires
        st.stack.len() > 0,
    ensures
        log_extends(st.changes, run_stmt_spec(s, st, fuel).state.changes),
{
    lemma_run_stmt_discipline(s, st, fuel);
}

/// Law: the fuel bound is no hidden input. A run that did not exhaust its
/// fuel has exactly the same outcome — value, final state, change log — under
/// every larger bound: the observable behaviour is a function of the program
/// and the starting state alone.
pub proof fn lemma_run_fuel_independent(s: StatementView, st: StateView, fuel1: nat, fuel2: nat)
    requires
        fuel1 <= fuel2,
        run_stmt_spec(s, st, fuel1).result != Err::<Option<i32>, EvalError>(
            EvalError::StackOverflow,
        ),
    ensures
        run_stmt_spec(s, st, fuel2) == run_stmt_spec(s, st, fuel1),
    decreases fuel1, stmt_size(s), 0nat,
{
    match s {
        StatementView::Assign(_, e) => {
            lemma_eval_expr_fuel_independent(e, st, fuel1, fuel2);
        },
        StatementView::Print(e) => {
            lemma_eval_expr_fuel_independent(e, st, fuel1, fuel2);
        },
        StatementView::Ret(e) => {
            lemma_eval_expr_fuel_independent(e, st, fuel1, fuel2);
        },
        StatementView::Sequence(s1, s2) => {
            lemma_run_fuel_independent(*s1, st, fuel1, fuel2);
            let o1 = run_stmt_spec(*s1, st, fuel1);
            match o1.result {
                Ok(None) => {
                    lemma_run_fuel_independent(*s2, o1.state, fuel1, fuel2);
                },
                Ok(Some(_)) => {},
                Err(_) => {},
            }
        },
        StatementView::DoWhile(c, body) => {
            lemma_run_fuel_independent(*body, st, fuel1, fuel2);
            let bo = run_stmt_spec(*body, st, fuel1);
            match bo.result {
                Ok(None) => {
                    lemma_eval_expr_fuel_independent(c, bo.state, fuel1, fuel2);
                    let co = eval_expr_spec(c, bo.state, fuel1);
                    match co.result {
                        Ok(v) => {
                            if v != 0 {
                                lemma_run_fuel_independent(
                                    s,
                                    co.state,
                                    (fuel1 - 1) as nat,
                                    (fuel2 - 1) as nat,
                                );
                            }
                        },
                        Err(_) => {},
                    }
                },
                Ok(Some(_)) => {},
                Err(_) => {},
            }
        },
    }
}

/// Evaluating an expression is independent of any fuel that was not
/// exhausted.
pub proof fn lemma_eval_expr_fuel_independent(e: ExprView, st: StateView, fuel1: nat, fuel2: nat)
    requires
        fuel1 <= fuel2,
        eval_expr_spec(e, st, fuel1).result != Err::<i32, EvalError>(EvalError::StackOverflow),
    ensures
        eval_expr_spec(e, st, fuel2) == eval_expr_spec(e, st, fuel1),
    decreases fuel1, expr_size(e), 0nat,
{
    match e {
        ExprView::Var(_) => {},
        ExprView::Constant(_) => {},
        ExprView::IfThenElse(c, a, b) => {
            lemma_eval_expr_fuel_independent(*c, st, fuel1, fuel2);
            let co = eval_expr_spec(*c, st, fuel1);
            match co.result {
                Ok(v) => if v != 0 {
                    lemma_eval_expr_fuel_independent(*a, co.state, fuel1, fuel2);
                } else {
                    lemma_eval_expr_fuel_independent(*b, co.state, fuel1, fuel2);
                },
                Err(_) => {},
            }
        },
        ExprView::BinOp(_, l, r) => {
            lemma_eval_expr_fuel_independent(*l, st, fuel1, fuel2);
            let lo = eval_expr_spec(*l, st, fuel1);
            match lo.result {
                Ok(_) => {
                    lemma_eval_expr_fuel_independent(*r, lo.state, fuel1, fuel2);
                },
                Err(_) => {},
            }
        },
        ExprView::Call(f, args) => {
            lemma_eval_args_fuel_independent(args, st, fuel1, fuel2);
            let ao = eval_args_spec(args, st, fuel1);
            match ao.result {
                Ok(vals) => {
                    if ao.state.functions.contains_key(f) && fuel1 > 0 {
                        lemma_invoke_fuel_independent(
                            ao.state.functions[f],
                            vals,
                            ao.state,
                            (fuel1 - 1) as nat,
                            (fuel2 - 1) as nat,
                        );
                    }
                },
                Err(_) => {},
            }
        },
    }
}

/// Evaluating an argument list is independent of any fuel that was not
/// exhausted.
pub proof fn lemma_eval_args_fuel_independent(
    es: Seq<ExprView>,
    st: StateView,
    fuel1: nat,
    fuel2: nat,
)
    requires
        fuel1 <= fuel2,
        eval_args_spec(es, st, fuel1).result != Err::<Seq<i32>, EvalError>(
            EvalError::StackOverflow,
        ),
    ensures
        eval_args_spec(es, st, fuel2) == eval_args_spec(es, st, fuel1),
    decreases fuel1, exprs_size(es), 0nat,
{
    if es.len() > 0 {
        lemma_eval_expr_fuel_independent(es[0], st, fuel1, fuel2);
        let fo = eval_expr_spec(es[0], st, fuel1);
        match fo.result {
            Ok(_) => {
                lemma_eval_args_fuel_independent(es.drop_first(), fo.state, fuel1, fuel2);
            },
            Err(_) => {},
        }
    }
}

/// Invoking a function is independent of any fuel that was not exhausted.
pub proof fn lemma_invoke_fuel_independent(
    f: FunctionView,
    vals: Seq<i32>,
    st: StateView,
    fuel1: nat,
    fuel2: nat,
)
    requires
        fuel1 <= fuel2,
        invoke_spec(f, vals, st, fuel1).result != Err::<i32, EvalError>(EvalError::StackOverflow),
    ensures
        invoke_spec(f, vals, st, fuel2) == invoke_spec(f, vals, st, fuel1),
    decreases fuel1, stmt_size(f.body), 1nat,
{
    let entered = StateView {
        stack: st.stack.push(crate::state::bind_frame(f.params, vals)),
        ..st
    };
    lemma_run_fuel_independent(f.body, entered, fuel1, fuel2);
}

} // verus!
