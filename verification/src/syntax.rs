//! The abstract syntax of the language: binary operators, expressions,
//! statements, and named functions, together with the ghost mirror of each
//! shape (`ExprView`, `StatementView`, `FunctionView`) that the contracts of
//! the evaluator speak of.

use vstd::prelude::*;

verus! {

/// A binary operator on two integers.
#[derive(Clone, Copy, PartialEq, Eq, Structural, Debug)]
pub enum BinOp {
    Add,
    Sub,
    Mul,
    Div,
    Mod,
}

/// An expression: a finite tree, evaluated to a signed 32-bit integer.
#[derive(Debug)]
pub enum Expr {
    /// A variable read; an unbound name reads as 0.
    Var(String),
    /// An integer literal.
    Constant(i32),
    /// A ternary conditional: only the taken branch is evaluated.
    IfThenElse(Box<Expr>, Box<Expr>, Box<Expr>),
    /// A binary operation; the left operand is evaluated first.
    BinOp(BinOp, Box<Expr>, Box<Expr>),
    /// A call of a named function on argument expressions, left to right.
    Call(String, Vec<Expr>),
}

/// The ghost mirror of `Expr`: names become character sequences so that
/// contracts can speak of expressions mathematically.
pub enum ExprView {
    Var(Seq<char>),
    Constant(i32),
    IfThenElse(Box<ExprView>, Box<ExprView>, Box<ExprView>),
    BinOp(BinOp, Box<ExprView>, Box<ExprView>),
    Call(Seq<char>, Seq<ExprView>),
}

/// The ghost shape of an expression.
pub open spec fn expr_view(e: Expr) -> ExprView
    decreases e,
{
    match e {
        Expr::Var(x) => ExprView::Var(x@),
        Expr::Constant(n) => ExprView::Constant(n),
        Expr::IfThenElse(c, a, b) => ExprView::IfThenElse(
            Box::new(expr_view(*c)),
            Box::new(expr_view(*a)),
            Box::new(expr_view(*b)),
        ),
        Expr::BinOp(op, l, r) => ExprView::BinOp(op, Box::new(expr_view(*l)), Box::new(expr_view(*r))),
        Expr::Call(f, args) => ExprView::Call(f@, exprs_view(args@)),
    }
}

/// The ghost shapes of a sequence of expressions, in order.
pub open spec fn exprs_view(es: Seq<Expr>) -> Seq<ExprView>
    decreases es,
{
    if es.len() == 0 {
        Seq::empty()
    } else {
        seq![expr_view(es[0])] + exprs_view(es.drop_first())
    }
}

impl View for Expr {
    type V = ExprView;

    open spec fn view(&self) -> ExprView {
        expr_view(*self)
    }
}

/// A statement: the unit of execution. Running a statement may mutate the
/// current stack frame, append to the change log, and produce a return value
/// that terminates the enclosing function body.
#[derive(Debug)]
pub enum Statement {
    /// Bind a name to the value of an expression in the current frame.
    Assign(String, Expr),
    /// Run the body, then re-check the condition: the body always runs at
    /// least once, and repeats while the condition is nonzero.
    DoWhile(Expr, Box<Statement>),
    /// Run the first statement; unless it produced a return value, run the
    /// second.
    Sequence(Box<Statement>, Box<Statement>),
    /// Evaluate an expression and append its decimal text to the change log.
    Print(Expr),
    /// Evaluate an expression and terminate the enclosing function body with
    /// that value.
    Ret(Expr),
}

/// The ghost mirror of `Statement`.
pub enum StatementView {
    Assign(Seq<char>, ExprView),
    DoWhile(ExprView, Box<StatementView>),
    Sequence(Box<StatementView>, Box<StatementView>),
    Print(ExprView),
    Ret(ExprView),
}

/// The ghost shape of a statement.
pub open spec fn stmt_view(s: Statement) -> StatementView
    decreases s,
{
    match s {
        Statement::Assign(x, e) => StatementView::Assign(x@, expr_view(e)),
        Statement::DoWhile(c, body) => StatementView::DoWhile(
            expr_view(c),
            Box::new(stmt_view(*body)),
        ),
        Statement::Sequence(s1, s2) => StatementView::Sequence(
            Box::new(stmt_view(*s1)),
            Box::new(stmt_view(*s2)),
        ),
        Statement::Print(e) => StatementView::Print(expr_view(e)),
        Statement::Ret(e) => StatementView::Ret(expr_view(e)),
    }
}

impl View for Statement {
    type V = StatementView;

    open spec fn view(&self) -> StatementView {
        stmt_view(*self)
    }
}

/// The number of nodes of an expression; the termination measure of the
/// evaluator's structural recursion.
pub open spec fn expr_size(e: ExprView) -> nat
    decreases e,
{
    match e {
        ExprView::Var(_) => 1,
        ExprView::Constant(_) => 1,
        ExprView::IfThenElse(c, a, b) => 1 + expr_size(*c) + expr_size(*a) + expr_size(*b),
        ExprView::BinOp(_, l, r) => 1 + expr_size(*l) + expr_size(*r),
        ExprView::Call(_, args) => 1 + exprs_size(args),
    }
}

/// The number of nodes of an expression sequence.
pub open spec fn exprs_size(es: Seq<ExprView>) -> nat
    decreases es,
{
    if es.len() == 0 {
        0
    } else {
        1 + expr_size(es[0]) + exprs_size(es.drop_first())
    }
}

/// Every statement has at least one node.
pub proof fn lemma_stmt_size_pos(s: StatementView)
    ensures
        stmt_size(s) >= 1,
{
    match s {
        StatementView::Assign(_, _) => {},
        StatementView::DoWhile(_, _) => {},
        StatementView::Sequence(_, _) => {},
        StatementView::Print(_) => {},
        StatementView::Ret(_) => {},
    }
}

/// The number of nodes of a statement.
pub open spec fn stmt_size(s: StatementView) -> nat
    decreases s,
{
    match s {
        StatementView::Assign(_, e) => 1 + expr_size(e),
        StatementView::DoWhile(c, body) => 1 + expr_size(c) + stmt_size(*body),
        StatementView::Sequence(s1, s2) => 1 + stmt_size(*s1) + stmt_size(*s2),
        StatementView::Print(e) => 1 + expr_size(e),
        StatementView::Ret(e) => 1 + expr_size(e),
    }
}

/// A named function: an ordered list of parameter names and a body statement.
#[derive(Debug)]
pub struct Function {
    pub name: String,
    pub variables: Vec<String>,
    pub body: Statement,
}

/// The ghost mirror of `Function`.
pub struct FunctionView {
    pub name: Seq<char>,
    pub params: Seq<Seq<char>>,
    pub body: StatementView,
}

impl View for Function {
    type V = FunctionView;

    open spec fn view(&self) -> FunctionView {
        FunctionView {
            name: self.name@,
            params: self.variables.deep_view(),
            body: self.body@,
        }
    }
}

impl Clone for Expr {
    /// A deep copy with the same ghost shape.
    fn clone(&self) -> (res: Self)
        ensures
            res@ == self@,
        decreases *self,
    {
        match self {
            Expr::Var(x) => Expr::Var(x.clone()),
            Expr::Constant(n) => Expr::Constant(*n),
            Expr::IfThenElse(c, a, b) => Expr::IfThenElse(
                Box::new((**c).clone()),
                Box::new((**a).clone()),
                Box::new((**b).clone()),
            ),
            Expr::BinOp(op, l, r) => Expr::BinOp(
                *op,
                Box::new((**l).clone()),
                Box::new((**r).clone()),
            ),
            Expr::Call(f, args) => {
                let mut cloned_args: Vec<Expr> = Vec::new();
                let mut i: usize = 0;
                while i < args.len()
                    invariant
                        *self is Call,
                        self->Call_1 == *args,
                        i <= args.len(),
                        cloned_args.len() == i,
                        forall|j: int| 0 <= j < i ==> cloned_args[j]@ == args[j as int]@,
                    decreases args.len() - i,
                {
                    proof {
                        assert(decreases_to!(*self => self->Call_1));
                        assert(decreases_to!(self->Call_1@ => self->Call_1@[i as int]));
                        assert(decreases_to!(*self => args@[i as int]));
                    }
                    cloned_args.push(args[i].clone());
                    i = i + 1;
                }
                proof {
                    assert(exprs_view(cloned_args@) =~= exprs_view(args@)) by {
                        lemma_exprs_view_pointwise(cloned_args@, args@);
                    }
                }
                Expr::Call(f.clone(), cloned_args)
            },
        }
    }
}

/// Two expression sequences whose members have pairwise equal shapes have
/// equal shape sequences.
proof fn lemma_exprs_view_pointwise(a: Seq<Expr>, b: Seq<Expr>)
    requires
        a.len() == b.len(),
        forall|j: int| 0 <= j < a.len() ==> a[j]@ == b[j]@,
    ensures
        exprs_view(a) == exprs_view(b),
    decreases a,
{
    if a.len() > 0 {
        lemma_exprs_view_pointwise(a.drop_first(), b.drop_first());
        assert(exprs_view(a) =~= exprs_view(b));
    } else {
        assert(exprs_view(a) =~= exprs_view(b));
    }
}

/// The shape sequence indexes pointwise into the member shapes.
pub proof fn lemma_exprs_view_index(es: Seq<Expr>, i: int)
    requires
        0 <= i < es.len(),
    ensures
        exprs_view(es).len() == es.len(),
        exprs_view(es)[i] == es[i]@,
    decreases es,
{
    lemma_exprs_view_len(es);
    if i > 0 {
        lemma_exprs_view_index(es.drop_first(), i - 1);
    }
}

/// The shape sequence has the length of the member sequence.
pub proof fn lemma_exprs_view_len(es: Seq<Expr>)
    ensures
        exprs_view(es).len() == es.len(),
    decreases es,
{
    if es.len() > 0 {
        lemma_exprs_view_len(es.drop_first());
    }
}

impl Expr {
    /// Builds a conditional expression from its three parts.
    pub fn if_then_else(expr: Expr, expr1: Expr, expr2: Expr) -> (r: Self)
        ensures
            r@ == ExprView::IfThenElse(
                Box::new(expr@),
                Box::new(expr1@),
                Box::new(expr2@),
            ),
    {
        Self::IfThenElse(Box::new(expr), Box::new(expr1), Box::new(expr2))
    }

    /// Builds a call of the named function on the given arguments.
    pub fn call(fun: &str, exprs: Vec<Expr>) -> (r: Self)
        ensures
            r@ == ExprView::Call(fun@, exprs_view(exprs@)),
    {
        Self::Call(fun.to_owned(), exprs)
    }
}

impl Statement {
    /// Builds a do-while loop from its condition and body.
    pub fn do_while(expr: Expr, stmt: Statement) -> (r: Self)
        ensures
            r@ == StatementView::DoWhile(expr@, Box::new(stmt@)),
    {
        Self::DoWhile(expr, Box::new(stmt))
    }

    /// Builds the sequential composition of two statements.
    pub fn seq(stmt1: Statement, stmt2: Statement) -> (r: Self)
        ensures
            r@ == StatementView::Sequence(Box::new(stmt1@), Box::new(stmt2@)),
    {
        Self::Sequence(Box::new(stmt1), Box::new(stmt2))
    }

    /// Builds the iterative Fibonacci program: two accumulators `a = 0` and
    /// `b = 1`, and a do-while loop that prints `a` and advances
    /// `a, b = b, a + b` until the counter `i` reaches `n`.
    pub fn fibonacci(n: i32) -> (r: Self)
        ensures
            r@ == fibonacci_program(n),
    {
        proof {
            reveal_with_fuel(stmt_view, 12);
            reveal_with_fuel(expr_view, 6);
        }
        Statement::seq(
            Statement::Assign("a".to_owned(), Expr::Constant(0)),
            Statement::seq(
                Statement::Assign("b".to_owned(), Expr::Constant(1)),
                Statement::seq(
                    Statement::Assign("i".to_owned(), Expr::Constant(0)),
                    Statement::do_while(
                        Expr::BinOp(
                            BinOp::Sub,
                            Box::new(Expr::Var("i".to_owned())),
                            Box::new(Expr::Constant(n)),
                        ),
                        Statement::seq(
                            Statement::Print(Expr::Var("a".to_owned())),
                            Statement::seq(
                                Statement::Assign("temp".to_owned(), Expr::Var("a".to_owned())),
                                Statement::seq(
                                    Statement::Assign("a".to_owned(), Expr::Var("b".to_owned())),
                                    Statement::seq(
                                        Statement::Assign(
                                            "b".to_owned(),
                                            Expr::BinOp(
                                                BinOp::Add,
                                                Box::new(Expr::Var("temp".to_owned())),
                                                Box::new(Expr::Var("b".to_owned())),
                                            ),
                                        ),
                                        Statement::Assign(
                                            "i".to_owned(),
                                            Expr::BinOp(
                                                BinOp::Add,
                                                Box::new(Expr::Var("i".to_owned())),
                                                Box::new(Expr::Constant(1)),
                                            ),
                                        ),
                                    ),
                                ),
                            ),
                        ),
                    ),
                ),
            ),
        )
    }
}

/// The shape of the statement that `Statement::fibonacci` builds.
pub open spec fn fibonacci_program(n: i32) -> StatementView {
    StatementView::Sequence(
        Box::new(StatementView::Assign("a"@, ExprView::Constant(0))),
        Box::new(StatementView::Sequence(
            Box::new(StatementView::Assign("b"@, ExprView::Constant(1))),
            Box::new(StatementView::Sequence(
                Box::new(StatementView::Assign("i"@, ExprView::Constant(0))),
                Box::new(StatementView::DoWhile(
                    ExprView::BinOp(
                        BinOp::Sub,
                        Box::new(ExprView::Var("i"@)),
                        Box::new(ExprView::Constant(n)),
                    ),
                    Box::new(StatementView::Sequence(
                        Box::new(StatementView::Print(ExprView::Var("a"@))),
                        Box::new(StatementView::Sequence(
                            Box::new(StatementView::Assign("temp"@, ExprView::Var("a"@))),
                            Box::new(StatementView::Sequence(
                                Box::new(StatementView::Assign("a"@, ExprView::Var("b"@))),
                                Box::new(StatementView::Sequence(
                                    Box::new(StatementView::Assign(
                                        "b"@,
                                        ExprView::BinOp(
                                            BinOp::Add,
                                            Box::new(ExprView::Var("temp"@)),
                                            Box::new(ExprView::Var("b"@)),
                                        ),
                                    )),
                                    Box::new(StatementView::Assign(
                                        "i"@,
                                        ExprView::BinOp(
                                            BinOp::Add,
                                            Box::new(ExprView::Var("i"@)),
                                            Box::new(ExprView::Constant(1)),
                                        ),
                                    )),
                                )),
                            )),
                        )),
                    )),
                )),
            )),
        )),
    )
}

impl Function {
    /// Builds the recursive greatest-common-divisor function
    /// `gcd(m, n) = if n != 0 then gcd(n, m mod n) else m`, whose body also
    /// prints both arguments on entry.
    pub fn gcd() -> (r: Self)
        ensures
            r@ == gcd_function(),
    {
        let mut variables: Vec<String> = Vec::new();
        variables.push("m".to_owned());
        variables.push("n".to_owned());
        proof {
            assert(variables.deep_view() =~= seq!["m"@, "n"@]);
        }
        Self {
            name: "gcd".to_owned(),
            variables,
            body: gcd_body(),
        }
    }
}

/// The argument list of the recursive call inside `Function::gcd`:
/// `n, m mod n`.
fn gcd_call_args() -> (r: Vec<Expr>)
    ensures
        exprs_view(r@) == seq![
            ExprView::Var("n"@),
            ExprView::BinOp(
                BinOp::Mod,
                Box::new(ExprView::Var("m"@)),
                Box::new(ExprView::Var("n"@)),
            ),
        ],
{
    let mut args: Vec<Expr> = Vec::new();
    args.push(Expr::Var("n".to_owned()));
    args.push(Expr::BinOp(
        BinOp::Mod,
        Box::new(Expr::Var("m".to_owned())),
        Box::new(Expr::Var("n".to_owned())),
    ));
    proof {
        reveal_with_fuel(exprs_view, 3);
        reveal_with_fuel(expr_view, 3);
        assert(args@.len() == 2);
        assert(args@[0]@ == ExprView::Var("n"@));
        assert(args@[1]@ == ExprView::BinOp(
            BinOp::Mod,
            Box::new(ExprView::Var("m"@)),
            Box::new(ExprView::Var("n"@)),
        ));
        assert(args@.drop_first() =~= seq![args@[1]]);
        assert(args@.drop_first().drop_first() =~= Seq::<Expr>::empty());
        assert(exprs_view(args@) =~= seq![
            ExprView::Var("n"@),
            ExprView::BinOp(
                BinOp::Mod,
                Box::new(ExprView::Var("m"@)),
                Box::new(ExprView::Var("n"@)),
            ),
        ]);
    }
    args
}

/// The body statement of `Function::gcd`.
fn gcd_body() -> (r: Statement)
    ensures
        r@ == gcd_function().body,
{
    let ret_stmt = Statement::Ret(Expr::if_then_else(
        Expr::Var("n".to_owned()),
        Expr::call("gcd", gcd_call_args()),
        Expr::Var("m".to_owned()),
    ));
    let prints = Statement::seq(
        Statement::Print(Expr::Var("m".to_owned())),
        Statement::Print(Expr::Var("n".to_owned())),
    );
    Statement::seq(prints, ret_stmt)
}

/// The shape of the function that `Function::gcd` builds.
pub open spec fn gcd_function() -> FunctionView {
    FunctionView {
        name: "gcd"@,
        params: seq!["m"@, "n"@],
        body: StatementView::Sequence(
            Box::new(StatementView::Sequence(
                Box::new(StatementView::Print(ExprView::Var("m"@))),
                Box::new(StatementView::Print(ExprView::Var("n"@))),
            )),
            Box::new(StatementView::Ret(ExprView::IfThenElse(
                Box::new(ExprView::Var("n"@)),
                Box::new(ExprView::Call(
                    "gcd"@,
                    seq![
                        ExprView::Var("n"@),
                        ExprView::BinOp(
                            BinOp::Mod,
                            Box::new(ExprView::Var("m"@)),
                            Box::new(ExprView::Var("n"@)),
                        ),
                    ],
                )),
                Box::new(ExprView::Var("m"@)),
            ))),
        ),
    }
}

impl Clone for Statement {
    /// A deep copy with the same ghost shape.
    fn clone(&self) -> (res: Self)
        ensures
            res@ == self@,
        decreases *self,
    {
        match self {
            Statement::Assign(x, e) => Statement::Assign(x.clone(), e.clone()),
            Statement::DoWhile(c, body) => Statement::DoWhile(
                c.clone(),
                Box::new((**body).clone()),
            ),
            Statement::Sequence(s1, s2) => Statement::Sequence(
                Box::new((**s1).clone()),
                Box::new((**s2).clone()),
            ),
            Statement::Print(e) => Statement::Print(e.clone()),
            Statement::Ret(e) => Statement::Ret(e.clone()),
        }
    }
}

impl Clone for Function {
    /// A deep copy with the same ghost shape.
    fn clone(&self) -> (res: Self)
        ensures
            res@ == self@,
    {
        let mut variables: Vec<String> = Vec::new();
        let mut i: usize = 0;
        while i < self.variables.len()
            invariant
                i <= self.variables.len(),
                variables.len() == i,
                forall|j: int| 0 <= j < i ==> variables[j]@ == self.variables[j]@,
            decreases self.variables.len() - i,
        {
            variables.push(self.variables[i].clone());
            i = i + 1;
        }
        proof {
            assert(variables.deep_view() =~= self.variables.deep_view());
        }
        Function { name: self.name.clone(), variables, body: self.body.clone() }
    }
}

} // verus!
