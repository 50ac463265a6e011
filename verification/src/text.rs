//! Textual projections: the decimal text of an integer value, as the `Print`
//! statement records it in the change log, and the pure rendering of a
//! program tree for inspection before a run.

use vstd::prelude::*;
use vstd::string::StringExecFns;

use crate::syntax::{expr_size, stmt_size, BinOp, Expr, ExprView, Statement, StatementView};

verus! {

/// The character of one decimal digit.
pub open spec fn digit_char(d: int) -> char {
    if d == 0 {
        '0'
    } else if d == 1 {
        '1'
    } else if d == 2 {
        '2'
    } else if d == 3 {
        '3'
    } else if d == 4 {
        '4'
    } else if d == 5 {
        '5'
    } else if d == 6 {
        '6'
    } else if d == 7 {
        '7'
    } else if d == 8 {
        '8'
    } else {
        '9'
    }
}

/// The decimal digits of a nonnegative number, most significant first, with
/// no leading zero except for the number 0 itself.
pub open spec fn dec_digits(n: nat) -> Seq<char>
    decreases n,
{
    if n < 10 {
        seq![digit_char(n as int)]
    } else {
        dec_digits(n / 10) + seq![digit_char((n % 10) as int)]
    }
}

/// The decimal text of an integer: its digits, with a leading minus sign when
/// it is negative.
pub open spec fn dec_str(v: int) -> Seq<char> {
    if v < 0 {
        seq!['-'] + dec_digits((-v) as nat)
    } else {
        dec_digits(v as nat)
    }
}

/// The one-character text of a decimal digit.
fn digit_str(d: u32) -> (r: &'static str)
    requires
        d < 10,
    ensures
        r@ == seq![digit_char(d as int)],
{
    proof {
        reveal_strlit("0");
        reveal_strlit("1");
        reveal_strlit("2");
        reveal_strlit("3");
        reveal_strlit("4");
        reveal_strlit("5");
        reveal_strlit("6");
        reveal_strlit("7");
        reveal_strlit("8");
        reveal_strlit("9");
    }
    match d {
        0 => "0",
        1 => "1",
        2 => "2",
        3 => "3",
        4 => "4",
        5 => "5",
        6 => "6",
        7 => "7",
        8 => "8",
        _ => "9",
    }
}

/// Appends the decimal digits of a nonnegative number.
fn push_digits(n: u32, s: &mut String)
    ensures
        final(s)@ == old(s)@ + dec_digits(n as nat),
    decreases n,
{
    if n >= 10 {
        push_digits(n / 10, s);
    }
    s.append(digit_str(n % 10));
    proof {
        if n < 10 {
            assert(final(s)@ =~= old(s)@ + dec_digits(n as nat));
        } else {
            assert(final(s)@ =~= old(s)@ + dec_digits(n as nat));
        }
    }
}

/// The symbol of a binary operator.
pub open spec fn render_bin_op(op: BinOp) -> Seq<char> {
    match op {
        BinOp::Add => "+"@,
        BinOp::Sub => "-"@,
        BinOp::Mul => "*"@,
        BinOp::Div => "/"@,
        BinOp::Mod => "%"@,
    }
}

/// The one-line text of an expression. A call shows only the function name:
/// the rendering is a debugging aid, not a syntax.
pub open spec fn render_expr(e: ExprView) -> Seq<char>
    decreases e,
{
    match e {
        ExprView::Var(x) => x,
        ExprView::Constant(n) => dec_str(n as int),
        ExprView::IfThenElse(c, a, b) => "IF "@ + render_expr(*c) + " THEN "@ + render_expr(*a)
            + " ELSE "@ + render_expr(*b),
        ExprView::BinOp(op, l, r) => render_expr(*l) + " "@ + render_bin_op(op) + " "@
            + render_expr(*r),
        ExprView::Call(f, _) => f + "(...)"@,
    }
}

/// The indented text of a statement: one line per simple statement, loop
/// bodies indented two further spaces.
pub open spec fn render_stmt(s: StatementView, ind: Seq<char>) -> Seq<char>
    decreases s,
{
    match s {
        StatementView::Assign(x, e) => ind + "LET "@ + x + " = "@ + render_expr(e),
        StatementView::DoWhile(c, body) => ind + "WHILE "@ + render_expr(c) + " {\n"@
            + render_stmt(*body, ind + "  "@) + "\n"@ + ind + "}"@,
        StatementView::Sequence(s1, s2) => render_stmt(*s1, ind) + ";\n"@ + render_stmt(*s2, ind),
        StatementView::Print(e) => ind + "PRINT "@ + render_expr(e),
        StatementView::Ret(e) => ind + "RETURN "@ + render_expr(e),
    }
}

impl BinOp {
    /// The operator's symbol.
    pub fn to_text(&self) -> (r: &'static str)
        ensures
            r@ == render_bin_op(*self),
    {
        match self {
            BinOp::Add => "+",
            BinOp::Sub => "-",
            BinOp::Mul => "*",
            BinOp::Div => "/",
            BinOp::Mod => "%",
        }
    }
}

impl Expr {
    /// The one-line text of the expression.
    pub fn to_text(&self) -> (r: String)
        ensures
            r@ == render_expr(self@),
        decreases expr_size(self@),
    {
        match self {
            Expr::Var(x) => x.clone(),
            Expr::Constant(n) => int_to_string(*n),
            Expr::IfThenElse(c, a, b) => {
                let mut out = String::new();
                out.append("IF ");
                let ct = c.to_text();
                out.append(ct.as_str());
                out.append(" THEN ");
                let at = a.to_text();
                out.append(at.as_str());
                out.append(" ELSE ");
                let bt = b.to_text();
                out.append(bt.as_str());
                proof {
                    assert(out@ =~= render_expr(self@));
                }
                out
            },
            Expr::BinOp(op, l, r) => {
                let mut out = l.to_text();
                out.append(" ");
                out.append(op.to_text());
                out.append(" ");
                let rt = r.to_text();
                out.append(rt.as_str());
                proof {
                    assert(out@ =~= render_expr(self@));
                }
                out
            },
            Expr::Call(f, _) => {
                let mut out = f.clone();
                out.append("(...)");
                out
            },
        }
    }
}

impl Statement {
    /// The indented, multi-line text of the statement, starting flush left.
    pub fn to_text(&self) -> (r: String)
        ensures
            r@ == render_stmt(self@, Seq::empty()),
    {
        let ind = String::new();
        self.to_text_at(&ind)
    }

    /// The text of the statement at a given indentation.
    fn to_text_at(&self, ind: &String) -> (r: String)
        ensures
            r@ == render_stmt(self@, ind@),
        decreases stmt_size(self@),
    {
        match self {
            Statement::Assign(x, e) => {
                let mut out = ind.clone();
                out.append("LET ");
                out.append(x.as_str());
                out.append(" = ");
                let et = e.to_text();
                out.append(et.as_str());
                proof {
                    assert(out@ =~= render_stmt(self@, ind@));
                }
                out
            },
            Statement::DoWhile(c, body) => {
                let mut deeper = ind.clone();
                deeper.append("  ");
                let mut out = ind.clone();
                out.append("WHILE ");
                let ct = c.to_text();
                out.append(ct.as_str());
                out.append(" {\n");
                let bt = body.to_text_at(&deeper);
                out.append(bt.as_str());
                out.append("\n");
                out.append(ind.as_str());
                out.append("}");
                proof {
                    assert(out@ =~= render_stmt(self@, ind@));
                }
                out
            },
            Statement::Sequence(s1, s2) => {
                let mut out = s1.to_text_at(ind);
                out.append(";\n");
                let t2 = s2.to_text_at(ind);
                out.append(t2.as_str());
                proof {
                    assert(out@ =~= render_stmt(self@, ind@));
                }
                out
            },
            Statement::Print(e) => {
                let mut out = ind.clone();
                out.append("PRINT ");
                let et = e.to_text();
                out.append(et.as_str());
                proof {
                    assert(out@ =~= render_stmt(self@, ind@));
                }
                out
            },
            Statement::Ret(e) => {
                let mut out = ind.clone();
                out.append("RETURN ");
                let et = e.to_text();
                out.append(et.as_str());
                proof {
                    assert(out@ =~= render_stmt(self@, ind@));
                }
                out
            },
        }
    }
}

/// The decimal text of a value, as printing renders it.
pub fn int_to_string(v: i32) -> (r: String)
    ensures
        r@ == dec_str(v as int),
{
    let mut s = String::new();
    if v < 0 {
        proof {
            reveal_strlit("-");
        }
        s.append("-");
        let m64: i64 = -(v as i64);
        let m: u32 = m64 as u32;
        push_digits(m, &mut s);
        proof {
            assert(s@ =~= dec_str(v as int));
        }
    } else {
        push_digits(v as u32, &mut s);
        proof {
            assert(s@ =~= dec_str(v as int));
        }
    }
    s
}

} // verus!
