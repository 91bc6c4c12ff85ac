//! Plain-text rendering of types and expressions in target syntax.
use vstd::prelude::*;
use crate::ast::{Expr, Stmt, Type};

verus! {

pub open spec fn type_text(t: Type) -> Seq<char>
    decreases t,
{
    match t {
        Type::Named { name, generic } => match generic {
            Some(g) => name@ + "<"@ + type_text(*g) + ">"@,
            None => name@,
        },
        Type::Ref(inner) => type_text(*inner) + "&"@,
    }
}

/// The text of an expression in plain position: calls take their arguments
/// comma-separated, an `if` renders as a conditional expression.
pub open spec fn expr_text(e: Expr) -> Seq<char>
    decreases e, 2int,
{
    match e {
        Expr::MethodCall { receiver, method, args } => expr_text(*receiver) + "."@ + method@
            + "("@ + exprs_text(args, 0) + ")"@,
        Expr::Call { func, args } => func@ + "("@ + exprs_text(args, 0) + ")"@,
        Expr::If { cond, then_branch, else_branch } => "("@ + expr_text(*cond) + ") ? "@
            + leaf_text(then_branch) + " : "@ + match else_branch {
            Some(b) => match *b {
                Expr::Block(stmts) => leaf_text(stmts),
                other => expr_text(other),
            },
            None => Seq::empty(),
        },
        Expr::For { var, range, body } => Seq::empty(),
        Expr::Range { from, to, inclusive } => expr_text(*from) + if inclusive {
            "..="@
        } else {
            ".."@
        } + expr_text(*to),
        Expr::While { cond, body } => Seq::empty(),
        Expr::Block(stmts) => "{}"@,
        Expr::Lit(s) => s@,
        Expr::Path(s) => s@,
        Expr::Field { base, member } => expr_text(*base) + "."@ + member@,
        Expr::Tuple(elems) => "("@ + exprs_text(elems, 0) + ")"@,
        Expr::Cast { inner, ty } => expr_text(*inner),
        Expr::Return(value) => match value {
            Some(v) => "return "@ + expr_text(*v),
            None => "return"@,
        },
        Expr::Binary { op, lhs, rhs } => expr_text(*lhs) + " "@ + op@ + " "@ + expr_text(*rhs),
        Expr::Unary { op, inner } => op@ + expr_text(*inner),
        Expr::Assign { op, lhs, rhs } => expr_text(*lhs) + " "@ + op@ + " "@ + expr_text(*rhs),
        Expr::Paren(inner) => "("@ + expr_text(*inner) + ")"@,
    }
}

/// The expression of the first statement of a branch, empty if there is none.
pub open spec fn leaf_text(v: Vec<Stmt>) -> Seq<char>
    decreases v, 1int,
{
    if v.len() > 0 {
        match v[0] {
            Stmt::Expr { expr, semi } => expr_text(expr),
            Stmt::Local { pat, init } => Seq::empty(),
        }
    } else {
        Seq::empty()
    }
}

/// `v[i..]` rendered and separated by `, `.
pub open spec fn exprs_text(v: Vec<Expr>, i: int) -> Seq<char>
    decreases v, v.len() - i,
{
    if 0 <= i < v.len() {
        expr_text(v[i]) + if i + 1 < v.len() {
            ", "@ + exprs_text(v, i + 1)
        } else {
            Seq::empty()
        }
    } else {
        Seq::empty()
    }
}

pub fn write_type(t: &Type, out: &mut String)
    ensures
        final(out)@ == old(out)@ + type_text(*t),
    decreases t,
{
    let ghost start = out@;
    match t {
        Type::Named { name, generic } => {
            out.append(name.as_str());
            match generic {
                Some(g) => {
                    out.append("<");
                    write_type(g, out);
                    out.append(">");
                },
                None => {},
            }
        },
        Type::Ref(inner) => {
            write_type(inner, out);
            out.append("&");
        },
    }
    assert(out@ =~= start + type_text(*t));
}

/// Appends the text of `e`.
pub fn write_expr(e: &Expr, out: &mut String)
    ensures
        final(out)@ == old(out)@ + expr_text(*e),
    decreases e, 2int,
{
    let ghost start = out@;
    match e {
        Expr::MethodCall { receiver, method, args } => {
            write_expr(receiver, out);
            out.append(".");
            out.append(method.as_str());
            out.append("(");
            write_exprs(args, 0, out);
            out.append(")");
        },
        Expr::Call { func, args } => {
            out.append(func.as_str());
            out.append("(");
            write_exprs(args, 0, out);
            out.append(")");
        },
        Expr::If { cond, then_branch, else_branch } => {
            out.append("(");
            write_expr(cond, out);
            out.append(") ? ");
            write_leaf(then_branch, out);
            out.append(" : ");
            match else_branch {
                Some(b) => match &**b {
                    Expr::Block(stmts) => write_leaf(stmts, out),
                    other => write_expr(other, out),
                },
                None => {},
            }
        },
        Expr::For { var, range, body } => {},
        Expr::Range { from, to, inclusive } => {
            write_expr(from, out);
            if *inclusive {
                out.append("..=");
            } else {
                out.append("..");
            }
            write_expr(to, out);
        },
        Expr::While { cond, body } => {},
        Expr::Block(stmts) => {
            out.append("{}");
        },
        Expr::Lit(s) => {
            out.append(s.as_str());
        },
        Expr::Path(s) => {
            out.append(s.as_str());
        },
        Expr::Field { base, member } => {
            write_expr(base, out);
            out.append(".");
            out.append(member.as_str());
        },
        Expr::Tuple(elems) => {
            out.append("(");
            write_exprs(elems, 0, out);
            out.append(")");
        },
        Expr::Cast { inner, ty } => {
            write_expr(inner, out);
        },
        Expr::Return(value) => match value {
            Some(v) => {
                out.append("return ");
                write_expr(v, out);
            },
            None => {
                out.append("return");
            },
        },
        Expr::Binary { op, lhs, rhs } => {
            write_expr(lhs, out);
            out.append(" ");
            out.append(op.as_str());
            out.append(" ");
            write_expr(rhs, out);
        },
        Expr::Unary { op, inner } => {
            out.append(op.as_str());
            write_expr(inner, out);
        },
        Expr::Assign { op, lhs, rhs } => {
            write_expr(lhs, out);
            out.append(" ");
            out.append(op.as_str());
            out.append(" ");
            write_expr(rhs, out);
        },
        Expr::Paren(inner) => {
            out.append("(");
            write_expr(inner, out);
            out.append(")");
        },
    }
    assert(out@ =~= start + expr_text(*e));
}

fn write_leaf(v: &Vec<Stmt>, out: &mut String)
    ensures
        final(out)@ == old(out)@ + leaf_text(*v),
    decreases v, 1int,
{
    let ghost start = out@;
    if v.len() > 0 {
        match &v[0] {
            Stmt::Expr { expr, semi } => write_expr(expr, out),
            Stmt::Local { pat, init } => {},
        }
    }
    assert(out@ =~= start + leaf_text(*v));
}

fn write_exprs(v: &Vec<Expr>, i: usize, out: &mut String)
    requires
        i <= v.len(),
    ensures
        final(out)@ == old(out)@ + exprs_text(*v, i as int),
    decreases v, v.len() - i,
{
    let ghost start = out@;
    if i < v.len() {
        write_expr(&v[i], out);
        if i + 1 < v.len() {
            out.append(", ");
            write_exprs(v, i + 1, out);
        }
    }
    assert(out@ =~= start + exprs_text(*v, i as int));
}

} // verus!
