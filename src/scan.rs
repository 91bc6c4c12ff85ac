//! Read-only walks over function bodies: the names a body calls and whether
//! it reads a field of a given global name.
use vstd::prelude::*;
use crate::ast::{Expr, Stmt};

verus! {

/// The views of a vector of strings.
pub open spec fn strs(v: Seq<String>) -> Seq<Seq<char>> {
    Seq::new(v.len(), |i: int| v[i]@)
}

/// The callee names of every call expression in `e`, in source order
/// (a call's own name comes before the names inside its arguments).
pub open spec fn expr_calls(e: Expr) -> Seq<Seq<char>>
    decreases e,
{
    match e {
        Expr::MethodCall { receiver, method, args } => expr_calls(*receiver) + exprs_calls(args, 0),
        Expr::Call { func, args } => seq![func@] + exprs_calls(args, 0),
        Expr::If { cond, then_branch, else_branch } => expr_calls(*cond) + stmts_calls(
            then_branch,
            0,
        ) + match else_branch {
            Some(b) => expr_calls(*b),
            None => Seq::empty(),
        },
        Expr::For { var, range, body } => expr_calls(*range) + stmts_calls(body, 0),
        Expr::Range { from, to, inclusive } => expr_calls(*from) + expr_calls(*to),
        Expr::While { cond, body } => expr_calls(*cond) + stmts_calls(body, 0),
        Expr::Block(body) => stmts_calls(body, 0),
        Expr::Lit(_) => Seq::empty(),
        Expr::Path(_) => Seq::empty(),
        Expr::Field { base, member } => expr_calls(*base),
        Expr::Tuple(elems) => exprs_calls(elems, 0),
        Expr::Cast { inner, ty } => expr_calls(*inner),
        Expr::Return(value) => match value {
            Some(v) => expr_calls(*v),
            None => Seq::empty(),
        },
        Expr::Binary { op, lhs, rhs } => expr_calls(*lhs) + expr_calls(*rhs),
        Expr::Unary { op, inner } => expr_calls(*inner),
        Expr::Assign { op, lhs, rhs } => expr_calls(*lhs) + expr_calls(*rhs),
        Expr::Paren(inner) => expr_calls(*inner),
    }
}

/// The callee names in `v[i..]`.
pub open spec fn exprs_calls(v: Vec<Expr>, i: int) -> Seq<Seq<char>>
    decreases v, v.len() - i,
{
    if 0 <= i < v.len() {
        expr_calls(v[i]) + exprs_calls(v, i + 1)
    } else {
        Seq::empty()
    }
}

pub open spec fn stmt_calls(s: Stmt) -> Seq<Seq<char>>
    decreases s,
{
    match s {
        Stmt::Local { pat, init } => match init {
            Some(e) => expr_calls(e),
            None => Seq::empty(),
        },
        Stmt::Expr { expr, semi } => expr_calls(expr),
    }
}

/// The callee names in the statements `v[i..]`.
pub open spec fn stmts_calls(v: Vec<Stmt>, i: int) -> Seq<Seq<char>>
    decreases v, v.len() - i,
{
    if 0 <= i < v.len() {
        stmt_calls(v[i]) + stmts_calls(v, i + 1)
    } else {
        Seq::empty()
    }
}

/// Whether `e` holds a field access `g.member` whose base is the bare path `g`.
pub open spec fn expr_reads(e: Expr, g: Seq<char>) -> bool
    decreases e,
{
    match e {
        Expr::MethodCall { receiver, method, args } => expr_reads(*receiver, g) || exprs_read(
            args,
            0,
            g,
        ),
        Expr::Call { func, args } => exprs_read(args, 0, g),
        Expr::If { cond, then_branch, else_branch } => expr_reads(*cond, g) || stmts_read(
            then_branch,
            0,
            g,
        ) || match else_branch {
            Some(b) => expr_reads(*b, g),
            None => false,
        },
        Expr::For { var, range, body } => expr_reads(*range, g) || stmts_read(body, 0, g),
        Expr::Range { from, to, inclusive } => expr_reads(*from, g) || expr_reads(*to, g),
        Expr::While { cond, body } => expr_reads(*cond, g) || stmts_read(body, 0, g),
        Expr::Block(body) => stmts_read(body, 0, g),
        Expr::Lit(_) => false,
        Expr::Path(_) => false,
        Expr::Field { base, member } => match *base {
            Expr::Path(p) => p@ == g,
            _ => expr_reads(*base, g),
        },
        Expr::Tuple(elems) => exprs_read(elems, 0, g),
        Expr::Cast { inner, ty } => expr_reads(*inner, g),
        Expr::Return(value) => match value {
            Some(v) => expr_reads(*v, g),
            None => false,
        },
        Expr::Binary { op, lhs, rhs } => expr_reads(*lhs, g) || expr_reads(*rhs, g),
        Expr::Unary { op, inner } => expr_reads(*inner, g),
        Expr::Assign { op, lhs, rhs } => expr_reads(*lhs, g) || expr_reads(*rhs, g),
        Expr::Paren(inner) => expr_reads(*inner, g),
    }
}

pub open spec fn exprs_read(v: Vec<Expr>, i: int, g: Seq<char>) -> bool
    decreases v, v.len() - i,
{
    if 0 <= i < v.len() {
        expr_reads(v[i], g) || exprs_read(v, i + 1, g)
    } else {
        false
    }
}

pub open spec fn stmt_reads(s: Stmt, g: Seq<char>) -> bool
    decreases s,
{
    match s {
        Stmt::Local { pat, init } => match init {
            Some(e) => expr_reads(e, g),
            None => false,
        },
        Stmt::Expr { expr, semi } => expr_reads(expr, g),
    }
}

pub open spec fn stmts_read(v: Vec<Stmt>, i: int, g: Seq<char>) -> bool
    decreases v, v.len() - i,
{
    if 0 <= i < v.len() {
        stmt_reads(v[i], g) || stmts_read(v, i + 1, g)
    } else {
        false
    }
}

/// Appends a copy of `name`.
pub fn push_name(out: &mut Vec<String>, name: &String)
    ensures
        strs(final(out)@) == strs(old(out)@).push(name@),
{
    out.push(name.clone());
    assert(strs(out@) =~= strs(old(out)@).push(name@));
}

/// Appends to `out` the callee names of `e`.
pub fn collect_calls(e: &Expr, out: &mut Vec<String>)
    ensures
        strs(final(out)@) == strs(old(out)@) + expr_calls(*e),
    decreases e,
{
    let ghost before = strs(out@);
    match e {
        Expr::MethodCall { receiver, method, args } => {
            collect_calls(receiver, out);
            collect_calls_list(args, 0, out);
            assert(strs(out@) =~= before + expr_calls(*e));
        },
        Expr::Call { func, args } => {
            push_name(out, func);
            collect_calls_list(args, 0, out);
            assert(strs(out@) =~= before + expr_calls(*e));
        },
        Expr::If { cond, then_branch, else_branch } => {
            collect_calls(cond, out);
            collect_calls_stmts(then_branch, 0, out);
            match else_branch {
                Some(b) => collect_calls(b, out),
                None => {},
            }
            assert(strs(out@) =~= before + expr_calls(*e));
        },
        Expr::For { var, range, body } => {
            collect_calls(range, out);
            collect_calls_stmts(body, 0, out);
            assert(strs(out@) =~= before + expr_calls(*e));
        },
        Expr::Range { from, to, inclusive } => {
            collect_calls(from, out);
            collect_calls(to, out);
            assert(strs(out@) =~= before + expr_calls(*e));
        },
        Expr::While { cond, body } => {
            collect_calls(cond, out);
            collect_calls_stmts(body, 0, out);
            assert(strs(out@) =~= before + expr_calls(*e));
        },
        Expr::Block(body) => {
            collect_calls_stmts(body, 0, out);
        },
        Expr::Lit(_) => {
            assert(strs(out@) =~= before + expr_calls(*e));
        },
        Expr::Path(_) => {
            assert(strs(out@) =~= before + expr_calls(*e));
        },
        Expr::Field { base, member } => {
            collect_calls(base, out);
        },
        Expr::Tuple(elems) => {
            collect_calls_list(elems, 0, out);
        },
        Expr::Cast { inner, ty } => {
            collect_calls(inner, out);
        },
        Expr::Return(value) => {
            match value {
                Some(v) => collect_calls(v, out),
                None => {},
            }
            assert(strs(out@) =~= before + expr_calls(*e));
        },
        Expr::Binary { op, lhs, rhs } => {
            collect_calls(lhs, out);
            collect_calls(rhs, out);
            assert(strs(out@) =~= before + expr_calls(*e));
        },
        Expr::Unary { op, inner } => {
            collect_calls(inner, out);
        },
        Expr::Assign { op, lhs, rhs } => {
            collect_calls(lhs, out);
            collect_calls(rhs, out);
            assert(strs(out@) =~= before + expr_calls(*e));
        },
        Expr::Paren(inner) => {
            collect_calls(inner, out);
        },
    }
}

fn collect_calls_list(v: &Vec<Expr>, i: usize, out: &mut Vec<String>)
    requires
        i <= v.len(),
    ensures
        strs(final(out)@) == strs(old(out)@) + exprs_calls(*v, i as int),
    decreases v, v.len() - i,
{
    if i < v.len() {
        let ghost before = strs(out@);
        collect_calls(&v[i], out);
        collect_calls_list(v, i + 1, out);
        assert(strs(out@) =~= before + exprs_calls(*v, i as int));
    } else {
        assert(strs(out@) =~= strs(old(out)@) + exprs_calls(*v, i as int));
    }
}

fn collect_calls_stmts(v: &Vec<Stmt>, i: usize, out: &mut Vec<String>)
    requires
        i <= v.len(),
    ensures
        strs(final(out)@) == strs(old(out)@) + stmts_calls(*v, i as int),
    decreases v, v.len() - i,
{
    if i < v.len() {
        let ghost before = strs(out@);
        match &v[i] {
            Stmt::Local { pat, init } => match init {
                Some(x) => collect_calls(x, out),
                None => {
                    assert(strs(out@) =~= before + stmt_calls(v[i as int]));
                },
            },
            Stmt::Expr { expr, semi } => collect_calls(expr, out),
        }
        assert(strs(out@) =~= before + stmt_calls(v[i as int]));
        let ghost mid = strs(out@);
        collect_calls_stmts(v, i + 1, out);
        assert(strs(out@) =~= mid + stmts_calls(*v, i + 1));
        assert(strs(out@) =~= before + stmts_calls(*v, i as int));
    } else {
        assert(strs(out@) =~= strs(old(out)@) + stmts_calls(*v, i as int));
    }
}

/// Whether `e` reads a field of the global named `g`.
pub fn reads_global(e: &Expr, g: &String) -> (r: bool)
    ensures
        r == expr_reads(*e, g@),
    decreases e,
{
    match e {
        Expr::MethodCall { receiver, method, args } => reads_global(receiver, g)
            || reads_global_list(args, 0, g),
        Expr::Call { func, args } => reads_global_list(args, 0, g),
        Expr::If { cond, then_branch, else_branch } => {
            let a = reads_global(cond, g);
            let b = reads_global_stmts(then_branch, 0, g);
            let c = match else_branch {
                Some(x) => reads_global(x, g),
                None => false,
            };
            a || b || c
        },
        Expr::For { var, range, body } => reads_global(range, g) || reads_global_stmts(body, 0, g),
        Expr::Range { from, to, inclusive } => reads_global(from, g) || reads_global(to, g),
        Expr::While { cond, body } => reads_global(cond, g) || reads_global_stmts(body, 0, g),
        Expr::Block(body) => reads_global_stmts(body, 0, g),
        Expr::Lit(_) => false,
        Expr::Path(_) => false,
        Expr::Field { base, member } => match &**base {
            Expr::Path(p) => *p == *g,
            _ => reads_global(base, g),
        },
        Expr::Tuple(elems) => reads_global_list(elems, 0, g),
        Expr::Cast { inner, ty } => reads_global(inner, g),
        Expr::Return(value) => match value {
            Some(v) => reads_global(v, g),
            None => false,
        },
        Expr::Binary { op, lhs, rhs } => reads_global(lhs, g) || reads_global(rhs, g),
        Expr::Unary { op, inner } => reads_global(inner, g),
        Expr::Assign { op, lhs, rhs } => reads_global(lhs, g) || reads_global(rhs, g),
        Expr::Paren(inner) => reads_global(inner, g),
    }
}

fn reads_global_list(v: &Vec<Expr>, i: usize, g: &String) -> (r: bool)
    requires
        i <= v.len(),
    ensures
        r == exprs_read(*v, i as int, g@),
    decreases v, v.len() - i,
{
    if i < v.len() {
        let a = reads_global(&v[i], g);
        let b = reads_global_list(v, i + 1, g);
        a || b
    } else {
        false
    }
}

/// Whether the statements `v[i..]` read a field of the global named `g`.
pub fn reads_global_stmts(v: &Vec<Stmt>, i: usize, g: &String) -> (r: bool)
    requires
        i <= v.len(),
    ensures
        r == stmts_read(*v, i as int, g@),
    decreases v, v.len() - i,
{
    if i < v.len() {
        let a = match &v[i] {
            Stmt::Local { pat, init } => match init {
                Some(x) => reads_global(x, g),
                None => false,
            },
            Stmt::Expr { expr, semi } => reads_global(expr, g),
        };
        assert(a == stmt_reads(v[i as int], g@));
        let b = reads_global_stmts(v, i + 1, g);
        a || b
    } else {
        false
    }
}

/// The callee names of a statement list, in source order.
pub fn called_names(body: &Vec<Stmt>) -> (r: Vec<String>)
    ensures
        strs(r@) == stmts_calls(*body, 0),
{
    let mut out: Vec<String> = Vec::new();
    assert(strs(out@) =~= Seq::<Seq<char>>::empty());
    collect_calls_stmts(body, 0, &mut out);
    assert(strs(out@) =~= stmts_calls(*body, 0));
    out
}

} // verus!
