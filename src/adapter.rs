//! Rewrites authoring idioms into shapes the printer emits directly: method
//! calls become free-function calls or field reads, casts are erased, and
//! scalar and vector types take their target spelling.
use vstd::prelude::*;
use crate::ast::{
    Expr, FnItem, Item, Param, Pattern, SourceTree, Stmt, StructField, StructItem, Type,
};
use crate::names::{
    is_accessor, is_receiver_last, is_swizzle, receiver_last, rename_method, renamed,
    scalar_keyword, scalar_type_keyword,
};

verus! {

/// The one-character string of an arity digit.
fn digit_str(d: char) -> (r: &'static str)
    requires
        d == '2' || d == '3' || d == '4',
    ensures
        r@ == seq![d],
{
    proof {
        reveal_strlit("2");
        reveal_strlit("3");
        reveal_strlit("4");
    }
    if d == '2' {
        "2"
    } else if d == '3' {
        "3"
    } else {
        "4"
    }
}

/// The constructor called for a method `vecN` or `vecN<scalar>`, such as
/// `vec4` (a `float4`) or `vec3i32` (an `int3`).
pub open spec fn ctor_name(m: Seq<char>) -> Option<Seq<char>> {
    if m.len() >= 4 && m[0] == 'v' && m[1] == 'e' && m[2] == 'c' && (m[3] == '2' || m[3] == '3'
        || m[3] == '4') {
        let s = m.subrange(4, m.len() as int);
        let kw = if s.len() == 0 {
            Some("float"@)
        } else {
            scalar_keyword(s)
        };
        match kw {
            Some(k) => Some(k.push(m[3])),
            None => None,
        }
    } else {
        None
    }
}

pub fn constructor_name(m: &str) -> (r: Option<String>)
    ensures
        match r {
            Some(s) => ctor_name(m@) == Some(s@),
            None => ctor_name(m@) is None,
        },
{
    let n = m.unicode_len();
    if n < 4 {
        return None;
    }
    if m.get_char(0) != 'v' || m.get_char(1) != 'e' || m.get_char(2) != 'c' {
        return None;
    }
    let d = m.get_char(3);
    if d != '2' && d != '3' && d != '4' {
        return None;
    }
    let s = m.substring_char(4, n);
    let kw: &str = if s.unicode_len() == 0 {
        "float"
    } else {
        match scalar_type_keyword(s) {
            Some(k) => k,
            None => {
                return None;
            },
        }
    };
    let mut out = String::from_str(kw);
    out.append(digit_str(d));
    Some(out)
}

/// The target name of a type `VecN` or `VecN<scalar>`, such as `float3`.
pub open spec fn vec_type_name(name: Seq<char>, generic: Option<Box<Type>>) -> Option<Seq<char>> {
    if name.len() >= 3 && name[0] == 'V' && name[1] == 'e' && name[2] == 'c' {
        let kw = match generic {
            None => Some("float"@),
            Some(g) => match *g {
                Type::Named { name: n, generic: None } => scalar_keyword(n@),
                _ => None,
            },
        };
        match kw {
            Some(k) => Some(k + name.subrange(3, name.len() as int)),
            None => None,
        }
    } else {
        None
    }
}

fn vector_type_name(name: &str, generic: &Option<Box<Type>>) -> (r: Option<String>)
    ensures
        match r {
            Some(s) => vec_type_name(name@, *generic) == Some(s@),
            None => vec_type_name(name@, *generic) is None,
        },
{
    let n = name.unicode_len();
    if n < 3 {
        return None;
    }
    if name.get_char(0) != 'V' || name.get_char(1) != 'e' || name.get_char(2) != 'c' {
        return None;
    }
    let kw: &str = match generic {
        None => "float",
        Some(g) => match &**g {
            Type::Named { name: inner, generic: None } => match scalar_type_keyword(inner.as_str()) {
                Some(k) => k,
                None => {
                    return None;
                },
            },
            _ => {
                return None;
            },
        },
    };
    let mut out = String::from_str(kw);
    out.append(name.substring_char(3, n));
    Some(out)
}

/// `r` is the type `t` in target spelling.
pub open spec fn adapted_type(t: Type, r: Type) -> bool
    decreases t,
{
    match t {
        Type::Named { name, generic } => match r {
            Type::Named { name: n2, generic: g2 } => match scalar_keyword(name@) {
                Some(k) => n2@ == k && g2 is None,
                None => match vec_type_name(name@, generic) {
                    Some(k) => n2@ == k && g2 is None,
                    None => n2 == name && match generic {
                        Some(g) => g2 matches Some(h) && adapted_type(*g, *h),
                        None => g2 is None,
                    },
                },
            },
            _ => false,
        },
        Type::Ref(inner) => match r {
            Type::Ref(i2) => adapted_type(*inner, *i2),
            _ => false,
        },
    }
}

pub fn adapt_type(t: Type) -> (r: Type)
    ensures
        adapted_type(t, r),
    decreases t,
{
    match t {
        Type::Named { name, generic } => {
            if let Some(k) = scalar_type_keyword(name.as_str()) {
                return Type::Named { name: String::from_str(k), generic: None };
            }
            if let Some(k) = vector_type_name(name.as_str(), &generic) {
                return Type::Named { name: k, generic: None };
            }
            let g2 = match generic {
                Some(g) => Some(Box::new(adapt_type(*g))),
                None => None,
            };
            Type::Named { name, generic: g2 }
        },
        Type::Ref(inner) => Type::Ref(Box::new(adapt_type(*inner))),
    }
}

/// `r` is the expression `e` after adaptation.
pub open spec fn adapted_expr(e: Expr, r: Expr) -> bool
    decreases e,
{
    match e {
        Expr::MethodCall { receiver, method, args } => {
            let m = renamed(method@);
            if is_swizzle(m) {
                r matches Expr::Field { base, member } && member@ == m && adapted_expr(
                    *receiver,
                    *base,
                )
            } else if ctor_name(m) is Some {
                r matches Expr::Call { func, args: a2 } && func@ == ctor_name(m)->Some_0
                    && match *receiver {
                    Expr::Tuple(elems) => adapted_list(elems, a2, 0),
                    _ => a2.len() == 1 && adapted_expr(*receiver, a2[0]),
                }
            } else if receiver_last(m) {
                r matches Expr::Call { func, args: a2 } && func@ == m && a2.len() == args.len() + 1
                    && adapted_shifted(args, a2, 0) && adapted_expr(*receiver, a2[args.len() as int])
            } else {
                r matches Expr::Call { func, args: a2 } && func@ == m && a2.len() == args.len() + 1
                    && adapted_expr(*receiver, a2[0]) && adapted_shifted(args, a2, 1)
            }
        },
        Expr::Call { func, args } => match r {
            Expr::Call { func: f2, args: a2 } => f2 == func && adapted_list(args, a2, 0),
            _ => false,
        },
        Expr::If { cond, then_branch, else_branch } => match r {
            Expr::If { cond: c2, then_branch: t2, else_branch: e2 } => adapted_expr(*cond, *c2)
                && adapted_stmts(then_branch, t2) && match else_branch {
                Some(b) => e2 matches Some(b2) && adapted_expr(*b, *b2),
                None => e2 is None,
            },
            _ => false,
        },
        Expr::For { var, range, body } => match r {
            Expr::For { var: v2, range: r2, body: b2 } => v2 == var && adapted_expr(*range, *r2)
                && adapted_stmts(body, b2),
            _ => false,
        },
        Expr::Range { from, to, inclusive } => match r {
            Expr::Range { from: f2, to: t2, inclusive: i2 } => i2 == inclusive && adapted_expr(
                *from,
                *f2,
            ) && adapted_expr(*to, *t2),
            _ => false,
        },
        Expr::While { cond, body } => match r {
            Expr::While { cond: c2, body: b2 } => adapted_expr(*cond, *c2) && adapted_stmts(
                body,
                b2,
            ),
            _ => false,
        },
        Expr::Block(body) => match r {
            Expr::Block(b2) => adapted_stmts(body, b2),
            _ => false,
        },
        Expr::Lit(_) => r == e,
        Expr::Path(_) => r == e,
        Expr::Field { base, member } => match r {
            Expr::Field { base: b2, member: m2 } => m2 == member && adapted_expr(*base, *b2),
            _ => false,
        },
        Expr::Tuple(elems) => match r {
            Expr::Tuple(e2) => adapted_list(elems, e2, 0),
            _ => false,
        },
        Expr::Cast { inner, ty } => adapted_expr(*inner, r),
        Expr::Return(value) => match r {
            Expr::Return(v2) => match value {
                Some(v) => v2 matches Some(w) && adapted_expr(*v, *w),
                None => v2 is None,
            },
            _ => false,
        },
        Expr::Binary { op, lhs, rhs } => match r {
            Expr::Binary { op: o2, lhs: l2, rhs: r2 } => o2 == op && adapted_expr(*lhs, *l2)
                && adapted_expr(*rhs, *r2),
            _ => false,
        },
        Expr::Unary { op, inner } => match r {
            Expr::Unary { op: o2, inner: i2 } => o2 == op && adapted_expr(*inner, *i2),
            _ => false,
        },
        Expr::Assign { op, lhs, rhs } => match r {
            Expr::Assign { op: o2, lhs: l2, rhs: r2 } => o2 == op && adapted_expr(*lhs, *l2)
                && adapted_expr(*rhs, *r2),
            _ => false,
        },
        Expr::Paren(inner) => match r {
            Expr::Paren(i2) => adapted_expr(*inner, *i2),
            _ => false,
        },
    }
}

/// `w` is `v` adapted element by element.
pub open spec fn adapted_list(v: Vec<Expr>, w: Vec<Expr>, k: int) -> bool
    decreases v, 1int,
{
    w.len() == v.len() && adapted_shifted(v, w, k)
}

/// Each `v[i]` is adapted into `w[i + k]`.
pub open spec fn adapted_shifted(v: Vec<Expr>, w: Vec<Expr>, k: int) -> bool
    decreases v, 0int,
{
    forall|i: int| 0 <= i < v.len() ==> adapted_expr(#[trigger] v[i], w[i + k])
}

pub open spec fn adapted_pattern(p: Pattern, r: Pattern) -> bool
    decreases p,
{
    match p {
        Pattern::Typed { inner, ty } => match r {
            Pattern::Typed { inner: i2, ty: t2 } => i2 == inner && adapted_type(ty, t2),
            _ => false,
        },
        _ => r == p,
    }
}

pub open spec fn adapted_stmt(s: Stmt, r: Stmt) -> bool
    decreases s,
{
    match s {
        Stmt::Local { pat, init } => match r {
            Stmt::Local { pat: p2, init: i2 } => adapted_pattern(pat, p2) && match init {
                Some(x) => i2 matches Some(y) && adapted_expr(x, y),
                None => i2 is None,
            },
            _ => false,
        },
        Stmt::Expr { expr, semi } => match r {
            Stmt::Expr { expr: x2, semi: s2 } => s2 == semi && adapted_expr(expr, x2),
            _ => false,
        },
    }
}

pub open spec fn adapted_stmts(v: Vec<Stmt>, w: Vec<Stmt>) -> bool
    decreases v,
{
    w.len() == v.len() && forall|i: int| 0 <= i < v.len() ==> adapted_stmt(#[trigger] v[i], w[i])
}

fn adapt_pattern(p: Pattern) -> (r: Pattern)
    ensures
        adapted_pattern(p, r),
{
    match p {
        Pattern::Typed { inner, ty } => Pattern::Typed { inner, ty: adapt_type(ty) },
        other => other,
    }
}

pub open spec fn adapted_params(v: Vec<Param>, w: Vec<Param>) -> bool {
    w.len() == v.len() && forall|i: int|
        0 <= i < v.len() ==> (#[trigger] w[i]).pat == v[i].pat && w[i].address_space
            == v[i].address_space && adapted_type(v[i].ty, w[i].ty)
}

pub open spec fn adapted_fields(v: Vec<StructField>, w: Vec<StructField>) -> bool {
    w.len() == v.len() && forall|i: int|
        0 <= i < v.len() ==> (#[trigger] w[i]).name == v[i].name && adapted_type(v[i].ty, w[i].ty)
}

/// `r` is the item `it` after adaptation.
pub open spec fn adapted_item(it: Item, r: Item) -> bool {
    match it {
        Item::Fn(f) => match r {
            Item::Fn(g) => g.name == f.name && adapted_params(f.params, g.params) && match f.ret {
                Some(t) => g.ret matches Some(t2) && adapted_type(t, t2),
                None => g.ret is None,
            } && adapted_stmts(f.body, g.body),
            _ => false,
        },
        Item::Struct(st) => match r {
            Item::Struct(s2) => s2.name == st.name && adapted_fields(st.fields, s2.fields),
            _ => false,
        },
        _ => r == it,
    }
}

fn is_tuple(e: &Expr) -> (r: bool)
    ensures
        r == (*e is Tuple),
{
    match e {
        Expr::Tuple(_) => true,
        _ => false,
    }
}

/// Adapts an expression, children before parent.
pub fn adapt_expr(e: Expr) -> (r: Expr)
    ensures
        adapted_expr(e, r),
    decreases e,
{
    match e {
        Expr::MethodCall { receiver, method, args } => {
            let ghost orig_args = args;
            let was_tuple = is_tuple(&receiver);
            let recv = adapt_expr(*receiver);
            let args2 = adapt_list(args);
            let m = rename_method(method.as_str());
            if is_accessor(m.as_str()) {
                return Expr::Field { base: Box::new(recv), member: m };
            }
            if let Some(k) = constructor_name(m.as_str()) {
                if was_tuple {
                    match recv {
                        Expr::Tuple(elems) => {
                            return Expr::Call { func: k, args: elems };
                        },
                        other => {
                            let mut a: Vec<Expr> = Vec::new();
                            a.push(other);
                            return Expr::Call { func: k, args: a };
                        },
                    }
                }
                let mut a: Vec<Expr> = Vec::new();
                a.push(recv);
                return Expr::Call { func: k, args: a };
            }
            if is_receiver_last(m.as_str()) {
                let mut a2 = args2;
                let ghost before = a2;
                a2.push(recv);
                assert forall|i: int| 0 <= i < orig_args.len() implies adapted_expr(
                    #[trigger] orig_args[i],
                    a2[i + 0],
                ) by {
                    assert(a2[i] == before[i]);
                }
                assert(adapted_shifted(orig_args, a2, 0));
                return Expr::Call { func: m, args: a2 };
            }
            let mut a: Vec<Expr> = Vec::new();
            a.push(recv);
            let mut rest = args2;
            let ghost before = rest;
            a.append(&mut rest);
            assert forall|i: int| 0 <= i < orig_args.len() implies adapted_expr(
                #[trigger] orig_args[i],
                a[i + 1],
            ) by {
                assert(a[i + 1] == before[i]);
            }
            assert(adapted_shifted(orig_args, a, 1));
            Expr::Call { func: m, args: a }
        },
        Expr::Call { func, args } => Expr::Call { func, args: adapt_list(args) },
        Expr::If { cond, then_branch, else_branch } => {
            let c2 = adapt_expr(*cond);
            let t2 = adapt_stmts(then_branch);
            let e2 = match else_branch {
                Some(b) => Some(Box::new(adapt_expr(*b))),
                None => None,
            };
            Expr::If { cond: Box::new(c2), then_branch: t2, else_branch: e2 }
        },
        Expr::For { var, range, body } => {
            let r2 = adapt_expr(*range);
            let b2 = adapt_stmts(body);
            Expr::For { var, range: Box::new(r2), body: b2 }
        },
        Expr::Range { from, to, inclusive } => {
            let f2 = adapt_expr(*from);
            let t2 = adapt_expr(*to);
            Expr::Range { from: Box::new(f2), to: Box::new(t2), inclusive }
        },
        Expr::While { cond, body } => {
            let c2 = adapt_expr(*cond);
            let b2 = adapt_stmts(body);
            Expr::While { cond: Box::new(c2), body: b2 }
        },
        Expr::Block(body) => Expr::Block(adapt_stmts(body)),
        Expr::Lit(s) => Expr::Lit(s),
        Expr::Path(s) => Expr::Path(s),
        Expr::Field { base, member } => {
            let b2 = adapt_expr(*base);
            Expr::Field { base: Box::new(b2), member }
        },
        Expr::Tuple(elems) => Expr::Tuple(adapt_list(elems)),
        Expr::Cast { inner, ty } => adapt_expr(*inner),
        Expr::Return(value) => match value {
            Some(v) => Expr::Return(Some(Box::new(adapt_expr(*v)))),
            None => Expr::Return(None),
        },
        Expr::Binary { op, lhs, rhs } => {
            let l2 = adapt_expr(*lhs);
            let r2 = adapt_expr(*rhs);
            Expr::Binary { op, lhs: Box::new(l2), rhs: Box::new(r2) }
        },
        Expr::Unary { op, inner } => {
            let i2 = adapt_expr(*inner);
            Expr::Unary { op, inner: Box::new(i2) }
        },
        Expr::Assign { op, lhs, rhs } => {
            let l2 = adapt_expr(*lhs);
            let r2 = adapt_expr(*rhs);
            Expr::Assign { op, lhs: Box::new(l2), rhs: Box::new(r2) }
        },
        Expr::Paren(inner) => Expr::Paren(Box::new(adapt_expr(*inner))),
    }
}

#[verifier::loop_isolation(false)]
fn adapt_list(v: Vec<Expr>) -> (w: Vec<Expr>)
    ensures
        adapted_list(v, w, 0),
    decreases v,
{
    let ghost orig = v;
    let mut rest = v;
    let mut out: Vec<Expr> = Vec::new();
    while rest.len() > 0
        invariant
            out.len() + rest.len() == orig.len(),
            rest@ == orig@.subrange(out.len() as int, orig.len() as int),
            forall|k: int| 0 <= k < out.len() ==> adapted_expr(#[trigger] orig[k], out[k]),
        decreases rest.len(),
    {
        let x = rest.remove(0);
        proof {
            assert(x == orig[out.len() as int]);
            assert(decreases_to!(orig => orig[out.len() as int]));
        }
        let y = adapt_expr(x);
        out.push(y);
    }
    assert forall|i: int| 0 <= i < orig.len() implies adapted_expr(#[trigger] orig[i], out[i + 0])
        by {}
    assert(adapted_shifted(orig, out, 0));
    out
}

#[verifier::loop_isolation(false)]
fn adapt_stmts(v: Vec<Stmt>) -> (w: Vec<Stmt>)
    ensures
        adapted_stmts(v, w),
    decreases v,
{
    let ghost orig = v;
    let mut rest = v;
    let mut out: Vec<Stmt> = Vec::new();
    while rest.len() > 0
        invariant
            out.len() + rest.len() == orig.len(),
            rest@ == orig@.subrange(out.len() as int, orig.len() as int),
            forall|k: int| 0 <= k < out.len() ==> adapted_stmt(#[trigger] orig[k], out[k]),
        decreases rest.len(),
    {
        let s = rest.remove(0);
        proof {
            assert(s == orig[out.len() as int]);
            assert(decreases_to!(orig => orig[out.len() as int]));
        }
        let s2 = match s {
            Stmt::Local { pat, init } => {
                let i2 = match init {
                    Some(x) => Some(adapt_expr(x)),
                    None => None,
                };
                Stmt::Local { pat: adapt_pattern(pat), init: i2 }
            },
            Stmt::Expr { expr, semi } => Stmt::Expr { expr: adapt_expr(expr), semi },
        };
        out.push(s2);
    }
    out
}

fn adapt_params(v: Vec<Param>) -> (w: Vec<Param>)
    ensures
        adapted_params(v, w),
{
    let ghost orig = v;
    let mut rest = v;
    let mut out: Vec<Param> = Vec::new();
    while rest.len() > 0
        invariant
            out.len() + rest.len() == orig.len(),
            rest@ == orig@.subrange(out.len() as int, orig.len() as int),
            forall|k: int|
                0 <= k < out.len() ==> (#[trigger] out[k]).pat == orig[k].pat && out[k].address_space
                    == orig[k].address_space && adapted_type(orig[k].ty, out[k].ty),
        decreases rest.len(),
    {
        let p = rest.remove(0);
        assert(p == orig[out.len() as int]);
        let Param { pat, ty, address_space } = p;
        out.push(Param { pat, ty: adapt_type(ty), address_space });
    }
    out
}

fn adapt_fields(v: Vec<StructField>) -> (w: Vec<StructField>)
    ensures
        adapted_fields(v, w),
{
    let ghost orig = v;
    let mut rest = v;
    let mut out: Vec<StructField> = Vec::new();
    while rest.len() > 0
        invariant
            out.len() + rest.len() == orig.len(),
            rest@ == orig@.subrange(out.len() as int, orig.len() as int),
            forall|k: int|
                0 <= k < out.len() ==> (#[trigger] out[k]).name == orig[k].name && adapted_type(
                    orig[k].ty,
                    out[k].ty,
                ),
        decreases rest.len(),
    {
        let f = rest.remove(0);
        assert(f == orig[out.len() as int]);
        let StructField { name, ty } = f;
        out.push(StructField { name, ty: adapt_type(ty) });
    }
    out
}

fn adapt_item(it: Item) -> (r: Item)
    ensures
        adapted_item(it, r),
{
    match it {
        Item::Fn(f) => {
            let FnItem { name, params, ret, body } = f;
            let ret2 = match ret {
                Some(t) => Some(adapt_type(t)),
                None => None,
            };
            Item::Fn(FnItem { name, params: adapt_params(params), ret: ret2, body: adapt_stmts(body) })
        },
        Item::Struct(st) => {
            let StructItem { name, fields } = st;
            Item::Struct(StructItem { name, fields: adapt_fields(fields) })
        },
        other => other,
    }
}

/// The items `w` are the items `v` after adaptation.
pub open spec fn adapted_items(v: Seq<Item>, w: Seq<Item>) -> bool {
    w.len() == v.len() && forall|i: int| 0 <= i < v.len() ==> adapted_item(#[trigger] v[i], w[i])
}

/// Rewrites every item into the shapes the target language takes directly.
pub fn make_rust_ast_msl_compatible(tree: SourceTree) -> (r: SourceTree)
    ensures
        adapted_items(tree.items@, r.items@),
{
    let ghost orig = tree.items;
    let mut rest = tree.items;
    let mut out: Vec<Item> = Vec::new();
    while rest.len() > 0
        invariant
            out.len() + rest.len() == orig.len(),
            rest@ == orig@.subrange(out.len() as int, orig.len() as int),
            forall|k: int| 0 <= k < out.len() ==> adapted_item(#[trigger] orig[k], out[k]),
        decreases rest.len(),
    {
        let it = rest.remove(0);
        assert(it == orig[out.len() as int]);
        out.push(adapt_item(it));
    }
    SourceTree { items: out }
}

} // verus!
