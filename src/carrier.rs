//! Threads the global explicitly: each function that needs it gets a
//! trailing parameter, and each call of such a function a trailing argument.
use vstd::prelude::*;
use crate::analyzer::{
    collect_fns, find_name, fn_items, fn_names, names_of, needs_carrier, usage_map, usage_sound,
    EnhanceConfig,
};
use crate::ast::{Expr, FnItem, Item, Param, Pattern, SourceTree, Stmt, Type};
use crate::scan::strs;

verus! {

/// What the rewrite needs to know: the function names in order, their
/// marks, the entry point, and the name of the global.
pub struct Threading {
    pub names: Vec<String>,
    pub usage: Vec<bool>,
    pub entry: String,
    pub carrier: String,
}

impl Threading {
    pub open spec fn wf(&self) -> bool {
        self.usage.len() == self.names.len()
    }

    /// Whether a call of `name` gets the carrier argument.
    pub open spec fn needs(&self, name: Seq<char>) -> bool {
        needs_carrier(strs(self.names@), self.usage@, self.entry@, name)
    }

    pub open spec fn need_fn(&self) -> spec_fn(Seq<char>) -> bool {
        carrier_need(strs(self.names@), self.usage@, self.entry@)
    }
}

/// Which callee names get the carrier argument.
pub open spec fn carrier_need(names: Seq<Seq<char>>, u: Seq<bool>, entry: Seq<char>) -> spec_fn(
    Seq<char>,
) -> bool {
    |name: Seq<char>| needs_carrier(names, u, entry, name)
}

/// `r` is `e` with the carrier argument appended to each call that needs it.
pub open spec fn threaded_expr(e: Expr, r: Expr, need: spec_fn(Seq<char>) -> bool, car: Seq<char>) -> bool
    decreases e,
{
    match e {
        Expr::MethodCall { receiver, method, args } => match r {
            Expr::MethodCall { receiver: r2, method: m2, args: a2 } => m2 == method
                && threaded_expr(*receiver, *r2, need, car) && threaded_list(args, a2, need, car),
            _ => false,
        },
        Expr::Call { func, args } => match r {
            Expr::Call { func: f2, args: a2 } => f2 == func && if need(func@) {
                &&& a2.len() == args.len() + 1
                &&& threaded_prefix(args, a2, need, car)
                &&& a2[args.len() as int] matches Expr::Path(p) && p@ == car
            } else {
                threaded_list(args, a2, need, car)
            },
            _ => false,
        },
        Expr::If { cond, then_branch, else_branch } => match r {
            Expr::If { cond: c2, then_branch: t2, else_branch: e2 } => threaded_expr(*cond, *c2, need, car)
                && threaded_stmts(then_branch, t2, need, car) && match else_branch {
                Some(b) => e2 matches Some(b2) && threaded_expr(*b, *b2, need, car),
                None => e2 is None,
            },
            _ => false,
        },
        Expr::For { var, range, body } => match r {
            Expr::For { var: v2, range: r2, body: b2 } => v2 == var && threaded_expr(*range, *r2, need, car)
                && threaded_stmts(body, b2, need, car),
            _ => false,
        },
        Expr::Range { from, to, inclusive } => match r {
            Expr::Range { from: f2, to: t2, inclusive: i2 } => i2 == inclusive && threaded_expr(
                *from,
                *f2,
                need,
                car,
            ) && threaded_expr(*to, *t2, need, car),
            _ => false,
        },
        Expr::While { cond, body } => match r {
            Expr::While { cond: c2, body: b2 } => threaded_expr(*cond, *c2, need, car) && threaded_stmts(
                body,
                b2,
                need,
                car,
            ),
            _ => false,
        },
        Expr::Block(body) => match r {
            Expr::Block(b2) => threaded_stmts(body, b2, need, car),
            _ => false,
        },
        Expr::Lit(_) => r == e,
        Expr::Path(_) => r == e,
        Expr::Field { base, member } => match r {
            Expr::Field { base: b2, member: m2 } => m2 == member && threaded_expr(*base, *b2, need, car),
            _ => false,
        },
        Expr::Tuple(elems) => match r {
            Expr::Tuple(e2) => threaded_list(elems, e2, need, car),
            _ => false,
        },
        Expr::Cast { inner, ty } => match r {
            Expr::Cast { inner: i2, ty: t2 } => t2 == ty && threaded_expr(*inner, *i2, need, car),
            _ => false,
        },
        Expr::Return(value) => match r {
            Expr::Return(v2) => match value {
                Some(v) => v2 matches Some(w) && threaded_expr(*v, *w, need, car),
                None => v2 is None,
            },
            _ => false,
        },
        Expr::Binary { op, lhs, rhs } => match r {
            Expr::Binary { op: o2, lhs: l2, rhs: r2 } => o2 == op && threaded_expr(*lhs, *l2, need, car)
                && threaded_expr(*rhs, *r2, need, car),
            _ => false,
        },
        Expr::Unary { op, inner } => match r {
            Expr::Unary { op: o2, inner: i2 } => o2 == op && threaded_expr(*inner, *i2, need, car),
            _ => false,
        },
        Expr::Assign { op, lhs, rhs } => match r {
            Expr::Assign { op: o2, lhs: l2, rhs: r2 } => o2 == op && threaded_expr(*lhs, *l2, need, car)
                && threaded_expr(*rhs, *r2, need, car),
            _ => false,
        },
        Expr::Paren(inner) => match r {
            Expr::Paren(i2) => threaded_expr(*inner, *i2, need, car),
            _ => false,
        },
    }
}

/// The first `v.len()` elements of `w` are the rewrites of those of `v`.
pub open spec fn threaded_prefix(v: Vec<Expr>, w: Vec<Expr>, need: spec_fn(Seq<char>) -> bool, car: Seq<char>) -> bool
    decreases v, 0int,
{
    forall|i: int| 0 <= i < v.len() ==> threaded_expr(#[trigger] v[i], w[i], need, car)
}

pub open spec fn threaded_list(v: Vec<Expr>, w: Vec<Expr>, need: spec_fn(Seq<char>) -> bool, car: Seq<char>) -> bool
    decreases v, 1int,
{
    w.len() == v.len() && threaded_prefix(v, w, need, car)
}

pub open spec fn threaded_stmt(s: Stmt, r: Stmt, need: spec_fn(Seq<char>) -> bool, car: Seq<char>) -> bool
    decreases s,
{
    match s {
        Stmt::Local { pat, init } => match r {
            Stmt::Local { pat: p2, init: i2 } => p2 == pat && match init {
                Some(x) => i2 matches Some(y) && threaded_expr(x, y, need, car),
                None => i2 is None,
            },
            _ => false,
        },
        Stmt::Expr { expr, semi } => match r {
            Stmt::Expr { expr: x2, semi: s2 } => s2 == semi && threaded_expr(expr, x2, need, car),
            _ => false,
        },
    }
}

pub open spec fn threaded_stmts(v: Vec<Stmt>, w: Vec<Stmt>, need: spec_fn(Seq<char>) -> bool, car: Seq<char>) -> bool
    decreases v,
{
    w.len() == v.len() && forall|i: int| 0 <= i < v.len() ==> threaded_stmt(#[trigger] v[i], w[i], need, car)
}

/// The parameter that carries the global: `constant &Type name`.
pub open spec fn is_carrier_param(p: Param, config: EnhanceConfig) -> bool {
    &&& p.pat matches Pattern::Ident(n) && n@ == config.constant_name@
    &&& p.ty matches Type::Ref(inner) && *inner matches Type::Named { name, generic } && name@
        == config.param_type@ && generic is None
    &&& p.address_space matches Some(a) && a@ == "constant"@
}

/// `r` is the item `it` after threading: a function that needs the carrier
/// gains it as its last parameter, and calls in its body are rewritten.
pub open spec fn threaded_item(it: Item, r: Item, need: spec_fn(Seq<char>) -> bool, car: Seq<char>, config: EnhanceConfig) -> bool {
    match it {
        Item::Fn(f) => match r {
            Item::Fn(g) => g.name == f.name && g.ret == f.ret && threaded_stmts(f.body, g.body, need, car)
                && if need(f.name@) {
                g.params@.len() == f.params@.len() + 1 && g.params@.subrange(
                    0,
                    f.params@.len() as int,
                ) == f.params@ && is_carrier_param(g.params@[f.params@.len() as int], config)
            } else {
                g.params == f.params
            },
            _ => false,
        },
        _ => r == it,
    }
}

fn needs(t: &Threading, name: &String) -> (r: bool)
    requires
        t.wf(),
    ensures
        r == t.needs(name@),
{
    if *name == t.entry {
        return true;
    }
    match find_name(&t.names, name) {
        Some(k) => t.usage[k],
        None => false,
    }
}

fn thread_expr(e: Expr, t: &Threading) -> (r: Expr)
    requires
        t.wf(),
    ensures
        threaded_expr(e, r, t.need_fn(), t.carrier@),
    decreases e,
{
    match e {
        Expr::MethodCall { receiver, method, args } => {
            let r2 = thread_expr(*receiver, t);
            let a2 = thread_list(args, t);
            Expr::MethodCall { receiver: Box::new(r2), method, args: a2 }
        },
        Expr::Call { func, args } => {
            let ghost args0 = args;
            let mut a2 = thread_list(args, t);
            let nd = needs(t, &func);
            assert((t.need_fn())(func@) == nd);
            if nd {
                let ghost before = a2;
                a2.push(Expr::Path(t.carrier.clone()));
                assert forall|i: int| 0 <= i < args0.len() implies threaded_expr(
                    #[trigger] args0[i],
                    a2[i],
                    t.need_fn(),
                    t.carrier@,
                ) by {
                    assert(a2[i] == before[i]);
                }
                assert(threaded_prefix(args0, a2, t.need_fn(), t.carrier@));
            }
            Expr::Call { func, args: a2 }
        },
        Expr::If { cond, then_branch, else_branch } => {
            let c2 = thread_expr(*cond, t);
            let t2 = thread_stmts(then_branch, t);
            let e2 = match else_branch {
                Some(b) => Some(Box::new(thread_expr(*b, t))),
                None => None,
            };
            Expr::If { cond: Box::new(c2), then_branch: t2, else_branch: e2 }
        },
        Expr::For { var, range, body } => {
            let r2 = thread_expr(*range, t);
            let b2 = thread_stmts(body, t);
            Expr::For { var, range: Box::new(r2), body: b2 }
        },
        Expr::Range { from, to, inclusive } => {
            let f2 = thread_expr(*from, t);
            let t2 = thread_expr(*to, t);
            Expr::Range { from: Box::new(f2), to: Box::new(t2), inclusive }
        },
        Expr::While { cond, body } => {
            let c2 = thread_expr(*cond, t);
            let b2 = thread_stmts(body, t);
            Expr::While { cond: Box::new(c2), body: b2 }
        },
        Expr::Block(body) => Expr::Block(thread_stmts(body, t)),
        Expr::Lit(s) => Expr::Lit(s),
        Expr::Path(s) => Expr::Path(s),
        Expr::Field { base, member } => {
            let b2 = thread_expr(*base, t);
            Expr::Field { base: Box::new(b2), member }
        },
        Expr::Tuple(elems) => Expr::Tuple(thread_list(elems, t)),
        Expr::Cast { inner, ty } => {
            let i2 = thread_expr(*inner, t);
            Expr::Cast { inner: Box::new(i2), ty }
        },
        Expr::Return(value) => match value {
            Some(v) => Expr::Return(Some(Box::new(thread_expr(*v, t)))),
            None => Expr::Return(None),
        },
        Expr::Binary { op, lhs, rhs } => {
            let l2 = thread_expr(*lhs, t);
            let r2 = thread_expr(*rhs, t);
            Expr::Binary { op, lhs: Box::new(l2), rhs: Box::new(r2) }
        },
        Expr::Unary { op, inner } => {
            let i2 = thread_expr(*inner, t);
            Expr::Unary { op, inner: Box::new(i2) }
        },
        Expr::Assign { op, lhs, rhs } => {
            let l2 = thread_expr(*lhs, t);
            let r2 = thread_expr(*rhs, t);
            Expr::Assign { op, lhs: Box::new(l2), rhs: Box::new(r2) }
        },
        Expr::Paren(inner) => Expr::Paren(Box::new(thread_expr(*inner, t))),
    }
}

#[verifier::loop_isolation(false)]
fn thread_list(v: Vec<Expr>, t: &Threading) -> (w: Vec<Expr>)
    requires
        t.wf(),
    ensures
        threaded_list(v, w, t.need_fn(), t.carrier@),
    decreases v,
{
    let ghost orig = v;
    let mut rest = v;
    let mut out: Vec<Expr> = Vec::new();
    while rest.len() > 0
        invariant
            t.wf(),
            out.len() + rest.len() == orig.len(),
            rest@ == orig@.subrange(out.len() as int, orig.len() as int),
            forall|k: int| 0 <= k < out.len() ==> threaded_expr(#[trigger] orig[k], out[k], t.need_fn(), t.carrier@),
        decreases rest.len(),
    {
        let x = rest.remove(0);
        proof {
            assert(x == orig[out.len() as int]);
            assert(decreases_to!(orig => orig[out.len() as int]));
        }
        let y = thread_expr(x, t);
        out.push(y);
    }
    out
}

#[verifier::loop_isolation(false)]
fn thread_stmts(v: Vec<Stmt>, t: &Threading) -> (w: Vec<Stmt>)
    requires
        t.wf(),
    ensures
        threaded_stmts(v, w, t.need_fn(), t.carrier@),
    decreases v,
{
    let ghost orig = v;
    let mut rest = v;
    let mut out: Vec<Stmt> = Vec::new();
    while rest.len() > 0
        invariant
            t.wf(),
            out.len() + rest.len() == orig.len(),
            rest@ == orig@.subrange(out.len() as int, orig.len() as int),
            forall|k: int| 0 <= k < out.len() ==> threaded_stmt(#[trigger] orig[k], out[k], t.need_fn(), t.carrier@),
        decreases rest.len(),
    {
        let s = rest.remove(0);
        proof {
            assert(s == orig[out.len() as int]);
            assert(decreases_to!(orig => orig[out.len() as int]));
        }
        let s2 = match s {
            Stmt::Local { pat, init } => {
                let i2 = match init {
                    Some(x) => Some(thread_expr(x, t)),
                    None => None,
                };
                Stmt::Local { pat, init: i2 }
            },
            Stmt::Expr { expr, semi } => Stmt::Expr { expr: thread_expr(expr, t), semi },
        };
        out.push(s2);
    }
    out
}

/// The parameter that carries the global into a function.
pub fn carrier_param(config: &EnhanceConfig) -> (p: Param)
    ensures
        is_carrier_param(p, *config),
{
    Param {
        pat: Pattern::Ident(config.constant_name.clone()),
        ty: Type::Ref(Box::new(Type::Named { name: config.param_type.clone(), generic: None })),
        address_space: Some(String::from_str("constant")),
    }
}

fn thread_item(it: Item, t: &Threading, config: &EnhanceConfig) -> (r: Item)
    requires
        t.wf(),
    ensures
        threaded_item(it, r, t.need_fn(), t.carrier@, *config),
{
    match it {
        Item::Fn(f) => {
            let FnItem { name, params, ret, body } = f;
            let body2 = thread_stmts(body, t);
            let mut params2 = params;
            if needs(t, &name) {
                let ghost before = params2@;
                params2.push(carrier_param(config));
                assert(params2@.subrange(0, before.len() as int) =~= before);
            }
            Item::Fn(FnItem { name, params: params2, ret, body: body2 })
        },
        other => other,
    }
}

/// The items `w` are the items `v` after threading.
pub open spec fn threaded_items(
    v: Seq<Item>,
    w: Seq<Item>,
    need: spec_fn(Seq<char>) -> bool,
    car: Seq<char>,
    config: EnhanceConfig,
) -> bool {
    w.len() == v.len() && forall|i: int|
        0 <= i < v.len() ==> threaded_item(#[trigger] v[i], w[i], need, car, config)
}

/// Makes the global `config.constant_name` an explicit parameter: every
/// function that reads it, directly or through its callees, and the entry
/// point in any case, gets a trailing carrier parameter, and every call of
/// such a function passes the carrier on. The marks `u` are those of
/// `usage_map` over the tree's functions.
pub fn convert_constant_to_param(tree: SourceTree, config: &EnhanceConfig) -> (r: SourceTree)
    ensures
        exists|u: Seq<bool>|
            usage_sound(fn_items(tree.items@), config.constant_name@, u) && #[trigger] threaded_items(
                tree.items@,
                r.items@,
                carrier_need(names_of(fn_items(tree.items@)), u, config.entry_point_fn_name@),
                config.constant_name@,
                *config,
            ),
{
    let ghost fs = fn_items(tree.items@);
    let t = {
        let fns = collect_fns(&tree.items);
        let names = fn_names(&fns);
        let usage = usage_map(&fns, &config.constant_name);
        Threading {
            names,
            usage,
            entry: config.entry_point_fn_name.clone(),
            carrier: config.constant_name.clone(),
        }
    };
    assert(t.wf());
    let ghost orig = tree.items;
    let mut rest = tree.items;
    let mut out: Vec<Item> = Vec::new();
    while rest.len() > 0
        invariant
            t.wf(),
            out.len() + rest.len() == orig.len(),
            rest@ == orig@.subrange(out.len() as int, orig.len() as int),
            forall|k: int|
                0 <= k < out.len() ==> threaded_item(
                    #[trigger] orig@[k],
                    out@[k],
                    t.need_fn(),
                    t.carrier@,
                    *config,
                ),
        decreases rest.len(),
    {
        let it = rest.remove(0);
        assert(it == orig@[out.len() as int]);
        let it2 = thread_item(it, &t, config);
        out.push(it2);
    }
    let r = SourceTree { items: out };
    assert(threaded_items(tree.items@, r.items@, t.need_fn(), t.carrier@, *config));
    assert(t.need_fn() == carrier_need(names_of(fs), t.usage@, config.entry_point_fn_name@));
    r
}

} // verus!
