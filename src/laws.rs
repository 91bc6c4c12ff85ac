//! Properties of the pipeline, stated over the specifications of its stages.
use vstd::prelude::*;
use crate::adapter::adapted_expr;
use crate::analyzer::{acyclic, callee, calls_of, names_of, needs_carrier, resolve, usage_sound};
use crate::ast::{Expr, FieldPat, FnItem, Item, Pattern, Stmt, Type};
use crate::names::{is_swizzle, renamed};
use crate::printer::{
    block_out, bound_ok, decl_text, def_text, expr_stmt_out, field_lines, fields_ok, header,
    is_control, param_text, param_texts, params_ok, prepend, stmt_out, temp_name, Mode,
};
use crate::text::{expr_text, leaf_text, type_text};

verus! {

proof fn lemma_param_texts(v: Vec<crate::ast::Param>, i: int)
    requires
        0 <= i <= v.len(),
    ensures
        param_texts(v, i).len() == v.len() - i,
        forall|k: int| 0 <= k < v.len() - i ==> param_texts(v, i)[k] == param_text(v[i + k]),
    decreases v.len() - i,
{
    if i < v.len() {
        lemma_param_texts(v, i + 1);
        let s = param_texts(v, i);
        assert forall|k: int| 0 <= k < v.len() - i implies s[k] == param_text(v[i + k]) by {
            if k > 0 {
                assert(s[k] == param_texts(v, i + 1)[k - 1]);
            }
        }
    }
}

/// A function's declaration and its definition carry the same header, and
/// that header lists exactly the function's parameters, one text each, in
/// order.
pub proof fn lemma_declaration_matches_definition(f: FnItem, n: nat)
    requires
        params_ok(f.params),
    ensures
        decl_text(Item::Fn(f)) == Ok::<Seq<char>, crate::printer::TranspileError>(
            header(f) + ";\n\n"@,
        ),
        def_text(Item::Fn(f), n) matches Ok((t, m)) ==> t.subrange(0, header(f).len() as int + 1)
            == header(f) + "\n"@,
        param_texts(f.params, 0).len() == f.params.len(),
        forall|k: int|
            0 <= k < f.params.len() ==> #[trigger] param_texts(f.params, 0)[k] == param_text(
                f.params[k],
            ),
{
    lemma_param_texts(f.params, 0);
    reveal_strlit("\n");
    if def_text(Item::Fn(f), n) is Ok {
        let t = def_text(Item::Fn(f), n)->Ok_0.0;
        let h = header(f) + "\n"@;
        assert(t.subrange(0, h.len() as int) =~= h);
    }
}

/// Without call cycles, a function that calls one needing the carrier needs
/// it too (unless the callee is the entry point, which needs it by fiat);
/// and the entry point always needs it.
pub proof fn lemma_usage_propagates(
    fns: Seq<FnItem>,
    g: Seq<char>,
    entry: Seq<char>,
    u: Seq<bool>,
    a: int,
    j: int,
)
    requires
        usage_sound(fns, g, u),
        acyclic(fns),
        0 <= a < fns.len(),
        0 <= j < calls_of(fns[a]).len(),
        calls_of(fns[a])[j] != entry,
        needs_carrier(names_of(fns), u, entry, calls_of(fns[a])[j]),
        resolve(names_of(fns), fns[a].name@) == Some(a),
    ensures
        needs_carrier(names_of(fns), u, entry, fns[a].name@),
        needs_carrier(names_of(fns), u, entry, entry),
{
    let c = callee(fns, a, j)->Some_0;
    assert(callee(fns, a, j) == Some(c));
    assert(u[a]);
}

/// A typed binding whose value is `if c { a } else { b }` with plain `a`
/// and `b` prints as one declaration `T x = (c) ? a : b;`.
pub proof fn lemma_conditional_binding(
    x: String,
    ty: Type,
    cond: Expr,
    then_branch: Vec<Stmt>,
    else_stmts: Vec<Stmt>,
    a: Expr,
    b: Expr,
    mode: Mode,
    var: Seq<char>,
    ind: Seq<char>,
    n: nat,
)
    requires
        !is_control(a),
        !is_control(b),
        then_branch.len() == 1,
        then_branch[0] == (Stmt::Expr { expr: a, semi: false }),
        else_stmts.len() == 1,
        else_stmts[0] == (Stmt::Expr { expr: b, semi: false }),
    ensures
        stmt_out(
            Stmt::Local {
                pat: Pattern::Typed { inner: Box::new(Pattern::Ident(x)), ty },
                init: Some(
                    Expr::If {
                        cond: Box::new(cond),
                        then_branch,
                        else_branch: Some(Box::new(Expr::Block(else_stmts))),
                    },
                ),
            },
            mode,
            var,
            ind,
            n,
        ) == Ok::<(Seq<char>, nat), crate::printer::TranspileError>(
            (
                ind + type_text(ty) + " "@ + x@ + " = "@ + "("@ + expr_text(cond) + ") ? "@
                    + expr_text(a) + " : "@ + expr_text(b) + ";\n"@,
                n,
            ),
        ),
{
    let e = Expr::If {
        cond: Box::new(cond),
        then_branch,
        else_branch: Some(Box::new(Expr::Block(else_stmts))),
    };
    assert(leaf_text(then_branch) == expr_text(a));
    assert(leaf_text(else_stmts) == expr_text(b));
    let p = Pattern::Typed { inner: Box::new(Pattern::Ident(x)), ty };
    let got = stmt_out(Stmt::Local { pat: p, init: Some(e) }, mode, var, ind, n)->Ok_0.0;
    assert(crate::printer::simple_expr(a));
    assert(crate::printer::simple_expr(b));
    assert(crate::printer::simple_branch(then_branch));
    assert(crate::printer::simple_branch(else_stmts));
    assert(crate::printer::is_simple_if(e));
    assert(got =~= ind + type_text(ty) + " "@ + x@ + " = "@ + "("@ + expr_text(cond) + ") ? "@
        + expr_text(a) + " : "@ + expr_text(b) + ";\n"@);
}

/// A struct destructuring binds a fresh temporary to a single evaluation
/// of the value, then reads each member from that temporary.
pub proof fn lemma_destructuring(
    path: String,
    fields: Vec<FieldPat>,
    init: Expr,
    mode: Mode,
    var: Seq<char>,
    ind: Seq<char>,
    n: nat,
)
    requires
        fields_ok(fields),
        !is_control(init),
        n < u64::MAX,
    ensures
        stmt_out(
            Stmt::Local { pat: Pattern::Struct { path, fields }, init: Some(init) },
            mode,
            var,
            ind,
            n,
        ) == Ok::<(Seq<char>, nat), crate::printer::TranspileError>(
            (
                ind + path@ + " "@ + temp_name(n) + " = "@ + expr_text(init) + ";\n"@ + field_lines(
                    fields,
                    temp_name(n),
                    ind,
                    0,
                ),
                n + 1,
            ),
        ),
{
}

proof fn lemma_swizzle_not_renamed(m: Seq<char>)
    requires
        is_swizzle(m),
    ensures
        renamed(m) == m,
{
    reveal_strlit("clamped");
    reveal_strlit("magnitude");
    reveal_strlit("magnitude_squared");
    reveal_strlit("face_forward");
    reveal_strlit("normalized");
    reveal_strlit("reflected");
    reveal_strlit("refracted");
    reveal_strlit("min");
    reveal_strlit("max");
    if m == "min"@ || m == "max"@ {
        assert(m[0] == 'm');
    }
}

/// A method call `v.xy()` whose name is one to four axis letters becomes the
/// field read `v.xy`.
pub proof fn lemma_swizzle_is_field_read(v: String, m: String, args: Vec<Expr>, r: Expr)
    requires
        is_swizzle(m@),
        adapted_expr(Expr::MethodCall { receiver: Box::new(Expr::Path(v)), method: m, args }, r),
    ensures
        r matches Expr::Field { base, member } && *base == Expr::Path(v) && member@ == m@,
        expr_text(r) == v@ + "."@ + m@,
{
    lemma_swizzle_not_renamed(m@);
    assert(is_swizzle(renamed(m@)));
    let base = r->Field_base;
    assert(adapted_expr(Expr::Path(v), *base));
    assert(*base == Expr::Path(v));
    assert(expr_text(*base) == v@);
}

/// A loop over `from..to` counts with `<`, over `from..=to` with `<=`.
pub proof fn lemma_counting_loop(
    i: String,
    from: Expr,
    to: Expr,
    inclusive: bool,
    body: Vec<Stmt>,
    mode: Mode,
    var: Seq<char>,
    ind: Seq<char>,
    n: nat,
)
    requires
        bound_ok(from),
        bound_ok(to),
    ensures
        expr_stmt_out(
            Expr::For {
                var: i,
                range: Box::new(Expr::Range { from: Box::new(from), to: Box::new(to), inclusive }),
                body,
            },
            mode,
            var,
            ind,
            n,
        ) == prepend(
            ind + "for (auto "@ + i@ + " = "@ + expr_text(from) + "; "@ + i@ + if inclusive {
                " <= "@
            } else {
                " < "@
            } + expr_text(to) + "; "@ + i@ + "++)\n"@,
            block_out(body, Mode::Plain, var, ind, n),
        ),
{
}

} // verus!
