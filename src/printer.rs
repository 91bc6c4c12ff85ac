//! Code generation: declarations of every function and struct first, then
//! the function definitions, with statements rendered by context.
use vstd::prelude::*;
use crate::ast::{Expr, FieldPat, FnItem, Item, Param, Pattern, SourceTree, Stmt, StructField, Type};
use crate::text::{expr_text, type_text, write_expr, write_type};

verus! {

/// Why printing stopped.
#[derive(PartialEq, Eq, Structural, Clone, Copy, Debug)]
pub enum TranspileError {
    /// A function parameter whose pattern is not a plain name.
    UnsupportedArgument,
    /// A `let` pattern that is neither a name, a typed name nor a struct.
    UnsupportedPattern,
    /// A struct pattern member that does not bind a plain name.
    UnsupportedStructMember,
    /// A `for` loop that is not over a range with literal or name bounds.
    UnsupportedForLoop,
    /// More struct destructurings than the temporary counter can name.
    TooManyTemporaries,
}

/// How a bare expression statement renders: as itself, as the value that
/// the enclosing function returns, or as an assignment to a variable.
#[derive(PartialEq, Eq, Structural, Clone, Copy, Debug)]
pub enum Mode {
    Plain,
    Tail,
    Assign,
}

/// Text and the next free temporary number, or the first error.
pub type Printed = Result<(Seq<char>, nat), TranspileError>;

pub open spec fn prepend(t: Seq<char>, r: Printed) -> Printed {
    match r {
        Ok((s, m)) => Ok((t + s, m)),
        Err(e) => Err(e),
    }
}

pub open spec fn append(r: Printed, t: Seq<char>) -> Printed {
    match r {
        Ok((s, m)) => Ok((s + t, m)),
        Err(e) => Err(e),
    }
}

/// What precedes a bare expression in a given mode.
pub open spec fn lead(mode: Mode, var: Seq<char>) -> Seq<char> {
    match mode {
        Mode::Plain => Seq::empty(),
        Mode::Tail => "return "@,
        Mode::Assign => var + " = "@,
    }
}

/// Statements that steer control and cannot stand as an operand.
pub open spec fn is_control(e: Expr) -> bool {
    e is If || e is Block || e is For || e is While || e is Return
}

/// An `if` with an `else` whose every branch is one bare, simple expression
/// (a nested `if` of the same kind counts): it renders as `(c) ? a : b`.
pub open spec fn is_simple_if(e: Expr) -> bool
    decreases e, 1int,
{
    match e {
        Expr::If { cond, then_branch, else_branch } => simple_branch(then_branch) && match else_branch {
            Some(b) => match *b {
                Expr::If { .. } => is_simple_if(*b),
                Expr::Block(stmts) => simple_branch(stmts),
                _ => false,
            },
            None => false,
        },
        _ => false,
    }
}

pub open spec fn simple_branch(v: Vec<Stmt>) -> bool
    decreases v, 0int,
{
    v.len() == 1 && match v[0] {
        Stmt::Expr { expr, semi } => !semi && simple_expr(expr),
        _ => false,
    }
}

pub open spec fn simple_expr(e: Expr) -> bool
    decreases e, 2int,
{
    match e {
        Expr::If { .. } => is_simple_if(e),
        _ => !is_control(e),
    }
}

/// Decimal digits of `n`.
pub open spec fn digits(n: nat) -> Seq<char>
    decreases n,
{
    if n < 10 {
        seq![digit_char(n)]
    } else {
        digits(n / 10) + seq![digit_char(n % 10)]
    }
}

pub open spec fn digit_char(d: nat) -> char {
    if d == 0 {
        '0'
    } else if d == 1 {
        '1'
    } else if d == 2 {
        '2'
    } else if d == 3 {
        '3'
    } else if d == 4 {
        '4'
    } else if d == 5 {
        '5'
    } else if d == 6 {
        '6'
    } else if d == 7 {
        '7'
    } else if d == 8 {
        '8'
    } else {
        '9'
    }
}

/// The name of the `n`-th synthetic temporary.
pub open spec fn temp_name(n: nat) -> Seq<char> {
    "__var__"@ + digits(n)
}

pub open spec fn bound_ok(e: Expr) -> bool {
    e is Lit || e is Path
}

pub open spec fn fields_ok(v: Vec<FieldPat>) -> bool {
    forall|i: int| 0 <= i < v.len() ==> (#[trigger] v[i]).pat is Ident
}

pub open spec fn ident_of(p: Pattern) -> Seq<char> {
    match p {
        Pattern::Ident(x) => x@,
        _ => Seq::empty(),
    }
}

/// One `auto b = tmp.member;` line per destructured member, from `i` on.
pub open spec fn field_lines(v: Vec<FieldPat>, tmp: Seq<char>, ind: Seq<char>, i: int) -> Seq<char>
    decreases v.len() - i,
{
    if 0 <= i < v.len() {
        ind + "auto "@ + ident_of(v[i].pat) + " = "@ + tmp + "."@ + v[i].member@ + ";\n"@
            + field_lines(v, tmp, ind, i + 1)
    } else {
        Seq::empty()
    }
}

/// The declared type, the name and the next temporary number of a `let`.
pub open spec fn decl_of(p: Pattern, n: nat) -> Result<(Seq<char>, Seq<char>, nat), TranspileError> {
    match p {
        Pattern::Ident(x) => Ok(("auto"@, x@, n)),
        Pattern::Typed { inner, ty } => match *inner {
            Pattern::Ident(x) => Ok((type_text(ty), x@, n)),
            _ => Err(TranspileError::UnsupportedPattern),
        },
        Pattern::Struct { path, fields } => if !fields_ok(fields) {
            Err(TranspileError::UnsupportedStructMember)
        } else if n >= u64::MAX {
            Err(TranspileError::TooManyTemporaries)
        } else {
            Ok((path@, temp_name(n), n + 1))
        },
        _ => Err(TranspileError::UnsupportedPattern),
    }
}

/// The member lines that follow the declaration of a struct pattern.
pub open spec fn pattern_tail(p: Pattern, tmp: Seq<char>, ind: Seq<char>) -> Seq<char> {
    match p {
        Pattern::Struct { path, fields } => field_lines(fields, tmp, ind, 0),
        _ => Seq::empty(),
    }
}

/// A block: its statements one level deeper, between braces.
pub open spec fn block_out(v: Vec<Stmt>, mode: Mode, var: Seq<char>, ind: Seq<char>, n: nat) -> Printed
    decreases v, 2int, 0int,
{
    append(
        prepend(ind + "{\n"@, stmts_out(v, mode, var, ind + "  "@, n, 0)),
        ind + "}\n"@,
    )
}

/// The mode of statement `i`: only a final bare expression keeps `mode`.
pub open spec fn mode_at(v: Vec<Stmt>, i: int, mode: Mode) -> Mode {
    if i == v.len() - 1 && v[i] matches Stmt::Expr { semi: false, .. } {
        mode
    } else {
        Mode::Plain
    }
}

pub open spec fn stmts_out(v: Vec<Stmt>, mode: Mode, var: Seq<char>, ind: Seq<char>, n: nat, i: int) -> Printed
    decreases v, 1int, v.len() - i,
{
    if 0 <= i < v.len() {
        match stmt_out(v[i], mode_at(v, i, mode), var, ind, n) {
            Ok((t, m)) => prepend(t, stmts_out(v, mode, var, ind, m, i + 1)),
            Err(e) => Err(e),
        }
    } else {
        Ok((Seq::empty(), n))
    }
}

/// A statement. A `let` prints `type name`, then ` = value;` or, when the
/// value is a statement such as a loop or an `if` that is not a simple
/// conditional, `;` followed by that statement assigning each result to the
/// name. A struct pattern binds a fresh temporary and then one variable per
/// member.
pub open spec fn stmt_out(s: Stmt, mode: Mode, var: Seq<char>, ind: Seq<char>, n: nat) -> Printed
    decreases s, 0int, 0int,
{
    match s {
        Stmt::Local { pat, init } => match decl_of(pat, n) {
            Err(e) => Err(e),
            Ok((ty, name, m)) => {
                let head = ind + ty + " "@ + name;
                let tail = pattern_tail(pat, name, ind);
                match init {
                    None => Ok((head + ";\n"@ + tail, m)),
                    Some(x) => if is_control(x) && !is_simple_if(x) {
                        append(prepend(head + ";\n"@, expr_stmt_out(x, Mode::Assign, name, ind, m)), tail)
                    } else {
                        Ok((head + " = "@ + expr_text(x) + ";\n"@ + tail, m))
                    },
                }
            },
        },
        Stmt::Expr { expr, semi } => expr_stmt_out(expr, mode, var, ind, n),
    }
}

/// An expression in statement position.
pub open spec fn expr_stmt_out(e: Expr, mode: Mode, var: Seq<char>, ind: Seq<char>, n: nat) -> Printed
    decreases e, 1int, 0int,
{
    match e {
        Expr::For { var: v, range, body } => match *range {
            Expr::Range { from, to, inclusive } => if bound_ok(*from) && bound_ok(*to) {
                prepend(
                    ind + "for (auto "@ + v@ + " = "@ + expr_text(*from) + "; "@ + v@ + if inclusive {
                        " <= "@
                    } else {
                        " < "@
                    } + expr_text(*to) + "; "@ + v@ + "++)\n"@,
                    block_out(body, Mode::Plain, var, ind, n),
                )
            } else {
                Err(TranspileError::UnsupportedForLoop)
            },
            _ => Err(TranspileError::UnsupportedForLoop),
        },
        Expr::While { cond, body } => prepend(
            ind + "while ("@ + expr_text(*cond) + ")\n"@,
            block_out(body, Mode::Plain, var, ind, n),
        ),
        Expr::If { .. } => if mode != Mode::Plain && is_simple_if(e) {
            Ok((ind + lead(mode, var) + expr_text(e) + ";\n"@, n))
        } else {
            if_out(e, mode, var, ind, n)
        },
        Expr::Block(stmts) => block_out(stmts, mode, var, ind, n),
        Expr::Return(_) => Ok((ind + expr_text(e) + ";\n"@, n)),
        _ => Ok((ind + lead(mode, var) + expr_text(e) + ";\n"@, n)),
    }
}

/// An `if` statement; each branch passes the mode on.
pub open spec fn if_out(e: Expr, mode: Mode, var: Seq<char>, ind: Seq<char>, n: nat) -> Printed
    decreases e, 0int, 0int,
{
    match e {
        Expr::If { cond, then_branch, else_branch } => {
            let head = ind + "if ("@ + expr_text(*cond) + ")\n"@;
            match block_out(then_branch, mode, var, ind, n) {
                Err(err) => Err(err),
                Ok((t, m)) => match else_branch {
                    None => Ok((head + t, m)),
                    Some(b) => prepend(head + t + ind + "else\n"@, expr_stmt_out(*b, mode, var, ind, m)),
                },
            }
        },
        _ => Ok((Seq::empty(), n)),
    }
}

pub fn write_digits(n: u64, out: &mut String)
    ensures
        final(out)@ == old(out)@ + digits(n as nat),
    decreases n,
{
    let ghost start = out@;
    if n >= 10 {
        write_digits(n / 10, out);
    }
    let d = n % 10;
    proof {
        reveal_strlit("0");
        reveal_strlit("1");
        reveal_strlit("2");
        reveal_strlit("3");
        reveal_strlit("4");
        reveal_strlit("5");
        reveal_strlit("6");
        reveal_strlit("7");
        reveal_strlit("8");
        reveal_strlit("9");
    }
    let s: &str = if d == 0 {
        "0"
    } else if d == 1 {
        "1"
    } else if d == 2 {
        "2"
    } else if d == 3 {
        "3"
    } else if d == 4 {
        "4"
    } else if d == 5 {
        "5"
    } else if d == 6 {
        "6"
    } else if d == 7 {
        "7"
    } else if d == 8 {
        "8"
    } else {
        "9"
    };
    out.append(s);
    assert(out@ =~= start + digits(n as nat));
}

pub open spec fn params_ok(v: Vec<Param>) -> bool {
    forall|i: int| 0 <= i < v.len() ==> (#[trigger] v[i]).pat is Ident
}

/// `[space] type name` of one parameter.
pub open spec fn param_text(p: Param) -> Seq<char> {
    let space = match p.address_space {
        Some(a) => a@ + " "@,
        None => Seq::empty(),
    };
    space + type_text(p.ty) + " "@ + ident_of(p.pat)
}

/// The texts of the parameters `v[i..]`, one entry per parameter.
pub open spec fn param_texts(v: Vec<Param>, i: int) -> Seq<Seq<char>>
    decreases v.len() - i,
{
    if 0 <= i < v.len() {
        seq![param_text(v[i])] + param_texts(v, i + 1)
    } else {
        Seq::empty()
    }
}

/// `parts` joined by `, `.
pub open spec fn join(parts: Seq<Seq<char>>) -> Seq<char>
    decreases parts.len(),
{
    if parts.len() == 0 {
        Seq::empty()
    } else if parts.len() == 1 {
        parts[0]
    } else {
        parts[0] + ", "@ + join(parts.drop_first())
    }
}

pub open spec fn ret_text(r: Option<Type>) -> Seq<char> {
    match r {
        Some(t) => type_text(t),
        None => "void"@,
    }
}

/// `ret name(params)`, the same in the declaration and the definition.
pub open spec fn header(f: FnItem) -> Seq<char> {
    ret_text(f.ret) + " "@ + f.name@ + "("@ + join(param_texts(f.params, 0)) + ")"@
}

pub open spec fn struct_fields_text(v: Vec<StructField>, i: int) -> Seq<char>
    decreases v.len() - i,
{
    if 0 <= i < v.len() {
        "  "@ + type_text(v[i].ty) + " "@ + v[i].name@ + ";\n"@ + struct_fields_text(v, i + 1)
    } else {
        Seq::empty()
    }
}

/// What an item contributes to the declarations.
pub open spec fn decl_text(it: Item) -> Result<Seq<char>, TranspileError> {
    match it {
        Item::Fn(f) => if params_ok(f.params) {
            Ok(header(f) + ";\n\n"@)
        } else {
            Err(TranspileError::UnsupportedArgument)
        },
        Item::Struct(st) => Ok(
            "struct "@ + st.name@ + " {\n"@ + struct_fields_text(st.fields, 0) + "};\n\n"@,
        ),
        _ => Ok(Seq::empty()),
    }
}

/// What an item contributes to the definitions; the last bare expression
/// of a function body is what it returns.
pub open spec fn def_text(it: Item, n: nat) -> Printed {
    match it {
        Item::Fn(f) => if params_ok(f.params) {
            prepend(header(f) + "\n"@, append(block_out(f.body, Mode::Tail, f.name@, Seq::empty(), n), "\n"@))
        } else {
            Err(TranspileError::UnsupportedArgument)
        },
        _ => Ok((Seq::empty(), n)),
    }
}

pub open spec fn decls_text(items: Seq<Item>, i: int) -> Result<Seq<char>, TranspileError>
    decreases items.len() - i,
{
    if 0 <= i < items.len() {
        match decl_text(items[i]) {
            Err(e) => Err(e),
            Ok(t) => match decls_text(items, i + 1) {
                Err(e) => Err(e),
                Ok(t2) => Ok(t + t2),
            },
        }
    } else {
        Ok(Seq::empty())
    }
}

pub open spec fn defs_text(items: Seq<Item>, i: int, n: nat) -> Printed
    decreases items.len() - i,
{
    if 0 <= i < items.len() {
        match def_text(items[i], n) {
            Err(e) => Err(e),
            Ok((t, m)) => prepend(t, defs_text(items, i + 1, m)),
        }
    } else {
        Ok((Seq::empty(), n))
    }
}

/// The whole output: every declaration, then every definition.
pub open spec fn program_text(items: Seq<Item>) -> Result<Seq<char>, TranspileError> {
    match decls_text(items, 0) {
        Err(e) => Err(e),
        Ok(d) => match defs_text(items, 0, 0) {
            Err(e) => Err(e),
            Ok((t, m)) => Ok(d + t),
        },
    }
}

/// `out` grew by the text of `p`, and `r` carries its temporary count, or
/// `r` is the error of `p`.
pub open spec fn printed(
    p: Printed,
    before: Seq<char>,
    after: Seq<char>,
    r: Result<u64, TranspileError>,
) -> bool {
    match p {
        Ok((t, m)) => r matches Ok(k) && k as nat == m && after == before + t,
        Err(e) => r == Err::<u64, TranspileError>(e),
    }
}

fn is_bare_expr(s: &Stmt) -> (r: bool)
    ensures
        r == (*s matches Stmt::Expr { semi: false, .. }),
{
    match s {
        Stmt::Expr { expr, semi } => !*semi,
        _ => false,
    }
}

fn is_control_expr(e: &Expr) -> (r: bool)
    ensures
        r == is_control(*e),
{
    match e {
        Expr::If { .. } => true,
        Expr::Block(_) => true,
        Expr::For { .. } => true,
        Expr::While { .. } => true,
        Expr::Return(_) => true,
        _ => false,
    }
}

fn check_simple_if(e: &Expr) -> (r: bool)
    ensures
        r == is_simple_if(*e),
    decreases e, 1int,
{
    match e {
        Expr::If { cond, then_branch, else_branch } => {
            if !check_simple_branch(then_branch) {
                return false;
            }
            match else_branch {
                Some(b) => match &**b {
                    Expr::If { .. } => check_simple_if(b),
                    Expr::Block(stmts) => check_simple_branch(stmts),
                    _ => false,
                },
                None => false,
            }
        },
        _ => false,
    }
}

fn check_simple_branch(v: &Vec<Stmt>) -> (r: bool)
    ensures
        r == simple_branch(*v),
    decreases v, 0int,
{
    if v.len() != 1 {
        return false;
    }
    match &v[0] {
        Stmt::Expr { expr, semi } => !*semi && check_simple_expr(expr),
        _ => false,
    }
}

fn check_simple_expr(e: &Expr) -> (r: bool)
    ensures
        r == simple_expr(*e),
    decreases e, 2int,
{
    match e {
        Expr::If { .. } => check_simple_if(e),
        _ => !is_control_expr(e),
    }
}

fn write_lead(mode: Mode, var: &str, out: &mut String)
    ensures
        final(out)@ == old(out)@ + lead(mode, var@),
{
    let ghost start = out@;
    match mode {
        Mode::Plain => {},
        Mode::Tail => {
            out.append("return ");
        },
        Mode::Assign => {
            out.append(var);
            out.append(" = ");
        },
    }
    assert(out@ =~= start + lead(mode, var@));
}

fn type_string(t: &Type) -> (r: String)
    ensures
        r@ == type_text(*t),
{
    let mut s = String::new();
    write_type(t, &mut s);
    assert(s@ =~= type_text(*t));
    s
}

fn all_idents(v: &Vec<FieldPat>) -> (r: bool)
    ensures
        r == fields_ok(*v),
{
    let mut i: usize = 0;
    while i < v.len()
        invariant
            i <= v.len(),
            forall|k: int| 0 <= k < i ==> (#[trigger] v[k]).pat is Ident,
        decreases v.len() - i,
    {
        match &v[i].pat {
            Pattern::Ident(_) => {},
            _ => {
                return false;
            },
        }
        i = i + 1;
    }
    true
}

fn decl_parts(p: &Pattern, n: u64) -> (r: Result<(String, String, u64), TranspileError>)
    ensures
        match decl_of(*p, n as nat) {
            Ok((ty, name, m)) => r matches Ok((a, b, k)) && a@ == ty && b@ == name && k as nat == m,
            Err(e) => r == Err::<(String, String, u64), TranspileError>(e),
        },
{
    match p {
        Pattern::Ident(x) => Ok((String::from_str("auto"), x.clone(), n)),
        Pattern::Typed { inner, ty } => match &**inner {
            Pattern::Ident(x) => Ok((type_string(ty), x.clone(), n)),
            _ => Err(TranspileError::UnsupportedPattern),
        },
        Pattern::Struct { path, fields } => {
            if !all_idents(fields) {
                return Err(TranspileError::UnsupportedStructMember);
            }
            if n == u64::MAX {
                return Err(TranspileError::TooManyTemporaries);
            }
            let mut name = String::from_str("__var__");
            write_digits(n, &mut name);
            Ok((path.clone(), name, n + 1))
        },
        _ => Err(TranspileError::UnsupportedPattern),
    }
}

fn write_field_lines(v: &Vec<FieldPat>, tmp: &str, ind: &str, i: usize, out: &mut String)
    requires
        i <= v.len(),
    ensures
        final(out)@ == old(out)@ + field_lines(*v, tmp@, ind@, i as int),
    decreases v.len() - i,
{
    let ghost start = out@;
    if i < v.len() {
        out.append(ind);
        out.append("auto ");
        match &v[i].pat {
            Pattern::Ident(b) => {
                out.append(b.as_str());
            },
            _ => {},
        }
        out.append(" = ");
        out.append(tmp);
        out.append(".");
        out.append(v[i].member.as_str());
        out.append(";\n");
        write_field_lines(v, tmp, ind, i + 1, out);
    }
    assert(out@ =~= start + field_lines(*v, tmp@, ind@, i as int));
}

fn write_pattern_tail(p: &Pattern, tmp: &str, ind: &str, out: &mut String)
    ensures
        final(out)@ == old(out)@ + pattern_tail(*p, tmp@, ind@),
{
    match p {
        Pattern::Struct { path, fields } => write_field_lines(fields, tmp, ind, 0, out),
        _ => {
            assert(out@ =~= old(out)@ + pattern_tail(*p, tmp@, ind@));
        },
    }
}

fn write_block(
    v: &Vec<Stmt>,
    mode: Mode,
    var: &str,
    ind: &str,
    n: u64,
    out: &mut String,
) -> (r: Result<u64, TranspileError>)
    ensures
        printed(block_out(*v, mode, var@, ind@, n as nat), old(out)@, final(out)@, r),
    decreases v, 2int, 0int,
{
    let ghost start = out@;
    out.append(ind);
    out.append("{\n");
    let mut deeper = String::from_str(ind);
    deeper.append("  ");
    let ghost mid = out@;
    let r = write_stmts(v, mode, var, deeper.as_str(), n, 0, out);
    let ghost body = out@;
    let ghost p = stmts_out(*v, mode, var@, deeper@, n as nat, 0);
    match r {
        Ok(m) => {
            out.append(ind);
            out.append("}\n");
            proof {
                let t = p->Ok_0.0;
                assert(body == mid + t);
                assert(out@ =~= start + (ind@ + "{\n"@ + t + (ind@ + "}\n"@)));
            }
            Ok(m)
        },
        Err(e) => Err(e),
    }
}

fn write_stmts(
    v: &Vec<Stmt>,
    mode: Mode,
    var: &str,
    ind: &str,
    n: u64,
    i: usize,
    out: &mut String,
) -> (r: Result<u64, TranspileError>)
    requires
        i <= v.len(),
    ensures
        printed(stmts_out(*v, mode, var@, ind@, n as nat, i as int), old(out)@, final(out)@, r),
    decreases v, 1int, v.len() - i,
{
    if i < v.len() {
        let md = if i + 1 == v.len() && is_bare_expr(&v[i]) {
            mode
        } else {
            Mode::Plain
        };
        assert(md == mode_at(*v, i as int, mode));
        let ghost start = out@;
        let ghost p1 = stmt_out(v[i as int], md, var@, ind@, n as nat);
        match write_stmt(&v[i], md, var, ind, n, out) {
            Ok(m) => {
                let ghost mid = out@;
                let ghost p2 = stmts_out(*v, mode, var@, ind@, m as nat, i + 1);
                let r = write_stmts(v, mode, var, ind, m, i + 1, out);
                proof {
                    if r is Ok {
                        let t1 = p1->Ok_0.0;
                        let t2 = p2->Ok_0.0;
                        assert(mid == start + t1);
                        assert(out@ == mid + t2);
                        assert(out@ =~= start + (t1 + t2));
                    }
                }
                r
            },
            Err(e) => Err(e),
        }
    } else {
        assert(out@ =~= old(out)@ + Seq::<char>::empty());
        Ok(n)
    }
}

fn write_local(
    pat: &Pattern,
    init: &Option<Expr>,
    ind: &str,
    n: u64,
    out: &mut String,
) -> (r: Result<u64, TranspileError>)
    ensures
        printed(
            stmt_out(Stmt::Local { pat: *pat, init: *init }, Mode::Plain, Seq::empty(), ind@, n as nat),
            old(out)@,
            final(out)@,
            r,
        ),
    decreases *init, 1int, 0int,
{
    let ghost start = out@;
    let (ty, name, m) = match decl_parts(pat, n) {
        Ok(parts) => parts,
        Err(e) => {
            return Err(e);
        },
    };
    out.append(ind);
    out.append(ty.as_str());
    out.append(" ");
    out.append(name.as_str());
    let ghost head = ind@ + ty@ + " "@ + name@;
    assert(out@ =~= start + head);
    match init {
        None => {
            out.append(";\n");
            write_pattern_tail(pat, name.as_str(), ind, out);
            assert(out@ =~= start + (head + ";\n"@ + pattern_tail(*pat, name@, ind@)));
            Ok(m)
        },
        Some(x) => {
            if is_control_expr(x) && !check_simple_if(x) {
                out.append(";\n");
                let ghost mid = out@;
                let ghost p = expr_stmt_out(*x, Mode::Assign, name@, ind@, m as nat);
                match write_expr_stmt(x, Mode::Assign, name.as_str(), ind, m, out) {
                    Ok(k) => {
                        let ghost body = out@;
                        write_pattern_tail(pat, name.as_str(), ind, out);
                        proof {
                            let t = p->Ok_0.0;
                            assert(body == mid + t);
                            assert(out@ =~= start + (head + ";\n"@ + t + pattern_tail(
                                *pat,
                                name@,
                                ind@,
                            )));
                        }
                        Ok(k)
                    },
                    Err(e) => Err(e),
                }
            } else {
                out.append(" = ");
                write_expr(x, out);
                out.append(";\n");
                write_pattern_tail(pat, name.as_str(), ind, out);
                assert(out@ =~= start + (head + " = "@ + expr_text(*x) + ";\n"@ + pattern_tail(
                    *pat,
                    name@,
                    ind@,
                )));
                Ok(m)
            }
        },
    }
}

fn write_stmt(
    s: &Stmt,
    mode: Mode,
    var: &str,
    ind: &str,
    n: u64,
    out: &mut String,
) -> (r: Result<u64, TranspileError>)
    ensures
        printed(stmt_out(*s, mode, var@, ind@, n as nat), old(out)@, final(out)@, r),
    decreases s, 0int, 0int,
{
    match s {
        Stmt::Local { pat, init } => write_local(pat, init, ind, n, out),
        Stmt::Expr { expr, semi } => write_expr_stmt(expr, mode, var, ind, n, out),
    }
}

fn is_bound(e: &Expr) -> (r: bool)
    ensures
        r == bound_ok(*e),
{
    match e {
        Expr::Lit(_) => true,
        Expr::Path(_) => true,
        _ => false,
    }
}

/// Appends `head`, then the block; what the block printed follows `head`.
fn write_headed_block(
    body: &Vec<Stmt>,
    var: &str,
    ind: &str,
    n: u64,
    out: &mut String,
    Ghost(start): Ghost<Seq<char>>,
    Ghost(head): Ghost<Seq<char>>,
) -> (r: Result<u64, TranspileError>)
    requires
        old(out)@ == start + head,
    ensures
        printed(
            prepend(head, block_out(*body, Mode::Plain, var@, ind@, n as nat)),
            start,
            final(out)@,
            r,
        ),
    decreases body, 3int, 0int,
{
    let ghost mid = out@;
    let ghost p = block_out(*body, Mode::Plain, var@, ind@, n as nat);
    let r = write_block(body, Mode::Plain, var, ind, n, out);
    proof {
        if r is Ok {
            let t = p->Ok_0.0;
            assert(out@ == mid + t);
            assert(out@ =~= start + (head + t));
        }
    }
    r
}

fn write_for(
    v: &String,
    from: &Expr,
    to: &Expr,
    inclusive: bool,
    body: &Vec<Stmt>,
    var: &str,
    ind: &str,
    n: u64,
    out: &mut String,
) -> (r: Result<u64, TranspileError>)
    ensures
        printed(
            prepend(
                ind@ + "for (auto "@ + v@ + " = "@ + expr_text(*from) + "; "@ + v@ + if inclusive {
                    " <= "@
                } else {
                    " < "@
                } + expr_text(*to) + "; "@ + v@ + "++)\n"@,
                block_out(*body, Mode::Plain, var@, ind@, n as nat),
            ),
            old(out)@,
            final(out)@,
            r,
        ),
    decreases body, 4int, 0int,
{
    let ghost start = out@;
    out.append(ind);
    out.append("for (auto ");
    out.append(v.as_str());
    out.append(" = ");
    write_expr(from, out);
    out.append("; ");
    out.append(v.as_str());
    if inclusive {
        out.append(" <= ");
    } else {
        out.append(" < ");
    }
    write_expr(to, out);
    out.append("; ");
    out.append(v.as_str());
    out.append("++)\n");
    let ghost head = ind@ + "for (auto "@ + v@ + " = "@ + expr_text(*from) + "; "@ + v@ + if inclusive {
        " <= "@
    } else {
        " < "@
    } + expr_text(*to) + "; "@ + v@ + "++)\n"@;
    assert(out@ =~= start + head);
    write_headed_block(body, var, ind, n, out, Ghost(start), Ghost(head))
}

fn write_expr_stmt(
    e: &Expr,
    mode: Mode,
    var: &str,
    ind: &str,
    n: u64,
    out: &mut String,
) -> (r: Result<u64, TranspileError>)
    ensures
        printed(expr_stmt_out(*e, mode, var@, ind@, n as nat), old(out)@, final(out)@, r),
    decreases e, 1int, 0int,
{
    let ghost start = out@;
    match e {
        Expr::For { var: v, range, body } => match &**range {
            Expr::Range { from, to, inclusive } => {
                if !is_bound(from) || !is_bound(to) {
                    return Err(TranspileError::UnsupportedForLoop);
                }
                write_for(v, from, to, *inclusive, body, var, ind, n, out)
            },
            _ => Err(TranspileError::UnsupportedForLoop),
        },
        Expr::While { cond, body } => {
            out.append(ind);
            out.append("while (");
            write_expr(cond, out);
            out.append(")\n");
            let ghost head = ind@ + "while ("@ + expr_text(**cond) + ")\n"@;
            assert(out@ =~= start + head);
            write_headed_block(body, var, ind, n, out, Ghost(start), Ghost(head))
        },
        Expr::If { .. } => {
            if mode != Mode::Plain && check_simple_if(e) {
                out.append(ind);
                write_lead(mode, var, out);
                write_expr(e, out);
                out.append(";\n");
                assert(out@ =~= start + (ind@ + lead(mode, var@) + expr_text(*e) + ";\n"@));
                Ok(n)
            } else {
                write_if(e, mode, var, ind, n, out)
            }
        },
        Expr::Block(stmts) => write_block(stmts, mode, var, ind, n, out),
        Expr::Return(_) => {
            out.append(ind);
            write_expr(e, out);
            out.append(";\n");
            assert(out@ =~= start + (ind@ + expr_text(*e) + ";\n"@));
            Ok(n)
        },
        _ => {
            out.append(ind);
            write_lead(mode, var, out);
            write_expr(e, out);
            out.append(";\n");
            assert(out@ =~= start + (ind@ + lead(mode, var@) + expr_text(*e) + ";\n"@));
            Ok(n)
        },
    }
}

fn write_if(
    e: &Expr,
    mode: Mode,
    var: &str,
    ind: &str,
    n: u64,
    out: &mut String,
) -> (r: Result<u64, TranspileError>)
    ensures
        printed(if_out(*e, mode, var@, ind@, n as nat), old(out)@, final(out)@, r),
    decreases e, 0int, 0int,
{
    let ghost start = out@;
    match e {
        Expr::If { cond, then_branch, else_branch } => {
            out.append(ind);
            out.append("if (");
            write_expr(cond, out);
            out.append(")\n");
            let ghost head = ind@ + "if ("@ + expr_text(**cond) + ")\n"@;
            assert(out@ =~= start + head);
            let ghost h = out@;
            let ghost p1 = block_out(*then_branch, mode, var@, ind@, n as nat);
            let m = match write_block(then_branch, mode, var, ind, n, out) {
                Ok(m) => m,
                Err(err) => {
                    return Err(err);
                },
            };
            let ghost t1 = p1->Ok_0.0;
            assert(out@ == h + t1);
            match else_branch {
                None => {
                    assert(out@ =~= start + (head + t1));
                    Ok(m)
                },
                Some(b) => {
                    out.append(ind);
                    out.append("else\n");
                    let ghost before_else = out@;
                    let ghost p2 = expr_stmt_out(**b, mode, var@, ind@, m as nat);
                    let r = write_expr_stmt(b, mode, var, ind, m, out);
                    proof {
                        if r is Ok {
                            let t2 = p2->Ok_0.0;
                            assert(out@ == before_else + t2);
                            assert(out@ =~= start + (head + t1 + ind@ + "else\n"@ + t2));
                        }
                    }
                    r
                },
            }
        },
        _ => {
            assert(out@ =~= start + Seq::<char>::empty());
            Ok(n)
        },
    }
}

fn params_all_idents(v: &Vec<Param>) -> (r: bool)
    ensures
        r == params_ok(*v),
{
    let mut i: usize = 0;
    while i < v.len()
        invariant
            i <= v.len(),
            forall|k: int| 0 <= k < i ==> (#[trigger] v[k]).pat is Ident,
        decreases v.len() - i,
    {
        match &v[i].pat {
            Pattern::Ident(_) => {},
            _ => {
                return false;
            },
        }
        i = i + 1;
    }
    true
}

fn write_param(p: &Param, out: &mut String)
    ensures
        final(out)@ == old(out)@ + param_text(*p),
{
    let ghost start = out@;
    match &p.address_space {
        Some(a) => {
            out.append(a.as_str());
            out.append(" ");
        },
        None => {},
    }
    write_type(&p.ty, out);
    out.append(" ");
    match &p.pat {
        Pattern::Ident(x) => {
            out.append(x.as_str());
        },
        _ => {},
    }
    assert(out@ =~= start + param_text(*p));
}

proof fn lemma_join_step(v: Vec<Param>, i: int)
    requires
        0 <= i < v.len(),
    ensures
        join(param_texts(v, i)) == if i + 1 < v.len() {
            param_text(v[i]) + ", "@ + join(param_texts(v, i + 1))
        } else {
            param_text(v[i])
        },
    decreases v.len() - i,
{
    let s = param_texts(v, i);
    assert(s == seq![param_text(v[i])] + param_texts(v, i + 1));
    if i + 1 < v.len() {
        assert(param_texts(v, i + 1).len() > 0) by {
            assert(param_texts(v, i + 1) == seq![param_text(v[i + 1])] + param_texts(v, i + 2));
        }
        assert(s.drop_first() =~= param_texts(v, i + 1));
    } else {
        assert(param_texts(v, i + 1) == Seq::<Seq<char>>::empty());
        assert(s =~= seq![param_text(v[i])]);
    }
}

fn write_params(v: &Vec<Param>, i: usize, out: &mut String)
    requires
        i <= v.len(),
    ensures
        final(out)@ == old(out)@ + join(param_texts(*v, i as int)),
    decreases v.len() - i,
{
    let ghost start = out@;
    if i < v.len() {
        proof {
            lemma_join_step(*v, i as int);
        }
        write_param(&v[i], out);
        if i + 1 < v.len() {
            out.append(", ");
            write_params(v, i + 1, out);
        }
        assert(out@ =~= start + join(param_texts(*v, i as int)));
    } else {
        assert(param_texts(*v, i as int) == Seq::<Seq<char>>::empty());
        assert(out@ =~= start + join(param_texts(*v, i as int)));
    }
}

fn write_header(f: &FnItem, out: &mut String)
    ensures
        final(out)@ == old(out)@ + header(*f),
{
    let ghost start = out@;
    match &f.ret {
        Some(t) => write_type(t, out),
        None => {
            out.append("void");
        },
    }
    out.append(" ");
    out.append(f.name.as_str());
    out.append("(");
    write_params(&f.params, 0, out);
    out.append(")");
    assert(out@ =~= start + header(*f));
}

fn write_struct_fields(v: &Vec<StructField>, i: usize, out: &mut String)
    requires
        i <= v.len(),
    ensures
        final(out)@ == old(out)@ + struct_fields_text(*v, i as int),
    decreases v.len() - i,
{
    let ghost start = out@;
    if i < v.len() {
        out.append("  ");
        write_type(&v[i].ty, out);
        out.append(" ");
        out.append(v[i].name.as_str());
        out.append(";\n");
        write_struct_fields(v, i + 1, out);
    }
    assert(out@ =~= start + struct_fields_text(*v, i as int));
}

fn write_decl(it: &Item, out: &mut String) -> (r: Result<(), TranspileError>)
    ensures
        match decl_text(*it) {
            Ok(t) => r is Ok && final(out)@ == old(out)@ + t,
            Err(e) => r == Err::<(), TranspileError>(e),
        },
{
    let ghost start = out@;
    match it {
        Item::Fn(f) => {
            if !params_all_idents(&f.params) {
                return Err(TranspileError::UnsupportedArgument);
            }
            write_header(f, out);
            out.append(";\n\n");
            assert(out@ =~= start + (header(*f) + ";\n\n"@));
            Ok(())
        },
        Item::Struct(st) => {
            out.append("struct ");
            out.append(st.name.as_str());
            out.append(" {\n");
            write_struct_fields(&st.fields, 0, out);
            out.append("};\n\n");
            assert(out@ =~= start + ("struct "@ + st.name@ + " {\n"@ + struct_fields_text(st.fields, 0)
                + "};\n\n"@));
            Ok(())
        },
        _ => {
            assert(out@ =~= start + Seq::<char>::empty());
            Ok(())
        },
    }
}

fn write_def(it: &Item, n: u64, out: &mut String) -> (r: Result<u64, TranspileError>)
    ensures
        printed(def_text(*it, n as nat), old(out)@, final(out)@, r),
{
    let ghost start = out@;
    match it {
        Item::Fn(f) => {
            if !params_all_idents(&f.params) {
                return Err(TranspileError::UnsupportedArgument);
            }
            write_header(f, out);
            out.append("\n");
            let ghost mid = out@;
            let ghost p = block_out(f.body, Mode::Tail, f.name@, Seq::empty(), n as nat);
            let mut top = String::new();
            assert(top@ == Seq::<char>::empty());
            let r = write_block(&f.body, Mode::Tail, f.name.as_str(), top.as_str(), n, out);
            match r {
                Ok(m) => {
                    let ghost body = out@;
                    out.append("\n");
                    proof {
                        let t = p->Ok_0.0;
                        assert(body == mid + t);
                        assert(out@ =~= start + (header(*f) + "\n"@ + (t + "\n"@)));
                    }
                    Ok(m)
                },
                Err(e) => Err(e),
            }
        },
        _ => {
            assert(out@ =~= start + Seq::<char>::empty());
            Ok(n)
        },
    }
}

fn write_decls(items: &Vec<Item>, i: usize, out: &mut String) -> (r: Result<(), TranspileError>)
    requires
        i <= items.len(),
    ensures
        match decls_text(items@, i as int) {
            Ok(t) => r is Ok && final(out)@ == old(out)@ + t,
            Err(e) => r == Err::<(), TranspileError>(e),
        },
    decreases items.len() - i,
{
    let ghost start = out@;
    if i < items.len() {
        let ghost p = decl_text(items@[i as int]);
        match write_decl(&items[i], out) {
            Ok(()) => {
                let ghost mid = out@;
                let ghost q = decls_text(items@, i + 1);
                let r = write_decls(items, i + 1, out);
                proof {
                    if r is Ok {
                        assert(out@ =~= start + (p->Ok_0 + q->Ok_0));
                    }
                }
                r
            },
            Err(e) => Err(e),
        }
    } else {
        assert(out@ =~= start + Seq::<char>::empty());
        Ok(())
    }
}

fn write_defs(items: &Vec<Item>, i: usize, n: u64, out: &mut String) -> (r: Result<u64, TranspileError>)
    requires
        i <= items.len(),
    ensures
        printed(defs_text(items@, i as int, n as nat), old(out)@, final(out)@, r),
    decreases items.len() - i,
{
    let ghost start = out@;
    if i < items.len() {
        let ghost p = def_text(items@[i as int], n as nat);
        match write_def(&items[i], n, out) {
            Ok(m) => {
                let ghost mid = out@;
                let ghost q = defs_text(items@, i + 1, m as nat);
                let r = write_defs(items, i + 1, m, out);
                proof {
                    if r is Ok {
                        assert(out@ =~= start + (p->Ok_0.0 + q->Ok_0.0));
                    }
                }
                r
            },
            Err(e) => Err(e),
        }
    } else {
        assert(out@ =~= start + Seq::<char>::empty());
        Ok(n)
    }
}

/// Prints the tree as target source: the declarations of all functions and
/// structs, then the definitions of all functions; or the first error.
pub fn print_ast_into_msl(tree: &SourceTree) -> (r: Result<String, TranspileError>)
    ensures
        match program_text(tree.items@) {
            Ok(t) => r matches Ok(s) && s@ == t,
            Err(e) => r == Err::<String, TranspileError>(e),
        },
{
    let mut out = String::new();
    let ghost empty = out@;
    match write_decls(&tree.items, 0, &mut out) {
        Ok(()) => {},
        Err(e) => {
            return Err(e);
        },
    }
    let ghost d = out@;
    let ghost q = defs_text(tree.items@, 0, 0);
    match write_defs(&tree.items, 0, 0, &mut out) {
        Ok(_) => {
            assert(out@ =~= decls_text(tree.items@, 0)->Ok_0 + q->Ok_0.0);
            Ok(out)
        },
        Err(e) => Err(e),
    }
}

} // verus!
