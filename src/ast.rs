//! The syntax tree of the shader subset: items, statements, patterns,
//! expressions and types, each holding its names as plain strings.
use vstd::prelude::*;

verus! {

/// A type as written in the authoring syntax.
pub enum Type {
    /// A named type with an optional single generic argument (`f32`, `Vec3<f32>`).
    Named { name: String, generic: Option<Box<Type>> },
    /// A reference to a type (`&Input`).
    Ref(Box<Type>),
}

/// A binding pattern of a `let` statement or of a parameter.
pub enum Pattern {
    /// A plain name.
    Ident(String),
    /// A pattern with a type annotation (`x: f32`).
    Typed { inner: Box<Pattern>, ty: Type },
    /// A struct destructuring (`Point { x: a, y: b }`): member and sub-pattern pairs.
    Struct { path: String, fields: Vec<FieldPat> },
    /// The wildcard `_`.
    Wild,
    /// A tuple pattern `(a, b)`.
    Tuple(Vec<Pattern>),
}

/// One member of a struct pattern.
pub struct FieldPat {
    pub member: String,
    pub pat: Pattern,
}

/// An expression.
pub enum Expr {
    /// `receiver.method(args)`.
    MethodCall { receiver: Box<Expr>, method: String, args: Vec<Expr> },
    /// `func(args)` where `func` is a path.
    Call { func: String, args: Vec<Expr> },
    /// `if cond { then } else ...`; an `else` is a block or another `if`.
    If { cond: Box<Expr>, then_branch: Vec<Stmt>, else_branch: Option<Box<Expr>> },
    /// `for var in range { body }`.
    For { var: String, range: Box<Expr>, body: Vec<Stmt> },
    /// `from..to` or `from..=to`.
    Range { from: Box<Expr>, to: Box<Expr>, inclusive: bool },
    /// `while cond { body }`.
    While { cond: Box<Expr>, body: Vec<Stmt> },
    /// `{ stmts }`.
    Block(Vec<Stmt>),
    /// A literal, kept as written.
    Lit(String),
    /// A path such as a variable name.
    Path(String),
    /// `base.member`.
    Field { base: Box<Expr>, member: String },
    /// `(a, b, ...)`.
    Tuple(Vec<Expr>),
    /// `inner as ty`.
    Cast { inner: Box<Expr>, ty: Type },
    /// `return` with an optional value.
    Return(Option<Box<Expr>>),
    /// `lhs op rhs` for a binary operator.
    Binary { op: String, lhs: Box<Expr>, rhs: Box<Expr> },
    /// `op inner` for a unary operator.
    Unary { op: String, inner: Box<Expr> },
    /// `lhs op rhs` for `=` and the compound assignments.
    Assign { op: String, lhs: Box<Expr>, rhs: Box<Expr> },
    /// `(inner)`.
    Paren(Box<Expr>),
}

/// A statement of a block.
pub enum Stmt {
    /// `let pat = init;` or `let pat;`.
    Local { pat: Pattern, init: Option<Expr> },
    /// An expression statement; `semi` tells whether a `;` ends it.
    Expr { expr: Expr, semi: bool },
}

/// A function parameter; `address_space` is printed before its type.
pub struct Param {
    pub pat: Pattern,
    pub ty: Type,
    pub address_space: Option<String>,
}

/// A function item.
pub struct FnItem {
    pub name: String,
    pub params: Vec<Param>,
    pub ret: Option<Type>,
    pub body: Vec<Stmt>,
}

/// A named field of a struct item.
pub struct StructField {
    pub name: String,
    pub ty: Type,
}

/// A struct item with named fields.
pub struct StructItem {
    pub name: String,
    pub fields: Vec<StructField>,
}

/// A top-level item.
pub enum Item {
    Fn(FnItem),
    Struct(StructItem),
    /// A `use` item, dropped from the output.
    Use,
    /// A `const` item, dropped from the output.
    Const,
}

/// A parsed source file: its items in order.
pub struct SourceTree {
    pub items: Vec<Item>,
}

} // verus!
