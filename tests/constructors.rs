use rust_to_metal_sl::ast::{Expr, FnItem, Item, SourceTree, Stmt};
use rust_to_metal_sl::transpile_rust_to_msl;

fn lit(x: &str) -> Expr {
    Expr::Lit(x.to_string())
}

fn method(recv: Expr, m: &str) -> Expr {
    Expr::MethodCall { receiver: Box::new(recv), method: m.to_string(), args: vec![] }
}

/// Prints each expression as a statement of one function body.
fn render(exprs: Vec<Expr>) -> String {
    let body = exprs.into_iter().map(|e| Stmt::Expr { expr: e, semi: true }).collect();
    let tree = SourceTree {
        items: vec![Item::Fn(FnItem { name: "f".to_string(), params: vec![], ret: None, body })],
    };
    transpile_rust_to_msl(tree).unwrap()
}

#[test]
fn construct_test() {
    let out = render(vec![
        method(lit("1.0"), "vec3"),
        method(Expr::Tuple(vec![lit("1.0"), lit("2.0"), lit("3.0")]), "vec3"),
        method(Expr::Tuple(vec![method(lit("1.0"), "vec2"), lit("3.0")]), "vec3"),
        method(lit("1"), "vec3i32"),
        method(Expr::Tuple(vec![lit("1"), lit("2"), lit("3")]), "vec3i32"),
        method(Expr::Tuple(vec![method(lit("1"), "vec2i32"), lit("3")]), "vec3i32"),
    ]);
    assert!(out.contains("  float3(1.0);\n"));
    assert!(out.contains("  float3(1.0, 2.0, 3.0);\n"));
    assert!(out.contains("  float3(float2(1.0), 3.0);\n"));
    assert!(out.contains("  int3(1);\n"));
    assert!(out.contains("  int3(1, 2, 3);\n"));
    assert!(out.contains("  int3(int2(1), 3);\n"));
}

#[test]
fn math_test_abs() {
    let out = render(vec![method(lit("1.0f32"), "abs"), method(method(lit("1.0"), "vec2"), "abs")]);
    assert!(out.contains("  abs(1.0f32);\n"));
    assert!(out.contains("  abs(float2(1.0));\n"));
}

#[test]
fn test_cos() {
    let out = render(vec![method(lit("1.0f32"), "cos"), method(method(lit("1.0"), "vec2"), "cos")]);
    assert!(out.contains("  cos(1.0f32);\n"));
    assert!(out.contains("  cos(float2(1.0));\n"));
}
