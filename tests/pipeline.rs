use rust_to_metal_sl::analyzer::{collect_fns, usage_map, EnhanceConfig};
use rust_to_metal_sl::ast::{
    Expr, FieldPat, FnItem, Item, Param, Pattern, SourceTree, Stmt, StructField, StructItem, Type,
};
use rust_to_metal_sl::adapter::make_rust_ast_msl_compatible;
use rust_to_metal_sl::carrier::convert_constant_to_param;
use rust_to_metal_sl::names::{is_accessor, rename_method, scalar_type_keyword, str_eq};
use rust_to_metal_sl::adapter::constructor_name;
use rust_to_metal_sl::printer::{print_ast_into_msl, TranspileError};
use rust_to_metal_sl::{transpile, transpile_rust_to_msl};

fn s(x: &str) -> String {
    x.to_string()
}

fn path(x: &str) -> Expr {
    Expr::Path(s(x))
}

fn lit(x: &str) -> Expr {
    Expr::Lit(s(x))
}

fn call(f: &str, args: Vec<Expr>) -> Expr {
    Expr::Call { func: s(f), args }
}

fn method(recv: Expr, m: &str, args: Vec<Expr>) -> Expr {
    Expr::MethodCall { receiver: Box::new(recv), method: s(m), args }
}

fn named(t: &str) -> Type {
    Type::Named { name: s(t), generic: None }
}

fn param(name: &str, t: Type) -> Param {
    Param { pat: Pattern::Ident(s(name)), ty: t, address_space: None }
}

fn tail(e: Expr) -> Stmt {
    Stmt::Expr { expr: e, semi: false }
}

fn semi(e: Expr) -> Stmt {
    Stmt::Expr { expr: e, semi: true }
}

fn func(name: &str, params: Vec<Param>, ret: Option<Type>, body: Vec<Stmt>) -> Item {
    Item::Fn(FnItem { name: s(name), params, ret, body })
}

fn config() -> EnhanceConfig {
    EnhanceConfig {
        entry_point_fn_name: s("pixel_color"),
        constant_name: s("INPUT"),
        param_type: s("Input"),
    }
}

fn reads_input() -> Expr {
    Expr::Field { base: Box::new(path("INPUT")), member: s("time") }
}

#[test]
fn scenario_pixel_color() {
    let tree = SourceTree {
        items: vec![func(
            "pixel_color",
            vec![param("p", named("Vec2"))],
            Some(named("Vec4")),
            vec![
                Stmt::Local {
                    pat: Pattern::Typed { inner: Box::new(Pattern::Ident(s("d"))), ty: named("f32") },
                    init: Some(method(path("p"), "magnitude", vec![])),
                },
                tail(method(
                    Expr::Tuple(vec![path("d"), path("d"), path("d"), lit("1.0")]),
                    "vec4",
                    vec![],
                )),
            ],
        )],
    };
    let out = transpile_rust_to_msl(tree).unwrap();
    assert!(out.starts_with("float4 pixel_color(float2 p);\n\n"));
    assert!(out.contains("float d = length(p);\n"));
    assert!(out.contains("return float4(d, d, d, 1.0);\n"));
}

#[test]
fn untyped_binding_prints_auto() {
    let tree = SourceTree {
        items: vec![func(
            "f",
            vec![],
            Some(named("f32")),
            vec![
                Stmt::Local { pat: Pattern::Ident(s("d")), init: Some(lit("2.0")) },
                tail(path("d")),
            ],
        )],
    };
    let out = transpile_rust_to_msl(tree).unwrap();
    assert_eq!(out, "float f();\n\nfloat f()\n{\n  auto d = 2.0;\n  return d;\n}\n\n");
}

#[test]
fn declaration_and_definition_share_parameters() {
    let tree = SourceTree {
        items: vec![func(
            "g",
            vec![param("a", named("f32")), param("b", named("u32")), param("c", named("Vec3"))],
            None,
            vec![],
        )],
    };
    let out = print_ast_into_msl(&make_rust_ast_msl_compatible(tree)).unwrap();
    assert_eq!(out, "void g(float a, uint b, float3 c);\n\nvoid g(float a, uint b, float3 c)\n{\n}\n\n");
}

#[test]
fn conditional_binding_becomes_ternary() {
    let e = Expr::If {
        cond: Box::new(path("c")),
        then_branch: vec![tail(path("a"))],
        else_branch: Some(Box::new(Expr::Block(vec![tail(path("b"))]))),
    };
    let tree = SourceTree {
        items: vec![func(
            "f",
            vec![],
            None,
            vec![Stmt::Local {
                pat: Pattern::Typed { inner: Box::new(Pattern::Ident(s("x"))), ty: named("T") },
                init: Some(e),
            }],
        )],
    };
    let out = transpile_rust_to_msl(tree).unwrap();
    assert!(out.contains("  T x = (c) ? a : b;\n"));
    assert!(!out.contains("x = a"));
}

#[test]
fn complex_binding_assigns_each_branch() {
    let e = Expr::If {
        cond: Box::new(path("c")),
        then_branch: vec![semi(call("g", vec![])), tail(path("a"))],
        else_branch: Some(Box::new(Expr::Block(vec![tail(path("b"))]))),
    };
    let tree = SourceTree {
        items: vec![func(
            "f",
            vec![],
            None,
            vec![Stmt::Local {
                pat: Pattern::Typed { inner: Box::new(Pattern::Ident(s("x"))), ty: named("T") },
                init: Some(e),
            }],
        )],
    };
    let out = transpile_rust_to_msl(tree).unwrap();
    assert!(out.contains(
        "  T x;\n  if (c)\n  {\n    g();\n    x = a;\n  }\n  else\n  {\n    x = b;\n  }\n"
    ));
}

#[test]
fn struct_pattern_uses_one_temporary() {
    let tree = SourceTree {
        items: vec![func(
            "f",
            vec![],
            None,
            vec![Stmt::Local {
                pat: Pattern::Struct {
                    path: s("Point"),
                    fields: vec![
                        FieldPat { member: s("x"), pat: Pattern::Ident(s("a")) },
                        FieldPat { member: s("y"), pat: Pattern::Ident(s("b")) },
                    ],
                },
                init: Some(call("makePoint", vec![])),
            }],
        )],
    };
    let out = transpile_rust_to_msl(tree).unwrap();
    assert!(out.contains(
        "  Point __var__0 = makePoint();\n  auto a = __var__0.x;\n  auto b = __var__0.y;\n"
    ));
    assert_eq!(out.matches("makePoint()").count(), 1);
}

#[test]
fn swizzle_becomes_field_read() {
    for m in ["x", "xy", "zyx", "wzyx", "ww"] {
        let tree = SourceTree {
            items: vec![func("f", vec![], None, vec![tail(method(path("v"), m, vec![]))])],
        };
        let out = transpile_rust_to_msl(tree).unwrap();
        assert!(out.contains(&format!("return v.{};", m)));
    }
    assert!(is_accessor("xyzw"));
    assert!(!is_accessor("xyzwx"));
    assert!(!is_accessor("xa"));
    assert!(!is_accessor(""));
}

#[test]
fn range_loops_compare_by_inclusiveness() {
    let mk = |inclusive: bool| SourceTree {
        items: vec![func(
            "f",
            vec![],
            None,
            vec![tail(Expr::For {
                var: s("i"),
                range: Box::new(Expr::Range {
                    from: Box::new(lit("0")),
                    to: Box::new(lit("5")),
                    inclusive,
                }),
                body: vec![],
            })],
        )],
    };
    let open = transpile_rust_to_msl(mk(false)).unwrap();
    assert!(open.contains("for (auto i = 0; i < 5; i++)"));
    let closed = transpile_rust_to_msl(mk(true)).unwrap();
    assert!(closed.contains("for (auto i = 0; i <= 5; i++)"));
}

#[test]
fn non_literal_loop_bound_is_rejected() {
    let tree = SourceTree {
        items: vec![func(
            "f",
            vec![],
            None,
            vec![tail(Expr::For {
                var: s("i"),
                range: Box::new(Expr::Range {
                    from: Box::new(lit("0")),
                    to: Box::new(call("n", vec![])),
                    inclusive: false,
                }),
                body: vec![],
            })],
        )],
    };
    assert_eq!(transpile_rust_to_msl(tree), Err(TranspileError::UnsupportedForLoop));
}

#[test]
fn unsupported_patterns_are_rejected() {
    let wild = SourceTree {
        items: vec![func("f", vec![], None, vec![Stmt::Local { pat: Pattern::Wild, init: None }])],
    };
    assert_eq!(transpile_rust_to_msl(wild), Err(TranspileError::UnsupportedPattern));
    let nested = SourceTree {
        items: vec![func(
            "f",
            vec![],
            None,
            vec![Stmt::Local {
                pat: Pattern::Struct {
                    path: s("P"),
                    fields: vec![FieldPat { member: s("x"), pat: Pattern::Wild }],
                },
                init: None,
            }],
        )],
    };
    assert_eq!(transpile_rust_to_msl(nested), Err(TranspileError::UnsupportedStructMember));
    let arg = SourceTree {
        items: vec![func(
            "f",
            vec![Param { pat: Pattern::Wild, ty: named("f32"), address_space: None }],
            None,
            vec![],
        )],
    };
    assert_eq!(transpile_rust_to_msl(arg), Err(TranspileError::UnsupportedArgument));
}

#[test]
fn renames_and_receiver_order() {
    let tree = SourceTree {
        items: vec![func(
            "f",
            vec![],
            None,
            vec![
                semi(method(path("a"), "mix", vec![path("b"), path("t")])),
                semi(method(path("a"), "max", vec![path("b")])),
                semi(Expr::Cast { inner: Box::new(path("k")), ty: named("f32") }),
                semi(method(path("x"), "vec3i32", vec![])),
            ],
        )],
    };
    let out = transpile_rust_to_msl(tree).unwrap();
    assert!(out.contains("  mix(b, t, a);\n"));
    assert!(out.contains("  fmax(a, b);\n"));
    assert!(out.contains("  k;\n"));
    assert!(out.contains("  int3(x);\n"));
    assert_eq!(rename_method("normalized"), "normalize");
    assert_eq!(rename_method("dot"), "dot");
    assert_eq!(scalar_type_keyword("u8"), Some("uchar"));
    assert_eq!(scalar_type_keyword("bool"), None);
    assert_eq!(constructor_name("vec2u32"), Some(s("uint2")));
    assert_eq!(constructor_name("vec5"), None);
    assert!(str_eq("abc", "abc"));
    assert!(!str_eq("abc", "abd"));
}

#[test]
fn struct_items_are_declared() {
    let tree = SourceTree {
        items: vec![
            Item::Use,
            Item::Struct(StructItem {
                name: s("Input"),
                fields: vec![StructField { name: s("time"), ty: named("f32") }],
            }),
            Item::Const,
        ],
    };
    let out = transpile_rust_to_msl(tree).unwrap();
    assert_eq!(out, "struct Input {\n  float time;\n};\n\n");
}

fn call_graph_tree() -> SourceTree {
    SourceTree {
        items: vec![
            func("leaf", vec![], Some(named("f32")), vec![tail(reads_input())]),
            func("middle", vec![], Some(named("f32")), vec![tail(call("leaf", vec![]))]),
            func("pure", vec![], Some(named("f32")), vec![tail(lit("1.0"))]),
            func(
                "pixel_color",
                vec![param("p", named("Vec2"))],
                Some(named("Vec4")),
                vec![tail(call("middle", vec![])), ],
            ),
        ],
    }
}

#[test]
fn usage_propagates_to_callers() {
    let tree = call_graph_tree();
    let fns = collect_fns(&tree.items);
    let u = usage_map(&fns, &s("INPUT"));
    assert_eq!(u, vec![true, true, false, true]);
    let out = transpile(call_graph_tree(), &config()).unwrap();
    assert!(out.contains("float leaf(constant Input& INPUT);"));
    assert!(out.contains("float middle(constant Input& INPUT);"));
    assert!(out.contains("float pure();"));
    assert!(out.contains("float4 pixel_color(float2 p, constant Input& INPUT);"));
    assert!(out.contains("return middle(INPUT);"));
    assert!(out.contains("return leaf(INPUT);"));
}

#[test]
fn entry_point_always_gets_carrier() {
    let tree = SourceTree {
        items: vec![func("pixel_color", vec![], Some(named("Vec4")), vec![tail(lit("x"))])],
    };
    let out = transpile(tree, &config()).unwrap();
    assert!(out.starts_with("float4 pixel_color(constant Input& INPUT);"));
}

#[test]
fn mutual_recursion_terminates() {
    let tree = SourceTree {
        items: vec![
            func("a", vec![], None, vec![tail(call("b", vec![]))]),
            func("b", vec![], None, vec![tail(call("a", vec![]))]),
            func("c", vec![], None, vec![tail(call("c", vec![]))]),
        ],
    };
    let fns = collect_fns(&tree.items);
    let u = usage_map(&fns, &s("INPUT"));
    assert_eq!(u, vec![false, false, false]);
    let reading = SourceTree {
        items: vec![
            func("a", vec![], None, vec![tail(call("b", vec![]))]),
            func("b", vec![], None, vec![semi(call("a", vec![])), tail(reads_input())]),
        ],
    };
    let fns = collect_fns(&reading.items);
    let u = usage_map(&fns, &s("INPUT"));
    assert_eq!(u.len(), 2);
    assert!(u[1]);
}

#[test]
fn later_definition_wins() {
    let tree = SourceTree {
        items: vec![
            func("h", vec![], None, vec![tail(reads_input())]),
            func("h", vec![], None, vec![tail(lit("0"))]),
            func("k", vec![], None, vec![tail(call("h", vec![]))]),
        ],
    };
    let out = convert_constant_to_param(tree, &config());
    match &out.items[2] {
        Item::Fn(f) => assert!(f.params.is_empty()),
        _ => panic!("expected a function"),
    }
}
