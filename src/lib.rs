//! Converts shader functions written in a small, typed subset of Rust into
//! Metal Shading Language source: the global that carries per-frame input is
//! threaded through the functions that read it, method-call idioms become the
//! target's free functions and field reads, and the result is printed as
//! forward declarations followed by definitions.
use vstd::prelude::*;

pub mod adapter;
pub mod analyzer;
pub mod ast;
pub mod carrier;
pub mod laws;
pub mod names;
pub mod prelude;
pub mod printer;
pub mod scan;
pub mod text;

use crate::adapter::{adapted_items, make_rust_ast_msl_compatible};
use crate::analyzer::{fn_items, names_of, usage_sound, EnhanceConfig};
use crate::ast::SourceTree;
use crate::carrier::{carrier_need, convert_constant_to_param, threaded_items};
use crate::printer::{print_ast_into_msl, program_text, TranspileError};

verus! {

/// `r` is the executable form of the printed result `p`.
pub open spec fn output_of(
    p: Result<Seq<char>, TranspileError>,
    r: Result<String, TranspileError>,
) -> bool {
    match p {
        Ok(t) => r matches Ok(s) && s@ == t,
        Err(e) => r == Err::<String, TranspileError>(e),
    }
}

/// Adapts and prints a tree, without threading any global.
pub fn transpile_rust_to_msl(tree: SourceTree) -> (r: Result<String, TranspileError>)
    ensures
        exists|t: SourceTree|
            adapted_items(tree.items@, t.items@) && #[trigger] output_of(program_text(t.items@), r),
{
    let t = make_rust_ast_msl_compatible(tree);
    let r = print_ast_into_msl(&t);
    assert(output_of(program_text(t.items@), r));
    r
}

/// The whole pipeline on a parsed tree: thread the global named by
/// `config`, adapt, print.
pub fn transpile(tree: SourceTree, config: &EnhanceConfig) -> (r: Result<String, TranspileError>)
    ensures
        exists|u: Seq<bool>, t1: SourceTree, t2: SourceTree|
            #![trigger usage_sound(fn_items(tree.items@), config.constant_name@, u), adapted_items(t1.items@, t2.items@), output_of(program_text(t2.items@), r)]
            usage_sound(fn_items(tree.items@), config.constant_name@, u) && threaded_items(
                tree.items@,
                t1.items@,
                carrier_need(names_of(fn_items(tree.items@)), u, config.entry_point_fn_name@),
                config.constant_name@,
                *config,
            ) && adapted_items(t1.items@, t2.items@) && output_of(
                program_text(t2.items@),
                r,
            ),
{
    let ghost items0 = tree.items@;
    let t1 = convert_constant_to_param(tree, config);
    let ghost items1 = t1.items@;
    let t2 = make_rust_ast_msl_compatible(t1);
    let r = print_ast_into_msl(&t2);
    assert(output_of(program_text(t2.items@), r));
    r
}

} // verus!
