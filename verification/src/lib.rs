//! Control-flow analyses of MIR bodies (control-flow graph, post-dominator
//! tree, control dependence graph) and the pattern analyses that decide
//! which loops and calls can be run in parallel.
use vstd::prelude::*;

pub mod mir;
pub mod adjacency;
pub mod cfg;
pub mod postdom;
pub mod cdg;
pub mod text;
pub mod idioms;
pub mod render;
pub mod detect;
pub mod induction;
pub mod purity;
pub mod chains;
pub mod shape;
pub mod gates;
pub mod report;
pub mod invoke;
pub mod axpy;
pub mod cost;
pub mod iter_methods;
pub mod apply_loops;
pub mod zip_loops;
pub mod reduce_loops;
pub mod matvec;
pub mod grid_loops;
pub mod fork;
pub mod combinators;
pub mod for_each;
pub mod collect;
pub mod map_methods;
pub mod hashmap_for_each;
pub mod loop_call;
pub mod loop_idioms;
pub mod nested_idioms;
pub mod axpy_rewrite;
pub mod reduce_rewrite;
pub mod outer_dot;
pub mod generic_iter;
pub mod macro_walk;

verus! {
}
