# j2_passes

Verified analyses and rewrites of MIR-shaped function bodies, written in
Verus.

The library (`src/`) holds:

- the control-flow analyses: the control-flow graph with explicit EXIT
  (`cfg`, adjacency lists in `smallvec::SmallVec` behind trusted wrappers in
  `adjacency`), post-dominator sets and the post-dominator tree (`postdom`),
  the control dependence graph (`cdg`), and their text and Graphviz
  renderings (`render`, `report`);
- the parallel-idiom rewrites that turn loops and iterator chains into calls
  of a parallel runtime (`iter_methods`, `combinators`, `for_each`,
  `collect`, `map_methods`, `hashmap_for_each`, `generic_iter`, `fork`,
  `axpy_rewrite`, `reduce_rewrite`, `loop_idioms`, `nested_idioms`,
  `outer_dot`, ...), with the matchers, purity checks (`purity`,
  `macro_walk`) and cost estimate (`cost`) they rely on.

Each rewrite states, over a model of the body (`mir`), exactly which chains
or loops it finds, which of them it rewrites and what the rewritten blocks
hold, and that the body stays well formed. What only the compiler knows
(types, signatures, which runtime helpers exist) comes in as plain input
structs.

`app/` is the thin layer around the library: it checks a body before
analysing it, writes the DOT files and the summary, and logs.

`tests/` runs the library on concrete bodies.
