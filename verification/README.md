# plansight

Analysis of PostgreSQL query plans, with its core proved by Verus.

- `src/` is the verified library: the plan-tree model (`plan`), its
  depth-first, post-order and breadth-first walks (`analysis::traversal`,
  `analysis::depth_walk`, `analysis::level_order`), the rules of each
  analyser (`analysis::analyzers`), the threshold tables
  (`analysis::consolidated_config`, `analysis::unified_config`), the engine's
  scheduling decisions (`analysis::engine`), export redaction and group spans
  (`export`), the fingerprint cache and the plan grouper (`grouping`), log
  reading limits (`reading`) and the character-level text helpers (`text`).
  Costs are held in hundredths of a cost unit and ratios as exact integer
  comparisons, so every rule is stated over integers.
- `app/` is ordinary Rust around it: the analyser drivers that word the
  findings and compute floating-point evidence, the engine loop, report
  summaries, and JSON export through serde.
- `tests/` runs the library on concrete plans.

Verus runs on `src/lib.rs` as the crate root.
