use vstd::prelude::*;

pub mod text;
pub mod eval_common;
pub mod escape;
pub mod coord_map;
pub mod simulate;
pub mod narrate;
pub mod narrate_trends;
pub mod build_benchmarks;
pub mod query;
pub mod mcp;
pub mod cli;
pub mod backtest;
pub mod grade;
pub mod sweep;
pub mod diff;
pub mod ledger_export;
pub mod show_benchmarks;
pub mod query_ledger;
pub mod ledger_rows;
pub mod context_events;
pub mod tessera;
pub mod loader;
pub mod simulate_reader;
pub mod simulate_metrics;
pub mod simulate_command;

verus! {
}
