# mc_cli

The command-line layer of Mosaic (`mc`), split in two.

- `src/` is a Verus library: the argument grammars of every verb, the
  filter grammars of `query --where` and of `simulate`, the metric and
  `--flag-if` grammars, the sweep-axis and stake-sizing grammars, the
  JSON-RPC reader, emitter and request dispatch of `mc mcp`, the
  bet-record reader of `simulate` (JSONL table, schema sidecar, column
  resolution, outcome scoring and record checks) and its replay batches,
  the writes-log reader, the calendar arithmetic, the backtest grid
  numbering, and the text renderings that
  hold no floating point. Every function carries a contract that Verus
  proves; numbers that the commands compute in floating point are kept
  as their source text.
- `app/` is the program around it: `main`, file and terminal I/O, the
  calls into the model, narrative and tessera engines, and the arithmetic
  that needs floating point.
- `tests/` exercise the library on concrete inputs.
