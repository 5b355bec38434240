//! The tools `mc mcp` serves: their names, the `initialize` and
//! `tools/list` answers, the choice of tool for a `tools/call`, and the
//! shape of a tool's result. Running a tool is the caller's part.
use crate::mcp::dispatch::{get_model, json_clone, member_get};
use crate::mcp::emit::{lemma_json_members_map, lemma_json_models_map};
use crate::mcp::{json_members, json_model, json_models, json_spec, parse_json, JsonModel, JsonValue};
use crate::text::{cat, chars_of, i64_to_string, int_decimal, lit, str_eq, string_of};
use vstd::prelude::*;

verus! {

/// The tools a `tools/call` can run.
#[derive(Debug, Clone, Copy, PartialEq, Eq, Structural)]
pub enum Tool {
    Demo,
    Validate,
    Inspect,
    Lint,
    Test,
    Query,
    Whatif,
    Trace,
    Sweep,
    Diff,
    Write,
    Transform,
}

/// The name a tool is called by.
pub open spec fn tool_name(t: Tool) -> Seq<char> {
    match t {
        Tool::Demo => "mosaic.demo"@,
        Tool::Validate => "mosaic.model.validate"@,
        Tool::Inspect => "mosaic.model.inspect"@,
        Tool::Lint => "mosaic.model.lint"@,
        Tool::Test => "mosaic.model.test"@,
        Tool::Query => "mosaic.model.query"@,
        Tool::Whatif => "mosaic.model.whatif"@,
        Tool::Trace => "mosaic.model.trace"@,
        Tool::Sweep => "mosaic.model.sweep"@,
        Tool::Diff => "mosaic.model.diff"@,
        Tool::Write => "mosaic.model.write"@,
        Tool::Transform => "mosaic.tessera.transform"@,
    }
}

/// The tool called `n`, if any.
pub open spec fn tool_named(n: Seq<char>) -> Option<Tool> {
    if n == tool_name(Tool::Demo) {
        Some(Tool::Demo)
    } else if n == tool_name(Tool::Validate) {
        Some(Tool::Validate)
    } else if n == tool_name(Tool::Inspect) {
        Some(Tool::Inspect)
    } else if n == tool_name(Tool::Lint) {
        Some(Tool::Lint)
    } else if n == tool_name(Tool::Test) {
        Some(Tool::Test)
    } else if n == tool_name(Tool::Query) {
        Some(Tool::Query)
    } else if n == tool_name(Tool::Whatif) {
        Some(Tool::Whatif)
    } else if n == tool_name(Tool::Trace) {
        Some(Tool::Trace)
    } else if n == tool_name(Tool::Sweep) {
        Some(Tool::Sweep)
    } else if n == tool_name(Tool::Diff) {
        Some(Tool::Diff)
    } else if n == tool_name(Tool::Write) {
        Some(Tool::Write)
    } else if n == tool_name(Tool::Transform) {
        Some(Tool::Transform)
    } else {
        None
    }
}

/// The tools in the order `tools/list` advertises them.
pub open spec fn tool_at(i: int) -> Tool {
    if i == 0 {
        Tool::Demo
    } else if i == 1 {
        Tool::Validate
    } else if i == 2 {
        Tool::Inspect
    } else if i == 3 {
        Tool::Lint
    } else if i == 4 {
        Tool::Test
    } else if i == 5 {
        Tool::Query
    } else if i == 6 {
        Tool::Whatif
    } else if i == 7 {
        Tool::Trace
    } else if i == 8 {
        Tool::Sweep
    } else if i == 9 {
        Tool::Diff
    } else if i == 10 {
        Tool::Write
    } else {
        Tool::Transform
    }
}

impl Tool {
    /// The name the tool is called by.
    pub fn name(self) -> (r: &'static str)
        ensures
            r@ == tool_name(self),
    {
        match self {
            Tool::Demo => "mosaic.demo",
            Tool::Validate => "mosaic.model.validate",
            Tool::Inspect => "mosaic.model.inspect",
            Tool::Lint => "mosaic.model.lint",
            Tool::Test => "mosaic.model.test",
            Tool::Query => "mosaic.model.query",
            Tool::Whatif => "mosaic.model.whatif",
            Tool::Trace => "mosaic.model.trace",
            Tool::Sweep => "mosaic.model.sweep",
            Tool::Diff => "mosaic.model.diff",
            Tool::Write => "mosaic.model.write",
            Tool::Transform => "mosaic.tessera.transform",
        }
    }

    /// The tool called `n`.
    pub fn from_name(n: &str) -> (r: Option<Tool>)
        ensures
            r == tool_named(n@),
    {
        if str_eq(n, Tool::Demo.name()) {
            Some(Tool::Demo)
        } else if str_eq(n, Tool::Validate.name()) {
            Some(Tool::Validate)
        } else if str_eq(n, Tool::Inspect.name()) {
            Some(Tool::Inspect)
        } else if str_eq(n, Tool::Lint.name()) {
            Some(Tool::Lint)
        } else if str_eq(n, Tool::Test.name()) {
            Some(Tool::Test)
        } else if str_eq(n, Tool::Query.name()) {
            Some(Tool::Query)
        } else if str_eq(n, Tool::Whatif.name()) {
            Some(Tool::Whatif)
        } else if str_eq(n, Tool::Trace.name()) {
            Some(Tool::Trace)
        } else if str_eq(n, Tool::Sweep.name()) {
            Some(Tool::Sweep)
        } else if str_eq(n, Tool::Diff.name()) {
            Some(Tool::Diff)
        } else if str_eq(n, Tool::Write.name()) {
            Some(Tool::Write)
        } else if str_eq(n, Tool::Transform.name()) {
            Some(Tool::Transform)
        } else {
            None
        }
    }
}

/// Each tool is found again by its name.
pub proof fn law_tool_names_resolve(t: Tool)
    ensures
        tool_named(tool_name(t)) == Some(t),
{
    reveal_strlit("mosaic.demo");
    reveal_strlit("mosaic.model.validate");
    reveal_strlit("mosaic.model.inspect");
    reveal_strlit("mosaic.model.lint");
    reveal_strlit("mosaic.model.test");
    reveal_strlit("mosaic.model.query");
    reveal_strlit("mosaic.model.whatif");
    reveal_strlit("mosaic.model.trace");
    reveal_strlit("mosaic.model.sweep");
    reveal_strlit("mosaic.model.diff");
    reveal_strlit("mosaic.model.write");
    reveal_strlit("mosaic.tessera.transform");
    assert(tool_name(Tool::Demo).len() == 11);
    assert(tool_name(Tool::Transform)[7] == 't');
    assert(tool_name(Tool::Validate)[13] == 'v');
    assert(tool_name(Tool::Inspect)[13] == 'i');
    assert(tool_name(Tool::Lint)[13] == 'l');
    assert(tool_name(Tool::Test)[13] == 't' && tool_name(Tool::Test)[14] == 'e');
    assert(tool_name(Tool::Query)[13] == 'q');
    assert(tool_name(Tool::Whatif)[13] == 'w' && tool_name(Tool::Whatif)[14] == 'h');
    assert(tool_name(Tool::Trace)[13] == 't' && tool_name(Tool::Trace)[14] == 'r');
    assert(tool_name(Tool::Sweep)[13] == 's');
    assert(tool_name(Tool::Diff)[13] == 'd');
    assert(tool_name(Tool::Write)[13] == 'w' && tool_name(Tool::Write)[14] == 'r');
}

// ---------------------------------------------------------------------------
// tools/call
// ---------------------------------------------------------------------------

/// Which tool a `tools/call` runs, with its arguments (an empty object when
/// absent), or the JSON-RPC error for malformed params.
pub open spec fn tools_call_plan(params: JsonModel) -> Result<(Tool, JsonModel), (i64, Seq<char>)> {
    match params {
        JsonModel::Object(ms) => match member_get(ms, "name"@) {
            Some(JsonModel::Str(n)) => match tool_named(n) {
                Some(t) => Ok(
                    (
                        t,
                        match member_get(ms, "arguments"@) {
                            Some(a) => a,
                            None => JsonModel::Object(Seq::empty()),
                        },
                    ),
                ),
                None => Err((-32601i64, "unknown tool: "@ + n)),
            },
            _ => Err((-32602i64, "params.name is required"@)),
        },
        _ => Err((-32602i64, "params must be an object"@)),
    }
}

/// Decide which tool a `tools/call` with these params runs.
pub fn handle_tools_call(params: &JsonValue) -> (r: Result<(Tool, JsonValue), (i64, String)>)
    ensures
        match r {
            Ok((t, a)) => tools_call_plan(json_model(*params)) == Ok::<
                (Tool, JsonModel),
                (i64, Seq<char>),
            >((t, json_model(a))),
            Err((c, m)) => tools_call_plan(json_model(*params)) == Err::<
                (Tool, JsonModel),
                (i64, Seq<char>),
            >((c, m@)),
        },
{
    if params.as_object().is_none() {
        return Err((-32602, lit("params must be an object")));
    }
    let name = match params.get("name") {
        Some(n) => match n.as_str_owned() {
            Some(s) => s,
            None => {
                return Err((-32602, lit("params.name is required")));
            },
        },
        None => {
            return Err((-32602, lit("params.name is required")));
        },
    };
    let args = match params.get("arguments") {
        Some(a) => json_clone(a),
        None => JsonValue::Object(Vec::new()),
    };
    assert(json_members(Seq::<(String, JsonValue)>::empty()) =~= Seq::<
        (Seq<char>, JsonModel),
    >::empty());
    match Tool::from_name(name.as_str()) {
        Some(t) => Ok((t, args)),
        None => Err((-32601, cat("unknown tool: ", name.as_str()))),
    }
}

// ---------------------------------------------------------------------------
// Tool results
// ---------------------------------------------------------------------------

/// What running a tool produced: its exit code, its text output and, for
/// tools that build a diagnostic envelope, that envelope's JSON text.
#[derive(Debug)]
pub struct ToolOutcome {
    pub exit_code: i32,
    pub stdout: String,
    pub structured: Option<String>,
}

/// The `tools/call` result for an outcome: the text (the envelope when
/// there is no other output, less one trailing newline) as the single
/// content item, `isError`, `exit_code`, and the envelope as a JSON value
/// when it parses (as a string when it does not).
pub open spec fn call_result_model(exit_code: i32, stdout: Seq<char>, structured: Option<Seq<char>>) -> JsonModel {
    let content_text = shown_text(stdout, structured);
    let content = JsonModel::Array(
        seq![JsonModel::Object(seq![("type"@, JsonModel::Str("text"@)), ("text"@, JsonModel::Str(content_text))])],
    );
    let fields = seq![
        ("content"@, content),
        ("isError"@, JsonModel::Bool(exit_code != 0)),
        ("exit_code"@, JsonModel::Number(int_decimal(exit_code as int))),
    ];
    JsonModel::Object(
        match structured {
            Some(s) => fields.push(
                (
                    "structured"@,
                    match json_spec(s) {
                        Ok(v) => v,
                        Err(_) => JsonModel::Str(s),
                    },
                ),
            ),
            None => fields,
        },
    )
}

/// A one-member object `{key: value}` pair list, in order.
fn pair(k: &str, v: JsonValue) -> (r: (String, JsonValue))
    ensures
        r.0@ == k@,
        r.1 == v,
{
    (lit(k), v)
}

/// The text a result shows: the output, or the envelope when there is no
/// output, less one trailing newline.
pub open spec fn shown_text(stdout: Seq<char>, structured: Option<Seq<char>>) -> Seq<char> {
    let text = if stdout.len() == 0 && structured is Some {
        structured->0
    } else {
        stdout
    };
    if text.len() > 0 && text.last() == '\n' {
        text.drop_last()
    } else {
        text
    }
}

fn shown_text_of(stdout: &String, structured: &Option<String>) -> (r: String)
    ensures
        r@ == shown_text(stdout@, structured.deep_view()),
{
    let out_chars = chars_of(stdout.as_str());
    let text = if out_chars.len() == 0 && structured.is_some() {
        match structured {
            Some(s) => s.clone(),
            None => String::new(),
        }
    } else {
        stdout.clone()
    };
    let cs = chars_of(text.as_str());
    if cs.len() > 0 && cs[cs.len() - 1] == '\n' {
        let mut t: Vec<char> = Vec::new();
        let mut i: usize = 0;
        let last = cs.len() - 1;
        while i < last
            invariant
                last + 1 == cs@.len(),
                i <= last,
                t@ == cs@.take(i as int),
            decreases cs@.len() - i,
        {
            t.push(cs[i]);
            i += 1;
            assert(t@ =~= cs@.take(i as int));
        }
        assert(t@ =~= cs@.drop_last());
        string_of(&t)
    } else {
        text
    }
}

/// The single content item `[{"type":"text","text":...}]`.
fn content_of(text: String) -> (r: JsonValue)
    ensures
        json_model(r) == JsonModel::Array(
            seq![JsonModel::Object(seq![("type"@, JsonModel::Str("text"@)), ("text"@, JsonModel::Str(text@))])],
        ),
{
    let ghost t = text@;
    let item = JsonValue::Object(
        vec![pair("type", JsonValue::String(lit("text"))), pair("text", JsonValue::String(text))],
    );
    let ghost gi = item;
    let content = JsonValue::Array(vec![item]);
    let ghost gc = content;
    proof {
        reveal_strlit("text");
        if let JsonValue::Object(ims) = gi {
            lemma_json_members_map(ims@);
            assert(json_members(ims@) =~= seq![("type"@, JsonModel::Str("text"@)), ("text"@, JsonModel::Str(t))]);
        }
        if let JsonValue::Array(av) = gc {
            lemma_json_models_map(av@);
            assert(json_models(av@) =~= seq![json_model(gi)]);
        }
    }
    content
}

impl ToolOutcome {
    /// The `tools/call` result object for this outcome.
    pub fn into_call_result(self) -> (r: JsonValue)
        ensures
            json_model(r) == call_result_model(
                self.exit_code,
                self.stdout@,
                self.structured.deep_view(),
            ),
    {
        let text = shown_text_of(&self.stdout, &self.structured);
        let content = content_of(text);
        let ghost gc = content;
        let code = i64_to_string(self.exit_code as i64);
        let mut fields = vec![
            pair("content", content),
            pair("isError", JsonValue::Bool(self.exit_code != 0)),
            pair("exit_code", JsonValue::Number(code)),
        ];
        let ghost base = fields@;
        let ghost base_model = seq![
            ("content"@, json_model(gc)),
            ("isError"@, JsonModel::Bool(self.exit_code != 0)),
            ("exit_code"@, JsonModel::Number(int_decimal(self.exit_code as int))),
        ];
        proof {
            lemma_json_members_map(base);
            assert(json_members(base) =~= base_model);
        }
        match self.structured {
            Some(s) => {
                let ghost sv = s@;
                let v = match parse_json(s.as_str()) {
                    Ok(v) => v,
                    Err(_) => JsonValue::String(s),
                };
                let ghost prev = fields@;
                fields.push(pair("structured", v));
                proof {
                    assert(fields@.drop_last() =~= prev);
                    assert(json_members(fields@) == base_model.push(("structured"@, json_model(v))));
                }
            },
            None => {},
        }
        JsonValue::Object(fields)
    }
}

/// The outcome of a tool that failed before producing anything but a
/// message.
pub fn error_outcome(msg: &str) -> (r: ToolOutcome)
    ensures
        r.exit_code == 1,
        r.stdout@ == msg@,
        r.structured is None,
{
    ToolOutcome { exit_code: 1, stdout: lit(msg), structured: None }
}

// ---------------------------------------------------------------------------
// initialize and tools/list
// ---------------------------------------------------------------------------

/// The `initialize` answer: protocol version, capabilities, server info.
pub open spec fn initialize_model() -> JsonModel {
    JsonModel::Object(
        seq![
            ("protocolVersion"@, JsonModel::Str("2025-03-26"@)),
            ("capabilities"@, JsonModel::Object(seq![("tools"@, JsonModel::Object(Seq::empty()))])),
            (
                "serverInfo"@,
                JsonModel::Object(
                    seq![("name"@, JsonModel::Str("mosaic"@)), ("version"@, JsonModel::Str("0.1.0"@))],
                ),
            ),
        ],
    )
}

/// The answer to `initialize`.
pub fn handle_initialize() -> (r: JsonValue)
    ensures
        json_model(r) == initialize_model(),
{
    let tools = JsonValue::Object(Vec::new());
    let ghost gt = tools;
    let caps = JsonValue::Object(vec![pair("tools", tools)]);
    let ghost gcaps = caps;
    let info = JsonValue::Object(
        vec![pair("name", JsonValue::String(lit("mosaic"))), pair("version", JsonValue::String(lit("0.1.0")))],
    );
    let ghost ginfo = info;
    let r = JsonValue::Object(
        vec![
            pair("protocolVersion", JsonValue::String(lit("2025-03-26"))),
            pair("capabilities", caps),
            pair("serverInfo", info),
        ],
    );
    let ghost gr_final = r;
    proof {
        if let JsonValue::Object(m) = gt {
            lemma_json_members_map(m@);
            assert(json_members(m@) =~= Seq::<(Seq<char>, JsonModel)>::empty());
        }
        if let JsonValue::Object(m) = gcaps {
            lemma_json_members_map(m@);
            assert(json_members(m@) =~= seq![("tools"@, json_model(gt))]);
        }
        if let JsonValue::Object(m) = ginfo {
            lemma_json_members_map(m@);
            assert(json_members(m@) =~= seq![
                ("name"@, JsonModel::Str("mosaic"@)),
                ("version"@, JsonModel::Str("0.1.0"@)),
            ]);
        }
        if let JsonValue::Object(m) = gr_final {
            lemma_json_members_map(m@);
            assert(json_members(m@) =~= seq![
                ("protocolVersion"@, JsonModel::Str("2025-03-26"@)),
                ("capabilities"@, json_model(gcaps)),
                ("serverInfo"@, json_model(ginfo)),
            ]);
        }
    }
    r
}

/// One advertised argument: name, JSON type, description, and whether it
/// is required.
pub open spec fn arg_defs(args: Seq<(&str, &str, &str, bool)>) -> Seq<
    (Seq<char>, Seq<char>, Seq<char>, bool),
> {
    args.map_values(|a: (&str, &str, &str, bool)| (a.0@, a.1@, a.2@, a.3))
}

/// The `properties` of an input schema: each argument with its type and
/// description.
pub open spec fn schema_properties(a: Seq<(Seq<char>, Seq<char>, Seq<char>, bool)>) -> Seq<
    (Seq<char>, JsonModel),
>
    decreases a.len(),
{
    if a.len() == 0 {
        Seq::empty()
    } else {
        schema_properties(a.drop_last()).push(
            (
                a.last().0,
                JsonModel::Object(
                    seq![("type"@, JsonModel::Str(a.last().1)), ("description"@, JsonModel::Str(a.last().2))],
                ),
            ),
        )
    }
}

/// The `required` list of an input schema: the names of the required
/// arguments, in order.
pub open spec fn schema_required(a: Seq<(Seq<char>, Seq<char>, Seq<char>, bool)>) -> Seq<JsonModel>
    decreases a.len(),
{
    if a.len() == 0 {
        Seq::empty()
    } else if a.last().3 {
        schema_required(a.drop_last()).push(JsonModel::Str(a.last().0))
    } else {
        schema_required(a.drop_last())
    }
}

/// A tool descriptor: name, description, and an object input schema.
pub open spec fn descriptor_model(
    name: Seq<char>,
    description: Seq<char>,
    a: Seq<(Seq<char>, Seq<char>, Seq<char>, bool)>,
) -> JsonModel {
    JsonModel::Object(
        seq![
            ("name"@, JsonModel::Str(name)),
            ("description"@, JsonModel::Str(description)),
            (
                "inputSchema"@,
                JsonModel::Object(
                    seq![
                        ("type"@, JsonModel::Str("object"@)),
                        ("properties"@, JsonModel::Object(schema_properties(a))),
                        ("required"@, JsonModel::Array(schema_required(a))),
                    ],
                ),
            ),
        ],
    )
}

/// The descriptor of one tool.
pub fn tool_descriptor(name: &str, description: &str, args: &[(&str, &str, &str, bool)]) -> (r:
    JsonValue)
    ensures
        json_model(r) == descriptor_model(name@, description@, arg_defs(args@)),
{
    let ghost ad = arg_defs(args@);
    let mut props: Vec<(String, JsonValue)> = Vec::new();
    let mut required: Vec<JsonValue> = Vec::new();
    let mut i: usize = 0;
    assert(ad.take(0) =~= Seq::<(Seq<char>, Seq<char>, Seq<char>, bool)>::empty());
    while i < args.len()
        invariant
            i <= args@.len(),
            ad == arg_defs(args@),
            json_members(props@) == schema_properties(ad.take(i as int)),
            json_models(required@) == schema_required(ad.take(i as int)),
        decreases args@.len() - i,
    {
        let (n, t, d, req) = args[i];
        let ghost p = ad.take(i as int + 1);
        assert(p.drop_last() =~= ad.take(i as int));
        assert(p.last() == (n@, t@, d@, req));
        let entry = JsonValue::Object(
            vec![pair("type", JsonValue::String(lit(t))), pair("description", JsonValue::String(lit(d)))],
        );
        let ghost ge = entry;
        proof {
            if let JsonValue::Object(m) = ge {
                lemma_json_members_map(m@);
                assert(json_members(m@) =~= seq![
                    ("type"@, JsonModel::Str(t@)),
                    ("description"@, JsonModel::Str(d@)),
                ]);
            }
        }
        assert(ad[i as int] == (n@, t@, d@, req));
        let ghost prev_p = props@;
        props.push(pair(n, entry));
        assert(props@.drop_last() =~= prev_p);
        assert(json_members(props@) == json_members(prev_p).push((n@, json_model(ge))));
        assert(schema_properties(p) == schema_properties(ad.take(i as int)).push(
            (
                n@,
                JsonModel::Object(
                    seq![("type"@, JsonModel::Str(t@)), ("description"@, JsonModel::Str(d@))],
                ),
            ),
        ));
        let ghost prev_r = required@;
        if req {
            let sv = JsonValue::String(lit(n));
            let ghost gsv = sv;
            required.push(sv);
            assert(required@.drop_last() =~= prev_r);
            assert(required@.last() == gsv);
            assert(json_model(gsv) == JsonModel::Str(n@));
            assert(json_models(required@) == json_models(prev_r).push(JsonModel::Str(n@)));
        }
        assert(schema_required(p) == (if req {
            schema_required(ad.take(i as int)).push(JsonModel::Str(n@))
        } else {
            schema_required(ad.take(i as int))
        }));
        i += 1;
    }
    assert(ad.take(args@.len() as int) =~= ad);
    let ghost gp = props;
    let ghost gr = required;
    let schema = JsonValue::Object(
        vec![
            pair("type", JsonValue::String(lit("object"))),
            pair("properties", JsonValue::Object(props)),
            pair("required", JsonValue::Array(required)),
        ],
    );
    let ghost gs = schema;
    let r = JsonValue::Object(
        vec![
            pair("name", JsonValue::String(lit(name))),
            pair("description", JsonValue::String(lit(description))),
            pair("inputSchema", schema),
        ],
    );
    let ghost gr_final = r;
    proof {
        if let JsonValue::Object(m) = gs {
            lemma_json_members_map(m@);
            assert(json_members(m@) =~= seq![
                ("type"@, JsonModel::Str("object"@)),
                ("properties"@, JsonModel::Object(json_members(gp@))),
                ("required"@, JsonModel::Array(json_models(gr@))),
            ]);
        }
        if let JsonValue::Object(m) = gr_final {
            lemma_json_members_map(m@);
            assert(json_members(m@) =~= seq![
                ("name"@, JsonModel::Str(name@)),
                ("description"@, JsonModel::Str(description@)),
                ("inputSchema"@, json_model(gs)),
            ]);
        }
    }
    r
}

/// The description each tool is advertised with.
pub open spec fn tool_description(t: Tool) -> Seq<char> {
    match t {
        Tool::Demo => "Run the Acme demo end-to-end. Optional `model_path` routes through mc_model::load instead of the Rust fixture path."@,
        Tool::Validate => "Parse + structural + fixture/CSV validation. Returns the Phase 3B diagnostic JSON envelope."@,
        Tool::Inspect => "Render the model summary (dim counts, measures, rules, hierarchies, golden count, canonical inputs row count, diagnostics)."@,
        Tool::Lint => "Run advisory MC3xxx lint rules. Returns the same diagnostic envelope shape as validate."@,
        Tool::Test => "Run goldens. Returns the {schema_version, skipped, goldens[]} envelope."@,
        Tool::Query => "Query cells by coordinate filter. Returns matching rows with values. Supports --where filters, --show columns, --aggregate functions."@,
        Tool::Whatif => "Override one input cell, report deltas on dependent measures. Read-only operation (auto-rollbacks)."@,
        Tool::Trace => "Show the hierarchical computation tree for one derived cell. Traces all the way to input values."@,
        Tool::Sweep => "Parameter sensitivity analysis. Loop over a range of values, evaluate a metric at each point, report optimal."@,
        Tool::Diff => "Compare two cube states. Reports cells where values differ, sorted by |delta|."@,
        Tool::Write => "Set one cell value and persist to the .tessera/writes.jsonl sidecar log."@,
        Tool::Transform => "Convert raw data (file or URL) to model-compatible format using a recipe. Simple GET for URLs."@,
    }
}

/// The arguments each tool is advertised with: name, JSON type,
/// description, and whether it is required.
pub open spec fn tool_args(t: Tool) -> Seq<(Seq<char>, Seq<char>, Seq<char>, bool)> {
    match t {
        Tool::Demo => seq![
            ("model_path"@, "string"@, "Optional path to a Mosaic YAML model. If omitted, runs the canonical Rust fixture demo."@, false),
        ],
        Tool::Validate => seq![
            ("path"@, "string"@, "Path to a Mosaic YAML model."@, true),
        ],
        Tool::Inspect => seq![
            ("path"@, "string"@, "Path to a Mosaic YAML model."@, true),
            ("format"@, "string"@, "Output format: 'text' (default) or 'json'."@, false),
        ],
        Tool::Lint => seq![
            ("path"@, "string"@, "Path to a Mosaic YAML model."@, true),
            ("deny_warnings"@, "boolean"@, "If true, exit_code is 1 when any warnings fire."@, false),
        ],
        Tool::Test => seq![
            ("path"@, "string"@, "Path to a Mosaic YAML model."@, true),
            ("fixture"@, "string"@, "Optional --fixture <name> filter (filter-only semantic)."@, false),
        ],
        Tool::Query => seq![
            ("path"@, "string"@, "Path to a Mosaic YAML model."@, true),
            ("where"@, "string"@, "Filter expression (e.g., \"EV_Per_Dollar > 0.03 and Game == 'LAL_at_BOS'\")."@, false),
            ("show"@, "string"@, "Comma-separated measure names to include in output."@, false),
            ("coord"@, "string"@, "Single coordinate for exact lookup (e.g., \"Scenario=Base,Version=Working,...,Measure=EV_Per_Dollar\")."@, false),
            ("aggregate"@, "string"@, "Comma-separated aggregate functions (e.g., \"mean(Abs_Error),sum(Profit_Units)\")."@, false),
            ("format"@, "string"@, "Output format: 'json' (default), 'csv', or 'text'."@, false),
            ("limit"@, "integer"@, "Max rows to return (default 10000). JSON numbers preferred; numeric strings also accepted for backward compat."@, false),
            ("offset"@, "integer"@, "Skip the first N matches before applying limit (default 0). Use with `limit` for forward pagination."@, false),
        ],
        Tool::Whatif => seq![
            ("path"@, "string"@, "Path to a Mosaic YAML model."@, true),
            ("set_coord"@, "string"@, "Coordinate of the cell to override (e.g., \"Scenario=Base,...,Measure=Market_Line\")."@, true),
            ("value"@, "number"@, "New numeric value to set. JSON numbers preferred; numeric strings also accepted for backward compat."@, true),
            ("show"@, "string"@, "Comma-separated measure names to report before/after/delta."@, true),
        ],
        Tool::Trace => seq![
            ("path"@, "string"@, "Path to a Mosaic YAML model."@, true),
            ("coord"@, "string"@, "Coordinate of the cell to trace (e.g., \"Scenario=Base,...,Measure=EV_Per_Dollar\")."@, true),
            ("depth"@, "integer"@, "Max trace depth (default unlimited). JSON integers preferred; integer-valued strings also accepted for backward compat."@, false),
        ],
        Tool::Sweep => seq![
            ("path"@, "string"@, "Path to a Mosaic YAML model."@, true),
            ("model"@, "string"@, "Fitted model name (for coefficient sweep)."@, false),
            ("coefficient"@, "string"@, "Coefficient feature name to sweep."@, false),
            ("set"@, "string"@, "Cell coordinate to override (alternative to coefficient sweep)."@, false),
            ("range"@, "string"@, "Range spec: start:end:step (e.g., \"0:5:0.5\")."@, true),
            ("metric"@, "string"@, "Metric function (e.g., \"mean(Abs_Error)\")."@, true),
            ("goal"@, "string"@, "Optimization goal: 'minimize' or 'maximize'."@, true),
        ],
        Tool::Diff => seq![
            ("path"@, "string"@, "Path to a Mosaic YAML model."@, true),
            ("left"@, "string"@, "Left state filter (e.g., \"Scenario=Base\")."@, true),
            ("right"@, "string"@, "Right state filter (e.g., \"Scenario=Forecast\")."@, true),
            ("limit"@, "integer"@, "Max changes to report (default 50). JSON integers preferred; numeric strings also accepted."@, false),
        ],
        Tool::Write => seq![
            ("path"@, "string"@, "Path to a Mosaic YAML model."@, true),
            ("coord"@, "string"@, "Coordinate of the cell to write."@, true),
            ("value"@, "number"@, "New numeric value. JSON numbers preferred; numeric strings also accepted for backward compat."@, true),
            ("dry_run"@, "boolean"@, "If true, show what would change without writing."@, false),
        ],
        Tool::Transform => seq![
            ("source"@, "string"@, "Source file path or URL."@, true),
            ("recipe"@, "string"@, "Path to the transform recipe YAML."@, true),
            ("output"@, "string"@, "Output file path. Omit for stdout."@, false),
            ("format"@, "string"@, "Output format: 'csv' (default) or 'json'."@, false),
            ("preview"@, "integer"@, "Preview N rows without writing output file. JSON integers preferred; numeric strings also accepted."@, false),
        ],
    }
}

/// The descriptor a tool is advertised with.
pub open spec fn catalog_entry(t: Tool) -> JsonModel {
    descriptor_model(tool_name(t), tool_description(t), tool_args(t))
}

/// `d` describes tool `t`: its name, description and argument schema
/// are those of the catalog.
pub open spec fn advertised(d: JsonModel, t: Tool) -> bool {
    d == catalog_entry(t)
}

/// The `tools/list` answer lists every tool, in order, each with its
/// catalog descriptor.
pub open spec fn lists_every_tool(v: JsonModel) -> bool {
    match v {
        JsonModel::Object(ms) => ms.len() == 1 && ms[0].0 == "tools"@ && match ms[0].1 {
            JsonModel::Array(ds) => ds.len() == 12 && forall|i: int|
                0 <= i < 12 ==> advertised(#[trigger] ds[i], tool_at(i)),
            _ => false,
        },
        _ => false,
    }
}

/// The `tools/list` answer: every tool's catalog descriptor, in order.
pub open spec fn tools_list_model() -> JsonModel {
    JsonModel::Object(seq![("tools"@, JsonModel::Array(Seq::new(12, |i: int| catalog_entry(tool_at(i)))))])
}

/// The answer to `tools/list`.
#[verifier::rlimit(40)]
pub fn handle_tools_list() -> (r: JsonValue)
    ensures
        lists_every_tool(json_model(r)),
        json_model(r) == tools_list_model(),
{
    let mut tools: Vec<JsonValue> = Vec::new();
    let args = [
            ("model_path", "string", "Optional path to a Mosaic YAML model. If omitted, runs the canonical Rust fixture demo.", false),
        ];
    assert(arg_defs(args@) =~= tool_args(Tool::Demo));
    let d = tool_descriptor(
        Tool::Demo.name(),
        "Run the Acme demo end-to-end. Optional `model_path` routes through mc_model::load instead of the Rust fixture path.",
        &args,
    );
    let ghost dm = json_model(d);
    tools.push(d);
    assert(json_model(tools@[0]) == dm);
    assert(advertised(dm, tool_at(0)));
    let args = [
            ("path", "string", "Path to a Mosaic YAML model.", true),
        ];
    assert(arg_defs(args@) =~= tool_args(Tool::Validate));
    let d = tool_descriptor(
        Tool::Validate.name(),
        "Parse + structural + fixture/CSV validation. Returns the Phase 3B diagnostic JSON envelope.",
        &args,
    );
    let ghost dm = json_model(d);
    tools.push(d);
    assert(json_model(tools@[1]) == dm);
    assert(advertised(dm, tool_at(1)));
    let args = [
            ("path", "string", "Path to a Mosaic YAML model.", true),
            ("format", "string", "Output format: 'text' (default) or 'json'.", false),
        ];
    assert(arg_defs(args@) =~= tool_args(Tool::Inspect));
    let d = tool_descriptor(
        Tool::Inspect.name(),
        "Render the model summary (dim counts, measures, rules, hierarchies, golden count, canonical inputs row count, diagnostics).",
        &args,
    );
    let ghost dm = json_model(d);
    tools.push(d);
    assert(json_model(tools@[2]) == dm);
    assert(advertised(dm, tool_at(2)));
    let args = [
            ("path", "string", "Path to a Mosaic YAML model.", true),
            ("deny_warnings", "boolean", "If true, exit_code is 1 when any warnings fire.", false),
        ];
    assert(arg_defs(args@) =~= tool_args(Tool::Lint));
    let d = tool_descriptor(
        Tool::Lint.name(),
        "Run advisory MC3xxx lint rules. Returns the same diagnostic envelope shape as validate.",
        &args,
    );
    let ghost dm = json_model(d);
    tools.push(d);
    assert(json_model(tools@[3]) == dm);
    assert(advertised(dm, tool_at(3)));
    let args = [
            ("path", "string", "Path to a Mosaic YAML model.", true),
            ("fixture", "string", "Optional --fixture <name> filter (filter-only semantic).", false),
        ];
    assert(arg_defs(args@) =~= tool_args(Tool::Test));
    let d = tool_descriptor(
        Tool::Test.name(),
        "Run goldens. Returns the {schema_version, skipped, goldens[]} envelope.",
        &args,
    );
    let ghost dm = json_model(d);
    tools.push(d);
    assert(json_model(tools@[4]) == dm);
    assert(advertised(dm, tool_at(4)));
    let args = [
            ("path", "string", "Path to a Mosaic YAML model.", true),
            ("where", "string", "Filter expression (e.g., \"EV_Per_Dollar > 0.03 and Game == 'LAL_at_BOS'\").", false),
            ("show", "string", "Comma-separated measure names to include in output.", false),
            ("coord", "string", "Single coordinate for exact lookup (e.g., \"Scenario=Base,Version=Working,...,Measure=EV_Per_Dollar\").", false),
            ("aggregate", "string", "Comma-separated aggregate functions (e.g., \"mean(Abs_Error),sum(Profit_Units)\").", false),
            ("format", "string", "Output format: 'json' (default), 'csv', or 'text'.", false),
            ("limit", "integer", "Max rows to return (default 10000). JSON numbers preferred; numeric strings also accepted for backward compat.", false),
            ("offset", "integer", "Skip the first N matches before applying limit (default 0). Use with `limit` for forward pagination.", false),
        ];
    assert(arg_defs(args@) =~= tool_args(Tool::Query));
    let d = tool_descriptor(
        Tool::Query.name(),
        "Query cells by coordinate filter. Returns matching rows with values. Supports --where filters, --show columns, --aggregate functions.",
        &args,
    );
    let ghost dm = json_model(d);
    tools.push(d);
    assert(json_model(tools@[5]) == dm);
    assert(advertised(dm, tool_at(5)));
    let args = [
            ("path", "string", "Path to a Mosaic YAML model.", true),
            ("set_coord", "string", "Coordinate of the cell to override (e.g., \"Scenario=Base,...,Measure=Market_Line\").", true),
            ("value", "number", "New numeric value to set. JSON numbers preferred; numeric strings also accepted for backward compat.", true),
            ("show", "string", "Comma-separated measure names to report before/after/delta.", true),
        ];
    assert(arg_defs(args@) =~= tool_args(Tool::Whatif));
    let d = tool_descriptor(
        Tool::Whatif.name(),
        "Override one input cell, report deltas on dependent measures. Read-only operation (auto-rollbacks).",
        &args,
    );
    let ghost dm = json_model(d);
    tools.push(d);
    assert(json_model(tools@[6]) == dm);
    assert(advertised(dm, tool_at(6)));
    let args = [
            ("path", "string", "Path to a Mosaic YAML model.", true),
            ("coord", "string", "Coordinate of the cell to trace (e.g., \"Scenario=Base,...,Measure=EV_Per_Dollar\").", true),
            ("depth", "integer", "Max trace depth (default unlimited). JSON integers preferred; integer-valued strings also accepted for backward compat.", false),
        ];
    assert(arg_defs(args@) =~= tool_args(Tool::Trace));
    let d = tool_descriptor(
        Tool::Trace.name(),
        "Show the hierarchical computation tree for one derived cell. Traces all the way to input values.",
        &args,
    );
    let ghost dm = json_model(d);
    tools.push(d);
    assert(json_model(tools@[7]) == dm);
    assert(advertised(dm, tool_at(7)));
    let args = [
            ("path", "string", "Path to a Mosaic YAML model.", true),
            ("model", "string", "Fitted model name (for coefficient sweep).", false),
            ("coefficient", "string", "Coefficient feature name to sweep.", false),
            ("set", "string", "Cell coordinate to override (alternative to coefficient sweep).", false),
            ("range", "string", "Range spec: start:end:step (e.g., \"0:5:0.5\").", true),
            ("metric", "string", "Metric function (e.g., \"mean(Abs_Error)\").", true),
            ("goal", "string", "Optimization goal: 'minimize' or 'maximize'.", true),
        ];
    assert(arg_defs(args@) =~= tool_args(Tool::Sweep));
    let d = tool_descriptor(
        Tool::Sweep.name(),
        "Parameter sensitivity analysis. Loop over a range of values, evaluate a metric at each point, report optimal.",
        &args,
    );
    let ghost dm = json_model(d);
    tools.push(d);
    assert(json_model(tools@[8]) == dm);
    assert(advertised(dm, tool_at(8)));
    let args = [
            ("path", "string", "Path to a Mosaic YAML model.", true),
            ("left", "string", "Left state filter (e.g., \"Scenario=Base\").", true),
            ("right", "string", "Right state filter (e.g., \"Scenario=Forecast\").", true),
            ("limit", "integer", "Max changes to report (default 50). JSON integers preferred; numeric strings also accepted.", false),
        ];
    assert(arg_defs(args@) =~= tool_args(Tool::Diff));
    let d = tool_descriptor(
        Tool::Diff.name(),
        "Compare two cube states. Reports cells where values differ, sorted by |delta|.",
        &args,
    );
    let ghost dm = json_model(d);
    tools.push(d);
    assert(json_model(tools@[9]) == dm);
    assert(advertised(dm, tool_at(9)));
    let args = [
            ("path", "string", "Path to a Mosaic YAML model.", true),
            ("coord", "string", "Coordinate of the cell to write.", true),
            ("value", "number", "New numeric value. JSON numbers preferred; numeric strings also accepted for backward compat.", true),
            ("dry_run", "boolean", "If true, show what would change without writing.", false),
        ];
    assert(arg_defs(args@) =~= tool_args(Tool::Write));
    let d = tool_descriptor(
        Tool::Write.name(),
        "Set one cell value and persist to the .tessera/writes.jsonl sidecar log.",
        &args,
    );
    let ghost dm = json_model(d);
    tools.push(d);
    assert(json_model(tools@[10]) == dm);
    assert(advertised(dm, tool_at(10)));
    let args = [
            ("source", "string", "Source file path or URL.", true),
            ("recipe", "string", "Path to the transform recipe YAML.", true),
            ("output", "string", "Output file path. Omit for stdout.", false),
            ("format", "string", "Output format: 'csv' (default) or 'json'.", false),
            ("preview", "integer", "Preview N rows without writing output file. JSON integers preferred; numeric strings also accepted.", false),
        ];
    assert(arg_defs(args@) =~= tool_args(Tool::Transform));
    let d = tool_descriptor(
        Tool::Transform.name(),
        "Convert raw data (file or URL) to model-compatible format using a recipe. Simple GET for URLs.",
        &args,
    );
    let ghost dm = json_model(d);
    tools.push(d);
    assert(json_model(tools@[11]) == dm);
    assert(advertised(dm, tool_at(11)));
    let ghost all = tools@;
    let list = JsonValue::Array(tools);
    let ghost gl = list;
    let r = JsonValue::Object(vec![pair("tools", list)]);
    let ghost gr_final = r;
    proof {
        lemma_json_models_map(all);
        if let JsonValue::Object(m) = gr_final {
            lemma_json_members_map(m@);
            assert(json_members(m@) =~= seq![("tools"@, json_model(gl))]);
        }
        let ds = json_models(all);
        assert forall|i: int| 0 <= i < 12 implies advertised(#[trigger] ds[i], tool_at(i)) by {
            assert(ds[i] == json_model(all[i]));
        }
        assert(ds =~= Seq::new(12, |i: int| catalog_entry(tool_at(i))));
    }
    r
}

/// Every tool `tools/list` advertises can be called by the name it is
/// advertised under: a `tools/call` with that name runs that tool, with
/// the given arguments.
pub proof fn law_listed_tools_are_callable(list: JsonModel, i: int, args: JsonModel)
    requires
        lists_every_tool(list),
        0 <= i < 12,
    ensures
        match list {
            JsonModel::Object(ms) => match ms[0].1 {
                JsonModel::Array(ds) => match get_model(ds[i], "name"@) {
                    Some(JsonModel::Str(n)) => tools_call_plan(
                        JsonModel::Object(seq![("name"@, JsonModel::Str(n)), ("arguments"@, args)]),
                    ) == Ok::<(Tool, JsonModel), (i64, Seq<char>)>((tool_at(i), args)),
                    _ => false,
                },
                _ => false,
            },
            _ => false,
        },
{
    reveal_strlit("name");
    reveal_strlit("arguments");
    reveal_with_fuel(member_get, 3);
    let ms = list->Object_0;
    let ds = ms[0].1->Array_0;
    let t = tool_at(i);
    assert(advertised(ds[i], t));
    let (desc, a) = choose|desc: Seq<char>, a: Seq<(Seq<char>, Seq<char>, Seq<char>, bool)>|
        ds[i] == #[trigger] descriptor_model(tool_name(t), desc, a);
    let dm = ds[i]->Object_0;
    let one = dm.drop_last().drop_last();
    assert(one =~= seq![("name"@, JsonModel::Str(tool_name(t)))]);
    assert(one.drop_last() =~= Seq::<(Seq<char>, JsonModel)>::empty());
    assert(member_get(one, "name"@) == Some(JsonModel::Str(tool_name(t))));
    assert(member_get(dm.drop_last(), "name"@) == Some(JsonModel::Str(tool_name(t))));
    assert(member_get(dm, "name"@) == Some(JsonModel::Str(tool_name(t))));
    let call = seq![("name"@, JsonModel::Str(tool_name(t))), ("arguments"@, args)];
    assert(call.drop_last() =~= seq![("name"@, JsonModel::Str(tool_name(t)))]);
    assert(call.drop_last().drop_last() =~= Seq::<(Seq<char>, JsonModel)>::empty());
    assert(member_get(call, "name"@) == Some(JsonModel::Str(tool_name(t))));
    assert("name"@.len() == 4 && "arguments"@.len() == 9);
    assert(member_get(call.drop_last(), "arguments"@) is None);
    assert(member_get(call, "arguments"@) == Some(args));
    law_tool_names_resolve(t);
}

} // verus!
