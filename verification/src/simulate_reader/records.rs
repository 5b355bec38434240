//! Reading bet records: the JSONL table and the `<records>.schema.json`
//! sidecar (each text parsed by `serde_json`), the resolution of the five
//! required columns, and the checks made on every record. Reading the
//! files, and reading numbers as floats, is the caller's part; its
//! verdicts on each record's numbers are handed in as [`RowReading`]s.
use crate::coord_map::{as_map, sorted_insert, CoordMap};
use crate::simulate::{timestamp_key, timestamp_key_of, Outcome, TimeKey};
use crate::simulate_reader::{
    cell_models, detect_outcome_kind, kind_of, missing_col, missing_col_spec, normalize_outcome, normalize_spec,
    outcome_plan_spec, plan_outcome, resolve_column, resolve_spec, DerivePushes, OutcomeCell, OutcomeCellModel,
    OutcomeMode, OutcomeModeRequest, OutcomeValue, OutcomeValueModel,
};
use crate::text::{
    chars_of, debug_str, lit, nat_decimal, push_str, split_chars, split_on, str_debug, str_eq, string_of, trim,
    trim_chars, usize_to_string,
};
use vstd::prelude::*;

verus! {

/// A member value of a JSON object as the reader keeps it: a number is its
/// text, and a nested array or object is its compact JSON text.
#[derive(Debug, Clone)]
pub enum JsonCell {
    Null,
    Bool(bool),
    Number(String),
    Text(String),
    Nested(String),
}

pub enum CellModel {
    Null,
    Bool(bool),
    Number(Seq<char>),
    Text(Seq<char>),
    Nested(Seq<char>),
}

impl JsonCell {
    pub open spec fn model(&self) -> CellModel {
        match self {
            JsonCell::Null => CellModel::Null,
            JsonCell::Bool(b) => CellModel::Bool(*b),
            JsonCell::Number(t) => CellModel::Number(t@),
            JsonCell::Text(t) => CellModel::Text(t@),
            JsonCell::Nested(t) => CellModel::Nested(t@),
        }
    }
}

pub open spec fn members_model(v: Seq<(String, JsonCell)>) -> Seq<(Seq<char>, CellModel)> {
    v.map_values(|p: (String, JsonCell)| (p.0@, p.1.model()))
}

/// What `serde_json` makes of a text: its error message, a value that is
/// not an object (`None`), or an object's members in `serde_json`'s
/// iteration order.
pub uninterp spec fn serde_object(text: Seq<char>) -> Result<Option<Seq<(Seq<char>, CellModel)>>, Seq<char>>;

/// `serde_json::from_str::<Value>`, kept to what the reader uses: the
/// error's message, or whether the value is an object and then its
/// members, each scalar as it is (a number by its `Display` text) and each
/// nested value by its `Display` text. The result is named by
/// [`serde_object`], of which nothing more is stated.
#[verifier::external_body]
pub(crate) fn parse_object(text: &str) -> (r: Result<Option<Vec<(String, JsonCell)>>, String>)
    ensures
        match r {
            Ok(Some(ms)) => serde_object(text@) == Ok::<Option<Seq<(Seq<char>, CellModel)>>, Seq<char>>(
                Some(members_model(ms@)),
            ),
            Ok(None) => serde_object(text@) == Ok::<Option<Seq<(Seq<char>, CellModel)>>, Seq<char>>(None),
            Err(e) => serde_object(text@) == Err::<Option<Seq<(Seq<char>, CellModel)>>, Seq<char>>(e@),
        },
{
    match serde_json::from_str::<serde_json::Value>(text) {
        Err(e) => Err(e.to_string()),
        Ok(serde_json::Value::Object(m)) => Ok(Some(m.into_iter().map(|(k, v)| (k, match v {
            serde_json::Value::Null => JsonCell::Null,
            serde_json::Value::Bool(b) => JsonCell::Bool(b),
            serde_json::Value::Number(n) => JsonCell::Number(n.to_string()),
            serde_json::Value::String(s) => JsonCell::Text(s),
            other => JsonCell::Nested(other.to_string()),
        })).collect())),
        Ok(_) => Ok(None),
    }
}

// ---------------------------------------------------------------------------
// The sidecar
// ---------------------------------------------------------------------------

/// The string-valued members, as a name-keyed map (later members win).
pub open spec fn text_members(ms: Seq<(Seq<char>, CellModel)>) -> Seq<(Seq<char>, Seq<char>)>
    decreases ms.len(),
{
    if ms.len() == 0 {
        Seq::empty()
    } else {
        let p = text_members(ms.drop_last());
        match ms.last().1 {
            CellModel::Text(s) => sorted_insert(p, ms.last().0, s),
            _ => p,
        }
    }
}

/// The overrides a sidecar text at path `sidecar` holds: a JSON object
/// mapping canonical names to source names; members that are not strings
/// are ignored.
pub open spec fn sidecar_spec(text: Seq<char>, sidecar: Seq<char>) -> Result<Seq<(Seq<char>, Seq<char>)>, Seq<char>> {
    match serde_object(text) {
        Err(e) => Err("sidecar "@ + sidecar + " is not valid JSON: "@ + e),
        Ok(None) => Err("sidecar "@ + sidecar + " must be a JSON object of canonical→source"@),
        Ok(Some(ms)) => Ok(text_members(ms)),
    }
}

/// Read a sidecar's text.
pub fn sidecar_overrides(text: &str, sidecar: &str) -> (r: Result<CoordMap, String>)
    ensures
        match r {
            Ok(m) => sidecar_spec(text@, sidecar@) == Ok::<Seq<(Seq<char>, Seq<char>)>, Seq<char>>(m@),
            Err(e) => sidecar_spec(text@, sidecar@) == Err::<Seq<(Seq<char>, Seq<char>)>, Seq<char>>(e@),
        },
{
    match parse_object(text) {
        Err(e) => {
            let mut m = lit("sidecar ");
            push_str(&mut m, sidecar);
            push_str(&mut m, " is not valid JSON: ");
            push_str(&mut m, e.as_str());
            Err(m)
        },
        Ok(None) => {
            let mut m = lit("sidecar ");
            push_str(&mut m, sidecar);
            push_str(&mut m, " must be a JSON object of canonical→source");
            Err(m)
        },
        Ok(Some(ms)) => {
            let ghost mm = members_model(ms@);
            let mut out = CoordMap::new();
            let mut i: usize = 0;
            assert(mm.take(0) =~= Seq::<(Seq<char>, CellModel)>::empty());
            while i < ms.len()
                invariant
                    i <= ms@.len() == mm.len(),
                    mm == members_model(ms@),
                    out@ == text_members(mm.take(i as int)),
                decreases ms@.len() - i,
            {
                assert(mm.take(i + 1).drop_last() =~= mm.take(i as int));
                assert(mm.take(i + 1).last() == (ms@[i as int].0@, ms@[i as int].1.model()));
                match &ms[i].1 {
                    JsonCell::Text(s) => out.insert(ms[i].0.clone(), s.clone()),
                    _ => {},
                }
                i += 1;
            }
            assert(mm.take(mm.len() as int) =~= mm);
            Ok(out)
        },
    }
}

// ---------------------------------------------------------------------------
// The JSONL table
// ---------------------------------------------------------------------------

/// The records of a JSONL file: the column names in first-seen order and
/// the rows in file order, each an object's members.
#[derive(Debug)]
pub struct RecordTable {
    pub columns: Vec<String>,
    pub rows: Vec<Vec<(String, JsonCell)>>,
}

pub struct TableModel {
    pub columns: Seq<Seq<char>>,
    pub rows: Seq<Seq<(Seq<char>, CellModel)>>,
}

impl RecordTable {
    pub open spec fn model(&self) -> TableModel {
        TableModel {
            columns: self.columns.deep_view(),
            rows: self.rows@.map_values(|r: Vec<(String, JsonCell)>| members_model(r@)),
        }
    }
}

/// `cols` with the names of `ms` not yet among them added, in order.
pub open spec fn add_names(cols: Seq<Seq<char>>, ms: Seq<(Seq<char>, CellModel)>) -> Seq<Seq<char>>
    decreases ms.len(),
{
    if ms.len() == 0 {
        cols
    } else {
        let p = add_names(cols, ms.drop_last());
        if p.contains(ms.last().0) {
            p
        } else {
            p.push(ms.last().0)
        }
    }
}

/// The table read from the first `n` lines: blank lines (once trimmed)
/// are skipped; a line that is not JSON, or not an object, is refused
/// with its 1-based line number.
pub open spec fn jsonl_lines(lines: Seq<Seq<char>>, n: nat, path: Seq<char>) -> Result<TableModel, Seq<char>>
    decreases n,
{
    if n == 0 || n > lines.len() {
        Ok(TableModel { columns: Seq::empty(), rows: Seq::empty() })
    } else {
        match jsonl_lines(lines, (n - 1) as nat, path) {
            Err(e) => Err(e),
            Ok(t) => {
                let line = trim(lines[n - 1]);
                if line.len() == 0 {
                    Ok(t)
                } else {
                    match serde_object(line) {
                        Err(e) => Err(path + ":"@ + nat_decimal(n) + ": invalid JSON: "@ + e),
                        Ok(None) => Err(path + ":"@ + nat_decimal(n) + ": each jsonl line must be a JSON object"@),
                        Ok(Some(ms)) => Ok(TableModel { columns: add_names(t.columns, ms), rows: t.rows.push(ms) }),
                    }
                }
            },
        }
    }
}

/// The table a JSONL text (read from `path`) holds.
pub open spec fn jsonl_spec(text: Seq<char>, path: Seq<char>) -> Result<TableModel, Seq<char>> {
    jsonl_lines(split_on(text, '\n'), split_on(text, '\n').len(), path)
}

proof fn lemma_jsonl_err_sticks(lines: Seq<Seq<char>>, k: nat, n: nat, path: Seq<char>, e: Seq<char>)
    requires
        k <= n <= lines.len(),
        jsonl_lines(lines, k, path) == Err::<TableModel, Seq<char>>(e),
    ensures
        jsonl_lines(lines, n, path) == Err::<TableModel, Seq<char>>(e),
    decreases n - k,
{
    if k < n {
        lemma_jsonl_err_sticks(lines, k, (n - 1) as nat, path, e);
    }
}

fn contains_name(v: &Vec<String>, s: &str) -> (r: bool)
    ensures
        r == v.deep_view().contains(s@),
{
    let mut i: usize = 0;
    while i < v.len()
        invariant
            i <= v@.len(),
            forall|j: int| 0 <= j < i ==> v@[j]@ != s@,
        decreases v@.len() - i,
    {
        if str_eq(v[i].as_str(), s) {
            assert(v.deep_view()[i as int] == s@);
            return true;
        }
        i += 1;
    }
    assert forall|j: int| 0 <= j < v.deep_view().len() implies v.deep_view()[j] != s@ by {
        assert(v.deep_view()[j] == v@[j]@);
    }
    false
}

fn push_names(cols: &mut Vec<String>, ms: &Vec<(String, JsonCell)>)
    ensures
        final(cols).deep_view() == add_names(old(cols).deep_view(), members_model(ms@)),
{
    let ghost start = cols.deep_view();
    let ghost mm = members_model(ms@);
    let mut i: usize = 0;
    assert(mm.take(0) =~= Seq::<(Seq<char>, CellModel)>::empty());
    while i < ms.len()
        invariant
            i <= ms@.len() == mm.len(),
            mm == members_model(ms@),
            cols.deep_view() == add_names(start, mm.take(i as int)),
        decreases ms@.len() - i,
    {
        assert(mm.take(i + 1).drop_last() =~= mm.take(i as int));
        assert(mm.take(i + 1).last().0 == ms@[i as int].0@);
        if !contains_name(cols, ms[i].0.as_str()) {
            let ghost before = cols.deep_view();
            cols.push(ms[i].0.clone());
            assert(cols.deep_view() =~= before.push(ms@[i as int].0@));
        }
        i += 1;
    }
    assert(mm.take(mm.len() as int) =~= mm);
}

/// Read the table of a JSONL text read from `path`.
pub fn jsonl_table(text: &str, path: &str) -> (r: Result<RecordTable, String>)
    ensures
        match r {
            Ok(t) => jsonl_spec(text@, path@) == Ok::<TableModel, Seq<char>>(t.model()),
            Err(e) => jsonl_spec(text@, path@) == Err::<TableModel, Seq<char>>(e@),
        },
{
    let cs = chars_of(text);
    let lines = split_chars(&cs, '\n');
    let ghost ls = split_on(text@, '\n');
    let mut table = RecordTable { columns: Vec::new(), rows: Vec::new() };
    assert(table.model().columns =~= Seq::<Seq<char>>::empty());
    assert(table.model().rows =~= Seq::<Seq<(Seq<char>, CellModel)>>::empty());
    let mut i: usize = 0;
    while i < lines.len()
        invariant
            i <= lines@.len() == ls.len(),
            cs@ == text@,
            ls == split_on(text@, '\n'),
            forall|k: int| 0 <= k < lines@.len() ==> (#[trigger] lines@[k])@ == ls[k],
            jsonl_lines(ls, i as nat, path@) == Ok::<TableModel, Seq<char>>(table.model()),
        decreases lines@.len() - i,
    {
        let tc = trim_chars(&lines[i]);
        let line = string_of(&tc);
        assert(line@ == trim(ls[i as int]));
        if tc.len() > 0 {
            match parse_object(line.as_str()) {
                Err(e) => {
                    let mut m = lit(path);
                    push_str(&mut m, ":");
                    let d = usize_to_string(i + 1);
                    push_str(&mut m, d.as_str());
                    push_str(&mut m, ": invalid JSON: ");
                    push_str(&mut m, e.as_str());
                    proof {
                        lemma_jsonl_err_sticks(ls, (i + 1) as nat, ls.len(), path@, m@);
                    }
                    return Err(m);
                },
                Ok(None) => {
                    let mut m = lit(path);
                    push_str(&mut m, ":");
                    let d = usize_to_string(i + 1);
                    push_str(&mut m, d.as_str());
                    push_str(&mut m, ": each jsonl line must be a JSON object");
                    proof {
                        lemma_jsonl_err_sticks(ls, (i + 1) as nat, ls.len(), path@, m@);
                    }
                    return Err(m);
                },
                Ok(Some(ms)) => {
                    let ghost before = table.model();
                    push_names(&mut table.columns, &ms);
                    table.rows.push(ms);
                    assert(table.model().rows =~= before.rows.push(members_model(ms@)));
                },
            }
        } else {
            assert(line@.len() == 0);
        }
        i += 1;
    }
    Ok(table)
}

// ---------------------------------------------------------------------------
// The five required columns
// ---------------------------------------------------------------------------

/// The source columns the five canonical fields are read from, and the
/// mapping reported for them.
#[derive(Debug)]
pub struct Schema {
    pub bet_id: String,
    pub timestamp: String,
    pub p_bet_side: String,
    pub decimal_odds: String,
    pub outcome: String,
    pub mapping: CoordMap,
}

pub struct SchemaModel {
    pub bet_id: Seq<char>,
    pub timestamp: Seq<char>,
    pub p_bet_side: Seq<char>,
    pub decimal_odds: Seq<char>,
    pub outcome: Seq<char>,
    pub mapping: Seq<(Seq<char>, Seq<char>)>,
}

impl Schema {
    pub open spec fn model(&self) -> SchemaModel {
        SchemaModel {
            bet_id: self.bet_id@,
            timestamp: self.timestamp@,
            p_bet_side: self.p_bet_side@,
            decimal_odds: self.decimal_odds@,
            outcome: self.outcome@,
            mapping: self.mapping@,
        }
    }
}

/// The mapping of the five fields, inserted in their order.
pub open spec fn mapping_of(b: Seq<char>, t: Seq<char>, p: Seq<char>, o: Seq<char>, c: Seq<char>) -> Seq<(Seq<char>, Seq<char>)> {
    sorted_insert(
        sorted_insert(
            sorted_insert(
                sorted_insert(sorted_insert(Seq::empty(), "bet_id"@, b), "timestamp"@, t),
                "p_bet_side"@,
                p,
            ),
            "decimal_odds"@,
            o,
        ),
        "outcome"@,
        c,
    )
}

/// The schema of a table of `nrows` rows with columns `cols` read from
/// `path`: a table without rows is refused; then a sidecar that could not
/// be read is; then each field in turn resolves through the overrides
/// (command-line columns over the sidecar) or its aliases, or is missing.
pub open spec fn schema_spec(
    nrows: nat,
    path: Seq<char>,
    cols: Seq<Seq<char>>,
    cli: Seq<(Seq<char>, Seq<char>)>,
    sidecar: Result<Seq<(Seq<char>, Seq<char>)>, Seq<char>>,
) -> Result<SchemaModel, Seq<char>> {
    if nrows == 0 {
        Err("bet-record file "@ + path + " has zero rows"@)
    } else {
        match sidecar {
            Err(e) => Err(e),
            Ok(sv) => {
                let ov = as_map(sv).union_prefer_right(as_map(cli));
                match resolve_spec("bet_id"@, cols, ov) {
                    None => Err(missing_col_spec("bet_id"@, cols)),
                    Some(b) => match resolve_spec("timestamp"@, cols, ov) {
                        None => Err(missing_col_spec("timestamp"@, cols)),
                        Some(t) => match resolve_spec("p_bet_side"@, cols, ov) {
                            None => Err(missing_col_spec("p_bet_side"@, cols)),
                            Some(p) => match resolve_spec("decimal_odds"@, cols, ov) {
                                None => Err(missing_col_spec("decimal_odds"@, cols)),
                                Some(o) => match resolve_spec("outcome"@, cols, ov) {
                                    None => Err(missing_col_spec("outcome"@, cols)),
                                    Some(c) => Ok(
                                        SchemaModel {
                                            bet_id: b,
                                            timestamp: t,
                                            p_bet_side: p,
                                            decimal_odds: o,
                                            outcome: c,
                                            mapping: mapping_of(b, t, p, o, c),
                                        },
                                    ),
                                },
                            },
                        },
                    },
                }
            },
        }
    }
}

/// `m` with the entries of `src` inserted in order.
fn insert_all(m: &mut CoordMap, src: &CoordMap)
    ensures
        final(m).map() == old(m).map().union_prefer_right(src.map()),
{
    let ghost start = old(m).map();
    let ghost sv = src@;
    let mut i: usize = 0;
    let n = src.len();
    assert(as_map(sv.take(0)) =~= Map::<Seq<char>, Seq<char>>::empty());
    assert(start.union_prefer_right(Map::empty()) =~= start);
    while i < n
        invariant
            i <= n == sv.len(),
            sv == src@,
            m.map() == start.union_prefer_right(as_map(sv.take(i as int))),
        decreases n - i,
    {
        let (k, v) = src.entry(i);
        assert(sv.take(i + 1).drop_last() =~= sv.take(i as int));
        assert(sv.take(i + 1).last() == (k@, v@));
        let ghost before = as_map(sv.take(i as int));
        m.insert(k.clone(), v.clone());
        assert(start.union_prefer_right(before).insert(k@, v@) =~= start.union_prefer_right(before.insert(k@, v@)));
        i += 1;
    }
    assert(sv.take(n as int) =~= sv);
}

fn resolved(canonical: &str, columns: &[String], ov: &CoordMap) -> (r: Result<String, String>)
    ensures
        match r {
            Ok(c) => resolve_spec(canonical@, columns.deep_view(), ov.map()) == Some(c@),
            Err(e) => resolve_spec(canonical@, columns.deep_view(), ov.map()) is None
                && e@ == missing_col_spec(canonical@, columns.deep_view()),
        },
{
    match resolve_column(canonical, columns, ov) {
        Some(c) => Ok(c),
        None => Err(missing_col(canonical, columns)),
    }
}

/// Resolve the five required columns of `table` (read from `path`), with
/// the command-line `--columns` overrides and the sidecar's (or the error
/// met reading it).
pub fn resolve_schema(table: &RecordTable, path: &str, cli: &CoordMap, sidecar: &Result<CoordMap, String>) -> (r:
    Result<Schema, String>)
    ensures
        match r {
            Ok(s) => schema_spec(
                table.rows@.len() as nat,
                path@,
                table.columns.deep_view(),
                cli@,
                match sidecar {
                    Ok(m) => Ok(m@),
                    Err(e) => Err(e@),
                },
            ) == Ok::<SchemaModel, Seq<char>>(s.model()),
            Err(e) => schema_spec(
                table.rows@.len() as nat,
                path@,
                table.columns.deep_view(),
                cli@,
                match sidecar {
                    Ok(m) => Ok(m@),
                    Err(e) => Err(e@),
                },
            ) == Err::<SchemaModel, Seq<char>>(e@),
        },
{
    if table.rows.len() == 0 {
        let mut m = lit("bet-record file ");
        push_str(&mut m, path);
        push_str(&mut m, " has zero rows");
        return Err(m);
    }
    let side = match sidecar {
        Ok(m) => m,
        Err(e) => {
            return Err(e.clone());
        },
    };
    let mut ov = CoordMap::new();
    insert_all(&mut ov, side);
    insert_all(&mut ov, cli);
    assert(Map::<Seq<char>, Seq<char>>::empty().union_prefer_right(side.map()) =~= side.map());
    let cols = table.columns.as_slice();
    let b = resolved("bet_id", cols, &ov)?;
    let t = resolved("timestamp", cols, &ov)?;
    let p = resolved("p_bet_side", cols, &ov)?;
    let o = resolved("decimal_odds", cols, &ov)?;
    let c = resolved("outcome", cols, &ov)?;
    let mut mapping = CoordMap::new();
    mapping.insert(lit("bet_id"), b.clone());
    mapping.insert(lit("timestamp"), t.clone());
    mapping.insert(lit("p_bet_side"), p.clone());
    mapping.insert(lit("decimal_odds"), o.clone());
    mapping.insert(lit("outcome"), c.clone());
    Ok(Schema { bet_id: b, timestamp: t, p_bet_side: p, decimal_odds: o, outcome: c, mapping })
}

// ---------------------------------------------------------------------------
// The records
// ---------------------------------------------------------------------------

/// The caller's reading of one record's numeric cells. Each field is
/// consulted only where the cell it is about holds a number (a boolean
/// counts as the number 1 or 0): how the number prints, the whole
/// seconds it truncates to, and the floating-point comparisons made on it.
#[derive(Debug, Clone)]
pub struct RowReading {
    /// The bet id cell as printed (an integral value without a fraction).
    pub bet_id_shown: String,
    /// The timestamp cell truncated to whole seconds.
    pub ts_seconds: i64,
    /// The timestamp cell as printed (an integral value without a fraction).
    pub ts_shown: String,
    /// Whether `p_bet_side` lies within [0, 1].
    pub p_in_range: bool,
    /// `p_bet_side` as printed.
    pub p_shown: String,
    /// Whether `decimal_odds` exceeds 1.
    pub odds_above_one: bool,
    /// `decimal_odds` as printed.
    pub odds_shown: String,
    /// Whether the outcome cell lies within 1e-9 of one.
    pub outcome_near_one: bool,
    /// Whether the outcome cell lies within 1e-9 of zero.
    pub outcome_near_zero: bool,
    /// The outcome cell as printed.
    pub outcome_shown: String,
    /// Whether the record's score and line cells (the `--derive-pushes`
    /// pair when one is given, else `actual_total` and `line`) are both
    /// numbers within 1e-9 of each other.
    pub derived_push: bool,
}

/// A record that passed its checks. Its cells stay in the table, at row
/// `file_index`.
#[derive(Debug, Clone)]
pub struct RecordText {
    pub file_index: usize,
    pub bet_id: String,
    pub ts_key: i64,
    pub timestamp: String,
    pub outcome: Outcome,
    /// The `sequence` cell, where the column exists and the cell is a
    /// number.
    pub sequence: Option<JsonCell>,
}

pub struct RecordModel {
    pub file_index: nat,
    pub bet_id: Seq<char>,
    pub ts_key: i64,
    pub timestamp: Seq<char>,
    pub outcome: Outcome,
    pub sequence: Option<CellModel>,
}

impl RecordText {
    pub open spec fn model(&self) -> RecordModel {
        RecordModel {
            file_index: self.file_index as nat,
            bet_id: self.bet_id@,
            ts_key: self.ts_key,
            timestamp: self.timestamp@,
            outcome: self.outcome,
            sequence: match self.sequence {
                Some(c) => Some(c.model()),
                None => None,
            },
        }
    }
}

/// The first cell of `row` named `k`.
pub open spec fn cell_of(row: Seq<(Seq<char>, CellModel)>, k: Seq<char>) -> Option<CellModel>
    decreases row.len(),
{
    if row.len() == 0 {
        None
    } else if row[0].0 == k {
        Some(row[0].1)
    } else {
        cell_of(row.drop_first(), k)
    }
}

/// Whether a cell is read as a number.
pub open spec fn numeric(c: Option<CellModel>) -> bool {
    match c {
        Some(CellModel::Number(_)) => true,
        Some(CellModel::Bool(_)) => true,
        _ => false,
    }
}

/// A cell read as text: a string, or a nested value's JSON text.
pub open spec fn text_of(c: Option<CellModel>) -> Option<Seq<char>> {
    match c {
        Some(CellModel::Text(s)) => Some(s),
        Some(CellModel::Nested(s)) => Some(s),
        _ => None,
    }
}

/// The outcome cell as kind detection sees it.
pub open spec fn outcome_cell_of(c: Option<CellModel>, rd: RowReading) -> OutcomeCellModel {
    match text_of(c) {
        Some(s) => OutcomeCellModel::Text(s),
        None => if numeric(c) {
            if rd.outcome_near_one || rd.outcome_near_zero {
                OutcomeCellModel::NearBinary
            } else {
                OutcomeCellModel::OtherNumber
            }
        } else {
            OutcomeCellModel::Missing
        },
    }
}

/// The outcome cell as scoring sees it.
pub open spec fn outcome_value_of(c: Option<CellModel>, rd: RowReading) -> OutcomeValueModel {
    match text_of(c) {
        Some(s) => OutcomeValueModel::Text(s),
        None => if numeric(c) {
            OutcomeValueModel::Number(rd.outcome_near_one, rd.outcome_near_zero, rd.outcome_shown@)
        } else {
            OutcomeValueModel::Missing
        },
    }
}

/// The outcome cells of every row.
pub open spec fn outcome_cells(rows: Seq<Seq<(Seq<char>, CellModel)>>, readings: Seq<RowReading>, col: Seq<char>) -> Seq<
    OutcomeCellModel,
> {
    Seq::new(rows.len(), |i: int| outcome_cell_of(cell_of(rows[i], col), readings[i]))
}

/// What one row reads as: a record, a refusal, or a timestamp whose value
/// leaves `i64` (where the reader panics).
pub enum RowResult {
    Record(RecordModel),
    Refused(Seq<char>),
    Panics,
}

/// A refusal of record `i`.
pub open spec fn record_err(i: nat, body: Seq<char>) -> Seq<char> {
    "record "@ + nat_decimal(i) + ": "@ + body
}

/// How a timestamp cell that is neither a string nor a number is shown.
pub open spec fn raw_debug(c: CellModel) -> Seq<char> {
    match text_of(Some(c)) {
        Some(s) => "Text("@ + str_debug(s) + ")"@,
        None => "Null"@,
    }
}

/// Row `i`: its bet id (a string or a number), its timestamp (a number,
/// or a string read by [`timestamp_key`]), `p_bet_side` in [0, 1],
/// `decimal_odds` above 1 and its outcome under `mode`, checked in that
/// order; then its `sequence` cell when that column exists.
pub open spec fn row_spec(
    i: nat,
    row: Seq<(Seq<char>, CellModel)>,
    rd: RowReading,
    s: SchemaModel,
    mode: OutcomeMode,
    seq_present: bool,
) -> RowResult {
    let b = cell_of(row, s.bet_id);
    let bet_id: Option<Seq<char>> = match text_of(b) {
        Some(t) => Some(t),
        None => if numeric(b) {
            Some(rd.bet_id_shown@)
        } else {
            None
        },
    };
    match bet_id {
        None => RowResult::Refused(record_err(i, "missing bet_id ("@ + s.bet_id + ")"@)),
        Some(bid) => match cell_of(row, s.timestamp) {
            None => RowResult::Refused(record_err(i, "missing timestamp ("@ + s.timestamp + ")"@)),
            Some(tc) => {
                let key: TimeKey = match text_of(Some(tc)) {
                    Some(t) => timestamp_key(t),
                    None => if numeric(Some(tc)) {
                        TimeKey::Seconds(rd.ts_seconds)
                    } else {
                        TimeKey::Unparsed
                    },
                };
                match key {
                    TimeKey::Overflow => RowResult::Panics,
                    TimeKey::Unparsed => RowResult::Refused(
                        record_err(i, "unparseable timestamp in "@ + s.timestamp + ": "@ + raw_debug(tc)),
                    ),
                    TimeKey::Seconds(k) => {
                        let ts: Seq<char> = match text_of(Some(tc)) {
                            Some(t) => t,
                            None => rd.ts_shown@,
                        };
                        if !numeric(cell_of(row, s.p_bet_side)) {
                            RowResult::Refused(
                                record_err(i, "missing/non-numeric p_bet_side ("@ + s.p_bet_side + ")"@),
                            )
                        } else if !rd.p_in_range {
                            RowResult::Refused(
                                record_err(
                                    i,
                                    "p_bet_side="@ + rd.p_shown@ + " out of range [0,1] ("@ + s.p_bet_side + ")"@,
                                ),
                            )
                        } else if !numeric(cell_of(row, s.decimal_odds)) {
                            RowResult::Refused(
                                record_err(i, "missing/non-numeric decimal_odds ("@ + s.decimal_odds + ")"@),
                            )
                        } else if !rd.odds_above_one {
                            RowResult::Refused(
                                record_err(
                                    i,
                                    "decimal_odds="@ + rd.odds_shown@ + " must be > 1.0 ("@ + s.decimal_odds + ")"@,
                                ),
                            )
                        } else {
                            match normalize_spec(
                                outcome_value_of(cell_of(row, s.outcome), rd),
                                s.outcome,
                                mode,
                                rd.derived_push,
                            ) {
                                Err(e) => RowResult::Refused(record_err(i, e)),
                                Ok(o) => {
                                    let sq = cell_of(row, "sequence"@);
                                    RowResult::Record(
                                        RecordModel {
                                            file_index: i,
                                            bet_id: bid,
                                            ts_key: k,
                                            timestamp: ts,
                                            outcome: o,
                                            sequence: if seq_present && numeric(sq) {
                                                sq
                                            } else {
                                                None
                                            },
                                        },
                                    )
                                },
                            }
                        }
                    },
                }
            },
        },
    }
}

pub(crate) fn cell_at<'a>(row: &'a Vec<(String, JsonCell)>, k: &str) -> (r: Option<&'a JsonCell>)
    ensures
        match r {
            Some(c) => cell_of(members_model(row@), k@) == Some(c.model()),
            None => cell_of(members_model(row@), k@) is None,
        },
{
    let ghost mm = members_model(row@);
    let mut i: usize = 0;
    assert(mm.skip(0) =~= mm);
    while i < row.len()
        invariant
            i <= row@.len() == mm.len(),
            mm == members_model(row@),
            cell_of(mm, k@) == cell_of(mm.skip(i as int), k@),
        decreases row@.len() - i,
    {
        assert(mm.skip(i as int)[0] == (row@[i as int].0@, row@[i as int].1.model()));
        assert(mm.skip(i as int).drop_first() =~= mm.skip(i + 1));
        if str_eq(row[i].0.as_str(), k) {
            return Some(&row[i].1);
        }
        i += 1;
    }
    assert(mm.skip(i as int).len() == 0);
    None
}

fn is_numeric(c: Option<&JsonCell>) -> (r: bool)
    ensures
        r == numeric(match c {
            Some(x) => Some(x.model()),
            None => None,
        }),
{
    match c {
        Some(JsonCell::Number(_)) => true,
        Some(JsonCell::Bool(_)) => true,
        _ => false,
    }
}

fn text_at(c: Option<&JsonCell>) -> (r: Option<&String>)
    ensures
        match r {
            Some(t) => text_of(
                match c {
                    Some(x) => Some(x.model()),
                    None => None,
                },
            ) == Some(t@),
            None => text_of(
                match c {
                    Some(x) => Some(x.model()),
                    None => None,
                },
            ) is None,
        },
{
    match c {
        Some(JsonCell::Text(s)) => Some(s),
        Some(JsonCell::Nested(s)) => Some(s),
        _ => None,
    }
}

fn record_error(d: &str, body: String) -> (r: String)
    ensures
        r@ == "record "@ + d@ + ": "@ + body@,
{
    let mut m = lit("record ");
    push_str(&mut m, d);
    push_str(&mut m, ": ");
    push_str(&mut m, body.as_str());
    m
}

fn enclosed(prefix: &str, col: &str, suffix: &str) -> (r: String)
    ensures
        r@ == prefix@ + col@ + suffix@,
{
    let mut m = lit(prefix);
    push_str(&mut m, col);
    push_str(&mut m, suffix);
    m
}

fn copy_cell(c: &JsonCell) -> (r: JsonCell)
    ensures
        r.model() == c.model(),
{
    match c {
        JsonCell::Null => JsonCell::Null,
        JsonCell::Bool(b) => JsonCell::Bool(*b),
        JsonCell::Number(t) => JsonCell::Number(t.clone()),
        JsonCell::Text(t) => JsonCell::Text(t.clone()),
        JsonCell::Nested(t) => JsonCell::Nested(t.clone()),
    }
}

enum RowRead {
    Record(RecordText),
    Refused(String),
    Panics,
}

spec fn row_read_model(r: RowRead) -> RowResult {
    match r {
        RowRead::Record(t) => RowResult::Record(t.model()),
        RowRead::Refused(e) => RowResult::Refused(e@),
        RowRead::Panics => RowResult::Panics,
    }
}

#[verifier::rlimit(50)]
fn read_row(
    i: usize,
    row: &Vec<(String, JsonCell)>,
    rd: &RowReading,
    s: &Schema,
    mode: OutcomeMode,
    seq_present: bool,
) -> (r: RowRead)
    ensures
        row_read_model(r) == row_spec(i as nat, members_model(row@), *rd, s.model(), mode, seq_present),
{
    let ghost rm = members_model(row@);
    let d = usize_to_string(i);
    let b = cell_at(row, s.bet_id.as_str());
    let bet_id = match text_at(b) {
        Some(t) => t.clone(),
        None => {
            if is_numeric(b) {
                rd.bet_id_shown.clone()
            } else {
                return RowRead::Refused(record_error(d.as_str(), enclosed("missing bet_id (", s.bet_id.as_str(), ")")));
            }
        },
    };
    let tc = match cell_at(row, s.timestamp.as_str()) {
        Some(c) => c,
        None => {
            return RowRead::Refused(
                record_error(d.as_str(), enclosed("missing timestamp (", s.timestamp.as_str(), ")")),
            );
        },
    };
    let key = match text_at(Some(tc)) {
        Some(t) => timestamp_key_of(t.as_str()),
        None => {
            if is_numeric(Some(tc)) {
                TimeKey::Seconds(rd.ts_seconds)
            } else {
                TimeKey::Unparsed
            }
        },
    };
    let k = match key {
        TimeKey::Overflow => {
            return RowRead::Panics;
        },
        TimeKey::Unparsed => {
            let mut m = enclosed("unparseable timestamp in ", s.timestamp.as_str(), ": ");
            let ghost head = m@;
            match text_at(Some(tc)) {
                Some(t) => {
                    let shown = enclosed("Text(", debug_str(t.as_str()).as_str(), ")");
                    push_str(&mut m, shown.as_str());
                },
                None => {
                    push_str(&mut m, "Null");
                },
            }
            assert(m@ == head + raw_debug(tc.model()));
            return RowRead::Refused(record_error(d.as_str(), m));
        },
        TimeKey::Seconds(k) => k,
    };
    let ts = match text_at(Some(tc)) {
        Some(t) => t.clone(),
        None => rd.ts_shown.clone(),
    };
    if !is_numeric(cell_at(row, s.p_bet_side.as_str())) {
        return RowRead::Refused(
            record_error(d.as_str(), enclosed("missing/non-numeric p_bet_side (", s.p_bet_side.as_str(), ")")),
        );
    }
    if !rd.p_in_range {
        let mut m = enclosed("p_bet_side=", rd.p_shown.as_str(), " out of range [0,1] (");
        push_str(&mut m, s.p_bet_side.as_str());
        push_str(&mut m, ")");
        return RowRead::Refused(record_error(d.as_str(), m));
    }
    if !is_numeric(cell_at(row, s.decimal_odds.as_str())) {
        return RowRead::Refused(
            record_error(d.as_str(), enclosed("missing/non-numeric decimal_odds (", s.decimal_odds.as_str(), ")")),
        );
    }
    if !rd.odds_above_one {
        let mut m = enclosed("decimal_odds=", rd.odds_shown.as_str(), " must be > 1.0 (");
        push_str(&mut m, s.decimal_odds.as_str());
        push_str(&mut m, ")");
        return RowRead::Refused(record_error(d.as_str(), m));
    }
    let oc = cell_at(row, s.outcome.as_str());
    let value = match text_at(oc) {
        Some(t) => OutcomeValue::Text(t.clone()),
        None => {
            if is_numeric(oc) {
                OutcomeValue::Number {
                    near_one: rd.outcome_near_one,
                    near_zero: rd.outcome_near_zero,
                    shown: rd.outcome_shown.clone(),
                }
            } else {
                OutcomeValue::Missing
            }
        },
    };
    assert(value.model() == outcome_value_of(cell_of(rm, s.outcome@), *rd));
    let outcome = match normalize_outcome(&value, s.outcome.as_str(), mode, rd.derived_push) {
        Ok(o) => o,
        Err(e) => {
            return RowRead::Refused(record_error(d.as_str(), e));
        },
    };
    let sq = cell_at(row, "sequence");
    let sequence = if seq_present && is_numeric(sq) {
        match sq {
            Some(c) => Some(copy_cell(c)),
            None => None,
        }
    } else {
        None
    };
    RowRead::Record(RecordText { file_index: i, bet_id, ts_key: k, timestamp: ts, outcome, sequence })
}

/// What the first `n` rows read as.
pub enum RowsResult {
    Records(Seq<RecordModel>),
    Refused(Seq<char>),
    Panics,
}

/// The first `n` rows read in order; the first row that fails decides.
pub open spec fn rows_spec(
    rows: Seq<Seq<(Seq<char>, CellModel)>>,
    readings: Seq<RowReading>,
    s: SchemaModel,
    mode: OutcomeMode,
    seq_present: bool,
    n: nat,
) -> RowsResult
    decreases n,
{
    if n == 0 {
        RowsResult::Records(Seq::empty())
    } else {
        match rows_spec(rows, readings, s, mode, seq_present, (n - 1) as nat) {
            RowsResult::Records(rs) => match row_spec(
                (n - 1) as nat,
                rows[n - 1],
                readings[n - 1],
                s,
                mode,
                seq_present,
            ) {
                RowResult::Record(r) => RowsResult::Records(rs.push(r)),
                RowResult::Refused(e) => RowsResult::Refused(e),
                RowResult::Panics => RowsResult::Panics,
            },
            other => other,
        }
    }
}

proof fn lemma_rows_stop(
    rows: Seq<Seq<(Seq<char>, CellModel)>>,
    readings: Seq<RowReading>,
    s: SchemaModel,
    mode: OutcomeMode,
    seq_present: bool,
    k: nat,
    n: nat,
)
    requires
        k <= n,
        !(rows_spec(rows, readings, s, mode, seq_present, k) is Records),
    ensures
        rows_spec(rows, readings, s, mode, seq_present, n) == rows_spec(rows, readings, s, mode, seq_present, k),
    decreases n - k,
{
    if k < n {
        lemma_rows_stop(rows, readings, s, mode, seq_present, k, (n - 1) as nat);
    }
}

/// The records read, how their outcomes were scored, the resolved columns
/// and the warnings for the report.
#[derive(Debug)]
pub struct ReadPlan {
    pub schema: Schema,
    pub mode: OutcomeMode,
    pub warnings: Vec<String>,
    pub records: Vec<RecordText>,
}

pub struct ReadPlanModel {
    pub schema: SchemaModel,
    pub mode: OutcomeMode,
    pub warnings: Seq<Seq<char>>,
    pub records: Seq<RecordModel>,
}

impl ReadPlan {
    pub open spec fn model(&self) -> ReadPlanModel {
        ReadPlanModel {
            schema: self.schema.model(),
            mode: self.mode,
            warnings: self.warnings.deep_view(),
            records: self.records@.map_values(|r: RecordText| r.model()),
        }
    }
}

/// What reading a table gives.
pub enum ReadResultModel {
    Plan(ReadPlanModel),
    Refused(Seq<char>),
    Panics,
}

/// Reading the records of `table` (read from `path`): the five columns
/// resolve ([`schema_spec`]); the outcome column's kind over every row
/// decides the scoring ([`outcome_plan_spec`]); then every row is
/// checked in order ([`row_spec`]).
pub open spec fn read_spec(
    table: TableModel,
    path: Seq<char>,
    cli: Seq<(Seq<char>, Seq<char>)>,
    sidecar: Result<Seq<(Seq<char>, Seq<char>)>, Seq<char>>,
    req: OutcomeModeRequest,
    derive: Option<(Seq<char>, Seq<char>)>,
    no_derive: bool,
    readings: Seq<RowReading>,
) -> ReadResultModel {
    match schema_spec(table.rows.len(), path, table.columns, cli, sidecar) {
        Err(e) => ReadResultModel::Refused(e),
        Ok(s) => match outcome_plan_spec(
            kind_of(outcome_cells(table.rows, readings, s.outcome)),
            req,
            derive,
            no_derive,
            table.columns,
            s.outcome,
        ) {
            Err(e) => ReadResultModel::Refused(e),
            Ok(p) => plan_of(
                rows_spec(table.rows, readings, s, p.mode, table.columns.contains("sequence"@), table.rows.len()),
                s,
                p.mode,
                p.warnings,
            ),
        },
    }
}

/// The result once the rows are read.
pub open spec fn plan_of(rr: RowsResult, s: SchemaModel, mode: OutcomeMode, warnings: Seq<Seq<char>>) -> ReadResultModel {
    match rr {
        RowsResult::Records(rs) => ReadResultModel::Plan(
            ReadPlanModel { schema: s, mode, warnings, records: rs },
        ),
        RowsResult::Refused(e) => ReadResultModel::Refused(e),
        RowsResult::Panics => ReadResultModel::Panics,
    }
}

pub open spec fn derive_model(derive: Option<DerivePushes>) -> Option<(Seq<char>, Seq<char>)> {
    match derive {
        Some(d) => Some((d.actual_col@, d.line_col@)),
        None => None,
    }
}

pub open spec fn sidecar_model(sidecar: Result<CoordMap, String>) -> Result<Seq<(Seq<char>, Seq<char>)>, Seq<char>> {
    match sidecar {
        Ok(m) => Ok(m@),
        Err(e) => Err(e@),
    }
}

fn outcome_cells_of(table: &RecordTable, readings: &[RowReading], col: &str) -> (r: Vec<OutcomeCell>)
    requires
        readings@.len() == table.rows@.len(),
    ensures
        cell_models(r@) == outcome_cells(table.model().rows, readings@, col@),
{
    let ghost rows = table.model().rows;
    let mut out: Vec<OutcomeCell> = Vec::new();
    let mut i: usize = 0;
    while i < table.rows.len()
        invariant
            i <= table.rows@.len() == readings@.len() == rows.len(),
            rows == table.model().rows,
            out@.len() == i,
            forall|j: int| 0 <= j < i ==> (#[trigger] out@[j]).model() == outcome_cell_of(
                cell_of(rows[j], col@),
                readings@[j],
            ),
        decreases table.rows@.len() - i,
    {
        let rd = &readings[i];
        let c = cell_at(&table.rows[i], col);
        assert(rows[i as int] == members_model(table.rows@[i as int]@));
        let cell = match text_at(c) {
            Some(t) => OutcomeCell::Text(t.clone()),
            None => {
                if is_numeric(c) {
                    if rd.outcome_near_one || rd.outcome_near_zero {
                        OutcomeCell::NearBinary
                    } else {
                        OutcomeCell::OtherNumber
                    }
                } else {
                    OutcomeCell::Missing
                }
            },
        };
        out.push(cell);
        i += 1;
    }
    assert(cell_models(out@) =~= outcome_cells(rows, readings@, col@));
    out
}

enum ReadAll {
    Plan(ReadPlan),
    Refused(String),
    Panics,
}

spec fn read_all_model(r: ReadAll) -> ReadResultModel {
    match r {
        ReadAll::Plan(p) => ReadResultModel::Plan(p.model()),
        ReadAll::Refused(e) => ReadResultModel::Refused(e@),
        ReadAll::Panics => ReadResultModel::Panics,
    }
}

#[verifier::rlimit(50)]
fn read_all(
    table: &RecordTable,
    path: &str,
    cli: &CoordMap,
    sidecar: &Result<CoordMap, String>,
    mode_req: OutcomeModeRequest,
    derive: &Option<DerivePushes>,
    no_derive: bool,
    readings: &[RowReading],
) -> (r: ReadAll)
    requires
        readings@.len() == table.rows@.len(),
    ensures
        read_all_model(r) == read_spec(
            table.model(),
            path@,
            cli@,
            sidecar_model(*sidecar),
            mode_req,
            derive_model(*derive),
            no_derive,
            readings@,
        ),
{
    let ghost tm = table.model();
    let schema = match resolve_schema(table, path, cli, sidecar) {
        Ok(s) => s,
        Err(e) => {
            return ReadAll::Refused(e);
        },
    };
    let cells = outcome_cells_of(table, readings, schema.outcome.as_str());
    let kind = detect_outcome_kind(&cells);
    let plan = match plan_outcome(kind, mode_req, derive, no_derive, table.columns.as_slice(), schema.outcome.as_str()) {
        Ok(p) => p,
        Err(e) => {
            return ReadAll::Refused(e);
        },
    };
    let seq_present = contains_name(&table.columns, "sequence");
    let ghost sm = schema.model();
    let mut records: Vec<RecordText> = Vec::new();
    let mut i: usize = 0;
    assert(records@.map_values(|r: RecordText| r.model()) =~= Seq::<RecordModel>::empty());
    while i < table.rows.len()
        invariant
            i <= table.rows@.len() == readings@.len() == tm.rows.len(),
            tm == table.model(),
            sm == schema.model(),
            rows_spec(tm.rows, readings@, sm, plan.mode, seq_present, i as nat) == RowsResult::Records(
                records@.map_values(|r: RecordText| r.model()),
            ),
            read_spec(tm, path@, cli@, sidecar_model(*sidecar), mode_req, derive_model(*derive), no_derive, readings@)
                == plan_of(
                rows_spec(tm.rows, readings@, sm, plan.mode, seq_present, tm.rows.len()),
                sm,
                plan.mode,
                plan.warnings.deep_view(),
            ),
        decreases table.rows@.len() - i,
    {
        assert(tm.rows[i as int] == members_model(table.rows@[i as int]@));
        let ghost before = records@.map_values(|r: RecordText| r.model());
        match read_row(i, &table.rows[i], &readings[i], &schema, plan.mode, seq_present) {
            RowRead::Record(t) => {
                records.push(t);
                assert(records@.map_values(|r: RecordText| r.model()) =~= before.push(t.model()));
            },
            RowRead::Refused(e) => {
                proof {
                    lemma_rows_stop(tm.rows, readings@, sm, plan.mode, seq_present, (i + 1) as nat, tm.rows.len());
                }
                return ReadAll::Refused(e);
            },
            RowRead::Panics => {
                proof {
                    lemma_rows_stop(tm.rows, readings@, sm, plan.mode, seq_present, (i + 1) as nat, tm.rows.len());
                }
                return ReadAll::Panics;
            },
        }
        i += 1;
    }
    ReadAll::Plan(ReadPlan { schema, mode: plan.mode, warnings: plan.warnings, records })
}

/// Whether reading these records would panic: a record's timestamp,
/// reached before any refusal, is a string whose value leaves `i64`.
pub fn read_panics_on(
    table: &RecordTable,
    path: &str,
    cli: &CoordMap,
    sidecar: &Result<CoordMap, String>,
    mode_req: OutcomeModeRequest,
    derive: &Option<DerivePushes>,
    no_derive: bool,
    readings: &[RowReading],
) -> (r: bool)
    requires
        readings@.len() == table.rows@.len(),
    ensures
        r == (read_spec(
            table.model(),
            path@,
            cli@,
            sidecar_model(*sidecar),
            mode_req,
            derive_model(*derive),
            no_derive,
            readings@,
        ) is Panics),
{
    match read_all(table, path, cli, sidecar, mode_req, derive, no_derive, readings) {
        ReadAll::Panics => true,
        _ => false,
    }
}

/// Read the records of `table` (read from `path`), given the command-line
/// column overrides, the sidecar's overrides (or the error met reading
/// it), the outcome-mode request, the `--derive-pushes` pair and
/// `--no-derive-pushes`, and the caller's reading of each row's numbers.
pub fn read_records_plan(
    table: &RecordTable,
    path: &str,
    cli: &CoordMap,
    sidecar: &Result<CoordMap, String>,
    mode_req: OutcomeModeRequest,
    derive: &Option<DerivePushes>,
    no_derive: bool,
    readings: &[RowReading],
) -> (r: Result<ReadPlan, String>)
    requires
        readings@.len() == table.rows@.len(),
        !(read_spec(
            table.model(),
            path@,
            cli@,
            sidecar_model(*sidecar),
            mode_req,
            derive_model(*derive),
            no_derive,
            readings@,
        ) is Panics),
    ensures
        match r {
            Ok(p) => read_spec(
                table.model(),
                path@,
                cli@,
                sidecar_model(*sidecar),
                mode_req,
                derive_model(*derive),
                no_derive,
                readings@,
            ) == ReadResultModel::Plan(p.model()),
            Err(e) => read_spec(
                table.model(),
                path@,
                cli@,
                sidecar_model(*sidecar),
                mode_req,
                derive_model(*derive),
                no_derive,
                readings@,
            ) == ReadResultModel::Refused(e@),
        },
{
    match read_all(table, path, cli, sidecar, mode_req, derive, no_derive, readings) {
        ReadAll::Plan(p) => Ok(p),
        ReadAll::Refused(e) => Err(e),
        ReadAll::Panics => Err(lit("")),
    }
}

} // verus!
