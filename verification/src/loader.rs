//! Model loading policy and the classes of load failure, with the exit
//! code and message each one is reported with.
use crate::simulate_reader::records::{cell_at, cell_of, members_model, parse_object, serde_object, CellModel, JsonCell};
use crate::text::{
    chars_of, debug_str, lemma_split_nonempty, lit, nat_decimal, push_str, split_chars, split_on, str_debug, string_of,
    trim, trim_chars, usize_to_string,
};
use vstd::prelude::*;

verus! {

/// Which sources of cube state a load replays.
#[derive(Debug, Clone, Copy, PartialEq, Eq, Structural)]
pub enum LoadPolicy {
    /// The YAML compile, canonical inputs, active imports, and the
    /// post-hoc writes log.
    CurrentReality,
    /// Everything but the post-hoc writes log.
    Reproducible,
}

/// Reasons a model load may fail.
#[derive(Debug)]
pub enum LoadModelError {
    /// File system / I/O error reading the model file.
    Io(String),
    /// Parse, validate, resolve_inputs, or compile error.
    Model(String),
    /// A writes-log line is not a valid write entry.
    WriteLogCorrupt { line_number: usize, message: String },
    /// A writes-log entry names a dimension or element the model no
    /// longer has.
    WriteLogStaleCoord { line_number: usize, coord_string: String, missing_element: String },
    /// Replaying a writes-log entry was refused by the cube.
    WriteLogReplayFailed { line_number: usize, inner: String },
}

/// The exit code a load failure is reported with: 1 for a model error,
/// 3 for I/O and writes-log errors.
pub open spec fn load_error_code(e: LoadModelError) -> i32 {
    match e {
        LoadModelError::Model(_) => 1,
        _ => 3,
    }
}

/// The writes-log prefix naming the line.
pub open spec fn log_line(n: usize) -> Seq<char> {
    ".tessera/writes.jsonl line "@ + nat_decimal(n as nat) + ": "@
}

/// The message a load failure is reported with.
pub open spec fn load_error_message(e: LoadModelError) -> Seq<char> {
    match e {
        LoadModelError::Io(m) => m@,
        LoadModelError::Model(m) => m@,
        LoadModelError::WriteLogCorrupt { line_number, message } => log_line(line_number) + message@,
        LoadModelError::WriteLogStaleCoord { line_number, coord_string, missing_element } => log_line(
            line_number,
        ) + "coordinate "@ + str_debug(coord_string@) + " references unknown "@ + missing_element@
            + "; the YAML may have been edited after the write was logged"@,
        LoadModelError::WriteLogReplayFailed { line_number, inner } => log_line(line_number)
            + "replay failed: "@ + inner@,
    }
}

fn log_line_text(n: usize) -> (r: String)
    ensures
        r@ == log_line(n),
{
    let mut m = lit(".tessera/writes.jsonl line ");
    let d = usize_to_string(n);
    push_str(&mut m, d.as_str());
    push_str(&mut m, ": ");
    m
}

impl LoadModelError {
    /// The exit code this failure is reported with.
    pub fn exit_code(&self) -> (r: i32)
        ensures
            r == load_error_code(*self),
    {
        match self {
            LoadModelError::Io(_) => 3,
            LoadModelError::Model(_) => 1,
            LoadModelError::WriteLogCorrupt { .. } | LoadModelError::WriteLogStaleCoord { .. }
            | LoadModelError::WriteLogReplayFailed { .. } => 3,
        }
    }

    /// The message this failure is reported with.
    pub fn message(&self) -> (r: String)
        ensures
            r@ == load_error_message(*self),
    {
        match self {
            LoadModelError::Io(m) | LoadModelError::Model(m) => m.clone(),
            LoadModelError::WriteLogCorrupt { line_number, message } => {
                let mut s = log_line_text(*line_number);
                push_str(&mut s, message.as_str());
                s
            },
            LoadModelError::WriteLogStaleCoord { line_number, coord_string, missing_element } => {
                let mut s = log_line_text(*line_number);
                push_str(&mut s, "coordinate ");
                let d = debug_str(coord_string.as_str());
                push_str(&mut s, d.as_str());
                push_str(&mut s, " references unknown ");
                push_str(&mut s, missing_element.as_str());
                push_str(&mut s, "; the YAML may have been edited after the write was logged");
                s
            },
            LoadModelError::WriteLogReplayFailed { line_number, inner } => {
                let mut s = log_line_text(*line_number);
                push_str(&mut s, "replay failed: ");
                push_str(&mut s, inner.as_str());
                s
            },
        }
    }
}

// ---------------------------------------------------------------------------
// The writes log
// ---------------------------------------------------------------------------

/// One entry of the writes log: its 1-based line, its coordinate string
/// and its value's number text.
#[derive(Debug)]
pub struct WriteEntry {
    pub line_number: usize,
    pub coord: String,
    pub value: String,
}

pub struct WriteEntryModel {
    pub line_number: nat,
    pub coord: Seq<char>,
    pub value: Seq<char>,
}

impl WriteEntry {
    pub open spec fn model(&self) -> WriteEntryModel {
        WriteEntryModel { line_number: self.line_number as nat, coord: self.coord@, value: self.value@ }
    }
}

/// Line `n` of the log: blank (once trimmed), an entry, or the reason it
/// is not one: it is not JSON, or its `coord` is not a string, or its
/// `value` is not a number (a value that is not an object has neither).
pub open spec fn write_line(n: nat, line: Seq<char>) -> Result<Option<WriteEntryModel>, Seq<char>> {
    let t = trim(line);
    if t.len() == 0 {
        Ok(None)
    } else {
        match serde_object(t) {
            Err(e) => Err("malformed JSON: "@ + e),
            Ok(o) => {
                let ms = match o {
                    Some(ms) => ms,
                    None => Seq::empty(),
                };
                match cell_of(ms, "coord"@) {
                    Some(CellModel::Text(c)) => match cell_of(ms, "value"@) {
                        Some(CellModel::Number(v)) => Ok(Some(WriteEntryModel { line_number: n, coord: c, value: v })),
                        _ => Err("missing or non-numeric \"value\" field"@),
                    },
                    _ => Err("missing or non-string \"coord\" field"@),
                }
            },
        }
    }
}

/// The entries of the first `n` lines, read until a line is refused, and
/// that line's number and reason.
pub open spec fn log_scan(lines: Seq<Seq<char>>, n: nat) -> (Seq<WriteEntryModel>, Option<(nat, Seq<char>)>)
    decreases n,
{
    if n == 0 || n > lines.len() {
        (Seq::empty(), None)
    } else {
        let p = log_scan(lines, (n - 1) as nat);
        if p.1 is Some {
            p
        } else {
            match write_line(n, lines[n - 1]) {
                Err(e) => (p.0, Some((n, e))),
                Ok(None) => p,
                Ok(Some(w)) => (p.0.push(w), None),
            }
        }
    }
}

/// How many lines a text holds: its newline-separated pieces, less an
/// empty last one.
pub open spec fn line_count(text: Seq<char>) -> nat {
    let ps = split_on(text, '\n');
    if ps.last().len() == 0 {
        (ps.len() - 1) as nat
    } else {
        ps.len()
    }
}

/// A writes log as read: its entries up to the first refused line, that
/// line's number and reason, and the log's number of lines.
#[derive(Debug)]
pub struct WriteLog {
    pub entries: Vec<WriteEntry>,
    pub refused: Option<(usize, String)>,
    pub line_count: usize,
}

proof fn lemma_scan_stops(lines: Seq<Seq<char>>, k: nat, n: nat)
    requires
        k <= n <= lines.len(),
        log_scan(lines, k).1 is Some,
    ensures
        log_scan(lines, n) == log_scan(lines, k),
    decreases n - k,
{
    if k < n {
        lemma_scan_stops(lines, k, (n - 1) as nat);
    }
}

/// Read the writes log's text.
#[verifier::rlimit(50)]
pub fn read_write_log(text: &str) -> (r: WriteLog)
    ensures
        r.entries@.map_values(|w: WriteEntry| w.model()) == log_scan(split_on(text@, '\n'), split_on(text@, '\n').len()).0,
        match r.refused {
            Some((n, e)) => log_scan(split_on(text@, '\n'), split_on(text@, '\n').len()).1 == Some((n as nat, e@)),
            None => log_scan(split_on(text@, '\n'), split_on(text@, '\n').len()).1 is None,
        },
        r.line_count == line_count(text@),
{
    let cs = chars_of(text);
    let lines = split_chars(&cs, '\n');
    let ghost ls = split_on(text@, '\n');
    proof {
        lemma_split_nonempty(text@, '\n');
    }
    let last_empty = lines[lines.len() - 1].len() == 0;
    let count = if last_empty { lines.len() - 1 } else { lines.len() };
    assert(count == line_count(text@));
    let mut entries: Vec<WriteEntry> = Vec::new();
    let mut i: usize = 0;
    assert(entries@.map_values(|w: WriteEntry| w.model()) =~= Seq::<WriteEntryModel>::empty());
    while i < lines.len()
        invariant
            i <= lines@.len() == ls.len(),
            cs@ == text@,
            ls == split_on(text@, '\n'),
            forall|k: int| 0 <= k < lines@.len() ==> (#[trigger] lines@[k])@ == ls[k],
            log_scan(ls, i as nat).1 is None,
            log_scan(ls, i as nat).0 == entries@.map_values(|w: WriteEntry| w.model()),
            count == line_count(text@),
        decreases lines@.len() - i,
    {
        let tc = trim_chars(&lines[i]);
        let line = string_of(&tc);
        assert(line@ == trim(ls[i as int]));
        let n = i + 1;
        if tc.len() > 0 {
            let msg: Option<String> = match parse_object(line.as_str()) {
                Err(e) => {
                    let mut m = lit("malformed JSON: ");
                    push_str(&mut m, e.as_str());
                    Some(m)
                },
                Ok(o) => {
                    let empty: Vec<(String, JsonCell)> = Vec::new();
                    let ms = match &o {
                        Some(ms) => ms,
                        None => &empty,
                    };
                    assert(members_model(empty@) =~= Seq::<(Seq<char>, CellModel)>::empty());
                    match cell_at(ms, "coord") {
                        Some(JsonCell::Text(c)) => match cell_at(ms, "value") {
                            Some(JsonCell::Number(v)) => {
                                let ghost before = entries@.map_values(|w: WriteEntry| w.model());
                                let w = WriteEntry { line_number: n, coord: c.clone(), value: v.clone() };
                                entries.push(w);
                                assert(entries@.map_values(|w: WriteEntry| w.model()) =~= before.push(w.model()));
                                None
                            },
                            _ => Some(lit("missing or non-numeric \"value\" field")),
                        },
                        _ => Some(lit("missing or non-string \"coord\" field")),
                    }
                },
            };
            if let Some(m) = msg {
                proof {
                    lemma_scan_stops(ls, (i + 1) as nat, ls.len());
                }
                return WriteLog { entries, refused: Some((n, m)), line_count: count };
            }
        }
        i += 1;
    }
    WriteLog { entries, refused: None, line_count: count }
}

} // verus!
