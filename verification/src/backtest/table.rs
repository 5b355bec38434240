//! Plain-text tables of `mc model backtest`: left-aligned `a | b | c`
//! columns under a dashed separator, and the small JSON pieces of its
//! report that carry only text.
use crate::backtest::Goal;
use crate::escape::{quoted, EscapeSet};
use crate::query::push_json_str;
use crate::text::{chars_of, push_char, trim_end, trim_end_len};
use vstd::prelude::*;
use vstd::utf8::encode_utf8;

verus! {

/// The word for an objective direction.
pub open spec fn goal_word_spec(goal: Goal) -> Seq<char> {
    match goal {
        Goal::Maximize => seq!['m', 'a', 'x'],
        Goal::Minimize => seq!['m', 'i', 'n'],
    }
}

/// `max` or `min`.
pub fn goal_word(goal: Goal) -> (r: &'static str)
    ensures
        r@ == goal_word_spec(goal),
{
    match goal {
        Goal::Maximize => {
            let r = "max";
            proof {
                reveal_strlit("max");
            }
            r
        },
        Goal::Minimize => {
            let r = "min";
            proof {
                reveal_strlit("min");
            }
            r
        },
    }
}

// ---------------------------------------------------------------------------
// Table model
// ---------------------------------------------------------------------------

/// Width of a cell as `str::len` counts it: UTF-8 bytes.
pub open spec fn byte_width(s: Seq<char>) -> usize {
    encode_utf8(s).len() as usize
}

/// The widest of the header of column `i` and its cells in the first `n`
/// rows (rows shorter than `i + 1` do not count).
pub open spec fn column_width(headers: Seq<Seq<char>>, rows: Seq<Seq<Seq<char>>>, i: int, n: nat) -> usize
    decreases n,
{
    if n == 0 {
        byte_width(headers[i])
    } else {
        let w = column_width(headers, rows, i, (n - 1) as nat);
        let row = rows[n - 1];
        if i < row.len() && byte_width(row[i]) > w {
            byte_width(row[i])
        } else {
            w
        }
    }
}

/// The width of every column.
pub open spec fn column_widths(headers: Seq<Seq<char>>, rows: Seq<Seq<Seq<char>>>) -> Seq<usize> {
    Seq::new(headers.len(), |i: int| column_width(headers, rows, i, rows.len()))
}

/// Cell `i` of a row, empty past its end.
pub open spec fn cell_at(row: Seq<Seq<char>>, i: int) -> Seq<char> {
    if 0 <= i < row.len() {
        row[i]
    } else {
        seq![]
    }
}

/// `cell` padded on the right with spaces to `w` characters
/// (`{:<w$}`).
pub open spec fn pad_right(cell: Seq<char>, w: usize) -> Seq<char> {
    if cell.len() < w {
        cell + Seq::new((w - cell.len()) as nat, |j: int| ' ')
    } else {
        cell
    }
}

/// The first `n` padded cells of a row joined by `" | "`.
pub open spec fn joined_cells(row: Seq<Seq<char>>, widths: Seq<usize>, n: nat) -> Seq<char>
    decreases n,
{
    if n == 0 {
        seq![]
    } else if n == 1 {
        pad_right(cell_at(row, 0), widths[0])
    } else {
        joined_cells(row, widths, (n - 1) as nat) + seq![' ', '|', ' '] + pad_right(
            cell_at(row, n - 1),
            widths[n - 1],
        )
    }
}

/// One rendered row: its padded cells, trailing whitespace dropped, and a
/// newline.
pub open spec fn table_line(row: Seq<Seq<char>>, widths: Seq<usize>) -> Seq<char> {
    trim_end(joined_cells(row, widths, widths.len())).push('\n')
}

/// The first `n` runs of dashes, one per column, joined by `"-+-"`.
pub open spec fn dash_runs(widths: Seq<usize>, n: nat) -> Seq<char>
    decreases n,
{
    if n == 0 {
        seq![]
    } else if n == 1 {
        Seq::new(widths[0] as nat, |j: int| '-')
    } else {
        dash_runs(widths, (n - 1) as nat) + seq!['-', '+', '-'] + Seq::new(
            widths[n - 1] as nat,
            |j: int| '-',
        )
    }
}

/// The rendered lines of the first `n` rows.
pub open spec fn table_body(rows: Seq<Seq<Seq<char>>>, widths: Seq<usize>, n: nat) -> Seq<char>
    decreases n,
{
    if n == 0 {
        seq![]
    } else {
        table_body(rows, widths, (n - 1) as nat) + table_line(rows[n - 1], widths)
    }
}

/// The whole table: header line, dashed separator, one line per row.
pub open spec fn table_text(headers: Seq<Seq<char>>, rows: Seq<Seq<Seq<char>>>) -> Seq<char> {
    let w = column_widths(headers, rows);
    table_line(headers, w) + dash_runs(w, w.len()).push('\n') + table_body(rows, w, rows.len())
}

/// The text of each string of a row.
pub open spec fn row_view(row: Seq<String>) -> Seq<Seq<char>> {
    row.map_values(|c: String| c@)
}

/// The text of each row.
pub open spec fn rows_view(rows: Seq<Vec<String>>) -> Seq<Seq<Seq<char>>> {
    rows.map_values(|r: Vec<String>| row_view(r@))
}

// ---------------------------------------------------------------------------
// Rendering
// ---------------------------------------------------------------------------

fn compute_widths(headers: &[String], rows: &[Vec<String>]) -> (w: Vec<usize>)
    ensures
        w@ == column_widths(row_view(headers@), rows_view(rows@)),
{
    let ghost hv = row_view(headers@);
    let ghost rv = rows_view(rows@);
    let ncols = headers.len();
    let mut widths: Vec<usize> = Vec::new();
    let mut i: usize = 0;
    while i < ncols
        invariant
            i <= ncols == headers@.len() == hv.len(),
            hv == row_view(headers@),
            widths@.len() == i,
            forall|k: int| 0 <= k < i ==> #[trigger] widths@[k] == column_width(hv, rv, k, 0),
        decreases ncols - i,
    {
        assert(hv[i as int] == headers@[i as int]@);
        widths.push(headers[i].as_str().len());
        i += 1;
    }
    let mut j: usize = 0;
    while j < rows.len()
        invariant
            j <= rows@.len() == rv.len(),
            ncols == headers@.len() == hv.len(),
            hv == row_view(headers@),
            rv == rows_view(rows@),
            widths@.len() == ncols,
            forall|k: int| 0 <= k < ncols ==> #[trigger] widths@[k] == column_width(hv, rv, k, j as nat),
        decreases rows@.len() - j,
    {
        let row = &rows[j];
        let ghost rowv = rv[j as int];
        assert(rowv == row_view(row@));
        let mut i: usize = 0;
        while i < ncols
            invariant
                i <= ncols == hv.len() == widths@.len(),
                j < rv.len(),
                rowv == rv[j as int],
                rowv == row_view(row@),
                forall|k: int| 0 <= k < i ==> #[trigger] widths@[k] == column_width(hv, rv, k, (j + 1) as nat),
                forall|k: int| i <= k < ncols ==> #[trigger] widths@[k] == column_width(hv, rv, k, j as nat),
            decreases ncols - i,
        {
            if i < row.len() {
                let l = row[i].as_str().len();
                assert(rowv[i as int] == row@[i as int]@);
                if l > widths[i] {
                    widths.set(i, l);
                }
            }
            i += 1;
        }
        j += 1;
    }
    assert(widths@ =~= column_widths(hv, rv));
    widths
}

fn push_spaces(line: &mut Vec<char>, n: usize)
    ensures
        final(line)@ == old(line)@ + Seq::new(n as nat, |j: int| ' '),
{
    let mut k: usize = 0;
    while k < n
        invariant
            k <= n,
            line@ == old(line)@ + Seq::new(k as nat, |j: int| ' '),
        decreases n - k,
    {
        line.push(' ');
        k += 1;
        assert(line@ =~= old(line)@ + Seq::new(k as nat, |j: int| ' '));
    }
}

fn push_dashes(out: &mut String, n: usize)
    ensures
        final(out)@ == old(out)@ + Seq::new(n as nat, |j: int| '-'),
{
    let mut k: usize = 0;
    while k < n
        invariant
            k <= n,
            out@ == old(out)@ + Seq::new(k as nat, |j: int| '-'),
        decreases n - k,
    {
        push_char(out, '-');
        k += 1;
        assert(out@ =~= old(out)@ + Seq::new(k as nat, |j: int| '-'));
    }
}

fn push_line(out: &mut String, row: &[String], widths: &[usize])
    ensures
        final(out)@ == old(out)@ + table_line(row_view(row@), widths@),
{
    let ghost rv = row_view(row@);
    let mut line: Vec<char> = Vec::new();
    let mut i: usize = 0;
    while i < widths.len()
        invariant
            i <= widths@.len(),
            rv == row_view(row@),
            line@ == joined_cells(rv, widths@, i as nat),
        decreases widths@.len() - i,
    {
        if i > 0 {
            line.push(' ');
            line.push('|');
            line.push(' ');
        }
        let ghost before = line@;
        let cell: Vec<char> = if i < row.len() {
            assert(rv[i as int] == row@[i as int]@);
            chars_of(row[i].as_str())
        } else {
            Vec::new()
        };
        assert(cell@ == cell_at(rv, i as int));
        let mut k: usize = 0;
        while k < cell.len()
            invariant
                k <= cell@.len(),
                line@ == before + cell@.take(k as int),
            decreases cell@.len() - k,
        {
            line.push(cell[k]);
            k += 1;
            assert(line@ =~= before + cell@.take(k as int));
        }
        assert(cell@.take(cell@.len() as int) =~= cell@);
        if cell.len() < widths[i] {
            push_spaces(&mut line, widths[i] - cell.len());
        }
        assert(line@ =~= before + pad_right(cell_at(rv, i as int), widths@[i as int]));
        i += 1;
    }
    let t = trim_end_len(&line);
    let mut k: usize = 0;
    let ghost start = out@;
    while k < t
        invariant
            k <= t <= line@.len(),
            out@ == start + line@.take(k as int),
        decreases t - k,
    {
        push_char(out, line[k]);
        k += 1;
        assert(out@ =~= start + line@.take(k as int));
    }
    push_char(out, '\n');
}

/// Left-aligned `a | b | c` table with a dashed separator under the
/// header. Column widths count UTF-8 bytes; padding counts characters;
/// cells past the header's columns are ignored.
pub fn render_table(headers: &[String], rows: &[Vec<String>]) -> (r: String)
    ensures
        r@ == table_text(row_view(headers@), rows_view(rows@)),
{
    let widths = compute_widths(headers, rows);
    let ghost w = widths@;
    let mut out = String::new();
    push_line(&mut out, headers, &widths);
    let ghost after_head = out@;
    let mut i: usize = 0;
    while i < widths.len()
        invariant
            i <= widths@.len(),
            w == widths@,
            out@ == after_head + dash_runs(w, i as nat),
        decreases widths@.len() - i,
    {
        if i > 0 {
            push_char(&mut out, '-');
            push_char(&mut out, '+');
            push_char(&mut out, '-');
        }
        push_dashes(&mut out, widths[i]);
        i += 1;
        assert(out@ =~= after_head + dash_runs(w, i as nat));
    }
    push_char(&mut out, '\n');
    let ghost after_sep = out@;
    let ghost rv = rows_view(rows@);
    let mut j: usize = 0;
    while j < rows.len()
        invariant
            j <= rows@.len() == rv.len(),
            rv == rows_view(rows@),
            w == widths@,
            out@ == after_sep + table_body(rv, w, j as nat),
        decreases rows@.len() - j,
    {
        assert(rv[j as int] == row_view(rows@[j as int]@));
        push_line(&mut out, rows[j].as_slice(), &widths);
        j += 1;
        assert(out@ =~= after_sep + table_body(rv, w, j as nat));
    }
    out
}

// ---------------------------------------------------------------------------
// JSON pieces
// ---------------------------------------------------------------------------

/// `{"k": "v", ...}` over the first `n` pairs.
pub open spec fn keys_obj_body(keys: Seq<(Seq<char>, Seq<char>)>, n: nat) -> Seq<char>
    decreases n,
{
    if n == 0 {
        seq![]
    } else {
        let prev = keys_obj_body(keys, (n - 1) as nat);
        let sep = if n == 1 { seq![] } else { seq![',', ' '] };
        prev + sep + quoted(EscapeSet::Minimal, keys[n - 1].0) + seq![':', ' '] + quoted(
            EscapeSet::Minimal,
            keys[n - 1].1,
        )
    }
}

/// The text of each key/value pair.
pub open spec fn pairs_view(keys: Seq<(String, String)>) -> Seq<(Seq<char>, Seq<char>)> {
    keys.map_values(|p: (String, String)| (p.0@, p.1@))
}

/// Appends a JSON object of string keys and string values.
pub fn push_keys_obj(out: &mut String, keys: &[(String, String)])
    ensures
        final(out)@ == old(out)@ + seq!['{'] + keys_obj_body(pairs_view(keys@), keys@.len()) + seq!['}'],
{
    let ghost kv = pairs_view(keys@);
    push_char(out, '{');
    let ghost start = out@;
    let mut i: usize = 0;
    while i < keys.len()
        invariant
            i <= keys@.len() == kv.len(),
            kv == pairs_view(keys@),
            out@ == start + keys_obj_body(kv, i as nat),
        decreases keys@.len() - i,
    {
        if i > 0 {
            push_char(out, ',');
            push_char(out, ' ');
        }
        let (k, v) = &keys[i];
        assert(kv[i as int] == (k@, v@));
        push_json_str(out, k.as_str());
        push_char(out, ':');
        push_char(out, ' ');
        push_json_str(out, v.as_str());
        i += 1;
        assert(out@ =~= start + keys_obj_body(kv, i as nat));
    }
    push_char(out, '}');
}

} // verus!
