//! The result listings of `mc model query`: a fixed-width text table, CSV,
//! and the JSON envelope. Each cell value arrives already rendered, once
//! per format.
use crate::coord_map::{as_map, CoordMap};
use crate::escape::{quoted, EscapeSet};
use crate::query::{coord_json_body, format_coord_json, push_json_str};
use crate::text::{chars_of, join, lit, nat_decimal, push_char, push_str, usize_to_string};
use vstd::prelude::*;

verus! {

/// One cell value, rendered for each format.
#[derive(Debug, Clone)]
pub struct CellTexts {
    /// As the text table shows it.
    pub text: String,
    /// As a CSV field (empty for values the CSV leaves blank).
    pub csv: String,
    /// As a JSON value.
    pub json: String,
}

/// One result row: its coordinate (dimension to element) and its values
/// in ascending name order.
#[derive(Debug)]
pub struct QueryRow {
    pub coord: CoordMap,
    pub values: Vec<(String, CellTexts)>,
}

pub struct CellModel {
    pub text: Seq<char>,
    pub csv: Seq<char>,
    pub json: Seq<char>,
}

pub struct RowModel {
    pub coord: Seq<(Seq<char>, Seq<char>)>,
    pub values: Seq<(Seq<char>, CellModel)>,
}

impl CellTexts {
    pub open spec fn model(&self) -> CellModel {
        CellModel { text: self.text@, csv: self.csv@, json: self.json@ }
    }
}

impl QueryRow {
    pub open spec fn model(&self) -> RowModel {
        RowModel {
            coord: self.coord.view(),
            values: self.values@.map_values(|p: (String, CellTexts)| (p.0@, p.1.model())),
        }
    }
}

pub open spec fn row_models(v: Seq<QueryRow>) -> Seq<RowModel> {
    v.map_values(|r: QueryRow| r.model())
}

/// The first value held under `k`.
pub open spec fn value_of(vals: Seq<(Seq<char>, CellModel)>, k: Seq<char>) -> Option<CellModel>
    decreases vals.len(),
{
    if vals.len() == 0 {
        None
    } else if vals[0].0 == k {
        Some(vals[0].1)
    } else {
        value_of(vals.drop_first(), k)
    }
}

pub open spec fn coord_keys(r: RowModel) -> Seq<Seq<char>> {
    r.coord.map_values(|e: (Seq<char>, Seq<char>)| e.0)
}

pub open spec fn value_keys(r: RowModel) -> Seq<Seq<char>> {
    r.values.map_values(|e: (Seq<char>, CellModel)| e.0)
}

/// The element a row holds on dimension `k`, or `missing`.
pub open spec fn coord_or(r: RowModel, k: Seq<char>, missing: Seq<char>) -> Seq<char> {
    if as_map(r.coord).contains_key(k) {
        as_map(r.coord)[k]
    } else {
        missing
    }
}

// ---------------------------------------------------------------------------
// Text
// ---------------------------------------------------------------------------

/// `{:<15}`: padded with spaces to 15 characters.
pub open spec fn pad15(s: Seq<char>) -> Seq<char> {
    if s.len() < 15 {
        s + Seq::new((15 - s.len()) as nat, |j: int| ' ')
    } else {
        s
    }
}

pub open spec fn padded(cells: Seq<Seq<char>>) -> Seq<char>
    decreases cells.len(),
{
    if cells.len() == 0 {
        seq![]
    } else {
        padded(cells.drop_last()) + pad15(cells.last())
    }
}

/// The text cells of a row under the columns of the first row.
pub open spec fn text_cells(r: RowModel, ck: Seq<Seq<char>>, vk: Seq<Seq<char>>) -> Seq<Seq<char>> {
    ck.map_values(|k: Seq<char>| coord_or(r, k, "-"@)) + vk.map_values(
        |k: Seq<char>|
            match value_of(r.values, k) {
                Some(c) => c.text,
                None => "-"@,
            },
    )
}

pub open spec fn text_rows(v: Seq<RowModel>, ck: Seq<Seq<char>>, vk: Seq<Seq<char>>) -> Seq<char>
    decreases v.len(),
{
    if v.len() == 0 {
        seq![]
    } else {
        text_rows(v.drop_last(), ck, vk) + padded(text_cells(v.last(), ck, vk)) + "\n"@
    }
}

/// The text listing: a header of the first row's column names, one line
/// per row, and the count of matched rows.
pub open spec fn text_listing(v: Seq<RowModel>, count: nat) -> Seq<char> {
    if v.len() == 0 {
        "No results ("@ + nat_decimal(count) + " rows matched)\n"@
    } else {
        let ck = coord_keys(v[0]);
        let vk = value_keys(v[0]);
        padded(ck + vk) + "\n"@ + text_rows(v, ck, vk) + "\n"@ + nat_decimal(count) + " rows\n"@
    }
}

fn push_padded(out: &mut String, s: &str)
    ensures
        final(out)@ == old(out)@ + pad15(s@),
{
    let n = chars_of(s).len();
    push_str(out, s);
    let ghost mid = out@;
    if n < 15 {
        let mut k: usize = n;
        while k < 15
            invariant
                n <= k <= 15,
                out@ == mid + Seq::new((k - n) as nat, |j: int| ' '),
            decreases 15 - k,
        {
            push_char(out, ' ');
            k += 1;
            assert(out@ =~= mid + Seq::new((k - n) as nat, |j: int| ' '));
        }
    }
}

fn key_list(coord: &CoordMap) -> (r: Vec<String>)
    ensures
        r@.map_values(|s: String| s@) == coord.view().map_values(|e: (Seq<char>, Seq<char>)| e.0),
{
    let mut r: Vec<String> = Vec::new();
    let mut i: usize = 0;
    let n = coord.len();
    while i < n
        invariant
            i <= n == coord.view().len(),
            r@.len() == i,
            forall|j: int| 0 <= j < i ==> #[trigger] r@[j]@ == coord.view()[j].0,
        decreases n - i,
    {
        let (k, _) = coord.entry(i);
        r.push(k.clone());
        i += 1;
    }
    assert(r@.map_values(|s: String| s@) =~= coord.view().map_values(|e: (Seq<char>, Seq<char>)| e.0));
    r
}

fn value_key_list(vals: &Vec<(String, CellTexts)>) -> (r: Vec<String>)
    ensures
        r@.map_values(|s: String| s@) == vals@.map_values(|p: (String, CellTexts)| (p.0@, p.1.model())).map_values(
            |e: (Seq<char>, CellModel)| e.0,
        ),
{
    let mut r: Vec<String> = Vec::new();
    let mut i: usize = 0;
    while i < vals.len()
        invariant
            i <= vals@.len(),
            r@.len() == i,
            forall|j: int| 0 <= j < i ==> #[trigger] r@[j]@ == vals@[j].0@,
        decreases vals@.len() - i,
    {
        r.push(vals[i].0.clone());
        i += 1;
    }
    assert(r@.map_values(|s: String| s@) =~= vals@.map_values(|p: (String, CellTexts)| (p.0@, p.1.model())).map_values(
        |e: (Seq<char>, CellModel)| e.0,
    ));
    r
}

fn find_value<'a>(vals: &'a Vec<(String, CellTexts)>, k: &str) -> (r: Option<&'a CellTexts>)
    ensures
        match r {
            Some(c) => value_of(vals@.map_values(|p: (String, CellTexts)| (p.0@, p.1.model())), k@)
                == Some(c.model()),
            None => value_of(vals@.map_values(|p: (String, CellTexts)| (p.0@, p.1.model())), k@)
                is None,
        },
{
    let ghost vm = vals@.map_values(|p: (String, CellTexts)| (p.0@, p.1.model()));
    let mut i: usize = 0;
    assert(vm.skip(0) =~= vm);
    while i < vals.len()
        invariant
            i <= vals@.len() == vm.len(),
            vm == vals@.map_values(|p: (String, CellTexts)| (p.0@, p.1.model())),
            value_of(vm, k@) == value_of(vm.skip(i as int), k@),
        decreases vals@.len() - i,
    {
        assert(vm.skip(i as int)[0] == vm[i as int]);
        assert(vm.skip(i as int).drop_first() =~= vm.skip(i + 1));
        if crate::text::str_eq(vals[i].0.as_str(), k) {
            return Some(&vals[i].1);
        }
        i += 1;
    }
    None
}

fn push_text_row(out: &mut String, row: &QueryRow, ck: &Vec<String>, vk: &Vec<String>)
    ensures
        final(out)@ == old(out)@ + padded(
            text_cells(row.model(), ck@.map_values(|s: String| s@), vk@.map_values(|s: String| s@)),
        ) + "\n"@,
{
    let ghost ckm = ck@.map_values(|s: String| s@);
    let ghost vkm = vk@.map_values(|s: String| s@);
    let ghost cells = text_cells(row.model(), ckm, vkm);
    let ghost start = out@;
    let mut i: usize = 0;
    while i < ck.len()
        invariant
            i <= ck@.len() == ckm.len(),
            ckm == ck@.map_values(|s: String| s@),
            vkm == vk@.map_values(|s: String| s@),
            cells == text_cells(row.model(), ckm, vkm),
            out@ == start + padded(cells.take(i as int)),
        decreases ck@.len() - i,
    {
        assert(cells.take(i + 1).drop_last() =~= cells.take(i as int));
        assert(cells[i as int] == coord_or(row.model(), ckm[i as int], "-"@));
        match row.coord.get(ck[i].as_str()) {
            Some(v) => push_padded(out, v.as_str()),
            None => push_padded(out, "-"),
        }
        i += 1;
    }
    let mut j: usize = 0;
    while j < vk.len()
        invariant
            j <= vk@.len() == vkm.len(),
            ck@.len() == ckm.len(),
            ckm == ck@.map_values(|s: String| s@),
            vkm == vk@.map_values(|s: String| s@),
            cells == text_cells(row.model(), ckm, vkm),
            out@ == start + padded(cells.take(ck@.len() + j)),
        decreases vk@.len() - j,
    {
        let ghost at = ck@.len() + j;
        assert(cells.take(at + 1).drop_last() =~= cells.take(at));
        match find_value(&row.values, vk[j].as_str()) {
            Some(c) => push_padded(out, c.text.as_str()),
            None => push_padded(out, "-"),
        }
        j += 1;
    }
    assert(cells.take(cells.len() as int) =~= cells);
    push_str(out, "\n");
}

fn push_padded_list(out: &mut String, names: &Vec<String>)
    ensures
        final(out)@ == old(out)@ + padded(names@.map_values(|s: String| s@)),
{
    let ghost nm = names@.map_values(|s: String| s@);
    let ghost start = out@;
    let mut i: usize = 0;
    while i < names.len()
        invariant
            i <= names@.len() == nm.len(),
            nm == names@.map_values(|s: String| s@),
            out@ == start + padded(nm.take(i as int)),
        decreases names@.len() - i,
    {
        assert(nm.take(i + 1).drop_last() =~= nm.take(i as int));
        push_padded(out, names[i].as_str());
        i += 1;
    }
    assert(nm.take(nm.len() as int) =~= nm);
}

/// The text listing of the rows, under the first row's columns.
pub fn format_text(results: &Vec<QueryRow>, count: usize) -> (r: String)
    ensures
        r@ == text_listing(row_models(results@), count as nat),
{
    let ghost m = row_models(results@);
    if results.len() == 0 {
        let mut out = lit("No results (");
        let d = usize_to_string(count);
        push_str(&mut out, d.as_str());
        push_str(&mut out, " rows matched)\n");
        return out;
    }
    let ck = key_list(&results[0].coord);
    let vk = value_key_list(&results[0].values);
    let ghost ckm = ck@.map_values(|s: String| s@);
    let ghost vkm = vk@.map_values(|s: String| s@);
    assert(ckm == coord_keys(m[0]));
    assert(vkm == value_keys(m[0]));
    let mut out = String::new();
    push_padded_list(&mut out, &ck);
    push_padded_list(&mut out, &vk);
    assert(padded(ckm) + padded(vkm) == padded(ckm + vkm)) by {
        lemma_padded_concat(ckm, vkm);
    }
    push_str(&mut out, "\n");
    let ghost head = out@;
    let mut i: usize = 0;
    while i < results.len()
        invariant
            i <= results@.len() == m.len(),
            m == row_models(results@),
            ckm == ck@.map_values(|s: String| s@),
            vkm == vk@.map_values(|s: String| s@),
            out@ == head + text_rows(m.take(i as int), ckm, vkm),
        decreases results@.len() - i,
    {
        assert(m.take(i + 1).drop_last() =~= m.take(i as int));
        assert(m.take(i + 1).last() == results@[i as int].model());
        push_text_row(&mut out, &results[i], &ck, &vk);
        i += 1;
    }
    assert(m.take(m.len() as int) =~= m);
    push_str(&mut out, "\n");
    let d = usize_to_string(count);
    push_str(&mut out, d.as_str());
    push_str(&mut out, " rows\n");
    out
}

proof fn lemma_padded_concat(a: Seq<Seq<char>>, b: Seq<Seq<char>>)
    ensures
        padded(a) + padded(b) == padded(a + b),
    decreases b.len(),
{
    if b.len() == 0 {
        assert(a + b =~= a);
    } else {
        lemma_padded_concat(a, b.drop_last());
        assert((a + b).drop_last() =~= a + b.drop_last());
    }
}

// ---------------------------------------------------------------------------
// CSV
// ---------------------------------------------------------------------------

/// `,name` for each of the names.
pub open spec fn comma_each(v: Seq<Seq<char>>) -> Seq<char>
    decreases v.len(),
{
    if v.len() == 0 {
        seq![]
    } else {
        comma_each(v.drop_last()) + ","@ + v.last()
    }
}

pub open spec fn csv_line(r: RowModel, ck: Seq<Seq<char>>, vk: Seq<Seq<char>>) -> Seq<char> {
    join(ck.map_values(|k: Seq<char>| coord_or(r, k, seq![])), ","@) + comma_each(
        vk.map_values(
            |k: Seq<char>|
                match value_of(r.values, k) {
                    Some(c) => c.csv,
                    None => seq![],
                },
        ),
    ) + "\n"@
}

pub open spec fn csv_rows(v: Seq<RowModel>, ck: Seq<Seq<char>>, vk: Seq<Seq<char>>) -> Seq<char>
    decreases v.len(),
{
    if v.len() == 0 {
        seq![]
    } else {
        csv_rows(v.drop_last(), ck, vk) + csv_line(v.last(), ck, vk)
    }
}

/// The CSV listing: nothing for no rows, else a header of the first row's
/// column names and one record per row.
pub open spec fn csv_listing(v: Seq<RowModel>) -> Seq<char> {
    if v.len() == 0 {
        seq![]
    } else {
        let ck = coord_keys(v[0]);
        let vk = value_keys(v[0]);
        join(ck, ","@) + comma_each(vk) + "\n"@ + csv_rows(v, ck, vk)
    }
}

fn push_joined_texts(out: &mut String, parts: &Vec<String>)
    ensures
        final(out)@ == old(out)@ + join(parts@.map_values(|s: String| s@), ","@),
{
    let ghost pm = parts@.map_values(|s: String| s@);
    let ghost start = out@;
    let mut i: usize = 0;
    assert(pm.take(0) =~= Seq::<Seq<char>>::empty());
    while i < parts.len()
        invariant
            i <= parts@.len() == pm.len(),
            pm == parts@.map_values(|s: String| s@),
            out@ == start + join(pm.take(i as int), ","@),
        decreases parts@.len() - i,
    {
        assert(pm.take(i + 1).drop_last() =~= pm.take(i as int));
        if i > 0 {
            push_str(out, ",");
        }
        push_str(out, parts[i].as_str());
        proof {
            if i == 0 {
                assert(pm.take(1) =~= seq![pm[0]]);
            }
        }
        i += 1;
        assert(out@ =~= start + join(pm.take(i as int), ","@));
    }
    assert(pm.take(pm.len() as int) =~= pm);
}

fn push_comma_each(out: &mut String, parts: &Vec<String>)
    ensures
        final(out)@ == old(out)@ + comma_each(parts@.map_values(|s: String| s@)),
{
    let ghost pm = parts@.map_values(|s: String| s@);
    let ghost start = out@;
    let mut i: usize = 0;
    while i < parts.len()
        invariant
            i <= parts@.len() == pm.len(),
            pm == parts@.map_values(|s: String| s@),
            out@ == start + comma_each(pm.take(i as int)),
        decreases parts@.len() - i,
    {
        assert(pm.take(i + 1).drop_last() =~= pm.take(i as int));
        push_str(out, ",");
        push_str(out, parts[i].as_str());
        i += 1;
        assert(out@ =~= start + comma_each(pm.take(i as int)));
    }
    assert(pm.take(pm.len() as int) =~= pm);
}

fn push_csv_row(out: &mut String, row: &QueryRow, ck: &Vec<String>, vk: &Vec<String>)
    ensures
        final(out)@ == old(out)@ + csv_line(
            row.model(),
            ck@.map_values(|s: String| s@),
            vk@.map_values(|s: String| s@),
        ),
{
    let ghost ckm = ck@.map_values(|s: String| s@);
    let ghost vkm = vk@.map_values(|s: String| s@);
    let ghost rm = row.model();
    let mut coords: Vec<String> = Vec::new();
    let mut i: usize = 0;
    while i < ck.len()
        invariant
            i <= ck@.len() == ckm.len(),
            ckm == ck@.map_values(|s: String| s@),
            rm == row.model(),
            coords@.len() == i,
            forall|t: int| 0 <= t < i ==> #[trigger] coords@[t]@ == coord_or(rm, ckm[t], seq![]),
        decreases ck@.len() - i,
    {
        let cell = match row.coord.get(ck[i].as_str()) {
            Some(v) => v.clone(),
            None => String::new(),
        };
        coords.push(cell);
        i += 1;
    }
    assert(coords@.map_values(|s: String| s@) =~= ckm.map_values(|k: Seq<char>| coord_or(rm, k, seq![])));
    let mut vals: Vec<String> = Vec::new();
    let mut j: usize = 0;
    while j < vk.len()
        invariant
            j <= vk@.len() == vkm.len(),
            vkm == vk@.map_values(|s: String| s@),
            rm == row.model(),
            vals@.len() == j,
            forall|t: int|
                0 <= t < j ==> #[trigger] vals@[t]@ == match value_of(rm.values, vkm[t]) {
                    Some(c) => c.csv,
                    None => seq![],
                },
        decreases vk@.len() - j,
    {
        let cell = match find_value(&row.values, vk[j].as_str()) {
            Some(c) => c.csv.clone(),
            None => String::new(),
        };
        vals.push(cell);
        j += 1;
    }
    assert(vals@.map_values(|s: String| s@) =~= vkm.map_values(
        |k: Seq<char>|
            match value_of(rm.values, k) {
                Some(c) => c.csv,
                None => seq![],
            },
    ));
    push_joined_texts(out, &coords);
    push_comma_each(out, &vals);
    push_str(out, "\n");
}

/// The CSV listing of the rows, under the first row's columns.
pub fn format_csv(results: &Vec<QueryRow>) -> (r: String)
    ensures
        r@ == csv_listing(row_models(results@)),
{
    let ghost m = row_models(results@);
    if results.len() == 0 {
        return String::new();
    }
    let ck = key_list(&results[0].coord);
    let vk = value_key_list(&results[0].values);
    let ghost ckm = ck@.map_values(|s: String| s@);
    let ghost vkm = vk@.map_values(|s: String| s@);
    assert(ckm == coord_keys(m[0]));
    assert(vkm == value_keys(m[0]));
    let mut out = String::new();
    push_joined_texts(&mut out, &ck);
    push_comma_each(&mut out, &vk);
    push_str(&mut out, "\n");
    let ghost head = out@;
    let mut i: usize = 0;
    while i < results.len()
        invariant
            i <= results@.len() == m.len(),
            m == row_models(results@),
            ckm == ck@.map_values(|s: String| s@),
            vkm == vk@.map_values(|s: String| s@),
            out@ == head + csv_rows(m.take(i as int), ckm, vkm),
        decreases results@.len() - i,
    {
        assert(m.take(i + 1).drop_last() =~= m.take(i as int));
        assert(m.take(i + 1).last() == results@[i as int].model());
        push_csv_row(&mut out, &results[i], &ck, &vk);
        i += 1;
    }
    assert(m.take(m.len() as int) =~= m);
    out
}

// ---------------------------------------------------------------------------
// JSON
// ---------------------------------------------------------------------------

/// The members of a row's `values` object, comma-separated.
pub open spec fn json_values_body(vals: Seq<(Seq<char>, CellModel)>) -> Seq<char>
    decreases vals.len(),
{
    if vals.len() == 0 {
        seq![]
    } else {
        let prev = json_values_body(vals.drop_last());
        let sep: Seq<char> = if vals.len() > 1 { ","@ } else { seq![] };
        prev + sep + quoted(EscapeSet::Minimal, vals.last().0) + ":"@ + vals.last().1.json
    }
}

/// One row of the `results` array, without its separator.
pub open spec fn json_row(r: RowModel) -> Seq<char> {
    "    {\"coord\": "@ + seq!['{'] + coord_json_body(r.coord) + seq!['}'] + ", \"values\": {"@
        + json_values_body(r.values) + "}}"@
}

/// The rows of the `results` array, each ended by `,\n` but the last of
/// `total` rows, which is ended by `\n`.
pub open spec fn json_rows(v: Seq<RowModel>, total: int) -> Seq<char>
    decreases v.len(),
{
    if v.len() == 0 {
        seq![]
    } else {
        let end: Seq<char> = if v.len() == total { "\n"@ } else { ",\n"@ };
        json_rows(v.drop_last(), total) + json_row(v.last()) + end
    }
}

/// The JSON envelope: schema version, the filter text (or `null`), the
/// rows, the count and a null `aggregates`.
pub open spec fn json_listing(
    schema: Seq<char>,
    query: Option<Seq<char>>,
    v: Seq<RowModel>,
    count: nat,
) -> Seq<char> {
    let q: Seq<char> = match query {
        Some(t) => quoted(EscapeSet::Minimal, t),
        None => "null"@,
    };
    "{\n  \"schema_version\": \""@ + schema + "\",\n  "@ + "\"query\": "@ + q
        + ",\n  \"results\": [\n"@ + json_rows(v, v.len() as int) + "  ],\n  \"count\": "@
        + nat_decimal(count) + ",\n  \"aggregates\": null\n}\n"@
}

fn push_json_values(out: &mut String, vals: &Vec<(String, CellTexts)>)
    ensures
        final(out)@ == old(out)@ + json_values_body(
            vals@.map_values(|p: (String, CellTexts)| (p.0@, p.1.model())),
        ),
{
    let ghost vm = vals@.map_values(|p: (String, CellTexts)| (p.0@, p.1.model()));
    let ghost start = out@;
    let mut j: usize = 0;
    assert(vm.take(0) =~= Seq::<(Seq<char>, CellModel)>::empty());
    while j < vals.len()
        invariant
            j <= vals@.len() == vm.len(),
            vm == vals@.map_values(|p: (String, CellTexts)| (p.0@, p.1.model())),
            out@ == start + json_values_body(vm.take(j as int)),
        decreases vals@.len() - j,
    {
        assert(vm.take(j + 1).drop_last() =~= vm.take(j as int));
        assert(vm.take(j + 1).last() == vm[j as int]);
        if j > 0 {
            push_str(out, ",");
        }
        push_json_str(out, vals[j].0.as_str());
        push_str(out, ":");
        push_str(out, vals[j].1.json.as_str());
        j += 1;
        assert(out@ =~= start + json_values_body(vm.take(j as int)));
    }
    assert(vm.take(vm.len() as int) =~= vm);
}

fn push_json_row(out: &mut String, row: &QueryRow)
    ensures
        final(out)@ == old(out)@ + json_row(row.model()),
{
    push_str(out, "    {\"coord\": ");
    let c = format_coord_json(&row.coord);
    push_str(out, c.as_str());
    push_str(out, ", \"values\": {");
    push_json_values(out, &row.values);
    push_str(out, "}}");
}

/// The JSON listing of the rows; `schema` is the model schema version.
pub fn format_json(schema: &str, results: &Vec<QueryRow>, where_expr: &Option<String>, count: usize) -> (r: String)
    ensures
        r@ == json_listing(
            schema@,
            match where_expr {
                Some(q) => Some(q@),
                None => None,
            },
            row_models(results@),
            count as nat,
        ),
{
    let ghost m = row_models(results@);
    let mut out = lit("{\n  \"schema_version\": \"");
    push_str(&mut out, schema);
    push_str(&mut out, "\",\n  ");
    push_str(&mut out, "\"query\": ");
    match where_expr {
        Some(q) => push_json_str(&mut out, q.as_str()),
        None => push_str(&mut out, "null"),
    }
    push_str(&mut out, ",\n  \"results\": [\n");
    let ghost head = out@;
    let mut i: usize = 0;
    while i < results.len()
        invariant
            i <= results@.len() == m.len(),
            m == row_models(results@),
            out@ == head + json_rows(m.take(i as int), m.len() as int),
        decreases results@.len() - i,
    {
        assert(m.take(i + 1).drop_last() =~= m.take(i as int));
        assert(m.take(i + 1).last() == results@[i as int].model());
        push_json_row(&mut out, &results[i]);
        if i + 1 < results.len() {
            push_str(&mut out, ",\n");
        } else {
            push_str(&mut out, "\n");
        }
        i += 1;
        assert(out@ =~= head + json_rows(m.take(i as int), m.len() as int));
    }
    assert(m.take(m.len() as int) =~= m);
    push_str(&mut out, "  ],\n  \"count\": ");
    let d = usize_to_string(count);
    push_str(&mut out, d.as_str());
    push_str(&mut out, ",\n  \"aggregates\": null\n}\n");
    out
}

} // verus!
