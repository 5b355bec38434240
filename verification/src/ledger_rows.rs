//! Narrative ledger entries as plain text fields, and their text and CSV
//! renderings for `mc model query-ledger` and `mc model ledger-export`.
use crate::ledger_export::{csv_field, csv_field_spec, passes_since, since_keeps};
use crate::text::{lit, nat_decimal, push_str, str_eq, usize_to_string};
use vstd::prelude::*;

verus! {

/// One ledger entry, as the renderings read it. The notability score is
/// carried as the text it renders to.
#[derive(Debug, Clone)]
pub struct LedgerRow {
    pub ledger_entry_id: String,
    pub generated_at: String,
    pub model: String,
    pub model_hash: String,
    pub report_period: Option<String>,
    pub severity: String,
    pub template_id: String,
    pub text: String,
    pub notability: Option<String>,
}

pub struct LedgerRowModel {
    pub ledger_entry_id: Seq<char>,
    pub generated_at: Seq<char>,
    pub model: Seq<char>,
    pub model_hash: Seq<char>,
    pub report_period: Option<Seq<char>>,
    pub severity: Seq<char>,
    pub template_id: Seq<char>,
    pub text: Seq<char>,
    pub notability: Option<Seq<char>>,
}

pub open spec fn opt_text(o: Option<String>) -> Option<Seq<char>> {
    match o {
        Some(s) => Some(s@),
        None => None,
    }
}

impl LedgerRow {
    pub open spec fn model(&self) -> LedgerRowModel {
        LedgerRowModel {
            ledger_entry_id: self.ledger_entry_id@,
            generated_at: self.generated_at@,
            model: self.model@,
            model_hash: self.model_hash@,
            report_period: opt_text(self.report_period),
            severity: self.severity@,
            template_id: self.template_id@,
            text: self.text@,
            notability: opt_text(self.notability),
        }
    }
}

pub open spec fn row_models(v: Seq<LedgerRow>) -> Seq<LedgerRowModel> {
    v.map_values(|r: LedgerRow| r.model())
}

// ---------------------------------------------------------------------------
// Text
// ---------------------------------------------------------------------------

/// The fixed-width badge of a severity.
pub open spec fn severity_badge(sev: Seq<char>) -> Seq<char> {
    if sev == "critical"@ {
        "[CRITICAL]"@
    } else if sev == "warning"@ {
        "[WARNING] "@
    } else if sev == "success"@ {
        "[SUCCESS] "@
    } else if sev == "info"@ {
        "[INFO]    "@
    } else {
        "[NOTE]    "@
    }
}

/// `<badge> <period> | <template> | <text>` and a newline.
pub open spec fn text_line(e: LedgerRowModel) -> Seq<char> {
    let period = match e.report_period {
        Some(p) => p,
        None => "(no period)"@,
    };
    severity_badge(e.severity) + " "@ + period + " | "@ + e.template_id + " | "@ + e.text + "\n"@
}

pub open spec fn text_lines(v: Seq<LedgerRowModel>) -> Seq<char>
    decreases v.len(),
{
    if v.len() == 0 {
        seq![]
    } else {
        text_lines(v.drop_last()) + text_line(v.last())
    }
}

/// The text listing of ledger entries, with a count line.
pub open spec fn text_listing(v: Seq<LedgerRowModel>) -> Seq<char> {
    if v.len() == 0 {
        "No matching ledger entries.\n"@
    } else {
        text_lines(v) + "\n"@ + nat_decimal(v.len()) + " entries.\n"@
    }
}

fn badge(sev: &str) -> (r: &'static str)
    ensures
        r@ == severity_badge(sev@),
{
    if str_eq(sev, "critical") {
        "[CRITICAL]"
    } else if str_eq(sev, "warning") {
        "[WARNING] "
    } else if str_eq(sev, "success") {
        "[SUCCESS] "
    } else if str_eq(sev, "info") {
        "[INFO]    "
    } else {
        "[NOTE]    "
    }
}

/// One line per entry (`<badge> <period> | <template> | <text>`), then
/// the number of entries; a fixed line when there are none.
pub fn render_text(entries: &Vec<LedgerRow>) -> (r: String)
    ensures
        r@ == text_listing(row_models(entries@)),
{
    let ghost m = row_models(entries@);
    if entries.len() == 0 {
        return lit("No matching ledger entries.\n");
    }
    let mut out = String::new();
    let mut i: usize = 0;
    while i < entries.len()
        invariant
            i <= entries@.len(),
            m == row_models(entries@),
            out@ == text_lines(m.take(i as int)),
        decreases entries@.len() - i,
    {
        let e = &entries[i];
        assert(m.take(i + 1).drop_last() =~= m.take(i as int));
        assert(m.take(i + 1).last() == e.model());
        push_str(&mut out, badge(e.severity.as_str()));
        push_str(&mut out, " ");
        match &e.report_period {
            Some(p) => push_str(&mut out, p.as_str()),
            None => push_str(&mut out, "(no period)"),
        }
        push_str(&mut out, " | ");
        push_str(&mut out, e.template_id.as_str());
        push_str(&mut out, " | ");
        push_str(&mut out, e.text.as_str());
        push_str(&mut out, "\n");
        i += 1;
    }
    assert(m.take(m.len() as int) =~= m);
    push_str(&mut out, "\n");
    let n = usize_to_string(entries.len());
    push_str(&mut out, n.as_str());
    push_str(&mut out, " entries.\n");
    out
}

// ---------------------------------------------------------------------------
// CSV
// ---------------------------------------------------------------------------

/// The CSV header line.
pub open spec fn csv_header() -> Seq<char> {
    "ledger_entry_id,generated_at,model,model_hash,report_period,severity,template_id,text,notability_score\n"@
}

/// The identifying fields of a CSV record, each followed by a comma.
pub open spec fn csv_ident_fields(e: LedgerRowModel) -> Seq<char> {
    csv_field_spec(e.ledger_entry_id) + ","@ + csv_field_spec(e.generated_at) + ","@ + csv_field_spec(
        e.model,
    ) + ","@ + csv_field_spec(e.model_hash) + ","@
}

/// The narrative fields of a CSV record, each followed by a comma.
pub open spec fn csv_story_fields(e: LedgerRowModel) -> Seq<char> {
    let period = match e.report_period {
        Some(p) => p,
        None => seq![],
    };
    csv_field_spec(period) + ","@ + csv_field_spec(e.severity) + ","@ + csv_field_spec(e.template_id)
        + ","@ + csv_field_spec(e.text) + ","@
}

/// One CSV record: each text field quoted as needed, the score last.
pub open spec fn csv_line(e: LedgerRowModel) -> Seq<char> {
    let score = match e.notability {
        Some(s) => s,
        None => seq![],
    };
    csv_ident_fields(e) + csv_story_fields(e) + score + "\n"@
}

pub open spec fn csv_lines(v: Seq<LedgerRowModel>) -> Seq<char>
    decreases v.len(),
{
    if v.len() == 0 {
        seq![]
    } else {
        csv_lines(v.drop_last()) + csv_line(v.last())
    }
}

fn push_csv(out: &mut String, s: &str)
    ensures
        final(out)@ == old(out)@ + csv_field_spec(s@) + ","@,
{
    let f = csv_field(s);
    push_str(out, f.as_str());
    push_str(out, ",");
}

fn push_ident_fields(out: &mut String, e: &LedgerRow)
    ensures
        final(out)@ == old(out)@ + csv_ident_fields(e.model()),
{
    push_csv(out, e.ledger_entry_id.as_str());
    push_csv(out, e.generated_at.as_str());
    push_csv(out, e.model.as_str());
    push_csv(out, e.model_hash.as_str());
    assert(out@ =~= old(out)@ + csv_ident_fields(e.model()));
}

fn push_story_fields(out: &mut String, e: &LedgerRow)
    ensures
        final(out)@ == old(out)@ + csv_story_fields(e.model()),
{
    match &e.report_period {
        Some(p) => push_csv(out, p.as_str()),
        None => {
            let empty = String::new();
            push_csv(out, empty.as_str());
        },
    }
    push_csv(out, e.severity.as_str());
    push_csv(out, e.template_id.as_str());
    push_csv(out, e.text.as_str());
    assert(out@ =~= old(out)@ + csv_story_fields(e.model()));
}

fn push_csv_record(out: &mut String, e: &LedgerRow)
    ensures
        final(out)@ == old(out)@ + csv_line(e.model()),
{
    push_ident_fields(out, e);
    push_story_fields(out, e);
    match &e.notability {
        Some(s) => push_str(out, s.as_str()),
        None => {},
    }
    push_str(out, "\n");
    assert(out@ =~= old(out)@ + csv_line(e.model()));
}

/// The header, then one CSV record per entry.
pub fn render_csv(entries: &Vec<LedgerRow>) -> (r: String)
    ensures
        r@ == csv_header() + csv_lines(row_models(entries@)),
{
    let ghost m = row_models(entries@);
    let mut out = lit(
        "ledger_entry_id,generated_at,model,model_hash,report_period,severity,template_id,text,notability_score\n",
    );
    let ghost head = out@;
    let mut i: usize = 0;
    while i < entries.len()
        invariant
            i <= entries@.len(),
            m == row_models(entries@),
            out@ == head + csv_lines(m.take(i as int)),
        decreases entries@.len() - i,
    {
        let e = &entries[i];
        assert(m.take(i + 1).drop_last() =~= m.take(i as int));
        assert(m.take(i + 1).last() == e.model());
        push_csv_record(&mut out, e);
        i += 1;
    }
    assert(m.take(m.len() as int) =~= m);
    out
}

// ---------------------------------------------------------------------------
// Selection
// ---------------------------------------------------------------------------

/// The entries that pass `--since`, in order.
pub open spec fn kept_since(v: Seq<LedgerRowModel>, since: Option<Seq<char>>) -> Seq<LedgerRowModel>
    decreases v.len(),
{
    if v.len() == 0 {
        seq![]
    } else {
        let rest = kept_since(v.drop_last(), since);
        if since_keeps(v.last().report_period, since) {
            rest.push(v.last())
        } else {
            rest
        }
    }
}

fn copy_opt(o: &Option<String>) -> (r: Option<String>)
    ensures
        opt_text(r) == opt_text(*o),
{
    match o {
        Some(s) => Some(s.clone()),
        None => None,
    }
}

fn copy_row(e: &LedgerRow) -> (r: LedgerRow)
    ensures
        r.model() == e.model(),
{
    LedgerRow {
        ledger_entry_id: e.ledger_entry_id.clone(),
        generated_at: e.generated_at.clone(),
        model: e.model.clone(),
        model_hash: e.model_hash.clone(),
        report_period: copy_opt(&e.report_period),
        severity: e.severity.clone(),
        template_id: e.template_id.clone(),
        text: e.text.clone(),
        notability: copy_opt(&e.notability),
    }
}

/// The entries whose report period is not before `since` (all of them
/// when there is no `since`), in order.
pub fn select_since(entries: &Vec<LedgerRow>, since: Option<&str>) -> (r: Vec<LedgerRow>)
    ensures
        row_models(r@) == kept_since(
            row_models(entries@),
            match since {
                Some(s) => Some(s@),
                None => None,
            },
        ),
{
    let ghost m = row_models(entries@);
    let ghost sv = match since {
        Some(s) => Some(s@),
        None => None::<Seq<char>>,
    };
    let mut out: Vec<LedgerRow> = Vec::new();
    let mut i: usize = 0;
    while i < entries.len()
        invariant
            i <= entries@.len(),
            m == row_models(entries@),
            sv == (match since {
                Some(s) => Some(s@),
                None => None::<Seq<char>>,
            }),
            row_models(out@) == kept_since(m.take(i as int), sv),
        decreases entries@.len() - i,
    {
        let e = &entries[i];
        assert(m.take(i + 1).drop_last() =~= m.take(i as int));
        assert(m.take(i + 1).last() == e.model());
        let period = match &e.report_period {
            Some(p) => Some(p.as_str()),
            None => None,
        };
        if passes_since(period, since) {
            let ghost before = row_models(out@);
            out.push(copy_row(e));
            assert(row_models(out@) =~= before.push(e.model()));
        }
        i += 1;
    }
    assert(m.take(m.len() as int) =~= m);
    out
}

} // verus!
