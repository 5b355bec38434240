//! The renderings of a narrative report: plain text, Markdown grouped by
//! severity, and JSON. A narrative's evidence values arrive already
//! rendered as JSON text.
use crate::escape::{quoted, EscapeSet};
use crate::narrate::json_str;
use crate::text::{lit, push_str};
use vstd::prelude::*;

verus! {

/// How serious a narrative is.
#[derive(Debug, Clone, Copy, PartialEq, Eq, Structural)]
pub enum NarrativeSeverity {
    Info,
    Success,
    Warning,
    Critical,
    /// A severity this report has no special treatment for.
    Other,
}

/// One narrative, as the renderings read it.
#[derive(Debug, Clone)]
pub struct NarrativeRow {
    pub id: String,
    pub template_id: String,
    pub severity: NarrativeSeverity,
    pub text: String,
    /// Evidence keys with their values as JSON text.
    pub evidence: Vec<(String, String)>,
}

pub struct NarrativeModel {
    pub id: Seq<char>,
    pub template_id: Seq<char>,
    pub severity: NarrativeSeverity,
    pub text: Seq<char>,
    pub evidence: Seq<(Seq<char>, Seq<char>)>,
}

impl NarrativeRow {
    pub open spec fn model(&self) -> NarrativeModel {
        NarrativeModel {
            id: self.id@,
            template_id: self.template_id@,
            severity: self.severity,
            text: self.text@,
            evidence: self.evidence@.map_values(|p: (String, String)| (p.0@, p.1@)),
        }
    }
}

pub open spec fn narrative_models(v: Seq<NarrativeRow>) -> Seq<NarrativeModel> {
    v.map_values(|n: NarrativeRow| n.model())
}

// ---------------------------------------------------------------------------
// Text
// ---------------------------------------------------------------------------

/// The fixed-width tag in front of a narrative's text.
pub open spec fn severity_prefix(s: NarrativeSeverity) -> Seq<char> {
    match s {
        NarrativeSeverity::Critical => "[CRITICAL] "@,
        NarrativeSeverity::Warning => "[WARNING]  "@,
        NarrativeSeverity::Info => "[INFO]     "@,
        NarrativeSeverity::Success => "[SUCCESS]  "@,
        NarrativeSeverity::Other => "[NOTE]     "@,
    }
}

/// One line per narrative: its tag and its text.
pub open spec fn text_report(v: Seq<NarrativeModel>) -> Seq<char>
    decreases v.len(),
{
    if v.len() == 0 {
        seq![]
    } else {
        text_report(v.drop_last()) + severity_prefix(v.last().severity) + v.last().text + "\n"@
    }
}

fn prefix_of(s: NarrativeSeverity) -> (r: &'static str)
    ensures
        r@ == severity_prefix(s),
{
    match s {
        NarrativeSeverity::Critical => "[CRITICAL] ",
        NarrativeSeverity::Warning => "[WARNING]  ",
        NarrativeSeverity::Info => "[INFO]     ",
        NarrativeSeverity::Success => "[SUCCESS]  ",
        NarrativeSeverity::Other => "[NOTE]     ",
    }
}

/// The plain-text report.
pub fn render_text(narratives: &Vec<NarrativeRow>) -> (r: String)
    ensures
        r@ == text_report(narrative_models(narratives@)),
{
    let ghost m = narrative_models(narratives@);
    let mut out = String::new();
    let mut i: usize = 0;
    while i < narratives.len()
        invariant
            i <= narratives@.len(),
            m == narrative_models(narratives@),
            out@ == text_report(m.take(i as int)),
        decreases narratives@.len() - i,
    {
        let n = &narratives[i];
        assert(m.take(i + 1).drop_last() =~= m.take(i as int));
        assert(m.take(i + 1).last() == n.model());
        push_str(&mut out, prefix_of(n.severity));
        push_str(&mut out, n.text.as_str());
        push_str(&mut out, "\n");
        i += 1;
    }
    assert(m.take(m.len() as int) =~= m);
    out
}

// ---------------------------------------------------------------------------
// Markdown
// ---------------------------------------------------------------------------

/// The Markdown sections a severity belongs to: 0 critical, 1 warnings,
/// 2 insights, 3 none.
pub open spec fn section_of(s: NarrativeSeverity) -> nat {
    match s {
        NarrativeSeverity::Critical => 0,
        NarrativeSeverity::Warning => 1,
        NarrativeSeverity::Info | NarrativeSeverity::Success => 2,
        NarrativeSeverity::Other => 3,
    }
}

/// A list item: bold template id and text in the first two sections,
/// the text alone among the insights.
pub open spec fn markdown_item(n: NarrativeModel, section: nat) -> Seq<char> {
    if section == 2 {
        "- "@ + n.text + "\n"@
    } else {
        "- **"@ + n.template_id + "**: "@ + n.text + "\n"@
    }
}

/// The items of the narratives in `section`, in order.
pub open spec fn section_items(v: Seq<NarrativeModel>, section: nat) -> Seq<char>
    decreases v.len(),
{
    if v.len() == 0 {
        seq![]
    } else if section_of(v.last().severity) == section {
        section_items(v.drop_last(), section) + markdown_item(v.last(), section)
    } else {
        section_items(v.drop_last(), section)
    }
}

pub open spec fn section_title(section: nat) -> Seq<char> {
    if section == 0 {
        "## Critical\n\n"@
    } else if section == 1 {
        "## Warnings\n\n"@
    } else {
        "## Insights\n\n"@
    }
}

/// A section with its heading and a blank line after it; nothing when it
/// has no items.
pub open spec fn section_block(v: Seq<NarrativeModel>, section: nat) -> Seq<char> {
    let items = section_items(v, section);
    if items.len() == 0 {
        seq![]
    } else {
        section_title(section) + items + "\n"@
    }
}

/// The Markdown report: a title, then the critical, warning and insight
/// sections.
pub open spec fn markdown_report(v: Seq<NarrativeModel>) -> Seq<char> {
    "# Narrative Report\n\n"@ + section_block(v, 0) + section_block(v, 1) + section_block(v, 2)
}

proof fn lemma_item_nonempty(n: NarrativeModel, section: nat)
    ensures
        markdown_item(n, section).len() > 0,
{
    reveal_strlit("\n");
    assert(("\n"@).len() == 1);
}

proof fn lemma_items_empty(v: Seq<NarrativeModel>, section: nat)
    ensures
        section_items(v, section).len() == 0 <==> forall|k: int|
            0 <= k < v.len() ==> section_of(#[trigger] v[k].severity) != section,
    decreases v.len(),
{
    if v.len() > 0 {
        lemma_items_empty(v.drop_last(), section);
        lemma_item_nonempty(v.last(), section);
        if section_of(v.last().severity) != section {
            assert forall|k: int| 0 <= k < v.len() - 1 implies v.drop_last()[k] == v[k] by {}
        }
    }
}

fn item_of(n: &NarrativeRow, section: usize) -> (r: String)
    requires
        section <= 2,
    ensures
        r@ == markdown_item(n.model(), section as nat),
{
    if section == 2 {
        let mut m = lit("- ");
        push_str(&mut m, n.text.as_str());
        push_str(&mut m, "\n");
        m
    } else {
        let mut m = lit("- **");
        push_str(&mut m, n.template_id.as_str());
        push_str(&mut m, "**: ");
        push_str(&mut m, n.text.as_str());
        push_str(&mut m, "\n");
        m
    }
}

fn section_of_exec(s: NarrativeSeverity) -> (r: usize)
    ensures
        r == section_of(s),
{
    match s {
        NarrativeSeverity::Critical => 0,
        NarrativeSeverity::Warning => 1,
        NarrativeSeverity::Info | NarrativeSeverity::Success => 2,
        NarrativeSeverity::Other => 3,
    }
}

fn push_section(out: &mut String, narratives: &Vec<NarrativeRow>, section: usize)
    requires
        section <= 2,
    ensures
        final(out)@ == old(out)@ + section_block(narrative_models(narratives@), section as nat),
{
    let ghost m = narrative_models(narratives@);
    let mut items = String::new();
    let mut i: usize = 0;
    while i < narratives.len()
        invariant
            i <= narratives@.len(),
            section <= 2,
            m == narrative_models(narratives@),
            items@ == section_items(m.take(i as int), section as nat),
        decreases narratives@.len() - i,
    {
        let n = &narratives[i];
        assert(m.take(i + 1).drop_last() =~= m.take(i as int));
        assert(m.take(i + 1).last() == n.model());
        if section_of_exec(n.severity) == section {
            let it = item_of(n, section);
            push_str(&mut items, it.as_str());
        }
        i += 1;
    }
    assert(m.take(m.len() as int) =~= m);
    if items.as_str().unicode_len() > 0 {
        let title = if section == 0 {
            "## Critical\n\n"
        } else if section == 1 {
            "## Warnings\n\n"
        } else {
            "## Insights\n\n"
        };
        push_str(out, title);
        push_str(out, items.as_str());
        push_str(out, "\n");
    }
}

/// The Markdown report, grouped by severity.
pub fn render_markdown(narratives: &Vec<NarrativeRow>) -> (r: String)
    ensures
        r@ == markdown_report(narrative_models(narratives@)),
{
    let mut out = lit("# Narrative Report\n\n");
    push_section(&mut out, narratives, 0);
    push_section(&mut out, narratives, 1);
    push_section(&mut out, narratives, 2);
    out
}

// ---------------------------------------------------------------------------
// JSON
// ---------------------------------------------------------------------------

/// The JSON name of a severity.
pub open spec fn severity_word(s: NarrativeSeverity) -> Seq<char> {
    match s {
        NarrativeSeverity::Success => "success"@,
        NarrativeSeverity::Warning => "warning"@,
        NarrativeSeverity::Critical => "critical"@,
        _ => "info"@,
    }
}

pub open spec fn js(s: Seq<char>) -> Seq<char> {
    quoted(EscapeSet::Common, s)
}

/// The evidence members after the opening brace, one per line.
pub open spec fn evidence_lines(e: Seq<(Seq<char>, Seq<char>)>, n: nat) -> Seq<char>
    decreases n,
{
    if n == 0 {
        seq![]
    } else {
        let k = (n - 1) as int;
        evidence_lines(e, (n - 1) as nat) + "        "@ + js(e[k].0) + ": "@ + e[k].1 + (if k + 1
            < e.len() {
            ","@
        } else {
            seq![]
        }) + "\n"@
    }
}

/// The evidence object.
pub open spec fn evidence_json(e: Seq<(Seq<char>, Seq<char>)>) -> Seq<char> {
    if e.len() == 0 {
        "}"@
    } else {
        "\n"@ + evidence_lines(e, e.len()) + "      }"@
    }
}

/// One narrative object (without what separates it from the next).
pub open spec fn narrative_json(n: NarrativeModel) -> Seq<char> {
    "    {\n"@ + "      \"id\": "@ + js(n.id) + ",\n"@ + "      \"template_id\": "@ + js(n.template_id)
        + ",\n"@ + "      \"severity\": "@ + js(severity_word(n.severity)) + ",\n"@ + "      \"text\": "@
        + js(n.text) + ",\n"@ + "      \"evidence\": {"@ + evidence_json(n.evidence) + "\n"@ + "    }"@
}

/// The first `k` narrative objects, each followed by a comma unless it is
/// the last of all `total`, and a newline.
pub open spec fn narrative_items(v: Seq<NarrativeModel>, k: nat) -> Seq<char>
    decreases k,
{
    if k == 0 {
        seq![]
    } else {
        let j = (k - 1) as int;
        narrative_items(v, (k - 1) as nat) + narrative_json(v[j]) + (if j + 1 < v.len() {
            ","@
        } else {
            seq![]
        }) + "\n"@
    }
}

/// The JSON report.
pub open spec fn json_report(v: Seq<NarrativeModel>) -> Seq<char> {
    if v.len() == 0 {
        "{\n  \"schema_version\": \"1.0\",\n  \"narratives\": ["@ + "]\n}\n"@
    } else {
        "{\n  \"schema_version\": \"1.0\",\n  \"narratives\": ["@ + "\n"@ + narrative_items(v, v.len())
            + "  ]\n}\n"@
    }
}

fn word_of(s: NarrativeSeverity) -> (r: &'static str)
    ensures
        r@ == severity_word(s),
{
    match s {
        NarrativeSeverity::Success => "success",
        NarrativeSeverity::Warning => "warning",
        NarrativeSeverity::Critical => "critical",
        _ => "info",
    }
}

fn push_evidence(out: &mut String, e: &Vec<(String, String)>)
    ensures
        final(out)@ == old(out)@ + evidence_json(e@.map_values(|p: (String, String)| (p.0@, p.1@))),
{
    let ghost ev = e@.map_values(|p: (String, String)| (p.0@, p.1@));
    if e.len() == 0 {
        push_str(out, "}");
        return;
    }
    push_str(out, "\n");
    let ghost start = out@;
    let mut j: usize = 0;
    while j < e.len()
        invariant
            j <= e@.len() == ev.len(),
            ev == e@.map_values(|p: (String, String)| (p.0@, p.1@)),
            out@ == start + evidence_lines(ev, j as nat),
        decreases e@.len() - j,
    {
        let (k, v) = &e[j];
        assert(ev[j as int] == (k@, v@));
        push_str(out, "        ");
        let q = json_str(k.as_str());
        push_str(out, q.as_str());
        push_str(out, ": ");
        push_str(out, v.as_str());
        if j + 1 < e.len() {
            push_str(out, ",");
        }
        push_str(out, "\n");
        j += 1;
        assert(out@ =~= start + evidence_lines(ev, j as nat));
    }
    push_str(out, "      }");
}

fn push_field(out: &mut String, label: &str, value: &str)
    ensures
        final(out)@ == old(out)@ + label@ + js(value@) + ",\n"@,
{
    push_str(out, label);
    let q = json_str(value);
    push_str(out, q.as_str());
    push_str(out, ",\n");
}

fn push_narrative(out: &mut String, n: &NarrativeRow)
    ensures
        final(out)@ == old(out)@ + narrative_json(n.model()),
{
    push_str(out, "    {\n");
    push_field(out, "      \"id\": ", n.id.as_str());
    push_field(out, "      \"template_id\": ", n.template_id.as_str());
    push_field(out, "      \"severity\": ", word_of(n.severity));
    push_field(out, "      \"text\": ", n.text.as_str());
    push_str(out, "      \"evidence\": {");
    push_evidence(out, &n.evidence);
    push_str(out, "\n");
    push_str(out, "    }");
    assert(out@ =~= old(out)@ + narrative_json(n.model()));
}

proof fn lemma_items_step(v: Seq<NarrativeModel>, k: nat)
    requires
        k < v.len(),
    ensures
        narrative_items(v, k + 1) == narrative_items(v, k) + item_text(v[k as int], k + 1 < v.len()),
{
}

/// A narrative object, a comma when more follow, and a newline.
pub open spec fn item_text(n: NarrativeModel, more: bool) -> Seq<char> {
    narrative_json(n) + (if more {
        ","@
    } else {
        seq![]
    }) + "\n"@
}

fn push_item(out: &mut String, n: &NarrativeRow, more: bool)
    ensures
        final(out)@ == old(out)@ + item_text(n.model(), more),
{
    push_narrative(out, n);
    if more {
        push_str(out, ",");
    }
    push_str(out, "\n");
    assert(out@ =~= old(out)@ + item_text(n.model(), more));
}

/// The JSON report.
pub fn render_json(narratives: &Vec<NarrativeRow>) -> (r: String)
    ensures
        r@ == json_report(narrative_models(narratives@)),
{
    let ghost m = narrative_models(narratives@);
    let mut out = lit("{\n  \"schema_version\": \"1.0\",\n  \"narratives\": [");
    if narratives.len() == 0 {
        push_str(&mut out, "]\n}\n");
        return out;
    }
    push_str(&mut out, "\n");
    let ghost start = out@;
    let mut i: usize = 0;
    while i < narratives.len()
        invariant
            i <= narratives@.len() == m.len(),
            m == narrative_models(narratives@),
            out@ == start + narrative_items(m, i as nat),
        decreases narratives@.len() - i,
    {
        let n = &narratives[i];
        assert(m[i as int] == n.model());
        let ghost before = out@;
        push_item(&mut out, n, i + 1 < narratives.len());
        proof {
            lemma_items_step(m, i as nat);
        }
        i += 1;
        assert(out@ =~= start + narrative_items(m, i as nat));
    }
    push_str(&mut out, "  ]\n}\n");
    out
}

/// The list items of the narratives whose severity `keep` accepts, in
/// order: `- **template**: text` when `bold`, else `- text`.
pub open spec fn listed(v: Seq<NarrativeModel>, keep: spec_fn(NarrativeSeverity) -> bool, bold: bool) -> Seq<char>
    decreases v.len(),
{
    if v.len() == 0 {
        seq![]
    } else {
        let n = v.last();
        let item: Seq<char> = if !keep(n.severity) {
            seq![]
        } else if bold {
            "- **"@ + n.template_id + "**: "@ + n.text + "\n"@
        } else {
            "- "@ + n.text + "\n"@
        };
        listed(v.drop_last(), keep, bold) + item
    }
}

/// A heading with its items and a closing blank line, or nothing when
/// there are no items.
pub open spec fn titled(title: Seq<char>, items: Seq<char>) -> Seq<char> {
    if items.len() == 0 {
        seq![]
    } else {
        title + items + "\n"@
    }
}

proof fn lemma_section_lists(
    v: Seq<NarrativeModel>,
    section: nat,
    keep: spec_fn(NarrativeSeverity) -> bool,
    bold: bool,
)
    requires
        forall|s: NarrativeSeverity| (section_of(s) == section) == #[trigger] keep(s),
        bold == (section != 2),
    ensures
        section_items(v, section) == listed(v, keep, bold),
    decreases v.len(),
{
    if v.len() > 0 {
        lemma_section_lists(v.drop_last(), section, keep, bold);
        assert(keep(v.last().severity) == (section_of(v.last().severity) == section));
        if keep(v.last().severity) {
            assert(markdown_item(v.last(), section) == (if bold {
                "- **"@ + v.last().template_id + "**: "@ + v.last().text + "\n"@
            } else {
                "- "@ + v.last().text + "\n"@
            }));
        } else {
            assert(listed(v.drop_last(), keep, bold) + seq![] =~= listed(v.drop_last(), keep, bold));
        }
    }
}

/// The Markdown report is the title, then every critical narrative under
/// "## Critical", every warning under "## Warnings" (each as
/// `- **template**: text`), and every info or success narrative under
/// "## Insights" (as `- text`), each once and in the order given; a
/// heading appears only over at least one item, and narratives of any
/// other severity are left out.
pub proof fn law_markdown_sections(v: Seq<NarrativeModel>)
    ensures
        markdown_report(v) == "# Narrative Report\n\n"@ + titled(
            "## Critical\n\n"@,
            listed(v, |s: NarrativeSeverity| s == NarrativeSeverity::Critical, true),
        ) + titled("## Warnings\n\n"@, listed(v, |s: NarrativeSeverity| s == NarrativeSeverity::Warning, true))
            + titled(
            "## Insights\n\n"@,
            listed(v, |s: NarrativeSeverity| s == NarrativeSeverity::Info || s == NarrativeSeverity::Success, false),
        ),
{
    let kc = |s: NarrativeSeverity| s == NarrativeSeverity::Critical;
    let kw = |s: NarrativeSeverity| s == NarrativeSeverity::Warning;
    let ki = |s: NarrativeSeverity| s == NarrativeSeverity::Info || s == NarrativeSeverity::Success;
    lemma_section_lists(v, 0, kc, true);
    lemma_section_lists(v, 1, kw, true);
    lemma_section_lists(v, 2, ki, false);
}

} // verus!
