//! Markdown report sections: the ranking order of scored documents, the report header,
//! the per-document details, and the loop report's head (stop reason and spike warnings),
//! round-by-round trend and warning list.
//!
//! A document's total is rounded to one decimal place, so it is shown from a whole number
//! of tenths (`73.8` is `738`). Where totals are compared (ranking) the caller hands in
//! order keys that compare as the floating-point totals do, and the round-to-round changes
//! are formatted by the caller from the floating-point differences. Sections that show
//! per-criterion averages or the held-out comparison are written by the caller.
use vstd::prelude::*;
use crate::checks::Metrics;
use crate::score::{bullet_lines, contains_string, push_bullets};
use crate::spec::{Spec, join_strings};
use crate::text::{
    chars_of, decimal, decimal_v, extend_chars, extend_str, join, starts_with, starts_with_v,
    string_of, string_views, trim, trim_v,
};

verus! {

/// The parts of a scored document that the report shows.
#[derive(Clone, Debug)]
pub struct ScoredDoc {
    pub label: String,
    /// The total score, in tenths of a point.
    pub total_tenths: usize,
    pub metrics: Metrics,
    pub comments: Vec<String>,
    pub format_issues: Vec<String>,
    pub improvements: Vec<String>,
    pub rounds: usize,
    pub models: Vec<String>,
}

// ---------------------------------------------------------------------------
// Numbers
// ---------------------------------------------------------------------------

/// `{:.1}` of a number of tenths: the whole part, a point and the tenths digit.
pub open spec fn tenths(t: nat) -> Seq<char> {
    decimal(t / 10) + "."@ + decimal(t % 10)
}

fn push_tenths(p: &mut Vec<char>, t: usize)
    ensures
        final(p)@ == old(p)@ + tenths(t as nat),
{
    let a = decimal_v(t / 10);
    extend_chars(p, &a);
    extend_str(p, ".");
    let b = decimal_v(t % 10);
    extend_chars(p, &b);
    assert(final(p)@ =~= old(p)@ + tenths(t as nat));
}

fn push_decimal(p: &mut Vec<char>, n: usize)
    ensures
        final(p)@ == old(p)@ + decimal(n as nat),
{
    let d = decimal_v(n);
    extend_chars(p, &d);
}

// ---------------------------------------------------------------------------
// Ranking
// ---------------------------------------------------------------------------

/// Document `a` comes before document `b`: a higher total, or an equal total and an
/// earlier position (a stable sort, highest total first).
pub open spec fn ranked_before(totals: Seq<u64>, a: int, b: int) -> bool {
    totals[a] > totals[b] || (totals[a] == totals[b] && a < b)
}

/// `order` lists every position of `totals` once, highest total first, equal totals in
/// the order they are given in.
pub open spec fn is_ranking(totals: Seq<u64>, order: Seq<usize>) -> bool {
    &&& order.len() == totals.len()
    &&& forall|k: int| 0 <= k < order.len() ==> (#[trigger] order[k]) < totals.len()
    &&& forall|j: int, k: int|
        0 <= j < k < order.len() ==> ranked_before(totals, #[trigger] order[j] as int, #[trigger] order[k] as int)
    &&& forall|x: int| 0 <= x < totals.len() ==> #[trigger] order.contains(x as usize)
}

/// The report order of documents, given order keys of their totals (keys compare as the
/// totals do).
pub fn rank_by_total(totals: &Vec<u64>) -> (order: Vec<usize>)
    ensures
        is_ranking(totals@, order@),
{
    let ghost t = totals@;
    let mut order: Vec<usize> = Vec::new();
    let mut i: usize = 0;
    while i < totals.len()
        invariant
            i <= t.len(),
            t == totals@,
            order@.len() == i,
            forall|k: int| 0 <= k < order@.len() ==> (#[trigger] order@[k]) < i,
            forall|j: int, k: int|
                0 <= j < k < order@.len() ==> ranked_before(t, #[trigger] order@[j] as int, #[trigger] order@[k] as int),
            forall|x: int| 0 <= x < i ==> #[trigger] order@.contains(x as usize),
        decreases totals.len() - i,
    {
        let ti = totals[i];
        let mut p: usize = 0;
        while p < order.len() && totals[order[p]] >= ti
            invariant
                p <= order@.len(),
                t == totals@,
                i < t.len(),
                ti == t[i as int],
                forall|k: int| 0 <= k < order@.len() ==> (#[trigger] order@[k]) < i,
                forall|k: int| 0 <= k < p ==> t[(#[trigger] order@[k]) as int] >= ti,
            decreases order.len() - p,
        {
            p = p + 1;
        }
        let ghost old_order = order@;
        proof {
            if p < old_order.len() {
                assert(t[old_order[p as int] as int] < ti);
            }
        }
        order.insert(p, i);
        assert(order@ == old_order.insert(p as int, i));
        assert forall|k: int| 0 <= k < order@.len() implies (#[trigger] order@[k]) < i + 1 by {
            if k < p {
                assert(order@[k] == old_order[k]);
            } else if k > p {
                assert(order@[k] == old_order[k - 1]);
            }
        }
        assert forall|j: int, k: int| 0 <= j < k < order@.len() implies ranked_before(
            t,
            #[trigger] order@[j] as int,
            #[trigger] order@[k] as int,
        ) by {
            if j < p {
                assert(order@[j] == old_order[j]);
                if k < p {
                    assert(order@[k] == old_order[k]);
                } else if k == p {
                    assert(t[old_order[j] as int] >= ti);
                    assert(old_order[j] < i);
                } else {
                    assert(order@[k] == old_order[k - 1]);
                }
            } else if j == p {
                assert(order@[k] == old_order[k - 1]);
                assert(old_order[p as int] == order@[p + 1]);
                if k > p + 1 {
                    assert(ranked_before(t, old_order[p as int] as int, old_order[k - 1] as int));
                }
                assert(t[old_order[p as int] as int] < ti);
            } else {
                assert(order@[j] == old_order[j - 1]);
                assert(order@[k] == old_order[k - 1]);
            }
        }
        assert forall|x: int| 0 <= x < i + 1 implies #[trigger] order@.contains(x as usize) by {
            if x == i {
                assert(order@[p as int] == i);
            } else {
                assert(old_order.contains(x as usize));
                let k = choose|k: int| 0 <= k < old_order.len() && old_order[k] == x as usize;
                if k < p {
                    assert(order@[k] == old_order[k]);
                } else {
                    assert(order@[k + 1] == old_order[k]);
                }
            }
        }
        i = i + 1;
    }
    order
}

// ---------------------------------------------------------------------------
// Report header
// ---------------------------------------------------------------------------

/// The scoring-basis quote, when the spec names one.
pub open spec fn source_line(spec: Spec) -> Seq<char> {
    if spec.scoring_source@.len() > 0 {
        "> Scoring basis: "@ + spec.scoring_source@ + "\n\n"@
    } else {
        seq![]
    }
}

/// Title, scoring basis, and the document count, scoring rounds and scoring models (of the
/// first row).
pub open spec fn header_spec(spec: Spec, rows: Seq<ScoredDoc>) -> Seq<char> {
    let rounds: nat = if rows.len() > 0 {
        rows[0].rounds as nat
    } else {
        0
    };
    let models = if rows.len() > 0 {
        join(string_views(rows[0].models@), ", "@)
    } else {
        seq![]
    };
    "# GEO Scoring Report — "@ + spec.name@ + "\n\n"@ + source_line(spec) + decimal(rows.len())
        + " documents · "@ + decimal(rounds) + " scoring rounds per document · Scoring model: "@
        + (if models.len() == 0 {
        "-"@
    } else {
        models
    }) + "\n\n"@
}

fn push_source_line(p: &mut Vec<char>, spec: &Spec)
    ensures
        final(p)@ == old(p)@ + source_line(*spec),
{
    if spec.scoring_source.as_str().is_empty() == false {
        extend_str(p, "> Scoring basis: ");
        extend_str(p, spec.scoring_source.as_str());
        extend_str(p, "\n\n");
    }
    assert(final(p)@ =~= old(p)@ + source_line(*spec));
}

pub fn header(spec: &Spec, rows: &[ScoredDoc]) -> (r: String)
    ensures
        r@ == header_spec(*spec, rows@),
{
    let mut p: Vec<char> = Vec::new();
    extend_str(&mut p, "# GEO Scoring Report — ");
    extend_str(&mut p, spec.name.as_str());
    extend_str(&mut p, "\n\n");
    push_source_line(&mut p, spec);
    push_decimal(&mut p, rows.len());
    extend_str(&mut p, " documents · ");
    let rounds: usize = if rows.len() > 0 {
        rows[0].rounds
    } else {
        0
    };
    push_decimal(&mut p, rounds);
    extend_str(&mut p, " scoring rounds per document · Scoring model: ");
    let models = if rows.len() > 0 {
        join_strings(&rows[0].models, ", ")
    } else {
        String::new()
    };
    if models.as_str().is_empty() {
        extend_str(&mut p, "-");
    } else {
        extend_str(&mut p, models.as_str());
    }
    extend_str(&mut p, "\n\n");
    assert(p@ =~= header_spec(*spec, rows@));
    string_of(&p)
}

// ---------------------------------------------------------------------------
// Document details
// ---------------------------------------------------------------------------

/// Word, statistic, link, FAQ and JSON-LD counts, and the `@type` values when there are any.
pub open spec fn metrics_line(m: Metrics) -> Seq<char> {
    decimal(m.words as nat) + " words · "@ + decimal(m.stat_tokens as nat) + " stat tokens · "@
        + decimal(m.source_links as nat) + " source links · "@ + decimal(m.faq_qa_count as nat)
        + " FAQ Q&As · "@ + decimal(m.jsonld_blocks as nat) + " JSON-LD blocks"@ + (
    if m.jsonld_types@.len() > 0 {
        " (@type: "@ + join(string_views(m.jsonld_types@), ", "@) + ")"@
    } else {
        seq![]
    })
}

/// The non-blank comments, each as a quote paragraph.
pub open spec fn comment_quotes(cs: Seq<Seq<char>>) -> Seq<char>
    decreases cs.len(),
{
    if cs.len() == 0 {
        seq![]
    } else {
        comment_quotes(cs.drop_last()) + if trim(cs.last()).len() > 0 {
            "> "@ + cs.last() + "\n\n"@
        } else {
            seq![]
        }
    }
}

/// The items of `xs` that are not in `excluded`, in order.
pub open spec fn not_in(xs: Seq<Seq<char>>, excluded: Seq<Seq<char>>) -> Seq<Seq<char>>
    decreases xs.len(),
{
    if xs.len() == 0 {
        seq![]
    } else if excluded.contains(xs.last()) {
        not_in(xs.drop_last(), excluded)
    } else {
        not_in(xs.drop_last(), excluded).push(xs.last())
    }
}

/// One document's details: label and total, metrics, judges' comments, the automated
/// findings, and the improvements that are not automated findings.
pub open spec fn doc_detail(s: ScoredDoc) -> Seq<char> {
    let fi = string_views(s.format_issues@);
    "\n### "@ + s.label@ + " ("@ + tenths(s.total_tenths as nat) + "/100)\n\n"@ + metrics_line(
        s.metrics,
    ) + "\n\n"@ + comment_quotes(string_views(s.comments@)) + (if fi.len() > 0 {
        "Automated format/structure checks:\n\n"@ + bullet_lines(fi) + "\n"@
    } else {
        seq![]
    }) + "Suggested improvements:\n\n"@ + bullet_lines(not_in(string_views(s.improvements@), fi))
}

pub open spec fn doc_details(rows: Seq<ScoredDoc>) -> Seq<char>
    decreases rows.len(),
{
    if rows.len() == 0 {
        seq![]
    } else {
        doc_details(rows.drop_last()) + doc_detail(rows.last())
    }
}

/// The details section of all rows, in order.
pub open spec fn details_spec(rows: Seq<ScoredDoc>) -> Seq<char> {
    "\n---\n\n## Document Details\n"@ + doc_details(rows)
}

fn push_metrics_line(p: &mut Vec<char>, m: &Metrics)
    ensures
        final(p)@ == old(p)@ + metrics_line(*m),
{
    push_decimal(p, m.words);
    extend_str(p, " words · ");
    push_decimal(p, m.stat_tokens);
    extend_str(p, " stat tokens · ");
    push_decimal(p, m.source_links);
    extend_str(p, " source links · ");
    push_decimal(p, m.faq_qa_count);
    extend_str(p, " FAQ Q&As · ");
    push_decimal(p, m.jsonld_blocks);
    extend_str(p, " JSON-LD blocks");
    if m.jsonld_types.len() > 0 {
        extend_str(p, " (@type: ");
        let ts = join_strings(&m.jsonld_types, ", ");
        extend_str(p, ts.as_str());
        extend_str(p, ")");
    }
    assert(final(p)@ =~= old(p)@ + metrics_line(*m));
}

fn push_comment_quotes(p: &mut Vec<char>, cs: &Vec<String>)
    ensures
        final(p)@ == old(p)@ + comment_quotes(string_views(cs@)),
{
    let ghost start = p@;
    let mut i: usize = 0;
    while i < cs.len()
        invariant
            i <= cs@.len(),
            p@ == start + comment_quotes(string_views(cs@).take(i as int)),
        decreases cs.len() - i,
    {
        let c = chars_of(cs[i].as_str());
        let t = trim_v(&c);
        if t.len() > 0 {
            extend_str(p, "> ");
            extend_str(p, cs[i].as_str());
            extend_str(p, "\n\n");
        }
        assert(string_views(cs@).take(i + 1).drop_last() =~= string_views(cs@).take(i as int));
        assert(p@ =~= start + comment_quotes(string_views(cs@).take(i + 1)));
        i = i + 1;
    }
    assert(string_views(cs@).take(i as int) =~= string_views(cs@));
}

fn push_not_in_bullets(p: &mut Vec<char>, xs: &Vec<String>, excluded: &Vec<String>)
    ensures
        final(p)@ == old(p)@ + bullet_lines(not_in(string_views(xs@), string_views(excluded@))),
{
    let ghost start = p@;
    let ghost ex = string_views(excluded@);
    let mut i: usize = 0;
    while i < xs.len()
        invariant
            i <= xs@.len(),
            ex == string_views(excluded@),
            p@ == start + bullet_lines(not_in(string_views(xs@).take(i as int), ex)),
        decreases xs.len() - i,
    {
        let ghost pre = string_views(xs@).take(i as int);
        assert(string_views(xs@).take(i + 1).drop_last() =~= pre);
        if !contains_string(excluded, &xs[i]) {
            extend_str(p, "- ");
            extend_str(p, xs[i].as_str());
            extend_str(p, "\n");
            assert(not_in(string_views(xs@).take(i + 1), ex) == not_in(pre, ex).push(xs@[i as int]@));
            assert(not_in(pre, ex).push(xs@[i as int]@).drop_last() =~= not_in(pre, ex));
            assert(p@ =~= start + bullet_lines(not_in(string_views(xs@).take(i + 1), ex)));
        }
        i = i + 1;
    }
    assert(string_views(xs@).take(i as int) =~= string_views(xs@));
}

/// The heading, metrics line and comment quotes of one document's details.
pub open spec fn doc_detail_head(s: ScoredDoc) -> Seq<char> {
    "\n### "@ + s.label@ + " ("@ + tenths(s.total_tenths as nat) + "/100)\n\n"@ + metrics_line(
        s.metrics,
    ) + "\n\n"@ + comment_quotes(string_views(s.comments@))
}

/// The automated findings and the remaining improvements of one document's details.
pub open spec fn doc_detail_tail(s: ScoredDoc) -> Seq<char> {
    let fi = string_views(s.format_issues@);
    (if fi.len() > 0 {
        "Automated format/structure checks:\n\n"@ + bullet_lines(fi) + "\n"@
    } else {
        seq![]
    }) + "Suggested improvements:\n\n"@ + bullet_lines(not_in(string_views(s.improvements@), fi))
}

fn push_doc_head(p: &mut Vec<char>, s: &ScoredDoc)
    ensures
        final(p)@ == old(p)@ + doc_detail_head(*s),
{
    let ghost start = p@;
    extend_str(p, "\n### ");
    extend_str(p, s.label.as_str());
    extend_str(p, " (");
    push_tenths(p, s.total_tenths);
    extend_str(p, "/100)\n\n");
    push_metrics_line(p, &s.metrics);
    extend_str(p, "\n\n");
    push_comment_quotes(p, &s.comments);
    assert(p@ =~= start + doc_detail_head(*s));
}

fn push_doc_tail(p: &mut Vec<char>, s: &ScoredDoc)
    ensures
        final(p)@ == old(p)@ + doc_detail_tail(*s),
{
    let ghost start = p@;
    if s.format_issues.len() > 0 {
        extend_str(p, "Automated format/structure checks:\n\n");
        push_bullets(p, &s.format_issues);
        extend_str(p, "\n");
    }
    extend_str(p, "Suggested improvements:\n\n");
    push_not_in_bullets(p, &s.improvements, &s.format_issues);
    assert(p@ =~= start + doc_detail_tail(*s));
}

fn push_doc_detail(p: &mut Vec<char>, s: &ScoredDoc)
    ensures
        final(p)@ == old(p)@ + doc_detail(*s),
{
    let ghost start = p@;
    push_doc_head(p, s);
    push_doc_tail(p, s);
    assert(doc_detail(*s) =~= doc_detail_head(*s) + doc_detail_tail(*s));
    assert(p@ =~= start + doc_detail(*s));
}

/// The document details section.
pub fn details(rows: &[ScoredDoc]) -> (r: String)
    ensures
        r@ == details_spec(rows@),
{
    let mut p: Vec<char> = Vec::new();
    extend_str(&mut p, "\n---\n\n## Document Details\n");
    let ghost start = p@;
    let mut i: usize = 0;
    while i < rows.len()
        invariant
            i <= rows@.len(),
            p@ == start + doc_details(rows@.take(i as int)),
        decreases rows.len() - i,
    {
        push_doc_detail(&mut p, &rows[i]);
        assert(rows@.take(i + 1).drop_last() =~= rows@.take(i as int));
        assert(p@ =~= start + doc_details(rows@.take(i + 1)));
        i = i + 1;
    }
    assert(rows@.take(i as int) =~= rows@);
    assert(p@ =~= details_spec(rows@));
    string_of(&p)
}

// ---------------------------------------------------------------------------
// Loop report
// ---------------------------------------------------------------------------

/// The prefix that marks a spike-after-stagnation warning.
pub open spec fn spike_prefix() -> Seq<char> {
    "Spike after stagnation"@
}

/// The warnings that are spike-after-stagnation warnings, in order.
pub open spec fn spike_only(ws: Seq<Seq<char>>) -> Seq<Seq<char>>
    decreases ws.len(),
{
    if ws.len() == 0 {
        seq![]
    } else if starts_with(ws.last(), spike_prefix()) {
        spike_only(ws.drop_last()).push(ws.last())
    } else {
        spike_only(ws.drop_last())
    }
}

/// Each warning as a bold quote paragraph.
pub open spec fn bold_quotes(ws: Seq<Seq<char>>) -> Seq<char>
    decreases ws.len(),
{
    if ws.len() == 0 {
        seq![]
    } else {
        bold_quotes(ws.drop_last()) + "> **"@ + ws.last() + "**\n\n"@
    }
}

/// The spike warning section: the warnings, then a pointer to the held-out results (or the
/// advice to use a held-out model next time); empty when there is no spike warning.
pub open spec fn spike_section(ws: Seq<Seq<char>>, has_gate: bool) -> Seq<char> {
    let spikes = spike_only(ws);
    if spikes.len() > 0 {
        "## 🚨 Spike After Stagnation Warning\n\n"@ + bold_quotes(spikes) + if has_gate {
            "Check the \"held-out verification\" results below first — this is the basis for determining whether only the loop scorer was fooled.\n\n"@
        } else {
            "This run did not use `--gate-model` — consider specifying it on the next run to re-score with a held-out model and confirm whether the improvement is real.\n\n"@
        }
    } else {
        seq![]
    }
}

/// Title, scoring basis, stop reason and the spike warning section of a loop report.
pub open spec fn loop_head_spec(spec: Spec, stop_reason: Seq<char>, ws: Seq<Seq<char>>, has_gate: bool) -> Seq<
    char,
> {
    "# GEO Loop Report — "@ + spec.name@ + "\n\n"@ + source_line(spec) + "Stop reason: "@
        + stop_reason + "\n\n"@ + spike_section(ws, has_gate)
}

/// The spike-after-stagnation warnings among `warnings`.
pub fn spike_warnings(warnings: &Vec<String>) -> (r: Vec<String>)
    ensures
        string_views(r@) == spike_only(string_views(warnings@)),
{
    let prefix = chars_of("Spike after stagnation");
    let mut r: Vec<String> = Vec::new();
    let mut i: usize = 0;
    while i < warnings.len()
        invariant
            i <= warnings@.len(),
            prefix@ == spike_prefix(),
            string_views(r@) == spike_only(string_views(warnings@).take(i as int)),
        decreases warnings.len() - i,
    {
        let w = chars_of(warnings[i].as_str());
        assert(string_views(warnings@).take(i + 1).drop_last() =~= string_views(warnings@).take(
            i as int,
        ));
        if starts_with_v(&w, &prefix) {
            let ghost before = string_views(r@);
            r.push(warnings[i].clone());
            assert(string_views(r@) =~= before.push(warnings@[i as int]@));
        }
        i = i + 1;
    }
    assert(string_views(warnings@).take(i as int) =~= string_views(warnings@));
    r
}

/// The head of a loop report; `has_gate`: held-out results follow.
pub fn loop_report_head(spec: &Spec, stop_reason: &str, warnings: &Vec<String>, has_gate: bool) -> (r:
    String)
    ensures
        r@ == loop_head_spec(*spec, stop_reason@, string_views(warnings@), has_gate),
{
    let mut p: Vec<char> = Vec::new();
    extend_str(&mut p, "# GEO Loop Report — ");
    extend_str(&mut p, spec.name.as_str());
    extend_str(&mut p, "\n\n");
    push_source_line(&mut p, spec);
    extend_str(&mut p, "Stop reason: ");
    extend_str(&mut p, stop_reason);
    extend_str(&mut p, "\n\n");
    let spikes = spike_warnings(warnings);
    if spikes.len() > 0 {
        extend_str(&mut p, "## 🚨 Spike After Stagnation Warning\n\n");
        let ghost start = p@;
        let mut i: usize = 0;
        while i < spikes.len()
            invariant
                i <= spikes@.len(),
                p@ == start + bold_quotes(string_views(spikes@).take(i as int)),
            decreases spikes.len() - i,
        {
            extend_str(&mut p, "> **");
            extend_str(&mut p, spikes[i].as_str());
            extend_str(&mut p, "**\n\n");
            assert(string_views(spikes@).take(i + 1).drop_last() =~= string_views(spikes@).take(
                i as int,
            ));
            assert(p@ =~= start + bold_quotes(string_views(spikes@).take(i + 1)));
            i = i + 1;
        }
        assert(string_views(spikes@).take(i as int) =~= string_views(spikes@));
        if has_gate {
            extend_str(&mut p, "Check the \"held-out verification\" results below first — this is the basis for determining whether only the loop scorer was fooled.\n\n");
        } else {
            extend_str(&mut p, "This run did not use `--gate-model` — consider specifying it on the next run to re-score with a held-out model and confirm whether the improvement is real.\n\n");
        }
    }
    assert(p@ =~= loop_head_spec(*spec, stop_reason@, string_views(warnings@), has_gate));
    string_of(&p)
}

/// One trend row: label, total, change from the previous round as the caller wrote it
/// (`-` for the first round), word count and number of format issues.
pub open spec fn trend_row(change: Option<Seq<char>>, s: ScoredDoc) -> Seq<char> {
    "| "@ + s.label@ + " | "@ + tenths(s.total_tenths as nat) + " | "@ + match change {
        Some(c) => c,
        None => "-"@,
    } + " | "@ + decimal(s.metrics.words as nat) + " | "@ + decimal(s.format_issues@.len())
        + " issues |\n"@
}

/// The rows of `rows`, row `i > 0` showing `changes[i - 1]`.
pub open spec fn trend_rows(rows: Seq<ScoredDoc>, changes: Seq<Seq<char>>) -> Seq<char>
    decreases rows.len(),
{
    if rows.len() == 0 {
        seq![]
    } else {
        trend_rows(rows.drop_last(), changes) + trend_row(
            if rows.len() > 1 {
                Some(changes[rows.len() - 2])
            } else {
                None
            },
            rows.last(),
        )
    }
}

/// The round-by-round trend table of a loop report.
pub open spec fn trend_spec(rows: Seq<ScoredDoc>, changes: Seq<Seq<char>>) -> Seq<char> {
    "## Round-by-Round Trend\n\n| Round | Total | Δ | Words | Format Issues |\n|---|---|---|---|---|\n"@
        + trend_rows(rows, changes)
}

fn push_trend_row(p: &mut Vec<char>, change: Option<&str>, s: &ScoredDoc)
    ensures
        final(p)@ == old(p)@ + trend_row(
            match change {
                Some(c) => Some(c@),
                None => None,
            },
            *s,
        ),
{
    extend_str(p, "| ");
    extend_str(p, s.label.as_str());
    extend_str(p, " | ");
    push_tenths(p, s.total_tenths);
    extend_str(p, " | ");
    match change {
        None => {
            extend_str(p, "-");
        },
        Some(c) => {
            extend_str(p, c);
        },
    }
    extend_str(p, " | ");
    push_decimal(p, s.metrics.words);
    extend_str(p, " | ");
    push_decimal(p, s.format_issues.len());
    extend_str(p, " issues |\n");
    assert(final(p)@ =~= old(p)@ + trend_row(
        match change {
            Some(c) => Some(c@),
            None => None,
        },
        *s,
    ));
}

/// The trend table; `changes[i]` is the change of round `i + 1` from round `i`, formatted
/// by the caller (`{:+.1}` of the floating-point difference).
pub fn trend_table(rows: &[ScoredDoc], changes: &Vec<String>) -> (r: String)
    requires
        rows@.len() == 0 || changes@.len() + 1 == rows@.len(),
    ensures
        r@ == trend_spec(rows@, string_views(changes@)),
{
    let ghost cs = string_views(changes@);
    let mut p: Vec<char> = Vec::new();
    extend_str(&mut p, "## Round-by-Round Trend\n\n| Round | Total | Δ | Words | Format Issues |\n|---|---|---|---|---|\n");
    let ghost start = p@;
    let mut i: usize = 0;
    while i < rows.len()
        invariant
            i <= rows@.len(),
            rows@.len() == 0 || changes@.len() + 1 == rows@.len(),
            cs == string_views(changes@),
            p@ == start + trend_rows(rows@.take(i as int), cs),
        decreases rows.len() - i,
    {
        if i == 0 {
            push_trend_row(&mut p, None, &rows[i]);
        } else {
            push_trend_row(&mut p, Some(changes[i - 1].as_str()), &rows[i]);
        }
        proof {
            let pre = rows@.take(i + 1);
            assert(pre.drop_last() =~= rows@.take(i as int));
            assert(pre.last() == rows@[i as int]);
        }
        assert(p@ =~= start + trend_rows(rows@.take(i + 1), cs));
        i = i + 1;
    }
    assert(rows@.take(i as int) =~= rows@);
    string_of(&p)
}

/// The warnings section: a heading and one bullet per warning; empty without warnings.
pub open spec fn warnings_spec(ws: Seq<Seq<char>>) -> Seq<char> {
    if ws.len() > 0 {
        "\n## Warnings\n\n"@ + bullet_lines(ws)
    } else {
        seq![]
    }
}

pub fn warnings_section(warnings: &Vec<String>) -> (r: String)
    ensures
        r@ == warnings_spec(string_views(warnings@)),
{
    let mut p: Vec<char> = Vec::new();
    if warnings.len() > 0 {
        extend_str(&mut p, "\n## Warnings\n\n");
        push_bullets(&mut p, warnings);
    }
    assert(p@ =~= warnings_spec(string_views(warnings@)));
    string_of(&p)
}

} // verus!
