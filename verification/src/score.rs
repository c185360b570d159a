//! The parts of LLM rubric judging that do not involve floating point: the judge's
//! system prompt and per-round lens, the judge prompt, the evidence rule that caps a
//! criterion's score, the merged improvement list and the feedback handed to a revision.
//!
//! Scores themselves (trimmed means, weighted totals) are floating point and are combined
//! by the caller.
use vstd::prelude::*;
use crate::json::Json;
use crate::schema::{entry, has_keys, is_str, member, str_json};
use crate::spec::Spec;
use crate::text::{chars_of, decimal, decimal_v, extend_str, string_of, string_views, trim, trim_v};

verus! {

/// System prompt of the judge model.
pub const JUDGE_SYSTEM: &'static str = "You are a GEO (Generative Engine Optimization) judge. Score based on how likely a generative answer engine (ChatGPT/Perplexity/Google AI Overview) is to quote or excerpt this document verbatim. The document's author is unknown, and you do not guess at authorship. Unsupported claims, unverifiable figures, and ambiguous entity references are grounds for deduction. Do not grade leniently, and back every score with a direct quote from the document as evidence.";

/// Evidence quotes shorter than this many characters (after trimming) do not count as
/// grounds to cite.
pub const MIN_EVIDENCE_CHARS: usize = 30;

/// The highest score a criterion keeps when its evidence quote is too short.
pub const SHORT_EVIDENCE_CAP: u32 = 60;

// ---------------------------------------------------------------------------
// Lenses
// ---------------------------------------------------------------------------

/// The judging lenses, cycled round by round.
pub open spec fn lenses() -> Seq<Seq<char>> {
    seq![
        "Weighs overall completeness and citability in balance."@,
        "Strictly checks whether the first paragraph alone answers the question and could be excerpted as-is."@,
        "Especially strict about the verifiability of statistics and sources."@,
        "Looks at how friendly the heading/FAQ/list structure is to excerpting-engine parsers."@,
        "Checks whether the core entity (product/concept/subject) is defined without ambiguity."@,
        "Looks at whether this document has a differentiator worth citing compared to competing content."@,
    ]
}

/// The lens of round `i` (0-based): the lenses in turn.
pub fn lens_for_round(i: usize) -> (r: &'static str)
    ensures
        r@ == lenses()[(i % 6) as int],
{
    let k = i % 6;
    if k == 0 {
        "Weighs overall completeness and citability in balance."
    } else if k == 1 {
        "Strictly checks whether the first paragraph alone answers the question and could be excerpted as-is."
    } else if k == 2 {
        "Especially strict about the verifiability of statistics and sources."
    } else if k == 3 {
        "Looks at how friendly the heading/FAQ/list structure is to excerpting-engine parsers."
    } else if k == 4 {
        "Checks whether the core entity (product/concept/subject) is defined without ambiguity."
    } else {
        "Looks at whether this document has a differentiator worth citing compared to competing content."
    }
}

// ---------------------------------------------------------------------------
// Evidence cap
// ---------------------------------------------------------------------------

/// An evidence quote under 30 characters once trimmed: the criterion's score is capped at
/// 60, whatever the judge reported.
pub open spec fn evidence_too_short(evidence: Seq<char>) -> bool {
    trim(evidence).len() < MIN_EVIDENCE_CHARS
}

pub fn evidence_is_short(evidence: &str) -> (b: bool)
    ensures
        b == evidence_too_short(evidence@),
{
    let c = chars_of(evidence);
    let t = trim_v(&c);
    t.len() < MIN_EVIDENCE_CHARS
}

/// The cap that applies to a criterion's score given its evidence quote (`None`: no cap).
pub fn evidence_cap(evidence: &str) -> (r: Option<u32>)
    ensures
        r == (if evidence_too_short(evidence@) {
            Some(SHORT_EVIDENCE_CAP)
        } else {
            None
        }),
{
    if evidence_is_short(evidence) {
        Some(SHORT_EVIDENCE_CAP)
    } else {
        None
    }
}

// ---------------------------------------------------------------------------
// Judge prompt
// ---------------------------------------------------------------------------

/// The judge prompt for `doc` under `lens`; `rubric` is the spec's criteria block.
pub open spec fn judge_prompt_text(
    spec: Spec,
    doc: Seq<char>,
    lens: Seq<char>,
    rubric: Seq<char>,
) -> Seq<char> {
    "# Task\nScore the submitted GEO document according to the judging criteria.\n\n## Document: "@
        + spec.name@ + "\n"@ + spec.context@ + "\n\n## This judge's lens\n"@ + lens
        + "\n\n## Judging criteria (each item, integer 0-100)\n"@ + rubric
        + "\n\n## Score band criteria\n"@ + spec.bands_prompt_spec()
        + "\n\n## Procedure\n1. Before scoring the document, first write 3-6 'conditions that content worth citing by a generative answer engine should meet' in winning_conditions.\n2. Don't read the document being scored yet — in ideal_sketch, sketch on your own, in 100-150 words, roughly 'what an ideal document should contain given this spec (topic/audience)' (working out your own answer first keeps you from being swayed by plausibility once you see the real document).\n3. Only then read the <document> below and score each item. For each item, quote the document's original text directly in evidence, and write why you didn't give a higher score in why_not_higher.\n4. If you can't find grounds to cite, that item cannot exceed 60 points.\n5. Format/length/required elements (first-paragraph length, number of statistics, number of FAQs, JSON-LD validity, heading hierarchy) are handled by a separate automated check, so don't factor them into scoring — evaluate content quality only.\n\n## Document being scored\n<document>\n"@
        + doc + "\n</document>\n"@
}

/// Prompt asking a judge to score `doc` under `lens`; `rubric` is the spec's criteria block.
pub fn build_judge_prompt(spec: &Spec, doc: &str, lens: &str, rubric: &str) -> (r: String)
    ensures
        r@ == judge_prompt_text(*spec, doc@, lens@, rubric@),
{
    let mut p: Vec<char> = Vec::new();
    extend_str(&mut p, "# Task\nScore the submitted GEO document according to the judging criteria.\n\n## Document: ");
    extend_str(&mut p, spec.name.as_str());
    extend_str(&mut p, "\n");
    extend_str(&mut p, spec.context.as_str());
    extend_str(&mut p, "\n\n## This judge's lens\n");
    extend_str(&mut p, lens);
    extend_str(&mut p, "\n\n## Judging criteria (each item, integer 0-100)\n");
    extend_str(&mut p, rubric);
    extend_str(&mut p, "\n\n## Score band criteria\n");
    let bands = spec.bands_prompt();
    extend_str(&mut p, bands.as_str());
    extend_str(&mut p, "\n\n## Procedure\n1. Before scoring the document, first write 3-6 'conditions that content worth citing by a generative answer engine should meet' in winning_conditions.\n2. Don't read the document being scored yet — in ideal_sketch, sketch on your own, in 100-150 words, roughly 'what an ideal document should contain given this spec (topic/audience)' (working out your own answer first keeps you from being swayed by plausibility once you see the real document).\n3. Only then read the <document> below and score each item. For each item, quote the document's original text directly in evidence, and write why you didn't give a higher score in why_not_higher.\n4. If you can't find grounds to cite, that item cannot exceed 60 points.\n5. Format/length/required elements (first-paragraph length, number of statistics, number of FAQs, JSON-LD validity, heading hierarchy) are handled by a separate automated check, so don't factor them into scoring — evaluate content quality only.\n\n## Document being scored\n<document>\n");
    extend_str(&mut p, doc);
    extend_str(&mut p, "\n</document>\n");
    assert(p@ =~= judge_prompt_text(*spec, doc@, lens@, rubric@));
    string_of(&p)
}

// ---------------------------------------------------------------------------
// Improvements
// ---------------------------------------------------------------------------

/// Adds each item, trimmed, unless it is empty or already present.
pub open spec fn merge_items(acc: Seq<Seq<char>>, xs: Seq<Seq<char>>) -> Seq<Seq<char>>
    decreases xs.len(),
{
    if xs.len() == 0 {
        acc
    } else {
        let a = merge_items(acc, xs.drop_last());
        let t = trim(xs.last());
        if t.len() > 0 && !a.contains(t) {
            a.push(t)
        } else {
            a
        }
    }
}

/// `merge_items` over the judges' lists, round by round.
pub open spec fn merge_rounds(acc: Seq<Seq<char>>, rs: Seq<Seq<Seq<char>>>) -> Seq<Seq<char>>
    decreases rs.len(),
{
    if rs.len() == 0 {
        acc
    } else {
        merge_items(merge_rounds(acc, rs.drop_last()), rs.last())
    }
}

proof fn lemma_merge_items_prefix(acc: Seq<Seq<char>>, xs: Seq<Seq<char>>)
    ensures
        merge_items(acc, xs).len() >= acc.len(),
        merge_items(acc, xs).take(acc.len() as int) == acc,
    decreases xs.len(),
{
    if xs.len() > 0 {
        lemma_merge_items_prefix(acc, xs.drop_last());
        let a = merge_items(acc, xs.drop_last());
        let t = trim(xs.last());
        if t.len() > 0 && !a.contains(t) {
            assert(a.push(t).take(acc.len() as int) =~= a.take(acc.len() as int));
        }
    } else {
        assert(acc.take(acc.len() as int) =~= acc);
    }
}

/// The improvement list always starts with the format issues, in order, whatever the
/// judges returned (so the details section can tell the two apart).
pub proof fn lemma_improvements_start_with_format_issues(
    format_issues: Seq<Seq<char>>,
    rounds: Seq<Seq<Seq<char>>>,
)
    ensures
        merge_rounds(format_issues, rounds).len() >= format_issues.len(),
        merge_rounds(format_issues, rounds).take(format_issues.len() as int) == format_issues,
    decreases rounds.len(),
{
    if rounds.len() > 0 {
        lemma_improvements_start_with_format_issues(format_issues, rounds.drop_last());
        let m = merge_rounds(format_issues, rounds.drop_last());
        lemma_merge_items_prefix(m, rounds.last());
        let r = merge_items(m, rounds.last());
        assert(r.take(format_issues.len() as int) =~= r.take(m.len() as int).take(
            format_issues.len() as int,
        ));
    } else {
        assert(format_issues.take(format_issues.len() as int) =~= format_issues);
    }
}

pub open spec fn rounds_views(rs: Seq<Vec<String>>) -> Seq<Seq<Seq<char>>> {
    rs.map_values(|r: Vec<String>| string_views(r@))
}

pub(crate) fn contains_string(v: &Vec<String>, x: &String) -> (b: bool)
    ensures
        b == string_views(v@).contains(x@),
{
    let mut i: usize = 0;
    while i < v.len()
        invariant
            i <= v@.len(),
            forall|k: int| 0 <= k < i ==> string_views(v@)[k] != x@,
        decreases v.len() - i,
    {
        if v[i] == *x {
            assert(string_views(v@)[i as int] == x@);
            return true;
        }
        i = i + 1;
    }
    false
}

/// The improvement list of a scored document: the format issues, then each judge's
/// improvements in order, trimmed, skipping empty ones and ones already listed.
pub fn collect_improvements(format_issues: &Vec<String>, rounds: &Vec<Vec<String>>) -> (r: Vec<
    String,
>)
    ensures
        string_views(r@) == merge_rounds(string_views(format_issues@), rounds_views(rounds@)),
{
    let mut out: Vec<String> = format_issues.clone();
    assert(string_views(out@) =~= string_views(format_issues@));
    let ghost base = string_views(format_issues@);
    let ghost rs = rounds_views(rounds@);
    let mut i: usize = 0;
    while i < rounds.len()
        invariant
            i <= rounds@.len(),
            rs == rounds_views(rounds@),
            string_views(out@) == merge_rounds(base, rs.take(i as int)),
        decreases rounds.len() - i,
    {
        let items = &rounds[i];
        let ghost acc0 = string_views(out@);
        let mut j: usize = 0;
        while j < items.len()
            invariant
                j <= items@.len(),
                *items == rounds@[i as int],
                string_views(out@) == merge_items(acc0, string_views(items@).take(j as int)),
            decreases items.len() - j,
        {
            let c = chars_of(items[j].as_str());
            let t = trim_v(&c);
            let ts = string_of(&t);
            let ghost before = string_views(out@);
            assert(string_views(items@).take(j + 1).drop_last() =~= string_views(items@).take(
                j as int,
            ));
            if t.len() > 0 && !contains_string(&out, &ts) {
                out.push(ts);
                assert(string_views(out@) =~= before.push(ts@));
            }
            j = j + 1;
        }
        assert(string_views(items@).take(j as int) =~= string_views(items@));
        assert(rs.take(i + 1).drop_last() =~= rs.take(i as int));
        assert(rs[i as int] == string_views(items@));
        i = i + 1;
    }
    assert(rs.take(i as int) =~= rs);
    out
}

// ---------------------------------------------------------------------------
// Feedback
// ---------------------------------------------------------------------------

/// One `- item\n` line per item.
pub open spec fn bullet_lines(xs: Seq<Seq<char>>) -> Seq<char>
    decreases xs.len(),
{
    if xs.len() == 0 {
        seq![]
    } else {
        bullet_lines(xs.drop_last()) + "- "@ + xs.last() + "\n"@
    }
}

/// The revision feedback: the improvements to address, then the judges' comments when
/// there are any. Scores are left out so a revision does not chase them.
pub open spec fn feedback_spec(improvements: Seq<Seq<char>>, comments: Seq<Seq<char>>) -> Seq<char> {
    "[Revisions that must be addressed]\n"@ + bullet_lines(improvements) + if comments.len() > 0 {
        "\n[Judges' overall comments]\n"@ + bullet_lines(comments)
    } else {
        seq![]
    }
}

pub(crate) fn push_bullets(p: &mut Vec<char>, xs: &Vec<String>)
    ensures
        final(p)@ == old(p)@ + bullet_lines(string_views(xs@)),
{
    let ghost start = p@;
    let mut i: usize = 0;
    while i < xs.len()
        invariant
            i <= xs@.len(),
            p@ == start + bullet_lines(string_views(xs@).take(i as int)),
        decreases xs.len() - i,
    {
        extend_str(p, "- ");
        extend_str(p, xs[i].as_str());
        extend_str(p, "\n");
        assert(string_views(xs@).take(i + 1).drop_last() =~= string_views(xs@).take(i as int));
        assert(p@ =~= start + bullet_lines(string_views(xs@).take(i + 1)));
        i = i + 1;
    }
    assert(string_views(xs@).take(i as int) =~= string_views(xs@));
}

/// Feedback for the regeneration prompt from a scored document's improvements and the
/// judges' comments.
pub fn feedback_text(improvements: &Vec<String>, comments: &Vec<String>) -> (r: String)
    ensures
        r@ == feedback_spec(string_views(improvements@), string_views(comments@)),
{
    let mut p: Vec<char> = Vec::new();
    extend_str(&mut p, "[Revisions that must be addressed]\n");
    push_bullets(&mut p, improvements);
    if comments.len() > 0 {
        extend_str(&mut p, "\n[Judges' overall comments]\n");
        push_bullets(&mut p, comments);
    }
    assert(p@ =~= feedback_spec(string_views(improvements@), string_views(comments@)));
    string_of(&p)
}

// ---------------------------------------------------------------------------
// Judge output schema
// ---------------------------------------------------------------------------

/// `j` is the number `n`.
pub open spec fn is_num(j: Json, n: nat) -> bool {
    j matches Json::Number(t) && t@ == decimal(n)
}

/// `j` is `false`.
pub open spec fn is_false(j: Json) -> bool {
    j matches Json::Bool(b) && !b
}

/// `j` is an array of the strings `ss`, in order.
pub open spec fn is_str_list(j: Json, ss: Seq<Seq<char>>) -> bool {
    j matches Json::Array(a) && a@.len() == ss.len() && forall|i: int|
        0 <= i < ss.len() ==> is_str(#[trigger] a@[i], ss[i])
}

/// `{"type": t}`.
pub open spec fn is_type_only(j: Json, t: Seq<char>) -> bool {
    has_keys(j, seq!["type"@]) && is_str(member(j, 0), t)
}

/// `{"type": t, "description": d}`.
pub open spec fn is_described(j: Json, t: Seq<char>, d: Seq<char>) -> bool {
    has_keys(j, seq!["type"@, "description"@]) && is_str(member(j, 0), t) && is_str(member(j, 1), d)
}

pub open spec fn winning_conditions_desc() -> Seq<char> {
    "3-6 conditions that content worth citing by a generative answer engine should meet, written before reading the document"@
}

pub open spec fn ideal_sketch_desc() -> Seq<char> {
    "Before reading the document being scored, sketch on your own, in 100-150 words, roughly what an ideal document would contain given this spec (topic/audience) (self-solve-first)"@
}

/// The fields of one criterion score: `id` (one of the spec's ids), `evidence` (a quote of
/// at least 30 characters), `why_not_higher`, and an integer `score` from 0 to 100.
pub open spec fn is_criterion_properties(j: Json, ids: Seq<Seq<char>>) -> bool {
    &&& has_keys(j, seq!["id"@, "evidence"@, "why_not_higher"@, "score"@])
    &&& has_keys(member(j, 0), seq!["type"@, "enum"@])
    &&& is_str(member(member(j, 0), 0), "string"@)
    &&& is_str_list(member(member(j, 0), 1), ids)
    &&& has_keys(member(j, 1), seq!["type"@, "description"@, "minLength"@])
    &&& is_str(member(member(j, 1), 0), "string"@)
    &&& is_str(member(member(j, 1), 1), "Direct quote from the document (30+ characters)"@)
    &&& is_num(member(member(j, 1), 2), MIN_EVIDENCE_CHARS as nat)
    &&& is_described(member(j, 2), "string"@, "Why the score isn't higher"@)
    &&& has_keys(member(j, 3), seq!["type"@, "minimum"@, "maximum"@])
    &&& is_str(member(member(j, 3), 0), "integer"@)
    &&& is_num(member(member(j, 3), 1), 0)
    &&& is_num(member(member(j, 3), 2), 100)
}

/// The `criteria` property: an array of at least one object per criterion id, each with
/// all four fields required and no others.
pub open spec fn is_criteria_property(j: Json, ids: Seq<Seq<char>>) -> bool {
    let item = member(j, 2);
    &&& has_keys(j, seq!["type"@, "minItems"@, "items"@])
    &&& is_str(member(j, 0), "array"@)
    &&& is_num(member(j, 1), ids.len())
    &&& has_keys(item, seq!["type"@, "properties"@, "required"@, "additionalProperties"@])
    &&& is_str(member(item, 0), "object"@)
    &&& is_criterion_properties(member(item, 1), ids)
    &&& is_str_list(member(item, 2), seq!["id"@, "evidence"@, "why_not_higher"@, "score"@])
    &&& is_false(member(item, 3))
}

/// The JSON Schema of a judge's answer for criteria `ids`: winning conditions (at least 3
/// strings), an ideal-document sketch (non-empty), the criterion scores, 3 to 8
/// improvements and a comment, all required, nothing else.
pub open spec fn is_judge_schema(j: Json, ids: Seq<Seq<char>>) -> bool {
    let props = member(j, 1);
    let wc = member(props, 0);
    let sketch = member(props, 1);
    let imps = member(props, 3);
    &&& has_keys(j, seq!["type"@, "properties"@, "required"@, "additionalProperties"@])
    &&& is_str(member(j, 0), "object"@)
    &&& has_keys(
        props,
        seq!["winning_conditions"@, "ideal_sketch"@, "criteria"@, "improvements"@, "comment"@],
    )
    &&& has_keys(wc, seq!["type"@, "minItems"@, "items"@, "description"@])
    &&& is_str(member(wc, 0), "array"@)
    &&& is_num(member(wc, 1), 3)
    &&& is_type_only(member(wc, 2), "string"@)
    &&& is_str(member(wc, 3), winning_conditions_desc())
    &&& has_keys(sketch, seq!["type"@, "minLength"@, "description"@])
    &&& is_str(member(sketch, 0), "string"@)
    &&& is_num(member(sketch, 1), 1)
    &&& is_str(member(sketch, 2), ideal_sketch_desc())
    &&& is_criteria_property(member(props, 2), ids)
    &&& has_keys(imps, seq!["type"@, "minItems"@, "maxItems"@, "items"@])
    &&& is_str(member(imps, 0), "array"@)
    &&& is_num(member(imps, 1), 3)
    &&& is_num(member(imps, 2), 8)
    &&& is_described(member(imps, 3), "string"@, "An immediately actionable revision instruction"@)
    &&& is_type_only(member(props, 4), "string"@)
    &&& is_str_list(
        member(j, 2),
        seq!["winning_conditions"@, "ideal_sketch"@, "criteria"@, "improvements"@, "comment"@],
    )
    &&& is_false(member(j, 3))
}

fn num_json(n: usize) -> (r: Json)
    ensures
        is_num(r, n as nat),
{
    let d = decimal_v(n);
    Json::Number(string_of(&d))
}

fn type_only(t: &str) -> (r: Json)
    ensures
        is_type_only(r, t@),
{
    let mut es: Vec<(String, Json)> = Vec::new();
    es.push(entry("type", str_json(t)));
    Json::Object(es)
}

fn described(t: &str, d: &str) -> (r: Json)
    ensures
        is_described(r, t@, d@),
{
    let mut es: Vec<(String, Json)> = Vec::new();
    es.push(entry("type", str_json(t)));
    es.push(entry("description", str_json(d)));
    Json::Object(es)
}

fn str_list(ss: &Vec<String>) -> (r: Json)
    ensures
        is_str_list(r, string_views(ss@)),
{
    let mut a: Vec<Json> = Vec::new();
    let mut i: usize = 0;
    while i < ss.len()
        invariant
            i <= ss@.len(),
            a@.len() == i,
            forall|k: int| 0 <= k < i ==> is_str(#[trigger] a@[k], string_views(ss@)[k]),
        decreases ss.len() - i,
    {
        a.push(Json::Str(ss[i].clone()));
        i = i + 1;
    }
    Json::Array(a)
}

fn strs(items: &[&str]) -> (r: Vec<String>)
    ensures
        r@.len() == items@.len(),
        forall|i: int| 0 <= i < items@.len() ==> (#[trigger] r@[i])@ == items@[i]@,
{
    let mut r: Vec<String> = Vec::new();
    let mut i: usize = 0;
    while i < items.len()
        invariant
            i <= items@.len(),
            r@.len() == i,
            forall|k: int| 0 <= k < i ==> (#[trigger] r@[k])@ == items@[k]@,
        decreases items.len() - i,
    {
        r.push(String::from_str(items[i]));
        i = i + 1;
    }
    r
}

fn criterion_properties(ids: &Vec<String>) -> (r: Json)
    ensures
        is_criterion_properties(r, string_views(ids@)),
{
    let mut id: Vec<(String, Json)> = Vec::new();
    id.push(entry("type", str_json("string")));
    id.push(entry("enum", str_list(ids)));
    let mut ev: Vec<(String, Json)> = Vec::new();
    ev.push(entry("type", str_json("string")));
    ev.push(entry("description", str_json("Direct quote from the document (30+ characters)")));
    ev.push(entry("minLength", num_json(MIN_EVIDENCE_CHARS)));
    let mut sc: Vec<(String, Json)> = Vec::new();
    sc.push(entry("type", str_json("integer")));
    sc.push(entry("minimum", num_json(0)));
    sc.push(entry("maximum", num_json(100)));
    let mut es: Vec<(String, Json)> = Vec::new();
    es.push(entry("id", Json::Object(id)));
    es.push(entry("evidence", Json::Object(ev)));
    es.push(entry("why_not_higher", described("string", "Why the score isn't higher")));
    es.push(entry("score", Json::Object(sc)));
    Json::Object(es)
}

fn criteria_property(ids: &Vec<String>) -> (r: Json)
    ensures
        is_criteria_property(r, string_views(ids@)),
{
    let names = strs(&["id", "evidence", "why_not_higher", "score"]);
    let mut item: Vec<(String, Json)> = Vec::new();
    item.push(entry("type", str_json("object")));
    item.push(entry("properties", criterion_properties(ids)));
    let req = str_list(&names);
    assert(string_views(names@) =~= seq!["id"@, "evidence"@, "why_not_higher"@, "score"@]);
    item.push(entry("required", req));
    item.push(entry("additionalProperties", Json::Bool(false)));
    let mut es: Vec<(String, Json)> = Vec::new();
    es.push(entry("type", str_json("array")));
    es.push(entry("minItems", num_json(ids.len())));
    es.push(entry("items", Json::Object(item)));
    Json::Object(es)
}

/// The JSON Schema a judge's structured answer must follow, for the spec's criterion ids
/// in order.
pub fn judge_schema(spec: &Spec) -> (r: Json)
    ensures
        is_judge_schema(r, spec.criteria@.map_values(|c: crate::spec::Criterion| c.id@)),
{
    let mut ids: Vec<String> = Vec::new();
    let mut i: usize = 0;
    while i < spec.criteria.len()
        invariant
            i <= spec.criteria@.len(),
            ids@.len() == i,
            forall|k: int| 0 <= k < i ==> (#[trigger] ids@[k])@ == spec.criteria@[k].id@,
        decreases spec.criteria.len() - i,
    {
        ids.push(spec.criteria[i].id.clone());
        i = i + 1;
    }
    let ghost idv = spec.criteria@.map_values(|c: crate::spec::Criterion| c.id@);
    assert(string_views(ids@) =~= idv);
    let mut wc: Vec<(String, Json)> = Vec::new();
    wc.push(entry("type", str_json("array")));
    wc.push(entry("minItems", num_json(3)));
    wc.push(entry("items", type_only("string")));
    wc.push(entry("description", str_json("3-6 conditions that content worth citing by a generative answer engine should meet, written before reading the document")));
    let mut sk: Vec<(String, Json)> = Vec::new();
    sk.push(entry("type", str_json("string")));
    sk.push(entry("minLength", num_json(1)));
    sk.push(entry("description", str_json("Before reading the document being scored, sketch on your own, in 100-150 words, roughly what an ideal document would contain given this spec (topic/audience) (self-solve-first)")));
    let mut im: Vec<(String, Json)> = Vec::new();
    im.push(entry("type", str_json("array")));
    im.push(entry("minItems", num_json(3)));
    im.push(entry("maxItems", num_json(8)));
    im.push(entry("items", described("string", "An immediately actionable revision instruction")));
    let mut props: Vec<(String, Json)> = Vec::new();
    props.push(entry("winning_conditions", Json::Object(wc)));
    props.push(entry("ideal_sketch", Json::Object(sk)));
    props.push(entry("criteria", criteria_property(&ids)));
    props.push(entry("improvements", Json::Object(im)));
    props.push(entry("comment", type_only("string")));
    let names = strs(&["winning_conditions", "ideal_sketch", "criteria", "improvements", "comment"]);
    let req = str_list(&names);
    assert(string_views(names@) =~= seq![
        "winning_conditions"@,
        "ideal_sketch"@,
        "criteria"@,
        "improvements"@,
        "comment"@,
    ]);
    let mut es: Vec<(String, Json)> = Vec::new();
    es.push(entry("type", str_json("object")));
    es.push(entry("properties", Json::Object(props)));
    es.push(entry("required", req));
    es.push(entry("additionalProperties", Json::Bool(false)));
    Json::Object(es)
}

} // verus!
