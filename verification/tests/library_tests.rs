use geo_loop::checks::{
    any_heading_matches, drop_whitespace, extract_faq_pairs, faq_heading_in_lowercase,
    format_issues, metrics, normalized_hit_v, stat_token_count, strip_code_fences, word_count,
    Metrics,
};
use geo_loop::generate::{
    angles_for, build_prompt, build_revise_prompt, has_article_and_faqpage, structure_requirements,
    structure_requirements_with, wants_example_graph, SYSTEM,
};
use geo_loop::json::{collect_types, schema_field_issues, Json};
use geo_loop::loop_run::{initial_state, last_round_not_best, round_label, step, RoundResult, StopReason};
use geo_loop::probe::{
    overlap_counts, overlap_counts_of_lowercase, significant_tokens,
    significant_tokens_of_lowercase, PROBE_SYSTEM,
};
use geo_loop::report::{
    details, header, loop_report_head, rank_by_total, spike_warnings, trend_table,
    warnings_section, ScoredDoc,
};
use geo_loop::schema::{article_jsonld, example_graph, faq_jsonld, ArticleMeta, QaPair};
use geo_loop::score::{
    build_judge_prompt, collect_improvements, evidence_cap, evidence_is_short, feedback_text,
    judge_schema, lens_for_round, JUDGE_SYSTEM,
};
use geo_loop::spec::{
    validate, AnswerSummarySpec, Criterion, FaqSpec, LlmsTxtSpec, Section, Spec, SpecError,
    StatisticsSpec, StructuredDataSpec,
};

fn min_spec() -> Spec {
    Spec {
        name: "Shipping guide".into(),
        context: "For online shoppers.".into(),
        scoring_source: String::new(),
        total_words: 0,
        angles: vec![],
        bands: vec![],
        sections: vec![],
        criteria: vec![Criterion {
            id: "citability".into(),
            name: "Citability".into(),
            guide: "Quotable sentences.".into(),
        }],
        answer_summary: AnswerSummarySpec::default(),
        statistics: StatisticsSpec::default(),
        faq: FaqSpec::default(),
        structured_data: StructuredDataSpec::default(),
        llms_txt: LlmsTxtSpec::default(),
    }
}

fn strings(xs: &[&str]) -> Vec<String> {
    xs.iter().map(|x| x.to_string()).collect()
}

/// Overlap at or above this share counts as confirmed by outside knowledge.
const OVERLAP_THRESHOLD: f64 = 0.20;

/// The overlap ratio as the probe computes it from the shared/total token counts.
fn keyword_overlap(doc_answer: &str, probe_answer: &str) -> f64 {
    let (shared, total) = overlap_counts(doc_answer, probe_answer);
    if total == 0 {
        1.0
    } else {
        shared as f64 / total as f64
    }
}

/// Structural text of a JSON value, for comparisons.
fn shape(j: &Json) -> String {
    format!("{:?}", j)
}

fn empty_metrics() -> Metrics {
    metrics("")
}

fn doc(label: &str, total_tenths: usize, words_doc: &str) -> ScoredDoc {
    ScoredDoc {
        label: label.to_string(),
        total_tenths,
        metrics: metrics(words_doc),
        comments: vec![],
        format_issues: vec![],
        improvements: vec![],
        rounds: 1,
        models: vec![],
    }
}

// ---------------------------------------------------------------------------
// schema
// ---------------------------------------------------------------------------

#[test]
fn example_graph_has_required_types() {
    let g = example_graph(
        &ArticleMeta {
            headline: "Title",
            description: "Summary",
        },
        &[QaPair {
            question: "Question?".to_string(),
            answer: "Answer".to_string(),
        }],
    );
    let mut types: Vec<String> = Vec::new();
    collect_types(&g, &mut types);
    assert!(types.contains(&"Article".to_string()));
    assert!(types.contains(&"FAQPage".to_string()));
}

#[test]
fn example_graph_types_are_exactly_the_four_node_types() {
    let g = example_graph(
        &ArticleMeta { headline: "H", description: "D" },
        &[QaPair { question: "Q?".into(), answer: "A.".into() }],
    );
    let mut types: Vec<String> = Vec::new();
    collect_types(&g, &mut types);
    assert_eq!(types, strings(&["Answer", "Article", "FAQPage", "Question"]));
}

#[test]
fn example_graph_without_pairs_has_article_and_faqpage_only() {
    let g = example_graph(&ArticleMeta { headline: "H", description: "D" }, &[]);
    let mut types: Vec<String> = Vec::new();
    collect_types(&g, &mut types);
    assert_eq!(types, strings(&["Article", "FAQPage"]));
}

#[test]
fn article_jsonld_fields() {
    let a = article_jsonld(&ArticleMeta { headline: "Title", description: "Summary" });
    let expected = Json::Object(vec![
        ("@type".to_string(), Json::Str("Article".into())),
        ("description".to_string(), Json::Str("Summary".into())),
        ("headline".to_string(), Json::Str("Title".into())),
    ]);
    assert_eq!(shape(&a), shape(&expected));
}

#[test]
fn faq_jsonld_one_question_node_per_pair() {
    let f = faq_jsonld(&[
        QaPair { question: "Q1?".into(), answer: "A1".into() },
        QaPair { question: "Q2?".into(), answer: "A2".into() },
    ]);
    match f {
        Json::Object(es) => {
            assert_eq!(es[0].0, "@type");
            assert_eq!(shape(&es[0].1), shape(&Json::Str("FAQPage".into())));
            assert_eq!(es[1].0, "mainEntity");
            match &es[1].1 {
                Json::Array(a) => {
                    assert_eq!(a.len(), 2);
                    match &a[1] {
                        Json::Object(q) => {
                            assert_eq!(shape(&q[2].1), shape(&Json::Str("Q2?".into())));
                        }
                        other => panic!("{:?}", other),
                    }
                }
                other => panic!("{:?}", other),
            }
        }
        other => panic!("{:?}", other),
    }
}

// ---------------------------------------------------------------------------
// probe
// ---------------------------------------------------------------------------

#[test]
fn overlap_is_one_when_no_significant_tokens_to_check() {
    assert_eq!(keyword_overlap("", "any answer"), 1.0);
}

#[test]
fn overlap_detects_shared_stat_token() {
    let ov = keyword_overlap(
        "Shipping takes 2-3 days on average.",
        "Generally, the shipping period is known to be around 2-3 days.",
    );
    assert!(ov > 0.0, "should have overlapping tokens: {ov}");
}

#[test]
fn overlap_is_low_for_unrelated_texts() {
    let ov = keyword_overlap(
        "Refunds are available up to 100% within 7 days of payment.",
        "Today's weather is sunny with a temperature of 25 degrees.",
    );
    assert!(ov < OVERLAP_THRESHOLD, "{ov}");
}

#[test]
fn significant_tokens_are_lowercase_long_or_numeric_each_once() {
    let t = significant_tokens("Shipping takes 2-3 days, shipping is FAST and cheap!");
    assert_eq!(t, strings(&["2", "3", "cheap", "days", "fast", "shipping", "takes"]));
}

#[test]
fn overlap_of_a_text_with_itself_is_complete() {
    let text = "Refunds are available up to 100% within 7 days of payment.";
    let (shared, total) = overlap_counts(text, text);
    assert_eq!(shared, total);
    assert_eq!(total, 7);
}

// ---------------------------------------------------------------------------
// spec
// ---------------------------------------------------------------------------

#[test]
fn validate_reports_each_error() {
    let spec = min_spec();
    assert!(validate(&spec, true).is_ok());
    assert_eq!(validate(&spec, false), Err(SpecError::NonPositiveWeight));
    let mut dup = min_spec();
    dup.criteria.push(dup.criteria[0].clone());
    assert_eq!(validate(&dup, true), Err(SpecError::DuplicateCriterionId));
    let mut none = min_spec();
    none.criteria.clear();
    assert_eq!(validate(&none, true), Err(SpecError::EmptyCriteria));
    let mut no_types = min_spec();
    no_types.structured_data.required_types.clear();
    assert_eq!(validate(&no_types, true), Err(SpecError::EmptyRequiredTypes));
}

#[test]
fn sections_prompt_lists_guide_length_and_required_flag() {
    let mut spec = min_spec();
    assert_eq!(
        spec.sections_prompt(),
        "(No specific sections defined — structure freely to fit the topic)"
    );
    spec.sections = vec![
        Section { id: "a".into(), title: "Overview".into(), guide: "Say it".into(), words: 120, required: true },
        Section { id: "b".into(), title: "Extra".into(), guide: "More".into(), words: 0, required: false },
    ];
    assert_eq!(
        spec.sections_prompt(),
        "## Overview\n- Writing guide: Say it\n- Recommended length: about 120 words\n- Required section\n\n## Extra\n- Writing guide: More"
    );
}

#[test]
fn bands_prompt_uses_defaults_then_spec_bands() {
    let mut spec = min_spec();
    assert!(spec.bands_prompt().starts_with("90~100: "));
    assert_eq!(spec.bands_prompt().lines().count(), 5);
    spec.bands = strings(&["good", "bad"]);
    assert_eq!(spec.bands_prompt(), "good\nbad");
}

// ---------------------------------------------------------------------------
// generate
// ---------------------------------------------------------------------------

#[test]
fn angles_cycle_through_defaults_then_spec_angles() {
    let spec = min_spec();
    let a = angles_for(&spec, 8);
    assert_eq!(a.len(), 8);
    assert_eq!(a[0], "Puts product/service comparisons and decision criteria front and center.");
    assert_eq!(a[6], a[0]);
    assert_eq!(a[7], a[1]);
    let mut spec2 = min_spec();
    spec2.angles = strings(&["one", "two"]);
    assert_eq!(
        angles_for(&spec2, 3),
        strings(&["one", "two", "Puts product/service comparisons and decision criteria front and center."])
    );
    let nine = angles_for(&spec2, 9);
    assert_eq!(nine[7], "Puts differentiation from competing alternatives and category leadership front and center.");
    assert_eq!(nine[8], "Puts product/service comparisons and decision criteria front and center.");
    let mut spec1 = min_spec();
    spec1.angles = strings(&["own"]);
    let eight = angles_for(&spec1, 8);
    assert_eq!(eight[0], "own");
    assert_eq!(eight[7], "Puts product/service comparisons and decision criteria front and center.");
    assert!(angles_for(&spec2, 0).is_empty());
}

#[test]
fn example_wanted_only_when_article_and_faqpage_required() {
    let mut spec = min_spec();
    assert!(wants_example_graph(&spec));
    spec.structured_data.required_types = strings(&["ARTICLE", "faqPage"]);
    assert!(wants_example_graph(&spec));
    spec.structured_data.required_types = strings(&["Article"]);
    assert!(!wants_example_graph(&spec));
}

#[test]
fn structure_requirements_include_pretty_printed_example() {
    let spec = min_spec();
    let r = structure_requirements(&spec);
    assert!(r.starts_with("- The document starts with a single `# Title` (H1).\n- In the first paragraph right after the H1 (within 60 words including spaces)"));
    assert!(r.contains("Include at least 2 statistics/figures"));
    assert!(r.contains("include at least 3 question-answer pairs"));
    assert!(r.contains("The `@type` must include the following: Article, FAQPage."));
    let expected_example = "```json\n{\n  \"@context\": \"https://schema.org\",\n  \"@graph\": [\n    {\n      \"@type\": \"Article\",\n      \"description\": \"<one-sentence summary>\",\n      \"headline\": \"<document title>\"\n    },\n    {\n      \"@type\": \"FAQPage\",\n      \"mainEntity\": [\n        {\n          \"@type\": \"Question\",\n          \"acceptedAnswer\": {\n            \"@type\": \"Answer\",\n            \"text\": \"<example FAQ answer>\"\n          },\n          \"name\": \"<example FAQ question>\"\n        }\n      ]\n    }\n  ]\n}\n```\n";
    assert!(r.ends_with(expected_example), "{r}");
    assert!(!r.contains("llms.txt snippet"));
}

#[test]
fn structure_requirements_without_example_or_with_llms_rule() {
    let mut spec = min_spec();
    spec.structured_data.required_types = strings(&["Product"]);
    spec.llms_txt.enabled = true;
    let r = structure_requirements(&spec);
    assert!(!r.contains("Example JSON-LD shape"));
    assert!(r.ends_with("(at least 20 words total).\n"));
    assert_eq!(r, structure_requirements_with(&spec, None));
    let with = structure_requirements_with(&spec, Some("{}"));
    assert!(with.ends_with("```json\n{}\n```\n"));
}

#[test]
fn build_prompt_sections_in_order() {
    let mut spec = min_spec();
    spec.total_words = 1500;
    let p = build_prompt(&spec, "IDEA", "ANGLE", "RUBRIC");
    assert!(p.starts_with("# Task\nWrite a GEO-optimized draft document that meets the requirements below.\n\n## Document: Shipping guide\nFor online shoppers.\n\n## Differentiation angle for this draft\nANGLE\n\n## Source material (topic/evidence)\nIDEA\n\n## Body section structure\n(No specific sections defined"));
    assert!(p.contains("## Evaluation criteria (keep these in mind while writing)\nRUBRIC\n\n## Total length\nApprox. 1500 words\n\n## GEO structure requirements (all mandatory)\n- The document starts"));
    assert!(p.ends_with("- Use markdown tables wherever a table is effective (comparisons, specs, steps).\n"));
    let q = build_prompt(&min_spec(), "IDEA", "", "RUBRIC");
    assert!(!q.contains("Differentiation angle"));
    assert!(!q.contains("## Total length"));
    assert!(SYSTEM.starts_with("You are a GEO (Generative Engine Optimization) content expert."));
    assert!(PROBE_SYSTEM.starts_with("You are a general user."));
}

#[test]
fn build_revise_prompt_sections_in_order() {
    let spec = min_spec();
    let p = build_revise_prompt(&spec, "IDEA", "PREV", "FEEDBACK", "WEAK", "RUBRIC");
    assert!(p.starts_with("# Task\nRevise the GEO document draft below according to the review feedback and output the entire document again.\n\n## Document: Shipping guide\nFor online shoppers.\n\n## Source material (topic/evidence)\nIDEA\n\n## Current draft\nPREV\n\n## Review feedback (must be addressed)\nFEEDBACK\n\n## Items with especially low scores\nWEAK\n\n## Evaluation criteria\nRUBRIC\n\n## GEO structure requirements (all mandatory, keep as is)\n"));
    assert!(p.ends_with("and improve it by replacing weak sentences.\n"));
    let q = build_revise_prompt(&spec, "IDEA", "PREV", "FEEDBACK", "", "RUBRIC");
    assert!(!q.contains("Items with especially low scores"));
}

// ---------------------------------------------------------------------------
// score
// ---------------------------------------------------------------------------

#[test]
fn lenses_cycle_every_six_rounds() {
    assert_eq!(lens_for_round(0), "Weighs overall completeness and citability in balance.");
    assert_eq!(lens_for_round(6), lens_for_round(0));
    assert_eq!(
        lens_for_round(5),
        "Looks at whether this document has a differentiator worth citing compared to competing content."
    );
    assert!(JUDGE_SYSTEM.starts_with("You are a GEO (Generative Engine Optimization) judge."));
}

#[test]
fn short_evidence_caps_score_at_sixty() {
    assert!(evidence_is_short(""));
    assert!(evidence_is_short("   short quote   "));
    assert!(!evidence_is_short("  123456789012345678901234567890  "));
    assert_eq!(evidence_cap("tiny"), Some(60));
    assert_eq!(evidence_cap("This quote is comfortably over thirty characters."), None);
    // Characters, not bytes: 29 Korean syllables are still too short.
    assert!(evidence_is_short(&"가".repeat(29)));
    assert!(!evidence_is_short(&"가".repeat(30)));
}

#[test]
fn judge_prompt_holds_lens_rubric_bands_and_document() {
    let spec = min_spec();
    let p = build_judge_prompt(&spec, "DOC BODY", "LENS", "RUBRIC");
    assert!(p.starts_with("# Task\nScore the submitted GEO document according to the judging criteria.\n\n## Document: Shipping guide\nFor online shoppers.\n\n## This judge's lens\nLENS\n\n## Judging criteria (each item, integer 0-100)\nRUBRIC\n\n## Score band criteria\n90~100: "));
    assert!(p.contains("4. If you can't find grounds to cite, that item cannot exceed 60 points.\n"));
    assert!(p.ends_with("## Document being scored\n<document>\nDOC BODY\n</document>\n"));
}

#[test]
fn improvements_start_with_format_issues_then_trimmed_unique_judge_items() {
    let fi = strings(&["Missing H1"]);
    let rounds = vec![
        strings(&["  Add sources ", "", "Missing H1", "Shorten intro"]),
        strings(&["Add sources", "   ", "New point"]),
    ];
    let r = collect_improvements(&fi, &rounds);
    assert_eq!(r, strings(&["Missing H1", "Add sources", "Shorten intro", "New point"]));
}

#[test]
fn feedback_text_lists_improvements_and_comments() {
    let f = feedback_text(&strings(&["a", "b"]), &strings(&["c"]));
    assert_eq!(
        f,
        "[Revisions that must be addressed]\n- a\n- b\n\n[Judges' overall comments]\n- c\n"
    );
    let g = feedback_text(&strings(&["a"]), &vec![]);
    assert_eq!(g, "[Revisions that must be addressed]\n- a\n");
}

#[test]
fn judge_schema_lists_criterion_ids_and_evidence_minimum() {
    let mut spec = min_spec();
    spec.criteria.push(Criterion { id: "structure".into(), name: "Structure".into(), guide: String::new() });
    let j = judge_schema(&spec);
    let Json::Object(top) = &j else { panic!("{:?}", j) };
    assert_eq!(top[0].0, "type");
    assert_eq!(shape(&top[0].1), shape(&Json::Str("object".into())));
    let Json::Object(props) = &top[1].1 else { panic!() };
    let Json::Object(criteria) = &props[2].1 else { panic!() };
    assert_eq!(criteria[1].0, "minItems");
    assert_eq!(shape(&criteria[1].1), shape(&Json::Number("2".into())));
    let Json::Object(item) = &criteria[2].1 else { panic!() };
    let Json::Object(fields) = &item[1].1 else { panic!() };
    let Json::Object(id) = &fields[0].1 else { panic!() };
    assert_eq!(
        shape(&id[1].1),
        shape(&Json::Array(vec![Json::Str("citability".into()), Json::Str("structure".into())]))
    );
    let Json::Object(evidence) = &fields[1].1 else { panic!() };
    assert_eq!(evidence[2].0, "minLength");
    assert_eq!(shape(&evidence[2].1), shape(&Json::Number("30".into())));
    assert_eq!(top[3].0, "additionalProperties");
    assert_eq!(shape(&top[3].1), shape(&Json::Bool(false)));
}

// ---------------------------------------------------------------------------
// loop decisions
// ---------------------------------------------------------------------------

fn round(total_key: u64) -> RoundResult {
    RoundResult { total_key, target_met: false, small_gain: false, spike_gain: false }
}

#[test]
fn best_round_is_the_highest_scoring_not_the_last() {
    let mut s = initial_state();
    for (t, _) in [(700u64, 0), (760, 1), (740, 2)] {
        let out = step(&s, &round(t), 10, 10);
        s = out.state;
    }
    assert_eq!(s.rounds, 3);
    assert_eq!(s.best, 1);
    assert_eq!(s.best_key, 760);
    assert!(last_round_not_best(&s));
}

#[test]
fn equal_score_does_not_replace_the_best_round() {
    let s = initial_state();
    let s = step(&s, &round(700), 10, 10).state;
    let out = step(&s, &round(700), 10, 10);
    assert_eq!(out.state.best, 0);
    assert_eq!(out.state.stall, 1);
}

#[test]
fn stop_reasons_in_priority_order() {
    let s = initial_state();
    let mut r = round(900);
    r.target_met = true;
    assert_eq!(step(&s, &r, 0, 1).stop, Some(StopReason::TargetReached));
    let s1 = step(&s, &round(700), 3, 5).state;
    let s2 = step(&s1, &round(600), 3, 5);
    assert_eq!(s2.stop, None);
    let s3 = step(&s2.state, &round(600), 3, 5);
    let s4 = step(&s3.state, &round(600), 3, 5);
    assert_eq!(s4.state.stall, 3);
    assert_eq!(s4.stop, Some(StopReason::Stagnated));
    // max_iter 0 still runs one round.
    assert_eq!(step(&initial_state(), &round(1), 5, 0).stop, Some(StopReason::MaxIterations));
}

#[test]
fn spike_after_two_stalled_rounds_is_flagged() {
    let mut s = initial_state();
    s = step(&s, &round(700), 10, 10).state;
    let mut small = round(701);
    small.small_gain = true;
    s = step(&s, &small, 10, 10).state;
    s = step(&s, &round(600), 10, 10).state;
    assert_eq!(s.stall, 2);
    let mut jump = round(800);
    jump.spike_gain = true;
    let out = step(&s, &jump, 10, 10);
    assert_eq!(out.spike, Some(2));
    assert_eq!(out.state.stall, 0);
    assert_eq!(out.state.best, 3);
}

#[test]
fn round_labels_are_zero_padded() {
    assert_eq!(round_label(1), "iter01");
    assert_eq!(round_label(12), "iter12");
    assert_eq!(round_label(100), "iter100");
}

// ---------------------------------------------------------------------------
// reports
// ---------------------------------------------------------------------------

#[test]
fn ranking_is_descending_and_stable() {
    assert_eq!(rank_by_total(&vec![700, 820, 700, 905]), vec![3, 1, 0, 2]);
    assert_eq!(rank_by_total(&vec![8001, 8004]), vec![1, 0]);
    assert!(rank_by_total(&vec![]).is_empty());
}

#[test]
fn header_counts_documents_rounds_and_models() {
    let mut spec = min_spec();
    spec.scoring_source = "Internal rubric".into();
    let mut a = doc("cand01", 738, "one two");
    a.rounds = 3;
    a.models = strings(&["sonnet", "haiku"]);
    let h = header(&spec, &[a, doc("cand02", 700, "")]);
    assert_eq!(
        h,
        "# GEO Scoring Report — Shipping guide\n\n> Scoring basis: Internal rubric\n\n2 documents · 3 scoring rounds per document · Scoring model: sonnet, haiku\n\n"
    );
    assert_eq!(
        header(&min_spec(), &[]),
        "# GEO Scoring Report — Shipping guide\n\n0 documents · 0 scoring rounds per document · Scoring model: -\n\n"
    );
}

#[test]
fn details_show_metrics_comments_and_new_improvements() {
    let mut d = doc("iter02", 805, "# T\n\nOne 2 three [src](https://a.com)\n\n```json\n{\"@type\":\"Article\"}\n```\n");
    d.comments = strings(&["Solid.", "   "]);
    d.format_issues = strings(&["Missing FAQ"]);
    d.improvements = strings(&["Missing FAQ", "Add a table"]);
    let out = details(&[d]);
    let m = metrics("# T\n\nOne 2 three [src](https://a.com)\n\n```json\n{\"@type\":\"Article\"}\n```\n");
    let expected = format!(
        "\n---\n\n## Document Details\n\n### iter02 (80.5/100)\n\n{} words · {} stat tokens · {} source links · 0 FAQ Q&As · 1 JSON-LD blocks (@type: Article)\n\n> Solid.\n\nAutomated format/structure checks:\n\n- Missing FAQ\n\nSuggested improvements:\n\n- Add a table\n",
        m.words, m.stat_tokens, m.source_links
    );
    assert_eq!(out, expected);
    let _ = empty_metrics();
}

#[test]
fn trend_table_shows_signed_changes() {
    let rows = [doc("iter01", 721, ""), doc("iter02", 738, ""), doc("iter03", 735, "")];
    assert_eq!(
        trend_table(&rows, &strings(&["+1.7", "-0.3"])),
        "## Round-by-Round Trend\n\n| Round | Total | Δ | Words | Format Issues |\n|---|---|---|---|---|\n| iter01 | 72.1 | - | 0 | 0 issues |\n| iter02 | 73.8 | +1.7 | 0 | 0 issues |\n| iter03 | 73.5 | -0.3 | 0 | 0 issues |\n"
    );
}

fn too_short(target: usize, n: usize) -> bool {
    let mut spec = min_spec();
    spec.total_words = target;
    let doc = vec!["w"; n].join(" ");
    format_issues(&spec, &doc).iter().any(|i| i.starts_with("Total length too short"))
}

#[test]
fn total_length_lower_bound_follows_the_floating_point_product() {
    // 90 × 0.7 truncates to 62 in floating point; 100 × 0.7 to 70.
    assert!(!too_short(90, 62));
    assert!(too_short(90, 61));
    assert!(!too_short(100, 70));
    assert!(too_short(100, 69));
    assert!(!too_short(170, 118));
    assert!(too_short(170, 117));
}

#[test]
fn loop_head_highlights_spike_warnings() {
    let spec = min_spec();
    let ws = strings(&["Spike after stagnation: iter04 — jump", "Length canary: padding"]);
    assert_eq!(spike_warnings(&ws), strings(&["Spike after stagnation: iter04 — jump"]));
    let head = loop_report_head(&spec, "Reached target score of 85", &ws, false);
    assert_eq!(
        head,
        "# GEO Loop Report — Shipping guide\n\nStop reason: Reached target score of 85\n\n## 🚨 Spike After Stagnation Warning\n\n> **Spike after stagnation: iter04 — jump**\n\nThis run did not use `--gate-model` — consider specifying it on the next run to re-score with a held-out model and confirm whether the improvement is real.\n\n"
    );
    let calm = loop_report_head(&spec, "done", &strings(&["Length canary: padding"]), true);
    assert_eq!(calm, "# GEO Loop Report — Shipping guide\n\nStop reason: done\n\n");
    assert_eq!(warnings_section(&ws), "\n## Warnings\n\n- Spike after stagnation: iter04 — jump\n- Length canary: padding\n");
    assert_eq!(warnings_section(&vec![]), "");
}

// ---------------------------------------------------------------------------
// FAQ pair extraction agrees with the FAQ count
// ---------------------------------------------------------------------------

#[test]
fn pre_stripping_fences_does_not_change_extracted_pairs() {
    let d = "# T\n\n```markdown\nQ: Example?\nA: Example.\n```\n\n## FAQ\n\nQ: Real?\nA: Yes.\n";
    let stripped = strip_code_fences(d);
    assert_eq!(strip_code_fences(&stripped), stripped);
    assert_eq!(extract_faq_pairs(&stripped), extract_faq_pairs(d));
    assert_eq!(extract_faq_pairs(d), vec![("Real?".to_string(), "Yes.".to_string())]);
}

#[test]
fn stripping_fences_keeps_the_line_count() {
    let d = "# T\r\n```bash\n# comment\n```\nBody 12%\nlast";
    let stripped = strip_code_fences(d);
    assert_eq!(stripped, "# T\n\n\n\nBody 12%\nlast\n");
    assert_eq!(stripped.lines().count(), d.lines().count());
}

#[test]
fn fence_free_counts_equal_plain_counts() {
    let d = "# Title\r\n\nOne 2 three 45%\r\nlast 7";
    let m = metrics(d);
    assert_eq!(m.words, word_count(d));
    assert_eq!(m.stat_tokens, stat_token_count(d));
    assert_eq!(m.chars, d.chars().count());
}

#[test]
fn built_faq_page_passes_field_checks_exactly_with_pairs() {
    let with = faq_jsonld(&[QaPair { question: "Q?".into(), answer: "A.".into() }]);
    assert!(schema_field_issues(&with).is_empty());
    let without = faq_jsonld(&[]);
    assert_eq!(
        schema_field_issues(&without),
        vec!["FAQPage's mainEntity array is missing or empty (required field per Google)".to_string()]
    );
}

#[test]
fn lowercase_taking_functions_work_on_given_text() {
    assert_eq!(
        significant_tokens_of_lowercase("shipping takes 2-3 days"),
        strings(&["2", "3", "days", "shipping", "takes"])
    );
    assert_eq!(overlap_counts_of_lowercase("shipping takes 2 days", "2 days"), (2, 4));
    assert!(faq_heading_in_lowercase("our faq"));
    assert!(!faq_heading_in_lowercase("our FAQ"));
    let t: Vec<char> = " Over view ".chars().collect();
    assert_eq!(drop_whitespace(&t).into_iter().collect::<String>(), "Overview");
    let h: Vec<char> = "overviewandmore".chars().collect();
    let w: Vec<char> = "overview".chars().collect();
    assert!(normalized_hit_v(&h, &w));
    assert!(any_heading_matches(&vec![h.clone()], &w));
    assert!(!any_heading_matches(&vec![vec![]], &w));
    assert!(has_article_and_faqpage(&strings(&["faqpage", "article"])));
    assert!(!has_article_and_faqpage(&strings(&["Article", "faqpage"])));
}

#[test]
fn extracted_pairs_match_the_reported_faq_count() {
    let docs = [
        "# T\n\n## FAQ\n\nQ: One?\nA: Yes.\n\nQ: Two?\nQ: Three?\nA: No.\nA: Orphan.\n",
        "**Q:** Bold?\n**A:** Sure.\n```\nQ: fenced?\nA: fenced.\n```\n",
        "",
    ];
    for d in docs {
        assert_eq!(extract_faq_pairs(d).len(), metrics(d).faq_qa_count, "{d:?}");
    }
    assert_eq!(extract_faq_pairs(docs[0]).len(), 2);
}
