use geo_loop::checks::{
    extract_faq_pairs, extract_jsonld_blocks, extract_llms_txt_snippet, faq_issues,
    faq_metrics, first_paragraph, format_issues, heading_hierarchy_issues, llms_txt_issues,
    metrics, missing_sections, parse_blocks, parse_headings, source_link_count,
    split_sections, stat_token_count, strip_code_fences, structured_data_issues, truncate,
    word_count, answer_summary_issues,
};
use geo_loop::json::{collect_types, schema_field_issues, Json};
use geo_loop::spec::{
    AnswerSummarySpec, Criterion, FaqSpec, LlmsTxtSpec, Section, Spec, StatisticsSpec,
    StructuredDataSpec,
};

fn min_spec() -> Spec {
    Spec {
        name: "test".into(),
        context: String::new(),
        scoring_source: String::new(),
        total_words: 0,
        angles: vec![],
        bands: vec![],
        sections: vec![],
        criteria: vec![Criterion {
            id: "citability".into(),
            name: "Citability".into(),
            guide: String::new(),
        }],
        answer_summary: AnswerSummarySpec::default(),
        statistics: StatisticsSpec::default(),
        faq: FaqSpec::default(),
        structured_data: StructuredDataSpec::default(),
        llms_txt: LlmsTxtSpec::default(),
    }
}

fn s(x: &str) -> String {
    x.to_string()
}

fn obj(entries: Vec<(&str, Json)>) -> Json {
    Json::Object(entries.into_iter().map(|(k, v)| (k.to_string(), v)).collect())
}

fn parse_one(text: &str) -> Json {
    let doc = format!("```json\n{}\n```", text);
    let mut parsed = parse_blocks(&doc);
    assert_eq!(parsed.len(), 1);
    parsed.remove(0).expect("valid JSON")
}

#[test]
fn missing_sections_matches_heading_case_insensitively() {
    let mut spec = min_spec();
    spec.sections = vec![Section {
        id: "overview".into(),
        title: "Overview".into(),
        guide: String::new(),
        words: 0,
        required: true,
    }];
    let doc = "# T\n\n## overview\n\nBody text here.\n";
    let missing = missing_sections(&spec, doc);
    assert!(missing.is_empty(), "{:?}", missing);
}

#[test]
fn detects_faq_qa_pairs() {
    let doc = "# T\n\n## FAQ\n\nQ: Question1?\nA: Answer1\n\nQ: Question2?\nA: Answer2\n";
    let (has_heading, count) = faq_metrics(doc);
    assert!(has_heading);
    assert_eq!(count, 2);
}

#[test]
fn counts_source_links() {
    let doc = "Body text [source1](https://a.com) and [source2](https://b.com)";
    assert_eq!(source_link_count(doc), 2);
}

#[test]
fn heading_skip_detected() {
    let doc = "# H1\n\n### H3 skip\n";
    let issues = heading_hierarchy_issues(doc);
    assert_eq!(issues.len(), 1);
}

#[test]
fn jsonld_type_collection() {
    let doc = "```json\n{\"@context\":\"https://schema.org\",\"@type\":\"Article\"}\n```";
    let m = metrics(doc);
    assert_eq!(m.jsonld_blocks, 1);
    assert!(m.jsonld_types.contains(&"Article".to_string()));
}

#[test]
fn llms_txt_snippet_ok() {
    let snippet = "# Site\n\n> A one line summary that is reasonably descriptive of the site.\n\n- [Home](https://example.com) more words to pad length above twenty total words here now\n";
    let issues = llms_txt_issues(snippet);
    assert!(issues.is_empty(), "{:?}", issues);
}

#[test]
fn answer_summary_first_paragraph() {
    let doc = "# Title\n\nThis is a direct answer sentence that responds to the query clearly.\n\n## Next\nbody";
    let spec = min_spec();
    let issues = answer_summary_issues(&spec, doc);
    assert!(issues.is_empty(), "{:?}", issues);
}

#[test]
fn first_paragraph_ignores_hash_comment_inside_code_fence() {
    let doc =
        "This is the real opening paragraph that directly answers the question in full.\n\n\
                ```bash\n# Install dependencies\npip install foo\n```\n\n\
                More trailing body text here.\n";
    let para = first_paragraph(doc);
    assert!(
        para.contains("real opening paragraph"),
        "expected the real opening paragraph, got {:?}",
        para
    );
}

#[test]
fn word_count_handles_korean_by_whitespace() {
    assert_eq!(word_count("이것은 다섯 어절로 된 한국어 문장입니다"), 6);
}

#[test]
fn faq_heading_present_but_no_qa_pairs_is_flagged() {
    let mut spec = min_spec();
    spec.faq.min_qa = 1;
    let doc = "# T\n\n## FAQ\n\nFrequently asked questions are coming soon.\n";
    let (has_heading, qa_count) = faq_metrics(doc);
    assert!(has_heading);
    assert_eq!(qa_count, 0);
    let m = metrics(doc);
    let issues = faq_issues(&spec, &m);
    assert!(!issues.is_empty(), "{:?}", issues);
}

#[test]
fn embedded_triple_backtick_inside_json_string_does_not_truncate_block() {
    let doc = "```json\n{\"@type\":\"Article\",\"note\":\"example: ```code``` inline\"}\n```";
    let blocks = extract_jsonld_blocks(doc);
    assert_eq!(blocks.len(), 1);
    let parsed = parse_blocks(doc);
    assert!(parsed[0].is_ok(), "{:?}", blocks);
}

#[test]
fn jsonc_fence_is_not_mistaken_for_jsonld() {
    let doc = "```jsonc\n// example config, not JSON-LD\n{\"foo\": 1}\n```";
    let blocks = extract_jsonld_blocks(doc);
    assert!(blocks.is_empty(), "{:?}", blocks);
}

#[test]
fn code_fence_example_heading_and_stats_are_excluded_from_scan() {
    let doc = "# Real Title\n\nReal direct answer paragraph with enough words to pass the check here now.\n\n```\n# This is an example heading, not a real heading\nStat example: numbers like 43% should also be ignored\n```\n";
    let heads = parse_headings(&strip_code_fences(doc));
    assert_eq!(heads.len(), 1);
    assert_eq!(heads[0].text, "Real Title");
    let m = metrics(doc);
    assert_eq!(
        m.stat_tokens, 0,
        "Numbers inside fences must not be counted as stats: {}",
        m.stat_tokens
    );
}

#[test]
fn faqpage_missing_main_entity_is_flagged() {
    let v = parse_one(r#"{"@context":"https://schema.org","@type":"FAQPage"}"#);
    let issues = schema_field_issues(&v);
    assert!(issues.iter().any(|i| i.contains("mainEntity")), "{:?}", issues);
}

#[test]
fn article_missing_headline_is_flagged() {
    let v = parse_one(r#"{"@context":"https://schema.org","@type":"Article","author":"me"}"#);
    let issues = schema_field_issues(&v);
    assert!(issues.iter().any(|i| i.contains("headline")), "{:?}", issues);
}

#[test]
fn extract_faq_pairs_returns_question_and_answer_text() {
    let doc = "# T\n\n## FAQ\n\nQ: How many days does shipping take?\nA: It takes an average of 2-3 days.\n\nQ: Can I get a refund?\nA: Unconditional refund within 7 days.\n";
    let pairs = extract_faq_pairs(doc);
    assert_eq!(pairs.len(), 2);
    assert_eq!(pairs[0].0, "How many days does shipping take?");
    assert_eq!(pairs[0].1, "It takes an average of 2-3 days.");
}

#[test]
fn extract_faq_pairs_ignores_qa_inside_code_fence() {
    let doc = "# T\n\nIntro text.\n\n\
                ```markdown\nQ: Example question in a code sample?\nA: Example answer in a code sample.\n```\n\n\
                ## FAQ\n\nQ: Real question?\nA: Real answer.\n";
    let pairs = extract_faq_pairs(doc);
    assert_eq!(pairs.len(), 1, "{:?}", pairs);
    assert_eq!(pairs[0].0, "Real question?");
}

#[test]
fn extract_faq_pairs_strips_bold_markdown_labels() {
    let doc = "# T\n\n## FAQ\n\n**Q:** What is X?\n**A:** X is Y.\n\n**Q**: Another question?\n**A**: Another answer.\n";
    let pairs = extract_faq_pairs(doc);
    assert_eq!(pairs.len(), 2);
    assert_eq!(pairs[0].0, "What is X?");
    assert_eq!(pairs[0].1, "X is Y.");
    assert_eq!(pairs[1].0, "Another question?");
    assert_eq!(pairs[1].1, "Another answer.");
}

#[test]
fn faq_metrics_counts_bold_markdown_qa_pairs() {
    let doc = "# T\n\n## FAQ\n\n**Q:** What is X?\n**A:** X is Y.\n";
    let (has_heading, count) = faq_metrics(doc);
    assert!(has_heading);
    assert_eq!(count, 1);
}

#[test]
fn product_missing_required_fields_is_flagged() {
    let v = parse_one(
        r#"{"@context":"https://schema.org","@type":"Product","description":"A short description"}"#,
    );
    let issues = schema_field_issues(&v);
    assert!(
        issues.iter().any(|i| i.contains("name") && i.contains("required")),
        "{:?}",
        issues
    );
    assert!(
        issues.iter().any(|i| i.contains("image") && i.contains("required")),
        "{:?}",
        issues
    );
}

#[test]
fn howto_missing_required_fields_is_flagged() {
    let v = parse_one(r#"{"@context":"https://schema.org","@type":"HowTo","totalTime":"PT30M"}"#);
    let issues = schema_field_issues(&v);
    assert!(
        issues.iter().any(|i| i.contains("name") && i.contains("required")),
        "{:?}",
        issues
    );
    assert!(
        issues.iter().any(|i| i.contains("step") && i.contains("required")),
        "{:?}",
        issues
    );
}

#[test]
fn empty_doc_metrics_are_all_zero_no_panic() {
    let m = metrics("");
    assert_eq!(m.words, 0);
    assert_eq!(m.chars, 0);
    assert_eq!(m.stat_tokens, 0);
    assert_eq!(m.source_links, 0);
    assert_eq!(m.faq_qa_count, 0);
    assert!(!m.has_faq_heading);
    assert_eq!(m.jsonld_blocks, 0);
    assert!(m.jsonld_types.is_empty());
}

#[test]
fn empty_doc_first_paragraph_is_empty_string() {
    assert_eq!(first_paragraph(""), "");
}

#[test]
fn empty_doc_structural_scans_return_empty_no_panic() {
    assert!(parse_headings("").is_empty());
    assert!(split_sections("").is_empty());
    assert!(heading_hierarchy_issues("").is_empty());
    assert!(extract_faq_pairs("").is_empty());
    assert!(extract_jsonld_blocks("").is_empty());
    assert_eq!(extract_llms_txt_snippet(""), None);
}

#[test]
fn empty_doc_format_issues_flags_requirements_without_panicking() {
    let spec = min_spec();
    let issues = format_issues(&spec, "");
    assert!(!issues.is_empty(), "{:?}", issues);
}

#[test]
fn empty_snippet_llms_txt_issues_reports_no_content() {
    let issues = llms_txt_issues("");
    assert_eq!(issues, vec!["llms.txt: no content".to_string()]);
}

#[test]
fn whitespace_only_doc_behaves_like_empty_no_panic() {
    let doc = "   \n\t\n   \n";
    let m = metrics(doc);
    assert_eq!(m.words, 0);
    assert_eq!(first_paragraph(doc), "");
}

#[test]
fn huge_document_metrics_scale_correctly_no_panic() {
    let mut doc = String::from("# Title\n\nReal direct answer paragraph here now.\n\n");
    for i in 0..50_000 {
        doc.push_str(&format!("Padding line number {i} with stat {i}% included.\n"));
    }
    doc.push_str("\n## FAQ\n\nQ: Real question?\nA: Real answer.\n");
    let m = metrics(&doc);
    assert_eq!(m.words, word_count(&doc));
    assert_eq!(m.stat_tokens, stat_token_count(&doc));
    assert_eq!(m.faq_qa_count, 1);
    assert!(m.has_faq_heading);
}

#[test]
fn huge_single_line_document_does_not_panic() {
    let doc: String = "word ".repeat(500_000);
    let m = metrics(&doc);
    assert_eq!(m.words, 500_000);
    assert!(heading_hierarchy_issues(&doc).is_empty());
}

#[test]
fn deeply_nested_but_narrow_heading_list_does_not_panic() {
    let mut doc = String::new();
    for i in 0..20_000 {
        doc.push_str(&format!("# H{i}\n"));
    }
    let heads = parse_headings(&doc);
    assert_eq!(heads.len(), 20_000);
    assert!(heading_hierarchy_issues(&doc).is_empty());
}

#[test]
fn jsonld_exceeding_serde_recursion_limit_reports_parse_error_not_panic() {
    let mut json = String::new();
    for _ in 0..500 {
        json.push('[');
    }
    json.push('1');
    for _ in 0..500 {
        json.push(']');
    }
    let doc = format!("```json\n{json}\n```");
    let spec = min_spec();
    let issues = structured_data_issues(&spec, &doc);
    assert!(issues.iter().any(|i| i.contains("Failed to parse")), "{:?}", issues);
}

#[test]
fn truncated_jsonld_reports_syntax_error_not_panic() {
    let doc = "```json\n{\"@context\":\"https://schema.org\",\"@type\":\"Article\"\n```";
    let spec = min_spec();
    let issues = structured_data_issues(&spec, doc);
    assert!(issues.iter().any(|i| i.contains("Failed to parse")), "{:?}", issues);
}

#[test]
fn jsonld_with_scalar_root_does_not_panic() {
    let doc = "```json\n42\n```";
    let blocks = extract_jsonld_blocks(doc);
    assert_eq!(blocks.len(), 1);
    let v = parse_one("42");
    let mut types: Vec<String> = Vec::new();
    collect_types(&v, &mut types);
    assert!(types.is_empty());
    assert!(schema_field_issues(&v).is_empty());
}

#[test]
fn jsonld_with_non_array_main_entity_does_not_panic() {
    let v = parse_one(
        r#"{"@context":"https://schema.org","@type":"FAQPage","mainEntity":"not an array"}"#,
    );
    let issues = schema_field_issues(&v);
    assert!(issues.iter().any(|i| i.contains("mainEntity")), "{:?}", issues);
}

#[test]
fn jsonld_with_wide_flat_array_of_many_types_does_not_panic() {
    let items: Vec<String> = (0..5_000).map(|i| format!(r#"{{"@type":"Thing{i}"}}"#)).collect();
    let doc = format!("```json\n[{}]\n```", items.join(","));
    let blocks = extract_jsonld_blocks(&doc);
    let v = parse_one(&blocks[0]);
    let mut types: Vec<String> = Vec::new();
    collect_types(&v, &mut types);
    assert_eq!(types.len(), 5_000);
}

#[test]
fn rtl_arabic_text_word_count_and_first_paragraph_do_not_panic() {
    let doc = "# عنوان\n\nهذه هي الفقرة الأولى التي تجيب مباشرة على السؤال الأساسي هنا الآن.\n";
    let para = first_paragraph(doc);
    assert!(!para.is_empty());
    assert!(word_count(&para) > 0);
}

#[test]
fn emoji_zwj_sequences_and_astral_plane_chars_do_not_panic() {
    let doc = "# 👨‍👩‍👧‍👦 Title 🇰🇷\n\n\
                Real opening paragraph with 𝕳𝖊𝖑𝖑𝖔 text and enough words to pass here.\n\n\
                ## FAQ\n\nQ: 질문 emoji 👍?\nA: 답변 emoji 👌.\n";
    let m = metrics(doc);
    assert_eq!(m.faq_qa_count, 1);
    let para = first_paragraph(doc);
    assert!(para.contains("𝕳𝖊𝖑𝖑𝖔"));
    let _ = truncate(doc, 5);
    let _ = truncate(doc, doc.chars().count() + 100);
}

#[test]
fn combining_diacritics_do_not_panic() {
    let doc = "# Cafe\u{0301} Title\n\nThis is the real opening paragraph, cafe\u{0301} style, long enough now.\n";
    let para = first_paragraph(doc);
    assert!(!para.is_empty());
    let heads = parse_headings(doc);
    assert_eq!(heads.len(), 1);
}

#[test]
fn crlf_line_endings_are_handled_like_lf() {
    let doc = "# Title\r\n\r\nReal direct answer paragraph with enough words to pass the check here now.\r\n\r\n```\r\n# fenced heading, ignored\r\n```\r\n";
    let heads = parse_headings(&strip_code_fences(doc));
    assert_eq!(heads.len(), 1);
    assert_eq!(heads[0].text, "Title");
}

#[test]
fn hand_built_faqpage_without_main_entity_is_flagged() {
    let v = obj(vec![
        ("@context", Json::Str(s("https://schema.org"))),
        ("@type", Json::Str(s("FAQPage"))),
    ]);
    assert_eq!(
        schema_field_issues(&v),
        vec![s("FAQPage's mainEntity array is missing or empty (required field per Google)")]
    );
}
