//! Prompts for writing and revising a GEO draft: the task, the spec's document/section
//! context, the evaluation criteria, the GEO structure requirements (with a JSON-LD example
//! when both `Article` and `FAQPage` are required) and the output rules.
//!
//! The evaluation-criteria block (`Spec::rubric_prompt`) states each criterion's weight as
//! a rounded percentage, which is computed in floating point by the caller and handed in
//! as `rubric`.
use vstd::prelude::*;
use crate::json::{Json, pretty_json_text, to_pretty_json};
use crate::schema::{ArticleMeta, QaPair, example_graph, is_example_graph};
use crate::spec::Spec;
use crate::text::{decimal, decimal_v, extend_chars, extend_str, join, lowercase, string_of, string_views, to_lowercase};
use crate::spec::join_strings;

verus! {

/// System prompt of the writing model.
pub const SYSTEM: &'static str = "You are a GEO (Generative Engine Optimization) content expert. You write in a form that generative answer engines like ChatGPT/Perplexity/Google AI Overview can directly quote and excerpt. You prioritize verifiable statistics, sources, and clear definitions over exaggerated rhetoric. Never fabricate unverified figures, and always attach a source via a markdown link for every statistic.";

// ---------------------------------------------------------------------------
// Angles
// ---------------------------------------------------------------------------

pub open spec fn default_angles_spec() -> Seq<Seq<char>> {
    seq![
        "Puts product/service comparisons and decision criteria front and center."@,
        "Puts step-by-step how-to instructions front and center."@,
        "Puts definitions, concept explanations, and clarification of key entities front and center."@,
        "Puts industry statistics and trend data front and center."@,
        "Directly addresses common misconceptions and objections via FAQ."@,
        "Puts differentiation from competing alternatives and category leadership front and center."@,
    ]
}

/// The angle of draft `i`: the spec's own angle while there is one, the default angles in
/// turn after that.
pub open spec fn angle_at(spec: Spec, i: int) -> Seq<char> {
    if i < spec.angles@.len() {
        spec.angles@[i]@
    } else {
        default_angles_spec()[(i - spec.angles@.len()) % 6]
    }
}

fn default_angles() -> (r: Vec<String>)
    ensures
        string_views(r@) == default_angles_spec(),
{
    let mut r: Vec<String> = Vec::new();
    r.push(String::from_str("Puts product/service comparisons and decision criteria front and center."));
    r.push(String::from_str("Puts step-by-step how-to instructions front and center."));
    r.push(String::from_str("Puts definitions, concept explanations, and clarification of key entities front and center."));
    r.push(String::from_str("Puts industry statistics and trend data front and center."));
    r.push(String::from_str("Directly addresses common misconceptions and objections via FAQ."));
    r.push(String::from_str("Puts differentiation from competing alternatives and category leadership front and center."));
    assert(string_views(r@) =~= default_angles_spec());
    r
}

/// `n` angles: the spec's own angles first, in order, then the default angles filling
/// every remaining slot (in turn, starting over after the sixth).
pub fn angles_for(spec: &Spec, n: usize) -> (r: Vec<String>)
    ensures
        r@.len() == n,
        forall|i: int| 0 <= i < n ==> (#[trigger] r@[i])@ == angle_at(*spec, i),
{
    let defaults = default_angles();
    assert(defaults@.len() == string_views(defaults@).len());
    let own = &spec.angles;
    let mut r: Vec<String> = Vec::new();
    let mut i: usize = 0;
    while i < n
        invariant
            i <= n,
            string_views(defaults@) == default_angles_spec(),
            defaults@.len() == 6,
            *own == spec.angles,
            r@.len() == i,
            forall|k: int| 0 <= k < i ==> (#[trigger] r@[k])@ == angle_at(*spec, k),
        decreases n - i,
    {
        let a = if i < own.len() {
            own[i].clone()
        } else {
            let k = (i - own.len()) % 6;
            assert(defaults@[k as int]@ == default_angles_spec()[k as int]);
            defaults[k].clone()
        };
        r.push(a);
        i = i + 1;
    }
    r
}

// ---------------------------------------------------------------------------
// GEO structure requirements
// ---------------------------------------------------------------------------

/// Each type lower-cased.
pub open spec fn lower_types(types: Seq<Seq<char>>) -> Seq<Seq<char>> {
    types.map_values(|t: Seq<char>| lowercase(t))
}

/// Both `article` and `faqpage` are among the (already lower-cased) type names.
pub open spec fn names_article_and_faqpage(lowered: Seq<Seq<char>>) -> bool {
    lowered.contains("article"@) && lowered.contains("faqpage"@)
}

/// Both `article` and `faqpage` are among the required types, ignoring case: the
/// requirements then carry a JSON-LD example.
pub open spec fn wants_example(spec: Spec) -> bool {
    names_article_and_faqpage(lower_types(string_views(spec.structured_data.required_types@)))
}

pub fn wants_example_graph(spec: &Spec) -> (b: bool)
    ensures
        b == wants_example(*spec),
{
    let types = &spec.structured_data.required_types;
    let mut lowered: Vec<String> = Vec::new();
    let mut i: usize = 0;
    while i < types.len()
        invariant
            i <= types@.len(),
            string_views(lowered@) == lower_types(string_views(types@)).take(i as int),
        decreases types.len() - i,
    {
        let l = to_lowercase(types[i].as_str());
        let ghost before = string_views(lowered@);
        lowered.push(l);
        assert(string_views(lowered@) =~= before.push(l@));
        assert(lower_types(string_views(types@)).take(i + 1) =~= lower_types(
            string_views(types@),
        ).take(i as int).push(lowercase(types@[i as int]@)));
        i = i + 1;
    }
    assert(lower_types(string_views(types@)).take(i as int) =~= lower_types(
        string_views(types@),
    ));
    has_article_and_faqpage(&lowered)
}

/// Whether the already lower-cased type names include both `article` and `faqpage`.
pub fn has_article_and_faqpage(lowered: &Vec<String>) -> (b: bool)
    ensures
        b == names_article_and_faqpage(string_views(lowered@)),
{
    let ghost ls = string_views(lowered@);
    let article = String::from_str("article");
    let faqpage = String::from_str("faqpage");
    let mut has_article = false;
    let mut has_faqpage = false;
    let mut i: usize = 0;
    while i < lowered.len()
        invariant
            i <= lowered@.len(),
            ls == string_views(lowered@),
            article@ == "article"@,
            faqpage@ == "faqpage"@,
            has_article == exists|k: int| 0 <= k < i && #[trigger] ls[k] == "article"@,
            has_faqpage == exists|k: int| 0 <= k < i && #[trigger] ls[k] == "faqpage"@,
        decreases lowered.len() - i,
    {
        assert(ls[i as int] == lowered@[i as int]@);
        if lowered[i] == article {
            has_article = true;
        }
        if lowered[i] == faqpage {
            has_faqpage = true;
        }
        i = i + 1;
    }
    proof {
        if has_article {
            let k = choose|k: int| 0 <= k < i && #[trigger] ls[k] == "article"@;
            assert(ls.contains("article"@));
        }
        if has_faqpage {
            let k = choose|k: int| 0 <= k < i && #[trigger] ls[k] == "faqpage"@;
            assert(ls.contains("faqpage"@));
        }
    }
    has_article && has_faqpage
}

/// The mandatory structure rules with the spec's limits and required types.
pub open spec fn structure_core(spec: Spec) -> Seq<char> {
    "- The document starts with a single `# Title` (H1).\n- In the first paragraph right after the H1 (within "@
        + decimal(spec.answer_summary.max_words as nat)
        + " words including spaces), give a direct, complete-sentence answer to the document's core question. This paragraph alone should be enough to understand the answer.\n- Include at least "@
        + decimal(spec.statistics.min_count as nat)
        + " statistics/figures throughout the document, and cite the source for each one nearby as a markdown link `[source name](URL)`.\n- Under an 'FAQ' heading (##), include at least "@
        + decimal(spec.faq.min_qa as nat)
        + " question-answer pairs, each written as a `Q: question` line followed by an `A: answer` line (bold formatting is fine, but each line must start with Q:/A:).\n- Respect the heading hierarchy (H1 → H2 → H3, don't skip levels).\n- At the very end of the document, write schema.org JSON-LD in a ```json code block. The `@type` must include the following: "@
        + join(string_views(spec.structured_data.required_types@), ", "@)
        + ". If both Article and FAQPage are required, either combine them in one block using a `@graph` array, or split into two separate ```json blocks. For FAQPage, map the `mainEntity` array's `Question` (name) and `acceptedAnswer` (`Answer`.text) 1:1 to the FAQ questions and answers in the body.\n"@
}

/// The llms.txt rule, present when the spec enables the snippet.
pub open spec fn llms_requirement(spec: Spec) -> Seq<char> {
    if spec.llms_txt.enabled {
        "- Additionally, at the very end of the document (after the JSON-LD block), write an llms.txt snippet in a ```llms.txt code block. The first line is `# document/site name` (H1), the next line is blank, then `> one-line summary` (blockquote), followed by a markdown list of related links `- [label](URL)` (at least 20 words total).\n"@
    } else {
        seq![]
    }
}

/// The JSON-LD example paragraph around the example's JSON text.
pub open spec fn example_block(text: Seq<char>) -> Seq<char> {
    "\nExample JSON-LD shape (fill in values with actual document content, use only as a structural reference):\n```json\n"@
        + text + "\n```\n"@
}

/// The structure requirements, with the example paragraph when a JSON text is given.
pub open spec fn structure_text(spec: Spec, example: Option<Seq<char>>) -> Seq<char> {
    structure_core(spec) + llms_requirement(spec) + match example {
        Some(t) => example_block(t),
        None => seq![],
    }
}

/// The structure requirements around a given JSON-LD example text (`None`: no example).
pub fn structure_requirements_with(spec: &Spec, example: Option<&str>) -> (r: String)
    ensures
        r@ == structure_text(
            *spec,
            match example {
                Some(t) => Some(t@),
                None => None,
            },
        ),
{
    let mut p: Vec<char> = Vec::new();
    extend_str(&mut p, "- The document starts with a single `# Title` (H1).\n- In the first paragraph right after the H1 (within ");
    let d = decimal_v(spec.answer_summary.max_words);
    extend_chars(&mut p, &d);
    extend_str(&mut p, " words including spaces), give a direct, complete-sentence answer to the document's core question. This paragraph alone should be enough to understand the answer.\n- Include at least ");
    let d = decimal_v(spec.statistics.min_count);
    extend_chars(&mut p, &d);
    extend_str(&mut p, " statistics/figures throughout the document, and cite the source for each one nearby as a markdown link `[source name](URL)`.\n- Under an 'FAQ' heading (##), include at least ");
    let d = decimal_v(spec.faq.min_qa);
    extend_chars(&mut p, &d);
    extend_str(&mut p, " question-answer pairs, each written as a `Q: question` line followed by an `A: answer` line (bold formatting is fine, but each line must start with Q:/A:).\n- Respect the heading hierarchy (H1 → H2 → H3, don't skip levels).\n- At the very end of the document, write schema.org JSON-LD in a ```json code block. The `@type` must include the following: ");
    let types = join_strings(&spec.structured_data.required_types, ", ");
    extend_str(&mut p, types.as_str());
    extend_str(&mut p, ". If both Article and FAQPage are required, either combine them in one block using a `@graph` array, or split into two separate ```json blocks. For FAQPage, map the `mainEntity` array's `Question` (name) and `acceptedAnswer` (`Answer`.text) 1:1 to the FAQ questions and answers in the body.\n");
    assert(p@ =~= structure_core(*spec));
    if spec.llms_txt.enabled {
        extend_str(&mut p, "- Additionally, at the very end of the document (after the JSON-LD block), write an llms.txt snippet in a ```llms.txt code block. The first line is `# document/site name` (H1), the next line is blank, then `> one-line summary` (blockquote), followed by a markdown list of related links `- [label](URL)` (at least 20 words total).\n");
    }
    assert(p@ =~= structure_core(*spec) + llms_requirement(*spec));
    match example {
        Some(t) => {
            extend_str(&mut p, "\nExample JSON-LD shape (fill in values with actual document content, use only as a structural reference):\n```json\n");
            extend_str(&mut p, t);
            extend_str(&mut p, "\n```\n");
            assert(p@ =~= structure_text(*spec, Some(t@)));
        },
        None => {
            assert(p@ =~= structure_text(*spec, None));
        },
    }
    string_of(&p)
}

/// The example shown in the requirements: an `@graph` of an `Article` with placeholder
/// headline and description and an `FAQPage` with one placeholder question/answer pair.
pub open spec fn is_example_json(j: Json) -> bool {
    is_example_graph(
        j,
        "<document title>"@,
        "<one-sentence summary>"@,
        seq![("<example FAQ question>"@, "<example FAQ answer>"@)],
    )
}

/// Builds the placeholder example graph.
pub fn example_json() -> (r: Json)
    ensures
        is_example_json(r),
{
    let article = ArticleMeta { headline: "<document title>", description: "<one-sentence summary>" };
    let mut qa: Vec<QaPair> = Vec::new();
    qa.push(
        QaPair {
            question: String::from_str("<example FAQ question>"),
            answer: String::from_str("<example FAQ answer>"),
        },
    );
    let r = example_graph(&article, qa.as_slice());
    assert(crate::schema::qa_views(qa@) =~= seq![
        ("<example FAQ question>"@, "<example FAQ answer>"@),
    ]);
    r
}

/// `s` is the structure requirements of `spec`: with the pretty-printed example graph
/// when `wants_example(spec)`, without it otherwise.
pub open spec fn is_structure_requirements(spec: Spec, s: Seq<char>) -> bool {
    exists|j: Json|
        #[trigger] is_example_json(j) && s == structure_text(
            spec,
            if wants_example(spec) {
                Some(pretty_json_text(j))
            } else {
                None
            },
        )
}

/// The GEO structure requirements of the spec; the JSON-LD example is serialised with
/// `serde_json::to_string_pretty`.
pub fn structure_requirements(spec: &Spec) -> (r: String)
    ensures
        is_structure_requirements(*spec, r@),
{
    let j = example_json();
    if wants_example_graph(spec) {
        let t = to_pretty_json(&j);
        let r = structure_requirements_with(spec, Some(t.as_str()));
        assert(is_example_json(j) && r@ == structure_text(*spec, Some(pretty_json_text(j))));
        r
    } else {
        let r = structure_requirements_with(spec, None);
        assert(is_example_json(j) && r@ == structure_text(*spec, None));
        r
    }
}

// ---------------------------------------------------------------------------
// Prompts
// ---------------------------------------------------------------------------

/// The output rules of a first draft.
pub open spec fn draft_output_rules() -> Seq<char> {
    "## Output rules\n- Output in markdown. Output only the document body — no introduction, explanation, or meta-commentary.\n- If a fact is uncertain, don't make it up; mark it as an 'estimate' or use a verifiable expression.\n- Use markdown tables wherever a table is effective (comparisons, specs, steps).\n"@
}

/// The output rules of a revision.
pub open spec fn revise_output_rules() -> Seq<char> {
    "## Output rules\n- Output the entire improved document in markdown. No change summary or meta-commentary.\n- Keep the parts that are already well-written, and substantively strengthen only the parts that were flagged.\n- Don't fabricate new figures without evidence. If you can't support a claim, remove it or tone down the wording.\n- Don't respond by simply making the document longer. Keep the total length within ±15% of the current draft, and improve it by replacing weak sentences.\n"@
}

/// `title` and `body` as a prompt block: `## title\nbody\n\n`.
pub open spec fn block(title: Seq<char>, body: Seq<char>) -> Seq<char> {
    "## "@ + title + "\n"@ + body + "\n\n"@
}

/// The prompt of a first draft, with the structure requirements `structure`.
pub open spec fn draft_prompt_text(
    spec: Spec,
    idea: Seq<char>,
    angle: Seq<char>,
    rubric: Seq<char>,
    structure: Seq<char>,
) -> Seq<char> {
    "# Task\nWrite a GEO-optimized draft document that meets the requirements below.\n\n"@
        + block("Document: "@ + spec.name@, spec.context@)
        + (if angle.len() > 0 {
        block("Differentiation angle for this draft"@, angle)
    } else {
        seq![]
    }) + block("Source material (topic/evidence)"@, idea) + block(
        "Body section structure"@,
        spec.sections_prompt_spec(),
    ) + block("Evaluation criteria (keep these in mind while writing)"@, rubric) + (
    if spec.total_words > 0 {
        block("Total length"@, "Approx. "@ + decimal(spec.total_words as nat) + " words"@)
    } else {
        seq![]
    }) + "## GEO structure requirements (all mandatory)\n"@ + structure + "\n"@
        + draft_output_rules()
}

/// The prompt of a revision, with the structure requirements `structure`.
pub open spec fn revise_prompt_text(
    spec: Spec,
    idea: Seq<char>,
    prev_doc: Seq<char>,
    feedback: Seq<char>,
    weak: Seq<char>,
    rubric: Seq<char>,
    structure: Seq<char>,
) -> Seq<char> {
    "# Task\nRevise the GEO document draft below according to the review feedback and output the entire document again.\n\n"@
        + block("Document: "@ + spec.name@, spec.context@) + block(
        "Source material (topic/evidence)"@,
        idea,
    ) + block("Current draft"@, prev_doc) + block("Review feedback (must be addressed)"@, feedback)
        + (if weak.len() > 0 {
        block("Items with especially low scores"@, weak)
    } else {
        seq![]
    }) + block("Evaluation criteria"@, rubric)
        + "## GEO structure requirements (all mandatory, keep as is)\n"@ + structure + "\n"@
        + revise_output_rules()
}

fn push_block(p: &mut Vec<char>, title: &str, body: &str)
    ensures
        final(p)@ == old(p)@ + block(title@, body@),
{
    extend_str(p, "## ");
    extend_str(p, title);
    extend_str(p, "\n");
    extend_str(p, body);
    extend_str(p, "\n\n");
    assert(final(p)@ =~= old(p)@ + block(title@, body@));
}

/// Prompt for the initial generation; `rubric` is the spec's evaluation-criteria block.
pub fn build_prompt(spec: &Spec, idea: &str, angle: &str, rubric: &str) -> (r: String)
    ensures
        exists|s: Seq<char>|
            #[trigger] is_structure_requirements(*spec, s) && r@ == draft_prompt_text(
                *spec,
                idea@,
                angle@,
                rubric@,
                s,
            ),
{
    let mut p: Vec<char> = Vec::new();
    extend_str(&mut p, "# Task\nWrite a GEO-optimized draft document that meets the requirements below.\n\n");
    let mut title: Vec<char> = Vec::new();
    extend_str(&mut title, "Document: ");
    extend_str(&mut title, spec.name.as_str());
    let title = string_of(&title);
    push_block(&mut p, title.as_str(), spec.context.as_str());
    if !angle.is_empty() {
        push_block(&mut p, "Differentiation angle for this draft", angle);
    }
    push_block(&mut p, "Source material (topic/evidence)", idea);
    let sections = spec.sections_prompt();
    push_block(&mut p, "Body section structure", sections.as_str());
    push_block(&mut p, "Evaluation criteria (keep these in mind while writing)", rubric);
    if spec.total_words > 0 {
        let mut body: Vec<char> = Vec::new();
        extend_str(&mut body, "Approx. ");
        let d = decimal_v(spec.total_words);
        extend_chars(&mut body, &d);
        extend_str(&mut body, " words");
        let body = string_of(&body);
        push_block(&mut p, "Total length", body.as_str());
    }
    extend_str(&mut p, "## GEO structure requirements (all mandatory)\n");
    let s = structure_requirements(spec);
    extend_str(&mut p, s.as_str());
    extend_str(&mut p, "\n");
    extend_str(&mut p, "## Output rules\n- Output in markdown. Output only the document body — no introduction, explanation, or meta-commentary.\n- If a fact is uncertain, don't make it up; mark it as an 'estimate' or use a verifiable expression.\n- Use markdown tables wherever a table is effective (comparisons, specs, steps).\n");
    assert(p@ =~= draft_prompt_text(*spec, idea@, angle@, rubric@, s@));
    string_of(&p)
}

/// Prompt for regenerating a document from grading feedback; `rubric` is the spec's
/// evaluation-criteria block.
pub fn build_revise_prompt(
    spec: &Spec,
    idea: &str,
    prev_doc: &str,
    feedback: &str,
    weak: &str,
    rubric: &str,
) -> (r: String)
    ensures
        exists|s: Seq<char>|
            #[trigger] is_structure_requirements(*spec, s) && r@ == revise_prompt_text(
                *spec,
                idea@,
                prev_doc@,
                feedback@,
                weak@,
                rubric@,
                s,
            ),
{
    let mut p: Vec<char> = Vec::new();
    extend_str(&mut p, "# Task\nRevise the GEO document draft below according to the review feedback and output the entire document again.\n\n");
    let mut title: Vec<char> = Vec::new();
    extend_str(&mut title, "Document: ");
    extend_str(&mut title, spec.name.as_str());
    let title = string_of(&title);
    push_block(&mut p, title.as_str(), spec.context.as_str());
    push_block(&mut p, "Source material (topic/evidence)", idea);
    push_block(&mut p, "Current draft", prev_doc);
    push_block(&mut p, "Review feedback (must be addressed)", feedback);
    if !weak.is_empty() {
        push_block(&mut p, "Items with especially low scores", weak);
    }
    push_block(&mut p, "Evaluation criteria", rubric);
    extend_str(&mut p, "## GEO structure requirements (all mandatory, keep as is)\n");
    let s = structure_requirements(spec);
    extend_str(&mut p, s.as_str());
    extend_str(&mut p, "\n");
    extend_str(&mut p, "## Output rules\n- Output the entire improved document in markdown. No change summary or meta-commentary.\n- Keep the parts that are already well-written, and substantively strengthen only the parts that were flagged.\n- Don't fabricate new figures without evidence. If you can't support a claim, remove it or tone down the wording.\n- Don't respond by simply making the document longer. Keep the total length within ±15% of the current draft, and improve it by replacing weak sentences.\n");
    assert(p@ =~= revise_prompt_text(*spec, idea@, prev_doc@, feedback@, weak@, rubric@, s@));
    string_of(&p)
}

} // verus!
