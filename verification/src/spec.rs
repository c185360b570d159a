//! The document spec: sections, rubric criteria and the structural requirements the
//! deterministic checks enforce, with their documented defaults, the validation a loaded
//! spec must pass, and the prompt fragments built from it.
use vstd::prelude::*;
use crate::text::{decimal, decimal_v, extend_chars, extend_str, join, string_of, string_views};

verus! {

/// A body section: checked for presence (when required) and length via heading matching.
#[derive(Clone, Debug)]
pub struct Section {
    pub id: String,
    pub title: String,
    pub guide: String,
    /// Recommended word count; 0 means no length check.
    pub words: usize,
    pub required: bool,
}

/// A rubric criterion. Its weight (a floating-point number) is kept by the application
/// layer, which does the weighted arithmetic.
#[derive(Clone, Debug)]
pub struct Criterion {
    pub id: String,
    pub name: String,
    pub guide: String,
}

/// Requirements for the direct answer in the first paragraph.
#[derive(Clone, Debug)]
pub struct AnswerSummarySpec {
    /// Maximum word count of the first paragraph.
    pub max_words: usize,
    pub required: bool,
}

/// Statistics/figures requirements.
#[derive(Clone, Debug)]
pub struct StatisticsSpec {
    /// Minimum number of statistic/figure tokens in the document.
    pub min_count: usize,
    /// Whether a source (markdown link) must accompany the statistics.
    pub require_sourced: bool,
}

/// FAQ requirements.
#[derive(Clone, Debug)]
pub struct FaqSpec {
    /// Minimum number of question-answer pairs.
    pub min_qa: usize,
    pub require_faqpage: bool,
}

/// JSON-LD structured data requirements.
#[derive(Clone, Debug)]
pub struct StructuredDataSpec {
    /// The `@type` values the JSON-LD must include.
    pub required_types: Vec<String>,
}

/// Whether an llms.txt snippet is generated and checked alongside the document.
#[derive(Clone, Debug)]
pub struct LlmsTxtSpec {
    pub enabled: bool,
}

/// A document spec.
#[derive(Clone, Debug)]
pub struct Spec {
    pub name: String,
    pub context: String,
    pub scoring_source: String,
    /// Overall length guide in words; 0 means unspecified.
    pub total_words: usize,
    pub angles: Vec<String>,
    pub bands: Vec<String>,
    pub sections: Vec<Section>,
    pub criteria: Vec<Criterion>,
    pub answer_summary: AnswerSummarySpec,
    pub statistics: StatisticsSpec,
    pub faq: FaqSpec,
    pub structured_data: StructuredDataSpec,
    pub llms_txt: LlmsTxtSpec,
}

pub fn default_max_words() -> (r: usize)
    ensures
        r == 60,
{
    60
}

pub fn default_min_stat() -> (r: usize)
    ensures
        r == 2,
{
    2
}

pub fn default_min_qa() -> (r: usize)
    ensures
        r == 3,
{
    3
}

pub fn default_true() -> (r: bool)
    ensures
        r,
{
    true
}

pub open spec fn default_types() -> Seq<Seq<char>> {
    seq!["Article"@, "FAQPage"@]
}

pub fn default_required_types() -> (r: Vec<String>)
    ensures
        string_views(r@) == default_types(),
{
    let mut r: Vec<String> = Vec::new();
    r.push(String::from_str("Article"));
    r.push(String::from_str("FAQPage"));
    assert(string_views(r@) =~= default_types());
    r
}

impl Default for AnswerSummarySpec {
    fn default() -> (r: Self)
        ensures
            r.max_words == 60,
            r.required,
    {
        AnswerSummarySpec { max_words: default_max_words(), required: default_true() }
    }
}

impl Default for StatisticsSpec {
    fn default() -> (r: Self)
        ensures
            r.min_count == 2,
            r.require_sourced,
    {
        StatisticsSpec { min_count: default_min_stat(), require_sourced: default_true() }
    }
}

impl Default for FaqSpec {
    fn default() -> (r: Self)
        ensures
            r.min_qa == 3,
            r.require_faqpage,
    {
        FaqSpec { min_qa: default_min_qa(), require_faqpage: default_true() }
    }
}

impl Default for StructuredDataSpec {
    fn default() -> (r: Self)
        ensures
            string_views(r.required_types@) == default_types(),
    {
        StructuredDataSpec { required_types: default_required_types() }
    }
}

impl Default for LlmsTxtSpec {
    fn default() -> (r: Self)
        ensures
            !r.enabled,
    {
        LlmsTxtSpec { enabled: false }
    }
}

// ---------------------------------------------------------------------------
// Validation
// ---------------------------------------------------------------------------

/// Why a loaded spec is rejected.
#[derive(PartialEq, Eq, Structural, Clone, Copy, Debug)]
pub enum SpecError {
    EmptyCriteria,
    NonPositiveWeight,
    DuplicateCriterionId,
    EmptyRequiredTypes,
}

impl SpecError {
    pub open spec fn message_spec(&self) -> Seq<char> {
        match self {
            SpecError::EmptyCriteria => "criteria is empty"@,
            SpecError::NonPositiveWeight => "criteria weight must all be greater than 0"@,
            SpecError::DuplicateCriterionId => "duplicate criteria id"@,
            SpecError::EmptyRequiredTypes => "structured_data.required_types is empty"@,
        }
    }

    /// The error's message.
    pub fn message(&self) -> (r: String)
        ensures
            r@ == self.message_spec(),
    {
        match self {
            SpecError::EmptyCriteria => String::from_str("criteria is empty"),
            SpecError::NonPositiveWeight => String::from_str(
                "criteria weight must all be greater than 0",
            ),
            SpecError::DuplicateCriterionId => String::from_str("duplicate criteria id"),
            SpecError::EmptyRequiredTypes => String::from_str(
                "structured_data.required_types is empty",
            ),
        }
    }
}

/// Two criteria share an id.
pub open spec fn has_duplicate_id(cs: Seq<Criterion>) -> bool {
    exists|i: int, j: int| 0 <= i < j < cs.len() && cs[i].id@ == cs[j].id@
}

/// The outcome of validating a spec, given whether every criterion weight is positive.
pub open spec fn validation(spec: Spec, weights_positive: bool) -> Result<(), SpecError> {
    if spec.criteria@.len() == 0 {
        Err(SpecError::EmptyCriteria)
    } else if !weights_positive {
        Err(SpecError::NonPositiveWeight)
    } else if has_duplicate_id(spec.criteria@) {
        Err(SpecError::DuplicateCriterionId)
    } else if spec.structured_data.required_types@.len() == 0 {
        Err(SpecError::EmptyRequiredTypes)
    } else {
        Ok(())
    }
}

fn str_eq(a: &String, b: &String) -> (r: bool)
    ensures
        r == (a@ == b@),
{
    a.eq(b)
}

/// Checks a loaded spec in order: criteria present, every weight positive (decided by the
/// caller, which holds the weights), criterion ids unique, required JSON-LD types present.
pub fn validate(spec: &Spec, weights_positive: bool) -> (r: Result<(), SpecError>)
    ensures
        r == validation(*spec, weights_positive),
{
    if spec.criteria.len() == 0 {
        return Err(SpecError::EmptyCriteria);
    }
    if !weights_positive {
        return Err(SpecError::NonPositiveWeight);
    }
    let cs = &spec.criteria;
    let mut i: usize = 0;
    while i < cs.len()
        invariant
            i <= cs@.len(),
            cs@ == spec.criteria@,
            weights_positive,
            cs@.len() > 0,
            forall|a: int, b: int| 0 <= a < b < cs@.len() && a < i ==> cs@[a].id@ != cs@[b].id@,
        decreases cs.len() - i,
    {
        let mut j: usize = i + 1;
        while j < cs.len()
            invariant
                i < cs@.len(),
                cs@ == spec.criteria@,
                weights_positive,
                i + 1 <= j <= cs@.len(),
                forall|a: int, b: int|
                    0 <= a < b < cs@.len() && a < i ==> cs@[a].id@ != cs@[b].id@,
                forall|b: int| i < b < j ==> cs@[i as int].id@ != cs@[b].id@,
            decreases cs.len() - j,
        {
            if str_eq(&cs[i].id, &cs[j].id) {
                return Err(SpecError::DuplicateCriterionId);
            }
            j = j + 1;
        }
        i = i + 1;
    }
    if spec.structured_data.required_types.len() == 0 {
        return Err(SpecError::EmptyRequiredTypes);
    }
    Ok(())
}

// ---------------------------------------------------------------------------
// Prompt fragments
// ---------------------------------------------------------------------------

pub open spec fn default_bands_spec() -> Seq<Seq<char>> {
    seq![
        "90~100: A level generative answer engines can cite and excerpt verbatim. Every claim is backed by a verifiable source, and the structure is designed with excerpting in mind."@,
        "75~89: Citable level. The core answer is clear, but some evidence is unverified or the structure is somewhat scattered."@,
        "60~74: Meets the minimum requirements. Information is present, but sentences are too long to excerpt or sources are lacking."@,
        "40~59: Difficult to cite. Mostly abstract statements, lacking statistics/sources, no structure."@,
        "0~39: Fails to meet requirements. No direct answer, or the core entity is unclear."@,
    ]
}

/// The default score band descriptors (0-100).
pub fn default_bands() -> (r: Vec<String>)
    ensures
        string_views(r@) == default_bands_spec(),
{
    let mut r: Vec<String> = Vec::new();
    r.push(String::from_str("90~100: A level generative answer engines can cite and excerpt verbatim. Every claim is backed by a verifiable source, and the structure is designed with excerpting in mind."));
    r.push(String::from_str("75~89: Citable level. The core answer is clear, but some evidence is unverified or the structure is somewhat scattered."));
    r.push(String::from_str("60~74: Meets the minimum requirements. Information is present, but sentences are too long to excerpt or sources are lacking."));
    r.push(String::from_str("40~59: Difficult to cite. Mostly abstract statements, lacking statistics/sources, no structure."));
    r.push(String::from_str("0~39: Fails to meet requirements. No direct answer, or the core entity is unclear."));
    assert(string_views(r@) =~= default_bands_spec());
    r
}

/// Joins strings with a separator, as `[String]::join` does.
pub fn join_strings(parts: &Vec<String>, sep: &str) -> (r: String)
    ensures
        r@ == join(string_views(parts@), sep@),
{
    let mut out: Vec<char> = Vec::new();
    let mut i: usize = 0;
    while i < parts.len()
        invariant
            i <= parts@.len(),
            out@ == join(string_views(parts@).take(i as int), sep@),
        decreases parts.len() - i,
    {
        let ghost prev = string_views(parts@).take(i as int);
        if i > 0 {
            extend_str(&mut out, sep);
        }
        extend_str(&mut out, parts[i].as_str());
        assert(string_views(parts@).take(i + 1).drop_last() =~= prev);
        if i == 0 {
            assert(out@ =~= join(string_views(parts@).take(i + 1), sep@));
        }
        i = i + 1;
    }
    assert(string_views(parts@).take(i as int) =~= string_views(parts@));
    string_of(&out)
}

impl Spec {
    /// The score band descriptors joined by line feeds (the defaults when none are set).
    pub open spec fn bands_prompt_spec(&self) -> Seq<char> {
        if self.bands@.len() == 0 {
            join(default_bands_spec(), "\n"@)
        } else {
            join(string_views(self.bands@), "\n"@)
        }
    }

    pub fn bands_prompt(&self) -> (r: String)
        ensures
            r@ == self.bands_prompt_spec(),
    {
        if self.bands.len() == 0 {
            let d = default_bands();
            join_strings(&d, "\n")
        } else {
            join_strings(&self.bands, "\n")
        }
    }

    /// The prompt block of one section.
    pub open spec fn section_block(s: Section) -> Seq<char> {
        "## "@ + s.title@ + "\n- Writing guide: "@ + s.guide@ + (if s.words > 0 {
            "\n- Recommended length: about "@ + decimal(s.words as nat) + " words"@
        } else {
            seq![]
        }) + (if s.required {
            "\n- Required section"@
        } else {
            seq![]
        })
    }

    pub open spec fn section_blocks(ss: Seq<Section>) -> Seq<Seq<char>>
        decreases ss.len(),
    {
        if ss.len() == 0 {
            seq![]
        } else {
            Self::section_blocks(ss.drop_last()).push(Self::section_block(ss.last()))
        }
    }

    /// Each section's title, writing guide, recommended length and required flag, blocks
    /// separated by a blank line.
    pub open spec fn sections_prompt_spec(&self) -> Seq<char> {
        if self.sections@.len() == 0 {
            "(No specific sections defined — structure freely to fit the topic)"@
        } else {
            join(Self::section_blocks(self.sections@), "\n\n"@)
        }
    }

    pub fn sections_prompt(&self) -> (r: String)
        ensures
            r@ == self.sections_prompt_spec(),
    {
        if self.sections.len() == 0 {
            return String::from_str(
                "(No specific sections defined — structure freely to fit the topic)",
            );
        }
        let mut blocks: Vec<String> = Vec::new();
        let mut i: usize = 0;
        while i < self.sections.len()
            invariant
                i <= self.sections@.len(),
                string_views(blocks@) == Self::section_blocks(self.sections@.take(i as int)),
            decreases self.sections.len() - i,
        {
            let s = &self.sections[i];
            let mut line: Vec<char> = Vec::new();
            extend_str(&mut line, "## ");
            extend_str(&mut line, s.title.as_str());
            extend_str(&mut line, "\n- Writing guide: ");
            extend_str(&mut line, s.guide.as_str());
            if s.words > 0 {
                extend_str(&mut line, "\n- Recommended length: about ");
                let d = decimal_v(s.words);
                extend_chars(&mut line, &d);
                extend_str(&mut line, " words");
            }
            if s.required {
                extend_str(&mut line, "\n- Required section");
            }
            assert(line@ =~= Self::section_block(*s));
            let ghost old_blocks = string_views(blocks@);
            let ls = string_of(&line);
            blocks.push(ls);
            assert(string_views(blocks@) =~= old_blocks.push(ls@));
            assert(self.sections@.take(i + 1).drop_last() =~= self.sections@.take(i as int));
            i = i + 1;
        }
        assert(self.sections@.take(i as int) =~= self.sections@);
        join_strings(&blocks, "\n\n")
    }
}

} // verus!
