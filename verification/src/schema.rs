//! schema.org JSON-LD builders for the generation prompt's example: an `FAQPage` from
//! question/answer pairs, an `Article` from headline and description, and both combined in
//! an `@graph`. Object members are built in ascending key order, as `serde_json` keeps them.
use vstd::prelude::*;
use crate::json::{
    Json, entry_types, item_types, own_types, string_items, types_of, entries_get, json_get,
    entry_issues, faq_entries_issues, faq_entry_issues, faq_main_entity_msg, faqpage_issues,
    has_answer_text, has_question_name, item_issues, node_issues, own_schema_issues,
    schema_issues,
};
use crate::text::trim;

verus! {

pub struct ArticleMeta<'a> {
    pub headline: &'a str,
    pub description: &'a str,
}

#[derive(Clone, Debug)]
pub struct QaPair {
    pub question: String,
    pub answer: String,
}

/// `j` is the string `s`.
pub open spec fn is_str(j: Json, s: Seq<char>) -> bool {
    j matches Json::Str(x) && x@ == s
}

/// `j` is an object whose keys are exactly `keys`, in order.
pub open spec fn has_keys(j: Json, keys: Seq<Seq<char>>) -> bool {
    j matches Json::Object(es) && es@.len() == keys.len() && forall|i: int|
        0 <= i < keys.len() ==> (#[trigger] es@[i]).0@ == keys[i]
}

/// The `i`-th member value of an object (arbitrary for other values).
pub open spec fn member(j: Json, i: int) -> Json {
    match j {
        Json::Object(es) => es@[i].1,
        _ => Json::Null,
    }
}

/// `{"@type": "Answer", "text": answer}`.
pub open spec fn is_answer_node(j: Json, answer: Seq<char>) -> bool {
    has_keys(j, seq!["@type"@, "text"@]) && is_str(member(j, 0), "Answer"@) && is_str(
        member(j, 1),
        answer,
    )
}

/// A question/answer pair by its text: (question, answer).
pub open spec fn qa_view(q: QaPair) -> (Seq<char>, Seq<char>) {
    (q.question@, q.answer@)
}

pub open spec fn qa_views(items: Seq<QaPair>) -> Seq<(Seq<char>, Seq<char>)> {
    items.map_values(|q: QaPair| qa_view(q))
}

/// `{"@type": "Question", "acceptedAnswer": {...}, "name": question}`.
pub open spec fn is_question_node(j: Json, q: (Seq<char>, Seq<char>)) -> bool {
    has_keys(j, seq!["@type"@, "acceptedAnswer"@, "name"@]) && is_str(member(j, 0), "Question"@)
        && is_answer_node(member(j, 1), q.1) && is_str(member(j, 2), q.0)
}

/// `{"@type": "FAQPage", "mainEntity": [question nodes, one per pair, in order]}`.
pub open spec fn is_faq_jsonld(j: Json, items: Seq<(Seq<char>, Seq<char>)>) -> bool {
    has_keys(j, seq!["@type"@, "mainEntity"@]) && is_str(member(j, 0), "FAQPage"@) && (member(
        j,
        1,
    ) matches Json::Array(a) && a@.len() == items.len() && forall|i: int|
        0 <= i < items.len() ==> is_question_node(#[trigger] a@[i], items[i]))
}

/// `{"@type": "Article", "description": ..., "headline": ...}`.
pub open spec fn is_article_jsonld(j: Json, headline: Seq<char>, description: Seq<char>) -> bool {
    has_keys(j, seq!["@type"@, "description"@, "headline"@]) && is_str(member(j, 0), "Article"@)
        && is_str(member(j, 1), description) && is_str(member(j, 2), headline)
}

/// `{"@context": "https://schema.org", "@graph": [article, faq page]}`.
pub open spec fn is_example_graph(
    j: Json,
    headline: Seq<char>,
    description: Seq<char>,
    items: Seq<(Seq<char>, Seq<char>)>,
) -> bool {
    has_keys(j, seq!["@context"@, "@graph"@]) && is_str(member(j, 0), "https://schema.org"@) && (
    member(j, 1) matches Json::Array(g) && g@.len() == 2 && is_article_jsonld(
        g@[0],
        headline,
        description,
    ) && is_faq_jsonld(g@[1], items))
}

pub(crate) fn str_json(s: &str) -> (r: Json)
    ensures
        is_str(r, s@),
{
    Json::Str(String::from_str(s))
}

pub(crate) fn entry(k: &str, v: Json) -> (r: (String, Json))
    ensures
        r.0@ == k@,
        r.1 == v,
{
    (String::from_str(k), v)
}

/// `FAQPage` JSON-LD: a `Question`/`acceptedAnswer` (`Answer`.text) node per pair.
pub fn faq_jsonld(items: &[QaPair]) -> (r: Json)
    ensures
        is_faq_jsonld(r, qa_views(items@)),
{
    let mut main_entity: Vec<Json> = Vec::new();
    let mut i: usize = 0;
    while i < items.len()
        invariant
            i <= items@.len(),
            main_entity@.len() == i,
            forall|k: int|
                0 <= k < i ==> is_question_node(#[trigger] main_entity@[k], qa_views(items@)[k]),
        decreases items.len() - i,
    {
        let qa = &items[i];
        let mut ans: Vec<(String, Json)> = Vec::new();
        ans.push(entry("@type", str_json("Answer")));
        ans.push(entry("text", Json::Str(qa.answer.clone())));
        let ans_j = Json::Object(ans);
        assert(is_answer_node(ans_j, qa.answer@));
        let mut q: Vec<(String, Json)> = Vec::new();
        q.push(entry("@type", str_json("Question")));
        q.push(entry("acceptedAnswer", ans_j));
        q.push(entry("name", Json::Str(qa.question.clone())));
        let q_j = Json::Object(q);
        assert(is_question_node(q_j, qa_views(items@)[i as int]));
        main_entity.push(q_j);
        i = i + 1;
    }
    let mut es: Vec<(String, Json)> = Vec::new();
    es.push(entry("@type", str_json("FAQPage")));
    es.push(entry("mainEntity", Json::Array(main_entity)));
    let r = Json::Object(es);
    assert(is_faq_jsonld(r, qa_views(items@)));
    r
}

/// `Article` JSON-LD core fields.
pub fn article_jsonld(meta: &ArticleMeta) -> (r: Json)
    ensures
        is_article_jsonld(r, meta.headline@, meta.description@),
{
    let mut es: Vec<(String, Json)> = Vec::new();
    es.push(entry("@type", str_json("Article")));
    es.push(entry("description", str_json(meta.description)));
    es.push(entry("headline", str_json(meta.headline)));
    let r = Json::Object(es);
    assert(is_article_jsonld(r, meta.headline@, meta.description@));
    r
}

/// Article + FAQPage combined in an `@graph` (the scaffold shown in the generation prompt).
pub fn example_graph(article: &ArticleMeta, qa_sample: &[QaPair]) -> (r: Json)
    ensures
        is_example_graph(r, article.headline@, article.description@, qa_views(qa_sample@)),
{
    let mut g: Vec<Json> = Vec::new();
    g.push(article_jsonld(article));
    g.push(faq_jsonld(qa_sample));
    let mut es: Vec<(String, Json)> = Vec::new();
    es.push(entry("@context", str_json("https://schema.org")));
    es.push(entry("@graph", Json::Array(g)));
    let r = Json::Object(es);
    assert(is_example_graph(r, article.headline@, article.description@, qa_views(qa_sample@)));
    r
}

// ---------------------------------------------------------------------------
// The @type values of the example
// ---------------------------------------------------------------------------

proof fn lemma_leaf_types(j: Json, d: int)
    requires
        !(j is Object),
        !(j is Array),
    ensures
        types_of(j, d) == Set::<Seq<char>>::empty(),
{
    assert(types_of(j, d) =~= Set::<Seq<char>>::empty());
}

/// An object whose first member is `"@type": t` has the own type `t`.
proof fn lemma_own_type_first(j: Json, t: Seq<char>)
    requires
        j matches Json::Object(es) && es@.len() > 0 && es@[0].0@ == "@type"@ && is_str(es@[0].1, t),
    ensures
        own_types(j) == set![t],
{
    assert(own_types(j) =~= set![t]);
}

/// The entry types of members that are all strings are empty.
proof fn lemma_string_entries(es: Seq<(String, Json)>, d: int)
    requires
        forall|i: int| 0 <= i < es.len() ==> (#[trigger] es[i]).1 is Str,
    ensures
        entry_types(es, d) == Set::<Seq<char>>::empty(),
    decreases es.len(),
{
    if es.len() > 0 {
        lemma_string_entries(es.drop_last(), d);
        lemma_leaf_types(es.last().1, d);
        assert(entry_types(es, d) =~= Set::<Seq<char>>::empty());
    }
}

/// `entry_types` of two members.
proof fn lemma_entry_types_2(es: Seq<(String, Json)>, d: int)
    requires
        es.len() == 2,
    ensures
        entry_types(es, d) == types_of(es[0].1, d).union(types_of(es[1].1, d)),
{
    let e1 = es.drop_last();
    let e0 = e1.drop_last();
    assert(e0.len() == 0);
    assert(entry_types(e0, d) == Set::<Seq<char>>::empty());
    assert(e1.last() == es[0]);
    assert(entry_types(e1, d) =~= types_of(es[0].1, d));
    assert(entry_types(es, d) =~= types_of(es[0].1, d).union(types_of(es[1].1, d)));
}

/// `entry_types` of three members.
proof fn lemma_entry_types_3(es: Seq<(String, Json)>, d: int)
    requires
        es.len() == 3,
    ensures
        entry_types(es, d) == types_of(es[0].1, d).union(types_of(es[1].1, d)).union(
            types_of(es[2].1, d),
        ),
{
    let e2 = es.drop_last();
    lemma_entry_types_2(e2, d);
    assert(e2[0] == es[0] && e2[1] == es[1]);
}

/// `item_types` of two items.
proof fn lemma_item_types_2(a: Seq<Json>, d: int)
    requires
        a.len() == 2,
    ensures
        item_types(a, d) == types_of(a[0], d).union(types_of(a[1], d)),
{
    let a1 = a.drop_last();
    let a0 = a1.drop_last();
    assert(a0.len() == 0);
    assert(item_types(a0, d) == Set::<Seq<char>>::empty());
    assert(a1.last() == a[0]);
    assert(item_types(a1, d) =~= types_of(a[0], d));
    assert(item_types(a, d) =~= types_of(a[0], d).union(types_of(a[1], d)));
}

proof fn lemma_answer_types(j: Json, a: Seq<char>, d: int)
    requires
        is_answer_node(j, a),
        0 <= d <= 60,
    ensures
        types_of(j, d) == set!["Answer"@],
{
    reveal_strlit("@type");
    reveal_strlit("text");
    let es = j->Object_0@;
    lemma_own_type_first(j, "Answer"@);
    lemma_string_entries(es, d + 1);
    assert(types_of(j, d) =~= set!["Answer"@]);
}

proof fn lemma_question_types(j: Json, q: (Seq<char>, Seq<char>), d: int)
    requires
        is_question_node(j, q),
        0 <= d <= 59,
    ensures
        types_of(j, d) == set!["Question"@, "Answer"@],
{
    reveal_strlit("@type");
    reveal_strlit("acceptedAnswer");
    reveal_strlit("name");
    let es = j->Object_0@;
    lemma_own_type_first(j, "Question"@);
    lemma_answer_types(es[1].1, q.1, d + 1);
    lemma_leaf_types(es[0].1, d + 1);
    lemma_leaf_types(es[2].1, d + 1);
    lemma_entry_types_3(es, d + 1);
    assert(types_of(j, d) =~= set!["Question"@, "Answer"@]);
}

proof fn lemma_questions_types(a: Seq<Json>, items: Seq<(Seq<char>, Seq<char>)>, d: int)
    requires
        a.len() == items.len(),
        forall|i: int| 0 <= i < items.len() ==> is_question_node(#[trigger] a[i], items[i]),
        0 <= d <= 59,
    ensures
        item_types(a, d) == if a.len() > 0 {
            set!["Question"@, "Answer"@]
        } else {
            Set::<Seq<char>>::empty()
        },
    decreases a.len(),
{
    if a.len() > 0 {
        let n = a.len() - 1;
        assert forall|i: int| 0 <= i < n implies is_question_node(#[trigger] a.drop_last()[i], items.drop_last()[i]) by {
            assert(a.drop_last()[i] == a[i]);
        }
        lemma_questions_types(a.drop_last(), items.drop_last(), d);
        lemma_question_types(a[n], items[n], d);
        assert(item_types(a, d) =~= set!["Question"@, "Answer"@]);
    } else {
        assert(item_types(a, d) =~= Set::<Seq<char>>::empty());
    }
}

/// The `@type` values an `FAQPage` node built from `items` carries: `FAQPage`, plus
/// `Question` and `Answer` when there is at least one pair.
pub open spec fn faq_types(items: Seq<(Seq<char>, Seq<char>)>) -> Set<Seq<char>> {
    if items.len() > 0 {
        set!["FAQPage"@, "Question"@, "Answer"@]
    } else {
        set!["FAQPage"@]
    }
}

proof fn lemma_faq_types(j: Json, items: Seq<(Seq<char>, Seq<char>)>, d: int)
    requires
        is_faq_jsonld(j, items),
        0 <= d <= 57,
    ensures
        types_of(j, d) == faq_types(items),
{
    reveal_strlit("@type");
    reveal_strlit("mainEntity");
    let es = j->Object_0@;
    lemma_own_type_first(j, "FAQPage"@);
    let me = es[1].1;
    let a = me->Array_0@;
    lemma_questions_types(a, items, d + 2);
    lemma_leaf_types(es[0].1, d + 1);
    assert(types_of(me, d + 1) == item_types(a, d + 2));
    lemma_entry_types_2(es, d + 1);
    assert(types_of(j, d) =~= faq_types(items));
}

proof fn lemma_article_types(j: Json, h: Seq<char>, desc: Seq<char>, d: int)
    requires
        is_article_jsonld(j, h, desc),
        0 <= d <= 60,
    ensures
        types_of(j, d) == set!["Article"@],
{
    reveal_strlit("@type");
    reveal_strlit("description");
    reveal_strlit("headline");
    let es = j->Object_0@;
    lemma_own_type_first(j, "Article"@);
    lemma_string_entries(es, d + 1);
    assert(types_of(j, d) =~= set!["Article"@]);
}

/// The example graph carries exactly the `@type` values `Article` and `FAQPage`, plus
/// `Question` and `Answer` when it has at least one question/answer pair — so it always
/// includes both types a default spec requires.
pub proof fn lemma_example_graph_types(
    j: Json,
    headline: Seq<char>,
    description: Seq<char>,
    items: Seq<(Seq<char>, Seq<char>)>,
)
    requires
        is_example_graph(j, headline, description, items),
    ensures
        types_of(j, 0) == set!["Article"@].union(faq_types(items)),
        types_of(j, 0).contains("Article"@),
        types_of(j, 0).contains("FAQPage"@),
{
    reveal_strlit("@type");
    reveal_strlit("@context");
    reveal_strlit("@graph");
    let es = j->Object_0@;
    let g = es[1].1;
    let ga = g->Array_0@;
    lemma_article_types(ga[0], headline, description, 2);
    lemma_faq_types(ga[1], items, 2);
    lemma_item_types_2(ga, 2);
    lemma_leaf_types(es[0].1, 1);
    lemma_entry_types_2(es, 1);
    assert(types_of(g, 1) == item_types(ga, 2));
    assert(entry_types(es, 1) =~= set!["Article"@].union(faq_types(items)));
    assert(entries_get(es, "@type"@) is None) by {
        let t1 = es.drop_first();
        let t2 = t1.drop_first();
        assert(t1[0] == es[1]);
        assert(t2.len() == 0);
        assert(entries_get(t2, "@type"@) is None);
        assert(es[1].0@[1] != "@type"@[1]);
        assert(entries_get(t1, "@type"@) is None);
        assert(es[0].0@[1] != "@type"@[1]);
    }
    assert(own_types(j) =~= Set::<Seq<char>>::empty());
    assert(types_of(j, 0) =~= set!["Article"@].union(faq_types(items)));
}

// ---------------------------------------------------------------------------
// The field issues of a built FAQ page
// ---------------------------------------------------------------------------

/// The first key of `es` equal to `key` is at `i`.
proof fn lemma_entries_get_at(es: Seq<(String, Json)>, key: Seq<char>, i: int)
    requires
        0 <= i < es.len(),
        es[i].0@ == key,
        forall|k: int| 0 <= k < i ==> (#[trigger] es[k]).0@ != key,
    ensures
        entries_get(es, key) == Some(es[i].1),
    decreases i,
{
    if i > 0 {
        let t = es.drop_first();
        assert forall|k: int| 0 <= k < i - 1 implies (#[trigger] t[k]).0@ != key by {
            assert(t[k] == es[k + 1]);
        }
        assert(es[0].0@ != key);
        lemma_entries_get_at(t, key, i - 1);
        assert(t[i - 1] == es[i]);
    }
}

proof fn lemma_leaf_issues(j: Json, d: int)
    requires
        !(j is Object),
        !(j is Array),
    ensures
        node_issues(j, d) == Seq::<Seq<char>>::empty(),
{
    assert(node_issues(j, d) =~= Seq::<Seq<char>>::empty());
}

proof fn lemma_entry_issues_2(es: Seq<(String, Json)>, d: int)
    requires
        es.len() == 2,
    ensures
        entry_issues(es, d) == node_issues(es[0].1, d) + node_issues(es[1].1, d),
{
    let e1 = es.drop_last();
    let e0 = e1.drop_last();
    assert(e0.len() == 0);
    assert(entry_issues(e0, d) == Seq::<Seq<char>>::empty());
    assert(e1.last() == es[0]);
    assert(entry_issues(e1, d) =~= node_issues(es[0].1, d));
}

proof fn lemma_entry_issues_3(es: Seq<(String, Json)>, d: int)
    requires
        es.len() == 3,
    ensures
        entry_issues(es, d) == node_issues(es[0].1, d) + node_issues(es[1].1, d) + node_issues(
            es[2].1,
            d,
        ),
{
    let e2 = es.drop_last();
    lemma_entry_issues_2(e2, d);
    assert(e2[0] == es[0] && e2[1] == es[1]);
}

/// An object whose `@type` is `t`, a type without checked fields, has no own issues.
proof fn lemma_unchecked_type(j: Json, t: Seq<char>)
    requires
        j matches Json::Object(es) && es@.len() > 0 && es@[0].0@ == "@type"@ && is_str(es@[0].1, t),
        t.len() != 7 && t.len() != 11 && t.len() != 5,
    ensures
        own_schema_issues(j) == Seq::<Seq<char>>::empty(),
{
    reveal_strlit("FAQPage");
    reveal_strlit("Article");
    reveal_strlit("BlogPosting");
    reveal_strlit("NewsArticle");
    reveal_strlit("Product");
    reveal_strlit("HowTo");
    let es = j->Object_0@;
    lemma_entries_get_at(es, "@type"@, 0);
}

proof fn lemma_answer_issues(j: Json, a: Seq<char>, d: int)
    requires
        is_answer_node(j, a),
        0 <= d <= 60,
    ensures
        node_issues(j, d) == Seq::<Seq<char>>::empty(),
{
    reveal_strlit("Answer");
    let es = j->Object_0@;
    lemma_unchecked_type(j, "Answer"@);
    lemma_leaf_issues(es[0].1, d + 1);
    lemma_leaf_issues(es[1].1, d + 1);
    lemma_entry_issues_2(es, d + 1);
    assert(node_issues(j, d) =~= Seq::<Seq<char>>::empty());
}

proof fn lemma_question_issues(j: Json, q: (Seq<char>, Seq<char>), d: int)
    requires
        is_question_node(j, q),
        0 <= d <= 59,
    ensures
        node_issues(j, d) == Seq::<Seq<char>>::empty(),
{
    reveal_strlit("Question");
    let es = j->Object_0@;
    lemma_unchecked_type(j, "Question"@);
    lemma_leaf_issues(es[0].1, d + 1);
    lemma_answer_issues(es[1].1, q.1, d + 1);
    lemma_leaf_issues(es[2].1, d + 1);
    lemma_entry_issues_3(es, d + 1);
    assert(node_issues(j, d) =~= Seq::<Seq<char>>::empty());
}

proof fn lemma_questions_issues(a: Seq<Json>, items: Seq<(Seq<char>, Seq<char>)>, d: int)
    requires
        a.len() == items.len(),
        forall|i: int| 0 <= i < items.len() ==> is_question_node(#[trigger] a[i], items[i]),
        0 <= d <= 59,
    ensures
        item_issues(a, d) == Seq::<Seq<char>>::empty(),
    decreases a.len(),
{
    if a.len() > 0 {
        let n = a.len() - 1;
        assert forall|i: int| 0 <= i < n implies is_question_node(
            #[trigger] a.drop_last()[i],
            items.drop_last()[i],
        ) by {
            assert(a.drop_last()[i] == a[i]);
        }
        lemma_questions_issues(a.drop_last(), items.drop_last(), d);
        lemma_question_issues(a[n], items[n], d);
        assert(item_issues(a, d) =~= Seq::<Seq<char>>::empty());
    } else {
        assert(item_issues(a, d) =~= Seq::<Seq<char>>::empty());
    }
}

/// Every question and answer text is non-blank.
pub open spec fn nonblank_pairs(items: Seq<(Seq<char>, Seq<char>)>) -> bool {
    forall|i: int|
        0 <= i < items.len() ==> trim((#[trigger] items[i]).0).len() > 0 && trim(items[i].1).len() > 0
}

proof fn lemma_entry_no_issues(k: nat, q: Json, item: (Seq<char>, Seq<char>))
    requires
        is_question_node(q, item),
        trim(item.0).len() > 0,
        trim(item.1).len() > 0,
    ensures
        faq_entry_issues(k, q) == Seq::<Seq<char>>::empty(),
{
    reveal_strlit("@type");
    reveal_strlit("name");
    reveal_strlit("acceptedAnswer");
    reveal_strlit("text");
    let es = q->Object_0@;
    assert(es[0].0@.len() == 5 && es[1].0@.len() == 14 && es[2].0@ == "name"@);
    assert forall|k: int| 0 <= k < 2 implies (#[trigger] es[k]).0@ != "name"@ by {
        assert(es[k].0@.len() != "name"@.len());
    }
    lemma_entries_get_at(es, "name"@, 2);
    assert forall|k: int| 0 <= k < 1 implies (#[trigger] es[k]).0@ != "acceptedAnswer"@ by {
        assert(es[k].0@.len() != "acceptedAnswer"@.len());
    }
    lemma_entries_get_at(es, "acceptedAnswer"@, 1);
    let ans = es[1].1;
    let aes = ans->Object_0@;
    assert(aes[0].0@.len() == 5 && aes[1].0@ == "text"@);
    assert forall|k: int| 0 <= k < 1 implies (#[trigger] aes[k]).0@ != "text"@ by {
        assert(aes[k].0@.len() != "text"@.len());
    }
    lemma_entries_get_at(aes, "text"@, 1);
    assert(has_question_name(q));
    assert(has_answer_text(q));
    assert(faq_entry_issues(k, q) =~= Seq::<Seq<char>>::empty());
}

proof fn lemma_entries_no_issues(a: Seq<Json>, items: Seq<(Seq<char>, Seq<char>)>)
    requires
        a.len() == items.len(),
        forall|i: int| 0 <= i < items.len() ==> is_question_node(#[trigger] a[i], items[i]),
        nonblank_pairs(items),
    ensures
        faq_entries_issues(a) == Seq::<Seq<char>>::empty(),
    decreases a.len(),
{
    if a.len() > 0 {
        let n = a.len() - 1;
        assert forall|i: int| 0 <= i < n implies is_question_node(
            #[trigger] a.drop_last()[i],
            items.drop_last()[i],
        ) by {
            assert(a.drop_last()[i] == a[i]);
        }
        assert(nonblank_pairs(items.drop_last())) by {
            assert forall|i: int| 0 <= i < n implies trim((#[trigger] items.drop_last()[i]).0).len()
                > 0 && trim(items.drop_last()[i].1).len() > 0 by {
                assert(items.drop_last()[i] == items[i]);
            }
        }
        lemma_entries_no_issues(a.drop_last(), items.drop_last());
        assert(trim(items[n].0).len() > 0 && trim(items[n].1).len() > 0);
        lemma_entry_no_issues(n as nat, a[n], items[n]);
        assert(faq_entries_issues(a) =~= Seq::<Seq<char>>::empty());
    }
}

/// An `FAQPage` value built from question/answer pairs whose texts are all non-blank passes
/// Google's field checks exactly when it has at least one pair; without pairs its only
/// issue is the missing `mainEntity`.
pub proof fn lemma_faq_jsonld_issues(j: Json, items: Seq<(Seq<char>, Seq<char>)>)
    requires
        is_faq_jsonld(j, items),
        nonblank_pairs(items),
    ensures
        schema_issues(j) == (if items.len() > 0 {
            Seq::<Seq<char>>::empty()
        } else {
            seq![faq_main_entity_msg()]
        }),
{
    reveal_strlit("@type");
    reveal_strlit("mainEntity");
    reveal_strlit("FAQPage");
    let es = j->Object_0@;
    let me = es[1].1;
    let a = me->Array_0@;
    lemma_entries_get_at(es, "@type"@, 0);
    assert(es[0].0@[1] != "mainEntity"@[1]);
    lemma_entries_get_at(es, "mainEntity"@, 1);
    if items.len() > 0 {
        lemma_entries_no_issues(a, items);
    }
    assert(own_schema_issues(j) == faqpage_issues(j));
    lemma_leaf_issues(es[0].1, 1);
    lemma_questions_issues(a, items, 2);
    assert(node_issues(me, 1) == item_issues(a, 2));
    lemma_entry_issues_2(es, 1);
    assert(schema_issues(j) =~= (if items.len() > 0 {
        Seq::<Seq<char>>::empty()
    } else {
        seq![faq_main_entity_msg()]
    }));
}

} // verus!
