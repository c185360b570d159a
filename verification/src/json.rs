//! A plain JSON value as the checks read it, parsed by `serde_json`, and the traversals of
//! JSON-LD: collecting `@type` values and checking Google's required/recommended fields.
use vstd::prelude::*;
use crate::text::{chars_of, decimal, decimal_v, extend_chars, extend_str, string_views, trim, trim_v};
use crate::checks::{push_issue, push_issue_str};
use crate::checks::seq_eq_v;

verus! {

/// The traversal depth beyond which JSON-LD nodes are not visited.
pub const MAX_JSON_DEPTH: usize = 64;

/// A JSON value. Objects keep their entries in `serde_json`'s map order (ascending by
/// key, each key once); numbers keep their decimal text.
#[derive(Debug)]
pub enum Json {
    Null,
    Bool(bool),
    Number(String),
    Str(String),
    Array(Vec<Json>),
    Object(Vec<(String, Json)>),
}

/// The value of the first entry whose key is `key`.
pub open spec fn entries_get(es: Seq<(String, Json)>, key: Seq<char>) -> Option<Json>
    decreases es.len(),
{
    if es.len() == 0 {
        None
    } else if es[0].0@ == key {
        Some(es[0].1)
    } else {
        entries_get(es.drop_first(), key)
    }
}

/// `serde_json::Value::get` with a string index: the member of an object, `None` for
/// any other value.
pub open spec fn json_get(v: Json, key: Seq<char>) -> Option<Json> {
    match v {
        Json::Object(es) => entries_get(es@, key),
        _ => None,
    }
}

/// Items of a value at a depth: node measure.
pub open spec fn node_measure(depth: int) -> int {
    MAX_JSON_DEPTH + 1 - depth
}

/// The `@type` values of one object node: a string, or the strings of an array.
pub open spec fn own_types(v: Json) -> Set<Seq<char>> {
    match json_get(v, "@type"@) {
        Some(Json::Str(s)) => set![s@],
        Some(Json::Array(a)) => string_items(a@),
        _ => Set::empty(),
    }
}

/// The strings among array items.
pub open spec fn string_items(items: Seq<Json>) -> Set<Seq<char>>
    decreases items.len(),
{
    if items.len() == 0 {
        Set::empty()
    } else {
        string_items(items.drop_last()).union(
            match items.last() {
                Json::Str(s) => set![s@],
                _ => Set::empty(),
            },
        )
    }
}

/// All `@type` values of `v` and of its descendants, visiting nodes up to depth 64.
pub open spec fn types_of(v: Json, depth: int) -> Set<Seq<char>>
    decreases node_measure(depth), 0int,
{
    if depth > MAX_JSON_DEPTH {
        Set::empty()
    } else {
        match v {
            Json::Object(es) => own_types(v).union(entry_types(es@, depth + 1)),
            Json::Array(a) => item_types(a@, depth + 1),
            _ => Set::empty(),
        }
    }
}

/// `types_of` over the values of object entries, all at `depth`.
pub open spec fn entry_types(es: Seq<(String, Json)>, depth: int) -> Set<Seq<char>>
    decreases node_measure(depth), 1 + es.len(),
{
    if es.len() == 0 {
        Set::empty()
    } else {
        entry_types(es.drop_last(), depth).union(types_of(es.last().1, depth))
    }
}

/// `types_of` over array items, all at `depth`.
pub open spec fn item_types(items: Seq<Json>, depth: int) -> Set<Seq<char>>
    decreases node_measure(depth), 1 + items.len(),
{
    if items.len() == 0 {
        Set::empty()
    } else {
        item_types(items.drop_last(), depth).union(types_of(items.last(), depth))
    }
}

// ---------------------------------------------------------------------------
// String order (the order of `String`: lexicographic by code point)
// ---------------------------------------------------------------------------

/// `a < b` in the order of `String`.
pub open spec fn lex_lt(a: Seq<char>, b: Seq<char>) -> bool
    decreases a.len(),
{
    if a.len() == 0 {
        b.len() > 0
    } else if b.len() == 0 {
        false
    } else if a[0] < b[0] {
        true
    } else if a[0] == b[0] {
        lex_lt(a.drop_first(), b.drop_first())
    } else {
        false
    }
}

pub proof fn lemma_lex_irrefl(a: Seq<char>)
    ensures
        !lex_lt(a, a),
    decreases a.len(),
{
    if a.len() > 0 {
        lemma_lex_irrefl(a.drop_first());
    }
}

pub proof fn lemma_lex_trans(a: Seq<char>, b: Seq<char>, c: Seq<char>)
    requires
        lex_lt(a, b),
        lex_lt(b, c),
    ensures
        lex_lt(a, c),
    decreases a.len(),
{
    if a.len() > 0 && b.len() > 0 && c.len() > 0 && a[0] == b[0] && b[0] == c[0] {
        lemma_lex_trans(a.drop_first(), b.drop_first(), c.drop_first());
    }
}

pub proof fn lemma_lex_total(a: Seq<char>, b: Seq<char>)
    ensures
        a == b || lex_lt(a, b) || lex_lt(b, a),
    decreases a.len(),
{
    if a.len() > 0 && b.len() > 0 {
        if a[0] == b[0] {
            lemma_lex_total(a.drop_first(), b.drop_first());
            if a.drop_first() == b.drop_first() {
                assert(a =~= seq![a[0]] + a.drop_first());
                assert(b =~= seq![b[0]] + b.drop_first());
            }
        } else {
        }
    } else if a.len() == 0 && b.len() == 0 {
        assert(a =~= b);
    }
}

/// Strictly ascending in the order of `String` (so without duplicates).
pub open spec fn sorted_strict(s: Seq<Seq<char>>) -> bool {
    forall|i: int, j: int| 0 <= i < j < s.len() ==> lex_lt(#[trigger] s[i], #[trigger] s[j])
}

pub fn lex_lt_v(a: &[char], b: &[char]) -> (r: bool)
    ensures
        r == lex_lt(a@, b@),
{
    let mut i: usize = 0;
    assert(a@.skip(0) =~= a@ && b@.skip(0) =~= b@);
    while i < a.len() && i < b.len() && a[i] == b[i]
        invariant
            i <= a@.len(),
            i <= b@.len(),
            lex_lt(a@, b@) == lex_lt(a@.skip(i as int), b@.skip(i as int)),
        decreases a.len() - i,
    {
        assert(a@.skip(i as int).drop_first() =~= a@.skip(i + 1));
        assert(b@.skip(i as int).drop_first() =~= b@.skip(i + 1));
        i = i + 1;
    }
    let ghost sa = a@.skip(i as int);
    let ghost sb = b@.skip(i as int);
    if i == a.len() {
        assert(sa.len() == 0);
        i < b.len()
    } else if i == b.len() {
        false
    } else {
        assert(sa[0] == a@[i as int] && sb[0] == b@[i as int]);
        a[i] < b[i]
    }
}

/// Inserts `x` into a strictly ascending vector of strings unless it is already there.
pub fn insert_sorted(out: &mut Vec<String>, x: String)
    requires
        sorted_strict(string_views(old(out)@)),
    ensures
        sorted_strict(string_views(final(out)@)),
        string_views(final(out)@).to_set() == string_views(old(out)@).to_set().insert(x@),
{
    let ghost sv = string_views(out@);
    let xs = chars_of(x.as_str());
    let mut p: usize = 0;
    while p < out.len() && lex_lt_v(&chars_of(out[p].as_str()), &xs)
        invariant
            p <= out@.len(),
            sv == string_views(out@),
            xs@ == x@,
            forall|j: int| 0 <= j < p ==> lex_lt(#[trigger] sv[j], x@),
        decreases out.len() - p,
    {
        p = p + 1;
    }
    if p < out.len() && seq_eq_v(&chars_of(out[p].as_str()), &xs) {
        assert(sv[p as int] == x@);
        assert(sv.to_set() =~= sv.to_set().insert(x@));
        return;
    }
    proof {
        if p < sv.len() {
            lemma_lex_total(sv[p as int], x@);
        }
    }
    out.insert(p, x);
    let ghost nv = string_views(out@);
    assert(nv =~= sv.take(p as int).push(x@) + sv.skip(p as int));
    assert forall|i: int, j: int| 0 <= i < j < nv.len() implies lex_lt(
        #[trigger] nv[i],
        #[trigger] nv[j],
    ) by {
        if j < p {
            assert(nv[i] == sv[i] && nv[j] == sv[j]);
        } else if j == p {
            assert(nv[i] == sv[i]);
        } else if i > p {
            assert(nv[i] == sv[i - 1] && nv[j] == sv[j - 1]);
        } else if i == p {
            assert(nv[j] == sv[j - 1]);
            if j - 1 > p {
                lemma_lex_trans(x@, sv[p as int], sv[j - 1]);
            }
        } else {
            assert(nv[i] == sv[i] && nv[j] == sv[j - 1]);
            if j - 1 > p {
                lemma_lex_trans(x@, sv[p as int], sv[j - 1]);
            }
            lemma_lex_trans(sv[i], x@, sv[j - 1]);
        }
    }
    assert forall|y: Seq<char>| #[trigger] nv.to_set().contains(y) <==> sv.to_set().insert(
        x@,
    ).contains(y) by {
        if nv.to_set().contains(y) {
            let k = choose|k: int| 0 <= k < nv.len() && nv[k] == y;
            if k < p {
                assert(sv[k] == y);
            } else if k > p {
                assert(sv[k - 1] == y);
            }
        }
        if sv.to_set().contains(y) {
            let k = choose|k: int| 0 <= k < sv.len() && sv[k] == y;
            if k < p {
                assert(nv[k] == y);
            } else {
                assert(nv[k + 1] == y);
            }
        }
        if y == x@ {
            assert(nv[p as int] == y);
        }
    }
    assert(nv.to_set() =~= sv.to_set().insert(x@));
}

// ---------------------------------------------------------------------------
// Member lookup and @type collection
// ---------------------------------------------------------------------------

pub open spec fn opt_json(r: Option<&Json>) -> Option<Json> {
    match r {
        Some(x) => Some(*x),
        None => None,
    }
}

/// `serde_json::Value::get` with a string key.
pub fn json_get_v<'a>(v: &'a Json, key: &[char]) -> (r: Option<&'a Json>)
    ensures
        opt_json(r) == json_get(*v, key@),
{
    match v {
        Json::Object(es) => {
            let mut i: usize = 0;
            assert(es@.skip(0) =~= es@);
            while i < es.len()
                invariant
                    i <= es@.len(),
                    json_get(*v, key@) == entries_get(es@, key@),
                    entries_get(es@, key@) == entries_get(es@.skip(i as int), key@),
                decreases es.len() - i,
            {
                let ghost rest = es@.skip(i as int);
                assert(rest[0] == es@[i as int]);
                let k = chars_of(es[i].0.as_str());
                if seq_eq_v(&k, key) {
                    return Some(&es[i].1);
                }
                assert(rest.drop_first() =~= es@.skip(i + 1));
                i = i + 1;
            }
            None
        },
        _ => None,
    }
}

/// Adds the strings of `own_types(v)` to the sorted set `out`.
fn add_own_types(v: &Json, out: &mut Vec<String>)
    requires
        sorted_strict(string_views(old(out)@)),
    ensures
        sorted_strict(string_views(final(out)@)),
        string_views(final(out)@).to_set() == string_views(old(out)@).to_set().union(
            own_types(*v),
        ),
{
    let key = chars_of("@type");
    match json_get_v(v, &key) {
        Some(Json::Str(s)) => {
            insert_sorted(out, s.clone());
            assert(string_views(out@).to_set() =~= string_views(old(out)@).to_set().union(
                own_types(*v),
            ));
        },
        Some(Json::Array(a)) => {
            let ghost base = string_views(out@).to_set();
            let mut i: usize = 0;
            while i < a.len()
                invariant
                    i <= a@.len(),
                    sorted_strict(string_views(out@)),
                    string_views(out@).to_set() == base.union(string_items(a@.take(i as int))),
                decreases a.len() - i,
            {
                proof {
                    crate::checks::lemma_take_step(a@, i as int);
                }
                match &a[i] {
                    Json::Str(s) => {
                        insert_sorted(out, s.clone());
                    },
                    _ => {},
                }
                assert(string_views(out@).to_set() =~= base.union(string_items(a@.take(i + 1))));
                i = i + 1;
            }
            assert(a@.take(i as int) =~= a@);
            assert(string_views(out@).to_set() =~= string_views(old(out)@).to_set().union(
                own_types(*v),
            ));
        },
        _ => {
            assert(string_views(out@).to_set() =~= string_views(old(out)@).to_set().union(
                own_types(*v),
            ));
        },
    }
}

/// Adds the `@type` values of `v` and its descendants (from `depth` down to depth 64).
pub fn collect_types_bounded(v: &Json, out: &mut Vec<String>, depth: usize)
    requires
        sorted_strict(string_views(old(out)@)),
    ensures
        sorted_strict(string_views(final(out)@)),
        string_views(final(out)@).to_set() == string_views(old(out)@).to_set().union(
            types_of(*v, depth as int),
        ),
    decreases node_measure(depth as int),
{
    if depth > MAX_JSON_DEPTH {
        assert(string_views(out@).to_set() =~= string_views(old(out)@).to_set().union(
            types_of(*v, depth as int),
        ));
        return;
    }
    match v {
        Json::Object(es) => {
            add_own_types(v, out);
            let ghost base = string_views(out@).to_set();
            let mut i: usize = 0;
            while i < es.len()
                invariant
                    i <= es@.len(),
                    depth <= MAX_JSON_DEPTH,
                    sorted_strict(string_views(out@)),
                    string_views(out@).to_set() == base.union(
                        entry_types(es@.take(i as int), depth + 1),
                    ),
                decreases es.len() - i,
            {
                proof {
                    crate::checks::lemma_take_step(es@, i as int);
                }
                collect_types_bounded(&es[i].1, out, depth + 1);
                assert(string_views(out@).to_set() =~= base.union(
                    entry_types(es@.take(i + 1), depth + 1),
                ));
                i = i + 1;
            }
            assert(es@.take(i as int) =~= es@);
            assert(string_views(out@).to_set() =~= string_views(old(out)@).to_set().union(
                types_of(*v, depth as int),
            ));
        },
        Json::Array(a) => {
            let ghost base = string_views(out@).to_set();
            let mut i: usize = 0;
            while i < a.len()
                invariant
                    i <= a@.len(),
                    depth <= MAX_JSON_DEPTH,
                    sorted_strict(string_views(out@)),
                    string_views(out@).to_set() == base.union(
                        item_types(a@.take(i as int), depth + 1),
                    ),
                decreases a.len() - i,
            {
                proof {
                    crate::checks::lemma_take_step(a@, i as int);
                }
                collect_types_bounded(&a[i], out, depth + 1);
                assert(string_views(out@).to_set() =~= base.union(
                    item_types(a@.take(i + 1), depth + 1),
                ));
                i = i + 1;
            }
            assert(a@.take(i as int) =~= a@);
            assert(string_views(out@).to_set() =~= string_views(old(out)@).to_set().union(
                types_of(*v, depth as int),
            ));
        },
        _ => {
            assert(string_views(out@).to_set() =~= string_views(old(out)@).to_set().union(
                types_of(*v, depth as int),
            ));
        },
    }
}

/// Adds all `@type` values (a string, or the strings of an array) found in the JSON value
/// tree to the ascending set `out`; nodes deeper than 64 levels are not visited.
pub fn collect_types(v: &Json, out: &mut Vec<String>)
    requires
        sorted_strict(string_views(old(out)@)),
    ensures
        sorted_strict(string_views(final(out)@)),
        string_views(final(out)@).to_set() == string_views(old(out)@).to_set().union(
            types_of(*v, 0),
        ),
{
    collect_types_bounded(v, out, 0);
}

// ---------------------------------------------------------------------------
// Google's required/recommended fields
// ---------------------------------------------------------------------------

/// A present string member whose trimmed text is non-empty.
pub open spec fn is_nonblank_str(o: Option<Json>) -> bool {
    match o {
        Some(Json::Str(s)) => trim(s@).len() > 0,
        _ => false,
    }
}

/// A question entry with a non-blank `name`.
pub open spec fn has_question_name(q: Json) -> bool {
    is_nonblank_str(json_get(q, "name"@))
}

/// A question entry with a non-blank `acceptedAnswer.text`.
pub open spec fn has_answer_text(q: Json) -> bool {
    match json_get(q, "acceptedAnswer"@) {
        Some(a) => is_nonblank_str(json_get(a, "text"@)),
        None => false,
    }
}

pub open spec fn faq_name_msg(i: nat) -> Seq<char> {
    "FAQPage mainEntity["@ + decimal(i) + "] is missing name (question text) (required by Google)"@
}

pub open spec fn faq_answer_msg(i: nat) -> Seq<char> {
    "FAQPage mainEntity["@ + decimal(i)
        + "] is missing acceptedAnswer.text (answer text) (required by Google)"@
}

pub open spec fn faq_main_entity_msg() -> Seq<char> {
    "FAQPage's mainEntity array is missing or empty (required field per Google)"@
}

/// Issues of one `mainEntity` item at index `i`.
pub open spec fn faq_entry_issues(i: nat, q: Json) -> Seq<Seq<char>> {
    (if has_question_name(q) {
        seq![]
    } else {
        seq![faq_name_msg(i)]
    }) + (if has_answer_text(q) {
        seq![]
    } else {
        seq![faq_answer_msg(i)]
    })
}

/// Issues of the `mainEntity` items, in order.
pub open spec fn faq_entries_issues(items: Seq<Json>) -> Seq<Seq<char>>
    decreases items.len(),
{
    if items.len() == 0 {
        seq![]
    } else {
        faq_entries_issues(items.drop_last()) + faq_entry_issues(
            (items.len() - 1) as nat,
            items.last(),
        )
    }
}

/// Issues of an `FAQPage` node: its `mainEntity` must be a non-empty array whose items
/// carry a question name and an answer text.
pub open spec fn faqpage_issues(v: Json) -> Seq<Seq<char>> {
    match json_get(v, "mainEntity"@) {
        Some(Json::Array(a)) => if a@.len() > 0 {
            faq_entries_issues(a@)
        } else {
            seq![faq_main_entity_msg()]
        },
        _ => seq![faq_main_entity_msg()],
    }
}

/// A member that is present and not `null`.
pub open spec fn field_present(v: Json, f: Seq<char>) -> bool {
    match json_get(v, f) {
        Some(x) => !(x is Null),
        None => false,
    }
}

pub open spec fn field_msg(t: Seq<char>, f: Seq<char>, required: bool) -> Seq<char> {
    t + " JSON-LD is missing '"@ + f + "' ("@ + (if required {
        "required"@
    } else {
        "recommended"@
    }) + ", per Google structured data guidelines)"@
}

/// Issues for the absent fields among `fs` (name, required?), in order.
pub open spec fn fields_issues(v: Json, t: Seq<char>, fs: Seq<(Seq<char>, bool)>) -> Seq<
    Seq<char>,
>
    decreases fs.len(),
{
    if fs.len() == 0 {
        seq![]
    } else {
        fields_issues(v, t, fs.drop_last()) + if field_present(v, fs.last().0) {
            seq![]
        } else {
            seq![field_msg(t, fs.last().0, fs.last().1)]
        }
    }
}

/// The checked fields of a schema kind: 0 Article family, 1 Product, 2 HowTo.
pub open spec fn kind_fields(kind: nat) -> Seq<(Seq<char>, bool)> {
    if kind == 0 {
        seq![
            ("headline"@, true),
            ("image"@, true),
            ("datePublished"@, true),
            ("author"@, true),
            ("dateModified"@, false),
            ("publisher"@, false),
            ("mainEntityOfPage"@, false),
        ]
    } else if kind == 1 {
        seq![
            ("name"@, true),
            ("image"@, true),
            ("description"@, false),
            ("sku"@, false),
            ("offers"@, false),
        ]
    } else {
        seq![
            ("name"@, true),
            ("step"@, true),
            ("totalTime"@, false),
            ("tool"@, false),
            ("supply"@, false),
        ]
    }
}

/// The field issues of one object node, chosen by its string `@type`.
pub open spec fn own_schema_issues(v: Json) -> Seq<Seq<char>> {
    match json_get(v, "@type"@) {
        Some(Json::Str(ts)) => {
            let t = ts@;
            if t == "FAQPage"@ {
                faqpage_issues(v)
            } else if t == "Article"@ || t == "BlogPosting"@ || t == "NewsArticle"@ {
                fields_issues(v, t, kind_fields(0))
            } else if t == "Product"@ {
                fields_issues(v, t, kind_fields(1))
            } else if t == "HowTo"@ {
                fields_issues(v, t, kind_fields(2))
            } else {
                seq![]
            }
        },
        _ => seq![],
    }
}

/// Field issues of `v` and its descendants in document order (a node before its
/// members), visiting nodes up to depth 64.
pub open spec fn node_issues(v: Json, depth: int) -> Seq<Seq<char>>
    decreases node_measure(depth), 0int,
{
    if depth > MAX_JSON_DEPTH {
        seq![]
    } else {
        match v {
            Json::Object(es) => own_schema_issues(v) + entry_issues(es@, depth + 1),
            Json::Array(a) => item_issues(a@, depth + 1),
            _ => seq![],
        }
    }
}

pub open spec fn entry_issues(es: Seq<(String, Json)>, depth: int) -> Seq<Seq<char>>
    decreases node_measure(depth), 1 + es.len(),
{
    if es.len() == 0 {
        seq![]
    } else {
        entry_issues(es.drop_last(), depth) + node_issues(es.last().1, depth)
    }
}

pub open spec fn item_issues(items: Seq<Json>, depth: int) -> Seq<Seq<char>>
    decreases node_measure(depth), 1 + items.len(),
{
    if items.len() == 0 {
        seq![]
    } else {
        item_issues(items.drop_last(), depth) + node_issues(items.last(), depth)
    }
}

/// The field issues of a whole JSON-LD value.
pub open spec fn schema_issues(v: Json) -> Seq<Seq<char>> {
    node_issues(v, 0)
}

fn is_nonblank_str_v(o: Option<&Json>) -> (b: bool)
    ensures
        b == is_nonblank_str(opt_json(o)),
{
    match o {
        Some(Json::Str(s)) => {
            let c = chars_of(s.as_str());
            let t = trim_v(&c);
            t.len() > 0
        },
        _ => false,
    }
}

fn field_entry(kind: usize, k: usize) -> (r: (&'static str, bool))
    requires
        kind < 3,
        k < kind_fields(kind as nat).len(),
    ensures
        r.0@ == kind_fields(kind as nat)[k as int].0,
        r.1 == kind_fields(kind as nat)[k as int].1,
{
    if kind == 0 {
        if k == 0 { ("headline", true) }
        else if k == 1 { ("image", true) }
        else if k == 2 { ("datePublished", true) }
        else if k == 3 { ("author", true) }
        else if k == 4 { ("dateModified", false) }
        else if k == 5 { ("publisher", false) }
        else { ("mainEntityOfPage", false) }
    } else if kind == 1 {
        if k == 0 { ("name", true) }
        else if k == 1 { ("image", true) }
        else if k == 2 { ("description", false) }
        else if k == 3 { ("sku", false) }
        else { ("offers", false) }
    } else {
        if k == 0 { ("name", true) }
        else if k == 1 { ("step", true) }
        else if k == 2 { ("totalTime", false) }
        else if k == 3 { ("tool", false) }
        else { ("supply", false) }
    }
}

fn kind_len(kind: usize) -> (n: usize)
    requires
        kind < 3,
    ensures
        n == kind_fields(kind as nat).len(),
{
    if kind == 0 {
        7
    } else {
        5
    }
}

fn push_fields_issues(v: &Json, t: &[char], kind: usize, issues: &mut Vec<String>)
    requires
        kind < 3,
    ensures
        string_views(final(issues)@) == string_views(old(issues)@) + fields_issues(
            *v,
            t@,
            kind_fields(kind as nat),
        ),
{
    let n = kind_len(kind);
    let ghost fs = kind_fields(kind as nat);
    let mut k: usize = 0;
    while k < n
        invariant
            kind < 3,
            n == fs.len(),
            fs == kind_fields(kind as nat),
            k <= n,
            string_views(issues@) == string_views(old(issues)@) + fields_issues(
                *v,
                t@,
                fs.take(k as int),
            ),
        decreases n - k,
    {
        proof {
            crate::checks::lemma_take_step(fs, k as int);
        }
        let (field, required) = field_entry(kind, k);
        let fc = chars_of(field);
        let present = match json_get_v(v, &fc) {
            Some(x) => match x {
                Json::Null => false,
                _ => true,
            },
            None => false,
        };
        let ghost before = string_views(issues@);
        if !present {
            let mut m: Vec<char> = Vec::new();
            extend_chars(&mut m, t);
            extend_str(&mut m, " JSON-LD is missing '");
            extend_str(&mut m, field);
            extend_str(&mut m, "' (");
            if required {
                extend_str(&mut m, "required");
            } else {
                extend_str(&mut m, "recommended");
            }
            extend_str(&mut m, ", per Google structured data guidelines)");
            assert(m@ =~= field_msg(t@, fs[k as int].0, fs[k as int].1));
            push_issue(issues, &m);
        }
        assert(string_views(issues@) =~= string_views(old(issues)@) + fields_issues(
            *v,
            t@,
            fs.take(k + 1),
        ));
        k = k + 1;
    }
    assert(fs.take(k as int) =~= fs);
}

fn push_faqpage_issues(v: &Json, issues: &mut Vec<String>)
    ensures
        string_views(final(issues)@) == string_views(old(issues)@) + faqpage_issues(*v),
{
    let me = chars_of("mainEntity");
    match json_get_v(v, &me) {
        Some(Json::Array(a)) => {
            if a.len() == 0 {
                push_issue_str(issues, "FAQPage's mainEntity array is missing or empty (required field per Google)");
                return;
            }
            let name_k = chars_of("name");
            let ans_k = chars_of("acceptedAnswer");
            let text_k = chars_of("text");
            let mut i: usize = 0;
            while i < a.len()
                invariant
                    i <= a@.len(),
                    name_k@ == "name"@,
                    ans_k@ == "acceptedAnswer"@,
                    text_k@ == "text"@,
                    string_views(issues@) == string_views(old(issues)@) + faq_entries_issues(
                        a@.take(i as int),
                    ),
                decreases a.len() - i,
            {
                proof {
                    crate::checks::lemma_take_step(a@, i as int);
                }
                let q = &a[i];
                let has_name = is_nonblank_str_v(json_get_v(q, &name_k));
                let has_answer = match json_get_v(q, &ans_k) {
                    Some(ans) => is_nonblank_str_v(json_get_v(ans, &text_k)),
                    None => false,
                };
                let ghost before = string_views(issues@);
                if !has_name {
                    let mut m: Vec<char> = Vec::new();
                    extend_str(&mut m, "FAQPage mainEntity[");
                    let d = decimal_v(i);
                    extend_chars(&mut m, &d);
                    extend_str(&mut m, "] is missing name (question text) (required by Google)");
                    assert(m@ =~= faq_name_msg(i as nat));
                    push_issue(issues, &m);
                }
                if !has_answer {
                    let mut m: Vec<char> = Vec::new();
                    extend_str(&mut m, "FAQPage mainEntity[");
                    let d = decimal_v(i);
                    extend_chars(&mut m, &d);
                    extend_str(
                        &mut m,
                        "] is missing acceptedAnswer.text (answer text) (required by Google)",
                    );
                    assert(m@ =~= faq_answer_msg(i as nat));
                    push_issue(issues, &m);
                }
                assert(string_views(issues@) =~= before + faq_entry_issues(i as nat, a@[i as int]));
                assert(string_views(issues@) =~= string_views(old(issues)@) + faq_entries_issues(
                    a@.take(i + 1),
                ));
                i = i + 1;
            }
            assert(a@.take(i as int) =~= a@);
        },
        _ => {
            push_issue_str(issues, "FAQPage's mainEntity array is missing or empty (required field per Google)");
        },
    }
}

fn push_own_schema_issues(v: &Json, issues: &mut Vec<String>)
    ensures
        string_views(final(issues)@) == string_views(old(issues)@) + own_schema_issues(*v),
{
    let tk = chars_of("@type");
    match json_get_v(v, &tk) {
        Some(Json::Str(ts)) => {
            let t = chars_of(ts.as_str());
            if seq_eq_v(&t, &chars_of("FAQPage")) {
                push_faqpage_issues(v, issues);
            } else if seq_eq_v(&t, &chars_of("Article")) || seq_eq_v(&t, &chars_of("BlogPosting"))
                || seq_eq_v(&t, &chars_of("NewsArticle")) {
                push_fields_issues(v, &t, 0, issues);
            } else if seq_eq_v(&t, &chars_of("Product")) {
                push_fields_issues(v, &t, 1, issues);
            } else if seq_eq_v(&t, &chars_of("HowTo")) {
                push_fields_issues(v, &t, 2, issues);
            } else {
                assert(string_views(issues@) =~= string_views(old(issues)@) + own_schema_issues(*v));
            }
        },
        _ => {
            assert(string_views(issues@) =~= string_views(old(issues)@) + own_schema_issues(*v));
        },
    }
}

/// Appends the field issues of `v` and its descendants, from `depth` down to depth 64.
pub fn check_schema_node(v: &Json, issues: &mut Vec<String>, depth: usize)
    ensures
        string_views(final(issues)@) == string_views(old(issues)@) + node_issues(*v, depth as int),
    decreases node_measure(depth as int),
{
    if depth > MAX_JSON_DEPTH {
        assert(string_views(issues@) =~= string_views(old(issues)@) + node_issues(*v, depth as int));
        return;
    }
    match v {
        Json::Object(es) => {
            push_own_schema_issues(v, issues);
            let ghost base = string_views(issues@);
            let mut i: usize = 0;
            while i < es.len()
                invariant
                    i <= es@.len(),
                    depth <= MAX_JSON_DEPTH,
                    string_views(issues@) == base + entry_issues(es@.take(i as int), depth + 1),
                decreases es.len() - i,
            {
                proof {
                    crate::checks::lemma_take_step(es@, i as int);
                }
                check_schema_node(&es[i].1, issues, depth + 1);
                assert(string_views(issues@) =~= base + entry_issues(es@.take(i + 1), depth + 1));
                i = i + 1;
            }
            assert(es@.take(i as int) =~= es@);
            assert(string_views(issues@) =~= string_views(old(issues)@) + node_issues(*v, depth as int));
        },
        Json::Array(a) => {
            let ghost base = string_views(issues@);
            let mut i: usize = 0;
            while i < a.len()
                invariant
                    i <= a@.len(),
                    depth <= MAX_JSON_DEPTH,
                    string_views(issues@) == base + item_issues(a@.take(i as int), depth + 1),
                decreases a.len() - i,
            {
                proof {
                    crate::checks::lemma_take_step(a@, i as int);
                }
                check_schema_node(&a[i], issues, depth + 1);
                assert(string_views(issues@) =~= base + item_issues(a@.take(i + 1), depth + 1));
                i = i + 1;
            }
            assert(a@.take(i as int) =~= a@);
            assert(string_views(issues@) =~= string_views(old(issues)@) + node_issues(*v, depth as int));
        },
        _ => {
            assert(string_views(issues@) =~= string_views(old(issues)@) + node_issues(*v, depth as int));
        },
    }
}

proof fn lemma_entry_issues_prefix(es: Seq<(String, Json)>, d: int, m: int)
    requires
        0 <= m <= es.len(),
    ensures
        entry_issues(es.take(m), d).len() <= entry_issues(es, d).len(),
        entry_issues(es, d).take(entry_issues(es.take(m), d).len() as int) == entry_issues(
            es.take(m),
            d,
        ),
    decreases es.len(),
{
    if m == es.len() {
        assert(es.take(m) =~= es);
        assert(entry_issues(es, d).take(entry_issues(es, d).len() as int) =~= entry_issues(es, d));
    } else {
        let init = es.drop_last();
        assert(init.take(m) =~= es.take(m));
        lemma_entry_issues_prefix(init, d, m);
        let e = entry_issues(init, d);
        let p = entry_issues(es.take(m), d);
        assert((e + node_issues(es.last().1, d)).take(p.len() as int) =~= e.take(p.len() as int));
    }
}

proof fn lemma_entry_issues_step(es: Seq<(String, Json)>, d: int, k: int)
    requires
        0 <= k < es.len(),
    ensures
        entry_issues(es.take(k + 1), d) == entry_issues(es.take(k), d) + node_issues(es[k].1, d),
{
    assert(es.take(k + 1).drop_last() =~= es.take(k));
    assert(es.take(k + 1).last() == es[k]);
}

proof fn lemma_item_issues_prefix(a: Seq<Json>, d: int, m: int)
    requires
        0 <= m <= a.len(),
    ensures
        item_issues(a.take(m), d).len() <= item_issues(a, d).len(),
        item_issues(a, d).take(item_issues(a.take(m), d).len() as int) == item_issues(a.take(m), d),
    decreases a.len(),
{
    if m == a.len() {
        assert(a.take(m) =~= a);
        assert(item_issues(a, d).take(item_issues(a, d).len() as int) =~= item_issues(a, d));
    } else {
        let init = a.drop_last();
        assert(init.take(m) =~= a.take(m));
        lemma_item_issues_prefix(init, d, m);
        let e = item_issues(init, d);
        let p = item_issues(a.take(m), d);
        assert((e + node_issues(a.last(), d)).take(p.len() as int) =~= e.take(p.len() as int));
    }
}

proof fn lemma_item_issues_step(a: Seq<Json>, d: int, k: int)
    requires
        0 <= k < a.len(),
    ensures
        item_issues(a.take(k + 1), d) == item_issues(a.take(k), d) + node_issues(a[k], d),
{
    assert(a.take(k + 1).drop_last() =~= a.take(k));
    assert(a.take(k + 1).last() == a[k]);
}

/// `block` stands in `s` at position `p`.
pub open spec fn block_at(s: Seq<Seq<char>>, p: int, block: Seq<Seq<char>>) -> bool {
    0 <= p && p + block.len() <= s.len() && s.subrange(p, p + block.len()) == block
}

proof fn lemma_block_in_prefix(s: Seq<Seq<char>>, pre: Seq<Seq<char>>, blk: Seq<Seq<char>>)
    requires
        (pre + blk).len() <= s.len(),
        s.take((pre + blk).len() as int) == pre + blk,
    ensures
        block_at(s, pre.len() as int, blk),
{
    let p = pre.len() as int;
    assert forall|t: int| 0 <= t < blk.len() implies s.subrange(p, p + blk.len())[t] == blk[t] by {
        assert(s[p + t] == s.take((pre + blk).len() as int)[p + t]);
        assert((pre + blk)[p + t] == blk[t]);
    }
    assert(s.subrange(p, p + blk.len()) =~= blk);
}

proof fn lemma_block_shift(own: Seq<Seq<char>>, s: Seq<Seq<char>>, p: int, blk: Seq<Seq<char>>)
    requires
        block_at(s, p, blk),
    ensures
        block_at(own + s, own.len() + p, blk),
{
    let q = own.len() + p;
    assert forall|t: int| 0 <= t < blk.len() implies (own + s).subrange(q, q + blk.len())[t]
        == blk[t] by {
        assert((own + s)[q + t] == s[p + t]);
        assert(s.subrange(p, p + blk.len())[t] == s[p + t]);
    }
    assert((own + s).subrange(q, q + blk.len()) =~= blk);
}

/// Member `k`'s issues stand in the members' issues right after those of the members before.
proof fn lemma_entry_block(es: Seq<(String, Json)>, d: int, k: int)
    requires
        0 <= k < es.len(),
    ensures
        block_at(entry_issues(es, d), entry_issues(es.take(k), d).len() as int, node_issues(es[k].1, d)),
        entry_issues(es.take(k + 1), d).len() == entry_issues(es.take(k), d).len() + node_issues(
            es[k].1,
            d,
        ).len(),
{
    lemma_entry_issues_step(es, d, k);
    lemma_entry_issues_prefix(es, d, k + 1);
    lemma_block_in_prefix(entry_issues(es, d), entry_issues(es.take(k), d), node_issues(es[k].1, d));
}

/// Item `k`'s issues stand in the items' issues right after those of the items before.
proof fn lemma_item_block(a: Seq<Json>, d: int, k: int)
    requires
        0 <= k < a.len(),
    ensures
        block_at(item_issues(a, d), item_issues(a.take(k), d).len() as int, node_issues(a[k], d)),
        item_issues(a.take(k + 1), d).len() == item_issues(a.take(k), d).len() + node_issues(
            a[k],
            d,
        ).len(),
{
    lemma_item_issues_step(a, d, k);
    lemma_item_issues_prefix(a, d, k + 1);
    lemma_block_in_prefix(item_issues(a, d), item_issues(a.take(k), d), node_issues(a[k], d));
}

/// Field issues reach into nested nodes: within the depth limit, the issues of each member
/// value of an object (checked one level deeper) stand in the object's issues after its own
/// type's issues, and the next member's issues follow right after them. So an `Article`
/// nested in an `@graph` array is checked like a top-level one.
pub proof fn lemma_object_members_checked(v: Json, d: int, k: int)
    requires
        0 <= d <= MAX_JSON_DEPTH,
        v is Object,
        0 <= k < v->Object_0@.len(),
    ensures
        exists|p: int|
            own_schema_issues(v).len() <= p && #[trigger] block_at(
                node_issues(v, d),
                p,
                node_issues(v->Object_0@[k].1, d + 1),
            ) && (k + 1 < v->Object_0@.len() ==> block_at(
                node_issues(v, d),
                p + node_issues(v->Object_0@[k].1, d + 1).len(),
                node_issues(v->Object_0@[k + 1].1, d + 1),
            )),
{
    let es = v->Object_0@;
    let own = own_schema_issues(v);
    let ent = entry_issues(es, d + 1);
    assert(node_issues(v, d) == own + ent);
    lemma_entry_block(es, d + 1, k);
    let x = entry_issues(es.take(k), d + 1).len() as int;
    lemma_block_shift(own, ent, x, node_issues(es[k].1, d + 1));
    if k + 1 < es.len() {
        lemma_entry_block(es, d + 1, k + 1);
        let y = entry_issues(es.take(k + 1), d + 1).len() as int;
        lemma_block_shift(own, ent, y, node_issues(es[k + 1].1, d + 1));
    }
    assert(block_at(node_issues(v, d), own.len() + x, node_issues(es[k].1, d + 1)));
}

/// Within the depth limit, the issues of each item of an array (checked one level deeper)
/// stand in the array's issues, and the next item's issues follow right after them.
pub proof fn lemma_array_items_checked(v: Json, d: int, k: int)
    requires
        0 <= d <= MAX_JSON_DEPTH,
        v is Array,
        0 <= k < v->Array_0@.len(),
    ensures
        exists|p: int|
            #[trigger] block_at(node_issues(v, d), p, node_issues(v->Array_0@[k], d + 1)) && (k + 1
                < v->Array_0@.len() ==> block_at(
                node_issues(v, d),
                p + node_issues(v->Array_0@[k], d + 1).len(),
                node_issues(v->Array_0@[k + 1], d + 1),
            )),
{
    let a = v->Array_0@;
    assert(node_issues(v, d) == item_issues(a, d + 1));
    lemma_item_block(a, d + 1, k);
    if k + 1 < a.len() {
        lemma_item_block(a, d + 1, k + 1);
    }
    let x = item_issues(a.take(k), d + 1).len() as int;
    assert(block_at(node_issues(v, d), x, node_issues(a[k], d + 1)));
}

/// Within the depth limit, an object's issues begin with those of its own `@type`.
pub proof fn lemma_object_own_first(v: Json, d: int)
    requires
        0 <= d <= MAX_JSON_DEPTH,
        v is Object,
    ensures
        node_issues(v, d).take(own_schema_issues(v).len() as int) == own_schema_issues(v),
{
    let own = own_schema_issues(v);
    assert(node_issues(v, d) == own + entry_issues(v->Object_0@, d + 1));
    assert(node_issues(v, d).take(own.len() as int) =~= own);
}

/// Beyond the depth limit, and for strings, numbers, booleans and `null`, nothing is
/// reported.
pub proof fn lemma_leaf_or_deep_no_issues(v: Json, d: int)
    requires
        d > MAX_JSON_DEPTH || (!(v is Object) && !(v is Array)),
    ensures
        node_issues(v, d).len() == 0,
{
}

/// Required/recommended field presence for FAQPage/Article/Product/HowTo JSON-LD nodes
/// (Google Search Central's structured data guidelines), over the whole value tree.
pub fn schema_field_issues(v: &Json) -> (r: Vec<String>)
    ensures
        string_views(r@) == schema_issues(*v),
{
    let mut issues: Vec<String> = Vec::new();
    check_schema_node(v, &mut issues, 0);
    assert(string_views(issues@) =~= schema_issues(*v));
    issues
}

// ---------------------------------------------------------------------------
// Parsing with serde_json
// ---------------------------------------------------------------------------

#[verifier::external_type_specification]
#[verifier::external_body]
pub struct ExJsonValue(serde_json::Value);

/// What `serde_json::from_str::<serde_json::Value>` makes of `text`: the parsed value, or
/// the text of its error.
pub uninterp spec fn parsed_json(text: Seq<char>) -> Result<Json, Seq<char>>;

pub open spec fn parse_view(r: Result<Json, String>) -> Result<Json, Seq<char>> {
    match r {
        Ok(j) => Ok(j),
        Err(e) => Err(e@),
    }
}

pub open spec fn parse_views(v: Seq<Result<Json, String>>) -> Seq<Result<Json, Seq<char>>> {
    v.map_values(|r: Result<Json, String>| parse_view(r))
}

/// `serde_json::from_str::<serde_json::Value>`; the value is converted to a `Json` one
/// variant for one, the error to its display text.
#[verifier::external_body]
pub(crate) fn parse_json_text(text: &str) -> (r: Result<Json, String>)
    ensures
        parse_view(r) == parsed_json(text@),
{
    match serde_json::from_str::<serde_json::Value>(text) {
        Ok(v) => Ok(json_from_value(v)),
        Err(e) => Err(e.to_string()),
    }
}

/// Converts a `serde_json::Value` to a `Json`, variant by variant (object members in the
/// map's iteration order, numbers by their display text). Only `parse_json_text` calls it.
#[verifier::external_body]
fn json_from_value(v: serde_json::Value) -> Json {
    match v {
        serde_json::Value::Null => Json::Null,
        serde_json::Value::Bool(b) => Json::Bool(b),
        serde_json::Value::Number(n) => Json::Number(n.to_string()),
        serde_json::Value::String(s) => Json::Str(s),
        serde_json::Value::Array(a) => Json::Array(a.into_iter().map(json_from_value).collect()),
        serde_json::Value::Object(m) => Json::Object(
            m.into_iter().map(|(k, x)| (k, json_from_value(x))).collect(),
        ),
    }
}

/// What `serde_json::to_string_pretty` makes of a value: two-space indented JSON text,
/// object members in ascending key order.
pub uninterp spec fn pretty_json_text(v: Json) -> Seq<char>;

/// `serde_json::to_string_pretty` on the value converted one variant for one (serialising
/// a `serde_json::Value` cannot fail, so the error arm is never taken).
#[verifier::external_body]
pub(crate) fn to_pretty_json(v: &Json) -> (r: String)
    ensures
        r@ == pretty_json_text(*v),
{
    serde_json::to_string_pretty(&json_to_value(v)).unwrap_or_default()
}

/// Converts a `Json` to a `serde_json::Value`, variant by variant (numbers from their
/// text; a number text that is not JSON, which neither `serde_json` nor this library
/// produces, would become `null`). Only `to_pretty_json` calls it.
#[verifier::external_body]
fn json_to_value(v: &Json) -> serde_json::Value {
    match v {
        Json::Null => serde_json::Value::Null,
        Json::Bool(b) => serde_json::Value::Bool(*b),
        Json::Number(n) => serde_json::from_str(n).unwrap_or(serde_json::Value::Null),
        Json::Str(s) => serde_json::Value::String(s.clone()),
        Json::Array(a) => serde_json::Value::Array(a.iter().map(json_to_value).collect()),
        Json::Object(es) => serde_json::Value::Object(
            es.iter().map(|(k, x)| (k.clone(), json_to_value(x))).collect(),
        ),
    }
}

} // verus!
