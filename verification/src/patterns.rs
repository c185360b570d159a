//! The project's regular expressions (markdown links, FAQ labels, JSON-LD script tags),
//! matched by the `regex` crate. Each matching function states, for its fixed pattern, exactly
//! which matches leftmost-first regex semantics produce.
use vstd::prelude::*;
use crate::text::{is_ws, lead_len, occurs_at, string_views, ws_pred};

verus! {

/// Smallest index `j >= from` with `s[j] == c`.
pub open spec fn first_from(s: Seq<char>, c: char, from: int) -> Option<int>
    decreases s.len() - from,
{
    if from < 0 || from >= s.len() {
        None
    } else if s[from] == c {
        Some(from)
    } else {
        first_from(s, c, from + 1)
    }
}

/// Smallest index `j >= from` at which `p` occurs in `s`.
pub open spec fn first_occ_from(s: Seq<char>, p: Seq<char>, from: int) -> Option<int>
    decreases s.len() - from,
{
    if from < 0 || from > s.len() {
        None
    } else if occurs_at(s, p, from) {
        Some(from)
    } else if from == s.len() {
        None
    } else {
        first_occ_from(s, p, from + 1)
    }
}

// ---------------------------------------------------------------------------
// Markdown links: \[([^\]]+)\]\(([^)]+)\)
// ---------------------------------------------------------------------------

/// End (exclusive) of the link match starting at `i`, if one starts there: `[`, a
/// non-empty run up to the first `]`, then `(` right after it, a non-empty run up to the
/// first `)`.
pub open spec fn link_end(s: Seq<char>, i: int) -> Option<int> {
    if 0 <= i < s.len() && s[i] == '[' {
        match first_from(s, ']', i + 1) {
            Some(j) => if i + 1 < j && j + 1 < s.len() && s[j + 1] == '(' {
                match first_from(s, ')', j + 2) {
                    Some(k) => if j + 2 < k && k < s.len() {
                        Some(k + 1)
                    } else {
                        None
                    },
                    None => None,
                }
            } else {
                None
            },
            None => None,
        }
    } else {
        None
    }
}

/// Number of non-overlapping link matches found scanning from `p`.
pub open spec fn link_count_from(s: Seq<char>, p: int) -> nat
    decreases s.len() - p,
{
    if p < 0 || p >= s.len() {
        0
    } else {
        match link_end(s, p) {
            Some(e) => if p < e {
                1 + link_count_from(s, e)
            } else {
                0
            },
            None => link_count_from(s, p + 1),
        }
    }
}

/// Number of markdown `[text](url)` links in `s`.
pub open spec fn link_count(s: Seq<char>) -> nat {
    link_count_from(s, 0)
}

/// `regex::Regex::find_iter(..).count()` for the pattern `\[([^\]]+)\]\(([^)]+)\)`,
/// compiled here: the number of leftmost-first, non-overlapping matches.
#[verifier::external_body]
pub(crate) fn count_link_matches(s: &str) -> (n: usize)
    ensures
        n == link_count(s@),
{
    regex::Regex::new(r"\[([^\]]+)\]\(([^)]+)\)").unwrap().find_iter(s).count()
}

// ---------------------------------------------------------------------------
// FAQ labels: (?i)^q[:.]\s*\S and (?i)^q[:.]\s*(\S.*)$ (and the same with `a`)
// ---------------------------------------------------------------------------

/// `t` starts with the letter (either case) followed by `:` or `.`.
pub open spec fn label_prefix(t: Seq<char>, lower: char, upper: char) -> bool {
    t.len() >= 2 && (t[0] == lower || t[0] == upper) && (t[1] == ':' || t[1] == '.')
}

/// Index of the first non-whitespace character after the label.
pub open spec fn label_text_start(t: Seq<char>) -> int {
    2 + lead_len(t.skip(2), ws_pred()) as int
}

/// `(?i)^x[:.]\s*\S` matches `t`: the label, then some non-whitespace character.
pub open spec fn label_match(t: Seq<char>, lower: char, upper: char) -> bool {
    label_prefix(t, lower, upper) && label_text_start(t) < t.len()
}

/// Group 1 of `(?i)^x[:.]\s*(\S.*)$`: the text after the label and its whitespace, when
/// it is non-empty and holds no line feed (`.` does not match `\n`).
pub open spec fn label_capture(t: Seq<char>, lower: char, upper: char) -> Option<Seq<char>> {
    if label_match(t, lower, upper) && forall|k: int|
        label_text_start(t) <= k < t.len() ==> t[k] != '\n' {
        Some(t.skip(label_text_start(t)))
    } else {
        None
    }
}

pub open spec fn opt_string_view(r: Option<String>) -> Option<Seq<char>> {
    match r {
        Some(s) => Some(s@),
        None => None,
    }
}

/// `regex::Regex::is_match` for `(?i)^q[:.]\s*\S`, compiled here.
#[verifier::external_body]
pub(crate) fn question_label_matches(t: &str) -> (b: bool)
    ensures
        b == label_match(t@, 'q', 'Q'),
{
    regex::Regex::new(r"(?i)^q[:.]\s*\S").unwrap().is_match(t)
}

/// `regex::Regex::is_match` for `(?i)^a[:.]\s*\S`, compiled here.
#[verifier::external_body]
pub(crate) fn answer_label_matches(t: &str) -> (b: bool)
    ensures
        b == label_match(t@, 'a', 'A'),
{
    regex::Regex::new(r"(?i)^a[:.]\s*\S").unwrap().is_match(t)
}

/// `regex::Regex::captures` for `(?i)^q[:.]\s*(\S.*)$`, compiled here; group 1.
#[verifier::external_body]
pub(crate) fn question_label_capture(t: &str) -> (r: Option<String>)
    ensures
        opt_string_view(r) == label_capture(t@, 'q', 'Q'),
{
    regex::Regex::new(r"(?i)^q[:.]\s*(\S.*)$").unwrap().captures(t).map(|c| c[1].to_string())
}

/// `regex::Regex::captures` for `(?i)^a[:.]\s*(\S.*)$`, compiled here; group 1.
#[verifier::external_body]
pub(crate) fn answer_label_capture(t: &str) -> (r: Option<String>)
    ensures
        opt_string_view(r) == label_capture(t@, 'a', 'A'),
{
    regex::Regex::new(r"(?i)^a[:.]\s*(\S.*)$").unwrap().captures(t).map(|c| c[1].to_string())
}

// ---------------------------------------------------------------------------
// JSON-LD script tags:
// (?s)<script[^>]*type="application/ld\+json"[^>]*>(.*?)</script>
// ---------------------------------------------------------------------------

pub open spec fn script_open() -> Seq<char> {
    "<script"@
}

pub open spec fn script_close() -> Seq<char> {
    "</script>"@
}

pub open spec fn ld_json_attr() -> Seq<char> {
    "type=\"application/ld+json\""@
}

/// The attribute occurs entirely inside `s[lo..hi]`.
pub open spec fn attr_within(s: Seq<char>, lo: int, hi: int) -> bool {
    exists|q: int| lo <= q && q + ld_json_attr().len() <= hi && occurs_at(s, ld_json_attr(), q)
}

/// The match starting at `i`, if any: the tag `<script` whose text up to its first `>`
/// holds the JSON-LD type attribute, then the content up to the first `</script>`.
/// Yields (content start, content end).
pub open spec fn script_at(s: Seq<char>, i: int) -> Option<(int, int)> {
    if occurs_at(s, script_open(), i) {
        match first_from(s, '>', i + script_open().len()) {
            Some(g) => if i < g && attr_within(s, i + script_open().len(), g) {
                match first_occ_from(s, script_close(), g + 1) {
                    Some(e) => if g < e && e + script_close().len() <= s.len() {
                        Some((g + 1, e))
                    } else {
                        None
                    },
                    None => None,
                }
            } else {
                None
            },
            None => None,
        }
    } else {
        None
    }
}

/// Group 1 of every leftmost-first, non-overlapping match found scanning from `p`.
pub open spec fn script_blocks_from(s: Seq<char>, p: int) -> Seq<Seq<char>>
    decreases s.len() - p,
{
    if p < 0 || p >= s.len() {
        seq![]
    } else {
        match script_at(s, p) {
            Some((a, e)) => if p < e + script_close().len() {
                seq![s.subrange(a, e)] + script_blocks_from(s, e + script_close().len())
            } else {
                seq![]
            },
            None => script_blocks_from(s, p + 1),
        }
    }
}

/// The contents of `<script type="application/ld+json">` blocks, in order.
pub open spec fn script_blocks(s: Seq<char>) -> Seq<Seq<char>> {
    script_blocks_from(s, 0)
}

/// `regex::Regex::captures_iter` for
/// `(?s)<script[^>]*type="application/ld\+json"[^>]*>(.*?)</script>`, compiled here;
/// group 1 of each match.
#[verifier::external_body]
pub(crate) fn script_ld_json_contents(doc: &str) -> (r: Vec<String>)
    ensures
        string_views(r@) == script_blocks(doc@),
{
    regex::Regex::new(r#"(?s)<script[^>]*type="application/ld\+json"[^>]*>(.*?)</script>"#)
        .unwrap()
        .captures_iter(doc)
        .map(|c| c[1].to_string())
        .collect()
}

} // verus!
