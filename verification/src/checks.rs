//! Deterministic structural checks on a markdown document: headings, sections, the
//! opening paragraph, word/statistic counts. Each public check is stated over the
//! character sequence of the document and proved.
use vstd::prelude::*;
use crate::text::{
    chars_of, extend_chars, hash_lead, hash_pred, is_digit, is_whitespace, is_ws, lead_len, lines,
    split_lines, starts_with, string_of, strip_hashes, strip_hashes_v, trim, trim_start,
    trim_start_v, trim_v, starts_with_v, views, slice_vec, join, string_views, strings_of, decimal,
    decimal_v, extend_str, lowercase, to_lowercase, contains, contains_v, occurs_at, line_scan, strip_cr,
    ws_pred, trail_len, lemma_lead_len_bound, lemma_trail_len_bound,
};
use crate::json::{
    collect_types, parse_json_text, parse_view, parse_views, parsed_json, schema_field_issues,
    schema_issues, sorted_strict, types_of, Json,
};
use crate::spec::{Section, Spec};
use crate::patterns::{
    answer_label_capture, answer_label_matches, count_link_matches, label_capture, label_match,
    label_prefix, link_count, opt_string_view, question_label_capture, question_label_matches,
    script_blocks, script_ld_json_contents,
};

verus! {

// ---------------------------------------------------------------------------
// Code fences
// ---------------------------------------------------------------------------

/// The three backticks that open and close a code fence.
pub open spec fn fence_marker() -> Seq<char> {
    seq!['`', '`', '`']
}

/// A line whose text (after leading whitespace) starts with three backticks.
pub open spec fn is_fence_line(l: Seq<char>) -> bool {
    starts_with(trim_start(l), fence_marker())
}

/// Fold over the lines: the fence-stripped text so far, and whether a fence is open.
pub open spec fn fence_fold(ls: Seq<Seq<char>>) -> (Seq<char>, bool)
    decreases ls.len(),
{
    if ls.len() == 0 {
        (seq![], false)
    } else {
        let (out, in_fence) = fence_fold(ls.drop_last());
        let l = ls.last();
        if is_fence_line(l) {
            (out.push('\n'), !in_fence)
        } else if in_fence {
            (out.push('\n'), true)
        } else {
            (out + l.push('\n'), false)
        }
    }
}

/// The document with every line inside a code fence (and the fence lines themselves)
/// replaced by an empty line.
pub open spec fn strip_fences(doc: Seq<char>) -> Seq<char> {
    fence_fold(lines(doc)).0
}

pub fn fence_v() -> (r: Vec<char>)
    ensures
        r@ == fence_marker(),
{
    let mut r = Vec::new();
    r.push('`');
    r.push('`');
    r.push('`');
    assert(r@ =~= fence_marker());
    r
}

pub fn is_fence_line_v(l: &[char]) -> (b: bool)
    ensures
        b == is_fence_line(l@),
{
    let t = trim_start_v(l);
    let f = fence_v();
    starts_with_v(&t, &f)
}

pub proof fn lemma_take_step<T>(s: Seq<T>, i: int)
    requires
        0 <= i < s.len(),
    ensures
        s.take(i + 1).drop_last() == s.take(i),
        s.take(i + 1).last() == s[i],
{
    assert(s.take(i + 1).drop_last() =~= s.take(i));
}

/// Replaces every line inside a ```` ``` ```` code fence, and the fence lines themselves, with
/// an empty line, so scans for headings, numbers, links and FAQ labels skip example code.
pub fn strip_code_fences(doc: &str) -> (r: String)
    ensures
        r@ == strip_fences(doc@),
{
    let d = chars_of(doc);
    let s = strip_fence_chars(&d);
    string_of(&s)
}

/// Replaces the lines of code fences with empty lines.
pub fn strip_fence_chars(doc: &[char]) -> (r: Vec<char>)
    ensures
        r@ == strip_fences(doc@),
{
    let ls = split_lines(doc);
    let mut out: Vec<char> = Vec::new();
    let mut in_fence = false;
    let mut i: usize = 0;
    while i < ls.len()
        invariant
            i <= ls@.len(),
            views(ls@) == lines(doc@),
            (out@, in_fence) == fence_fold(views(ls@).take(i as int)),
        decreases ls.len() - i,
    {
        proof {
            lemma_take_step(views(ls@), i as int);
        }
        let line = &ls[i];
        if is_fence_line_v(line) {
            in_fence = !in_fence;
            out.push('\n');
        } else if in_fence {
            out.push('\n');
        } else {
            extend_chars(&mut out, line);
            out.push('\n');
            assert(out@ =~= fence_fold(views(ls@).take(i as int)).0 + line@.push('\n'));
        }
        i = i + 1;
    }
    assert(views(ls@).take(i as int) =~= views(ls@));
    out
}

// ---------------------------------------------------------------------------
// Headings
// ---------------------------------------------------------------------------

/// A heading: its level (number of leading `#`) and its text.
#[derive(Clone, Debug)]
pub struct Heading {
    pub level: usize,
    pub text: String,
}

impl View for Heading {
    type V = (nat, Seq<char>);

    open spec fn view(&self) -> (nat, Seq<char>) {
        (self.level as nat, self.text@)
    }
}

/// A line whose text (after leading whitespace) starts with `#`.
pub open spec fn is_heading_line(l: Seq<char>) -> bool {
    let t = trim_start(l);
    t.len() > 0 && t[0] == '#'
}

/// The level and text of a heading line.
pub open spec fn heading_of(l: Seq<char>) -> (nat, Seq<char>) {
    let t = trim_start(l);
    (lead_len(t, hash_pred()), trim(strip_hashes(t)))
}

/// The headings among the lines, in order.
pub open spec fn headings_in(ls: Seq<Seq<char>>) -> Seq<(nat, Seq<char>)>
    decreases ls.len(),
{
    if ls.len() == 0 {
        seq![]
    } else {
        let rest = headings_in(ls.drop_last());
        if is_heading_line(ls.last()) {
            rest.push(heading_of(ls.last()))
        } else {
            rest
        }
    }
}

pub open spec fn heading_views(hs: Seq<Heading>) -> Seq<(nat, Seq<char>)> {
    hs.map_values(|h: Heading| h@)
}

pub fn headings_of_lines(ls: &Vec<Vec<char>>) -> (r: Vec<Heading>)
    ensures
        heading_views(r@) == headings_in(views(ls@)),
{
    let mut out: Vec<Heading> = Vec::new();
    let mut i: usize = 0;
    while i < ls.len()
        invariant
            i <= ls@.len(),
            heading_views(out@) == headings_in(views(ls@).take(i as int)),
        decreases ls.len() - i,
    {
        proof {
            lemma_take_step(views(ls@), i as int);
        }
        let t = trim_start_v(&ls[i]);
        if t.len() > 0 && t[0] == '#' {
            let level = hash_lead(&t);
            let stripped = strip_hashes_v(&t);
            let text = trim_v(&stripped);
            let h = Heading { level, text: string_of(&text) };
            let ghost old_out = out@;
            out.push(h);
            assert(heading_views(out@) =~= heading_views(old_out).push(h@));
        }
        i = i + 1;
    }
    assert(views(ls@).take(i as int) =~= views(ls@));
    out
}

/// Extracts `(level, text)` from every line starting with `#`.
pub fn parse_headings(doc: &str) -> (r: Vec<Heading>)
    ensures
        heading_views(r@) == headings_in(lines(doc@)),
{
    let d = chars_of(doc);
    let ls = split_lines(&d);
    headings_of_lines(&ls)
}

// ---------------------------------------------------------------------------
// Words and statistic tokens
// ---------------------------------------------------------------------------

/// Left-to-right scan for whitespace-separated tokens: finished tokens and the open one.
pub open spec fn token_scan(s: Seq<char>) -> (Seq<Seq<char>>, Seq<char>)
    decreases s.len(),
{
    if s.len() == 0 {
        (seq![], seq![])
    } else {
        let (done, cur) = token_scan(s.drop_last());
        if is_ws(s.last()) {
            if cur.len() > 0 {
                (done.push(cur), seq![])
            } else {
                (done, seq![])
            }
        } else {
            (done, cur.push(s.last()))
        }
    }
}

/// `str::split_whitespace`: the maximal runs of non-whitespace characters.
pub open spec fn ws_tokens(s: Seq<char>) -> Seq<Seq<char>> {
    let (done, cur) = token_scan(s);
    if cur.len() == 0 {
        done
    } else {
        done.push(cur)
    }
}

/// Number of whitespace-separated words.
pub open spec fn words(s: Seq<char>) -> nat {
    ws_tokens(s).len()
}

/// A token containing an ASCII digit.
pub open spec fn has_digit(t: Seq<char>) -> bool {
    exists|k: int| 0 <= k < t.len() && is_digit(t[k])
}

/// Number of tokens of `ts` that contain an ASCII digit.
pub open spec fn count_digit_tokens(ts: Seq<Seq<char>>) -> nat
    decreases ts.len(),
{
    if ts.len() == 0 {
        0
    } else {
        count_digit_tokens(ts.drop_last()) + if has_digit(ts.last()) {
            1nat
        } else {
            0nat
        }
    }
}

/// Number of whitespace-separated tokens that contain a digit ("43%", "2.5x", "1,200").
pub open spec fn stat_tokens(s: Seq<char>) -> nat {
    count_digit_tokens(ws_tokens(s))
}

pub proof fn lemma_count_digit_tokens_bound(ts: Seq<Seq<char>>)
    ensures
        count_digit_tokens(ts) <= ts.len(),
    decreases ts.len(),
{
    if ts.len() > 0 {
        lemma_count_digit_tokens_bound(ts.drop_last());
    }
}

pub proof fn lemma_token_scan_bound(s: Seq<char>)
    ensures
        token_scan(s).0.len() + token_scan(s).1.len() <= s.len(),
    decreases s.len(),
{
    if s.len() > 0 {
        lemma_token_scan_bound(s.drop_last());
    }
}

/// Counts words and digit-bearing tokens of `v` in one pass.
pub fn token_counts(v: &[char]) -> (r: (usize, usize))
    ensures
        r.0 == words(v@),
        r.1 == stat_tokens(v@),
{
    let mut done: usize = 0;
    let mut done_digit: usize = 0;
    let mut cur_len: usize = 0;
    let mut cur_digit = false;
    let mut i: usize = 0;
    while i < v.len()
        invariant
            i <= v@.len(),
            done == token_scan(v@.take(i as int)).0.len(),
            done_digit == count_digit_tokens(token_scan(v@.take(i as int)).0),
            cur_len == token_scan(v@.take(i as int)).1.len(),
            cur_digit == has_digit(token_scan(v@.take(i as int)).1),
            done + cur_len <= i,
            done_digit <= done,
        decreases v.len() - i,
    {
        let ghost pre = token_scan(v@.take(i as int));
        proof {
            lemma_take_step(v@, i as int);
            lemma_token_scan_bound(v@.take(i as int));
        }
        let c = v[i];
        if is_whitespace(c) {
            if cur_len > 0 {
                proof {
                    assert(pre.0.push(pre.1).drop_last() =~= pre.0);
                }
                done = done + 1;
                if cur_digit {
                    done_digit = done_digit + 1;
                }
            }
            cur_len = 0;
            cur_digit = false;
            proof {
                let e: Seq<char> = seq![];
                assert(!has_digit(e));
            }
        } else {
            proof {
                let n = pre.1.push(c);
                if has_digit(pre.1) {
                    let k = choose|k: int| 0 <= k < pre.1.len() && is_digit(pre.1[k]);
                    assert(n[k] == pre.1[k]);
                }
                if ('0' <= c && c <= '9') {
                    assert(n[n.len() - 1] == c);
                }
                if has_digit(n) {
                    let k = choose|k: int| 0 <= k < n.len() && is_digit(n[k]);
                    if k < pre.1.len() {
                        assert(n[k] == pre.1[k]);
                    }
                }
            }
            cur_len = cur_len + 1;
            cur_digit = cur_digit || ('0' <= c && c <= '9');
        }
        i = i + 1;
    }
    assert(v@.take(i as int) =~= v@);
    let ghost fin = token_scan(v@);
    if cur_len > 0 {
        proof {
            assert(fin.0.push(fin.1).drop_last() =~= fin.0);
        }
        (done + 1, if cur_digit { done_digit + 1 } else { done_digit })
    } else {
        (done, done_digit)
    }
}

/// Number of whitespace-separated words.
pub fn word_count(s: &str) -> (n: usize)
    ensures
        n == words(s@),
{
    let v = chars_of(s);
    token_counts(&v).0
}

/// Number of whitespace-separated tokens containing an ASCII digit.
pub fn stat_token_count(doc: &str) -> (n: usize)
    ensures
        n == stat_tokens(doc@),
{
    let v = chars_of(doc);
    token_counts(&v).1
}

// ---------------------------------------------------------------------------
// Sections
// ---------------------------------------------------------------------------

/// Fold over the lines: finished (heading, body) pairs, the open heading, the open body.
pub open spec fn section_fold(ls: Seq<Seq<char>>) -> (
    Seq<(Seq<char>, Seq<char>)>,
    Seq<char>,
    Seq<char>,
)
    decreases ls.len(),
{
    if ls.len() == 0 {
        (seq![], seq![], seq![])
    } else {
        let (out, head, body) = section_fold(ls.drop_last());
        let line = ls.last();
        if is_heading_line(line) {
            let out2 = if head.len() > 0 || trim(body).len() > 0 {
                out.push((head, body))
            } else {
                out
            };
            (out2, trim(strip_hashes(trim_start(line))), seq![])
        } else {
            (out, head, body + line.push('\n'))
        }
    }
}

/// `(heading, body)` pairs split at heading lines; a leading body without heading forms a
/// pair with an empty heading, and an empty pair is never emitted.
pub open spec fn sections_in(ls: Seq<Seq<char>>) -> Seq<(Seq<char>, Seq<char>)> {
    let (out, head, body) = section_fold(ls);
    if head.len() > 0 || trim(body).len() > 0 {
        out.push((head, body))
    } else {
        out
    }
}

pub open spec fn pair_views(v: Seq<(Vec<char>, Vec<char>)>) -> Seq<(Seq<char>, Seq<char>)> {
    v.map_values(|p: (Vec<char>, Vec<char>)| (p.0@, p.1@))
}

pub open spec fn string_pair_views(v: Seq<(String, String)>) -> Seq<(Seq<char>, Seq<char>)> {
    v.map_values(|p: (String, String)| (p.0@, p.1@))
}

pub fn sections_of_lines(ls: &Vec<Vec<char>>) -> (r: Vec<(Vec<char>, Vec<char>)>)
    ensures
        pair_views(r@) == sections_in(views(ls@)),
{
    let mut out: Vec<(Vec<char>, Vec<char>)> = Vec::new();
    let mut head: Vec<char> = Vec::new();
    let mut body: Vec<char> = Vec::new();
    let mut i: usize = 0;
    while i < ls.len()
        invariant
            i <= ls@.len(),
            (pair_views(out@), head@, body@) == section_fold(views(ls@).take(i as int)),
        decreases ls.len() - i,
    {
        proof {
            lemma_take_step(views(ls@), i as int);
        }
        let line = &ls[i];
        let t = trim_start_v(line);
        if t.len() > 0 && t[0] == '#' {
            let tb = trim_v(&body);
            if head.len() > 0 || tb.len() > 0 {
                let ghost old_out = pair_views(out@);
                let pair = (head, body);
                out.push(pair);
                assert(pair_views(out@) =~= old_out.push((pair.0@, pair.1@)));
            }
            let st = strip_hashes_v(&t);
            head = trim_v(&st);
            body = Vec::new();
            assert(body@ =~= seq![]);
        } else {
            extend_chars(&mut body, line);
            body.push('\n');
        }
        i = i + 1;
    }
    assert(views(ls@).take(i as int) =~= views(ls@));
    let tb = trim_v(&body);
    if head.len() > 0 || tb.len() > 0 {
        let ghost old_out = pair_views(out@);
        let pair = (head, body);
        out.push(pair);
        assert(pair_views(out@) =~= old_out.push((pair.0@, pair.1@)));
    }
    out
}

/// Splits into `(heading, body)` pairs at lines starting with `#`.
pub fn split_sections(doc: &str) -> (r: Vec<(String, String)>)
    ensures
        string_pair_views(r@) == sections_in(lines(doc@)),
{
    let d = chars_of(doc);
    let ls = split_lines(&d);
    let secs = sections_of_lines(&ls);
    let mut r: Vec<(String, String)> = Vec::new();
    let mut i: usize = 0;
    while i < secs.len()
        invariant
            i <= secs@.len(),
            string_pair_views(r@) == pair_views(secs@).take(i as int),
        decreases secs.len() - i,
    {
        let p = (string_of(&secs[i].0), string_of(&secs[i].1));
        let ghost old_r = string_pair_views(r@);
        r.push(p);
        assert(string_pair_views(r@) =~= old_r.push((p.0@, p.1@)));
        assert(pair_views(secs@).take(i + 1) =~= pair_views(secs@).take(i as int).push(
            pair_views(secs@)[i as int],
        ));
        i = i + 1;
    }
    assert(pair_views(secs@).take(i as int) =~= pair_views(secs@));
    r
}

// ---------------------------------------------------------------------------
// Opening paragraph
// ---------------------------------------------------------------------------

/// A line that is an H1: after leading whitespace exactly one `#` and at least one more
/// character (`# Title` and `#Title` both count).
pub open spec fn is_h1(l: Seq<char>) -> bool {
    let t = trim_start(l);
    lead_len(t, hash_pred()) == 1 && t.len() > 1
}

pub fn is_h1_v(l: &[char]) -> (b: bool)
    ensures
        b == is_h1(l@),
{
    let t = trim_start_v(l);
    let h = hash_lead(&t);
    h == 1 && t.len() > 1
}

/// Scan state for the opening paragraph: whether the H1 has been passed, the lines
/// collected, and whether collecting has stopped.
pub open spec fn para_fold(ls: Seq<Seq<char>>, start_seen: bool) -> (bool, Seq<Seq<char>>, bool)
    decreases ls.len(),
{
    if ls.len() == 0 {
        (start_seen, seq![], false)
    } else {
        let (seen, collected, stopped) = para_fold(ls.drop_last(), start_seen);
        let t = trim(ls.last());
        if stopped {
            (seen, collected, stopped)
        } else if !seen {
            (is_h1(t), collected, false)
        } else if t.len() == 0 {
            (seen, collected, collected.len() > 0)
        } else if t[0] == '#' || starts_with(t, fence_marker()) {
            (seen, collected, true)
        } else {
            (seen, collected.push(t), false)
        }
    }
}

/// Some line of `ls` is an H1.
pub open spec fn any_h1(ls: Seq<Seq<char>>) -> bool {
    exists|i: int| 0 <= i < ls.len() && is_h1(#[trigger] ls[i])
}

/// The opening paragraph of the fence-stripped document: the trimmed lines after the
/// first H1 (or from the start when there is no H1) up to the first blank line, heading or
/// fence line, joined with single spaces.
pub open spec fn first_paragraph_spec(doc: Seq<char>) -> Seq<char> {
    let ls = lines(strip_fences(doc));
    join(para_fold(ls, !any_h1(ls)).1, seq![' '])
}

/// A line that is empty once trimmed.
pub open spec fn blank_line(l: Seq<char>) -> bool {
    trim(l).len() == 0
}

/// A line that can belong to the opening paragraph: non-blank, and (trimmed) neither a
/// heading nor a code fence.
pub open spec fn body_line(l: Seq<char>) -> bool {
    let t = trim(l);
    t.len() > 0 && t[0] != '#' && !starts_with(t, fence_marker())
}

/// The paragraph scan may start at `s0`: at the top when no H1 is looked for, otherwise right
/// after the first line that (trimmed) is an H1.
pub open spec fn para_start_ok(ls: Seq<Seq<char>>, start_seen: bool, s0: int) -> bool {
    (start_seen && s0 == 0) || (!start_seen && 1 <= s0 <= ls.len() && is_h1(trim(ls[s0 - 1]))
        && forall|k: int| 0 <= k < s0 - 1 ==> !is_h1(trim(#[trigger] ls[k])))
}

/// The lines `ls[a..b]`, each trimmed.
pub open spec fn trimmed_run(ls: Seq<Seq<char>>, a: int, b: int) -> Seq<Seq<char>> {
    ls.subrange(a, b).map_values(|l: Seq<char>| trim(l))
}

/// Before the H1 is seen: it is looked for, nothing is collected, and no line so far is an H1.
pub open spec fn para_unseen_ok(ls: Seq<Seq<char>>, start_seen: bool) -> bool {
    let (seen, col, stopped) = para_fold(ls, start_seen);
    !seen ==> !start_seen && col.len() == 0 && !stopped && forall|k: int|
        0 <= k < ls.len() ==> !is_h1(trim(#[trigger] ls[k]))
}

/// After the H1: the scan started at `s0`, skipped blank lines up to `a`, and collected the
/// body lines from `a`; when it stopped, the line after the run is not a body line.
pub open spec fn para_scan_at(ls: Seq<Seq<char>>, start_seen: bool, s0: int, a: int) -> bool {
    let (seen, col, stopped) = para_fold(ls, start_seen);
    let n = ls.len() as int;
    &&& para_start_ok(ls, start_seen, s0)
    &&& s0 <= a
    &&& a + col.len() <= n
    &&& forall|k: int| s0 <= k < a ==> blank_line(#[trigger] ls[k])
    &&& col == trimmed_run(ls, a, a + col.len())
    &&& forall|k: int| a <= k < a + col.len() ==> body_line(#[trigger] ls[k])
    &&& stopped ==> a + col.len() < n && !body_line(ls[a + col.len()]) && !blank_line(ls[a])
    &&& !stopped ==> a + col.len() == n
}

proof fn lemma_para_scan(ls: Seq<Seq<char>>, start_seen: bool) -> (w: (int, int))
    ensures
        para_unseen_ok(ls, start_seen),
        para_fold(ls, start_seen).0 ==> para_scan_at(ls, start_seen, w.0, w.1),
    decreases ls.len(),
{
    if ls.len() == 0 {
        assert(trimmed_run(ls, 0, 0) =~= seq![]);
        return (0, 0);
    }
    let init = ls.drop_last();
    let w0 = lemma_para_scan(init, start_seen);
    let n = init.len() as int;
    let (seen, col, stopped) = para_fold(init, start_seen);
    let l = ls.last();
    let t = trim(l);
    assert forall|k: int| 0 <= k < n implies ls[k] == init[k] by {}
    assert(ls[n] == l);
    let (seen2, col2, stopped2) = para_fold(ls, start_seen);
    if !seen {
        if is_h1(t) {
            let s0 = n + 1;
            assert(para_start_ok(ls, start_seen, s0));
            assert(para_fold(ls, start_seen) == (true, col, false));
            assert(col =~= seq![]);
            assert(trimmed_run(ls, s0, s0) =~= seq![]);
            assert(col2 == trimmed_run(ls, s0, s0 + col2.len()));
            assert(para_scan_at(ls, start_seen, s0, s0));
            return (s0, s0);
        }
        return (0, 0);
    }
    let (s0, a) = w0;
    assert(para_start_ok(ls, start_seen, s0));
    assert(forall|k: int| s0 <= k < a ==> blank_line(#[trigger] ls[k]));
    assert(forall|k: int| a <= k < a + col.len() ==> body_line(#[trigger] ls[k]));
    assert(trimmed_run(ls, a, a + col.len()) =~= col);
    if stopped {
        assert(para_scan_at(ls, start_seen, s0, a));
        return (s0, a);
    }
    if t.len() == 0 {
        if col.len() > 0 {
            assert(!body_line(ls[a + col.len()]));
            assert(body_line(ls[a]));
            assert(para_scan_at(ls, start_seen, s0, a));
            return (s0, a);
        } else {
            assert(a == n);
            assert(para_fold(ls, start_seen) == (true, col, false));
            assert(col =~= seq![]);
            assert(trimmed_run(ls, n + 1, n + 1) =~= seq![]);
            assert(col2 == trimmed_run(ls, n + 1, n + 1 + col2.len()));
            assert(forall|k: int| s0 <= k < n + 1 ==> blank_line(#[trigger] ls[k]));
            assert(para_scan_at(ls, start_seen, s0, n + 1));
            return (s0, n + 1);
        }
    } else if t[0] == '#' || starts_with(t, fence_marker()) {
        assert(!body_line(ls[n]));
        if col.len() > 0 {
            assert(body_line(ls[a]));
        }
        assert(para_scan_at(ls, start_seen, s0, a));
        return (s0, a);
    } else {
        assert(body_line(ls[n]));
        assert(trimmed_run(ls, a, a + col2.len()) =~= col.push(t));
        assert(forall|k: int| a <= k < a + col2.len() ==> body_line(#[trigger] ls[k]));
        assert(para_scan_at(ls, start_seen, s0, a));
        return (s0, a);
    }
}

/// `p` is the run `ls[a..b]` joined with spaces, where the scan starts at `s0` (top, or
/// right after the first H1), `a` is the first non-blank line from `s0`, and `b` the first
/// line from `a` that is not a body line; or, when an H1 is looked for and no line (trimmed)
/// is one, `p` is empty.
pub open spec fn is_opening_run(ls: Seq<Seq<char>>, start_seen: bool, p: Seq<char>) -> bool {
    let n = ls.len() as int;
    ||| exists|s0: int, a: int, b: int|
        #![trigger para_start_ok(ls, start_seen, s0), trimmed_run(ls, a, b)]
        para_start_ok(ls, start_seen, s0) && s0 <= a <= b <= n && (forall|k: int|
            s0 <= k < a ==> blank_line(#[trigger] ls[k])) && (a == n || !blank_line(ls[a]))
            && (forall|k: int| a <= k < b ==> body_line(#[trigger] ls[k])) && (b == n
            || !body_line(ls[b])) && p == join(trimmed_run(ls, a, b), seq![' '])
    ||| !start_seen && (forall|k: int| 0 <= k < n ==> !is_h1(trim(#[trigger] ls[k]))) && p.len()
        == 0
}

/// The opening paragraph is one run of consecutive lines of the fence-stripped text, joined
/// with single spaces: it starts at the first non-blank line after the first H1 (after the
/// top when the text has no H1), and holds each following line, trimmed, up to but not
/// including the first blank line, heading or fence line (or the end). Blank lines never
/// join two runs. When H1s are looked for but no line, trimmed, is one, it is empty.
pub proof fn lemma_first_paragraph_is_one_run(doc: Seq<char>)
    ensures
        is_opening_run(
            lines(strip_fences(doc)),
            !any_h1(lines(strip_fences(doc))),
            first_paragraph_spec(doc),
        ),
{
    let ls = lines(strip_fences(doc));
    let st = !any_h1(ls);
    let n = ls.len() as int;
    let w = lemma_para_scan(ls, st);
    let (seen, col, stopped) = para_fold(ls, st);
    assert(first_paragraph_spec(doc) == join(col, seq![' ']));
    if !seen {
        assert(para_unseen_ok(ls, st));
        assert(col =~= seq![]);
        assert(join(col, seq![' ']) =~= Seq::<char>::empty());
    } else {
        let (s0, a) = w;
        let b = a + col.len();
        if !stopped && col.len() > 0 {
            assert(body_line(ls[a]));
        }
        assert(a == n || !blank_line(ls[a]));
        assert(b == n || !body_line(ls[b]));
        assert(trimmed_run(ls, a, b) == col);
        assert(para_start_ok(ls, st, s0) && s0 <= a <= b <= n && (forall|k: int|
            s0 <= k < a ==> blank_line(#[trigger] ls[k])) && (a == n || !blank_line(ls[a]))
            && (forall|k: int| a <= k < b ==> body_line(#[trigger] ls[k])) && (b == n
            || !body_line(ls[b])) && first_paragraph_spec(doc) == join(
            trimmed_run(ls, a, b),
            seq![' '],
        ));
    }
}

pub fn any_h1_v(ls: &Vec<Vec<char>>) -> (b: bool)
    ensures
        b == any_h1(views(ls@)),
{
    let mut i: usize = 0;
    while i < ls.len()
        invariant
            i <= ls@.len(),
            forall|j: int| 0 <= j < i ==> !is_h1(#[trigger] views(ls@)[j]),
        decreases ls.len() - i,
    {
        if is_h1_v(&ls[i]) {
            assert(is_h1(views(ls@)[i as int]));
            return true;
        }
        i = i + 1;
    }
    false
}

/// The direct-answer paragraph: text after the H1 (or from the start of the document) up
/// to the first blank line, scanned on the fence-stripped document.
pub fn first_paragraph(doc: &str) -> (r: String)
    ensures
        r@ == first_paragraph_spec(doc@),
{
    let d = chars_of(doc);
    let s = strip_fence_chars(&d);
    let ls = split_lines(&s);
    let has_h1 = any_h1_v(&ls);
    let mut seen = !has_h1;
    let mut out: Vec<char> = Vec::new();
    let mut n_collected: usize = 0;
    let ghost mut collected: Seq<Seq<char>> = seq![];
    let fence = fence_v();
    let mut i: usize = 0;
    while i < ls.len()
        invariant
            i <= ls@.len(),
            views(ls@) == lines(strip_fences(doc@)),
            has_h1 == any_h1(views(ls@)),
            fence@ == fence_marker(),
            (seen, collected, false) == para_fold(views(ls@).take(i as int), !has_h1),
            n_collected == collected.len(),
            n_collected <= i,
            out@ == join(collected, seq![' ']),
        decreases ls.len() - i,
    {
        proof {
            lemma_take_step(views(ls@), i as int);
        }
        let t = trim_v(&ls[i]);
        if !seen {
            seen = is_h1_v(&t);
        } else if t.len() == 0 {
            if n_collected > 0 {
                assert(para_fold(views(ls@).take(i + 1), !has_h1) == (seen, collected, true));
                assert forall|k: int| i + 1 <= k <= ls@.len() implies para_fold(
                    #[trigger] views(ls@).take(k),
                    !has_h1,
                ) == (seen, collected, true) by {
                    lemma_para_stopped(views(ls@), !has_h1, i + 1, k);
                }
                assert(views(ls@).take(ls@.len() as int) =~= views(ls@));
                assert(para_fold(views(ls@), !has_h1) == (seen, collected, true));
                return string_of(&out);
            }
        } else if t[0] == '#' || starts_with_v(&t, &fence) {
            assert forall|k: int| i + 1 <= k <= ls@.len() implies para_fold(
                #[trigger] views(ls@).take(k),
                !has_h1,
            ) == (seen, collected, true) by {
                lemma_para_stopped(views(ls@), !has_h1, i + 1, k);
            }
            assert(views(ls@).take(ls@.len() as int) =~= views(ls@));
            assert(para_fold(views(ls@), !has_h1) == (seen, collected, true));
            return string_of(&out);
        } else {
            if n_collected > 0 {
                out.push(' ');
            }
            extend_chars(&mut out, &t);
            proof {
                let old_c = collected;
                collected = collected.push(t@);
                assert(collected.drop_last() =~= old_c);
                if old_c.len() == 0 {
                    assert(out@ =~= join(collected, seq![' ']));
                } else {
                    assert(out@ =~= join(collected, seq![' ']));
                }
            }
            n_collected = n_collected + 1;
        }
        i = i + 1;
    }
    assert(views(ls@).take(i as int) =~= views(ls@));
    string_of(&out)
}

proof fn lemma_para_stopped(ls: Seq<Seq<char>>, start: bool, i: int, k: int)
    requires
        0 <= i <= k <= ls.len(),
        para_fold(ls.take(i), start).2,
    ensures
        para_fold(ls.take(k), start) == para_fold(ls.take(i), start),
    decreases k - i,
{
    if k > i {
        lemma_para_stopped(ls, start, i, k - 1);
        lemma_take_step(ls, k - 1);
    }
}

// ---------------------------------------------------------------------------
// Heading hierarchy
// ---------------------------------------------------------------------------

/// The issue reported when a heading of `level` follows one of `prev` with a level skipped.
pub open spec fn skip_msg(prev: nat, level: nat, text: Seq<char>) -> Seq<char> {
    "Heading level skipped: H"@ + decimal(prev) + " followed directly by H"@ + decimal(level)
        + " ('"@ + text + "') → insert an intermediate-level heading"@
}

/// Fold over headings: the issues so far and the previous level (0 before the first).
pub open spec fn hierarchy_fold(hs: Seq<(nat, Seq<char>)>) -> (Seq<Seq<char>>, nat)
    decreases hs.len(),
{
    if hs.len() == 0 {
        (seq![], 0)
    } else {
        let (issues, prev) = hierarchy_fold(hs.drop_last());
        let h = hs.last();
        let issues2 = if prev > 0 && h.0 > prev + 1 {
            issues.push(skip_msg(prev, h.0, h.1))
        } else {
            issues
        };
        (issues2, h.0)
    }
}

/// Heading-level skips (H1 → H3 etc.) outside code fences.
pub open spec fn hierarchy_issues(doc: Seq<char>) -> Seq<Seq<char>> {
    hierarchy_fold(headings_in(lines(strip_fences(doc)))).0
}

/// Heading `j` goes two or more levels deeper than the heading right before it.
pub open spec fn skips_level_at(hs: Seq<(nat, Seq<char>)>, j: int) -> bool {
    1 <= j < hs.len() && hs[j - 1].0 >= 1 && hs[j].0 >= hs[j - 1].0 + 2
}

proof fn lemma_hierarchy_fold_skips(hs: Seq<(nat, Seq<char>)>)
    ensures
        hierarchy_fold(hs).1 == (if hs.len() > 0 {
            hs.last().0
        } else {
            0
        }),
        forall|x: Seq<char>|
            hierarchy_fold(hs).0.contains(x) <==> exists|j: int|
                #[trigger] skips_level_at(hs, j) && x == skip_msg(hs[j - 1].0, hs[j].0, hs[j].1),
    decreases hs.len(),
{
    if hs.len() > 0 {
        let init = hs.drop_last();
        lemma_hierarchy_fold_skips(init);
        let (issues, prev) = hierarchy_fold(init);
        let n = hs.len() - 1;
        let h = hs.last();
        let out = hierarchy_fold(hs).0;
        assert forall|j: int| 1 <= j < n implies (skips_level_at(hs, j) <==> skips_level_at(
            init,
            j,
        )) && hs[j - 1] == init[j - 1] && hs[j] == init[j] by {}
        if n >= 1 {
            assert(prev == hs[n - 1].0);
        }
        assert forall|x: Seq<char>| out.contains(x) <==> exists|j: int|
            #[trigger] skips_level_at(hs, j) && x == skip_msg(hs[j - 1].0, hs[j].0, hs[j].1) by {
            if out.contains(x) {
                let k = choose|k: int| 0 <= k < out.len() && out[k] == x;
                if k < issues.len() {
                    assert(issues[k] == out[k]);
                    assert(issues.contains(x));
                    let j = choose|j: int|
                        #[trigger] skips_level_at(init, j) && x == skip_msg(
                            init[j - 1].0,
                            init[j].0,
                            init[j].1,
                        );
                    assert(skips_level_at(hs, j));
                } else {
                    assert(prev > 0 && h.0 > prev + 1);
                    assert(skips_level_at(hs, n));
                }
            }
            if exists|j: int|
                #[trigger] skips_level_at(hs, j) && x == skip_msg(hs[j - 1].0, hs[j].0, hs[j].1) {
                let j = choose|j: int|
                    #[trigger] skips_level_at(hs, j) && x == skip_msg(hs[j - 1].0, hs[j].0, hs[j].1);
                if j < n {
                    assert(skips_level_at(init, j));
                    assert(issues.contains(x));
                    let k = choose|k: int| 0 <= k < issues.len() && issues[k] == x;
                    assert(out[k] == issues[k]);
                } else {
                    assert(out[out.len() - 1] == x);
                }
            }
        }
    }
}

/// A heading-level issue is reported for exactly the headings (outside code fences) that go
/// two or more levels deeper than the heading right before them, naming both levels and the
/// heading's text; so headings that each go at most one level deeper (H1, H2, H3) give none.
pub proof fn lemma_hierarchy_issues_are_skips(doc: Seq<char>)
    ensures
        forall|x: Seq<char>|
            hierarchy_issues(doc).contains(x) <==> exists|j: int|
                #[trigger] skips_level_at(headings_in(lines(strip_fences(doc))), j) && x
                    == skip_msg(
                    headings_in(lines(strip_fences(doc)))[j - 1].0,
                    headings_in(lines(strip_fences(doc)))[j].0,
                    headings_in(lines(strip_fences(doc)))[j].1,
                ),
        (forall|j: int|
            1 <= j < headings_in(lines(strip_fences(doc))).len() ==> #[trigger] headings_in(
                lines(strip_fences(doc)),
            )[j].0 <= headings_in(lines(strip_fences(doc)))[j - 1].0 + 1) ==> hierarchy_issues(
            doc,
        ).len() == 0,
{
    let hs = headings_in(lines(strip_fences(doc)));
    lemma_hierarchy_fold_skips(hs);
    if forall|j: int| 1 <= j < hs.len() ==> #[trigger] hs[j].0 <= hs[j - 1].0 + 1 {
        let out = hierarchy_issues(doc);
        if out.len() > 0 {
            assert(out.contains(out[0]));
            let j = choose|j: int|
                #[trigger] skips_level_at(hs, j) && out[0] == skip_msg(hs[j - 1].0, hs[j].0, hs[j].1);
            assert(hs[j].0 <= hs[j - 1].0 + 1);
        }
    }
}

/// Heading hierarchy consistency (H1→H2→H3, no skipped level); code fences are ignored.
pub fn heading_hierarchy_issues(doc: &str) -> (r: Vec<String>)
    ensures
        string_views(r@) == hierarchy_issues(doc@),
{
    let d = chars_of(doc);
    let s = strip_fence_chars(&d);
    let ls = split_lines(&s);
    let heads = headings_of_lines(&ls);
    let ghost hs = heading_views(heads@);
    let mut issues: Vec<String> = Vec::new();
    let mut prev: usize = 0;
    let mut i: usize = 0;
    while i < heads.len()
        invariant
            i <= heads@.len(),
            hs == heading_views(heads@),
            (string_views(issues@), prev as nat) == hierarchy_fold(hs.take(i as int)),
        decreases heads.len() - i,
    {
        proof {
            lemma_take_step(hs, i as int);
        }
        let h = &heads[i];
        if prev > 0 && h.level > prev && h.level - prev > 1 {
            let mut m: Vec<char> = Vec::new();
            extend_str(&mut m, "Heading level skipped: H");
            let p = decimal_v(prev);
            extend_chars(&mut m, &p);
            extend_str(&mut m, " followed directly by H");
            let l = decimal_v(h.level);
            extend_chars(&mut m, &l);
            extend_str(&mut m, " ('");
            let tv = chars_of(h.text.as_str());
            extend_chars(&mut m, &tv);
            extend_str(&mut m, "') → insert an intermediate-level heading");
            let ghost old_issues = string_views(issues@);
            let ms = string_of(&m);
            issues.push(ms);
            assert(m@ =~= skip_msg(prev as nat, h.level as nat, h.text@));
            assert(string_views(issues@) =~= old_issues.push(ms@));
        }
        prev = h.level;
        i = i + 1;
    }
    assert(hs.take(i as int) =~= hs);
    issues
}

// ---------------------------------------------------------------------------
// Bold markers
// ---------------------------------------------------------------------------

/// `str::replace("**", "")`: every non-overlapping `**`, scanning from the left, removed.
pub open spec fn remove_bold(s: Seq<char>) -> Seq<char>
    decreases s.len(),
{
    if s.len() >= 2 && s[0] == '*' && s[1] == '*' {
        remove_bold(s.skip(2))
    } else if s.len() == 0 {
        s
    } else {
        seq![s[0]] + remove_bold(s.skip(1))
    }
}

/// Removes every `**` from a line, wherever it stands.
pub fn strip_bold_markers(v: &[char]) -> (r: Vec<char>)
    ensures
        r@ == remove_bold(v@),
{
    let mut out: Vec<char> = Vec::new();
    let mut i: usize = 0;
    assert(v@.skip(0) =~= v@);
    assert(out@ + remove_bold(v@.skip(0)) =~= remove_bold(v@));
    while i < v.len()
        invariant
            i <= v@.len(),
            out@ + remove_bold(v@.skip(i as int)) == remove_bold(v@),
        decreases v.len() - i,
    {
        let ghost rest = v@.skip(i as int);
        if i + 1 < v.len() && v[i] == '*' && v[i + 1] == '*' {
            assert(rest.skip(2) =~= v@.skip(i + 2));
            i = i + 2;
        } else {
            assert(rest.skip(1) =~= v@.skip(i + 1));
            assert(rest[0] == v@[i as int]);
            let ghost old_out = out@;
            out.push(v[i]);
            assert(out@ + remove_bold(v@.skip(i + 1)) =~= old_out + (seq![rest[0]] + remove_bold(
                rest.skip(1),
            )));
            i = i + 1;
        }
    }
    assert(v@.skip(i as int) =~= seq![]);
    assert(out@ + remove_bold(v@.skip(i as int)) =~= out@);
    out
}

// ---------------------------------------------------------------------------
// Links
// ---------------------------------------------------------------------------

/// Number of markdown `[text](url)` links.
pub fn source_link_count(doc: &str) -> (n: usize)
    ensures
        n == link_count(doc@),
{
    count_link_matches(doc)
}

// ---------------------------------------------------------------------------
// FAQ
// ---------------------------------------------------------------------------

/// An already lower-cased heading text that names an FAQ (English or Korean).
pub open spec fn is_faq_heading_lower(low: Seq<char>) -> bool {
    contains(low, "faq"@) || contains(low, "자주 묻는 질문"@) || contains(low, "질문과 답변"@)
}

/// A heading text that names an FAQ (case-insensitively; English or Korean).
pub open spec fn is_faq_heading_text(text: Seq<char>) -> bool {
    is_faq_heading_lower(lowercase(text))
}

/// Some heading is an FAQ heading.
pub open spec fn any_faq_heading(hs: Seq<(nat, Seq<char>)>) -> bool {
    exists|i: int| 0 <= i < hs.len() && is_faq_heading_text(#[trigger] hs[i].1)
}

/// The text of a line for FAQ label matching: leading `#` dropped, trimmed, every `**`
/// removed, trimmed again.
pub open spec fn faq_line_text(l: Seq<char>) -> Seq<char> {
    trim(remove_bold(trim(strip_hashes(l))))
}

/// Fold over lines counting Q/A pairs: a `Q:` line opens a question, the next `A:` line
/// while a question is open closes it and counts one pair.
pub open spec fn qa_fold(ls: Seq<Seq<char>>) -> (nat, bool)
    decreases ls.len(),
{
    if ls.len() == 0 {
        (0, false)
    } else {
        let (count, pending) = qa_fold(ls.drop_last());
        let t = faq_line_text(ls.last());
        if label_match(t, 'q', 'Q') {
            (count, true)
        } else if pending && label_match(t, 'a', 'A') {
            (count + 1, false)
        } else {
            (count, pending)
        }
    }
}

/// Whether an FAQ heading is present, and the number of `Q:`/`A:` pairs.
pub open spec fn faq_metrics_spec(doc: Seq<char>) -> (bool, nat) {
    (any_faq_heading(headings_in(lines(doc))), qa_fold(lines(doc)).0)
}

pub fn label_prefix_v(t: &[char], lower: char, upper: char) -> (b: bool)
    ensures
        b == label_prefix(t@, lower, upper),
{
    t.len() >= 2 && (t[0] == lower || t[0] == upper) && (t[1] == ':' || t[1] == '.')
}

pub fn faq_line_text_v(l: &[char]) -> (r: Vec<char>)
    ensures
        r@ == faq_line_text(l@),
{
    let a = strip_hashes_v(l);
    let b = trim_v(&a);
    let c = strip_bold_markers(&b);
    trim_v(&c)
}

pub fn is_faq_heading_text_v(text: &String) -> (b: bool)
    ensures
        b == is_faq_heading_text(text@),
{
    let low_s = to_lowercase(text.as_str());
    faq_heading_in_lowercase(low_s.as_str())
}

/// An already lower-cased heading text names an FAQ.
pub fn faq_heading_in_lowercase(low_text: &str) -> (b: bool)
    ensures
        b == is_faq_heading_lower(low_text@),
{
    let low = chars_of(low_text);
    let n1 = chars_of("faq");
    let n2 = chars_of("자주 묻는 질문");
    let n3 = chars_of("질문과 답변");
    contains_v(&low, &n1) || contains_v(&low, &n2) || contains_v(&low, &n3)
}

pub fn faq_metrics_chars(d: &[char]) -> (r: (bool, usize))
    ensures
        r.0 == faq_metrics_spec(d@).0,
        r.1 == faq_metrics_spec(d@).1,
{
    let ls = split_lines(d);
    let heads = headings_of_lines(&ls);
    let ghost hs = heading_views(heads@);
    let mut found_faq = false;
    let mut k: usize = 0;
    while k < heads.len() && !found_faq
        invariant
            k <= heads@.len(),
            hs == heading_views(heads@),
            !found_faq ==> forall|j: int| 0 <= j < k ==> !is_faq_heading_text(#[trigger] hs[j].1),
            found_faq ==> 0 < k && is_faq_heading_text(hs[k - 1].1),
        decreases heads.len() - k,
    {
        if is_faq_heading_text_v(&heads[k].text) {
            found_faq = true;
        }
        k = k + 1;
    }
    proof {
        if found_faq {
            assert(0 <= k - 1 < hs.len() && is_faq_heading_text(hs[k - 1].1));
        }
    }
    let mut count: usize = 0;
    let mut pending = false;
    let mut i: usize = 0;
    while i < ls.len()
        invariant
            i <= ls@.len(),
            (count as nat, pending) == qa_fold(views(ls@).take(i as int)),
            count <= i,
        decreases ls.len() - i,
    {
        proof {
            lemma_take_step(views(ls@), i as int);
        }
        let t = faq_line_text_v(&ls[i]);
        let ts = string_of(&t);
        let is_q = label_prefix_v(&t, 'q', 'Q') && question_label_matches(ts.as_str());
        if is_q {
            pending = true;
        } else if pending && label_prefix_v(&t, 'a', 'A') && answer_label_matches(ts.as_str()) {
            count = count + 1;
            pending = false;
        }
        i = i + 1;
    }
    assert(views(ls@).take(i as int) =~= views(ls@));
    (found_faq, count)
}

/// Whether an FAQ heading (H2/H3) is present, and the count of `Q:`/`A:` pairs.
pub fn faq_metrics(doc: &str) -> (r: (bool, usize))
    ensures
        r.0 == faq_metrics_spec(doc@).0,
        r.1 == faq_metrics_spec(doc@).1,
{
    let d = chars_of(doc);
    faq_metrics_chars(&d)
}

// ---------------------------------------------------------------------------
// Pair extraction and pair counting agree
// ---------------------------------------------------------------------------

/// `s` holds no line feed.
pub open spec fn no_nl(s: Seq<char>) -> bool {
    forall|k: int| 0 <= k < s.len() ==> s[k] != '\n'
}

proof fn lemma_no_nl_subrange(s: Seq<char>, lo: int, hi: int)
    requires
        no_nl(s),
        0 <= lo <= hi <= s.len(),
    ensures
        no_nl(s.subrange(lo, hi)),
{
    assert forall|k: int| 0 <= k < hi - lo implies s.subrange(lo, hi)[k] != '\n' by {
        assert(s.subrange(lo, hi)[k] == s[lo + k]);
    }
}

proof fn lemma_line_scan_no_nl(s: Seq<char>)
    ensures
        no_nl(line_scan(s).1),
        forall|i: int| 0 <= i < line_scan(s).0.len() ==> no_nl(#[trigger] line_scan(s).0[i]),
    decreases s.len(),
{
    if s.len() > 0 {
        lemma_line_scan_no_nl(s.drop_last());
        let (done, cur) = line_scan(s.drop_last());
        if s.last() == '\n' {
            if cur.len() > 0 && cur.last() == '\r' {
                lemma_no_nl_subrange(cur, 0, cur.len() - 1);
                assert(cur.drop_last() =~= cur.subrange(0, cur.len() - 1));
            }
            assert(no_nl(strip_cr(cur)));
            assert forall|i: int| 0 <= i < line_scan(s).0.len() implies no_nl(
                #[trigger] line_scan(s).0[i],
            ) by {
                if i < done.len() {
                    assert(line_scan(s).0[i] == done[i]);
                }
            }
        } else {
            assert forall|k: int| 0 <= k < cur.push(s.last()).len() implies cur.push(
                s.last(),
            )[k] != '\n' by {
                if k < cur.len() {
                    assert(cur.push(s.last())[k] == cur[k]);
                }
            }
        }
    }
}

/// No line of `lines(s)` holds a line feed.
pub proof fn lemma_lines_no_nl(s: Seq<char>)
    ensures
        forall|i: int| 0 <= i < lines(s).len() ==> no_nl(#[trigger] lines(s)[i]),
{
    lemma_line_scan_no_nl(s);
    let (done, cur) = line_scan(s);
    assert forall|i: int| 0 <= i < lines(s).len() implies no_nl(#[trigger] lines(s)[i]) by {
        if i < done.len() {
            assert(lines(s)[i] == done[i]);
        }
    }
}

proof fn lemma_remove_bold_no_nl(s: Seq<char>)
    requires
        no_nl(s),
    ensures
        no_nl(remove_bold(s)),
    decreases s.len(),
{
    if s.len() >= 2 && s[0] == '*' && s[1] == '*' {
        lemma_no_nl_subrange(s, 2, s.len() as int);
        assert(s.skip(2) =~= s.subrange(2, s.len() as int));
        lemma_remove_bold_no_nl(s.skip(2));
    } else if s.len() > 0 {
        lemma_no_nl_subrange(s, 1, s.len() as int);
        assert(s.skip(1) =~= s.subrange(1, s.len() as int));
        lemma_remove_bold_no_nl(s.skip(1));
        let r = remove_bold(s.skip(1));
        assert forall|k: int| 0 <= k < (seq![s[0]] + r).len() implies (seq![s[0]] + r)[k]
            != '\n' by {
            if k > 0 {
                assert((seq![s[0]] + r)[k] == r[k - 1]);
            }
        }
    }
}

proof fn lemma_trim_no_nl(s: Seq<char>)
    requires
        no_nl(s),
    ensures
        no_nl(trim(s)),
        no_nl(strip_hashes(s)),
{
    lemma_lead_len_bound(s, ws_pred());
    lemma_lead_len_bound(s, hash_pred());
    let a = trim_start(s);
    lemma_no_nl_subrange(s, lead_len(s, ws_pred()) as int, s.len() as int);
    assert(a =~= s.subrange(lead_len(s, ws_pred()) as int, s.len() as int));
    lemma_trail_len_bound(a, ws_pred());
    lemma_no_nl_subrange(a, 0, a.len() - trail_len(a, ws_pred()));
    assert(trim(s) =~= a.subrange(0, a.len() - trail_len(a, ws_pred())));
    lemma_no_nl_subrange(s, lead_len(s, hash_pred()) as int, s.len() as int);
    assert(strip_hashes(s) =~= s.subrange(lead_len(s, hash_pred()) as int, s.len() as int));
}

/// The FAQ label text of a line without line feeds has none either.
proof fn lemma_faq_line_text_no_nl(l: Seq<char>)
    requires
        no_nl(l),
    ensures
        no_nl(faq_line_text(l)),
{
    lemma_trim_no_nl(l);
    lemma_trim_no_nl(strip_hashes(l));
    lemma_remove_bold_no_nl(trim(strip_hashes(l)));
    lemma_trim_no_nl(remove_bold(trim(strip_hashes(l))));
}

/// On lines without line feeds, the pair fold collects as many pairs as the count fold
/// counts, and holds an open question exactly when the count fold does.
proof fn lemma_pairs_fold_counts(ls: Seq<Seq<char>>)
    requires
        forall|i: int| 0 <= i < ls.len() ==> no_nl(#[trigger] ls[i]),
    ensures
        pairs_fold(ls).0.len() == qa_fold(ls).0,
        pairs_fold(ls).1 is Some <==> qa_fold(ls).1,
    decreases ls.len(),
{
    if ls.len() > 0 {
        let init = ls.drop_last();
        assert forall|i: int| 0 <= i < init.len() implies no_nl(#[trigger] init[i]) by {
            assert(init[i] == ls[i]);
        }
        lemma_pairs_fold_counts(init);
        assert(no_nl(ls[ls.len() - 1]));
        lemma_faq_line_text_no_nl(ls.last());
        let t = faq_line_text(ls.last());
        assert(label_capture(t, 'q', 'Q') is Some <==> label_match(t, 'q', 'Q'));
        assert(label_capture(t, 'a', 'A') is Some <==> label_match(t, 'a', 'A'));
    }
}

/// `extract_faq_pairs` reuses the `Q:`/`A:` rules of `faq_metrics`: it returns exactly as
/// many pairs as the FAQ count that `metrics` reports for the same document (both scan the
/// fence-stripped text).
pub proof fn lemma_faq_pairs_match_count(doc: Seq<char>)
    ensures
        faq_pairs(doc).len() == faq_metrics_spec(strip_fences(doc)).1,
{
    lemma_lines_no_nl(strip_fences(doc));
    lemma_pairs_fold_counts(lines(strip_fences(doc)));
}

// ---------------------------------------------------------------------------
// Fence stripping is idempotent
// ---------------------------------------------------------------------------

/// `l` ends with a carriage return (which `str::lines` would drop once more).
pub open spec fn ends_cr(l: Seq<char>) -> bool {
    l.len() > 0 && l.last() == '\r'
}

/// The lines that fence stripping keeps: fence lines and lines inside a fence become
/// empty, the others stay; and whether a fence is open.
pub open spec fn kept_fold(ls: Seq<Seq<char>>) -> (Seq<Seq<char>>, bool)
    decreases ls.len(),
{
    if ls.len() == 0 {
        (seq![], false)
    } else {
        let (ks, in_fence) = kept_fold(ls.drop_last());
        let l = ls.last();
        if is_fence_line(l) {
            (ks.push(seq![]), !in_fence)
        } else if in_fence {
            (ks.push(seq![]), true)
        } else {
            (ks.push(l), false)
        }
    }
}

/// Each line followed by a line feed.
pub open spec fn line_text(ks: Seq<Seq<char>>) -> Seq<char>
    decreases ks.len(),
{
    if ks.len() == 0 {
        seq![]
    } else {
        line_text(ks.drop_last()) + ks.last().push('\n')
    }
}

proof fn lemma_fence_fold_kept(ls: Seq<Seq<char>>)
    ensures
        fence_fold(ls).0 == line_text(kept_fold(ls).0),
        fence_fold(ls).1 == kept_fold(ls).1,
        kept_fold(ls).0.len() == ls.len(),
        forall|i: int|
            0 <= i < ls.len() ==> (#[trigger] kept_fold(ls).0[i] == ls[i] && !is_fence_line(ls[i]))
                || kept_fold(ls).0[i].len() == 0,
        forall|i: int| 0 <= i < ls.len() ==> !is_fence_line(#[trigger] kept_fold(ls).0[i]),
    decreases ls.len(),
{
    if ls.len() > 0 {
        let init = ls.drop_last();
        lemma_fence_fold_kept(init);
        let (ks, inf) = kept_fold(init);
        let l = ls.last();
        let k = kept_fold(ls).0;
        assert(k.drop_last() =~= ks);
        assert(line_text(k) == line_text(ks) + k.last().push('\n'));
        assert(!is_fence_line(seq![])) by {
            assert(trim_start(seq![]) =~= seq![]);
        }
        if !is_fence_line(l) && !inf {
            assert(fence_fold(ls).0 =~= line_text(k));
        } else {
            assert(seq![].push('\n') =~= seq!['\n']);
            assert(fence_fold(ls).0 =~= line_text(k));
        }
        assert forall|i: int| 0 <= i < ls.len() implies (#[trigger] k[i] == ls[i] && !is_fence_line(
            ls[i],
        )) || k[i].len() == 0 by {
            if i < init.len() {
                assert(k[i] == ks[i]);
                assert(ls[i] == init[i]);
            }
        }
        assert forall|i: int| 0 <= i < ls.len() implies !is_fence_line(#[trigger] k[i]) by {
            if i < init.len() {
                assert(k[i] == ks[i]);
            }
        }
    }
}

/// Scanning `x + l` where `x` ends a line: the same finished lines, `l` still open.
proof fn lemma_line_scan_open(x: Seq<char>, l: Seq<char>)
    requires
        line_scan(x).1.len() == 0,
        no_nl(l),
    ensures
        line_scan(x + l) == (line_scan(x).0, l),
    decreases l.len(),
{
    if l.len() > 0 {
        let l0 = l.drop_last();
        assert forall|k: int| 0 <= k < l0.len() implies l0[k] != '\n' by {
            assert(l0[k] == l[k]);
        }
        lemma_line_scan_open(x, l0);
        assert((x + l).drop_last() =~= x + l0);
        assert((x + l).last() == l.last());
        assert(l0.push(l.last()) =~= l);
    } else {
        assert(x + l =~= x);
    }
}

/// Each line without its final carriage return.
pub open spec fn strip_crs(ks: Seq<Seq<char>>) -> Seq<Seq<char>> {
    ks.map_values(|k: Seq<char>| strip_cr(k))
}

/// The lines of `line_text(ks)` are `ks` again, each without a final carriage return, when
/// no line holds a line feed.
proof fn lemma_line_scan_text(ks: Seq<Seq<char>>)
    requires
        forall|i: int| 0 <= i < ks.len() ==> no_nl(#[trigger] ks[i]),
    ensures
        line_scan(line_text(ks)) == (strip_crs(ks), Seq::<char>::empty()),
    decreases ks.len(),
{
    if ks.len() > 0 {
        let init = ks.drop_last();
        assert forall|i: int| 0 <= i < init.len() implies no_nl(#[trigger] init[i]) by {
            assert(init[i] == ks[i]);
        }
        lemma_line_scan_text(init);
        let x = line_text(init);
        let l = ks.last();
        assert(no_nl(ks[ks.len() - 1]));
        lemma_line_scan_open(x, l);
        let t = line_text(ks);
        assert(t == (x + l).push('\n')) by {
            assert(x + l.push('\n') =~= (x + l).push('\n'));
        }
        assert(t.drop_last() =~= x + l);
        assert(strip_crs(init).push(strip_cr(l)) =~= strip_crs(ks));
    } else {
        assert(line_text(ks) =~= Seq::<char>::empty());
        assert(strip_crs(ks) =~= ks);
    }
}

/// Fence stripping leaves text without fence lines as it is (every line, line-fed).
proof fn lemma_fence_fold_plain(ks: Seq<Seq<char>>)
    requires
        forall|i: int| 0 <= i < ks.len() ==> !is_fence_line(#[trigger] ks[i]),
    ensures
        fence_fold(ks) == (line_text(ks), false),
    decreases ks.len(),
{
    if ks.len() > 0 {
        let init = ks.drop_last();
        assert forall|i: int| 0 <= i < init.len() implies !is_fence_line(#[trigger] init[i]) by {
            assert(init[i] == ks[i]);
        }
        lemma_fence_fold_plain(init);
        assert(!is_fence_line(ks[ks.len() - 1]));
    }
}

/// Stripping code fences twice gives what stripping once gives, for text none of whose
/// kept lines (those outside code fences) ends in a carriage return: so a scan that strips
/// fences itself (such as `extract_faq_pairs`) gives the same result whether or not its
/// caller stripped them.
pub proof fn lemma_strip_fences_idempotent(doc: Seq<char>)
    requires
        forall|i: int|
            0 <= i < lines(doc).len() && !blanked(lines(doc), i) ==> !ends_cr(
                #[trigger] lines(doc)[i],
            ),
    ensures
        strip_fences(strip_fences(doc)) == strip_fences(doc),
        faq_pairs(strip_fences(doc)) == faq_pairs(doc),
{
    let ls = lines(doc);
    lemma_lines_no_nl(doc);
    lemma_fence_fold_kept(ls);
    lemma_kept_lines(ls);
    let ks = kept_fold(ls).0;
    assert forall|i: int| 0 <= i < ks.len() implies no_nl(#[trigger] ks[i]) && !ends_cr(ks[i]) by {
        assert(no_nl(ls[i]));
        if !blanked(ls, i) {
            assert(!ends_cr(ls[i]));
        }
        if ks[i].len() == 0 {
            assert(no_nl(ks[i]));
        }
    }
    lemma_line_scan_text(ks);
    assert(strip_crs(ks) =~= ks) by {
        assert forall|i: int| 0 <= i < ks.len() implies strip_crs(ks)[i] == ks[i] by {
            assert(!ends_cr(ks[i]));
        }
    }
    assert(lines(strip_fences(doc)) == ks);
    lemma_fence_fold_plain(ks);
}

/// A code fence is open just before line `i` of `ls`.
pub open spec fn fence_open_before(ls: Seq<Seq<char>>, i: int) -> bool {
    kept_fold(ls.take(i)).1
}

/// Fence stripping blanks line `i`: a fence line, or a line inside an open fence.
pub open spec fn blanked(ls: Seq<Seq<char>>, i: int) -> bool {
    is_fence_line(ls[i]) || fence_open_before(ls, i)
}

proof fn lemma_kept_lines(ls: Seq<Seq<char>>)
    ensures
        kept_fold(ls).0.len() == ls.len(),
        forall|i: int|
            0 <= i < ls.len() ==> #[trigger] kept_fold(ls).0[i] == (if blanked(ls, i) {
                Seq::<char>::empty()
            } else {
                ls[i]
            }),
    decreases ls.len(),
{
    lemma_fence_fold_kept(ls);
    if ls.len() > 0 {
        let init = ls.drop_last();
        lemma_kept_lines(init);
        assert forall|i: int| 0 <= i < ls.len() implies #[trigger] kept_fold(ls).0[i] == (
        if blanked(ls, i) {
            Seq::<char>::empty()
        } else {
            ls[i]
        }) by {
            if i < init.len() {
                assert(ls.take(i) =~= init.take(i));
                assert(kept_fold(ls).0[i] == kept_fold(init).0[i]);
                assert(ls[i] == init[i]);
            } else {
                assert(ls.take(i) =~= init);
            }
        }
    }
}

/// Fence stripping keeps every line: it has as many lines as the text, line `i` is empty
/// where a fence line or a line inside a fence stood and is the text's line otherwise (a
/// final carriage return of that line dropped, as `str::lines` drops it), and the result
/// is empty or ends with a line feed.
pub proof fn lemma_strip_fences_lines(doc: Seq<char>)
    ensures
        lines(strip_fences(doc)).len() == lines(doc).len(),
        forall|i: int|
            0 <= i < lines(doc).len() ==> #[trigger] lines(strip_fences(doc))[i] == (if blanked(
                lines(doc),
                i,
            ) {
                Seq::<char>::empty()
            } else {
                strip_cr(lines(doc)[i])
            }),
        strip_fences(doc).len() == 0 || strip_fences(doc).last() == '\n',
{
    let ls = lines(doc);
    lemma_lines_no_nl(doc);
    lemma_fence_fold_kept(ls);
    lemma_kept_lines(ls);
    let ks = kept_fold(ls).0;
    assert forall|i: int| 0 <= i < ks.len() implies no_nl(#[trigger] ks[i]) by {
        assert(no_nl(ls[i]));
    }
    lemma_line_scan_text(ks);
    assert(lines(strip_fences(doc)) == strip_crs(ks));
    assert forall|i: int| 0 <= i < ls.len() implies #[trigger] lines(strip_fences(doc))[i] == (
    if blanked(ls, i) {
        Seq::<char>::empty()
    } else {
        strip_cr(ls[i])
    }) by {
        assert(strip_crs(ks)[i] == strip_cr(ks[i]));
    }
    if ks.len() > 0 {
        assert(line_text(ks).last() == '\n');
    } else {
        assert(line_text(ks) =~= Seq::<char>::empty());
    }
}

// ---------------------------------------------------------------------------
// Fence-free text: the counts are those of the text itself
// ---------------------------------------------------------------------------

/// One step of the whitespace token scan.
pub open spec fn token_step(st: (Seq<Seq<char>>, Seq<char>), c: char) -> (Seq<Seq<char>>, Seq<char>) {
    let (done, cur) = st;
    if is_ws(c) {
        if cur.len() > 0 {
            (done.push(cur), seq![])
        } else {
            (done, seq![])
        }
    } else {
        (done, cur.push(c))
    }
}

proof fn lemma_token_scan_push(x: Seq<char>, c: char)
    ensures
        token_scan(x.push(c)) == token_step(token_scan(x), c),
{
    assert(x.push(c).drop_last() =~= x);
}

/// Rejoining the lines of `s` (each with a line feed, a carriage return before it dropped)
/// leaves the whitespace tokens unchanged, up to the still open last line.
proof fn lemma_token_scan_rejoined(s: Seq<char>)
    ensures
        token_scan(line_text(line_scan(s).0) + line_scan(s).1) == token_scan(s),
    decreases s.len(),
{
    if s.len() == 0 {
        assert(line_text(line_scan(s).0) + line_scan(s).1 =~= s);
    } else {
        let s0 = s.drop_last();
        let c = s.last();
        lemma_token_scan_rejoined(s0);
        let (d, cur) = line_scan(s0);
        let x = line_text(d) + cur;
        assert(s0.push(c) =~= s);
        lemma_token_scan_push(s0, c);
        if c == '\n' {
            assert(line_text(d.push(strip_cr(cur))) == line_text(d) + strip_cr(cur).push('\n')) by {
                assert(d.push(strip_cr(cur)).drop_last() =~= d);
            }
            if cur.len() > 0 && cur.last() == '\r' {
                let y = line_text(d) + cur.drop_last();
                assert(x =~= y.push('\r'));
                assert(line_text(d) + strip_cr(cur).push('\n') + Seq::<char>::empty() =~= y.push('\n'));
                lemma_token_scan_push(y, '\r');
                lemma_token_scan_push(y, '\n');
                assert(is_ws('\r') && is_ws('\n'));
            } else {
                assert(line_text(d) + strip_cr(cur).push('\n') + Seq::<char>::empty() =~= x.push('\n'));
                lemma_token_scan_push(x, '\n');
            }
        } else {
            assert(line_text(d) + cur.push(c) =~= x.push(c));
            lemma_token_scan_push(x, c);
        }
    }
}

/// The whitespace tokens of a text's lines rejoined with line feeds are the text's.
proof fn lemma_ws_tokens_rejoined(s: Seq<char>)
    ensures
        ws_tokens(line_text(lines(s))) == ws_tokens(s),
{
    lemma_token_scan_rejoined(s);
    let (d, cur) = line_scan(s);
    if cur.len() > 0 {
        assert(line_text(d.push(cur)) == (line_text(d) + cur).push('\n')) by {
            assert(d.push(cur).drop_last() =~= d);
            assert(line_text(d) + cur.push('\n') =~= (line_text(d) + cur).push('\n'));
        }
        lemma_token_scan_push(line_text(d) + cur, '\n');
    } else {
        assert(line_text(d) + cur =~= line_text(d));
    }
}

/// In a text without code fences, the words and statistic tokens counted on the
/// fence-stripped text (as `metrics` counts them) are those of the text itself.
pub proof fn lemma_fence_free_counts(doc: Seq<char>)
    requires
        forall|i: int| 0 <= i < lines(doc).len() ==> !is_fence_line(#[trigger] lines(doc)[i]),
    ensures
        words(strip_fences(doc)) == words(doc),
        stat_tokens(strip_fences(doc)) == stat_tokens(doc),
{
    lemma_fence_fold_plain(lines(doc));
    lemma_ws_tokens_rejoined(doc);
}

/// Fold over lines collecting question/answer pairs: a `Q:` line sets the open question
/// (replacing any earlier one), an `A:` line closes an open question into a pair.
pub open spec fn pairs_fold(ls: Seq<Seq<char>>) -> (Seq<(Seq<char>, Seq<char>)>, Option<Seq<char>>)
    decreases ls.len(),
{
    if ls.len() == 0 {
        (seq![], None)
    } else {
        let (pairs, pending) = pairs_fold(ls.drop_last());
        let t = faq_line_text(ls.last());
        match label_capture(t, 'q', 'Q') {
            Some(q) => (pairs, Some(trim(q))),
            None => match label_capture(t, 'a', 'A') {
                Some(a) => match pending {
                    Some(q) => (pairs.push((q, trim(a))), None),
                    None => (pairs, None),
                },
                None => (pairs, pending),
            },
        }
    }
}

/// The question/answer text pairs of the fence-stripped document.
pub open spec fn faq_pairs(doc: Seq<char>) -> Seq<(Seq<char>, Seq<char>)> {
    pairs_fold(lines(strip_fences(doc))).0
}

/// The question/answer pairs recognized by the same `Q:`/`A:` rules as `faq_metrics`,
/// scanned on the fence-stripped document.
pub fn extract_faq_pairs(doc: &str) -> (r: Vec<(String, String)>)
    ensures
        string_pair_views(r@) == faq_pairs(doc@),
{
    let d = chars_of(doc);
    let s = strip_fence_chars(&d);
    let ls = split_lines(&s);
    let mut pairs: Vec<(String, String)> = Vec::new();
    let mut pending: Option<Vec<char>> = None;
    let mut i: usize = 0;
    while i < ls.len()
        invariant
            i <= ls@.len(),
            views(ls@) == lines(strip_fences(doc@)),
            (string_pair_views(pairs@), match pending {
                Some(q) => Some(q@),
                None => None,
            }) == pairs_fold(views(ls@).take(i as int)),
        decreases ls.len() - i,
    {
        proof {
            lemma_take_step(views(ls@), i as int);
        }
        let t = faq_line_text_v(&ls[i]);
        let ts = string_of(&t);
        let qcap = if label_prefix_v(&t, 'q', 'Q') {
            question_label_capture(ts.as_str())
        } else {
            None
        };
        match qcap {
            Some(q) => {
                let qc = chars_of(q.as_str());
                pending = Some(trim_v(&qc));
            },
            None => {
                let acap = if label_prefix_v(&t, 'a', 'A') {
                    answer_label_capture(ts.as_str())
                } else {
                    None
                };
                match acap {
                    Some(a) => {
                        match pending {
                            Some(q) => {
                                let ac = chars_of(a.as_str());
                                let at = trim_v(&ac);
                                let p = (string_of(&q), string_of(&at));
                                let ghost old_pairs = string_pair_views(pairs@);
                                pairs.push(p);
                                assert(string_pair_views(pairs@) =~= old_pairs.push((q@, at@)));
                            },
                            None => {},
                        }
                        pending = None;
                    },
                    None => {},
                }
            },
        }
        i = i + 1;
    }
    assert(views(ls@).take(i as int) =~= views(ls@));
    pairs
}

// ---------------------------------------------------------------------------
// Fenced blocks, JSON-LD and llms.txt extraction
// ---------------------------------------------------------------------------

/// Scan state: blocks found, collecting a matching fence, inside another fence, the
/// content of the block being collected.
pub open spec fn fenced_fold(ls: Seq<Seq<char>>, tag: Seq<char>) -> (
    Seq<Seq<char>>,
    bool,
    bool,
    Seq<char>,
)
    decreases ls.len(),
{
    if ls.len() == 0 {
        (seq![], false, false, seq![])
    } else {
        let (blocks, collecting, in_other, current) = fenced_fold(ls.drop_last(), tag);
        let line = ls.last();
        let t = trim_start(line);
        if !collecting && !in_other {
            if starts_with(t, fence_marker()) {
                if trim(t.skip(3)) == tag {
                    (blocks, true, false, seq![])
                } else {
                    (blocks, false, true, current)
                }
            } else {
                (blocks, collecting, in_other, current)
            }
        } else if starts_with(t, fence_marker()) {
            if collecting {
                (blocks.push(current), false, false, seq![])
            } else {
                (blocks, false, false, current)
            }
        } else if collecting {
            (blocks, collecting, in_other, current + line.push('\n'))
        } else {
            (blocks, collecting, in_other, current)
        }
    }
}

/// Contents of the closed code fences whose language tag is exactly `tag`; fence
/// boundaries are lines starting (after whitespace) with three backticks.
pub open spec fn fenced_blocks(doc: Seq<char>, tag: Seq<char>) -> Seq<Seq<char>> {
    fenced_fold(lines(doc), tag).0
}

pub fn seq_eq_v(a: &[char], b: &[char]) -> (r: bool)
    ensures
        r == (a@ == b@),
{
    if a.len() != b.len() {
        return false;
    }
    let mut i: usize = 0;
    while i < a.len()
        invariant
            a@.len() == b@.len(),
            i <= a@.len(),
            forall|j: int| 0 <= j < i ==> a@[j] == b@[j],
        decreases a.len() - i,
    {
        if a[i] != b[i] {
            return false;
        }
        i = i + 1;
    }
    assert(a@ =~= b@);
    true
}

pub fn extract_fenced_blocks(doc: &[char], tag: &[char]) -> (r: Vec<Vec<char>>)
    ensures
        views(r@) == fenced_blocks(doc@, tag@),
{
    let ls = split_lines(doc);
    let fence = fence_v();
    let mut blocks: Vec<Vec<char>> = Vec::new();
    let mut collecting = false;
    let mut in_other = false;
    let mut current: Vec<char> = Vec::new();
    let mut i: usize = 0;
    while i < ls.len()
        invariant
            i <= ls@.len(),
            fence@ == fence_marker(),
            (views(blocks@), collecting, in_other, current@) == fenced_fold(
                views(ls@).take(i as int),
                tag@,
            ),
        decreases ls.len() - i,
    {
        proof {
            lemma_take_step(views(ls@), i as int);
        }
        let line = &ls[i];
        let t = trim_start_v(line);
        let is_fence = starts_with_v(&t, &fence);
        if !collecting && !in_other {
            if is_fence {
                let after = slice_vec(&t, 3, t.len());
                let at = trim_v(&after);
                if seq_eq_v(&at, tag) {
                    collecting = true;
                    current = Vec::new();
                    assert(current@ =~= seq![]);
                } else {
                    in_other = true;
                }
            }
        } else if is_fence {
            if collecting {
                let ghost old_blocks = views(blocks@);
                let done = current;
                blocks.push(done);
                assert(views(blocks@) =~= old_blocks.push(done@));
                current = Vec::new();
                assert(current@ =~= seq![]);
            }
            collecting = false;
            in_other = false;
        } else if collecting {
            extend_chars(&mut current, line);
            current.push('\n');
        }
        i = i + 1;
    }
    assert(views(ls@).take(i as int) =~= views(ls@));
    blocks
}

/// JSON-LD candidate texts: ```` ```json ```` fence contents, then the contents of
/// `<script type="application/ld+json">` blocks.
pub open spec fn jsonld_blocks(doc: Seq<char>) -> Seq<Seq<char>> {
    fenced_blocks(doc, "json"@) + script_blocks(doc)
}

/// Extracts JSON-LD candidate text from ```` ```json ```` code blocks and
/// `<script type="application/ld+json">` blocks.
pub fn extract_jsonld_blocks(doc: &str) -> (r: Vec<String>)
    ensures
        string_views(r@) == jsonld_blocks(doc@),
{
    let d = chars_of(doc);
    let tag = chars_of("json");
    let fenced = extract_fenced_blocks(&d, &tag);
    let mut r = strings_of(&fenced);
    let mut scripts = script_ld_json_contents(doc);
    let ghost a = string_views(r@);
    let ghost b = string_views(scripts@);
    r.append(&mut scripts);
    assert(string_views(r@) =~= a + b);
    r
}

/// The content of the first ```` ```llms.txt ```` code block.
pub open spec fn llms_txt_snippet(doc: Seq<char>) -> Option<Seq<char>> {
    let bs = fenced_blocks(doc, "llms.txt"@);
    if bs.len() > 0 {
        Some(bs[0])
    } else {
        None
    }
}

/// Extracts a ```` ```llms.txt ```` code block.
pub fn extract_llms_txt_snippet(doc: &str) -> (r: Option<String>)
    ensures
        opt_string_view(r) == llms_txt_snippet(doc@),
{
    let d = chars_of(doc);
    let tag = chars_of("llms.txt");
    let bs = extract_fenced_blocks(&d, &tag);
    if bs.len() > 0 {
        Some(string_of(&bs[0]))
    } else {
        None
    }
}

// ---------------------------------------------------------------------------
// llms.txt validation
// ---------------------------------------------------------------------------

/// The first line whose trimmed text is non-empty.
pub open spec fn first_nonblank(ls: Seq<Seq<char>>) -> Option<Seq<char>>
    decreases ls.len(),
{
    if ls.len() == 0 {
        None
    } else if trim(ls[0]).len() > 0 {
        Some(ls[0])
    } else {
        first_nonblank(ls.drop_first())
    }
}

/// Some line starts (after whitespace) with `> `.
pub open spec fn has_blockquote(ls: Seq<Seq<char>>) -> bool {
    exists|i: int| 0 <= i < ls.len() && starts_with(trim_start(#[trigger] ls[i]), "> "@)
}

pub open spec fn llms_h1_msg() -> Seq<char> {
    "llms.txt: H1('# ') is not the first line"@
}

pub open spec fn llms_empty_msg() -> Seq<char> {
    "llms.txt: no content"@
}

pub open spec fn llms_quote_msg() -> Seq<char> {
    "llms.txt: missing '> ' summary blockquote"@
}

pub open spec fn llms_link_msg() -> Seq<char> {
    "llms.txt: missing markdown link list"@
}

pub open spec fn llms_short_msg(wc: nat) -> Seq<char> {
    "llms.txt: content too short ("@ + decimal(wc) + " words)"@
}

/// The required-element issues of an llms.txt snippet: its first non-empty line is an
/// H1 (`# `), it has a `> ` summary line, a markdown link, and at least 20 words.
pub open spec fn llms_issues(snippet: Seq<char>) -> Seq<Seq<char>> {
    let ls = lines(snippet);
    match first_nonblank(ls) {
        None => seq![llms_empty_msg()],
        Some(first) => {
            let i1: Seq<Seq<char>> = if starts_with(trim_start(first), "# "@) {
                seq![]
            } else {
                seq![llms_h1_msg()]
            };
            let i2: Seq<Seq<char>> = if has_blockquote(ls) {
                seq![]
            } else {
                seq![llms_quote_msg()]
            };
            let i3: Seq<Seq<char>> = if link_count(snippet) > 0 {
                seq![]
            } else {
                seq![llms_link_msg()]
            };
            let i4: Seq<Seq<char>> = if words(snippet) < 20 {
                seq![llms_short_msg(words(snippet))]
            } else {
                seq![]
            };
            i1 + i2 + i3 + i4
        },
    }
}

pub fn first_nonblank_v(ls: &Vec<Vec<char>>) -> (r: Option<usize>)
    ensures
        match r {
            Some(i) => i < ls@.len() && first_nonblank(views(ls@)) == Some(views(ls@)[i as int]),
            None => first_nonblank(views(ls@)) is None,
        },
{
    let mut i: usize = 0;
    assert(views(ls@).skip(0) =~= views(ls@));
    while i < ls.len()
        invariant
            i <= ls@.len(),
            first_nonblank(views(ls@)) == first_nonblank(views(ls@).skip(i as int)),
        decreases ls.len() - i,
    {
        let t = trim_v(&ls[i]);
        let ghost rest = views(ls@).skip(i as int);
        assert(rest[0] == views(ls@)[i as int]);
        if t.len() > 0 {
            return Some(i);
        }
        assert(rest.drop_first() =~= views(ls@).skip(i + 1));
        i = i + 1;
    }
    assert(views(ls@).skip(i as int) =~= seq![]);
    None
}

/// Appends one issue message (given as characters) to `issues`.
pub fn push_issue(issues: &mut Vec<String>, m: &[char])
    ensures
        string_views(final(issues)@) == string_views(old(issues)@).push(m@),
{
    let s = string_of(m);
    issues.push(s);
    assert(string_views(issues@) =~= string_views(old(issues)@).push(m@));
}

/// Appends one issue message (given as a literal) to `issues`.
pub fn push_issue_str(issues: &mut Vec<String>, m: &str)
    ensures
        string_views(final(issues)@) == string_views(old(issues)@).push(m@),
{
    let c = chars_of(m);
    push_issue(issues, &c);
}

/// Some line of `ls` is non-blank.
pub open spec fn has_nonblank_line(ls: Seq<Seq<char>>) -> bool {
    exists|i: int| 0 <= i < ls.len() && trim(#[trigger] ls[i]).len() > 0
}

proof fn lemma_first_nonblank_some(ls: Seq<Seq<char>>)
    ensures
        has_nonblank_line(ls) <==> first_nonblank(ls) is Some,
    decreases ls.len(),
{
    if ls.len() > 0 {
        let t = ls.drop_first();
        lemma_first_nonblank_some(t);
        if has_nonblank_line(ls) && trim(ls[0]).len() == 0 {
            let i = choose|i: int| 0 <= i < ls.len() && trim(#[trigger] ls[i]).len() > 0;
            assert(t[i - 1] == ls[i]);
        }
        if has_nonblank_line(t) {
            let i = choose|i: int| 0 <= i < t.len() && trim(#[trigger] t[i]).len() > 0;
            assert(ls[i + 1] == t[i]);
        }
    }
}

/// For a snippet with a non-blank line, the missing-summary issue is reported exactly when
/// no line starts, after leading whitespace, with `> `; the other issues are never that one.
pub proof fn lemma_llms_summary_issue(snippet: Seq<char>)
    requires
        has_nonblank_line(lines(snippet)),
    ensures
        llms_issues(snippet).contains(llms_quote_msg()) <==> !(exists|i: int|
            0 <= i < lines(snippet).len() && starts_with(
                trim_start(#[trigger] lines(snippet)[i]),
                "> "@,
            )),
{
    reveal_strlit("llms.txt: H1('# ') is not the first line");
    reveal_strlit("llms.txt: missing '> ' summary blockquote");
    reveal_strlit("llms.txt: missing markdown link list");
    reveal_strlit("llms.txt: content too short (");
    lemma_first_nonblank_some(lines(snippet));
    let q = llms_quote_msg();
    assert(llms_h1_msg()[10] != q[10]);
    assert(llms_link_msg()[18] != q[18]);
    let wc = words(snippet);
    assert(llms_short_msg(wc)[10] != q[10]) by {
        assert(llms_short_msg(wc)[10] == "llms.txt: content too short ("@[10]);
    }
    let ls = lines(snippet);
    let first = first_nonblank(ls)->Some_0;
    let i1: Seq<Seq<char>> = if starts_with(trim_start(first), "# "@) {
        seq![]
    } else {
        seq![llms_h1_msg()]
    };
    let i2: Seq<Seq<char>> = if has_blockquote(ls) {
        seq![]
    } else {
        seq![q]
    };
    let i3: Seq<Seq<char>> = if link_count(snippet) > 0 {
        seq![]
    } else {
        seq![llms_link_msg()]
    };
    let i4: Seq<Seq<char>> = if wc < 20 {
        seq![llms_short_msg(wc)]
    } else {
        seq![]
    };
    let all = i1 + i2 + i3 + i4;
    assert(llms_issues(snippet) == all);
    if all.contains(q) {
        let k = choose|k: int| 0 <= k < all.len() && all[k] == q;
        if !has_blockquote(ls) {
        } else {
            assert(all =~= i1 + i3 + i4);
            assert(all[k] != q) by {
                if k < i1.len() {
                    assert(all[k] == llms_h1_msg());
                } else if k < i1.len() + i3.len() {
                    assert(all[k] == llms_link_msg());
                } else {
                    assert(all[k] == llms_short_msg(wc));
                }
            }
        }
    }
    if !has_blockquote(ls) {
        assert(all[i1.len() as int] == q);
    }
}



/// Validates the required elements of an llms.txt snippet.
pub fn llms_txt_issues(snippet: &str) -> (r: Vec<String>)
    ensures
        string_views(r@) == llms_issues(snippet@),
{
    let d = chars_of(snippet);
    let ls = split_lines(&d);
    let mut issues: Vec<String> = Vec::new();
    let first = first_nonblank_v(&ls);
    match first {
        None => {
            push_issue_str(&mut issues, "llms.txt: no content");
            assert(string_views(issues@) =~= seq![llms_empty_msg()]);
            return issues;
        },
        Some(fi) => {
            let t = trim_start_v(&ls[fi]);
            let h1 = chars_of("# ");
            if !starts_with_v(&t, &h1) {
                push_issue_str(&mut issues, "llms.txt: H1('# ') is not the first line");
            }
        },
    }
    let ghost s1 = string_views(issues@);
    let q = chars_of("> ");
    let mut found = false;
    let mut i: usize = 0;
    while i < ls.len() && !found
        invariant
            i <= ls@.len(),
            q@ == "> "@,
            !found ==> forall|j: int| 0 <= j < i ==> !starts_with(trim_start(#[trigger] views(ls@)[j]), "> "@),
            found ==> 0 < i && starts_with(trim_start(views(ls@)[i - 1]), "> "@),
        decreases ls.len() - i,
    {
        let t = trim_start_v(&ls[i]);
        if starts_with_v(&t, &q) {
            found = true;
        }
        i = i + 1;
    }
    proof {
        if found {
            assert(0 <= i - 1 < views(ls@).len() && starts_with(trim_start(views(ls@)[i - 1]), "> "@));
        }
    }
    if !found {
        push_issue_str(&mut issues, "llms.txt: missing '> ' summary blockquote");
    }
    let ghost s2 = string_views(issues@);
    if count_link_matches(snippet) == 0 {
        push_issue_str(&mut issues, "llms.txt: missing markdown link list");
    }
    let ghost s3 = string_views(issues@);
    let wc = token_counts(&d).0;
    if wc < 20 {
        let mut m: Vec<char> = Vec::new();
        extend_str(&mut m, "llms.txt: content too short (");
        let n = decimal_v(wc);
        extend_chars(&mut m, &n);
        extend_str(&mut m, " words)");
        push_issue(&mut issues, &m);
    }
    assert(string_views(issues@) =~= llms_issues(snippet@));
    issues
}

// ---------------------------------------------------------------------------
// Metrics
// ---------------------------------------------------------------------------

/// Deterministic counts of a document.
#[derive(Clone, Debug)]
pub struct Metrics {
    pub words: usize,
    pub chars: usize,
    /// Number of tokens containing digits (approximation of stats/figures).
    pub stat_tokens: usize,
    /// Number of markdown `[text](url)` links.
    pub source_links: usize,
    /// Number of FAQ Q&A pairs detected via the "Q:"/"A:" pattern.
    pub faq_qa_count: usize,
    /// Whether an explicit FAQ heading is present.
    pub has_faq_heading: bool,
    /// Number of syntactically valid JSON-LD blocks.
    pub jsonld_blocks: usize,
    /// All `@type` values found in JSON-LD, ascending, each once.
    pub jsonld_types: Vec<String>,
}

/// Number of blocks that parsed.
pub open spec fn ok_count(ps: Seq<Result<Json, Seq<char>>>) -> nat
    decreases ps.len(),
{
    if ps.len() == 0 {
        0
    } else {
        ok_count(ps.drop_last()) + if ps.last() is Ok {
            1nat
        } else {
            0nat
        }
    }
}

/// The `@type` values of all blocks that parsed.
pub open spec fn ok_types(ps: Seq<Result<Json, Seq<char>>>) -> Set<Seq<char>>
    decreases ps.len(),
{
    if ps.len() == 0 {
        Set::empty()
    } else {
        ok_types(ps.drop_last()).union(
            match ps.last() {
                Ok(v) => types_of(v, 0),
                Err(_) => Set::empty(),
            },
        )
    }
}

/// The parse results of the document's JSON-LD candidate blocks.
pub open spec fn parsed_blocks(doc: Seq<char>) -> Seq<Result<Json, Seq<char>>> {
    jsonld_blocks(doc).map_values(|b: Seq<char>| parsed_json(b))
}

/// `m` holds the metrics of `doc` whose JSON-LD blocks parsed as `ps`: the word, statistic,
/// link and FAQ counts of the fence-stripped text, the character count of the whole text,
/// the number of blocks that parsed and the ascending set of their `@type` values.
pub open spec fn metrics_of(m: Metrics, doc: Seq<char>, ps: Seq<Result<Json, Seq<char>>>) -> bool {
    let scan = strip_fences(doc);
    &&& m.words == words(scan)
    &&& m.chars == doc.len()
    &&& m.stat_tokens == stat_tokens(scan)
    &&& m.source_links == link_count(scan)
    &&& m.faq_qa_count == faq_metrics_spec(scan).1
    &&& m.has_faq_heading == faq_metrics_spec(scan).0
    &&& m.jsonld_blocks == ok_count(ps)
    &&& sorted_strict(string_views(m.jsonld_types@))
    &&& string_views(m.jsonld_types@).to_set() == ok_types(ps)
}

pub proof fn lemma_ok_count_bound(ps: Seq<Result<Json, Seq<char>>>)
    ensures
        ok_count(ps) <= ps.len(),
    decreases ps.len(),
{
    if ps.len() > 0 {
        lemma_ok_count_bound(ps.drop_last());
    }
}

/// The metrics of `doc`, given the parse results of its JSON-LD candidate blocks.
pub fn metrics_with(doc: &str, parsed: &Vec<Result<Json, String>>) -> (m: Metrics)
    ensures
        metrics_of(m, doc@, parse_views(parsed@)),
{
    let d = chars_of(doc);
    let scan = strip_fence_chars(&d);
    let (words_n, stats_n) = token_counts(&scan);
    let scan_s = string_of(&scan);
    let links = count_link_matches(scan_s.as_str());
    let (has_faq, qa) = faq_metrics_chars(&scan);
    let ghost ps = parse_views(parsed@);
    let mut types: Vec<String> = Vec::new();
    let mut valid: usize = 0;
    let mut i: usize = 0;
    while i < parsed.len()
        invariant
            i <= parsed@.len(),
            ps == parse_views(parsed@),
            valid == ok_count(ps.take(i as int)),
            valid <= i,
            sorted_strict(string_views(types@)),
            string_views(types@).to_set() == ok_types(ps.take(i as int)),
        decreases parsed.len() - i,
    {
        proof {
            lemma_take_step(ps, i as int);
        }
        match &parsed[i] {
            Ok(v) => {
                valid = valid + 1;
                collect_types(v, &mut types);
            },
            Err(_) => {},
        }
        assert(string_views(types@).to_set() =~= ok_types(ps.take(i + 1)));
        i = i + 1;
    }
    assert(ps.take(i as int) =~= ps);
    Metrics {
        words: words_n,
        chars: d.len(),
        stat_tokens: stats_n,
        source_links: links,
        faq_qa_count: qa,
        has_faq_heading: has_faq,
        jsonld_blocks: valid,
        jsonld_types: types,
    }
}

/// Parses every JSON-LD candidate block of the document.
pub fn parse_blocks(doc: &str) -> (r: Vec<Result<Json, String>>)
    ensures
        parse_views(r@) == parsed_blocks(doc@),
{
    let blocks = extract_jsonld_blocks(doc);
    let mut r: Vec<Result<Json, String>> = Vec::new();
    let mut i: usize = 0;
    while i < blocks.len()
        invariant
            i <= blocks@.len(),
            string_views(blocks@) == jsonld_blocks(doc@),
            parse_views(r@) == parsed_blocks(doc@).take(i as int),
        decreases blocks.len() - i,
    {
        let p = parse_json_text(blocks[i].as_str());
        let ghost old_r = parse_views(r@);
        r.push(p);
        assert(parse_views(r@) =~= old_r.push(parse_view(p)));
        assert(parsed_blocks(doc@).take(i + 1) =~= parsed_blocks(doc@).take(i as int).push(
            parsed_json(blocks@[i as int]@),
        ));
        i = i + 1;
    }
    assert(parsed_blocks(doc@).take(i as int) =~= parsed_blocks(doc@));
    r
}

/// Word, character, statistic, link, FAQ and JSON-LD counts of a document; everything but
/// the character count and the JSON-LD scan ignores the inside of code fences.
pub fn metrics(doc: &str) -> (m: Metrics)
    ensures
        metrics_of(m, doc@, parsed_blocks(doc@)),
{
    let parsed = parse_blocks(doc);
    metrics_with(doc, &parsed)
}

// ---------------------------------------------------------------------------
// Section presence and length
// ---------------------------------------------------------------------------

/// The characters of `s` that are not whitespace.
pub open spec fn drop_ws(s: Seq<char>) -> Seq<char>
    decreases s.len(),
{
    if s.len() == 0 {
        seq![]
    } else if is_ws(s.last()) {
        drop_ws(s.drop_last())
    } else {
        drop_ws(s.drop_last()).push(s.last())
    }
}

/// Heading/title normalization for fuzzy matching: whitespace removed, lower-cased.
pub open spec fn norm(s: Seq<char>) -> Seq<char> {
    lowercase(drop_ws(s))
}

pub fn norm_v(s: &[char]) -> (r: Vec<char>)
    ensures
        r@ == norm(s@),
{
    let f = drop_whitespace(s);
    let fs = string_of(&f);
    let low = to_lowercase(fs.as_str());
    chars_of(low.as_str())
}

/// The characters of `s` that are not whitespace, in order.
pub fn drop_whitespace(s: &[char]) -> (r: Vec<char>)
    ensures
        r@ == drop_ws(s@),
{
    let mut f: Vec<char> = Vec::new();
    let mut i: usize = 0;
    while i < s.len()
        invariant
            i <= s@.len(),
            f@ == drop_ws(s@.take(i as int)),
        decreases s.len() - i,
    {
        proof {
            lemma_take_step(s@, i as int);
        }
        if !is_whitespace(s[i]) {
            f.push(s[i]);
        }
        i = i + 1;
    }
    assert(s@.take(i as int) =~= s@);
    f
}

/// Two normalized texts hit each other: one contains the other.
pub open spec fn normalized_hit(h: Seq<char>, want: Seq<char>) -> bool {
    contains(h, want) || contains(want, h)
}

/// A normalized heading matches a normalized title when it is non-empty and one contains
/// the other.
pub open spec fn heading_matches(h: Seq<char>, want: Seq<char>) -> bool {
    h.len() > 0 && normalized_hit(h, want)
}

/// Whether two already normalized (whitespace-free, lower-cased) texts hit each other.
pub fn normalized_hit_v(h: &[char], want: &[char]) -> (b: bool)
    ensures
        b == normalized_hit(h@, want@),
{
    contains_v(h, want) || contains_v(want, h)
}

/// The normalized section headings of the fence-stripped document.
pub open spec fn normed_heads(doc: Seq<char>) -> Seq<Seq<char>> {
    sections_in(lines(strip_fences(doc))).map_values(|p: (Seq<char>, Seq<char>)| norm(p.0))
}

/// A required section whose title no heading matches.
pub open spec fn section_missing(s: Section, heads: Seq<Seq<char>>) -> bool {
    s.required && !(exists|i: int|
        0 <= i < heads.len() && heading_matches(#[trigger] heads[i], norm(s.title@)))
}

/// Titles of the missing sections among `ss`, in order.
pub open spec fn missing_titles(ss: Seq<Section>, heads: Seq<Seq<char>>) -> Seq<Seq<char>>
    decreases ss.len(),
{
    if ss.len() == 0 {
        seq![]
    } else {
        let rest = missing_titles(ss.drop_last(), heads);
        if section_missing(ss.last(), heads) {
            rest.push(ss.last().title@)
        } else {
            rest
        }
    }
}

/// The titles of the required sections no heading of the document matches.
pub open spec fn missing_sections_spec(spec: Spec, doc: Seq<char>) -> Seq<Seq<char>> {
    missing_titles(spec.sections@, normed_heads(doc))
}

fn normed_heads_v(doc: &[char]) -> (r: Vec<Vec<char>>)
    ensures
        views(r@) == normed_heads(doc@),
{
    let s = strip_fence_chars(doc);
    let ls = split_lines(&s);
    let secs = sections_of_lines(&ls);
    let ghost ps = pair_views(secs@);
    let mut r: Vec<Vec<char>> = Vec::new();
    let mut i: usize = 0;
    while i < secs.len()
        invariant
            i <= secs@.len(),
            ps == pair_views(secs@),
            ps == sections_in(lines(strip_fences(doc@))),
            views(r@) == ps.map_values(|p: (Seq<char>, Seq<char>)| norm(p.0)).take(i as int),
        decreases secs.len() - i,
    {
        let n = norm_v(&secs[i].0);
        let ghost old_r = views(r@);
        r.push(n);
        assert(views(r@) =~= old_r.push(n@));
        assert(ps.map_values(|p: (Seq<char>, Seq<char>)| norm(p.0)).take(i + 1) =~= ps.map_values(
            |p: (Seq<char>, Seq<char>)| norm(p.0),
        ).take(i as int).push(norm(ps[i as int].0)));
        i = i + 1;
    }
    assert(ps.map_values(|p: (Seq<char>, Seq<char>)| norm(p.0)).take(i as int) =~= ps.map_values(
        |p: (Seq<char>, Seq<char>)| norm(p.0),
    ));
    r
}

/// Whether some already normalized heading matches the already normalized title `want`.
pub fn any_heading_matches(heads: &Vec<Vec<char>>, want: &[char]) -> (b: bool)
    ensures
        b == exists|i: int|
            0 <= i < heads@.len() && heading_matches(#[trigger] views(heads@)[i], want@),
{
    let mut i: usize = 0;
    while i < heads.len()
        invariant
            i <= heads@.len(),
            forall|j: int| 0 <= j < i ==> !heading_matches(#[trigger] views(heads@)[j], want@),
        decreases heads.len() - i,
    {
        let h = &heads[i];
        if h.len() > 0 && normalized_hit_v(h, want) {
            assert(heading_matches(views(heads@)[i as int], want@));
            return true;
        }
        i = i + 1;
    }
    false
}

/// Titles of the required sections that no heading (outside code fences) matches: headings
/// and titles are compared with whitespace removed and case ignored, either containing the
/// other.
pub fn missing_sections(spec: &Spec, doc: &str) -> (r: Vec<String>)
    ensures
        string_views(r@) == missing_sections_spec(*spec, doc@),
{
    let d = chars_of(doc);
    let heads = normed_heads_v(&d);
    let mut r: Vec<String> = Vec::new();
    let mut i: usize = 0;
    while i < spec.sections.len()
        invariant
            i <= spec.sections@.len(),
            views(heads@) == normed_heads(doc@),
            string_views(r@) == missing_titles(spec.sections@.take(i as int), views(heads@)),
        decreases spec.sections.len() - i,
    {
        proof {
            lemma_take_step(spec.sections@, i as int);
        }
        let s = &spec.sections[i];
        let tc = chars_of(s.title.as_str());
        let want = norm_v(&tc);
        if s.required && !any_heading_matches(&heads, &want) {
            let ghost old_r = string_views(r@);
            r.push(s.title.clone());
            assert(string_views(r@) =~= old_r.push(s.title@));
        }
        i = i + 1;
    }
    assert(spec.sections@.take(i as int) =~= spec.sections@);
    r
}

/// Some non-empty normalized heading of `doc` contains the normalized `title` or is
/// contained in it.
pub open spec fn title_found(doc: Seq<char>, title: Seq<char>) -> bool {
    exists|k: int|
        0 <= k < normed_heads(doc).len() && (#[trigger] normed_heads(doc)[k]).len() > 0 && (
        contains(normed_heads(doc)[k], norm(title)) || contains(norm(title), normed_heads(doc)[k]))
}

/// `t` is the title of a required section among `ss` that the document's headings do not
/// match.
pub open spec fn required_unmatched_title(ss: Seq<Section>, doc: Seq<char>, t: Seq<char>) -> bool {
    exists|i: int|
        0 <= i < ss.len() && (#[trigger] ss[i]).required && ss[i].title@ == t && !title_found(
            doc,
            t,
        )
}

proof fn lemma_missing_titles_members(ss: Seq<Section>, doc: Seq<char>)
    ensures
        forall|k: int|
            0 <= k < missing_titles(ss, normed_heads(doc)).len() ==> required_unmatched_title(
                ss,
                doc,
                #[trigger] missing_titles(ss, normed_heads(doc))[k],
            ),
        forall|i: int|
            0 <= i < ss.len() && (#[trigger] ss[i]).required && !title_found(doc, ss[i].title@)
                ==> missing_titles(ss, normed_heads(doc)).contains(ss[i].title@),
    decreases ss.len(),
{
    let heads = normed_heads(doc);
    if ss.len() > 0 {
        let init = ss.drop_last();
        lemma_missing_titles_members(init, doc);
        let rest = missing_titles(init, heads);
        let m = missing_titles(ss, heads);
        let last = ss.last();
        assert(section_missing(last, heads) <==> last.required && !title_found(doc, last.title@)) by {
            if title_found(doc, last.title@) {
                let k = choose|k: int|
                    0 <= k < heads.len() && (#[trigger] heads[k]).len() > 0 && (contains(
                        heads[k],
                        norm(last.title@),
                    ) || contains(norm(last.title@), heads[k]));
                assert(heading_matches(heads[k], norm(last.title@)));
            }
            if exists|i: int|
                0 <= i < heads.len() && heading_matches(#[trigger] heads[i], norm(last.title@)) {
                let k = choose|k: int|
                    0 <= k < heads.len() && heading_matches(#[trigger] heads[k], norm(last.title@));
                assert(heads[k].len() > 0);
            }
        }
        assert forall|k: int| 0 <= k < m.len() implies required_unmatched_title(
            ss,
            doc,
            #[trigger] m[k],
        ) by {
            if k < rest.len() {
                assert(m[k] == rest[k]);
                assert(required_unmatched_title(init, doc, rest[k]));
                let i = choose|i: int|
                    0 <= i < init.len() && (#[trigger] init[i]).required && init[i].title@ == rest[k]
                        && !title_found(doc, rest[k]);
                assert(ss[i] == init[i]);
            } else {
                assert(ss[ss.len() - 1] == last);
                assert(m[k] == last.title@);
            }
        }
        assert forall|i: int|
            0 <= i < ss.len() && (#[trigger] ss[i]).required && !title_found(doc, ss[i].title@)
            implies m.contains(ss[i].title@) by {
            if i < init.len() {
                assert(ss[i] == init[i]);
                assert(rest.contains(ss[i].title@));
                let j = choose|j: int| 0 <= j < rest.len() && rest[j] == ss[i].title@;
                assert(m[j] == rest[j]);
            } else {
                assert(m[m.len() - 1] == last.title@);
            }
        }
    } else {
        assert(missing_titles(ss, heads).len() == 0);
    }
}

/// Only required sections can be missing: every title reported by `missing_sections` is the
/// title of a required section that no non-empty normalized heading of the document
/// contains or is contained in, and every such required section is reported.
pub proof fn lemma_missing_sections_are_required_unmatched(spec: Spec, doc: Seq<char>)
    ensures
        forall|k: int|
            0 <= k < missing_sections_spec(spec, doc).len() ==> required_unmatched_title(
                spec.sections@,
                doc,
                #[trigger] missing_sections_spec(spec, doc)[k],
            ),
        forall|i: int|
            0 <= i < spec.sections@.len() && (#[trigger] spec.sections@[i]).required
                && !title_found(doc, spec.sections@[i].title@) ==> missing_sections_spec(
                spec,
                doc,
            ).contains(spec.sections@[i].title@),
{
    lemma_missing_titles_members(spec.sections@, doc);
}

// ---------------------------------------------------------------------------
// Issue groups
// ---------------------------------------------------------------------------

pub open spec fn no_answer_msg() -> Seq<char> {
    "No direct-answer sentence in the first paragraph → place a direct answer to the key question as the opening sentence"@
}

pub open spec fn long_answer_msg(wc: nat, max: nat) -> Seq<char> {
    "First paragraph is "@ + decimal(wc) + " words, exceeding the target of "@ + decimal(max)
        + " words → tighten the first sentence into a more concise direct answer"@
}

pub open spec fn short_answer_msg(wc: nat) -> Seq<char> {
    "First paragraph is only "@ + decimal(wc)
        + " words, too short → strengthen it into a complete direct-answer sentence for the question"@
}

/// When a direct answer is required: the first paragraph must be non-blank and have between
/// 8 and `max_words` words.
pub open spec fn answer_summary_spec(spec: Spec, doc: Seq<char>) -> Seq<Seq<char>> {
    if !spec.answer_summary.required {
        seq![]
    } else {
        let para = first_paragraph_spec(doc);
        let wc = words(para);
        if trim(para).len() == 0 {
            seq![no_answer_msg()]
        } else if wc > spec.answer_summary.max_words {
            seq![long_answer_msg(wc, spec.answer_summary.max_words as nat)]
        } else if wc < 8 {
            seq![short_answer_msg(wc)]
        } else {
            seq![]
        }
    }
}

/// Issues of the opening paragraph (direct-answer presence and length).
pub fn answer_summary_issues(spec: &Spec, doc: &str) -> (r: Vec<String>)
    ensures
        string_views(r@) == answer_summary_spec(*spec, doc@),
{
    let mut issues: Vec<String> = Vec::new();
    if !spec.answer_summary.required {
        assert(string_views(issues@) =~= seq![]);
        return issues;
    }
    let para = first_paragraph(doc);
    let pc = chars_of(para.as_str());
    let wc = token_counts(&pc).0;
    let tp = trim_v(&pc);
    if tp.len() == 0 {
        push_issue_str(
            &mut issues,
            "No direct-answer sentence in the first paragraph → place a direct answer to the key question as the opening sentence",
        );
    } else if wc > spec.answer_summary.max_words {
        let mut m: Vec<char> = Vec::new();
        extend_str(&mut m, "First paragraph is ");
        let a = decimal_v(wc);
        extend_chars(&mut m, &a);
        extend_str(&mut m, " words, exceeding the target of ");
        let b = decimal_v(spec.answer_summary.max_words);
        extend_chars(&mut m, &b);
        extend_str(
            &mut m,
            " words → tighten the first sentence into a more concise direct answer",
        );
        push_issue(&mut issues, &m);
    } else if wc < 8 {
        let mut m: Vec<char> = Vec::new();
        extend_str(&mut m, "First paragraph is only ");
        let a = decimal_v(wc);
        extend_chars(&mut m, &a);
        extend_str(
            &mut m,
            " words, too short → strengthen it into a complete direct-answer sentence for the question",
        );
        push_issue(&mut issues, &m);
    }
    assert(string_views(issues@) =~= answer_summary_spec(*spec, doc@));
    issues
}

pub open spec fn few_stats_msg(n: nat, min: nat) -> Seq<char> {
    decimal(n) + " stat/figure tokens → at least "@ + decimal(min) + " required"@
}

pub open spec fn no_sources_msg() -> Seq<char> {
    "No sources (markdown links) → add supporting evidence for stats/claims in [source](URL) form"@
}

/// Too few statistic tokens; no source link when sources are required.
pub open spec fn statistics_spec(spec: Spec, stat_tokens: nat, source_links: nat) -> Seq<Seq<char>> {
    (if stat_tokens < spec.statistics.min_count {
        seq![few_stats_msg(stat_tokens, spec.statistics.min_count as nat)]
    } else {
        seq![]
    }) + (if spec.statistics.require_sourced && source_links == 0 {
        seq![no_sources_msg()]
    } else {
        seq![]
    })
}

/// Statistic-count and sourcing issues of a document's metrics.
pub fn statistics_issues(spec: &Spec, m: &Metrics) -> (r: Vec<String>)
    ensures
        string_views(r@) == statistics_spec(*spec, m.stat_tokens as nat, m.source_links as nat),
{
    let mut issues: Vec<String> = Vec::new();
    if m.stat_tokens < spec.statistics.min_count {
        let mut s: Vec<char> = Vec::new();
        let a = decimal_v(m.stat_tokens);
        extend_chars(&mut s, &a);
        extend_str(&mut s, " stat/figure tokens → at least ");
        let b = decimal_v(spec.statistics.min_count);
        extend_chars(&mut s, &b);
        extend_str(&mut s, " required");
        push_issue(&mut issues, &s);
    }
    if spec.statistics.require_sourced && m.source_links == 0 {
        push_issue_str(
            &mut issues,
            "No sources (markdown links) → add supporting evidence for stats/claims in [source](URL) form",
        );
    }
    assert(string_views(issues@) =~= statistics_spec(
        *spec,
        m.stat_tokens as nat,
        m.source_links as nat,
    ));
    issues
}

pub open spec fn no_faq_msg() -> Seq<char> {
    "No FAQ section → add an 'FAQ' heading and 'Q: .../A: ...' pairs"@
}

pub open spec fn few_faq_msg(n: nat, min: nat) -> Seq<char> {
    decimal(n) + " FAQ Q&A pairs → at least "@ + decimal(min) + " required"@
}

/// No FAQ at all (neither heading nor pair), or fewer pairs than required.
pub open spec fn faq_issues_spec(spec: Spec, has_heading: bool, qa: nat) -> Seq<Seq<char>> {
    if !has_heading && qa == 0 {
        seq![no_faq_msg()]
    } else if qa < spec.faq.min_qa {
        seq![few_faq_msg(qa, spec.faq.min_qa as nat)]
    } else {
        seq![]
    }
}

/// FAQ presence and pair-count issues of a document's metrics.
pub fn faq_issues(spec: &Spec, m: &Metrics) -> (r: Vec<String>)
    ensures
        string_views(r@) == faq_issues_spec(*spec, m.has_faq_heading, m.faq_qa_count as nat),
{
    let mut issues: Vec<String> = Vec::new();
    if !m.has_faq_heading && m.faq_qa_count == 0 {
        push_issue_str(&mut issues, "No FAQ section → add an 'FAQ' heading and 'Q: .../A: ...' pairs");
    } else if m.faq_qa_count < spec.faq.min_qa {
        let mut s: Vec<char> = Vec::new();
        let a = decimal_v(m.faq_qa_count);
        extend_chars(&mut s, &a);
        extend_str(&mut s, " FAQ Q&A pairs → at least ");
        let b = decimal_v(spec.faq.min_qa);
        extend_chars(&mut s, &b);
        extend_str(&mut s, " required");
        push_issue(&mut issues, &s);
    }
    assert(string_views(issues@) =~= faq_issues_spec(
        *spec,
        m.has_faq_heading,
        m.faq_qa_count as nat,
    ));
    issues
}

// ---------------------------------------------------------------------------
// Structured data
// ---------------------------------------------------------------------------

/// At most `n` characters of `s`, followed by `…` when characters were cut.
pub open spec fn truncate_text(s: Seq<char>, n: nat) -> Seq<char> {
    if s.len() <= n {
        s
    } else {
        s.take(n as int) + "…"@
    }
}

/// Cuts a text to at most `n` characters, marking a cut with `…`.
pub fn truncate(s: &str, n: usize) -> (r: String)
    ensures
        r@ == truncate_text(s@, n as nat),
{
    let c = chars_of(s);
    if c.len() <= n {
        return string_of(&c);
    }
    let mut t = slice_vec(&c, 0, n);
    extend_str(&mut t, "…");
    string_of(&t)
}

pub open spec fn no_jsonld_msg() -> Seq<char> {
    "No JSON-LD structured data block → add schema.org markup in a ```json code block"@
}

pub open spec fn parse_error_msg(e: Seq<char>) -> Seq<char> {
    "Failed to parse JSON-LD block (syntax error): "@ + truncate_text(e, 120)
}

pub open spec fn missing_type_msg(t: Seq<char>) -> Seq<char> {
    "JSON-LD is missing required @type '"@ + t + "'"@
}

/// Per block: its field issues when it parsed, a parse-error issue when it did not.
pub open spec fn block_issues(ps: Seq<Result<Json, Seq<char>>>) -> Seq<Seq<char>>
    decreases ps.len(),
{
    if ps.len() == 0 {
        seq![]
    } else {
        block_issues(ps.drop_last()) + match ps.last() {
            Ok(v) => schema_issues(v),
            Err(e) => seq![parse_error_msg(e)],
        }
    }
}

/// The required types (in order) absent from `types`.
pub open spec fn missing_type_issues(reqs: Seq<Seq<char>>, types: Set<Seq<char>>) -> Seq<
    Seq<char>,
>
    decreases reqs.len(),
{
    if reqs.len() == 0 {
        seq![]
    } else {
        missing_type_issues(reqs.drop_last(), types) + if types.contains(reqs.last()) {
            seq![]
        } else {
            seq![missing_type_msg(reqs.last())]
        }
    }
}

/// JSON-LD issues given the parse results of the candidate blocks: no block at all; or each
/// block's parse error or field issues, then every required `@type` that no parsed block has.
pub open spec fn structured_data_spec(spec: Spec, ps: Seq<Result<Json, Seq<char>>>) -> Seq<
    Seq<char>,
> {
    if ps.len() == 0 {
        seq![no_jsonld_msg()]
    } else {
        block_issues(ps) + missing_type_issues(
            string_views(spec.structured_data.required_types@),
            ok_types(ps),
        )
    }
}

fn sorted_contains(types: &Vec<String>, t: &String) -> (b: bool)
    ensures
        b == string_views(types@).to_set().contains(t@),
{
    let tc = chars_of(t.as_str());
    let mut i: usize = 0;
    while i < types.len()
        invariant
            i <= types@.len(),
            tc@ == t@,
            forall|j: int| 0 <= j < i ==> #[trigger] string_views(types@)[j] != t@,
        decreases types.len() - i,
    {
        let c = chars_of(types[i].as_str());
        if seq_eq_v(&c, &tc) {
            assert(string_views(types@)[i as int] == t@);
            return true;
        }
        i = i + 1;
    }
    false
}

/// Appends `more` to `issues`.
pub fn append_issues(issues: &mut Vec<String>, more: Vec<String>)
    ensures
        string_views(final(issues)@) == string_views(old(issues)@) + string_views(more@),
{
    let mut more = more;
    let ghost m = string_views(more@);
    issues.append(&mut more);
    assert(string_views(issues@) =~= string_views(old(issues)@) + m);
}

/// JSON-LD issues given the parse results of the document's candidate blocks.
pub fn structured_data_issues_parsed(spec: &Spec, parsed: &Vec<Result<Json, String>>) -> (r: Vec<
    String,
>)
    ensures
        string_views(r@) == structured_data_spec(*spec, parse_views(parsed@)),
{
    let mut issues: Vec<String> = Vec::new();
    if parsed.len() == 0 {
        push_issue_str(
            &mut issues,
            "No JSON-LD structured data block → add schema.org markup in a ```json code block",
        );
        assert(string_views(issues@) =~= structured_data_spec(*spec, parse_views(parsed@)));
        return issues;
    }
    let ghost ps = parse_views(parsed@);
    let mut types: Vec<String> = Vec::new();
    let mut i: usize = 0;
    while i < parsed.len()
        invariant
            i <= parsed@.len(),
            ps == parse_views(parsed@),
            sorted_strict(string_views(types@)),
            string_views(types@).to_set() == ok_types(ps.take(i as int)),
            string_views(issues@) == block_issues(ps.take(i as int)),
        decreases parsed.len() - i,
    {
        proof {
            lemma_take_step(ps, i as int);
        }
        match &parsed[i] {
            Ok(v) => {
                collect_types(v, &mut types);
                let more = schema_field_issues(v);
                append_issues(&mut issues, more);
            },
            Err(e) => {
                let mut m: Vec<char> = Vec::new();
                extend_str(&mut m, "Failed to parse JSON-LD block (syntax error): ");
                let t = truncate(e.as_str(), 120);
                extend_str(&mut m, t.as_str());
                push_issue(&mut issues, &m);
            },
        }
        assert(string_views(types@).to_set() =~= ok_types(ps.take(i + 1)));
        assert(string_views(issues@) =~= block_issues(ps.take(i + 1)));
        i = i + 1;
    }
    assert(ps.take(i as int) =~= ps);
    let ghost base = string_views(issues@);
    let reqs = &spec.structured_data.required_types;
    let mut k: usize = 0;
    while k < reqs.len()
        invariant
            k <= reqs@.len(),
            reqs@ == spec.structured_data.required_types@,
            string_views(types@).to_set() == ok_types(ps),
            string_views(issues@) == base + missing_type_issues(
                string_views(reqs@).take(k as int),
                ok_types(ps),
            ),
        decreases reqs.len() - k,
    {
        proof {
            lemma_take_step(string_views(reqs@), k as int);
        }
        if !sorted_contains(&types, &reqs[k]) {
            let mut m: Vec<char> = Vec::new();
            extend_str(&mut m, "JSON-LD is missing required @type '");
            extend_str(&mut m, reqs[k].as_str());
            extend_str(&mut m, "'");
            push_issue(&mut issues, &m);
        }
        assert(string_views(issues@) =~= base + missing_type_issues(
            string_views(reqs@).take(k + 1),
            ok_types(ps),
        ));
        k = k + 1;
    }
    assert(string_views(reqs@).take(k as int) =~= string_views(reqs@));
    issues
}

/// JSON-LD issues of a document: its candidate blocks are parsed with `serde_json`.
pub fn structured_data_issues(spec: &Spec, doc: &str) -> (r: Vec<String>)
    ensures
        string_views(r@) == structured_data_spec(*spec, parsed_blocks(doc@)),
{
    let parsed = parse_blocks(doc);
    structured_data_issues_parsed(spec, &parsed)
}

// ---------------------------------------------------------------------------
// All format issues
// ---------------------------------------------------------------------------

pub open spec fn missing_section_msg(t: Seq<char>) -> Seq<char> {
    "Missing required section '"@ + t + "' → add it"@
}

pub open spec fn missing_section_msgs(ts: Seq<Seq<char>>) -> Seq<Seq<char>> {
    ts.map_values(|t: Seq<char>| missing_section_msg(t))
}

/// A (raw) section heading that matches a normalized title.
pub open spec fn section_hits(h: Seq<char>, want: Seq<char>) -> bool {
    h.len() > 0 && normalized_hit(norm(h), want)
}

/// The body of the first section whose heading matches `want`.
pub open spec fn find_section(secs: Seq<(Seq<char>, Seq<char>)>, want: Seq<char>) -> Option<
    Seq<char>,
>
    decreases secs.len(),
{
    if secs.len() == 0 {
        None
    } else if section_hits(secs[0].0, want) {
        Some(secs[0].1)
    } else {
        find_section(secs.drop_first(), want)
    }
}

pub open spec fn too_short_msg(title: Seq<char>, n: nat, w: nat) -> Seq<char> {
    "'"@ + title + "' is too short: "@ + decimal(n) + " words (recommended "@ + decimal(w)
        + " words) → add supporting evidence/examples"@
}

pub open spec fn too_long_msg(title: Seq<char>, n: nat, w: nat) -> Seq<char> {
    "'"@ + title + "' is too long: "@ + decimal(n) + " words (recommended "@ + decimal(w)
        + " words) → condense"@
}

/// Length issue of one section with a recommended length: its matched body must have at
/// least ⌊0.6·words⌋ and at most ⌊1.8·words⌋ words.
pub open spec fn section_length_issue(s: Section, secs: Seq<(Seq<char>, Seq<char>)>) -> Seq<
    Seq<char>,
> {
    if s.words == 0 {
        seq![]
    } else {
        match find_section(secs, norm(s.title@)) {
            Some(body) => {
                let n = words(body);
                if n < (s.words * 3) / 5 {
                    seq![too_short_msg(s.title@, n, s.words as nat)]
                } else if n > (s.words * 9) / 5 {
                    seq![too_long_msg(s.title@, n, s.words as nat)]
                } else {
                    seq![]
                }
            },
            None => seq![],
        }
    }
}

pub open spec fn length_issues(ss: Seq<Section>, secs: Seq<(Seq<char>, Seq<char>)>) -> Seq<
    Seq<char>,
>
    decreases ss.len(),
{
    if ss.len() == 0 {
        seq![]
    } else {
        length_issues(ss.drop_last(), secs) + section_length_issue(ss.last(), secs)
    }
}

pub open spec fn total_short_msg(n: nat, t: nat) -> Seq<char> {
    "Total length too short: "@ + decimal(n) + " words (target "@ + decimal(t) + " words)"@
}

pub open spec fn total_long_msg(n: nat, t: nat) -> Seq<char> {
    "Total length too long: "@ + decimal(n) + " words (target "@ + decimal(t) + " words)"@
}

/// `p·2^k` for the smallest `k ≥ 0` with `p·2^k ≥ x` (for `p > 0`).
pub open spec fn pow2_at_least(p: nat, x: nat) -> nat
    decreases if p >= x {
        0
    } else {
        x - p
    },
{
    if p == 0 || p >= x {
        p
    } else {
        pow2_at_least(2 * p, x)
    }
}

/// The lower length bound `(t as f64 * 0.7) as usize`: ⌊7t/10⌋, except for `t = 10m > 0`
/// with no power of two in `[4m, 7m]`. There the floating-point product of `t` and `0.7`
/// (which is slightly below 7/10) rounds to just under `7m` and truncates to `7m - 1`
/// (`t = 90` gives 62). This agrees with the floating-point computation for `t < 2^49`.
pub open spec fn seven_tenths(t: nat) -> nat {
    let m = t / 10;
    if t > 0 && t % 10 == 0 && pow2_at_least(1, 4 * m) > 7 * m {
        (7 * m - 1) as nat
    } else {
        t * 7 / 10
    }
}

fn seven_tenths_v(t: usize) -> (r: u128)
    ensures
        r == seven_tenths(t as nat),
{
    let m = (t / 10) as u128;
    let x = 4 * m;
    let mut p: u128 = 1;
    while p < x
        invariant
            1 <= p < 2 * x + 2,
            x == 4 * m,
            m <= usize::MAX,
            pow2_at_least(p as nat, x as nat) == pow2_at_least(1, x as nat),
        decreases 2 * x + 2 - p,
    {
        p = 2 * p;
    }
    if t > 0 && t % 10 == 0 && p > 7 * m {
        7 * m - 1
    } else {
        (t as u128) * 7 / 10
    }
}

/// With a total length target, the word count must be at least `seven_tenths(target)`
/// (the floating-point ⌊0.7·target⌋) and at most ⌊1.3·target⌋.
pub open spec fn total_length_issues(spec: Spec, n: nat) -> Seq<Seq<char>> {
    let t = spec.total_words;
    if t == 0 {
        seq![]
    } else if n < seven_tenths(t as nat) {
        seq![total_short_msg(n, t as nat)]
    } else if n > (t * 13) / 10 {
        seq![total_long_msg(n, t as nat)]
    } else {
        seq![]
    }
}

pub open spec fn no_llms_msg() -> Seq<char> {
    "No llms.txt snippet (option enabled) → add one in a ```llms.txt code block"@
}

/// When llms.txt is enabled: the snippet's issues, or its absence.
pub open spec fn llms_part(spec: Spec, doc: Seq<char>) -> Seq<Seq<char>> {
    if !spec.llms_txt.enabled {
        seq![]
    } else {
        match llms_txt_snippet(doc) {
            Some(sn) => llms_issues(sn),
            None => seq![no_llms_msg()],
        }
    }
}

/// Every deterministic format/structure issue of `doc`, given the parse results of its
/// JSON-LD candidate blocks, in this order: missing sections, section lengths, total
/// length, the opening paragraph, statistics, FAQ, structured data, heading hierarchy,
/// llms.txt.
pub open spec fn format_issues_spec(spec: Spec, doc: Seq<char>, ps: Seq<Result<Json, Seq<char>>>) -> Seq<
    Seq<char>,
> {
    let scan = strip_fences(doc);
    missing_section_msgs(missing_sections_spec(spec, doc)) + length_issues(
        spec.sections@,
        sections_in(lines(scan)),
    ) + total_length_issues(spec, words(scan)) + answer_summary_spec(spec, doc)
        + statistics_spec(spec, stat_tokens(scan), link_count(scan)) + faq_issues_spec(
        spec,
        faq_metrics_spec(scan).0,
        faq_metrics_spec(scan).1,
    ) + structured_data_spec(spec, ps) + hierarchy_issues(doc) + llms_part(spec, doc)
}

fn find_section_v(secs: &Vec<(Vec<char>, Vec<char>)>, want: &[char]) -> (r: Option<usize>)
    ensures
        match r {
            Some(i) => i < secs@.len() && find_section(pair_views(secs@), want@) == Some(
                pair_views(secs@)[i as int].1,
            ),
            None => find_section(pair_views(secs@), want@) is None,
        },
{
    let ghost ps = pair_views(secs@);
    let mut i: usize = 0;
    assert(ps.skip(0) =~= ps);
    while i < secs.len()
        invariant
            i <= secs@.len(),
            ps == pair_views(secs@),
            find_section(ps, want@) == find_section(ps.skip(i as int), want@),
        decreases secs.len() - i,
    {
        let ghost rest = ps.skip(i as int);
        assert(rest[0] == ps[i as int]);
        let h = &secs[i].0;
        if h.len() > 0 {
            let nh = norm_v(h);
            if normalized_hit_v(&nh, want) {
                return Some(i);
            }
        }
        assert(rest.drop_first() =~= ps.skip(i + 1));
        i = i + 1;
    }
    assert(ps.skip(i as int) =~= seq![]);
    None
}

fn push_count_msg(issues: &mut Vec<String>, a: &str, title: &str, b: &str, n: usize, c: &str, w: usize, d: &str)
    ensures
        string_views(final(issues)@) == string_views(old(issues)@).push(
            a@ + title@ + b@ + decimal(n as nat) + c@ + decimal(w as nat) + d@,
        ),
{
    let mut m: Vec<char> = Vec::new();
    extend_str(&mut m, a);
    extend_str(&mut m, title);
    extend_str(&mut m, b);
    let nd = decimal_v(n);
    extend_chars(&mut m, &nd);
    extend_str(&mut m, c);
    let wd = decimal_v(w);
    extend_chars(&mut m, &wd);
    extend_str(&mut m, d);
    push_issue(issues, &m);
}

/// Every deterministic format/structure issue of `doc`, given the parse results of its
/// JSON-LD candidate blocks.
pub fn format_issues_with(spec: &Spec, doc: &str, parsed: &Vec<Result<Json, String>>) -> (r: Vec<
    String,
>)
    ensures
        string_views(r@) == format_issues_spec(*spec, doc@, parse_views(parsed@)),
{
    let mut issues: Vec<String> = Vec::new();
    let missing = missing_sections(spec, doc);
    let mut k: usize = 0;
    while k < missing.len()
        invariant
            k <= missing@.len(),
            string_views(issues@) == missing_section_msgs(string_views(missing@).take(k as int)),
        decreases missing.len() - k,
    {
        let mut m: Vec<char> = Vec::new();
        extend_str(&mut m, "Missing required section '");
        extend_str(&mut m, missing[k].as_str());
        extend_str(&mut m, "' → add it");
        push_issue(&mut issues, &m);
        assert(string_views(issues@) =~= missing_section_msgs(
            string_views(missing@).take(k + 1),
        ));
        k = k + 1;
    }
    assert(string_views(missing@).take(k as int) =~= string_views(missing@));
    let d = chars_of(doc);
    let scan = strip_fence_chars(&d);
    let ls = split_lines(&scan);
    let secs = sections_of_lines(&ls);
    let ghost ps = pair_views(secs@);
    let ghost base = string_views(issues@);
    let mut i: usize = 0;
    while i < spec.sections.len()
        invariant
            i <= spec.sections@.len(),
            ps == pair_views(secs@),
            string_views(issues@) == base + length_issues(spec.sections@.take(i as int), ps),
        decreases spec.sections.len() - i,
    {
        proof {
            lemma_take_step(spec.sections@, i as int);
        }
        let s = &spec.sections[i];
        let ghost before = string_views(issues@);
        if s.words > 0 {
            let tc = chars_of(s.title.as_str());
            let want = norm_v(&tc);
            match find_section_v(&secs, &want) {
                Some(j) => {
                    let n = token_counts(&secs[j].1).0;
                    let lo = (s.words as u128) * 3 / 5;
                    let hi = (s.words as u128) * 9 / 5;
                    if (n as u128) < lo {
                        push_count_msg(
                            &mut issues,
                            "'",
                            s.title.as_str(),
                            "' is too short: ",
                            n,
                            " words (recommended ",
                            s.words,
                            " words) → add supporting evidence/examples",
                        );
                    } else if (n as u128) > hi {
                        push_count_msg(
                            &mut issues,
                            "'",
                            s.title.as_str(),
                            "' is too long: ",
                            n,
                            " words (recommended ",
                            s.words,
                            " words) → condense",
                        );
                    }
                },
                None => {},
            }
        }
        assert(string_views(issues@) =~= before + section_length_issue(*s, ps));
        assert(string_views(issues@) =~= base + length_issues(spec.sections@.take(i + 1), ps));
        i = i + 1;
    }
    assert(spec.sections@.take(i as int) =~= spec.sections@);
    let m = metrics_with(doc, parsed);
    if spec.total_words > 0 {
        let lo = seven_tenths_v(spec.total_words);
        let hi = (spec.total_words as u128) * 13 / 10;
        if (m.words as u128) < lo {
            push_count_msg(
                &mut issues,
                "Total length too short: ",
                "",
                "",
                m.words,
                " words (target ",
                spec.total_words,
                " words)",
            );
            assert(""@ =~= seq![]) by {
                reveal_strlit("");
            }
        } else if (m.words as u128) > hi {
            push_count_msg(
                &mut issues,
                "Total length too long: ",
                "",
                "",
                m.words,
                " words (target ",
                spec.total_words,
                " words)",
            );
            assert(""@ =~= seq![]) by {
                reveal_strlit("");
            }
        }
    }
    let ghost b2 = string_views(issues@);
    assert(b2 =~= string_views(missing@).map_values(|t: Seq<char>| missing_section_msg(t)) + length_issues(spec.sections@, ps)
        + total_length_issues(*spec, m.words as nat));
    let a = answer_summary_issues(spec, doc);
    append_issues(&mut issues, a);
    let st = statistics_issues(spec, &m);
    append_issues(&mut issues, st);
    let fq = faq_issues(spec, &m);
    append_issues(&mut issues, fq);
    let sd = structured_data_issues_parsed(spec, parsed);
    append_issues(&mut issues, sd);
    let hh = heading_hierarchy_issues(doc);
    append_issues(&mut issues, hh);
    let ghost b3 = string_views(issues@);
    if spec.llms_txt.enabled {
        match extract_llms_txt_snippet(doc) {
            Some(sn) => {
                let li = llms_txt_issues(sn.as_str());
                append_issues(&mut issues, li);
            },
            None => {
                push_issue_str(
                    &mut issues,
                    "No llms.txt snippet (option enabled) → add one in a ```llms.txt code block",
                );
            },
        }
    }
    assert(string_views(issues@) =~= b3 + llms_part(*spec, doc@));
    assert(string_views(issues@) =~= format_issues_spec(*spec, doc@, parse_views(parsed@)));
    issues
}

/// All deterministic format/structure issues of a document.
pub fn format_issues(spec: &Spec, doc: &str) -> (r: Vec<String>)
    ensures
        string_views(r@) == format_issues_spec(*spec, doc@, parsed_blocks(doc@)),
{
    let parsed = parse_blocks(doc);
    format_issues_with(spec, doc, &parsed)
}

} // verus!
