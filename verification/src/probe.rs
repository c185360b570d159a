//! Deterministic keyword/number overlap between a document's FAQ answer and an answer
//! obtained without any document context: the significant tokens of each and how many of
//! the document's tokens the other answer shares.
use vstd::prelude::*;
use crate::checks::{has_digit, lemma_take_step};
use crate::json::{insert_sorted, lemma_lex_irrefl, sorted_strict};
use crate::text::{chars_of, lowercase, string_of, string_views, to_lowercase};

verus! {

/// System prompt of the context-free answer: it names no brand and carries no document
/// content.
pub const PROBE_SYSTEM: &'static str = "You are a general user. Answer the question below using only what you already know. No specific brand/product has been named for you. If you don't know, it's fine to say so. Output only the answer body, with no additional explanation or meta-commentary.";

/// `char::is_alphanumeric` (Unicode Alphabetic or Numeric).
pub uninterp spec fn is_alnum(c: char) -> bool;

/// `char::is_alphanumeric`.
#[verifier::external_body]
pub(crate) fn is_alphanumeric(c: char) -> (b: bool)
    ensures
        b == is_alnum(c),
{
    c.is_alphanumeric()
}

/// Left-to-right scan for maximal runs of alphanumeric characters.
pub open spec fn run_scan(s: Seq<char>) -> (Seq<Seq<char>>, Seq<char>)
    decreases s.len(),
{
    if s.len() == 0 {
        (seq![], seq![])
    } else {
        let (done, cur) = run_scan(s.drop_last());
        if !is_alnum(s.last()) {
            if cur.len() > 0 {
                (done.push(cur), seq![])
            } else {
                (done, seq![])
            }
        } else {
            (done, cur.push(s.last()))
        }
    }
}

/// The non-empty pieces of `s` split at non-alphanumeric characters.
pub open spec fn alnum_runs(s: Seq<char>) -> Seq<Seq<char>> {
    let (done, cur) = run_scan(s);
    if cur.len() == 0 {
        done
    } else {
        done.push(cur)
    }
}

/// A token of at least 4 characters, or containing an ASCII digit.
pub open spec fn is_significant(w: Seq<char>) -> bool {
    w.len() >= 4 || has_digit(w)
}

/// The significant tokens of an already lower-cased text.
pub open spec fn significant_set_of_lowercase(low: Seq<char>) -> Set<Seq<char>> {
    Set::new(|w: Seq<char>| alnum_runs(low).contains(w) && is_significant(w))
}

/// The significant tokens of the lower-cased text.
pub open spec fn significant_set(s: Seq<char>) -> Set<Seq<char>> {
    significant_set_of_lowercase(lowercase(s))
}

fn is_significant_v(w: &[char]) -> (b: bool)
    ensures
        b == is_significant(w@),
{
    if w.len() >= 4 {
        return true;
    }
    let mut i: usize = 0;
    while i < w.len()
        invariant
            i <= w@.len(),
            forall|k: int| 0 <= k < i ==> !('0' <= #[trigger] w@[k] && w@[k] <= '9'),
        decreases w.len() - i,
    {
        if '0' <= w[i] && w[i] <= '9' {
            return true;
        }
        i = i + 1;
    }
    false
}

/// Adds a finished run to the sorted set when it is significant.
fn add_run(out: &mut Vec<String>, run: &Vec<char>)
    requires
        sorted_strict(string_views(old(out)@)),
    ensures
        sorted_strict(string_views(final(out)@)),
        string_views(final(out)@).to_set() == if is_significant(run@) {
            string_views(old(out)@).to_set().insert(run@)
        } else {
            string_views(old(out)@).to_set()
        },
{
    if is_significant_v(run) {
        insert_sorted(out, string_of(run));
    }
}

/// The significant tokens of a text (lower-cased, split on non-alphanumeric characters, at
/// least 4 characters long or containing a digit), ascending, each once.
pub fn significant_tokens(s: &str) -> (r: Vec<String>)
    ensures
        sorted_strict(string_views(r@)),
        string_views(r@).to_set() == significant_set(s@),
{
    let low = to_lowercase(s);
    significant_tokens_of_lowercase(low.as_str())
}

/// The significant tokens of a text that is already lower-cased (split on non-alphanumeric
/// characters, at least 4 characters long or containing a digit), ascending, each once.
pub fn significant_tokens_of_lowercase(low: &str) -> (r: Vec<String>)
    ensures
        sorted_strict(string_views(r@)),
        string_views(r@).to_set() == significant_set_of_lowercase(low@),
{
    let c = chars_of(low);
    let mut out: Vec<String> = Vec::new();
    let mut cur: Vec<char> = Vec::new();
    let mut i: usize = 0;
    while i < c.len()
        invariant
            i <= c@.len(),
            cur@ == run_scan(c@.take(i as int)).1,
            sorted_strict(string_views(out@)),
            string_views(out@).to_set() == Set::new(
                |w: Seq<char>| run_scan(c@.take(i as int)).0.contains(w) && is_significant(w),
            ),
        decreases c.len() - i,
    {
        proof {
            lemma_take_step(c@, i as int);
        }
        let ghost pre = run_scan(c@.take(i as int));
        if !is_alphanumeric(c[i]) {
            if cur.len() > 0 {
                let ghost before = string_views(out@).to_set();
                add_run(&mut out, &cur);
                proof {
                    lemma_push_contains(pre.0, pre.1);
                    let target = Set::new(
                        |w: Seq<char>| pre.0.push(pre.1).contains(w) && is_significant(w),
                    );
                    assert forall|w: Seq<char>| string_views(out@).to_set().contains(w) <==> target.contains(w) by {
                        if w == pre.1 {
                        } else {
                        }
                    }
                    assert(string_views(out@).to_set() =~= target);
                }
            }
            cur = Vec::new();
            assert(cur@ =~= seq![]);
        } else {
            cur.push(c[i]);
        }
        i = i + 1;
    }
    assert(c@.take(i as int) =~= c@);
    let ghost fin = run_scan(c@);
    if cur.len() > 0 {
        add_run(&mut out, &cur);
        proof {
            lemma_push_contains(fin.0, fin.1);
            assert forall|w: Seq<char>| string_views(out@).to_set().contains(w) <==> significant_set_of_lowercase(low@).contains(w) by {
                if w == fin.1 {
                } else {
                }
            }
            assert(string_views(out@).to_set() =~= significant_set_of_lowercase(low@));
        }
    } else {
        assert(string_views(out@).to_set() =~= significant_set_of_lowercase(low@));
    }
    out
}

pub proof fn lemma_push_contains(d: Seq<Seq<char>>, x: Seq<char>)
    ensures
        forall|w: Seq<char>| #[trigger] d.push(x).contains(w) <==> (d.contains(w) || w == x),
{
    assert forall|w: Seq<char>| #[trigger] d.push(x).contains(w) <==> (d.contains(w) || w == x) by {
        if d.push(x).contains(w) {
            let k = choose|k: int| 0 <= k < d.push(x).len() && d.push(x)[k] == w;
            if k < d.len() {
                assert(d[k] == w);
            }
        }
        if d.contains(w) {
            let k = choose|k: int| 0 <= k < d.len() && d[k] == w;
            assert(d.push(x)[k] == w);
        }
        if w == x {
            assert(d.push(x)[d.len() as int] == w);
        }
    }
}

pub proof fn lemma_sorted_no_dup(s: Seq<Seq<char>>)
    requires
        sorted_strict(s),
    ensures
        s.no_duplicates(),
{
    assert forall|i: int, j: int| 0 <= i < s.len() && 0 <= j < s.len() && i != j implies s[i]
        != s[j] by {
        if i < j {
            assert(crate::json::lex_lt(s[i], s[j]));
        } else {
            assert(crate::json::lex_lt(s[j], s[i]));
        }
        lemma_lex_irrefl(s[i]);
    }
}

/// For already lower-cased answers: the document answer's significant tokens that the probe
/// answer also has, and how many significant tokens the document answer has:
/// `(|A ∩ B|, |A|)`.
pub open spec fn overlap_of_lowercase(doc_low: Seq<char>, probe_low: Seq<char>) -> (nat, nat) {
    (
        significant_set_of_lowercase(doc_low).intersect(
            significant_set_of_lowercase(probe_low),
        ).len(),
        significant_set_of_lowercase(doc_low).len(),
    )
}

/// The overlap counts of two answers, lower-cased first.
pub open spec fn overlap_counts_spec(doc_answer: Seq<char>, probe_answer: Seq<char>) -> (nat, nat) {
    overlap_of_lowercase(lowercase(doc_answer), lowercase(probe_answer))
}

/// Counts for the keyword/number overlap ratio (`shared / total`, taken as 1 when the
/// document answer has no significant token).
pub fn overlap_counts(doc_answer: &str, probe_answer: &str) -> (r: (usize, usize))
    ensures
        r.0 == overlap_counts_spec(doc_answer@, probe_answer@).0,
        r.1 == overlap_counts_spec(doc_answer@, probe_answer@).1,
        r.0 <= r.1,
{
    let a = to_lowercase(doc_answer);
    let b = to_lowercase(probe_answer);
    overlap_counts_of_lowercase(a.as_str(), b.as_str())
}

/// `overlap_counts` for answers that are already lower-cased.
pub fn overlap_counts_of_lowercase(doc_low: &str, probe_low: &str) -> (r: (usize, usize))
    ensures
        r.0 == overlap_of_lowercase(doc_low@, probe_low@).0,
        r.1 == overlap_of_lowercase(doc_low@, probe_low@).1,
        r.0 <= r.1,
{
    let a = significant_tokens_of_lowercase(doc_low);
    let b = significant_tokens_of_lowercase(probe_low);
    let ghost av = string_views(a@);
    let ghost bv = string_views(b@);
    let mut shared: Vec<String> = Vec::new();
    let mut i: usize = 0;
    while i < a.len()
        invariant
            i <= a@.len(),
            av == string_views(a@),
            bv == string_views(b@),
            sorted_strict(av),
            sorted_strict(string_views(shared@)),
            string_views(shared@).len() <= i,
            forall|k: int| 0 <= k < string_views(shared@).len() ==> exists|j: int| 0 <= j < i && av[j] == #[trigger] string_views(shared@)[k],
            forall|k: int, j: int| 0 <= k < string_views(shared@).len() && i <= j < av.len() ==> crate::json::lex_lt(#[trigger] string_views(shared@)[k], #[trigger] av[j]),
            string_views(shared@).to_set() == av.take(i as int).to_set().intersect(bv.to_set()),
        decreases a.len() - i,
    {
        let x = &a[i];
        let xc = chars_of(x.as_str());
        let mut found = false;
        let mut j: usize = 0;
        while j < b.len() && !found
            invariant
                j <= b@.len(),
                bv == string_views(b@),
                xc@ == av[i as int],
                av == string_views(a@),
                i < a@.len(),
                !found ==> forall|k: int| 0 <= k < j ==> bv[k] != av[i as int],
                found ==> bv.to_set().contains(av[i as int]),
            decreases b.len() - j,
        {
            let y = chars_of(b[j].as_str());
            if crate::checks::seq_eq_v(&y, &xc) {
                assert(bv[j as int] == av[i as int]);
                found = true;
            }
            j = j + 1;
        }
        let ghost sv_old = string_views(shared@);
        if found {
            shared.push(x.clone());
            assert(string_views(shared@) =~= sv_old.push(av[i as int]));
        } else {
            assert(!bv.to_set().contains(av[i as int]));
        }
        proof {
            let sv = string_views(shared@);
            assert(av.take(i + 1) =~= av.take(i as int).push(av[i as int]));
            assert forall|k: int, l: int| 0 <= k < l < sv.len() implies crate::json::lex_lt(#[trigger] sv[k], #[trigger] sv[l]) by {
                if l == sv.len() - 1 && found {
                    assert(sv[k] == sv_old[k]);
                } else {
                    assert(sv[k] == sv_old[k] && sv[l] == sv_old[l]);
                }
            }
            assert forall|k: int| 0 <= k < sv.len() implies exists|j: int| 0 <= j < i + 1 && av[j] == #[trigger] sv[k] by {
                if k < sv_old.len() {
                    assert(sv[k] == sv_old[k]);
                    let j = choose|j: int| 0 <= j < i && av[j] == sv_old[k];
                    assert(0 <= j < i + 1 && av[j] == sv[k]);
                } else {
                    assert(av[i as int] == sv[k]);
                }
            }
            assert forall|k: int, j: int| 0 <= k < sv.len() && i + 1 <= j < av.len() implies crate::json::lex_lt(#[trigger] sv[k], #[trigger] av[j]) by {
                if k < sv_old.len() {
                    assert(sv[k] == sv_old[k]);
                } else {
                    assert(sv[k] == av[i as int]);
                }
            }
            let t0 = av.take(i as int);
            let t1 = av.take(i + 1);
            assert(sv.to_set() =~= t1.to_set().intersect(bv.to_set())) by {
                assert forall|w: Seq<char>| sv.to_set().contains(w) <==> t1.to_set().intersect(bv.to_set()).contains(w) by {
                    if sv.to_set().contains(w) {
                        let k = choose|k: int| 0 <= k < sv.len() && sv[k] == w;
                        if k < sv_old.len() {
                            assert(sv_old[k] == w);
                            assert(sv_old.to_set().contains(w));
                            let j = choose|j: int| 0 <= j < t0.len() && t0[j] == w;
                            assert(t1[j] == w);
                        } else {
                            assert(t1[i as int] == w);
                        }
                    }
                    if t1.to_set().intersect(bv.to_set()).contains(w) {
                        let j = choose|j: int| 0 <= j < t1.len() && t1[j] == w;
                        if j < i {
                            assert(t0[j] == w);
                            assert(sv_old.to_set().contains(w));
                            let k = choose|k: int| 0 <= k < sv_old.len() && sv_old[k] == w;
                            assert(sv[k] == w);
                        } else {
                            assert(w == av[i as int]);
                            assert(found);
                            assert(sv[sv.len() - 1] == w);
                        }
                    }
                }
            }
        }
        i = i + 1;
    }
    proof {
        assert(av.take(i as int) =~= av);
        lemma_sorted_no_dup(av);
        lemma_sorted_no_dup(string_views(shared@));
        av.unique_seq_to_set();
        string_views(shared@).unique_seq_to_set();
        vstd::set_lib::lemma_len_intersect(av.to_set(), bv.to_set());
    }
    (shared.len(), a.len())
}

/// A text overlaps fully with itself: every significant token is shared.
pub proof fn lemma_overlap_with_itself(s: Seq<char>)
    ensures
        overlap_counts_spec(s, s).0 == overlap_counts_spec(s, s).1,
{
    assert(significant_set(s).intersect(significant_set(s)) =~= significant_set(s));
    assert(overlap_counts_spec(s, s).1 == significant_set(s).len());
}

} // verus!
