//! The decisions of the generate → score → revise loop, one scored round at a time: which
//! round is the best so far, how long improvement has stalled, when to stop, and when a
//! jump right after a stall calls for a reward-hacking warning.
//!
//! A round's total is floating point, so it is handed in as an order key: a whole number
//! that compares between rounds exactly as the totals do. The comparisons against the
//! caller's floating-point thresholds (target score, minimum gain) come in as booleans.
use vstd::prelude::*;
use crate::text::{decimal, decimal_v, extend_chars, extend_str, string_of};

verus! {

/// Progress of the loop after some rounds.
pub struct LoopState {
    /// Rounds scored so far.
    pub rounds: usize,
    /// Index (0-based) of the best round so far; meaningful once a round was scored.
    pub best: usize,
    /// Order key of the best round's total.
    pub best_key: u64,
    /// Consecutive rounds without a sufficient improvement.
    pub stall: usize,
}

/// One scored round, as the loop's decisions see it.
pub struct RoundResult {
    /// Order key of the round's total score: `a < b` between two rounds' keys exactly when
    /// the first total is lower.
    pub total_key: u64,
    /// The total reached the target and the document has no format issue.
    pub target_met: bool,
    /// Gain over the previous best below the minimum gain.
    pub small_gain: bool,
    /// Gain over the previous best at least three times the minimum gain.
    pub spike_gain: bool,
}

/// Why the loop stopped.
#[derive(PartialEq, Eq, Structural, Clone, Copy, Debug)]
pub enum StopReason {
    TargetReached,
    Stagnated,
    MaxIterations,
}

/// What to do after a round.
pub struct Step {
    pub state: LoopState,
    /// `None`: revise the document and score another round.
    pub stop: Option<StopReason>,
    /// The number of stalled rounds before this one, when this round's jump after a stall of
    /// two or more rounds calls for a warning.
    pub spike: Option<usize>,
}

/// Counters are consistent: the stall is no longer than the run, the best round was scored.
pub open spec fn well_formed(s: LoopState) -> bool {
    s.stall <= s.rounds && (s.rounds > 0 ==> s.best < s.rounds)
}

/// A round improves on the best so far when it is the first or beats the best total.
pub open spec fn improves(s: LoopState, r: RoundResult) -> bool {
    s.rounds == 0 || r.total_key > s.best_key
}

/// The state after a round.
pub open spec fn next_state(s: LoopState, r: RoundResult) -> LoopState {
    if improves(s, r) {
        LoopState {
            rounds: (s.rounds + 1) as usize,
            best: s.rounds,
            best_key: r.total_key,
            stall: if s.rounds > 0 && r.small_gain {
                (s.stall + 1) as usize
            } else {
                0
            },
        }
    } else {
        LoopState {
            rounds: (s.rounds + 1) as usize,
            best: s.best,
            best_key: s.best_key,
            stall: (s.stall + 1) as usize,
        }
    }
}

/// The spike warning a round raises: a sufficient improvement of at least three times the
/// minimum gain right after two or more stalled rounds.
pub open spec fn spike_of(s: LoopState, r: RoundResult) -> Option<usize> {
    if improves(s, r) && s.rounds > 0 && !r.small_gain && s.stall >= 2 && r.spike_gain {
        Some(s.stall)
    } else {
        None
    }
}

/// At least one round, even when `max_iter` is 0.
pub open spec fn round_limit(max_iter: usize) -> nat {
    if max_iter == 0 {
        1
    } else {
        max_iter as nat
    }
}

/// Whether and why to stop after reaching state `n` with round `r`: the target first, then
/// a stall of `patience` rounds, then the round limit.
pub open spec fn stop_of(n: LoopState, r: RoundResult, patience: usize, max_iter: usize) -> Option<
    StopReason,
> {
    if r.target_met {
        Some(StopReason::TargetReached)
    } else if n.stall >= patience {
        Some(StopReason::Stagnated)
    } else if n.rounds >= round_limit(max_iter) {
        Some(StopReason::MaxIterations)
    } else {
        None
    }
}

/// The state before the first round.
pub fn initial_state() -> (s: LoopState)
    ensures
        s.rounds == 0,
        s.stall == 0,
        well_formed(s),
{
    LoopState { rounds: 0, best: 0, best_key: 0, stall: 0 }
}

/// The decision after scoring a round.
pub fn step(s: &LoopState, r: &RoundResult, patience: usize, max_iter: usize) -> (out: Step)
    requires
        well_formed(*s),
        s.rounds < usize::MAX,
    ensures
        out.state == next_state(*s, *r),
        well_formed(out.state),
        out.spike == spike_of(*s, *r),
        out.stop == stop_of(out.state, *r, patience, max_iter),
{
    let improved = s.rounds == 0 || r.total_key > s.best_key;
    let mut spike: Option<usize> = None;
    let n = if improved {
        let stall = if s.rounds > 0 && r.small_gain {
            s.stall + 1
        } else {
            if s.stall >= 2 && s.rounds > 0 && r.spike_gain {
                spike = Some(s.stall);
            }
            0
        };
        LoopState { rounds: s.rounds + 1, best: s.rounds, best_key: r.total_key, stall }
    } else {
        LoopState { rounds: s.rounds + 1, best: s.best, best_key: s.best_key, stall: s.stall + 1 }
    };
    let limit: usize = if max_iter == 0 {
        1
    } else {
        max_iter
    };
    let stop = if r.target_met {
        Some(StopReason::TargetReached)
    } else if n.stall >= patience {
        Some(StopReason::Stagnated)
    } else if n.rounds >= limit {
        Some(StopReason::MaxIterations)
    } else {
        None
    };
    Step { state: n, stop, spike }
}

/// The best round is not the last one scored (the report then says which file is best).
pub fn last_round_not_best(s: &LoopState) -> (b: bool)
    requires
        well_formed(*s),
    ensures
        b == (s.best + 1 < s.rounds),
{
    s.rounds > 0 && s.best < s.rounds - 1
}

// ---------------------------------------------------------------------------
// Round labels
// ---------------------------------------------------------------------------

/// `{:02}` of a number: its decimal digits, padded to two with a leading `0`.
pub open spec fn pad2(n: nat) -> Seq<char> {
    if n < 10 {
        seq!['0'] + decimal(n)
    } else {
        decimal(n)
    }
}

/// The label of round number `n` (1-based): `iter01`, `iter02`, ...
pub fn round_label(n: usize) -> (r: String)
    ensures
        r@ == "iter"@ + pad2(n as nat),
{
    let mut p: Vec<char> = Vec::new();
    extend_str(&mut p, "iter");
    if n < 10 {
        p.push('0');
    }
    let d = decimal_v(n);
    extend_chars(&mut p, &d);
    assert(p@ =~= "iter"@ + pad2(n as nat));
    string_of(&p)
}

// ---------------------------------------------------------------------------
// The best round is the highest-scoring one
// ---------------------------------------------------------------------------

/// The state after the rounds `rs`, from the initial state.
pub open spec fn state_after(rs: Seq<RoundResult>) -> LoopState
    decreases rs.len(),
{
    if rs.len() == 0 {
        LoopState { rounds: 0, best: 0, best_key: 0, stall: 0 }
    } else {
        next_state(state_after(rs.drop_last()), rs.last())
    }
}

/// After any non-empty run of rounds, the best round is the first one with the highest
/// total: no round scored more, and every earlier round scored less.
pub proof fn lemma_best_is_argmax(rs: Seq<RoundResult>)
    requires
        rs.len() < usize::MAX,
    ensures
        state_after(rs).rounds == rs.len(),
        well_formed(state_after(rs)),
        rs.len() > 0 ==> {
            let s = state_after(rs);
            &&& s.best_key == rs[s.best as int].total_key
            &&& forall|i: int| 0 <= i < rs.len() ==> (#[trigger] rs[i]).total_key <= s.best_key
            &&& forall|i: int| 0 <= i < s.best ==> (#[trigger] rs[i]).total_key < s.best_key
        },
    decreases rs.len(),
{
    if rs.len() > 0 {
        let init = rs.drop_last();
        lemma_best_is_argmax(init);
        let s0 = state_after(init);
        let s = state_after(rs);
        assert forall|i: int| 0 <= i < init.len() implies #[trigger] init[i] == rs[i] by {}
        if init.len() > 0 {
            assert(init[s0.best as int] == rs[s0.best as int]);
        }
        assert forall|i: int| 0 <= i < rs.len() implies (#[trigger] rs[i]).total_key
            <= s.best_key by {
            if i < init.len() {
                assert(init[i] == rs[i]);
            }
        }
        assert forall|i: int| 0 <= i < s.best implies (#[trigger] rs[i]).total_key
            < s.best_key by {
            assert(init[i] == rs[i]);
        }
    }
}

} // verus!
