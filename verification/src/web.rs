//! Sequential capture pipeline for web targets.
//!
//! Targets are attempted strictly in source order, one at a time, with a
//! two-tier failure policy: a systemic failure (output can no longer be
//! persisted) aborts the pipeline immediately, while a per-target
//! failure is noted and the next target is attempted. The backend call
//! that produces each [`CaptureOutcome`] lives outside this crate; the
//! policy that reads the outcomes is verified here.

use vstd::prelude::*;

use crate::outcome::CaptureOutcome;

verus! {

/// What the pipeline does after classifying one capture outcome.
#[derive(Clone, Copy, Debug, PartialEq, Eq, Structural)]
pub enum WebAction {
    /// The capture succeeded; move on to the next target.
    Proceed,
    /// A per-target failure; note it and move on to the next target.
    ProceedAfterFailure,
    /// A systemic failure; attempt no further target.
    Stop,
}

/// How many of the targets whose outcomes are `s` the pipeline attempts:
/// all of them up to and including the first systemic failure, and every
/// one of them if no outcome is systemic.
pub open spec fn spec_attempted(s: Seq<CaptureOutcome>) -> nat
    decreases s.len(),
{
    if s.len() == 0 {
        0
    } else if s[0] == CaptureOutcome::SystemicFailure {
        1
    } else {
        1 + spec_attempted(s.skip(1))
    }
}

/// Classify one capture outcome under the two-tier severity policy.
/// Exactly the systemic outcome stops the pipeline; a per-target
/// failure, like a success, lets the next target be attempted.
pub fn classify_outcome(o: CaptureOutcome) -> (a: WebAction)
    ensures
        a == WebAction::Stop <==> o == CaptureOutcome::SystemicFailure,
        a == WebAction::ProceedAfterFailure <==> o == CaptureOutcome::PerTargetFailure,
        a == WebAction::Proceed <==> o == CaptureOutcome::Captured,
{
    match o {
        CaptureOutcome::Captured => WebAction::Proceed,
        CaptureOutcome::PerTargetFailure => WebAction::ProceedAfterFailure,
        CaptureOutcome::SystemicFailure => WebAction::Stop,
    }
}

/// Progress of one sequential run over `total` web targets.
///
/// The pipeline owns the decision which target, if any, to attempt
/// next; the backend call against that target happens outside this
/// crate, and its outcome is handed back through [`WebPipeline::record`].
pub struct WebPipeline {
    attempted: usize,
    stopped: bool,
    total: usize,
}

impl WebPipeline {
    /// Number of targets this run is over.
    pub closed spec fn total(&self) -> nat {
        self.total as nat
    }

    /// Number of targets attempted so far.
    pub closed spec fn attempted(&self) -> nat {
        self.attempted as nat
    }

    /// Whether a systemic failure has ended the run early.
    pub closed spec fn stopped(&self) -> bool {
        self.stopped
    }

    /// At most every target is attempted.
    pub open spec fn inv(&self) -> bool {
        self.attempted() <= self.total()
    }

    /// A run over `total` targets that has not started yet.
    pub fn new(total: usize) -> (p: WebPipeline)
        ensures
            p.inv(),
            p.total() == total,
            p.attempted() == 0,
            !p.stopped(),
    {
        WebPipeline { attempted: 0, stopped: false, total }
    }

    /// Which target to attempt now: the one after the last attempted,
    /// as long as no systemic failure has stopped the run and a target
    /// remains. `None` means the run is over.
    pub fn next_target(&self) -> (t: Option<usize>)
        requires
            self.inv(),
        ensures
            (!self.stopped() && self.attempted() < self.total()) ==> t == Some(
                self.attempted() as usize,
            ),
            (self.stopped() || self.attempted() >= self.total()) ==> t is None,
    {
        if !self.stopped && self.attempted < self.total {
            Some(self.attempted)
        } else {
            None
        }
    }

    /// Record the outcome of the attempt against the current target.
    /// Exactly a systemic failure stops the run; a per-target failure,
    /// like a success, leaves the next target to be attempted.
    pub fn record(&mut self, outcome: CaptureOutcome) -> (a: WebAction)
        requires
            old(self).inv(),
            !old(self).stopped(),
            old(self).attempted() < old(self).total(),
        ensures
            final(self).inv(),
            a == (if outcome == CaptureOutcome::SystemicFailure {
                WebAction::Stop
            } else if outcome == CaptureOutcome::PerTargetFailure {
                WebAction::ProceedAfterFailure
            } else {
                WebAction::Proceed
            }),
            final(self).total() == old(self).total(),
            final(self).attempted() == old(self).attempted() + 1,
            final(self).stopped() == (outcome == CaptureOutcome::SystemicFailure),
    {
        let a = classify_outcome(outcome);
        self.attempted = self.attempted + 1;
        if a == WebAction::Stop {
            self.stopped = true;
        }
        a
    }

    /// Number of targets attempted, as read at the end of a run.
    pub fn attempted_count(&self) -> (c: usize)
        ensures
            c == self.attempted(),
    {
        self.attempted
    }

    /// Whether a systemic failure ended the run before the last target.
    pub fn stopped_early(&self) -> (b: bool)
        ensures
            b == self.stopped(),
    {
        self.stopped
    }
}

/// The whole pipeline over a run's capture outcomes, `outcomes[i]` being
/// what the backend call against target `i` yields. Returns the number
/// of targets attempted: targets `0 .. r` are attempted in that order
/// and targets `r ..` are never attempted.
pub fn run_web_pipeline(outcomes: &Vec<CaptureOutcome>) -> (r: usize)
    ensures
        r == spec_attempted(outcomes@),
{
    let n = outcomes.len();
    let mut p = WebPipeline::new(n);
    proof {
        assert(outcomes@.skip(0) =~= outcomes@);
    }
    loop
        invariant
            p.inv(),
            p.total() == n,
            n == outcomes@.len(),
            !p.stopped() ==> spec_attempted(outcomes@) == p.attempted() + spec_attempted(
                outcomes@.skip(p.attempted() as int),
            ),
            p.stopped() ==> spec_attempted(outcomes@) == p.attempted(),
        ensures
            p.attempted() == spec_attempted(outcomes@),
        decreases n - p.attempted() + (if p.stopped() {
            0int
        } else {
            1int
        }),
    {
        let next = p.next_target();
        match next {
            None => {
                proof {
                    if !p.stopped() {
                        assert(outcomes@.skip(p.attempted() as int)
                            =~= Seq::<CaptureOutcome>::empty());
                    }
                }
                break ;
            },
            Some(i) => {
                proof {
                    lemma_attempted_unfold(outcomes@, i as int);
                }
                p.record(outcomes[i]);
            },
        }
    }
    p.attempted_count()
}

/// Unfold [`spec_attempted`] at position `i` of the full sequence: the
/// suffix from `i` starts with outcome `s[i]`.
proof fn lemma_attempted_unfold(s: Seq<CaptureOutcome>, i: int)
    requires
        0 <= i < s.len(),
    ensures
        s[i] == CaptureOutcome::SystemicFailure ==> spec_attempted(s.skip(i)) == 1,
        s[i] != CaptureOutcome::SystemicFailure ==> spec_attempted(s.skip(i)) == 1
            + spec_attempted(s.skip(i + 1)),
{
    assert(s.skip(i)[0] == s[i]);
    assert(s.skip(i).skip(1) =~= s.skip(i + 1));
}

/// A prefix of `m` non-systemic outcomes is attempted wholly, and what
/// follows it is attempted as if the pipeline had started there.
proof fn lemma_attempted_past_prefix(s: Seq<CaptureOutcome>, m: int)
    requires
        0 <= m <= s.len(),
        forall|j: int| 0 <= j < m ==> s[j] != CaptureOutcome::SystemicFailure,
    ensures
        spec_attempted(s) == m + spec_attempted(s.skip(m)),
    decreases m,
{
    if m == 0 {
        assert(s.skip(0) =~= s);
    } else {
        lemma_attempted_past_prefix(s, m - 1);
        lemma_attempted_unfold(s, m - 1);
    }
}

/// If the outcome at position `i` is the first systemic failure, the
/// pipeline terminates having attempted exactly the `i + 1` targets
/// `0 ..= i`: a target at a position past `i` — at or beyond the
/// attempted count — is never attempted.
pub proof fn lemma_systemic_stops_pipeline(s: Seq<CaptureOutcome>, i: int)
    requires
        0 <= i < s.len(),
        s[i] == CaptureOutcome::SystemicFailure,
        forall|j: int| 0 <= j < i ==> s[j] != CaptureOutcome::SystemicFailure,
    ensures
        spec_attempted(s) == i + 1,
{
    lemma_attempted_past_prefix(s, i);
    lemma_attempted_unfold(s, i);
}

/// If the outcome at position `i` is a per-target failure and nothing up
/// to it was systemic, the pipeline does not stop: the target at
/// position `i + 1`, if there is one, is attempted next.
pub proof fn lemma_per_target_failure_continues(s: Seq<CaptureOutcome>, i: int)
    requires
        0 <= i,
        i + 1 < s.len(),
        s[i] == CaptureOutcome::PerTargetFailure,
        forall|j: int| 0 <= j < i ==> s[j] != CaptureOutcome::SystemicFailure,
    ensures
        spec_attempted(s) >= i + 2,
{
    lemma_attempted_past_prefix(s, i + 1);
}

/// The pipeline never attempts more targets than there are, and with no
/// systemic failure anywhere it attempts every one of them.
pub proof fn lemma_attempted_range(s: Seq<CaptureOutcome>)
    ensures
        spec_attempted(s) <= s.len(),
        (forall|j: int| 0 <= j < s.len() ==> s[j] != CaptureOutcome::SystemicFailure)
            ==> spec_attempted(s) == s.len(),
    decreases s.len(),
{
    if s.len() > 0 {
        lemma_attempted_range(s.skip(1));
        assert(forall|j: int|
            0 <= j < s.skip(1).len() ==> s.skip(1)[j] == s[j + 1]);
    }
}

} // verus!
