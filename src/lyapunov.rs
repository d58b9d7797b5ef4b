use vstd::prelude::*;

verus! {

/// The step counts of one Lyapunov computation.
#[derive(PartialEq, Eq, Structural, Clone, Copy, Debug)]
pub struct Schedule {
    /// State-only steps discarded before the tangent vectors start.
    pub transient: usize,
    /// Steps over which state and tangent vectors are co-integrated.
    pub steps: usize,
    /// The tangent vectors are renormalized after every `interval` steps.
    pub interval: usize,
}

impl Schedule {
    pub open spec fn wf(&self) -> bool {
        self.interval > 0
    }

    /// A schedule, or `None` where the renormalization interval is zero.
    pub fn new(transient: usize, steps: usize, interval: usize) -> (r: Option<Schedule>)
        ensures
            r is Some <==> interval > 0,
            r matches Some(s) ==> s.wf() && s == (Schedule { transient, steps, interval }),
    {
        if interval > 0 {
            Some(Schedule { transient, steps, interval })
        } else {
            None
        }
    }

    /// The schedule of the fast single-exponent path: the tangent vector is
    /// renormalized after every step.
    pub fn every_step(transient: usize, steps: usize) -> (r: Schedule)
        ensures
            r.wf(),
            r == (Schedule { transient, steps, interval: 1 }),
    {
        Schedule { transient, steps, interval: 1 }
    }
}

/// The number of renormalization checkpoints of a complete computation.
pub open spec fn checkpoints_of(s: Schedule) -> nat {
    (s.steps / s.interval) as nat
}

/// Where a Lyapunov computation stands.
#[derive(PartialEq, Eq, Structural, Clone, Copy, Debug)]
pub enum Phase {
    /// `done` transient steps have stayed within the bound.
    Settle { done: usize },
    /// `done` tangent steps, with `checkpoints` renormalizations among them,
    /// have stayed within the bound.
    Tangent { done: usize, checkpoints: usize },
    /// The computation diverged or broke down: no exponent is defined.
    Failed,
    /// All steps are done; the exponents are the accumulated log-lengths
    /// divided by `checkpoints` times the interval times the time step.
    Finished { checkpoints: usize },
}

/// What the caller has to do next for a Lyapunov computation.
#[derive(PartialEq, Eq, Structural, Clone, Copy, Debug)]
pub enum Task {
    /// Advance the state alone by one step and report whether it escaped.
    StepState,
    /// Advance state and tangent vectors by one step, then, if `renormalize`,
    /// reorthonormalize the tangent vectors and accumulate their log-lengths.
    StepTangent { renormalize: bool },
    /// Nothing more: the computation failed or finished.
    Stop,
}

/// What the caller observed while doing a task.
#[derive(PartialEq, Eq, Structural, Clone, Copy, Debug)]
pub enum Outcome {
    /// The state escaped the bound or became non-finite.
    Escaped,
    /// A tangent vector had zero or non-finite length at a renormalization.
    Degenerate,
    /// The step went through.
    Fine,
}

/// The phase that follows the transient.
pub open spec fn tangent_start(s: Schedule) -> Phase {
    if s.steps > 0 {
        Phase::Tangent { done: 0, checkpoints: 0 }
    } else {
        Phase::Failed
    }
}

/// The phase a computation starts in.
pub open spec fn start_phase(s: Schedule) -> Phase {
    if s.transient > 0 {
        Phase::Settle { done: 0 }
    } else {
        tangent_start(s)
    }
}

/// Whether tangent step number `done` (from zero) ends at a checkpoint.
pub open spec fn at_checkpoint(s: Schedule, done: nat) -> bool {
    (done + 1) % (s.interval as nat) == 0
}

/// The work that phase `p` asks for.
pub open spec fn task_of(s: Schedule, p: Phase) -> Task {
    match p {
        Phase::Settle { .. } => Task::StepState,
        Phase::Tangent { done, .. } => Task::StepTangent { renormalize: at_checkpoint(s, done as nat) },
        _ => Task::Stop,
    }
}

/// The phase after `o` is observed in `p`.
pub open spec fn next_phase(s: Schedule, p: Phase, o: Outcome) -> Phase {
    match p {
        Phase::Settle { done } => match o {
            Outcome::Fine => if done + 1 < s.transient {
                Phase::Settle { done: (done + 1) as usize }
            } else {
                tangent_start(s)
            },
            _ => Phase::Failed,
        },
        Phase::Tangent { done, checkpoints } => match o {
            Outcome::Fine => {
                let c = if at_checkpoint(s, done as nat) {
                    checkpoints + 1
                } else {
                    checkpoints as int
                };
                if done + 1 < s.steps {
                    Phase::Tangent { done: (done + 1) as usize, checkpoints: c as usize }
                } else if c > 0 {
                    Phase::Finished { checkpoints: c as usize }
                } else {
                    Phase::Failed
                }
            },
            _ => Phase::Failed,
        },
        _ => p,
    }
}

/// The counters of `p` are consistent with the schedule: a tangent phase has
/// renormalized once per completed interval, and a finished one once per
/// interval of the whole run.
pub open spec fn phase_valid(s: Schedule, p: Phase) -> bool {
    match p {
        Phase::Settle { done } => done < s.transient,
        Phase::Tangent { done, checkpoints } => done < s.steps && checkpoints == done / s.interval,
        Phase::Finished { checkpoints } => checkpoints == checkpoints_of(s) && checkpoints > 0,
        Phase::Failed => true,
    }
}

/// The phase reached from the start after observing `os` in order.
pub open spec fn run_phase(s: Schedule, os: Seq<Outcome>) -> Phase
    decreases os.len(),
{
    if os.len() == 0 {
        start_phase(s)
    } else {
        next_phase(s, run_phase(s, os.drop_last()), os.last())
    }
}

proof fn lemma_div_step(d: nat, k: nat)
    requires
        k > 0,
    ensures
        (d + 1) / k == if (d + 1) % k == 0 {
            d / k + 1
        } else {
            d / k
        },
{
    let q = (d / k) as int;
    let r = (d % k) as int;
    vstd::arithmetic::div_mod::lemma_fundamental_div_mod(d as int, k as int);
    vstd::arithmetic::div_mod::lemma_mod_bound(d as int, k as int);
    if r + 1 < k {
        vstd::arithmetic::div_mod::lemma_fundamental_div_mod_converse((d + 1) as int, k as int, q, r + 1);
    } else {
        assert((q + 1) * k == q * k + k) by (nonlinear_arith);
        vstd::arithmetic::div_mod::lemma_fundamental_div_mod_converse((d + 1) as int, k as int, q + 1, 0);
    }
}

/// Each transition keeps the counters consistent.
pub proof fn lemma_next_valid(s: Schedule, p: Phase, o: Outcome)
    requires
        s.wf(),
        phase_valid(s, p),
    ensures
        phase_valid(s, next_phase(s, p, o)),
{
    if let Phase::Tangent { done, checkpoints } = p {
        lemma_div_step(done as nat, s.interval as nat);
    }
}

/// Every phase reachable from the start is consistent with the schedule; in
/// particular a finished computation has renormalized exactly
/// `steps / interval` times, at least once.
pub proof fn lemma_run_valid(s: Schedule, os: Seq<Outcome>)
    requires
        s.wf(),
    ensures
        phase_valid(s, run_phase(s, os)),
    decreases os.len(),
{
    if os.len() > 0 {
        lemma_run_valid(s, os.drop_last());
        lemma_next_valid(s, run_phase(s, os.drop_last()), os.last());
    }
}

/// A failed computation stays failed: no later outcome turns it into a
/// spectrum, so a partially computed spectrum is never reported.
pub proof fn lemma_failure_final(s: Schedule, os: Seq<Outcome>, m: int)
    requires
        0 <= m <= os.len(),
        run_phase(s, os.take(m)) is Failed,
    ensures
        run_phase(s, os) is Failed,
    decreases os.len() - m,
{
    if m < os.len() {
        assert(os.take(m + 1).drop_last() == os.take(m));
        lemma_failure_final(s, os, m + 1);
    } else {
        assert(os.take(m) == os);
    }
}

/// An escape or a degenerate tangent vector reported for any step of a
/// computation that has not finished fails it.
pub proof fn lemma_bad_outcome_fails(s: Schedule, os: Seq<Outcome>, k: int)
    requires
        0 <= k < os.len(),
        os[k] != Outcome::Fine,
        !(run_phase(s, os.take(k)) is Finished),
    ensures
        run_phase(s, os) is Failed,
{
    assert(os.take(k + 1).drop_last() == os.take(k));
    assert(os.take(k + 1).last() == os[k]);
    lemma_failure_final(s, os, k + 1);
}

/// The phase after `m` fine outcomes: settling for the first `transient`,
/// then co-integrating with one checkpoint per completed interval.
proof fn lemma_clean_prefix(s: Schedule, os: Seq<Outcome>, m: int)
    requires
        s.wf(),
        0 <= m <= os.len(),
        m < s.transient + s.steps,
        forall|j: int| 0 <= j < os.len() ==> os[j] == Outcome::Fine,
    ensures
        run_phase(s, os.take(m)) == if m < s.transient {
            Phase::Settle { done: m as usize }
        } else {
            Phase::Tangent {
                done: (m - s.transient) as usize,
                checkpoints: ((m - s.transient) / s.interval as int) as usize,
            }
        },
    decreases m,
{
    if m > 0 {
        lemma_clean_prefix(s, os, m - 1);
        assert(os.take(m).drop_last() == os.take(m - 1));
        if m > s.transient {
            lemma_div_step((m - 1 - s.transient) as nat, s.interval as nat);
        }
    } else {
        assert(os.take(0).len() == 0);
    }
}

/// A computation in which every step goes through finishes exactly when at
/// least one full interval fits in its steps, with `steps / interval`
/// checkpoints; otherwise it fails without a spectrum.
pub proof fn lemma_clean_run(s: Schedule, os: Seq<Outcome>)
    requires
        s.wf(),
        os.len() == s.transient + s.steps,
        forall|j: int| 0 <= j < os.len() ==> os[j] == Outcome::Fine,
    ensures
        run_phase(s, os) == if s.steps >= s.interval {
            Phase::Finished { checkpoints: (s.steps / s.interval) as usize }
        } else {
            Phase::Failed
        },
{
    let n = os.len() as int;
    if n > 0 {
        lemma_clean_prefix(s, os, n - 1);
        assert(os.drop_last() == os.take(n - 1));
        assert(os.last() == Outcome::Fine);
    }
    if s.steps > 0 {
        lemma_div_step((s.steps - 1) as nat, s.interval as nat);
        if s.steps < s.interval {
            vstd::arithmetic::div_mod::lemma_basic_div_specific_divisor(s.interval as int);
            assert(s.steps / s.interval == 0);
        } else {
            vstd::arithmetic::div_mod::lemma_div_non_zero(s.steps as int, s.interval as int);
        }
    }
}

/// A Lyapunov computation, driven by the caller in the same way as a
/// classification: ask `task`, do it, hand the outcome to `advance`.
pub struct Tracker {
    pub schedule: Schedule,
    pub phase: Phase,
}

impl Tracker {
    pub open spec fn wf(&self) -> bool {
        self.schedule.wf() && phase_valid(self.schedule, self.phase)
    }

    /// A computation at its first phase.
    pub fn new(schedule: Schedule) -> (r: Tracker)
        requires
            schedule.wf(),
        ensures
            r.wf(),
            r.schedule == schedule,
            r.phase == start_phase(schedule),
    {
        let phase = if schedule.transient > 0 {
            Phase::Settle { done: 0 }
        } else if schedule.steps > 0 {
            Phase::Tangent { done: 0, checkpoints: 0 }
        } else {
            Phase::Failed
        };
        Tracker { schedule, phase }
    }

    /// The task the current phase asks for.
    pub fn task(&self) -> (r: Task)
        requires
            self.wf(),
        ensures
            r == task_of(self.schedule, self.phase),
    {
        match self.phase {
            Phase::Settle { .. } => Task::StepState,
            Phase::Tangent { done, .. } => Task::StepTangent {
                renormalize: (done + 1) % self.schedule.interval == 0,
            },
            _ => Task::Stop,
        }
    }

    /// The number of checkpoints of a finished computation; `None` while it
    /// runs or after it failed.
    pub fn finished(&self) -> (r: Option<usize>)
        requires
            self.wf(),
        ensures
            r == (match self.phase {
                Phase::Finished { checkpoints } => Some(checkpoints),
                _ => None,
            }),
            r matches Some(c) ==> c == checkpoints_of(self.schedule) && c > 0,
    {
        match self.phase {
            Phase::Finished { checkpoints } => Some(checkpoints),
            _ => None,
        }
    }

    /// Takes in what the caller observed.
    pub fn advance(&mut self, o: Outcome)
        requires
            old(self).wf(),
        ensures
            final(self).wf(),
            final(self).schedule == old(self).schedule,
            final(self).phase == next_phase(old(self).schedule, old(self).phase, o),
    {
        let s = self.schedule;
        proof {
            lemma_next_valid(s, self.phase, o);
        }
        let next = match self.phase {
            Phase::Settle { done } => match o {
                Outcome::Fine => if done + 1 < s.transient {
                    Phase::Settle { done: done + 1 }
                } else if s.steps > 0 {
                    Phase::Tangent { done: 0, checkpoints: 0 }
                } else {
                    Phase::Failed
                },
                _ => Phase::Failed,
            },
            Phase::Tangent { done, checkpoints } => match o {
                Outcome::Fine => {
                    proof {
                        lemma_div_step(done as nat, s.interval as nat);
                    }
                    let c = if (done + 1) % s.interval == 0 {
                        checkpoints + 1
                    } else {
                        checkpoints
                    };
                    if done + 1 < s.steps {
                        Phase::Tangent { done: done + 1, checkpoints: c }
                    } else if c > 0 {
                        Phase::Finished { checkpoints: c }
                    } else {
                        Phase::Failed
                    }
                },
                _ => Phase::Failed,
            },
            _ => self.phase,
        };
        self.phase = next;
    }
}

} // verus!
