use vstd::prelude::*;

verus! {

/// The dynamical regime that a classification assigns to a system.
#[derive(PartialEq, Eq, Structural, Clone, Copy, Debug)]
pub enum Regime {
    /// The trajectory escaped the bound or became non-finite, or the spectrum failed.
    Divergent,
    /// The trajectory effectively stopped moving.
    FixedPoint,
    /// Bounded and moving, with no positive leading exponent.
    Cycle,
    /// Bounded, moving, with a leading exponent above the chaos threshold.
    Chaotic,
}

/// The step counts of a classification.
#[derive(PartialEq, Eq, Structural, Clone, Copy, Debug)]
pub struct Settings {
    /// Steps integrated to leave initial-condition artifacts behind.
    pub transient: usize,
    /// Steps over which the per-axis mean and variance are measured.
    pub statistics: usize,
    /// Steps of the Lyapunov spectrum computation, after its own transient.
    pub spectrum: usize,
    /// Steps between two reorthonormalizations of the tangent vectors.
    pub renorm_interval: usize,
}

impl Settings {
    /// The statistics pass divides by its length and the spectrum by the
    /// renormalization interval: neither may be zero.
    pub open spec fn wf(&self) -> bool {
        self.statistics > 0 && self.renorm_interval > 0
    }

    /// Settings with the given step counts, or `None` where one of them
    /// would divide by zero.
    pub fn new(transient: usize, statistics: usize, spectrum: usize, renorm_interval: usize) -> (r:
        Option<Settings>)
        ensures
            r is Some <==> (statistics > 0 && renorm_interval > 0),
            r matches Some(s) ==> s.wf() && s == (Settings {
                transient,
                statistics,
                spectrum,
                renorm_interval,
            }),
    {
        if statistics > 0 && renorm_interval > 0 {
            Some(Settings { transient, statistics, spectrum, renorm_interval })
        } else {
            None
        }
    }

    /// The tuned defaults: 1000 transient steps, 5000 statistics steps,
    /// 30000 spectrum steps, reorthonormalizing every 10 steps.
    pub fn standard() -> (r: Settings)
        ensures
            r.wf(),
            r == (Settings { transient: 1000, statistics: 5000, spectrum: 30000, renorm_interval: 10 }),
    {
        Settings { transient: 1000, statistics: 5000, spectrum: 30000, renorm_interval: 10 }
    }
}

/// Where a classification stands.
#[derive(PartialEq, Eq, Structural, Clone, Copy, Debug)]
pub enum Stage {
    /// `done` transient steps have stayed within the bound.
    Transient { done: usize },
    /// `done` statistics steps have stayed within the bound.
    Statistics { done: usize },
    /// The statistics pass is complete; the variance is to be measured.
    Variance,
    /// The trajectory moves; the Lyapunov spectrum is to be computed.
    Spectrum,
    /// The verdict is reached.
    Done { verdict: Regime },
}

/// What the caller has to do next for a classification.
#[derive(PartialEq, Eq, Structural, Clone, Copy, Debug)]
pub enum Work {
    /// Advance the state one step and report whether it escaped the bound.
    Step,
    /// Measure the variance of the statistics pass and report whether it is
    /// below the fixed-point threshold.
    MeasureVariance,
    /// Compute the Lyapunov spectrum and report its outcome.
    MeasureSpectrum,
    /// Nothing: the verdict is reached.
    Report { verdict: Regime },
}

/// What the caller observed while doing the requested work.
#[derive(PartialEq, Eq, Structural, Clone, Copy, Debug)]
pub enum Signal {
    /// The state escaped the divergence bound or became non-finite.
    Escaped,
    /// The state stayed within the bound.
    Bounded,
    /// The mean variance is below the fixed-point threshold.
    Still,
    /// The mean variance is at or above the fixed-point threshold.
    Moving,
    /// The spectrum computation diverged or broke down.
    SpectrumFailed,
    /// The leading exponent is above the chaos threshold.
    LeadingAbove,
    /// The leading exponent is at or below the chaos threshold.
    LeadingBelow,
}

/// The stage a classification starts in.
pub open spec fn first_stage(s: Settings) -> Stage {
    if s.transient > 0 {
        Stage::Transient { done: 0 }
    } else {
        Stage::Statistics { done: 0 }
    }
}

/// The stage after `sig` is observed in `st`. A signal that does not answer
/// the stage's work leaves the stage unchanged.
pub open spec fn next_stage(s: Settings, st: Stage, sig: Signal) -> Stage {
    match st {
        Stage::Transient { done } => match sig {
            Signal::Escaped => Stage::Done { verdict: Regime::Divergent },
            Signal::Bounded => if done + 1 < s.transient {
                Stage::Transient { done: (done + 1) as usize }
            } else {
                Stage::Statistics { done: 0 }
            },
            _ => st,
        },
        Stage::Statistics { done } => match sig {
            Signal::Escaped => Stage::Done { verdict: Regime::Divergent },
            Signal::Bounded => if done + 1 < s.statistics {
                Stage::Statistics { done: (done + 1) as usize }
            } else {
                Stage::Variance
            },
            _ => st,
        },
        Stage::Variance => match sig {
            Signal::Still => Stage::Done { verdict: Regime::FixedPoint },
            Signal::Moving => Stage::Spectrum,
            _ => st,
        },
        Stage::Spectrum => match sig {
            Signal::SpectrumFailed => Stage::Done { verdict: Regime::Divergent },
            Signal::LeadingAbove => Stage::Done { verdict: Regime::Chaotic },
            Signal::LeadingBelow => Stage::Done { verdict: Regime::Cycle },
            _ => st,
        },
        Stage::Done { .. } => st,
    }
}

/// The work that stage `st` asks for.
pub open spec fn work_of(st: Stage) -> Work {
    match st {
        Stage::Transient { .. } => Work::Step,
        Stage::Statistics { .. } => Work::Step,
        Stage::Variance => Work::MeasureVariance,
        Stage::Spectrum => Work::MeasureSpectrum,
        Stage::Done { verdict } => Work::Report { verdict },
    }
}

/// The step counters of `st` are within the settings.
pub open spec fn stage_valid(s: Settings, st: Stage) -> bool {
    match st {
        Stage::Transient { done } => done < s.transient,
        Stage::Statistics { done } => done < s.statistics,
        _ => true,
    }
}

/// The stage reached from the start after observing `sigs` in order.
pub open spec fn run(s: Settings, sigs: Seq<Signal>) -> Stage
    decreases sigs.len(),
{
    if sigs.len() == 0 {
        first_stage(s)
    } else {
        next_stage(s, run(s, sigs.drop_last()), sigs.last())
    }
}

/// Whether `st` belongs to the statistics pass or a later phase.
pub open spec fn past_transient(st: Stage) -> bool {
    st is Statistics || st is Variance || st is Spectrum
}

/// A classification of one system, driven by the caller: the caller asks
/// `work`, does it on the trajectory, and hands what it saw to `advance`,
/// until `work` is a report.
pub struct Classifier {
    pub settings: Settings,
    pub stage: Stage,
}

impl Classifier {
    pub open spec fn wf(&self) -> bool {
        self.settings.wf() && stage_valid(self.settings, self.stage)
    }

    /// A classification at its first stage.
    pub fn new(settings: Settings) -> (r: Classifier)
        requires
            settings.wf(),
        ensures
            r.wf(),
            r.settings == settings,
            r.stage == first_stage(settings),
    {
        let stage = if settings.transient > 0 {
            Stage::Transient { done: 0 }
        } else {
            Stage::Statistics { done: 0 }
        };
        Classifier { settings, stage }
    }

    /// The work the current stage asks for.
    pub fn work(&self) -> (r: Work)
        ensures
            r == work_of(self.stage),
    {
        match self.stage {
            Stage::Transient { .. } => Work::Step,
            Stage::Statistics { .. } => Work::Step,
            Stage::Variance => Work::MeasureVariance,
            Stage::Spectrum => Work::MeasureSpectrum,
            Stage::Done { verdict } => Work::Report { verdict },
        }
    }

    /// The verdict, once reached.
    pub fn verdict(&self) -> (r: Option<Regime>)
        ensures
            r == (match self.stage {
                Stage::Done { verdict } => Some(verdict),
                _ => None,
            }),
    {
        match self.stage {
            Stage::Done { verdict } => Some(verdict),
            _ => None,
        }
    }

    /// Takes in what the caller observed.
    pub fn advance(&mut self, sig: Signal)
        requires
            old(self).wf(),
        ensures
            final(self).wf(),
            final(self).settings == old(self).settings,
            final(self).stage == next_stage(old(self).settings, old(self).stage, sig),
    {
        let s = self.settings;
        let next = match self.stage {
            Stage::Transient { done } => match sig {
                Signal::Escaped => Stage::Done { verdict: Regime::Divergent },
                Signal::Bounded => if done + 1 < s.transient {
                    Stage::Transient { done: done + 1 }
                } else {
                    Stage::Statistics { done: 0 }
                },
                _ => self.stage,
            },
            Stage::Statistics { done } => match sig {
                Signal::Escaped => Stage::Done { verdict: Regime::Divergent },
                Signal::Bounded => if done + 1 < s.statistics {
                    Stage::Statistics { done: done + 1 }
                } else {
                    Stage::Variance
                },
                _ => self.stage,
            },
            Stage::Variance => match sig {
                Signal::Still => Stage::Done { verdict: Regime::FixedPoint },
                Signal::Moving => Stage::Spectrum,
                _ => self.stage,
            },
            Stage::Spectrum => match sig {
                Signal::SpectrumFailed => Stage::Done { verdict: Regime::Divergent },
                Signal::LeadingAbove => Stage::Done { verdict: Regime::Chaotic },
                Signal::LeadingBelow => Stage::Done { verdict: Regime::Cycle },
                _ => self.stage,
            },
            Stage::Done { .. } => self.stage,
        };
        self.stage = next;
    }
}

/// A verdict, once reached, is final: no later signal changes it.
pub proof fn lemma_verdict_final(s: Settings, sigs: Seq<Signal>, m: int)
    requires
        0 <= m <= sigs.len(),
        run(s, sigs.take(m)) is Done,
    ensures
        run(s, sigs) == run(s, sigs.take(m)),
    decreases sigs.len() - m,
{
    if m < sigs.len() {
        assert(sigs.take(m + 1).drop_last() == sigs.take(m));
        assert(run(s, sigs.take(m + 1)) == run(s, sigs.take(m)));
        lemma_verdict_final(s, sigs, m + 1);
    } else {
        assert(sigs.take(m) == sigs);
    }
}

/// A system that escapes during the transient phase is classified
/// Divergent at that step, and the classification never reaches the
/// statistics pass or any later phase.
pub proof fn lemma_transient_escape(s: Settings, sigs: Seq<Signal>, k: int)
    requires
        s.wf(),
        0 <= k < s.transient,
        k < sigs.len(),
        sigs[k] == Signal::Escaped,
        forall|j: int| 0 <= j < k ==> sigs[j] == Signal::Bounded,
    ensures
        forall|m: int| k < m <= sigs.len() ==> run(s, #[trigger] sigs.take(m)) == (Stage::Done {
            verdict: Regime::Divergent,
        }),
        forall|m: int| 0 <= m <= sigs.len() ==> !past_transient(run(s, #[trigger] sigs.take(m))),
{
    lemma_transient_prefix(s, sigs, k);
    assert(sigs.take(k + 1).drop_last() == sigs.take(k));
    assert forall|m: int| k < m <= sigs.len() implies run(s, #[trigger] sigs.take(m)) == (Stage::Done {
        verdict: Regime::Divergent,
    }) by {
        assert(sigs.take(m).take(k + 1) == sigs.take(k + 1));
        lemma_verdict_final(s, sigs.take(m), k + 1);
    }
    assert forall|m: int| 0 <= m <= sigs.len() implies !past_transient(
        run(s, #[trigger] sigs.take(m)),
    ) by {
        if m <= k {
            lemma_transient_prefix(s, sigs, m);
        }
    }
}

/// While every signal so far is Bounded and fewer than `transient` steps
/// were taken, the classification is in its transient phase.
proof fn lemma_transient_prefix(s: Settings, sigs: Seq<Signal>, m: int)
    requires
        0 <= m < s.transient,
        m <= sigs.len(),
        forall|j: int| 0 <= j < m ==> sigs[j] == Signal::Bounded,
    ensures
        run(s, sigs.take(m)) == (Stage::Transient { done: m as usize }),
    decreases m,
{
    if m > 0 {
        lemma_transient_prefix(s, sigs, m - 1);
        assert(sigs.take(m).drop_last() == sigs.take(m - 1));
    } else {
        assert(sigs.take(0).len() == 0);
    }
}

} // verus!
