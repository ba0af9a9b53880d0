//! The frame schedule of the headless harnesses: which frames report, act or end the run.

use vstd::prelude::*;

verus! {

/// A harness schedule: report every `sample_every` frames, act once at frame `event_at`,
/// end the run once the frame count passes `finish_after` (each optional).
pub struct TickPlan {
    pub sample_every: Option<u32>,
    pub event_at: Option<u32>,
    pub finish_after: Option<u32>,
}

/// What a harness does at one frame.
pub struct TickStep {
    /// The frame's number, counting from 1.
    pub tick: u32,
    /// The frame reports (its number is a multiple of `sample_every`).
    pub sample: bool,
    /// The frame is the one to act at.
    pub event: bool,
    /// The run ends at this frame.
    pub finish: bool,
}

/// A schedule that can be followed: a report period, where there is one, is positive.
pub open spec fn plan_ok(plan: TickPlan) -> bool {
    plan.sample_every matches Some(k) ==> k > 0
}

/// Advances the frame counter from `prev` and says what the new frame does.
pub fn next_tick(plan: &TickPlan, prev: u32) -> (step: TickStep)
    requires
        prev < u32::MAX,
        plan_ok(*plan),
    ensures
        step.tick == prev + 1,
        step.sample == (plan.sample_every matches Some(k) && (prev + 1) % (k as int) == 0),
        step.event == (plan.event_at == Some((prev + 1) as u32)),
        step.finish == (plan.finish_after matches Some(m) && prev + 1 > m),
{
    let tick = prev + 1;
    let sample = match plan.sample_every {
        Some(k) => tick % k == 0,
        None => false,
    };
    let event = match plan.event_at {
        Some(t) => tick == t,
        None => false,
    };
    let finish = match plan.finish_after {
        Some(m) => tick > m,
        None => false,
    };
    TickStep { tick, sample, event, finish }
}

} // verus!
