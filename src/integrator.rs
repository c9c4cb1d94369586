use vstd::prelude::*;

verus! {

/// What the integrator has just learned about the ray it is tracing.
#[derive(Clone, Copy, Debug, PartialEq, Eq, Structural)]
pub enum TraceEvent {
    /// Tracing of the ray begins.
    Start,
    /// Every light was asked whether it claims the ray, because the ray escapes
    /// the scene towards it or looks straight at it.
    LightsAsked { claimed: bool },
    /// The objects were searched for the nearest hit along the ray.
    HitSearched { found: bool },
}

/// What the integrator does next.
#[derive(Clone, Copy, Debug, PartialEq, Eq, Structural)]
pub enum TraceAction {
    /// The ray carries no light: its colour is black.
    ReturnBlack,
    /// Ask every light whether it claims the ray.
    AskLights,
    /// The ray's colour is the sum of the colours of the lights that claimed it.
    ReturnLightColor,
    /// Search the objects for the nearest hit.
    FindNearestHit,
    /// Trace every ray that the struck material scatters with the remaining
    /// depth `child_depth`, and let the material render the hit from the
    /// colours they bring back, in the same order.
    Shade { child_depth: u64 },
}

/// The integrator's rule. With no depth left a ray is black. Otherwise the
/// lights are asked first; a claimed ray takes the lights' colour, any other is
/// shaded at its nearest hit one level deeper, or is black when nothing is hit.
pub open spec fn trace_action(depth: nat, event: TraceEvent) -> TraceAction {
    if depth == 0 {
        TraceAction::ReturnBlack
    } else {
        match event {
            TraceEvent::Start => TraceAction::AskLights,
            TraceEvent::LightsAsked { claimed } => if claimed {
                TraceAction::ReturnLightColor
            } else {
                TraceAction::FindNearestHit
            },
            TraceEvent::HitSearched { found } => if found {
                TraceAction::Shade { child_depth: (depth - 1) as u64 }
            } else {
                TraceAction::ReturnBlack
            },
        }
    }
}

/// Decides the integrator's next action for a ray traced with `depth` levels
/// of recursion left.
pub fn trace_step(depth: u64, event: TraceEvent) -> (r: TraceAction)
    ensures
        r == trace_action(depth as nat, event),
{
    if depth == 0 {
        return TraceAction::ReturnBlack;
    }
    match event {
        TraceEvent::Start => TraceAction::AskLights,
        TraceEvent::LightsAsked { claimed } => {
            if claimed {
                TraceAction::ReturnLightColor
            } else {
                TraceAction::FindNearestHit
            }
        },
        TraceEvent::HitSearched { found } => {
            if found {
                TraceAction::Shade { child_depth: depth - 1 }
            } else {
                TraceAction::ReturnBlack
            }
        },
    }
}

/// A ray traced with no depth left is black, whatever the scene holds and
/// whatever the integrator has learned about the ray.
pub proof fn energy_cutoff(event: TraceEvent)
    ensures
        trace_action(0, event) == TraceAction::ReturnBlack,
{
}

/// Every secondary ray is traced with strictly less depth than the ray that
/// spawned it, so tracing from depth `d` recurses at most `d` levels deep.
pub proof fn depth_decreases(depth: nat, event: TraceEvent)
    requires
        depth <= u64::MAX,
    ensures
        trace_action(depth, event) is Shade ==> trace_action(depth, event)->child_depth + 1
            == depth,
{
}

} // verus!
