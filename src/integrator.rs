use vstd::prelude::*;

verus! {

/// What the scene and the hit material made of the ray that was traced.
#[derive(Debug, Clone, Copy, PartialEq, Eq, Structural)]
pub enum Outcome {
    /// The ray hit nothing in the scene.
    Miss,
    /// The ray hit a surface whose material absorbed it.
    Absorbed,
    /// The ray hit a surface and left it as a scattered ray, with an
    /// attenuation to apply to the light that the scattered ray brings back.
    Scattered,
}

/// What the evaluation of a ray does next.
#[derive(Debug, Clone, Copy, PartialEq, Eq, Structural)]
pub enum Step {
    /// The ray brings back no light: the bounce budget is spent or the ray
    /// was absorbed.
    Black,
    /// The ray brings back the sky's light along its direction.
    Background,
    /// Trace the current ray through the scene; `depth` counts this bounce
    /// and those that may still follow.
    Trace { depth: u32 },
}

/// The first step for a ray that may bounce `depth` times.
pub open spec fn start_spec(depth: u32) -> Step {
    if depth == 0 {
        Step::Black
    } else {
        Step::Trace { depth }
    }
}

/// The step after a trace with `depth` bounces left ended in `outcome`.
pub open spec fn advance_spec(depth: u32, outcome: Outcome) -> Step {
    match outcome {
        Outcome::Miss => Step::Background,
        Outcome::Absorbed => Step::Black,
        Outcome::Scattered => start_spec((depth - 1) as u32),
    }
}

/// Number of scene queries made for a ray that may bounce `depth` times,
/// when the queries end in `outcomes`, one after another, until the
/// evaluation stops or the outcomes run out.
pub open spec fn queries(depth: u32, outcomes: Seq<Outcome>) -> nat
    decreases outcomes.len(),
{
    if depth == 0 || outcomes.len() == 0 {
        0
    } else {
        match outcomes[0] {
            Outcome::Scattered => 1 + queries((depth - 1) as u32, outcomes.drop_first()),
            _ => 1,
        }
    }
}

/// The step that the evaluation of a ray that may bounce `depth` times has
/// reached once the scene answered with `outcomes`; a `Trace` step means it
/// waits for another outcome.
pub open spec fn step_after(depth: u32, outcomes: Seq<Outcome>) -> Step
    decreases outcomes.len(),
{
    if depth == 0 || outcomes.len() == 0 {
        start_spec(depth)
    } else {
        match outcomes[0] {
            Outcome::Scattered => step_after((depth - 1) as u32, outcomes.drop_first()),
            _ => advance_spec(depth, outcomes[0]),
        }
    }
}

/// The first step for a ray that may bounce `depth` times: with no bounce
/// left the ray brings back black, whatever the scene holds.
pub fn start(depth: u32) -> (r: Step)
    ensures
        r == start_spec(depth),
        depth == 0 <==> r == Step::Black,
{
    if depth == 0 {
        Step::Black
    } else {
        Step::Trace { depth }
    }
}

/// The step after a trace with `depth` bounces left ended in `outcome`: a
/// miss shows the background, an absorbed ray is black, and a scattered ray
/// is traced again with one bounce fewer.
pub fn advance(depth: u32, outcome: Outcome) -> (r: Step)
    requires
        depth >= 1,
    ensures
        r == advance_spec(depth, outcome),
        r matches Step::Trace { depth: d } ==> d == depth - 1,
{
    match outcome {
        Outcome::Miss => Step::Background,
        Outcome::Absorbed => Step::Black,
        Outcome::Scattered => start(depth - 1),
    }
}

/// A ray with no bounce left brings back black and makes no scene query,
/// whatever the scene would answer.
pub proof fn lemma_exhausted_depth_is_black(outcomes: Seq<Outcome>)
    ensures
        step_after(0, outcomes) == Step::Black,
        queries(0, outcomes) == 0,
{
}

/// The bounce budget bounds every evaluation: whatever the scene answers
/// (two mirrors facing each other included), no more than `depth` scene
/// queries are made, and once `depth` queries were made the evaluation has
/// stopped.
pub proof fn lemma_depth_bounds_queries(depth: u32, outcomes: Seq<Outcome>)
    ensures
        queries(depth, outcomes) <= depth,
        queries(depth, outcomes) <= outcomes.len(),
        queries(depth, outcomes) < outcomes.len() || depth == 0 ==> !(step_after(depth, outcomes) is Trace),
        step_after(depth, outcomes) matches Step::Trace { depth: d } ==> d + queries(depth, outcomes) == depth,
    decreases outcomes.len(),
{
    if depth != 0 && outcomes.len() != 0 {
        if outcomes[0] == Outcome::Scattered {
            lemma_depth_bounds_queries((depth - 1) as u32, outcomes.drop_first());
        }
    }
}

/// A ray that keeps scattering, as between two mirrors, ends in black after
/// exactly `depth` scene queries.
pub proof fn lemma_endless_scattering_ends_black(depth: u32, outcomes: Seq<Outcome>)
    requires
        outcomes.len() >= depth,
        forall|i: int| 0 <= i < outcomes.len() ==> outcomes[i] == Outcome::Scattered,
    ensures
        step_after(depth, outcomes) == Step::Black,
        queries(depth, outcomes) == depth,
    decreases outcomes.len(),
{
    if depth != 0 {
        let rest = outcomes.drop_first();
        assert forall|i: int| 0 <= i < rest.len() implies rest[i] == Outcome::Scattered by {
            assert(rest[i] == outcomes[i + 1]);
        }
        lemma_endless_scattering_ends_black((depth - 1) as u32, rest);
    }
}

/// A ray that misses the scene on its first trace brings back the
/// background, whatever budget above zero it had.
pub proof fn lemma_first_miss_is_background(depth: u32, outcomes: Seq<Outcome>)
    requires
        depth >= 1,
        outcomes.len() >= 1,
        outcomes[0] == Outcome::Miss,
    ensures
        step_after(depth, outcomes) == Step::Background,
        queries(depth, outcomes) == 1,
{
}

} // verus!
