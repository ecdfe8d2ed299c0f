use vstd::prelude::*;
use crate::material::Material;

verus! {

/// The bounce budget of one path: a path that has scattered this many times
/// without reaching a light or the sky contributes nothing more.
pub const MAX_BOUNCES: u32 = 32;

/// What the closest-hit query found along the current ray.
#[derive(Clone, Copy, Debug, PartialEq, Eq, Structural)]
pub enum Surface {
    /// Nothing in the scene: the ray escapes to the environment.
    Miss,
    /// The closest surface, by the material it is made of.
    Hit(Material),
}

/// What the integrator does with the current ray.
#[derive(Clone, Copy, Debug, PartialEq, Eq, Structural)]
pub enum Step {
    /// Add the environment sample seen along the ray, times the
    /// attenuation; the path ends.
    Sky,
    /// Add the light's emission times the attenuation; the path ends.
    Emit,
    /// Scatter off the surface with the given model, multiply the
    /// attenuation by its albedo, and go on with the new ray.
    Scatter(Material),
}

/// The step that the integrator takes on each kind of surface.
pub open spec fn step_of(s: Surface) -> Step {
    match s {
        Surface::Miss => Step::Sky,
        Surface::Hit(Material::Emissive) => Step::Emit,
        Surface::Hit(m) => Step::Scatter(m),
    }
}

/// Whether a step ends the path by itself.
pub open spec fn is_terminal(s: Step) -> bool {
    s matches Step::Sky || s matches Step::Emit
}

/// The path after one more ray whose closest hit is `s`.
pub open spec fn next_path(p: Path, s: Surface) -> Path {
    let b = (p.bounce + 1) as u32;
    Path {
        bounce: b,
        max_bounces: p.max_bounces,
        ended: is_terminal(step_of(s)) || b == p.max_bounces,
    }
}

/// The path after it has met the closest hits `surfaces` in turn, one per
/// ray, for as long as it was tracing.
pub open spec fn run(p: Path, surfaces: Seq<Surface>) -> Path
    decreases surfaces.len(),
{
    if surfaces.len() == 0 || p.ended {
        p
    } else {
        run(next_path(p, surfaces[0]), surfaces.drop_first())
    }
}

/// Bounded work: whatever the scene returns, a path that is well formed
/// stays so, and it has ended once it has been offered as many hits as its
/// remaining budget.
pub proof fn lemma_bounded_work(p: Path, surfaces: Seq<Surface>)
    requires
        p.wf(),
    ensures
        run(p, surfaces).wf(),
        run(p, surfaces).max_bounces == p.max_bounces,
        run(p, surfaces).bounce <= p.bounce + surfaces.len(),
        surfaces.len() >= p.max_bounces - p.bounce ==> run(p, surfaces).ended,
    decreases surfaces.len(),
{
    if surfaces.len() > 0 && !p.ended {
        lemma_bounded_work(next_path(p, surfaces[0]), surfaces.drop_first());
    }
}

/// The progress of one path through its bounce budget.
pub struct Path {
    /// Rays traced so far.
    pub bounce: u32,
    /// The budget this path was started with.
    pub max_bounces: u32,
    /// Whether the path has reached the sky, a light, or the end of its budget.
    pub ended: bool,
}

impl Path {
    /// Every path keeps within its budget, and one that has used it up has
    /// ended.
    pub open spec fn wf(&self) -> bool {
        &&& self.bounce <= self.max_bounces
        &&& self.bounce == self.max_bounces ==> self.ended
    }

    /// A path at its first ray; with no budget at all it has ended already.
    pub fn new(max_bounces: u32) -> (r: Path)
        ensures
            r.wf(),
            r.bounce == 0,
            r.max_bounces == max_bounces,
            r.ended == (max_bounces == 0),
    {
        Path { bounce: 0, max_bounces, ended: max_bounces == 0 }
    }

    /// Whether another ray is to be traced.
    pub fn is_tracing(&self) -> (r: bool)
        ensures
            r == !self.ended,
    {
        !self.ended
    }

    /// Decides what to do with the ray whose closest hit is `surface`, and
    /// counts the ray against the budget.
    pub fn step(&mut self, surface: Surface) -> (r: Step)
        requires
            old(self).wf(),
            !old(self).ended,
        ensures
            final(self).wf(),
            *final(self) == next_path(*old(self), surface),
            r == step_of(surface),
            final(self).max_bounces == old(self).max_bounces,
            final(self).bounce == old(self).bounce + 1,
            final(self).ended == (is_terminal(r) || final(self).bounce
                == final(self).max_bounces),
    {
        let r = match surface {
            Surface::Miss => Step::Sky,
            Surface::Hit(Material::Emissive) => Step::Emit,
            Surface::Hit(m) => Step::Scatter(m),
        };
        self.bounce = self.bounce + 1;
        let terminal = match r {
            Step::Sky => true,
            Step::Emit => true,
            Step::Scatter(_) => false,
        };
        self.ended = terminal || self.bounce == self.max_bounces;
        r
    }
}

} // verus!
