use vstd::prelude::*;

verus! {

/// The recursion bound of the estimator: a path scatters at most this many times.
pub const MAX_DEPTH: u16 = 32;

/// The number of stochastic path evaluations averaged per pixel and frame.
pub const SINGLE_SHOT_SAMPLES: u64 = 32;

/// What happened when a surface was asked to scatter the incoming ray.
#[derive(Debug, Copy, Clone, PartialEq, Eq)]
pub enum Bounce {
    /// The material absorbed the path.
    Absorbed,
    /// The material scattered the path and the new ray left the scene.
    Escaped,
    /// The material scattered the path and the new ray hit an object.
    Hit,
}

/// Where the radiance of one path vertex comes from: the ambient term alone at the depth
/// bound, else the surface's own emission plus what the step names.
#[derive(Debug, Copy, Clone, PartialEq, Eq)]
pub enum Step {
    /// The depth bound was reached: a small share of the surface color stands in for
    /// the light that would have arrived.
    Ambient,
    /// The path was absorbed: no light arrives.
    Black,
    /// The scattered ray escaped: the environment's color, times the attenuation.
    Background,
    /// The scattered ray hit a surface: the estimate there, one level deeper, times
    /// the attenuation.
    Continue(Path),
}

/// A path vertex of the recursive estimator, at some number of scatterings from the
/// camera.
#[derive(Debug, Copy, Clone, PartialEq, Eq)]
pub struct Path {
    /// How many times the path has scattered since the camera ray.
    pub depth: u16,
}

impl Path {
    pub open spec fn view_depth(self) -> int {
        self.depth as int
    }

    pub open spec fn wf(self) -> bool {
        self.depth <= MAX_DEPTH
    }

    /// Whether the depth bound stops this vertex from scattering.
    pub open spec fn spec_exhausted(self) -> bool {
        self.depth >= MAX_DEPTH
    }

    /// The step that the estimator takes at this vertex when the surface scatters with
    /// outcome `b`.
    pub open spec fn spec_step(self, b: Bounce) -> Step {
        if self.spec_exhausted() {
            Step::Ambient
        } else {
            match b {
                Bounce::Absorbed => Step::Black,
                Bounce::Escaped => Step::Background,
                Bounce::Hit => Step::Continue(Path { depth: (self.depth + 1) as u16 }),
            }
        }
    }

    /// The vertex where the camera ray first hits the scene.
    pub fn primary() -> (p: Path)
        ensures
            p.view_depth() == 0,
            p.wf(),
    {
        Path { depth: 0 }
    }

    pub fn depth(&self) -> (d: u16)
        ensures
            d as int == self.view_depth(),
    {
        self.depth
    }

    /// Whether the depth bound stops this vertex from scattering; the estimator then
    /// asks the surface for no scattering at all.
    pub fn exhausted(&self) -> (r: bool)
        ensures
            r == self.spec_exhausted(),
    {
        self.depth >= MAX_DEPTH
    }

    /// The step at this vertex, once the surface below the depth bound has scattered
    /// with outcome `b`.
    pub fn step(&self, b: Bounce) -> (s: Step)
        requires
            self.wf(),
        ensures
            s == self.spec_step(b),
            s matches Step::Continue(q) ==> q.wf() && q.view_depth() == self.view_depth() + 1,
    {
        if self.depth >= MAX_DEPTH {
            Step::Ambient
        } else {
            match b {
                Bounce::Absorbed => Step::Black,
                Bounce::Escaped => Step::Background,
                Bounce::Hit => Step::Continue(Path { depth: self.depth + 1 }),
            }
        }
    }
}

/// The number of times a path from `p` scatters and goes on, when the surfaces it
/// meets scatter with the outcomes `bounces` in turn; a path that runs out of outcomes
/// stops there.
pub open spec fn scatterings(p: Path, bounces: Seq<Bounce>) -> nat
    decreases bounces.len(),
{
    if bounces.len() == 0 {
        0
    } else {
        match p.spec_step(bounces[0]) {
            Step::Continue(q) => 1 + scatterings(q, bounces.drop_first()),
            _ => 0,
        }
    }
}

/// Every path terminates within the depth bound: whatever the surfaces do, even when
/// every bounce hits another surface (mirrors facing each other), a path from a vertex
/// at depth `d` goes on at most `MAX_DEPTH - d` times.
pub proof fn lemma_paths_terminate(p: Path, bounces: Seq<Bounce>)
    requires
        p.wf(),
    ensures
        scatterings(p, bounces) <= MAX_DEPTH - p.view_depth(),
    decreases bounces.len(),
{
    if bounces.len() > 0 {
        if let Step::Continue(q) = p.spec_step(bounces[0]) {
            lemma_paths_terminate(q, bounces.drop_first());
        }
    }
}

/// A path from the camera that hits a surface at every bounce scatters exactly
/// `MAX_DEPTH` times, given outcomes enough, and then ends on the ambient term.
pub proof fn lemma_all_hits_reach_bound(p: Path, bounces: Seq<Bounce>)
    requires
        p.wf(),
        bounces.len() >= MAX_DEPTH - p.view_depth(),
        forall|i: int| 0 <= i < bounces.len() ==> bounces[i] == Bounce::Hit,
    ensures
        scatterings(p, bounces) == MAX_DEPTH - p.view_depth(),
    decreases bounces.len(),
{
    if !p.spec_exhausted() {
        let q = Path { depth: (p.depth + 1) as u16 };
        assert(p.spec_step(bounces[0]) == Step::Continue(q));
        lemma_all_hits_reach_bound(q, bounces.drop_first());
    }
}

} // verus!
