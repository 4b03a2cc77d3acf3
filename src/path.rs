//! The control of one light path: how many bounces it may still take, and
//! how it ends. The geometry and the colors are computed by the caller, which
//! reports what happened to each traced ray and asks what to do next.
use vstd::prelude::*;

verus! {

/// What happened to a traced ray.
#[derive(Clone, Copy, Debug, PartialEq, Eq, Structural)]
pub enum Bounce {
    /// The ray struck no surface in range.
    Missed,
    /// The ray struck a surface whose material absorbed it.
    Absorbed,
    /// The ray struck a surface whose material sent a new ray on.
    Scattered,
}

/// The light that ends a path, before the attenuations of its bounces.
#[derive(Clone, Copy, Debug, PartialEq, Eq, Structural)]
pub enum PathEnd {
    /// No light: the path was absorbed or ran out of bounces.
    Black,
    /// The background gradient seen along the last ray.
    Background,
}

/// What the caller does next.
#[derive(Clone, Copy, Debug, PartialEq, Eq, Structural)]
pub enum PathStep {
    /// Trace the current ray through the scene and report the bounce.
    Trace,
    /// The path is over: its color is the product of the attenuations of its
    /// bounces, innermost first, applied to this end.
    Finish(PathEnd),
}

/// What a path's state amounts to: the rays it may still trace, the times it
/// has scattered, and how it ended, once it has.
pub struct PathModel {
    pub remaining: nat,
    pub bounces: nat,
    pub end: Option<PathEnd>,
}

/// A path that may trace `depth` rays and has traced none.
pub open spec fn start_spec(depth: nat) -> PathModel {
    PathModel { remaining: depth, bounces: 0, end: None }
}

/// The step that a path takes next: a finished path stays finished, a path
/// with no ray left ends in black, any other traces.
pub open spec fn step_spec(m: PathModel) -> PathStep {
    match m.end {
        Some(e) => PathStep::Finish(e),
        None => if m.remaining == 0 {
            PathStep::Finish(PathEnd::Black)
        } else {
            PathStep::Trace
        },
    }
}

/// The path after the traced ray met `b`: a miss ends it in the background,
/// an absorption ends it in black, a scatter spends one ray.
pub open spec fn after_spec(m: PathModel, b: Bounce) -> PathModel {
    match b {
        Bounce::Missed => PathModel { end: Some(PathEnd::Background), ..m },
        Bounce::Absorbed => PathModel { end: Some(PathEnd::Black), ..m },
        Bounce::Scattered => PathModel {
            remaining: (m.remaining - 1) as nat,
            bounces: m.bounces + 1,
            ..m
        },
    }
}

/// The path after it is told `bs` in turn, for as long as it asks to trace.
pub open spec fn feed_spec(m: PathModel, bs: Seq<Bounce>) -> PathModel
    decreases bs.len(),
{
    if bs.len() > 0 && step_spec(m) == PathStep::Trace {
        feed_spec(after_spec(m, bs[0]), bs.drop_first())
    } else {
        m
    }
}

/// The light of a ray followed to at most `depth` rays, when the rays traced
/// meet `bs` in turn, as the number of scatters whose attenuations apply and
/// the end they apply to; none where `bs` runs out first. With no depth left
/// the light is black; a ray that strikes nothing sees the background; one
/// that is absorbed ends in black; one that scatters goes on with one ray less.
pub open spec fn outcome_spec(depth: nat, bs: Seq<Bounce>) -> Option<(nat, PathEnd)>
    decreases depth,
{
    if depth == 0 {
        Some((0, PathEnd::Black))
    } else if bs.len() == 0 {
        None
    } else {
        match bs[0] {
            Bounce::Missed => Some((0, PathEnd::Background)),
            Bounce::Absorbed => Some((0, PathEnd::Black)),
            Bounce::Scattered => match outcome_spec((depth - 1) as nat, bs.drop_first()) {
                Some((n, e)) => Some((n + 1, e)),
                None => None,
            },
        }
    }
}

/// Feeding an open path with `bounces` scatters so far ends as the recursive
/// rule says, with those scatters added.
proof fn lemma_feed_open(depth: nat, done: nat, bs: Seq<Bounce>)
    ensures
        ({
            let m = feed_spec(PathModel { remaining: depth, bounces: done, end: None }, bs);
            match outcome_spec(depth, bs) {
                Some((n, e)) => step_spec(m) == PathStep::Finish(e) && m.bounces == done + n,
                None => step_spec(m) == PathStep::Trace,
            }
        }),
    decreases depth,
{
    let m0 = PathModel { remaining: depth, bounces: done, end: None };
    if depth > 0 && bs.len() > 0 {
        let m1 = after_spec(m0, bs[0]);
        match bs[0] {
            Bounce::Scattered => {
                lemma_feed_open((depth - 1) as nat, done + 1, bs.drop_first());
            },
            _ => {
                let rest = bs.drop_first();
                assert(step_spec(m1) != PathStep::Trace);
                if rest.len() > 0 {
                    assert(feed_spec(m1, rest) == m1);
                }
            },
        }
    }
}

/// Driving a path bounce by bounce ends as the recursive definition of a
/// path's light says: a path that may trace `depth` rays, told `bs` in turn
/// while it asks to trace, finishes with the same end and the same number of
/// scatters as `outcome_spec(depth, bs)`, and is still tracing exactly where
/// that is none.
pub proof fn lemma_driven_path_follows_recursion(depth: nat, bs: Seq<Bounce>)
    ensures
        ({
            let m = feed_spec(start_spec(depth), bs);
            match outcome_spec(depth, bs) {
                Some((n, e)) => step_spec(m) == PathStep::Finish(e) && m.bounces == n,
                None => step_spec(m) == PathStep::Trace,
            }
        }),
{
    lemma_feed_open(depth, 0, bs);
}

/// The state of one path.
pub struct PathState {
    remaining: usize,
    bounces: usize,
    end: Option<PathEnd>,
}

impl PathState {
    pub closed spec fn wf(self) -> bool {
        self.remaining + self.bounces <= usize::MAX
    }

    /// What this state amounts to.
    pub closed spec fn model(self) -> PathModel {
        PathModel { remaining: self.remaining as nat, bounces: self.bounces as nat, end: self.end }
    }

    /// A path that may trace `max_depth` rays.
    pub fn new(max_depth: usize) -> (r: PathState)
        ensures
            r.wf(),
            r.model() == start_spec(max_depth as nat),
    {
        PathState { remaining: max_depth, bounces: 0, end: None }
    }

    /// What to do next.
    pub fn next(&self) -> (r: PathStep)
        ensures
            r == step_spec(self.model()),
    {
        match self.end {
            Some(e) => PathStep::Finish(e),
            None => if self.remaining == 0 {
                PathStep::Finish(PathEnd::Black)
            } else {
                PathStep::Trace
            },
        }
    }

    /// Takes in what happened to the ray that `next` asked to trace.
    pub fn record(&mut self, bounce: Bounce)
        requires
            old(self).wf(),
            step_spec(old(self).model()) == PathStep::Trace,
        ensures
            final(self).wf(),
            final(self).model() == after_spec(old(self).model(), bounce),
    {
        match bounce {
            Bounce::Missed => self.end = Some(PathEnd::Background),
            Bounce::Absorbed => self.end = Some(PathEnd::Black),
            Bounce::Scattered => {
                self.remaining = self.remaining - 1;
                self.bounces = self.bounces + 1;
            },
        }
    }

    /// How many times the path has scattered so far.
    pub fn bounce_count(&self) -> (r: usize)
        ensures
            r == self.model().bounces,
    {
        self.bounces
    }
}

} // verus!
