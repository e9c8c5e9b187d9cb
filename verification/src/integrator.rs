//! The bookkeeping of one light path: how many bounces are left, and how
//! the path ends.
//!
//! A path starts with a budget of bounces. While budget is left, the ray
//! is tested against the scene; what comes of that is reported here, and
//! the answer is whether the path goes on. The colours along the path are
//! multiplied by whoever traces it.

use vstd::prelude::*;

verus! {

/// How a path ends.
#[derive(Debug, Clone, Copy, PartialEq, Eq, Structural)]
pub enum PathEnd {
    /// The budget ran out before the path left the scene: no light.
    Exhausted,
    /// A material swallowed the ray: no light.
    Absorbed,
    /// The ray left the scene: the light of the sky behind it.
    Escaped,
}

/// What came of testing a ray against the scene.
#[derive(Debug, Clone, Copy, PartialEq, Eq, Structural)]
pub enum Bounce {
    /// The ray hit nothing.
    Miss,
    /// The ray hit a surface whose material swallowed it.
    Absorbed,
    /// The ray hit a surface and was scattered.
    Scattered,
}

impl PathEnd {
    /// Whether a path that ends so carries no light at all, whatever the
    /// scene holds.
    pub fn is_black(&self) -> (r: bool)
        ensures
            r == (*self != PathEnd::Escaped),
    {
        match self {
            PathEnd::Exhausted => true,
            PathEnd::Absorbed => true,
            PathEnd::Escaped => false,
        }
    }
}

/// A path under way.
#[derive(Debug, Clone, Copy)]
pub struct Path {
    pub depth_left: u16,
}

impl Path {
    /// A path that may bounce `max_depth` times.
    pub fn start(max_depth: u16) -> (r: Path)
        ensures
            r.depth_left == max_depth,
    {
        Path { depth_left: max_depth }
    }

    /// Whether the path is over before the scene is looked at: so it is
    /// when no budget is left. A path that starts without budget therefore
    /// carries no light, whatever the scene holds.
    pub fn exhausted(&self) -> (r: Option<PathEnd>)
        ensures
            r == (if self.depth_left == 0 {
                Some(PathEnd::Exhausted)
            } else {
                None
            }),
    {
        if self.depth_left == 0 {
            Some(PathEnd::Exhausted)
        } else {
            None
        }
    }

    /// Takes in what came of testing the ray against the scene. A miss and
    /// a swallowed ray end the path; a scattered ray goes on with one
    /// bounce less.
    pub fn advance(&mut self, bounce: Bounce) -> (r: Option<PathEnd>)
        requires
            old(self).depth_left > 0,
        ensures
            r == end_of(bounce),
            final(self).depth_left == (if bounce == Bounce::Scattered {
                old(self).depth_left - 1
            } else {
                old(self).depth_left as int
            }),
    {
        match bounce {
            Bounce::Miss => Some(PathEnd::Escaped),
            Bounce::Absorbed => Some(PathEnd::Absorbed),
            Bounce::Scattered => {
                self.depth_left = self.depth_left - 1;
                None
            },
        }
    }
}

/// The end that a bounce brings, if it brings one.
pub open spec fn end_of(bounce: Bounce) -> Option<PathEnd> {
    match bounce {
        Bounce::Miss => Some(PathEnd::Escaped),
        Bounce::Absorbed => Some(PathEnd::Absorbed),
        Bounce::Scattered => None,
    }
}

} // verus!
