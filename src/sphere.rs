//! Root selection for a ray/sphere intersection.
//!
//! Parametric distances along a ray are carried as order keys: unsigned
//! integers whose order is the order of the distances they stand for.
use vstd::prelude::*;

verus! {

/// Which of the two roots of the intersection quadratic was accepted.
#[derive(Clone, Copy, Debug, PartialEq, Eq, Structural)]
pub enum Root {
    Near,
    Far,
}

/// The two roots of a ray/sphere quadratic, the nearer one first.
#[derive(Clone, Copy, Debug, PartialEq, Eq, Structural)]
pub struct Roots {
    pub near: u64,
    pub far: u64,
}

impl Roots {
    pub open spec fn ordered(self) -> bool {
        self.near <= self.far
    }

    pub open spec fn value(self, root: Root) -> u64 {
        match root {
            Root::Near => self.near,
            Root::Far => self.far,
        }
    }
}

/// `t` lies strictly between `t_min` and `t_max`.
pub open spec fn inside(t: u64, t_min: u64, t_max: u64) -> bool {
    t_min < t && t < t_max
}

/// The near root when it lies in the open window, else the far root when
/// it does, else none.
pub open spec fn root_choice(roots: Roots, t_min: u64, t_max: u64) -> Option<Root> {
    if inside(roots.near, t_min, t_max) {
        Some(Root::Near)
    } else if inside(roots.far, t_min, t_max) {
        Some(Root::Far)
    } else {
        None
    }
}

/// The parametric distance of the accepted root, if any.
pub open spec fn accepted_t(roots: Roots, t_min: u64, t_max: u64) -> Option<u64> {
    match root_choice(roots, t_min, t_max) {
        Some(root) => Some(roots.value(root)),
        None => None,
    }
}

/// Whether `t` lies in the open search window; an inverted window is a
/// caller error.
pub fn in_min_max(t: u64, min: u64, max: u64) -> (r: bool)
    requires
        min <= max,
    ensures
        r == inside(t, min, max),
{
    t < max && t > min
}

/// Accepts the near root when it lies in the window, otherwise the far one
/// when it does; with ordered roots this is the smallest root in the window.
pub fn pick_root(roots: Roots, t_min: u64, t_max: u64) -> (r: Option<Root>)
    requires
        t_min <= t_max,
    ensures
        r == root_choice(roots, t_min, t_max),
        r is None <==> !inside(roots.near, t_min, t_max) && !inside(roots.far, t_min, t_max),
        r matches Some(root) ==> inside(roots.value(root), t_min, t_max),
        r is Some && roots.ordered() && inside(roots.near, t_min, t_max) ==> roots.value(
            r.unwrap(),
        ) <= roots.near,
        r is Some && roots.ordered() && inside(roots.far, t_min, t_max) ==> roots.value(
            r.unwrap(),
        ) <= roots.far,
{
    if in_min_max(roots.near, t_min, t_max) {
        Some(Root::Near)
    } else if in_min_max(roots.far, t_min, t_max) {
        Some(Root::Far)
    } else {
        None
    }
}

} // verus!
