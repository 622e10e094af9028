//! Closest-hit search over the members of a scene.
//!
//! Each member is described by the roots of its intersection with the ray,
//! or by `None` when the ray misses it.
use vstd::prelude::*;
use crate::sphere::{accepted_t, pick_root, Root, Roots, root_choice};

verus! {

/// The member that was hit, which of its roots, and the distance of that root.
#[derive(Clone, Copy, Debug, PartialEq, Eq, Structural)]
pub struct Hit {
    pub index: usize,
    pub root: Root,
    pub t: u64,
}

/// The distance at which a member accepts the ray in the window, if any.
pub open spec fn member_t(member: Option<Roots>, t_min: u64, t_max: u64) -> Option<u64> {
    match member {
        Some(roots) => accepted_t(roots, t_min, t_max),
        None => None,
    }
}

/// Every member that has roots has them in order.
pub open spec fn all_ordered(members: Seq<Option<Roots>>) -> bool {
    forall|i: int| 0 <= i < members.len() && members[i] is Some ==> (#[trigger] members[i]).unwrap().ordered()
}

/// Some member accepts the ray at distance `t`.
pub open spec fn admissible(members: Seq<Option<Roots>>, t_min: u64, t_max: u64, t: u64) -> bool {
    exists|i: int| 0 <= i < members.len() && member_t(#[trigger] members[i], t_min, t_max) == Some(t)
}

/// `t` is the smallest distance at which any member accepts the ray.
pub open spec fn is_nearest(members: Seq<Option<Roots>>, t_min: u64, t_max: u64, t: u64) -> bool {
    &&& admissible(members, t_min, t_max, t)
    &&& forall|u: u64| #[trigger] admissible(members, t_min, t_max, u) ==> t <= u
}

/// With a narrower upper bound, an ordered member accepts exactly when its
/// acceptance in the wider window falls below that bound, at the same root.
proof fn lemma_narrowed(roots: Roots, t_min: u64, bound: u64, t_max: u64)
    requires
        roots.ordered(),
        t_min <= bound <= t_max,
    ensures
        root_choice(roots, t_min, bound) is Some <==> (accepted_t(roots, t_min, t_max) is Some
            && accepted_t(roots, t_min, t_max).unwrap() < bound),
        root_choice(roots, t_min, bound) is Some ==> root_choice(roots, t_min, bound)
            == root_choice(roots, t_min, t_max),
{
}

/// Finds the member hit at the smallest distance inside the open window
/// `(t_min, t_max)`, narrowing the window to each accepted hit in turn, so
/// that among equally near members the first one is reported.
pub fn closest_hit(members: &Vec<Option<Roots>>, t_min: u64, t_max: u64) -> (r: Option<Hit>)
    requires
        t_min <= t_max,
        all_ordered(members@),
    ensures
        r is None <==> forall|u: u64| !admissible(members@, t_min, t_max, u),
        r matches Some(h) ==> {
            &&& h.index < members.len()
            &&& members@[h.index as int] is Some
            &&& root_choice(members@[h.index as int].unwrap(), t_min, t_max) == Some(h.root)
            &&& members@[h.index as int].unwrap().value(h.root) == h.t
            &&& member_t(members@[h.index as int], t_min, t_max) == Some(h.t)
            &&& is_nearest(members@, t_min, t_max, h.t)
            &&& forall|j: int| 0 <= j < h.index ==> member_t(#[trigger] members@[j], t_min, t_max) != Some(h.t)
        },
{
    let mut best: Option<Hit> = None;
    let mut closest: u64 = t_max;
    let mut i: usize = 0;
    while i < members.len()
        invariant
            i <= members.len(),
            t_min <= closest <= t_max,
            all_ordered(members@),
            best is None ==> closest == t_max,
            best is None <==> forall|j: int| 0 <= j < i ==> member_t(#[trigger] members@[j], t_min, t_max) is None,
            best matches Some(h) ==> {
                &&& h.index < i
                &&& h.t == closest
                &&& members@[h.index as int] is Some
                &&& root_choice(members@[h.index as int].unwrap(), t_min, t_max) == Some(h.root)
                &&& members@[h.index as int].unwrap().value(h.root) == h.t
                &&& member_t(members@[h.index as int], t_min, t_max) == Some(h.t)
                &&& forall|j: int| 0 <= j < h.index ==> member_t(#[trigger] members@[j], t_min, t_max) != Some(h.t)
                &&& forall|j: int| 0 <= j < i && (#[trigger] member_t(members@[j], t_min, t_max)) is Some
                    ==> h.t <= member_t(members@[j], t_min, t_max).unwrap()
            },
        decreases members.len() - i,
    {
        if let Some(roots) = members[i] {
            proof {
                lemma_narrowed(roots, t_min, closest, t_max);
            }
            if let Some(root) = pick_root(roots, t_min, closest) {
                let t = if let Root::Near = root { roots.near } else { roots.far };
                best = Some(Hit { index: i, root, t });
                closest = t;
            }
        }
        i = i + 1;
    }
    proof {
        if let Some(h) = best {
            assert forall|u: u64| #[trigger] admissible(members@, t_min, t_max, u) implies h.t <= u by {
                let j = choose|j: int| 0 <= j < members.len() && member_t(#[trigger] members@[j], t_min, t_max) == Some(u);
            }
            assert(admissible(members@, t_min, t_max, h.t));
        } else {
            assert forall|u: u64| !admissible(members@, t_min, t_max, u) by {
                if admissible(members@, t_min, t_max, u) {
                    let j = choose|j: int| 0 <= j < members.len() && member_t(#[trigger] members@[j], t_min, t_max) == Some(u);
                }
            }
        }
    }
    best
}

/// The nearest hit does not depend on the order in which members were
/// added: two scenes holding the same members admit the same distances and
/// report the same nearest one.
pub proof fn lemma_nearest_order_free(a: Seq<Option<Roots>>, b: Seq<Option<Roots>>, t_min: u64, t_max: u64)
    requires
        a.to_set() == b.to_set(),
    ensures
        forall|t: u64| admissible(a, t_min, t_max, t) <==> admissible(b, t_min, t_max, t),
        forall|t: u64, u: u64| is_nearest(a, t_min, t_max, t) && is_nearest(b, t_min, t_max, u) ==> t == u,
{
    assert forall|t: u64| admissible(a, t_min, t_max, t) implies admissible(b, t_min, t_max, t) by {
        let i = choose|i: int| 0 <= i < a.len() && member_t(#[trigger] a[i], t_min, t_max) == Some(t);
        assert(a.to_set().contains(a[i]));
        let j = choose|j: int| 0 <= j < b.len() && b[j] == a[i];
        assert(member_t(b[j], t_min, t_max) == Some(t));
    }
    assert forall|t: u64| admissible(b, t_min, t_max, t) implies admissible(a, t_min, t_max, t) by {
        let i = choose|i: int| 0 <= i < b.len() && member_t(#[trigger] b[i], t_min, t_max) == Some(t);
        assert(b.to_set().contains(b[i]));
        let j = choose|j: int| 0 <= j < a.len() && a[j] == b[i];
        assert(member_t(a[j], t_min, t_max) == Some(t));
    }
    assert forall|t: u64, u: u64| is_nearest(a, t_min, t_max, t) && is_nearest(b, t_min, t_max, u) implies t == u by {
        assert(admissible(b, t_min, t_max, t));
        assert(admissible(a, t_min, t_max, u));
    }
}

} // verus!
