//! Control of the recursive, depth-bounded path integrator.
//!
//! The integrator follows a light path bounce by bounce. At each bounce the
//! scene either misses the ray, or a material absorbs or scatters it; the
//! step function decides how the path goes on.
use vstd::prelude::*;

verus! {

/// What the scene and the contacted material did with a ray.
#[derive(Clone, Copy, Debug, PartialEq, Eq, Structural)]
pub enum Contact {
    Missed,
    Absorbed,
    Scattered,
}

/// How the color of a path is settled.
#[derive(Clone, Copy, Debug, PartialEq, Eq, Structural)]
pub enum PathStep {
    /// The path carries no light: its bounce budget is spent, or the ray
    /// was absorbed.
    Black,
    /// The ray escaped: the color is the sky's along the ray.
    Sky,
    /// The ray was scattered: the color is the attenuation times the color
    /// traced along the scattered ray with `depth` bounces left.
    Bounce { depth: u32 },
}

pub open spec fn step_spec(depth: u32, contact: Contact) -> PathStep {
    if depth == 0 {
        PathStep::Black
    } else {
        match contact {
            Contact::Missed => PathStep::Sky,
            Contact::Absorbed => PathStep::Black,
            Contact::Scattered => PathStep::Bounce { depth: (depth - 1) as u32 },
        }
    }
}

/// Number of bounces a path starting with `depth` bounces left takes when
/// its contacts are, in order, those of `contacts`.
pub open spec fn bounces(depth: u32, contacts: Seq<Contact>) -> nat
    decreases contacts.len(),
{
    if contacts.len() == 0 {
        0
    } else {
        match step_spec(depth, contacts[0]) {
            PathStep::Bounce { depth: left } => 1 + bounces(left, contacts.drop_first()),
            _ => 0,
        }
    }
}

/// A path with no bounces left contributes black without querying the scene.
pub fn is_exhausted(depth: u32) -> (r: bool)
    ensures
        r == (depth == 0),
{
    depth == 0
}

/// Decides how a path with `depth` bounces left goes on after `contact`.
pub fn next_step(depth: u32, contact: Contact) -> (r: PathStep)
    ensures
        r == step_spec(depth, contact),
{
    if depth == 0 {
        return PathStep::Black;
    }
    match contact {
        Contact::Missed => PathStep::Sky,
        Contact::Absorbed => PathStep::Black,
        Contact::Scattered => PathStep::Bounce { depth: depth - 1 },
    }
}

/// Whatever the scene and materials do, a path bounces at most as many
/// times as its depth allows.
pub proof fn lemma_path_bounded(depth: u32, contacts: Seq<Contact>)
    ensures
        bounces(depth, contacts) <= depth,
    decreases contacts.len(),
{
    if contacts.len() > 0 {
        if let PathStep::Bounce { depth: left } = step_spec(depth, contacts[0]) {
            lemma_path_bounded(left, contacts.drop_first());
        }
    }
}

} // verus!
