use vstd::prelude::*;

verus! {

/// The two kinds of light source: a point that radiates in every direction,
/// or a direction that light travels along from infinitely far away.
#[derive(Clone, Copy, Debug, PartialEq, Eq, Structural)]
pub enum LightKind {
    Point,
    Directional,
}

} // verus!
