//! Static stimuli: point-like objects a vehicle can perceive and consume.
//! A stimulus is inert; it carries only a position, a consumption radius
//! (half its size) and a class tag.

use vstd::prelude::*;
use crate::vec2::{dist_sq, within, Vec2};
use crate::{POS_LIMIT, SIZE_LIMIT};

verus! {

/// The class of a stimulus: beneficial or harmful.
#[derive(Clone, Copy, PartialEq, Eq, Structural, Debug)]
pub enum StimulusClass {
    Food,
    Poison,
}

/// A static point in the world carrying a size, a position and a class tag.
#[derive(Clone, Copy, PartialEq, Eq, Structural, Debug)]
pub struct Stimulus {
    /// Diameter, in fixed-point world units; the consumption radius is half
    /// of it. May be zero for an idealized point stimulus.
    pub size: i64,
    /// Position in world coordinates.
    pub pos: Vec2,
    /// Class tag: food or poison.
    pub class: StimulusClass,
}

impl Stimulus {
    /// Size and position lie within the fixed-point working range.
    pub open spec fn wf(self) -> bool {
        &&& 0 <= self.size <= SIZE_LIMIT
        &&& within(self.pos@, POS_LIMIT as int)
    }

    /// Constructs a stimulus.
    pub fn new(size: i64, pos: Vec2, class: StimulusClass) -> (s: Stimulus)
        requires
            0 <= size <= SIZE_LIMIT,
            within(pos@, POS_LIMIT as int),
        ensures
            s == (Stimulus { size, pos, class }),
            s.wf(),
    {
        Stimulus { size, pos, class }
    }
}

/// A body of size `vsize` centred at `pos` overlaps the stimulus `s`: their
/// centre distance is at most the sum of the two radii (half-sizes). Stated
/// over squares, which is exact: `dist <= (vsize + s.size) / 2` iff
/// `4 * dist^2 <= (vsize + s.size)^2`.
pub open spec fn in_contact(vsize: int, pos: (int, int), s: Stimulus) -> bool {
    4 * dist_sq(pos, s.pos@) <= (vsize + s.size) * (vsize + s.size)
}

} // verus!
