use vstd::prelude::*;

verus! {

/// Authorization tiers, ascending: Normal < Trainer < Admin < Creator.
#[derive(Clone, Copy, Debug, PartialEq, Eq, Structural)]
pub enum RoLevel {
    Normal,
    Trainer,
    Admin,
    Creator,
}

impl RoLevel {
    /// The position of the level in the ascending order.
    pub open spec fn rank(self) -> int {
        match self {
            RoLevel::Normal => 0,
            RoLevel::Trainer => 1,
            RoLevel::Admin => 2,
            RoLevel::Creator => 3,
        }
    }

    pub fn rank_of(&self) -> (r: u8)
        ensures
            r as int == self.rank(),
    {
        match self {
            RoLevel::Normal => 0,
            RoLevel::Trainer => 1,
            RoLevel::Admin => 2,
            RoLevel::Creator => 3,
        }
    }

    /// Whether `self` reaches at least `required`.
    pub fn satisfies(&self, required: &RoLevel) -> (r: bool)
        ensures
            r == (required.rank() <= self.rank()),
    {
        required.rank_of() <= self.rank_of()
    }
}

} // verus!
