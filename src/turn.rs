use vstd::prelude::*;

verus! {

/// A turn made by an amino acid when an enzyme folds.
#[derive(Debug, PartialEq, Eq, Structural, Clone, Copy)]
pub enum Turn {
    L,
    S,
    R,
}

impl Turn {
    pub open spec fn value(self) -> int {
        match self {
            Turn::L => -1,
            Turn::S => 0,
            Turn::R => 1,
        }
    }

    pub fn to_int(self) -> (r: i32)
        ensures
            r as int == self.value(),
    {
        match self {
            Turn::L => -1,
            Turn::S => 0,
            Turn::R => 1,
        }
    }
}

} // verus!
