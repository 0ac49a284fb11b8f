use vstd::prelude::*;

verus! {

/// The direction a folded enzyme faces.
#[derive(Debug, PartialEq, Eq, Structural, Clone, Copy)]
pub enum Orientation {
    U,
    D,
    L,
    R,
}

impl Orientation {
    /// The orientation reached after a net turning number, taken modulo four.
    pub open spec fn of_turning_number(t: int) -> Orientation {
        let m = t % 4;
        if m == 0 {
            Orientation::R
        } else if m == 1 {
            Orientation::D
        } else if m == 2 {
            Orientation::L
        } else {
            Orientation::U
        }
    }

    pub fn from_turning_number(turning_number: i32) -> (r: Orientation)
        ensures
            r == Orientation::of_turning_number(turning_number as int),
    {
        let m: i32 = turning_number % 4;
        let m: i32 = if m < 0 { m + 4 } else { m };
        assert(m as int == (turning_number as int) % 4);
        if m == 0 {
            Orientation::R
        } else if m == 1 {
            Orientation::D
        } else if m == 2 {
            Orientation::L
        } else {
            Orientation::U
        }
    }
}

} // verus!
