//! The places of the screen where the user picks an ink.

use vstd::prelude::*;
use crate::edit::ink::Ink;
use crate::layout::ScreenPos;

verus! {

/// a place on the screen on which you click to select an ink
#[derive(Debug, Clone, Copy, PartialEq, Eq, Structural)]
pub struct InkWell {
    pub sp: ScreenPos,
    pub ink: Ink,
}

/// `k` is the first inkwell at the position
pub open spec fn first_inkwell_at(inkwells: Seq<InkWell>, sp: ScreenPos, k: int) -> bool {
    &&& 0 <= k < inkwells.len()
    &&& inkwells[k].sp == sp
    &&& forall|j: int| 0 <= j < k ==> (#[trigger] inkwells[j]).sp != sp
}

/// the ink of the first inkwell at the position, if any
pub open spec fn ink_at_spec(inkwells: Seq<InkWell>, sp: ScreenPos) -> Option<Ink> {
    if exists|k: int| 0 <= k < inkwells.len() && (#[trigger] inkwells[k]).sp == sp {
        Some(inkwells[choose|k: int| first_inkwell_at(inkwells, sp, k)].ink)
    } else {
        None
    }
}

/// the ink of the inkwell at the clicked screen position, if any
pub fn ink_at(inkwells: &Vec<InkWell>, sp: ScreenPos) -> (r: Option<Ink>)
    ensures
        r == ink_at_spec(inkwells@, sp),
{
    let mut k: usize = 0;
    while k < inkwells.len()
        invariant
            k <= inkwells@.len(),
            forall|j: int| 0 <= j < k ==> inkwells@[j].sp != sp,
        decreases inkwells@.len() - k,
    {
        if inkwells[k].sp == sp {
            proof {
                assert(first_inkwell_at(inkwells@, sp, k as int));
                let c = choose|c: int| first_inkwell_at(inkwells@, sp, c);
                if c < k {
                    assert(inkwells@[c].sp != sp);
                } else if c > k {
                    assert(inkwells@[k as int].sp != sp);
                }
            }
            return Some(inkwells[k].ink);
        }
        k += 1;
    }
    None
}

} // verus!
