//! Positioned characters of the game, each with its own type.

use vstd::prelude::*;
use crate::pos::{Int, Pos};

verus! {

pub struct Lapin {
    pub pos: Pos,
}

impl Lapin {
    pub fn new(x: Int, y: Int) -> (l: Lapin)
        ensures
            l.pos == (Pos { x, y }),
    {
        Lapin { pos: Pos { x, y } }
    }
}

pub struct Fox {
    pub pos: Pos,
}

impl Fox {
    pub fn new(x: Int, y: Int) -> (f: Fox)
        ensures
            f.pos == (Pos { x, y }),
    {
        Fox { pos: Pos { x, y } }
    }
}

pub struct Knight {
    pub pos: Pos,
}

impl Knight {
    pub fn new(x: Int, y: Int) -> (k: Knight)
        ensures
            k.pos == (Pos { x, y }),
    {
        Knight { pos: Pos { x, y } }
    }
}

} // verus!
