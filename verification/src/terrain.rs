//! The kinds of ground a board cell can be made of.

use vstd::prelude::*;

verus! {

#[derive(Debug, Clone, Copy, PartialEq, Eq, Structural, Hash)]
pub enum Terrain {
    Mud,
    Stone,
    Grass,
    Water,
    Sand,
}

/// all the terrains, in the order they're offered to the level designer
pub open spec fn terrains_spec() -> Seq<Terrain> {
    seq![Terrain::Mud, Terrain::Stone, Terrain::Grass, Terrain::Water, Terrain::Sand]
}

/// all the terrains, in the order they're offered to the level designer
pub fn terrains() -> (v: Vec<Terrain>)
    ensures
        v@ == terrains_spec(),
{
    vec![Terrain::Mud, Terrain::Stone, Terrain::Grass, Terrain::Water, Terrain::Sand]
}

impl Terrain {
    pub open spec fn name_spec(self) -> Seq<char> {
        match self {
            Terrain::Mud => "mud"@,
            Terrain::Stone => "stone"@,
            Terrain::Grass => "grass"@,
            Terrain::Water => "water"@,
            Terrain::Sand => "sand"@,
        }
    }

    /// the name shown to the user
    pub fn name(self) -> (s: &'static str)
        ensures
            s@ == self.name_spec(),
    {
        match self {
            Terrain::Mud => "mud",
            Terrain::Stone => "stone",
            Terrain::Grass => "grass",
            Terrain::Water => "water",
            Terrain::Sand => "sand",
        }
    }
}

} // verus!
