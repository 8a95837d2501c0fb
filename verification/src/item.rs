//! Items lying on the board.

use vstd::prelude::*;

verus! {

#[derive(Debug, Clone, Copy, PartialEq, Eq, Structural, Hash)]
pub enum ItemKind {
    Carrot,
    Wine,
}

/// all the kinds of items
pub open spec fn items_spec() -> Seq<ItemKind> {
    seq![ItemKind::Carrot, ItemKind::Wine]
}

/// all the kinds of items
pub fn items() -> (v: Vec<ItemKind>)
    ensures
        v@ == items_spec(),
{
    vec![ItemKind::Carrot, ItemKind::Wine]
}

impl ItemKind {
    pub open spec fn name_spec(self) -> Seq<char> {
        match self {
            ItemKind::Carrot => "carrot"@,
            ItemKind::Wine => "wine bottle"@,
        }
    }

    /// the name shown to the user
    pub fn name(self) -> (s: &'static str)
        ensures
            s@ == self.name_spec(),
    {
        match self {
            ItemKind::Carrot => "carrot",
            ItemKind::Wine => "wine bottle",
        }
    }
}

#[derive(Debug, Clone, Copy, PartialEq, Eq, Structural, Hash)]
pub struct Item {
    pub kind: ItemKind,
}

} // verus!
