//! What the pen of the level editor draws with.

use vstd::prelude::*;
use crate::actor::ActorKind;
use crate::item::ItemKind;
use crate::terrain::Terrain;

verus! {

#[derive(Debug, Clone, Copy, PartialEq, Eq, Structural)]
pub enum Ink {
    EraseTerrain,
    Terrain(Terrain),
    EraseItem,
    Item(ItemKind),
    EraseActor,
    Actor(ActorKind),
}

impl Ink {
    pub open spec fn name_spec(self) -> Seq<char> {
        match self {
            Ink::EraseTerrain => "erase terrain"@,
            Ink::Terrain(t) => t.name_spec(),
            Ink::EraseItem => "erase item"@,
            Ink::Item(k) => k.name_spec(),
            Ink::EraseActor => "erase actor"@,
            Ink::Actor(k) => k.name_spec(),
        }
    }

    /// the name shown below the selected inkwell
    pub fn name(self) -> (s: &'static str)
        ensures
            s@ == self.name_spec(),
    {
        match self {
            Ink::EraseTerrain => "erase terrain",
            Ink::Terrain(t) => t.name(),
            Ink::EraseItem => "erase item",
            Ink::Item(k) => k.name(),
            Ink::EraseActor => "erase actor",
            Ink::Actor(k) => k.name(),
        }
    }
}

/// the terrain inks, the eraser first
pub open spec fn terrain_inks_spec() -> Seq<Ink> {
    seq![
        Ink::EraseTerrain,
        Ink::Terrain(Terrain::Mud),
        Ink::Terrain(Terrain::Stone),
        Ink::Terrain(Terrain::Grass),
        Ink::Terrain(Terrain::Water),
        Ink::Terrain(Terrain::Sand),
    ]
}

/// the item inks, the eraser first
pub open spec fn item_inks_spec() -> Seq<Ink> {
    seq![Ink::EraseItem, Ink::Item(ItemKind::Carrot), Ink::Item(ItemKind::Wine)]
}

/// the actor inks, the eraser first
pub open spec fn actor_inks_spec() -> Seq<Ink> {
    seq![
        Ink::EraseActor,
        Ink::Actor(ActorKind::Lapin),
        Ink::Actor(ActorKind::Knight),
        Ink::Actor(ActorKind::Wolf),
        Ink::Actor(ActorKind::Fox),
        Ink::Actor(ActorKind::Hunter),
        Ink::Actor(ActorKind::Sheep),
        Ink::Actor(ActorKind::Dragon),
    ]
}

pub fn terrain_inks() -> (v: Vec<Ink>)
    ensures
        v@ == terrain_inks_spec(),
{
    vec![
        Ink::EraseTerrain,
        Ink::Terrain(Terrain::Mud),
        Ink::Terrain(Terrain::Stone),
        Ink::Terrain(Terrain::Grass),
        Ink::Terrain(Terrain::Water),
        Ink::Terrain(Terrain::Sand),
    ]
}

pub fn item_inks() -> (v: Vec<Ink>)
    ensures
        v@ == item_inks_spec(),
{
    vec![Ink::EraseItem, Ink::Item(ItemKind::Carrot), Ink::Item(ItemKind::Wine)]
}

pub fn actor_inks() -> (v: Vec<Ink>)
    ensures
        v@ == actor_inks_spec(),
{
    vec![
        Ink::EraseActor,
        Ink::Actor(ActorKind::Lapin),
        Ink::Actor(ActorKind::Knight),
        Ink::Actor(ActorKind::Wolf),
        Ink::Actor(ActorKind::Fox),
        Ink::Actor(ActorKind::Hunter),
        Ink::Actor(ActorKind::Sheep),
        Ink::Actor(ActorKind::Dragon),
    ]
}

} // verus!
