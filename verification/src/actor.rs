//! The actors of the game (the lapin and the other animals or people)
//! and the rules telling who eats, chases or fires on whom.

use vstd::prelude::*;
use crate::pos::{Dir, Int, Pos, PosArea};
use crate::pos_map::{OptionPosMap, PosMap};
use crate::terrain::Terrain;

verus! {

/// the mutable state of an actor
#[derive(Debug, Clone, Copy, PartialEq, Eq, Structural, Hash)]
pub struct ActorState {
    pub dead: bool,
    pub aim: Option<Dir>,
    pub drunk: bool,
}

impl Default for ActorState {
    /// alive, not aiming, not drunk
    fn default() -> (s: Self)
        ensures
            s == (ActorState { dead: false, aim: None, drunk: false }),
    {
        ActorState { dead: false, aim: None, drunk: false }
    }
}

#[derive(Debug, Clone, Copy, PartialEq, Eq, Structural, Hash)]
pub enum ActorKind {
    Lapin,
    Knight,
    Wolf,
    Fox,
    Hunter,
    Sheep,
    Dragon,
}

/// all the kinds of actors, in the order they're offered to the level designer
pub open spec fn actors_spec() -> Seq<ActorKind> {
    seq![
        ActorKind::Lapin,
        ActorKind::Knight,
        ActorKind::Wolf,
        ActorKind::Fox,
        ActorKind::Hunter,
        ActorKind::Sheep,
        ActorKind::Dragon,
    ]
}

/// all the kinds of actors
pub fn actors() -> (v: Vec<ActorKind>)
    ensures
        v@ == actors_spec(),
{
    vec![
        ActorKind::Lapin,
        ActorKind::Knight,
        ActorKind::Wolf,
        ActorKind::Fox,
        ActorKind::Hunter,
        ActorKind::Sheep,
        ActorKind::Dragon,
    ]
}

impl ActorKind {
    /// whether an actor of this kind kills an adjacent actor of the other kind
    pub open spec fn eats_spec(self, other: ActorKind) -> bool {
        match (self, other) {
            (ActorKind::Fox, ActorKind::Lapin) => true,
            (ActorKind::Knight, ActorKind::Fox) => true,
            (ActorKind::Knight, ActorKind::Hunter) => true,
            (ActorKind::Knight, ActorKind::Wolf) => true,
            (ActorKind::Wolf, ActorKind::Hunter) => true,
            (ActorKind::Wolf, ActorKind::Sheep) => true,
            (ActorKind::Wolf, ActorKind::Lapin) => true,
            (ActorKind::Dragon, _) => true,
            _ => false,
        }
    }

    /// whether an actor of this kind chases actors of the other kind
    pub open spec fn runs_after_spec(self, other: ActorKind) -> bool {
        match (self, other) {
            (ActorKind::Fox, ActorKind::Lapin) => true,
            (ActorKind::Hunter, ActorKind::Lapin) => true,
            (ActorKind::Knight, ActorKind::Fox) => true,
            (ActorKind::Wolf, ActorKind::Hunter) => true,
            (ActorKind::Wolf, ActorKind::Sheep) => true,
            (ActorKind::Wolf, ActorKind::Lapin) => true,
            (ActorKind::Dragon, _) => true,
            _ => false,
        }
    }

    /// whether an actor of this kind survives the fire of the firer
    pub open spec fn immune_spec(self, firer: ActorKind) -> bool {
        firer != ActorKind::Dragon && self == ActorKind::Knight
    }

    pub open spec fn name_spec(self) -> Seq<char> {
        match self {
            ActorKind::Lapin => "lapin"@,
            ActorKind::Knight => "knight"@,
            ActorKind::Wolf => "wolf"@,
            ActorKind::Fox => "fox"@,
            ActorKind::Hunter => "hunter"@,
            ActorKind::Sheep => "sheep"@,
            ActorKind::Dragon => "dragon"@,
        }
    }

    pub open spec fn debug_name_spec(self) -> Seq<char> {
        match self {
            ActorKind::Lapin => "Lapin"@,
            ActorKind::Knight => "Knight"@,
            ActorKind::Wolf => "Wolf"@,
            ActorKind::Fox => "Fox"@,
            ActorKind::Hunter => "Hunter"@,
            ActorKind::Sheep => "Sheep"@,
            ActorKind::Dragon => "Dragon"@,
        }
    }

    /// whether the actor gets drunk when walking on a wine bottle
    pub fn drinks_wine(self) -> (b: bool)
        ensures
            b == (self == ActorKind::Hunter),
    {
        match self {
            ActorKind::Hunter => true,
            _ => false,
        }
    }

    /// whether an actor of this kind kills an adjacent actor of the other kind
    pub fn eats(self, other: Self) -> (b: bool)
        ensures
            b == self.eats_spec(other),
    {
        match (self, other) {
            (ActorKind::Fox, ActorKind::Lapin) => true,
            (ActorKind::Knight, ActorKind::Fox) => true,
            (ActorKind::Knight, ActorKind::Hunter) => true,
            (ActorKind::Knight, ActorKind::Wolf) => true,
            (ActorKind::Wolf, ActorKind::Hunter) => true,
            (ActorKind::Wolf, ActorKind::Sheep) => true,
            (ActorKind::Wolf, ActorKind::Lapin) => true,
            (ActorKind::Dragon, _) => true,
            _ => false,
        }
    }

    /// whether an actor of this kind hits (kills when adjacent) the other kind
    pub fn hits(self, other: Self) -> (b: bool)
        ensures
            b == self.eats_spec(other),
    {
        self.eats(other)
    }

    /// whether an actor of this kind chases actors of the other kind
    pub fn runs_after(self, other: Self) -> (b: bool)
        ensures
            b == self.runs_after_spec(other),
    {
        match (self, other) {
            (ActorKind::Fox, ActorKind::Lapin) => true,
            (ActorKind::Hunter, ActorKind::Lapin) => true,
            (ActorKind::Knight, ActorKind::Fox) => true,
            (ActorKind::Wolf, ActorKind::Hunter) => true,
            (ActorKind::Wolf, ActorKind::Sheep) => true,
            (ActorKind::Wolf, ActorKind::Lapin) => true,
            (ActorKind::Dragon, _) => true,
            _ => false,
        }
    }

    /// whether an actor of this kind survives the fire of the firer:
    /// only knights do, except against the dragon
    pub fn is_immune_to_fire(self, firer: ActorKind) -> (b: bool)
        ensures
            b == self.immune_spec(firer),
    {
        match (self, firer) {
            (_, ActorKind::Dragon) => false,
            (ActorKind::Knight, _) => true,
            _ => false,
        }
    }

    /// the name shown to the user
    pub fn name(self) -> (s: &'static str)
        ensures
            s@ == self.name_spec(),
    {
        match self {
            ActorKind::Lapin => "lapin",
            ActorKind::Knight => "knight",
            ActorKind::Wolf => "wolf",
            ActorKind::Fox => "fox",
            ActorKind::Hunter => "hunter",
            ActorKind::Sheep => "sheep",
            ActorKind::Dragon => "dragon",
        }
    }

    /// the name as written in messages (capitalized)
    pub fn debug_name(self) -> (s: &'static str)
        ensures
            s@ == self.debug_name_spec(),
    {
        match self {
            ActorKind::Lapin => "Lapin",
            ActorKind::Knight => "Knight",
            ActorKind::Wolf => "Wolf",
            ActorKind::Fox => "Fox",
            ActorKind::Hunter => "Hunter",
            ActorKind::Sheep => "Sheep",
            ActorKind::Dragon => "Dragon",
        }
    }
}

/// whether an actor of the given kind may walk on the terrain
pub open spec fn can_enter_spec(kind: ActorKind, terrain: Terrain) -> bool {
    match (kind, terrain) {
        (_, Terrain::Mud) => true,
        (_, Terrain::Grass) => true,
        (ActorKind::Knight, Terrain::Sand) => false,
        (_, Terrain::Sand) => true,
        (ActorKind::Dragon, Terrain::Water) => true,
        _ => false,
    }
}

/// the kinds of actors hunted by an actor of the given kind
/// (for the hunter, when not drunk)
pub open spec fn preys_spec(kind: ActorKind) -> Option<Seq<ActorKind>> {
    match kind {
        ActorKind::Fox => Some(seq![ActorKind::Lapin]),
        ActorKind::Knight => Some(seq![ActorKind::Wolf, ActorKind::Fox, ActorKind::Hunter]),
        ActorKind::Hunter => Some(seq![ActorKind::Lapin, ActorKind::Wolf, ActorKind::Fox]),
        ActorKind::Wolf => Some(seq![ActorKind::Lapin, ActorKind::Hunter]),
        ActorKind::Dragon => Some(
            seq![
                ActorKind::Lapin,
                ActorKind::Hunter,
                ActorKind::Wolf,
                ActorKind::Fox,
                ActorKind::Sheep,
            ],
        ),
        _ => None,
    }
}

/// whether the firer fires on the target
pub open spec fn fires_on_spec(firer: Actor, target: Actor) -> bool {
    match firer.kind {
        ActorKind::Dragon => true,
        ActorKind::Hunter => firer.state.drunk || match target.kind {
            ActorKind::Fox | ActorKind::Knight | ActorKind::Lapin | ActorKind::Wolf => true,
            _ => false,
        },
        _ => false,
    }
}

#[derive(Debug, Clone, Copy, PartialEq, Eq, Structural, Hash)]
pub struct Actor {
    pub kind: ActorKind,
    pub pos: Pos,
    pub state: ActorState,
}

impl Actor {
    pub open spec fn new_spec(kind: ActorKind, pos: Pos) -> Actor {
        Actor { kind, pos, state: ActorState { dead: false, aim: None, drunk: false } }
    }

    /// a living actor, not aiming, not drunk
    pub fn new(kind: ActorKind, x: Int, y: Int) -> (a: Actor)
        ensures
            a.kind == kind,
            a.pos == (Pos { x, y }),
            a.state == (ActorState { dead: false, aim: None, drunk: false }),
    {
        Actor { kind, pos: Pos::new(x, y), state: ActorState::default() }
    }

    /// whether the actor can walk on the terrain
    pub fn can_enter(self, terrain: Terrain) -> (b: bool)
        ensures
            b == can_enter_spec(self.kind, terrain),
    {
        match (self.kind, terrain) {
            (_, Terrain::Mud) => true,
            (_, Terrain::Grass) => true,
            (ActorKind::Knight, Terrain::Sand) => false,
            (_, Terrain::Sand) => true,
            (ActorKind::Dragon, Terrain::Water) => true,
            _ => false,
        }
    }

    /// the kinds of actors this one hunts, if it's a hunting one
    pub fn preys(self) -> (r: Option<Vec<ActorKind>>)
        ensures
            match (r, preys_spec(self.kind)) {
                (Some(v), Some(s)) => v@ == s,
                (None, None) => true,
                _ => false,
            },
    {
        match self.kind {
            ActorKind::Fox => Some(vec![ActorKind::Lapin]),
            ActorKind::Knight => Some(vec![ActorKind::Wolf, ActorKind::Fox, ActorKind::Hunter]),
            ActorKind::Hunter => Some(vec![ActorKind::Lapin, ActorKind::Wolf, ActorKind::Fox]),
            ActorKind::Wolf => Some(vec![ActorKind::Lapin, ActorKind::Hunter]),
            ActorKind::Dragon => Some(
                vec![
                    ActorKind::Lapin,
                    ActorKind::Hunter,
                    ActorKind::Wolf,
                    ActorKind::Fox,
                    ActorKind::Sheep,
                ],
            ),
            _ => None,
        }
    }

    pub fn eats(self, other: Actor) -> (b: bool)
        ensures
            b == self.kind.eats_spec(other.kind),
    {
        self.kind.eats(other.kind)
    }

    pub fn hits(self, other: Actor) -> (b: bool)
        ensures
            b == self.kind.eats_spec(other.kind),
    {
        self.kind.eats(other.kind)
    }

    /// whether this actor would fire on the other one
    pub fn fires_on(self, other: Actor) -> (b: bool)
        ensures
            b == fires_on_spec(self, other),
    {
        match self.kind {
            ActorKind::Dragon => true,
            ActorKind::Hunter => {
                if self.state.drunk {
                    true
                } else {
                    match other.kind {
                        ActorKind::Fox | ActorKind::Knight | ActorKind::Lapin | ActorKind::Wolf => true,
                        _ => false,
                    }
                }
            },
            _ => false,
        }
    }

    pub fn runs_after(self, other: Actor) -> (b: bool)
        ensures
            b == self.kind.runs_after_spec(other.kind),
    {
        self.kind.runs_after(other.kind)
    }

    pub fn is_aiming(self) -> (b: bool)
        ensures
            b == self.state.aim.is_some(),
    {
        self.state.aim.is_some()
    }
}

/// a map from positions to actors.
/// Note that it's possible to insert an actor at a position
/// other than its own (for example its target) using `set`.
pub type ActorPosMap = OptionPosMap<Actor>;

impl PosMap<Option<Actor>> {
    /// an empty actor map (the area is only an indication)
    pub fn from(area: PosArea) -> (m: ActorPosMap)
        ensures
            m.wf(),
            m.dflt() == None::<Actor>,
            m@ == Map::<Pos, Option<Actor>>::empty(),
    {
        PosMap::new(None)
    }

    /// reference the actor at its position
    pub fn insert(&mut self, actor: Actor)
        requires
            old(self).wf(),
        ensures
            final(self).wf(),
            final(self).dflt() == old(self).dflt(),
            final(self)@ == old(self)@.insert(actor.pos, Some(actor)),
    {
        self.set(actor.pos, Some(actor));
    }
}

/// The food chain of the game: the dragon eats everybody, the fox eats
/// the lapin, the knight eats the fox, the hunter and the wolf, and the
/// wolf eats the hunter, the sheep and the lapin; nobody else eats.
pub proof fn lemma_food_chain(a: ActorKind, b: ActorKind)
    ensures
        a.eats_spec(b) <==> {
            ||| a == ActorKind::Dragon
            ||| a == ActorKind::Fox && b == ActorKind::Lapin
            ||| a == ActorKind::Knight && (b == ActorKind::Fox || b == ActorKind::Hunter || b == ActorKind::Wolf)
            ||| a == ActorKind::Wolf && (b == ActorKind::Hunter || b == ActorKind::Sheep || b == ActorKind::Lapin)
        },
{
}

/// Who chases whom: the dragon chases everybody; the fox, the hunter and
/// the wolf chase the lapin; the knight chases the fox; the wolf also
/// chases the hunter and the sheep; nobody else chases anybody. In
/// particular the lapin is chased exactly by the fox, the hunter, the
/// wolf and the dragon.
pub proof fn lemma_chases(a: ActorKind, b: ActorKind)
    ensures
        a.runs_after_spec(b) <==> {
            ||| a == ActorKind::Dragon
            ||| (a == ActorKind::Fox || a == ActorKind::Hunter || a == ActorKind::Wolf) && b == ActorKind::Lapin
            ||| a == ActorKind::Knight && b == ActorKind::Fox
            ||| a == ActorKind::Wolf && (b == ActorKind::Hunter || b == ActorKind::Sheep)
        },
        b == ActorKind::Lapin ==> (a.runs_after_spec(b) <==> (a == ActorKind::Fox || a == ActorKind::Hunter || a
            == ActorKind::Wolf || a == ActorKind::Dragon)),
{
}

/// Only knights survive a fire, and not the dragon's.
pub proof fn lemma_fire_immunity(target: ActorKind, firer: ActorKind)
    ensures
        target.immune_spec(firer) <==> (target == ActorKind::Knight && firer != ActorKind::Dragon),
{
}

} // verus!
