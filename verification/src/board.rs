//! The game state: terrains, actors and items, and the rules applying
//! the moves of the player and of the world.

use vstd::prelude::*;
use crate::actor::{can_enter_spec, Actor, ActorKind, ActorPosMap, ActorState};
use crate::actor_map::{rebuild_refs, ActorId, ActorMap, ActorMapError, ActorMapModel, ActorRef};
use crate::item::{Item, ItemKind};
use crate::level::Level;
use crate::pos::{Dir, Int, Pos, PosArea};
use crate::pos_map::{set_all, set_all_some, OptionPosMap, PosMap, PosSet};
use crate::terrain::Terrain;
use crate::world_move::{Action, ActorMove, WorldMove};

verus! {

/// whose turn it is
#[derive(Debug, Clone, Copy, PartialEq, Eq, Structural)]
pub enum Player {
    Lapin,
    World,
    /// the game is over
    Nobody,
}

/// what a move resulted in, with the message for the player when
/// the game ends
#[derive(Debug)]
pub enum MoveResult {
    Valid,
    Invalid,
    PlayerWin(String),
    PlayerLose(String),
}

/// the outcome of a move, without the message
#[derive(Debug, Clone, Copy, PartialEq, Eq, Structural)]
pub enum MoveOutcome {
    Valid,
    Invalid,
    Win,
    /// the lapin was eaten by an actor of that kind
    EatenBy(ActorKind),
    /// the lapin was killed by the fire of an actor of that kind
    KilledBy(ActorKind),
}

pub open spec fn win_message() -> Seq<char> {
    "You're on the grass."@
}

pub open spec fn eaten_message(kind: ActorKind) -> Seq<char> {
    "You have been eaten by a *"@ + kind.debug_name_spec() + "*."@
}

pub open spec fn killed_message(kind: ActorKind) -> Seq<char> {
    "You have been killed by a *"@ + kind.debug_name_spec() + "*."@
}

/// the move result telling the outcome
pub open spec fn result_tells(r: MoveResult, o: MoveOutcome) -> bool {
    match (r, o) {
        (MoveResult::Valid, MoveOutcome::Valid) => true,
        (MoveResult::Invalid, MoveOutcome::Invalid) => true,
        (MoveResult::PlayerWin(s), MoveOutcome::Win) => s@ == win_message(),
        (MoveResult::PlayerLose(s), MoveOutcome::EatenBy(k)) => s@ == eaten_message(k),
        (MoveResult::PlayerLose(s), MoveOutcome::KilledBy(k)) => s@ == killed_message(k),
        _ => false,
    }
}

/// the move result of an outcome, with its message
pub fn outcome_result(o: MoveOutcome) -> (r: MoveResult)
    ensures
        result_tells(r, o),
{
    match o {
        MoveOutcome::Valid => MoveResult::Valid,
        MoveOutcome::Invalid => MoveResult::Invalid,
        MoveOutcome::Win => MoveResult::PlayerWin(String::from_str("You're on the grass.")),
        MoveOutcome::EatenBy(kind) => {
            let mut s = String::from_str("You have been eaten by a *");
            s.append(kind.debug_name());
            s.append("*.");
            MoveResult::PlayerLose(s)
        },
        MoveOutcome::KilledBy(kind) => {
            let mut s = String::from_str("You have been killed by a *");
            s.append(kind.debug_name());
            s.append("*.");
            MoveResult::PlayerLose(s)
        },
    }
}

/// the area the lapin can't leave
pub open spec fn game_area_spec() -> PosArea {
    PosArea { left: -1000i32, right: 1000i32, top: -1000i32, bottom: 1000i32 }
}

/// the area the lapin can't leave
pub fn game_area() -> (a: PosArea)
    ensures
        a == game_area_spec(),
{
    PosArea::new(-1000..1000, -1000..1000)
}

/// whether the position is in the rectangle [x0, x1[ x [y0, y1[
pub open spec fn in_rect(p: Pos, x0: int, x1: int, y0: int, y1: int) -> bool {
    x0 <= p.x < x1 && y0 <= p.y < y1
}

/// the map where all positions of the rectangle [x0, x1[ x [y0, y1[ hold v
pub open spec fn paint<T>(m: Map<Pos, T>, x0: int, x1: int, y0: int, y1: int, v: T) -> Map<Pos, T> {
    Map::new(
        |p: Pos| m.contains_key(p) || in_rect(p, x0, x1, y0, y1),
        |p: Pos| if in_rect(p, x0, x1, y0, y1) { v } else { m[p] },
    )
}

/// the abstract state of a board
#[verifier::ext_equal]
pub struct BoardModel {
    pub name: Seq<char>,
    pub area: PosArea,
    pub default_terrain: Terrain,
    /// the terrains explicitly set (the other positions have the default one)
    pub terrains: Map<Pos, Terrain>,
    pub actors: ActorMapModel,
    /// the item slots explicitly set (the other positions have none)
    pub items: Map<Pos, Option<Item>>,
    pub current_player: Player,
}

impl BoardModel {
    pub open spec fn terrain_at(self, pos: Pos) -> Terrain {
        if self.terrains.contains_key(pos) {
            self.terrains[pos]
        } else {
            self.default_terrain
        }
    }

    pub open spec fn item_at(self, pos: Pos) -> Option<Item> {
        if self.items.contains_key(pos) {
            self.items[pos]
        } else {
            None
        }
    }

    pub open spec fn lapin(self) -> Actor {
        self.actors.actors[0]
    }

    /// the board after the lapin tried to move in `dir`, and the outcome.
    /// The lapin can't leave the game area, enter a terrain it can't walk
    /// on, or go on an actor, unless this actor runs after it, in which
    /// case the lapin is eaten. Reaching the grass wins, and eating a
    /// carrot gives another move.
    pub open spec fn player_move(self, dir: Dir) -> (BoardModel, MoveOutcome) {
        let lapin = self.lapin();
        if self.current_player != Player::Lapin || !lapin.pos.can_step(dir) {
            (self, MoveOutcome::Invalid)
        } else {
            let pos = lapin.pos.step(dir);
            if !game_area_spec().contains_spec(pos) || !can_enter_spec(lapin.kind, self.terrain_at(pos)) {
                (self, MoveOutcome::Invalid)
            } else {
                match self.actors.by_pos(pos) {
                    Some(actor) => {
                        if actor.kind.runs_after_spec(lapin.kind) {
                            let actors = self.actors.with_state(0, ActorState { dead: true, ..lapin.state }).with_moved(0, pos);
                            (
                                BoardModel { actors, current_player: Player::Nobody, ..self },
                                MoveOutcome::EatenBy(actor.kind),
                            )
                        } else {
                            (self, MoveOutcome::Invalid)
                        }
                    },
                    None => {
                        let actors = self.actors.with_lapin_at(pos);
                        if self.terrain_at(pos) == Terrain::Grass {
                            (BoardModel { actors, current_player: Player::Nobody, ..self }, MoveOutcome::Win)
                        } else if self.item_at(pos) == Some(Item { kind: ItemKind::Carrot }) {
                            (
                                BoardModel { actors, items: self.items.remove(pos), ..self },
                                MoveOutcome::Valid,
                            )
                        } else {
                            (BoardModel { actors, current_player: Player::World, ..self }, MoveOutcome::Valid)
                        }
                    },
                }
            }
        }
    }
}

/// the state of a world turn, while the actor moves are applied
#[verifier::ext_equal]
pub struct WorldTurn {
    pub actors: ActorMapModel,
    pub items: Map<Pos, Option<Item>>,
    pub player: Player,
    pub outcome: MoveOutcome,
    /// the moves which were applied
    pub kept: Seq<ActorMove>,
}

/// the turn after one more actor move. Moves of dead actors are ignored,
/// as are kills of already dead actors and moves to occupied positions.
/// A firer kills its target unless the target is immune to its fire.
/// A hunter walking on wine gets drunk.
pub open spec fn world_step(t: WorldTurn, m: ActorMove) -> WorldTurn {
    let id = m.actor_id;
    let actor = t.actors.actors[id as int];
    if actor.state.dead {
        t
    } else {
        match m.action {
            Action::Eats(dir, target) => {
                let victim = t.actors.actors[target as int];
                if victim.state.dead {
                    t
                } else {
                    let actors = t.actors.with_state(target, ActorState { dead: true, ..victim.state });
                    let player = if target == 0 { Player::Nobody } else { t.player };
                    let outcome = if target == 0 {
                        MoveOutcome::EatenBy(actors.actors[id as int].kind)
                    } else {
                        t.outcome
                    };
                    let eater = actors.actors[id as int];
                    if !eater.pos.can_step(dir) || actors.blocks(id, eater.pos.step(dir)) {
                        WorldTurn { actors, player, outcome, ..t }
                    } else {
                        WorldTurn {
                            actors: actors.with_moved(id, eater.pos.step(dir)),
                            player,
                            outcome,
                            kept: t.kept.push(m),
                            ..t
                        }
                    }
                }
            },
            Action::Fires(_, target) => {
                let victim = t.actors.actors[target as int];
                if victim.kind.immune_spec(actor.kind) {
                    WorldTurn { kept: t.kept.push(m), ..t }
                } else if victim.state.dead {
                    t
                } else {
                    let actors = t.actors.with_state(target, ActorState { dead: true, ..victim.state });
                    let player = if target == 0 { Player::Nobody } else { t.player };
                    let outcome = if target == 0 {
                        MoveOutcome::KilledBy(actors.actors[id as int].kind)
                    } else {
                        t.outcome
                    };
                    WorldTurn { actors, player, outcome, kept: t.kept.push(m), ..t }
                }
            },
            Action::Moves(dir) => {
                if !actor.pos.can_step(dir) || t.actors.blocks(id, actor.pos.step(dir)) {
                    t
                } else {
                    let new_pos = actor.pos.step(dir);
                    let actors = t.actors.with_moved(id, new_pos);
                    let walker = actors.actors[id as int];
                    let item = if t.items.contains_key(new_pos) { t.items[new_pos] } else { None };
                    if walker.kind == ActorKind::Hunter && item == Some(Item { kind: ItemKind::Wine }) {
                        WorldTurn {
                            actors: actors.with_state(id, ActorState { drunk: true, ..walker.state }),
                            items: t.items.remove(new_pos),
                            kept: t.kept.push(m),
                            ..t
                        }
                    } else {
                        WorldTurn { actors, kept: t.kept.push(m), ..t }
                    }
                }
            },
            Action::Aims(dir) => WorldTurn {
                actors: t.actors.with_state(id, ActorState { aim: Some(dir), ..actor.state }),
                kept: t.kept.push(m),
                ..t
            },
            Action::StopsAiming => WorldTurn {
                actors: t.actors.with_state(id, ActorState { aim: None, ..actor.state }),
                kept: t.kept.push(m),
                ..t
            },
        }
    }
}

/// the turn after all the actor moves, in order
pub open spec fn world_turn(t: WorldTurn, moves: Seq<ActorMove>) -> WorldTurn
    decreases moves.len(),
{
    if moves.len() == 0 {
        t
    } else {
        world_step(world_turn(t, moves.drop_last()), moves.last())
    }
}

/// the turn state of a board, with an outcome and the moves applied so far
pub open spec fn turn_of(b: BoardModel, outcome: MoveOutcome, kept: Seq<ActorMove>) -> WorldTurn {
    WorldTurn { actors: b.actors, items: b.items, player: b.current_player, outcome, kept }
}

/// the state of a board at the beginning of a world turn
pub open spec fn initial_turn(b: BoardModel) -> WorldTurn {
    WorldTurn {
        actors: b.actors,
        items: b.items,
        player: Player::Lapin,
        outcome: MoveOutcome::Valid,
        kept: Seq::empty(),
    }
}

/// the ids of all moves (actors and targets) are ids of actors
pub open spec fn moves_fit(moves: Seq<ActorMove>, nb_actors: nat) -> bool {
    forall|i: int|
        0 <= i < moves.len() ==> {
            &&& (#[trigger] moves[i]).actor_id < nb_actors
            &&& moves[i].target_spec() matches Some(t) ==> t < nb_actors
        }
}

/// the game state
pub struct Board {
    pub name: String,
    pub area: PosArea,
    pub terrains: PosMap<Terrain>,
    pub actors: ActorMap,
    pub items: OptionPosMap<Item>,
    /// whose turn it is
    pub current_player: Player,
}

impl View for Board {
    type V = BoardModel;

    open spec fn view(&self) -> BoardModel {
        BoardModel {
            name: self.name@,
            area: self.area,
            default_terrain: self.terrains.dflt(),
            terrains: self.terrains@,
            actors: self.actors@,
            items: self.items@,
            current_player: self.current_player,
        }
    }
}

impl Board {
    pub open spec fn wf(&self) -> bool {
        &&& self.terrains.wf()
        &&& self.actors.wf()
        &&& self.items.wf()
        &&& self.items.dflt() is None
    }

    /// a board with only the default terrain and the lapin in (0, 0)
    pub fn new(name: String, area: PosArea, default_terrain: Terrain) -> (b: Board)
        ensures
            b.wf(),
            b@.name == name@,
            b@.area == area,
            b@.default_terrain == default_terrain,
            b@.terrains == Map::<Pos, Terrain>::empty(),
            b@.actors.actors == seq![Actor::new_spec(ActorKind::Lapin, Pos { x: 0, y: 0 })],
            b@.actors.refs == Map::<Pos, usize>::empty().insert(Pos { x: 0, y: 0 }, 0usize),
            b@.items == Map::<Pos, Option<Item>>::empty(),
            b@.current_player == Player::Lapin,
    {
        let terrains = PosMap::new(default_terrain);
        let actors = ActorMap::from_area(area);
        let items = PosMap::new(None);
        Board { name, area, terrains, actors, items, current_player: Player::Lapin }
    }

    /// the board of a level
    pub fn from_level(level: &Level) -> (b: Board)
        requires
            level.playable(),
        ensures
            b.wf(),
            b@ == Board::level_model(level, b@.name, (PosArea { left: 0, right: 0, top: 0, bottom: 0 }), Player::Lapin),
            b@.name == level.name@,
    {
        let mut board = Board::new(level.name.clone(), PosArea::empty(), level.default_terrain);
        board.reset_to(level);
        board
    }

    /// the board state described by a level (name, area and player kept)
    pub open spec fn level_model(level: &Level, name: Seq<char>, area: PosArea, player: Player) -> BoardModel {
        BoardModel {
            name,
            area,
            default_terrain: level.default_terrain,
            terrains: set_all(Map::empty(), level.terrains@),
            actors: ActorMapModel { actors: level.actors@, refs: rebuild_refs(level.actors@) },
            items: set_all_some(Map::empty(), level.items@),
            current_player: player,
        }
    }

    pub fn default_terrain(&self) -> (t: Terrain)
        ensures
            t == self@.default_terrain,
    {
        self.terrains.default_value()
    }

    /// replace terrains, actors and items with the ones of the level
    pub fn reset_to(&mut self, level: &Level)
        requires
            old(self).wf(),
            level.playable(),
        ensures
            final(self).wf(),
            final(self)@ == Board::level_model(level, old(self)@.name, old(self)@.area, old(self)@.current_player),
    {
        let mut terrains = PosMap::new(level.default_terrain);
        let mut i: usize = 0;
        while i < level.terrains.len()
            invariant
                terrains.wf(),
                terrains.dflt() == level.default_terrain,
                i <= level.terrains@.len(),
                terrains@ == set_all(Map::empty(), level.terrains@.take(i as int)),
            decreases level.terrains@.len() - i,
        {
            let lc = level.terrains[i];
            terrains.set(lc.pos, lc.v);
            assert(level.terrains@.take(i + 1).drop_last() =~= level.terrains@.take(i as int));
            i += 1;
        }
        assert(level.terrains@.take(i as int) =~= level.terrains@);
        let mut items = PosMap::new(None);
        let mut j: usize = 0;
        while j < level.items.len()
            invariant
                items.wf(),
                items.dflt() is None,
                j <= level.items@.len(),
                items@ == set_all_some(Map::empty(), level.items@.take(j as int)),
            decreases level.items@.len() - j,
        {
            let lc = level.items[j];
            items.set_some(lc.pos, lc.v);
            assert(level.items@.take(j + 1).drop_last() =~= level.items@.take(j as int));
            j += 1;
        }
        assert(level.items@.take(j as int) =~= level.items@);
        self.terrains = terrains;
        self.actors = ActorMap::new(self.area, crate::level::copy_vec(&level.actors));
        self.items = items;
    }

    pub fn lapin_pos(&self) -> (p: Pos)
        requires
            self.wf(),
        ensures
            p == self@.lapin().pos,
    {
        self.actors.lapin().pos
    }

    /// add an actor unless its position is taken by a living actor
    pub fn add_actor(&mut self, actor: Actor) -> (r: Result<ActorRef, ActorMapError>)
        requires
            old(self).wf(),
        ensures
            final(self).wf(),
            final(self)@ == (BoardModel { actors: final(self)@.actors, ..old(self)@ }),
            ActorMap::added(old(self)@.actors, final(self)@.actors, actor, r),
    {
        self.actors.add(actor)
    }

    /// add an actor of the given kind in (x, y) unless the position is
    /// taken by a living actor
    pub fn add_actor_in(&mut self, kind: ActorKind, x: Int, y: Int) -> (r: Result<ActorRef, ActorMapError>)
        requires
            old(self).wf(),
        ensures
            final(self).wf(),
            final(self)@ == (BoardModel { actors: final(self)@.actors, ..old(self)@ }),
            ActorMap::added(old(self)@.actors, final(self)@.actors, Actor::new_spec(kind, Pos { x, y }), r),
    {
        self.actors.add(Actor::new(kind, x, y))
    }

    /// put an item in (x, y), replacing the one which may be there
    pub fn add_item_in(&mut self, kind: ItemKind, x: Int, y: Int)
        requires
            old(self).wf(),
        ensures
            final(self).wf(),
            final(self)@ == (BoardModel {
                items: old(self)@.items.insert(Pos { x, y }, Some(Item { kind })),
                ..old(self)@
            }),
    {
        self.items.set_some(Pos::new(x, y), Item { kind });
    }

    pub fn set(&mut self, pos: Pos, terrain: Terrain)
        requires
            old(self).wf(),
        ensures
            final(self).wf(),
            final(self)@ == (BoardModel { terrains: old(self)@.terrains.insert(pos, terrain), ..old(self)@ }),
    {
        self.terrains.set(pos, terrain);
    }

    /// set the terrain of all positions with x in rx and y in ry
    pub fn set_range(&mut self, rx: core::ops::Range<Int>, ry: core::ops::Range<Int>, terrain: Terrain)
        requires
            old(self).wf(),
        ensures
            final(self).wf(),
            final(self)@ == (BoardModel {
                terrains: paint(old(self)@.terrains, rx.start as int, rx.end as int, ry.start as int, ry.end as int, terrain),
                ..old(self)@
            }),
    {
        let ghost start = self.terrains@;
        let x0 = rx.start;
        let x1 = rx.end;
        let y0 = ry.start;
        let y1 = ry.end;
        if x0 >= x1 || y0 >= y1 {
            assert(paint(start, x0 as int, x1 as int, y0 as int, y1 as int, terrain) =~= start);
            return;
        }
        let mut x: Int = x0;
        assert(paint(start, x0 as int, x0 as int, y0 as int, y1 as int, terrain) =~= start);
        while x < x1
            invariant
                self.wf(),
                self@ == (BoardModel { terrains: self@.terrains, ..old(self)@ }),
                x0 <= x <= x1,
                y0 < y1,
                self@.terrains == paint(start, x0 as int, x as int, y0 as int, y1 as int, terrain),
            decreases x1 - x,
        {
            let ghost before_col = self@.terrains;
            let mut y: Int = y0;
            assert(paint(before_col, x as int, x + 1, y0 as int, y0 as int, terrain) =~= before_col);
            while y < y1
                invariant
                    self.wf(),
                    self@ == (BoardModel { terrains: self@.terrains, ..old(self)@ }),
                    y0 <= y <= y1,
                    x < x1,
                    self@.terrains == paint(before_col, x as int, x + 1, y0 as int, y as int, terrain),
                decreases y1 - y,
            {
                self.set(Pos::new(x, y), terrain);
                assert(self@.terrains =~= paint(before_col, x as int, x + 1, y0 as int, y + 1, terrain));
                y += 1;
            }
            assert(self@.terrains =~= paint(start, x0 as int, x + 1, y0 as int, y1 as int, terrain));
            x += 1;
        }
    }

    /// set the terrain of positions with x in rx, on the line y
    pub fn set_h_line(&mut self, rx: core::ops::Range<Int>, y: Int, terrain: Terrain)
        requires
            old(self).wf(),
            y < i32::MAX,
        ensures
            final(self).wf(),
            final(self)@ == (BoardModel {
                terrains: paint(old(self)@.terrains, rx.start as int, rx.end as int, y as int, y + 1, terrain),
                ..old(self)@
            }),
    {
        self.set_range(rx, y..y + 1, terrain);
    }

    /// set the terrain of positions with y in ry, on the column x
    pub fn set_v_line(&mut self, x: Int, ry: core::ops::Range<Int>, terrain: Terrain)
        requires
            old(self).wf(),
            x < i32::MAX,
        ensures
            final(self).wf(),
            final(self)@ == (BoardModel {
                terrains: paint(old(self)@.terrains, x as int, x + 1, ry.start as int, ry.end as int, terrain),
                ..old(self)@
            }),
    {
        self.set_range(x..x + 1, ry, terrain);
    }

    /// the terrain at a position
    pub fn get(&self, pos: Pos) -> (t: Terrain)
        requires
            self.wf(),
        ensures
            t == self@.terrain_at(pos),
    {
        self.terrains.get(pos)
    }

    /// the set of the positions of all actors
    pub fn actor_pos_set(&self) -> (s: PosSet)
        requires
            self.wf(),
        ensures
            s.wf(),
            forall|p: Pos| s@.contains(p) <==> exists|i: int| 0 <= i < self@.actors.actors.len() && #[trigger] self@.actors.actors[i].pos == p,
    {
        let mut set = PosSet::new();
        let actors = self.actors.iter();
        let mut i: usize = 0;
        while i < actors.len()
            invariant
                set.wf(),
                actors@ == self@.actors.actors,
                i <= actors@.len(),
                forall|p: Pos| set@.contains(p) <==> exists|k: int| 0 <= k < i && #[trigger] actors@[k].pos == p,
            decreases actors@.len() - i,
        {
            set.insert(actors[i].pos);
            proof {
                assert forall|p: Pos| set@.contains(p) implies exists|k: int| 0 <= k < i + 1 && #[trigger] actors@[k].pos == p by {
                    if p != actors@[i as int].pos {
                        let k = choose|k: int| 0 <= k < i && #[trigger] actors@[k].pos == p;
                        assert(actors@[k].pos == p);
                    } else {
                        assert(actors@[i as int].pos == p);
                    }
                }
            }
            i += 1;
        }
        set
    }

    /// a map referencing each actor at its position (the last one
    /// when several share a position)
    pub fn actor_pos_map(&self) -> (m: ActorPosMap)
        requires
            self.wf(),
        ensures
            m.wf(),
            m.dflt() is None,
            m@ == actors_by_pos(self@.actors.actors),
    {
        let mut map = ActorPosMap::from(self.area);
        let actors = self.actors.iter();
        let mut i: usize = 0;
        while i < actors.len()
            invariant
                map.wf(),
                map.dflt() is None,
                actors@ == self@.actors.actors,
                i <= actors@.len(),
                map@ == actors_by_pos(actors@.take(i as int)),
            decreases actors@.len() - i,
        {
            map.insert(actors[i]);
            assert(actors@.take(i + 1).drop_last() =~= actors@.take(i as int));
            i += 1;
        }
        assert(actors@.take(i as int) =~= actors@);
        map
    }

    /// apply the move of one actor during a world turn
    fn apply_actor_move(&mut self, m: ActorMove, outcome: &mut MoveOutcome, kept: &mut Vec<ActorMove>)
        requires
            old(self).wf(),
            m.actor_id < old(self)@.actors.actors.len(),
            m.target_spec() matches Some(t) ==> t < old(self)@.actors.actors.len(),
        ensures
            final(self).wf(),
            ({
                let t = world_step(turn_of(old(self)@, *old(outcome), old(kept)@), m);
                &&& final(self)@ == (BoardModel {
                    actors: t.actors,
                    items: t.items,
                    current_player: t.player,
                    ..old(self)@
                })
                &&& *final(outcome) == t.outcome
                &&& final(kept)@ == t.kept
            }),
    {
        let id = m.actor_id;
        let actor = self.actors.by_id(id);
        if actor.state.dead {
            return;
        }
        match m.action {
            Action::Eats(dir, target) => {
                let victim = self.actors.by_id(target);
                if victim.state.dead {
                    return;
                }
                let mut state = victim.state;
                state.dead = true;
                self.actors.set_state_by_id(target, state);
                if target == 0 {
                    self.current_player = Player::Nobody;
                    *outcome = MoveOutcome::EatenBy(self.actors.by_id(id).kind);
                }
                let eater = self.actors.by_id(id);
                if !eater.pos.can_move(dir) {
                    return;
                }
                match self.actors.move_by_id_in_dir(id, dir) {
                    Err(_) => {
                        return;
                    },
                    Ok(()) => {},
                }
                kept.push(m);
            },
            Action::Fires(_, target) => {
                let victim = self.actors.by_id(target);
                if !victim.kind.is_immune_to_fire(actor.kind) {
                    if victim.state.dead {
                        return;
                    }
                    let mut state = victim.state;
                    state.dead = true;
                    self.actors.set_state_by_id(target, state);
                    if target == 0 {
                        self.current_player = Player::Nobody;
                        *outcome = MoveOutcome::KilledBy(self.actors.by_id(id).kind);
                    }
                }
                kept.push(m);
            },
            Action::Moves(dir) => {
                if !actor.pos.can_move(dir) {
                    return;
                }
                let new_pos = actor.pos.in_dir(dir);
                match self.actors.move_by_id_to_pos(id, new_pos) {
                    Err(_) => {
                        return;
                    },
                    Ok(()) => {
                        let walker = self.actors.by_id(id);
                        if walker.kind.drinks_wine() {
                            if let Some(item) = self.items.get(new_pos) {
                                if item.kind == ItemKind::Wine {
                                    self.items.remove(new_pos);
                                    let mut state = walker.state;
                                    state.drunk = true;
                                    self.actors.set_state_by_id(id, state);
                                }
                            }
                        }
                    },
                }
                kept.push(m);
            },
            Action::Aims(dir) => {
                let mut state = actor.state;
                state.aim = Some(dir);
                self.actors.set_state_by_id(id, state);
                kept.push(m);
            },
            Action::StopsAiming => {
                let mut state = actor.state;
                state.aim = None;
                self.actors.set_state_by_id(id, state);
                kept.push(m);
            },
        }
    }

    /// apply all the moves of the world, in order, then remove the dead
    /// actors. The moves which couldn't be applied are removed from
    /// the world move.
    pub fn apply_world_move(&mut self, world_move: &mut WorldMove) -> (r: MoveResult)
        requires
            old(self).wf(),
            moves_fit(old(world_move).actor_moves@, old(self)@.actors.actors.len()),
        ensures
            final(self).wf(),
            ({
                let t = world_turn(initial_turn(old(self)@), old(world_move).actor_moves@);
                &&& final(self)@ == (BoardModel {
                    actors: t.actors.purged_of_dead(),
                    items: t.items,
                    current_player: t.player,
                    ..old(self)@
                })
                &&& final(world_move).actor_moves@ == t.kept
                &&& result_tells(r, t.outcome)
            }),
    {
        let ghost moves = world_move.actor_moves@;
        let ghost len = self@.actors.actors.len();
        self.current_player = Player::Lapin;
        let mut outcome = MoveOutcome::Valid;
        let mut kept: Vec<ActorMove> = Vec::new();
        let n = world_move.actor_moves.len();
        let mut i: usize = 0;
        assert(moves.take(0) =~= Seq::<ActorMove>::empty());
        assert(turn_of(self@, outcome, kept@) =~= initial_turn(old(self)@));
        while i < n
            invariant
                self.wf(),
                i <= n,
                n == moves.len(),
                world_move.actor_moves@ == moves,
                moves_fit(moves, len),
                self@.actors.actors.len() == len,
                self@ == (BoardModel {
                    actors: self@.actors,
                    items: self@.items,
                    current_player: self@.current_player,
                    ..old(self)@
                }),
                turn_of(self@, outcome, kept@) == world_turn(initial_turn(old(self)@), moves.take(i as int)),
            decreases n - i,
        {
            let m = world_move.actor_moves[i];
            assert(moves[i as int] == m);
            self.apply_actor_move(m, &mut outcome, &mut kept);
            assert(moves.take(i + 1).drop_last() =~= moves.take(i as int));
            assert(turn_of(self@, outcome, kept@) =~= world_turn(initial_turn(old(self)@), moves.take(i + 1)));
            i += 1;
        }
        assert(moves.take(n as int) =~= moves);
        self.actors.remove_dead();
        world_move.actor_moves = kept;
        outcome_result(outcome)
    }

    /// apply the move of the lapin in the given direction
    pub fn apply_player_move(&mut self, dir: Dir) -> (r: MoveResult)
        requires
            old(self).wf(),
        ensures
            final(self).wf(),
            final(self)@ == old(self)@.player_move(dir).0,
            result_tells(r, old(self)@.player_move(dir).1),
    {
        if self.current_player != Player::Lapin {
            return outcome_result(MoveOutcome::Invalid);
        }
        let lapin = self.actors.lapin();
        if !lapin.pos.can_move(dir) {
            return outcome_result(MoveOutcome::Invalid);
        }
        let pos = lapin.pos.in_dir(dir);
        if !game_area().contains(pos) {
            return outcome_result(MoveOutcome::Invalid);
        }
        if !lapin.can_enter(self.get(pos)) {
            return outcome_result(MoveOutcome::Invalid);
        }
        if let Some(actor) = self.actors.by_pos(pos) {
            if actor.runs_after(lapin) {
                self.current_player = Player::Nobody;
                let mut state = lapin.state;
                state.dead = true;
                self.actors.set_state_by_id(0, state);
                let moved = self.actors.move_by_id_to_pos(0, pos);
                return outcome_result(MoveOutcome::EatenBy(actor.kind));
            } else {
                return outcome_result(MoveOutcome::Invalid);
            }
        }
        self.actors.move_lapin_to(pos);
        if self.get(pos) == Terrain::Grass {
            self.current_player = Player::Nobody;
            return outcome_result(MoveOutcome::Win);
        }
        let mut end_turn = true;
        if let Some(item) = self.items.get(pos) {
            if item.kind == ItemKind::Carrot {
                self.items.remove(pos);
                end_turn = false;
            }
        }
        if end_turn {
            self.current_player = Player::World;
        }
        outcome_result(MoveOutcome::Valid)
    }
}

/// the map referencing each actor at its position, the last one
/// winning when several share a position
pub open spec fn actors_by_pos(actors: Seq<Actor>) -> Map<Pos, Option<Actor>>
    decreases actors.len(),
{
    if actors.len() == 0 {
        Map::empty()
    } else {
        actors_by_pos(actors.drop_last()).insert(actors.last().pos, Some(actors.last()))
    }
}

} // verus!

verus! {

/// A refused lapin move changes nothing on the board.
pub proof fn lemma_invalid_player_move_keeps_board(b: BoardModel, dir: Dir)
    requires
        b.player_move(dir).1 == MoveOutcome::Invalid,
    ensures
        b.player_move(dir).0 == b,
{
}

/// After a lapin move, the game is over when the lapin won or was eaten;
/// otherwise it's the world's turn, or the lapin's again when it ate a
/// carrot.
pub proof fn lemma_player_move_turn(b: BoardModel, dir: Dir)
    requires
        b.actors.sound(),
        b.player_move(dir).1 != MoveOutcome::Invalid,
    ensures
        b.current_player == Player::Lapin,
        b.player_move(dir).1 == MoveOutcome::Valid ==> {
            let p = b.player_move(dir).0.current_player;
            p == Player::World || p == Player::Lapin
        },
        b.player_move(dir).1 != MoveOutcome::Valid ==> b.player_move(dir).0.current_player == Player::Nobody,
        b.player_move(dir).1 is EatenBy ==> b.player_move(dir).0.lapin().state.dead,
{
    if b.player_move(dir).1 is EatenBy {
        let pos = b.lapin().pos.step(dir);
        let a1 = b.actors.with_state(0, ActorState { dead: true, ..b.lapin().state });
        assert(a1.actors[0].state.dead);
        assert(a1.with_moved(0, pos).actors[0].state.dead);
    }
}

/// During a world turn, the player to play next stays the lapin, unless
/// the lapin gets killed: the game is then over and the outcome tells
/// who killed it. A dead lapin stays dead.
pub proof fn lemma_world_turn_player(b: BoardModel, moves: Seq<ActorMove>)
    requires
        b.actors.sound(),
        moves_fit(moves, b.actors.actors.len()),
    ensures
        ({
            let t = world_turn(initial_turn(b), moves);
            &&& t.actors.actors.len() == b.actors.actors.len()
            &&& t.player == Player::Lapin || t.player == Player::Nobody
            &&& (t.player == Player::Lapin) == (t.outcome == MoveOutcome::Valid)
            &&& t.player == Player::Nobody ==> t.actors.actors[0].state.dead
            &&& b.actors.actors[0].state.dead ==> t.actors.actors[0].state.dead
            &&& t.outcome is Valid || t.outcome is EatenBy || t.outcome is KilledBy
        }),
    decreases moves.len(),
{
    if moves.len() > 0 {
        let prev = moves.drop_last();
        assert(moves_fit(prev, b.actors.actors.len())) by {
            assert forall|i: int| 0 <= i < prev.len() implies {
                &&& (#[trigger] prev[i]).actor_id < b.actors.actors.len()
                &&& prev[i].target_spec() matches Some(t) ==> t < b.actors.actors.len()
            } by {
                assert(prev[i] == moves[i]);
            }
        }
        lemma_world_turn_player(b, prev);
        let m = moves.last();
        assert(m == moves[moves.len() - 1]);
    }
}

/// After a world move, no actor but the lapin is dead anymore.
pub proof fn lemma_purged_has_no_dead(m: ActorMapModel)
    requires
        m.actors.len() >= 1,
    ensures
        m.purged_of_dead().actors[0] == m.actors[0],
        forall|i: int| 1 <= i < m.purged_of_dead().actors.len() ==> !(#[trigger] m.purged_of_dead().actors[i]).state.dead,
{
    if crate::actor_map::has_dead_non_lapin(m.actors) {
        let rest = m.actors.subrange(1, m.actors.len() as int);
        crate::actor_map::lemma_without_dead_len(rest);
        assert forall|i: int| 1 <= i < m.purged_of_dead().actors.len() implies !(#[trigger] m.purged_of_dead().actors[i]).state.dead by {
            assert(m.purged_of_dead().actors[i] == crate::actor_map::without_dead(rest)[i - 1]);
        }
    }
}

/// Removing an actor never removes the lapin: the actor with id 0 stays.
pub proof fn lemma_without_keeps_lapin(m: ActorMapModel, id: ActorId)
    requires
        m.sound(),
        id < m.actors.len(),
    ensures
        m.without(id).actors[0] == m.actors[0],
        m.without(id).actors.len() == (if id == 0 { m.actors.len() } else { (m.actors.len() - 1) as nat }),
{
}

/// the first actor is the lapin, and it's the only one
pub open spec fn one_lapin_first(actors: Seq<Actor>) -> bool {
    &&& actors.len() >= 1
    &&& actors[0].kind == ActorKind::Lapin
    &&& forall|i: int| 1 <= i < actors.len() ==> (#[trigger] actors[i]).kind != ActorKind::Lapin
}

/// A lapin move keeps the lapin first and alone.
pub proof fn lemma_player_move_keeps_one_lapin(b: BoardModel, dir: Dir)
    requires
        one_lapin_first(b.actors.actors),
    ensures
        one_lapin_first(b.player_move(dir).0.actors.actors),
{
    let r = b.player_move(dir).0.actors.actors;
    assert(r.len() == b.actors.actors.len());
    assert forall|i: int| 0 <= i < r.len() implies (#[trigger] r[i]).kind == b.actors.actors[i].kind by {}
}

proof fn lemma_world_turn_kinds(b: BoardModel, moves: Seq<ActorMove>)
    requires
        moves_fit(moves, b.actors.actors.len()),
    ensures
        ({
            let t = world_turn(initial_turn(b), moves);
            &&& t.actors.actors.len() == b.actors.actors.len()
            &&& forall|i: int| 0 <= i < t.actors.actors.len() ==> (#[trigger] t.actors.actors[i]).kind == b.actors.actors[i].kind
        }),
    decreases moves.len(),
{
    if moves.len() > 0 {
        let prev = moves.drop_last();
        assert(moves_fit(prev, b.actors.actors.len())) by {
            assert forall|i: int| 0 <= i < prev.len() implies {
                &&& (#[trigger] prev[i]).actor_id < b.actors.actors.len()
                &&& prev[i].target_spec() matches Some(t) ==> t < b.actors.actors.len()
            } by {
                assert(prev[i] == moves[i]);
            }
        }
        lemma_world_turn_kinds(b, prev);
        let m = moves.last();
        assert(m == moves[moves.len() - 1]);
        let t0 = world_turn(initial_turn(b), prev);
        let t = world_turn(initial_turn(b), moves);
        assert forall|i: int| 0 <= i < t.actors.actors.len() implies (#[trigger] t.actors.actors[i]).kind == b.actors.actors[i].kind by {
            assert(t0.actors.actors[i].kind == b.actors.actors[i].kind);
        }
    }
}

proof fn lemma_without_dead_no_lapin(actors: Seq<Actor>)
    requires
        forall|i: int| 0 <= i < actors.len() ==> (#[trigger] actors[i]).kind != ActorKind::Lapin,
    ensures
        forall|i: int|
            0 <= i < crate::actor_map::without_dead(actors).len() ==> (#[trigger] crate::actor_map::without_dead(
                actors,
            )[i]).kind != ActorKind::Lapin,
    decreases actors.len(),
{
    if actors.len() > 0 {
        let rest = actors.drop_first();
        assert forall|i: int| 0 <= i < rest.len() implies (#[trigger] rest[i]).kind != ActorKind::Lapin by {
            assert(rest[i] == actors[i + 1]);
        }
        lemma_without_dead_no_lapin(rest);
        let w = crate::actor_map::without_dead(actors);
        let wr = crate::actor_map::without_dead(rest);
        if !actors[0].state.dead {
            assert forall|i: int| 0 <= i < w.len() implies (#[trigger] w[i]).kind != ActorKind::Lapin by {
                if i > 0 {
                    assert(w[i] == wr[i - 1]);
                }
            }
        }
    }
}

/// A world move keeps the lapin first and alone: no actor changes its
/// kind, and only dead actors other than the lapin are removed.
pub proof fn lemma_world_move_keeps_one_lapin(b: BoardModel, moves: Seq<ActorMove>)
    requires
        one_lapin_first(b.actors.actors),
        moves_fit(moves, b.actors.actors.len()),
    ensures
        one_lapin_first(world_turn(initial_turn(b), moves).actors.purged_of_dead().actors),
{
    lemma_world_turn_kinds(b, moves);
    let t = world_turn(initial_turn(b), moves);
    let a = t.actors.actors;
    if crate::actor_map::has_dead_non_lapin(a) {
        let rest = a.subrange(1, a.len() as int);
        assert forall|i: int| 0 <= i < rest.len() implies (#[trigger] rest[i]).kind != ActorKind::Lapin by {
            assert(rest[i] == a[i + 1]);
            assert(a[i + 1].kind == b.actors.actors[i + 1].kind);
        }
        lemma_without_dead_no_lapin(rest);
        let p = crate::actor_map::purged(a);
        assert forall|i: int| 1 <= i < p.len() implies (#[trigger] p[i]).kind != ActorKind::Lapin by {
            assert(p[i] == crate::actor_map::without_dead(rest)[i - 1]);
        }
        assert(p[0] == a[0]);
        assert(a[0].kind == b.actors.actors[0].kind);
    } else {
        assert(a[0].kind == b.actors.actors[0].kind);
        assert forall|i: int| 1 <= i < a.len() implies (#[trigger] a[i]).kind != ActorKind::Lapin by {
            assert(a[i].kind == b.actors.actors[i].kind);
        }
    }
}

/// `s` is made of some of the elements of `t`, in the same order
pub open spec fn is_subsequence(s: Seq<ActorMove>, t: Seq<ActorMove>) -> bool {
    exists|f: Seq<int>|
        {
            &&& f.len() == s.len()
            &&& forall|i: int| 0 <= i < f.len() ==> 0 <= #[trigger] f[i] < t.len() && s[i] == t[f[i]]
            &&& forall|i: int, j: int| 0 <= i < j < f.len() ==> #[trigger] f[i] < #[trigger] f[j]
        }
}

/// a world step keeps the moves kept so far, and keeps its move or not
proof fn lemma_step_kept(t: WorldTurn, m: ActorMove)
    ensures
        world_step(t, m).kept == t.kept || world_step(t, m).kept == t.kept.push(m),
{
}

proof fn lemma_world_turn_kept(b: BoardModel, moves: Seq<ActorMove>) -> (f: Seq<int>)
    ensures
        ({
            let kept = world_turn(initial_turn(b), moves).kept;
            &&& f.len() == kept.len()
            &&& forall|i: int| 0 <= i < f.len() ==> 0 <= #[trigger] f[i] < moves.len() && kept[i] == moves[f[i]]
            &&& forall|i: int, j: int| 0 <= i < j < f.len() ==> #[trigger] f[i] < #[trigger] f[j]
        }),
    decreases moves.len(),
{
    if moves.len() == 0 {
        Seq::empty()
    } else {
        let prev = moves.drop_last();
        let f0 = lemma_world_turn_kept(b, prev);
        let t0 = world_turn(initial_turn(b), prev);
        lemma_step_kept(t0, moves.last());
        let kept = world_turn(initial_turn(b), moves).kept;
        if kept == t0.kept {
            assert forall|i: int| 0 <= i < f0.len() implies 0 <= #[trigger] f0[i] < moves.len() && kept[i] == moves[f0[i]] by {
                assert(prev[f0[i]] == moves[f0[i]]);
            }
            f0
        } else {
            let f = f0.push(moves.len() - 1);
            assert forall|i: int| 0 <= i < f.len() implies 0 <= #[trigger] f[i] < moves.len() && kept[i] == moves[f[i]] by {
                if i < f0.len() {
                    assert(f[i] == f0[i]);
                    assert(prev[f0[i]] == moves[f0[i]]);
                }
            }
            assert forall|i: int, j: int| 0 <= i < j < f.len() implies #[trigger] f[i] < #[trigger] f[j] by {
                if j < f0.len() {
                    assert(f[i] == f0[i] && f[j] == f0[j]);
                } else {
                    assert(f[i] == f0[i]);
                }
            }
            f
        }
    }
}

/// during a world step, the game is over exactly when the lapin is dead
proof fn lemma_step_lapin(t: WorldTurn, m: ActorMove)
    requires
        m.actor_id < t.actors.actors.len(),
        m.target_spec() matches Some(x) ==> x < t.actors.actors.len(),
        t.actors.actors.len() >= 1,
        (t.player == Player::Nobody) == t.actors.actors[0].state.dead,
    ensures
        world_step(t, m).actors.actors.len() == t.actors.actors.len(),
        (world_step(t, m).player == Player::Nobody) == world_step(t, m).actors.actors[0].state.dead,
{
    let id = m.actor_id;
    let actor = t.actors.actors[id as int];
    if !actor.state.dead {
        match m.action {
            Action::Eats(dir, target) => {
                let victim = t.actors.actors[target as int];
                if !victim.state.dead {
                    let actors = t.actors.with_state(target, ActorState { dead: true, ..victim.state });
                    assert(actors.actors[0].state.dead == (target == 0 || t.actors.actors[0].state.dead));
                    let eater = actors.actors[id as int];
                    if eater.pos.can_step(dir) && !actors.blocks(id, eater.pos.step(dir)) {
                        assert(actors.with_moved(id, eater.pos.step(dir)).actors[0].state == actors.actors[0].state);
                    }
                }
            },
            Action::Fires(_, target) => {
                let victim = t.actors.actors[target as int];
                if !victim.kind.immune_spec(actor.kind) && !victim.state.dead {
                    let actors = t.actors.with_state(target, ActorState { dead: true, ..victim.state });
                    assert(actors.actors[0].state.dead == (target == 0 || t.actors.actors[0].state.dead));
                }
            },
            Action::Moves(dir) => {
                if actor.pos.can_step(dir) && !t.actors.blocks(id, actor.pos.step(dir)) {
                    let actors = t.actors.with_moved(id, actor.pos.step(dir));
                    assert(actors.actors[0].state == t.actors.actors[0].state);
                    let walker = actors.actors[id as int];
                    assert(actors.with_state(id, ActorState { drunk: true, ..walker.state }).actors[0].state.dead
                        == t.actors.actors[0].state.dead);
                }
            },
            Action::Aims(dir) => {
                assert(t.actors.with_state(id, ActorState { aim: Some(dir), ..actor.state }).actors[0].state.dead
                    == t.actors.actors[0].state.dead);
            },
            Action::StopsAiming => {
                assert(t.actors.with_state(id, ActorState { aim: None, ..actor.state }).actors[0].state.dead
                    == t.actors.actors[0].state.dead);
            },
        }
    }
}

proof fn lemma_world_turn_lapin(b: BoardModel, moves: Seq<ActorMove>)
    requires
        b.actors.actors.len() >= 1,
        moves_fit(moves, b.actors.actors.len()),
        !b.actors.actors[0].state.dead,
    ensures
        ({
            let t = world_turn(initial_turn(b), moves);
            &&& t.actors.actors.len() == b.actors.actors.len()
            &&& (t.player == Player::Nobody) == t.actors.actors[0].state.dead
        }),
    decreases moves.len(),
{
    if moves.len() > 0 {
        let prev = moves.drop_last();
        assert(moves_fit(prev, b.actors.actors.len())) by {
            assert forall|i: int| 0 <= i < prev.len() implies {
                &&& (#[trigger] prev[i]).actor_id < b.actors.actors.len()
                &&& prev[i].target_spec() matches Some(t) ==> t < b.actors.actors.len()
            } by {
                assert(prev[i] == moves[i]);
            }
        }
        lemma_world_turn_lapin(b, prev);
        assert(moves.last() == moves[moves.len() - 1]);
        lemma_step_lapin(world_turn(initial_turn(b), prev), moves.last());
    }
}

/// After a world move, the lapin having been alive before it, the game is
/// lost exactly when the lapin is dead: it's then nobody's turn, and the
/// lapin's otherwise. No actor but the lapin is left dead, and the moves
/// kept are some of the moves given, in their order.
pub proof fn lemma_world_move_outcome(b: BoardModel, moves: Seq<ActorMove>, r: MoveResult)
    requires
        b.actors.sound(),
        moves_fit(moves, b.actors.actors.len()),
        !b.lapin().state.dead,
        result_tells(r, world_turn(initial_turn(b), moves).outcome),
    ensures
        ({
            let t = world_turn(initial_turn(b), moves);
            let after = t.actors.purged_of_dead();
            &&& (r is PlayerLose) <==> after.actors[0].state.dead
            &&& t.player == (if after.actors[0].state.dead { Player::Nobody } else { Player::Lapin })
            &&& forall|i: int| 1 <= i < after.actors.len() ==> !(#[trigger] after.actors[i]).state.dead
            &&& is_subsequence(t.kept, moves)
        }),
{
    let t = world_turn(initial_turn(b), moves);
    lemma_world_turn_player(b, moves);
    lemma_world_turn_lapin(b, moves);
    lemma_purged_has_no_dead(t.actors);
    let f = lemma_world_turn_kept(b, moves);
}

/// The lapin walking onto a fox, a hunter, a wolf or a dragon is eaten by
/// it: the game is over, the lapin dead. Walking onto another actor (a
/// sheep or a knight) isn't a valid move.
pub proof fn lemma_lapin_walks_on_actor(b: BoardModel, dir: Dir, a: Actor)
    requires
        b.actors.actors.len() >= 1,
        b.lapin().kind == ActorKind::Lapin,
        b.current_player == Player::Lapin,
        b.lapin().pos.can_step(dir),
        game_area_spec().contains_spec(b.lapin().pos.step(dir)),
        can_enter_spec(ActorKind::Lapin, b.terrain_at(b.lapin().pos.step(dir))),
        b.actors.by_pos(b.lapin().pos.step(dir)) == Some(a),
    ensures
        (a.kind == ActorKind::Fox || a.kind == ActorKind::Hunter || a.kind == ActorKind::Wolf || a.kind
            == ActorKind::Dragon) ==> {
            &&& b.player_move(dir).1 == MoveOutcome::EatenBy(a.kind)
            &&& b.player_move(dir).0.lapin().state.dead
            &&& b.player_move(dir).0.current_player == Player::Nobody
        },
        (a.kind == ActorKind::Sheep || a.kind == ActorKind::Knight || a.kind == ActorKind::Lapin) ==> {
            &&& b.player_move(dir).1 == MoveOutcome::Invalid
            &&& b.player_move(dir).0 == b
        },
{
    let pos = b.lapin().pos.step(dir);
    let a1 = b.actors.with_state(0, ActorState { dead: true, ..b.lapin().state });
    assert(a1.actors[0].state.dead);
    assert(a1.with_moved(0, pos).actors[0].state.dead);
}

/// A living actor firing on the living lapin kills it, whatever its kind:
/// the game is over, and the outcome tells who killed the lapin.
pub proof fn lemma_fire_kills_lapin(t: WorldTurn, m: ActorMove)
    requires
        1 <= t.actors.actors.len(),
        m.actor_id < t.actors.actors.len(),
        m.action matches Action::Fires(_, target) && target == 0,
        t.actors.actors[0].kind == ActorKind::Lapin,
        !t.actors.actors[0].state.dead,
        !t.actors.actors[m.actor_id as int].state.dead,
    ensures
        world_step(t, m).outcome == MoveOutcome::KilledBy(t.actors.actors[m.actor_id as int].kind),
        world_step(t, m).player == Player::Nobody,
        world_step(t, m).actors.actors[0].state.dead,
{
    let id = m.actor_id;
    let victim = t.actors.actors[0];
    let actors = t.actors.with_state(0, ActorState { dead: true, ..victim.state });
    assert(actors.actors[id as int].kind == t.actors.actors[id as int].kind);
}

} // verus!
