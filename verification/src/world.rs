//! The decisions of the actors of the world (all but the lapin).

use vstd::prelude::*;
use crate::actor::{can_enter_spec, fires_on_spec, preys_spec, Actor, ActorKind};
use crate::actor_map::ActorId;
use crate::board::{moves_fit, Board, BoardModel};
use crate::path::{enterable, is_path, is_shortest_path, no_goal_beside, no_short_path, reaches_more_than, Goal, PathFinder, MAX_OPEN_SIZE};
use crate::pos::{dir_of, main_step, Dir, Int, Pos};
use crate::terrain::Terrain;
use crate::world_move::{Action, ActorMove, WorldMove};

verus! {

/// how far a hunter fires
pub const FIRING_RANGE: Int = 6;

/// moving in `d` is the first step of a path of the actor toward the
/// goal, a shortest one when the actor doesn't run after the lapin (the
/// search then having no hint of where the goal is)
pub open spec fn steps_toward(board: BoardModel, actor: Actor, goal: Goal, d: Dir) -> bool {
    &&& d.is_main()
    &&& actor.pos.can_step(d)
    &&& exists|path: Seq<Pos>|
        #[trigger] is_path(board, actor, goal, path) && path[0] == actor.pos.step(d) && (!actor.kind.runs_after_spec(
            ActorKind::Lapin,
        ) ==> is_shortest_path(board, actor, goal, path))
}

/// moving in `d` is the first step of a path of the actor toward an
/// actor of one of the kinds
pub open spec fn steps_toward_kinds(board: BoardModel, actor: Actor, kinds: Seq<ActorKind>, d: Dir) -> bool {
    exists|goal: Goal| (goal matches Goal::ActorKinds(v) && v@ == kinds) && #[trigger] steps_toward(board, actor, goal, d)
}

/// the search of a path of the actor toward the goal found none: no
/// neighbour fulfills the goal and either there's no short path or more
/// positions can be reached than the search looks at (fewer are looked
/// at when the actor runs after the lapin, the search then having a hint)
pub open spec fn search_failed(board: BoardModel, actor: Actor, goal: Goal) -> bool {
    &&& no_goal_beside(board, actor, goal)
    &&& no_short_path(board, actor, goal) || reaches_more_than(
        board,
        actor,
        if actor.kind.runs_after_spec(ActorKind::Lapin) {
            (MAX_OPEN_SIZE / 4) as nat
        } else {
            MAX_OPEN_SIZE as nat
        },
    )
}

/// the move is a move of actor `id` which walks toward the goal, or
/// there's none when the search of a path failed
pub open spec fn walks_toward(board: BoardModel, id: ActorId, actor: Actor, goal: Goal, r: Option<ActorMove>) -> bool {
    match r {
        Some(m) => m.actor_id == id && (m.action matches Action::Moves(d) && steps_toward(board, actor, goal, d)),
        None => search_failed(board, actor, goal),
    }
}

/// the move is a move of actor `id` which walks toward a prey, or
/// there's none when the search of a path toward a prey failed
pub open spec fn walks_toward_preys(board: BoardModel, id: ActorId, actor: Actor, r: Option<ActorMove>) -> bool {
    match r {
        Some(m) => m.actor_id == id && (m.action matches Action::Moves(d) && (preys_spec(actor.kind) matches Some(
            preys,
        ) && steps_toward_kinds(board, actor, preys, d))),
        None => preys_spec(actor.kind) matches Some(preys) && exists|goal: Goal|
            (goal matches Goal::ActorKinds(v) && v@ == preys) && #[trigger] search_failed(board, actor, goal),
    }
}

/// the actor `id` can directly kill the actor `k`: it eats it, it's adjacent
/// (diagonals included) and the actor can walk on the terrain there
pub open spec fn can_eat(board: BoardModel, id: ActorId, actor: Actor, k: int) -> bool {
    let other = board.actors.actors[k];
    &&& 0 <= k < board.actors.actors.len()
    &&& k != id
    &&& actor.kind.eats_spec(other.kind)
    &&& dir_of(actor.pos.dx_to(other.pos), actor.pos.dy_to(other.pos)) is Some
    &&& can_enter_spec(actor.kind, board.terrain_at(other.pos))
}

/// the actor `k` is one the actor `id` would fire on
pub open spec fn fire_candidate(board: BoardModel, id: ActorId, actor: Actor, k: int) -> bool {
    &&& 0 <= k < board.actors.actors.len()
    &&& k != id
    &&& fires_on_spec(actor, board.actors.actors[k])
}

/// among the first n actors, the nearest one (manhattan distance) the
/// actor `id` would fire on, the first one among equally near ones
pub open spec fn nearest_upto(board: BoardModel, id: ActorId, actor: Actor, n: nat) -> Option<int>
    decreases n,
{
    if n == 0 {
        None
    } else {
        let k = n - 1;
        let best = nearest_upto(board, id, actor, (n - 1) as nat);
        if fire_candidate(board, id, actor, k) && match best {
            Some(b) => Pos::manhattan_spec(actor.pos, board.actors.actors[b].pos) > Pos::manhattan_spec(
                actor.pos,
                board.actors.actors[k].pos,
            ),
            None => true,
        } {
            Some(k)
        } else {
            best
        }
    }
}

/// the actor the firer would hit firing from `pos` in `dir`, scanning
/// at most n positions, the fire being stopped by stone
pub open spec fn fire_scan(board: BoardModel, actor: Actor, dir: Dir, pos: Pos, n: nat) -> Option<ActorId>
    decreases n,
{
    if n == 0 || !pos.can_step(dir) {
        None
    } else {
        let p = pos.step(dir);
        if board.actors.refs.contains_key(p) && fires_on_spec(actor, board.actors.actors[board.actors.refs[p] as int]) {
            Some(board.actors.refs[p])
        } else if board.terrain_at(p) == Terrain::Stone {
            None
        } else {
            fire_scan(board, actor, dir, p, (n - 1) as nat)
        }
    }
}

/// the first of the directions in which the actor can step and enter
pub open spec fn first_enterable(board: BoardModel, actor: Actor, dirs: Seq<Dir>) -> Option<Dir>
    decreases dirs.len(),
{
    if dirs.len() == 0 {
        None
    } else if actor.pos.can_step(dirs[0]) && enterable(board, actor, actor.pos.step(dirs[0])) {
        Some(dirs[0])
    } else {
        first_enterable(board, actor, dirs.drop_first())
    }
}

/// the decision of a sheep: go toward the grass, unless already there
pub open spec fn grazer_ok(board: BoardModel, id: ActorId, actor: Actor, r: Option<ActorMove>) -> bool {
    if board.terrain_at(actor.pos) == Terrain::Grass {
        r is None
    } else {
        walks_toward(board, id, actor, Goal::Terrain(Terrain::Grass), r)
    }
}

/// the decision of a fox: eat the lapin when adjacent, go toward it otherwise
pub open spec fn lapin_eater_ok(board: BoardModel, id: ActorId, actor: Actor, r: Option<ActorMove>) -> bool {
    let lapin_pos = board.actors.actors[0].pos;
    match dir_of(actor.pos.dx_to(lapin_pos), actor.pos.dy_to(lapin_pos)) {
        Some(d) => r == Some(ActorMove { actor_id: id, action: Action::Eats(d, 0) }),
        None => walks_toward(board, id, actor, Goal::Pos(lapin_pos), r),
    }
}

/// the decision of a knight or a wolf: eat the first adjacent prey,
/// go toward a prey otherwise
pub open spec fn eater_ok(board: BoardModel, id: ActorId, actor: Actor, r: Option<ActorMove>) -> bool {
    if exists|k: int| can_eat(board, id, actor, k) {
        exists|k: int|
            #[trigger] can_eat(board, id, actor, k) && (forall|j: int| 0 <= j < k ==> !can_eat(board, id, actor, j))
                && r == Some(
                ActorMove {
                    actor_id: id,
                    action: Action::Eats(
                        dir_of(
                            actor.pos.dx_to(board.actors.actors[k].pos),
                            actor.pos.dy_to(board.actors.actors[k].pos),
                        )->0,
                        k as usize,
                    ),
                },
            )
    } else {
        walks_toward_preys(board, id, actor, r)
    }
}

/// the decision of a hunter: fire on a target in the firing line of its
/// aim; otherwise aim at (or keep aiming at, or stop aiming at) the
/// nearest target in range; otherwise walk: toward the nearest target
/// when drunk, toward a prey otherwise
pub open spec fn firer_ok(board: BoardModel, id: ActorId, actor: Actor, r: Option<ActorMove>) -> bool {
    let fire = match actor.state.aim {
        Some(d) => fire_scan(board, actor, d, actor.pos, FIRING_RANGE as nat),
        None => None,
    };
    let nearest = nearest_upto(board, id, actor, board.actors.actors.len());
    if fire is Some {
        r == Some(ActorMove { actor_id: id, action: Action::Fires(actor.state.aim->0, fire->0) })
    } else if nearest matches Some(k) && Pos::manhattan_spec(actor.pos, board.actors.actors[k].pos) <= FIRING_RANGE {
        let q = actor.pos.quadrant_spec(board.actors.actors[nearest->0].pos);
        match actor.state.aim {
            Some(d) => if d == q {
                r is None
            } else {
                r == Some(ActorMove { actor_id: id, action: Action::StopsAiming })
            },
            None => r == Some(ActorMove { actor_id: id, action: Action::Aims(q) }),
        }
    } else if actor.state.aim is Some {
        r == Some(ActorMove { actor_id: id, action: Action::StopsAiming })
    } else if actor.state.drunk {
        match nearest {
            None => r is None,
            Some(k) => match first_enterable(board, actor, actor.pos.quadrants_spec(board.actors.actors[k].pos)) {
                Some(d) => r == Some(ActorMove { actor_id: id, action: Action::Moves(d) }),
                None => r is None,
            },
        }
    } else {
        walks_toward_preys(board, id, actor, r)
    }
}

/// the decision of the actor `id`, by kind
pub open spec fn ai_move_ok(board: BoardModel, id: ActorId, r: Option<ActorMove>) -> bool {
    let actor = board.actors.actors[id as int];
    match actor.kind {
        ActorKind::Fox => lapin_eater_ok(board, id, actor, r),
        ActorKind::Knight | ActorKind::Wolf => eater_ok(board, id, actor, r),
        ActorKind::Hunter => firer_ok(board, id, actor, r),
        ActorKind::Sheep => grazer_ok(board, id, actor, r),
        _ => r is None,
    }
}

/// the moves of a sequence of optional moves
pub open spec fn somes(rs: Seq<Option<ActorMove>>) -> Seq<ActorMove>
    decreases rs.len(),
{
    if rs.len() == 0 {
        Seq::empty()
    } else {
        match rs.last() {
            Some(m) => somes(rs.drop_last()).push(m),
            None => somes(rs.drop_last()),
        }
    }
}

/// decides what all the actors (but the lapin) play in a world turn
pub struct WorldPlayer<'t> {
    pub board: &'t Board,
    pub seed: usize,
}

impl<'t> WorldPlayer<'t> {
    pub fn new(board: &'t Board, seed: usize) -> (wp: WorldPlayer<'t>)
        ensures
            wp.board == board,
            wp.seed == seed,
    {
        WorldPlayer { board, seed }
    }

    /// a move one step along a path toward the goal, if one is found
    fn move_to_goal(&self, actor_id: ActorId, actor: Actor, goal: Goal) -> (r: Option<ActorMove>)
        requires
            self.board.wf(),
        ensures
            walks_toward(self.board@, actor_id, actor, goal, r),
    {
        let mut path_finder = PathFinder::new(actor, self.board, self.seed);
        let hint = if actor.kind.runs_after(ActorKind::Lapin) {
            Some(self.board.lapin_pos())
        } else {
            None
        };
        let ghost g = goal;
        match path_finder.find(goal, hint) {
            Some(path) => {
                let first = path[0];
                match actor.pos.dir_to(first) {
                    Some(dir) => {
                        assert(is_path(self.board@, actor, g, path@));
                        Some(ActorMove::new(actor_id, Action::Moves(dir)))
                    },
                    None => {
                        assert(main_step(actor.pos, path@[0]));
                        assert(false);
                        None
                    },
                }
            },
            None => None,
        }
    }

    /// a move toward a prey of the actor
    fn move_to_preys(&self, actor_id: ActorId, actor: Actor) -> (r: Option<ActorMove>)
        requires
            self.board.wf(),
            preys_spec(actor.kind) is Some,
        ensures
            walks_toward_preys(self.board@, actor_id, actor, r),
    {
        match actor.preys() {
            Some(preys) => {
                let ghost goal = Goal::ActorKinds(preys);
                let r = self.move_to_goal(actor_id, actor, Goal::ActorKinds(preys));
                proof {
                    if r is Some {
                        let d = r->0.action->Moves_0;
                        assert(steps_toward(self.board@, actor, goal, d));
                    } else {
                        assert(search_failed(self.board@, actor, goal));
                    }
                }
                r
            },
            None => None,
        }
    }

    fn find_grazer_move(&self, actor_id: ActorId, actor: Actor) -> (r: Option<ActorMove>)
        requires
            self.board.wf(),
        ensures
            grazer_ok(self.board@, actor_id, actor, r),
    {
        if self.board.get(actor.pos) == Terrain::Grass {
            None
        } else {
            self.move_to_goal(actor_id, actor, Goal::Terrain(Terrain::Grass))
        }
    }

    fn find_lapin_eater_move(&self, actor_id: ActorId, actor: Actor) -> (r: Option<ActorMove>)
        requires
            self.board.wf(),
        ensures
            lapin_eater_ok(self.board@, actor_id, actor, r),
    {
        let lapin_pos = self.board.lapin_pos();
        if let Some(dir) = actor.pos.dir_to(lapin_pos) {
            return Some(ActorMove::new(actor_id, Action::Eats(dir, 0)));
        }
        self.move_to_goal(actor_id, actor, Goal::Pos(lapin_pos))
    }

    /// for actors which hunt several kinds of actors
    fn find_eater_move(&self, actor_id: ActorId, actor: Actor) -> (r: Option<ActorMove>)
        requires
            self.board.wf(),
            preys_spec(actor.kind) is Some,
        ensures
            eater_ok(self.board@, actor_id, actor, r),
    {
        let n = self.board.actors.len();
        let mut other_id: usize = 0;
        while other_id < n
            invariant
                self.board.wf(),
                n == self.board@.actors.actors.len(),
                other_id <= n,
                forall|j: int| 0 <= j < other_id ==> !can_eat(self.board@, actor_id, actor, j),
            decreases n - other_id,
        {
            if other_id != actor_id {
                let other = self.board.actors.by_id(other_id);
                if actor.hits(other) {
                    if let Some(dir) = actor.pos.dir_to(other.pos) {
                        if actor.can_enter(self.board.get(other.pos)) {
                            assert(can_eat(self.board@, actor_id, actor, other_id as int));
                            return Some(ActorMove::new(actor_id, Action::Eats(dir, other_id)));
                        }
                    }
                }
            }
            other_id += 1;
        }
        proof {
            if exists|k: int| can_eat(self.board@, actor_id, actor, k) {
                let k = choose|k: int| can_eat(self.board@, actor_id, actor, k);
                assert(!can_eat(self.board@, actor_id, actor, k));
            }
        }
        self.move_to_preys(actor_id, actor)
    }

    /// the nearest actor the actor would fire on, with its distance
    fn nearest_fire_target(&self, actor_id: ActorId, actor: Actor) -> (r: Option<(Actor, i64)>)
        requires
            self.board.wf(),
        ensures
            r == (match nearest_upto(self.board@, actor_id, actor, self.board@.actors.actors.len()) {
                Some(k) => Some(
                    (
                        self.board@.actors.actors[k],
                        Pos::manhattan_spec(actor.pos, self.board@.actors.actors[k].pos) as i64,
                    ),
                ),
                None => None,
            }),
    {
        let n = self.board.actors.len();
        let mut nearest: Option<(Actor, i64)> = None;
        let ghost mut best: Option<int> = None;
        let mut other_id: usize = 0;
        while other_id < n
            invariant
                self.board.wf(),
                n == self.board@.actors.actors.len(),
                other_id <= n,
                best == nearest_upto(self.board@, actor_id, actor, other_id as nat),
                nearest == (match best {
                    Some(k) => Some(
                        (
                            self.board@.actors.actors[k],
                            Pos::manhattan_spec(actor.pos, self.board@.actors.actors[k].pos) as i64,
                        ),
                    ),
                    None => None,
                }),
                best matches Some(k) ==> 0 <= k < other_id,
            decreases n - other_id,
        {
            if other_id != actor_id {
                let other = self.board.actors.by_id(other_id);
                if actor.fires_on(other) {
                    let dist = Pos::manhattan_distance(actor.pos, other.pos);
                    let better = match nearest {
                        Some((_, best_dist)) => best_dist > dist,
                        None => true,
                    };
                    if better {
                        nearest = Some((other, dist));
                        proof {
                            best = Some(other_id as int);
                        }
                    }
                }
            }
            other_id += 1;
        }
        nearest
    }

    /// whether the actor can walk on the position
    fn can_enter(&self, actor: Actor, pos: Pos) -> (b: bool)
        requires
            self.board.wf(),
        ensures
            b == enterable(self.board@, actor, pos),
    {
        actor.can_enter(self.board.get(pos)) && !self.board.actors.has_pos(pos)
    }

    /// the actor the firer would hit when firing in `dir`
    fn find_fire_target(&self, actor: Actor, dir: Dir) -> (r: Option<ActorId>)
        requires
            self.board.wf(),
        ensures
            r == fire_scan(self.board@, actor, dir, actor.pos, FIRING_RANGE as nat),
    {
        let mut pos = actor.pos;
        let mut k: Int = 0;
        while k < FIRING_RANGE
            invariant
                self.board.wf(),
                0 <= k <= FIRING_RANGE,
                fire_scan(self.board@, actor, dir, actor.pos, FIRING_RANGE as nat) == fire_scan(
                    self.board@,
                    actor,
                    dir,
                    pos,
                    (FIRING_RANGE - k) as nat,
                ),
            decreases FIRING_RANGE - k,
        {
            if !pos.can_move(dir) {
                return None;
            }
            pos = pos.in_dir(dir);
            if let Some((target_id, target)) = self.board.actors.id_actor_by_pos(pos) {
                if actor.fires_on(target) {
                    return Some(target_id);
                }
            }
            if self.board.get(pos) == Terrain::Stone {
                return None;
            }
            k += 1;
        }
        None
    }

    /// the first of the directions in which the actor can walk
    fn first_enterable_dir(&self, actor: Actor, dirs: &Vec<Dir>) -> (r: Option<Dir>)
        requires
            self.board.wf(),
        ensures
            r == first_enterable(self.board@, actor, dirs@),
    {
        let mut k: usize = 0;
        assert(dirs@.subrange(0, dirs@.len() as int) =~= dirs@);
        while k < dirs.len()
            invariant
                self.board.wf(),
                k <= dirs@.len(),
                first_enterable(self.board@, actor, dirs@) == first_enterable(
                    self.board@,
                    actor,
                    dirs@.subrange(k as int, dirs@.len() as int),
                ),
            decreases dirs@.len() - k,
        {
            let dir = dirs[k];
            assert(dirs@.subrange(k as int, dirs@.len() as int).drop_first() =~= dirs@.subrange(
                k + 1,
                dirs@.len() as int,
            ));
            if actor.pos.can_move(dir) && self.can_enter(actor, actor.pos.in_dir(dir)) {
                return Some(dir);
            }
            k += 1;
        }
        None
    }

    fn find_firer_move(&self, actor_id: ActorId, actor: Actor) -> (r: Option<ActorMove>)
        requires
            self.board.wf(),
            preys_spec(actor.kind) is Some,
        ensures
            firer_ok(self.board@, actor_id, actor, r),
    {
        // we first check whether we have a target in the firing line
        if let Some(dir) = actor.state.aim {
            if let Some(target_id) = self.find_fire_target(actor, dir) {
                return Some(ActorMove::new(actor_id, Action::Fires(dir, target_id)));
            }
        }
        // if there's a possible target in range, we try to lock aim on it
        let nearest_target = self.nearest_fire_target(actor_id, actor);
        if let Some((other, dist)) = nearest_target {
            if dist <= FIRING_RANGE as i64 {
                let quadrant_dir = actor.pos.quadrant_to(other.pos);
                // the target isn't in the firing line (or we would have fired)
                return match actor.state.aim {
                    Some(dir) => {
                        if dir == quadrant_dir {
                            // keep aiming
                            None
                        } else {
                            // target lost
                            Some(ActorMove::new(actor_id, Action::StopsAiming))
                        }
                    },
                    // starts aiming
                    None => Some(ActorMove::new(actor_id, Action::Aims(quadrant_dir))),
                };
            }
        }
        // there's nothing on which to aim or fire, so we should walk
        if actor.is_aiming() {
            return Some(ActorMove::new(actor_id, Action::StopsAiming));
        }
        if actor.state.drunk {
            match nearest_target {
                Some((target, _)) => {
                    let dirs = actor.pos.quadrants_to(target.pos);
                    match self.first_enterable_dir(actor, &dirs) {
                        Some(dir) => Some(ActorMove::new(actor_id, Action::Moves(dir))),
                        None => None,
                    }
                },
                None => None,
            }
        } else {
            self.move_to_preys(actor_id, actor)
        }
    }

    fn find_actor_move(&self, actor_id: ActorId) -> (r: Option<ActorMove>)
        requires
            self.board.wf(),
            actor_id < self.board@.actors.actors.len(),
        ensures
            ai_move_ok(self.board@, actor_id, r),
    {
        let actor = self.board.actors.by_id(actor_id);
        match actor.kind {
            ActorKind::Fox => self.find_lapin_eater_move(actor_id, actor),
            ActorKind::Knight | ActorKind::Wolf => self.find_eater_move(actor_id, actor),
            ActorKind::Hunter => self.find_firer_move(actor_id, actor),
            ActorKind::Sheep => self.find_grazer_move(actor_id, actor),
            _ => None,
        }
    }

    /// what the world plays: the decisions of all actors but the lapin,
    /// computed sequentially, in order of id
    pub fn play(self) -> (wm: WorldMove)
        requires
            self.board.wf(),
        ensures
            exists|rs: Seq<Option<ActorMove>>|
                {
                    &&& rs.len() + 1 == self.board@.actors.actors.len()
                    &&& forall|k: int| 0 <= k < rs.len() ==> ai_move_ok(self.board@, (k + 1) as usize, #[trigger] rs[k])
                    &&& wm.actor_moves@ == somes(rs)
                },
    {
        let mut actor_moves: Vec<ActorMove> = Vec::new();
        let n = self.board.actors.len();
        let ghost mut rs: Seq<Option<ActorMove>> = Seq::empty();
        let mut id: usize = 1;
        while id < n
            invariant
                self.board.wf(),
                n == self.board@.actors.actors.len(),
                1 <= id <= n,
                rs.len() + 1 == id,
                forall|k: int| 0 <= k < rs.len() ==> ai_move_ok(self.board@, (k + 1) as usize, #[trigger] rs[k]),
                actor_moves@ == somes(rs),
            decreases n - id,
        {
            let actor_move = self.find_actor_move(id);
            proof {
                let prev = rs;
                rs = rs.push(actor_move);
                assert(rs.drop_last() =~= prev);
            }
            if let Some(m) = actor_move {
                actor_moves.push(m);
            }
            id += 1;
        }
        WorldMove { actor_moves }
    }
}

} // verus!

verus! {

proof fn lemma_fire_scan_fits(board: BoardModel, actor: Actor, dir: Dir, pos: Pos, n: nat)
    requires
        board.actors.sound(),
    ensures
        fire_scan(board, actor, dir, pos, n) matches Some(t) ==> t < board.actors.actors.len(),
    decreases n,
{
    if n > 0 && pos.can_step(dir) {
        lemma_fire_scan_fits(board, actor, dir, pos.step(dir), (n - 1) as nat);
    }
}

proof fn lemma_ai_move_fits(board: BoardModel, id: ActorId, m: ActorMove)
    requires
        board.actors.sound(),
        id < board.actors.actors.len(),
        ai_move_ok(board, id, Some(m)),
    ensures
        m.actor_id == id,
        m.target_spec() matches Some(t) ==> t < board.actors.actors.len(),
{
    let actor = board.actors.actors[id as int];
    if actor.state.aim is Some {
        lemma_fire_scan_fits(board, actor, actor.state.aim->0, actor.pos, FIRING_RANGE as nat);
    }
    if actor.kind == ActorKind::Knight || actor.kind == ActorKind::Wolf {
        if exists|k: int| can_eat(board, id, actor, k) {
            let k = choose|k: int|
                #[trigger] can_eat(board, id, actor, k) && (forall|j: int| 0 <= j < k ==> !can_eat(board, id, actor, j))
                    && Some(m) == Some(
                    ActorMove {
                        actor_id: id,
                        action: Action::Eats(
                            dir_of(
                                actor.pos.dx_to(board.actors.actors[k].pos),
                                actor.pos.dy_to(board.actors.actors[k].pos),
                            )->0,
                            k as usize,
                        ),
                    },
                );
        }
    }
}

/// The world moves decided by the world player can always be applied
/// to the board: every actor but the lapin plays at most once, in
/// increasing order of id, and all the ids (actors and targets) are
/// ids of actors of the board.
pub proof fn lemma_world_moves_fit(board: BoardModel, rs: Seq<Option<ActorMove>>)
    requires
        board.actors.sound(),
        rs.len() + 1 <= board.actors.actors.len(),
        forall|k: int| 0 <= k < rs.len() ==> ai_move_ok(board, (k + 1) as usize, #[trigger] rs[k]),
    ensures
        moves_fit(somes(rs), board.actors.actors.len()),
        forall|i: int| 0 <= i < somes(rs).len() ==> 1 <= (#[trigger] somes(rs)[i]).actor_id <= rs.len(),
        forall|i: int, j: int| 0 <= i < j < somes(rs).len() ==> (#[trigger] somes(rs)[i]).actor_id < (#[trigger] somes(rs)[j]).actor_id,
    decreases rs.len(),
{
    if rs.len() > 0 {
        let prev = rs.drop_last();
        assert forall|k: int| 0 <= k < prev.len() implies ai_move_ok(board, (k + 1) as usize, #[trigger] prev[k]) by {
            assert(prev[k] == rs[k]);
        }
        lemma_world_moves_fit(board, prev);
        assert(ai_move_ok(board, rs.len() as usize, rs[rs.len() - 1]));
        if let Some(m) = rs.last() {
            lemma_ai_move_fits(board, rs.len() as usize, m);
            let s = somes(rs);
            assert(s == somes(prev).push(m));
            assert forall|i: int| 0 <= i < s.len() implies {
                &&& (#[trigger] s[i]).actor_id < board.actors.actors.len()
                &&& s[i].target_spec() matches Some(t) ==> t < board.actors.actors.len()
            } by {
                if i < s.len() - 1 {
                    assert(s[i] == somes(prev)[i]);
                }
            }
            assert forall|i: int, j: int| 0 <= i < j < s.len() implies (#[trigger] s[i]).actor_id < (#[trigger] s[j]).actor_id by {
                assert(s[i] == somes(prev)[i]);
                if j < s.len() - 1 {
                    assert(s[j] == somes(prev)[j]);
                }
            }
            assert forall|i: int| 0 <= i < s.len() implies 1 <= (#[trigger] s[i]).actor_id <= rs.len() by {
                if i < s.len() - 1 {
                    assert(s[i] == somes(prev)[i]);
                }
            }
        }
    }
}

/// the two positions are neighbours, diagonals included
pub open spec fn adjacent(p: Pos, q: Pos) -> bool {
    &&& -1 <= q.x - p.x <= 1
    &&& -1 <= q.y - p.y <= 1
    &&& p != q
}

/// the direction from a position to an adjacent one leads there
proof fn lemma_dir_to_adjacent(p: Pos, q: Pos)
    requires
        adjacent(p, q),
    ensures
        dir_of(p.dx_to(q), p.dy_to(q)) matches Some(d) && p.can_step(d) && p.step(d) == q,
{
}

/// A wolf or a fox next to the lapin (diagonals included) eats it: its
/// decision is to eat the lapin (the actor 0), in the direction leading
/// to the lapin, provided, for the wolf, that it can walk on the
/// lapin's terrain.
pub proof fn lemma_adjacent_lapin_eaten(board: BoardModel, id: ActorId, r: Option<ActorMove>)
    requires
        0 < id < board.actors.actors.len(),
        ai_move_ok(board, id, r),
        ({
            let actor = board.actors.actors[id as int];
            let lapin = board.actors.actors[0];
            &&& board.actors.actors[0].kind == ActorKind::Lapin
            &&& actor.kind == ActorKind::Wolf || actor.kind == ActorKind::Fox
            &&& adjacent(actor.pos, lapin.pos)
            &&& actor.kind == ActorKind::Wolf ==> can_enter_spec(actor.kind, board.terrain_at(lapin.pos))
        }),
    ensures
        r matches Some(m) && m.actor_id == id && (m.action matches Action::Eats(d, target) && target == 0
            && board.actors.actors[id as int].pos.can_step(d) && board.actors.actors[id as int].pos.step(d)
            == board.actors.actors[0].pos),
{
    let actor = board.actors.actors[id as int];
    let lapin = board.actors.actors[0];
    lemma_dir_to_adjacent(actor.pos, lapin.pos);
    if actor.kind == ActorKind::Wolf {
        assert(can_eat(board, id, actor, 0));
        let k = choose|k: int|
            #[trigger] can_eat(board, id, actor, k) && (forall|j: int| 0 <= j < k ==> !can_eat(board, id, actor, j))
                && r == Some(
                ActorMove {
                    actor_id: id,
                    action: Action::Eats(
                        dir_of(
                            actor.pos.dx_to(board.actors.actors[k].pos),
                            actor.pos.dy_to(board.actors.actors[k].pos),
                        )->0,
                        k as usize,
                    ),
                },
            );
        assert(k == 0);
    }
}

/// The direction a drunk hunter walks in leads to a position free of any
/// living actor, with a terrain it can walk on, and it's the first such
/// one among the directions offered.
pub proof fn lemma_first_enterable_free(board: BoardModel, actor: Actor, dirs: Seq<Dir>)
    ensures
        first_enterable(board, actor, dirs) matches Some(d) ==> {
            &&& dirs.contains(d)
            &&& actor.pos.can_step(d)
            &&& !board.actors.has_pos(actor.pos.step(d))
            &&& can_enter_spec(actor.kind, board.terrain_at(actor.pos.step(d)))
        },
    decreases dirs.len(),
{
    if dirs.len() > 0 {
        lemma_first_enterable_free(board, actor, dirs.drop_first());
        if let Some(d) = first_enterable(board, actor, dirs.drop_first()) {
            if !(actor.pos.can_step(dirs[0]) && enterable(board, actor, actor.pos.step(dirs[0]))) {
                let k = choose|k: int| 0 <= k < dirs.drop_first().len() && dirs.drop_first()[k] == d;
                assert(dirs[k + 1] == d);
            }
        }
        if actor.pos.can_step(dirs[0]) && enterable(board, actor, actor.pos.step(dirs[0])) {
            assert(dirs[0] == dirs[0]);
        }
    }
}

} // verus!
