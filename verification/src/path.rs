//! Path finding for the actors of the world.

use vstd::prelude::*;
use std::collections::VecDeque;
use crate::actor::{can_enter_spec, Actor, ActorKind};
use crate::board::{Board, BoardModel};
use crate::pos::{is_isqrt, main_step, Dir, Int, Pos};
use crate::pos_map::{PosMap, PosSet};
use crate::terrain::Terrain;

verus! {

/// beyond this size of the open set, the search is abandoned
pub const MAX_OPEN_SIZE: usize = 200;

/// the score of positions not reached yet
pub const INFINITY: Int = 32_767;

/// a position with a score (the lower the better)
#[derive(Debug, Clone, Copy, PartialEq, Eq, Structural)]
pub struct ValuedPos {
    pub pos: Pos,
    pub score: i64,
}

impl ValuedPos {
    pub fn from(pos: Pos, score: i64) -> (vp: ValuedPos)
        ensures
            vp.pos == pos,
            vp.score == score,
    {
        ValuedPos { pos, score }
    }
}

/// what an actor looks for
#[derive(Debug)]
pub enum Goal {
    /// a precise position
    Pos(Pos),
    /// a free position with that terrain
    Terrain(Terrain),
    /// an actor of one of those kinds, on a terrain the searcher can enter
    ActorKinds(Vec<ActorKind>),
}

/// the main directions, in the order they're tried (before rotation)
pub open spec fn dirs_spec() -> Seq<Dir> {
    seq![Dir::Up, Dir::Right, Dir::Down, Dir::Left]
}

fn dir_at(k: usize) -> (d: Dir)
    requires
        k < 4,
    ensures
        d == dirs_spec()[k as int],
        d.is_main(),
{
    match k {
        0 => Dir::Up,
        1 => Dir::Right,
        2 => Dir::Down,
        _ => Dir::Left,
    }
}

/// whether the actor can walk through the position (a free one
/// with a terrain it can enter)
pub open spec fn enterable(board: BoardModel, actor: Actor, pos: Pos) -> bool {
    can_enter_spec(actor.kind, board.terrain_at(pos)) && !board.actors.has_pos(pos)
}

/// whether the position fulfills the goal
pub open spec fn goal_reached(board: BoardModel, actor: Actor, pos: Pos, goal: Goal) -> bool {
    match goal {
        Goal::Pos(goal_pos) => goal_pos == pos,
        Goal::Terrain(terrain) => board.terrain_at(pos) == terrain && !board.actors.has_pos(pos),
        Goal::ActorKinds(kinds) => match board.actors.by_pos(pos) {
            Some(other) => kinds@.contains(other.kind) && can_enter_spec(actor.kind, board.terrain_at(pos)),
            None => false,
        },
    }
}

/// the path leads the actor, by main moves from its position, through
/// positions it can enter, to a position fulfilling the goal (the start
/// isn't in the path, the goal is)
pub open spec fn is_path(board: BoardModel, actor: Actor, goal: Goal, path: Seq<Pos>) -> bool {
    &&& path.len() >= 1
    &&& main_step(actor.pos, path[0])
    &&& forall|i: int| 0 <= i < path.len() - 1 ==> main_step(#[trigger] path[i], path[i + 1])
    &&& forall|i: int| 0 <= i < path.len() - 1 ==> enterable(board, actor, #[trigger] path[i])
    &&& forall|i: int| 0 <= i < path.len() - 1 ==> #[trigger] path[i] != actor.pos
    &&& goal_reached(board, actor, path.last(), goal)
}

/// Along a path, every position before the goal is free of any living
/// actor and has a terrain the actor can walk on.
pub proof fn lemma_path_steps_free(board: BoardModel, actor: Actor, goal: Goal, path: Seq<Pos>)
    requires
        is_path(board, actor, goal, path),
    ensures
        forall|i: int|
            0 <= i < path.len() - 1 ==> !board.actors.has_pos(#[trigger] path[i]) && can_enter_spec(
                actor.kind,
                board.terrain_at(path[i]),
            ),
{
    assert forall|i: int| 0 <= i < path.len() - 1 implies !board.actors.has_pos(#[trigger] path[i]) && can_enter_spec(
        actor.kind,
        board.terrain_at(path[i]),
    ) by {
        assert(enterable(board, actor, path[i]));
    }
}

/// the walk leads the actor from its position, by main moves, through
/// positions it can enter
pub open spec fn is_walk(board: BoardModel, actor: Actor, w: Seq<Pos>) -> bool {
    &&& w.len() >= 1
    &&& w[0] == actor.pos
    &&& forall|i: int| 0 <= i < w.len() - 1 ==> main_step(#[trigger] w[i], w[i + 1])
    &&& forall|i: int| 1 <= i < w.len() ==> enterable(board, actor, #[trigger] w[i])
}

/// the actor can walk to the position
pub open spec fn reachable(board: BoardModel, actor: Actor, p: Pos) -> bool {
    exists|w: Seq<Pos>| #[trigger] is_walk(board, actor, w) && w.last() == p
}

/// more than n positions can be reached by the actor
pub open spec fn reaches_more_than(board: BoardModel, actor: Actor, n: nat) -> bool {
    exists|s: Set<Pos>|
        s.finite() && s.len() > n && (forall|p: Pos| #[trigger] s.contains(p) ==> reachable(board, actor, p))
}

/// no neighbour of the actor (in a main direction) fulfills the goal
pub open spec fn no_goal_beside(board: BoardModel, actor: Actor, goal: Goal) -> bool {
    forall|d: Dir|
        d.is_main() && actor.pos.can_step(d) ==> !goal_reached(board, actor, #[trigger] actor.pos.step(d), goal)
}

/// every path toward the goal is longer than INFINITY
pub open spec fn no_short_path(board: BoardModel, actor: Actor, goal: Goal) -> bool {
    forall|path: Seq<Pos>| #[trigger] is_path(board, actor, goal, path) ==> path.len() > INFINITY
}

/// the neighbour of `c` in the main direction of index m was looked at:
/// it doesn't fulfill the goal and, if it can be entered, its score is
/// at most one more than the one of `c`
pub open spec fn looked_at(board: BoardModel, actor: Actor, goal: Goal, g: PosMap<Int>, c: Pos, m: int) -> bool {
    let d = dirs_spec()[m];
    c.can_step(d) ==> {
        &&& !goal_reached(board, actor, c.step(d), goal)
        &&& (enterable(board, actor, c.step(d)) && g.at(c) + 1 < INFINITY ==> g.at(c.step(d)) <= g.at(c) + 1)
    }
}

/// the neighbour of `c` in the main direction of index m doesn't fulfill the goal
pub open spec fn not_goal_beside(board: BoardModel, actor: Actor, goal: Goal, c: Pos, m: int) -> bool {
    let d = dirs_spec()[m];
    c.can_step(d) ==> !goal_reached(board, actor, c.step(d), goal)
}

/// the neighbour of `c` in the main direction of index m was looked at by
/// the A* search: it doesn't fulfill the goal and, if it can be entered
/// and isn't closed, its score is at most one more than the one of `c`
pub open spec fn astar_looked_at(
    board: BoardModel,
    actor: Actor,
    goal: Goal,
    g: PosMap<Int>,
    closed: Set<Pos>,
    c: Pos,
    m: int,
) -> bool {
    let d = dirs_spec()[m];
    c.can_step(d) ==> {
        &&& !goal_reached(board, actor, c.step(d), goal)
        &&& (enterable(board, actor, c.step(d)) && !closed.contains(c.step(d)) && g.at(c) + 1 < INFINITY ==> g.at(c.step(d))
            <= g.at(c) + 1)
    }
}

/// some entry of the open set is at the position
pub open spec fn in_open(open: Seq<ValuedPos>, p: Pos) -> bool {
    exists|k: int| 0 <= k < open.len() && #[trigger] open[k].pos == p
}

/// the direction a search with this seed tries at rank j (0 to 3)
pub open spec fn tried_dir(seed: int, j: int) -> Dir {
    dirs_spec()[(j + seed % 4) % 4]
}

/// the neighbour of the actor in the direction tried at rank j fulfills the goal
pub open spec fn goal_beside_at(board: BoardModel, actor: Actor, goal: Goal, seed: int, j: int) -> bool {
    actor.pos.can_step(tried_dir(seed, j)) && goal_reached(board, actor, actor.pos.step(tried_dir(seed, j)), goal)
}

/// rank j is the first rank whose direction leads the actor beside the goal
pub open spec fn first_goal_beside(board: BoardModel, actor: Actor, goal: Goal, seed: int, j: int) -> bool {
    &&& 0 <= j < 4
    &&& goal_beside_at(board, actor, goal, seed, j)
    &&& forall|i: int| 0 <= i < j ==> !goal_beside_at(board, actor, goal, seed, i)
}

proof fn lemma_dirs_main(m: int)
    requires
        0 <= m < 4,
    ensures
        dirs_spec()[m].is_main(),
{
    if m == 0 {
        assert(dirs_spec()[0] == Dir::Up);
    } else if m == 1 {
        assert(dirs_spec()[1] == Dir::Right);
    } else if m == 2 {
        assert(dirs_spec()[2] == Dir::Down);
    } else {
        assert(dirs_spec()[3] == Dir::Left);
    }
}

/// when no neighbour fulfills the goal, no rank leads beside it
proof fn lemma_no_first_goal(board: BoardModel, actor: Actor, goal: Goal, seed: int)
    requires
        no_goal_beside(board, actor, goal),
        seed >= 0,
    ensures
        forall|j: int| !#[trigger] first_goal_beside(board, actor, goal, seed, j),
{
    assert forall|j: int| !#[trigger] first_goal_beside(board, actor, goal, seed, j) by {
        if 0 <= j < 4 {
            lemma_dirs_main((j + seed % 4) % 4);
        }
    }
}

/// a main step is a step in one of the main directions
proof fn lemma_main_step_dir(p: Pos, q: Pos) -> (m: int)
    requires
        main_step(p, q),
    ensures
        0 <= m < 4,
        p.can_step(dirs_spec()[m]),
        p.step(dirs_spec()[m]) == q,
{
    if q.x == p.x && q.y == p.y - 1 {
        0
    } else if q.y == p.y && q.x == p.x + 1 {
        1
    } else if q.x == p.x && q.y == p.y + 1 {
        2
    } else {
        3
    }
}

/// the four rotated indices cover the main directions
proof fn lemma_rotation(s: int, m: int) -> (j: int)
    requires
        0 <= s < 4,
        0 <= m < 4,
    ensures
        0 <= j < 4,
        (j + s) % 4 == m,
{
    if m >= s {
        m - s
    } else {
        m + 4 - s
    }
}

proof fn lemma_no_goal_beside(board: BoardModel, actor: Actor, goal: Goal)
    requires
        forall|m: int| 0 <= m < 4 ==> #[trigger] not_goal_beside(board, actor, goal, actor.pos, m),
    ensures
        no_goal_beside(board, actor, goal),
{
    assert forall|d: Dir| d.is_main() && actor.pos.can_step(d) implies !goal_reached(
        board,
        actor,
        #[trigger] actor.pos.step(d),
        goal,
    ) by {
        let m: int = match d {
            Dir::Up => 0,
            Dir::Right => 1,
            Dir::Down => 2,
            _ => 3,
        };
        assert(not_goal_beside(board, actor, goal, actor.pos, m));
    }
}

/// the path reaches the goal in as few steps as any other
pub open spec fn is_shortest_path(board: BoardModel, actor: Actor, goal: Goal, path: Seq<Pos>) -> bool {
    &&& is_path(board, actor, goal, path)
    &&& forall|q: Seq<Pos>| #[trigger] is_path(board, actor, goal, q) ==> path.len() <= q.len()
}

/// when all the positions with a score under `bound` were looked around,
/// every path toward the goal is longer than `bound`
proof fn lemma_none_shorter(board: BoardModel, actor: Actor, goal: Goal, g: PosMap<Int>, done: Seq<Pos>, bound: int)
    requires
        0 <= bound <= INFINITY,
        g.at(actor.pos) == 0,
        forall|p: Pos| 0 <= #[trigger] g.at(p),
        forall|p: Pos| #[trigger] g.at(p) < bound ==> done.contains(p),
        forall|k: int, m: int|
            0 <= k < done.len() && 0 <= m < 4 ==> #[trigger] looked_at(board, actor, goal, g, done[k], m),
    ensures
        forall|path: Seq<Pos>| #[trigger] is_path(board, actor, goal, path) ==> path.len() > bound,
{
    assert forall|path: Seq<Pos>| #[trigger] is_path(board, actor, goal, path) implies path.len() > bound by {
        if path.len() <= bound {
            let n = (path.len() - 1) as nat;
            lemma_walked(board, actor, goal, g, done, bound, path, n);
            let c = if n == 0 { actor.pos } else { path[n - 1] };
            let m = lemma_main_step_dir(c, path[n as int]);
            let k = choose|k: int| 0 <= k < done.len() && done[k] == c;
            assert(looked_at(board, actor, goal, g, done[k], m));
        }
    }
}

/// when all the positions with a score were looked around and there's
/// none left to look at, no path shorter than INFINITY leads to the goal
proof fn lemma_exhausted(board: BoardModel, actor: Actor, goal: Goal, g: PosMap<Int>, popped: Seq<Pos>)
    requires
        g.at(actor.pos) == 0,
        forall|p: Pos| 0 <= #[trigger] g.at(p),
        forall|p: Pos| #[trigger] g.at(p) < INFINITY ==> popped.contains(p),
        forall|k: int, m: int|
            0 <= k < popped.len() && 0 <= m < 4 ==> #[trigger] looked_at(board, actor, goal, g, popped[k], m),
    ensures
        no_short_path(board, actor, goal),
{
    lemma_none_shorter(board, actor, goal, g, popped, INFINITY as int);
}

/// along a path no longer than `bound`, when the positions with a score
/// under `bound` were looked around, the positions before the goal have
/// a score at most their rank
proof fn lemma_walked(
    board: BoardModel,
    actor: Actor,
    goal: Goal,
    g: PosMap<Int>,
    popped: Seq<Pos>,
    bound: int,
    path: Seq<Pos>,
    k: nat,
)
    requires
        bound <= INFINITY,
        g.at(actor.pos) == 0,
        forall|p: Pos| 0 <= #[trigger] g.at(p),
        forall|p: Pos| #[trigger] g.at(p) < bound ==> popped.contains(p),
        forall|k: int, m: int|
            0 <= k < popped.len() && 0 <= m < 4 ==> #[trigger] looked_at(board, actor, goal, g, popped[k], m),
        is_path(board, actor, goal, path),
        path.len() <= bound,
        k < path.len(),
    ensures
        ({
            let c = if k == 0 { actor.pos } else { path[k - 1] };
            popped.contains(c) && g.at(c) <= k
        }),
    decreases k,
{
    if k > 0 {
        lemma_walked(board, actor, goal, g, popped, bound, path, (k - 1) as nat);
        let prev = if k == 1 { actor.pos } else { path[k - 2] };
        let c = path[k - 1];
        if k >= 2 {
            assert(main_step(path[k - 2], path[(k - 2) + 1]));
        }
        let m = lemma_main_step_dir(prev, c);
        let j = choose|j: int| 0 <= j < popped.len() && popped[j] == prev;
        assert(looked_at(board, actor, goal, g, popped[j], m));
        assert(enterable(board, actor, path[k - 1]));
    }
}

pub struct PathFinder<'b> {
    pub actor: Actor,
    pub board: &'b Board,
    pub seed: usize,
}

/// a reversed copy
fn reversed(v: &Vec<Pos>) -> (r: Vec<Pos>)
    ensures
        r@ == v@.reverse(),
{
    let mut r: Vec<Pos> = Vec::new();
    let mut i: usize = v.len();
    while i > 0
        invariant
            i <= v@.len(),
            r@ == v@.subrange(i as int, v@.len() as int).reverse(),
        decreases i,
    {
        i -= 1;
        r.push(v[i]);
        assert(r@ =~= v@.subrange(i as int, v@.len() as int).reverse());
    }
    assert(v@.subrange(0, v@.len() as int) =~= v@);
    r
}

impl<'b> PathFinder<'b> {
    pub fn new(actor: Actor, board: &'b Board, seed: usize) -> (pf: PathFinder<'b>)
        ensures
            pf.actor == actor,
            pf.board == board,
            pf.seed == seed,
    {
        PathFinder { actor, board, seed }
    }

    /// the search state is consistent: scores and predecessors describe,
    /// for every reached position, a path back to the start
    pub open spec fn search_ok(
        &self,
        start: Pos,
        g: PosMap<Int>,
        came_from: PosMap<Pos>,
        closed: PosSet,
    ) -> bool {
        &&& g.wf()
        &&& came_from.wf()
        &&& closed.wf()
        &&& g.dflt() == INFINITY
        &&& g.at(start) == 0
        &&& closed@.contains(start)
        &&& forall|p: Pos| 0 <= #[trigger] g.at(p) <= INFINITY
        &&& forall|p: Pos| #[trigger] closed@.contains(p) ==> g.at(p) < INFINITY
        &&& forall|p: Pos|
            #[trigger] g.at(p) < INFINITY && p != start ==> {
                &&& closed@.contains(came_from.at(p))
                &&& g.at(came_from.at(p)) + 1 == g.at(p)
                &&& main_step(came_from.at(p), p)
                &&& enterable(self.board@, self.actor, p)
            }
    }

    /// a position with a score can be reached by the actor
    proof fn lemma_discovered_reachable(&self, start: Pos, g: PosMap<Int>, came_from: PosMap<Pos>, closed: PosSet, p: Pos)
        requires
            self.search_ok(start, g, came_from, closed),
            self.actor.pos == start,
            g.at(p) < INFINITY,
        ensures
            reachable(self.board@, self.actor, p),
        decreases g.at(p),
    {
        if p == start {
            assert(is_walk(self.board@, self.actor, seq![start]));
        } else {
            let q = came_from.at(p);
            self.lemma_discovered_reachable(start, g, came_from, closed, q);
            let w = choose|w: Seq<Pos>| #[trigger] is_walk(self.board@, self.actor, w) && w.last() == q;
            let w2 = w.push(p);
            assert forall|i: int| 0 <= i < w2.len() - 1 implies main_step(#[trigger] w2[i], w2[i + 1]) by {
                if i < w.len() - 1 {
                    assert(w2[i] == w[i] && w2[i + 1] == w[i + 1]);
                }
            }
            assert forall|i: int| 1 <= i < w2.len() implies enterable(self.board@, self.actor, #[trigger] w2[i]) by {
                if i < w.len() {
                    assert(w2[i] == w[i]);
                }
            }
            assert(is_walk(self.board@, self.actor, w2));
        }
    }

    /// distinct positions with a score show how many the actor can reach
    proof fn lemma_reaches_many(&self, start: Pos, g: PosMap<Int>, came_from: PosMap<Pos>, closed: PosSet, s: Seq<Pos>, n: nat)
        requires
            self.search_ok(start, g, came_from, closed),
            self.actor.pos == start,
            s.no_duplicates(),
            s.len() > n,
            forall|k: int| 0 <= k < s.len() ==> #[trigger] g.at(s[k]) < INFINITY,
        ensures
            reaches_more_than(self.board@, self.actor, n),
    {
        let set = s.to_set();
        s.unique_seq_to_set();
        assert(set.finite()) by {
            s.lemma_cardinality_of_set();
        }
        assert forall|p: Pos| #[trigger] set.contains(p) implies reachable(self.board@, self.actor, p) by {
            let k = choose|k: int| 0 <= k < s.len() && s[k] == p;
            self.lemma_discovered_reachable(start, g, came_from, closed, s[k]);
        }
    }

    /// once the start was looked around, no neighbour fulfills the goal
    proof fn lemma_start_looked_around(&self, goal: Goal, g: PosMap<Int>, popped: Seq<Pos>)
        requires
            popped.contains(self.actor.pos),
            forall|k: int, m: int|
                0 <= k < popped.len() && 0 <= m < 4 ==> #[trigger] looked_at(self.board@, self.actor, goal, g, popped[k], m),
        ensures
            no_goal_beside(self.board@, self.actor, goal),
    {
        let k = choose|k: int| 0 <= k < popped.len() && popped[k] == self.actor.pos;
        assert forall|m: int| 0 <= m < 4 implies #[trigger] not_goal_beside(self.board@, self.actor, goal, self.actor.pos, m) by {
            assert(looked_at(self.board@, self.actor, goal, g, popped[k], m));
        }
        lemma_no_goal_beside(self.board@, self.actor, goal);
    }

    /// tells whether the position can be an intermediate step on the path.
    fn can_enter(&self, pos: Pos) -> (b: bool)
        requires
            self.board.wf(),
        ensures
            b == enterable(self.board@, self.actor, pos),
    {
        self.actor.can_enter(self.board.get(pos)) && !self.board.actors.has_pos(pos)
    }

    /// tells whether the position is a/the goal
    fn reached(&self, pos: Pos, goal: &Goal) -> (b: bool)
        requires
            self.board.wf(),
        ensures
            b == goal_reached(self.board@, self.actor, pos, *goal),
    {
        match goal {
            Goal::Pos(goal_pos) => *goal_pos == pos,
            Goal::Terrain(terrain) => self.board.get(pos) == *terrain && !self.board.actors.has_pos(pos),
            Goal::ActorKinds(kinds) => match self.board.actors.by_pos(pos) {
                Some(other) => {
                    let mut found = false;
                    let mut k: usize = 0;
                    while k < kinds.len()
                        invariant
                            k <= kinds@.len(),
                            found == exists|j: int| 0 <= j < k && kinds@[j] == other.kind,
                        decreases kinds@.len() - k,
                    {
                        if kinds[k] == other.kind {
                            found = true;
                        }
                        k += 1;
                    }
                    proof {
                        if found {
                            let j = choose|j: int| 0 <= j < k && kinds@[j] == other.kind;
                            assert(kinds@.contains(other.kind));
                        } else {
                            if kinds@.contains(other.kind) {
                                let j = choose|j: int| 0 <= j < kinds@.len() && kinds@[j] == other.kind;
                                assert(false);
                            }
                        }
                    }
                    found && self.actor.can_enter(self.board.get(pos))
                },
                None => false,
            },
        }
    }

    /// the path from start to the neighbour of `current`, following the
    /// predecessors back from `current`
    fn rebuild_path(
        &self,
        start: Pos,
        current: Pos,
        neighbour: Pos,
        g: &PosMap<Int>,
        came_from: &PosMap<Pos>,
        closed: &PosSet,
        Ghost(goal): Ghost<Goal>,
    ) -> (path: Vec<Pos>)
        requires
            self.board.wf(),
            self.actor.pos == start,
            self.search_ok(start, *g, *came_from, *closed),
            g.at(current) < INFINITY,
            main_step(current, neighbour),
            goal_reached(self.board@, self.actor, neighbour, goal),
        ensures
            is_path(self.board@, self.actor, goal, path@),
            path@.len() == g.at(current) + 1,
            current == start ==> path@ == seq![neighbour],
    {
        let ghost g0 = g.at(current);
        let mut rpath: Vec<Pos> = Vec::new();
        rpath.push(neighbour);
        let mut current = current;
        while current != start
            invariant
                self.search_ok(start, *g, *came_from, *closed),
                g.at(current) < INFINITY,
                rpath@.len() + g.at(current) == g0 + 1,
                rpath@.len() >= 1,
                rpath@[0] == neighbour,
                main_step(current, rpath@.last()),
                forall|k: int| 0 <= k < rpath@.len() - 1 ==> main_step(#[trigger] rpath@[k + 1], rpath@[k]),
                forall|k: int| 1 <= k < rpath@.len() ==> enterable(self.board@, self.actor, #[trigger] rpath@[k]),
                forall|k: int| 1 <= k < rpath@.len() ==> #[trigger] rpath@[k] != start,
            decreases g.at(current),
        {
            let ghost prev = rpath@;
            rpath.push(current);
            assert(g.at(current) < INFINITY);
            let parent = came_from.get(current);
            assert forall|k: int| 0 <= k < rpath@.len() - 1 implies main_step(#[trigger] rpath@[k + 1], rpath@[k]) by {
                if k < prev.len() - 1 {
                    assert(rpath@[k] == prev[k]);
                    assert(rpath@[k + 1] == prev[k + 1]);
                }
            }
            assert forall|k: int| 1 <= k < rpath@.len() implies enterable(self.board@, self.actor, #[trigger] rpath@[k]) && rpath@[k] != start by {
                if k < prev.len() {
                    assert(rpath@[k] == prev[k]);
                }
            }
            current = parent;
        }
        let path = reversed(&rpath);
        assert forall|i: int| 0 <= i < path@.len() - 1 implies main_step(#[trigger] path@[i], path@[i + 1]) by {
            let n = rpath@.len() as int;
            assert(path@[i] == rpath@[n - 1 - i]);
            assert(path@[i + 1] == rpath@[n - 1 - (i + 1)]);
            assert(main_step(rpath@[(n - 1 - (i + 1)) + 1], rpath@[n - 1 - (i + 1)]));
        }
        assert forall|i: int| 0 <= i < path@.len() - 1 implies enterable(self.board@, self.actor, #[trigger] path@[i]) && path@[i] != start by {
            let n = rpath@.len() as int;
            assert(path@[i] == rpath@[n - 1 - i]);
        }
        path
    }

    /// record that `neighbour` is reached from `current` with a better score
    fn improve(
        &self,
        start: Pos,
        current: Pos,
        neighbour: Pos,
        tentative: Int,
        g: &mut PosMap<Int>,
        came_from: &mut PosMap<Pos>,
        closed: &PosSet,
    )
        requires
            self.board.wf(),
            self.search_ok(start, *old(g), *old(came_from), *closed),
            closed@.contains(current),
            main_step(current, neighbour),
            !closed@.contains(neighbour),
            enterable(self.board@, self.actor, neighbour),
            tentative == old(g).at(current) + 1,
            tentative < old(g).at(neighbour),
        ensures
            self.search_ok(start, *final(g), *final(came_from), *closed),
            final(g).at(neighbour) == tentative,
            forall|p: Pos| #[trigger] final(g).at(p) <= old(g).at(p),
            forall|p: Pos| p != neighbour ==> #[trigger] final(g).at(p) == old(g).at(p),
    {
        came_from.set(neighbour, current);
        g.set(neighbour, tentative);
        assert forall|p: Pos| #[trigger] g.at(p) < INFINITY && p != start implies {
            &&& closed@.contains(came_from.at(p))
            &&& g.at(came_from.at(p)) + 1 == g.at(p)
            &&& main_step(came_from.at(p), p)
            &&& enterable(self.board@, self.actor, p)
        } by {
            if p != neighbour {
                assert(old(g).at(p) < INFINITY);
                assert(closed@.contains(old(came_from).at(p)));
            }
        }
        assert forall|p: Pos| 0 <= #[trigger] g.at(p) <= INFINITY by {
            if p != neighbour {
                assert(0 <= old(g).at(p) <= INFINITY);
            }
        }
        assert forall|p: Pos| #[trigger] closed@.contains(p) implies g.at(p) < INFINITY by {
            if p != neighbour {
                assert(old(g).at(p) < INFINITY);
            }
        }
    }

    /// find a short path (main moves only) toward a position fulfilling
    /// the goal: with A* when there's a hint of the goal position, with
    /// Dijkstra's algorithm otherwise, which gives a shortest path. The
    /// path doesn't contain the start, but contains the goal. `None` when
    /// no path was found before the search got too wide: then no neighbour
    /// of the start fulfills the goal and either no path shorter than
    /// INFINITY leads to the goal or many positions can be reached (more
    /// than MAX_OPEN_SIZE without hint, more than a quarter of it with one).
    pub fn find(&mut self, goal: Goal, hint: Option<Pos>) -> (r: Option<Vec<Pos>>)
        requires
            old(self).board.wf(),
        ensures
            final(self).board == old(self).board,
            final(self).actor == old(self).actor,
            r matches Some(path) ==> is_path(old(self).board@, old(self).actor, goal, path@),
            r matches Some(path) ==> forall|i: int|
                0 <= i < path@.len() - 1 ==> !old(self).board@.actors.has_pos(#[trigger] path@[i]) && can_enter_spec(
                    old(self).actor.kind,
                    old(self).board@.terrain_at(path@[i]),
                ),
            hint is None ==> (r matches Some(path) ==> is_shortest_path(old(self).board@, old(self).actor, goal, path@)),
            r is None ==> no_goal_beside(old(self).board@, old(self).actor, goal),
            r is None && hint is None ==> reaches_more_than(old(self).board@, old(self).actor, MAX_OPEN_SIZE as nat)
                || no_short_path(old(self).board@, old(self).actor, goal),
            r is None && hint is Some ==> reaches_more_than(old(self).board@, old(self).actor, (MAX_OPEN_SIZE / 4) as nat)
                || no_short_path(old(self).board@, old(self).actor, goal),
            forall|j: int|
                #[trigger] first_goal_beside(old(self).board@, old(self).actor, goal, old(self).seed as int, j) ==> (r matches Some(
                    path,
                ) && path@ == seq![old(self).actor.pos.step(tried_dir(old(self).seed as int, j))]),
    {
        let r = match hint {
            Some(pos) => self.find_astar(goal, pos),
            None => self.find_dijkstra(goal),
        };
        proof {
            if r is Some {
                lemma_path_steps_free(old(self).board@, old(self).actor, goal, r->0@);
            }
        }
        r
    }

    /// find the shortest path to any position fulfilling the goal.
    /// Doesn't use any heuristic so is slower than A* but works
    /// for many goals. Based on Dijkstra's algorithm (a breadth first
    /// search, all moves costing the same).
    fn find_dijkstra(&mut self, goal: Goal) -> (r: Option<Vec<Pos>>)
        requires
            old(self).board.wf(),
        ensures
            final(self).board == old(self).board,
            final(self).actor == old(self).actor,
            r matches Some(path) ==> is_shortest_path(old(self).board@, old(self).actor, goal, path@),
            r is None ==> no_goal_beside(old(self).board@, old(self).actor, goal),
            r is None ==> reaches_more_than(old(self).board@, old(self).actor, MAX_OPEN_SIZE as nat) || no_short_path(
                old(self).board@,
                old(self).actor,
                goal,
            ),
            forall|j: int|
                #[trigger] first_goal_beside(old(self).board@, old(self).actor, goal, old(self).seed as int, j) ==> (r matches Some(
                    path,
                ) && path@ == seq![old(self).actor.pos.step(tried_dir(old(self).seed as int, j))]),
    {
        let start = self.actor.pos;
        let mut closed = PosSet::new();
        let mut came_from: PosMap<Pos> = PosMap::new(start);
        let mut g: PosMap<Int> = PosMap::new(INFINITY);
        g.set(start, 0);
        closed.insert(start);
        let mut open: VecDeque<Pos> = VecDeque::new();
        open.push_back(start);
        let mut iterations: u64 = 0;
        let ghost mut popped: Seq<Pos> = Seq::empty();
        proof {
            assert(open@ =~= seq![start]);
            assert(closed@ =~= popped.to_set().insert(start));
        }
        loop
            invariant
                self.board == old(self).board,
                self.actor == old(self).actor,
                self.board.wf(),
                start == self.actor.pos,
                self.search_ok(start, g, came_from, closed),
                forall|k: int| 0 <= k < open@.len() ==> #[trigger] g.at(open@[k]) < INFINITY,
                open@.no_duplicates(),
                popped.no_duplicates(),
                popped.len() == iterations,
                closed@ == popped.to_set().insert(start),
                iterations == 0 ==> open@ == seq![start],
                iterations > 0 ==> popped.contains(start),
                forall|k: int| 0 <= k < open@.len() ==> !popped.contains(#[trigger] open@[k]),
                forall|i: int, j: int| 0 <= i <= j < open@.len() ==> g.at(#[trigger] open@[i]) <= g.at(#[trigger] open@[j]),
                forall|j: int| 0 <= j < open@.len() ==> g.at(#[trigger] open@[j]) <= g.at(open@[0]) + 1,
                open@.len() > 0 ==> forall|c: Pos| #[trigger] closed@.contains(c) ==> g.at(c) <= g.at(open@[0]),
                forall|p: Pos| #[trigger] g.at(p) < INFINITY ==> closed@.contains(p) || open@.contains(p),
                forall|k: int, m: int|
                    0 <= k < popped.len() && 0 <= m < 4 ==> #[trigger] looked_at(self.board@, self.actor, goal, g, popped[k], m),
                iterations == 0 ==> self.seed == old(self).seed,
                iterations > 0 ==> no_goal_beside(self.board@, self.actor, goal),
            decreases u64::MAX - iterations,
        {
            if iterations == u64::MAX {
                proof {
                    assert forall|k: int| 0 <= k < popped.len() implies #[trigger] g.at(popped[k]) < INFINITY by {
                        assert(popped.contains(popped[k]));
                        assert(closed@.contains(popped[k]));
                    }
                    self.lemma_reaches_many(start, g, came_from, closed, popped, MAX_OPEN_SIZE as nat);
                    self.lemma_start_looked_around(goal, g, popped);
                    lemma_no_first_goal(self.board@, self.actor, goal, old(self).seed as int);
                }
                return None;
            }
            let ghost first = iterations == 0;
            let ghost open0 = open@;
            let current = match open.pop_front() {
                Some(c) => c,
                None => {
                    proof {
                        assert forall|p: Pos| #[trigger] g.at(p) < INFINITY implies popped.contains(p) by {
                            assert(!open@.contains(p));
                            assert(closed@.contains(p));
                        }
                        lemma_exhausted(self.board@, self.actor, goal, g, popped);
                        self.lemma_start_looked_around(goal, g, popped);
                        lemma_no_first_goal(self.board@, self.actor, goal, old(self).seed as int);
                    }
                    return None;
                },
            };
            assert(g.at(current) < INFINITY);
            proof {
                assert(open0[0] == current);
                assert(!popped.contains(current));
                assert forall|k: int| 0 <= k < open@.len() implies #[trigger] open@[k] != current by {
                    assert(open@[k] == open0[k + 1]);
                }
                if iterations == 0 {
                    assert(current == start);
                }
                let ghost old_popped = popped;
                popped.lemma_push_to_set_commute(current);
                popped = popped.push(current);
                assert(popped[popped.len() - 1] == current);
                if old_popped.contains(start) {
                    let k = choose|k: int| 0 <= k < old_popped.len() && old_popped[k] == start;
                    assert(popped[k] == start);
                }
                assert(popped.contains(start));
                assert forall|k: int| 0 <= k < popped.len() - 1 implies #[trigger] popped[k] != current by {
                    assert(popped.drop_last()[k] == popped[k]);
                    assert(popped.drop_last().contains(popped[k]));
                }
            }
            iterations += 1;
            closed.insert(current);
            proof {
                assert(closed@ =~= popped.to_set().insert(start));
                assert forall|p: Pos| #[trigger] g.at(p) < INFINITY implies closed@.contains(p) || open@.contains(p) by {
                    if open0.contains(p) && p != current {
                        let k = choose|k: int| 0 <= k < open0.len() && open0[k] == p;
                        assert(k != 0);
                        assert(open@[k - 1] == p);
                    }
                }
            }
            let ghost s: int = (self.seed % 4) as int;
            let mut i: usize = 0;
            while i < 4
                invariant
                    self.board == old(self).board,
                    self.actor == old(self).actor,
                    self.board.wf(),
                    start == self.actor.pos,
                    i <= 4,
                    s == self.seed % 4,
                    closed@.contains(current),
                    self.search_ok(start, g, came_from, closed),
                    popped.len() > 0,
                    popped.last() == current,
                    popped.no_duplicates(),
                    popped.len() == iterations,
                    closed@ == popped.to_set().insert(start),
                    popped.contains(start),
                    forall|k: int| 0 <= k < open@.len() ==> #[trigger] g.at(open@[k]) < INFINITY,
                    open@.no_duplicates(),
                    forall|k: int| 0 <= k < open@.len() ==> !popped.contains(#[trigger] open@[k]),
                    forall|i: int, j: int| 0 <= i <= j < open@.len() ==> g.at(#[trigger] open@[i]) <= g.at(#[trigger] open@[j]),
                    forall|j: int| 0 <= j < open@.len() ==> g.at(current) <= g.at(#[trigger] open@[j]) <= g.at(current) + 1,
                    forall|c: Pos| #[trigger] closed@.contains(c) ==> g.at(c) <= g.at(current),
                    forall|p: Pos| #[trigger] g.at(p) < INFINITY ==> closed@.contains(p) || open@.contains(p),
                    forall|k: int, m: int|
                        0 <= k < popped.len() - 1 && 0 <= m < 4 ==> #[trigger] looked_at(self.board@, self.actor, goal, g, popped[k], m),
                    forall|j: int| 0 <= j < i ==> #[trigger] looked_at(self.board@, self.actor, goal, g, current, (j + s) % 4),
                    first ==> current == start && self.seed == old(self).seed,
                    !first ==> no_goal_beside(self.board@, self.actor, goal),
                decreases 4 - i,
            {
                let dir = dir_at((i + self.seed % 4) % 4);
                let ghost m = (i + s) % 4;
                let ghost iold = i as int;
                i += 1;
                if !current.can_move(dir) {
                    continue;
                }
                let neighbour = current.in_dir(dir);
                if self.reached(neighbour, &goal) {
                    let path = self.rebuild_path(start, current, neighbour, &g, &came_from, &closed, Ghost(goal));
                    proof {
                        let done = popped.drop_last();
                        assert forall|p: Pos| #[trigger] g.at(p) < g.at(current) implies done.contains(p) by {
                            if open@.contains(p) {
                                let j = choose|j: int| 0 <= j < open@.len() && open@[j] == p;
                                assert(g.at(current) <= g.at(open@[j]));
                            }
                            assert(closed@.contains(p));
                            assert(p != current);
                            assert(popped.contains(p));
                            let j = choose|j: int| 0 <= j < popped.len() && popped[j] == p;
                            assert(j != popped.len() - 1);
                            assert(done[j] == p);
                        }
                        assert forall|k: int, mm: int|
                            0 <= k < done.len() && 0 <= mm < 4 implies #[trigger] looked_at(self.board@, self.actor, goal, g, done[k], mm) by {
                            assert(done[k] == popped[k]);
                        }
                        lemma_none_shorter(self.board@, self.actor, goal, g, done, g.at(current) as int);
                        if first {
                            assert(goal_beside_at(self.board@, self.actor, goal, old(self).seed as int, iold));
                            assert forall|j: int| #[trigger] first_goal_beside(self.board@, self.actor, goal, old(self).seed as int, j)
                                implies path@ == seq![self.actor.pos.step(tried_dir(old(self).seed as int, j))] by {
                                if j < iold {
                                    assert(looked_at(self.board@, self.actor, goal, g, current, (j + s) % 4));
                                }
                            }
                        } else {
                            lemma_no_first_goal(self.board@, self.actor, goal, old(self).seed as int);
                        }
                    }
                    return Some(path);
                }
                if !self.can_enter(neighbour) || closed.has_key(neighbour) {
                    continue;
                }
                let tentative = g.get(current) + 1;
                let previous = g.get(neighbour);
                if tentative < previous {
                    let ghost old_g = g;
                    let ghost old_open = open@;
                    proof {
                        if previous < INFINITY {
                            assert(old_open.contains(neighbour));
                            let k = choose|k: int| 0 <= k < old_open.len() && old_open[k] == neighbour;
                            assert(g.at(old_open[k]) <= g.at(current) + 1);
                        }
                        assert(!old_open.contains(neighbour));
                        assert(!popped.contains(neighbour));
                    }
                    self.improve(start, current, neighbour, tentative, &mut g, &mut came_from, &closed);
                    open.push_back(neighbour);
                    proof {
                        assert forall|k: int| 0 <= k < open@.len() implies #[trigger] g.at(open@[k]) < INFINITY by {
                            if k < open@.len() - 1 {
                                assert(old_g.at(open@[k]) < INFINITY);
                            }
                        }
                        assert forall|k: int| 0 <= k < old_open.len() implies #[trigger] g.at(old_open[k]) == old_g.at(old_open[k]) by {
                            assert(old_open[k] != neighbour);
                        }
                        assert forall|k: int| 0 <= k < open@.len() implies !popped.contains(#[trigger] open@[k]) by {
                            if k < open@.len() - 1 {
                                assert(open@[k] == old_open[k]);
                            }
                        }
                        assert forall|a: int, b: int| 0 <= a < b < open@.len() implies open@[a] != open@[b] by {
                            if b < open@.len() - 1 {
                                assert(open@[a] == old_open[a] && open@[b] == old_open[b]);
                            } else {
                                assert(open@[a] == old_open[a]);
                            }
                        }
                        assert forall|a: int, b: int| 0 <= a <= b < open@.len() implies g.at(#[trigger] open@[a]) <= g.at(#[trigger] open@[b]) by {
                            if b < open@.len() - 1 {
                                assert(open@[a] == old_open[a] && open@[b] == old_open[b]);
                            } else if a < open@.len() - 1 {
                                assert(open@[a] == old_open[a]);
                            }
                        }
                        assert forall|j: int| 0 <= j < open@.len() implies g.at(current) <= g.at(#[trigger] open@[j]) <= g.at(current) + 1 by {
                            if j < open@.len() - 1 {
                                assert(open@[j] == old_open[j]);
                            }
                        }
                        assert forall|c: Pos| #[trigger] closed@.contains(c) implies g.at(c) <= g.at(current) by {
                            assert(c != neighbour);
                        }
                        assert forall|p: Pos| #[trigger] g.at(p) < INFINITY implies closed@.contains(p) || open@.contains(p) by {
                            if p == neighbour {
                                assert(open@[open@.len() - 1] == neighbour);
                            } else if old_open.contains(p) {
                                let k = choose|k: int| 0 <= k < old_open.len() && old_open[k] == p;
                                assert(open@[k] == p);
                            }
                        }
                        assert forall|k: int, mm: int|
                            0 <= k < popped.len() - 1 && 0 <= mm < 4 implies #[trigger] looked_at(self.board@, self.actor, goal, g, popped[k], mm) by {
                            assert(looked_at(self.board@, self.actor, goal, old_g, popped[k], mm));
                            assert(closed@.contains(popped[k]));
                        }
                        assert forall|j: int| 0 <= j < i - 1 implies #[trigger] looked_at(self.board@, self.actor, goal, g, current, (j + s) % 4) by {
                            assert(looked_at(self.board@, self.actor, goal, old_g, current, (j + s) % 4));
                        }
                    }
                }
                proof {
                    assert(looked_at(self.board@, self.actor, goal, g, current, m));
                }
            }
            proof {
                assert forall|mm: int| 0 <= mm < 4 implies #[trigger] looked_at(self.board@, self.actor, goal, g, current, mm) by {
                    let j = lemma_rotation(s, mm);
                    assert(looked_at(self.board@, self.actor, goal, g, current, (j + s) % 4));
                }
                assert forall|k: int, mm: int|
                    0 <= k < popped.len() && 0 <= mm < 4 implies #[trigger] looked_at(self.board@, self.actor, goal, g, popped[k], mm) by {
                    if k == popped.len() - 1 {
                        assert(looked_at(self.board@, self.actor, goal, g, current, mm));
                    }
                }
            }
            proof {
                self.lemma_start_looked_around(goal, g, popped);
            }
            if open.len() > MAX_OPEN_SIZE {
                proof {
                    self.lemma_reaches_many(start, g, came_from, closed, open@, MAX_OPEN_SIZE as nat);
                    self.lemma_start_looked_around(goal, g, popped);
                    lemma_no_first_goal(self.board@, self.actor, goal, old(self).seed as int);
                }
                return None;
            }
            self.seed = (self.seed % 27 + 1) % 27;
        }
    }

    /// index of the open position with the lowest score (the first one
    /// among equals)
    fn best_index(open: &Vec<ValuedPos>) -> (k: usize)
        requires
            open@.len() > 0,
        ensures
            k < open@.len(),
            forall|j: int| 0 <= j < open@.len() ==> open@[k as int].score <= #[trigger] open@[j].score,
    {
        let mut best: usize = 0;
        let mut j: usize = 1;
        while j < open.len()
            invariant
                1 <= j <= open@.len(),
                best < j,
                forall|m: int| 0 <= m < j ==> open@[best as int].score <= #[trigger] open@[m].score,
            decreases open@.len() - j,
        {
            if open[j].score < open[best].score {
                best = j;
            }
            j += 1;
        }
        best
    }

    /// the A* score: the cost so far plus twice the distance to the hint
    fn f_score(g_score: Int, pos: Pos, hint: Pos) -> (f: i64)
        requires
            0 <= g_score <= INFINITY,
        ensures
            exists|d: int|
                #[trigger] is_isqrt(pos.dx_to(hint) * pos.dx_to(hint) + pos.dy_to(hint) * pos.dy_to(hint), d) && f == g_score + 2
                    * d,
    {
        let d = Pos::euclidian_distance(pos, hint);
        g_score as i64 + 2 * d
    }

    /// Find a short path between start and goal using A*.
    ///
    /// If the goal is different from the hinted pos, the path
    /// found may not be the absolute best one (i.e. a different
    /// goal in opposite direction of the hint can be nearer).
    ///
    /// The heuristic used here is the Euclidian distance
    /// to the hint (which may be the goal).
    fn find_astar(&mut self, goal: Goal, hint: Pos) -> (r: Option<Vec<Pos>>)
        requires
            old(self).board.wf(),
        ensures
            final(self).board == old(self).board,
            final(self).actor == old(self).actor,
            r matches Some(path) ==> is_path(old(self).board@, old(self).actor, goal, path@),
            r is None ==> no_goal_beside(old(self).board@, old(self).actor, goal),
            r is None ==> reaches_more_than(old(self).board@, old(self).actor, (MAX_OPEN_SIZE / 4) as nat) || no_short_path(
                old(self).board@,
                old(self).actor,
                goal,
            ),
            forall|j: int|
                #[trigger] first_goal_beside(old(self).board@, old(self).actor, goal, old(self).seed as int, j) ==> (r matches Some(
                    path,
                ) && path@ == seq![old(self).actor.pos.step(tried_dir(old(self).seed as int, j))]),
    {
        let start = self.actor.pos;
        let mut closed = PosSet::new();
        let mut came_from: PosMap<Pos> = PosMap::new(start);
        let mut g: PosMap<Int> = PosMap::new(INFINITY);
        g.set(start, 0);
        closed.insert(start);
        let mut open: Vec<ValuedPos> = Vec::new();
        open.push(ValuedPos::from(start, 0));
        let mut iterations: u64 = 0;
        let ghost mut popped: Seq<Pos> = Seq::empty();
        let ghost mut distinct: Seq<Pos> = Seq::empty();
        let ghost mut pushed: int = 0;
        proof {
            assert(open@ =~= seq![ValuedPos { pos: start, score: 0 }]);
            assert(closed@ =~= popped.to_set().insert(start));
            assert(open@[0].pos == start);
            assert(in_open(open@, start));
        }
        loop
            invariant
                self.board == old(self).board,
                self.actor == old(self).actor,
                self.board.wf(),
                start == self.actor.pos,
                self.search_ok(start, g, came_from, closed),
                forall|k: int| 0 <= k < open@.len() ==> #[trigger] g.at(open@[k].pos) < INFINITY,
                iterations == 0 ==> open@ == seq![ValuedPos { pos: start, score: 0 }],
                iterations > 0 ==> forall|m: int| 0 <= m < 4 ==> #[trigger] not_goal_beside(self.board@, self.actor, goal, start, m),
                closed@ == popped.to_set().insert(start),
                iterations > 0 ==> popped.contains(start),
                forall|k: int, m: int|
                    0 <= k < popped.len() && 0 <= m < 4 ==> #[trigger] astar_looked_at(self.board@, self.actor, goal, g, closed@, popped[k], m),
                forall|p: Pos| #[trigger] g.at(p) < INFINITY ==> closed@.contains(p) || in_open(open@, p),
                distinct.no_duplicates(),
                forall|p: Pos| #[trigger] distinct.contains(p) <==> popped.contains(p),
                iterations + open@.len() == pushed + 1,
                pushed <= 4 * distinct.len(),
                iterations == 0 ==> self.seed == old(self).seed,
                iterations > 0 ==> no_goal_beside(self.board@, self.actor, goal),
            decreases u64::MAX - iterations,
        {
            if iterations == u64::MAX {
                proof {
                    self.lemma_popped_reach(start, g, came_from, closed, popped, distinct);
                    lemma_no_goal_beside(self.board@, self.actor, goal);
                    lemma_no_first_goal(self.board@, self.actor, goal, old(self).seed as int);
                }
                return None;
            }
            if open.len() == 0 {
                proof {
                    self.lemma_astar_exhausted(goal, start, g, came_from, closed, popped);
                    lemma_no_goal_beside(self.board@, self.actor, goal);
                    lemma_no_first_goal(self.board@, self.actor, goal, old(self).seed as int);
                }
                return None;
            }
            let ghost first = iterations == 0;
            iterations += 1;
            let best = Self::best_index(&open);
            let ghost open0 = open@;
            let current = open.swap_remove(best).pos;
            assert(first ==> current == start);
            let ghost stale = popped.contains(current);
            let ghost distinct0 = distinct.len();
            let ghost popped_before = popped;
            let ghost closed_before = closed@;
            proof {
                assert(open@ == open0.update(best as int, open0.last()).drop_last());
                assert forall|k: int| 0 <= k < open@.len() implies #[trigger] g.at(open@[k].pos) < INFINITY by {
                    if k == best {
                        assert(open@[k] == open0[open0.len() - 1]);
                    } else {
                        assert(open@[k] == open0[k]);
                    }
                }
                assert forall|p: Pos| #[trigger] g.at(p) < INFINITY && p != current implies closed@.contains(p) || in_open(open@, p) by {
                    if !closed@.contains(p) {
                        assert(in_open(open0, p));
                        let k = choose|k: int| 0 <= k < open0.len() && #[trigger] open0[k].pos == p;
                        assert(k != best);
                        if k == open0.len() - 1 {
                            assert(open@[best as int] == open0[k]);
                            assert(in_open(open@, p));
                        } else {
                            assert(open@[k] == open0[k]);
                            assert(in_open(open@, p));
                        }
                    }
                }
                let ghost old_popped = popped;
                popped = popped.push(current);
                assert(popped[popped.len() - 1] == current);
                assert forall|p: Pos| old_popped.contains(p) implies #[trigger] popped.contains(p) by {
                    let k = choose|k: int| 0 <= k < old_popped.len() && old_popped[k] == p;
                    assert(popped[k] == p);
                }
                assert forall|p: Pos| #[trigger] popped.contains(p) implies old_popped.contains(p) || p == current by {
                    let k = choose|k: int| 0 <= k < popped.len() && popped[k] == p;
                    if k < old_popped.len() {
                        assert(old_popped[k] == p);
                    }
                }
                if !stale {
                    let ghost old_distinct = distinct;
                    distinct = distinct.push(current);
                    assert forall|a: int, b: int| 0 <= a < b < distinct.len() implies distinct[a] != distinct[b] by {
                        if b == distinct.len() - 1 {
                            assert(old_distinct.contains(distinct[a]));
                        } else {
                            assert(distinct[a] == old_distinct[a] && distinct[b] == old_distinct[b]);
                        }
                    }
                    assert forall|p: Pos| #[trigger] distinct.contains(p) <==> popped.contains(p) by {
                        if old_distinct.contains(p) {
                            let k = choose|k: int| 0 <= k < old_distinct.len() && old_distinct[k] == p;
                            assert(distinct[k] == p);
                        }
                        if distinct.contains(p) {
                            let k = choose|k: int| 0 <= k < distinct.len() && distinct[k] == p;
                            if k < old_distinct.len() {
                                assert(old_distinct[k] == p);
                            }
                        }
                        assert(distinct[distinct.len() - 1] == current);
                    }
                }
                assert(first ==> popped.contains(start));
                if stale {
                    let k = choose|k: int| 0 <= k < old_popped.len() && old_popped[k] == current;
                    assert(popped[k] == current);
                }
                if exists|k: int| 0 <= k < popped.len() - 1 && popped[k] == current {
                    let k = choose|k: int| 0 <= k < popped.len() - 1 && popped[k] == current;
                    assert(old_popped[k] == current);
                }
            }
            closed.insert(current);
            proof {
                assert(closed@ =~= popped.to_set().insert(start));
                assert(popped.contains(start));
                assert forall|k: int, m: int| 0 <= k < popped.len() - 1 && 0 <= m < 4 implies #[trigger] astar_looked_at(
                    self.board@,
                    self.actor,
                    goal,
                    g,
                    closed@,
                    popped[k],
                    m,
                ) by {
                    assert(popped[k] == popped_before[k]);
                    assert(astar_looked_at(self.board@, self.actor, goal, g, closed_before, popped_before[k], m));
                }
            }
            let ghost g0 = g;
            let ghost pushed0 = pushed;
            let ghost s: int = (self.seed % 4) as int;
            let mut i: usize = 0;
            while i < 4
                invariant
                    self.board == old(self).board,
                    self.actor == old(self).actor,
                    self.board.wf(),
                    start == self.actor.pos,
                    i <= 4,
                    s == self.seed % 4,
                    closed@.contains(current),
                    self.search_ok(start, g, came_from, closed),
                    forall|k: int| 0 <= k < open@.len() ==> #[trigger] g.at(open@[k].pos) < INFINITY,
                    iterations > 0,
                    !first ==> forall|m: int| 0 <= m < 4 ==> #[trigger] not_goal_beside(self.board@, self.actor, goal, start, m),
                    forall|j: int| 0 <= j < i ==> #[trigger] not_goal_beside(self.board@, self.actor, goal, current, (j + s) % 4),
                    popped.len() > 0,
                    popped.last() == current,
                    stale == exists|k: int| 0 <= k < popped.len() - 1 && popped[k] == current,
                    closed@ == popped.to_set().insert(start),
                    popped.contains(start),
                    forall|k: int, m: int|
                        0 <= k < popped.len() - 1 && 0 <= m < 4 ==> #[trigger] astar_looked_at(self.board@, self.actor, goal, g, closed@, popped[k], m),
                    forall|j: int| 0 <= j < i ==> #[trigger] astar_looked_at(self.board@, self.actor, goal, g, closed@, current, (j + s) % 4),
                    forall|p: Pos| #[trigger] g.at(p) < INFINITY ==> closed@.contains(p) || in_open(open@, p),
                    distinct.no_duplicates(),
                    forall|p: Pos| #[trigger] distinct.contains(p) <==> popped.contains(p),
                    iterations + open@.len() == pushed + 1,
                    pushed0 <= 4 * distinct0,
                    stale ==> distinct.len() == distinct0 && pushed == pushed0 && g == g0,
                    !stale ==> distinct.len() == distinct0 + 1 && pushed <= pushed0 + i,
                    first ==> current == start && self.seed == old(self).seed,
                    !first ==> no_goal_beside(self.board@, self.actor, goal),
                decreases 4 - i,
            {
                let dir = dir_at((i + self.seed % 4) % 4);
                let ghost m = (i + s) % 4;
                let ghost iold = i as int;
                i += 1;
                if !current.can_move(dir) {
                    continue;
                }
                let neighbour = current.in_dir(dir);
                if self.reached(neighbour, &goal) {
                    let path = self.rebuild_path(start, current, neighbour, &g, &came_from, &closed, Ghost(goal));
                    proof {
                        if first {
                            assert(goal_beside_at(self.board@, self.actor, goal, old(self).seed as int, iold));
                            assert forall|j: int| #[trigger] first_goal_beside(self.board@, self.actor, goal, old(self).seed as int, j)
                                implies path@ == seq![self.actor.pos.step(tried_dir(old(self).seed as int, j))] by {
                                if j < iold {
                                    assert(not_goal_beside(self.board@, self.actor, goal, current, (j + s) % 4));
                                }
                            }
                        } else {
                            lemma_no_first_goal(self.board@, self.actor, goal, old(self).seed as int);
                        }
                    }
                    return Some(path);
                }
                if !self.can_enter(neighbour) || closed.has_key(neighbour) {
                    continue;
                }
                let tentative = g.get(current) + 1;
                let previous = g.get(neighbour);
                if tentative < previous {
                    proof {
                        if stale {
                            let k = choose|k: int| 0 <= k < popped.len() - 1 && popped[k] == current;
                            assert(astar_looked_at(self.board@, self.actor, goal, g, closed@, popped[k], m));
                            assert(false);
                        }
                    }
                    let ghost old_g = g;
                    let ghost old_open = open@;
                    self.improve(start, current, neighbour, tentative, &mut g, &mut came_from, &closed);
                    open.push(ValuedPos::from(neighbour, Self::f_score(tentative, neighbour, hint)));
                    proof {
                        pushed = pushed + 1;
                        assert forall|k: int| 0 <= k < open@.len() implies #[trigger] g.at(open@[k].pos) < INFINITY by {
                            if k < open@.len() - 1 {
                                assert(old_g.at(open@[k].pos) < INFINITY);
                            }
                        }
                        assert forall|p: Pos| #[trigger] g.at(p) < INFINITY implies closed@.contains(p) || in_open(open@, p) by {
                            if p == neighbour {
                                assert(open@[open@.len() - 1].pos == neighbour);
                            } else if !closed@.contains(p) {
                                assert(old_g.at(p) < INFINITY);
                                let k = choose|k: int| 0 <= k < old_open.len() && #[trigger] old_open[k].pos == p;
                                assert(open@[k] == old_open[k]);
                            }
                        }
                        assert forall|k: int, mm: int| 0 <= k < popped.len() - 1 && 0 <= mm < 4 implies #[trigger] astar_looked_at(
                            self.board@,
                            self.actor,
                            goal,
                            g,
                            closed@,
                            popped[k],
                            mm,
                        ) by {
                            assert(astar_looked_at(self.board@, self.actor, goal, old_g, closed@, popped[k], mm));
                            assert(closed@.contains(popped[k]));
                        }
                        assert forall|j: int| 0 <= j < i - 1 implies #[trigger] astar_looked_at(
                            self.board@,
                            self.actor,
                            goal,
                            g,
                            closed@,
                            current,
                            (j + s) % 4,
                        ) by {
                            assert(astar_looked_at(self.board@, self.actor, goal, old_g, closed@, current, (j + s) % 4));
                        }
                    }
                }
                proof {
                    assert(astar_looked_at(self.board@, self.actor, goal, g, closed@, current, m));
                }
            }
            proof {
                if first {
                    assert forall|mm: int| 0 <= mm < 4 implies #[trigger] not_goal_beside(self.board@, self.actor, goal, start, mm) by {
                        let j = lemma_rotation(s, mm);
                        assert(not_goal_beside(self.board@, self.actor, goal, current, (j + s) % 4));
                    }
                }
                assert forall|k: int, mm: int| 0 <= k < popped.len() && 0 <= mm < 4 implies #[trigger] astar_looked_at(
                    self.board@,
                    self.actor,
                    goal,
                    g,
                    closed@,
                    popped[k],
                    mm,
                ) by {
                    if k == popped.len() - 1 {
                        let j = lemma_rotation(s, mm);
                        assert(astar_looked_at(self.board@, self.actor, goal, g, closed@, current, (j + s) % 4));
                    }
                }
            }
            proof {
                lemma_no_goal_beside(self.board@, self.actor, goal);
            }
            if open.len() > MAX_OPEN_SIZE {
                proof {
                    self.lemma_popped_reach(start, g, came_from, closed, popped, distinct);
                    lemma_no_goal_beside(self.board@, self.actor, goal);
                    lemma_no_first_goal(self.board@, self.actor, goal, old(self).seed as int);
                }
                return None;
            }
            self.seed = (self.seed % 27 + 1) % 27;
        }
    }

    /// the positions of the predecessor chain of `p`, from the start,
    /// each one's score being its rank
    proof fn lemma_chain(&self, start: Pos, g: PosMap<Int>, came_from: PosMap<Pos>, closed: PosSet, p: Pos) -> (s: Seq<Pos>)
        requires
            self.search_ok(start, g, came_from, closed),
            g.at(p) < INFINITY,
        ensures
            s.len() == g.at(p) + 1,
            forall|k: int| 0 <= k < s.len() ==> #[trigger] g.at(s[k]) == k,
        decreases g.at(p),
    {
        if p == start {
            seq![start]
        } else {
            let prev = self.lemma_chain(start, g, came_from, closed, came_from.at(p));
            let s = prev.push(p);
            assert forall|k: int| 0 <= k < s.len() implies #[trigger] g.at(s[k]) == k by {
                if k < prev.len() {
                    assert(s[k] == prev[k]);
                }
            }
            s
        }
    }

    /// positions whose scores are all different are all different
    proof fn lemma_ranked_distinct(g: PosMap<Int>, s: Seq<Pos>)
        requires
            forall|k: int| 0 <= k < s.len() ==> #[trigger] g.at(s[k]) == k,
        ensures
            s.no_duplicates(),
    {
        assert forall|a: int, b: int| 0 <= a < b < s.len() implies s[a] != s[b] by {
            assert(g.at(s[a]) == a && g.at(s[b]) == b);
        }
    }

    /// what the A* search knows when it stops without path: either many
    /// positions were looked around, or there's no path at all
    proof fn lemma_popped_reach(
        &self,
        start: Pos,
        g: PosMap<Int>,
        came_from: PosMap<Pos>,
        closed: PosSet,
        popped: Seq<Pos>,
        distinct: Seq<Pos>,
    )
        requires
            self.search_ok(start, g, came_from, closed),
            self.actor.pos == start,
            closed@ == popped.to_set().insert(start),
            distinct.no_duplicates(),
            forall|p: Pos| #[trigger] distinct.contains(p) <==> popped.contains(p),
            distinct.len() > MAX_OPEN_SIZE / 4,
        ensures
            reaches_more_than(self.board@, self.actor, (MAX_OPEN_SIZE / 4) as nat),
    {
        assert forall|k: int| 0 <= k < distinct.len() implies #[trigger] g.at(distinct[k]) < INFINITY by {
            assert(distinct.contains(distinct[k]));
            assert(closed@.contains(distinct[k]));
        }
        self.lemma_reaches_many(start, g, came_from, closed, distinct, (MAX_OPEN_SIZE / 4) as nat);
    }

    /// when the A* search has nothing left to look at, either a position
    /// was reached too far to go further, or no path leads to the goal
    proof fn lemma_astar_exhausted(
        &self,
        goal: Goal,
        start: Pos,
        g: PosMap<Int>,
        came_from: PosMap<Pos>,
        closed: PosSet,
        popped: Seq<Pos>,
    )
        requires
            self.search_ok(start, g, came_from, closed),
            self.actor.pos == start,
            closed@ == popped.to_set().insert(start),
            popped.contains(start),
            forall|k: int, m: int|
                0 <= k < popped.len() && 0 <= m < 4 ==> #[trigger] astar_looked_at(self.board@, self.actor, goal, g, closed@, popped[k], m),
            forall|p: Pos| #[trigger] g.at(p) < INFINITY ==> closed@.contains(p),
        ensures
            reaches_more_than(self.board@, self.actor, (MAX_OPEN_SIZE / 4) as nat) || no_short_path(self.board@, self.actor, goal),
    {
        if exists|p: Pos| #[trigger] g.at(p) < INFINITY && g.at(p) + 1 >= INFINITY {
            let p = choose|p: Pos| #[trigger] g.at(p) < INFINITY && g.at(p) + 1 >= INFINITY;
            let s = self.lemma_chain(start, g, came_from, closed, p);
            Self::lemma_ranked_distinct(g, s);
            assert forall|k: int| 0 <= k < s.len() implies #[trigger] g.at(s[k]) < INFINITY by {}
            self.lemma_reaches_many(start, g, came_from, closed, s, (MAX_OPEN_SIZE / 4) as nat);
        } else {
            assert forall|path: Seq<Pos>| #[trigger] is_path(self.board@, self.actor, goal, path) implies path.len() > INFINITY by {
                let n = (path.len() - 1) as nat;
                self.lemma_astar_walked(goal, start, g, came_from, closed, popped, path, n);
                let c = if n == 0 { start } else { path[n - 1] };
                let m = lemma_main_step_dir(c, path[n as int]);
                let k = choose|k: int| 0 <= k < popped.len() && popped[k] == c;
                assert(astar_looked_at(self.board@, self.actor, goal, g, closed@, popped[k], m));
            }
        }
    }

    /// along a path, when the A* search has nothing left to look at and
    /// no position is too far, the positions before the goal were looked
    /// around
    proof fn lemma_astar_walked(
        &self,
        goal: Goal,
        start: Pos,
        g: PosMap<Int>,
        came_from: PosMap<Pos>,
        closed: PosSet,
        popped: Seq<Pos>,
        path: Seq<Pos>,
        k: nat,
    )
        requires
            self.search_ok(start, g, came_from, closed),
            self.actor.pos == start,
            closed@ == popped.to_set().insert(start),
            popped.contains(start),
            forall|k: int, m: int|
                0 <= k < popped.len() && 0 <= m < 4 ==> #[trigger] astar_looked_at(self.board@, self.actor, goal, g, closed@, popped[k], m),
            forall|p: Pos| #[trigger] g.at(p) < INFINITY ==> closed@.contains(p),
            forall|p: Pos| #[trigger] g.at(p) < INFINITY ==> g.at(p) + 1 < INFINITY,
            is_path(self.board@, self.actor, goal, path),
            k < path.len(),
        ensures
            popped.contains(if k == 0 { start } else { path[k - 1] }),
        decreases k,
    {
        if k > 0 {
            self.lemma_astar_walked(goal, start, g, came_from, closed, popped, path, (k - 1) as nat);
            let prev = if k == 1 { start } else { path[k - 2] };
            let c = path[k - 1];
            if k >= 2 {
                assert(main_step(path[k - 2], path[(k - 2) + 1]));
            }
            let m = lemma_main_step_dir(prev, c);
            let j = choose|j: int| 0 <= j < popped.len() && popped[j] == prev;
            assert(astar_looked_at(self.board@, self.actor, goal, g, closed@, popped[j], m));
            assert(enterable(self.board@, self.actor, path[k - 1]));
            assert(closed@.contains(prev));
            assert(closed@.contains(c));
            if c == start {
            } else {
                assert(popped.to_set().contains(c));
            }
        }
    }
}

} // verus!
