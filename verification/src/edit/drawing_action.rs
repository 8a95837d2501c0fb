//! The drawing actions of the level editor, which may be kept in a
//! history for replay from a saved board state.

use vstd::prelude::*;
use crate::actor::{Actor, ActorKind};
use crate::actor_map::ActorMapModel;
use crate::board::{one_lapin_first, Board, BoardModel};
use crate::edit::ink::Ink;
use crate::item::Item;
use crate::pos::{abs, Dir, Pos};
use crate::terrain::Terrain;

verus! {

/// an action which may be kept in a stack
/// for redoing from a saved board state
#[derive(Debug, Clone, Copy, PartialEq, Eq, Structural)]
pub enum DrawingAction {
    DotInk(Ink, Pos),
    LineInk(Ink, Pos, Pos),
    /// a line in one of the 8 compass directions
    CompassLineInk(Ink, Pos, Pos),
    RectInk(Ink, Pos, Pos),
    DefaultTerrain(Terrain),
}

/// the actor map after removal of the actor referenced at pos, if any
pub open spec fn actors_without_at(b: BoardModel, pos: Pos) -> crate::actor_map::ActorMapModel {
    if b.actors.refs.contains_key(pos) {
        b.actors.without(b.actors.refs[pos])
    } else {
        b.actors
    }
}

/// the board after a drop of ink at pos. There's only one lapin, which
/// is moved by the lapin ink (replacing the actor which was there) and
/// never erased nor replaced, and at most one living actor per position.
pub open spec fn inked(b: BoardModel, ink: Ink, pos: Pos) -> BoardModel {
    match ink {
        Ink::EraseTerrain => BoardModel { terrains: b.terrains.remove(pos), ..b },
        Ink::Terrain(t) => BoardModel { terrains: b.terrains.insert(pos, t), ..b },
        Ink::EraseItem => BoardModel { items: b.items.remove(pos), ..b },
        Ink::Item(k) => BoardModel { items: b.items.insert(pos, Some(Item { kind: k })), ..b },
        Ink::EraseActor => BoardModel { actors: actors_without_at(b, pos), ..b },
        Ink::Actor(kind) => {
            if kind == ActorKind::Lapin {
                BoardModel { actors: actors_without_at(b, pos).with_lapin_at(pos), ..b }
            } else if pos == b.lapin().pos {
                b
            } else {
                let actors = actors_without_at(b, pos);
                if !actors.has_pos(pos) && actors.actors.len() + 1 < usize::MAX {
                    BoardModel { actors: actors.with_added(Actor::new_spec(kind, pos)), ..b }
                } else {
                    BoardModel { actors, ..b }
                }
            }
        },
    }
}

/// the board after drops of ink at all the positions, in order
pub open spec fn ink_seq(b: BoardModel, ink: Ink, pts: Seq<Pos>) -> BoardModel
    decreases pts.len(),
{
    if pts.len() == 0 {
        b
    } else {
        inked(ink_seq(b, ink, pts.drop_last()), ink, pts.last())
    }
}

/// apply a drop of ink at some pos of the board.
fn ink_pos(ink: Ink, pos: Pos, board: &mut Board)
    requires
        old(board).wf(),
    ensures
        final(board).wf(),
        final(board)@ == inked(old(board)@, ink, pos),
{
    match ink {
        Ink::EraseTerrain => {
            board.terrains.unset(pos);
        },
        Ink::Terrain(terrain) => {
            board.terrains.set(pos, terrain);
        },
        Ink::EraseItem => {
            board.items.remove(pos);
        },
        Ink::Item(item_kind) => {
            board.add_item_in(item_kind, pos.x, pos.y);
        },
        Ink::EraseActor => {
            board.actors.remove_by_pos(pos);
        },
        Ink::Actor(actor_kind) => {
            if actor_kind == ActorKind::Lapin {
                // we're moving THE lapin, in place of the actor which was there
                board.actors.remove_by_pos(pos);
                board.actors.move_lapin_to(pos);
                return;
            }
            // we check we're not removing the lapin
            if pos == board.lapin_pos() {
                return;
            }
            // we must now ensure any previous actor in pos is removed
            board.actors.remove_by_pos(pos);
            // and now we add the new actor
            let _added = board.add_actor_in(actor_kind, pos.x, pos.y);
        },
    }
}

/// apply drops of ink at the positions, in order
fn ink_points(ink: Ink, pts: &Vec<Pos>, board: &mut Board)
    requires
        old(board).wf(),
    ensures
        final(board).wf(),
        final(board)@ == ink_seq(old(board)@, ink, pts@),
{
    let mut k: usize = 0;
    while k < pts.len()
        invariant
            board.wf(),
            k <= pts@.len(),
            board@ == ink_seq(old(board)@, ink, pts@.take(k as int)),
        decreases pts@.len() - k,
    {
        ink_pos(ink, pts[k], board);
        assert(pts@.take(k + 1).drop_last() =~= pts@.take(k as int));
        k += 1;
    }
    assert(pts@.take(k as int) =~= pts@);
}

/// the positions of the line from (x, y) to (xf, yf) by Bresenham's
/// algorithm (error e, steps dx >= 0 and dy <= 0 in absolute value,
/// signs sx and sy), at most fuel steps
pub open spec fn bresenham(
    x: int,
    y: int,
    xf: int,
    yf: int,
    e: int,
    dx: int,
    dy: int,
    sx: int,
    sy: int,
    fuel: nat,
) -> Seq<Pos>
    decreases fuel,
{
    let p = Pos { x: x as i32, y: y as i32 };
    if fuel == 0 || (x == xf && y == yf) {
        seq![p]
    } else {
        let e2 = 2 * e;
        let nx = if e2 >= dy { x + sx } else { x };
        let ne = if e2 >= dy { e + dy } else { e };
        let ny = if e2 <= dx { y + sy } else { y };
        let ne2 = if e2 <= dx { ne + dx } else { ne };
        seq![p] + bresenham(nx, ny, xf, yf, ne2, dx, dy, sx, sy, (fuel - 1) as nat)
    }
}

/// the positions of the line between a and b, based on Bresenham's algorithm
pub open spec fn line_points(a: Pos, b: Pos) -> Seq<Pos> {
    let dx = abs(b.x - a.x);
    let dy = -abs(b.y - a.y);
    let sx = if a.x < b.x { 1int } else { -1int };
    let sy = if a.y < b.y { 1int } else { -1int };
    bresenham(a.x as int, a.y as int, b.x as int, b.y as int, dx + dy, dx, dy, sx, sy, (dx - dy) as nat)
}

/// q follows p by a king move (diagonals included) going from a toward b
pub open spec fn king_step_toward(p: Pos, q: Pos, a: Pos, b: Pos) -> bool {
    &&& abs(q.x - p.x) <= 1
    &&& abs(q.y - p.y) <= 1
    &&& (q.x != p.x || q.y != p.y)
    &&& (a.x <= b.x ==> p.x <= q.x)
    &&& (a.x > b.x ==> p.x >= q.x)
    &&& (a.y <= b.y ==> p.y <= q.y)
    &&& (a.y > b.y ==> p.y >= q.y)
}

/// the positions of the line between a and b (Bresenham's algorithm):
/// from a to b, by king moves toward b
pub fn line(a: Pos, b: Pos) -> (pts: Vec<Pos>)
    ensures
        pts@ == line_points(a, b),
        pts@.len() >= 1,
        pts@[0] == a,
        pts@.last() == b,
        forall|k: int| 0 <= k < pts@.len() - 1 ==> king_step_toward(#[trigger] pts@[k], pts@[k + 1], a, b),
{
    let x0: i64 = a.x as i64;
    let y0: i64 = a.y as i64;
    let xf: i64 = b.x as i64;
    let yf: i64 = b.y as i64;
    let ax: i64 = if xf >= x0 { xf - x0 } else { x0 - xf };
    let ay: i64 = if yf >= y0 { yf - y0 } else { y0 - yf };
    let dx: i128 = ax as i128;
    let dy: i128 = -(ay as i128);
    let sx: i64 = if x0 < xf { 1 } else { -1 };
    let sy: i64 = if y0 < yf { 1 } else { -1 };
    let mut x: i64 = x0;
    let mut y: i64 = y0;
    let mut e: i128 = dx + dy;
    let ghost mut i: int = 0;
    let ghost mut j: int = 0;
    let ghost mut fuel: nat = (ax + ay) as nat;
    let mut pts: Vec<Pos> = Vec::new();
    while !(x == xf && y == yf)
        invariant
            0 <= ax <= 0x1_0000_0000,
            0 <= ay <= 0x1_0000_0000,
            ax == abs(b.x - a.x),
            ay == abs(b.y - a.y),
            dx == ax,
            dy == -ay,
            x0 == a.x,
            y0 == a.y,
            xf == b.x,
            yf == b.y,
            sx == (if x0 < xf { 1int } else { -1int }),
            sy == (if y0 < yf { 1int } else { -1int }),
            0 <= i <= ax,
            0 <= j <= ay,
            x == (if x0 < xf { x0 + i } else { x0 - i }),
            y == (if y0 < yf { y0 + j } else { y0 - j }),
            e == ax - ay + j * ax - i * ay,
            fuel >= (ax - i) + (ay - j),
            pts@ + bresenham(x as int, y as int, xf as int, yf as int, e as int, dx as int, dy as int, sx as int, sy as int, fuel)
                == line_points(a, b),
            pts@.len() == 0 ==> x == x0 && y == y0,
            pts@.len() > 0 ==> pts@[0] == a,
            pts@.len() > 0 ==> king_step_toward(pts@.last(), Pos { x: x as i32, y: y as i32 }, a, b),
            forall|k: int| 0 <= k < pts@.len() - 1 ==> king_step_toward(#[trigger] pts@[k], pts@[k + 1], a, b),
        decreases (ax - i) + (ay - j),
    {
        proof {
            if i == ax && j < ay {
                assert(ax * (j + 1 - ay) <= 0) by (nonlinear_arith)
                    requires
                        ax >= 0,
                        j + 1 - ay <= 0,
                ;
                assert(j * ax - i * ay == ax * (j + 1 - ay) - ax) by (nonlinear_arith)
                    requires
                        i == ax,
                ;
            }
            if j == ay && i < ax {
                assert(ay * (ax - i) >= ay) by (nonlinear_arith)
                    requires
                        ay >= 0,
                        ax - i >= 1,
                ;
                assert(j * ax - i * ay == ay * (ax - i)) by (nonlinear_arith)
                    requires
                        j == ay,
                ;
            }
            assert(i * ay <= 0x1_0000_0000 * 0x1_0000_0000) by (nonlinear_arith)
                requires
                    0 <= i <= 0x1_0000_0000,
                    0 <= ay <= 0x1_0000_0000,
            ;
            assert(j * ax <= 0x1_0000_0000 * 0x1_0000_0000) by (nonlinear_arith)
                requires
                    0 <= j <= 0x1_0000_0000,
                    0 <= ax <= 0x1_0000_0000,
            ;
            assert(0 <= i * ay && 0 <= j * ax) by (nonlinear_arith)
                requires
                    0 <= i,
                    0 <= j,
                    0 <= ax,
                    0 <= ay,
            ;
        }
        let ghost prev = pts@;
        let p = Pos { x: x as i32, y: y as i32 };
        pts.push(p);
        let e2: i128 = 2 * e;
        let ghost old_x = x;
        let ghost old_y = y;
        if e2 >= dy {
            e = e + dy;
            x = x + sx;
            proof {
                assert((i + 1) * ay == i * ay + ay) by (nonlinear_arith);
                i = i + 1;
            }
        }
        if e2 <= dx {
            e = e + dx;
            y = y + sy;
            proof {
                assert((j + 1) * ax == j * ax + ax) by (nonlinear_arith);
                j = j + 1;
            }
        }
        proof {
            fuel = (fuel - 1) as nat;
            assert(pts@ =~= prev.push(p));
            assert forall|k: int| 0 <= k < pts@.len() - 1 implies king_step_toward(#[trigger] pts@[k], pts@[k + 1], a, b) by {
                if k < prev.len() - 1 {
                    assert(pts@[k] == prev[k]);
                    assert(pts@[k + 1] == prev[k + 1]);
                }
            }
        }
    }
    let last = Pos { x: x as i32, y: y as i32 };
    pts.push(last);
    pts
}

/// the positions drawn by a compass line from a toward b: a line in
/// the compass direction of b, of the length of the main component of
/// the move (for diagonals, the horizontal one)
pub open spec fn compass_points(a: Pos, b: Pos) -> Seq<Pos> {
    match a.compass_spec(b) {
        Dir::Up => Seq::new((a.y - b.y + 1) as nat, |k: int| Pos { x: a.x, y: (b.y + k) as i32 }),
        Dir::UpRight => Seq::new((b.x - a.x + 1) as nat, |k: int| Pos { x: (a.x + k) as i32, y: (a.y - k) as i32 }),
        Dir::Right => Seq::new((b.x - a.x + 1) as nat, |k: int| Pos { x: (a.x + k) as i32, y: a.y }),
        Dir::RightDown => Seq::new((b.x - a.x + 1) as nat, |k: int| Pos { x: (a.x + k) as i32, y: (a.y + k) as i32 }),
        Dir::Down => Seq::new((b.y - a.y + 1) as nat, |k: int| Pos { x: a.x, y: (a.y + k) as i32 }),
        Dir::DownLeft => Seq::new((a.x - b.x + 1) as nat, |k: int| Pos { x: (a.x - k) as i32, y: (a.y + k) as i32 }),
        Dir::Left => Seq::new((a.x - b.x + 1) as nat, |k: int| Pos { x: (b.x + k) as i32, y: a.y }),
        Dir::LeftUp => Seq::new((a.x - b.x + 1) as nat, |k: int| Pos { x: (a.x - k) as i32, y: (a.y - k) as i32 }),
    }
}

/// the compass line from a toward b stays in representable positions
/// (only a diagonal one may leave them, its length being given by the
/// abscissas)
pub open spec fn compass_fits(a: Pos, b: Pos) -> bool {
    match a.compass_spec(b) {
        Dir::UpRight | Dir::LeftUp => i32::MIN <= a.y - abs(b.x - a.x),
        Dir::RightDown | Dir::DownLeft => a.y + abs(b.x - a.x) <= i32::MAX,
        _ => true,
    }
}

/// the positions of the compass line from a toward b
fn compass_line(a: Pos, b: Pos) -> (pts: Vec<Pos>)
    requires
        compass_fits(a, b),
    ensures
        pts@ == compass_points(a, b),
{
    let dir = a.compass_to(b);
    let ax: i64 = a.x as i64;
    let ay: i64 = a.y as i64;
    let bx: i64 = b.x as i64;
    let by: i64 = b.y as i64;
    let n: i64 = match dir {
        Dir::Up => ay - by + 1,
        Dir::Down => by - ay + 1,
        Dir::UpRight | Dir::Right | Dir::RightDown => bx - ax + 1,
        _ => ax - bx + 1,
    };
    let ghost pts_spec = compass_points(a, b);
    assert(pts_spec.len() == n);
    let mut pts: Vec<Pos> = Vec::new();
    let mut k: i64 = 0;
    while k < n
        invariant
            0 <= k <= n,
            pts_spec == compass_points(a, b),
            pts_spec.len() == n,
            dir == a.compass_spec(b),
            compass_fits(a, b),
            ax == a.x,
            ay == a.y,
            bx == b.x,
            by == b.y,
            pts@ == pts_spec.take(k as int),
        decreases n - k,
    {
        let p = match dir {
            Dir::Up => Pos { x: a.x, y: (by + k) as i32 },
            Dir::UpRight => Pos { x: (ax + k) as i32, y: (ay - k) as i32 },
            Dir::Right => Pos { x: (ax + k) as i32, y: a.y },
            Dir::RightDown => Pos { x: (ax + k) as i32, y: (ay + k) as i32 },
            Dir::Down => Pos { x: a.x, y: (ay + k) as i32 },
            Dir::DownLeft => Pos { x: (ax - k) as i32, y: (ay + k) as i32 },
            Dir::Left => Pos { x: (bx + k) as i32, y: a.y },
            Dir::LeftUp => Pos { x: (ax - k) as i32, y: (ay - k) as i32 },
        };
        assert(p == pts_spec[k as int]);
        pts.push(p);
        assert(pts@ =~= pts_spec.take(k + 1));
        k += 1;
    }
    assert(pts_spec.take(n as int) =~= pts_spec);
    pts
}

/// the positions of a column of n positions, from (x, y0) downwards
pub open spec fn column(x: int, y0: int, n: nat) -> Seq<Pos> {
    Seq::new(n, |k: int| Pos { x: x as i32, y: (y0 + k) as i32 })
}

/// the positions of the nx columns of ny positions from (x0, y0), column by column
pub open spec fn rect_columns(x0: int, nx: nat, y0: int, ny: nat) -> Seq<Pos>
    decreases nx,
{
    if nx == 0 {
        Seq::empty()
    } else {
        rect_columns(x0, (nx - 1) as nat, y0, ny) + column(x0 + nx - 1, y0, ny)
    }
}

/// the positions of the rectangle with corners a and b, column by column
pub open spec fn rect_points(a: Pos, b: Pos) -> Seq<Pos> {
    let x0 = if a.x <= b.x { a.x as int } else { b.x as int };
    let x1 = if a.x <= b.x { b.x as int } else { a.x as int };
    let y0 = if a.y <= b.y { a.y as int } else { b.y as int };
    let y1 = if a.y <= b.y { b.y as int } else { a.y as int };
    rect_columns(x0, (x1 - x0 + 1) as nat, y0, (y1 - y0 + 1) as nat)
}

/// the positions of the rectangle with corners a and b
fn rect(a: Pos, b: Pos) -> (pts: Vec<Pos>)
    ensures
        pts@ == rect_points(a, b),
{
    let x0: i64 = if a.x <= b.x { a.x as i64 } else { b.x as i64 };
    let x1: i64 = if a.x <= b.x { b.x as i64 } else { a.x as i64 };
    let y0: i64 = if a.y <= b.y { a.y as i64 } else { b.y as i64 };
    let y1: i64 = if a.y <= b.y { b.y as i64 } else { a.y as i64 };
    let ghost ny: nat = (y1 - y0 + 1) as nat;
    let mut pts: Vec<Pos> = Vec::new();
    let mut x: i64 = x0;
    while x <= x1
        invariant
            x0 <= x <= x1 + 1,
            i32::MIN <= x0 <= x1 <= i32::MAX,
            i32::MIN <= y0 <= y1 <= i32::MAX,
            ny == y1 - y0 + 1,
            pts@ == rect_columns(x0 as int, (x - x0) as nat, y0 as int, ny),
        decreases x1 + 1 - x,
    {
        let ghost before = pts@;
        let mut y: i64 = y0;
        while y <= y1
            invariant
                x0 <= x <= x1,
                y0 <= y <= y1 + 1,
                i32::MIN <= x0 <= x1 <= i32::MAX,
                i32::MIN <= y0 <= y1 <= i32::MAX,
                ny == y1 - y0 + 1,
                pts@ == before + column(x as int, y0 as int, (y - y0) as nat),
            decreases y1 + 1 - y,
        {
            pts.push(Pos { x: x as i32, y: y as i32 });
            assert(pts@ =~= before + column(x as int, y0 as int, (y + 1 - y0) as nat));
            y += 1;
        }
        assert(pts@ =~= rect_columns(x0 as int, (x + 1 - x0) as nat, y0 as int, ny));
        x += 1;
    }
    pts
}

impl DrawingAction {
    /// whether the action can be applied (diagonal compass lines
    /// must stay in representable positions)
    pub open spec fn fits(self) -> bool {
        match self {
            DrawingAction::CompassLineInk(_, a, b) => compass_fits(a, b),
            _ => true,
        }
    }

    /// the board after the action
    pub open spec fn applied(self, b: BoardModel) -> BoardModel {
        match self {
            DrawingAction::DotInk(ink, pos) => inked(b, ink, pos),
            DrawingAction::LineInk(ink, p, q) => ink_seq(b, ink, line_points(p, q)),
            DrawingAction::CompassLineInk(ink, p, q) => ink_seq(b, ink, compass_points(p, q)),
            DrawingAction::RectInk(ink, p, q) => ink_seq(b, ink, rect_points(p, q)),
            DrawingAction::DefaultTerrain(t) => BoardModel { default_terrain: t, ..b },
        }
    }

    /// whether the action can be applied (see `fits`)
    pub fn can_be_applied(&self) -> (b: bool)
        ensures
            b == self.fits(),
    {
        match self {
            DrawingAction::CompassLineInk(_, a, b) => {
                let dx: i64 = (b.x as i64) - (a.x as i64);
                let adx: i64 = if dx < 0 { -dx } else { dx };
                match a.compass_to(*b) {
                    Dir::UpRight | Dir::LeftUp => (i32::MIN as i64) <= (a.y as i64) - adx,
                    Dir::RightDown | Dir::DownLeft => (a.y as i64) + adx <= (i32::MAX as i64),
                    _ => true,
                }
            },
            _ => true,
        }
    }

    /// draw on the board
    pub fn apply_to(&self, board: &mut Board)
        requires
            old(board).wf(),
            self.fits(),
        ensures
            final(board).wf(),
            final(board)@ == self.applied(old(board)@),
    {
        match self {
            DrawingAction::DotInk(ink, pos) => {
                ink_pos(*ink, *pos, board);
            },
            DrawingAction::LineInk(ink, a, b) => {
                let pts = line(*a, *b);
                ink_points(*ink, &pts, board);
            },
            DrawingAction::CompassLineInk(ink, a, b) => {
                let pts = compass_line(*a, *b);
                ink_points(*ink, &pts, board);
            },
            DrawingAction::RectInk(ink, a, b) => {
                let pts = rect(*a, *b);
                ink_points(*ink, &pts, board);
            },
            DrawingAction::DefaultTerrain(terrain) => {
                board.terrains.set_default(*terrain);
            },
        }
    }
}

proof fn lemma_with_added_keeps(m: ActorMapModel, a: Actor)
    requires
        m.sound(),
        one_lapin_first(m.actors),
        m.actors.len() + 1 < usize::MAX,
        a.kind != ActorKind::Lapin,
    ensures
        m.with_added(a).sound(),
        one_lapin_first(m.with_added(a).actors),
{
    let r = m.with_added(a);
    assert forall|p: Pos| #[trigger] r.refs.contains_key(p) implies {
        &&& r.refs[p] < r.actors.len()
        &&& r.actors[r.refs[p] as int].pos == p
    } by {
        if p != a.pos {
            assert(m.refs.contains_key(p));
        }
    }
    assert forall|i: int| 1 <= i < r.actors.len() implies (#[trigger] r.actors[i]).kind != ActorKind::Lapin by {
        if i < m.actors.len() {
            assert(r.actors[i] == m.actors[i]);
        }
    }
}

proof fn lemma_with_lapin_at_keeps(m: ActorMapModel, dest: Pos)
    requires
        m.sound(),
        one_lapin_first(m.actors),
    ensures
        m.with_lapin_at(dest).sound(),
        one_lapin_first(m.with_lapin_at(dest).actors),
{
    let r = m.with_lapin_at(dest);
    assert forall|p: Pos| #[trigger] r.refs.contains_key(p) implies {
        &&& r.refs[p] < r.actors.len()
        &&& r.actors[r.refs[p] as int].pos == p
    } by {
        if p != dest {
            assert(m.refs.contains_key(p));
            assert(p != m.actors[0].pos);
            assert(m.refs[p] != 0);
        }
    }
    assert forall|i: int| 1 <= i < r.actors.len() implies (#[trigger] r.actors[i]).kind != ActorKind::Lapin by {
        assert(r.actors[i] == m.actors[i]);
    }
}

proof fn lemma_without_keeps(m: ActorMapModel, id: usize)
    requires
        m.sound(),
        one_lapin_first(m.actors),
        id < m.actors.len(),
    ensures
        m.without(id).sound(),
        one_lapin_first(m.without(id).actors),
{
    if id != 0 {
        let r = m.without(id);
        let last = m.actors.len() - 1;
        assert forall|p: Pos| #[trigger] r.refs.contains_key(p) implies {
            &&& r.refs[p] < r.actors.len()
            &&& r.actors[r.refs[p] as int].pos == p
        } by {
            if id == last {
                assert(m.refs.contains_key(p));
                assert(p != m.actors[id as int].pos);
                assert(m.refs[p] != id);
            } else if p != m.actors[last].pos {
                assert(m.refs.contains_key(p));
                assert(p != m.actors[id as int].pos);
                assert(m.refs[p] != id);
                assert(m.refs[p] != last);
                assert(r.actors[m.refs[p] as int] == m.actors[m.refs[p] as int]);
            }
        }
        assert forall|i: int| 1 <= i < r.actors.len() implies (#[trigger] r.actors[i]).kind != ActorKind::Lapin by {
            if i != id {
                assert(r.actors[i] == m.actors[i]);
            } else {
                assert(r.actors[i] == m.actors[last]);
            }
        }
    }
}

proof fn lemma_inked_keeps(b: BoardModel, ink: Ink, pos: Pos)
    requires
        b.actors.sound(),
        one_lapin_first(b.actors.actors),
    ensures
        inked(b, ink, pos).actors.sound(),
        one_lapin_first(inked(b, ink, pos).actors.actors),
{
    if b.actors.refs.contains_key(pos) {
        lemma_without_keeps(b.actors, b.actors.refs[pos]);
    }
    match ink {
        Ink::Actor(kind) => {
            if kind == ActorKind::Lapin {
                lemma_with_lapin_at_keeps(actors_without_at(b, pos), pos);
            } else if pos != b.lapin().pos {
                let actors = actors_without_at(b, pos);
                if !actors.has_pos(pos) && actors.actors.len() + 1 < usize::MAX {
                    lemma_with_added_keeps(actors, Actor::new_spec(kind, pos));
                }
            }
        },
        _ => {},
    }
}

proof fn lemma_ink_seq_keeps(b: BoardModel, ink: Ink, pts: Seq<Pos>)
    requires
        b.actors.sound(),
        one_lapin_first(b.actors.actors),
    ensures
        ink_seq(b, ink, pts).actors.sound(),
        one_lapin_first(ink_seq(b, ink, pts).actors.actors),
    decreases pts.len(),
{
    if pts.len() > 0 {
        lemma_ink_seq_keeps(b, ink, pts.drop_last());
        lemma_inked_keeps(ink_seq(b, ink, pts.drop_last()), ink, pts.last());
    }
}

/// A drawing action keeps only one lapin, the first actor, and keeps
/// every actor reference to an actor standing there.
pub proof fn lemma_drawing_keeps_one_lapin(action: DrawingAction, b: BoardModel)
    requires
        b.actors.sound(),
        one_lapin_first(b.actors.actors),
    ensures
        action.applied(b).actors.sound(),
        one_lapin_first(action.applied(b).actors.actors),
{
    match action {
        DrawingAction::DotInk(ink, pos) => lemma_inked_keeps(b, ink, pos),
        DrawingAction::LineInk(ink, p, q) => lemma_ink_seq_keeps(b, ink, line_points(p, q)),
        DrawingAction::CompassLineInk(ink, p, q) => lemma_ink_seq_keeps(b, ink, compass_points(p, q)),
        DrawingAction::RectInk(ink, p, q) => lemma_ink_seq_keeps(b, ink, rect_points(p, q)),
        DrawingAction::DefaultTerrain(_) => {},
    }
}

/// each actor is alive, alone at its position and referenced there
pub open spec fn actors_apart(m: ActorMapModel) -> bool {
    forall|i: int|
        0 <= i < m.actors.len() ==> {
            &&& !(#[trigger] m.actors[i]).state.dead
            &&& m.refs.contains_key(m.actors[i].pos)
            &&& m.refs[m.actors[i].pos] == i
        }
}

/// no actor but the lapin stands at the position
pub open spec fn free_for_lapin(m: ActorMapModel, p: Pos) -> bool {
    forall|i: int| 1 <= i < m.actors.len() ==> (#[trigger] m.actors[i]).pos != p
}

proof fn lemma_with_added_apart(m: ActorMapModel, a: Actor)
    requires
        m.sound(),
        actors_apart(m),
        !m.has_pos(a.pos),
        !a.state.dead,
    ensures
        actors_apart(m.with_added(a)),
{
    let r = m.with_added(a);
    assert forall|i: int| 0 <= i < r.actors.len() implies {
        &&& !(#[trigger] r.actors[i]).state.dead
        &&& r.refs.contains_key(r.actors[i].pos)
        &&& r.refs[r.actors[i].pos] == i
    } by {
        if i < m.actors.len() {
            assert(r.actors[i] == m.actors[i]);
            assert(!m.actors[i].state.dead);
            assert(m.actors[i].pos != a.pos);
        }
    }
}

proof fn lemma_without_apart(m: ActorMapModel, id: usize)
    requires
        m.sound(),
        actors_apart(m),
        id < m.actors.len(),
    ensures
        actors_apart(m.without(id)),
{
    if id != 0 {
        let r = m.without(id);
        let last = m.actors.len() - 1;
        assert(m.refs[m.actors[id as int].pos] == id);
        assert forall|i: int| 0 <= i < r.actors.len() implies {
            &&& !(#[trigger] r.actors[i]).state.dead
            &&& r.refs.contains_key(r.actors[i].pos)
            &&& r.refs[r.actors[i].pos] == i
        } by {
            if i == id {
                assert(r.actors[i] == m.actors[last]);
                assert(m.refs[m.actors[last].pos] == last);
            } else {
                assert(r.actors[i] == m.actors[i]);
                assert(m.refs[m.actors[i].pos] == i);
                assert(m.actors[i].pos != m.actors[id as int].pos);
                if id < last {
                    assert(m.refs[m.actors[last].pos] == last);
                    assert(m.actors[i].pos != m.actors[last].pos);
                }
            }
        }
    }
}

proof fn lemma_with_lapin_at_apart(m: ActorMapModel, dest: Pos)
    requires
        m.sound(),
        actors_apart(m),
        m.actors.len() >= 1,
        free_for_lapin(m, dest),
    ensures
        actors_apart(m.with_lapin_at(dest)),
{
    let r = m.with_lapin_at(dest);
    assert(m.refs[m.actors[0].pos] == 0);
    assert forall|i: int| 0 <= i < r.actors.len() implies {
        &&& !(#[trigger] r.actors[i]).state.dead
        &&& r.refs.contains_key(r.actors[i].pos)
        &&& r.refs[r.actors[i].pos] == i
    } by {
        if i != 0 {
            assert(r.actors[i] == m.actors[i]);
            assert(m.refs[m.actors[i].pos] == i);
            assert(m.actors[i].pos != m.actors[0].pos);
        }
    }
}

/// once the actor referenced at a position is removed, no actor but
/// the lapin stands there
proof fn lemma_without_at_frees(b: BoardModel, pos: Pos)
    requires
        b.actors.sound(),
        actors_apart(b.actors),
    ensures
        free_for_lapin(actors_without_at(b, pos), pos),
{
    let m = b.actors;
    let r = actors_without_at(b, pos);
    assert forall|i: int| 1 <= i < r.actors.len() implies (#[trigger] r.actors[i]).pos != pos by {
        if m.refs.contains_key(pos) {
            let id = m.refs[pos];
            let last = m.actors.len() - 1;
            if id == 0 {
                assert(m.refs[m.actors[i].pos] == i);
            } else if i == id {
                assert(r.actors[i] == m.actors[last]);
                assert(m.refs[m.actors[last].pos] == last);
            } else {
                assert(r.actors[i] == m.actors[i]);
                assert(m.refs[m.actors[i].pos] == i);
            }
        } else {
            assert(m.refs.contains_key(m.actors[i].pos));
        }
    }
}

proof fn lemma_inked_apart(b: BoardModel, ink: Ink, pos: Pos)
    requires
        b.actors.sound(),
        one_lapin_first(b.actors.actors),
        actors_apart(b.actors),
    ensures
        actors_apart(inked(b, ink, pos).actors),
{
    if b.actors.refs.contains_key(pos) {
        lemma_without_apart(b.actors, b.actors.refs[pos]);
        lemma_without_keeps(b.actors, b.actors.refs[pos]);
    }
    match ink {
        Ink::Actor(kind) => {
            if kind == ActorKind::Lapin {
                lemma_without_at_frees(b, pos);
                lemma_with_lapin_at_apart(actors_without_at(b, pos), pos);
            } else if pos != b.lapin().pos {
                let actors = actors_without_at(b, pos);
                if !actors.has_pos(pos) && actors.actors.len() + 1 < usize::MAX {
                    lemma_with_added_apart(actors, Actor::new_spec(kind, pos));
                }
            }
        },
        _ => {},
    }
}

proof fn lemma_ink_seq_apart(b: BoardModel, ink: Ink, pts: Seq<Pos>)
    requires
        b.actors.sound(),
        one_lapin_first(b.actors.actors),
        actors_apart(b.actors),
    ensures
        actors_apart(ink_seq(b, ink, pts).actors),
    decreases pts.len(),
{
    if pts.len() > 0 {
        let init = pts.drop_last();
        lemma_ink_seq_apart(b, ink, init);
        lemma_ink_seq_keeps(b, ink, init);
        lemma_inked_apart(ink_seq(b, ink, init), ink, pts.last());
    }
}

/// A drawing action keeps each actor alive, alone at its position and
/// referenced there.
pub proof fn lemma_drawing_keeps_actors_apart(action: DrawingAction, b: BoardModel)
    requires
        b.actors.sound(),
        one_lapin_first(b.actors.actors),
        actors_apart(b.actors),
    ensures
        actors_apart(action.applied(b).actors),
{
    match action {
        DrawingAction::DotInk(ink, pos) => lemma_inked_apart(b, ink, pos),
        DrawingAction::LineInk(ink, p, q) => lemma_ink_seq_apart(b, ink, line_points(p, q)),
        DrawingAction::CompassLineInk(ink, p, q) => lemma_ink_seq_apart(b, ink, compass_points(p, q)),
        DrawingAction::RectInk(ink, p, q) => lemma_ink_seq_apart(b, ink, rect_points(p, q)),
        DrawingAction::DefaultTerrain(_) => {},
    }
}

/// the position lies in the rectangle with corners a and b
pub open spec fn in_rect(a: Pos, b: Pos, p: Pos) -> bool {
    &&& (if a.x <= b.x { a.x <= p.x <= b.x } else { b.x <= p.x <= a.x })
    &&& (if a.y <= b.y { a.y <= p.y <= b.y } else { b.y <= p.y <= a.y })
}

proof fn lemma_column_contains(x: int, y0: int, n: nat, p: Pos)
    requires
        i32::MIN <= x <= i32::MAX,
        i32::MIN <= y0,
        y0 + n - 1 <= i32::MAX,
    ensures
        column(x, y0, n).contains(p) <==> (p.x == x && y0 <= p.y < y0 + n),
{
    let c = column(x, y0, n);
    if p.x == x && y0 <= p.y < y0 + n {
        let k = p.y - y0;
        assert(c[k] == p);
    }
}

proof fn lemma_rect_columns_contains(x0: int, nx: nat, y0: int, ny: nat, p: Pos)
    requires
        i32::MIN <= x0,
        x0 + nx - 1 <= i32::MAX,
        i32::MIN <= y0,
        y0 + ny - 1 <= i32::MAX,
    ensures
        rect_columns(x0, nx, y0, ny).contains(p) <==> (x0 <= p.x < x0 + nx && y0 <= p.y < y0 + ny),
    decreases nx,
{
    if nx > 0 {
        let prev = rect_columns(x0, (nx - 1) as nat, y0, ny);
        let col = column(x0 + nx - 1, y0, ny);
        lemma_rect_columns_contains(x0, (nx - 1) as nat, y0, ny, p);
        lemma_column_contains(x0 + nx - 1, y0, ny, p);
        let r = prev + col;
        if r.contains(p) {
            let k = choose|k: int| 0 <= k < r.len() && r[k] == p;
            if k < prev.len() {
                assert(prev[k] == p);
            } else {
                assert(col[k - prev.len()] == p);
            }
        }
        if prev.contains(p) {
            let k = choose|k: int| 0 <= k < prev.len() && prev[k] == p;
            assert(r[k] == p);
        }
        if col.contains(p) {
            let k = choose|k: int| 0 <= k < col.len() && col[k] == p;
            assert(r[prev.len() + k] == p);
        }
    }
}

/// drops of terrain ink set the terrain of the positions and change
/// nothing else
proof fn lemma_terrain_ink_seq(b: BoardModel, t: Terrain, pts: Seq<Pos>)
    ensures
        ink_seq(b, Ink::Terrain(t), pts) == (BoardModel { terrains: ink_seq(b, Ink::Terrain(t), pts).terrains, ..b }),
        forall|p: Pos|
            #[trigger] ink_seq(b, Ink::Terrain(t), pts).terrain_at(p) == (if pts.contains(p) {
                t
            } else {
                b.terrain_at(p)
            }),
    decreases pts.len(),
{
    if pts.len() > 0 {
        let init = pts.drop_last();
        lemma_terrain_ink_seq(b, t, init);
        assert forall|p: Pos| #[trigger] ink_seq(b, Ink::Terrain(t), pts).terrain_at(p) == (if pts.contains(p) {
            t
        } else {
            b.terrain_at(p)
        }) by {
            assert(ink_seq(b, Ink::Terrain(t), init).terrain_at(p) == (if init.contains(p) { t } else { b.terrain_at(p) }));
            if p != pts.last() {
                if pts.contains(p) {
                    let k = choose|k: int| 0 <= k < pts.len() && pts[k] == p;
                    assert(init[k] == p);
                }
                if init.contains(p) {
                    let k = choose|k: int| 0 <= k < init.len() && init[k] == p;
                    assert(pts[k] == p);
                }
            } else {
                assert(pts[pts.len() - 1] == p);
            }
        }
    }
}

/// A rectangle of ink is the same whatever the order of its corners, and
/// a rectangle of terrain ink paints exactly the positions between the
/// corners, changing nothing else.
pub proof fn lemma_rect_ink(ink: Ink, a: Pos, c: Pos, b: BoardModel)
    ensures
        DrawingAction::RectInk(ink, a, c).applied(b) == DrawingAction::RectInk(ink, c, a).applied(b),
        ink matches Ink::Terrain(t) ==> {
            let after = DrawingAction::RectInk(ink, a, c).applied(b);
            &&& after == (BoardModel { terrains: after.terrains, ..b })
            &&& forall|p: Pos| #[trigger] after.terrain_at(p) == (if in_rect(a, c, p) { t } else { b.terrain_at(p) })
        },
{
    assert(rect_points(a, c) == rect_points(c, a));
    if let Ink::Terrain(t) = ink {
        let x0 = if a.x <= c.x { a.x as int } else { c.x as int };
        let x1 = if a.x <= c.x { c.x as int } else { a.x as int };
        let y0 = if a.y <= c.y { a.y as int } else { c.y as int };
        let y1 = if a.y <= c.y { c.y as int } else { a.y as int };
        lemma_terrain_ink_seq(b, t, rect_points(a, c));
        assert forall|p: Pos| rect_points(a, c).contains(p) <==> #[trigger] in_rect(a, c, p) by {
            lemma_rect_columns_contains(x0, (x1 - x0 + 1) as nat, y0, (y1 - y0 + 1) as nat, p);
        }
    }
}

/// no two actors stand at the same position
pub open spec fn positions_distinct(m: ActorMapModel) -> bool {
    forall|i: int, j: int| 0 <= i < j < m.actors.len() ==> (#[trigger] m.actors[i]).pos != (#[trigger] m.actors[j]).pos
}

/// an actor standing at the position is referenced there
pub open spec fn referenced_at(m: ActorMapModel, p: Pos) -> bool {
    forall|i: int| 0 <= i < m.actors.len() && (#[trigger] m.actors[i]).pos == p ==> m.refs.contains_key(p)
}

proof fn lemma_without_distinct(m: ActorMapModel, id: usize)
    requires
        m.sound(),
        positions_distinct(m),
        id < m.actors.len(),
    ensures
        positions_distinct(m.without(id)),
{
    if id != 0 {
        let r = m.without(id);
        let last = m.actors.len() - 1;
        assert forall|i: int, j: int| 0 <= i < j < r.actors.len() implies (#[trigger] r.actors[i]).pos != (#[trigger] r.actors[j]).pos by {
            let i2 = if i == id { last } else { i };
            let j2 = if j == id { last } else { j };
            assert(r.actors[i] == m.actors[i2] && r.actors[j] == m.actors[j2]);
            if i2 < j2 {
                assert(m.actors[i2].pos != m.actors[j2].pos);
            } else {
                assert(m.actors[j2].pos != m.actors[i2].pos);
            }
        }
    }
}

/// once the actor referenced at a position is removed, only the lapin
/// may stand there
proof fn lemma_without_at_distinct(b: BoardModel, pos: Pos)
    requires
        b.actors.sound(),
        positions_distinct(b.actors),
        referenced_at(b.actors, pos),
    ensures
        free_for_lapin(actors_without_at(b, pos), pos),
        positions_distinct(actors_without_at(b, pos)),
        actors_without_at(b, pos).actors[0] == b.actors.actors[0],
{
    let m = b.actors;
    let r = actors_without_at(b, pos);
    if m.refs.contains_key(pos) {
        lemma_without_distinct(m, m.refs[pos]);
    }
    assert forall|i: int| 1 <= i < r.actors.len() implies (#[trigger] r.actors[i]).pos != pos by {
        if m.refs.contains_key(pos) {
            let id = m.refs[pos];
            let last = m.actors.len() - 1;
            assert(m.actors[id as int].pos == pos);
            if id == 0 {
                assert(m.actors[0].pos != m.actors[i].pos);
            } else if i == id {
                assert(r.actors[i] == m.actors[last]);
                assert(m.actors[id as int].pos != m.actors[last].pos);
            } else {
                assert(r.actors[i] == m.actors[i]);
                if i < id {
                    assert(m.actors[i].pos != m.actors[id as int].pos);
                } else {
                    assert(m.actors[id as int].pos != m.actors[i].pos);
                }
            }
        } else {
            if m.actors[i].pos == pos {
                assert(referenced_at(m, pos));
            }
        }
    }
}

/// A drop of actor ink keeps a single lapin, the first actor, and no two
/// actors at the same position: the lapin ink moves the lapin to the
/// position, replacing the actor which was there; another actor ink puts
/// an actor of that kind there, replacing the one which was there, unless
/// the lapin is there, in which case nothing changes. This holds whatever
/// the actors' states, provided the actor at the position, if any, is
/// referenced there.
pub proof fn lemma_actor_ink(b: BoardModel, k: ActorKind, p: Pos)
    requires
        b.actors.sound(),
        one_lapin_first(b.actors.actors),
        positions_distinct(b.actors),
        referenced_at(b.actors, p),
    ensures
        ({
            let after = DrawingAction::DotInk(Ink::Actor(k), p).applied(b);
            &&& after == (BoardModel { actors: after.actors, ..b })
            &&& after.actors.sound()
            &&& one_lapin_first(after.actors.actors)
            &&& positions_distinct(after.actors)
            &&& k == ActorKind::Lapin ==> after.lapin().pos == p
            &&& k != ActorKind::Lapin && p != b.lapin().pos && b.actors.actors.len() + 1 < usize::MAX ==> (after.actors.by_pos(
                p,
            ) matches Some(a) && a.kind == k)
            &&& k != ActorKind::Lapin && p == b.lapin().pos ==> after == b
        }),
{
    let m1 = actors_without_at(b, p);
    if b.actors.refs.contains_key(p) {
        lemma_without_keeps(b.actors, b.actors.refs[p]);
    }
    lemma_without_at_distinct(b, p);
    if k == ActorKind::Lapin {
        lemma_with_lapin_at_keeps(m1, p);
        let r = m1.with_lapin_at(p);
        assert forall|i: int, j: int| 0 <= i < j < r.actors.len() implies (#[trigger] r.actors[i]).pos != (#[trigger] r.actors[j]).pos by {
            assert(r.actors[j] == m1.actors[j]);
            if i > 0 {
                assert(r.actors[i] == m1.actors[i]);
            }
        }
    } else if p != b.lapin().pos {
        assert forall|i: int| 0 <= i < m1.actors.len() implies (#[trigger] m1.actors[i]).pos != p by {
            if i > 0 {
                assert(free_for_lapin(m1, p));
            }
        }
        if m1.refs.contains_key(p) {
            assert(m1.actors[m1.refs[p] as int].pos == p);
        }
        assert(!m1.has_pos(p));
        if m1.actors.len() + 1 < usize::MAX {
            let a = Actor::new_spec(k, p);
            lemma_with_added_keeps(m1, a);
            let r = m1.with_added(a);
            assert forall|i: int, j: int| 0 <= i < j < r.actors.len() implies (#[trigger] r.actors[i]).pos != (#[trigger] r.actors[j]).pos by {
                assert(r.actors[i] == m1.actors[i]);
                if j < m1.actors.len() {
                    assert(r.actors[j] == m1.actors[j]);
                }
            }
        }
    }
}

/// the position is on the compass line drawn from a toward b: on the
/// vertical or horizontal through a, between a and the ordinate or the
/// abscissa of b, or on the diagonal from a, between the abscissas of a
/// and b
pub open spec fn on_compass_line(a: Pos, b: Pos, p: Pos) -> bool {
    match a.compass_spec(b) {
        Dir::Up => p.x == a.x && b.y <= p.y <= a.y,
        Dir::Down => p.x == a.x && a.y <= p.y <= b.y,
        Dir::Right => p.y == a.y && a.x <= p.x <= b.x,
        Dir::Left => p.y == a.y && b.x <= p.x <= a.x,
        Dir::UpRight => a.x <= p.x <= b.x && p.y == a.y - (p.x - a.x),
        Dir::RightDown => a.x <= p.x <= b.x && p.y == a.y + (p.x - a.x),
        Dir::DownLeft => b.x <= p.x <= a.x && p.y == a.y + (a.x - p.x),
        Dir::LeftUp => b.x <= p.x <= a.x && p.y == a.y - (a.x - p.x),
    }
}

/// A compass line goes from its first point toward its second one: it
/// draws exactly the positions of the line from a in the compass
/// direction of b, up to the ordinate of b for a vertical line and up to
/// its abscissa otherwise; a is drawn, and each position once.
pub proof fn lemma_compass_line(a: Pos, b: Pos)
    requires
        compass_fits(a, b),
    ensures
        forall|p: Pos| compass_points(a, b).contains(p) <==> #[trigger] on_compass_line(a, b, p),
        compass_points(a, b).contains(a),
        compass_points(a, b).no_duplicates(),
        a.compass_spec(b) == Dir::Up ==> b.y <= a.y,
        a.compass_spec(b) == Dir::Down ==> a.y <= b.y,
        a.compass_spec(b) == Dir::Left || a.compass_spec(b) == Dir::DownLeft || a.compass_spec(b) == Dir::LeftUp
            ==> b.x <= a.x,
        a.compass_spec(b) == Dir::Right || a.compass_spec(b) == Dir::UpRight || a.compass_spec(b) == Dir::RightDown
            ==> a.x <= b.x,
{
    let pts = compass_points(a, b);
    let d = a.compass_spec(b);
    assert forall|p: Pos| pts.contains(p) <==> #[trigger] on_compass_line(a, b, p) by {
        if pts.contains(p) {
            let k = choose|k: int| 0 <= k < pts.len() && pts[k] == p;
            assert(pts[k] == p);
        }
        if on_compass_line(a, b, p) {
            let k: int = match d {
                Dir::Up => p.y - b.y,
                Dir::Down => p.y - a.y,
                Dir::Right => p.x - a.x,
                Dir::Left => p.x - b.x,
                Dir::UpRight => p.x - a.x,
                Dir::RightDown => p.x - a.x,
                Dir::DownLeft => a.x - p.x,
                Dir::LeftUp => a.x - p.x,
            };
            assert(pts[k] == p);
        }
    }
    assert(on_compass_line(a, b, a));
    assert forall|i: int, j: int| 0 <= i < j < pts.len() implies pts[i] != pts[j] by {
        assert(pts[i] != pts[j]);
    }
}

/// A compass line of terrain ink paints exactly the positions of the line
/// from its first point toward its second one, changing nothing else.
pub proof fn lemma_compass_terrain_ink(t: Terrain, a: Pos, c: Pos, b: BoardModel)
    requires
        compass_fits(a, c),
    ensures
        ({
            let after = DrawingAction::CompassLineInk(Ink::Terrain(t), a, c).applied(b);
            &&& after == (BoardModel { terrains: after.terrains, ..b })
            &&& forall|p: Pos| #[trigger] after.terrain_at(p) == (if on_compass_line(a, c, p) { t } else { b.terrain_at(p) })
        }),
{
    lemma_compass_line(a, c);
    lemma_terrain_ink_seq(b, t, compass_points(a, c));
}

} // verus!
