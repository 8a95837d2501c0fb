//! Positions on the board and the eight directions of moves.

use vstd::prelude::*;

verus! {

/// the integer type of board coordinates
pub type Int = i32;

/// A position on the (unbounded) board. `y` grows downwards.
#[derive(Debug, Clone, Copy, PartialEq, Eq, Structural, Hash)]
pub struct Pos {
    pub x: Int,
    pub y: Int,
}

/// One of the 8 compass directions. The four "main" ones are
/// `Up`, `Right`, `Down` and `Left`.
#[derive(Debug, Clone, Copy, PartialEq, Eq, Structural, Hash)]
pub enum Dir {
    Up,
    UpRight,
    Right,
    RightDown,
    Down,
    DownLeft,
    Left,
    LeftUp,
}

impl Dir {
    /// horizontal component of the direction
    pub open spec fn dx(self) -> int {
        match self {
            Dir::UpRight | Dir::Right | Dir::RightDown => 1,
            Dir::DownLeft | Dir::Left | Dir::LeftUp => -1,
            _ => 0,
        }
    }

    /// vertical component of the direction
    pub open spec fn dy(self) -> int {
        match self {
            Dir::LeftUp | Dir::Up | Dir::UpRight => -1,
            Dir::RightDown | Dir::Down | Dir::DownLeft => 1,
            _ => 0,
        }
    }

    /// whether it's one of Up, Right, Down, Left
    pub open spec fn is_main(self) -> bool {
        self.dx() == 0 || self.dy() == 0
    }
}

/// the direction whose components are (dx, dy), if any
pub open spec fn dir_of(dx: int, dy: int) -> Option<Dir> {
    if dx == 0 && dy == -1 {
        Some(Dir::Up)
    } else if dx == 1 && dy == -1 {
        Some(Dir::UpRight)
    } else if dx == 1 && dy == 0 {
        Some(Dir::Right)
    } else if dx == 1 && dy == 1 {
        Some(Dir::RightDown)
    } else if dx == 0 && dy == 1 {
        Some(Dir::Down)
    } else if dx == -1 && dy == 1 {
        Some(Dir::DownLeft)
    } else if dx == -1 && dy == 0 {
        Some(Dir::Left)
    } else if dx == -1 && dy == -1 {
        Some(Dir::LeftUp)
    } else {
        None
    }
}

/// q is the neighbour of p in one of the main directions
pub open spec fn main_step(p: Pos, q: Pos) -> bool {
    ||| q.x == p.x && (q.y == p.y + 1 || q.y == p.y - 1)
    ||| q.y == p.y && (q.x == p.x + 1 || q.x == p.x - 1)
}

/// absolute value
pub open spec fn abs(v: int) -> int {
    if v < 0 { -v } else { v }
}

/// `r` is the integer square root of `n` (rounded down)
pub open spec fn is_isqrt(n: int, r: int) -> bool {
    0 <= r && r * r <= n && n < (r + 1) * (r + 1)
}

/// the main horizontal direction toward a difference dx (not 0)
pub open spec fn h_dir(dx: int) -> Dir {
    if dx > 0 { Dir::Right } else { Dir::Left }
}

/// the main vertical direction toward a difference dy (not 0)
pub open spec fn v_dir(dy: int) -> Dir {
    if dy > 0 { Dir::Down } else { Dir::Up }
}

impl Pos {
    /// difference of abscissas from self to other
    pub open spec fn dx_to(self, other: Pos) -> int {
        other.x - self.x
    }

    /// difference of ordinates from self to other
    pub open spec fn dy_to(self, other: Pos) -> int {
        other.y - self.y
    }

    /// whether the neighbour in `dir` has representable coordinates
    pub open spec fn can_step(self, dir: Dir) -> bool {
        &&& i32::MIN <= self.x + dir.dx() <= i32::MAX
        &&& i32::MIN <= self.y + dir.dy() <= i32::MAX
    }

    /// the neighbour in `dir`
    pub open spec fn step(self, dir: Dir) -> Pos {
        Pos { x: (self.x + dir.dx()) as i32, y: (self.y + dir.dy()) as i32 }
    }

    /// the main direction pointing the most toward other
    /// (vertical when both components are equal in length)
    pub open spec fn quadrant_spec(self, other: Pos) -> Dir {
        let dx = self.dx_to(other);
        let dy = self.dy_to(other);
        if abs(dx) > abs(dy) { h_dir(dx) } else { v_dir(dy) }
    }

    /// the main directions reducing the distance to other,
    /// the one of the biggest component first
    pub open spec fn quadrants_spec(self, other: Pos) -> Seq<Dir> {
        let dx = self.dx_to(other);
        let dy = self.dy_to(other);
        let h = if dx != 0 { seq![h_dir(dx)] } else { Seq::empty() };
        let v = if dy != 0 { seq![v_dir(dy)] } else { Seq::empty() };
        if abs(dx) > abs(dy) { h + v } else { v + h }
    }

    /// the compass direction (among 8) closest to the direction to other:
    /// a main direction when one component is more than twice the other,
    /// a diagonal otherwise
    pub open spec fn compass_spec(self, other: Pos) -> Dir {
        let dx = self.dx_to(other);
        let dy = self.dy_to(other);
        if abs(dx) > 2 * abs(dy) {
            h_dir(dx)
        } else if abs(dy) > 2 * abs(dx) {
            v_dir(dy)
        } else if dx >= 0 {
            if dy < 0 { Dir::UpRight } else { Dir::RightDown }
        } else {
            if dy < 0 { Dir::LeftUp } else { Dir::DownLeft }
        }
    }

    /// manhattan distance between two positions
    pub open spec fn manhattan_spec(a: Pos, b: Pos) -> int {
        abs(a.dx_to(b)) + abs(a.dy_to(b))
    }

    pub fn new(x: Int, y: Int) -> (p: Pos)
        ensures
            p.x == x,
            p.y == y,
    {
        Pos { x, y }
    }

    /// tell whether the neighbour in `dir` can be computed
    pub fn can_move(self, dir: Dir) -> (b: bool)
        ensures
            b == self.can_step(dir),
    {
        match dir {
            Dir::Up => self.y > i32::MIN,
            Dir::UpRight => self.x < i32::MAX && self.y > i32::MIN,
            Dir::Right => self.x < i32::MAX,
            Dir::RightDown => self.x < i32::MAX && self.y < i32::MAX,
            Dir::Down => self.y < i32::MAX,
            Dir::DownLeft => self.x > i32::MIN && self.y < i32::MAX,
            Dir::Left => self.x > i32::MIN,
            Dir::LeftUp => self.x > i32::MIN && self.y > i32::MIN,
        }
    }

    /// the neighbour position in the given direction
    pub fn in_dir(self, dir: Dir) -> (p: Pos)
        requires
            self.can_step(dir),
        ensures
            p == self.step(dir),
    {
        match dir {
            Dir::Up => Pos { x: self.x, y: self.y - 1 },
            Dir::UpRight => Pos { x: self.x + 1, y: self.y - 1 },
            Dir::Right => Pos { x: self.x + 1, y: self.y },
            Dir::RightDown => Pos { x: self.x + 1, y: self.y + 1 },
            Dir::Down => Pos { x: self.x, y: self.y + 1 },
            Dir::DownLeft => Pos { x: self.x - 1, y: self.y + 1 },
            Dir::Left => Pos { x: self.x - 1, y: self.y },
            Dir::LeftUp => Pos { x: self.x - 1, y: self.y - 1 },
        }
    }

    /// the direction in which other is a direct neighbour (diagonals
    /// included), or None when it's not a neighbour
    pub fn dir_to(self, other: Pos) -> (r: Option<Dir>)
        ensures
            r == dir_of(self.dx_to(other), self.dy_to(other)),
            r matches Some(d) ==> self.can_step(d) && self.step(d) == other,
    {
        let dx: i64 = other.x as i64 - self.x as i64;
        let dy: i64 = other.y as i64 - self.y as i64;
        if dx == 0 && dy == -1 {
            Some(Dir::Up)
        } else if dx == 1 && dy == -1 {
            Some(Dir::UpRight)
        } else if dx == 1 && dy == 0 {
            Some(Dir::Right)
        } else if dx == 1 && dy == 1 {
            Some(Dir::RightDown)
        } else if dx == 0 && dy == 1 {
            Some(Dir::Down)
        } else if dx == -1 && dy == 1 {
            Some(Dir::DownLeft)
        } else if dx == -1 && dy == 0 {
            Some(Dir::Left)
        } else if dx == -1 && dy == -1 {
            Some(Dir::LeftUp)
        } else {
            None
        }
    }

    /// the main direction toward other
    pub fn quadrant_to(self, other: Pos) -> (d: Dir)
        ensures
            d == self.quadrant_spec(other),
            d.is_main(),
    {
        let dx: i64 = other.x as i64 - self.x as i64;
        let dy: i64 = other.y as i64 - self.y as i64;
        let adx: i64 = if dx < 0 { -dx } else { dx };
        let ady: i64 = if dy < 0 { -dy } else { dy };
        if adx > ady {
            if dx > 0 { Dir::Right } else { Dir::Left }
        } else {
            if dy > 0 { Dir::Down } else { Dir::Up }
        }
    }

    /// the main directions which bring closer to other, the
    /// most significant one first
    pub fn quadrants_to(self, other: Pos) -> (dirs: Vec<Dir>)
        ensures
            dirs@ == self.quadrants_spec(other),
    {
        let dx: i64 = other.x as i64 - self.x as i64;
        let dy: i64 = other.y as i64 - self.y as i64;
        let adx: i64 = if dx < 0 { -dx } else { dx };
        let ady: i64 = if dy < 0 { -dy } else { dy };
        let mut dirs: Vec<Dir> = Vec::new();
        let h = if dx > 0 { Dir::Right } else { Dir::Left };
        let v = if dy > 0 { Dir::Down } else { Dir::Up };
        if adx > ady {
            if dx != 0 {
                dirs.push(h);
            }
            if dy != 0 {
                dirs.push(v);
            }
        } else {
            if dy != 0 {
                dirs.push(v);
            }
            if dx != 0 {
                dirs.push(h);
            }
        }
        assert(dirs@ == self.quadrants_spec(other));
        dirs
    }

    /// the compass direction (one of 8) toward other
    pub fn compass_to(self, other: Pos) -> (d: Dir)
        ensures
            d == self.compass_spec(other),
    {
        let dx: i64 = other.x as i64 - self.x as i64;
        let dy: i64 = other.y as i64 - self.y as i64;
        let adx: i64 = if dx < 0 { -dx } else { dx };
        let ady: i64 = if dy < 0 { -dy } else { dy };
        if adx > 2 * ady {
            if dx > 0 { Dir::Right } else { Dir::Left }
        } else if ady > 2 * adx {
            if dy > 0 { Dir::Down } else { Dir::Up }
        } else if dx >= 0 {
            if dy < 0 { Dir::UpRight } else { Dir::RightDown }
        } else {
            if dy < 0 { Dir::LeftUp } else { Dir::DownLeft }
        }
    }

    /// the distance in number of main moves
    pub fn manhattan_distance(a: Pos, b: Pos) -> (d: i64)
        ensures
            d == Pos::manhattan_spec(a, b),
    {
        let dx: i64 = b.x as i64 - a.x as i64;
        let dy: i64 = b.y as i64 - a.y as i64;
        let adx: i64 = if dx < 0 { -dx } else { dx };
        let ady: i64 = if dy < 0 { -dy } else { dy };
        adx + ady
    }

    /// the euclidian distance, rounded down
    pub fn euclidian_distance(a: Pos, b: Pos) -> (d: i64)
        ensures
            is_isqrt(a.dx_to(b) * a.dx_to(b) + a.dy_to(b) * a.dy_to(b), d as int),
            0 <= d <= 0x2_0000_0000,
    {
        let dx: i128 = b.x as i128 - a.x as i128;
        let dy: i128 = b.y as i128 - a.y as i128;
        assert(dx * dx <= 0x1_0000_0000 * 0x1_0000_0000) by (nonlinear_arith)
            requires
                -0x1_0000_0000 <= dx <= 0x1_0000_0000,
        ;
        assert(dy * dy <= 0x1_0000_0000 * 0x1_0000_0000) by (nonlinear_arith)
            requires
                -0x1_0000_0000 <= dy <= 0x1_0000_0000,
        ;
        assert(0 <= dx * dx && 0 <= dy * dy) by (nonlinear_arith);
        let sq: u128 = (dx * dx + dy * dy) as u128;
        let r = isqrt(sq);
        r as i64
    }
}

/// integer square root (rounded down) by dichotomy
fn isqrt(n: u128) -> (r: u64)
    requires
        n <= 0x2_0000_0000_0000_0000,
    ensures
        is_isqrt(n as int, r as int),
        r <= 0x2_0000_0000,
{
    let mut lo: u128 = 0;
    let mut hi: u128 = 0x2_0000_0001;
    assert(n < hi * hi);
    while hi - lo > 1
        invariant
            lo < hi <= 0x2_0000_0001,
            lo * lo <= n,
            n < hi * hi,
        decreases hi - lo,
    {
        let mid: u128 = lo + (hi - lo) / 2;
        assert(mid * mid <= 0x2_0000_0001 * 0x2_0000_0001) by (nonlinear_arith)
            requires
                mid <= 0x2_0000_0001,
        ;
        if mid * mid <= n {
            lo = mid;
        } else {
            hi = mid;
        }
    }
    assert(lo <= 0x2_0000_0000) by (nonlinear_arith)
        requires
            lo * lo <= n,
            n <= 0x2_0000_0000_0000_0000,
            lo < hi <= 0x2_0000_0001,
    ;
    lo as u64
}

/// A rectangular area of the board: the positions with
/// `left <= x < right` and `top <= y < bottom`.
#[derive(Debug, Clone, Copy, PartialEq, Eq, Structural)]
pub struct PosArea {
    pub left: Int,
    pub right: Int,
    pub top: Int,
    pub bottom: Int,
}

impl PosArea {
    pub open spec fn contains_spec(self, pos: Pos) -> bool {
        self.left <= pos.x < self.right && self.top <= pos.y < self.bottom
    }

    /// the area covering the x range and the y range
    pub fn new(x: core::ops::Range<Int>, y: core::ops::Range<Int>) -> (a: PosArea)
        ensures
            a.left == x.start,
            a.right == x.end,
            a.top == y.start,
            a.bottom == y.end,
    {
        PosArea { left: x.start, right: x.end, top: y.start, bottom: y.end }
    }

    /// an area containing no position
    pub fn empty() -> (a: PosArea)
        ensures
            a == (PosArea { left: 0, right: 0, top: 0, bottom: 0 }),
            forall|p: Pos| !a.contains_spec(p),
    {
        PosArea { left: 0, right: 0, top: 0, bottom: 0 }
    }

    pub fn contains(&self, pos: Pos) -> (b: bool)
        ensures
            b == self.contains_spec(pos),
    {
        self.left <= pos.x && pos.x < self.right && self.top <= pos.y && pos.y < self.bottom
    }
}

/// A value located on the board
#[derive(Debug, Clone, Copy)]
pub struct Located<V> {
    pub pos: Pos,
    pub v: V,
}

} // verus!
