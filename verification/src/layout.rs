//! Screen positions and the division of the screen into areas.

use vstd::prelude::*;
use crate::pos::Pos;

verus! {

/// a rectangular part of the screen
#[derive(Debug, Clone, Copy, PartialEq, Eq, Structural)]
pub struct Area {
    pub left: u16,
    pub top: u16,
    pub width: u16,
    pub height: u16,
}

impl Area {
    pub fn new(left: u16, top: u16, width: u16, height: u16) -> (a: Area)
        ensures
            a == (Area { left, top, width, height }),
    {
        Area { left, top, width, height }
    }
}

/// a position on the screen
#[derive(Debug, Clone, Copy, PartialEq, Eq, Structural)]
pub struct ScreenPos {
    pub x: u16,
    pub y: u16,
}

impl ScreenPos {
    pub open spec fn in_area(self, area: Area) -> bool {
        &&& area.left <= self.x < area.left + area.width
        &&& area.top <= self.y < area.top + area.height
    }

    pub fn new(x: u16, y: u16) -> (sp: ScreenPos)
        ensures
            sp == (ScreenPos { x, y }),
    {
        ScreenPos { x, y }
    }

    /// whether the position is inside the area
    pub fn is_in(&self, area: &Area) -> (b: bool)
        ensures
            b == self.in_area(*area),
    {
        let x = self.x as u32;
        let y = self.y as u32;
        area.left as u32 <= x && x < area.left as u32 + area.width as u32 && area.top as u32 <= y && y < area.top as u32
            + area.height as u32
    }
}

/// all the areas, some of which empty depending on the current app
/// state, and other elements of positioning depending on the screen
/// dimensions.
#[derive(Debug, Clone, Copy, PartialEq, Eq, Structural)]
pub struct Areas {
    pub header: Area,
    pub board: Area,
    /// the ink selection panel
    pub pen_panel: Area,
    pub help: Area,
    pub status: Area,
    /// 0 or 1
    pub ink_margin: u16,
}

/// the rules defining the precise areas for an app state
#[derive(Debug, Clone, Copy, PartialEq, Eq, Structural)]
pub struct Layout {
    pub header_height: u16,
    pub pen_panel_height: u16,
    pub status_height: u16,
}

impl Layout {
    /// the container is high enough for the fixed height areas
    pub open spec fn fits(self, con: Area) -> bool {
        &&& self.header_height + self.pen_panel_height + self.status_height <= con.height
        &&& con.top + con.height <= u16::MAX
    }

    /// the areas in the container: header at the top, then the board,
    /// the pen panel and the status at the bottom. The help takes all
    /// but the status.
    pub open spec fn areas(self, con: Area) -> Areas {
        let status_top = (con.top + con.height - self.status_height) as u16;
        let pen_panel_width = con.width;
        Areas {
            header: Area { left: con.left, top: con.top, width: con.width, height: self.header_height },
            board: Area {
                left: con.left,
                top: (con.top + self.header_height) as u16,
                width: con.width,
                height: (con.height - (self.header_height + self.pen_panel_height + self.status_height)) as u16,
            },
            pen_panel: Area {
                left: con.left,
                top: (status_top - self.pen_panel_height) as u16,
                width: con.width,
                height: self.pen_panel_height,
            },
            help: Area {
                left: con.left,
                top: con.top,
                width: con.width,
                height: (con.height - self.status_height) as u16,
            },
            status: Area { left: con.left, top: status_top, width: con.width, height: self.status_height },
            ink_margin: if pen_panel_width > 85 { 1 } else { 0 },
        }
    }

    /// compute the areas in the container, which should usually be
    /// the whole screen. The container must be high enough.
    pub fn compute(self, con: &Area) -> (areas: Areas)
        requires
            self.fits(*con),
        ensures
            areas == self.areas(*con),
    {
        let header = Area::new(con.left, con.top, con.width, self.header_height);
        let status = Area::new(con.left, con.top + con.height - self.status_height, con.width, self.status_height);
        let pen_panel = Area::new(con.left, status.top - self.pen_panel_height, con.width, self.pen_panel_height);
        let ink_margin = if pen_panel.width > 85 {
            1
        } else {
            0
        };
        let board = Area::new(
            con.left,
            con.top + self.header_height,
            con.width,
            con.height - (self.header_height + self.pen_panel_height + self.status_height),
        );
        let help = Area::new(con.left, con.top, con.width, con.height - self.status_height);
        Areas { header, board, pen_panel, help, status, ink_margin }
    }
}

/// the layout of the level editor
pub fn editor_layout() -> (l: Layout)
    ensures
        l == (Layout { header_height: 3, pen_panel_height: 3, status_height: 1 }),
{
    Layout { header_height: 3, pen_panel_height: 3, status_height: 1 }
}

/// the layout of the screens with only a main area and a status line
pub fn simple_layout() -> (l: Layout)
    ensures
        l == (Layout { header_height: 0, pen_panel_height: 0, status_height: 1 }),
{
    Layout { header_height: 0, pen_panel_height: 0, status_height: 1 }
}

/// converts between positions on the board and positions on the
/// screen, the center position being shown at the middle of the area
#[derive(Debug, Clone, Copy, PartialEq, Eq, Structural)]
pub struct PosConverter {
    pub center: Pos,
    pub area: Area,
}

impl PosConverter {
    /// the abscissa on screen of the center
    pub open spec fn origin_x(self) -> int {
        self.area.left + self.area.width / 2
    }

    /// the ordinate on screen of the center
    pub open spec fn origin_y(self) -> int {
        self.area.top + self.area.height / 2
    }

    /// where a position is shown, in the area or not
    pub open spec fn screen_x(self, pos: Pos) -> int {
        self.origin_x() + pos.x - self.center.x
    }

    pub open spec fn screen_y(self, pos: Pos) -> int {
        self.origin_y() + pos.y - self.center.y
    }

    /// the position shown at a place of the screen
    pub open spec fn real_spec(self, sp: ScreenPos) -> Pos {
        Pos {
            x: (self.center.x + sp.x - self.origin_x()) as i32,
            y: (self.center.y + sp.y - self.origin_y()) as i32,
        }
    }

    /// the position shown at the place of the screen is representable
    pub open spec fn real_fits(self, sp: ScreenPos) -> bool {
        &&& i32::MIN <= self.center.x + sp.x - self.origin_x() <= i32::MAX
        &&& i32::MIN <= self.center.y + sp.y - self.origin_y() <= i32::MAX
    }

    /// a converter showing `center` at the middle of the area
    pub fn from(center: Pos, area: Area) -> (pc: PosConverter)
        ensures
            pc == (PosConverter { center, area }),
    {
        PosConverter { center, area }
    }

    /// the place of the screen where the position is shown, if it's
    /// in the area
    pub fn to_screen(&self, pos: Pos) -> (r: Option<ScreenPos>)
        requires
            self.area.left + self.area.width <= u16::MAX + 1,
            self.area.top + self.area.height <= u16::MAX + 1,
        ensures
            match r {
                Some(sp) => {
                    &&& sp.in_area(self.area)
                    &&& sp.x == self.screen_x(pos)
                    &&& sp.y == self.screen_y(pos)
                },
                None => !(self.area.left <= self.screen_x(pos) < self.area.left + self.area.width
                    && self.area.top <= self.screen_y(pos) < self.area.top + self.area.height),
            },
    {
        let ox: i64 = self.area.left as i64 + (self.area.width / 2) as i64;
        let oy: i64 = self.area.top as i64 + (self.area.height / 2) as i64;
        let x: i64 = ox + pos.x as i64 - self.center.x as i64;
        let y: i64 = oy + pos.y as i64 - self.center.y as i64;
        if (self.area.left as i64) <= x && x < (self.area.left as i64) + (self.area.width as i64)
            && (self.area.top as i64) <= y && y < (self.area.top as i64) + (self.area.height as i64) {
            Some(ScreenPos { x: x as u16, y: y as u16 })
        } else {
            None
        }
    }

    /// the position shown at a place of the screen
    pub fn to_real(&self, sp: ScreenPos) -> (p: Pos)
        requires
            self.real_fits(sp),
        ensures
            p == self.real_spec(sp),
    {
        let ox: i64 = self.area.left as i64 + (self.area.width / 2) as i64;
        let oy: i64 = self.area.top as i64 + (self.area.height / 2) as i64;
        let x: i64 = self.center.x as i64 + sp.x as i64 - ox;
        let y: i64 = self.center.y as i64 + sp.y as i64 - oy;
        Pos { x: x as i32, y: y as i32 }
    }
}

/// The position shown at a place of the board area is shown there.
pub proof fn lemma_screen_real_round_trip(pc: PosConverter, sp: ScreenPos)
    requires
        pc.real_fits(sp),
    ensures
        pc.screen_x(pc.real_spec(sp)) == sp.x,
        pc.screen_y(pc.real_spec(sp)) == sp.y,
{
}

/// where a click on the level editor's screen lands
#[derive(Debug, Clone, Copy, PartialEq, Eq, Structural)]
pub enum EditorClick {
    /// on the first line of the name field, in the header
    Name,
    /// elsewhere in the header
    Header,
    /// on the board, showing that position
    Board(Pos),
    /// on the board, where no representable position is shown
    OffBoard,
    /// on the pen panel
    PenPanel,
    /// nowhere a click does something
    Nowhere,
}

/// the first line of an area
pub open spec fn first_line(a: Area) -> Area {
    Area { height: 1, ..a }
}

/// where a click at `sp` lands, the board showing `center` at its middle
pub open spec fn editor_click_spec(areas: Areas, name_area: Area, center: Pos, sp: ScreenPos) -> EditorClick {
    if sp.in_area(areas.header) {
        if sp.in_area(first_line(name_area)) {
            EditorClick::Name
        } else {
            EditorClick::Header
        }
    } else if sp.in_area(areas.board) {
        let pc = PosConverter { center, area: areas.board };
        if pc.real_fits(sp) {
            EditorClick::Board(pc.real_spec(sp))
        } else {
            EditorClick::OffBoard
        }
    } else if sp.in_area(areas.pen_panel) {
        EditorClick::PenPanel
    } else {
        EditorClick::Nowhere
    }
}

/// where a click at `sp` lands: the header (its name field or not) first,
/// then the board, then the pen panel
pub fn route_editor_click(areas: &Areas, name_area: &Area, center: Pos, sp: ScreenPos) -> (c: EditorClick)
    ensures
        c == editor_click_spec(*areas, *name_area, center, sp),
{
    if sp.is_in(&areas.header) {
        let line = Area { height: 1, ..*name_area };
        if sp.is_in(&line) {
            EditorClick::Name
        } else {
            EditorClick::Header
        }
    } else if sp.is_in(&areas.board) {
        let pc = PosConverter::from(center, areas.board);
        let ox: i64 = areas.board.left as i64 + (areas.board.width / 2) as i64;
        let oy: i64 = areas.board.top as i64 + (areas.board.height / 2) as i64;
        let x: i64 = center.x as i64 + sp.x as i64 - ox;
        let y: i64 = center.y as i64 + sp.y as i64 - oy;
        if x < i32::MIN as i64 || x > i32::MAX as i64 || y < i32::MIN as i64 || y > i32::MAX as i64 {
            EditorClick::OffBoard
        } else {
            EditorClick::Board(pc.to_real(sp))
        }
    } else if sp.is_in(&areas.pen_panel) {
        EditorClick::PenPanel
    } else {
        EditorClick::Nowhere
    }
}

} // verus!
