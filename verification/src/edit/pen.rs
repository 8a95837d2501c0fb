//! The pen of the level editor: what a click on the board draws.

use vstd::prelude::*;
use crate::edit::drawing_action::DrawingAction;
use crate::edit::ink::Ink;
use crate::level::Level;
use crate::pos::Pos;
use crate::terrain::Terrain;

verus! {

#[derive(Debug, Clone, Copy, PartialEq, Eq, Structural)]
pub enum PenShape {
    Dot,
    Line,
    Rect,
}

/// all the pen shapes
pub open spec fn pen_shapes_spec() -> Seq<PenShape> {
    seq![PenShape::Dot, PenShape::Line, PenShape::Rect]
}

/// all the pen shapes
pub fn pen_shapes() -> (v: Vec<PenShape>)
    ensures
        v@ == pen_shapes_spec(),
{
    vec![PenShape::Dot, PenShape::Line, PenShape::Rect]
}

pub open spec fn line_help() -> Seq<char> {
    "Click again to draw a line - with the *ctrl* key down to force compass directions"@
}

pub open spec fn rect_help() -> Seq<char> {
    "Click again to draw a rectangle"@
}

/// defines what will happen on click on the board
#[derive(Debug, Clone, Copy, PartialEq, Eq, Structural)]
pub struct Pen {
    pub shape: PenShape,
    pub ink: Ink,
    /// the first corner of the shape being drawn, if any
    pub shape_start: Option<Pos>,
}

impl Pen {
    /// a dot pen, with stone on mud levels and mud on the others
    pub fn new_for(level: &Level) -> (p: Pen)
        ensures
            p.shape == PenShape::Dot,
            p.ink == Ink::Terrain(if level.default_terrain == Terrain::Mud { Terrain::Stone } else { Terrain::Mud }),
            p.shape_start is None,
    {
        Pen {
            shape: PenShape::Dot,
            ink: Ink::Terrain(
                if level.default_terrain == Terrain::Mud {
                    Terrain::Stone
                } else {
                    Terrain::Mud
                },
            ),
            shape_start: None,
        }
    }

    /// Maybe change the state of the pen and return the drawing
    /// action which should be applied to the board, if any.
    /// Lines and rectangles need two clicks, the first one giving
    /// their start.
    pub fn click(&mut self, click_pos: Pos, is_control_click: bool) -> (r: Option<DrawingAction>)
        ensures
            final(self).shape == old(self).shape,
            final(self).ink == old(self).ink,
            match old(self).shape {
                PenShape::Dot => {
                    &&& r == Some(DrawingAction::DotInk(old(self).ink, click_pos))
                    &&& final(self).shape_start == old(self).shape_start
                },
                PenShape::Line => match old(self).shape_start {
                    Some(start) => {
                        &&& r == Some(
                            if is_control_click {
                                DrawingAction::CompassLineInk(old(self).ink, start, click_pos)
                            } else {
                                DrawingAction::LineInk(old(self).ink, start, click_pos)
                            },
                        )
                        &&& final(self).shape_start is None
                    },
                    None => r is None && final(self).shape_start == Some(click_pos),
                },
                PenShape::Rect => match old(self).shape_start {
                    Some(start) => {
                        &&& r == Some(DrawingAction::RectInk(old(self).ink, start, click_pos))
                        &&& final(self).shape_start is None
                    },
                    None => r is None && final(self).shape_start == Some(click_pos),
                },
            },
    {
        match self.shape {
            PenShape::Dot => Some(DrawingAction::DotInk(self.ink, click_pos)),
            PenShape::Line => {
                if let Some(start) = self.shape_start {
                    let action = if is_control_click {
                        DrawingAction::CompassLineInk(self.ink, start, click_pos)
                    } else {
                        DrawingAction::LineInk(self.ink, start, click_pos)
                    };
                    self.shape_start = None;
                    Some(action)
                } else {
                    self.shape_start = Some(click_pos);
                    None
                }
            },
            PenShape::Rect => {
                if let Some(start) = self.shape_start {
                    let action = DrawingAction::RectInk(self.ink, start, click_pos);
                    self.shape_start = None;
                    Some(action)
                } else {
                    self.shape_start = Some(click_pos);
                    None
                }
            },
        }
    }

    pub fn set_ink(&mut self, ink: Ink)
        ensures
            final(self).ink == ink,
            final(self).shape == old(self).shape,
            final(self).shape_start == old(self).shape_start,
    {
        self.ink = ink;
    }

    /// change the shape, forgetting the shape being drawn
    pub fn set_shape(&mut self, shape: PenShape)
        ensures
            final(self).shape == shape,
            final(self).ink == old(self).ink,
            final(self).shape_start is None,
    {
        self.shape = shape;
        self.shape_start = None;
    }

    /// whether the first click of a line or rectangle was done
    pub fn shape_started(&self) -> (b: bool)
        ensures
            b == self.shape_start is Some,
    {
        self.shape_start.is_some()
    }

    /// the help to display depending on the state, if any
    pub fn status_help(&self) -> (r: Option<String>)
        ensures
            match (self.shape, self.shape_start) {
                (PenShape::Line, Some(_)) => r matches Some(s) && s@ == line_help(),
                (PenShape::Rect, Some(_)) => r matches Some(s) && s@ == rect_help(),
                _ => r is None,
            },
    {
        match self.shape {
            PenShape::Line if self.shape_start.is_some() => Some(
                String::from_str("Click again to draw a line - with the *ctrl* key down to force compass directions"),
            ),
            PenShape::Rect if self.shape_start.is_some() => Some(String::from_str("Click again to draw a rectangle")),
            _ => None,
        }
    }
}

} // verus!
