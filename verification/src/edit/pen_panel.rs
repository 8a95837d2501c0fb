//! The pen panel of the level editor: where the inks and the shapes of
//! the pen are chosen by clicking on them.

use vstd::prelude::*;
use crate::edit::ink::Ink;
use crate::edit::inkwell::{ink_at, ink_at_spec, InkWell};
use crate::edit::pen::{Pen, PenShape, pen_shapes, pen_shapes_spec};
use crate::layout::{Area, ScreenPos};

verus! {

/// a place on the screen on which you click to select a shape
#[derive(Debug, Clone, Copy, PartialEq, Eq, Structural)]
pub struct ShapeWell {
    pub area: Area,
    pub shape: PenShape,
}

/// the width of the name of a shape in the panel
pub const SHAPE_WELL_WIDTH: u16 = 8;

/// the inkwells of the inks written in a row from `x` on line `y`,
/// after a label: each one preceded by a blank when there's a margin
pub open spec fn inkwells_row(x: int, y: u16, label_len: int, inks: Seq<Ink>, margin: int) -> Seq<InkWell> {
    Seq::new(
        inks.len(),
        |i: int| InkWell { sp: ScreenPos { x: (x + label_len + (i + 1) * margin + i) as u16, y }, ink: inks[i] },
    )
}

/// the inkwells of inks drawn after a label from `start`, and the
/// position following the last one
pub fn layout_inkwells(start: ScreenPos, label_len: u16, inks: &Vec<Ink>, margin: u16) -> (r: (Vec<InkWell>, ScreenPos))
    requires
        margin <= 1,
        start.x + label_len + inks@.len() * (margin + 1) <= u16::MAX,
    ensures
        r.0@ == inkwells_row(start.x as int, start.y, label_len as int, inks@, margin as int),
        r.1 == (ScreenPos { x: (start.x + label_len + inks@.len() * (margin + 1)) as u16, y: start.y }),
{
    let mut wells: Vec<InkWell> = Vec::new();
    let mut x: u16 = start.x + label_len;
    let mut i: usize = 0;
    while i < inks.len()
        invariant
            margin <= 1,
            start.x + label_len + inks@.len() * (margin + 1) <= u16::MAX,
            i <= inks@.len(),
            x == start.x + label_len + i * (margin + 1),
            wells@ == inkwells_row(start.x as int, start.y, label_len as int, inks@, margin as int).take(i as int),
        decreases inks@.len() - i,
    {
        proof {
            assert((i + 1) * (margin + 1) <= inks@.len() * (margin + 1)) by (nonlinear_arith)
                requires
                    i < inks@.len(),
            ;
            assert((i + 1) * (margin + 1) == i * (margin + 1) + margin + 1) by (nonlinear_arith);
            assert((i + 1) * margin + i == i * (margin + 1) + margin) by (nonlinear_arith);
        }
        let ghost prev = wells@;
        x = x + margin;
        wells.push(InkWell { sp: ScreenPos { x, y: start.y }, ink: inks[i] });
        x = x + 1;
        proof {
            let row = inkwells_row(start.x as int, start.y, label_len as int, inks@, margin as int);
            assert(row[i as int].sp.x == start.x + label_len + (i + 1) * margin + i);
            assert(wells@ =~= row.take(i + 1));
        }
        i += 1;
    }
    proof {
        assert(wells@ =~= inkwells_row(start.x as int, start.y, label_len as int, inks@, margin as int));
    }
    (wells, ScreenPos { x, y: start.y })
}

/// the shape wells, one per line from the top of the panel, at its right
pub open spec fn shapewells_column(area: Area) -> Seq<ShapeWell> {
    Seq::new(
        pen_shapes_spec().len(),
        |i: int|
            ShapeWell {
                area: Area {
                    left: (area.left + area.width - SHAPE_WELL_WIDTH) as u16,
                    top: (area.top + i) as u16,
                    width: SHAPE_WELL_WIDTH,
                    height: 1,
                },
                shape: pen_shapes_spec()[i],
            },
    )
}

/// the places of the shapes in the pen panel
pub fn layout_shapewells(area: Area) -> (r: Vec<ShapeWell>)
    requires
        SHAPE_WELL_WIDTH <= area.left + area.width <= u16::MAX,
        area.top + pen_shapes_spec().len() <= u16::MAX,
    ensures
        r@ == shapewells_column(area),
{
    let shapes = pen_shapes();
    let x: u16 = area.left + area.width - SHAPE_WELL_WIDTH;
    let mut wells: Vec<ShapeWell> = Vec::new();
    let mut i: usize = 0;
    while i < shapes.len()
        invariant
            shapes@ == pen_shapes_spec(),
            SHAPE_WELL_WIDTH <= area.left + area.width <= u16::MAX,
            area.top + pen_shapes_spec().len() <= u16::MAX,
            x == area.left + area.width - SHAPE_WELL_WIDTH,
            i <= shapes@.len(),
            wells@ == shapewells_column(area).take(i as int),
        decreases shapes@.len() - i,
    {
        wells.push(
            ShapeWell { area: Area { left: x, top: area.top + i as u16, width: SHAPE_WELL_WIDTH, height: 1 }, shape: shapes[i] },
        );
        proof {
            assert(wells@ =~= shapewells_column(area).take(i + 1));
        }
        i += 1;
    }
    proof {
        assert(wells@ =~= shapewells_column(area));
    }
    wells
}

/// `k` is the first shape well containing the position
pub open spec fn first_shapewell_at(shapewells: Seq<ShapeWell>, sp: ScreenPos, k: int) -> bool {
    &&& 0 <= k < shapewells.len()
    &&& sp.in_area(shapewells[k].area)
    &&& forall|j: int| 0 <= j < k ==> !sp.in_area(#[trigger] shapewells[j].area)
}

/// the shape of the first shape well containing the position, if any
pub open spec fn shape_at_spec(shapewells: Seq<ShapeWell>, sp: ScreenPos) -> Option<PenShape> {
    if exists|k: int| 0 <= k < shapewells.len() && sp.in_area(#[trigger] shapewells[k].area) {
        Some(shapewells[choose|k: int| first_shapewell_at(shapewells, sp, k)].shape)
    } else {
        None
    }
}

/// the first shape well containing the position, if any
fn shape_at(shapewells: &Vec<ShapeWell>, sp: ScreenPos) -> (r: Option<PenShape>)
    ensures
        r == shape_at_spec(shapewells@, sp),
{
    let mut k: usize = 0;
    while k < shapewells.len()
        invariant
            k <= shapewells@.len(),
            forall|j: int| 0 <= j < k ==> !sp.in_area(#[trigger] shapewells@[j].area),
        decreases shapewells@.len() - k,
    {
        if sp.is_in(&shapewells[k].area) {
            proof {
                assert(first_shapewell_at(shapewells@, sp, k as int));
                let c = choose|c: int| first_shapewell_at(shapewells@, sp, c);
                if c < k {
                    assert(!sp.in_area(shapewells@[c].area));
                } else if c > k {
                    assert(!sp.in_area(shapewells@[k as int].area));
                }
            }
            return Some(shapewells[k].shape);
        }
        k += 1;
    }
    None
}

/// a click in the pen panel: on a shape, it becomes the pen's shape,
/// else on an ink, it becomes the pen's ink
pub fn click(pen: &mut Pen, shapewells: &Vec<ShapeWell>, inkwells: &Vec<InkWell>, sp: ScreenPos)
    ensures
        match shape_at_spec(shapewells@, sp) {
            Some(shape) => {
                &&& final(pen).shape == shape
                &&& final(pen).ink == old(pen).ink
                &&& final(pen).shape_start is None
            },
            None => match ink_at_spec(inkwells@, sp) {
                Some(ink) => *final(pen) == Pen { ink, ..*old(pen) },
                None => *final(pen) == *old(pen),
            },
        },
{
    match shape_at(shapewells, sp) {
        Some(shape) => {
            pen.set_shape(shape);
        },
        None => {
            if let Some(ink) = ink_at(inkwells, sp) {
                pen.set_ink(ink);
            }
        },
    }
}

} // verus!
