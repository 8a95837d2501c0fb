//! The decisions of the level editor screen: moving the view, undoing
//! and redoing, drawing with the pen, and the transitions asked for.
//!
//! Drawing on the terminal, reading the events and writing the level
//! file are done by the caller, which hands the events over and performs
//! the actions returned.

use vstd::prelude::*;
use crate::board::{Board, BoardModel};
use crate::edit::drawing_action::{DrawingAction, ink_seq, inked};
use crate::edit::drawing_history::{DrawingHistory, HistoryModel, replay};
use crate::edit::ink::Ink;
use crate::edit::pen::{Pen, PenShape, line_help, rect_help};
use crate::level::Level;
use crate::pos::{Int, Pos};
use crate::status::Status;
use crate::terrain::Terrain;
use crate::transition::StateTransition;

verus! {

/// the status shown when the pen has no help to give
pub open spec fn default_status() -> Seq<char> {
    "Use arrows to move, *q* to quit, *s* to save, *t* to test, *u*/*r* to undo/redo"@
}

fn default_status_message() -> (s: String)
    ensures
        s@ == default_status(),
{
    String::from_str("Use arrows to move, *q* to quit, *s* to save, *t* to test, *u*/*r* to undo/redo")
}

/// the keys the level editor reacts to
#[derive(Debug, Clone, Copy, PartialEq, Eq, Structural)]
pub enum EditorKey {
    Up,
    Right,
    Down,
    Left,
    Char(char),
    Other,
}

/// what the caller must do after a key was handled
#[derive(Debug, Clone, Copy, PartialEq, Eq, Structural)]
pub enum EditorAction {
    /// nothing more
    Nothing,
    /// write the level of the board to the file, then tell the editor
    /// whether it succeeded
    Save,
    /// leave the editor
    Transition(StateTransition),
}

/// the board with another name
pub open spec fn renamed(b: BoardModel, name: Seq<char>) -> BoardModel {
    BoardModel { name, ..b }
}

proof fn lemma_inked_renamed(b: BoardModel, ink: Ink, pos: Pos, name: Seq<char>)
    ensures
        inked(renamed(b, name), ink, pos) == renamed(inked(b, ink, pos), name),
{
}

proof fn lemma_ink_seq_renamed(b: BoardModel, ink: Ink, pts: Seq<Pos>, name: Seq<char>)
    ensures
        ink_seq(renamed(b, name), ink, pts) == renamed(ink_seq(b, ink, pts), name),
    decreases pts.len(),
{
    if pts.len() > 0 {
        lemma_ink_seq_renamed(b, ink, pts.drop_last(), name);
        lemma_inked_renamed(ink_seq(b, ink, pts.drop_last()), ink, pts.last(), name);
    }
}

proof fn lemma_applied_renamed(action: DrawingAction, b: BoardModel, name: Seq<char>)
    ensures
        action.applied(renamed(b, name)) == renamed(action.applied(b), name),
{
    match action {
        DrawingAction::DotInk(ink, pos) => lemma_inked_renamed(b, ink, pos, name),
        DrawingAction::LineInk(ink, p, q) => lemma_ink_seq_renamed(
            b,
            ink,
            crate::edit::drawing_action::line_points(p, q),
            name,
        ),
        DrawingAction::CompassLineInk(ink, p, q) => lemma_ink_seq_renamed(
            b,
            ink,
            crate::edit::drawing_action::compass_points(p, q),
            name,
        ),
        DrawingAction::RectInk(ink, p, q) => lemma_ink_seq_renamed(
            b,
            ink,
            crate::edit::drawing_action::rect_points(p, q),
            name,
        ),
        DrawingAction::DefaultTerrain(_) => {},
    }
}

/// Replaying drawing actions doesn't depend on the board's name.
pub proof fn lemma_replay_renamed(b: BoardModel, actions: Seq<DrawingAction>, name: Seq<char>)
    ensures
        replay(renamed(b, name), actions) == renamed(replay(b, actions), name),
    decreases actions.len(),
{
    if actions.len() > 0 {
        lemma_replay_renamed(b, actions.drop_last(), name);
        lemma_applied_renamed(actions.last(), replay(b, actions.drop_last()), name);
    }
}

/// The level editor: a board drawn on with a pen, whose drawing
/// actions can be undone and redone
pub struct LevelEditor<'l> {
    board: Board,
    pen: Pen,
    status: Status,
    /// the pos shown at center of the screen
    center: Pos,
    history: DrawingHistory<'l>,
}

impl<'l> LevelEditor<'l> {
    pub closed spec fn board_model(&self) -> BoardModel {
        self.board@
    }

    pub closed spec fn pen_spec(&self) -> Pen {
        self.pen
    }

    pub closed spec fn status_spec(&self) -> Status {
        self.status
    }

    pub closed spec fn center_spec(&self) -> Pos {
        self.center
    }

    pub closed spec fn history_model(&self) -> HistoryModel {
        self.history@
    }

    /// the level being edited, as it was opened
    pub closed spec fn initial(&self) -> Level {
        self.history.initial()
    }

    /// the board is the opened level with the drawing actions of the
    /// history replayed on it
    pub closed spec fn wf(&self) -> bool {
        &&& self.board.wf()
        &&& self.history.consistent(self.board@)
    }

    /// an editor on the level, centered on the lapin, with a dot pen
    /// and an empty history
    pub fn new(level: &'l Level) -> (e: LevelEditor<'l>)
        requires
            level.playable(),
        ensures
            e.wf(),
            e.initial() == *level,
            e.board_model() == Board::level_model(
                level,
                level.name@,
                e.board_model().area,
                e.board_model().current_player,
            ),
            e.center_spec() == e.board_model().lapin().pos,
            e.pen_spec().shape == PenShape::Dot,
            e.pen_spec().ink == Ink::Terrain(if level.default_terrain == Terrain::Mud { Terrain::Stone } else { Terrain::Mud }),
            e.pen_spec().shape_start is None,
            e.status_spec().message@ == default_status(),
            !e.status_spec().error,
            e.history_model() == (HistoryModel { actions: Seq::empty(), cursor: 0 }),
    {
        let board = Board::from_level(level);
        let status = Status::from_message(default_status_message());
        let pen = Pen::new_for(level);
        let center = board.lapin_pos();
        let history = DrawingHistory::new(level);
        proof {
            assert(history@.actions.take(0) =~= Seq::<DrawingAction>::empty());
        }
        LevelEditor { board, pen, status, center, history }
    }

    pub fn label(&self) -> (s: &'static str)
        ensures
            s@ == "editor"@,
    {
        "editor"
    }

    pub fn board(&self) -> (b: &Board)
        ensures
            b@ == self.board_model(),
            self.wf() ==> b.wf(),
    {
        &self.board
    }

    pub fn pen(&self) -> (p: Pen)
        ensures
            p == self.pen_spec(),
    {
        self.pen
    }

    /// change the pen (its shape or ink, chosen in the pen panel)
    pub fn set_pen(&mut self, pen: Pen)
        ensures
            final(self).pen_spec() == pen,
            final(self).board_model() == old(self).board_model(),
            final(self).status_spec() == old(self).status_spec(),
            final(self).center_spec() == old(self).center_spec(),
            final(self).history_model() == old(self).history_model(),
            final(self).initial() == old(self).initial(),
            old(self).wf() ==> final(self).wf(),
    {
        self.pen = pen;
    }

    pub fn status(&self) -> (s: &Status)
        ensures
            *s == self.status_spec(),
    {
        &self.status
    }

    pub fn center(&self) -> (p: Pos)
        ensures
            p == self.center_spec(),
    {
        self.center
    }
}

/// the status after a drawing, the pen's help if it has one
pub open spec fn drawing_status(pen: Pen) -> Seq<char> {
    match (pen.shape, pen.shape_start) {
        (PenShape::Line, Some(_)) => line_help(),
        (PenShape::Rect, Some(_)) => rect_help(),
        _ => default_status(),
    }
}

impl<'l> LevelEditor<'l> {
    /// react to a key: move the view, center it on the lapin, undo or
    /// redo a drawing action, or tell the caller to save the level or
    /// to leave the editor (quitting, or testing the level)
    pub fn handle_key_event(&mut self, key: EditorKey) -> (r: EditorAction)
        requires
            old(self).wf(),
            key == EditorKey::Up ==> old(self).center_spec().y > i32::MIN,
            key == EditorKey::Down ==> old(self).center_spec().y < i32::MAX,
            key == EditorKey::Left ==> old(self).center_spec().x > i32::MIN,
            key == EditorKey::Right ==> old(self).center_spec().x < i32::MAX,
        ensures
            final(self).wf(),
            final(self).initial() == old(self).initial(),
            final(self).pen_spec() == old(self).pen_spec(),
            final(self).status_spec() == old(self).status_spec(),
            ({
                let c = old(self).center_spec();
                let h = old(self).history_model();
                let moved = |center: Pos|
                    {
                        &&& r == EditorAction::Nothing
                        &&& final(self).center_spec() == center
                        &&& final(self).board_model() == old(self).board_model()
                        &&& final(self).history_model() == h
                    };
                let unchanged = final(self).center_spec() == c && final(self).board_model()
                    == old(self).board_model() && final(self).history_model() == h;
                match key {
                    EditorKey::Up => moved(Pos { x: c.x, y: (c.y - 1) as Int }),
                    EditorKey::Right => moved(Pos { x: (c.x + 1) as Int, y: c.y }),
                    EditorKey::Down => moved(Pos { x: c.x, y: (c.y + 1) as Int }),
                    EditorKey::Left => moved(Pos { x: (c.x - 1) as Int, y: c.y }),
                    EditorKey::Char('c') => moved(old(self).board_model().lapin().pos),
                    EditorKey::Char('q') => r == EditorAction::Transition(StateTransition::Quit) && unchanged,
                    EditorKey::Char('s') => r == EditorAction::Save && unchanged,
                    EditorKey::Char('t') => r == EditorAction::Transition(
                        StateTransition::PlayLevel { level_idx: 0 },
                    ) && unchanged,
                    EditorKey::Char('r') => {
                        &&& r == EditorAction::Nothing
                        &&& final(self).center_spec() == c
                        &&& if h.cursor < h.actions.len() {
                            &&& final(self).history_model() == h.after_redo()
                            &&& final(self).board_model() == h.actions[h.cursor as int].applied(
                                old(self).board_model(),
                            )
                        } else {
                            final(self).history_model() == h && final(self).board_model()
                                == old(self).board_model()
                        }
                    },
                    EditorKey::Char('u') => {
                        &&& r == EditorAction::Nothing
                        &&& final(self).center_spec() == c
                        &&& if h.cursor > 0 {
                            &&& final(self).history_model() == h.after_undo()
                            &&& final(self).board_model() == replay(
                                HistoryModel::base(old(self).initial(), old(self).board_model()),
                                h.actions.take(h.cursor - 1),
                            )
                        } else {
                            final(self).history_model() == h && final(self).board_model()
                                == old(self).board_model()
                        }
                    },
                    _ => r == EditorAction::Nothing && unchanged,
                }
            }),
    {
        match key {
            EditorKey::Up => {
                self.center = Pos { x: self.center.x, y: self.center.y - 1 };
                EditorAction::Nothing
            },
            EditorKey::Right => {
                self.center = Pos { x: self.center.x + 1, y: self.center.y };
                EditorAction::Nothing
            },
            EditorKey::Down => {
                self.center = Pos { x: self.center.x, y: self.center.y + 1 };
                EditorAction::Nothing
            },
            EditorKey::Left => {
                self.center = Pos { x: self.center.x - 1, y: self.center.y };
                EditorAction::Nothing
            },
            EditorKey::Char(c) => {
                if c == 'c' {
                    self.center = self.board.lapin_pos();
                    EditorAction::Nothing
                } else if c == 'q' {
                    EditorAction::Transition(StateTransition::Quit)
                } else if c == 'r' {
                    self.history.redo(&mut self.board);
                    EditorAction::Nothing
                } else if c == 's' {
                    EditorAction::Save
                } else if c == 't' {
                    EditorAction::Transition(StateTransition::PlayLevel { level_idx: 0 })
                } else if c == 'u' {
                    self.history.undo(&mut self.board);
                    EditorAction::Nothing
                } else {
                    EditorAction::Nothing
                }
            },
            EditorKey::Other => EditorAction::Nothing,
        }
    }

    /// tell the editor whether saving the level succeeded
    pub fn saved(&mut self, ok: bool)
        ensures
            final(self).status_spec().message@ == if ok {
                "level saved"@
            } else {
                "level saving failed"@
            },
            final(self).status_spec().error == !ok,
            final(self).board_model() == old(self).board_model(),
            final(self).pen_spec() == old(self).pen_spec(),
            final(self).center_spec() == old(self).center_spec(),
            final(self).history_model() == old(self).history_model(),
            final(self).initial() == old(self).initial(),
            old(self).wf() ==> final(self).wf(),
    {
        self.status = if ok {
            Status::from_message(String::from_str("level saved"))
        } else {
            Status::from_error(String::from_str("level saving failed"))
        };
    }

    /// the drawing action of a click of the pen at `pos` on the board,
    /// with the control key down or not
    pub fn pen_click(&mut self, pos: Pos, is_control_click: bool) -> (r: Option<DrawingAction>)
        ensures
            final(self).pen_spec().shape == old(self).pen_spec().shape,
            final(self).pen_spec().ink == old(self).pen_spec().ink,
            final(self).board_model() == old(self).board_model(),
            final(self).status_spec() == old(self).status_spec(),
            final(self).center_spec() == old(self).center_spec(),
            final(self).history_model() == old(self).history_model(),
            final(self).initial() == old(self).initial(),
            old(self).wf() ==> final(self).wf(),
            match old(self).pen_spec().shape {
                PenShape::Dot => {
                    &&& r == Some(DrawingAction::DotInk(old(self).pen_spec().ink, pos))
                    &&& final(self).pen_spec().shape_start == old(self).pen_spec().shape_start
                },
                _ => match old(self).pen_spec().shape_start {
                    Some(start) => {
                        &&& r == Some(
                            if old(self).pen_spec().shape == PenShape::Rect {
                                DrawingAction::RectInk(old(self).pen_spec().ink, start, pos)
                            } else if is_control_click {
                                DrawingAction::CompassLineInk(old(self).pen_spec().ink, start, pos)
                            } else {
                                DrawingAction::LineInk(old(self).pen_spec().ink, start, pos)
                            },
                        )
                        &&& final(self).pen_spec().shape_start is None
                    },
                    None => r is None && final(self).pen_spec().shape_start == Some(pos),
                },
            },
    {
        self.pen.click(pos, is_control_click)
    }

    /// apply the drawing action of a click, if any, keeping it in the
    /// history, then show the pen's help
    pub fn apply_drawing(&mut self, action: Option<DrawingAction>)
        requires
            old(self).wf(),
            action matches Some(a) ==> a.fits(),
        ensures
            final(self).wf(),
            final(self).initial() == old(self).initial(),
            final(self).pen_spec() == old(self).pen_spec(),
            final(self).center_spec() == old(self).center_spec(),
            final(self).status_spec().message@ == drawing_status(old(self).pen_spec()),
            !final(self).status_spec().error,
            match action {
                Some(a) => {
                    &&& final(self).history_model() == old(self).history_model().after_apply(a)
                    &&& final(self).board_model() == a.applied(old(self).board_model())
                },
                None => {
                    &&& final(self).history_model() == old(self).history_model()
                    &&& final(self).board_model() == old(self).board_model()
                },
            },
    {
        if let Some(action) = action {
            self.history.apply(action, &mut self.board);
        }
        let message = match self.pen.status_help() {
            Some(help) => help,
            None => default_status_message(),
        };
        self.status = Status::from_message(message);
    }

    /// rename the level (when the name field is closed)
    pub fn set_name(&mut self, name: String)
        requires
            old(self).wf(),
        ensures
            final(self).wf(),
            final(self).board_model() == renamed(old(self).board_model(), name@),
            final(self).initial() == old(self).initial(),
            final(self).pen_spec() == old(self).pen_spec(),
            final(self).status_spec() == old(self).status_spec(),
            final(self).center_spec() == old(self).center_spec(),
            final(self).history_model() == old(self).history_model(),
    {
        let ghost old_board = self.board@;
        self.board.name = name;
        proof {
            let h = self.history@;
            let level = self.history.initial();
            let acts = h.actions.take(h.cursor as int);
            let base_old = HistoryModel::base(level, old_board);
            assert(HistoryModel::base(level, self.board@) == renamed(base_old, name@));
            lemma_replay_renamed(base_old, acts, name@);
            assert(self.board@ == renamed(old_board, name@));
        }
    }

    /// the level as currently drawn
    pub fn get_level(&self) -> (r: Option<Level>)
        requires
            self.wf(),
        ensures
            r matches Some(l) && {
                let b = self.board_model();
                &&& l.name@ == b.name
                &&& l.default_terrain == b.default_terrain
                &&& l.actors@ == b.actors.actors
                &&& crate::level::enumerates_except(b.terrains, b.default_terrain, l.terrains@)
                &&& crate::level::enumerates_some(b.items, l.items@)
            },
    {
        Some(Level::from_board(&self.board))
    }
}

} // verus!
