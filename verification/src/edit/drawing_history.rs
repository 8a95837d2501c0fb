//! The history of the drawing actions of the level editor, for undo and redo.

use vstd::prelude::*;
use crate::board::{Board, BoardModel};
use crate::edit::drawing_action::DrawingAction;
use crate::level::Level;

verus! {

/// the board after all the actions, in order
pub open spec fn replay(b: BoardModel, actions: Seq<DrawingAction>) -> BoardModel
    decreases actions.len(),
{
    if actions.len() == 0 {
        b
    } else {
        actions.last().applied(replay(b, actions.drop_last()))
    }
}

/// the abstract history: the actions done, of which the first `cursor`
/// ones are applied (the others were undone and can be redone)
#[verifier::ext_equal]
pub struct HistoryModel {
    pub actions: Seq<DrawingAction>,
    pub cursor: nat,
}

impl HistoryModel {
    pub open spec fn wf(self) -> bool {
        &&& self.cursor <= self.actions.len()
        &&& forall|i: int| 0 <= i < self.actions.len() ==> (#[trigger] self.actions[i]).fits()
    }

    /// the board a board state reset to the level comes back to
    pub open spec fn base(level: Level, b: BoardModel) -> BoardModel {
        Board::level_model(&level, b.name, b.area, b.current_player)
    }

    /// the board is the level with the applied actions replayed on it
    pub open spec fn replays_to(self, level: Level, b: BoardModel) -> bool {
        &&& self.wf()
        &&& level.playable()
        &&& b == replay(HistoryModel::base(level, b), self.actions.take(self.cursor as int))
    }

    /// the history after a new action: the undone actions are forgotten
    pub open spec fn after_apply(self, action: DrawingAction) -> HistoryModel {
        let actions = self.actions.take(self.cursor as int).push(action);
        HistoryModel { actions, cursor: actions.len() }
    }

    /// the history after an undo (when there's something to undo)
    pub open spec fn after_undo(self) -> HistoryModel {
        HistoryModel { cursor: (self.cursor - 1) as nat, ..self }
    }

    /// the history after a redo (when there's something to redo)
    pub open spec fn after_redo(self) -> HistoryModel {
        HistoryModel { cursor: self.cursor + 1, ..self }
    }
}

#[derive(Debug)]
pub struct DrawingHistory<'l> {
    actions: Vec<DrawingAction>,
    /// is actions.len() when not in redo
    cursor: usize,
    initial_state: &'l Level,
}

impl<'l> View for DrawingHistory<'l> {
    type V = HistoryModel;

    closed spec fn view(&self) -> HistoryModel {
        HistoryModel { actions: self.actions@, cursor: self.cursor as nat }
    }
}

impl<'l> DrawingHistory<'l> {
    /// the level the actions are applied to
    pub closed spec fn initial(&self) -> Level {
        *self.initial_state
    }

    /// the history describes the board
    pub open spec fn consistent(&self, b: BoardModel) -> bool {
        self@.replays_to(self.initial(), b)
    }

    /// an empty history on the level
    pub fn new(level: &'l Level) -> (h: DrawingHistory<'l>)
        ensures
            h@ == (HistoryModel { actions: Seq::empty(), cursor: 0 }),
            h.initial() == *level,
    {
        DrawingHistory { actions: Vec::new(), cursor: 0, initial_state: level }
    }

    /// whether there's an undone action to redo
    pub fn can_redo(&self) -> (b: bool)
        ensures
            b == (self@.cursor < self@.actions.len()),
    {
        self.cursor < self.actions.len()
    }

    /// add the action to history and change the board. If we're in
    /// an undo state, the future history is lost.
    pub fn apply(&mut self, action: DrawingAction, board: &mut Board)
        requires
            old(board).wf(),
            old(self).consistent(old(board)@),
            action.fits(),
        ensures
            final(board).wf(),
            final(board)@ == action.applied(old(board)@),
            final(self)@ == old(self)@.after_apply(action),
            final(self).initial() == old(self).initial(),
            final(self).consistent(final(board)@),
    {
        if self.can_redo() {
            self.actions.truncate(self.cursor);
        }
        let ghost before = self.actions@;
        assert(before == old(self)@.actions.take(old(self)@.cursor as int));
        action.apply_to(board);
        proof {
            lemma_applied_keeps_frame(action, old(board)@);
        }
        self.actions.push(action);
        self.cursor = self.actions.len();
        proof {
            let acts = self.actions@;
            assert(acts.take(acts.len() as int) =~= acts);
            assert(acts.drop_last() =~= before);
            assert forall|i: int| 0 <= i < acts.len() implies (#[trigger] acts[i]).fits() by {
                if i < acts.len() - 1 {
                    assert(acts[i] == old(self)@.actions[i]);
                }
            }
        }
    }

    /// revert to the state before the current action, by replaying all
    /// the previous ones on the initial state. Return false if nothing
    /// changed (i.e. we're already at the initial state)
    pub fn undo(&mut self, board: &mut Board) -> (r: bool)
        requires
            old(board).wf(),
            old(self).consistent(old(board)@),
        ensures
            final(board).wf(),
            final(self).initial() == old(self).initial(),
            final(self).consistent(final(board)@),
            r == (old(self)@.cursor > 0),
            r ==> final(self)@ == old(self)@.after_undo(),
            r ==> final(board)@ == replay(
                HistoryModel::base(old(self).initial(), old(board)@),
                old(self)@.actions.take(old(self)@.cursor - 1),
            ),
            !r ==> final(self)@ == old(self)@ && final(board)@ == old(board)@,
    {
        if self.cursor == 0 {
            return false;
        }
        self.cursor -= 1;
        board.reset_to(self.initial_state);
        let ghost base = HistoryModel::base(*self.initial_state, board@);
        assert(base == board@);
        let mut i: usize = 0;
        while i < self.cursor
            invariant
                board.wf(),
                self@ == old(self)@.after_undo(),
                self.initial() == old(self).initial(),
                self@.wf(),
                i <= self.cursor,
                base == HistoryModel::base(self.initial(), board@),
                board@ == replay(base, self@.actions.take(i as int)),
            decreases self.cursor - i,
        {
            assert(self@.actions[i as int].fits());
            let ghost before = board@;
            self.actions[i].apply_to(board);
            proof {
                lemma_applied_keeps_frame(self@.actions[i as int], before);
            }
            assert(self@.actions.take(i + 1).drop_last() =~= self@.actions.take(i as int));
            i += 1;
        }
        true
    }

    /// cancel one undo, if possible
    pub fn redo(&mut self, board: &mut Board) -> (r: bool)
        requires
            old(board).wf(),
            old(self).consistent(old(board)@),
        ensures
            final(board).wf(),
            final(self).initial() == old(self).initial(),
            final(self).consistent(final(board)@),
            r == (old(self)@.cursor < old(self)@.actions.len()),
            r ==> final(self)@ == old(self)@.after_redo(),
            r ==> final(board)@ == old(self)@.actions[old(self)@.cursor as int].applied(old(board)@),
            !r ==> final(self)@ == old(self)@ && final(board)@ == old(board)@,
    {
        if !self.can_redo() {
            return false;
        }
        let n = self.actions.len();
        assert(self@.actions[self.cursor as int].fits());
        self.actions[self.cursor].apply_to(board);
        proof {
            lemma_applied_keeps_frame(self@.actions[self.cursor as int], old(board)@);
        }
        self.cursor += 1;
        assert(self@.actions.take(self.cursor as int).drop_last() =~= old(self)@.actions.take(old(self)@.cursor as int));
        true
    }
}

/// Undoing then redoing gives back the board and the history.
pub proof fn lemma_undo_redo(level: Level, h: HistoryModel, b: BoardModel)
    requires
        h.replays_to(level, b),
        h.cursor > 0,
    ensures
        ({
            let undone = h.after_undo();
            let b_undone = replay(HistoryModel::base(level, b), undone.actions.take(undone.cursor as int));
            &&& undone.replays_to(level, b_undone)
            &&& undone.after_redo() == h
            &&& h.actions[undone.cursor as int].applied(b_undone) == b
        }),
{
    let undone = h.after_undo();
    let c = h.cursor as int;
    assert(h.actions.take(c).drop_last() =~= h.actions.take(c - 1));
    lemma_replay_keeps_frame(HistoryModel::base(level, b), h.actions.take(c - 1));
    assert(undone.after_redo() =~= h);
}

/// Replaying actions changes neither the name, the area nor the player of the board.
pub proof fn lemma_replay_keeps_frame(b: BoardModel, actions: Seq<DrawingAction>)
    ensures
        replay(b, actions).name == b.name,
        replay(b, actions).area == b.area,
        replay(b, actions).current_player == b.current_player,
    decreases actions.len(),
{
    if actions.len() > 0 {
        lemma_replay_keeps_frame(b, actions.drop_last());
        let prev = replay(b, actions.drop_last());
        lemma_applied_keeps_frame(actions.last(), prev);
    }
}

/// A drawing action changes neither the name, the area nor the player of the board.
pub proof fn lemma_applied_keeps_frame(action: DrawingAction, b: BoardModel)
    ensures
        action.applied(b).name == b.name,
        action.applied(b).area == b.area,
        action.applied(b).current_player == b.current_player,
{
    match action {
        DrawingAction::LineInk(ink, p, q) => lemma_ink_seq_keeps_frame(b, ink, crate::edit::drawing_action::line_points(p, q)),
        DrawingAction::CompassLineInk(ink, p, q) => lemma_ink_seq_keeps_frame(b, ink, crate::edit::drawing_action::compass_points(p, q)),
        DrawingAction::RectInk(ink, p, q) => lemma_ink_seq_keeps_frame(b, ink, crate::edit::drawing_action::rect_points(p, q)),
        _ => {},
    }
}

proof fn lemma_ink_seq_keeps_frame(b: BoardModel, ink: crate::edit::ink::Ink, pts: Seq<crate::pos::Pos>)
    ensures
        crate::edit::drawing_action::ink_seq(b, ink, pts).name == b.name,
        crate::edit::drawing_action::ink_seq(b, ink, pts).area == b.area,
        crate::edit::drawing_action::ink_seq(b, ink, pts).current_player == b.current_player,
    decreases pts.len(),
{
    if pts.len() > 0 {
        lemma_ink_seq_keeps_frame(b, ink, pts.drop_last());
    }
}

} // verus!

verus! {

/// A new (empty) history on a level describes a board freshly reset to
/// that level.
pub proof fn lemma_fresh_history(level: Level, b: BoardModel)
    requires
        level.playable(),
        b == Board::level_model(&level, b.name, b.area, b.current_player),
    ensures
        (HistoryModel { actions: Seq::empty(), cursor: 0 }).replays_to(level, b),
{
    assert(Seq::<DrawingAction>::empty().take(0) =~= Seq::<DrawingAction>::empty());
}

} // verus!
