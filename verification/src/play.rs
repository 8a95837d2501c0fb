//! The decisions of the playing screen, between the events it reads and
//! the drawing it does.

use vstd::prelude::*;
use crate::board::{MoveResult, Player};
use crate::status::Status;

verus! {

/// what the playing screen does next
#[derive(Debug, Clone, Copy, PartialEq, Eq, Structural)]
pub enum PlayStep {
    /// wait for the player to move the lapin
    WaitForKey,
    /// let the world play its move
    PlayWorld,
    /// the game is over: only keys leaving the screen do something
    GameOver,
}

/// the step of the playing screen when it's the turn of `player`
pub fn next_step(player: Player) -> (s: PlayStep)
    ensures
        s == (match player {
            Player::Lapin => PlayStep::WaitForKey,
            Player::World => PlayStep::PlayWorld,
            Player::Nobody => PlayStep::GameOver,
        }),
{
    match player {
        Player::Lapin => PlayStep::WaitForKey,
        Player::World => PlayStep::PlayWorld,
        Player::Nobody => PlayStep::GameOver,
    }
}

/// the text added to the message telling the end of the game
pub open spec fn go_back_hint() -> Seq<char> {
    " Hit *esc* to go back"@
}

/// the status telling how a move ended the game, if it did: the message
/// of a win, or the error of a loss, followed by how to leave
pub fn move_status(result: MoveResult) -> (s: Option<Status>)
    ensures
        match result {
            MoveResult::PlayerWin(m) => s matches Some(st) && st.message@ == m@ + go_back_hint() && !st.error,
            MoveResult::PlayerLose(m) => s matches Some(st) && st.message@ == m@ + go_back_hint() && st.error,
            _ => s is None,
        },
{
    match result {
        MoveResult::PlayerWin(message) => {
            let mut m = message;
            m.append(" Hit *esc* to go back");
            Some(Status::from_message(m))
        },
        MoveResult::PlayerLose(message) => {
            let mut m = message;
            m.append(" Hit *esc* to go back");
            Some(Status::from_error(m))
        },
        _ => None,
    }
}

} // verus!
