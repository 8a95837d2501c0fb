//! What the world (all actors but the lapin) plays in a turn.

use vstd::prelude::*;
use crate::actor_map::ActorId;
use crate::pos::Dir;

verus! {

#[derive(Debug, Clone, Copy, PartialEq, Eq, Structural)]
pub enum Action {
    Moves(Dir),
    Aims(Dir),
    StopsAiming,
    Eats(Dir, ActorId),
    Fires(Dir, ActorId),
}

#[derive(Debug, Clone, Copy, PartialEq, Eq, Structural)]
pub struct ActorMove {
    pub actor_id: ActorId,
    pub action: Action,
}

impl ActorMove {
    /// the id of the actor targeted by the move, if any
    pub open spec fn target_spec(self) -> Option<ActorId> {
        match self.action {
            Action::Eats(_, id) | Action::Fires(_, id) => Some(id),
            _ => None,
        }
    }

    pub fn new(actor_id: ActorId, action: Action) -> (m: ActorMove)
        ensures
            m.actor_id == actor_id,
            m.action == action,
    {
        ActorMove { actor_id, action }
    }

    /// the id of the actor targeted by the move, if any
    pub fn target_id(self) -> (r: Option<ActorId>)
        ensures
            r == self.target_spec(),
    {
        match self.action {
            Action::Eats(_, id) | Action::Fires(_, id) => Some(id),
            _ => None,
        }
    }
}

/// what the world plays in a non-player turn.
/// The ids must be consistent with the board.
#[derive(Debug)]
pub struct WorldMove {
    pub actor_moves: Vec<ActorMove>,
}

} // verus!
