//! The set of actors of a board, indexed both by id and by position.

use vstd::prelude::*;
use crate::actor::{Actor, ActorKind, ActorState};
use crate::pos::{Dir, Pos, PosArea};
use crate::pos_map::PosMap;

verus! {

/// a non nullable id of an actor, for use in the actor map.
/// An ActorId is only valid until the next "remove" operation
/// (it's the index in the underlying array)
pub type ActorId = usize;

/// an optional actor id, as compact as an id
#[derive(Debug, Clone, Copy, PartialEq, Eq, Structural)]
pub struct ActorRef {
    id: usize,
}

impl View for ActorRef {
    type V = Option<usize>;

    closed spec fn view(&self) -> Option<usize> {
        if self.id == usize::MAX {
            None
        } else {
            Some(self.id)
        }
    }
}

impl ActorRef {
    pub fn none() -> (r: ActorRef)
        ensures
            r@ is None,
    {
        ActorRef { id: usize::MAX }
    }

    /// a reference to the given id (the greatest usize can't be an id
    /// and gives a reference to nothing)
    pub fn from_id(id: ActorId) -> (r: ActorRef)
        ensures
            r@ == (if id == usize::MAX { None } else { Some(id) }),
    {
        ActorRef { id }
    }

    /// the reference to the lapin, which always has id 0
    pub fn lapin() -> (r: ActorRef)
        ensures
            r@ == Some(0usize),
    {
        Self::from_id(0)
    }

    pub fn is_some(self) -> (b: bool)
        ensures
            b == self@ is Some,
    {
        self.id != usize::MAX
    }

    pub fn is_none(self) -> (b: bool)
        ensures
            b == self@ is None,
    {
        self.id == usize::MAX
    }

    pub fn id(self) -> (r: Option<ActorId>)
        ensures
            r == self@,
    {
        if self.is_some() {
            Some(self.id)
        } else {
            None
        }
    }
}

/// why an actor couldn't be added or moved
#[derive(Debug, Clone, Copy, PartialEq, Eq, Structural)]
pub enum ActorMapError {
    /// the position is already occupied by a living actor of this kind
    Occupied(ActorKind),
    /// there's no id left for a new actor
    TooManyActors,
}

/// the abstract content of an actor map: the actors (the lapin at
/// index 0) and, for some positions, the id of the actor referenced there
#[verifier::ext_equal]
pub struct ActorMapModel {
    pub actors: Seq<Actor>,
    pub refs: Map<Pos, usize>,
}

impl ActorMapModel {
    /// there's a lapin slot, and every reference is to an actor standing there
    pub open spec fn sound(self) -> bool {
        &&& 1 <= self.actors.len() < usize::MAX
        &&& forall|p: Pos|
            #[trigger] self.refs.contains_key(p) ==> {
                &&& self.refs[p] < self.actors.len()
                &&& self.actors[self.refs[p] as int].pos == p
            }
    }

    /// the actor referenced at a position, if any
    pub open spec fn by_pos(self, pos: Pos) -> Option<Actor> {
        if self.refs.contains_key(pos) {
            Some(self.actors[self.refs[pos] as int])
        } else {
            None
        }
    }

    /// whether a living actor is referenced at the position
    pub open spec fn has_pos(self, pos: Pos) -> bool {
        match self.by_pos(pos) {
            Some(a) => !a.state.dead,
            None => false,
        }
    }

    /// the map after the state of actor `id` changed
    pub open spec fn with_state(self, id: ActorId, state: ActorState) -> ActorMapModel {
        ActorMapModel {
            actors: self.actors.update(id as int, Actor { state, ..self.actors[id as int] }),
            refs: self.refs,
        }
    }

    /// actor `id` can't be moved to `new_pos` when it's alive and a
    /// living actor is referenced there
    pub open spec fn blocks(self, id: ActorId, new_pos: Pos) -> bool {
        match self.by_pos(new_pos) {
            Some(other) => !self.actors[id as int].state.dead && !other.state.dead,
            None => false,
        }
    }

    /// the map after actor `id` moved to `new_pos`: it's referenced
    /// there if alive, and not anymore at its previous position
    pub open spec fn with_moved(self, id: ActorId, new_pos: Pos) -> ActorMapModel {
        let actor = self.actors[id as int];
        let refs = self.refs.remove(actor.pos);
        ActorMapModel {
            actors: self.actors.update(id as int, Actor { pos: new_pos, ..actor }),
            refs: if actor.state.dead { refs } else { refs.insert(new_pos, id) },
        }
    }

    /// the map after the lapin moved to `dest`
    pub open spec fn with_lapin_at(self, dest: Pos) -> ActorMapModel {
        ActorMapModel {
            actors: self.actors.update(0, Actor { pos: dest, ..self.actors[0] }),
            refs: self.refs.remove(self.actors[0].pos).insert(dest, 0usize),
        }
    }

    /// the map after the actor was added (with the next id)
    pub open spec fn with_added(self, actor: Actor) -> ActorMapModel {
        ActorMapModel {
            actors: self.actors.push(actor),
            refs: self.refs.insert(actor.pos, self.actors.len() as usize),
        }
    }

    /// the map after removal of actor `id`: the last actor takes its id.
    /// The lapin (id 0) isn't removed.
    pub open spec fn without(self, id: ActorId) -> ActorMapModel {
        let last = self.actors.len() - 1;
        let refs = self.refs.remove(self.actors[id as int].pos);
        if id == 0 {
            self
        } else if id == last {
            ActorMapModel { actors: self.actors.drop_last(), refs }
        } else {
            ActorMapModel {
                actors: self.actors.update(id as int, self.actors[last]).drop_last(),
                refs: refs.insert(self.actors[last].pos, id),
            }
        }
    }

    /// the map after removal of the dead actors (the lapin excepted),
    /// all actors being referenced again; unchanged when there's none
    pub open spec fn purged_of_dead(self) -> ActorMapModel {
        if has_dead_non_lapin(self.actors) {
            ActorMapModel { actors: purged(self.actors), refs: rebuild_refs(purged(self.actors)) }
        } else {
            self
        }
    }
}

/// the references built by referencing each actor at its position
/// in order: when several actors share a position, the last one wins
pub open spec fn rebuild_refs(actors: Seq<Actor>) -> Map<Pos, usize>
    decreases actors.len(),
{
    if actors.len() == 0 {
        Map::empty()
    } else {
        rebuild_refs(actors.drop_last()).insert(actors.last().pos, (actors.len() - 1) as usize)
    }
}

/// the actors which aren't dead, in the same order
pub open spec fn without_dead(actors: Seq<Actor>) -> Seq<Actor>
    decreases actors.len(),
{
    if actors.len() == 0 {
        Seq::empty()
    } else {
        let rest = without_dead(actors.drop_first());
        if actors[0].state.dead {
            rest
        } else {
            seq![actors[0]] + rest
        }
    }
}

/// whether some actor after the lapin is dead
pub open spec fn has_dead_non_lapin(actors: Seq<Actor>) -> bool {
    exists|i: int| 1 <= i < actors.len() && #[trigger] actors[i].state.dead
}

/// the actors after removal of the dead ones, the lapin excepted
pub open spec fn purged(actors: Seq<Actor>) -> Seq<Actor> {
    seq![actors[0]] + without_dead(actors.subrange(1, actors.len() as int))
}

/// the references of a map of actor references
pub open spec fn refs_of(m: PosMap<ActorRef>) -> Map<Pos, usize> {
    Map::new(|p: Pos| m.at(p)@ is Some, |p: Pos| m.at(p)@->0)
}

/// Referencing the actors at their positions, in order, only references
/// actors standing where they're referenced.
pub proof fn lemma_rebuild_refs_sound(actors: Seq<Actor>)
    requires
        actors.len() <= usize::MAX,
    ensures
        forall|p: Pos|
            #[trigger] rebuild_refs(actors).contains_key(p) ==> {
                &&& rebuild_refs(actors)[p] < actors.len()
                &&& actors[rebuild_refs(actors)[p] as int].pos == p
            },
    decreases actors.len(),
{
    if actors.len() > 0 {
        let prev = actors.drop_last();
        lemma_rebuild_refs_sound(prev);
        assert forall|p: Pos| #[trigger] rebuild_refs(actors).contains_key(p) implies {
            &&& rebuild_refs(actors)[p] < actors.len()
            &&& actors[rebuild_refs(actors)[p] as int].pos == p
        } by {
            assert(rebuild_refs(actors) == rebuild_refs(prev).insert(actors.last().pos, (actors.len() - 1) as usize));
            if p != actors.last().pos {
                assert(rebuild_refs(prev).contains_key(p));
                assert(actors[rebuild_refs(prev)[p] as int] == prev[rebuild_refs(prev)[p] as int]);
            }
        }
    }
}

/// An actor can't be added where a living actor stands: adding it is
/// refused for its position exactly when a living actor holds that
/// position, and, while ids are left, that's the only refusal.
pub proof fn lemma_add_refused_iff_has_pos(
    before: ActorMapModel,
    after: ActorMapModel,
    actor: Actor,
    r: Result<ActorRef, ActorMapError>,
)
    requires
        ActorMap::added(before, after, actor, r),
    ensures
        (r matches Err(ActorMapError::Occupied(_))) <==> before.has_pos(actor.pos),
        before.actors.len() + 1 < usize::MAX ==> (r is Err <==> before.has_pos(actor.pos)),
        r is Err ==> after == before,
{
}

/// Removing the dead actors leaves no dead one and never lengthens the list.
pub proof fn lemma_without_dead_len(actors: Seq<Actor>)
    ensures
        without_dead(actors).len() <= actors.len(),
        forall|i: int| 0 <= i < without_dead(actors).len() ==> !(#[trigger] without_dead(actors)[i]).state.dead,
    decreases actors.len(),
{
    if actors.len() > 0 {
        lemma_without_dead_len(actors.drop_first());
    }
}

proof fn lemma_without_dead_none(actors: Seq<Actor>)
    requires
        forall|i: int| 0 <= i < actors.len() ==> !(#[trigger] actors[i]).state.dead,
    ensures
        without_dead(actors) == actors,
    decreases actors.len(),
{
    if actors.len() > 0 {
        lemma_without_dead_none(actors.drop_first());
        assert(seq![actors[0]] + actors.drop_first() =~= actors);
    }
}

/// opaque structure keeping all actors.
/// It ensures consistency (of position) by not allowing direct
/// access to the actors.
pub struct ActorMap {
    actors: Vec<Actor>,
    ref_pos_map: PosMap<ActorRef>,
}

impl Clone for ActorMap {
    /// a copy, holding the same actors and references
    fn clone(&self) -> (r: Self)
        ensures
            r@ == self@,
            self.wf() ==> r.wf(),
    {
        let mut actors: Vec<Actor> = Vec::new();
        let mut i: usize = 0;
        while i < self.actors.len()
            invariant
                i <= self.actors@.len(),
                actors@ == self.actors@.subrange(0, i as int),
            decreases self.actors@.len() - i,
        {
            actors.push(self.actors[i]);
            i += 1;
        }
        assert(actors@ =~= self.actors@);
        let r = ActorMap { actors, ref_pos_map: self.ref_pos_map.clone() };
        assert(r@.refs =~= self@.refs);
        r
    }
}

impl View for ActorMap {
    type V = ActorMapModel;

    closed spec fn view(&self) -> ActorMapModel {
        ActorMapModel { actors: self.actors@, refs: refs_of(self.ref_pos_map) }
    }
}

impl ActorMap {
    pub open spec fn wf(&self) -> bool {
        &&& self.refs_ok()
        &&& self@.sound()
    }

    /// the inner reference map is well formed and references nothing by default
    pub closed spec fn refs_ok(&self) -> bool {
        &&& self.ref_pos_map.wf()
        &&& self.ref_pos_map.dflt()@ is None
    }

    /// reference the actor `id` at `pos`
    fn set_ref(&mut self, pos: Pos, id: ActorId)
        requires
            old(self).refs_ok(),
            id < usize::MAX,
        ensures
            final(self).refs_ok(),
            final(self)@.actors == old(self)@.actors,
            final(self)@.refs == old(self)@.refs.insert(pos, id),
    {
        self.ref_pos_map.set(pos, ActorRef::from_id(id));
        assert(self@.refs =~= old(self)@.refs.insert(pos, id));
    }

    /// remove the reference at `pos`
    fn unset_ref(&mut self, pos: Pos)
        requires
            old(self).refs_ok(),
        ensures
            final(self).refs_ok(),
            final(self)@.actors == old(self)@.actors,
            final(self)@.refs == old(self)@.refs.remove(pos),
    {
        self.ref_pos_map.unset(pos);
        assert(self@.refs =~= old(self)@.refs.remove(pos));
    }

    /// reference all actors, in order, at their position (the area
    /// is only an indication). The map is well formed when there's an
    /// actor, the first one being the lapin.
    pub fn new(area: PosArea, actors: Vec<Actor>) -> (m: ActorMap)
        requires
            actors@.len() < usize::MAX,
        ensures
            m.refs_ok(),
            1 <= actors@.len() ==> m.wf(),
            m@.actors == actors@,
            m@.refs == rebuild_refs(actors@),
    {
        let ref_pos_map = PosMap::new(ActorRef::none());
        let mut m = ActorMap { actors, ref_pos_map };
        assert(m@.refs =~= Map::<Pos, usize>::empty());
        m.rebuild();
        m
    }

    /// a map with only a lapin, in (0, 0)
    pub fn from_area(area: PosArea) -> (m: ActorMap)
        ensures
            m.wf(),
            m@.actors == seq![Actor::new_spec(ActorKind::Lapin, Pos { x: 0, y: 0 })],
            m@.refs == Map::<Pos, usize>::empty().insert(Pos { x: 0, y: 0 }, 0usize),
    {
        let lapin = Actor::new(ActorKind::Lapin, 0, 0);
        let mut actors = Vec::new();
        actors.push(lapin);
        let mut m = ActorMap { actors, ref_pos_map: PosMap::new(ActorRef::none()) };
        assert(m@.refs =~= Map::<Pos, usize>::empty());
        m.set_ref(lapin.pos, 0);
        m
    }

    /// reference again all actors at their position, dropping
    /// the previous references
    fn rebuild(&mut self)
        requires
            old(self).refs_ok(),
            old(self)@.actors.len() < usize::MAX,
        ensures
            final(self).refs_ok(),
            1 <= old(self)@.actors.len() ==> final(self).wf(),
            final(self)@.actors == old(self)@.actors,
            final(self)@.refs == rebuild_refs(old(self)@.actors),
    {
        self.ref_pos_map.clear();
        assert(self@.refs =~= Map::<Pos, usize>::empty());
        let mut i: usize = 0;
        while i < self.actors.len()
            invariant
                self.refs_ok(),
                self@.actors == old(self)@.actors,
                self@.actors.len() < usize::MAX,
                i <= self@.actors.len(),
                self@.refs == rebuild_refs(self@.actors.take(i as int)),
            decreases self@.actors.len() - i,
        {
            let pos = self.actors[i].pos;
            self.set_ref(pos, i);
            assert(self@.actors.take(i + 1).drop_last() =~= self@.actors.take(i as int));
            i += 1;
        }
        assert(self@.actors.take(i as int) =~= self@.actors);
        proof {
            lemma_rebuild_refs_sound(self@.actors);
        }
    }

    /// what adding the actor does: it's refused when its position is
    /// taken by a living actor (or there's no id left), otherwise the actor
    /// is added with the next id, which the reference returned gives
    pub open spec fn added(
        before: ActorMapModel,
        after: ActorMapModel,
        actor: Actor,
        r: Result<ActorRef, ActorMapError>,
    ) -> bool {
        match r {
                Ok(ar) => {
                    &&& !before.has_pos(actor.pos)
                    &&& before.actors.len() + 1 < usize::MAX
                    &&& ar@ == Some(before.actors.len() as usize)
                    &&& after == before.with_added(actor)
                },
                Err(ActorMapError::Occupied(kind)) => {
                    &&& before.has_pos(actor.pos)
                    &&& before.by_pos(actor.pos) matches Some(a) && a.kind == kind
                    &&& after == before
                },
                Err(ActorMapError::TooManyActors) => {
                    &&& !before.has_pos(actor.pos)
                    &&& before.actors.len() + 1 >= usize::MAX
                    &&& after == before
                },
            }
    }

    /// add an actor, unless its position is taken by a living actor
    pub fn add(&mut self, actor: Actor) -> (r: Result<ActorRef, ActorMapError>)
        requires
            old(self).wf(),
        ensures
            final(self).wf(),
            Self::added(old(self)@, final(self)@, actor, r),
    {
        if let Some(other) = self.by_pos(actor.pos) {
            if !other.state.dead {
                return Err(ActorMapError::Occupied(other.kind));
            }
        }
        if self.actors.len() >= usize::MAX - 1 {
            return Err(ActorMapError::TooManyActors);
        }
        let id = self.actors.len();
        let ar = ActorRef::from_id(id);
        self.actors.push(actor);
        self.set_ref(actor.pos, id);
        Ok(ar)
    }

    pub fn ref_by_pos(&self, pos: Pos) -> (r: ActorRef)
        requires
            self.wf(),
        ensures
            r@ == (if self@.refs.contains_key(pos) { Some(self@.refs[pos]) } else { None }),
    {
        self.ref_pos_map.get(pos)
    }

    pub fn id_actor_by_pos(&self, pos: Pos) -> (r: Option<(ActorId, Actor)>)
        requires
            self.wf(),
        ensures
            r == (if self@.refs.contains_key(pos) {
                Some((self@.refs[pos], self@.actors[self@.refs[pos] as int]))
            } else {
                None
            }),
    {
        match self.ref_pos_map.get(pos).id() {
            Some(id) => {
                assert(self@.refs.contains_key(pos));
                Some((id, self.actors[id]))
            },
            None => None,
        }
    }

    pub fn by_pos(&self, pos: Pos) -> (r: Option<Actor>)
        requires
            self.wf(),
        ensures
            r == self@.by_pos(pos),
    {
        self.by_ref(self.ref_pos_map.get(pos))
    }

    pub fn by_ref(&self, ar: ActorRef) -> (r: Option<Actor>)
        requires
            self.wf(),
            ar@ matches Some(id) ==> id < self@.actors.len(),
        ensures
            r == (match ar@ {
                Some(id) => Some(self@.actors[id as int]),
                None => None,
            }),
    {
        match ar.id() {
            Some(idx) => Some(self.actors[idx]),
            None => None,
        }
    }

    pub fn by_id(&self, id: ActorId) -> (a: Actor)
        requires
            self.wf(),
            id < self@.actors.len(),
        ensures
            a == self@.actors[id as int],
    {
        self.actors[id]
    }

    /// whether a living actor is at the position
    pub fn has_pos(&self, pos: Pos) -> (b: bool)
        requires
            self.wf(),
        ensures
            b == self@.has_pos(pos),
    {
        match self.by_pos(pos) {
            Some(a) => !a.state.dead,
            None => false,
        }
    }

    /// change the state of an actor (the state doesn't change
    /// the references)
    pub fn set_state_by_id(&mut self, id: ActorId, state: ActorState)
        requires
            old(self).wf(),
            id < old(self)@.actors.len(),
        ensures
            final(self).wf(),
            final(self)@ == old(self)@.with_state(id, state),
    {
        let mut actor = self.actors[id];
        actor.state = state;
        self.actors.set(id, actor);
    }

    pub fn lapin(&self) -> (a: Actor)
        requires
            self.wf(),
        ensures
            a == self@.actors[0],
    {
        self.actors[0]
    }

    /// move the lapin (dropping whatever was referenced at the destination)
    pub fn move_lapin_to(&mut self, dest: Pos)
        requires
            old(self).wf(),
        ensures
            final(self).wf(),
            final(self)@ == old(self)@.with_lapin_at(dest),
    {
        let mut lapin = self.actors[0];
        self.unset_ref(lapin.pos);
        lapin.pos = dest;
        self.actors.set(0, lapin);
        self.set_ref(dest, 0);
    }

    /// move the actor in the given direction
    pub fn move_by_id_in_dir(&mut self, id: ActorId, dir: Dir) -> (r: Result<(), ActorMapError>)
        requires
            old(self).wf(),
            id < old(self)@.actors.len(),
            old(self)@.actors[id as int].pos.can_step(dir),
        ensures
            final(self).wf(),
            Self::moved(old(self)@, final(self)@, id, old(self)@.actors[id as int].pos.step(dir), r),
    {
        let new_pos = self.actors[id].pos.in_dir(dir);
        self.move_by_id_to_pos(id, new_pos)
    }

    /// what moving actor `id` to `new_pos` does: it's refused when
    /// blocked, otherwise the actor moves
    pub open spec fn moved(
        before: ActorMapModel,
        after: ActorMapModel,
        id: ActorId,
        new_pos: Pos,
        r: Result<(), ActorMapError>,
    ) -> bool {
        if before.blocks(id, new_pos) {
            &&& r == Err::<(), ActorMapError>(ActorMapError::Occupied(before.by_pos(new_pos)->0.kind))
            &&& after == before
        } else {
            &&& r is Ok
            &&& after == before.with_moved(id, new_pos)
        }
    }

    /// move the actor to the new position.
    /// If there's already one actor in new_pos, one of them must
    /// be dead, or the move is prevented and an error is returned.
    pub fn move_by_id_to_pos(&mut self, id: ActorId, new_pos: Pos) -> (r: Result<(), ActorMapError>)
        requires
            old(self).wf(),
            id < old(self)@.actors.len(),
        ensures
            final(self).wf(),
            Self::moved(old(self)@, final(self)@, id, new_pos, r),
    {
        if let Some(actor) = self.by_pos(new_pos) {
            if !self.actors[id].state.dead && !actor.state.dead {
                return Err(ActorMapError::Occupied(actor.kind));
            }
        }
        let mut actor = self.actors[id];
        self.unset_ref(actor.pos);
        actor.pos = new_pos;
        self.actors.set(id, actor);
        if !actor.state.dead {
            self.set_ref(new_pos, id);
        }
        Ok(())
    }

    /// all the actors, the lapin first
    pub fn iter(&self) -> (s: &[Actor])
        requires
            self.wf(),
        ensures
            s@ == self@.actors,
    {
        self.actors.as_slice()
    }

    pub fn len(&self) -> (n: usize)
        requires
            self.wf(),
        ensures
            n == self@.actors.len(),
    {
        self.actors.len()
    }

    /// the ids of all actors but the lapin
    pub fn ai_actor_ids(&self) -> (r: core::ops::Range<ActorId>)
        requires
            self.wf(),
        ensures
            r.start == 1,
            r.end == self@.actors.len(),
    {
        1..self.actors.len()
    }

    /// remove the actor. The lapin (id 0) can't be removed.
    /// The last actor takes the id of the removed one.
    pub fn remove_by_id(&mut self, id: ActorId)
        requires
            old(self).wf(),
            id < old(self)@.actors.len(),
        ensures
            final(self).wf(),
            final(self)@ == old(self)@.without(id),
    {
        if id == 0 {
            return;
        }
        let ghost before = self@;
        let actor = self.actors[id];
        self.unset_ref(actor.pos);
        let ghost mid = self@.refs;
        self.actors.swap_remove(id);
        if id < self.actors.len() {
            let moved = self.actors[id];
            self.set_ref(moved.pos, id);
        }
        proof {
            let last = before.actors.len() - 1;
            if id == last {
                assert(self@.actors =~= before.actors.drop_last());
            }
            assert forall|p: Pos| #[trigger] self@.refs.contains_key(p) implies {
                &&& self@.refs[p] < self@.actors.len()
                &&& self@.actors[self@.refs[p] as int].pos == p
            } by {
                if id < self@.actors.len() && p == self@.actors[id as int].pos {
                } else {
                    assert(mid.contains_key(p));
                    let k = before.refs[p];
                    assert(before.refs.contains_key(p));
                    assert(k != id);
                    if k == last {
                        assert(before.actors[last].pos == p);
                        assert(self@.actors[id as int] == before.actors[last]);
                        assert(false);
                    }
                }
            }
        }
    }

    /// remove the actor referenced at pos, if any.
    /// Note that existing ActorIds aren't valid anymore after this change.
    pub fn remove_by_pos(&mut self, pos: Pos)
        requires
            old(self).wf(),
        ensures
            final(self).wf(),
            if old(self)@.refs.contains_key(pos) {
                final(self)@ == old(self)@.without(old(self)@.refs[pos])
            } else {
                final(self)@ == old(self)@
            },
    {
        if let Some(id) = self.ref_by_pos(pos).id() {
            self.remove_by_id(id);
        }
    }

    /// remove the dead actors (but the lapin, which is needed to
    /// position the screen) and reference the others again.
    /// Note that existing ActorIds aren't valid anymore after this change.
    pub fn remove_dead(&mut self)
        requires
            old(self).wf(),
        ensures
            final(self).wf(),
            final(self)@ == old(self)@.purged_of_dead(),
    {
        let ghost orig = self@.actors;
        let mut i: usize = self.actors.len() - 1;
        let mut nb_removed: usize = 0;
        while i > 0
            invariant
                self.refs_ok(),
                self@.refs == old(self)@.refs,
                orig == old(self)@.actors,
                1 <= orig.len() < usize::MAX,
                i < orig.len(),
                self@.actors == orig.subrange(0, i as int + 1) + without_dead(orig.subrange(i as int + 1, orig.len() as int)),
                nb_removed <= orig.len() - 1 - i,
                (nb_removed == 0) == (forall|k: int| i < k < orig.len() ==> !(#[trigger] orig[k]).state.dead),
            decreases i,
        {
            let ghost suffix = orig.subrange(i as int + 1, orig.len() as int);
            let ghost longer = orig.subrange(i as int, orig.len() as int);
            assert(longer.drop_first() =~= suffix);
            assert(longer[0] == orig[i as int]);
            if self.actors[i].state.dead {
                self.actors.remove(i);
                nb_removed += 1;
                assert(self@.actors =~= orig.subrange(0, i as int) + without_dead(longer));
            } else {
                assert(self@.actors =~= orig.subrange(0, i as int) + without_dead(longer));
            }
            i -= 1;
        }
        assert(orig.subrange(0, 1) =~= seq![orig[0]]);
        assert(self@.actors == purged(orig));
        if nb_removed > 0 {
            proof {
                lemma_without_dead_len(orig.subrange(1, orig.len() as int));
            }
            self.rebuild();
        } else {
            proof {
                lemma_without_dead_none(orig.subrange(1, orig.len() as int));
                assert(self@.actors =~= orig);
            }
        }
    }

    /// the actors (consuming the map)
    pub fn to_vec(self) -> (v: Vec<Actor>)
        requires
            self.wf(),
        ensures
            v@ == self@.actors,
    {
        self.actors
    }

    /// a copy of the actors
    pub fn vec(&self) -> (v: Vec<Actor>)
        requires
            self.wf(),
        ensures
            v@ == self@.actors,
    {
        let mut v: Vec<Actor> = Vec::new();
        let mut i: usize = 0;
        while i < self.actors.len()
            invariant
                i <= self.actors@.len(),
                v@ == self.actors@.subrange(0, i as int),
            decreases self.actors@.len() - i,
        {
            v.push(self.actors[i]);
            i += 1;
        }
        assert(v@ =~= self.actors@);
        v
    }
}

} // verus!
