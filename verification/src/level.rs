//! The description of a level, for (de)serialization and edition.

use vstd::prelude::*;
use crate::actor::{Actor, ActorKind};
use crate::item::Item;
use crate::board::{Board, BoardModel, Player};
use crate::pos_map::{set_all, set_all_some};
use crate::pos::{Located, Pos, PosArea};
use crate::terrain::Terrain;

verus! {

/// the description of a level for (de)serialization
/// and edition (but not game nor edition)
#[derive(Debug)]
pub struct Level {
    pub name: String,
    pub default_terrain: Terrain,
    pub terrains: Vec<Located<Terrain>>,
    /// actors[0] must be the lapin
    pub actors: Vec<Actor>,
    pub items: Vec<Located<Item>>,
}

impl Default for Level {
    /// an unnamed muddy level with only the lapin, at (0, 0)
    fn default() -> (l: Self)
        ensures
            l.name@ == Seq::<char>::empty(),
            l.default_terrain == Terrain::Mud,
            l.terrains@ == Seq::<Located<Terrain>>::empty(),
            l.actors@ == seq![Actor::new_spec(ActorKind::Lapin, crate::pos::Pos { x: 0, y: 0 })],
            l.items@ == Seq::<Located<Item>>::empty(),
    {
        let mut actors = Vec::new();
        actors.push(Actor::new(ActorKind::Lapin, 0, 0));
        Level {
            name: String::new(),
            default_terrain: Terrain::Mud,
            terrains: Vec::new(),
            actors,
            items: Vec::new(),
        }
    }
}

impl Level {
    /// whether the level can be played: it has a first actor and
    /// the number of actors leaves room for ids
    pub open spec fn playable(&self) -> bool {
        1 <= self.actors@.len() < usize::MAX
    }

    /// a copy of the level
    pub fn duplicate(&self) -> (l: Level)
        ensures
            l.name@ == self.name@,
            l.default_terrain == self.default_terrain,
            l.terrains@ == self.terrains@,
            l.actors@ == self.actors@,
            l.items@ == self.items@,
    {
        Level {
            name: self.name.clone(),
            default_terrain: self.default_terrain,
            terrains: copy_vec(&self.terrains),
            actors: copy_vec(&self.actors),
            items: copy_vec(&self.items),
        }
    }
}

/// `s` enumerates, each once, the positions where the map holds a value
/// different from `skip`, with that value
pub open spec fn enumerates_except<T>(m: Map<Pos, T>, skip: T, s: Seq<Located<T>>) -> bool {
    &&& forall|i: int|
        0 <= i < s.len() ==> {
            &&& m.contains_key(#[trigger] s[i].pos)
            &&& m[s[i].pos] == s[i].v
            &&& s[i].v != skip
        }
    &&& forall|p: Pos|
        #[trigger] m.contains_key(p) && m[p] != skip ==> exists|i: int| 0 <= i < s.len() && #[trigger] s[i].pos == p
    &&& forall|i: int, j: int| 0 <= i < s.len() && 0 <= j < s.len() && i != j ==> #[trigger] s[i].pos != #[trigger] s[j].pos
}

/// `s` enumerates, each once, the positions where the map holds some
/// item, with that item
pub open spec fn enumerates_some<T>(m: Map<Pos, Option<T>>, s: Seq<Located<T>>) -> bool {
    &&& forall|i: int|
        0 <= i < s.len() ==> {
            &&& m.contains_key(#[trigger] s[i].pos)
            &&& m[s[i].pos] == Some(s[i].v)
        }
    &&& forall|p: Pos|
        #[trigger] m.contains_key(p) && m[p] is Some ==> exists|i: int| 0 <= i < s.len() && #[trigger] s[i].pos == p
    &&& forall|i: int, j: int| 0 <= i < s.len() && 0 <= j < s.len() && i != j ==> #[trigger] s[i].pos != #[trigger] s[j].pos
}

impl Level {
    /// the level describing the board: its name, default terrain and
    /// actors, the terrains which aren't the default one and the items
    pub fn from_board(board: &Board) -> (l: Level)
        requires
            board.wf(),
        ensures
            l.name@ == board@.name,
            l.default_terrain == board@.default_terrain,
            l.actors@ == board@.actors.actors,
            enumerates_except(board@.terrains, board@.default_terrain, l.terrains@),
            enumerates_some(board@.items, l.items@),
    {
        let default_terrain = board.terrains.default_value();
        let all_terrains = board.terrains.entries();
        let mut terrains: Vec<Located<Terrain>> = Vec::new();
        let ghost mut idx: Seq<int> = Seq::empty();
        let mut i: usize = 0;
        while i < all_terrains.len()
            invariant
                i <= all_terrains@.len(),
                board.terrains.enumerated_by(all_terrains@),
                default_terrain == board@.default_terrain,
                idx.len() == terrains@.len(),
                forall|k: int|
                    0 <= k < terrains@.len() ==> {
                        &&& 0 <= idx[k] < i
                        &&& terrains@[k] == all_terrains@[idx[k]]
                        &&& (#[trigger] terrains@[k]).v != default_terrain
                    },
                forall|a: int, b: int| 0 <= a < b < idx.len() ==> idx[a] < idx[b],
                forall|m: int|
                    0 <= m < i && (#[trigger] all_terrains@[m]).v != default_terrain ==> exists|k: int|
                        0 <= k < idx.len() && idx[k] == m,
            decreases all_terrains@.len() - i,
        {
            let lc = all_terrains[i];
            let ghost idx0 = idx;
            if lc.v != default_terrain {
                let ghost prev = terrains@;
                let ghost prev_idx = idx;
                terrains.push(lc);
                proof {
                    idx = idx.push(i as int);
                    assert forall|k: int| 0 <= k < terrains@.len() implies {
                        &&& 0 <= idx[k] < i + 1
                        &&& terrains@[k] == all_terrains@[idx[k]]
                        &&& (#[trigger] terrains@[k]).v != default_terrain
                    } by {
                        if k < prev.len() {
                            assert(terrains@[k] == prev[k]);
                            assert(idx[k] == prev_idx[k]);
                        }
                    }
                    assert forall|a: int, b: int| 0 <= a < b < idx.len() implies idx[a] < idx[b] by {
                        assert(idx[a] == prev_idx[a]);
                        if b < prev_idx.len() {
                            assert(idx[b] == prev_idx[b]);
                        } else {
                            assert(terrains@[a] == prev[a]);
                        }
                    }
                }
            }
            proof {
                assert forall|m: int|
                    0 <= m < i + 1 && (#[trigger] all_terrains@[m]).v != default_terrain implies exists|k: int|
                    0 <= k < idx.len() && idx[k] == m by {
                    if m == i {
                        assert(idx[idx.len() - 1] == m);
                    } else {
                        let k = choose|k: int| 0 <= k < idx0.len() && idx0[k] == m;
                        assert(idx[k] == m);
                    }
                }
            }
            i += 1;
        }
        proof {
            assert forall|k: int| 0 <= k < terrains@.len() implies {
                &&& board@.terrains.contains_key(#[trigger] terrains@[k].pos)
                &&& board@.terrains[terrains@[k].pos] == terrains@[k].v
                &&& terrains@[k].v != default_terrain
            } by {
                assert(terrains@[k] == all_terrains@[idx[k]]);
                assert(board@.terrains.contains_key(all_terrains@[idx[k]].pos));
            }
            assert forall|p: Pos| #[trigger] board@.terrains.contains_key(p) && board@.terrains[p] != default_terrain implies exists|
                k: int,
            | 0 <= k < terrains@.len() && #[trigger] terrains@[k].pos == p by {
                let m = choose|m: int| 0 <= m < all_terrains@.len() && #[trigger] all_terrains@[m].pos == p;
                assert(all_terrains@[m].v != default_terrain);
                let k = choose|k: int| 0 <= k < idx.len() && idx[k] == m;
                assert(terrains@[k].pos == p);
            }
            assert forall|a: int, b: int|
                0 <= a < terrains@.len() && 0 <= b < terrains@.len() && a != b implies #[trigger] terrains@[a].pos
                != #[trigger] terrains@[b].pos by {
                assert(terrains@[a] == all_terrains@[idx[a]]);
                assert(terrains@[b] == all_terrains@[idx[b]]);
                if a < b {
                    assert(idx[a] < idx[b]);
                } else {
                    assert(idx[b] < idx[a]);
                }
                assert(all_terrains@[idx[a]].pos != all_terrains@[idx[b]].pos);
            }
        }
        let all_items = board.items.entries();
        let mut kept: Vec<Located<Option<Item>>> = Vec::new();
        let ghost mut jdx: Seq<int> = Seq::empty();
        let mut j: usize = 0;
        while j < all_items.len()
            invariant
                j <= all_items@.len(),
                board.items.enumerated_by(all_items@),
                jdx.len() == kept@.len(),
                forall|k: int|
                    0 <= k < kept@.len() ==> {
                        &&& 0 <= jdx[k] < j
                        &&& kept@[k] == all_items@[jdx[k]]
                        &&& (#[trigger] kept@[k]).v is Some
                    },
                forall|a: int, b: int| 0 <= a < b < jdx.len() ==> jdx[a] < jdx[b],
                forall|m: int|
                    0 <= m < j && (#[trigger] all_items@[m]).v is Some ==> exists|k: int| 0 <= k < jdx.len() && jdx[k] == m,
            decreases all_items@.len() - j,
        {
            let lc = all_items[j];
            let ghost jdx0 = jdx;
            if lc.v.is_some() {
                let ghost prev = kept@;
                let ghost prev_jdx = jdx;
                kept.push(lc);
                proof {
                    jdx = jdx.push(j as int);
                    assert forall|k: int| 0 <= k < kept@.len() implies {
                        &&& 0 <= jdx[k] < j + 1
                        &&& kept@[k] == all_items@[jdx[k]]
                        &&& (#[trigger] kept@[k]).v is Some
                    } by {
                        if k < prev.len() {
                            assert(kept@[k] == prev[k]);
                            assert(jdx[k] == prev_jdx[k]);
                        }
                    }
                    assert forall|a: int, b: int| 0 <= a < b < jdx.len() implies jdx[a] < jdx[b] by {
                        assert(jdx[a] == prev_jdx[a]);
                        if b < prev_jdx.len() {
                            assert(jdx[b] == prev_jdx[b]);
                        } else {
                            assert(kept@[a] == prev[a]);
                        }
                    }
                }
            }
            proof {
                assert forall|m: int|
                    0 <= m < j + 1 && (#[trigger] all_items@[m]).v is Some implies exists|k: int|
                    0 <= k < jdx.len() && jdx[k] == m by {
                    if m == j {
                        assert(jdx[jdx.len() - 1] == m);
                    } else {
                        let k = choose|k: int| 0 <= k < jdx0.len() && jdx0[k] == m;
                        assert(jdx[k] == m);
                    }
                }
            }
            j += 1;
        }
        let mut items: Vec<Located<Item>> = Vec::new();
        let mut k: usize = 0;
        while k < kept.len()
            invariant
                k <= kept@.len(),
                forall|m: int| 0 <= m < kept@.len() ==> (#[trigger] kept@[m]).v is Some,
                items@.len() == k,
                forall|m: int|
                    0 <= m < k ==> #[trigger] items@[m] == (Located { pos: kept@[m].pos, v: kept@[m].v->0 }),
            decreases kept@.len() - k,
        {
            let lc = kept[k];
            assert(lc.v is Some);
            items.push(Located { pos: lc.pos, v: lc.v.unwrap() });
            k += 1;
        }
        proof {
            assert forall|k: int| 0 <= k < items@.len() implies {
                &&& board@.items.contains_key(#[trigger] items@[k].pos)
                &&& board@.items[items@[k].pos] == Some(items@[k].v)
            } by {
                assert(kept@[k] == all_items@[jdx[k]]);
                assert(board@.items.contains_key(all_items@[jdx[k]].pos));
            }
            assert forall|p: Pos| #[trigger] board@.items.contains_key(p) && board@.items[p] is Some implies exists|
                k: int,
            | 0 <= k < items@.len() && #[trigger] items@[k].pos == p by {
                let m = choose|m: int| 0 <= m < all_items@.len() && #[trigger] all_items@[m].pos == p;
                assert(all_items@[m].v is Some);
                let k = choose|k: int| 0 <= k < jdx.len() && jdx[k] == m;
                assert(kept@[k] == all_items@[jdx[k]]);
                assert(items@[k].pos == p);
            }
            assert forall|a: int, b: int|
                0 <= a < items@.len() && 0 <= b < items@.len() && a != b implies #[trigger] items@[a].pos
                != #[trigger] items@[b].pos by {
                assert(kept@[a] == all_items@[jdx[a]]);
                assert(kept@[b] == all_items@[jdx[b]]);
                if a < b {
                    assert(jdx[a] < jdx[b]);
                } else {
                    assert(jdx[b] < jdx[a]);
                }
                assert(all_items@[jdx[a]].pos != all_items@[jdx[b]].pos);
            }
        }
        Level { name: board.name.clone(), default_terrain, terrains, actors: board.actors.vec(), items }
    }
}

/// a copy of a vector of copyable values
pub fn copy_vec<T: Copy>(v: &Vec<T>) -> (r: Vec<T>)
    ensures
        r@ == v@,
{
    let mut r: Vec<T> = Vec::new();
    let mut i: usize = 0;
    while i < v.len()
        invariant
            i <= v@.len(),
            r@ == v@.subrange(0, i as int),
        decreases v@.len() - i,
    {
        r.push(v[i]);
        i += 1;
    }
    assert(r@ =~= v@);
    r
}

/// positions of `s` are all different
pub open spec fn distinct_positions<T>(s: Seq<Located<T>>) -> bool {
    forall|i: int, j: int| 0 <= i < s.len() && 0 <= j < s.len() && i != j ==> #[trigger] s[i].pos != #[trigger] s[j].pos
}

proof fn lemma_set_all_distinct<T>(s: Seq<Located<T>>, p: Pos)
    requires
        distinct_positions(s),
    ensures
        set_all(Map::<Pos, T>::empty(), s).contains_key(p) <==> exists|i: int| 0 <= i < s.len() && #[trigger] s[i].pos == p,
        forall|i: int| 0 <= i < s.len() && #[trigger] s[i].pos == p ==> set_all(Map::<Pos, T>::empty(), s)[p] == s[i].v,
    decreases s.len(),
{
    if s.len() > 0 {
        let init = s.drop_last();
        assert forall|i: int, j: int| 0 <= i < init.len() && 0 <= j < init.len() && i != j implies #[trigger] init[i].pos
            != #[trigger] init[j].pos by {
            assert(init[i] == s[i] && init[j] == s[j]);
        }
        lemma_set_all_distinct(init, p);
        if set_all(Map::<Pos, T>::empty(), s).contains_key(p) {
            if p == s.last().pos {
                assert(s[s.len() - 1].pos == p);
            } else {
                let i = choose|i: int| 0 <= i < init.len() && #[trigger] init[i].pos == p;
                assert(s[i].pos == p);
            }
        }
        assert forall|i: int| 0 <= i < s.len() && #[trigger] s[i].pos == p implies set_all(Map::<Pos, T>::empty(), s).contains_key(p)
            && set_all(Map::<Pos, T>::empty(), s)[p] == s[i].v by {
            if i < s.len() - 1 {
                assert(init[i] == s[i]);
                assert(s[i].pos != s[s.len() - 1].pos);
            }
        }
    }
}

proof fn lemma_set_all_some_distinct<T>(s: Seq<Located<T>>, p: Pos)
    requires
        distinct_positions(s),
    ensures
        set_all_some(Map::<Pos, Option<T>>::empty(), s).contains_key(p) <==> exists|i: int| 0 <= i < s.len() && #[trigger] s[i].pos == p,
        forall|i: int| 0 <= i < s.len() && #[trigger] s[i].pos == p ==> set_all_some(Map::<Pos, Option<T>>::empty(), s)[p] == Some(s[i].v),
    decreases s.len(),
{
    if s.len() > 0 {
        let init = s.drop_last();
        assert forall|i: int, j: int| 0 <= i < init.len() && 0 <= j < init.len() && i != j implies #[trigger] init[i].pos
            != #[trigger] init[j].pos by {
            assert(init[i] == s[i] && init[j] == s[j]);
        }
        lemma_set_all_some_distinct(init, p);
        if set_all_some(Map::<Pos, Option<T>>::empty(), s).contains_key(p) {
            if p == s.last().pos {
                assert(s[s.len() - 1].pos == p);
            } else {
                let i = choose|i: int| 0 <= i < init.len() && #[trigger] init[i].pos == p;
                assert(s[i].pos == p);
            }
        }
        assert forall|i: int| 0 <= i < s.len() && #[trigger] s[i].pos == p implies set_all_some(Map::<Pos, Option<T>>::empty(), s).contains_key(p)
            && set_all_some(Map::<Pos, Option<T>>::empty(), s)[p] == Some(s[i].v) by {
            if i < s.len() - 1 {
                assert(init[i] == s[i]);
                assert(s[i].pos != s[s.len() - 1].pos);
            }
        }
    }
}

/// A level saved from a board (as `Level::from_board` makes it) gives
/// back, when loaded (as `Board::from_level` does), a board with the same
/// name, default terrain, actors, and terrain and item at every position.
pub proof fn lemma_saved_level_reloads(b: BoardModel, l: Level, area: PosArea, player: Player)
    requires
        l.name@ == b.name,
        l.default_terrain == b.default_terrain,
        l.actors@ == b.actors.actors,
        enumerates_except(b.terrains, b.default_terrain, l.terrains@),
        enumerates_some(b.items, l.items@),
    ensures
        ({
            let r = Board::level_model(&l, l.name@, area, player);
            &&& r.name == b.name
            &&& r.default_terrain == b.default_terrain
            &&& r.actors.actors == b.actors.actors
            &&& forall|p: Pos| #[trigger] r.terrain_at(p) == b.terrain_at(p)
            &&& forall|p: Pos| #[trigger] r.item_at(p) == b.item_at(p)
        }),
{
    let r = Board::level_model(&l, l.name@, area, player);
    assert forall|p: Pos| #[trigger] r.terrain_at(p) == b.terrain_at(p) by {
        lemma_set_all_distinct(l.terrains@, p);
        if exists|i: int| 0 <= i < l.terrains@.len() && #[trigger] l.terrains@[i].pos == p {
            let i = choose|i: int| 0 <= i < l.terrains@.len() && #[trigger] l.terrains@[i].pos == p;
            assert(b.terrains.contains_key(l.terrains@[i].pos));
        } else if b.terrains.contains_key(p) && b.terrains[p] != b.default_terrain {
            let i = choose|i: int| 0 <= i < l.terrains@.len() && #[trigger] l.terrains@[i].pos == p;
            assert(false);
        }
    }
    assert forall|p: Pos| #[trigger] r.item_at(p) == b.item_at(p) by {
        lemma_set_all_some_distinct(l.items@, p);
        if exists|i: int| 0 <= i < l.items@.len() && #[trigger] l.items@[i].pos == p {
            let i = choose|i: int| 0 <= i < l.items@.len() && #[trigger] l.items@[i].pos == p;
            assert(b.items.contains_key(l.items@[i].pos));
        } else if b.items.contains_key(p) && b.items[p] is Some {
            let i = choose|i: int| 0 <= i < l.items@.len() && #[trigger] l.items@[i].pos == p;
            assert(false);
        }
    }
}

} // verus!
