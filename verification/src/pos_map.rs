//! Total maps from positions to values, with a default value for
//! the positions never set, and sets of positions.

use vstd::prelude::*;
use crate::pos::{Located, Pos};

verus! {

/// A map from every position to a value: the positions which were
/// set hold their value, all the others hold `default`.
pub struct PosMap<T> {
    default: T,
    entries: Vec<Located<T>>,
    map: Ghost<Map<Pos, T>>,
}

/// a position map whose default is `None`
pub type OptionPosMap<T> = PosMap<Option<T>>;

impl<T> View for PosMap<T> {
    type V = Map<Pos, T>;

    /// the positions explicitly set and their values
    closed spec fn view(&self) -> Map<Pos, T> {
        self.map@
    }
}

impl<T: Copy> Clone for PosMap<T> {
    /// a copy, holding the same values
    fn clone(&self) -> (r: Self)
        ensures
            r@ == self@,
            r.dflt() == self.dflt(),
            self.wf() ==> r.wf(),
    {
        let mut entries: Vec<Located<T>> = Vec::new();
        let mut i: usize = 0;
        while i < self.entries.len()
            invariant
                i <= self.entries@.len(),
                entries@ == self.entries@.subrange(0, i as int),
            decreases self.entries@.len() - i,
        {
            entries.push(self.entries[i]);
            i += 1;
        }
        assert(entries@ =~= self.entries@);
        let r = PosMap { default: self.default, entries, map: Ghost(self.map@) };
        assert(r.entries@ == self.entries@ && r.map@ == self.map@);
        r
    }
}

impl<T: Copy> PosMap<T> {
    /// consistency between the stored entries and the map they represent
    pub closed spec fn wf(&self) -> bool {
        &&& forall|i: int|
            0 <= i < self.entries@.len() ==> {
                &&& self.map@.contains_key(#[trigger] self.entries@[i].pos)
                &&& self.map@[self.entries@[i].pos] == self.entries@[i].v
            }
        &&& forall|p: Pos|
            #[trigger] self.map@.contains_key(p) ==> exists|i: int|
                0 <= i < self.entries@.len() && #[trigger] self.entries@[i].pos == p
        &&& forall|i: int, j: int|
            0 <= i < self.entries@.len() && 0 <= j < self.entries@.len() && i != j
                ==> #[trigger] self.entries@[i].pos != #[trigger] self.entries@[j].pos
    }

    /// the value at a position
    pub open spec fn at(&self, pos: Pos) -> T {
        if self@.contains_key(pos) {
            self@[pos]
        } else {
            self.dflt()
        }
    }

    /// the value of the positions which were not set
    pub closed spec fn dflt(&self) -> T {
        self.default
    }

    /// the value of the positions which were not set
    pub fn default_value(&self) -> (v: T)
        ensures
            v == self.dflt(),
    {
        self.default
    }

    /// change the value of the positions which were not set
    pub fn set_default(&mut self, v: T)
        requires
            old(self).wf(),
        ensures
            final(self).wf(),
            final(self).dflt() == v,
            final(self)@ == old(self)@,
    {
        self.default = v;
        assert(self.entries@ == old(self).entries@);
        assert(self.map@ == old(self).map@);
    }

    /// `s` enumerates the explicitly set positions and their values,
    /// each position once
    pub open spec fn enumerated_by(&self, s: Seq<Located<T>>) -> bool {
        &&& forall|i: int|
            0 <= i < s.len() ==> {
                &&& self@.contains_key(#[trigger] s[i].pos)
                &&& self@[s[i].pos] == s[i].v
            }
        &&& forall|p: Pos|
            #[trigger] self@.contains_key(p) ==> exists|i: int| 0 <= i < s.len() && #[trigger] s[i].pos == p
        &&& forall|i: int, j: int|
            0 <= i < s.len() && 0 <= j < s.len() && i != j ==> #[trigger] s[i].pos != #[trigger] s[j].pos
    }

    /// a map where every position holds `default`
    pub fn new(default: T) -> (m: Self)
        ensures
            m.wf(),
            m.dflt() == default,
            m@ == Map::<Pos, T>::empty(),
    {
        PosMap { default, entries: Vec::new(), map: Ghost(Map::empty()) }
    }

    /// index of the entry of a position, if set
    fn find(&self, pos: Pos) -> (r: Option<usize>)
        requires
            self.wf(),
        ensures
            r matches Some(i) ==> i < self.entries@.len() && self.entries@[i as int].pos == pos,
            r is None ==> !self@.contains_key(pos),
    {
        let mut i: usize = 0;
        while i < self.entries.len()
            invariant
                i <= self.entries@.len(),
                forall|k: int| 0 <= k < i ==> self.entries@[k].pos != pos,
            decreases self.entries@.len() - i,
        {
            if self.entries[i].pos == pos {
                return Some(i);
            }
            i += 1;
        }
        proof {
            if self.map@.contains_key(pos) {
                let k = choose|k: int| 0 <= k < self.entries@.len() && #[trigger] self.entries@[k].pos == pos;
                assert(self.entries@[k].pos != pos);
            }
        }
        None
    }

    /// the value at pos (the default one when the position wasn't set)
    pub fn get(&self, pos: Pos) -> (v: T)
        requires
            self.wf(),
        ensures
            v == self.at(pos),
    {
        match self.find(pos) {
            Some(i) => self.entries[i].v,
            None => self.default,
        }
    }

    /// whether the position was explicitly set
    pub fn is_set(&self, pos: Pos) -> (b: bool)
        requires
            self.wf(),
        ensures
            b == self@.contains_key(pos),
    {
        self.find(pos).is_some()
    }

    /// set the value at a position
    pub fn set(&mut self, pos: Pos, v: T)
        requires
            old(self).wf(),
        ensures
            final(self).wf(),
            final(self).dflt() == old(self).dflt(),
            final(self)@ == old(self)@.insert(pos, v),
    {
        let ghost old_entries = self.entries@;
        match self.find(pos) {
            Some(i) => {
                self.entries.set(i, Located { pos, v });
                self.map = Ghost(self.map@.insert(pos, v));
                assert forall|p: Pos| #[trigger] self.map@.contains_key(p) implies exists|k: int|
                    0 <= k < self.entries@.len() && #[trigger] self.entries@[k].pos == p by {
                    if p != pos {
                        let k = choose|k: int| 0 <= k < old_entries.len() && #[trigger] old_entries[k].pos == p;
                        assert(self.entries@[k].pos == p);
                    } else {
                        assert(self.entries@[i as int].pos == p);
                    }
                }
            }
            None => {
                self.entries.push(Located { pos, v });
                self.map = Ghost(self.map@.insert(pos, v));
                assert forall|p: Pos| #[trigger] self.map@.contains_key(p) implies exists|k: int|
                    0 <= k < self.entries@.len() && #[trigger] self.entries@[k].pos == p by {
                    if p != pos {
                        let k = choose|k: int| 0 <= k < old_entries.len() && #[trigger] old_entries[k].pos == p;
                        assert(self.entries@[k].pos == p);
                    } else {
                        assert(self.entries@[old_entries.len() as int].pos == p);
                    }
                }
            }
        }
    }

    /// make the position hold the default value again
    pub fn unset(&mut self, pos: Pos)
        requires
            old(self).wf(),
        ensures
            final(self).wf(),
            final(self).dflt() == old(self).dflt(),
            final(self)@ == old(self)@.remove(pos),
    {
        let ghost old_entries = self.entries@;
        match self.find(pos) {
            Some(i) => {
                let ghost last = old_entries.len() - 1;
                self.entries.swap_remove(i);
                self.map = Ghost(self.map@.remove(pos));
                assert forall|k: int| 0 <= k < self.entries@.len() implies {
                    &&& self.map@.contains_key(#[trigger] self.entries@[k].pos)
                    &&& self.map@[self.entries@[k].pos] == self.entries@[k].v
                } by {
                    if k == i {
                        assert(self.entries@[k] == old_entries[last]);
                        assert(old_entries[last].pos != old_entries[i as int].pos);
                    } else {
                        assert(self.entries@[k] == old_entries[k]);
                        assert(old_entries[k].pos != old_entries[i as int].pos);
                    }
                }
                assert forall|p: Pos| #[trigger] self.map@.contains_key(p) implies exists|k: int|
                    0 <= k < self.entries@.len() && #[trigger] self.entries@[k].pos == p by {
                    let k = choose|k: int| 0 <= k < old_entries.len() && #[trigger] old_entries[k].pos == p;
                    if k == last {
                        assert(self.entries@[i as int].pos == p);
                    } else {
                        assert(self.entries@[k].pos == p);
                    }
                }
                assert forall|a: int, b: int|
                    0 <= a < self.entries@.len() && 0 <= b < self.entries@.len() && a != b
                    implies #[trigger] self.entries@[a].pos != #[trigger] self.entries@[b].pos by {
                    let oa = if a == i { last } else { a };
                    let ob = if b == i { last } else { b };
                    assert(self.entries@[a] == old_entries[oa]);
                    assert(self.entries@[b] == old_entries[ob]);
                }
            }
            None => {
                assert(self.map@.remove(pos) =~= self.map@);
            }
        }
    }

    /// unset all positions
    pub fn clear(&mut self)
        requires
            old(self).wf(),
        ensures
            final(self).wf(),
            final(self).dflt() == old(self).dflt(),
            final(self)@ == Map::<Pos, T>::empty(),
    {
        self.entries.clear();
        self.map = Ghost(Map::empty());
    }

    /// the explicitly set positions with their values
    pub fn entries(&self) -> (r: Vec<Located<T>>)
        requires
            self.wf(),
        ensures
            self.enumerated_by(r@),
    {
        let mut r: Vec<Located<T>> = Vec::new();
        let mut i: usize = 0;
        while i < self.entries.len()
            invariant
                i <= self.entries@.len(),
                r@ == self.entries@.subrange(0, i as int),
            decreases self.entries@.len() - i,
        {
            r.push(self.entries[i]);
            i += 1;
        }
        assert(r@ == self.entries@);
        r
    }
}

impl<T: Copy> PosMap<Option<T>> {
    /// set the value at pos to Some(v)
    pub fn set_some(&mut self, pos: Pos, v: T)
        requires
            old(self).wf(),
        ensures
            final(self).wf(),
            final(self).dflt() == old(self).dflt(),
            final(self)@ == old(self)@.insert(pos, Some(v)),
    {
        self.set(pos, Some(v));
    }

    /// remove the value at pos
    pub fn remove(&mut self, pos: Pos)
        requires
            old(self).wf(),
        ensures
            final(self).wf(),
            final(self).dflt() == old(self).dflt(),
            final(self)@ == old(self)@.remove(pos),
    {
        self.unset(pos);
    }
}

/// A set of positions
pub struct PosSet {
    map: PosMap<bool>,
}

impl View for PosSet {
    type V = Set<Pos>;

    closed spec fn view(&self) -> Set<Pos> {
        Set::new(|p: Pos| self.map.at(p))
    }
}

impl PosSet {
    pub closed spec fn wf(&self) -> bool {
        self.map.wf() && !self.map.dflt()
    }

    /// an empty set
    pub fn new() -> (s: PosSet)
        ensures
            s.wf(),
            s@ == Set::<Pos>::empty(),
    {
        let s = PosSet { map: PosMap::new(false) };
        assert(s@ =~= Set::<Pos>::empty());
        s
    }

    pub fn insert(&mut self, pos: Pos)
        requires
            old(self).wf(),
        ensures
            final(self).wf(),
            final(self)@ == old(self)@.insert(pos),
    {
        self.map.set(pos, true);
        assert(self@ =~= old(self)@.insert(pos));
    }

    pub fn remove(&mut self, pos: Pos)
        requires
            old(self).wf(),
        ensures
            final(self).wf(),
            final(self)@ == old(self)@.remove(pos),
    {
        self.map.unset(pos);
        assert(self@ =~= old(self)@.remove(pos));
    }

    pub fn has_key(&self, pos: Pos) -> (b: bool)
        requires
            self.wf(),
        ensures
            b == self@.contains(pos),
    {
        self.map.get(pos)
    }
}

} // verus!

verus! {

/// the map after setting, in order, each located value
pub open spec fn set_all<T>(m: Map<Pos, T>, s: Seq<Located<T>>) -> Map<Pos, T>
    decreases s.len(),
{
    if s.len() == 0 {
        m
    } else {
        set_all(m, s.drop_last()).insert(s.last().pos, s.last().v)
    }
}

/// the map after setting, in order, each located value wrapped in `Some`
pub open spec fn set_all_some<T>(m: Map<Pos, Option<T>>, s: Seq<Located<T>>) -> Map<Pos, Option<T>>
    decreases s.len(),
{
    if s.len() == 0 {
        m
    } else {
        set_all_some(m, s.drop_last()).insert(s.last().pos, Some(s.last().v))
    }
}

} // verus!
