//! Campaigns: ordered lists of levels, and the bags holding them.

use vstd::prelude::*;
use crate::level::Level;

verus! {

/// a campaign, that is mostly a list of reference
/// to levels.
///
/// A campaign doesn't actually contains the levels,
/// only their reference (name) which can be the stem
/// of a file or the key in the same Bag
#[derive(Debug)]
pub struct Campaign {
    pub name: String,
    /// a description, not yet used, but which could be in the future
    /// (reserved for easier compatibility)
    pub description: String,
    /// whether all levels are open to the player, won or not
    pub allow_all_levels: bool,
    /// levels in the order they should be done
    pub levels: Vec<String>,
}

impl Default for Campaign {
    /// an unnamed campaign without levels
    fn default() -> (c: Self)
        ensures
            c.name@ == Seq::<char>::empty(),
            c.description@ == Seq::<char>::empty(),
            !c.allow_all_levels,
            c.levels@ == Seq::<String>::empty(),
    {
        Campaign {
            name: String::new(),
            description: String::new(),
            allow_all_levels: false,
            levels: Vec::new(),
        }
    }
}

/// a copy of a list of strings
pub fn copy_strings(v: &Vec<String>) -> (c: Vec<String>)
    ensures
        c@ == v@,
{
    let mut c: Vec<String> = Vec::new();
    let mut i: usize = 0;
    while i < v.len()
        invariant
            i <= v@.len(),
            c@ == v@.subrange(0, i as int),
        decreases v@.len() - i,
    {
        c.push(v[i].clone());
        i += 1;
    }
    proof {
        assert(v@.subrange(0, v@.len() as int) =~= v@);
    }
    c
}

impl Campaign {
    /// a copy of the campaign
    pub fn duplicate(&self) -> (c: Campaign)
        ensures
            c.name == self.name,
            c.description == self.description,
            c.allow_all_levels == self.allow_all_levels,
            c.levels@ == self.levels@,
    {
        Campaign {
            name: self.name.clone(),
            description: self.description.clone(),
            allow_all_levels: self.allow_all_levels,
            levels: copy_strings(&self.levels),
        }
    }
}

/// a level stored in a bag, under its key
#[derive(Debug)]
pub struct BagLevel {
    pub key: String,
    pub level: Level,
}

/// the content of a campaign or level file: campaigns and levels,
/// the levels being found by their key
#[derive(Debug)]
pub struct Bag {
    pub campaigns: Vec<Campaign>,
    pub levels: Vec<BagLevel>,
}

/// no two levels of `s` are stored under the same key
pub open spec fn keys_unique(s: Seq<BagLevel>) -> bool {
    forall|i: int, j: int| 0 <= i < j < s.len() ==> (#[trigger] s[i]).key@ != (#[trigger] s[j]).key@
}

/// `i` is the first index of `s` whose key is `k`
pub open spec fn first_with_key(s: Seq<BagLevel>, k: Seq<char>, i: int) -> bool {
    &&& 0 <= i < s.len()
    &&& s[i].key@ == k
    &&& forall|j: int| 0 <= j < i ==> (#[trigger] s[j]).key@ != k
}

/// some level of `s` has the key `k`
pub open spec fn has_key(s: Seq<BagLevel>, k: Seq<char>) -> bool {
    exists|i: int| 0 <= i < s.len() && (#[trigger] s[i]).key@ == k
}

/// the index of the level of key `k`
pub open spec fn key_pos(s: Seq<BagLevel>, k: Seq<char>) -> int {
    choose|i: int| first_with_key(s, k, i)
}

/// the level found under the key `k`, if any, and the levels left
/// once it is taken out
pub open spec fn taken(s: Seq<BagLevel>, k: Seq<char>) -> (Option<Level>, Seq<BagLevel>) {
    if has_key(s, k) {
        (Some(s[key_pos(s, k)].level), s.remove(key_pos(s, k)))
    } else {
        (None, s)
    }
}

/// the levels after one more is stored under the key `k`: a level
/// already stored under that key is replaced
pub open spec fn inserted(s: Seq<BagLevel>, k: String, l: Level) -> Seq<BagLevel> {
    if has_key(s, k@) {
        s.update(key_pos(s, k@), BagLevel { key: s[key_pos(s, k@)].key, level: l })
    } else {
        s.push(BagLevel { key: k, level: l })
    }
}

proof fn lemma_first_with_key_unique(s: Seq<BagLevel>, k: Seq<char>, i: int, j: int)
    requires
        first_with_key(s, k, i),
        first_with_key(s, k, j),
    ensures
        i == j,
{
    if i < j {
        assert(s[i].key@ != k);
    } else if j < i {
        assert(s[j].key@ != k);
    }
}

/// the index of the first level stored under the key `key`, if any
fn find_key(levels: &Vec<BagLevel>, key: &String) -> (r: Option<usize>)
    ensures
        r is Some <==> has_key(levels@, key@),
        r matches Some(i) ==> i == key_pos(levels@, key@) && first_with_key(levels@, key@, i as int),
{
    let mut i: usize = 0;
    while i < levels.len()
        invariant
            i <= levels@.len(),
            forall|j: int| 0 <= j < i ==> (#[trigger] levels@[j]).key@ != key@,
        decreases levels@.len() - i,
    {
        if levels[i].key == *key {
            proof {
                assert(first_with_key(levels@, key@, i as int));
                let p = key_pos(levels@, key@);
                lemma_first_with_key_unique(levels@, key@, i as int, p);
            }
            return Some(i);
        }
        i += 1;
    }
    None
}

/// take out of the levels the one stored under `key`, if any
pub fn remove_level(levels: &mut Vec<BagLevel>, key: &String) -> (r: Option<Level>)
    ensures
        (r, final(levels)@) == taken(old(levels)@, key@),
        keys_unique(old(levels)@) ==> keys_unique(final(levels)@),
{
    match find_key(levels, key) {
        Some(i) => {
            let ghost before = levels@;
            let bl = levels.remove(i);
            proof {
                if keys_unique(before) {
                    assert forall|a: int, b: int| 0 <= a < b < levels@.len() implies (#[trigger] levels@[a]).key@
                        != (#[trigger] levels@[b]).key@ by {
                        let a2 = if a < i { a } else { a + 1 };
                        let b2 = if b < i { b } else { b + 1 };
                        assert(levels@[a] == before[a2] && levels@[b] == before[b2]);
                    }
                }
            }
            Some(bl.level)
        },
        None => None,
    }
}

/// store a level under `key`, replacing the one already stored
/// under that key, if any
pub fn insert_level(levels: &mut Vec<BagLevel>, key: String, level: Level)
    ensures
        final(levels)@ == inserted(old(levels)@, key, level),
        keys_unique(old(levels)@) ==> keys_unique(final(levels)@),
{
    let ghost before = levels@;
    match find_key(levels, &key) {
        Some(i) => {
            let old_bl = levels.remove(i);
            levels.insert(i, BagLevel { key: old_bl.key, level });
            proof {
                assert(levels@ =~= inserted(old(levels)@, key, level));
            }
        },
        None => {
            levels.push(BagLevel { key, level });
        },
    }
    proof {
        if keys_unique(before) {
            assert forall|a: int, b: int| 0 <= a < b < levels@.len() implies (#[trigger] levels@[a]).key@
                != (#[trigger] levels@[b]).key@ by {
                if has_key(before, key@) {
                    let p = key_pos(before, key@);
                    assert(levels@[a].key == before[a].key && levels@[b].key == before[b].key);
                } else if b == before.len() {
                    assert(levels@[a] == before[a]);
                } else {
                    assert(levels@[a] == before[a] && levels@[b] == before[b]);
                }
            }
        }
    }
}

impl Bag {
    /// the levels are stored under different keys
    pub open spec fn wf(&self) -> bool {
        keys_unique(self.levels@)
    }

    /// a bag holding the campaign and no level
    pub fn from_campaign(campaign: Campaign) -> (b: Bag)
        ensures
            b.wf(),
            b.campaigns@ == seq![campaign],
            b.levels@ == Seq::<BagLevel>::empty(),
    {
        let mut campaigns = Vec::new();
        campaigns.push(campaign);
        Bag { campaigns, levels: Vec::new() }
    }

    /// a bag holding only the level, under the key
    pub fn from_level(key: String, level: Level) -> (b: Bag)
        ensures
            b.wf(),
            b.campaigns@ == Seq::<Campaign>::empty(),
            b.levels@ == seq![BagLevel { key, level }],
    {
        let mut levels = Vec::new();
        levels.push(BagLevel { key, level });
        Bag { campaigns: Vec::new(), levels }
    }

    /// the level of a bag holding no campaign and only this level,
    /// taken out of the bag
    pub fn as_sole_level(&mut self) -> (r: Option<Level>)
        ensures
            match r {
                Some(l) => {
                    &&& old(self).campaigns@.len() == 0
                    &&& old(self).levels@.len() == 1
                    &&& l == old(self).levels@[0].level
                    &&& final(self).levels@ == Seq::<BagLevel>::empty()
                    &&& final(self).campaigns@ == old(self).campaigns@
                },
                None => {
                    &&& !(old(self).campaigns@.len() == 0 && old(self).levels@.len() == 1)
                    &&& final(self).levels@ == old(self).levels@
                    &&& final(self).campaigns@ == old(self).campaigns@
                },
            },
    {
        if self.campaigns.len() == 0 && self.levels.len() == 1 {
            match self.levels.pop() {
                Some(bl) => Some(bl.level),
                None => None,
            }
        } else {
            None
        }
    }

    /// whether the bag holds a campaign
    pub fn is_campaign(&self) -> (b: bool)
        ensures
            b == (self.campaigns@.len() > 0),
    {
        self.campaigns.len() > 0
    }
}


/// where to look first for the levels of a campaign
#[derive(Debug, Clone, Copy, PartialEq, Eq, Structural)]
pub enum LoadOrigin {
    /// the level comes from the same file than the campaign
    Bag,
    /// the level comes from an other file, found by key
    External,
}

/// what was found in the file that may hold a level, out of the bag
#[derive(Debug)]
pub enum ExternalLevel {
    /// the file holds this level
    Found(Level),
    /// there's no such file, or no sole level in it
    Missing,
    /// the file couldn't be read, for this reason
    Unreadable(String),
}

/// why a campaign couldn't be loaded
#[derive(Debug, Clone, PartialEq, Eq)]
pub enum CampaignError {
    /// the level of this key is neither in the bag nor in its own file
    LevelNotFound(String),
    /// the level of this key isn't in the bag
    LevelNotInBag(String),
    /// the campaign has no level
    EmptyCampaign,
    /// a file that may hold a level couldn't be read
    Unreadable(String),
}

/// a level of a loaded campaign, with whether the player won it
#[derive(Debug)]
pub struct LoadedLevel {
    pub level: Level,
    pub won: bool,
}

/// a ready to play or display campaign, with resources loaded.
///
/// A loaded campaign packs
/// - the level found in bag or on disk
/// - win info related to the user
#[derive(Debug)]
pub struct LoadedCampaign {
    pub campaign: Campaign,
    pub levels: Vec<LoadedLevel>,
}

/// the levels of loaded levels
pub open spec fn levels_of(s: Seq<LoadedLevel>) -> Seq<Level> {
    s.map_values(|ll: LoadedLevel| ll.level)
}

/// the result `r` for the levels following the levels `p`
pub open spec fn prefixed(p: Seq<Level>, r: Result<Seq<Level>, CampaignError>) -> Result<Seq<Level>, CampaignError> {
    match r {
        Ok(rest) => Ok(p + rest),
        Err(e) => Err(e),
    }
}

/// the levels of keys `keys`, taken one after the other out of the
/// bag levels `s`, or the error on the first key not found
pub open spec fn packed_levels(keys: Seq<String>, s: Seq<BagLevel>) -> Result<Seq<Level>, CampaignError>
    decreases keys.len(),
{
    if keys.len() == 0 {
        Ok(Seq::empty())
    } else {
        match taken(s, keys[0]@).0 {
            Some(l) => prefixed(seq![l], packed_levels(keys.drop_first(), taken(s, keys[0]@).1)),
            None => Err(CampaignError::LevelNotInBag(keys[0])),
        }
    }
}

/// the level of key `key` and the bag levels left, looking first in the
/// bag levels `s` or in the external file, depending on `origin`
pub open spec fn load_step(
    key: String,
    s: Seq<BagLevel>,
    origin: LoadOrigin,
    ext: ExternalLevel,
) -> Result<(Level, Seq<BagLevel>), CampaignError> {
    let t = taken(s, key@);
    match origin {
        LoadOrigin::Bag => match t.0 {
            Some(l) => Ok((l, t.1)),
            None => match ext {
                ExternalLevel::Found(l) => Ok((l, s)),
                ExternalLevel::Missing => Err(CampaignError::LevelNotFound(key)),
                ExternalLevel::Unreadable(m) => Err(CampaignError::Unreadable(m)),
            },
        },
        LoadOrigin::External => match ext {
            ExternalLevel::Found(l) => Ok((l, s)),
            ExternalLevel::Unreadable(m) => Err(CampaignError::Unreadable(m)),
            ExternalLevel::Missing => match t.0 {
                Some(l) => Ok((l, t.1)),
                None => Err(CampaignError::LevelNotFound(key)),
            },
        },
    }
}

/// the levels of keys `keys`, each found in the bag levels `s` (and
/// taken out of them) or in its external file `ext[i]`, or the first error
pub open spec fn loaded_levels(
    keys: Seq<String>,
    s: Seq<BagLevel>,
    origin: LoadOrigin,
    ext: Seq<ExternalLevel>,
) -> Result<Seq<Level>, CampaignError>
    decreases keys.len(),
{
    if keys.len() == 0 {
        Ok(Seq::empty())
    } else {
        match load_step(keys[0], s, origin, ext[0]) {
            Ok(found) => prefixed(
                seq![found.0],
                loaded_levels(keys.drop_first(), found.1, origin, ext.drop_first()),
            ),
            Err(e) => Err(e),
        }
    }
}

/// what loading a campaign whose levels would be `p` gives
pub open spec fn loading_ends(p: Result<Seq<Level>, CampaignError>, r: Result<LoadedCampaign, CampaignError>, c: Campaign) -> bool {
    match r {
        Ok(lc) => {
            &&& p == Ok::<Seq<Level>, CampaignError>(levels_of(lc.levels@))
            &&& lc.levels@.len() > 0
            &&& lc.campaign == c
            &&& forall|i: int| 0 <= i < lc.levels@.len() ==> !(#[trigger] lc.levels@[i]).won
        },
        Err(e) => match p {
            Err(pe) => e == pe,
            Ok(levels) => levels.len() == 0 && e == CampaignError::EmptyCampaign,
        },
    }
}

proof fn lemma_prefixed_push(acc: Seq<Level>, l: Level, r: Result<Seq<Level>, CampaignError>)
    ensures
        prefixed(acc, prefixed(seq![l], r)) == prefixed(acc.push(l), r),
{
    if let Ok(rest) = r {
        assert(acc + (seq![l] + rest) =~= acc.push(l) + rest);
    }
}

proof fn lemma_levels_of_push(s: Seq<LoadedLevel>, ll: LoadedLevel)
    ensures
        levels_of(s.push(ll)) == levels_of(s).push(ll.level),
{
    assert(levels_of(s.push(ll)) =~= levels_of(s).push(ll.level));
}

/// the level of key `key`, looked for first in the bag levels or in
/// the external file, depending on `origin`
fn load_one(
    levels: &mut Vec<BagLevel>,
    key: &String,
    origin: LoadOrigin,
    ext: ExternalLevel,
) -> (r: Result<Level, CampaignError>)
    ensures
        match load_step(*key, old(levels)@, origin, ext) {
            Ok(found) => r == Ok::<Level, CampaignError>(found.0) && final(levels)@ == found.1,
            Err(e) => r == Err::<Level, CampaignError>(e),
        },
{
    match origin {
        LoadOrigin::Bag => match remove_level(levels, key) {
            Some(l) => Ok(l),
            None => match ext {
                ExternalLevel::Found(l) => Ok(l),
                ExternalLevel::Missing => Err(CampaignError::LevelNotFound(key.clone())),
                ExternalLevel::Unreadable(m) => Err(CampaignError::Unreadable(m)),
            },
        },
        LoadOrigin::External => match ext {
            ExternalLevel::Found(l) => Ok(l),
            ExternalLevel::Unreadable(m) => Err(CampaignError::Unreadable(m)),
            ExternalLevel::Missing => match remove_level(levels, key) {
                Some(l) => Ok(l),
                None => Err(CampaignError::LevelNotFound(key.clone())),
            },
        },
    }
}

impl LoadedCampaign {
    /// load the levels of the last campaign of the bag.
    ///
    /// `externals[i]` is what the file of the level of key
    /// `campaign.levels[i]`, out of the bag, gives. The levels are looked
    /// for first in the bag or in their files, depending on
    /// `preferred_origin`, then in the other place. A level found in the
    /// bag is taken out of it.
    ///
    /// Don't check if some levels have been won (call check_wins for that).
    #[verifier::loop_isolation(false)]
    pub fn load(
        bag: Bag,
        preferred_origin: LoadOrigin,
        externals: Vec<ExternalLevel>,
    ) -> (r: Result<LoadedCampaign, CampaignError>)
        requires
            bag.campaigns@.len() > 0,
            externals@.len() == bag.campaigns@.last().levels@.len(),
        ensures
            loading_ends(
                loaded_levels(bag.campaigns@.last().levels@, bag.levels@, preferred_origin, externals@),
                r,
                bag.campaigns@.last(),
            ),
    {
        let mut bag = bag;
        let mut externals = externals;
        let ghost s0 = bag.levels@;
        let ghost e0 = externals@;
        let campaign = match bag.campaigns.pop() {
            Some(c) => c,
            None => {
                return Err(CampaignError::EmptyCampaign);
            },
        };
        let ghost keys = campaign.levels@;
        let mut levels: Vec<LoadedLevel> = Vec::new();
        proof {
            assert(keys.skip(0) =~= keys);
            assert(e0.skip(0) =~= e0);
            assert(levels_of(levels@) =~= Seq::<Level>::empty());
            if let Ok(rest) = loaded_levels(keys, s0, preferred_origin, e0) {
                assert(Seq::<Level>::empty() + rest =~= rest);
            }
        }
        let mut i: usize = 0;
        while i < campaign.levels.len()
            invariant
                keys == campaign.levels@,
                i <= keys.len(),
                externals@ == e0.skip(i as int),
                e0.len() == keys.len(),
                loaded_levels(keys, s0, preferred_origin, e0) == prefixed(
                    levels_of(levels@),
                    loaded_levels(keys.skip(i as int), bag.levels@, preferred_origin, e0.skip(i as int)),
                ),
                forall|j: int| 0 <= j < levels@.len() ==> !(#[trigger] levels@[j]).won,
            decreases keys.len() - i,
        {
            let ghost cur = bag.levels@;
            let key = &campaign.levels[i];
            proof {
                assert(keys.skip(i as int)[0] == keys[i as int]);
                assert(keys.skip(i as int).drop_first() =~= keys.skip(i + 1));
                assert(e0.skip(i as int)[0] == e0[i as int]);
                assert(e0.skip(i as int).drop_first() =~= e0.skip(i + 1));
            }
            let ext = externals.remove(0);
            match load_one(&mut bag.levels, key, preferred_origin, ext) {
                Ok(level) => {
                    let ghost prev = levels@;
                    let ll = LoadedLevel { level, won: false };
                    levels.push(ll);
                    proof {
                        lemma_levels_of_push(prev, ll);
                        lemma_prefixed_push(
                            levels_of(prev),
                            level,
                            loaded_levels(keys.skip(i + 1), bag.levels@, preferred_origin, e0.skip(i + 1)),
                        );
                        assert(externals@ =~= e0.skip(i + 1));
                    }
                },
                Err(e) => {
                    return Err(e);
                },
            }
            i += 1;
        }
        proof {
            assert(keys.skip(keys.len() as int) =~= Seq::<String>::empty());
            assert(levels_of(levels@) + Seq::<Level>::empty() =~= levels_of(levels@));
        }
        if levels.len() == 0 {
            Err(CampaignError::EmptyCampaign)
        } else {
            Ok(LoadedCampaign { campaign, levels })
        }
    }

    /// build a loaded campaign assuming the bag already
    /// contains all the levels.
    ///
    /// The campaign is the last one of the bag, and each of its levels
    /// is taken out of the bag by key.
    #[verifier::loop_isolation(false)]
    pub fn from_packed_bag(bag: Bag) -> (r: Result<LoadedCampaign, CampaignError>)
        requires
            bag.campaigns@.len() > 0,
        ensures
            loading_ends(
                packed_levels(bag.campaigns@.last().levels@, bag.levels@),
                r,
                bag.campaigns@.last(),
            ),
    {
        let mut bag = bag;
        let ghost s0 = bag.levels@;
        let campaign = match bag.campaigns.pop() {
            Some(c) => c,
            None => {
                return Err(CampaignError::EmptyCampaign);
            },
        };
        let ghost keys = campaign.levels@;
        let mut levels: Vec<LoadedLevel> = Vec::new();
        proof {
            assert(keys.skip(0) =~= keys);
            assert(levels_of(levels@) =~= Seq::<Level>::empty());
            if let Ok(rest) = packed_levels(keys, s0) {
                assert(Seq::<Level>::empty() + rest =~= rest);
            }
        }
        let mut i: usize = 0;
        while i < campaign.levels.len()
            invariant
                keys == campaign.levels@,
                i <= keys.len(),
                packed_levels(keys, s0) == prefixed(
                    levels_of(levels@),
                    packed_levels(keys.skip(i as int), bag.levels@),
                ),
                forall|j: int| 0 <= j < levels@.len() ==> !(#[trigger] levels@[j]).won,
            decreases keys.len() - i,
        {
            let ghost cur = bag.levels@;
            let key = &campaign.levels[i];
            proof {
                assert(keys.skip(i as int)[0] == keys[i as int]);
                assert(keys.skip(i as int).drop_first() =~= keys.skip(i + 1));
            }
            match remove_level(&mut bag.levels, key) {
                Some(level) => {
                    let ghost prev = levels@;
                    let ll = LoadedLevel { level, won: false };
                    levels.push(ll);
                    proof {
                        lemma_levels_of_push(prev, ll);
                        lemma_prefixed_push(
                            levels_of(prev),
                            level,
                            packed_levels(keys.skip(i + 1), bag.levels@),
                        );
                    }
                },
                None => {
                    proof {
                        assert(packed_levels(keys.skip(i as int), cur) == Err::<Seq<Level>, CampaignError>(
                            CampaignError::LevelNotInBag(keys[i as int]),
                        ));
                    }
                    return Err(CampaignError::LevelNotInBag(key.clone()));
                },
            }
            i += 1;
        }
        proof {
            assert(keys.skip(keys.len() as int) =~= Seq::<String>::empty());
            assert(levels_of(levels@) + Seq::<Level>::empty() =~= levels_of(levels@));
        }
        if levels.len() == 0 {
            Err(CampaignError::EmptyCampaign)
        } else {
            Ok(LoadedCampaign { campaign, levels })
        }
    }
}

/// the win flags read for the levels were applied to the levels `old`
/// to give `new`, up to the first flag that couldn't be read, which
/// `r` tells
pub open spec fn wins_checked(
    wins: Seq<Result<bool, String>>,
    old: Seq<LoadedLevel>,
    new: Seq<LoadedLevel>,
    r: Result<(), String>,
) -> bool {
    &&& new.len() == old.len()
    &&& forall|i: int| 0 <= i < new.len() ==> (#[trigger] new[i]).level == old[i].level
    &&& match r {
        Ok(_) => forall|i: int|
            0 <= i < new.len() ==> (#[trigger] wins[i]) is Ok && new[i].won == wins[i]->Ok_0,
        Err(m) => exists|e: int|
            0 <= e < new.len() && wins[e] == Err::<bool, String>(m) && (forall|i: int|
                0 <= i < e ==> (#[trigger] wins[i]) is Ok && new[i].won == wins[i]->Ok_0) && (forall|
                i: int,
            | e <= i < new.len() ==> (#[trigger] new[i]).won == old[i].won),
    }
}

impl LoadedCampaign {
    /// the campaign's levels are those of loaded levels
    pub open spec fn wf(&self) -> bool {
        self.levels@.len() == self.campaign.levels@.len()
    }

    /// update what levels have been won.
    ///
    /// `wins` is `None` when the win database couldn't be read, and
    /// then nothing changes. Else `wins[i]` tells whether the level `i`
    /// was won, or why this couldn't be determined: the levels are
    /// updated in order up to the first such failure, which is returned.
    ///
    /// This can (and should) be called several times, when it may have
    /// changed.
    #[verifier::loop_isolation(false)]
    pub fn check_wins(&mut self, wins: Option<Vec<Result<bool, String>>>) -> (r: Result<(), String>)
        requires
            wins matches Some(w) ==> w@.len() == old(self).levels@.len(),
        ensures
            final(self).campaign == old(self).campaign,
            match wins {
                None => r is Ok && final(self).levels@ == old(self).levels@,
                Some(w) => wins_checked(w@, old(self).levels@, final(self).levels@, r),
            },
    {
        match wins {
            None => Ok(()),
            Some(w) => {
                let ghost old_levels = self.levels@;
                let mut i: usize = 0;
                while i < self.levels.len()
                    invariant
                        w@.len() == old_levels.len(),
                        self.levels@.len() == old_levels.len(),
                        i <= old_levels.len(),
                        self.campaign == old(self).campaign,
                        forall|j: int| 0 <= j < old_levels.len() ==> (#[trigger] self.levels@[j]).level == old_levels[j].level,
                        forall|j: int|
                            0 <= j < i ==> (#[trigger] w@[j]) is Ok && self.levels@[j].won == w@[j]->Ok_0,
                        forall|j: int| i <= j < old_levels.len() ==> (#[trigger] self.levels@[j]).won == old_levels[j].won,
                    decreases old_levels.len() - i,
                {
                    match &w[i] {
                        Ok(won) => {
                            let mut ll = self.levels.remove(i);
                            ll.won = *won;
                            self.levels.insert(i, ll);
                        },
                        Err(m) => {
                            let m = m.clone();
                            proof {
                                assert(w@[i as int] == Err::<bool, String>(m));
                            }
                            return Err(m);
                        },
                    }
                    i += 1;
                }
                Ok(())
            },
        }
    }

    pub fn name(&self) -> (s: &str)
        ensures
            s@ == self.campaign.name@,
    {
        self.campaign.name.as_str()
    }
}

/// the levels of a bag holding, each under its key, the levels of a
/// campaign, stored in order
pub open spec fn packed_entries(keys: Seq<String>, levels: Seq<Level>, n: nat) -> Seq<BagLevel>
    decreases n,
{
    if n == 0 {
        Seq::empty()
    } else {
        inserted(packed_entries(keys, levels, (n - 1) as nat), keys[n - 1], levels[n - 1])
    }
}

/// the bag of a new campaign: it's named "Unnamed Campaign"
/// and has no level yet
pub fn create() -> (b: Bag)
    ensures
        b.campaigns@.len() == 1,
        b.campaigns@[0].name@ == "Unnamed Campaign"@,
        b.campaigns@[0].description@ == Seq::<char>::empty(),
        !b.campaigns@[0].allow_all_levels,
        b.campaigns@[0].levels@ == Seq::<String>::empty(),
        b.levels@ == Seq::<BagLevel>::empty(),
{
    let mut c = Campaign::default();
    c.name = String::from_str("Unnamed Campaign");
    Bag::from_campaign(c)
}

/// a bag containing a campaign and its levels, each
/// under the key by which the campaign refers to it
pub fn pack(loaded_campaign: LoadedCampaign) -> (b: Bag)
    requires
        loaded_campaign.wf(),
    ensures
        b.wf(),
        b.campaigns@ == seq![loaded_campaign.campaign],
        b.levels@ == packed_entries(
            loaded_campaign.campaign.levels@,
            levels_of(loaded_campaign.levels@),
            loaded_campaign.campaign.levels@.len(),
        ),
{
    let LoadedCampaign { campaign, levels } = loaded_campaign;
    let keys = copy_strings(&campaign.levels);
    let ghost lv = levels_of(levels@);
    let len = keys.len();
    let mut levels = levels;
    proof {
        assert(lv.skip(0) =~= lv);
    }
    let mut out_bag = Bag::from_campaign(campaign);
    let mut i: usize = 0;
    while i < len
        invariant
            len == keys@.len(),
            lv.len() == len,
            i <= len,
            levels@.len() == len - i,
            levels_of(levels@) == lv.skip(i as int),
            out_bag.wf(),
            out_bag.campaigns@ == seq![loaded_campaign.campaign],
            out_bag.levels@ == packed_entries(keys@, lv, i as nat),
        decreases len - i,
    {
        proof {
            assert(levels_of(levels@)[0] == lv[i as int]);
        }
        let ghost prev = levels@;
        let ll = levels.remove(0);
        proof {
            assert forall|j: int| 0 <= j < levels@.len() implies levels_of(levels@)[j] == lv.skip(i + 1)[j] by {
                assert(levels@[j] == prev[j + 1]);
                assert(levels_of(prev)[j + 1] == lv.skip(i as int)[j + 1]);
            }
            assert(levels_of(levels@) =~= lv.skip(i + 1));
        }
        insert_level(&mut out_bag.levels, keys[i].clone(), ll.level);
        i += 1;
    }
    out_bag
}

/// no two of the keys are the same
pub open spec fn distinct_keys(keys: Seq<String>) -> bool {
    forall|i: int, j: int| 0 <= i < keys.len() && 0 <= j < keys.len() && i != j ==> (#[trigger] keys[i])@ != (#[trigger] keys[j])@
}

proof fn lemma_packed_entries_in_order(keys: Seq<String>, levels: Seq<Level>, n: nat)
    requires
        distinct_keys(keys),
        n <= keys.len(),
        n <= levels.len(),
    ensures
        packed_entries(keys, levels, n) =~= Seq::new(n, |j: int| BagLevel { key: keys[j], level: levels[j] }),
    decreases n,
{
    if n > 0 {
        let m = (n - 1) as nat;
        lemma_packed_entries_in_order(keys, levels, m);
        let prev = packed_entries(keys, levels, m);
        assert forall|i: int| 0 <= i < prev.len() implies (#[trigger] prev[i]).key@ != keys[m as int]@ by {
            assert(prev[i].key == keys[i]);
        }
        assert(!has_key(prev, keys[m as int]@));
    }
}

proof fn lemma_unpack_in_order(keys: Seq<String>, entries: Seq<BagLevel>)
    requires
        distinct_keys(keys),
        entries.len() == keys.len(),
        forall|j: int| 0 <= j < keys.len() ==> (#[trigger] entries[j]).key@ == keys[j]@,
    ensures
        packed_levels(keys, entries) == Ok::<Seq<Level>, CampaignError>(
            entries.map_values(|bl: BagLevel| bl.level),
        ),
    decreases keys.len(),
{
    if keys.len() > 0 {
        let k = keys[0]@;
        assert(first_with_key(entries, k, 0));
        assert(has_key(entries, k));
        lemma_first_with_key_unique(entries, k, 0, key_pos(entries, k));
        let rest_keys = keys.drop_first();
        let rest = entries.remove(0);
        assert forall|i: int, j: int|
            0 <= i < rest_keys.len() && 0 <= j < rest_keys.len() && i != j implies (#[trigger] rest_keys[i])@
            != (#[trigger] rest_keys[j])@ by {
            assert(rest_keys[i] == keys[i + 1]);
            assert(rest_keys[j] == keys[j + 1]);
        }
        assert forall|j: int| 0 <= j < rest_keys.len() implies (#[trigger] rest[j]).key@ == rest_keys[j]@ by {
            assert(rest[j] == entries[j + 1]);
        }
        lemma_unpack_in_order(rest_keys, rest);
        assert(taken(entries, k).0 == Some(entries[0].level));
        assert(taken(entries, k).1 == rest);
        assert(seq![entries[0].level] + rest.map_values(|bl: BagLevel| bl.level) =~= entries.map_values(
            |bl: BagLevel| bl.level,
        ));
    } else {
        assert(entries.map_values(|bl: BagLevel| bl.level) =~= Seq::<Level>::empty());
    }
}

/// Packing a loaded campaign whose level keys are all different, then
/// unpacking the bag, gives back the campaign's levels in order.
pub proof fn lemma_unpack_packed(keys: Seq<String>, levels: Seq<Level>)
    requires
        distinct_keys(keys),
        levels.len() == keys.len(),
    ensures
        packed_levels(keys, packed_entries(keys, levels, keys.len())) == Ok::<Seq<Level>, CampaignError>(levels),
{
    lemma_packed_entries_in_order(keys, levels, keys.len());
    let entries = packed_entries(keys, levels, keys.len());
    lemma_unpack_in_order(keys, entries);
    assert(entries.map_values(|bl: BagLevel| bl.level) =~= levels);
}

} // verus!
