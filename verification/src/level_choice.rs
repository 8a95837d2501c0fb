//! The screen letting the user choose a level of a campaign.

use vstd::prelude::*;
use crate::campaign::{LoadedCampaign, LoadedLevel, wins_checked};
use crate::level::Level;
use crate::status::Status;
use crate::transition::StateTransition;

verus! {

/// the keys the level choice reacts to
#[derive(Debug, Clone, Copy, PartialEq, Eq, Structural)]
pub enum Key {
    Up,
    Down,
    Enter,
    Char(char),
    Other,
}

/// A screen letting the user choose a level.
pub struct ChooseLevelState {
    status: Status,
    loaded_campaign: LoadedCampaign,
    /// index of the selected level
    selection: usize,
    nb_playable_levels: usize,
    scroll: usize,
    area_height: usize,
}

/// the number of levels open to the player when only the levels
/// up to the first one not won are: all levels if all were won
pub open spec fn playable_count(levels: Seq<LoadedLevel>) -> nat
    decreases levels.len(),
{
    if levels.len() == 0 {
        0
    } else if !levels[0].won {
        1
    } else {
        1 + playable_count(levels.drop_first())
    }
}

/// the start of the markdown line of the level `i`
pub open spec fn line_start(i: int, selection: int, nb_playable: int) -> Seq<char> {
    if i >= nb_playable {
        "#### "@  // unplayable level
    } else if i == selection {
        "### "@  // selected level
    } else {
        Seq::empty()
    }
}

/// the markdown line of the level `i`
pub open spec fn level_line(levels: Seq<LoadedLevel>, i: int, selection: int, nb_playable: int) -> Seq<char> {
    "\n"@ + line_start(i, selection, nb_playable) + levels[i].level.name@ + if levels[i].won {
        " ` WON `"@
    } else {
        Seq::empty()
    }
}

/// the markdown lines of the first `n` levels
pub open spec fn level_lines(levels: Seq<LoadedLevel>, n: nat, selection: int, nb_playable: int) -> Seq<char>
    decreases n,
{
    if n == 0 {
        Seq::empty()
    } else {
        level_lines(levels, (n - 1) as nat, selection, nb_playable) + level_line(
            levels,
            n - 1,
            selection,
            nb_playable,
        )
    }
}

/// the markdown of the level choice: the campaign's name as title,
/// then a line per level
pub open spec fn choice_markdown(lc: LoadedCampaign, selection: int, nb_playable: int) -> Seq<char> {
    "\n# "@ + lc.campaign.name@ + "\n"@ + level_lines(lc.levels@, lc.levels@.len(), selection, nb_playable)
}

impl ChooseLevelState {
    pub closed spec fn status_spec(&self) -> Status {
        self.status
    }

    pub closed spec fn campaign(&self) -> LoadedCampaign {
        self.loaded_campaign
    }

    pub closed spec fn selected(&self) -> nat {
        self.selection as nat
    }

    pub closed spec fn nb_playable(&self) -> nat {
        self.nb_playable_levels as nat
    }

    pub closed spec fn scroll_pos(&self) -> nat {
        self.scroll as nat
    }

    pub closed spec fn height(&self) -> nat {
        self.area_height as nat
    }

    /// the list is never scrolled past the selection
    pub closed spec fn wf(&self) -> bool {
        self.scroll <= self.selection
    }

    /// the level choice of a campaign, with the first level selected
    /// and no level playable until the wins are checked
    pub fn new(loaded_campaign: LoadedCampaign) -> (s: Self)
        ensures
            s.wf(),
            s.status_spec().message@ == "Hit *↓* and *↑* to change the selection, *enter* to open it, *q* to quit"@,
            !s.status_spec().error,
            s.campaign() == loaded_campaign,
            s.selected() == 0,
            s.nb_playable() == 0,
            s.scroll_pos() == 0,
            s.height() == 0,
    {
        let status = Status::from_message(
            String::from_str("Hit *↓* and *↑* to change the selection, *enter* to open it, *q* to quit"),
        );
        ChooseLevelState {
            status,
            loaded_campaign,
            selection: 0,
            nb_playable_levels: 0,  // will be updated on check wins
            scroll: 0,
            area_height: 0,  // will be updated on first draw
        }
    }

    pub fn label(&self) -> (s: &'static str)
        ensures
            s@ == "level choice"@,
    {
        "level choice"
    }

    pub fn status(&self) -> (s: &Status)
        ensures
            *s == self.status_spec(),
    {
        &self.status
    }

    pub fn scroll(&self) -> (s: usize)
        ensures
            s == self.scroll_pos(),
    {
        self.scroll
    }

    pub fn selection(&self) -> (s: usize)
        ensures
            s == self.selected(),
    {
        self.selection
    }

    pub fn nb_playable_levels(&self) -> (n: usize)
        ensures
            n == self.nb_playable(),
    {
        self.nb_playable_levels
    }

    /// record the height of the area where the levels are listed
    pub fn set_area_height(&mut self, area_height: usize)
        ensures
            final(self).height() == area_height,
            final(self).status_spec() == old(self).status_spec(),
            final(self).campaign() == old(self).campaign(),
            final(self).selected() == old(self).selected(),
            final(self).nb_playable() == old(self).nb_playable(),
            final(self).scroll_pos() == old(self).scroll_pos(),
            old(self).wf() ==> final(self).wf(),
    {
        self.area_height = area_height;
    }

    /// the markdown listing the levels, the selected one and the ones
    /// not playable being marked
    pub fn markdown(&self) -> (md: String)
        ensures
            md@ == choice_markdown(self.campaign(), self.selected() as int, self.nb_playable() as int),
    {
        let mut md = String::new();
        md.append("\n# ");
        md.append(self.loaded_campaign.name());
        md.append("\n");
        let ghost head = md@;
        let levels = &self.loaded_campaign.levels;
        let mut i: usize = 0;
        while i < levels.len()
            invariant
                levels == &self.loaded_campaign.levels,
                i <= levels@.len(),
                head == "\n# "@ + self.loaded_campaign.campaign.name@ + "\n"@,
                md@ == head + level_lines(
                    levels@,
                    i as nat,
                    self.selection as int,
                    self.nb_playable_levels as int,
                ),
            decreases levels@.len() - i,
        {
            let ghost before = md@;
            md.append("\n");
            if i >= self.nb_playable_levels {
                md.append("#### ");
            } else if i == self.selection {
                md.append("### ");
            }
            md.append(levels[i].level.name.as_str());
            if levels[i].won {
                md.append(" ` WON `");
            }
            proof {
                let line = level_line(levels@, i as int, self.selection as int, self.nb_playable_levels as int);
                assert(md@ =~= before + line);
                assert(level_lines(levels@, (i + 1) as nat, self.selection as int, self.nb_playable_levels as int)
                    == level_lines(levels@, i as nat, self.selection as int, self.nb_playable_levels as int)
                    + line);
                assert(md@ =~= head + level_lines(
                    levels@,
                    (i + 1) as nat,
                    self.selection as int,
                    self.nb_playable_levels as int,
                ));
            }
            i += 1;
        }
        md
    }
}

impl ChooseLevelState {
    /// react to a key: move the selection up or down among the playable
    /// levels, scrolling to keep it visible, or tell the transition asked
    /// for (playing the selected level, the help, quitting)
    pub fn handle_key_event(&mut self, key: Key) -> (r: Option<StateTransition>)
        requires
            old(self).wf(),
            key == Key::Down ==> old(self).nb_playable() >= 1,
        ensures
            final(self).wf(),
            final(self).status_spec() == old(self).status_spec(),
            final(self).campaign() == old(self).campaign(),
            final(self).nb_playable() == old(self).nb_playable(),
            final(self).height() == old(self).height(),
            match key {
                Key::Up => r is None && if old(self).selected() > 0 {
                    &&& final(self).selected() == old(self).selected() - 1
                    &&& final(self).scroll_pos() == if old(self).scroll_pos() > 0
                        && final(self).selected() < old(self).scroll_pos() + 3 {
                        old(self).scroll_pos() - 1
                    } else {
                        old(self).scroll_pos() as int
                    }
                } else {
                    final(self).selected() == old(self).selected() && final(self).scroll_pos()
                        == old(self).scroll_pos()
                },
                Key::Down => r is None && if old(self).selected() < old(self).nb_playable() - 1 {
                    &&& final(self).selected() == old(self).selected() + 1
                    &&& final(self).scroll_pos() == if final(self).selected() + 8 >= old(self).scroll_pos()
                        + old(self).height() {
                        old(self).scroll_pos() + 1
                    } else {
                        old(self).scroll_pos()
                    }
                } else {
                    final(self).selected() == old(self).selected() && final(self).scroll_pos()
                        == old(self).scroll_pos()
                },
                _ => {
                    &&& final(self).selected() == old(self).selected()
                    &&& final(self).scroll_pos() == old(self).scroll_pos()
                    &&& r == match key {
                        Key::Enter => Some(StateTransition::PlayLevel { level_idx: old(self).selected() as usize }),
                        Key::Char('?') => Some(StateTransition::Help),
                        Key::Char('q') => Some(StateTransition::Quit),
                        _ => None,
                    }
                },
            },
    {
        match key {
            Key::Up => {
                if self.selection > 0 {
                    self.selection -= 1;
                    if self.scroll > 0 && (self.selection as u128) < (self.scroll as u128) + 3 {
                        self.scroll -= 1;
                    }
                }
                None
            },
            Key::Down => {
                if self.selection < self.nb_playable_levels - 1 {
                    self.selection += 1;
                    if (self.selection as u128) + 8 >= (self.scroll as u128) + (self.area_height as u128) {
                        self.scroll += 1;
                    }
                }
                None
            },
            Key::Enter => Some(StateTransition::PlayLevel { level_idx: self.selection }),
            Key::Char(c) => {
                if c == '?' {
                    Some(StateTransition::Help)
                } else if c == 'q' {
                    Some(StateTransition::Quit)
                } else {
                    None
                }
            },
            Key::Other => None,
        }
    }

    /// update the won property of levels (see `LoadedCampaign::check_wins`)
    /// and determine what levels are open to the player: all of them if
    /// the campaign allows it, else those up to the first one not won
    pub fn check_wins(&mut self, wins: Option<Vec<Result<bool, String>>>) -> (r: Result<(), String>)
        requires
            old(self).wf(),
            old(self).campaign().wf(),
            wins matches Some(w) ==> w@.len() == old(self).campaign().levels@.len(),
        ensures
            final(self).wf(),
            final(self).campaign().wf(),
            final(self).status_spec() == old(self).status_spec(),
            final(self).selected() == old(self).selected(),
            final(self).scroll_pos() == old(self).scroll_pos(),
            final(self).height() == old(self).height(),
            final(self).campaign().campaign == old(self).campaign().campaign,
            match wins {
                None => r is Ok && final(self).campaign().levels@ == old(self).campaign().levels@,
                Some(w) => wins_checked(w@, old(self).campaign().levels@, final(self).campaign().levels@, r),
            },
            r is Ok ==> final(self).nb_playable() == if old(self).campaign().campaign.allow_all_levels {
                old(self).campaign().campaign.levels@.len()
            } else {
                playable_count(final(self).campaign().levels@)
            },
            r is Err ==> final(self).nb_playable() == old(self).nb_playable(),
    {
        let res = self.loaded_campaign.check_wins(wins);
        if let Err(m) = res {
            return Err(m);
        }
        self.nb_playable_levels = if self.loaded_campaign.campaign.allow_all_levels {
            self.loaded_campaign.campaign.levels.len()
        } else {
            let levels = &self.loaded_campaign.levels;
            let mut nb: usize = 0;
            proof {
                assert(levels@.skip(0) =~= levels@);
            }
            while nb < levels.len()
                invariant_except_break
                    nb <= levels@.len(),
                    playable_count(levels@) == nb + playable_count(levels@.skip(nb as int)),
                ensures
                    nb == playable_count(levels@),
                decreases levels@.len() - nb,
            {
                proof {
                    assert(levels@.skip(nb as int)[0] == levels@[nb as int]);
                    assert(levels@.skip(nb as int).drop_first() =~= levels@.skip(nb + 1));
                }
                let won = levels[nb].won;
                nb += 1;
                if !won {
                    break;
                }
            }
            proof {
                if nb == levels@.len() {
                    assert(levels@.skip(nb as int) =~= Seq::<LoadedLevel>::empty());
                }
            }
            nb
        };
        Ok(())
    }

    /// a copy of the level at index `level_idx`, if there's one
    pub fn get_level(&self, level_idx: usize) -> (r: Option<Level>)
        ensures
            r is Some <==> level_idx < self.campaign().levels@.len(),
            r matches Some(l) ==> {
                let orig = self.campaign().levels@[level_idx as int].level;
                &&& l.name@ == orig.name@
                &&& l.default_terrain == orig.default_terrain
                &&& l.terrains@ == orig.terrains@
                &&& l.actors@ == orig.actors@
                &&& l.items@ == orig.items@
            },
    {
        if level_idx < self.loaded_campaign.levels.len() {
            Some(self.loaded_campaign.levels[level_idx].level.duplicate())
        } else {
            None
        }
    }
}

} // verus!
