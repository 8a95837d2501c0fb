use lapin::campaign::{
    create, insert_level, pack, remove_level, Bag, BagLevel, Campaign, CampaignError, ExternalLevel,
    LoadOrigin, LoadedCampaign, LoadedLevel,
};
use lapin::commands::{CampaignCommand, CampaignSubCommand, Command, Fromage, NewCampaignCommand, PlayCommand};
use lapin::fromage::{EditSubCommand, Fromage as DevFromage, SubCommand, TestSubCommand};
use lapin::help::{default_view, HelpAction, HelpKey, View};
use lapin::layout::simple_layout;
use lapin::level::Level;
use lapin::level_choice::{ChooseLevelState, Key};
use lapin::terrain::Terrain;
use lapin::transition::StateTransition;

fn level(name: &str) -> Level {
    let mut level = Level::default();
    level.name = name.to_string();
    level
}

fn campaign(keys: &[&str]) -> Campaign {
    let mut c = Campaign::default();
    c.name = "Tour".to_string();
    c.levels = keys.iter().map(|k| k.to_string()).collect();
    c
}

fn bag(keys: &[&str], stored: &[&str]) -> Bag {
    let mut b = Bag::from_campaign(campaign(keys));
    for k in stored {
        insert_level(&mut b.levels, k.to_string(), level(&format!("level {}", k)));
    }
    b
}

fn names(lc: &LoadedCampaign) -> Vec<String> {
    lc.levels.iter().map(|ll| ll.level.name.clone()).collect()
}

#[test]
fn a_new_campaign_is_unnamed_and_empty() {
    let b = create();
    assert_eq!(b.campaigns.len(), 1);
    assert_eq!(b.campaigns[0].name, "Unnamed Campaign");
    assert!(b.campaigns[0].levels.is_empty());
    assert!(!b.campaigns[0].allow_all_levels);
    assert!(b.levels.is_empty());
    assert!(b.is_campaign());
}

#[test]
fn bag_levels_behave_as_a_map() {
    let mut levels: Vec<BagLevel> = Vec::new();
    insert_level(&mut levels, "a".to_string(), level("first"));
    insert_level(&mut levels, "b".to_string(), level("second"));
    insert_level(&mut levels, "a".to_string(), level("third"));
    assert_eq!(levels.len(), 2);
    assert_eq!(remove_level(&mut levels, &"a".to_string()).unwrap().name, "third");
    assert!(remove_level(&mut levels, &"a".to_string()).is_none());
    assert_eq!(levels.len(), 1);
}

#[test]
fn unpacking_takes_the_levels_in_campaign_order() {
    let lc = LoadedCampaign::from_packed_bag(bag(&["b", "a", "c"], &["a", "b", "c", "d"])).unwrap();
    assert_eq!(names(&lc), vec!["level b", "level a", "level c"]);
    assert!(lc.levels.iter().all(|ll| !ll.won));
    assert_eq!(lc.name(), "Tour");
}

#[test]
fn unpacking_fails_on_a_missing_level() {
    let r = LoadedCampaign::from_packed_bag(bag(&["a", "x"], &["a"]));
    assert_eq!(r.err(), Some(CampaignError::LevelNotInBag("x".to_string())));
}

#[test]
fn a_level_is_taken_once_out_of_the_bag() {
    let r = LoadedCampaign::from_packed_bag(bag(&["a", "a"], &["a"]));
    assert_eq!(r.err(), Some(CampaignError::LevelNotInBag("a".to_string())));
}

#[test]
fn an_empty_campaign_is_refused() {
    let r = LoadedCampaign::from_packed_bag(bag(&[], &["a"]));
    assert_eq!(r.err(), Some(CampaignError::EmptyCampaign));
    let r = LoadedCampaign::load(bag(&[], &[]), LoadOrigin::Bag, Vec::new());
    assert_eq!(r.err(), Some(CampaignError::EmptyCampaign));
}

#[test]
fn unpacking_uses_the_last_campaign() {
    let mut b = bag(&["a"], &["a", "b"]);
    b.campaigns.push(campaign(&["b"]));
    let lc = LoadedCampaign::from_packed_bag(b).unwrap();
    assert_eq!(names(&lc), vec!["level b"]);
}

#[test]
fn loading_prefers_the_bag_or_the_files() {
    let externals = || vec![ExternalLevel::Found(level("file a")), ExternalLevel::Found(level("file b"))];
    let lc = LoadedCampaign::load(bag(&["a", "b"], &["a"]), LoadOrigin::Bag, externals()).unwrap();
    assert_eq!(names(&lc), vec!["level a", "file b"]);
    let lc = LoadedCampaign::load(bag(&["a", "b"], &["a"]), LoadOrigin::External, externals()).unwrap();
    assert_eq!(names(&lc), vec!["file a", "file b"]);
    let lc = LoadedCampaign::load(
        bag(&["a", "b"], &["a", "b"]),
        LoadOrigin::External,
        vec![ExternalLevel::Missing, ExternalLevel::Found(level("file b"))],
    )
    .unwrap();
    assert_eq!(names(&lc), vec!["level a", "file b"]);
}

#[test]
fn loading_errors() {
    let r = LoadedCampaign::load(
        bag(&["a", "b"], &["a"]),
        LoadOrigin::Bag,
        vec![ExternalLevel::Unreadable("bad a".to_string()), ExternalLevel::Missing],
    );
    // the file of a isn't needed, b is nowhere
    assert_eq!(r.err(), Some(CampaignError::LevelNotFound("b".to_string())));
    let r = LoadedCampaign::load(
        bag(&["a", "b"], &["a", "b"]),
        LoadOrigin::External,
        vec![ExternalLevel::Missing, ExternalLevel::Unreadable("bad b".to_string())],
    );
    assert_eq!(r.err(), Some(CampaignError::Unreadable("bad b".to_string())));
    let r = LoadedCampaign::load(
        bag(&["a"], &[]),
        LoadOrigin::External,
        vec![ExternalLevel::Missing],
    );
    assert_eq!(r.err(), Some(CampaignError::LevelNotFound("a".to_string())));
}

#[test]
fn packing_then_unpacking_gives_back_the_levels() {
    let lc = LoadedCampaign::load(
        bag(&["x", "y"], &["y"]),
        LoadOrigin::Bag,
        vec![ExternalLevel::Found(level("file x")), ExternalLevel::Missing],
    )
    .unwrap();
    let packed = pack(lc);
    assert_eq!(packed.campaigns.len(), 1);
    assert_eq!(packed.levels.len(), 2);
    assert_eq!(packed.levels[0].key, "x");
    assert_eq!(packed.levels[1].key, "y");
    let unpacked = LoadedCampaign::from_packed_bag(packed).unwrap();
    assert_eq!(names(&unpacked), vec!["file x", "level y"]);
    assert_eq!(unpacked.campaign.name, "Tour");
}

#[test]
fn checking_wins() {
    let mut lc = LoadedCampaign::from_packed_bag(bag(&["a", "b", "c"], &["a", "b", "c"])).unwrap();
    assert_eq!(lc.check_wins(None), Ok(()));
    assert!(lc.levels.iter().all(|ll| !ll.won));
    assert_eq!(lc.check_wins(Some(vec![Ok(true), Ok(false), Ok(true)])), Ok(()));
    let wins: Vec<bool> = lc.levels.iter().map(|ll| ll.won).collect();
    assert_eq!(wins, vec![true, false, true]);
    let r = lc.check_wins(Some(vec![Ok(false), Err("no signature".to_string()), Ok(false)]));
    assert_eq!(r, Err("no signature".to_string()));
    let wins: Vec<bool> = lc.levels.iter().map(|ll| ll.won).collect();
    // updated up to the failure only
    assert_eq!(wins, vec![false, false, true]);
}

fn three_levels() -> LoadedCampaign {
    LoadedCampaign {
        campaign: campaign(&["a", "b", "c"]),
        levels: vec![
            LoadedLevel { level: level("A"), won: false },
            LoadedLevel { level: level("B"), won: false },
            LoadedLevel { level: level("C"), won: false },
        ],
    }
}

#[test]
fn playable_levels_are_those_up_to_the_first_not_won() {
    let mut state = ChooseLevelState::new(three_levels());
    assert_eq!(state.nb_playable_levels(), 0);
    assert_eq!(state.label(), "level choice");
    assert_eq!(state.check_wins(None), Ok(()));
    assert_eq!(state.nb_playable_levels(), 1);
    state.check_wins(Some(vec![Ok(true), Ok(false), Ok(false)])).unwrap();
    assert_eq!(state.nb_playable_levels(), 2);
    state.check_wins(Some(vec![Ok(true), Ok(true), Ok(true)])).unwrap();
    assert_eq!(state.nb_playable_levels(), 3);
    // a failure leaves the number unchanged
    assert!(state.check_wins(Some(vec![Ok(false), Err("e".to_string()), Ok(false)])).is_err());
    assert_eq!(state.nb_playable_levels(), 3);
}

#[test]
fn a_campaign_may_open_all_levels() {
    let mut lc = three_levels();
    lc.campaign.allow_all_levels = true;
    let mut state = ChooseLevelState::new(lc);
    state.check_wins(None).unwrap();
    assert_eq!(state.nb_playable_levels(), 3);
}

#[test]
fn selection_stays_among_playable_levels() {
    let mut state = ChooseLevelState::new(three_levels());
    state.check_wins(Some(vec![Ok(true), Ok(false), Ok(false)])).unwrap();
    assert_eq!(state.handle_key_event(Key::Up), None);
    assert_eq!(state.selection(), 0);
    assert_eq!(state.handle_key_event(Key::Down), None);
    assert_eq!(state.selection(), 1);
    state.handle_key_event(Key::Down);
    assert_eq!(state.selection(), 1);
    assert_eq!(state.handle_key_event(Key::Enter), Some(StateTransition::PlayLevel { level_idx: 1 }));
    assert_eq!(state.handle_key_event(Key::Char('?')), Some(StateTransition::Help));
    assert_eq!(state.handle_key_event(Key::Char('q')), Some(StateTransition::Quit));
    assert_eq!(state.handle_key_event(Key::Char('z')), None);
    assert_eq!(state.handle_key_event(Key::Other), None);
    state.handle_key_event(Key::Up);
    assert_eq!(state.selection(), 0);
}

#[test]
fn the_list_scrolls_with_the_selection() {
    let mut state = ChooseLevelState::new(three_levels());
    state.check_wins(Some(vec![Ok(true), Ok(true), Ok(true)])).unwrap();
    state.set_area_height(9);
    state.handle_key_event(Key::Down);
    // 1 + 8 >= 0 + 9
    assert_eq!(state.scroll(), 1);
    state.handle_key_event(Key::Down);
    assert_eq!(state.scroll(), 2);
    state.handle_key_event(Key::Up);
    // 1 < 2 + 3
    assert_eq!(state.scroll(), 1);
}

#[test]
fn the_level_list_markdown() {
    let mut state = ChooseLevelState::new(three_levels());
    state.check_wins(Some(vec![Ok(true), Ok(false), Ok(false)])).unwrap();
    state.handle_key_event(Key::Down);
    assert_eq!(state.markdown(), "\n# Tour\n\nA ` WON `\n### B\n#### C");
    assert_eq!(state.get_level(2).unwrap().name, "C");
    assert!(state.get_level(3).is_none());
    assert_eq!(state.status().message, "Hit *↓* and *↑* to change the selection, *enter* to open it, *q* to quit");
}

#[test]
fn help_keys() {
    let view = View::new("# Help", simple_layout());
    assert_eq!(view.label(), "help");
    assert_eq!(view.handle_key(HelpKey::Down), HelpAction::ScrollLines(1));
    assert_eq!(view.handle_key(HelpKey::Up), HelpAction::ScrollLines(-1));
    assert_eq!(view.handle_key(HelpKey::PageDown), HelpAction::ScrollPages(1));
    assert_eq!(view.handle_key(HelpKey::PageUp), HelpAction::ScrollPages(-1));
    assert_eq!(view.handle_key(HelpKey::Esc), HelpAction::Transition(StateTransition::Back));
    assert_eq!(view.handle_key(HelpKey::Char('q')), HelpAction::Transition(StateTransition::Quit));
    assert_eq!(view.handle_key(HelpKey::Char('h')), HelpAction::Ignore);
}

#[test]
fn only_campaign_commands_run_without_the_terminal_ui() {
    let play = Fromage { command: Some(Command::Play(PlayCommand { path: None })) };
    assert!(play.needs_tui());
    assert!(Fromage { command: None }.needs_tui());
    let new = Fromage {
        command: Some(Command::Campaign(CampaignCommand {
            sub: CampaignSubCommand::New(NewCampaignCommand { output_format: None, path: "c.json".to_string() }),
        })),
    };
    assert!(!new.needs_tui());
}

#[test]
fn levels_copy() {
    let mut l = level("copy me");
    l.default_terrain = Terrain::Water;
    let c = l.duplicate();
    assert_eq!(c.name, "copy me");
    assert_eq!(c.default_terrain, Terrain::Water);
    assert_eq!(c.actors, l.actors);
}

#[test]
fn dev_launch_arguments() {
    let edit = DevFromage {
        sub: Some(SubCommand::Edit(EditSubCommand { output_format: Some("json".to_string()), path: "l".to_string() })),
    };
    assert!(!edit.is_test());
    assert_eq!(edit.output_format(), Some("json".to_string()));
    let test = DevFromage { sub: Some(SubCommand::Test(TestSubCommand { output_format: None })) };
    assert!(test.is_test());
    assert_eq!(test.output_format(), None);
    assert_eq!(DevFromage { sub: None }.output_format(), None);
}

#[test]
fn the_standard_help() {
    let view = default_view();
    assert_eq!(view.layout, simple_layout());
    assert!(view.markdown.contains("grass"));
}

#[test]
fn a_level_file_holds_a_sole_level() {
    let mut b = Bag::from_level("den".to_string(), level("the den"));
    assert!(!b.is_campaign());
    assert_eq!(b.levels[0].key, "den");
    assert_eq!(b.as_sole_level().unwrap().name, "the den");
    assert!(b.levels.is_empty());
    assert!(b.as_sole_level().is_none());
    let mut with_campaign = bag(&["a"], &["a"]);
    assert!(with_campaign.as_sole_level().is_none());
    assert_eq!(with_campaign.levels.len(), 1);
}

#[test]
fn a_key_is_stored_once() {
    let mut levels: Vec<BagLevel> = Vec::new();
    insert_level(&mut levels, "a".to_string(), level("first"));
    insert_level(&mut levels, "a".to_string(), level("second"));
    insert_level(&mut levels, "b".to_string(), level("third"));
    insert_level(&mut levels, "a".to_string(), level("fourth"));
    assert_eq!(levels.len(), 2);
    assert_eq!(levels[0].key, "a");
    assert_eq!(levels[0].level.name, "fourth");
    assert_eq!(levels[1].key, "b");
}
