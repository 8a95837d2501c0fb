use lapin::play::{move_status, next_step, PlayStep};
use lapin::actor::{Actor, ActorKind, ActorState};
use lapin::actor_map::{ActorMap, ActorMapError, ActorRef};
use lapin::board::{outcome_result, Board, MoveOutcome, MoveResult, Player};
use lapin::item::{Item, ItemKind};
use lapin::level::Level;
use lapin::pos::{Dir, Pos, PosArea};
use lapin::terrain::Terrain;
use lapin::world_move::{Action, ActorMove, WorldMove};

fn mud_board() -> Board {
    Board::new("test".to_string(), PosArea::new(-10..10, -10..10), Terrain::Mud)
}

fn message(r: &MoveResult) -> String {
    match r {
        MoveResult::PlayerWin(s) | MoveResult::PlayerLose(s) => s.clone(),
        _ => String::new(),
    }
}

#[test]
fn new_board_has_only_the_lapin() {
    let board = mud_board();
    assert_eq!(board.lapin_pos(), Pos::new(0, 0));
    assert_eq!(board.actors.len(), 1);
    assert_eq!(board.current_player, Player::Lapin);
    assert_eq!(board.get(Pos::new(5, 5)), Terrain::Mud);
    assert_eq!(board.default_terrain(), Terrain::Mud);
}

#[test]
fn reaching_the_grass_wins() {
    let mut board = mud_board();
    board.set(Pos::new(1, 0), Terrain::Grass);
    let r = board.apply_player_move(Dir::Right);
    assert!(matches!(r, MoveResult::PlayerWin(_)));
    assert_eq!(message(&r), "You're on the grass.");
    assert_eq!(board.lapin_pos(), Pos::new(1, 0));
    assert_eq!(board.current_player, Player::Nobody);
}

#[test]
fn an_invalid_move_changes_nothing() {
    let mut board = mud_board();
    board.set(Pos::new(0, -1), Terrain::Stone);
    board.set(Pos::new(-1, 0), Terrain::Water);
    assert!(matches!(board.apply_player_move(Dir::Up), MoveResult::Invalid));
    assert!(matches!(board.apply_player_move(Dir::Left), MoveResult::Invalid));
    assert_eq!(board.lapin_pos(), Pos::new(0, 0));
    assert_eq!(board.current_player, Player::Lapin);
}

#[test]
fn the_lapin_cant_leave_the_game_area() {
    let mut board = mud_board();
    board.actors.move_lapin_to(Pos::new(999, 0));
    assert!(matches!(board.apply_player_move(Dir::Right), MoveResult::Invalid));
    assert_eq!(board.lapin_pos(), Pos::new(999, 0));
    assert!(matches!(board.apply_player_move(Dir::Left), MoveResult::Valid));
}

#[test]
fn only_the_lapin_plays_in_its_turn() {
    let mut board = mud_board();
    assert!(matches!(board.apply_player_move(Dir::Down), MoveResult::Valid));
    assert_eq!(board.current_player, Player::World);
    assert!(matches!(board.apply_player_move(Dir::Down), MoveResult::Invalid));
    assert_eq!(board.lapin_pos(), Pos::new(0, 1));
}

#[test]
fn walking_on_a_fox_gets_the_lapin_eaten() {
    let mut board = mud_board();
    board.add_actor_in(ActorKind::Fox, 1, 0).unwrap();
    let r = board.apply_player_move(Dir::Right);
    assert!(matches!(r, MoveResult::PlayerLose(_)));
    assert_eq!(message(&r), "You have been eaten by a *Fox*.");
    assert_eq!(board.current_player, Player::Nobody);
}

#[test]
fn a_sheep_blocks_the_lapin() {
    let mut board = mud_board();
    board.add_actor_in(ActorKind::Sheep, 1, 0).unwrap();
    assert!(matches!(board.apply_player_move(Dir::Right), MoveResult::Invalid));
    assert_eq!(board.lapin_pos(), Pos::new(0, 0));
}

#[test]
fn a_carrot_gives_another_move() {
    let mut board = mud_board();
    board.add_item_in(ItemKind::Carrot, 0, 1);
    assert!(matches!(board.apply_player_move(Dir::Down), MoveResult::Valid));
    assert_eq!(board.current_player, Player::Lapin);
    assert_eq!(board.items.get(Pos::new(0, 1)), None);
    assert!(matches!(board.apply_player_move(Dir::Down), MoveResult::Valid));
    assert_eq!(board.current_player, Player::World);
}

#[test]
fn move_results_messages() {
    assert_eq!(message(&outcome_result(MoveOutcome::Win)), "You're on the grass.");
    assert_eq!(
        message(&outcome_result(MoveOutcome::KilledBy(ActorKind::Hunter))),
        "You have been killed by a *Hunter*.",
    );
    assert_eq!(
        message(&outcome_result(MoveOutcome::EatenBy(ActorKind::Wolf))),
        "You have been eaten by a *Wolf*.",
    );
    assert!(matches!(outcome_result(MoveOutcome::Valid), MoveResult::Valid));
    assert!(matches!(outcome_result(MoveOutcome::Invalid), MoveResult::Invalid));
}

#[test]
fn adding_an_actor_on_a_living_one_fails() {
    let mut board = mud_board();
    assert!(board.add_actor_in(ActorKind::Wolf, 2, 2).is_ok());
    assert_eq!(board.add_actor_in(ActorKind::Sheep, 2, 2), Err(ActorMapError::Occupied(ActorKind::Wolf)));
    assert_eq!(board.add_actor_in(ActorKind::Sheep, 0, 0), Err(ActorMapError::Occupied(ActorKind::Lapin)));
    assert_eq!(board.actors.len(), 2);
}

#[test]
fn actor_map_references_by_position() {
    let mut map = ActorMap::from_area(PosArea::new(0..5, 0..5));
    let r = map.add(Actor::new(ActorKind::Knight, 3, 3)).unwrap();
    assert_eq!(r, ActorRef::from_id(1));
    assert_eq!(r.id(), Some(1));
    assert!(ActorRef::none().is_none());
    assert!(ActorRef::lapin().is_some());
    assert_eq!(map.ref_by_pos(Pos::new(3, 3)), r);
    assert!(map.ref_by_pos(Pos::new(1, 3)).is_none());
    assert_eq!(map.by_pos(Pos::new(3, 3)).unwrap().kind, ActorKind::Knight);
    assert_eq!(map.id_actor_by_pos(Pos::new(3, 3)).unwrap().0, 1);
    assert!(map.has_pos(Pos::new(0, 0)));
    assert!(map.move_by_id_in_dir(1, Dir::Up).is_ok());
    assert!(!map.has_pos(Pos::new(3, 3)));
    assert_eq!(map.by_id(1).pos, Pos::new(3, 2));
    assert_eq!(map.move_by_id_to_pos(1, Pos::new(0, 0)), Err(ActorMapError::Occupied(ActorKind::Lapin)));
    assert_eq!(map.ai_actor_ids(), 1..2);
}

#[test]
fn removing_the_dead_keeps_the_lapin() {
    let mut map = ActorMap::from_area(PosArea::empty());
    map.add(Actor::new(ActorKind::Fox, 1, 0)).unwrap();
    map.add(Actor::new(ActorKind::Wolf, 2, 0)).unwrap();
    map.add(Actor::new(ActorKind::Sheep, 3, 0)).unwrap();
    let dead = ActorState { dead: true, aim: None, drunk: false };
    map.set_state_by_id(0, dead);
    map.set_state_by_id(2, dead);
    map.remove_dead();
    let kinds: Vec<ActorKind> = map.iter().iter().map(|a| a.kind).collect();
    assert_eq!(kinds, vec![ActorKind::Lapin, ActorKind::Fox, ActorKind::Sheep]);
    assert!(map.lapin().state.dead);
    assert_eq!(map.by_pos(Pos::new(3, 0)).unwrap().kind, ActorKind::Sheep);
    assert!(map.by_pos(Pos::new(2, 0)).is_none());
}

#[test]
fn a_world_kill_ends_the_game() {
    let mut board = mud_board();
    board.add_actor_in(ActorKind::Fox, 2, 0).unwrap();
    let mut wm = WorldMove { actor_moves: vec![ActorMove::new(1, Action::Eats(Dir::Left, 0))] };
    let r = board.apply_world_move(&mut wm);
    assert_eq!(message(&r), "You have been eaten by a *Fox*.");
    assert_eq!(board.current_player, Player::Nobody);
    assert!(board.actors.lapin().state.dead);
    // the fox made its step
    assert_eq!(board.actors.by_id(1).pos, Pos::new(1, 0));
    assert_eq!(wm.actor_moves.len(), 1);
}

#[test]
fn world_moves_into_occupied_positions_are_dropped() {
    let mut board = mud_board();
    board.add_actor_in(ActorKind::Sheep, 2, 0).unwrap();
    board.add_actor_in(ActorKind::Sheep, 3, 0).unwrap();
    let mut wm = WorldMove {
        actor_moves: vec![
            ActorMove::new(1, Action::Moves(Dir::Right)),
            ActorMove::new(2, Action::Moves(Dir::Down)),
        ],
    };
    let r = board.apply_world_move(&mut wm);
    assert!(matches!(r, MoveResult::Valid));
    assert_eq!(board.current_player, Player::Lapin);
    assert_eq!(board.actors.by_id(1).pos, Pos::new(2, 0));
    assert_eq!(board.actors.by_id(2).pos, Pos::new(3, 1));
    assert_eq!(wm.actor_moves, vec![ActorMove::new(2, Action::Moves(Dir::Down))]);
}

#[test]
fn knights_are_immune_to_the_hunters_fire() {
    let mut board = mud_board();
    board.add_actor_in(ActorKind::Hunter, 4, 0).unwrap();
    board.add_actor_in(ActorKind::Knight, 2, 0).unwrap();
    board.add_actor_in(ActorKind::Wolf, 4, 3).unwrap();
    let mut wm = WorldMove {
        actor_moves: vec![
            ActorMove::new(1, Action::Fires(Dir::Left, 2)),
            ActorMove::new(1, Action::Fires(Dir::Down, 3)),
        ],
    };
    let r = board.apply_world_move(&mut wm);
    assert!(matches!(r, MoveResult::Valid));
    // the knight lives, the wolf was removed
    assert_eq!(board.actors.len(), 3);
    assert_eq!(board.actors.by_id(2).kind, ActorKind::Knight);
    assert!(board.actors.by_pos(Pos::new(4, 3)).is_none());
    assert_eq!(wm.actor_moves.len(), 2);
}

#[test]
fn a_hunter_walking_on_wine_gets_drunk() {
    let mut board = mud_board();
    board.add_actor_in(ActorKind::Hunter, 4, 4).unwrap();
    board.add_item_in(ItemKind::Wine, 4, 5);
    let mut wm = WorldMove { actor_moves: vec![ActorMove::new(1, Action::Moves(Dir::Down))] };
    board.apply_world_move(&mut wm);
    assert!(board.actors.by_id(1).state.drunk);
    assert_eq!(board.items.get(Pos::new(4, 5)), None);
}

#[test]
fn aiming_is_part_of_the_state() {
    let mut board = mud_board();
    board.add_actor_in(ActorKind::Hunter, 4, 0).unwrap();
    let mut wm = WorldMove { actor_moves: vec![ActorMove::new(1, Action::Aims(Dir::Left))] };
    board.apply_world_move(&mut wm);
    assert_eq!(board.actors.by_id(1).state.aim, Some(Dir::Left));
    assert!(board.actors.by_id(1).is_aiming());
    let mut wm = WorldMove { actor_moves: vec![ActorMove::new(1, Action::StopsAiming)] };
    board.apply_world_move(&mut wm);
    assert!(!board.actors.by_id(1).is_aiming());
}

#[test]
fn terrain_ranges_and_lines() {
    let mut board = mud_board();
    board.set_range(0..3, 0..2, Terrain::Sand);
    board.set_h_line(-2..0, 5, Terrain::Water);
    board.set_v_line(7, 1..3, Terrain::Stone);
    assert_eq!(board.get(Pos::new(2, 1)), Terrain::Sand);
    assert_eq!(board.get(Pos::new(3, 1)), Terrain::Mud);
    assert_eq!(board.get(Pos::new(-1, 5)), Terrain::Water);
    assert_eq!(board.get(Pos::new(0, 5)), Terrain::Mud);
    assert_eq!(board.get(Pos::new(7, 2)), Terrain::Stone);
    assert_eq!(board.get(Pos::new(7, 3)), Terrain::Mud);
}

#[test]
fn a_saved_level_reloads_into_the_same_board() {
    let mut board = mud_board();
    board.set(Pos::new(1, 1), Terrain::Grass);
    board.set(Pos::new(2, 1), Terrain::Mud);
    board.add_item_in(ItemKind::Carrot, 3, 3);
    board.add_actor_in(ActorKind::Wolf, -2, 4).unwrap();
    let level = Level::from_board(&board);
    assert_eq!(level.name, "test");
    assert_eq!(level.default_terrain, Terrain::Mud);
    // the terrain equal to the default one isn't kept
    assert_eq!(level.terrains.len(), 1);
    assert_eq!(level.items.len(), 1);
    assert_eq!(level.actors.len(), 2);
    let reloaded = Board::from_level(&level);
    for x in -3..5 {
        for y in -1..6 {
            let p = Pos::new(x, y);
            assert_eq!(reloaded.get(p), board.get(p));
            assert_eq!(reloaded.items.get(p), board.items.get(p));
        }
    }
    assert_eq!(reloaded.actors.vec(), board.actors.vec());
    assert_eq!(reloaded.name, "test");
}

#[test]
fn reset_to_a_level() {
    let mut level = Level::default();
    level.default_terrain = Terrain::Sand;
    level.actors = vec![Actor::new(ActorKind::Lapin, 5, 5), Actor::new(ActorKind::Fox, 6, 6)];
    let mut board = mud_board();
    board.set(Pos::new(1, 1), Terrain::Stone);
    board.reset_to(&level);
    assert_eq!(board.get(Pos::new(1, 1)), Terrain::Sand);
    assert_eq!(board.lapin_pos(), Pos::new(5, 5));
    assert_eq!(board.actors.len(), 2);
    assert_eq!(board.name, "test");
}

#[test]
fn actor_positions() {
    let mut board = mud_board();
    board.add_actor_in(ActorKind::Sheep, 1, 2).unwrap();
    let set = board.actor_pos_set();
    assert!(set.has_key(Pos::new(0, 0)));
    assert!(set.has_key(Pos::new(1, 2)));
    assert!(!set.has_key(Pos::new(2, 1)));
    let map = board.actor_pos_map();
    assert_eq!(map.get(Pos::new(1, 2)).map(|a| a.kind), Some(ActorKind::Sheep));
    assert_eq!(map.get(Pos::new(2, 2)), None);
}

#[test]
fn items() {
    let mut board = mud_board();
    board.add_item_in(ItemKind::Wine, 1, 1);
    assert_eq!(board.items.get(Pos::new(1, 1)), Some(Item { kind: ItemKind::Wine }));
    board.add_item_in(ItemKind::Carrot, 1, 1);
    assert_eq!(board.items.get(Pos::new(1, 1)), Some(Item { kind: ItemKind::Carrot }));
}

#[test]
fn a_dead_actor_moves_onto_a_living_one() {
    let mut m = ActorMap::from_area(PosArea::new(-10..10, -10..10));
    m.add(Actor::new(ActorKind::Sheep, 3, 0)).unwrap();
    m.add(Actor::new(ActorKind::Wolf, 4, 0)).unwrap();
    // a living mover is stopped by a living actor
    assert_eq!(m.move_by_id_to_pos(2, Pos::new(3, 0)), Err(ActorMapError::Occupied(ActorKind::Sheep)));
    assert_eq!(m.by_id(2).pos, Pos::new(4, 0));
    // a dead one isn't, and isn't referenced where it lands
    let mut state = m.by_id(2).state;
    state.dead = true;
    m.set_state_by_id(2, state);
    assert_eq!(m.move_by_id_to_pos(2, Pos::new(3, 0)), Ok(()));
    assert_eq!(m.by_id(2).pos, Pos::new(3, 0));
    assert_eq!(m.by_pos(Pos::new(3, 0)).unwrap().kind, ActorKind::Sheep);
}

#[test]
fn a_living_actor_is_stopped_even_when_the_lapin_is_dead() {
    let mut m = ActorMap::from_area(PosArea::new(-10..10, -10..10));
    m.add(Actor::new(ActorKind::Sheep, 3, 0)).unwrap();
    m.add(Actor::new(ActorKind::Wolf, 4, 0)).unwrap();
    let mut state = m.lapin().state;
    state.dead = true;
    m.set_state_by_id(0, state);
    assert!(m.move_by_id_to_pos(2, Pos::new(3, 0)).is_err());
    assert_eq!(m.by_id(2).pos, Pos::new(4, 0));
}

#[test]
fn adding_an_actor_gives_its_id() {
    let mut board = mud_board();
    let r = board.add_actor_in(ActorKind::Sheep, 2, 2).unwrap();
    assert_eq!(r.id(), Some(1));
    let r = board.add_actor(Actor::new(ActorKind::Fox, 3, 3)).unwrap();
    assert_eq!(r.id(), Some(2));
    assert_eq!(board.add_actor_in(ActorKind::Wolf, 2, 2).unwrap_err(), ActorMapError::Occupied(ActorKind::Sheep));
    assert_eq!(board.actors.len(), 3);
}

#[test]
fn an_actor_map_may_be_built_empty() {
    let m = ActorMap::new(PosArea::new(-10..10, -10..10), Vec::new());
    assert_eq!(m.len(), 0);
    assert!(m.ref_by_pos(Pos::new(0, 0)).is_none());
}

#[test]
fn adding_on_a_copy_fails_where_a_living_actor_stands() {
    let mut m = ActorMap::from_area(PosArea::new(-10..10, -10..10));
    m.add(Actor::new(ActorKind::Sheep, 3, 0)).unwrap();
    for x in -2..5 {
        let p = Pos::new(x, 0);
        let a = Actor::new(ActorKind::Wolf, x, 0);
        assert_eq!(m.has_pos(p), m.clone().add(a).is_err());
    }
    assert_eq!(m.len(), 2);
}

#[test]
fn a_world_move_leaves_the_lapin_alive_and_keeps_some_moves_in_order() {
    let mut board = mud_board();
    board.add_actor_in(ActorKind::Sheep, 2, 0).unwrap();
    board.add_actor_in(ActorKind::Sheep, 3, 0).unwrap();
    let given = vec![
        ActorMove::new(2, Action::Moves(Dir::Up)),
        ActorMove::new(1, Action::Moves(Dir::Right)),
        ActorMove::new(1, Action::Moves(Dir::Down)),
    ];
    let mut wm = WorldMove { actor_moves: given.clone() };
    let r = board.apply_world_move(&mut wm);
    assert!(!matches!(r, MoveResult::PlayerLose(_)));
    assert!(!board.actors.lapin().state.dead);
    assert_eq!(board.current_player, Player::Lapin);
    assert_eq!(wm.actor_moves, given);
    assert_eq!(board.actors.by_id(1).pos, Pos::new(3, 1));
}

#[test]
fn the_play_screen_steps() {
    assert_eq!(next_step(Player::Lapin), PlayStep::WaitForKey);
    assert_eq!(next_step(Player::World), PlayStep::PlayWorld);
    assert_eq!(next_step(Player::Nobody), PlayStep::GameOver);
    let won = move_status(outcome_result(MoveOutcome::Win)).unwrap();
    assert_eq!(won.message, "You're on the grass. Hit *esc* to go back");
    assert!(!won.error);
    let lost = move_status(outcome_result(MoveOutcome::EatenBy(ActorKind::Wolf))).unwrap();
    assert_eq!(lost.message, "You have been eaten by a *Wolf*. Hit *esc* to go back");
    assert!(lost.error);
    assert!(move_status(MoveResult::Valid).is_none());
    assert!(move_status(MoveResult::Invalid).is_none());
}
