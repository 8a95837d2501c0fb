use lapin::actor::{actors, Actor, ActorKind, ActorState};
use lapin::board::Board;
use lapin::critters::{Fox, Knight, Lapin};
use lapin::item::{items, ItemKind};
use lapin::path::{Goal, PathFinder, ValuedPos};
use lapin::pos::{Dir, Pos, PosArea};
use lapin::terrain::{terrains, Terrain};
use lapin::world::WorldPlayer;
use lapin::world_move::{Action, ActorMove};

fn mud_board() -> Board {
    Board::new(String::new(), PosArea::new(-20..20, -20..20), Terrain::Mud)
}

fn check_path(start: Pos, path: &[Pos]) {
    let mut prev = start;
    for &p in path {
        assert_eq!(lapin::pos::Pos::manhattan_distance(prev, p), 1);
        prev = p;
    }
}

#[test]
fn kinds_and_names() {
    assert_eq!(actors().len(), 7);
    assert_eq!(ActorKind::Hunter.name(), "hunter");
    assert_eq!(ActorKind::Hunter.debug_name(), "Hunter");
    assert_eq!(ItemKind::Wine.name(), "wine bottle");
    assert_eq!(items(), vec![ItemKind::Carrot, ItemKind::Wine]);
    assert_eq!(terrains().len(), 5);
    assert_eq!(Terrain::Water.name(), "water");
}

#[test]
fn who_eats_whom() {
    assert!(ActorKind::Fox.eats(ActorKind::Lapin));
    assert!(!ActorKind::Fox.eats(ActorKind::Sheep));
    assert!(ActorKind::Wolf.eats(ActorKind::Sheep));
    assert!(ActorKind::Knight.eats(ActorKind::Wolf));
    assert!(!ActorKind::Knight.eats(ActorKind::Lapin));
    assert!(ActorKind::Dragon.eats(ActorKind::Knight));
    assert!(ActorKind::Hunter.runs_after(ActorKind::Lapin));
    assert!(!ActorKind::Hunter.eats(ActorKind::Lapin));
    assert!(ActorKind::Hunter.drinks_wine());
    assert!(!ActorKind::Wolf.drinks_wine());
    assert!(ActorKind::Knight.is_immune_to_fire(ActorKind::Hunter));
    assert!(!ActorKind::Knight.is_immune_to_fire(ActorKind::Dragon));
    assert!(!ActorKind::Fox.is_immune_to_fire(ActorKind::Hunter));
}

#[test]
fn terrains_actors_can_enter() {
    let knight = Actor::new(ActorKind::Knight, 0, 0);
    let dragon = Actor::new(ActorKind::Dragon, 0, 0);
    let lapin = Actor::new(ActorKind::Lapin, 0, 0);
    assert!(!knight.can_enter(Terrain::Sand));
    assert!(lapin.can_enter(Terrain::Sand));
    assert!(dragon.can_enter(Terrain::Water));
    assert!(!lapin.can_enter(Terrain::Water));
    assert!(!dragon.can_enter(Terrain::Stone));
    assert!(knight.can_enter(Terrain::Grass));
}

#[test]
fn preys_and_fire() {
    assert_eq!(Actor::new(ActorKind::Fox, 0, 0).preys(), Some(vec![ActorKind::Lapin]));
    assert_eq!(Actor::new(ActorKind::Sheep, 0, 0).preys(), None);
    let mut hunter = Actor::new(ActorKind::Hunter, 0, 0);
    let sheep = Actor::new(ActorKind::Sheep, 1, 0);
    assert!(!hunter.fires_on(sheep));
    assert!(hunter.fires_on(Actor::new(ActorKind::Wolf, 1, 0)));
    hunter.state = ActorState { dead: false, aim: None, drunk: true };
    assert!(hunter.fires_on(sheep));
    assert!(!Actor::new(ActorKind::Fox, 0, 0).fires_on(sheep));
}

#[test]
fn critters() {
    assert_eq!(Lapin::new(1, 2).pos, Pos::new(1, 2));
    assert_eq!(Fox::new(3, 4).pos, Pos::new(3, 4));
    assert_eq!(Knight::new(0, -1).pos, Pos::new(0, -1));
}

#[test]
fn an_adjacent_fox_eats_the_lapin() {
    let mut board = mud_board();
    board.add_actor_in(ActorKind::Fox, 1, 1).unwrap();
    let wm = WorldPlayer::new(&board, 0).play();
    assert_eq!(wm.actor_moves, vec![ActorMove::new(1, Action::Eats(Dir::LeftUp, 0))]);
}

#[test]
fn a_far_fox_walks_toward_the_lapin() {
    let mut board = mud_board();
    board.add_actor_in(ActorKind::Fox, 5, 0).unwrap();
    let wm = WorldPlayer::new(&board, 0).play();
    assert_eq!(wm.actor_moves, vec![ActorMove::new(1, Action::Moves(Dir::Left))]);
}

#[test]
fn a_sheep_on_grass_stays() {
    let mut board = mud_board();
    board.set(Pos::new(5, 5), Terrain::Grass);
    board.add_actor_in(ActorKind::Sheep, 5, 5).unwrap();
    let wm = WorldPlayer::new(&board, 0).play();
    assert_eq!(wm.actor_moves.len(), 0);
}

#[test]
fn a_sheep_goes_to_the_grass() {
    let mut board = mud_board();
    board.set_range(-20..20, -20..20, Terrain::Stone);
    board.set_h_line(0..5, 5, Terrain::Mud);
    board.set(Pos::new(5, 5), Terrain::Grass);
    board.add_actor_in(ActorKind::Sheep, 1, 5).unwrap();
    let wm = WorldPlayer::new(&board, 3).play();
    assert_eq!(wm.actor_moves, vec![ActorMove::new(1, Action::Moves(Dir::Right))]);
}

#[test]
fn a_wolf_prefers_the_adjacent_sheep() {
    let mut board = mud_board();
    board.add_actor_in(ActorKind::Wolf, 5, 5).unwrap();
    board.add_actor_in(ActorKind::Sheep, 5, 6).unwrap();
    let wm = WorldPlayer::new(&board, 0).play();
    assert_eq!(wm.actor_moves[0], ActorMove::new(1, Action::Eats(Dir::Down, 2)));
}

#[test]
fn a_hunter_aims_then_fires() {
    let mut board = mud_board();
    board.add_actor_in(ActorKind::Hunter, 3, 0).unwrap();
    let wm = WorldPlayer::new(&board, 0).play();
    assert_eq!(wm.actor_moves, vec![ActorMove::new(1, Action::Aims(Dir::Left))]);
    let mut wm = wm;
    board.apply_world_move(&mut wm);
    let wm = WorldPlayer::new(&board, 0).play();
    assert_eq!(wm.actor_moves, vec![ActorMove::new(1, Action::Fires(Dir::Left, 0))]);
}

#[test]
fn a_stone_stops_the_fire() {
    let mut board = mud_board();
    board.add_actor_in(ActorKind::Hunter, 3, 0).unwrap();
    let mut wm = WorldPlayer::new(&board, 0).play();
    board.apply_world_move(&mut wm);
    board.set(Pos::new(2, 0), Terrain::Stone);
    let wm = WorldPlayer::new(&board, 0).play();
    // still aiming in the right quadrant: nothing to do
    assert_eq!(wm.actor_moves.len(), 0);
}

#[test]
fn world_moves_only_name_actors_of_the_board() {
    let mut board = mud_board();
    board.add_actor_in(ActorKind::Fox, 4, 4).unwrap();
    board.add_actor_in(ActorKind::Wolf, -4, 4).unwrap();
    board.add_actor_in(ActorKind::Knight, 0, -6).unwrap();
    board.add_actor_in(ActorKind::Hunter, 8, 0).unwrap();
    board.add_actor_in(ActorKind::Sheep, -8, -8).unwrap();
    board.add_actor_in(ActorKind::Dragon, 10, 10).unwrap();
    let wm = WorldPlayer::new(&board, 7).play();
    let mut last = 0;
    for m in &wm.actor_moves {
        assert!(m.actor_id > last);
        assert!(m.actor_id < board.actors.len());
        if let Some(t) = m.target_id() {
            assert!(t < board.actors.len());
        }
        last = m.actor_id;
    }
    let mut wm = wm;
    board.apply_world_move(&mut wm);
}

#[test]
fn path_to_a_position_in_a_corridor() {
    let mut board = mud_board();
    board.set_range(-20..20, -20..20, Terrain::Stone);
    board.set_h_line(0..6, 0, Terrain::Mud);
    board.set_v_line(5, 0..4, Terrain::Mud);
    let fox = Actor::new(ActorKind::Fox, 0, 0);
    let mut pf = PathFinder::new(fox, &board, 0);
    let path = pf.find(Goal::Pos(Pos::new(5, 3)), Some(Pos::new(5, 3))).unwrap();
    assert_eq!(path.len(), 8);
    assert_eq!(*path.last().unwrap(), Pos::new(5, 3));
    check_path(fox.pos, &path);
    let mut pf = PathFinder::new(fox, &board, 5);
    let path = pf.find(Goal::Pos(Pos::new(5, 3)), None).unwrap();
    assert_eq!(path.len(), 8);
    check_path(fox.pos, &path);
}

#[test]
fn no_path_through_walls() {
    let mut board = mud_board();
    board.set_range(2..9, 2..9, Terrain::Stone);
    board.set(Pos::new(5, 5), Terrain::Mud);
    let fox = Actor::new(ActorKind::Fox, 5, 5);
    board.add_actor(fox).unwrap();
    let mut pf = PathFinder::new(fox, &board, 0);
    assert!(pf.find(Goal::Terrain(Terrain::Grass), None).is_none());
}

#[test]
fn path_to_the_nearest_prey() {
    let mut board = mud_board();
    board.add_actor_in(ActorKind::Sheep, 0, 4).unwrap();
    let wolf = Actor::new(ActorKind::Wolf, 0, 9);
    let mut pf = PathFinder::new(wolf, &board, 0);
    let path = pf.find(Goal::ActorKinds(vec![ActorKind::Sheep]), None).unwrap();
    assert_eq!(*path.last().unwrap(), Pos::new(0, 4));
    assert_eq!(path.len(), 5);
    check_path(wolf.pos, &path);
}

#[test]
fn valued_pos() {
    let vp = ValuedPos::from(Pos::new(1, 2), -3);
    assert_eq!(vp.pos, Pos::new(1, 2));
    assert_eq!(vp.score, -3);
}

#[test]
fn without_hint_the_path_is_a_shortest_one() {
    // two ways around a wall: the short one goes by the top
    let mut board = mud_board();
    board.set_v_line(2, -1..6, Terrain::Stone);
    let wolf = Actor::new(ActorKind::Wolf, 0, 0);
    board.add_actor_in(ActorKind::Sheep, 4, 0).unwrap();
    for seed in 0..8 {
        let mut pf = PathFinder::new(wolf, &board, seed);
        let path = pf.find(Goal::ActorKinds(vec![ActorKind::Sheep]), None).unwrap();
        assert_eq!(path.len(), 8);
        assert_eq!(*path.last().unwrap(), Pos::new(4, 0));
        check_path(wolf.pos, &path);
    }
}

#[test]
fn a_search_with_a_hint_gives_up_when_too_wide() {
    // in an open field with no grass, the open set grows too big
    let board = mud_board();
    let fox = Actor::new(ActorKind::Fox, 0, 0);
    let mut pf = PathFinder::new(fox, &board, 0);
    assert!(pf.find(Goal::Terrain(Terrain::Grass), Some(Pos::new(1000, 1000))).is_none());
}

#[test]
fn the_seed_picks_the_first_direction_tried() {
    let mut board = mud_board();
    board.set(Pos::new(0, -1), Terrain::Grass);
    board.set(Pos::new(1, 0), Terrain::Grass);
    let sheep = Actor::new(ActorKind::Sheep, 0, 0);
    let expected = [Pos::new(0, -1), Pos::new(1, 0), Pos::new(0, -1), Pos::new(0, -1)];
    for seed in 0..8usize {
        for hint in [None, Some(Pos::new(5, 5))] {
            let mut pf = PathFinder::new(sheep, &board, seed);
            let path = pf.find(Goal::Terrain(Terrain::Grass), hint).unwrap();
            assert_eq!(path, vec![expected[seed % 4]]);
        }
    }
}
