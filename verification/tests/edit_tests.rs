use lapin::actor::{Actor, ActorKind};
use lapin::board::Board;
use lapin::edit::drawing_action::DrawingAction;
use lapin::edit::drawing_action as drawing;
use lapin::edit::drawing_history::DrawingHistory;
use lapin::edit::ink::{actor_inks, item_inks, terrain_inks, Ink};
use lapin::edit::inkwell::{ink_at, InkWell};
use lapin::edit::level_editor::{EditorAction, EditorKey, LevelEditor};
use lapin::edit::pen::{pen_shapes, Pen, PenShape};
use lapin::item::{Item, ItemKind};
use lapin::layout::ScreenPos;
use lapin::level::Level;
use lapin::pos::Pos;
use lapin::terrain::Terrain;
use lapin::transition::StateTransition;
use lapin::edit::pen_panel::{click, layout_inkwells, layout_shapewells, ShapeWell};
use lapin::layout::Area;

fn p(x: i32, y: i32) -> Pos {
    Pos::new(x, y)
}

fn inked_terrain(a: DrawingAction) -> Board {
    let level = Level::default();
    let mut board = Board::from_level(&level);
    a.apply_to(&mut board);
    board
}

#[test]
fn bresenham_line() {
    assert_eq!(drawing::line(p(0, 0), p(4, 2)), vec![p(0, 0), p(1, 1), p(2, 1), p(3, 2), p(4, 2)]);
    assert_eq!(drawing::line(p(2, 2), p(2, -1)), vec![p(2, 2), p(2, 1), p(2, 0), p(2, -1)]);
    assert_eq!(drawing::line(p(3, 3), p(3, 3)), vec![p(3, 3)]);
    assert_eq!(drawing::line(p(0, 0), p(-3, -3)), vec![p(0, 0), p(-1, -1), p(-2, -2), p(-3, -3)]);
}

#[test]
fn a_line_doesnt_overshoot() {
    let pts = drawing::line(p(-5, 7), p(6, -2));
    assert_eq!(pts[0], p(-5, 7));
    assert_eq!(*pts.last().unwrap(), p(6, -2));
    for w in pts.windows(2) {
        assert!((w[1].x - w[0].x).abs() <= 1 && (w[1].y - w[0].y).abs() <= 1);
        assert_ne!(w[0], w[1]);
    }
    assert_eq!(pts.len(), 12);
}

#[test]
fn compass_lines() {
    // mostly rightward and up: a diagonal following the abscissas
    let board = inked_terrain(DrawingAction::CompassLineInk(Ink::Terrain(Terrain::Stone), p(0, 0), p(3, -2)));
    for i in 0..=3 {
        assert_eq!(board.get(p(i, -i)), Terrain::Stone);
    }
    assert_eq!(board.get(p(3, -2)), Terrain::Mud);
    // mostly vertical: a vertical line
    let board = inked_terrain(DrawingAction::CompassLineInk(Ink::Terrain(Terrain::Water), p(0, 0), p(-2, 5)));
    for y in 0..=5 {
        assert_eq!(board.get(p(0, y)), Terrain::Water);
    }
    assert_eq!(board.get(p(-2, 5)), Terrain::Mud);
    assert!(DrawingAction::CompassLineInk(Ink::EraseTerrain, p(0, 0), p(3, -2)).can_be_applied());
    // a diagonal going above the smallest ordinate can't be drawn
    assert!(!DrawingAction::CompassLineInk(Ink::EraseTerrain, p(0, i32::MIN + 1), p(2, i32::MIN)).can_be_applied());
    // a horizontal one can, near that limit
    assert!(DrawingAction::CompassLineInk(Ink::EraseTerrain, p(0, i32::MIN + 1), p(5, i32::MIN + 3)).can_be_applied());
}

#[test]
fn rectangles_cover_both_corners() {
    let board = inked_terrain(DrawingAction::RectInk(Ink::Terrain(Terrain::Sand), p(2, 1), p(0, -1)));
    for x in 0..=2 {
        for y in -1..=1 {
            assert_eq!(board.get(p(x, y)), Terrain::Sand);
        }
    }
    assert_eq!(board.get(p(3, 0)), Terrain::Mud);
    assert_eq!(board.get(p(1, 2)), Terrain::Mud);
}

#[test]
fn inking_actors_and_items() {
    let level = Level::default();
    let mut board = Board::from_level(&level);
    DrawingAction::DotInk(Ink::Actor(ActorKind::Wolf), p(2, 2)).apply_to(&mut board);
    assert_eq!(board.actors.by_pos(p(2, 2)).unwrap().kind, ActorKind::Wolf);
    // another actor replaces the wolf
    DrawingAction::DotInk(Ink::Actor(ActorKind::Sheep), p(2, 2)).apply_to(&mut board);
    assert_eq!(board.actors.by_pos(p(2, 2)).unwrap().kind, ActorKind::Sheep);
    assert_eq!(board.actors.len(), 2);
    // the lapin is never replaced...
    DrawingAction::DotInk(Ink::Actor(ActorKind::Fox), p(0, 0)).apply_to(&mut board);
    assert_eq!(board.actors.by_pos(p(0, 0)).unwrap().kind, ActorKind::Lapin);
    // ...but moved
    DrawingAction::DotInk(Ink::Actor(ActorKind::Lapin), p(-3, 1)).apply_to(&mut board);
    assert_eq!(board.lapin_pos(), p(-3, 1));
    DrawingAction::DotInk(Ink::EraseActor, p(2, 2)).apply_to(&mut board);
    assert!(board.actors.by_pos(p(2, 2)).is_none());
    DrawingAction::DotInk(Ink::Item(ItemKind::Carrot), p(1, 1)).apply_to(&mut board);
    assert_eq!(board.items.get(p(1, 1)), Some(Item { kind: ItemKind::Carrot }));
    DrawingAction::DotInk(Ink::EraseItem, p(1, 1)).apply_to(&mut board);
    assert_eq!(board.items.get(p(1, 1)), None);
    DrawingAction::DotInk(Ink::Terrain(Terrain::Grass), p(1, 1)).apply_to(&mut board);
    DrawingAction::DotInk(Ink::EraseTerrain, p(1, 1)).apply_to(&mut board);
    assert_eq!(board.get(p(1, 1)), Terrain::Mud);
    DrawingAction::DefaultTerrain(Terrain::Sand).apply_to(&mut board);
    assert_eq!(board.get(p(1, 1)), Terrain::Sand);
}

#[test]
fn undo_then_redo_gives_back_the_board() {
    let level = Level::default();
    let mut board = Board::from_level(&level);
    let mut history = DrawingHistory::new(&level);
    assert!(!history.can_redo());
    assert!(!history.undo(&mut board));
    history.apply(DrawingAction::DotInk(Ink::Terrain(Terrain::Stone), p(1, 1)), &mut board);
    history.apply(DrawingAction::DotInk(Ink::Terrain(Terrain::Water), p(2, 2)), &mut board);
    assert!(history.undo(&mut board));
    assert_eq!(board.get(p(1, 1)), Terrain::Stone);
    assert_eq!(board.get(p(2, 2)), Terrain::Mud);
    assert!(history.can_redo());
    assert!(history.redo(&mut board));
    assert_eq!(board.get(p(2, 2)), Terrain::Water);
    assert!(!history.redo(&mut board));
    assert!(history.undo(&mut board));
    assert!(history.undo(&mut board));
    assert_eq!(board.get(p(1, 1)), Terrain::Mud);
    assert!(!history.undo(&mut board));
}

#[test]
fn a_new_action_forgets_the_undone_ones() {
    let level = Level::default();
    let mut board = Board::from_level(&level);
    let mut history = DrawingHistory::new(&level);
    history.apply(DrawingAction::DotInk(Ink::Terrain(Terrain::Stone), p(1, 1)), &mut board);
    history.undo(&mut board);
    history.apply(DrawingAction::DotInk(Ink::Terrain(Terrain::Sand), p(3, 3)), &mut board);
    assert!(!history.can_redo());
    assert_eq!(board.get(p(1, 1)), Terrain::Mud);
    assert_eq!(board.get(p(3, 3)), Terrain::Sand);
}

#[test]
fn pen_shapes_need_one_or_two_clicks() {
    let level = Level::default();
    let mut pen = Pen::new_for(&level);
    assert_eq!(pen.shape, PenShape::Dot);
    assert_eq!(pen.ink, Ink::Terrain(Terrain::Stone));
    assert_eq!(pen.click(p(1, 1), false), Some(DrawingAction::DotInk(Ink::Terrain(Terrain::Stone), p(1, 1))));
    pen.set_shape(PenShape::Line);
    pen.set_ink(Ink::Item(ItemKind::Wine));
    assert_eq!(pen.click(p(0, 0), false), None);
    assert!(pen.shape_started());
    assert_eq!(
        pen.status_help(),
        Some("Click again to draw a line - with the *ctrl* key down to force compass directions".to_string()),
    );
    assert_eq!(
        pen.click(p(5, 1), true),
        Some(DrawingAction::CompassLineInk(Ink::Item(ItemKind::Wine), p(0, 0), p(5, 1))),
    );
    assert!(!pen.shape_started());
    assert_eq!(pen.status_help(), None);
    pen.set_shape(PenShape::Rect);
    pen.click(p(1, 1), false);
    assert_eq!(pen.status_help(), Some("Click again to draw a rectangle".to_string()));
    pen.set_shape(PenShape::Dot);
    assert!(!pen.shape_started());
    assert_eq!(pen_shapes(), vec![PenShape::Dot, PenShape::Line, PenShape::Rect]);
}

#[test]
fn pen_ink_depends_on_the_level() {
    let mut level = Level::default();
    level.default_terrain = Terrain::Grass;
    assert_eq!(Pen::new_for(&level).ink, Ink::Terrain(Terrain::Mud));
}

#[test]
fn inks_and_inkwells() {
    assert_eq!(terrain_inks()[0], Ink::EraseTerrain);
    assert_eq!(terrain_inks().len(), 6);
    assert_eq!(item_inks().len(), 3);
    assert_eq!(actor_inks().len(), 8);
    assert_eq!(Ink::EraseItem.name(), "erase item");
    assert_eq!(Ink::Terrain(Terrain::Sand).name(), "sand");
    assert_eq!(Ink::Actor(ActorKind::Sheep).name(), "sheep");
    let wells = vec![
        InkWell { sp: ScreenPos::new(1, 1), ink: Ink::EraseTerrain },
        InkWell { sp: ScreenPos::new(3, 1), ink: Ink::Terrain(Terrain::Mud) },
        InkWell { sp: ScreenPos::new(3, 1), ink: Ink::Terrain(Terrain::Stone) },
    ];
    assert_eq!(ink_at(&wells, ScreenPos::new(3, 1)), Some(Ink::Terrain(Terrain::Mud)));
    assert_eq!(ink_at(&wells, ScreenPos::new(2, 1)), None);
}

fn fox_level() -> Level {
    let mut level = Level::default();
    level.name = "den".to_string();
    level.actors.push(Actor::new(ActorKind::Fox, 4, 0));
    level
}

#[test]
fn editor_keys_move_the_view() {
    let level = fox_level();
    let mut editor = LevelEditor::new(&level);
    assert_eq!(editor.center(), p(0, 0));
    assert_eq!(editor.status().message, "Use arrows to move, *q* to quit, *s* to save, *t* to test, *u*/*r* to undo/redo");
    assert!(!editor.status().error);
    assert_eq!(editor.handle_key_event(EditorKey::Up), EditorAction::Nothing);
    assert_eq!(editor.handle_key_event(EditorKey::Right), EditorAction::Nothing);
    assert_eq!(editor.handle_key_event(EditorKey::Right), EditorAction::Nothing);
    assert_eq!(editor.center(), p(2, -1));
    editor.handle_key_event(EditorKey::Down);
    editor.handle_key_event(EditorKey::Left);
    assert_eq!(editor.center(), p(1, 0));
    editor.handle_key_event(EditorKey::Char('c'));
    assert_eq!(editor.center(), p(0, 0));
    assert_eq!(editor.handle_key_event(EditorKey::Char('x')), EditorAction::Nothing);
    assert_eq!(editor.handle_key_event(EditorKey::Other), EditorAction::Nothing);
}

#[test]
fn editor_transitions_and_saving() {
    let level = fox_level();
    let mut editor = LevelEditor::new(&level);
    assert_eq!(editor.handle_key_event(EditorKey::Char('q')), EditorAction::Transition(StateTransition::Quit));
    assert_eq!(
        editor.handle_key_event(EditorKey::Char('t')),
        EditorAction::Transition(StateTransition::PlayLevel { level_idx: 0 }),
    );
    assert_eq!(editor.handle_key_event(EditorKey::Char('s')), EditorAction::Save);
    editor.saved(false);
    assert_eq!(editor.status().message, "level saving failed");
    assert!(editor.status().error);
    editor.saved(true);
    assert_eq!(editor.status().message, "level saved");
    assert!(!editor.status().error);
}

#[test]
fn editor_draws_undoes_and_redoes() {
    let level = fox_level();
    let mut editor = LevelEditor::new(&level);
    let action = editor.pen_click(p(2, 3), false);
    assert_eq!(action, Some(DrawingAction::DotInk(Ink::Terrain(Terrain::Stone), p(2, 3))));
    editor.apply_drawing(action);
    assert_eq!(editor.board().get(p(2, 3)), Terrain::Stone);
    assert_eq!(editor.status().message, "Use arrows to move, *q* to quit, *s* to save, *t* to test, *u*/*r* to undo/redo");
    editor.handle_key_event(EditorKey::Char('u'));
    assert_eq!(editor.board().get(p(2, 3)), Terrain::Mud);
    editor.handle_key_event(EditorKey::Char('r'));
    assert_eq!(editor.board().get(p(2, 3)), Terrain::Stone);
    // a line needs two clicks
    let mut pen = editor.pen();
    pen.set_shape(PenShape::Line);
    editor.set_pen(pen);
    let first = editor.pen_click(p(0, 5), false);
    assert_eq!(first, None);
    editor.apply_drawing(first);
    assert_eq!(editor.status().message, "Click again to draw a line - with the *ctrl* key down to force compass directions");
    let second = editor.pen_click(p(3, 5), false);
    editor.apply_drawing(second);
    for x in 0..=3 {
        assert_eq!(editor.board().get(p(x, 5)), Terrain::Stone);
    }
    let saved = editor.get_level().unwrap();
    assert_eq!(saved.name, "den");
    assert_eq!(saved.terrains.len(), 5);
    assert_eq!(saved.actors, level.actors);
}

#[test]
fn editor_renames_the_level() {
    let level = fox_level();
    let mut editor = LevelEditor::new(&level);
    editor.apply_drawing(Some(DrawingAction::DefaultTerrain(Terrain::Sand)));
    editor.set_name("burrow".to_string());
    assert_eq!(editor.board().name, "burrow");
    // undoing keeps the new name
    editor.handle_key_event(EditorKey::Char('u'));
    assert_eq!(editor.board().name, "burrow");
    assert_eq!(editor.board().default_terrain(), Terrain::Mud);
    let saved = editor.get_level().unwrap();
    assert_eq!(saved.name, "burrow");
}

#[test]
fn pen_panel_wells_and_clicks() {
    let (wells, end) = layout_inkwells(ScreenPos::new(0, 10), 9, &terrain_inks(), 1);
    assert_eq!(wells.len(), 6);
    assert_eq!(wells[0].sp, ScreenPos::new(10, 10));
    assert_eq!(wells[1].sp, ScreenPos::new(12, 10));
    assert_eq!(wells[5].ink, Ink::Terrain(Terrain::Sand));
    assert_eq!(end, ScreenPos::new(21, 10));
    let (tight, end) = layout_inkwells(end, 6, &item_inks(), 0);
    assert_eq!(tight[0].sp, ScreenPos::new(27, 10));
    assert_eq!(tight[2].sp, ScreenPos::new(29, 10));
    assert_eq!(end, ScreenPos::new(30, 10));
    let shapes = layout_shapewells(Area::new(0, 20, 100, 3));
    assert_eq!(
        shapes,
        vec![
            ShapeWell { area: Area::new(92, 20, 8, 1), shape: PenShape::Dot },
            ShapeWell { area: Area::new(92, 21, 8, 1), shape: PenShape::Line },
            ShapeWell { area: Area::new(92, 22, 8, 1), shape: PenShape::Rect },
        ],
    );
    let level = Level::default();
    let mut pen = Pen::new_for(&level);
    click(&mut pen, &shapes, &wells, ScreenPos::new(95, 21));
    assert_eq!(pen.shape, PenShape::Line);
    click(&mut pen, &shapes, &wells, ScreenPos::new(12, 10));
    assert_eq!(pen.ink, Ink::Terrain(Terrain::Mud));
    assert_eq!(pen.shape, PenShape::Line);
    let before = pen;
    click(&mut pen, &shapes, &wells, ScreenPos::new(11, 10));
    assert_eq!(pen, before);
}

#[test]
fn screens_labels() {
    let level = fox_level();
    let editor = LevelEditor::new(&level);
    assert_eq!(editor.label(), "editor");
    assert!(lapin::help::default_view().get_level(0).is_none());
}

#[test]
fn the_lapin_ink_replaces_the_actor_there() {
    let level = Level::default();
    let mut board = Board::from_level(&level);
    DrawingAction::DotInk(Ink::Actor(ActorKind::Wolf), p(2, 2)).apply_to(&mut board);
    DrawingAction::DotInk(Ink::Actor(ActorKind::Sheep), p(3, 2)).apply_to(&mut board);
    assert_eq!(board.actors.len(), 3);
    DrawingAction::DotInk(Ink::Actor(ActorKind::Lapin), p(2, 2)).apply_to(&mut board);
    assert_eq!(board.lapin_pos(), p(2, 2));
    assert_eq!(board.actors.len(), 2);
    assert_eq!(board.actors.by_pos(p(2, 2)).unwrap().kind, ActorKind::Lapin);
    assert_eq!(board.actors.iter().iter().filter(|a| a.pos == p(2, 2)).count(), 1);
    assert_eq!(board.actors.by_pos(p(3, 2)).unwrap().kind, ActorKind::Sheep);
}

#[test]
fn a_rectangle_is_the_same_whatever_its_corners() {
    for (a, b) in [(p(2, 1), p(0, -1)), (p(0, -1), p(2, 1)), (p(0, 1), p(2, -1)), (p(2, -1), p(0, 1))] {
        let board = inked_terrain(DrawingAction::RectInk(Ink::Terrain(Terrain::Sand), a, b));
        for x in -3..6 {
            for y in -4..4 {
                let inside = (0..=2).contains(&x) && (-1..=1).contains(&y);
                assert_eq!(board.get(p(x, y)) == Terrain::Sand, inside);
            }
        }
    }
}

#[test]
fn editor_clicks_are_routed_by_area() {
    let areas = lapin::layout::Areas {
        header: lapin::layout::Area::new(0, 0, 80, 2),
        board: lapin::layout::Area::new(0, 2, 60, 20),
        pen_panel: lapin::layout::Area::new(60, 2, 20, 20),
        help: lapin::layout::Area::new(0, 22, 80, 0),
        status: lapin::layout::Area::new(0, 22, 80, 1),
        ink_margin: 0,
    };
    let name = lapin::layout::Area::new(10, 0, 20, 1);
    let center = p(5, 5);
    let at = |x: u16, y: u16| lapin::layout::route_editor_click(&areas, &name, center, ScreenPos::new(x, y));
    assert_eq!(at(12, 0), lapin::layout::EditorClick::Name);
    assert_eq!(at(12, 1), lapin::layout::EditorClick::Header);
    assert_eq!(at(40, 0), lapin::layout::EditorClick::Header);
    // the middle of the board shows the center
    assert_eq!(at(30, 12), lapin::layout::EditorClick::Board(p(5, 5)));
    assert_eq!(at(31, 10), lapin::layout::EditorClick::Board(p(6, 3)));
    assert_eq!(at(70, 5), lapin::layout::EditorClick::PenPanel);
    assert_eq!(at(10, 23), lapin::layout::EditorClick::Nowhere);
    let far = lapin::layout::route_editor_click(&areas, &name, p(i32::MAX, 0), ScreenPos::new(59, 12));
    assert_eq!(far, lapin::layout::EditorClick::OffBoard);
}
