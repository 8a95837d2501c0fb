use lapin::layout::{editor_layout, simple_layout, Area, Layout, PosConverter, ScreenPos};
use lapin::pos::{Dir, Pos, PosArea};
use lapin::pos_map::{PosMap, PosSet};

#[test]
fn pos_moves_in_the_eight_directions() {
    let p = Pos::new(3, -2);
    assert_eq!(p.in_dir(Dir::Up), Pos::new(3, -3));
    assert_eq!(p.in_dir(Dir::UpRight), Pos::new(4, -3));
    assert_eq!(p.in_dir(Dir::Right), Pos::new(4, -2));
    assert_eq!(p.in_dir(Dir::RightDown), Pos::new(4, -1));
    assert_eq!(p.in_dir(Dir::Down), Pos::new(3, -1));
    assert_eq!(p.in_dir(Dir::DownLeft), Pos::new(2, -1));
    assert_eq!(p.in_dir(Dir::Left), Pos::new(2, -2));
    assert_eq!(p.in_dir(Dir::LeftUp), Pos::new(2, -3));
}

#[test]
fn pos_cant_move_out_of_the_integers() {
    let corner = Pos::new(i32::MAX, i32::MIN);
    assert!(!corner.can_move(Dir::Right));
    assert!(!corner.can_move(Dir::Up));
    assert!(!corner.can_move(Dir::UpRight));
    assert!(corner.can_move(Dir::Left));
    assert!(corner.can_move(Dir::Down));
    assert!(corner.can_move(Dir::DownLeft));
}

#[test]
fn dir_to_neighbours_only() {
    let o = Pos::new(0, 0);
    assert_eq!(o.dir_to(Pos::new(1, 1)), Some(Dir::RightDown));
    assert_eq!(o.dir_to(Pos::new(-1, 0)), Some(Dir::Left));
    assert_eq!(o.dir_to(Pos::new(0, -1)), Some(Dir::Up));
    assert_eq!(o.dir_to(Pos::new(2, 0)), None);
    assert_eq!(o.dir_to(o), None);
}

#[test]
fn dir_to_then_in_dir_gives_back_the_neighbour() {
    let a = Pos::new(-7, 12);
    for dx in -1..=1 {
        for dy in -1..=1 {
            let b = Pos::new(a.x + dx, a.y + dy);
            match a.dir_to(b) {
                Some(dir) => assert_eq!(a.in_dir(dir), b),
                None => assert_eq!(b, a),
            }
        }
    }
}

#[test]
fn quadrant_is_the_main_direction_of_the_biggest_component() {
    let o = Pos::new(0, 0);
    assert_eq!(o.quadrant_to(Pos::new(5, 2)), Dir::Right);
    assert_eq!(o.quadrant_to(Pos::new(2, 5)), Dir::Down);
    assert_eq!(o.quadrant_to(Pos::new(-5, 1)), Dir::Left);
    // vertical when both components are equal
    assert_eq!(o.quadrant_to(Pos::new(-3, -3)), Dir::Up);
    assert_eq!(o.quadrant_to(Pos::new(3, 3)), Dir::Down);
}

#[test]
fn quadrants_reduce_the_distance() {
    let o = Pos::new(0, 0);
    assert_eq!(o.quadrants_to(Pos::new(5, 2)), vec![Dir::Right, Dir::Down]);
    assert_eq!(o.quadrants_to(Pos::new(2, -5)), vec![Dir::Up, Dir::Right]);
    assert_eq!(o.quadrants_to(Pos::new(0, 3)), vec![Dir::Down]);
    assert_eq!(o.quadrants_to(Pos::new(-4, 0)), vec![Dir::Left]);
    assert_eq!(o.quadrants_to(o), Vec::<Dir>::new());
}

#[test]
fn compass_direction() {
    let o = Pos::new(0, 0);
    assert_eq!(o.compass_to(Pos::new(10, 1)), Dir::Right);
    assert_eq!(o.compass_to(Pos::new(-10, 4)), Dir::Left);
    assert_eq!(o.compass_to(Pos::new(1, -10)), Dir::Up);
    assert_eq!(o.compass_to(Pos::new(2, 5)), Dir::Down);
    assert_eq!(o.compass_to(Pos::new(3, -3)), Dir::UpRight);
    assert_eq!(o.compass_to(Pos::new(4, 2)), Dir::RightDown);
    assert_eq!(o.compass_to(Pos::new(-2, 3)), Dir::DownLeft);
    assert_eq!(o.compass_to(Pos::new(-3, -2)), Dir::LeftUp);
}

#[test]
fn distances() {
    let a = Pos::new(1, 2);
    let b = Pos::new(4, -2);
    assert_eq!(Pos::manhattan_distance(a, b), 7);
    assert_eq!(Pos::manhattan_distance(b, a), 7);
    assert_eq!(Pos::euclidian_distance(a, b), 5);
    // rounded down
    assert_eq!(Pos::euclidian_distance(Pos::new(0, 0), Pos::new(1, 1)), 1);
    assert_eq!(Pos::euclidian_distance(Pos::new(0, 0), Pos::new(2, 3)), 3);
    assert_eq!(Pos::euclidian_distance(a, a), 0);
}

#[test]
fn distances_at_the_extremes() {
    let a = Pos::new(i32::MIN, i32::MIN);
    let b = Pos::new(i32::MAX, i32::MAX);
    let side: i64 = (i32::MAX as i64) - (i32::MIN as i64);
    assert_eq!(Pos::manhattan_distance(a, b), 2 * side);
    // floor(side * sqrt(2))
    assert_eq!(Pos::euclidian_distance(a, b), 6_074_000_998);
}

#[test]
fn area_contains_its_half_open_ranges() {
    let area = PosArea::new(-2..3, 0..2);
    assert!(area.contains(Pos::new(-2, 0)));
    assert!(area.contains(Pos::new(2, 1)));
    assert!(!area.contains(Pos::new(3, 1)));
    assert!(!area.contains(Pos::new(0, 2)));
    assert!(!PosArea::empty().contains(Pos::new(0, 0)));
}

#[test]
fn pos_map_gets_what_was_set() {
    let mut m = PosMap::new(7u8);
    let p = Pos::new(4, 4);
    assert_eq!(m.get(p), 7);
    assert!(!m.is_set(p));
    m.set(p, 3);
    assert_eq!(m.get(p), 3);
    assert!(m.is_set(p));
    m.set(p, 5);
    assert_eq!(m.get(p), 5);
    assert_eq!(m.entries().len(), 1);
    m.unset(p);
    assert_eq!(m.get(p), 7);
    assert_eq!(m.entries().len(), 0);
    m.set(Pos::new(0, 0), 1);
    m.set_default(9);
    assert_eq!(m.get(p), 9);
    assert_eq!(m.default_value(), 9);
    m.clear();
    assert_eq!(m.get(Pos::new(0, 0)), 9);
}

#[test]
fn pos_set_insert_remove() {
    let mut s = PosSet::new();
    let p = Pos::new(-1, 8);
    assert!(!s.has_key(p));
    s.insert(p);
    s.insert(p);
    assert!(s.has_key(p));
    s.remove(p);
    assert!(!s.has_key(p));
}

#[test]
fn layout_of_the_editor() {
    let screen = Area::new(0, 0, 100, 40);
    let areas = editor_layout().compute(&screen);
    assert_eq!(areas.header, Area::new(0, 0, 100, 3));
    assert_eq!(areas.status, Area::new(0, 39, 100, 1));
    assert_eq!(areas.pen_panel, Area::new(0, 36, 100, 3));
    assert_eq!(areas.board, Area::new(0, 3, 100, 33));
    assert_eq!(areas.help, Area::new(0, 0, 100, 39));
    assert_eq!(areas.ink_margin, 1);
}

#[test]
fn layout_without_header_nor_pen_panel() {
    let screen = Area::new(2, 1, 80, 20);
    let layout = simple_layout();
    assert_eq!(layout, Layout { header_height: 0, pen_panel_height: 0, status_height: 1 });
    let areas = layout.compute(&screen);
    assert_eq!(areas.board, Area::new(2, 1, 80, 19));
    assert_eq!(areas.status, Area::new(2, 20, 80, 1));
    assert_eq!(areas.ink_margin, 0);
}

#[test]
fn screen_pos_in_area() {
    let area = Area::new(10, 5, 3, 2);
    assert!(ScreenPos::new(10, 5).is_in(&area));
    assert!(ScreenPos::new(12, 6).is_in(&area));
    assert!(!ScreenPos::new(13, 6).is_in(&area));
    assert!(!ScreenPos::new(11, 7).is_in(&area));
    assert!(!ScreenPos::new(9, 5).is_in(&area));
}

#[test]
fn board_positions_on_screen() {
    let pc = PosConverter::from(Pos::new(10, 10), Area::new(0, 3, 100, 33));
    assert_eq!(pc.to_screen(Pos::new(10, 10)), Some(ScreenPos::new(50, 19)));
    assert_eq!(pc.to_screen(Pos::new(-40, 10)), Some(ScreenPos::new(0, 19)));
    assert_eq!(pc.to_screen(Pos::new(-41, 10)), None);
    assert_eq!(pc.to_screen(Pos::new(10, 26)), Some(ScreenPos::new(50, 35)));
    assert_eq!(pc.to_screen(Pos::new(10, 27)), None);
    assert_eq!(pc.to_real(ScreenPos::new(0, 3)), Pos::new(-40, -6));
    for sp in [ScreenPos::new(0, 3), ScreenPos::new(99, 35), ScreenPos::new(42, 20)] {
        assert_eq!(pc.to_screen(pc.to_real(sp)), Some(sp));
    }
}
