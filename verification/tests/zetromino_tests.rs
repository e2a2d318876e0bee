use zetris::zetromino::{Coord, Kind, MinoColor, Zetromino};

#[test]
fn test_max_y_of_new_o_zetromino_should_be_minus_1() {
    let o = Zetromino::new(Kind::O);
    assert_eq!(o.max_y(), -1);
}

#[test]
fn test_max_y_shold_be_2_after_3_downward_moves() {
    let mut o = Zetromino::new(Kind::O);
    o.down();
    o.down();
    o.down();
    assert_eq!(o.max_y(), 2);
}

#[test]
fn new_o_zetromino_spawns_at_center_of_vanish_zone() {
    let o = Zetromino::new(Kind::O);
    assert_eq!(o.minos[0], Coord { x: 4, y: -2 });
    assert_eq!(o.minos[1], Coord { x: 5, y: -2 });
    assert_eq!(o.minos[2], Coord { x: 4, y: -1 });
    assert_eq!(o.minos[3], Coord { x: 5, y: -1 });
    assert_eq!(o.color, MinoColor::Yellow);
    assert_eq!(o.max_y(), -1);
}

#[test]
fn every_kind_spawns_with_negative_rows_inside_columns() {
    let kinds = [Kind::I, Kind::O, Kind::T, Kind::S, Kind::Z, Kind::J, Kind::L];
    for k in kinds {
        let z = Zetromino::new(k);
        assert!(z.max_y() < 0);
        assert!(z.min_x() >= 0);
        assert!(z.max_x() < 10);
    }
}

#[test]
fn translations_shift_every_mino_by_one() {
    let mut z = Zetromino::new(Kind::T);
    let before = z.minos;
    z.left();
    for (a, b) in z.minos.iter().zip(before.iter()) {
        assert_eq!(a.x, b.x - 1);
        assert_eq!(a.y, b.y);
    }
    z.right();
    z.right();
    for (a, b) in z.minos.iter().zip(before.iter()) {
        assert_eq!(a.x, b.x + 1);
        assert_eq!(a.y, b.y);
    }
    z.down();
    for (a, b) in z.minos.iter().zip(before.iter()) {
        assert_eq!(a.x, b.x + 1);
        assert_eq!(a.y, b.y + 1);
    }
}

#[test]
fn coordinate_queries_report_the_extremes() {
    let i = Zetromino::new(Kind::I);
    assert_eq!(i.min_x(), 3);
    assert_eq!(i.max_x(), 6);
    assert_eq!(i.min_y(), -1);
    assert_eq!(i.max_y(), -1);
    let l = Zetromino::new(Kind::L);
    assert_eq!(l.min_x(), 4);
    assert_eq!(l.max_x(), 6);
    assert_eq!(l.min_y(), -2);
    assert_eq!(l.max_y(), -1);
}

#[test]
fn kind_from_index_maps_the_seven_kinds() {
    assert_eq!(Kind::from_index(0), Kind::I);
    assert_eq!(Kind::from_index(1), Kind::O);
    assert_eq!(Kind::from_index(2), Kind::T);
    assert_eq!(Kind::from_index(3), Kind::S);
    assert_eq!(Kind::from_index(4), Kind::Z);
    assert_eq!(Kind::from_index(5), Kind::J);
    assert_eq!(Kind::from_index(6), Kind::L);
}

#[test]
fn color_ordinals_are_stable() {
    assert_eq!(MinoColor::Grey.ordinal(), 0);
    assert_eq!(MinoColor::Cyan.ordinal(), 1);
    assert_eq!(MinoColor::Yellow.ordinal(), 2);
    assert_eq!(MinoColor::Purple.ordinal(), 3);
    assert_eq!(MinoColor::Green.ordinal(), 4);
    assert_eq!(MinoColor::Red.ordinal(), 5);
    assert_eq!(MinoColor::Blue.ordinal(), 6);
    assert_eq!(MinoColor::Orange.ordinal(), 7);
}

#[test]
fn default_color_is_grey() {
    assert_eq!(MinoColor::default(), MinoColor::Grey);
}

#[test]
fn random_zetromino_is_a_catalog_spawn() {
    let z = Zetromino::random_zetromino();
    let kinds = [Kind::I, Kind::O, Kind::T, Kind::S, Kind::Z, Kind::J, Kind::L];
    let found = kinds.iter().any(|&k| {
        let spawn = Zetromino::new(k);
        spawn.color == z.color && spawn.minos.iter().zip(z.minos.iter()).all(|(a, b)| a == b)
    });
    assert!(found);
}
