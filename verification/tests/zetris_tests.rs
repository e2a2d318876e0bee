use zetris::zetris::{PlayfieldCell, Zetris, GAME_DELAY_MS, INPUT_DELAY_MS, PLAYFIELD_CELLS};
use zetris::zetromino::{Kind, Zetromino, PLAYFIELD_HCELLS, PLAYFIELD_VCELLS};

#[test]
fn zetromino_in_vanish_area_should_not_collide() {
    let zetris = Zetris::new(0);
    let z = Zetromino::new(Kind::O);
    assert!(!zetris.check_collisions(&z));
}

#[test]
fn zetromino_with_negative_x_should_collide() {
    let zetris = Zetris::new(0);
    let mut z = Zetromino::new(Kind::O);
    while z.min_y() < 0 {
        z.down();
    }
    while z.min_x() >= 0 {
        z.left();
    }
    assert!(zetris.check_collisions(&z));
}

#[test]
fn zetromino_with_max_x_greater_than_playfield_width_should_collide() {
    let zetris = Zetris::new(0);
    let mut z = Zetromino::new(Kind::O);
    while z.min_y() < 0 {
        z.down();
    }
    while z.max_x() < PLAYFIELD_HCELLS as i8 {
        z.right();
    }
    assert!(zetris.check_collisions(&z));
}

#[test]
fn zetromino_with_max_y_greater_than_playfield_height_should_collide() {
    let zetris = Zetris::new(0);
    let mut z = Zetromino::new(Kind::O);
    while z.max_y() < PLAYFIELD_VCELLS as i8 {
        z.down();
    }
    assert!(zetris.check_collisions(&z));
}

#[test]
fn zetromino_should_collide_with_occupied_cells_in_playfield() {
    let mut zetris = Zetris::new(0);
    let mut cell = PlayfieldCell::new();
    cell.occupied = true;
    for c in 0..PLAYFIELD_HCELLS {
        zetris.playfield[c] = cell;
    }
    let mut z = Zetromino::new(Kind::O);
    while z.min_y() < 0 {
        z.down();
    }
    assert!(zetris.check_collisions(&z));
}

#[test]
fn every_fresh_spawn_does_not_collide_on_an_empty_playfield() {
    let zetris = Zetris::new(0);
    let kinds = [Kind::I, Kind::O, Kind::T, Kind::S, Kind::Z, Kind::J, Kind::L];
    for k in kinds {
        let z = Zetromino::new(k);
        assert!(!zetris.check_collisions(&z));
    }
}

#[test]
fn new_simulation_has_an_empty_playfield() {
    let zetris = Zetris::new(0);
    assert_eq!(zetris.playfield.len(), PLAYFIELD_CELLS);
    assert!(zetris.playfield.iter().all(|c| !c.occupied));
    assert!(zetris.current.max_y() < 0);
}

#[test]
fn update_before_gravity_interval_is_a_no_op() {
    let mut zetris = Zetris::new(0);
    let before = zetris.current.minos;
    zetris.update(GAME_DELAY_MS - 1);
    for (a, b) in zetris.current.minos.iter().zip(before.iter()) {
        assert_eq!(a, b);
    }
}

#[test]
fn update_at_exactly_the_gravity_interval_drops_the_piece_one_row() {
    let mut zetris = Zetris::new(0);
    let max_y_before = zetris.current.max_y();
    zetris.update(GAME_DELAY_MS);
    assert_eq!(zetris.current.max_y(), max_y_before + 1);
}

#[test]
fn move_left_before_input_interval_is_dropped() {
    let mut zetris = Zetris::new(0);
    let min_x_before = zetris.current.min_x();
    zetris.move_left(INPUT_DELAY_MS - 1);
    assert_eq!(zetris.current.min_x(), min_x_before);
}

#[test]
fn move_left_at_exactly_the_input_interval_is_applied() {
    let mut zetris = Zetris::new(0);
    let min_x_before = zetris.current.min_x();
    zetris.move_left(INPUT_DELAY_MS);
    assert_eq!(zetris.current.min_x(), min_x_before - 1);
}

#[test]
fn two_quick_move_left_calls_apply_at_most_one_shift() {
    let mut zetris = Zetris::new(0);
    let min_x_before = zetris.current.min_x();
    zetris.move_left(INPUT_DELAY_MS);
    zetris.move_left(INPUT_DELAY_MS + 99);
    assert_eq!(zetris.current.min_x(), min_x_before - 1);
}

#[test]
fn two_quick_move_right_calls_apply_at_most_one_shift() {
    let mut zetris = Zetris::new(0);
    let max_x_before = zetris.current.max_x();
    zetris.move_right(INPUT_DELAY_MS);
    zetris.move_right(INPUT_DELAY_MS + 99);
    assert_eq!(zetris.current.max_x(), max_x_before + 1);
}

#[test]
fn landing_merges_four_cells_and_respawns_in_vanish_zone() {
    let mut sim = Zetris::new(0);
    let mut t: u64 = 0;
    let mut landed = false;
    for _ in 0..200 {
        let pre = sim.current;
        t += GAME_DELAY_MS;
        sim.update(t);
        let occupied = sim.playfield.iter().filter(|c| c.occupied).count();
        if occupied > 0 {
            assert_eq!(occupied, 4);
            for m in pre.minos.iter() {
                assert!(m.y >= 0);
                let idx = (m.y as usize) * PLAYFIELD_HCELLS + (m.x as usize);
                assert!(sim.playfield[idx].occupied);
                assert_eq!(sim.playfield[idx].color, pre.color);
            }
            assert!(sim.current.max_y() < 0);
            landed = true;
            break;
        }
    }
    assert!(landed);
}
