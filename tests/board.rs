use battleship::{in_board, Boat, Class, Direction, Game, PlacementError, Player};

fn fleet(boats: Vec<Boat>) -> Player {
    Player::new(boats)
}

#[test]
fn placement_maps_cells_to_ships() {
    let g = Game::new(
        6,
        5,
        fleet(vec![
            Boat::new(Class::Cruiser, (0, 0), Direction::Right),
            Boat::new(Class::Destroyer, (5, 4), Direction::Down),
        ]),
    )
    .unwrap();
    assert_eq!(g.width(), 6);
    assert_eq!(g.height(), 5);
    for x in 0..6u8 {
        for y in 0..5u8 {
            let expected = if y == 0 && x < 3 {
                Some(0)
            } else if x == 5 && (y == 4 || y == 3) {
                Some(1)
            } else {
                None
            };
            assert_eq!(g.occupant(x, y), expected, "cell ({}, {})", x, y);
            assert_eq!(g.shot_result(x, y), None);
            assert!(!g.shot((x, y)));
        }
    }
}

#[test]
fn placement_terminal_on_the_edge() {
    let g = Game::new(5, 1, fleet(vec![Boat::new(Class::Carrier, (4, 0), Direction::Left)]));
    assert!(g.is_ok());
}

#[test]
fn placement_origin_out_of_bounds() {
    let r = Game::new(
        4,
        4,
        fleet(vec![
            Boat::new(Class::Destroyer, (0, 0), Direction::Up),
            Boat::new(Class::Destroyer, (4, 0), Direction::Up),
        ]),
    );
    assert_eq!(r.unwrap_err(), PlacementError::OutOfBounds { boat: 1 });
}

#[test]
fn placement_terminal_out_of_bounds() {
    let r = Game::new(4, 4, fleet(vec![Boat::new(Class::Carrier, (0, 0), Direction::Right)]));
    assert_eq!(r.unwrap_err(), PlacementError::OutOfBounds { boat: 0 });
    let r = Game::new(4, 4, fleet(vec![Boat::new(Class::Destroyer, (0, 0), Direction::Down)]));
    assert_eq!(r.unwrap_err(), PlacementError::OutOfBounds { boat: 0 });
}

#[test]
fn placement_overlap_names_both_ships() {
    let r = Game::new(
        8,
        8,
        fleet(vec![
            Boat::new(Class::Destroyer, (0, 7), Direction::Right),
            Boat::new(Class::Carrier, (1, 1), Direction::Right),
            Boat::new(Class::Cruiser, (3, 0), Direction::Up),
        ]),
    );
    assert_eq!(r.unwrap_err(), PlacementError::Overlap { first: 1, second: 2 });
}

#[test]
fn opponent_attack_hits_and_misses() {
    let mut g = Game::new(4, 4, fleet(vec![Boat::new(Class::Destroyer, (1, 1), Direction::Up)])).unwrap();
    assert!(!g.opponent_attack((0, 0)));
    assert!(g.opponent_attack((1, 2)));
    assert!(!g.opponent_attack((1, 2)));
    assert_eq!(g.player().boats[0].detailed_life, vec![true, false]);
    assert!(g.opponent_attack((1, 1)));
    assert!(g.player().is_dead());
    assert_eq!(g.shot_result(1, 1), None);
}

#[test]
fn confirm_attack_twice_is_once() {
    let mut once = Game::new(3, 3, fleet(vec![])).unwrap();
    let mut twice = Game::new(3, 3, fleet(vec![])).unwrap();
    once.confirm_attack((2, 1), true);
    twice.confirm_attack((2, 1), true);
    twice.confirm_attack((2, 1), true);
    for x in 0..3u8 {
        for y in 0..3u8 {
            assert_eq!(once.shot_result(x, y), twice.shot_result(x, y));
        }
    }
    assert_eq!(once.shot_result(2, 1), Some(true));
    assert!(once.shot((2, 1)));
}

#[test]
fn recorded_result_stays() {
    let mut g = Game::new(3, 3, fleet(vec![])).unwrap();
    g.confirm_attack((1, 2), false);
    g.confirm_attack((1, 2), true);
    assert_eq!(g.shot_result(1, 2), Some(false));
}

#[test]
fn auto_position_is_a_fresh_cell() {
    let mut g = Game::new(3, 2, fleet(vec![])).unwrap();
    for _ in 0..6 {
        let p = g.get_auto_position().unwrap();
        assert!(p.0 < 3 && p.1 < 2);
        assert!(!g.shot(p));
        g.confirm_attack(p, false);
    }
    assert_eq!(g.count_unshot(), 0);
    assert_eq!(g.get_auto_position(), None);
}

#[test]
fn auto_position_finds_the_last_cell() {
    let mut g = Game::new(2, 2, fleet(vec![])).unwrap();
    g.confirm_attack((0, 0), false);
    g.confirm_attack((0, 1), true);
    g.confirm_attack((1, 0), false);
    assert_eq!(g.count_unshot(), 1);
    for _ in 0..10 {
        assert_eq!(g.get_auto_position(), Some((1, 1)));
    }
}

#[test]
fn nth_unshot_counts_column_by_column() {
    let mut g = Game::new(3, 3, fleet(vec![])).unwrap();
    g.confirm_attack((0, 1), false);
    g.confirm_attack((1, 0), false);
    assert_eq!(g.count_unshot(), 7);
    assert_eq!(g.nth_unshot(0), (0, 0));
    assert_eq!(g.nth_unshot(1), (0, 2));
    assert_eq!(g.nth_unshot(2), (1, 1));
    assert_eq!(g.nth_unshot(6), (2, 2));
}

#[test]
fn ai_board_is_valid() {
    let g = Game::create_ai_game().unwrap();
    assert_eq!(g.width(), 12);
    assert_eq!(g.height(), 12);
    assert_eq!(g.player().boats.len(), 5);
    assert_eq!(g.occupant(5, 0), Some(0));
    assert_eq!(g.occupant(0, 5), Some(1));
    assert_eq!(g.occupant(9, 1), Some(2));
    assert_eq!(g.occupant(10, 8), Some(3));
    assert_eq!(g.occupant(4, 5), Some(4));
    assert_eq!(g.occupant(6, 5), None);
}

#[test]
fn in_board_bounds() {
    assert!(in_board(3, 2, 0, 0));
    assert!(in_board(3, 2, 2, 1));
    assert!(!in_board(3, 2, 3, 1));
    assert!(!in_board(3, 2, 2, 2));
    assert!(!in_board(3, 2, -1, 0));
}
