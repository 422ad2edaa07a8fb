use battleship::{Boat, Class, Direction, Player};

#[test]
fn direction_deltas() {
    assert_eq!(Direction::Up.delta(), (0, 1));
    assert_eq!(Direction::Down.delta(), (0, -1));
    assert_eq!(Direction::Right.delta(), (1, 0));
    assert_eq!(Direction::Left.delta(), (-1, 0));
    for d in [Direction::Up, Direction::Down, Direction::Left, Direction::Right] {
        assert!((d.dx() == 0) != (d.dy() == 0));
    }
}

#[test]
fn direction_rotates_through_all_four() {
    assert_eq!(Direction::Up.rotate(), Direction::Left);
    assert_eq!(Direction::Left.rotate(), Direction::Down);
    assert_eq!(Direction::Down.rotate(), Direction::Right);
    assert_eq!(Direction::Right.rotate(), Direction::Up);
}

#[test]
fn class_lengths() {
    assert_eq!(Class::Carrier.max_life(), 5);
    assert_eq!(Class::Battleship.max_life(), 4);
    assert_eq!(Class::Cruiser.max_life(), 3);
    assert_eq!(Class::Submarine.max_life(), 3);
    assert_eq!(Class::Destroyer.max_life(), 2);
}

#[test]
fn new_boat_is_intact() {
    let b = Boat::new(Class::Battleship, (3, 4), Direction::Down);
    assert_eq!(b.detailed_life, vec![true; 4]);
    assert_eq!(b.max_life(), 4);
    assert_eq!(b.position, (3, 4));
    assert!(!b.is_dead());
}

#[test]
fn shoot_same_segment_twice() {
    let mut b = Boat::new(Class::Cruiser, (2, 2), Direction::Right);
    assert!(b.shoot((3, 2)));
    assert_eq!(b.detailed_life, vec![true, false, true]);
    assert!(!b.shoot((3, 2)));
    assert_eq!(b.detailed_life, vec![true, false, true]);
}

#[test]
fn shoot_off_axis_misses_without_change() {
    let mut h = Boat::new(Class::Carrier, (1, 5), Direction::Right);
    assert!(!h.shoot((2, 6)));
    assert!(!h.shoot((1, 4)));
    assert_eq!(h.detailed_life, vec![true; 5]);
    let mut v = Boat::new(Class::Destroyer, (4, 4), Direction::Up);
    assert!(!v.shoot((5, 4)));
    assert!(!v.shoot((3, 5)));
    assert_eq!(v.detailed_life, vec![true; 2]);
}

#[test]
fn shoot_beyond_ends_misses() {
    let mut b = Boat::new(Class::Destroyer, (4, 4), Direction::Right);
    assert!(!b.shoot((3, 4)));
    assert!(!b.shoot((6, 4)));
    assert_eq!(b.detailed_life, vec![true, true]);
}

#[test]
fn shoot_along_negative_directions() {
    let mut left = Boat::new(Class::Cruiser, (5, 1), Direction::Left);
    assert!(left.shoot((3, 1)));
    assert_eq!(left.detailed_life, vec![true, true, false]);
    assert!(!left.shoot((6, 1)));
    let mut down = Boat::new(Class::Submarine, (0, 9), Direction::Down);
    assert!(down.shoot((0, 8)));
    assert_eq!(down.detailed_life, vec![true, false, true]);
    assert!(!down.shoot((0, 10)));
}

#[test]
fn boat_dies_when_every_segment_is_hit() {
    let mut b = Boat::new(Class::Destroyer, (0, 0), Direction::Up);
    assert!(b.shoot((0, 0)));
    assert!(!b.is_dead());
    assert!(b.shoot((0, 1)));
    assert!(b.is_dead());
}

#[test]
fn fleet_dead_iff_every_ship_dead() {
    let mut a = Boat::new(Class::Destroyer, (0, 0), Direction::Right);
    let b = Boat::new(Class::Destroyer, (0, 2), Direction::Right);
    a.shoot((0, 0));
    a.shoot((1, 0));
    let p = Player::new(vec![a, b]);
    assert!(!p.is_dead());
    let mut p = p;
    p.boats[1].shoot((0, 2));
    p.boats[1].shoot((1, 2));
    assert!(p.is_dead());
    assert!(Player::new(vec![]).is_dead());
}
