use battleship::{Boat, Class, Direction, Game, GameType, Message, NetworkError, Player, TurnError};

fn board(w: usize, h: usize, boats: Vec<Boat>) -> Game {
    Game::new(w, h, Player::new(boats)).unwrap()
}

fn turn(m: &GameType) -> bool {
    match m {
        GameType::Network { player, .. } => *player,
        GameType::Ai { player, .. } => *player,
    }
}

fn opponent(m: &GameType) -> &Game {
    match m {
        GameType::Ai { opponent, .. } => opponent,
        GameType::Network { .. } => panic!("not a local match"),
    }
}

#[test]
fn ai_match_two_by_two() {
    let mut m = GameType::Ai {
        game: board(2, 2, vec![Boat::new(Class::Destroyer, (0, 1), Direction::Right)]),
        player: true,
        opponent: board(2, 2, vec![Boat::new(Class::Destroyer, (0, 0), Direction::Right)]),
    };
    assert_eq!(m.attack((0, 0)), None);
    assert_eq!(m.get_main_game().shot_result(0, 0), Some(true));
    assert_eq!(opponent(&m).player().boats[0].detailed_life, vec![false, true]);
    assert_eq!(opponent(&m).count_unshot(), 3);
    assert!(turn(&m));
    assert_eq!(m.is_over(), None);

    assert_eq!(m.attack((1, 0)), None);
    assert_eq!(m.get_main_game().shot_result(1, 0), Some(true));
    assert_eq!(opponent(&m).player().boats[0].detailed_life, vec![false, false]);
    assert!(opponent(&m).player().is_dead());
    assert_eq!(opponent(&m).count_unshot(), 3);
    assert_eq!(m.is_over(), Some(true));
}

#[test]
fn ai_match_ignores_repeated_shot() {
    let mut m = GameType::Ai {
        game: board(3, 3, vec![Boat::new(Class::Destroyer, (0, 0), Direction::Up)]),
        player: true,
        opponent: board(3, 3, vec![Boat::new(Class::Destroyer, (2, 0), Direction::Up)]),
    };
    m.attack((1, 1));
    assert_eq!(m.get_main_game().shot_result(1, 1), Some(false));
    assert_eq!(opponent(&m).count_unshot(), 8);
    m.attack((1, 1));
    assert_eq!(opponent(&m).count_unshot(), 8);
    assert_eq!(m.get_main_game().count_unshot(), 8);
    m.attack((7, 7));
    assert_eq!(m.get_main_game().count_unshot(), 8);
}

#[test]
fn ai_auto_attack_plays_both_sides() {
    let mut m = GameType::Ai {
        game: board(3, 3, vec![Boat::new(Class::Cruiser, (0, 0), Direction::Up)]),
        player: true,
        opponent: board(3, 3, vec![Boat::new(Class::Cruiser, (2, 0), Direction::Up)]),
    };
    assert_eq!(m.auto_attack(), Ok(None));
    assert_eq!(m.get_main_game().count_unshot(), 8);
    assert_eq!(opponent(&m).count_unshot(), 8);
    assert!(turn(&m));
}

#[test]
fn auto_attack_refused_when_over() {
    let mut dead = Boat::new(Class::Destroyer, (0, 0), Direction::Up);
    dead.shoot((0, 0));
    dead.shoot((0, 1));
    let mut m = GameType::Ai {
        game: board(2, 2, vec![dead]),
        player: true,
        opponent: board(2, 2, vec![Boat::new(Class::Destroyer, (1, 0), Direction::Up)]),
    };
    assert_eq!(m.is_over(), Some(false));
    assert_eq!(m.auto_attack(), Err(TurnError::GameOver));
}

#[test]
fn network_auto_attack_waits_for_turn() {
    let mut m = GameType::Network {
        game: board(2, 2, vec![Boat::new(Class::Destroyer, (0, 0), Direction::Up)]),
        player: false,
    };
    assert_eq!(m.auto_attack(), Err(TurnError::NotYourTurn));
    let mut m = GameType::Network {
        game: board(2, 1, vec![Boat::new(Class::Destroyer, (0, 0), Direction::Right)]),
        player: true,
    };
    m.get_mut_main_game().confirm_attack((0, 0), false);
    assert_eq!(m.auto_attack(), Ok(Some(Message::Attack { x: 1, y: 0 })));
}

#[test]
fn network_exchange() {
    let mut a = GameType::Network {
        game: board(12, 12, vec![Boat::new(Class::Destroyer, (0, 0), Direction::Up)]),
        player: true,
    };
    let mut b = GameType::Network {
        game: board(12, 12, vec![Boat::new(Class::Cruiser, (3, 3), Direction::Up)]),
        player: false,
    };

    let sent = a.attack((3, 4)).unwrap();
    let bytes = sent.encode();
    assert_eq!(bytes, vec![42, 3, 4]);
    assert_eq!(a.get_main_game().shot_result(3, 4), None);
    assert!(turn(&a));

    let reply = b.check_network(&bytes).unwrap().unwrap();
    assert!(turn(&b));
    assert_eq!(b.get_main_game().player().boats[0].detailed_life, vec![true, false, true]);
    let reply_bytes = reply.encode();
    assert_eq!(reply_bytes, vec![43, 3, 4, 1]);

    assert_eq!(a.check_network(&reply_bytes), Ok(None));
    assert_eq!(a.get_main_game().shot_result(3, 4), Some(true));
    assert!(!turn(&a));
}

#[test]
fn network_attack_only_on_turn_and_fresh_cell() {
    let mut a = GameType::Network { game: board(4, 4, vec![]), player: false };
    assert_eq!(a.attack((1, 1)), None);
    let mut a = GameType::Network { game: board(4, 4, vec![]), player: true };
    assert_eq!(a.attack((4, 1)), None);
    a.confirm_attack((1, 1), false);
    assert!(!turn(&a));
    let mut a = GameType::Network { game: board(4, 4, vec![]), player: true };
    a.get_mut_main_game().confirm_attack((1, 1), false);
    assert_eq!(a.attack((1, 1)), None);
    assert_eq!(a.attack((2, 1)), Some(Message::Attack { x: 2, y: 1 }));
}

#[test]
fn network_receive_edge_cases() {
    let mut a = GameType::Network { game: board(4, 4, vec![]), player: true };
    assert_eq!(a.check_network(&[]), Err(NetworkError::Disconnected));
    assert_eq!(a.check_network(&[42, 1]), Ok(None));
    assert_eq!(a.check_network(&[7, 1, 1]), Ok(None));
    // an attack while it is our own turn is out of turn
    assert_eq!(a.check_network(&[42, 1, 1]), Ok(None));
    assert!(turn(&a));
    // an attack off the board gets no reply
    let mut b = GameType::Network { game: board(4, 4, vec![]), player: false };
    assert_eq!(b.check_network(&[42, 9, 1]), Ok(None));
    assert!(!turn(&b));
    // a confirm while the peer has the turn is ignored
    assert_eq!(b.check_network(&[43, 1, 1, 1]), Ok(None));
    assert_eq!(b.get_main_game().shot_result(1, 1), None);
    assert_eq!(b.check_network(&[42, 1, 1]), Ok(Some(Message::Confirm { x: 1, y: 1, hit: false })));
    assert!(turn(&b));
}

#[test]
fn opponent_attack_turns_the_turn() {
    let mut m = GameType::Ai {
        game: board(2, 2, vec![Boat::new(Class::Destroyer, (0, 0), Direction::Up)]),
        player: false,
        opponent: board(2, 2, vec![]),
    };
    assert_eq!(m.opponent_attack((0, 1)), None);
    assert!(turn(&m));
    assert_eq!(m.get_main_game().player().boats[0].detailed_life, vec![true, false]);
}
