use vstd::prelude::*;

use crate::game::{BoardView, Game};
use crate::network::{decoding, Message};
use crate::player::fleet_dead;

verus! {

/// Mathematical model of a match.
pub enum MatchView {
    Network { game: BoardView, player: bool },
    Ai { game: BoardView, player: bool, opponent: BoardView },
}

impl MatchView {
    /// The local side's board.
    pub open spec fn main_board(self) -> BoardView {
        match self {
            MatchView::Network { game, .. } => game,
            MatchView::Ai { game, .. } => game,
        }
    }

    /// Whether it is the local side's turn.
    pub open spec fn my_turn(self) -> bool {
        match self {
            MatchView::Network { player, .. } => player,
            MatchView::Ai { player, .. } => player,
        }
    }

    /// Every board is well formed; the two boards of a local match have the
    /// same size.
    pub open spec fn wf(self) -> bool {
        match self {
            MatchView::Network { game, .. } => game.wf(),
            MatchView::Ai { game, opponent, .. } => {
                &&& game.wf()
                &&& opponent.wf()
                &&& game.width == opponent.width
                &&& game.height == opponent.height
            },
        }
    }

    /// `Some(true)` when the local side has won, `Some(false)` when it has
    /// lost, `None` while the match goes on.
    pub open spec fn over(self) -> Option<bool> {
        match self {
            MatchView::Network { game, .. } => if fleet_dead(game.fleet) {
                Some(false)
            } else {
                None
            },
            MatchView::Ai { game, opponent, .. } => if fleet_dead(game.fleet) {
                Some(false)
            } else if fleet_dead(opponent.fleet) {
                Some(true)
            } else {
                None
            },
        }
    }

    pub open spec fn with_main(self, g: BoardView) -> MatchView {
        match self {
            MatchView::Network { player, .. } => MatchView::Network { game: g, player },
            MatchView::Ai { player, opponent, .. } => MatchView::Ai { game: g, player, opponent },
        }
    }

    pub open spec fn with_turn(self, t: bool) -> MatchView {
        match self {
            MatchView::Network { game, .. } => MatchView::Network { game, player: t },
            MatchView::Ai { game, opponent, .. } => MatchView::Ai { game, player: t, opponent },
        }
    }

    /// The local side may fire at `(x, y)`: the cell is on its record of
    /// the opponent's board, and not shot yet.
    pub open spec fn player_may_shoot(self, x: int, y: int) -> bool {
        self.main_board().in_bounds(x, y) && !self.main_board().shot(x, y)
    }

    /// The scripted opponent may fire at `(x, y)`.
    pub open spec fn ai_may_shoot(self, x: int, y: int) -> bool {
        match self {
            MatchView::Ai { game, opponent, .. } => {
                &&& game.in_bounds(x, y)
                &&& opponent.in_bounds(x, y)
                &&& !opponent.shot(x, y)
            },
            MatchView::Network { .. } => false,
        }
    }

    /// The scripted opponent has shot at every cell.
    pub open spec fn ai_has_no_target(self) -> bool {
        match self {
            MatchView::Ai { opponent, .. } => forall|x: int, y: int|
                #[trigger] opponent.in_bounds(x, y) ==> opponent.shot(x, y),
            MatchView::Network { .. } => true,
        }
    }

    /// The local side's shot at `(x, y)` in a local match, resolved on the
    /// opponent's board and recorded on its own; the turn passes.
    pub open spec fn player_shot(self, x: int, y: int) -> MatchView {
        match self {
            MatchView::Ai { game, opponent, .. } => MatchView::Ai {
                game: game.confirmed(x, y, opponent.attack_hits(x, y)),
                player: false,
                opponent: opponent.attacked(x, y),
            },
            MatchView::Network { .. } => self,
        }
    }

    /// The scripted opponent's shot at `(x, y)`, resolved on the local
    /// board and recorded on its own; the turn comes back.
    pub open spec fn ai_shot(self, x: int, y: int) -> MatchView {
        match self {
            MatchView::Ai { game, opponent, .. } => MatchView::Ai {
                game: game.attacked(x, y),
                player: true,
                opponent: opponent.confirmed(x, y, game.attack_hits(x, y)),
            },
            MatchView::Network { .. } => self,
        }
    }

    /// `after` follows from the scripted opponent firing at a cell of its
    /// choice that it has not shot yet; with no such cell left, nothing
    /// changes.
    pub open spec fn ai_step(self, after: MatchView) -> bool {
        if self.ai_has_no_target() {
            after == self
        } else {
            exists|x: int, y: int| #[trigger] self.ai_may_shoot(x, y) && after == self.ai_shot(x, y)
        }
    }

    /// `after` follows from the scripted opponent's reply, which only comes
    /// while the match is not over.
    pub open spec fn ai_replied(self, after: MatchView) -> bool {
        if self.over() is Some {
            after == self
        } else {
            self.ai_step(after)
        }
    }

    /// `after` and the message `r` follow from firing at `(x, y)`.
    pub open spec fn attack_outcome(self, x: int, y: int, after: MatchView, r: Option<Message>) -> bool {
        match self {
            MatchView::Network { player, .. } => {
                &&& after == self
                &&& r == if player && self.player_may_shoot(x, y) {
                    Some(Message::Attack { x: x as u8, y: y as u8 })
                } else {
                    None
                }
            },
            MatchView::Ai { player, .. } => {
                &&& r is None
                &&& if player && self.player_may_shoot(x, y) {
                    self.player_shot(x, y).ai_replied(after)
                } else if !player && self.ai_may_shoot(x, y) {
                    after == self.ai_shot(x, y)
                } else {
                    after == self
                }
            },
        }
    }

    /// `after` and the result `r` follow from an automatic attack.
    pub open spec fn auto_outcome(self, after: MatchView, r: Result<Option<Message>, TurnError>) -> bool {
        if self.over() is Some {
            r == Err::<Option<Message>, TurnError>(TurnError::GameOver) && after == self
        } else if !self.my_turn() {
            match self {
                MatchView::Network { .. } => r == Err::<Option<Message>, TurnError>(TurnError::NotYourTurn)
                    && after == self,
                MatchView::Ai { .. } => r == Ok::<Option<Message>, TurnError>(None) && self.ai_step(after),
            }
        } else if forall|x: int, y: int| #[trigger] self.main_board().in_bounds(x, y) ==> self.main_board().shot(x, y) {
            r == Ok::<Option<Message>, TurnError>(None) && after == self
        } else {
            r is Ok && exists|x: int, y: int|
                #[trigger] self.player_may_shoot(x, y) && self.attack_outcome(x, y, after, r->Ok_0)
        }
    }

    /// `after` and the result `r` follow from receiving `data` from the peer.
    pub open spec fn receive_outcome(
        self,
        data: Seq<u8>,
        after: MatchView,
        r: Result<Option<Message>, NetworkError>,
    ) -> bool {
        if data.len() == 0 {
            r == Err::<Option<Message>, NetworkError>(NetworkError::Disconnected) && after == self
        } else {
            match decoding(data) {
                Some(Message::Attack { x, y }) => if !self.my_turn() {
                    &&& after == self.opponent_attacked(x as int, y as int)
                    &&& r == Ok::<Option<Message>, NetworkError>(
                        self.opponent_attack_reply(x as int, y as int),
                    )
                } else {
                    after == self && r == Ok::<Option<Message>, NetworkError>(None)
                },
                Some(Message::Confirm { x, y, hit }) => {
                    &&& r == Ok::<Option<Message>, NetworkError>(None)
                    &&& if self.my_turn() {
                        self.confirm_outcome(x as int, y as int, hit, after)
                    } else {
                        after == self
                    }
                },
                None => after == self && r == Ok::<Option<Message>, NetworkError>(None),
            }
        }
    }

    /// `after` follows from recording the result `b` of a shot at `(x, y)`.
    pub open spec fn confirm_outcome(self, x: int, y: int, b: bool, after: MatchView) -> bool {
        match self {
            MatchView::Network { game, .. } => if game.in_bounds(x, y) {
                after == MatchView::Network { game: game.confirmed(x, y, b), player: false }
            } else {
                after == self
            },
            MatchView::Ai { game, player, opponent } => if player {
                if game.in_bounds(x, y) {
                    MatchView::Ai { game: game.confirmed(x, y, b), player: false, opponent }.ai_replied(after)
                } else {
                    after == self
                }
            } else {
                if opponent.in_bounds(x, y) {
                    after == MatchView::Ai { game, player: true, opponent: opponent.confirmed(x, y, b) }
                } else {
                    after == self
                }
            },
        }
    }

    /// The state after the opponent's shot at `(x, y)` on the local board;
    /// the turn comes to the local side. A cell off the board is ignored.
    pub open spec fn opponent_attacked(self, x: int, y: int) -> MatchView {
        if self.main_board().in_bounds(x, y) {
            self.with_main(self.main_board().attacked(x, y)).with_turn(true)
        } else {
            self
        }
    }

    /// What the local side sends back for the opponent's shot at `(x, y)`.
    pub open spec fn opponent_attack_reply(self, x: int, y: int) -> Option<Message> {
        match self {
            MatchView::Network { game, .. } => if game.in_bounds(x, y) {
                Some(
                    Message::Confirm {
                        x: x as u8,
                        y: y as u8,
                        hit: game.attack_hits(x, y),
                    },
                )
            } else {
                None
            },
            MatchView::Ai { .. } => None,
        }
    }
}

/// Why an automatic attack was refused.
#[derive(Clone, Copy, Debug, PartialEq, Eq, Structural)]
pub enum TurnError {
    GameOver,
    NotYourTurn,
}

/// Why a networked session cannot go on.
#[derive(Clone, Copy, Debug, PartialEq, Eq, Structural)]
pub enum NetworkError {
    /// The peer closed the connection.
    Disconnected,
}

/// A match: against a peer over the network, or locally against a
/// scripted opponent.
#[derive(Debug)]
pub enum GameType {
    /// `player` is true when it is the local side's turn.
    Network { game: Game, player: bool },
    /// `game` is the local side's board, `opponent` the scripted opponent's.
    Ai { game: Game, player: bool, opponent: Game },
}

impl View for GameType {
    type V = MatchView;

    open spec fn view(&self) -> MatchView {
        match self {
            GameType::Network { game, player } => MatchView::Network { game: game@, player: *player },
            GameType::Ai { game, player, opponent } => MatchView::Ai {
                game: game@,
                player: *player,
                opponent: opponent@,
            },
        }
    }
}

impl GameType {
    /// The local side's board.
    pub fn get_main_game(&self) -> (r: &Game)
        ensures
            r@ == self@.main_board(),
    {
        match self {
            GameType::Network { game, .. } => game,
            GameType::Ai { game, .. } => game,
        }
    }

    /// The local side's board, to change through its own methods.
    pub fn get_mut_main_game(&mut self) -> (r: &mut Game)
        ensures
            r@ == old(self)@.main_board(),
            final(self)@ == old(self)@.with_main(final(r)@),
    {
        match self {
            GameType::Network { game, .. } => game,
            GameType::Ai { game, .. } => game,
        }
    }

    /// Whether the match is over, and if so whether the local side won.
    pub fn is_over(&self) -> (r: Option<bool>)
        ensures
            r == self@.over(),
    {
        match self {
            GameType::Network { game, .. } => {
                if game.player().is_dead() {
                    Some(false)
                } else {
                    None
                }
            },
            GameType::Ai { game, opponent, .. } => {
                if game.player().is_dead() {
                    Some(false)
                } else if opponent.player().is_dead() {
                    Some(true)
                } else {
                    None
                }
            },
        }
    }

    /// Handles the opponent's shot at `p` on the local board: applies it to
    /// the own fleet and gives the turn to the local side. In a networked
    /// match returns the CONFIRM to send back. A cell off the board is
    /// ignored.
    pub fn opponent_attack(&mut self, p: (u8, u8)) -> (r: Option<Message>)
        requires
            old(self)@.wf(),
        ensures
            final(self)@ == old(self)@.opponent_attacked(p.0 as int, p.1 as int),
            r == old(self)@.opponent_attack_reply(p.0 as int, p.1 as int),
            final(self)@.wf(),
    {
        match self {
            GameType::Network { game, player } => {
                if !in_main_board(game, p) {
                    return None;
                }
                let b = game.opponent_attack(p);
                *player = true;
                Some(Message::Confirm { x: p.0, y: p.1, hit: b })
            },
            GameType::Ai { game, player, .. } => {
                if !in_main_board(game, p) {
                    return None;
                }
                game.opponent_attack(p);
                *player = true;
                None
            },
        }
    }

    /// Records the result `b` of a shot at `p`. In a networked match this is
    /// the local side's shot, and the turn passes to the peer. In a local
    /// match it is the shot of the side whose turn it is; after the local
    /// side's shot the scripted opponent replies at once unless the match
    /// is over. A cell off the board is ignored.
    pub fn confirm_attack(&mut self, p: (u8, u8), b: bool)
        requires
            old(self)@.wf(),
        ensures
            old(self)@.confirm_outcome(p.0 as int, p.1 as int, b, final(self)@),
            final(self)@.wf(),
    {
        let ai_replies = match self {
            GameType::Network { game, player } => {
                if in_main_board(game, p) {
                    game.confirm_attack(p, b);
                    *player = false;
                }
                false
            },
            GameType::Ai { game, player, opponent } => {
                if *player {
                    if in_main_board(game, p) {
                        game.confirm_attack(p, b);
                        *player = false;
                        true
                    } else {
                        false
                    }
                } else {
                    if in_main_board(opponent, p) {
                        opponent.confirm_attack(p, b);
                        *player = true;
                    }
                    false
                }
            },
        };
        if ai_replies && self.is_over().is_none() {
            self.ai_turn();
        }
    }

    /// Fires at `p`, if it is this side's turn and `p` is a cell of the
    /// board not shot yet; otherwise does nothing. In a networked match
    /// returns the ATTACK to send and changes nothing until the peer's
    /// CONFIRM comes. In a local match the shot is resolved at once, and
    /// the turn moves on as `confirm_attack` says.
    pub fn attack(&mut self, p: (u8, u8)) -> (r: Option<Message>)
        requires
            old(self)@.wf(),
        ensures
            old(self)@.attack_outcome(p.0 as int, p.1 as int, final(self)@, r),
            final(self)@.wf(),
    {
        let pending: Option<bool> = match self {
            GameType::Network { game, player } => {
                if *player && in_main_board(game, p) && !game.shot(p) {
                    return Some(Message::Attack { x: p.0, y: p.1 });
                }
                return None;
            },
            GameType::Ai { game, player, opponent } => {
                if *player {
                    if in_main_board(game, p) && !game.shot(p) {
                        Some(opponent.opponent_attack(p))
                    } else {
                        None
                    }
                } else {
                    if in_main_board(game, p) && !opponent.shot(p) {
                        Some(game.opponent_attack(p))
                    } else {
                        None
                    }
                }
            },
        };
        match pending {
            Some(b) => self.confirm_attack(p, b),
            None => {},
        }
        None
    }

    /// Fires for the side whose turn it is at a cell of its choice that it
    /// has not shot yet: the local side through `attack`, the scripted
    /// opponent by its own reply. Refused once the match is over, and in a
    /// networked match while the peer has the turn.
    pub fn auto_attack(&mut self) -> (r: Result<Option<Message>, TurnError>)
        requires
            old(self)@.wf(),
        ensures
            old(self)@.auto_outcome(final(self)@, r),
            final(self)@.wf(),
    {
        if self.is_over().is_some() {
            return Err(TurnError::GameOver);
        }
        let ghost before = self@;
        let q = match self {
            GameType::Network { game, player } => {
                if !*player {
                    return Err(TurnError::NotYourTurn);
                }
                game.get_auto_position()
            },
            GameType::Ai { game, player, .. } => {
                if !*player {
                    self.ai_turn();
                    return Ok(None);
                }
                game.get_auto_position()
            },
        };
        match q {
            Some(q) => {
                let m = self.attack(q);
                proof {
                    assert(before.player_may_shoot(q.0 as int, q.1 as int));
                }
                Ok(m)
            },
            None => Ok(None),
        }
    }

    /// Handles one buffer read from the peer. An empty read means the peer
    /// has gone. An ATTACK is taken while the peer has the turn, and gives
    /// the CONFIRM to send back; a CONFIRM is taken while the local side
    /// waits for the result of its shot. Anything else, a message out of
    /// turn included, is ignored.
    pub fn check_network(&mut self, data: &[u8]) -> (r: Result<Option<Message>, NetworkError>)
        requires
            old(self)@.wf(),
            old(self)@ is Network,
        ensures
            old(self)@.receive_outcome(data@, final(self)@, r),
            final(self)@.wf(),
    {
        if data.len() == 0 {
            return Err(NetworkError::Disconnected);
        }
        let turn = match self {
            GameType::Network { player, .. } => *player,
            GameType::Ai { player, .. } => *player,
        };
        match Message::decode(data) {
            Some(Message::Attack { x, y }) => {
                if turn {
                    Ok(None)
                } else {
                    Ok(self.opponent_attack((x, y)))
                }
            },
            Some(Message::Confirm { x, y, hit }) => {
                if turn {
                    self.confirm_attack((x, y), hit);
                }
                Ok(None)
            },
            None => Ok(None),
        }
    }

    /// The scripted opponent fires at a cell of its choice that it has not
    /// shot yet, if any is left.
    fn ai_turn(&mut self)
        requires
            old(self)@.wf(),
            old(self)@ is Ai,
        ensures
            old(self)@.ai_step(final(self)@),
            final(self)@.wf(),
    {
        let ghost before = self@;
        match self {
            GameType::Ai { game, player, opponent } => {
                let q = opponent.get_auto_position();
                match q {
                    Some(q) => {
                        let b = game.opponent_attack(q);
                        opponent.confirm_attack(q, b);
                        *player = true;
                        proof {
                            assert(before.ai_may_shoot(q.0 as int, q.1 as int));
                        }
                    },
                    None => {},
                }
            },
            GameType::Network { .. } => {},
        }
    }
}

/// Whether `p` lies on the board.
fn in_main_board(game: &Game, p: (u8, u8)) -> (r: bool)
    ensures
        r == game@.in_bounds(p.0 as int, p.1 as int),
{
    (p.0 as usize) < game.width() && (p.1 as usize) < game.height()
}

} // verus!
