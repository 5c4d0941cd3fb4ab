//! Players, the game state, and the moves played on it.
//!
//! A game owns two players, each with a row of sixteen bowls, a turn counter
//! whose parity says who moves (odd: the first player), a sowing direction and
//! a rule mode, both fixed for the whole game.

use rand::Rng;
use vstd::prelude::*;

use crate::sowing::board_lost;
use crate::sowing::has_any_legal_move;
use crate::sowing::sow;
use crate::sowing::sow_done;
use crate::sowing::sow_init;
use crate::sowing::sow_steps;
use crate::sowing::spec_has_move;
use crate::sowing::spec_player_lost;
use crate::sowing::Direction;
use crate::sowing::Mode;
use crate::stones::lemma_stone_sum_push;
use crate::stones::stone_sum;

verus! {

/// Relies on rand::Rng::gen_range (on rand::thread_rng): a sample from the
/// non-empty range `0..bound` lies in that range.
#[verifier::external_body]
fn random_below(bound: usize) -> (sample: usize)
    requires
        bound >= 1,
    ensures
        sample < bound,
{
    rand::thread_rng().gen_range(0..bound)
}

/// Who chooses this player's moves.
#[derive(Copy, Clone, PartialEq, Eq, Structural)]
pub enum PlayerAgent {
    Human,
    AiRandom,
}

/// Which of the two seats a player occupies.
#[derive(Copy, Clone, Debug, PartialEq, Eq, Structural)]
pub enum PlayerPosition {
    First,
    Second,
}

/// One player: a display name, who moves for them, and their row of bowls.
pub struct Player {
    pub name: &'static str,
    pub agent: PlayerAgent,
    pub board_half: Vec<u8>,
}

impl Player {
    pub open spec fn wf(self) -> bool {
        self.board_half@.len() == 16
    }

    /// A fresh player: two stones in each of the sixteen bowls.
    pub fn new(name: &'static str, agent: PlayerAgent) -> (player: Self)
        ensures
            player.wf(),
            player.name == name,
            player.agent == agent,
            forall|i: int| 0 <= i < 16 ==> player.board_half@[i] == 2,
            stone_sum(player.board_half@) == 32,
    {
        let mut board: Vec<u8> = Vec::new();
        let mut i: usize = 0;
        while i < 16
            invariant
                i <= 16,
                board@.len() == i,
                forall|j: int| 0 <= j < i ==> board@[j] == 2,
                stone_sum(board@) == 2 * i,
            decreases 16 - i,
        {
            proof {
                lemma_stone_sum_push(board@, 2u8);
            }
            board.push(2);
            i = i + 1;
        }
        Player { name, agent, board_half: board }
    }

    /// A player starting from a given row of bowls.
    pub fn with_board(name: &'static str, agent: PlayerAgent, board: Vec<u8>) -> (player: Self)
        requires
            board@.len() == 16,
        ensures
            player.wf(),
            player.name == name,
            player.agent == agent,
            player.board_half@ == board@,
    {
        Player { name, agent, board_half: board }
    }

    /// This player's row of bowls.
    pub fn read_board(&self) -> (board: &Vec<u8>)
        ensures
            board@ == self.board_half@,
    {
        &self.board_half
    }
}

/// The whole game state.
pub struct Game {
    pub direction: Direction,
    pub mode: Mode,
    pub turn: usize,
    pub player1: Player,
    pub player2: Player,
}

impl Game {
    /// Both rows have sixteen bowls, and all stones in play fit a bowl's
    /// count, so that sowing can never overflow one.
    pub open spec fn wf(self) -> bool {
        &&& self.player1.wf()
        &&& self.player2.wf()
        &&& stone_sum(self.player1.board_half@) + stone_sum(self.player2.board_half@) <= 255
    }

    /// Odd turns belong to the first player.
    pub open spec fn first_to_move(self) -> bool {
        self.turn % 2 == 1
    }

    /// The row of the player about to move.
    pub open spec fn current_board(self) -> Seq<u8> {
        if self.first_to_move() {
            self.player1.board_half@
        } else {
            self.player2.board_half@
        }
    }

    /// The row of the player waiting.
    pub open spec fn opponent_board(self) -> Seq<u8> {
        if self.first_to_move() {
            self.player2.board_half@
        } else {
            self.player1.board_half@
        }
    }

    pub fn new(direction: Direction, mode: Mode, player1: Player, player2: Player) -> (game: Self)
        requires
            player1.wf(),
            player2.wf(),
            stone_sum(player1.board_half@) + stone_sum(player2.board_half@) <= 255,
        ensures
            game.wf(),
            game.direction == direction,
            game.mode == mode,
            game.turn == 1,
            game.player1 == player1,
            game.player2 == player2,
    {
        Game { direction, mode, turn: 1, player1, player2 }
    }

    /// Hand the turn to the other player.
    pub fn next_turn(&mut self)
        requires
            old(self).turn < usize::MAX,
        ensures
            final(self).turn == old(self).turn + 1,
            final(self).direction == old(self).direction,
            final(self).mode == old(self).mode,
            final(self).player1 == old(self).player1,
            final(self).player2 == old(self).player2,
    {
        self.turn = self.turn + 1;
    }

    pub fn current_player_position(&self) -> (position: PlayerPosition)
        ensures
            position == (if self.first_to_move() {
                PlayerPosition::First
            } else {
                PlayerPosition::Second
            }),
    {
        if self.turn % 2 == 1 {
            PlayerPosition::First
        } else {
            PlayerPosition::Second
        }
    }

    pub fn get_current_player(&self) -> (player: &Player)
        ensures
            *player == (if self.first_to_move() {
                self.player1
            } else {
                self.player2
            }),
            player.board_half@ == self.current_board(),
    {
        if self.turn % 2 == 1 {
            &self.player1
        } else {
            &self.player2
        }
    }

    pub fn get_opponent_player(&self) -> (player: &Player)
        ensures
            *player == (if self.first_to_move() {
                self.player2
            } else {
                self.player1
            }),
            player.board_half@ == self.opponent_board(),
    {
        if self.turn % 2 == 1 {
            &self.player2
        } else {
            &self.player1
        }
    }

    /// Whether `index` may be played now: it names a bowl, and that bowl holds
    /// at least two stones.
    pub fn is_move_legal(&self, index: usize) -> (legal: bool)
        requires
            self.wf(),
        ensures
            legal == (index < 16 && self.current_board()[index as int] >= 2),
    {
        if index < 16 {
            let player = self.get_current_player();
            player.board_half[index] >= 2
        } else {
            false
        }
    }

    /// Whether the player about to move has any legal move at all.
    pub fn move_possible(&self) -> (possible: bool)
        requires
            self.wf(),
        ensures
            possible == spec_has_move(self.current_board()),
    {
        let player = self.get_current_player();
        has_any_legal_move(&player.board_half)
    }

    /// Whether `player` has lost under `mode`.
    pub fn check_player_lost(mode: Mode, player: &Player) -> (lost: bool)
        requires
            player.wf(),
        ensures
            lost == spec_player_lost(mode, player.board_half@),
    {
        board_lost(mode, &player.board_half)
    }

    /// Whether the player about to move has already lost, which ends the game.
    pub fn game_over(&self) -> (over: bool)
        requires
            self.wf(),
        ensures
            over == spec_player_lost(self.mode, self.current_board()),
    {
        let player = self.get_current_player();
        board_lost(self.mode, &player.board_half)
    }

    /// The winner once the game is over: the second player if the first has
    /// lost, the first player otherwise.
    ///
    /// Note the asymmetry with `game_over`, which judges the player about to
    /// move: this check reads the first player's board whoever's turn it is,
    /// so the two can disagree on even turns. The contracts state each side
    /// exactly; callers that want a symmetric rule should check both players
    /// with `check_player_lost`.
    pub fn get_winner(&self) -> (winner: (&Player, PlayerPosition))
        requires
            self.wf(),
        ensures
            spec_player_lost(self.mode, self.player1.board_half@) ==> (*winner.0
                == self.player2 && winner.1 == PlayerPosition::Second),
            !spec_player_lost(self.mode, self.player1.board_half@) ==> (*winner.0
                == self.player1 && winner.1 == PlayerPosition::First),
    {
        if Self::check_player_lost(self.mode, &self.player1) {
            (&self.player2, PlayerPosition::Second)
        } else {
            (&self.player1, PlayerPosition::First)
        }
    }

    /// Choose a bowl for the automated player: a uniform draw from the current
    /// player's legal moves. (An interactive player keeps being asked until
    /// the answer is legal; drawing from the legal set directly makes every
    /// draw legal, a deliberate tightening of the same retry rule.)
    #[verifier::loop_isolation(false)]
    pub fn pick_random_index(&self) -> (index: usize)
        requires
            self.wf(),
            spec_has_move(self.current_board()),
        ensures
            index < 16,
            self.current_board()[index as int] >= 2,
    {
        let player = self.get_current_player();
        let board = &player.board_half;
        let mut legal: Vec<usize> = Vec::new();
        for i in 0..16
            invariant
                forall|k: int|
                    0 <= k < legal@.len() ==> legal@[k] < 16 && board@[legal@[k] as int] >= 2,
                forall|j: int| 0 <= j < i && board@[j] >= 2 ==> legal@.len() > 0,
        {
            if board[i] >= 2 {
                legal.push(i);
            }
        }
        let pick: usize = random_below(legal.len());
        legal[pick]
    }

    /// Play a move for the player whose turn it is: sow from `start_index`,
    /// with relays and captures, as `sow` does. Returns whether the move came
    /// to rest within the step budget.
    pub fn make_move(&mut self, start_index: usize) -> (completed: bool)
        requires
            old(self).wf(),
            start_index < 16,
        ensures
            final(self).wf(),
            final(self).direction == old(self).direction,
            final(self).mode == old(self).mode,
            final(self).turn == old(self).turn,
            final(self).player1.name == old(self).player1.name,
            final(self).player1.agent == old(self).player1.agent,
            final(self).player2.name == old(self).player2.name,
            final(self).player2.agent == old(self).player2.agent,
            ({
                let rest = sow_steps(
                    old(self).direction,
                    old(self).mode,
                    sow_init(old(self).current_board(), old(self).opponent_board(), start_index as int),
                    u64::MAX as nat,
                );
                final(self).current_board() == rest.mover && final(self).opponent_board()
                    == rest.opponent && completed == sow_done(rest)
            }),
            ({
                let rest = sow_steps(
                    old(self).direction,
                    old(self).mode,
                    sow_init(old(self).current_board(), old(self).opponent_board(), start_index as int),
                    u64::MAX as nat,
                );
                completed && !rest.finished ==> stone_sum(final(self).current_board())
                    + stone_sum(final(self).opponent_board()) == stone_sum(old(self).current_board())
                    + stone_sum(old(self).opponent_board())
            }),
    {
        let direction = self.direction;
        let mode = self.mode;
        if self.turn % 2 == 1 {
            sow(&mut self.player1.board_half, &mut self.player2.board_half, start_index, direction, mode)
        } else {
            sow(&mut self.player2.board_half, &mut self.player1.board_half, start_index, direction, mode)
        }
    }
}

} // verus!

