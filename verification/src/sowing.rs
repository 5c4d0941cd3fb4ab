//! The sowing-and-capture move of the game, as a small-step machine.
//!
//! A move picks up a source bowl and then sows one stone per step around the
//! mover's sixteen bowls. A last stone that lands on a bowl holding at least
//! two stones relays: the bowl is picked up and sowing goes on. A relay in the
//! mover's inner row (bowls 8 to 15) also captures from the opponent's
//! mirrored bowl (and, in Normal mode, from its across-the-board pair), and
//! ends the move at once if the capture leaves the opponent with a lost board.
//!
//! A relay chain has no a-priori bound, and there are boards on which it never
//! ends, so the executable move carries an explicit step budget and its
//! contract is stated over `sow_steps`, the machine run for exactly that many
//! steps (stopping early once the move is at rest).

use vstd::prelude::*;

use crate::stones::lemma_stone_le_sum;
use crate::stones::lemma_stone_sum_nonneg;
use crate::stones::lemma_stone_sum_update;
use crate::stones::lemma_two_stones_le_sum;
use crate::stones::stone_sum;

verus! {

/// Sowing direction, fixed for a whole game.
#[derive(Copy, Clone)]
pub enum Direction {
    CW,
    CCW,
}

/// Which bowls must be empty for a player to have lost.
#[derive(Copy, Clone)]
pub enum Mode {
    /// All sixteen bowls must be empty.
    Normal,
    /// Only the inner row (bowls 8 to 15) must be empty.
    Easy,
}

/// The bowl reached by one sowing step from `index`.
pub open spec fn spec_next_index(index: int, direction: Direction) -> int {
    match direction {
        Direction::CW => if index < 1 {
            15
        } else {
            index - 1
        },
        Direction::CCW => if index + 1 > 15 {
            0
        } else {
            index + 1
        },
    }
}

/// One sowing step.
pub fn next_index(index: usize, direction: Direction) -> (next: usize)
    requires
        index < 16,
    ensures
        next < 16,
        next == spec_next_index(index as int, direction),
{
    match direction {
        Direction::CW => if index < 1 {
            15
        } else {
            index - 1
        },
        Direction::CCW => if index + 1 > 15 {
            0
        } else {
            index + 1
        },
    }
}

/// Whether `board` counts as lost under `mode`.
pub open spec fn spec_player_lost(mode: Mode, board: Seq<u8>) -> bool {
    match mode {
        Mode::Easy => forall|i: int| 8 <= i < 16 ==> board[i] == 0,
        Mode::Normal => forall|i: int| 0 <= i < 16 ==> board[i] == 0,
    }
}

/// Whether `board` offers any legal move: a bowl holding at least two stones.
pub open spec fn spec_has_move(board: Seq<u8>) -> bool {
    exists|i: int| 0 <= i < 16 && board[i] >= 2
}

/// The opponent bowl mirrored across the board from the mover's inner-row
/// bowl `index`.
pub open spec fn mirror_index(index: int) -> int {
    15 - index + 8
}

/// The second capture target in Normal mode: the across-the-board pair of the
/// mirrored bowl.
pub open spec fn second_mirror_index(index: int) -> int {
    15 - mirror_index(index)
}

/// The opponent's row after a capture fired from the mover's bowl `index`.
pub open spec fn captured_opponent(mode: Mode, opponent: Seq<u8>, index: int) -> Seq<u8> {
    match mode {
        Mode::Easy => opponent.update(mirror_index(index), 0u8),
        Mode::Normal => opponent.update(mirror_index(index), 0u8).update(
            second_mirror_index(index),
            0u8,
        ),
    }
}

/// The stones such a capture takes from the opponent.
pub open spec fn captured_steal(mode: Mode, opponent: Seq<u8>, index: int) -> int {
    match mode {
        Mode::Easy => opponent[mirror_index(index)] as int,
        Mode::Normal => opponent[mirror_index(index)] + opponent[second_mirror_index(index)],
    }
}

/// A mid-move configuration: both rows, the bowl last sown into, the stones
/// still in hand, and whether a capture has already ended the move.
#[verifier::ext_equal]
pub ghost struct SowState {
    pub mover: Seq<u8>,
    pub opponent: Seq<u8>,
    pub index: int,
    pub hand: int,
    pub finished: bool,
}

pub open spec fn sow_state_wf(s: SowState) -> bool {
    &&& s.mover.len() == 16
    &&& s.opponent.len() == 16
    &&& 0 <= s.index < 16
    &&& 0 <= s.hand
    &&& sow_total(s) <= 255
}

/// Every stone in play: both rows and the hand.
pub open spec fn sow_total(s: SowState) -> int {
    stone_sum(s.mover) + stone_sum(s.opponent) + s.hand
}

/// A move is at rest once the hand is empty or a capture has ended the game.
pub open spec fn sow_done(s: SowState) -> bool {
    s.finished || s.hand == 0
}

/// The configuration a move starts from: the source bowl emptied into the hand.
pub open spec fn sow_init(mover: Seq<u8>, opponent: Seq<u8>, start: int) -> SowState {
    SowState {
        mover: mover.update(start, 0u8),
        opponent,
        index: start,
        hand: mover[start] as int,
        finished: false,
    }
}

/// One step of a move that is not yet at rest: sow one stone, and on a last
/// stone landing on a bowl now holding at least two, relay from it, capturing
/// first when that bowl lies in the inner row.
pub open spec fn sow_step(direction: Direction, mode: Mode, s: SowState) -> SowState {
    let index: int = spec_next_index(s.index, direction);
    let hand: int = s.hand - 1;
    let mover: Seq<u8> = s.mover.update(index, (s.mover[index] + 1) as u8);
    if hand == 0 && mover[index] >= 2 {
        let relay_hand: int = mover[index] as int;
        let relayed: Seq<u8> = mover.update(index, 0u8);
        if 8 <= index < 16 {
            let opponent: Seq<u8> = captured_opponent(mode, s.opponent, index);
            SowState {
                mover: relayed,
                opponent,
                index,
                hand: relay_hand + captured_steal(mode, s.opponent, index),
                finished: spec_player_lost(mode, opponent),
            }
        } else {
            SowState { mover: relayed, opponent: s.opponent, index, hand: relay_hand, finished: false }
        }
    } else {
        SowState { mover, opponent: s.opponent, index, hand, finished: false }
    }
}

/// The machine run for at most `fuel` steps, stopping early once at rest.
pub open spec fn sow_steps(direction: Direction, mode: Mode, s: SowState, fuel: nat) -> SowState
    decreases fuel,
{
    if sow_done(s) || fuel == 0 {
        s
    } else {
        sow_steps(direction, mode, sow_step(direction, mode, s), (fuel - 1) as nat)
    }
}

pub proof fn lemma_sow_steps_unfold(direction: Direction, mode: Mode, s: SowState, fuel: nat)
    requires
        !sow_done(sow_steps(direction, mode, s, fuel)),
    ensures
        sow_steps(direction, mode, s, fuel + 1) == sow_step(
            direction,
            mode,
            sow_steps(direction, mode, s, fuel),
        ),
    decreases fuel,
{
    if !sow_done(s) {
        if fuel == 0 {
            assert(sow_steps(direction, mode, sow_step(direction, mode, s), 0) == sow_step(
                direction,
                mode,
                s,
            ));
        } else {
            lemma_sow_steps_unfold(
                direction,
                mode,
                sow_step(direction, mode, s),
                (fuel - 1) as nat,
            );
        }
    }
}

pub proof fn lemma_sow_steps_stable(direction: Direction, mode: Mode, s: SowState, k: nat, fuel: nat)
    requires
        k <= fuel,
        sow_done(sow_steps(direction, mode, s, k)),
    ensures
        sow_steps(direction, mode, s, fuel) == sow_steps(direction, mode, s, k),
    decreases k,
{
    if !sow_done(s) && k > 0 {
        lemma_sow_steps_stable(
            direction,
            mode,
            sow_step(direction, mode, s),
            (k - 1) as nat,
            (fuel - 1) as nat,
        );
    }
}

/// One step keeps every stone in play: whatever moves between the rows and the
/// hand, their total is unchanged, the opponent's row never grows, and the
/// configuration stays well formed.
pub proof fn lemma_sow_step_preserves(direction: Direction, mode: Mode, s: SowState)
    requires
        sow_state_wf(s),
        !sow_done(s),
    ensures
        sow_state_wf(sow_step(direction, mode, s)),
        sow_total(sow_step(direction, mode, s)) == sow_total(s),
        stone_sum(sow_step(direction, mode, s).opponent) <= stone_sum(s.opponent),
{
    let index: int = spec_next_index(s.index, direction);
    lemma_stone_le_sum(s.mover, index);
    lemma_stone_sum_nonneg(s.opponent);
    let bumped: u8 = (s.mover[index] + 1) as u8;
    let mover: Seq<u8> = s.mover.update(index, bumped);
    lemma_stone_sum_update(s.mover, index, bumped);
    lemma_stone_sum_nonneg(mover);
    if s.hand - 1 == 0 && mover[index] >= 2 {
        let relayed: Seq<u8> = mover.update(index, 0u8);
        lemma_stone_sum_update(mover, index, 0u8);
        lemma_stone_sum_nonneg(relayed);
        if 8 <= index < 16 {
            let mirror: int = mirror_index(index);
            let second: int = second_mirror_index(index);
            match mode {
                Mode::Easy => {
                    lemma_stone_sum_update(s.opponent, mirror, 0u8);
                    lemma_stone_le_sum(s.opponent, mirror);
                    lemma_stone_sum_nonneg(captured_opponent(mode, s.opponent, index));
                },
                Mode::Normal => {
                    lemma_stone_sum_update(s.opponent, mirror, 0u8);
                    lemma_stone_sum_update(s.opponent.update(mirror, 0u8), second, 0u8);
                    lemma_two_stones_le_sum(s.opponent, mirror, second);
                    lemma_stone_sum_nonneg(captured_opponent(mode, s.opponent, index));
                },
            }
        }
    }
}

/// Any bounded run keeps every stone in play and stays well formed.
pub proof fn lemma_sow_steps_preserve(direction: Direction, mode: Mode, s: SowState, fuel: nat)
    requires
        sow_state_wf(s),
    ensures
        sow_state_wf(sow_steps(direction, mode, s, fuel)),
        sow_total(sow_steps(direction, mode, s, fuel)) == sow_total(s),
        stone_sum(sow_steps(direction, mode, s, fuel).opponent) <= stone_sum(s.opponent),
    decreases fuel,
{
    if !sow_done(s) && fuel > 0 {
        lemma_sow_step_preserves(direction, mode, s);
        lemma_sow_steps_preserve(direction, mode, sow_step(direction, mode, s), (fuel - 1) as nat);
    }
}

/// A move that comes to rest without ending the game conserves stones: both
/// rows together hold afterwards exactly what they held before. (A move ended
/// by a winning capture instead discards the stones still in hand, so it is
/// left out here; `lemma_sow_steps_preserve` states what holds of every move,
/// the hand counted in.)
pub proof fn lemma_move_conserves_stones(
    direction: Direction,
    mode: Mode,
    mover: Seq<u8>,
    opponent: Seq<u8>,
    start: int,
    fuel: nat,
)
    requires
        mover.len() == 16,
        opponent.len() == 16,
        0 <= start < 16,
        stone_sum(mover) + stone_sum(opponent) <= 255,
        sow_done(sow_steps(direction, mode, sow_init(mover, opponent, start), fuel)),
        !sow_steps(direction, mode, sow_init(mover, opponent, start), fuel).finished,
    ensures
        stone_sum(sow_steps(direction, mode, sow_init(mover, opponent, start), fuel).mover)
            + stone_sum(sow_steps(direction, mode, sow_init(mover, opponent, start), fuel).opponent)
            == stone_sum(mover) + stone_sum(opponent),
{
    let init = sow_init(mover, opponent, start);
    lemma_stone_sum_update(mover, start, 0u8);
    lemma_stone_le_sum(mover, start);
    lemma_stone_sum_nonneg(mover);
    lemma_stone_sum_nonneg(opponent);
    lemma_sow_steps_preserve(direction, mode, init, fuel);
}

/// Sowing starts from a configuration in which the source bowl has been
/// emptied into the hand: whatever that bowl holds once the move is at rest
/// came from the sowing itself, never from its pre-move count staying put.
pub proof fn lemma_source_bowl_emptied(mover: Seq<u8>, opponent: Seq<u8>, start: int)
    requires
        0 <= start < mover.len(),
    ensures
        sow_init(mover, opponent, start).mover[start] == 0,
        sow_init(mover, opponent, start).hand == mover[start],
{
}

/// A capture fired from the mover's inner-row bowl `index` in Easy mode
/// empties exactly the opponent's mirrored bowl and takes its stones.
pub proof fn lemma_capture_mirror_easy(opponent: Seq<u8>, index: int)
    requires
        opponent.len() == 16,
        8 <= index < 16,
    ensures
        mirror_index(index) == 15 - index + 8,
        captured_opponent(Mode::Easy, opponent, index)[mirror_index(index)] == 0,
        captured_steal(Mode::Easy, opponent, index) == opponent[mirror_index(index)],
        forall|j: int|
            0 <= j < 16 && j != mirror_index(index) ==> captured_opponent(
                Mode::Easy,
                opponent,
                index,
            )[j] == opponent[j],
{
}

/// The same capture in Normal mode also empties the mirrored bowl's
/// across-the-board pair and takes both bowls' stones.
pub proof fn lemma_capture_mirror_normal(opponent: Seq<u8>, index: int)
    requires
        opponent.len() == 16,
        8 <= index < 16,
    ensures
        second_mirror_index(index) == 15 - mirror_index(index),
        captured_opponent(Mode::Normal, opponent, index)[mirror_index(index)] == 0,
        captured_opponent(Mode::Normal, opponent, index)[second_mirror_index(index)] == 0,
        captured_steal(Mode::Normal, opponent, index) == opponent[mirror_index(index)]
            + opponent[second_mirror_index(index)],
        forall|j: int|
            0 <= j < 16 && j != mirror_index(index) && j != second_mirror_index(index)
                ==> captured_opponent(Mode::Normal, opponent, index)[j] == opponent[j],
{
}

/// A last stone landing on an inner-row bowl and relaying fires the capture:
/// the step leaves the landing bowl empty, the opponent's row captured, and
/// the hand holding the relayed stones plus the steal.
pub proof fn lemma_step_captures(direction: Direction, mode: Mode, s: SowState)
    requires
        sow_state_wf(s),
        !sow_done(s),
        s.hand == 1,
        spec_next_index(s.index, direction) >= 8,
        s.mover[spec_next_index(s.index, direction)] >= 1,
    ensures
        ({
            let index = spec_next_index(s.index, direction);
            sow_step(direction, mode, s).mover[index] == 0 && sow_step(direction, mode, s).opponent
                == captured_opponent(mode, s.opponent, index) && sow_step(direction, mode, s).hand
                == s.mover[index] + 1 + captured_steal(mode, s.opponent, index)
        }),
{
    let index: int = spec_next_index(s.index, direction);
    lemma_stone_le_sum(s.mover, index);
    lemma_stone_sum_nonneg(s.opponent);
}

/// Whether a player has lost is a function of the mode and the board alone:
/// two checks of an unchanged board agree.
pub proof fn lemma_lost_check_idempotent(mode: Mode, board: Seq<u8>, first: bool, second: bool)
    requires
        first == spec_player_lost(mode, board),
        second == spec_player_lost(mode, board),
    ensures
        first == second,
{
}

/// Whether `board` counts as lost under `mode`: every bowl the mode reads is
/// empty.
#[verifier::loop_isolation(false)]
pub fn board_lost(mode: Mode, board: &Vec<u8>) -> (lost: bool)
    requires
        board@.len() == 16,
    ensures
        lost == spec_player_lost(mode, board@),
{
    match mode {
        Mode::Easy => {
            for i in 8..16
                invariant
                    board@.len() == 16,
                    forall|j: int| 8 <= j < i ==> board@[j] == 0,
            {
                if board[i] != 0 {
                    return false;
                }
            }
            true
        },
        Mode::Normal => {
            for i in 0..16
                invariant
                    board@.len() == 16,
                    forall|j: int| 0 <= j < i ==> board@[j] == 0,
            {
                if board[i] != 0 {
                    return false;
                }
            }
            true
        },
    }
}

/// Whether the row offers any legal move: a bowl holding at least two stones.
#[verifier::loop_isolation(false)]
pub fn has_any_legal_move(board: &Vec<u8>) -> (possible: bool)
    requires
        board@.len() == 16,
    ensures
        possible == spec_has_move(board@),
{
    for i in 0..16
        invariant
            board@.len() == 16,
            forall|j: int| 0 <= j < i ==> board@[j] < 2,
    {
        if board[i] >= 2 {
            return true;
        }
    }
    false
}

/// Perform the capture fired from the mover's inner-row bowl `index`: empty
/// the opponent's mirrored bowl (in Normal mode also its across-the-board
/// pair) and return the stones taken.
pub fn steal_from_opponent(opponent: &mut Vec<u8>, index: usize, mode: Mode) -> (steal: u8)
    requires
        old(opponent)@.len() == 16,
        8 <= index < 16,
        stone_sum(old(opponent)@) <= 255,
    ensures
        final(opponent)@ == captured_opponent(mode, old(opponent)@, index as int),
        steal as int == captured_steal(mode, old(opponent)@, index as int),
{
    let mirror: usize = (15 - index) + 8;
    match mode {
        Mode::Easy => {
            let steal: u8 = opponent[mirror];
            opponent.set(mirror, 0);
            steal
        },
        Mode::Normal => {
            let second: usize = 15 - mirror;
            let taken_mirror: u8 = opponent[mirror];
            let taken_second: u8 = opponent[second];
            proof {
                lemma_two_stones_le_sum(opponent@, mirror as int, second as int);
            }
            let steal: u8 = taken_mirror + taken_second;
            opponent.set(mirror, 0);
            opponent.set(second, 0);
            steal
        },
    }
}

/// Run one full move: pick up the source bowl, then sow, relay and capture
/// until the move is at rest, giving up after `u64::MAX` sowing steps.
///
/// The rows afterwards are exactly those of the step machine run with that
/// budget, and `completed` says whether the move came to rest within it. A
/// move ended by a winning capture discards the stones still in hand, as the
/// rules demand; so does the (practically unreachable) exhausted budget.
#[verifier::loop_isolation(false)]
pub fn sow(
    mover: &mut Vec<u8>,
    opponent: &mut Vec<u8>,
    start_index: usize,
    direction: Direction,
    mode: Mode,
) -> (completed: bool)
    requires
        old(mover)@.len() == 16,
        old(opponent)@.len() == 16,
        start_index < 16,
        stone_sum(old(mover)@) + stone_sum(old(opponent)@) <= 255,
    ensures
        ({
            let rest = sow_steps(
                direction,
                mode,
                sow_init(old(mover)@, old(opponent)@, start_index as int),
                u64::MAX as nat,
            );
            final(mover)@ == rest.mover && final(opponent)@ == rest.opponent && completed
                == sow_done(rest)
        }),
        ({
            let rest = sow_steps(
                direction,
                mode,
                sow_init(old(mover)@, old(opponent)@, start_index as int),
                u64::MAX as nat,
            );
            completed && !rest.finished ==> stone_sum(final(mover)@) + stone_sum(final(opponent)@)
                == stone_sum(old(mover)@) + stone_sum(old(opponent)@)
        }),
        stone_sum(final(mover)@) + stone_sum(final(opponent)@) <= stone_sum(old(mover)@)
            + stone_sum(old(opponent)@),
        final(mover)@.len() == 16,
        final(opponent)@.len() == 16,
{
    let ghost init = sow_init(old(mover)@, old(opponent)@, start_index as int);
    proof {
        lemma_stone_sum_update(old(mover)@, start_index as int, 0u8);
        lemma_stone_le_sum(old(mover)@, start_index as int);
        lemma_stone_sum_nonneg(old(mover)@);
        lemma_stone_sum_nonneg(old(opponent)@);
        assert(sow_state_wf(init));
        assert(sow_total(init) == stone_sum(old(mover)@) + stone_sum(old(opponent)@));
    }
    let mut index: usize = start_index;
    let mut hand: u8 = mover[start_index];
    mover.set(start_index, 0);
    let mut steps: u64 = 0;
    while hand > 0 && steps < u64::MAX
        invariant
            mover@.len() == 16,
            opponent@.len() == 16,
            index < 16,
            sow_steps(direction, mode, init, steps as nat) == (SowState {
                mover: mover@,
                opponent: opponent@,
                index: index as int,
                hand: hand as int,
                finished: false,
            }),
        decreases u64::MAX - steps,
    {
        let ghost cur = sow_steps(direction, mode, init, steps as nat);
        proof {
            lemma_sow_steps_preserve(direction, mode, init, steps as nat);
            lemma_sow_steps_unfold(direction, mode, init, steps as nat);
            lemma_sow_step_preserves(direction, mode, cur);
            lemma_stone_le_sum(mover@, spec_next_index(index as int, direction));
            lemma_stone_sum_nonneg(mover@);
            lemma_stone_sum_nonneg(opponent@);
        }
        index = next_index(index, direction);
        hand = hand - 1;
        let bumped: u8 = mover[index] + 1;
        mover.set(index, bumped);
        if hand == 0 && bumped >= 2 {
            hand = bumped;
            mover.set(index, 0);
            if index >= 8 {
                proof {
                    lemma_stone_sum_nonneg(sow_step(direction, mode, cur).mover);
                    lemma_stone_sum_nonneg(sow_step(direction, mode, cur).opponent);
                }
                let steal: u8 = steal_from_opponent(opponent, index, mode);
                proof {
                    assert(hand as int + steal as int == sow_step(direction, mode, cur).hand);
                }
                hand = hand + steal;
                if board_lost(mode, opponent) {
                    proof {
                        assert(sow_step(direction, mode, cur) =~= (SowState {
                            mover: mover@,
                            opponent: opponent@,
                            index: index as int,
                            hand: hand as int,
                            finished: true,
                        }));
                        lemma_sow_steps_stable(
                            direction,
                            mode,
                            init,
                            (steps + 1) as nat,
                            u64::MAX as nat,
                        );
                        lemma_sow_steps_preserve(direction, mode, init, u64::MAX as nat);
                    }
                    return true;
                }
            }
        }
        steps = steps + 1;
        proof {
            assert(sow_steps(direction, mode, init, steps as nat) =~= (SowState {
                mover: mover@,
                opponent: opponent@,
                index: index as int,
                hand: hand as int,
                finished: false,
            }));
        }
    }
    proof {
        if hand == 0 {
            lemma_sow_steps_stable(direction, mode, init, steps as nat, u64::MAX as nat);
        }
        lemma_sow_steps_preserve(direction, mode, init, u64::MAX as nat);
    }
    hand == 0
}

} // verus!

