use bao::game::{Game, Player, PlayerAgent, PlayerPosition};
use bao::sowing::{board_lost, has_any_legal_move, next_index, Direction, Mode};

fn custom_game(mode: Mode, board1: Vec<u8>, board2: Vec<u8>) -> Game {
    Game::new(
        Direction::CW,
        mode,
        Player::with_board("one", PlayerAgent::AiRandom, board1),
        Player::with_board("two", PlayerAgent::AiRandom, board2),
    )
}

#[test]
fn sowing_wraps_around_both_ends() {
    assert_eq!(next_index(0, Direction::CW), 15);
    assert_eq!(next_index(15, Direction::CCW), 0);
    assert_eq!(next_index(7, Direction::CW), 6);
    assert_eq!(next_index(7, Direction::CCW), 8);
}

#[test]
fn empty_inner_row_loses_only_in_easy_mode() {
    let mut board = vec![0u8; 16];
    for i in 0..8 {
        board[i] = 3;
    }
    let player = Player::with_board("one", PlayerAgent::Human, board.clone());
    assert!(Game::check_player_lost(Mode::Easy, &player));
    assert!(!Game::check_player_lost(Mode::Normal, &player));
    assert!(board_lost(Mode::Easy, &board));
    assert!(!board_lost(Mode::Normal, &board));
}

#[test]
fn fully_empty_board_loses_in_both_modes() {
    let board = vec![0u8; 16];
    assert!(board_lost(Mode::Easy, &board));
    assert!(board_lost(Mode::Normal, &board));
}

#[test]
fn lost_check_gives_the_same_answer_twice() {
    let mut board = vec![0u8; 16];
    board[3] = 1;
    let player = Player::with_board("one", PlayerAgent::Human, board);
    let first = Game::check_player_lost(Mode::Normal, &player);
    let second = Game::check_player_lost(Mode::Normal, &player);
    assert_eq!(first, second);
    let third = Game::check_player_lost(Mode::Easy, &player);
    let fourth = Game::check_player_lost(Mode::Easy, &player);
    assert_eq!(third, fourth);
    assert!(!first);
    assert!(third);
}

#[test]
fn single_stones_leave_no_legal_move() {
    let ones = vec![1u8; 16];
    assert!(!has_any_legal_move(&ones));
    let mut board = vec![1u8; 16];
    board[11] = 2;
    assert!(has_any_legal_move(&board));
}

#[test]
fn move_possible_reads_the_current_player() {
    let mut game = custom_game(Mode::Normal, vec![1u8; 16], vec![2u8; 16]);
    assert!(!game.move_possible());
    game.next_turn();
    assert!(game.move_possible());
}

#[test]
fn legality_needs_a_bowl_with_two_stones() {
    let mut board = vec![0u8; 16];
    board[4] = 1;
    board[9] = 2;
    let game = custom_game(Mode::Normal, board, vec![2u8; 16]);
    assert!(!game.is_move_legal(4));
    assert!(game.is_move_legal(9));
    assert!(!game.is_move_legal(16));
    assert!(!game.is_move_legal(0));
}

#[test]
fn game_over_checks_the_mover_to_be() {
    let mut empty_inner = vec![0u8; 16];
    empty_inner[0] = 4;
    let mut game = custom_game(Mode::Easy, empty_inner, vec![2u8; 16]);
    assert!(game.game_over());
    game.next_turn();
    assert!(!game.game_over());
}

#[test]
fn winner_is_the_opponent_of_the_emptied_first_player() {
    let game = custom_game(Mode::Normal, vec![0u8; 16], vec![2u8; 16]);
    let (winner, position) = game.get_winner();
    assert_eq!(winner.name, "two");
    assert_eq!(position, PlayerPosition::Second);

    let game = custom_game(Mode::Normal, vec![2u8; 16], vec![0u8; 16]);
    let (winner, position) = game.get_winner();
    assert_eq!(winner.name, "one");
    assert_eq!(position, PlayerPosition::First);
}

#[test]
fn turn_parity_selects_the_players() {
    let mut game = custom_game(Mode::Normal, vec![2u8; 16], vec![1u8; 16]);
    assert_eq!(game.turn, 1);
    assert_eq!(game.current_player_position(), PlayerPosition::First);
    assert_eq!(game.get_current_player().name, "one");
    assert_eq!(game.get_opponent_player().name, "two");
    game.next_turn();
    assert_eq!(game.turn, 2);
    assert_eq!(game.current_player_position(), PlayerPosition::Second);
    assert_eq!(game.get_current_player().name, "two");
    assert_eq!(game.get_opponent_player().name, "one");
}

#[test]
fn random_pick_lands_on_the_only_legal_bowl() {
    let mut board = vec![1u8; 16];
    board[6] = 2;
    let game = custom_game(Mode::Normal, board, vec![2u8; 16]);
    for _ in 0..50 {
        assert_eq!(game.pick_random_index(), 6);
    }
}

#[test]
fn random_pick_is_always_legal() {
    let game = custom_game(Mode::Normal, vec![2u8; 16], vec![2u8; 16]);
    for _ in 0..100 {
        let index = game.pick_random_index();
        assert!(game.is_move_legal(index));
    }
}

#[test]
fn steal_takes_exactly_the_mirrored_bowls() {
    let mut opponent: Vec<u8> = (1..=16).collect();
    let steal = bao::sowing::steal_from_opponent(&mut opponent, 10, Mode::Easy);
    // Mirror of bowl 10 is 15 - 10 + 8 = 13, which held 14 stones.
    assert_eq!(steal, 14);
    assert_eq!(opponent[13], 0);
    assert_eq!(opponent[2], 3);

    let mut opponent: Vec<u8> = (1..=16).collect();
    let steal = bao::sowing::steal_from_opponent(&mut opponent, 10, Mode::Normal);
    // Normal mode also empties bowl 15 - 13 = 2, which held 3 stones.
    assert_eq!(steal, 17);
    assert_eq!(opponent[13], 0);
    assert_eq!(opponent[2], 0);
}
