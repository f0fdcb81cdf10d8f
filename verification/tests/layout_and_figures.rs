use royal_ur::display::{coord_to_global, global_to_coord};
use royal_ur::optimized_game::{FastGameState, FastPlayer};
use royal_ur::stats::{count_on_board_pieces, GameStatistics, SilentGame, StatsAIType};

#[test]
fn squares_are_drawn_in_three_rows() {
    let rows: [[Option<u8>; 8]; 3] = [
        [Some(0), Some(1), Some(2), Some(3), None, None, Some(4), Some(5)],
        [Some(6), Some(7), Some(8), Some(9), Some(10), Some(11), Some(12), Some(13)],
        [Some(14), Some(15), Some(16), Some(17), None, None, Some(18), Some(19)],
    ];
    for row in 0..3 {
        for col in 0..8 {
            assert_eq!(coord_to_global(row, col), rows[row][col]);
        }
    }
    assert_eq!(coord_to_global(3, 0), None);
    assert_eq!(coord_to_global(0, 8), None);
    assert_eq!(coord_to_global(usize::MAX, usize::MAX), None);
}

#[test]
fn every_square_has_its_place() {
    for square in 0..20u8 {
        let (row, col) = global_to_coord(square);
        assert_eq!(coord_to_global(row, col), Some(square));
    }
    assert_eq!(global_to_coord(4), (0, 6));
    assert_eq!(global_to_coord(13), (1, 7));
    assert_eq!(global_to_coord(18), (2, 6));
    assert_eq!(global_to_coord(20), (0, 0));
    assert_eq!(global_to_coord(255), (0, 0));
}

#[test]
fn figures_start_empty() {
    let figures = GameStatistics::new();
    assert_eq!(figures.player1_wins, 0);
    assert_eq!(figures.player2_wins, 0);
    assert_eq!(figures.total_games, 0);
    assert_eq!(figures.total_turns, 0);
    assert_eq!(figures.shortest_game, usize::MAX);
    assert_eq!(figures.longest_game, 0);
    assert_eq!(figures.total_captures_p1, 0);
    assert_eq!(figures.total_captures_p2, 0);
}

#[test]
fn figures_add_up_over_games() {
    let mut figures = GameStatistics::new();
    figures.add_game(FastPlayer::One, 120, 3, 5);
    assert_eq!(figures.player1_wins, 1);
    assert_eq!(figures.player2_wins, 0);
    assert_eq!(figures.shortest_game, 120);
    assert_eq!(figures.longest_game, 120);
    figures.add_game(FastPlayer::Two, 90, 1, 0);
    figures.add_game(FastPlayer::Two, 200, 0, 7);
    assert_eq!(figures.player1_wins, 1);
    assert_eq!(figures.player2_wins, 2);
    assert_eq!(figures.total_games, 3);
    assert_eq!(figures.total_turns, 410);
    assert_eq!(figures.shortest_game, 90);
    assert_eq!(figures.longest_game, 200);
    assert_eq!(figures.total_captures_p1, 4);
    assert_eq!(figures.total_captures_p2, 12);
}

#[test]
fn kinds_of_player_can_be_copied() {
    let kinds = [StatsAIType::Random, StatsAIType::Smart, StatsAIType::MCTS];
    let copies = kinds;
    assert!(matches!(copies[0], StatsAIType::Random));
    assert!(matches!(copies[1], StatsAIType::Smart));
    assert!(matches!(copies[2], StatsAIType::MCTS));
}

#[test]
fn pieces_on_the_board_are_counted() {
    let mut state = FastGameState::new();
    assert_eq!(count_on_board_pieces(&state, FastPlayer::One), 0);
    assert!(state.make_move(0, 1).is_some());
    assert!(state.make_move(3, 2).is_some());
    assert!(state.make_move(0, 4).is_some());
    assert!(state.make_move(3, 3).is_some());
    assert!(state.make_move(1, 1).is_some());
    assert_eq!(count_on_board_pieces(&state, FastPlayer::One), 2);
    assert_eq!(count_on_board_pieces(&state, FastPlayer::Two), 1);
    let mut codes = FastGameState::new();
    for (piece, code) in [0u8, 1, 14, 15, 7, 15, 0].iter().enumerate() {
        codes.set_piece_pos(FastPlayer::Two, piece as u8, *code);
    }
    assert_eq!(count_on_board_pieces(&codes, FastPlayer::Two), 3);
    assert_eq!(count_on_board_pieces(&codes, FastPlayer::One), 0);
}

fn silent_game_on(one: [u8; 7], two: [u8; 7], turn: FastPlayer, turns: usize) -> SilentGame {
    let mut state = FastGameState::new();
    for (player, codes, offset) in [(FastPlayer::One, one, 0u64), (FastPlayer::Two, two, 20u64)] {
        let mut finished = 0;
        for (piece, code) in codes.iter().enumerate() {
            state.set_piece_pos(player, piece as u8, *code);
            if *code == 15 {
                finished += 1;
            } else if *code >= 1 {
                let square = FastGameState::path_to_global(player, *code - 1) as u64;
                state.occupied_squares |= 1u64 << (square + offset);
            }
        }
        state.set_score(player, finished);
    }
    if turn == FastPlayer::Two {
        state.pass_turn();
    }
    assert!(state.is_consistent());
    SilentGame { game: state, turn_count: turns, captures_p1: 2, captures_p2: 5 }
}

#[test]
fn silent_game_starts_with_nothing_counted() {
    let play = SilentGame::new();
    assert_eq!(play.game, FastGameState::new());
    assert_eq!((play.turn_count, play.captures_p1, play.captures_p2), (0, 0, 0));
}

#[test]
fn a_turn_without_moves_is_a_pass() {
    let mut play = SilentGame::new();
    assert_eq!(play.begin_turn(0), Vec::<u8>::new());
    assert_eq!(play.turn_count, 1);
    assert_eq!(play.game.current_player(), FastPlayer::Two);
    assert_eq!(play.begin_turn(2), vec![0, 1, 2, 3, 4, 5, 6]);
    assert_eq!(play.turn_count, 2);
    assert_eq!(play.game.current_player(), FastPlayer::Two);
    let mut stuck = silent_game_on([14, 15, 15, 15, 15, 15, 15], [0; 7], FastPlayer::One, 7);
    let before = stuck.game;
    assert_eq!(stuck.begin_turn(3), Vec::<u8>::new());
    assert_eq!(stuck.turn_count, 8);
    assert_eq!(stuck.game.current_player(), FastPlayer::Two);
    assert_eq!(stuck.game.piece_positions, before.piece_positions);
    assert_eq!((stuck.captures_p1, stuck.captures_p2), (2, 5));
}

#[test]
fn captures_are_counted_for_the_mover() {
    let mut play = silent_game_on([5, 0, 0, 0, 0, 0, 0], [0, 0, 7, 0, 0, 0, 0], FastPlayer::One, 10);
    assert_eq!(play.finish_turn(0, 2), None);
    assert_eq!((play.turn_count, play.captures_p1, play.captures_p2), (10, 3, 5));
    assert_eq!(play.game.get_piece_pos(FastPlayer::Two, 2), 0);
    let mut other = silent_game_on([5, 0, 0, 0, 0, 0, 0], [0, 0, 3, 0, 0, 0, 0], FastPlayer::Two, 10);
    assert_eq!(other.finish_turn(2, 2), None);
    assert_eq!((other.captures_p1, other.captures_p2), (2, 6));
    let mut quiet = silent_game_on([5, 0, 0, 0, 0, 0, 0], [0, 0, 7, 0, 0, 0, 0], FastPlayer::One, 10);
    assert_eq!(quiet.finish_turn(0, 1), None);
    assert_eq!((quiet.captures_p1, quiet.captures_p2), (2, 5));
    let mut finishing = silent_game_on([14, 0, 0, 0, 0, 0, 0], [0, 0, 7, 0, 0, 0, 0], FastPlayer::One, 10);
    assert_eq!(finishing.finish_turn(0, 1), None);
    assert_eq!((finishing.captures_p1, finishing.captures_p2), (2, 5));
}

#[test]
fn the_seventh_piece_home_ends_the_game() {
    let mut play = silent_game_on([15, 15, 15, 15, 15, 15, 14], [15, 0, 0, 0, 0, 0, 0], FastPlayer::One, 321);
    assert_eq!(play.finish_turn(6, 1), Some((FastPlayer::One, 321, 2, 5)));
    let mut late = silent_game_on([15, 0, 0, 0, 0, 0, 0], [15, 15, 15, 15, 15, 15, 12], FastPlayer::Two, 5000);
    assert_eq!(late.finish_turn(6, 3), Some((FastPlayer::Two, 5000, 2, 5)));
}

#[test]
fn a_long_game_goes_to_the_player_ahead() {
    let mut level = silent_game_on([15, 3, 0, 0, 0, 0, 0], [15, 0, 0, 0, 0, 0, 0], FastPlayer::One, 1001);
    assert_eq!(level.finish_turn(1, 2), Some((FastPlayer::One, 1001, 2, 5)));
    let mut behind = silent_game_on([15, 3, 0, 0, 0, 0, 0], [15, 15, 0, 0, 0, 0, 0], FastPlayer::One, 1001);
    assert_eq!(behind.finish_turn(1, 2), Some((FastPlayer::Two, 1001, 2, 5)));
    let mut ahead = silent_game_on([15, 15, 15, 0, 0, 0, 0], [15, 15, 0, 0, 0, 0, 0], FastPlayer::Two, 1500);
    assert_eq!(ahead.finish_turn(2, 4), Some((FastPlayer::One, 1500, 2, 5)));
    let mut at_limit = silent_game_on([15, 3, 0, 0, 0, 0, 0], [15, 15, 0, 0, 0, 0, 0], FastPlayer::One, 1000);
    assert_eq!(at_limit.finish_turn(1, 2), None);
    let mut refused = silent_game_on([15, 3, 0, 0, 0, 0, 0], [15, 15, 0, 0, 0, 0, 0], FastPlayer::One, 1001);
    let before = refused.game;
    assert_eq!(refused.finish_turn(0, 2), Some((FastPlayer::Two, 1001, 2, 5)));
    assert_eq!(refused.game, before);
}

#[test]
fn a_silent_game_runs_to_its_end() {
    for _ in 0..5 {
        let mut play = SilentGame::new();
        let result = loop {
            let roll = FastGameState::roll_dice();
            let moves = play.begin_turn(roll);
            if moves.is_empty() {
                continue;
            }
            let player = play.game.current_player();
            let piece = royal_ur::ai_helpers::choose_smart_move_fast(&play.game, player, &moves, roll);
            if let Some(result) = play.finish_turn(piece, roll) {
                break result;
            }
        };
        let (winner, turns, captures_p1, captures_p2) = result;
        assert!(captures_p1 + captures_p2 <= turns);
        if turns <= 1000 {
            assert!(turns >= 35);
        }
        assert_eq!(turns, play.turn_count);
        assert_eq!((captures_p1, captures_p2), (play.captures_p1, play.captures_p2));
        assert!(turns >= 14);
        if turns <= 1000 {
            assert!(play.game.is_winner(winner));
        }
        assert!(play.game.is_consistent());
    }
}
