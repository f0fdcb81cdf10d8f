use royal_ur::optimized_game::{FastGameState, FastPlayer, MoveInfo};

const PATH_ONE: [u8; 14] = [3, 2, 1, 0, 6, 7, 8, 9, 10, 11, 12, 13, 5, 4];
const PATH_TWO: [u8; 14] = [17, 16, 15, 14, 6, 7, 8, 9, 10, 11, 12, 13, 19, 18];

fn board_of(one: [u8; 7], two: [u8; 7], turn: FastPlayer) -> FastGameState {
    let mut state = FastGameState::new();
    for (player, codes, offset) in [(FastPlayer::One, one, 0u64), (FastPlayer::Two, two, 20u64)] {
        let mut finished = 0;
        for (piece, code) in codes.iter().enumerate() {
            state.set_piece_pos(player, piece as u8, *code);
            if *code == 15 {
                finished += 1;
            } else if *code >= 1 {
                let square = FastGameState::path_to_global(player, *code - 1) as u64;
                state.occupied_squares |= 1u64 << (square + offset);
            }
        }
        state.set_score(player, finished);
    }
    if turn == FastPlayer::Two {
        state.pass_turn();
    }
    assert!(state.is_consistent());
    state
}

fn on_board_codes(state: &FastGameState, player: FastPlayer) -> Vec<u8> {
    (0..7u8).map(|piece| state.get_piece_pos(player, piece)).filter(|code| (1..=14).contains(code)).collect()
}

fn assert_invariants(state: &FastGameState) {
    assert!(state.is_consistent());
    for square in 0..20u8 {
        let mut holders = 0;
        for (player, path) in [(FastPlayer::One, PATH_ONE), (FastPlayer::Two, PATH_TWO)] {
            let standing = on_board_codes(state, player)
                .iter()
                .filter(|code| path[(**code - 1) as usize] == square)
                .count();
            assert!(standing <= 1);
            holders += standing;
            if standing == 1 {
                assert_eq!(state.get_occupant(square), Some(player));
            }
        }
        assert!(holders <= 1);
        if holders == 0 {
            assert_eq!(state.get_occupant(square), None);
        }
    }
    for player in [FastPlayer::One, FastPlayer::Two] {
        let codes: Vec<u8> = (0..7u8).map(|piece| state.get_piece_pos(player, piece)).collect();
        let off = codes.iter().filter(|code| **code == 0).count();
        let on = codes.iter().filter(|code| (1..=14).contains(*code)).count();
        let finished = codes.iter().filter(|code| **code == 15).count();
        assert_eq!(off + on + finished, 7);
        assert_eq!(state.get_score(player) as usize, finished);
    }
}

#[test]
fn new_game_is_empty() {
    let state = FastGameState::new();
    assert_eq!(state.current_player(), FastPlayer::One);
    for player in [FastPlayer::One, FastPlayer::Two] {
        assert_eq!(state.get_score(player), 0);
        assert!(!state.is_winner(player));
        for piece in 0..7 {
            assert_eq!(state.get_piece_pos(player, piece), 0);
        }
    }
    for square in 0..20 {
        assert_eq!(state.get_occupant(square), None);
    }
    assert!(state.is_consistent());
    assert_eq!(state, FastGameState { occupied_squares: 0, piece_positions: 0, scores_and_turn: 0 });
}

#[test]
fn players_are_opposites_and_named() {
    assert_eq!(FastPlayer::One.opposite(), FastPlayer::Two);
    assert_eq!(FastPlayer::Two.opposite(), FastPlayer::One);
    assert_eq!(FastPlayer::One.name(), "Player 1");
    assert_eq!(FastPlayer::Two.name(), "Player 2");
}

#[test]
fn paths_follow_the_table() {
    for idx in 0..14u8 {
        assert_eq!(FastGameState::path_to_global(FastPlayer::One, idx), PATH_ONE[idx as usize]);
        assert_eq!(FastGameState::path_to_global(FastPlayer::Two, idx), PATH_TWO[idx as usize]);
    }
}

#[test]
fn rosettes_and_safe_squares() {
    for square in 0..=255u8 {
        assert_eq!(FastGameState::is_rosette(square), [4, 9, 18].contains(&square));
        assert_eq!(FastGameState::is_safe(square), [0, 4, 9, 14, 18].contains(&square));
    }
}

#[test]
fn setters_store_the_low_bits_only() {
    let mut state = FastGameState::new();
    state.set_piece_pos(FastPlayer::Two, 6, 0x1F);
    assert_eq!(state.get_piece_pos(FastPlayer::Two, 6), 15);
    assert_eq!(state.get_piece_pos(FastPlayer::Two, 5), 0);
    assert_eq!(state.get_piece_pos(FastPlayer::One, 6), 0);
    state.set_piece_pos(FastPlayer::One, 3, 9);
    assert_eq!(state.get_piece_pos(FastPlayer::One, 3), 9);
    state.set_score(FastPlayer::Two, 13);
    assert_eq!(state.get_score(FastPlayer::Two), 5);
    assert_eq!(state.get_score(FastPlayer::One), 0);
    state.set_score(FastPlayer::One, 7);
    assert_eq!(state.get_score(FastPlayer::One), 7);
    assert_eq!(state.get_score(FastPlayer::Two), 5);
    assert_eq!(state.current_player(), FastPlayer::One);
    assert_eq!(state.occupied_squares, 0);
}

#[test]
fn occupant_beyond_the_board_is_none() {
    let state = board_of([1, 0, 0, 0, 0, 0, 0], [1, 0, 0, 0, 0, 0, 0], FastPlayer::One);
    assert_eq!(state.get_occupant(3), Some(FastPlayer::One));
    assert_eq!(state.get_occupant(17), Some(FastPlayer::Two));
    for square in 20..=255u8 {
        assert_eq!(state.get_occupant(square), None);
    }
}

#[test]
fn first_move_from_the_start() {
    let mut state = FastGameState::new();
    assert_eq!(state.generate_moves(1), vec![0, 1, 2, 3, 4, 5, 6]);
    let info = state.make_move(0, 1).expect("entering is legal");
    assert_eq!(info.piece_idx, 0);
    assert_eq!(info.from_pos, 0);
    assert_eq!(info.to_pos, 1);
    assert_eq!(info.captured_piece, None);
    assert!(!info.extra_turn);
    assert_eq!(state.get_piece_pos(FastPlayer::One, 0), 1);
    assert_eq!(state.get_occupant(3), Some(FastPlayer::One));
    assert!(!FastGameState::is_rosette(FastGameState::path_to_global(FastPlayer::One, 0)));
    assert_eq!(state.current_player(), FastPlayer::Two);
    assert_invariants(&state);
}

#[test]
fn capture_on_a_shared_square() {
    let mut state = board_of([5, 0, 0, 0, 0, 0, 0], [0, 0, 7, 0, 0, 0, 0], FastPlayer::One);
    assert!(state.generate_moves(2).contains(&0));
    let info = state.make_move(0, 2).expect("capturing is legal");
    assert_eq!(info.from_pos, 5);
    assert_eq!(info.to_pos, 7);
    assert_eq!(info.captured_piece, Some(2));
    assert!(!info.extra_turn);
    assert_eq!(state.get_piece_pos(FastPlayer::Two, 2), 0);
    assert_eq!(state.get_piece_pos(FastPlayer::One, 0), 7);
    assert_eq!(state.get_occupant(8), Some(FastPlayer::One));
    assert_eq!(state.get_occupant(6), None);
    assert_eq!(state.get_score(FastPlayer::One), 0);
    assert_eq!(state.get_score(FastPlayer::Two), 0);
    assert_eq!(state.current_player(), FastPlayer::Two);
    assert_invariants(&state);
}

#[test]
fn capture_reached_by_play() {
    let mut state = FastGameState::new();
    assert!(state.make_move(0, 1).is_some());
    assert!(state.make_move(0, 1).is_some());
    assert!(state.make_move(0, 4).is_some());
    assert_eq!(state.get_occupant(6), Some(FastPlayer::One));
    let info = state.make_move(0, 4).expect("player two captures");
    assert_eq!(info.captured_piece, Some(0));
    assert_eq!(state.get_piece_pos(FastPlayer::One, 0), 0);
    assert_eq!(state.get_occupant(6), Some(FastPlayer::Two));
    assert_eq!(state.current_player(), FastPlayer::One);
    assert_invariants(&state);
}

#[test]
fn roll_of_zero_moves_nothing() {
    let start = board_of([5, 0, 15, 0, 0, 0, 0], [0, 0, 7, 0, 0, 0, 0], FastPlayer::One);
    assert_eq!(start.generate_moves(0), Vec::<u8>::new());
    for piece in 0..7 {
        let mut state = start;
        assert!(state.make_move(piece, 0).is_none());
        assert_eq!(state, start);
    }
}

#[test]
fn generator_lists_exactly_the_legal_pieces() {
    let state = board_of([3, 5, 15, 14, 6, 7, 0], [8, 10, 0, 0, 0, 0, 0], FastPlayer::One);
    // roll 2: piece 0 (idx 2 -> 4, own piece 1 there) blocked; piece 1 (idx 4 -> 6, own
    // piece 5 there) blocked; piece 2 finished; piece 3 (idx 13 + 2) overshoots; piece 4
    // (idx 5 -> 7, square 9 safely held by two) blocked; piece 5 (idx 6 -> 8, square 10
    // free) moves; piece 6 enters
    assert_eq!(state.generate_moves(2), vec![5, 6]);
    // roll 3: piece 4 moves to the free square 10; piece 5 (idx 6 -> 9, square 11 held by
    // two, not safe) captures
    assert_eq!(state.generate_moves(3), vec![4, 5, 6]);
    // roll 1: piece 0 moves to square 0; piece 3 finishes exactly
    assert_eq!(state.generate_moves(1), vec![0, 3, 6]);
    assert_eq!(state.generate_moves(4), vec![1, 4, 5, 6]);
    for roll in 0..=4u8 {
        let listed = state.generate_moves(roll);
        for piece in 0..7u8 {
            let mut trial = state;
            assert_eq!(trial.make_move(piece, roll).is_some(), listed.contains(&piece));
        }
    }
}

#[test]
fn generator_is_idempotent() {
    let state = board_of([3, 5, 15, 14, 6, 7, 0], [8, 10, 0, 0, 0, 0, 0], FastPlayer::One);
    for roll in 0..=4u8 {
        let first = state.generate_moves(roll);
        let second = state.generate_moves(roll);
        assert_eq!(first, second);
        let mut sorted = first.clone();
        sorted.sort();
        sorted.dedup();
        assert_eq!(sorted, first);
    }
}

#[test]
fn entering_needs_a_free_entry_square() {
    let state = board_of([1, 0, 0, 0, 0, 0, 0], [0; 7], FastPlayer::One);
    assert_eq!(state.generate_moves(1), vec![0]);
    assert_eq!(state.generate_moves(4), vec![0]);
    let other = board_of([1, 0, 0, 0, 0, 0, 0], [0; 7], FastPlayer::Two);
    assert_eq!(other.generate_moves(3), vec![0, 1, 2, 3, 4, 5, 6]);
}

#[test]
fn rejected_moves_change_nothing() {
    let start = board_of([3, 5, 15, 14, 6, 7, 0], [8, 10, 0, 0, 0, 0, 0], FastPlayer::One);
    for (piece, roll) in [(0u8, 2u8), (1, 2), (2, 1), (2, 4), (3, 2), (3, 4), (4, 2), (7, 1), (200, 3)] {
        let mut state = start;
        assert!(state.make_move(piece, roll).is_none());
        assert_eq!(state, start);
    }
}

#[test]
fn finishing_needs_the_exact_roll() {
    let start = board_of([12, 0, 0, 0, 0, 0, 0], [0; 7], FastPlayer::One);
    // path index 11: roll 3 finishes, roll 4 overshoots, roll 2 stays on the board
    let mut exact = start;
    let info = exact.make_move(0, 3).expect("exact finish");
    assert_eq!(info.to_pos, 15);
    assert_eq!(info.captured_piece, None);
    assert!(!info.extra_turn);
    assert_eq!(exact.get_piece_pos(FastPlayer::One, 0), 15);
    assert_eq!(exact.get_score(FastPlayer::One), 1);
    assert_eq!(exact.get_occupant(13), None);
    assert_eq!(exact.current_player(), FastPlayer::Two);
    assert_invariants(&exact);
    let mut over = start;
    assert!(over.make_move(0, 4).is_none());
    assert_eq!(over.generate_moves(4), vec![1, 2, 3, 4, 5, 6]);
    let mut short = start;
    let info = short.make_move(0, 2).expect("advance");
    assert_eq!(info.to_pos, 14);
    assert_eq!(short.get_score(FastPlayer::One), 0);
    assert!(info.extra_turn);
}

#[test]
fn rosette_keeps_the_turn() {
    let mut state = board_of([6, 0, 0, 0, 0, 0, 0], [0; 7], FastPlayer::One);
    let info = state.make_move(0, 2).expect("legal");
    assert_eq!(FastGameState::path_to_global(FastPlayer::One, info.to_pos - 1), 9);
    assert!(info.extra_turn);
    assert_eq!(state.current_player(), FastPlayer::One);
    let info = state.make_move(0, 1).expect("legal");
    assert!(!info.extra_turn);
    assert_eq!(state.current_player(), FastPlayer::Two);
    let mut two = board_of([0; 7], [13, 0, 0, 0, 0, 0, 0], FastPlayer::Two);
    let info = two.make_move(0, 1).expect("legal");
    assert_eq!(FastGameState::path_to_global(FastPlayer::Two, info.to_pos - 1), 18);
    assert!(info.extra_turn);
    assert_eq!(two.current_player(), FastPlayer::Two);
}

#[test]
fn safe_square_protects_its_holder() {
    let start = board_of([6, 0, 0, 0, 0, 0, 0], [8, 0, 0, 0, 0, 0, 0], FastPlayer::One);
    assert_eq!(start.get_occupant(9), Some(FastPlayer::Two));
    let mut state = start;
    assert!(state.make_move(0, 2).is_none());
    assert_eq!(state, start);
    assert!(!start.generate_moves(2).contains(&0));
}

#[test]
fn unmake_restores_every_bit() {
    let boards = [
        FastGameState::new(),
        board_of([5, 0, 0, 0, 0, 0, 0], [0, 0, 7, 0, 0, 0, 0], FastPlayer::One),
        board_of([3, 5, 15, 14, 6, 7, 0], [8, 10, 0, 0, 0, 0, 0], FastPlayer::One),
        board_of([3, 5, 15, 14, 6, 7, 0], [8, 10, 0, 15, 15, 12, 1], FastPlayer::Two),
        board_of([15, 15, 15, 15, 15, 15, 14], [15, 15, 15, 15, 15, 15, 13], FastPlayer::Two),
    ];
    let mut tried = 0;
    for start in boards {
        for roll in 0..=4u8 {
            for piece in 0..7u8 {
                let mut state = start;
                let player = state.current_player();
                if let Some(info) = state.make_move(piece, roll) {
                    assert_invariants(&state);
                    state.unmake_move(player, &info);
                    assert_eq!(state, start);
                    tried += 1;
                } else {
                    assert_eq!(state, start);
                }
            }
        }
    }
    assert!(tried > 40);
}

#[test]
fn unmake_restores_a_captured_piece() {
    let start = board_of([5, 0, 0, 0, 0, 0, 0], [0, 0, 7, 0, 0, 0, 0], FastPlayer::One);
    let mut state = start;
    let info = state.make_move(0, 2).expect("legal");
    assert_eq!(info.captured_piece, Some(2));
    state.unmake_move(FastPlayer::One, &info);
    assert_eq!(state.get_piece_pos(FastPlayer::Two, 2), 7);
    assert_eq!(state.get_occupant(8), Some(FastPlayer::Two));
    assert_eq!(state.get_occupant(6), Some(FastPlayer::One));
    assert_eq!(state.current_player(), FastPlayer::One);
    assert_eq!(state, start);
}

#[test]
fn unmake_takes_a_written_record() {
    let start = board_of([12, 0, 0, 0, 0, 0, 0], [0; 7], FastPlayer::One);
    let mut state = start;
    assert!(state.make_move(0, 3).is_some());
    let record = MoveInfo { piece_idx: 0, from_pos: 12, to_pos: 15, captured_piece: None, extra_turn: false };
    state.unmake_move(FastPlayer::One, &record);
    assert_eq!(state, start);
    assert_eq!(state.get_score(FastPlayer::One), 0);
}

#[test]
fn winner_has_seven() {
    for score in 0..=7u8 {
        let mut codes = [0u8; 7];
        for slot in codes.iter_mut().take(score as usize) {
            *slot = 15;
        }
        let state = board_of(codes, [0; 7], FastPlayer::One);
        assert_eq!(state.get_score(FastPlayer::One), score);
        assert_eq!(state.is_winner(FastPlayer::One), score == 7);
        assert!(!state.is_winner(FastPlayer::Two));
    }
}

#[test]
fn seventh_finish_wins() {
    let mut state = board_of([15, 15, 15, 15, 15, 15, 14], [0; 7], FastPlayer::One);
    assert!(!state.is_winner(FastPlayer::One));
    assert!(state.make_move(6, 1).is_some());
    assert!(state.is_winner(FastPlayer::One));
    assert_eq!(state.get_score(FastPlayer::One), 7);
    assert_invariants(&state);
}

#[test]
fn pass_turn_flips_the_player_only() {
    let start = board_of([5, 0, 0, 0, 0, 0, 0], [0, 0, 7, 0, 0, 0, 0], FastPlayer::One);
    let mut state = start;
    state.pass_turn();
    assert_eq!(state.current_player(), FastPlayer::Two);
    assert_eq!(state.occupied_squares, start.occupied_squares);
    assert_eq!(state.piece_positions, start.piece_positions);
    assert!(state.is_consistent());
    state.pass_turn();
    assert_eq!(state, start);
}

#[test]
fn consistency_check_refuses_broken_boards() {
    let good = board_of([5, 0, 0, 0, 0, 0, 0], [0, 0, 7, 0, 0, 0, 0], FastPlayer::One);
    let mut no_bit = good;
    no_bit.occupied_squares = 0;
    assert!(!no_bit.is_consistent());
    let mut stray_bit = good;
    stray_bit.occupied_squares |= 1 << 1;
    assert!(!stray_bit.is_consistent());
    let mut two_on_one = good;
    two_on_one.set_piece_pos(FastPlayer::One, 1, 5);
    assert!(!two_on_one.is_consistent());
    let mut wrong_score = good;
    wrong_score.set_score(FastPlayer::Two, 1);
    assert!(!wrong_score.is_consistent());
    let mut shared = good;
    shared.set_piece_pos(FastPlayer::Two, 0, 5);
    shared.occupied_squares |= 1 << (6 + 20);
    assert!(!shared.is_consistent());
    let mut high_bits = good;
    high_bits.occupied_squares |= 1 << 40;
    assert!(!high_bits.is_consistent());
    let mut top_byte = good;
    top_byte.piece_positions |= 1 << 56;
    assert!(!top_byte.is_consistent());
    let mut top_bit = good;
    top_bit.scores_and_turn |= 1 << 7;
    assert!(!top_bit.is_consistent());
}

#[test]
fn random_play_keeps_the_invariants() {
    for _ in 0..20 {
        let mut state = FastGameState::new();
        let mut history: Vec<(FastGameState, FastPlayer, MoveInfo)> = Vec::new();
        for _ in 0..300 {
            if state.is_winner(FastPlayer::One) || state.is_winner(FastPlayer::Two) {
                break;
            }
            let roll = FastGameState::roll_dice();
            let moves = state.generate_moves(roll);
            if moves.is_empty() {
                state.pass_turn();
                history.clear();
                continue;
            }
            let piece = royal_ur::ai_helpers::choose_random_move_fast(&moves);
            let player = state.current_player();
            let before = state;
            let info = state.make_move(piece, roll).expect("a listed move is legal");
            assert_invariants(&state);
            history.push((before, player, info));
        }
        let mut state = state;
        while let Some((before, player, info)) = history.pop() {
            state.unmake_move(player, &info);
            assert_eq!(state, before);
        }
    }
}

#[test]
fn legal_destination_says_where_a_move_leads() {
    let state = board_of([3, 5, 15, 14, 6, 7, 0], [8, 10, 0, 0, 0, 0, 0], FastPlayer::One);
    assert_eq!(state.legal_destination(0, 1), Some(4));
    assert_eq!(state.legal_destination(0, 2), None);
    assert_eq!(state.legal_destination(3, 1), Some(15));
    assert_eq!(state.legal_destination(3, 2), None);
    assert_eq!(state.legal_destination(2, 1), None);
    assert_eq!(state.legal_destination(5, 3), Some(10));
    assert_eq!(state.legal_destination(6, 4), Some(1));
    assert_eq!(state.legal_destination(6, 0), None);
    assert_eq!(state.legal_destination(7, 1), None);
    assert_eq!(state.legal_destination(255, 255), None);
    assert_eq!(state.legal_destination(0, 255), None);
    for roll in 0..=4u8 {
        for piece in 0..9u8 {
            assert_eq!(state.is_legal(piece, roll), state.legal_destination(piece, roll).is_some());
            assert_eq!(state.is_legal(piece, roll), state.generate_moves(roll).contains(&piece));
        }
    }
}
