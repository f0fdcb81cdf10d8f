use royal_ur::ai::MCTSAI;
use royal_ur::ai::ExplorationPolicy;
use royal_ur::ai_helpers::{choose_random_move_fast, choose_smart_move_fast, evaluate_move_fast};
use royal_ur::optimized_game::{FastGameState, FastPlayer};

struct Flat;

impl ExplorationPolicy for Flat {
    fn priority(&self, _wins: u128, _visits: usize, _total_visits: usize) -> u64 {
        0
    }
}

fn position_of(one: [u8; 7], two: [u8; 7], turn: FastPlayer) -> FastGameState {
    let mut state = FastGameState::new();
    for (player, codes, offset) in [(FastPlayer::One, one, 0u64), (FastPlayer::Two, two, 20u64)] {
        let mut finished = 0;
        for (piece, code) in codes.iter().enumerate() {
            state.set_piece_pos(player, piece as u8, *code);
            if *code == 15 {
                finished += 1;
            } else if *code >= 1 {
                let square = FastGameState::path_to_global(player, *code - 1) as u64;
                state.occupied_squares |= 1u64 << (square + offset);
            }
        }
        state.set_score(player, finished);
    }
    if turn == FastPlayer::Two {
        state.pass_turn();
    }
    assert!(state.is_consistent());
    state
}

#[test]
fn entering_is_worth_fifty() {
    let state = FastGameState::new();
    for roll in 0..=4 {
        assert_eq!(evaluate_move_fast(&state, FastPlayer::One, 0, roll), 50);
        assert_eq!(evaluate_move_fast(&state, FastPlayer::Two, 6, roll), 50);
    }
}

#[test]
fn advancing_is_worth_ten_a_square() {
    let state = position_of([3, 0, 0, 0, 0, 0, 0], [0; 7], FastPlayer::One);
    assert_eq!(evaluate_move_fast(&state, FastPlayer::One, 0, 1), 30);
    assert_eq!(evaluate_move_fast(&state, FastPlayer::One, 0, 4), 60);
    assert_eq!(evaluate_move_fast(&state, FastPlayer::One, 0, 0), 20);
}

#[test]
fn rosette_adds_two_hundred() {
    let state = position_of([6, 0, 0, 0, 0, 0, 0], [0; 7], FastPlayer::One);
    assert_eq!(evaluate_move_fast(&state, FastPlayer::One, 0, 2), 270);
    let late = position_of([13, 0, 0, 0, 0, 0, 0], [0; 7], FastPlayer::One);
    assert_eq!(evaluate_move_fast(&late, FastPlayer::One, 0, 1), 330);
}

#[test]
fn capture_adds_more_for_an_advanced_piece() {
    let near = position_of([5, 0, 0, 0, 0, 0, 0], [0, 0, 7, 0, 0, 0, 0], FastPlayer::One);
    assert_eq!(evaluate_move_fast(&near, FastPlayer::One, 0, 2), 60 + 150 + 30);
    let far = position_of([9, 0, 0, 0, 0, 0, 0], [0, 0, 12, 0, 0, 0, 0], FastPlayer::One);
    assert_eq!(evaluate_move_fast(&far, FastPlayer::One, 0, 3), 110 + 150 + 55);
    let safe = position_of([6, 0, 0, 0, 0, 0, 0], [8, 0, 0, 0, 0, 0, 0], FastPlayer::One);
    assert_eq!(evaluate_move_fast(&safe, FastPlayer::One, 0, 2), 70 + 200);
    let own = position_of([5, 7, 0, 0, 0, 0, 0], [0; 7], FastPlayer::One);
    assert_eq!(evaluate_move_fast(&own, FastPlayer::One, 0, 2), 60);
}

#[test]
fn finishing_is_worth_a_thousand_and_the_win_far_more() {
    let state = position_of([14, 15, 0, 0, 0, 0, 0], [0; 7], FastPlayer::One);
    assert_eq!(evaluate_move_fast(&state, FastPlayer::One, 0, 1), 1000);
    assert_eq!(evaluate_move_fast(&state, FastPlayer::One, 0, 4), 1000);
    assert_eq!(evaluate_move_fast(&state, FastPlayer::One, 1, 1), 0);
    let last = position_of([15, 15, 15, 15, 15, 15, 12], [0; 7], FastPlayer::One);
    assert_eq!(evaluate_move_fast(&last, FastPlayer::One, 6, 3), 11000);
}

#[test]
fn smart_move_takes_the_first_of_the_best() {
    let state = position_of([3, 0, 0, 6, 0, 0, 0], [0; 7], FastPlayer::One);
    // roll 2: piece 0 to index 4 (40), pieces 1, 2, 4, 5, 6 enter (50), piece 3 to the
    // rosette at index 7 (70 + 200)
    assert_eq!(choose_smart_move_fast(&state, FastPlayer::One, &[0, 1, 2, 3, 4, 5, 6], 2), 3);
    assert_eq!(choose_smart_move_fast(&state, FastPlayer::One, &[0, 1, 2, 4, 5, 6], 2), 1);
    assert_eq!(choose_smart_move_fast(&state, FastPlayer::One, &[6, 5, 4], 2), 6);
    assert_eq!(choose_smart_move_fast(&state, FastPlayer::One, &[0], 2), 0);
}

#[test]
fn smart_piece_rates_as_documented() {
    let state = position_of([3, 0, 0, 6, 14, 0, 0], [0, 0, 0, 0, 0, 0, 0], FastPlayer::One);
    // roll 1: piece 0 to index 3 (3), piece 1 enters (10), piece 3 to index 6 (6),
    // piece 4 finishes (50)
    assert_eq!(MCTSAI::<Flat>::choose_smart_piece(&state, FastPlayer::One, &[0, 1, 3, 4], 1), 4);
    assert_eq!(MCTSAI::<Flat>::choose_smart_piece(&state, FastPlayer::One, &[0, 1, 3], 1), 1);
    assert_eq!(MCTSAI::<Flat>::choose_smart_piece(&state, FastPlayer::One, &[0, 3], 1), 3);
    // roll 2: piece 3 to the rosette at index 7 (7 + 5) beats entering (10)
    assert_eq!(MCTSAI::<Flat>::choose_smart_piece(&state, FastPlayer::One, &[1, 2, 3], 2), 3);
    // a capture at index 6 (6 + 8) beats entering (10), which comes first
    let fight = position_of([5, 0, 0, 0, 0, 0, 0], [0, 0, 7, 0, 0, 0, 0], FastPlayer::One);
    assert_eq!(MCTSAI::<Flat>::choose_smart_piece(&fight, FastPlayer::One, &[1, 0], 2), 0);
    // of equally rated pieces the first is taken
    assert_eq!(MCTSAI::<Flat>::choose_smart_piece(&fight, FastPlayer::One, &[2, 1, 3], 2), 2);
}

#[test]
fn random_move_is_one_of_the_offered() {
    let offered = [1u8, 4, 6];
    let mut seen = [false; 7];
    for _ in 0..600 {
        let piece = choose_random_move_fast(&offered);
        assert!(offered.contains(&piece));
        seen[piece as usize] = true;
    }
    assert!(seen[1] && seen[4] && seen[6]);
    for _ in 0..20 {
        assert_eq!(choose_random_move_fast(&[5]), 5);
    }
}
