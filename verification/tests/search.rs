use std::cell::Cell;

use royal_ur::ai::{select_move, ExplorationPolicy, HybridAI, MCTSAI};
use royal_ur::budget::worker_share;
use royal_ur::tally::{
    best_move, choose_by_priority, count_visits, fresh_stats, merge_stats, MoveStats,
};
use royal_ur::optimized_game::{FastGameState, FastPlayer};
use royal_ur::playout::{playout_with, simulate_game_fast, simulate_move_fast, smart_piece, Draw};

struct Ucb1 {
    exploration_constant: f64,
}

impl ExplorationPolicy for Ucb1 {
    fn priority(&self, wins: u128, visits: usize, total_visits: usize) -> u64 {
        let mean = wins as f64 / 14.0 / visits as f64;
        let bonus = self.exploration_constant * ((total_visits as f64).ln() / visits as f64).sqrt();
        (mean + bonus).to_bits()
    }
}

struct Counting {
    calls: Cell<usize>,
}

impl ExplorationPolicy for Counting {
    fn priority(&self, _wins: u128, visits: usize, _total_visits: usize) -> u64 {
        self.calls.set(self.calls.get() + 1);
        u64::MAX - visits as u64
    }
}

fn ucb1() -> Ucb1 {
    Ucb1 { exploration_constant: std::f64::consts::SQRT_2 }
}

fn table(entries: &[(usize, u128)]) -> Vec<MoveStats> {
    entries.iter().map(|(visits, wins)| MoveStats { visits: *visits, wins: *wins }).collect()
}

fn game_of(one: [u8; 7], two: [u8; 7], turn: FastPlayer) -> FastGameState {
    let mut state = FastGameState::new();
    for (player, codes, offset) in [(FastPlayer::One, one, 0u64), (FastPlayer::Two, two, 20u64)] {
        let mut finished = 0;
        for (piece, code) in codes.iter().enumerate() {
            state.set_piece_pos(player, piece as u8, *code);
            if *code == 15 {
                finished += 1;
            } else if *code >= 1 {
                let square = FastGameState::path_to_global(player, *code - 1) as u64;
                state.occupied_squares |= 1u64 << (square + offset);
            }
        }
        state.set_score(player, finished);
    }
    if turn == FastPlayer::Two {
        state.pass_turn();
    }
    assert!(state.is_consistent());
    state
}

#[test]
fn stats_count_playouts_and_rewards() {
    let mut stats = MoveStats::new();
    assert_eq!((stats.visits, stats.wins), (0, 0));
    stats.record(14);
    stats.record(0);
    stats.record(9);
    assert_eq!((stats.visits, stats.wins), (3, 23));
    stats.add(&MoveStats { visits: 4, wins: 30 });
    assert_eq!((stats.visits, stats.wins), (7, 53));
}

#[test]
fn means_are_compared_exactly() {
    let third = MoveStats { visits: 3, wins: 14 };
    let three_ninths = MoveStats { visits: 9, wins: 42 };
    let bit_more = MoveStats { visits: 9, wins: 43 };
    let untried = MoveStats { visits: 0, wins: 0 };
    let nothing = MoveStats { visits: 5, wins: 0 };
    assert!(!third.has_higher_mean(&three_ninths));
    assert!(!three_ninths.has_higher_mean(&third));
    assert!(bit_more.has_higher_mean(&third));
    assert!(!third.has_higher_mean(&bit_more));
    assert!(third.has_higher_mean(&untried));
    assert!(!untried.has_higher_mean(&third));
    assert!(!untried.has_higher_mean(&nothing));
    assert!(!nothing.has_higher_mean(&untried));
    let full = MoveStats { visits: usize::MAX, wins: 14 * usize::MAX as u128 };
    let nearly = MoveStats { visits: usize::MAX, wins: 14 * usize::MAX as u128 - 1 };
    assert!(full.has_higher_mean(&nearly));
    assert!(!nearly.has_higher_mean(&full));
    assert!(!full.has_higher_mean(&MoveStats { visits: 1, wins: 14 }));
    let whole = MoveStats { visits: 2, wins: 15 };
    let part = MoveStats { visits: 3, wins: 22 };
    assert!(whole.has_higher_mean(&part));
}

#[test]
fn best_move_is_the_first_of_the_highest_means() {
    let moves = [1u8, 3, 4, 6];
    assert_eq!(best_move(&moves, &table(&[(2, 10), (4, 30), (1, 7), (8, 60)])), 3);
    assert_eq!(best_move(&moves, &table(&[(2, 10), (4, 20), (1, 5), (8, 40)])), 1);
    assert_eq!(best_move(&moves, &table(&[(0, 0), (0, 0), (0, 0), (0, 0)])), 1);
    assert_eq!(best_move(&moves, &table(&[(5, 0), (0, 0), (3, 1), (0, 0)])), 4);
    assert_eq!(best_move(&moves, &table(&[(1, 14), (1, 13), (2, 28), (3, 42)])), 1);
    assert_eq!(best_move(&[5], &table(&[(0, 0)])), 5);
}

#[test]
fn untried_moves_come_first_in_order() {
    let stats = table(&[(3, 10), (0, 0), (1, 14), (0, 0)]);
    assert_eq!(choose_by_priority(&stats, &vec![9, 0, 9, 7]), 1);
    assert_eq!(select_move(&stats, &ucb1()), 1);
    let counting = Counting { calls: Cell::new(0) };
    assert_eq!(select_move(&table(&[(0, 0), (0, 0)]), &counting), 0);
    assert_eq!(counting.calls.get(), 0);
}

#[test]
fn highest_priority_comes_next_and_ties_go_to_the_first() {
    let stats = table(&[(3, 10), (2, 0), (1, 14), (4, 4)]);
    assert_eq!(choose_by_priority(&stats, &vec![5, 8, 8, 2]), 1);
    assert_eq!(choose_by_priority(&stats, &vec![5, 5, 5, 5]), 0);
    assert_eq!(choose_by_priority(&stats, &vec![0, 1, 2, 3]), 3);
    assert_eq!(choose_by_priority(&table(&[(1, 1)]), &vec![0]), 0);
}

#[test]
fn ucb1_prefers_the_seldom_tried_among_equals() {
    let stats = table(&[(10, 70), (2, 14), (10, 70)]);
    assert_eq!(select_move(&stats, &ucb1()), 1);
    let even = table(&[(5, 35), (5, 35), (5, 35)]);
    assert_eq!(select_move(&even, &ucb1()), 0);
    let strong = table(&[(5, 0), (5, 70), (5, 35)]);
    assert_eq!(select_move(&strong, &ucb1()), 1);
}

#[test]
fn visits_are_counted_over_the_table() {
    assert_eq!(count_visits(&table(&[])), 0);
    assert_eq!(count_visits(&table(&[(3, 10), (0, 0), (1, 14), (4, 4)])), 8);
    let fresh = fresh_stats(5);
    assert_eq!(fresh.len(), 5);
    assert_eq!(count_visits(&fresh), 0);
    assert!(fresh.iter().all(|entry| entry.visits == 0 && entry.wins == 0));
}

#[test]
fn tables_merge_entry_by_entry() {
    let mut combined = table(&[(3, 10), (0, 0), (1, 14)]);
    merge_stats(&mut combined, &table(&[(2, 28), (5, 1), (0, 0)]));
    let merged: Vec<(usize, u128)> = combined.iter().map(|entry| (entry.visits, entry.wins)).collect();
    assert_eq!(merged, vec![(5, 38), (5, 1), (1, 14)]);
}

#[test]
fn shares_split_the_budget_evenly() {
    let shares: Vec<usize> = (0..4).map(|worker| worker_share(10, 4, worker)).collect();
    assert_eq!(shares, vec![3, 3, 2, 2]);
    let shares: Vec<usize> = (0..3).map(|worker| worker_share(9, 3, worker)).collect();
    assert_eq!(shares, vec![3, 3, 3]);
    let shares: Vec<usize> = (0..5).map(|worker| worker_share(2, 5, worker)).collect();
    assert_eq!(shares, vec![1, 1, 0, 0, 0]);
    for (budget, workers) in [(0usize, 1usize), (1, 1), (1000, 7), (12345, 16), (usize::MAX, 3)] {
        let mut sum = 0u128;
        for worker in 0..workers {
            sum += worker_share(budget, workers, worker) as u128;
        }
        assert_eq!(sum, budget as u128);
    }
}

#[test]
fn search_is_built_with_its_defaults() {
    let ai = MCTSAI::new_with_threads(500, ucb1(), 0);
    assert_eq!(ai.simulations, 500);
    assert_eq!(ai.max_simulation_depth, 200);
    assert_eq!(ai.num_threads, 1);
    assert!(!ai.uses_workers());
    let wide = MCTSAI::new_with_threads(80, ucb1(), 8);
    assert_eq!(wide.num_threads, 8);
    assert!(wide.uses_workers());
    assert!(!MCTSAI::new_with_threads(79, ucb1(), 8).uses_workers());
    assert!(!MCTSAI::new_with_threads(1000, ucb1(), 1).uses_workers());
    let hybrid = HybridAI::new_with_threads(300, ucb1(), 2);
    assert_eq!(hybrid.use_mcts_threshold, 2);
    assert_eq!(hybrid.mcts.simulations, 300);
    assert_eq!(hybrid.mcts.num_threads, 2);
    assert_eq!(hybrid.mcts.max_simulation_depth, 200);
}

#[test]
fn every_playout_is_counted() {
    let state = FastGameState::new();
    let moves = state.generate_moves(2);
    let ai = MCTSAI::new_with_threads(0, ucb1(), 1);
    for budget in [0usize, 1, 3, 7, 8, 50] {
        let stats = ai.run_simulations(&state, FastPlayer::One, 2, &moves, budget);
        assert_eq!(stats.len(), moves.len());
        assert_eq!(count_visits(&stats), budget);
        for (idx, entry) in stats.iter().enumerate() {
            assert!(entry.wins <= 14 * entry.visits as u128);
            assert_eq!(entry.visits > 0, idx < budget);
            if budget <= moves.len() {
                assert_eq!(entry.visits, if idx < budget { 1 } else { 0 });
            }
        }
    }
}

#[test]
fn single_candidate_needs_no_search() {
    let state = game_of([1, 0, 0, 0, 0, 0, 0], [0; 7], FastPlayer::One);
    assert_eq!(state.generate_moves(1), vec![0]);
    let ai = MCTSAI::new_with_threads(1, Counting { calls: Cell::new(0) }, 1);
    assert_eq!(ai.choose_move(&state, FastPlayer::One, 1), Some(0));
    assert_eq!(ai.policy.calls.get(), 0);
    let hybrid = HybridAI::new_with_threads(1, Counting { calls: Cell::new(0) }, 4);
    assert_eq!(hybrid.choose_move(&state, FastPlayer::One, 1), Some(0));
    assert_eq!(hybrid.mcts.policy.calls.get(), 0);
}

#[test]
fn no_legal_move_gives_no_choice() {
    let state = FastGameState::new();
    let ai = MCTSAI::new_with_threads(20, ucb1(), 1);
    assert_eq!(ai.choose_move(&state, FastPlayer::One, 0), None);
    let stuck = game_of([14, 15, 15, 15, 15, 15, 15], [0; 7], FastPlayer::One);
    assert_eq!(stuck.generate_moves(3), Vec::<u8>::new());
    assert_eq!(ai.choose_move(&stuck, FastPlayer::One, 3), None);
    let hybrid = HybridAI::new_with_threads(20, ucb1(), 1);
    assert_eq!(hybrid.choose_move(&stuck, FastPlayer::One, 3), None);
    assert_eq!(hybrid.choose_move(&state, FastPlayer::Two, 0), None);
}

#[test]
fn search_answers_with_a_legal_move() {
    let state = game_of([3, 5, 15, 14, 6, 7, 0], [8, 10, 0, 0, 0, 0, 0], FastPlayer::One);
    for (budget, workers) in [(1usize, 1usize), (5, 1), (40, 1), (40, 4), (64, 3)] {
        let ai = MCTSAI::new_with_threads(budget, ucb1(), workers);
        for roll in 1..=4u8 {
            let moves = state.generate_moves(roll);
            let choice = ai.choose_move(&state, FastPlayer::One, roll).expect("moves exist");
            assert!(moves.contains(&choice));
        }
    }
}

#[test]
fn search_finds_the_winning_move() {
    // piece 6 wins at once; the finished pieces 1 and 2 cannot move and earn nothing
    let state = game_of([15, 15, 15, 15, 15, 15, 14], [15, 15, 15, 15, 15, 15, 5], FastPlayer::One);
    assert_eq!(state.generate_moves(1), vec![6]);
    for workers in [1usize, 4] {
        let ai = MCTSAI::new_with_threads(60, ucb1(), workers);
        assert_eq!(ai.choose_move(&state, FastPlayer::One, 1), Some(6));
        assert_eq!(ai.choose_move_sequential(&state, FastPlayer::One, 1, &[1, 6, 2]), 6);
        assert_eq!(ai.choose_move_divided(&state, FastPlayer::One, 1, &[1, 2, 6]), 6);
        assert_eq!(ai.choose_move_sequential(&state, FastPlayer::One, 1, &[1, 2]), 1);
        let stats = ai.run_simulations(&state, FastPlayer::One, 1, &[1, 6, 2], 30);
        assert_eq!((stats[0].visits + stats[1].visits + stats[2].visits), 30);
        assert_eq!(stats[0].wins, 0);
        assert_eq!(stats[1].wins, 14 * stats[1].visits as u128);
        assert_eq!(stats[2].wins, 0);
        assert!(stats[1].visits > stats[0].visits);
    }
}

#[test]
fn hybrid_uses_the_heuristic_below_its_threshold() {
    let state = game_of([3, 0, 0, 6, 14, 0, 0], [0; 7], FastPlayer::One);
    let mut hybrid = HybridAI::new_with_threads(50, Counting { calls: Cell::new(0) }, 1);
    hybrid.use_mcts_threshold = 8;
    assert_eq!(hybrid.choose_move(&state, FastPlayer::One, 1), Some(4));
    assert_eq!(hybrid.choose_move(&state, FastPlayer::One, 2), Some(3));
    assert_eq!(hybrid.mcts.policy.calls.get(), 0);
}

#[test]
fn playout_of_a_decided_game_gives_the_verdict() {
    let won = game_of([15; 7], [0; 7], FastPlayer::Two);
    assert_eq!(simulate_game_fast(won, FastPlayer::One, 10), 14);
    assert_eq!(simulate_game_fast(won, FastPlayer::Two, 10), 0);
    let lost = game_of([0; 7], [15; 7], FastPlayer::One);
    assert_eq!(simulate_game_fast(lost, FastPlayer::One, 1), 0);
    assert_eq!(simulate_game_fast(lost, FastPlayer::Two, 1), 14);
}

#[test]
fn playout_without_turns_rates_the_scores() {
    let state = game_of([15, 15, 15, 0, 0, 0, 0], [15, 0, 0, 0, 0, 0, 0], FastPlayer::One);
    assert_eq!(simulate_game_fast(state, FastPlayer::One, 0), 3 + 6);
    assert_eq!(simulate_game_fast(state, FastPlayer::Two, 0), 1 + 4);
    assert_eq!(simulate_game_fast(FastGameState::new(), FastPlayer::One, 0), 7);
    let won = game_of([15; 7], [0; 7], FastPlayer::Two);
    assert_eq!(simulate_game_fast(won, FastPlayer::One, 0), 14);
    assert_eq!(simulate_game_fast(won, FastPlayer::Two, 0), 0);
}

#[test]
fn playout_rewards_stay_within_a_win() {
    let state = game_of([3, 5, 15, 14, 6, 7, 0], [8, 10, 0, 0, 0, 0, 0], FastPlayer::One);
    for depth in [1usize, 5, 200] {
        for _ in 0..50 {
            assert!(simulate_game_fast(state, FastPlayer::One, depth) <= 14);
            assert!(simulate_move_fast(state, FastPlayer::Two, 5, 3, depth) <= 14);
        }
    }
}

#[test]
fn first_move_of_a_playout_decides_what_it_can() {
    let state = game_of([14, 15, 15, 15, 15, 15, 15], [15, 15, 15, 15, 15, 15, 5], FastPlayer::One);
    assert_eq!(simulate_move_fast(state, FastPlayer::One, 0, 1, 50), 14);
    assert_eq!(simulate_move_fast(state, FastPlayer::Two, 0, 1, 50), 0);
    assert_eq!(simulate_move_fast(state, FastPlayer::One, 0, 2, 50), 0);
    assert_eq!(simulate_move_fast(state, FastPlayer::One, 1, 1, 50), 0);
    assert_eq!(simulate_move_fast(state, FastPlayer::One, 6, 0, 50), 0);
}

fn draw(roll: u8, smart: bool, pick: usize) -> Draw {
    Draw { roll, smart, pick }
}

#[test]
fn playout_with_no_turn_rates_the_scores() {
    let state = game_of([15, 15, 15, 0, 0, 0, 0], [15, 0, 0, 0, 0, 0, 0], FastPlayer::One);
    assert_eq!(playout_with(state, FastPlayer::One, 0, &vec![draw(1, true, 0)]), 9);
    assert_eq!(playout_with(state, FastPlayer::Two, 5, &vec![]), 5);
    assert_eq!(playout_with(FastGameState::new(), FastPlayer::One, 0, &vec![]), 7);
}

#[test]
fn playout_with_rates_the_position_it_ends_in() {
    // one finishes a piece, two passes on a roll of zero: one piece home for one
    let state = game_of([12, 0, 0, 0, 0, 0, 0], [0; 7], FastPlayer::One);
    let draws = vec![draw(3, false, 0), draw(0, false, 0)];
    assert_eq!(playout_with(state, FastPlayer::One, 2, &draws), 1 + 7);
    assert_eq!(playout_with(state, FastPlayer::Two, 2, &draws), 0 + 6);
    assert_eq!(playout_with(state, FastPlayer::One, 1, &draws), 8);
    // the smart choice finishes too: finishing is rated above entering
    assert_eq!(playout_with(state, FastPlayer::One, 2, &vec![draw(3, true, 5), draw(2, true, 0)]), 8);
    // picking the second legal move enters a piece instead
    assert_eq!(playout_with(state, FastPlayer::One, 2, &vec![draw(3, false, 1), draw(2, false, 0)]), 7);
    // from the start nothing can come home in one turn
    for roll in 0..=4u8 {
        for pick in 0..9usize {
            assert_eq!(playout_with(FastGameState::new(), FastPlayer::One, 1, &vec![draw(roll, false, pick)]), 7);
            assert_eq!(playout_with(FastGameState::new(), FastPlayer::Two, 1, &vec![draw(roll, true, pick)]), 7);
        }
    }
}

#[test]
fn playout_with_ends_on_a_win() {
    let state = game_of([15, 15, 15, 15, 15, 15, 14], [15, 15, 15, 0, 0, 0, 0], FastPlayer::One);
    let draws = vec![draw(1, false, 0), draw(1, false, 0), draw(1, false, 0)];
    assert_eq!(playout_with(state, FastPlayer::One, 3, &draws), 14);
    assert_eq!(playout_with(state, FastPlayer::Two, 3, &draws), 0);
    assert_eq!(playout_with(state, FastPlayer::One, 1, &draws), 14);
    // a roll that overshoots is a pass, and the scores decide: 6 + (7 - 3)
    assert_eq!(playout_with(state, FastPlayer::One, 1, &vec![draw(2, false, 0)]), 10);
    let won = game_of([15; 7], [0; 7], FastPlayer::Two);
    assert_eq!(playout_with(won, FastPlayer::One, 4, &draws), 14);
    assert_eq!(playout_with(won, FastPlayer::Two, 4, &draws), 0);
}

#[test]
fn playout_with_counts_the_pick_round_the_list() {
    // seven pieces can move by four; a pick of nine goes once round the list and on to
    // the third of them, which enters the board
    let state = game_of([4, 0, 0, 0, 0, 0, 0], [0; 7], FastPlayer::One);
    let moves = state.generate_moves(4);
    assert_eq!(moves, vec![0, 1, 2, 3, 4, 5, 6]);
    let mut after = state;
    assert!(after.make_move(moves[9 % 7], 4).is_some());
    assert_eq!(after.get_piece_pos(FastPlayer::One, 2), 1);
    assert_eq!(playout_with(state, FastPlayer::One, 1, &vec![draw(4, false, 9)]), 7);
}

#[test]
fn smart_piece_is_the_chooser_of_the_search() {
    let state = game_of([3, 0, 0, 6, 14, 0, 0], [0; 7], FastPlayer::One);
    for roll in 1..=4u8 {
        let moves = state.generate_moves(roll);
        assert_eq!(
            smart_piece(&state, FastPlayer::One, &moves, roll),
            MCTSAI::<Ucb1>::choose_smart_piece(&state, FastPlayer::One, &moves, roll)
        );
    }
    assert_eq!(smart_piece(&state, FastPlayer::One, &[0, 1, 3, 4], 1), 4);
}

#[test]
fn short_playouts_from_the_start_are_worth_a_half() {
    for _ in 0..200 {
        assert_eq!(simulate_game_fast(FastGameState::new(), FastPlayer::One, 1), 7);
        assert_eq!(simulate_game_fast(FastGameState::new(), FastPlayer::Two, 3), 7);
        assert_eq!(simulate_move_fast(FastGameState::new(), FastPlayer::One, 4, 2, 2), 7);
    }
}

#[test]
fn level_rewards_leave_the_first_move_best() {
    let state = FastGameState::new();
    let moves = [0u8, 1, 2, 3, 4, 5, 6];
    for _ in 0..20 {
        let mut ai = MCTSAI::new_with_threads(7, ucb1(), 1);
        ai.max_simulation_depth = 1;
        assert_eq!(ai.choose_move_sequential(&state, FastPlayer::One, 1, &moves), 0);
        assert_eq!(ai.choose_move(&state, FastPlayer::One, 1), Some(0));
        let stats = ai.run_simulations(&state, FastPlayer::One, 1, &moves, 7);
        assert!(stats.iter().all(|entry| entry.visits == 1 && entry.wins == 7));
        let mut wide = MCTSAI::new_with_threads(20, ucb1(), 2);
        wide.max_simulation_depth = 1;
        assert!(wide.uses_workers());
        assert_eq!(wide.choose_move_divided(&state, FastPlayer::One, 1, &moves), 0);
        assert_eq!(wide.choose_move(&state, FastPlayer::One, 1), Some(0));
    }
}

#[test]
fn hybrid_searches_from_its_threshold_on() {
    let mut hybrid = HybridAI::new_with_threads(10, ucb1(), 1);
    assert!(!hybrid.wants_search(0));
    assert!(!hybrid.wants_search(1));
    assert!(hybrid.wants_search(2));
    assert!(hybrid.wants_search(7));
    hybrid.use_mcts_threshold = 5;
    assert!(!hybrid.wants_search(4));
    assert!(hybrid.wants_search(5));
    hybrid.use_mcts_threshold = 0;
    assert!(!hybrid.wants_search(1));
    assert!(hybrid.wants_search(2));
}
