use royal_ur::chance::dice_total;
use royal_ur::optimized_game::FastGameState;

#[test]
fn total_counts_the_marked_dice() {
    for bits in 0..16u8 {
        let flips = [bits & 1 != 0, bits & 2 != 0, bits & 4 != 0, bits & 8 != 0];
        assert_eq!(dice_total(flips) as u32, bits.count_ones());
    }
}

#[test]
fn rolls_follow_four_fair_coins() {
    let trials = 40_000usize;
    let mut seen = [0usize; 5];
    for _ in 0..trials {
        let roll = FastGameState::roll_dice();
        assert!(roll <= 4);
        seen[roll as usize] += 1;
    }
    let sum: usize = seen.iter().enumerate().map(|(roll, count)| roll * count).sum();
    let mean = sum as f64 / trials as f64;
    assert!((mean - 2.0).abs() < 0.05, "mean {mean}");
    let expected = [1.0 / 16.0, 4.0 / 16.0, 6.0 / 16.0, 4.0 / 16.0, 1.0 / 16.0];
    for roll in 0..5 {
        let share = seen[roll] as f64 / trials as f64;
        assert!((share - expected[roll]).abs() < 0.02, "roll {roll}: {share}");
    }
}
