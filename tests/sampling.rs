use lemire_range::{gen_range, rejection_threshold, sample_from_draws, wide_product, Recorded};
use rand::rngs::mock::StepRng;
use rand::rngs::StdRng;
use rand::{Rng, SeedableRng};

#[test]
fn wide_product_splits_the_128_bit_product() {
    assert_eq!(wide_product(1, 12345), (0, 12345));
    assert_eq!(wide_product(10, u64::MAX), (9, u64::MAX - 9));
    assert_eq!(wide_product(u64::MAX, u64::MAX), (u64::MAX - 1, 1));
    assert_eq!(wide_product(1 << 32, 1 << 40), (1 << 8, 0));
    assert_eq!(wide_product(7, 0), (0, 0));
}

#[test]
fn threshold_is_two_to_the_64_mod_size() {
    assert_eq!(rejection_threshold(1), 0);
    assert_eq!(rejection_threshold(3), 1);
    assert_eq!(rejection_threshold(10), 6);
    assert_eq!(rejection_threshold(1 << 63), 0);
    assert_eq!(rejection_threshold((1 << 63) + 1), (1 << 63) - 1);
    assert_eq!(rejection_threshold(u64::MAX), 1);
}

#[test]
fn low_fraction_draw_is_redrawn_once() {
    // For [0, 9] the threshold is 6; the draw 0 has fraction 0 and is rejected.
    assert_eq!(sample_from_draws(0, 9, &[0, u64::MAX]), Some((9, 2)));
    // (2^64 + 4) / 10 has fraction 4, below the threshold as well.
    let x = 1844674407370955162u64;
    assert_eq!(wide_product(10, x).1, 4);
    assert_eq!(sample_from_draws(0, 9, &[x, 1 << 60, 0]), Some((0, 2)));
}

#[test]
fn fraction_at_threshold_is_kept() {
    // 10 * x == 4 * 2^64 + 6: the fraction equals the threshold of [0, 9].
    let x = 7378697629483820647u64;
    assert_eq!(wide_product(10, x), (4, 6));
    assert_eq!(sample_from_draws(100, 109, &[x]), Some((104, 1)));
    assert_eq!(sample_from_draws(100, 109, &[x - 1, x]), Some((103, 1)));
    assert_eq!(sample_from_draws(100, 109, &[0, x]), Some((104, 2)));
}

#[test]
fn rejected_draws_only_give_none() {
    assert_eq!(sample_from_draws(0, 9, &[0, 0, 0]), None);
    assert_eq!(sample_from_draws(3, 4, &[]), None);
}

#[test]
fn single_point_interval_uses_one_draw() {
    assert_eq!(sample_from_draws(7, 7, &[0]), Some((7, 1)));
    assert_eq!(sample_from_draws(7, 7, &[u64::MAX, 5]), Some((7, 1)));
    let mut rng = Recorded::new(StdRng::from_entropy());
    for _ in 0..1000 {
        assert_eq!(gen_range(&mut rng, 42, 42), 42);
    }
    assert_eq!(gen_range(&mut rng, u64::MAX, u64::MAX), u64::MAX);
    // Exactly one draw each: the stepping source moves on by one.
    let mut step = Recorded::new(StepRng::new(0, 1));
    assert_eq!(gen_range(&mut step, 9, 9), 9);
    assert_eq!(gen_range(&mut step, 9, 9), 9);
    assert_eq!(step.generator().clone().gen::<u64>(), 2);
}

#[test]
fn power_of_two_size_never_rejects() {
    // Size 16: the draw 0 has fraction 0 yet is kept, since the threshold is 0.
    assert_eq!(rejection_threshold(16), 0);
    assert_eq!(sample_from_draws(0, 15, &[0]), Some((0, 1)));
    assert_eq!(sample_from_draws(5, 5 + (1 << 40) - 1, &[3, 9]), Some((5, 1)));
    assert_eq!(sample_from_draws(0, (1 << 63) - 1, &[u64::MAX]), Some(((1 << 63) - 1, 1)));
}

#[test]
fn replayed_draws_give_identical_results() {
    let draws = [0u64, 1844674407370955162, 1 << 62, 77];
    let first = sample_from_draws(0, 9, &draws);
    let second = sample_from_draws(0, 9, &draws);
    assert_eq!(first, second);
    assert_eq!(first, Some((2, 3)));
    // Draws after the accepted one are never read.
    assert_eq!(sample_from_draws(0, 9, &draws[..3]), first);

    let mut a = Recorded::new(StdRng::seed_from_u64(2024));
    let mut b = Recorded::new(StdRng::seed_from_u64(2024));
    for _ in 0..1000 {
        assert_eq!(gen_range(&mut a, 10, 1_000_010), gen_range(&mut b, 10, 1_000_010));
    }
}

#[test]
fn gen_range_matches_the_draw_sequence_it_consumes() {
    let mut rng = Recorded::new(StdRng::seed_from_u64(7));
    let intervals = [(0u64, 9u64), (5, 6), (0, u64::MAX - 1), (1, u64::MAX), (1000, 1 << 62)];
    for &(lo, hi) in intervals.iter() {
        for _ in 0..200 {
            let mut replay = rng.generator().clone();
            let draws: Vec<u64> = (0..64).map(|_| replay.gen::<u64>()).collect();
            let v = gen_range(&mut rng, lo, hi);
            let (expected, used) = sample_from_draws(lo, hi, &draws).unwrap();
            assert_eq!(v, expected);
            // The source advanced by exactly the draws that were used.
            let mut after = draws[used..].iter();
            assert_eq!(rng.generator().clone().gen::<u64>(), *after.next().unwrap());
        }
    }
}

#[test]
fn gen_range_stays_in_bounds() {
    let mut rng = Recorded::new(StdRng::from_entropy());
    let intervals = [(0u64, 0u64), (0, 1), (3, 9), (0, u64::MAX - 1), (1, u64::MAX), (u64::MAX - 5, u64::MAX)];
    for &(lo, hi) in intervals.iter() {
        for _ in 0..10000 {
            let v = gen_range(&mut rng, lo, hi);
            assert!(lo <= v && v <= hi);
        }
    }
    let mut seen = [false; 7];
    for _ in 0..10000 {
        seen[(gen_range(&mut rng, 3, 9) - 3) as usize] = true;
    }
    assert!(seen.iter().all(|&b| b));
}

#[test]
fn each_offset_gets_an_equal_block_of_draws() {
    // For size 10, 2^64 / 10 draws are accepted per offset: offset 0 takes
    // the draws 1 ..= q, the draw q + 1 is rejected, and offset 1 starts at q + 2.
    let q = u64::MAX / 10;
    assert_eq!(sample_from_draws(0, 9, &[0]), None);
    assert_eq!(sample_from_draws(0, 9, &[1]), Some((0, 1)));
    assert_eq!(sample_from_draws(0, 9, &[q]), Some((0, 1)));
    assert_eq!(sample_from_draws(0, 9, &[q + 1]), None);
    assert_eq!(sample_from_draws(0, 9, &[q + 2]), Some((1, 1)));
    assert_eq!(sample_from_draws(0, 9, &[2 * q + 1]), Some((1, 1)));
}

#[test]
fn gen_range_redraws_a_low_fraction_once() {
    // The stepping source yields 0, then u64::MAX, then u64::MAX - 1, ...
    // For [0, 9] the draw 0 is rejected and u64::MAX gives 9.
    let mut rng = Recorded::new(StepRng::new(0, u64::MAX));
    assert_eq!(gen_range(&mut rng, 0, 9), 9);
    assert_eq!(rng.generator().clone().gen::<u64>(), u64::MAX - 1);
    // Draws 0, 1: the draw 1 is kept and gives 0.
    let mut rng = Recorded::new(StepRng::new(0, 1));
    assert_eq!(gen_range(&mut rng, 0, 9), 0);
    assert_eq!(rng.generator().clone().gen::<u64>(), 2);
}

#[test]
fn gen_range_power_of_two_takes_one_draw() {
    // Size 16 with the draw 0: kept although its fraction is 0.
    let mut rng = Recorded::new(StepRng::new(0, 1 << 60));
    assert_eq!(gen_range(&mut rng, 100, 115), 100);
    assert_eq!(rng.generator().clone().gen::<u64>(), 1 << 60);
    // Next draw 2^60: 16 * 2^60 = 2^64, offset 1.
    assert_eq!(gen_range(&mut rng, 100, 115), 101);
}
