use option_pricing::asset_price_sim::{path_seed, simulate_paths};
use option_pricing::options::{ExerciseType, PayoffType};

#[test]
fn path_seed_is_path_times_42() {
    assert_eq!(path_seed(0), 0);
    assert_eq!(path_seed(1), 42);
    assert_eq!(path_seed(3), 126);
    assert_eq!(path_seed(u16::MAX), 65535u64 * 42);
}

#[test]
fn distinct_paths_get_distinct_seeds() {
    let mut seeds: Vec<u64> = (0..1000u16).map(path_seed).collect();
    seeds.sort();
    seeds.dedup();
    assert_eq!(seeds.len(), 1000);
}

#[test]
fn one_path_per_simulation() {
    let prices = simulate_paths(100u64, 3, 4, |prev: u64, _p: usize, _s: usize| prev + 1);
    assert_eq!(prices.len(), 3);
    for row in &prices {
        assert_eq!(row.len(), 5);
        assert_eq!(row[0], 100);
    }
}

#[test]
fn each_step_grows_from_the_same_paths_previous_price() {
    let prices = simulate_paths(10u64, 3, 3, |prev: u64, p: usize, s: usize| {
        prev * 10 + (p as u64) * 100 + s as u64
    });
    assert_eq!(prices[0], vec![10, 100, 1001, 10012]);
    assert_eq!(prices[1], vec![10, 200, 2101, 21112]);
    assert_eq!(prices[2], vec![10, 300, 3201, 32212]);
}

#[test]
fn zero_simulations_give_no_paths() {
    let empty = simulate_paths(5.0f64, 0, 10, |b: f64, _p: usize, _s: usize| b * 2.0);
    assert!(empty.is_empty());
    let flat = simulate_paths(5.0f64, 2, 0, |b: f64, _p: usize, _s: usize| b * 2.0);
    assert_eq!(flat, vec![vec![5.0], vec![5.0]]);
}

#[test]
fn float_growth_factors() {
    let factors = vec![vec![1.5f64, 2.0], vec![0.5, 4.0]];
    let prices = simulate_paths(2.0f64, 2, 2, |b: f64, p: usize, s: usize| b * factors[p][s]);
    assert_eq!(prices[0], vec![2.0, 3.0, 6.0]);
    assert_eq!(prices[1], vec![2.0, 1.0, 4.0]);
}

#[test]
fn equal_inputs_give_equal_tables() {
    let step = |prev: u64, p: usize, s: usize| prev.wrapping_mul(31).wrapping_add((p * 7 + s) as u64);
    let a = simulate_paths(102u64, 20, 50, step);
    let b = simulate_paths(102u64, 20, 50, step);
    assert_eq!(a, b);
}

#[test]
fn option_kinds() {
    let e = ExerciseType::European;
    assert_eq!(e, e.clone());
    assert_ne!(ExerciseType::American, ExerciseType::Bermudan);
    assert_ne!(PayoffType::Buy, PayoffType::Sell);
    assert_eq!(format!("{:?}", PayoffType::Buy), "Buy");
}
