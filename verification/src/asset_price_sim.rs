//! Asset price paths of the geometric Brownian motion.
//!
//! Every simulation produces one path of `time_steps + 1` prices: the current
//! asset price followed by one price per time step, each grown from the price
//! of the same path one step before. The growth itself (a floating-point
//! computation on a random draw) is supplied by the caller; every path draws
//! from a generator of its own, seeded from the path's number.
use vstd::prelude::*;

verus! {

/// The seed of the random number generator of path `path`.
pub open spec fn spec_path_seed(path: int) -> int {
    path * 42
}

/// The seed of the random number generator that drives path `path`.
pub fn path_seed(path: u16) -> (seed: u64)
    ensures
        seed == spec_path_seed(path as int),
        seed == path * 42,
{
    (path as u64) * 42
}

/// Path 0 is seeded with 0, and each next path's seed is 42 more than the one
/// before it.
pub proof fn lemma_path_seed_steps(p: int)
    requires
        p >= 0,
    ensures
        spec_path_seed(0) == 0,
        spec_path_seed(p + 1) == spec_path_seed(p) + 42,
{
}

/// The seed of every path is the path number times 42.
pub proof fn lemma_path_seed_is_times_42(p: int)
    requires
        p >= 0,
    ensures
        spec_path_seed(p) == 42 * p,
    decreases p,
{
    if p > 0 {
        lemma_path_seed_is_times_42(p - 1);
        lemma_path_seed_steps(p - 1);
    } else {
        lemma_path_seed_steps(0);
    }
}

/// Distinct paths are driven by generators with distinct seeds.
pub proof fn lemma_path_seeds_distinct(p1: u16, p2: u16)
    requires
        p1 != p2,
    ensures
        spec_path_seed(p1 as int) != spec_path_seed(p2 as int),
{
}

/// Whether `table` is a table of `sims` paths of `steps` steps that start at
/// `asset_price`, where the price at step `s + 1` of path `p` is a result of
/// `step_price` on the same path's price at step `s`, `p` and `s`.
pub open spec fn is_path_table<T, F: Fn(T, usize, usize) -> T>(
    table: Seq<Vec<T>>,
    asset_price: T,
    sims: nat,
    steps: nat,
    step_price: F,
) -> bool {
    &&& table.len() == sims
    &&& forall|p: int|
        0 <= p < sims ==> {
            &&& (#[trigger] table[p])@.len() == steps + 1
            &&& table[p]@[0] == asset_price
        }
    &&& forall|p: int, s: int|
        0 <= p < sims && 0 <= s < steps ==> call_ensures(
            step_price,
            (table[p]@[s], p as usize, s as usize),
            #[trigger] table[p]@[s + 1],
        )
}

/// Whether `step_price` gives at most one result for each base price, path
/// and step.
pub open spec fn is_deterministic<T, F: Fn(T, usize, usize) -> T>(step_price: F) -> bool {
    forall|b: T, p: usize, s: usize, r1: T, r2: T|
        call_ensures(step_price, (b, p, s), r1) && call_ensures(step_price, (b, p, s), r2) ==> r1
            == r2
}

proof fn lemma_rows_agree<T, F: Fn(T, usize, usize) -> T>(
    t1: Seq<Vec<T>>,
    t2: Seq<Vec<T>>,
    asset_price: T,
    sims: nat,
    steps: nat,
    step_price: F,
    p: int,
    k: int,
)
    requires
        is_path_table(t1, asset_price, sims, steps, step_price),
        is_path_table(t2, asset_price, sims, steps, step_price),
        is_deterministic(step_price),
        0 <= p < sims,
        0 <= k <= steps,
    ensures
        forall|j: int| 0 <= j <= k ==> t1[p]@[j] == t2[p]@[j],
    decreases k,
{
    assert(t1[p]@.len() == steps + 1 && t2[p]@.len() == steps + 1);
    if k > 0 {
        lemma_rows_agree(t1, t2, asset_price, sims, steps, step_price, p, k - 1);
        let s = k - 1;
        assert(call_ensures(step_price, (t1[p]@[s], p as usize, s as usize), t1[p]@[s + 1]));
        assert(call_ensures(step_price, (t2[p]@[s], p as usize, s as usize), t2[p]@[s + 1]));
    }
}

/// With a step function that gives one result per input, the path table is
/// fixed by the asset price, the number of paths and the number of steps: two
/// tables built from the same inputs hold the same prices.
pub proof fn lemma_path_table_is_determined<T, F: Fn(T, usize, usize) -> T>(
    t1: Seq<Vec<T>>,
    t2: Seq<Vec<T>>,
    asset_price: T,
    sims: nat,
    steps: nat,
    step_price: F,
)
    requires
        is_path_table(t1, asset_price, sims, steps, step_price),
        is_path_table(t2, asset_price, sims, steps, step_price),
        is_deterministic(step_price),
    ensures
        t1.len() == t2.len(),
        forall|p: int| 0 <= p < t1.len() ==> (#[trigger] t1[p])@ == t2[p]@,
{
    assert forall|p: int| 0 <= p < t1.len() implies (#[trigger] t1[p])@ == t2[p]@ by {
        lemma_rows_agree(t1, t2, asset_price, sims, steps, step_price, p, steps as int);
        assert(t1[p]@ =~= t2[p]@);
    }
}

/// Builds `number_of_sims` paths of `time_steps` steps each, starting from
/// `asset_price`. `step_price(price, path, step)` gives the price at step
/// `step + 1` of path `path` from its price at step `step`.
pub fn simulate_paths<T: Copy, F: Fn(T, usize, usize) -> T>(
    asset_price: T,
    number_of_sims: u16,
    time_steps: u16,
    step_price: F,
) -> (prices: Vec<Vec<T>>)
    requires
        forall|b: T, p: usize, s: usize|
            p < number_of_sims && s < time_steps ==> call_requires(step_price, (b, p, s)),
    ensures
        is_path_table(prices@, asset_price, number_of_sims as nat, time_steps as nat, step_price),
{
    let sims = number_of_sims as usize;
    let steps = time_steps as usize;
    let mut prices: Vec<Vec<T>> = Vec::with_capacity(sims);
    let mut path: usize = 0;
    while path < sims
        invariant
            sims == number_of_sims,
            steps == time_steps,
            path <= sims,
            forall|b: T, p: usize, s: usize|
                p < number_of_sims && s < time_steps ==> call_requires(step_price, (b, p, s)),
            is_path_table(prices@, asset_price, path as nat, time_steps as nat, step_price),
        decreases sims - path,
    {
        let mut row: Vec<T> = Vec::with_capacity(steps + 1);
        row.push(asset_price);
        let mut step: usize = 0;
        while step < steps
            invariant
                sims == number_of_sims,
                steps == time_steps,
                path < sims,
                step <= steps,
                forall|b: T, p: usize, s: usize|
                    p < number_of_sims && s < time_steps ==> call_requires(step_price, (b, p, s)),
                row@.len() == step + 1,
                row@[0] == asset_price,
                forall|s: int|
                    0 <= s < step ==> call_ensures(
                        step_price,
                        (row@[s], path, s as usize),
                        #[trigger] row@[s + 1],
                    ),
            decreases steps - step,
        {
            let price = step_price(row[step], path, step);
            row.push(price);
            step = step + 1;
        }
        let ghost old_prices = prices@;
        prices.push(row);
        proof {
            assert forall|p: int|
                0 <= p < path + 1 implies {
                    &&& (#[trigger] prices@[p])@.len() == time_steps + 1
                    &&& prices@[p]@[0] == asset_price
                } by {
                if p < path {
                    assert(prices@[p] == old_prices[p]);
                }
            }
            assert forall|p: int, s: int|
                0 <= p < path + 1 && 0 <= s < time_steps implies call_ensures(
                    step_price,
                    (prices@[p]@[s], p as usize, s as usize),
                    #[trigger] prices@[p]@[s + 1],
                ) by {
                if p < path {
                    assert(prices@[p] == old_prices[p]);
                }
            }
        }
        path = path + 1;
    }
    prices
}

} // verus!
