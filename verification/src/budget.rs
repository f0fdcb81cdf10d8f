//! Dividing the playouts of a search among workers.

use vstd::prelude::*;

verus! {

/// The playouts that worker `worker_id` of `num_threads` runs, of
/// `simulations` in all: an even share, and one more for each of the first
/// workers until the remainder is used up.
pub open spec fn share_of(simulations: int, num_threads: int, worker_id: int) -> int {
    simulations / num_threads + if worker_id < simulations % num_threads {
        1int
    } else {
        0int
    }
}

/// The playouts that workers `0..upto` run together.
pub open spec fn shares_below(simulations: int, num_threads: int, upto: int) -> int
    decreases upto,
{
    if upto <= 0 {
        0
    } else {
        shares_below(simulations, num_threads, upto - 1) + share_of(
            simulations,
            num_threads,
            upto - 1,
        )
    }
}

/// The shares use up the budget exactly: the first workers together never
/// run more than the budget, and all workers together run all of it.
pub proof fn lemma_shares_add_up(simulations: int, num_threads: int, upto: int)
    requires
        0 <= simulations,
        0 < num_threads,
        0 <= upto <= num_threads,
    ensures
        0 <= shares_below(simulations, num_threads, upto) <= simulations,
        shares_below(simulations, num_threads, num_threads) == simulations,
{
    lemma_shares_closed_form(simulations, num_threads, upto);
    lemma_shares_closed_form(simulations, num_threads, num_threads);
    let q = simulations / num_threads;
    let r = simulations % num_threads;
    vstd::arithmetic::div_mod::lemma_fundamental_div_mod(simulations, num_threads);
    assert(0 <= q) by (nonlinear_arith)
        requires
            simulations == num_threads * q + r,
            0 <= r < num_threads,
            0 <= simulations,
    ;
    assert(0 <= upto * q <= num_threads * q) by (nonlinear_arith)
        requires
            0 <= upto <= num_threads,
            0 <= q,
    ;
}

/// The first `upto` workers run `upto` even shares and one playout more for
/// each of them that is among the first `simulations % num_threads`.
proof fn lemma_shares_closed_form(simulations: int, num_threads: int, upto: int)
    requires
        0 < num_threads,
        0 <= upto,
    ensures
        shares_below(simulations, num_threads, upto) == upto * (simulations / num_threads) + if upto
            < simulations % num_threads {
            upto
        } else {
            simulations % num_threads
        },
    decreases upto,
{
    let q = simulations / num_threads;
    if upto > 0 {
        lemma_shares_closed_form(simulations, num_threads, upto - 1);
        assert(upto * q == (upto - 1) * q + q) by (nonlinear_arith);
    } else {
        assert(0 * q == 0);
    }
}

/// The playouts that worker `worker_id` runs: see `share_of`.
pub fn worker_share(simulations: usize, num_threads: usize, worker_id: usize) -> (share: usize)
    requires
        0 < num_threads,
    ensures
        share as int == share_of(simulations as int, num_threads as int, worker_id as int),
{
    let per_thread = simulations / num_threads;
    let extra = simulations % num_threads;
    if worker_id < extra {
        proof {
            vstd::arithmetic::div_mod::lemma_fundamental_div_mod(
                simulations as int,
                num_threads as int,
            );
            assert(per_thread < simulations) by (nonlinear_arith)
                requires
                    simulations == num_threads * per_thread + extra,
                    extra > 0,
                    num_threads > 0,
                    per_thread >= 0,
            ;
        }
        per_thread + 1
    } else {
        per_thread
    }
}

} // verus!
