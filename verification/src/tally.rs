//! The table that a search keeps: for each candidate move, how often it was
//! tried and what its playouts earned.

use vstd::prelude::*;
use crate::choice::first_maximum;
use crate::choice::lemma_first_maximum;
use crate::choice::lemma_first_maximum_push;

verus! {

/// What the search has seen of one candidate move.
#[derive(Clone, Copy, Debug)]
pub struct MoveStats {
    /// How many playouts started with this move.
    pub visits: usize,
    /// The rewards of those playouts, summed, in fourteenths of a win.
    pub wins: u128,
}

impl MoveStats {
    /// No playout is rewarded more than a full win.
    pub open spec fn wf(self) -> bool {
        self.wins <= 14 * self.visits
    }

    /// The summed reward, as it enters a comparison of means: nothing for a
    /// move never tried.
    pub open spec fn numerator(self) -> int {
        if self.visits > 0 {
            self.wins as int
        } else {
            0
        }
    }

    /// The number of playouts, as it enters a comparison of means: one for a
    /// move never tried, whose mean counts as zero.
    pub open spec fn denominator(self) -> int {
        if self.visits > 0 {
            self.visits as int
        } else {
            1
        }
    }

    /// Whether the mean reward of `self` is higher than that of `other`.
    pub open spec fn mean_exceeds(self, other: MoveStats) -> bool {
        self.numerator() * other.denominator() > other.numerator() * self.denominator()
    }

    /// A move not yet tried.
    pub fn new() -> (stats: MoveStats)
        ensures
            stats.visits == 0,
            stats.wins == 0,
    {
        MoveStats { visits: 0, wins: 0 }
    }

    /// Adds what another table saw of the same move.
    pub fn add(&mut self, other: &MoveStats)
        requires
            old(self).wf(),
            other.wf(),
            old(self).visits + other.visits <= usize::MAX,
        ensures
            final(self).visits == old(self).visits + other.visits,
            final(self).wins == old(self).wins + other.wins,
            final(self).wf(),
    {
        self.visits += other.visits;
        self.wins += other.wins;
    }

    /// Counts one more playout and its reward.
    pub fn record(&mut self, reward: u8)
        requires
            old(self).wf(),
            old(self).visits < usize::MAX,
            reward <= 14,
        ensures
            final(self).visits == old(self).visits + 1,
            final(self).wins == old(self).wins + reward,
            final(self).wf(),
    {
        self.visits += 1;
        self.wins += reward as u128;
    }

    /// Whether the mean reward of `self` is higher than that of `other`.
    pub fn has_higher_mean(&self, other: &MoveStats) -> (higher: bool)
        requires
            self.wf(),
            other.wf(),
        ensures
            higher == self.mean_exceeds(*other),
    {
        if self.visits == 0 {
            return false;
        }
        if other.visits == 0 {
            return self.wins > 0;
        }
        let n = self.visits as u128;
        let m = other.visits as u128;
        let q = self.wins / n;
        let r = self.wins % n;
        let p = other.wins / m;
        let s = other.wins % m;
        proof {
            lemma_compare_fractions(
                self.wins as int,
                n as int,
                other.wins as int,
                m as int,
            );
            assert(r * m <= n * m) by (nonlinear_arith)
                requires
                    0 <= r < n,
                    0 < m,
            ;
            assert(s * n <= m * n) by (nonlinear_arith)
                requires
                    0 <= s < m,
                    0 < n,
            ;
            assert(n * m <= 0xFFFF_FFFF_FFFF_FFFF * 0xFFFF_FFFF_FFFF_FFFF) by (nonlinear_arith)
                requires
                    0 < n <= 0xFFFF_FFFF_FFFF_FFFF,
                    0 < m <= 0xFFFF_FFFF_FFFF_FFFF,
            ;
        }
        if q != p {
            q > p
        } else {
            r * m > s * n
        }
    }
}

/// Fractions compare by their whole parts first and by their remainders,
/// cross-multiplied, second.
proof fn lemma_compare_fractions(a: int, n: int, b: int, m: int)
    requires
        0 <= a,
        0 <= b,
        0 < n,
        0 < m,
    ensures
        a * m > b * n <==> (a / n > b / m || (a / n == b / m && (a % n) * m > (b % m) * n)),
{
    let q = a / n;
    let r = a % n;
    let p = b / m;
    let s = b % m;
    assert(a == q * n + r && 0 <= r < n) by {
        vstd::arithmetic::div_mod::lemma_fundamental_div_mod(a, n);
    }
    assert(b == p * m + s && 0 <= s < m) by {
        vstd::arithmetic::div_mod::lemma_fundamental_div_mod(b, m);
    }
    assert(a * m == q * (n * m) + r * m) by (nonlinear_arith)
        requires
            a == q * n + r,
    ;
    assert(b * n == p * (n * m) + s * n) by (nonlinear_arith)
        requires
            b == p * m + s,
    ;
    assert(0 <= r * m < n * m) by (nonlinear_arith)
        requires
            0 <= r < n,
            0 < m,
    ;
    assert(0 <= s * n < n * m) by (nonlinear_arith)
        requires
            0 <= s < m,
            0 < n,
    ;
    let nm = n * m;
    if q > p {
        assert(q * nm >= p * nm + nm) by (nonlinear_arith)
            requires
                q >= p + 1,
                nm > 0,
        ;
    } else if q < p {
        assert(p * nm >= q * nm + nm) by (nonlinear_arith)
            requires
                p >= q + 1,
                nm > 0,
        ;
    }
}

/// The playouts that a table has counted, over all its moves.
pub open spec fn total_visits(stats: Seq<MoveStats>) -> int
    decreases stats.len(),
{
    if stats.len() == 0 {
        0
    } else {
        total_visits(stats.drop_last()) + stats.last().visits
    }
}

/// The index of the move with the highest mean reward; of several equally
/// high, the first.
pub open spec fn best_index(stats: Seq<MoveStats>) -> int
    decreases stats.len(),
{
    if stats.len() <= 1 {
        0
    } else {
        let earlier = best_index(stats.drop_last());
        if stats.last().mean_exceeds(stats[earlier]) {
            stats.len() - 1
        } else {
            earlier
        }
    }
}

/// The first move in the table that no playout has tried yet.
pub open spec fn first_unvisited(stats: Seq<MoveStats>) -> Option<int>
    decreases stats.len(),
{
    if stats.len() == 0 {
        None
    } else {
        match first_unvisited(stats.drop_last()) {
            Some(k) => Some(k),
            None => if stats.last().visits == 0 {
                Some(stats.len() - 1)
            } else {
                None
            },
        }
    }
}

/// The keys as integers.
pub open spec fn key_values(keys: Seq<u64>) -> Seq<int> {
    Seq::new(keys.len(), |i: int| keys[i] as int)
}

/// The move to try next: the first that has not been tried; when all have
/// been, the one with the highest key, and of several with that key the
/// first.
pub open spec fn next_to_try(stats: Seq<MoveStats>, keys: Seq<u64>) -> int {
    match first_unvisited(stats) {
        Some(k) => k,
        None => first_maximum(key_values(keys)),
    }
}

/// Every move has been tried at most as often as all moves together.
pub proof fn lemma_visits_within_total(stats: Seq<MoveStats>, i: int)
    requires
        0 <= i < stats.len(),
    ensures
        stats[i].visits <= total_visits(stats),
        0 <= total_visits(stats),
    decreases stats.len(),
{
    lemma_total_nonnegative(stats.drop_last());
    if i < stats.len() - 1 {
        lemma_visits_within_total(stats.drop_last(), i);
    }
}

/// A count of playouts is never negative.
proof fn lemma_total_nonnegative(stats: Seq<MoveStats>)
    ensures
        0 <= total_visits(stats),
    decreases stats.len(),
{
    if stats.len() > 0 {
        lemma_total_nonnegative(stats.drop_last());
    }
}

/// Replacing one entry changes the total by the change in its visits.
pub proof fn lemma_total_after_update(stats: Seq<MoveStats>, i: int, entry: MoveStats)
    requires
        0 <= i < stats.len(),
    ensures
        total_visits(stats.update(i, entry)) == total_visits(stats) + entry.visits
            - stats[i].visits,
    decreases stats.len(),
{
    let changed = stats.update(i, entry);
    if i == stats.len() - 1 {
        assert(changed.drop_last() =~= stats.drop_last());
    } else {
        assert(changed.drop_last() =~= stats.drop_last().update(i, entry));
        lemma_total_after_update(stats.drop_last(), i, entry);
    }
}

/// A table of moves never tried has counted nothing.
pub proof fn lemma_total_of_fresh(stats: Seq<MoveStats>)
    requires
        forall|i: int| 0 <= i < stats.len() ==> (#[trigger] stats[i]).visits == 0,
    ensures
        total_visits(stats) == 0,
    decreases stats.len(),
{
    if stats.len() > 0 {
        lemma_total_of_fresh(stats.drop_last());
    }
}

/// The total of two tables summed entry by entry is the sum of their totals.
pub proof fn lemma_total_of_sum(a: Seq<MoveStats>, b: Seq<MoveStats>, sum: Seq<MoveStats>)
    requires
        a.len() == b.len(),
        sum.len() == a.len(),
        forall|i: int| 0 <= i < a.len() ==> (#[trigger] sum[i]).visits == a[i].visits + b[i].visits,
    ensures
        total_visits(sum) == total_visits(a) + total_visits(b),
    decreases a.len(),
{
    if a.len() > 0 {
        lemma_total_of_sum(a.drop_last(), b.drop_last(), sum.drop_last());
    }
}

/// `first_unvisited` finds the lowest index of a move never tried, and finds
/// none only when every move has been tried.
pub proof fn lemma_first_unvisited(stats: Seq<MoveStats>)
    ensures
        match first_unvisited(stats) {
            Some(k) => {
                &&& 0 <= k < stats.len()
                &&& stats[k].visits == 0
                &&& forall|j: int| 0 <= j < k ==> (#[trigger] stats[j]).visits > 0
            },
            None => forall|j: int| 0 <= j < stats.len() ==> (#[trigger] stats[j]).visits > 0,
        },
    decreases stats.len(),
{
    if stats.len() > 0 {
        lemma_first_unvisited(stats.drop_last());
        match first_unvisited(stats.drop_last()) {
            Some(k) => {
                assert(stats.drop_last()[k] == stats[k]);
                assert forall|j: int| 0 <= j < k implies (#[trigger] stats[j]).visits > 0 by {
                    assert(stats.drop_last()[j] == stats[j]);
                }
            },
            None => {
                assert forall|j: int| 0 <= j < stats.len() - 1 implies (#[trigger] stats[j]).visits
                    > 0 by {
                    assert(stats.drop_last()[j] == stats[j]);
                }
            },
        }
    }
}

/// `best_index` names a move whose mean reward none exceeds and which
/// exceeds every earlier one.
pub proof fn lemma_best_index(stats: Seq<MoveStats>)
    requires
        stats.len() > 0,
    ensures
        0 <= best_index(stats) < stats.len(),
        forall|j: int|
            0 <= j < stats.len() ==> !(#[trigger] stats[j]).mean_exceeds(stats[best_index(stats)]),
        forall|j: int|
            0 <= j < best_index(stats) ==> stats[best_index(stats)].mean_exceeds(
                #[trigger] stats[j],
            ),
    decreases stats.len(),
{
    if stats.len() > 1 {
        let shorter = stats.drop_last();
        lemma_best_index(shorter);
        let earlier = best_index(shorter);
        let best = best_index(stats);
        assert(shorter[earlier] == stats[earlier]);
        assert forall|j: int| 0 <= j < stats.len() implies !(#[trigger] stats[j]).mean_exceeds(
            stats[best],
        ) by {
            if j < stats.len() - 1 {
                assert(shorter[j] == stats[j]);
                if best != earlier {
                    lemma_mean_order(stats[j], stats[earlier], stats[best]);
                }
            }
        }
        assert forall|j: int| 0 <= j < best implies stats[best].mean_exceeds(
            #[trigger] stats[j],
        ) by {
            assert(shorter[j] == stats[j]);
            if best != earlier {
                lemma_mean_order(stats[j], stats[earlier], stats[best]);
            }
        }
    }
}

/// Means are ordered: what does not exceed a lower mean does not exceed a
/// higher one, and what exceeds the higher of two exceeds the lower.
proof fn lemma_mean_order(low: MoveStats, mid: MoveStats, high: MoveStats)
    requires
        !low.mean_exceeds(mid),
        high.mean_exceeds(mid),
    ensures
        high.mean_exceeds(low),
        !low.mean_exceeds(high),
{
    let (a, n) = (low.numerator(), low.denominator());
    let (b, m) = (mid.numerator(), mid.denominator());
    let (c, k) = (high.numerator(), high.denominator());
    assert(c * n > a * k) by (nonlinear_arith)
        requires
            a * m <= b * n,
            c * m > b * k,
            n > 0,
            m > 0,
            k > 0,
            a >= 0,
            b >= 0,
            c >= 0,
    ;
}

/// The playouts that `stats` has counted, over all its moves.
pub fn count_visits(stats: &Vec<MoveStats>) -> (total: usize)
    requires
        total_visits(stats@) <= usize::MAX,
    ensures
        total as int == total_visits(stats@),
{
    let mut total: usize = 0;
    let mut i: usize = 0;
    while i < stats.len()
        invariant
            i <= stats@.len(),
            total as int == total_visits(stats@.take(i as int)),
            total_visits(stats@) <= usize::MAX,
        decreases stats@.len() - i,
    {
        proof {
            assert(stats@.take(i as int + 1).drop_last() =~= stats@.take(i as int));
            lemma_total_of_prefix(stats@, i as int + 1);
        }
        total += stats[i].visits;
        i += 1;
    }
    assert(stats@.take(i as int) =~= stats@);
    total
}

/// A part of a table has counted no more than the whole.
proof fn lemma_total_of_prefix(stats: Seq<MoveStats>, upto: int)
    requires
        0 <= upto <= stats.len(),
    ensures
        total_visits(stats.take(upto)) <= total_visits(stats),
    decreases stats.len() - upto,
{
    if upto < stats.len() {
        lemma_total_of_prefix(stats, upto + 1);
        assert(stats.take(upto + 1).drop_last() =~= stats.take(upto));
    } else {
        assert(stats.take(upto) =~= stats);
    }
}

/// The move to try next, given a priority for each move: see `next_to_try`.
/// The priority of a move never tried is not looked at.
pub fn choose_by_priority(stats: &Vec<MoveStats>, keys: &Vec<u64>) -> (idx: usize)
    requires
        stats@.len() > 0,
        keys@.len() == stats@.len(),
    ensures
        idx as int == next_to_try(stats@, keys@),
        idx < stats@.len(),
{
    let ghost values = key_values(keys@);
    let mut best: usize = 0;
    let mut i: usize = 0;
    proof {
        lemma_first_unvisited(stats@.take(0));
    }
    while i < stats.len()
        invariant
            i <= stats@.len(),
            keys@.len() == stats@.len(),
            values == key_values(keys@),
            first_unvisited(stats@.take(i as int)).is_none(),
            i > 0 ==> best as int == first_maximum(values.take(i as int)) && best < i,
            i == 0 ==> best == 0,
        decreases stats@.len() - i,
    {
        proof {
            assert(stats@.take(i as int + 1).drop_last() =~= stats@.take(i as int));
            assert(values.take(i as int + 1) =~= values.take(i as int).push(values[i as int]));
            if i > 0 {
                lemma_first_maximum_push(values.take(i as int), values[i as int]);
            }
        }
        if stats[i].visits == 0 {
            proof {
                lemma_unvisited_in_prefix(stats@, i as int + 1);
            }
            return i;
        }
        if i > 0 && keys[i] > keys[best] {
            best = i;
        }
        i += 1;
    }
    proof {
        assert(stats@.take(i as int) =~= stats@);
        assert(values.take(i as int) =~= values);
        lemma_first_maximum(values);
    }
    best
}

/// A move never tried that is the first in a part of a table is the first in
/// the whole table.
proof fn lemma_unvisited_in_prefix(stats: Seq<MoveStats>, upto: int)
    requires
        0 <= upto <= stats.len(),
        first_unvisited(stats.take(upto)).is_some(),
    ensures
        first_unvisited(stats) == first_unvisited(stats.take(upto)),
    decreases stats.len() - upto,
{
    if upto < stats.len() {
        assert(stats.take(upto + 1).drop_last() =~= stats.take(upto));
        lemma_unvisited_in_prefix(stats, upto + 1);
    } else {
        assert(stats.take(upto) =~= stats);
    }
}

/// A table for `len` moves, none of them tried.
pub fn fresh_stats(len: usize) -> (stats: Vec<MoveStats>)
    ensures
        stats@.len() == len,
        forall|i: int| 0 <= i < len ==> (#[trigger] stats@[i]).visits == 0 && stats@[i].wins == 0,
        total_visits(stats@) == 0,
{
    let mut stats: Vec<MoveStats> = Vec::with_capacity(len);
    let mut i: usize = 0;
    while i < len
        invariant
            i <= len,
            stats@.len() == i,
            forall|k: int| 0 <= k < i ==> (#[trigger] stats@[k]).visits == 0 && stats@[k].wins == 0,
        decreases len - i,
    {
        stats.push(MoveStats::new());
        i += 1;
    }
    proof {
        lemma_total_of_fresh(stats@);
    }
    stats
}

/// Adds the table `local` to the table `combined`, move by move.
pub fn merge_stats(combined: &mut Vec<MoveStats>, local: &Vec<MoveStats>)
    requires
        old(combined)@.len() == local@.len(),
        total_visits(old(combined)@) + total_visits(local@) <= usize::MAX,
        forall|i: int| 0 <= i < local@.len() ==> (#[trigger] local@[i]).wf(),
        forall|i: int| 0 <= i < local@.len() ==> (#[trigger] old(combined)@[i]).wf(),
    ensures
        final(combined)@.len() == local@.len(),
        forall|i: int|
            0 <= i < local@.len() ==> (#[trigger] final(combined)@[i]).visits == old(
                combined,
            )@[i].visits + local@[i].visits && final(combined)@[i].wins == old(combined)@[i].wins
                + local@[i].wins,
        forall|i: int| 0 <= i < local@.len() ==> (#[trigger] final(combined)@[i]).wf(),
        total_visits(final(combined)@) == total_visits(old(combined)@) + total_visits(local@),
{
    let mut i: usize = 0;
    while i < local.len()
        invariant
            i <= local@.len(),
            combined@.len() == local@.len(),
            old(combined)@.len() == local@.len(),
            total_visits(old(combined)@) + total_visits(local@) <= usize::MAX,
            forall|k: int| 0 <= k < local@.len() ==> (#[trigger] local@[k]).wf(),
            forall|k: int| i <= k < local@.len() ==> combined@[k] == old(combined)@[k],
            forall|k: int| 0 <= k < local@.len() ==> (#[trigger] old(combined)@[k]).wf(),
            forall|k: int|
                0 <= k < i ==> (#[trigger] combined@[k]).visits == old(combined)@[k].visits
                    + local@[k].visits && combined@[k].wins == old(combined)@[k].wins
                    + local@[k].wins && combined@[k].wf(),
        decreases local@.len() - i,
    {
        proof {
            lemma_visits_within_total(old(combined)@, i as int);
            lemma_visits_within_total(local@, i as int);
        }
        let mut entry = combined[i];
        entry.add(&local[i]);
        combined.set(i, entry);
        i += 1;
    }
    proof {
        lemma_total_of_sum(old(combined)@, local@, combined@);
    }
}

/// The move with the highest mean reward; of several equally high, the
/// first. A move never tried has mean zero.
pub fn best_move(moves: &[u8], stats: &Vec<MoveStats>) -> (best: u8)
    requires
        moves@.len() > 0,
        stats@.len() == moves@.len(),
        forall|i: int| 0 <= i < stats@.len() ==> (#[trigger] stats@[i]).wf(),
    ensures
        0 <= best_index(stats@) < moves@.len(),
        best == moves@[best_index(stats@)],
{
    let mut best: usize = 0;
    let mut i: usize = 1;
    while i < stats.len()
        invariant
            1 <= i <= stats@.len(),
            stats@.len() == moves@.len(),
            forall|k: int| 0 <= k < stats@.len() ==> (#[trigger] stats@[k]).wf(),
            best as int == best_index(stats@.take(i as int)),
            best < i,
        decreases stats@.len() - i,
    {
        proof {
            assert(stats@.take(i as int + 1).drop_last() =~= stats@.take(i as int));
        }
        if stats[i].has_higher_mean(&stats[best]) {
            best = i;
        }
        i += 1;
    }
    assert(stats@.take(i as int) =~= stats@);
    moves[best]
}

} // verus!
