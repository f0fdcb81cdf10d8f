//! Monte-Carlo move search: each candidate move is tried in random playouts,
//! and the one with the best average result is chosen.

use vstd::prelude::*;
use crate::budget::lemma_shares_add_up;
use crate::budget::share_of;
use crate::budget::shares_below;
use crate::budget::worker_share;
use crate::choice::first_maximum;
use crate::listing::lemma_legal_moves;
use crate::model::GameView;
use crate::optimized_game::FastGameState;
use crate::optimized_game::FastPlayer;
use crate::playout::piece_values;
use crate::playout::possible_reward;
use crate::playout::simulate_move_fast;
use crate::playout::smart_piece;
use crate::playout::wins_at_once;
use crate::tally::best_index;
use crate::tally::best_move;
use crate::tally::choose_by_priority;
use crate::tally::count_visits;
use crate::tally::first_unvisited;
use crate::tally::fresh_stats;
use crate::tally::lemma_best_index;
use crate::tally::lemma_first_unvisited;
use crate::tally::lemma_total_after_update;
use crate::tally::lemma_visits_within_total;
use crate::tally::merge_stats;
use crate::tally::next_to_try;
use crate::tally::total_visits;
use crate::tally::MoveStats;

verus! {

/// A rule for the order in which a search tries moves that it has tried
/// before: the move with the highest priority is tried next. A rule that
/// weighs a move's mean reward against how seldom it has been tried, such as
/// UCB1, is given here by whoever runs the search.
pub trait ExplorationPolicy {
    /// The priority of a move with `wins` fourteenths of reward from
    /// `visits` playouts, when `total_visits` playouts have been run in all.
    fn priority(&self, wins: u128, visits: usize, total_visits: usize) -> (key: u64)
        requires
            0 < visits <= total_visits,
            wins <= 14 * visits,
    ;
}

/// Whether `keys` holds, for each move of `stats` that has been tried, a
/// priority that `policy` gives to it. The keys of moves never tried are
/// free: they are not looked at.
pub open spec fn answered<P: ExplorationPolicy>(
    policy: &P,
    stats: Seq<MoveStats>,
    keys: Seq<u64>,
) -> bool {
    &&& keys.len() == stats.len()
    &&& forall|i: int|
        0 <= i < stats.len() && stats[i].visits > 0 ==> call_ensures(
            P::priority,
            (policy, stats[i].wins, stats[i].visits, total_visits(stats) as usize),
            #[trigger] keys[i],
        )
}

/// The move to try next under `policy`: the first that no playout has tried;
/// when all have been tried, the policy is asked for the priority of each,
/// and the move with the highest priority comes next, the first of several
/// with that priority.
pub fn select_move<P: ExplorationPolicy>(stats: &Vec<MoveStats>, policy: &P) -> (idx: usize)
    requires
        stats@.len() > 0,
        total_visits(stats@) <= usize::MAX,
        forall|i: int| 0 <= i < stats@.len() ==> (#[trigger] stats@[i]).wf(),
    ensures
        idx < stats@.len(),
        first_unvisited(stats@).is_some() ==> first_unvisited(stats@) == Some(idx as int),
        exists|keys: Seq<u64>| #[trigger]
            answered(policy, stats@, keys) && idx as int == next_to_try(stats@, keys),
{
    let total = count_visits(stats);
    let mut keys: Vec<u64> = Vec::with_capacity(stats.len());
    let mut i: usize = 0;
    while i < stats.len()
        invariant
            i <= stats@.len(),
            keys@.len() == i,
            total as int == total_visits(stats@),
            forall|k: int| 0 <= k < stats@.len() ==> (#[trigger] stats@[k]).wf(),
            forall|k: int|
                0 <= k < i && stats@[k].visits > 0 ==> call_ensures(
                    P::priority,
                    (policy, stats@[k].wins, stats@[k].visits, total),
                    #[trigger] keys@[k],
                ),
        decreases stats@.len() - i,
    {
        let entry = stats[i];
        if entry.visits == 0 {
            keys.push(u64::MAX);
        } else {
            proof {
                lemma_visits_within_total(stats@, i as int);
            }
            let key = policy.priority(entry.wins, entry.visits, total);
            keys.push(key);
        }
        i += 1;
    }
    let idx = choose_by_priority(stats, &keys);
    assert(answered(policy, stats@, keys@));
    idx
}

/// The search itself: how many playouts it runs, by which rule it orders
/// the moves it has tried, how long a playout may get, and among how many
/// workers the playouts are divided.
pub struct MCTSAI<P: ExplorationPolicy> {
    /// Number of playouts for one decision.
    pub simulations: usize,
    /// The rule that orders the moves already tried.
    pub policy: P,
    /// A playout stops after this many turns.
    pub max_simulation_depth: usize,
    /// Number of workers that share the playouts; at least one.
    pub num_threads: usize,
}

impl<P: ExplorationPolicy> MCTSAI<P> {
    /// A search of `simulations` playouts of at most 200 turns each, shared
    /// by `num_threads` workers, or by one if `num_threads` is zero.
    pub fn new_with_threads(simulations: usize, policy: P, num_threads: usize) -> (ai: MCTSAI<P>)
        ensures
            ai.simulations == simulations,
            ai.policy == policy,
            ai.max_simulation_depth == 200,
            ai.num_threads == if num_threads == 0 {
                1
            } else {
                num_threads
            },
    {
        MCTSAI {
            simulations,
            policy,
            max_simulation_depth: 200,
            num_threads: if num_threads == 0 {
                1
            } else {
                num_threads
            },
        }
    }

    /// Whether the playouts are divided among several workers: there is more
    /// than one worker, and at least ten playouts for each.
    pub open spec fn divides_work(&self) -> bool {
        self.num_threads > 1 && self.simulations >= 10 * self.num_threads
    }

    /// The largest number of playouts that one table of the search counts:
    /// the share of the first worker when the work is divided, and all the
    /// playouts when it is not. The first so many moves are tried.
    pub open spec fn widest_share(&self) -> int {
        if self.divides_work() {
            share_of(self.simulations as int, self.num_threads as int, 0)
        } else {
            self.simulations as int
        }
    }

    /// Whether the playouts are divided among several workers.
    pub fn uses_workers(&self) -> (divided: bool)
        ensures
            divided == self.divides_work(),
    {
        self.num_threads > 1 && self.simulations / 10 >= self.num_threads
    }

    /// The move in `moves` that `piece_value` rates highest; of several
    /// rated equally, the first.
    pub fn choose_smart_piece(
        game_state: &FastGameState,
        player: FastPlayer,
        moves: &[u8],
        roll: u8,
    ) -> (best: u8)
        requires
            moves@.len() > 0,
            forall|i: int| 0 <= i < moves@.len() ==> moves@[i] < 7,
        ensures
            0 <= first_maximum(piece_values(game_state@, player, moves@, roll as int))
                < moves@.len(),
            best == moves@[first_maximum(piece_values(game_state@, player, moves@, roll as int))],
    {
        smart_piece(game_state, player, moves, roll)
    }
}

/// The sum of `rewards`.
pub open spec fn sum_of(rewards: Seq<int>) -> int
    decreases rewards.len(),
{
    if rewards.len() == 0 {
        0
    } else {
        sum_of(rewards.drop_last()) + rewards.last()
    }
}

/// Whether `rewards` are what the playouts counted in `entry` have earned:
/// one reward for each visit, each of them one that a playout of at most
/// `max_depth` turns after the move of `piece` by `roll` can earn, and
/// `wins` their sum.
pub open spec fn rewards_of(
    v: GameView,
    player: FastPlayer,
    piece: u8,
    roll: int,
    max_depth: int,
    rewards: Seq<int>,
    entry: MoveStats,
) -> bool {
    &&& rewards.len() == entry.visits
    &&& sum_of(rewards) == entry.wins
    &&& forall|k: int|
        0 <= k < rewards.len() ==> possible_reward(
            v,
            player,
            piece,
            roll,
            max_depth,
            #[trigger] rewards[k],
        )
}

/// Whether `entry` counts playouts of the move of `piece` by `roll` and
/// nothing else: its `wins` is the sum of as many playout rewards as it has
/// `visits`.
pub open spec fn earned(
    v: GameView,
    player: FastPlayer,
    piece: u8,
    roll: int,
    max_depth: int,
    entry: MoveStats,
) -> bool {
    exists|rewards: Seq<int>| #[trigger] rewards_of(v, player, piece, roll, max_depth, rewards, entry)
}

/// The sum of two lists of rewards, one after the other, is the sum of
/// their sums.
pub proof fn lemma_sum_of_both(a: Seq<int>, b: Seq<int>)
    ensures
        sum_of(a + b) == sum_of(a) + sum_of(b),
    decreases b.len(),
{
    if b.len() == 0 {
        assert(a + b =~= a);
    } else {
        assert((a + b).drop_last() =~= a + b.drop_last());
        lemma_sum_of_both(a, b.drop_last());
    }
}

/// Two entries that count playouts of the same move add up to an entry that
/// does.
pub proof fn lemma_earned_together(
    v: GameView,
    player: FastPlayer,
    piece: u8,
    roll: int,
    max_depth: int,
    a: MoveStats,
    b: MoveStats,
    sum: MoveStats,
)
    requires
        earned(v, player, piece, roll, max_depth, a),
        earned(v, player, piece, roll, max_depth, b),
        sum.visits == a.visits + b.visits,
        sum.wins == a.wins + b.wins,
    ensures
        earned(v, player, piece, roll, max_depth, sum),
{
    let ra = choose|r: Seq<int>| #[trigger] rewards_of(v, player, piece, roll, max_depth, r, a);
    let rb = choose|r: Seq<int>| #[trigger] rewards_of(v, player, piece, roll, max_depth, r, b);
    lemma_sum_of_both(ra, rb);
    assert(rewards_of(v, player, piece, roll, max_depth, ra + rb, sum));
}

/// Whether `stats` can be the table of a search over `moves` from the state
/// `v`, judged from the side of `player`: it has counted `simulations`
/// playouts, each entry's `wins` is the sum of what its playouts of at most
/// `max_depth` turns have earned, no move has earned more than a full win
/// for each of its playouts, the moves tried are the first `widest` ones, a
/// move that the rules do not allow has earned nothing, and a move that wins
/// at once has earned a full win every time.
pub open spec fn search_table(
    v: GameView,
    player: FastPlayer,
    roll: int,
    moves: Seq<u8>,
    stats: Seq<MoveStats>,
    simulations: int,
    widest: int,
    max_depth: int,
) -> bool {
    &&& stats.len() == moves.len()
    &&& total_visits(stats) == simulations
    &&& forall|i: int|
        0 <= i < stats.len() ==> earned(v, player, moves[i], roll, max_depth, #[trigger] stats[i])
    &&& forall|i: int| 0 <= i < stats.len() ==> (#[trigger] stats[i]).wf()
    &&& forall|i: int| 0 <= i < stats.len() ==> ((#[trigger] stats[i]).visits > 0 <==> i < widest)
    &&& forall|i: int|
        0 <= i < stats.len() && !v.legal(moves[i] as int, roll) ==> (#[trigger] stats[i]).wins == 0
    &&& forall|i: int|
        0 <= i < stats.len() && wins_at_once(v, player, moves[i], roll) ==> (#[trigger] stats[i]).wins
            == 14 * stats[i].visits
}

/// Whether `stats` is such a table and `best` the move with the highest mean
/// reward in it, the first of several equally high.
pub open spec fn chosen_from(
    v: GameView,
    player: FastPlayer,
    roll: int,
    moves: Seq<u8>,
    stats: Seq<MoveStats>,
    simulations: int,
    widest: int,
    max_depth: int,
    best: u8,
) -> bool {
    &&& search_table(v, player, roll, moves, stats, simulations, widest, max_depth)
    &&& 0 <= best_index(stats) < moves.len()
    &&& best == moves[best_index(stats)]
}

/// Whether `best` is what a search of `simulations` playouts over `moves`
/// may answer: the move with the best mean reward in some table that such a
/// search can end with.
pub open spec fn search_answer(
    v: GameView,
    player: FastPlayer,
    roll: int,
    moves: Seq<u8>,
    simulations: int,
    widest: int,
    max_depth: int,
    best: u8,
) -> bool {
    exists|stats: Seq<MoveStats>| #[trigger]
        chosen_from(v, player, roll, moves, stats, simulations, widest, max_depth, best)
}

/// Rewards that are all the same add up to that reward for each of them.
pub proof fn lemma_sum_of_level(rewards: Seq<int>, level: int)
    requires
        forall|k: int| 0 <= k < rewards.len() ==> #[trigger] rewards[k] == level,
    ensures
        sum_of(rewards) == level * rewards.len(),
    decreases rewards.len(),
{
    if rewards.len() > 0 {
        lemma_sum_of_level(rewards.drop_last(), level);
        assert(level * rewards.len() == level * (rewards.len() - 1) + level) by (nonlinear_arith);
    } else {
        assert(level * 0 == 0);
    }
}

/// In a table whose moves have all been tried and have all earned the same
/// for each playout, the first move is the best.
pub proof fn lemma_level_table(stats: Seq<MoveStats>, level: int)
    requires
        stats.len() > 0,
        level >= 0,
        forall|i: int|
            0 <= i < stats.len() ==> (#[trigger] stats[i]).visits > 0 && stats[i].wins == level
                * stats[i].visits,
    ensures
        best_index(stats) == 0,
    decreases stats.len(),
{
    if stats.len() > 1 {
        let shorter = stats.drop_last();
        assert forall|i: int| 0 <= i < shorter.len() implies (#[trigger] shorter[i]).visits > 0
            && shorter[i].wins == level * shorter[i].visits by {
            assert(shorter[i] == stats[i]);
        }
        lemma_level_table(shorter, level);
        let a = stats.last();
        let b = stats[0];
        assert(a.wins * b.visits == b.wins * a.visits) by (nonlinear_arith)
            requires
                a.wins == level * a.visits,
                b.wins == level * b.visits,
        ;
    }
}

/// A search that tries every move, none of which can earn anything but
/// `level` in a playout, answers with the first move.
pub proof fn lemma_level_search(
    v: GameView,
    player: FastPlayer,
    roll: int,
    moves: Seq<u8>,
    stats: Seq<MoveStats>,
    simulations: int,
    widest: int,
    max_depth: int,
    level: int,
)
    requires
        moves.len() > 0,
        search_table(v, player, roll, moves, stats, simulations, widest, max_depth),
        widest >= moves.len(),
        level >= 0,
        forall|i: int, reward: int|
            0 <= i < moves.len() && #[trigger] possible_reward(
                v,
                player,
                moves[i],
                roll,
                max_depth,
                reward,
            ) ==> reward == level,
    ensures
        best_index(stats) == 0,
{
    assert forall|i: int| 0 <= i < stats.len() implies (#[trigger] stats[i]).visits > 0
        && stats[i].wins == level * stats[i].visits by {
        let rewards = choose|rewards: Seq<int>| #[trigger]
            rewards_of(v, player, moves[i], roll, max_depth, rewards, stats[i]);
        assert(earned(v, player, moves[i], roll, max_depth, stats[i]));
        assert forall|k: int| 0 <= k < rewards.len() implies #[trigger] rewards[k] == level by {
            assert(possible_reward(v, player, moves[i], roll, max_depth, rewards[k]));
        }
        lemma_sum_of_level(rewards, level);
    }
    lemma_level_table(stats, level);
}

/// A search that tries every move and finds among them one that wins at
/// once answers with a move that has won every playout.
pub proof fn lemma_winning_move_sets_the_mark(
    v: GameView,
    player: FastPlayer,
    roll: int,
    moves: Seq<u8>,
    stats: Seq<MoveStats>,
    simulations: int,
    widest: int,
    max_depth: int,
    winning: int,
)
    requires
        search_table(v, player, roll, moves, stats, simulations, widest, max_depth),
        widest >= moves.len(),
        0 <= winning < moves.len(),
        wins_at_once(v, player, moves[winning], roll),
    ensures
        0 <= best_index(stats) < stats.len(),
        stats[best_index(stats)].visits > 0,
        stats[best_index(stats)].wins == 14 * stats[best_index(stats)].visits,
{
    lemma_best_index(stats);
    let best = stats[best_index(stats)];
    let won = stats[winning];
    assert(won.wf() && best.wf());
    assert(won.visits > 0 && best.visits > 0);
    assert(!won.mean_exceeds(best));
    assert(best.wins >= 14 * best.visits) by (nonlinear_arith)
        requires
            won.wins * best.visits <= best.wins * won.visits,
            won.wins == 14 * won.visits,
            won.visits > 0,
            best.visits > 0,
    ;
}

impl<P: ExplorationPolicy> MCTSAI<P> {
    /// Runs `simulations` playouts from `game_state`, each starting with
    /// the move that `select_move` picks from the table so far, and
    /// returns the table. Every playout is counted; the first playouts go to
    /// the moves in order, so that no move is tried twice before each has
    /// been tried once. A move that the rules do not allow earns nothing,
    /// and a move that wins at once earns a full win every time.
    pub fn run_simulations(
        &self,
        game_state: &FastGameState,
        player: FastPlayer,
        roll: u8,
        moves: &[u8],
        simulations: usize,
    ) -> (stats: Vec<MoveStats>)
        requires
            game_state.wf(),
            moves@.len() > 0,
        ensures
            search_table(
                game_state@,
                player,
                roll as int,
                moves@,
                stats@,
                simulations as int,
                simulations as int,
                self.max_simulation_depth as int,
            ),
    {
        let mut stats = fresh_stats(moves.len());
        let mut done: usize = 0;
        let ghost mut logs: Seq<Seq<int>> = Seq::new(moves@.len(), |i: int| Seq::<int>::empty());
        while done < simulations
            invariant
                done <= simulations,
                game_state.wf(),
                moves@.len() > 0,
                stats@.len() == moves@.len(),
                total_visits(stats@) == done,
                logs.len() == stats@.len(),
                forall|i: int|
                    0 <= i < stats@.len() ==> rewards_of(
                        game_state@,
                        player,
                        moves@[i],
                        roll as int,
                        self.max_simulation_depth as int,
                        #[trigger] logs[i],
                        stats@[i],
                    ),
                forall|i: int| 0 <= i < stats@.len() ==> (#[trigger] stats@[i]).wf(),
                forall|i: int|
                    0 <= i < stats@.len() ==> ((#[trigger] stats@[i]).visits > 0 <==> i < done),
                forall|i: int|
                    0 <= i < stats@.len() && !game_state@.legal(moves@[i] as int, roll as int)
                        ==> (#[trigger] stats@[i]).wins == 0,
                forall|i: int|
                    0 <= i < stats@.len() && wins_at_once(
                        game_state@,
                        player,
                        moves@[i],
                        roll as int,
                    ) ==> (#[trigger] stats@[i]).wins == 14 * stats@[i].visits,
            decreases simulations - done,
        {
            let selected = select_move(&stats, &self.policy);
            let reward = simulate_move_fast(
                *game_state,
                player,
                moves[selected],
                roll,
                self.max_simulation_depth,
            );
            proof {
                lemma_first_unvisited(stats@);
                lemma_visits_within_total(stats@, selected as int);
                if done < stats@.len() {
                    assert(stats@[done as int].visits == 0);
                }
            }
            let mut entry = stats[selected];
            entry.record(reward);
            proof {
                lemma_total_after_update(stats@, selected as int, entry);
                let longer = logs[selected as int].push(reward as int);
                assert(longer.drop_last() =~= logs[selected as int]);
                logs = logs.update(selected as int, longer);
            }
            stats.set(selected, entry);
            done += 1;
        }
        proof {
            assert forall|i: int| 0 <= i < stats@.len() implies earned(
                game_state@,
                player,
                moves@[i],
                roll as int,
                self.max_simulation_depth as int,
                #[trigger] stats@[i],
            ) by {
                assert(rewards_of(
                    game_state@,
                    player,
                    moves@[i],
                    roll as int,
                    self.max_simulation_depth as int,
                    logs[i],
                    stats@[i],
                ));
            }
        }
        stats
    }

    /// Searches on one table: all the playouts are run one after another,
    /// and the move with the best mean reward is the answer.
    pub fn choose_move_sequential(
        &self,
        game_state: &FastGameState,
        player: FastPlayer,
        roll: u8,
        moves: &[u8],
    ) -> (best: u8)
        requires
            game_state.wf(),
            moves@.len() > 0,
        ensures
            search_answer(
                game_state@,
                player,
                roll as int,
                moves@,
                self.simulations as int,
                self.simulations as int,
                self.max_simulation_depth as int,
                best,
            ),
    {
        let stats = self.run_simulations(game_state, player, roll, moves, self.simulations);
        let best = best_move(moves, &stats);
        assert(chosen_from(
            game_state@,
            player,
            roll as int,
            moves@,
            stats@,
            self.simulations as int,
            self.simulations as int,
            self.max_simulation_depth as int,
            best,
        ));
        best
    }

    /// Searches on one table for each worker: the playouts are divided among
    /// the workers as `share_of` says, each worker fills a table of its own
    /// from its own copy of the state, the tables are added up, and the move
    /// with the best mean reward in the sum is the answer. No worker sees
    /// what another has found, so the workers may as well run at the same
    /// time; here they run in turn.
    pub fn choose_move_divided(
        &self,
        game_state: &FastGameState,
        player: FastPlayer,
        roll: u8,
        moves: &[u8],
    ) -> (best: u8)
        requires
            game_state.wf(),
            moves@.len() > 0,
            self.num_threads > 0,
        ensures
            search_answer(
                game_state@,
                player,
                roll as int,
                moves@,
                self.simulations as int,
                share_of(self.simulations as int, self.num_threads as int, 0),
                self.max_simulation_depth as int,
                best,
            ),
    {
        let ghost widest = share_of(self.simulations as int, self.num_threads as int, 0);
        let mut combined = fresh_stats(moves.len());
        let mut worker_id: usize = 0;
        proof {
            assert forall|i: int| 0 <= i < combined@.len() implies earned(
                game_state@,
                player,
                moves@[i],
                roll as int,
                self.max_simulation_depth as int,
                #[trigger] combined@[i],
            ) by {
                assert(rewards_of(
                    game_state@,
                    player,
                    moves@[i],
                    roll as int,
                    self.max_simulation_depth as int,
                    Seq::<int>::empty(),
                    combined@[i],
                ));
            }
        }
        while worker_id < self.num_threads
            invariant
                worker_id <= self.num_threads,
                game_state.wf(),
                moves@.len() > 0,
                widest == share_of(self.simulations as int, self.num_threads as int, 0),
                search_table(
                    game_state@,
                    player,
                    roll as int,
                    moves@,
                    combined@,
                    shares_below(
                        self.simulations as int,
                        self.num_threads as int,
                        worker_id as int,
                    ),
                    if worker_id > 0 {
                        widest
                    } else {
                        0
                    },
                    self.max_simulation_depth as int,
                ),
            decreases self.num_threads - worker_id,
        {
            let share = worker_share(self.simulations, self.num_threads, worker_id);
            let local = self.run_simulations(game_state, player, roll, moves, share);
            proof {
                lemma_shares_add_up(
                    self.simulations as int,
                    self.num_threads as int,
                    worker_id as int + 1,
                );
                assert(share <= widest);
            }
            let ghost before = combined@;
            merge_stats(&mut combined, &local);
            proof {
                assert forall|i: int| 0 <= i < combined@.len() implies earned(
                    game_state@,
                    player,
                    moves@[i],
                    roll as int,
                    self.max_simulation_depth as int,
                    #[trigger] combined@[i],
                ) by {
                    lemma_earned_together(
                        game_state@,
                        player,
                        moves@[i],
                        roll as int,
                        self.max_simulation_depth as int,
                        before[i],
                        local@[i],
                        combined@[i],
                    );
                }
            }
            worker_id += 1;
        }
        proof {
            lemma_shares_add_up(self.simulations as int, self.num_threads as int, 0);
        }
        let best = best_move(moves, &combined);
        assert(chosen_from(
            game_state@,
            player,
            roll as int,
            moves@,
            combined@,
            self.simulations as int,
            widest,
            self.max_simulation_depth as int,
            best,
        ));
        best
    }

    /// The move to make from `game_state` with `roll`, judged from the side
    /// of `player`: none when no move is legal, the legal move when there is
    /// just one, and otherwise what the search finds, on one table or on one
    /// for each worker.
    pub fn choose_move(&self, game_state: &FastGameState, player: FastPlayer, roll: u8) -> (choice:
        Option<u8>)
        requires
            game_state.wf(),
        ensures
            choice.is_none() <==> game_state@.legal_moves(roll as int).len() == 0,
            game_state@.legal_moves(roll as int).len() == 1 ==> choice == Some(
                game_state@.legal_moves(roll as int)[0],
            ),
            choice matches Some(piece) ==> game_state@.legal_moves(roll as int).contains(piece),
            choice matches Some(piece) ==> (game_state@.legal_moves(roll as int).len() > 1
                ==> search_answer(
                game_state@,
                player,
                roll as int,
                game_state@.legal_moves(roll as int),
                self.simulations as int,
                self.widest_share(),
                self.max_simulation_depth as int,
                piece,
            )),
    {
        let moves = game_state.generate_moves(roll);
        if moves.len() == 0 {
            return None;
        }
        if moves.len() == 1 {
            return Some(moves[0]);
        }
        let candidates = moves.as_slice();
        let best = if self.uses_workers() {
            self.choose_move_divided(game_state, player, roll, candidates)
        } else {
            self.choose_move_sequential(game_state, player, roll, candidates)
        };
        proof {
            let stats = choose|stats: Seq<MoveStats>| #[trigger]
                chosen_from(
                    game_state@,
                    player,
                    roll as int,
                    candidates@,
                    stats,
                    self.simulations as int,
                    self.widest_share(),
                    self.max_simulation_depth as int,
                    best,
                );
            assert(game_state@.legal_moves(roll as int)[best_index(stats)] == best);
        }
        Some(best)
    }
}

/// A chooser that settles easy decisions at a glance and searches for the
/// rest.
pub struct HybridAI<P: ExplorationPolicy> {
    /// The search.
    pub mcts: MCTSAI<P>,
    /// The search is used when at least this many moves are legal.
    pub use_mcts_threshold: usize,
}

impl<P: ExplorationPolicy> HybridAI<P> {
    /// A chooser that searches whenever two or more moves are legal.
    pub fn new_with_threads(mcts_simulations: usize, policy: P, num_threads: usize) -> (ai:
        HybridAI<P>)
        ensures
            ai.mcts.simulations == mcts_simulations,
            ai.mcts.policy == policy,
            ai.mcts.max_simulation_depth == 200,
            ai.mcts.num_threads == if num_threads == 0 {
                1
            } else {
                num_threads
            },
            ai.use_mcts_threshold == 2,
    {
        HybridAI {
            mcts: MCTSAI::new_with_threads(mcts_simulations, policy, num_threads),
            use_mcts_threshold: 2,
        }
    }

    /// Whether a choice among `candidates` legal moves is left to the
    /// search: there is more than one, and as many as the threshold asks for.
    pub fn wants_search(&self, candidates: usize) -> (searched: bool)
        ensures
            searched == (candidates > 1 && candidates >= self.use_mcts_threshold),
    {
        candidates > 1 && candidates >= self.use_mcts_threshold
    }

    /// The move to make from `game_state` with `roll`, judged from the side
    /// of `player`: none when no move is legal, the legal move when there is
    /// just one, the search's answer when there are as many legal moves as
    /// the threshold asks for, and the answer of `choose_smart_piece`
    /// otherwise.
    pub fn choose_move(&self, game_state: &FastGameState, player: FastPlayer, roll: u8) -> (choice:
        Option<u8>)
        requires
            game_state.wf(),
        ensures
            choice.is_none() <==> game_state@.legal_moves(roll as int).len() == 0,
            game_state@.legal_moves(roll as int).len() == 1 ==> choice == Some(
                game_state@.legal_moves(roll as int)[0],
            ),
            choice matches Some(piece) ==> game_state@.legal_moves(roll as int).contains(piece),
            choice matches Some(piece) ==> (game_state@.legal_moves(roll as int).len() > 1
                && game_state@.legal_moves(roll as int).len() >= self.use_mcts_threshold
                ==> search_answer(
                game_state@,
                player,
                roll as int,
                game_state@.legal_moves(roll as int),
                self.mcts.simulations as int,
                self.mcts.widest_share(),
                self.mcts.max_simulation_depth as int,
                piece,
            )),
            1 < game_state@.legal_moves(roll as int).len() < self.use_mcts_threshold ==> choice
                == Some(
                game_state@.legal_moves(roll as int)[first_maximum(
                    piece_values(
                        game_state@,
                        player,
                        game_state@.legal_moves(roll as int),
                        roll as int,
                    ),
                )],
            ),
    {
        let moves = game_state.generate_moves(roll);
        if moves.len() == 0 {
            return None;
        }
        if moves.len() == 1 {
            return Some(moves[0]);
        }
        if self.wants_search(moves.len()) {
            self.mcts.choose_move(game_state, player, roll)
        } else {
            proof {
                lemma_legal_moves(game_state@, roll as int);
            }
            Some(MCTSAI::<P>::choose_smart_piece(game_state, player, moves.as_slice(), roll))
        }
    }
}

} // verus!
