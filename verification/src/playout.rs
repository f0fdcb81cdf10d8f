//! Playouts: games played on at random from a position, and what they earn
//! the player for whom a search is made. Rewards are counted in fourteenths
//! of a win.

use vstd::prelude::*;
use crate::chance::random_below;
use crate::chance::random_ratio;
use crate::choice::first_maximum;
use crate::choice::lemma_first_maximum;
use crate::choice::lemma_first_maximum_push;
use crate::consistency::lemma_legal_move;
use crate::consistency::lemma_move_keeps_wf;
use crate::consistency::lemma_turn_keeps_wf;
use crate::laws::lemma_move_effect;
use crate::listing::lemma_legal_moves;
use crate::model::on_board;
use crate::model::path_square;
use crate::model::rosette;
use crate::model::GameView;
use crate::optimized_game::FastGameState;
use crate::optimized_game::FastPlayer;

verus! {

/// What moving `piece` by `roll` is worth to `player` inside a playout:
/// entering is worth 10, finishing 50, and advancing to path index `t` is
/// worth `t`, 5 more on a rosette and 8 more for a capture. A finished piece
/// is worth nothing.
pub open spec fn piece_value(v: GameView, player: FastPlayer, piece: int, roll: int) -> int {
    let code = v.position(player, piece);
    if code == 0 {
        10
    } else if on_board(code) {
        let target = code - 1 + roll;
        if target >= 14 {
            50
        } else {
            target + (if rosette(path_square(player, target)) {
                5int
            } else {
                0int
            }) + if v.occupant(path_square(player, target)).is_some() && v.can_land(
                player,
                path_square(player, target),
            ) {
                8int
            } else {
                0int
            }
        }
    } else {
        0
    }
}

/// The playout values of the moves in `moves`, in the same order.
pub open spec fn piece_values(v: GameView, player: FastPlayer, moves: Seq<u8>, roll: int) -> Seq<
    int,
> {
    Seq::new(moves.len(), |i: int| piece_value(v, player, moves[i] as int, roll))
}

/// How the scores stand for `player`, in fourteenths of a win: the player's
/// own score and what the opponent still lacks of seven.
pub open spec fn standing(v: GameView, player: FastPlayer) -> int {
    v.score(player) + (7 - v.score(player.other()))
}

/// The reward of a decided game for `player`: a full win or nothing.
pub open spec fn verdict(player: FastPlayer, winner: FastPlayer) -> int {
    if player == winner {
        14
    } else {
        0
    }
}

/// What `piece_value` says of one move.
fn rate_piece(game_state: &FastGameState, player: FastPlayer, piece_idx: u8, roll: u8) -> (score:
    u16)
    requires
        piece_idx < 7,
    ensures
        score as int == piece_value(game_state@, player, piece_idx as int, roll as int),
{
    let pos = game_state.get_piece_pos(player, piece_idx);
    if pos == 0 {
        10
    } else if pos <= 14 {
        let new_path_idx: u16 = (pos - 1) as u16 + roll as u16;
        if new_path_idx >= 14 {
            50
        } else {
            let mut score = new_path_idx;
            let target_square = FastGameState::path_to_global(player, new_path_idx as u8);
            if FastGameState::is_rosette(target_square) {
                score += 5;
            }
            if let Some(occupant) = game_state.get_occupant(target_square) {
                if occupant != player && !FastGameState::is_safe(target_square) {
                    score += 8;
                }
            }
            score
        }
    } else {
        0
    }
}

/// How the scores stand for `player`: see `standing`. The value lies between
/// nothing and a full win, whatever the scores.
fn rate_standing(game_state: &FastGameState, player: FastPlayer) -> (reward: u8)
    ensures
        reward as int == standing(game_state@, player),
        reward <= 14,
{
    let our_score = game_state.get_score(player);
    let opp_score = game_state.get_score(player.opposite());
    our_score + (7 - opp_score)
}

/// The reward of a decided game for `player`.
fn rate_verdict(player: FastPlayer, winner: FastPlayer) -> (reward: u8)
    ensures
        reward as int == verdict(player, winner),
{
    if player == winner {
        14
    } else {
        0
    }
}

/// Whether moving `piece` by `roll` is legal and brings the seventh piece of
/// `player` home.
pub open spec fn wins_at_once(v: GameView, player: FastPlayer, piece: u8, roll: int) -> bool {
    v.legal(piece as int, roll) && v.after_move(piece as int, roll).score(player) == 7
}

/// What chance decides in one turn of a playout.
#[derive(Clone, Copy, Debug)]
pub struct Draw {
    /// The roll of the dice.
    pub roll: u8,
    /// Whether the move is chosen by `piece_value` rather than by `pick`.
    pub smart: bool,
    /// Which of the legal moves is made when the choice is not smart,
    /// counted round the list.
    pub pick: usize,
}

/// The piece that the player to move moves in a turn with the draw `draw`,
/// when there is a legal move: the one that `piece_value` rates highest, the
/// first of several rated equally, if the draw is smart, and else the one
/// that `pick` points at.
pub open spec fn chosen_piece(v: GameView, draw: Draw) -> u8 {
    let moves = v.legal_moves(draw.roll as int);
    if draw.smart {
        moves[first_maximum(piece_values(v, v.turn, moves, draw.roll as int))]
    } else {
        moves[(draw.pick as int) % (moves.len() as int)]
    }
}

/// The state after the turn that `draw` decides: the player to move passes
/// when no move is legal, as on a roll of zero, and else moves the chosen
/// piece.
pub open spec fn after_turn(v: GameView, draw: Draw) -> GameView {
    if v.legal_moves(draw.roll as int).len() == 0 {
        v.passed()
    } else {
        v.after_move(chosen_piece(v, draw) as int, draw.roll as int)
    }
}

/// Whether the turn that `draw` decides is a move that brings the mover's
/// seventh piece home.
pub open spec fn turn_wins(v: GameView, draw: Draw) -> bool {
    v.legal_moves(draw.roll as int).len() > 0 && after_turn(v, draw).score(v.turn) == 7
}

/// What a playout from `v` earns `player` when it may take `max_depth` turns
/// and chance decides them as `draws` says, one draw for each turn. Before
/// each turn a game that is won ends the playout with the verdict; so does
/// a move that wins. A playout that has used up its turns, or its draws, is
/// rated by how the scores then stand.
pub open spec fn playout_reward(
    v: GameView,
    player: FastPlayer,
    max_depth: int,
    draws: Seq<Draw>,
) -> int
    decreases max_depth,
{
    if max_depth <= 0 || draws.len() == 0 {
        standing(v, player)
    } else if v.score(FastPlayer::One) == 7 {
        verdict(player, FastPlayer::One)
    } else if v.score(FastPlayer::Two) == 7 {
        verdict(player, FastPlayer::Two)
    } else if turn_wins(v, draws[0]) {
        verdict(player, v.turn)
    } else {
        playout_reward(after_turn(v, draws[0]), player, max_depth - 1, draws.drop_first())
    }
}

/// Whether `draws` can be what chance decides in a playout of `max_depth`
/// turns: one draw for each turn, and no roll above four.
pub open spec fn well_drawn(draws: Seq<Draw>, max_depth: int) -> bool {
    &&& draws.len() == max_depth
    &&& forall|i: int| 0 <= i < draws.len() ==> (#[trigger] draws[i]).roll <= 4
}

/// What a playout earns `player` that starts with the move of `piece` by
/// `roll`: nothing for a move that the rules do not allow, a full win for a
/// move that wins at once, and else what the playout from the state after
/// the move earns.
pub open spec fn move_reward(
    v: GameView,
    player: FastPlayer,
    piece: u8,
    roll: int,
    max_depth: int,
    draws: Seq<Draw>,
) -> int {
    if !v.legal(piece as int, roll) {
        0
    } else if wins_at_once(v, player, piece, roll) {
        14
    } else {
        playout_reward(v.after_move(piece as int, roll), player, max_depth, draws)
    }
}

/// Whether a playout that starts with the move of `piece` by `roll` can earn
/// `reward`, chance deciding as it will.
pub open spec fn possible_reward(
    v: GameView,
    player: FastPlayer,
    piece: u8,
    roll: int,
    max_depth: int,
    reward: int,
) -> bool {
    exists|draws: Seq<Draw>| #[trigger]
        well_drawn(draws, max_depth) && reward == move_reward(
            v,
            player,
            piece,
            roll,
            max_depth,
            draws,
        )
}

/// The move in `moves` that `piece_value` rates highest; of several rated
/// equally, the first.
pub fn smart_piece(game_state: &FastGameState, player: FastPlayer, moves: &[u8], roll: u8) -> (best:
    u8)
    requires
        moves@.len() > 0,
        forall|i: int| 0 <= i < moves@.len() ==> moves@[i] < 7,
    ensures
        0 <= first_maximum(piece_values(game_state@, player, moves@, roll as int)) < moves@.len(),
        best == moves@[first_maximum(piece_values(game_state@, player, moves@, roll as int))],
{
    let mut best_piece = moves[0];
    let mut best_score = rate_piece(game_state, player, moves[0], roll);
    let ghost values = piece_values(game_state@, player, moves@, roll as int);
    let mut i: usize = 1;
    while i < moves.len()
        invariant
            1 <= i <= moves@.len(),
            values == piece_values(game_state@, player, moves@, roll as int),
            forall|k: int| 0 <= k < moves@.len() ==> moves@[k] < 7,
            0 <= first_maximum(values.take(i as int)) < i,
            best_piece == moves@[first_maximum(values.take(i as int))],
            best_score as int == values[first_maximum(values.take(i as int))],
        decreases moves@.len() - i,
    {
        let piece_idx = moves[i];
        let score = rate_piece(game_state, player, piece_idx, roll);
        proof {
            lemma_first_maximum_push(values.take(i as int), values[i as int]);
            assert(values.take(i as int).push(values[i as int]) =~= values.take(i as int + 1));
        }
        if score > best_score {
            best_score = score;
            best_piece = piece_idx;
        }
        i += 1;
    }
    assert(values.take(i as int) =~= values);
    best_piece
}

/// Plays the turn that `draw` decides, given the legal moves: a pass when
/// there is none, and else the move of the chosen piece. Says whether the
/// turn was a move that won the game for the mover.
fn play_turn(state: &mut FastGameState, moves: &Vec<u8>, draw: Draw) -> (won: bool)
    requires
        old(state).wf(),
        moves@ == old(state)@.legal_moves(draw.roll as int),
    ensures
        final(state).wf(),
        final(state)@ == after_turn(old(state)@, draw),
        won == turn_wins(old(state)@, draw),
{
    let current_player = state.current_player();
    if moves.len() == 0 {
        state.pass_turn();
        return false;
    }
    proof {
        lemma_legal_moves(state@, draw.roll as int);
    }
    let piece = if draw.smart {
        smart_piece(state, current_player, moves.as_slice(), draw.roll)
    } else {
        moves[draw.pick % moves.len()]
    };
    let moved = state.make_move(piece, draw.roll);
    assert(moved.is_some());
    state.is_winner(current_player)
}

/// How `playout_reward` goes on from an undecided game: by the verdict if
/// the next turn wins, and else as from the state after that turn, with the
/// draws that are left.
pub proof fn lemma_playout_step(
    v: GameView,
    player: FastPlayer,
    max_depth: int,
    draw: Draw,
    rest: Seq<Draw>,
)
    requires
        max_depth > 0,
        v.score(FastPlayer::One) != 7,
        v.score(FastPlayer::Two) != 7,
    ensures
        playout_reward(v, player, max_depth, seq![draw] + rest) == if turn_wins(v, draw) {
            verdict(player, v.turn)
        } else {
            playout_reward(after_turn(v, draw), player, max_depth - 1, rest)
        },
{
    let draws = seq![draw] + rest;
    assert(draws[0] == draw);
    assert(draws.drop_first() =~= rest);
}

/// A playout that ends at once does not look at its draws.
pub proof fn lemma_playout_end(v: GameView, player: FastPlayer, max_depth: int, draws: Seq<Draw>)
    ensures
        max_depth <= 0 ==> playout_reward(v, player, max_depth, draws) == standing(v, player),
        max_depth > 0 && draws.len() > 0 && v.score(FastPlayer::One) == 7 ==> playout_reward(
            v,
            player,
            max_depth,
            draws,
        ) == verdict(player, FastPlayer::One),
        max_depth > 0 && draws.len() > 0 && v.score(FastPlayer::One) != 7 && v.score(
            FastPlayer::Two,
        ) == 7 ==> playout_reward(v, player, max_depth, draws) == verdict(player, FastPlayer::Two),
{
}

/// The playout from `game_state` of at most `max_depth` turns in which
/// chance decides as `draws` says: see `playout_reward`.
pub fn playout_with(
    game_state: FastGameState,
    initial_player: FastPlayer,
    max_depth: usize,
    draws: &Vec<Draw>,
) -> (reward: u8)
    requires
        game_state.wf(),
    ensures
        reward as int == playout_reward(game_state@, initial_player, max_depth as int, draws@),
        reward <= 14,
{
    let mut state = game_state;
    let mut depth: usize = 0;
    assert(draws@.skip(0) =~= draws@);
    while depth < max_depth && depth < draws.len()
        invariant
            depth <= max_depth,
            depth <= draws@.len(),
            state.wf(),
            playout_reward(game_state@, initial_player, max_depth as int, draws@) == playout_reward(
                state@,
                initial_player,
                max_depth - depth,
                draws@.skip(depth as int),
            ),
        decreases max_depth - depth,
    {
        if state.is_winner(FastPlayer::One) {
            return rate_verdict(initial_player, FastPlayer::One);
        }
        if state.is_winner(FastPlayer::Two) {
            return rate_verdict(initial_player, FastPlayer::Two);
        }
        let current_player = state.current_player();
        let draw = draws[depth];
        let moves = state.generate_moves(draw.roll);
        proof {
            let left = draws@.skip(depth as int);
            assert(left =~= seq![draw] + draws@.skip(depth as int + 1));
            lemma_playout_step(
                state@,
                initial_player,
                max_depth - depth,
                draw,
                draws@.skip(depth as int + 1),
            );
        }
        if play_turn(&mut state, &moves, draw) {
            return rate_verdict(initial_player, current_player);
        }
        depth += 1;
    }
    proof {
        assert(depth == max_depth || draws@.skip(depth as int).len() == 0);
    }
    rate_standing(&state, initial_player)
}

/// Whether `reward` is what some playout from `v` of `max_depth` turns earns
/// `player`, no roll in it above four.
pub open spec fn playout_can_earn(
    v: GameView,
    player: FastPlayer,
    max_depth: int,
    reward: int,
) -> bool {
    exists|draws: Seq<Draw>| #[trigger]
        well_drawn(draws, max_depth) && reward == playout_reward(v, player, max_depth, draws)
}

/// One playout from `game_state`, rewarded from the side of
/// `initial_player`, in which the dice are rolled for each turn and the
/// move is chosen by `piece_value` seven times in ten and at random
/// otherwise. It earns what `playout_reward` says of the draws that came.
pub fn simulate_game_fast(
    game_state: FastGameState,
    initial_player: FastPlayer,
    max_depth: usize,
) -> (reward: u8)
    requires
        game_state.wf(),
    ensures
        reward <= 14,
        playout_can_earn(game_state@, initial_player, max_depth as int, reward as int),
{
    let mut state = game_state;
    let mut depth: usize = 0;
    let ghost mut taken: Seq<Draw> = Seq::empty();
    proof {
        assert forall|rest: Seq<Draw>| #[trigger]
            playout_reward(game_state@, initial_player, max_depth as int, taken + rest)
                == playout_reward(state@, initial_player, max_depth - depth, rest) by {
            assert(taken + rest =~= rest);
        }
    }
    while depth < max_depth
        invariant
            depth <= max_depth,
            state.wf(),
            well_drawn(taken, depth as int),
            forall|rest: Seq<Draw>| #[trigger]
                playout_reward(game_state@, initial_player, max_depth as int, taken + rest)
                    == playout_reward(state@, initial_player, max_depth - depth, rest),
        decreases max_depth - depth,
    {
        if state.is_winner(FastPlayer::One) {
            proof {
                lemma_padded(game_state@, state@, initial_player, max_depth as int, taken);
            }
            return rate_verdict(initial_player, FastPlayer::One);
        }
        if state.is_winner(FastPlayer::Two) {
            proof {
                lemma_padded(game_state@, state@, initial_player, max_depth as int, taken);
            }
            return rate_verdict(initial_player, FastPlayer::Two);
        }
        let current_player = state.current_player();
        let sim_roll = FastGameState::roll_dice();
        let sim_moves = state.generate_moves(sim_roll);
        let draw = if sim_moves.len() == 0 {
            Draw { roll: sim_roll, smart: false, pick: 0 }
        } else if random_ratio(7, 10) {
            Draw { roll: sim_roll, smart: true, pick: 0 }
        } else {
            Draw { roll: sim_roll, smart: false, pick: random_below(sim_moves.len()) }
        };
        let ghost before = state@;
        let ghost longer = taken.push(draw);
        let won = play_turn(&mut state, &sim_moves, draw);
        proof {
            assert forall|rest: Seq<Draw>| #[trigger]
                playout_reward(game_state@, initial_player, max_depth as int, longer + rest) == if won {
                    verdict(initial_player, current_player)
                } else {
                    playout_reward(state@, initial_player, max_depth - depth - 1, rest)
                } by {
                let tail = seq![draw] + rest;
                assert(longer + rest =~= taken + tail);
                lemma_playout_step(before, initial_player, max_depth - depth, draw, rest);
            }
        }
        if won {
            proof {
                let pad = padding(max_depth - depth - 1);
                assert(well_drawn(longer + pad, max_depth as int));
                assert(playout_reward(
                    game_state@,
                    initial_player,
                    max_depth as int,
                    longer + pad,
                ) == verdict(initial_player, current_player));
            }
            return rate_verdict(initial_player, current_player);
        }
        proof {
            taken = longer;
        }
        depth += 1;
    }
    proof {
        assert(taken + Seq::<Draw>::empty() =~= taken);
        assert(playout_reward(
            game_state@,
            initial_player,
            max_depth as int,
            taken + Seq::<Draw>::empty(),
        ) == standing(state@, initial_player));
    }
    rate_standing(&state, initial_player)
}

/// Draws of a roll of zero, `len` of them.
pub open spec fn padding(len: int) -> Seq<Draw> {
    Seq::new(len as nat, |i: int| Draw { roll: 0, smart: false, pick: 0 })
}

/// A playout that has come to a decided game within its turns earns the
/// verdict, whatever draws would have followed.
proof fn lemma_padded(
    start: GameView,
    reached: GameView,
    player: FastPlayer,
    max_depth: int,
    taken: Seq<Draw>,
)
    requires
        0 <= taken.len() < max_depth,
        well_drawn(taken, taken.len() as int),
        reached.score(FastPlayer::One) == 7 || reached.score(FastPlayer::Two) == 7,
        forall|rest: Seq<Draw>| #[trigger]
            playout_reward(start, player, max_depth, taken + rest) == playout_reward(
                reached,
                player,
                max_depth - taken.len(),
                rest,
            ),
    ensures
        playout_can_earn(
            start,
            player,
            max_depth,
            if reached.score(FastPlayer::One) == 7 {
                verdict(player, FastPlayer::One)
            } else {
                verdict(player, FastPlayer::Two)
            },
        ),
{
    let pad = padding(max_depth - taken.len());
    let draws = taken + pad;
    assert(well_drawn(draws, max_depth));
    lemma_playout_end(reached, player, max_depth - taken.len(), pad);
    assert(playout_reward(start, player, max_depth, draws) == playout_reward(
        reached,
        player,
        max_depth - taken.len(),
        pad,
    ));
}

/// One playout that starts with the move of `piece_idx` by `roll`: see
/// `move_reward`.
pub fn simulate_move_fast(
    initial_state: FastGameState,
    initial_player: FastPlayer,
    piece_idx: u8,
    roll: u8,
    max_depth: usize,
) -> (reward: u8)
    requires
        initial_state.wf(),
    ensures
        reward <= 14,
        possible_reward(
            initial_state@,
            initial_player,
            piece_idx,
            roll as int,
            max_depth as int,
            reward as int,
        ),
{
    let mut game_state = initial_state;
    match game_state.make_move(piece_idx, roll) {
        Some(_) => {
            if game_state.is_winner(initial_player) {
                proof {
                    assert(well_drawn(padding(max_depth as int), max_depth as int));
                }
                14
            } else {
                let reward = simulate_game_fast(game_state, initial_player, max_depth);
                proof {
                    let draws = choose|draws: Seq<Draw>| #[trigger]
                        well_drawn(draws, max_depth as int) && reward as int == playout_reward(
                            game_state@,
                            initial_player,
                            max_depth as int,
                            draws,
                        );
                    assert(well_drawn(draws, max_depth as int) && reward as int == move_reward(
                        initial_state@,
                        initial_player,
                        piece_idx,
                        roll as int,
                        max_depth as int,
                        draws,
                    ));
                }
                reward
            }
        },
        None => {
            proof {
                assert(well_drawn(padding(max_depth as int), max_depth as int));
            }
            0
        },
    }
}

/// Whether no piece can come home within `turns` turns: every piece that
/// has not finished is more than four squares for each turn away from the
/// finished position.
pub open spec fn out_of_reach(v: GameView, turns: int) -> bool {
    forall|player: FastPlayer, piece: int|
        0 <= piece < 7 ==> #[trigger] v.position(player, piece) == 15 || v.position(player, piece)
            + 4 * turns < 15
}

/// The piece moved in a turn with a legal move is one of the legal moves.
pub proof fn lemma_chosen_piece(v: GameView, draw: Draw)
    requires
        v.legal_moves(draw.roll as int).len() > 0,
    ensures
        chosen_piece(v, draw) < 7,
        v.legal(chosen_piece(v, draw) as int, draw.roll as int),
{
    let moves = v.legal_moves(draw.roll as int);
    lemma_legal_moves(v, draw.roll as int);
    if draw.smart {
        lemma_first_maximum(piece_values(v, v.turn, moves, draw.roll as int));
        let i = first_maximum(piece_values(v, v.turn, moves, draw.roll as int));
        assert(v.legal(moves[i] as int, draw.roll as int));
    } else {
        let i = (draw.pick as int) % (moves.len() as int);
        assert(0 <= i < moves.len());
        assert(v.legal(moves[i] as int, draw.roll as int));
    }
}

/// A turn keeps the board consistent.
pub proof fn lemma_turn_keeps_board(v: GameView, draw: Draw)
    requires
        v.wf(),
    ensures
        after_turn(v, draw).wf(),
{
    if v.legal_moves(draw.roll as int).len() == 0 {
        lemma_turn_keeps_wf(v, v.turn);
    } else {
        lemma_chosen_piece(v, draw);
        lemma_move_keeps_wf(v, chosen_piece(v, draw) as int, draw.roll as int);
    }
}

/// A turn in which no piece can come home changes no score, and leaves
/// every piece out of reach for one turn less.
pub proof fn lemma_turn_out_of_reach(v: GameView, draw: Draw, turns: int)
    requires
        v.wf(),
        draw.roll <= 4,
        turns >= 1,
        out_of_reach(v, turns),
    ensures
        after_turn(v, draw).wf(),
        out_of_reach(after_turn(v, draw), turns - 1),
        after_turn(v, draw).score(FastPlayer::One) == v.score(FastPlayer::One),
        after_turn(v, draw).score(FastPlayer::Two) == v.score(FastPlayer::Two),
{
    let w = after_turn(v, draw);
    lemma_turn_keeps_board(v, draw);
    if v.legal_moves(draw.roll as int).len() == 0 {
        assert forall|player: FastPlayer, piece: int| 0 <= piece < 7 implies #[trigger] w.position(
            player,
            piece,
        ) == v.position(player, piece) by {}
    } else {
        let chosen = chosen_piece(v, draw) as int;
        lemma_chosen_piece(v, draw);
        lemma_move_in_reach(v, chosen, draw.roll as int, turns);
    }
}

/// The same of a legal move.
pub proof fn lemma_move_in_reach(v: GameView, piece: int, roll: int, turns: int)
    requires
        v.wf(),
        v.legal(piece, roll),
        roll <= 4,
        turns >= 1,
        out_of_reach(v, turns),
    ensures
        out_of_reach(v.after_move(piece, roll), turns - 1),
        v.after_move(piece, roll).score(FastPlayer::One) == v.score(FastPlayer::One),
        v.after_move(piece, roll).score(FastPlayer::Two) == v.score(FastPlayer::Two),
{
    let w = v.after_move(piece, roll);
    let me = v.turn;
    lemma_legal_move(v, piece, roll);
    lemma_move_effect(v, piece, roll);
    assert(v.position(me, piece) == 15 || v.position(me, piece) + 4 * turns < 15);
    assert forall|player: FastPlayer, k: int| 0 <= k < 7 implies #[trigger] w.position(player, k)
        == 15 || w.position(player, k) + 4 * (turns - 1) < 15 by {
        assert(v.position(player, k) == 15 || v.position(player, k) + 4 * turns < 15);
        if player == me {
            assert(w.position(me, k) == if k == piece {
                v.move_record(piece, roll).to_pos as int
            } else {
                v.position(me, k)
            });
        } else {
            assert(w.position(me.other(), k) == if v.move_record(piece, roll).captured_piece
                == Some(k as u8) {
                0
            } else {
                v.position(me.other(), k)
            });
        }
    }
}

/// A playout too short for any piece to come home is rated by the scores it
/// starts with, whatever is drawn.
pub proof fn lemma_playout_out_of_reach(
    v: GameView,
    player: FastPlayer,
    max_depth: int,
    draws: Seq<Draw>,
)
    requires
        v.wf(),
        max_depth >= 0,
        well_drawn(draws, max_depth),
        out_of_reach(v, max_depth),
        v.score(FastPlayer::One) != 7,
        v.score(FastPlayer::Two) != 7,
    ensures
        playout_reward(v, player, max_depth, draws) == standing(v, player),
    decreases max_depth,
{
    if max_depth > 0 {
        let draw = draws[0];
        let rest = draws.drop_first();
        assert(draws =~= seq![draw] + rest);
        lemma_playout_step(v, player, max_depth, draw, rest);
        lemma_turn_out_of_reach(v, draw, max_depth);
        assert(well_drawn(rest, max_depth - 1)) by {
            assert forall|i: int| 0 <= i < rest.len() implies (#[trigger] rest[i]).roll <= 4 by {
                assert(rest[i] == draws[i + 1]);
            }
        }
        lemma_playout_out_of_reach(after_turn(v, draw), player, max_depth - 1, rest);
    }
}

/// A move and a playout after it, together too short for any piece to come
/// home, earn what the scores stand at before the move.
pub proof fn lemma_move_out_of_reach(
    v: GameView,
    player: FastPlayer,
    piece: u8,
    roll: int,
    max_depth: int,
    reward: int,
)
    requires
        v.wf(),
        v.legal(piece as int, roll),
        roll <= 4,
        max_depth >= 0,
        out_of_reach(v, max_depth + 1),
        v.score(FastPlayer::One) != 7,
        v.score(FastPlayer::Two) != 7,
        possible_reward(v, player, piece, roll, max_depth, reward),
    ensures
        reward == standing(v, player),
{
    let draws = choose|draws: Seq<Draw>| #[trigger]
        well_drawn(draws, max_depth) && reward == move_reward(
            v,
            player,
            piece,
            roll,
            max_depth,
            draws,
        );
    lemma_move_in_reach(v, piece as int, roll, max_depth + 1);
    lemma_move_keeps_wf(v, piece as int, roll);
    lemma_playout_out_of_reach(v.after_move(piece as int, roll), player, max_depth, draws);
}

} // verus!
