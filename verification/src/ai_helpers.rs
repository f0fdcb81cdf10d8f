//! Move choosers that look one move ahead, or not at all.

use vstd::prelude::*;
use crate::chance::random_below;
use crate::choice::first_maximum;
use crate::choice::lemma_first_maximum_push;
use crate::consistency::lemma_piece_on;
use crate::model::on_board;
use crate::model::path_square;
use crate::model::rosette;
use crate::model::safe;
use crate::model::GameView;
use crate::optimized_game::FastGameState;
use crate::optimized_game::FastPlayer;

verus! {

/// What a capture on `square` is worth to `player`: a flat bonus and more
/// the further the piece taken had come; nothing where there is no capture.
pub open spec fn capture_value(v: GameView, player: FastPlayer, square: int) -> int {
    match v.occupant(square) {
        Some(holder) if holder != player && !safe(square) => match v.piece_on(holder, square) {
            Some(victim) => 150 + 5 * (v.position(holder, victim) - 1),
            None => 0,
        },
        _ => 0,
    }
}

/// What moving `piece` by `roll` is worth to `player`, looking no further
/// than the move itself. Entering is worth 50, and 200 more on a rosette.
/// Advancing to path index `t` is worth `10 * t`, 200 more on a rosette, and
/// the value of a capture. Finishing is worth 1000, and 10000 more when it is
/// the seventh piece home. A finished piece is worth nothing.
pub open spec fn move_value(v: GameView, player: FastPlayer, piece: int, roll: int) -> int {
    let code = v.position(player, piece);
    if code == 0 {
        50 + if rosette(path_square(player, 0)) {
            200int
        } else {
            0int
        }
    } else if on_board(code) {
        let target = code - 1 + roll;
        if target >= 14 {
            1000 + if v.score(player) == 6 {
                10000int
            } else {
                0int
            }
        } else {
            10 * target + (if rosette(path_square(player, target)) {
                200int
            } else {
                0int
            }) + capture_value(v, player, path_square(player, target))
        }
    } else {
        0
    }
}

/// The values of the moves in `moves`, in the same order.
pub open spec fn move_values(v: GameView, player: FastPlayer, moves: Seq<u8>, roll: int) -> Seq<
    int,
> {
    Seq::new(moves.len(), |i: int| move_value(v, player, moves[i] as int, roll))
}

/// One of `moves`, each with the same chance.
pub fn choose_random_move_fast(moves: &[u8]) -> (piece: u8)
    requires
        moves@.len() > 0,
    ensures
        moves@.contains(piece),
{
    let pick = random_below(moves.len());
    moves[pick]
}

/// The move in `moves` that `move_value` rates highest; of several rated
/// equally, the first.
pub fn choose_smart_move_fast(
    game: &FastGameState,
    player: FastPlayer,
    moves: &[u8],
    roll: u8,
) -> (best: u8)
    requires
        moves@.len() > 0,
        forall|i: int| 0 <= i < moves@.len() ==> moves@[i] < 7,
    ensures
        best == moves@[first_maximum(move_values(game@, player, moves@, roll as int))],
{
    let mut best_move = moves[0];
    let mut best_score = evaluate_move_fast(game, player, moves[0], roll);
    let ghost values = move_values(game@, player, moves@, roll as int);
    let mut i: usize = 1;
    assert(values.take(1).drop_last() =~= Seq::<int>::empty());
    while i < moves.len()
        invariant
            1 <= i <= moves@.len(),
            values == move_values(game@, player, moves@, roll as int),
            forall|k: int| 0 <= k < moves@.len() ==> moves@[k] < 7,
            0 <= first_maximum(values.take(i as int)) < i,
            best_move == moves@[first_maximum(values.take(i as int))],
            best_score as int == values[first_maximum(values.take(i as int))],
        decreases moves@.len() - i,
    {
        let piece_idx = moves[i];
        let score = evaluate_move_fast(game, player, piece_idx, roll);
        proof {
            lemma_first_maximum_push(values.take(i as int), values[i as int]);
            assert(values.take(i as int).push(values[i as int]) =~= values.take(i as int + 1));
        }
        if score > best_score {
            best_score = score;
            best_move = piece_idx;
        }
        i += 1;
    }
    assert(values.take(i as int) =~= values);
    best_move
}

/// What moving `piece_idx` by `roll` is worth to `player`: see `move_value`.
pub fn evaluate_move_fast(game: &FastGameState, player: FastPlayer, piece_idx: u8, roll: u8) -> (score:
    u32)
    requires
        piece_idx < 7,
    ensures
        score as int == move_value(game@, player, piece_idx as int, roll as int),
{
    let pos = game.get_piece_pos(player, piece_idx);
    let mut score: u32 = 0;
    if pos == 0 {
        score += 50;
        let target_square = FastGameState::path_to_global(player, 0);
        if FastGameState::is_rosette(target_square) {
            score += 200;
        }
    } else if pos <= 14 {
        let new_path_idx: u16 = (pos - 1) as u16 + roll as u16;
        if new_path_idx >= 14 {
            score += 1000;
            if game.get_score(player) == 6 {
                score += 10000;
            }
        } else {
            score += new_path_idx as u32 * 10;
            let target_square = FastGameState::path_to_global(player, new_path_idx as u8);
            if FastGameState::is_rosette(target_square) {
                score += 200;
            }
            if let Some(occupant) = game.get_occupant(target_square) {
                if occupant != player && !FastGameState::is_safe(target_square) {
                    if let Some(victim) = game.piece_standing_on(occupant, target_square) {
                        proof {
                            lemma_piece_on(game@, occupant, target_square as int);
                        }
                        let opp_pos = game.get_piece_pos(occupant, victim);
                        score += 150 + (opp_pos - 1) as u32 * 5;
                    }
                }
            }
        }
    }
    score
}

} // verus!
