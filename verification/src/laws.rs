//! What holds of every game: the board stays consistent whatever is played,
//! pieces are neither lost nor doubled, a move taken back leaves no trace,
//! and finishing, capturing and the extra turn work as the rules say.

use vstd::prelude::*;
use crate::consistency::lemma_count_after_change;
use crate::consistency::lemma_held_squares;
use crate::consistency::lemma_legal_move;
use crate::consistency::lemma_move_keeps_wf;
use crate::consistency::lemma_paths;
use crate::consistency::lemma_piece_on;
use crate::consistency::lemma_relocated_records;
use crate::consistency::lemma_start_is_wf;
use crate::consistency::lemma_turn_keeps_wf;
use crate::consistency::lemma_view_determines_state;
use crate::model::after_steps;
use crate::model::in_range;
use crate::model::on_board;
use crate::model::path_index;
use crate::model::path_square;
use crate::model::reachable;
use crate::model::rosette;
use crate::model::safe;
use crate::model::GameView;
use crate::model::Step;
use crate::optimized_game::FastGameState;
use crate::optimized_game::FastPlayer;
use crate::stats::pieces_lost;

verus! {

/// Whatever is played from the start of a game, the board stays consistent.
pub proof fn lemma_play_keeps_wf(steps: Seq<Step>)
    ensures
        after_steps(steps).wf(),
    decreases steps.len(),
{
    if steps.len() == 0 {
        lemma_start_is_wf();
    } else {
        lemma_play_keeps_wf(steps.drop_last());
        let before = after_steps(steps.drop_last());
        match steps.last() {
            Step::Move { piece, roll } => {
                if before.legal(piece, roll) {
                    lemma_move_keeps_wf(before, piece, roll);
                }
            },
            Step::Pass => {
                lemma_turn_keeps_wf(before, before.turn);
            },
        }
    }
}

/// In every state that play can reach, no square has two occupants, the
/// squares a player holds are exactly those under that player's pieces on
/// the board, each player's pieces are seven in all, and the score counts
/// the finished ones.
pub proof fn lemma_reachable_states(v: GameView)
    requires
        reachable(v),
    ensures
        v.wf(),
        forall|square: int|
            !(#[trigger] v.occupied(FastPlayer::One, square) && v.occupied(
                FastPlayer::Two,
                square,
            )),
        forall|player: FastPlayer, square: int| #[trigger]
            v.occupied(player, square) <==> exists|piece: int|
                0 <= piece < 7 && #[trigger] v.stands_on(player, piece, square),
        forall|player: FastPlayer| #[trigger]
            v.off_board_count(player) + v.on_board_count(player) + v.finished_count(player) == 7,
        forall|player: FastPlayer| #[trigger] v.score(player) == v.finished_count(player),
{
    let steps = choose|steps: Seq<Step>| v == after_steps(steps);
    lemma_play_keeps_wf(steps);
    lemma_occupancy(v);
    assert forall|player: FastPlayer| #[trigger]
        v.off_board_count(player) + v.on_board_count(player) + v.finished_count(player) == 7 by {
        lemma_conservation(v, player);
    }
    assert forall|player: FastPlayer| #[trigger] v.score(player) == v.finished_count(player) by {
        lemma_conservation(v, player);
    }
}

/// On a consistent board no square has two occupants; a square is held by
/// a player exactly when one of that player's pieces stands on it; and a
/// piece on the board stands on a square held by its owner, and is the only
/// piece there.
pub proof fn lemma_occupancy(v: GameView)
    requires
        v.wf(),
    ensures
        forall|square: int|
            !(#[trigger] v.occupied(FastPlayer::One, square) && v.occupied(
                FastPlayer::Two,
                square,
            )),
        forall|player: FastPlayer, square: int| #[trigger]
            v.occupied(player, square) <==> exists|piece: int|
                0 <= piece < 7 && #[trigger] v.stands_on(player, piece, square),
        forall|player: FastPlayer, piece: int, other: int, square: int|
            0 <= piece < 7 && 0 <= other < 7 && #[trigger] v.stands_on(player, piece, square)
                && #[trigger] v.stands_on(player, other, square) ==> piece == other,
        forall|player: FastPlayer, piece: int, other: int, square: int|
            0 <= piece < 7 && 0 <= other < 7 && #[trigger] v.stands_on(player, piece, square)
                ==> !#[trigger] v.stands_on(player.other(), other, square),
{
    assert forall|player: FastPlayer, square: int| #[trigger]
        v.occupied(player, square) <==> exists|piece: int|
            0 <= piece < 7 && #[trigger] v.stands_on(player, piece, square) by {
        assert(v.side_wf(player));
        lemma_piece_on(v, player, square);
        lemma_paths(player);
        if v.occupied(player, square) {
            assert(v.stands_on(player, v.piece_on(player, square).unwrap(), square));
        }
    }
    assert forall|player: FastPlayer, piece: int, other: int, square: int|
        0 <= piece < 7 && 0 <= other < 7 && #[trigger] v.stands_on(player, piece, square)
            && #[trigger] v.stands_on(player, other, square) implies piece == other by {
        assert(v.side_wf(player));
        lemma_paths(player);
    }
    assert forall|player: FastPlayer, piece: int, other: int, square: int|
        0 <= piece < 7 && 0 <= other < 7 && #[trigger] v.stands_on(
            player,
            piece,
            square,
        ) implies !#[trigger] v.stands_on(player.other(), other, square) by {
        lemma_held_squares(v, player, piece);
        if v.stands_on(player.other(), other, square) {
            lemma_held_squares(v, player.other(), other);
        }
    }
}

/// Each player's pieces are seven in all, whether off the board, on it or
/// finished, and on a consistent board the score counts the finished ones.
pub proof fn lemma_conservation(v: GameView, player: FastPlayer)
    requires
        v.wf(),
    ensures
        v.off_board_count(player) + v.on_board_count(player) + v.finished_count(player) == 7,
        v.score(player) == v.finished_count(player),
        0 <= v.score(player) <= 7,
{
    assert(v.side_wf(player));
    lemma_three_counts(
        v.position(player, 0),
        v.position(player, 1),
        v.position(player, 2),
        v.position(player, 3),
        v.position(player, 4),
        v.position(player, 5),
        v.position(player, 6),
    );
}

/// A position code is off the board, on it or finished, and only one of
/// the three.
proof fn lemma_one_of_three(code: int)
    requires
        0 <= code <= 15,
    ensures
        in_range(code, 0, 0) + in_range(code, 1, 14) + in_range(code, 15, 15) == 1,
        0 <= in_range(code, 15, 15) <= 1,
{
}

/// Seven position codes fall into the three kinds seven times in all.
proof fn lemma_three_counts(c0: int, c1: int, c2: int, c3: int, c4: int, c5: int, c6: int)
    requires
        0 <= c0 <= 15,
        0 <= c1 <= 15,
        0 <= c2 <= 15,
        0 <= c3 <= 15,
        0 <= c4 <= 15,
        0 <= c5 <= 15,
        0 <= c6 <= 15,
    ensures
        (in_range(c0, 0, 0) + in_range(c1, 0, 0) + in_range(c2, 0, 0) + in_range(c3, 0, 0)
            + in_range(c4, 0, 0) + in_range(c5, 0, 0) + in_range(c6, 0, 0)) + (in_range(c0, 1, 14)
            + in_range(c1, 1, 14) + in_range(c2, 1, 14) + in_range(c3, 1, 14) + in_range(c4, 1, 14)
            + in_range(c5, 1, 14) + in_range(c6, 1, 14)) + (in_range(c0, 15, 15) + in_range(
            c1,
            15,
            15,
        ) + in_range(c2, 15, 15) + in_range(c3, 15, 15) + in_range(c4, 15, 15) + in_range(
            c5,
            15,
            15,
        ) + in_range(c6, 15, 15)) == 7,
        0 <= in_range(c0, 15, 15) + in_range(c1, 15, 15) + in_range(c2, 15, 15) + in_range(
            c3,
            15,
            15,
        ) + in_range(c4, 15, 15) + in_range(c5, 15, 15) + in_range(c6, 15, 15) <= 7,
{
    lemma_one_of_three(c0);
    lemma_one_of_three(c1);
    lemma_one_of_three(c2);
    lemma_one_of_three(c3);
    lemma_one_of_three(c4);
    lemma_one_of_three(c5);
    lemma_one_of_three(c6);
}

/// Taking back a move that was just made gives the state before it: the
/// state after a legal move accepts the record of that move, and reverting
/// by it restores every position, every held square, both scores and the
/// turn.
pub proof fn lemma_unmake_inverts_make(v: GameView, piece: int, roll: int)
    requires
        v.wf(),
        v.legal(piece, roll),
    ensures
        v.after_move(piece, roll).can_undo(v.turn, v.move_record(piece, roll)),
        v.after_move(piece, roll).revert(v.turn, v.move_record(piece, roll)) == v,
{
    let me = v.turn;
    let them = me.other();
    let info = v.move_record(piece, roll);
    let from = info.from_pos as int;
    let to = info.to_pos as int;
    let target = v.landing_square(piece, roll);
    let source = path_square(me, from - 1);
    lemma_legal_move(v, piece, roll);
    lemma_paths(me);
    lemma_paths(them);
    assert(v.side_wf(me) && v.side_wf(them));
    let cleared = match info.captured_piece {
        Some(victim) => v.relocated(them, victim as int, 0),
        None => v,
    };
    match info.captured_piece {
        Some(victim) => {
            lemma_relocated_records(v, them, victim as int, 0);
        },
        None => {},
    }
    lemma_relocated_records(cleared, me, piece, to);
    let moved = cleared.relocated(me, piece, to);
    let w = v.after_move(piece, roll);
    assert(w == if info.extra_turn {
        moved
    } else {
        moved.with_turn(them)
    });
    if on_board(from) {
        lemma_held_squares(v, me, piece);
    }
    assert(w.can_undo(me, info));
    lemma_relocated_records(w, me, piece, from);
    let back = w.relocated(me, piece, from);
    let restored = match info.captured_piece {
        Some(victim) => {
            let code = path_index(them, target) + 1;
            assert(v.position(them, victim as int) == code);
            lemma_relocated_records(back, them, victim as int, code);
            back.relocated(them, victim as int, code)
        },
        None => back,
    };
    let u = restored.with_turn(me);
    assert(u == w.revert(me, info));
    assert(u.pieces(me) =~= v.pieces(me));
    assert(u.pieces(them) =~= v.pieces(them));
    assert(u.squares_one =~= v.squares_one);
    assert(u.squares_two =~= v.squares_two);
    assert(u.score(me) == v.score(me));
    assert(u.score(them) == v.score(them));
    assert(u =~= v);
}

/// A move made and taken back leaves the packed board as it was, bit for
/// bit: if `made` holds the state after a legal move from `before`, and
/// `undone` holds what taking that move back makes of it, then `undone` is
/// `before`.
pub proof fn lemma_round_trip_is_exact(
    before: FastGameState,
    made: FastGameState,
    undone: FastGameState,
    piece: int,
    roll: int,
)
    requires
        before.wf(),
        before@.legal(piece, roll),
        made@ == before@.after_move(piece, roll),
        undone.canonical(),
        undone@ == made@.revert(before@.turn, before@.move_record(piece, roll)),
    ensures
        undone == before,
{
    lemma_unmake_inverts_make(before@, piece, roll);
    lemma_view_determines_state(undone, before);
}

/// Where everything is after a legal move: the mover at its destination,
/// a captured piece off the board, every other piece where it was; the
/// mover's score one higher if the piece finished, the opponent's score as
/// it was; and the same player to move exactly when the move landed on a
/// rosette.
pub proof fn lemma_move_effect(v: GameView, piece: int, roll: int)
    requires
        v.wf(),
        v.legal(piece, roll),
    ensures
        ({
            let me = v.turn;
            let them = me.other();
            let w = v.after_move(piece, roll);
            let info = v.move_record(piece, roll);
            &&& forall|k: int|
                0 <= k < 7 ==> #[trigger] w.position(me, k) == if k == piece {
                    info.to_pos as int
                } else {
                    v.position(me, k)
                }
            &&& forall|k: int|
                0 <= k < 7 ==> #[trigger] w.position(them, k) == if info.captured_piece == Some(
                    k as u8,
                ) {
                    0
                } else {
                    v.position(them, k)
                }
            &&& w.score(me) == v.score(me) + if info.to_pos == 15 {
                1int
            } else {
                0int
            }
            &&& w.score(them) == v.score(them)
            &&& w.turn == if info.extra_turn {
                me
            } else {
                them
            }
        }),
{
    let me = v.turn;
    let them = me.other();
    let info = v.move_record(piece, roll);
    lemma_legal_move(v, piece, roll);
    assert(v.side_wf(me) && v.side_wf(them));
    let cleared = match info.captured_piece {
        Some(victim) => v.relocated(them, victim as int, 0),
        None => v,
    };
    match info.captured_piece {
        Some(victim) => {
            lemma_relocated_records(v, them, victim as int, 0);
        },
        None => {},
    }
    lemma_relocated_records(cleared, me, piece, info.to_pos as int);
}

/// A piece leaves the board only by an exact roll: from path index `p` a
/// roll that reaches index 14 may always be made and finishes the piece, a
/// roll that stops short leaves it on the board, and a roll that would go
/// beyond is not legal.
pub proof fn lemma_finish_is_exact(v: GameView, piece: int, roll: int)
    requires
        v.wf(),
        0 <= piece < 7,
        roll >= 1,
        on_board(v.position(v.turn, piece)),
    ensures
        ({
            let p = v.position(v.turn, piece) - 1;
            &&& p + roll > 14 ==> !v.legal(piece, roll)
            &&& p + roll == 14 ==> v.legal(piece, roll) && v.after_move(piece, roll).position(
                v.turn,
                piece,
            ) == 15 && v.after_move(piece, roll).score(v.turn) == v.score(v.turn) + 1
            &&& p + roll < 14 && v.legal(piece, roll) ==> v.after_move(piece, roll).position(
                v.turn,
                piece,
            ) == p + roll + 1 && v.after_move(piece, roll).score(v.turn) == v.score(v.turn)
        }),
{
    if v.legal(piece, roll) {
        lemma_move_effect(v, piece, roll);
    }
}

/// Landing on a square that the opponent holds sends the piece there back
/// off the board: the move is legal only if the square is not safe, its
/// record names the one opposing piece that stood there, and afterwards that
/// piece is off the board, the square is the mover's, and neither score has
/// changed.
pub proof fn lemma_capture(v: GameView, piece: int, roll: int)
    requires
        v.wf(),
        v.legal(piece, roll),
        on_board(v.destination(piece, roll).unwrap()),
        v.occupied(v.turn.other(), v.landing_square(piece, roll)),
    ensures
        ({
            let me = v.turn;
            let them = me.other();
            let target = v.landing_square(piece, roll);
            let w = v.after_move(piece, roll);
            &&& !safe(target)
            &&& v.move_record(piece, roll).captured_piece matches Some(victim)
            &&& victim < 7
            &&& v.stands_on(them, victim as int, target)
            &&& w.position(them, victim as int) == 0
            &&& !w.occupied(them, target)
            &&& w.occupied(me, target)
            &&& w.score(me) == v.score(me)
            &&& w.score(them) == v.score(them)
        }),
{
    let me = v.turn;
    let them = me.other();
    lemma_legal_move(v, piece, roll);
    lemma_move_effect(v, piece, roll);
    lemma_move_keeps_wf(v, piece, roll);
    let w = v.after_move(piece, roll);
    lemma_held_squares(w, me, piece);
}

/// A move that lands on a rosette leaves the mover to move again; any other
/// move hands the turn to the opponent.
pub proof fn lemma_extra_turn(v: GameView, piece: int, roll: int)
    requires
        v.wf(),
        v.legal(piece, roll),
    ensures
        v.after_move(piece, roll).turn == if on_board(v.destination(piece, roll).unwrap())
            && rosette(v.landing_square(piece, roll)) {
            v.turn
        } else {
            v.turn.other()
        },
        v.move_record(piece, roll).extra_turn == (on_board(v.destination(piece, roll).unwrap())
            && rosette(v.landing_square(piece, roll))),
{
    lemma_move_effect(v, piece, roll);
}

/// A move takes a piece of the opponent from the board exactly when it
/// captures, and then just one.
pub proof fn lemma_capture_is_counted(v: GameView, piece: int, roll: int)
    requires
        v.wf(),
        v.legal(piece, roll),
    ensures
        pieces_lost(v, v.after_move(piece, roll), v.turn.other()) == if v.move_record(
            piece,
            roll,
        ).captured_piece.is_some() {
            1int
        } else {
            0int
        },
{
    let them = v.turn.other();
    let w = v.after_move(piece, roll);
    lemma_legal_move(v, piece, roll);
    lemma_move_effect(v, piece, roll);
    match v.move_record(piece, roll).captured_piece {
        Some(victim) => {
            assert forall|k: int| 0 <= k < 7 implies #[trigger] w.position(them, k) == if k
                == victim as int {
                0
            } else {
                v.position(them, k)
            } by {
                if v.move_record(piece, roll).captured_piece == Some(k as u8) {
                    assert(k as u8 == victim);
                }
            }
            lemma_count_after_change(v, w, them, victim as int, 0, 1, 14);
        },
        None => {
            assert forall|k: int| 0 <= k < 7 implies #[trigger] w.position(them, k) == if k == 0 {
                v.position(them, 0)
            } else {
                v.position(them, k)
            } by {}
            lemma_count_after_change(v, w, them, 0, v.position(them, 0), 1, 14);
        },
    }
}

} // verus!
