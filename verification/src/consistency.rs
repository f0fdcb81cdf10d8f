//! Why play keeps the board consistent: the path geometry, how the records
//! change when a piece is put elsewhere, and that moves, passes and taking
//! moves back all leave a consistent board consistent.

use vstd::prelude::*;
use crate::bits::bit;
use crate::bits::lemma_same_bits;
use crate::bits::lemma_same_nibbles;
use crate::bits::lemma_same_score_byte;
use crate::bits::nibble;
use crate::model::in_range;
use crate::model::on_board;
use crate::model::path_index;
use crate::model::path_square;
use crate::model::path_table;
use crate::model::rosette;
use crate::model::safe;
use crate::model::start;
use crate::model::GameView;
use crate::optimized_game::FastGameState;
use crate::optimized_game::FastPlayer;
use crate::optimized_game::MoveInfo;

verus! {

/// The path formula and the path table agree, every path stays on the
/// board and visits no square twice, `path_index` inverts `path_square`, and
/// the two paths meet exactly on the squares `6..=13`, at the same index.
pub proof fn lemma_paths(player: FastPlayer)
    ensures
        path_table(player).len() == 14,
        forall|idx: int| 0 <= idx < 14 ==> path_table(player)[idx] == path_square(player, idx),
        forall|idx: int| 0 <= idx < 14 ==> 0 <= #[trigger] path_square(player, idx) < 20,
        forall|idx: int|
            0 <= idx < 14 ==> path_index(player, #[trigger] path_square(player, idx)) == idx,
        forall|a: int, b: int|
            0 <= a < 14 && 0 <= b < 14 && #[trigger] path_square(player, a) == #[trigger] path_square(
                player.other(),
                b,
            ) ==> a == b && 4 <= a < 12,
        forall|idx: int|
            0 <= idx < 14 && rosette(#[trigger] path_square(player, idx)) ==> safe(
                path_square(player, idx),
            ),
{
    assert forall|idx: int| 0 <= idx < 14 implies path_table(player)[idx] == path_square(
        player,
        idx,
    ) by {
        let t = path_table(player);
        assert(t[0] == path_square(player, 0));
        assert(t[1] == path_square(player, 1));
        assert(t[2] == path_square(player, 2));
        assert(t[3] == path_square(player, 3));
        assert(t[4] == path_square(player, 4));
        assert(t[5] == path_square(player, 5));
        assert(t[6] == path_square(player, 6));
        assert(t[7] == path_square(player, 7));
        assert(t[8] == path_square(player, 8));
        assert(t[9] == path_square(player, 9));
        assert(t[10] == path_square(player, 10));
        assert(t[11] == path_square(player, 11));
        assert(t[12] == path_square(player, 12));
        assert(t[13] == path_square(player, 13));
    }
}

/// What `piece_on` finds: a piece that stands on the square, with no
/// lower-numbered piece of the same player on it; and nothing only when no
/// piece of that player stands there.
pub proof fn lemma_piece_on(v: GameView, player: FastPlayer, square: int)
    ensures
        match v.piece_on(player, square) {
            Some(piece) => {
                &&& 0 <= piece < 7
                &&& v.stands_on(player, piece, square)
                &&& forall|lower: int|
                    0 <= lower < piece ==> !#[trigger] v.stands_on(player, lower, square)
            },
            None => forall|piece: int|
                0 <= piece < 7 ==> !#[trigger] v.stands_on(player, piece, square),
        },
{
}

/// On a consistent board a piece on the board stands on a square that its
/// owner holds and the opponent does not, and it is the piece that
/// `piece_on` finds there.
pub proof fn lemma_held_squares(v: GameView, player: FastPlayer, piece: int)
    requires
        v.wf(),
        0 <= piece < 7,
        on_board(v.position(player, piece)),
    ensures
        v.occupied(player, path_square(player, v.position(player, piece) - 1)),
        !v.occupied(player.other(), path_square(player, v.position(player, piece) - 1)),
        v.piece_on(player, path_square(player, v.position(player, piece) - 1)) == Some(piece),
{
    let square = path_square(player, v.position(player, piece) - 1);
    lemma_paths(player);
    lemma_piece_on(v, player, square);
    assert(v.stands_on(player, piece, square));
    assert(v.side_wf(player));
    assert(v.occupied(player, square));
}

/// Where the pieces and held squares of both players are after one piece
/// has been put elsewhere.
pub proof fn lemma_relocated_records(v: GameView, player: FastPlayer, piece: int, code: int)
    requires
        v.pieces(player).len() == 7,
        0 <= piece < 7,
    ensures
        ({
            let w = v.relocated(player, piece, code);
            let old = v.position(player, piece);
            &&& w.pieces(player).len() == 7
            &&& w.pieces(player.other()) == v.pieces(player.other())
            &&& w.score(player.other()) == v.score(player.other())
            &&& w.score(player) == v.score(player) + in_range(code, 15, 15) - in_range(old, 15, 15)
            &&& w.turn == v.turn
            &&& forall|k: int|
                0 <= k < 7 ==> #[trigger] w.position(player, k) == if k == piece {
                    code
                } else {
                    v.position(player, k)
                }
            &&& forall|sq: int| #[trigger]
                w.occupied(player.other(), sq) == v.occupied(player.other(), sq)
            &&& forall|sq: int| #[trigger]
                w.occupied(player, sq) == ((v.occupied(player, sq) && !(on_board(old) && sq
                    == path_square(player, old - 1))) || (on_board(code) && sq == path_square(
                    player,
                    code - 1,
                )))
        }),
{
}

/// The records of a player stay consistent when one of that player's pieces
/// is put elsewhere, as long as it is not put where another already stands.
proof fn lemma_side_after_change(
    v: GameView,
    w: GameView,
    player: FastPlayer,
    piece: int,
    code: int,
)
    requires
        v.side_wf(player),
        0 <= piece < 7,
        0 <= code <= 15,
        on_board(code) ==> code == v.position(player, piece) || !v.occupied(
            player,
            path_square(player, code - 1),
        ),
        w.pieces(player).len() == 7,
        w.score(player) == v.score(player) + in_range(code, 15, 15) - in_range(
            v.position(player, piece),
            15,
            15,
        ),
        forall|k: int|
            0 <= k < 7 ==> #[trigger] w.position(player, k) == if k == piece {
                code
            } else {
                v.position(player, k)
            },
        forall|sq: int| #[trigger]
            w.occupied(player, sq) == ((v.occupied(player, sq) && !(on_board(
                v.position(player, piece),
            ) && sq == path_square(player, v.position(player, piece) - 1))) || (on_board(code)
                && sq == path_square(player, code - 1))),
    ensures
        w.side_wf(player),
{
    let old = v.position(player, piece);
    let source = path_square(player, old - 1);
    let target = path_square(player, code - 1);
    lemma_paths(player);
    lemma_piece_on(v, player, target);
    assert forall|i: int, j: int|
        0 <= i < 7 && 0 <= j < 7 && i != j && on_board(
            #[trigger] w.position(player, i),
        ) implies w.position(player, i) != #[trigger] w.position(player, j) by {
        if i == piece && code != old {
            assert(!v.stands_on(player, j, target));
        } else if j == piece && code != old && on_board(code) {
            assert(!v.stands_on(player, i, target));
        }
    }
    assert forall|sq: int| #[trigger]
        w.occupied(player, sq) <==> 0 <= sq < 20 && w.piece_on(player, sq).is_some() by {
        lemma_piece_on(v, player, sq);
        lemma_piece_on(w, player, sq);
        match v.piece_on(player, sq) {
            Some(k) => {
                assert(v.stands_on(player, k, sq));
                if k != piece {
                    assert(w.stands_on(player, k, sq));
                }
            },
            None => {},
        }
        match w.piece_on(player, sq) {
            Some(k) => {
                assert(w.stands_on(player, k, sq));
                if k != piece {
                    assert(v.stands_on(player, k, sq));
                }
            },
            None => {},
        }
        if on_board(code) && sq == target {
            assert(w.stands_on(player, piece, sq));
        }
        if on_board(old) && sq == source {
            assert(v.stands_on(player, piece, sq));
        }
    }
    assert(w.score(player) == w.finished_count(player)) by {
        lemma_count_after_change(v, w, player, piece, code, 15, 15);
    }
}

/// How a count of pieces changes when one piece changes position.
pub proof fn lemma_count_after_change(
    v: GameView,
    w: GameView,
    player: FastPlayer,
    piece: int,
    code: int,
    lo: int,
    hi: int,
)
    requires
        0 <= piece < 7,
        forall|k: int|
            0 <= k < 7 ==> #[trigger] w.position(player, k) == if k == piece {
                code
            } else {
                v.position(player, k)
            },
    ensures
        w.count_in(player, lo, hi) == v.count_in(player, lo, hi) + in_range(code, lo, hi)
            - in_range(v.position(player, piece), lo, hi),
{
    assert(w.position(player, 0) == if 0 == piece { code } else { v.position(player, 0) });
    assert(w.position(player, 1) == if 1 == piece { code } else { v.position(player, 1) });
    assert(w.position(player, 2) == if 2 == piece { code } else { v.position(player, 2) });
    assert(w.position(player, 3) == if 3 == piece { code } else { v.position(player, 3) });
    assert(w.position(player, 4) == if 4 == piece { code } else { v.position(player, 4) });
    assert(w.position(player, 5) == if 5 == piece { code } else { v.position(player, 5) });
    assert(w.position(player, 6) == if 6 == piece { code } else { v.position(player, 6) });
}

/// The records of a player stay consistent when none of them changes.
proof fn lemma_side_untouched(v: GameView, w: GameView, player: FastPlayer)
    requires
        v.side_wf(player),
        w.pieces(player) == v.pieces(player),
        w.score(player) == v.score(player),
        forall|sq: int| #[trigger] w.occupied(player, sq) == v.occupied(player, sq),
    ensures
        w.side_wf(player),
{
    assert forall|sq: int| #[trigger]
        w.occupied(player, sq) <==> 0 <= sq < 20 && w.piece_on(player, sq).is_some() by {
        assert(w.piece_on(player, sq) == v.piece_on(player, sq));
        assert(v.occupied(player, sq) <==> 0 <= sq < 20 && v.piece_on(player, sq).is_some());
    }
    assert forall|i: int| 0 <= i < 7 implies 0 <= #[trigger] w.position(player, i) <= 15 by {
        assert(w.position(player, i) == v.position(player, i));
    }
    assert forall|i: int, j: int|
        0 <= i < 7 && 0 <= j < 7 && i != j && on_board(
            #[trigger] w.position(player, i),
        ) implies w.position(player, i) != #[trigger] w.position(player, j) by {
        assert(w.position(player, i) == v.position(player, i));
        assert(w.position(player, j) == v.position(player, j));
    }
}

/// A consistent board stays consistent when one piece is put elsewhere and
/// the held squares follow it, as long as the square it comes to stand on
/// was free.
proof fn lemma_wf_after_change(v: GameView, w: GameView, player: FastPlayer, piece: int, code: int)
    requires
        v.wf(),
        0 <= piece < 7,
        0 <= code <= 15,
        on_board(code) ==> v.occupant(path_square(player, code - 1)).is_none(),
        w.pieces(player).len() == 7,
        w.pieces(player.other()) == v.pieces(player.other()),
        w.score(player.other()) == v.score(player.other()),
        w.score(player) == v.score(player) + in_range(code, 15, 15) - in_range(
            v.position(player, piece),
            15,
            15,
        ),
        forall|k: int|
            0 <= k < 7 ==> #[trigger] w.position(player, k) == if k == piece {
                code
            } else {
                v.position(player, k)
            },
        forall|sq: int| #[trigger] w.occupied(player.other(), sq) == v.occupied(player.other(), sq),
        forall|sq: int| #[trigger]
            w.occupied(player, sq) == ((v.occupied(player, sq) && !(on_board(
                v.position(player, piece),
            ) && sq == path_square(player, v.position(player, piece) - 1))) || (on_board(code)
                && sq == path_square(player, code - 1))),
    ensures
        w.wf(),
{
    let them = player.other();
    assert(v.side_wf(player) && v.side_wf(them));
    lemma_side_after_change(v, w, player, piece, code);
    lemma_side_untouched(v, w, them);
    assert forall|sq: int|
        !(#[trigger] w.occupied(FastPlayer::One, sq) && w.occupied(FastPlayer::Two, sq)) by {
        assert(!(v.occupied(FastPlayer::One, sq) && v.occupied(FastPlayer::Two, sq)));
    }
}

/// Putting one piece elsewhere keeps the board consistent, as long as the
/// square it comes to stand on was free.
pub proof fn lemma_relocated_keeps_wf(v: GameView, player: FastPlayer, piece: int, code: int)
    requires
        v.wf(),
        0 <= piece < 7,
        0 <= code <= 15,
        on_board(code) ==> v.occupant(path_square(player, code - 1)).is_none(),
    ensures
        v.relocated(player, piece, code).wf(),
{
    assert(v.side_wf(player));
    lemma_relocated_records(v, player, piece, code);
    lemma_wf_after_change(v, v.relocated(player, piece, code), player, piece, code);
}

/// Whose turn it is has no part in the consistency of the board.
pub proof fn lemma_turn_keeps_wf(v: GameView, player: FastPlayer)
    requires
        v.wf(),
    ensures
        v.with_turn(player).wf(),
        v.passed().wf(),
{
    let w = v.with_turn(player);
    let p = v.passed();
    assert(v.side_wf(FastPlayer::One) && v.side_wf(FastPlayer::Two));
    lemma_side_untouched(v, w, FastPlayer::One);
    lemma_side_untouched(v, w, FastPlayer::Two);
    lemma_side_untouched(v, p, FastPlayer::One);
    lemma_side_untouched(v, p, FastPlayer::Two);
    assert forall|sq: int|
        !(#[trigger] w.occupied(FastPlayer::One, sq) && w.occupied(FastPlayer::Two, sq)) by {
        assert(!(v.occupied(FastPlayer::One, sq) && v.occupied(FastPlayer::Two, sq)));
    }
    assert forall|sq: int|
        !(#[trigger] p.occupied(FastPlayer::One, sq) && p.occupied(FastPlayer::Two, sq)) by {
        assert(!(v.occupied(FastPlayer::One, sq) && v.occupied(FastPlayer::Two, sq)));
    }
}

/// The start of a game is consistent.
pub proof fn lemma_start_is_wf()
    ensures
        start().wf(),
{
    let v = start();
    assert forall|player: FastPlayer| v.side_wf(player) by {
        assert forall|sq: int| #[trigger]
            v.occupied(player, sq) <==> 0 <= sq < 20 && v.piece_on(player, sq).is_some() by {
            lemma_piece_on(v, player, sq);
            assert(!v.stands_on(player, 0, sq));
        }
    }
}

/// What a legal move is made of: a piece of the mover that is not finished,
/// a destination one to fifteen, a landing square that the mover does not
/// hold, and, where the opponent holds it, the one opposing piece there.
pub proof fn lemma_legal_move(v: GameView, piece: int, roll: int)
    requires
        v.wf(),
        v.legal(piece, roll),
    ensures
        0 <= piece < 7,
        roll >= 1,
        ({
            let me = v.turn;
            let from = v.position(me, piece);
            let to = v.destination(piece, roll).unwrap();
            let target = v.landing_square(piece, roll);
            let info = v.move_record(piece, roll);
            &&& 0 <= from <= 14
            &&& from < to <= 15
            &&& from == 0 ==> to == 1
            &&& from >= 1 ==> to == from + roll
            &&& info.piece_idx == piece
            &&& info.from_pos == from
            &&& info.to_pos == to
            &&& on_board(to) ==> !v.occupied(me, target)
            &&& on_board(to) && v.occupied(me.other(), target) ==> {
                &&& !safe(target)
                &&& 6 <= target <= 13
                &&& info.captured_piece.is_some()
                &&& info.captured_piece.unwrap() < 7
                &&& v.stands_on(me.other(), info.captured_piece.unwrap() as int, target)
            }
            &&& !(on_board(to) && v.occupied(me.other(), target))
                ==> info.captured_piece.is_none()
        }),
{
    let me = v.turn;
    let them = me.other();
    let to = v.destination(piece, roll).unwrap();
    let target = v.landing_square(piece, roll);
    assert(v.side_wf(me) && v.side_wf(them));
    assert(0 <= v.position(me, piece) <= 15);
    lemma_paths(me);
    lemma_paths(them);
    if on_board(to) {
        lemma_piece_on(v, them, target);
        assert(!(v.occupied(FastPlayer::One, target) && v.occupied(FastPlayer::Two, target)));
        if v.occupied(them, target) {
            let c = v.piece_on(them, target).unwrap();
            assert(v.stands_on(them, c, target));
            assert(path_square(them, v.position(them, c) - 1) == path_square(me, to - 1));
        }
    }
}

/// A legal move keeps the board consistent.
pub proof fn lemma_move_keeps_wf(v: GameView, piece: int, roll: int)
    requires
        v.wf(),
        v.legal(piece, roll),
    ensures
        v.after_move(piece, roll).wf(),
{
    let me = v.turn;
    let them = me.other();
    let info = v.move_record(piece, roll);
    let to = info.to_pos as int;
    let target = v.landing_square(piece, roll);
    lemma_legal_move(v, piece, roll);
    let cleared = match info.captured_piece {
        Some(victim) => v.relocated(them, victim as int, 0),
        None => v,
    };
    assert(v.side_wf(me) && v.side_wf(them));
    match info.captured_piece {
        Some(victim) => {
            lemma_relocated_keeps_wf(v, them, victim as int, 0);
            lemma_relocated_records(v, them, victim as int, 0);
        },
        None => {},
    }
    assert(cleared.wf());
    assert(cleared.position(me, piece) == v.position(me, piece));
    assert(on_board(to) ==> cleared.occupant(target).is_none());
    lemma_relocated_keeps_wf(cleared, me, piece, to);
    let moved = cleared.relocated(me, piece, to);
    lemma_turn_keeps_wf(moved, v.turn.other());
}

/// Taking back a move keeps the board consistent.
pub proof fn lemma_revert_keeps_wf(v: GameView, player: FastPlayer, info: MoveInfo)
    requires
        v.wf(),
        v.can_undo(player, info),
    ensures
        v.revert(player, info).wf(),
{
    let them = player.other();
    let piece = info.piece_idx as int;
    let from = info.from_pos as int;
    let to = info.to_pos as int;
    let target = path_square(player, to - 1);
    lemma_paths(player);
    lemma_paths(them);
    assert(v.side_wf(player) && v.side_wf(them));
    lemma_relocated_keeps_wf(v, player, piece, from);
    lemma_relocated_records(v, player, piece, from);
    let back = v.relocated(player, piece, from);
    let restored = match info.captured_piece {
        Some(victim) => {
            let code = path_index(them, target) + 1;
            lemma_held_squares(v, player, piece);
            assert(path_square(them, code - 1) == target);
            assert(back.occupant(target).is_none());
            lemma_relocated_keeps_wf(back, them, victim as int, code);
            back.relocated(them, victim as int, code)
        },
        None => back,
    };
    lemma_turn_keeps_wf(restored, player);
}

/// Counting the pieces one by one gives the count of all seven.
pub proof fn lemma_count_below(v: GameView, player: FastPlayer, lo: int, hi: int)
    ensures
        v.count_below(player, lo, hi, 7) == v.count_in(player, lo, hi),
{
    reveal_with_fuel(GameView::count_below, 8);
}

/// A packed board without stray bits is known by what it stands for: two
/// such boards with the same positions, held squares, scores and turn are
/// the same bit for bit.
pub proof fn lemma_view_determines_state(a: FastGameState, b: FastGameState)
    requires
        a.canonical(),
        b.canonical(),
        a@ == b@,
    ensures
        a == b,
{
    assert forall|slot: int| 0 <= slot < 14 implies nibble(a.piece_positions, slot) == nibble(
        b.piece_positions,
        slot,
    ) by {
        if slot < 7 {
            assert(a@.pieces_one[slot] == nibble(a.piece_positions, slot));
            assert(b@.pieces_one[slot] == nibble(b.piece_positions, slot));
        } else {
            assert(a@.pieces_two[slot - 7] == nibble(a.piece_positions, 7 + (slot - 7)));
            assert(b@.pieces_two[slot - 7] == nibble(b.piece_positions, 7 + (slot - 7)));
        }
    }
    lemma_same_nibbles(a.piece_positions, b.piece_positions);
    assert forall|idx: int| 0 <= idx < 40 implies bit(a.occupied_squares, idx) == bit(
        b.occupied_squares,
        idx,
    ) by {
        if idx < 20 {
            assert(a@.squares_one.contains(idx) == bit(a.occupied_squares, idx));
            assert(b@.squares_one.contains(idx) == bit(b.occupied_squares, idx));
        } else {
            assert(a@.squares_two.contains(idx - 20) == bit(a.occupied_squares, 20 + (idx - 20)));
            assert(b@.squares_two.contains(idx - 20) == bit(b.occupied_squares, 20 + (idx - 20)));
        }
    }
    lemma_same_bits(a.occupied_squares, b.occupied_squares);
    assert(a@.score_one == b@.score_one);
    assert(a@.score_two == b@.score_two);
    assert(a@.turn == b@.turn);
    lemma_same_score_byte(a.scores_and_turn, b.scores_and_turn);
}

} // verus!
