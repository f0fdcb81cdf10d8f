//! The list of legal moves, piece by piece.

use vstd::prelude::*;
use crate::model::GameView;

verus! {

/// The piece alone if its move is legal, and nothing otherwise.
pub open spec fn kept(v: GameView, roll: int, piece: u8) -> Seq<u8> {
    if v.legal(piece as int, roll) {
        seq![piece]
    } else {
        Seq::empty()
    }
}

/// The list of legal moves grows piece by piece: a piece is appended exactly
/// when its move is legal.
pub proof fn lemma_legal_moves_step(v: GameView, roll: int, upto: int)
    requires
        0 <= upto < 256,
    ensures
        v.legal_moves_below(roll, 0) == Seq::<u8>::empty(),
        v.legal_moves_below(roll, upto + 1) == if v.legal(upto, roll) {
            v.legal_moves_below(roll, upto).push(upto as u8)
        } else {
            v.legal_moves_below(roll, upto)
        },
{
    reveal(Seq::filter);
    let wanted = |piece: u8| v.legal(piece as int, roll);
    let longer = Seq::new((upto + 1) as nat, |i: int| i as u8);
    let shorter = Seq::new(upto as nat, |i: int| i as u8);
    assert(longer.drop_last() =~= shorter);
    assert(longer.last() == upto as u8);
    assert(Seq::new(0nat, |i: int| i as u8).filter(wanted) =~= Seq::<u8>::empty());
}

/// The list of legal moves, written out: each of the seven pieces in turn,
/// kept if its move is legal and left out if not.
pub proof fn lemma_legal_moves_written_out(v: GameView, roll: int)
    ensures
        v.legal_moves(roll) == kept(v, roll, 0) + kept(v, roll, 1) + kept(v, roll, 2) + kept(
            v,
            roll,
            3,
        ) + kept(v, roll, 4) + kept(v, roll, 5) + kept(v, roll, 6),
{
    lemma_legal_moves_step(v, roll, 0);
    lemma_legal_moves_step(v, roll, 1);
    lemma_legal_moves_step(v, roll, 2);
    lemma_legal_moves_step(v, roll, 3);
    lemma_legal_moves_step(v, roll, 4);
    lemma_legal_moves_step(v, roll, 5);
    lemma_legal_moves_step(v, roll, 6);
    assert(v.legal_moves(roll) =~= kept(v, roll, 0) + kept(v, roll, 1) + kept(v, roll, 2) + kept(
        v,
        roll,
        3,
    ) + kept(v, roll, 4) + kept(v, roll, 5) + kept(v, roll, 6));
}

/// The list of legal moves names each legal piece once, in ascending order,
/// and nothing else.
pub proof fn lemma_legal_moves(v: GameView, roll: int)
    ensures
        v.legal_moves(roll).len() <= 7,
        forall|i: int|
            0 <= i < v.legal_moves(roll).len() ==> (#[trigger] v.legal_moves(roll)[i]) < 7
                && v.legal(v.legal_moves(roll)[i] as int, roll),
        forall|i: int, j: int|
            0 <= i < j < v.legal_moves(roll).len() ==> v.legal_moves(roll)[i] < v.legal_moves(
                roll,
            )[j],
        forall|piece: u8|
            v.legal(piece as int, roll) ==> #[trigger] v.legal_moves(roll).contains(piece),
{
    lemma_legal_moves_below(v, roll, 7);
    assert forall|piece: u8| v.legal(piece as int, roll) implies #[trigger] v.legal_moves(
        roll,
    ).contains(piece) by {
        assert(0 <= piece < 7);
    }
}

/// The same of the list cut off below piece `upto`.
proof fn lemma_legal_moves_below(v: GameView, roll: int, upto: int)
    requires
        0 <= upto <= 7,
    ensures
        v.legal_moves_below(roll, upto).len() <= upto,
        forall|i: int|
            0 <= i < v.legal_moves_below(roll, upto).len() ==> (#[trigger] v.legal_moves_below(
                roll,
                upto,
            )[i]) < upto && v.legal(v.legal_moves_below(roll, upto)[i] as int, roll),
        forall|i: int, j: int|
            0 <= i < j < v.legal_moves_below(roll, upto).len() ==> v.legal_moves_below(
                roll,
                upto,
            )[i] < v.legal_moves_below(roll, upto)[j],
        forall|piece: u8|
            piece < upto && v.legal(piece as int, roll) ==> #[trigger] v.legal_moves_below(
                roll,
                upto,
            ).contains(piece),
    decreases upto,
{
    if upto == 0 {
        lemma_legal_moves_step(v, roll, 0);
    } else {
        lemma_legal_moves_below(v, roll, upto - 1);
        lemma_legal_moves_step(v, roll, upto - 1);
        let shorter = v.legal_moves_below(roll, upto - 1);
        let longer = v.legal_moves_below(roll, upto);
        assert forall|piece: u8| piece < upto && v.legal(piece as int, roll) implies longer.contains(
            piece,
        ) by {
            if piece < upto - 1 {
                assert(shorter.contains(piece));
                let i = choose|i: int| 0 <= i < shorter.len() && shorter[i] == piece;
                assert(longer[i] == piece);
            } else {
                assert(longer[longer.len() - 1] == piece);
            }
        }
    }
}

/// A piece may be moved exactly when the list of legal moves names it.
pub proof fn lemma_listed_iff_legal(v: GameView, piece: u8, roll: int)
    ensures
        v.legal_moves(roll).contains(piece) <==> v.legal(piece as int, roll),
{
    lemma_legal_moves(v, roll);
    if v.legal_moves(roll).contains(piece) {
        let i = choose|i: int| 0 <= i < v.legal_moves(roll).len() && v.legal_moves(roll)[i] == piece;
        assert(v.legal(v.legal_moves(roll)[i] as int, roll));
    }
}

} // verus!
