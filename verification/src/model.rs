//! The game as mathematics: board geometry, the abstract state that a packed
//! board stands for, and the rules of movement stated over it.

use vstd::prelude::*;
use crate::optimized_game::FastPlayer;
use crate::optimized_game::MoveInfo;

verus! {

/// A position code `1..=14` places a piece at path index `code - 1`.
pub open spec fn on_board(code: int) -> bool {
    1 <= code <= 14
}

/// One if `code` lies in `lo..=hi`, zero otherwise.
pub open spec fn in_range(code: int, lo: int, hi: int) -> int {
    if lo <= code <= hi {
        1
    } else {
        0
    }
}

/// The squares each player's pieces visit, in order of travel.
pub open spec fn path_table(player: FastPlayer) -> Seq<int> {
    match player {
        FastPlayer::One => seq![3, 2, 1, 0, 6, 7, 8, 9, 10, 11, 12, 13, 5, 4],
        FastPlayer::Two => seq![17, 16, 15, 14, 6, 7, 8, 9, 10, 11, 12, 13, 19, 18],
    }
}

/// The square at path index `idx` of `player`: four private entry squares,
/// the eight shared squares `6..=13`, then two private exit squares.
pub open spec fn path_square(player: FastPlayer, idx: int) -> int {
    if 4 <= idx < 12 {
        idx + 2
    } else {
        match player {
            FastPlayer::One => if idx < 4 {
                3 - idx
            } else {
                17 - idx
            },
            FastPlayer::Two => if idx < 4 {
                17 - idx
            } else {
                31 - idx
            },
        }
    }
}

/// The path index at which `player` visits `square`, or `0` for a square
/// that is not on that player's path.
pub open spec fn path_index(player: FastPlayer, square: int) -> int {
    if 6 <= square <= 13 {
        square - 2
    } else {
        match player {
            FastPlayer::One => if 0 <= square <= 3 {
                3 - square
            } else if 4 <= square <= 5 {
                17 - square
            } else {
                0
            },
            FastPlayer::Two => if 14 <= square <= 17 {
                17 - square
            } else if 18 <= square <= 19 {
                31 - square
            } else {
                0
            },
        }
    }
}

/// Landing exactly on a rosette grants another turn.
pub open spec fn rosette(square: int) -> bool {
    square == 4 || square == 9 || square == 18
}

/// A piece on a safe square cannot be captured.
pub open spec fn safe(square: int) -> bool {
    square == 0 || square == 4 || square == 9 || square == 14 || square == 18
}

/// The state of a game: where each piece is, which squares each player
/// holds, the scores and whose turn it is.
#[verifier::ext_equal]
pub struct GameView {
    /// Position codes of player one's seven pieces.
    pub pieces_one: Seq<int>,
    /// Position codes of player two's seven pieces.
    pub pieces_two: Seq<int>,
    /// Squares recorded as held by player one.
    pub squares_one: Set<int>,
    /// Squares recorded as held by player two.
    pub squares_two: Set<int>,
    /// Pieces player one has brought home.
    pub score_one: int,
    /// Pieces player two has brought home.
    pub score_two: int,
    /// The player to move.
    pub turn: FastPlayer,
}

impl GameView {
    /// The position codes of `player`'s pieces.
    pub open spec fn pieces(self, player: FastPlayer) -> Seq<int> {
        match player {
            FastPlayer::One => self.pieces_one,
            FastPlayer::Two => self.pieces_two,
        }
    }

    /// The position code of one piece.
    pub open spec fn position(self, player: FastPlayer, piece: int) -> int {
        self.pieces(player)[piece]
    }

    /// Whether `square` is recorded as held by `player`.
    pub open spec fn occupied(self, player: FastPlayer, square: int) -> bool {
        match player {
            FastPlayer::One => self.squares_one.contains(square),
            FastPlayer::Two => self.squares_two.contains(square),
        }
    }

    /// The score of `player`.
    pub open spec fn score(self, player: FastPlayer) -> int {
        match player {
            FastPlayer::One => self.score_one,
            FastPlayer::Two => self.score_two,
        }
    }

    /// Who holds `square`, if anyone.
    pub open spec fn occupant(self, square: int) -> Option<FastPlayer> {
        if self.occupied(FastPlayer::One, square) {
            Some(FastPlayer::One)
        } else if self.occupied(FastPlayer::Two, square) {
            Some(FastPlayer::Two)
        } else {
            None
        }
    }

    /// Whether `piece` of `player` is on the board at `square`.
    pub open spec fn stands_on(self, player: FastPlayer, piece: int, square: int) -> bool {
        on_board(self.position(player, piece)) && path_square(
            player,
            self.position(player, piece) - 1,
        ) == square
    }

    /// The lowest-numbered piece of `player` that stands on `square`.
    pub open spec fn piece_on(self, player: FastPlayer, square: int) -> Option<int> {
        if self.stands_on(player, 0, square) {
            Some(0int)
        } else if self.stands_on(player, 1, square) {
            Some(1int)
        } else if self.stands_on(player, 2, square) {
            Some(2int)
        } else if self.stands_on(player, 3, square) {
            Some(3int)
        } else if self.stands_on(player, 4, square) {
            Some(4int)
        } else if self.stands_on(player, 5, square) {
            Some(5int)
        } else if self.stands_on(player, 6, square) {
            Some(6int)
        } else {
            None
        }
    }

    /// How many pieces of `player` have a position code in `lo..=hi`.
    pub open spec fn count_in(self, player: FastPlayer, lo: int, hi: int) -> int {
        in_range(self.position(player, 0), lo, hi) + in_range(self.position(player, 1), lo, hi)
            + in_range(self.position(player, 2), lo, hi) + in_range(
            self.position(player, 3),
            lo,
            hi,
        ) + in_range(self.position(player, 4), lo, hi) + in_range(self.position(player, 5), lo, hi)
            + in_range(self.position(player, 6), lo, hi)
    }

    /// How many of the pieces `0..upto` of `player` have a position code in
    /// `lo..=hi`.
    pub open spec fn count_below(self, player: FastPlayer, lo: int, hi: int, upto: int) -> int
        decreases upto,
    {
        if upto <= 0 {
            0
        } else {
            self.count_below(player, lo, hi, upto - 1) + in_range(
                self.position(player, upto - 1),
                lo,
                hi,
            )
        }
    }

    /// How many pieces of `player` have not entered the board.
    pub open spec fn off_board_count(self, player: FastPlayer) -> int {
        self.count_in(player, 0, 0)
    }

    /// How many pieces of `player` are on the board.
    pub open spec fn on_board_count(self, player: FastPlayer) -> int {
        self.count_in(player, 1, 14)
    }

    /// How many pieces of `player` have finished.
    pub open spec fn finished_count(self, player: FastPlayer) -> int {
        self.count_in(player, 15, 15)
    }

    /// The records of one player agree with each other: every position is a
    /// code, no two pieces share a path index, the held squares are exactly
    /// those under a piece, and the score counts the finished pieces.
    pub open spec fn side_wf(self, player: FastPlayer) -> bool {
        &&& self.pieces(player).len() == 7
        &&& forall|i: int| 0 <= i < 7 ==> 0 <= #[trigger] self.position(player, i) <= 15
        &&& forall|i: int, j: int|
            0 <= i < 7 && 0 <= j < 7 && i != j && on_board(#[trigger] self.position(player, i))
                ==> self.position(player, i) != #[trigger] self.position(player, j)
        &&& forall|sq: int| #[trigger]
            self.occupied(player, sq) <==> 0 <= sq < 20 && self.piece_on(player, sq).is_some()
        &&& self.score(player) == self.finished_count(player)
    }

    /// The records of the state agree with each other: each side is
    /// consistent and no square is held by both players. Play keeps this
    /// true from the start of a game on.
    pub open spec fn wf(self) -> bool {
        &&& self.side_wf(FastPlayer::One)
        &&& self.side_wf(FastPlayer::Two)
        &&& forall|sq: int|
            !(#[trigger] self.occupied(FastPlayer::One, sq) && self.occupied(FastPlayer::Two, sq))
    }

    /// This state with one position code replaced.
    pub open spec fn with_piece(self, player: FastPlayer, piece: int, code: int) -> GameView {
        match player {
            FastPlayer::One => GameView { pieces_one: self.pieces_one.update(piece, code), ..self },
            FastPlayer::Two => GameView { pieces_two: self.pieces_two.update(piece, code), ..self },
        }
    }

    /// This state with `square` recorded as held (`present`) or not held by
    /// `player`.
    pub open spec fn with_square(self, player: FastPlayer, square: int, present: bool) -> GameView {
        match player {
            FastPlayer::One => GameView {
                squares_one: if present {
                    self.squares_one.insert(square)
                } else {
                    self.squares_one.remove(square)
                },
                ..self
            },
            FastPlayer::Two => GameView {
                squares_two: if present {
                    self.squares_two.insert(square)
                } else {
                    self.squares_two.remove(square)
                },
                ..self
            },
        }
    }

    /// This state with the score of `player` replaced.
    pub open spec fn with_score(self, player: FastPlayer, score: int) -> GameView {
        match player {
            FastPlayer::One => GameView { score_one: score, ..self },
            FastPlayer::Two => GameView { score_two: score, ..self },
        }
    }

    /// This state with `player` to move.
    pub open spec fn with_turn(self, player: FastPlayer) -> GameView {
        GameView { turn: player, ..self }
    }

    /// This state after the player to move has passed.
    pub open spec fn passed(self) -> GameView {
        self.with_turn(self.turn.other())
    }

    /// The position code that `piece` of the player to move would hold after
    /// advancing by `roll`: a piece off the board enters at path index 0, a
    /// piece on the board advances `roll` squares and finishes by reaching
    /// index 14 exactly. There is none for a roll below one, a piece that has
    /// finished or would overshoot, or a number that names no piece.
    pub open spec fn destination(self, piece: int, roll: int) -> Option<int> {
        let code = self.position(self.turn, piece);
        if !(0 <= piece < 7) || roll < 1 {
            None
        } else if code == 0 {
            Some(1int)
        } else if on_board(code) && code + roll <= 15 {
            Some(code + roll)
        } else {
            None
        }
    }

    /// Whether a piece of `player` may land on `square`: the square is free,
    /// or the opponent holds it and it is not safe.
    pub open spec fn can_land(self, player: FastPlayer, square: int) -> bool {
        match self.occupant(square) {
            None => true,
            Some(holder) => holder != player && !safe(square),
        }
    }

    /// Whether the player to move may move `piece` by `roll`.
    pub open spec fn legal(self, piece: int, roll: int) -> bool {
        match self.destination(piece, roll) {
            None => false,
            Some(code) => code == 15 || self.can_land(
                self.turn,
                path_square(self.turn, code - 1),
            ),
        }
    }

    /// Those of the pieces `0..upto` that the player to move may move by
    /// `roll`, in ascending order.
    pub open spec fn legal_moves_below(self, roll: int, upto: int) -> Seq<u8> {
        Seq::new(upto as nat, |i: int| i as u8).filter(|piece: u8| self.legal(piece as int, roll))
    }

    /// The pieces the player to move may move by `roll`, in ascending order.
    pub open spec fn legal_moves(self, roll: int) -> Seq<u8> {
        self.legal_moves_below(roll, 7)
    }

    /// The square on which a move of `piece` by `roll` lands. Meaningful when
    /// the destination is on the board.
    pub open spec fn landing_square(self, piece: int, roll: int) -> int {
        path_square(self.turn, self.destination(piece, roll).unwrap() - 1)
    }

    /// The opposing piece that a move of `piece` by `roll` sends off the
    /// board, if the move lands on one.
    pub open spec fn captured(self, piece: int, roll: int) -> Option<u8> {
        match self.destination(piece, roll) {
            Some(code) if on_board(code) => match self.piece_on(
                self.turn.other(),
                self.landing_square(piece, roll),
            ) {
                Some(victim) if self.occupied(
                    self.turn.other(),
                    self.landing_square(piece, roll),
                ) => Some(victim as u8),
                _ => None,
            },
            _ => None,
        }
    }

    /// Whether a move of `piece` by `roll` lands on a rosette.
    pub open spec fn earns_extra_turn(self, piece: int, roll: int) -> bool {
        match self.destination(piece, roll) {
            Some(code) => on_board(code) && rosette(self.landing_square(piece, roll)),
            None => false,
        }
    }

    /// Whether `player` can make the move that `info` records: the record
    /// names a piece of that player that has not finished, says where it is
    /// and sends it to a position on or beyond the board, and a piece it
    /// captures is on the board.
    pub open spec fn can_apply(self, player: FastPlayer, info: MoveInfo) -> bool {
        &&& info.piece_idx < 7
        &&& info.from_pos == self.position(player, info.piece_idx as int)
        &&& info.from_pos <= 14
        &&& 1 <= info.to_pos <= 15
        &&& info.to_pos == 15 ==> self.score(player) < 7
        &&& match info.captured_piece {
            Some(victim) => victim < 7 && on_board(self.position(player.other(), victim as int)),
            None => true,
        }
    }

    /// The record of a legal move of `piece` by `roll`.
    pub open spec fn move_record(self, piece: int, roll: int) -> MoveInfo {
        MoveInfo {
            piece_idx: piece as u8,
            from_pos: self.position(self.turn, piece) as u8,
            to_pos: self.destination(piece, roll).unwrap() as u8,
            captured_piece: self.captured(piece, roll),
            extra_turn: self.earns_extra_turn(piece, roll),
        }
    }

    /// This state with `piece` of `player` taken from where it is and put at
    /// position `code`: the square it stood on is given up, the square it
    /// comes to stand on is taken, and the score follows the piece into and
    /// out of the finished position.
    pub open spec fn relocated(self, player: FastPlayer, piece: int, code: int) -> GameView {
        let old = self.position(player, piece);
        let lifted = if on_board(old) {
            self.with_square(player, path_square(player, old - 1), false)
        } else {
            self
        };
        let moved = lifted.with_piece(player, piece, code);
        let landed = if on_board(code) {
            moved.with_square(player, path_square(player, code - 1), true)
        } else {
            moved
        };
        landed.with_score(
            player,
            self.score(player) + in_range(code, 15, 15) - in_range(old, 15, 15),
        )
    }

    /// The state after `player` has made the move that `info` records: a
    /// captured piece goes back off the board, the mover goes to its new
    /// position, and the turn passes unless the move earned another.
    pub open spec fn apply(self, player: FastPlayer, info: MoveInfo) -> GameView {
        let cleared = match info.captured_piece {
            Some(victim) => self.relocated(player.other(), victim as int, 0),
            None => self,
        };
        let moved = cleared.relocated(player, info.piece_idx as int, info.to_pos as int);
        if info.extra_turn {
            moved
        } else {
            moved.with_turn(self.turn.other())
        }
    }

    /// The state after the player to move has moved `piece` by `roll`.
    pub open spec fn after_move(self, piece: int, roll: int) -> GameView {
        self.apply(self.turn, self.move_record(piece, roll))
    }

    /// Whether `info` can be the record of the move that `player` made last
    /// to reach this state: the piece stands where the record says it went,
    /// the square it came from is free, a captured piece is off the board and
    /// the square it was taken on is a shared one, and the turn is where
    /// such a move leaves it.
    pub open spec fn can_undo(self, player: FastPlayer, info: MoveInfo) -> bool {
        let piece = info.piece_idx as int;
        let from = info.from_pos as int;
        let to = info.to_pos as int;
        let target = path_square(player, to - 1);
        &&& 0 <= piece < 7
        &&& self.position(player, piece) == to
        &&& 0 <= from < to <= 15
        &&& from == 0 ==> to == 1
        &&& on_board(from) ==> self.occupant(path_square(player, from - 1)).is_none()
        &&& info.extra_turn == (on_board(to) && rosette(target))
        &&& self.turn == if info.extra_turn {
            player
        } else {
            player.other()
        }
        &&& match info.captured_piece {
            Some(victim) => {
                &&& victim < 7
                &&& on_board(to)
                &&& 6 <= target <= 13
                &&& !safe(target)
                &&& self.position(player.other(), victim as int) == 0
            },
            None => true,
        }
    }

    /// The state before `player` made the move that `info` records: the
    /// mover goes back to where it came from, a captured piece goes back to
    /// the square it was taken on, and `player` is to move.
    pub open spec fn revert(self, player: FastPlayer, info: MoveInfo) -> GameView {
        let back = self.relocated(player, info.piece_idx as int, info.from_pos as int);
        let restored = match info.captured_piece {
            Some(victim) => back.relocated(
                player.other(),
                victim as int,
                path_index(player.other(), path_square(player, info.to_pos as int - 1)) + 1,
            ),
            None => back,
        };
        restored.with_turn(player)
    }
}

/// The start of a game: every piece off the board, no square held, no
/// score, player one to move.
pub open spec fn start() -> GameView {
    GameView {
        pieces_one: Seq::new(7, |i: int| 0int),
        pieces_two: Seq::new(7, |i: int| 0int),
        squares_one: Set::empty(),
        squares_two: Set::empty(),
        score_one: 0,
        score_two: 0,
        turn: FastPlayer::One,
    }
}

/// What the player to move does in one turn.
pub enum Step {
    /// Moves a piece by a roll.
    Move { piece: int, roll: int },
    /// Leaves the board as it is.
    Pass,
}

/// The state that a game is in after `steps`, taken in order from the
/// start. A move that the rules do not allow changes nothing.
pub open spec fn after_steps(steps: Seq<Step>) -> GameView
    decreases steps.len(),
{
    if steps.len() == 0 {
        start()
    } else {
        let before = after_steps(steps.drop_last());
        match steps.last() {
            Step::Move { piece, roll } => if before.legal(piece, roll) {
                before.after_move(piece, roll)
            } else {
                before
            },
            Step::Pass => before.passed(),
        }
    }
}

/// Whether play can reach the state from the start of a game.
pub open spec fn reachable(v: GameView) -> bool {
    exists|steps: Seq<Step>| v == after_steps(steps)
}

} // verus!
