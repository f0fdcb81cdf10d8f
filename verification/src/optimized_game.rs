//! The packed board and the operations that read and change it.

use vstd::prelude::*;
use crate::bits::bit;
use crate::bits::lemma_bit_after_write;
use crate::bits::lemma_bit_write_keeps_top;
use crate::bits::lemma_nibble_after_write;
use crate::bits::lemma_nibble_write_keeps_top;
use crate::bits::nibble;
use crate::bits::with_bit;
use crate::bits::with_nibble;
use crate::bits::without_bit;
use crate::chance::dice_total;
use crate::chance::random_ratio;
use crate::laws::lemma_conservation;
use crate::consistency::lemma_count_below;
use crate::consistency::lemma_legal_move;
use crate::listing::lemma_legal_moves_step;
use crate::consistency::lemma_move_keeps_wf;
use crate::consistency::lemma_piece_on;
use crate::consistency::lemma_revert_keeps_wf;
use crate::consistency::lemma_start_is_wf;
use crate::consistency::lemma_turn_keeps_wf;
use crate::model::on_board;
use crate::model::path_index;
use crate::model::path_square;
use crate::model::rosette;
use crate::model::safe;
use crate::model::start;
use crate::model::GameView;

verus! {

/// One of the two players.
#[derive(Clone, Copy, Debug, PartialEq, Eq, Structural)]
pub enum FastPlayer {
    One,
    Two,
}

impl FastPlayer {
    /// The other player.
    pub open spec fn other(self) -> FastPlayer {
        match self {
            FastPlayer::One => FastPlayer::Two,
            FastPlayer::Two => FastPlayer::One,
        }
    }

    /// Zero for player one, one for player two: the player's half of each
    /// packed word.
    pub open spec fn index(self) -> int {
        match self {
            FastPlayer::One => 0,
            FastPlayer::Two => 1,
        }
    }

    /// The other player.
    #[verifier::when_used_as_spec(other)]
    pub fn opposite(self) -> (player: FastPlayer)
        ensures
            player == self.other(),
    {
        match self {
            FastPlayer::One => FastPlayer::Two,
            FastPlayer::Two => FastPlayer::One,
        }
    }

    /// The name shown for this player.
    pub fn name(self) -> (name: &'static str)
        ensures
            name@ == match self {
                FastPlayer::One => "Player 1"@,
                FastPlayer::Two => "Player 2"@,
            },
    {
        match self {
            FastPlayer::One => "Player 1",
            FastPlayer::Two => "Player 2",
        }
    }
}

/// What one move did, with everything needed to take it back.
#[derive(Clone, Copy, Debug)]
pub struct MoveInfo {
    /// The piece that moved.
    pub piece_idx: u8,
    /// Its position code before the move.
    pub from_pos: u8,
    /// Its position code after the move.
    pub to_pos: u8,
    /// The opposing piece that was sent off the board, if any.
    pub captured_piece: Option<u8>,
    /// Whether the mover landed on a rosette and moves again.
    pub extra_turn: bool,
}

/// A whole game in three machine words.
#[derive(Clone, Copy, Debug, PartialEq, Eq, Hash, Structural)]
pub struct FastGameState {
    /// Held squares: bits `0..20` for player one, bits `20..40` for player two.
    pub occupied_squares: u64,
    /// Position codes, four bits per piece: fields `0..7` for player one,
    /// fields `7..14` for player two.
    pub piece_positions: u64,
    /// Bits `0..3` player one's score, bits `3..6` player two's score, bit 6
    /// set when player two is to move.
    pub scores_and_turn: u8,
}

impl View for FastGameState {
    type V = GameView;

    open spec fn view(&self) -> GameView {
        GameView {
            pieces_one: Seq::new(7, |i: int| nibble(self.piece_positions, i)),
            pieces_two: Seq::new(7, |i: int| nibble(self.piece_positions, 7 + i)),
            squares_one: Set::new(|sq: int| 0 <= sq < 20 && bit(self.occupied_squares, sq)),
            squares_two: Set::new(|sq: int| 0 <= sq < 20 && bit(self.occupied_squares, 20 + sq)),
            score_one: (self.scores_and_turn & 7) as int,
            score_two: ((self.scores_and_turn >> 3) & 7) as int,
            turn: if (self.scores_and_turn >> 6) & 1 == 0 {
                FastPlayer::One
            } else {
                FastPlayer::Two
            },
        }
    }
}

impl FastGameState {
    /// Bits 40 and up of the squares word, the top byte of the positions word
    /// and the top bit of the score byte carry nothing and are zero.
    pub open spec fn canonical(&self) -> bool {
        &&& self.occupied_squares >> 40 == 0
        &&& self.piece_positions >> 56 == 0
        &&& self.scores_and_turn >> 7 == 0
    }

    /// The records of the board agree with each other, and it is stored
    /// without stray bits.
    pub open spec fn wf(&self) -> bool {
        self@.wf() && self.canonical()
    }

    /// The start of a game: every piece off the board, no score, player one
    /// to move.
    pub fn new() -> (state: FastGameState)
        ensures
            state.wf(),
            state@ == start(),
    {
        let state = FastGameState { occupied_squares: 0, piece_positions: 0, scores_and_turn: 0 };
        proof {
            assert forall|slot: int| 0 <= slot < 14 implies #[trigger] nibble(0u64, slot) == 0 by {
                let s = (4 * slot) as u64;
                assert((0u64 >> s) & 0xF == 0) by (bit_vector);
            }
            assert forall|idx: int| 0 <= idx < 40 implies !#[trigger] bit(0u64, idx) by {
                let s = idx as u64;
                assert((0u64 >> s) & 1 == 0) by (bit_vector);
            }
            assert(0u8 & 7 == 0 && (0u8 >> 3) & 7 == 0 && (0u8 >> 6) & 1 == 0 && 0u8 >> 7 == 0)
                by (bit_vector);
            assert(0u64 >> 40 == 0 && 0u64 >> 56 == 0) by (bit_vector);
            assert(state@ =~= start());
            lemma_start_is_wf();
        }
        state
    }

    /// The player to move.
    pub fn current_player(self) -> (player: FastPlayer)
        ensures
            player == self@.turn,
    {
        if (self.scores_and_turn >> 6) & 1 == 0 {
            FastPlayer::One
        } else {
            FastPlayer::Two
        }
    }

    /// The score of `player`.
    pub fn get_score(self, player: FastPlayer) -> (score: u8)
        ensures
            score as int == self@.score(player),
            score <= 7,
    {
        let word = self.scores_and_turn;
        assert(word & 7 <= 7 && (word >> 3) & 7 <= 7) by (bit_vector);
        match player {
            FastPlayer::One => self.scores_and_turn & 0x7,
            FastPlayer::Two => (self.scores_and_turn >> 3) & 0x7,
        }
    }

    /// Stores the low three bits of `score` as the score of `player`.
    /// Nothing else changes.
    pub fn set_score(&mut self, player: FastPlayer, score: u8)
        ensures
            final(self)@ == old(self)@.with_score(player, (score % 8) as int),
            final(self).occupied_squares == old(self).occupied_squares,
            final(self).piece_positions == old(self).piece_positions,
            final(self).scores_and_turn >> 7 == old(self).scores_and_turn >> 7,
    {
        let word = self.scores_and_turn;
        match player {
            FastPlayer::One => {
                let next = (word & !0x7u8) | (score & 0x7);
                assert(next & 7 == score % 8 && (next >> 3) & 7 == (word >> 3) & 7 && (next >> 6) & 1
                    == (word >> 6) & 1 && next >> 7 == word >> 7) by (bit_vector)
                    requires
                        next == (word & !0x7u8) | (score & 0x7),
                ;
                self.scores_and_turn = next;
            },
            FastPlayer::Two => {
                let next = (word & !0x38u8) | ((score & 0x7) << 3);
                assert((next >> 3) & 7 == score % 8 && next & 7 == word & 7 && (next >> 6) & 1 == (
                word >> 6) & 1 && next >> 7 == word >> 7) by (bit_vector)
                    requires
                        next == (word & !0x38u8) | ((score & 0x7) << 3),
                ;
                self.scores_and_turn = next;
            },
        }
        assert(self@ =~= old(self)@.with_score(player, (score % 8) as int));
    }

    /// The position code of a piece: `0` off the board, `1..=14` on the board
    /// at path index `code - 1`, `15` finished.
    pub fn get_piece_pos(self, player: FastPlayer, piece_idx: u8) -> (code: u8)
        requires
            piece_idx < 7,
        ensures
            code as int == self@.position(player, piece_idx as int),
            code <= 15,
    {
        let shift: u64 = match player {
            FastPlayer::One => piece_idx as u64 * 4,
            FastPlayer::Two => 28 + piece_idx as u64 * 4,
        };
        let word = self.piece_positions;
        let field = (word >> shift) & 0xF;
        assert(field <= 15) by (bit_vector)
            requires
                field == (word >> shift) & 0xF,
        ;
        assert(field as int == nibble(word, 7 * player.index() + piece_idx as int));
        field as u8
    }

    /// Stores the low four bits of `pos` as the position code of a piece.
    /// The held squares and the scores are not touched.
    pub fn set_piece_pos(&mut self, player: FastPlayer, piece_idx: u8, pos: u8)
        requires
            piece_idx < 7,
        ensures
            final(self)@ == old(self)@.with_piece(player, piece_idx as int, (pos % 16) as int),
            final(self).occupied_squares == old(self).occupied_squares,
            final(self).scores_and_turn == old(self).scores_and_turn,
            final(self).piece_positions >> 56 == old(self).piece_positions >> 56,
    {
        let shift: u64 = match player {
            FastPlayer::One => piece_idx as u64 * 4,
            FastPlayer::Two => 28 + piece_idx as u64 * 4,
        };
        let word = self.piece_positions;
        let mask = !(0xFu64 << shift);
        let value = (pos as u64) & 0xF;
        let next = (word & mask) | (value << shift);
        proof {
            let slot = 7 * player.index() + piece_idx as int;
            assert(value == pos % 16) by (bit_vector)
                requires
                    value == (pos as u64) & 0xF,
            ;
            assert(next == with_nibble(word, slot, value as int));
            lemma_nibble_write_keeps_top(word, slot, value as int);
            assert forall|other: int| 0 <= other < 14 implies #[trigger] nibble(next, other) == if other
                == slot {
                value as int
            } else {
                nibble(word, other)
            } by {
                lemma_nibble_after_write(word, slot, value as int, other);
            }
        }
        self.piece_positions = next;
        assert(self@ =~= old(self)@.with_piece(player, piece_idx as int, (pos % 16) as int));
    }

    /// The square at path index `path_idx` of `player`.
    pub fn path_to_global(player: FastPlayer, path_idx: u8) -> (square: u8)
        requires
            path_idx < 14,
        ensures
            square as int == path_square(player, path_idx as int),
            square < 20,
    {
        let path: [u8; 14] = match player {
            FastPlayer::One => [3, 2, 1, 0, 6, 7, 8, 9, 10, 11, 12, 13, 5, 4],
            FastPlayer::Two => [17, 16, 15, 14, 6, 7, 8, 9, 10, 11, 12, 13, 19, 18],
        };
        path[path_idx as usize]
    }

    /// Whether landing on `square` grants another turn.
    pub fn is_rosette(square: u8) -> (yes: bool)
        ensures
            yes == rosette(square as int),
    {
        square == 4 || square == 9 || square == 18
    }

    /// Whether a piece on `square` is safe from capture.
    pub fn is_safe(square: u8) -> (yes: bool)
        ensures
            yes == safe(square as int),
    {
        square == 0 || square == 4 || square == 9 || square == 14 || square == 18
    }

    /// Who holds `square`, if anyone. No square beyond the board is held.
    pub fn get_occupant(self, square: u8) -> (holder: Option<FastPlayer>)
        ensures
            holder == self@.occupant(square as int),
    {
        if square >= 20 {
            return None;
        }
        let word = self.occupied_squares;
        if (word >> (square as u64)) & 1 != 0 {
            assert((word >> (square as u64)) & 1 == 1) by (bit_vector)
                requires
                    (word >> (square as u64)) & 1 != 0,
            ;
            Some(FastPlayer::One)
        } else if (word >> (square as u64 + 20)) & 1 != 0 {
            assert((word >> ((square as u64 + 20) as u64)) & 1 == 1) by (bit_vector)
                requires
                    (word >> ((square as u64 + 20) as u64)) & 1 != 0,
            ;
            assert(bit(word, 20 + square as int));
            Some(FastPlayer::Two)
        } else {
            assert(!bit(word, 20 + square as int));
            None
        }
    }

    /// Records `square` as held by `player`.
    fn occupy(&mut self, player: FastPlayer, square: u8)
        requires
            square < 20,
        ensures
            final(self)@ == old(self)@.with_square(player, square as int, true),
            final(self).piece_positions == old(self).piece_positions,
            final(self).scores_and_turn == old(self).scores_and_turn,
            final(self).occupied_squares >> 40 == old(self).occupied_squares >> 40,
    {
        let idx: u64 = match player {
            FastPlayer::One => square as u64,
            FastPlayer::Two => square as u64 + 20,
        };
        let word = self.occupied_squares;
        let next = word | (1u64 << idx);
        proof {
            assert(next == with_bit(word, idx as int));
            lemma_bit_write_keeps_top(word, idx as int);
            assert forall|other: int| 0 <= other < 40 implies #[trigger] bit(next, other) == (other
                == idx || bit(word, other)) by {
                lemma_bit_after_write(word, idx as int, other);
            }
        }
        self.occupied_squares = next;
        assert(self@ =~= old(self)@.with_square(player, square as int, true));
    }

    /// Records `square` as not held by `player`.
    fn vacate(&mut self, player: FastPlayer, square: u8)
        requires
            square < 20,
        ensures
            final(self)@ == old(self)@.with_square(player, square as int, false),
            final(self).piece_positions == old(self).piece_positions,
            final(self).scores_and_turn == old(self).scores_and_turn,
            final(self).occupied_squares >> 40 == old(self).occupied_squares >> 40,
    {
        let idx: u64 = match player {
            FastPlayer::One => square as u64,
            FastPlayer::Two => square as u64 + 20,
        };
        let word = self.occupied_squares;
        let next = word & !(1u64 << idx);
        proof {
            assert(next == without_bit(word, idx as int));
            lemma_bit_write_keeps_top(word, idx as int);
            assert forall|other: int| 0 <= other < 40 implies #[trigger] bit(next, other) == (other
                != idx && bit(word, other)) by {
                lemma_bit_after_write(word, idx as int, other);
            }
        }
        self.occupied_squares = next;
        assert(self@ =~= old(self)@.with_square(player, square as int, false));
    }

    /// Hands the move to the other player. Nothing else changes.
    pub fn pass_turn(&mut self)
        ensures
            final(self)@ == old(self)@.passed(),
            final(self).occupied_squares == old(self).occupied_squares,
            final(self).piece_positions == old(self).piece_positions,
            final(self).scores_and_turn >> 7 == old(self).scores_and_turn >> 7,
            old(self).wf() ==> final(self).wf(),
    {
        proof {
            if self.wf() {
                lemma_turn_keeps_wf(self@, self@.turn);
            }
        }
        let word = self.scores_and_turn;
        let next = word ^ (1u8 << 6);
        assert(next & 7 == word & 7 && (next >> 3) & 7 == (word >> 3) & 7 && next >> 7 == word >> 7
            && ((next >> 6) & 1 == 0 <==> (word >> 6) & 1 != 0)) by (bit_vector)
            requires
                next == word ^ (1u8 << 6),
        ;
        self.scores_and_turn = next;
        assert(self@ =~= old(self)@.passed());
    }

    /// A roll of the four dice: each comes up marked or not with equal
    /// chance, and the roll is the number of marked ones.
    pub fn roll_dice() -> (roll: u8)
        ensures
            roll <= 4,
    {
        let flips = [random_ratio(1, 2), random_ratio(1, 2), random_ratio(1, 2), random_ratio(1, 2)];
        dice_total(flips)
    }

    /// Whether `player` has brought all seven pieces home.
    pub fn is_winner(self, player: FastPlayer) -> (won: bool)
        ensures
            won == (self@.score(player) == 7),
    {
        self.get_score(player) >= 7
    }

    /// Whether a piece of `player` may land on `square`.
    fn can_move_to(self, player: FastPlayer, square: u8) -> (allowed: bool)
        ensures
            allowed == self@.can_land(player, square as int),
    {
        match self.get_occupant(square) {
            None => true,
            Some(occupant) => occupant != player && !Self::is_safe(square),
        }
    }

    /// The path index at which `player` visits `global`, or `0` for a square
    /// that is not on that player's path.
    fn global_to_path(player: FastPlayer, global: u8) -> (idx: u8)
        ensures
            idx as int == path_index(player, global as int),
            idx < 14,
    {
        let mut i: u8 = 0;
        while i < 14
            invariant
                i <= 14,
                forall|k: int| 0 <= k < i ==> path_square(player, k) != global,
            decreases 14 - i,
        {
            if Self::path_to_global(player, i) == global {
                return i;
            }
            i += 1;
        }
        proof {
            if path_index(player, global as int) != 0 {
                assert(path_square(player, path_index(player, global as int)) == global);
            }
        }
        0
    }

    /// The lowest-numbered piece of `player` that stands on `square`.
    pub(crate) fn piece_standing_on(self, player: FastPlayer, square: u8) -> (found: Option<u8>)
        ensures
            match found {
                Some(piece) => self@.piece_on(player, square as int) == Some(piece as int),
                None => self@.piece_on(player, square as int).is_none(),
            },
    {
        let mut i: u8 = 0;
        while i < 7
            invariant
                i <= 7,
                forall|k: int| 0 <= k < i ==> !#[trigger] self@.stands_on(player, k, square as int),
            decreases 7 - i,
        {
            let code = self.get_piece_pos(player, i);
            if code >= 1 && code <= 14 {
                if Self::path_to_global(player, code - 1) == square {
                    proof {
                        assert(self@.stands_on(player, i as int, square as int));
                        lemma_piece_on(self@, player, square as int);
                    }
                    return Some(i);
                }
            }
            i += 1;
        }
        proof {
            lemma_piece_on(self@, player, square as int);
        }
        None
    }

    /// The position code that `piece_idx` of the player to move holds after a
    /// move by `roll`, if that move is legal: `1` for a piece that enters,
    /// `15` for one that finishes by an exact roll, and else the code it has
    /// plus the roll.
    pub fn legal_destination(self, piece_idx: u8, roll: u8) -> (code: Option<u8>)
        ensures
            code.is_some() == self@.legal(piece_idx as int, roll as int),
            code matches Some(to) ==> self@.destination(piece_idx as int, roll as int) == Some(
                to as int,
            ) && 1 <= to <= 15,
    {
        if piece_idx >= 7 || roll == 0 {
            return None;
        }
        let player = self.current_player();
        let from_pos = self.get_piece_pos(player, piece_idx);
        let to_pos: u8 = if from_pos == 0 {
            1
        } else if from_pos <= 14 && roll <= 15 - from_pos {
            from_pos + roll
        } else {
            return None;
        };
        if to_pos == 15 || self.can_move_to(player, Self::path_to_global(player, to_pos - 1)) {
            Some(to_pos)
        } else {
            None
        }
    }

    /// Whether the player to move may move `piece_idx` by `roll`.
    pub fn is_legal(self, piece_idx: u8, roll: u8) -> (allowed: bool)
        ensures
            allowed == self@.legal(piece_idx as int, roll as int),
    {
        self.legal_destination(piece_idx, roll).is_some()
    }

    /// The pieces the player to move may move by `roll`, in ascending order.
    /// A roll of zero moves nothing.
    pub fn generate_moves(self, roll: u8) -> (moves: Vec<u8>)
        ensures
            moves@ == self@.legal_moves(roll as int),
    {
        let mut moves: Vec<u8> = Vec::with_capacity(7);
        let mut piece_idx: u8 = 0;
        proof {
            lemma_legal_moves_step(self@, roll as int, 0);
        }
        while piece_idx < 7
            invariant
                piece_idx <= 7,
                moves@ == self@.legal_moves_below(roll as int, piece_idx as int),
            decreases 7 - piece_idx,
        {
            proof {
                lemma_legal_moves_step(self@, roll as int, piece_idx as int);
            }
            if self.is_legal(piece_idx, roll) {
                moves.push(piece_idx);
            }
            piece_idx += 1;
        }
        moves
    }

    /// Moves `piece_idx` of the player to move by `roll`, if the rules allow
    /// it, and returns the record of the move. A move that the rules do not
    /// allow changes nothing.
    pub fn make_move(&mut self, piece_idx: u8, roll: u8) -> (moved: Option<MoveInfo>)
        requires
            old(self).wf(),
        ensures
            final(self).wf(),
            moved.is_some() <==> old(self)@.legal(piece_idx as int, roll as int),
            match moved {
                Some(info) => info == old(self)@.move_record(piece_idx as int, roll as int)
                    && final(self)@ == old(self)@.after_move(piece_idx as int, roll as int),
                None => *final(self) == *old(self),
            },
    {
        let to_pos = match self.legal_destination(piece_idx, roll) {
            Some(to_pos) => to_pos,
            None => {
                return None;
            },
        };
        let player = self.current_player();
        let from_pos = self.get_piece_pos(player, piece_idx);
        let mut captured_piece: Option<u8> = None;
        let mut extra_turn = false;
        if to_pos <= 14 {
            let target_square = Self::path_to_global(player, to_pos - 1);
            if self.get_occupant(target_square).is_some() {
                captured_piece = self.piece_standing_on(player.opposite(), target_square);
            }
            extra_turn = Self::is_rosette(target_square);
        }
        let move_info = MoveInfo { piece_idx, from_pos, to_pos, captured_piece, extra_turn };
        proof {
            lemma_legal_move(self@, piece_idx as int, roll as int);
            lemma_move_keeps_wf(self@, piece_idx as int, roll as int);
            assert(self@.side_wf(player));
            assert(move_info == self@.move_record(piece_idx as int, roll as int));
        }
        self.apply_move_internal(player, &move_info);
        Some(move_info)
    }

    /// Takes `piece_idx` of `player` from where it is and puts it at position
    /// `code`: gives up the square it stood on, takes the square it comes to
    /// stand on, and lets the score follow it into or out of the finished
    /// position.
    fn relocate(&mut self, player: FastPlayer, piece_idx: u8, code: u8)
        requires
            piece_idx < 7,
            code <= 15,
            code == 15 && old(self)@.position(player, piece_idx as int) != 15 ==> old(
                self,
            )@.score(player) < 7,
            code != 15 && old(self)@.position(player, piece_idx as int) == 15 ==> old(
                self,
            )@.score(player) >= 1,
        ensures
            final(self)@ == old(self)@.relocated(player, piece_idx as int, code as int),
            old(self).canonical() ==> final(self).canonical(),
    {
        let from = self.get_piece_pos(player, piece_idx);
        let score = self.get_score(player);
        if from >= 1 && from <= 14 {
            self.vacate(player, Self::path_to_global(player, from - 1));
        }
        self.set_piece_pos(player, piece_idx, code);
        if code >= 1 && code <= 14 {
            self.occupy(player, Self::path_to_global(player, code - 1));
        }
        if code == 15 && from != 15 {
            self.set_score(player, score + 1);
        } else if from == 15 && code != 15 {
            self.set_score(player, score - 1);
        }
        assert(self@ =~= old(self)@.relocated(player, piece_idx as int, code as int));
    }

    /// Carries out the move that `move_info` records for `player`: a
    /// captured piece goes back off the board, the mover goes to its new
    /// position, and the turn passes unless the move earned another.
    fn apply_move_internal(&mut self, player: FastPlayer, move_info: &MoveInfo)
        requires
            old(self)@.can_apply(player, *move_info),
        ensures
            final(self)@ == old(self)@.apply(player, *move_info),
            old(self).canonical() ==> final(self).canonical(),
    {
        if let Some(cap_piece) = move_info.captured_piece {
            self.relocate(player.opposite(), cap_piece, 0);
        }
        self.relocate(player, move_info.piece_idx, move_info.to_pos);
        if !move_info.extra_turn {
            self.pass_turn();
        }
    }

    /// Takes back the move that `move_info` records, which `player` made
    /// last: the piece returns to where it came from, a finished piece no
    /// longer counts, a captured piece returns to its square, and `player`
    /// is to move again.
    pub fn unmake_move(&mut self, player: FastPlayer, move_info: &MoveInfo)
        requires
            old(self).wf(),
            old(self)@.can_undo(player, *move_info),
        ensures
            final(self).wf(),
            final(self)@ == old(self)@.revert(player, *move_info),
    {
        proof {
            lemma_revert_keeps_wf(self@, player, *move_info);
            lemma_conservation(self@, player);
            lemma_conservation(self@, player.other());
        }
        self.relocate(player, move_info.piece_idx, move_info.from_pos);
        if let Some(cap_piece) = move_info.captured_piece {
            let opp_player = player.opposite();
            let cap_square = Self::path_to_global(player, move_info.to_pos - 1);
            let cap_path_pos = Self::global_to_path(opp_player, cap_square) + 1;
            self.relocate(opp_player, cap_piece, cap_path_pos);
        }
        if !move_info.extra_turn {
            self.pass_turn();
        }
        assert(self@ =~= old(self)@.revert(player, *move_info));
    }

    /// Whether `square` is recorded as held by `player`.
    fn holds(self, player: FastPlayer, square: u8) -> (held: bool)
        requires
            square < 20,
        ensures
            held == self@.occupied(player, square as int),
    {
        let idx: u64 = match player {
            FastPlayer::One => square as u64,
            FastPlayer::Two => square as u64 + 20,
        };
        let word = self.occupied_squares;
        let found = (word >> idx) & 1;
        assert(found == 0 || found == 1) by (bit_vector)
            requires
                found == (word >> idx) & 1,
        ;
        assert((found == 1) == bit(word, 20 * player.index() + square as int));
        found != 0
    }

    /// Whether the records of `player` agree with each other.
    fn side_is_consistent(self, player: FastPlayer) -> (ok: bool)
        ensures
            ok == self@.side_wf(player),
    {
        let mut finished: u8 = 0;
        let mut i: u8 = 0;
        while i < 7
            invariant
                i <= 7,
                finished <= i,
                finished as int == self@.count_below(player, 15, 15, i as int),
                forall|a: int, b: int|
                    0 <= a < i && 0 <= b < a && on_board(#[trigger] self@.position(player, a))
                        ==> self@.position(player, a) != #[trigger] self@.position(player, b),
            decreases 7 - i,
        {
            let code = self.get_piece_pos(player, i);
            if code == 15 {
                finished += 1;
            } else if code >= 1 {
                let mut j: u8 = 0;
                while j < i
                    invariant
                        j <= i,
                        i < 7,
                        1 <= code <= 14,
                        code as int == self@.position(player, i as int),
                        forall|b: int| 0 <= b < j ==> self@.position(player, b) != code,
                    decreases i - j,
                {
                    if self.get_piece_pos(player, j) == code {
                        proof {
                            assert(on_board(self@.position(player, i as int)));
                            assert(self@.position(player, i as int) == self@.position(
                                player,
                                j as int,
                            ));
                        }
                        return false;
                    }
                    j += 1;
                }
            }
            i += 1;
        }
        proof {
            lemma_count_below(self@, player, 15, 15);
            assert forall|a: int| 0 <= a < 7 implies 0 <= #[trigger] self@.position(player, a)
                <= 15 by {
                crate::bits::lemma_nibble_after_write(
                    self.piece_positions,
                    0,
                    0,
                    7 * player.index() + a,
                );
            }
            assert forall|a: int, b: int|
                0 <= a < 7 && 0 <= b < 7 && a != b && on_board(
                    #[trigger] self@.position(player, a),
                ) implies self@.position(player, a) != #[trigger] self@.position(player, b) by {
                if b > a && self@.position(player, a) == self@.position(player, b) {
                    assert(on_board(self@.position(player, b)));
                }
            }
        }
        if finished != self.get_score(player) {
            return false;
        }
        let mut square: u8 = 0;
        while square < 20
            invariant
                square <= 20,
                forall|sq: int|
                    0 <= sq < square ==> (#[trigger] self@.occupied(player, sq)
                        <==> self@.piece_on(player, sq).is_some()),
            decreases 20 - square,
        {
            let held = self.holds(player, square);
            let stood_on = self.piece_standing_on(player, square).is_some();
            if held != stood_on {
                return false;
            }
            square += 1;
        }
        true
    }

    /// Whether the board is one that play can reach, stored without stray
    /// bits. A board put together by hand is to pass this test before it is
    /// played on.
    pub fn is_consistent(self) -> (ok: bool)
        ensures
            ok == self.wf(),
    {
        if self.occupied_squares >> 40 != 0 || self.piece_positions >> 56 != 0
            || self.scores_and_turn >> 7 != 0 {
            return false;
        }
        if !self.side_is_consistent(FastPlayer::One) || !self.side_is_consistent(FastPlayer::Two) {
            return false;
        }
        let mut square: u8 = 0;
        while square < 20
            invariant
                square <= 20,
                forall|sq: int|
                    0 <= sq < square ==> !(#[trigger] self@.occupied(FastPlayer::One, sq)
                        && self@.occupied(FastPlayer::Two, sq)),
            decreases 20 - square,
        {
            if self.holds(FastPlayer::One, square) && self.holds(FastPlayer::Two, square) {
                return false;
            }
            square += 1;
        }
        true
    }
}

} // verus!
