//! Figures kept over a run of games.

use vstd::prelude::*;
use crate::consistency::lemma_count_below;
use crate::consistency::lemma_legal_move;
use crate::laws::lemma_capture_is_counted;
use crate::laws::lemma_move_effect;
use crate::model::start;
use crate::model::GameView;
use crate::optimized_game::FastGameState;
use crate::optimized_game::FastPlayer;

verus! {

/// The kinds of automatic player that a run of games can pit against each
/// other.
#[derive(Debug, Clone, Copy)]
pub enum StatsAIType {
    /// Moves a legal piece picked at random.
    Random,
    /// Moves the piece that the one-move heuristic rates highest.
    Smart,
    /// Moves the piece that the Monte-Carlo search finds.
    MCTS,
}

/// Wins, lengths and captures over the games of a run.
#[derive(Debug)]
pub struct GameStatistics {
    /// Games won by player one.
    pub player1_wins: usize,
    /// Games won by player two.
    pub player2_wins: usize,
    /// Games played.
    pub total_games: usize,
    /// Turns taken in all games together.
    pub total_turns: usize,
    /// Turns of the shortest game; the largest number while no game has
    /// been played.
    pub shortest_game: usize,
    /// Turns of the longest game.
    pub longest_game: usize,
    /// Captures made by player one in all games together.
    pub total_captures_p1: usize,
    /// Captures made by player two in all games together.
    pub total_captures_p2: usize,
}

impl GameStatistics {
    /// Whether one more game of `turns` turns and these captures can be
    /// counted without a figure outgrowing its word.
    pub open spec fn has_room(&self, turns: usize, captures_p1: usize, captures_p2: usize) -> bool {
        &&& self.player1_wins < usize::MAX
        &&& self.player2_wins < usize::MAX
        &&& self.total_games < usize::MAX
        &&& self.total_turns + turns <= usize::MAX
        &&& self.total_captures_p1 + captures_p1 <= usize::MAX
        &&& self.total_captures_p2 + captures_p2 <= usize::MAX
    }

    /// The figures before any game.
    pub fn new() -> (stats: GameStatistics)
        ensures
            stats.player1_wins == 0,
            stats.player2_wins == 0,
            stats.total_games == 0,
            stats.total_turns == 0,
            stats.shortest_game == usize::MAX,
            stats.longest_game == 0,
            stats.total_captures_p1 == 0,
            stats.total_captures_p2 == 0,
    {
        GameStatistics {
            player1_wins: 0,
            player2_wins: 0,
            total_games: 0,
            total_turns: 0,
            shortest_game: usize::MAX,
            longest_game: 0,
            total_captures_p1: 0,
            total_captures_p2: 0,
        }
    }

    /// Counts one game: a win for `winner`, its turns, which may be a new
    /// shortest or longest, and the captures of both players.
    pub fn add_game(
        &mut self,
        winner: FastPlayer,
        turns: usize,
        captures_p1: usize,
        captures_p2: usize,
    )
        requires
            old(self).has_room(turns, captures_p1, captures_p2),
        ensures
            final(self).player1_wins == old(self).player1_wins + if winner == FastPlayer::One {
                1int
            } else {
                0int
            },
            final(self).player2_wins == old(self).player2_wins + if winner == FastPlayer::Two {
                1int
            } else {
                0int
            },
            final(self).total_games == old(self).total_games + 1,
            final(self).total_turns == old(self).total_turns + turns,
            final(self).shortest_game == if turns < old(self).shortest_game {
                turns
            } else {
                old(self).shortest_game
            },
            final(self).longest_game == if turns > old(self).longest_game {
                turns
            } else {
                old(self).longest_game
            },
            final(self).total_captures_p1 == old(self).total_captures_p1 + captures_p1,
            final(self).total_captures_p2 == old(self).total_captures_p2 + captures_p2,
    {
        match winner {
            FastPlayer::One => self.player1_wins += 1,
            FastPlayer::Two => self.player2_wins += 1,
        }
        self.total_games += 1;
        self.total_turns += turns;
        if turns < self.shortest_game {
            self.shortest_game = turns;
        }
        if turns > self.longest_game {
            self.longest_game = turns;
        }
        self.total_captures_p1 += captures_p1;
        self.total_captures_p2 += captures_p2;
    }
}

/// How many pieces of `player` are on the board.
pub fn count_on_board_pieces(game: &FastGameState, player: FastPlayer) -> (count: usize)
    ensures
        count as int == game@.on_board_count(player),
        count <= 7,
{
    let mut count: usize = 0;
    let mut piece_idx: u8 = 0;
    while piece_idx < 7
        invariant
            piece_idx <= 7,
            count <= piece_idx,
            count as int == game@.count_below(player, 1, 14, piece_idx as int),
        decreases 7 - piece_idx,
    {
        let pos = game.get_piece_pos(player, piece_idx);
        if pos >= 1 && pos <= 14 {
            count += 1;
        }
        piece_idx += 1;
    }
    proof {
        lemma_count_below(game@, player, 1, 14);
    }
    count
}

/// A game between automatic players, played without display, and what is
/// counted of it. The players are asked for their moves from outside; the
/// game keeps the board, counts the turns and the captures, and says when
/// it is over.
#[derive(Clone, Copy, Debug)]
pub struct SilentGame {
    /// The board.
    pub game: FastGameState,
    /// Turns begun so far, passes among them.
    pub turn_count: usize,
    /// Captures made by player one.
    pub captures_p1: usize,
    /// Captures made by player two.
    pub captures_p2: usize,
}

/// A game is cut short after this many turns.
pub const TURN_LIMIT: usize = 1000;

/// How many pieces `victim` has lost from the board between two states.
pub open spec fn pieces_lost(before: GameView, after: GameView, victim: FastPlayer) -> int {
    if after.on_board_count(victim) < before.on_board_count(victim) {
        before.on_board_count(victim) - after.on_board_count(victim)
    } else {
        0
    }
}

/// The player with the higher score; player one if the scores are level.
pub open spec fn ahead(v: GameView) -> FastPlayer {
    if v.score(FastPlayer::Two) > v.score(FastPlayer::One) {
        FastPlayer::Two
    } else {
        FastPlayer::One
    }
}

/// How many moves a piece with position code `code` needs at least to come
/// home, no roll being above four: five from off the board, one to enter
/// and four to cover the path, and one less for every four squares behind
/// it.
pub open spec fn moves_home(code: int) -> int {
    if code <= 0 {
        5
    } else if code <= 2 {
        4
    } else if code <= 6 {
        3
    } else if code <= 10 {
        2
    } else if code <= 14 {
        1
    } else {
        0
    }
}

/// How many moves `player` needs at least to bring all seven pieces home.
pub open spec fn moves_left(v: GameView, player: FastPlayer) -> int {
    moves_home(v.position(player, 0)) + moves_home(v.position(player, 1)) + moves_home(
        v.position(player, 2),
    ) + moves_home(v.position(player, 3)) + moves_home(v.position(player, 4)) + moves_home(
        v.position(player, 5),
    ) + moves_home(v.position(player, 6))
}

/// How the moves that a player needs change when one piece changes
/// position.
proof fn lemma_moves_left_after_change(
    v: GameView,
    w: GameView,
    player: FastPlayer,
    piece: int,
    code: int,
)
    requires
        0 <= piece < 7,
        forall|k: int|
            0 <= k < 7 ==> #[trigger] w.position(player, k) == if k == piece {
                code
            } else {
                v.position(player, k)
            },
    ensures
        moves_left(w, player) == moves_left(v, player) + moves_home(code) - moves_home(
            v.position(player, piece),
        ),
{
    assert(w.position(player, 0) == if 0 == piece { code } else { v.position(player, 0) });
    assert(w.position(player, 1) == if 1 == piece { code } else { v.position(player, 1) });
    assert(w.position(player, 2) == if 2 == piece { code } else { v.position(player, 2) });
    assert(w.position(player, 3) == if 3 == piece { code } else { v.position(player, 3) });
    assert(w.position(player, 4) == if 4 == piece { code } else { v.position(player, 4) });
    assert(w.position(player, 5) == if 5 == piece { code } else { v.position(player, 5) });
    assert(w.position(player, 6) == if 6 == piece { code } else { v.position(player, 6) });
}

/// A move brings its mover at most one move nearer to having all pieces
/// home, and the opponent none.
pub proof fn lemma_move_is_one_move(v: GameView, piece: int, roll: int)
    requires
        v.wf(),
        v.legal(piece, roll),
        roll <= 4,
    ensures
        moves_left(v.after_move(piece, roll), v.turn) >= moves_left(v, v.turn) - 1,
        moves_left(v.after_move(piece, roll), v.turn.other()) >= moves_left(v, v.turn.other()),
{
    let me = v.turn;
    let them = me.other();
    let w = v.after_move(piece, roll);
    let info = v.move_record(piece, roll);
    lemma_legal_move(v, piece, roll);
    lemma_move_effect(v, piece, roll);
    lemma_moves_left_after_change(v, w, me, piece, info.to_pos as int);
    match info.captured_piece {
        Some(victim) => {
            assert forall|k: int| 0 <= k < 7 implies #[trigger] w.position(them, k) == if k
                == victim as int {
                0
            } else {
                v.position(them, k)
            } by {
                if info.captured_piece == Some(k as u8) {
                    assert(k as u8 == victim);
                }
            }
            lemma_moves_left_after_change(v, w, them, victim as int, 0);
        },
        None => {
            assert forall|k: int| 0 <= k < 7 implies #[trigger] w.position(them, k) == if k == 0 {
                v.position(them, 0)
            } else {
                v.position(them, k)
            } by {}
            lemma_moves_left_after_change(v, w, them, 0, v.position(them, 0));
        },
    }
}

/// A game that keeps count and that a player has won has taken at least
/// thirty-five turns, and has seen no more captures than turns.
pub proof fn lemma_won_game_is_long(play: SilentGame, winner: FastPlayer)
    requires
        play.game.wf(),
        play.keeps_count(0),
        play.game@.score(winner) == 7,
    ensures
        play.turn_count >= 35,
        play.captures_p1 + play.captures_p2 <= play.turn_count,
{
    let v = play.game@;
    assert(v.side_wf(winner));
    assert(0 <= v.position(winner, 0) <= 15);
    assert(0 <= v.position(winner, 1) <= 15);
    assert(0 <= v.position(winner, 2) <= 15);
    assert(0 <= v.position(winner, 3) <= 15);
    assert(0 <= v.position(winner, 4) <= 15);
    assert(0 <= v.position(winner, 5) <= 15);
    assert(0 <= v.position(winner, 6) <= 15);
}

impl SilentGame {
    /// Whether the counts go with the board, when `pending` moves are still
    /// to come in turns already counted: there are no more captures than
    /// turns that have had their move, and neither player can have all
    /// pieces home before thirty-five turns have had theirs.
    pub open spec fn keeps_count(&self, pending: int) -> bool {
        &&& self.captures_p1 + self.captures_p2 + pending <= self.turn_count
        &&& self.turn_count + moves_left(self.game@, FastPlayer::One) >= 35 + pending
        &&& self.turn_count + moves_left(self.game@, FastPlayer::Two) >= 35 + pending
    }

    /// The captures counted for `player`.
    pub open spec fn captures(&self, player: FastPlayer) -> int {
        match player {
            FastPlayer::One => self.captures_p1 as int,
            FastPlayer::Two => self.captures_p2 as int,
        }
    }

    /// The board is consistent, and the counts leave room for one more turn.
    pub open spec fn wf(&self) -> bool {
        &&& self.game.wf()
        &&& self.turn_count < usize::MAX
        &&& self.captures_p1 <= usize::MAX - 7
        &&& self.captures_p2 <= usize::MAX - 7
    }

    /// A game at its start, with nothing counted.
    pub fn new() -> (fresh: SilentGame)
        ensures
            fresh.wf(),
            fresh.game@ == start(),
            fresh.turn_count == 0,
            fresh.captures_p1 == 0,
            fresh.captures_p2 == 0,
            fresh.keeps_count(0),
    {
        SilentGame { game: FastGameState::new(), turn_count: 0, captures_p1: 0, captures_p2: 0 }
    }

    /// Begins a turn with `roll`: counts the turn and returns the legal
    /// moves. When there is none, the turn is already over: the player to
    /// move has passed.
    pub fn begin_turn(&mut self, roll: u8) -> (moves: Vec<u8>)
        requires
            old(self).wf(),
        ensures
            moves@ == old(self).game@.legal_moves(roll as int),
            final(self).turn_count == old(self).turn_count + 1,
            final(self).captures_p1 == old(self).captures_p1,
            final(self).captures_p2 == old(self).captures_p2,
            final(self).game.wf(),
            final(self).game@ == if moves@.len() == 0 {
                old(self).game@.passed()
            } else {
                old(self).game@
            },
            old(self).keeps_count(0) ==> final(self).keeps_count(
                if moves@.len() == 0 {
                    0
                } else {
                    1
                },
            ),
    {
        self.turn_count += 1;
        let moves = self.game.generate_moves(roll);
        if moves.len() == 0 {
            self.game.pass_turn();
        }
        moves
    }

    /// Ends a turn with the move of `chosen_piece` by `roll`. A legal move
    /// is made, and the pieces that it takes from the board are counted as
    /// captures of the mover. The game is over when the mover has won, and
    /// also when more turns than `TURN_LIMIT` have been begun: then the
    /// player ahead on score wins. The result names the winner, the turns
    /// and the captures of player one and of player two.
    pub fn finish_turn(&mut self, chosen_piece: u8, roll: u8) -> (end: Option<
        (FastPlayer, usize, usize, usize),
    >)
        requires
            old(self).game.wf(),
            old(self).captures_p1 <= usize::MAX - 7,
            old(self).captures_p2 <= usize::MAX - 7,
        ensures
            final(self).game.wf(),
            final(self).turn_count == old(self).turn_count,
            ({
                let before = old(self).game@;
                let after = final(self).game@;
                let mover = before.turn;
                let legal = before.legal(chosen_piece as int, roll as int);
                let counts = (
                    final(self).turn_count,
                    final(self).captures_p1,
                    final(self).captures_p2,
                );
                &&& after == if legal {
                    before.after_move(chosen_piece as int, roll as int)
                } else {
                    before
                }
                &&& final(self).captures(mover) == old(self).captures(mover) + pieces_lost(
                    before,
                    after,
                    mover.other(),
                )
                &&& final(self).captures(mover.other()) == old(self).captures(mover.other())
                &&& old(self).keeps_count(1) && roll <= 4 ==> final(self).keeps_count(0)
                &&& end == if legal && after.score(mover) == 7 {
                    Some((mover, counts.0, counts.1, counts.2))
                } else if counts.0 > TURN_LIMIT {
                    Some((ahead(after), counts.0, counts.1, counts.2))
                } else {
                    None
                }
            }),
    {
        let current_player = self.game.current_player();
        let opponent = current_player.opposite();
        let pieces_before = count_on_board_pieces(&self.game, opponent);
        proof {
            if self.game@.legal(chosen_piece as int, roll as int) {
                lemma_capture_is_counted(self.game@, chosen_piece as int, roll as int);
                if roll <= 4 {
                    lemma_move_is_one_move(self.game@, chosen_piece as int, roll as int);
                }
            }
        }
        if self.game.make_move(chosen_piece, roll).is_some() {
            let pieces_after = count_on_board_pieces(&self.game, opponent);
            if pieces_after < pieces_before {
                match current_player {
                    FastPlayer::One => {
                        self.captures_p1 += pieces_before - pieces_after;
                    },
                    FastPlayer::Two => {
                        self.captures_p2 += pieces_before - pieces_after;
                    },
                }
            }
            if self.game.is_winner(current_player) {
                return Some((current_player, self.turn_count, self.captures_p1, self.captures_p2));
            }
        }
        if self.turn_count > TURN_LIMIT {
            let winner = if self.game.get_score(FastPlayer::Two) > self.game.get_score(
                FastPlayer::One,
            ) {
                FastPlayer::Two
            } else {
                FastPlayer::One
            };
            return Some((winner, self.turn_count, self.captures_p1, self.captures_p2));
        }
        None
    }
}

} // verus!
