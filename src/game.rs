use crate::block::{drop_row, fits, is_full_bag, new_chunk, Block};
use crate::board::{cleared_rows, complete_count, Board};
use crate::input::Input;
use vstd::prelude::*;

verus! {

/// Number of ticks between two fall steps.
pub const FALL_TICKS: u8 = 2;

/// Number of pieces in a bag.
pub const BAG_SIZE: u8 = 7;

/// The game: the field, the current bag, the index of the active piece in
/// it, the counters, the fall timer and the terminal flag.
#[derive(Debug)]
pub struct Game {
    pub chunk: [Block; 7],
    pub current_block: u8,
    pub lines: u8,
    pub score: u16,
    pub board: Board,
    pub game_over: bool,
    pub counter: u8,
}

impl Game {
    /// The active piece.
    pub open spec fn current(&self) -> Block {
        self.chunk@[self.current_block as int]
    }

    /// The field is well formed, the index lies in the bag, every piece is
    /// well formed, the pieces still to come wait at the spawn position, the
    /// fall timer is below its period, and while the game runs the active
    /// piece fits where it stands.
    pub open spec fn wf(&self) -> bool {
        &&& self.board.wf()
        &&& self.current_block < BAG_SIZE
        &&& forall|i: int| 0 <= i < 7 ==> (#[trigger] self.chunk@[i]).wf()
        &&& forall|i: int| self.current_block < i < 7 ==> (#[trigger] self.chunk@[i]).at_spawn()
        &&& self.counter < FALL_TICKS
        &&& !self.game_over ==> fits(
            &self.board,
            self.current().shape,
            self.current().x as int,
            self.current().y as int,
        )
    }

    /// `next` is this game with the active piece replaced by `b` and nothing
    /// else changed but the fall timer.
    pub open spec fn with_current(&self, next: &Game, b: Block) -> bool {
        &&& next.chunk@ == self.chunk@.update(self.current_block as int, b)
        &&& next.current_block == self.current_block
        &&& next.lines == self.lines
        &&& next.score == self.score
        &&& next.board == self.board
        &&& next.game_over == self.game_over
    }

    /// `next` is this game after the active piece locked: its cells are in
    /// the field, complete rows are cleared and counted, the next piece of
    /// the bag (of a fresh bag once all seven were used) is active, and the
    /// game is over exactly when that piece does not fit where it spawned.
    pub open spec fn locked_into(&self, next: &Game) -> bool {
        self.locks_into(self.current(), next)
    }

    /// `next` is this game after piece `b`, standing in for the active
    /// piece, locked as `locked_into` describes.
    pub open spec fn locks_into(&self, b: Block, next: &Game) -> bool {
        let rows = self.board.with_piece(b);
        let n = complete_count(rows);
        &&& next.board.rows() == cleared_rows(rows)
        &&& next.lines == self.lines.saturating_add(n as u8)
        &&& next.score == self.score.saturating_add(n as u16)
        &&& if self.current_block + 1 < BAG_SIZE {
            &&& next.current_block == self.current_block + 1
            &&& next.chunk@ == self.chunk@.update(self.current_block as int, b)
        } else {
            &&& next.current_block == 0
            &&& is_full_bag(next.chunk)
        }
        &&& next.game_over == !fits(
            &next.board,
            next.current().shape,
            next.current().x as int,
            next.current().y as int,
        )
    }

    /// Whether the active piece can move one row down.
    pub open spec fn can_fall(&self) -> bool {
        self.current().y < 255 && fits(
            &self.board,
            self.current().shape,
            self.current().x as int,
            self.current().y + 1,
        )
    }

    /// A new game: an empty field, a fresh bag whose first piece is active,
    /// counters at zero.
    pub fn new() -> (r: Game)
        ensures
            r.wf(),
            r.board.is_empty(),
            is_full_bag(r.chunk),
            r.current_block == 0,
            r.lines == 0,
            r.score == 0,
            r.counter == 0,
            !r.game_over,
    {
        let chunk = new_chunk();
        let board = Board::new();
        let first = chunk[0];
        let fits_now = first.test_position(&board, first.current_state, first.x, first.y);
        assert(fits(&board, first.shape, first.x as int, first.y as int)) by {
            assert forall|r: int, c: int|
                0 <= r < 4 && 0 <= c < 4 && #[trigger] first.shape@[r]@[c] != 0 implies board.in_bounds(first.x + c, first.y + r)
                && board.cell(first.x + c, first.y + r) == 0 by {
                assert(board.in_bounds(first.x + c, first.y + r));
            }
        }
        Game { chunk, current_block: 0, lines: 0, score: 0, board, game_over: !fits_now, counter: 0 }
    }

    /// Locks the active piece: copies its cells into the field, clears the
    /// complete rows and counts them, then makes the next piece of the bag
    /// active (drawing a fresh bag after the seventh) and ends the game if
    /// that piece does not fit. Does nothing once the game is over.
    pub fn place_current_block(&mut self)
        requires
            old(self).wf(),
        ensures
            final(self).wf(),
            old(self).game_over ==> *final(self) == *old(self),
            !old(self).game_over ==> old(self).locked_into(final(self)),
            final(self).counter == old(self).counter,
    {
        if self.game_over {
            return;
        }
        let current = self.chunk[self.current_block as usize];
        self.board.place_block(&current);
        let n = self.board.clear_completed_rows();
        self.lines = self.lines.saturating_add(n);
        self.score = self.score.saturating_add(n as u16);
        if self.current_block + 1 >= BAG_SIZE {
            self.current_block = 0;
            self.chunk = new_chunk();
        } else {
            self.current_block += 1;
        }
        assert(self.chunk@ =~= old(self).chunk@.update(old(self).current_block as int, current)
            || self.current_block == 0);
        let next = self.chunk[self.current_block as usize];
        let fits_now = next.test_position(&self.board, next.current_state, next.x, next.y);
        self.game_over = !fits_now;
    }

    /// Advances the fall timer by one tick. Every second tick the active
    /// piece moves one row down where it fits; where it does not, it locks
    /// and the next piece comes in. Does nothing once the game is over.
    pub fn handle_falling(&mut self)
        requires
            old(self).wf(),
        ensures
            final(self).wf(),
            old(self).game_over ==> *final(self) == *old(self),
            !old(self).game_over && old(self).counter + 1 < FALL_TICKS ==> old(self).with_current(
                final(self),
                old(self).current(),
            ) && final(self).counter == old(self).counter + 1,
            !old(self).game_over && old(self).counter + 1 >= FALL_TICKS && old(self).can_fall()
                ==> old(self).with_current(final(self), old(self).current().moved_down())
                && final(self).counter == 0,
            !old(self).game_over && old(self).counter + 1 >= FALL_TICKS && !old(self).can_fall()
                ==> old(self).locked_into(final(self)) && final(self).counter == 0,
    {
        if self.game_over {
            return;
        }
        if self.counter + 1 < FALL_TICKS {
            self.counter += 1;
            assert(self.chunk@ =~= old(self).chunk@.update(self.current_block as int, old(self).current()));
            return;
        }
        self.counter = 0;
        let i = self.current_block as usize;
        let mut b = self.chunk[i];
        let fell = b.y < 255 && b.move_position(&self.board, b.x, b.y + 1);
        if fell {
            self.chunk[i] = b;
        } else {
            self.place_current_block();
        }
    }

    /// The active piece after a move or turn command (not a hard drop): the
    /// piece moved or turned where it then fits, and unchanged otherwise.
    pub open spec fn commanded(&self, input: Input) -> Block {
        let b = self.current();
        match input {
            Input::Left => if b.x > 0 {
                b.moved(&self.board, b.x - 1, b.y as int)
            } else {
                b
            },
            Input::Right => if b.x < 255 {
                b.moved(&self.board, b.x + 1, b.y as int)
            } else {
                b
            },
            Input::Clockwise => b.turned(&self.board, (b.current_state + 1) % 4),
            Input::Counterclockwise => b.turned(&self.board, (b.current_state + 3) % 4),
            Input::Drop => b,
        }
    }

    /// Whether the game still runs; changes nothing.
    pub fn update(&mut self) -> (running: bool)
        requires
            old(self).wf(),
        ensures
            running == !old(self).game_over,
            *final(self) == *old(self),
    {
        !self.game_over
    }

    /// Applies a player command to the active piece: a move one column left
    /// or right, or a turn, each made only where the piece then fits; or a
    /// hard drop, which lowers the piece as far as it fits and locks it at
    /// once. Does nothing once the game is over.
    pub fn handle_input(&mut self, input: Input)
        requires
            old(self).wf(),
        ensures
            final(self).wf(),
            old(self).game_over ==> *final(self) == *old(self),
            !old(self).game_over && input != Input::Drop ==> old(self).with_current(
                final(self),
                old(self).commanded(input),
            ) && final(self).counter == old(self).counter,
            !old(self).game_over && input == Input::Drop ==> old(self).locks_into(
                old(self).current().dropped(&old(self).board),
                final(self),
            ) && final(self).counter == 0,
    {
        if self.game_over {
            return;
        }
        let i = self.current_block as usize;
        let mut b = self.chunk[i];
        match input {
            Input::Left => {
                if b.x > 0 {
                    b.move_position(&self.board, b.x - 1, b.y);
                }
                self.chunk[i] = b;
            },
            Input::Right => {
                if b.x < 255 {
                    b.move_position(&self.board, b.x + 1, b.y);
                }
                self.chunk[i] = b;
            },
            Input::Clockwise => {
                b.rotate_right(&self.board);
                self.chunk[i] = b;
            },
            Input::Counterclockwise => {
                b.rotate_left(&self.board);
                self.chunk[i] = b;
            },
            Input::Drop => {
                let ghost b0 = b;
                loop
                    invariant
                        self.wf(),
                        !self.game_over,
                        i == self.current_block,
                        b.wf(),
                        b == (Block { y: b.y, ..b0 }),
                        fits(&self.board, b.shape, b.x as int, b.y as int),
                        drop_row(&self.board, b.shape, b.x as int, b.y as int) == drop_row(
                            &self.board,
                            b0.shape,
                            b0.x as int,
                            b0.y as int,
                        ),
                    ensures
                        self.wf(),
                        !self.game_over,
                        i == self.current_block,
                        b.wf(),
                        fits(&self.board, b.shape, b.x as int, b.y as int),
                        b == b0.dropped(&self.board),
                    decreases 255 - b.y,
                {
                    if !(b.y < 255 && b.move_position(&self.board, b.x, b.y + 1)) {
                        break;
                    }
                }
                self.chunk[i] = b;
                let ghost mid = *self;
                assert(mid.chunk@ =~= old(self).chunk@.update(i as int, b));
                assert(mid.chunk@.update(i as int, b) =~= mid.chunk@);
                self.place_current_block();
                self.counter = 0;
            },
        }
    }
}

} // verus!
