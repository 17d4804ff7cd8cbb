use crate::board::Board;
use rand::seq::SliceRandom;
use vstd::prelude::*;

verus! {

/// Column at which a freshly spawned piece's bounding box starts.
pub const STARTING_X: u8 = 5;

/// Number of orientations of every piece.
pub const N_STATES: u8 = 4;

/// The seven tetromino kinds.
#[derive(Debug, Clone, Copy, PartialEq, Eq, Structural)]
pub enum Kind {
    I,
    J,
    L,
    O,
    S,
    Z,
    T,
}

/// The color id of a kind, which is also the value of its occupied cells.
pub open spec fn color_of(k: Kind) -> u8 {
    match k {
        Kind::I => 1,
        Kind::J => 2,
        Kind::L => 3,
        Kind::O => 4,
        Kind::S => 5,
        Kind::Z => 6,
        Kind::T => 7,
    }
}

pub open spec fn one_of(r: int, c: int, a: (int, int), b: (int, int), d: (int, int), e: (int, int)) -> bool {
    (r, c) == a || (r, c) == b || (r, c) == d || (r, c) == e
}

/// Whether the 4x4 mask of kind `k` in orientation `s` occupies row `r`,
/// column `c` (for `0 <= r, c < 4`).
pub open spec fn occupies(k: Kind, s: int, r: int, c: int) -> bool {
    match k {
        Kind::I => if s == 0 {
            r == 1
        } else if s == 1 {
            c == 2
        } else if s == 2 {
            r == 2
        } else {
            c == 1
        },
        Kind::J => if s == 0 {
            one_of(r, c, (0, 0), (0, 1), (0, 2), (1, 2))
        } else if s == 1 {
            one_of(r, c, (0, 1), (1, 1), (2, 0), (2, 1))
        } else if s == 2 {
            one_of(r, c, (1, 0), (2, 0), (2, 1), (2, 2))
        } else {
            one_of(r, c, (0, 1), (0, 2), (1, 1), (2, 1))
        },
        Kind::L => if s == 0 {
            one_of(r, c, (1, 0), (1, 1), (1, 2), (2, 0))
        } else if s == 1 {
            one_of(r, c, (0, 0), (0, 1), (1, 1), (2, 1))
        } else if s == 2 {
            one_of(r, c, (1, 2), (2, 0), (2, 1), (2, 2))
        } else {
            one_of(r, c, (0, 1), (1, 1), (2, 1), (2, 2))
        },
        Kind::O => r < 2 && c < 2,
        Kind::S => if s % 2 == 0 {
            one_of(r, c, (1, 1), (1, 2), (2, 0), (2, 1))
        } else {
            one_of(r, c, (0, 0), (1, 0), (1, 1), (2, 1))
        },
        Kind::Z => if s % 2 == 0 {
            one_of(r, c, (1, 0), (1, 1), (2, 1), (2, 2))
        } else if s == 1 {
            one_of(r, c, (0, 2), (1, 1), (1, 2), (2, 1))
        } else {
            one_of(r, c, (0, 1), (1, 0), (1, 1), (2, 0))
        },
        Kind::T => if s == 0 {
            one_of(r, c, (0, 1), (1, 0), (1, 1), (1, 2))
        } else if s == 1 {
            one_of(r, c, (0, 1), (1, 1), (1, 2), (2, 1))
        } else if s == 2 {
            one_of(r, c, (1, 0), (1, 1), (1, 2), (2, 1))
        } else {
            one_of(r, c, (0, 1), (1, 0), (1, 1), (2, 1))
        },
    }
}

/// `states` is the orientation table of kind `k`: each cell holds the kind's
/// color where the orientation occupies it and `0` elsewhere.
pub open spec fn is_table_of(k: Kind, states: [[[u8; 4]; 4]; 4]) -> bool {
    forall|s: int, r: int, c: int|
        0 <= s < 4 && 0 <= r < 4 && 0 <= c < 4 ==> #[trigger] states@[s]@[r]@[c] == if occupies(
            k,
            s,
            r,
            c,
        ) {
            color_of(k)
        } else {
            0u8
        }
}

/// The 4x4 mask placed with its top-left corner at column `x`, row `y` lies
/// inside the field and overlaps no occupied cell.
pub open spec fn fits(board: &Board, mask: [[u8; 4]; 4], x: int, y: int) -> bool {
    forall|r: int, c: int|
        0 <= r < 4 && 0 <= c < 4 && #[trigger] mask@[r]@[c] != 0 ==> board.in_bounds(x + c, y + r)
            && board.cell(x + c, y + r) == 0
}

/// Number of occupied cells in one row of a mask.
pub open spec fn row_count(row: [u8; 4]) -> int {
    (if row@[0] != 0 { 1int } else { 0 }) + (if row@[1] != 0 { 1int } else { 0 }) + (if row@[2] != 0 { 1int } else { 0 }) + (if row@[3] != 0 { 1int } else { 0 })
}

/// Number of occupied cells in a mask.
pub open spec fn mask_count(mask: [[u8; 4]; 4]) -> int {
    row_count(mask@[0]) + row_count(mask@[1]) + row_count(mask@[2]) + row_count(mask@[3])
}

/// The orientation table of a kind.
fn states_of(k: Kind) -> (r: [[[u8; 4]; 4]; 4])
    ensures
        is_table_of(k, r),
{
    match k {
            Kind::I => [
                [
                    [0, 0, 0, 0],
                    [1, 1, 1, 1],
                    [0, 0, 0, 0],
                    [0, 0, 0, 0],
                ],
                [
                    [0, 0, 1, 0],
                    [0, 0, 1, 0],
                    [0, 0, 1, 0],
                    [0, 0, 1, 0],
                ],
                [
                    [0, 0, 0, 0],
                    [0, 0, 0, 0],
                    [1, 1, 1, 1],
                    [0, 0, 0, 0],
                ],
                [
                    [0, 1, 0, 0],
                    [0, 1, 0, 0],
                    [0, 1, 0, 0],
                    [0, 1, 0, 0],
                ],
            ],
            Kind::J => [
                [
                    [2, 2, 2, 0],
                    [0, 0, 2, 0],
                    [0, 0, 0, 0],
                    [0, 0, 0, 0],
                ],
                [
                    [0, 2, 0, 0],
                    [0, 2, 0, 0],
                    [2, 2, 0, 0],
                    [0, 0, 0, 0],
                ],
                [
                    [0, 0, 0, 0],
                    [2, 0, 0, 0],
                    [2, 2, 2, 0],
                    [0, 0, 0, 0],
                ],
                [
                    [0, 2, 2, 0],
                    [0, 2, 0, 0],
                    [0, 2, 0, 0],
                    [0, 0, 0, 0],
                ],
            ],
            Kind::L => [
                [
                    [0, 0, 0, 0],
                    [3, 3, 3, 0],
                    [3, 0, 0, 0],
                    [0, 0, 0, 0],
                ],
                [
                    [3, 3, 0, 0],
                    [0, 3, 0, 0],
                    [0, 3, 0, 0],
                    [0, 0, 0, 0],
                ],
                [
                    [0, 0, 0, 0],
                    [0, 0, 3, 0],
                    [3, 3, 3, 0],
                    [0, 0, 0, 0],
                ],
                [
                    [0, 3, 0, 0],
                    [0, 3, 0, 0],
                    [0, 3, 3, 0],
                    [0, 0, 0, 0],
                ],
            ],
            Kind::O => [
                [
                    [4, 4, 0, 0],
                    [4, 4, 0, 0],
                    [0, 0, 0, 0],
                    [0, 0, 0, 0],
                ],
                [
                    [4, 4, 0, 0],
                    [4, 4, 0, 0],
                    [0, 0, 0, 0],
                    [0, 0, 0, 0],
                ],
                [
                    [4, 4, 0, 0],
                    [4, 4, 0, 0],
                    [0, 0, 0, 0],
                    [0, 0, 0, 0],
                ],
                [
                    [4, 4, 0, 0],
                    [4, 4, 0, 0],
                    [0, 0, 0, 0],
                    [0, 0, 0, 0],
                ],
            ],
            Kind::S => [
                [
                    [0, 0, 0, 0],
                    [0, 5, 5, 0],
                    [5, 5, 0, 0],
                    [0, 0, 0, 0],
                ],
                [
                    [5, 0, 0, 0],
                    [5, 5, 0, 0],
                    [0, 5, 0, 0],
                    [0, 0, 0, 0],
                ],
                [
                    [0, 0, 0, 0],
                    [0, 5, 5, 0],
                    [5, 5, 0, 0],
                    [0, 0, 0, 0],
                ],
                [
                    [5, 0, 0, 0],
                    [5, 5, 0, 0],
                    [0, 5, 0, 0],
                    [0, 0, 0, 0],
                ],
            ],
            Kind::Z => [
                [
                    [0, 0, 0, 0],
                    [6, 6, 0, 0],
                    [0, 6, 6, 0],
                    [0, 0, 0, 0],
                ],
                [
                    [0, 0, 6, 0],
                    [0, 6, 6, 0],
                    [0, 6, 0, 0],
                    [0, 0, 0, 0],
                ],
                [
                    [0, 0, 0, 0],
                    [6, 6, 0, 0],
                    [0, 6, 6, 0],
                    [0, 0, 0, 0],
                ],
                [
                    [0, 6, 0, 0],
                    [6, 6, 0, 0],
                    [6, 0, 0, 0],
                    [0, 0, 0, 0],
                ],
            ],
            Kind::T => [
                [
                    [0, 7, 0, 0],
                    [7, 7, 7, 0],
                    [0, 0, 0, 0],
                    [0, 0, 0, 0],
                ],
                [
                    [0, 7, 0, 0],
                    [0, 7, 7, 0],
                    [0, 7, 0, 0],
                    [0, 0, 0, 0],
                ],
                [
                    [0, 0, 0, 0],
                    [7, 7, 7, 0],
                    [0, 7, 0, 0],
                    [0, 0, 0, 0],
                ],
                [
                    [0, 7, 0, 0],
                    [7, 7, 0, 0],
                    [0, 7, 0, 0],
                    [0, 0, 0, 0],
                ],
            ],
    }
}


/// A piece: its kind, the top-left anchor of its 4x4 bounding box, its
/// orientation table, the current orientation and the current mask.
#[derive(Debug, Clone, Copy)]
pub struct Block {
    pub kind: Kind,
    pub x: u8,
    pub y: u8,
    pub states: [[[u8; 4]; 4]; 4],
    pub current_state: u8,
    pub shape: [[u8; 4]; 4],
}

/// The lowest row that a mask anchored at column `x`, row `y` reaches by
/// falling one row at a time while it fits.
pub open spec fn drop_row(board: &Board, mask: [[u8; 4]; 4], x: int, y: int) -> int
    decreases 255 - y,
{
    if y < 255 && fits(board, mask, x, y + 1) {
        drop_row(board, mask, x, y + 1)
    } else {
        y
    }
}

impl Block {
    /// The orientation index is in range, the table is the kind's table, and
    /// the current mask is the table's entry for the current orientation.
    pub open spec fn wf(&self) -> bool {
        &&& self.current_state < N_STATES
        &&& is_table_of(self.kind, self.states)
        &&& self.shape == self.states@[self.current_state as int]
    }

    /// The piece as it stands at a spawn: spawn column, top row, orientation 0.
    pub open spec fn at_spawn(&self) -> bool {
        &&& self.x == STARTING_X
        &&& self.y == 0
        &&& self.current_state == 0
    }

    /// The piece's cell at field column `fx`, row `fy`, `0` where it has none.
    pub open spec fn covered(&self, fx: int, fy: int) -> u8 {
        let c = fx - self.x;
        let r = fy - self.y;
        if 0 <= r < 4 && 0 <= c < 4 {
            self.shape@[r]@[c]
        } else {
            0
        }
    }

    /// The piece after a move to `(x, y)`: the move is made only where the
    /// current mask fits there.
    pub open spec fn moved(self, board: &Board, x: int, y: int) -> Block {
        if fits(board, self.shape, x, y) {
            Block { x: x as u8, y: y as u8, ..self }
        } else {
            self
        }
    }

    /// The piece one row lower.
    pub open spec fn moved_down(self) -> Block {
        Block { y: (self.y + 1) as u8, ..self }
    }

    /// The piece after a hard drop: lowered row by row while it fits.
    pub open spec fn dropped(self, board: &Board) -> Block {
        Block { y: drop_row(board, self.shape, self.x as int, self.y as int) as u8, ..self }
    }

    /// The piece after an attempt to turn to orientation `s` in place: it
    /// turns only where that orientation fits at the current anchor.
    pub open spec fn turned(self, board: &Board, s: int) -> Block {
        if fits(board, self.states@[s], self.x as int, self.y as int) {
            Block { current_state: s as u8, shape: self.states@[s], ..self }
        } else {
            self
        }
    }

    /// A piece of kind `k` at the spawn position, in orientation 0.
    pub fn spawn(k: Kind) -> (r: Block)
        ensures
            r.wf(),
            r.kind == k,
            r.at_spawn(),
    {
        let states = states_of(k);
        Block { kind: k, x: STARTING_X, y: 0, states, current_state: 0, shape: states[0] }
    }

    /// Turns the piece clockwise, to the next orientation, if that
    /// orientation fits at the current anchor; otherwise leaves it unchanged.
    pub fn rotate_right(&mut self, board: &Board)
        requires
            old(self).wf(),
            board.wf(),
        ensures
            *final(self) == old(self).turned(board, (old(self).current_state + 1) % 4),
            final(self).wf(),
    {
        let mut curr_state = self.current_state;
        if self.current_state + 1 >= N_STATES {
            curr_state = 0;
        } else {
            curr_state += 1;
        }
        if self.test_position(board, curr_state, self.x, self.y) {
            self.current_state = curr_state;
            self.shape = self.states[self.current_state as usize];
        }
    }

    /// Turns the piece counterclockwise, to the previous orientation, if that
    /// orientation fits at the current anchor; otherwise leaves it unchanged.
    pub fn rotate_left(&mut self, board: &Board)
        requires
            old(self).wf(),
            board.wf(),
        ensures
            *final(self) == old(self).turned(board, (old(self).current_state + 3) % 4),
            final(self).wf(),
    {
        let mut curr_state = self.current_state;
        if self.current_state == 0 {
            curr_state = N_STATES - 1;
        } else {
            curr_state -= 1;
        }
        if self.test_position(board, curr_state, self.x, self.y) {
            self.current_state = curr_state;
            self.shape = self.states[self.current_state as usize];
        }
    }

    /// Whether orientation `state`, anchored at `(x, y)`, lies inside the
    /// field and overlaps no occupied cell.
    pub fn test_position(&self, board: &Board, state: u8, x: u8, y: u8) -> (r: bool)
        requires
            state < N_STATES,
            board.wf(),
        ensures
            r == fits(board, self.states@[state as int], x as int, y as int),
    {
        let mask = self.states[state as usize];
        let mut state_x: usize = 0;
        while state_x < 4
            invariant
                state_x <= 4,
                mask == self.states@[state as int],
                board.wf(),
                forall|r: int, c: int|
                    0 <= r < 4 && 0 <= c < state_x && #[trigger] mask@[r]@[c] != 0 ==> board.in_bounds(
                        x + c,
                        y + r,
                    ) && board.cell(x + c, y + r) == 0,
            decreases 4 - state_x,
        {
            let mut state_y: usize = 0;
            while state_y < 4
                invariant
                    state_x < 4,
                    state_y <= 4,
                    mask == self.states@[state as int],
                    board.wf(),
                    forall|r: int, c: int|
                        0 <= r < 4 && 0 <= c < state_x && #[trigger] mask@[r]@[c] != 0
                            ==> board.in_bounds(x + c, y + r) && board.cell(x + c, y + r) == 0,
                    forall|r: int|
                        0 <= r < state_y && #[trigger] mask@[r]@[state_x as int] != 0
                            ==> board.in_bounds(x + state_x, y + r) && board.cell(x + state_x, y + r) == 0,
                decreases 4 - state_y,
            {
                if mask[state_y][state_x] != 0 {
                    assert(mask@[state_y as int]@[state_x as int] != 0);
                    let board_x = x as usize + state_x;
                    let board_y = y as usize + state_y;
                    if board_x >= board.width as usize || board_y >= board.height as usize {
                        return false;
                    }
                    if board.get_position(board_x as u8, board_y as u8) != 0 {
                        return false;
                    }
                }
                state_y += 1;
            }
            state_x += 1;
        }
        true
    }

    /// Moves the anchor to `(x, y)` if the current mask fits there and
    /// reports whether it did; otherwise leaves the piece unchanged.
    pub fn move_position(&mut self, board: &Board, x: u8, y: u8) -> (r: bool)
        requires
            old(self).wf(),
            board.wf(),
        ensures
            r == fits(board, old(self).shape, x as int, y as int),
            *final(self) == old(self).moved(board, x as int, y as int),
            final(self).wf(),
    {
        if self.test_position(board, self.current_state, x, y) {
            self.x = x;
            self.y = y;
            true
        } else {
            false
        }
    }
}

/// The I piece (color 1).
pub struct I;

/// The J piece (color 2).
pub struct J;

/// The L piece (color 3).
pub struct L;

/// The O piece (color 4).
pub struct O;

/// The S piece (color 5).
pub struct S;

/// The Z piece (color 6).
pub struct Z;

/// The T piece (color 7).
pub struct T;

impl I {
    /// A piece of this kind at the spawn position, in orientation 0.
    pub fn new() -> (r: Block)
        ensures
            r.wf(),
            r.kind == Kind::I,
            r.at_spawn(),
    {
        Block::spawn(Kind::I)
    }
}

impl J {
    /// A piece of this kind at the spawn position, in orientation 0.
    pub fn new() -> (r: Block)
        ensures
            r.wf(),
            r.kind == Kind::J,
            r.at_spawn(),
    {
        Block::spawn(Kind::J)
    }
}

impl L {
    /// A piece of this kind at the spawn position, in orientation 0.
    pub fn new() -> (r: Block)
        ensures
            r.wf(),
            r.kind == Kind::L,
            r.at_spawn(),
    {
        Block::spawn(Kind::L)
    }
}

impl O {
    /// A piece of this kind at the spawn position, in orientation 0.
    pub fn new() -> (r: Block)
        ensures
            r.wf(),
            r.kind == Kind::O,
            r.at_spawn(),
    {
        Block::spawn(Kind::O)
    }
}

impl S {
    /// A piece of this kind at the spawn position, in orientation 0.
    pub fn new() -> (r: Block)
        ensures
            r.wf(),
            r.kind == Kind::S,
            r.at_spawn(),
    {
        Block::spawn(Kind::S)
    }
}

impl Z {
    /// A piece of this kind at the spawn position, in orientation 0.
    pub fn new() -> (r: Block)
        ensures
            r.wf(),
            r.kind == Kind::Z,
            r.at_spawn(),
    {
        Block::spawn(Kind::Z)
    }
}

impl T {
    /// A piece of this kind at the spawn position, in orientation 0.
    pub fn new() -> (r: Block)
        ensures
            r.wf(),
            r.kind == Kind::T,
            r.at_spawn(),
    {
        Block::spawn(Kind::T)
    }
}

/// The kinds of a bag, in order.
pub open spec fn bag_kinds(chunk: [Block; 7]) -> Seq<Kind> {
    Seq::new(7, |i: int| chunk@[i].kind)
}

/// A bag: every piece well formed and at the spawn position, and each of the
/// seven kinds present exactly once.
pub open spec fn is_full_bag(chunk: [Block; 7]) -> bool {
    &&& forall|i: int| 0 <= i < 7 ==> (#[trigger] chunk@[i]).wf() && chunk@[i].at_spawn()
    &&& forall|k: Kind| #[trigger] bag_kinds(chunk).to_multiset().count(k) == 1
}

#[verifier::external_type_specification]
#[verifier::external_body]
pub struct ExThreadRng(rand::rngs::ThreadRng);

/// Relies on rand's `thread_rng`: a handle on the thread's generator, seeded
/// from the operating system. Nothing is promised of what it yields.
pub assume_specification[ rand::thread_rng ]() -> rand::rngs::ThreadRng;

/// Relies on rand's `SliceRandom::shuffle` for slices: a Fisher-Yates
/// shuffle that only swaps elements, so the result is a permutation of the
/// input.
#[verifier::external_body]
fn shuffle_kinds(kinds: &mut [Kind; 7], rng: &mut rand::rngs::ThreadRng)
    ensures
        final(kinds)@.to_multiset() == old(kinds)@.to_multiset(),
{
    kinds.shuffle(rng);
}

/// A fresh bag: one piece of each kind, in a random order.
pub fn new_chunk() -> (r: [Block; 7])
    ensures
        is_full_bag(r),
{
    let mut kinds: [Kind; 7] = [Kind::I, Kind::J, Kind::L, Kind::O, Kind::S, Kind::Z, Kind::T];
    let ghost before = kinds@;
    proof {
        assert(before.no_duplicates());
        before.lemma_multiset_has_no_duplicates();
        before.to_multiset_ensures();
    }
    let mut rng = rand::thread_rng();
    shuffle_kinds(&mut kinds, &mut rng);
    let r = [
        Block::spawn(kinds[0]),
        Block::spawn(kinds[1]),
        Block::spawn(kinds[2]),
        Block::spawn(kinds[3]),
        Block::spawn(kinds[4]),
        Block::spawn(kinds[5]),
        Block::spawn(kinds[6]),
    ];
    proof {
        assert(bag_kinds(r) =~= kinds@);
        assert forall|k: Kind| #[trigger] bag_kinds(r).to_multiset().count(k) == 1 by {
            let w: int = match k {
                Kind::I => 0,
                Kind::J => 1,
                Kind::L => 2,
                Kind::O => 3,
                Kind::S => 4,
                Kind::Z => 5,
                Kind::T => 6,
            };
            assert(before[w] == k);
            assert(before.contains(k));
        }
    }
    r
}

/// Every orientation of a piece occupies as many cells as orientation 0:
/// four.
pub proof fn lemma_orientation_counts(b: Block, s: int)
    requires
        b.wf(),
        0 <= s < 4,
    ensures
        mask_count(b.states@[s]) == mask_count(b.states@[0]),
        mask_count(b.states@[s]) == 4,
{
    assert(mask_count(b.states@[0]) == 4);
    if s == 1 {
        assert(mask_count(b.states@[1]) == 4);
    } else if s == 2 {
        assert(mask_count(b.states@[2]) == 4);
    } else if s == 3 {
        assert(mask_count(b.states@[3]) == 4);
    }
}

/// A position at which some occupied mask cell would land at or past the
/// field's right or bottom edge never fits, whatever the field's size.
pub proof fn lemma_outside_never_fits(board: &Board, mask: [[u8; 4]; 4], x: int, y: int, r: int, c: int)
    requires
        0 <= r < 4,
        0 <= c < 4,
        mask@[r]@[c] != 0,
        x + c >= board.width || y + r >= board.height,
    ensures
        !fits(board, mask, x, y),
{
}

/// Cell `(r, c)` lies in the 4x4 box and orientation `s` of kind `k`
/// occupies it.
pub open spec fn occupies_in(k: Kind, s: int, r: int, c: int) -> bool {
    0 <= r < 4 && 0 <= c < 4 && occupies(k, s, r, c)
}

/// Every cell of orientation `s`, shifted by `dr` rows and `dc` columns,
/// is a cell of orientation `t`.
pub open spec fn cells_within(k: Kind, s: int, t: int, dr: int, dc: int) -> bool {
    (occupies(k, s, 0, 0) ==> occupies_in(k, t, 0 + dr, 0 + dc))
        && (occupies(k, s, 0, 1) ==> occupies_in(k, t, 0 + dr, 1 + dc))
        && (occupies(k, s, 0, 2) ==> occupies_in(k, t, 0 + dr, 2 + dc))
        && (occupies(k, s, 0, 3) ==> occupies_in(k, t, 0 + dr, 3 + dc))
        && (occupies(k, s, 1, 0) ==> occupies_in(k, t, 1 + dr, 0 + dc))
        && (occupies(k, s, 1, 1) ==> occupies_in(k, t, 1 + dr, 1 + dc))
        && (occupies(k, s, 1, 2) ==> occupies_in(k, t, 1 + dr, 2 + dc))
        && (occupies(k, s, 1, 3) ==> occupies_in(k, t, 1 + dr, 3 + dc))
        && (occupies(k, s, 2, 0) ==> occupies_in(k, t, 2 + dr, 0 + dc))
        && (occupies(k, s, 2, 1) ==> occupies_in(k, t, 2 + dr, 1 + dc))
        && (occupies(k, s, 2, 2) ==> occupies_in(k, t, 2 + dr, 2 + dc))
        && (occupies(k, s, 2, 3) ==> occupies_in(k, t, 2 + dr, 3 + dc))
        && (occupies(k, s, 3, 0) ==> occupies_in(k, t, 3 + dr, 0 + dc))
        && (occupies(k, s, 3, 1) ==> occupies_in(k, t, 3 + dr, 1 + dc))
        && (occupies(k, s, 3, 2) ==> occupies_in(k, t, 3 + dr, 2 + dc))
        && (occupies(k, s, 3, 3) ==> occupies_in(k, t, 3 + dr, 3 + dc))
}

/// Every field cell that the piece does not cover is occupied.
pub open spec fn surrounded(board: &Board, b: Block) -> bool {
    forall|fx: int, fy: int|
        board.in_bounds(fx, fy) && #[trigger] b.covered(fx, fy) == 0 ==> board.cell(fx, fy) != 0
}

/// No orientation, shifted one column either way or one row down, lies
/// within itself; and, but for the O piece, no orientation lies within the
/// orientation next to it in either direction.
proof fn lemma_cells_escape(k: Kind, s: int, t: int, dr: int, dc: int)
    requires
        0 <= t < 4,
        (s == t && ((dr == 0 && (dc == 1 || dc == -1)) || (dr == 1 && dc == 0))) || (k != Kind::O && (
        s == (t + 1) % 4 || s == (t + 3) % 4) && dr == 0 && dc == 0),
    ensures
        !cells_within(k, s, t, dr, dc),
{
}

/// Where orientation `s` fits at the piece's anchor shifted by `dr` rows
/// and `dc` columns, and the piece is surrounded, the shifted orientation
/// lies within the current one.
proof fn lemma_fit_stays_within(board: &Board, b: Block, s: int, dr: int, dc: int)
    requires
        board.wf(),
        b.wf(),
        0 <= s < 4,
        surrounded(board, b),
        fits(board, b.states@[s], b.x + dc, b.y + dr),
    ensures
        cells_within(b.kind, s, b.current_state as int, dr, dc),
{
    let k = b.kind;
    let t = b.current_state as int;
    assert forall|r: int, c: int| 0 <= r < 4 && 0 <= c < 4 && #[trigger] occupies(k, s, r, c) implies occupies_in(k, t, r + dr, c + dc) by {
        assert(b.states@[s]@[r]@[c] != 0);
        assert(b.covered(b.x + dc + c, b.y + dr + r) != 0);
    }
}

/// A surrounded piece (every field cell it does not cover is occupied)
/// cannot move one column left or right or one row down, and, unless it is
/// the O piece, whose orientations all coincide, cannot turn either way:
/// each attempt leaves it exactly as it was.
pub proof fn lemma_surrounded_piece_stuck(board: &Board, b: Block)
    requires
        board.wf(),
        b.wf(),
        surrounded(board, b),
    ensures
        b.x > 0 ==> b.moved(board, b.x - 1, b.y as int) == b,
        b.moved(board, b.x + 1, b.y as int) == b,
        b.moved(board, b.x as int, b.y + 1) == b,
        b.kind != Kind::O ==> b.turned(board, (b.current_state + 1) % 4) == b,
        b.kind != Kind::O ==> b.turned(board, (b.current_state + 3) % 4) == b,
{
    let k = b.kind;
    let t = b.current_state as int;
    if fits(board, b.shape, b.x - 1, b.y as int) {
        lemma_fit_stays_within(board, b, t, 0, -1);
        lemma_cells_escape(k, t, t, 0, -1);
    }
    if fits(board, b.shape, b.x + 1, b.y as int) {
        lemma_fit_stays_within(board, b, t, 0, 1);
        lemma_cells_escape(k, t, t, 0, 1);
    }
    if fits(board, b.shape, b.x as int, b.y + 1) {
        lemma_fit_stays_within(board, b, t, 1, 0);
        lemma_cells_escape(k, t, t, 1, 0);
    }
    if k != Kind::O {
        let s1 = (t + 1) % 4;
        if fits(board, b.states@[s1], b.x as int, b.y as int) {
            lemma_fit_stays_within(board, b, s1, 0, 0);
            lemma_cells_escape(k, s1, t, 0, 0);
        }
        let s3 = (t + 3) % 4;
        if fits(board, b.states@[s3], b.x as int, b.y as int) {
            lemma_fit_stays_within(board, b, s3, 0, 0);
            lemma_cells_escape(k, s3, t, 0, 0);
        }
    }
}

} // verus!
