use crate::block::{fits, mask_count, Block};
use vstd::prelude::*;

verus! {

/// Number of columns of the field.
pub const WIDTH: u8 = 10;

/// Number of rows of the field.
pub const HEIGHT: u8 = 20;

/// The largest cell value: cells hold `0` (empty) or a piece kind's color id.
pub const MAX_COLOR: u8 = 7;

/// The playing field: `board_map[y][x]` is the cell in row `y`, column `x`,
/// `0` when empty and a piece kind's color id when occupied.
#[derive(Debug)]
pub struct Board {
    pub width: u8,
    pub height: u8,
    pub board_map: [[u8; 10]; 20],
}

/// A row whose every cell is occupied.
pub open spec fn row_complete(row: Seq<u8>) -> bool {
    forall|x: int| 0 <= x < row.len() ==> row[x] != 0
}

/// The rows that survive a line clear, in their order: every row that is
/// not complete.
pub open spec fn kept_rows(rows: Seq<Seq<u8>>) -> Seq<Seq<u8>>
    decreases rows.len(),
{
    if rows.len() == 0 {
        Seq::empty()
    } else {
        let rest = kept_rows(rows.drop_last());
        if row_complete(rows.last()) {
            rest
        } else {
            rest.push(rows.last())
        }
    }
}

/// Number of complete rows.
pub open spec fn complete_count(rows: Seq<Seq<u8>>) -> int {
    rows.len() - kept_rows(rows).len()
}

/// A row of `WIDTH` empty cells.
pub open spec fn empty_row() -> Seq<u8> {
    Seq::new(WIDTH as nat, |x: int| 0u8)
}

/// The field after a line clear: the complete rows are gone, the others keep
/// their order and sink to the bottom, and as many empty rows as were removed
/// come in at the top.
pub open spec fn cleared_rows(rows: Seq<Seq<u8>>) -> Seq<Seq<u8>> {
    Seq::new(complete_count(rows) as nat, |i: int| empty_row()) + kept_rows(rows)
}

proof fn lemma_kept_rows_len(rows: Seq<Seq<u8>>)
    ensures
        kept_rows(rows).len() <= rows.len(),
    decreases rows.len(),
{
    if rows.len() > 0 {
        lemma_kept_rows_len(rows.drop_last());
    }
}

/// Number of occupied cells in a row.
pub open spec fn row_occupied(row: Seq<u8>) -> int
    decreases row.len(),
{
    if row.len() == 0 {
        0
    } else {
        row_occupied(row.drop_last()) + if row.last() != 0 {
            1int
        } else {
            0
        }
    }
}

/// Number of occupied cells in a sequence of rows.
pub open spec fn occupied(rows: Seq<Seq<u8>>) -> int
    decreases rows.len(),
{
    if rows.len() == 0 {
        0
    } else {
        occupied(rows.drop_last()) + row_occupied(rows.last())
    }
}

/// Number of occupied cells among the first `c` cells of a mask row.
pub open spec fn row_prefix(row: [u8; 4], c: int) -> int
    decreases c,
{
    if c <= 0 {
        0
    } else {
        row_prefix(row, c - 1) + if row@[c - 1] != 0 {
            1int
        } else {
            0
        }
    }
}

/// Number of occupied cells among the first `r` rows of a mask.
pub open spec fn mask_prefix(mask: [[u8; 4]; 4], r: int) -> int
    decreases r,
{
    if r <= 0 {
        0
    } else {
        mask_prefix(mask, r - 1) + row_prefix(mask@[r - 1], 4)
    }
}

proof fn lemma_row_fill_one(row: Seq<u8>, x: int, v: u8)
    requires
        0 <= x < row.len(),
        row[x] == 0,
        v != 0,
    ensures
        row_occupied(row.update(x, v)) == row_occupied(row) + 1,
    decreases row.len(),
{
    let u = row.update(x, v);
    if x == row.len() - 1 {
        assert(u.drop_last() =~= row.drop_last());
    } else {
        assert(u.drop_last() =~= row.drop_last().update(x, v));
        lemma_row_fill_one(row.drop_last(), x, v);
    }
}

proof fn lemma_rows_fill_one(rows: Seq<Seq<u8>>, x: int, y: int, v: u8)
    requires
        0 <= y < rows.len(),
        0 <= x < rows[y].len(),
        rows[y][x] == 0,
        v != 0,
    ensures
        occupied(rows.update(y, rows[y].update(x, v))) == occupied(rows) + 1,
    decreases rows.len(),
{
    let u = rows.update(y, rows[y].update(x, v));
    if y == rows.len() - 1 {
        assert(u.drop_last() =~= rows.drop_last());
        lemma_row_fill_one(rows[y], x, v);
    } else {
        assert(u.drop_last() =~= rows.drop_last().update(y, rows[y].update(x, v)));
        lemma_rows_fill_one(rows.drop_last(), x, y, v);
    }
}

proof fn lemma_mask_prefix_full(mask: [[u8; 4]; 4])
    ensures
        mask_prefix(mask, 4) == mask_count(mask),
{
    reveal_with_fuel(row_prefix, 5);
    reveal_with_fuel(mask_prefix, 5);
}

impl Board {
    /// The value of the cell at column `x`, row `y`.
    pub open spec fn cell(&self, x: int, y: int) -> u8 {
        self.board_map@[y]@[x]
    }

    /// The rows of the field, top first, each as a sequence of cells.
    pub open spec fn rows(&self) -> Seq<Seq<u8>> {
        Seq::new(20, |y: int| self.board_map@[y]@)
    }

    pub open spec fn in_bounds(&self, x: int, y: int) -> bool {
        0 <= x < self.width && 0 <= y < self.height
    }

    /// The rows after the occupied cells of piece `b` are written at its
    /// anchor; every other cell keeps its value.
    pub open spec fn with_piece(&self, b: Block) -> Seq<Seq<u8>> {
        Seq::new(
            20,
            |y: int|
                Seq::new(
                    10,
                    |x: int|
                        if b.covered(x, y) != 0 {
                            b.covered(x, y)
                        } else {
                            self.cell(x, y)
                        },
                ),
        )
    }

    /// Dimensions are 10 by 20 and every cell is empty or a color id.
    pub open spec fn wf(&self) -> bool {
        &&& self.width == WIDTH
        &&& self.height == HEIGHT
        &&& forall|x: int, y: int|
            0 <= x < WIDTH && 0 <= y < HEIGHT ==> #[trigger] self.cell(x, y) <= MAX_COLOR
    }

    pub open spec fn is_empty(&self) -> bool {
        forall|x: int, y: int| 0 <= x < WIDTH && 0 <= y < HEIGHT ==> #[trigger] self.cell(x, y) == 0
    }

    /// An empty 10 by 20 field.
    pub fn new() -> (r: Board)
        ensures
            r.wf(),
            r.is_empty(),
    {
        let row: [u8; 10] = [0u8; 10];
        let r = Board { width: WIDTH, height: HEIGHT, board_map: [row; 20] };
        assert forall|x: int, y: int| 0 <= x < WIDTH && 0 <= y < HEIGHT implies #[trigger] r.cell(x, y) == 0 by {
            assert(r.board_map@[y] == row);
        }
        r
    }

    /// The occupant of the cell at column `x`, row `y`.
    pub fn get_position(&self, x: u8, y: u8) -> (r: u8)
        requires
            x < WIDTH,
            y < HEIGHT,
        ensures
            r == self.cell(x as int, y as int),
    {
        self.board_map[y as usize][x as usize]
    }

    /// Writes `value` into the cell at column `x`, row `y`; no other cell changes.
    pub fn set_position(&mut self, x: usize, y: usize, value: u8)
        requires
            x < WIDTH,
            y < HEIGHT,
        ensures
            final(self).width == old(self).width,
            final(self).height == old(self).height,
            forall|i: int, j: int|
                0 <= i < WIDTH && 0 <= j < HEIGHT ==> #[trigger] final(self).cell(i, j) == if i == x
                    && j == y {
                    value
                } else {
                    old(self).cell(i, j)
                },
    {
        let mut row = self.board_map[y];
        row[x] = value;
        self.board_map[y] = row;
    }

    /// Writes every occupied cell of piece `b` into the field at the piece's
    /// anchor plus the cell's offset; no other cell changes.
    pub fn place_block(&mut self, b: &Block)
        requires
            old(self).wf(),
            b.wf(),
            fits(old(self), b.shape, b.x as int, b.y as int),
        ensures
            final(self).wf(),
            final(self).rows() == old(self).with_piece(*b),
            occupied(final(self).rows()) == occupied(old(self).rows()) + mask_count(b.shape),
    {
        let ghost start = *self;
        let mut r: usize = 0;
        while r < 4
            invariant
                r <= 4,
                b.wf(),
                start.wf(),
                fits(&start, b.shape, b.x as int, b.y as int),
                self.wf(),
                occupied(self.rows()) == occupied(start.rows()) + mask_prefix(b.shape, r as int),
                forall|fx: int, fy: int|
                    0 <= fx < WIDTH && 0 <= fy < HEIGHT ==> #[trigger] self.cell(fx, fy) == if b.covered(fx, fy) != 0 && fy - b.y < r {
                        b.covered(fx, fy)
                    } else {
                        start.cell(fx, fy)
                    },
            decreases 4 - r,
        {
            let mut c: usize = 0;
            while c < 4
                invariant
                    r < 4,
                    c <= 4,
                    b.wf(),
                    start.wf(),
                    fits(&start, b.shape, b.x as int, b.y as int),
                    self.wf(),
                    occupied(self.rows()) == occupied(start.rows()) + mask_prefix(b.shape, r as int)
                        + row_prefix(b.shape@[r as int], c as int),
                    forall|fx: int, fy: int|
                        0 <= fx < WIDTH && 0 <= fy < HEIGHT ==> #[trigger] self.cell(fx, fy) == if b.covered(fx, fy) != 0 && (fy - b.y < r || (fy - b.y == r && fx - b.x < c)) {
                            b.covered(fx, fy)
                        } else {
                            start.cell(fx, fy)
                        },
                decreases 4 - c,
            {
                let v = b.shape[r][c];
                if v != 0 {
                    assert(b.shape@[r as int]@[c as int] != 0);
                    assert(b.states@[b.current_state as int]@[r as int]@[c as int] <= MAX_COLOR);
                    let ghost before = self.rows();
                    let ghost bx = b.x + c;
                    let ghost by = b.y + r;
                    assert(b.covered(bx, by) != 0);
                    assert(start.in_bounds(bx, by) && start.cell(bx, by) == 0);
                    assert(self.cell(bx, by) == start.cell(bx, by));
                    assert(before[by][bx] == 0);
                    let ghost old_board = *self;
                    self.set_position(b.x as usize + c, b.y as usize + r, v);
                    proof {
                        let target = before.update(by, before[by].update(bx, v));
                        assert forall|yy: int| 0 <= yy < HEIGHT implies #[trigger] self.rows()[yy] =~= target[yy] by {
                            assert forall|xx: int| 0 <= xx < WIDTH implies self.rows()[yy][xx] == target[yy][xx] by {
                                assert(self.cell(xx, yy) == self.rows()[yy][xx]);
                                assert(old_board.cell(xx, yy) == before[yy][xx]);
                            }
                        }
                        assert(self.rows() =~= target);
                        lemma_rows_fill_one(before, bx, by, v);
                    }
                }
                c += 1;
            }
            r += 1;
        }
        proof {
            lemma_mask_prefix_full(b.shape);
        }
        assert forall|y: int| 0 <= y < HEIGHT implies #[trigger] self.rows()[y] =~= start.with_piece(*b)[y] by {
            assert forall|x: int| 0 <= x < WIDTH implies self.rows()[y][x] == start.with_piece(*b)[y][x] by {
                assert(self.cell(x, y) == self.rows()[y][x]);
            }
        }
        assert(self.rows() =~= start.with_piece(*b));
    }

    /// Removes every complete row at once; the rows above sink by the number
    /// of removed rows below them and empty rows fill the top. Returns the
    /// number of rows removed.
    pub fn clear_completed_rows(&mut self) -> (n: u8)
        requires
            old(self).wf(),
        ensures
            final(self).wf(),
            final(self).rows() == cleared_rows(old(self).rows()),
            n == complete_count(old(self).rows()),
    {
        let ghost rows = self.rows();
        let mut kept: Vec<[u8; 10]> = Vec::new();
        let mut y: usize = 0;
        while y < 20
            invariant
                y <= 20,
                self.wf(),
                rows == self.rows(),
                kept@.len() == kept_rows(rows.take(y as int)).len(),
                forall|i: int| 0 <= i < kept@.len() ==> #[trigger] kept@[i]@ == kept_rows(rows.take(y as int))[i],
                forall|i: int, x: int| 0 <= i < kept@.len() && 0 <= x < WIDTH ==> #[trigger] kept@[i]@[x] <= MAX_COLOR,
            decreases 20 - y,
        {
            let row = self.board_map[y];
            let mut full = true;
            let mut x: usize = 0;
            while x < 10
                invariant
                    x <= 10,
                    full == forall|i: int| 0 <= i < x ==> row@[i] != 0,
                decreases 10 - x,
            {
                if row[x] == 0 {
                    full = false;
                }
                x += 1;
            }
            proof {
                assert(rows.take(y + 1).drop_last() =~= rows.take(y as int));
                assert(rows.take(y + 1).last() == row@);
                assert forall|i: int| 0 <= i < WIDTH implies #[trigger] row@[i] <= MAX_COLOR by {
                    assert(self.cell(i, y as int) <= MAX_COLOR);
                }
            }
            if !full {
                kept.push(row);
            }
            y += 1;
        }
        assert(rows.take(20) =~= rows);
        proof {
            lemma_kept_rows_len(rows);
        }
        let n = 20 - kept.len();
        let empty: [u8; 10] = [0u8; 10];
        let mut map: [[u8; 10]; 20] = [empty; 20];
        let mut j: usize = 0;
        while j < kept.len()
            invariant
                n + kept@.len() == 20,
                j <= kept@.len(),
                forall|i: int| 0 <= i < n ==> #[trigger] map@[i] == empty,
                forall|i: int| 0 <= i < j ==> #[trigger] map@[n + i] == kept@[i],
                forall|i: int| n + j <= i < 20 ==> #[trigger] map@[i] == empty,
            decreases kept@.len() - j,
        {
            map[n + j] = kept[j];
            j += 1;
        }
        self.board_map = map;
        proof {
            let target = cleared_rows(rows);
            assert forall|i: int| 0 <= i < 20 implies #[trigger] self.rows()[i] =~= target[i] by {
                if i < n {
                    assert(map@[i] == empty);
                } else {
                    assert(map@[n + (i - n)] == kept@[i - n]);
                }
            }
            assert(self.rows() =~= target);
            assert forall|x: int, y: int| 0 <= x < WIDTH && 0 <= y < HEIGHT implies #[trigger] self.cell(x, y) <= MAX_COLOR by {
                if y >= n {
                    assert(map@[n + (y - n)] == kept@[y - n]);
                }
            }
        }
        n as u8
    }
}

} // verus!
