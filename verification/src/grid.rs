//! The grid of cells: which are occupied, and by which shape.
use vstd::prelude::*;
use crate::geometry::{
    cell_index, col_at, in_bounds, index_of, lemma_dims_bounds, lemma_index_in_range,
    lemma_index_round_trip, lemma_position_round_trip, row_at, row_of, valid_dims,
};
use crate::shapes::SHAPE_COUNT;

verus! {

/// One cell of the grid.
#[derive(Clone, Copy, Debug)]
pub struct Block {
    /// Whether a committed piece covers the cell.
    pub occupied: bool,
    /// The shape of that piece; it means something only while the cell is occupied.
    pub tetromino_type: u8,
}

impl Block {
    /// What the cell holds: the shape that occupies it, or nothing.
    pub open spec fn content(&self) -> Option<u8> {
        if self.occupied {
            Some(self.tetromino_type)
        } else {
            None
        }
    }

    /// A free cell.
    pub fn new() -> (block: Block)
        ensures
            block.content() is None,
            !block.occupied,
            block.tetromino_type == 0,
    {
        Block { occupied: false, tetromino_type: 0 }
    }
}

/// Whether any of the four `positions` is occupied.
pub open spec fn any_occupied(cells: Seq<Option<u8>>, positions: Seq<usize>) -> bool {
    cells[positions[0] as int] is Some || cells[positions[1] as int] is Some
        || cells[positions[2] as int] is Some || cells[positions[3] as int] is Some
}

/// Whether `index` is one of the four `positions`.
pub open spec fn covers(positions: Seq<usize>, index: int) -> bool {
    positions[0] == index || positions[1] == index || positions[2] == index || positions[3]
        == index
}

/// Whether every column of `row` is occupied or one of the four `positions`.
pub open spec fn row_completed(
    cells: Seq<Option<u8>>,
    width: usize,
    positions: Seq<usize>,
    row: int,
) -> bool {
    forall|col: int|
        0 <= col < width ==> cells[#[trigger] cell_index(width, row, col)] is Some || covers(
            positions,
            cell_index(width, row, col),
        )
}

/// Whether occupying the four `positions` would complete at least one of the
/// rows they lie in.
pub open spec fn completes_row(
    cells: Seq<Option<u8>>,
    width: usize,
    positions: Seq<usize>,
) -> bool {
    ||| row_completed(cells, width, positions, row_at(width, positions[0] as int))
    ||| row_completed(cells, width, positions, row_at(width, positions[1] as int))
    ||| row_completed(cells, width, positions, row_at(width, positions[2] as int))
    ||| row_completed(cells, width, positions, row_at(width, positions[3] as int))
}

/// Whether every column of `row` is occupied.
pub open spec fn row_full(cells: Seq<Option<u8>>, width: usize, row: int) -> bool {
    forall|col: int| 0 <= col < width ==> (#[trigger] cells[cell_index(width, row, col)]) is Some
}

/// The bottommost full row among the rows `0 .. rows`, if any of them is full.
pub open spec fn bottom_full_row(cells: Seq<Option<u8>>, width: usize, rows: int) -> Option<int>
    decreases rows,
{
    if rows <= 0 {
        None
    } else if row_full(cells, width, rows - 1) {
        Some(rows - 1)
    } else {
        bottom_full_row(cells, width, rows - 1)
    }
}

/// The cells after `row` was cleared: every cell of `row` and of the rows above
/// it holds what the cell one row higher held, the top row is free, and the
/// rows below `row` are as they were.
pub open spec fn cleared_row(cells: Seq<Option<u8>>, width: usize, row: int) -> Seq<Option<u8>> {
    Seq::new(
        cells.len(),
        |i: int|
            if i >= (row + 1) * width {
                cells[i]
            } else if i >= width {
                cells[i - width]
            } else {
                None
            },
    )
}

/// The bottommost full row is full, no row below it is, and where there is
/// none, no row is full.
pub proof fn lemma_bottom_full_row(cells: Seq<Option<u8>>, width: usize, rows: int)
    requires
        0 <= rows,
    ensures
        match bottom_full_row(cells, width, rows) {
            Some(row) => 0 <= row < rows && row_full(cells, width, row) && forall|r: int|
                row < r < rows ==> !row_full(cells, width, r),
            None => forall|r: int| 0 <= r < rows ==> !row_full(cells, width, r),
        },
    decreases rows,
{
    if rows > 0 && !row_full(cells, width, rows - 1) {
        lemma_bottom_full_row(cells, width, rows - 1);
    }
}

/// What cell `(r, c)` holds while `clear_row` is at work on `row`: the columns
/// left of `done` are finished, and column `done` has been shifted down as far
/// up as row `y`, whose cell is free.
pub open spec fn clearing_state(
    cells: Seq<Option<u8>>,
    width: usize,
    row: int,
    done: int,
    y: int,
    r: int,
    c: int,
) -> Option<u8> {
    if c > done || r > row || (c == done && r < y) {
        cells[cell_index(width, r, c)]
    } else if c == done && r == y {
        None
    } else if r >= 1 {
        cells[cell_index(width, r - 1, c)]
    } else {
        None
    }
}

/// What `cleared_row` says of one cell, by its row and column.
pub proof fn lemma_cleared_row_at(
    cells: Seq<Option<u8>>,
    width: usize,
    height: usize,
    row: int,
    r: int,
    c: int,
)
    requires
        valid_dims(width, height),
        cells.len() == width * height,
        0 <= row < height,
        in_bounds(width, height, r, c),
    ensures
        cleared_row(cells, width, row)[cell_index(width, r, c)] == (if r > row {
            cells[cell_index(width, r, c)]
        } else if r >= 1 {
            cells[cell_index(width, r - 1, c)]
        } else {
            None
        }),
{
    let w = width as int;
    lemma_index_in_range(width, height, r, c);
    assert(r > row <==> r * w + c >= (row + 1) * w) by (nonlinear_arith)
        requires
            0 <= c < w,
    ;
    assert(r >= 1 <==> r * w + c >= w) by (nonlinear_arith)
        requires
            0 <= c < w,
            0 <= r,
    ;
    assert((r - 1) * w + c == r * w + c - w) by (nonlinear_arith);
}

/// How many of the cells `lo .. hi` are occupied.
pub open spec fn occupied_between(cells: Seq<Option<u8>>, lo: int, hi: int) -> int
    decreases hi - lo,
{
    if hi <= lo {
        0
    } else {
        occupied_between(cells, lo, hi - 1) + if cells[hi - 1] is Some {
            1int
        } else {
            0int
        }
    }
}

/// How many cells are occupied.
pub open spec fn occupied_total(cells: Seq<Option<u8>>) -> int {
    occupied_between(cells, 0, cells.len() as int)
}

/// A count of occupied cells is between zero and the number of cells counted.
pub proof fn lemma_count_bounds(cells: Seq<Option<u8>>, lo: int, hi: int)
    requires
        lo <= hi,
    ensures
        0 <= occupied_between(cells, lo, hi) <= hi - lo,
    decreases hi - lo,
{
    if lo < hi {
        lemma_count_bounds(cells, lo, hi - 1);
    }
}

/// Counting over a range is counting over its two parts.
pub proof fn lemma_count_split(cells: Seq<Option<u8>>, lo: int, mid: int, hi: int)
    requires
        lo <= mid <= hi,
    ensures
        occupied_between(cells, lo, hi) == occupied_between(cells, lo, mid) + occupied_between(
            cells,
            mid,
            hi,
        ),
    decreases hi - mid,
{
    if mid < hi {
        lemma_count_split(cells, lo, mid, hi - 1);
    }
}

/// Two ranges, one `shift` cells after the other, that are occupied at the
/// same places hold equally many occupied cells.
pub proof fn lemma_count_shifted(
    first: Seq<Option<u8>>,
    second: Seq<Option<u8>>,
    lo: int,
    hi: int,
    shift: int,
)
    requires
        forall|i: int|
            lo <= i < hi ==> ((#[trigger] first[i]) is Some <==> second[i + shift] is Some),
    ensures
        occupied_between(first, lo, hi) == occupied_between(second, lo + shift, hi + shift),
    decreases hi - lo,
{
    if lo < hi {
        lemma_count_shifted(first, second, lo, hi - 1, shift);
    }
}

/// A range of occupied cells counts its length, a range of free cells zero.
pub proof fn lemma_count_uniform(cells: Seq<Option<u8>>, lo: int, hi: int)
    requires
        lo <= hi,
    ensures
        (forall|i: int| lo <= i < hi ==> (#[trigger] cells[i]) is Some) ==> occupied_between(
            cells,
            lo,
            hi,
        ) == hi - lo,
        (forall|i: int| lo <= i < hi ==> (#[trigger] cells[i]) is None) ==> occupied_between(
            cells,
            lo,
            hi,
        ) == 0,
    decreases hi - lo,
{
    if lo < hi {
        lemma_count_uniform(cells, lo, hi - 1);
    }
}

/// Occupying a free cell raises the number of occupied cells by one;
/// occupying an occupied cell leaves it as it is.
pub proof fn lemma_count_after_set(cells: Seq<Option<u8>>, index: int, piece_type: u8)
    requires
        0 <= index < cells.len(),
    ensures
        occupied_total(cells.update(index, Some(piece_type))) == occupied_total(cells) + (
        if cells[index] is Some {
            0int
        } else {
            1int
        }),
{
    let after = cells.update(index, Some(piece_type));
    let n = cells.len() as int;
    lemma_count_split(cells, 0, index, n);
    lemma_count_split(cells, index, index + 1, n);
    lemma_count_split(after, 0, index, n);
    lemma_count_split(after, index, index + 1, n);
    lemma_count_shifted(cells, after, 0, index, 0);
    lemma_count_shifted(cells, after, index + 1, n, 0);
    reveal_with_fuel(occupied_between, 2);
}

/// Clearing a full row lowers the number of occupied cells by the width.
pub proof fn lemma_cleared_row_count(
    cells: Seq<Option<u8>>,
    width: usize,
    height: usize,
    row: int,
)
    requires
        valid_dims(width, height),
        cells.len() == width * height,
        0 <= row < height,
        row_full(cells, width, row),
    ensures
        occupied_total(cleared_row(cells, width, row)) == occupied_total(cells) - width,
{
    let w = width as int;
    let n = cells.len() as int;
    let after = cleared_row(cells, width, row);
    let a = row * w;
    let b = (row + 1) * w;
    assert(b == a + w) by (nonlinear_arith)
        requires
            a == row * w,
            b == (row + 1) * w,
    ;
    assert(0 <= a && b <= n) by (nonlinear_arith)
        requires
            a == row * w,
            b == a + w,
            n == w * (height as int),
            0 <= row < height,
            0 < w,
    ;
    lemma_count_split(cells, 0, a, n);
    lemma_count_split(cells, a, b, n);
    lemma_count_split(after, 0, w, n);
    lemma_count_split(after, w, b, n);
    lemma_count_uniform(after, 0, w);
    lemma_count_shifted(cells, after, 0, a, w);
    lemma_count_shifted(cells, after, b, n, 0);
    assert forall|i: int| a <= i < b implies (#[trigger] cells[i]) is Some by {
        assert(cells[cell_index(width, row, i - a)] is Some);
    }
    lemma_count_uniform(cells, a, b);
}

/// The cells after full rows were cleared, the bottommost first, until no
/// row is full.
pub open spec fn settled(cells: Seq<Option<u8>>, width: usize, height: usize) -> Seq<Option<u8>>
    decreases occupied_total(cells),
    when valid_dims(width, height) && cells.len() == width * height
{
    match bottom_full_row(cells, width, height as int) {
        Some(row) => {
            proof {
                lemma_bottom_full_row(cells, width, height as int);
                lemma_cleared_row_count(cells, width, height, row);
                lemma_count_bounds(
                    cleared_row(cells, width, row),
                    0,
                    cleared_row(cells, width, row).len() as int,
                );
            }
            settled(cleared_row(cells, width, row), width, height)
        },
        None => cells,
    }
}

/// How many rows are cleared on the way to the settled cells.
pub open spec fn rows_to_clear(cells: Seq<Option<u8>>, width: usize, height: usize) -> int
    decreases occupied_total(cells),
    when valid_dims(width, height) && cells.len() == width * height
{
    match bottom_full_row(cells, width, height as int) {
        Some(row) => {
            proof {
                lemma_bottom_full_row(cells, width, height as int);
                lemma_cleared_row_count(cells, width, height, row);
                lemma_count_bounds(
                    cleared_row(cells, width, row),
                    0,
                    cleared_row(cells, width, row).len() as int,
                );
            }
            1 + rows_to_clear(cleared_row(cells, width, row), width, height)
        },
        None => 0,
    }
}

/// Settling lowers the number of occupied cells by the width for each row
/// cleared, and leaves no row full.
pub proof fn lemma_settled_count(cells: Seq<Option<u8>>, width: usize, height: usize)
    requires
        valid_dims(width, height),
        cells.len() == width * height,
    ensures
        settled(cells, width, height).len() == cells.len(),
        rows_to_clear(cells, width, height) >= 0,
        occupied_total(settled(cells, width, height)) == occupied_total(cells) - width
            * rows_to_clear(cells, width, height),
        bottom_full_row(settled(cells, width, height), width, height as int) is None,
    decreases occupied_total(cells),
{
    match bottom_full_row(cells, width, height as int) {
        Some(row) => {
            lemma_bottom_full_row(cells, width, height as int);
            lemma_cleared_row_count(cells, width, height, row);
            let next = cleared_row(cells, width, row);
            lemma_count_bounds(next, 0, next.len() as int);
            lemma_settled_count(next, width, height);
            let rest = rows_to_clear(next, width, height);
            assert(width * (1 + rest) == width + width * rest) by (nonlinear_arith);
        },
        None => {},
    }
}

/// A rectangular grid of cells, stored row by row from the top.
#[derive(Clone, Debug)]
pub struct Grid {
    /// Number of columns.
    pub width: usize,
    /// Number of rows.
    pub height: usize,
    /// The cells, `width * height` of them; cell `(row, col)` is at `row * width + col`.
    pub cells: Vec<Block>,
}

impl View for Grid {
    type V = Seq<Option<u8>>;

    /// What each cell holds, in storage order.
    open spec fn view(&self) -> Seq<Option<u8>> {
        Seq::new(self.cells@.len(), |i: int| self.cells@[i].content())
    }
}

impl Grid {
    /// The grid has valid dimensions, one cell per position, and every occupied
    /// cell names one of the seven shapes.
    pub open spec fn wf(&self) -> bool {
        &&& valid_dims(self.width, self.height)
        &&& self.cells@.len() == self.width * self.height
        &&& forall|i: int|
            0 <= i < self.cells@.len() && (#[trigger] self.cells@[i]).occupied
                ==> self.cells@[i].tetromino_type < SHAPE_COUNT
    }

    /// Number of cells.
    pub open spec fn cell_count(&self) -> int {
        self.width * self.height
    }

    /// Whether the cell at `index` is occupied.
    pub open spec fn occupied_at(&self, index: int) -> bool {
        self@[index] is Some
    }

    /// An empty grid of the given dimensions.
    pub fn new(width: usize, height: usize) -> (grid: Grid)
        requires
            valid_dims(width, height),
        ensures
            grid.wf(),
            grid.width == width,
            grid.height == height,
            forall|i: int| 0 <= i < width * height ==> (#[trigger] grid@[i]) is None,
    {
        let count: usize = width * height;
        let mut cells: Vec<Block> = Vec::with_capacity(count);
        let mut i: usize = 0;
        while i < count
            invariant
                i <= count,
                cells@.len() == i,
                forall|j: int| 0 <= j < i ==> !(#[trigger] cells@[j]).occupied,
            decreases count - i,
        {
            cells.push(Block::new());
            i = i + 1;
        }
        Grid { width, height, cells }
    }

    /// The index of cell `(row, col)`, if the grid has such a cell.
    pub fn index_of(&self, row: i32, col: i32) -> (result: Option<usize>)
        requires
            self.wf(),
        ensures
            result is Some <==> in_bounds(self.width, self.height, row as int, col as int),
            result is Some ==> result.unwrap() == cell_index(self.width, row as int, col as int),
            result is Some ==> result.unwrap() < self.cell_count(),
    {
        index_of(self.width, self.height, row, col)
    }

    /// Whether the cell at `index` is occupied.
    pub fn is_occupied(&self, index: usize) -> (occupied: bool)
        requires
            self.wf(),
            index < self.cell_count(),
        ensures
            occupied == self.occupied_at(index as int),
    {
        self.cells[index].occupied
    }

    /// Whether any of the four cells is occupied.
    pub fn is_any_occupied(&self, positions: &[usize; 4]) -> (occupied: bool)
        requires
            self.wf(),
            forall|k: int| 0 <= k < 4 ==> #[trigger] positions@[k] < self.cell_count(),
        ensures
            occupied == any_occupied(self@, positions@),
    {
        let mut k: usize = 0;
        while k < 4
            invariant
                self.wf(),
                k <= 4,
                forall|j: int| 0 <= j < 4 ==> #[trigger] positions@[j] < self.cell_count(),
                forall|j: int| 0 <= j < k ==> !self.occupied_at(#[trigger] positions@[j] as int),
            decreases 4 - k,
        {
            if self.cells[positions[k]].occupied {
                return true;
            }
            k = k + 1;
        }
        false
    }

    /// Marks the cell at `index` as occupied by a piece of the given shape.
    pub fn set_occupied(&mut self, index: usize, piece_type: u8)
        requires
            old(self).wf(),
            index < old(self).cell_count(),
            piece_type < SHAPE_COUNT,
        ensures
            final(self).wf(),
            final(self).width == old(self).width,
            final(self).height == old(self).height,
            final(self)@ == old(self)@.update(index as int, Some(piece_type)),
    {
        self.cells[index] = Block { occupied: true, tetromino_type: piece_type };
    }

    /// Frees the cell at `index`.
    pub fn clear(&mut self, index: usize)
        requires
            old(self).wf(),
            index < old(self).cell_count(),
        ensures
            final(self).wf(),
            final(self).width == old(self).width,
            final(self).height == old(self).height,
            final(self)@ == old(self)@.update(index as int, None),
    {
        let kept: u8 = self.cells[index].tetromino_type;
        self.cells[index] = Block { occupied: false, tetromino_type: kept };
    }

    /// The bottommost row in which every column is occupied, if there is one.
    pub fn find_full_row(&self) -> (result: Option<usize>)
        requires
            self.wf(),
        ensures
            match result {
                Some(row) => bottom_full_row(self@, self.width, self.height as int) == Some(
                    row as int,
                ),
                None => bottom_full_row(self@, self.width, self.height as int) is None,
            },
            match result {
                Some(row) => row < self.height && row_full(self@, self.width, row as int)
                    && forall|r: int| row < r < self.height ==> !row_full(self@, self.width, r),
                None => forall|r: int| 0 <= r < self.height ==> !row_full(self@, self.width, r),
            },
    {
        proof {
            lemma_dims_bounds(self.width, self.height);
        }
        let mut y: usize = self.height;
        while y > 0
            invariant
                self.wf(),
                y <= self.height,
                4 * self.width <= 0x7fff_ffff,
                4 * self.height <= 0x7fff_ffff,
                bottom_full_row(self@, self.width, self.height as int) == bottom_full_row(
                    self@,
                    self.width,
                    y as int,
                ),
            decreases y,
        {
            y = y - 1;
            let mut answer = true;
            let mut x: usize = 0;
            while x < self.width
                invariant_except_break
                    answer,
                    forall|c: int|
                        0 <= c < x ==> self.occupied_at(
                            #[trigger] cell_index(self.width, y as int, c),
                        ),
                invariant
                    self.wf(),
                    y < self.height,
                    x <= self.width,
                    4 * self.width <= 0x7fff_ffff,
                    4 * self.height <= 0x7fff_ffff,
                ensures
                    answer == row_full(self@, self.width, y as int),
                decreases self.width - x,
            {
                let index = index_of(self.width, self.height, y as i32, x as i32).unwrap();
                if !self.cells[index].occupied {
                    answer = false;
                    assert(!(self@[cell_index(self.width, y as int, x as int)] is Some));
                    break;
                }
                x = x + 1;
            }
            if answer {
                proof {
                    lemma_bottom_full_row(self@, self.width, self.height as int);
                }
                return Some(y);
            }
        }
        proof {
            lemma_bottom_full_row(self@, self.width, self.height as int);
        }
        None
    }
    /// Clears `row`: column by column, the cell in `row` is freed and every
    /// occupied cell above it moves down by one row, so that the top row ends
    /// up free. The rows below `row` stay as they are.
    pub fn clear_row(&mut self, row: usize)
        requires
            old(self).wf(),
            row < old(self).height,
        ensures
            final(self).wf(),
            final(self).width == old(self).width,
            final(self).height == old(self).height,
            final(self)@ == cleared_row(old(self)@, old(self).width, row as int),
    {
        let ghost before = self@;
        let width: usize = self.width;
        let height: usize = self.height;
        proof {
            lemma_dims_bounds(width, height);
        }
        let mut x: usize = 0;
        while x < width
            invariant
                self.wf(),
                self.width == width,
                self.height == height,
                before.len() == width * height,
                row < height,
                x <= width,
                4 * width <= 0x7fff_ffff,
                4 * height <= 0x7fff_ffff,
                forall|r: int, c: int|
                    in_bounds(width, height, r, c) ==> #[trigger] self@[cell_index(width, r, c)]
                        == clearing_state(
                        before,
                        width,
                        row as int,
                        x as int,
                        row as int + 1,
                        r,
                        c,
                    ),
            decreases width - x,
        {
            let mut y: usize = row;
            let mut index: usize = index_of(width, height, y as i32, x as i32).unwrap();
            let ghost started = self@;
            let kept: u8 = self.cells[index].tetromino_type;
            self.cells[index] = Block { occupied: false, tetromino_type: kept };
            proof {
                assert forall|r: int, c: int|
                    in_bounds(width, height, r, c) implies #[trigger] self@[cell_index(
                    width,
                    r,
                    c,
                )] == clearing_state(before, width, row as int, x as int, y as int, r, c) by {
                    lemma_index_round_trip(width, height, r, c);
                    lemma_index_round_trip(width, height, y as int, x as int);
                    lemma_index_in_range(width, height, r, c);
                    let i = cell_index(width, r, c);
                    assert(started[i] == clearing_state(
                        before,
                        width,
                        row as int,
                        x as int,
                        row as int + 1,
                        r,
                        c,
                    ));
                }
            }
            while y >= 1
                invariant
                    self.wf(),
                    self.width == width,
                    self.height == height,
                    before.len() == width * height,
                    row < height,
                    x < width,
                    y <= row,
                    4 * width <= 0x7fff_ffff,
                    4 * height <= 0x7fff_ffff,
                    index == cell_index(width, y as int, x as int),
                    forall|r: int, c: int|
                        in_bounds(width, height, r, c) ==> #[trigger] self@[cell_index(
                            width,
                            r,
                            c,
                        )] == clearing_state(before, width, row as int, x as int, y as int, r, c),
                decreases y,
            {
                let ghost above = self@;
                y = y - 1;
                let previous_index: usize = index;
                index = index_of(width, height, y as i32, x as i32).unwrap();
                proof {
                    lemma_index_in_range(width, height, y as int + 1, x as int);
                    lemma_index_round_trip(width, height, y as int, x as int);
                    lemma_index_round_trip(width, height, y as int + 1, x as int);
                }
                if self.cells[index].occupied {
                    let moved: u8 = self.cells[index].tetromino_type;
                    self.cells[index] = Block { occupied: false, tetromino_type: moved };
                    self.cells[previous_index] = Block { occupied: true, tetromino_type: moved };
                }
                proof {
                    assert(above[index as int] == before[index as int]);
                    assert forall|r: int, c: int|
                        in_bounds(width, height, r, c) implies #[trigger] self@[cell_index(
                        width,
                        r,
                        c,
                    )] == clearing_state(before, width, row as int, x as int, y as int, r, c) by {
                        lemma_index_round_trip(width, height, r, c);
                        lemma_index_in_range(width, height, r, c);
                        let i = cell_index(width, r, c);
                        assert(above[i] == clearing_state(
                            before,
                            width,
                            row as int,
                            x as int,
                            y as int + 1,
                            r,
                            c,
                        ));
                    }
                }
            }
            x = x + 1;
        }
        proof {
            let target = cleared_row(before, width, row as int);
            assert forall|i: int| 0 <= i < width * height implies self@[i] == target[i] by {
                lemma_position_round_trip(width, height, i);
                let r = row_at(width, i);
                let c = col_at(width, i);
                lemma_cleared_row_at(before, width, height, row as int, r, c);
            }
        }
    }
    /// Clears full rows, the bottommost first, until none is left, and returns
    /// how many were cleared.
    pub fn clear_lines_if_applicable(&mut self) -> (cleared: usize)
        requires
            old(self).wf(),
        ensures
            final(self).wf(),
            final(self).width == old(self).width,
            final(self).height == old(self).height,
            final(self)@ == settled(old(self)@, old(self).width, old(self).height),
            cleared == rows_to_clear(old(self)@, old(self).width, old(self).height),
            forall|r: int|
                0 <= r < old(self).height ==> !row_full(final(self)@, old(self).width, r),
            occupied_total(final(self)@) == occupied_total(old(self)@) - cleared * old(self).width,
    {
        let ghost before = self@;
        let ghost width = self.width;
        let ghost height = self.height;
        let mut cleared: usize = 0;
        proof {
            lemma_count_bounds(before, 0, before.len() as int);
        }
        loop
            invariant_except_break
                settled(self@, width, height) == settled(before, width, height),
                cleared + rows_to_clear(self@, width, height) == rows_to_clear(
                    before,
                    width,
                    height,
                ),
            invariant
                self.wf(),
                self.width == width,
                self.height == height,
                before.len() == width * height,
                occupied_total(before) <= width * height,
                occupied_total(self@) + cleared * width == occupied_total(before),
            ensures
                self@ == settled(before, width, height),
                cleared == rows_to_clear(before, width, height),
                forall|r: int| 0 <= r < height ==> !row_full(self@, width, r),
            decreases occupied_total(self@),
        {
            match self.find_full_row() {
                Some(row) => {
                    proof {
                        lemma_cleared_row_count(self@, width, height, row as int);
                        lemma_count_bounds(
                            cleared_row(self@, width, row as int),
                            0,
                            self@.len() as int,
                        );
                        assert((cleared + 1) * width == cleared * width + width)
                            by (nonlinear_arith);
                        assert(cleared + 1 <= (cleared + 1) * width) by (nonlinear_arith)
                            requires
                                1 <= width,
                        ;
                    }
                    self.clear_row(row);
                    cleared = cleared + 1;
                },
                None => {
                    break;
                },
            }
        }
        cleared
    }
    /// Whether occupying the four `positions` would leave at least one row
    /// fully occupied: for each row that holds one of them, every column is
    /// either occupied already or one of the four.
    pub fn would_clear_line(&self, positions: &[usize; 4]) -> (result: bool)
        requires
            self.wf(),
            forall|k: int| 0 <= k < 4 ==> #[trigger] positions@[k] < self.cell_count(),
        ensures
            result == completes_row(self@, self.width, positions@),
    {
        proof {
            lemma_dims_bounds(self.width, self.height);
        }
        let mut i: usize = 0;
        while i < 4
            invariant
                self.wf(),
                i <= 4,
                4 * self.width <= 0x7fff_ffff,
                4 * self.height <= 0x7fff_ffff,
                forall|k: int| 0 <= k < 4 ==> #[trigger] positions@[k] < self.cell_count(),
                forall|k: int|
                    0 <= k < i ==> !row_completed(
                        self@,
                        self.width,
                        positions@,
                        row_at(self.width, #[trigger] positions@[k] as int),
                    ),
            decreases 4 - i,
        {
            let row: usize = row_of(self.width, self.height, positions[i]);
            let mut complete = true;
            let mut col: usize = 0;
            while col < self.width
                invariant_except_break
                    complete,
                    forall|c: int|
                        0 <= c < col ==> self@[#[trigger] cell_index(self.width, row as int, c)]
                            is Some || covers(positions@, cell_index(self.width, row as int, c)),
                invariant
                    self.wf(),
                    row < self.height,
                    col <= self.width,
                    4 * self.width <= 0x7fff_ffff,
                    4 * self.height <= 0x7fff_ffff,
                ensures
                    complete == row_completed(self@, self.width, positions@, row as int),
                decreases self.width - col,
            {
                let grid_index = index_of(self.width, self.height, row as i32, col as i32).unwrap();
                let occupied = self.cells[grid_index].occupied || positions[0] == grid_index
                    || positions[1] == grid_index || positions[2] == grid_index || positions[3]
                    == grid_index;
                if !occupied {
                    complete = false;
                    break;
                }
                col = col + 1;
            }
            if complete {
                return true;
            }
            i = i + 1;
        }
        false
    }
}

} // verus!
