use vstd::prelude::*;
use crate::config::{CursorShape, Rgb};

verus! {

/// A set of cell attributes, one bit each.
#[derive(Clone, Copy, Debug, PartialEq, Eq, Structural)]
pub struct CellFlags {
    pub bits: u8,
}

impl View for CellFlags {
    type V = u8;

    open spec fn view(&self) -> u8 {
        self.bits
    }
}

pub const BOLD_BIT: u8 = 0x01;
pub const DIM_BIT: u8 = 0x02;
pub const ITALIC_BIT: u8 = 0x04;
pub const UNDERLINE_BIT: u8 = 0x08;
pub const STRIKETHROUGH_BIT: u8 = 0x10;
pub const REVERSE_BIT: u8 = 0x20;
pub const BLINK_BIT: u8 = 0x40;
pub const HIDDEN_BIT: u8 = 0x80;

impl CellFlags {
    pub fn empty() -> (f: CellFlags)
        ensures
            f@ == 0,
    {
        CellFlags { bits: 0 }
    }

    pub fn from_bits(bits: u8) -> (f: CellFlags)
        ensures
            f@ == bits,
    {
        CellFlags { bits }
    }

    pub fn bold() -> (f: CellFlags)
        ensures
            f@ == BOLD_BIT,
    {
        CellFlags { bits: BOLD_BIT }
    }

    pub fn dim() -> (f: CellFlags)
        ensures
            f@ == DIM_BIT,
    {
        CellFlags { bits: DIM_BIT }
    }

    pub fn italic() -> (f: CellFlags)
        ensures
            f@ == ITALIC_BIT,
    {
        CellFlags { bits: ITALIC_BIT }
    }

    pub fn underline() -> (f: CellFlags)
        ensures
            f@ == UNDERLINE_BIT,
    {
        CellFlags { bits: UNDERLINE_BIT }
    }

    pub fn strikethrough() -> (f: CellFlags)
        ensures
            f@ == STRIKETHROUGH_BIT,
    {
        CellFlags { bits: STRIKETHROUGH_BIT }
    }

    pub fn reverse() -> (f: CellFlags)
        ensures
            f@ == REVERSE_BIT,
    {
        CellFlags { bits: REVERSE_BIT }
    }

    pub fn blink() -> (f: CellFlags)
        ensures
            f@ == BLINK_BIT,
    {
        CellFlags { bits: BLINK_BIT }
    }

    pub fn hidden() -> (f: CellFlags)
        ensures
            f@ == HIDDEN_BIT,
    {
        CellFlags { bits: HIDDEN_BIT }
    }

    pub fn bits(&self) -> (b: u8)
        ensures
            b == self@,
    {
        self.bits
    }

    pub fn is_empty(&self) -> (r: bool)
        ensures
            r == (self@ == 0),
    {
        self.bits == 0
    }

    /// Whether every attribute of `other` is in this set.
    pub fn contains(&self, other: CellFlags) -> (r: bool)
        ensures
            r == (self@ & other@ == other@),
    {
        self.bits & other.bits == other.bits
    }

    pub fn insert(&mut self, other: CellFlags)
        ensures
            final(self)@ == old(self)@ | other@,
    {
        self.bits = self.bits | other.bits;
    }

    pub fn remove(&mut self, other: CellFlags)
        ensures
            final(self)@ == old(self)@ & !other@,
    {
        self.bits = self.bits & !other.bits;
    }
}

impl core::ops::BitOr for CellFlags {
    type Output = CellFlags;

    fn bitor(self, rhs: CellFlags) -> (r: CellFlags)
        ensures
            r@ == self@ | rhs@,
    {
        CellFlags { bits: self.bits | rhs.bits }
    }
}

impl vstd::std_specs::ops::BitOrSpecImpl for CellFlags {
    open spec fn obeys_bitor_spec() -> bool {
        true
    }

    open spec fn bitor_req(self, rhs: CellFlags) -> bool {
        true
    }

    open spec fn bitor_spec(self, rhs: CellFlags) -> CellFlags {
        CellFlags { bits: self.bits | rhs.bits }
    }
}

/// One character slot of the screen with its rendition.
#[derive(Clone, Copy, Debug, PartialEq, Eq, Structural)]
pub struct Cell {
    pub c: char,
    pub fg: Rgb,
    pub bg: Rgb,
    pub flags: CellFlags,
}

/// The foreground of an erased cell.
pub open spec fn blank_fg() -> Rgb {
    Rgb { r: 255, g: 255, b: 255 }
}

/// The background of an erased cell.
pub open spec fn blank_bg() -> Rgb {
    Rgb { r: 0, g: 0, b: 0 }
}

/// A space in the default colours with no attributes.
pub open spec fn blank_cell() -> Cell {
    Cell { c: ' ', fg: blank_fg(), bg: blank_bg(), flags: CellFlags { bits: 0 } }
}

pub open spec fn blank_row(n: nat) -> Seq<Cell> {
    Seq::new(n, |i: int| blank_cell())
}

impl Default for Cell {
    fn default() -> (c: Cell)
        ensures
            c == blank_cell(),
    {
        Cell {
            c: ' ',
            fg: Rgb { r: 255, g: 255, b: 255 },
            bg: Rgb { r: 0, g: 0, b: 0 },
            flags: CellFlags { bits: 0 },
        }
    }
}

/// A row of `n` blank cells.
pub fn blank_row_vec(n: usize) -> (v: Vec<Cell>)
    ensures
        v@ == blank_row(n as nat),
{
    let mut v: Vec<Cell> = Vec::with_capacity(n);
    let mut i: usize = 0;
    while i < n
        invariant
            i <= n,
            v@ == blank_row(i as nat),
        decreases n - i,
    {
        v.push(Cell::default());
        i = i + 1;
        assert(v@ =~= blank_row(i as nat));
    }
    v
}

/// Where the cursor is and how it is drawn.
#[derive(Clone, Copy, Debug, PartialEq, Eq, Structural)]
pub struct Cursor {
    pub row: usize,
    pub col: usize,
    pub shape: CursorShape,
    pub visible: bool,
}

/// A row cut or padded with blank cells to `n` cells.
pub open spec fn fit_row(row: Seq<Cell>, n: nat) -> Seq<Cell> {
    Seq::new(n, |i: int| if i < row.len() { row[i] } else { blank_cell() })
}

/// The scrollback after `row` is added, the oldest entry leaving when it is full.
pub open spec fn push_bounded(sb: Seq<Seq<Cell>>, row: Seq<Cell>, limit: nat) -> Seq<Seq<Cell>> {
    if limit == 0 {
        sb
    } else if sb.len() >= limit {
        sb.drop_first().push(row)
    } else {
        sb.push(row)
    }
}

/// The rows after the region `[top, bottom]` moves up one line, a blank row entering at `bottom`.
pub open spec fn shift_up(cells: Seq<Seq<Cell>>, top: int, bottom: int, cols: nat) -> Seq<
    Seq<Cell>,
> {
    cells.remove(top).insert(bottom, blank_row(cols))
}

/// The rows after the region `[top, bottom]` moves down one line, a blank row entering at `top`.
pub open spec fn shift_down(cells: Seq<Seq<Cell>>, top: int, bottom: int, cols: nat) -> Seq<
    Seq<Cell>,
> {
    cells.remove(bottom).insert(top, blank_row(cols))
}

/// The scrollback after the region starting at `top` moves up one line: only a region at the
/// top of the screen hands its first row to the scrollback.
pub open spec fn scrolled_history(
    sb: Seq<Seq<Cell>>,
    cells: Seq<Seq<Cell>>,
    top: int,
    limit: nat,
) -> Seq<Seq<Cell>> {
    if top == 0 {
        push_bounded(sb, cells[0], limit)
    } else {
        sb
    }
}

/// The rows of the grid resized to `rows` by `cols`, keeping what fits and padding with blanks.
pub open spec fn resized(cells: Seq<Seq<Cell>>, rows: nat, cols: nat) -> Seq<Seq<Cell>> {
    Seq::new(
        rows,
        |r: int|
            if r < cells.len() {
                fit_row(cells[r], cols)
            } else {
                blank_row(cols)
            },
    )
}

/// Cuts or pads `row` with blank cells to `n` cells.
pub fn fit_row_vec(row: &mut Vec<Cell>, n: usize)
    ensures
        final(row)@ == fit_row(old(row)@, n as nat),
{
    let ghost before = row@;
    if row.len() > n {
        row.truncate(n);
    } else {
        while row.len() < n
            invariant
                before.len() <= row@.len() <= n,
                forall|j: int|
                    0 <= j < row@.len() ==> #[trigger] row@[j] == if j < before.len() {
                        before[j]
                    } else {
                        blank_cell()
                    },
            decreases n - row@.len(),
        {
            row.push(Cell::default());
        }
    }
    assert(row@ =~= fit_row(before, n as nat));
}

/// A row with the cells in `[from, to)` made blank.
pub open spec fn blanked(row: Seq<Cell>, from: int, to: int) -> Seq<Cell> {
    Seq::new(row.len(), |j: int| if from <= j < to { blank_cell() } else { row[j] })
}

/// One line of scrolling of the whole screen: the top row goes to the scrollback.
pub open spec fn up_step(s: (Seq<Seq<Cell>>, Seq<Seq<Cell>>), cols: nat, limit: nat) -> (
    Seq<Seq<Cell>>,
    Seq<Seq<Cell>>,
) {
    (shift_up(s.0, 0, s.0.len() - 1, cols), push_bounded(s.1, s.0[0], limit))
}

/// `n` lines of scrolling of the whole screen.
pub open spec fn up_steps(s: (Seq<Seq<Cell>>, Seq<Seq<Cell>>), cols: nat, limit: nat, n: nat) -> (
    Seq<Seq<Cell>>,
    Seq<Seq<Cell>>,
)
    decreases n,
{
    if n == 0 {
        s
    } else {
        up_step(up_steps(s, cols, limit, (n - 1) as nat), cols, limit)
    }
}

/// A row with the `k` cells from `col` on removed and `k` blank cells added at the end.
pub open spec fn deleted_cells(row: Seq<Cell>, col: int, k: int) -> Seq<Cell> {
    row.subrange(0, col) + row.subrange(col + k, row.len() as int) + blank_row(k as nat)
}

/// A row with `k` blank cells put in at `col`, the last `k` cells falling off the end.
pub open spec fn inserted_cells(row: Seq<Cell>, col: int, k: int) -> Seq<Cell> {
    row.subrange(0, col) + blank_row(k as nat) + row.subrange(col, row.len() - k)
}

/// The rows with `k` blank rows put in at `at`, rows pushed past `bottom` lost; rows outside
/// `[at, bottom]` stay.
pub open spec fn inserted_lines(
    lines: Seq<Seq<Cell>>,
    at: int,
    bottom: int,
    k: int,
    cols: nat,
) -> Seq<Seq<Cell>> {
    Seq::new(
        lines.len(),
        |r: int|
            if r < at || r > bottom {
                lines[r]
            } else if r < at + k {
                blank_row(cols)
            } else {
                lines[r - k]
            },
    )
}

/// The rows with the `k` rows from `at` on removed, the rows below up to `bottom` moving up and
/// blank rows filling in above `bottom`; rows outside `[at, bottom]` stay.
pub open spec fn deleted_lines(
    lines: Seq<Seq<Cell>>,
    at: int,
    bottom: int,
    k: int,
    cols: nat,
) -> Seq<Seq<Cell>> {
    Seq::new(
        lines.len(),
        |r: int|
            if r < at || r > bottom {
                lines[r]
            } else if r + k <= bottom {
                lines[r + k]
            } else {
                blank_row(cols)
            },
    )
}

/// The scrollback after each of `rows` is added in order.
pub open spec fn pushed_all(sb: Seq<Seq<Cell>>, rows: Seq<Seq<Cell>>, limit: nat) -> Seq<
    Seq<Cell>,
>
    decreases rows.len(),
{
    if rows.len() == 0 {
        sb
    } else {
        push_bounded(pushed_all(sb, rows.drop_last(), limit), rows.last(), limit)
    }
}

/// The screen contents: `rows` by `cols` cells and the rows that scrolled off the top.
pub struct Grid {
    pub cells: Vec<Vec<Cell>>,
    pub rows: usize,
    pub cols: usize,
    pub scrollback: std::collections::VecDeque<Vec<Cell>>,
    pub scrollback_limit: usize,
}

impl Grid {
    /// The visible rows.
    pub open spec fn lines(&self) -> Seq<Seq<Cell>> {
        self.cells@.map_values(|r: Vec<Cell>| r@)
    }

    /// The scrollback, oldest first.
    pub open spec fn history(&self) -> Seq<Seq<Cell>> {
        self.scrollback@.map_values(|r: Vec<Cell>| r@)
    }

    /// The grid is a full rectangle of at least one cell and the scrollback is within its bound.
    pub open spec fn wf(&self) -> bool {
        &&& self.rows >= 1
        &&& self.cols >= 1
        &&& self.cells@.len() == self.rows
        &&& forall|r: int| 0 <= r < self.rows ==> (#[trigger] self.cells@[r])@.len() == self.cols
        &&& self.scrollback@.len() <= self.scrollback_limit
    }

    pub fn new(rows: usize, cols: usize, scrollback_limit: usize) -> (g: Grid)
        requires
            rows >= 1,
            cols >= 1,
        ensures
            g.wf(),
            g.rows == rows,
            g.cols == cols,
            g.scrollback_limit == scrollback_limit,
            g.lines() == Seq::new(rows as nat, |r: int| blank_row(cols as nat)),
            g.history() == Seq::<Seq<Cell>>::empty(),
    {
        let mut cells: Vec<Vec<Cell>> = Vec::with_capacity(rows);
        let mut i: usize = 0;
        while i < rows
            invariant
                i <= rows,
                cells@.len() == i,
                forall|r: int| 0 <= r < i ==> (#[trigger] cells@[r])@ == blank_row(cols as nat),
            decreases rows - i,
        {
            cells.push(blank_row_vec(cols));
            i = i + 1;
        }
        let g = Grid {
            cells,
            rows,
            cols,
            scrollback: std::collections::VecDeque::new(),
            scrollback_limit,
        };
        assert(g.lines() =~= Seq::new(rows as nat, |r: int| blank_row(cols as nat)));
        assert(g.history() =~= Seq::<Seq<Cell>>::empty());
        g
    }

    /// Changes the size, keeping each cell that still fits and filling new space with blanks.
    pub fn resize(&mut self, new_rows: usize, new_cols: usize)
        requires
            old(self).wf(),
            new_rows >= 1,
            new_cols >= 1,
        ensures
            final(self).wf(),
            final(self).rows == new_rows,
            final(self).cols == new_cols,
            final(self).scrollback_limit == old(self).scrollback_limit,
            final(self).lines() == resized(old(self).lines(), new_rows as nat, new_cols as nat),
            final(self).history() == old(self).history(),
    {
        let ghost old_lines = self.lines();
        let old_rows = self.rows;
        let mut r: usize = 0;
        while r < old_rows
            invariant
                old_rows == old(self).rows,
                r <= old_rows,
                self.cells@.len() == old_rows,
                self.scrollback == old(self).scrollback,
                self.scrollback_limit == old(self).scrollback_limit,
                self.cols == old(self).cols,
                old_lines == old(self).lines(),
                forall|i: int|
                    0 <= i < r ==> (#[trigger] self.cells@[i])@ == fit_row(
                        old_lines[i],
                        new_cols as nat,
                    ),
                forall|i: int| r <= i < old_rows ==> (#[trigger] self.cells@[i])@ == old_lines[i],
            decreases old_rows - r,
        {
            fit_row_vec(&mut self.cells[r], new_cols);
            assert(self.cells@[r as int]@ =~= fit_row(old_lines[r as int], new_cols as nat));
            r = r + 1;
        }
        if new_rows < old_rows {
            self.cells.truncate(new_rows);
        } else {
            while self.cells.len() < new_rows
                invariant
                    old_rows <= self.cells@.len() <= new_rows,
                    self.scrollback == old(self).scrollback,
                    self.scrollback_limit == old(self).scrollback_limit,
                    forall|i: int|
                        0 <= i < old_rows ==> (#[trigger] self.cells@[i])@ == fit_row(
                            old_lines[i],
                            new_cols as nat,
                        ),
                    forall|i: int|
                        old_rows <= i < self.cells@.len() ==> (#[trigger] self.cells@[i])@
                            == blank_row(new_cols as nat),
                decreases new_rows - self.cells@.len(),
            {
                self.cells.push(blank_row_vec(new_cols));
            }
        }
        self.rows = new_rows;
        self.cols = new_cols;
        assert(self.lines() =~= resized(old_lines, new_rows as nat, new_cols as nat));
    }

    /// Everything but the visible cells is as before, and the grid keeps its shape.
    pub open spec fn same_frame(&self, other: &Grid) -> bool {
        &&& self.wf()
        &&& self.rows == other.rows
        &&& self.cols == other.cols
        &&& self.scrollback_limit == other.scrollback_limit
        &&& self.history() == other.history()
    }

    /// Writes `cell` at row `r`, column `c`.
    pub fn set_cell(&mut self, r: usize, c: usize, cell: Cell)
        requires
            old(self).wf(),
            r < old(self).rows,
            c < old(self).cols,
        ensures
            final(self).same_frame(old(self)),
            final(self).lines() == old(self).lines().update(
                r as int,
                old(self).lines()[r as int].update(c as int, cell),
            ),
    {
        self.cells[r].set(c, cell);
        assert(self.lines() =~= old(self).lines().update(
            r as int,
            old(self).lines()[r as int].update(c as int, cell),
        ));
    }

    /// Blanks the cells of row `r` in the columns `[from, to)`.
    pub fn erase_span(&mut self, r: usize, from: usize, to: usize)
        requires
            old(self).wf(),
            r < old(self).rows,
            from <= to <= old(self).cols,
        ensures
            final(self).same_frame(old(self)),
            final(self).lines() == old(self).lines().update(
                r as int,
                blanked(old(self).lines()[r as int], from as int, to as int),
            ),
    {
        let ghost row0 = self.cells@[r as int]@;
        let mut j: usize = from;
        while j < to
            invariant
                from <= j <= to,
                to <= self.cols,
                self.same_frame(old(self)),
                r < self.rows,
                self.cells@.len() == old(self).cells@.len(),
                row0 == old(self).lines()[r as int],
                forall|i: int| 0 <= i < self.rows && i != r ==> #[trigger] self.cells@[i] == old(self).cells@[i],
                self.cells@[r as int]@ == blanked(row0, from as int, j as int),
            decreases to - j,
        {
            self.cells[r].set(j, Cell::default());
            assert(self.cells@[r as int]@ =~= blanked(row0, from as int, j + 1));
            j = j + 1;
        }
        assert(self.lines() =~= old(self).lines().update(
            r as int,
            blanked(old(self).lines()[r as int], from as int, to as int),
        ));
    }

    /// Blanks every cell; the scrollback stays.
    pub fn clear(&mut self)
        requires
            old(self).wf(),
        ensures
            final(self).same_frame(old(self)),
            final(self).lines() == Seq::new(
                old(self).rows as nat,
                |r: int| blank_row(old(self).cols as nat),
            ),
    {
        let mut r: usize = 0;
        while r < self.rows
            invariant
                r <= self.rows,
                self.same_frame(old(self)),
                forall|i: int| 0 <= i < r ==> #[trigger] self.lines()[i] == blank_row(self.cols as nat),
            decreases self.rows - r,
        {
            self.clear_line(r);
            r = r + 1;
        }
        assert(self.lines() =~= Seq::new(old(self).rows as nat, |r: int| blank_row(old(self).cols as nat)));
    }

    /// Blanks row `row`; a row past the bottom is left alone.
    pub fn clear_line(&mut self, row: usize)
        requires
            old(self).wf(),
        ensures
            final(self).same_frame(old(self)),
            final(self).lines() == if row < old(self).rows {
                old(self).lines().update(row as int, blank_row(old(self).cols as nat))
            } else {
                old(self).lines()
            },
    {
        if row < self.rows {
            let cols = self.cols;
            self.erase_span(row, 0, cols);
            assert(blanked(old(self).lines()[row as int], 0, cols as int) =~= blank_row(cols as nat));
        }
    }

    /// Adds `row` to the scrollback, the oldest entry leaving when it is full.
    fn push_history(&mut self, row: Vec<Cell>)
        requires
            old(self).scrollback@.len() <= old(self).scrollback_limit,
        ensures
            final(self).cells == old(self).cells,
            final(self).rows == old(self).rows,
            final(self).cols == old(self).cols,
            final(self).scrollback_limit == old(self).scrollback_limit,
            final(self).scrollback@.len() <= final(self).scrollback_limit,
            final(self).history() == push_bounded(
                old(self).history(),
                row@,
                old(self).scrollback_limit as nat,
            ),
    {
        if self.scrollback_limit == 0 {
            return ;
        }
        if self.scrollback.len() >= self.scrollback_limit {
            self.scrollback.pop_front();
        }
        self.scrollback.push_back(row);
        assert(self.history() =~= push_bounded(
            old(self).history(),
            row@,
            old(self).scrollback_limit as nat,
        ));
    }

    /// Moves the rows `[top, bottom]` up one line, a blank row entering at `bottom`; when `top`
    /// is the first row, the row that leaves goes to the scrollback.
    pub fn scroll_region_up(&mut self, top: usize, bottom: usize)
        requires
            old(self).wf(),
            top <= bottom < old(self).rows,
        ensures
            final(self).wf(),
            final(self).rows == old(self).rows,
            final(self).cols == old(self).cols,
            final(self).scrollback_limit == old(self).scrollback_limit,
            final(self).lines() == shift_up(
                old(self).lines(),
                top as int,
                bottom as int,
                old(self).cols as nat,
            ),
            final(self).history() == scrolled_history(
                old(self).history(),
                old(self).lines(),
                top as int,
                old(self).scrollback_limit as nat,
            ),
    {
        let removed = self.cells.remove(top);
        let blank = blank_row_vec(self.cols);
        self.cells.insert(bottom, blank);
        assert(self.lines() =~= shift_up(
            old(self).lines(),
            top as int,
            bottom as int,
            old(self).cols as nat,
        ));
        if top == 0 {
            self.push_history(removed);
        }
        assert forall|r: int| 0 <= r < self.rows implies (#[trigger] self.cells@[r])@.len()
            == self.cols by {
            assert(self.lines()[r] == self.cells@[r]@);
        }
    }

    /// Moves the rows `[top, bottom]` down one line, a blank row entering at `top`; the scrollback
    /// is not touched.
    pub fn scroll_region_down(&mut self, top: usize, bottom: usize)
        requires
            old(self).wf(),
            top <= bottom < old(self).rows,
        ensures
            final(self).same_frame(old(self)),
            final(self).lines() == shift_down(
                old(self).lines(),
                top as int,
                bottom as int,
                old(self).cols as nat,
            ),
    {
        self.cells.remove(bottom);
        let blank = blank_row_vec(self.cols);
        self.cells.insert(top, blank);
        assert(self.lines() =~= shift_down(
            old(self).lines(),
            top as int,
            bottom as int,
            old(self).cols as nat,
        ));
        assert forall|r: int| 0 <= r < self.rows implies (#[trigger] self.cells@[r])@.len()
            == self.cols by {
            assert(self.lines()[r] == self.cells@[r]@);
        }
    }

    /// Scrolls the whole screen up `lines` lines; each row that leaves the top goes to the
    /// scrollback.
    pub fn scroll_up(&mut self, lines: usize)
        requires
            old(self).wf(),
        ensures
            final(self).wf(),
            final(self).rows == old(self).rows,
            final(self).cols == old(self).cols,
            final(self).scrollback_limit == old(self).scrollback_limit,
            (final(self).lines(), final(self).history()) == up_steps(
                (old(self).lines(), old(self).history()),
                old(self).cols as nat,
                old(self).scrollback_limit as nat,
                lines as nat,
            ),
    {
        let mut i: usize = 0;
        while i < lines
            invariant
                i <= lines,
                self.wf(),
                self.rows == old(self).rows,
                self.cols == old(self).cols,
                self.scrollback_limit == old(self).scrollback_limit,
                (self.lines(), self.history()) == up_steps(
                    (old(self).lines(), old(self).history()),
                    old(self).cols as nat,
                    old(self).scrollback_limit as nat,
                    i as nat,
                ),
            decreases lines - i,
        {
            let bottom = self.rows - 1;
            self.scroll_region_up(0, bottom);
            i = i + 1;
        }
    }

    /// Scrolls the whole screen down `lines` lines: blank rows come in at the top and the bottom
    /// rows leave; the scrollback is not touched.
    pub fn scroll_down(&mut self, lines: usize)
        requires
            old(self).wf(),
        ensures
            final(self).same_frame(old(self)),
            final(self).lines() == inserted_lines(
                old(self).lines(),
                0,
                old(self).rows - 1,
                if lines <= old(self).rows {
                    lines as int
                } else {
                    old(self).rows as int
                },
                old(self).cols as nat,
            ),
    {
        let k = if lines <= self.rows {
            lines
        } else {
            self.rows
        };
        let bottom = self.rows - 1;
        self.insert_lines(0, bottom, k);
    }

    /// Moves the rows `[top, bottom]` up one line, a blank row entering at `bottom`; the row
    /// that leaves is dropped.
    pub fn delete_region_line(&mut self, top: usize, bottom: usize)
        requires
            old(self).wf(),
            top <= bottom < old(self).rows,
        ensures
            final(self).same_frame(old(self)),
            final(self).lines() == shift_up(
                old(self).lines(),
                top as int,
                bottom as int,
                old(self).cols as nat,
            ),
    {
        self.cells.remove(top);
        let blank = blank_row_vec(self.cols);
        self.cells.insert(bottom, blank);
        assert(self.lines() =~= shift_up(
            old(self).lines(),
            top as int,
            bottom as int,
            old(self).cols as nat,
        ));
        assert forall|r: int| 0 <= r < self.rows implies (#[trigger] self.cells@[r])@.len()
            == self.cols by {
            assert(self.lines()[r] == self.cells@[r]@);
        }
    }

    /// Removes `k` cells of row `r` from column `col` on, shifting the rest left and filling
    /// the end with blanks.
    pub fn delete_cells(&mut self, r: usize, col: usize, k: usize)
        requires
            old(self).wf(),
            r < old(self).rows,
            col + k <= old(self).cols,
        ensures
            final(self).same_frame(old(self)),
            final(self).lines() == old(self).lines().update(
                r as int,
                deleted_cells(old(self).lines()[r as int], col as int, k as int),
            ),
    {
        let ghost row0 = old(self).lines()[r as int];
        let mut i: usize = 0;
        while i < k
            invariant
                i <= k,
                col + k <= self.cols,
                r < self.rows,
                self.rows == old(self).rows,
                self.cols == old(self).cols,
                self.scrollback_limit == old(self).scrollback_limit,
                self.scrollback == old(self).scrollback,
                self.cells@.len() == old(self).cells@.len(),
                row0.len() == self.cols,
                old(self).wf(),
                forall|j: int| 0 <= j < self.rows && j != r ==> #[trigger] self.cells@[j] == old(self).cells@[j],
                self.cells@[r as int]@ == deleted_cells(row0, col as int, i as int),
            decreases k - i,
        {
            self.cells[r].remove(col);
            self.cells[r].push(Cell::default());
            i = i + 1;
            assert(self.cells@[r as int]@ =~= deleted_cells(row0, col as int, i as int));
        }
        assert(self.lines() =~= old(self).lines().update(
            r as int,
            deleted_cells(row0, col as int, k as int),
        ));
        assert forall|j: int| 0 <= j < self.rows implies (#[trigger] self.cells@[j])@.len()
            == self.cols by {
            assert(self.lines()[j] == self.cells@[j]@);
        }
    }

    /// Puts `k` blank cells into row `r` at column `col`, shifting the rest right; cells pushed
    /// past the last column are lost.
    pub fn insert_cells(&mut self, r: usize, col: usize, k: usize)
        requires
            old(self).wf(),
            r < old(self).rows,
            col + k <= old(self).cols,
        ensures
            final(self).same_frame(old(self)),
            final(self).lines() == old(self).lines().update(
                r as int,
                inserted_cells(old(self).lines()[r as int], col as int, k as int),
            ),
    {
        let ghost row0 = old(self).lines()[r as int];
        let mut i: usize = 0;
        while i < k
            invariant
                i <= k,
                col + k <= self.cols,
                r < self.rows,
                self.rows == old(self).rows,
                self.cols == old(self).cols,
                self.scrollback_limit == old(self).scrollback_limit,
                self.scrollback == old(self).scrollback,
                self.cells@.len() == old(self).cells@.len(),
                row0.len() == self.cols,
                old(self).wf(),
                forall|j: int| 0 <= j < self.rows && j != r ==> #[trigger] self.cells@[j] == old(self).cells@[j],
                self.cells@[r as int]@ == inserted_cells(row0, col as int, i as int),
            decreases k - i,
        {
            self.cells[r].insert(col, Cell::default());
            self.cells[r].pop();
            i = i + 1;
            assert(self.cells@[r as int]@ =~= inserted_cells(row0, col as int, i as int));
        }
        assert(self.lines() =~= old(self).lines().update(
            r as int,
            inserted_cells(row0, col as int, k as int),
        ));
        assert forall|j: int| 0 <= j < self.rows implies (#[trigger] self.cells@[j])@.len()
            == self.cols by {
            assert(self.lines()[j] == self.cells@[j]@);
        }
    }

    /// Empties the scrollback.
    pub fn clear_history(&mut self)
        requires
            old(self).wf(),
        ensures
            final(self).wf(),
            final(self).rows == old(self).rows,
            final(self).cols == old(self).cols,
            final(self).scrollback_limit == old(self).scrollback_limit,
            final(self).lines() == old(self).lines(),
            final(self).history() == Seq::<Seq<Cell>>::empty(),
    {
        self.scrollback.clear();
        assert(self.history() =~= Seq::<Seq<Cell>>::empty());
    }

    /// Blanks the rows `[from, to)`.
    pub fn clear_rows(&mut self, from: usize, to: usize)
        requires
            old(self).wf(),
            from <= to <= old(self).rows,
        ensures
            final(self).same_frame(old(self)),
            final(self).lines() == Seq::new(
                old(self).rows as nat,
                |i: int|
                    if from <= i < to {
                        blank_row(old(self).cols as nat)
                    } else {
                        old(self).lines()[i]
                    },
            ),
    {
        let mut r: usize = from;
        while r < to
            invariant
                from <= r <= to <= self.rows,
                self.same_frame(old(self)),
                self.lines().len() == self.rows,
                forall|i: int|
                    0 <= i < self.rows ==> #[trigger] self.lines()[i] == if from <= i < r {
                        blank_row(self.cols as nat)
                    } else {
                        old(self).lines()[i]
                    },
            decreases to - r,
        {
            self.clear_line(r);
            r = r + 1;
        }
        assert(self.lines() =~= Seq::new(
            old(self).rows as nat,
            |i: int|
                if from <= i < to {
                    blank_row(old(self).cols as nat)
                } else {
                    old(self).lines()[i]
                },
        ));
    }

    /// Puts `k` blank rows in at row `at`, inside the region that ends at `bottom`.
    pub fn insert_lines(&mut self, at: usize, bottom: usize, k: usize)
        requires
            old(self).wf(),
            at <= bottom < old(self).rows,
            k <= bottom - at + 1,
        ensures
            final(self).same_frame(old(self)),
            final(self).lines() == inserted_lines(
                old(self).lines(),
                at as int,
                bottom as int,
                k as int,
                old(self).cols as nat,
            ),
    {
        let mut i: usize = 0;
        while i < k
            invariant
                i <= k <= bottom - at + 1,
                at <= bottom < self.rows,
                self.same_frame(old(self)),
                self.lines() == inserted_lines(
                    old(self).lines(),
                    at as int,
                    bottom as int,
                    i as int,
                    self.cols as nat,
                ),
            decreases k - i,
        {
            self.scroll_region_down(at, bottom);
            i = i + 1;
            assert(self.lines() =~= inserted_lines(
                old(self).lines(),
                at as int,
                bottom as int,
                i as int,
                self.cols as nat,
            ));
        }
    }

    /// Removes the `k` rows from row `at` on, inside the region that ends at `bottom`.
    pub fn delete_lines(&mut self, at: usize, bottom: usize, k: usize)
        requires
            old(self).wf(),
            at <= bottom < old(self).rows,
            k <= bottom - at + 1,
        ensures
            final(self).same_frame(old(self)),
            final(self).lines() == deleted_lines(
                old(self).lines(),
                at as int,
                bottom as int,
                k as int,
                old(self).cols as nat,
            ),
    {
        let mut i: usize = 0;
        while i < k
            invariant
                i <= k <= bottom - at + 1,
                at <= bottom < self.rows,
                self.same_frame(old(self)),
                self.lines() == deleted_lines(
                    old(self).lines(),
                    at as int,
                    bottom as int,
                    i as int,
                    self.cols as nat,
                ),
            decreases k - i,
        {
            self.delete_region_line(at, bottom);
            i = i + 1;
            assert(self.lines() =~= deleted_lines(
                old(self).lines(),
                at as int,
                bottom as int,
                i as int,
                self.cols as nat,
            ));
        }
    }

    /// Scrolls the region `[top, bottom]` up `k` lines; when `top` is the first row, the rows
    /// that leave go to the scrollback in order.
    pub fn scroll_region_up_by(&mut self, top: usize, bottom: usize, k: usize)
        requires
            old(self).wf(),
            top <= bottom < old(self).rows,
            k <= bottom - top + 1,
        ensures
            final(self).wf(),
            final(self).rows == old(self).rows,
            final(self).cols == old(self).cols,
            final(self).scrollback_limit == old(self).scrollback_limit,
            final(self).lines() == deleted_lines(
                old(self).lines(),
                top as int,
                bottom as int,
                k as int,
                old(self).cols as nat,
            ),
            final(self).history() == if top == 0 {
                pushed_all(
                    old(self).history(),
                    old(self).lines().subrange(0, k as int),
                    old(self).scrollback_limit as nat,
                )
            } else {
                old(self).history()
            },
    {
        let mut i: usize = 0;
        while i < k
            invariant
                i <= k <= bottom - top + 1,
                top <= bottom < self.rows,
                self.wf(),
                self.rows == old(self).rows,
                self.cols == old(self).cols,
                self.scrollback_limit == old(self).scrollback_limit,
                old(self).wf(),
                self.lines() == deleted_lines(
                    old(self).lines(),
                    top as int,
                    bottom as int,
                    i as int,
                    self.cols as nat,
                ),
                self.history() == if top == 0 {
                    pushed_all(
                        old(self).history(),
                        old(self).lines().subrange(0, i as int),
                        old(self).scrollback_limit as nat,
                    )
                } else {
                    old(self).history()
                },
            decreases k - i,
        {
            let ghost pre = self.lines();
            self.scroll_region_up(top, bottom);
            proof {
                if top == 0 {
                    assert(pre[0] == old(self).lines()[i as int]);
                    assert(old(self).lines().subrange(0, i + 1).drop_last()
                        =~= old(self).lines().subrange(0, i as int));
                }
            }
            i = i + 1;
            assert(self.lines() =~= deleted_lines(
                old(self).lines(),
                top as int,
                bottom as int,
                i as int,
                self.cols as nat,
            ));
        }
    }
}

} // verus!
