//! The terminal screen: cells read from a `vt100::Screen` into a plain grid,
//! and the rows that hold content.

use vstd::prelude::*;
use crate::theme::Color;

verus! {

broadcast use vstd::string::to_string_from_display_ensures_for_str;

#[verifier::external_type_specification]
#[verifier::external_body]
pub struct ExScreen(vt100::Screen);

/// What the renderer reads of one terminal cell.
#[derive(Debug)]
pub struct CellView {
    /// The cell's text.
    pub contents: String,
    /// Whether the cell holds any text.
    pub has_contents: bool,
    /// Whether the cell holds a wide (two-column) character.
    pub is_wide: bool,
    /// Whether the cell is the second half of a wide character.
    pub is_wide_continuation: bool,
    /// Foreground colour.
    pub fgcolor: Color,
    /// Background colour.
    pub bgcolor: Color,
    /// Bold attribute.
    pub bold: bool,
    /// Dim attribute.
    pub dim: bool,
}

/// The cells of a `vt100::Screen`, by `(row, col)`, as `Screen::cell`
/// reports them (`Some` positions only).
pub uninterp spec fn screen_cells(s: vt100::Screen) -> Map<(u16, u16), CellView>;

/// The `(rows, cols)` size of a `vt100::Screen`.
pub uninterp spec fn screen_size(s: vt100::Screen) -> (u16, u16);

/// What `Screen::cell(row, col)` gives, read into a `CellView`.
pub open spec fn screen_cell_at(s: vt100::Screen, row: u16, col: u16) -> Option<CellView> {
    if screen_cells(s).dom().contains((row, col)) {
        Some(screen_cells(s)[(row, col)])
    } else {
        None
    }
}

/// `Screen::size`: `(rows, cols)`.
#[verifier::external_body]
fn screen_dims(s: &vt100::Screen) -> (r: (u16, u16))
    ensures
        r == screen_size(*s),
{
    s.size()
}

/// `Screen::cell(row, col)`, its text, attributes and colours copied into a
/// `CellView` (each `vt100::Color` variant to the same variant of `Color`).
#[verifier::external_body]
fn screen_cell(s: &vt100::Screen, row: u16, col: u16) -> (r: Option<CellView>)
    ensures
        r == (if screen_cells(*s).dom().contains((row, col)) {
            Some(screen_cells(*s)[(row, col)])
        } else {
            None
        }),
{
    let conv = |k: vt100::Color| match k {
        vt100::Color::Default => Color::Default,
        vt100::Color::Idx(i) => Color::Idx(i),
        vt100::Color::Rgb(r, g, b) => Color::Rgb(r, g, b),
    };
    s.cell(row, col).map(|c| CellView {
        contents: c.contents().to_string(), has_contents: c.has_contents(),
        is_wide: c.is_wide(), is_wide_continuation: c.is_wide_continuation(),
        fgcolor: conv(c.fgcolor()), bgcolor: conv(c.bgcolor()), bold: c.bold(), dim: c.dim(),
    })
}

/// A terminal screen as a row-major grid of optional cells.
#[derive(Debug)]
pub struct ScreenGrid {
    pub rows: u16,
    pub cols: u16,
    /// `rows * cols` entries, row-major.
    pub cells: Vec<Option<CellView>>,
}

/// A cell that counts as content: it holds text other than a single space.
pub open spec fn is_content(c: Option<CellView>) -> bool {
    match c {
        Some(cell) => cell.has_contents && cell.contents@ != " "@,
        None => false,
    }
}

/// Whether row `row` of the grid holds a content cell.
pub open spec fn row_has_content(g: ScreenGrid, row: int) -> bool {
    exists|col: int| 0 <= col < g.cols && #[trigger] is_content(g.cell(row, col))
}

/// The last row below `n` that holds content, or 0 when none does.
pub open spec fn last_content_row_below(g: ScreenGrid, n: int) -> int
    decreases n,
{
    if n <= 0 {
        0
    } else if row_has_content(g, n - 1) {
        n - 1
    } else {
        last_content_row_below(g, n - 1)
    }
}

/// The number of rows an image of the grid shows: through the last row
/// with content (trailing empty rows are dropped), and at least one.
pub open spec fn spec_rows_used(g: ScreenGrid) -> int {
    last_content_row_below(g, g.rows as int) + 1
}

impl ScreenGrid {
    /// `rows * cols` cells.
    pub open spec fn wf(&self) -> bool {
        self.cells@.len() == self.rows * self.cols
    }

    /// The cell at `(row, col)`.
    pub open spec fn cell(&self, row: int, col: int) -> Option<CellView> {
        self.cells@[row * self.cols + col]
    }

    /// Read every cell of a `vt100::Screen`.
    pub fn from_screen(screen: &vt100::Screen) -> (g: Self)
        ensures
            g.wf(),
            (g.rows, g.cols) == screen_size(*screen),
            forall|row: int, col: int|
                0 <= row < g.rows && 0 <= col < g.cols ==> #[trigger] g.cell(row, col) == screen_cell_at(
                    *screen,
                    row as u16,
                    col as u16,
                ),
    {
        let (rows, cols) = screen_dims(screen);
        let mut cells: Vec<Option<CellView>> = Vec::new();
        let mut row: u16 = 0;
        assert(0 * (cols as int) == 0);
        while row < rows
            invariant
                row <= rows,
                cells@.len() == row * cols,
                (rows, cols) == screen_size(*screen),
                forall|r0: int, c0: int|
                    0 <= r0 < row && 0 <= c0 < cols ==> #[trigger] cells@[r0 * cols + c0] == screen_cell_at(
                        *screen,
                        r0 as u16,
                        c0 as u16,
                    ),
            decreases rows - row,
        {
            let ghost start = cells@.len();
            let mut col: u16 = 0;
            while col < cols
                invariant
                    row < rows,
                    col <= cols,
                    start == row * cols,
                    cells@.len() == start + col,
                    forall|r0: int, c0: int|
                        (0 <= r0 < row && 0 <= c0 < cols) || (r0 == row && 0 <= c0 < col) ==> #[trigger] cells@[r0
                            * cols + c0] == screen_cell_at(*screen, r0 as u16, c0 as u16),
                decreases cols - col,
            {
                let ghost before = cells@;
                let c = screen_cell(screen, row, col);
                cells.push(c);
                assert forall|r0: int, c0: int|
                    (0 <= r0 < row && 0 <= c0 < cols) || (r0 == row && 0 <= c0 < col) implies #[trigger] cells@[r0
                        * cols + c0] == before[r0 * cols + c0] by {
                    if r0 < row {
                        assert(0 <= r0 * cols + c0 < row * cols) by (nonlinear_arith)
                            requires 0 <= r0 < row, 0 <= c0 < cols;
                    } else {
                        assert(0 <= r0 * cols + c0 < row * cols + col) by (nonlinear_arith)
                            requires r0 == row, 0 <= c0 < col;
                    }
                }
                assert(cells@[row * cols + col] == screen_cell_at(*screen, row, col));
                col = col + 1;
            }
            assert(start + cols == (row + 1) * cols) by (nonlinear_arith)
                requires start == row * cols;
            row = row + 1;
        }
        ScreenGrid { rows, cols, cells }
    }

    /// Whether the cell at `(row, col)` counts as content.
    fn cell_is_content(&self, row: u16, col: u16, space: &String) -> (r: bool)
        requires
            self.wf(),
            row < self.rows,
            col < self.cols,
            space@ == " "@,
        ensures
            r == is_content(self.cell(row as int, col as int)),
    {
        proof {
            lemma_cell_index(self.rows as int, self.cols as int, row as int, col as int);
            assert(self.cells.len() <= usize::MAX);
        }
        assert(row as int * self.cols as int <= row as int * self.cols as int + col as int);
        let i = row as usize * self.cols as usize + col as usize;
        match &self.cells[i] {
            Some(cell) => cell.has_contents && !(cell.contents == *space),
            None => false,
        }
    }

    /// Whether row `row` holds a content cell.
    fn row_has_content(&self, row: u16, space: &String) -> (r: bool)
        requires
            self.wf(),
            row < self.rows,
            space@ == " "@,
        ensures
            r == row_has_content(*self, row as int),
    {
        let mut col: u16 = 0;
        while col < self.cols
            invariant
                self.wf(),
                row < self.rows,
                space@ == " "@,
                col <= self.cols,
                forall|c0: int| 0 <= c0 < col ==> !#[trigger] is_content(self.cell(row as int, c0)),
            decreases self.cols - col,
        {
            if self.cell_is_content(row, col, space) {
                return true;
            }
            col = col + 1;
        }
        false
    }

    /// The last row that holds content (a cell with text other than a
    /// single space), or 0 when none does.
    pub fn last_content_row(&self) -> (r: u16)
        requires
            self.wf(),
        ensures
            r == last_content_row_below(*self, self.rows as int),
    {
        let space = " ".to_string();
        let mut row: u16 = self.rows;
        while row > 0
            invariant
                self.wf(),
                space@ == " "@,
                row <= self.rows,
                last_content_row_below(*self, self.rows as int) == last_content_row_below(*self, row as int),
            decreases row,
        {
            let r = row - 1;
            if self.row_has_content(r, &space) {
                return r;
            }
            row = r;
        }
        0
    }

    /// The number of rows an image of the grid shows: through the last row
    /// with content, and at least one.
    pub fn rows_used(&self) -> (r: u16)
        requires
            self.wf(),
        ensures
            r == spec_rows_used(*self),
    {
        let last = self.last_content_row();
        proof {
            lemma_last_content_row_bound(*self, self.rows as int);
        }
        last + 1
    }
}

/// The row-major index of a cell lies within the grid.
pub proof fn lemma_cell_index(rows: int, cols: int, row: int, col: int)
    requires
        0 <= row < rows,
        0 <= col < cols,
    ensures
        0 <= row * cols + col < rows * cols,
{
    assert(0 <= row * cols + col < rows * cols) by (nonlinear_arith)
        requires 0 <= row < rows, 0 <= col < cols;
}

/// The last content row below `n` is below `n` (or 0); no row between it
/// and `n` has content, and it has content unless it is row 0.
pub proof fn lemma_last_content_row_bound(g: ScreenGrid, n: int)
    requires
        0 <= n,
    ensures
        0 <= last_content_row_below(g, n),
        n > 0 ==> last_content_row_below(g, n) < n,
        n == 0 ==> last_content_row_below(g, n) == 0,
        forall|row: int| last_content_row_below(g, n) < row < n ==> !#[trigger] row_has_content(g, row),
        last_content_row_below(g, n) > 0 ==> row_has_content(g, last_content_row_below(g, n)),
    decreases n,
{
    if n > 0 {
        lemma_last_content_row_bound(g, n - 1);
    }
}

} // verus!
