//! Layout of a screenshot: the image size, the background rectangles of
//! cells with a background colour, and the text runs to draw, in the order
//! they are painted.

use vstd::prelude::*;
use crate::screen::{spec_rows_used, CellView, ScreenGrid};
use crate::theme::{spec_color_to_rgba, spec_foreground, Color, Theme};

verus! {

broadcast use vstd::string::to_string_from_display_ensures_for_str;

/// A filled rectangle on the background layer.
#[derive(Debug)]
pub struct RectOp {
    pub x: i32,
    pub y: i32,
    pub width: u32,
    pub height: u32,
    pub color: [u8; 4],
}

/// A text run drawn on the text layer with its origin at `(x, y)`.
#[derive(Debug)]
pub struct TextOp {
    pub text: String,
    pub x: i32,
    pub y: i32,
    pub color: [u8; 4],
}

/// Everything a screenshot paints, in order.
#[derive(Debug)]
pub struct ScreenLayout {
    /// Image width in pixels.
    pub width: u32,
    /// Image height in pixels.
    pub height: u32,
    /// Whether the title bar is painted.
    pub title_bar: bool,
    /// Cell background rectangles, row-major.
    pub rects: Vec<RectOp>,
    /// Text runs: the title first (with the title bar), then the cells
    /// with text, row-major.
    pub texts: Vec<TextOp>,
}

pub open spec fn rect_view(r: RectOp) -> (i32, i32, u32, u32, Seq<u8>) {
    (r.x, r.y, r.width, r.height, r.color@)
}

pub open spec fn text_view(t: TextOp) -> (Seq<char>, i32, i32, Seq<u8>) {
    (t.text@, t.x, t.y, t.color@)
}

/// Height of the title bar: 32 pixels with decorations, else none.
pub open spec fn title_height(show_decorations: bool) -> int {
    if show_decorations {
        32
    } else {
        0
    }
}

/// The cell at `(row, col)`, or `None` outside the grid.
pub open spec fn cell_or_none(g: ScreenGrid, row: int, col: int) -> Option<CellView> {
    if 0 <= row < g.rows && 0 <= col < g.cols {
        g.cell(row, col)
    } else {
        None
    }
}

/// Image width: the columns plus padding on both sides.
pub open spec fn layout_width(g: ScreenGrid, char_width: int, padding: int) -> int {
    g.cols * char_width + padding * 2
}

/// Image height: the shown rows, the title bar, and padding on both sides.
pub open spec fn layout_height(g: ScreenGrid, char_height: int, padding: int, show_decorations: bool) -> int {
    spec_rows_used(g) * char_height + title_height(show_decorations) + padding * 2
}

/// Left edge of column `col`.
pub open spec fn cell_x(padding: int, char_width: int, col: int) -> int {
    padding + col * char_width
}

/// Top edge of row `row`.
pub open spec fn cell_y(title_h: int, padding: int, char_height: int, row: int) -> int {
    title_h + padding + row * char_height
}

/// Whether a shown cell needs the double width `2 * char_width`: a wide
/// cell with a background colour or with text of its own.
pub open spec fn needs_double_width(c: Option<CellView>) -> bool {
    match c {
        Some(cell) => cell.is_wide && (cell.bgcolor != Color::Default || (cell.has_contents
            && !cell.is_wide_continuation)),
        None => false,
    }
}

/// The layout's `u32` arithmetic does not overflow.
pub open spec fn layout_fits(g: ScreenGrid, char_width: u32, char_height: u32, padding: u32, show_decorations: bool) -> bool {
    &&& g.wf()
    &&& g.cols * char_width <= u32::MAX
    &&& padding * 2 <= u32::MAX
    &&& layout_width(g, char_width as int, padding as int) <= u32::MAX
    &&& spec_rows_used(g) * char_height <= u32::MAX
    &&& spec_rows_used(g) * char_height + title_height(show_decorations) <= u32::MAX
    &&& layout_height(g, char_height as int, padding as int, show_decorations) <= u32::MAX
    &&& (forall|row: int, col: int|
        0 <= row < spec_rows_used(g) && 0 <= col < g.cols && #[trigger] needs_double_width(cell_or_none(g, row, col))
            ==> char_width * 2 <= u32::MAX)
}

/// The background rectangle of the cell at `(row, col)`, if it has a
/// background colour: the cell's box (two cells wide for a wide
/// character) in the colour's RGBA value.
pub open spec fn cell_rect(
    g: ScreenGrid,
    theme: Theme,
    cw: int,
    ch: int,
    padding: int,
    th: int,
    row: int,
    col: int,
) -> Seq<(i32, i32, u32, u32, Seq<u8>)> {
    match cell_or_none(g, row, col) {
        Some(cell) => if cell.bgcolor != Color::Default {
            seq![
                (
                    cell_x(padding, cw, col) as i32,
                    cell_y(th, padding, ch, row) as i32,
                    (if cell.is_wide { cw * 2 } else { cw }) as u32,
                    ch as u32,
                    spec_color_to_rgba(theme.colors, cell.bgcolor),
                ),
            ]
        } else {
            seq![]
        },
        None => seq![],
    }
}

/// The text run of the cell at `(row, col)`, if it holds text and is not
/// the second half of a wide character: its text at the cell's corner in
/// its foreground colour (bold and dim applied).
pub open spec fn cell_text(
    g: ScreenGrid,
    theme: Theme,
    cw: int,
    ch: int,
    padding: int,
    th: int,
    row: int,
    col: int,
) -> Seq<(Seq<char>, i32, i32, Seq<u8>)> {
    match cell_or_none(g, row, col) {
        Some(cell) => if cell.has_contents && !cell.is_wide_continuation {
            seq![
                (
                    cell.contents@,
                    cell_x(padding, cw, col) as i32,
                    cell_y(th, padding, ch, row) as i32,
                    spec_foreground(theme.colors, cell.fgcolor, cell.bold, cell.dim),
                ),
            ]
        } else {
            seq![]
        },
        None => seq![],
    }
}

/// The rectangles of the cells before `(row, col)` in row-major order.
pub open spec fn rects_before(
    g: ScreenGrid,
    theme: Theme,
    cw: int,
    ch: int,
    padding: int,
    th: int,
    row: int,
    col: int,
) -> Seq<(i32, i32, u32, u32, Seq<u8>)>
    decreases row, col,
{
    if row <= 0 && col <= 0 {
        seq![]
    } else if col <= 0 {
        rects_before(g, theme, cw, ch, padding, th, row - 1, g.cols as int)
    } else {
        rects_before(g, theme, cw, ch, padding, th, row, col - 1) + cell_rect(
            g,
            theme,
            cw,
            ch,
            padding,
            th,
            row,
            col - 1,
        )
    }
}

/// The text runs of the cells before `(row, col)` in row-major order.
pub open spec fn texts_before(
    g: ScreenGrid,
    theme: Theme,
    cw: int,
    ch: int,
    padding: int,
    th: int,
    row: int,
    col: int,
) -> Seq<(Seq<char>, i32, i32, Seq<u8>)>
    decreases row, col,
{
    if row <= 0 && col <= 0 {
        seq![]
    } else if col <= 0 {
        texts_before(g, theme, cw, ch, padding, th, row - 1, g.cols as int)
    } else {
        texts_before(g, theme, cw, ch, padding, th, row, col - 1) + cell_text(
            g,
            theme,
            cw,
            ch,
            padding,
            th,
            row,
            col - 1,
        )
    }
}

/// The title run: the title (or "Terminal") at `(padding + 8, 10)` in
/// light grey, when decorations are shown.
pub open spec fn title_texts(title: Option<String>, padding: int, show_decorations: bool) -> Seq<
    (Seq<char>, i32, i32, Seq<u8>),
> {
    if show_decorations {
        seq![
            (
                match title {
                    Some(t) => t@,
                    None => "Terminal"@,
                },
                (padding + 8) as i32,
                10i32,
                seq![220u8, 220u8, 220u8, 255u8],
            ),
        ]
    } else {
        seq![]
    }
}

/// What `layout_screen` lays out for the grid, cell size, padding,
/// decorations, title and theme: the image size, the title bar, the cell
/// rectangles (`rects_before`) and the text runs (the title run, then
/// `texts_before`), in paint order.
pub open spec fn laid_out(
    l: ScreenLayout,
    grid: ScreenGrid,
    char_width: u32,
    char_height: u32,
    padding: u32,
    show_decorations: bool,
    title: Option<String>,
    theme: Theme,
) -> bool {
    &&& l.width == layout_width(grid, char_width as int, padding as int)
    &&& l.height == layout_height(grid, char_height as int, padding as int, show_decorations)
    &&& l.title_bar == show_decorations
    &&& ({
        let th = title_height(show_decorations);
        let expected = rects_before(
            grid,
            theme,
            char_width as int,
            char_height as int,
            padding as int,
            th,
            spec_rows_used(grid),
            0,
        );
        &&& l.rects@.len() == expected.len()
        &&& forall|i: int| 0 <= i < expected.len() ==> #[trigger] rect_view(l.rects@[i]) == expected[i]
    })
    &&& ({
        let th = title_height(show_decorations);
        let expected = title_texts(title, padding as int, show_decorations) + texts_before(
            grid,
            theme,
            char_width as int,
            char_height as int,
            padding as int,
            th,
            spec_rows_used(grid),
            0,
        );
        &&& l.texts@.len() == expected.len()
        &&& forall|i: int| 0 <= i < expected.len() ==> #[trigger] text_view(l.texts@[i]) == expected[i]
    })
}

/// The layout a screenshot paints: the image size from the grid, the cell
/// size and the padding; the background rectangles of the shown cells
/// that have a background colour; the title run (with decorations) and
/// the text runs of the shown cells that hold text. Rows after the last
/// row with content are not shown.
pub fn layout_screen(
    grid: &ScreenGrid,
    char_width: u32,
    char_height: u32,
    padding: u32,
    show_decorations: bool,
    title: &Option<String>,
    theme: &Theme,
) -> (l: ScreenLayout)
    requires
        layout_fits(*grid, char_width, char_height, padding, show_decorations),
    ensures
        laid_out(l, *grid, char_width, char_height, padding, show_decorations, *title, *theme),
{
    let rows_used = grid.rows_used();
    let cols = grid.cols;
    let title_h: u32 = if show_decorations { 32 } else { 0 };
    let image_width = cols as u32 * char_width + padding * 2;
    let image_height = rows_used as u32 * char_height + title_h + padding * 2;
    let ghost cw = char_width as int;
    let ghost ch = char_height as int;
    let ghost p = padding as int;
    let ghost th = title_h as int;
    let ghost g = *grid;
    let ghost t0 = title_texts(*title, padding as int, show_decorations);

    let mut rects: Vec<RectOp> = Vec::new();
    let mut texts: Vec<TextOp> = Vec::new();
    if show_decorations {
        let t = match title {
            Some(t) => t.clone(),
            None => "Terminal".to_string(),
        };
        texts.push(TextOp { text: t, x: (padding + 8) as i32, y: 10, color: [220, 220, 220, 255] });
        assert([220u8, 220u8, 220u8, 255u8]@ == seq![220u8, 220u8, 220u8, 255u8]);
    }
    let mut row: u16 = 0;
    while row < rows_used
        invariant
            g == *grid,
            cw == char_width,
            ch == char_height,
            p == padding,
            th == title_h,
            t0 == title_texts(*title, padding as int, show_decorations),
            layout_fits(g, char_width, char_height, padding, show_decorations),
            rows_used == spec_rows_used(g),
            cols == g.cols,
            th == title_height(show_decorations),
            row <= rows_used,
            rects@.len() == rects_before(g, *theme, cw, ch, p, th, row as int, 0).len(),
            forall|i: int|
                0 <= i < rects@.len() ==> #[trigger] rect_view(rects@[i]) == rects_before(
                    g,
                    *theme,
                    cw,
                    ch,
                    p,
                    th,
                    row as int,
                    0,
                )[i],
            texts@.len() == (t0 + texts_before(g, *theme, cw, ch, p, th, row as int, 0)).len(),
            forall|i: int|
                0 <= i < texts@.len() ==> #[trigger] text_view(texts@[i]) == (t0 + texts_before(
                    g,
                    *theme,
                    cw,
                    ch,
                    p,
                    th,
                    row as int,
                    0,
                ))[i],
        decreases rows_used - row,
    {
        let mut col: u16 = 0;
        while col < cols
            invariant
                g == *grid,
                cw == char_width,
                ch == char_height,
                p == padding,
                th == title_h,
                t0 == title_texts(*title, padding as int, show_decorations),
                layout_fits(g, char_width, char_height, padding, show_decorations),
                rows_used == spec_rows_used(g),
                cols == g.cols,
                th == title_height(show_decorations),
                row < rows_used,
                col <= cols,
                rects@.len() == rects_before(g, *theme, cw, ch, p, th, row as int, col as int).len(),
                forall|i: int|
                    0 <= i < rects@.len() ==> #[trigger] rect_view(rects@[i]) == rects_before(
                        g,
                        *theme,
                        cw,
                        ch,
                        p,
                        th,
                        row as int,
                        col as int,
                    )[i],
                texts@.len() == (t0 + texts_before(g, *theme, cw, ch, p, th, row as int, col as int)).len(),
                forall|i: int|
                    0 <= i < texts@.len() ==> #[trigger] text_view(texts@[i]) == (t0 + texts_before(
                        g,
                        *theme,
                        cw,
                        ch,
                        p,
                        th,
                        row as int,
                        col as int,
                    ))[i],
            decreases cols - col,
        {
            proof {
                assert(col as int * cw <= cols as int * cw) by (nonlinear_arith)
                    requires col < cols, 0 <= cw;
                assert(row as int * ch <= rows_used as int * ch) by (nonlinear_arith)
                    requires row < rows_used, 0 <= ch;
            }
            let x = padding + col as u32 * char_width;
            let y = title_h + padding + row as u32 * char_height;
            let cell: Option<&CellView> = if row < grid.rows {
                proof {
                    crate::screen::lemma_cell_index(g.rows as int, g.cols as int, row as int, col as int);
                    assert(grid.cells.len() <= usize::MAX);
                }
                let i = row as usize * cols as usize + col as usize;
                match &grid.cells[i] {
                    Some(c) => Some(c),
                    None => None,
                }
            } else {
                None
            };
            let ghost rects_old = rects@;
            let ghost texts_old = texts@;
            match cell {
                Some(cell) => {
                    if cell.bgcolor != Color::Default {
                        assert(needs_double_width(cell_or_none(g, row as int, col as int)) ==> char_width * 2
                            <= u32::MAX);
                        let w = if cell.is_wide { char_width * 2 } else { char_width };
                        let color = theme.color_to_rgba(cell.bgcolor);
                        rects.push(RectOp { x: x as i32, y: y as i32, width: w, height: char_height, color });
                    }
                    if cell.has_contents && !cell.is_wide_continuation {
                        assert(needs_double_width(cell_or_none(g, row as int, col as int)) ==> char_width * 2
                            <= u32::MAX);
                        let _w = if cell.is_wide { char_width * 2 } else { char_width };
                        let fg_color = theme.get_foreground(cell.fgcolor, cell.bold, cell.dim);
                        texts.push(TextOp { text: cell.contents.clone(), x: x as i32, y: y as i32, color: fg_color });
                    }
                },
                None => {},
            }
            assert(rects_before(g, *theme, cw, ch, p, th, row as int, col + 1) == rects_before(
                g,
                *theme,
                cw,
                ch,
                p,
                th,
                row as int,
                col as int,
            ) + cell_rect(g, *theme, cw, ch, p, th, row as int, col as int));
            assert(t0 + texts_before(g, *theme, cw, ch, p, th, row as int, col + 1) =~= (t0 + texts_before(
                g,
                *theme,
                cw,
                ch,
                p,
                th,
                row as int,
                col as int,
            )) + cell_text(g, *theme, cw, ch, p, th, row as int, col as int));
            col = col + 1;
        }
        assert(rects_before(g, *theme, cw, ch, p, th, row + 1, 0) == rects_before(
            g,
            *theme,
            cw,
            ch,
            p,
            th,
            row as int,
            cols as int,
        ));
        assert(texts_before(g, *theme, cw, ch, p, th, row + 1, 0) == texts_before(
            g,
            *theme,
            cw,
            ch,
            p,
            th,
            row as int,
            cols as int,
        ));
        row = row + 1;
    }
    ScreenLayout { width: image_width, height: image_height, title_bar: show_decorations, rects, texts }
}

/// Whether `layout_screen` may be called: the grid is well formed and the
/// layout's `u32` arithmetic does not overflow (`layout_fits`).
pub fn layout_in_range(
    grid: &ScreenGrid,
    char_width: u32,
    char_height: u32,
    padding: u32,
    show_decorations: bool,
) -> (r: bool)
    ensures
        r == layout_fits(*grid, char_width, char_height, padding, show_decorations),
{
    let n = grid.cells.len() as u64;
    assert(grid.rows as int * grid.cols as int <= 0x1_0000 * 0x1_0000) by (nonlinear_arith)
        requires grid.rows < 0x1_0000, grid.cols < 0x1_0000;
    if n != grid.rows as u64 * grid.cols as u64 {
        return false;
    }
    let rows_used = grid.rows_used();
    let max = u32::MAX as u64;
    let cw = char_width as u64;
    let ch = char_height as u64;
    let pad2 = padding as u64 * 2;
    let th: u64 = if show_decorations { 32 } else { 0 };
    proof {
        assert(grid.cols as int * cw <= 0x1_0000 * 0x1_0000_0000) by (nonlinear_arith)
            requires grid.cols < 0x1_0000, cw < 0x1_0000_0000;
        assert(rows_used as int * ch <= 0x1_0000 * 0x1_0000_0000) by (nonlinear_arith)
            requires rows_used < 0x1_0000, ch < 0x1_0000_0000;
    }
    let wc = grid.cols as u64 * cw;
    let hr = rows_used as u64 * ch;
    if wc > max || pad2 > max || wc + pad2 > max || hr > max || hr + th > max || hr + th + pad2 > max {
        return false;
    }
    if cw * 2 <= max {
        return true;
    }
    // A doubled cell width overflows: fits only when no shown cell needs it.
    let mut row: u16 = 0;
    while row < rows_used
        invariant
            grid.wf(),
            rows_used == spec_rows_used(*grid),
            cw * 2 > max,
            max == u32::MAX,
            cw == char_width,
            forall|r0: int, c0: int|
                0 <= r0 < row && 0 <= c0 < grid.cols ==> !#[trigger] needs_double_width(cell_or_none(*grid, r0, c0)),
        decreases rows_used - row,
    {
        let mut col: u16 = 0;
        while col < grid.cols
            invariant
                grid.wf(),
                row < rows_used,
                rows_used == spec_rows_used(*grid),
                cw * 2 > max,
                max == u32::MAX,
                cw == char_width,
                forall|r0: int, c0: int|
                    (0 <= r0 < row && 0 <= c0 < grid.cols) || (r0 == row && 0 <= c0 < col) ==> !#[trigger] needs_double_width(
                        cell_or_none(*grid, r0, c0),
                    ),
            decreases grid.cols - col,
        {
            if row < grid.rows {
                proof {
                    crate::screen::lemma_cell_index(grid.rows as int, grid.cols as int, row as int, col as int);
                    assert(grid.cells.len() <= usize::MAX);
                }
                let i = row as usize * grid.cols as usize + col as usize;
                match &grid.cells[i] {
                    Some(cell) => {
                        if cell.is_wide && (cell.bgcolor != Color::Default || (cell.has_contents
                            && !cell.is_wide_continuation)) {
                            assert(needs_double_width(cell_or_none(*grid, row as int, col as int)));
                            return false;
                        }
                    },
                    None => {},
                }
            }
            col = col + 1;
        }
        row = row + 1;
    }
    true
}

} // verus!
