//! The grid of character cells: a screen of `size.1` rows of `size.0` cells,
//! preceded by `row` rows of scrollback, stored row after row in one vector.
//! Rows and columns are numbered from one.
use vstd::prelude::*;

use super::{DIM, INVERT};
use crate::colors;
use crate::text::{ascii_chars, decimal, push_char, push_decimal_str};

verus! {

/// How a cell is drawn: background, foreground and attribute bits.
#[derive(Clone, Copy, Debug)]
pub struct Style {
    pub bg: [u8; 3],
    pub color: [u8; 3],
    pub flags: u8,
}

/// The style a cell is drawn in: foreground and background swapped where it is
/// inverted, then each channel of the foreground halved where it is dim.
pub open spec fn drawn_style(s: Style) -> Style {
    let t = if s.flags & INVERT != 0 { Style { bg: s.color, color: s.bg, ..s } } else { s };
    if t.flags & DIM != 0 {
        Style { color: [(t.color[0] / 2) as u8, (t.color[1] / 2) as u8, (t.color[2] / 2) as u8], ..t }
    } else {
        t
    }
}

impl Style {
    /// The style this one is drawn in: colours swapped where inverted, foreground
    /// halved where dim.
    pub fn drawn(self) -> (d: Style)
        ensures
            d == drawn_style(self),
    {
        let mut t = self;
        if t.flags & INVERT != 0 {
            t.bg = self.color;
            t.color = self.bg;
        }
        if t.flags & DIM != 0 {
            t.color = [t.color[0] / 2, t.color[1] / 2, t.color[2] / 2];
        }
        t
    }
}

/// The style of an unwritten cell.
pub open spec fn default_style() -> Style {
    Style { bg: colors::BACKGROUND, color: colors::FOREGROUND, flags: 0 }
}

impl Default for Style {
    fn default() -> (s: Self)
        ensures
            s == default_style(),
    {
        Style { bg: colors::BACKGROUND, flags: 0, color: colors::FOREGROUND }
    }
}

/// One character position of the grid.
#[derive(Clone, Copy, Debug)]
pub struct Cell {
    pub style: Style,
    pub letter: Option<char>,
}

/// An unwritten cell: no letter, default style.
pub open spec fn blank_cell() -> Cell {
    Cell { style: default_style(), letter: None }
}

impl Default for Cell {
    fn default() -> (c: Self)
        ensures
            c == blank_cell(),
    {
        Cell { style: Style::default(), letter: None }
    }
}

impl Cell {
    /// The character the cell shows: its letter, or a space.
    pub fn fmt(&self) -> (c: char)
        ensures
            c == shown(*self),
    {
        match self.letter {
            Some(l) => l,
            None => ' ',
        }
    }

    /// A cell holding `c` in the default style.
    pub fn basic(c: char) -> (cell: Self)
        ensures
            cell == (Cell { style: default_style(), letter: Some(c) }),
    {
        Cell { letter: Some(c), style: Style::default() }
    }
}

/// `n` blank cells.
pub open spec fn blanks(n: int) -> Seq<Cell> {
    Seq::new(n as nat, |_i: int| blank_cell())
}

/// The grid. `size` counts one more column and one more row than the
/// screen it was made for; `row` is the number of scrollback rows before the screen.
pub struct Cells {
    pub size: (u16, u16),
    pub cells: Vec<Cell>,
    pub margin: (u16, u16),
    pub row: u16,
}

/// What a grid holds, with its cells as a sequence.
pub struct CellsView {
    pub size: (u16, u16),
    pub cells: Seq<Cell>,
    pub margin: (u16, u16),
    pub row: u16,
}

impl View for Cells {
    type V = CellsView;

    open spec fn view(&self) -> CellsView {
        CellsView { size: self.size, cells: self.cells@, margin: self.margin, row: self.row }
    }
}

impl CellsView {
    /// Cells per row.
    pub open spec fn w(self) -> int {
        self.size.0 as int
    }

    /// Rows on the screen.
    pub open spec fn h(self) -> int {
        self.size.1 as int
    }

    /// Index of the first cell of the screen.
    pub open spec fn offset(self) -> int {
        self.row * self.w()
    }

    /// The grid holds its scrollback and exactly one screen of cells.
    pub open spec fn wf(self) -> bool {
        &&& self.w() >= 1
        &&& self.h() >= 1
        &&& self.cells.len() == (self.row + self.h()) * self.w()
    }

    /// Index of the cell at column `x` of screen row `y`.
    pub open spec fn index(self, x: int, y: int) -> int {
        self.offset() + (y - 1) * self.w() + x - 1
    }

    /// Index of the first cell of screen row `y`.
    pub open spec fn row_start(self, y: int) -> int {
        self.offset() + (y - 1) * self.w()
    }

    /// The cells of screen row `y`.
    pub open spec fn row_cells(self, y: int) -> Seq<Cell> {
        self.cells.subrange(self.row_start(y), self.row_start(y) + self.w())
    }

    /// The same grid with the cells from `lo` (inclusive) to `hi` (exclusive) made blank.
    pub open spec fn blanked(self, lo: int, hi: int) -> CellsView {
        CellsView {
            cells: Seq::new(
                self.cells.len(),
                |i: int| if lo <= i < hi { blank_cell() } else { self.cells[i] },
            ),
            ..self
        }
    }

    /// The same grid with the whole screen blank.
    pub open spec fn cleared(self) -> CellsView {
        self.blanked(self.offset(), self.cells.len() as int)
    }

    /// The same grid with screen rows `lo` up to (not including) `hi` blank.
    pub open spec fn rows_cleared(self, lo: int, hi: int) -> CellsView {
        if lo < hi {
            self.blanked(self.row_start(lo), self.row_start(hi))
        } else {
            self
        }
    }

    /// The same grid with row `y` blank from column `x` to its end.
    pub open spec fn line_cleared_from(self, x: int, y: int) -> CellsView {
        self.blanked(self.index(x, y), self.row_start(y) + self.w())
    }

    /// The same grid with the first `n` cells of row `y` blank (all of them if `n` exceeds the row).
    pub open spec fn chars_erased(self, n: int, y: int) -> CellsView {
        self.blanked(self.row_start(y), self.row_start(y) + if n < self.w() { n } else { self.w() })
    }

    /// The same grid with the cell at index `i` replaced.
    pub open spec fn with_cell(self, i: int, c: Cell) -> CellsView {
        CellsView { cells: self.cells.update(i, c), ..self }
    }

    /// The same grid with screen row `y` replaced by `s`.
    pub open spec fn with_row(self, y: int, s: Seq<Cell>) -> CellsView {
        CellsView {
            cells: self.cells.take(self.row_start(y)) + s + self.cells.skip(self.row_start(y) + self.w()),
            ..self
        }
    }

    /// Scrolling by `by` rows: `row` grows by `by`, and `by` blank rows are
    /// inserted before row `margin.1` of the new screen.
    pub open spec fn grown(self, by: u16) -> CellsView {
        let at = (self.row + by + self.margin.1 - 1) * self.w();
        CellsView {
            row: (self.row + by) as u16,
            cells: self.cells.take(at) + blanks(by * self.w()) + self.cells.skip(at),
            ..self
        }
    }

    /// `n` blank rows inserted before screen row `below`; the rows pushed past
    /// the end of the screen are dropped.
    pub open spec fn lines_inserted(self, n: u16, below: u16) -> CellsView {
        let at = self.row_start(below as int);
        CellsView {
            cells: (self.cells.take(at) + blanks(n * self.w()) + self.cells.skip(at)).take(
                self.cells.len() as int,
            ),
            ..self
        }
    }

    /// Row `y` after `n` blank cells are inserted at column `x`: the cells from `x` move
    /// right by `n`, and the last `n` cells of the row are blank.
    pub open spec fn chars_inserted(self, n: int, x: int, y: int) -> CellsView {
        let old_row = self.row_cells(y);
        self.with_row(
            y,
            Seq::new(
                self.w() as nat,
                |i: int|
                    if i < x - 1 {
                        old_row[i]
                    } else if i < x - 1 + n || i >= self.w() - n {
                        blank_cell()
                    } else {
                        old_row[i - n]
                    },
            ),
        )
    }

    /// Row `y` after `n` cells are deleted at column `x`: the cells after them move
    /// left by `n`; the `n` cells from column `x` and the last `n` cells of the row are blank.
    pub open spec fn chars_deleted(self, n: int, x: int, y: int) -> CellsView {
        let old_row = self.row_cells(y);
        self.with_row(
            y,
            Seq::new(
                self.w() as nat,
                |i: int|
                    if i < x - 1 {
                        old_row[i]
                    } else if i < x - 1 + n || i >= self.w() - n {
                        blank_cell()
                    } else {
                        old_row[i + n]
                    },
            ),
        )
    }
}

impl CellsView {
    /// In a well-formed grid every screen row lies inside the cells, one after another.
    pub proof fn lemma_rows(self)
        requires
            self.wf(),
        ensures
            0 <= self.offset() <= self.cells.len(),
            self.cells.len() == self.offset() + self.h() * self.w(),
            forall|y: int|
                1 <= y <= self.h() ==> 0 <= #[trigger] self.row_start(y) && self.row_start(y) + self.w()
                    <= self.cells.len(),
            forall|y: int| #[trigger] self.row_start(y) == self.offset() + (y - 1) * self.w(),
    {
        let w = self.w();
        let h = self.h();
        let row = self.row as int;
        assert(self.cells.len() == row * w + h * w) by (nonlinear_arith)
            requires
                self.cells.len() == (row + h) * w,
        ;
        assert(0 <= row * w) by (nonlinear_arith)
            requires
                row >= 0,
                w >= 1,
        ;
        assert(0 <= h * w) by (nonlinear_arith)
            requires
                h >= 1,
                w >= 1,
        ;
        assert forall|y: int|
            1 <= y <= h implies 0 <= #[trigger] self.row_start(y) && self.row_start(y) + w
                <= self.cells.len() by {
            assert(0 <= (y - 1) * w && (y - 1) * w + w <= h * w) by (nonlinear_arith)
                requires
                    1 <= y <= h,
                    w >= 1,
            ;
        }
    }
}

/// The character a cell shows: its letter, or a space.
pub open spec fn shown(c: Cell) -> char {
    match c.letter {
        Some(l) => l,
        None => ' ',
    }
}

/// The characters of a row, separated by `", "`.
pub open spec fn row_items(s: Seq<Cell>) -> Seq<char>
    decreases s.len(),
{
    if s.len() == 0 {
        seq![]
    } else if s.len() == 1 {
        seq![shown(s[0])]
    } else {
        row_items(s.drop_last()) + seq![',', ' ', shown(s.last())]
    }
}

/// The text of one row: its characters in brackets, then a line break.
pub open spec fn row_line(s: Seq<Cell>) -> Seq<char> {
    seq!['['] + row_items(s) + seq![']', '\n']
}

impl CellsView {
    /// The lines of the first `k` screen rows.
    pub open spec fn screen_text(self, k: int) -> Seq<char>
        decreases k,
    {
        if k <= 0 {
            seq![]
        } else {
            self.screen_text(k - 1) + row_line(self.row_cells(k))
        }
    }

    /// The text that describes the grid: its size, margin and scrollback count, then each screen row.
    pub open spec fn text(self) -> Seq<char> {
        "Cells { size: ("@ + ascii_chars(decimal(self.size.0 as nat)) + ", "@ + ascii_chars(
            decimal(self.size.1 as nat),
        ) + "), margin: ("@ + ascii_chars(decimal(self.margin.0 as nat)) + ", "@ + ascii_chars(
            decimal(self.margin.1 as nat),
        ) + "), row: "@ + ascii_chars(decimal(self.row as nat)) + ", cells: "@ + self.screen_text(
            self.h(),
        ) + " }"@
    }
}

/// Scrolling by one row with the margin at the bottom of the screen moves every
/// screen row up by one, leaves a blank last row, and keeps the old top row as the
/// newest row of scrollback.
pub proof fn grow_scrolls_screen(v: CellsView)
    requires
        v.wf(),
        v.margin.1 == v.size.1,
        v.row + 1 <= u16::MAX,
    ensures
        v.grown(1).wf(),
        forall|y: int| 1 <= y < v.h() ==> #[trigger] v.grown(1).row_cells(y) == v.row_cells(y + 1),
        v.grown(1).row_cells(v.h()) == blanks(v.w()),
        v.grown(1).cells.take(v.offset() + v.w()) == v.cells.take(v.offset() + v.w()),
{
    let g = v.grown(1);
    let w = v.w();
    let h = v.h();
    v.lemma_rows();
    assert((v.row + 1 + h - 1) * w == (v.row + h) * w);
    assert(g.cells =~= v.cells + blanks(w));
    assert((v.row + 1 + h) * w == (v.row + h) * w + w) by (nonlinear_arith);
    assert(g.offset() == v.offset() + w) by (nonlinear_arith)
        requires
            g.offset() == (v.row + 1) * w,
            v.offset() == v.row * w,
    ;
    g.lemma_rows();
    assert forall|y: int| 1 <= y < h implies #[trigger] g.row_cells(y) == v.row_cells(y + 1) by {
        assert(g.row_start(y) == v.row_start(y + 1)) by (nonlinear_arith)
            requires
                g.row_start(y) == g.offset() + (y - 1) * w,
                v.row_start(y + 1) == v.offset() + (y + 1 - 1) * w,
                g.offset() == v.offset() + w,
        ;
        assert(g.row_cells(y) =~= v.row_cells(y + 1));
    }
    assert(g.row_start(h) == v.cells.len()) by (nonlinear_arith)
        requires
            g.row_start(h) == g.offset() + (h - 1) * w,
            g.offset() == v.offset() + w,
            v.cells.len() == v.offset() + h * w,
    ;
    assert(g.row_cells(h) =~= blanks(w));
    assert(g.cells.take(v.offset() + w) =~= v.cells.take(v.offset() + w));
}

/// Cells are numbered from one: column `x` of screen row `y`, for `x` from 1 to the
/// row width and `y` from 1 to the screen height, lies on the screen, and different
/// positions are different cells.
pub proof fn cell_addressing(v: CellsView, x1: int, y1: int, x2: int, y2: int)
    requires
        v.wf(),
        1 <= x1 <= v.w(),
        1 <= y1 <= v.h(),
        1 <= x2 <= v.w(),
        1 <= y2 <= v.h(),
    ensures
        v.offset() <= v.index(x1, y1) < v.cells.len(),
        (v.index(x1, y1) == v.index(x2, y2)) == (x1 == x2 && y1 == y2),
{
    v.lemma_rows();
    let w = v.w();
    assert(v.row_start(y1) + w <= v.cells.len());
    if y1 < y2 {
        assert((y1 - 1) * w + w <= (y2 - 1) * w) by (nonlinear_arith)
            requires
                y1 < y2,
                w >= 1,
        ;
    } else if y2 < y1 {
        assert((y2 - 1) * w + w <= (y1 - 1) * w) by (nonlinear_arith)
            requires
                y2 < y1,
                w >= 1,
        ;
    }
}

/// Scrolling by `by` rows, where it does not panic, keeps the grid well formed:
/// `row` grows by `by`, the cells by `by` rows of blank cells inserted in one block,
/// and the size and margin stay. Taking that block out gives back the old cells.
pub proof fn grow_keeps_grid(v: CellsView, by: u16)
    requires
        v.wf(),
        1 <= v.margin.1,
        by + v.margin.1 <= v.size.1 + 1,
        v.row + by <= u16::MAX,
    ensures
        v.grown(by).wf(),
        v.grown(by).row == v.row + by,
        v.grown(by).size == v.size,
        v.grown(by).margin == v.margin,
        v.grown(by).cells.len() == v.cells.len() + by * v.w(),
        ({
            let at = (v.row + by + v.margin.1 - 1) * v.w();
            &&& v.grown(by).cells.subrange(at, at + by * v.w()) == blanks(by * v.w())
            &&& v.grown(by).cells.take(at) + v.grown(by).cells.skip(at + by * v.w()) == v.cells
        }),
{
    let w = v.w();
    let at = (v.row + by + v.margin.1 - 1) * w;
    assert(0 <= by * w) by (nonlinear_arith)
        requires
            by >= 0,
            w >= 1,
    ;
    assert(0 <= at <= (v.row + v.h()) * w) by (nonlinear_arith)
        requires
            at == (v.row + by + v.margin.1 - 1) * w,
            by + v.margin.1 - 1 <= v.h(),
            v.margin.1 >= 1,
            w >= 1,
    ;
    assert((v.row + by + v.h()) * w == (v.row + v.h()) * w + by * w) by (nonlinear_arith);
    let g = v.grown(by);
    assert(g.cells.subrange(at, at + by * w) =~= blanks(by * w));
    assert(g.cells.take(at) + g.cells.skip(at + by * w) =~= v.cells);
}

/// Inserting `n` blank rows at screen row `below` keeps the scrollback and the rows
/// above `below`, makes rows `below` to `below + n - 1` blank, moves every later row
/// down by `n`, and drops what moves past the last row.
pub proof fn insert_lines_moves_rows_down(v: CellsView, n: u16, below: u16)
    requires
        v.wf(),
        1 <= below <= v.size.1,
    ensures
        v.lines_inserted(n, below).wf(),
        v.lines_inserted(n, below).size == v.size,
        v.lines_inserted(n, below).row == v.row,
        v.lines_inserted(n, below).margin == v.margin,
        v.lines_inserted(n, below).cells.take(v.offset()) == v.cells.take(v.offset()),
        forall|y: int| 1 <= y < below ==> #[trigger] v.lines_inserted(n, below).row_cells(y) == v.row_cells(y),
        forall|y: int|
            below <= y <= v.h() && y < below + n ==> #[trigger] v.lines_inserted(n, below).row_cells(y)
                == blanks(v.w()),
        forall|y: int|
            below + n <= y <= v.h() ==> #[trigger] v.lines_inserted(n, below).row_cells(y) == v.row_cells(
                y - n,
            ),
{
    v.lemma_rows();
    let u = v.lines_inserted(n, below);
    let w = v.w();
    let at = v.row_start(below as int);
    let len = v.cells.len() as int;
    assert(0 <= n * w) by (nonlinear_arith)
        requires
            n >= 0,
            w >= 1,
    ;
    assert(u.cells.len() == len);
    assert(v.offset() <= at);
    assert(u.cells.take(v.offset()) =~= v.cells.take(v.offset()));
    assert forall|y: int| 1 <= y < below implies #[trigger] u.row_cells(y) == v.row_cells(y) by {
        assert(v.row_start(y) + w <= at) by (nonlinear_arith)
            requires
                v.row_start(y) == v.offset() + (y - 1) * w,
                at == v.offset() + (below - 1) * w,
                y < below,
                w >= 1,
        ;
        assert(u.row_cells(y) =~= v.row_cells(y));
    }
    assert forall|y: int| below <= y <= v.h() && y < below + n implies #[trigger] u.row_cells(y) == blanks(w) by {
        assert(at <= v.row_start(y) && v.row_start(y) + w <= at + n * w) by (nonlinear_arith)
            requires
                v.row_start(y) == v.offset() + (y - 1) * w,
                at == v.offset() + (below - 1) * w,
                below <= y < below + n,
                w >= 1,
        ;
        assert(u.row_cells(y) =~= blanks(w));
    }
    assert forall|y: int| below + n <= y <= v.h() implies #[trigger] u.row_cells(y) == v.row_cells(y - n) by {
        assert(at + n * w <= v.row_start(y) && v.row_start(y) - n * w == v.row_start(y - n)) by (nonlinear_arith)
            requires
                v.row_start(y) == v.offset() + (y - 1) * w,
                v.row_start(y - n) == v.offset() + (y - n - 1) * w,
                at == v.offset() + (below - 1) * w,
                below + n <= y,
                w >= 1,
        ;
        assert(u.row_cells(y) =~= v.row_cells(y - n));
    }
}

proof fn lemma_row_bounds(v: CellsView, y: int, z: int)
    requires
        v.wf(),
        1 <= y <= v.h(),
        1 <= z <= v.h(),
    ensures
        y != z ==> v.row_start(y) + v.w() <= v.row_start(z) || v.row_start(z) + v.w() <= v.row_start(y),
        v.offset() <= v.row_start(y),
{
    v.lemma_rows();
    let w = v.w();
    assert(0 <= (y - 1) * w) by (nonlinear_arith)
        requires
            y >= 1,
            w >= 1,
    ;
    if y == z {
    } else if y < z {
        assert((y - 1) * w + w <= (z - 1) * w) by (nonlinear_arith)
            requires
                y < z,
                w >= 1,
        ;
    } else {
        assert((z - 1) * w + w <= (y - 1) * w) by (nonlinear_arith)
            requires
                z < y,
                w >= 1,
        ;
    }
}

/// Replacing screen row `y` by `w` cells keeps the grid well formed, the scrollback
/// and every other screen row.
pub proof fn with_row_keeps_the_rest(v: CellsView, y: int, s: Seq<Cell>)
    requires
        v.wf(),
        1 <= y <= v.h(),
        s.len() == v.w(),
    ensures
        v.with_row(y, s).wf(),
        v.with_row(y, s).row_cells(y) == s,
        v.with_row(y, s).cells.take(v.offset()) == v.cells.take(v.offset()),
        forall|z: int| 1 <= z <= v.h() && z != y ==> #[trigger] v.with_row(y, s).row_cells(z) == v.row_cells(z),
{
    v.lemma_rows();
    let u = v.with_row(y, s);
    let w = v.w();
    let rs = v.row_start(y);
    assert(u.cells.len() == v.cells.len());
    assert(u.row_cells(y) =~= s);
    lemma_row_bounds(v, y, y);
    assert(u.cells.take(v.offset()) =~= v.cells.take(v.offset()));
    assert forall|z: int| 1 <= z <= v.h() && z != y implies #[trigger] u.row_cells(z) == v.row_cells(z) by {
        lemma_row_bounds(v, y, z);
        assert(u.row_cells(z) =~= v.row_cells(z));
    }
}

/// Blanking screen rows `lo` up to (not including) `hi` makes exactly those rows
/// blank and keeps the scrollback and every other row.
pub proof fn rows_cleared_rows(v: CellsView, lo: int, hi: int)
    requires
        v.wf(),
        1 <= lo,
        hi <= v.h() + 1,
    ensures
        v.rows_cleared(lo, hi).wf(),
        v.rows_cleared(lo, hi).cells.take(v.offset()) == v.cells.take(v.offset()),
        forall|z: int|
            1 <= z <= v.h() ==> #[trigger] v.rows_cleared(lo, hi).row_cells(z) == if lo <= z < hi {
                blanks(v.w())
            } else {
                v.row_cells(z)
            },
{
    v.lemma_rows();
    let u = v.rows_cleared(lo, hi);
    let w = v.w();
    if lo < hi {
        assert(v.offset() <= v.row_start(lo)) by (nonlinear_arith)
            requires
                v.row_start(lo) == v.offset() + (lo - 1) * w,
                lo >= 1,
                w >= 1,
        ;
        assert(u.cells.take(v.offset()) =~= v.cells.take(v.offset()));
        assert forall|z: int| 1 <= z <= v.h() implies #[trigger] u.row_cells(z) == if lo <= z < hi {
            blanks(w)
        } else {
            v.row_cells(z)
        } by {
            if lo <= z < hi {
                assert(v.row_start(lo) <= v.row_start(z) && v.row_start(z) + w <= v.row_start(hi)) by (nonlinear_arith)
                    requires
                        v.row_start(z) == v.offset() + (z - 1) * w,
                        v.row_start(lo) == v.offset() + (lo - 1) * w,
                        v.row_start(hi) == v.offset() + (hi - 1) * w,
                        lo <= z < hi,
                        w >= 1,
                ;
                assert(u.row_cells(z) =~= blanks(w));
            } else if z < lo {
                assert(v.row_start(z) + w <= v.row_start(lo)) by (nonlinear_arith)
                    requires
                        v.row_start(z) == v.offset() + (z - 1) * w,
                        v.row_start(lo) == v.offset() + (lo - 1) * w,
                        z < lo,
                        w >= 1,
                ;
                assert(u.row_cells(z) =~= v.row_cells(z));
            } else {
                assert(v.row_start(hi) <= v.row_start(z)) by (nonlinear_arith)
                    requires
                        v.row_start(z) == v.offset() + (z - 1) * w,
                        v.row_start(hi) == v.offset() + (hi - 1) * w,
                        hi <= z,
                        w >= 1,
                ;
                assert(u.row_cells(z) =~= v.row_cells(z));
            }
        }
    }
}

/// Inserting no rows changes nothing, and inserting `a` rows and then `b` rows at
/// the same row is inserting `a + b` rows there.
pub proof fn insert_lines_adds_up(v: CellsView, a: u16, b: u16, below: u16)
    requires
        v.wf(),
        1 <= below <= v.size.1 + 1,
        a + b <= u16::MAX,
    ensures
        v.lines_inserted(0, below) == v,
        v.lines_inserted(a, below).lines_inserted(b, below) == v.lines_inserted((a + b) as u16, below),
{
    v.lemma_rows();
    let w = v.w();
    let at = v.row_start(below as int);
    let len = v.cells.len() as int;
    assert(at <= len) by (nonlinear_arith)
        requires
            at == v.offset() + (below - 1) * w,
            len == v.offset() + v.h() * w,
            below - 1 <= v.h(),
            w >= 1,
    ;
    assert(0 <= (below - 1) * w) by (nonlinear_arith)
        requires
            below >= 1,
            w >= 1,
    ;
    assert(0 * w == 0);
    assert(v.lines_inserted(0, below).cells =~= v.cells);
    let x1 = v.lines_inserted(a, below);
    let x2 = x1.lines_inserted(b, below);
    let y = v.lines_inserted((a + b) as u16, below);
    assert((a + b) * w == a * w + b * w) by (nonlinear_arith);
    assert(0 <= a * w && 0 <= b * w) by (nonlinear_arith)
        requires
            a >= 0,
            b >= 0,
            w >= 1,
    ;
    assert(x1.cells.len() == len);
    assert forall|i: int| 0 <= i < len implies #[trigger] x2.cells[i] == y.cells[i] by {
        if i < at {
        } else if i < at + b * w {
        } else if i < at + b * w + a * w {
            assert(x2.cells[i] == x1.cells[i - b * w]);
        } else {
            assert(x2.cells[i] == x1.cells[i - b * w]);
        }
    }
    assert(x2.cells =~= y.cells);
}

/// Sets every cell of `s` to `v`.
pub fn fill(s: &mut [Cell], v: Cell)
    ensures
        final(s)@ == Seq::new(old(s)@.len(), |_i: int| v),
{
    let n = s.len();
    for i in 0..n
        invariant
            n == s@.len(),
            n == old(s)@.len(),
            forall|j: int| 0 <= j < i ==> s@[j] == v,
    {
        s[i] = v;
    }
    assert(s@ =~= Seq::new(old(s)@.len(), |_i: int| v));
}

/// Turns `s` so that its last `k` cells come first, as `<[T]>::rotate_right` does.
pub fn rotate_right(s: &mut [Cell], k: usize)
    requires
        k <= old(s)@.len(),
    ensures
        final(s)@ == old(s)@.skip(old(s)@.len() - k) + old(s)@.take(old(s)@.len() - k),
{
    let n = s.len();
    let tmp = vstd::slice::slice_to_vec(s);
    let ghost want = old(s)@.skip(n - k) + old(s)@.take(n - k);
    for i in 0..n
        invariant
            n == s@.len(),
            n == tmp@.len(),
            tmp@ == old(s)@,
            k <= n,
            want == old(s)@.skip(n - k) + old(s)@.take(n - k),
            forall|j: int| 0 <= j < i ==> s@[j] == want[j],
    {
        if i < k {
            s[i] = tmp[n - k + i];
        } else {
            s[i] = tmp[i - k];
        }
    }
    assert(s@ =~= want);
}

/// Turns `s` so that its first `k` cells go last, as `<[T]>::rotate_left` does.
pub fn rotate_left(s: &mut [Cell], k: usize)
    requires
        k <= old(s)@.len(),
    ensures
        final(s)@ == old(s)@.skip(k as int) + old(s)@.take(k as int),
{
    let n = s.len();
    let tmp = vstd::slice::slice_to_vec(s);
    let ghost want = old(s)@.skip(k as int) + old(s)@.take(k as int);
    for i in 0..n
        invariant
            n == s@.len(),
            n == tmp@.len(),
            tmp@ == old(s)@,
            k <= n,
            want == old(s)@.skip(k as int) + old(s)@.take(k as int),
            forall|j: int| 0 <= j < i ==> s@[j] == want[j],
    {
        if i < n - k {
            s[i] = tmp[i + k];
        } else {
            s[i] = tmp[i - (n - k)];
        }
    }
    assert(s@ =~= want);
}

/// Inserts `n` blank cells into `v` before index `at`.
fn insert_blanks(v: &mut Vec<Cell>, at: usize, n: usize)
    requires
        at <= old(v)@.len(),
        old(v)@.len() + n <= usize::MAX,
    ensures
        final(v)@ == old(v)@.take(at as int) + blanks(n as int) + old(v)@.skip(at as int),
{
    let mut tail = v.split_off(at);
    for i in 0..n
        invariant
            v@ == old(v)@.take(at as int) + blanks(i as int),
            tail@ == old(v)@.skip(at as int),
    {
        v.push(Cell::default());
        assert(v@ =~= old(v)@.take(at as int) + blanks(i + 1));
    }
    v.append(&mut tail);
}

impl Cells {
    /// A blank grid for a screen of `c` columns and `r` rows.
    pub fn new(sz: (u16, u16)) -> (cells: Self)
        requires
            sz.0 < u16::MAX,
            sz.1 < u16::MAX,
        ensures
            cells.size == ((sz.0 + 1) as u16, (sz.1 + 1) as u16),
            cells.margin == (1u16, (sz.1 + 1) as u16),
            cells.row == 0,
            cells.cells@ == blanks((sz.0 + 1) * (sz.1 + 1)),
            cells@.wf(),
    {
        let (c, r) = (sz.0 + 1, sz.1 + 1);
        proof {
            vstd::arithmetic::mul::lemma_mul_upper_bound(c as int, 0xffff, r as int, 0xffff);
            vstd::arithmetic::mul::lemma_mul_is_commutative(c as int, r as int);
        }
        let n: usize = (c as usize) * (r as usize);
        let mut v: Vec<Cell> = Vec::new();
        for i in 0..n
            invariant
                v@ == blanks(i as int),
        {
            v.push(Cell::default());
            assert(v@ =~= blanks(i + 1));
        }
        Cells { size: (c, r), margin: (1, r), cells: v, row: 0 }
    }

    fn offset(&self) -> (o: usize)
        ensures
            o == self@.offset(),
            o <= 0xffff * 0xffff,
    {
        proof {
            vstd::arithmetic::mul::lemma_mul_upper_bound(self.row as int, 0xffff, self.size.0 as int, 0xffff);
        }
        self.row as usize * self.size.0 as usize
    }

    /// The cells of the screen.
    pub fn cells(&mut self) -> (s: &mut [Cell])
        requires
            old(self)@.wf(),
        ensures
            s@ == old(self).cells@.skip(old(self)@.offset()),
            final(self).cells@ == old(self).cells@.take(old(self)@.offset()) + final(s)@,
            final(self).size == old(self).size,
            final(self).margin == old(self).margin,
            final(self).row == old(self).row,
    {
        let o = self.offset();
        proof {
            self@.lemma_rows();
        }
        let (_, screen) = self.cells.as_mut_slice().split_at_mut(o);
        screen
    }

    /// Rows of the screen.
    pub fn r(&mut self) -> (r: u16)
        ensures
            r == old(self).size.1,
            *final(self) == *old(self),
    {
        self.size.1
    }

    /// Columns of the screen.
    pub fn c(&mut self) -> (c: u16)
        ensures
            c == old(self).size.0,
            *final(self) == *old(self),
    {
        self.size.0
    }

    fn at(&self, pos: (u16, u16)) -> (i: usize)
        requires
            pos.1 >= 1,
            1 <= (pos.1 - 1) * self.size.0 + pos.0 <= u16::MAX,
        ensures
            i == self@.index(pos.0 as int, pos.1 as int),
    {
        let (x, y) = pos;
        self.offset() + ((y - 1) * self.size.0 + x - 1) as usize
    }

    /// The cell at column `x` of screen row `y`.
    pub fn get_at(&mut self, pos: (u16, u16)) -> (cell: &mut Cell)
        requires
            old(self)@.wf(),
            pos.0 < old(self).size.0,
            1 <= pos.1 < old(self).size.1,
            1 <= (pos.1 - 1) * old(self).size.0 + pos.0 <= u16::MAX,
        ensures
            0 <= old(self)@.index(pos.0 as int, pos.1 as int) < old(self).cells@.len(),
            *cell == old(self).cells@[old(self)@.index(pos.0 as int, pos.1 as int)],
            final(self)@ == old(self)@.with_cell(old(self)@.index(pos.0 as int, pos.1 as int), *final(cell)),
    {
        let i = self.at(pos);
        proof {
            self@.lemma_rows();
            assert(self@.index(pos.0 as int, pos.1 as int) < self@.row_start(pos.1 as int) + self@.w());
        }
        &mut self.cells[i]
    }

    /// The cells of screen row `row`.
    pub fn row(&mut self, row: u16) -> (s: &mut [Cell])
        requires
            old(self)@.wf(),
            1 <= row <= old(self).size.1,
        ensures
            s@ == old(self)@.row_cells(row as int),
            final(self)@ == old(self)@.with_row(row as int, final(s)@),
    {
        proof {
            self@.lemma_rows();
        }
        let ghost v = self@;
        let w = self.c();
        let screen = self.cells();
        proof {
            vstd::arithmetic::mul::lemma_mul_upper_bound(row - 1, 0xffff, w as int, 0xffff);
            assert(v.row_start(row as int) == v.offset() + (row - 1) * w);
        }
        let lo = (row as usize - 1) * w as usize;
        assert(lo + w <= screen@.len());
        let (before, rest) = screen.split_at_mut(lo);
        let (mid, after) = rest.split_at_mut(w as usize);
        assert(mid@ =~= v.row_cells(row as int));
        assert(v.cells.take(v.offset()) + before@ =~= v.cells.take(v.row_start(row as int)));
        assert(after@ =~= v.cells.skip(v.row_start(row as int) + v.w()));
        proof {
            let t = v.cells.take(v.offset());
            assert(t + (before@ + (final(mid)@ + after@)) =~= (t + before@) + final(mid)@ + after@);
        }
        mid
    }

    /// The cells of screen row `row` from column `x` to the end of the row.
    pub fn past(&mut self, pos: (u16, u16)) -> (s: &mut [Cell])
        requires
            old(self)@.wf(),
            1 <= pos.1 <= old(self).size.1,
            1 <= pos.0 <= old(self).size.0 + 1,
        ensures
            s@ == old(self).cells@.subrange(
                old(self)@.index(pos.0 as int, pos.1 as int),
                old(self)@.row_start(pos.1 as int) + old(self)@.w(),
            ),
            final(self)@ == (CellsView {
                cells: old(self).cells@.take(old(self)@.index(pos.0 as int, pos.1 as int)) + final(s)@
                    + old(self).cells@.skip(old(self)@.row_start(pos.1 as int) + old(self)@.w()),
                ..old(self)@
            }),
    {
        let (x, row) = pos;
        proof {
            self@.lemma_rows();
        }
        let ghost v = self@;
        let r = self.row(row);
        let (head, tail) = r.split_at_mut(x as usize - 1);
        assert(v.cells.take(v.row_start(row as int)) + head@ =~= v.cells.take(v.index(x as int, row as int)));
        assert(tail@ =~= v.cells.subrange(v.index(x as int, row as int), v.row_start(row as int) + v.w()));
        proof {
            let t = v.cells.take(v.row_start(row as int));
            let u = v.cells.skip(v.row_start(row as int) + v.w());
            assert(t + (head@ + final(tail)@) + u =~= (t + head@) + final(tail)@ + u);
        }
        tail
    }

    /// Scrolls the screen down by `by` rows: they become scrollback, and `by` blank
    /// rows are inserted before row `margin.1` of the new screen.
    pub fn grow(&mut self, by: u16)
        requires
            old(self)@.wf(),
            old(self).margin.1 >= 1,
            by + old(self).margin.1 - 1 <= old(self).size.1,
            old(self).row + by <= u16::MAX,
            old(self).cells@.len() + by * old(self).size.0 <= usize::MAX,
        ensures
            final(self)@ == old(self)@.grown(by),
            final(self)@.wf(),
    {
        let ghost v = self@;
        self.row += by;
        proof {
            vstd::arithmetic::mul::lemma_mul_upper_bound(self.margin.1 - 1, 0xffff, self.size.0 as int, 0xffff);
            vstd::arithmetic::mul::lemma_mul_upper_bound(by as int, 0xffff, self.size.0 as int, 0xffff);
            let w = v.w();
            assert((v.row + by + v.margin.1 - 1) * w == (v.row + by) * w + (v.margin.1 - 1) * w) by (nonlinear_arith);
            assert((v.row + by + v.margin.1 - 1) * w <= (v.row + v.h()) * w) by (nonlinear_arith)
                requires
                    by + v.margin.1 - 1 <= v.h(),
                    w >= 1,
            ;
            assert((v.row + by + v.h()) * w == (v.row + v.h()) * w + by * w) by (nonlinear_arith);
        }
        let at = self.offset() + (self.margin.1 as usize - 1) * self.size.0 as usize;
        let n = by as usize * self.size.0 as usize;
        insert_blanks(&mut self.cells, at, n);
    }

    /// Inserts `lines` blank rows before screen row `below`; rows pushed off the
    /// bottom of the screen are dropped.
    pub fn insert_lines(&mut self, lines: u16, below: u16)
        requires
            old(self)@.wf(),
            1 <= below <= old(self).size.1 + 1,
            old(self).size.0 * (below - 1) <= u16::MAX,
            lines * old(self).size.0 <= u16::MAX,
            old(self).cells@.len() + lines * old(self).size.0 <= usize::MAX,
        ensures
            final(self)@ == old(self)@.lines_inserted(lines, below),
            final(self)@.wf(),
    {
        let ghost v = self@;
        proof {
            v.lemma_rows();
            let w = v.w();
            assert((below - 1) * w <= v.h() * w) by (nonlinear_arith)
                requires
                    below - 1 <= v.h(),
                    w >= 1,
            ;
            assert(w * (below - 1) == (below - 1) * w) by (nonlinear_arith);
            vstd::arithmetic::mul::lemma_mul_upper_bound(v.w(), 0xffff, v.h(), 0xffff);
        }
        let c = self.c();
        let o = self.offset();
        let next_row = o + (c * (below - 1)) as usize;
        insert_blanks(&mut self.cells, next_row, (lines * c) as usize);
        self.cells.truncate(o + self.size.0 as usize * self.size.1 as usize);
        proof {
            assert(lines * c == lines * v.w());
        }
    }

    /// Inserts `characters` blank cells at column `x` of row `y`, moving the rest of
    /// the row right; the last `characters` cells of the row end up blank.
    pub fn insert_chars(&mut self, characters: u16, pos: (u16, u16))
        requires
            old(self)@.wf(),
            1 <= pos.1 <= old(self).size.1,
            1 <= pos.0 <= old(self).size.0 + 1,
            characters <= old(self).size.0 - pos.0 + 1,
        ensures
            final(self)@ == old(self)@.chars_inserted(characters as int, pos.0 as int, pos.1 as int),
            final(self)@.wf(),
    {
        let (x, y) = pos;
        let ghost v = self@;
        proof {
            v.lemma_rows();
        }
        let s = self.past((x, y));
        rotate_right(s, characters as usize);
        let (head, _) = s.split_at_mut(characters as usize);
        fill(head, Cell::default());
        let ghost v1 = self@;
        let w = self.c();
        let r = self.row(y);
        let (_, tail) = r.split_at_mut(w as usize - characters as usize);
        fill(tail, Cell::default());
        proof {
            let want = v.chars_inserted(characters as int, x as int, y as int);
            let n = characters as int;
            let old_row = v.row_cells(y as int);
            assert(v1.cells.len() == v.cells.len());
            assert(v1.row_cells(y as int) =~= old_row.take(x - 1) + (blanks(n) + old_row.skip(x - 1).take(w - x + 1 - n)));
            assert(self.cells@ =~= want.cells);
        }
    }

    /// Deletes `characters` cells at column `x` of row `y`, moving the rest of the
    /// row left; the `characters` cells from column `x` and the last `characters`
    /// cells of the row end up blank.
    pub fn delete_chars(&mut self, characters: u16, pos: (u16, u16))
        requires
            old(self)@.wf(),
            1 <= pos.1 <= old(self).size.1,
            1 <= pos.0 <= old(self).size.0 + 1,
            characters <= old(self).size.0 - pos.0 + 1,
        ensures
            final(self)@ == old(self)@.chars_deleted(characters as int, pos.0 as int, pos.1 as int),
            final(self)@.wf(),
    {
        let (x, y) = pos;
        let ghost v = self@;
        proof {
            v.lemma_rows();
        }
        let s = self.past((x, y));
        rotate_left(s, characters as usize);
        let (head, _) = s.split_at_mut(characters as usize);
        fill(head, Cell::default());
        let ghost v1 = self@;
        let w = self.c();
        let r = self.row(y);
        let (_, tail) = r.split_at_mut(w as usize - characters as usize);
        fill(tail, Cell::default());
        proof {
            let want = v.chars_deleted(characters as int, x as int, y as int);
            let n = characters as int;
            let old_row = v.row_cells(y as int);
            let p = old_row.skip(x - 1);
            assert(v1.row_cells(y as int) =~= old_row.take(x - 1) + (blanks(n) + (p.skip(n) + p.take(n)).skip(n)));
            assert(self.cells@ =~= want.cells);
        }
    }

    /// Describes the grid: its size, margin and scrollback count, then each screen row
    /// as its characters in brackets.
    pub fn fmt(&self) -> (text: String)
        requires
            self@.wf(),
        ensures
            text@ == self@.text(),
    {
        let mut out = String::new();
        out.append("Cells { size: (");
        push_decimal_str(&mut out, self.size.0);
        out.append(", ");
        push_decimal_str(&mut out, self.size.1);
        out.append("), margin: (");
        push_decimal_str(&mut out, self.margin.0);
        out.append(", ");
        push_decimal_str(&mut out, self.margin.1);
        out.append("), row: ");
        push_decimal_str(&mut out, self.row);
        out.append(", cells: ");
        let ghost head = out@;
        let rows = self.rows();
        let h = self.size.1 as usize;
        for k in 0..h
            invariant
                h == self.size.1,
                rows@.len() == h,
                forall|i: int| 0 <= i < rows@.len() ==> (#[trigger] rows@[i])@ == self@.row_cells(i + 1),
                out@ == head + self@.screen_text(k as int),
        {
            let r = rows[k];
            push_char(&mut out, '[');
            let n = r.len();
            let ghost before = out@;
            for j in 0..n
                invariant
                    n == r@.len(),
                    out@ == before + row_items(r@.take(j as int)),
            {
                if j > 0 {
                    push_char(&mut out, ',');
                    push_char(&mut out, ' ');
                }
                let c = r[j];
                push_char(&mut out, c.fmt());
                proof {
                    let t = r@.take(j + 1);
                    assert(t.drop_last() =~= r@.take(j as int));
                    assert(t.last() == c);
                    if j == 0 {
                        assert(row_items(r@.take(0)) =~= seq![]);
                    }
                }
                assert(out@ =~= before + row_items(r@.take(j + 1)));
            }
            assert(r@.take(n as int) =~= r@);
            push_char(&mut out, ']');
            push_char(&mut out, '\n');
            assert(out@ =~= head + self@.screen_text(k + 1));
        }
        out.append(" }");
        out
    }

    /// The screen rows, top to bottom.
    pub fn rows(&self) -> (rows: Vec<&[Cell]>)
        requires
            self@.wf(),
        ensures
            rows@.len() == self.size.1,
            forall|i: int| 0 <= i < rows@.len() ==> (#[trigger] rows@[i])@ == self@.row_cells(i + 1),
    {
        proof {
            self@.lemma_rows();
        }
        let w = self.size.0 as usize;
        let o = self.offset();
        let all = self.cells.as_slice();
        let total = all.len();
        let mut rows: Vec<&[Cell]> = Vec::new();
        for i in 0..self.size.1 as usize
            invariant
                w == self.size.0,
                o == self@.offset(),
                all@ == self.cells@,
                total == all@.len(),
                self@.wf(),
                rows@.len() == i,
                forall|j: int| 0 <= j < i ==> (#[trigger] rows@[j])@ == self@.row_cells(j + 1),
        {
            proof {
                self@.lemma_rows();
                assert(self@.row_start(i + 1) == o + i * w);
                assert(1 <= i + 1 <= self@.h());
                vstd::arithmetic::mul::lemma_mul_upper_bound(i as int, 0xffff, w as int, 0xffff);
            }
            let start = o + i * w;
            rows.push(vstd::slice::slice_subrange(all, start, start + w));
        }
        rows
    }
}

} // verus!
