//! The terminal: a screen of cells with a cursor and a current style, and an
//! alternate screen, driven by the parsed output of the application.
pub mod cells;
pub mod input;
pub mod sgr;

use vstd::prelude::*;

use self::cells::{blank_cell, default_style, Cell, Cells, CellsView, Style};
use self::cells::{blanks, fill, rows_cleared_rows, with_row_keeps_the_rest};
use self::input::{control_op, decode, input_op, Action, ControlFunction, Op, Parameter, TerminalInput};
use self::sgr::{apply_actions, apply_all, sgr_actions};
use crate::text::{decimal, push_decimal};

verus! {

/// Bold text.
pub const BOLD: u8 = 1;
/// Dim text.
pub const DIM: u8 = 2;
/// Italic text.
pub const ITALIC: u8 = 4;
/// Foreground and background swapped.
pub const INVERT: u8 = 8;
/// Underlined text.
pub const UNDERLINE: u8 = 16;
/// Struck-through text.
pub const STRIKETHROUGH: u8 = 32;

/// How input is read.
#[derive(Clone, Copy, Debug, PartialEq, Eq, Structural)]
pub enum Mode {
    Normal,
    Raw,
}

/// A terminal. The cursor is (column, row), both from one. `alternate` holds the
/// other screen: the alternate screen while the main one is shown, and the main
/// one while the alternate one is shown.
pub struct Terminal {
    pub style: Style,
    pub cursor: (u16, u16),
    pub saved_cursor: (u16, u16),
    pub cells: Cells,
    pub mode: Mode,
    pub alternate: Option<Box<Terminal>>,
}

/// What one screen of a terminal holds.
pub struct Screen {
    pub style: Style,
    pub cursor: (u16, u16),
    pub saved_cursor: (u16, u16),
    pub cells: CellsView,
    pub mode: Mode,
}

/// What a terminal holds: the screen shown and the other one, if any.
pub struct TermView {
    pub screen: Screen,
    pub alternate: Option<Screen>,
}

impl Terminal {
    /// The screen of this terminal, without its alternate.
    pub open spec fn screen(&self) -> Screen {
        Screen {
            style: self.style,
            cursor: self.cursor,
            saved_cursor: self.saved_cursor,
            cells: self.cells@,
            mode: self.mode,
        }
    }

    /// Both grids are well formed, and the alternate has no alternate of its own.
    pub open spec fn wf(&self) -> bool {
        &&& self@.wf()
        &&& match self.alternate {
            Some(a) => a.alternate is None,
            None => true,
        }
    }
}

impl View for Terminal {
    type V = TermView;

    open spec fn view(&self) -> TermView {
        TermView {
            screen: self.screen(),
            alternate: match self.alternate {
                Some(a) => Some(a.screen()),
                None => None,
            },
        }
    }
}

impl CellsView {
    /// The grid after `k` scrolls by one row.
    pub open spec fn scrolled(self, k: nat) -> CellsView
        decreases k,
    {
        if k == 0 {
            self
        } else {
            self.scrolled((k - 1) as nat).grown(1)
        }
    }
}

impl CellsView {
    /// Scrolling `k` times keeps the grid well formed: the size and margin stay,
    /// `row` grows by `k` and the cells by `k` rows.
    pub proof fn lemma_scrolled(self, k: nat)
        requires
            self.wf(),
            1 <= self.margin.1 <= self.h(),
            self.row + k <= u16::MAX,
        ensures
            self.scrolled(k).wf(),
            self.scrolled(k).size == self.size,
            self.scrolled(k).margin == self.margin,
            self.scrolled(k).row == self.row + k,
            self.scrolled(k).cells.len() == self.cells.len() + k * self.w(),
        decreases k,
    {
        if k > 0 {
            self.lemma_scrolled((k - 1) as nat);
            let p = self.scrolled((k - 1) as nat);
            let w = self.w();
            p.lemma_rows();
            assert((p.row + 1 + p.margin.1 - 1) * w <= (p.row + p.h()) * w) by (nonlinear_arith)
                requires
                    p.margin.1 <= p.h(),
                    w >= 1,
            ;
            assert((p.row + 1 + p.h()) * w == (p.row + p.h()) * w + w) by (nonlinear_arith);
            assert(self.cells.len() + (k - 1) * w + w == self.cells.len() + k * w) by (nonlinear_arith);
        }
    }
}

impl Screen {
    /// Cells per row of the grid.
    pub open spec fn w(self) -> int {
        self.cells.w()
    }

    /// Rows of the grid's screen.
    pub open spec fn h(self) -> int {
        self.cells.h()
    }

    /// Where a printed character goes before scrolling: past the last column it
    /// wraps to column 1 of the next row.
    pub open spec fn wrapped(self) -> (int, int) {
        if self.cursor.0 >= self.w() {
            (1, self.cursor.1 + 1)
        } else {
            (self.cursor.0 as int, self.cursor.1 as int)
        }
    }

    /// How many rows the grid scrolls before a character is printed: as many as
    /// bring the row of `wrapped` above the last row.
    pub open spec fn print_scroll(self) -> int {
        if self.wrapped().1 >= self.h() {
            self.wrapped().1 - self.h() + 1
        } else {
            0
        }
    }

    /// Printing a character at the cursor neither overflows a number nor reaches
    /// outside the grid.
    pub open spec fn print_ok(self) -> bool {
        let (x1, y1) = self.wrapped();
        let g = self.print_scroll();
        let y2 = y1 - g;
        let c = self.w();
        &&& self.cursor.0 >= c ==> self.cursor.1 < u16::MAX
        &&& g > 0 ==> {
            &&& 1 <= self.cells.margin.1 <= self.h()
            &&& self.cells.row + g <= u16::MAX
            &&& self.cells.cells.len() + g * c <= usize::MAX
        }
        &&& x1 < c
        &&& y2 >= 1
        &&& 1 <= (y2 - 1) * c + x1 <= u16::MAX
    }

    /// The screen after printing `ch`: the grid scrolls as `print_scroll` says, the
    /// cell at the (wrapped) cursor gets `ch` in the current style, and the cursor
    /// moves one column right.
    pub open spec fn printed(self, ch: char) -> Screen {
        let (x1, y1) = self.wrapped();
        let g = self.print_scroll();
        let y2 = y1 - g;
        let grid = self.cells.scrolled(g as nat);
        Screen {
            cells: grid.with_cell(grid.index(x1, y2), Cell { style: self.style, letter: Some(ch) }),
            cursor: ((x1 + 1) as u16, y2 as u16),
            ..self
        }
    }

    /// The operation neither overflows a number nor reaches outside the grid.
    pub open spec fn accepts(self, op: Op) -> bool {
        let (x, y) = self.cursor;
        let c = self.w();
        let r = self.h();
        let len = self.cells.cells.len();
        match op {
            Op::Print(_) => self.print_ok(),
            Op::Backspace => x >= 1,
            Op::Up(n) => y >= n,
            Op::Down(n) => y + n <= u16::MAX,
            Op::Forward(n) => x + n <= u16::MAX,
            Op::Back(n) => x >= n,
            Op::EraseDisplay(n) => {
                &&& n <= 3
                &&& n == 0 ==> y < u16::MAX
                &&& n == 1 ==> y <= r + 1
            },
            Op::EraseLine => 1 <= y <= r && 1 <= x <= c + 1,
            Op::Scroll(n) => {
                &&& 1 <= self.cells.margin.1
                &&& n + self.cells.margin.1 - 1 <= r
                &&& self.cells.row + n <= u16::MAX
                &&& len + n * c <= usize::MAX
            },
            Op::InsertLines(n) => {
                &&& 1 <= y <= r + 1
                &&& c * (y - 1) <= u16::MAX
                &&& n * c <= u16::MAX
                &&& len + n * c <= usize::MAX
            },
            Op::InsertChars(n) => 1 <= y <= r && 1 <= x <= c + 1 && n <= c - x + 1,
            Op::DeleteChars(n) => 1 <= y <= r && 1 <= x <= c + 1 && n <= c - x + 1,
            Op::EraseChars(_) => 1 <= y <= r,
            Op::LineFeed => y < u16::MAX,
            _ => true,
        }
    }

    /// The screen after an operation that stays on it.
    pub open spec fn step(self, op: Op) -> Screen {
        let (x, y) = self.cursor;
        let r = self.h();
        match op {
            Op::Print(ch) => self.printed(ch),
            Op::Backspace => Screen { cursor: ((x - 1) as u16, y), ..self },
            Op::ResetStyle => Screen { style: default_style(), ..self },
            Op::Style(acts) => Screen { style: apply_actions(self.style, acts), ..self },
            Op::Up(n) => Screen { cursor: (x, (y - n) as u16), ..self },
            Op::Down(n) => Screen { cursor: (x, (y + n) as u16), ..self },
            Op::Forward(n) => Screen { cursor: ((x + n) as u16, y), ..self },
            Op::Back(n) => Screen { cursor: ((x - n) as u16, y), ..self },
            Op::Goto(nx, ny) => Screen { cursor: (nx, ny), ..self },
            Op::GotoRow(ny) => Screen { cursor: (x, ny), ..self },
            Op::GotoColumn(nx) => Screen { cursor: (nx, y), ..self },
            Op::EraseDisplay(n) => Screen {
                cells: if n == 0 {
                    self.cells.rows_cleared(y + 1, r)
                } else if n == 1 {
                    self.cells.rows_cleared(1, y as int)
                } else if n == 2 {
                    self.cells.rows_cleared(1, r)
                } else {
                    self.cells
                },
                ..self
            },
            Op::EraseLine => Screen { cells: self.cells.line_cleared_from(x as int, y as int), ..self },
            Op::Scroll(n) => Screen { cells: self.cells.grown(n), ..self },
            Op::InsertLines(n) => Screen { cells: self.cells.lines_inserted(n, y), ..self },
            Op::InsertChars(n) => Screen { cells: self.cells.chars_inserted(n as int, x as int, y as int), ..self },
            Op::DeleteChars(n) => Screen { cells: self.cells.chars_deleted(n as int, x as int, y as int), ..self },
            Op::EraseChars(n) => Screen { cells: self.cells.chars_erased(n as int, y as int), ..self },
            Op::CarriageReturn => Screen { cursor: (1, y), ..self },
            Op::LineFeed => Screen { cursor: (x, (y + 1) as u16), ..self },
            Op::SaveCursor => Screen { saved_cursor: self.cursor, ..self },
            Op::RestoreCursor => Screen { cursor: self.saved_cursor, ..self },
            _ => self,
        }
    }

    /// The same screen with its grid cleared.
    pub open spec fn cleared(self) -> Screen {
        Screen { cells: self.cells.cleared(), ..self }
    }
}

proof fn lemma_scrolled_appends(v: CellsView, k: nat)
    requires
        v.wf(),
        v.margin.1 == v.size.1,
        v.row + k <= u16::MAX,
    ensures
        v.scrolled(k).cells == v.cells + cells::blanks(k * v.w()),
    decreases k,
{
    let w = v.w();
    if k == 0 {
        assert(k * w == 0) by (nonlinear_arith)
            requires
                k == 0,
        ;
        assert(v.cells + cells::blanks(0) =~= v.cells);
    } else {
        lemma_scrolled_appends(v, (k - 1) as nat);
        v.lemma_scrolled((k - 1) as nat);
        let p = v.scrolled((k - 1) as nat);
        assert((p.row + 1 + p.margin.1 - 1) * w == p.cells.len()) by (nonlinear_arith)
            requires
                p.cells.len() == (p.row + p.h()) * w,
                p.margin.1 == p.h(),
        ;
        assert(1 * w == w);
        assert((k - 1) * w + w == k * w) by (nonlinear_arith);
        assert(p.grown(1).cells =~= v.cells + cells::blanks(k * w));
        assert(v.scrolled(k) == p.grown(1));
    }
}

/// The number a cursor-movement parameter stands for: a left-out count is one.
pub open spec fn count(p: Parameter) -> int {
    match p {
        Parameter::Default => 1,
        Parameter::Value(v) => v as int,
    }
}

/// Cursor movement: `CSI n A`, `B`, `C` and `D` move the cursor up, down, right and
/// left by `n` (by one where `n` is left out); `CSI n G` and `CSI n d` put it in
/// column `n` and row `n`. Nothing else changes.
pub proof fn cursor_moves(t: TermView, cf: ControlFunction)
    requires
        cf.start == 91,
        cf.params@.len() == 1,
    ensures
        ({
            let (x, y) = (t.screen.cursor.0 as int, t.screen.cursor.1 as int);
            let n = count(cf.params@[0]);
            let after = t.apply(control_op(cf));
            &&& cf.end == 65 ==> after == TermView { screen: Screen { cursor: (x as u16, (y - n) as u16), ..t.screen }, ..t }
            &&& cf.end == 66 ==> after == TermView { screen: Screen { cursor: (x as u16, (y + n) as u16), ..t.screen }, ..t }
            &&& cf.end == 67 ==> after == TermView { screen: Screen { cursor: ((x + n) as u16, y as u16), ..t.screen }, ..t }
            &&& cf.end == 68 ==> after == TermView { screen: Screen { cursor: ((x - n) as u16, y as u16), ..t.screen }, ..t }
            &&& (cf.end == 71 && cf.params@[0] is Value) ==> after == TermView { screen: Screen { cursor: (n as u16, y as u16), ..t.screen }, ..t }
            &&& (cf.end == 100 && cf.params@[0] is Value) ==> after == TermView { screen: Screen { cursor: (x as u16, n as u16), ..t.screen }, ..t }
        }),
{
}

/// Cursor positioning: `CSI r;c H` puts the cursor in column `c` of row `r`, and
/// `CSI H` at the top left; `CSI r;c f` does the same with a left-out `r` or `c` taken
/// as one. Nothing else changes.
pub proof fn cursor_positions(t: TermView, cf: ControlFunction)
    requires
        cf.start == 91,
    ensures
        ({
            let p = cf.params@;
            let after = t.apply(control_op(cf));
            &&& (cf.end == 72 && p.len() == 2 && p[0] is Value && p[1] is Value) ==> after == TermView {
                screen: Screen { cursor: (p[1]->Value_0, p[0]->Value_0), ..t.screen },
                ..t
            }
            &&& (cf.end == 72 && p.len() == 1 && p[0] is Default) ==> after == TermView {
                screen: Screen { cursor: (1u16, 1u16), ..t.screen },
                ..t
            }
            &&& (cf.end == 102 && p.len() == 2) ==> after == TermView {
                screen: Screen { cursor: (count(p[1]) as u16, count(p[0]) as u16), ..t.screen },
                ..t
            }
        }),
{
}

/// Carriage return puts the cursor in column 1, line feed moves it one row down,
/// backspace one column left; the cursor report `CSI 6 n` changes nothing and answers
/// `ESC [ row ; column R`.
pub proof fn line_controls_and_report(t: TermView, cf: ControlFunction)
    ensures
        ({
            let (x, y) = (t.screen.cursor.0 as int, t.screen.cursor.1 as int);
            let after = t.apply(control_op(cf));
            &&& (cf.start == 13 && cf.params@.len() == 0) ==> after == TermView { screen: Screen { cursor: (1u16, y as u16), ..t.screen }, ..t }
            &&& (cf.start == 10 && cf.params@.len() == 0) ==> after == TermView { screen: Screen { cursor: (x as u16, (y + 1) as u16), ..t.screen }, ..t }
            &&& (cf.start == 8 && cf.params@.len() == 0) ==> after == TermView { screen: Screen { cursor: ((x - 1) as u16, y as u16), ..t.screen }, ..t }
            &&& (cf.start == 91 && cf.end == 110 && cf.params@ == seq![Parameter::Value(6)]) ==> {
                &&& after == t
                &&& t.reply(control_op(cf)) == seq![27u8, 91u8] + decimal(y as nat) + seq![59u8] + decimal(x as nat) + seq![82u8]
            }
        }),
{
}

/// `CSI n m` with one parameter changes only the style, to the one the SGR grammar
/// gives for `n`, and leaves it where `n` is no style change.
pub proof fn style_sequence(t: TermView, cf: ControlFunction, n: u16)
    requires
        cf.start == 91,
        cf.end == 109,
        cf.params@ == seq![Parameter::Value(n)],
    ensures
        t.apply(control_op(cf)) == (TermView {
            screen: Screen {
                style: match sgr_actions(seq![n]) {
                    Some(a) => apply_actions(t.screen.style, a),
                    None => t.screen.style,
                },
                ..t.screen
            },
            ..t
        }),
{
    assert(input::sgr_numbers(cf.params@) =~= seq![n]);
}

/// Erasing in the display (`CSI n J`) moves nothing and keeps the scrollback: with
/// cursor row `y` and last row `h`, 0 blanks the rows after `y` up to `h - 1`, 1 blanks
/// the rows before `y`, 2 blanks every row but `h`, and 3 blanks nothing; every other
/// row stays.
pub proof fn erase_display_rows(t: TermView, n: u16)
    requires
        t.wf(),
        t.accepts(Op::EraseDisplay(n)),
    ensures
        ({
            let s = t.screen;
            let y = s.cursor.1 as int;
            let h = s.h();
            let after = t.apply(Op::EraseDisplay(n));
            &&& after.alternate == t.alternate
            &&& after.screen == (Screen { cells: after.screen.cells, ..s })
            &&& after.screen.cells.wf()
            &&& after.screen.cells.size == s.cells.size
            &&& after.screen.cells.row == s.cells.row
            &&& after.screen.cells.cells.take(s.cells.offset()) == s.cells.cells.take(s.cells.offset())
            &&& forall|z: int|
                1 <= z <= h ==> #[trigger] after.screen.cells.row_cells(z) == if (n == 0 && y < z < h) || (n == 1
                    && z < y) || (n == 2 && z < h) {
                    blanks(s.w())
                } else {
                    s.cells.row_cells(z)
                }
        }),
{
    let v = t.screen.cells;
    let y = t.screen.cursor.1 as int;
    let h = v.h();
    if n == 0 {
        rows_cleared_rows(v, y + 1, h);
    } else if n == 1 {
        rows_cleared_rows(v, 1, y);
    } else if n == 2 {
        rows_cleared_rows(v, 1, h);
    }
}

/// Erasing the line (`CSI K`) blanks the cursor row from the cursor column to its end
/// and keeps its cells before the cursor, every other row and the scrollback.
pub proof fn erase_line_row(t: TermView)
    requires
        t.wf(),
        t.accepts(Op::EraseLine),
    ensures
        ({
            let s = t.screen;
            let (x, y) = (s.cursor.0 as int, s.cursor.1 as int);
            let after = t.apply(Op::EraseLine).screen.cells;
            &&& after.wf()
            &&& after.row_cells(y) == s.cells.row_cells(y).take(x - 1) + blanks(s.w() - x + 1)
            &&& after.cells.take(s.cells.offset()) == s.cells.cells.take(s.cells.offset())
            &&& forall|z: int| 1 <= z <= s.h() && z != y ==> #[trigger] after.row_cells(z) == s.cells.row_cells(z)
        }),
{
    let v = t.screen.cells;
    let (x, y) = (t.screen.cursor.0 as int, t.screen.cursor.1 as int);
    v.lemma_rows();
    let row = v.row_cells(y).take(x - 1) + blanks(v.w() - x + 1);
    with_row_keeps_the_rest(v, y, row);
    assert(v.line_cleared_from(x, y).cells =~= v.with_row(y, row).cells);
}

/// Erasing characters (`CSI n X`) blanks the first `n` cells of the cursor row (all of
/// it where `n` is larger) and keeps the rest of it, every other row and the scrollback.
pub proof fn erase_chars_row(t: TermView, n: u16)
    requires
        t.wf(),
        t.accepts(Op::EraseChars(n)),
    ensures
        ({
            let s = t.screen;
            let y = s.cursor.1 as int;
            let k = if n < s.w() { n as int } else { s.w() };
            let after = t.apply(Op::EraseChars(n)).screen.cells;
            &&& after.wf()
            &&& after.row_cells(y) == blanks(k) + s.cells.row_cells(y).skip(k)
            &&& after.cells.take(s.cells.offset()) == s.cells.cells.take(s.cells.offset())
            &&& forall|z: int| 1 <= z <= s.h() && z != y ==> #[trigger] after.row_cells(z) == s.cells.row_cells(z)
        }),
{
    let v = t.screen.cells;
    let y = t.screen.cursor.1 as int;
    let n = n as int;
    let k = if n < v.w() { n } else { v.w() };
    v.lemma_rows();
    let row = blanks(k) + v.row_cells(y).skip(k);
    with_row_keeps_the_rest(v, y, row);
    assert(v.chars_erased(n, y).cells =~= v.with_row(y, row).cells);
}

/// Inserting `n` characters (`CSI n @`) at cursor column `x` keeps the cells before `x`,
/// puts `n` blanks at `x`, moves the following cells right by `n` and drops those
/// pushed past the end, and blanks the last `n` cells of the row; every other row and
/// the scrollback stay.
pub proof fn insert_chars_row(t: TermView, n: u16)
    requires
        t.wf(),
        t.accepts(Op::InsertChars(n)),
    ensures
        ({
            let s = t.screen;
            let (x, y) = (s.cursor.0 as int, s.cursor.1 as int);
            let w = s.w();
            let old_row = s.cells.row_cells(y);
            let after = t.apply(Op::InsertChars(n)).screen.cells;
            &&& after.wf()
            &&& x - 1 + n <= w - n ==> after.row_cells(y) == old_row.take(x - 1) + blanks(n as int) + old_row.subrange(
                x - 1,
                w - 2 * n,
            ) + blanks(n as int)
            &&& x - 1 + n > w - n ==> after.row_cells(y) == old_row.take(x - 1) + blanks(w - x + 1)
            &&& after.cells.take(s.cells.offset()) == s.cells.cells.take(s.cells.offset())
            &&& forall|z: int| 1 <= z <= s.h() && z != y ==> #[trigger] after.row_cells(z) == s.cells.row_cells(z)
        }),
{
    let v = t.screen.cells;
    let (x, y) = (t.screen.cursor.0 as int, t.screen.cursor.1 as int);
    let w = v.w();
    let n = n as int;
    v.lemma_rows();
    let old_row = v.row_cells(y);
    let row = Seq::new(
        w as nat,
        |i: int|
            if i < x - 1 {
                old_row[i]
            } else if i < x - 1 + n || i >= w - n {
                blank_cell()
            } else {
                old_row[i - n]
            },
    );
    with_row_keeps_the_rest(v, y, row);
    if x - 1 + n <= w - n {
        assert(row =~= old_row.take(x - 1) + blanks(n) + old_row.subrange(x - 1, w - 2 * n) + blanks(n));
    } else {
        assert(row =~= old_row.take(x - 1) + blanks(w - x + 1));
    }
}

/// Deleting `n` characters (`CSI n P`) at cursor column `x` keeps the cells before `x`,
/// blanks the `n` cells from `x`, moves the cells after the deleted ones left by `n`,
/// and blanks the last `n` cells of the row; every other row and the scrollback stay.
pub proof fn delete_chars_row(t: TermView, n: u16)
    requires
        t.wf(),
        t.accepts(Op::DeleteChars(n)),
    ensures
        ({
            let s = t.screen;
            let (x, y) = (s.cursor.0 as int, s.cursor.1 as int);
            let w = s.w();
            let old_row = s.cells.row_cells(y);
            let after = t.apply(Op::DeleteChars(n)).screen.cells;
            &&& after.wf()
            &&& x - 1 + n <= w - n ==> after.row_cells(y) == old_row.take(x - 1) + blanks(n as int) + old_row.subrange(
                x - 1 + 2 * n,
                w,
            ) + blanks(n as int)
            &&& x - 1 + n > w - n ==> after.row_cells(y) == old_row.take(x - 1) + blanks(w - x + 1)
            &&& after.cells.take(s.cells.offset()) == s.cells.cells.take(s.cells.offset())
            &&& forall|z: int| 1 <= z <= s.h() && z != y ==> #[trigger] after.row_cells(z) == s.cells.row_cells(z)
        }),
{
    let v = t.screen.cells;
    let (x, y) = (t.screen.cursor.0 as int, t.screen.cursor.1 as int);
    let w = v.w();
    let n = n as int;
    v.lemma_rows();
    let old_row = v.row_cells(y);
    let row = Seq::new(
        w as nat,
        |i: int|
            if i < x - 1 {
                old_row[i]
            } else if i < x - 1 + n || i >= w - n {
                blank_cell()
            } else {
                old_row[i + n]
            },
    );
    with_row_keeps_the_rest(v, y, row);
    if x - 1 + n <= w - n {
        assert(row =~= old_row.take(x - 1) + blanks(n) + old_row.subrange(x - 1 + 2 * n, w) + blanks(n));
    } else {
        assert(row =~= old_row.take(x - 1) + blanks(w - x + 1));
    }
}

/// Printing a character: past the last column the cursor first wraps to column 1 of
/// the next row; while that row is at or below the last row `h` of the grid, the grid
/// scrolls one row, so by `y - h + 1` rows for row `y`; the character goes, in the
/// current style, into the cell under the cursor, and the cursor moves one column
/// right. With the margin at the bottom, scrolling only adds blank rows after the
/// cells: every old cell but the one written stays where it was.
pub proof fn print_wraps_and_scrolls(t: TermView, ch: char)
    requires
        t.wf(),
        t.screen.print_ok(),
    ensures
        ({
            let s = t.screen;
            let (x, y) = (s.cursor.0 as int, s.cursor.1 as int);
            let (w, h) = (s.w(), s.h());
            let x1 = if x >= w { 1 } else { x };
            let y1 = if x >= w { y + 1 } else { y };
            let g = if y1 >= h { y1 - h + 1 } else { 0 };
            let y2 = if y1 >= h { h - 1 } else { y1 };
            let p = t.apply(Op::Print(ch)).screen;
            let i = p.cells.index(x1, y2);
            &&& p.cells.wf()
            &&& p.cells.row == s.cells.row + g
            &&& p.cells.cells.len() == s.cells.cells.len() + g * w
            &&& p.cursor == ((x1 + 1) as u16, y2 as u16)
            &&& 0 <= i < p.cells.cells.len()
            &&& p.cells.cells[i] == (Cell { style: s.style, letter: Some(ch) })
            &&& p.style == s.style
            &&& p.saved_cursor == s.saved_cursor
            &&& t.apply(Op::Print(ch)).alternate == t.alternate
            &&& s.cells.margin.1 == h ==> {
                &&& forall|j: int| 0 <= j < s.cells.cells.len() && j != i ==> #[trigger] p.cells.cells[j] == s.cells.cells[j]
                &&& forall|j: int| s.cells.cells.len() <= j < p.cells.cells.len() && j != i ==> #[trigger] p.cells.cells[j] == blank_cell()
            }
        }),
{
    let s = t.screen;
    let g = s.print_scroll();
    let w = s.w();
    let (x1, y1) = s.wrapped();
    let y2 = y1 - g;
    if g > 0 {
        s.cells.lemma_scrolled(g as nat);
        if s.cells.margin.1 == s.h() {
            lemma_scrolled_appends(s.cells, g as nat);
        }
    } else {
        assert(s.cells.scrolled(0) == s.cells);
    }
    let grid = s.cells.scrolled(g as nat);
    grid.lemma_rows();
    assert(grid.index(x1, y2) < grid.row_start(y2) + grid.w());
}

/// Printing inside the screen, away from its last column and last row, writes the
/// character in the current style into the cell under the cursor, changes no other
/// cell, and moves the cursor one column right.
pub proof fn print_writes_one_cell(s: Screen, ch: char)
    requires
        s.cells.wf(),
        1 <= s.cursor.0 < s.w(),
        1 <= s.cursor.1 < s.h(),
        s.print_ok(),
    ensures
        s.printed(ch).cells.cells == s.cells.cells.update(
            s.cells.index(s.cursor.0 as int, s.cursor.1 as int),
            Cell { style: s.style, letter: Some(ch) },
        ),
        s.printed(ch).cursor == ((s.cursor.0 + 1) as u16, s.cursor.1),
        s.printed(ch).style == s.style,
{
    assert(s.print_scroll() == 0);
    assert(s.cells.scrolled(0) == s.cells);
}

/// An operation that stays on the shown screen: not a screen switch.
pub open spec fn stays_on_screen(op: Op) -> bool {
    !(op is SwitchScreen) && !(op is SwitchScreenSaving)
}

/// An operation that leaves the saved cursor alone: neither a save nor a screen switch.
pub open spec fn keeps_saved_cursor(op: Op) -> bool {
    stays_on_screen(op) && !(op is SaveCursor)
}

proof fn lemma_steps_keep_alternate(t: TermView, ops: Seq<Op>)
    requires
        forall|i: int| 0 <= i < ops.len() ==> stays_on_screen(#[trigger] ops[i]),
    ensures
        t.apply_seq(ops).alternate == t.alternate,
    decreases ops.len(),
{
    if ops.len() > 0 {
        assert(stays_on_screen(ops[0]));
        assert forall|i: int| 0 <= i < ops.drop_first().len() implies stays_on_screen(#[trigger] ops.drop_first()[i]) by {
            assert(ops.drop_first()[i] == ops[i + 1]);
        }
        lemma_steps_keep_alternate(t.apply(ops[0]), ops.drop_first());
    }
}

proof fn lemma_steps_keep_saved_cursor(t: TermView, ops: Seq<Op>)
    requires
        forall|i: int| 0 <= i < ops.len() ==> keeps_saved_cursor(#[trigger] ops[i]),
    ensures
        t.apply_seq(ops).screen.saved_cursor == t.screen.saved_cursor,
    decreases ops.len(),
{
    if ops.len() > 0 {
        assert(keeps_saved_cursor(ops[0]));
        assert forall|i: int| 0 <= i < ops.drop_first().len() implies keeps_saved_cursor(#[trigger] ops.drop_first()[i]) by {
            assert(ops.drop_first()[i] == ops[i + 1]);
        }
        lemma_steps_keep_saved_cursor(t.apply(ops[0]), ops.drop_first());
    }
}

/// Saving the cursor, then any operations that neither save the cursor nor switch
/// screens, then restoring it puts the cursor back where it was saved and keeps
/// everything else those operations did.
pub proof fn save_restore_cursor(t: TermView, ops: Seq<Op>)
    requires
        forall|i: int| 0 <= i < ops.len() ==> keeps_saved_cursor(#[trigger] ops[i]),
    ensures
        ({
            let u = t.apply(Op::SaveCursor).apply_seq(ops);
            u.apply(Op::RestoreCursor) == TermView { screen: Screen { cursor: t.screen.cursor, ..u.screen }, ..u }
        }),
{
    lemma_steps_keep_saved_cursor(t.apply(Op::SaveCursor), ops);
}

/// Entering the alternate screen with the saving switch, doing any operations that do
/// not switch screens, and leaving it again gives back the screen left, with its
/// cursor, style and scrollback and its visible rows cleared; the alternate screen
/// is held again as it was left, with its cursor saved.
pub proof fn alternate_screen_round_trip(t: TermView, ops: Seq<Op>)
    requires
        t.wf(),
        t.alternate is Some,
        forall|i: int| 0 <= i < ops.len() ==> stays_on_screen(#[trigger] ops[i]),
    ensures
        ({
            let inside = t.apply(Op::SwitchScreenSaving).apply_seq(ops);
            let u = inside.apply(Op::SwitchScreenSaving);
            &&& u.screen == (Screen { saved_cursor: t.screen.cursor, ..t.screen.cleared() })
            &&& u.screen.cursor == t.screen.cursor
            &&& u.screen.style == t.screen.style
            &&& u.screen.cells.row == t.screen.cells.row
            &&& u.screen.cells.cells.take(t.screen.cells.offset()) == t.screen.cells.cells.take(t.screen.cells.offset())
            &&& u.alternate == Some(Screen { saved_cursor: inside.screen.cursor, ..inside.screen })
        }),
{
    let entered = t.apply(Op::SwitchScreenSaving);
    lemma_steps_keep_alternate(entered, ops);
    t.screen.cells.lemma_rows();
    let v = t.screen.cells;
    assert(v.cleared().cells.take(v.offset()) =~= v.cells.take(v.offset()));
}

impl TermView {
    /// The terminal after the operations of `ops`, first to last.
    pub open spec fn apply_seq(self, ops: Seq<Op>) -> TermView
        decreases ops.len(),
    {
        if ops.len() == 0 {
            self
        } else {
            self.apply(ops[0]).apply_seq(ops.drop_first())
        }
    }

    /// Both grids are well formed.
    pub open spec fn wf(self) -> bool {
        &&& self.screen.cells.wf()
        &&& match self.alternate {
            Some(a) => a.cells.wf(),
            None => true,
        }
    }

    /// The operation neither overflows a number nor reaches outside the grid.
    pub open spec fn accepts(self, op: Op) -> bool {
        self.screen.accepts(op)
    }

    /// The terminal after the operation. Switching screens, where there is an
    /// alternate: the alternate is cleared and shown, and the screen left becomes
    /// the alternate; the saving switch first saves the cursor of the screen left
    /// and then restores the saved cursor of the screen shown.
    pub open spec fn apply(self, op: Op) -> TermView {
        match op {
            Op::SwitchScreen => match self.alternate {
                Some(a) => TermView { screen: a.cleared(), alternate: Some(self.screen) },
                None => self,
            },
            Op::SwitchScreenSaving => match self.alternate {
                Some(a) => TermView {
                    screen: Screen { cursor: a.saved_cursor, ..a.cleared() },
                    alternate: Some(Screen { saved_cursor: self.screen.cursor, ..self.screen }),
                },
                None => self,
            },
            _ => TermView { screen: self.screen.step(op), ..self },
        }
    }

    /// The bytes the terminal sends back to the application: for a cursor report,
    /// `ESC [ row ; column R`.
    pub open spec fn reply(self, op: Op) -> Seq<u8> {
        match op {
            Op::ReportCursor => seq![27u8, 91u8] + decimal(self.screen.cursor.1 as nat) + seq![59u8]
                + decimal(self.screen.cursor.0 as nat) + seq![82u8],
            _ => seq![],
        }
    }
}


impl Terminal {
    /// A terminal for a screen of `sz.0` columns and `sz.1` rows, with the cursor at
    /// the top left and the default style. Unless `alt`, it gets an alternate
    /// terminal of the same size, made with `alt` set.
    pub fn new(sz: (u16, u16), alt: bool) -> (t: Self)
        requires
            sz.0 < u16::MAX,
            sz.1 < u16::MAX,
        ensures
            t.wf(),
            t.style == default_style(),
            t.cursor == (1u16, 1u16),
            t.saved_cursor == (1u16, 1u16),
            t.mode == Mode::Normal,
            t.cells.size == ((sz.0 + 1) as u16, (sz.1 + 1) as u16),
            t.cells.margin == (1u16, (sz.1 + 1) as u16),
            t.cells.row == 0,
            t.cells.cells@ == cells::blanks((sz.0 + 1) * (sz.1 + 1)),
            alt ==> t.alternate is None,
            !alt ==> (t.alternate matches Some(a) && a.alternate is None && a.style == default_style()
                && a.cursor == (1u16, 1u16) && a.saved_cursor == (1u16, 1u16) && a.mode == Mode::Normal
                && a.cells@ == t.cells@),
        decreases if alt { 0int } else { 1int },
    {
        let alternate = if !alt {
            Some(Box::new(Terminal::new(sz, true)))
        } else {
            None
        };
        Self {
            style: Style::default(),
            saved_cursor: (1, 1),
            cursor: (1, 1),
            cells: Cells::new(sz),
            mode: Mode::Normal,
            alternate,
        }
    }

    fn decsc(&mut self)
        ensures
            *final(self) == (Terminal { saved_cursor: old(self).cursor, ..*old(self) }),
    {
        self.saved_cursor = self.cursor;
    }

    fn decrc(&mut self)
        ensures
            *final(self) == (Terminal { cursor: old(self).saved_cursor, ..*old(self) }),
    {
        self.cursor = self.saved_cursor;
    }

    fn clear(&mut self)
        requires
            old(self).cells@.wf(),
        ensures
            final(self).screen() == old(self).screen().cleared(),
            final(self).alternate == old(self).alternate,
    {
        let ghost v = self.cells@;
        proof {
            v.lemma_rows();
        }
        fill(self.cells.cells(), Cell::default());
        assert(self.cells@.cells =~= v.cleared().cells);
    }

    fn print(&mut self, ch: char)
        requires
            old(self).wf(),
            old(self).screen().print_ok(),
        ensures
            final(self).screen() == old(self).screen().printed(ch),
            final(self).alternate == old(self).alternate,
            final(self).cells@.wf(),
    {
        let ghost s0 = self.screen();
        let ghost g = s0.print_scroll();
        if self.cursor.0 >= self.cells.c() {
            self.cursor.0 = 1;
            self.cursor.1 += 1;
        }
        let ghost y1 = self.cursor.1 as int;
        let ghost mut k: nat = 0;
        while self.cursor.1 >= self.cells.r()
            invariant
                self.alternate == old(self).alternate,
                self.style == s0.style,
                self.saved_cursor == s0.saved_cursor,
                self.mode == s0.mode,
                s0.print_ok(),
                s0.cells.wf(),
                g == s0.print_scroll(),
                (self.cursor.0 as int, y1) == s0.wrapped(),
                k <= g,
                self.cursor.1 == y1 - k,
                (self.cursor.1 >= self.cells.size.1) == (k < g),
                self.cells@ == s0.cells.scrolled(k),
                self.cells@.wf(),
                self.cells.size == s0.cells.size,
                self.cells.margin == s0.cells.margin,
            decreases g - k,
        {
            self.cursor.1 -= 1;
            proof {
                s0.cells.lemma_scrolled(k);
                let c = s0.w();
                assert((k + 1) * c <= g * c) by (nonlinear_arith)
                    requires
                        k + 1 <= g,
                        c >= 1,
                ;
                assert(k * c + c == (k + 1) * c) by (nonlinear_arith);
            }
            self.cells.grow(1);
            proof {
                k = k + 1;
                s0.cells.lemma_scrolled(k);
            }
        }
        let st = self.style;
        let cell = self.cells.get_at(self.cursor);
        cell.letter = Some(ch);
        cell.style = st;
        self.cursor.0 += 1;
        proof {
            assert(k == g);
        }
    }

    fn clear_rows(&mut self, lo: u16, hi: u16)
        requires
            old(self).cells@.wf(),
            1 <= lo,
            lo < hi ==> hi <= old(self).cells.size.1 + 1,
        ensures
            final(self).screen() == (Screen { cells: old(self).cells@.rows_cleared(lo as int, hi as int), ..old(self).screen() }),
            final(self).alternate == old(self).alternate,
            final(self).cells@.wf(),
    {
        let ghost v = self.cells@;
        proof {
            v.lemma_rows();
        }
        let mut row = lo;
        while row < hi
            invariant
                1 <= lo <= row,
                lo < hi ==> row <= hi,
                lo >= hi ==> row == lo,
                lo < hi ==> hi <= v.h() + 1,
                v.wf(),
                self.cells@.wf(),
                self.cells.size == v.size,
                self.cells.margin == v.margin,
                self.cells.row == v.row,
                self.cells@.cells == v.rows_cleared(lo as int, row as int).cells,
                self.style == old(self).style,
                self.cursor == old(self).cursor,
                self.saved_cursor == old(self).saved_cursor,
                self.mode == old(self).mode,
                self.alternate == old(self).alternate,
            decreases hi - row,
        {
            proof {
                v.lemma_rows();
            }
            let ghost before = self.cells@;
            fill(self.cells.row(row), Cell::default());
            proof {
                let a = v.row_start(lo as int);
                let b = v.row_start(row as int);
                let w = v.w();
                assert((row + 1 - 1) * w == (row - 1) * w + w) by (nonlinear_arith);
                assert(v.row_start(row + 1) == b + v.w());
                let want = v.rows_cleared(lo as int, row + 1).cells;
                let got = self.cells@.cells;
                assert(got == before.cells.take(b) + cells::blanks(w) + before.cells.skip(b + w));
                assert((lo - 1) * w <= (row - 1) * w) by (nonlinear_arith)
                    requires
                        lo <= row,
                        w >= 1,
                ;
                assert(a <= b);
                assert forall|i: int| 0 <= i < got.len() implies got[i] == want[i] by {
                    if i < b {
                        assert(got[i] == before.cells[i]);
                    } else if i < b + w {
                        assert(got[i] == blank_cell());
                    } else {
                        assert(got[i] == before.cells[i]);
                    }
                }
                assert(got =~= want);
            }
            row = row + 1;
        }
        if lo < hi {
            assert(row == hi);
        } else {
            assert(v.rows_cleared(lo as int, lo as int) == v);
        }
        assert(self.cells@.cells =~= old(self).cells@.rows_cleared(lo as int, hi as int).cells);
    }

    fn erase_line(&mut self)
        requires
            old(self).cells@.wf(),
            1 <= old(self).cursor.1 <= old(self).cells.size.1,
            1 <= old(self).cursor.0 <= old(self).cells.size.0 + 1,
        ensures
            final(self).screen() == old(self).screen().step(Op::EraseLine),
            final(self).alternate == old(self).alternate,
            final(self).cells@.wf(),
    {
        let ghost v = self.cells@;
        proof {
            v.lemma_rows();
        }
        fill(self.cells.past(self.cursor), Cell::default());
        assert(self.cells@.cells =~= v.line_cleared_from(self.cursor.0 as int, self.cursor.1 as int).cells);
    }

    fn erase_chars(&mut self, n: u16)
        requires
            old(self).cells@.wf(),
            1 <= old(self).cursor.1 <= old(self).cells.size.1,
        ensures
            final(self).screen() == old(self).screen().step(Op::EraseChars(n)),
            final(self).alternate == old(self).alternate,
            final(self).cells@.wf(),
    {
        let ghost v = self.cells@;
        proof {
            v.lemma_rows();
        }
        let y = self.cursor.1;
        let r = self.cells.row(y);
        let k = if (n as usize) < r.len() { n as usize } else { r.len() };
        let ghost r0 = r@;
        for i in 0..k
            invariant
                k <= r@.len(),
                r@.len() == r0.len(),
                forall|j: int| 0 <= j < i ==> r@[j] == blank_cell(),
                forall|j: int| i <= j < r@.len() ==> r@[j] == r0[j],
        {
            r[i] = Cell::default();
        }
        proof {
            assert(r0 == v.row_cells(y as int));
            let want = v.chars_erased(n as int, y as int);
            let rs = v.row_start(y as int);
            let w = v.w();
            let got = v.cells.take(rs) + r@ + v.cells.skip(rs + w);
            assert(got.len() == want.cells.len());
            assert forall|i: int| 0 <= i < got.len() implies #[trigger] got[i] == want.cells[i] by {
                if i < rs {
                    assert(got[i] == v.cells[i]);
                } else if i < rs + w {
                    assert(got[i] == r@[i - rs]);
                    assert(r0[i - rs] == v.cells[i]);
                } else {
                    assert(got[i] == v.cells[i]);
                }
            }
            assert(got =~= want.cells);
        }
    }

    fn switch(&mut self, saving: bool)
        requires
            old(self).wf(),
        ensures
            final(self).wf(),
            final(self)@ == old(self)@.apply(if saving { Op::SwitchScreenSaving } else { Op::SwitchScreen }),
    {
        match self.alternate.take() {
            Some(b) => {
                let mut alt = *b;
                alt.clear();
                if saving {
                    self.decsc();
                }
                std::mem::swap(self, &mut alt);
                if saving {
                    self.decrc();
                }
                self.alternate = Some(Box::new(alt));
            },
            None => {},
        }
    }

    fn perform(&mut self, a: Action) -> (reply: Vec<u8>)
        requires
            old(self).wf(),
            old(self)@.accepts(a@),
        ensures
            final(self).wf(),
            final(self)@ == old(self)@.apply(a@),
            reply@ == old(self)@.reply(a@),
    {
        proof {
            self.cells@.lemma_rows();
        }
        match a {
            Action::Nothing => {},
            Action::Print(ch) => self.print(ch),
            Action::Backspace => self.cursor.0 = self.cursor.0 - 1,
            Action::ResetStyle => self.style = Style::default(),
            Action::Style(acts) => apply_all(&mut self.style, &acts),
            Action::Up(n) => self.cursor.1 = self.cursor.1 - n,
            Action::Down(n) => self.cursor.1 = self.cursor.1 + n,
            Action::Forward(n) => self.cursor.0 = self.cursor.0 + n,
            Action::Back(n) => self.cursor.0 = self.cursor.0 - n,
            Action::Goto(x, y) => self.cursor = (x, y),
            Action::GotoRow(y) => self.cursor.1 = y,
            Action::GotoColumn(x) => self.cursor.0 = x,
            Action::EraseDisplay(n) => {
                if n == 0 {
                    let r = self.cells.r();
                    self.clear_rows(self.cursor.1 + 1, r);
                } else if n == 1 {
                    self.clear_rows(1, self.cursor.1);
                } else if n == 2 {
                    let r = self.cells.r();
                    self.clear_rows(1, r);
                }
            },
            Action::EraseLine => self.erase_line(),
            Action::Scroll(n) => self.cells.grow(n),
            Action::InsertLines(n) => self.cells.insert_lines(n, self.cursor.1),
            Action::ReportCursor => {
                return self.report();
            },
            Action::InsertChars(n) => self.cells.insert_chars(n, self.cursor),
            Action::DeleteChars(n) => self.cells.delete_chars(n, self.cursor),
            Action::EraseChars(n) => self.erase_chars(n),
            Action::CarriageReturn => self.cursor.0 = 1,
            Action::LineFeed => self.cursor.1 = self.cursor.1 + 1,
            Action::SaveCursor => self.decsc(),
            Action::RestoreCursor => self.decrc(),
            Action::SwitchScreen => self.switch(false),
            Action::SwitchScreenSaving => self.switch(true),
        }
        Vec::new()
    }

    fn print_fits(&self) -> (ok: bool)
        requires
            self.cells@.wf(),
        ensures
            ok == self.screen().print_ok(),
    {
        let c = self.cells.size.0 as u64;
        let r = self.cells.size.1 as u64;
        let x = self.cursor.0 as u64;
        let y = self.cursor.1 as u64;
        if x >= c && y >= 0xffff {
            return false;
        }
        let (x1, y1): (u64, u64) = if x >= c { (1, y + 1) } else { (x, y) };
        let g: u64 = if y1 >= r { y1 - r + 1 } else { 0 };
        let y2 = y1 - g;
        if g > 0 {
            let m = self.cells.margin.1 as u64;
            if m < 1 || m > r {
                return false;
            }
            if self.cells.row as u64 + g > 0xffff {
                return false;
            }
            let len = self.cells.cells.len();
            proof {
                vstd::arithmetic::mul::lemma_mul_upper_bound(g as int, 0x10000, c as int, 0xffff);
            }
            let extra = g * c;
            if extra > (usize::MAX - len) as u64 {
                return false;
            }
        }
        if !(x1 < c && y2 >= 1) {
            return false;
        }
        proof {
            vstd::arithmetic::mul::lemma_mul_upper_bound(y2 - 1, 0x10000, c as int, 0xffff);
        }
        let i = (y2 - 1) * c + x1;
        1 <= i && i <= 0xffff
    }

    fn check(&self, a: &Action) -> (ok: bool)
        requires
            self.wf(),
        ensures
            ok == self@.accepts(a@),
    {
        let (x, y) = (self.cursor.0 as u64, self.cursor.1 as u64);
        let c = self.cells.size.0 as u64;
        let r = self.cells.size.1 as u64;
        let len = self.cells.cells.len();
        match a {
            Action::Print(_) => self.print_fits(),
            Action::Backspace => x >= 1,
            Action::Up(n) => y >= *n as u64,
            Action::Down(n) => y + *n as u64 <= 0xffff,
            Action::Forward(n) => x + *n as u64 <= 0xffff,
            Action::Back(n) => x >= *n as u64,
            Action::EraseDisplay(n) => *n <= 3 && (*n != 0 || y < 0xffff) && (*n != 1 || y <= r + 1),
            Action::EraseLine => 1 <= y && y <= r && 1 <= x && x <= c + 1,
            Action::Scroll(n) => {
                let m = self.cells.margin.1 as u64;
                let n = *n as u64;
                proof {
                    vstd::arithmetic::mul::lemma_mul_upper_bound(n as int, 0xffff, c as int, 0xffff);
                }
                1 <= m && n + m - 1 <= r && self.cells.row as u64 + n <= 0xffff && n * c <= (usize::MAX - len) as u64
            },
            Action::InsertLines(n) => {
                let n = *n as u64;
                proof {
                    vstd::arithmetic::mul::lemma_mul_upper_bound(n as int, 0xffff, c as int, 0xffff);
                    if y >= 1 {
                        vstd::arithmetic::mul::lemma_mul_upper_bound(c as int, 0xffff, y - 1, 0xffff);
                    }
                }
                1 <= y && y <= r + 1 && c * (y - 1) <= 0xffff && n * c <= 0xffff && n * c <= (usize::MAX - len) as u64
            },
            Action::InsertChars(n) => 1 <= y && y <= r && 1 <= x && x <= c + 1 && (*n as u64) + x <= c + 1,
            Action::DeleteChars(n) => 1 <= y && y <= r && 1 <= x && x <= c + 1 && (*n as u64) + x <= c + 1,
            Action::EraseChars(_) => 1 <= y && y <= r,
            Action::LineFeed => y < 0xffff,
            _ => true,
        }
    }

    /// Whether the terminal can take `input`: the operation it asks for neither
    /// overflows a number nor reaches outside the grid.
    pub fn accepts(&self, input: &TerminalInput) -> (ok: bool)
        requires
            self.wf(),
        ensures
            ok == self@.accepts(input_op(*input)),
    {
        let a = decode(input);
        self.check(&a)
    }

    /// Takes one step of the parsed output of the application: the terminal becomes
    /// `apply` of the operation it asks for, and the result is the bytes to send back.
    pub fn rx(&mut self, input: TerminalInput) -> (reply: Vec<u8>)
        requires
            old(self).wf(),
            old(self)@.accepts(input_op(input)),
        ensures
            final(self).wf(),
            final(self)@ == old(self)@.apply(input_op(input)),
            reply@ == old(self)@.reply(input_op(input)),
    {
        let a = decode(&input);
        self.perform(a)
    }

    fn report(&self) -> (reply: Vec<u8>)
        ensures
            reply@ == self@.reply(Op::ReportCursor),
    {
        let mut v: Vec<u8> = Vec::new();
        v.push(27);
        v.push(91);
        push_decimal(&mut v, self.cursor.1);
        v.push(59);
        push_decimal(&mut v, self.cursor.0);
        v.push(82);
        v
    }
}

} // verus!
