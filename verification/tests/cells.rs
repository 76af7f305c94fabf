use pattypan::term::cells::{Cell, Cells};
use pattypan::term::{DIM, INVERT};

#[test]
fn grow() {
    let mut cells = Cells::new((4, 4));
    cells.row(1).fill(Cell::basic('1'));
    cells.row(2).fill(Cell::basic('2'));
    cells.row(3).fill(Cell::basic('3'));
    cells.row(4).fill(Cell::basic('4'));
    cells.row(5).fill(Cell::basic('5'));

    cells.grow(1);
    assert_eq!(
        cells.fmt(),
        "Cells { size: (5, 5), margin: (1, 5), row: 1, cells: [2, 2, 2, 2, 2]\n[3, 3, 3, 3, 3]\n[4, 4, 4, 4, 4]\n[5, 5, 5, 5, 5]\n[ ,  ,  ,  ,  ]\n }"
    );
}

fn letters(row: &[Cell]) -> String {
    row.iter().map(|c| c.letter.unwrap_or(' ')).collect()
}

#[test]
fn new_grid_is_blank() {
    let cells = Cells::new((2, 3));
    assert_eq!(cells.size, (3, 4));
    assert_eq!(cells.margin, (1, 4));
    assert_eq!(cells.row, 0);
    assert_eq!(cells.cells.len(), 12);
    assert!(cells.cells.iter().all(|c| c.letter.is_none() && c.style.flags == 0));
}

#[test]
fn blank_grid_text() {
    let cells = Cells::new((1, 1));
    assert_eq!(cells.fmt(), "Cells { size: (2, 2), margin: (1, 2), row: 0, cells: [ ,  ]\n[ ,  ]\n }");
}

#[test]
fn get_at_writes_the_addressed_cell() {
    let mut cells = Cells::new((2, 3));
    cells.get_at((2, 2)).letter = Some('x');
    assert_eq!(cells.cells[4].letter, Some('x'));
    assert_eq!(cells.c(), 3);
    assert_eq!(cells.r(), 4);
    assert_eq!(letters(cells.row(2)), " x ");
    assert_eq!(letters(cells.past((2, 2))), "x ");
    let rows = cells.rows();
    assert_eq!(rows.len(), 4);
    assert_eq!(letters(rows[1]), " x ");
}

fn abcd() -> Cells {
    let mut cells = Cells::new((4, 2));
    for (i, ch) in "abcd".chars().enumerate() {
        cells.get_at((i as u16 + 1, 1)).letter = Some(ch);
    }
    cells
}

#[test]
fn insert_chars_shifts_right() {
    let mut cells = abcd();
    cells.insert_chars(1, (2, 1));
    assert_eq!(letters(cells.row(1)), "a bc ");
}

#[test]
fn delete_chars_shifts_left() {
    let mut cells = abcd();
    cells.delete_chars(1, (2, 1));
    assert_eq!(letters(cells.row(1)), "a d  ");
}

#[test]
fn insert_lines_pushes_rows_down() {
    let mut cells = Cells::new((1, 3));
    for r in 1..=4u16 {
        cells.row(r).fill(Cell::basic(char::from(b'0' + r as u8)));
    }
    cells.insert_lines(1, 2);
    assert_eq!(cells.cells.len(), 8);
    assert_eq!(letters(cells.row(1)), "11");
    assert_eq!(letters(cells.row(2)), "  ");
    assert_eq!(letters(cells.row(3)), "22");
    assert_eq!(letters(cells.row(4)), "33");
}

#[test]
fn grow_keeps_the_old_top_row_as_scrollback() {
    let mut cells = Cells::new((1, 1));
    cells.row(1).fill(Cell::basic('a'));
    cells.row(2).fill(Cell::basic('b'));
    cells.grow(1);
    assert_eq!(cells.row, 1);
    assert_eq!(cells.cells.len(), 6);
    assert_eq!(letters(&cells.cells[0..2]), "aa");
    assert_eq!(letters(cells.row(1)), "bb");
    assert_eq!(letters(cells.row(2)), "  ");
}

#[test]
fn basic_cell_has_default_style() {
    let c = Cell::basic('q');
    assert_eq!(c.letter, Some('q'));
    assert_eq!(c.fmt(), 'q');
    assert_eq!(Cell::default().fmt(), ' ');
    assert_eq!(c.style.flags, 0);
    assert_eq!(c.style.bg, pattypan::colors::BACKGROUND);
    assert_eq!(c.style.color, pattypan::colors::FOREGROUND);
}

#[test]
fn every_position_is_its_own_cell() {
    let mut cells = Cells::new((3, 2));
    let mut n = 0u32;
    for y in 1..=3u16 {
        for x in 1..=4u16 {
            if x < 4 && y < 3 {
                cells.get_at((x, y)).letter = char::from_u32('a' as u32 + n);
                n += 1;
            }
        }
    }
    let shown: String = cells.cells.iter().map(|c| c.letter.unwrap_or('.')).collect();
    assert_eq!(shown, "abc.def.....");
}

#[test]
fn inserting_lines_adds_up() {
    let fill = |cells: &mut Cells| {
        for r in 1..=4u16 {
            cells.row(r).fill(Cell::basic(char::from(b'0' + r as u8)));
        }
    };
    let mut twice = Cells::new((1, 3));
    fill(&mut twice);
    twice.insert_lines(1, 2);
    twice.insert_lines(1, 2);
    let mut once = Cells::new((1, 3));
    fill(&mut once);
    once.insert_lines(2, 2);
    assert_eq!(twice.fmt(), once.fmt());
    assert_eq!(letters(once.row(4)), "22");
    let before = once.fmt();
    once.insert_lines(0, 3);
    assert_eq!(once.fmt(), before);
}

#[test]
fn grow_by_two_above_a_raised_margin() {
    let mut cells = Cells::new((1, 4));
    for r in 1..=5u16 {
        cells.row(r).fill(Cell::basic(char::from(b'0' + r as u8)));
    }
    cells.margin.1 = 3;
    cells.grow(2);
    assert_eq!(cells.row, 2);
    assert_eq!(cells.cells.len(), 14);
    let shown: String = cells.cells.iter().map(|c| c.letter.unwrap_or(' ')).collect();
    assert_eq!(shown, "11223344    55");
}

#[test]
fn drawn_style() {
    let mut c = Cell::basic('a');
    c.style.color = [100, 50, 20];
    c.style.bg = [1, 2, 3];
    c.style.flags = INVERT;
    let d = c.style.drawn();
    assert_eq!((d.bg, d.color), ([100, 50, 20], [1, 2, 3]));
    c.style.flags = DIM;
    assert_eq!(c.style.drawn().color, [50, 25, 10]);
    c.style.flags = DIM | INVERT;
    assert_eq!(c.style.drawn().color, [0, 1, 1]);
    assert_eq!(c.style.drawn().bg, [100, 50, 20]);
}
