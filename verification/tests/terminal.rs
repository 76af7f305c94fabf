use pattypan::colors;
use pattypan::term::cells::Cell;
use pattypan::term::input::{ControlFunction, Parameter, TerminalInput};
use pattypan::term::{Terminal, BOLD};

fn control(start: u8, params: Vec<Parameter>, end: u8) -> TerminalInput {
    TerminalInput::Control(ControlFunction { start, params, bytes: Vec::new(), end })
}

fn csi(params: &[u16], end: u8) -> TerminalInput {
    control(b'[', params.iter().map(|&p| Parameter::Value(p)).collect(), end)
}

fn feed(t: &mut Terminal, input: TerminalInput) -> Vec<u8> {
    assert!(t.accepts(&input));
    t.rx(input)
}

fn type_str(t: &mut Terminal, s: &str) {
    for ch in s.chars() {
        feed(t, TerminalInput::Char(ch));
    }
}

fn letters(row: &[Cell]) -> String {
    row.iter().map(|c| c.letter.unwrap_or(' ')).collect()
}

#[test]
fn new_terminal() {
    let t = Terminal::new((4, 4), false);
    assert_eq!(t.cursor, (1, 1));
    assert_eq!(t.saved_cursor, (1, 1));
    assert_eq!(t.cells.size, (5, 5));
    let alt = t.alternate.as_ref().unwrap();
    assert!(alt.alternate.is_none());
    assert_eq!(alt.cells.size, (5, 5));
    assert!(Terminal::new((4, 4), true).alternate.is_none());
}

#[test]
fn printing_writes_and_advances() {
    let mut t = Terminal::new((4, 4), false);
    type_str(&mut t, "ab");
    assert_eq!(t.cursor, (3, 1));
    assert_eq!(letters(t.cells.row(1)), "ab   ");
    feed(&mut t, TerminalInput::Continue);
    assert_eq!(t.cursor, (3, 1));
}

#[test]
fn printing_wraps_past_the_last_column() {
    let mut t = Terminal::new((4, 4), false);
    type_str(&mut t, "abcde");
    assert_eq!(letters(t.cells.row(1)), "abcd ");
    assert_eq!(letters(t.cells.row(2)), "e    ");
    assert_eq!(t.cursor, (2, 2));
}

#[test]
fn printing_below_the_screen_scrolls() {
    let mut t = Terminal::new((4, 4), false);
    feed(&mut t, csi(&[4, 1], b'H'));
    type_str(&mut t, "x");
    feed(&mut t, control(b'\n', vec![], 0));
    assert_eq!(t.cursor, (2, 5));
    type_str(&mut t, "y");
    assert_eq!(t.cells.row, 1);
    assert_eq!(t.cursor, (3, 4));
    assert_eq!(letters(t.cells.row(3)), "x    ");
    assert_eq!(letters(t.cells.row(4)), " y   ");
    assert_eq!(letters(t.cells.row(5)), "     ");
}

#[test]
fn cursor_report() {
    let mut t = Terminal::new((4, 4), false);
    type_str(&mut t, "a");
    assert_eq!(feed(&mut t, csi(&[6], b'n')), b"\x1b[1;2R".to_vec());
    feed(&mut t, csi(&[45, 123], b'H'));
    assert_eq!(feed(&mut t, csi(&[6], b'n')), b"\x1b[45;123R".to_vec());
    assert_eq!(feed(&mut t, csi(&[5], b'n')), Vec::<u8>::new());
}

#[test]
fn cursor_movement() {
    let mut t = Terminal::new((9, 9), false);
    feed(&mut t, csi(&[3, 4], b'H'));
    assert_eq!(t.cursor, (4, 3));
    feed(&mut t, csi(&[2], b'A'));
    assert_eq!(t.cursor, (4, 1));
    feed(&mut t, control(b'[', vec![Parameter::Default], b'B'));
    assert_eq!(t.cursor, (4, 2));
    feed(&mut t, csi(&[3], b'C'));
    assert_eq!(t.cursor, (7, 2));
    feed(&mut t, control(b'[', vec![Parameter::Default], b'D'));
    assert_eq!(t.cursor, (6, 2));
    feed(&mut t, csi(&[5], b'G'));
    assert_eq!(t.cursor, (5, 2));
    feed(&mut t, csi(&[3], b'd'));
    assert_eq!(t.cursor, (5, 3));
    feed(&mut t, control(b'[', vec![Parameter::Default], b'H'));
    assert_eq!(t.cursor, (1, 1));
    feed(&mut t, csi(&[2, 3], b'f'));
    assert_eq!(t.cursor, (3, 2));
    feed(&mut t, control(b'[', vec![Parameter::Default, Parameter::Default], b'f'));
    assert_eq!(t.cursor, (1, 1));
    feed(&mut t, control(8, vec![], 0));
    assert_eq!(t.cursor, (0, 1));
    feed(&mut t, control(b'\r', vec![], 0));
    assert_eq!(t.cursor, (1, 1));
}

#[test]
fn out_of_range_input_is_refused() {
    let mut t = Terminal::new((4, 4), false);
    feed(&mut t, csi(&[0], b'G'));
    assert!(!t.accepts(&control(8, vec![], 0)));
    assert!(!t.accepts(&csi(&[2], b'A')));
    assert!(!t.accepts(&csi(&[5], b'J')));
    assert!(!t.accepts(&csi(&[2], b'M')));
    assert!(!t.accepts(&TerminalInput::Char('a')));
    assert!(t.accepts(&csi(&[1], b'M')));
}

#[test]
fn select_graphic_rendition() {
    let mut t = Terminal::new((4, 4), false);
    feed(&mut t, csi(&[1, 31], b'm'));
    assert_eq!(t.style.flags, BOLD);
    assert_eq!(t.style.color, [0xcd, 0x31, 0x31]);
    type_str(&mut t, "q");
    assert_eq!(t.cells.get_at((1, 1)).style.flags, BOLD);
    feed(&mut t, csi(&[38, 5, 196], b'm'));
    assert_eq!(t.style.color, [255, 0, 0]);
    feed(&mut t, csi(&[48, 2, 300, 20, 30], b'm'));
    assert_eq!(t.style.bg, [255, 20, 30]);
    feed(&mut t, csi(&[22], b'm'));
    assert_eq!(t.style.flags, BOLD);
    feed(&mut t, csi(&[38, 5], b'm'));
    assert_eq!(t.style.color, [255, 0, 0]);
    feed(&mut t, csi(&[3, 0], b'm'));
    assert_eq!(t.style.flags, 0);
    assert_eq!(t.style.color, colors::FOREGROUND);
    assert_eq!(t.style.bg, colors::BACKGROUND);
    feed(&mut t, csi(&[7, 92, 103], b'm'));
    assert_eq!(t.style.color, colors::four(10));
    assert_eq!(t.style.bg, colors::four(11));
    feed(&mut t, control(b'[', vec![], b'm'));
    assert_eq!(t.style.flags, 0);
    assert_eq!(t.style.bg, colors::BACKGROUND);
}

fn filled() -> Terminal {
    let mut t = Terminal::new((4, 4), false);
    for r in 1..=5u16 {
        t.cells.row(r).fill(Cell::basic(char::from(b'0' + r as u8)));
    }
    t
}

#[test]
fn erase_display() {
    let mut t = filled();
    feed(&mut t, csi(&[2], b'J'));
    for r in 1..=4 {
        assert_eq!(letters(t.cells.row(r)), "     ");
    }
    assert_eq!(letters(t.cells.row(5)), "55555");

    let mut t = filled();
    feed(&mut t, csi(&[2, 1], b'H'));
    feed(&mut t, control(b'[', vec![Parameter::Default], b'J'));
    assert_eq!(letters(t.cells.row(2)), "22222");
    assert_eq!(letters(t.cells.row(3)), "     ");
    assert_eq!(letters(t.cells.row(4)), "     ");
    assert_eq!(letters(t.cells.row(5)), "55555");

    let mut t = filled();
    feed(&mut t, csi(&[3, 1], b'H'));
    feed(&mut t, csi(&[1], b'J'));
    assert_eq!(letters(t.cells.row(1)), "     ");
    assert_eq!(letters(t.cells.row(2)), "     ");
    assert_eq!(letters(t.cells.row(3)), "33333");
}

#[test]
fn erase_in_row() {
    let mut t = filled();
    feed(&mut t, csi(&[2, 3], b'H'));
    feed(&mut t, control(b'[', vec![Parameter::Default], b'K'));
    assert_eq!(letters(t.cells.row(2)), "22   ");
    feed(&mut t, csi(&[0], b'K'));
    assert_eq!(letters(t.cells.row(2)), "22   ");
    feed(&mut t, csi(&[3, 4], b'H'));
    feed(&mut t, csi(&[2], b'X'));
    assert_eq!(letters(t.cells.row(3)), "  333");
}

#[test]
fn insert_and_delete() {
    let mut t = Terminal::new((4, 4), false);
    type_str(&mut t, "abcd");
    feed(&mut t, csi(&[1, 2], b'H'));
    feed(&mut t, csi(&[1], b'@'));
    assert_eq!(letters(t.cells.row(1)), "a bc ");
    feed(&mut t, csi(&[1], b'P'));
    assert_eq!(letters(t.cells.row(1)), "a c  ");
    type_str(&mut t, "z");
    feed(&mut t, csi(&[1], b'L'));
    assert_eq!(letters(t.cells.row(1)), "     ");
    assert_eq!(letters(t.cells.row(2)), "azc  ");
    feed(&mut t, control(b'[', vec![Parameter::Default], b'M'));
    assert_eq!(t.cells.row, 1);
    assert_eq!(letters(t.cells.row(1)), "azc  ");
}

#[test]
fn save_and_restore_cursor() {
    let mut t = Terminal::new((9, 9), false);
    feed(&mut t, csi(&[2, 3], b'H'));
    feed(&mut t, control(0x1b, vec![], b'7'));
    feed(&mut t, csi(&[5, 5], b'H'));
    feed(&mut t, control(0x1b, vec![], b'8'));
    assert_eq!(t.cursor, (3, 2));
    feed(&mut t, csi(&[4, 4], b'H'));
    feed(&mut t, control(b'[', vec![], b's'));
    feed(&mut t, control(b'\n', vec![], 0));
    type_str(&mut t, "hi");
    feed(&mut t, csi(&[2], b'A'));
    feed(&mut t, control(b'[', vec![], b'u'));
    assert_eq!(t.cursor, (4, 4));
    assert_eq!(letters(t.cells.row(5)), "   hi     ");
    feed(&mut t, csi(&[7, 7], b'H'));
    feed(&mut t, csi(&[1048], b'h'));
    feed(&mut t, control(b'\r', vec![], 0));
    feed(&mut t, control(0x1b, vec![], b'8'));
    assert_eq!(t.cursor, (7, 7));
}

#[test]
fn alternate_screen() {
    let mut t = Terminal::new((4, 4), false);
    feed(&mut t, csi(&[1], b'm'));
    type_str(&mut t, "ab");
    feed(&mut t, csi(&[1049], b'h'));
    assert_eq!(t.cursor, (1, 1));
    feed(&mut t, csi(&[0], b'm'));
    assert_eq!(letters(t.cells.row(1)), "     ");
    type_str(&mut t, "xyz");
    feed(&mut t, csi(&[1049], b'l'));
    assert_eq!(t.cursor, (3, 1));
    assert_eq!(t.style.flags, BOLD);
    assert_eq!(t.cells.row, 0);
    assert_eq!(letters(t.cells.row(1)), "     ");
    let alt = t.alternate.as_mut().unwrap();
    assert_eq!(letters(alt.cells.row(1)), "xyz  ");
    assert_eq!(alt.saved_cursor, (4, 1));

    feed(&mut t, csi(&[1047], b'h'));
    type_str(&mut t, "q");
    assert_eq!(letters(t.cells.row(1)), "   q ");
    feed(&mut t, csi(&[1047], b'h'));
    assert_eq!(letters(t.cells.row(1)), "     ");
    assert_eq!(t.cursor, (3, 1));
}

#[test]
fn without_alternate_switching_does_nothing() {
    let mut t = Terminal::new((4, 4), true);
    type_str(&mut t, "ab");
    feed(&mut t, csi(&[1049], b'h'));
    assert_eq!(t.cursor, (3, 1));
    assert_eq!(letters(t.cells.row(1)), "ab   ");
}

#[test]
fn ignored_controls() {
    let mut t = Terminal::new((4, 4), false);
    type_str(&mut t, "ab");
    feed(&mut t, csi(&[2004], b'h'));
    feed(&mut t, TerminalInput::Control(ControlFunction { start: 0x1b, params: vec![], bytes: vec![b'('], end: b'B' }));
    feed(&mut t, csi(&[1, 2, 3], b'z'));
    assert_eq!(t.cursor, (3, 1));
    assert_eq!(letters(t.cells.row(1)), "ab   ");
}
