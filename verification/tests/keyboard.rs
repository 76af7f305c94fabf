use pattypan::keyboard::{Board, Key};

#[test]
fn letters_and_release() {
    let mut b = Board::new();
    assert_eq!(b.rx(Key::A, true), b"a".to_vec());
    assert_eq!(b.rx(Key::A, false), Vec::<u8>::new());
    assert_eq!(b.rx(Key::Z, true), b"z".to_vec());
}

#[test]
fn shift_changes_letters_digits_and_punctuation() {
    let mut b = Board::new();
    assert_eq!(b.rx(Key::LeftShift, true), Vec::<u8>::new());
    assert_eq!(b.rx(Key::A, true), b"A".to_vec());
    assert_eq!(b.rx(Key::Key1, true), b"!".to_vec());
    assert_eq!(b.rx(Key::Key0, true), b")".to_vec());
    assert_eq!(b.rx(Key::Period, true), b">".to_vec());
    assert_eq!(b.rx(Key::Apostrophe, true), b"\"".to_vec());
    assert_eq!(b.rx(Key::RightBracket, true), b"]".to_vec());
    assert_eq!(b.rx(Key::LeftShift, false), Vec::<u8>::new());
    assert_eq!(b.rx(Key::Key1, true), b"1".to_vec());
    assert_eq!(b.rx(Key::Period, true), b".".to_vec());
}

#[test]
fn ctrl_and_alt_letters() {
    let mut b = Board::new();
    b.rx(Key::LeftCtrl, true);
    assert_eq!(b.rx(Key::C, true), vec![3]);
    assert_eq!(b.rx(Key::Z, true), vec![26]);
    b.rx(Key::RightAlt, true);
    assert_eq!(b.rx(Key::C, true), vec![0x1b, 3]);
    b.rx(Key::LeftCtrl, false);
    assert_eq!(b.rx(Key::B, true), vec![0x1b, b'b']);
    assert_eq!(b.rx(Key::Z, true), b"z".to_vec());
    b.rx(Key::RightAlt, false);
    assert_eq!(b.rx(Key::B, true), b"b".to_vec());
}

#[test]
fn cursor_keys() {
    let mut b = Board::new();
    assert_eq!(b.rx(Key::Up, true), b"\x1b[A".to_vec());
    assert_eq!(b.rx(Key::Left, true), b"\x1b[D".to_vec());
    assert_eq!(b.rx(Key::Home, true), b"\x1b[H".to_vec());
    assert_eq!(b.rx(Key::NumPad1, true), b"\x1b[F".to_vec());
    b.rx(Key::LeftShift, true);
    assert_eq!(b.rx(Key::Up, true), b"\x1b[1;2A".to_vec());
    b.rx(Key::LeftShift, false);
    b.rx(Key::LeftCtrl, true);
    b.rx(Key::LeftAlt, true);
    assert_eq!(b.rx(Key::Right, true), b"\x1b[1;7C".to_vec());
}

#[test]
fn named_keys() {
    let mut b = Board::new();
    assert_eq!(b.rx(Key::Enter, true), b"\n".to_vec());
    assert_eq!(b.rx(Key::Delete, true), b"\x1b[3~".to_vec());
    assert_eq!(b.rx(Key::Insert, true), b"\x1b[2~".to_vec());
    assert_eq!(b.rx(Key::Backspace, true), vec![8]);
    assert_eq!(b.rx(Key::Tab, true), b"\t".to_vec());
    assert_eq!(b.rx(Key::Escape, true), vec![0x1b]);
    assert_eq!(b.rx(Key::Space, true), b" ".to_vec());
    assert_eq!(b.rx(Key::LeftSuper, true), Vec::<u8>::new());
    assert_eq!(b.rx(Key::Key7, true), b"7".to_vec());
    assert_eq!(b.rx(Key::F1, true), b"{".to_vec());
}

#[test]
fn key_codes() {
    assert_eq!(Key::Key0.code(), 0);
    assert_eq!(Key::A.code(), 10);
    assert_eq!(Key::Z.code(), 35);
    assert_eq!(Key::F1.code(), 36);
    assert_eq!(Key::Unknown.code(), 106);
}
