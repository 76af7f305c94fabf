use pattypan::colors::{eight, four};

#[test]
fn palette_entries() {
    assert_eq!(four(9), [0xf1, 0x4c, 0x4c]);
    assert_eq!(eight(1), four(1));
    assert_eq!(eight(16), [0, 0, 0]);
    assert_eq!(eight(21), [0, 0, 255]);
    assert_eq!(eight(196), [255, 0, 0]);
    assert_eq!(eight(231), [255, 255, 255]);
    assert_eq!(eight(232), [8, 8, 8]);
    assert_eq!(eight(255), [238, 238, 238]);
}
