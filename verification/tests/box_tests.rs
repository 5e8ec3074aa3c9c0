use rich_rust::box_chars::{get_box, get_safe_box, RowLevel, ASCII, ROUNDED, SQUARE};


#[test]
fn test_ascii_box() {
    assert!(ASCII().ascii);
    assert_eq!(ASCII().top[0], '+');
}

#[test]
fn test_get_top() {
    let widths = [5, 3, 7];
    let top = ASCII().get_top(&widths);
    assert_eq!(top, "+-----+---+-------+");
}

#[test]
fn test_get_bottom() {
    let widths = [5, 3];
    let bottom = ASCII().get_bottom(&widths);
    assert_eq!(bottom, "+-----+---+");
}

#[test]
fn test_unicode_square() {
    assert!(!SQUARE().ascii);
    assert_eq!(SQUARE().top[0], '\u{250C}'); // ┌
}

#[test]
fn test_get_box() {
    assert!(get_box("ascii").is_some());
    assert!(get_box("SQUARE").is_some()); // Case insensitive
    assert!(get_box("nonexistent").is_none());
}

#[test]
fn test_get_safe_box() {
    let safe = get_safe_box("double");
    assert!(safe.ascii); // Should return ASCII() for non-ASCII() box
}

#[test]
fn test_build_row_widths() {
    let widths = [4, 4];
    let row = SQUARE().build_row(&widths, RowLevel::HeadRow, true);
    assert!(row.len() > 0);
    assert!(row.contains('\u{253C}')); // ┼
}

#[test]
fn test_cell_characters() {
    assert_eq!(ASCII().cell_left(), '|');
    assert_eq!(ASCII().cell_divider(), '|');
    assert_eq!(ASCII().cell_right(), '|');
}

#[test]
fn test_rounded_box() {
    assert!(!ROUNDED().ascii);
    assert_eq!(ROUNDED().top[0], '\u{256D}'); // ╭
    assert_eq!(ROUNDED().bottom[0], '\u{2570}'); // ╰
}

#[test]
fn substitute_gives_ascii_when_safe() {
    let sq = SQUARE();
    assert!(sq.substitute(true).ascii);
    assert_eq!(sq.substitute(true), ASCII());
    assert_eq!(sq.substitute(false), sq);
    assert_eq!(ASCII().substitute(true), ASCII());
}

#[test]
fn safe_box_keeps_ascii_boxes() {
    assert_eq!(get_safe_box("ascii2"), get_box("ascii2").unwrap());
    assert_eq!(get_safe_box("ASCII_DOUBLE_HEAD"), get_box("ascii_double_head").unwrap());
    assert_eq!(get_safe_box("double"), ASCII());
    assert_eq!(get_safe_box("nope"), ASCII());
}

#[test]
fn get_box_ignores_ascii_case() {
    assert_eq!(get_box("SQUARE"), Some(SQUARE()));
    assert_eq!(get_safe_box("ASCII2"), get_box("ascii2").unwrap());
}
