use rich_rust::renderables::columns::{AlignMethod, Columns};
use rich_rust::segment::Segment;


#[test]
fn test_columns_new() {
    let items = vec![
        vec![Segment::new("A", None)],
        vec![Segment::new("B", None)],
    ];
    let cols = Columns::new(items);
    assert_eq!(cols.items.len(), 2);
}

#[test]
fn test_columns_from_strings() {
    let cols = Columns::from_strings(&["A", "B", "C"]);
    assert_eq!(cols.items.len(), 3);
}

#[test]
fn test_columns_builder() {
    let cols = Columns::from_strings(&["A", "B"])
        .column_count(2)
        .gutter(4)
        .expand(false)
        .equal_width(true)
        .align(AlignMethod::Center)
        .padding(1);

    assert_eq!(cols.column_count, Some(2));
    assert_eq!(cols.gutter, 4);
    assert!(!cols.expand);
    assert!(cols.equal_width);
    assert_eq!(cols.align, AlignMethod::Center);
    assert_eq!(cols.padding, 1);
}

#[test]
fn test_columns_render_two_columns() {
    let cols = Columns::from_strings(&["A", "B", "C", "D"])
        .column_count(2)
        .gutter(2)
        .expand(false);

    let lines = cols.render(20);

    assert_eq!(lines.len(), 2);
}

#[test]
fn test_columns_render_three_columns() {
    let cols = Columns::from_strings(&["A", "B", "C"])
        .column_count(3)
        .gutter(1);

    let lines = cols.render(30);

    assert_eq!(lines.len(), 1);
}

#[test]
fn test_columns_render_empty() {
    let cols = Columns::new(vec![]);
    let lines = cols.render(40);
    assert!(lines.is_empty());
}

#[test]
fn test_columns_auto_count() {
    let cols = Columns::from_strings(&["Hello", "World", "Test", "Here"]);

    let auto_count = cols.auto_column_count(50);
    assert!(auto_count >= 1);
}

#[test]
fn test_columns_equal_width() {
    let cols = Columns::from_strings(&["Short", "Much Longer Item"])
        .column_count(2)
        .equal_width(true);

    let widths = cols.calculate_column_widths(40, 2);

    assert_eq!(widths[0], widths[1]);
}

#[test]
fn test_columns_with_gutter() {
    let cols = Columns::from_strings(&["A", "B"])
        .column_count(2)
        .gutter(4);

    let lines = cols.render(20);
    let line = &lines[0];

    let text: String = line.iter().map(|s| s.text.as_str()).collect();
    assert!(text.contains("    ")); // 4 spaces for gutter
}

#[test]
fn test_columns_alignment() {
    let cols = Columns::from_strings(&["Hi"])
        .column_count(1)
        .expand(true)
        .equal_width(true)
        .align(AlignMethod::Center);

    let lines = cols.render(20);
    let text: String = lines[0].iter().map(|s| s.text.as_str()).collect();

    assert!(text.starts_with(' ')); // Has leading spaces
    assert!(text.ends_with(' ')); // Has trailing spaces
}

#[test]
fn test_columns_render_flat() {
    let cols = Columns::from_strings(&["A", "B", "C", "D"])
        .column_count(2);

    let segments = cols.render_flat(20);

    let has_newline = segments.iter().any(|s| s.text.contains('\n'));
    assert!(has_newline);
}

#[test]
fn test_columns_uneven_items() {
    let cols = Columns::from_strings(&["1", "2", "3", "4", "5"])
        .column_count(2);

    let lines = cols.render(20);
    assert_eq!(lines.len(), 3);
}

#[test]
fn test_item_width() {
    let item = vec![
        Segment::new("Hello", None),
        Segment::new(" ", None),
        Segment::new("World", None),
    ];
    assert_eq!(Columns::item_width(&item), 11);
}

#[test]
fn test_columns_single_column() {
    let cols = Columns::from_strings(&["A", "B", "C"])
        .column_count(1);

    let lines = cols.render(20);

    assert_eq!(lines.len(), 3);
}

#[test]
fn columns_widths_exact() {
    let cols = Columns::from_strings(&["aaa", "b", "cc", "d"]).column_count(2).gutter(2).expand(false);
    assert_eq!(cols.calculate_column_widths(20, 2), vec![3, 1]);
    let grown = Columns::from_strings(&["aaa", "b", "cc", "d"]).column_count(2).gutter(2);
    assert_eq!(grown.calculate_column_widths(11, 2), vec![4, 3]);
}

#[test]
fn columns_auto_count_stops_when_too_wide() {
    let cols = Columns::from_strings(&["abcd", "ef", "g", "h"]).gutter(1);
    assert_eq!(cols.auto_column_count(9), 2);
    assert_eq!(cols.auto_column_count(100), 4);
}

#[test]
fn columns_auto_count_is_most_that_fit() {
    let cols = Columns::from_strings(&["Hello", "World", "Test", "Here"]);
    assert_eq!(cols.auto_column_count(12), 2);
    assert_eq!(cols.auto_column_count(4), 1);
}

#[test]
fn columns_right_alignment_pads_left() {
    let cols = Columns::from_strings(&["x"]).column_count(1).equal_width(true).align(AlignMethod::Right);
    let lines = cols.render(4);
    let text: String = lines[0].iter().map(|s| s.text.as_str()).collect();
    assert_eq!(text, "   x");
}

#[test]
fn columns_row_count_law_example() {
    let cols = Columns::from_strings(&["a", "b", "c", "d", "e"]).column_count(2);
    assert_eq!(cols.render(40).len(), 3);
    let zero = Columns::from_strings(&["a", "b"]).column_count(0);
    assert_eq!(zero.render(40).len(), 2);
}
