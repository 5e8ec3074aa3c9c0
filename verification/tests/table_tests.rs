use rich_rust::cells::cell_len;
use rich_rust::color::Color;
use rich_rust::renderables::table::{Cell, Column, Row, Table, VerticalAlign};
use rich_rust::style::{AttributeFlags, Attributes, Style};
use rich_rust::text::JustifyMethod;

#[test]
fn test_column_new() {
    let col = Column::new("Name");
    assert_eq!(col.header.plain(), "Name");
}

#[test]
fn test_table_new() {
    let table = Table::new();
    assert!(table.columns.is_empty());
    assert!(table.rows.is_empty());
}

#[test]
fn test_table_with_columns() {
    let table = Table::new()
        .with_column(Column::new("Name"))
        .with_column(Column::new("Age"));
    assert_eq!(table.columns.len(), 2);
}

#[test]
fn test_table_add_row() {
    let mut table = Table::new()
        .with_column(Column::new("Name"))
        .with_column(Column::new("Age"));

    table.add_row_cells(["Alice", "30"]);
    table.add_row_cells(["Bob", "25"]);

    assert_eq!(table.rows.len(), 2);
}

#[test]
fn test_calculate_widths() {
    let mut table = Table::new()
        .with_column(Column::new("Name"))
        .with_column(Column::new("Age"));

    table.add_row_cells(["Alice", "30"]);

    let widths = table.calculate_widths(50);
    assert_eq!(widths.len(), 2);
    assert!(widths[0] >= 4);
    assert!(widths[1] >= 2);
}

#[test]
fn test_column_constraints() {
    let table = Table::new()
        .with_column(Column::new("X").width(10))
        .with_column(Column::new("Y").min_width(5));

    let widths = table.calculate_widths(50);
    assert_eq!(widths[0], 10);
    assert!(widths[1] >= 5);
}

#[test]
fn test_vertical_align() {
    let col = Column::new("Test").vertical(VerticalAlign::Middle);
    assert_eq!(col.vertical, VerticalAlign::Middle);
}

#[test]
fn test_cell_from_string() {
    let cell: Cell = "Hello".into();
    assert_eq!(cell.content.plain(), "Hello");
}

#[test]
fn test_row_end_section() {
    let row = Row::new(vec![Cell::new("X")]).end_section();
    assert!(row.end_section);
}

#[test]
fn table_natural_widths_exact() {
    let mut table = Table::new()
        .with_column(Column::new("Name"))
        .with_column(Column::new("Age"));
    table.add_row_cells(["Alice", "30"]);
    assert_eq!(table.calculate_widths(50), vec![5, 3]);
}

#[test]
fn table_collapse_shrinks_proportionally() {
    let table = Table::new()
        .with_column(Column::new("A"))
        .with_column(Column::new("B"));
    assert_eq!(table.collapse_widths(&[10, 10], 10), vec![5, 5]);
    assert_eq!(table.collapse_widths(&[10, 4], 8), vec![6, 2]);
    assert_eq!(table.collapse_widths(&[3, 3], 10), vec![3, 3]);
}

#[test]
fn table_collapse_respects_minimums() {
    let table = Table::new()
        .with_column(Column::new("A").min_width(8))
        .with_column(Column::new("B"));
    assert_eq!(table.collapse_widths(&[10, 10], 12), vec![9, 3]);
}

#[test]
fn table_expand_by_ratio() {
    let table = Table::new()
        .with_column(Column::new("A").ratio(1))
        .with_column(Column::new("B").ratio(3));
    assert_eq!(table.expand_widths(&[2, 2], 12), vec![4, 8]);
}

#[test]
fn table_expand_by_weights() {
    let table = Table::new()
        .with_column(Column::new("A"))
        .with_column(Column::new("B"));
    assert_eq!(table.expand_widths_by_weights(&[1, 3], 8), vec![2, 6]);
    assert_eq!(table.expand_widths_by_weights(&[4, 4], 7), vec![4, 4]);
}

#[test]
fn table_fixed_width_grows_columns() {
    let mut table = Table::new()
        .with_column(Column::new("A"))
        .with_column(Column::new("B"))
        .width(12);
    table.add_row_cells(["1", "2"]);
    let widths = table.calculate_widths(40);
    assert_eq!(widths.iter().sum::<usize>() + 7, 12);
}

#[test]
fn test_table_render() {
    let mut table = Table::new()
        .with_column(Column::new("Name"))
        .with_column(Column::new("Age"));

    table.add_row_cells(["Alice", "30"]);

    let segments = table.render(40);
    let text: String = segments.iter().map(|s| s.text.as_str()).collect();

    assert!(text.contains("Name"));
    assert!(text.contains("Age"));
    assert!(text.contains("Alice"));
    assert!(text.contains("30"));
}

#[test]
fn test_table_leading_without_separators() {
    let mut table = Table::new()
        .with_column(Column::new("X"))
        .show_header(false)
        .show_lines(false)
        .leading(1);

    table.add_row_cells(["1"]);
    table.add_row_cells(["2"]);

    let output = table.render_plain(20);
    let lines: Vec<&str> = output.lines().collect();

    assert_eq!(lines.len(), 5);
    assert!(lines[1].contains('1'));
    assert!(lines[3].contains('2'));
    assert!(!lines[2].contains('1'));
    assert!(!lines[2].contains('2'));
    assert_eq!(cell_len(lines[2]), cell_len(lines[1]));
}

#[test]
fn test_table_leading_with_separators() {
    let mut table = Table::new()
        .with_column(Column::new("X"))
        .ascii()
        .show_header(false)
        .show_lines(true)
        .leading(1);

    table.add_row_cells(["1"]);
    table.add_row_cells(["2"]);

    let output = table.render_plain(20);
    let lines: Vec<&str> = output.lines().collect();

    assert_eq!(lines.len(), 6);
    assert!(lines[1].contains('1'));
    assert!(lines[4].contains('2'));
    assert!(!lines[2].contains('1'));
    assert!(!lines[2].contains('2'));
    assert!(!lines[2].contains('-'));
    assert!(lines[3].contains('-'));
    assert_eq!(cell_len(lines[2]), cell_len(lines[1]));
}

#[test]
fn test_table_vertical_padding_header_body_footer() {
    let mut table = Table::new()
        .with_column(Column::new("H").footer("F"))
        .ascii()
        .padding(1, 1)
        .show_footer(true);

    table.add_row_cells(["B"]);

    let output = table.render_plain(40);
    let lines: Vec<&str> = output.lines().collect();

    let header_idx = lines.iter().position(|line| line.contains('H')).unwrap();
    let body_idx = lines.iter().position(|line| line.contains('B')).unwrap();
    let footer_idx = lines.iter().position(|line| line.contains('F')).unwrap();

    let blank_indices = [
        header_idx - 1,
        header_idx + 1,
        body_idx - 1,
        body_idx + 1,
        footer_idx - 1,
        footer_idx + 1,
    ];

    for &idx in &blank_indices {
        let line = lines[idx];
        assert!(line.contains('|'));
        assert!(!line.contains('-'));
        assert!(!line.contains('H'));
        assert!(!line.contains('B'));
        assert!(!line.contains('F'));
    }

    let header_width = cell_len(lines[header_idx]);
    assert_eq!(cell_len(lines[header_idx - 1]), header_width);
    assert_eq!(cell_len(lines[header_idx + 1]), header_width);

    let body_width = cell_len(lines[body_idx]);
    assert_eq!(cell_len(lines[body_idx - 1]), body_width);
    assert_eq!(cell_len(lines[body_idx + 1]), body_width);

    let footer_width = cell_len(lines[footer_idx]);
    assert_eq!(cell_len(lines[footer_idx - 1]), footer_width);
    assert_eq!(cell_len(lines[footer_idx + 1]), footer_width);
}

#[test]
fn test_table_ascii() {
    let mut table = Table::new().with_column(Column::new("X")).ascii();

    table.add_row_cells(["1"]);

    let text = table.render_plain(20);
    assert!(text.contains('+')); // ASCII corners
    assert!(text.contains('-')); // ASCII horizontal
}

#[test]
fn test_table_no_header() {
    let mut table = Table::new()
        .with_column(Column::new("Name"))
        .show_header(false);

    table.add_row_cells(["Alice"]);

    let text = table.render_plain(30);
    assert!(!text.contains("Name")); // Header hidden
    assert!(text.contains("Alice"));
}

#[test]
fn test_table_with_title() {
    let mut table = Table::new()
        .with_column(Column::new("X").width(10))
        .title("My Table");

    table.add_row_cells(["1"]);

    let text = table.render_plain(30);
    assert!(text.contains("My Table"));
}

#[test]
fn test_caption_alignment_preserves_line_width() {
    let justifies = [
        JustifyMethod::Left,
        JustifyMethod::Center,
        JustifyMethod::Right,
    ];

    for justify in justifies {
        let mut table = Table::new()
            .with_column(Column::new("Col").width(6))
            .caption("A very long caption")
            .caption_justify(justify);
        table.add_row_cells(["Value"]);

        let output = table.render_plain(40);
        let lines: Vec<&str> = output.lines().collect();
        assert!(lines.len() >= 2, "Expected at least border + caption");

        let caption_line = lines.last().expect("caption line");
        let border_line = lines.iter().rev().nth(1).expect("bottom border line");

        assert_eq!(
            cell_len(caption_line),
            cell_len(border_line),
            "caption width mismatch for {justify:?}"
        );
    }
}

#[test]
fn test_table_fixed_width_applies_even_without_expand() {
    let mut table = Table::new()
        .with_column(Column::new("A"))
        .with_column(Column::new("B"))
        .width(12);
    table.add_row_cells(["1", "2"]);

    let output = table.render_plain(40);
    let line = output.lines().next().expect("output line");

    assert_eq!(cell_len(line), 12);
}

#[test]
fn test_table_min_width_expands_to_minimum() {
    let mut table = Table::new().with_column(Column::new("A")).min_width(10);
    table.add_row_cells(["B"]);

    let output = table.render_plain(40);
    let line = output.lines().next().expect("output line");

    assert_eq!(cell_len(line), 10);
}

#[test]
fn test_table_cell_style_applies_with_column_style() {
    let red = Style::new().color(Color::parse("red").unwrap());
    let bold = Style::new().bold();

    let mut table = Table::new().with_column(Column::new("Col").style(red.clone()));
    table.add_row(Row::new(vec![Cell::new("X").style(bold.clone())]));

    let segments = table.render(20);
    let cell_seg = segments
        .iter()
        .find(|seg| seg.text.contains('X'))
        .expect("expected cell content segment");

    let style = cell_seg.style.as_ref().expect("expected styled segment");
    assert!(style.attributes.contains(Attributes::BOLD));
    assert_eq!(style.color, red.color);
}

#[test]
fn test_table_leading_adds_blank_lines() {
    let mut table = Table::new().with_column(Column::new("X")).leading(2);

    table.add_row_cells(["A"]);
    table.add_row_cells(["B"]);

    let text = table.render_plain(20);
    let lines: Vec<&str> = text.lines().collect();

    // With leading=2, we expect:
    // 1. Top border
    // 2. Header row
    // 3. Header separator
    // 4. Row A
    // 5-6. Two blank lines (leading)
    // 7. Row B
    // 8. Bottom border
    assert!(
        lines.len() >= 8,
        "expected at least 8 lines with leading=2, got {}",
        lines.len()
    );

    // Check that there are blank content lines between A and B
    let line_with_a = lines.iter().position(|l| l.contains('A')).expect("row A");
    let line_with_b = lines.iter().position(|l| l.contains('B')).expect("row B");

    // There should be 2 blank lines between row A and row B
    assert_eq!(
        line_with_b - line_with_a - 1,
        2,
        "expected 2 blank lines between rows A and B"
    );
}

#[test]
fn test_table_leading_with_show_lines() {
    let mut table = Table::new()
        .with_column(Column::new("X"))
        .leading(1)
        .show_lines(true);

    table.add_row_cells(["A"]);
    table.add_row_cells(["B"]);

    let text = table.render_plain(20);
    let lines: Vec<&str> = text.lines().collect();

    // With leading=1 and show_lines=true:
    // 1. Top border
    // 2. Header row
    // 3. Header separator
    // 4. Row A
    // 5. Blank line (leading)
    // 6. Row separator
    // 7. Row B
    // 8. Bottom border

    let line_with_a = lines.iter().position(|l| l.contains('A')).expect("row A");
    let line_with_b = lines.iter().position(|l| l.contains('B')).expect("row B");

    // There should be 2 lines between row A and row B (1 leading + 1 separator)
    assert_eq!(
        line_with_b - line_with_a - 1,
        2,
        "expected 1 leading line + 1 separator between rows"
    );
}

#[test]
fn test_table_leading_zero_no_extra_lines() {
    let mut table = Table::new().with_column(Column::new("X")).leading(0);

    table.add_row_cells(["A"]);
    table.add_row_cells(["B"]);

    let text = table.render_plain(20);
    let lines: Vec<&str> = text.lines().collect();

    let line_with_a = lines.iter().position(|l| l.contains('A')).expect("row A");
    let line_with_b = lines.iter().position(|l| l.contains('B')).expect("row B");

    // With leading=0, rows should be adjacent
    assert_eq!(
        line_with_b - line_with_a - 1,
        0,
        "expected no blank lines between rows with leading=0"
    );
}

#[test]
fn test_table_leading_preserves_border_structure() {
    let mut table = Table::new()
        .with_column(Column::new("Col").width(5))
        .leading(1)
        .ascii();

    table.add_row_cells(["A"]);
    table.add_row_cells(["B"]);

    let text = table.render_plain(20);
    let lines: Vec<&str> = text.lines().collect();

    // Find the blank leading line (between row A and row B)
    let row_a_idx = lines.iter().position(|l| l.contains('A')).expect("row A");
    let blank_line = lines[row_a_idx + 1];

    // Blank line should have proper border characters
    assert!(
        blank_line.starts_with('|') && blank_line.ends_with('|'),
        "blank leading line should have borders: {blank_line}"
    );
}

#[test]
fn ascii_table_renders_exact_lines() {
    let mut table = Table::new().with_column(Column::new("X")).ascii();
    table.add_row_cells(["1"]);
    assert_eq!(table.render_plain(20), "+---+\n| X |\n|---|\n| 1 |\n+---+\n");
}

#[test]
fn two_column_table_with_dividers_and_justification() {
    let mut table = Table::new()
        .with_column(Column::new("Name"))
        .with_column(Column::new("N").justify(JustifyMethod::Right))
        .ascii();
    table.add_row_cells(["Al", "30"]);
    assert_eq!(
        table.render_plain(40),
        "+------+----+\n| Name |  N |\n|------+----|\n| Al   | 30 |\n+------+----+\n"
    );
}

#[test]
fn table_without_columns_renders_nothing() {
    let table = Table::new();
    assert!(table.render(40).is_empty());
}

#[test]
fn centered_title_spans_the_table_width() {
    let mut table = Table::new().with_column(Column::new("Col").width(6)).ascii().title("T");
    table.add_row_cells(["v"]);
    let out = table.render_plain(40);
    let first = out.lines().next().unwrap();
    assert_eq!(first, "    T     ");
}

#[test]
fn table_fixed_width_is_filled_by_the_columns() {
    let mut table = Table::new()
        .with_column(Column::new("A"))
        .with_column(Column::new("BBBB"))
        .with_column(Column::new("CC"))
        .width(30);
    table.add_row_cells(["1", "2", "3"]);
    let widths = table.calculate_widths(80);
    assert_eq!(widths.len(), 3);
    assert_eq!(widths.iter().sum::<usize>() + 10, 30);
    assert!(widths[0] >= 1 && widths[1] >= 4 && widths[2] >= 2);
    for line in table.render_plain(80).lines() {
        assert_eq!(cell_len(line), 30);
    }
}
