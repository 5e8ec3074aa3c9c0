use rich_rust::segment::{
    adjust_line_length, apply_style, align_bottom, align_middle, align_top, divide, line_length, simplify,
    split_lines, ControlCode, ControlType, Segment,
};
use rich_rust::style::Style;


#[test]
fn test_segment_new() {
    let seg = Segment::new("hello", None);
    assert_eq!(seg.text, "hello");
    assert!(seg.style.is_none());
}

#[test]
fn test_segment_styled() {
    let style = Style::new().bold();
    let seg = Segment::styled("hello", style.clone());
    assert_eq!(seg.style, Some(style));
}

#[test]
fn test_segment_line() {
    let seg = Segment::line();
    assert_eq!(seg.text, "\n");
}

#[test]
fn test_segment_cell_length() {
    let seg = Segment::new("hello", None);
    assert_eq!(seg.cell_length(), 5);
}

#[test]
fn test_segment_control_zero_length() {
    let seg = Segment::control(vec![ControlCode::new(ControlType::Bell)]);
    assert_eq!(seg.cell_length(), 0);
    assert!(seg.is_control());
}

#[test]
fn test_segment_split_at_cell() {
    let seg = Segment::new("hello world", None);
    let (left, right) = seg.split_at_cell(5);
    assert_eq!(left.text, "hello");
    assert_eq!(right.text, " world");
}

#[test]
fn test_split_lines() {
    let segments = vec![
        Segment::new("line1\nline2", None),
        Segment::new("\nline3", None),
    ];
    let lines = split_lines(segments);
    assert_eq!(lines.len(), 3);
}

#[test]
fn test_simplify() {
    let style = Style::new().bold();
    let segments = vec![
        Segment::styled("hello", style.clone()),
        Segment::styled(" ", style.clone()),
        Segment::styled("world", style.clone()),
    ];
    let simplified = simplify(segments);
    assert_eq!(simplified.len(), 1);
    assert_eq!(simplified[0].text, "hello world");
}

#[test]
fn test_adjust_line_length_pad() {
    let line = vec![Segment::new("hi", None)];
    let adjusted = adjust_line_length(line, 5, None, true);
    assert_eq!(line_length(&adjusted), 5);
}

#[test]
fn test_adjust_line_length_truncate() {
    let line = vec![Segment::new("hello world", None)];
    let adjusted = adjust_line_length(line, 5, None, false);
    assert_eq!(line_length(&adjusted), 5);
}

#[test]
fn test_divide() {
    let segments = vec![Segment::new("hello world", None)];
    let divided = divide(segments, &[5]);
    assert_eq!(divided.len(), 2);
    assert_eq!(divided[0][0].text, "hello");
    assert_eq!(divided[1][0].text, " world");
}

#[test]
fn test_align_top() {
    let lines = vec![vec![Segment::new("hi", None)]];
    let aligned = align_top(lines, 5, 3, Style::null());
    assert_eq!(aligned.len(), 3);
}

#[test]
fn test_align_bottom() {
    let lines = vec![vec![Segment::new("hi", None)]];
    let aligned = align_bottom(lines, 5, 3, Style::null());
    assert_eq!(aligned.len(), 3);
    assert!(aligned[2][0].text.starts_with("hi"));
}

#[test]
fn test_align_middle() {
    let lines = vec![vec![Segment::new("hi", None)]];
    let aligned = align_middle(lines, 5, 3, Style::null());
    assert_eq!(aligned.len(), 3);
    assert!(aligned[1][0].text.starts_with("hi"));
}


#[test]
fn segment_split_lines_keeps_pieces_and_styles() {
    let bold = Style::new().bold();
    let segments = vec![
        Segment::styled("a\nb", bold.clone()),
        Segment::new("c", None),
    ];
    let lines = split_lines(segments);
    assert_eq!(lines.len(), 2);
    assert_eq!(lines[0].len(), 1);
    assert_eq!(lines[0][0].text, "a");
    assert_eq!(lines[0][0].style, Some(bold.clone()));
    assert_eq!(lines[1].len(), 2);
    assert_eq!(lines[1][0].text, "b");
    assert_eq!(lines[1][1].text, "c");
}

#[test]
fn segment_simplify_keeps_controls_and_drops_empty() {
    let segments = vec![
        Segment::new("a", None),
        Segment::new("", None),
        Segment::control(vec![ControlCode::new(ControlType::Bell)]),
        Segment::new("b", None),
        Segment::new("c", None),
    ];
    let simplified = simplify(segments);
    assert_eq!(simplified.len(), 3);
    assert_eq!(simplified[0].text, "a");
    assert!(simplified[1].is_control());
    assert_eq!(simplified[2].text, "bc");
}

#[test]
fn segment_truncate_wide_character() {
    let line = vec![Segment::new("ab\u{4e2d}", None)];
    let adjusted = adjust_line_length(line, 3, None, true);
    assert_eq!(adjusted.len(), 1);
    assert_eq!(adjusted[0].text, "ab");
}

#[test]
fn segment_divide_without_cuts() {
    let segments = vec![Segment::new("hello", None), Segment::new("world", None)];
    let divided = divide(segments, &[]);
    assert_eq!(divided.len(), 1);
    assert_eq!(divided[0].len(), 2);
}

#[test]
fn segment_apply_style_combines() {
    let base = Style::new().bold();
    let post = Style::new().italic();
    let segments = vec![Segment::new("x", None)];
    let styled = apply_style(segments, Some(&base), Some(&post));
    assert_eq!(styled[0].style, Some(Style::new().bold().italic()));
}

#[test]
fn segment_align_middle_places_content() {
    let lines = vec![vec![Segment::new("hi", None)]];
    let aligned = align_middle(lines, 4, 4, Style::null());
    assert_eq!(aligned.len(), 4);
    assert_eq!(aligned[1][0].text, "hi");
    assert_eq!(aligned[1][1].text, "  ");
    assert_eq!(aligned[0][0].text, "    ");
}

#[test]
fn split_lines_gives_one_line_per_newline_plus_one() {
    let segments = vec![
        Segment::new("a\n\nb", None),
        Segment::new("c\n", Some(Style::new().bold())),
    ];
    let lines = split_lines(segments);
    assert_eq!(lines.len(), 4);
    assert_eq!(lines[0].len(), 1);
    assert_eq!(lines[1].len(), 0);
    assert_eq!(lines[2].len(), 2);
    assert_eq!(lines[3].len(), 0);
}

#[test]
fn simplify_leaves_no_neighbours_of_one_style() {
    let bold = Style::new().bold();
    let segments = vec![
        Segment::styled("a", bold.clone()),
        Segment::new("b", None),
        Segment::new("", None),
        Segment::new("c", None),
        Segment::styled("d", bold.clone()),
        Segment::styled("", bold.clone()),
    ];
    let simplified = simplify(segments);
    assert_eq!(simplified.len(), 3);
    assert_eq!(simplified[0].text, "a");
    assert_eq!(simplified[1].text, "bc");
    assert_eq!(simplified[2].text, "d");
    for pair in simplified.windows(2) {
        assert_ne!(pair[0].style, pair[1].style);
    }
}

#[test]
fn split_at_cell_takes_the_longest_fitting_prefix() {
    let seg = Segment::new("日本語", None);
    let (left, right) = seg.split_at_cell(3);
    assert_eq!(left.text, "日");
    assert_eq!(right.text, "本語");
    let (left, right) = seg.split_at_cell(4);
    assert_eq!(left.text, "日本");
    assert_eq!(right.text, "語");
}
