use rich_rust::renderables::padding::{indent, Padding, PaddingDimensions};
use rich_rust::segment::Segment;
use rich_rust::style::Style;


#[test]
fn test_padding_all() {
    let pad = PaddingDimensions::all(2);
    assert_eq!(pad.top, 2);
    assert_eq!(pad.right, 2);
    assert_eq!(pad.bottom, 2);
    assert_eq!(pad.left, 2);
}

#[test]
fn test_padding_symmetric() {
    let pad = PaddingDimensions::symmetric(1, 3);
    assert_eq!(pad.top, 1);
    assert_eq!(pad.right, 3);
    assert_eq!(pad.bottom, 1);
    assert_eq!(pad.left, 3);
}

#[test]
fn test_padding_individual() {
    let pad = PaddingDimensions::new(1, 2, 3, 4);
    assert_eq!(pad.top, 1);
    assert_eq!(pad.right, 2);
    assert_eq!(pad.bottom, 3);
    assert_eq!(pad.left, 4);
}

#[test]
fn test_padding_from_usize() {
    let pad: PaddingDimensions = 5.into();
    assert_eq!(pad, PaddingDimensions::all(5));
}

#[test]
fn test_padding_from_tuple2() {
    let pad: PaddingDimensions = (1, 2).into();
    assert_eq!(pad, PaddingDimensions::symmetric(1, 2));
}

#[test]
fn test_padding_from_tuple4() {
    let pad: PaddingDimensions = (1, 2, 3, 4).into();
    assert_eq!(pad, PaddingDimensions::new(1, 2, 3, 4));
}

#[test]
fn test_horizontal_vertical() {
    let pad = PaddingDimensions::new(1, 2, 3, 4);
    assert_eq!(pad.horizontal(), 6); // 2 + 4
    assert_eq!(pad.vertical(), 4);   // 1 + 3
}

#[test]
fn test_indent() {
    let pad = indent(4);
    assert_eq!(pad.left, 4);
    assert_eq!(pad.right, 0);
    assert_eq!(pad.top, 0);
    assert_eq!(pad.bottom, 0);
}

#[test]
fn test_padding_render() {
    let content = vec![vec![Segment::new("Hello", None)]];
    let padded = Padding::new(content, 1.into(), 10);
    let lines = padded.render();

    assert_eq!(lines.len(), 3);
}

#[test]
fn padding_render_frames_content() {
    let content = vec![vec![Segment::new("Hi", None)]];
    let padded = Padding::new(content, PaddingDimensions::new(1, 1, 0, 2), 8).style(Style::new());
    let lines = padded.render();
    assert_eq!(lines.len(), 2);
    let top: String = lines[0].iter().map(|s| s.text.as_str()).collect();
    assert_eq!(top, "        ");
    let body: String = lines[1].iter().map(|s| s.text.as_str()).collect();
    assert_eq!(body, "  Hi ");
}

#[test]
fn padding_zero_keeps_lines() {
    let content = vec![vec![Segment::new("a", None)], vec![Segment::new("b", None)]];
    let lines = Padding::new(content, PaddingDimensions::zero(), 3).render();
    assert_eq!(lines.len(), 2);
    assert_eq!(lines[0].len(), 1);
    assert_eq!(lines[1][0].text, "b");
}
