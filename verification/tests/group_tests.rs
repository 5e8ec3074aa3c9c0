use rich_rust::renderables::group::{group, Group};
use rich_rust::segment::Segment;

#[test]
fn test_group_new() {
    let g = Group::new();
    assert!(g.is_empty());
    assert_eq!(g.len(), 0);
}

#[test]
fn test_group_add_strings() {
    let g = Group::new().push_text("First").push_text("Second").push_text("Third");
    assert_eq!(g.len(), 3);
}

#[test]
fn test_group_render() {
    let g = Group::new().push_text("Line 1").push_text("Line 2");
    let segments = g.render();
    let text: String = segments.iter().map(|s| s.text.as_str()).collect();
    assert!(text.contains("Line 1"));
    assert!(text.contains("Line 2"));
    assert!(text.contains('\n'), "should have newline between items");
}

#[test]
fn test_group_render_fit_mode() {
    let g = Group::new().push_text("Part1").push_text("Part2").fit(true);
    let segments = g.render();
    let text: String = segments.iter().map(|s| s.text.as_str()).collect();
    assert!(text.contains("Part1"));
    assert!(text.contains("Part2"));
    assert!(!text.contains('\n'));
}

#[test]
fn test_group_function() {
    let items = vec!["A", "B", "C"];
    let g = group(items);
    assert_eq!(g.len(), 3);
}

#[test]
fn group_render_exact_and_segments_kept() {
    let g = Group::new()
        .push(vec![Segment::plain("a"), Segment::plain("b")])
        .push_text("c");
    let text: String = g.render().iter().map(|s| s.text.as_str()).collect();
    assert_eq!(text, "ab\nc");
    assert!(Group::new().render().is_empty());
}
