use rich_rust::renderables::panel::{fit_panel, truncate_text_to_width, Panel};
use rich_rust::segment::{split_lines, Segment};
use rich_rust::text::Text;


#[test]
fn test_panel_from_text() {
    let panel = Panel::from_text("Hello\nWorld");
    assert_eq!(panel.content_lines.len(), 2);
}

#[test]
fn test_panel_render() {
    let panel = Panel::from_text("Hello").width(20);
    let segments = panel.render(80);
    assert!(!segments.is_empty());

    let text: String = segments.iter().map(|s| s.text.as_str()).collect();
    assert!(text.contains("Hello"));
    assert!(text.contains('\u{256D}')); // ╭
}

#[test]
fn test_panel_with_title() {
    let panel = Panel::from_text("Content").title("Title").width(30);
    let text = panel.render_plain(80);
    assert!(text.contains("Title"));
    assert!(text.contains("Content"));
}

#[test]
fn test_panel_ascii() {
    let panel = Panel::from_text("Hello").ascii().width(20);
    let text = panel.render_plain(80);
    assert!(text.contains('+')); // ASCII corners
    assert!(text.contains('-')); // ASCII horizontal
}

#[test]
fn test_panel_square() {
    let panel = Panel::from_text("Hello").square().width(20);
    let text = panel.render_plain(80);
    assert!(text.contains('\u{250C}')); // ┌
}

#[test]
fn test_panel_padding() {
    let panel = Panel::from_text("Hi").padding((1, 2).into()).width(20);
    let segments = panel.render(80);
    let newlines = segments.iter().filter(|s| s.text == "\n").count();
    assert!(newlines >= 5);
}

#[test]
fn test_panel_subtitle() {
    let panel = Panel::from_text("Content").subtitle("Footer").width(30);
    let text = panel.render_plain(80);
    assert!(text.contains("Footer"));
}

#[test]
fn test_panel_truncates_to_width() {
    let panel = Panel::from_text("This is a very long line")
        .width(10)
        .padding(0.into());

    let segments = panel.render(10);
    let lines = split_lines(segments);

    for line in lines {
        let width: usize = line.iter().map(Segment::cell_length).sum();
        if width > 0 {
            assert_eq!(width, 10);
        }
    }
}

#[test]
fn test_panel_height_limits_content_lines() {
    let panel = Panel::from_text("A\nB\nC").height(4).padding(0.into()).width(10);

    let segments = panel.render(10);
    let lines = split_lines(segments);
    let non_empty_lines = lines
        .iter()
        .filter(|line| line.iter().map(Segment::cell_length).sum::<usize>() > 0)
        .count();

    assert_eq!(non_empty_lines, 4);
    let text: String = lines
        .iter()
        .map(|line| line.iter().map(|seg| seg.text.as_str()).collect::<String>())
        .collect();
    assert!(!text.contains('C'));
}

#[test]
fn test_panel_height_pads_content_lines() {
    let panel = Panel::from_text("A").height(5).padding(0.into()).width(10);

    let segments = panel.render(10);
    let lines = split_lines(segments);
    let non_empty_lines = lines
        .iter()
        .filter(|line| line.iter().map(Segment::cell_length).sum::<usize>() > 0)
        .count();

    assert_eq!(non_empty_lines, 5);
}

#[test]
fn test_panel_height_prefers_content_over_padding() {
    let panel = Panel::from_text("A").height(4).padding((2, 0).into()).width(10);

    let segments = panel.render(10);
    let lines = split_lines(segments);
    let non_empty_lines = lines
        .iter()
        .filter(|line| line.iter().map(Segment::cell_length).sum::<usize>() > 0)
        .count();

    assert_eq!(non_empty_lines, 4);
    let text: String = lines
        .iter()
        .map(|line| line.iter().map(|seg| seg.text.as_str()).collect::<String>())
        .collect();
    assert!(text.contains('A'));
}

#[test]
fn test_fit_panel() {
    let panel = fit_panel("Short");
    assert!(!panel.expand);
}

#[test]
fn test_truncate_text_to_width() {
    let text = Text::new("Hello World");
    let truncated = truncate_text_to_width(&text, 5);
    assert_eq!(truncated.plain(), "He...");
}

#[test]
fn panel_exact_small_render() {
    let panel = Panel::from_text("Hi").ascii().width(6);
    assert_eq!(panel.render_plain(80), "+----+\n| Hi |\n+----+\n");
}

#[test]
fn panel_title_alignment_and_ellipsis() {
    let panel = Panel::from_text("x").ascii().width(10).title("LongTitle");
    let text = panel.render_plain(80);
    let first = text.lines().next().unwrap();
    assert_eq!(first, "+- L... -+");
    let left = Panel::from_text("x").ascii().width(10).title("T").title_align(rich_rust::text::JustifyMethod::Left);
    assert_eq!(left.render_plain(80).lines().next().unwrap(), "+- T ----+");
}

#[test]
fn panel_fit_width_follows_content() {
    let panel = fit_panel("abc").ascii();
    assert_eq!(panel.render_plain(80), "+-----+\n| abc |\n+-----+\n");
}

#[test]
fn panel_rows_are_as_wide_as_the_panel() {
    let panel = Panel::from_text("ab\nlonger line here\nc").height(6).padding((1, 1).into()).width(12);
    let lines = split_lines(panel.render(40));
    let widths: Vec<usize> = lines
        .iter()
        .map(|line| line.iter().map(Segment::cell_length).sum::<usize>())
        .filter(|w| *w > 0)
        .collect();
    assert_eq!(widths.len(), 6);
    for w in widths {
        assert_eq!(w, 12);
    }
}

#[test]
fn panel_from_rich_text_keeps_the_text_style_per_line() {
    let bold = rich_rust::style::Style::new().bold();
    let text = Text::styled("ab\ncd\n", bold.clone());
    let panel = Panel::from_rich_text(&text, 30);
    assert_eq!(panel.content_lines.len(), 2);
    assert_eq!(panel.content_lines[0].len(), 1);
    assert_eq!(panel.content_lines[0][0].text, "ab");
    assert_eq!(panel.content_lines[1][0].text, "cd");
    assert_eq!(panel.content_lines[1][0].style, Some(bold));
    let lines = split_lines(panel.render(80));
    let widths: Vec<usize> = lines
        .iter()
        .map(|line| line.iter().map(Segment::cell_length).sum::<usize>())
        .filter(|w| *w > 0)
        .collect();
    assert_eq!(widths, vec![30, 30, 30, 30]);
}
