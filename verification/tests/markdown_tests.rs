use pulldown_cmark::{Alignment, Event, HeadingLevel, Options, Parser, Tag, TagEnd};
use rich_rust::cells::cell_len;
use rich_rust::renderables::markdown::{Markdown, MdAlignment, MdEvent, MdTag, MdTagEnd};
use rich_rust::segment::Segment;
use rich_rust::style::Style;

fn md_tag(tag: Tag<'_>) -> MdTag {
    match tag {
        Tag::Paragraph => MdTag::Paragraph,
        Tag::Heading { level, .. } => MdTag::Heading(match level {
            HeadingLevel::H1 => 1,
            HeadingLevel::H2 => 2,
            HeadingLevel::H3 => 3,
            HeadingLevel::H4 => 4,
            HeadingLevel::H5 => 5,
            HeadingLevel::H6 => 6,
        }),
        Tag::BlockQuote => MdTag::BlockQuote,
        Tag::CodeBlock(_) => MdTag::CodeBlock,
        Tag::List(start) => MdTag::List(start),
        Tag::Item => MdTag::Item,
        Tag::Table(aligns) => MdTag::Table(
            aligns
                .into_iter()
                .map(|a| match a {
                    Alignment::None => MdAlignment::Unaligned,
                    Alignment::Left => MdAlignment::Left,
                    Alignment::Center => MdAlignment::Center,
                    Alignment::Right => MdAlignment::Right,
                })
                .collect(),
        ),
        Tag::TableHead => MdTag::TableHead,
        Tag::TableRow => MdTag::TableRow,
        Tag::TableCell => MdTag::TableCell,
        Tag::Emphasis => MdTag::Emphasis,
        Tag::Strong => MdTag::Strong,
        Tag::Strikethrough => MdTag::Strikethrough,
        Tag::Link { dest_url, .. } => MdTag::Link(dest_url.to_string()),
        _ => MdTag::Other,
    }
}

fn md_tag_end(tag: TagEnd) -> MdTagEnd {
    match tag {
        TagEnd::Paragraph => MdTagEnd::Paragraph,
        TagEnd::Heading(_) => MdTagEnd::Heading,
        TagEnd::BlockQuote => MdTagEnd::BlockQuote,
        TagEnd::CodeBlock => MdTagEnd::CodeBlock,
        TagEnd::List(_) => MdTagEnd::List,
        TagEnd::Item => MdTagEnd::Item,
        TagEnd::Table => MdTagEnd::Table,
        TagEnd::TableHead => MdTagEnd::TableHead,
        TagEnd::TableRow => MdTagEnd::TableRow,
        TagEnd::TableCell => MdTagEnd::TableCell,
        TagEnd::Emphasis => MdTagEnd::Emphasis,
        TagEnd::Strong => MdTagEnd::Strong,
        TagEnd::Strikethrough => MdTagEnd::Strikethrough,
        TagEnd::Link => MdTagEnd::Link,
        _ => MdTagEnd::Other,
    }
}

fn events_of(source: &str) -> Vec<MdEvent> {
    let options = Options::ENABLE_STRIKETHROUGH | Options::ENABLE_TABLES | Options::ENABLE_FOOTNOTES;
    Parser::new_ext(source, options)
        .map(|event| match event {
            Event::Start(tag) => MdEvent::Start(md_tag(tag)),
            Event::End(tag) => MdEvent::End(md_tag_end(tag)),
            Event::Text(t) => MdEvent::Text(t.to_string()),
            Event::Code(c) => MdEvent::Code(c.to_string()),
            Event::SoftBreak => MdEvent::SoftBreak,
            Event::HardBreak => MdEvent::HardBreak,
            Event::Rule => MdEvent::Rule,
            _ => MdEvent::Other,
        })
        .collect()
}

fn render(md: &Markdown) -> Vec<Segment> {
    md.render(80).expect("render")
}

fn text_of(segments: &[Segment]) -> String {
    segments.iter().map(|s| s.text.as_str()).collect()
}

#[test]
fn test_markdown_new() {
    let md = Markdown::new("# Hello");
    assert_eq!(md.source(), "# Hello");
}

#[test]
fn test_markdown_builder() {
    let md = Markdown::new("test")
        .bullet_char('*')
        .list_indent(4)
        .show_links(false);
    assert_eq!(md.bullet_char, '*');
    assert_eq!(md.list_indent, 4);
    assert!(!md.show_links);
}

#[test]
fn markdown_defaults() {
    let md = Markdown::new("x").h1_style(Style::new().bold());
    assert_eq!(md.bullet_char, '\u{2022}');
    assert_eq!(md.list_indent, 2);
    assert!(md.show_links);
}


#[test]
fn test_render_heading() {
    let md = Markdown::new("# Title");
    let segments = render(&md);
    assert!(!segments.is_empty());
    let text: String = segments.iter().map(|s| s.text.as_str()).collect();
    assert!(text.contains("Title"));
}

#[test]
fn test_render_multiple_headings() {
    let md = Markdown::new("# H1\n## H2\n### H3");
    let segments = render(&md);
    let text: String = segments.iter().map(|s| s.text.as_str()).collect();
    assert!(text.contains("H1"));
    assert!(text.contains("H2"));
    assert!(text.contains("H3"));
}

#[test]
fn test_render_emphasis() {
    let md = Markdown::new("This is *italic* and **bold**.");
    let segments = render(&md);
    assert!(!segments.is_empty());
    let text: String = segments.iter().map(|s| s.text.as_str()).collect();
    assert!(text.contains("italic"));
    assert!(text.contains("bold"));
}

#[test]
fn test_render_code() {
    let md = Markdown::new("Use `inline code` here.");
    let segments = render(&md);
    let text: String = segments.iter().map(|s| s.text.as_str()).collect();
    assert!(text.contains("inline code"));
}

#[test]
fn test_render_code_block() {
    let md = Markdown::new("```rust\nfn main() {}\n```");
    let segments = render(&md);
    let text: String = segments.iter().map(|s| s.text.as_str()).collect();
    assert!(text.contains("fn main"));
}

#[test]
fn test_render_unordered_list() {
    let md = Markdown::new("- Item 1\n- Item 2\n- Item 3");
    let segments = render(&md);
    let text: String = segments.iter().map(|s| s.text.as_str()).collect();
    assert!(text.contains("Item 1"));
    assert!(text.contains("Item 2"));
    assert!(text.contains("•")); // Default bullet
}

#[test]
fn test_render_ordered_list() {
    let md = Markdown::new("1. First\n2. Second\n3. Third");
    let segments = render(&md);
    let text: String = segments.iter().map(|s| s.text.as_str()).collect();
    assert!(text.contains("First"));
    assert!(text.contains("1."));
    assert!(text.contains("2."));
}

#[test]
fn test_render_link() {
    let md = Markdown::new("[Click here](https://example.com)");
    let segments = render(&md);
    let text: String = segments.iter().map(|s| s.text.as_str()).collect();
    assert!(text.contains("Click here"));
    assert!(text.contains("example.com"));
}

#[test]
fn test_render_link_no_url() {
    let md = Markdown::new("[Click here](https://example.com)").show_links(false);
    let segments = render(&md);
    let text: String = segments.iter().map(|s| s.text.as_str()).collect();
    assert!(text.contains("Click here"));
    assert!(!text.contains("example.com"));
}

#[test]
fn test_render_blockquote() {
    let md = Markdown::new("> This is a quote");
    let segments = render(&md);
    let text: String = segments.iter().map(|s| s.text.as_str()).collect();
    assert!(text.contains("This is a quote"));
    assert!(text.contains("│")); // Quote prefix
}

#[test]
fn test_render_horizontal_rule() {
    let md = Markdown::new("Above\n\n---\n\nBelow");
    let segments = render(&md);
    let text: String = segments.iter().map(|s| s.text.as_str()).collect();
    assert!(text.contains("Above"));
    assert!(text.contains("Below"));
    assert!(text.contains("─")); // Rule character
}

#[test]
fn test_render_strikethrough() {
    let md = Markdown::new("This is ~~deleted~~ text.");
    let segments = render(&md);
    let text: String = segments.iter().map(|s| s.text.as_str()).collect();
    assert!(text.contains("deleted"));
}

#[test]
fn test_custom_bullet() {
    let md = Markdown::new("- Item").bullet_char('→');
    let segments = render(&md);
    let text: String = segments.iter().map(|s| s.text.as_str()).collect();
    assert!(text.contains("→"));
}

#[test]
fn test_render_table() {
    let md = Markdown::new("| Name | Age |\n|------|-----|\n| Alice | 30 |\n| Bob | 25 |");
    let segments = render(&md);
    let text: String = segments.iter().map(|s| s.text.as_str()).collect();
    assert!(text.contains("Name"));
    assert!(text.contains("Age"));
    assert!(text.contains("Alice"));
    assert!(text.contains("Bob"));
    assert!(text.contains("30"));
    assert!(text.contains("25"));
    // Check for table border characters
    assert!(text.contains("┌")); // Top left corner
    assert!(text.contains("│")); // Vertical border
    assert!(text.contains("─")); // Horizontal border
}

#[test]
fn test_render_table_unicode_width_alignment() {
    let md = Markdown::new("| A | B |\n| --- | --- |\n| 日本 | x |");
    let segments = render(&md);
    let text: String = segments.iter().map(|s| s.text.as_str()).collect();
    let lines: Vec<&str> = text.lines().filter(|line| !line.is_empty()).collect();

    assert!(lines.len() >= 3, "expected table output lines");
    let expected_width = cell_len(lines[0]);
    for line in lines {
        assert_eq!(
            cell_len(line),
            expected_width,
            "table lines should have consistent cell width"
        );
    }
}

#[test]
fn test_render_nested_list() {
    let md = Markdown::new("- Item 1\n  - Nested 1\n  - Nested 2\n- Item 2");
    let segments = render(&md);
    let text: String = segments.iter().map(|s| s.text.as_str()).collect();
    assert!(text.contains("Item 1"));
    assert!(text.contains("Nested 1"));
    assert!(text.contains("Nested 2"));
    assert!(text.contains("Item 2"));
}

#[test]
fn heading_then_paragraph_segments() {
    let md = Markdown::new("# T\n\nBody");
    let segs = render(&md);
    assert_eq!(text_of(&segs), "T\n\nBody");
}

#[test]
fn ordered_list_numbers_from_start() {
    let md = Markdown::new("3. a\n4. b");
    assert_eq!(text_of(&render(&md)), "3. a\n4. b\n");
}

#[test]
fn link_destination_shown_after_text() {
    let md = Markdown::new("[x](u)");
    assert_eq!(text_of(&render(&md)), "x (u)");
}

#[test]
fn table_renders_with_borders() {
    let md = Markdown::new("| A |\n|---|\n| b |");
    assert_eq!(
        text_of(&render(&md)),
        "\u{250c}\u{2500}\u{2500}\u{2500}\u{2500}\u{2500}\u{2510}\n\u{2502} A   \u{2502}\n\u{251c}\u{2500}\u{2500}\u{2500}\u{2500}\u{2500}\u{2524}\n\u{2502} b   \u{2502}\n\u{2514}\u{2500}\u{2500}\u{2500}\u{2500}\u{2500}\u{2518}\n"
    );
}

#[test]
fn code_block_lines_are_indented() {
    let events = vec![
        MdEvent::Start(MdTag::CodeBlock),
        MdEvent::Text("a\r\nb\n".to_string()),
        MdEvent::End(MdTagEnd::CodeBlock),
    ];
    let md = Markdown::new("");
    assert_eq!(text_of(&md.render_events(&events)), "  a\n  b\n\n");
}

#[test]
fn checked_render_matches_render() {
    let md = Markdown::new("# Title\n\n- a\n- b\n");
    let events = events_of("# Title\n\n- a\n- b\n");
    let checked = md.checked_render_events(&events).expect("fits");
    let plain: String = checked.iter().map(|s| s.text.as_str()).collect();
    let direct: String = md.render_events(&events).iter().map(|s| s.text.as_str()).collect();
    assert_eq!(plain, direct);
}

#[test]
fn checked_render_refuses_overflowing_list_number() {
    let md = Markdown::new("");
    let events = vec![MdEvent::Start(MdTag::List(Some(u64::MAX))), MdEvent::Start(MdTag::Item)];
    assert!(md.checked_render_events(&events).is_none());
}

#[test]
fn render_reads_source_like_the_parser() {
    let src = "# T\n\n*a* **b** ~~c~~ `d` [e](http://x)\n\n> q\n\n1. one\n2. two\n\n| L | C | R |\n|:--|:-:|--:|\n| 1 | 2 | 3 |\n\n---\n\n```\ncode\n```\n";
    let md = Markdown::new(src);
    let via_render = text_of(&md.render(80).expect("render"));
    let via_events = text_of(&md.render_events(&events_of(src)));
    assert_eq!(via_render, via_events);
}

#[test]
fn table_lines_are_one_border_plus_columns_wide() {
    let md = Markdown::new("| a | bbbbb |\n| --- | :---: |\n| c | d |\n| eeee | f |");
    let segments = render(&md);
    let text: String = segments.iter().map(|s| s.text.as_str()).collect();
    let lines: Vec<&str> = text.lines().filter(|line| !line.is_empty()).collect();
    assert_eq!(lines.len(), 6);
    for line in lines {
        assert_eq!(cell_len(line), 1 + (4 + 3) + (5 + 3));
    }
}
