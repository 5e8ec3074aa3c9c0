use rich_rust::renderables::traceback::{Traceback, TracebackFrame};

fn render_to_text(traceback: &Traceback, width: usize) -> String {
    traceback.render(width).iter().map(|s| s.text.as_str()).collect()
}

#[test]
fn frame_without_source_shows_minimal_info() {
    let frame = TracebackFrame::new("my_func", 42);
    let traceback = Traceback::new(vec![frame], "Error", "something went wrong");

    let output = render_to_text(&traceback, 80);
    assert!(output.contains("my_func"));
    assert!(output.contains("42"));
    assert!(output.contains("Error: something went wrong"));
}

#[test]
fn frame_with_source_context_renders_code() {
    let source = "fn main() {\n    let x = 1;\n    panic!(\"oops\");\n    let y = 2;\n}";
    let frame = TracebackFrame::new("main", 3).source_context(source, 1);
    let traceback = Traceback::new(vec![frame], "PanicError", "oops").extra_lines(1);

    let output = render_to_text(&traceback, 80);

    // Should show the error line with indicator
    assert!(output.contains("❱"));
    assert!(output.contains("panic!"));

    // Should show context lines (extra_lines=1)
    assert!(output.contains("let x = 1"));
    assert!(output.contains("let y = 2"));

    // Should show exception info
    assert!(output.contains("PanicError: oops"));
}

#[test]
fn source_context_with_offset_first_line() {
    // Simulating a snippet from lines 10-14 of a larger file
    let source = "    fn helper() {\n        do_thing();\n        crash_here();\n    }\n";
    let frame = TracebackFrame::new("helper", 12).source_context(source, 10);
    let traceback = Traceback::new(vec![frame], "Error", "crashed").extra_lines(1);

    let output = render_to_text(&traceback, 80);

    // Should show line 12 with indicator
    assert!(output.contains("❱"));
    assert!(output.contains("12"));
    assert!(output.contains("crash_here"));

    // Should show context (lines 11 and 13)
    assert!(output.contains("11"));
    assert!(output.contains("do_thing"));
}

#[test]
fn source_context_takes_priority_over_filename() {
    // Even if filename is set, source_context should be used
    let source = "custom source line";
    let frame = TracebackFrame::new("func", 1)
        .filename("/nonexistent/file.rs")
        .source_context(source, 1);
    let traceback = Traceback::new(vec![frame], "Error", "test");

    let output = render_to_text(&traceback, 80);

    // Should render the provided source, not try to read file
    assert!(output.contains("custom source line"));
    // Should still show filename in header
    assert!(output.contains("/nonexistent/file.rs"));
}

#[test]
fn extra_lines_zero_shows_only_error_line() {
    let source = "line1\nline2\nline3\nline4\nline5";
    let frame = TracebackFrame::new("func", 3).source_context(source, 1);
    let traceback = Traceback::new(vec![frame], "Error", "test").extra_lines(0);

    let output = render_to_text(&traceback, 80);

    // Should show only line 3
    assert!(output.contains("line3"));
    assert!(output.contains("❱"));
    // Should not show other lines
    assert!(!output.contains("line1"));
    assert!(!output.contains("line5"));
}

#[test]
fn multiple_frames_with_source_context() {
    let frame1 =
        TracebackFrame::new("outer", 2).source_context("fn outer() {\n    inner();\n}", 1);
    let frame2 =
        TracebackFrame::new("inner", 2).source_context("fn inner() {\n    panic!();\n}", 1);

    let traceback = Traceback::new(vec![frame1, frame2], "PanicError", "boom");

    let output = render_to_text(&traceback, 80);

    // Both frames should be rendered
    assert!(output.contains("outer"));
    assert!(output.contains("inner"));
    assert!(output.contains("PanicError: boom"));
}

#[test]
fn frame_builder_methods() {
    let frame = TracebackFrame::new("test", 10)
        .filename("src/lib.rs")
        .source_context("test code", 5);

    assert_eq!(frame.name, "test");
    assert_eq!(frame.line, 10);
    assert_eq!(frame.filename, Some("src/lib.rs".to_string()));
    assert_eq!(frame.source_context, Some("test code".to_string()));
    assert_eq!(frame.source_first_line, 5);
}

#[test]
fn source_first_line_minimum_is_one() {
    let frame = TracebackFrame::new("test", 1).source_context("code", 0);
    assert_eq!(frame.source_first_line, 1);
}

#[test]
fn is_internal_frame_detects_runtime() {
    assert!(Traceback::is_internal_frame("std::rt::lang_start"));
    assert!(Traceback::is_internal_frame("core::ops::function::FnOnce"));
    assert!(Traceback::is_internal_frame("__libc_start_main"));
    assert!(Traceback::is_internal_frame("main"));
    assert!(!Traceback::is_internal_frame("my_crate::my_function"));
    assert!(!Traceback::is_internal_frame("app::handler::process"));
}

#[test]
fn demangle_removes_hash_suffix() {
    assert_eq!(
        Traceback::demangle_name("my_crate::func::h1234567890abcdef"),
        "my_crate::func"
    );
    assert_eq!(
        Traceback::demangle_name("my_crate::func"),
        "my_crate::func"
    );
}

#[test]
fn numbered_lines_pad_to_the_widest_number() {
    let frame = TracebackFrame::new("f", 9).source_context("a\n  b\nc", 8);
    let tb = Traceback::new(vec![frame], "E", "m").extra_lines(1);
    let out = render_to_text(&tb, 40);
    assert!(out.contains("  8      a"));
    assert!(out.contains("\u{2771} 9      b"));
    assert!(out.contains("  10     c"));
    assert!(out.ends_with("E: m\n"));
    assert!(out.contains("in f:9"));
}

#[test]
fn demangle_keeps_non_hex_suffix() {
    assert_eq!(Traceback::demangle_name("a::hxyz"), "a::hxyz");
    assert_eq!(Traceback::demangle_name("a::b::h"), "a::b");
    assert!(Traceback::is_internal_frame("x::Traceback::capture::y"));
}

#[test]
fn checked_render_refuses_overflowing_line_numbers() {
    let frame = TracebackFrame::new("f", usize::MAX).source_context("a\nb\n", 1);
    let tb = Traceback::new(vec![frame], "Error", "boom").extra_lines(1);
    assert!(!tb.fits(40));
    assert!(tb.checked_render(40).is_none());
    let ok = Traceback::new(vec![TracebackFrame::new("main", 3)], "Error", "boom");
    assert!(ok.fits(40));
    let text: String = ok.checked_render(40).unwrap().iter().map(|s| s.text.as_str()).collect();
    assert_eq!(text, render_to_text(&ok, 40));
}
