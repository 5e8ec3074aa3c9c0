use rich_rust::console::Console;
use rich_rust::renderables::control::Control;
use rich_rust::segment::ControlType;

#[test]
fn control_move_cursor_codes() {
    let c = Control::move_cursor(-3, 2);
    let segs = c.render();
    assert_eq!(segs.len(), 1);
    let codes = segs[0].control.as_ref().unwrap();
    assert_eq!(codes.len(), 2);
    assert_eq!(codes[0].control_type, ControlType::CursorBackward);
    assert_eq!(codes[0].params, vec![3]);
    assert_eq!(codes[1].control_type, ControlType::CursorDown);
    assert_eq!(codes[1].params, vec![2]);
}

#[test]
fn control_saturating_abs_of_minimum() {
    let c = Control::move_cursor(0, i32::MIN);
    let segs = c.render();
    let codes = segs[0].control.as_ref().unwrap();
    assert_eq!(codes.len(), 1);
    assert_eq!(codes[0].control_type, ControlType::CursorUp);
    assert_eq!(codes[0].params, vec![i32::MAX]);
}

#[test]
fn control_title_renders_through_console() {
    let mut console = Console::builder().build();
    console.print_segments(&Control::title("Tab").render());
    assert_eq!(console.take_output(), "\x1b]0;Tab\x07");
    let alt = Control::alt_screen(true).render();
    console.print_segments(&alt);
    assert_eq!(console.take_output(), "\x1b[?1049h\x1b[H");
}

#[test]
fn move_to_column_is_zero_based() {
    let segs = Control::move_to_column(5, 0).render();
    assert_eq!(rich_rust::console::render_segments(&segs, None), "\x1b[6G");
    let segs = Control::move_to_column(0, 0).render();
    assert_eq!(rich_rust::console::render_segments(&segs, None), "\x1b[1G");
}
