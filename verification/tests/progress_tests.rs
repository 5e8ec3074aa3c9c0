use rich_rust::renderables::progress::{ascii_bar, format_duration, BarStyle, ProgressBar, Spinner};
use rich_rust::style::Style;
use rich_rust::text::Text;

fn ratio(bar: &ProgressBar) -> f64 {
    let (n, d) = bar.progress();
    (n as f64) / (d as f64)
}

#[test]
fn test_spinner_next_frame() {
    let mut spinner = Spinner::simple();
    assert_eq!(spinner.next_frame(), "|");
    assert_eq!(spinner.next_frame(), "/");
    assert_eq!(spinner.next_frame(), "-");
    assert_eq!(spinner.next_frame(), "\\");
    assert_eq!(spinner.next_frame(), "|");
}

#[test]
fn test_spinner_current_frame() {
    let spinner = Spinner::simple();
    assert_eq!(spinner.current_frame(), "|");
    assert_eq!(spinner.current_frame(), "|");
}

#[test]
fn test_spinner_render() {
    let spinner = Spinner::dots();
    let segment = spinner.render();
    assert!(!segment.text.is_empty());
}

#[test]
fn test_bar_style_chars() {
    assert_eq!(BarStyle::Ascii.completed_char(), "#");
    assert_eq!(BarStyle::Ascii.remaining_char(), "-");
    assert_eq!(BarStyle::Block.completed_char(), "\u{2588}");
    assert_eq!(BarStyle::Block.remaining_char(), "\u{2591}");
}

#[test]
fn spinner_empty_frames_show_space() {
    let mut spinner = Spinner::custom(vec![]);
    assert_eq!(spinner.current_frame(), " ");
    assert_eq!(spinner.next_frame(), " ");
}

#[test]
fn spinner_full_cycle_returns() {
    let mut spinner = Spinner::clock();
    let first = spinner.current_frame();
    for _ in 0..12 {
        spinner.next_frame();
    }
    assert_eq!(spinner.current_frame(), first);
    assert_eq!(BarStyle::Ascii.pulse_char(), ">");
}

#[test]
fn test_progress_bar_new() {
    let bar = ProgressBar::new();
    assert!((ratio(&bar) - 0.0).abs() < f64::EPSILON);
    assert!(!bar.is_finished());
}

#[test]
fn test_progress_bar_with_total() {
    let mut bar = ProgressBar::with_total(100);
    bar.update(50);
    assert!((ratio(&bar) - 0.5).abs() < f64::EPSILON);
}

#[test]
fn test_progress_bar_set_progress() {
    let mut bar = ProgressBar::new();
    bar.set_progress(3, 4);
    assert!((ratio(&bar) - 0.75).abs() < f64::EPSILON);
}

#[test]
fn test_progress_bar_advance() {
    let mut bar = ProgressBar::with_total(10);
    bar.advance(3);
    assert!((ratio(&bar) - 0.3).abs() < f64::EPSILON);
    bar.advance(2);
    assert!((ratio(&bar) - 0.5).abs() < f64::EPSILON);
}

#[test]
fn test_progress_bar_finish() {
    let mut bar = ProgressBar::new();
    bar.finish();
    assert!(bar.is_finished());
    assert!((ratio(&bar) - 1.0).abs() < f64::EPSILON);
}

#[test]
fn test_progress_bar_render() {
    let mut bar = ProgressBar::new().width(20).show_brackets(true);
    bar.set_progress(1, 2);
    let segments = bar.render(80).expect("render");
    assert!(!segments.is_empty());
    let text: String = segments.iter().map(|s| s.text.as_str()).collect();
    assert!(text.contains('['));
    assert!(text.contains(']'));
    assert!(text.contains('%'));
}

#[test]
fn test_progress_bar_render_plain() {
    let mut bar = ProgressBar::new().width(10).show_brackets(false);
    bar.set_progress(1, 2);
    let plain = bar.render_plain(40).expect("render");
    assert!(!plain.is_empty());
}

#[test]
fn test_progress_bar_styles() {
    for style in [BarStyle::Ascii, BarStyle::Block, BarStyle::Line, BarStyle::Dots] {
        let mut bar = ProgressBar::new().bar_style(style).width(10);
        bar.set_progress(1, 2);
        let segments = bar.render(40).expect("render");
        assert!(!segments.is_empty());
    }
}

#[test]
fn test_progress_bar_with_description() {
    let mut bar = ProgressBar::new().description(Text::new("Downloading")).width(20);
    bar.set_progress(1, 2);
    let plain = bar.render_plain(80).expect("render");
    assert!(plain.contains("Downloading"));
}

#[test]
fn test_progress_bar_finished_message() {
    let mut bar = ProgressBar::new().finished_message("Done!").width(20);
    bar.finish();
    let plain = bar.render_plain(80).expect("render");
    assert!(plain.contains("Done!"));
    assert!(plain.contains('\u{2713}'));
}

#[test]
fn test_ascii_bar() {
    let mut bar = ascii_bar();
    bar.set_progress(1, 2);
    let plain = bar.render_plain(40).expect("render");
    assert!(plain.contains('#'));
    assert!(plain.contains('-'));
}

#[test]
fn test_format_duration() {
    assert_eq!(format_duration(30), "30s");
    assert_eq!(format_duration(90), "1:30");
    assert_eq!(format_duration(3661), "1:01:01");
}

#[test]
fn test_progress_clamp() {
    let mut bar = ProgressBar::new();
    bar.set_progress(0, 2);
    assert!((ratio(&bar) - 0.0).abs() < f64::EPSILON);
    bar.set_progress(3, 2);
    assert!((ratio(&bar) - 1.0).abs() < f64::EPSILON);
}

#[test]
fn progress_bar_exact_layout() {
    let mut bar = ascii_bar().width(10);
    bar.set_progress(1, 2);
    assert_eq!(bar.render_plain(80).unwrap(), "[#####>----]  50%\n");
    bar.set_progress(1, 1);
    assert_eq!(bar.render_plain(80).unwrap(), "[##########] 100%\n");
}

#[test]
fn progress_bar_narrow_shows_percentage_only() {
    let mut bar = ascii_bar().width(10);
    bar.set_progress(1, 4);
    assert_eq!(bar.render_plain(8).unwrap(), "25%\n");
}

#[test]
fn progress_bar_bar_shrinks_to_fit() {
    let mut bar = ascii_bar().width(40).show_percentage(false).show_brackets(false);
    bar.set_progress(1, 2);
    assert_eq!(bar.render_plain(6).unwrap(), "###>--\n");
}

#[test]
fn progress_bar_update_past_total_finishes() {
    let mut bar = ProgressBar::with_total(4);
    bar.update(6);
    assert!(bar.is_finished());
    assert_eq!(bar.progress(), (4, 4));
}

#[test]
fn progress_bar_eta_from_elapsed_time() {
    let mut bar = ProgressBar::with_total(4);
    bar.update(1);
    assert_eq!(bar.eta_at(Some(2_000_000_000)), Some(6_000_000_000));
    assert_eq!(bar.eta_at(Some(50_000_000)), None);
    assert_eq!(bar.eta_at(None), None);
}

#[test]
fn progress_bar_suffix_with_time_and_speed() {
    let mut bar = ascii_bar().width(4).show_elapsed(true).show_speed(true).show_eta(true);
    bar.set_progress(1, 4);
    let segs = bar.render_at(80, Some(90_000_000_000));
    let text: String = segs.iter().map(|s| s.text.as_str()).collect();
    assert_eq!(text, "[#>--]  25% 1:30 ETA 4:30 0.00/s\n");
    let styled = ProgressBar::new().completed_style(Style::new().bold());
    assert!(!styled.is_finished());
}

#[test]
fn progress_update_steps_compose() {
    let mut stepped = ProgressBar::with_total(10);
    stepped.update(3);
    stepped.update(7);
    let mut direct = ProgressBar::with_total(10);
    direct.update(7);
    assert_eq!(stepped.progress(), direct.progress());
    assert_eq!(stepped.is_finished(), direct.is_finished());
}
