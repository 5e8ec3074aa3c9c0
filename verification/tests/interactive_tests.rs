use rich_rust::console::Console;
use rich_rust::interactive::{Pager, escape, trim_newline, Choice, Confirm, Prompt, PromptError, PromptStep, Select};

fn digits_only(value: &str) -> Result<(), String> {
    if value.chars().all(|c| c.is_ascii_digit()) {
        Ok(())
    } else {
        Err("digits only".to_string())
    }
}

/// Runs a prompt over lines as the app's loop does, with a validator.
fn run_prompt(prompt: &Prompt, lines: &[&str], validator: &dyn Fn(&str) -> Result<(), String>) -> (Result<String, PromptError>, Vec<String>) {
    let mut errors = Vec::new();
    for line in lines {
        match prompt.value_of(line) {
            Err(message) => errors.push(message),
            Ok(value) => match Prompt::finish(&value, validator(&value)) {
                PromptStep::Answer(answer) => return (Ok(answer), errors),
                PromptStep::Retry(message) => errors.push(message),
            },
        }
    }
    (Err(PromptError::Eof), errors)
}

#[test]
fn test_prompt_non_interactive_uses_default() {
    let prompt = Prompt::new("Name").default("Alice");
    assert_eq!(prompt.non_interactive(), Ok("Alice".to_string()));
}

#[test]
fn test_prompt_not_interactive_error() {
    let prompt = Prompt::new("Name");
    assert_eq!(prompt.non_interactive(), Err(PromptError::NotInteractive));
}

#[test]
fn test_prompt_from_reader_validates_and_reprompts() {
    let prompt = Prompt::new("Age");
    let (answer, errors) = run_prompt(&prompt, &["nope\n", "42\n"], &digits_only);
    assert_eq!(answer, Ok("42".to_string()));
    assert!(errors.iter().any(|e| e.contains("digits only")));
}

#[test]
fn test_prompt_multiple_validation_failures() {
    let prompt = Prompt::new("Number");
    let number = |v: &str| v.parse::<i32>().map(|_| ()).map_err(|_| "must be a number".to_string());
    let (answer, errors) = run_prompt(&prompt, &["abc\n", "xyz\n", "42\n"], &number);
    assert_eq!(answer, Ok("42".to_string()));
    assert!(errors.iter().filter(|e| e.contains("must be a number")).count() >= 2);
}

#[test]
fn test_prompt_validation_passes_on_valid_input() {
    let prompt = Prompt::new("Email");
    let email = |v: &str| if v.contains('@') { Ok(()) } else { Err("must contain @".to_string()) };
    let (answer, errors) = run_prompt(&prompt, &["test@example.com\n"], &email);
    assert_eq!(answer, Ok("test@example.com".to_string()));
    assert!(errors.is_empty());
}

#[test]
fn test_prompt_empty_input_uses_default() {
    let prompt = Prompt::new("Name").default("DefaultName");
    assert_eq!(prompt.value_of("\n"), Ok("DefaultName".to_string()));
}

#[test]
fn test_prompt_no_default_no_allow_empty_reprompts() {
    let prompt = Prompt::new("Name").allow_empty(false);
    let (answer, errors) = run_prompt(&prompt, &["\n", "Alice\n"], &|_| Ok(()));
    assert_eq!(answer, Ok("Alice".to_string()));
    assert!(errors.iter().any(|e| e.contains("Input required")));
}

#[test]
fn test_prompt_allow_empty_true() {
    let prompt = Prompt::new("Name").allow_empty(true);
    let (answer, _) = run_prompt(&prompt, &["\n"], &|_| Ok(()));
    assert_eq!(answer, Ok(String::new()));
}

#[test]
fn test_prompt_input_whitespace_trimmed() {
    let prompt = Prompt::new("Name");
    let (answer, _) = run_prompt(&prompt, &["  Alice  \n"], &|_| Ok(()));
    assert_eq!(answer, Ok("  Alice".to_string()));
}

#[test]
fn test_prompt_eof_returns_error() {
    let prompt = Prompt::new("Name");
    let (answer, _) = run_prompt(&prompt, &[], &|_| Ok(()));
    assert!(matches!(answer, Err(PromptError::Eof)));
}

#[test]
fn test_prompt_builder_chain() {
    let prompt = Prompt::new("Enter name").default("Alice").allow_empty(true).show_default(false).markup(false);
    assert_eq!(prompt.label, "Enter name");
    assert_eq!(prompt.default, Some("Alice".to_string()));
    assert!(prompt.allow_empty);
    assert!(!prompt.show_default);
    assert!(!prompt.markup);
}

#[test]
fn test_prompt_clone() {
    let prompt = Prompt::new("Name").default("Alice").allow_empty(true).show_default(false).markup(false);
    let cloned = prompt.clone();
    assert_eq!(cloned.label, prompt.label);
    assert_eq!(cloned.default, prompt.default);
    assert_eq!(cloned.allow_empty, prompt.allow_empty);
    assert_eq!(cloned.show_default, prompt.show_default);
    assert_eq!(cloned.markup, prompt.markup);
}

#[test]
fn test_prompt_display_shows_default() {
    let prompt = Prompt::new("Name").default("Bob").show_default(true).markup(false);
    let text = prompt.prompt_text();
    assert!(text.contains("Name"));
    assert!(text.contains("[Bob]"));
}

#[test]
fn test_prompt_display_hides_default() {
    let prompt = Prompt::new("Name").default("Bob").show_default(false);
    let text = prompt.prompt_text();
    assert!(text.contains("Name"));
    assert!(!text.contains("[Bob]"));
}

#[test]
fn test_prompt_display_escapes_markup_in_default() {
    let prompt = Prompt::new("Name").default("[bold]text[/]").markup(true);
    let text = prompt.prompt_text();
    assert!(text.contains("Name"));
    assert_eq!(text, "Name [\\[bold]text\\[/]]: ");
}

#[test]
fn test_prompt_markup_disabled_in_label() {
    let prompt = Prompt::new("[bold]Name[/]").markup(false);
    assert!(prompt.prompt_text().contains("[bold]Name[/]"));
}

#[test]
fn test_prompt_error_display() {
    assert_eq!(PromptError::NotInteractive.to_display_string(), "prompt requires an interactive console");
    assert_eq!(PromptError::Eof.to_display_string(), "prompt input reached EOF");
    assert_eq!(PromptError::Validation("invalid input".to_string()).to_display_string(), "invalid input");
    assert!(PromptError::Io("file not found".to_string()).to_display_string().contains("file not found"));
}

#[test]
fn test_select_by_number() {
    let select = Select::new("Pick a color").choices(["red", "green", "blue"]);
    assert_eq!(select.answer("2\n"), Ok("green".to_string()));
}

#[test]
fn test_select_by_value() {
    let select = Select::new("Pick a color").choices(["red", "green", "blue"]);
    assert_eq!(select.answer("blue\n"), Ok("blue".to_string()));
}

#[test]
fn test_select_case_insensitive() {
    let select = Select::new("Pick").choices(["Red", "Green"]);
    assert_eq!(select.answer("red\n"), Ok("Red".to_string()));
}

#[test]
fn test_select_default() {
    let select = Select::new("Pick").choices(["a", "b", "c"]).default("b");
    assert_eq!(select.answer("\n"), Ok("b".to_string()));
}

#[test]
fn test_select_non_interactive_uses_default() {
    let select = Select::new("Pick").choices(["a", "b"]).default("b");
    assert_eq!(select.before_asking(false), Some(Ok("b".to_string())));
}

#[test]
fn test_select_with_labels() {
    let select = Select::new("Pick")
        .choice(Choice::with_label("us-east-1", "US East (N. Virginia)"))
        .choice(Choice::with_label("eu-west-1", "EU (Ireland)"));
    assert_eq!(select.answer("1\n"), Ok("us-east-1".to_string()));
}

#[test]
fn select_rejects_out_of_range_and_unknown() {
    let select = Select::new("Pick").choices(["a", "b"]);
    assert_eq!(select.answer("3\n"), Err("Invalid choice: 3".to_string()));
    assert_eq!(select.answer("  zz \n"), Err("Invalid choice: zz".to_string()));
    assert_eq!(select.answer("\n"), Err("Please select an option.".to_string()));
    assert_eq!(select.answer("+2\n"), Ok("b".to_string()));
    assert_eq!(select.find_choice("B"), Some(1));
    assert_eq!(select.before_asking(true), None);
    assert!(matches!(Select::new("x").before_asking(true), Some(Err(PromptError::Validation(_)))));
}

#[test]
fn select_prompt_and_choice_lines() {
    let select = Select::new("Pick").choices(["a", "b"]).default("b");
    assert_eq!(select.prompt_text(), "Pick [b]: ");
    assert_eq!(select.choice_line(0), "  [cyan]1.[/] a");
    assert_eq!(select.choice_line(1), "  [bold cyan]2.[/] b [dim](default)[/]");
}

#[test]
fn test_confirm_yes() {
    assert_eq!(Confirm::new("Continue?").answer("y\n"), Ok(true));
}

#[test]
fn test_confirm_no() {
    assert_eq!(Confirm::new("Continue?").answer("no\n"), Ok(false));
}

#[test]
fn test_confirm_default_yes() {
    assert_eq!(Confirm::new("Continue?").default(true).answer("\n"), Ok(true));
}

#[test]
fn test_confirm_non_interactive_uses_default() {
    assert_eq!(Confirm::new("Continue?").default(false).non_interactive(), Ok(false));
}

#[test]
fn confirm_words_and_prompt() {
    let c = Confirm::new("Go?");
    assert_eq!(c.answer(" TRUE \r\n"), Ok(true));
    assert_eq!(c.answer("0\n"), Ok(false));
    assert_eq!(c.answer("\n"), Err("Please enter y or n.".to_string()));
    assert_eq!(c.answer("maybe\n"), Err("Please enter y or n.".to_string()));
    assert_eq!(c.prompt_text(), "Go? [y/n]: ");
    assert_eq!(c.default(false).prompt_text(), "Go? [y/N]: ");
}

#[test]
fn test_choice_display() {
    let simple = Choice::new("value");
    assert_eq!(simple.display(), "value");
    let labeled = Choice::with_label("value", "Display Label");
    assert_eq!(labeled.display(), "Display Label");
}

#[test]
fn newline_trimming_and_escaping() {
    assert_eq!(trim_newline("abc\r\n\n"), "abc");
    assert_eq!(trim_newline("a\nb"), "a\nb");
    assert_eq!(escape("[x] y"), "\\[x] y");
}

#[test]
fn test_pager_non_interactive_falls_back_to_print() {
    let mut console = Console::builder().force_terminal(false).markup(false).build();
    let printed = Pager::new().show(&mut console, "hello\nworld\n");
    assert!(printed);
    let text = console.take_output();
    assert!(text.contains("hello\nworld\n"));
}

#[test]
fn pager_terminal_leaves_printing_to_caller() {
    let mut console = Console::builder().force_terminal(true).markup(false).build();
    assert!(!Pager::new().show(&mut console, "hello"));
    assert_eq!(console.take_output(), "");
}

#[test]
fn pager_resolves_command() {
    let (bin, args) = Pager::new().resolve_command(None);
    assert_eq!(bin, "less");
    assert_eq!(args, vec!["-R".to_string()]);
    let (bin, args) = Pager::new().resolve_command(Some("less -R -S"));
    assert_eq!(bin, "less");
    assert_eq!(args, vec!["-R".to_string(), "-S".to_string()]);
    let (bin, args) = Pager::new().command("more -d").resolve_command(Some("less"));
    assert_eq!(bin, "more");
    assert_eq!(args, vec!["-d".to_string()]);
    let (bin, args) = Pager::new().allow_color(false).resolve_command(Some("  "));
    assert_eq!(bin, "less");
    assert!(args.is_empty());
}
