//! Interactive prompts: asking for text, a choice from a list, or a yes/no
//! answer.
//!
//! Reading a line and printing are left to the caller; this module decides,
//! for each line read, whether it is an answer or why the question must be
//! asked again, and what the prompt shows.
use vstd::prelude::*;
use crate::strings::{std_lowercase, std_trim, to_lowercase, trim};
use crate::text_ops::{owned, push_char, push_decimal, push_str, str_eq, decimal, chars_eq_str, chars_of, string_from_chars};
use crate::style::{empty_style_model, split_whitespace, words_of};
use crate::console::{print_effect, Console};
use crate::segment::segs_model;
use crate::text::{text_segs, Text};

verus! {

/// Errors returned by prompt operations.
#[derive(Debug, PartialEq, Eq)]
pub enum PromptError {
    /// The prompt needs an interactive console.
    NotInteractive,
    /// The input ended without an answer.
    Eof,
    /// The input did not pass validation.
    Validation(String),
    /// Reading the input failed, with the reader's message.
    Io(String),
}

impl PromptError {
    /// The error message.
    pub fn to_display_string(&self) -> (s: String)
        ensures
            s@ == match *self {
                PromptError::NotInteractive => "prompt requires an interactive console"@,
                PromptError::Eof => "prompt input reached EOF"@,
                PromptError::Validation(m) => m@,
                PromptError::Io(m) => m@,
            },
    {
        match self {
            PromptError::NotInteractive => owned("prompt requires an interactive console"),
            PromptError::Eof => owned("prompt input reached EOF"),
            PromptError::Validation(m) => m.clone(),
            PromptError::Io(m) => m.clone(),
        }
    }
}

/// A line without its trailing newline and carriage return characters.
pub open spec fn trim_newline_spec(s: Seq<char>) -> Seq<char>
    decreases s.len(),
{
    if s.len() > 0 && (s.last() == '\n' || s.last() == '\r') {
        trim_newline_spec(s.drop_last())
    } else {
        s
    }
}

/// Remove trailing newline and carriage return characters from a line.
pub fn trim_newline(line: &str) -> (s: String)
    ensures
        s@ == trim_newline_spec(line@),
{
    let v = crate::text_ops::chars_of(line);
    let mut end = v.len();
    assert(v@.take(end as int) =~= v@);
    while end > 0 && (v[end - 1] == '\n' || v[end - 1] == '\r')
        invariant
            end <= v@.len(),
            v@ == line@,
            trim_newline_spec(line@) == trim_newline_spec(v@.take(end as int)),
        decreases end,
    {
        assert(v@.take(end as int).drop_last() =~= v@.take(end - 1));
        end -= 1;
    }
    assert(trim_newline_spec(v@.take(end as int)) == v@.take(end as int));
    crate::text_ops::string_from_range(&v, 0, end)
}

/// Markup text showing `s` literally: each `[` preceded by a backslash.
pub open spec fn escape_spec(s: Seq<char>) -> Seq<char>
    decreases s.len(),
{
    if s.len() == 0 {
        Seq::empty()
    } else {
        escape_spec(s.drop_last()) + if s.last() == '[' { seq!['\\', '['] } else { seq![s.last()] }
    }
}

/// Escape markup in `s` (see `escape_spec`).
pub fn escape(s: &str) -> (r: String)
    ensures
        r@ == escape_spec(s@),
{
    let v = crate::text_ops::chars_of(s);
    let mut r = String::new();
    let mut i: usize = 0;
    while i < v.len()
        invariant
            i <= v@.len(),
            v@ == s@,
            r@ == escape_spec(v@.take(i as int)),
        decreases v.len() - i,
    {
        assert(v@.take(i + 1).drop_last() =~= v@.take(i as int));
        if v[i] == '[' {
            push_char(&mut r, '\\');
            push_char(&mut r, '[');
            assert(r@ =~= escape_spec(v@.take(i as int)) + seq!['\\', '[']);
        } else {
            push_char(&mut r, v[i]);
            assert(r@ =~= escape_spec(v@.take(i as int)) + seq![v@[i as int]]);
        }
        i += 1;
    }
    assert(v@.take(v@.len() as int) =~= v@);
    r
}

/// What happens after a line is read: the answer, or the message shown
/// before asking again.
#[derive(Debug, PartialEq, Eq)]
pub enum PromptStep<T> {
    /// The answer.
    Answer(T),
    /// Ask again, after showing this message.
    Retry(String),
}

/// A text prompt's settings.
#[derive(Debug, Clone)]
pub struct Prompt {
    /// The question.
    pub label: String,
    /// The answer to empty input, and when the console is not interactive.
    pub default: Option<String>,
    /// Whether an empty answer is accepted where there is no default.
    pub allow_empty: bool,
    /// Whether the prompt shows the default.
    pub show_default: bool,
    /// Whether the label is markup.
    pub markup: bool,
}

/// The value of an optional string.
pub open spec fn opt_chars(o: Option<String>) -> Option<Seq<char>> {
    match o {
        Some(s) => Some(s@),
        None => None,
    }
}

/// The prompt line: the label, the default in brackets where it is shown
/// (escaped when the label is markup), and a colon.
pub open spec fn prompt_line(label: Seq<char>, default: Option<Seq<char>>, show: bool, markup: bool) -> Seq<char> {
    label + match default {
        Some(d) if show => seq![' ', '['] + (if markup { escape_spec(d) } else { d }) + seq![']'],
        _ => Seq::empty(),
    } + seq![':', ' ']
}

/// The value a text prompt takes from a line before validation: the line
/// without its newline, or the default (else nothing) for an empty line;
/// an empty value is refused where empty input is not allowed and there is
/// no default.
pub open spec fn prompt_value(p: Prompt, line: Seq<char>) -> Result<Seq<char>, Seq<char>> {
    let input = trim_newline_spec(line);
    let value = if input.len() == 0 {
        match p.default { Some(d) => d@, None => Seq::empty() }
    } else {
        input
    };
    if value.len() == 0 && !p.allow_empty && p.default is None {
        Err("Input required."@)
    } else {
        Ok(value)
    }
}

impl Prompt {
    /// Create a prompt: no default, empty input refused, the default shown,
    /// markup on.
    pub fn new(label: &str) -> (p: Self)
        ensures
            p.label@ == label@,
            p.default is None,
            !p.allow_empty,
            p.show_default,
            p.markup,
    {
        Prompt { label: owned(label), default: None, allow_empty: false, show_default: true, markup: true }
    }

    /// Set the default answer.
    pub fn default(self, default: &str) -> (p: Self)
        ensures
            p.label == self.label,
            opt_chars(p.default) == Some(default@),
            p.allow_empty == self.allow_empty,
            p.show_default == self.show_default,
            p.markup == self.markup,
    {
        Prompt { default: Some(owned(default)), ..self }
    }

    /// Allow empty input when there is no default.
    pub fn allow_empty(self, allow_empty: bool) -> (p: Self)
        ensures
            p == (Prompt { allow_empty, ..self }),
    {
        Prompt { allow_empty, ..self }
    }

    /// Show the default in the prompt.
    pub fn show_default(self, show_default: bool) -> (p: Self)
        ensures
            p == (Prompt { show_default, ..self }),
    {
        Prompt { show_default, ..self }
    }

    /// Treat the label as markup.
    pub fn markup(self, markup: bool) -> (p: Self)
        ensures
            p == (Prompt { markup, ..self }),
    {
        Prompt { markup, ..self }
    }

    /// The answer where the console is not interactive: the default, else an
    /// error.
    pub fn non_interactive(&self) -> (r: Result<String, PromptError>)
        ensures
            match r {
                Ok(s) => opt_chars(self.default) == Some(s@),
                Err(e) => self.default is None && e == PromptError::NotInteractive,
            },
    {
        match &self.default {
            Some(d) => Ok(d.clone()),
            None => Err(PromptError::NotInteractive),
        }
    }

    /// The prompt line (see `prompt_line`).
    pub fn prompt_text(&self) -> (s: String)
        ensures
            s@ == prompt_line(self.label@, opt_chars(self.default), self.show_default, self.markup),
    {
        let mut s = self.label.clone();
        if self.show_default {
            match &self.default {
                Some(d) => {
                    let shown = if self.markup { escape(d.as_str()) } else { d.clone() };
                    push_char(&mut s, ' ');
                    push_char(&mut s, '[');
                    push_str(&mut s, shown.as_str());
                    push_char(&mut s, ']');
                },
                None => {},
            }
        }
        push_char(&mut s, ':');
        push_char(&mut s, ' ');
        assert(s@ =~= prompt_line(self.label@, opt_chars(self.default), self.show_default, self.markup));
        s
    }

    /// The value taken from a line before validation (see `prompt_value`).
    pub fn value_of(&self, line: &str) -> (r: Result<String, String>)
        ensures
            match r {
                Ok(v) => prompt_value(*self, line@) == Ok::<Seq<char>, Seq<char>>(v@),
                Err(m) => prompt_value(*self, line@) == Err::<Seq<char>, Seq<char>>(m@),
            },
    {
        let input = trim_newline(line);
        let value = if input.as_str().is_empty() {
            match &self.default {
                Some(d) => d.clone(),
                None => String::new(),
            }
        } else {
            input
        };
        if value.as_str().is_empty() && !self.allow_empty && self.default.is_none() {
            Err(owned("Input required."))
        } else {
            Ok(value)
        }
    }

    /// The step after the validator has judged a value: its message where it
    /// refused it, else the value without trailing whitespace.
    pub fn finish(value: &str, verdict: Result<(), String>) -> (r: PromptStep<String>)
        ensures
            match verdict {
                Err(m) => r == PromptStep::<String>::Retry(m),
                Ok(_) => r matches PromptStep::Answer(a) && a@ == crate::strings::std_trim_end(value@),
            },
    {
        match verdict {
            Err(m) => PromptStep::Retry(m),
            Ok(_) => PromptStep::Answer(owned(crate::strings::trim_end(value))),
        }
    }
}

/// A choice of a select prompt.
#[derive(Debug, Clone)]
pub struct Choice {
    /// The value returned when this choice is selected.
    pub value: String,
    /// The label shown, where it differs from the value.
    pub label: Option<String>,
}

/// The text a choice shows: its label, else its value.
pub open spec fn choice_display(c: Choice) -> Seq<char> {
    match c.label {
        Some(l) => l@,
        None => c.value@,
    }
}

impl Choice {
    /// A choice shown as its value.
    pub fn new(value: &str) -> (c: Self)
        ensures
            c.value@ == value@,
            c.label is None,
    {
        Choice { value: owned(value), label: None }
    }

    /// A choice with its own label.
    pub fn with_label(value: &str, label: &str) -> (c: Self)
        ensures
            c.value@ == value@,
            opt_chars(c.label) == Some(label@),
    {
        Choice { value: owned(value), label: Some(owned(label)) }
    }

    /// The text shown for this choice (see `choice_display`).
    pub fn display(&self) -> (s: &str)
        ensures
            s@ == choice_display(*self),
    {
        match &self.label {
            Some(l) => l.as_str(),
            None => self.value.as_str(),
        }
    }
}

impl From<&str> for Choice {
    fn from(value: &str) -> (c: Self) {
        Choice::new(value)
    }
}

impl vstd::std_specs::convert::FromSpecImpl<&str> for Choice {
    open spec fn obeys_from_spec() -> bool {
        false
    }

    open spec fn from_spec(v: &str) -> Choice {
        arbitrary()
    }
}

/// A select prompt's settings.
#[derive(Debug, Clone)]
pub struct Select {
    /// The question.
    pub label: String,
    /// The choices, in order.
    pub choices: Vec<Choice>,
    /// The value chosen for empty input, and when the console is not interactive.
    pub default: Option<String>,
    /// Whether the prompt shows the default.
    pub show_default: bool,
    /// Whether the label is markup.
    pub markup: bool,
}

/// Whether a choice matches input, ignoring case, by its value or its label.
pub open spec fn choice_matches(c: Choice, input: Seq<char>) -> bool {
    std_lowercase(c.value@) == std_lowercase(input) || std_lowercase(choice_display(c)) == std_lowercase(input)
}

/// The index of the first choice from `k` on that matches input.
pub open spec fn first_match(cs: Seq<Choice>, input: Seq<char>, k: nat) -> Option<nat>
    decreases cs.len() - k,
{
    if k >= cs.len() {
        None
    } else if choice_matches(cs[k as int], input) {
        Some(k)
    } else {
        first_match(cs, input, k + 1)
    }
}

/// The value of a decimal number as `usize::from_str` reads it: an optional
/// plus sign, then one or more ASCII digits, with a value that fits.
pub open spec fn digits_value(s: Seq<char>) -> nat
    decreases s.len(),
{
    if s.len() == 0 { 0 } else { digits_value(s.drop_last()) * 10 + ((s.last() as nat) - 48) as nat }
}

/// Whether every character is an ASCII digit.
pub open spec fn all_digits(s: Seq<char>) -> bool {
    forall|i: int| 0 <= i < s.len() ==> '0' <= #[trigger] s[i] <= '9'
}

/// The number a string holds for `usize::from_str`, where it holds one.
pub open spec fn parsed_usize(s: Seq<char>) -> Option<usize> {
    let d = if s.len() > 0 && s[0] == '+' { s.drop_first() } else { s };
    if d.len() > 0 && all_digits(d) && digits_value(d) <= usize::MAX {
        Some(digits_value(d) as usize)
    } else {
        None
    }
}

/// Digits read further never make a number smaller.
proof fn lemma_digits_value_grows(s: Seq<char>, k: int)
    requires
        0 <= k <= s.len(),
        all_digits(s),
    ensures
        digits_value(s.take(k)) <= digits_value(s),
    decreases s.len() - k,
{
    if k < s.len() {
        lemma_digits_value_grows(s, k + 1);
        assert(s.take(k + 1).drop_last() =~= s.take(k));
        assert('0' <= s[k] <= '9');
    } else {
        assert(s.take(k) =~= s);
    }
}

/// The number a string holds for `str::parse::<usize>` (see `parsed_usize`).
fn parse_usize(s: &str) -> (r: Option<usize>)
    ensures
        r == parsed_usize(s@),
{
    let v = chars_of(s);
    let start: usize = if v.len() > 0 && v[0] == '+' { 1 } else { 0 };
    let ghost d = if s@.len() > 0 && s@[0] == '+' { s@.drop_first() } else { s@ };
    assert(d =~= v@.skip(start as int));
    if start == v.len() {
        return None;
    }
    let mut acc: usize = 0;
    let mut i: usize = start;
    while i < v.len()
        invariant
            start <= i <= v@.len(),
            v@ == s@,
            d == v@.skip(start as int),
            d == (if s@.len() > 0 && s@[0] == '+' { s@.drop_first() } else { s@ }),
            d.len() > 0,
            all_digits(d.take(i - start)),
            acc == digits_value(d.take(i - start)),
        decreases v.len() - i,
    {
        let c = v[i];
        let ghost k = (i - start) as int;
        assert(d[k] == c);
        assert(d.take(k + 1).drop_last() =~= d.take(k));
        if !('0' <= c && c <= '9') {
            assert(!all_digits(d));
            return None;
        }
        let digit = (c as u32 - 48) as usize;
        if acc > (usize::MAX - digit) / 10 {
            proof {
                assert(acc * 10 + digit > usize::MAX) by (nonlinear_arith)
                    requires acc > (usize::MAX - digit) / 10, digit <= 9;
                assert(digits_value(d.take(k + 1)) == acc * 10 + digit);
                if all_digits(d) {
                    lemma_digits_value_grows(d, k + 1);
                }
            }
            return None;
        }
        assert(acc * 10 + digit <= usize::MAX) by (nonlinear_arith)
            requires acc <= (usize::MAX - digit) / 10, digit <= 9;
        acc = acc * 10 + digit;
        assert(all_digits(d.take(k + 1)));
        i += 1;
    }
    assert(d.take(d.len() as int) =~= d);
    Some(acc)
}

/// The answer of a select prompt to a line: for empty input the default
/// where it names a choice; a number from 1 picks that choice; otherwise the
/// first choice whose value or label matches ignoring case.
pub open spec fn select_answer(s: Select, line: Seq<char>) -> Result<Seq<char>, Seq<char>> {
    let input = std_trim(trim_newline_spec(line));
    let cs = s.choices@;
    if input.len() == 0 {
        match s.default {
            Some(d) if first_match(cs, d@, 0) is Some => Ok(d@),
            _ => Err("Please select an option."@),
        }
    } else if parsed_usize(input) matches Some(n) && 1 <= n <= cs.len() {
        Ok(cs[parsed_usize(input)->0 - 1].value@)
    } else {
        match first_match(cs, input, 0) {
            Some(k) => Ok(cs[k as int].value@),
            None => Err("Invalid choice: "@ + input),
        }
    }
}

/// The default as a select prompt shows it: the display text of the choice
/// it names, else itself.
pub open spec fn shown_default(s: Select) -> Option<Seq<char>> {
    match s.default {
        Some(d) => Some(match first_match(s.choices@, d@, 0) {
            Some(k) => choice_display(s.choices@[k as int]),
            None => d@,
        }),
        None => None,
    }
}

impl Select {
    /// Create a select prompt with no choices.
    pub fn new(label: &str) -> (s: Self)
        ensures
            s.label@ == label@,
            s.choices@.len() == 0,
            s.default is None,
            s.show_default,
            s.markup,
    {
        Select { label: owned(label), choices: Vec::new(), default: None, show_default: true, markup: true }
    }

    /// Add choices shown as their values.
    pub fn choices<const N: usize>(self, values: [&str; N]) -> (s: Self)
        ensures
            s.choices@.len() == self.choices@.len() + N,
            forall|i: int| 0 <= i < self.choices@.len() ==> s.choices@[i] == self.choices@[i],
            forall|i: int| 0 <= i < N ==> (#[trigger] s.choices@[self.choices@.len() + i]).value@ == values[i]@
                && s.choices@[self.choices@.len() + i].label is None,
            s.label == self.label,
            s.default == self.default,
            s.show_default == self.show_default,
            s.markup == self.markup,
    {
        let mut s = self;
        let ghost start = s.choices@;
        let mut i: usize = 0;
        while i < N
            invariant
                i <= N,
                s.choices@.len() == start.len() + i,
                forall|k: int| 0 <= k < start.len() ==> s.choices@[k] == start[k],
                forall|k: int| 0 <= k < i ==> (#[trigger] s.choices@[start.len() + k]).value@ == values[k]@
                    && s.choices@[start.len() + k].label is None,
                s.label == self.label,
                s.default == self.default,
                s.show_default == self.show_default,
                s.markup == self.markup,
                start == self.choices@,
            decreases N - i,
        {
            s.choices.push(Choice::new(values[i]));
            i += 1;
        }
        s
    }

    /// Add one choice.
    pub fn choice(self, choice: Choice) -> (s: Self)
        ensures
            s.choices@ == self.choices@.push(choice),
            s.label == self.label,
            s.default == self.default,
            s.show_default == self.show_default,
            s.markup == self.markup,
    {
        let mut s = self;
        s.choices.push(choice);
        s
    }

    /// Set the default choice.
    pub fn default(self, default: &str) -> (s: Self)
        ensures
            opt_chars(s.default) == Some(default@),
            s.label == self.label,
            s.choices == self.choices,
            s.show_default == self.show_default,
            s.markup == self.markup,
    {
        Select { default: Some(owned(default)), ..self }
    }

    /// Show the default in the prompt.
    pub fn show_default(self, show_default: bool) -> (s: Self)
        ensures
            s == (Select { show_default, ..self }),
    {
        Select { show_default, ..self }
    }

    /// Treat the label as markup.
    pub fn markup(self, markup: bool) -> (s: Self)
        ensures
            s == (Select { markup, ..self }),
    {
        Select { markup, ..self }
    }

    /// The index of the first choice matching input (see `first_match`).
    pub fn find_choice(&self, input: &str) -> (r: Option<usize>)
        ensures
            match r {
                Some(k) => first_match(self.choices@, input@, 0) == Some(k as nat) && k < self.choices@.len(),
                None => first_match(self.choices@, input@, 0) is None,
            },
    {
        let want = to_lowercase(input);
        let mut k: usize = self.choices.len();
        let mut found: Option<usize> = None;
        while k > 0
            invariant
                k <= self.choices@.len(),
                want@ == std_lowercase(input@),
                match found {
                    Some(j) => first_match(self.choices@, input@, k as nat) == Some(j as nat) && j < self.choices@.len(),
                    None => first_match(self.choices@, input@, k as nat) is None,
                },
            decreases k,
        {
            k -= 1;
            let c = &self.choices[k];
            let v = to_lowercase(c.value.as_str());
            let d = to_lowercase(c.display());
            if str_eq(v.as_str(), want.as_str()) || str_eq(d.as_str(), want.as_str()) {
                found = Some(k);
            }
        }
        found
    }

    /// The answer where there is nothing to ask or the console is not
    /// interactive: an error without choices, else the default or an error;
    /// nothing where the question is to be asked.
    pub fn before_asking(&self, interactive: bool) -> (r: Option<Result<String, PromptError>>)
        ensures
            self.choices@.len() == 0 ==> (r matches Some(Err(PromptError::Validation(m))) && m@
                == "No choices provided"@),
            self.choices@.len() > 0 && interactive ==> r is None,
            self.choices@.len() > 0 && !interactive ==> match r {
                Some(Ok(d)) => opt_chars(self.default) == Some(d@),
                Some(Err(e)) => self.default is None && e == PromptError::NotInteractive,
                None => false,
            },
    {
        if self.choices.len() == 0 {
            return Some(Err(PromptError::Validation(owned("No choices provided"))));
        }
        if !interactive {
            return Some(match &self.default {
                Some(d) => Ok(d.clone()),
                None => Err(PromptError::NotInteractive),
            });
        }
        None
    }

    /// The answer to a line (see `select_answer`); an error is the message
    /// shown before asking again.
    pub fn answer(&self, line: &str) -> (r: Result<String, String>)
        ensures
            match r {
                Ok(v) => select_answer(*self, line@) == Ok::<Seq<char>, Seq<char>>(v@),
                Err(m) => select_answer(*self, line@) == Err::<Seq<char>, Seq<char>>(m@),
            },
    {
        let stripped = trim_newline(line);
        let input = trim(stripped.as_str());
        if input.is_empty() {
            match &self.default {
                Some(d) => {
                    if self.find_choice(d.as_str()).is_some() {
                        return Ok(d.clone());
                    }
                },
                None => {},
            }
            return Err(owned("Please select an option."));
        }
        match parse_usize(input) {
            Some(n) => {
                if n >= 1 && n <= self.choices.len() {
                    return Ok(self.choices[n - 1].value.clone());
                }
            },
            None => {},
        }
        match self.find_choice(input) {
            Some(k) => Ok(self.choices[k].value.clone()),
            None => {
                let mut m = owned("Invalid choice: ");
                push_str(&mut m, input);
                Err(m)
            },
        }
    }

    /// The prompt line: the label, the default's display text in brackets
    /// where it is shown (escaped when the label is markup), and a colon.
    pub fn prompt_text(&self) -> (s: String)
        ensures
            s@ == prompt_line(self.label@, shown_default(*self), self.show_default, self.markup),
    {
        let mut s = self.label.clone();
        if self.show_default {
            match &self.default {
                Some(d) => {
                    let display = match self.find_choice(d.as_str()) {
                        Some(k) => self.choices[k].display(),
                        None => d.as_str(),
                    };
                    let shown = if self.markup { escape(display) } else { owned(display) };
                    push_char(&mut s, ' ');
                    push_char(&mut s, '[');
                    push_str(&mut s, shown.as_str());
                    push_char(&mut s, ']');
                },
                None => {},
            }
        }
        push_char(&mut s, ':');
        push_char(&mut s, ' ');
        assert(s@ =~= prompt_line(self.label@, shown_default(*self), self.show_default, self.markup));
        s
    }

    /// The markup line listing choice `i` (numbered from 1), marked as the
    /// default where it is shown.
    pub fn choice_line(&self, i: usize) -> (s: String)
        requires
            i < self.choices@.len(),
        ensures
            s@ == if self.show_default && opt_chars(self.default) == Some(self.choices@[i as int].value@) {
                "  [bold cyan]"@ + decimal((i + 1) as nat) + ".[/] "@ + choice_display(self.choices@[i as int])
                    + " [dim](default)[/]"@
            } else {
                "  [cyan]"@ + decimal((i + 1) as nat) + ".[/] "@ + choice_display(self.choices@[i as int])
            },
    {
        assert(i < self.choices.len());
        let c = &self.choices[i];
        let is_default = match &self.default {
            Some(d) => str_eq(d.as_str(), c.value.as_str()),
            None => false,
        };
        if is_default && self.show_default {
            let mut s = owned("  [bold cyan]");
            push_decimal(&mut s, i + 1);
            push_str(&mut s, ".[/] ");
            push_str(&mut s, c.display());
            push_str(&mut s, " [dim](default)[/]");
            s
        } else {
            let mut s = owned("  [cyan]");
            push_decimal(&mut s, i + 1);
            push_str(&mut s, ".[/] ");
            push_str(&mut s, c.display());
            s
        }
    }
}

/// A yes/no prompt's settings.
#[derive(Debug, Clone)]
pub struct Confirm {
    /// The question.
    pub label: String,
    /// The answer to empty input, and when the console is not interactive.
    pub default: Option<bool>,
    /// Whether the label is markup.
    pub markup: bool,
}

/// The answer of a yes/no prompt to a line: the default for empty input;
/// `y`, `yes`, `true` or `1` for yes and `n`, `no`, `false` or `0` for no,
/// ignoring case.
pub open spec fn confirm_answer(default: Option<bool>, line: Seq<char>) -> Result<bool, Seq<char>> {
    let input = std_lowercase(std_trim(trim_newline_spec(line)));
    if input.len() == 0 && default is Some {
        Ok(default->0)
    } else if input == "y"@ || input == "yes"@ || input == "true"@ || input == "1"@ {
        Ok(true)
    } else if input == "n"@ || input == "no"@ || input == "false"@ || input == "0"@ {
        Ok(false)
    } else {
        Err("Please enter y or n."@)
    }
}

impl Confirm {
    /// Create a yes/no prompt with no default and markup on.
    pub fn new(label: &str) -> (c: Self)
        ensures
            c.label@ == label@,
            c.default is None,
            c.markup,
    {
        Confirm { label: owned(label), default: None, markup: true }
    }

    /// Set the default answer.
    pub fn default(self, default: bool) -> (c: Self)
        ensures
            c == (Confirm { default: Some(default), ..self }),
    {
        Confirm { default: Some(default), ..self }
    }

    /// Treat the label as markup.
    pub fn markup(self, markup: bool) -> (c: Self)
        ensures
            c == (Confirm { markup, ..self }),
    {
        Confirm { markup, ..self }
    }

    /// The answer where the console is not interactive: the default, else an
    /// error.
    pub fn non_interactive(&self) -> (r: Result<bool, PromptError>)
        ensures
            match r {
                Ok(b) => self.default == Some(b),
                Err(e) => self.default is None && e == PromptError::NotInteractive,
            },
    {
        match self.default {
            Some(b) => Ok(b),
            None => Err(PromptError::NotInteractive),
        }
    }

    /// The answer to a line (see `confirm_answer`); an error is the message
    /// shown before asking again.
    pub fn answer(&self, line: &str) -> (r: Result<bool, String>)
        ensures
            match r {
                Ok(b) => confirm_answer(self.default, line@) == Ok::<bool, Seq<char>>(b),
                Err(m) => confirm_answer(self.default, line@) == Err::<bool, Seq<char>>(m@),
            },
    {
        let stripped = trim_newline(line);
        let input = to_lowercase(trim(stripped.as_str()));
        let i = input.as_str();
        if i.is_empty() {
            match self.default {
                Some(b) => return Ok(b),
                None => {},
            }
        }
        if str_eq(i, "y") || str_eq(i, "yes") || str_eq(i, "true") || str_eq(i, "1") {
            Ok(true)
        } else if str_eq(i, "n") || str_eq(i, "no") || str_eq(i, "false") || str_eq(i, "0") {
            Ok(false)
        } else {
            Err(owned("Please enter y or n."))
        }
    }

    /// The prompt line: the label and the choices, the default in capitals.
    pub fn prompt_text(&self) -> (s: String)
        ensures
            s@ == self.label@ + seq![' '] + match self.default {
                Some(true) => "[Y/n]"@,
                Some(false) => "[y/N]"@,
                None => "[y/n]"@,
            } + ": "@,
    {
        let mut s = self.label.clone();
        push_char(&mut s, ' ');
        let choices = match self.default {
            Some(true) => "[Y/n]",
            Some(false) => "[y/N]",
            None => "[y/n]",
        };
        push_str(&mut s, choices);
        push_str(&mut s, ": ");
        assert(s@ =~= self.label@ + seq![' '] + choices@ + ": "@);
        s
    }
}

/// Shows long content through an external pager program where the console
/// is a terminal; otherwise the content is printed as it is.
#[derive(Debug, Clone)]
pub struct Pager {
    command: Option<String>,
    allow_color: bool,
}

/// The value of a pager: its own command, if set, and whether colors pass.
pub struct PagerModel {
    pub command: Option<Seq<char>>,
    pub allow_color: bool,
}

impl View for Pager {
    type V = PagerModel;

    closed spec fn view(&self) -> PagerModel {
        PagerModel {
            command: match self.command {
                Some(c) => Some(c@),
                None => None,
            },
            allow_color: self.allow_color,
        }
    }
}

/// The pager command: the pager's own, else the `PAGER` setting, else `less`.
pub open spec fn pager_command(p: PagerModel, env_pager: Option<Seq<char>>) -> Seq<char> {
    match p.command {
        Some(c) => c,
        None => match env_pager {
            Some(e) => e,
            None => seq!['l', 'e', 's', 's'],
        },
    }
}

/// The program and arguments run: the first word of the command (`less`
/// without words) and the rest, with `-R` added for `less` where colors pass
/// and it is not there yet.
pub open spec fn pager_invocation(p: PagerModel, env_pager: Option<Seq<char>>) -> (Seq<char>, Seq<Seq<char>>) {
    let ws = words_of(pager_command(p, env_pager));
    let bin = if ws.len() > 0 { ws[0] } else { seq!['l', 'e', 's', 's'] };
    let args = if ws.len() > 0 { ws.drop_first() } else { Seq::empty() };
    if p.allow_color && bin == seq!['l', 'e', 's', 's'] && !args.contains(seq!['-', 'R']) {
        (bin, args.push(seq!['-', 'R']))
    } else {
        (bin, args)
    }
}

/// Print content exactly as it is: no markup, no line end.
pub fn print_exact(console: &mut Console, content: &str)
    ensures
        final(console)@ == print_effect(old(console)@, text_segs(content@, empty_style_model(true))),
{
    let text = Text::new(content);
    let segs = text.render();
    assert(forall|c: crate::color::ColorSystem| crate::style::style_codes_defined(empty_style_model(true), c));
    console.print_segments(segs.as_slice());
}

impl Pager {
    /// A pager with no command of its own, passing colors.
    pub fn new() -> (p: Self)
        ensures
            p@ == (PagerModel { command: None, allow_color: true }),
    {
        Pager { command: None, allow_color: true }
    }

    /// The pager command to run.
    pub fn command(self, command: &str) -> (p: Self)
        ensures
            p@ == (PagerModel { command: Some(command@), ..self@ }),
    {
        Pager { command: Some(owned(command)), ..self }
    }

    /// Whether color sequences are passed to the pager.
    pub fn allow_color(self, allow_color: bool) -> (p: Self)
        ensures
            p@ == (PagerModel { allow_color, ..self@ }),
    {
        Pager { allow_color, ..self }
    }

    /// The program and arguments to run, given the `PAGER` setting (see
    /// `pager_invocation`).
    pub fn resolve_command(&self, env_pager: Option<&str>) -> (r: (String, Vec<String>))
        ensures
            r.0@ == pager_invocation(self@, match env_pager { Some(e) => Some(e@), None => None }).0,
            crate::style::views(r.1@) == pager_invocation(self@, match env_pager { Some(e) => Some(e@), None => None }).1,
    {
        let ghost env = match env_pager { Some(e) => Some(e@), None => None };
        let cmd: String = match &self.command {
            Some(c) => c.clone(),
            None => match env_pager {
                Some(e) => owned(e),
                None => owned("less"),
            },
        };
        proof {
            reveal_strlit("less");
            reveal_strlit("-R");
            assert("less"@ =~= seq!['l', 'e', 's', 's']);
            assert("-R"@ =~= seq!['-', 'R']);
        }
        assert(cmd@ == pager_command(self@, env));
        let chars = chars_of(cmd.as_str());
        let words = split_whitespace(&chars);
        let ghost ws = words_of(cmd@);
        let bin: String = if words.len() > 0 {
            assert(words@[0]@ == ws[0]);
            string_from_chars(&words[0])
        } else {
            owned("less")
        };
        let mut args: Vec<String> = Vec::new();
        let mut has_r = false;
        let mut k: usize = 1;
        while k < words.len()
            invariant
                1 <= k <= words@.len() || (words@.len() == 0 && k == 1),
                words@.len() == ws.len(),
                forall|j: int| 0 <= j < words@.len() ==> #[trigger] words@[j]@ == ws[j],
                words@.len() > 0 ==> crate::style::views(args@) == ws.subrange(1, k as int),
                words@.len() > 0 ==> (has_r <==> ws.subrange(1, k as int).contains(seq!['-', 'R'])),
                words@.len() > 0 ==> bin@ == ws[0],
                words@.len() == 0 ==> bin@ == seq!['l', 'e', 's', 's'] && args@.len() == 0 && !has_r,
                ws == words_of(cmd@),
                cmd@ == pager_command(self@, env),
            decreases words.len() - k,
        {
            let ghost prev = ws.subrange(1, k as int);
            let ghost pv = args@;
            proof {
                reveal_strlit("-R");
                assert("-R"@ =~= seq!['-', 'R']);
                assert(words@[k as int]@ == ws[k as int]);
            }
            let w = string_from_chars(&words[k]);
            if chars_eq_str(&words[k], "-R") {
                has_r = true;
            }
            args.push(w);
            proof {
                assert(ws.subrange(1, k + 1) =~= prev.push(ws[k as int]));
                assert(crate::style::views(args@) =~= crate::style::views(pv).push(ws[k as int]));
                if ws[k as int] == seq!['-', 'R'] {
                    assert(ws.subrange(1, k + 1)[k - 1] == seq!['-', 'R']);
                }
                if prev.contains(seq!['-', 'R']) {
                    let j = choose|j: int| 0 <= j < prev.len() && #[trigger] prev[j] == seq!['-', 'R'];
                    assert(ws.subrange(1, k + 1)[j] == seq!['-', 'R']);
                }
                if ws.subrange(1, k + 1).contains(seq!['-', 'R']) {
                    let sub = ws.subrange(1, k + 1);
                    let j = choose|j: int| 0 <= j < sub.len() && #[trigger] sub[j] == seq!['-', 'R'];
                    if j < k - 1 {
                        assert(prev[j] == seq!['-', 'R']);
                    }
                }
            }
            k += 1;
        }
        proof {
            reveal_strlit("less");
            reveal_strlit("-R");
            assert("less"@ =~= seq!['l', 'e', 's', 's']);
            assert("-R"@ =~= seq!['-', 'R']);
            if words@.len() > 0 {
                assert(ws.subrange(1, ws.len() as int) =~= ws.drop_first());
            } else {
                assert(crate::style::views(args@) =~= Seq::<Seq<char>>::empty());
            }
        }
        if self.allow_color && chars_eq_str(&chars_of(bin.as_str()), "less") && !has_r {
            let ghost pv = args@;
            args.push(owned("-R"));
            assert(crate::style::views(args@) =~= crate::style::views(pv).push(seq!['-', 'R']));
        }
        (bin, args)
    }

    /// Show content: where the console is not a terminal it is printed as it
    /// is (see `print_exact`) and `true` is returned; else nothing is done and
    /// `false` says the caller is to run the pager program (see
    /// `resolve_command`), printing the content the same way where that fails.
    pub fn show(&self, console: &mut Console, content: &str) -> (printed: bool)
        ensures
            printed == !(match old(console)@.force_terminal { Some(f) => f, None => old(console)@.is_terminal }),
            printed ==> final(console)@ == print_effect(old(console)@, text_segs(content@, empty_style_model(true))),
            !printed ==> final(console)@ == old(console)@,
    {
        if !console.is_terminal() {
            print_exact(console, content);
            true
        } else {
            false
        }
    }
}

impl Default for Pager {
    fn default() -> (p: Self)
        ensures
            p@ == (PagerModel { command: None, allow_color: true }),
    {
        Pager::new()
    }
}

} // verus!
