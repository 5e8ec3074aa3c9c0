//! Source code blocks: the code, its language and the display settings used
//! to highlight it.
use vstd::prelude::*;
use crate::color::{Color, ColorModel};
use crate::renderables::markdown::colored_or_default;
use crate::strings::{std_lowercase, to_lowercase};
use crate::style::{empty_style_model, Style, StyleModel};
use crate::text_ops::{owned, str_eq};

verus! {

/// Errors of syntax highlighting.
#[derive(Debug, PartialEq, Eq)]
pub enum SyntaxError {
    /// The specified language is not supported.
    UnknownLanguage(String),
    /// The specified theme is not found.
    UnknownTheme(String),
    /// Failed to read the file.
    IoError(String),
}

impl SyntaxError {
    /// The error message.
    pub fn to_display_string(&self) -> (s: String)
        ensures
            s@ == match *self {
                SyntaxError::UnknownLanguage(l) => "Unknown language: "@ + l@,
                SyntaxError::UnknownTheme(t) => "Unknown theme: "@ + t@,
                SyntaxError::IoError(e) => "IO error: "@ + e@,
            },
    {
        let (head, tail) = match self {
            SyntaxError::UnknownLanguage(l) => (owned("Unknown language: "), l),
            SyntaxError::UnknownTheme(t) => (owned("Unknown theme: "), t),
            SyntaxError::IoError(e) => (owned("IO error: "), e),
        };
        let mut s = head;
        crate::text_ops::push_str(&mut s, tail.as_str());
        s
    }
}

/// A source code block with its display settings.
#[derive(Debug)]
pub struct Syntax {
    /// The source code.
    pub code: String,
    /// The language for highlighting.
    pub language: String,
    /// Whether to show line numbers.
    pub line_numbers: bool,
    /// The starting line number (for excerpts).
    pub start_line: usize,
    /// The theme name.
    pub theme_name: String,
    /// Optional background color override.
    pub background_color: Option<Color>,
    /// Whether to show indentation guides.
    pub indent_guides: bool,
    /// Tab size.
    pub tab_size: usize,
    /// Optional word wrap width.
    pub word_wrap: Option<usize>,
    /// Style for the line number column.
    pub line_number_style: Style,
    /// Padding around the code block (vertical, horizontal).
    pub padding: (usize, usize),
}

/// The value of a code block's settings.
pub struct SyntaxModel {
    pub code: Seq<char>,
    pub language: Seq<char>,
    pub line_numbers: bool,
    pub start_line: usize,
    pub theme_name: Seq<char>,
    pub background_color: Option<ColorModel>,
    pub indent_guides: bool,
    pub tab_size: usize,
    pub word_wrap: Option<usize>,
    pub line_number_style: StyleModel,
    pub padding: (usize, usize),
}

impl View for Syntax {
    type V = SyntaxModel;

    closed spec fn view(&self) -> SyntaxModel {
        SyntaxModel {
            code: self.code@,
            language: self.language@,
            line_numbers: self.line_numbers,
            start_line: self.start_line,
            theme_name: self.theme_name@,
            background_color: match self.background_color { Some(c) => Some(c@), None => None },
            indent_guides: self.indent_guides,
            tab_size: self.tab_size,
            word_wrap: self.word_wrap,
            line_number_style: self.line_number_style@,
            padding: self.padding,
        }
    }
}

/// A new code block's settings: no line numbers, starting at line 1, the
/// `base16-ocean.dark` theme, no background override or guides, tabs of
/// four, no wrapping, dim line numbers, no padding.
pub open spec fn default_syntax(code: Seq<char>, language: Seq<char>) -> SyntaxModel {
    SyntaxModel {
        code,
        language,
        line_numbers: false,
        start_line: 1,
        theme_name: "base16-ocean.dark"@,
        background_color: None,
        indent_guides: false,
        tab_size: 4,
        word_wrap: None,
        line_number_style: colored_or_default(empty_style_model(false), "bright_black"@),
        padding: (0, 0),
    }
}

/// The language a (lowercased) file extension names, if it is a known one.
pub open spec fn known_language(lower: Seq<char>) -> Option<Seq<char>> {
    if lower == "rs"@ { Some("rust"@) }
    else if lower == "py"@ { Some("python"@) }
    else if lower == "js"@ { Some("javascript"@) }
    else if lower == "ts"@ { Some("typescript"@) }
    else if lower == "jsx"@ { Some("javascript"@) }
    else if lower == "tsx"@ { Some("typescript"@) }
    else if lower == "rb"@ { Some("ruby"@) }
    else if lower == "go"@ { Some("go"@) }
    else if lower == "java"@ { Some("java"@) }
    else if lower == "c"@ { Some("c"@) }
    else if lower == "cpp"@ { Some("c++"@) }
    else if lower == "cxx"@ { Some("c++"@) }
    else if lower == "cc"@ { Some("c++"@) }
    else if lower == "h"@ { Some("c++"@) }
    else if lower == "hpp"@ { Some("c++"@) }
    else if lower == "cs"@ { Some("c#"@) }
    else if lower == "php"@ { Some("php"@) }
    else if lower == "swift"@ { Some("swift"@) }
    else if lower == "kt"@ { Some("kotlin"@) }
    else if lower == "kts"@ { Some("kotlin"@) }
    else if lower == "scala"@ { Some("scala"@) }
    else if lower == "sh"@ { Some("bash"@) }
    else if lower == "bash"@ { Some("bash"@) }
    else if lower == "zsh"@ { Some("zsh"@) }
    else if lower == "fish"@ { Some("fish"@) }
    else if lower == "ps1"@ { Some("powershell"@) }
    else if lower == "sql"@ { Some("sql"@) }
    else if lower == "html"@ { Some("html"@) }
    else if lower == "htm"@ { Some("html"@) }
    else if lower == "css"@ { Some("css"@) }
    else if lower == "scss"@ { Some("scss"@) }
    else if lower == "less"@ { Some("less"@) }
    else if lower == "json"@ { Some("json"@) }
    else if lower == "yaml"@ { Some("yaml"@) }
    else if lower == "yml"@ { Some("yaml"@) }
    else if lower == "toml"@ { Some("toml"@) }
    else if lower == "xml"@ { Some("xml"@) }
    else if lower == "md"@ { Some("markdown"@) }
    else if lower == "markdown"@ { Some("markdown"@) }
    else if lower == "r"@ { Some("r"@) }
    else if lower == "lua"@ { Some("lua"@) }
    else if lower == "perl"@ { Some("perl"@) }
    else if lower == "pl"@ { Some("perl"@) }
    else if lower == "vim"@ { Some("vim"@) }
    else if lower == "dockerfile"@ { Some("dockerfile"@) }
    else if lower == "makefile"@ { Some("makefile"@) }
    else { None }
}

/// The language for a file extension: the known language of its lowercase
/// form, or the extension itself.
pub open spec fn extension_language(ext: Seq<char>) -> Seq<char> {
    match known_language(std_lowercase(ext)) { Some(l) => l, None => ext }
}

/// The known language of a lowercased extension.
fn known_language_of(lower: &str) -> (r: Option<&'static str>)
    ensures
        match r { Some(l) => known_language(lower@) == Some(l@), None => known_language(lower@) is None },
{
    if str_eq(lower, "rs") {
        Some("rust")
    } else if str_eq(lower, "py") {
        Some("python")
    } else if str_eq(lower, "js") {
        Some("javascript")
    } else if str_eq(lower, "ts") {
        Some("typescript")
    } else if str_eq(lower, "jsx") {
        Some("javascript")
    } else if str_eq(lower, "tsx") {
        Some("typescript")
    } else if str_eq(lower, "rb") {
        Some("ruby")
    } else if str_eq(lower, "go") {
        Some("go")
    } else if str_eq(lower, "java") {
        Some("java")
    } else if str_eq(lower, "c") {
        Some("c")
    } else if str_eq(lower, "cpp") {
        Some("c++")
    } else if str_eq(lower, "cxx") {
        Some("c++")
    } else if str_eq(lower, "cc") {
        Some("c++")
    } else if str_eq(lower, "h") {
        Some("c++")
    } else if str_eq(lower, "hpp") {
        Some("c++")
    } else if str_eq(lower, "cs") {
        Some("c#")
    } else if str_eq(lower, "php") {
        Some("php")
    } else if str_eq(lower, "swift") {
        Some("swift")
    } else if str_eq(lower, "kt") {
        Some("kotlin")
    } else if str_eq(lower, "kts") {
        Some("kotlin")
    } else if str_eq(lower, "scala") {
        Some("scala")
    } else if str_eq(lower, "sh") {
        Some("bash")
    } else if str_eq(lower, "bash") {
        Some("bash")
    } else if str_eq(lower, "zsh") {
        Some("zsh")
    } else if str_eq(lower, "fish") {
        Some("fish")
    } else if str_eq(lower, "ps1") {
        Some("powershell")
    } else if str_eq(lower, "sql") {
        Some("sql")
    } else if str_eq(lower, "html") {
        Some("html")
    } else if str_eq(lower, "htm") {
        Some("html")
    } else if str_eq(lower, "css") {
        Some("css")
    } else if str_eq(lower, "scss") {
        Some("scss")
    } else if str_eq(lower, "less") {
        Some("less")
    } else if str_eq(lower, "json") {
        Some("json")
    } else if str_eq(lower, "yaml") {
        Some("yaml")
    } else if str_eq(lower, "yml") {
        Some("yaml")
    } else if str_eq(lower, "toml") {
        Some("toml")
    } else if str_eq(lower, "xml") {
        Some("xml")
    } else if str_eq(lower, "md") {
        Some("markdown")
    } else if str_eq(lower, "markdown") {
        Some("markdown")
    } else if str_eq(lower, "r") {
        Some("r")
    } else if str_eq(lower, "lua") {
        Some("lua")
    } else if str_eq(lower, "perl") {
        Some("perl")
    } else if str_eq(lower, "pl") {
        Some("perl")
    } else if str_eq(lower, "vim") {
        Some("vim")
    } else if str_eq(lower, "dockerfile") {
        Some("dockerfile")
    } else if str_eq(lower, "makefile") {
        Some("makefile")
    } else {
        None
    }
}

impl Syntax {
    /// Create a code block with the default settings.
    pub fn new(code: &str, language: &str) -> (s: Self)
        ensures
            s@ == default_syntax(code@, language@),
    {
        let style = match Style::new().checked_color_str("bright_black") { Some(Ok(s)) => s, _ => Style::default() };
        Syntax {
            code: owned(code),
            language: owned(language),
            line_numbers: false,
            start_line: 1,
            theme_name: owned("base16-ocean.dark"),
            background_color: None,
            indent_guides: false,
            tab_size: 4,
            word_wrap: None,
            line_number_style: style,
            padding: (0, 0),
        }
    }

    /// The language for a file extension (see `extension_language`).
    pub fn extension_to_language(ext: &str) -> (s: String)
        ensures
            s@ == extension_language(ext@),
    {
        let lower = to_lowercase(ext);
        match known_language_of(lower.as_str()) {
            Some(l) => owned(l),
            None => owned(ext),
        }
    }

    /// Enable or disable line numbers.
    pub fn line_numbers(self, enabled: bool) -> (s: Self)
        ensures
            s@ == (SyntaxModel { line_numbers: enabled, ..self@ }),
    {
        Syntax { line_numbers: enabled, ..self }
    }

    /// Set the starting line number (at least 1).
    pub fn start_line(self, line: usize) -> (s: Self)
        ensures
            s@ == (SyntaxModel { start_line: if line > 1 { line } else { 1 }, ..self@ }),
    {
        Syntax { start_line: if line > 1 { line } else { 1 }, ..self }
    }

    /// Set the theme.
    pub fn theme(self, theme_name: &str) -> (s: Self)
        ensures
            s@ == (SyntaxModel { theme_name: theme_name@, ..self@ }),
    {
        Syntax { theme_name: owned(theme_name), ..self }
    }

    /// Override the background color.
    pub fn background_color(self, color: Color) -> (s: Self)
        ensures
            s@ == (SyntaxModel { background_color: Some(color@), ..self@ }),
    {
        Syntax { background_color: Some(color), ..self }
    }

    /// Enable or disable indentation guides.
    pub fn indent_guides(self, enabled: bool) -> (s: Self)
        ensures
            s@ == (SyntaxModel { indent_guides: enabled, ..self@ }),
    {
        Syntax { indent_guides: enabled, ..self }
    }

    /// Set the tab size (at least 1).
    pub fn tab_size(self, size: usize) -> (s: Self)
        ensures
            s@ == (SyntaxModel { tab_size: if size > 1 { size } else { 1 }, ..self@ }),
    {
        Syntax { tab_size: if size > 1 { size } else { 1 }, ..self }
    }

    /// Set the word wrap width.
    pub fn word_wrap(self, width: Option<usize>) -> (s: Self)
        ensures
            s@ == (SyntaxModel { word_wrap: width, ..self@ }),
    {
        Syntax { word_wrap: width, ..self }
    }

    /// Set the line number style.
    pub fn line_number_style(self, style: Style) -> (s: Self)
        ensures
            s@ == (SyntaxModel { line_number_style: style@, ..self@ }),
    {
        Syntax { line_number_style: style, ..self }
    }

    /// Set the padding (vertical, horizontal).
    pub fn padding(self, vertical: usize, horizontal: usize) -> (s: Self)
        ensures
            s@ == (SyntaxModel { padding: (vertical, horizontal), ..self@ }),
    {
        Syntax { padding: (vertical, horizontal), ..self }
    }

    /// The code as plain text.
    pub fn plain_text(&self) -> (s: String)
        ensures
            s@ == self@.code,
    {
        self.code.clone()
    }
}

/// A line with indentation guides: where it starts with at least one tab
/// width of spaces, each leading space at a multiple of the tab size becomes
/// a guide character.
pub open spec fn indent_guided(line: Seq<char>, tab_size: nat) -> Seq<char> {
    let lead = leading_spaces(line, 0);
    if tab_size == 0 || lead < tab_size {
        line
    } else {
        Seq::new(line.len(), |i: int| if i < lead && i % (tab_size as int) == 0 { '\u{2502}' } else { line[i] })
    }
}

/// The number of spaces at the start of `line[from..]`.
pub open spec fn leading_spaces(line: Seq<char>, from: nat) -> nat
    decreases line.len() - from,
{
    if from >= line.len() || line[from as int] != ' ' { 0 } else { 1 + leading_spaces(line, from + 1) }
}

/// Add indentation guides to a line (see `indent_guided`).
pub fn apply_indent_guides(line: &str, tab_size: usize) -> (s: String)
    ensures
        s@ == indent_guided(line@, tab_size as nat),
{
    let v = crate::text_ops::chars_of(line);
    if tab_size == 0 {
        return owned(line);
    }
    let mut lead: usize = 0;
    while lead < v.len() && v[lead] == ' '
        invariant
            lead <= v@.len(),
            v@ == line@,
            leading_spaces(line@, 0) == lead + leading_spaces(line@, lead as nat),
        decreases v.len() - lead,
    {
        lead += 1;
    }
    if lead < tab_size {
        return owned(line);
    }
    let mut out = String::new();
    let mut i: usize = 0;
    while i < v.len()
        invariant
            i <= v@.len(),
            v@ == line@,
            tab_size > 0,
            lead == leading_spaces(line@, 0),
            lead >= tab_size,
            out@ == indent_guided(line@, tab_size as nat).take(i as int),
        decreases v.len() - i,
    {
        let c = if i < lead && i % tab_size == 0 { '\u{2502}' } else { v[i] };
        crate::text_ops::push_char(&mut out, c);
        i += 1;
        assert(out@ =~= indent_guided(line@, tab_size as nat).take(i as int));
    }
    assert(indent_guided(line@, tab_size as nat).take(v@.len() as int) =~= indent_guided(line@, tab_size as nat));
    out
}

} // verus!
