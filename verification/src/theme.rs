//! Themes: named styles, read from style definitions or from the
//! `[styles]` section of an INI text, and stacks of themes where each theme
//! may extend the one below.
use vstd::prelude::*;
use crate::renderables::json::{key_seqs, sorted_indices, sorted_order};
use crate::segment::{char_vecs, text_lines, text_lines_exec};
use crate::strings::{std_lowercase, std_trim, to_lowercase, trim};
use crate::style::{style_error_text, style_display, style_outcome, style_result_matches, Style, StyleModel, StyleOutcome, StyleParseError};
use crate::text_ops::{decimal, owned, push_char, push_str, str_eq, string_from_range};

verus! {

/// Named styles in order of first definition: each name once.
pub type StyleEntries = Seq<(Seq<char>, StyleModel)>;

/// The values of a list of named styles.
pub open spec fn entries_model(v: Seq<(String, Style)>) -> StyleEntries {
    v.map_values(|e: (String, Style)| (e.0@, e.1@))
}

/// The first position of `name` from `i` on.
pub open spec fn find_from(e: StyleEntries, name: Seq<char>, i: nat) -> Option<nat>
    decreases e.len() - i,
{
    if i >= e.len() {
        None
    } else if e[i as int].0 == name {
        Some(i)
    } else {
        find_from(e, name, i + 1)
    }
}

/// The position of `name`, where it is defined.
pub open spec fn find_name(e: StyleEntries, name: Seq<char>) -> Option<nat> {
    find_from(e, name, 0)
}

/// The style named `name`, where it is defined.
pub open spec fn lookup(e: StyleEntries, name: Seq<char>) -> Option<StyleModel> {
    match find_name(e, name) {
        Some(i) => Some(e[i as int].1),
        None => None,
    }
}

/// `name` defined as `style`: replacing its definition where it has one,
/// else added at the end.
pub open spec fn define(e: StyleEntries, name: Seq<char>, style: StyleModel) -> StyleEntries {
    match find_name(e, name) {
        Some(i) => e.update(i as int, (name, style)),
        None => e.push((name, style)),
    }
}

/// `base` with each definition of `more` applied in turn.
pub open spec fn extend_entries(base: StyleEntries, more: StyleEntries) -> StyleEntries
    decreases more.len(),
{
    if more.len() == 0 {
        base
    } else {
        let prev = extend_entries(base, more.drop_last());
        define(prev, more.last().0, more.last().1)
    }
}

/// The position of a name found from `i` on is where that name stands.
proof fn lemma_find_from(e: StyleEntries, name: Seq<char>, i: nat)
    ensures
        find_from(e, name, i) matches Some(k) ==> i <= k < e.len() && e[k as int].0 == name,
        find_from(e, name, i) is None ==> forall|j: int| i <= j < e.len() ==> e[j].0 != name,
    decreases e.len() - i,
{
    if i < e.len() && e[i as int].0 != name {
        lemma_find_from(e, name, i + 1);
    }
}

/// The position of `name` in a list of named styles (see `find_name`).
fn find_entry(v: &Vec<(String, Style)>, name: &str) -> (r: Option<usize>)
    ensures
        match r {
            Some(k) => find_name(entries_model(v@), name@) == Some(k as nat) && k < v@.len(),
            None => find_name(entries_model(v@), name@) is None,
        },
{
    let ghost e = entries_model(v@);
    let mut i: usize = 0;
    while i < v.len()
        invariant
            i <= v@.len(),
            e == entries_model(v@),
            find_name(e, name@) == find_from(e, name@, i as nat),
        decreases v.len() - i,
    {
        assert(e[i as int].0 == v@[i as int].0@);
        if str_eq(v[i].0.as_str(), name) {
            return Some(i);
        }
        i += 1;
    }
    None
}

/// Define `name` as `style` in a list of named styles (see `define`).
fn define_entry(v: &mut Vec<(String, Style)>, name: String, style: Style)
    ensures
        entries_model(final(v)@) == define(entries_model(old(v)@), name@, style@),
{
    let ghost e = entries_model(v@);
    let ghost nv = name@;
    let ghost sv = style@;
    match find_entry(v, name.as_str()) {
        Some(k) => {
            v.set(k, (name, style));
            assert(entries_model(v@) =~= e.update(k as int, (nv, sv)));
        },
        None => {
            v.push((name, style));
            assert(entries_model(v@) =~= e.push((nv, sv)));
        },
    }
}

/// A copy of a list of named styles.
fn copy_entries(v: &Vec<(String, Style)>) -> (r: Vec<(String, Style)>)
    ensures
        entries_model(r@) == entries_model(v@),
{
    let mut r: Vec<(String, Style)> = Vec::new();
    let mut i: usize = 0;
    while i < v.len()
        invariant
            i <= v@.len(),
            entries_model(r@) == entries_model(v@).take(i as int),
        decreases v.len() - i,
    {
        let ghost prev = r@;
        r.push((v[i].0.clone(), v[i].1.clone()));
        assert(entries_model(r@) =~= entries_model(prev).push((v@[i as int].0@, v@[i as int].1@)));
        i += 1;
        assert(entries_model(r@) =~= entries_model(v@).take(i as int));
    }
    assert(entries_model(v@).take(v@.len() as int) =~= entries_model(v@));
    r
}

/// Apply each definition of `more` to `base` (see `extend_entries`).
fn extend_with(base: &mut Vec<(String, Style)>, more: Vec<(String, Style)>)
    ensures
        entries_model(final(base)@) == extend_entries(entries_model(old(base)@), entries_model(more@)),
{
    let ghost b0 = entries_model(base@);
    let ghost m = entries_model(more@);
    let n = more.len();
    let mut i: usize = 0;
    assert(m.take(0) =~= Seq::<(Seq<char>, StyleModel)>::empty());
    while i < n
        invariant
            i <= n,
            n == more@.len(),
            m == entries_model(more@),
            entries_model(base@) == extend_entries(b0, m.take(i as int)),
        decreases n - i,
    {
        let name = more[i].0.clone();
        let style = more[i].1.clone();
        assert((name@, style@) == m[i as int]);
        define_entry(base, name, style);
        assert(m.take(i + 1).drop_last() =~= m.take(i as int));
        i += 1;
    }
    assert(m.take(n as int) =~= m);
}

/// Errors of reading a theme.
#[derive(Debug, PartialEq, Eq)]
pub enum ThemeError {
    /// The INI text has no `[styles]` section.
    MissingStylesSection,
    /// A line of the styles section is not `name = definition`.
    InvalidIniLine { line_no: usize, line: String },
    /// A name is defined twice in the styles section.
    DuplicateIniKey { line_no: usize, name: String },
    /// A style definition did not parse.
    InvalidStyle { name: String, err: StyleParseError },
}

impl ThemeError {
    /// The error message.
    pub fn to_display_string(&self) -> (s: String)
        ensures
            s@ == match *self {
                ThemeError::MissingStylesSection => "theme ini is missing a [styles] section"@,
                ThemeError::InvalidIniLine { line_no, line } => "invalid theme ini line "@ + decimal(line_no as nat)
                    + ": \""@ + line@ + seq!['"'],
                ThemeError::DuplicateIniKey { line_no, name } => "duplicate theme key \""@ + name@ + "\" at line "@
                    + decimal(line_no as nat),
                ThemeError::InvalidStyle { name, err } => "invalid style definition for theme key \""@ + name@
                    + "\": "@ + style_error_text(err),
            },
    {
        match self {
            ThemeError::MissingStylesSection => owned("theme ini is missing a [styles] section"),
            ThemeError::InvalidIniLine { line_no, line } => {
                let mut s = owned("invalid theme ini line ");
                crate::text_ops::push_decimal(&mut s, *line_no);
                push_str(&mut s, ": \"");
                push_str(&mut s, line.as_str());
                push_char(&mut s, '"');
                assert(s@ =~= "invalid theme ini line "@ + decimal(*line_no as nat) + ": \""@ + line@ + seq!['"']);
                s
            },
            ThemeError::DuplicateIniKey { line_no, name } => {
                let mut s = owned("duplicate theme key \"");
                push_str(&mut s, name.as_str());
                push_str(&mut s, "\" at line ");
                crate::text_ops::push_decimal(&mut s, *line_no);
                assert(s@ =~= "duplicate theme key \""@ + name@ + "\" at line "@ + decimal(*line_no as nat));
                s
            },
            ThemeError::InvalidStyle { name, err } => {
                let mut s = owned("invalid style definition for theme key \"");
                push_str(&mut s, name.as_str());
                push_str(&mut s, "\": ");
                push_str(&mut s, err.to_display_string().as_str());
                assert(s@ =~= "invalid style definition for theme key \""@ + name@ + "\": "@ + style_error_text(*err));
                s
            },
        }
    }
}

/// The error of popping the base theme of a stack.
#[derive(Debug, Clone, Copy, PartialEq, Eq, Structural)]
pub struct ThemeStackError;

impl ThemeStackError {
    /// The error message.
    pub fn to_display_string(&self) -> (s: String)
        ensures
            s@ == "Unable to pop base theme"@,
    {
        owned("Unable to pop base theme")
    }
}

/// A set of named styles.
#[derive(Debug)]
pub struct Theme {
    styles: Vec<(String, Style)>,
}

impl View for Theme {
    type V = StyleEntries;

    closed spec fn view(&self) -> StyleEntries {
        entries_model(self.styles@)
    }
}

/// The result of parsing a style definition, where parsing completes.
pub open spec fn parsed_style(definition: Seq<char>) -> Option<StyleModel> {
    match style_outcome(definition) {
        StyleOutcome::Parsed(m) => Some(m),
        _ => None,
    }
}

impl Theme {
    /// A theme of the given named styles; with `inherit`, over the built-in
    /// styles, of which this library bundles none.
    pub fn new(styles: Option<Vec<(String, Style)>>, inherit: bool) -> (t: Self)
        ensures
            t@ == match styles {
                Some(s) => extend_entries(Seq::empty(), entries_model(s@)),
                None => Seq::empty(),
            },
    {
        let mut merged: Vec<(String, Style)> = Vec::new();
        assert(entries_model(merged@) =~= Seq::<(Seq<char>, StyleModel)>::empty());
        match styles {
            Some(s) => extend_with(&mut merged, s),
            None => {},
        }
        Theme { styles: merged }
    }

    /// The style named `name` (see `lookup`).
    pub fn get(&self, name: &str) -> (r: Option<&Style>)
        ensures
            match r {
                Some(s) => lookup(self@, name@) == Some(s@),
                None => lookup(self@, name@) is None,
            },
    {
        match find_entry(&self.styles, name) {
            Some(k) => Some(&self.styles[k].1),
            None => None,
        }
    }

    /// A theme of parsed style definitions, applied in order; the first
    /// definition that does not parse is an error.
    pub fn from_style_definitions(defs: Vec<(&str, &str)>, inherit: bool) -> (r: Result<Theme, ThemeError>)
        requires
            forall|i: int| 0 <= i < defs@.len() ==> !(style_outcome((#[trigger] defs@[i]).1@) is Panics),
        ensures
            (forall|i: int| 0 <= i < defs@.len() ==> parsed_style((#[trigger] defs@[i]).1@) is Some) ==> (r matches Ok(t)
                && t@ == extend_entries(
                Seq::empty(),
                Seq::new(defs@.len(), |i: int| (defs@[i].0@, parsed_style(defs@[i].1@)->0)),
            )),
            r matches Err(ThemeError::InvalidStyle { name, err }) ==> (exists|i: int| 0 <= i < defs@.len()
                && name@ == (#[trigger] defs@[i]).0@ && style_result_matches(
                Err(err),
                style_outcome(defs@[i].1@),
            ) && forall|j: int| 0 <= j < i ==> parsed_style((#[trigger] defs@[j]).1@) is Some),
            r matches Err(e) ==> e is InvalidStyle,
    {
        let ghost want = Seq::new(defs@.len(), |i: int| (defs@[i].0@, parsed_style(defs@[i].1@)->0));
        let mut parsed: Vec<(String, Style)> = Vec::new();
        let mut i: usize = 0;
        while i < defs.len()
            invariant
                i <= defs@.len(),
                forall|k: int| 0 <= k < defs@.len() ==> !(style_outcome((#[trigger] defs@[k]).1@) is Panics),
                forall|k: int| 0 <= k < i ==> parsed_style((#[trigger] defs@[k]).1@) is Some,
                want == Seq::new(defs@.len(), |k: int| (defs@[k].0@, parsed_style(defs@[k].1@)->0)),
                entries_model(parsed@) == want.take(i as int),
            decreases defs.len() - i,
        {
            let (name, definition) = defs[i];
            match Style::parse(definition) {
                Ok(style) => {
                    let ghost prev = parsed@;
                    let ghost sv = style@;
                    assert(parsed_style(definition@) == Some(sv));
                    assert(defs@[i as int].0@ == name@ && defs@[i as int].1@ == definition@);
                    assert(want[i as int] == (name@, sv));
                    parsed.push((owned(name), style));
                    assert(entries_model(parsed@) =~= entries_model(prev).push((name@, sv)));
                    assert(entries_model(parsed@) =~= want.take(i + 1));
                },
                Err(err) => {
                    return Err(ThemeError::InvalidStyle { name: owned(name), err });
                },
            }
            i += 1;
        }
        assert(want.take(defs@.len() as int) =~= want);
        Ok(Theme::new(Some(parsed), inherit))
    }

    /// The theme as INI text: a `[styles]` header, then `name = style` for
    /// each name in sorted order.
    pub fn config(&self) -> (s: String)
        ensures
            s@ == config_text(self@),
    {
        let mut names: Vec<String> = Vec::new();
        let mut i: usize = 0;
        while i < self.styles.len()
            invariant
                i <= self.styles@.len(),
                names@.len() == i,
                key_seqs(names@) == Seq::new(i as nat, |k: int| self@[k].0),
            decreases self.styles.len() - i,
        {
            let ghost prev = names@;
            assert(self@[i as int].0 == self.styles@[i as int].0@);
            names.push(self.styles[i].0.clone());
            assert(key_seqs(names@) =~= key_seqs(prev).push(self@[i as int].0));
            i += 1;
            assert(key_seqs(names@) =~= Seq::new(i as nat, |k: int| self@[k].0));
        }
        let order = sorted_indices(&names);
        let ghost ord = sorted_order(theme_names(self@), self@.len());
        assert(key_seqs(names@) == theme_names(self@));
        let mut out = owned("[styles]\n");
        let ghost head = out@;
        let mut j: usize = 0;
        while j < order.len()
            invariant
                j <= order@.len(),
                order@.len() == self@.len(),
                order@.map_values(|n: usize| n as nat) == ord,
                forall|k: int| 0 <= k < order@.len() ==> #[trigger] order@[k] < self@.len(),
                out@ == head + config_lines(self@, ord, j as nat),
            decreases order.len() - j,
        {
            let k = order[j];
            assert(ord[j as int] == k as nat);
            let e = &self.styles[k];
            push_str(&mut out, e.0.as_str());
            push_str(&mut out, " = ");
            push_str(&mut out, e.1.to_display_string().as_str());
            push_char(&mut out, '\n');
            assert(self@[k as int] == (e.0@, e.1@));
            j += 1;
            assert(out@ =~= head + config_lines(self@, ord, j as nat));
        }
        out
    }
}

/// The names of a theme's styles, in order.
pub open spec fn theme_names(e: StyleEntries) -> Seq<Seq<char>> {
    Seq::new(e.len(), |k: int| e[k].0)
}

/// The first `j` lines of a theme's INI text, names in the order `ord`.
pub open spec fn config_lines(e: StyleEntries, ord: Seq<nat>, j: nat) -> Seq<char>
    decreases j,
{
    if j == 0 || j > ord.len() {
        Seq::empty()
    } else {
        let entry = e[ord[j - 1] as int];
        config_lines(e, ord, (j - 1) as nat) + entry.0 + " = "@ + style_display(entry.1) + seq!['\n']
    }
}

/// A theme's INI text: the header and a line per name, names sorted.
pub open spec fn config_text(e: StyleEntries) -> Seq<char> {
    "[styles]\n"@ + config_lines(e, sorted_order(theme_names(e), e.len()), e.len())
}

/// The state of reading an INI text: whether the current section is
/// `[styles]`, whether such a section was seen, and the styles read.
pub struct IniState {
    pub in_styles: bool,
    pub seen: bool,
    pub styles: StyleEntries,
}

/// The value of an error of reading an INI text.
pub enum IniError {
    /// No `[styles]` section.
    Missing,
    /// A line (numbered from 1) that is not `name = definition`.
    InvalidLine(nat, Seq<char>),
    /// A name defined twice, at this line.
    Duplicate(nat, Seq<char>),
    /// A definition of this name that did not parse.
    InvalidStyle(Seq<char>, Seq<char>),
}

/// Whether two strings are equal ignoring ASCII case.
pub open spec fn ascii_ci_eq(a: Seq<char>, b: Seq<char>) -> bool {
    a.len() == b.len() && forall|i: int| 0 <= i < a.len() ==> ascii_lower(#[trigger] a[i]) == ascii_lower(b[i])
}

/// The code of a character with ASCII capitals made small.
pub open spec fn ascii_lower(c: char) -> u32 {
    if 'A' <= c <= 'Z' { ((c as u32) + 32) as u32 } else { c as u32 }
}

/// The first position of `c`.
pub open spec fn first_pos(s: Seq<char>, c: char, i: nat) -> Option<nat>
    decreases s.len() - i,
{
    if i >= s.len() {
        None
    } else if s[i as int] == c {
        Some(i)
    } else {
        first_pos(s, c, i + 1)
    }
}

/// A line split at its first `=`, else at its first `:`.
pub open spec fn split_definition(line: Seq<char>) -> Option<(Seq<char>, Seq<char>)> {
    let p = match first_pos(line, '=', 0) {
        Some(p) => Some(p),
        None => first_pos(line, ':', 0),
    };
    match p {
        Some(p) => Some((line.take(p as int), line.skip((p + 1) as int))),
        None => None,
    }
}

/// Whether a trimmed line is skipped: empty or a comment.
pub open spec fn is_comment(line: Seq<char>) -> bool {
    line.len() == 0 || line[0] == '#' || line[0] == ';'
}

/// Whether a trimmed line is a section header.
pub open spec fn is_section(line: Seq<char>) -> bool {
    line.len() > 0 && line[0] == '[' && line.last() == ']'
}

/// The definition a line of the styles section gives to a (non-empty) name.
pub open spec fn line_entry(s: IniState, raw: Seq<char>) -> Option<(Seq<char>, Seq<char>)> {
    let line = std_trim(raw);
    if is_comment(line) || is_section(line) || !s.in_styles {
        None
    } else {
        match split_definition(line) {
            Some((n, d)) => {
                let name = std_lowercase(std_trim(n));
                if name.len() == 0 { None } else { Some((name, std_trim(d))) }
            },
            None => None,
        }
    }
}

/// The state after line `k` (numbered from 0) of an INI text.
pub open spec fn ini_step(s: IniState, k: nat, raw: Seq<char>) -> Result<IniState, IniError> {
    let line = std_trim(raw);
    if is_comment(line) {
        Ok(s)
    } else if is_section(line) {
        let is = ascii_ci_eq(std_trim(line.subrange(1, line.len() - 1 as int)), "styles"@);
        Ok(IniState { in_styles: is, seen: s.seen || is, styles: s.styles })
    } else if !s.in_styles {
        Ok(s)
    } else {
        match line_entry(s, raw) {
            None => Err(IniError::InvalidLine(k + 1, raw)),
            Some((name, def)) => match parsed_style(def) {
                None => Err(IniError::InvalidStyle(name, def)),
                Some(st) => if find_name(s.styles, name) is Some {
                    Err(IniError::Duplicate(k + 1, name))
                } else {
                    Ok(IniState { in_styles: s.in_styles, seen: s.seen, styles: s.styles.push((name, st)) })
                },
            },
        }
    }
}

/// The state after the first `k` lines, or the first error.
pub open spec fn ini_run(lines: Seq<Seq<char>>, k: nat) -> Result<IniState, IniError>
    decreases k,
{
    if k == 0 || k > lines.len() {
        Ok(IniState { in_styles: false, seen: false, styles: Seq::empty() })
    } else {
        match ini_run(lines, (k - 1) as nat) {
            Err(e) => Err(e),
            Ok(s) => ini_step(s, (k - 1) as nat, lines[k - 1]),
        }
    }
}

/// The styles an INI text defines, or its error: no `[styles]` section is
/// an error too.
pub open spec fn ini_result(contents: Seq<char>) -> Result<StyleEntries, IniError> {
    let lines = text_lines(contents);
    match ini_run(lines, lines.len()) {
        Err(e) => Err(e),
        Ok(s) => if s.seen { Ok(s.styles) } else { Err(IniError::Missing) },
    }
}

/// Whether no style definition of an INI text makes the style parser cut a
/// character apart.
pub open spec fn ini_ok(contents: Seq<char>) -> bool {
    let lines = text_lines(contents);
    forall|k: nat| k < lines.len() ==> (#[trigger] ini_run(lines, k) matches Ok(s) ==> (line_entry(s, lines[k as int])
        matches Some(e) ==> !(style_outcome(e.1) is Panics)))
}

/// An error is the one its value describes.
pub open spec fn ini_error_matches(e: ThemeError, m: IniError) -> bool {
    match m {
        IniError::Missing => e is MissingStylesSection,
        IniError::InvalidLine(n, l) => e matches ThemeError::InvalidIniLine { line_no, line } && line_no == n
            && line@ == l,
        IniError::Duplicate(n, name) => e matches ThemeError::DuplicateIniKey { line_no, name: x } && line_no == n
            && x@ == name,
        IniError::InvalidStyle(name, def) => e matches ThemeError::InvalidStyle { name: x, err } && x@ == name
            && style_result_matches(Err(err), style_outcome(def)),
    }
}

/// The first position of `c` in `v` (see `first_pos`).
fn first_pos_exec(v: &Vec<char>, c: char) -> (r: Option<usize>)
    ensures
        match r {
            Some(p) => first_pos(v@, c, 0) == Some(p as nat) && p < v@.len(),
            None => first_pos(v@, c, 0) is None,
        },
{
    let mut i: usize = 0;
    while i < v.len()
        invariant
            i <= v@.len(),
            first_pos(v@, c, 0) == first_pos(v@, c, i as nat),
        decreases v.len() - i,
    {
        if v[i] == c {
            return Some(i);
        }
        i += 1;
    }
    None
}

/// Whether the characters equal `styles` ignoring ASCII case.
fn is_styles_name(v: &Vec<char>) -> (r: bool)
    ensures
        r == ascii_ci_eq(v@, "styles"@),
{
    let want = crate::text_ops::chars_of("styles");
    if v.len() != want.len() {
        return false;
    }
    let mut i: usize = 0;
    while i < v.len()
        invariant
            i <= v@.len(),
            v@.len() == want@.len(),
            want@ == "styles"@,
            forall|j: int| 0 <= j < i ==> ascii_lower(#[trigger] v@[j]) == ascii_lower(want@[j]),
        decreases v.len() - i,
    {
        let a = v[i];
        let b = want[i];
        let la: u32 = if 'A' <= a && a <= 'Z' { (a as u32) + 32 } else { a as u32 };
        let lb: u32 = if 'A' <= b && b <= 'Z' { (b as u32) + 32 } else { b as u32 };
        if la != lb {
            return false;
        }
        i += 1;
    }
    true
}

/// One line of an INI text (see `ini_step`).
fn ini_line(styles: &mut Vec<(String, Style)>, in_styles: &mut bool, seen: &mut bool, k: usize, raw: &Vec<char>)
    -> (r: Result<(), ThemeError>)
    requires
        k < usize::MAX,
        line_entry(
            IniState { in_styles: *old(in_styles), seen: *old(seen), styles: entries_model(old(styles)@) },
            raw@,
        ) matches Some(e) ==> !(style_outcome(e.1) is Panics),
    ensures
        match ini_step(
            IniState { in_styles: *old(in_styles), seen: *old(seen), styles: entries_model(old(styles)@) },
            k as nat,
            raw@,
        ) {
            Ok(s) => r is Ok && s == (IniState {
                in_styles: *final(in_styles),
                seen: *final(seen),
                styles: entries_model(final(styles)@),
            }),
            Err(m) => r matches Err(e) && ini_error_matches(e, m),
        },
{
    let raw_s = crate::text_ops::string_from_chars(raw);
    let line_s = trim(raw_s.as_str());
    let line = crate::text_ops::chars_of(line_s);
    if line.len() == 0 || line[0] == '#' || line[0] == ';' {
        return Ok(());
    }
    if line[0] == '[' && line[line.len() - 1] == ']' {
        let inner = string_from_range(&line, 1, line.len() - 1);
        let section = crate::text_ops::chars_of(trim(inner.as_str()));
        let is = is_styles_name(&section);
        *in_styles = is;
        *seen = *seen || is;
        return Ok(());
    }
    if !*in_styles {
        return Ok(());
    }
    let p = match first_pos_exec(&line, '=') {
        Some(p) => Some(p),
        None => first_pos_exec(&line, ':'),
    };
    let p = match p {
        Some(p) => p,
        None => {
            return Err(ThemeError::InvalidIniLine { line_no: k + 1, line: raw_s });
        },
    };
    let name_part = string_from_range(&line, 0, p);
    assert(line@.subrange(0, p as int) =~= line@.take(p as int));
    let def_part = string_from_range(&line, p + 1, line.len());
    assert(line@.subrange(p + 1, line@.len() as int) =~= line@.skip((p + 1) as int));
    let name = to_lowercase(trim(name_part.as_str()));
    if name.as_str().is_empty() {
        return Err(ThemeError::InvalidIniLine { line_no: k + 1, line: raw_s });
    }
    let def = trim(def_part.as_str());
    match Style::parse(def) {
        Err(err) => Err(ThemeError::InvalidStyle { name, err }),
        Ok(style) => {
            if find_entry(styles, name.as_str()).is_some() {
                return Err(ThemeError::DuplicateIniKey { line_no: k + 1, name });
            }
            let ghost prev = entries_model(styles@);
            let ghost nv = name@;
            let ghost sv = style@;
            styles.push((name, style));
            assert(entries_model(styles@) =~= prev.push((nv, sv)));
            Ok(())
        },
    }
}

/// Once reading an INI text fails, the error stays.
proof fn lemma_ini_error_stays(lines: Seq<Seq<char>>, j: nat, n: nat)
    requires
        j <= n <= lines.len(),
        ini_run(lines, j) is Err,
    ensures
        ini_run(lines, n) == ini_run(lines, j),
    decreases n - j,
{
    if j < n {
        lemma_ini_error_stays(lines, j + 1, n);
    }
}

impl Theme {
    /// A theme from the `[styles]` section of an INI text (see `ini_result`).
    pub fn from_ini_str(contents: &str, inherit: bool) -> (r: Result<Theme, ThemeError>)
        requires
            ini_ok(contents@),
        ensures
            match ini_result(contents@) {
                Ok(styles) => r matches Ok(t) && t@ == extend_entries(Seq::empty(), styles),
                Err(m) => r matches Err(e) && ini_error_matches(e, m),
            },
    {
        let lines = text_lines_exec(contents);
        let ghost ls = text_lines(contents@);
        let mut styles: Vec<(String, Style)> = Vec::new();
        let mut in_styles = false;
        let mut seen = false;
        let mut k: usize = 0;
        assert(entries_model(styles@) =~= Seq::<(Seq<char>, StyleModel)>::empty());
        while k < lines.len()
            invariant
                k <= lines@.len(),
                char_vecs(lines@) == ls,
                ls == text_lines(contents@),
                ini_ok(contents@),
                ini_run(ls, k as nat) == Ok::<IniState, IniError>(IniState {
                    in_styles,
                    seen,
                    styles: entries_model(styles@),
                }),
            decreases lines.len() - k,
        {
            let ghost s0 = IniState { in_styles, seen, styles: entries_model(styles@) };
            proof {
                assert(ls[k as int] == lines@[k as int]@);
                assert(ini_run(ls, k as nat) matches Ok(s) ==> (line_entry(s, ls[k as int]) matches Some(e) ==> !(
                style_outcome(e.1) is Panics)));
                assert(ini_run(ls, (k + 1) as nat) == ini_step(s0, k as nat, ls[k as int]));
            }
            match ini_line(&mut styles, &mut in_styles, &mut seen, k, &lines[k]) {
                Ok(()) => {},
                Err(e) => {
                    proof {
                        lemma_ini_error_stays(ls, (k + 1) as nat, ls.len());
                    }
                    return Err(e);
                },
            }
            k += 1;
        }
        if !seen {
            return Err(ThemeError::MissingStylesSection);
        }
        Ok(Theme::new(Some(styles), inherit))
    }
}

/// A stack of themes; the bottom one is the base.
#[derive(Debug)]
pub struct ThemeStack {
    entries: Vec<Vec<(String, Style)>>,
}

impl View for ThemeStack {
    type V = Seq<StyleEntries>;

    closed spec fn view(&self) -> Seq<StyleEntries> {
        self.entries@.map_values(|t: Vec<(String, Style)>| entries_model(t@))
    }
}

/// The stack after pushing a theme: its styles, over the top theme's
/// where it inherits.
pub open spec fn pushed(stack: Seq<StyleEntries>, theme: StyleEntries, inherit: bool) -> Seq<StyleEntries> {
    stack.push(if inherit && stack.len() > 0 { extend_entries(stack.last(), theme) } else { theme })
}

impl ThemeStack {
    /// Whether the stack has its base theme.
    pub open spec fn well_formed(&self) -> bool {
        self@.len() >= 1
    }

    /// A stack holding one base theme.
    pub fn new(theme: Theme) -> (s: Self)
        ensures
            s@ == seq![theme@],
            s.well_formed(),
    {
        let ghost tv = theme@;
        let s = ThemeStack { entries: vec![theme.styles] };
        assert(s@ =~= seq![tv]);
        s
    }

    /// The style named `name` in the top theme.
    pub fn get(&self, name: &str) -> (r: Option<&Style>)
        requires
            self.well_formed(),
        ensures
            match r {
                Some(s) => lookup(self@.last(), name@) == Some(s@),
                None => lookup(self@.last(), name@) is None,
            },
    {
        let top = &self.entries[self.entries.len() - 1];
        assert(entries_model(top@) == self@.last());
        match find_entry(top, name) {
            Some(k) => Some(&top[k].1),
            None => None,
        }
    }

    /// Push a theme, over the top theme's styles where it inherits.
    pub fn push_theme(&mut self, theme: Theme, inherit: bool)
        requires
            old(self).well_formed(),
        ensures
            final(self)@ == pushed(old(self)@, theme@, inherit),
            final(self).well_formed(),
    {
        let ghost before = self@;
        let ghost tv = theme@;
        let styles = if inherit {
            let mut merged = copy_entries(&self.entries[self.entries.len() - 1]);
            extend_with(&mut merged, theme.styles);
            merged
        } else {
            theme.styles
        };
        let ghost sv = entries_model(styles@);
        self.entries.push(styles);
        assert(self@ =~= before.push(sv));
    }

    /// Pop the top theme; the base theme cannot be popped.
    pub fn pop_theme(&mut self) -> (r: Result<(), ThemeStackError>)
        requires
            old(self).well_formed(),
        ensures
            old(self)@.len() == 1 ==> r is Err && final(self)@ == old(self)@,
            old(self)@.len() > 1 ==> r is Ok && final(self)@ == old(self)@.drop_last(),
            final(self).well_formed(),
    {
        if self.entries.len() == 1 {
            return Err(ThemeStackError);
        }
        let ghost before = self@;
        let _ = self.entries.pop();
        assert(self@ =~= before.drop_last());
        Ok(())
    }
}

/// Law: popping a theme undoes pushing it.
pub proof fn law_pop_undoes_push(stack: Seq<StyleEntries>, theme: StyleEntries, inherit: bool)
    ensures
        pushed(stack, theme, inherit).drop_last() == stack,
        pushed(stack, theme, inherit).len() > 1 || stack.len() == 0,
{
    assert(pushed(stack, theme, inherit).drop_last() =~= stack);
}

} // verus!
