//! Json - JSON data rendered with indentation and syntax highlighting.
//!
//! A document is held as a `JsonValue`; arrays and objects are laid out one
//! item per line, indented by depth, and nesting deeper than twenty levels is
//! shown as `[...]` or `{...}`.
use vstd::prelude::*;
use crate::renderables::markdown::{colored_or_default, with_color_or_default};
use crate::segment::{plain_model, push_seg, push_segs, segs_model, Segment, SegmentModel};
use crate::style::{empty_style_model, opt_style_model, with_attr_model, Style, StyleModel};
use crate::text_ops::{digit_to_char, owned, push_char, push_str, repeat_char, spaces};

verus! {

/// A JSON value. Numbers keep the text they are written with; object
/// entries keep their order.
#[derive(Debug, PartialEq, Eq)]
pub enum JsonValue {
    /// `null`.
    Null,
    /// `true` or `false`.
    Bool(bool),
    /// A number, as written.
    Number(String),
    /// A string.
    Str(String),
    /// An array.
    Array(Vec<JsonValue>),
    /// An object's entries.
    Object(Vec<(String, JsonValue)>),
}

/// Styles for the parts of a JSON document.
#[derive(Debug, Clone)]
pub struct JsonTheme {
    /// Object keys.
    pub key: Style,
    /// String values.
    pub string: Style,
    /// Numbers.
    pub number: Style,
    /// `true` and `false`.
    pub boolean: Style,
    /// `null`.
    pub null: Style,
    /// Brackets and braces.
    pub bracket: Style,
    /// Colons and commas.
    pub punctuation: Style,
}

/// The value of a theme: its styles in field order.
pub open spec fn theme_model(t: JsonTheme) -> Seq<StyleModel> {
    seq![t.key@, t.string@, t.number@, t.boolean@, t.null@, t.bracket@, t.punctuation@]
}

/// The default theme's styles, in field order.
pub open spec fn default_theme_model() -> Seq<StyleModel> {
    seq![
        with_attr_model(colored_or_default(empty_style_model(false), "blue"@), 1),
        colored_or_default(empty_style_model(false), "green"@),
        with_attr_model(colored_or_default(empty_style_model(false), "cyan"@), 1),
        with_attr_model(colored_or_default(empty_style_model(false), "yellow"@), 1),
        with_attr_model(colored_or_default(empty_style_model(false), "magenta"@), 4),
        with_attr_model(empty_style_model(false), 1),
        empty_style_model(false),
    ]
}

impl Default for JsonTheme {
    /// Bold blue keys, green strings, bold cyan numbers, bold yellow
    /// booleans, italic magenta nulls, bold brackets, plain punctuation.
    fn default() -> (t: Self)
        ensures
            theme_model(t) == default_theme_model(),
    {
        JsonTheme {
            key: with_color_or_default(Style::new(), "blue").bold(),
            string: with_color_or_default(Style::new(), "green"),
            number: with_color_or_default(Style::new(), "cyan").bold(),
            boolean: with_color_or_default(Style::new(), "yellow").bold(),
            null: with_color_or_default(Style::new(), "magenta").italic(),
            bracket: Style::new().bold(),
            punctuation: Style::new(),
        }
    }
}

/// A JSON document with its rendering settings.
#[derive(Debug)]
pub struct Json {
    /// The document.
    pub value: JsonValue,
    /// Spaces per level of indentation.
    pub indent: usize,
    /// Whether object keys are shown sorted.
    pub sort_keys: bool,
    /// Whether parts are styled.
    pub highlight: bool,
    /// The styles.
    pub theme: JsonTheme,
}

/// Whether a character is a control character (general category Cc).
pub open spec fn is_control(c: char) -> bool {
    (c as u32) < 0x20 || (0x7f <= (c as u32) && (c as u32) <= 0x9f)
}

/// A lowercase hex digit.
pub open spec fn hex_char(d: nat) -> char {
    if d < 10 { ((d + 48) as u32) as char } else { ((d + 87) as u32) as char }
}

/// `\u` and four lowercase hex digits of a code point below 0x10000.
pub open spec fn unicode_escape(n: nat) -> Seq<char> {
    seq!['\\', 'u', hex_char((n / 4096) % 16), hex_char((n / 256) % 16), hex_char((n / 16) % 16), hex_char(n % 16)]
}

/// The escape of one character in a JSON string.
pub open spec fn escape_char(c: char) -> Seq<char> {
    if c == '"' {
        seq!['\\', '"']
    } else if c == '\\' {
        seq!['\\', '\\']
    } else if c == '\n' {
        seq!['\\', 'n']
    } else if c == '\r' {
        seq!['\\', 'r']
    } else if c == '\t' {
        seq!['\\', 't']
    } else if is_control(c) {
        unicode_escape((c as u32) as nat)
    } else {
        seq![c]
    }
}

/// A string with its quotes, backslashes and control characters escaped.
pub open spec fn escape_json(s: Seq<char>) -> Seq<char>
    decreases s.len(),
{
    if s.len() == 0 { Seq::empty() } else { escape_json(s.drop_last()) + escape_char(s.last()) }
}

/// The hex digit character for `d` (below sixteen).
fn hex_digit(d: u32) -> (c: char)
    requires
        d < 16,
    ensures
        c == hex_char(d as nat),
{
    if d < 10 {
        digit_to_char(d as usize)
    } else {
        let cs = ['a', 'b', 'c', 'd', 'e', 'f'];
        let c = cs[(d - 10) as usize];
        assert(c == hex_char(d as nat)) by {
            assert(((97u32) as char) == 'a');
            assert(((98u32) as char) == 'b');
            assert(((99u32) as char) == 'c');
            assert(((100u32) as char) == 'd');
            assert(((101u32) as char) == 'e');
            assert(((102u32) as char) == 'f');
        }
        c
    }
}

/// Escape a string for JSON (see `escape_json`).
pub fn escape_json_string(s: &str) -> (r: String)
    ensures
        r@ == escape_json(s@),
{
    let v = crate::text_ops::chars_of(s);
    let mut r = String::new();
    let mut i: usize = 0;
    while i < v.len()
        invariant
            i <= v@.len(),
            v@ == s@,
            r@ == escape_json(v@.take(i as int)),
        decreases v.len() - i,
    {
        assert(v@.take(i + 1).drop_last() =~= v@.take(i as int));
        let c = v[i];
        let ghost before = r@;
        if c == '"' {
            push_char(&mut r, '\\');
            push_char(&mut r, '"');
        } else if c == '\\' {
            push_char(&mut r, '\\');
            push_char(&mut r, '\\');
        } else if c == '\n' {
            push_char(&mut r, '\\');
            push_char(&mut r, 'n');
        } else if c == '\r' {
            push_char(&mut r, '\\');
            push_char(&mut r, 'r');
        } else if c == '\t' {
            push_char(&mut r, '\\');
            push_char(&mut r, 't');
        } else if (c as u32) < 0x20 || (0x7f <= (c as u32) && (c as u32) <= 0x9f) {
            let n = c as u32;
            push_char(&mut r, '\\');
            push_char(&mut r, 'u');
            push_char(&mut r, hex_digit((n / 4096) % 16));
            push_char(&mut r, hex_digit((n / 256) % 16));
            push_char(&mut r, hex_digit((n / 16) % 16));
            push_char(&mut r, hex_digit(n % 16));
            assert(is_control(c));
            assert(r@ =~= before + unicode_escape(n as nat));
        } else {
            push_char(&mut r, c);
        }
        assert(r@ =~= before + escape_char(c));
        i += 1;
    }
    assert(v@.take(v@.len() as int) =~= v@);
    r
}

/// Whether `a` sorts before `b` character by character.
pub open spec fn key_less(a: Seq<char>, b: Seq<char>) -> bool
    decreases a.len(),
{
    if b.len() == 0 {
        false
    } else if a.len() == 0 {
        true
    } else if a[0] != b[0] {
        (a[0] as u32) < (b[0] as u32)
    } else {
        key_less(a.drop_first(), b.drop_first())
    }
}

/// `x` inserted into `order` before the first index whose key sorts after
/// its key.
pub open spec fn insert_index(keys: Seq<Seq<char>>, order: Seq<nat>, x: nat) -> Seq<nat>
    decreases order.len(),
{
    if order.len() == 0 {
        seq![x]
    } else if key_less(keys[x as int], keys[order[0] as int]) {
        seq![x] + order
    } else {
        seq![order[0]] + insert_index(keys, order.drop_first(), x)
    }
}

/// The indices of the first `k` keys in sorted order, equal keys in their
/// order of appearance.
pub open spec fn sorted_order(keys: Seq<Seq<char>>, k: nat) -> Seq<nat>
    decreases k,
{
    if k == 0 { Seq::empty() } else { insert_index(keys, sorted_order(keys, (k - 1) as nat), (k - 1) as nat) }
}

/// The keys of object entries.
pub open spec fn entry_keys(o: Seq<(String, JsonValue)>) -> Seq<Seq<char>> {
    Seq::new(o.len(), |i: int| o[i].0@)
}

/// The order in which object entries are shown.
pub open spec fn entry_order(o: Seq<(String, JsonValue)>, sort: bool) -> Seq<nat> {
    if sort { sorted_order(entry_keys(o), o.len()) } else { Seq::new(o.len(), |i: int| i as nat) }
}

/// The settings that rendering uses.
pub struct JsonCfg {
    pub indent: nat,
    pub sort_keys: bool,
    pub highlight: bool,
    pub theme: Seq<StyleModel>,
}

/// A style where highlighting is on.
pub open spec fn hl(c: JsonCfg, k: int) -> Option<StyleModel> {
    if c.highlight { Some(c.theme[k]) } else { None }
}

/// The deepest level that is laid out.
pub open spec fn max_depth() -> nat {
    20
}

/// A value rendered at `depth`: scalars as one segment; arrays and objects
/// one item per line, indented, with commas between items.
pub open spec fn value_segs(c: JsonCfg, v: JsonValue, depth: nat) -> Seq<SegmentModel>
    decreases v, 0nat,
{
    match v {
        JsonValue::Null => seq![plain_model("null"@, hl(c, 4))],
        JsonValue::Bool(b) => seq![plain_model(if b { "true"@ } else { "false"@ }, hl(c, 3))],
        JsonValue::Number(n) => seq![plain_model(n@, hl(c, 2))],
        JsonValue::Str(s) => seq![plain_model(seq!['"'] + escape_json(s@) + seq!['"'], hl(c, 1))],
        JsonValue::Array(a) => if depth > max_depth() {
            seq![plain_model("[...]"@, hl(c, 5))]
        } else if a@.len() == 0 {
            seq![plain_model("[]"@, hl(c, 5))]
        } else {
            seq![plain_model(seq!['['], hl(c, 5)), plain_model(seq!['\n'], None)] + array_items(c, a, depth, a@.len())
                + seq![plain_model(spaces(c.indent * depth), None), plain_model(seq![']'], hl(c, 5))]
        },
        JsonValue::Object(o) => if depth > max_depth() {
            seq![plain_model("{...}"@, hl(c, 5))]
        } else if o@.len() == 0 {
            seq![plain_model("{}"@, hl(c, 5))]
        } else {
            seq![plain_model(seq!['{'], hl(c, 5)), plain_model(seq!['\n'], None)] + object_items(c, o, depth, o@.len())
                + seq![plain_model(spaces(c.indent * depth), None), plain_model(seq!['}'], hl(c, 5))]
        },
    }
}

/// The first `k` items of an array at `depth`.
pub open spec fn array_items(c: JsonCfg, a: Vec<JsonValue>, depth: nat, k: nat) -> Seq<SegmentModel>
    decreases a, k,
{
    if k == 0 || k > a@.len() {
        Seq::empty()
    } else {
        proof {
            assert(decreases_to!(a => a@));
            assert(decreases_to!(a@ => a@[k - 1]));
        }
        array_items(c, a, depth, (k - 1) as nat) + seq![plain_model(spaces(c.indent * (depth + 1)), None)]
            + value_segs(c, a@[k - 1], depth + 1) + (if k < a@.len() {
            seq![plain_model(seq![','], hl(c, 6))]
        } else {
            Seq::empty()
        }) + seq![plain_model(seq!['\n'], None)]
    }
}

/// The first `k` shown entries of an object at `depth`.
pub open spec fn object_items(c: JsonCfg, o: Vec<(String, JsonValue)>, depth: nat, k: nat) -> Seq<SegmentModel>
    decreases o, k,
{
    let order = entry_order(o@, c.sort_keys);
    if k == 0 || k > o@.len() || k > order.len() || order[k - 1] >= o@.len() {
        Seq::empty()
    } else {
        let e = o@[order[k - 1] as int];
        proof {
            assert(decreases_to!(o => o@));
            assert(decreases_to!(o@ => o@[order[k - 1] as int]));
        }
        object_items(c, o, depth, (k - 1) as nat) + seq![
            plain_model(spaces(c.indent * (depth + 1)), None),
            plain_model(seq!['"'] + escape_json(e.0@) + seq!['"'], hl(c, 0)),
            plain_model(seq![':', ' '], hl(c, 6)),
        ] + value_segs(c, e.1, depth + 1) + (if k < o@.len() {
            seq![plain_model(seq![','], hl(c, 6))]
        } else {
            Seq::empty()
        }) + seq![plain_model(seq!['\n'], None)]
    }
}

/// Whether `a` sorts before `b` (see `key_less`).
fn key_less_exec(a: &str, b: &str) -> (r: bool)
    ensures
        r == key_less(a@, b@),
{
    let va = crate::text_ops::chars_of(a);
    let vb = crate::text_ops::chars_of(b);
    let mut i: usize = 0;
    assert(a@.skip(0) =~= a@);
    assert(b@.skip(0) =~= b@);
    while i < va.len() && i < vb.len() && va[i] == vb[i]
        invariant
            i <= va@.len(),
            i <= vb@.len(),
            va@ == a@,
            vb@ == b@,
            key_less(a@, b@) == key_less(a@.skip(i as int), b@.skip(i as int)),
        decreases va.len() - i,
    {
        assert(a@.skip(i as int).drop_first() =~= a@.skip(i + 1));
        assert(b@.skip(i as int).drop_first() =~= b@.skip(i + 1));
        i += 1;
    }
    if i == vb.len() {
        false
    } else if i == va.len() {
        true
    } else {
        (va[i] as u32) < (vb[i] as u32)
    }
}

/// `x` inserted into a sorted order of key indices (see `insert_index`).
fn insert_index_exec(keys_v: &Vec<String>, order: &mut Vec<usize>, x: usize)
    requires
        x < keys_v@.len(),
        forall|j: int| 0 <= j < old(order)@.len() ==> #[trigger] old(order)@[j] < keys_v@.len(),
    ensures
        final(order)@.map_values(|n: usize| n as nat) == insert_index(
            key_seqs(keys_v@),
            old(order)@.map_values(|n: usize| n as nat),
            x as nat,
        ),
        forall|j: int| 0 <= j < final(order)@.len() ==> #[trigger] final(order)@[j] < keys_v@.len(),
{
    let ghost keys = key_seqs(keys_v@);
    let ghost on = order@.map_values(|n: usize| n as nat);
    let mut p: usize = 0;
    assert(on.skip(0) =~= on);
    assert(on.take(0) + on =~= on);
    while p < order.len() && !key_less_exec(keys_v[x].as_str(), keys_v[order[p]].as_str())
        invariant
            p <= order@.len(),
            x < keys_v@.len(),
            on == order@.map_values(|n: usize| n as nat),
            keys == key_seqs(keys_v@),
            forall|j: int| 0 <= j < order@.len() ==> #[trigger] order@[j] < keys_v@.len(),
            insert_index(keys, on, x as nat) == on.take(p as int) + insert_index(keys, on.skip(p as int), x as nat),
        decreases order.len() - p,
    {
        proof {
            let rest = on.skip(p as int);
            assert(rest[0] == order@[p as int] as nat);
            assert(keys[x as int] == keys_v@[x as int]@);
            assert(keys[order@[p as int] as int] == keys_v@[order@[p as int] as int]@);
            assert(rest.drop_first() =~= on.skip(p + 1));
            assert(on.take(p + 1) =~= on.take(p as int) + seq![rest[0]]);
        }
        p += 1;
    }
    proof {
        let rest = on.skip(p as int);
        if p < order@.len() {
            assert(keys[x as int] == keys_v@[x as int]@);
            assert(keys[order@[p as int] as int] == keys_v@[order@[p as int] as int]@);
        }
    }
    order.insert(p, x);
    assert(order@.map_values(|n: usize| n as nat) =~= on.take(p as int) + (seq![x as nat] + on.skip(p as int)));
    proof {
        assert forall|j: int| 0 <= j < order@.len() implies #[trigger] order@[j] < keys_v@.len() by {
            if j < p {
                assert(order@[j] == old(order)@[j]);
            } else if j > p {
                assert(order@[j] == old(order)@[j - 1]);
            }
        }
    }
}

/// The values of a sequence of strings.
pub open spec fn key_seqs(v: Seq<String>) -> Seq<Seq<char>> {
    v.map_values(|s: String| s@)
}

/// The indices of keys in sorted order (see `sorted_order`).
pub(crate) fn sorted_indices(keys: &Vec<String>) -> (r: Vec<usize>)
    ensures
        r@.map_values(|n: usize| n as nat) == sorted_order(key_seqs(keys@), keys@.len()),
        r@.len() == keys@.len(),
        forall|j: int| 0 <= j < r@.len() ==> #[trigger] r@[j] < keys@.len(),
{
    let mut order: Vec<usize> = Vec::new();
    let mut i: usize = 0;
    while i < keys.len()
        invariant
            i <= keys@.len(),
            forall|j: int| 0 <= j < order@.len() ==> #[trigger] order@[j] < keys@.len(),
            order@.map_values(|n: usize| n as nat) == sorted_order(key_seqs(keys@), i as nat),
        decreases keys.len() - i,
    {
        insert_index_exec(keys, &mut order, i);
        i += 1;
    }
    proof {
        lemma_order_len(key_seqs(keys@), keys@.len(), true);
        assert(order@.map_values(|n: usize| n as nat).len() == order@.len());
    }
    order
}

impl Json {
    /// A document with an indent of two, keys in their order, highlighting
    /// on and the default theme.
    pub fn new(value: JsonValue) -> (j: Self)
        ensures
            j.value == value,
            j.indent == 2,
            !j.sort_keys,
            j.highlight,
            theme_model(j.theme) == default_theme_model(),
    {
        Json { value, indent: 2, sort_keys: false, highlight: true, theme: JsonTheme::default() }
    }
    /// Set the spaces per level of indentation.
    pub fn indent(self, spaces: usize) -> (j: Self)
        ensures
            j == (Json { indent: spaces, ..self }),
    {
        Json { indent: spaces, ..self }
    }

    /// Show object keys sorted.
    pub fn sort_keys(self, sort: bool) -> (j: Self)
        ensures
            j == (Json { sort_keys: sort, ..self }),
    {
        Json { sort_keys: sort, ..self }
    }

    /// Style the parts.
    pub fn highlight(self, highlight: bool) -> (j: Self)
        ensures
            j == (Json { highlight, ..self }),
    {
        Json { highlight, ..self }
    }

    /// Set the styles.
    pub fn theme(self, theme: JsonTheme) -> (j: Self)
        ensures
            j == (Json { theme, ..self }),
    {
        Json { theme, ..self }
    }
}

/// The rendering settings of a document.
pub open spec fn json_cfg(j: Json) -> JsonCfg {
    JsonCfg { indent: j.indent as nat, sort_keys: j.sort_keys, highlight: j.highlight, theme: theme_model(j.theme) }
}

/// Whether indentation fits at every level that is laid out.
pub open spec fn indent_fits(j: Json) -> bool {
    j.indent * (max_depth() + 1) <= usize::MAX
}

impl Json {
    /// Theme style `k` where highlighting is on (see `hl`).
    fn hl_style(&self, k: usize) -> (s: Option<Style>)
        requires
            k < 7,
        ensures
            opt_style_model(s) == hl(json_cfg(*self), k as int),
    {
        if !self.highlight {
            return None;
        }
        let t = &self.theme;
        Some(if k == 0 {
            t.key.clone()
        } else if k == 1 {
            t.string.clone()
        } else if k == 2 {
            t.number.clone()
        } else if k == 3 {
            t.boolean.clone()
        } else if k == 4 {
            t.null.clone()
        } else if k == 5 {
            t.bracket.clone()
        } else {
            t.punctuation.clone()
        })
    }

    /// An indent of `level` levels.
    fn indent_segment(&self, level: usize) -> (s: Segment)
        requires
            indent_fits(*self),
            level <= max_depth() + 1,
        ensures
            s@ == plain_model(spaces(self.indent as nat * level as nat), None),
    {
        assert(self.indent * level <= self.indent * (max_depth() + 1)) by (nonlinear_arith)
            requires level <= max_depth() + 1;
        Segment::new(repeat_char(' ', self.indent * level).as_str(), None)
    }

    /// A value rendered at `depth` (see `value_segs`).
    fn render_value(&self, v: &JsonValue, depth: usize) -> (r: Vec<Segment>)
        requires
            indent_fits(*self),
            depth <= max_depth() + 1,
        ensures
            segs_model(r@) == value_segs(json_cfg(*self), *v, depth as nat),
        decreases *v, 0nat,
    {
        let ghost c = json_cfg(*self);
        let mut out: Vec<Segment> = Vec::new();
        match v {
            JsonValue::Null => {
                push_seg(&mut out, Segment::new("null", self.hl_style(4)));
            },
            JsonValue::Bool(b) => {
                push_seg(&mut out, Segment::new(if *b { "true" } else { "false" }, self.hl_style(3)));
            },
            JsonValue::Number(n) => {
                push_seg(&mut out, Segment::new(n.as_str(), self.hl_style(2)));
            },
            JsonValue::Str(s) => {
                let mut t = String::new();
                push_char(&mut t, '"');
                push_str(&mut t, escape_json_string(s.as_str()).as_str());
                push_char(&mut t, '"');
                assert(t@ =~= seq!['"'] + escape_json(s@) + seq!['"']);
                push_seg(&mut out, Segment::new(t.as_str(), self.hl_style(1)));
            },
            JsonValue::Array(a) => {
                out = self.render_array(a, depth);
            },
            JsonValue::Object(o) => {
                out = self.render_object(o, depth);
            },
        }
        proof {
            reveal_strlit("null");
            reveal_strlit("true");
            reveal_strlit("false");
        }
        assert(segs_model(out@) =~= value_segs(c, *v, depth as nat));
        out
    }

    /// An array rendered at `depth` (the array case of `value_segs`).
    fn render_array(&self, a: &Vec<JsonValue>, depth: usize) -> (r: Vec<Segment>)
        requires
            indent_fits(*self),
            depth <= max_depth() + 1,
        ensures
            segs_model(r@) == value_segs(json_cfg(*self), JsonValue::Array(*a), depth as nat),
        decreases *a, 1nat,
    {
        let ghost c = json_cfg(*self);
        let mut out: Vec<Segment> = Vec::new();
        if depth > 20 {
            push_seg(&mut out, Segment::new("[...]", self.hl_style(5)));
        } else if a.len() == 0 {
            push_seg(&mut out, Segment::new("[]", self.hl_style(5)));
        } else {
            push_seg(&mut out, Segment::new("[", self.hl_style(5)));
            push_seg(&mut out, Segment::line());
            proof {
                reveal_strlit("[");
                assert("["@ =~= seq!['[']);
            }
            let ghost start = segs_model(out@);
            let mut i: usize = 0;
            while i < a.len()
                invariant
                    i <= a@.len(),
                    depth <= max_depth(),
                    indent_fits(*self),
                    c == json_cfg(*self),
                    segs_model(out@) == start + array_items(c, *a, depth as nat, i as nat),
                decreases a.len() - i,
            {
                let ghost before = segs_model(out@);
                push_seg(&mut out, self.indent_segment(depth + 1));
                proof {
                    assert(decreases_to!(*a => a@));
                    assert(decreases_to!(a@ => a@[i as int]));
                }
                push_segs(&mut out, self.render_value(&a[i], depth + 1));
                if i + 1 < a.len() {
                    push_seg(&mut out, Segment::new(",", self.hl_style(6)));
                    proof {
                        reveal_strlit(",");
                        assert(","@ =~= seq![',']);
                    }
                }
                push_seg(&mut out, Segment::line());
                assert(segs_model(out@) =~= before + (seq![plain_model(spaces(c.indent * ((depth + 1) as nat)), None)]
                    + value_segs(c, a@[i as int], (depth + 1) as nat) + (if i + 1 < a@.len() {
                    seq![plain_model(seq![','], hl(c, 6))]
                } else {
                    Seq::empty()
                }) + seq![plain_model(seq!['\n'], None)]));
                i += 1;
                assert(segs_model(out@) =~= start + array_items(c, *a, depth as nat, i as nat));
            }
            push_seg(&mut out, self.indent_segment(depth));
            push_seg(&mut out, Segment::new("]", self.hl_style(5)));
            proof {
                reveal_strlit("]");
                assert("]"@ =~= seq![']']);
            }
        }
            assert(segs_model(out@) =~= value_segs(c, JsonValue::Array(*a), depth as nat));
        out
    }

    /// An object rendered at `depth` (the object case of `value_segs`).
    fn render_object(&self, o: &Vec<(String, JsonValue)>, depth: usize) -> (r: Vec<Segment>)
        requires
            indent_fits(*self),
            depth <= max_depth() + 1,
        ensures
            segs_model(r@) == value_segs(json_cfg(*self), JsonValue::Object(*o), depth as nat),
        decreases *o, 1nat,
    {
        let ghost c = json_cfg(*self);
        let mut out: Vec<Segment> = Vec::new();
        if depth > 20 {
            push_seg(&mut out, Segment::new("{...}", self.hl_style(5)));
        } else if o.len() == 0 {
            push_seg(&mut out, Segment::new("{}", self.hl_style(5)));
        } else {
            let order = self.entry_order_exec(o);
            push_seg(&mut out, Segment::new("{", self.hl_style(5)));
            push_seg(&mut out, Segment::line());
            proof {
                reveal_strlit("{");
                assert("{"@ =~= seq!['{']);
            }
            let ghost start = segs_model(out@);
            let ghost ord = entry_order(o@, c.sort_keys);
            assert(start + object_items(c, *o, depth as nat, 0) =~= start);
            let mut i: usize = 0;
            while i < order.len()
                invariant
                    i <= order@.len(),
                    order@.len() == o@.len(),
                    forall|j: int| 0 <= j < order@.len() ==> #[trigger] order@[j] < o@.len()
                        && order@[j] as nat == ord[j],
                    ord == entry_order(o@, c.sort_keys),
                    ord.len() == o@.len(),
                    depth <= max_depth(),
                    indent_fits(*self),
                    c == json_cfg(*self),
                    segs_model(out@) == start + object_items(c, *o, depth as nat, i as nat),
                decreases order.len() - i,
            {
                let ghost before = segs_model(out@);
                let k = order[i];
                let e = &o[k];
                push_seg(&mut out, self.indent_segment(depth + 1));
                let mut key = String::new();
                push_char(&mut key, '"');
                push_str(&mut key, escape_json_string(e.0.as_str()).as_str());
                push_char(&mut key, '"');
                push_seg(&mut out, Segment::new(key.as_str(), self.hl_style(0)));
                push_seg(&mut out, Segment::new(": ", self.hl_style(6)));
                proof {
                    reveal_strlit(": ");
                    assert(": "@ =~= seq![':', ' ']);
                    assert(decreases_to!(*o => o@));
                    assert(decreases_to!(o@ => o@[k as int]));
                    assert(decreases_to!(o@[k as int] => o@[k as int].1));
                }
                push_segs(&mut out, self.render_value(&e.1, depth + 1));
                if i + 1 < o.len() {
                    push_seg(&mut out, Segment::new(",", self.hl_style(6)));
                    proof {
                        reveal_strlit(",");
                        assert(","@ =~= seq![',']);
                    }
                }
                push_seg(&mut out, Segment::line());
                assert(key@ =~= seq!['"'] + escape_json(o@[k as int].0@) + seq!['"']);
                assert(ord[i as int] == k as nat);
                assert(segs_model(out@) =~= before + (seq![
                    plain_model(spaces(c.indent * ((depth + 1) as nat)), None),
                    plain_model(seq!['"'] + escape_json(o@[k as int].0@) + seq!['"'], hl(c, 0)),
                    plain_model(seq![':', ' '], hl(c, 6)),
                ] + value_segs(c, o@[k as int].1, (depth + 1) as nat) + (if i + 1 < o@.len() {
                    seq![plain_model(seq![','], hl(c, 6))]
                } else {
                    Seq::empty()
                }) + seq![plain_model(seq!['\n'], None)]));
                i += 1;
                assert(segs_model(out@) =~= start + object_items(c, *o, depth as nat, i as nat));
            }
            push_seg(&mut out, self.indent_segment(depth));
            push_seg(&mut out, Segment::new("}", self.hl_style(5)));
            proof {
                reveal_strlit("}");
                assert("}"@ =~= seq!['}']);
            }
        }
            assert(segs_model(out@) =~= value_segs(c, JsonValue::Object(*o), depth as nat));
        out
    }

    /// The order in which an object's entries are shown (see `entry_order`).
    fn entry_order_exec(&self, o: &Vec<(String, JsonValue)>) -> (r: Vec<usize>)
        ensures
            r@.len() == o@.len(),
            entry_order(o@, self.sort_keys).len() == o@.len(),
            forall|j: int| 0 <= j < r@.len() ==> #[trigger] r@[j] < o@.len()
                && r@[j] as nat == entry_order(o@, self.sort_keys)[j],
    {
        let mut order: Vec<usize> = Vec::new();
        if self.sort_keys {
            let mut keys: Vec<String> = Vec::new();
            let mut i: usize = 0;
            while i < o.len()
                invariant
                    i <= o@.len(),
                    keys@.len() == i,
                    key_seqs(keys@) == entry_keys(o@).take(i as int),
                decreases o.len() - i,
            {
                let ghost prev = keys@;
                keys.push(o[i].0.clone());
                i += 1;
                assert(key_seqs(keys@) =~= entry_keys(o@).take(i as int));
            }
            assert(entry_keys(o@).take(o@.len() as int) =~= entry_keys(o@));
            order = sorted_indices(&keys);
        } else {
            let mut i: usize = 0;
            while i < o.len()
                invariant
                    i <= o@.len(),
                    forall|j: int| 0 <= j < order@.len() ==> #[trigger] order@[j] < o@.len(),
                    order@.map_values(|n: usize| n as nat) == Seq::new(i as nat, |j: int| j as nat),
                decreases o.len() - i,
            {
                let ghost prev = order@;
                order.push(i);
                assert(order@.map_values(|n: usize| n as nat) =~= prev.map_values(|n: usize| n as nat).push(i as nat));
                assert(order@.map_values(|n: usize| n as nat) =~= Seq::new((i + 1) as nat, |j: int| j as nat));
                i += 1;
            }
        }
        proof {
            lemma_order_len(entry_keys(o@), o@.len(), self.sort_keys);
            assert forall|j: int| 0 <= j < order@.len() implies #[trigger] order@[j] < o@.len()
                && order@[j] as nat == entry_order(o@, self.sort_keys)[j] by {
                assert(order@.map_values(|n: usize| n as nat)[j] == order@[j] as nat);
            }
        }
        order
    }

    /// Render the document (see `value_segs`).
    pub fn render(&self) -> (r: Vec<Segment>)
        requires
            indent_fits(*self),
        ensures
            segs_model(r@) == value_segs(json_cfg(*self), self.value, 0),
    {
        self.render_value(&self.value, 0)
    }

    /// The rendered document as plain text.
    pub fn to_plain_string(&self) -> (s: String)
        requires
            indent_fits(*self),
        ensures
            s@ == crate::renderables::rule::texts(value_segs(json_cfg(*self), self.value, 0)),
    {
        crate::renderables::rule::segments_text(&self.render())
    }
}

/// Sorting keeps the number of indices.
proof fn lemma_insert_len(keys: Seq<Seq<char>>, order: Seq<nat>, x: nat)
    ensures
        insert_index(keys, order, x).len() == order.len() + 1,
    decreases order.len(),
{
    if order.len() > 0 && !key_less(keys[x as int], keys[order[0] as int]) {
        lemma_insert_len(keys, order.drop_first(), x);
    }
}

/// The shown order has one index per entry.
proof fn lemma_order_len(keys: Seq<Seq<char>>, n: nat, sort: bool)
    ensures
        sort ==> sorted_order(keys, n).len() == n,
    decreases n,
{
    if n > 0 {
        lemma_order_len(keys, (n - 1) as nat, sort);
        lemma_insert_len(keys, sorted_order(keys, (n - 1) as nat), (n - 1) as nat);
    }
}


/// A hex digit is a printable ASCII character.
proof fn lemma_hex_char_printable(d: nat)
    requires
        d < 16,
    ensures
        !is_control(hex_char(d)),
{
    if d < 10 {
        assert(((d + 48) as u32) as char as u32 == d + 48);
    } else {
        assert(((d + 87) as u32) as char as u32 == d + 87);
    }
}

/// The escape of one character holds no control character.
proof fn lemma_escape_char_printable(c: char)
    ensures
        forall|i: int| 0 <= i < escape_char(c).len() ==> !is_control(#[trigger] escape_char(c)[i]),
{
    if !(c == '"' || c == '\\' || c == '\n' || c == '\r' || c == '\t') && is_control(c) {
        let n = (c as u32) as nat;
        lemma_hex_char_printable((n / 4096) % 16);
        lemma_hex_char_printable((n / 256) % 16);
        lemma_hex_char_printable((n / 16) % 16);
        lemma_hex_char_printable(n % 16);
    }
}

/// Law: an escaped JSON string holds no control characters; they are all
/// written as escapes.
pub proof fn law_escape_json_printable(s: Seq<char>)
    ensures
        forall|i: int| 0 <= i < escape_json(s).len() ==> !is_control(#[trigger] escape_json(s)[i]),
    decreases s.len(),
{
    if s.len() > 0 {
        law_escape_json_printable(s.drop_last());
        lemma_escape_char_printable(s.last());
        let a = escape_json(s.drop_last());
        let b = escape_char(s.last());
        assert forall|i: int| 0 <= i < escape_json(s).len() implies !is_control(#[trigger] escape_json(s)[i]) by {
            if i < a.len() {
                assert(escape_json(s)[i] == a[i]);
            } else {
                assert(escape_json(s)[i] == b[i - a.len()]);
            }
        }
    }
}

} // verus!
