//! Themes as Rust source.

use vstd::prelude::*;
use crate::literals::{self, rust_string_literal, ExportLiteral};
use crate::records::{self, is_builtin_base_theme, MetaModel, ThemeRecord, BASE_THEME_ID};
use crate::schema;
use crate::sorting::{self, sort_all};
use crate::style::{
    self, is_standard_prop, normalize_prop_name, set_style_prop, Style, StyleProps, StyleValue, ThemeValue,
};
use crate::text::{self, char_is_alnum, char_lower, owned, split_dot, strip_trailing, text_eq, text_less, to_chars};
use crate::textmap::{self, Duplicate, TextMap, TextSet};
use crate::theme::{Component, ComponentTheme, Theme, ThemeModel, Variant, VariantTheme};
use crate::tokens::{self, SchemeTokens, ThemeTokens, TokenSet, TokenValue, Tokens};
use crate::value::{self, Value};

verus! {

// ---------------------------------------------------------------------------------------------
// Function names
// ---------------------------------------------------------------------------------------------
/// Once a function name has this many characters, no more are taken from the theme's name.
pub const MAX_THEME_FUNCTION_NAME_LEN: usize = 96;

/// The letters and digits of a name in lower case, with one underscore for each run of other
/// characters between them, and one in front of a leading digit; no more than the longest name takes.
pub open spec fn function_chars(s: Seq<char>) -> Seq<char>
    decreases s.len(),
{
    if s.len() == 0 {
        Seq::empty()
    } else {
        let before = function_chars(s.drop_last());
        let c = s.last();
        if before.len() >= MAX_THEME_FUNCTION_NAME_LEN {
            before
        } else if text::is_alnum(c) {
            if before.len() == 0 && text::is_digit(c) {
                seq!['_', text::lower(c)]
            } else {
                before.push(text::lower(c))
            }
        } else if before.len() == 0 || before.last() == '_' {
            before
        } else {
            before.push('_')
        }
    }
}

/// The name of a theme's function.
pub open spec fn function_ident(name: Seq<char>) -> Seq<char> {
    let ident = text::without_trailing(function_chars(name), '_');
    if ident.len() == 0 {
        "theme_export"@
    } else {
        ident
    }
}

proof fn lemma_function_full(s: Seq<char>, n: int)
    requires
        0 <= n <= s.len(),
        function_chars(s.take(n)).len() >= MAX_THEME_FUNCTION_NAME_LEN,
    ensures
        function_chars(s) == function_chars(s.take(n)),
    decreases s.len() - n,
{
    if n == s.len() {
        assert(s.take(n) =~= s);
    } else {
        assert(s.take(n + 1).drop_last() =~= s.take(n));
        lemma_function_full(s, n + 1);
    }
}

fn make_function_chars(name: &str) -> (r: String)
    ensures
        r@ == function_chars(name@),
{
    let chars = to_chars(name);
    let mut ident = owned("");
    let mut count: usize = 0;
    let mut last_was_underscore = true;
    proof {
        reveal_strlit("");
        assert(ident@ =~= Seq::<char>::empty());
    }
    for i in 0..chars.len()
        invariant
            chars@ == name@,
            ident@ == function_chars(name@.take(i as int)),
            count == ident@.len(),
            count <= MAX_THEME_FUNCTION_NAME_LEN + 1,
            last_was_underscore == (ident@.len() == 0 || ident@.last() == '_'),
    {
        proof {
            assert(name@.take(i + 1).drop_last() =~= name@.take(i as int));
            assert(name@.take(i + 1).last() == name@[i as int]);
        }
        if count >= MAX_THEME_FUNCTION_NAME_LEN {
            proof {
                lemma_function_full(name@, i as int);
            }
            return ident;
        }
        let c = chars[i];
        if char_is_alnum(c) {
            if count == 0 && ('0' <= c && c <= '9') {
                ident.push('_');
                count = count + 1;
            }
            ident.push(char_lower(c));
            count = count + 1;
            assert(ident@ =~= function_chars(name@.take(i + 1)));
            last_was_underscore = false;
        } else if !last_was_underscore {
            ident.push('_');
            count = count + 1;
            last_was_underscore = true;
        }
    }
    assert(name@.take(chars@.len() as int) =~= name@);
    ident
}

/// Whether a character can stand in the name of a function.
pub open spec fn names_function(c: char) -> bool {
    text::is_lower(c) || text::is_digit(c) || c == '_'
}

proof fn lemma_function_chars(s: Seq<char>)
    ensures
        function_chars(s).len() <= MAX_THEME_FUNCTION_NAME_LEN,
        forall|i: int| 0 <= i < function_chars(s).len() ==> names_function(#[trigger] function_chars(s)[i]),
        function_chars(s).len() > 0 ==> !text::is_digit(function_chars(s)[0]),
    decreases s.len(),
{
    if s.len() > 0 {
        lemma_function_chars(s.drop_last());
        let before = function_chars(s.drop_last());
        let c = s.last();
        if text::is_alnum(c) {
            assert(names_function(text::lower(c)));
        }
        assert forall|i: int| 0 <= i < function_chars(s).len() implies names_function(
            #[trigger] function_chars(s)[i],
        ) by {
            if i < before.len() {
                assert(function_chars(s)[i] == before[i]);
            }
        }
        if before.len() > 0 {
            assert(function_chars(s)[0] == before[0]);
        }
    }
}

proof fn lemma_without_trailing(s: Seq<char>, c: char)
    ensures
        text::without_trailing(s, c).len() <= s.len(),
        text::without_trailing(s, c) == s.take(text::without_trailing(s, c).len() as int),
        text::without_trailing(s, c).len() > 0 ==> text::without_trailing(s, c).last() != c,
    decreases s.len(),
{
    if s.len() > 0 && s.last() == c {
        lemma_without_trailing(s.drop_last(), c);
        let n = text::without_trailing(s, c).len() as int;
        assert(s.drop_last().take(n) =~= s.take(n));
    } else {
        assert(s.take(s.len() as int) =~= s);
    }
}

/// The name of a theme's function is one that a function can have, whatever the theme is called: some
/// lower case letters, digits and underscores, no more than the longest name has, with no digit at its
/// start and no underscore at its end.
pub proof fn function_ident_is_identifier(name: Seq<char>)
    ensures
        0 < function_ident(name).len() <= MAX_THEME_FUNCTION_NAME_LEN,
        forall|i: int| 0 <= i < function_ident(name).len() ==> names_function(#[trigger] function_ident(name)[i]),
        !text::is_digit(function_ident(name)[0]),
        function_ident(name).last() != '_',
{
    let chars = function_chars(name);
    let ident = text::without_trailing(chars, '_');
    lemma_function_chars(name);
    lemma_without_trailing(chars, '_');
    if ident.len() > 0 {
        assert(ident[0] == chars[0]);
        assert forall|i: int| 0 <= i < ident.len() implies names_function(#[trigger] ident[i]) by {
            assert(ident[i] == chars[i]);
        }
    } else {
        reveal_strlit("theme_export");
    }
}

/// The name of a theme's function.
pub fn theme_function_name(name: &str) -> (r: String)
    ensures
        r@ == function_ident(name@),
{
    let chars = make_function_chars(name);
    let ident = strip_trailing(chars.as_str(), '_');
    proof {
        reveal_strlit("");
        assert(ident@.len() == 0 ==> ident@ =~= ""@);
    }
    if text_eq(ident.as_str(), "") {
        owned("theme_export")
    } else {
        ident
    }
}

/// The name of a theme's function; the base theme that comes with the editor has its own.
pub open spec fn record_function(m: MetaModel) -> Seq<char> {
    if records::is_builtin_base(m) {
        BASE_THEME_ID@
    } else {
        function_ident(m.name)
    }
}

/// The name of a theme's function.
pub fn theme_record_function_name(theme: &ThemeRecord) -> (r: String)
    ensures
        r@ == record_function(theme@.meta),
{
    if is_builtin_base_theme(theme) {
        owned(BASE_THEME_ID)
    } else {
        theme_function_name(theme.meta.name.as_str())
    }
}

// ---------------------------------------------------------------------------------------------
// Lines
// ---------------------------------------------------------------------------------------------
/// Spaces.
pub open spec fn spaces(n: nat) -> Seq<char> {
    Seq::new(n, |i: int| ' ')
}

/// A line at an indentation.
pub open spec fn line(indent: nat, s: Seq<char>) -> Seq<char> {
    spaces(indent) + s + "\n"@
}

/// Lines at an indentation.
pub open spec fn lines(indent: nat, all: Seq<Seq<char>>) -> Seq<char>
    decreases all.len(),
{
    if all.len() == 0 {
        Seq::empty()
    } else {
        lines(indent, all.drop_last()) + line(indent, all.last())
    }
}

/// A block with a header: nothing where there is nothing in it.
pub open spec fn block(indent: nat, header: Seq<char>, inner: Seq<char>) -> Seq<char> {
    if inner.len() == 0 {
        Seq::empty()
    } else {
        line(indent, header + " {"@) + inner + line(indent, "}"@)
    }
}

fn push_line(out: &mut String, indent: usize, s: &str)
    ensures
        final(out)@ == old(out)@ + line(indent as nat, s@),
{
    let ghost start = out@;
    assert(start =~= start + spaces(0));
    for i in 0..indent
        invariant
            out@ == start + spaces(i as nat),
    {
        out.push(' ');
        assert(out@ =~= start + spaces((i + 1) as nat));
    }
    out.push_str(s);
    out.push_str("\n");
    assert(out@ =~= start + line(indent as nat, s@));
}

fn push_lines(out: &mut String, indent: usize, all: &Vec<String>)
    ensures
        final(out)@ == old(out)@ + lines(indent as nat, textmap::views(all@)),
{
    let ghost start = out@;
    let ghost views = textmap::views(all@);
    assert(start =~= start + lines(indent as nat, views.take(0)));
    for i in 0..all.len()
        invariant
            views == textmap::views(all@),
            out@ == start + lines(indent as nat, views.take(i as int)),
    {
        proof {
            assert(views.take(i + 1).drop_last() =~= views.take(i as int));
            assert(views.take(i + 1).last() == views[i as int]);
        }
        push_line(out, indent, all[i].as_str());
        assert(out@ =~= start + lines(indent as nat, views.take(i + 1)));
    }
    assert(views.take(all@.len() as int) =~= views);
}

fn headed(header: &str) -> (r: String)
    ensures
        r@ == header@ + " {"@,
{
    let mut h = owned(header);
    h.push_str(" {");
    h
}

fn is_empty_text(s: &str) -> (r: bool)
    ensures
        r == (s@.len() == 0),
{
    proof {
        reveal_strlit("");
        assert(s@.len() == 0 ==> s@ =~= ""@);
    }
    text_eq(s, "")
}

fn push_block(out: &mut String, indent: usize, header: &str, inner: &str)
    ensures
        final(out)@ == old(out)@ + block(indent as nat, header@, inner@),
{
    let ghost start = out@;
    if !is_empty_text(inner) {
        push_line(out, indent, headed(header).as_str());
        out.push_str(inner);
        push_line(out, indent, "}");
    }
    assert(out@ =~= start + block(indent as nat, header@, inner@));
}

/// Sets a property of a style to a value of the source.
pub fn set_export_style_literal(style: &mut StyleProps, prop_name: &str, value: &ExportLiteral)
    requires
        style::accepts(style::normal_name(prop_name@), value@),
    ensures
        final(style)@ == style::with_prop(old(style)@, style::normal_name(prop_name@), value@),
{
    let set = match value {
        ExportLiteral::Color(c) => ThemeValue::Color(*c),
        ExportLiteral::Float(f) => ThemeValue::Float(*f),
        ExportLiteral::Int(n) => ThemeValue::Int(*n),
        ExportLiteral::Bool(b) => ThemeValue::Bool(*b),
        ExportLiteral::String(s) => ThemeValue::String(s.clone()),
        ExportLiteral::TokenRef(path) => ThemeValue::TokenRef(path.clone()),
    };
    set_style_prop(style, prop_name, set);
}

// ---------------------------------------------------------------------------------------------
// Styles
// ---------------------------------------------------------------------------------------------
/// What a style sets a property to: the token that it refers to, or else its value.
pub open spec fn style_literal(s: Style, prop: Seq<char>) -> Option<Value> {
    let name = style::normal_name(prop);
    if s.token_refs.dom().contains(name) {
        Some(Value::Ref(s.token_refs[name]))
    } else {
        field_literal(s, name)
    }
}

/// A color of a style.
pub open spec fn color_literal(c: Option<crate::color::Color>) -> Option<Value> {
    match c {
        Some(x) => Some(Value::Color(x)),
        None => None,
    }
}

/// A number of a style.
pub open spec fn float_literal(f: Option<crate::scalar::Scalar>) -> Option<Value> {
    match f {
        Some(x) => Some(Value::Float(x)),
        None => None,
    }
}

/// The value of a property of a style.
pub open spec fn field_literal(s: Style, name: Seq<char>) -> Option<Value> {
    if name == "background"@ {
        color_literal(s.background)
    } else if name == "foreground"@ {
        color_literal(s.foreground)
    } else if name == "border_color"@ {
        color_literal(s.border_color)
    } else if name == "border_width"@ {
        float_literal(s.border_width)
    } else if name == "border_radius"@ {
        float_literal(s.border_radius)
    } else if name == "padding_horizontal"@ {
        float_literal(s.padding_horizontal)
    } else if name == "padding_vertical"@ {
        float_literal(s.padding_vertical)
    } else if name == "min_height"@ {
        float_literal(s.min_height)
    } else if name == "min_width"@ {
        float_literal(s.min_width)
    } else if name == "font_family"@ {
        match s.font_family {
            Some(t) => Some(Value::Text(t)),
            None => None,
        }
    } else if name == "font_size"@ {
        float_literal(s.font_size)
    } else if name == "font_weight"@ {
        match s.font_weight {
            Some(n) => Some(Value::Int(n)),
            None => None,
        }
    } else if name == "icon_size"@ {
        float_literal(s.icon_size)
    } else if name == "opacity"@ {
        float_literal(s.opacity)
    } else if name == "touch_expansion"@ {
        float_literal(s.touch_expansion)
    } else {
        schema::entry(s.extra, name)
    }
}

/// What an optional literal stands for.
pub open spec fn literal_view(l: Option<ExportLiteral>) -> Option<Value> {
    match l {
        Some(x) => Some(x@),
        None => None,
    }
}

fn export_color(c: Option<crate::color::Color>) -> (r: Option<ExportLiteral>)
    ensures
        literal_view(r) == color_literal(c),
{
    match c {
        Some(x) => Some(ExportLiteral::Color(x)),
        None => None,
    }
}

fn export_float(f: Option<crate::scalar::Scalar>) -> (r: Option<ExportLiteral>)
    ensures
        literal_view(r) == float_literal(f),
{
    match f {
        Some(x) => Some(ExportLiteral::Float(x)),
        None => None,
    }
}

/// A style value as a literal.
pub fn style_value_literal(value: &StyleValue) -> (r: ExportLiteral)
    ensures
        r@ == value@,
{
    match value {
        StyleValue::Color(c) => ExportLiteral::Color(*c),
        StyleValue::Float(f) => ExportLiteral::Float(*f),
        StyleValue::Int(n) => ExportLiteral::Int(*n),
        StyleValue::Bool(b) => ExportLiteral::Bool(*b),
        StyleValue::String(s) => ExportLiteral::String(s.clone()),
    }
}

/// A token value as a literal.
pub fn token_literal(value: &TokenValue) -> (r: ExportLiteral)
    ensures
        r@ == value@,
{
    match value {
        TokenValue::Color(c) => ExportLiteral::Color(*c),
        TokenValue::Float(f) => ExportLiteral::Float(*f),
        TokenValue::Int(n) => ExportLiteral::Int(*n),
        TokenValue::Bool(b) => ExportLiteral::Bool(*b),
        TokenValue::String(s) => ExportLiteral::String(s.clone()),
        TokenValue::Ref(p) => ExportLiteral::TokenRef(p.clone()),
    }
}

/// What a style sets a property to.
pub fn style_prop_literal(style: &StyleProps, prop_name: &str) -> (r: Option<ExportLiteral>)
    ensures
        literal_view(r) == style_literal(style@, prop_name@),
{
    let name = normalize_prop_name(prop_name);
    let n = name.as_str();
    if let Some(path) = style.token_refs.get(n) {
        return Some(ExportLiteral::TokenRef(path.clone()));
    }
    if text_eq(n, "background") {
        export_color(style.background)
    } else if text_eq(n, "foreground") {
        export_color(style.foreground)
    } else if text_eq(n, "border_color") {
        export_color(style.border_color)
    } else if text_eq(n, "border_width") {
        export_float(style.border_width)
    } else if text_eq(n, "border_radius") {
        export_float(style.border_radius)
    } else if text_eq(n, "padding_horizontal") {
        export_float(style.padding_horizontal)
    } else if text_eq(n, "padding_vertical") {
        export_float(style.padding_vertical)
    } else if text_eq(n, "min_height") {
        export_float(style.min_height)
    } else if text_eq(n, "min_width") {
        export_float(style.min_width)
    } else if text_eq(n, "font_family") {
        match &style.font_family {
            Some(t) => Some(ExportLiteral::String(t.clone())),
            None => None,
        }
    } else if text_eq(n, "font_size") {
        export_float(style.font_size)
    } else if text_eq(n, "font_weight") {
        match style.font_weight {
            Some(w) => Some(ExportLiteral::Int(w)),
            None => None,
        }
    } else if text_eq(n, "icon_size") {
        export_float(style.icon_size)
    } else if text_eq(n, "opacity") {
        export_float(style.opacity)
    } else if text_eq(n, "touch_expansion") {
        export_float(style.touch_expansion)
    } else {
        match style.extra.get(n) {
            Some(v) => Some(style_value_literal(v)),
            None => None,
        }
    }
}

/// The standard properties, in the order in which they are written.
pub open spec fn standard_props() -> Seq<Seq<char>> {
    seq![
        "background"@,
        "foreground"@,
        "border_color"@,
        "border_width"@,
        "border_radius"@,
        "padding_horizontal"@,
        "padding_vertical"@,
        "min_height"@,
        "min_width"@,
        "font_family"@,
        "font_size"@,
        "font_weight"@,
        "icon_size"@,
        "opacity"@,
        "touch_expansion"@,
    ]
}

/// The other properties that a style sets.
pub open spec fn extra_props(s: Style) -> Set<Seq<char>> {
    Set::new(
        |k: Seq<char>|
            s.extra.dom().contains(k) || (s.token_refs.dom().contains(k) && !style::is_standard(k)),
    )
}

/// Whether two settings are equal.
pub open spec fn same_setting(a: Option<Value>, b: Option<Value>) -> bool {
    match (a, b) {
        (Some(x), Some(y)) => value::same_value(x, y),
        (None, None) => true,
        _ => false,
    }
}

/// What the parent style sets a property to.
pub open spec fn parent_setting(parent: Option<Style>, prop: Seq<char>) -> Option<Value> {
    match parent {
        Some(p) => style_literal(p, prop),
        None => None,
    }
}

/// The line of a property, where it is set otherwise than in the parent.
pub open spec fn prop_line(s: Style, parent: Option<Style>, prop: Seq<char>) -> Option<Seq<char>> {
    let current = style_literal(s, prop);
    if same_setting(current, parent_setting(parent, prop)) {
        None
    } else {
        match current {
            Some(v) => Some("\""@ + prop + "\" = "@ + literals::value_source(v) + ";"@),
            None => None,
        }
    }
}

/// The lines of properties.
pub open spec fn prop_lines(s: Style, parent: Option<Style>, props: Seq<Seq<char>>) -> Seq<Seq<char>>
    decreases props.len(),
{
    if props.len() == 0 {
        Seq::empty()
    } else {
        let before = prop_lines(s, parent, props.drop_last());
        match prop_line(s, parent, props.last()) {
            Some(l) => before.push(l),
            None => before,
        }
    }
}

/// The lines of a style against its parent: standard properties, then the others in order.
pub open spec fn style_lines(s: Style, parent: Option<Style>) -> Seq<Seq<char>> {
    prop_lines(s, parent, standard_props()) + prop_lines(s, parent, textmap::sorted(extra_props(s)))
}

fn write_prop(style: &StyleProps, parent: Option<&StyleProps>, prop: &str) -> (r: Option<String>)
    ensures
        style::text_view(r) == prop_line(style@, schema::option_view(parent), prop@),
{
    let current = style_prop_literal(style, prop);
    let inherited = match parent {
        Some(p) => style_prop_literal(p, prop),
        None => None,
    };
    match current {
        Some(v) => {
            let same = match &inherited {
                Some(w) => v.same(w),
                None => false,
            };
            if same {
                None
            } else {
                let mut l = owned("\"");
                l.push_str(prop);
                l.push_str("\" = ");
                l.push_str(v.to_macro_expr().as_str());
                l.push_str(";");
                Some(l)
            }
        },
        None => None,
    }
}

fn list_extra_props(style: &StyleProps) -> (r: TextSet)
    ensures
        r@ == extra_props(style@),
{
    let mut out = TextSet::new();
    let n: usize = style.extra.len();
    let ghost keys = textmap::sorted_keys(style@.extra);
    for i in 0..n
        invariant
            keys == textmap::sorted_keys(style.extra@),
            n == keys.len(),
            forall|k: Seq<char>| #[trigger] out@.contains(k) <==> keys.take(i as int).contains(k),
    {
        proof {
            textmap::take_step(keys, i as int);
        }
        out.insert(style.extra.key_at(i).clone());
    }
    assert(keys.take(n as int) =~= keys);
    let m: usize = style.token_refs.len();
    let ghost refs = textmap::sorted_keys(style@.token_refs);
    for i in 0..m
        invariant
            refs == textmap::sorted_keys(style.token_refs@),
            m == refs.len(),
            textmap::lists(keys, style.extra@.dom()),
            forall|k: Seq<char>| #[trigger]
                out@.contains(k) <==> keys.contains(k) || (refs.take(i as int).contains(k)
                    && !style::is_standard(k)),
    {
        proof {
            textmap::take_step(refs, i as int);
        }
        let key = style.token_refs.key_at(i);
        if !is_standard_prop(key.as_str()) {
            out.insert(key.clone());
        }
    }
    proof {
        assert(refs.take(m as int) =~= refs);
        assert(out@ =~= extra_props(style@));
    }
    out
}

/// The lines of a style against its parent.
pub fn style_prop_lines(style: &StyleProps, parent: Option<&StyleProps>) -> (r: Vec<String>)
    ensures
        textmap::views(r@) == style_lines(style@, schema::option_view(parent)),
{
    let ghost p = schema::option_view(parent);
    let mut out: Vec<String> = Vec::new();
    let standard = vec![
        "background",
        "foreground",
        "border_color",
        "border_width",
        "border_radius",
        "padding_horizontal",
        "padding_vertical",
        "min_height",
        "min_width",
        "font_family",
        "font_size",
        "font_weight",
        "icon_size",
        "opacity",
        "touch_expansion",
    ];
    let ghost names = standard_props();
    assert(textmap::views(standard@) =~= names);
    assert(textmap::views(out@) =~= prop_lines(style@, p, names.take(0)));
    for i in 0..standard.len()
        invariant
            p == schema::option_view(parent),
            names == textmap::views(standard@),
            textmap::views(out@) == prop_lines(style@, p, names.take(i as int)),
    {
        proof {
            assert(names.take(i + 1).drop_last() =~= names.take(i as int));
            assert(names.take(i + 1).last() == names[i as int]);
        }
        if let Some(l) = write_prop(style, parent, standard[i]) {
            let ghost before = textmap::views(out@);
            out.push(l);
            assert(textmap::views(out@) =~= before.push(l@));
        }
    }
    assert(names.take(standard@.len() as int) =~= names);
    let ghost first = textmap::views(out@);
    let extra = list_extra_props(style);
    let n: usize = extra.len();
    let ghost others = textmap::sorted(extra@);
    assert(first =~= first + prop_lines(style@, p, others.take(0)));
    for i in 0..n
        invariant
            p == schema::option_view(parent),
            others == textmap::sorted(extra@),
            n == others.len(),
            textmap::views(out@) == first + prop_lines(style@, p, others.take(i as int)),
    {
        proof {
            assert(others.take(i + 1).drop_last() =~= others.take(i as int));
            assert(others.take(i + 1).last() == others[i as int]);
        }
        if let Some(l) = write_prop(style, parent, extra.at(i).as_str()) {
            let ghost before = textmap::views(out@);
            out.push(l);
            assert(textmap::views(out@) =~= before.push(l@));
            assert(textmap::views(out@) =~= first + prop_lines(style@, p, others.take(i + 1)));
        }
    }
    assert(others.take(n as int) =~= others);
    out
}

/// The block of a style.
pub open spec fn style_block(indent: nat, header: Seq<char>, s: Style, parent: Option<Style>) -> Seq<char> {
    block(indent, header, lines(indent + 4, style_lines(s, parent)))
}

fn emit_style_block(
    out: &mut String,
    indent: usize,
    header: &str,
    style: &StyleProps,
    parent: Option<&StyleProps>,
)
    requires
        indent <= 100,
    ensures
        final(out)@ == old(out)@ + style_block(
            indent as nat,
            header@,
            style@,
            schema::option_view(parent),
        ),
{
    let all = style_prop_lines(style, parent);
    let mut inner = owned("");
    push_lines(&mut inner, indent + 4, &all);
    proof {
        reveal_strlit("");
        assert(inner@ =~= lines((indent + 4) as nat, textmap::views(all@)));
    }
    push_block(out, indent, header, inner.as_str());
}

/// The blocks of named styles.
pub open spec fn style_blocks(
    indent: nat,
    kind: Seq<char>,
    m: Map<Seq<char>, Style>,
    parent: Option<Map<Seq<char>, Style>>,
    names: Seq<Seq<char>>,
) -> Seq<char>
    decreases names.len(),
{
    if names.len() == 0 {
        Seq::empty()
    } else {
        style_blocks(indent, kind, m, parent, names.drop_last()) + style_block(
            indent,
            kind + literals::quoted(names.last()),
            m[names.last()],
            match parent {
                Some(p) => schema::entry(p, names.last()),
                None => None,
            },
        )
    }
}

fn emit_style_blocks(
    out: &mut String,
    indent: usize,
    kind: &str,
    m: &TextMap<StyleProps>,
    parent: Option<&TextMap<StyleProps>>,
)
    requires
        indent <= 100,
    ensures
        final(out)@ == old(out)@ + style_blocks(
            indent as nat,
            kind@,
            m@,
            schema::option_view(parent),
            textmap::sorted_keys(m@),
        ),
{
    let ghost p = schema::option_view(parent);
    let ghost start = out@;
    let ghost names = textmap::sorted_keys(m@);
    let n: usize = m.len();
    assert(start =~= start + style_blocks(indent as nat, kind@, m@, p, names.take(0)));
    for i in 0..n
        invariant
            indent <= 100,
            p == schema::option_view(parent),
            names == textmap::sorted_keys(m@),
            n == names.len(),
            out@ == start + style_blocks(indent as nat, kind@, m@, p, names.take(i as int)),
    {
        proof {
            assert(names.take(i + 1).drop_last() =~= names.take(i as int));
            assert(names.take(i + 1).last() == names[i as int]);
        }
        let name = m.key_at(i).as_str();
        let mut header = owned(kind);
        header.push_str(rust_string_literal(name).as_str());
        let inherited = match parent {
            Some(q) => q.get(name),
            None => None,
        };
        emit_style_block(out, indent, header.as_str(), m.value_at(i), inherited);
        assert(out@ =~= start + style_blocks(indent as nat, kind@, m@, p, names.take(i + 1)));
    }
    assert(names.take(n as int) =~= names);
}

/// What is in the block of a variant: its default, its sizes and its states.
pub open spec fn variant_inner(indent: nat, v: Variant, parent: Option<Variant>) -> Seq<char> {
    style_block(
        indent + 4,
        "default"@,
        v.default,
        match parent {
            Some(p) => Some(p.default),
            None => None,
        },
    ) + style_blocks(
        indent + 4,
        "size "@,
        v.sizes,
        match parent {
            Some(p) => Some(p.sizes),
            None => None,
        },
        textmap::sorted_keys(v.sizes),
    ) + style_blocks(
        indent + 4,
        "state "@,
        v.states,
        match parent {
            Some(p) => Some(p.states),
            None => None,
        },
        textmap::sorted_keys(v.states),
    )
}

/// The block of a variant.
#[verifier::opaque]
pub open spec fn variant_block(indent: nat, name: Seq<char>, v: Variant, parent: Option<Variant>) -> Seq<char> {
    block(indent, "variant "@ + literals::quoted(name), variant_inner(indent, v, parent))
}

fn emit_variant_block(
    out: &mut String,
    indent: usize,
    variant_name: &str,
    variant: &VariantTheme,
    parent: Option<&VariantTheme>,
)
    requires
        indent <= 90,
    ensures
        final(out)@ == old(out)@ + variant_block(
            indent as nat,
            variant_name@,
            variant@,
            schema::option_view(parent),
        ),
{
    let mut inner = owned("");
    emit_style_block(
        &mut inner,
        indent + 4,
        "default",
        &variant.default,
        match parent {
            Some(p) => Some(&p.default),
            None => None,
        },
    );
    emit_style_blocks(
        &mut inner,
        indent + 4,
        "size ",
        &variant.sizes,
        match parent {
            Some(p) => Some(&p.sizes),
            None => None,
        },
    );
    emit_style_blocks(
        &mut inner,
        indent + 4,
        "state ",
        &variant.states,
        match parent {
            Some(p) => Some(&p.states),
            None => None,
        },
    );
    proof {
        reveal_strlit("");
        assert(inner@ =~= variant_inner(indent as nat, variant@, schema::option_view(parent)));
    }
    reveal(variant_block);
    let mut header = owned("variant ");
    header.push_str(rust_string_literal(variant_name).as_str());
    push_block(out, indent, header.as_str(), inner.as_str());
}

/// The blocks of variants.
pub open spec fn variant_blocks(
    indent: nat,
    m: Map<Seq<char>, Variant>,
    parent: Option<Map<Seq<char>, Variant>>,
    names: Seq<Seq<char>>,
) -> Seq<char>
    decreases names.len(),
{
    if names.len() == 0 {
        Seq::empty()
    } else {
        variant_blocks(indent, m, parent, names.drop_last()) + variant_block(
            indent,
            names.last(),
            m[names.last()],
            match parent {
                Some(p) => schema::entry(p, names.last()),
                None => None,
            },
        )
    }
}

/// What is in the block of a component: its base and its variants.
pub open spec fn component_inner(indent: nat, c: Component, parent: Option<Component>) -> Seq<char> {
    style_block(
        indent + 4,
        "base"@,
        c.base,
        match parent {
            Some(p) => Some(p.base),
            None => None,
        },
    ) + variant_blocks(
        indent + 4,
        c.variants,
        match parent {
            Some(p) => Some(p.variants),
            None => None,
        },
        textmap::sorted_keys(c.variants),
    )
}

/// The block of a component.
#[verifier::opaque]
pub open spec fn component_block(indent: nat, name: Seq<char>, c: Component, parent: Option<Component>) -> Seq<char> {
    block(indent, "component "@ + literals::quoted(name), component_inner(indent, c, parent))
}

fn emit_component_block(
    out: &mut String,
    indent: usize,
    component_name: &str,
    component: &ComponentTheme,
    parent: Option<&ComponentTheme>,
)
    requires
        indent <= 80,
    ensures
        final(out)@ == old(out)@ + component_block(
            indent as nat,
            component_name@,
            component@,
            schema::option_view(parent),
        ),
{
    let mut inner = owned("");
    emit_style_block(
        &mut inner,
        indent + 4,
        "base",
        &component.base,
        match parent {
            Some(p) => Some(&p.base),
            None => None,
        },
    );
    let ghost start = inner@;
    let ghost p = match parent {
        Some(q) => Some(q@.variants),
        None => None,
    };
    let ghost names = textmap::sorted_keys(component@.variants);
    let n: usize = component.variants.len();
    assert(start =~= start + variant_blocks((indent + 4) as nat, component@.variants, p, names.take(0)));
    for i in 0..n
        invariant
            indent <= 80,
            p == (match parent {
                Some(q) => Some(q@.variants),
                None => None,
            }),
            names == textmap::sorted_keys(component.variants@),
            n == names.len(),
            inner@ == start + variant_blocks(
                (indent + 4) as nat,
                component@.variants,
                p,
                names.take(i as int),
            ),
    {
        proof {
            assert(names.take(i + 1).drop_last() =~= names.take(i as int));
            assert(names.take(i + 1).last() == names[i as int]);
        }
        let name = component.variants.key_at(i).as_str();
        let inherited = match parent {
            Some(q) => q.variants.get(name),
            None => None,
        };
        emit_variant_block(&mut inner, indent + 4, name, component.variants.value_at(i), inherited);
        assert(inner@ =~= start + variant_blocks(
            (indent + 4) as nat,
            component@.variants,
            p,
            names.take(i + 1),
        ));
    }
    proof {
        assert(names.take(n as int) =~= names);
        reveal_strlit("");
        assert(inner@ =~= component_inner(indent as nat, component@, schema::option_view(parent)));
    }
    reveal(component_block);
    let mut header = owned("component ");
    header.push_str(rust_string_literal(component_name).as_str());
    push_block(out, indent, header.as_str(), inner.as_str());
}

// ---------------------------------------------------------------------------------------------
// Tokens
// ---------------------------------------------------------------------------------------------
/// A token with its path.
pub struct TokenEntry {
    pub path: String,
    pub value: ExportLiteral,
}

impl View for TokenEntry {
    type V = (Seq<char>, Value);

    open spec fn view(&self) -> (Seq<char>, Value) {
        (self.path@, self.value@)
    }
}

impl Duplicate for TokenEntry {
    fn duplicate(&self) -> (r: Self) {
        TokenEntry { path: self.path.clone(), value: self.value.duplicate() }
    }
}

/// The tokens of a category.
pub open spec fn category_entries(category: Seq<char>, m: Map<Seq<char>, Value>, keys: Seq<Seq<char>>) -> Seq<
    (Seq<char>, Value),
>
    decreases keys.len(),
{
    if keys.len() == 0 {
        Seq::empty()
    } else {
        category_entries(category, m, keys.drop_last()).push(
            (category + "."@ + keys.last(), m[keys.last()]),
        )
    }
}

/// The tokens of categories.
pub open spec fn all_entries(t: Tokens, categories: Seq<Seq<char>>) -> Seq<(Seq<char>, Value)>
    decreases categories.len(),
{
    if categories.len() == 0 {
        Seq::empty()
    } else {
        all_entries(t, categories.drop_last()) + category_entries(
            categories.last(),
            t[categories.last()],
            textmap::sorted_keys(t[categories.last()]),
        )
    }
}

/// Whether a token's path comes before another's.
pub open spec fn path_before() -> spec_fn((Seq<char>, Value), (Seq<char>, Value)) -> bool {
    |a: (Seq<char>, Value), b: (Seq<char>, Value)| text::text_lt(a.0, b.0)
}

/// The tokens by the order of their paths.
pub open spec fn ordered_entries(t: Tokens) -> Seq<(Seq<char>, Value)> {
    sorting::in_order(all_entries(t, textmap::sorted_keys(t)), path_before())
}

/// What a token set holds at a path.
pub open spec fn at_path(t: Option<Tokens>, path: Seq<char>) -> Option<Value> {
    match t {
        Some(p) => match text::dot_split(path) {
            Some((category, key)) => tokens::lookup(p, category, key),
            None => None,
        },
        None => None,
    }
}

/// The lines of those of some tokens that are not the parent's.
pub open spec fn token_lines(entries: Seq<(Seq<char>, Value)>, parent: Option<Tokens>) -> Seq<Seq<char>>
    decreases entries.len(),
{
    if entries.len() == 0 {
        Seq::empty()
    } else {
        let before = token_lines(entries.drop_last(), parent);
        let (path, v) = entries.last();
        if same_setting(Some(v), at_path(parent, path)) {
            before
        } else {
            before.push(literals::quoted(path) + " = "@ + literals::value_source(v) + ";"@)
        }
    }
}

/// The lines of a scheme's tokens.
pub open spec fn scheme_lines(t: Tokens, parent: Option<Tokens>) -> Seq<Seq<char>> {
    token_lines(ordered_entries(t), parent)
}

/// The block of tokens.
pub open spec fn tokens_block(t: SchemeTokens, parent: Option<SchemeTokens>) -> Seq<char> {
    block(
        8,
        "tokens"@,
        block(
            12,
            "light"@,
            lines(
                16,
                scheme_lines(
                    t.light,
                    match parent {
                        Some(p) => Some(p.light),
                        None => None,
                    },
                ),
            ),
        ) + block(
            12,
            "dark"@,
            lines(
                16,
                scheme_lines(
                    t.dark,
                    match parent {
                        Some(p) => Some(p.dark),
                        None => None,
                    },
                ),
            ),
        ),
    )
}

fn add_category(out: &mut Vec<TokenEntry>, category: &str, m: &TextMap<TokenValue>)
    ensures
        textmap::views(final(out)@) == textmap::views(old(out)@) + category_entries(
            category@,
            m@,
            textmap::sorted_keys(m@),
        ),
{
    let ghost start = textmap::views(out@);
    let ghost keys = textmap::sorted_keys(m@);
    let n: usize = m.len();
    assert(start =~= start + category_entries(category@, m@, keys.take(0)));
    for i in 0..n
        invariant
            keys == textmap::sorted_keys(m@),
            n == keys.len(),
            textmap::views(out@) == start + category_entries(category@, m@, keys.take(i as int)),
    {
        proof {
            assert(keys.take(i + 1).drop_last() =~= keys.take(i as int));
            assert(keys.take(i + 1).last() == keys[i as int]);
        }
        let mut path = owned(category);
        path.push_str(".");
        path.push_str(m.key_at(i).as_str());
        let entry = TokenEntry { path, value: token_literal(m.value_at(i)) };
        let ghost before = textmap::views(out@);
        out.push(entry);
        assert(textmap::views(out@) =~= before.push(entry@));
        assert(textmap::views(out@) =~= start + category_entries(category@, m@, keys.take(i + 1)));
    }
    assert(keys.take(n as int) =~= keys);
}

fn list_entries(set: &TokenSet) -> (r: Vec<TokenEntry>)
    ensures
        textmap::views(r@) == ordered_entries(set@),
{
    let all = set.categories();
    let mut out: Vec<TokenEntry> = Vec::new();
    let ghost names = textmap::sorted_keys(set@);
    let n: usize = all.len();
    assert(textmap::views(out@) =~= all_entries(set@, names.take(0)));
    for i in 0..n
        invariant
            all@ == set@,
            names == textmap::sorted_keys(all@),
            n == names.len(),
            textmap::views(out@) == all_entries(set@, names.take(i as int)),
    {
        proof {
            assert(names.take(i + 1).drop_last() =~= names.take(i as int));
            assert(names.take(i + 1).last() == names[i as int]);
        }
        add_category(&mut out, all.key_at(i).as_str(), all.value_at(i));
    }
    assert(names.take(n as int) =~= names);
    sort_all(
        &out,
        |a: &TokenEntry, b: &TokenEntry| -> (c: bool)
            ensures
                c == text::text_lt(a@.0, b@.0)
            { text_less(a.path.as_str(), b.path.as_str()) },
        Ghost(path_before()),
    )
}

fn write_scheme(set: &TokenSet, parent: Option<&TokenSet>) -> (r: Vec<String>)
    ensures
        textmap::views(r@) == scheme_lines(set@, schema::option_view(parent)),
{
    let ghost p = schema::option_view(parent);
    let entries = list_entries(set);
    let ghost all = ordered_entries(set@);
    let mut out: Vec<String> = Vec::new();
    assert(textmap::views(out@) =~= token_lines(all.take(0), p));
    for i in 0..entries.len()
        invariant
            p == schema::option_view(parent),
            all == textmap::views(entries@),
            textmap::views(out@) == token_lines(all.take(i as int), p),
    {
        proof {
            assert(all.take(i + 1).drop_last() =~= all.take(i as int));
            assert(all.take(i + 1).last() == all[i as int]);
        }
        let e = &entries[i];
        let inherited: Option<ExportLiteral> = match parent {
            Some(q) => match split_dot(e.path.as_str()) {
                Some((category, key)) => match q.get(category.as_str(), key.as_str()) {
                    Some(v) => Some(token_literal(v)),
                    None => None,
                },
                None => None,
            },
            None => None,
        };
        assert(literal_view(inherited) == at_path(p, e@.0));
        let same = match &inherited {
            Some(w) => e.value.same(w),
            None => false,
        };
        if !same {
            let mut l = rust_string_literal(e.path.as_str());
            l.push_str(" = ");
            l.push_str(e.value.to_macro_expr().as_str());
            l.push_str(";");
            let ghost before = textmap::views(out@);
            out.push(l);
            assert(textmap::views(out@) =~= before.push(l@));
        }
    }
    assert(all.take(entries@.len() as int) =~= all);
    out
}

fn scheme_block(header: &str, set: &TokenSet, parent: Option<&TokenSet>) -> (r: String)
    ensures
        r@ == block(12, header@, lines(16, scheme_lines(set@, schema::option_view(parent)))),
{
    let all = write_scheme(set, parent);
    let mut inner = owned("");
    push_lines(&mut inner, 16, &all);
    let mut out = owned("");
    proof {
        reveal_strlit("");
        assert(inner@ =~= lines(16, textmap::views(all@)));
    }
    push_block(&mut out, 12, header, inner.as_str());
    assert(out@ =~= block(12, header@, inner@));
    out
}

// ---------------------------------------------------------------------------------------------
// Theme functions
// ---------------------------------------------------------------------------------------------
/// The blocks of components.
pub open spec fn component_blocks(
    m: Map<Seq<char>, Component>,
    parent: Option<Map<Seq<char>, Component>>,
    names: Seq<Seq<char>>,
) -> Seq<char>
    decreases names.len(),
{
    if names.len() == 0 {
        Seq::empty()
    } else {
        component_blocks(m, parent, names.drop_last()) + component_block(
            8,
            names.last(),
            m[names.last()],
            match parent {
                Some(p) => schema::entry(p, names.last()),
                None => None,
            },
        )
    }
}

/// The source of a theme: what it does not share with its parent.
pub open spec fn theme_function(
    name: Seq<char>,
    is_public: bool,
    t: ThemeModel,
    parent: Option<(Seq<char>, ThemeModel)>,
) -> Seq<char> {
    "define_theme! {\n"@ + opening(name, is_public) + extension(parent) + tokens_block(
        t.tokens,
        match parent {
            Some((_, p)) => Some(p.tokens),
            None => None,
        },
    ) + component_blocks(
        t.components,
        match parent {
            Some((_, p)) => Some(p.components),
            None => None,
        },
        textmap::sorted_keys(t.components),
    ) + line(4, "}"@) + "}\n\n"@
}

fn emit_components(out: &mut String, m: &TextMap<ComponentTheme>, parent: Option<&TextMap<ComponentTheme>>)
    ensures
        final(out)@ == old(out)@ + component_blocks(
            m@,
            schema::option_view(parent),
            textmap::sorted_keys(m@),
        ),
{
    let ghost p = schema::option_view(parent);
    let ghost start = out@;
    let ghost names = textmap::sorted_keys(m@);
    let n: usize = m.len();
    assert(start =~= start + component_blocks(m@, p, names.take(0)));
    for i in 0..n
        invariant
            p == schema::option_view(parent),
            names == textmap::sorted_keys(m@),
            n == names.len(),
            out@ == start + component_blocks(m@, p, names.take(i as int)),
    {
        proof {
            assert(names.take(i + 1).drop_last() =~= names.take(i as int));
            assert(names.take(i + 1).last() == names[i as int]);
        }
        let name = m.key_at(i).as_str();
        let inherited = match parent {
            Some(q) => q.get(name),
            None => None,
        };
        emit_component_block(out, 8, name, m.value_at(i), inherited);
        assert(out@ =~= start + component_blocks(m@, p, names.take(i + 1)));
    }
    assert(names.take(n as int) =~= names);
}

fn emit_tokens(out: &mut String, t: &ThemeTokens, parent: Option<&ThemeTokens>)
    ensures
        final(out)@ == old(out)@ + tokens_block(t@, schema::option_view(parent)),
{
    let mut inner = scheme_block(
        "light",
        &t.light,
        match parent {
            Some(p) => Some(&p.light),
            None => None,
        },
    );
    inner.push_str(
        scheme_block(
            "dark",
            &t.dark,
            match parent {
                Some(p) => Some(&p.dark),
                None => None,
            },
        ).as_str(),
    );
    push_block(out, 8, "tokens", inner.as_str());
}

proof fn lemma_behind(
    start: Seq<char>,
    a: Seq<char>,
    b: Seq<char>,
    c: Seq<char>,
    d: Seq<char>,
    e: Seq<char>,
    f: Seq<char>,
    g: Seq<char>,
)
    ensures
        start + a + b + c + d + e + f + g == start + (a + b + c + d + e + f + g),
{
    assert(start + a + b + c + d + e + f + g =~= start + (a + b + c + d + e + f + g));
}

/// The line that opens a theme's function.
pub open spec fn opening(name: Seq<char>, is_public: bool) -> Seq<char> {
    line(
        4,
        (if is_public {
            "pub "@
        } else {
            ""@
        }) + "fn "@ + name + "() -> Theme {"@,
    )
}

/// The line that names the parent.
pub open spec fn extension(parent: Option<(Seq<char>, ThemeModel)>) -> Seq<char> {
    match parent {
        Some((expr, _)) => line(8, "extends "@ + expr + ";"@),
        None => Seq::empty(),
    }
}

/// What the parent of an exported theme stands for.
pub open spec fn parent_view(parent: Option<(&str, &Theme)>) -> Option<(Seq<char>, ThemeModel)> {
    match parent {
        Some((expr, t)) => Some((expr@, t@)),
        None => None,
    }
}

/// Writes the source of a theme.
pub fn emit_theme_function(
    out: &mut String,
    function_name: &str,
    is_public: bool,
    theme: &Theme,
    parent: Option<(&str, &Theme)>,
)
    ensures
        final(out)@ == old(out)@ + theme_function(function_name@, is_public, theme@, parent_view(parent)),
{
    let ghost start = out@;
    out.push_str("define_theme! {\n");
    let mut head = owned(
        if is_public {
            "pub "
        } else {
            ""
        },
    );
    head.push_str("fn ");
    head.push_str(function_name);
    head.push_str("() -> Theme {");
    push_line(out, 4, head.as_str());
    let (expr, inherited): (Option<&str>, Option<&Theme>) = match parent {
        Some((e, t)) => (Some(e), Some(t)),
        None => (None, None),
    };
    if let Some(e) = expr {
        let mut l = owned("extends ");
        l.push_str(e);
        l.push_str(";");
        push_line(out, 8, l.as_str());
    }
    assert(out@ =~= start + "define_theme! {\n"@ + opening(function_name@, is_public) + extension(
        parent_view(parent),
    ));
    emit_tokens(
        out,
        &theme.tokens,
        match inherited {
            Some(t) => Some(&t.tokens),
            None => None,
        },
    );
    emit_components(
        out,
        &theme.components,
        match inherited {
            Some(t) => Some(&t.components),
            None => None,
        },
    );
    push_line(out, 4, "}");
    out.push_str("}\n\n");
    proof {
        let p = parent_view(parent);
        lemma_behind(
            start,
            "define_theme! {\n"@,
            opening(function_name@, is_public),
            extension(p),
            tokens_block(
                theme@.tokens,
                match p {
                    Some((_, t)) => Some(t.tokens),
                    None => None,
                },
            ),
            component_blocks(
                theme@.components,
                match p {
                    Some((_, t)) => Some(t.components),
                    None => None,
                },
                textmap::sorted_keys(theme@.components),
            ),
            line(4, "}"@),
            "}\n\n"@,
        );
    }
}

// ---------------------------------------------------------------------------------------------
// Laws
// ---------------------------------------------------------------------------------------------
proof fn lemma_nothing_changed(s: Style, props: Seq<Seq<char>>)
    requires
        forall|prop: Seq<char>| #[trigger] style_literal(s, prop) matches Some(v) ==> value::same_value(v, v),
    ensures
        prop_lines(s, Some(s), props) == Seq::<Seq<char>>::empty(),
    decreases props.len(),
{
    if props.len() > 0 {
        lemma_nothing_changed(s, props.drop_last());
        assert(same_setting(style_literal(s, props.last()), style_literal(s, props.last())));
    }
}

/// Nothing is written of a style that is its parent's, where it holds no NaN.
pub proof fn inherited_style_is_not_written(indent: nat, header: Seq<char>, s: Style)
    requires
        forall|prop: Seq<char>| #[trigger] style_literal(s, prop) matches Some(v) ==> value::same_value(v, v),
    ensures
        style_block(indent, header, s, Some(s)) == Seq::<char>::empty(),
{
    lemma_nothing_changed(s, standard_props());
    lemma_nothing_changed(s, textmap::sorted(extra_props(s)));
    assert(style_lines(s, Some(s)) =~= Seq::<Seq<char>>::empty());
}

/// The function of a theme with a name of moderate length is named by the characters of the theme's
/// identifier.
pub proof fn function_is_named_by_identifier(s: Seq<char>)
    requires
        s.len() < MAX_THEME_FUNCTION_NAME_LEN - 1,
    ensures
        function_chars(s) == records::identifier_chars(s),
        records::identifier_chars(s).len() <= s.len() + 1,
        text::without_trailing(records::identifier_chars(s), '_').len() > 0 ==> function_ident(s)
            == records::identifier(s),
    decreases s.len(),
{
    if s.len() > 0 {
        function_is_named_by_identifier(s.drop_last());
    }
}

} // verus!
