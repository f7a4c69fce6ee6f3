//! The `<key>_theme.slint` emitter.
//!
//! A token-backed theme value becomes a reference to the shared `Theme` global, e.g.
//! `Theme.color-primary`; a literal (hex color / number) is inlined. State falls back to Normal,
//! concrete sizes fall back to Common, and later variants fall back to the first variant.

use vstd::prelude::*;
use crate::schema::{self, is_token_text, schema_variant_default, slint_type, variant_override, ComponentOverrides, OverridesModel, PluginDefinition, PluginModel, PropDefinition, PropModel, Raw, Real, RealModel, TokenOrValue};
use crate::text::{self, char_lower, integer_to_text, join_texts, joined, owned, replaced_char, split_dot, starts_with, text_eq, to_chars};
use crate::textmap;

verus! {

/// The lines with which every generated file begins.
pub open spec fn header() -> Seq<char> {
    "// SPDX-FileCopyrightText: 2026 Foundation Devices, Inc. <hello@foundation.xyz>\n// SPDX-License-Identifier: MIT OR Apache-2.0\n"@
}

/// Name and value of the fields of a generated struct.
pub type Fields = Seq<(Seq<char>, Seq<char>)>;

/// A named set of fields.
pub type StyleRow = (Seq<char>, Fields);

/// The models of text pairs.
pub open spec fn pairs(v: Seq<(String, String)>) -> Fields {
    Seq::new(v.len(), |i: int| (v[i].0@, v[i].1@))
}

/// The models of text triples.
pub open spec fn triples(v: Seq<(String, String, String)>) -> Seq<(Seq<char>, Seq<char>, Seq<char>)> {
    Seq::new(v.len(), |i: int| (v[i].0@, v[i].1@, v[i].2@))
}

/// The models of named field sets.
pub open spec fn style_rows(v: Seq<(String, Vec<(String, String)>)>) -> Seq<StyleRow> {
    Seq::new(v.len(), |i: int| (v[i].0@, pairs(v[i].1@)))
}

// ---------------------------------------------------------------------------------------------
// Names and values
// ---------------------------------------------------------------------------------------------
/// The text in kebab case: a hyphen before each inner ASCII capital, and all in lower case.
pub open spec fn kebab_of(s: Seq<char>) -> Seq<char>
    decreases s.len(),
{
    if s.len() == 0 {
        Seq::empty()
    } else {
        let front = kebab_of(s.drop_last());
        let c = s.last();
        if text::is_upper(c) && s.len() > 1 {
            front.push('-').push(text::lower(c))
        } else {
            front.push(text::lower(c))
        }
    }
}

/// The text in kebab case.
pub fn kebab(s: &str) -> (r: String)
    ensures
        r@ == kebab_of(s@),
{
    let chars = to_chars(s);
    let mut out = String::new();
    for i in 0..chars.len()
        invariant
            chars@ == s@,
            out@ == kebab_of(s@.take(i as int)),
    {
        proof {
            assert(s@.take(i + 1).drop_last() =~= s@.take(i as int));
        }
        let c = chars[i];
        if 'A' <= c && c <= 'Z' && i != 0 {
            out.push('-');
        }
        out.push(char_lower(c));
    }
    assert(s@.take(s@.len() as int) =~= s@);
    out
}

/// Token categories exposed on the Slint `Theme` global.
pub open spec fn is_exposed(category: Seq<char>) -> bool {
    ||| category == "font"@
    ||| category == "fontSize"@
    ||| category == "fontWeight"@
    ||| category == "borderWidth"@
    ||| category == "controlSize"@
    ||| category == "choiceControlSize"@
    ||| category == "switchSize"@
    ||| category == "iconSize"@
    ||| category == "radius"@
    ||| category == "controlRadius"@
    ||| category == "controlPaddingInline"@
    ||| category == "spacing"@
}

fn category_is_exposed(category: &str) -> (r: bool)
    ensures
        r == is_exposed(category@),
{
    text_eq(category, "font") || text_eq(category, "fontSize") || text_eq(category, "fontWeight")
        || text_eq(category, "borderWidth") || text_eq(category, "controlSize") || text_eq(
        category,
        "choiceControlSize",
    ) || text_eq(category, "switchSize") || text_eq(category, "iconSize") || text_eq(
        category,
        "radius",
    ) || text_eq(category, "controlRadius") || text_eq(category, "controlPaddingInline") || text_eq(
        category,
        "spacing",
    )
}

/// The Slint expression for a token, where its category is exposed.
pub open spec fn token_expression(token: Seq<char>) -> Option<Seq<char>> {
    match text::dot_split(token) {
        None => None,
        Some((category, key)) => if category == "color"@ {
            Some("Theme.color-"@ + text::replace_char(key, '.', '-'))
        } else if is_exposed(category) {
            Some("Theme."@ + kebab_of(category) + "-"@ + key)
        } else {
            None
        },
    }
}

/// Map a token like `fontSize.md` to `Theme.font-size-md`. Returns `None` for categories not
/// exposed on the Theme global.
pub fn slint_token_ref(token: &str) -> (r: Option<String>)
    ensures
        (match r {
            Some(s) => Some(s@),
            None => None,
        }) == token_expression(token@),
{
    match split_dot(token) {
        None => None,
        Some((category, key)) => {
            if text_eq(category.as_str(), "color") {
                let mut out = owned("Theme.color-");
                out.push_str(replaced_char(key.as_str(), '.', '-').as_str());
                return Some(out);
            }
            if !category_is_exposed(category.as_str()) {
                return None;
            }
            let mut out = owned("Theme.");
            out.push_str(kebab(category.as_str()).as_str());
            out.push_str("-");
            out.push_str(key.as_str());
            Some(out)
        },
    }
}

/// The text of a number: its whole part where it has no fraction, else its decimal text.
pub open spec fn number_text(f: RealModel) -> Seq<char> {
    if f.integral {
        text::int_text(f.whole as int)
    } else {
        f.text
    }
}

/// The text of a number.
pub fn fmt_num(f: &Real) -> (r: String)
    ensures
        r@ == number_text(f@),
{
    if f.integral {
        integer_to_text(f.whole)
    } else {
        f.text.clone()
    }
}

/// The Slint expression for a value of a property of a Slint type.
pub open spec fn value_expression(slint_type: Seq<char>, v: Raw) -> Seq<char> {
    match v {
        Raw::Text(s) => if schema::looks_like_token(s) {
            match token_expression(s) {
                Some(e) => e,
                None => "0px /* TODO unmapped token: "@ + s + " */"@,
            }
        } else if text::has_prefix(s, seq!['#']) {
            s
        } else {
            "\""@ + s + "\""@
        },
        Raw::Float(f) => if slint_type == "length"@ {
            number_text(f) + "px"@
        } else if slint_type == "int"@ {
            text::int_text(f.whole as int)
        } else {
            number_text(f)
        },
        Raw::Int(i) => if slint_type == "length"@ {
            text::int_text(i as int) + "px"@
        } else {
            text::int_text(i as int)
        },
        Raw::Bool(b) => if b {
            "true"@
        } else {
            "false"@
        },
    }
}

/// The Slint expression for a value of a property of a Slint type.
pub fn emit_value(slint_type: &str, tov: &TokenOrValue) -> (r: String)
    ensures
        r@ == value_expression(slint_type@, tov@),
{
    match tov {
        TokenOrValue::String(s) => {
            if is_token_text(s.as_str()) {
                match slint_token_ref(s.as_str()) {
                    Some(e) => e,
                    None => {
                        let mut out = owned("0px /* TODO unmapped token: ");
                        out.push_str(s.as_str());
                        out.push_str(" */");
                        out
                    },
                }
            } else {
                proof {
                    reveal_strlit("#");
                    assert("#"@ =~= seq!['#']);
                }
                if starts_with(s.as_str(), "#") {
                    s.clone()
                } else {
                    let mut out = owned("\"");
                    out.push_str(s.as_str());
                    out.push_str("\"");
                    out
                }
            }
        },
        TokenOrValue::Float(f) => {
            if text_eq(slint_type, "length") {
                joined(fmt_num(f).as_str(), "px")
            } else if text_eq(slint_type, "int") {
                integer_to_text(f.whole)
            } else {
                fmt_num(f)
            }
        },
        TokenOrValue::Int(i) => {
            let digits = integer_to_text(*i);
            if text_eq(slint_type, "length") {
                joined(digits.as_str(), "px")
            } else {
                digits
            }
        },
        TokenOrValue::Bool(b) => owned(if *b { "true" } else { "false" }),
    }
}

/// The expression for a variant property in a variant and a state.
pub open spec fn variant_field(
    plugin: PluginModel,
    overrides: Option<OverridesModel>,
    p: PropModel,
    variant: Seq<char>,
    state: Seq<char>,
) -> Seq<char> {
    match schema::or_else(
        schema::effective_override(plugin.variants, overrides, variant, state, p.name),
        schema::effective_default(plugin.variants, p.defaults, variant, state),
    ) {
        Some(v) => value_expression(schema::slint_type_of(p), v),
        None => "0px /* missing */"@,
    }
}

/// The fields of a variant in a state.
pub open spec fn variant_fields(
    plugin: PluginModel,
    overrides: Option<OverridesModel>,
    variant: Seq<char>,
    state: Seq<char>,
) -> Fields {
    Seq::new(
        plugin.variant_props.len(),
        |i: int|
            (
                kebab_of(plugin.variant_props[i].name),
                variant_field(plugin, overrides, plugin.variant_props[i], variant, state),
            ),
    )
}

/// The fields of a variant in a state.
pub fn resolved_variant_fields(
    plugin: &PluginDefinition,
    overrides: Option<&ComponentOverrides>,
    variant: &str,
    state: &str,
) -> (r: Vec<(String, String)>)
    ensures
        pairs(r@) == variant_fields(
            plugin@,
            schema::overrides_view(overrides),
            variant@,
            state@,
        ),
{
    let mut out: Vec<(String, String)> = Vec::new();
    let ghost goal = variant_fields(plugin@, schema::overrides_view(overrides), variant@, state@);
    for i in 0..plugin.variant_props.len()
        invariant
            goal == variant_fields(plugin@, schema::overrides_view(overrides), variant@, state@),
            out@.len() == i,
            forall|j: int| 0 <= j < i ==> #[trigger] pairs(out@)[j] == goal[j],
    {
        let prop = &plugin.variant_props[i];
        assert(prop@ == plugin@.variant_props[i as int]);
        let found = match variant_override(plugin, overrides, variant, state, prop.name.as_str()) {
            Some(v) => Some(v),
            None => schema_variant_default(plugin, prop, variant, state),
        };
        let value = match found {
            Some(v) => emit_value(slint_type(prop), v),
            None => owned("0px /* missing */"),
        };
        let ghost before = out@;
        out.push((kebab(prop.name.as_str()), value));
        proof {
            assert forall|j: int| 0 <= j < i + 1 implies #[trigger] pairs(out@)[j] == goal[j] by {
                if j < i {
                    assert(pairs(before)[j] == goal[j]);
                }
            }
        }
    }
    assert(pairs(out@) =~= goal);
    out
}

/// The schema default that counts for a size: that of the size, else that of `common`, else that of
/// `default`, where it is a direct value.
pub open spec fn size_default(p: PropModel, size: Seq<char>) -> Option<Raw> {
    match schema::or_else(
        schema::entry(p.defaults, size),
        schema::or_else(
            schema::entry(p.defaults, "common"@),
            schema::entry(p.defaults, "default"@),
        ),
    ) {
        Some(d) => d.direct(),
        None => None,
    }
}

/// The expression for a size property in a size.
pub open spec fn size_field(
    overrides: Option<OverridesModel>,
    p: PropModel,
    size: Seq<char>,
) -> Seq<char> {
    let by_override = match overrides {
        Some(o) => o.size(size, p.name),
        None => None,
    };
    match schema::or_else(by_override, size_default(p, size)) {
        Some(v) => value_expression(schema::slint_type_of(p), v),
        None => "0px /* missing default */"@,
    }
}

/// The fields of a size.
pub open spec fn size_fields(
    plugin: PluginModel,
    overrides: Option<OverridesModel>,
    size: Seq<char>,
) -> Fields {
    Seq::new(
        plugin.size_props.len(),
        |i: int|
            (
                kebab_of(plugin.size_props[i].name),
                size_field(overrides, plugin.size_props[i], size),
            ),
    )
}

fn size_default_of<'a>(prop: &'a PropDefinition, size: &str) -> (r: Option<&'a TokenOrValue>)
    ensures
        schema::option_view(r) == size_default(prop@, size@),
{
    let found = match prop.defaults.values.get(size) {
        Some(d) => Some(d),
        None => match prop.defaults.values.get("common") {
            Some(d) => Some(d),
            None => prop.defaults.values.get("default"),
        },
    };
    match found {
        Some(d) => d.get_direct(),
        None => None,
    }
}

/// The fields of a size.
pub fn resolved_size_fields(
    plugin: &PluginDefinition,
    overrides: Option<&ComponentOverrides>,
    size: &str,
) -> (r: Vec<(String, String)>)
    ensures
        pairs(r@) == size_fields(plugin@, schema::overrides_view(overrides), size@),
{
    let mut out: Vec<(String, String)> = Vec::new();
    let ghost goal = size_fields(plugin@, schema::overrides_view(overrides), size@);
    for i in 0..plugin.size_props.len()
        invariant
            goal == size_fields(plugin@, schema::overrides_view(overrides), size@),
            out@.len() == i,
            forall|j: int| 0 <= j < i ==> #[trigger] pairs(out@)[j] == goal[j],
    {
        let prop = &plugin.size_props[i];
        assert(prop@ == plugin@.size_props[i as int]);
        let by_override = match overrides {
            Some(o) => o.size(size, prop.name.as_str()),
            None => None,
        };
        let found = match by_override {
            Some(v) => Some(v),
            None => size_default_of(prop, size),
        };
        let value = match found {
            Some(v) => emit_value(slint_type(prop), v),
            None => owned("0px /* missing default */"),
        };
        let ghost before = out@;
        out.push((kebab(prop.name.as_str()), value));
        proof {
            assert forall|j: int| 0 <= j < i + 1 implies #[trigger] pairs(out@)[j] == goal[j] by {
                if j < i {
                    assert(pairs(before)[j] == goal[j]);
                }
            }
        }
    }
    assert(pairs(out@) =~= goal);
    out
}

// ---------------------------------------------------------------------------------------------
// Lookup functions
// ---------------------------------------------------------------------------------------------
/// The lines of the fields of a struct value.
pub open spec fn field_lines(fields: Fields, indent: Seq<char>) -> Seq<char>
    decreases fields.len(),
{
    if fields.len() == 0 {
        Seq::empty()
    } else {
        field_lines(fields.drop_last(), indent) + indent + "    "@ + fields.last().0 + ": "@
            + fields.last().1 + ",\n"@
    }
}

/// The statement that returns a struct value.
pub open spec fn struct_return(fields: Fields, indent: Seq<char>) -> Seq<char> {
    indent + "return {\n"@ + field_lines(fields, indent) + indent + "};\n"@
}

/// The statement that returns a struct value.
pub fn emit_struct_return(fields: &Vec<(String, String)>, indent: &str) -> (r: String)
    ensures
        r@ == struct_return(pairs(fields@), indent@),
{
    let mut lines = String::new();
    let ghost all = pairs(fields@);
    for i in 0..fields.len()
        invariant
            all == pairs(fields@),
            lines@ == field_lines(all.take(i as int), indent@),
    {
        proof {
            assert(all.take(i + 1).drop_last() =~= all.take(i as int));
            assert(all.take(i + 1).last() == all[i as int]);
        }
        lines.push_str(indent);
        lines.push_str("    ");
        lines.push_str(fields[i].0.as_str());
        lines.push_str(": ");
        lines.push_str(fields[i].1.as_str());
        lines.push_str(",\n");
    }
    assert(all.take(fields@.len() as int) =~= all);
    let mut out = owned(indent);
    out.push_str("return {\n");
    out.push_str(lines.as_str());
    out.push_str(indent);
    out.push_str("};\n");
    out
}

/// The index of the first row with a name: the number of rows where there is none.
pub open spec fn row_named(rows: Seq<StyleRow>, name: Seq<char>) -> int
    decreases rows.len(),
{
    if rows.len() == 0 {
        0
    } else {
        let i = row_named(rows.drop_last(), name);
        if i < rows.len() - 1 || rows.last().0 == name {
            i
        } else {
            rows.len() as int
        }
    }
}

/// The index of the first row with the given fields: the number of rows where there is none.
pub open spec fn row_with_fields(rows: Seq<StyleRow>, fields: Fields) -> int
    decreases rows.len(),
{
    if rows.len() == 0 {
        0
    } else {
        let i = row_with_fields(rows.drop_last(), fields);
        if i < rows.len() - 1 || rows.last().1 == fields {
            i
        } else {
            rows.len() as int
        }
    }
}

/// The fields of the first row with a name.
pub open spec fn fields_named(rows: Seq<StyleRow>, name: Seq<char>) -> Fields {
    rows[row_named(rows, name)].1
}

/// Whether a row has a name.
pub open spec fn has_row(rows: Seq<StyleRow>, name: Seq<char>) -> bool {
    row_named(rows, name) < rows.len()
}

/// The index of a name is that of the first row with it.
pub proof fn row_named_is(rows: Seq<StyleRow>, name: Seq<char>)
    ensures
        0 <= row_named(rows, name) <= rows.len(),
        row_named(rows, name) < rows.len() ==> rows[row_named(rows, name)].0 == name,
        forall|i: int| 0 <= i < row_named(rows, name) ==> (#[trigger] rows[i]).0 != name,
    decreases rows.len(),
{
    if rows.len() > 0 {
        row_named_is(rows.drop_last(), name);
        assert forall|i: int| 0 <= i < row_named(rows, name) implies (#[trigger] rows[i]).0 != name by {
            if i < rows.len() - 1 {
                assert(rows.drop_last()[i] == rows[i]);
            }
        }
    }
}

pub(crate) proof fn lemma_row_with_fields(rows: Seq<StyleRow>, fields: Fields)
    ensures
        0 <= row_with_fields(rows, fields) <= rows.len(),
        row_with_fields(rows, fields) < rows.len() ==> rows[row_with_fields(rows, fields)].1
            == fields,
        forall|i: int|
            0 <= i < row_with_fields(rows, fields) ==> (#[trigger] rows[i]).1 != fields,
    decreases rows.len(),
{
    if rows.len() > 0 {
        lemma_row_with_fields(rows.drop_last(), fields);
        assert forall|i: int| 0 <= i < row_with_fields(rows, fields) implies (#[trigger] rows[i]).1
            != fields by {
            if i < rows.len() - 1 {
                assert(rows.drop_last()[i] == rows[i]);
            }
        }
    }
}

fn find_named(rows: &Vec<(String, Vec<(String, String)>)>, name: &str) -> (r: usize)
    ensures
        r == row_named(style_rows(rows@), name@),
        r <= rows@.len(),
{
    let ghost all = style_rows(rows@);
    for i in 0..rows.len()
        invariant
            all == style_rows(rows@),
            forall|j: int| 0 <= j < i ==> (#[trigger] all[j]).0 != name@,
    {
        if text_eq(rows[i].0.as_str(), name) {
            proof {
                row_named_is(all, name@);
                assert(all[i as int].0 == name@);
            }
            return i;
        }
    }
    proof {
        row_named_is(all, name@);
    }
    rows.len()
}

/// Whether two lists of text pairs hold the same texts.
fn same_pairs(a: &Vec<(String, String)>, b: &Vec<(String, String)>) -> (r: bool)
    ensures
        r == (pairs(a@) == pairs(b@)),
{
    if a.len() != b.len() {
        assert(pairs(a@).len() != pairs(b@).len());
        return false;
    }
    for i in 0..a.len()
        invariant
            a@.len() == b@.len(),
            forall|j: int| 0 <= j < i ==> #[trigger] pairs(a@)[j] == pairs(b@)[j],
    {
        if !text_eq(a[i].0.as_str(), b[i].0.as_str()) || !text_eq(a[i].1.as_str(), b[i].1.as_str()) {
            assert(pairs(a@)[i as int] != pairs(b@)[i as int]);
            return false;
        }
    }
    assert(pairs(a@) =~= pairs(b@));
    true
}

fn find_fields(rows: &Vec<(String, Vec<(String, String)>)>, fields: &Vec<(String, String)>) -> (r:
    usize)
    ensures
        r == row_with_fields(style_rows(rows@), pairs(fields@)),
        r <= rows@.len(),
{
    let ghost all = style_rows(rows@);
    for i in 0..rows.len()
        invariant
            all == style_rows(rows@),
            forall|j: int| 0 <= j < i ==> (#[trigger] all[j]).1 != pairs(fields@),
    {
        if same_pairs(&rows[i].1, fields) {
            proof {
                lemma_row_with_fields(all, pairs(fields@));
                assert(all[i as int].1 == pairs(fields@));
            }
            return i;
        }
    }
    proof {
        lemma_row_with_fields(all, pairs(fields@));
    }
    rows.len()
}

/// The target of a profile's normal state: of the first state named "normal", else of the first.
pub open spec fn normal_target(profile: Fields) -> Seq<char> {
    normal_target_from(profile, 0)
}

/// The target of the first state named "normal" at or after an index, else of the first state.
pub open spec fn normal_target_from(profile: Fields, from: int) -> Seq<char>
    decreases profile.len() - from,
{
    if from >= profile.len() {
        profile[0].1
    } else if profile[from].0 == "normal"@ {
        profile[from].1
    } else {
        normal_target_from(profile, from + 1)
    }
}

/// The tests `st == <enum>.<state>` for the states of a profile with a target.
pub open spec fn state_clauses(profile: Fields, target: Seq<char>, state_enum: Seq<char>) -> Seq<
    Seq<char>,
>
    decreases profile.len(),
{
    if profile.len() == 0 {
        Seq::empty()
    } else {
        let front = state_clauses(profile.drop_last(), target, state_enum);
        if profile.last().1 == target {
            front.push("st == "@ + state_enum + "."@ + profile.last().0)
        } else {
            front
        }
    }
}

/// The branch that returns a target's fields in the states that have it.
pub open spec fn state_branch(
    rows: Seq<StyleRow>,
    profile: Fields,
    target: Seq<char>,
    state_enum: Seq<char>,
    indent: Seq<char>,
) -> Seq<char> {
    indent + "if "@ + text::join(
        state_clauses(profile, target, state_enum),
        "\n"@ + indent + "    || "@,
    ) + " {\n"@ + struct_return(fields_named(rows, target), indent + "    "@) + indent + "}\n"@
}

/// Whether the target of entry `i` is also the target of an earlier entry.
pub open spec fn target_seen(profile: Fields, i: int) -> bool {
    exists|j: int| 0 <= j < i && (#[trigger] profile[j]).1 == profile[i].1
}

/// The branches for the first `n` entries of a profile: one for each target other than the normal
/// one, where it comes first.
pub open spec fn state_branches(
    rows: Seq<StyleRow>,
    profile: Fields,
    n: int,
    state_enum: Seq<char>,
    indent: Seq<char>,
) -> Seq<char>
    decreases n,
{
    if n <= 0 {
        Seq::empty()
    } else {
        let front = state_branches(rows, profile, n - 1, state_enum, indent);
        if profile[n - 1].1 == normal_target(profile) || target_seen(profile, n - 1) {
            front
        } else {
            front + state_branch(rows, profile, profile[n - 1].1, state_enum, indent)
        }
    }
}

/// The statements that choose by state: a branch for each target other than the normal one, then
/// the normal one.
pub open spec fn state_lookup(
    rows: Seq<StyleRow>,
    profile: Fields,
    state_enum: Seq<char>,
    indent: Seq<char>,
) -> Seq<char> {
    state_branches(rows, profile, profile.len() as int, state_enum, indent) + struct_return(
        fields_named(rows, normal_target(profile)),
        indent,
    )
}

/// Every target of a profile names a row.
pub open spec fn targets_known(rows: Seq<StyleRow>, profile: Fields) -> bool {
    forall|i: int| 0 <= i < profile.len() ==> has_row(rows, (#[trigger] profile[i]).1)
}

fn find_normal_target(profile: &Vec<(String, String)>) -> (r: usize)
    requires
        profile@.len() > 0,
    ensures
        r < profile@.len(),
        profile@[r as int].1@ == normal_target(pairs(profile@)),
{
    let ghost all = pairs(profile@);
    for i in 0..profile.len()
        invariant
            all == pairs(profile@),
            normal_target(all) == normal_target_from(all, i as int),
    {
        assert(all[i as int] == (profile@[i as int].0@, profile@[i as int].1@));
        if text_eq(profile[i].0.as_str(), "normal") {
            return i;
        }
    }
    assert(all[0] == (profile@[0].0@, profile@[0].1@));
    0
}

fn clauses_for_states(profile: &Vec<(String, String)>, target: &str, state_enum: &str) -> (r: Vec<
    String,
>)
    ensures
        textmap::views(r@) == state_clauses(pairs(profile@), target@, state_enum@),
{
    let mut out: Vec<String> = Vec::new();
    let ghost all = pairs(profile@);
    assert(textmap::views(out@) =~= Seq::<Seq<char>>::empty());
    for i in 0..profile.len()
        invariant
            all == pairs(profile@),
            textmap::views(out@) == state_clauses(all.take(i as int), target@, state_enum@),
    {
        proof {
            assert(all.take(i + 1).drop_last() =~= all.take(i as int));
            assert(all.take(i + 1).last() == all[i as int]);
        }
        if text_eq(profile[i].1.as_str(), target) {
            let mut clause = owned("st == ");
            clause.push_str(state_enum);
            clause.push_str(".");
            clause.push_str(profile[i].0.as_str());
            let ghost before = textmap::views(out@);
            out.push(clause);
            assert(textmap::views(out@) =~= before.push(clause@));
        }
    }
    assert(all.take(profile@.len() as int) =~= all);
    out
}

fn emit_state_branch(
    unique_styles: &Vec<(String, Vec<(String, String)>)>,
    profile: &Vec<(String, String)>,
    target: &str,
    state_enum: &str,
    indent: &str,
) -> (r: String)
    requires
        has_row(style_rows(unique_styles@), target@),
    ensures
        r@ == state_branch(
            style_rows(unique_styles@),
            pairs(profile@),
            target@,
            state_enum@,
            indent@,
        ),
{
    let mut out = owned(indent);
    out.push_str("if ");
    let mut sep = owned("\n");
    sep.push_str(indent);
    sep.push_str("    || ");
    let clauses = clauses_for_states(profile, target, state_enum);
    out.push_str(join_texts(&clauses, sep.as_str()).as_str());
    out.push_str(" {\n");
    let row = find_named(unique_styles, target);
    let inner = joined(indent, "    ");
    out.push_str(emit_struct_return(&unique_styles[row].1, inner.as_str()).as_str());
    out.push_str(indent);
    out.push_str("}\n");
    out
}

fn earlier_target(profile: &Vec<(String, String)>, i: usize) -> (r: bool)
    requires
        i < profile@.len(),
    ensures
        r == target_seen(pairs(profile@), i as int),
{
    let ghost all = pairs(profile@);
    for j in 0..i
        invariant
            all == pairs(profile@),
            i < profile@.len(),
            forall|k: int| 0 <= k < j ==> (#[trigger] all[k]).1 != all[i as int].1,
    {
        if text_eq(profile[j].1.as_str(), profile[i].1.as_str()) {
            assert(all[j as int].1 == all[i as int].1);
            return true;
        }
    }
    false
}

/// The statements that choose by state.
pub fn emit_state_lookup_body(
    unique_styles: &Vec<(String, Vec<(String, String)>)>,
    profile: &Vec<(String, String)>,
    state_enum: &str,
    indent: &str,
) -> (r: String)
    requires
        profile@.len() > 0,
        targets_known(style_rows(unique_styles@), pairs(profile@)),
    ensures
        r@ == state_lookup(
            style_rows(unique_styles@),
            pairs(profile@),
            state_enum@,
            indent@,
        ),
{
    let ghost rows = style_rows(unique_styles@);
    let ghost all = pairs(profile@);
    let normal = find_normal_target(profile);
    let mut out = String::new();
    for i in 0..profile.len()
        invariant
            rows == style_rows(unique_styles@),
            all == pairs(profile@),
            targets_known(rows, all),
            normal < profile@.len(),
            profile@[normal as int].1@ == normal_target(all),
            out@ == state_branches(rows, all, i as int, state_enum@, indent@),
    {
        assert(has_row(rows, all[i as int].1));
        if !text_eq(profile[i].1.as_str(), profile[normal].1.as_str()) && !earlier_target(profile, i) {
            let branch = emit_state_branch(
                unique_styles,
                profile,
                profile[i].1.as_str(),
                state_enum,
                indent,
            );
            out.push_str(branch.as_str());
        }
    }
    assert(has_row(rows, all[normal as int].1));
    let row = find_named(unique_styles, profile[normal].1.as_str());
    out.push_str(emit_struct_return(&unique_styles[row].1, indent).as_str());
    out
}

/// A variant, a state and the name of the style they share.
pub type Target = (Seq<char>, Seq<char>, Seq<char>);

/// States and targets of one variant.
pub open spec fn profile_of(targets: Seq<Target>, variant: Seq<char>) -> Fields
    decreases targets.len(),
{
    if targets.len() == 0 {
        Seq::empty()
    } else {
        let front = profile_of(targets.drop_last(), variant);
        if targets.last().0 == variant {
            front.push((targets.last().1, targets.last().2))
        } else {
            front
        }
    }
}

/// The variants of a list of targets, each once, in the order in which they first come.
pub open spec fn distinct_variants(targets: Seq<Target>) -> Seq<Seq<char>>
    decreases targets.len(),
{
    if targets.len() == 0 {
        Seq::empty()
    } else {
        let front = distinct_variants(targets.drop_last());
        if front.contains(targets.last().0) {
            front
        } else {
            front.push(targets.last().0)
        }
    }
}

/// Variants that share one profile.
pub type Group = (Seq<Seq<char>>, Fields);

/// The index of the first group with a profile: the number of groups where there is none.
pub open spec fn group_with(groups: Seq<Group>, profile: Fields) -> int
    decreases groups.len(),
{
    if groups.len() == 0 {
        0
    } else {
        let i = group_with(groups.drop_last(), profile);
        if i < groups.len() - 1 || groups.last().1 == profile {
            i
        } else {
            groups.len() as int
        }
    }
}

/// The groups of variants with equal profiles, in the order in which the profiles first come.
pub open spec fn grouped(targets: Seq<Target>, variants: Seq<Seq<char>>) -> Seq<Group>
    decreases variants.len(),
{
    if variants.len() == 0 {
        Seq::empty()
    } else {
        let front = grouped(targets, variants.drop_last());
        let v = variants.last();
        let profile = profile_of(targets, v);
        let i = group_with(front, profile);
        if i < front.len() {
            front.update(i, (front[i].0.push(v), front[i].1))
        } else {
            front.push((seq![v], profile))
        }
    }
}

/// The tests `v == <enum>.<variant>`.
pub open spec fn variant_clauses(variants: Seq<Seq<char>>, variant_enum: Seq<char>) -> Seq<
    Seq<char>,
> {
    Seq::new(variants.len(), |i: int| "v == "@ + variant_enum + "."@ + variants[i])
}

/// The index of the first group at or after `from` that holds a variant.
pub open spec fn group_holding(groups: Seq<Group>, variant: Seq<char>, from: int) -> int
    decreases groups.len() - from,
{
    if from >= groups.len() || groups[from].0.contains(variant) {
        from
    } else {
        group_holding(groups, variant, from + 1)
    }
}

/// The branch of a group of variants.
pub open spec fn variant_branch(
    rows: Seq<StyleRow>,
    group: Group,
    variant_enum: Seq<char>,
    state_enum: Seq<char>,
) -> Seq<char> {
    "        if "@ + text::join(variant_clauses(group.0, variant_enum), "\n            || "@)
        + " {\n"@ + state_lookup(rows, group.1, state_enum, "            "@) + "        }\n"@
}

/// The branches of the first `n` groups, without that of the fallback group.
pub open spec fn variant_branches(
    rows: Seq<StyleRow>,
    groups: Seq<Group>,
    n: int,
    fallback: int,
    variant_enum: Seq<char>,
    state_enum: Seq<char>,
) -> Seq<char>
    decreases n,
{
    if n <= 0 {
        Seq::empty()
    } else {
        let front = variant_branches(rows, groups, n - 1, fallback, variant_enum, state_enum);
        if n - 1 == fallback {
            front
        } else {
            front + variant_branch(rows, groups[n - 1], variant_enum, state_enum)
        }
    }
}

/// The statements that choose by variant and state. Variants with identical state maps share one
/// branch; the group of the last variant is the fall-through. With an empty variant enum only the
/// state decides.
pub open spec fn variant_lookup(
    rows: Seq<StyleRow>,
    targets: Seq<Target>,
    variant_enum: Seq<char>,
    state_enum: Seq<char>,
) -> Seq<char> {
    if variant_enum.len() == 0 {
        state_lookup(
            rows,
            Seq::new(targets.len(), |i: int| (targets[i].1, targets[i].2)),
            state_enum,
            "        "@,
        )
    } else {
        let variants = distinct_variants(targets);
        let groups = grouped(targets, variants);
        let fallback = group_holding(groups, variants.last(), 0);
        variant_branches(rows, groups, groups.len() as int, fallback, variant_enum, state_enum)
            + state_lookup(rows, groups[fallback].1, state_enum, "        "@)
    }
}

/// Every target names a row.
pub open spec fn all_targets_known(rows: Seq<StyleRow>, targets: Seq<Target>) -> bool {
    forall|i: int| 0 <= i < targets.len() ==> has_row(rows, (#[trigger] targets[i]).2)
}

/// Whether a variant has a target.
pub open spec fn has_target(targets: Seq<Target>, variant: Seq<char>) -> bool {
    exists|j: int| 0 <= j < targets.len() && (#[trigger] targets[j]).0 == variant
}

pub(crate) proof fn lemma_profile(rows: Seq<StyleRow>, targets: Seq<Target>, variant: Seq<char>)
    requires
        all_targets_known(rows, targets),
    ensures
        targets_known(rows, profile_of(targets, variant)),
        has_target(targets, variant) ==> profile_of(targets, variant).len() > 0,
    decreases targets.len(),
{
    if targets.len() > 0 {
        let front = targets.drop_last();
        assert(all_targets_known(rows, front)) by {
            assert forall|i: int| 0 <= i < front.len() implies has_row(
                rows,
                (#[trigger] front[i]).2,
            ) by {
                assert(front[i] == targets[i]);
            }
        }
        lemma_profile(rows, front, variant);
        assert(has_row(rows, targets[targets.len() - 1].2));
        if has_target(targets, variant) {
            let i = choose|i: int| 0 <= i < targets.len() && (#[trigger] targets[i]).0 == variant;
            if i < targets.len() - 1 {
                assert(front[i].0 == variant);
            }
        }
        let p = profile_of(targets, variant);
        let fp = profile_of(front, variant);
        assert forall|i: int| 0 <= i < p.len() implies has_row(rows, (#[trigger] p[i]).1) by {
            if i < fp.len() {
                assert(p[i] == fp[i]);
            }
        }
    }
}

pub(crate) proof fn lemma_distinct(targets: Seq<Target>)
    ensures
        targets.len() > 0 ==> distinct_variants(targets).len() > 0,
        forall|i: int|
            0 <= i < distinct_variants(targets).len() ==> has_target(
                targets,
                #[trigger] distinct_variants(targets)[i],
            ),
    decreases targets.len(),
{
    if targets.len() > 0 {
        let front = targets.drop_last();
        lemma_distinct(front);
        let d = distinct_variants(targets);
        let fd = distinct_variants(front);
        assert forall|i: int| 0 <= i < d.len() implies has_target(targets, #[trigger] d[i]) by {
            if i < fd.len() {
                assert(d[i] == fd[i]);
                let j = choose|j: int| 0 <= j < front.len() && (#[trigger] front[j]).0 == fd[i];
                assert(targets[j].0 == d[i]);
            } else {
                assert(targets[targets.len() - 1].0 == d[i]);
            }
        }
    }
}

pub(crate) proof fn lemma_group_with(groups: Seq<Group>, profile: Fields)
    ensures
        0 <= group_with(groups, profile) <= groups.len(),
        group_with(groups, profile) < groups.len() ==> groups[group_with(groups, profile)].1
            == profile,
        forall|i: int| 0 <= i < group_with(groups, profile) ==> (#[trigger] groups[i]).1 != profile,
    decreases groups.len(),
{
    if groups.len() > 0 {
        lemma_group_with(groups.drop_last(), profile);
        assert forall|i: int| 0 <= i < group_with(groups, profile) implies (#[trigger] groups[i]).1
            != profile by {
            if i < groups.len() - 1 {
                assert(groups.drop_last()[i] == groups[i]);
            }
        }
    }
}

/// Every group has a profile of known targets, and every listed variant is in a group.
pub(crate) proof fn lemma_grouped(rows: Seq<StyleRow>, targets: Seq<Target>, variants: Seq<Seq<char>>)
    requires
        all_targets_known(rows, targets),
        forall|i: int|
            0 <= i < variants.len() ==> has_target(targets, #[trigger] variants[i]),
    ensures
        forall|g: int|
            0 <= g < grouped(targets, variants).len() ==> targets_known(
                rows,
                (#[trigger] grouped(targets, variants)[g]).1,
            ) && grouped(targets, variants)[g].1.len() > 0,
        forall|i: int|
            0 <= i < variants.len() ==> exists|g: int|
                0 <= g < grouped(targets, variants).len() && (#[trigger] grouped(
                    targets,
                    variants,
                )[g]).0.contains(#[trigger] variants[i]),
    decreases variants.len(),
{
    if variants.len() > 0 {
        let fv = variants.drop_last();
        assert forall|i: int| 0 <= i < fv.len() implies has_target(targets, #[trigger] fv[i]) by {
            assert(fv[i] == variants[i]);
        }
        lemma_grouped(rows, targets, fv);
        let front = grouped(targets, fv);
        let v = variants.last();
        let profile = profile_of(targets, v);
        assert(variants[variants.len() - 1] == v);
        lemma_profile(rows, targets, v);
        lemma_group_with(front, profile);
        let i = group_with(front, profile);
        let all = grouped(targets, variants);
        assert forall|k: int| 0 <= k < variants.len() implies exists|g: int|
            0 <= g < all.len() && (#[trigger] all[g]).0.contains(#[trigger] variants[k]) by {
            if k == variants.len() - 1 {
                if i < front.len() {
                    assert(all[i].0[front[i].0.len() as int] == v);
                    assert(all[i].0.contains(v));
                } else {
                    assert(all[front.len() as int].0[0] == v);
                    assert(all[front.len() as int].0.contains(v));
                }
            } else {
                assert(fv[k] == variants[k]);
                let g = choose|g: int|
                    0 <= g < front.len() && (#[trigger] front[g]).0.contains(fv[k]);
                let x = choose|x: int| 0 <= x < front[g].0.len() && front[g].0[x] == fv[k];
                assert(all[g].0[x] == fv[k]);
                assert(all[g].0.contains(fv[k]));
            }
        }
    }
}

pub(crate) proof fn lemma_group_holding(groups: Seq<Group>, variant: Seq<char>, from: int)
    requires
        0 <= from <= groups.len(),
        exists|g: int| from <= g < groups.len() && (#[trigger] groups[g]).0.contains(variant),
    ensures
        from <= group_holding(groups, variant, from) < groups.len(),
    decreases groups.len() - from,
{
    let g = choose|g: int| from <= g < groups.len() && (#[trigger] groups[g]).0.contains(variant);
    if !groups[from].0.contains(variant) {
        assert(from + 1 <= g);
        lemma_group_holding(groups, variant, from + 1);
    }
}

/// The models of groups of variants.
pub open spec fn group_views(v: Seq<(Vec<String>, Vec<(String, String)>)>) -> Seq<Group> {
    Seq::new(v.len(), |i: int| (textmap::views(v[i].0@), pairs(v[i].1@)))
}

fn profile_for(targets: &Vec<(String, String, String)>, variant: &str) -> (r: Vec<(String, String)>)
    ensures
        pairs(r@) == profile_of(triples(targets@), variant@),
{
    let mut out: Vec<(String, String)> = Vec::new();
    let ghost all = triples(targets@);
    assert(pairs(out@) =~= Seq::<(Seq<char>, Seq<char>)>::empty());
    for i in 0..targets.len()
        invariant
            all == triples(targets@),
            pairs(out@) == profile_of(all.take(i as int), variant@),
    {
        proof {
            assert(all.take(i + 1).drop_last() =~= all.take(i as int));
            assert(all.take(i + 1).last() == all[i as int]);
        }
        if text_eq(targets[i].0.as_str(), variant) {
            let ghost before = pairs(out@);
            out.push((targets[i].1.clone(), targets[i].2.clone()));
            assert(pairs(out@) =~= before.push((all[i as int].1, all[i as int].2)));
        }
    }
    assert(all.take(targets@.len() as int) =~= all);
    out
}

/// Whether a text is in a list.
pub fn has_text(list: &Vec<String>, item: &str) -> (r: bool)
    ensures
        r == textmap::views(list@).contains(item@),
{
    for i in 0..list.len()
        invariant
            forall|j: int| 0 <= j < i ==> #[trigger] textmap::views(list@)[j] != item@,
    {
        if text_eq(list[i].as_str(), item) {
            assert(textmap::views(list@)[i as int] == item@);
            return true;
        }
    }
    false
}

fn variants_of(targets: &Vec<(String, String, String)>) -> (r: Vec<String>)
    ensures
        textmap::views(r@) == distinct_variants(triples(targets@)),
{
    let mut out: Vec<String> = Vec::new();
    let ghost all = triples(targets@);
    assert(textmap::views(out@) =~= Seq::<Seq<char>>::empty());
    for i in 0..targets.len()
        invariant
            all == triples(targets@),
            textmap::views(out@) == distinct_variants(all.take(i as int)),
    {
        proof {
            assert(all.take(i + 1).drop_last() =~= all.take(i as int));
            assert(all.take(i + 1).last() == all[i as int]);
        }
        if !has_text(&out, targets[i].0.as_str()) {
            let ghost before = textmap::views(out@);
            out.push(targets[i].0.clone());
            assert(textmap::views(out@) =~= before.push(all[i as int].0));
        }
    }
    assert(all.take(targets@.len() as int) =~= all);
    out
}

fn find_group(groups: &Vec<(Vec<String>, Vec<(String, String)>)>, profile: &Vec<(String, String)>) -> (r:
    usize)
    ensures
        r == group_with(group_views(groups@), pairs(profile@)),
        r <= groups@.len(),
{
    let ghost all = group_views(groups@);
    for i in 0..groups.len()
        invariant
            all == group_views(groups@),
            forall|j: int| 0 <= j < i ==> (#[trigger] all[j]).1 != pairs(profile@),
    {
        if same_pairs(&groups[i].1, profile) {
            proof {
                lemma_group_with(all, pairs(profile@));
                assert(all[i as int].1 == pairs(profile@));
            }
            return i;
        }
    }
    proof {
        lemma_group_with(all, pairs(profile@));
    }
    groups.len()
}

fn group_variants(targets: &Vec<(String, String, String)>, variants: &Vec<String>) -> (r: Vec<
    (Vec<String>, Vec<(String, String)>),
>)
    ensures
        group_views(r@) == grouped(triples(targets@), textmap::views(variants@)),
{
    let mut out: Vec<(Vec<String>, Vec<(String, String)>)> = Vec::new();
    let ghost t = triples(targets@);
    let ghost all = textmap::views(variants@);
    assert(group_views(out@) =~= Seq::<Group>::empty());
    for i in 0..variants.len()
        invariant
            t == triples(targets@),
            all == textmap::views(variants@),
            group_views(out@) == grouped(t, all.take(i as int)),
    {
        proof {
            assert(all.take(i + 1).drop_last() =~= all.take(i as int));
            assert(all.take(i + 1).last() == all[i as int]);
        }
        let profile = profile_for(targets, variants[i].as_str());
        let at = find_group(&out, &profile);
        let ghost before = group_views(out@);
        let ghost raw = out@;
        if at < out.len() {
            let mut slot: (Vec<String>, Vec<(String, String)>) = (Vec::new(), profile);
            std::mem::swap(&mut out[at], &mut slot);
            let (mut names, same) = slot;
            let ghost names0 = textmap::views(names@);
            names.push(variants[i].clone());
            proof {
                assert(names0 == before[at as int].0);
                assert(textmap::views(names@) =~= names0.push(all[i as int]));
                assert(pairs(same@) == before[at as int].1);
            }
            out[at] = (names, same);
            assert(group_views(out@) =~= before.update(
                at as int,
                (before[at as int].0.push(all[i as int]), before[at as int].1),
            ));
        } else {
            let first = vec![variants[i].clone()];
            assert(textmap::views(first@) =~= seq![all[i as int]]);
            out.push((first, profile));
            assert(group_views(out@) =~= before.push((seq![all[i as int]], pairs(profile@))));
        }
    }
    assert(all.take(variants@.len() as int) =~= all);
    out
}

fn clauses_for_variants(variants: &Vec<String>, variant_enum: &str) -> (r: Vec<String>)
    ensures
        textmap::views(r@) == variant_clauses(textmap::views(variants@), variant_enum@),
{
    let mut out: Vec<String> = Vec::new();
    let ghost goal = variant_clauses(textmap::views(variants@), variant_enum@);
    for i in 0..variants.len()
        invariant
            goal == variant_clauses(textmap::views(variants@), variant_enum@),
            out@.len() == i,
            forall|j: int| 0 <= j < i ==> (#[trigger] out@[j])@ == goal[j],
    {
        let mut clause = owned("v == ");
        clause.push_str(variant_enum);
        clause.push_str(".");
        clause.push_str(variants[i].as_str());
        out.push(clause);
    }
    assert(textmap::views(out@) =~= goal);
    out
}

fn find_holding(groups: &Vec<(Vec<String>, Vec<(String, String)>)>, variant: &str) -> (r: usize)
    requires
        group_holding(group_views(groups@), variant@, 0) < groups@.len(),
    ensures
        r == group_holding(group_views(groups@), variant@, 0),
        r < groups@.len(),
{
    let ghost all = group_views(groups@);
    let mut i: usize = 0;
    while i < groups.len()
        invariant
            all == group_views(groups@),
            i <= groups@.len(),
            group_holding(all, variant@, 0) == group_holding(all, variant@, i as int),
            group_holding(all, variant@, 0) < groups@.len(),
        decreases groups@.len() - i,
    {
        assert(all[i as int].0 == textmap::views(groups@[i as int].0@));
        if has_text(&groups[i].0, variant) {
            return i;
        }
        i = i + 1;
    }
    0
}

/// The statements that choose by variant and state.
pub fn emit_variant_lookup_body(
    unique_styles: &Vec<(String, Vec<(String, String)>)>,
    targets: &Vec<(String, String, String)>,
    variant_enum: &str,
    state_enum: &str,
) -> (r: String)
    requires
        targets@.len() > 0,
        all_targets_known(style_rows(unique_styles@), triples(targets@)),
    ensures
        r@ == variant_lookup(
            style_rows(unique_styles@),
            triples(targets@),
            variant_enum@,
            state_enum@,
        ),
{
    let ghost rows = style_rows(unique_styles@);
    let ghost t = triples(targets@);
    if variant_enum.is_empty() {
        let mut profile: Vec<(String, String)> = Vec::new();
        let ghost goal = Seq::new(t.len(), |i: int| (t[i].1, t[i].2));
        for i in 0..targets.len()
            invariant
                t == triples(targets@),
                goal == Seq::new(t.len(), |i: int| (t[i].1, t[i].2)),
                profile@.len() == i,
                forall|j: int| 0 <= j < i ==> #[trigger] pairs(profile@)[j] == goal[j],
        {
            let ghost before = profile@;
            profile.push((targets[i].1.clone(), targets[i].2.clone()));
            proof {
                assert forall|j: int| 0 <= j < i + 1 implies #[trigger] pairs(profile@)[j]
                    == goal[j] by {
                    if j < i {
                        assert(pairs(before)[j] == goal[j]);
                    }
                }
            }
        }
        proof {
            assert(pairs(profile@) =~= goal);
            assert forall|i: int| 0 <= i < goal.len() implies has_row(
                rows,
                (#[trigger] goal[i]).1,
            ) by {
                assert(has_row(rows, t[i].2));
            }
        }
        return emit_state_lookup_body(unique_styles, &profile, state_enum, "        ");
    }
    let variants = variants_of(targets);
    let groups = group_variants(targets, &variants);
    let ghost vs = textmap::views(variants@);
    let ghost gs = group_views(groups@);
    proof {
        lemma_distinct(t);
        lemma_grouped(rows, t, vs);
        assert(vs[vs.len() - 1] == vs.last());
        lemma_group_holding(gs, vs.last(), 0);
    }
    let fallback = find_holding(&groups, variants[variants.len() - 1].as_str());
    let mut out = String::new();
    for i in 0..groups.len()
        invariant
            rows == style_rows(unique_styles@),
            gs == group_views(groups@),
            forall|g: int|
                0 <= g < gs.len() ==> targets_known(rows, (#[trigger] gs[g]).1) && gs[g].1.len() > 0,
            out@ == variant_branches(
                rows,
                gs,
                i as int,
                fallback as int,
                variant_enum@,
                state_enum@,
            ),
    {
        if i != fallback {
            assert(targets_known(rows, gs[i as int].1));
            let mut branch = owned("        if ");
            let clauses = clauses_for_variants(&groups[i].0, variant_enum);
            branch.push_str(join_texts(&clauses, "\n            || ").as_str());
            branch.push_str(" {\n");
            branch.push_str(
                emit_state_lookup_body(
                    unique_styles,
                    &groups[i].1,
                    state_enum,
                    "            ",
                ).as_str(),
            );
            branch.push_str("        }\n");
            out.push_str(branch.as_str());
        }
    }
    assert(targets_known(rows, gs[fallback as int].1));
    out.push_str(
        emit_state_lookup_body(
            unique_styles,
            &groups[fallback].1,
            state_enum,
            "        ",
        ).as_str(),
    );
    out
}

/// How many targets have a name.
pub open spec fn uses(targets: Fields, name: Seq<char>) -> nat
    decreases targets.len(),
{
    if targets.len() == 0 {
        0
    } else {
        uses(targets.drop_last(), name) + (if targets.last().1 == name {
            1nat
        } else {
            0nat
        })
    }
}

/// The index of the most used among the first `n` rows; of equally used ones the last.
pub open spec fn most_used(rows: Seq<StyleRow>, targets: Fields, n: int) -> int
    decreases n,
{
    if n <= 1 {
        0
    } else {
        let best = most_used(rows, targets, n - 1);
        if uses(targets, rows[n - 1].0) >= uses(targets, rows[best].0) {
            n - 1
        } else {
            best
        }
    }
}

/// The tests `s == <enum>.<size>` for the sizes with a target.
pub open spec fn size_clauses(targets: Fields, name: Seq<char>, size_enum: Seq<char>) -> Seq<
    Seq<char>,
>
    decreases targets.len(),
{
    if targets.len() == 0 {
        Seq::empty()
    } else {
        let front = size_clauses(targets.drop_last(), name, size_enum);
        if targets.last().1 == name {
            front.push("s == "@ + size_enum + "."@ + targets.last().0)
        } else {
            front
        }
    }
}

/// The branches of the first `n` rows, without that of the fallback.
pub open spec fn size_branches(
    rows: Seq<StyleRow>,
    targets: Fields,
    n: int,
    fallback: Seq<char>,
    size_enum: Seq<char>,
) -> Seq<char>
    decreases n,
{
    if n <= 0 {
        Seq::empty()
    } else {
        let front = size_branches(rows, targets, n - 1, fallback, size_enum);
        let row = rows[n - 1];
        if row.0 == fallback {
            front
        } else {
            front + "        if "@ + text::join(
                size_clauses(targets, row.0, size_enum),
                "\n            || "@,
            ) + " {\n"@ + struct_return(row.1, "            "@) + "        }\n"@
        }
    }
}

/// The statements that choose by size: the most widely shared value set is the fall-through.
pub open spec fn size_lookup(rows: Seq<StyleRow>, targets: Fields, size_enum: Seq<char>) -> Seq<char> {
    let fallback = rows[most_used(rows, targets, rows.len() as int)].0;
    size_branches(rows, targets, rows.len() as int, fallback, size_enum) + struct_return(
        fields_named(rows, fallback),
        "        "@,
    )
}

fn count_uses(targets: &Vec<(String, String)>, name: &str) -> (r: usize)
    ensures
        r == uses(pairs(targets@), name@),
{
    let mut n: usize = 0;
    let ghost all = pairs(targets@);
    for i in 0..targets.len()
        invariant
            all == pairs(targets@),
            n == uses(all.take(i as int), name@),
            n <= i,
    {
        proof {
            assert(all.take(i + 1).drop_last() =~= all.take(i as int));
            assert(all.take(i + 1).last() == all[i as int]);
        }
        if text_eq(targets[i].1.as_str(), name) {
            n = n + 1;
        }
    }
    assert(all.take(targets@.len() as int) =~= all);
    n
}

fn clauses_for_sizes(targets: &Vec<(String, String)>, name: &str, size_enum: &str) -> (r: Vec<
    String,
>)
    ensures
        textmap::views(r@) == size_clauses(pairs(targets@), name@, size_enum@),
{
    let mut out: Vec<String> = Vec::new();
    let ghost all = pairs(targets@);
    assert(textmap::views(out@) =~= Seq::<Seq<char>>::empty());
    for i in 0..targets.len()
        invariant
            all == pairs(targets@),
            textmap::views(out@) == size_clauses(all.take(i as int), name@, size_enum@),
    {
        proof {
            assert(all.take(i + 1).drop_last() =~= all.take(i as int));
            assert(all.take(i + 1).last() == all[i as int]);
        }
        if text_eq(targets[i].1.as_str(), name) {
            let mut clause = owned("s == ");
            clause.push_str(size_enum);
            clause.push_str(".");
            clause.push_str(targets[i].0.as_str());
            let ghost before = textmap::views(out@);
            out.push(clause);
            assert(textmap::views(out@) =~= before.push(clause@));
        }
    }
    assert(all.take(targets@.len() as int) =~= all);
    out
}

/// The statements that choose by size.
pub fn emit_size_lookup_body(
    unique_styles: &Vec<(String, Vec<(String, String)>)>,
    targets: &Vec<(String, String)>,
    size_enum: &str,
) -> (r: String)
    requires
        unique_styles@.len() > 0,
    ensures
        r@ == size_lookup(style_rows(unique_styles@), pairs(targets@), size_enum@),
{
    let ghost rows = style_rows(unique_styles@);
    let ghost t = pairs(targets@);
    let mut best: usize = 0;
    let mut best_uses: usize = count_uses(targets, unique_styles[0].0.as_str());
    for i in 1..unique_styles.len()
        invariant
            rows == style_rows(unique_styles@),
            t == pairs(targets@),
            1 <= i <= unique_styles@.len(),
            best < i,
            best == most_used(rows, t, i as int),
            best_uses == uses(t, rows[best as int].0),
    {
        let n: usize = count_uses(targets, unique_styles[i].0.as_str());
        if n >= best_uses {
            best = i;
            best_uses = n;
        }
    }
    let fallback = unique_styles[best].0.as_str();
    let mut out = String::new();
    for i in 0..unique_styles.len()
        invariant
            rows == style_rows(unique_styles@),
            t == pairs(targets@),
            out@ == size_branches(rows, t, i as int, fallback@, size_enum@),
    {
        if !text_eq(unique_styles[i].0.as_str(), fallback) {
            let clauses = clauses_for_sizes(targets, unique_styles[i].0.as_str(), size_enum);
            out.push_str("        if ");
            out.push_str(join_texts(&clauses, "\n            || ").as_str());
            out.push_str(" {\n");
            out.push_str(emit_struct_return(&unique_styles[i].1, "            ").as_str());
            out.push_str("        }\n");
        }
    }
    proof {
        row_named_is(rows, fallback@);
        assert(rows[best as int].0 == fallback@);
    }
    let row = find_named(unique_styles, fallback);
    out.push_str(emit_struct_return(&unique_styles[row].1, "        ").as_str());
    out
}

// ---------------------------------------------------------------------------------------------
// Sharing equal value sets
// ---------------------------------------------------------------------------------------------
/// The rows without those whose fields an earlier row has.
pub open spec fn distinct_rows(rows: Seq<StyleRow>) -> Seq<StyleRow>
    decreases rows.len(),
{
    if rows.len() == 0 {
        Seq::empty()
    } else {
        let front = distinct_rows(rows.drop_last());
        if row_with_fields(front, rows.last().1) < front.len() {
            front
        } else {
            front.push(rows.last())
        }
    }
}

/// For each row the name of the distinct row that has its fields.
pub open spec fn shared_names(rows: Seq<StyleRow>) -> Seq<Seq<char>> {
    Seq::new(
        rows.len(),
        |i: int| distinct_rows(rows)[row_with_fields(distinct_rows(rows), rows[i].1)].0,
    )
}

proof fn lemma_row_with_fields_push(rows: Seq<StyleRow>, row: StyleRow, fields: Fields)
    requires
        row_with_fields(rows, fields) < rows.len(),
    ensures
        row_with_fields(rows.push(row), fields) == row_with_fields(rows, fields),
{
    assert(rows.push(row).drop_last() =~= rows);
}

pub(crate) proof fn lemma_distinct_rows_cover(rows: Seq<StyleRow>, i: int)
    requires
        0 <= i < rows.len(),
    ensures
        0 <= row_with_fields(distinct_rows(rows), rows[i].1) < distinct_rows(rows).len(),
    decreases rows.len(),
{
    let front = distinct_rows(rows.drop_last());
    lemma_row_with_fields(front, rows[i].1);
    if i == rows.len() - 1 {
        if row_with_fields(front, rows.last().1) >= front.len() {
            assert(front.push(rows.last()).drop_last() =~= front);
        }
    } else {
        assert(rows.drop_last()[i] == rows[i]);
        lemma_distinct_rows_cover(rows.drop_last(), i);
        lemma_row_with_fields_push(front, rows.last(), rows[i].1);
    }
}

/// Every value set is kept once: no two distinct rows have the same fields.
pub proof fn distinct_rows_differ(rows: Seq<StyleRow>, i: int, j: int)
    requires
        0 <= i < j < distinct_rows(rows).len(),
    ensures
        distinct_rows(rows)[i].1 != distinct_rows(rows)[j].1,
    decreases rows.len(),
{
    let front = distinct_rows(rows.drop_last());
    lemma_row_with_fields(front, rows.last().1);
    if j < front.len() {
        distinct_rows_differ(rows.drop_last(), i, j);
    }
}

pub(crate) proof fn lemma_distinct_rows_from(rows: Seq<StyleRow>, k: int) -> (i: int)
    requires
        0 <= k < distinct_rows(rows).len(),
    ensures
        0 <= i < rows.len(),
        rows[i] == distinct_rows(rows)[k],
    decreases rows.len(),
{
    let front = distinct_rows(rows.drop_last());
    if k < front.len() {
        let i = lemma_distinct_rows_from(rows.drop_last(), k);
        assert(rows.drop_last()[i] == rows[i]);
        i
    } else {
        rows.len() - 1
    }
}

/// Sharing loses nothing: where all rows have names of their own, the row that a shared name leads
/// to has exactly the fields of the row it stands for.
pub proof fn shared_row_has_own_fields(rows: Seq<StyleRow>, i: int)
    requires
        0 <= i < rows.len(),
        forall|a: int, b: int|
            0 <= a < b < rows.len() ==> (#[trigger] rows[a]).0 != (#[trigger] rows[b]).0,
    ensures
        has_row(distinct_rows(rows), shared_names(rows)[i]),
        fields_named(distinct_rows(rows), shared_names(rows)[i]) == rows[i].1,
{
    let d = distinct_rows(rows);
    let k = row_with_fields(d, rows[i].1);
    lemma_distinct_rows_cover(rows, i);
    lemma_row_with_fields(d, rows[i].1);
    row_named_is(d, d[k].0);
    let n = row_named(d, d[k].0);
    let a = lemma_distinct_rows_from(rows, n);
    let b = lemma_distinct_rows_from(rows, k);
    assert(rows[a].0 == rows[b].0);
}

fn copy_pairs(v: &Vec<(String, String)>) -> (r: Vec<(String, String)>)
    ensures
        pairs(r@) == pairs(v@),
{
    let mut out: Vec<(String, String)> = Vec::new();
    for i in 0..v.len()
        invariant
            out@.len() == i,
            forall|j: int| 0 <= j < i ==> (#[trigger] out@[j]).0@ == v@[j].0@ && out@[j].1@ == v@[j].1@,
    {
        out.push((v[i].0.clone(), v[i].1.clone()));
    }
    assert(pairs(out@) =~= pairs(v@));
    out
}

fn share_rows(rows: &Vec<(String, Vec<(String, String)>)>) -> (r: (
    Vec<(String, Vec<(String, String)>)>,
    Vec<String>,
))
    ensures
        style_rows(r.0@) == distinct_rows(style_rows(rows@)),
        textmap::views(r.1@) == shared_names(style_rows(rows@)),
        r.1@.len() == rows@.len(),
        forall|i: int|
            0 <= i < rows@.len() ==> has_row(style_rows(r.0@), #[trigger] textmap::views(r.1@)[i]),
{
    let mut unique: Vec<(String, Vec<(String, String)>)> = Vec::new();
    let mut names: Vec<String> = Vec::new();
    let ghost all = style_rows(rows@);
    assert(style_rows(unique@) =~= Seq::<StyleRow>::empty());
    for i in 0..rows.len()
        invariant
            all == style_rows(rows@),
            style_rows(unique@) == distinct_rows(all.take(i as int)),
            names@.len() == i,
            forall|j: int|
                0 <= j < i ==> row_with_fields(style_rows(unique@), (#[trigger] all[j]).1)
                    < unique@.len() && names@[j]@ == style_rows(unique@)[row_with_fields(
                    style_rows(unique@),
                    all[j].1,
                )].0,
    {
        proof {
            assert(all.take(i + 1).drop_last() =~= all.take(i as int));
            assert(all.take(i + 1).last() == all[i as int]);
        }
        let ghost before = style_rows(unique@);
        let ghost names0 = names@;
        let at = find_fields(&unique, &rows[i].1);
        proof {
            lemma_row_with_fields(before, all[i as int].1);
        }
        if at < unique.len() {
            names.push(unique[at].0.clone());
        } else {
            names.push(rows[i].0.clone());
            unique.push((rows[i].0.clone(), copy_pairs(&rows[i].1)));
            proof {
                assert(style_rows(unique@) =~= before.push(all[i as int]));
                assert(before.push(all[i as int]).drop_last() =~= before);
            }
        }
        proof {
            assert forall|j: int| 0 <= j < i + 1 implies row_with_fields(
                style_rows(unique@),
                (#[trigger] all[j]).1,
            ) < unique@.len() && names@[j]@ == style_rows(unique@)[row_with_fields(
                style_rows(unique@),
                all[j].1,
            )].0 by {
                if j < i {
                    lemma_row_with_fields(before, all[j].1);
                    lemma_row_with_fields_push(before, all[i as int], all[j].1);
                    assert(names@[j] == names0[j]);
                }
            }
        }
    }
    proof {
        assert(all.take(rows@.len() as int) =~= all);
        assert forall|i: int| 0 <= i < rows@.len() implies #[trigger] textmap::views(names@)[i]
            == shared_names(all)[i] && has_row(style_rows(unique@), textmap::views(names@)[i]) by {
            let k = row_with_fields(style_rows(unique@), all[i].1);
            lemma_row_with_fields(style_rows(unique@), all[i].1);
            row_named_is(style_rows(unique@), style_rows(unique@)[k].0);
        }
        assert(textmap::views(names@) =~= shared_names(all));
    }
    (unique, names)
}

// ---------------------------------------------------------------------------------------------
// The generated file
// ---------------------------------------------------------------------------------------------
/// The sizes of a plugin: `default` where it lists none.
pub open spec fn sizes_of(plugin: PluginModel) -> Seq<Seq<char>> {
    if plugin.sizes.len() == 0 {
        seq!["default"@]
    } else {
        plugin.sizes
    }
}

/// The states of a plugin: `normal` where it lists none.
pub open spec fn states_of(plugin: PluginModel) -> Seq<Seq<char>> {
    if plugin.states.len() == 0 {
        seq!["normal"@]
    } else {
        plugin.states
    }
}

/// How a component's variants and states are named in its generated file.
#[derive(Clone, Copy, Debug, PartialEq, Eq, Structural)]
pub enum VariantStyleMode {
    /// There is nothing that varies by variant.
    Plain,
    /// By enums that live in `theme.slint`.
    ImportedEnums,
    /// By enums of the generated file.
    GeneratedEnums,
    /// By a state enum alone: `default` is the one variant.
    SingleDefault,
}

/// The enums in `theme.slint` for a component's variants and states.
pub open spec fn shared_enums(key: Seq<char>) -> Option<(Seq<char>, Seq<char>)> {
    if key == "button"@ {
        Some(("ButtonVariant"@, "ButtonState"@))
    } else {
        None
    }
}

/// Components whose variant/state enums live in `theme.slint`, so a typed variant accessor doesn't
/// create an import cycle. Currently only button.
pub fn variant_enums(component_key: &str) -> (r: Option<(&'static str, &'static str)>)
    ensures
        (match r {
            Some((v, s)) => Some((v@, s@)),
            None => None,
        }) == shared_enums(component_key@),
{
    if text_eq(component_key, "button") {
        Some(("ButtonVariant", "ButtonState"))
    } else {
        None
    }
}

/// How a component's variants and states are named.
pub open spec fn style_mode(key: Seq<char>, plugin: PluginModel) -> VariantStyleMode {
    if plugin.variant_props.len() == 0 {
        VariantStyleMode::Plain
    } else if shared_enums(key) is Some {
        VariantStyleMode::ImportedEnums
    } else if plugin.variants == seq!["default"@] {
        VariantStyleMode::SingleDefault
    } else {
        VariantStyleMode::GeneratedEnums
    }
}

/// The name of the variant enum; empty where only the state decides.
pub open spec fn variant_enum_name(key: Seq<char>, plugin: PluginModel) -> Seq<char> {
    match style_mode(key, plugin) {
        VariantStyleMode::ImportedEnums => shared_enums(key)->Some_0.0,
        VariantStyleMode::GeneratedEnums => plugin.component + "ThemeVariant"@,
        _ => ""@,
    }
}

/// The name of the state enum.
pub open spec fn state_enum_name(key: Seq<char>, plugin: PluginModel) -> Seq<char> {
    match style_mode(key, plugin) {
        VariantStyleMode::ImportedEnums => shared_enums(key)->Some_0.1,
        _ => plugin.component + "State"@,
    }
}

/// Whether the sizes are the canonical ones, which `ControlSize` names.
pub open spec fn canonical_sizes(sizes: Seq<Seq<char>>) -> bool {
    &&& sizes.contains("md"@)
    &&& forall|i: int|
        0 <= i < sizes.len() ==> (#[trigger] sizes[i]) == "sm"@ || sizes[i] == "md"@ || sizes[i]
            == "lg"@
}

/// Whether `default` is the one size.
pub open spec fn single_default_size(plugin: PluginModel) -> bool {
    sizes_of(plugin) == seq!["default"@]
}

/// Whether the generated file declares a size enum of its own.
pub open spec fn own_size_enum(plugin: PluginModel) -> bool {
    plugin.size_props.len() > 0 && !canonical_sizes(sizes_of(plugin)) && !single_default_size(
        plugin,
    )
}

/// The name of the size enum.
pub open spec fn size_enum_name(plugin: PluginModel) -> Seq<char> {
    if own_size_enum(plugin) {
        plugin.component + "ThemeSize"@
    } else {
        "ControlSize"@
    }
}

/// One variant with each state.
pub open spec fn variant_cells(variant: Seq<char>, states: Seq<Seq<char>>) -> Fields {
    Seq::new(states.len(), |i: int| (variant, states[i]))
}

/// Every variant with every state.
pub open spec fn cells(variants: Seq<Seq<char>>, states: Seq<Seq<char>>) -> Fields
    decreases variants.len(),
{
    if variants.len() == 0 {
        Seq::empty()
    } else {
        cells(variants.drop_last(), states) + variant_cells(variants.last(), states)
    }
}

/// The name of the style of a variant in a state.
pub open spec fn cell_name(single: bool, cell: (Seq<char>, Seq<char>)) -> Seq<char> {
    if single {
        "style-"@ + cell.1
    } else {
        cell.0 + "-"@ + cell.1
    }
}

/// The value set of every variant in every state.
pub open spec fn variant_matrix(
    key: Seq<char>,
    plugin: PluginModel,
    overrides: Option<OverridesModel>,
) -> Seq<StyleRow> {
    let all = cells(plugin.variants, states_of(plugin));
    let single = style_mode(key, plugin) == VariantStyleMode::SingleDefault;
    Seq::new(
        all.len(),
        |i: int|
            (cell_name(single, all[i]), variant_fields(plugin, overrides, all[i].0, all[i].1)),
    )
}

/// Every variant and state with the name of the style they share.
pub open spec fn variant_targets(
    key: Seq<char>,
    plugin: PluginModel,
    overrides: Option<OverridesModel>,
) -> Seq<Target> {
    let all = cells(plugin.variants, states_of(plugin));
    let names = shared_names(variant_matrix(key, plugin, overrides));
    Seq::new(all.len(), |i: int| (all[i].0, all[i].1, names[i]))
}

/// The value set of every size.
pub open spec fn size_matrix(plugin: PluginModel, overrides: Option<OverridesModel>) -> Seq<
    StyleRow,
> {
    let sizes = sizes_of(plugin);
    Seq::new(sizes.len(), |i: int| (sizes[i], size_fields(plugin, overrides, sizes[i])))
}

/// Every size with the name of the style it shares.
pub open spec fn size_targets(plugin: PluginModel, overrides: Option<OverridesModel>) -> Fields {
    let sizes = sizes_of(plugin);
    let names = shared_names(size_matrix(plugin, overrides));
    Seq::new(sizes.len(), |i: int| (sizes[i], names[i]))
}

/// The lines of an enum's items.
pub open spec fn item_lines(items: Seq<Seq<char>>) -> Seq<char>
    decreases items.len(),
{
    if items.len() == 0 {
        Seq::empty()
    } else {
        item_lines(items.drop_last()) + "    "@ + items.last() + ",\n"@
    }
}

/// An enum declaration.
pub open spec fn enum_text(name: Seq<char>, items: Seq<Seq<char>>) -> Seq<char> {
    "export enum "@ + name + " {\n"@ + item_lines(items) + "}\n\n"@
}

/// The lines of a struct's fields.
pub open spec fn prop_lines(props: Seq<PropModel>) -> Seq<char>
    decreases props.len(),
{
    if props.len() == 0 {
        Seq::empty()
    } else {
        prop_lines(props.drop_last()) + "    "@ + kebab_of(props.last().name) + ": "@
            + schema::slint_type_of(props.last()) + ",\n"@
    }
}

/// A struct declaration.
pub open spec fn struct_text(name: Seq<char>, props: Seq<PropModel>) -> Seq<char> {
    "export struct "@ + name + " {\n"@ + prop_lines(props) + "}\n\n"@
}

/// What is imported from `theme.slint`.
pub open spec fn imports_text(key: Seq<char>, plugin: PluginModel) -> Seq<char> {
    if style_mode(key, plugin) == VariantStyleMode::ImportedEnums {
        "Theme, ControlSize, "@ + variant_enum_name(key, plugin) + ", "@ + state_enum_name(
            key,
            plugin,
        )
    } else {
        "Theme, ControlSize"@
    }
}

/// The enum declarations.
pub open spec fn enums_text(key: Seq<char>, plugin: PluginModel) -> Seq<char> {
    let by_variant = match style_mode(key, plugin) {
        VariantStyleMode::SingleDefault => enum_text(state_enum_name(key, plugin), plugin.states),
        VariantStyleMode::GeneratedEnums => enum_text(
            variant_enum_name(key, plugin),
            plugin.variants,
        ) + enum_text(state_enum_name(key, plugin), plugin.states),
        _ => Seq::empty(),
    };
    if own_size_enum(plugin) {
        by_variant + enum_text(size_enum_name(plugin), sizes_of(plugin))
    } else {
        by_variant
    }
}

/// The struct declarations.
pub open spec fn structs_text(plugin: PluginModel) -> Seq<char> {
    let by_variant = if plugin.variant_props.len() > 0 {
        struct_text(plugin.component + "VariantProps"@, plugin.variant_props)
    } else {
        Seq::empty()
    };
    if plugin.size_props.len() > 0 {
        by_variant + struct_text(plugin.component + "SizeProps"@, plugin.size_props)
    } else {
        by_variant
    }
}

/// The `style` function.
pub open spec fn style_function(
    key: Seq<char>,
    plugin: PluginModel,
    overrides: Option<OverridesModel>,
) -> Seq<char> {
    let variants = variant_enum_name(key, plugin);
    let states = state_enum_name(key, plugin);
    let parameters = if variants.len() == 0 {
        "st: "@ + states
    } else {
        "v: "@ + variants + ", st: "@ + states
    };
    "    public pure function style("@ + parameters + ") -> "@ + plugin.component
        + "VariantProps {\n"@ + variant_lookup(
        distinct_rows(variant_matrix(key, plugin, overrides)),
        variant_targets(key, plugin, overrides),
        variants,
        states,
    ) + "    }\n"@
}

/// The `size` function.
pub open spec fn size_function(plugin: PluginModel, overrides: Option<OverridesModel>) -> Seq<char> {
    let rows = distinct_rows(size_matrix(plugin, overrides));
    if single_default_size(plugin) {
        "    public pure function size() -> "@ + plugin.component + "SizeProps {\n"@
            + struct_return(rows[0].1, "        "@) + "    }\n"@
    } else {
        "    public pure function size(s: "@ + size_enum_name(plugin) + ") -> "@ + plugin.component
            + "SizeProps {\n"@ + size_lookup(
            rows,
            size_targets(plugin, overrides),
            size_enum_name(plugin),
        ) + "    }\n"@
    }
}

/// The text of a component's generated file.
pub open spec fn theme_file(
    key: Seq<char>,
    plugin: PluginModel,
    overrides: Option<OverridesModel>,
    theme_import: Seq<char>,
) -> Seq<char> {
    let style_part = if plugin.variant_props.len() > 0 {
        style_function(key, plugin, overrides)
    } else {
        Seq::empty()
    };
    let size_part = if plugin.size_props.len() > 0 {
        size_function(plugin, overrides)
    } else {
        Seq::empty()
    };
    header() + "\n// GENERATED from "@ + key
        + ".schema.json by foundation theme tooling \u{2014} do not edit by hand.\n"@
        + "// Token-backed props reference the shared Theme global; JSON literals are inlined.\n\n"@
        + "import { "@ + imports_text(key, plugin) + " } from \""@ + theme_import + "\";\n\n"@
        + enums_text(key, plugin) + structs_text(plugin) + "export global "@ + plugin.component
        + "Theme {\n"@ + style_part + size_part + "}\n"@
}

fn only_text(list: &Vec<String>, item: &str) -> (r: bool)
    ensures
        r == (textmap::views(list@) == seq![item@]),
{
    if list.len() != 1 {
        assert(textmap::views(list@).len() != 1);
        return false;
    }
    let same = text_eq(list[0].as_str(), item);
    proof {
        if same {
            assert(textmap::views(list@) =~= seq![item@]);
        } else {
            assert(textmap::views(list@)[0] != item@);
        }
    }
    same
}

fn listed_or(list: &Vec<String>, fallback: &str) -> (r: Vec<String>)
    ensures
        textmap::views(r@) == (if list@.len() == 0 {
            seq![fallback@]
        } else {
            textmap::views(list@)
        }),
        r@.len() > 0,
{
    if list.len() == 0 {
        let r = vec![owned(fallback)];
        assert(textmap::views(r@) =~= seq![fallback@]);
        r
    } else {
        textmap::duplicate_all(list)
    }
}

fn sizes_are_canonical(sizes: &Vec<String>) -> (r: bool)
    ensures
        r == canonical_sizes(textmap::views(sizes@)),
{
    let ghost all = textmap::views(sizes@);
    for i in 0..sizes.len()
        invariant
            all == textmap::views(sizes@),
            forall|j: int|
                0 <= j < i ==> (#[trigger] all[j]) == "sm"@ || all[j] == "md"@ || all[j] == "lg"@,
    {
        let size = sizes[i].as_str();
        if !text_eq(size, "sm") && !text_eq(size, "md") && !text_eq(size, "lg") {
            assert(all[i as int] == size@);
            return false;
        }
    }
    has_text(sizes, "md")
}

fn mode_of(component_key: &str, plugin: &PluginDefinition) -> (r: VariantStyleMode)
    ensures
        r == style_mode(component_key@, plugin@),
{
    if plugin.variant_props.len() == 0 {
        VariantStyleMode::Plain
    } else if variant_enums(component_key).is_some() {
        VariantStyleMode::ImportedEnums
    } else if only_text(&plugin.variants, "default") {
        VariantStyleMode::SingleDefault
    } else {
        VariantStyleMode::GeneratedEnums
    }
}

fn list_cells(variants: &Vec<String>, states: &Vec<String>) -> (r: Vec<(String, String)>)
    ensures
        pairs(r@) == cells(textmap::views(variants@), textmap::views(states@)),
{
    let mut out: Vec<(String, String)> = Vec::new();
    let ghost vs = textmap::views(variants@);
    let ghost ss = textmap::views(states@);
    assert(pairs(out@) =~= Seq::<(Seq<char>, Seq<char>)>::empty());
    for i in 0..variants.len()
        invariant
            vs == textmap::views(variants@),
            ss == textmap::views(states@),
            pairs(out@) == cells(vs.take(i as int), ss),
    {
        let ghost before = pairs(out@);
        for j in 0..states.len()
            invariant
                i < variants@.len(),
                vs == textmap::views(variants@),
                ss == textmap::views(states@),
                pairs(out@) == before + variant_cells(vs[i as int], ss).take(j as int),
        {
            let ghost inner = pairs(out@);
            out.push((variants[i].clone(), states[j].clone()));
            proof {
                let row = variant_cells(vs[i as int], ss);
                assert(row[j as int] == (vs[i as int], ss[j as int]));
                assert(pairs(out@) =~= inner.push(row[j as int]));
                assert(before + row.take(j + 1) =~= (before + row.take(j as int)).push(row[j as int]));
            }
        }
        proof {
            let row = variant_cells(vs[i as int], ss);
            assert(row.take(states@.len() as int) =~= row);
            assert(vs.take(i + 1).drop_last() =~= vs.take(i as int));
            assert(vs.take(i + 1).last() == vs[i as int]);
        }
    }
    assert(vs.take(variants@.len() as int) =~= vs);
    out
}

proof fn lemma_cells_present(variants: Seq<Seq<char>>, states: Seq<Seq<char>>)
    requires
        variants.len() > 0,
        states.len() > 0,
    ensures
        cells(variants, states).len() > 0,
{
}

fn emit_enum(name: &str, items: &Vec<String>) -> (r: String)
    ensures
        r@ == enum_text(name@, textmap::views(items@)),
{
    let mut lines = String::new();
    let ghost all = textmap::views(items@);
    for i in 0..items.len()
        invariant
            all == textmap::views(items@),
            lines@ == item_lines(all.take(i as int)),
    {
        proof {
            assert(all.take(i + 1).drop_last() =~= all.take(i as int));
            assert(all.take(i + 1).last() == all[i as int]);
        }
        lines.push_str("    ");
        lines.push_str(items[i].as_str());
        lines.push_str(",\n");
    }
    assert(all.take(items@.len() as int) =~= all);
    let mut out = owned("export enum ");
    out.push_str(name);
    out.push_str(" {\n");
    out.push_str(lines.as_str());
    out.push_str("}\n\n");
    out
}

fn emit_struct(name: &str, props: &Vec<PropDefinition>) -> (r: String)
    ensures
        r@ == struct_text(name@, textmap::views(props@)),
{
    let mut lines = String::new();
    let ghost all = textmap::views(props@);
    for i in 0..props.len()
        invariant
            all == textmap::views(props@),
            lines@ == prop_lines(all.take(i as int)),
    {
        proof {
            assert(all.take(i + 1).drop_last() =~= all.take(i as int));
            assert(all.take(i + 1).last() == all[i as int]);
        }
        lines.push_str("    ");
        lines.push_str(kebab(props[i].name.as_str()).as_str());
        lines.push_str(": ");
        lines.push_str(slint_type(&props[i]));
        lines.push_str(",\n");
    }
    assert(all.take(props@.len() as int) =~= all);
    let mut out = owned("export struct ");
    out.push_str(name);
    out.push_str(" {\n");
    out.push_str(lines.as_str());
    out.push_str("}\n\n");
    out
}

fn variant_enum_of(component_key: &str, plugin: &PluginDefinition) -> (r: String)
    ensures
        r@ == variant_enum_name(component_key@, plugin@),
{
    match mode_of(component_key, plugin) {
        VariantStyleMode::ImportedEnums => match variant_enums(component_key) {
            Some((v, _)) => owned(v),
            None => String::new(),
        },
        VariantStyleMode::GeneratedEnums => joined(plugin.component.as_str(), "ThemeVariant"),
        _ => owned(""),
    }
}

fn state_enum_of(component_key: &str, plugin: &PluginDefinition) -> (r: String)
    ensures
        r@ == state_enum_name(component_key@, plugin@),
{
    match mode_of(component_key, plugin) {
        VariantStyleMode::ImportedEnums => match variant_enums(component_key) {
            Some((_, s)) => owned(s),
            None => String::new(),
        },
        _ => joined(plugin.component.as_str(), "State"),
    }
}

fn has_own_size_enum(plugin: &PluginDefinition) -> (r: bool)
    ensures
        r == own_size_enum(plugin@),
{
    let sizes = listed_or(&plugin.sizes, "default");
    plugin.size_props.len() > 0 && !sizes_are_canonical(&sizes) && !only_text(&sizes, "default")
}

fn size_enum_of(plugin: &PluginDefinition) -> (r: String)
    ensures
        r@ == size_enum_name(plugin@),
{
    if has_own_size_enum(plugin) {
        joined(plugin.component.as_str(), "ThemeSize")
    } else {
        owned("ControlSize")
    }
}

fn emit_enums(component_key: &str, plugin: &PluginDefinition) -> (r: String)
    ensures
        r@ == enums_text(component_key@, plugin@),
{
    let variant_enum = variant_enum_of(component_key, plugin);
    let state_enum = state_enum_of(component_key, plugin);
    let mut out = String::new();
    match mode_of(component_key, plugin) {
        VariantStyleMode::SingleDefault => {
            out = emit_enum(state_enum.as_str(), &plugin.states);
        },
        VariantStyleMode::GeneratedEnums => {
            out = emit_enum(variant_enum.as_str(), &plugin.variants);
            out.push_str(emit_enum(state_enum.as_str(), &plugin.states).as_str());
        },
        _ => {},
    }
    if has_own_size_enum(plugin) {
        let sizes = listed_or(&plugin.sizes, "default");
        out.push_str(emit_enum(size_enum_of(plugin).as_str(), &sizes).as_str());
    }
    out
}

fn emit_structs(plugin: &PluginDefinition) -> (r: String)
    ensures
        r@ == structs_text(plugin@),
{
    let mut out = String::new();
    if plugin.variant_props.len() > 0 {
        let name = joined(plugin.component.as_str(), "VariantProps");
        out = emit_struct(name.as_str(), &plugin.variant_props);
    }
    if plugin.size_props.len() > 0 {
        let name = joined(plugin.component.as_str(), "SizeProps");
        out.push_str(emit_struct(name.as_str(), &plugin.size_props).as_str());
    }
    out
}

fn emit_imports(component_key: &str, plugin: &PluginDefinition) -> (r: String)
    ensures
        r@ == imports_text(component_key@, plugin@),
{
    if mode_of(component_key, plugin) == VariantStyleMode::ImportedEnums {
        let mut out = owned("Theme, ControlSize, ");
        out.push_str(variant_enum_of(component_key, plugin).as_str());
        out.push_str(", ");
        out.push_str(state_enum_of(component_key, plugin).as_str());
        out
    } else {
        owned("Theme, ControlSize")
    }
}

fn build_variant_rows(
    component_key: &str,
    plugin: &PluginDefinition,
    overrides: Option<&ComponentOverrides>,
    all: &Vec<(String, String)>,
) -> (r: Vec<(String, Vec<(String, String)>)>)
    requires
        pairs(all@) == cells(plugin@.variants, states_of(plugin@)),
    ensures
        style_rows(r@) == variant_matrix(
            component_key@,
            plugin@,
            schema::overrides_view(overrides),
        ),
{
    let single = mode_of(component_key, plugin) == VariantStyleMode::SingleDefault;
    let mut out: Vec<(String, Vec<(String, String)>)> = Vec::new();
    let ghost goal = variant_matrix(component_key@, plugin@, schema::overrides_view(overrides));
    for i in 0..all.len()
        invariant
            pairs(all@) == cells(plugin@.variants, states_of(plugin@)),
            single == (style_mode(component_key@, plugin@) == VariantStyleMode::SingleDefault),
            goal == variant_matrix(component_key@, plugin@, schema::overrides_view(overrides)),
            out@.len() == i,
            forall|j: int| 0 <= j < i ==> #[trigger] style_rows(out@)[j] == goal[j],
    {
        let name = if single {
            joined("style-", all[i].1.as_str())
        } else {
            let mut n = all[i].0.clone();
            n.push_str("-");
            n.push_str(all[i].1.as_str());
            n
        };
        let fields = resolved_variant_fields(
            plugin,
            overrides,
            all[i].0.as_str(),
            all[i].1.as_str(),
        );
        let ghost before = out@;
        out.push((name, fields));
        proof {
            assert(pairs(all@)[i as int] == (all@[i as int].0@, all@[i as int].1@));
            assert forall|j: int| 0 <= j < i + 1 implies #[trigger] style_rows(out@)[j]
                == goal[j] by {
                if j < i {
                    assert(style_rows(before)[j] == goal[j]);
                }
            }
        }
    }
    assert(style_rows(out@) =~= goal);
    out
}

fn emit_style_function(
    component_key: &str,
    plugin: &PluginDefinition,
    overrides: Option<&ComponentOverrides>,
) -> (r: String)
    requires
        plugin@.variants.len() > 0,
    ensures
        r@ == style_function(component_key@, plugin@, schema::overrides_view(overrides)),
{
    let ghost o = schema::overrides_view(overrides);
    let states = listed_or(&plugin.states, "normal");
    let all = list_cells(&plugin.variants, &states);
    let rows = build_variant_rows(component_key, plugin, overrides, &all);
    let (unique, names) = share_rows(&rows);
    let mut targets: Vec<(String, String, String)> = Vec::new();
    let ghost goal = variant_targets(component_key@, plugin@, o);
    for i in 0..all.len()
        invariant
            pairs(all@) == cells(plugin@.variants, states_of(plugin@)),
            textmap::views(names@) == shared_names(variant_matrix(component_key@, plugin@, o)),
            names@.len() == all@.len(),
            goal == variant_targets(component_key@, plugin@, o),
            targets@.len() == i,
            forall|j: int| 0 <= j < i ==> #[trigger] triples(targets@)[j] == goal[j],
    {
        let ghost before = targets@;
        targets.push((all[i].0.clone(), all[i].1.clone(), names[i].clone()));
        proof {
            assert(pairs(all@)[i as int] == (all@[i as int].0@, all@[i as int].1@));
            assert(textmap::views(names@)[i as int] == names@[i as int]@);
            assert forall|j: int| 0 <= j < i + 1 implies #[trigger] triples(targets@)[j]
                == goal[j] by {
                if j < i {
                    assert(triples(before)[j] == goal[j]);
                }
            }
        }
    }
    proof {
        assert(triples(targets@) =~= goal);
        lemma_cells_present(plugin@.variants, states_of(plugin@));
        assert forall|i: int| 0 <= i < goal.len() implies has_row(
            style_rows(unique@),
            (#[trigger] goal[i]).2,
        ) by {
            assert(has_row(style_rows(unique@), textmap::views(names@)[i]));
        }
    }
    let variant_enum = variant_enum_of(component_key, plugin);
    let state_enum = state_enum_of(component_key, plugin);
    let mut parameters = owned("st: ");
    if !variant_enum.as_str().is_empty() {
        parameters = owned("v: ");
        parameters.push_str(variant_enum.as_str());
        parameters.push_str(", st: ");
    }
    parameters.push_str(state_enum.as_str());
    let mut out = owned("    public pure function style(");
    out.push_str(parameters.as_str());
    out.push_str(") -> ");
    out.push_str(plugin.component.as_str());
    out.push_str("VariantProps {\n");
    out.push_str(
        emit_variant_lookup_body(
            &unique,
            &targets,
            variant_enum.as_str(),
            state_enum.as_str(),
        ).as_str(),
    );
    out.push_str("    }\n");
    out
}

fn emit_size_function(plugin: &PluginDefinition, overrides: Option<&ComponentOverrides>) -> (r:
    String)
    ensures
        r@ == size_function(plugin@, schema::overrides_view(overrides)),
{
    let ghost o = schema::overrides_view(overrides);
    let sizes = listed_or(&plugin.sizes, "default");
    let mut rows: Vec<(String, Vec<(String, String)>)> = Vec::new();
    let ghost goal = size_matrix(plugin@, o);
    for i in 0..sizes.len()
        invariant
            textmap::views(sizes@) == sizes_of(plugin@),
            o == schema::overrides_view(overrides),
            goal == size_matrix(plugin@, o),
            rows@.len() == i,
            forall|j: int| 0 <= j < i ==> #[trigger] style_rows(rows@)[j] == goal[j],
    {
        let ghost before = rows@;
        rows.push((sizes[i].clone(), resolved_size_fields(plugin, overrides, sizes[i].as_str())));
        proof {
            assert(textmap::views(sizes@)[i as int] == sizes@[i as int]@);
            assert forall|j: int| 0 <= j < i + 1 implies #[trigger] style_rows(rows@)[j]
                == goal[j] by {
                if j < i {
                    assert(style_rows(before)[j] == goal[j]);
                }
            }
        }
    }
    assert(style_rows(rows@) =~= goal);
    let (unique, names) = share_rows(&rows);
    let mut targets: Vec<(String, String)> = Vec::new();
    let ghost shared = size_targets(plugin@, o);
    for i in 0..sizes.len()
        invariant
            textmap::views(sizes@) == sizes_of(plugin@),
            textmap::views(names@) == shared_names(size_matrix(plugin@, o)),
            names@.len() == sizes@.len(),
            shared == size_targets(plugin@, o),
            targets@.len() == i,
            forall|j: int| 0 <= j < i ==> #[trigger] pairs(targets@)[j] == shared[j],
    {
        let ghost before = targets@;
        targets.push((sizes[i].clone(), names[i].clone()));
        proof {
            assert(textmap::views(sizes@)[i as int] == sizes@[i as int]@);
            assert(textmap::views(names@)[i as int] == names@[i as int]@);
            assert forall|j: int| 0 <= j < i + 1 implies #[trigger] pairs(targets@)[j]
                == shared[j] by {
                if j < i {
                    assert(pairs(before)[j] == shared[j]);
                }
            }
        }
    }
    proof {
        assert(pairs(targets@) =~= shared);
        lemma_distinct_rows_cover(goal, 0);
    }
    if only_text(&sizes, "default") {
        let mut out = owned("    public pure function size() -> ");
        out.push_str(plugin.component.as_str());
        out.push_str("SizeProps {\n");
        assert(style_rows(unique@)[0].1 == pairs(unique@[0].1@));
        out.push_str(emit_struct_return(&unique[0].1, "        ").as_str());
        out.push_str("    }\n");
        out
    } else {
        let size_enum = size_enum_of(plugin);
        let mut out = owned("    public pure function size(s: ");
        out.push_str(size_enum.as_str());
        out.push_str(") -> ");
        out.push_str(plugin.component.as_str());
        out.push_str("SizeProps {\n");
        out.push_str(emit_size_lookup_body(&unique, &targets, size_enum.as_str()).as_str());
        out.push_str("    }\n");
        out
    }
}

/// The `<key>_theme.slint` text for a component: its `plugin` supplies the contract
/// (variants/states/sizes/props) and the defaults; a value of `overrides` replaces a default;
/// `theme_import` is the import path for `theme.slint`.
///
/// Returns `None` if the component has neither size nor variant props to emit.
pub fn component_theme_slint(
    component_key: &str,
    plugin: &PluginDefinition,
    overrides: Option<&ComponentOverrides>,
    theme_import: &str,
) -> (r: Option<String>)
    requires
        plugin@.variant_props.len() > 0 ==> plugin@.variants.len() > 0,
    ensures
        r is None <==> plugin@.variant_props.len() == 0 && plugin@.size_props.len() == 0,
        r is Some ==> r->Some_0@ == theme_file(
            component_key@,
            plugin@,
            schema::overrides_view(overrides),
            theme_import@,
        ),
{
    let has_variant = plugin.variant_props.len() > 0;
    let has_size = plugin.size_props.len() > 0;
    if !has_variant && !has_size {
        return None;
    }
    let mut out = owned(
        "// SPDX-FileCopyrightText: 2026 Foundation Devices, Inc. <hello@foundation.xyz>\n// SPDX-License-Identifier: MIT OR Apache-2.0\n",
    );
    out.push_str("\n// GENERATED from ");
    out.push_str(component_key);
    out.push_str(".schema.json by foundation theme tooling \u{2014} do not edit by hand.\n");
    out.push_str(
        "// Token-backed props reference the shared Theme global; JSON literals are inlined.\n\n",
    );
    out.push_str("import { ");
    out.push_str(emit_imports(component_key, plugin).as_str());
    out.push_str(" } from \"");
    out.push_str(theme_import);
    out.push_str("\";\n\n");
    out.push_str(emit_enums(component_key, plugin).as_str());
    out.push_str(emit_structs(plugin).as_str());
    out.push_str("export global ");
    out.push_str(plugin.component.as_str());
    out.push_str("Theme {\n");
    let style_part = if has_variant {
        emit_style_function(component_key, plugin, overrides)
    } else {
        String::new()
    };
    out.push_str(style_part.as_str());
    let size_part = if has_size {
        emit_size_function(plugin, overrides)
    } else {
        String::new()
    };
    out.push_str(size_part.as_str());
    out.push_str("}\n");
    Some(out)
}

} // verus!
