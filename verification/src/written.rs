//! What the source of a theme says of the theme: what the theme does not share with its parent stands
//! in the block of its place, and nothing else does.

use vstd::prelude::*;
use crate::cascade::{self, Setting};
use crate::literals;
use crate::rust_export;
use crate::records::{self, RecordModel};
use crate::schema;
use crate::sorting;
use crate::style::{self, Style};
use crate::text;
use crate::textmap;
use crate::theme::{Component, ThemeModel, Variant};
use crate::theme_source;
use crate::export_theme;
use crate::tokens::{self, Tokens};
use crate::value::{self, Value};

verus! {

// ---------------------------------------------------------------------------------------------
// Texts in texts
// ---------------------------------------------------------------------------------------------
/// What stands in a part of a text stands in the text.
pub proof fn part_stands_in_whole(a: Seq<char>, b: Seq<char>, c: Seq<char>, pat: Seq<char>)
    requires
        text::occurs(b, pat),
    ensures
        text::occurs(a + b + c, pat),
{
    let i = choose|i: int|
        0 <= i && i + pat.len() <= b.len() && #[trigger] b.subrange(i, i + pat.len()) == pat;
    let k = a.len() + i;
    assert((a + b + c).subrange(k, k + pat.len()) =~= b.subrange(i, i + pat.len()));
}

proof fn lemma_itself(a: Seq<char>)
    ensures
        text::occurs(a, a),
{
    assert(a.subrange(0int, 0int + a.len()) =~= a);
}

proof fn lemma_left(a: Seq<char>, b: Seq<char>, pat: Seq<char>)
    requires
        text::occurs(a, pat),
    ensures
        text::occurs(a + b, pat),
{
    part_stands_in_whole(Seq::empty(), a, b, pat);
    assert(Seq::<char>::empty() + a + b =~= a + b);
}

proof fn lemma_right(a: Seq<char>, b: Seq<char>, pat: Seq<char>)
    requires
        text::occurs(b, pat),
    ensures
        text::occurs(a + b, pat),
{
    part_stands_in_whole(a, b, Seq::empty(), pat);
    assert(a + b + Seq::<char>::empty() =~= a + b);
}

/// Whether a source has a block with a header, and between its braces `inner`.
pub open spec fn has_block(s: Seq<char>, indent: nat, header: Seq<char>, inner: Seq<char>) -> bool {
    text::occurs(
        s,
        theme_source::line(indent, header + " {"@) + inner + theme_source::line(indent, "}"@),
    )
}

/// The line that sets a property.
pub open spec fn setting_line(prop: Seq<char>, v: Value) -> Seq<char> {
    "\""@ + prop + "\" = "@ + literals::value_source(v) + ";"@
}

/// The value that a style writes for a property: the reference, or the value that it gives.
pub open spec fn written(s: Style, prop: Seq<char>) -> Option<Value> {
    match cascade::setting(s, prop) {
        Some(Setting::Referred(path)) => Some(Value::Ref(path)),
        Some(Setting::Given(v)) => Some(v),
        None => None,
    }
}

/// What the parent of a style writes for a property.
pub open spec fn written_by_parent(parent: Option<Style>, prop: Seq<char>) -> Option<Value> {
    match parent {
        Some(p) => written(p, prop),
        None => None,
    }
}

/// Whether a style sets a property to a value that is not its parent's.
pub open spec fn sets_anew(s: Style, parent: Option<Style>, prop: Seq<char>, v: Value) -> bool {
    &&& written(s, prop) == Some(v)
    &&& !(written_by_parent(parent, prop) matches Some(w) && value::same_value(v, w))
}

/// Whether a property is one that a style can be written with.
pub open spec fn can_be_written(s: Style, prop: Seq<char>) -> bool {
    &&& style::normal_name(prop) == prop
    &&& s.extra.dom().finite()
    &&& s.token_refs.dom().finite()
}

proof fn lemma_written(s: Style, prop: Seq<char>)
    requires
        style::normal_name(prop) == prop,
    ensures
        theme_source::style_literal(s, prop) == written(s, prop),
{
}

proof fn lemma_standard(prop: Seq<char>)
    requires
        style::is_standard(prop),
    ensures
        theme_source::standard_props().contains(prop),
{
    reveal(style::is_standard);
    let all = theme_source::standard_props();
    assert(all[0] == "background"@);
    assert(all[1] == "foreground"@);
    assert(all[2] == "border_color"@);
    assert(all[3] == "border_width"@);
    assert(all[4] == "border_radius"@);
    assert(all[5] == "padding_horizontal"@);
    assert(all[6] == "padding_vertical"@);
    assert(all[7] == "min_height"@);
    assert(all[8] == "min_width"@);
    assert(all[9] == "font_family"@);
    assert(all[10] == "font_size"@);
    assert(all[11] == "font_weight"@);
    assert(all[12] == "icon_size"@);
    assert(all[13] == "opacity"@);
    assert(all[14] == "touch_expansion"@);
}

proof fn lemma_prop_line(s: Style, parent: Option<Style>, props: Seq<Seq<char>>, prop: Seq<char>)
    requires
        props.contains(prop),
        theme_source::prop_line(s, parent, prop) is Some,
    ensures
        theme_source::prop_lines(s, parent, props).contains(
            theme_source::prop_line(s, parent, prop)->Some_0,
        ),
    decreases props.len(),
{
    let l = theme_source::prop_line(s, parent, prop)->Some_0;
    let before = theme_source::prop_lines(s, parent, props.drop_last());
    let all = theme_source::prop_lines(s, parent, props);
    let i = choose|i: int| 0 <= i < props.len() && props[i] == prop;
    if i == props.len() - 1 {
        assert(all.last() == l);
    } else {
        assert(props.drop_last()[i] == prop);
        lemma_prop_line(s, parent, props.drop_last(), prop);
        let k = choose|k: int| 0 <= k < before.len() && before[k] == l;
        assert(all[k] == l);
    }
}

proof fn lemma_line_prop(s: Style, parent: Option<Style>, props: Seq<Seq<char>>, l: Seq<char>) -> (prop: Seq<char>)
    requires
        theme_source::prop_lines(s, parent, props).contains(l),
    ensures
        props.contains(prop),
        theme_source::prop_line(s, parent, prop) == Some(l),
    decreases props.len(),
{
    let all = theme_source::prop_lines(s, parent, props);
    let i = choose|i: int| 0 <= i < all.len() && all[i] == l;
    let before = theme_source::prop_lines(s, parent, props.drop_last());
    if i < before.len() {
        assert(before[i] == l);
        let prop = lemma_line_prop(s, parent, props.drop_last(), l);
        let k = choose|k: int| 0 <= k < props.drop_last().len() && props.drop_last()[k] == prop;
        assert(props[k] == prop);
        prop
    } else {
        assert(props[props.len() - 1] == props.last());
        props.last()
    }
}

proof fn lemma_some_prop(s: Style, prop: Seq<char>)
    requires
        can_be_written(s, prop),
        written(s, prop) is Some,
    ensures
        theme_source::standard_props().contains(prop) || textmap::sorted(
            theme_source::extra_props(s),
        ).contains(prop),
        textmap::lists(textmap::sorted(theme_source::extra_props(s)), theme_source::extra_props(s)),
{
    reveal(style::is_standard);
    let extra = theme_source::extra_props(s);
    assert(extra.subset_of(s.extra.dom().union(s.token_refs.dom())));
    vstd::set_lib::lemma_set_subset_finite(s.extra.dom().union(s.token_refs.dom()), extra);
    textmap::sorted_lists(extra);
    if style::is_standard(prop) {
        lemma_standard(prop);
    } else {
        assert(extra.contains(prop));
    }
}

/// A property that a style sets otherwise than its parent is among the lines of the style, with the
/// value that it sets.
pub proof fn new_setting_has_a_line(s: Style, parent: Option<Style>, prop: Seq<char>, v: Value)
    requires
        can_be_written(s, prop),
        sets_anew(s, parent, prop, v),
    ensures
        theme_source::style_lines(s, parent).contains(setting_line(prop, v)),
{
    lemma_written(s, prop);
    if let Some(p) = parent {
        lemma_written(p, prop);
    }
    lemma_some_prop(s, prop);
    let a = theme_source::prop_lines(s, parent, theme_source::standard_props());
    let b = theme_source::prop_lines(s, parent, textmap::sorted(theme_source::extra_props(s)));
    let l = setting_line(prop, v);
    assert(theme_source::prop_line(s, parent, prop) == Some(l));
    if theme_source::standard_props().contains(prop) {
        lemma_prop_line(s, parent, theme_source::standard_props(), prop);
        let k = choose|k: int| 0 <= k < a.len() && a[k] == l;
        assert((a + b)[k] == l);
    } else {
        lemma_prop_line(s, parent, textmap::sorted(theme_source::extra_props(s)), prop);
        let k = choose|k: int| 0 <= k < b.len() && b[k] == l;
        assert((a + b)[a.len() + k] == l);
    }
}

/// Every line of a style is that of a property that the style sets otherwise than its parent.
pub proof fn line_is_of_new_setting(s: Style, parent: Option<Style>, l: Seq<char>)
    requires
        theme_source::style_lines(s, parent).contains(l),
        forall|k: Seq<char>|
            s.extra.dom().contains(k) || s.token_refs.dom().contains(k) ==> #[trigger] style::normal_name(k)
                == k,
        s.extra.dom().finite(),
        s.token_refs.dom().finite(),
    ensures
        exists|prop: Seq<char>, v: Value| #[trigger] sets_anew(s, parent, prop, v) && l == setting_line(prop, v),
{
    let extra = theme_source::extra_props(s);
    assert(extra.subset_of(s.extra.dom().union(s.token_refs.dom())));
    vstd::set_lib::lemma_set_subset_finite(s.extra.dom().union(s.token_refs.dom()), extra);
    textmap::sorted_lists(extra);
    let a = theme_source::prop_lines(s, parent, theme_source::standard_props());
    let b = theme_source::prop_lines(s, parent, textmap::sorted(extra));
    let k = choose|k: int| 0 <= k < (a + b).len() && (a + b)[k] == l;
    style::standard_names_normal();
    let prop = if k < a.len() {
        assert(a[k] == l);
        lemma_line_prop(s, parent, theme_source::standard_props(), l)
    } else {
        assert(b[k - a.len()] == l);
        lemma_line_prop(s, parent, textmap::sorted(extra), l)
    };
    if theme_source::standard_props().contains(prop) {
        assert(style::normal_name(prop) == prop);
    } else {
        assert(extra.contains(prop));
        assert(style::normal_name(prop) == prop);
    }
    lemma_written(s, prop);
    if let Some(p) = parent {
        lemma_written(p, prop);
    }
    let v = theme_source::style_literal(s, prop)->Some_0;
    assert(sets_anew(s, parent, prop, v) && l == setting_line(prop, v));
}

// ---------------------------------------------------------------------------------------------
// Blocks
// ---------------------------------------------------------------------------------------------
proof fn lemma_lines(indent: nat, all: Seq<Seq<char>>, l: Seq<char>)
    requires
        all.contains(l),
    ensures
        text::occurs(theme_source::lines(indent, all), theme_source::line(indent, l)),
    decreases all.len(),
{
    let i = choose|i: int| 0 <= i < all.len() && all[i] == l;
    let last = theme_source::line(indent, all.last());
    let before = theme_source::lines(indent, all.drop_last());
    if i == all.len() - 1 {
        lemma_itself(last);
        lemma_right(before, last, last);
    } else {
        assert(all.drop_last()[i] == l);
        lemma_lines(indent, all.drop_last(), l);
        lemma_left(before, last, theme_source::line(indent, l));
    }
}

proof fn lemma_line_is_some(indent: nat, l: Seq<char>)
    ensures
        theme_source::line(indent, l).len() > 0,
{
    reveal_strlit("\n");
}

proof fn lemma_occurs_is_some(s: Seq<char>, pat: Seq<char>)
    requires
        text::occurs(s, pat),
        pat.len() > 0,
    ensures
        s.len() > 0,
{
}

proof fn lemma_block(indent: nat, header: Seq<char>, inner: Seq<char>)
    requires
        inner.len() > 0,
    ensures
        has_block(theme_source::block(indent, header, inner), indent, header, inner),
        theme_source::block(indent, header, inner).len() > 0,
{
    lemma_itself(theme_source::block(indent, header, inner));
}

proof fn lemma_has_block_is_some(s: Seq<char>, indent: nat, header: Seq<char>, inner: Seq<char>)
    requires
        has_block(s, indent, header, inner),
    ensures
        s.len() > 0,
{
    lemma_line_is_some(indent, header + " {"@);
}

proof fn lemma_style_block(
    indent: nat,
    header: Seq<char>,
    s: Style,
    parent: Option<Style>,
    prop: Seq<char>,
    v: Value,
) -> (inner: Seq<char>)
    requires
        can_be_written(s, prop),
        sets_anew(s, parent, prop, v),
    ensures
        has_block(theme_source::style_block(indent, header, s, parent), indent, header, inner),
        text::occurs(inner, theme_source::line(indent + 4, setting_line(prop, v))),
{
    new_setting_has_a_line(s, parent, prop, v);
    let inner = theme_source::lines(indent + 4, theme_source::style_lines(s, parent));
    lemma_lines(indent + 4, theme_source::style_lines(s, parent), setting_line(prop, v));
    lemma_line_is_some(indent + 4, setting_line(prop, v));
    lemma_block(indent, header, inner);
    inner
}

/// The style of the same name among the parent's.
pub open spec fn same_named<T>(parent: Option<Map<Seq<char>, T>>, name: Seq<char>) -> Option<T> {
    match parent {
        Some(p) => if p.dom().contains(name) {
            Some(p[name])
        } else {
            None
        },
        None => None,
    }
}

proof fn lemma_style_blocks(
    indent: nat,
    kind: Seq<char>,
    m: Map<Seq<char>, Style>,
    parent: Option<Map<Seq<char>, Style>>,
    names: Seq<Seq<char>>,
    name: Seq<char>,
)
    requires
        names.contains(name),
    ensures
        text::occurs(
            theme_source::style_blocks(indent, kind, m, parent, names),
            theme_source::style_block(
                indent,
                kind + literals::quoted(name),
                m[name],
                same_named(parent, name),
            ),
        ),
    decreases names.len(),
{
    let i = choose|i: int| 0 <= i < names.len() && names[i] == name;
    let last = theme_source::style_block(
        indent,
        kind + literals::quoted(names.last()),
        m[names.last()],
        same_named(parent, names.last()),
    );
    let before = theme_source::style_blocks(indent, kind, m, parent, names.drop_last());
    assert(theme_source::style_blocks(indent, kind, m, parent, names) == before + last);
    if i == names.len() - 1 {
        lemma_itself(last);
        lemma_right(before, last, last);
    } else {
        assert(names.drop_last()[i] == name);
        lemma_style_blocks(indent, kind, m, parent, names.drop_last(), name);
        lemma_left(
            before,
            last,
            theme_source::style_block(
                indent,
                kind + literals::quoted(name),
                m[name],
                same_named(parent, name),
            ),
        );
    }
}

proof fn lemma_variant_blocks(
    indent: nat,
    m: Map<Seq<char>, Variant>,
    parent: Option<Map<Seq<char>, Variant>>,
    names: Seq<Seq<char>>,
    name: Seq<char>,
)
    requires
        names.contains(name),
    ensures
        text::occurs(
            theme_source::variant_blocks(indent, m, parent, names),
            theme_source::variant_block(indent, name, m[name], same_named(parent, name)),
        ),
    decreases names.len(),
{
    let i = choose|i: int| 0 <= i < names.len() && names[i] == name;
    let last = theme_source::variant_block(
        indent,
        names.last(),
        m[names.last()],
        same_named(parent, names.last()),
    );
    let before = theme_source::variant_blocks(indent, m, parent, names.drop_last());
    assert(theme_source::variant_blocks(indent, m, parent, names) == before + last);
    if i == names.len() - 1 {
        lemma_itself(last);
        lemma_right(before, last, last);
    } else {
        assert(names.drop_last()[i] == name);
        lemma_variant_blocks(indent, m, parent, names.drop_last(), name);
        lemma_left(
            before,
            last,
            theme_source::variant_block(indent, name, m[name], same_named(parent, name)),
        );
    }
}

proof fn lemma_component_blocks(
    m: Map<Seq<char>, Component>,
    parent: Option<Map<Seq<char>, Component>>,
    names: Seq<Seq<char>>,
    name: Seq<char>,
)
    requires
        names.contains(name),
    ensures
        text::occurs(
            theme_source::component_blocks(m, parent, names),
            theme_source::component_block(8, name, m[name], same_named(parent, name)),
        ),
    decreases names.len(),
{
    let i = choose|i: int| 0 <= i < names.len() && names[i] == name;
    let last = theme_source::component_block(
        8,
        names.last(),
        m[names.last()],
        same_named(parent, names.last()),
    );
    let before = theme_source::component_blocks(m, parent, names.drop_last());
    assert(theme_source::component_blocks(m, parent, names) == before + last);
    if i == names.len() - 1 {
        lemma_itself(last);
        lemma_right(before, last, last);
    } else {
        assert(names.drop_last()[i] == name);
        lemma_component_blocks(m, parent, names.drop_last(), name);
        lemma_left(
            before,
            last,
            theme_source::component_block(8, name, m[name], same_named(parent, name)),
        );
    }
}

proof fn lemma_block_within(whole: Seq<char>, part: Seq<char>, indent: nat, header: Seq<char>, inner: Seq<char>)
    requires
        text::occurs(whole, part),
        has_block(part, indent, header, inner),
    ensures
        has_block(whole, indent, header, inner),
{
    let i = choose|i: int|
        0 <= i && i + part.len() <= whole.len() && #[trigger] whole.subrange(i, i + part.len()) == part;
    assert(whole =~= whole.take(i) + part + whole.skip(i + part.len()));
    part_stands_in_whole(
        whole.take(i),
        part,
        whole.skip(i + part.len()),
        theme_source::line(indent, header + " {"@) + inner + theme_source::line(indent, "}"@),
    );
}

// ---------------------------------------------------------------------------------------------
// Places
// ---------------------------------------------------------------------------------------------
/// A place of a component that holds a style.
pub enum Place {
    Base,
    Default(Seq<char>),
    Size(Seq<char>, Seq<char>),
    State(Seq<char>, Seq<char>),
}

/// The variant of a component that a place is in.
pub open spec fn variant_at(c: Component, name: Seq<char>) -> Option<Variant> {
    if c.variants.dom().contains(name) {
        Some(c.variants[name])
    } else {
        None
    }
}

/// The style at a place.
pub open spec fn style_at(c: Component, place: Place) -> Option<Style> {
    match place {
        Place::Base => Some(c.base),
        Place::Default(v) => match variant_at(c, v) {
            Some(x) => Some(x.default),
            None => None,
        },
        Place::Size(v, size) => match variant_at(c, v) {
            Some(x) => if x.sizes.dom().contains(size) {
                Some(x.sizes[size])
            } else {
                None
            },
            None => None,
        },
        Place::State(v, state) => match variant_at(c, v) {
            Some(x) => if x.states.dom().contains(state) {
                Some(x.states[state])
            } else {
                None
            },
            None => None,
        },
    }
}

/// The style at the same place of the parent's component.
pub open spec fn parent_style_at(parent: Option<Component>, place: Place) -> Option<Style> {
    match parent {
        Some(c) => style_at(c, place),
        None => None,
    }
}

/// Whether the names of a component's parts can be listed.
pub open spec fn finite_parts(c: Component) -> bool {
    &&& c.variants.dom().finite()
    &&& forall|v: Seq<char>| #[trigger]
        c.variants.dom().contains(v) ==> c.variants[v].sizes.dom().finite() && c.variants[v].states.dom().finite()
}

/// Whether a source has a block with a header and a line in it.
pub open spec fn block_has_line(s: Seq<char>, indent: nat, header: Seq<char>, l: Seq<char>) -> bool {
    exists|inner: Seq<char>| #[trigger]
        has_block(s, indent, header, inner) && text::occurs(inner, theme_source::line(indent + 4, l))
}

/// Whether the block of a component has a line in the block of a place.
pub open spec fn place_has_line(c: Seq<char>, indent: nat, place: Place, l: Seq<char>) -> bool {
    match place {
        Place::Base => block_has_line(c, indent, "base"@, l),
        Place::Default(v) => exists|w: Seq<char>| #[trigger]
            has_block(c, indent, "variant "@ + literals::quoted(v), w) && block_has_line(
                w,
                indent + 4,
                "default"@,
                l,
            ),
        Place::Size(v, size) => exists|w: Seq<char>| #[trigger]
            has_block(c, indent, "variant "@ + literals::quoted(v), w) && block_has_line(
                w,
                indent + 4,
                "size "@ + literals::quoted(size),
                l,
            ),
        Place::State(v, state) => exists|w: Seq<char>| #[trigger]
            has_block(c, indent, "variant "@ + literals::quoted(v), w) && block_has_line(
                w,
                indent + 4,
                "state "@ + literals::quoted(state),
                l,
            ),
    }
}

/// Whether a source has a line at a place of a component.
pub open spec fn component_has_line(s: Seq<char>, name: Seq<char>, place: Place, l: Seq<char>) -> bool {
    exists|c: Seq<char>| #[trigger]
        has_block(s, 8, "component "@ + literals::quoted(name), c) && place_has_line(c, 12, place, l)
}

proof fn lemma_block_line_within(whole: Seq<char>, part: Seq<char>, indent: nat, header: Seq<char>, l: Seq<char>)
    requires
        text::occurs(whole, part),
        block_has_line(part, indent, header, l),
    ensures
        block_has_line(whole, indent, header, l),
        whole.len() > 0,
{
    let inner = choose|inner: Seq<char>| #[trigger]
        has_block(part, indent, header, inner) && text::occurs(inner, theme_source::line(indent + 4, l));
    lemma_block_within(whole, part, indent, header, inner);
    lemma_has_block_is_some(whole, indent, header, inner);
}

proof fn lemma_three(a: Seq<char>, b: Seq<char>, c: Seq<char>)
    ensures
        text::occurs(a + b + c, a),
        text::occurs(a + b + c, b),
        text::occurs(a + b + c, c),
{
    lemma_itself(a);
    lemma_itself(b);
    lemma_itself(c);
    lemma_left(a, b, a);
    lemma_left(a + b, c, a);
    part_stands_in_whole(a, b, c, b);
    lemma_right(a + b, c, c);
}

proof fn lemma_variant(
    indent: nat,
    name: Seq<char>,
    x: Variant,
    parent: Option<Variant>,
    header: Seq<char>,
    l: Seq<char>,
)
    requires
        block_has_line(theme_source::variant_inner(indent, x, parent), indent + 4, header, l),
    ensures
        exists|w: Seq<char>| #[trigger]
            has_block(
                theme_source::variant_block(indent, name, x, parent),
                indent,
                "variant "@ + literals::quoted(name),
                w,
            ) && block_has_line(w, indent + 4, header, l),
        theme_source::variant_block(indent, name, x, parent).len() > 0,
{
    reveal(theme_source::variant_block);
    let inner = theme_source::variant_inner(indent, x, parent);
    lemma_itself(inner);
    lemma_block_line_within(inner, inner, indent + 4, header, l);
    lemma_block(indent, "variant "@ + literals::quoted(name), inner);
    assert(has_block(
        theme_source::variant_block(indent, name, x, parent),
        indent,
        "variant "@ + literals::quoted(name),
        inner,
    ) && block_has_line(inner, indent + 4, header, l));
}

proof fn lemma_part(
    indent: nat,
    x: Variant,
    parent: Option<Variant>,
    place: Place,
    prop: Seq<char>,
    v: Value,
) -> (header: Seq<char>)
    requires
        match place {
            Place::Base => false,
            Place::Default(_) => can_be_written(x.default, prop) && sets_anew(
                x.default,
                (match parent {
                    Some(p) => Some(p.default),
                    None => None,
                }),
                prop,
                v,
            ),
            Place::Size(_, size) => x.sizes.dom().contains(size) && x.sizes.dom().finite() && can_be_written(
                x.sizes[size],
                prop,
            ) && sets_anew(
                x.sizes[size],
                same_named(
                    match parent {
                        Some(p) => Some(p.sizes),
                        None => None,
                    },
                    size,
                ),
                prop,
                v,
            ),
            Place::State(_, state) => x.states.dom().contains(state) && x.states.dom().finite()
                && can_be_written(x.states[state], prop) && sets_anew(
                x.states[state],
                same_named(
                    match parent {
                        Some(p) => Some(p.states),
                        None => None,
                    },
                    state,
                ),
                prop,
                v,
            ),
        },
    ensures
        block_has_line(
            theme_source::variant_inner(indent, x, parent),
            indent + 4,
            header,
            setting_line(prop, v),
        ),
        match place {
            Place::Base => false,
            Place::Default(_) => header == "default"@,
            Place::Size(_, size) => header == "size "@ + literals::quoted(size),
            Place::State(_, state) => header == "state "@ + literals::quoted(state),
        },
{
    let l = setting_line(prop, v);
    let (pd, ps, pt) = match parent {
        Some(p) => (Some(p.default), Some(p.sizes), Some(p.states)),
        None => (None, None, None),
    };
    let a = theme_source::style_block(indent + 4, "default"@, x.default, pd);
    let b = theme_source::style_blocks(indent + 4, "size "@, x.sizes, ps, textmap::sorted_keys(x.sizes));
    let c = theme_source::style_blocks(indent + 4, "state "@, x.states, pt, textmap::sorted_keys(x.states));
    let inner = theme_source::variant_inner(indent, x, parent);
    assert(inner == a + b + c);
    lemma_three(a, b, c);
    match place {
        Place::Base => "base"@,
        Place::Default(_) => {
            let inner_lines = lemma_style_block(indent + 4, "default"@, x.default, pd, prop, v);
            assert(block_has_line(a, indent + 4, "default"@, l));
            lemma_block_line_within(inner, a, indent + 4, "default"@, l);
            "default"@
        },
        Place::Size(_, size) => {
            let header = "size "@ + literals::quoted(size);
            textmap::sorted_lists(x.sizes.dom());
            lemma_style_blocks(indent + 4, "size "@, x.sizes, ps, textmap::sorted_keys(x.sizes), size);
            let own = theme_source::style_block(indent + 4, header, x.sizes[size], same_named(ps, size));
            let inner_lines = lemma_style_block(
                indent + 4,
                header,
                x.sizes[size],
                same_named(ps, size),
                prop,
                v,
            );
            assert(block_has_line(own, indent + 4, header, l));
            lemma_block_line_within(b, own, indent + 4, header, l);
            lemma_block_line_within(inner, b, indent + 4, header, l);
            header
        },
        Place::State(_, state) => {
            let header = "state "@ + literals::quoted(state);
            textmap::sorted_lists(x.states.dom());
            lemma_style_blocks(indent + 4, "state "@, x.states, pt, textmap::sorted_keys(x.states), state);
            let own = theme_source::style_block(indent + 4, header, x.states[state], same_named(pt, state));
            let inner_lines = lemma_style_block(
                indent + 4,
                header,
                x.states[state],
                same_named(pt, state),
                prop,
                v,
            );
            assert(block_has_line(own, indent + 4, header, l));
            lemma_block_line_within(c, own, indent + 4, header, l);
            lemma_block_line_within(inner, c, indent + 4, header, l);
            header
        },
    }
}

proof fn lemma_component(
    name: Seq<char>,
    c: Component,
    parent: Option<Component>,
    place: Place,
    prop: Seq<char>,
    v: Value,
)
    requires
        finite_parts(c),
        style_at(c, place) is Some,
        can_be_written(style_at(c, place)->Some_0, prop),
        sets_anew(style_at(c, place)->Some_0, parent_style_at(parent, place), prop, v),
    ensures
        place_has_line(theme_source::component_inner(8, c, parent), 12, place, setting_line(prop, v)),
        theme_source::component_inner(8, c, parent).len() > 0,
{
    let l = setting_line(prop, v);
    let (pb, pv) = match parent {
        Some(p) => (Some(p.base), Some(p.variants)),
        None => (None, None),
    };
    let a = theme_source::style_block(12, "base"@, c.base, pb);
    let b = theme_source::variant_blocks(12, c.variants, pv, textmap::sorted_keys(c.variants));
    let inner = theme_source::component_inner(8, c, parent);
    assert(inner == a + b);
    lemma_itself(a);
    lemma_itself(b);
    lemma_left(a, b, a);
    lemma_right(a, b, b);
    if place is Base {
        let inner_lines = lemma_style_block(12, "base"@, c.base, pb, prop, v);
        assert(block_has_line(a, 12, "base"@, l));
        lemma_block_line_within(inner, a, 12, "base"@, l);
    } else {
        let name = match place {
            Place::Base => ""@,
            Place::Default(n) => n,
            Place::Size(n, _) => n,
            Place::State(n, _) => n,
        };
        let x = c.variants[name];
        assert(c.variants.dom().contains(name));
        let px = same_named(pv, name);
        let header = lemma_part(12, x, px, place, prop, v);
        lemma_variant(12, name, x, px, header, l);
        textmap::sorted_lists(c.variants.dom());
        lemma_variant_blocks(12, c.variants, pv, textmap::sorted_keys(c.variants), name);
        let own = theme_source::variant_block(12, name, x, px);
        let w = choose|w: Seq<char>| #[trigger]
            has_block(own, 12, "variant "@ + literals::quoted(name), w) && block_has_line(w, 16, header, l);
        lemma_block_within(b, own, 12, "variant "@ + literals::quoted(name), w);
        lemma_block_within(inner, b, 12, "variant "@ + literals::quoted(name), w);
        lemma_has_block_is_some(inner, 12, "variant "@ + literals::quoted(name), w);
    }
}

proof fn lemma_components_in_source(
    function: Seq<char>,
    is_public: bool,
    t: ThemeModel,
    parent: Option<(Seq<char>, ThemeModel)>,
)
    ensures
        text::occurs(
            theme_source::theme_function(function, is_public, t, parent),
            theme_source::component_blocks(
                t.components,
                match parent {
                    Some((_, p)) => Some(p.components),
                    None => None,
                },
                textmap::sorted_keys(t.components),
            ),
        ),
{
    let all = theme_source::component_blocks(
        t.components,
        match parent {
            Some((_, p)) => Some(p.components),
            None => None,
        },
        textmap::sorted_keys(t.components),
    );
    let source = theme_source::theme_function(function, is_public, t, parent);
    let front = "define_theme! {\n"@ + theme_source::opening(function, is_public) + theme_source::extension(parent)
        + theme_source::tokens_block(
        t.tokens,
        match parent {
            Some((_, p)) => Some(p.tokens),
            None => None,
        },
    );
    let back = theme_source::line(4, "}"@) + "}\n\n"@;
    assert(source =~= front + all + back);
    lemma_itself(all);
    part_stands_in_whole(front, all, back, all);
}

proof fn lemma_component_block(
    name: Seq<char>,
    c: Component,
    parent: Option<Component>,
    place: Place,
    prop: Seq<char>,
    v: Value,
) -> (inner: Seq<char>)
    requires
        finite_parts(c),
        style_at(c, place) is Some,
        can_be_written(style_at(c, place)->Some_0, prop),
        sets_anew(style_at(c, place)->Some_0, parent_style_at(parent, place), prop, v),
    ensures
        has_block(
            theme_source::component_block(8, name, c, parent),
            8,
            "component "@ + literals::quoted(name),
            inner,
        ),
        place_has_line(inner, 12, place, setting_line(prop, v)),
{
    let inner = theme_source::component_inner(8, c, parent);
    lemma_component(name, c, parent, place, prop, v);
    reveal(theme_source::component_block);
    lemma_block(8, "component "@ + literals::quoted(name), inner);
    inner
}

/// What a theme sets at a place otherwise than its parent stands in the theme's source, in the block
/// of the place, inside that of the variant, inside that of the component.
#[verifier::spinoff_prover]
pub proof fn new_setting_stands_in_source(
    function: Seq<char>,
    is_public: bool,
    t: ThemeModel,
    parent: Option<(Seq<char>, ThemeModel)>,
    name: Seq<char>,
    place: Place,
    prop: Seq<char>,
    v: Value,
)
    requires
        t.components.dom().contains(name),
        t.components.dom().finite(),
        finite_parts(t.components[name]),
        style_at(t.components[name], place) is Some,
        can_be_written(style_at(t.components[name], place)->Some_0, prop),
        sets_anew(
            style_at(t.components[name], place)->Some_0,
            parent_style_at(
                match parent {
                    Some((_, p)) => same_named(Some(p.components), name),
                    None => None,
                },
                place,
            ),
            prop,
            v,
        ),
    ensures
        component_has_line(
            theme_source::theme_function(function, is_public, t, parent),
            name,
            place,
            setting_line(prop, v),
        ),
{
    let pc = match parent {
        Some((_, p)) => Some(p.components),
        None => None,
    };
    let c = t.components[name];
    let parent_component = same_named(pc, name);
    let header = "component "@ + literals::quoted(name);
    let inner = lemma_component_block(name, c, parent_component, place, prop, v);
    let own = theme_source::component_block(8, name, c, parent_component);
    let keys = textmap::sorted_keys(t.components);
    textmap::sorted_lists(t.components.dom());
    lemma_component_blocks(t.components, pc, keys, name);
    let all = theme_source::component_blocks(t.components, pc, keys);
    lemma_block_within(all, own, 8, header, inner);
    lemma_components_in_source(function, is_public, t, parent);
    let source = theme_source::theme_function(function, is_public, t, parent);
    lemma_block_within(source, all, 8, header, inner);
    assert(has_block(source, 8, header, inner) && place_has_line(inner, 12, place, setting_line(prop, v)));
}

// ---------------------------------------------------------------------------------------------
// Tokens
// ---------------------------------------------------------------------------------------------
/// What a token set holds at a category and a key.
pub open spec fn token_at(t: Tokens, category: Seq<char>, key: Seq<char>) -> Option<Value> {
    if t.dom().contains(category) && t[category].dom().contains(key) {
        Some(t[category][key])
    } else {
        None
    }
}

/// Whether the paths of a token set can be listed.
pub open spec fn finite_paths(t: Tokens) -> bool {
    &&& t.dom().finite()
    &&& forall|c: Seq<char>| #[trigger] t.dom().contains(c) ==> t[c].dom().finite()
}

proof fn lemma_category_entry(category: Seq<char>, m: Map<Seq<char>, Value>, keys: Seq<Seq<char>>, key: Seq<char>)
    requires
        keys.contains(key),
    ensures
        theme_source::category_entries(category, m, keys).contains((category + "."@ + key, m[key])),
    decreases keys.len(),
{
    let all = theme_source::category_entries(category, m, keys);
    let before = theme_source::category_entries(category, m, keys.drop_last());
    let i = choose|i: int| 0 <= i < keys.len() && keys[i] == key;
    if i == keys.len() - 1 {
        assert(all.last() == (category + "."@ + key, m[key]));
        assert(all[all.len() - 1] == (category + "."@ + key, m[key]));
    } else {
        assert(keys.drop_last()[i] == key);
        lemma_category_entry(category, m, keys.drop_last(), key);
        let k = choose|k: int| 0 <= k < before.len() && before[k] == (category + "."@ + key, m[key]);
        assert(all[k] == before[k]);
    }
}

proof fn lemma_entry(t: Tokens, categories: Seq<Seq<char>>, category: Seq<char>, e: (Seq<char>, Value))
    requires
        categories.contains(category),
        theme_source::category_entries(
            category,
            t[category],
            textmap::sorted_keys(t[category]),
        ).contains(e),
    ensures
        theme_source::all_entries(t, categories).contains(e),
    decreases categories.len(),
{
    let all = theme_source::all_entries(t, categories);
    let before = theme_source::all_entries(t, categories.drop_last());
    let last = theme_source::category_entries(
        categories.last(),
        t[categories.last()],
        textmap::sorted_keys(t[categories.last()]),
    );
    let i = choose|i: int| 0 <= i < categories.len() && categories[i] == category;
    if i == categories.len() - 1 {
        let k = choose|k: int| 0 <= k < last.len() && last[k] == e;
        assert(all[before.len() + k] == e);
    } else {
        assert(categories.drop_last()[i] == category);
        lemma_entry(t, categories.drop_last(), category, e);
        let k = choose|k: int| 0 <= k < before.len() && before[k] == e;
        assert(all[k] == e);
    }
}

proof fn lemma_token_line(entries: Seq<(Seq<char>, Value)>, parent: Option<Tokens>, e: (Seq<char>, Value))
    requires
        entries.contains(e),
        !theme_source::same_setting(Some(e.1), theme_source::at_path(parent, e.0)),
    ensures
        theme_source::token_lines(entries, parent).contains(
            literals::quoted(e.0) + " = "@ + literals::value_source(e.1) + ";"@,
        ),
    decreases entries.len(),
{
    let l = literals::quoted(e.0) + " = "@ + literals::value_source(e.1) + ";"@;
    let all = theme_source::token_lines(entries, parent);
    let before = theme_source::token_lines(entries.drop_last(), parent);
    let i = choose|i: int| 0 <= i < entries.len() && entries[i] == e;
    if i == entries.len() - 1 {
        assert(all.last() == l);
        assert(all[all.len() - 1] == l);
    } else {
        assert(entries.drop_last()[i] == e);
        lemma_token_line(entries.drop_last(), parent, e);
        let k = choose|k: int| 0 <= k < before.len() && before[k] == l;
        assert(all[k] == l);
    }
}

proof fn lemma_first_dot(category: Seq<char>, key: Seq<char>)
    requires
        !category.contains('.'),
    ensures
        text::dot_split(category + "."@ + key) == Some((category, key)),
{
    reveal_strlit(".");
    let whole = category + "."@ + key;
    let pat = seq!['.'];
    text::find_from_bounds(whole, pat, 0);
    let n = category.len() as int;
    assert(whole.subrange(n, n + pat.len()) =~= pat);
    text::lemma_find_from_least(whole, pat, 0, n);
    let i = text::find_from(whole, pat, 0)->Some_0;
    assert(whole.subrange(i, i + pat.len())[0] == whole[i]);
    if i < n {
        assert(category[i] == '.');
    }
    assert(whole.take(n) =~= category);
    assert(whole.skip(n + pat.len()) =~= key);
}

/// A token whose value is not the parent's is among the lines of its scheme, with its path and value.
pub proof fn new_token_has_a_line(t: Tokens, parent: Option<Tokens>, category: Seq<char>, key: Seq<char>, v: Value)
    requires
        finite_paths(t),
        !category.contains('.'),
        token_at(t, category, key) == Some(v),
        !(parent matches Some(p) && token_at(p, category, key) matches Some(w) && value::same_value(v, w)),
    ensures
        theme_source::scheme_lines(t, parent).contains(
            literals::quoted(category + "."@ + key) + " = "@ + literals::value_source(v) + ";"@,
        ),
{
    let e = (category + "."@ + key, v);
    textmap::sorted_lists(t.dom());
    textmap::sorted_lists(t[category].dom());
    lemma_category_entry(category, t[category], textmap::sorted_keys(t[category]), key);
    lemma_entry(t, textmap::sorted_keys(t), category, e);
    let all = theme_source::all_entries(t, textmap::sorted_keys(t));
    sorting::in_order_members(all, theme_source::path_before());
    let ordered = theme_source::ordered_entries(t);
    broadcast use vstd::seq_lib::group_to_multiset_ensures;

    assert(all.to_multiset().count(e) > 0);
    assert(ordered.contains(e));
    lemma_first_dot(category, key);
    lemma_token_line(ordered, parent, e);
}

/// A token of the light scheme that is not the parent's stands in the theme's source in the block of
/// that scheme, and one of the dark scheme in that of the dark one.
pub proof fn new_token_stands_in_source(
    function: Seq<char>,
    is_public: bool,
    t: ThemeModel,
    parent: Option<(Seq<char>, ThemeModel)>,
    dark: bool,
    category: Seq<char>,
    key: Seq<char>,
    v: Value,
)
    requires
        finite_paths(t.tokens.light),
        finite_paths(t.tokens.dark),
        !category.contains('.'),
        token_at(if dark { t.tokens.dark } else { t.tokens.light }, category, key) == Some(v),
        !(parent matches Some((_, p)) && token_at(
            if dark { p.tokens.dark } else { p.tokens.light },
            category,
            key,
        ) matches Some(w) && value::same_value(v, w)),
    ensures
        exists|all: Seq<char>| #[trigger]
            has_block(theme_source::theme_function(function, is_public, t, parent), 8, "tokens"@, all)
                && block_has_line(
                all,
                12,
                if dark { "dark"@ } else { "light"@ },
                literals::quoted(category + "."@ + key) + " = "@ + literals::value_source(v) + ";"@,
            ),
{
    let l = literals::quoted(category + "."@ + key) + " = "@ + literals::value_source(v) + ";"@;
    let (pl, pd, pt) = match parent {
        Some((_, p)) => (Some(p.tokens.light), Some(p.tokens.dark), Some(p.tokens)),
        None => (None, None, None),
    };
    let light_lines = theme_source::lines(16, theme_source::scheme_lines(t.tokens.light, pl));
    let dark_lines = theme_source::lines(16, theme_source::scheme_lines(t.tokens.dark, pd));
    let a = theme_source::block(12, "light"@, light_lines);
    let b = theme_source::block(12, "dark"@, dark_lines);
    lemma_itself(a);
    lemma_itself(b);
    lemma_left(a, b, a);
    lemma_right(a, b, b);
    lemma_line_is_some(16, l);
    if dark {
        new_token_has_a_line(t.tokens.dark, pd, category, key, v);
        lemma_lines(16, theme_source::scheme_lines(t.tokens.dark, pd), l);
        lemma_block(12, "dark"@, dark_lines);
        assert(block_has_line(b, 12, "dark"@, l));
        lemma_block_line_within(a + b, b, 12, "dark"@, l);
    } else {
        new_token_has_a_line(t.tokens.light, pl, category, key, v);
        lemma_lines(16, theme_source::scheme_lines(t.tokens.light, pl), l);
        lemma_block(12, "light"@, light_lines);
        assert(block_has_line(a, 12, "light"@, l));
        lemma_block_line_within(a + b, a, 12, "light"@, l);
    }
    let own = theme_source::tokens_block(t.tokens, pt);
    assert(own == theme_source::block(8, "tokens"@, a + b));
    lemma_block(8, "tokens"@, a + b);
    let source = theme_source::theme_function(function, is_public, t, parent);
    let front = "define_theme! {\n"@ + theme_source::opening(function, is_public) + theme_source::extension(parent);
    let back = theme_source::component_blocks(
        t.components,
        match parent {
            Some((_, p)) => Some(p.components),
            None => None,
        },
        textmap::sorted_keys(t.components),
    ) + theme_source::line(4, "}"@) + "}\n\n"@;
    assert(source =~= front + own + back);
    lemma_itself(own);
    part_stands_in_whole(front, own, back, own);
    lemma_block_within(source, own, 8, "tokens"@, a + b);
}

// ---------------------------------------------------------------------------------------------
// Files
// ---------------------------------------------------------------------------------------------
/// The source of a theme opens its function under its name, for all to use only where it is public,
/// and says which theme it extends.
pub proof fn source_opens_function(function: Seq<char>, is_public: bool, t: ThemeModel, parent: Option<(Seq<char>, ThemeModel)>)
    ensures
        text::occurs(
            theme_source::theme_function(function, is_public, t, parent),
            "define_theme! {\n"@ + theme_source::line(
                4,
                (if is_public {
                    "pub "@
                } else {
                    ""@
                }) + "fn "@ + function + "() -> Theme {"@,
            ),
        ),
        parent matches Some((expr, _)) ==> text::occurs(
            theme_source::theme_function(function, is_public, t, parent),
            theme_source::line(8, "extends "@ + expr + ";"@),
        ),
{
    let source = theme_source::theme_function(function, is_public, t, parent);
    let head = "define_theme! {\n"@ + theme_source::opening(function, is_public);
    let ext = theme_source::extension(parent);
    let back = theme_source::tokens_block(
        t.tokens,
        match parent {
            Some((_, p)) => Some(p.tokens),
            None => None,
        },
    ) + theme_source::component_blocks(
        t.components,
        match parent {
            Some((_, p)) => Some(p.components),
            None => None,
        },
        textmap::sorted_keys(t.components),
    ) + theme_source::line(4, "}"@) + "}\n\n"@;
    assert(source =~= head + ext + back);
    lemma_three(head, ext, back);
}

proof fn lemma_functions(themes: Seq<RecordModel>, selected: int, chain: Seq<int>, k: int)
    requires
        0 <= k < chain.len(),
        rust_export::is_inlined(themes, chain[k], selected),
    ensures
        text::occurs(
            rust_export::functions(themes, selected, chain),
            theme_source::theme_function(
                theme_source::record_function(themes[chain[k]].meta),
                chain[k] == selected,
                export_theme::export_model(themes[chain[k]]),
                rust_export::parent_reference(themes, chain[k]),
            ),
        ),
    decreases chain.len(),
{
    let own = theme_source::theme_function(
        theme_source::record_function(themes[chain[k]].meta),
        chain[k] == selected,
        export_theme::export_model(themes[chain[k]]),
        rust_export::parent_reference(themes, chain[k]),
    );
    let before = rust_export::functions(themes, selected, chain.drop_last());
    if k == chain.len() - 1 {
        lemma_itself(own);
        lemma_right(before, own, own);
    } else {
        assert(chain.drop_last()[k] == chain[k]);
        lemma_functions(themes, selected, chain.drop_last(), k);
        if rust_export::is_inlined(themes, chain.last(), selected) {
            let last = theme_source::theme_function(
                theme_source::record_function(themes[chain.last()].meta),
                chain.last() == selected,
                export_theme::export_model(themes[chain.last()]),
                rust_export::parent_reference(themes, chain.last()),
            );
            lemma_left(before, last, own);
        }
    }
}

/// The file of a theme ends with the theme's own public function, and has the function of every
/// ancestor but the built-in base theme, not public, each against its own parent.
pub proof fn file_has_functions(themes: Seq<RecordModel>, i: int, list: Seq<int>, k: int)
    requires
        rust_export::is_lineage(themes, i, list),
        0 <= k < list.len(),
        k > 0 ==> 0 <= list[k] < themes.len() && !records::is_builtin_base(themes[list[k]].meta),
    ensures
        text::occurs(
            rust_export::theme_file(themes, i),
            theme_source::theme_function(
                theme_source::record_function(themes[list[k]].meta),
                k == 0,
                export_theme::export_model(themes[list[k]]),
                match records::parent_record(themes, list[k]) {
                    Some(p) => Some(
                        (theme_source::record_function(p.meta) + "()"@, export_theme::export_model(p)),
                    ),
                    None => None,
                },
            ),
        ),
{
    rust_export::lineage_is(themes, i, list);
    let chain = rust_export::export_chain(themes, i);
    let at = list.len() - 1 - k;
    assert(chain[at] == list[k]);
    assert(k > 0 ==> list[k] != list[0]);
    lemma_functions(themes, i, chain, at);
    let own = theme_source::theme_function(
        theme_source::record_function(themes[list[k]].meta),
        k == 0,
        export_theme::export_model(themes[list[k]]),
        rust_export::parent_reference(themes, list[k]),
    );
    lemma_right(rust_export::file_head(themes, i), rust_export::functions(themes, i, chain), own);
}

} // verus!
