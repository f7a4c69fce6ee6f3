//! How the styles of a component's base, variant, size and state add up, property by property.

use vstd::prelude::*;
use crate::color::Color;
use crate::scalar::Scalar;
use crate::schema;
use crate::style::{self, Style};
use crate::theme::{self, ThemeModel};
use crate::tokens::{ColorScheme, Tokens};
use crate::value::Value;

verus! {

/// What a style says of a property: a value, or a reference to a token.
pub enum Setting {
    Given(Value),
    Referred(Seq<char>),
}

/// A value of a property, where there is one.
pub open spec fn color_given(v: Option<Color>) -> Option<Value> {
    match v {
        Some(x) => Some(Value::Color(x)),
        None => None,
    }
}

/// A value of a property, where there is one.
pub open spec fn float_given(v: Option<Scalar>) -> Option<Value> {
    match v {
        Some(x) => Some(Value::Float(x)),
        None => None,
    }
}

/// A value of a property, where there is one.
pub open spec fn int_given(v: Option<i32>) -> Option<Value> {
    match v {
        Some(x) => Some(Value::Int(x)),
        None => None,
    }
}

/// A value of a property, where there is one.
pub open spec fn text_given(v: Option<Seq<char>>) -> Option<Value> {
    match v {
        Some(x) => Some(Value::Text(x)),
        None => None,
    }
}

/// The value that a style gives a property. Standard properties have fields of their own.
pub open spec fn value_given(s: Style, k: Seq<char>) -> Option<Value> {
    if k == "background"@ {
        color_given(s.background)
    } else if k == "foreground"@ {
        color_given(s.foreground)
    } else if k == "border_color"@ {
        color_given(s.border_color)
    } else if k == "border_width"@ {
        float_given(s.border_width)
    } else if k == "border_radius"@ {
        float_given(s.border_radius)
    } else if k == "padding_horizontal"@ {
        float_given(s.padding_horizontal)
    } else if k == "padding_vertical"@ {
        float_given(s.padding_vertical)
    } else if k == "min_height"@ {
        float_given(s.min_height)
    } else if k == "min_width"@ {
        float_given(s.min_width)
    } else if k == "font_family"@ {
        text_given(s.font_family)
    } else if k == "font_size"@ {
        float_given(s.font_size)
    } else if k == "font_weight"@ {
        int_given(s.font_weight)
    } else if k == "icon_size"@ {
        float_given(s.icon_size)
    } else if k == "opacity"@ {
        float_given(s.opacity)
    } else if k == "touch_expansion"@ {
        float_given(s.touch_expansion)
    } else if s.extra.dom().contains(k) {
        Some(s.extra[k])
    } else {
        None
    }
}

/// What a style says of a property. A reference counts before a value.
pub open spec fn setting(s: Style, k: Seq<char>) -> Option<Setting> {
    if s.token_refs.dom().contains(k) {
        Some(Setting::Referred(s.token_refs[k]))
    } else {
        match value_given(s, k) {
            Some(v) => Some(Setting::Given(v)),
            None => None,
        }
    }
}

/// What a reference gives a property: the token, as far as it is of the property's kind.
pub open spec fn token_given(t: Tokens, path: Seq<char>, k: Seq<char>) -> Option<Value> {
    if k == "background"@ {
        color_given(style::token_color(t, path))
    } else if k == "foreground"@ {
        color_given(style::token_color(t, path))
    } else if k == "border_color"@ {
        color_given(style::token_color(t, path))
    } else if k == "border_width"@ {
        float_given(style::token_float(t, path))
    } else if k == "border_radius"@ {
        float_given(style::token_float(t, path))
    } else if k == "padding_horizontal"@ {
        float_given(style::token_float(t, path))
    } else if k == "padding_vertical"@ {
        float_given(style::token_float(t, path))
    } else if k == "min_height"@ {
        float_given(style::token_float(t, path))
    } else if k == "min_width"@ {
        float_given(style::token_float(t, path))
    } else if k == "font_family"@ {
        text_given(style::token_text(t, path))
    } else if k == "font_size"@ {
        float_given(style::token_float(t, path))
    } else if k == "font_weight"@ {
        int_given(style::token_int(t, path))
    } else if k == "icon_size"@ {
        float_given(style::token_float(t, path))
    } else if k == "opacity"@ {
        float_given(style::token_float(t, path))
    } else if k == "touch_expansion"@ {
        float_given(style::token_float(t, path))
    } else {
        style::token_value(t, path)
    }
}

/// The value of a property once references are resolved.
pub open spec fn resolved_setting(t: Tokens, found: Option<Setting>, k: Seq<char>) -> Option<Value> {
    match found {
        Some(Setting::Given(v)) => Some(v),
        Some(Setting::Referred(path)) => token_given(t, path, k),
        None => None,
    }
}

#[verifier::spinoff_prover]
proof fn lemma_standard_value(s: Style, k: Seq<char>)
    ensures
        style::has_standard_value(s, k) <==> style::is_standard(k) && value_given(s, k) is Some,
        !style::is_standard(k) ==> value_given(s, k) == (if s.extra.dom().contains(k) {
            Some(s.extra[k])
        } else {
            None
        }),
{
    style::standard_names_differ();
    reveal(style::is_standard);
    reveal(style::has_standard_value);
}

#[verifier::spinoff_prover]
proof fn lemma_field(s: Style, over: Style, k: Seq<char>)
    ensures
        style::is_standard(k) && !over.token_refs.dom().contains(k) ==> value_given(style::merged(s, over), k)
            == schema::or_else(value_given(over, k), value_given(s, k)),
{
    reveal(style::is_standard);
}

/// Of two styles the upper one's setting of a property counts, and the lower one's where the upper has
/// none.
#[verifier::spinoff_prover]
pub proof fn upper_setting_counts(s: Style, over: Style, k: Seq<char>)
    requires
        style::plain_extra(over),
    ensures
        setting(style::merged(s, over), k) == schema::or_else(setting(over, k), setting(s, k)),
{
    lemma_standard_value(s, k);
    lemma_standard_value(over, k);
    lemma_standard_value(style::merged(s, over), k);
    lemma_field(s, over, k);
}

proof fn lemma_empty(k: Seq<char>)
    ensures
        setting(style::empty_style(), k) is None,
{
}

/// Resolving references leaves values and takes every reference for what it resolves to.
#[verifier::spinoff_prover]
pub proof fn references_are_resolved(s: Style, t: Tokens, k: Seq<char>)
    ensures
        value_given(style::resolved_style(s, t), k) == resolved_setting(t, setting(s, k), k),
        !style::resolved_style(s, t).token_refs.dom().contains(k),
{
    reveal(style::is_standard);
}

/// The setting of a property in the style under a key, where there is one.
pub open spec fn entry_setting(m: Map<Seq<char>, Style>, key: Option<Seq<char>>, k: Seq<char>) -> Option<Setting> {
    match key {
        Some(name) => if m.dom().contains(name) {
            setting(m[name], k)
        } else {
            None
        },
        None => None,
    }
}

/// The key under which a variant's style for a state is looked up: none for the resting states.
pub open spec fn state_entry(state: Seq<char>) -> Option<Seq<char>> {
    if theme::is_resting_state(state) {
        None
    } else {
        Some(state)
    }
}

/// The setting of a property that counts: the state's, else the size's, else the variant's, else that
/// of the component's base.
pub open spec fn nearest_setting(
    theme: ThemeModel,
    component: Seq<char>,
    variant: Seq<char>,
    size: Option<Seq<char>>,
    state: Seq<char>,
    k: Seq<char>,
) -> Option<Setting> {
    let c = theme.components[component];
    let v = c.variants[variant];
    schema::or_else(
        entry_setting(v.states, state_entry(state), k),
        schema::or_else(
            entry_setting(v.sizes, size, k),
            schema::or_else(setting(v.default, k), setting(c.base, k)),
        ),
    )
}

/// Whether no style of a variant keeps a standard property among the extra ones.
pub open spec fn plain_variant(theme: ThemeModel, component: Seq<char>, variant: Seq<char>) -> bool {
    let c = theme.components[component];
    let v = c.variants[variant];
    &&& style::plain_extra(c.base)
    &&& style::plain_extra(v.default)
    &&& forall|n: Seq<char>| #[trigger] v.sizes.dom().contains(n) ==> style::plain_extra(v.sizes[n])
    &&& forall|n: Seq<char>| #[trigger] v.states.dom().contains(n) ==> style::plain_extra(v.states[n])
}

/// A property of a resolved style is what the chain of component base, variant default, size and state
/// says of it last, with references resolved against the tokens of the scheme.
pub proof fn nearest_setting_is_resolved(
    theme: ThemeModel,
    component: Seq<char>,
    variant: Seq<char>,
    size: Option<Seq<char>>,
    state: Seq<char>,
    scheme: ColorScheme,
    k: Seq<char>,
)
    requires
        theme.components.dom().contains(component),
        theme.components[component].variants.dom().contains(variant),
        plain_variant(theme, component, variant),
    ensures
        value_given(theme::component_style(theme, component, variant, size, state, scheme), k)
            == resolved_setting(
            theme.tokens.of(scheme),
            nearest_setting(theme, component, variant, size, state, k),
            k,
        ),
{
    let c = theme.components[component];
    let v = c.variants[variant];
    let base = style::merged(style::empty_style(), c.base);
    let s1 = style::merged(base, v.default);
    lemma_empty(k);
    upper_setting_counts(style::empty_style(), c.base, k);
    upper_setting_counts(base, v.default, k);
    let s2 = match size {
        Some(n) => theme::merged_entry(s1, v.sizes, n),
        None => s1,
    };
    if size is Some && v.sizes.dom().contains(size->Some_0) {
        upper_setting_counts(s1, v.sizes[size->Some_0], k);
    }
    if !theme::is_resting_state(state) && v.states.dom().contains(state) {
        upper_setting_counts(s2, v.states[state], k);
    }
    references_are_resolved(
        theme::cascaded(theme.components, component, variant, size, state),
        theme.tokens.of(scheme),
        k,
    );
}

// ---------------------------------------------------------------------------------------------
// Inheritance between themes
// ---------------------------------------------------------------------------------------------
/// The setting of a property in the base of a component.
pub open spec fn base_setting(theme: ThemeModel, component: Seq<char>, k: Seq<char>) -> Option<Setting> {
    if theme.components.dom().contains(component) {
        setting(theme.components[component].base, k)
    } else {
        None
    }
}

/// Whether a theme has a variant of a component.
pub open spec fn has_variant(theme: ThemeModel, component: Seq<char>, variant: Seq<char>) -> bool {
    theme.components.dom().contains(component) && theme.components[component].variants.dom().contains(variant)
}

/// The setting of a property in the default style of a variant.
pub open spec fn default_setting(
    theme: ThemeModel,
    component: Seq<char>,
    variant: Seq<char>,
    k: Seq<char>,
) -> Option<Setting> {
    if has_variant(theme, component, variant) {
        setting(theme.components[component].variants[variant].default, k)
    } else {
        None
    }
}

/// The setting of a property in a size of a variant.
pub open spec fn size_setting(
    theme: ThemeModel,
    component: Seq<char>,
    variant: Seq<char>,
    size: Seq<char>,
    k: Seq<char>,
) -> Option<Setting> {
    if has_variant(theme, component, variant) {
        entry_setting(theme.components[component].variants[variant].sizes, Some(size), k)
    } else {
        None
    }
}

/// The setting of a property in a state of a variant.
pub open spec fn state_setting(
    theme: ThemeModel,
    component: Seq<char>,
    variant: Seq<char>,
    state: Seq<char>,
    k: Seq<char>,
) -> Option<Setting> {
    if has_variant(theme, component, variant) {
        entry_setting(theme.components[component].variants[variant].states, Some(state), k)
    } else {
        None
    }
}

/// A theme over its parent has the components and variants of both.
pub proof fn inherited_theme_has_both(
    child: ThemeModel,
    parent: ThemeModel,
    component: Seq<char>,
    variant: Seq<char>,
)
    ensures
        theme::inherited_theme(child, parent).components.dom().contains(component)
            <==> child.components.dom().contains(component) || parent.components.dom().contains(component),
        has_variant(theme::inherited_theme(child, parent), component, variant) <==> has_variant(
            child,
            component,
            variant,
        ) || has_variant(parent, component, variant),
{
}

/// Of a theme over its parent every setting is the child's where the child has one, and the parent's
/// where it has none: in the base of a component and in a variant's default, sizes and states.
pub proof fn child_setting_counts(
    child: ThemeModel,
    parent: ThemeModel,
    component: Seq<char>,
    variant: Seq<char>,
    size: Seq<char>,
    state: Seq<char>,
    k: Seq<char>,
)
    requires
        child.components.dom().contains(component) ==> style::plain_extra(child.components[component].base),
        has_variant(child, component, variant) ==> plain_variant(child, component, variant),
    ensures
        ({
            let t = theme::inherited_theme(child, parent);
            &&& base_setting(t, component, k) == schema::or_else(
                base_setting(child, component, k),
                base_setting(parent, component, k),
            )
            &&& default_setting(t, component, variant, k) == schema::or_else(
                default_setting(child, component, variant, k),
                default_setting(parent, component, variant, k),
            )
            &&& size_setting(t, component, variant, size, k) == schema::or_else(
                size_setting(child, component, variant, size, k),
                size_setting(parent, component, variant, size, k),
            )
            &&& state_setting(t, component, variant, state, k) == schema::or_else(
                state_setting(child, component, variant, state, k),
                state_setting(parent, component, variant, state, k),
            )
        }),
{
    lemma_empty(k);
    if child.components.dom().contains(component) && parent.components.dom().contains(component) {
        let c = child.components[component];
        let p = parent.components[component];
        upper_setting_counts(p.base, c.base, k);
        if c.variants.dom().contains(variant) && p.variants.dom().contains(variant) {
            let cv = c.variants[variant];
            let pv = p.variants[variant];
            upper_setting_counts(pv.default, cv.default, k);
            if cv.sizes.dom().contains(size) {
                upper_setting_counts(
                    theme::entry_or(pv.sizes, size, style::empty_style()),
                    cv.sizes[size],
                    k,
                );
            }
            if cv.states.dom().contains(state) {
                upper_setting_counts(
                    theme::entry_or(pv.states, state, style::empty_style()),
                    cv.states[state],
                    k,
                );
            }
        }
    }
}

/// A property that a child theme sets in a state is what its style in that state resolves to, whatever
/// the parent says.
pub proof fn child_state_is_resolved(
    child: ThemeModel,
    parent: ThemeModel,
    component: Seq<char>,
    variant: Seq<char>,
    size: Option<Seq<char>>,
    state: Seq<char>,
    scheme: ColorScheme,
    k: Seq<char>,
)
    requires
        has_variant(child, component, variant),
        plain_variant(child, component, variant),
        has_variant(parent, component, variant) ==> plain_variant(parent, component, variant),
        parent.components.dom().contains(component) ==> style::plain_extra(parent.components[component].base),
        !theme::is_resting_state(state),
        state_setting(child, component, variant, state, k) is Some,
    ensures
        value_given(
            theme::component_style(
                theme::inherited_theme(child, parent),
                component,
                variant,
                size,
                state,
                scheme,
            ),
            k,
        ) == resolved_setting(
            theme::inherited_theme(child, parent).tokens.of(scheme),
            state_setting(child, component, variant, state, k),
            k,
        ),
{
    let t = theme::inherited_theme(child, parent);
    lemma_inherited_plain(child, parent, component, variant);
    child_setting_counts(child, parent, component, variant, state, state, k);
    nearest_setting_is_resolved(t, component, variant, size, state, scheme, k);
}

proof fn lemma_merged_plain(s: Style, over: Style)
    requires
        style::plain_extra(s),
        style::plain_extra(over),
    ensures
        style::plain_extra(style::merged(s, over)),
{
}

proof fn lemma_inherited_plain(
    child: ThemeModel,
    parent: ThemeModel,
    component: Seq<char>,
    variant: Seq<char>,
)
    requires
        has_variant(child, component, variant),
        plain_variant(child, component, variant),
        has_variant(parent, component, variant) ==> plain_variant(parent, component, variant),
        parent.components.dom().contains(component) ==> style::plain_extra(parent.components[component].base),
    ensures
        plain_variant(theme::inherited_theme(child, parent), component, variant),
{
    let c = child.components[component];
    let cv = c.variants[variant];
    assert(style::plain_extra(style::empty_style()));
    if parent.components.dom().contains(component) {
        let p = parent.components[component];
        lemma_merged_plain(p.base, c.base);
        if p.variants.dom().contains(variant) {
            let pv = p.variants[variant];
            lemma_merged_plain(pv.default, cv.default);
            let v = theme::inherited_variant(cv, pv);
            assert forall|n: Seq<char>| #[trigger] v.sizes.dom().contains(n) implies style::plain_extra(
                v.sizes[n],
            ) by {
                if cv.sizes.dom().contains(n) {
                    assert(pv.sizes.dom().contains(n) ==> style::plain_extra(pv.sizes[n]));
                    lemma_merged_plain(theme::entry_or(pv.sizes, n, style::empty_style()), cv.sizes[n]);
                } else {
                    assert(pv.sizes.dom().contains(n));
                }
            }
            assert forall|n: Seq<char>| #[trigger] v.states.dom().contains(n) implies style::plain_extra(
                v.states[n],
            ) by {
                if cv.states.dom().contains(n) {
                    assert(pv.states.dom().contains(n) ==> style::plain_extra(pv.states[n]));
                    lemma_merged_plain(theme::entry_or(pv.states, n, style::empty_style()), cv.states[n]);
                } else {
                    assert(pv.states.dom().contains(n));
                }
            }
        }
    }
}

// ---------------------------------------------------------------------------------------------
// Setting properties
// ---------------------------------------------------------------------------------------------
/// Whether a value is of the kind that a property holds: colors for the three colors, a text for the
/// font family, an integer for the font weight, a number for the other standard properties, and any
/// plain value for an extra one.
pub open spec fn of_kind(k: Seq<char>, v: Value) -> bool {
    if k == "background"@ || k == "foreground"@ || k == "border_color"@ {
        v is Color
    } else if k == "font_family"@ {
        v is Text
    } else if k == "font_weight"@ {
        v is Int
    } else if style::is_standard(k) {
        v is Float
    } else {
        !(v is Ref)
    }
}

/// A property that is set has that setting, and every other property has the one it had.
#[verifier::spinoff_prover]
pub proof fn set_property_is_set(s: Style, name: Seq<char>, v: Value, k: Seq<char>)
    ensures
        v matches Value::Ref(path) ==> setting(style::with_prop(s, name, v), name) == Some(
            Setting::Referred(path),
        ),
        of_kind(name, v) ==> setting(style::with_prop(s, name, v), name) == Some(Setting::Given(v)),
        k != name ==> setting(style::with_prop(s, name, v), k) == setting(s, k),
{
    style::standard_names_differ();
    reveal(style::is_standard);
}

} // verus!
