//! What exported themes hold of the themes that they are made of.

use vstd::prelude::*;
use crate::cascade::{self, Setting};
use crate::export_theme;
use crate::records::RecordModel;
use crate::scalar;
use crate::storage::NORMAL_STATE_KEY;
use crate::style::{self, Style};
use crate::text;
use crate::textmap;
use crate::theme;
use crate::tokens::ColorScheme;
use crate::value::Value;

verus! {

/// What an exported style has to say of a property with a value: a reference to the token that stands
/// for the referred one, or the value itself where it is of the property's kind. Blank font families
/// count as none.
pub open spec fn stands_for(k: Seq<char>, v: Value, found: Option<Setting>) -> bool {
    match v {
        Value::Ref(key) => found == Some(Setting::Referred(export_theme::export_key(key))),
        _ => cascade::of_kind(k, v) && !(v matches Value::Text(t) && text::trim(t).len() == 0) ==> found
            == Some(Setting::Given(v)),
    }
}

/// Whether no other property of a list is written for the same one.
pub open spec fn alone(props: Map<Seq<char>, Value>, name: Seq<char>) -> bool {
    forall|other: Seq<char>| #[trigger]
        props.dom().contains(other) && other != name ==> style::normal_name(other) != style::normal_name(
            name,
        )
}

/// A token that has no older name stands for itself.
pub proof fn current_token_stands_for_itself(key: Seq<char>)
    requires
        key != "color.primary-pressed"@,
        key != "color.primary_pressed"@,
        key != "color.primary-hover"@,
        key != "color.primary_hover"@,
        key != "color.text"@,
        key != "color.text-muted"@,
        key != "color.text_muted"@,
    ensures
        export_theme::export_key(key) == key,
{
}

#[verifier::spinoff_prover]
proof fn lemma_fits(k: Seq<char>, v: Value)
    requires
        v is Ref || (cascade::of_kind(k, v) && !(v matches Value::Text(t) && text::trim(t).len() == 0)),
    ensures
        export_theme::goes_into_style(k, v),
{
    style::standard_names_differ();
    reveal(style::is_standard);
}

proof fn lemma_style_other(
    props: Map<Seq<char>, Value>,
    keys: Seq<Seq<char>>,
    k: Seq<char>,
)
    requires
        forall|i: int| 0 <= i < keys.len() ==> style::normal_name(#[trigger] keys[i]) != k,
    ensures
        cascade::setting(export_theme::style_of(props, keys), k) is None,
    decreases keys.len(),
{
    if keys.len() > 0 {
        let front = keys.drop_last();
        assert forall|i: int| 0 <= i < front.len() implies style::normal_name(#[trigger] front[i]) != k by {
            assert(front[i] == keys[i]);
        }
        lemma_style_other(props, front, k);
        let s = export_theme::style_of(props, front);
        let v = props[keys.last()];
        let name = style::normal_name(keys.last());
        assert(keys[keys.len() - 1] == keys.last());
        match v {
            Value::Ref(key) => {
                cascade::set_property_is_set(s, name, Value::Ref(export_theme::export_key(key)), k);
            },
            _ => {
                cascade::set_property_is_set(s, name, v, k);
            },
        }
    }
}

proof fn lemma_style_holds(
    props: Map<Seq<char>, Value>,
    keys: Seq<Seq<char>>,
    i: int,
)
    requires
        0 <= i < keys.len(),
        forall|j: int|
            0 <= j < keys.len() && j != i ==> style::normal_name(#[trigger] keys[j])
                != style::normal_name(keys[i]),
    ensures
        stands_for(
            style::normal_name(keys[i]),
            props[keys[i]],
            cascade::setting(export_theme::style_of(props, keys), style::normal_name(keys[i])),
        ),
    decreases keys.len(),
{
    let front = keys.drop_last();
    let s = export_theme::style_of(props, front);
    let v = props[keys.last()];
    let name = style::normal_name(keys.last());
    let k = style::normal_name(keys[i]);
    assert(keys[keys.len() - 1] == keys.last());
    if i < keys.len() - 1 {
        assert forall|j: int| 0 <= j < front.len() && j != i implies style::normal_name(#[trigger] front[j])
            != style::normal_name(front[i]) by {
            assert(front[j] == keys[j] && front[i] == keys[i]);
        }
        assert(front[i] == keys[i]);
        lemma_style_holds(props, front, i);
        match v {
            Value::Ref(key) => {
                cascade::set_property_is_set(s, name, Value::Ref(export_theme::export_key(key)), k);
            },
            _ => {
                cascade::set_property_is_set(s, name, v, k);
            },
        }
    } else {
        match v {
            Value::Ref(key) => {
                cascade::set_property_is_set(s, name, Value::Ref(export_theme::export_key(key)), k);
            },
            _ => {
                cascade::set_property_is_set(s, name, v, k);
                if cascade::of_kind(k, v) && !(v matches Value::Text(t) && text::trim(t).len() == 0) {
                    lemma_fits(k, v);
                }
            },
        }
    }
}

/// The style that is made of properties says of each what its value says, and nothing of a property
/// that is not among them.
pub proof fn style_says_what_properties_say(props: Map<Seq<char>, Value>, name: Seq<char>, k: Seq<char>)
    requires
        props.dom().finite(),
    ensures
        props.dom().contains(name) && alone(props, name) ==> stands_for(
            style::normal_name(name),
            props[name],
            cascade::setting(export_theme::props_style(props), style::normal_name(name)),
        ),
        (forall|other: Seq<char>| #[trigger]
            props.dom().contains(other) ==> style::normal_name(other) != k) ==> cascade::setting(
            export_theme::props_style(props),
            k,
        ) is None,
{
    textmap::sorted_lists(props.dom());
    let keys = textmap::sorted_keys(props);
    if props.dom().contains(name) && alone(props, name) {
        assert(keys.contains(name));
        let i = choose|i: int| 0 <= i < keys.len() && keys[i] == name;
        assert forall|j: int| 0 <= j < keys.len() && j != i implies style::normal_name(#[trigger] keys[j])
            != style::normal_name(keys[i]) by {
            assert(keys.contains(keys[j]));
            assert(props.dom().contains(keys[j]));
            if keys[j] == keys[i] {
                if j < i {
                    assert(text::text_lt(keys[j], keys[i]));
                } else {
                    assert(text::text_lt(keys[i], keys[j]));
                }
                text::text_lt_irreflexive(name);
            }
        }
        lemma_style_holds(props, keys, i);
    }
    if forall|other: Seq<char>| #[trigger] props.dom().contains(other) ==> style::normal_name(other) != k {
        assert forall|i: int| 0 <= i < keys.len() implies style::normal_name(#[trigger] keys[i]) != k by {
            assert(keys.contains(keys[i]));
            assert(props.dom().contains(keys[i]));
        }
        lemma_style_other(props, keys, k);
    }
}

/// An exported theme has the components and variants of the theme, of each variant every state but the
/// normal one, which is its default, and all sizes of its component; and no others.
pub proof fn exported_theme_has_every_place(
    record: RecordModel,
    component: Seq<char>,
    variant: Seq<char>,
    state: Seq<char>,
    size: Seq<char>,
)
    ensures
        ({
            let t = export_theme::export_model(record);
            let d = record.component_themes[component];
            &&& t.components.dom().contains(component) <==> record.component_themes.dom().contains(component)
            &&& cascade::has_variant(t, component, variant) <==> record.component_themes.dom().contains(
                component,
            ) && d.variant_props.dom().contains(variant)
            &&& cascade::has_variant(t, component, variant) ==> {
                let v = t.components[component].variants[variant];
                &&& v.states.dom().contains(state) <==> state != NORMAL_STATE_KEY@
                    && d.variant_props[variant].dom().contains(state)
                &&& v.sizes.dom().contains(size) <==> d.size_props.dom().contains(size)
            }
        }),
{
}

/// What a theme gives a property in a variant and a state, its exported theme says of that property in
/// that very place: in the state of that name, or for the normal state in the variant's default.
pub proof fn exported_state_says_what_theme_says(
    record: RecordModel,
    component: Seq<char>,
    variant: Seq<char>,
    state: Seq<char>,
    prop: Seq<char>,
)
    requires
        record.component_themes.dom().contains(component),
        record.component_themes[component].variant_props.dom().contains(variant),
        record.component_themes[component].variant_props[variant].dom().contains(state),
        ({
            let props = record.component_themes[component].variant_props[variant][state];
            props.dom().finite() && props.dom().contains(prop) && alone(props, prop)
        }),
    ensures
        stands_for(
            style::normal_name(prop),
            record.component_themes[component].variant_props[variant][state][prop],
            if state == NORMAL_STATE_KEY@ {
                cascade::default_setting(
                    export_theme::export_model(record),
                    component,
                    variant,
                    style::normal_name(prop),
                )
            } else {
                cascade::state_setting(
                    export_theme::export_model(record),
                    component,
                    variant,
                    state,
                    style::normal_name(prop),
                )
            },
        ),
{
    let props = record.component_themes[component].variant_props[variant][state];
    style_says_what_properties_say(props, prop, prop);
}

/// What a theme gives a property in a size, its exported theme says of it in that size of every variant.
pub proof fn exported_size_says_what_theme_says(
    record: RecordModel,
    component: Seq<char>,
    variant: Seq<char>,
    size: Seq<char>,
    prop: Seq<char>,
)
    requires
        record.component_themes.dom().contains(component),
        record.component_themes[component].variant_props.dom().contains(variant),
        record.component_themes[component].size_props.dom().contains(size),
        ({
            let props = record.component_themes[component].size_props[size];
            props.dom().finite() && props.dom().contains(prop) && alone(props, prop)
        }),
    ensures
        stands_for(
            style::normal_name(prop),
            record.component_themes[component].size_props[size][prop],
            cascade::size_setting(
                export_theme::export_model(record),
                component,
                variant,
                size,
                style::normal_name(prop),
            ),
        ),
{
    let props = record.component_themes[component].size_props[size];
    style_says_what_properties_say(props, prop, prop);
}

proof fn lemma_style_plain(props: Map<Seq<char>, Value>, keys: Seq<Seq<char>>)
    ensures
        style::plain_extra(export_theme::style_of(props, keys)),
    decreases keys.len(),
{
    if keys.len() > 0 {
        lemma_style_plain(props, keys.drop_last());
        let s = export_theme::style_of(props, keys.drop_last());
        let m = export_theme::style_of(props, keys);
        assert forall|k: Seq<char>| #[trigger] m.extra.dom().contains(k) implies !style::is_standard(k) by {
            reveal(style::is_standard);
            assert(s.extra.dom().contains(k) ==> !style::is_standard(k));
        }
    }
}

/// Resolving an exported theme for a variant and a state other than the resting ones gives what the
/// theme has there, with token references resolved against the exported tokens.
pub proof fn exported_state_is_resolved(
    record: RecordModel,
    component: Seq<char>,
    variant: Seq<char>,
    size: Option<Seq<char>>,
    state: Seq<char>,
    scheme: ColorScheme,
    prop: Seq<char>,
)
    requires
        !theme::is_resting_state(state),
        record.component_themes.dom().contains(component),
        record.component_themes[component].variant_props.dom().contains(variant),
        record.component_themes[component].variant_props[variant].dom().contains(state),
        ({
            let props = record.component_themes[component].variant_props[variant][state];
            props.dom().finite() && props.dom().contains(prop) && alone(props, prop)
        }),
    ensures
        ({
            let v = record.component_themes[component].variant_props[variant][state][prop];
            let k = style::normal_name(prop);
            let t = export_theme::export_model(record);
            let got = cascade::value_given(
                theme::component_style(t, component, variant, size, state, scheme),
                k,
            );
            match v {
                Value::Ref(key) => got == cascade::token_given(
                    t.tokens.of(scheme),
                    export_theme::export_key(key),
                    k,
                ),
                _ => cascade::of_kind(k, v) && !(v matches Value::Text(x) && text::trim(x).len() == 0) ==> got
                    == Some(v),
            }
        }),
{
    let t = export_theme::export_model(record);
    let k = style::normal_name(prop);
    let d = record.component_themes[component];
    assert(state != NORMAL_STATE_KEY@);
    assert(cascade::plain_variant(t, component, variant)) by {
        let v = t.components[component].variants[variant];
        assert(style::plain_extra(style::empty_style()));
        if d.variant_props[variant].dom().contains(NORMAL_STATE_KEY@) {
            lemma_style_plain(
                d.variant_props[variant][NORMAL_STATE_KEY@],
                textmap::sorted_keys(d.variant_props[variant][NORMAL_STATE_KEY@]),
            );
        }
        assert forall|n: Seq<char>| #[trigger] v.sizes.dom().contains(n) implies style::plain_extra(
            v.sizes[n],
        ) by {
            lemma_style_plain(d.size_props[n], textmap::sorted_keys(d.size_props[n]));
        }
        assert forall|n: Seq<char>| #[trigger] v.states.dom().contains(n) implies style::plain_extra(
            v.states[n],
        ) by {
            lemma_style_plain(
                d.variant_props[variant][n],
                textmap::sorted_keys(d.variant_props[variant][n]),
            );
        }
    }
    exported_state_says_what_theme_says(record, component, variant, state, prop);
    cascade::nearest_setting_is_resolved(t, component, variant, size, state, scheme, k);
}

/// A measure that is given as a whole number is set, to that number.
#[verifier::spinoff_prover]
pub proof fn whole_measure_is_set(s: Style, prop: Seq<char>, n: i32)
    requires
        style::is_standard(style::normal_name(prop)),
        cascade::of_kind(style::normal_name(prop), Value::Float(scalar::int_scalar(n as int))),
    ensures
        cascade::setting(
            export_theme::styled(s, prop, Value::Int(n)),
            style::normal_name(prop),
        ) == Some(Setting::Given(Value::Float(scalar::int_scalar(n as int)))),
{
    style::standard_names_differ();
    reveal(style::is_standard);
}

/// A value that is not of a color's kind leaves the style as it is, and so does a blank font family.
#[verifier::spinoff_prover]
pub proof fn unfit_value_is_left_out(s: Style, prop: Seq<char>, v: Value)
    requires
        !(v is Ref),
        style::normal_name(prop) == "background"@ || style::normal_name(prop) == "foreground"@
            || style::normal_name(prop) == "border_color"@ ==> !(v is Color),
        style::normal_name(prop) == "font_family"@ ==> (v matches Value::Text(t) ==> text::trim(t).len() == 0),
        style::normal_name(prop) == "background"@ || style::normal_name(prop) == "foreground"@
            || style::normal_name(prop) == "border_color"@ || style::normal_name(prop) == "font_family"@,
    ensures
        export_theme::styled(s, prop, v) == s,
{
    style::standard_names_differ();
}

} // verus!
