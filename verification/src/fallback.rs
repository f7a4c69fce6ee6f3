//! What a component's property falls back to, and whether it is shown as overridden.

use vstd::prelude::*;
use crate::scalar::{self, Scalar};
use crate::schema::{self, PluginDefinition, PluginModel};
use crate::storage::{
    self, ComponentThemeData, PropertyValue, ThemeData, DEFAULT_SIZE_KEY, NORMAL_STATE_KEY,
};
use crate::text::text_eq;
use crate::textmap::{self, Duplicate, TextMap};
use crate::value::{self, Value};

verus! {

/// Whether two values match: floats within the machine epsilon, an integer as the float it is.
pub open spec fn values_match(a: Value, b: Value) -> bool {
    match (a, b) {
        (Value::Float(x), Value::Float(y)) => scalar::near_scalar(x, y),
        (Value::Float(x), Value::Int(y)) => scalar::near_scalar(x, scalar::int_scalar(y as int)),
        (Value::Int(x), Value::Float(y)) => scalar::near_scalar(scalar::int_scalar(x as int), y),
        _ => a == b,
    }
}

/// Whether two values match.
pub fn property_value_matches(a: &PropertyValue, b: &PropertyValue) -> (r: bool)
    ensures
        r == values_match(a@, b@),
{
    match (a, b) {
        (PropertyValue::Color(a), PropertyValue::Color(b)) => *a == *b,
        (PropertyValue::Float(a), PropertyValue::Float(b)) => a.near(b),
        (PropertyValue::Float(a), PropertyValue::Int(b)) => a.near(&Scalar::from_int(*b)),
        (PropertyValue::Int(a), PropertyValue::Float(b)) => Scalar::from_int(*a).near(b),
        (PropertyValue::Int(a), PropertyValue::Int(b)) => *a == *b,
        (PropertyValue::Bool(a), PropertyValue::Bool(b)) => *a == *b,
        (PropertyValue::String(a), PropertyValue::String(b)) => text_eq(a.as_str(), b.as_str()),
        (PropertyValue::Token(a), PropertyValue::Token(b)) => text_eq(a.as_str(), b.as_str()),
        _ => false,
    }
}

// ---------------------------------------------------------------------------------------------
// Parent components
// ---------------------------------------------------------------------------------------------
/// The first of some keys whose plugin is that of a component.
pub open spec fn named_component(
    plugins: Map<Seq<char>, PluginModel>,
    keys: Seq<Seq<char>>,
    name: Seq<char>,
) -> Option<Seq<char>>
    decreases keys.len(),
{
    if keys.len() == 0 {
        None
    } else {
        let before = named_component(plugins, keys.drop_last(), name);
        if before is Some {
            before
        } else if plugins.dom().contains(keys.last()) && plugins[keys.last()].component == name {
            Some(keys.last())
        } else {
            None
        }
    }
}

/// The data of the component that a component extends.
pub open spec fn parent_data(
    plugins: Map<Seq<char>, PluginModel>,
    themes: Map<Seq<char>, ThemeData>,
    data: ThemeData,
) -> Option<ThemeData> {
    match parent_of(plugins, themes, data) {
        Some(k) => Some(themes[k]),
        None => None,
    }
}

/// The key of the component that a component extends.
pub open spec fn parent_of(
    plugins: Map<Seq<char>, PluginModel>,
    themes: Map<Seq<char>, ThemeData>,
    data: ThemeData,
) -> Option<Seq<char>> {
    match data.parent_key {
        Some(name) => named_component(plugins, textmap::sorted_keys(themes), name),
        None => None,
    }
}

/// The index, among the components of a theme, of the component that a component extends.
pub fn component_parent_index(
    component_plugins: &TextMap<PluginDefinition>,
    component_themes: &TextMap<ComponentThemeData>,
    data: &ComponentThemeData,
) -> (r: Option<usize>)
    ensures
        match r {
            Some(i) => i < textmap::sorted_keys(component_themes@).len() && parent_of(
                component_plugins@,
                component_themes@,
                data@,
            ) == Some(textmap::sorted_keys(component_themes@)[i as int]),
            None => parent_of(component_plugins@, component_themes@, data@) is None,
        },
{
    match &data.parent_key {
        Some(name) => {
            let n: usize = component_themes.len();
            let ghost keys = textmap::sorted_keys(component_themes@);
            for i in 0..n
                invariant
                    keys == textmap::sorted_keys(component_themes@),
                    n == keys.len(),
                    named_component(component_plugins@, keys.take(i as int), name@) is None,
                    data@.parent_key == Some(name@),
            {
                proof {
                    assert(keys.take(i + 1).drop_last() =~= keys.take(i as int));
                    assert(keys.take(i + 1).last() == keys[i as int]);
                }
                if let Some(plugin) = component_plugins.get(component_themes.key_at(i).as_str()) {
                    if text_eq(plugin.component.as_str(), name.as_str()) {
                        proof {
                            lemma_named_stays(component_plugins@, keys, i + 1, name@);
                        }
                        return Some(i);
                    }
                }
            }
            assert(keys.take(n as int) =~= keys);
            None
        },
        None => None,
    }
}

proof fn lemma_named_stays(
    plugins: Map<Seq<char>, PluginModel>,
    keys: Seq<Seq<char>>,
    n: int,
    name: Seq<char>,
)
    requires
        0 <= n <= keys.len(),
        named_component(plugins, keys.take(n), name) is Some,
    ensures
        named_component(plugins, keys, name) == named_component(plugins, keys.take(n), name),
    decreases keys.len() - n,
{
    if n == keys.len() {
        assert(keys.take(n) =~= keys);
    } else {
        assert(keys.take(n + 1).drop_last() =~= keys.take(n));
        lemma_named_stays(plugins, keys, n + 1, name);
    }
}

/// The data of the component that a component extends.
pub fn component_parent_data<'a>(
    component_plugins: &TextMap<PluginDefinition>,
    component_themes: &'a TextMap<ComponentThemeData>,
    data: &ComponentThemeData,
) -> (r: Option<&'a ComponentThemeData>)
    ensures
        schema::option_view(r) == parent_data(component_plugins@, component_themes@, data@),
{
    match component_parent_index(component_plugins, component_themes, data) {
        Some(i) => Some(component_themes.value_at(i)),
        None => None,
    }
}

/// The key of the plugin of a component.
pub open spec fn key_by_name(plugins: Map<Seq<char>, PluginModel>, name: Seq<char>) -> Option<Seq<char>> {
    named_component(plugins, textmap::sorted_keys(plugins), name)
}

/// The key of the plugin of a component.
pub fn component_key_by_name<'a>(
    component_plugins: &'a TextMap<PluginDefinition>,
    component_name: &str,
) -> (r: Option<&'a str>)
    ensures
        schema::option_view(r) == key_by_name(component_plugins@, component_name@),
        r matches Some(k) ==> component_plugins@.dom().contains(k@),
{
    let n: usize = component_plugins.len();
    let ghost keys = textmap::sorted_keys(component_plugins@);
    for i in 0..n
        invariant
            keys == textmap::sorted_keys(component_plugins@),
            n == keys.len(),
            named_component(component_plugins@, keys.take(i as int), component_name@) is None,
    {
        proof {
            assert(keys.take(i + 1).drop_last() =~= keys.take(i as int));
            assert(keys.take(i + 1).last() == keys[i as int]);
        }
        if text_eq(component_plugins.value_at(i).component.as_str(), component_name) {
            proof {
                lemma_named_stays(component_plugins@, keys, i + 1, component_name@);
            }
            return Some(component_plugins.key_at(i).as_str());
        }
    }
    assert(keys.take(n as int) =~= keys);
    None
}

// ---------------------------------------------------------------------------------------------
// Variants
// ---------------------------------------------------------------------------------------------
/// The value of a property in the data of a parent, where there is one.
pub open spec fn parent_value(
    parent: Option<ThemeData>,
    variant: Seq<char>,
    state: Seq<char>,
    prop: Seq<char>,
) -> Option<Value> {
    match parent {
        Some(d) => storage::variant_value(d.variant_props, variant, state, prop),
        None => None,
    }
}

/// The value of a property in the data of the parent component, or else in those of the parent theme.
pub open spec fn parents_value(
    theme_parent: Option<ThemeData>,
    component_parent: Option<ThemeData>,
    variant: Seq<char>,
    state: Seq<char>,
    prop: Seq<char>,
) -> Option<Value> {
    schema::or_else(
        parent_value(component_parent, variant, state, prop),
        parent_value(theme_parent, variant, state, prop),
    )
}

/// How far a variant and a state are from the root of inheritance.
pub open spec fn distance(data: ThemeData, variant: Seq<char>, state: Seq<char>) -> nat {
    if state != NORMAL_STATE_KEY@ {
        2
    } else if !data.is_common(variant) {
        1
    } else {
        0
    }
}

/// What a property falls back to. A state falls back to its variant's normal value, and a variant
/// to the Common variant's, where that is itself overridden; or else to the parents' value for the
/// same variant and state; or else to that normal or Common value all the same.
pub open spec fn fallback(
    data: ThemeData,
    theme_parent: Option<ThemeData>,
    component_parent: Option<ThemeData>,
    variant: Seq<char>,
    state: Seq<char>,
    prop: Seq<char>,
) -> Option<Value>
    decreases distance(data, variant, state), 0nat,
{
    let own = data.inherited(variant, state, prop);
    let source = if state != NORMAL_STATE_KEY@ {
        variant
    } else {
        data.common_variant_key->Some_0
    };
    if own is Some && distance(data, source, NORMAL_STATE_KEY@) < distance(data, variant, state) && shown_overridden(
        data,
        theme_parent,
        component_parent,
        source,
        NORMAL_STATE_KEY@,
        prop,
        own->Some_0,
    ) {
        own
    } else {
        schema::or_else(parents_value(theme_parent, component_parent, variant, state, prop), own)
    }
}

/// Whether a value is shown as overridden: it does not match what it falls back to. Where there is
/// nothing to fall back to, the root is where nothing is inherited from, and anything else where it
/// is marked.
pub open spec fn shown_overridden(
    data: ThemeData,
    theme_parent: Option<ThemeData>,
    component_parent: Option<ThemeData>,
    variant: Seq<char>,
    state: Seq<char>,
    prop: Seq<char>,
    v: Value,
) -> bool
    decreases distance(data, variant, state), 1nat,
{
    match fallback(data, theme_parent, component_parent, variant, state, prop) {
        Some(f) => !values_match(v, f),
        None => if data.is_root(variant, state) {
            theme_parent is None && component_parent is None
        } else {
            storage::variant_flagged(data.variant_overrides, variant, state, prop)
        },
    }
}

/// The value of a variant's property in a state.
pub fn variant_prop_value<'a>(data: &'a ComponentThemeData, variant: &str, state: &str, prop_name: &str) -> (r:
    Option<&'a PropertyValue>)
    ensures
        schema::option_view(r) == storage::variant_value(
            data@.variant_props,
            variant@,
            state@,
            prop_name@,
        ),
{
    match data.variant_props.get(variant) {
        Some(states) => states.get2(state, prop_name),
        None => None,
    }
}

fn parents_prop_value<'a>(
    theme_parent_data: Option<&'a ComponentThemeData>,
    component_parent_data: Option<&'a ComponentThemeData>,
    variant: &str,
    state: &str,
    prop_name: &str,
) -> (r: Option<&'a PropertyValue>)
    ensures
        schema::option_view(r) == parents_value(
            schema::option_view(theme_parent_data),
            schema::option_view(component_parent_data),
            variant@,
            state@,
            prop_name@,
        ),
{
    let from_component = match component_parent_data {
        Some(parent) => variant_prop_value(parent, variant, state, prop_name),
        None => None,
    };
    match from_component {
        Some(v) => Some(v),
        None => match theme_parent_data {
            Some(parent) => variant_prop_value(parent, variant, state, prop_name),
            None => None,
        },
    }
}

fn copied(v: Option<&PropertyValue>) -> (r: Option<PropertyValue>)
    ensures
        storage::found(r) == schema::option_view(v),
{
    match v {
        Some(x) => Some(x.duplicate()),
        None => None,
    }
}

/// What a property falls back to.
pub fn variant_prop_fallback_value(
    data: &ComponentThemeData,
    theme_parent_data: Option<&ComponentThemeData>,
    component_parent_data: Option<&ComponentThemeData>,
    variant: &str,
    state: &str,
    prop_name: &str,
) -> (r: Option<PropertyValue>)
    ensures
        storage::found(r) == fallback(
            data@,
            schema::option_view(theme_parent_data),
            schema::option_view(component_parent_data),
            variant@,
            state@,
            prop_name@,
        ),
    decreases distance(data@, variant@, state@), 0nat,
{
    let from_parents = parents_prop_value(
        theme_parent_data,
        component_parent_data,
        variant,
        state,
        prop_name,
    );
    let source: Option<&str> = if !text_eq(state, NORMAL_STATE_KEY) {
        Some(variant)
    } else if !data.variant_is_common(variant) {
        data.common_variant_key()
    } else {
        None
    };
    match source {
        Some(source) => {
            let own = variant_prop_value(data, source, NORMAL_STATE_KEY, prop_name);
            if let Some(value) = own {
                if variant_prop_is_overridden_for_ui(
                    data,
                    theme_parent_data,
                    component_parent_data,
                    source,
                    NORMAL_STATE_KEY,
                    prop_name,
                    value,
                ) {
                    return Some(value.duplicate());
                }
            }
            match from_parents {
                Some(v) => Some(v.duplicate()),
                None => copied(own),
            }
        },
        None => copied(from_parents),
    }
}

/// Whether a property's value is shown as overridden.
pub fn variant_prop_is_overridden_for_ui(
    data: &ComponentThemeData,
    theme_parent_data: Option<&ComponentThemeData>,
    component_parent_data: Option<&ComponentThemeData>,
    variant: &str,
    state: &str,
    prop_name: &str,
    value: &PropertyValue,
) -> (r: bool)
    ensures
        r == shown_overridden(
            data@,
            schema::option_view(theme_parent_data),
            schema::option_view(component_parent_data),
            variant@,
            state@,
            prop_name@,
            value@,
        ),
    decreases distance(data@, variant@, state@), 1nat,
{
    match variant_prop_fallback_value(
        data,
        theme_parent_data,
        component_parent_data,
        variant,
        state,
        prop_name,
    ) {
        Some(f) => !property_value_matches(value, &f),
        None => {
            if data.variant_state_is_root(variant, state) {
                theme_parent_data.is_none() && component_parent_data.is_none()
            } else {
                data.variant_prop_is_overridden(variant, state, prop_name)
            }
        },
    }
}

// ---------------------------------------------------------------------------------------------
// Sizes
// ---------------------------------------------------------------------------------------------
/// The Common value of a property in the data of a parent, where there is one.
pub open spec fn parent_base(parent: Option<ThemeData>, prop: Seq<char>) -> Option<Value> {
    match parent {
        Some(d) => d.base(prop),
        None => None,
    }
}

/// Whether a size's value is shown as overridden. A concrete size's is where it is marked. The
/// Common one is where it does not match the parent component's, or else differs from the parent
/// theme's; without either, where no parent is there to follow, or the property no longer follows.
pub open spec fn shown_size_overridden(
    data: ThemeData,
    theme_parent: Option<ThemeData>,
    component_parent: Option<ThemeData>,
    size: Seq<char>,
    prop: Seq<char>,
    v: Value,
) -> bool {
    if size != DEFAULT_SIZE_KEY@ {
        storage::size_flagged(data.size_overrides, size, prop)
    } else {
        match parent_base(component_parent, prop) {
            Some(p) => !values_match(v, p),
            None => match parent_base(theme_parent, prop) {
                Some(p) => !value::same_value(p, v),
                None => component_parent is Some || data.parent_key is None || data.parent_overrides.contains(
                    prop,
                ),
            },
        }
    }
}

fn base_value<'a>(parent: Option<&'a ComponentThemeData>, prop_name: &str) -> (r: Option<&'a PropertyValue>)
    ensures
        schema::option_view(r) == parent_base(schema::option_view(parent), prop_name@),
{
    match parent {
        Some(d) => d.size_props.get2(DEFAULT_SIZE_KEY, prop_name),
        None => None,
    }
}

/// Whether a size's value is shown as overridden.
pub fn size_prop_is_overridden_for_ui(
    data: &ComponentThemeData,
    theme_parent_data: Option<&ComponentThemeData>,
    component_parent_data: Option<&ComponentThemeData>,
    size: &str,
    prop_name: &str,
    value: &PropertyValue,
) -> (r: bool)
    ensures
        r == shown_size_overridden(
            data@,
            schema::option_view(theme_parent_data),
            schema::option_view(component_parent_data),
            size@,
            prop_name@,
            value@,
        ),
{
    if !text_eq(size, DEFAULT_SIZE_KEY) {
        return data.size_prop_is_overridden(size, prop_name);
    }
    if let Some(p) = base_value(component_parent_data, prop_name) {
        return !property_value_matches(value, p);
    }
    if let Some(p) = base_value(theme_parent_data, prop_name) {
        return !p.same(value);
    }
    component_parent_data.is_some() || data.parent_key.is_none() || data.parent_prop_is_overridden(prop_name)
}

// ---------------------------------------------------------------------------------------------
// Laws
// ---------------------------------------------------------------------------------------------
/// What a property falls back to is never shown as overridden, unless it is no number.
pub proof fn fallback_is_not_overridden(
    data: ThemeData,
    theme_parent: Option<ThemeData>,
    component_parent: Option<ThemeData>,
    variant: Seq<char>,
    state: Seq<char>,
    prop: Seq<char>,
    v: Value,
)
    requires
        fallback(data, theme_parent, component_parent, variant, state, prop) == Some(v),
        values_match(v, v),
    ensures
        !shown_overridden(data, theme_parent, component_parent, variant, state, prop, v),
{
}

/// Without parents nothing but the data themselves is fallen back to.
pub proof fn no_parent_falls_back_to_own(
    data: ThemeData,
    variant: Seq<char>,
    state: Seq<char>,
    prop: Seq<char>,
)
    ensures
        fallback(data, None, None, variant, state, prop) == data.inherited(variant, state, prop),
{
}

/// At the root the parent component comes before the parent theme.
pub proof fn component_parent_comes_first(
    data: ThemeData,
    theme_parent: Option<ThemeData>,
    component_parent: ThemeData,
    variant: Seq<char>,
    prop: Seq<char>,
    v: Value,
)
    requires
        data.is_root(variant, NORMAL_STATE_KEY@),
        storage::variant_value(component_parent.variant_props, variant, NORMAL_STATE_KEY@, prop) == Some(v),
    ensures
        fallback(data, theme_parent, Some(component_parent), variant, NORMAL_STATE_KEY@, prop) == Some(v),
{
}

proof fn lemma_named_component(plugins: Map<Seq<char>, PluginModel>, keys: Seq<Seq<char>>, name: Seq<char>)
    ensures
        match named_component(plugins, keys, name) {
            Some(k) => keys.contains(k) && plugins.dom().contains(k) && plugins[k].component == name,
            None => forall|i: int|
                0 <= i < keys.len() && plugins.dom().contains(#[trigger] keys[i]) ==> plugins[keys[i]].component
                    != name,
        },
    decreases keys.len(),
{
    if keys.len() > 0 {
        let front = keys.drop_last();
        lemma_named_component(plugins, front, name);
        match named_component(plugins, front, name) {
            Some(k) => {
                let i = choose|i: int| 0 <= i < front.len() && front[i] == k;
                assert(keys[i] == k);
            },
            None => {
                assert(keys[keys.len() - 1] == keys.last());
                assert forall|i: int|
                    0 <= i < keys.len() - 1 && plugins.dom().contains(#[trigger] keys[i]) implies plugins[keys[i]].component
                    != name by {
                    assert(front[i] == keys[i]);
                }
            },
        }
    }
}

/// The key found for a component's name is that of a plugin of the component, and there is one where
/// some plugin is of the component.
pub proof fn found_key_is_of_component(plugins: Map<Seq<char>, PluginModel>, name: Seq<char>)
    requires
        plugins.dom().finite(),
    ensures
        match key_by_name(plugins, name) {
            Some(k) => plugins.dom().contains(k) && plugins[k].component == name,
            None => forall|k: Seq<char>| #[trigger]
                plugins.dom().contains(k) ==> plugins[k].component != name,
        },
{
    let keys = textmap::sorted_keys(plugins);
    textmap::sorted_lists(plugins.dom());
    lemma_named_component(plugins, keys, name);
    if key_by_name(plugins, name) is None {
        assert forall|k: Seq<char>| #[trigger] plugins.dom().contains(k) implies plugins[k].component != name by {
            assert(keys.contains(k));
            let i = choose|i: int| 0 <= i < keys.len() && keys[i] == k;
            assert(plugins.dom().contains(keys[i]));
        }
    }
}

/// The data that a component extends are those of a component of the name that it extends; a component
/// that extends nothing has none.
pub proof fn parent_is_of_extended_component(
    plugins: Map<Seq<char>, PluginModel>,
    themes: Map<Seq<char>, ThemeData>,
    data: ThemeData,
)
    requires
        themes.dom().finite(),
    ensures
        match (data.parent_key, parent_data(plugins, themes, data)) {
            (None, found) => found is None,
            (Some(name), Some(d)) => exists|k: Seq<char>|
                #![trigger themes.dom().contains(k)]
                themes.dom().contains(k) && themes[k] == d && plugins.dom().contains(k) && plugins[k].component
                    == name,
            (Some(name), None) => forall|k: Seq<char>|
                #![trigger themes.dom().contains(k)]
                themes.dom().contains(k) && plugins.dom().contains(k) ==> plugins[k].component != name,
        },
{
    let keys = textmap::sorted_keys(themes);
    textmap::sorted_lists(themes.dom());
    if let Some(name) = data.parent_key {
        lemma_named_component(plugins, keys, name);
        match parent_of(plugins, themes, data) {
            Some(k) => {
                assert(themes.dom().contains(k));
            },
            None => {
                assert forall|k: Seq<char>|
                    #![trigger themes.dom().contains(k)]
                    themes.dom().contains(k) && plugins.dom().contains(k) implies plugins[k].component
                    != name by {
                    assert(keys.contains(k));
                    let i = choose|i: int| 0 <= i < keys.len() && keys[i] == k;
                    assert(plugins.dom().contains(keys[i]));
                }
            },
        }
    }
}

/// A state falls back to its variant's normal value where that is overridden itself, else to what the
/// parents have for the same variant and state, the parent component before the parent theme, else to
/// the normal value all the same.
pub proof fn state_falls_back_to_nearest(
    data: ThemeData,
    theme_parent: Option<ThemeData>,
    component_parent: Option<ThemeData>,
    variant: Seq<char>,
    state: Seq<char>,
    prop: Seq<char>,
    normal: Value,
)
    requires
        state != NORMAL_STATE_KEY@,
        storage::variant_value(data.variant_props, variant, NORMAL_STATE_KEY@, prop) == Some(normal),
    ensures
        ({
            let found = fallback(data, theme_parent, component_parent, variant, state, prop);
            let of_component = match component_parent {
                Some(d) => storage::variant_value(d.variant_props, variant, state, prop),
                None => None,
            };
            let of_theme = match theme_parent {
                Some(d) => storage::variant_value(d.variant_props, variant, state, prop),
                None => None,
            };
            let overridden = shown_overridden(
                data,
                theme_parent,
                component_parent,
                variant,
                NORMAL_STATE_KEY@,
                prop,
                normal,
            );
            &&& overridden ==> found == Some(normal)
            &&& !overridden && of_component is Some ==> found == of_component
            &&& !overridden && of_component is None && of_theme is Some ==> found == of_theme
            &&& !overridden && of_component is None && of_theme is None ==> found == Some(normal)
        }),
{
}

/// A Common value that is the parent component's is not shown as overridden, and one of a concrete
/// size is where it is marked, whatever the parents have.
pub proof fn followed_common_is_not_overridden(
    data: ThemeData,
    theme_parent: Option<ThemeData>,
    component_parent: ThemeData,
    other: Option<ThemeData>,
    size: Seq<char>,
    prop: Seq<char>,
    v: Value,
    w: Value,
)
    ensures
        component_parent.base(prop) == Some(w) && values_match(v, w) ==> !shown_size_overridden(
            data,
            theme_parent,
            Some(component_parent),
            DEFAULT_SIZE_KEY@,
            prop,
            v,
        ),
        component_parent.base(prop) == Some(w) && !values_match(v, w) ==> shown_size_overridden(
            data,
            theme_parent,
            Some(component_parent),
            DEFAULT_SIZE_KEY@,
            prop,
            v,
        ),
        size != DEFAULT_SIZE_KEY@ ==> shown_size_overridden(data, theme_parent, other, size, prop, v)
            == storage::size_flagged(data.size_overrides, size, prop),
{
}

} // verus!
