//! What a component has after a file has been read.

use vstd::prelude::*;
use crate::component_json;
use crate::fallback;
use crate::json::{self, JsonModel, ObjectModel};
use crate::reconcile;
use crate::record_json;
use crate::records;
use crate::schema::{self, PluginModel, PropModel};
use crate::storage::{self, ThemeData, DEFAULT_SIZE_KEY, NORMAL_STATE_KEY};
use crate::text;
use crate::textmap;
use crate::token_theme;
use crate::value::Value;

verus! {

// ---------------------------------------------------------------------------------------------
// Variants
// ---------------------------------------------------------------------------------------------
/// Whether a variant's property has a value in a state: that very value where it is marked, or where
/// nothing is inherited, and elsewhere what it inherits.
pub open spec fn settled_at(
    d: ThemeData,
    variant: Seq<char>,
    state: Seq<char>,
    prop: Seq<char>,
    v: Value,
) -> bool {
    let now = storage::variant_value(d.variant_props, variant, state, prop);
    if d.is_root(variant, state) || storage::variant_flagged(d.variant_overrides, variant, state, prop) {
        now == Some(v)
    } else {
        now is Some && now == d.inherited(variant, state, prop)
    }
}

/// Whether the data have a Common variant, and a state of a variant.
pub open spec fn has_state(d: ThemeData, variant: Seq<char>, state: Seq<char>) -> bool {
    &&& d.common_variant_key is Some
    &&& d.variant_props.dom().contains(variant)
    &&& d.variant_props[variant].dom().contains(state)
}

proof fn lemma_set_keeps_states(
    d: ThemeData,
    variant: Seq<char>,
    state: Seq<char>,
    prop: Seq<char>,
    v: Value,
    at: Seq<char>,
    at_state: Seq<char>,
)
    requires
        has_state(d, at, at_state),
    ensures
        has_state(d.variant_set(variant, state, prop, v), at, at_state),
{
    let e = d.with_resolved(variant, state, prop, v, d.becomes_override(variant, state, prop, v));
    assert(e.reinherited(prop).variant_props[at] == e.settled_states(at, prop));
}

proof fn lemma_set_settles(d: ThemeData, variant: Seq<char>, state: Seq<char>, prop: Seq<char>, v: Value)
    requires
        has_state(d, variant, state),
    ensures
        settled_at(d.variant_set(variant, state, prop, v), variant, state, prop, v),
{
    let flag = d.becomes_override(variant, state, prop, v);
    let e = d.with_resolved(variant, state, prop, v, flag);
    let after = e.reinherited(prop);
    if flag || d.is_root(variant, state) {
        storage::marked_value_stays(e, prop, variant, state);
    } else {
        lemma_still_inherits(e, variant, state, prop);
        storage::unmarked_value_is_inherited(e, prop, variant, state);
    }
}

proof fn lemma_still_inherits(e: ThemeData, variant: Seq<char>, state: Seq<char>, prop: Seq<char>)
    requires
        has_state(e, variant, state),
        e.inherited(variant, state, prop) is Some,
    ensures
        e.reinherited(prop).inherited(variant, state, prop) is Some,
{
    let after = e.reinherited(prop);
    if state != NORMAL_STATE_KEY@ {
        assert(after.variant_props[variant] == e.settled_states(variant, prop));
    } else {
        let common = e.common_variant_key->Some_0;
        assert(after.variant_props[common] == e.settled_states(common, prop));
    }
}

proof fn lemma_set_elsewhere(
    d: ThemeData,
    variant: Seq<char>,
    state: Seq<char>,
    prop: Seq<char>,
    v: Value,
    at: Seq<char>,
    at_state: Seq<char>,
    at_prop: Seq<char>,
    w: Value,
)
    requires
        has_state(d, at, at_state),
        settled_at(d, at, at_state, at_prop, w),
        variant != at || state != at_state || prop != at_prop,
    ensures
        settled_at(d.variant_set(variant, state, prop, v), at, at_state, at_prop, w),
{
    let flag = d.becomes_override(variant, state, prop, v);
    let e = d.with_resolved(variant, state, prop, v, flag);
    assert(storage::variant_flagged(e.variant_overrides, at, at_state, at_prop) == storage::variant_flagged(
        d.variant_overrides,
        at,
        at_state,
        at_prop,
    ));
    assert(storage::variant_value(e.variant_props, at, at_state, at_prop) == storage::variant_value(
        d.variant_props,
        at,
        at_state,
        at_prop,
    ));
    let marked = d.is_root(at, at_state) || storage::variant_flagged(d.variant_overrides, at, at_state, at_prop);
    if prop != at_prop {
        storage::other_props_stay(e, prop, at, at_state, at_prop);
        storage::other_props_stay(e, prop, at, NORMAL_STATE_KEY@, at_prop);
        if let Some(common) = d.common_variant_key {
            storage::other_props_stay(e, prop, common, NORMAL_STATE_KEY@, at_prop);
        }
    } else if marked {
        storage::marked_value_stays(e, prop, at, at_state);
    } else {
        lemma_still_inherits(e, at, at_state, prop);
        storage::unmarked_value_is_inherited(e, prop, at, at_state);
    }
}

proof fn lemma_ascending_once(keys: Seq<Seq<char>>, i: int)
    requires
        textmap::ascending(keys),
        0 <= i < keys.len(),
    ensures
        !keys.take(i).contains(keys[i]),
        textmap::ascending(keys.drop_last()),
        i < keys.len() - 1 ==> keys.last() != keys[i],
{
    if keys.take(i).contains(keys[i]) {
        let j = choose|j: int| 0 <= j < i && keys.take(i)[j] == keys[i];
        assert(text::text_lt(keys[j], keys[i]));
        text::text_lt_irreflexive(keys[i]);
    }
    let front = keys.drop_last();
    assert forall|a: int, b: int| 0 <= a < b < front.len() implies text::text_lt(
        #[trigger] front[a],
        #[trigger] front[b],
    ) by {
        assert(text::text_lt(keys[a], keys[b]));
    }
    if i < keys.len() - 1 {
        assert(text::text_lt(keys[i], keys[keys.len() - 1]));
        text::text_lt_irreflexive(keys[i]);
    }
}

proof fn lemma_props_has(
    d: ThemeData,
    defs: Seq<PropModel>,
    variant: Seq<char>,
    state: Seq<char>,
    o: ObjectModel,
    keys: Seq<Seq<char>>,
    at: Seq<char>,
    at_state: Seq<char>,
)
    requires
        has_state(d, at, at_state),
    ensures
        has_state(component_json::props_read(d, defs, variant, state, o, keys), at, at_state),
    decreases keys.len(),
{
    if keys.len() > 0 {
        lemma_props_has(d, defs, variant, state, o, keys.drop_last(), at, at_state);
        let before = component_json::props_read(d, defs, variant, state, o, keys.drop_last());
        if let Some(v) = component_json::declared_value(defs, keys.last(), o[keys.last()]) {
            lemma_set_keeps_states(before, variant, state, keys.last(), v, at, at_state);
        }
    }
}

proof fn lemma_props_keep(
    d: ThemeData,
    defs: Seq<PropModel>,
    variant: Seq<char>,
    state: Seq<char>,
    o: ObjectModel,
    keys: Seq<Seq<char>>,
    at: Seq<char>,
    at_state: Seq<char>,
    at_prop: Seq<char>,
    w: Value,
)
    requires
        has_state(d, at, at_state),
        settled_at(d, at, at_state, at_prop, w),
        variant != at || state != at_state || !keys.contains(at_prop),
    ensures
        settled_at(component_json::props_read(d, defs, variant, state, o, keys), at, at_state, at_prop, w),
    decreases keys.len(),
{
    if keys.len() > 0 {
        let front = keys.drop_last();
        if front.contains(at_prop) {
            let i = choose|i: int| 0 <= i < front.len() && front[i] == at_prop;
            assert(keys[i] == at_prop);
        }
        assert(keys[keys.len() - 1] == keys.last());
        lemma_props_keep(d, defs, variant, state, o, front, at, at_state, at_prop, w);
        lemma_props_has(d, defs, variant, state, o, front, at, at_state);
        let before = component_json::props_read(d, defs, variant, state, o, front);
        if let Some(v) = component_json::declared_value(defs, keys.last(), o[keys.last()]) {
            lemma_set_elsewhere(before, variant, state, keys.last(), v, at, at_state, at_prop, w);
        }
    }
}

proof fn lemma_props_give(
    d: ThemeData,
    defs: Seq<PropModel>,
    variant: Seq<char>,
    state: Seq<char>,
    o: ObjectModel,
    keys: Seq<Seq<char>>,
    i: int,
    w: Value,
)
    requires
        has_state(d, variant, state),
        textmap::ascending(keys),
        0 <= i < keys.len(),
        component_json::declared_value(defs, keys[i], o[keys[i]]) == Some(w),
    ensures
        settled_at(component_json::props_read(d, defs, variant, state, o, keys), variant, state, keys[i], w),
    decreases keys.len(),
{
    let front = keys.drop_last();
    let before = component_json::props_read(d, defs, variant, state, o, front);
    lemma_ascending_once(keys, i);
    lemma_props_has(d, defs, variant, state, o, front, variant, state);
    if i == keys.len() - 1 {
        lemma_set_settles(before, variant, state, keys[i], w);
    } else {
        lemma_props_give(d, defs, variant, state, o, front, i, w);
        if let Some(v) = component_json::declared_value(defs, keys.last(), o[keys.last()]) {
            lemma_set_elsewhere(before, variant, state, keys.last(), v, variant, state, keys[i], w);
        }
    }
}

proof fn lemma_states_has(
    d: ThemeData,
    defs: Seq<PropModel>,
    variant: Seq<char>,
    o: ObjectModel,
    keys: Seq<Seq<char>>,
    at: Seq<char>,
    at_state: Seq<char>,
)
    requires
        has_state(d, at, at_state),
    ensures
        has_state(component_json::states_read(d, defs, variant, o, keys), at, at_state),
    decreases keys.len(),
{
    if keys.len() > 0 {
        lemma_states_has(d, defs, variant, o, keys.drop_last(), at, at_state);
        let before = component_json::states_read(d, defs, variant, o, keys.drop_last());
        if let Some(props) = json::object_of(Some(o[keys.last()])) {
            lemma_props_has(
                before,
                defs,
                variant,
                keys.last(),
                props,
                textmap::sorted_keys(props),
                at,
                at_state,
            );
        }
    }
}

proof fn lemma_states_keep(
    d: ThemeData,
    defs: Seq<PropModel>,
    variant: Seq<char>,
    o: ObjectModel,
    keys: Seq<Seq<char>>,
    at: Seq<char>,
    at_state: Seq<char>,
    at_prop: Seq<char>,
    w: Value,
)
    requires
        has_state(d, at, at_state),
        settled_at(d, at, at_state, at_prop, w),
        variant != at || !keys.contains(at_state),
    ensures
        settled_at(component_json::states_read(d, defs, variant, o, keys), at, at_state, at_prop, w),
    decreases keys.len(),
{
    if keys.len() > 0 {
        let front = keys.drop_last();
        if front.contains(at_state) {
            let i = choose|i: int| 0 <= i < front.len() && front[i] == at_state;
            assert(keys[i] == at_state);
        }
        assert(keys[keys.len() - 1] == keys.last());
        lemma_states_keep(d, defs, variant, o, front, at, at_state, at_prop, w);
        lemma_states_has(d, defs, variant, o, front, at, at_state);
        let before = component_json::states_read(d, defs, variant, o, front);
        if let Some(props) = json::object_of(Some(o[keys.last()])) {
            lemma_props_keep(
                before,
                defs,
                variant,
                keys.last(),
                props,
                textmap::sorted_keys(props),
                at,
                at_state,
                at_prop,
                w,
            );
        }
    }
}

proof fn lemma_states_give(
    d: ThemeData,
    defs: Seq<PropModel>,
    variant: Seq<char>,
    o: ObjectModel,
    keys: Seq<Seq<char>>,
    i: int,
    props: ObjectModel,
    prop: Seq<char>,
    w: Value,
)
    requires
        0 <= i < keys.len(),
        has_state(d, variant, keys[i]),
        textmap::ascending(keys),
        o[keys[i]] == JsonModel::Object(props),
        props.dom().finite(),
        props.dom().contains(prop),
        component_json::declared_value(defs, prop, props[prop]) == Some(w),
    ensures
        settled_at(component_json::states_read(d, defs, variant, o, keys), variant, keys[i], prop, w),
    decreases keys.len(),
{
    let front = keys.drop_last();
    let before = component_json::states_read(d, defs, variant, o, front);
    lemma_ascending_once(keys, i);
    lemma_states_has(d, defs, variant, o, front, variant, keys[i]);
    if i == keys.len() - 1 {
        textmap::sorted_lists(props.dom());
        let names = textmap::sorted_keys(props);
        assert(names.contains(prop));
        let k = choose|k: int| 0 <= k < names.len() && names[k] == prop;
        lemma_props_give(before, defs, variant, keys[i], props, names, k, w);
    } else {
        lemma_states_give(d, defs, variant, o, front, i, props, prop, w);
        if let Some(others) = json::object_of(Some(o[keys.last()])) {
            lemma_props_keep(
                before,
                defs,
                variant,
                keys.last(),
                others,
                textmap::sorted_keys(others),
                variant,
                keys[i],
                prop,
                w,
            );
        }
    }
}

proof fn lemma_variants_has(
    d: ThemeData,
    defs: Seq<PropModel>,
    o: ObjectModel,
    keys: Seq<Seq<char>>,
    at: Seq<char>,
    at_state: Seq<char>,
)
    requires
        has_state(d, at, at_state),
    ensures
        has_state(component_json::variants_read(d, defs, o, keys), at, at_state),
    decreases keys.len(),
{
    if keys.len() > 0 {
        lemma_variants_has(d, defs, o, keys.drop_last(), at, at_state);
        let before = component_json::variants_read(d, defs, o, keys.drop_last());
        if let Some(states) = json::object_of(Some(o[keys.last()])) {
            lemma_states_has(before, defs, keys.last(), states, textmap::sorted_keys(states), at, at_state);
        }
    }
}

proof fn lemma_variants_give(
    d: ThemeData,
    defs: Seq<PropModel>,
    o: ObjectModel,
    keys: Seq<Seq<char>>,
    i: int,
    states: ObjectModel,
    state: Seq<char>,
    props: ObjectModel,
    prop: Seq<char>,
    w: Value,
)
    requires
        0 <= i < keys.len(),
        has_state(d, keys[i], state),
        textmap::ascending(keys),
        o[keys[i]] == JsonModel::Object(states),
        states.dom().finite(),
        states.dom().contains(state),
        states[state] == JsonModel::Object(props),
        props.dom().finite(),
        props.dom().contains(prop),
        component_json::declared_value(defs, prop, props[prop]) == Some(w),
    ensures
        settled_at(component_json::variants_read(d, defs, o, keys), keys[i], state, prop, w),
    decreases keys.len(),
{
    let front = keys.drop_last();
    let before = component_json::variants_read(d, defs, o, front);
    lemma_ascending_once(keys, i);
    lemma_variants_has(d, defs, o, front, keys[i], state);
    if i == keys.len() - 1 {
        textmap::sorted_lists(states.dom());
        let names = textmap::sorted_keys(states);
        assert(names.contains(state));
        let k = choose|k: int| 0 <= k < names.len() && names[k] == state;
        lemma_states_give(before, defs, keys[i], states, names, k, props, prop, w);
    } else {
        lemma_variants_give(d, defs, o, front, i, states, state, props, prop, w);
        if let Some(others) = json::object_of(Some(o[keys.last()])) {
            lemma_states_keep(
                before,
                defs,
                keys.last(),
                others,
                textmap::sorted_keys(others),
                keys[i],
                state,
                prop,
                w,
            );
        }
    }
}

// ---------------------------------------------------------------------------------------------
// Sizes
// ---------------------------------------------------------------------------------------------
/// Whether a size's property has a value of its own: that value, marked as an override.
pub open spec fn size_settled_at(d: ThemeData, size: Seq<char>, prop: Seq<char>, v: Value) -> bool {
    &&& textmap::at2(d.size_props, size, prop) == Some(v)
    &&& storage::size_flagged(d.size_overrides, size, prop)
}

/// Whether the data have a size and the Common one, and marks for it.
pub open spec fn has_size(d: ThemeData, size: Seq<char>) -> bool {
    &&& d.size_props.dom().contains(size)
    &&& d.size_props.dom().contains(DEFAULT_SIZE_KEY@)
    &&& d.size_overrides.dom().contains(size)
}

proof fn lemma_size_elsewhere(
    d: ThemeData,
    size: Seq<char>,
    prop: Seq<char>,
    v: Value,
    at: Seq<char>,
    at_prop: Seq<char>,
    w: Value,
)
    requires
        has_size(d, at),
        size_settled_at(d, at, at_prop, w),
        size != at || prop != at_prop,
    ensures
        size_settled_at(d.size_imported(size, prop, v), at, at_prop, w),
{
    let after = d.size_imported(size, prop, v);
    assert(storage::size_flagged(after.size_overrides, at, at_prop) == storage::size_flagged(
        d.size_overrides,
        at,
        at_prop,
    ));
    if size == DEFAULT_SIZE_KEY@ {
        assert(after.size_props[at] == d.size_default_set(prop, v).size_props[at]);
        assert(after.size_props[DEFAULT_SIZE_KEY@] == d.size_default_set(prop, v).size_props[DEFAULT_SIZE_KEY@]);
    }
}

proof fn lemma_size_props_has(
    d: ThemeData,
    defs: Seq<PropModel>,
    size: Seq<char>,
    o: ObjectModel,
    keys: Seq<Seq<char>>,
    at: Seq<char>,
)
    requires
        has_size(d, at),
    ensures
        has_size(component_json::size_props_read(d, defs, size, o, keys), at),
    decreases keys.len(),
{
    if keys.len() > 0 {
        lemma_size_props_has(d, defs, size, o, keys.drop_last(), at);
    }
}

proof fn lemma_size_props_keep(
    d: ThemeData,
    defs: Seq<PropModel>,
    size: Seq<char>,
    o: ObjectModel,
    keys: Seq<Seq<char>>,
    at: Seq<char>,
    at_prop: Seq<char>,
    w: Value,
)
    requires
        has_size(d, at),
        size_settled_at(d, at, at_prop, w),
        size != at,
    ensures
        size_settled_at(component_json::size_props_read(d, defs, size, o, keys), at, at_prop, w),
    decreases keys.len(),
{
    if keys.len() > 0 {
        let front = keys.drop_last();
        lemma_size_props_keep(d, defs, size, o, front, at, at_prop, w);
        lemma_size_props_has(d, defs, size, o, front, at);
        let before = component_json::size_props_read(d, defs, size, o, front);
        if let Some(v) = component_json::declared_value(defs, keys.last(), o[keys.last()]) {
            lemma_size_elsewhere(before, size, keys.last(), v, at, at_prop, w);
        }
    }
}

proof fn lemma_size_props_give(
    d: ThemeData,
    defs: Seq<PropModel>,
    size: Seq<char>,
    o: ObjectModel,
    keys: Seq<Seq<char>>,
    i: int,
    w: Value,
)
    requires
        has_size(d, size),
        textmap::ascending(keys),
        0 <= i < keys.len(),
        component_json::declared_value(defs, keys[i], o[keys[i]]) == Some(w),
    ensures
        size_settled_at(component_json::size_props_read(d, defs, size, o, keys), size, keys[i], w),
    decreases keys.len(),
{
    let front = keys.drop_last();
    let before = component_json::size_props_read(d, defs, size, o, front);
    lemma_ascending_once(keys, i);
    lemma_size_props_has(d, defs, size, o, front, size);
    if i == keys.len() - 1 {
        let after = before.size_imported(size, keys[i], w);
        if size == DEFAULT_SIZE_KEY@ {
            assert(after.size_props[size] == before.size_default_set(keys[i], w).size_props[size]);
        }
    } else {
        lemma_size_props_give(d, defs, size, o, front, i, w);
        if let Some(v) = component_json::declared_value(defs, keys.last(), o[keys.last()]) {
            lemma_size_elsewhere(before, size, keys.last(), v, size, keys[i], w);
        }
    }
}

proof fn lemma_sizes_has(d: ThemeData, defs: Seq<PropModel>, o: ObjectModel, keys: Seq<Seq<char>>, at: Seq<char>)
    requires
        has_size(d, at),
    ensures
        has_size(component_json::sizes_read(d, defs, o, keys), at),
    decreases keys.len(),
{
    if keys.len() > 0 {
        lemma_sizes_has(d, defs, o, keys.drop_last(), at);
        let before = component_json::sizes_read(d, defs, o, keys.drop_last());
        if let Some(props) = json::object_of(Some(o[keys.last()])) {
            lemma_size_props_has(
                before,
                defs,
                storage::size_key_in_memory(keys.last()),
                props,
                textmap::sorted_keys(props),
                at,
            );
        }
    }
}

proof fn lemma_sizes_give(
    d: ThemeData,
    defs: Seq<PropModel>,
    o: ObjectModel,
    keys: Seq<Seq<char>>,
    i: int,
    props: ObjectModel,
    prop: Seq<char>,
    w: Value,
)
    requires
        0 <= i < keys.len(),
        has_size(d, storage::size_key_in_memory(keys[i])),
        textmap::ascending(keys),
        forall|k: int|
            0 <= k < keys.len() && k != i ==> storage::size_key_in_memory(#[trigger] keys[k])
                != storage::size_key_in_memory(keys[i]),
        o[keys[i]] == JsonModel::Object(props),
        props.dom().finite(),
        props.dom().contains(prop),
        component_json::declared_value(defs, prop, props[prop]) == Some(w),
    ensures
        size_settled_at(
            component_json::sizes_read(d, defs, o, keys),
            storage::size_key_in_memory(keys[i]),
            prop,
            w,
        ),
    decreases keys.len(),
{
    let front = keys.drop_last();
    let size = storage::size_key_in_memory(keys[i]);
    let before = component_json::sizes_read(d, defs, o, front);
    lemma_ascending_once(keys, i);
    lemma_sizes_has(d, defs, o, front, size);
    if i == keys.len() - 1 {
        textmap::sorted_lists(props.dom());
        let names = textmap::sorted_keys(props);
        assert(names.contains(prop));
        let k = choose|k: int| 0 <= k < names.len() && names[k] == prop;
        lemma_size_props_give(before, defs, size, props, names, k, w);
    } else {
        assert forall|k: int| 0 <= k < front.len() && k != i implies storage::size_key_in_memory(
            #[trigger] front[k],
        ) != size by {
            assert(front[k] == keys[k]);
        }
        lemma_sizes_give(d, defs, o, front, i, props, prop, w);
        if let Some(others) = json::object_of(Some(o[keys.last()])) {
            assert(keys[keys.len() - 1] == keys.last());
            lemma_size_props_keep(
                before,
                defs,
                storage::size_key_in_memory(keys.last()),
                others,
                textmap::sorted_keys(others),
                size,
                prop,
                w,
            );
        }
    }
}

// ---------------------------------------------------------------------------------------------
// Laws
// ---------------------------------------------------------------------------------------------
proof fn lemma_sizes_leave_variants(d: ThemeData, defs: Seq<PropModel>, o: ObjectModel, keys: Seq<Seq<char>>)
    ensures
        ({
            let e = component_json::sizes_read(d, defs, o, keys);
            e.variant_props == d.variant_props && e.variant_overrides == d.variant_overrides
                && e.common_variant_key == d.common_variant_key
        }),
    decreases keys.len(),
{
    if keys.len() > 0 {
        lemma_sizes_leave_variants(d, defs, o, keys.drop_last());
        let before = component_json::sizes_read(d, defs, o, keys.drop_last());
        if let Some(props) = json::object_of(Some(o[keys.last()])) {
            lemma_size_props_leave_variants(
                before,
                defs,
                storage::size_key_in_memory(keys.last()),
                props,
                textmap::sorted_keys(props),
            );
        }
    }
}

proof fn lemma_size_props_leave_variants(
    d: ThemeData,
    defs: Seq<PropModel>,
    size: Seq<char>,
    o: ObjectModel,
    keys: Seq<Seq<char>>,
)
    ensures
        ({
            let e = component_json::size_props_read(d, defs, size, o, keys);
            e.variant_props == d.variant_props && e.variant_overrides == d.variant_overrides
                && e.common_variant_key == d.common_variant_key
        }),
    decreases keys.len(),
{
    if keys.len() > 0 {
        lemma_size_props_leave_variants(d, defs, size, o, keys.drop_last());
    }
}

proof fn lemma_variants_leave_sizes(d: ThemeData, defs: Seq<PropModel>, o: ObjectModel, keys: Seq<Seq<char>>)
    ensures
        ({
            let e = component_json::variants_read(d, defs, o, keys);
            e.size_props == d.size_props && e.size_overrides == d.size_overrides
        }),
    decreases keys.len(),
{
    if keys.len() > 0 {
        lemma_variants_leave_sizes(d, defs, o, keys.drop_last());
        let before = component_json::variants_read(d, defs, o, keys.drop_last());
        if let Some(states) = json::object_of(Some(o[keys.last()])) {
            lemma_states_leave_sizes(before, defs, keys.last(), states, textmap::sorted_keys(states));
        }
    }
}

proof fn lemma_states_leave_sizes(
    d: ThemeData,
    defs: Seq<PropModel>,
    variant: Seq<char>,
    o: ObjectModel,
    keys: Seq<Seq<char>>,
)
    ensures
        ({
            let e = component_json::states_read(d, defs, variant, o, keys);
            e.size_props == d.size_props && e.size_overrides == d.size_overrides
        }),
    decreases keys.len(),
{
    if keys.len() > 0 {
        lemma_states_leave_sizes(d, defs, variant, o, keys.drop_last());
        let before = component_json::states_read(d, defs, variant, o, keys.drop_last());
        if let Some(props) = json::object_of(Some(o[keys.last()])) {
            lemma_props_leave_sizes(before, defs, variant, keys.last(), props, textmap::sorted_keys(props));
        }
    }
}

proof fn lemma_props_leave_sizes(
    d: ThemeData,
    defs: Seq<PropModel>,
    variant: Seq<char>,
    state: Seq<char>,
    o: ObjectModel,
    keys: Seq<Seq<char>>,
)
    ensures
        ({
            let e = component_json::props_read(d, defs, variant, state, o, keys);
            e.size_props == d.size_props && e.size_overrides == d.size_overrides
        }),
    decreases keys.len(),
{
    if keys.len() > 0 {
        lemma_props_leave_sizes(d, defs, variant, state, o, keys.drop_last());
    }
}

/// The properties that a file gives for a state of a variant.
pub open spec fn given_variant(j: JsonModel, variant: Seq<char>, state: Seq<char>) -> Option<ObjectModel> {
    match json::object_of(json::at(j, "variantProps"@)) {
        Some(o) => match json::object_of(json::at(JsonModel::Object(o), variant)) {
            Some(states) => json::object_of(json::at(JsonModel::Object(states), state)),
            None => None,
        },
        None => None,
    }
}

/// Whether the objects of a file that hold a state of a variant have finitely many keys.
pub open spec fn variant_keys_finite(j: JsonModel, variant: Seq<char>, state: Seq<char>) -> bool {
    match json::object_of(json::at(j, "variantProps"@)) {
        Some(o) => o.dom().finite() && (match json::object_of(json::at(JsonModel::Object(o), variant)) {
            Some(states) => states.dom().finite() && (match json::object_of(
                json::at(JsonModel::Object(states), state),
            ) {
                Some(props) => props.dom().finite(),
                None => true,
            }),
            None => true,
        }),
        None => true,
    }
}

/// What a file gives for a state of a variant is what the component has after the file has been read,
/// where it is marked or nothing is inherited; elsewhere the component has what it inherits, which
/// was equal to what the file gives when that was read.
pub proof fn given_variant_is_read(
    d: ThemeData,
    plugin: PluginModel,
    j: JsonModel,
    variant: Seq<char>,
    state: Seq<char>,
    prop: Seq<char>,
    v: Value,
)
    requires
        has_state(d, variant, state),
        variant_keys_finite(j, variant, state),
        given_variant(j, variant, state) matches Some(props) && props.dom().contains(prop)
            && component_json::declared_value(plugin.variant_props, prop, props[prop]) == Some(v),
    ensures
        settled_at(component_json::component_read(d, plugin, j), variant, state, prop, v),
{
    let o = json::object_of(json::at(j, "variantProps"@))->Some_0;
    let states = json::object_of(json::at(JsonModel::Object(o), variant))->Some_0;
    let props = given_variant(j, variant, state)->Some_0;
    textmap::sorted_lists(o.dom());
    let keys = textmap::sorted_keys(o);
    assert(keys.contains(variant));
    let i = choose|i: int| 0 <= i < keys.len() && keys[i] == variant;
    lemma_variants_give(d, plugin.variant_props, o, keys, i, states, state, props, prop, v);
    let e = component_json::variants_read(d, plugin.variant_props, o, keys);
    if let Some(sizes) = json::object_of(json::at(j, "sizeProps"@)) {
        lemma_sizes_leave_variants(e, plugin.size_props, sizes, textmap::sorted_keys(sizes));
    }
}

/// The properties that a file gives for a size, by its key in the file.
pub open spec fn given_size(j: JsonModel, size_key: Seq<char>) -> Option<ObjectModel> {
    match json::object_of(json::at(j, "sizeProps"@)) {
        Some(o) => json::object_of(json::at(JsonModel::Object(o), size_key)),
        None => None,
    }
}

/// Whether the objects of a file that hold a size have finitely many keys, and no other key stands
/// for the same size.
pub open spec fn size_given_once(j: JsonModel, size_key: Seq<char>) -> bool {
    match json::object_of(json::at(j, "sizeProps"@)) {
        Some(o) => {
            &&& o.dom().finite()
            &&& forall|k: Seq<char>|
                #[trigger] o.dom().contains(k) && k != size_key ==> storage::size_key_in_memory(k)
                    != storage::size_key_in_memory(size_key)
            &&& match json::object_of(json::at(JsonModel::Object(o), size_key)) {
                Some(props) => props.dom().finite(),
                None => true,
            }
        },
        None => true,
    }
}

/// What a file gives for a size is what the component has after the file has been read, marked as an
/// override.
pub proof fn given_size_is_read(
    d: ThemeData,
    plugin: PluginModel,
    j: JsonModel,
    size_key: Seq<char>,
    prop: Seq<char>,
    v: Value,
)
    requires
        has_size(d, storage::size_key_in_memory(size_key)),
        size_given_once(j, size_key),
        given_size(j, size_key) matches Some(props) && props.dom().contains(prop)
            && component_json::declared_value(plugin.size_props, prop, props[prop]) == Some(v),
    ensures
        size_settled_at(
            component_json::component_read(d, plugin, j),
            storage::size_key_in_memory(size_key),
            prop,
            v,
        ),
{
    let o = json::object_of(json::at(j, "sizeProps"@))->Some_0;
    let props = given_size(j, size_key)->Some_0;
    textmap::sorted_lists(o.dom());
    let keys = textmap::sorted_keys(o);
    assert(keys.contains(size_key));
    let i = choose|i: int| 0 <= i < keys.len() && keys[i] == size_key;
    let e = match json::object_of(json::at(j, "variantProps"@)) {
        Some(variants) => {
            lemma_variants_leave_sizes(d, plugin.variant_props, variants, textmap::sorted_keys(variants));
            component_json::variants_read(d, plugin.variant_props, variants, textmap::sorted_keys(variants))
        },
        None => d,
    };
    assert forall|k: int| 0 <= k < keys.len() && k != i implies storage::size_key_in_memory(#[trigger] keys[k])
        != storage::size_key_in_memory(keys[i]) by {
        assert(keys.contains(keys[k]));
        assert(o.dom().contains(keys[k]));
        if keys[k] == size_key {
            if k < i {
                assert(text::text_lt(keys[k], keys[i]));
            } else {
                assert(text::text_lt(keys[i], keys[k]));
            }
            text::text_lt_irreflexive(size_key);
        }
    }
    lemma_sizes_give(e, plugin.size_props, o, keys, i, props, prop, v);
}

/// Whether the maps that hold the variants of a component have finitely many keys.
pub open spec fn variants_finite(d: ThemeData) -> bool {
    &&& d.variant_props.dom().finite()
    &&& forall|v: Seq<char>| #[trigger] d.variant_props.dom().contains(v) ==> d.variant_props[v].dom().finite()
    &&& forall|v: Seq<char>, s: Seq<char>|
        d.variant_props.dom().contains(v) && #[trigger] d.variant_props[v].dom().contains(s)
            ==> d.variant_props[v][s].dom().finite()
}

proof fn lemma_chosen_finite<T>(m: Map<Seq<char>, T>, g: spec_fn(Seq<char>, T) -> Option<JsonModel>)
    requires
        m.dom().finite(),
    ensures
        json::chosen(m, g).dom().finite(),
{
    assert(json::chosen(m, g).dom().subset_of(m.dom()));
    vstd::set_lib::lemma_len_subset(json::chosen(m, g).dom(), m.dom());
}

proof fn lemma_written_variant_is_given(
    d: ThemeData,
    parent: Option<ThemeData>,
    component_parent: Option<ThemeData>,
    plugin: PluginModel,
    variant: Seq<char>,
    state: Seq<char>,
    prop: Seq<char>,
    v: Value,
)
    requires
        variants_finite(d),
        storage::variant_value(d.variant_props, variant, state, prop) == Some(v),
        component_json::writes_variant(d, parent, component_parent, variant, state, prop, v),
        storage::last_prop(plugin.variant_props, prop) matches Some(def) && component_json::fits(v, def.prop_type),
    ensures
        ({
            let j = JsonModel::Object(component_json::component_patch(d, parent, component_parent));
            &&& json::at(j, "variantProps"@) is Some
            &&& variant_keys_finite(j, variant, state)
            &&& given_variant(j, variant, state) matches Some(props) && props.dom().contains(prop)
                && component_json::declared_value(plugin.variant_props, prop, props[prop]) == Some(v)
        }),
{
    let j = JsonModel::Object(component_json::component_patch(d, parent, component_parent));
    component_json::part_names_differ();
    let of_prop = |p: Seq<char>, w: Value|
        if component_json::writes_variant(d, parent, component_parent, variant, state, p, w) {
            Some(component_json::value_json(w))
        } else {
            None
        };
    let props = component_json::props_patch(
        d,
        parent,
        component_parent,
        variant,
        state,
        d.variant_props[variant][state],
    );
    assert(props == json::chosen(d.variant_props[variant][state], of_prop));
    json::chosen_key(d.variant_props[variant][state], of_prop, prop);
    assert(props.dom().contains(prop));
    lemma_chosen_finite(d.variant_props[variant][state], of_prop);
    let of_state = |s: Seq<char>, ps: Map<Seq<char>, Value>|
        json::filled(component_json::props_patch(d, parent, component_parent, variant, s, ps));
    let states = component_json::states_patch(d, parent, component_parent, variant, d.variant_props[variant]);
    assert(states == json::chosen(d.variant_props[variant], of_state));
    json::chosen_key(d.variant_props[variant], of_state, state);
    lemma_chosen_finite(d.variant_props[variant], of_state);
    assert(states[state] == JsonModel::Object(props));
    let of_variant = |x: Seq<char>, ss: Map<Seq<char>, Map<Seq<char>, Value>>|
        json::filled(component_json::states_patch(d, parent, component_parent, x, ss));
    let o = component_json::variants_patch(d, parent, component_parent);
    assert(o == json::chosen(d.variant_props, of_variant));
    json::chosen_key(d.variant_props, of_variant, variant);
    lemma_chosen_finite(d.variant_props, of_variant);
    assert(o[variant] == JsonModel::Object(states));
    assert(json::at(j, "variantProps"@) == Some(JsonModel::Object(o)));
    let def = storage::last_prop(plugin.variant_props, prop)->Some_0;
    component_json::written_value_is_read(v, def.prop_type);
}

/// A variant's value that is written against the parents is read back: where it is marked then, or
/// nothing is inherited, as it was; elsewhere the component has what it inherits.
pub proof fn written_variant_is_read(
    d: ThemeData,
    parent: Option<ThemeData>,
    component_parent: Option<ThemeData>,
    start: ThemeData,
    plugin: PluginModel,
    variant: Seq<char>,
    state: Seq<char>,
    prop: Seq<char>,
    v: Value,
)
    requires
        variants_finite(d),
        storage::variant_value(d.variant_props, variant, state, prop) == Some(v),
        component_json::writes_variant(d, parent, component_parent, variant, state, prop, v),
        storage::last_prop(plugin.variant_props, prop) matches Some(def) && component_json::fits(v, def.prop_type),
        has_state(start, variant, state),
    ensures
        settled_at(
            component_json::component_read(
                start,
                plugin,
                JsonModel::Object(component_json::component_patch(d, parent, component_parent)),
            ),
            variant,
            state,
            prop,
            v,
        ),
{
    let j = JsonModel::Object(component_json::component_patch(d, parent, component_parent));
    lemma_written_variant_is_given(d, parent, component_parent, plugin, variant, state, prop, v);
    given_variant_is_read(start, plugin, j, variant, state, prop, v);
}

proof fn lemma_sizes_in_file(keys: Seq<Seq<char>>, f: spec_fn(Seq<char>) -> Option<JsonModel>)
    requires
        textmap::ascending(keys),
        !keys.contains(storage::COMMON_SIZE_KEY@),
    ensures
        ({
            let o = component_json::sizes_in_file(keys, f);
            &&& o.dom().finite()
            &&& forall|k: Seq<char>| #[trigger] o.dom().contains(k) ==> exists|i: int|
                0 <= i < keys.len() && k == storage::size_key_in_file(#[trigger] keys[i])
            &&& forall|i: int|
                0 <= i < keys.len() && f(#[trigger] keys[i]) is Some ==> o.dom().contains(
                    storage::size_key_in_file(keys[i]),
                ) && o[storage::size_key_in_file(keys[i])] == f(keys[i])->Some_0
        }),
    decreases keys.len(),
{
    if keys.len() > 0 {
        let front = keys.drop_last();
        let n = keys.len() - 1;
        let o = component_json::sizes_in_file(keys, f);
        let before = component_json::sizes_in_file(front, f);
        lemma_ascending_once(keys, n);
        assert(!front.contains(storage::COMMON_SIZE_KEY@)) by {
            if front.contains(storage::COMMON_SIZE_KEY@) {
                let i = choose|i: int| 0 <= i < front.len() && front[i] == storage::COMMON_SIZE_KEY@;
                assert(keys[i] == storage::COMMON_SIZE_KEY@);
            }
        }
        lemma_sizes_in_file(front, f);
        assert forall|k: Seq<char>| #[trigger] o.dom().contains(k) implies exists|i: int|
            0 <= i < keys.len() && k == storage::size_key_in_file(#[trigger] keys[i]) by {
            if before.dom().contains(k) {
                let i = choose|i: int| 0 <= i < front.len() && k == storage::size_key_in_file(#[trigger] front[i]);
                assert(keys[i] == front[i]);
            } else {
                assert(k == storage::size_key_in_file(keys[n]));
            }
        }
        assert forall|i: int| 0 <= i < keys.len() && f(#[trigger] keys[i]) is Some implies o.dom().contains(
            storage::size_key_in_file(keys[i]),
        ) && o[storage::size_key_in_file(keys[i])] == f(keys[i])->Some_0 by {
            if i < n {
                assert(front[i] == keys[i]);
                lemma_ascending_once(keys, i);
                assert(keys.contains(keys[i]));
                assert(keys.contains(keys[n]));
                assert(storage::size_key_in_file(keys[i]) != storage::size_key_in_file(keys[n]));
            }
        }
    }
}

/// Whether the maps that hold the sizes of a component have finitely many keys, and the Common size
/// is not among them by its name in files.
pub open spec fn sizes_finite(d: ThemeData) -> bool {
    &&& d.size_props.dom().finite()
    &&& !d.size_props.dom().contains(storage::COMMON_SIZE_KEY@)
    &&& forall|s: Seq<char>| #[trigger] d.size_props.dom().contains(s) ==> d.size_props[s].dom().finite()
}

proof fn lemma_written_size_is_given(
    d: ThemeData,
    parent: Option<ThemeData>,
    component_parent: Option<ThemeData>,
    plugin: PluginModel,
    size: Seq<char>,
    prop: Seq<char>,
    v: Value,
)
    requires
        sizes_finite(d),
        textmap::at2(d.size_props, size, prop) == Some(v),
        component_json::writes_size(d, parent, component_parent, size, prop, v),
        storage::last_prop(plugin.size_props, prop) matches Some(def) && component_json::fits(v, def.prop_type),
    ensures
        ({
            let j = JsonModel::Object(component_json::component_patch(d, parent, component_parent));
            let key = storage::size_key_in_file(size);
            &&& json::at(j, "sizeProps"@) is Some
            &&& storage::size_key_in_memory(key) == size
            &&& size_given_once(j, key)
            &&& given_size(j, key) matches Some(props) && props.dom().contains(prop)
                && component_json::declared_value(plugin.size_props, prop, props[prop]) == Some(v)
        }),
{
    let j = JsonModel::Object(component_json::component_patch(d, parent, component_parent));
    component_json::part_names_differ();
    storage::size_key_round_trip(size);
    let of_prop = |p: Seq<char>, w: Value|
        if component_json::writes_size(d, parent, component_parent, size, p, w) {
            Some(component_json::value_json(w))
        } else {
            None
        };
    let props = component_json::size_patch(d, parent, component_parent, size);
    assert(props == json::chosen(d.size_props[size], of_prop));
    json::chosen_key(d.size_props[size], of_prop, prop);
    lemma_chosen_finite(d.size_props[size], of_prop);
    let of_size = |s: Seq<char>| json::filled(component_json::size_patch(d, parent, component_parent, s));
    let keys = textmap::sorted_keys(d.size_props);
    textmap::sorted_lists(d.size_props.dom());
    assert(!keys.contains(storage::COMMON_SIZE_KEY@)) by {
        assert(!d.size_props.dom().contains(storage::COMMON_SIZE_KEY@));
    }
    assert(keys.contains(size));
    let i = choose|i: int| 0 <= i < keys.len() && keys[i] == size;
    let o = component_json::sizes_patch(d, parent, component_parent);
    assert(o == component_json::sizes_in_file(keys, of_size));
    lemma_sizes_in_file(keys, of_size);
    assert(of_size(keys[i]) == Some(JsonModel::Object(props)));
    let key = storage::size_key_in_file(size);
    assert(o.dom().contains(key) && o[key] == JsonModel::Object(props));
    assert(json::at(j, "sizeProps"@) == Some(JsonModel::Object(o)));
    assert(storage::size_key_in_memory(key) == size);
    assert(size_given_once(j, key)) by {
        assert forall|k: Seq<char>| #[trigger] o.dom().contains(k) && k != key implies storage::size_key_in_memory(k)
            != storage::size_key_in_memory(key) by {
            let n = choose|n: int| 0 <= n < keys.len() && k == storage::size_key_in_file(#[trigger] keys[n]);
            assert(keys.contains(keys[n]));
            storage::size_key_round_trip(keys[n]);
        }
    }
    let def = storage::last_prop(plugin.size_props, prop)->Some_0;
    component_json::written_value_is_read(v, def.prop_type);
}

/// A size's value that is written against the parents is read back: where it is marked then, and for
/// the Common size, as it was; elsewhere the component has that or the Common value.
pub proof fn written_size_is_read(
    d: ThemeData,
    parent: Option<ThemeData>,
    component_parent: Option<ThemeData>,
    start: ThemeData,
    plugin: PluginModel,
    size: Seq<char>,
    prop: Seq<char>,
    v: Value,
)
    requires
        sizes_finite(d),
        textmap::at2(d.size_props, size, prop) == Some(v),
        component_json::writes_size(d, parent, component_parent, size, prop, v),
        storage::last_prop(plugin.size_props, prop) matches Some(def) && component_json::fits(v, def.prop_type),
        has_size(start, size),
    ensures
        size_settled_at(
            component_json::component_read(
                start,
                plugin,
                JsonModel::Object(component_json::component_patch(d, parent, component_parent)),
            ),
            size,
            prop,
            v,
        ),
{
    let j = JsonModel::Object(component_json::component_patch(d, parent, component_parent));
    lemma_written_size_is_given(d, parent, component_parent, plugin, size, prop, v);
    given_size_is_read(start, plugin, j, storage::size_key_in_file(size), prop, v);
}

proof fn lemma_other_components(
    themes: reconcile::Themes,
    loaded: record_json::Loaded,
    o: ObjectModel,
    keys: Seq<Seq<char>>,
    key: Seq<char>,
)
    requires
        themes.dom().contains(key),
        !keys.contains(key),
    ensures
        ({
            let after = record_json::components_read(themes, loaded, o, keys);
            after.dom().contains(key) && after[key] == themes[key]
        }),
    decreases keys.len(),
{
    if keys.len() > 0 {
        let front = keys.drop_last();
        if front.contains(key) {
            let i = choose|i: int| 0 <= i < front.len() && front[i] == key;
            assert(keys[i] == key);
        }
        assert(keys[keys.len() - 1] == keys.last());
        lemma_other_components(themes, loaded, o, front, key);
    }
}

proof fn lemma_own_component(
    themes: reconcile::Themes,
    loaded: record_json::Loaded,
    o: ObjectModel,
    keys: Seq<Seq<char>>,
    i: int,
)
    requires
        textmap::ascending(keys),
        0 <= i < keys.len(),
        themes.dom().contains(keys[i]),
        record_json::first_plugin(loaded, keys[i]) is Some,
    ensures
        ({
            let after = record_json::components_read(themes, loaded, o, keys);
            after.dom().contains(keys[i]) && after[keys[i]] == component_json::component_read(
                themes[keys[i]],
                record_json::first_plugin(loaded, keys[i])->Some_0,
                o[keys[i]],
            )
        }),
    decreases keys.len(),
{
    let front = keys.drop_last();
    lemma_ascending_once(keys, i);
    if i == keys.len() - 1 {
        assert(keys.take(i) =~= front);
        lemma_other_components(themes, loaded, o, front, keys[i]);
    } else {
        lemma_own_component(themes, loaded, o, front, i);
    }
}

proof fn lemma_file_component(
    j: JsonModel,
    o: ObjectModel,
    loaded: record_json::Loaded,
    start: records::RecordModel,
    key: Seq<char>,
)
    requires
        json::at(j, "components"@) == Some(JsonModel::Object(o)),
        o.dom().finite(),
        o.dom().contains(key),
        record_json::first_plugin(loaded, key) is Some,
        start.component_themes.dom().contains(key),
    ensures
        ({
            let read = record_json::file_components(j, start, loaded);
            read.dom().contains(key) && read[key] == component_json::component_read(
                start.component_themes[key].unmarked(),
                record_json::first_plugin(loaded, key)->Some_0,
                o[key],
            )
        }),
{
    let themes = records::unowned(start.component_themes);
    textmap::sorted_lists(o.dom());
    let keys = textmap::sorted_keys(o);
    assert(keys.contains(key));
    let i = choose|i: int| 0 <= i < keys.len() && keys[i] == key;
    lemma_own_component(themes, loaded, o, keys, i);
}

/// In a theme that is read from a file, a component that extends no other has what the file gives for
/// it, on top of what the theme starts from.
pub proof fn file_component_is_read(
    j: JsonModel,
    o: ObjectModel,
    loaded: record_json::Loaded,
    existing: Seq<records::RecordModel>,
    base: token_theme::TokenModel,
    key: Seq<char>,
    plugin: PluginModel,
)
    requires
        json::at(j, "components"@) == Some(JsonModel::Object(o)),
        o.dom().finite(),
        o.dom().contains(key),
        record_json::first_plugin(loaded, key) == Some(plugin),
        record_json::file_start(j, loaded, existing, base).component_themes.dom().contains(key),
        record_json::file_start(j, loaded, existing, base).component_themes[key].parent_key is None,
    ensures
        ({
            let start = record_json::file_start(j, loaded, existing, base).component_themes[key].unmarked();
            let after = record_json::file_record(j, loaded, existing, base).component_themes;
            after.dom().contains(key) && after[key] == component_json::component_read(start, plugin, o[key])
        }),
{
    let start = record_json::file_start(j, loaded, existing, base);
    lemma_file_component(j, o, loaded, start, key);
    lemma_read_keeps_parent(start.component_themes[key].unmarked(), plugin, o[key]);
    reconcile::parentless_stays(
        record_json::file_components(j, start, loaded),
        reconcile::plugins_by_key(loaded),
        key,
    );
}

/// In a theme that is read from a file, a component has what the file gives for a size, also where it
/// extends another: that very value where it is marked and for the Common size, and elsewhere that
/// value or the Common one.
pub proof fn file_size_is_read(
    j: JsonModel,
    o: ObjectModel,
    loaded: record_json::Loaded,
    existing: Seq<records::RecordModel>,
    base: token_theme::TokenModel,
    key: Seq<char>,
    plugin: PluginModel,
    size_key: Seq<char>,
    prop: Seq<char>,
    v: Value,
)
    requires
        json::at(j, "components"@) == Some(JsonModel::Object(o)),
        o.dom().finite(),
        o.dom().contains(key),
        record_json::first_plugin(loaded, key) == Some(plugin),
        record_json::file_start(j, loaded, existing, base).component_themes.dom().contains(key),
        has_size(
            record_json::file_start(j, loaded, existing, base).component_themes[key],
            storage::size_key_in_memory(size_key),
        ),
        size_given_once(o[key], size_key),
        given_size(o[key], size_key) matches Some(props) && props.dom().contains(prop)
            && component_json::declared_value(plugin.size_props, prop, props[prop]) == Some(v),
    ensures
        ({
            let after = record_json::file_record(j, loaded, existing, base).component_themes;
            after.dom().contains(key) && size_settled_at(
                after[key],
                storage::size_key_in_memory(size_key),
                prop,
                v,
            )
        }),
{
    let start = record_json::file_start(j, loaded, existing, base);
    let d = start.component_themes[key].unmarked();
    let size = storage::size_key_in_memory(size_key);
    let plugins = reconcile::plugins_by_key(loaded);
    let themes = record_json::file_components(j, start, loaded);
    lemma_file_component(j, o, loaded, start, key);
    let read = themes[key];
    given_size_is_read(d, plugin, o[key], size_key, prop, v);
    lemma_read_has_size(d, plugin, o[key], size);
    lemma_read_keeps_parent(d, plugin, o[key]);
    reconcile::own_size_stays(themes, plugins, key, size, prop);
    if size == DEFAULT_SIZE_KEY@ {
        if d.parent_key is None {
            reconcile::parentless_stays(themes, plugins, key);
        } else {
            lemma_given_base_is_marked(d, plugin, o[key], size_key, prop);
        }
    }
}

/// In a theme that is read from a file, a component has what it has had from the file for a state of
/// a variant, also where it extends another; but a marked value that matches what it falls back to
/// becomes that.
pub proof fn file_variant_is_read(
    j: JsonModel,
    o: ObjectModel,
    loaded: record_json::Loaded,
    existing: Seq<records::RecordModel>,
    base: token_theme::TokenModel,
    key: Seq<char>,
    plugin: PluginModel,
    variant: Seq<char>,
    state: Seq<char>,
    prop: Seq<char>,
    v: Value,
)
    requires
        json::at(j, "components"@) == Some(JsonModel::Object(o)),
        o.dom().finite(),
        o.dom().contains(key),
        record_json::first_plugin(loaded, key) == Some(plugin),
        record_json::file_start(j, loaded, existing, base).component_themes.dom().contains(key),
        has_state(record_json::file_start(j, loaded, existing, base).component_themes[key], variant, state),
        variant_keys_finite(o[key], variant, state),
        given_variant(o[key], variant, state) matches Some(props) && props.dom().contains(prop)
            && component_json::declared_value(plugin.variant_props, prop, props[prop]) == Some(v),
    ensures
        ({
            let start = record_json::file_start(j, loaded, existing, base).component_themes[key].unmarked();
            let read = component_json::component_read(start, plugin, o[key]);
            let after = record_json::file_record(j, loaded, existing, base).component_themes;
            let was = storage::variant_value(read.variant_props, variant, state, prop);
            let is = storage::variant_value(after[key].variant_props, variant, state, prop);
            &&& settled_at(read, variant, state, prop, v)
            &&& after.dom().contains(key)
            &&& is == was || (is is Some && was == Some(v) && fallback::values_match(v, is->Some_0))
        }),
{
    let start = record_json::file_start(j, loaded, existing, base);
    let d = start.component_themes[key].unmarked();
    lemma_file_component(j, o, loaded, start, key);
    given_variant_is_read(d, plugin, o[key], variant, state, prop, v);
    reconcile::own_variant_stays(
        record_json::file_components(j, start, loaded),
        reconcile::plugins_by_key(loaded),
        key,
        variant,
        state,
        prop,
    );
}

/// What is written of a theme: the file gives what is written of a component.
proof fn lemma_component_is_written(
    record: records::RecordModel,
    parent: Option<records::RecordModel>,
    plugins: reconcile::Plugins,
    key: Seq<char>,
)
    requires
        record.component_themes.dom().finite(),
        record.component_themes.dom().contains(key),
        written_component(record, parent, plugins, key).dom() != Set::<Seq<char>>::empty(),
    ensures
        ({
            let j = JsonModel::Object(record_json::record_json(record, parent, plugins));
            let o = json::object_of(json::at(j, "components"@));
            &&& json::at(j, "components"@) is Some
            &&& o matches Some(m) && json::at(j, "components"@) == Some(JsonModel::Object(m)) && m.dom().finite()
                && m.dom().contains(key) && m[key] == JsonModel::Object(
                written_component(record, parent, plugins, key),
            )
        }),
{
    record_json::record_keys_differ();
    let themes = record.component_themes;
    let over = match parent {
        Some(p) => Some(p.component_themes),
        None => None,
    };
    let f = |k: Seq<char>, d: ThemeData|
        json::filled(
            component_json::component_patch(
                d,
                component_json::parent_component(over, k),
                fallback::parent_data(plugins, themes, d),
            ),
        );
    let o = component_json::components_patch(plugins, themes, over);
    assert(o == json::chosen(themes, f));
    json::chosen_key(themes, f, key);
    lemma_chosen_finite(themes, f);
    assert(o.dom().contains(key));
    assert(json::filled(o) == Some(JsonModel::Object(o)));
}

/// What is written of a component of a theme.
pub open spec fn written_component(
    record: records::RecordModel,
    parent: Option<records::RecordModel>,
    plugins: reconcile::Plugins,
    key: Seq<char>,
) -> ObjectModel {
    let d = record.component_themes[key];
    component_json::component_patch(
        d,
        written_over(parent, key),
        fallback::parent_data(plugins, record.component_themes, d),
    )
}

/// The component of the parent theme that a component is written against.
pub open spec fn written_over(parent: Option<records::RecordModel>, key: Seq<char>) -> Option<ThemeData> {
    match parent {
        Some(p) => schema::entry(p.component_themes, key),
        None => None,
    }
}

/// A size's value that is written of a theme is there again when the theme is read: that very value
/// where it is marked and for the Common size, and elsewhere that value or the Common one.
pub proof fn written_theme_size_is_read(
    record: records::RecordModel,
    parent: Option<records::RecordModel>,
    plugins: reconcile::Plugins,
    loaded: record_json::Loaded,
    existing: Seq<records::RecordModel>,
    base: token_theme::TokenModel,
    key: Seq<char>,
    plugin: PluginModel,
    size: Seq<char>,
    prop: Seq<char>,
    v: Value,
)
    requires
        record.component_themes.dom().finite(),
        record.component_themes.dom().contains(key),
        sizes_finite(record.component_themes[key]),
        textmap::at2(record.component_themes[key].size_props, size, prop) == Some(v),
        component_json::writes_size(
            record.component_themes[key],
            written_over(parent, key),
            fallback::parent_data(plugins, record.component_themes, record.component_themes[key]),
            size,
            prop,
            v,
        ),
        record_json::first_plugin(loaded, key) == Some(plugin),
        storage::last_prop(plugin.size_props, prop) matches Some(def) && component_json::fits(v, def.prop_type),
        ({
            let j = JsonModel::Object(record_json::record_json(record, parent, plugins));
            let start = record_json::file_start(j, loaded, existing, base).component_themes;
            start.dom().contains(key) && has_size(start[key], size)
        }),
    ensures
        ({
            let j = JsonModel::Object(record_json::record_json(record, parent, plugins));
            let after = record_json::file_record(j, loaded, existing, base).component_themes;
            after.dom().contains(key) && size_settled_at(after[key], size, prop, v)
        }),
{
    let d = record.component_themes[key];
    let component_parent = fallback::parent_data(plugins, record.component_themes, d);
    lemma_written_size_is_given(d, written_over(parent, key), component_parent, plugin, size, prop, v);
    assert(written_component(record, parent, plugins, key).dom().contains("sizeProps"@));
    lemma_component_is_written(record, parent, plugins, key);
    let j = JsonModel::Object(record_json::record_json(record, parent, plugins));
    let o = json::object_of(json::at(j, "components"@))->Some_0;
    file_size_is_read(
        j,
        o,
        loaded,
        existing,
        base,
        key,
        plugin,
        storage::size_key_in_file(size),
        prop,
        v,
    );
}

/// A variant's value that is written of a theme is there again when the theme is read: where it is
/// marked then, or nothing is inherited, that very value, or what it falls back to where that matches
/// it; elsewhere what is inherited.
pub proof fn written_theme_variant_is_read(
    record: records::RecordModel,
    parent: Option<records::RecordModel>,
    plugins: reconcile::Plugins,
    loaded: record_json::Loaded,
    existing: Seq<records::RecordModel>,
    base: token_theme::TokenModel,
    key: Seq<char>,
    plugin: PluginModel,
    variant: Seq<char>,
    state: Seq<char>,
    prop: Seq<char>,
    v: Value,
)
    requires
        record.component_themes.dom().finite(),
        record.component_themes.dom().contains(key),
        variants_finite(record.component_themes[key]),
        storage::variant_value(record.component_themes[key].variant_props, variant, state, prop) == Some(v),
        component_json::writes_variant(
            record.component_themes[key],
            written_over(parent, key),
            fallback::parent_data(plugins, record.component_themes, record.component_themes[key]),
            variant,
            state,
            prop,
            v,
        ),
        record_json::first_plugin(loaded, key) == Some(plugin),
        storage::last_prop(plugin.variant_props, prop) matches Some(def) && component_json::fits(v, def.prop_type),
        ({
            let j = JsonModel::Object(record_json::record_json(record, parent, plugins));
            let start = record_json::file_start(j, loaded, existing, base).component_themes;
            start.dom().contains(key) && has_state(start[key], variant, state)
        }),
    ensures
        ({
            let j = JsonModel::Object(record_json::record_json(record, parent, plugins));
            let start = record_json::file_start(j, loaded, existing, base).component_themes[key].unmarked();
            let read = component_json::component_read(
                start,
                plugin,
                JsonModel::Object(written_component(record, parent, plugins, key)),
            );
            let after = record_json::file_record(j, loaded, existing, base).component_themes;
            let was = storage::variant_value(read.variant_props, variant, state, prop);
            let is = storage::variant_value(after[key].variant_props, variant, state, prop);
            &&& settled_at(read, variant, state, prop, v)
            &&& after.dom().contains(key)
            &&& is == was || (is is Some && was == Some(v) && fallback::values_match(v, is->Some_0))
        }),
{
    let d = record.component_themes[key];
    let component_parent = fallback::parent_data(plugins, record.component_themes, d);
    lemma_written_variant_is_given(
        d,
        written_over(parent, key),
        component_parent,
        plugin,
        variant,
        state,
        prop,
        v,
    );
    assert(written_component(record, parent, plugins, key).dom().contains("variantProps"@));
    lemma_component_is_written(record, parent, plugins, key);
    let j = JsonModel::Object(record_json::record_json(record, parent, plugins));
    let o = json::object_of(json::at(j, "components"@))->Some_0;
    file_variant_is_read(j, o, loaded, existing, base, key, plugin, variant, state, prop, v);
}

proof fn lemma_read_has_size(d: ThemeData, plugin: PluginModel, j: JsonModel, size: Seq<char>)
    requires
        has_size(d, size),
    ensures
        has_size(component_json::component_read(d, plugin, j), size),
{
    let e = match json::object_of(json::at(j, "variantProps"@)) {
        Some(o) => {
            lemma_variants_leave_sizes(d, plugin.variant_props, o, textmap::sorted_keys(o));
            component_json::variants_read(d, plugin.variant_props, o, textmap::sorted_keys(o))
        },
        None => d,
    };
    if let Some(o) = json::object_of(json::at(j, "sizeProps"@)) {
        lemma_sizes_has(e, plugin.size_props, o, textmap::sorted_keys(o), size);
    }
}

proof fn lemma_size_props_mark(
    d: ThemeData,
    defs: Seq<PropModel>,
    size: Seq<char>,
    o: ObjectModel,
    keys: Seq<Seq<char>>,
    prop: Seq<char>,
)
    requires
        d.parent_key is Some,
        d.parent_overrides.contains(prop) || (size == DEFAULT_SIZE_KEY@ && keys.contains(prop)
            && component_json::declared_value(defs, prop, o[prop]) is Some),
    ensures
        component_json::size_props_read(d, defs, size, o, keys).parent_overrides.contains(prop),
    decreases keys.len(),
{
    lemma_size_props_keep_parent(d, defs, size, o, keys);
    if keys.len() > 0 {
        let front = keys.drop_last();
        lemma_size_props_keep_parent(d, defs, size, o, front);
        if d.parent_overrides.contains(prop) || keys.last() != prop {
            if !d.parent_overrides.contains(prop) {
                let i = choose|i: int| 0 <= i < keys.len() && keys[i] == prop;
                assert(front[i] == prop);
            }
            lemma_size_props_mark(d, defs, size, o, front, prop);
        }
    }
}

proof fn lemma_sizes_mark(
    d: ThemeData,
    defs: Seq<PropModel>,
    o: ObjectModel,
    keys: Seq<Seq<char>>,
    size_key: Seq<char>,
    props: ObjectModel,
    prop: Seq<char>,
)
    requires
        d.parent_key is Some,
        has_size(d, DEFAULT_SIZE_KEY@),
        storage::size_key_in_memory(size_key) == DEFAULT_SIZE_KEY@,
        d.parent_overrides.contains(prop) || (keys.contains(size_key) && o[size_key] == JsonModel::Object(props)
            && props.dom().finite() && props.dom().contains(prop)
            && component_json::declared_value(defs, prop, props[prop]) is Some),
    ensures
        component_json::sizes_read(d, defs, o, keys).parent_overrides.contains(prop),
    decreases keys.len(),
{
    if keys.len() > 0 {
        let front = keys.drop_last();
        let before = component_json::sizes_read(d, defs, o, front);
        lemma_sizes_keep_parent(d, defs, o, front);
        lemma_sizes_has(d, defs, o, front, DEFAULT_SIZE_KEY@);
        let here = !d.parent_overrides.contains(prop) && keys.last() == size_key;
        if here {
            textmap::sorted_lists(props.dom());
            assert(textmap::sorted_keys(props).contains(prop));
        } else {
            if !d.parent_overrides.contains(prop) {
                let i = choose|i: int| 0 <= i < keys.len() && keys[i] == size_key;
                assert(front[i] == size_key);
            }
            lemma_sizes_mark(d, defs, o, front, size_key, props, prop);
        }
        if let Some(others) = json::object_of(Some(o[keys.last()])) {
            lemma_size_props_mark(
                before,
                defs,
                storage::size_key_in_memory(keys.last()),
                others,
                textmap::sorted_keys(others),
                prop,
            );
        }
    }
}

proof fn lemma_given_base_is_marked(
    d: ThemeData,
    plugin: PluginModel,
    j: JsonModel,
    size_key: Seq<char>,
    prop: Seq<char>,
)
    requires
        d.parent_key is Some,
        storage::size_key_in_memory(size_key) == DEFAULT_SIZE_KEY@,
        has_size(d, DEFAULT_SIZE_KEY@),
        size_given_once(j, size_key),
        given_size(j, size_key) matches Some(props) && props.dom().contains(prop)
            && component_json::declared_value(plugin.size_props, prop, props[prop]) is Some,
    ensures
        component_json::component_read(d, plugin, j).parent_overrides.contains(prop),
{
    let o = json::object_of(json::at(j, "sizeProps"@))->Some_0;
    let props = given_size(j, size_key)->Some_0;
    textmap::sorted_lists(o.dom());
    assert(textmap::sorted_keys(o).contains(size_key));
    let e = match json::object_of(json::at(j, "variantProps"@)) {
        Some(variants) => {
            let keys = textmap::sorted_keys(variants);
            lemma_variants_leave_sizes(d, plugin.variant_props, variants, keys);
            lemma_variants_keep_parent(d, plugin.variant_props, variants, keys);
            component_json::variants_read(d, plugin.variant_props, variants, keys)
        },
        None => d,
    };
    lemma_sizes_mark(e, plugin.size_props, o, textmap::sorted_keys(o), size_key, props, prop);
}

proof fn lemma_read_keeps_parent(d: ThemeData, plugin: PluginModel, j: JsonModel)
    ensures
        component_json::component_read(d, plugin, j).parent_key == d.parent_key,
{
    let e = match json::object_of(json::at(j, "variantProps"@)) {
        Some(o) => {
            lemma_variants_keep_parent(d, plugin.variant_props, o, textmap::sorted_keys(o));
            component_json::variants_read(d, plugin.variant_props, o, textmap::sorted_keys(o))
        },
        None => d,
    };
    if let Some(o) = json::object_of(json::at(j, "sizeProps"@)) {
        lemma_sizes_keep_parent(e, plugin.size_props, o, textmap::sorted_keys(o));
    }
}

proof fn lemma_variants_keep_parent(d: ThemeData, defs: Seq<PropModel>, o: ObjectModel, keys: Seq<Seq<char>>)
    ensures
        component_json::variants_read(d, defs, o, keys).parent_key == d.parent_key,
    decreases keys.len(),
{
    if keys.len() > 0 {
        lemma_variants_keep_parent(d, defs, o, keys.drop_last());
        let before = component_json::variants_read(d, defs, o, keys.drop_last());
        if let Some(states) = json::object_of(Some(o[keys.last()])) {
            lemma_states_keep_parent(before, defs, keys.last(), states, textmap::sorted_keys(states));
        }
    }
}

proof fn lemma_states_keep_parent(
    d: ThemeData,
    defs: Seq<PropModel>,
    variant: Seq<char>,
    o: ObjectModel,
    keys: Seq<Seq<char>>,
)
    ensures
        component_json::states_read(d, defs, variant, o, keys).parent_key == d.parent_key,
    decreases keys.len(),
{
    if keys.len() > 0 {
        lemma_states_keep_parent(d, defs, variant, o, keys.drop_last());
        let before = component_json::states_read(d, defs, variant, o, keys.drop_last());
        if let Some(props) = json::object_of(Some(o[keys.last()])) {
            lemma_props_keep_parent(before, defs, variant, keys.last(), props, textmap::sorted_keys(props));
        }
    }
}

proof fn lemma_props_keep_parent(
    d: ThemeData,
    defs: Seq<PropModel>,
    variant: Seq<char>,
    state: Seq<char>,
    o: ObjectModel,
    keys: Seq<Seq<char>>,
)
    ensures
        component_json::props_read(d, defs, variant, state, o, keys).parent_key == d.parent_key,
    decreases keys.len(),
{
    if keys.len() > 0 {
        lemma_props_keep_parent(d, defs, variant, state, o, keys.drop_last());
    }
}

proof fn lemma_sizes_keep_parent(d: ThemeData, defs: Seq<PropModel>, o: ObjectModel, keys: Seq<Seq<char>>)
    ensures
        component_json::sizes_read(d, defs, o, keys).parent_key == d.parent_key,
    decreases keys.len(),
{
    if keys.len() > 0 {
        lemma_sizes_keep_parent(d, defs, o, keys.drop_last());
        let before = component_json::sizes_read(d, defs, o, keys.drop_last());
        if let Some(props) = json::object_of(Some(o[keys.last()])) {
            lemma_size_props_keep_parent(
                before,
                defs,
                storage::size_key_in_memory(keys.last()),
                props,
                textmap::sorted_keys(props),
            );
        }
    }
}

proof fn lemma_size_props_keep_parent(
    d: ThemeData,
    defs: Seq<PropModel>,
    size: Seq<char>,
    o: ObjectModel,
    keys: Seq<Seq<char>>,
)
    ensures
        component_json::size_props_read(d, defs, size, o, keys).parent_key == d.parent_key,
    decreases keys.len(),
{
    if keys.len() > 0 {
        lemma_size_props_keep_parent(d, defs, size, o, keys.drop_last());
    }
}

} // verus!
