//! Which values a theme without a parent still has to define before it can be saved.

use vstd::prelude::*;
use crate::chain;
use crate::fallback::{self, component_key_by_name};
use crate::reconcile::{Plugins, Themes};
use crate::records::{RecordModel, ThemeRecord};
use crate::schema::{PluginDefinition, PropModel};
use crate::storage::{
    self, serialize_size_key, ComponentThemeData, PropertyValue, ThemeData, DEFAULT_SIZE_KEY,
    NORMAL_STATE_KEY,
};
use crate::text::{owned, text_eq};
use crate::textmap::{self, TextMap};
use crate::token_theme::{self, list_token_keys};

verus! {

// ---------------------------------------------------------------------------------------------
// Ancestors
// ---------------------------------------------------------------------------------------------
/// From a component to the one that it extends, where the theme has it.
pub open spec fn to_extended(themes: Themes, plugins: Plugins) -> spec_fn(Seq<char>) -> Option<Seq<char>> {
    |k: Seq<char>|
        match themes[k].parent_key {
            Some(name) => match fallback::key_by_name(plugins, name) {
                Some(q) => if themes.dom().contains(q) {
                    Some(q)
                } else {
                    None
                },
                None => None,
            },
            None => None,
        }
}

/// The component that is reached from another by going to the extended one a number of times.
pub open spec fn ancestor(themes: Themes, plugins: Plugins, key: Seq<char>, n: nat) -> Option<Seq<char>> {
    if themes.dom().contains(key) {
        chain::walk(to_extended(themes, plugins), key, n)
    } else {
        None
    }
}

/// `list` holds a component and its ancestors: to the last one, or to where they come back to the one
/// at `back`.
pub open spec fn lists_ancestors(
    themes: Themes,
    plugins: Plugins,
    key: Seq<char>,
    list: Seq<Seq<char>>,
    back: Option<int>,
) -> bool {
    &&& forall|i: int|
        0 <= i < list.len() ==> ancestor(themes, plugins, key, i as nat) == Some(#[trigger] list[i])
            && themes.dom().contains(list[i])
    &&& match back {
        Some(r) => 0 <= r < list.len() && ancestor(themes, plugins, key, list.len()) == Some(list[r]),
        None => ancestor(themes, plugins, key, list.len()) is None,
    }
}

proof fn lemma_walk_none<T>(next: spec_fn(T) -> Option<T>, p: T, n: nat, m: nat)
    requires
        chain::walk(next, p, n) is None,
        n <= m,
    ensures
        chain::walk(next, p, m) is None,
    decreases m,
{
    if n < m {
        lemma_walk_none(next, p, n, (m - 1) as nat);
    }
}

proof fn lemma_shift<T>(next: spec_fn(T) -> Option<T>, p: T, i: nat, j: nat, k: nat)
    requires
        chain::walk(next, p, i) == chain::walk(next, p, j),
    ensures
        chain::walk(next, p, i + k) == chain::walk(next, p, j + k),
    decreases k,
{
    if k > 0 {
        lemma_shift(next, p, i, j, (k - 1) as nat);
    }
}

/// In a circle every later step leads to one of its elements.
proof fn lemma_late<T>(next: spec_fn(T) -> Option<T>, p: T, r: nat, n: nat, i: nat) -> (m: nat)
    requires
        r < n,
        r <= i,
        chain::walk(next, p, r) == chain::walk(next, p, n),
    ensures
        r <= m < n,
        chain::walk(next, p, m) == chain::walk(next, p, i),
    decreases i,
{
    if i < n {
        i
    } else {
        lemma_shift(next, p, r, n, (i - n) as nat);
        lemma_late(next, p, r, n, (i - n + r) as nat)
    }
}

/// In a circle an element comes again after any number of steps.
proof fn lemma_again<T>(next: spec_fn(T) -> Option<T>, p: T, r: nat, n: nat, i: nat, j: nat) -> (m: nat)
    requires
        r < n,
        r <= i,
        chain::walk(next, p, r) == chain::walk(next, p, n),
    ensures
        j <= m,
        chain::walk(next, p, m) == chain::walk(next, p, i),
    decreases
            if j > i {
                j - i
            } else {
                0
            },
{
    if j <= i {
        i
    } else {
        lemma_shift(next, p, r, n, (i - r) as nat);
        lemma_again(next, p, r, n, (i + (n - r)) as nat, j)
    }
}

fn place_of(list: &Vec<String>, key: &str) -> (r: Option<usize>)
    ensures
        match r {
            Some(i) => i < list@.len() && textmap::views(list@)[i as int] == key@,
            None => !textmap::views(list@).contains(key@),
        },
{
    for i in 0..list.len()
        invariant
            forall|j: int| 0 <= j < i ==> #[trigger] textmap::views(list@)[j] != key@,
    {
        if text_eq(list[i].as_str(), key) {
            return Some(i);
        }
    }
    None
}

proof fn lemma_distinct_keys(list: Seq<Seq<char>>, dom: Set<Seq<char>>)
    requires
        list.no_duplicates(),
        dom.finite(),
        forall|i: int| 0 <= i < list.len() ==> dom.contains(#[trigger] list[i]),
    ensures
        list.len() <= dom.len(),
{
    list.unique_seq_to_set();
    assert(list.to_set().subset_of(dom));
    vstd::set_lib::lemma_len_subset(list.to_set(), dom);
}

/// A component and its ancestors.
fn list_ancestors(
    component_themes: &TextMap<ComponentThemeData>,
    component_plugins: &TextMap<PluginDefinition>,
    component_key: &str,
) -> (r: (Vec<String>, Option<usize>))
    ensures
        lists_ancestors(
            component_themes@,
            component_plugins@,
            component_key@,
            textmap::views(r.0@),
            match r.1 {
                Some(i) => Some(i as int),
                None => None,
            },
        ),
{
    let ghost themes = component_themes@;
    let ghost plugins = component_plugins@;
    let ghost next = to_extended(themes, plugins);
    let mut list: Vec<String> = Vec::new();
    if !component_themes.contains_key(component_key) {
        return (list, None);
    }
    let mut current = owned(component_key);
    proof {
        textmap::keys_finite(*component_themes);
        assert(chain::walk(next, component_key@, 0) == Some(component_key@));
    }
    loop
        invariant
            themes == component_themes@,
            plugins == component_plugins@,
            next == to_extended(themes, plugins),
            themes.dom().finite(),
            themes.dom().contains(component_key@),
            themes.dom().contains(current@),
            textmap::views(list@).no_duplicates(),
            list@.len() <= themes.dom().len(),
            forall|i: int|
                0 <= i < list@.len() ==> chain::walk(next, component_key@, i as nat) == Some(
                    #[trigger] textmap::views(list@)[i],
                ) && themes.dom().contains(textmap::views(list@)[i]),
            chain::walk(next, component_key@, list@.len()) == Some(current@),
        decreases themes.dom().len() - list@.len(),
    {
        if let Some(r) = place_of(&list, current.as_str()) {
            return (list, Some(r));
        }
        let ghost before = textmap::views(list@);
        let ghost n = list@.len();
        list.push(current.clone());
        proof {
            let after = textmap::views(list@);
            assert(after =~= before.push(current@));
            assert forall|i: int, j: int| 0 <= i < after.len() && 0 <= j < after.len() && i != j implies after[i]
                != after[j] by {
                if i == n {
                    assert(before[j] != current@);
                } else if j == n {
                    assert(before[i] != current@);
                } else {
                    assert(before[i] != before[j]);
                }
            }
            assert forall|i: int| 0 <= i < after.len() implies chain::walk(next, component_key@, i as nat)
                == Some(#[trigger] after[i]) && themes.dom().contains(after[i]) by {
                if i < n {
                    assert(after[i] == before[i]);
                }
            }
            lemma_distinct_keys(after, themes.dom());
        }
        let parent: Option<String> = match component_themes.get(current.as_str()) {
            Some(d) => match &d.parent_key {
                Some(name) => match component_key_by_name(component_plugins, name.as_str()) {
                    Some(q) => if component_themes.contains_key(q) {
                        Some(owned(q))
                    } else {
                        None
                    },
                    None => None,
                },
                None => None,
            },
            None => None,
        };
        assert(chain::walk(next, component_key@, (n + 1) as nat) == next(current@));
        match parent {
            Some(q) => {
                current = q;
            },
            None => {
                return (list, None);
            },
        }
    }
}

// ---------------------------------------------------------------------------------------------
// Defined values
// ---------------------------------------------------------------------------------------------
/// Whether a component marks a variant's property in a state.
pub open spec fn marks(themes: Themes, key: Seq<char>, variant: Seq<char>, state: Seq<char>, prop: Seq<char>) -> bool {
    storage::variant_flagged(themes[key].variant_overrides, variant, state, prop)
}

/// Whether the `i`-th ancestor defines a variant's property: in the state, in the normal state, or in
/// the normal state for the Common variant of the `j`-th ancestor.
pub open spec fn defines(
    themes: Themes,
    plugins: Plugins,
    key: Seq<char>,
    variant: Seq<char>,
    state: Seq<char>,
    prop: Seq<char>,
    i: nat,
    j: nat,
) -> bool {
    &&& j <= i
    &&& ancestor(themes, plugins, key, i) is Some
    &&& ancestor(themes, plugins, key, j) is Some
    &&& defines_at(
        themes,
        ancestor(themes, plugins, key, i)->Some_0,
        ancestor(themes, plugins, key, j)->Some_0,
        variant,
        state,
        prop,
    )
}

/// Whether a component defines a variant's property: in the state, in the normal state, or in the
/// normal state for the Common variant of another component.
pub open spec fn defines_at(
    themes: Themes,
    key: Seq<char>,
    other: Seq<char>,
    variant: Seq<char>,
    state: Seq<char>,
    prop: Seq<char>,
) -> bool {
    ||| marks(themes, key, variant, state, prop)
    ||| marks(themes, key, variant, NORMAL_STATE_KEY@, prop)
    ||| (themes[other].common_variant_key matches Some(c) && marks(themes, key, c, NORMAL_STATE_KEY@, prop))
}

/// Whether a variant's property is defined: by the component or an ancestor, for the variant or for
/// the Common variant of a component on the way there.
pub open spec fn variant_defined(
    themes: Themes,
    plugins: Plugins,
    key: Seq<char>,
    variant: Seq<char>,
    state: Seq<char>,
    prop: Seq<char>,
) -> bool {
    exists|i: nat, j: nat| #[trigger] defines(themes, plugins, key, variant, state, prop, i, j)
}

fn is_defined_at(
    data: &ComponentThemeData,
    other: &ComponentThemeData,
    variant: &str,
    state: &str,
    prop_name: &str,
) -> (r: bool)
    ensures
        r == (storage::variant_flagged(data@.variant_overrides, variant@, state@, prop_name@)
            || storage::variant_flagged(
            data@.variant_overrides,
            variant@,
            NORMAL_STATE_KEY@,
            prop_name@,
        ) || (other@.common_variant_key matches Some(c) && storage::variant_flagged(
            data@.variant_overrides,
            c,
            NORMAL_STATE_KEY@,
            prop_name@,
        ))),
{
    data.variant_prop_is_overridden(variant, state, prop_name) || data.variant_prop_is_overridden(
        variant,
        NORMAL_STATE_KEY,
        prop_name,
    ) || (match other.common_variant_key() {
        Some(c) => data.variant_prop_is_overridden(c, NORMAL_STATE_KEY, prop_name),
        None => false,
    })
}

/// Whether a variant's property is defined.
pub fn component_variant_value_is_defined(
    record: &ThemeRecord,
    component_plugins: &TextMap<PluginDefinition>,
    component_key: &str,
    variant: &str,
    state: &str,
    prop_name: &str,
) -> (r: bool)
    ensures
        r == variant_defined(
            record@.component_themes,
            component_plugins@,
            component_key@,
            variant@,
            state@,
            prop_name@,
        ),
{
    let ghost themes = record@.component_themes;
    let ghost plugins = component_plugins@;
    let ghost next = to_extended(themes, plugins);
    let (list, back) = list_ancestors(&record.component_themes, component_plugins, component_key);
    let ghost names = textmap::views(list@);
    let n: usize = list.len();
    for i in 0..n
        invariant
            themes == record@.component_themes,
            plugins == component_plugins@,
            next == to_extended(themes, plugins),
            names == textmap::views(list@),
            n == list@.len(),
            lists_ancestors(
                themes,
                plugins,
                component_key@,
                names,
                match back {
                    Some(k) => Some(k as int),
                    None => None,
                },
            ),
            forall|a: int, b: int|
                #![trigger names[a], names[b]]
                0 <= a < i && 0 <= b < n && (b <= a || (back matches Some(k) && k <= a)) ==> !defines_at(
                    themes,
                    names[a],
                    names[b],
                    variant@,
                    state@,
                    prop_name@,
                ),
    {
        for j in 0..n
            invariant
                themes == record@.component_themes,
                plugins == component_plugins@,
                next == to_extended(themes, plugins),
                names == textmap::views(list@),
                n == list@.len(),
                i < n,
                lists_ancestors(
                    themes,
                    plugins,
                    component_key@,
                    names,
                    match back {
                        Some(k) => Some(k as int),
                        None => None,
                    },
                ),
                forall|b: int|
                    0 <= b < j && (b <= i || (back matches Some(k) && k <= i)) ==> !defines_at(
                        themes,
                        names[i as int],
                        #[trigger] names[b],
                        variant@,
                        state@,
                        prop_name@,
                    ),
        {
            let reachable = j <= i || (match back {
                Some(k) => k <= i,
                None => false,
            });
            if reachable {
                proof {
                    assert(themes.dom().contains(names[i as int]));
                    assert(themes.dom().contains(names[j as int]));
                }
                match (
                    record.component_themes.get(list[i].as_str()),
                    record.component_themes.get(list[j].as_str()),
                ) {
                    (Some(data), Some(other)) => {
                        if is_defined_at(data, other, variant, state, prop_name) {
                            proof {
                                assert(ancestor(themes, plugins, component_key@, i as nat) == Some(names[i as int]));
                                assert(ancestor(themes, plugins, component_key@, j as nat) == Some(names[j as int]));
                                if j <= i {
                                    assert(defines(
                                        themes,
                                        plugins,
                                        component_key@,
                                        variant@,
                                        state@,
                                        prop_name@,
                                        i as nat,
                                        j as nat,
                                    ));
                                } else {
                                    let k = back->Some_0;
                                    assert(ancestor(themes, plugins, component_key@, k as nat) == Some(names[k as int]));
                                    let m = lemma_again(
                                        next,
                                        component_key@,
                                        k as nat,
                                        n as nat,
                                        i as nat,
                                        j as nat,
                                    );
                                    assert(defines(
                                        themes,
                                        plugins,
                                        component_key@,
                                        variant@,
                                        state@,
                                        prop_name@,
                                        m,
                                        j as nat,
                                    ));
                                }
                            }
                            return true;
                        }
                    },
                    _ => {},
                }
            }
        }
    }
    proof {
        assert forall|i: nat, j: nat| !#[trigger] defines(
            themes,
            plugins,
            component_key@,
            variant@,
            state@,
            prop_name@,
            i,
            j,
        ) by {
            if defines(themes, plugins, component_key@, variant@, state@, prop_name@, i, j) {
                lemma_listed_pair(themes, plugins, component_key@, names, match back {
                    Some(k) => Some(k as int),
                    None => None,
                }, i, j);
                let (a, b) = listed_pair(themes, plugins, component_key@, names, match back {
                    Some(k) => Some(k as int),
                    None => None,
                }, i, j);
                assert(!defines_at(themes, names[a], names[b], variant@, state@, prop_name@));
            }
        }
    }
    false
}

/// The places in a listing of two ancestors, the second of which comes first.
spec fn listed_pair(
    themes: Themes,
    plugins: Plugins,
    key: Seq<char>,
    list: Seq<Seq<char>>,
    back: Option<int>,
    i: nat,
    j: nat,
) -> (int, int) {
    choose|a: int, b: int|
        #![trigger list[a], list[b]]
        0 <= a < list.len() && 0 <= b < list.len() && (b <= a || (back matches Some(k) && k <= a))
            && ancestor(themes, plugins, key, i) == Some(list[a]) && ancestor(themes, plugins, key, j) == Some(
            list[b],
        )
}

proof fn lemma_listed_pair(
    themes: Themes,
    plugins: Plugins,
    key: Seq<char>,
    list: Seq<Seq<char>>,
    back: Option<int>,
    i: nat,
    j: nat,
)
    requires
        lists_ancestors(themes, plugins, key, list, back),
        j <= i,
        ancestor(themes, plugins, key, i) is Some,
        ancestor(themes, plugins, key, j) is Some,
    ensures
        ({
            let (a, b) = listed_pair(themes, plugins, key, list, back, i, j);
            &&& 0 <= a < list.len()
            &&& 0 <= b < list.len()
            &&& (b <= a || (back matches Some(k) && k <= a))
            &&& ancestor(themes, plugins, key, i) == Some(list[a])
            &&& ancestor(themes, plugins, key, j) == Some(list[b])
        }),
{
    let next = to_extended(themes, plugins);
    let n = list.len();
    if i < n {
        assert(ancestor(themes, plugins, key, i) == Some(list[i as int]));
        assert(ancestor(themes, plugins, key, j) == Some(list[j as int]));
    } else {
        match back {
            None => {
                lemma_walk_none(next, key, n, i);
            },
            Some(r) => {
                assert(ancestor(themes, plugins, key, r as nat) == Some(list[r]));
                let a = lemma_late(next, key, r as nat, n, i);
                let b = chain::circle_covers(next, key, r as nat, n, j);
                assert(ancestor(themes, plugins, key, a) == Some(list[a as int]));
                assert(ancestor(themes, plugins, key, b) == Some(list[b as int]));
            },
        }
    }
}

/// Whether a component marks a size's property, or the Common value of it.
pub open spec fn size_defined_at(d: ThemeData, size: Seq<char>, prop: Seq<char>) -> bool {
    storage::size_flagged(d.size_overrides, size, prop) || storage::size_flagged(
        d.size_overrides,
        DEFAULT_SIZE_KEY@,
        prop,
    )
}

/// Whether a size's property is defined by the component or an ancestor.
pub open spec fn size_defined(themes: Themes, plugins: Plugins, key: Seq<char>, size: Seq<char>, prop: Seq<char>) -> bool {
    exists|i: nat|
        (#[trigger] ancestor(themes, plugins, key, i)) is Some && size_defined_at(
            themes[ancestor(themes, plugins, key, i)->Some_0],
            size,
            prop,
        )
}

/// Whether a size's property is defined.
pub fn component_size_value_is_defined(
    record: &ThemeRecord,
    component_plugins: &TextMap<PluginDefinition>,
    component_key: &str,
    size: &str,
    prop_name: &str,
) -> (r: bool)
    ensures
        r == size_defined(
            record@.component_themes,
            component_plugins@,
            component_key@,
            size@,
            prop_name@,
        ),
{
    let ghost themes = record@.component_themes;
    let ghost plugins = component_plugins@;
    let (list, back) = list_ancestors(&record.component_themes, component_plugins, component_key);
    let ghost names = textmap::views(list@);
    let n: usize = list.len();
    for i in 0..n
        invariant
            themes == record@.component_themes,
            plugins == component_plugins@,
            names == textmap::views(list@),
            n == list@.len(),
            lists_ancestors(
                themes,
                plugins,
                component_key@,
                names,
                match back {
                    Some(k) => Some(k as int),
                    None => None,
                },
            ),
            forall|a: int| 0 <= a < i ==> !size_defined_at(themes[#[trigger] names[a]], size@, prop_name@),
    {
        assert(themes.dom().contains(names[i as int]));
        if let Some(data) = record.component_themes.get(list[i].as_str()) {
            if data.size_prop_is_overridden(size, prop_name) || data.size_prop_is_overridden(
                DEFAULT_SIZE_KEY,
                prop_name,
            ) {
                assert(ancestor(themes, plugins, component_key@, i as nat) == Some(names[i as int]));
                return true;
            }
        }
    }
    proof {
        assert forall|i: nat| (#[trigger] ancestor(themes, plugins, component_key@, i)) is Some implies !size_defined_at(
            themes[ancestor(themes, plugins, component_key@, i)->Some_0],
            size@,
            prop_name@,
        ) by {
            let b = match back {
                Some(k) => Some(k as int),
                None => None,
            };
            lemma_listed_pair(themes, plugins, component_key@, names, b, i, i);
            let (x, y) = listed_pair(themes, plugins, component_key@, names, b, i, i);
            assert(!size_defined_at(themes[names[x]], size@, prop_name@));
        }
    }
    false
}

// ---------------------------------------------------------------------------------------------
// Missing values
// ---------------------------------------------------------------------------------------------
/// What is reported of tokens that a theme does not own.
pub open spec fn missing_tokens(keys: Seq<Seq<char>>, owned_keys: Set<Seq<char>>) -> Seq<Seq<char>>
    decreases keys.len(),
{
    if keys.len() == 0 {
        Seq::empty()
    } else {
        let before = missing_tokens(keys.drop_last(), owned_keys);
        if owned_keys.contains(keys.last()) {
            before
        } else {
            before.push("token "@ + keys.last())
        }
    }
}

/// What is reported of a variant's property.
pub open spec fn missing_variant_text(
    component: Seq<char>,
    variant: Seq<char>,
    state: Seq<char>,
    prop: Seq<char>,
) -> Seq<char> {
    "component "@ + component + " variant "@ + variant + "/"@ + state + " property "@ + prop
}

/// What is reported of a size's property.
pub open spec fn missing_size_text(component: Seq<char>, size: Seq<char>, prop: Seq<char>) -> Seq<char> {
    "component "@ + component + " size "@ + storage::size_key_in_file(size) + " property "@ + prop
}

/// What is reported of the properties of a variant in a state.
pub open spec fn missing_props(
    themes: Themes,
    plugins: Plugins,
    key: Seq<char>,
    variant: Seq<char>,
    state: Seq<char>,
    defs: Seq<PropModel>,
) -> Seq<Seq<char>>
    decreases defs.len(),
{
    if defs.len() == 0 {
        Seq::empty()
    } else {
        let before = missing_props(themes, plugins, key, variant, state, defs.drop_last());
        let prop = defs.last().name;
        if storage::variant_value(themes[key].variant_props, variant, state, prop) is Some && variant_defined(
            themes,
            plugins,
            key,
            variant,
            state,
            prop,
        ) {
            before
        } else {
            before.push(missing_variant_text(key, variant, state, prop))
        }
    }
}

/// What is reported of the states of a variant.
pub open spec fn missing_states(
    themes: Themes,
    plugins: Plugins,
    key: Seq<char>,
    variant: Seq<char>,
    states: Seq<Seq<char>>,
) -> Seq<Seq<char>>
    decreases states.len(),
{
    if states.len() == 0 {
        Seq::empty()
    } else {
        missing_states(themes, plugins, key, variant, states.drop_last()) + missing_props(
            themes,
            plugins,
            key,
            variant,
            states.last(),
            themes[key].variant_prop_defs,
        )
    }
}

/// What is reported of the variants of a component.
pub open spec fn missing_variants(themes: Themes, plugins: Plugins, key: Seq<char>, variants: Seq<Seq<char>>) -> Seq<
    Seq<char>,
>
    decreases variants.len(),
{
    if variants.len() == 0 {
        Seq::empty()
    } else {
        missing_variants(themes, plugins, key, variants.drop_last()) + missing_states(
            themes,
            plugins,
            key,
            variants.last(),
            textmap::sorted_keys(themes[key].variant_props[variants.last()]),
        )
    }
}

/// What is reported of the properties of a size.
pub open spec fn missing_size_props(
    themes: Themes,
    plugins: Plugins,
    key: Seq<char>,
    size: Seq<char>,
    defs: Seq<PropModel>,
) -> Seq<Seq<char>>
    decreases defs.len(),
{
    if defs.len() == 0 {
        Seq::empty()
    } else {
        let before = missing_size_props(themes, plugins, key, size, defs.drop_last());
        let prop = defs.last().name;
        if textmap::at2(themes[key].size_props, size, prop) is Some && size_defined(
            themes,
            plugins,
            key,
            size,
            prop,
        ) {
            before
        } else {
            before.push(missing_size_text(key, size, prop))
        }
    }
}

/// What is reported of the sizes of a component.
pub open spec fn missing_sizes(themes: Themes, plugins: Plugins, key: Seq<char>, sizes: Seq<Seq<char>>) -> Seq<
    Seq<char>,
>
    decreases sizes.len(),
{
    if sizes.len() == 0 {
        Seq::empty()
    } else {
        missing_sizes(themes, plugins, key, sizes.drop_last()) + missing_size_props(
            themes,
            plugins,
            key,
            sizes.last(),
            themes[key].size_prop_defs,
        )
    }
}

/// What is reported of components.
pub open spec fn missing_components(themes: Themes, plugins: Plugins, keys: Seq<Seq<char>>) -> Seq<Seq<char>>
    decreases keys.len(),
{
    if keys.len() == 0 {
        Seq::empty()
    } else {
        missing_components(themes, plugins, keys.drop_last()) + missing_variants(
            themes,
            plugins,
            keys.last(),
            textmap::sorted_keys(themes[keys.last()].variant_props),
        ) + missing_sizes(
            themes,
            plugins,
            keys.last(),
            textmap::sorted_keys(themes[keys.last()].size_props),
        )
    }
}

/// What a theme still has to define.
pub open spec fn missing_values(record: RecordModel, plugins: Plugins) -> Seq<Seq<char>> {
    missing_tokens(token_theme::token_theme_keys(), record.token_overrides) + missing_components(
        record.component_themes,
        plugins,
        textmap::sorted_keys(record.component_themes),
    )
}

fn variant_text(component: &str, variant: &str, state: &str, prop: &str) -> (r: String)
    ensures
        r@ == missing_variant_text(component@, variant@, state@, prop@),
{
    let mut s = owned("component ");
    s.push_str(component);
    s.push_str(" variant ");
    s.push_str(variant);
    s.push_str("/");
    s.push_str(state);
    s.push_str(" property ");
    s.push_str(prop);
    s
}

fn size_text(component: &str, size: &str, prop: &str) -> (r: String)
    ensures
        r@ == missing_size_text(component@, size@, prop@),
{
    let mut s = owned("component ");
    s.push_str(component);
    s.push_str(" size ");
    s.push_str(serialize_size_key(size));
    s.push_str(" property ");
    s.push_str(prop);
    s
}

fn add_missing_props(
    out: &mut Vec<String>,
    record: &ThemeRecord,
    component_plugins: &TextMap<PluginDefinition>,
    key: &str,
    data: &ComponentThemeData,
    variant: &str,
    state: &str,
    props: &TextMap<PropertyValue>,
)
    requires
        record@.component_themes.dom().contains(key@),
        data@ == record@.component_themes[key@],
        data@.variant_props.dom().contains(variant@),
        data@.variant_props[variant@].dom().contains(state@),
        props@ == data@.variant_props[variant@][state@],
    ensures
        textmap::views(final(out)@) == textmap::views(old(out)@) + missing_props(
            record@.component_themes,
            component_plugins@,
            key@,
            variant@,
            state@,
            data@.variant_prop_defs,
        ),
{
    let ghost themes = record@.component_themes;
    let ghost start = textmap::views(out@);
    let ghost defs = data@.variant_prop_defs;
    let n: usize = data.variant_prop_defs.len();
    assert(start =~= start + missing_props(themes, component_plugins@, key@, variant@, state@, defs.take(0)));
    for i in 0..n
        invariant
            n == data.variant_prop_defs@.len(),
            themes == record@.component_themes,
            themes.dom().contains(key@),
            data@ == themes[key@],
            data@.variant_props.dom().contains(variant@),
            data@.variant_props[variant@].dom().contains(state@),
            props@ == data@.variant_props[variant@][state@],
            defs == textmap::views(data.variant_prop_defs@),
            textmap::views(out@) == start + missing_props(
                themes,
                component_plugins@,
                key@,
                variant@,
                state@,
                defs.take(i as int),
            ),
    {
        proof {
            assert(defs.take(i + 1).drop_last() =~= defs.take(i as int));
            assert(defs.take(i + 1).last() == defs[i as int]);
        }
        let prop = data.variant_prop_defs[i].name.as_str();
        if !props.contains_key(prop) || !component_variant_value_is_defined(
            record,
            component_plugins,
            key,
            variant,
            state,
            prop,
        ) {
            let ghost before = textmap::views(out@);
            out.push(variant_text(key, variant, state, prop));
            assert(textmap::views(out@) =~= before.push(
                missing_variant_text(key@, variant@, state@, prop@),
            ));
            assert(textmap::views(out@) =~= start + missing_props(
                themes,
                component_plugins@,
                key@,
                variant@,
                state@,
                defs.take(i + 1),
            ));
        }
    }
    assert(defs.take(n as int) =~= defs);
}

fn add_missing_variant(
    out: &mut Vec<String>,
    record: &ThemeRecord,
    component_plugins: &TextMap<PluginDefinition>,
    key: &str,
    data: &ComponentThemeData,
    variant: &str,
    states: &TextMap<TextMap<PropertyValue>>,
)
    requires
        record@.component_themes.dom().contains(key@),
        data@ == record@.component_themes[key@],
        data@.variant_props.dom().contains(variant@),
        states@ == data@.variant_props[variant@],
    ensures
        textmap::views(final(out)@) == textmap::views(old(out)@) + missing_states(
            record@.component_themes,
            component_plugins@,
            key@,
            variant@,
            textmap::sorted_keys(states@),
        ),
{
    let ghost themes = record@.component_themes;
    let ghost start = textmap::views(out@);
    let ghost keys = textmap::sorted_keys(states@);
    let n: usize = states.len();
    assert(start =~= start + missing_states(themes, component_plugins@, key@, variant@, keys.take(0)));
    for i in 0..n
        invariant
            keys == textmap::sorted_keys(states@),
            n == keys.len(),
            themes == record@.component_themes,
            themes.dom().contains(key@),
            data@ == themes[key@],
            data@.variant_props.dom().contains(variant@),
            states@ == data@.variant_props[variant@],
            textmap::views(out@) == start + missing_states(
                themes,
                component_plugins@,
                key@,
                variant@,
                keys.take(i as int),
            ),
    {
        proof {
            assert(keys.take(i + 1).drop_last() =~= keys.take(i as int));
            assert(keys.take(i + 1).last() == keys[i as int]);
        }
        add_missing_props(
            out,
            record,
            component_plugins,
            key,
            data,
            variant,
            states.key_at(i).as_str(),
            states.value_at(i),
        );
        assert(textmap::views(out@) =~= start + missing_states(
            themes,
            component_plugins@,
            key@,
            variant@,
            keys.take(i + 1),
        ));
    }
    assert(keys.take(n as int) =~= keys);
}

fn add_missing_variants(
    out: &mut Vec<String>,
    record: &ThemeRecord,
    component_plugins: &TextMap<PluginDefinition>,
    key: &str,
    data: &ComponentThemeData,
)
    requires
        record@.component_themes.dom().contains(key@),
        data@ == record@.component_themes[key@],
    ensures
        textmap::views(final(out)@) == textmap::views(old(out)@) + missing_variants(
            record@.component_themes,
            component_plugins@,
            key@,
            textmap::sorted_keys(data@.variant_props),
        ),
{
    let ghost themes = record@.component_themes;
    let ghost start = textmap::views(out@);
    let ghost keys = textmap::sorted_keys(data@.variant_props);
    let n: usize = data.variant_props.len();
    assert(start =~= start + missing_variants(themes, component_plugins@, key@, keys.take(0)));
    for i in 0..n
        invariant
            keys == textmap::sorted_keys(data.variant_props@),
            n == keys.len(),
            themes == record@.component_themes,
            themes.dom().contains(key@),
            data@ == themes[key@],
            textmap::views(out@) == start + missing_variants(
                themes,
                component_plugins@,
                key@,
                keys.take(i as int),
            ),
    {
        proof {
            assert(keys.take(i + 1).drop_last() =~= keys.take(i as int));
            assert(keys.take(i + 1).last() == keys[i as int]);
        }
        add_missing_variant(
            out,
            record,
            component_plugins,
            key,
            data,
            data.variant_props.key_at(i).as_str(),
            data.variant_props.value_at(i),
        );
        assert(textmap::views(out@) =~= start + missing_variants(
            themes,
            component_plugins@,
            key@,
            keys.take(i + 1),
        ));
    }
    assert(keys.take(n as int) =~= keys);
}

fn add_missing_size_props(
    out: &mut Vec<String>,
    record: &ThemeRecord,
    component_plugins: &TextMap<PluginDefinition>,
    key: &str,
    data: &ComponentThemeData,
    size: &str,
    props: &TextMap<PropertyValue>,
)
    requires
        record@.component_themes.dom().contains(key@),
        data@ == record@.component_themes[key@],
        data@.size_props.dom().contains(size@),
        props@ == data@.size_props[size@],
    ensures
        textmap::views(final(out)@) == textmap::views(old(out)@) + missing_size_props(
            record@.component_themes,
            component_plugins@,
            key@,
            size@,
            data@.size_prop_defs,
        ),
{
    let ghost themes = record@.component_themes;
    let ghost start = textmap::views(out@);
    let ghost defs = data@.size_prop_defs;
    let n: usize = data.size_prop_defs.len();
    assert(start =~= start + missing_size_props(themes, component_plugins@, key@, size@, defs.take(0)));
    for i in 0..n
        invariant
            n == data.size_prop_defs@.len(),
            themes == record@.component_themes,
            themes.dom().contains(key@),
            data@ == themes[key@],
            data@.size_props.dom().contains(size@),
            props@ == data@.size_props[size@],
            defs == textmap::views(data.size_prop_defs@),
            textmap::views(out@) == start + missing_size_props(
                themes,
                component_plugins@,
                key@,
                size@,
                defs.take(i as int),
            ),
    {
        proof {
            assert(defs.take(i + 1).drop_last() =~= defs.take(i as int));
            assert(defs.take(i + 1).last() == defs[i as int]);
        }
        let prop = data.size_prop_defs[i].name.as_str();
        if !props.contains_key(prop) || !component_size_value_is_defined(
            record,
            component_plugins,
            key,
            size,
            prop,
        ) {
            let ghost before = textmap::views(out@);
            out.push(size_text(key, size, prop));
            assert(textmap::views(out@) =~= before.push(missing_size_text(key@, size@, prop@)));
            assert(textmap::views(out@) =~= start + missing_size_props(
                themes,
                component_plugins@,
                key@,
                size@,
                defs.take(i + 1),
            ));
        }
    }
    assert(defs.take(n as int) =~= defs);
}

fn add_missing_sizes(
    out: &mut Vec<String>,
    record: &ThemeRecord,
    component_plugins: &TextMap<PluginDefinition>,
    key: &str,
    data: &ComponentThemeData,
)
    requires
        record@.component_themes.dom().contains(key@),
        data@ == record@.component_themes[key@],
    ensures
        textmap::views(final(out)@) == textmap::views(old(out)@) + missing_sizes(
            record@.component_themes,
            component_plugins@,
            key@,
            textmap::sorted_keys(data@.size_props),
        ),
{
    let ghost themes = record@.component_themes;
    let ghost start = textmap::views(out@);
    let ghost keys = textmap::sorted_keys(data@.size_props);
    let n: usize = data.size_props.len();
    assert(start =~= start + missing_sizes(themes, component_plugins@, key@, keys.take(0)));
    for i in 0..n
        invariant
            keys == textmap::sorted_keys(data.size_props@),
            n == keys.len(),
            themes == record@.component_themes,
            themes.dom().contains(key@),
            data@ == themes[key@],
            textmap::views(out@) == start + missing_sizes(
                themes,
                component_plugins@,
                key@,
                keys.take(i as int),
            ),
    {
        proof {
            assert(keys.take(i + 1).drop_last() =~= keys.take(i as int));
            assert(keys.take(i + 1).last() == keys[i as int]);
        }
        add_missing_size_props(
            out,
            record,
            component_plugins,
            key,
            data,
            data.size_props.key_at(i).as_str(),
            data.size_props.value_at(i),
        );
        assert(textmap::views(out@) =~= start + missing_sizes(
            themes,
            component_plugins@,
            key@,
            keys.take(i + 1),
        ));
    }
    assert(keys.take(n as int) =~= keys);
}

fn list_missing_tokens(record: &ThemeRecord) -> (r: Vec<String>)
    ensures
        textmap::views(r@) == missing_tokens(
            token_theme::token_theme_keys(),
            record@.token_overrides,
        ),
{
    let keys = list_token_keys();
    let ghost all = token_theme::token_theme_keys();
    let mut out: Vec<String> = Vec::new();
    assert(textmap::views(out@) =~= missing_tokens(all.take(0), record@.token_overrides));
    for i in 0..keys.len()
        invariant
            all == textmap::views(keys@),
            textmap::views(out@) == missing_tokens(all.take(i as int), record@.token_overrides),
    {
        proof {
            assert(all.take(i + 1).drop_last() =~= all.take(i as int));
            assert(all.take(i + 1).last() == all[i as int]);
        }
        if !record.token_overrides.contains(keys[i].as_str()) {
            let ghost before = textmap::views(out@);
            let mut s = owned("token ");
            s.push_str(keys[i].as_str());
            out.push(s);
            assert(textmap::views(out@) =~= before.push(s@));
        }
    }
    assert(all.take(keys@.len() as int) =~= all);
    out
}

/// Whether a theme can be saved: one with a parent always, one without only where it defines every
/// token and every value of its components. What it does not define is reported.
pub fn validate_theme_record_for_save(record: &ThemeRecord, component_plugins: &TextMap<PluginDefinition>) -> (r:
    Result<(), Vec<String>>)
    ensures
        match r {
            Ok(_) => record@.meta.parent_name is Some || missing_values(record@, component_plugins@).len()
                == 0,
            Err(missing) => record@.meta.parent_name is None && textmap::views(missing@) == missing_values(
                record@,
                component_plugins@,
            ) && missing@.len() > 0,
        },
{
    if record.meta.parent_name.is_some() {
        return Ok(());
    }
    let mut out = list_missing_tokens(record);
    let ghost themes = record@.component_themes;
    let ghost start = textmap::views(out@);
    let ghost keys = textmap::sorted_keys(themes);
    let n: usize = record.component_themes.len();
    assert(start =~= start + missing_components(themes, component_plugins@, keys.take(0)));
    for i in 0..n
        invariant
            keys == textmap::sorted_keys(record.component_themes@),
            n == keys.len(),
            themes == record@.component_themes,
            textmap::views(out@) == start + missing_components(
                themes,
                component_plugins@,
                keys.take(i as int),
            ),
    {
        proof {
            assert(keys.take(i + 1).drop_last() =~= keys.take(i as int));
            assert(keys.take(i + 1).last() == keys[i as int]);
        }
        let key = record.component_themes.key_at(i).as_str();
        let data = record.component_themes.value_at(i);
        add_missing_variants(&mut out, record, component_plugins, key, data);
        add_missing_sizes(&mut out, record, component_plugins, key, data);
        assert(textmap::views(out@) =~= start + missing_components(
            themes,
            component_plugins@,
            keys.take(i + 1),
        ));
    }
    assert(keys.take(n as int) =~= keys);
    assert(textmap::views(out@) =~= missing_values(record@, component_plugins@));
    if out.len() == 0 {
        Ok(())
    } else {
        Err(out)
    }
}

// ---------------------------------------------------------------------------------------------
// Laws
// ---------------------------------------------------------------------------------------------
/// What is marked is defined.
pub proof fn marked_is_defined(
    themes: Themes,
    plugins: Plugins,
    key: Seq<char>,
    variant: Seq<char>,
    state: Seq<char>,
    prop: Seq<char>,
)
    requires
        themes.dom().contains(key),
        marks(themes, key, variant, state, prop),
    ensures
        variant_defined(themes, plugins, key, variant, state, prop),
{
    assert(chain::walk(to_extended(themes, plugins), key, 0) == Some(key));
    assert(defines(themes, plugins, key, variant, state, prop, 0, 0));
}

/// What is defined in the normal state is defined in every state.
pub proof fn normal_defines_all_states(
    themes: Themes,
    plugins: Plugins,
    key: Seq<char>,
    variant: Seq<char>,
    state: Seq<char>,
    prop: Seq<char>,
)
    requires
        variant_defined(themes, plugins, key, variant, NORMAL_STATE_KEY@, prop),
    ensures
        variant_defined(themes, plugins, key, variant, state, prop),
{
    let (i, j) = choose|i: nat, j: nat| #[trigger]
        defines(themes, plugins, key, variant, NORMAL_STATE_KEY@, prop, i, j);
    assert(defines(themes, plugins, key, variant, state, prop, i, j));
}

/// What the extended component defines, the component has defined.
pub proof fn extended_defines(
    themes: Themes,
    plugins: Plugins,
    key: Seq<char>,
    parent: Seq<char>,
    variant: Seq<char>,
    state: Seq<char>,
    prop: Seq<char>,
)
    requires
        themes.dom().contains(key),
        to_extended(themes, plugins)(key) == Some(parent),
        variant_defined(themes, plugins, parent, variant, state, prop),
    ensures
        variant_defined(themes, plugins, key, variant, state, prop),
{
    let next = to_extended(themes, plugins);
    let (i, j) = choose|i: nat, j: nat| #[trigger]
        defines(themes, plugins, parent, variant, state, prop, i, j);
    chain::walk_rest(next, key, parent, i);
    chain::walk_rest(next, key, parent, j);
    assert(defines(themes, plugins, key, variant, state, prop, (i + 1) as nat, (j + 1) as nat));
}

proof fn lemma_in_front<T>(a: Seq<T>, b: Seq<T>, x: T)
    requires
        a.contains(x),
    ensures
        (a + b).contains(x),
{
    let i = choose|i: int| 0 <= i < a.len() && a[i] == x;
    assert((a + b)[i] == x);
}

proof fn lemma_behind<T>(a: Seq<T>, b: Seq<T>, x: T)
    requires
        b.contains(x),
    ensures
        (a + b).contains(x),
{
    let i = choose|i: int| 0 <= i < b.len() && b[i] == x;
    assert((a + b)[a.len() + i] == x);
}

proof fn lemma_missing_token(keys: Seq<Seq<char>>, owned_keys: Set<Seq<char>>, key: Seq<char>)
    requires
        keys.contains(key),
        !owned_keys.contains(key),
    ensures
        missing_tokens(keys, owned_keys).contains("token "@ + key),
    decreases keys.len(),
{
    let before = missing_tokens(keys.drop_last(), owned_keys);
    let all = missing_tokens(keys, owned_keys);
    let i = choose|i: int| 0 <= i < keys.len() && keys[i] == key;
    if i == keys.len() - 1 {
        assert(all[all.len() - 1] == "token "@ + key);
    } else {
        assert(keys.drop_last()[i] == key);
        lemma_missing_token(keys.drop_last(), owned_keys, key);
        let k = choose|k: int| 0 <= k < before.len() && before[k] == "token "@ + key;
        assert(all[k] == before[k]);
    }
}

proof fn lemma_missing_prop(
    themes: Themes,
    plugins: Plugins,
    key: Seq<char>,
    variant: Seq<char>,
    state: Seq<char>,
    defs: Seq<PropModel>,
    i: int,
)
    requires
        0 <= i < defs.len(),
        !(storage::variant_value(themes[key].variant_props, variant, state, defs[i].name) is Some && variant_defined(
            themes,
            plugins,
            key,
            variant,
            state,
            defs[i].name,
        )),
    ensures
        missing_props(themes, plugins, key, variant, state, defs).contains(
            missing_variant_text(key, variant, state, defs[i].name),
        ),
    decreases defs.len(),
{
    let text = missing_variant_text(key, variant, state, defs[i].name);
    let before = missing_props(themes, plugins, key, variant, state, defs.drop_last());
    let all = missing_props(themes, plugins, key, variant, state, defs);
    if i == defs.len() - 1 {
        assert(all[all.len() - 1] == text);
    } else {
        assert(defs.drop_last()[i] == defs[i]);
        lemma_missing_prop(themes, plugins, key, variant, state, defs.drop_last(), i);
        let k = choose|k: int| 0 <= k < before.len() && before[k] == text;
        assert(all[k] == before[k]);
    }
}

proof fn lemma_missing_state(
    themes: Themes,
    plugins: Plugins,
    key: Seq<char>,
    variant: Seq<char>,
    states: Seq<Seq<char>>,
    state: Seq<char>,
    x: Seq<char>,
)
    requires
        states.contains(state),
        missing_props(themes, plugins, key, variant, state, themes[key].variant_prop_defs).contains(x),
    ensures
        missing_states(themes, plugins, key, variant, states).contains(x),
    decreases states.len(),
{
    let before = missing_states(themes, plugins, key, variant, states.drop_last());
    let last = missing_props(themes, plugins, key, variant, states.last(), themes[key].variant_prop_defs);
    let i = choose|i: int| 0 <= i < states.len() && states[i] == state;
    if i == states.len() - 1 {
        lemma_behind(before, last, x);
    } else {
        assert(states.drop_last()[i] == state);
        lemma_missing_state(themes, plugins, key, variant, states.drop_last(), state, x);
        lemma_in_front(before, last, x);
    }
}

proof fn lemma_missing_variant(
    themes: Themes,
    plugins: Plugins,
    key: Seq<char>,
    variants: Seq<Seq<char>>,
    variant: Seq<char>,
    x: Seq<char>,
)
    requires
        variants.contains(variant),
        missing_states(
            themes,
            plugins,
            key,
            variant,
            textmap::sorted_keys(themes[key].variant_props[variant]),
        ).contains(x),
    ensures
        missing_variants(themes, plugins, key, variants).contains(x),
    decreases variants.len(),
{
    let before = missing_variants(themes, plugins, key, variants.drop_last());
    let last = missing_states(
        themes,
        plugins,
        key,
        variants.last(),
        textmap::sorted_keys(themes[key].variant_props[variants.last()]),
    );
    let i = choose|i: int| 0 <= i < variants.len() && variants[i] == variant;
    if i == variants.len() - 1 {
        lemma_behind(before, last, x);
    } else {
        assert(variants.drop_last()[i] == variant);
        lemma_missing_variant(themes, plugins, key, variants.drop_last(), variant, x);
        lemma_in_front(before, last, x);
    }
}

proof fn lemma_missing_size_prop(
    themes: Themes,
    plugins: Plugins,
    key: Seq<char>,
    size: Seq<char>,
    defs: Seq<PropModel>,
    i: int,
)
    requires
        0 <= i < defs.len(),
        !(textmap::at2(themes[key].size_props, size, defs[i].name) is Some && size_defined(
            themes,
            plugins,
            key,
            size,
            defs[i].name,
        )),
    ensures
        missing_size_props(themes, plugins, key, size, defs).contains(missing_size_text(key, size, defs[i].name)),
    decreases defs.len(),
{
    let text = missing_size_text(key, size, defs[i].name);
    let before = missing_size_props(themes, plugins, key, size, defs.drop_last());
    let all = missing_size_props(themes, plugins, key, size, defs);
    if i == defs.len() - 1 {
        assert(all[all.len() - 1] == text);
    } else {
        assert(defs.drop_last()[i] == defs[i]);
        lemma_missing_size_prop(themes, plugins, key, size, defs.drop_last(), i);
        let k = choose|k: int| 0 <= k < before.len() && before[k] == text;
        assert(all[k] == before[k]);
    }
}

proof fn lemma_missing_size(
    themes: Themes,
    plugins: Plugins,
    key: Seq<char>,
    sizes: Seq<Seq<char>>,
    size: Seq<char>,
    x: Seq<char>,
)
    requires
        sizes.contains(size),
        missing_size_props(themes, plugins, key, size, themes[key].size_prop_defs).contains(x),
    ensures
        missing_sizes(themes, plugins, key, sizes).contains(x),
    decreases sizes.len(),
{
    let before = missing_sizes(themes, plugins, key, sizes.drop_last());
    let last = missing_size_props(themes, plugins, key, sizes.last(), themes[key].size_prop_defs);
    let i = choose|i: int| 0 <= i < sizes.len() && sizes[i] == size;
    if i == sizes.len() - 1 {
        lemma_behind(before, last, x);
    } else {
        assert(sizes.drop_last()[i] == size);
        lemma_missing_size(themes, plugins, key, sizes.drop_last(), size, x);
        lemma_in_front(before, last, x);
    }
}

proof fn lemma_missing_component(themes: Themes, plugins: Plugins, keys: Seq<Seq<char>>, key: Seq<char>, x: Seq<char>)
    requires
        keys.contains(key),
        missing_variants(themes, plugins, key, textmap::sorted_keys(themes[key].variant_props)).contains(x)
            || missing_sizes(themes, plugins, key, textmap::sorted_keys(themes[key].size_props)).contains(x),
    ensures
        missing_components(themes, plugins, keys).contains(x),
    decreases keys.len(),
{
    let before = missing_components(themes, plugins, keys.drop_last());
    let a = missing_variants(
        themes,
        plugins,
        keys.last(),
        textmap::sorted_keys(themes[keys.last()].variant_props),
    );
    let b = missing_sizes(themes, plugins, keys.last(), textmap::sorted_keys(themes[keys.last()].size_props));
    let i = choose|i: int| 0 <= i < keys.len() && keys[i] == key;
    if i == keys.len() - 1 {
        if a.contains(x) {
            lemma_behind(before, a, x);
            lemma_in_front(before + a, b, x);
        } else {
            lemma_behind(before + a, b, x);
        }
    } else {
        assert(keys.drop_last()[i] == key);
        lemma_missing_component(themes, plugins, keys.drop_last(), key, x);
        lemma_in_front(before, a, x);
        lemma_in_front(before + a, b, x);
    }
}

/// A token that a theme does not own is reported.
pub proof fn unowned_token_is_reported(record: RecordModel, plugins: Plugins, key: Seq<char>)
    requires
        token_theme::token_theme_keys().contains(key),
        !record.token_overrides.contains(key),
    ensures
        missing_values(record, plugins).contains("token "@ + key),
{
    let a = missing_tokens(token_theme::token_theme_keys(), record.token_overrides);
    lemma_missing_token(token_theme::token_theme_keys(), record.token_overrides, key);
    lemma_in_front(
        a,
        missing_components(
            record.component_themes,
            plugins,
            textmap::sorted_keys(record.component_themes),
        ),
        "token "@ + key,
    );
}

/// A property of a variant in a state that has no value, or that neither the component nor one that it
/// extends defines, is reported.
pub proof fn undefined_variant_is_reported(
    record: RecordModel,
    plugins: Plugins,
    key: Seq<char>,
    variant: Seq<char>,
    state: Seq<char>,
    i: int,
)
    requires
        record.component_themes.dom().finite(),
        record.component_themes.dom().contains(key),
        ({
            let d = record.component_themes[key];
            &&& d.variant_props.dom().finite()
            &&& d.variant_props.dom().contains(variant)
            &&& d.variant_props[variant].dom().finite()
            &&& d.variant_props[variant].dom().contains(state)
            &&& 0 <= i < d.variant_prop_defs.len()
            &&& !(d.variant_props[variant][state].dom().contains(d.variant_prop_defs[i].name) && variant_defined(
                record.component_themes,
                plugins,
                key,
                variant,
                state,
                d.variant_prop_defs[i].name,
            ))
        }),
    ensures
        missing_values(record, plugins).contains(
            "component "@ + key + " variant "@ + variant + "/"@ + state + " property "@
                + record.component_themes[key].variant_prop_defs[i].name,
        ),
{
    let themes = record.component_themes;
    let d = themes[key];
    let x = missing_variant_text(key, variant, state, d.variant_prop_defs[i].name);
    textmap::sorted_lists(themes.dom());
    textmap::sorted_lists(d.variant_props.dom());
    textmap::sorted_lists(d.variant_props[variant].dom());
    lemma_missing_prop(themes, plugins, key, variant, state, d.variant_prop_defs, i);
    lemma_missing_state(
        themes,
        plugins,
        key,
        variant,
        textmap::sorted_keys(d.variant_props[variant]),
        state,
        x,
    );
    lemma_missing_variant(themes, plugins, key, textmap::sorted_keys(d.variant_props), variant, x);
    lemma_missing_component(themes, plugins, textmap::sorted_keys(themes), key, x);
    lemma_behind(
        missing_tokens(token_theme::token_theme_keys(), record.token_overrides),
        missing_components(themes, plugins, textmap::sorted_keys(themes)),
        x,
    );
}

/// A property of a size that has no value, or that neither the component nor one that it extends
/// defines, is reported.
pub proof fn undefined_size_is_reported(
    record: RecordModel,
    plugins: Plugins,
    key: Seq<char>,
    size: Seq<char>,
    i: int,
)
    requires
        record.component_themes.dom().finite(),
        record.component_themes.dom().contains(key),
        ({
            let d = record.component_themes[key];
            &&& d.size_props.dom().finite()
            &&& d.size_props.dom().contains(size)
            &&& 0 <= i < d.size_prop_defs.len()
            &&& !(d.size_props[size].dom().contains(d.size_prop_defs[i].name) && size_defined(
                record.component_themes,
                plugins,
                key,
                size,
                d.size_prop_defs[i].name,
            ))
        }),
    ensures
        missing_values(record, plugins).contains(
            missing_size_text(key, size, record.component_themes[key].size_prop_defs[i].name),
        ),
{
    let themes = record.component_themes;
    let d = themes[key];
    let x = missing_size_text(key, size, d.size_prop_defs[i].name);
    textmap::sorted_lists(themes.dom());
    textmap::sorted_lists(d.size_props.dom());
    lemma_missing_size_prop(themes, plugins, key, size, d.size_prop_defs, i);
    lemma_missing_size(themes, plugins, key, textmap::sorted_keys(d.size_props), size, x);
    lemma_missing_component(themes, plugins, textmap::sorted_keys(themes), key, x);
    lemma_behind(
        missing_tokens(token_theme::token_theme_keys(), record.token_overrides),
        missing_components(themes, plugins, textmap::sorted_keys(themes)),
        x,
    );
}

/// Whether a component has and defines all that it declares.
pub open spec fn is_complete(themes: Themes, plugins: Plugins, key: Seq<char>) -> bool {
    let d = themes[key];
    &&& forall|variant: Seq<char>, state: Seq<char>, i: int|
        #![trigger variant_defined(themes, plugins, key, variant, state, d.variant_prop_defs[i].name)]
        d.variant_props.dom().contains(variant) && d.variant_props[variant].dom().contains(state) && 0 <= i
            < d.variant_prop_defs.len() ==> storage::variant_value(
            d.variant_props,
            variant,
            state,
            d.variant_prop_defs[i].name,
        ) is Some && variant_defined(themes, plugins, key, variant, state, d.variant_prop_defs[i].name)
    &&& forall|size: Seq<char>, i: int|
        #![trigger size_defined(themes, plugins, key, size, d.size_prop_defs[i].name)]
        d.size_props.dom().contains(size) && 0 <= i < d.size_prop_defs.len() ==> textmap::at2(
            d.size_props,
            size,
            d.size_prop_defs[i].name,
        ) is Some && size_defined(themes, plugins, key, size, d.size_prop_defs[i].name)
}

proof fn lemma_no_token(keys: Seq<Seq<char>>, owned_keys: Set<Seq<char>>)
    requires
        forall|i: int| 0 <= i < keys.len() ==> owned_keys.contains(#[trigger] keys[i]),
    ensures
        missing_tokens(keys, owned_keys).len() == 0,
    decreases keys.len(),
{
    if keys.len() > 0 {
        let front = keys.drop_last();
        assert forall|i: int| 0 <= i < front.len() implies owned_keys.contains(#[trigger] front[i]) by {
            assert(front[i] == keys[i]);
        }
        assert(keys[keys.len() - 1] == keys.last());
        lemma_no_token(front, owned_keys);
    }
}

proof fn lemma_no_prop(
    themes: Themes,
    plugins: Plugins,
    key: Seq<char>,
    variant: Seq<char>,
    state: Seq<char>,
    n: int,
)
    requires
        is_complete(themes, plugins, key),
        themes[key].variant_props.dom().contains(variant),
        themes[key].variant_props[variant].dom().contains(state),
        0 <= n <= themes[key].variant_prop_defs.len(),
    ensures
        missing_props(themes, plugins, key, variant, state, themes[key].variant_prop_defs.take(n)).len() == 0,
    decreases n,
{
    if n > 0 {
        let defs = themes[key].variant_prop_defs;
        lemma_no_prop(themes, plugins, key, variant, state, n - 1);
        assert(defs.take(n).drop_last() =~= defs.take(n - 1));
        assert(defs.take(n).last() == defs[n - 1]);
        assert(variant_defined(themes, plugins, key, variant, state, defs[n - 1].name));
    }
}

proof fn lemma_no_state(themes: Themes, plugins: Plugins, key: Seq<char>, variant: Seq<char>, states: Seq<Seq<char>>)
    requires
        is_complete(themes, plugins, key),
        themes[key].variant_props.dom().contains(variant),
        forall|i: int|
            0 <= i < states.len() ==> themes[key].variant_props[variant].dom().contains(#[trigger] states[i]),
    ensures
        missing_states(themes, plugins, key, variant, states).len() == 0,
    decreases states.len(),
{
    if states.len() > 0 {
        let front = states.drop_last();
        assert forall|i: int| 0 <= i < front.len() implies themes[key].variant_props[variant].dom().contains(
            #[trigger] front[i],
        ) by {
            assert(front[i] == states[i]);
        }
        assert(states[states.len() - 1] == states.last());
        lemma_no_state(themes, plugins, key, variant, front);
        let defs = themes[key].variant_prop_defs;
        lemma_no_prop(themes, plugins, key, variant, states.last(), defs.len() as int);
        assert(defs.take(defs.len() as int) =~= defs);
    }
}

proof fn lemma_no_variant(themes: Themes, plugins: Plugins, key: Seq<char>, variants: Seq<Seq<char>>)
    requires
        is_complete(themes, plugins, key),
        forall|i: int| 0 <= i < variants.len() ==> themes[key].variant_props.dom().contains(#[trigger] variants[i]),
        forall|v: Seq<char>| #[trigger]
            themes[key].variant_props.dom().contains(v) ==> themes[key].variant_props[v].dom().finite(),
    ensures
        missing_variants(themes, plugins, key, variants).len() == 0,
    decreases variants.len(),
{
    if variants.len() > 0 {
        let front = variants.drop_last();
        assert forall|i: int| 0 <= i < front.len() implies themes[key].variant_props.dom().contains(
            #[trigger] front[i],
        ) by {
            assert(front[i] == variants[i]);
        }
        let v = variants.last();
        assert(variants[variants.len() - 1] == v);
        lemma_no_variant(themes, plugins, key, front);
        let states = textmap::sorted_keys(themes[key].variant_props[v]);
        textmap::sorted_lists(themes[key].variant_props[v].dom());
        assert forall|i: int| 0 <= i < states.len() implies themes[key].variant_props[v].dom().contains(
            #[trigger] states[i],
        ) by {
            assert(states.contains(states[i]));
        }
        lemma_no_state(themes, plugins, key, v, states);
    }
}

proof fn lemma_no_size_prop(themes: Themes, plugins: Plugins, key: Seq<char>, size: Seq<char>, n: int)
    requires
        is_complete(themes, plugins, key),
        themes[key].size_props.dom().contains(size),
        0 <= n <= themes[key].size_prop_defs.len(),
    ensures
        missing_size_props(themes, plugins, key, size, themes[key].size_prop_defs.take(n)).len() == 0,
    decreases n,
{
    if n > 0 {
        let defs = themes[key].size_prop_defs;
        lemma_no_size_prop(themes, plugins, key, size, n - 1);
        assert(defs.take(n).drop_last() =~= defs.take(n - 1));
        assert(defs.take(n).last() == defs[n - 1]);
        assert(size_defined(themes, plugins, key, size, defs[n - 1].name));
    }
}

proof fn lemma_no_size(themes: Themes, plugins: Plugins, key: Seq<char>, sizes: Seq<Seq<char>>)
    requires
        is_complete(themes, plugins, key),
        forall|i: int| 0 <= i < sizes.len() ==> themes[key].size_props.dom().contains(#[trigger] sizes[i]),
    ensures
        missing_sizes(themes, plugins, key, sizes).len() == 0,
    decreases sizes.len(),
{
    if sizes.len() > 0 {
        let front = sizes.drop_last();
        assert forall|i: int| 0 <= i < front.len() implies themes[key].size_props.dom().contains(
            #[trigger] front[i],
        ) by {
            assert(front[i] == sizes[i]);
        }
        assert(sizes[sizes.len() - 1] == sizes.last());
        lemma_no_size(themes, plugins, key, front);
        let defs = themes[key].size_prop_defs;
        lemma_no_size_prop(themes, plugins, key, sizes.last(), defs.len() as int);
        assert(defs.take(defs.len() as int) =~= defs);
    }
}

/// Whether the names of a component's variants, states and sizes can be listed.
pub open spec fn can_be_listed(d: ThemeData) -> bool {
    &&& d.variant_props.dom().finite()
    &&& forall|v: Seq<char>| #[trigger] d.variant_props.dom().contains(v) ==> d.variant_props[v].dom().finite()
    &&& d.size_props.dom().finite()
}

proof fn lemma_no_component(themes: Themes, plugins: Plugins, keys: Seq<Seq<char>>)
    requires
        forall|i: int|
            0 <= i < keys.len() ==> is_complete(themes, plugins, #[trigger] keys[i]) && can_be_listed(
                themes[keys[i]],
            ),
    ensures
        missing_components(themes, plugins, keys).len() == 0,
    decreases keys.len(),
{
    if keys.len() > 0 {
        let front = keys.drop_last();
        assert forall|i: int| 0 <= i < front.len() implies is_complete(themes, plugins, #[trigger] front[i])
            && can_be_listed(themes[front[i]]) by {
            assert(front[i] == keys[i]);
        }
        let key = keys.last();
        assert(keys[keys.len() - 1] == key);
        lemma_no_component(themes, plugins, front);
        let variants = textmap::sorted_keys(themes[key].variant_props);
        textmap::sorted_lists(themes[key].variant_props.dom());
        assert forall|i: int| 0 <= i < variants.len() implies themes[key].variant_props.dom().contains(
            #[trigger] variants[i],
        ) by {
            assert(variants.contains(variants[i]));
        }
        lemma_no_variant(themes, plugins, key, variants);
        let sizes = textmap::sorted_keys(themes[key].size_props);
        textmap::sorted_lists(themes[key].size_props.dom());
        assert forall|i: int| 0 <= i < sizes.len() implies themes[key].size_props.dom().contains(
            #[trigger] sizes[i],
        ) by {
            assert(sizes.contains(sizes[i]));
        }
        lemma_no_size(themes, plugins, key, sizes);
    }
}

/// Of a theme that owns every token and whose components have and define all that they declare nothing is
/// reported.
pub proof fn complete_theme_misses_nothing(record: RecordModel, plugins: Plugins)
    requires
        forall|i: int|
            0 <= i < token_theme::token_theme_keys().len() ==> record.token_overrides.contains(
                #[trigger] token_theme::token_theme_keys()[i],
            ),
        record.component_themes.dom().finite(),
        forall|key: Seq<char>| #[trigger]
            record.component_themes.dom().contains(key) ==> is_complete(record.component_themes, plugins, key)
                && can_be_listed(record.component_themes[key]),
    ensures
        missing_values(record, plugins).len() == 0,
{
    lemma_no_token(token_theme::token_theme_keys(), record.token_overrides);
    let themes = record.component_themes;
    let keys = textmap::sorted_keys(themes);
    textmap::sorted_lists(themes.dom());
    assert forall|i: int| 0 <= i < keys.len() implies is_complete(themes, plugins, #[trigger] keys[i])
        && can_be_listed(themes[keys[i]]) by {
        assert(keys.contains(keys[i]));
        assert(themes.dom().contains(keys[i]));
    }
    lemma_no_component(themes, plugins, keys);
}

/// A property that no component marks for any variant is defined for none.
pub proof fn unmarked_is_undefined(
    themes: Themes,
    plugins: Plugins,
    key: Seq<char>,
    variant: Seq<char>,
    state: Seq<char>,
    prop: Seq<char>,
)
    requires
        forall|k: Seq<char>, v: Seq<char>, s: Seq<char>| !#[trigger] marks(themes, k, v, s, prop),
    ensures
        !variant_defined(themes, plugins, key, variant, state, prop),
{
    if variant_defined(themes, plugins, key, variant, state, prop) {
        let (i, j) = choose|i: nat, j: nat| #[trigger]
            defines(themes, plugins, key, variant, state, prop, i, j);
        assert(defines(themes, plugins, key, variant, state, prop, i, j));
    }
}

/// A size's property is defined where the component marks it for the size or for the Common row.
pub proof fn marked_size_is_defined(
    themes: Themes,
    plugins: Plugins,
    key: Seq<char>,
    row: Seq<char>,
    size: Seq<char>,
    prop: Seq<char>,
)
    requires
        themes.dom().contains(key),
        row == size || row == DEFAULT_SIZE_KEY@,
        themes[key].size_overrides.dom().contains(row),
        themes[key].size_overrides[row].contains(prop),
    ensures
        size_defined(themes, plugins, key, size, prop),
{
    assert(ancestor(themes, plugins, key, 0) == Some(key));
}

/// A size's property that no component marks for any size is defined for none.
pub proof fn unmarked_size_is_undefined(
    themes: Themes,
    plugins: Plugins,
    key: Seq<char>,
    size: Seq<char>,
    prop: Seq<char>,
)
    requires
        forall|k: Seq<char>, s: Seq<char>| #[trigger]
            themes[k].size_overrides.dom().contains(s) ==> !themes[k].size_overrides[s].contains(prop),
    ensures
        !size_defined(themes, plugins, key, size, prop),
{
}

/// A variant's property is defined in every state where the component marks it for the normal state,
/// of the variant or of its Common variant, and in the state that it is marked for.
pub proof fn marked_variant_is_defined(
    themes: Themes,
    plugins: Plugins,
    key: Seq<char>,
    row: Seq<char>,
    marked: Seq<char>,
    variant: Seq<char>,
    state: Seq<char>,
    prop: Seq<char>,
)
    requires
        themes.dom().contains(key),
        row == variant && (marked == state || marked == NORMAL_STATE_KEY@) || themes[key].common_variant_key
            == Some(row) && marked == NORMAL_STATE_KEY@,
        themes[key].variant_overrides.dom().contains(row),
        themes[key].variant_overrides[row].dom().contains(marked),
        themes[key].variant_overrides[row][marked].contains(prop),
    ensures
        variant_defined(themes, plugins, key, variant, state, prop),
{
    assert(ancestor(themes, plugins, key, 0) == Some(key));
    assert(defines(themes, plugins, key, variant, state, prop, 0, 0));
}

} // verus!
