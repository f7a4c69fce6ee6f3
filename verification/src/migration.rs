//! What becomes of older plugin definitions: their own values stay, old names give way to current ones,
//! and the current schema says what there is.

use vstd::prelude::*;
use crate::loader::{self, Defaults};
use crate::schema::{DefaultModel, PluginModel, PropModel, Raw};
use crate::storage;
use crate::textmap;

verus! {

/// An entry that is moved keeps its value under its new key, unless that key is taken; its old key is
/// free, and every other entry stays.
pub proof fn moved_entry_keeps_value(m: Defaults, from: Seq<char>, to: Seq<char>, other: Seq<char>)
    requires
        from != to,
    ensures
        ({
            let moved = loader::key_moved(m, from, to);
            &&& !moved.dom().contains(from)
            &&& m.dom().contains(to) ==> moved.dom().contains(to) && moved[to] == m[to]
            &&& m.dom().contains(from) && !m.dom().contains(to) ==> moved.dom().contains(to) && moved[to] == m[from]
            &&& !m.dom().contains(from) && !m.dom().contains(to) ==> !moved.dom().contains(to)
            &&& other != from && other != to ==> (moved.dom().contains(other) <==> m.dom().contains(other))
                && moved[other] == m[other]
        }),
{
}

proof fn lemma_old_names()
    ensures
        "outline"@ != "tertiary"@,
{
    reveal_strlit("outline");
    reveal_strlit("tertiary");
    assert("outline"@.len() == 7);
    assert("tertiary"@.len() == 8);
}

/// What a default says for a state.
pub open spec fn said(d: DefaultModel, state: Seq<char>) -> Option<Raw> {
    match d {
        DefaultModel::Nested(m) => if m.dom().contains(state) {
            Some(m[state])
        } else {
            None
        },
        DefaultModel::Direct(v) => Some(v),
    }
}

/// The variant `outline` is called `tertiary`, at its place among the others; there is no state
/// `loading`; every other variant and state is as it was.
pub proof fn old_names_give_way(p: PluginModel, i: int, state: Seq<char>)
    ensures
        ({
            let q = loader::current_names(p);
            &&& q.variants.len() == p.variants.len()
            &&& 0 <= i < p.variants.len() ==> q.variants[i] == (if p.variants[i] == "outline"@ {
                "tertiary"@
            } else {
                p.variants[i]
            })
            &&& q.states.contains(state) <==> p.states.contains(state) && state != "loading"@
            &&& q.component == p.component && q.extends == p.extends && q.sizes == p.sizes && q.size_props
                == p.size_props
        }),
{
    let keep = |s: Seq<char>| s != "loading"@;
    broadcast use vstd::seq_lib::group_filter_ensures;

    let kept = p.states.filter(keep);
    if kept.contains(state) {
        let k = choose|k: int| 0 <= k < kept.len() && kept[k] == state;
        lemma_filtered_is_of(p.states, keep, k);
    }
    if p.states.contains(state) && state != "loading"@ {
        let k = choose|k: int| 0 <= k < p.states.len() && p.states[k] == state;
        assert(keep(p.states[k]));
        assert(kept.contains(p.states[k]));
    }
}

proof fn lemma_filtered_is_of<T>(s: Seq<T>, keep: spec_fn(T) -> bool, k: int)
    requires
        0 <= k < s.filter(keep).len(),
    ensures
        s.contains(s.filter(keep)[k]),
        keep(s.filter(keep)[k]),
    decreases s.len(),
{
    reveal(Seq::filter);
    if s.len() > 0 {
        let front = s.drop_last().filter(keep);
        if k < front.len() {
            lemma_filtered_is_of(s.drop_last(), keep, k);
            assert(s.filter(keep)[k] == front[k]);
            let j = choose|j: int| 0 <= j < s.drop_last().len() && s.drop_last()[j] == front[k];
            assert(s[j] == front[k]);
        } else {
            assert(s[s.len() - 1] == s.last());
        }
    }
}

/// The defaults of a property for `outline` are those for `tertiary`, where it has none for that; what
/// is said for a state other than `loading` stays, and nothing is said for `loading` alone.
pub proof fn old_defaults_give_way(p: PropModel, variant: Seq<char>, state: Seq<char>)
    requires
        variant != "outline"@,
        state != "loading"@,
    ensures
        ({
            let q = loader::current_prop(p);
            let from = if variant == "tertiary"@ && !p.defaults.dom().contains("tertiary"@) {
                "outline"@
            } else {
                variant
            };
            &&& q.name == p.name && q.prop_type == p.prop_type
            &&& !q.defaults.dom().contains("outline"@)
            &&& q.defaults.dom().contains(variant) <==> p.defaults.dom().contains(from)
            &&& p.defaults.dom().contains(from) ==> said(q.defaults[variant], state) == said(
                p.defaults[from],
                state,
            )
            &&& q.defaults.dom().contains(variant) ==> (q.defaults[variant] matches DefaultModel::Nested(m)
                ==> !m.dom().contains("loading"@))
        }),
{
    lemma_old_names();
    let moved = loader::key_moved(p.defaults, "outline"@, "tertiary"@);
    moved_entry_keeps_value(p.defaults, "outline"@, "tertiary"@, variant);
}

/// Defaults that are filled up keep their own entries, and get the other's for the variants that they
/// have none for.
pub proof fn filled_keeps_own(m: Defaults, from: Defaults, variants: Seq<Seq<char>>, k: Seq<char>)
    ensures
        ({
            let all = loader::filled(m, from, variants);
            &&& m.dom().contains(k) ==> all.dom().contains(k) && all[k] == m[k]
            &&& !m.dom().contains(k) && variants.contains(k) && from.dom().contains(k) ==> all.dom().contains(k)
                && all[k] == from[k]
            &&& !m.dom().contains(k) && !variants.contains(k) ==> !all.dom().contains(k)
        }),
{
}

proof fn lemma_migrated_variants(
    local: Defaults,
    old_variants: Seq<Seq<char>>,
    fallback: Defaults,
    targets: Seq<Seq<char>>,
    n: int,
    i: int,
)
    requires
        targets.no_duplicates(),
        0 <= i < targets.len(),
        0 <= n <= targets.len(),
    ensures
        ({
            let all = loader::migrated_variants(local, old_variants, fallback, targets, n);
            let own = loader::migrated_variant(local, old_variants, fallback, targets, i);
            &&& all.dom().contains(targets[i]) <==> i < n && own is Some
            &&& i < n && own is Some ==> all[targets[i]] == own->Some_0
        }),
    decreases n,
{
    if n > 0 {
        lemma_migrated_variants(local, old_variants, fallback, targets, n - 1, i);
        if i != n - 1 {
            assert(targets[n - 1] != targets[i]);
        }
    }
}

/// Of a variant of the current schema an older definition keeps its own default; else it takes that of
/// the variant at the same place, where it has as many; and where it has any default, every variant
/// gets one. A definition without defaults has those of the schema.
pub proof fn migrated_variant_keeps_own(
    local: Defaults,
    old_variants: Seq<Seq<char>>,
    fallback: Defaults,
    targets: Seq<Seq<char>>,
    i: int,
)
    requires
        targets.no_duplicates(),
        0 <= i < targets.len(),
        local.dom().finite(),
    ensures
        ({
            let all = loader::migrated_variants(local, old_variants, fallback, targets, targets.len() as int);
            let v = targets[i];
            &&& local.dom().contains(v) ==> all.dom().contains(v) && all[v] == local[v]
            &&& !local.dom().contains(v) && old_variants.len() == targets.len() && local.dom().contains(
                old_variants[i],
            ) ==> all.dom().contains(v) && all[v] == local[old_variants[i]]
            &&& local.dom().len() > 0 ==> all.dom().contains(v) && exists|k: Seq<char>| #[trigger]
                local.dom().contains(k) && all[v] == local[k]
            &&& local.dom().len() == 0 ==> (all.dom().contains(v) <==> fallback.dom().contains(v)) && (
            fallback.dom().contains(v) ==> all[v] == fallback[v])
        }),
{
    let v = targets[i];
    let all = loader::migrated_variants(local, old_variants, fallback, targets, targets.len() as int);
    lemma_migrated_variants(local, old_variants, fallback, targets, targets.len() as int, i);
    if local.dom().len() > 0 {
        lemma_any(local);
        let own = loader::migrated_variant(local, old_variants, fallback, targets, i)->Some_0;
        let k = if local.dom().contains(v) {
            v
        } else if old_variants.len() == targets.len() && local.dom().contains(old_variants[i]) {
            old_variants[i]
        } else {
            textmap::sorted_keys(local)[0]
        };
        assert(local.dom().contains(k) && all[v] == local[k]);
    } else {
        assert(local.dom() =~= Set::<Seq<char>>::empty());
    }
}

proof fn lemma_any(m: Defaults)
    requires
        m.dom().finite(),
        m.dom().len() > 0,
    ensures
        m.dom() != Set::<Seq<char>>::empty(),
        m.dom().contains(textmap::sorted_keys(m)[0]),
{
    textmap::sorted_lists(m.dom());
    let k = m.dom().choose();
    assert(m.dom().contains(k));
    let keys = textmap::sorted_keys(m);
    assert(keys.contains(k));
    assert(keys.contains(keys[0]));
}

proof fn lemma_migrated_sizes(
    local: Defaults,
    old_sizes: Seq<Seq<char>>,
    fallback: Defaults,
    targets: Seq<Seq<char>>,
    n: int,
    i: int,
)
    requires
        targets.no_duplicates(),
        0 <= i < targets.len(),
        0 <= n <= targets.len(),
    ensures
        ({
            let all = loader::migrated_sizes(local, old_sizes, fallback, targets, n);
            let own = loader::migrated_size(local, old_sizes, fallback, targets, i);
            &&& all.dom().contains(targets[i]) <==> i < n && own is Some
            &&& i < n && own is Some ==> all[targets[i]] == own->Some_0
        }),
    decreases n,
{
    if n > 0 {
        lemma_migrated_sizes(local, old_sizes, fallback, targets, n - 1, i);
        if i != n - 1 {
            assert(targets[n - 1] != targets[i]);
        }
    }
}

/// Of a size of the current schema an older definition keeps its own default; else it takes that of the
/// size's other name; and where it has any default, every size gets one.
pub proof fn migrated_size_keeps_own(
    local: Defaults,
    old_sizes: Seq<Seq<char>>,
    fallback: Defaults,
    targets: Seq<Seq<char>>,
    i: int,
    alias: Seq<char>,
)
    requires
        targets.no_duplicates(),
        0 <= i < targets.len(),
        local.dom().finite(),
    ensures
        ({
            let all = loader::migrated_sizes(local, old_sizes, fallback, targets, targets.len() as int);
            let z = targets[i];
            &&& local.dom().contains(z) ==> all.dom().contains(z) && all[z] == local[z]
            &&& !local.dom().contains(z) && z != "default"@ && loader::size_alias(z) == Some(alias)
                && local.dom().contains(alias) ==> all.dom().contains(z) && all[z] == local[alias]
            &&& local.dom().len() > 0 ==> all.dom().contains(z)
        }),
{
    lemma_migrated_sizes(local, old_sizes, fallback, targets, targets.len() as int, i);
    if local.dom().len() > 0 {
        lemma_any(local);
    }
}

/// The other name of a size's other name is the size again, and no size is its own other name.
pub proof fn size_names_are_paired(size: Seq<char>, alias: Seq<char>)
    requires
        loader::size_alias(size) == Some(alias),
    ensures
        loader::size_alias(alias) == Some(size),
        alias != size,
{
    reveal_strlit("sm");
    reveal_strlit("md");
    reveal_strlit("lg");
    reveal_strlit("small");
    reveal_strlit("medium");
    reveal_strlit("large");
    assert("sm"@.len() == 2 && "md"@.len() == 2 && "lg"@.len() == 2);
    assert("small"@.len() == 5 && "medium"@.len() == 6 && "large"@.len() == 5);
    assert("sm"@[0] != "md"@[0]);
    assert("lg"@[0] != "md"@[0]);
    assert("lg"@[0] != "sm"@[0]);
    assert("small"@[0] != "large"@[0]);
}

/// A default for given states says what it said for those that it knew, and for every other one of them
/// what it said for the normal state, where it said anything of that; it says nothing of any other
/// state.
pub proof fn given_states_are_said(m: Map<Seq<char>, Raw>, states: Seq<Seq<char>>, state: Seq<char>)
    ensures
        ({
            let all = loader::for_states(DefaultModel::Nested(m), states)->Nested_0;
            &&& loader::for_states(DefaultModel::Nested(m), states) is Nested
            &&& states.contains(state) && m.dom().contains(state) ==> all.dom().contains(state) && all[state]
                == m[state]
            &&& states.contains(state) && !m.dom().contains(state) && m.dom().contains("normal"@)
                ==> all.dom().contains(state) && all[state] == m["normal"@]
            &&& !states.contains(state) ==> !all.dom().contains(state)
        }),
{
}

/// Whether a definition says of its variants, states and sizes what there is.
pub open spec fn is_schema(d: PluginModel) -> bool {
    &&& d.extends is None
    &&& d.variants.len() > 0
    &&& d.variant_props.len() > 0
    &&& d.states.len() > 0
    &&& d.sizes.len() > 0
    &&& d.size_props.len() > 0
}

/// A definition that is brought up to date has the variants, states and sizes of the current schema.
pub proof fn schema_says_what_there_is(name: Seq<char>, p: PluginModel, d: PluginModel)
    requires
        is_schema(loader::current_names(d)),
        name != "icon"@,
        name != "image"@,
    ensures
        ({
            let q = loader::up_to_date(name, p, Some(d));
            &&& q.variants == loader::current_names(d).variants
            &&& q.states == loader::current_names(d).states
            &&& q.sizes == d.sizes
        }),
{
}

/// A size property that is not as it was shipped stays as it is, and so does every property of another
/// name.
pub proof fn customised_sizes_stay(
    props: Seq<PropModel>,
    name: Seq<char>,
    from: (i32, i32, i32),
    to: (i32, i32, i32),
    i: int,
)
    requires
        0 <= i < props.len(),
        props[i].name != name || !loader::are_three_sizes(props[i].defaults, from.0, from.1, from.2),
    ensures
        loader::sizes_rewritten(props, name, from, to).len() == props.len(),
        loader::sizes_rewritten(props, name, from, to)[i] == props[i],
{
    storage::prop_index_is(props, name);
}

} // verus!
