//! Inheritance between plugin definitions: `extends`.

use vstd::prelude::*;
use crate::chain;
use crate::loader::BuiltinComponentSpec;
use crate::schema::{self, PluginDefinition, PluginModel, PropDefinition, PropModel};
use crate::storage::{self, find_prop};
use crate::style::copy_text;
use crate::text::owned;
use crate::textmap::{self, duplicate_all, Duplicate, TextMap, TextSet};

verus! {

/// Plugin definitions by component name.
pub type Plugins = Map<Seq<char>, PluginModel>;

/// A child's list, or where it is empty the parent's.
pub open spec fn list_or(child: Seq<Seq<char>>, parent: Seq<Seq<char>>) -> Seq<Seq<char>> {
    if child.len() == 0 {
        parent
    } else {
        child
    }
}

/// The parent's properties with the child's put over them by name, and the child's new ones behind
/// them.
pub open spec fn merged_props(child: Seq<PropModel>, parent: Seq<PropModel>) -> Seq<PropModel>
    decreases child.len(),
{
    if child.len() == 0 {
        parent
    } else {
        let front = merged_props(child.drop_last(), parent);
        let i = storage::prop_index(front, child.last().name);
        if i < front.len() {
            front.update(i, child.last())
        } else {
            front.push(child.last())
        }
    }
}

/// A child's definition on top of its parent's: the child wins for any list that it gives and for any
/// property that it declares; the rest is inherited. The parent is kept as the parent key.
pub open spec fn merged_plugin(child: PluginModel, parent: PluginModel) -> PluginModel {
    PluginModel {
        component: child.component,
        extends: None,
        parent_key: schema::or_else(child.extends, child.parent_key),
        variants: list_or(child.variants, parent.variants),
        states: list_or(child.states, parent.states),
        sizes: list_or(child.sizes, parent.sizes),
        variant_props: merged_props(child.variant_props, parent.variant_props),
        size_props: merged_props(child.size_props, parent.size_props),
    }
}

fn take_list(child: &Vec<String>, parent: &Vec<String>) -> (r: Vec<String>)
    ensures
        textmap::views(r@) == list_or(textmap::views(child@), textmap::views(parent@)),
        child@.len() > 0 ==> textmap::views(r@) == textmap::views(child@),
        child@.len() == 0 ==> textmap::views(r@) == textmap::views(parent@),
{
    if child.len() == 0 {
        duplicate_all(parent)
    } else {
        duplicate_all(child)
    }
}

fn merge_props(child: &Vec<PropDefinition>, parent: &Vec<PropDefinition>) -> (r: Vec<PropDefinition>)
    ensures
        textmap::views(r@) == merged_props(textmap::views(child@), textmap::views(parent@)),
{
    let mut out = duplicate_all(parent);
    let ghost all = textmap::views(child@);
    for k in 0..child.len()
        invariant
            all == textmap::views(child@),
            textmap::views(out@) == merged_props(all.take(k as int), textmap::views(parent@)),
    {
        let ghost before = textmap::views(out@);
        proof {
            assert(all.take(k + 1).drop_last() =~= all.take(k as int));
            assert(all.take(k + 1).last() == all[k as int]);
        }
        match find_prop(&out, child[k].name.as_str()) {
            Some(i) => {
                out[i] = child[k].duplicate();
                assert(textmap::views(out@) =~= before.update(i as int, all[k as int]));
            },
            None => {
                out.push(child[k].duplicate());
                assert(textmap::views(out@) =~= before.push(all[k as int]));
            },
        }
    }
    assert(all.take(child@.len() as int) =~= all);
    out
}

/// Merge a child plugin on top of its resolved parent: the child wins for any non-empty list and for
/// any prop it re-declares by name; otherwise the parent's value is inherited verbatim.
pub fn merge_with_parent(child: PluginDefinition, parent: &PluginDefinition) -> (r: PluginDefinition)
    ensures
        r@ == merged_plugin(child@, parent@),
{
    let parent_key = match &child.extends {
        Some(e) => Some(e.clone()),
        None => copy_text(&child.parent_key),
    };
    PluginDefinition {
        extends: None,
        parent_key,
        variants: take_list(&child.variants, &parent.variants),
        states: take_list(&child.states, &parent.states),
        sizes: take_list(&child.sizes, &parent.sizes),
        variant_props: merge_props(&child.variant_props, &parent.variant_props),
        size_props: merge_props(&child.size_props, &parent.size_props),
        component: child.component,
    }
}

/// The error for a circle of `extends`.
pub open spec fn cycle_error(component: Seq<char>) -> Seq<char> {
    "plugin extends cycle detected at '"@ + component + "'"@
}

/// The error for an `extends` that names no plugin.
pub open spec fn unknown_error(component: Seq<char>, parent: Seq<char>) -> Seq<char> {
    "plugin '"@ + component + "' extends unknown plugin '"@ + parent + "'"@
}

/// A definition with everything it inherits, given the components on the way to it. A circle, or a
/// parent that is not there, is an error. `budget` bounds the number of ancestors.
pub open spec fn extended(
    p: PluginModel,
    by_name: Plugins,
    visited: Set<Seq<char>>,
    budget: nat,
) -> Result<PluginModel, Seq<char>>
    decreases budget,
{
    if visited.contains(p.component) {
        Err(cycle_error(p.component))
    } else {
        match p.extends {
            None => Ok(p),
            Some(parent) => if !by_name.dom().contains(parent) {
                Err(unknown_error(p.component, parent))
            } else if budget == 0 {
                Err(cycle_error(p.component))
            } else {
                match extended(
                    by_name[parent],
                    by_name,
                    visited.insert(p.component),
                    (budget - 1) as nat,
                ) {
                    Ok(q) => Ok(merged_plugin(p, q)),
                    Err(e) => Err(e),
                }
            },
        }
    }
}

/// A definition with everything it inherits. There are no more different ancestors than plugins.
pub open spec fn fully_extended(p: PluginModel, by_name: Plugins) -> Result<PluginModel, Seq<char>> {
    extended(p, by_name, Set::empty(), by_name.dom().len() + 1)
}

/// The plugins whose components have not been visited.
spec fn fresh(by_name: Plugins, visited: Set<Seq<char>>) -> Set<Seq<char>> {
    by_name.dom().filter(|k: Seq<char>| !visited.contains(by_name[k].component))
}

proof fn lemma_fresh_shrinks(by_name: Plugins, visited: Set<Seq<char>>, key: Seq<char>)
    requires
        by_name.dom().finite(),
        by_name.dom().contains(key),
        !visited.contains(by_name[key].component),
    ensures
        fresh(by_name, visited).finite(),
        fresh(by_name, visited.insert(by_name[key].component)).finite(),
        fresh(by_name, visited.insert(by_name[key].component)).len() < fresh(by_name, visited).len(),
{
    let small = fresh(by_name, visited.insert(by_name[key].component));
    let big = fresh(by_name, visited);
    vstd::set_lib::lemma_len_subset(big, by_name.dom());
    assert(small.subset_of(big.remove(key)));
    vstd::set_lib::lemma_len_subset(small, big.remove(key));
}

proof fn lemma_budget(
    p: PluginModel,
    by_name: Plugins,
    visited: Set<Seq<char>>,
    a: nat,
    b: nat,
)
    requires
        by_name.dom().finite(),
        a > fresh(by_name, visited.insert(p.component)).len(),
        b > fresh(by_name, visited.insert(p.component)).len(),
    ensures
        extended(p, by_name, visited, a) == extended(p, by_name, visited, b),
    decreases a,
{
    if !visited.contains(p.component) {
        if let Some(parent) = p.extends {
            if by_name.dom().contains(parent) {
                let q = by_name[parent];
                let next = visited.insert(p.component);
                if next.contains(q.component) {
                    reveal_with_fuel(extended, 2);
                } else {
                    lemma_fresh_shrinks(by_name, next, parent);
                    lemma_budget(q, by_name, next, (a - 1) as nat, (b - 1) as nat);
                }
            }
        }
    }
}

fn cycle_message(component: &str) -> (r: String)
    ensures
        r@ == cycle_error(component@),
{
    let mut out = owned("plugin extends cycle detected at '");
    out.push_str(component);
    out.push_str("'");
    out
}

fn follow_extends(plugin: PluginDefinition, by_name: &TextMap<PluginDefinition>, visited: TextSet) -> (r:
    Result<PluginDefinition, String>)
    requires
        by_name@.dom().finite(),
        !visited@.contains(plugin@.component),
    ensures
        match r {
            Ok(p) => extended(plugin@, by_name@, visited@, by_name@.dom().len() + 1) == Ok::<
                PluginModel,
                Seq<char>,
            >(p@),
            Err(e) => extended(plugin@, by_name@, visited@, by_name@.dom().len() + 1) == Err::<
                PluginModel,
                Seq<char>,
            >(e@),
        },
    decreases fresh(by_name@, visited@.insert(plugin@.component)).len(),
{
    let mut visited = visited;
    let ghost before = visited@;
    let parent_name = match &plugin.extends {
        Some(e) => e.clone(),
        None => {
            return Ok(plugin);
        },
    };
    match by_name.get(parent_name.as_str()) {
        None => {
            let mut out = owned("plugin '");
            out.push_str(plugin.component.as_str());
            out.push_str("' extends unknown plugin '");
            out.push_str(parent_name.as_str());
            out.push_str("'");
            Err(out)
        },
        Some(parent) => {
            visited.insert(plugin.component.clone());
            let ghost n = by_name@.dom().len() + 1;
            proof {
                let next = before.insert(plugin@.component);
                vstd::set_lib::lemma_len_subset(fresh(by_name@, next), by_name@.dom());
                assert(visited@ =~= next);
            }
            if visited.contains(parent.component.as_str()) {
                proof {
                    reveal_with_fuel(extended, 2);
                }
                return Err(cycle_message(parent.component.as_str()));
            }
            proof {
                lemma_fresh_shrinks(by_name@, visited@, parent_name@);
                lemma_budget(parent@, by_name@, visited@, n as nat, (n - 1) as nat);
            }
            match follow_extends(parent.duplicate(), by_name, visited) {
                Ok(resolved) => Ok(merge_with_parent(plugin, &resolved)),
                Err(e) => Err(e),
            }
        },
    }
}

/// Resolves a plugin's `extends` with everything that it inherits.
pub fn resolve_extends_chain(plugin: PluginDefinition, by_name: &TextMap<PluginDefinition>) -> (r: Result<
    PluginDefinition,
    String,
>)
    ensures
        match r {
            Ok(p) => fully_extended(plugin@, by_name@) == Ok::<PluginModel, Seq<char>>(p@),
            Err(e) => fully_extended(plugin@, by_name@) == Err::<PluginModel, Seq<char>>(e@),
        },
{
    proof {
        textmap::keys_finite(*by_name);
    }
    follow_extends(plugin, by_name, TextSet::new())
}

/// The models of built-in components with their definitions.
pub open spec fn plugin_views(v: Seq<(BuiltinComponentSpec, PluginDefinition)>) -> Seq<PluginModel> {
    Seq::new(v.len(), |i: int| v[i].1@)
}

/// Definitions by component name; of two with one name the later one counts.
pub open spec fn by_component(list: Seq<PluginModel>) -> Plugins
    decreases list.len(),
{
    if list.len() == 0 {
        Map::empty()
    } else {
        by_component(list.drop_last()).insert(list.last().component, list.last())
    }
}

/// The first `n` definitions with everything they inherit, or the first error.
pub open spec fn all_extended(list: Seq<PluginModel>, by_name: Plugins, n: int) -> Result<
    Seq<PluginModel>,
    Seq<char>,
>
    decreases n,
{
    if n <= 0 {
        Ok(Seq::empty())
    } else {
        match all_extended(list, by_name, n - 1) {
            Err(e) => Err(e),
            Ok(front) => match fully_extended(list[n - 1], by_name) {
                Ok(p) => Ok(front.push(p)),
                Err(e) => Err(e),
            },
        }
    }
}

/// Resolve `extends:` inheritance for every plugin. Each child inherits its parent's
/// variants/states/sizes and prop definitions; the child overrides any of those by re-declaring them
/// (lists by being non-empty, props by name).
pub fn apply_inheritance(plugins: Vec<(BuiltinComponentSpec, PluginDefinition)>) -> (r: Result<
    Vec<(BuiltinComponentSpec, PluginDefinition)>,
    String,
>)
    ensures
        match r {
            Ok(v) => all_extended(
                plugin_views(plugins@),
                by_component(plugin_views(plugins@)),
                plugins@.len() as int,
            ) == Ok::<Seq<PluginModel>, Seq<char>>(plugin_views(v@)) && v@.len() == plugins@.len()
                && forall|i: int| 0 <= i < v@.len() ==> (#[trigger] v@[i]).0 == plugins@[i].0,
            Err(e) => all_extended(
                plugin_views(plugins@),
                by_component(plugin_views(plugins@)),
                plugins@.len() as int,
            ) == Err::<Seq<PluginModel>, Seq<char>>(e@),
        },
{
    let ghost list = plugin_views(plugins@);
    let mut by_name: TextMap<PluginDefinition> = TextMap::new();
    for i in 0..plugins.len()
        invariant
            list == plugin_views(plugins@),
            by_name@ == by_component(list.take(i as int)),
    {
        proof {
            assert(list.take(i + 1).drop_last() =~= list.take(i as int));
            assert(list.take(i + 1).last() == list[i as int]);
        }
        by_name.insert(plugins[i].1.component.clone(), plugins[i].1.duplicate());
    }
    assert(list.take(plugins@.len() as int) =~= list);
    let mut out: Vec<(BuiltinComponentSpec, PluginDefinition)> = Vec::new();
    assert(plugin_views(out@) =~= Seq::<PluginModel>::empty());
    for i in 0..plugins.len()
        invariant
            list == plugin_views(plugins@),
            by_name@ == by_component(list),
            out@.len() == i,
            forall|j: int| 0 <= j < i ==> (#[trigger] out@[j]).0 == plugins@[j].0,
            all_extended(list, by_name@, i as int) == Ok::<Seq<PluginModel>, Seq<char>>(
                plugin_views(out@),
            ),
    {
        match resolve_extends_chain(plugins[i].1.duplicate(), &by_name) {
            Ok(p) => {
                let ghost before = plugin_views(out@);
                out.push((plugins[i].0, p));
                assert(plugin_views(out@) =~= before.push(p@));
            },
            Err(e) => {
                proof {
                    lemma_error_stays(list, by_name@, i + 1, plugins@.len() as int);
                }
                return Err(e);
            },
        }
    }
    Ok(out)
}

proof fn lemma_error_stays(list: Seq<PluginModel>, by_name: Plugins, n: int, m: int)
    requires
        0 < n <= m,
        all_extended(list, by_name, n) is Err,
    ensures
        all_extended(list, by_name, m) == all_extended(list, by_name, n),
    decreases m,
{
    if n < m {
        lemma_error_stays(list, by_name, n, m - 1);
    }
}

// ---------------------------------------------------------------------------------------------
// What holds of inheritance
// ---------------------------------------------------------------------------------------------
/// The definition that a definition extends.
pub open spec fn parent_of(by_name: Plugins) -> spec_fn(PluginModel) -> Option<PluginModel> {
    |p: PluginModel|
        match p.extends {
            Some(e) => if by_name.dom().contains(e) {
                Some(by_name[e])
            } else {
                None
            },
            None => None,
        }
}

/// A resolved definition extends nothing any more and keeps its component; where it extended another,
/// that one is its parent key.
pub proof fn resolved_extends_nothing(
    p: PluginModel,
    by_name: Plugins,
    visited: Set<Seq<char>>,
    budget: nat,
)
    requires
        extended(p, by_name, visited, budget) is Ok,
    ensures
        extended(p, by_name, visited, budget)->Ok_0.extends is None,
        extended(p, by_name, visited, budget)->Ok_0.component == p.component,
        p.extends is Some ==> extended(p, by_name, visited, budget)->Ok_0.parent_key == p.extends,
{
}

/// A circle of `extends` is refused: what is resolved has an ancestor that extends nothing.
pub proof fn circular_extends_is_refused(
    p: PluginModel,
    by_name: Plugins,
    visited: Set<Seq<char>>,
    budget: nat,
)
    requires
        !chain::stops(parent_of(by_name), p),
    ensures
        extended(p, by_name, visited, budget) is Err,
    decreases budget,
{
    let next = parent_of(by_name);
    if next(p) is None {
        assert(chain::walk(next, p, 0) == Some(p));
        assert(chain::stops_after(next, p, 0));
    } else {
        let q = next(p)->Some_0;
        chain::chain_end_of_rest(next, p, q);
        if budget > 0 {
            circular_extends_is_refused(
                q,
                by_name,
                visited.insert(p.component),
                (budget - 1) as nat,
            );
        }
    }
}

/// The last property of a name that the child declares wins; a name that it does not declare keeps
/// the parent's.
pub proof fn child_prop_wins(child: Seq<PropModel>, parent: Seq<PropModel>, name: Seq<char>)
    ensures
        storage::first_prop(merged_props(child, parent), name) == schema::or_else(
            storage::last_prop(child, name),
            storage::first_prop(parent, name),
        ),
    decreases child.len(),
{
    if child.len() > 0 {
        let front = merged_props(child.drop_last(), parent);
        let c = child.last();
        child_prop_wins(child.drop_last(), parent, name);
        storage::prop_index_is(front, c.name);
        storage::prop_index_is(front, name);
        let all = merged_props(child, parent);
        storage::prop_index_is(all, name);
        let i = storage::prop_index(front, c.name);
        let j = storage::prop_index(front, name);
        let k = storage::prop_index(all, name);
        if name == c.name {
            if i < front.len() {
                assert(all[i] == c);
                if k < i {
                    assert(all[k] == front[k]);
                }
            } else {
                assert(all[front.len() as int] == c);
                if k < front.len() {
                    assert(all[k] == front[k]);
                }
            }
        } else {
            if j < front.len() {
                assert(all[j] == front[j]);
                if k < j {
                    assert(all[k] == front[k] || all[k] == c);
                }
            } else if k < all.len() {
                assert(all[k].name == name);
                if k < front.len() && k != i {
                    assert(all[k] == front[k]);
                }
            }
        }
    }
}

/// A list that the child gives is the list of the merged definition, whatever the parent has. Only a
/// list that the child leaves empty is taken from the parent.
pub proof fn child_list_wins(child: PluginModel, parent: PluginModel)
    ensures
        child.variants.len() > 0 ==> merged_plugin(child, parent).variants == child.variants,
        child.states.len() > 0 ==> merged_plugin(child, parent).states == child.states,
        child.sizes.len() > 0 ==> merged_plugin(child, parent).sizes == child.sizes,
        child.variants.len() == 0 ==> merged_plugin(child, parent).variants == parent.variants,
        child.states.len() == 0 ==> merged_plugin(child, parent).states == parent.states,
        child.sizes.len() == 0 ==> merged_plugin(child, parent).sizes == parent.sizes,
{
}

/// The parent's properties stay in their places, each as the parent or the child declares it, and what
/// the child adds stands behind them.
pub proof fn parent_props_keep_their_places(child: Seq<PropModel>, parent: Seq<PropModel>, i: int)
    requires
        0 <= i < parent.len(),
    ensures
        merged_props(child, parent).len() >= parent.len(),
        merged_props(child, parent)[i].name == parent[i].name,
        merged_props(child, parent)[i] == parent[i] || child.contains(merged_props(child, parent)[i]),
    decreases child.len(),
{
    if child.len() > 0 {
        parent_props_keep_their_places(child.drop_last(), parent, i);
        let front = merged_props(child.drop_last(), parent);
        storage::prop_index_is(front, child.last().name);
        assert(child[child.len() - 1] == child.last());
        assert(child.contains(child.last()));
        if child.drop_last().contains(front[i]) {
            let k = choose|k: int| 0 <= k < child.drop_last().len() && child.drop_last()[k] == front[i];
            assert(child[k] == front[i]);
        }
    }
}

/// A merged definition has the properties of both and no others.
pub proof fn merged_props_are_of_either(child: Seq<PropModel>, parent: Seq<PropModel>, i: int)
    requires
        0 <= i < merged_props(child, parent).len(),
    ensures
        parent.contains(merged_props(child, parent)[i]) || child.contains(merged_props(child, parent)[i]),
    decreases child.len(),
{
    if child.len() > 0 {
        let front = merged_props(child.drop_last(), parent);
        let all = merged_props(child, parent);
        storage::prop_index_is(front, child.last().name);
        assert(child[child.len() - 1] == child.last());
        if i < front.len() && all[i] == front[i] {
            merged_props_are_of_either(child.drop_last(), parent, i);
            if child.drop_last().contains(front[i]) {
                let k = choose|k: int| 0 <= k < child.drop_last().len() && child.drop_last()[k] == front[i];
                assert(child[k] == front[i]);
            }
        }
    } else {
        assert(parent[i] == merged_props(child, parent)[i]);
    }
}

/// A definition that is resolved takes after the definition that it names, itself resolved: for each
/// list its own where it gives one, and for each property its own declaration where it makes one.
pub proof fn resolved_takes_after_parent(p: PluginModel, by_name: Plugins, name: Seq<char>, prop: Seq<char>)
    requires
        by_name.dom().finite(),
        p.extends == Some(name),
        fully_extended(p, by_name) is Ok,
    ensures
        by_name.dom().contains(name),
        fully_extended(by_name[name], by_name) is Ok,
        ({
            let r = fully_extended(p, by_name)->Ok_0;
            let q = fully_extended(by_name[name], by_name)->Ok_0;
            &&& r.component == p.component
            &&& r.extends is None
            &&& r.parent_key == Some(name)
            &&& r.variants == (if p.variants.len() > 0 {
                p.variants
            } else {
                q.variants
            })
            &&& r.states == (if p.states.len() > 0 {
                p.states
            } else {
                q.states
            })
            &&& r.sizes == (if p.sizes.len() > 0 {
                p.sizes
            } else {
                q.sizes
            })
            &&& storage::first_prop(r.variant_props, prop) == schema::or_else(
                storage::last_prop(p.variant_props, prop),
                storage::first_prop(q.variant_props, prop),
            )
            &&& storage::first_prop(r.size_props, prop) == schema::or_else(
                storage::last_prop(p.size_props, prop),
                storage::first_prop(q.size_props, prop),
            )
        }),
{
    let n = by_name.dom().len();
    let q = by_name[name];
    let seen = Set::<Seq<char>>::empty().insert(p.component);
    let up = extended(q, by_name, seen, n);
    assert(up is Ok);
    assert(fresh(by_name, Set::empty()).subset_of(by_name.dom()));
    lemma_unvisited(q, by_name, seen, Set::empty(), n);
    vstd::set_lib::lemma_len_subset(fresh(by_name, Set::empty().insert(q.component)), by_name.dom());
    assert(!fresh(by_name, Set::empty().insert(q.component)).contains(name));
    vstd::set_lib::lemma_len_subset(
        fresh(by_name, Set::empty().insert(q.component)),
        by_name.dom().remove(name),
    );
    lemma_budget(q, by_name, Set::empty(), n, n + 1);
    child_prop_wins(p.variant_props, up->Ok_0.variant_props, prop);
    child_prop_wins(p.size_props, up->Ok_0.size_props, prop);
}

/// What is resolved beside some visited components is resolved the same without them.
proof fn lemma_unvisited(
    p: PluginModel,
    by_name: Plugins,
    visited: Set<Seq<char>>,
    fewer: Set<Seq<char>>,
    budget: nat,
)
    requires
        fewer.subset_of(visited),
        extended(p, by_name, visited, budget) is Ok,
    ensures
        extended(p, by_name, fewer, budget) == extended(p, by_name, visited, budget),
    decreases budget,
{
    if let Some(parent) = p.extends {
        lemma_unvisited(
            by_name[parent],
            by_name,
            visited.insert(p.component),
            fewer.insert(p.component),
            (budget - 1) as nat,
        );
    }
}

/// A definition that extends nothing is left as it is.
pub proof fn plain_definition_stays(p: PluginModel, by_name: Plugins)
    requires
        p.extends is None,
    ensures
        fully_extended(p, by_name) == Ok::<PluginModel, Seq<char>>(p),
{
}

/// A definition that extends one that is not there is refused.
pub proof fn unknown_parent_is_refused(p: PluginModel, by_name: Plugins, name: Seq<char>)
    requires
        p.extends == Some(name),
        !by_name.dom().contains(name),
    ensures
        fully_extended(p, by_name) is Err,
{
}

/// Resolving a list of definitions keeps their order: each is resolved on its own among all of them.
pub proof fn each_is_resolved_in_place(list: Seq<PluginModel>, by_name: Plugins, n: int, i: int)
    requires
        0 <= i < n <= list.len(),
        all_extended(list, by_name, n) is Ok,
    ensures
        all_extended(list, by_name, n)->Ok_0.len() == n,
        fully_extended(list[i], by_name) == Ok::<PluginModel, Seq<char>>(
            all_extended(list, by_name, n)->Ok_0[i],
        ),
    decreases n,
{
    if n > 1 {
        if i < n - 1 {
            each_is_resolved_in_place(list, by_name, n - 1, i);
        } else {
            each_is_resolved_in_place(list, by_name, n - 1, 0);
        }
    } else {
        assert(all_extended(list, by_name, 0) == Ok::<Seq<PluginModel>, Seq<char>>(Seq::empty()));
    }
}

/// A component name leads to the last definition of that component.
pub proof fn component_leads_to_last(list: Seq<PluginModel>, i: int)
    requires
        0 <= i < list.len(),
        forall|j: int| i < j < list.len() ==> (#[trigger] list[j]).component != list[i].component,
    ensures
        by_component(list).dom().contains(list[i].component),
        by_component(list)[list[i].component] == list[i],
    decreases list.len(),
{
    if i < list.len() - 1 {
        assert(list[list.len() - 1] == list.last());
        assert forall|j: int| i < j < list.drop_last().len() implies (#[trigger] list.drop_last()[j]).component
            != list[i].component by {
            assert(list.drop_last()[j] == list[j]);
        }
        assert(list.drop_last()[i] == list[i]);
        component_leads_to_last(list.drop_last(), i);
    }
}

/// A definition that declares nothing of its own is its parent's, but for its name.
pub proof fn pure_child_is_parent(child: PluginModel, parent: PluginModel)
    requires
        child.variants.len() == 0,
        child.states.len() == 0,
        child.sizes.len() == 0,
        child.variant_props.len() == 0,
        child.size_props.len() == 0,
    ensures
        merged_plugin(child, parent) == (PluginModel {
            component: child.component,
            extends: None,
            parent_key: schema::or_else(child.extends, child.parent_key),
            ..parent
        }),
{
}

} // verus!
