//! A theme and those that it builds on, as a Rust source file.

use vstd::prelude::*;
use crate::chain;
use crate::export_theme::{self, theme_record_to_export_theme};
use crate::records::{
    self, explicit_parent_theme_index, is_builtin_base_theme, RecordModel, ThemeRecord,
};
use crate::text::owned;
use crate::textmap;
use crate::theme::{Theme, ThemeModel};
use crate::theme_source::{self, emit_theme_function, theme_record_function_name};

verus! {

/// Where the function of the base theme is.
pub const BASE_THEME_IMPORT_PATH: &'static str = "ui2::themes::base_theme::base_theme";

// ---------------------------------------------------------------------------------------------
// Chains
// ---------------------------------------------------------------------------------------------
/// Whether what stands behind a theme in a list is its parent.
pub open spec fn parent_follows(themes: Seq<RecordModel>, list: Seq<int>, k: int) -> bool {
    records::parent_index(themes, list[k]) == Some(list[k + 1])
}

/// `list` holds a theme and its ancestors, each once: the theme, then the parent of each, to one
/// that has no parent or whose parent is in the list already.
pub open spec fn is_lineage(themes: Seq<RecordModel>, i: int, list: Seq<int>) -> bool {
    &&& list.len() > 0
    &&& list[0] == i
    &&& list.no_duplicates()
    &&& forall|k: int| 0 <= k < list.len() - 1 ==> #[trigger] parent_follows(themes, list, k)
    &&& match records::parent_index(themes, list.last()) {
        Some(p) => list.contains(p),
        None => true,
    }
}

/// A theme and its ancestors, each once.
pub open spec fn lineage(themes: Seq<RecordModel>, i: int) -> Seq<int> {
    choose|list: Seq<int>| is_lineage(themes, i, list)
}

/// The themes that are written for a theme: its ancestors from the first one on, then the theme.
pub open spec fn export_chain(themes: Seq<RecordModel>, i: int) -> Seq<int> {
    lineage(themes, i).reverse()
}

proof fn lemma_same_prefix(themes: Seq<RecordModel>, i: int, a: Seq<int>, b: Seq<int>, k: int)
    requires
        is_lineage(themes, i, a),
        is_lineage(themes, i, b),
        0 <= k < a.len(),
        k < b.len(),
    ensures
        a[k] == b[k],
    decreases k,
{
    if k > 0 {
        lemma_same_prefix(themes, i, a, b, k - 1);
        assert(parent_follows(themes, a, k - 1));
        assert(parent_follows(themes, b, k - 1));
    }
}

proof fn lemma_no_longer(themes: Seq<RecordModel>, i: int, a: Seq<int>, b: Seq<int>)
    requires
        is_lineage(themes, i, a),
        is_lineage(themes, i, b),
    ensures
        b.len() <= a.len(),
{
    if a.len() < b.len() {
        let n = a.len() as int;
        lemma_same_prefix(themes, i, a, b, n - 1);
        assert(parent_follows(themes, b, n - 1));
        assert(a.contains(b[n]));
        let k = choose|k: int| 0 <= k < a.len() && a[k] == b[n];
        lemma_same_prefix(themes, i, a, b, k);
        assert(b[k] == b[n]);
    }
}

/// There is one lineage.
pub proof fn lineage_is(themes: Seq<RecordModel>, i: int, list: Seq<int>)
    requires
        is_lineage(themes, i, list),
    ensures
        lineage(themes, i) == list,
{
    let other = lineage(themes, i);
    lemma_no_longer(themes, i, list, other);
    lemma_no_longer(themes, i, other, list);
    assert forall|k: int| 0 <= k < list.len() implies list[k] == other[k] by {
        lemma_same_prefix(themes, i, list, other, k);
    }
    assert(list =~= other);
}

/// Indices as mathematical ones.
pub open spec fn index_views(v: Seq<usize>) -> Seq<int> {
    Seq::new(v.len(), |i: int| v[i] as int)
}

fn holds(list: &Vec<usize>, index: usize) -> (r: bool)
    ensures
        r == index_views(list@).contains(index as int),
{
    for k in 0..list.len()
        invariant
            forall|j: int| 0 <= j < k ==> #[trigger] list@[j] != index,
    {
        if list[k] == index {
            assert(index_views(list@)[k as int] == index as int);
            return true;
        }
    }
    false
}

proof fn lemma_few(list: Seq<int>, n: int)
    requires
        0 <= n,
        list.no_duplicates(),
        forall|i: int| 0 <= i < list.len() ==> 0 <= #[trigger] list[i] < n,
    ensures
        list.len() <= n,
{
    list.unique_seq_to_set();
    vstd::set_lib::lemma_int_range(0, n);
    let range = vstd::set_lib::set_int_range(0, n);
    assert(list.to_set().subset_of(range));
    vstd::set_lib::lemma_len_subset(list.to_set(), range);
}

fn list_lineage(themes: &Vec<ThemeRecord>, theme_idx: usize) -> (r: Vec<usize>)
    ensures
        is_lineage(textmap::views(themes@), theme_idx as int, index_views(r@)),
        theme_idx < themes@.len() ==> forall|k: int|
            0 <= k < r@.len() ==> #[trigger] r@[k] < themes@.len(),
{
    let ghost all = textmap::views(themes@);
    let mut list: Vec<usize> = Vec::new();
    list.push(theme_idx);
    let mut current: usize = theme_idx;
    assert(index_views(list@) =~= seq![theme_idx as int]);
    if theme_idx >= themes.len() {
        return list;
    }
    loop
        invariant
            all == textmap::views(themes@),
            theme_idx < themes@.len(),
            0 < list@.len() <= themes@.len(),
            index_views(list@)[0] == theme_idx,
            current == list@[list@.len() - 1],
            index_views(list@).no_duplicates(),
            forall|k: int| 0 <= k < list@.len() ==> #[trigger] list@[k] < themes@.len(),
            forall|k: int|
                0 <= k < list@.len() - 1 ==> #[trigger] parent_follows(all, index_views(list@), k),
        decreases themes@.len() - list@.len(),
    {
        let ghost before = index_views(list@);
        match explicit_parent_theme_index(themes, current) {
            None => {
                return list;
            },
            Some(p) => {
                if holds(&list, p) {
                    return list;
                }
                list.push(p);
                proof {
                    let after = index_views(list@);
                    assert(after =~= before.push(p as int));
                    assert forall|i: int, j: int| 0 <= i < after.len() && 0 <= j < after.len() && i != j implies after[i]
                        != after[j] by {
                        if i < before.len() && j < before.len() {
                            assert(before[i] != before[j]);
                        } else if i < before.len() {
                            assert(before.contains(before[i]));
                        } else {
                            assert(before.contains(before[j]));
                        }
                    }
                    assert forall|k: int| 0 <= k < after.len() - 1 implies #[trigger] parent_follows(all, after, k) by {
                        if k < before.len() - 1 {
                            assert(parent_follows(all, before, k));
                        }
                    }
                    lemma_few(after, themes@.len() as int);
                }
                current = p;
            },
        }
    }
}

/// The themes that are written for a theme.
pub fn theme_export_chain(themes: &Vec<ThemeRecord>, theme_idx: usize) -> (r: Vec<usize>)
    ensures
        index_views(r@) == export_chain(textmap::views(themes@), theme_idx as int),
        theme_idx < themes@.len() ==> forall|k: int|
            0 <= k < r@.len() ==> #[trigger] r@[k] < themes@.len(),
{
    let list = list_lineage(themes, theme_idx);
    proof {
        lineage_is(textmap::views(themes@), theme_idx as int, index_views(list@));
    }
    let mut out: Vec<usize> = Vec::new();
    let n: usize = list.len();
    for i in 0..n
        invariant
            n == list@.len(),
            out@.len() == i,
            forall|k: int| 0 <= k < i ==> #[trigger] out@[k] == list@[n - 1 - k],
    {
        out.push(list[n - 1 - i]);
    }
    assert(index_views(out@) =~= index_views(list@).reverse());
    assert forall|k: int| theme_idx < themes@.len() && 0 <= k < out@.len() implies #[trigger] out@[k]
        < themes@.len() by {
        assert(list@[n - 1 - k] < themes@.len());
    }
    out
}

// ---------------------------------------------------------------------------------------------
// The file
// ---------------------------------------------------------------------------------------------
/// Whether a theme's function is written: that of the base theme that comes with the editor only
/// where it is the one that is exported.
pub open spec fn is_inlined(themes: Seq<RecordModel>, i: int, selected: int) -> bool {
    i == selected || !(0 <= i < themes.len() && records::is_builtin_base(themes[i].meta))
}

/// Whether a theme's function is written.
pub fn should_inline_parent_theme(themes: &Vec<ThemeRecord>, theme_idx: usize, selected_theme_idx: usize) -> (r: bool)
    ensures
        r == is_inlined(textmap::views(themes@), theme_idx as int, selected_theme_idx as int),
{
    if theme_idx == selected_theme_idx {
        return true;
    }
    !(theme_idx < themes.len() && is_builtin_base_theme(&themes[theme_idx]))
}

/// Whether the base theme that comes with the editor is among a theme's ancestors.
pub open spec fn builds_on_base(themes: Seq<RecordModel>, i: int) -> bool {
    exists|n: nat| n > 0 && base_at(themes, #[trigger] chain::walk(records::to_parent(themes), i, n))
}

/// Whether an index is that of the base theme that comes with the editor.
pub open spec fn base_at(themes: Seq<RecordModel>, i: Option<int>) -> bool {
    match i {
        Some(k) => 0 <= k < themes.len() && records::is_builtin_base(themes[k].meta),
        None => false,
    }
}

proof fn lemma_walk_lineage(themes: Seq<RecordModel>, i: int, list: Seq<int>, k: int)
    requires
        is_lineage(themes, i, list),
        0 <= k < list.len(),
    ensures
        chain::walk(records::to_parent(themes), i, k as nat) == Some(list[k]),
    decreases k,
{
    if k > 0 {
        lemma_walk_lineage(themes, i, list, k - 1);
        assert(parent_follows(themes, list, k - 1));
    }
}

fn base_ancestor(themes: &Vec<ThemeRecord>, list: &Vec<usize>) -> (r: Option<usize>)
    requires
        list@.len() > 0,
    ensures
        match r {
            Some(i) => 1 <= i < list@.len() && base_at(textmap::views(themes@), Some(index_views(list@)[i as int])),
            None => forall|k: int|
                1 <= k < list@.len() ==> !base_at(
                    textmap::views(themes@),
                    Some(#[trigger] index_views(list@)[k]),
                ),
        },
{
    for i in 1..list.len()
        invariant
            forall|k: int|
                1 <= k < i ==> !base_at(textmap::views(themes@), Some(#[trigger] index_views(list@)[k])),
    {
        let index: usize = list[i];
        if index < themes.len() && is_builtin_base_theme(&themes[index]) {
            return Some(i);
        }
    }
    None
}

/// Whether the base theme that comes with the editor is among a theme's ancestors.
pub fn export_needs_base_theme_import(themes: &Vec<ThemeRecord>, theme_idx: usize) -> (r: bool)
    ensures
        r == builds_on_base(textmap::views(themes@), theme_idx as int),
{
    let ghost all = textmap::views(themes@);
    let ghost next = records::to_parent(all);
    let list = list_lineage(themes, theme_idx);
    let ghost names = index_views(list@);
    let n: usize = list.len();
    let last: usize = list[n - 1];
    let back = explicit_parent_theme_index(themes, last);
    if let Some(i) = base_ancestor(themes, &list) {
        proof {
            lemma_walk_lineage(all, theme_idx as int, names, i as int);
            assert(base_at(all, chain::walk(next, theme_idx as int, i as nat)));
        }
        return true;
    }
    let circles = match back {
        Some(p) => p == theme_idx,
        None => false,
    };
    proof {
        lemma_walk_lineage(all, theme_idx as int, names, n - 1);
        assert(chain::walk(next, theme_idx as int, n as nat) == records::index_view(back));
    }
    if circles && theme_idx < themes.len() && is_builtin_base_theme(&themes[theme_idx]) {
        assert(base_at(all, chain::walk(next, theme_idx as int, n as nat)));
        return true;
    }
    proof {
        assert forall|m: nat| m > 0 implies !base_at(all, #[trigger] chain::walk(next, theme_idx as int, m)) by {
            if m < n {
                lemma_walk_lineage(all, theme_idx as int, names, m as int);
                assert(!base_at(all, Some(names[m as int])));
            } else {
                match back {
                    None => {
                        assert(chain::stops_after(next, theme_idx as int, (n - 1) as nat));
                        chain::walk_past_end(next, theme_idx as int, (n - 1) as nat, m);
                    },
                    Some(p) => {
                        assert(names.contains(p as int));
                        let r = choose|r: int| 0 <= r < names.len() && names[r] == p as int;
                        lemma_walk_lineage(all, theme_idx as int, names, r);
                        let k = chain::circle_covers(next, theme_idx as int, r as nat, n as nat, m);
                        lemma_walk_lineage(all, theme_idx as int, names, k as int);
                        if k == 0 {
                            lemma_back_to_start(all, theme_idx as int, names, r, m);
                            assert(r == 0);
                        } else {
                            assert(!base_at(all, Some(names[k as int])));
                        }
                    },
                }
            }
        }
    }
    false
}

/// A lineage whose last parent stands at a place behind the start never comes back to the start.
proof fn lemma_back_to_start(themes: Seq<RecordModel>, i: int, list: Seq<int>, r: int, m: nat)
    requires
        is_lineage(themes, i, list),
        0 <= r < list.len(),
        records::parent_index(themes, list.last()) == Some(list[r]),
        m > 0,
        chain::walk(records::to_parent(themes), i, m) == Some(i),
    ensures
        r == 0,
    decreases m,
{
    let next = records::to_parent(themes);
    let n = list.len();
    if r > 0 {
        lemma_walk_lineage(themes, i, list, n - 1);
        lemma_walk_lineage(themes, i, list, r);
        assert(chain::walk(next, i, n) == Some(list[r]));
        if m < n {
            lemma_walk_lineage(themes, i, list, m as int);
            assert(list[m as int] == list[0]);
        } else {
            lemma_step_back(next, i, r as nat, n, (m - n) as nat);
            let shorter = (m - n + r) as nat;
            assert(chain::walk(next, i, shorter) == Some(i));
            lemma_back_to_start(themes, i, list, r, shorter);
        }
    }
}

proof fn lemma_step_back<T>(next: spec_fn(T) -> Option<T>, p: T, r: nat, n: nat, k: nat)
    requires
        chain::walk(next, p, r) == chain::walk(next, p, n),
    ensures
        chain::walk(next, p, r + k) == chain::walk(next, p, n + k),
    decreases k,
{
    if k > 0 {
        lemma_step_back(next, p, r, n, (k - 1) as nat);
    }
}

/// What a theme's function extends: the function of its parent.
pub open spec fn parent_reference(themes: Seq<RecordModel>, i: int) -> Option<(Seq<char>, ThemeModel)> {
    match records::parent_record(themes, i) {
        Some(p) => Some(
            (theme_source::record_function(p.meta) + "()"@, export_theme::export_model(p)),
        ),
        None => None,
    }
}

/// The functions of themes.
pub open spec fn functions(themes: Seq<RecordModel>, selected: int, chain: Seq<int>) -> Seq<char>
    decreases chain.len(),
{
    if chain.len() == 0 {
        Seq::empty()
    } else {
        let before = functions(themes, selected, chain.drop_last());
        let i = chain.last();
        if is_inlined(themes, i, selected) {
            before + theme_source::theme_function(
                theme_source::record_function(themes[i].meta),
                i == selected,
                export_theme::export_model(themes[i]),
                parent_reference(themes, i),
            )
        } else {
            before
        }
    }
}

/// The head of the file.
pub open spec fn file_head(themes: Seq<RecordModel>, i: int) -> Seq<char> {
    "//! Theme: "@ + themes[i].meta.name + "\n//! Generated by Prime UI Theme Editor\n\n"@
        + "use components::{color, define_theme, token_ref, Theme};\n"@ + (if builds_on_base(themes, i)
        && !records::is_builtin_base(themes[i].meta) {
        "use "@ + BASE_THEME_IMPORT_PATH@ + ";\n"@
    } else {
        Seq::empty()
    }) + "\n"@
}

/// The file of a theme: the functions of its ancestors and its own. Only its own is public; the base
/// theme that comes with the editor is imported.
pub open spec fn theme_file(themes: Seq<RecordModel>, i: int) -> Seq<char> {
    file_head(themes, i) + functions(themes, i, export_chain(themes, i))
}

fn write_head(themes: &Vec<ThemeRecord>, theme_idx: usize) -> (r: String)
    requires
        theme_idx < themes@.len(),
    ensures
        r@ == file_head(textmap::views(themes@), theme_idx as int),
{
    let theme = &themes[theme_idx];
    let mut out = owned("//! Theme: ");
    out.push_str(theme.meta.name.as_str());
    out.push_str("\n//! Generated by Prime UI Theme Editor\n\n");
    out.push_str("use components::{color, define_theme, token_ref, Theme};\n");
    let ghost before = out@;
    if export_needs_base_theme_import(themes, theme_idx) && !is_builtin_base_theme(theme) {
        let mut l = owned("use ");
        l.push_str(BASE_THEME_IMPORT_PATH);
        l.push_str(";\n");
        out.push_str(l.as_str());
    } else {
        assert(before =~= before + Seq::<char>::empty());
    }
    out.push_str("\n");
    out
}

fn write_function(out: &mut String, themes: &Vec<ThemeRecord>, index: usize, is_public: bool)
    requires
        index < themes@.len(),
    ensures
        ({
            let all = textmap::views(themes@);
            final(out)@ == old(out)@ + theme_source::theme_function(
                theme_source::record_function(all[index as int].meta),
                is_public,
                export_theme::export_model(all[index as int]),
                parent_reference(all, index as int),
            )
        }),
{
    let record = &themes[index];
    let name = theme_record_function_name(record);
    let theme = theme_record_to_export_theme(record);
    match explicit_parent_theme_index(themes, index) {
        Some(p) => {
            let mut expr = theme_record_function_name(&themes[p]);
            expr.push_str("()");
            let parent = theme_record_to_export_theme(&themes[p]);
            emit_theme_function(out, name.as_str(), is_public, &theme, Some((expr.as_str(), &parent)));
        },
        None => {
            emit_theme_function(out, name.as_str(), is_public, &theme, None);
        },
    }
}

/// Writes the file of a theme.
pub fn generate_theme_rust_export(themes: &Vec<ThemeRecord>, theme_idx: usize) -> (r: Option<String>)
    ensures
        match r {
            Some(s) => theme_idx < themes@.len() && s@ == theme_file(
                textmap::views(themes@),
                theme_idx as int,
            ),
            None => theme_idx >= themes@.len(),
        },
{
    if theme_idx >= themes.len() {
        return None;
    }
    let ghost all = textmap::views(themes@);
    let chain = theme_export_chain(themes, theme_idx);
    let ghost list = index_views(chain@);
    let mut out = write_head(themes, theme_idx);
    let ghost head = out@;
    assert(head =~= head + functions(all, theme_idx as int, list.take(0)));
    for i in 0..chain.len()
        invariant
            all == textmap::views(themes@),
            list == index_views(chain@),
            forall|k: int| 0 <= k < chain@.len() ==> #[trigger] chain@[k] < themes@.len(),
            out@ == head + functions(all, theme_idx as int, list.take(i as int)),
    {
        proof {
            assert(list.take(i + 1).drop_last() =~= list.take(i as int));
            assert(list.take(i + 1).last() == list[i as int]);
        }
        let index: usize = chain[i];
        if should_inline_parent_theme(themes, index, theme_idx) {
            let ghost before = functions(all, theme_idx as int, list.take(i as int));
            let ghost piece = theme_source::theme_function(
                theme_source::record_function(all[index as int].meta),
                index == theme_idx,
                export_theme::export_model(all[index as int]),
                parent_reference(all, index as int),
            );
            write_function(&mut out, themes, index, index == theme_idx);
            proof {
                lemma_three(head, before, piece);
            }
        }
    }
    assert(list.take(chain@.len() as int) =~= list);
    Some(out)
}

proof fn lemma_three(a: Seq<char>, b: Seq<char>, c: Seq<char>)
    ensures
        a + b + c == a + (b + c),
{
    assert(a + b + c =~= a + (b + c));
}

// ---------------------------------------------------------------------------------------------
// Laws
// ---------------------------------------------------------------------------------------------
/// The chain of a theme ends with the theme, and has every theme once.
pub proof fn chain_ends_with_theme(themes: Seq<RecordModel>, i: int, list: Seq<int>)
    requires
        is_lineage(themes, i, list),
    ensures
        export_chain(themes, i).len() > 0,
        export_chain(themes, i).last() == i,
        export_chain(themes, i).no_duplicates(),
{
    lineage_is(themes, i, list);
    let chain = list.reverse();
    assert(chain.last() == list[0]);
    assert forall|a: int, b: int| 0 <= a < chain.len() && 0 <= b < chain.len() && a != b implies chain[a]
        != chain[b] by {
        assert(list[list.len() - 1 - a] != list[list.len() - 1 - b]);
    }
}

/// In the chain of a theme every theme comes behind its parent.
pub proof fn parents_come_first(themes: Seq<RecordModel>, i: int, list: Seq<int>, k: int)
    requires
        is_lineage(themes, i, list),
        0 < k < export_chain(themes, i).len(),
    ensures
        records::parent_index(themes, export_chain(themes, i)[k]) == Some(export_chain(themes, i)[k - 1]),
{
    lineage_is(themes, i, list);
    let m = list.len() - 1 - k;
    assert(parent_follows(themes, list, m));
}

/// The file of a theme whose ancestors include the built-in base theme imports that; one of a theme without
/// such an ancestor does not.
pub proof fn base_ancestor_is_imported(themes: Seq<RecordModel>, i: int, list: Seq<int>)
    requires
        is_lineage(themes, i, list),
        forall|k: int| 0 <= k < list.len() ==> 0 <= #[trigger] list[k] < themes.len(),
        !records::is_builtin_base(themes[i].meta),
    ensures
        ({
            let head = "//! Theme: "@ + themes[i].meta.name + "\n//! Generated by Prime UI Theme Editor\n\n"@
                + "use components::{color, define_theme, token_ref, Theme};\n"@;
            let import = "use "@ + BASE_THEME_IMPORT_PATH@ + ";\n"@;
            &&& (exists|k: int| 0 < k < list.len() && records::is_builtin_base((themes[#[trigger] list[k]]).meta))
                ==> file_head(themes, i) == head + import + "\n"@
            &&& !builds_on_base(themes, i) ==> file_head(themes, i) == head + "\n"@
        }),
{
    if exists|k: int| 0 < k < list.len() && records::is_builtin_base((themes[#[trigger] list[k]]).meta) {
        let k = choose|k: int|
            0 < k < list.len() && records::is_builtin_base((themes[#[trigger] list[k]]).meta);
        lemma_walk_lineage(themes, i, list, k);
        assert(base_at(themes, chain::walk(records::to_parent(themes), i, k as nat)));
    } else if !builds_on_base(themes, i) {
        let head = "//! Theme: "@ + themes[i].meta.name + "\n//! Generated by Prime UI Theme Editor\n\n"@
            + "use components::{color, define_theme, token_ref, Theme};\n"@;
        assert(file_head(themes, i) =~= head + "\n"@);
    }
}

} // verus!
