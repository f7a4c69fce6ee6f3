//! Generated lookup functions read as decisions: which fields they return for which value of an enum.

use vstd::prelude::*;
use crate::schema::{self, OverridesModel, PluginModel};
use crate::slint_gen::{self, Fields, StyleRow, Target};
use crate::text;

verus! {

// ---------------------------------------------------------------------------------------------
// Decisions by one value
// ---------------------------------------------------------------------------------------------
/// A decision by the value of an enum: branches, each with the values that it is for and what it
/// returns, and what is returned where no branch is taken.
pub struct Choice {
    pub branches: Seq<(Seq<Seq<char>>, Fields)>,
    pub otherwise: Fields,
}

/// What a decision returns: that of the first branch for the value.
pub open spec fn chosen_from(c: Choice, value: Seq<char>, from: int) -> Fields
    decreases c.branches.len() - from,
{
    if from >= c.branches.len() {
        c.otherwise
    } else if c.branches[from].0.contains(value) {
        c.branches[from].1
    } else {
        chosen_from(c, value, from + 1)
    }
}

/// What a decision returns for a value.
pub open spec fn chosen(c: Choice, value: Seq<char>) -> Fields {
    chosen_from(c, value, 0)
}

/// The condition that a parameter has one of some values of an enum.
pub open spec fn condition(parameter: Seq<char>, enum_name: Seq<char>, indent: Seq<char>, values: Seq<Seq<char>>) -> Seq<
    char,
> {
    text::join(
        Seq::new(values.len(), |i: int| parameter + " == "@ + enum_name + "."@ + values[i]),
        "\n"@ + indent + "    || "@,
    )
}

/// The statements of the first `n` branches of a decision.
pub open spec fn branches_text(c: Choice, n: int, parameter: Seq<char>, enum_name: Seq<char>, indent: Seq<char>) -> Seq<
    char,
>
    decreases n,
{
    if n <= 0 {
        Seq::empty()
    } else {
        branches_text(c, n - 1, parameter, enum_name, indent) + indent + "if "@ + condition(
            parameter,
            enum_name,
            indent,
            c.branches[n - 1].0,
        ) + " {\n"@ + slint_gen::struct_return(c.branches[n - 1].1, indent + "    "@) + indent + "}\n"@
    }
}

/// The statements of a decision.
pub open spec fn choice_text(c: Choice, parameter: Seq<char>, enum_name: Seq<char>, indent: Seq<char>) -> Seq<char> {
    branches_text(c, c.branches.len() as int, parameter, enum_name, indent) + slint_gen::struct_return(
        c.otherwise,
        indent,
    )
}

/// Whether some fields are those of the first row with a name.
pub open spec fn are_fields_of(fields: Fields, rows: Seq<StyleRow>, name: Seq<char>) -> bool {
    exists|r: int|
        0 <= r < rows.len() && (#[trigger] rows[r]).0 == name && rows[r].1 == fields && forall|q: int|
            0 <= q < r ==> (#[trigger] rows[q]).0 != name
}

proof fn lemma_fields_named(rows: Seq<StyleRow>, name: Seq<char>)
    requires
        slint_gen::has_row(rows, name),
    ensures
        are_fields_of(slint_gen::fields_named(rows, name), rows, name),
{
    slint_gen::row_named_is(rows, name);
    let r = slint_gen::row_named(rows, name);
    assert(rows[r].0 == name);
}

proof fn lemma_chosen_none(c: Choice, value: Seq<char>, from: int)
    requires
        0 <= from <= c.branches.len(),
        forall|j: int| from <= j < c.branches.len() ==> !(#[trigger] c.branches[j]).0.contains(value),
    ensures
        chosen_from(c, value, from) == c.otherwise,
    decreases c.branches.len() - from,
{
    if from < c.branches.len() {
        assert(!c.branches[from].0.contains(value));
        lemma_chosen_none(c, value, from + 1);
    }
}

proof fn lemma_branches_text_same(
    a: Choice,
    b: Choice,
    n: int,
    parameter: Seq<char>,
    enum_name: Seq<char>,
    indent: Seq<char>,
)
    requires
        0 <= n <= a.branches.len(),
        n <= b.branches.len(),
        forall|i: int| 0 <= i < n ==> a.branches[i] == #[trigger] b.branches[i],
    ensures
        branches_text(a, n, parameter, enum_name, indent) == branches_text(b, n, parameter, enum_name, indent),
    decreases n,
{
    if n > 0 {
        lemma_branches_text_same(a, b, n - 1, parameter, enum_name, indent);
        assert(a.branches[n - 1] == b.branches[n - 1]);
    }
}

// ---------------------------------------------------------------------------------------------
// By state
// ---------------------------------------------------------------------------------------------
/// The states of a profile with a target.
spec fn states_with(profile: Fields, target: Seq<char>) -> Seq<Seq<char>>
    decreases profile.len(),
{
    if profile.len() == 0 {
        Seq::empty()
    } else {
        let front = states_with(profile.drop_last(), target);
        if profile.last().1 == target {
            front.push(profile.last().0)
        } else {
            front
        }
    }
}

proof fn lemma_states_with(profile: Fields, target: Seq<char>, value: Seq<char>)
    ensures
        states_with(profile, target).contains(value) <==> exists|i: int|
            0 <= i < profile.len() && #[trigger] profile[i] == (value, target),
    decreases profile.len(),
{
    let all = states_with(profile, target);
    if profile.len() > 0 {
        let front = profile.drop_last();
        let before = states_with(front, target);
        lemma_states_with(front, target, value);
        assert(profile[profile.len() - 1] == profile.last());
        if all.contains(value) {
            let k = choose|k: int| 0 <= k < all.len() && all[k] == value;
            if k < before.len() {
                assert(before[k] == value);
                let i = choose|i: int| 0 <= i < front.len() && #[trigger] front[i] == (value, target);
                assert(profile[i] == (value, target));
            } else {
                assert(profile[profile.len() - 1] == (value, target));
            }
        }
        if exists|i: int| 0 <= i < profile.len() && #[trigger] profile[i] == (value, target) {
            let i = choose|i: int| 0 <= i < profile.len() && #[trigger] profile[i] == (value, target);
            if i < front.len() {
                assert(front[i] == (value, target));
                let k = choose|k: int| 0 <= k < before.len() && before[k] == value;
                assert(all[k] == value);
            } else {
                assert(all[all.len() - 1] == value);
            }
        }
    }
}

proof fn lemma_state_clauses(profile: Fields, target: Seq<char>, state_enum: Seq<char>)
    ensures
        slint_gen::state_clauses(profile, target, state_enum) == Seq::new(
            states_with(profile, target).len(),
            |i: int| "st"@ + " == "@ + state_enum + "."@ + states_with(profile, target)[i],
        ),
    decreases profile.len(),
{
    reveal_strlit("st == ");
    reveal_strlit("st");
    reveal_strlit(" == ");
    assert("st"@ + " == "@ =~= "st == "@);
    let goal = Seq::new(
        states_with(profile, target).len(),
        |i: int| "st"@ + " == "@ + state_enum + "."@ + states_with(profile, target)[i],
    );
    if profile.len() > 0 {
        lemma_state_clauses(profile.drop_last(), target, state_enum);
    }
    assert(slint_gen::state_clauses(profile, target, state_enum) =~= goal);
}

/// The decision of the first `n` entries of a profile.
spec fn state_choice(rows: Seq<StyleRow>, profile: Fields, n: int) -> Choice
    decreases n,
{
    if n <= 0 {
        Choice {
            branches: Seq::empty(),
            otherwise: slint_gen::fields_named(rows, slint_gen::normal_target(profile)),
        }
    } else {
        let front = state_choice(rows, profile, n - 1);
        let target = profile[n - 1].1;
        if target == slint_gen::normal_target(profile) || slint_gen::target_seen(profile, n - 1) {
            front
        } else {
            Choice {
                branches: front.branches.push(
                    (states_with(profile, target), slint_gen::fields_named(rows, target)),
                ),
                ..front
            }
        }
    }
}

proof fn lemma_state_text(
    rows: Seq<StyleRow>,
    profile: Fields,
    n: int,
    state_enum: Seq<char>,
    indent: Seq<char>,
)
    requires
        0 <= n <= profile.len(),
    ensures
        slint_gen::state_branches(rows, profile, n, state_enum, indent) == branches_text(
            state_choice(rows, profile, n),
            state_choice(rows, profile, n).branches.len() as int,
            "st"@,
            state_enum,
            indent,
        ),
    decreases n,
{
    if n > 0 {
        lemma_state_text(rows, profile, n - 1, state_enum, indent);
        let before = state_choice(rows, profile, n - 1);
        let c = state_choice(rows, profile, n);
        let target = profile[n - 1].1;
        if !(target == slint_gen::normal_target(profile) || slint_gen::target_seen(profile, n - 1)) {
            let k = before.branches.len() as int;
            lemma_branches_text_same(before, c, k, "st"@, state_enum, indent);
            lemma_state_clauses(profile, target, state_enum);
            assert(c.branches[k] == (states_with(profile, target), slint_gen::fields_named(rows, target)));
            assert(slint_gen::state_branches(rows, profile, n, state_enum, indent) =~= branches_text(
                c,
                k + 1,
                "st"@,
                state_enum,
                indent,
            ));
        }
    }
}

/// Every branch is for the states of one target, which is not the normal one; different branches are
/// for different targets; and every other target has its branch.
proof fn lemma_state_choice(rows: Seq<StyleRow>, profile: Fields, n: int, i: int)
    requires
        0 <= n <= profile.len(),
        0 <= i < profile.len(),
    ensures
        ({
            let c = state_choice(rows, profile, n);
            let target = profile[i].1;
            &&& c.otherwise == slint_gen::fields_named(rows, slint_gen::normal_target(profile))
            &&& forall|k: int|
                0 <= k < c.branches.len() ==> exists|j: int|
                    0 <= j < n && #[trigger] profile[j].1 != slint_gen::normal_target(profile)
                        && #[trigger] c.branches[k] == (
                        states_with(profile, profile[j].1),
                        slint_gen::fields_named(rows, profile[j].1),
                    )
            &&& (exists|j: int| 0 <= j < n && (#[trigger] profile[j]).1 == target) && target
                != slint_gen::normal_target(profile) ==> exists|k: int|
                0 <= k < c.branches.len() && #[trigger] c.branches[k] == (
                    states_with(profile, target),
                    slint_gen::fields_named(rows, target),
                )
        }),
    decreases n,
{
    if n > 0 {
        lemma_state_choice(rows, profile, n - 1, i);
        let before = state_choice(rows, profile, n - 1);
        let c = state_choice(rows, profile, n);
        let target = profile[i].1;
        let here = profile[n - 1].1;
        let normal = slint_gen::normal_target(profile);
        assert forall|k: int| 0 <= k < c.branches.len() implies exists|j: int|
            0 <= j < n && #[trigger] profile[j].1 != normal && #[trigger] c.branches[k] == (
                states_with(profile, profile[j].1),
                slint_gen::fields_named(rows, profile[j].1),
            ) by {
            if k < before.branches.len() {
                assert(before.branches[k] == c.branches[k]);
                let j = choose|j: int|
                    0 <= j < n - 1 && #[trigger] profile[j].1 != normal && before.branches[k] == (
                        states_with(profile, profile[j].1),
                        slint_gen::fields_named(rows, profile[j].1),
                    );
                assert(profile[j].1 != normal);
            } else {
                assert(profile[n - 1].1 != normal);
            }
        }
        if (exists|j: int| 0 <= j < n && (#[trigger] profile[j]).1 == target) && target != normal {
            if exists|j: int| 0 <= j < n - 1 && (#[trigger] profile[j]).1 == target {
                let k = choose|k: int|
                    0 <= k < before.branches.len() && #[trigger] before.branches[k] == (
                        states_with(profile, target),
                        slint_gen::fields_named(rows, target),
                    );
                assert(c.branches[k] == before.branches[k]);
            } else {
                let j = choose|j: int| 0 <= j < n && (#[trigger] profile[j]).1 == target;
                assert(j == n - 1);
                assert(!slint_gen::target_seen(profile, n - 1));
                let k = before.branches.len() as int;
                assert(c.branches[k] == (
                    states_with(profile, target),
                    slint_gen::fields_named(rows, target),
                ));
            }
        }
    }
}

/// Whether entry `i` of a profile is the one that counts for states without an entry: the first that
/// is named "normal", or the first of all where none is.
pub open spec fn is_normal_entry(profile: Fields, i: int) -> bool {
    &&& 0 <= i < profile.len()
    &&& profile[i].0 == "normal"@ && forall|j: int| 0 <= j < i ==> (#[trigger] profile[j]).0 != "normal"@
        || i == 0 && forall|j: int| 0 <= j < profile.len() ==> (#[trigger] profile[j]).0 != "normal"@
}

proof fn lemma_normal_target(profile: Fields, from: int, i: int)
    requires
        0 <= from <= profile.len(),
        is_normal_entry(profile, i),
        from <= i || i == 0,
        forall|j: int| 0 <= j < from ==> (#[trigger] profile[j]).0 != "normal"@,
    ensures
        slint_gen::normal_target_from(profile, from) == profile[i].1,
    decreases profile.len() - from,
{
    if from < profile.len() && profile[from].0 != "normal"@ {
        lemma_normal_target(profile, from + 1, i);
    }
}

/// Whether a decision is right for a profile: it returns for the state of each entry the fields of the
/// row that the entry's target names, and for any other state those of the normal entry's target.
pub open spec fn decides_states(c: Choice, rows: Seq<StyleRow>, profile: Fields) -> bool {
    &&& forall|i: int|
        0 <= i < profile.len() ==> are_fields_of(
            chosen(c, (#[trigger] profile[i]).0),
            rows,
            profile[i].1,
        )
    &&& forall|state: Seq<char>, i: int|
        #![trigger chosen(c, state), is_normal_entry(profile, i)]
        is_normal_entry(profile, i) && (forall|j: int|
            0 <= j < profile.len() ==> (#[trigger] profile[j]).0 != state) ==> are_fields_of(
            chosen(c, state),
            rows,
            profile[i].1,
        )
}

/// Whether no state of a profile has two targets.
pub open spec fn one_target_each(profile: Fields) -> bool {
    forall|i: int, j: int|
        0 <= i < profile.len() && 0 <= j < profile.len() && (#[trigger] profile[i]).0 == (
        #[trigger] profile[j]).0 ==> profile[i].1 == profile[j].1
}

/// The statements that choose by state decide rightly: each state gets the fields of the row that its
/// target names, and a state without an entry gets those of the normal state.
pub proof fn state_lookup_decides(
    rows: Seq<StyleRow>,
    profile: Fields,
    state_enum: Seq<char>,
    indent: Seq<char>,
) -> (c: Choice)
    requires
        profile.len() > 0,
        slint_gen::targets_known(rows, profile),
        one_target_each(profile),
    ensures
        slint_gen::state_lookup(rows, profile, state_enum, indent) == choice_text(
            c,
            "st"@,
            state_enum,
            indent,
        ),
        decides_states(c, rows, profile),
{
    let n = profile.len() as int;
    let c = state_choice(rows, profile, n);
    let normal = slint_gen::normal_target(profile);
    lemma_state_choice(rows, profile, n, 0);
    lemma_state_text(rows, profile, n, state_enum, indent);
    assert forall|i: int| 0 <= i < profile.len() implies are_fields_of(
        chosen(c, (#[trigger] profile[i]).0),
        rows,
        profile[i].1,
    ) by {
        lemma_way(rows, profile, i);
    }
    assert forall|state: Seq<char>, i: int|
        #![trigger chosen(c, state), is_normal_entry(profile, i)]
        is_normal_entry(profile, i) && (forall|j: int|
            0 <= j < profile.len() ==> (#[trigger] profile[j]).0 != state) implies are_fields_of(
        chosen(c, state),
        rows,
        profile[i].1,
    ) by {
        lemma_normal_target(profile, 0, i);
        assert(slint_gen::has_row(rows, profile[i].1));
        lemma_fields_named(rows, profile[i].1);
        assert forall|k: int| 0 <= k < c.branches.len() implies !(#[trigger] c.branches[k]).0.contains(state) by {
            let j = choose|j: int|
                0 <= j < n && #[trigger] profile[j].1 != normal && c.branches[k] == (
                    states_with(profile, profile[j].1),
                    slint_gen::fields_named(rows, profile[j].1),
                );
            lemma_states_with(profile, profile[j].1, state);
            if c.branches[k].0.contains(state) {
                let m = choose|m: int| 0 <= m < profile.len() && #[trigger] profile[m] == (state, profile[j].1);
                assert(profile[m].0 == state);
            }
        }
        lemma_chosen_none(c, state, 0);
    }
    c
}

/// Where every branch for a value returns the same, that is what is chosen.
proof fn lemma_first(c: Choice, value: Seq<char>, k: int)
    requires
        0 <= k < c.branches.len(),
        c.branches[k].0.contains(value),
        forall|j: int|
            0 <= j < c.branches.len() && (#[trigger] c.branches[j]).0.contains(value) ==> c.branches[j].1
                == c.branches[k].1,
    ensures
        chosen(c, value) == c.branches[k].1,
{
    lemma_first_from(c, value, k, 0);
}

proof fn lemma_first_from(c: Choice, value: Seq<char>, k: int, from: int)
    requires
        0 <= from <= k < c.branches.len(),
        c.branches[k].0.contains(value),
        forall|j: int|
            0 <= j < c.branches.len() && (#[trigger] c.branches[j]).0.contains(value) ==> c.branches[j].1
                == c.branches[k].1,
    ensures
        chosen_from(c, value, from) == c.branches[k].1,
    decreases k - from,
{
    if !c.branches[from].0.contains(value) {
        lemma_first_from(c, value, k, from + 1);
    }
}

// ---------------------------------------------------------------------------------------------
// By variant and state
// ---------------------------------------------------------------------------------------------
/// A decision by a variant and a state: branches, each with the variants that it is for and how it
/// decides by state, and how it is decided where no branch is taken.
pub struct VariantChoice {
    pub branches: Seq<(Seq<Seq<char>>, Choice)>,
    pub otherwise: Choice,
}

/// How a decision decides by state for a variant: as the first branch for the variant does.
pub open spec fn choice_from(c: VariantChoice, variant: Seq<char>, from: int) -> Choice
    decreases c.branches.len() - from,
{
    if from >= c.branches.len() {
        c.otherwise
    } else if c.branches[from].0.contains(variant) {
        c.branches[from].1
    } else {
        choice_from(c, variant, from + 1)
    }
}

/// What a decision returns for a variant and a state.
pub open spec fn chosen_for(c: VariantChoice, variant: Seq<char>, state: Seq<char>) -> Fields {
    chosen(choice_from(c, variant, 0), state)
}

/// The statements of the first `n` branches of a decision by variant.
pub open spec fn variant_branches_text(
    c: VariantChoice,
    n: int,
    variant_enum: Seq<char>,
    state_enum: Seq<char>,
) -> Seq<char>
    decreases n,
{
    if n <= 0 {
        Seq::empty()
    } else {
        variant_branches_text(c, n - 1, variant_enum, state_enum) + "        if "@ + condition(
            "v"@,
            variant_enum,
            "        "@,
            c.branches[n - 1].0,
        ) + " {\n"@ + choice_text(c.branches[n - 1].1, "st"@, state_enum, "            "@) + "        }\n"@
    }
}

/// The statements of a decision by variant and state.
pub open spec fn variant_choice_text(c: VariantChoice, variant_enum: Seq<char>, state_enum: Seq<char>) -> Seq<char> {
    variant_branches_text(c, c.branches.len() as int, variant_enum, state_enum) + choice_text(
        c.otherwise,
        "st"@,
        state_enum,
        "        "@,
    )
}

/// Whether no variant has two targets for one state.
pub open spec fn one_target_per_cell(targets: Seq<Target>) -> bool {
    forall|i: int, j: int|
        0 <= i < targets.len() && 0 <= j < targets.len() && (#[trigger] targets[i]).0 == (
        #[trigger] targets[j]).0 && targets[i].1 == targets[j].1 ==> targets[i].2 == targets[j].2
}

proof fn lemma_profile_of(targets: Seq<Target>, variant: Seq<char>, state: Seq<char>, name: Seq<char>)
    ensures
        (exists|i: int|
            0 <= i < slint_gen::profile_of(targets, variant).len() && #[trigger] slint_gen::profile_of(
                targets,
                variant,
            )[i] == (state, name)) <==> exists|i: int|
            0 <= i < targets.len() && #[trigger] targets[i] == (variant, state, name),
    decreases targets.len(),
{
    let p = slint_gen::profile_of(targets, variant);
    if targets.len() > 0 {
        let front = targets.drop_last();
        let fp = slint_gen::profile_of(front, variant);
        lemma_profile_of(front, variant, state, name);
        assert(targets[targets.len() - 1] == targets.last());
        if exists|i: int| 0 <= i < p.len() && #[trigger] p[i] == (state, name) {
            let i = choose|i: int| 0 <= i < p.len() && #[trigger] p[i] == (state, name);
            if i < fp.len() {
                assert(fp[i] == (state, name));
                let k = choose|k: int| 0 <= k < front.len() && #[trigger] front[k] == (variant, state, name);
                assert(targets[k] == (variant, state, name));
            } else {
                assert(targets[targets.len() - 1] == (variant, state, name));
            }
        }
        if exists|i: int| 0 <= i < targets.len() && #[trigger] targets[i] == (variant, state, name) {
            let i = choose|i: int| 0 <= i < targets.len() && #[trigger] targets[i] == (variant, state, name);
            if i < front.len() {
                assert(front[i] == (variant, state, name));
                let k = choose|k: int| 0 <= k < fp.len() && #[trigger] fp[k] == (state, name);
                assert(p[k] == (state, name));
            } else {
                assert(p[p.len() - 1] == (state, name));
            }
        }
    }
}

proof fn lemma_profile_one_target(targets: Seq<Target>, variant: Seq<char>)
    requires
        one_target_per_cell(targets),
    ensures
        one_target_each(slint_gen::profile_of(targets, variant)),
{
    let p = slint_gen::profile_of(targets, variant);
    assert forall|i: int, j: int|
        0 <= i < p.len() && 0 <= j < p.len() && (#[trigger] p[i]).0 == (#[trigger] p[j]).0 implies p[i].1
        == p[j].1 by {
        lemma_profile_of(targets, variant, p[i].0, p[i].1);
        lemma_profile_of(targets, variant, p[j].0, p[j].1);
        assert(p[i] == (p[i].0, p[i].1));
        assert(p[j] == (p[j].0, p[j].1));
        let a = choose|a: int| 0 <= a < targets.len() && #[trigger] targets[a] == (variant, p[i].0, p[i].1);
        let b = choose|b: int| 0 <= b < targets.len() && #[trigger] targets[b] == (variant, p[j].0, p[j].1);
        assert(targets[a].2 == targets[b].2);
    }
}

/// Every variant of a group has the group's profile.
proof fn lemma_group_profile(targets: Seq<Target>, variants: Seq<Seq<char>>, g: int, variant: Seq<char>)
    requires
        0 <= g < slint_gen::grouped(targets, variants).len(),
        slint_gen::grouped(targets, variants)[g].0.contains(variant),
    ensures
        slint_gen::grouped(targets, variants)[g].1 == slint_gen::profile_of(targets, variant),
    decreases variants.len(),
{
    let fv = variants.drop_last();
    let front = slint_gen::grouped(targets, fv);
    let all = slint_gen::grouped(targets, variants);
    let v = variants.last();
    let profile = slint_gen::profile_of(targets, v);
    slint_gen::lemma_group_with(front, profile);
    let i = slint_gen::group_with(front, profile);
    let x = choose|x: int| 0 <= x < all[g].0.len() && all[g].0[x] == variant;
    if i < front.len() {
        if g == i {
            if x < front[i].0.len() {
                assert(front[i].0[x] == variant);
                assert(front[i].0.contains(variant));
                lemma_group_profile(targets, fv, i, variant);
            }
        } else {
            assert(all[g] == front[g]);
            lemma_group_profile(targets, fv, g, variant);
        }
    } else if g < front.len() {
        assert(all[g] == front[g]);
        lemma_group_profile(targets, fv, g, variant);
    }
}

proof fn lemma_distinct_has(targets: Seq<Target>, i: int)
    requires
        0 <= i < targets.len(),
    ensures
        slint_gen::distinct_variants(targets).contains(targets[i].0),
    decreases targets.len(),
{
    let front = targets.drop_last();
    let before = slint_gen::distinct_variants(front);
    let all = slint_gen::distinct_variants(targets);
    if i < front.len() {
        lemma_distinct_has(front, i);
        assert(front[i] == targets[i]);
        let k = choose|k: int| 0 <= k < before.len() && before[k] == targets[i].0;
        assert(all[k] == targets[i].0);
    } else if !before.contains(targets.last().0) {
        assert(all[all.len() - 1] == targets.last().0);
    }
}

/// The decision of the first `n` groups of variants.
spec fn grouped_choice(rows: Seq<StyleRow>, groups: Seq<slint_gen::Group>, n: int, fallback: int) -> VariantChoice
    decreases n,
{
    if n <= 0 {
        VariantChoice {
            branches: Seq::empty(),
            otherwise: state_choice(rows, groups[fallback].1, groups[fallback].1.len() as int),
        }
    } else {
        let front = grouped_choice(rows, groups, n - 1, fallback);
        if n - 1 == fallback {
            front
        } else {
            VariantChoice {
                branches: front.branches.push(
                    (
                        groups[n - 1].0,
                        state_choice(rows, groups[n - 1].1, groups[n - 1].1.len() as int),
                    ),
                ),
                ..front
            }
        }
    }
}

proof fn lemma_variant_text_same(
    a: VariantChoice,
    b: VariantChoice,
    n: int,
    variant_enum: Seq<char>,
    state_enum: Seq<char>,
)
    requires
        0 <= n <= a.branches.len(),
        n <= b.branches.len(),
        forall|i: int| 0 <= i < n ==> a.branches[i] == #[trigger] b.branches[i],
    ensures
        variant_branches_text(a, n, variant_enum, state_enum) == variant_branches_text(
            b,
            n,
            variant_enum,
            state_enum,
        ),
    decreases n,
{
    if n > 0 {
        lemma_variant_text_same(a, b, n - 1, variant_enum, state_enum);
        assert(a.branches[n - 1] == b.branches[n - 1]);
    }
}

proof fn lemma_variant_clauses(variants: Seq<Seq<char>>, variant_enum: Seq<char>)
    ensures
        text::join(slint_gen::variant_clauses(variants, variant_enum), "\n            || "@) == condition(
            "v"@,
            variant_enum,
            "        "@,
            variants,
        ),
{
    reveal_strlit("v == ");
    reveal_strlit("v");
    reveal_strlit(" == ");
    reveal_strlit("\n");
    reveal_strlit("        ");
    reveal_strlit("    || ");
    reveal_strlit("\n            || ");
    assert("v"@ + " == "@ =~= "v == "@);
    assert("\n"@ + "        "@ + "    || "@ =~= "\n            || "@);
    assert(slint_gen::variant_clauses(variants, variant_enum) =~= Seq::new(
        variants.len(),
        |i: int| "v"@ + " == "@ + variant_enum + "."@ + variants[i],
    ));
}

proof fn lemma_grouped_text(
    rows: Seq<StyleRow>,
    groups: Seq<slint_gen::Group>,
    n: int,
    fallback: int,
    variant_enum: Seq<char>,
    state_enum: Seq<char>,
)
    requires
        0 <= n <= groups.len(),
    ensures
        slint_gen::variant_branches(rows, groups, n, fallback, variant_enum, state_enum)
            == variant_branches_text(
            grouped_choice(rows, groups, n, fallback),
            grouped_choice(rows, groups, n, fallback).branches.len() as int,
            variant_enum,
            state_enum,
        ),
    decreases n,
{
    if n > 0 {
        lemma_grouped_text(rows, groups, n - 1, fallback, variant_enum, state_enum);
        let before = grouped_choice(rows, groups, n - 1, fallback);
        let c = grouped_choice(rows, groups, n, fallback);
        if n - 1 != fallback {
            let group = groups[n - 1];
            let k = before.branches.len() as int;
            let inner = state_choice(rows, group.1, group.1.len() as int);
            lemma_variant_text_same(before, c, k, variant_enum, state_enum);
            lemma_variant_clauses(group.0, variant_enum);
            lemma_state_text(rows, group.1, group.1.len() as int, state_enum, "            "@);
            lemma_otherwise(rows, group.1, group.1.len() as int);
            assert(c.branches[k] == (group.0, inner));
            assert(slint_gen::state_lookup(rows, group.1, state_enum, "            "@) == choice_text(
                inner,
                "st"@,
                state_enum,
                "            "@,
            ));
            let front = variant_branches_text(c, k, variant_enum, state_enum);
            let test = condition("v"@, variant_enum, "        "@, group.0);
            let body = choice_text(inner, "st"@, state_enum, "            "@);
            assert(front + ("        if "@ + test + " {\n"@ + body + "        }\n"@) =~= front + "        if "@ + test
                + " {\n"@ + body + "        }\n"@);
        }
    }
}

proof fn lemma_grouped_otherwise(rows: Seq<StyleRow>, groups: Seq<slint_gen::Group>, n: int, fallback: int)
    ensures
        grouped_choice(rows, groups, n, fallback).otherwise == state_choice(
            rows,
            groups[fallback].1,
            groups[fallback].1.len() as int,
        ),
    decreases n,
{
    if n > 0 {
        lemma_grouped_otherwise(rows, groups, n - 1, fallback);
    }
}

/// The group that a branch comes from.
proof fn lemma_branch_group(
    rows: Seq<StyleRow>,
    groups: Seq<slint_gen::Group>,
    n: int,
    fallback: int,
    k: int,
) -> (g: int)
    requires
        0 <= k < grouped_choice(rows, groups, n, fallback).branches.len(),
    ensures
        0 <= g < n,
        g != fallback,
        grouped_choice(rows, groups, n, fallback).branches[k] == (
            groups[g].0,
            state_choice(rows, groups[g].1, groups[g].1.len() as int),
        ),
    decreases n,
{
    if n - 1 != fallback && k == grouped_choice(rows, groups, n - 1, fallback).branches.len() {
        n - 1
    } else {
        lemma_branch_group(rows, groups, n - 1, fallback, k)
    }
}

/// The branch of a group.
proof fn lemma_group_branch(
    rows: Seq<StyleRow>,
    groups: Seq<slint_gen::Group>,
    n: int,
    fallback: int,
    g: int,
) -> (k: int)
    requires
        0 <= g < n,
        g != fallback,
    ensures
        0 <= k < grouped_choice(rows, groups, n, fallback).branches.len(),
        grouped_choice(rows, groups, n, fallback).branches[k] == (
            groups[g].0,
            state_choice(rows, groups[g].1, groups[g].1.len() as int),
        ),
    decreases n,
{
    if g == n - 1 {
        grouped_choice(rows, groups, n - 1, fallback).branches.len() as int
    } else {
        lemma_group_branch(rows, groups, n - 1, fallback, g)
    }
}

proof fn lemma_otherwise(rows: Seq<StyleRow>, profile: Fields, n: int)
    ensures
        state_choice(rows, profile, n).otherwise == slint_gen::fields_named(
            rows,
            slint_gen::normal_target(profile),
        ),
    decreases n,
{
    if n > 0 {
        lemma_otherwise(rows, profile, n - 1);
    }
}

/// Where every branch for a variant decides in the same way, it is decided in that way.
proof fn lemma_choice_from(c: VariantChoice, variant: Seq<char>, from: int, way: Choice)
    requires
        0 <= from <= c.branches.len(),
        forall|k: int|
            from <= k < c.branches.len() && (#[trigger] c.branches[k]).0.contains(variant) ==> c.branches[k].1
                == way,
        (exists|k: int| from <= k < c.branches.len() && (#[trigger] c.branches[k]).0.contains(variant))
            || c.otherwise == way,
    ensures
        choice_from(c, variant, from) == way,
    decreases c.branches.len() - from,
{
    if from < c.branches.len() && !c.branches[from].0.contains(variant) {
        lemma_choice_from(c, variant, from + 1, way);
    }
}

/// The statements that choose by variant and state decide rightly: each variant and state gets the
/// fields of the row that its target names.
pub proof fn variant_lookup_decides(
    rows: Seq<StyleRow>,
    targets: Seq<Target>,
    variant_enum: Seq<char>,
    state_enum: Seq<char>,
) -> (c: VariantChoice)
    requires
        variant_enum.len() > 0,
        targets.len() > 0,
        slint_gen::all_targets_known(rows, targets),
        one_target_per_cell(targets),
    ensures
        slint_gen::variant_lookup(rows, targets, variant_enum, state_enum) == variant_choice_text(
            c,
            variant_enum,
            state_enum,
        ),
        forall|i: int|
            0 <= i < targets.len() ==> are_fields_of(
                chosen_for(c, (#[trigger] targets[i]).0, targets[i].1),
                rows,
                targets[i].2,
            ),
{
    let variants = slint_gen::distinct_variants(targets);
    let groups = slint_gen::grouped(targets, variants);
    let fallback = slint_gen::group_holding(groups, variants.last(), 0);
    slint_gen::lemma_distinct(targets);
    slint_gen::lemma_grouped(rows, targets, variants);
    assert(variants[variants.len() - 1] == variants.last());
    slint_gen::lemma_group_holding(groups, variants.last(), 0);
    let n = groups.len() as int;
    let c = grouped_choice(rows, groups, n, fallback);
    lemma_grouped_text(rows, groups, n, fallback, variant_enum, state_enum);
    lemma_grouped_otherwise(rows, groups, n, fallback);
    let last = groups[fallback].1;
    lemma_state_text(rows, last, last.len() as int, state_enum, "        "@);
    lemma_otherwise(rows, last, last.len() as int);
    assert forall|i: int| 0 <= i < targets.len() implies are_fields_of(
        chosen_for(c, (#[trigger] targets[i]).0, targets[i].1),
        rows,
        targets[i].2,
    ) by {
        let v = targets[i].0;
        let profile = slint_gen::profile_of(targets, v);
        let way = state_choice(rows, profile, profile.len() as int);
        lemma_distinct_has(targets, i);
        let x = choose|x: int| 0 <= x < variants.len() && variants[x] == v;
        let g = choose|g: int| 0 <= g < groups.len() && (#[trigger] groups[g]).0.contains(variants[x]);
        lemma_group_profile(targets, variants, g, v);
        assert forall|k: int| 0 <= k < c.branches.len() && (#[trigger] c.branches[k]).0.contains(v) implies c.branches[k].1
            == way by {
            let h = lemma_branch_group(rows, groups, n, fallback, k);
            lemma_group_profile(targets, variants, h, v);
        }
        if g == fallback {
            assert(c.otherwise == way);
        } else {
            let k = lemma_group_branch(rows, groups, n, fallback, g);
            assert(c.branches[k].0.contains(v));
        }
        lemma_choice_from(c, v, 0, way);
        slint_gen::lemma_profile(rows, targets, v);
        assert(slint_gen::has_target(targets, v)) by {
            assert(targets[i].0 == v);
        }
        lemma_profile_one_target(targets, v);
        lemma_profile_of(targets, v, targets[i].1, targets[i].2);
        assert(targets[i] == (v, targets[i].1, targets[i].2));
        let m = choose|m: int| 0 <= m < profile.len() && #[trigger] profile[m] == (targets[i].1, targets[i].2);
        lemma_way(rows, profile, m);
    }
    c
}

/// The decision of a profile is right for each of its entries.
proof fn lemma_way(rows: Seq<StyleRow>, profile: Fields, i: int)
    requires
        0 <= i < profile.len(),
        slint_gen::targets_known(rows, profile),
        one_target_each(profile),
    ensures
        are_fields_of(
            chosen(state_choice(rows, profile, profile.len() as int), profile[i].0),
            rows,
            profile[i].1,
        ),
{
    let n = profile.len() as int;
    let c = state_choice(rows, profile, n);
    let normal = slint_gen::normal_target(profile);
    let value = profile[i].0;
    let target = profile[i].1;
    lemma_state_choice(rows, profile, n, i);
    assert(slint_gen::has_row(rows, profile[i].1));
    lemma_fields_named(rows, target);
    assert forall|k: int| 0 <= k < c.branches.len() && (#[trigger] c.branches[k]).0.contains(
        value,
    ) implies c.branches[k].1 == slint_gen::fields_named(rows, target) && target != normal by {
        let j = choose|j: int|
            0 <= j < n && #[trigger] profile[j].1 != normal && c.branches[k] == (
                states_with(profile, profile[j].1),
                slint_gen::fields_named(rows, profile[j].1),
            );
        lemma_states_with(profile, profile[j].1, value);
        let m = choose|m: int| 0 <= m < profile.len() && #[trigger] profile[m] == (value, profile[j].1);
        assert(profile[m].0 == profile[i].0);
    }
    if target == normal {
        lemma_chosen_none(c, value, 0);
    } else {
        let k = choose|k: int|
            0 <= k < c.branches.len() && #[trigger] c.branches[k] == (
                states_with(profile, target),
                slint_gen::fields_named(rows, target),
            );
        lemma_states_with(profile, target, value);
        assert(profile[i] == (value, target));
        lemma_first(c, value, k);
    }
}

// ---------------------------------------------------------------------------------------------
// By size
// ---------------------------------------------------------------------------------------------
proof fn lemma_size_clauses(targets: Fields, name: Seq<char>, size_enum: Seq<char>)
    ensures
        slint_gen::size_clauses(targets, name, size_enum) == Seq::new(
            states_with(targets, name).len(),
            |i: int| "s"@ + " == "@ + size_enum + "."@ + states_with(targets, name)[i],
        ),
    decreases targets.len(),
{
    reveal_strlit("s == ");
    reveal_strlit("s");
    reveal_strlit(" == ");
    assert("s"@ + " == "@ =~= "s == "@);
    let goal = Seq::new(
        states_with(targets, name).len(),
        |i: int| "s"@ + " == "@ + size_enum + "."@ + states_with(targets, name)[i],
    );
    if targets.len() > 0 {
        lemma_size_clauses(targets.drop_last(), name, size_enum);
    }
    assert(slint_gen::size_clauses(targets, name, size_enum) =~= goal);
}

/// The decision of the first `n` rows of sizes.
spec fn size_choice(rows: Seq<StyleRow>, targets: Fields, n: int, fallback: Seq<char>) -> Choice
    decreases n,
{
    if n <= 0 {
        Choice { branches: Seq::empty(), otherwise: slint_gen::fields_named(rows, fallback) }
    } else {
        let front = size_choice(rows, targets, n - 1, fallback);
        if rows[n - 1].0 == fallback {
            front
        } else {
            Choice {
                branches: front.branches.push((states_with(targets, rows[n - 1].0), rows[n - 1].1)),
                ..front
            }
        }
    }
}

proof fn lemma_size_text(rows: Seq<StyleRow>, targets: Fields, n: int, fallback: Seq<char>, size_enum: Seq<char>)
    requires
        0 <= n <= rows.len(),
    ensures
        slint_gen::size_branches(rows, targets, n, fallback, size_enum) == branches_text(
            size_choice(rows, targets, n, fallback),
            size_choice(rows, targets, n, fallback).branches.len() as int,
            "s"@,
            size_enum,
            "        "@,
        ),
        size_choice(rows, targets, n, fallback).otherwise == slint_gen::fields_named(rows, fallback),
    decreases n,
{
    if n > 0 {
        lemma_size_text(rows, targets, n - 1, fallback, size_enum);
        let before = size_choice(rows, targets, n - 1, fallback);
        let c = size_choice(rows, targets, n, fallback);
        let row = rows[n - 1];
        if row.0 != fallback {
            let k = before.branches.len() as int;
            lemma_branches_text_same(before, c, k, "s"@, size_enum, "        "@);
            lemma_size_clauses(targets, row.0, size_enum);
            reveal_strlit("\n");
            reveal_strlit("    ");
            reveal_strlit("        ");
            reveal_strlit("            ");
            reveal_strlit("if ");
            reveal_strlit("        if ");
            reveal_strlit("}\n");
            reveal_strlit("        }\n");
            reveal_strlit("    || ");
            reveal_strlit("\n            || ");
            assert("\n"@ + "        "@ + "    || "@ =~= "\n            || "@);
            assert("        "@ + "    "@ =~= "            "@);
            assert("        "@ + "if "@ =~= "        if "@);
            assert("        "@ + "}\n"@ =~= "        }\n"@);
            assert(c.branches[k] == (states_with(targets, row.0), row.1));
            let front = branches_text(c, k, "s"@, size_enum, "        "@);
            let test = condition("s"@, size_enum, "        "@, states_with(targets, row.0));
            let body = slint_gen::struct_return(row.1, "            "@);
            assert(front + "        if "@ =~= front + "        "@ + "if "@);
            assert(front + "        if "@ + test + " {\n"@ + body + "        }\n"@ =~= front + "        "@ + "if "@ + test
                + " {\n"@ + body + "        "@ + "}\n"@);
        }
    }
}

/// The row that a branch comes from.
proof fn lemma_size_branch_row(rows: Seq<StyleRow>, targets: Fields, n: int, fallback: Seq<char>, k: int) -> (r: int)
    requires
        0 <= n <= rows.len(),
        0 <= k < size_choice(rows, targets, n, fallback).branches.len(),
    ensures
        0 <= r < n,
        rows[r].0 != fallback,
        size_choice(rows, targets, n, fallback).branches[k] == (states_with(targets, rows[r].0), rows[r].1),
    decreases n,
{
    if rows[n - 1].0 != fallback && k == size_choice(rows, targets, n - 1, fallback).branches.len() {
        n - 1
    } else {
        lemma_size_branch_row(rows, targets, n - 1, fallback, k)
    }
}

/// The branch of a row.
proof fn lemma_size_row_branch(rows: Seq<StyleRow>, targets: Fields, n: int, fallback: Seq<char>, r: int) -> (k: int)
    requires
        0 <= r < n <= rows.len(),
        rows[r].0 != fallback,
    ensures
        0 <= k < size_choice(rows, targets, n, fallback).branches.len(),
        size_choice(rows, targets, n, fallback).branches[k] == (states_with(targets, rows[r].0), rows[r].1),
    decreases n,
{
    if r == n - 1 {
        size_choice(rows, targets, n - 1, fallback).branches.len() as int
    } else {
        lemma_size_row_branch(rows, targets, n - 1, fallback, r)
    }
}

proof fn lemma_most_used(rows: Seq<StyleRow>, targets: Fields, n: int, r: int)
    requires
        0 <= r < n <= rows.len(),
    ensures
        0 <= slint_gen::most_used(rows, targets, n) < n,
        slint_gen::uses(targets, rows[r].0) <= slint_gen::uses(
            targets,
            rows[slint_gen::most_used(rows, targets, n)].0,
        ),
    decreases n,
{
    if n > 1 {
        if r < n - 1 {
            lemma_most_used(rows, targets, n - 1, r);
        } else {
            lemma_most_used(rows, targets, n - 1, 0);
        }
    }
}

/// Whether rows of one name have the same fields.
pub open spec fn named_apart(rows: Seq<StyleRow>) -> bool {
    forall|a: int, b: int|
        0 <= a < rows.len() && 0 <= b < rows.len() && (#[trigger] rows[a]).0 == (#[trigger] rows[b]).0
            ==> rows[a].1 == rows[b].1
}

/// The statements that choose by size decide rightly: each size gets the fields of the row that its
/// target names.
pub proof fn size_lookup_decides(rows: Seq<StyleRow>, targets: Fields, size_enum: Seq<char>) -> (c: Choice)
    requires
        rows.len() > 0,
        named_apart(rows),
        slint_gen::targets_known(rows, targets),
        one_target_each(targets),
    ensures
        slint_gen::size_lookup(rows, targets, size_enum) == choice_text(c, "s"@, size_enum, "        "@),
        forall|i: int|
            0 <= i < targets.len() ==> are_fields_of(
                chosen(c, (#[trigger] targets[i]).0),
                rows,
                targets[i].1,
            ),
{
    let n = rows.len() as int;
    let best = slint_gen::most_used(rows, targets, n);
    let fallback = rows[best].0;
    let c = size_choice(rows, targets, n, fallback);
    lemma_most_used(rows, targets, n, 0);
    lemma_size_text(rows, targets, n, fallback, size_enum);
    assert forall|i: int| 0 <= i < targets.len() implies are_fields_of(
        chosen(c, (#[trigger] targets[i]).0),
        rows,
        targets[i].1,
    ) by {
        let value = targets[i].0;
        let name = targets[i].1;
        assert(slint_gen::has_row(rows, targets[i].1));
        lemma_fields_named(rows, name);
        slint_gen::row_named_is(rows, name);
        let r = slint_gen::row_named(rows, name);
        assert forall|k: int| 0 <= k < c.branches.len() && (#[trigger] c.branches[k]).0.contains(
            value,
        ) implies c.branches[k].1 == slint_gen::fields_named(rows, name) && name != fallback by {
            let q = lemma_size_branch_row(rows, targets, n, fallback, k);
            lemma_states_with(targets, rows[q].0, value);
            let m = choose|m: int| 0 <= m < targets.len() && #[trigger] targets[m] == (value, rows[q].0);
            assert(targets[m].0 == targets[i].0);
            assert(rows[q].0 == rows[r].0);
        }
        if name == fallback {
            lemma_chosen_none(c, value, 0);
        } else {
            let k = lemma_size_row_branch(rows, targets, n, fallback, r);
            lemma_states_with(targets, name, value);
            assert(targets[i] == (value, name));
            lemma_first(c, value, k);
        }
    }
    c
}

// ---------------------------------------------------------------------------------------------
// The generated functions
// ---------------------------------------------------------------------------------------------
proof fn lemma_shared(rows: Seq<StyleRow>, i: int)
    requires
        0 <= i < rows.len(),
    ensures
        slint_gen::has_row(slint_gen::distinct_rows(rows), slint_gen::shared_names(rows)[i]),
{
    let d = slint_gen::distinct_rows(rows);
    slint_gen::lemma_distinct_rows_cover(rows, i);
    slint_gen::row_named_is(d, d[slint_gen::row_with_fields(d, rows[i].1)].0);
}

/// The row that the shared name of a row leads to has that row's fields.
proof fn lemma_shared_fields(rows: Seq<StyleRow>, i: int, fields: Fields)
    requires
        0 <= i < rows.len(),
        named_apart(rows),
        are_fields_of(fields, slint_gen::distinct_rows(rows), slint_gen::shared_names(rows)[i]),
    ensures
        fields == rows[i].1,
{
    let d = slint_gen::distinct_rows(rows);
    let name = slint_gen::shared_names(rows)[i];
    let k = slint_gen::row_with_fields(d, rows[i].1);
    slint_gen::lemma_distinct_rows_cover(rows, i);
    slint_gen::lemma_row_with_fields(d, rows[i].1);
    let r = choose|r: int|
        0 <= r < d.len() && (#[trigger] d[r]).0 == name && d[r].1 == fields && forall|q: int|
            0 <= q < r ==> (#[trigger] d[q]).0 != name;
    let a = slint_gen::lemma_distinct_rows_from(rows, r);
    let b = slint_gen::lemma_distinct_rows_from(rows, k);
    assert(rows[a].0 == rows[b].0);
}

proof fn lemma_distinct_apart(rows: Seq<StyleRow>)
    requires
        named_apart(rows),
    ensures
        named_apart(slint_gen::distinct_rows(rows)),
{
    let d = slint_gen::distinct_rows(rows);
    assert forall|a: int, b: int|
        0 <= a < d.len() && 0 <= b < d.len() && (#[trigger] d[a]).0 == (#[trigger] d[b]).0 implies d[a].1
        == d[b].1 by {
        let x = slint_gen::lemma_distinct_rows_from(rows, a);
        let y = slint_gen::lemma_distinct_rows_from(rows, b);
        assert(rows[x].0 == rows[y].0);
    }
}

/// The place of a variant and a state among the cells.
proof fn lemma_cell_at(variants: Seq<Seq<char>>, states: Seq<Seq<char>>, a: int, b: int) -> (i: int)
    requires
        0 <= a < variants.len(),
        0 <= b < states.len(),
    ensures
        0 <= i < slint_gen::cells(variants, states).len(),
        slint_gen::cells(variants, states)[i] == (variants[a], states[b]),
    decreases variants.len(),
{
    let front = slint_gen::cells(variants.drop_last(), states);
    if a == variants.len() - 1 {
        front.len() + b
    } else {
        let i = lemma_cell_at(variants.drop_last(), states, a, b);
        assert(slint_gen::cells(variants, states)[i] == front[i]);
        i
    }
}

/// The states that a lookup by state knows.
pub open spec fn known_states(plugin: PluginModel) -> Seq<Seq<char>> {
    if plugin.states.len() == 0 {
        seq!["normal"@]
    } else {
        plugin.states
    }
}

/// The sizes that a lookup by size knows.
pub open spec fn known_sizes(plugin: PluginModel) -> Seq<Seq<char>> {
    if plugin.sizes.len() == 0 {
        seq!["default"@]
    } else {
        plugin.sizes
    }
}

/// The generated `style` function returns for every variant and state the fields of that variant in
/// that state. (Two variants and states whose names run together need the same fields.)
pub proof fn style_function_decides(key: Seq<char>, plugin: PluginModel, overrides: Option<OverridesModel>) -> (c:
    VariantChoice)
    requires
        plugin.variants.len() > 0,
        slint_gen::variant_enum_name(key, plugin).len() > 0,
        named_apart(slint_gen::variant_matrix(key, plugin, overrides)),
    ensures
        slint_gen::style_function(key, plugin, overrides) == "    public pure function style("@ + "v: "@
            + slint_gen::variant_enum_name(key, plugin) + ", st: "@ + slint_gen::state_enum_name(key, plugin)
            + ") -> "@ + plugin.component + "VariantProps {\n"@ + variant_choice_text(
            c,
            slint_gen::variant_enum_name(key, plugin),
            slint_gen::state_enum_name(key, plugin),
        ) + "    }\n"@,
        forall|v: Seq<char>, st: Seq<char>| #[trigger]
            plugin.variants.contains(v) && #[trigger] known_states(plugin).contains(st) ==> chosen_for(c, v, st)
                == slint_gen::variant_fields(plugin, overrides, v, st),
{
    let states = known_states(plugin);
    let all = slint_gen::cells(plugin.variants, states);
    let rows = slint_gen::variant_matrix(key, plugin, overrides);
    let d = slint_gen::distinct_rows(rows);
    let targets = slint_gen::variant_targets(key, plugin, overrides);
    let ve = slint_gen::variant_enum_name(key, plugin);
    let se = slint_gen::state_enum_name(key, plugin);
    let first = lemma_cell_at(plugin.variants, states, 0, 0);
    assert forall|i: int| 0 <= i < targets.len() implies slint_gen::has_row(d, (#[trigger] targets[i]).2) by {
        lemma_shared(rows, i);
    }
    assert forall|i: int, j: int|
        0 <= i < targets.len() && 0 <= j < targets.len() && (#[trigger] targets[i]).0 == (
        #[trigger] targets[j]).0 && targets[i].1 == targets[j].1 implies targets[i].2 == targets[j].2 by {
        assert(rows[i].1 == rows[j].1);
    }
    let c = variant_lookup_decides(d, targets, ve, se);
    assert forall|v: Seq<char>, st: Seq<char>| #[trigger]
        plugin.variants.contains(v) && #[trigger] states.contains(st) implies chosen_for(c, v, st)
        == slint_gen::variant_fields(plugin, overrides, v, st) by {
        let a = choose|a: int| 0 <= a < plugin.variants.len() && plugin.variants[a] == v;
        let b = choose|b: int| 0 <= b < states.len() && states[b] == st;
        let i = lemma_cell_at(plugin.variants, states, a, b);
        assert(targets[i].0 == v && targets[i].1 == st);
        lemma_shared_fields(rows, i, chosen_for(c, v, st));
    }
    let body = variant_choice_text(c, ve, se);
    assert("    public pure function style("@ + ("v: "@ + ve + ", st: "@ + se) + ") -> "@ + plugin.component
        + "VariantProps {\n"@ + body + "    }\n"@ =~= "    public pure function style("@ + "v: "@ + ve + ", st: "@ + se
        + ") -> "@ + plugin.component + "VariantProps {\n"@ + body + "    }\n"@);
    c
}

/// The generated `style` function of a component with the one variant `default` returns for every state
/// the fields of that variant in that state.
pub proof fn single_style_function_decides(
    key: Seq<char>,
    plugin: PluginModel,
    overrides: Option<OverridesModel>,
) -> (c: Choice)
    requires
        slint_gen::style_mode(key, plugin) == slint_gen::VariantStyleMode::SingleDefault,
        named_apart(slint_gen::variant_matrix(key, plugin, overrides)),
    ensures
        slint_gen::style_function(key, plugin, overrides) == "    public pure function style("@ + "st: "@
            + slint_gen::state_enum_name(key, plugin) + ") -> "@ + plugin.component + "VariantProps {\n"@
            + choice_text(c, "st"@, slint_gen::state_enum_name(key, plugin), "        "@) + "    }\n"@,
        forall|st: Seq<char>| #[trigger]
            known_states(plugin).contains(st) ==> chosen(c, st) == slint_gen::variant_fields(
                plugin,
                overrides,
                "default"@,
                st,
            ),
{
    let states = known_states(plugin);
    let all = slint_gen::cells(plugin.variants, states);
    let rows = slint_gen::variant_matrix(key, plugin, overrides);
    let d = slint_gen::distinct_rows(rows);
    let targets = slint_gen::variant_targets(key, plugin, overrides);
    let se = slint_gen::state_enum_name(key, plugin);
    let profile = Seq::new(targets.len(), |i: int| (targets[i].1, targets[i].2));
    let first = lemma_cell_at(plugin.variants, states, 0, 0);
    lemma_cells_variant(plugin.variants, states);
    assert forall|i: int| 0 <= i < profile.len() implies slint_gen::has_row(d, (#[trigger] profile[i]).1) by {
        lemma_shared(rows, i);
    }
    assert forall|i: int, j: int|
        0 <= i < profile.len() && 0 <= j < profile.len() && (#[trigger] profile[i]).0 == (
        #[trigger] profile[j]).0 implies profile[i].1 == profile[j].1 by {
        assert(all[i].0 == all[j].0);
        assert(rows[i].1 == rows[j].1);
    }
    let c = state_lookup_decides(d, profile, se, "        "@);
    assert forall|st: Seq<char>| #[trigger] states.contains(st) implies chosen(c, st)
        == slint_gen::variant_fields(plugin, overrides, "default"@, st) by {
        let b = choose|b: int| 0 <= b < states.len() && states[b] == st;
        let i = lemma_cell_at(plugin.variants, states, 0, b);
        assert(profile[i].0 == st);
        lemma_shared_fields(rows, i, chosen(c, st));
    }
    reveal_strlit("");
    let body = choice_text(c, "st"@, se, "        "@);
    assert("    public pure function style("@ + ("st: "@ + se) + ") -> "@ + plugin.component + "VariantProps {\n"@ + body
        + "    }\n"@ =~= "    public pure function style("@ + "st: "@ + se + ") -> "@ + plugin.component
        + "VariantProps {\n"@ + body + "    }\n"@);
    c
}

proof fn lemma_cells_variant(variants: Seq<Seq<char>>, states: Seq<Seq<char>>)
    ensures
        forall|i: int|
            0 <= i < slint_gen::cells(variants, states).len() ==> variants.contains(
                (#[trigger] slint_gen::cells(variants, states)[i]).0,
            ),
    decreases variants.len(),
{
    if variants.len() > 0 {
        let front = slint_gen::cells(variants.drop_last(), states);
        let all = slint_gen::cells(variants, states);
        lemma_cells_variant(variants.drop_last(), states);
        assert(variants[variants.len() - 1] == variants.last());
        assert forall|i: int| 0 <= i < all.len() implies variants.contains((#[trigger] all[i]).0) by {
            if i < front.len() {
                assert(all[i] == front[i]);
                let k = choose|k: int|
                    0 <= k < variants.drop_last().len() && variants.drop_last()[k] == front[i].0;
                assert(variants[k] == all[i].0);
            }
        }
    }
}

/// The generated `size` function returns for every size the fields of that size.
pub proof fn size_function_decides(plugin: PluginModel, overrides: Option<OverridesModel>) -> (c: Choice)
    requires
        !slint_gen::single_default_size(plugin),
    ensures
        slint_gen::size_function(plugin, overrides) == "    public pure function size(s: "@
            + slint_gen::size_enum_name(plugin) + ") -> "@ + plugin.component + "SizeProps {\n"@ + choice_text(
            c,
            "s"@,
            slint_gen::size_enum_name(plugin),
            "        "@,
        ) + "    }\n"@,
        forall|size: Seq<char>| #[trigger]
            known_sizes(plugin).contains(size) ==> chosen(c, size) == slint_gen::size_fields(
                plugin,
                overrides,
                size,
            ),
{
    let sizes = known_sizes(plugin);
    let rows = slint_gen::size_matrix(plugin, overrides);
    let d = slint_gen::distinct_rows(rows);
    let targets = slint_gen::size_targets(plugin, overrides);
    assert forall|a: int, b: int|
        0 <= a < rows.len() && 0 <= b < rows.len() && (#[trigger] rows[a]).0 == (#[trigger] rows[b]).0 implies rows[a].1
        == rows[b].1 by {}
    lemma_distinct_apart(rows);
    slint_gen::lemma_distinct_rows_cover(rows, 0);
    assert forall|i: int| 0 <= i < targets.len() implies slint_gen::has_row(d, (#[trigger] targets[i]).1) by {
        lemma_shared(rows, i);
    }
    assert forall|i: int, j: int|
        0 <= i < targets.len() && 0 <= j < targets.len() && (#[trigger] targets[i]).0 == (
        #[trigger] targets[j]).0 implies targets[i].1 == targets[j].1 by {
        assert(rows[i].1 == rows[j].1);
    }
    let c = size_lookup_decides(d, targets, slint_gen::size_enum_name(plugin));
    assert forall|size: Seq<char>| #[trigger] sizes.contains(size) implies chosen(c, size)
        == slint_gen::size_fields(plugin, overrides, size) by {
        let i = choose|i: int| 0 <= i < sizes.len() && sizes[i] == size;
        assert(targets[i].0 == size);
        lemma_shared_fields(rows, i, chosen(c, size));
    }
    c
}

/// The generated `size` function of a component with the one size `default` returns its fields.
pub proof fn single_size_function_returns(plugin: PluginModel, overrides: Option<OverridesModel>)
    requires
        slint_gen::single_default_size(plugin),
    ensures
        slint_gen::size_function(plugin, overrides) == "    public pure function size() -> "@ + plugin.component
            + "SizeProps {\n"@ + slint_gen::struct_return(
            slint_gen::size_fields(plugin, overrides, "default"@),
            "        "@,
        ) + "    }\n"@,
{
    let rows = slint_gen::size_matrix(plugin, overrides);
    assert(slint_gen::sizes_of(plugin)[0] == "default"@);
    assert(rows.len() == 1);
    let d = slint_gen::distinct_rows(rows);
    slint_gen::lemma_distinct_rows_cover(rows, 0);
    let a = slint_gen::lemma_distinct_rows_from(rows, 0);
}

/// A generated file holds the `style` function where something varies by variant, and the `size`
/// function where something varies by size, at its end and in this order.
pub proof fn file_holds_functions(
    key: Seq<char>,
    plugin: PluginModel,
    overrides: Option<OverridesModel>,
    theme_import: Seq<char>,
) -> (head: Seq<char>)
    ensures
        slint_gen::theme_file(key, plugin, overrides, theme_import) == head + (if plugin.variant_props.len() > 0 {
            slint_gen::style_function(key, plugin, overrides)
        } else {
            Seq::empty()
        }) + (if plugin.size_props.len() > 0 {
            slint_gen::size_function(plugin, overrides)
        } else {
            Seq::empty()
        }) + "}\n"@,
{
    slint_gen::header() + "\n// GENERATED from "@ + key
        + ".schema.json by foundation theme tooling \u{2014} do not edit by hand.\n"@
        + "// Token-backed props reference the shared Theme global; JSON literals are inlined.\n\n"@
        + "import { "@ + slint_gen::imports_text(key, plugin) + " } from \""@ + theme_import + "\";\n\n"@
        + slint_gen::enums_text(key, plugin) + slint_gen::structs_text(plugin) + "export global "@
        + plugin.component + "Theme {\n"@
}

// ---------------------------------------------------------------------------------------------
// The fields
// ---------------------------------------------------------------------------------------------
/// A returned struct value has one line for each field, with its name and its value, in order.
pub proof fn struct_returns_every_field(fields: Fields, indent: Seq<char>, i: int) -> (parts: (Seq<char>, Seq<char>))
    requires
        0 <= i < fields.len(),
    ensures
        slint_gen::struct_return(fields, indent) == parts.0 + (indent + "    "@ + fields[i].0 + ": "@ + fields[i].1
            + ",\n"@) + parts.1,
        parts.0 == indent + "return {\n"@ + slint_gen::field_lines(fields.take(i), indent),
{
    let (before, after) = lemma_field_lines(fields, indent, i);
    let line = indent + "    "@ + fields[i].0 + ": "@ + fields[i].1 + ",\n"@;
    let a = indent + "return {\n"@ + before;
    let b = after + indent + "};\n"@;
    assert(slint_gen::struct_return(fields, indent) =~= a + line + b);
    (a, b)
}

proof fn lemma_field_lines(fields: Fields, indent: Seq<char>, i: int) -> (parts: (Seq<char>, Seq<char>))
    requires
        0 <= i < fields.len(),
    ensures
        slint_gen::field_lines(fields, indent) == parts.0 + (indent + "    "@ + fields[i].0 + ": "@ + fields[i].1
            + ",\n"@) + parts.1,
        parts.0 == slint_gen::field_lines(fields.take(i), indent),
    decreases fields.len(),
{
    let front = fields.drop_last();
    let last = indent + "    "@ + fields.last().0 + ": "@ + fields.last().1 + ",\n"@;
    assert(slint_gen::field_lines(fields, indent) =~= slint_gen::field_lines(front, indent) + last);
    if i == fields.len() - 1 {
        assert(fields.take(i) =~= front);
        let before = slint_gen::field_lines(front, indent);
        assert(before + last + Seq::<char>::empty() =~= before + last);
        (before, Seq::empty())
    } else {
        let (before, after) = lemma_field_lines(front, indent, i);
        assert(front.take(i) =~= fields.take(i));
        let line = indent + "    "@ + fields[i].0 + ": "@ + fields[i].1 + ",\n"@;
        assert(before + line + after + last =~= before + line + (after + last));
        (before, after + last)
    }
}

/// An override for a variant and a state is the value of the property there, whatever the schema says.
pub proof fn own_override_counts(
    plugin: PluginModel,
    overrides: OverridesModel,
    i: int,
    variant: Seq<char>,
    state: Seq<char>,
    v: schema::Raw,
)
    requires
        0 <= i < plugin.variant_props.len(),
        overrides.variant_props.dom().contains(variant),
        overrides.variant_props[variant].dom().contains(state),
        overrides.variant_props[variant][state].dom().contains(plugin.variant_props[i].name),
        v == overrides.variant_props[variant][state][plugin.variant_props[i].name],
    ensures
        slint_gen::variant_fields(plugin, Some(overrides), variant, state)[i].1 == slint_gen::value_expression(
            schema::slint_type_of(plugin.variant_props[i]),
            v,
        ),
{
}

/// Whether overrides say nothing of a property in a variant and a state.
pub open spec fn no_override(
    overrides: Option<OverridesModel>,
    variant: Seq<char>,
    state: Seq<char>,
    prop: Seq<char>,
) -> bool {
    match overrides {
        None => true,
        Some(o) => !(o.variant_props.dom().contains(variant) && o.variant_props[variant].dom().contains(state)
            && o.variant_props[variant][state].dom().contains(prop)),
    }
}

/// Whether the schema says nothing of a property in a variant and a state.
pub open spec fn no_default(p: schema::PropModel, variant: Seq<char>, state: Seq<char>) -> bool {
    !p.defaults.dom().contains(variant) || p.defaults[variant].state(state) is None
}

/// A property that neither overrides nor schema give in a state has the value of the variant's normal
/// state; and one that neither gives in a variant's normal state has that of the first variant.
pub proof fn missing_state_falls_back(
    plugin: PluginModel,
    overrides: Option<OverridesModel>,
    i: int,
    variant: Seq<char>,
    state: Seq<char>,
)
    requires
        0 <= i < plugin.variant_props.len(),
    ensures
        no_override(overrides, variant, state, plugin.variant_props[i].name) && no_default(
            plugin.variant_props[i],
            variant,
            state,
        ) ==> slint_gen::variant_fields(plugin, overrides, variant, state)[i] == slint_gen::variant_fields(
            plugin,
            overrides,
            variant,
            "normal"@,
        )[i],
        plugin.variants.len() > 0 && no_override(overrides, variant, "normal"@, plugin.variant_props[i].name)
            && no_default(plugin.variant_props[i], variant, "normal"@) ==> slint_gen::variant_fields(
            plugin,
            overrides,
            variant,
            "normal"@,
        )[i] == slint_gen::variant_fields(plugin, overrides, plugin.variants[0], "normal"@)[i],
{
}

/// What the schema gives a property in a variant and a state is its value there, where no override says
/// anything of it in that state, in the variant's normal state or in that of the first variant.
pub proof fn own_default_counts(
    plugin: PluginModel,
    overrides: Option<OverridesModel>,
    i: int,
    variant: Seq<char>,
    state: Seq<char>,
    v: schema::Raw,
)
    requires
        0 <= i < plugin.variant_props.len(),
        no_override(overrides, variant, state, plugin.variant_props[i].name),
        no_override(overrides, variant, "normal"@, plugin.variant_props[i].name),
        plugin.variants.len() > 0 ==> no_override(
            overrides,
            plugin.variants[0],
            "normal"@,
            plugin.variant_props[i].name,
        ),
        plugin.variant_props[i].defaults.dom().contains(variant),
        plugin.variant_props[i].defaults[variant].state(state) == Some(v),
    ensures
        slint_gen::variant_fields(plugin, overrides, variant, state)[i].1 == slint_gen::value_expression(
            schema::slint_type_of(plugin.variant_props[i]),
            v,
        ),
{
}

/// Overrides of a variant's normal state, and of the first variant's, count before the schema.
pub proof fn normal_override_counts_before_defaults(
    plugin: PluginModel,
    overrides: OverridesModel,
    i: int,
    variant: Seq<char>,
    state: Seq<char>,
)
    requires
        0 <= i < plugin.variant_props.len(),
        no_override(Some(overrides), variant, state, plugin.variant_props[i].name),
    ensures
        !no_override(Some(overrides), variant, "normal"@, plugin.variant_props[i].name)
            ==> slint_gen::variant_fields(plugin, Some(overrides), variant, state)[i]
            == slint_gen::variant_fields(plugin, Some(overrides), variant, "normal"@)[i],
        plugin.variants.len() > 0 && no_override(
            Some(overrides),
            variant,
            "normal"@,
            plugin.variant_props[i].name,
        ) && !no_override(Some(overrides), plugin.variants[0], "normal"@, plugin.variant_props[i].name)
            ==> slint_gen::variant_fields(plugin, Some(overrides), variant, state)[i]
            == slint_gen::variant_fields(plugin, Some(overrides), plugin.variants[0], "normal"@)[i],
{
}

/// A size has the value that overrides give it, else the one that they give all sizes, under either of
/// its two keys; and where they give none, the schema's own for the size, else its Common one.
pub proof fn size_value_is_the_nearest(
    plugin: PluginModel,
    overrides: Option<OverridesModel>,
    i: int,
    size: Seq<char>,
    v: schema::Raw,
)
    requires
        0 <= i < plugin.size_props.len(),
    ensures
        ({
            let p = plugin.size_props[i];
            let got = slint_gen::size_fields(plugin, overrides, size)[i].1;
            let want = slint_gen::value_expression(schema::slint_type_of(p), v);
            let given = |key: Seq<char>|
                overrides is Some && overrides->Some_0.size_props.dom().contains(key)
                    && overrides->Some_0.size_props[key].dom().contains(p.name);
            &&& given(size) && overrides->Some_0.size_props[size][p.name] == v ==> got == want
            &&& !given(size) && given("common"@) && overrides->Some_0.size_props["common"@][p.name] == v ==> got
                == want
            &&& !given(size) && !given("common"@) && given("default"@)
                && overrides->Some_0.size_props["default"@][p.name] == v ==> got == want
            &&& !given(size) && !given("common"@) && !given("default"@) ==> {
                &&& p.defaults.dom().contains(size) && p.defaults[size].direct() == Some(v) ==> got == want
                &&& !p.defaults.dom().contains(size) && p.defaults.dom().contains("common"@)
                    && p.defaults["common"@].direct() == Some(v) ==> got == want
                &&& !p.defaults.dom().contains(size) && !p.defaults.dom().contains("common"@)
                    && p.defaults.dom().contains("default"@) && p.defaults["default"@].direct() == Some(v)
                    ==> got == want
            }
        }),
{
}

/// The fields of a struct are those of the properties, each under its name in kebab case and in order.
pub proof fn fields_are_named_by_properties(
    plugin: PluginModel,
    overrides: Option<OverridesModel>,
    variant: Seq<char>,
    state: Seq<char>,
    size: Seq<char>,
)
    ensures
        slint_gen::variant_fields(plugin, overrides, variant, state).len() == plugin.variant_props.len(),
        slint_gen::size_fields(plugin, overrides, size).len() == plugin.size_props.len(),
        forall|i: int|
            0 <= i < plugin.variant_props.len() ==> (#[trigger] slint_gen::variant_fields(
                plugin,
                overrides,
                variant,
                state,
            )[i]).0 == slint_gen::kebab_of(plugin.variant_props[i].name),
        forall|i: int|
            0 <= i < plugin.size_props.len() ==> (#[trigger] slint_gen::size_fields(plugin, overrides, size)[i]).0
                == slint_gen::kebab_of(plugin.size_props[i].name),
{
}

/// A literal color is inlined as it is, a whole number is inlined with its digits and, for a length,
/// with `px` behind them, a truth value as its word and any other text in quotes.
pub proof fn literals_are_inlined(slint_type: Seq<char>, s: Seq<char>, n: i64, b: bool)
    ensures
        s.len() > 0 && s[0] == '#' ==> slint_gen::value_expression(slint_type, schema::Raw::Text(s)) == s,
        slint_gen::value_expression(slint_type, schema::Raw::Int(n)) == (if slint_type == "length"@ {
            text::int_text(n as int) + "px"@
        } else {
            text::int_text(n as int)
        }),
        slint_gen::value_expression(slint_type, schema::Raw::Bool(b)) == (if b {
            "true"@
        } else {
            "false"@
        }),
        !(s.len() > 0 && s[0] == '#') && !s.contains('.') ==> slint_gen::value_expression(
            slint_type,
            schema::Raw::Text(s),
        ) == seq!['"'] + s + seq!['"'],
{
    reveal_strlit("\"");
    assert("\""@ =~= seq!['"']);
    if s.len() > 0 {
        assert(s.take(1) =~= seq![s[0]]);
    }
    let hash = seq!['#'];
    if text::has_prefix(s, hash) {
        assert(s.take(hash.len() as int)[0] == s[0]);
        assert(hash[0] == '#');
    }
    let dot = seq!['.'];
    text::contained_means_occurs(s, dot);
    if text::occurs(s, dot) {
        let k = choose|k: int|
            0 <= k && k + dot.len() <= s.len() && #[trigger] s.subrange(k, k + dot.len()) == dot;
        assert(s.subrange(k, k + dot.len())[0] == s[k]);
        assert(dot[0] == '.');
    }
}

} // verus!
