//! What generated files declare and import: every enum and struct that their functions name.

use vstd::prelude::*;
use crate::schema::{self, PluginModel, PropModel};
use crate::slint_gen::{self, Fields, StyleRow, VariantStyleMode};
use crate::schema::OverridesModel;
use crate::text;
use crate::written;

verus! {

// ---------------------------------------------------------------------------------------------
// Names
// ---------------------------------------------------------------------------------------------
/// A text without ASCII capitals is in kebab case already.
pub proof fn small_text_is_kebab(s: Seq<char>)
    requires
        forall|i: int| 0 <= i < s.len() ==> !text::is_upper(#[trigger] s[i]),
    ensures
        slint_gen::kebab_of(s) == s,
    decreases s.len(),
{
    if s.len() > 0 {
        let front = s.drop_last();
        assert forall|i: int| 0 <= i < front.len() implies !text::is_upper(#[trigger] front[i]) by {
            assert(front[i] == s[i]);
        }
        assert(!text::is_upper(s[s.len() - 1]));
        small_text_is_kebab(front);
        assert(front.push(s.last()) =~= s);
    }
}

/// Kebab case has no ASCII capitals, an inner capital has a hyphen in front of it, and nothing else
/// changes.
pub proof fn capitals_are_hyphenated(s: Seq<char>, c: char)
    ensures
        forall|i: int| 0 <= i < slint_gen::kebab_of(s).len() ==> !text::is_upper(#[trigger] slint_gen::kebab_of(s)[i]),
        s.len() > 0 && text::is_upper(c) ==> slint_gen::kebab_of(s.push(c)) == slint_gen::kebab_of(s) + seq![
            '-',
            text::lower(c),
        ],
        !text::is_upper(c) ==> slint_gen::kebab_of(s.push(c)) == slint_gen::kebab_of(s) + seq![c],
    decreases s.len(),
{
    assert(s.push(c).drop_last() =~= s);
    if s.len() > 0 {
        capitals_are_hyphenated(s.drop_last(), s.last());
        let k = slint_gen::kebab_of(s);
        let before = slint_gen::kebab_of(s.drop_last());
        assert forall|i: int| 0 <= i < k.len() implies !text::is_upper(#[trigger] k[i]) by {
            if i < before.len() {
                assert(k[i] == before[i]);
            }
        }
    }
    if s.len() > 0 && text::is_upper(c) {
        assert(slint_gen::kebab_of(s.push(c)) =~= slint_gen::kebab_of(s) + seq!['-', text::lower(c)]);
    }
    if !text::is_upper(c) {
        assert(slint_gen::kebab_of(s.push(c)) =~= slint_gen::kebab_of(s) + seq![c]);
    }
}

/// A token whose category the global has is named on the global, by its category in kebab case and its
/// key; a color by its key with hyphens for dots; a token of any other category has no name there.
pub proof fn exposed_token_is_named(category: Seq<char>, key: Seq<char>)
    requires
        !category.contains('.'),
    ensures
        category == "color"@ ==> (slint_gen::token_expression(category + seq!['.'] + key) matches Some(e) && e.len()
            == "Theme.color-"@.len() + key.len() && e.take("Theme.color-"@.len() as int) == "Theme.color-"@
            && forall|i: int| "Theme.color-"@.len() <= i < e.len() ==> #[trigger] e[i] != '.'),
        category != "color"@ && slint_gen::is_exposed(category) ==> slint_gen::token_expression(
            category + seq!['.'] + key,
        ) == Some("Theme."@ + slint_gen::kebab_of(category) + "-"@ + key),
        category != "color"@ && !slint_gen::is_exposed(category) ==> slint_gen::token_expression(
            category + seq!['.'] + key,
        ) is None,
{
    crate::store::lemma_named_path(category, key);
    if category == "color"@ {
        let e = slint_gen::token_expression(category + seq!['.'] + key)->Some_0;
        let n = "Theme.color-"@.len() as int;
        let named = text::replace_char(key, '.', '-');
        assert(e.take(n) =~= "Theme.color-"@);
        assert forall|i: int| n <= i < e.len() implies #[trigger] e[i] != '.' by {
            assert(e[i] == named[i - n]);
        }
    }
}

// ---------------------------------------------------------------------------------------------
// Declarations
// ---------------------------------------------------------------------------------------------
proof fn lemma_ends(a: Seq<char>, b: Seq<char>)
    ensures
        text::occurs(a + b, a),
        text::occurs(a + b, b),
{
    let n = a.len() as int;
    let m = b.len() as int;
    assert((a + b).subrange(0int, 0int + a.len()) =~= a);
    assert((a + b).subrange(n, n + b.len()) =~= b);
}

proof fn lemma_within(a: Seq<char>, b: Seq<char>, pat: Seq<char>)
    requires
        text::occurs(a, pat) || text::occurs(b, pat),
    ensures
        text::occurs(a + b, pat),
{
    let none = Seq::<char>::empty();
    if text::occurs(a, pat) {
        written::part_stands_in_whole(none, a, b, pat);
        assert(none + a + b =~= a + b);
    } else {
        written::part_stands_in_whole(a, b, none, pat);
        assert(a + b + none =~= a + b);
    }
}

/// Every item of an enum has a line in its declaration.
pub proof fn enum_declares_items(name: Seq<char>, items: Seq<Seq<char>>, item: Seq<char>)
    requires
        items.contains(item),
    ensures
        text::occurs(slint_gen::enum_text(name, items), "    "@ + item + ",\n"@),
        text::occurs(slint_gen::enum_text(name, items), "export enum "@ + name + " {\n"@),
{
    let head = "export enum "@ + name + " {\n"@;
    let lines = slint_gen::item_lines(items);
    lemma_item_line(items, item);
    lemma_ends(head, lines);
    lemma_within(head, lines, "    "@ + item + ",\n"@);
    lemma_within(head + lines, "}\n\n"@, "    "@ + item + ",\n"@);
    lemma_within(head + lines, "}\n\n"@, head);
}

proof fn lemma_item_line(items: Seq<Seq<char>>, item: Seq<char>)
    requires
        items.contains(item),
    ensures
        text::occurs(slint_gen::item_lines(items), "    "@ + item + ",\n"@),
    decreases items.len(),
{
    let before = slint_gen::item_lines(items.drop_last());
    let last = "    "@ + items.last() + ",\n"@;
    assert(slint_gen::item_lines(items) =~= before + last);
    let i = choose|i: int| 0 <= i < items.len() && items[i] == item;
    if i == items.len() - 1 {
        lemma_ends(before, last);
    } else {
        assert(items.drop_last()[i] == item);
        lemma_item_line(items.drop_last(), item);
        lemma_within(before, last, "    "@ + item + ",\n"@);
    }
}

/// Every property has a field in the declaration of its struct, with its name in kebab case and its type.
pub proof fn struct_declares_fields(name: Seq<char>, props: Seq<PropModel>, i: int)
    requires
        0 <= i < props.len(),
    ensures
        text::occurs(
            slint_gen::struct_text(name, props),
            "    "@ + slint_gen::kebab_of(props[i].name) + ": "@ + schema::slint_type_of(props[i]) + ",\n"@,
        ),
        text::occurs(slint_gen::struct_text(name, props), "export struct "@ + name + " {\n"@),
{
    let head = "export struct "@ + name + " {\n"@;
    let lines = slint_gen::prop_lines(props);
    let l = "    "@ + slint_gen::kebab_of(props[i].name) + ": "@ + schema::slint_type_of(props[i]) + ",\n"@;
    lemma_prop_line(props, i);
    lemma_ends(head, lines);
    lemma_within(head, lines, l);
    lemma_within(head + lines, "}\n\n"@, l);
    lemma_within(head + lines, "}\n\n"@, head);
}

proof fn lemma_prop_line(props: Seq<PropModel>, i: int)
    requires
        0 <= i < props.len(),
    ensures
        text::occurs(
            slint_gen::prop_lines(props),
            "    "@ + slint_gen::kebab_of(props[i].name) + ": "@ + schema::slint_type_of(props[i]) + ",\n"@,
        ),
    decreases props.len(),
{
    let before = slint_gen::prop_lines(props.drop_last());
    let last = "    "@ + slint_gen::kebab_of(props.last().name) + ": "@ + schema::slint_type_of(props.last())
        + ",\n"@;
    assert(slint_gen::prop_lines(props) =~= before + last);
    if i == props.len() - 1 {
        lemma_ends(before, last);
    } else {
        assert(props.drop_last()[i] == props[i]);
        lemma_prop_line(props.drop_last(), i);
        lemma_within(
            before,
            last,
            "    "@ + slint_gen::kebab_of(props[i].name) + ": "@ + schema::slint_type_of(props[i]) + ",\n"@,
        );
    }
}

proof fn lemma_file_parts(
    key: Seq<char>,
    plugin: PluginModel,
    overrides: Option<OverridesModel>,
    theme_import: Seq<char>,
)
    ensures
        text::occurs(
            slint_gen::theme_file(key, plugin, overrides, theme_import),
            "import { "@ + slint_gen::imports_text(key, plugin) + " } from \""@ + theme_import + "\";\n\n"@,
        ),
        text::occurs(
            slint_gen::theme_file(key, plugin, overrides, theme_import),
            slint_gen::enums_text(key, plugin),
        ),
        text::occurs(slint_gen::theme_file(key, plugin, overrides, theme_import), slint_gen::structs_text(plugin)),
{
    let whole = slint_gen::theme_file(key, plugin, overrides, theme_import);
    let style_part = if plugin.variant_props.len() > 0 {
        slint_gen::style_function(key, plugin, overrides)
    } else {
        Seq::empty()
    };
    let size_part = if plugin.size_props.len() > 0 {
        slint_gen::size_function(plugin, overrides)
    } else {
        Seq::empty()
    };
    let head = slint_gen::header() + "\n// GENERATED from "@ + key
        + ".schema.json by foundation theme tooling \u{2014} do not edit by hand.\n"@
        + "// Token-backed props reference the shared Theme global; JSON literals are inlined.\n\n"@;
    let names = slint_gen::imports_text(key, plugin);
    let import = "import { "@ + names + " } from \""@ + theme_import + "\";\n\n"@;
    let enums = slint_gen::enums_text(key, plugin);
    let structs = slint_gen::structs_text(plugin);
    lemma_import(head, "import { "@, names, " } from \""@, theme_import, "\";\n\n"@);
    let a = head + "import { "@ + names + " } from \""@ + theme_import + "\";\n\n"@;
    lemma_ends(a, enums);
    lemma_ends(a + enums, structs);
    lemma_within(a, enums, import);
    lemma_within(a + enums, structs, import);
    lemma_within(a + enums, structs, enums);
    let b = a + enums + structs;
    lemma_six(b, "export global "@, plugin.component, "Theme {\n"@, style_part, size_part, "}\n"@, import);
    lemma_six(b, "export global "@, plugin.component, "Theme {\n"@, style_part, size_part, "}\n"@, enums);
    lemma_six(b, "export global "@, plugin.component, "Theme {\n"@, style_part, size_part, "}\n"@, structs);
    assert(whole == b + "export global "@ + plugin.component + "Theme {\n"@ + style_part + size_part + "}\n"@);
}

proof fn lemma_import(h: Seq<char>, a: Seq<char>, b: Seq<char>, c: Seq<char>, d: Seq<char>, e: Seq<char>)
    ensures
        text::occurs(h + a + b + c + d + e, a + b + c + d + e),
{
    assert(h + a + b + c + d + e =~= h + (a + b + c + d + e));
    lemma_ends(h, a + b + c + d + e);
}

proof fn lemma_six(
    p: Seq<char>,
    a: Seq<char>,
    b: Seq<char>,
    c: Seq<char>,
    d: Seq<char>,
    e: Seq<char>,
    f: Seq<char>,
    pat: Seq<char>,
)
    requires
        text::occurs(p, pat),
    ensures
        text::occurs(p + a + b + c + d + e + f, pat),
{
    lemma_within(p, a, pat);
    lemma_within(p + a, b, pat);
    lemma_within(p + a + b, c, pat);
    lemma_within(p + a + b + c, d, pat);
    lemma_within(p + a + b + c + d, e, pat);
    lemma_within(p + a + b + c + d + e, f, pat);
}

proof fn lemma_occurs_through(whole: Seq<char>, part: Seq<char>, pat: Seq<char>)
    requires
        text::occurs(whole, part),
        text::occurs(part, pat),
    ensures
        text::occurs(whole, pat),
{
    let i = choose|i: int|
        0 <= i && i + part.len() <= whole.len() && #[trigger] whole.subrange(i, i + part.len()) == part;
    assert(whole =~= whole.take(i) + part + whole.skip(i + part.len()));
    written::part_stands_in_whole(whole.take(i), part, whole.skip(i + part.len()), pat);
}

/// A generated file declares the enums of variants, states and sizes by which its functions choose, with
/// all of their items, unless it imports them.
#[verifier::spinoff_prover]
#[verifier::rlimit(40)]
pub proof fn file_declares_or_imports_enums(
    key: Seq<char>,
    plugin: PluginModel,
    overrides: Option<OverridesModel>,
    theme_import: Seq<char>,
)
    ensures
        ({
            let file = slint_gen::theme_file(key, plugin, overrides, theme_import);
            let mode = slint_gen::style_mode(key, plugin);
            &&& mode == VariantStyleMode::GeneratedEnums ==> text::occurs(
                file,
                slint_gen::enum_text(slint_gen::variant_enum_name(key, plugin), plugin.variants),
            ) && text::occurs(
                file,
                slint_gen::enum_text(slint_gen::state_enum_name(key, plugin), plugin.states),
            )
            &&& mode == VariantStyleMode::SingleDefault ==> text::occurs(
                file,
                slint_gen::enum_text(slint_gen::state_enum_name(key, plugin), plugin.states),
            )
            &&& mode == VariantStyleMode::ImportedEnums ==> text::occurs(
                file,
                "import { Theme, ControlSize, "@ + slint_gen::variant_enum_name(key, plugin) + ", "@
                    + slint_gen::state_enum_name(key, plugin) + " } from \""@ + theme_import + "\";\n"@,
            )
            &&& slint_gen::own_size_enum(plugin) ==> text::occurs(
                file,
                slint_gen::enum_text(slint_gen::size_enum_name(plugin), slint_gen::sizes_of(plugin)),
            )
            &&& !slint_gen::own_size_enum(plugin) ==> slint_gen::size_enum_name(plugin) == "ControlSize"@
        }),
{
    let file = slint_gen::theme_file(key, plugin, overrides, theme_import);
    let mode = slint_gen::style_mode(key, plugin);
    lemma_file_parts(key, plugin, overrides, theme_import);
    let enums = slint_gen::enums_text(key, plugin);
    let a = slint_gen::enum_text(slint_gen::variant_enum_name(key, plugin), plugin.variants);
    let b = slint_gen::enum_text(slint_gen::state_enum_name(key, plugin), plugin.states);
    let c = slint_gen::enum_text(slint_gen::size_enum_name(plugin), slint_gen::sizes_of(plugin));
    let own = slint_gen::own_size_enum(plugin);
    lemma_ends(a, b);
    if mode == VariantStyleMode::GeneratedEnums {
        if own {
            lemma_within(a + b, c, a);
            lemma_within(a + b, c, b);
            lemma_ends(a + b, c);
        }
        lemma_occurs_through(file, enums, a);
        lemma_occurs_through(file, enums, b);
    } else if mode == VariantStyleMode::SingleDefault {
        lemma_ends(b, Seq::empty());
        assert(b + Seq::<char>::empty() =~= b);
        lemma_ends(b, c);
        lemma_occurs_through(file, enums, b);
    } else {
        assert(Seq::<char>::empty() + c =~= c);
        lemma_ends(Seq::empty(), c);
    }
    if own {
        lemma_occurs_through(file, enums, c);
    }
    if mode == VariantStyleMode::ImportedEnums {
        lemma_import_line(
            slint_gen::variant_enum_name(key, plugin),
            slint_gen::state_enum_name(key, plugin),
            theme_import,
        );
        lemma_occurs_through(
            file,
            "import { "@ + slint_gen::imports_text(key, plugin) + " } from \""@ + theme_import + "\";\n\n"@,
            "import { Theme, ControlSize, "@ + slint_gen::variant_enum_name(key, plugin) + ", "@
                + slint_gen::state_enum_name(key, plugin) + " } from \""@ + theme_import + "\";\n"@,
        );
    }
}

proof fn lemma_import_line(variants: Seq<char>, states: Seq<char>, theme_import: Seq<char>)
    ensures
        text::occurs(
            "import { "@ + ("Theme, ControlSize, "@ + variants + ", "@ + states) + " } from \""@ + theme_import
                + "\";\n\n"@,
            "import { Theme, ControlSize, "@ + variants + ", "@ + states + " } from \""@ + theme_import + "\";\n"@,
        ),
{
    reveal_strlit("import { ");
    reveal_strlit("Theme, ControlSize, ");
    reveal_strlit("import { Theme, ControlSize, ");
    reveal_strlit("\";\n\n");
    reveal_strlit("\";\n");
    reveal_strlit("\n");
    assert("import { Theme, ControlSize, "@ =~= "import { "@ + "Theme, ControlSize, "@);
    assert("\";\n\n"@ =~= "\";\n"@ + "\n"@);
    lemma_import_parts(
        "import { "@,
        "Theme, ControlSize, "@,
        variants,
        ", "@,
        states,
        " } from \""@,
        theme_import,
        "\";\n"@,
        "\n"@,
    );
}

proof fn lemma_import_parts(
    a: Seq<char>,
    b: Seq<char>,
    c: Seq<char>,
    d: Seq<char>,
    e: Seq<char>,
    f: Seq<char>,
    g: Seq<char>,
    h: Seq<char>,
    i: Seq<char>,
)
    ensures
        text::occurs(a + (b + c + d + e) + f + g + (h + i), (a + b) + c + d + e + f + g + h),
{
    let line = (a + b) + c + d + e + f + g + h;
    assert(a + (b + c + d + e) + f + g + (h + i) =~= line + i);
    lemma_ends(line, i);
}

/// A generated file declares the structs that its functions return, with a field for every property that
/// varies by variant, and for every one that varies by size.
pub proof fn file_declares_structs(
    key: Seq<char>,
    plugin: PluginModel,
    overrides: Option<OverridesModel>,
    theme_import: Seq<char>,
)
    ensures
        plugin.variant_props.len() > 0 ==> text::occurs(
            slint_gen::theme_file(key, plugin, overrides, theme_import),
            slint_gen::struct_text(plugin.component + "VariantProps"@, plugin.variant_props),
        ),
        plugin.size_props.len() > 0 ==> text::occurs(
            slint_gen::theme_file(key, plugin, overrides, theme_import),
            slint_gen::struct_text(plugin.component + "SizeProps"@, plugin.size_props),
        ),
{
    let file = slint_gen::theme_file(key, plugin, overrides, theme_import);
    lemma_file_parts(key, plugin, overrides, theme_import);
    let a = if plugin.variant_props.len() > 0 {
        slint_gen::struct_text(plugin.component + "VariantProps"@, plugin.variant_props)
    } else {
        Seq::empty()
    };
    let b = if plugin.size_props.len() > 0 {
        slint_gen::struct_text(plugin.component + "SizeProps"@, plugin.size_props)
    } else {
        Seq::empty()
    };
    let structs = slint_gen::structs_text(plugin);
    assert(structs =~= a + b);
    lemma_ends(a, b);
    lemma_occurs_through(file, structs, a);
    lemma_occurs_through(file, structs, b);
}

/// The value set that the choice by size falls through to is used by no fewer sizes than any other.
pub proof fn fall_through_is_most_used(rows: Seq<StyleRow>, targets: Fields, n: int, i: int)
    requires
        0 <= i < n <= rows.len(),
    ensures
        0 <= slint_gen::most_used(rows, targets, n) < n,
        slint_gen::uses(targets, rows[i].0) <= slint_gen::uses(
            targets,
            rows[slint_gen::most_used(rows, targets, n)].0,
        ),
    decreases n,
{
    if n > 1 {
        let k = if i < n - 1 {
            i
        } else {
            0
        };
        fall_through_is_most_used(rows, targets, n - 1, k);
    }
}

/// Uses of a name are counted target by target.
pub proof fn uses_are_counted(targets: Fields, target: (Seq<char>, Seq<char>), name: Seq<char>)
    ensures
        slint_gen::uses(targets.push(target), name) == slint_gen::uses(targets, name) + (if target.1 == name {
            1int
        } else {
            0int
        }),
        slint_gen::uses(Seq::empty(), name) == 0,
{
    assert(targets.push(target).drop_last() =~= targets);
}

} // verus!
