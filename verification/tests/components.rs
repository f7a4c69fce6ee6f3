use std::collections::BTreeSet;

use theme_editor::loader::builtin_component_specs;

#[test]
fn every_plugin_json_has_a_builtin_component_entry() {
    let specs = builtin_component_specs();
    let keys: BTreeSet<&str> = specs.iter().map(|spec| spec.key).collect();
    let files: BTreeSet<&str> = [
        "accordion",
        "button",
        "card",
        "checkbox",
        "chip",
        "dialog",
        "divider",
        "dropdown",
        "icon",
        "icon_button",
        "image",
        "input",
        "link",
        "menu",
        "menu_item",
        "progress_bar",
        "radio",
        "radio_group",
        "search",
        "sheet",
        "slide_to_confirm",
        "slider",
        "spinner",
        "switch",
        "tabs",
        "textarea",
        "toast",
    ]
    .into_iter()
    .collect();

    let only_in_files: Vec<_> = files.difference(&keys).collect();
    let only_in_specs: Vec<_> = keys.difference(&files).collect();

    assert!(
        only_in_files.is_empty() && only_in_specs.is_empty(),
        "keys with a definition but no entry: {only_in_files:?}, keys with an entry but no definition: {only_in_specs:?}"
    );
    assert_eq!(specs.len(), keys.len());
}
