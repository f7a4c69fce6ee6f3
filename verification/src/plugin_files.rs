//! What is done with the files of plugin definitions.

use vstd::prelude::*;
use crate::inherit::{self, apply_inheritance};
use crate::loader::{self, normalize_plugin_definition, BuiltinComponentSpec};
use crate::schema::{self, PluginDefinition, PluginModel};
use crate::text::{self, natural_to_text, owned};
use crate::textmap::TextMap;

verus! {

/// The size that the file of a plugin definition has at most. Definitions are small: a larger file
/// is none, and is not read.
pub const MAX_PLUGIN_FILE_BYTES: u64 = 1048576;

/// What the file of tokens holds at first.
pub const DEFAULT_TOKENS_JSON: &'static str = r##"{
  "color": {
    "primary": "#009db9",
    "primary.light": "#33b1c7",
    "primary.dark": "#006f83",
    "secondary": "#d5d4d5",
    "secondary.dark": "#c2c1c2",
    "foreground": "#231f20",
    "foreground.light": "#231f201a",
    "danger": "#ff3333",
    "danger.light": "#ff5c5c",
    "danger.dark": "#b52424",
    "success": "#16a34a",
    "warning": "#d97706",
    "surface": "#ffffff",
    "background": "#ffffff",
    "muted": "#959394",
    "border": "#d5d4d5",
    "transparent": "#00000000",
    "white": "#ffffff"
  },
  "spacing": {
    "xs": 4,
    "sm": 8,
    "md": 12,
    "lg": 16,
    "xl": 24
  },
  "font": {
    "primary": "Montserrat",
    "secondary": "Montserrat",
    "tertiary": "Montserrat"
  },
  "fontSize": {
    "sm": 20,
    "md": 22,
    "lg": 24
  },
  "radius": {
    "sm": 8,
    "md": 16,
    "default": "radius.lg",
    "lg": 24,
    "full": 9999
  },
  "controlSize": {
    "sm": 48,
    "md": 56,
    "lg": 64
  },
  "iconSize": {
    "sm": 20,
    "md": 24,
    "lg": 28
  },
  "controlRadius": {
    "sm": 20,
    "md": 24,
    "lg": 28
  },
  "controlPaddingInline": {
    "sm": 14,
    "md": 16,
    "lg": 20
  },
  "fontWeight": {
    "normal": 400,
    "medium": 500,
    "semibold": 600,
    "bold": 700
  },
  "opacity": {
    "disabled": 0.5
  }
}
"##;

/// What the file of tokens holds at first.
pub fn default_tokens_json() -> (r: String)
    ensures
        r@ == DEFAULT_TOKENS_JSON@,
{
    owned(DEFAULT_TOKENS_JSON)
}

// ---------------------------------------------------------------------------------------------
// Reading
// ---------------------------------------------------------------------------------------------
/// Where the definition of a component is taken from.
#[derive(Clone, Copy, Debug, PartialEq, Eq, Structural)]
pub enum PluginOrigin {
    /// The file in the editor's directory.
    File,
    /// Nowhere: that file is too large.
    TooLarge,
    /// The definition that comes with the library.
    Default,
    /// Nowhere: there is neither.
    Missing,
}

/// Where the definition of a component is taken from, by the size of its file, where there is one.
pub fn plugin_origin(file_bytes: Option<u64>, has_default: bool) -> (r: PluginOrigin)
    ensures
        r == (match file_bytes {
            Some(n) => if n > 1048576 {
                PluginOrigin::TooLarge
            } else {
                PluginOrigin::File
            },
            None => if has_default {
                PluginOrigin::Default
            } else {
                PluginOrigin::Missing
            },
        }),
{
    match file_bytes {
        Some(n) => if n > MAX_PLUGIN_FILE_BYTES {
            PluginOrigin::TooLarge
        } else {
            PluginOrigin::File
        },
        None => if has_default {
            PluginOrigin::Default
        } else {
            PluginOrigin::Missing
        },
    }
}

/// Why a file that is too large is not read.
pub open spec fn too_large(name: Seq<char>, path: Seq<char>, bytes: u64) -> Seq<char> {
    "Plugin "@ + name + " at "@ + path + " is "@ + text::nat_text(bytes as nat) + " bytes (limit "@ + text::nat_text(
        1048576,
    ) + "); refusing to load"@
}

/// Why a file that is too large is not read.
pub fn too_large_error(name: &str, path: &str, bytes: u64) -> (r: String)
    ensures
        r@ == too_large(name@, path@, bytes),
{
    let mut e = owned("Plugin ");
    e.push_str(name);
    e.push_str(" at ");
    e.push_str(path);
    e.push_str(" is ");
    e.push_str(natural_to_text(bytes).as_str());
    e.push_str(" bytes (limit ");
    e.push_str(natural_to_text(MAX_PLUGIN_FILE_BYTES).as_str());
    e.push_str("); refusing to load");
    e
}

// ---------------------------------------------------------------------------------------------
// Repair
// ---------------------------------------------------------------------------------------------
/// Whether a definition is broken: it has no variants and extends nothing that would give it some.
pub open spec fn is_mangled(p: PluginModel) -> bool {
    p.extends is None && p.variants.len() == 0
}

/// What a definition in the editor's directory is replaced by.
#[derive(Debug, PartialEq)]
pub enum PluginRepair {
    /// The definition that comes with the library.
    Restore,
    /// The definition brought up to date.
    Update(PluginDefinition),
}

/// What a definition in the editor's directory is replaced by: a broken one by the one that comes
/// with the library, where there is one, any other by itself brought up to date.
pub fn plugin_repair(
    name: &str,
    plugin: PluginDefinition,
    has_default: bool,
    default_plugin: Option<&PluginDefinition>,
) -> (r: PluginRepair)
    ensures
        match r {
            PluginRepair::Restore => is_mangled(plugin@) && has_default,
            PluginRepair::Update(p) => !(is_mangled(plugin@) && has_default) && p@ == loader::up_to_date(
                name@,
                plugin@,
                schema::option_view(default_plugin),
            ),
        },
{
    if has_default && plugin.extends.is_none() && plugin.variants.len() == 0 {
        PluginRepair::Restore
    } else {
        PluginRepair::Update(normalize_plugin_definition(name, plugin, default_plugin))
    }
}

// ---------------------------------------------------------------------------------------------
// All plugins
// ---------------------------------------------------------------------------------------------
/// Definitions brought up to date, each against the one that comes with the library.
pub open spec fn all_up_to_date(
    keys: Seq<Seq<char>>,
    plugins: Seq<PluginModel>,
    defaults: Map<Seq<char>, PluginModel>,
) -> Seq<PluginModel> {
    Seq::new(
        plugins.len(),
        |i: int| loader::up_to_date(keys[i], plugins[i], schema::entry(defaults, keys[i])),
    )
}

/// The keys of components.
pub open spec fn component_keys(plugins: Seq<(BuiltinComponentSpec, PluginDefinition)>) -> Seq<Seq<char>> {
    Seq::new(plugins.len(), |i: int| plugins[i].0.key@)
}

/// Definitions as they are used: first each is given what it extends, so that one that only extends
/// another is not taken for an empty one; then each is brought up to date.
pub open spec fn settled_plugins(
    keys: Seq<Seq<char>>,
    plugins: Seq<PluginModel>,
    defaults: Map<Seq<char>, PluginModel>,
) -> Result<Seq<PluginModel>, Seq<char>> {
    match inherit::all_extended(plugins, inherit::by_component(plugins), plugins.len() as int) {
        Ok(extended) => Ok(all_up_to_date(keys, extended, defaults)),
        Err(e) => Err(e),
    }
}

/// Definitions as they are used. `defaults` holds those that come with the library, by component key.
pub fn settle_plugins(
    plugins: Vec<(BuiltinComponentSpec, PluginDefinition)>,
    defaults: &TextMap<PluginDefinition>,
) -> (r: Result<Vec<(BuiltinComponentSpec, PluginDefinition)>, String>)
    ensures
        ({
            let goal = settled_plugins(
                component_keys(plugins@),
                inherit::plugin_views(plugins@),
                defaults@,
            );
            match r {
                Ok(v) => goal == Ok::<Seq<PluginModel>, Seq<char>>(inherit::plugin_views(v@)) && v@.len()
                    == plugins@.len() && forall|i: int|
                    0 <= i < v@.len() ==> (#[trigger] v@[i]).0 == plugins@[i].0,
                Err(e) => goal == Err::<Seq<PluginModel>, Seq<char>>(e@),
            }
        }),
{
    let ghost keys = component_keys(plugins@);
    let ghost specs = plugins@;
    let extended = match apply_inheritance(plugins) {
        Ok(v) => v,
        Err(e) => {
            return Err(e);
        },
    };
    let ghost all = inherit::plugin_views(extended@);
    let mut out: Vec<(BuiltinComponentSpec, PluginDefinition)> = Vec::new();
    for i in 0..extended.len()
        invariant
            all == inherit::plugin_views(extended@),
            keys == component_keys(specs),
            extended@.len() == specs.len(),
            forall|j: int| 0 <= j < extended@.len() ==> (#[trigger] extended@[j]).0 == specs[j].0,
            out@.len() == i,
            forall|j: int|
                0 <= j < i ==> (#[trigger] out@[j]).0 == specs[j].0 && out@[j].1@ == all_up_to_date(
                    keys,
                    all,
                    defaults@,
                )[j],
    {
        let spec = extended[i].0;
        assert(extended@[i as int].0 == specs[i as int].0);
        assert(keys[i as int] == spec.key@);
        let p = normalize_plugin_definition(spec.key, extended[i].1.clone(), defaults.get(spec.key));
        assert(p@ == all_up_to_date(keys, all, defaults@)[i as int]);
        out.push((spec, p));
    }
    assert(inherit::plugin_views(out@) =~= all_up_to_date(keys, all, defaults@));
    Ok(out)
}

proof fn lemma_each_extended(list: Seq<PluginModel>, by_name: inherit::Plugins, n: int, i: int)
    requires
        0 <= i < n <= list.len(),
        inherit::all_extended(list, by_name, n) is Ok,
    ensures
        inherit::all_extended(list, by_name, n)->Ok_0.len() == n,
        inherit::fully_extended(list[i], by_name) == Ok::<PluginModel, Seq<char>>(
            inherit::all_extended(list, by_name, n)->Ok_0[i],
        ),
    decreases n,
{
    if n - 1 > 0 {
        let m = if i < n - 1 {
            i
        } else {
            0
        };
        lemma_each_extended(list, by_name, n - 1, m);
    } else {
        assert(inherit::all_extended(list, by_name, 0) == Ok::<Seq<PluginModel>, Seq<char>>(Seq::empty()));
    }
}

/// Definitions as they are used are as many as were given, and extend nothing any more: what a definition
/// has from another is in it.
pub proof fn settled_definitions_extend_nothing(
    keys: Seq<Seq<char>>,
    plugins: Seq<PluginModel>,
    defaults: Map<Seq<char>, PluginModel>,
    i: int,
)
    requires
        0 <= i < plugins.len(),
        settled_plugins(keys, plugins, defaults) is Ok,
    ensures
        settled_plugins(keys, plugins, defaults)->Ok_0.len() == plugins.len(),
        settled_plugins(keys, plugins, defaults)->Ok_0[i].extends is None,
        plugins[i].extends is Some ==> settled_plugins(keys, plugins, defaults)->Ok_0[i].parent_key
            == plugins[i].extends,
{
    let by_name = inherit::by_component(plugins);
    lemma_each_extended(plugins, by_name, plugins.len() as int, i);
    let e = inherit::all_extended(plugins, by_name, plugins.len() as int)->Ok_0[i];
    inherit::resolved_extends_nothing(plugins[i], by_name, Set::empty(), by_name.dom().len() + 1);
    lemma_extends_stays(keys[i], e, schema::entry(defaults, keys[i]));
}

proof fn lemma_extends_stays(name: Seq<char>, p: PluginModel, default: Option<PluginModel>)
    ensures
        loader::up_to_date(name, p, default).extends == p.extends,
        loader::up_to_date(name, p, default).parent_key == p.parent_key,
{
}

} // verus!
