//! Themes in theme files.

use vstd::prelude::*;
use crate::component_json::{self, export_components_json_patch, import_component_theme_json};
use crate::json::{self, json_int, Json, JsonModel, JsonNumber, JsonObject, ObjectModel};
use crate::json_text::{self, json_from_text, json_to_text};
use crate::loader::BuiltinComponentSpec;
use crate::reconcile::{
    self, build_theme_record, component_plugin_map, reconcile_theme_component_parent_overrides, Plugins, Themes,
};
use crate::records::{
    self, clear_component_override_ownership, explicit_parent_theme_index, find_builtin_base_theme,
    find_theme_index_by_name, is_base_theme_name, normalize_theme_identifier, theme_record_json_id, MetaModel,
    RecordModel, ThemeMeta, ThemeRecord, BASE_THEME_ID, BASE_THEME_NAME, LEGACY_DEFAULT_THEME_ID,
};
use crate::schema::{self, PluginDefinition, PluginModel};
use crate::sorting::{self, sort_all};
use crate::storage::ComponentThemeData;
use crate::style::{self, copy_text};
use crate::text::{self, natural_to_text, owned, text_eq, text_less};
use crate::textmap::{self, Duplicate, TextMap, TextSet};
use crate::token_theme::{
    self, collect_token_override_keys, export_token_theme_json_patch, import_token_theme_json, TokenModel,
    TokenTheme,
};

verus! {

/// The version of theme files that are written. Files may leave `version` out (they are read as legacy
/// files of this version), but if a version is present and unknown to us we refuse the import instead
/// of mangling half-recognised fields.
pub const THEME_RECORD_SCHEMA_VERSION: u32 = 1;

/// Components with their plugins: key and definition.
pub type Loaded = Seq<(Seq<char>, PluginModel)>;

// ---------------------------------------------------------------------------------------------
// Writing
// ---------------------------------------------------------------------------------------------
/// What is written of a theme against its parent.
pub open spec fn record_json(record: RecordModel, parent: Option<RecordModel>, plugins: Plugins) -> ObjectModel {
    let m = Map::<Seq<char>, JsonModel>::empty();
    let m = m.insert("version"@, json::int_json(THEME_RECORD_SCHEMA_VERSION as i32));
    let m = m.insert("id"@, JsonModel::Text(records::json_id(record.meta)));
    let m = m.insert("name"@, JsonModel::Text(record.meta.name));
    let m = match parent {
        Some(p) => m.insert("parent"@, JsonModel::Text(records::json_id(p.meta))),
        None => m,
    };
    let m = component_json::with_key(
        m,
        "tokens"@,
        json::filled(
            record.tokens.patch(
                match parent {
                    Some(p) => Some(p.tokens),
                    None => None,
                },
                record.token_overrides,
            ),
        ),
    );
    component_json::with_key(
        m,
        "components"@,
        json::filled(
            component_json::components_patch(
                plugins,
                record.component_themes,
                match parent {
                    Some(p) => Some(p.component_themes),
                    None => None,
                },
            ),
        ),
    )
}

/// The text of a JSON value in a file. What cannot be written is the empty object.
pub open spec fn file_text(j: JsonModel) -> Seq<char> {
    match json_text::printed_json(j) {
        Some(text) => text,
        None => "{}"@,
    }
}

/// Writes a theme to the text of a file.
pub fn export_theme_record_text(
    themes: &Vec<ThemeRecord>,
    theme_idx: usize,
    component_plugins: &TextMap<PluginDefinition>,
) -> (r: String)
    requires
        theme_idx < themes@.len(),
    ensures
        r@ == file_text(
            JsonModel::Object(
                record_json(
                    themes@[theme_idx as int]@,
                    records::parent_record(textmap::views(themes@), theme_idx as int),
                    component_plugins@,
                ),
            ),
        ),
{
    match json_to_text(&export_theme_record_json(themes, theme_idx, component_plugins)) {
        Some(text) => text,
        None => owned("{}"),
    }
}

/// Writes a theme: what it does not inherit from its parent.
pub fn export_theme_record_json(
    themes: &Vec<ThemeRecord>,
    theme_idx: usize,
    component_plugins: &TextMap<PluginDefinition>,
) -> (r: Json)
    requires
        theme_idx < themes@.len(),
    ensures
        r@ == JsonModel::Object(
            record_json(
                themes@[theme_idx as int]@,
                records::parent_record(textmap::views(themes@), theme_idx as int),
                component_plugins@,
            ),
        ),
{
    let record = &themes[theme_idx];
    let parent: Option<&ThemeRecord> = match explicit_parent_theme_index(themes, theme_idx) {
        Some(i) => Some(&themes[i]),
        None => None,
    };
    let mut out = JsonObject::new();
    out.insert(owned("version"), json_int(THEME_RECORD_SCHEMA_VERSION as i32));
    out.insert(owned("id"), Json::String(theme_record_json_id(record)));
    out.insert(owned("name"), Json::String(record.meta.name.clone()));
    if let Some(p) = parent {
        out.insert(owned("parent"), Json::String(theme_record_json_id(p)));
    }
    let tokens = export_token_theme_json_patch(
        &record.tokens,
        match parent {
            Some(p) => Some(&p.tokens),
            None => None,
        },
        &record.token_overrides,
    );
    if let Some(j) = tokens {
        out.insert(owned("tokens"), j);
    }
    let components = export_components_json_patch(
        &record.component_themes,
        match parent {
            Some(p) => Some(&p.component_themes),
            None => None,
        },
        component_plugins,
    );
    if let Some(j) = components {
        out.insert(owned("components"), j);
    }
    Json::Object(out)
}

// ---------------------------------------------------------------------------------------------
// Parents
// ---------------------------------------------------------------------------------------------
/// The name of the first theme with an identifier.
pub open spec fn name_by_identifier(themes: Seq<RecordModel>, ident: Seq<char>) -> Option<Seq<char>>
    decreases themes.len(),
{
    if themes.len() == 0 {
        None
    } else {
        let before = name_by_identifier(themes.drop_last(), ident);
        if before is Some {
            before
        } else if records::identifier(themes.last().meta.name) == ident {
            Some(themes.last().meta.name)
        } else {
            None
        }
    }
}

proof fn lemma_name_stays(themes: Seq<RecordModel>, n: int, ident: Seq<char>)
    requires
        0 <= n <= themes.len(),
        name_by_identifier(themes.take(n), ident) is Some,
    ensures
        name_by_identifier(themes, ident) == name_by_identifier(themes.take(n), ident),
    decreases themes.len() - n,
{
    if n == themes.len() {
        assert(themes.take(n) =~= themes);
    } else {
        assert(themes.take(n + 1).drop_last() =~= themes.take(n));
        lemma_name_stays(themes, n + 1, ident);
    }
}

fn find_name_by_identifier(themes: &Vec<ThemeRecord>, ident: &str) -> (r: Option<String>)
    ensures
        style::text_view(r) == name_by_identifier(textmap::views(themes@), ident@),
{
    let ghost all = textmap::views(themes@);
    for i in 0..themes.len()
        invariant
            all == textmap::views(themes@),
            name_by_identifier(all.take(i as int), ident@) is None,
    {
        proof {
            assert(all.take(i + 1).drop_last() =~= all.take(i as int));
            assert(all.take(i + 1).last() == all[i as int]);
        }
        let own = normalize_theme_identifier(themes[i].meta.name.as_str());
        if text_eq(own.as_str(), ident) {
            proof {
                lemma_name_stays(all, i + 1, ident@);
            }
            return Some(themes[i].meta.name.clone());
        }
    }
    assert(all.take(themes@.len() as int) =~= all);
    None
}

/// The name of the theme that a file means by its parent: the base theme that comes with the editor
/// by any of its names, or else the theme with that name, or else the first with that identifier.
pub open spec fn meant_parent(themes: Seq<RecordModel>, raw: Seq<char>) -> Option<Seq<char>> {
    if records::names_base(raw) && records::builtin_base_index(themes) is Some {
        Some(themes[records::builtin_base_index(themes)->Some_0].meta.name)
    } else if records::index_by_name(themes, raw) is Some {
        Some(raw)
    } else {
        name_by_identifier(themes, records::identifier(raw))
    }
}

/// The name of the theme that a file means by its parent.
pub fn resolve_theme_parent_name(themes: &Vec<ThemeRecord>, raw_parent: &str) -> (r: Option<String>)
    ensures
        style::text_view(r) == meant_parent(textmap::views(themes@), raw_parent@),
{
    if is_base_theme_name(raw_parent) {
        if let Some(i) = find_builtin_base_theme(themes) {
            return Some(themes[i].meta.name.clone());
        }
    }
    if let Some(i) = find_theme_index_by_name(themes, raw_parent) {
        return Some(themes[i].meta.name.clone());
    }
    let ident = normalize_theme_identifier(raw_parent);
    find_name_by_identifier(themes, ident.as_str())
}

// ---------------------------------------------------------------------------------------------
// Reading
// ---------------------------------------------------------------------------------------------
/// The text of a key.
pub open spec fn text_at(j: JsonModel, key: Seq<char>) -> Option<Seq<char>> {
    json::text_of(json::at(j, key))
}

fn read_text<'a>(value: &'a Json, key: &str) -> (r: Option<&'a str>)
    ensures
        schema::option_view(r) == text_at(value@, key@),
{
    match value.get(key) {
        Some(v) => v.as_str(),
        None => None,
    }
}

/// Why a file of an unknown version is not read. A later version is named.
pub open spec fn version_error(version: Option<u64>) -> Seq<char> {
    let supported = text::nat_text(THEME_RECORD_SCHEMA_VERSION as nat);
    match version {
        Some(v) if v > THEME_RECORD_SCHEMA_VERSION => "Theme export schema version "@ + text::nat_text(v as nat)
            + " is newer than supported version "@ + supported + "; update the theme editor to import this file"@,
        _ => "Theme export schema version is unknown; the supported version is "@ + supported,
    }
}

/// The natural number that a JSON number stands for as a version, also where it is written with
/// decimals or an exponent. (The largest integer also stands for all that are larger.)
pub open spec fn version_number(n: JsonNumber) -> Option<u64> {
    match n.natural {
        Some(v) => Some(v),
        None => if n.integral && 0 <= n.int < i32::MAX {
            Some(n.int as u64)
        } else {
            None
        },
    }
}

/// The number that a file gives for its version.
pub open spec fn file_version(j: JsonModel) -> Option<u64> {
    match json::number_of(json::at(j, "version"@)) {
        Some(n) => version_number(n),
        None => None,
    }
}

/// Whether a file is of a known version: it gives that version, or none at all.
pub open spec fn version_known(j: JsonModel) -> bool {
    json::at(j, "version"@) is None || file_version(j) == Some(THEME_RECORD_SCHEMA_VERSION as u64)
}

/// The name of a file's theme.
pub open spec fn file_name(j: JsonModel) -> Seq<char> {
    match text_at(j, "name"@) {
        Some(s) => s,
        None => "Imported Theme"@,
    }
}

/// The name of the parent of a file's theme, where there is such a theme.
pub open spec fn file_parent(j: JsonModel, existing: Seq<RecordModel>) -> Option<Seq<char>> {
    match text_at(j, "parent"@) {
        Some(raw) => meant_parent(existing, raw),
        None => None,
    }
}

/// Whether a file's theme is the base theme.
pub open spec fn is_root_file(j: JsonModel, existing: Seq<RecordModel>) -> bool {
    file_parent(j, existing) is None && (records::names_base(file_name(j)) || match text_at(j, "id"@) {
        Some(id) => records::identifier(id) == BASE_THEME_ID@ || records::identifier(id)
            == LEGACY_DEFAULT_THEME_ID@,
        None => false,
    })
}

/// The theme that a file's theme starts from: its parent, or else a new one.
pub open spec fn file_start(j: JsonModel, loaded: Loaded, existing: Seq<RecordModel>, base: TokenModel) -> RecordModel {
    let fresh = reconcile::new_record(file_name(j), false, None, base, loaded);
    match file_parent(j, existing) {
        Some(p) => match records::index_by_name(existing, p) {
            Some(i) => existing[i],
            None => fresh,
        },
        None => fresh,
    }
}

/// The first plugin with a key.
pub open spec fn first_plugin(loaded: Loaded, key: Seq<char>) -> Option<PluginModel>
    decreases loaded.len(),
{
    if loaded.len() == 0 {
        None
    } else {
        let before = first_plugin(loaded.drop_last(), key);
        if before is Some {
            before
        } else if loaded.last().0 == key {
            Some(loaded.last().1)
        } else {
            None
        }
    }
}

/// Components with what a file gives for them.
pub open spec fn components_read(themes: Themes, loaded: Loaded, o: ObjectModel, keys: Seq<Seq<char>>) -> Themes
    decreases keys.len(),
{
    if keys.len() == 0 {
        themes
    } else {
        let before = components_read(themes, loaded, o, keys.drop_last());
        let key = keys.last();
        match first_plugin(loaded, key) {
            Some(plugin) => if before.dom().contains(key) {
                before.insert(key, component_json::component_read(before[key], plugin, o[key]))
            } else {
                before
            },
            None => before,
        }
    }
}

/// The components of a file's theme, before they are brought in line with those that they extend.
pub open spec fn file_components(j: JsonModel, start: RecordModel, loaded: Loaded) -> Themes {
    let themes = records::unowned(start.component_themes);
    match json::object_of(json::at(j, "components"@)) {
        Some(o) => components_read(themes, loaded, o, textmap::sorted_keys(o)),
        None => themes,
    }
}

/// The theme of a file. It starts from its parent, or else from a new theme, takes over what the file
/// gives, and owns exactly that.
pub open spec fn file_record(j: JsonModel, loaded: Loaded, existing: Seq<RecordModel>, base: TokenModel) -> RecordModel {
    let start = file_start(j, loaded, existing, base);
    RecordModel {
        meta: MetaModel {
            name: if is_root_file(j, existing) {
                BASE_THEME_NAME@
            } else {
                file_name(j)
            },
            is_builtin: false,
            parent_name: file_parent(j, existing),
        },
        tokens: match json::at(j, "tokens"@) {
            Some(t) => start.tokens.read(Some(t)),
            None => start.tokens,
        },
        token_overrides: match json::at(j, "tokens"@) {
            Some(t) => token_theme::given_keys(t),
            None => Set::empty(),
        },
        component_themes: reconcile::reconciled(
            file_components(j, start, loaded),
            reconcile::plugins_by_key(loaded),
        ),
    }
}

/// The theme of a file, or why it is not read.
pub open spec fn record_read(j: JsonModel, loaded: Loaded, existing: Seq<RecordModel>, base: TokenModel) -> Result<
    RecordModel,
    Seq<char>,
> {
    if version_known(j) {
        Ok(file_record(j, loaded, existing, base))
    } else {
        Err(version_error(file_version(j)))
    }
}

proof fn lemma_first_stays(loaded: Loaded, n: int, key: Seq<char>)
    requires
        0 <= n <= loaded.len(),
        first_plugin(loaded.take(n), key) is Some,
    ensures
        first_plugin(loaded, key) == first_plugin(loaded.take(n), key),
    decreases loaded.len() - n,
{
    if n == loaded.len() {
        assert(loaded.take(n) =~= loaded);
    } else {
        assert(loaded.take(n + 1).drop_last() =~= loaded.take(n));
        lemma_first_stays(loaded, n + 1, key);
    }
}

fn find_plugin<'a>(loaded_plugins: &'a Vec<(BuiltinComponentSpec, PluginDefinition)>, key: &str) -> (r: Option<
    &'a PluginDefinition,
>)
    ensures
        schema::option_view(r) == first_plugin(reconcile::loaded_views(loaded_plugins@), key@),
{
    let ghost all = reconcile::loaded_views(loaded_plugins@);
    for i in 0..loaded_plugins.len()
        invariant
            all == reconcile::loaded_views(loaded_plugins@),
            first_plugin(all.take(i as int), key@) is None,
    {
        proof {
            assert(all.take(i + 1).drop_last() =~= all.take(i as int));
            assert(all.take(i + 1).last() == all[i as int]);
        }
        if text_eq(loaded_plugins[i].0.key, key) {
            proof {
                lemma_first_stays(all, i + 1, key@);
            }
            return Some(&loaded_plugins[i].1);
        }
    }
    assert(all.take(loaded_plugins@.len() as int) =~= all);
    None
}

fn read_components(
    themes: &mut TextMap<ComponentThemeData>,
    loaded_plugins: &Vec<(BuiltinComponentSpec, PluginDefinition)>,
    o: &JsonObject,
)
    ensures
        final(themes)@ == components_read(
            old(themes)@,
            reconcile::loaded_views(loaded_plugins@),
            o@,
            textmap::sorted_keys(o@),
        ),
{
    let n: usize = o.len();
    let ghost keys = textmap::sorted_keys(o@);
    let ghost start = themes@;
    for i in 0..n
        invariant
            keys == textmap::sorted_keys(o@),
            n == keys.len(),
            themes@ == components_read(
                start,
                reconcile::loaded_views(loaded_plugins@),
                o@,
                keys.take(i as int),
            ),
    {
        proof {
            assert(keys.take(i + 1).drop_last() =~= keys.take(i as int));
            assert(keys.take(i + 1).last() == keys[i as int]);
        }
        let key = o.key_at(i).as_str();
        if let Some(plugin) = find_plugin(loaded_plugins, key) {
            if themes.contains_key(key) {
                import_component_theme_json(themes.slot_mut(key), plugin, o.value_at(i));
            }
        }
    }
    assert(keys.take(n as int) =~= keys);
}

fn read_version(n: JsonNumber) -> (r: Option<u64>)
    ensures
        r == version_number(n),
{
    match n.natural {
        Some(v) => Some(v),
        None => if n.integral && 0 <= n.int && n.int < i32::MAX {
            Some(n.int as u64)
        } else {
            None
        },
    }
}

fn describe_version(version: Option<u64>) -> (r: String)
    ensures
        r@ == version_error(version),
{
    let supported = natural_to_text(THEME_RECORD_SCHEMA_VERSION as u64);
    if let Some(v) = version {
        if v > THEME_RECORD_SCHEMA_VERSION as u64 {
            let mut e = owned("Theme export schema version ");
            e.push_str(natural_to_text(v).as_str());
            e.push_str(" is newer than supported version ");
            e.push_str(supported.as_str());
            e.push_str("; update the theme editor to import this file");
            return e;
        }
    }
    let mut e = owned("Theme export schema version is unknown; the supported version is ");
    e.push_str(supported.as_str());
    e
}

/// Reads a theme from a file.
pub fn import_theme_record_json(
    value: &Json,
    loaded_plugins: &Vec<(BuiltinComponentSpec, PluginDefinition)>,
    existing_themes: &Vec<ThemeRecord>,
    base_theme: &TokenTheme,
) -> (r: Result<ThemeRecord, String>)
    ensures
        ({
            let goal = record_read(
                value@,
                reconcile::loaded_views(loaded_plugins@),
                textmap::views(existing_themes@),
                base_theme@,
            );
            match r {
                Ok(record) => goal == Ok::<RecordModel, Seq<char>>(record@),
                Err(e) => goal == Err::<RecordModel, Seq<char>>(e@),
            }
        }),
{
    if let Some(v) = value.get("version") {
        let version: Option<u64> = match v.as_number() {
            Some(n) => read_version(n),
            None => None,
        };
        let known = match version {
            Some(n) => n == THEME_RECORD_SCHEMA_VERSION as u64,
            None => false,
        };
        if !known {
            return Err(describe_version(version));
        }
    }
    let ghost existing = textmap::views(existing_themes@);
    let name = match read_text(value, "name") {
        Some(s) => s,
        None => "Imported Theme",
    };
    let parent: Option<String> = match read_text(value, "parent") {
        Some(raw) => resolve_theme_parent_name(existing_themes, raw),
        None => None,
    };
    let is_root = parent.is_none() && (is_base_theme_name(name) || match read_text(value, "id") {
        Some(id) => {
            let ident = normalize_theme_identifier(id);
            text_eq(ident.as_str(), BASE_THEME_ID) || text_eq(ident.as_str(), LEGACY_DEFAULT_THEME_ID)
        },
        None => false,
    });
    let found: Option<usize> = match &parent {
        Some(p) => find_theme_index_by_name(existing_themes, p.as_str()),
        None => None,
    };
    let mut record = match found {
        Some(i) => existing_themes[i].duplicate(),
        None => build_theme_record(name, false, None, base_theme.duplicate(), loaded_plugins),
    };
    let ghost start = record@;
    record.meta = ThemeMeta {
        name: owned(
            if is_root {
                BASE_THEME_NAME
            } else {
                name
            },
        ),
        is_builtin: false,
        parent_name: parent,
    };
    record.token_overrides = TextSet::new();
    clear_component_override_ownership(&mut record);
    if let Some(tokens) = value.get("tokens") {
        record.token_overrides = collect_token_override_keys(tokens);
        import_token_theme_json(&mut record.tokens, tokens);
    }
    if let Some(components) = value.get("components") {
        if let Some(o) = components.as_object() {
            read_components(&mut record.component_themes, loaded_plugins, o);
        }
    }
    let plugins = component_plugin_map(loaded_plugins);
    reconcile_theme_component_parent_overrides(&plugins, &mut record);
    assert(record@ == file_record(
        value@,
        reconcile::loaded_views(loaded_plugins@),
        existing,
        base_theme@,
    ));
    Ok(record)
}

/// The theme of a file with a given text, or why it is not read.
pub open spec fn text_read(text: Seq<char>, loaded: Loaded, existing: Seq<RecordModel>, base: TokenModel) -> Result<
    RecordModel,
    Seq<char>,
> {
    match json_text::parsed_json(text) {
        Ok(j) => record_read(j, loaded, existing, base),
        Err(e) => Err(e),
    }
}

/// Reads a theme from the text of a file.
pub fn import_theme_record_text(
    text: &str,
    loaded_plugins: &Vec<(BuiltinComponentSpec, PluginDefinition)>,
    existing_themes: &Vec<ThemeRecord>,
    base_theme: &TokenTheme,
) -> (r: Result<ThemeRecord, String>)
    ensures
        ({
            let goal = text_read(
                text@,
                reconcile::loaded_views(loaded_plugins@),
                textmap::views(existing_themes@),
                base_theme@,
            );
            match r {
                Ok(record) => goal == Ok::<RecordModel, Seq<char>>(record@),
                Err(e) => goal == Err::<RecordModel, Seq<char>>(e@),
            }
        }),
{
    match json_from_text(text) {
        Ok(value) => import_theme_record_json(&value, loaded_plugins, existing_themes, base_theme),
        Err(e) => Err(e),
    }
}

// ---------------------------------------------------------------------------------------------
// The themes that come with the editor
// ---------------------------------------------------------------------------------------------
/// A theme file: its name without extension, and what it holds.
pub struct ThemeSource {
    pub file_stem: Option<String>,
    pub value: Json,
}

impl View for ThemeSource {
    type V = (Option<Seq<char>>, JsonModel);

    open spec fn view(&self) -> (Option<Seq<char>>, JsonModel) {
        (style::text_view(self.file_stem), self.value@)
    }
}

/// A theme file: its name without extension, and its text.
pub struct ThemeText {
    pub file_stem: Option<String>,
    pub text: String,
}

impl View for ThemeText {
    type V = (Option<Seq<char>>, Seq<char>);

    open spec fn view(&self) -> (Option<Seq<char>>, Seq<char>) {
        (style::text_view(self.file_stem), self.text@)
    }
}

/// What theme files hold. Those whose text is not JSON are passed over.
pub open spec fn sources_read(texts: Seq<(Option<Seq<char>>, Seq<char>)>) -> Seq<(Option<Seq<char>>, JsonModel)>
    decreases texts.len(),
{
    if texts.len() == 0 {
        Seq::empty()
    } else {
        let before = sources_read(texts.drop_last());
        match json_text::parsed_json(texts.last().1) {
            Ok(j) => before.push((texts.last().0, j)),
            Err(_) => before,
        }
    }
}

/// Reads theme files, and passes over those whose text is not JSON.
pub fn read_theme_sources(texts: &Vec<ThemeText>) -> (r: Vec<ThemeSource>)
    ensures
        textmap::views(r@) == sources_read(textmap::views(texts@)),
{
    let ghost all = textmap::views(texts@);
    let mut out: Vec<ThemeSource> = Vec::new();
    assert(textmap::views(out@) =~= sources_read(all.take(0)));
    for i in 0..texts.len()
        invariant
            all == textmap::views(texts@),
            textmap::views(out@) == sources_read(all.take(i as int)),
    {
        proof {
            assert(all.take(i + 1).drop_last() =~= all.take(i as int));
            assert(all.take(i + 1).last() == all[i as int]);
        }
        if let Ok(value) = json_from_text(texts[i].text.as_str()) {
            let ghost before = textmap::views(out@);
            out.push(ThemeSource { file_stem: copy_text(&texts[i].file_stem), value });
            assert(textmap::views(out@) =~= before.push(out@.last()@));
        }
    }
    assert(all.take(texts@.len() as int) =~= all);
    out
}

/// How a theme file is listed.
pub struct ThemeListing {
    pub order: i64,
    pub name: String,
    pub id: String,
    pub parent: Option<String>,
    pub source: usize,
}

/// The model of a listing.
#[verifier::ext_equal]
pub struct ListingModel {
    pub order: i64,
    pub name: Seq<char>,
    pub id: Seq<char>,
    pub parent: Option<Seq<char>>,
    pub source: int,
}

impl View for ThemeListing {
    type V = ListingModel;

    open spec fn view(&self) -> ListingModel {
        ListingModel {
            order: self.order,
            name: self.name@,
            id: self.id@,
            parent: style::text_view(self.parent),
            source: self.source as int,
        }
    }
}

impl Duplicate for ThemeListing {
    fn duplicate(&self) -> (r: Self) {
        ThemeListing {
            order: self.order,
            name: self.name.clone(),
            id: self.id.clone(),
            parent: copy_text(&self.parent),
            source: self.source,
        }
    }
}

/// The identifier of a file: its own, or else its file name.
pub open spec fn source_id(s: (Option<Seq<char>>, JsonModel)) -> Seq<char> {
    match text_at(s.1, "id"@) {
        Some(id) => id,
        None => match s.0 {
            Some(stem) => stem,
            None => "theme"@,
        },
    }
}

/// How a file is listed.
pub open spec fn listing(s: (Option<Seq<char>>, JsonModel), i: int) -> ListingModel {
    ListingModel {
        order: match json::number_of(json::at(s.1, "sort_order"@)) {
            Some(n) => match n.long {
                Some(k) => k,
                None => i64::MAX,
            },
            None => i64::MAX,
        },
        name: match text_at(s.1, "name"@) {
            Some(name) => name,
            None => source_id(s),
        },
        id: source_id(s),
        parent: text_at(s.1, "parent"@),
        source: i,
    }
}

/// Whether a listing comes before another: by its place, then by its name.
pub open spec fn listed_before() -> spec_fn(ListingModel, ListingModel) -> bool {
    |a: ListingModel, b: ListingModel|
        a.order < b.order || (a.order == b.order && text::text_lt(a.name, b.name))
}

/// The listings of files, in order.
pub open spec fn listings(sources: Seq<(Option<Seq<char>>, JsonModel)>) -> Seq<ListingModel> {
    sorting::in_order(Seq::new(sources.len(), |i: int| listing(sources[i], i)), listed_before())
}

/// Names by identifier; of two files with one identifier the later one counts.
pub open spec fn names_by_id(list: Seq<ListingModel>) -> Map<Seq<char>, Seq<char>>
    decreases list.len(),
{
    if list.len() == 0 {
        Map::empty()
    } else {
        names_by_id(list.drop_last()).insert(records::identifier(list.last().id), list.last().name)
    }
}

/// A theme that comes with the editor: what its file gives, under its listed name, with its parent by
/// name.
pub open spec fn as_builtin(record: RecordModel, l: ListingModel, names: Map<Seq<char>, Seq<char>>) -> RecordModel {
    RecordModel {
        meta: MetaModel {
            name: if l.name.len() == 0 {
                l.id
            } else {
                l.name
            },
            is_builtin: true,
            parent_name: match l.parent {
                Some(p) => Some(
                    if names.dom().contains(records::identifier(p)) {
                        names[records::identifier(p)]
                    } else {
                        p
                    },
                ),
                None => None,
            },
        },
        ..record
    }
}

/// The themes of listed files; each may have those before it as its parent.
pub open spec fn builtin_records(
    list: Seq<ListingModel>,
    sources: Seq<(Option<Seq<char>>, JsonModel)>,
    names: Map<Seq<char>, Seq<char>>,
    loaded: Loaded,
    base: TokenModel,
) -> Result<Seq<RecordModel>, Seq<char>>
    decreases list.len(),
{
    if list.len() == 0 {
        Ok(Seq::empty())
    } else {
        match builtin_records(list.drop_last(), sources, names, loaded, base) {
            Err(e) => Err(e),
            Ok(front) => match record_read(sources[list.last().source].1, loaded, front, base) {
                Err(e) => Err(e),
                Ok(record) => Ok(front.push(as_builtin(record, list.last(), names))),
            },
        }
    }
}

proof fn lemma_builtin_error(
    list: Seq<ListingModel>,
    sources: Seq<(Option<Seq<char>>, JsonModel)>,
    names: Map<Seq<char>, Seq<char>>,
    loaded: Loaded,
    base: TokenModel,
    n: int,
)
    requires
        0 <= n <= list.len(),
        builtin_records(list.take(n), sources, names, loaded, base) is Err,
    ensures
        builtin_records(list, sources, names, loaded, base) == builtin_records(
            list.take(n),
            sources,
            names,
            loaded,
            base,
        ),
    decreases list.len() - n,
{
    if n == list.len() {
        assert(list.take(n) =~= list);
    } else {
        assert(list.take(n + 1).drop_last() =~= list.take(n));
        lemma_builtin_error(list, sources, names, loaded, base, n + 1);
    }
}

fn list_source(source: &ThemeSource, i: usize) -> (r: ThemeListing)
    ensures
        r@ == listing(source@, i as int),
{
    let id = match read_text(&source.value, "id") {
        Some(id) => owned(id),
        None => match &source.file_stem {
            Some(stem) => stem.clone(),
            None => owned("theme"),
        },
    };
    let name = match read_text(&source.value, "name") {
        Some(name) => owned(name),
        None => id.clone(),
    };
    let parent: Option<String> = match read_text(&source.value, "parent") {
        Some(p) => Some(owned(p)),
        None => None,
    };
    let number = match source.value.get("sort_order") {
        Some(v) => v.as_number(),
        None => None,
    };
    let order: i64 = match number {
        Some(n) => match n.long {
            Some(k) => k,
            None => i64::MAX,
        },
        None => i64::MAX,
    };
    ThemeListing { order, name, id, parent, source: i }
}

proof fn lemma_listed_source(sources: Seq<(Option<Seq<char>>, JsonModel)>, i: int)
    requires
        0 <= i < listings(sources).len(),
    ensures
        0 <= listings(sources)[i].source < sources.len(),
{
    let all = Seq::new(sources.len(), |i: int| listing(sources[i], i));
    sorting::in_order_members(all, listed_before());
    let out = sorting::in_order(all, listed_before());
    broadcast use vstd::seq_lib::group_to_multiset_ensures;

    assert(out.contains(out[i]));
    assert(out.to_multiset().count(out[i]) > 0);
    assert(all.to_multiset().count(out[i]) > 0);
    assert(all.contains(out[i]));
    let k = choose|k: int| 0 <= k < all.len() && all[k] == out[i];
    assert(out[i].source == k);
}

/// The themes that come with the editor, or why there are none.
pub open spec fn builtin_themes(
    files: Seq<(Option<Seq<char>>, JsonModel)>,
    loaded: Loaded,
    base: TokenModel,
) -> Result<Seq<RecordModel>, Seq<char>> {
    if files.len() > 0 {
        builtin_records(listings(files), files, names_by_id(listings(files)), loaded, base)
    } else {
        Err("no built-in theme-editor themes found"@)
    }
}

/// The theme files that are loaded: those of the user, where any of them is JSON, and else the ones
/// that come with the editor.
pub open spec fn chosen_sources(
    user: Seq<(Option<Seq<char>>, Seq<char>)>,
    seeds: Seq<(Option<Seq<char>>, Seq<char>)>,
) -> Seq<(Option<Seq<char>>, JsonModel)> {
    if sources_read(user).len() > 0 {
        sources_read(user)
    } else {
        sources_read(seeds)
    }
}

/// Reads the themes that come with the editor from the texts of theme files: those of the user, or
/// else the ones that come with the editor.
pub fn load_builtin_theme_texts(
    user_texts: &Vec<ThemeText>,
    seed_texts: &Vec<ThemeText>,
    loaded_plugins: &Vec<(BuiltinComponentSpec, PluginDefinition)>,
    base_theme: &TokenTheme,
) -> (r: Result<Vec<ThemeRecord>, String>)
    ensures
        ({
            let goal = builtin_themes(
                chosen_sources(textmap::views(user_texts@), textmap::views(seed_texts@)),
                reconcile::loaded_views(loaded_plugins@),
                base_theme@,
            );
            match r {
                Ok(v) => goal == Ok::<Seq<RecordModel>, Seq<char>>(textmap::views(v@)),
                Err(e) => goal == Err::<Seq<RecordModel>, Seq<char>>(e@),
            }
        }),
{
    let own = read_theme_sources(user_texts);
    if own.len() > 0 {
        load_builtin_theme_records(&own, loaded_plugins, base_theme)
    } else {
        load_builtin_theme_records(&read_theme_sources(seed_texts), loaded_plugins, base_theme)
    }
}

/// Reads the themes that come with the editor.
pub fn load_builtin_theme_records(
    sources: &Vec<ThemeSource>,
    loaded_plugins: &Vec<(BuiltinComponentSpec, PluginDefinition)>,
    base_theme: &TokenTheme,
) -> (r: Result<Vec<ThemeRecord>, String>)
    ensures
        ({
            let goal = builtin_themes(
                textmap::views(sources@),
                reconcile::loaded_views(loaded_plugins@),
                base_theme@,
            );
            match r {
                Ok(v) => goal == Ok::<Seq<RecordModel>, Seq<char>>(textmap::views(v@)),
                Err(e) => goal == Err::<Seq<RecordModel>, Seq<char>>(e@),
            }
        }),
{
    let ghost files = textmap::views(sources@);
    let ghost loaded = reconcile::loaded_views(loaded_plugins@);
    let ghost base = base_theme@;
    let mut list: Vec<ThemeListing> = Vec::new();
    for i in 0..sources.len()
        invariant
            files == textmap::views(sources@),
            list@.len() == i,
            forall|k: int| 0 <= k < i ==> (#[trigger] list@[k])@ == listing(files[k], k),
    {
        list.push(list_source(&sources[i], i));
    }
    assert(textmap::views(list@) =~= Seq::new(files.len(), |i: int| listing(files[i], i)));
    let sorted = sort_all(
        &list,
        |a: &ThemeListing, b: &ThemeListing| -> (c: bool)
            ensures
                c == (a@.order < b@.order || (a@.order == b@.order && text::text_lt(a@.name, b@.name)))
            {
                a.order < b.order || (a.order == b.order && text_less(a.name.as_str(), b.name.as_str()))
            },
        Ghost(listed_before()),
    );
    let ghost all = listings(files);
    assert(textmap::views(sorted@) == all);
    proof {
        sorting::in_order_members(Seq::new(files.len(), |i: int| listing(files[i], i)), listed_before());
    }
    let mut names: TextMap<String> = TextMap::new();
    for i in 0..sorted.len()
        invariant
            all == textmap::views(sorted@),
            names@ == names_by_id(all.take(i as int)),
    {
        proof {
            assert(all.take(i + 1).drop_last() =~= all.take(i as int));
            assert(all.take(i + 1).last() == all[i as int]);
        }
        names.insert(normalize_theme_identifier(sorted[i].id.as_str()), sorted[i].name.clone());
    }
    assert(all.take(sorted@.len() as int) =~= all);
    let mut out: Vec<ThemeRecord> = Vec::new();
    assert(textmap::views(out@) =~= Seq::<RecordModel>::empty());
    for i in 0..sorted.len()
        invariant
            files == textmap::views(sources@),
            loaded == reconcile::loaded_views(loaded_plugins@),
            base == base_theme@,
            all == listings(files),
            all == textmap::views(sorted@),
            names@ == names_by_id(all),
            out@.len() == i,
            builtin_records(all.take(i as int), files, names@, loaded, base) == Ok::<
                Seq<RecordModel>,
                Seq<char>,
            >(textmap::views(out@)),
    {
        proof {
            assert(all.take(i + 1).drop_last() =~= all.take(i as int));
            assert(all.take(i + 1).last() == all[i as int]);
            lemma_listed_source(files, i as int);
        }
        let l = &sorted[i];
        match import_theme_record_json(&sources[l.source].value, loaded_plugins, &out, base_theme) {
            Err(e) => {
                proof {
                    lemma_builtin_error(all, files, names@, loaded, base, i + 1);
                }
                return Err(e);
            },
            Ok(record) => {
                let mut record = record;
                let parent: Option<String> = match &l.parent {
                    Some(p) => {
                        let ident = normalize_theme_identifier(p.as_str());
                        match names.get(ident.as_str()) {
                            Some(name) => Some(name.clone()),
                            None => Some(p.clone()),
                        }
                    },
                    None => None,
                };
                let name = if text_eq(l.name.as_str(), "") {
                    l.id.clone()
                } else {
                    l.name.clone()
                };
                proof {
                    reveal_strlit("");
                    assert(l.name@.len() == 0 ==> l.name@ =~= ""@);
                }
                let ghost read = record@;
                record.meta = ThemeMeta { name, is_builtin: true, parent_name: parent };
                let ghost before = textmap::views(out@);
                out.push(record);
                assert(textmap::views(out@) =~= before.push(as_builtin(read, l@, names@)));
            },
        }
    }
    assert(all.take(sorted@.len() as int) =~= all);
    if out.len() == 0 {
        return Err(owned("no built-in theme-editor themes found"));
    }
    Ok(out)
}

// ---------------------------------------------------------------------------------------------
// Laws
// ---------------------------------------------------------------------------------------------
/// A file that is read owns exactly the tokens that it gives.
pub proof fn file_owns_what_it_gives(
    j: JsonModel,
    loaded: Loaded,
    existing: Seq<RecordModel>,
    base: TokenModel,
    tokens: JsonModel,
)
    requires
        json::at(j, "tokens"@) == Some(tokens),
        record_read(j, loaded, existing, base) is Ok,
    ensures
        record_read(j, loaded, existing, base)->Ok_0.token_overrides == token_theme::given_keys(tokens),
{
}

/// A file that gives a version other than the known one is never read, and any other file is.
pub proof fn unknown_version_is_refused(j: JsonModel, loaded: Loaded, existing: Seq<RecordModel>, base: TokenModel)
    ensures
        record_read(j, loaded, existing, base) is Err <==> (json::at(j, "version"@) is Some && file_version(j)
            != Some(THEME_RECORD_SCHEMA_VERSION as u64)),
{
}

/// The keys of a theme file are different texts.
pub proof fn record_keys_differ()
    ensures
        "version"@ != "id"@,
        "version"@ != "name"@,
        "version"@ != "parent"@,
        "version"@ != "tokens"@,
        "version"@ != "components"@,
        "id"@ != "name"@,
        "id"@ != "parent"@,
        "id"@ != "tokens"@,
        "id"@ != "components"@,
        "name"@ != "parent"@,
        "name"@ != "tokens"@,
        "name"@ != "components"@,
        "parent"@ != "tokens"@,
        "parent"@ != "components"@,
        "tokens"@ != "components"@,
{
    reveal_strlit("version");
    reveal_strlit("id");
    reveal_strlit("name");
    reveal_strlit("parent");
    reveal_strlit("tokens");
    reveal_strlit("components");
    assert("version"@.len() == 7 && "id"@.len() == 2 && "name"@.len() == 4 && "parent"@.len() == 6 && "tokens"@.len()
        == 6 && "components"@.len() == 10);
    assert("parent"@[0] != "tokens"@[0]);
}

/// A theme that is written with its parent, and read again beside that parent, has its name, its
/// parent and its tokens again, where floats that are left out are the parent's.
pub proof fn written_theme_is_read(
    record: RecordModel,
    parent: RecordModel,
    plugins: Plugins,
    loaded: Loaded,
    existing: Seq<RecordModel>,
    base: TokenModel,
)
    requires
        meant_parent(existing, records::json_id(parent.meta)) == Some(parent.meta.name),
        records::index_by_name(existing, parent.meta.name) matches Some(i) && existing[i] == parent,
        token_theme::tokens_kept(record.tokens, parent.tokens),
    ensures
        ({
            let j = JsonModel::Object(record_json(record, Some(parent), plugins));
            let r = record_read(j, loaded, existing, base);
            &&& r is Ok
            &&& r->Ok_0.meta.name == record.meta.name
            &&& r->Ok_0.meta.parent_name == Some(parent.meta.name)
            &&& r->Ok_0.tokens == record.tokens
        }),
{
    record_keys_differ();
    let o = record_json(record, Some(parent), plugins);
    let j = JsonModel::Object(o);
    let patch = record.tokens.patch(Some(parent.tokens), record.token_overrides);
    assert(json::at(j, "version"@) == Some(json::int_json(1)));
    assert(json::at(j, "name"@) == Some(JsonModel::Text(record.meta.name)));
    assert(json::at(j, "parent"@) == Some(JsonModel::Text(records::json_id(parent.meta))));
    assert(json::at(j, "tokens"@) == json::filled(patch));
    token_theme::patched_tokens_are_read(record.tokens, parent.tokens, record.token_overrides);
    if patch.dom() == Set::<Seq<char>>::empty() {
        assert(patch =~= Map::empty());
        token_theme::nothing_is_read(parent.tokens);
    }
}

/// The order of listings is one.
pub proof fn listing_order_orders()
    ensures
        sorting::orders(listed_before()),
{
    let before = listed_before();
    assert forall|a: ListingModel, b: ListingModel| #[trigger] before(a, b) implies !before(b, a) by {
        if a.order == b.order {
            text::text_lt_asymmetric(a.name, b.name);
        }
    }
    assert forall|a: ListingModel, b: ListingModel, c: ListingModel|
        #![trigger before(a, b), before(b, c)]
        !before(a, b) && !before(b, c) implies !before(a, c) by {
        if a.order == b.order && b.order == c.order && text::text_lt(a.name, c.name) {
            if a.name != b.name {
                text::text_lt_total(a.name, b.name);
                text::text_lt_transitive(b.name, a.name, c.name);
            }
        }
    }
}

/// Every file is listed, none of them by another's place or name, and the listings go by the files'
/// places, and by names where these are equal.
pub proof fn files_are_listed_in_order(sources: Seq<(Option<Seq<char>>, JsonModel)>, i: int, j: int, k: int)
    requires
        0 <= i < sources.len(),
        0 <= j < k < listings(sources).len(),
    ensures
        listings(sources).len() == sources.len(),
        listings(sources).contains(listing(sources[i], i)),
        listings(sources)[j].order <= listings(sources)[k].order,
        listings(sources)[j].order == listings(sources)[k].order ==> !text::text_lt(
            listings(sources)[k].name,
            listings(sources)[j].name,
        ),
{
    let all = Seq::new(sources.len(), |n: int| listing(sources[n], n));
    let listed = listings(sources);
    listing_order_orders();
    sorting::in_order_is_ordered(all, listed_before());
    sorting::in_order_members(all, listed_before());
    broadcast use vstd::seq_lib::group_to_multiset_ensures;

    let before = listed_before();
    assert(!before(listed[k], listed[j]));
    assert(all[i] == listing(sources[i], i));
    assert(all.to_multiset().count(listing(sources[i], i)) > 0);
}

/// A file is listed under its own name and identifier where it gives them; without a name it goes by its
/// identifier, without an identifier by its file name, and without a place it comes last.
pub proof fn file_is_listed_as_it_says(stem: Option<Seq<char>>, j: JsonModel, i: int)
    ensures
        text_at(j, "id"@) matches Some(id) ==> listing((stem, j), i).id == id,
        text_at(j, "id"@) is None && stem is Some ==> Some(listing((stem, j), i).id) == stem,
        text_at(j, "name"@) matches Some(name) ==> listing((stem, j), i).name == name,
        text_at(j, "name"@) is None ==> listing((stem, j), i).name == listing((stem, j), i).id,
        listing((stem, j), i).parent == text_at(j, "parent"@),
        listing((stem, j), i).source == i,
        json::number_of(json::at(j, "sort_order"@)) is None ==> listing((stem, j), i).order == i64::MAX,
{
}

/// The name found for an identifier is that of the last listing with it.
pub proof fn last_listed_name_counts(list: Seq<ListingModel>, k: int)
    requires
        0 <= k < list.len(),
        forall|m: int|
            k < m < list.len() ==> records::identifier((#[trigger] list[m]).id) != records::identifier(list[k].id),
    ensures
        names_by_id(list).dom().contains(records::identifier(list[k].id)),
        names_by_id(list)[records::identifier(list[k].id)] == list[k].name,
    decreases list.len(),
{
    if k < list.len() - 1 {
        let front = list.drop_last();
        assert(front[k] == list[k]);
        assert(list[list.len() - 1] == list.last());
        assert forall|m: int| k < m < front.len() implies records::identifier((#[trigger] front[m]).id)
            != records::identifier(front[k].id) by {
            assert(front[m] == list[m]);
        }
        last_listed_name_counts(front, k);
    }
}

/// A theme that comes with the editor has what its file gives, is marked as such, and has as its parent the
/// theme that is listed with the identifier that it extends.
pub proof fn builtin_theme_is_as_listed(record: RecordModel, list: Seq<ListingModel>, n: int, k: int)
    requires
        0 <= n < list.len(),
        0 <= k < list.len(),
        list[n].name.len() > 0,
        forall|m: int|
            k < m < list.len() ==> records::identifier((#[trigger] list[m]).id) != records::identifier(list[k].id),
    ensures
        ({
            let theme = as_builtin(record, list[n], names_by_id(list));
            &&& theme.meta.is_builtin
            &&& theme.meta.name == list[n].name
            &&& theme.tokens == record.tokens
            &&& theme.token_overrides == record.token_overrides
            &&& theme.component_themes == record.component_themes
            &&& list[n].parent is None ==> theme.meta.parent_name is None
            &&& list[n].parent == Some(list[k].id) ==> theme.meta.parent_name == Some(list[k].name)
        }),
{
    last_listed_name_counts(list, k);
}

/// The themes of listed files are as many as the listings, and each is read from the file of its listing,
/// with those before it as what it can extend.
pub proof fn each_listed_file_is_a_theme(
    list: Seq<ListingModel>,
    sources: Seq<(Option<Seq<char>>, JsonModel)>,
    names: Map<Seq<char>, Seq<char>>,
    loaded: Loaded,
    base: TokenModel,
    found: Seq<RecordModel>,
    k: int,
)
    requires
        builtin_records(list, sources, names, loaded, base) == Ok::<Seq<RecordModel>, Seq<char>>(found),
        0 <= k < list.len(),
    ensures
        found.len() == list.len(),
        record_read(sources[list[k].source].1, loaded, found.take(k), base) matches Ok(r) && found[k] == as_builtin(
            r,
            list[k],
            names,
        ),
    decreases list.len(),
{
    let front = list.drop_last();
    let before = builtin_records(front, sources, names, loaded, base)->Ok_0;
    if front.len() > 0 {
        let m = if k < front.len() {
            k
        } else {
            0
        };
        each_listed_file_is_a_theme(front, sources, names, loaded, base, before, m);
    } else {
        assert(before.len() == 0);
    }
    if k < front.len() {
        assert(front[k] == list[k]);
        assert(found.take(k) =~= before.take(k));
        assert(found[k] == before[k]);
    } else {
        assert(found.take(k) =~= before);
    }
}

proof fn lemma_sources(texts: Seq<(Option<Seq<char>>, Seq<char>)>, i: int, j: JsonModel)
    requires
        0 <= i < texts.len(),
        json_text::parsed_json(texts[i].1) == Ok::<JsonModel, Seq<char>>(j),
    ensures
        sources_read(texts).contains((texts[i].0, j)),
    decreases texts.len(),
{
    let all = sources_read(texts);
    let before = sources_read(texts.drop_last());
    if i == texts.len() - 1 {
        assert(all[all.len() - 1] == (texts[i].0, j));
    } else {
        assert(texts.drop_last()[i] == texts[i]);
        lemma_sources(texts.drop_last(), i, j);
        let k = choose|k: int| 0 <= k < before.len() && before[k] == (texts[i].0, j);
        assert(all[k] == before[k]);
    }
}

/// Where some file of the user is JSON, every such file is loaded, and none of those that come with the
/// editor; where none is, those are.
pub proof fn user_files_count_first(
    user: Seq<(Option<Seq<char>>, Seq<char>)>,
    seeds: Seq<(Option<Seq<char>>, Seq<char>)>,
    i: int,
    j: JsonModel,
)
    ensures
        0 <= i < user.len() && json_text::parsed_json(user[i].1) == Ok::<JsonModel, Seq<char>>(j)
            ==> chosen_sources(user, seeds).contains((user[i].0, j)) && chosen_sources(user, seeds) == sources_read(
            user,
        ),
        sources_read(user).len() == 0 && 0 <= i < seeds.len() && json_text::parsed_json(seeds[i].1) == Ok::<
            JsonModel,
            Seq<char>,
        >(j) ==> chosen_sources(user, seeds).contains((seeds[i].0, j)),
{
    if 0 <= i < user.len() && json_text::parsed_json(user[i].1) == Ok::<JsonModel, Seq<char>>(j) {
        lemma_sources(user, i, j);
    }
    if 0 <= i < seeds.len() && json_text::parsed_json(seeds[i].1) == Ok::<JsonModel, Seq<char>>(j) {
        lemma_sources(seeds, i, j);
    }
}

/// Every file that is loaded becomes a theme that comes with the editor; without any file there is none.
pub proof fn every_file_becomes_a_theme(
    files: Seq<(Option<Seq<char>>, JsonModel)>,
    loaded: Loaded,
    base: TokenModel,
    k: int,
)
    ensures
        files.len() == 0 ==> builtin_themes(files, loaded, base) is Err,
        builtin_themes(files, loaded, base) matches Ok(found) ==> found.len() == files.len() && (0 <= k < files.len()
            ==> found[k].meta.is_builtin && record_read(
            files[listings(files)[k].source].1,
            loaded,
            found.take(k),
            base,
        ) is Ok),
{
    if let Ok(found) = builtin_themes(files, loaded, base) {
        let list = listings(files);
        let all = Seq::new(files.len(), |n: int| listing(files[n], n));
        sorting::in_order_members(all, listed_before());
        let m = if 0 <= k < files.len() {
            k
        } else {
            0
        };
        each_listed_file_is_a_theme(list, files, names_by_id(list), loaded, base, found, m);
    }
}

} // verus!
