//! The editor: the themes that are open, which of them is edited, and what can be undone.

use vstd::prelude::*;
use crate::chain;
use crate::color::Color;
use crate::fallback::{
    self, component_parent_data, property_value_matches, size_prop_is_overridden_for_ui,
    variant_prop_fallback_value, variant_prop_is_overridden_for_ui, variant_prop_value,
};
use crate::json::Json;
use crate::json_text::json_from_text;
use crate::loader::BuiltinComponentSpec;
use crate::panels::{self, property_value_from_ui, ui_size_index_to_key, ShownModel, ShownValue};
use crate::reconcile::{self, build_theme_record, Plugins, Themes};
use crate::record_json::{self, import_theme_record_json, Loaded};
use crate::records::{
    self, base_theme_index, clear_component_override_ownership, color_token_override_path, explicit_parent_theme,
    reset_theme_record_from_baseline, theme_parent_would_cycle, MetaModel, RecordModel, ThemeMeta, ThemeRecord,
    BASE_THEME_NAME,
};
use crate::scalar::Scalar;
use crate::schema::{self, PluginDefinition, PropModel};
use crate::storage::{
    self, cascade_default_to_children, ComponentThemeData, PropertyValue, ThemeData, DEFAULT_SIZE_KEY,
};
use crate::style;
use crate::text::{self, joined, natural_to_text, owned, text_eq, trimmed};
use crate::textmap::{self, duplicate_all, Duplicate, TextMap, TextSet};
use crate::token_theme::{
    self, all_token_override_keys, token_store_from_theme, Palette, TokenModel, TokenTheme,
};
use crate::value::{self, Value};

verus! {

/// The name of a theme that has not been given one.
pub const WORKING_THEME_NAME: &'static str = "Untitled";

/// The themes as they were before an edit.
#[derive(Debug, PartialEq)]
pub struct ThemeEditSnapshot {
    pub themes: Vec<ThemeRecord>,
}

impl View for ThemeEditSnapshot {
    type V = Seq<RecordModel>;

    open spec fn view(&self) -> Seq<RecordModel> {
        textmap::views(self.themes@)
    }
}

/// The open themes, the index of the one that is edited, and the themes before each edit that can be
/// undone and before each undo that can be taken back.
#[derive(Debug, PartialEq)]
pub struct Editor {
    pub themes: Vec<ThemeRecord>,
    pub current: usize,
    pub undo: Vec<ThemeEditSnapshot>,
    pub redo: Vec<ThemeEditSnapshot>,
}

/// The model of the editor.
#[verifier::ext_equal]
pub struct EditorModel {
    pub themes: Seq<RecordModel>,
    pub current: int,
    pub undo: Seq<Seq<RecordModel>>,
    pub redo: Seq<Seq<RecordModel>>,
}

impl View for Editor {
    type V = EditorModel;

    open spec fn view(&self) -> EditorModel {
        EditorModel {
            themes: textmap::views(self.themes@),
            current: self.current as int,
            undo: textmap::views(self.undo@),
            redo: textmap::views(self.redo@),
        }
    }
}

impl EditorModel {
    /// Whether there is a theme to edit.
    pub open spec fn is_open(self) -> bool {
        0 <= self.current < self.themes.len()
    }

    /// The theme that is edited.
    pub open spec fn theme(self) -> RecordModel {
        self.themes[self.current]
    }

    /// The editor with another theme in place of the edited one.
    pub open spec fn with_theme(self, theme: RecordModel) -> EditorModel {
        EditorModel { themes: self.themes.update(self.current, theme), ..self }
    }

    /// The editor with the themes put down for an undo, where there is a theme to edit.
    pub open spec fn recorded(self) -> EditorModel {
        if self.is_open() {
            EditorModel { undo: self.undo.push(self.themes), redo: Seq::empty(), ..self }
        } else {
            self
        }
    }

    /// The editor after an undo.
    pub open spec fn undone(self) -> EditorModel {
        if self.undo.len() == 0 {
            self
        } else if self.is_open() {
            EditorModel {
                themes: self.undo.last(),
                undo: self.undo.drop_last(),
                redo: self.redo.push(self.themes),
                ..self
            }
        } else {
            EditorModel { undo: self.undo.drop_last(), ..self }
        }
    }

    /// The editor after an undo has been taken back.
    pub open spec fn redone(self) -> EditorModel {
        if self.redo.len() == 0 {
            self
        } else if self.is_open() {
            EditorModel {
                themes: self.redo.last(),
                redo: self.redo.drop_last(),
                undo: self.undo.push(self.themes),
                ..self
            }
        } else {
            EditorModel { redo: self.redo.drop_last(), ..self }
        }
    }

    /// The data of a component in the edited theme.
    pub open spec fn data(self, key: Seq<char>) -> Option<ThemeData> {
        if self.is_open() {
            schema::entry(self.theme().component_themes, key)
        } else {
            None
        }
    }

    /// The data of a component in the parent of the edited theme.
    pub open spec fn parent_data(self, key: Seq<char>) -> Option<ThemeData> {
        match records::parent_record(self.themes, self.current) {
            Some(p) => schema::entry(p.component_themes, key),
            None => None,
        }
    }

    /// The editor with other component data in the edited theme.
    pub open spec fn with_components(self, component_themes: Themes) -> EditorModel {
        self.with_theme(RecordModel { component_themes, ..self.theme() })
    }
}

impl Editor {
    fn put(&mut self, theme: ThemeRecord)
        requires
            old(self)@.is_open(),
        ensures
            final(self)@ == old(self)@.with_theme(theme@),
    {
        let ghost before = self@;
        self.themes.set(self.current, theme);
        assert(self@.themes =~= before.themes.update(before.current, theme@));
    }

    /// Puts the themes down for an undo. What had been undone can no longer be taken back.
    pub fn record_theme_edit(&mut self)
        ensures
            final(self)@ == old(self)@.recorded(),
    {
        if self.current < self.themes.len() {
            let ghost before = self@;
            self.undo.push(ThemeEditSnapshot { themes: duplicate_all(&self.themes) });
            self.redo = Vec::new();
            assert(self@.undo =~= before.undo.push(before.themes));
            assert(self@.redo =~= Seq::<Seq<RecordModel>>::empty());
        }
    }

    /// Whether there is an edit to undo.
    pub fn can_undo(&self) -> (r: bool)
        ensures
            r == (self@.undo.len() > 0),
    {
        self.undo.len() > 0
    }

    /// Whether there is an undo to take back.
    pub fn can_redo(&self) -> (r: bool)
        ensures
            r == (self@.redo.len() > 0),
    {
        self.redo.len() > 0
    }

    /// Undoes the last edit.
    pub fn undo_theme_edit(&mut self)
        ensures
            final(self)@ == old(self)@.undone(),
    {
        let ghost before = self@;
        if let Some(snapshot) = self.undo.pop() {
            assert(textmap::views(self.undo@) =~= before.undo.drop_last());
            assert(snapshot@ == before.undo.last());
            if self.current < self.themes.len() {
                let themes = duplicate_all(&self.themes);
                self.redo.push(ThemeEditSnapshot { themes });
                assert(textmap::views(self.redo@) =~= before.redo.push(before.themes));
                self.themes = snapshot.themes;
            }
        }
    }

    /// Takes the last undo back.
    pub fn redo_theme_edit(&mut self)
        ensures
            final(self)@ == old(self)@.redone(),
    {
        let ghost before = self@;
        if let Some(snapshot) = self.redo.pop() {
            assert(textmap::views(self.redo@) =~= before.redo.drop_last());
            assert(snapshot@ == before.redo.last());
            if self.current < self.themes.len() {
                let themes = duplicate_all(&self.themes);
                self.undo.push(ThemeEditSnapshot { themes });
                assert(textmap::views(self.undo@) =~= before.undo.push(before.themes));
                self.themes = snapshot.themes;
            }
        }
    }
}

// ---------------------------------------------------------------------------------------------
// Variants
// ---------------------------------------------------------------------------------------------
/// What a row of the variant panel edits: a variant, a state and a property.
pub open spec fn variant_target(
    plugins: Plugins,
    key: Seq<char>,
    variant_index: int,
    state_index: int,
    prop_index: int,
) -> Option<(Seq<char>, Seq<char>, PropModel)> {
    let v = if variant_index < 0 {
        0
    } else {
        variant_index
    };
    if plugins.dom().contains(key) && 0 <= state_index < plugins[key].states.len() && 0 <= prop_index
        < plugins[key].variant_props.len() && v < plugins[key].variants.len() {
        Some((plugins[key].variants[v], plugins[key].states[state_index], plugins[key].variant_props[prop_index]))
    } else {
        None
    }
}

/// The components after a variant's property has been set. The value is marked where it does not
/// match what the property falls back to.
pub open spec fn variant_edited(
    themes: Themes,
    plugins: Plugins,
    theme_parent: Option<ThemeData>,
    key: Seq<char>,
    variant: Seq<char>,
    state: Seq<char>,
    prop: Seq<char>,
    v: Value,
) -> Themes {
    if themes.dom().contains(key) {
        let d = themes[key].variant_set(variant, state, prop, v);
        let set = themes.insert(key, d);
        match (
            fallback::fallback(d, theme_parent, fallback::parent_data(plugins, set, d), variant, state, prop),
            storage::variant_value(d.variant_props, variant, state, prop),
        ) {
            (Some(f), Some(stored)) => set.insert(
                key,
                d.with_resolved(variant, state, prop, stored, !fallback::values_match(stored, f)),
            ),
            _ => set,
        }
    } else {
        themes
    }
}

/// Whether a component's data have a value already.
pub open spec fn holds(current: Option<Value>, v: Value) -> bool {
    match current {
        Some(c) => value::same_value(c, v),
        None => false,
    }
}

/// The data with the Common variant's property back at what its definition declares.
pub open spec fn variant_default_cleared(d: ThemeData, state: Seq<char>, prop: Seq<char>) -> ThemeData {
    match d.common_variant_key {
        Some(common) => d.variant_cleared_to(
            common,
            state,
            prop,
            match storage::first_prop(d.variant_prop_defs, prop) {
                Some(p) => storage::variant_default(p, d.common_variant_key, common, state),
                None => Value::Float(Scalar { bits: 0 }),
            },
        ),
        None => d,
    }
}

/// The data with a variant's property back at what it falls back to.
pub open spec fn variant_reset(
    d: ThemeData,
    theme_parent: Option<ThemeData>,
    component_parent: Option<ThemeData>,
    variant: Seq<char>,
    state: Seq<char>,
    prop: Seq<char>,
) -> ThemeData {
    match fallback::fallback(d, theme_parent, component_parent, variant, state, prop) {
        Some(f) => d.with_resolved(variant, state, prop, f, false),
        None => if d.is_root(variant, state) {
            variant_default_cleared(d, state, prop)
        } else {
            d.variant_cleared(variant, state, prop)
        },
    }
}

impl EditorModel {
    /// The value of a variant's property in the edited theme.
    pub open spec fn variant_value(self, key: Seq<char>, variant: Seq<char>, state: Seq<char>, prop: Seq<char>) -> Option<
        Value,
    > {
        match self.data(key) {
            Some(d) => storage::variant_value(d.variant_props, variant, state, prop),
            None => None,
        }
    }

    /// The editor after a row of the variant panel has been given a value.
    pub open spec fn variant_changed(
        self,
        plugins: Plugins,
        key: Seq<char>,
        target: Option<(Seq<char>, Seq<char>, PropModel)>,
        shown: ShownModel,
    ) -> EditorModel {
        match target {
            None => self,
            Some((variant, state, def)) => {
                let v = panels::row_value(def.prop_type, shown);
                if !self.is_open() || holds(self.variant_value(key, variant, state, def.name), v) {
                    self
                } else {
                    self.recorded().with_components(
                        variant_edited(
                            self.theme().component_themes,
                            plugins,
                            self.parent_data(key),
                            key,
                            variant,
                            state,
                            def.name,
                            v,
                        ),
                    )
                }
            },
        }
    }

    /// Whether a variant's property is shown as overridden.
    pub open spec fn variant_is_overridden(
        self,
        plugins: Plugins,
        key: Seq<char>,
        variant: Seq<char>,
        state: Seq<char>,
        prop: Seq<char>,
    ) -> bool {
        match (self.data(key), self.variant_value(key, variant, state, prop)) {
            (Some(d), Some(v)) => fallback::shown_overridden(
                d,
                self.parent_data(key),
                fallback::parent_data(plugins, self.theme().component_themes, d),
                variant,
                state,
                prop,
                v,
            ),
            _ => false,
        }
    }

    /// The editor after a row of the variant panel has been reset.
    pub open spec fn variant_override_cleared(
        self,
        plugins: Plugins,
        key: Seq<char>,
        target: Option<(Seq<char>, Seq<char>, PropModel)>,
    ) -> EditorModel {
        match target {
            None => self,
            Some((variant, state, def)) => if self.variant_is_overridden(plugins, key, variant, state, def.name) {
                let themes = self.theme().component_themes;
                self.recorded().with_components(
                    themes.insert(
                        key,
                        variant_reset(
                            themes[key],
                            self.parent_data(key),
                            fallback::parent_data(plugins, themes, themes[key]),
                            variant,
                            state,
                            def.name,
                        ),
                    ),
                )
            } else {
                self
            },
        }
    }
}

fn duplicate_data(data: Option<&ComponentThemeData>) -> (r: Option<ComponentThemeData>)
    ensures
        data_view(r) == schema::option_view(data),
{
    match data {
        Some(d) => Some(d.duplicate()),
        None => None,
    }
}

/// What optional data stand for.
pub open spec fn data_view(data: Option<ComponentThemeData>) -> Option<ThemeData> {
    match data {
        Some(d) => Some(d@),
        None => None,
    }
}

impl Editor {
    /// The data of a component in the parent of the edited theme.
    fn theme_parent_data(&self, component_key: &str) -> (r: Option<ComponentThemeData>)
        ensures
            data_view(r) == self@.parent_data(component_key@),
    {
        match explicit_parent_theme(&self.themes, self.current) {
            Some(p) => duplicate_data(p.component_themes.get(component_key)),
            None => None,
        }
    }

    fn component_data(&self, component_key: &str) -> (r: Option<&ComponentThemeData>)
        ensures
            schema::option_view(r) == self@.data(component_key@),
    {
        if self.current < self.themes.len() {
            assert(self@.theme() == self.themes@[self.current as int]@);
            self.themes[self.current].component_themes.get(component_key)
        } else {
            None
        }
    }
}

fn list_index(index: i32, len: usize) -> (r: Option<usize>)
    ensures
        r == (if 0 <= index && (index as int) < len {
            Some(index as usize)
        } else {
            None
        }),
{
    if 0 <= index && (index as u64) < len as u64 {
        Some(index as usize)
    } else {
        None
    }
}

fn borrowed(data: &Option<ComponentThemeData>) -> (r: Option<&ComponentThemeData>)
    ensures
        schema::option_view(r) == data_view(*data),
{
    match data {
        Some(d) => Some(d),
        None => None,
    }
}

fn edit_variant(
    themes: &mut TextMap<ComponentThemeData>,
    plugins: &TextMap<PluginDefinition>,
    theme_parent: Option<&ComponentThemeData>,
    key: &str,
    variant: &str,
    state: &str,
    prop_name: &str,
    value: PropertyValue,
)
    ensures
        final(themes)@ == variant_edited(
            old(themes)@,
            plugins@,
            schema::option_view(theme_parent),
            key@,
            variant@,
            state@,
            prop_name@,
            value@,
        ),
{
    let ghost before = themes@;
    let mut data = match themes.get(key) {
        Some(d) => d.duplicate(),
        None => {
            return;
        },
    };
    data.set_variant_override(variant, state, prop_name, value);
    themes.insert(owned(key), data.duplicate());
    let component_parent = component_parent_data(plugins, themes, &data);
    let found = variant_prop_fallback_value(&data, theme_parent, component_parent, variant, state, prop_name);
    if let Some(f) = found {
        let stored = match variant_prop_value(&data, variant, state, prop_name) {
            Some(v) => Some(v.duplicate()),
            None => None,
        };
        if let Some(v) = stored {
            let is_overridden = !property_value_matches(&v, &f);
            data.set_variant_resolved_value(variant, state, prop_name, v, is_overridden);
            themes.insert(owned(key), data);
        }
    }
}

impl Editor {
    /// Gives a row of the variant panel a value. Nothing happens where the property has that value.
    pub fn variant_prop_changed(
        &mut self,
        plugins: &TextMap<PluginDefinition>,
        component_key: &str,
        variant_index: i32,
        state_index: i32,
        prop_index: i32,
        new_value: &ShownValue,
    )
        ensures
            final(self)@ == old(self)@.variant_changed(
                plugins@,
                component_key@,
                variant_target(
                    plugins@,
                    component_key@,
                    variant_index as int,
                    state_index as int,
                    prop_index as int,
                ),
                new_value@,
            ),
    {
        let (plugin, v, s, p) = match variant_row(plugins, component_key, variant_index, state_index, prop_index) {
            Some(t) => t,
            None => {
                return;
            },
        };
        let variant = plugin.variants[v].as_str();
        let state = plugin.states[s].as_str();
        let prop = &plugin.variant_props[p];
        let value = property_value_from_ui(prop, new_value);
        if self.current >= self.themes.len() {
            return;
        }
        let same = match self.component_data(component_key) {
            Some(data) => match variant_prop_value(data, variant, state, prop.name.as_str()) {
                Some(current) => current.same(&value),
                None => false,
            },
            None => false,
        };
        if same {
            return;
        }
        let parent = self.theme_parent_data(component_key);
        self.record_theme_edit();
        let mut theme = self.themes[self.current].duplicate();
        edit_variant(
            &mut theme.component_themes,
            plugins,
            borrowed(&parent),
            component_key,
            variant,
            state,
            prop.name.as_str(),
            value,
        );
        self.put(theme);
    }

    /// Resets a row of the variant panel. Nothing happens where the row is not shown as overridden.
    pub fn clear_variant_override(
        &mut self,
        plugins: &TextMap<PluginDefinition>,
        component_key: &str,
        variant_index: i32,
        state_index: i32,
        prop_index: i32,
    )
        ensures
            final(self)@ == old(self)@.variant_override_cleared(
                plugins@,
                component_key@,
                variant_target(
                    plugins@,
                    component_key@,
                    variant_index as int,
                    state_index as int,
                    prop_index as int,
                ),
            ),
    {
        let (plugin, v, s, p) = match variant_row(plugins, component_key, variant_index, state_index, prop_index) {
            Some(t) => t,
            None => {
                return;
            },
        };
        let variant = plugin.variants[v].as_str();
        let state = plugin.states[s].as_str();
        let prop_name = plugin.variant_props[p].name.as_str();
        let parent = self.theme_parent_data(component_key);
        let mut data = match self.component_data(component_key) {
            Some(d) => d.duplicate(),
            None => {
                return;
            },
        };
        let component_parent = duplicate_data(
            component_parent_data(plugins, &self.themes[self.current].component_themes, &data),
        );
        let has_override = match variant_prop_value(&data, variant, state, prop_name) {
            Some(value) => variant_prop_is_overridden_for_ui(
                &data,
                borrowed(&parent),
                borrowed(&component_parent),
                variant,
                state,
                prop_name,
                value,
            ),
            None => false,
        };
        if !has_override {
            return;
        }
        let found = variant_prop_fallback_value(
            &data,
            borrowed(&parent),
            borrowed(&component_parent),
            variant,
            state,
            prop_name,
        );
        self.record_theme_edit();
        let mut theme = self.themes[self.current].duplicate();
        if let Some(f) = found {
            data.set_variant_resolved_value(variant, state, prop_name, f, false);
        } else if data.variant_state_is_root(variant, state) {
            let store = token_store_from_theme(&theme.tokens);
            data.clear_variant_default(state, prop_name, &store);
        } else {
            data.clear_variant_override(variant, state, prop_name);
        }
        theme.component_themes.insert(owned(component_key), data);
        self.put(theme);
    }
}

fn variant_row<'a>(
    plugins: &'a TextMap<PluginDefinition>,
    component_key: &str,
    variant_index: i32,
    state_index: i32,
    prop_index: i32,
) -> (r: Option<(&'a PluginDefinition, usize, usize, usize)>)
    ensures
        (match r {
            Some((plugin, v, s, p)) => {
                &&& v < plugin.variants@.len() && s < plugin.states@.len() && p < plugin.variant_props@.len()
                &&& variant_target(
                    plugins@,
                    component_key@,
                    variant_index as int,
                    state_index as int,
                    prop_index as int,
                ) == Some(
                    (plugin.variants@[v as int]@, plugin.states@[s as int]@, plugin.variant_props@[p as int]@),
                )
            },
            None => variant_target(
                plugins@,
                component_key@,
                variant_index as int,
                state_index as int,
                prop_index as int,
            ) is None,
        }),
{
    let plugin = match plugins.get(component_key) {
        Some(p) => p,
        None => {
            return None;
        },
    };
    let wanted: i32 = if variant_index < 0 {
        0
    } else {
        variant_index
    };
    match (
        list_index(wanted, plugin.variants.len()),
        list_index(state_index, plugin.states.len()),
        list_index(prop_index, plugin.variant_props.len()),
    ) {
        (Some(v), Some(s), Some(p)) => {
            assert(plugin@.variants[v as int] == plugin.variants@[v as int]@);
            assert(plugin@.states[s as int] == plugin.states@[s as int]@);
            assert(plugin@.variant_props[p as int] == plugin.variant_props@[p as int]@);
            Some((plugin, v, s, p))
        },
        _ => None,
    }
}

// ---------------------------------------------------------------------------------------------
// Sizes
// ---------------------------------------------------------------------------------------------
/// What a row of the size panel edits: the component, a size and a property.
pub open spec fn size_target(plugins: Plugins, key: Seq<char>, size_index: int, prop_index: int) -> Option<
    (Seq<char>, Seq<char>, PropModel),
> {
    if plugins.dom().contains(key) && 0 <= prop_index < plugins[key].size_props.len() {
        match panels::size_at(plugins[key].sizes, size_index) {
            Some(size) => Some((plugins[key].component, size, plugins[key].size_props[prop_index])),
            None => None,
        }
    } else {
        None
    }
}

/// The data with a property's Common value back at that of a parent, or else at what its definition
/// declares.
pub open spec fn size_default_reset(
    d: ThemeData,
    theme_parent: Option<ThemeData>,
    component_parent: Option<ThemeData>,
    prop: Seq<char>,
) -> ThemeData {
    match fallback::parent_base(component_parent, prop) {
        Some(v) => (ThemeData { parent_overrides: d.parent_overrides.remove(prop), ..d }).size_default_set(
            prop,
            v,
        ),
        None => match fallback::parent_base(theme_parent, prop) {
            Some(v) => d.size_default_set(prop, v),
            None => d.size_default_set(
                prop,
                match storage::first_prop(d.size_prop_defs, prop) {
                    Some(p) => storage::size_base(p),
                    None => Value::Float(Scalar { bits: 0 }),
                },
            ).default_marked(prop),
        },
    }
}

impl EditorModel {
    /// The value of a size's property in the edited theme.
    pub open spec fn size_value(self, key: Seq<char>, size: Seq<char>, prop: Seq<char>) -> Option<Value> {
        match self.data(key) {
            Some(d) => textmap::at2(d.size_props, size, prop),
            None => None,
        }
    }

    /// The editor after a row of the size panel has been given a value. A Common value also reaches
    /// every component that follows this one.
    pub open spec fn size_changed(
        self,
        key: Seq<char>,
        target: Option<(Seq<char>, Seq<char>, PropModel)>,
        shown: ShownModel,
    ) -> EditorModel {
        match target {
            None => self,
            Some((component, size, def)) => if self.is_open() {
                let v = panels::row_value(def.prop_type, shown);
                let themes = self.theme().component_themes;
                let same = holds(self.size_value(key, size, def.name), v);
                let set = if !same && themes.dom().contains(key) {
                    themes.insert(key, themes[key].size_imported(size, def.name, v))
                } else {
                    themes
                };
                (if same {
                    self
                } else {
                    self.recorded()
                }).with_components(
                    if size == DEFAULT_SIZE_KEY@ {
                        storage::cascaded_default(set, component, def.name, v)
                    } else {
                        set
                    },
                )
            } else {
                self
            },
        }
    }

    /// Whether a size's property is shown as overridden.
    pub open spec fn size_is_overridden(
        self,
        plugins: Plugins,
        key: Seq<char>,
        size: Seq<char>,
        prop: Seq<char>,
    ) -> bool {
        match self.data(key) {
            Some(d) => if size == DEFAULT_SIZE_KEY@ {
                match d.base(prop) {
                    Some(v) => fallback::shown_size_overridden(
                        d,
                        self.parent_data(key),
                        fallback::parent_data(plugins, self.theme().component_themes, d),
                        size,
                        prop,
                        v,
                    ),
                    None => false,
                }
            } else {
                storage::size_flagged(d.size_overrides, size, prop)
            },
            None => false,
        }
    }

    /// The editor after a row of the size panel has been reset.
    pub open spec fn size_override_cleared(
        self,
        plugins: Plugins,
        key: Seq<char>,
        target: Option<(Seq<char>, Seq<char>, PropModel)>,
    ) -> EditorModel {
        match target {
            None => self,
            Some((component, size, def)) => if self.size_is_overridden(plugins, key, size, def.name) {
                let themes = self.theme().component_themes;
                let d = themes[key];
                self.recorded().with_components(
                    themes.insert(
                        key,
                        if size == DEFAULT_SIZE_KEY@ {
                            size_default_reset(
                                d,
                                self.parent_data(key),
                                fallback::parent_data(plugins, themes, d),
                                def.name,
                            )
                        } else {
                            d.size_cleared(size, def.name)
                        },
                    ),
                )
            } else {
                self
            },
        }
    }
}

fn size_row<'a>(
    plugins: &'a TextMap<PluginDefinition>,
    component_key: &str,
    size_index: i32,
    prop_index: i32,
) -> (r: Option<(&'a PluginDefinition, &'a str, usize)>)
    ensures
        (match r {
            Some((plugin, size, p)) => {
                &&& p < plugin.size_props@.len()
                &&& size_target(plugins@, component_key@, size_index as int, prop_index as int) == Some(
                    (plugin.component@, size@, plugin.size_props@[p as int]@),
                )
            },
            None => size_target(plugins@, component_key@, size_index as int, prop_index as int) is None,
        }),
{
    let plugin = match plugins.get(component_key) {
        Some(p) => p,
        None => {
            return None;
        },
    };
    match (ui_size_index_to_key(plugin, size_index), list_index(prop_index, plugin.size_props.len())) {
        (Some(size), Some(p)) => {
            assert(plugin@.size_props[p as int] == plugin.size_props@[p as int]@);
            Some((plugin, size, p))
        },
        _ => None,
    }
}

impl Editor {
    /// Gives a row of the size panel a value.
    pub fn size_prop_changed(
        &mut self,
        plugins: &TextMap<PluginDefinition>,
        component_key: &str,
        size_index: i32,
        prop_index: i32,
        new_value: &ShownValue,
    )
        ensures
            final(self)@ == old(self)@.size_changed(
                component_key@,
                size_target(plugins@, component_key@, size_index as int, prop_index as int),
                new_value@,
            ),
    {
        let (plugin, size, p) = match size_row(plugins, component_key, size_index, prop_index) {
            Some(t) => t,
            None => {
                return;
            },
        };
        let prop = &plugin.size_props[p];
        let prop_name = prop.name.as_str();
        let value = property_value_from_ui(prop, new_value);
        if self.current >= self.themes.len() {
            return;
        }
        let same = match self.component_data(component_key) {
            Some(data) => match data.size_props.get2(size, prop_name) {
                Some(current) => current.same(&value),
                None => false,
            },
            None => false,
        };
        if !same {
            self.record_theme_edit();
        }
        let mut theme = self.themes[self.current].duplicate();
        if !same {
            let edited = match theme.component_themes.get(component_key) {
                Some(d) => Some(d.duplicate()),
                None => None,
            };
            if let Some(mut data) = edited {
                data.set_size_import_override(size, prop_name, value.duplicate());
                theme.component_themes.insert(owned(component_key), data);
            }
        }
        if text_eq(size, DEFAULT_SIZE_KEY) {
            cascade_default_to_children(
                &mut theme.component_themes,
                plugin.component.as_str(),
                prop_name,
                &value,
            );
        }
        self.put(theme);
    }

    /// Resets a row of the size panel. Nothing happens where the row is not shown as overridden.
    pub fn clear_size_override(
        &mut self,
        plugins: &TextMap<PluginDefinition>,
        component_key: &str,
        size_index: i32,
        prop_index: i32,
    )
        ensures
            final(self)@ == old(self)@.size_override_cleared(
                plugins@,
                component_key@,
                size_target(plugins@, component_key@, size_index as int, prop_index as int),
            ),
    {
        let (plugin, size, p) = match size_row(plugins, component_key, size_index, prop_index) {
            Some(t) => t,
            None => {
                return;
            },
        };
        let prop_name = plugin.size_props[p].name.as_str();
        let parent = self.theme_parent_data(component_key);
        let mut data = match self.component_data(component_key) {
            Some(d) => d.duplicate(),
            None => {
                return;
            },
        };
        let component_parent = duplicate_data(
            component_parent_data(plugins, &self.themes[self.current].component_themes, &data),
        );
        let is_default = text_eq(size, DEFAULT_SIZE_KEY);
        let has_override = if is_default {
            match data.size_props.get2(DEFAULT_SIZE_KEY, prop_name) {
                Some(value) => size_prop_is_overridden_for_ui(
                    &data,
                    borrowed(&parent),
                    borrowed(&component_parent),
                    DEFAULT_SIZE_KEY,
                    prop_name,
                    value,
                ),
                None => false,
            }
        } else {
            data.size_prop_is_overridden(size, prop_name)
        };
        if !has_override {
            return;
        }
        self.record_theme_edit();
        let mut theme = self.themes[self.current].duplicate();
        if is_default {
            if let Some(v) = base_of(&component_parent, prop_name) {
                data.clear_parent_override(prop_name, v);
            } else if let Some(v) = base_of(&parent, prop_name) {
                data.clear_size_default_to_value(prop_name, v);
            } else {
                let store = token_store_from_theme(&theme.tokens);
                data.clear_size_default(prop_name, &store);
                data.mark_size_default_override(prop_name);
            }
        } else {
            data.clear_size_override(size, prop_name);
        }
        theme.component_themes.insert(owned(component_key), data);
        self.put(theme);
    }
}

fn base_of(parent: &Option<ComponentThemeData>, prop_name: &str) -> (r: Option<PropertyValue>)
    ensures
        storage::found(r) == fallback::parent_base(data_view(*parent), prop_name@),
{
    match parent {
        Some(d) => match d.size_props.get2(DEFAULT_SIZE_KEY, prop_name) {
            Some(v) => Some(v.duplicate()),
            None => None,
        },
        None => None,
    }
}

// ---------------------------------------------------------------------------------------------
// Tokens
// ---------------------------------------------------------------------------------------------
/// The color of a scheme that a token names.
pub open spec fn named_color(p: Palette, token: Seq<char>) -> Option<Color> {
    if token == "primary"@ {
        Some(p.primary)
    } else if token == "primary-pressed"@ {
        Some(p.primary_pressed)
    } else if token == "secondary"@ {
        Some(p.secondary)
    } else if token == "danger"@ {
        Some(p.danger)
    } else if token == "surface"@ {
        Some(p.surface)
    } else if token == "background"@ {
        Some(p.background)
    } else if token == "text"@ {
        Some(p.text)
    } else if token == "text-muted"@ {
        Some(p.text_muted)
    } else {
        None
    }
}

/// A scheme with another color for what a token names.
pub open spec fn with_color(p: Palette, token: Seq<char>, c: Color) -> Palette {
    if token == "primary"@ {
        Palette { primary: c, ..p }
    } else if token == "primary-pressed"@ {
        Palette { primary_pressed: c, ..p }
    } else if token == "secondary"@ {
        Palette { secondary: c, ..p }
    } else if token == "danger"@ {
        Palette { danger: c, ..p }
    } else if token == "surface"@ {
        Palette { surface: c, ..p }
    } else if token == "background"@ {
        Palette { background: c, ..p }
    } else if token == "text"@ {
        Palette { text: c, ..p }
    } else if token == "text-muted"@ {
        Palette { text_muted: c, ..p }
    } else {
        p
    }
}

fn color_named(p: &Palette, token: &str) -> (r: Option<Color>)
    ensures
        r == named_color(*p, token@),
{
    if text_eq(token, "primary") {
        Some(p.primary)
    } else if text_eq(token, "primary-pressed") {
        Some(p.primary_pressed)
    } else if text_eq(token, "secondary") {
        Some(p.secondary)
    } else if text_eq(token, "danger") {
        Some(p.danger)
    } else if text_eq(token, "surface") {
        Some(p.surface)
    } else if text_eq(token, "background") {
        Some(p.background)
    } else if text_eq(token, "text") {
        Some(p.text)
    } else if text_eq(token, "text-muted") {
        Some(p.text_muted)
    } else {
        None
    }
}

fn set_color(p: &mut Palette, token: &str, c: Color)
    ensures
        *final(p) == with_color(*old(p), token@, c),
{
    if text_eq(token, "primary") {
        p.primary = c;
    } else if text_eq(token, "primary-pressed") {
        p.primary_pressed = c;
    } else if text_eq(token, "secondary") {
        p.secondary = c;
    } else if text_eq(token, "danger") {
        p.danger = c;
    } else if text_eq(token, "surface") {
        p.surface = c;
    } else if text_eq(token, "background") {
        p.background = c;
    } else if text_eq(token, "text") {
        p.text = c;
    } else if text_eq(token, "text-muted") {
        p.text_muted = c;
    }
}

/// The colors of a scheme.
pub open spec fn scheme(t: TokenModel, is_dark: bool) -> Palette {
    if is_dark {
        t.dark
    } else {
        t.light
    }
}

/// A theme with a color set and owned.
pub open spec fn recolored(theme: RecordModel, token: Seq<char>, c: Color, is_dark: bool) -> RecordModel {
    let palette = with_color(scheme(theme.tokens, is_dark), token, c);
    RecordModel {
        tokens: if is_dark {
            TokenModel { dark: palette, ..theme.tokens }
        } else {
            TokenModel { light: palette, ..theme.tokens }
        },
        token_overrides: match records::color_path(token, is_dark) {
            Some(path) => theme.token_overrides.insert(path),
            None => theme.token_overrides,
        },
        ..theme
    }
}

impl EditorModel {
    /// The editor with the edited theme's tokens replaced, where there is one.
    pub open spec fn holding(self, tokens: TokenModel) -> EditorModel {
        if self.is_open() {
            self.with_theme(RecordModel { tokens, ..self.theme() })
        } else {
            self
        }
    }

    /// The editor after tokens have been edited.
    pub open spec fn tokens_edited(self, tokens: TokenModel) -> EditorModel {
        if self.is_open() && !tokens.same_as(self.theme().tokens) {
            self.recorded().holding(tokens)
        } else {
            self
        }
    }

    /// The editor after a color has been given a value.
    pub open spec fn color_changed(self, token: Seq<char>, c: Color, is_dark: bool) -> EditorModel {
        if self.is_open() && named_color(scheme(self.theme().tokens, is_dark), token) != Some(c) {
            self.recorded().with_theme(recolored(self.theme(), token, c, is_dark))
        } else {
            self
        }
    }

    /// The editor after another theme has been chosen. What the panel shows is kept in the theme
    /// that was edited.
    pub open spec fn switched(self, index: int, shown: TokenModel) -> EditorModel {
        if index == self.current {
            self
        } else {
            EditorModel { current: index, ..self.holding(shown) }
        }
    }
}

impl Editor {
    /// Keeps the tokens that the panel shows in the edited theme.
    pub fn hold_tokens(&mut self, tokens: TokenTheme)
        ensures
            final(self)@ == old(self)@.holding(tokens@),
    {
        if self.current < self.themes.len() {
            let mut theme = self.themes[self.current].duplicate();
            theme.tokens = tokens;
            self.put(theme);
        }
    }

    /// Takes edited tokens over. Nothing happens where they are equal to those of the theme.
    pub fn theme_tokens_edited(&mut self, tokens: TokenTheme)
        ensures
            final(self)@ == old(self)@.tokens_edited(tokens@),
    {
        if self.current < self.themes.len() {
            assert(self@.theme() == self.themes@[self.current as int]@);
            if !tokens.same(&self.themes[self.current].tokens) {
                self.record_theme_edit();
                self.hold_tokens(tokens);
            }
        }
    }

    /// Sets a color of a scheme, which the theme then owns. Nothing happens where it has that color.
    pub fn token_value_changed(&mut self, token_name: &str, new_color: Color, is_dark: bool)
        ensures
            final(self)@ == old(self)@.color_changed(token_name@, new_color, is_dark),
    {
        if self.current >= self.themes.len() {
            return;
        }
        let ghost before = self@;
        assert(self@.theme() == self.themes@[self.current as int]@);
        let current = if is_dark {
            color_named(&self.themes[self.current].tokens.dark, token_name)
        } else {
            color_named(&self.themes[self.current].tokens.light, token_name)
        };
        if let Some(c) = current {
            if c == new_color {
                return;
            }
        }
        self.record_theme_edit();
        let mut theme = self.themes[self.current].duplicate();
        if is_dark {
            set_color(&mut theme.tokens.dark, token_name, new_color);
        } else {
            set_color(&mut theme.tokens.light, token_name, new_color);
        }
        if let Some(path) = color_token_override_path(token_name, is_dark) {
            theme.token_overrides.insert(path);
        }
        assert(theme@ =~= recolored(before.theme(), token_name@, new_color, is_dark));
        self.put(theme);
    }

    /// Chooses the theme to edit, given the tokens that the panel shows of the one that was.
    pub fn theme_changed(&mut self, new_index: usize, shown: TokenTheme)
        ensures
            final(self)@ == old(self)@.switched(new_index as int, shown@),
    {
        if new_index != self.current {
            self.hold_tokens(shown);
            self.current = new_index;
        }
    }
}

// ---------------------------------------------------------------------------------------------
// Parents and names
// ---------------------------------------------------------------------------------------------
/// The parent that a choice stands for: none for a blank one and for "None".
pub open spec fn chosen_parent(choice: Seq<char>) -> Option<Seq<char>> {
    let name = text::trim(choice);
    if name.len() == 0 || name == "None"@ {
        None
    } else {
        Some(name)
    }
}

/// Whether a theme can be given a parent: it does not come with the library, it has another one, and
/// would not be among its own ancestors.
pub open spec fn takes_parent(themes: Seq<RecordModel>, i: int, parent: Option<Seq<char>>) -> bool {
    &&& !themes[i].meta.is_builtin
    &&& themes[i].meta.parent_name != parent
    &&& parent matches Some(name) ==> !records::would_cycle(themes, i, name)
}

/// A theme with another parent; without one it owns every token.
pub open spec fn reparented(theme: RecordModel, parent: Option<Seq<char>>) -> RecordModel {
    RecordModel {
        meta: MetaModel { parent_name: parent, ..theme.meta },
        token_overrides: if parent is None {
            token_theme::every_token_key()
        } else {
            theme.token_overrides
        },
        ..theme
    }
}

/// The themes after one of them has been renamed: those that had it as a parent still have.
pub open spec fn renamed(themes: Seq<RecordModel>, i: int, name: Seq<char>) -> Seq<RecordModel> {
    Seq::new(
        themes.len(),
        |j: int|
            RecordModel {
                meta: MetaModel {
                    name: if j == i {
                        name
                    } else {
                        themes[j].meta.name
                    },
                    parent_name: if themes[j].meta.parent_name == Some(themes[i].meta.name) {
                        Some(name)
                    } else {
                        themes[j].meta.parent_name
                    },
                    ..themes[j].meta
                },
                ..themes[j]
            },
    )
}

impl EditorModel {
    /// The editor after a parent has been chosen for the edited theme.
    pub open spec fn parent_changed(self, choice: Seq<char>) -> EditorModel {
        if self.is_open() && takes_parent(self.themes, self.current, chosen_parent(choice)) {
            self.recorded().with_theme(reparented(self.theme(), chosen_parent(choice)))
        } else {
            self
        }
    }

    /// The editor after the edited theme has been given a name.
    pub open spec fn name_changed(self, name: Seq<char>) -> EditorModel {
        if self.is_open() && !self.theme().meta.is_builtin && name.len() > 0 && self.theme().meta.name != name {
            EditorModel { themes: renamed(self.themes, self.current, name), ..self.recorded() }
        } else {
            self
        }
    }

    /// The editor after the edited theme has been saved under a name.
    pub open spec fn saved_as(self, name: Seq<char>) -> EditorModel {
        if self.is_open() {
            self.with_theme(
                RecordModel { meta: MetaModel { name, ..self.theme().meta }, ..self.theme() },
            )
        } else {
            self
        }
    }
}

fn same_parent(a: &Option<String>, b: &Option<String>) -> (r: bool)
    ensures
        r == (style::text_view(*a) == style::text_view(*b)),
{
    match (a, b) {
        (Some(x), Some(y)) => text_eq(x.as_str(), y.as_str()),
        (None, None) => true,
        _ => false,
    }
}

fn is_name(name: &Option<String>, wanted: &str) -> (r: bool)
    ensures
        r == (style::text_view(*name) == Some(wanted@)),
{
    match name {
        Some(n) => text_eq(n.as_str(), wanted),
        None => false,
    }
}

fn parent_choice(choice: &str) -> (r: Option<String>)
    ensures
        style::text_view(r) == chosen_parent(choice@),
{
    let name = trimmed(choice);
    if name.as_str().is_empty() || text_eq(name.as_str(), "None") {
        None
    } else {
        Some(name)
    }
}

impl Editor {
    /// Gives the edited theme a parent, where it can take it.
    pub fn theme_parent_changed(&mut self, new_parent_name: &str)
        ensures
            final(self)@ == old(self)@.parent_changed(new_parent_name@),
    {
        if self.current >= self.themes.len() {
            return;
        }
        let ghost before = self@;
        assert(before.theme() == self.themes@[self.current as int]@);
        let next = parent_choice(new_parent_name);
        if self.themes[self.current].meta.is_builtin {
            return;
        }
        if same_parent(&self.themes[self.current].meta.parent_name, &next) {
            return;
        }
        if let Some(name) = &next {
            if theme_parent_would_cycle(&self.themes, self.current, name.as_str()) {
                return;
            }
        }
        self.record_theme_edit();
        let mut theme = self.themes[self.current].duplicate();
        if next.is_none() {
            theme.token_overrides = all_token_override_keys();
        }
        theme.meta.parent_name = next;
        assert(theme@ =~= reparented(before.theme(), chosen_parent(new_parent_name@)));
        self.put(theme);
    }

    /// Gives the edited theme a name, also where it is another theme's parent. A theme that comes with
    /// the library keeps its name, and no theme is left without one.
    pub fn rename_theme(&mut self, new_name: &str)
        ensures
            final(self)@ == old(self)@.name_changed(new_name@),
    {
        if self.current >= self.themes.len() {
            return;
        }
        let ghost before = self@;
        assert(before.theme() == self.themes@[self.current as int]@);
        if self.themes[self.current].meta.is_builtin || new_name.is_empty() || text_eq(
            self.themes[self.current].meta.name.as_str(),
            new_name,
        ) {
            return;
        }
        let old_name = self.themes[self.current].meta.name.clone();
        self.record_theme_edit();
        let n: usize = self.themes.len();
        let mut out: Vec<ThemeRecord> = Vec::new();
        for j in 0..n
            invariant
                n == self.themes@.len(),
                self@ == before.recorded(),
                before.is_open(),
                before.theme().meta.name == old_name@,
                out@.len() == j,
                forall|k: int|
                    0 <= k < j ==> (#[trigger] out@[k])@ == renamed(before.themes, before.current, new_name@)[k],
        {
            let mut theme = self.themes[j].duplicate();
            assert(theme@ == before.themes[j as int]);
            if j == self.current {
                theme.meta.name = owned(new_name);
            }
            if is_name(&theme.meta.parent_name, old_name.as_str()) {
                theme.meta.parent_name = Some(owned(new_name));
            }
            assert(theme@ =~= renamed(before.themes, before.current, new_name@)[j as int]);
            out.push(theme);
        }
        assert(textmap::views(out@) =~= renamed(before.themes, before.current, new_name@));
        self.themes = out;
    }

    /// Names the edited theme after the file that it has been saved in.
    pub fn saved_in(&mut self, file_stem: &str)
        ensures
            final(self)@ == old(self)@.saved_as(file_stem@),
    {
        if self.current < self.themes.len() {
            let ghost before = self@;
            let mut theme = self.themes[self.current].duplicate();
            theme.meta.name = owned(file_stem);
            assert(theme@ =~= (RecordModel {
                meta: MetaModel { name: file_stem@, ..before.theme().meta },
                ..before.theme()
            }));
            self.put(theme);
        }
    }
}

// ---------------------------------------------------------------------------------------------
// New and loaded themes
// ---------------------------------------------------------------------------------------------
/// Whether a text is blank.
pub open spec fn is_blank(s: Seq<char>) -> bool {
    text::trim(s).len() == 0
}

/// The name of a loaded theme: its own, or else that of its file, or else one for themes without.
pub open spec fn loaded_name(own: Seq<char>, stem: Option<Seq<char>>, otherwise: Seq<char>) -> Seq<char> {
    if !is_blank(own) && own != WORKING_THEME_NAME@ {
        own
    } else {
        match stem {
            Some(s) => if is_blank(s) {
                otherwise
            } else {
                s
            },
            None => otherwise,
        }
    }
}

/// A loaded theme as it is edited.
pub open spec fn loaded_theme(theme: RecordModel, stem: Option<Seq<char>>, otherwise: Seq<char>) -> RecordModel {
    RecordModel {
        meta: MetaModel {
            name: loaded_name(theme.meta.name, stem, otherwise),
            is_builtin: false,
            ..theme.meta
        },
        ..theme
    }
}

/// What a theme that is chosen as a base is first called: like its file, or else its own name, or
/// else like the base theme.
pub open spec fn base_name(own: Seq<char>, stem: Option<Seq<char>>) -> Seq<char> {
    match stem {
        Some(s) if !is_blank(s) => s,
        _ => if is_blank(own) {
            BASE_THEME_NAME@
        } else {
            own
        },
    }
}

/// A name with a number behind it; the name itself for the first.
pub open spec fn numbered(raw: Seq<char>, n: nat) -> Seq<char> {
    if n <= 1 {
        raw
    } else {
        raw + " "@ + text::nat_text(n)
    }
}

/// Whether a theme other than the edited one has a name.
pub open spec fn taken(themes: Seq<RecordModel>, current: int, name: Seq<char>) -> bool {
    exists|i: int| 0 <= i < themes.len() && i != current && (#[trigger] themes[i]).meta.name == name
}

/// Whether a number is the first that makes a name no other theme has.
pub open spec fn is_first_free(themes: Seq<RecordModel>, current: int, raw: Seq<char>, n: nat) -> bool {
    &&& n >= 1
    &&& !taken(themes, current, numbered(raw, n))
    &&& forall|m: nat| 1 <= m < n ==> #[trigger] taken(themes, current, numbered(raw, m))
}

/// The first of a name, the name with 2 behind it, with 3 and so on, that no other theme has.
pub open spec fn free_name(themes: Seq<RecordModel>, current: int, raw: Seq<char>) -> Seq<char> {
    numbered(raw, choose|n: nat| is_first_free(themes, current, raw, n))
}

impl EditorModel {
    /// The editor after a new theme has been started from the base.
    pub open spec fn started_anew(self) -> EditorModel {
        if self.is_open() {
            let reset = match records::baseline_index(self.themes, self.current) {
                Some(b) => records::reset_to(self.theme().meta, self.themes[b]),
                None => self.theme(),
            };
            self.recorded().with_theme(
                RecordModel {
                    meta: MetaModel { name: WORKING_THEME_NAME@, is_builtin: false, ..reset.meta },
                    ..reset
                },
            )
        } else {
            self
        }
    }

    /// The editor after a theme has been loaded in place of the edited one.
    pub open spec fn loaded(self, theme: RecordModel, stem: Option<Seq<char>>) -> EditorModel {
        if self.is_open() {
            self.recorded().with_theme(loaded_theme(theme, stem, WORKING_THEME_NAME@))
        } else {
            self
        }
    }

    /// The editor opened on a theme.
    pub open spec fn opened(self, theme: RecordModel, stem: Option<Seq<char>>) -> EditorModel {
        if self.is_open() {
            self.with_theme(loaded_theme(theme, stem, "App Theme"@))
        } else {
            self
        }
    }

    /// The editor after a theme has been added and made the parent of the edited one.
    pub open spec fn based_on(self, theme: RecordModel, stem: Option<Seq<char>>) -> EditorModel {
        let name = free_name(self.themes, self.current, base_name(theme.meta.name, stem));
        let base = RecordModel {
            meta: MetaModel { name, is_builtin: false, parent_name: None },
            ..theme
        };
        let added = EditorModel { themes: self.themes.push(base), ..self.recorded() };
        if added.is_open() {
            added.with_theme(
                RecordModel { meta: MetaModel { parent_name: Some(name), ..added.theme().meta }, ..added.theme() },
            )
        } else {
            added
        }
    }
}

fn blank(s: &str) -> (r: bool)
    ensures
        r == is_blank(s@),
{
    trimmed(s).as_str().is_empty()
}

fn name_loaded(own: &str, stem: Option<&str>, otherwise: &str) -> (r: String)
    ensures
        r@ == loaded_name(own@, schema::option_view(stem), otherwise@),
{
    if !blank(own) && !text_eq(own, WORKING_THEME_NAME) {
        return owned(own);
    }
    match stem {
        Some(s) => if blank(s) {
            owned(otherwise)
        } else {
            owned(s)
        },
        None => owned(otherwise),
    }
}

fn name_base(own: &str, stem: Option<&str>) -> (r: String)
    ensures
        r@ == base_name(own@, schema::option_view(stem)),
{
    if let Some(s) = stem {
        if !blank(s) {
            return owned(s);
        }
    }
    if blank(own) {
        owned(BASE_THEME_NAME)
    } else {
        owned(own)
    }
}

fn holder(themes: &Vec<ThemeRecord>, current: usize, name: &str) -> (r: Option<usize>)
    ensures
        match r {
            Some(i) => i < themes@.len() && i != current && textmap::views(themes@)[i as int].meta.name == name@,
            None => !taken(textmap::views(themes@), current as int, name@),
        },
{
    let ghost all = textmap::views(themes@);
    for i in 0..themes.len()
        invariant
            all == textmap::views(themes@),
            forall|j: int| 0 <= j < i && j != current ==> (#[trigger] all[j]).meta.name != name@,
    {
        if i != current && text_eq(themes[i].meta.name.as_str(), name) {
            assert(all[i as int].meta.name == name@);
            return Some(i);
        }
    }
    None
}

proof fn lemma_numbered_differ(raw: Seq<char>, m: nat, n: nat)
    requires
        1 <= m,
        1 <= n,
        numbered(raw, m) == numbered(raw, n),
    ensures
        m == n,
{
    reveal_strlit(" ");
    let start = raw + " "@;
    if m > 1 && n > 1 {
        assert(numbered(raw, m).skip(start.len() as int) =~= text::nat_text(m));
        assert(numbered(raw, n).skip(start.len() as int) =~= text::nat_text(n));
        text::nat_text_differs(m, n);
    } else if m > 1 {
        assert(numbered(raw, m).len() > raw.len());
    } else if n > 1 {
        assert(numbered(raw, n).len() > raw.len());
    }
}

proof fn lemma_holders_few(themes: Seq<RecordModel>, raw: Seq<char>, holders: Seq<int>)
    requires
        forall|k: int| 0 <= k < holders.len() ==> 0 <= #[trigger] holders[k] < themes.len()
            && themes[holders[k]].meta.name == numbered(raw, (k + 1) as nat),
    ensures
        holders.len() <= themes.len(),
{
    assert(holders.no_duplicates()) by {
        assert forall|a: int, b: int| 0 <= a < holders.len() && 0 <= b < holders.len() && a != b implies holders[a]
            != holders[b] by {
            if holders[a] == holders[b] {
                lemma_numbered_differ(raw, (a + 1) as nat, (b + 1) as nat);
            }
        }
    }
    if holders.len() > 0 {
        let n = themes.len() as int;
        assert(0 <= holders[0] < n);
        holders.unique_seq_to_set();
        vstd::set_lib::lemma_int_range(0, n);
        let range = vstd::set_lib::set_int_range(0, n);
        assert(holders.to_set().subset_of(range));
        vstd::set_lib::lemma_len_subset(holders.to_set(), range);
    }
}

proof fn lemma_first_free(themes: Seq<RecordModel>, current: int, raw: Seq<char>, n: nat)
    requires
        is_first_free(themes, current, raw, n),
    ensures
        free_name(themes, current, raw) == numbered(raw, n),
{
    let m = choose|m: nat| is_first_free(themes, current, raw, m);
    assert(is_first_free(themes, current, raw, m));
    if m < n {
        assert(taken(themes, current, numbered(raw, m)));
    }
    if n < m {
        assert(taken(themes, current, numbered(raw, n)));
    }
}

fn unused_name(themes: &Vec<ThemeRecord>, current: usize, raw: &str) -> (r: String)
    requires
        themes@.len() < usize::MAX,
    ensures
        r@ == free_name(textmap::views(themes@), current as int, raw@),
{
    let ghost all = textmap::views(themes@);
    let ghost mut holders: Seq<int> = Seq::empty();
    let mut name = owned(raw);
    let mut counter: usize = 1;
    loop
        invariant
            all == textmap::views(themes@),
            all.len() < usize::MAX,
            counter >= 1,
            name@ == numbered(raw@, counter as nat),
            holders.len() == counter - 1,
            counter - 1 <= all.len(),
            forall|k: int| 0 <= k < holders.len() ==> 0 <= #[trigger] holders[k] < all.len() && holders[k] != current
                && all[holders[k]].meta.name == numbered(raw@, (k + 1) as nat),
        decreases all.len() + 1 - counter,
    {
        match holder(themes, current, name.as_str()) {
            None => {
                proof {
                    assert forall|m: nat| 1 <= m < counter implies #[trigger] taken(
                        all,
                        current as int,
                        numbered(raw@, m),
                    ) by {
                        let i = holders[m - 1];
                        assert(all[i].meta.name == numbered(raw@, m));
                    }
                    lemma_first_free(all, current as int, raw@, counter as nat);
                }
                return name;
            },
            Some(i) => {
                proof {
                    holders = holders.push(i as int);
                    lemma_holders_few(all, raw@, holders);
                }
                counter = counter + 1;
                name = joined(
                    joined(raw, " ").as_str(),
                    natural_to_text(counter as u64).as_str(),
                );
            },
        }
    }
}

impl Editor {
    /// Starts a new theme from the parent of the edited one, or else from the base theme.
    pub fn new_theme(&mut self)
        ensures
            final(self)@ == old(self)@.started_anew(),
    {
        if self.current >= self.themes.len() {
            return;
        }
        let ghost before = self@;
        self.record_theme_edit();
        reset_theme_record_from_baseline(&mut self.themes, self.current);
        let ghost reset = self@.theme();
        assert(self.themes@.len() == before.themes.len()) by {
            assert(self@.themes.len() == before.themes.len());
        }
        let mut theme = self.themes[self.current].duplicate();
        theme.meta.name = owned(WORKING_THEME_NAME);
        theme.meta.is_builtin = false;
        assert(theme@ =~= (RecordModel {
            meta: MetaModel { name: WORKING_THEME_NAME@, is_builtin: false, ..reset.meta },
            ..reset
        }));
        self.put(theme);
        assert(self@.themes =~= before.started_anew().themes);
    }

    /// Loads a theme in place of the edited one.
    pub fn load_theme(&mut self, theme: ThemeRecord, file_stem: Option<&str>)
        ensures
            final(self)@ == old(self)@.loaded(theme@, schema::option_view(file_stem)),
    {
        if self.current >= self.themes.len() {
            return;
        }
        let ghost given = theme@;
        let mut theme = theme;
        theme.meta.name = name_loaded(theme.meta.name.as_str(), file_stem, WORKING_THEME_NAME);
        theme.meta.is_builtin = false;
        assert(theme@ =~= loaded_theme(given, schema::option_view(file_stem), WORKING_THEME_NAME@));
        self.record_theme_edit();
        self.put(theme);
    }

    /// Opens the editor on a theme.
    pub fn open_theme(&mut self, theme: ThemeRecord, file_stem: Option<&str>)
        ensures
            final(self)@ == old(self)@.opened(theme@, schema::option_view(file_stem)),
    {
        if self.current >= self.themes.len() {
            return;
        }
        let ghost given = theme@;
        let mut theme = theme;
        theme.meta.name = name_loaded(theme.meta.name.as_str(), file_stem, "App Theme");
        theme.meta.is_builtin = false;
        assert(theme@ =~= loaded_theme(given, schema::option_view(file_stem), "App Theme"@));
        self.put(theme);
    }

    /// Adds a theme and makes it the parent of the edited one.
    pub fn pick_base_theme(&mut self, base: ThemeRecord, file_stem: Option<&str>)
        requires
            old(self).themes@.len() < usize::MAX,
        ensures
            final(self)@ == old(self)@.based_on(base@, schema::option_view(file_stem)),
    {
        let ghost before = self@;
        let ghost given = base@;
        let raw = name_base(base.meta.name.as_str(), file_stem);
        let name = unused_name(&self.themes, self.current, raw.as_str());
        let mut base = base;
        base.meta.name = name.clone();
        base.meta.is_builtin = false;
        base.meta.parent_name = None;
        let ghost added = base@;
        assert(added =~= (RecordModel {
            meta: MetaModel { name: name@, is_builtin: false, parent_name: None },
            ..given
        }));
        self.record_theme_edit();
        self.themes.push(base);
        assert(self@.themes =~= before.themes.push(added));
        if self.current < self.themes.len() {
            let ghost here = self@.theme();
            let mut theme = self.themes[self.current].duplicate();
            theme.meta.parent_name = Some(name);
            assert(theme@ =~= (RecordModel {
                meta: MetaModel { parent_name: Some(name@), ..here.meta },
                ..here
            }));
            self.put(theme);
        }
    }

    /// Reads a theme from a file and loads it in place of the edited one.
    pub fn import_json(
        &mut self,
        value: &Json,
        file_stem: Option<&str>,
        loaded_plugins: &Vec<(BuiltinComponentSpec, PluginDefinition)>,
        base_theme: &TokenTheme,
    ) -> (r: Result<(), String>)
        ensures
            match record_json::record_read(
                value@,
                reconcile::loaded_views(loaded_plugins@),
                old(self)@.themes,
                base_theme@,
            ) {
                Ok(theme) => r is Ok && final(self)@ == old(self)@.loaded(theme, schema::option_view(file_stem)),
                Err(e) => r matches Err(x) && x@ == e && final(self)@ == old(self)@,
            },
    {
        match import_theme_record_json(value, loaded_plugins, &self.themes, base_theme) {
            Ok(theme) => {
                self.load_theme(theme, file_stem);
                Ok(())
            },
            Err(e) => Err(e),
        }
    }

    /// Reads a theme from a file and opens the editor on it.
    pub fn open_json(
        &mut self,
        value: &Json,
        file_stem: Option<&str>,
        loaded_plugins: &Vec<(BuiltinComponentSpec, PluginDefinition)>,
        base_theme: &TokenTheme,
    ) -> (r: Result<(), String>)
        ensures
            match record_json::record_read(
                value@,
                reconcile::loaded_views(loaded_plugins@),
                old(self)@.themes,
                base_theme@,
            ) {
                Ok(theme) => r is Ok && final(self)@ == old(self)@.opened(theme, schema::option_view(file_stem)),
                Err(e) => r matches Err(x) && x@ == e && final(self)@ == old(self)@,
            },
    {
        match import_theme_record_json(value, loaded_plugins, &self.themes, base_theme) {
            Ok(theme) => {
                self.open_theme(theme, file_stem);
                Ok(())
            },
            Err(e) => Err(e),
        }
    }

    /// Reads a theme from a file and makes it the parent of the edited one.
    pub fn base_json(
        &mut self,
        value: &Json,
        file_stem: Option<&str>,
        loaded_plugins: &Vec<(BuiltinComponentSpec, PluginDefinition)>,
        base_theme: &TokenTheme,
    ) -> (r: Result<(), String>)
        requires
            old(self).themes@.len() < usize::MAX,
        ensures
            match record_json::record_read(
                value@,
                reconcile::loaded_views(loaded_plugins@),
                old(self)@.themes,
                base_theme@,
            ) {
                Ok(theme) => r is Ok && final(self)@ == old(self)@.based_on(theme, schema::option_view(file_stem)),
                Err(e) => r matches Err(x) && x@ == e && final(self)@ == old(self)@,
            },
    {
        match import_theme_record_json(value, loaded_plugins, &self.themes, base_theme) {
            Ok(theme) => {
                self.pick_base_theme(theme, file_stem);
                Ok(())
            },
            Err(e) => Err(e),
        }
    }

    /// Reads a theme from the text of a file and loads it in place of the edited one. A text that is not JSON
    /// changes nothing.
    pub fn import_text(
        &mut self,
        text: &str,
        file_stem: Option<&str>,
        loaded_plugins: &Vec<(BuiltinComponentSpec, PluginDefinition)>,
        base_theme: &TokenTheme,
    ) -> (r: Result<(), String>)
        ensures
            match record_json::text_read(
                text@,
                reconcile::loaded_views(loaded_plugins@),
                old(self)@.themes,
                base_theme@,
            ) {
                Ok(theme) => r is Ok && final(self)@ == old(self)@.loaded(theme, schema::option_view(file_stem)),
                Err(e) => r matches Err(x) && x@ == e && final(self)@ == old(self)@,
            },
    {
        match json_from_text(text) {
            Ok(value) => self.import_json(&value, file_stem, loaded_plugins, base_theme),
            Err(e) => Err(e),
        }
    }

    /// Reads a theme from the text of a file and opens the editor on it. A text that is not JSON changes
    /// nothing.
    pub fn open_text(
        &mut self,
        text: &str,
        file_stem: Option<&str>,
        loaded_plugins: &Vec<(BuiltinComponentSpec, PluginDefinition)>,
        base_theme: &TokenTheme,
    ) -> (r: Result<(), String>)
        ensures
            match record_json::text_read(
                text@,
                reconcile::loaded_views(loaded_plugins@),
                old(self)@.themes,
                base_theme@,
            ) {
                Ok(theme) => r is Ok && final(self)@ == old(self)@.opened(theme, schema::option_view(file_stem)),
                Err(e) => r matches Err(x) && x@ == e && final(self)@ == old(self)@,
            },
    {
        match json_from_text(text) {
            Ok(value) => self.open_json(&value, file_stem, loaded_plugins, base_theme),
            Err(e) => Err(e),
        }
    }

    /// Reads a theme from the text of a file and makes it the parent of the edited one. A text that is not
    /// JSON changes nothing.
    pub fn base_text(
        &mut self,
        text: &str,
        file_stem: Option<&str>,
        loaded_plugins: &Vec<(BuiltinComponentSpec, PluginDefinition)>,
        base_theme: &TokenTheme,
    ) -> (r: Result<(), String>)
        requires
            old(self).themes@.len() < usize::MAX,
        ensures
            match record_json::text_read(
                text@,
                reconcile::loaded_views(loaded_plugins@),
                old(self)@.themes,
                base_theme@,
            ) {
                Ok(theme) => r is Ok && final(self)@ == old(self)@.based_on(theme, schema::option_view(file_stem)),
                Err(e) => r matches Err(x) && x@ == e && final(self)@ == old(self)@,
            },
    {
        match json_from_text(text) {
            Ok(value) => self.base_json(&value, file_stem, loaded_plugins, base_theme),
            Err(e) => Err(e),
        }
    }
}

// ---------------------------------------------------------------------------------------------
// Start
// ---------------------------------------------------------------------------------------------
/// The base theme of the editor: the one among the loaded themes, or else the first of them, or else
/// a new one.
pub open spec fn starting_base(found: Seq<RecordModel>, loaded: Loaded, tokens: TokenModel) -> RecordModel {
    let i = match records::base_index(found) {
        Some(i) => i,
        None => 0,
    };
    let theme = if i < found.len() {
        found[i]
    } else {
        reconcile::new_record(BASE_THEME_NAME@, true, None, tokens, loaded)
    };
    RecordModel { meta: MetaModel { name: BASE_THEME_NAME@, is_builtin: true, parent_name: None }, ..theme }
}

/// A theme without a name, based on the base theme and equal to it.
pub open spec fn starting_theme(base: RecordModel) -> RecordModel {
    RecordModel {
        meta: MetaModel {
            name: WORKING_THEME_NAME@,
            is_builtin: false,
            parent_name: Some(BASE_THEME_NAME@),
        },
        token_overrides: Set::empty(),
        component_themes: records::unowned(base.component_themes),
        ..base
    }
}

/// The editor at its start: the base theme and a theme to edit.
pub open spec fn started(found: Seq<RecordModel>, loaded: Loaded, tokens: TokenModel) -> EditorModel {
    let base = starting_base(found, loaded, tokens);
    EditorModel {
        themes: seq![base, starting_theme(base)],
        current: 1,
        undo: Seq::empty(),
        redo: Seq::empty(),
    }
}

fn base_record(
    found: &Vec<ThemeRecord>,
    loaded_plugins: &Vec<(BuiltinComponentSpec, PluginDefinition)>,
    base_tokens: &TokenTheme,
) -> (r: ThemeRecord)
    ensures
        r@ == starting_base(textmap::views(found@), reconcile::loaded_views(loaded_plugins@), base_tokens@),
{
    let i: usize = match base_theme_index(found) {
        Some(i) => i,
        None => 0,
    };
    let mut base = if i < found.len() {
        assert(textmap::views(found@)[i as int] == found@[i as int]@);
        found[i].duplicate()
    } else {
        build_theme_record(BASE_THEME_NAME, true, None, base_tokens.duplicate(), loaded_plugins)
    };
    base.meta = ThemeMeta { name: owned(BASE_THEME_NAME), is_builtin: true, parent_name: None };
    base
}

fn working_copy(base: &ThemeRecord) -> (r: ThemeRecord)
    ensures
        r@ == starting_theme(base@),
{
    let mut working = base.duplicate();
    working.meta = ThemeMeta {
        name: owned(WORKING_THEME_NAME),
        is_builtin: false,
        parent_name: Some(owned(BASE_THEME_NAME)),
    };
    working.token_overrides = TextSet::new();
    clear_component_override_ownership(&mut working);
    working
}

impl Editor {
    /// The editor at its start, given the themes that come with the library and the tokens of a new
    /// base theme.
    pub fn start(
        found: &Vec<ThemeRecord>,
        loaded_plugins: &Vec<(BuiltinComponentSpec, PluginDefinition)>,
        base_tokens: &TokenTheme,
    ) -> (r: Editor)
        ensures
            r@ == started(textmap::views(found@), reconcile::loaded_views(loaded_plugins@), base_tokens@),
    {
        let base = base_record(found, loaded_plugins, base_tokens);
        let working = working_copy(&base);
        let ghost first = base@;
        let mut themes: Vec<ThemeRecord> = Vec::new();
        themes.push(base);
        themes.push(working);
        assert(textmap::views(themes@) =~= seq![first, starting_theme(first)]);
        let r = Editor { themes, current: 1, undo: Vec::new(), redo: Vec::new() };
        assert(r@.undo =~= Seq::<Seq<RecordModel>>::empty());
        assert(r@.redo =~= Seq::<Seq<RecordModel>>::empty());
        r
    }
}

// ---------------------------------------------------------------------------------------------
// Laws
// ---------------------------------------------------------------------------------------------
/// Whether an editor is what another becomes by an edit that can be undone, or by none at all.
pub open spec fn is_step(before: EditorModel, after: EditorModel) -> bool {
    ||| after == before
    ||| {
        &&& before.is_open()
        &&& after.is_open()
        &&& after.current == before.current
        &&& after.undo == before.undo.push(before.themes)
        &&& after.redo == Seq::<Seq<RecordModel>>::empty()
    }
}

/// An undo gives back the themes from before an edit, and taking it back those from after it.
pub proof fn undo_takes_edit_back(before: EditorModel, after: EditorModel)
    requires
        is_step(before, after),
        after != before,
    ensures
        after.undone() == (EditorModel { redo: seq![after.themes], ..before }),
        after.undone().redone() == after,
{
    assert(before.undo.push(before.themes).drop_last() =~= before.undo);
    assert(after.undone().redo =~= seq![after.themes]);
    assert(after.undone().redone().redo =~= after.redo);
}

/// An undo can be taken back, and what had been taken back undone again.
pub proof fn redo_takes_undo_back(e: EditorModel)
    requires
        e.is_open(),
        e.undo.len() > 0,
        0 <= e.current < e.undo.last().len(),
    ensures
        e.undone().redone() == e,
{
    assert(e.undo.drop_last().push(e.undo.last()) =~= e.undo);
    assert(e.redo.push(e.themes).drop_last() =~= e.redo);
}

/// Every edit of a component can be undone.
pub proof fn component_edits_are_steps(
    e: EditorModel,
    plugins: Plugins,
    key: Seq<char>,
    target: Option<(Seq<char>, Seq<char>, PropModel)>,
    shown: ShownModel,
)
    ensures
        is_step(e, e.variant_changed(plugins, key, target, shown)),
        is_step(e, e.variant_override_cleared(plugins, key, target)),
        is_step(e, e.size_override_cleared(plugins, key, target)),
        target matches Some((_, size, def)) ==> !holds(
            e.size_value(key, size, def.name),
            panels::row_value(def.prop_type, shown),
        ) ==> is_step(e, e.size_changed(key, target, shown)),
{
}

/// Every edit of tokens, names and parents, and every start from another theme, can be undone.
pub proof fn theme_edits_are_steps(
    e: EditorModel,
    tokens: TokenModel,
    text: Seq<char>,
    color: Color,
    is_dark: bool,
    theme: RecordModel,
    stem: Option<Seq<char>>,
)
    ensures
        is_step(e, e.tokens_edited(tokens)),
        is_step(e, e.color_changed(text, color, is_dark)),
        is_step(e, e.parent_changed(text)),
        is_step(e, e.name_changed(text)),
        is_step(e, e.started_anew()),
        is_step(e, e.loaded(theme, stem)),
        e.is_open() ==> is_step(e, e.based_on(theme, stem)),
{
}

/// Where no theme is among its own ancestors, none is after a parent has been chosen.
pub proof fn parent_change_keeps_order(e: EditorModel, choice: Seq<char>)
    requires
        e.is_open(),
        forall|j: int| 0 <= j < e.themes.len() ==> #[trigger] chain::stops(records::to_parent(e.themes), j),
    ensures
        forall|j: int|
            0 <= j < e.themes.len() ==> #[trigger] chain::stops(
                records::to_parent(e.parent_changed(choice).themes),
                j,
            ),
{
    let after = e.parent_changed(choice).themes;
    let parent = chosen_parent(choice);
    if takes_parent(e.themes, e.current, parent) {
        let moved = records::with_parent(e.themes, e.current, parent);
        assert forall|j: int| records::parent_index(after, j) == records::parent_index(moved, j) by {
            if 0 <= j < after.len() {
                assert(after[j].meta == moved[j].meta);
                if let Some(name) = after[j].meta.parent_name {
                    lemma_same_names(after, moved, name);
                }
            }
        }
        assert(records::to_parent(after) =~= records::to_parent(moved));
        match parent {
            Some(name) => {
                records::accepted_parent_keeps_order(e.themes, e.current, name);
            },
            None => {
                records::orphan_keeps_order(e.themes, e.current);
            },
        }
    }
}

proof fn lemma_same_names(a: Seq<RecordModel>, b: Seq<RecordModel>, name: Seq<char>)
    requires
        a.len() == b.len(),
        forall|i: int| 0 <= i < a.len() ==> (#[trigger] a[i]).meta.name == b[i].meta.name,
    ensures
        records::index_by_name(a, name) == records::index_by_name(b, name),
    decreases a.len(),
{
    if a.len() > 0 {
        assert(a.last().meta.name == b.last().meta.name);
        lemma_same_names(a.drop_last(), b.drop_last(), name);
    }
}

/// A renamed theme stays the parent of those that it was the parent of, and no other theme's parent
/// changes. The new name is no other theme's, and no theme refers to it yet; the old one is no other
/// theme's.
pub proof fn rename_keeps_parents(themes: Seq<RecordModel>, i: int, name: Seq<char>, j: int)
    requires
        0 <= i < themes.len(),
        0 <= j < themes.len(),
        forall|k: int|
            0 <= k < themes.len() && k != i ==> (#[trigger] themes[k]).meta.name != name && themes[k].meta.name
                != themes[i].meta.name,
        themes[j].meta.parent_name != Some(name),
    ensures
        records::parent_index(renamed(themes, i, name), j) == records::parent_index(themes, j),
{
    let after = renamed(themes, i, name);
    if let Some(p) = themes[j].meta.parent_name {
        if p == themes[i].meta.name {
            records::index_of_only(themes, i);
            assert forall|k: int| 0 <= k < after.len() && k != i implies (#[trigger] after[k]).meta.name != after[i].meta.name by {
                assert(themes[k].meta.name != name);
            }
            records::index_of_only(after, i);
        } else {
            lemma_other_name(themes, after, i, p);
        }
    }
}

proof fn lemma_other_name(a: Seq<RecordModel>, b: Seq<RecordModel>, i: int, name: Seq<char>)
    requires
        a.len() == b.len(),
        0 <= i,
        forall|k: int| 0 <= k < a.len() && k != i ==> (#[trigger] a[k]).meta.name == b[k].meta.name,
        i < a.len() ==> a[i].meta.name != name && b[i].meta.name != name,
    ensures
        records::index_by_name(a, name) == records::index_by_name(b, name),
    decreases a.len(),
{
    if a.len() > 0 {
        let n = a.len() - 1;
        assert(n != i ==> a[n].meta.name == b[n].meta.name);
        lemma_other_name(a.drop_last(), b.drop_last(), i, name);
    }
}

proof fn lemma_free_exists(themes: Seq<RecordModel>, current: int, raw: Seq<char>, holders: Seq<int>) -> (n: nat)
    requires
        forall|k: int| 0 <= k < holders.len() ==> 0 <= #[trigger] holders[k] < themes.len() && holders[k] != current
            && themes[holders[k]].meta.name == numbered(raw, (k + 1) as nat),
    ensures
        is_first_free(themes, current, raw, n),
    decreases themes.len() + 1 - holders.len(),
{
    lemma_holders_few(themes, raw, holders);
    let n: nat = holders.len() + 1;
    if taken(themes, current, numbered(raw, n)) {
        let i = choose|i: int|
            0 <= i < themes.len() && i != current && (#[trigger] themes[i]).meta.name == numbered(raw, n);
        lemma_free_exists(themes, current, raw, holders.push(i))
    } else {
        assert forall|m: nat| 1 <= m < n implies #[trigger] taken(themes, current, numbered(raw, m)) by {
            assert(themes[holders[m - 1]].meta.name == numbered(raw, m));
        }
        n
    }
}

/// A theme that is added as a base has a name that no theme but the edited one has.
pub proof fn added_base_has_own_name(themes: Seq<RecordModel>, current: int, raw: Seq<char>)
    ensures
        !taken(themes, current, free_name(themes, current, raw)),
{
    let n = lemma_free_exists(themes, current, raw, Seq::empty());
    lemma_first_free(themes, current, raw, n);
}

/// A color that has been set is the one that the token has, and the theme owns it.
pub proof fn set_color_is_owned(e: EditorModel, token: Seq<char>, c: Color, is_dark: bool, path: Seq<char>)
    requires
        e.is_open(),
        named_color(scheme(e.theme().tokens, is_dark), token) != Some(c),
        records::color_path(token, is_dark) == Some(path),
    ensures
        named_color(scheme(e.color_changed(token, c, is_dark).theme().tokens, is_dark), token) == Some(c),
        e.color_changed(token, c, is_dark).theme().token_overrides.contains(path),
{
}

proof fn lemma_fallback_apart(
    d: ThemeData,
    theme_parent: Option<ThemeData>,
    component_parent: Option<ThemeData>,
    variant: Seq<char>,
    state: Seq<char>,
    prop: Seq<char>,
    v: Value,
    flag: bool,
)
    ensures
        fallback::fallback(
            d.with_resolved(variant, state, prop, v, flag),
            theme_parent,
            component_parent,
            variant,
            state,
            prop,
        ) == fallback::fallback(d, theme_parent, component_parent, variant, state, prop),
{
    let e = d.with_resolved(variant, state, prop, v, flag);
    reveal_with_fuel(fallback::fallback, 4);
    reveal_with_fuel(fallback::shown_overridden, 4);
    assert(e.inherited(variant, state, prop) == d.inherited(variant, state, prop));
    if state != storage::NORMAL_STATE_KEY@ {
        let n = storage::NORMAL_STATE_KEY@;
        assert(e.inherited(variant, n, prop) == d.inherited(variant, n, prop));
        assert(storage::variant_flagged(e.variant_overrides, variant, n, prop) == storage::variant_flagged(
            d.variant_overrides,
            variant,
            n,
            prop,
        ));
    }
}

/// A reset property has the value that it falls back to and is not shown as overridden, unless that
/// value is no number.
pub proof fn reset_variant_is_inherited(
    d: ThemeData,
    theme_parent: Option<ThemeData>,
    component_parent: Option<ThemeData>,
    variant: Seq<char>,
    state: Seq<char>,
    prop: Seq<char>,
    f: Value,
)
    requires
        fallback::fallback(d, theme_parent, component_parent, variant, state, prop) == Some(f),
        fallback::values_match(f, f),
        d.variant_props.dom().contains(variant),
        d.variant_props[variant].dom().contains(state),
    ensures
        ({
            let after = variant_reset(d, theme_parent, component_parent, variant, state, prop);
            &&& storage::variant_value(after.variant_props, variant, state, prop) == Some(f)
            &&& !fallback::shown_overridden(after, theme_parent, component_parent, variant, state, prop, f)
        }),
{
    lemma_fallback_apart(d, theme_parent, component_parent, variant, state, prop, f, false);
    fallback::fallback_is_not_overridden(
        d.with_resolved(variant, state, prop, f, false),
        theme_parent,
        component_parent,
        variant,
        state,
        prop,
        f,
    );
}

/// The editor starts with two themes: the base theme, and one without a name that is based on it,
/// has its tokens and owns none of them.
pub proof fn starts_from_base(found: Seq<RecordModel>, loaded: Loaded, tokens: TokenModel)
    ensures
        ({
            let e = started(found, loaded, tokens);
            &&& e.is_open()
            &&& records::parent_record(e.themes, e.current) == Some(e.themes[0])
            &&& records::is_builtin_base(e.themes[0].meta)
            &&& e.theme().tokens == e.themes[0].tokens
            &&& e.theme().token_overrides == Set::<Seq<char>>::empty()
        }),
{
    let e = started(found, loaded, tokens);
    reveal_strlit("Base Theme");
    reveal_strlit("Untitled");
    assert(BASE_THEME_NAME@.len() == 10 && WORKING_THEME_NAME@.len() == 8);
    assert(e.themes[0].meta.name != e.themes[1].meta.name);
    assert forall|k: int| 0 <= k < e.themes.len() && k != 0 implies (#[trigger] e.themes[k]).meta.name
        != e.themes[0].meta.name by {
        assert(k == 1);
    }
    records::index_of_only(e.themes, 0);
}

} // verus!
