//! Themes: component styles by variant, size and state, inheritance and resolution.

use vstd::prelude::*;
use crate::style::{self, Style, StyleProps, ThemeValue};
use crate::text::{self, owned, split_dot, text_eq};
use crate::textmap::{self, Duplicate, TextMap};
use crate::tokens::{self, ColorScheme, SchemeTokens, ThemeTokens, TokenValue};
use crate::value::Value;

verus! {

/// Component interaction state
#[derive(Clone, Copy, Debug, PartialEq, Eq, Hash, Structural)]
pub enum ComponentState {
    Default,
    Focused,
    Loading,
    Pressed,
    Disabled,
    Confirmed,
    Visited,
}

impl Default for ComponentState {
    fn default() -> (r: Self)
        ensures
            r == ComponentState::Default,
    {
        ComponentState::Default
    }
}

/// The text that names a state.
pub open spec fn state_key(state: ComponentState) -> Seq<char> {
    match state {
        ComponentState::Default => "default"@,
        ComponentState::Focused => "focused"@,
        ComponentState::Loading => "loading"@,
        ComponentState::Pressed => "pressed"@,
        ComponentState::Disabled => "disabled"@,
        ComponentState::Confirmed => "confirmed"@,
        ComponentState::Visited => "visited"@,
    }
}

impl ComponentState {
    /// The text that names the state.
    pub fn key(self) -> (r: &'static str)
        ensures
            r@ == state_key(self),
    {
        match self {
            ComponentState::Default => "default",
            ComponentState::Focused => "focused",
            ComponentState::Loading => "loading",
            ComponentState::Pressed => "pressed",
            ComponentState::Disabled => "disabled",
            ComponentState::Confirmed => "confirmed",
            ComponentState::Visited => "visited",
        }
    }
}

/// Whether a text names a state.
pub open spec fn names_state(key: Seq<char>) -> bool {
    exists|state: ComponentState| #[trigger] state_key(state) == key
}

/// Whether a text names a state that components read.
pub fn is_known_state_key(key: &str) -> (r: bool)
    ensures
        r == names_state(key@),
{
    let known = text_eq(key, "default") || text_eq(key, "focused") || text_eq(key, "loading") || text_eq(
        key,
        "pressed",
    ) || text_eq(key, "disabled") || text_eq(key, "confirmed") || text_eq(key, "visited");
    proof {
        let states = seq![
            ComponentState::Default,
            ComponentState::Focused,
            ComponentState::Loading,
            ComponentState::Pressed,
            ComponentState::Disabled,
            ComponentState::Confirmed,
            ComponentState::Visited,
        ];
        assert(state_key(states[0]) == "default"@);
        assert(state_key(states[1]) == "focused"@);
        assert(state_key(states[2]) == "loading"@);
        assert(state_key(states[3]) == "pressed"@);
        assert(state_key(states[4]) == "disabled"@);
        assert(state_key(states[5]) == "confirmed"@);
        assert(state_key(states[6]) == "visited"@);
    }
    known
}

/// Theme for a single variant of a component.
#[derive(Debug, PartialEq)]
pub struct VariantTheme {
    /// Default state styles (inherits from component base).
    pub default: StyleProps,
    /// Size-specific styles (e.g., "sm", "md", "lg").
    pub sizes: TextMap<StyleProps>,
    /// State overrides (inherit from variant default).
    pub states: TextMap<StyleProps>,
}

/// The model of a variant.
#[verifier::ext_equal]
pub struct Variant {
    pub default: Style,
    pub sizes: Map<Seq<char>, Style>,
    pub states: Map<Seq<char>, Style>,
}

impl View for VariantTheme {
    type V = Variant;

    open spec fn view(&self) -> Variant {
        Variant { default: self.default@, sizes: self.sizes@, states: self.states@ }
    }
}

impl Duplicate for VariantTheme {
    fn duplicate(&self) -> (r: Self) {
        VariantTheme {
            default: self.default.duplicate(),
            sizes: self.sizes.duplicate(),
            states: self.states.duplicate(),
        }
    }
}

impl Clone for VariantTheme {
    fn clone(&self) -> (r: Self)
        ensures
            r@ == self@,
    {
        self.duplicate()
    }
}

/// Theme for a component with base styles and variants.
#[derive(Debug, PartialEq)]
pub struct ComponentTheme {
    /// Base styles shared across all variants of this component.
    pub base: StyleProps,
    /// Variants for this component (e.g., "primary", "secondary").
    pub variants: TextMap<VariantTheme>,
}

/// The model of a component.
#[verifier::ext_equal]
pub struct Component {
    pub base: Style,
    pub variants: Map<Seq<char>, Variant>,
}

impl View for ComponentTheme {
    type V = Component;

    open spec fn view(&self) -> Component {
        Component { base: self.base@, variants: self.variants@ }
    }
}

impl Duplicate for ComponentTheme {
    fn duplicate(&self) -> (r: Self) {
        ComponentTheme { base: self.base.duplicate(), variants: self.variants.duplicate() }
    }
}

impl Clone for ComponentTheme {
    fn clone(&self) -> (r: Self)
        ensures
            r@ == self@,
    {
        self.duplicate()
    }
}

/// The complete theme with tokens and component styles.
#[derive(Debug, PartialEq)]
pub struct Theme {
    /// Global design tokens (can differ by color scheme).
    pub tokens: ThemeTokens,
    /// Per-component style definitions.
    pub components: TextMap<ComponentTheme>,
}

/// The model of a theme.
#[verifier::ext_equal]
pub struct ThemeModel {
    pub tokens: SchemeTokens,
    pub components: Map<Seq<char>, Component>,
}

impl View for Theme {
    type V = ThemeModel;

    open spec fn view(&self) -> ThemeModel {
        ThemeModel { tokens: self.tokens@, components: self.components@ }
    }
}

impl Duplicate for Theme {
    fn duplicate(&self) -> (r: Self) {
        Theme { tokens: self.tokens.duplicate(), components: self.components.duplicate() }
    }
}

impl Clone for Theme {
    fn clone(&self) -> (r: Self)
        ensures
            r@ == self@,
    {
        self.duplicate()
    }
}

/// The variant that sets nothing.
pub open spec fn empty_variant() -> Variant {
    Variant { default: style::empty_style(), sizes: Map::empty(), states: Map::empty() }
}

/// The component that sets nothing.
pub open spec fn empty_component() -> Component {
    Component { base: style::empty_style(), variants: Map::empty() }
}

/// The theme that sets nothing.
pub open spec fn empty_theme() -> ThemeModel {
    ThemeModel {
        tokens: SchemeTokens { light: Map::empty(), dark: Map::empty() },
        components: Map::empty(),
    }
}

/// The entry of a map, or a substitute where there is none.
pub open spec fn entry_or<T>(m: Map<Seq<char>, T>, k: Seq<char>, substitute: T) -> T {
    if m.dom().contains(k) {
        m[k]
    } else {
        substitute
    }
}

/// Styles by name, the child's put over the parent's.
pub open spec fn inherited_styles(
    child: Map<Seq<char>, Style>,
    parent: Map<Seq<char>, Style>,
) -> Map<Seq<char>, Style> {
    Map::new(
        |k: Seq<char>| child.dom().contains(k) || parent.dom().contains(k),
        |k: Seq<char>|
            if child.dom().contains(k) {
                style::merged(entry_or(parent, k, style::empty_style()), child[k])
            } else {
                parent[k]
            },
    )
}

/// A variant over the variant it inherits from.
pub open spec fn inherited_variant(child: Variant, parent: Variant) -> Variant {
    Variant {
        default: style::merged(parent.default, child.default),
        sizes: inherited_styles(child.sizes, parent.sizes),
        states: inherited_styles(child.states, parent.states),
    }
}

/// Variants by name, the child's put over the parent's.
pub open spec fn inherited_variants(
    child: Map<Seq<char>, Variant>,
    parent: Map<Seq<char>, Variant>,
) -> Map<Seq<char>, Variant> {
    Map::new(
        |k: Seq<char>| child.dom().contains(k) || parent.dom().contains(k),
        |k: Seq<char>|
            if !child.dom().contains(k) {
                parent[k]
            } else if parent.dom().contains(k) {
                inherited_variant(child[k], parent[k])
            } else {
                child[k]
            },
    )
}

/// A component over the component it inherits from.
pub open spec fn inherited_component(child: Component, parent: Component) -> Component {
    Component {
        base: style::merged(parent.base, child.base),
        variants: inherited_variants(child.variants, parent.variants),
    }
}

/// Components by name, the child's put over the parent's.
pub open spec fn inherited_components(
    child: Map<Seq<char>, Component>,
    parent: Map<Seq<char>, Component>,
) -> Map<Seq<char>, Component> {
    Map::new(
        |k: Seq<char>| child.dom().contains(k) || parent.dom().contains(k),
        |k: Seq<char>|
            if !child.dom().contains(k) {
                parent[k]
            } else if parent.dom().contains(k) {
                inherited_component(child[k], parent[k])
            } else {
                child[k]
            },
    )
}

/// A theme over the theme it inherits from.
pub open spec fn inherited_theme(child: ThemeModel, parent: ThemeModel) -> ThemeModel {
    ThemeModel {
        tokens: tokens::inherited_tokens(child.tokens, parent.tokens),
        components: inherited_components(child.components, parent.components),
    }
}

/// Whether a state key asks for the variant's default style.
pub open spec fn is_resting_state(state: Seq<char>) -> bool {
    state.len() == 0 || state == "default"@ || state == "normal"@
}

/// The style with the entry of a map put over it, where there is one.
pub open spec fn merged_entry(s: Style, m: Map<Seq<char>, Style>, k: Seq<char>) -> Style {
    if m.dom().contains(k) {
        style::merged(s, m[k])
    } else {
        s
    }
}

/// The style of a variant for a size and a state: variant default, then size, then state.
pub open spec fn variant_style(
    base: Style,
    variant: Variant,
    size: Option<Seq<char>>,
    state: Seq<char>,
) -> Style {
    let s1 = style::merged(base, variant.default);
    let s2 = match size {
        Some(k) => merged_entry(s1, variant.sizes, k),
        None => s1,
    };
    if is_resting_state(state) {
        s2
    } else {
        merged_entry(s2, variant.states, state)
    }
}

/// The style of a component before its token references are resolved: component base, then variant
/// default, then size, then state. A size or a state that is not there adds nothing; a component or a
/// variant that is not there has the empty style.
pub open spec fn cascaded(
    components: Map<Seq<char>, Component>,
    component: Seq<char>,
    variant: Seq<char>,
    size: Option<Seq<char>>,
    state: Seq<char>,
) -> Style {
    if components.dom().contains(component) {
        let c = components[component];
        let base = style::merged(style::empty_style(), c.base);
        if c.variants.dom().contains(variant) {
            variant_style(base, c.variants[variant], size, state)
        } else {
            style::empty_style()
        }
    } else {
        style::empty_style()
    }
}

/// The style of a component for a variant, a size, a state and a color scheme.
pub open spec fn component_style(
    t: ThemeModel,
    component: Seq<char>,
    variant: Seq<char>,
    size: Option<Seq<char>>,
    state: Seq<char>,
    scheme: ColorScheme,
) -> Style {
    style::resolved_style(
        cascaded(t.components, component, variant, size, state),
        t.tokens.of(scheme),
    )
}

/// The view of an optional text.
pub open spec fn str_view(s: Option<&str>) -> Option<Seq<char>> {
    match s {
        Some(t) => Some(t@),
        None => None,
    }
}

/// Styles by name, the child's put over the parent's.
fn inherit_styles(child: &TextMap<StyleProps>, parent: &TextMap<StyleProps>) -> (r: TextMap<
    StyleProps,
>)
    ensures
        r@ == inherited_styles(child@, parent@),
{
    let mut out = parent.duplicate();
    let n: usize = child.len();
    let ghost names = textmap::sorted_keys(child@);
    let ghost goal = inherited_styles(child@, parent@);
    for i in 0..n
        invariant
            names == textmap::sorted_keys(child@),
            n == names.len(),
            textmap::lists(names, child@.dom()),
            goal == inherited_styles(child@, parent@),
            forall|k: Seq<char>| #[trigger]
                out@.dom().contains(k) <==> parent@.dom().contains(k) || names.take(
                    i as int,
                ).contains(k),
            forall|k: Seq<char>| #[trigger]
                out@.dom().contains(k) ==> out@[k] == (if names.take(i as int).contains(k) {
                    goal[k]
                } else {
                    parent@[k]
                }),
    {
        let key = child.key_at(i);
        let value = child.value_at(i);
        proof {
            textmap::take_step(names, i as int);
        }
        let merged = match parent.get(key.as_str()) {
            Some(p) => p.merged_with(value),
            None => StyleProps::new().merged_with(value),
        };
        out.insert(key.clone(), merged);
    }
    proof {
        assert(names.take(n as int) =~= names);
        assert(out@ =~= goal);
    }
    out
}

impl VariantTheme {
    /// A variant that sets nothing.
    pub fn new() -> (r: Self)
        ensures
            r@ == empty_variant(),
    {
        VariantTheme { default: StyleProps::new(), sizes: TextMap::new(), states: TextMap::new() }
    }

    /// Puts this variant over one that it inherits from.
    pub fn inherit_from(&mut self, parent: &VariantTheme)
        ensures
            final(self)@ == inherited_variant(old(self)@, parent@),
    {
        self.default = parent.default.merged_with(&self.default);
        self.sizes = inherit_styles(&self.sizes, &parent.sizes);
        self.states = inherit_styles(&self.states, &parent.states);
    }
}

impl ComponentTheme {
    /// A component that sets nothing.
    pub fn new() -> (r: Self)
        ensures
            r@ == empty_component(),
    {
        ComponentTheme { base: StyleProps::new(), variants: TextMap::new() }
    }

    /// Puts this component over one that it inherits from.
    pub fn inherit_from(&mut self, parent: &ComponentTheme)
        ensures
            final(self)@ == inherited_component(old(self)@, parent@),
    {
        self.base = parent.base.merged_with(&self.base);
        let mut merged_variants = parent.variants.duplicate();
        let n: usize = self.variants.len();
        let ghost child = self.variants@;
        let ghost names = textmap::sorted_keys(child);
        let ghost goal = inherited_variants(child, parent.variants@);
        for i in 0..n
            invariant
                child == self.variants@,
                names == textmap::sorted_keys(child),
                n == names.len(),
                textmap::lists(names, child.dom()),
                goal == inherited_variants(child, parent.variants@),
                forall|k: Seq<char>| #[trigger]
                    merged_variants@.dom().contains(k) <==> parent.variants@.dom().contains(k)
                        || names.take(i as int).contains(k),
                forall|k: Seq<char>| #[trigger]
                    merged_variants@.dom().contains(k) ==> merged_variants@[k] == (if names.take(
                        i as int,
                    ).contains(k) {
                        goal[k]
                    } else {
                        parent.variants@[k]
                    }),
        {
            let key = self.variants.key_at(i);
            proof {
                textmap::take_step(names, i as int);
            }
            let mut merged = self.variants.value_at(i).duplicate();
            if let Some(parent_variant) = parent.variants.get(key.as_str()) {
                merged.inherit_from(parent_variant);
            }
            merged_variants.insert(key.clone(), merged);
        }
        proof {
            assert(names.take(n as int) =~= names);
            assert(merged_variants@ =~= goal);
        }
        self.variants = merged_variants;
    }
}

impl Theme {
    /// A theme that sets nothing.
    pub fn new() -> (r: Self)
        ensures
            r@ == empty_theme(),
    {
        Theme { tokens: ThemeTokens::new(), components: TextMap::new() }
    }

    /// Puts this theme over one that it inherits from.
    pub fn inherit_from(&mut self, parent: &Theme)
        ensures
            final(self)@ == inherited_theme(old(self)@, parent@),
    {
        self.tokens = self.tokens.merged_with_parent(&parent.tokens);
        let mut merged_components = parent.components.duplicate();
        let n: usize = self.components.len();
        let ghost child = self.components@;
        let ghost names = textmap::sorted_keys(child);
        let ghost goal = inherited_components(child, parent.components@);
        for i in 0..n
            invariant
                child == self.components@,
                names == textmap::sorted_keys(child),
                n == names.len(),
                textmap::lists(names, child.dom()),
                goal == inherited_components(child, parent.components@),
                forall|k: Seq<char>| #[trigger]
                    merged_components@.dom().contains(k) <==> parent.components@.dom().contains(k)
                        || names.take(i as int).contains(k),
                forall|k: Seq<char>| #[trigger]
                    merged_components@.dom().contains(k) ==> merged_components@[k] == (
                    if names.take(i as int).contains(k) {
                        goal[k]
                    } else {
                        parent.components@[k]
                    }),
        {
            let key = self.components.key_at(i);
            proof {
                textmap::take_step(names, i as int);
            }
            let mut merged = self.components.value_at(i).duplicate();
            if let Some(parent_component) = parent.components.get(key.as_str()) {
                merged.inherit_from(parent_component);
            }
            merged_components.insert(key.clone(), merged);
        }
        proof {
            assert(names.take(n as int) =~= names);
            assert(merged_components@ =~= goal);
        }
        self.components = merged_components;
    }

    /// This theme over one that it inherits from.
    pub fn with_parent(self, parent: &Theme) -> (r: Self)
        ensures
            r@ == inherited_theme(self@, parent@),
    {
        let mut out = self;
        out.inherit_from(parent);
        out
    }

    /// Resolve styles for a component in the light scheme, applying the inheritance chain:
    /// Component Base -> Variant Default -> Size Styles -> State Overrides.
    pub fn resolve_style_for_state_key(
        &self,
        component_name: &str,
        variant_name: &str,
        size: Option<&str>,
        state_key: &str,
    ) -> (r: StyleProps)
        ensures
            r@ == component_style(
                self@,
                component_name@,
                variant_name@,
                str_view(size),
                state_key@,
                ColorScheme::Light,
            ),
    {
        self.resolve_style_for_state_key_with_scheme(
            component_name,
            variant_name,
            size,
            state_key,
            ColorScheme::Light,
        )
    }

    /// Resolve styles for a component in a color scheme.
    pub fn resolve_style_for_state_key_with_scheme(
        &self,
        component_name: &str,
        variant_name: &str,
        size: Option<&str>,
        state_key: &str,
        scheme: ColorScheme,
    ) -> (r: StyleProps)
        ensures
            r@ == component_style(
                self@,
                component_name@,
                variant_name@,
                str_view(size),
                state_key@,
                scheme,
            ),
    {
        let mut resolved = StyleProps::new();
        if let Some(component) = self.components.get(component_name) {
            if let Some(variant) = component.variants.get(variant_name) {
                resolved.merge(&component.base);
                resolved.merge(&variant.default);
                if let Some(size_key) = size {
                    if let Some(size_styles) = variant.sizes.get(size_key) {
                        resolved.merge(size_styles);
                    }
                }
                if !state_key.is_empty() && !text_eq(state_key, "default") && !text_eq(
                    state_key,
                    "normal",
                ) {
                    if let Some(state_overrides) = variant.states.get(state_key) {
                        resolved.merge(state_overrides);
                    }
                }
            }
        }
        resolved.resolved_for_tokens(self.tokens.for_scheme(scheme))
    }

    /// Resolve styles for a component state in the light scheme.
    pub fn resolve_style(
        &self,
        component_name: &str,
        variant_name: &str,
        size: Option<&str>,
        state: ComponentState,
    ) -> (r: StyleProps)
        ensures
            r@ == component_style(
                self@,
                component_name@,
                variant_name@,
                str_view(size),
                state_key(state),
                ColorScheme::Light,
            ),
    {
        self.resolve_style_for_state_key(component_name, variant_name, size, state.key())
    }

    /// Get resolved props for a component.
    pub fn get_component_style(
        &self,
        component: &str,
        variant: &str,
        size: Option<&str>,
        state: ComponentState,
        scheme: ColorScheme,
    ) -> (r: StyleProps)
        ensures
            r@ == component_style(
                self@,
                component@,
                variant@,
                str_view(size),
                state_key(state),
                scheme,
            ),
    {
        self.resolve_style_for_state_key_with_scheme(component, variant, size, state.key(), scheme)
    }

    /// Get resolved props for a component by the text that names the state.
    pub fn get_component_style_by_state_key(
        &self,
        component: &str,
        variant: &str,
        size: Option<&str>,
        state_key: &str,
        scheme: ColorScheme,
    ) -> (r: StyleProps)
        ensures
            r@ == component_style(
                self@,
                component@,
                variant@,
                str_view(size),
                state_key@,
                scheme,
            ),
    {
        self.resolve_style_for_state_key_with_scheme(component, variant, size, state_key, scheme)
    }
}

/// The category and the key of a token path. The path has a dot.
pub fn split_token_path(path: &str) -> (r: (String, String))
    requires
        text::dot_split(path@) is Some,
    ensures
        text::dot_split(path@) == Some((r.0@, r.1@)),
{
    match split_dot(path) {
        Some(p) => p,
        None => (String::new(), String::new()),
    }
}

/// The tokens of both schemes with one token of one scheme set.
pub open spec fn with_token(
    t: SchemeTokens,
    scheme: ColorScheme,
    category: Seq<char>,
    key: Seq<char>,
    v: Value,
) -> SchemeTokens {
    match scheme {
        ColorScheme::Light => SchemeTokens { light: tokens::stored(t.light, category, key, v), ..t },
        ColorScheme::Dark => SchemeTokens { dark: tokens::stored(t.dark, category, key, v), ..t },
    }
}

/// Sets a token by its path `category.key`.
pub fn set_token(theme: &mut Theme, scheme: ColorScheme, path: &str, value: ThemeValue)
    requires
        text::dot_split(path@) is Some,
    ensures
        final(theme)@ == (ThemeModel {
            tokens: with_token(
                old(theme)@.tokens,
                scheme,
                (text::dot_split(path@)->0).0,
                (text::dot_split(path@)->0).1,
                value@,
            ),
            ..old(theme)@
        }),
{
    let (category, key) = split_token_path(path);
    let token_value = match value {
        ThemeValue::Color(color) => TokenValue::Color(color),
        ThemeValue::Float(number) => TokenValue::Float(number),
        ThemeValue::Int(number) => TokenValue::Int(number),
        ThemeValue::Bool(flag) => TokenValue::Bool(flag),
        ThemeValue::String(text) => TokenValue::String(text),
        ThemeValue::TokenRef(path) => TokenValue::Ref(path),
    };
    match scheme {
        ColorScheme::Light => theme.tokens.light.set(category.as_str(), key.as_str(), token_value),
        ColorScheme::Dark => theme.tokens.dark.set(category.as_str(), key.as_str(), token_value),
    }
}

/// The component of a theme by its name, made where it is missing.
pub fn component_mut<'a>(theme: &'a mut Theme, component_name: &str) -> (r: &'a mut ComponentTheme)
    ensures
        (*r)@ == entry_or(old(theme)@.components, component_name@, empty_component()),
        final(theme)@ == (ThemeModel {
            components: old(theme)@.components.insert(component_name@, (*final(r))@),
            ..old(theme)@
        }),
{
    if !theme.components.contains_key(component_name) {
        theme.components.insert(owned(component_name), ComponentTheme::new());
    }
    proof {
        let m = old(theme)@.components;
        assert forall|c: Component| #[trigger]
            m.insert(component_name@, empty_component()).insert(component_name@, c) == m.insert(
                component_name@,
                c,
            ) by {
            assert(m.insert(component_name@, empty_component()).insert(component_name@, c)
                =~= m.insert(component_name@, c));
        }
    }
    theme.components.slot_mut(component_name)
}

/// The variant of a component by its name, made where it is missing.
pub fn variant_mut<'a>(component: &'a mut ComponentTheme, variant_name: &str) -> (r:
    &'a mut VariantTheme)
    ensures
        (*r)@ == entry_or(old(component)@.variants, variant_name@, empty_variant()),
        final(component)@ == (Component {
            variants: old(component)@.variants.insert(variant_name@, (*final(r))@),
            ..old(component)@
        }),
{
    if !component.variants.contains_key(variant_name) {
        component.variants.insert(owned(variant_name), VariantTheme::new());
    }
    proof {
        let m = old(component)@.variants;
        assert forall|v: Variant| #[trigger]
            m.insert(variant_name@, empty_variant()).insert(variant_name@, v) == m.insert(
                variant_name@,
                v,
            ) by {
            assert(m.insert(variant_name@, empty_variant()).insert(variant_name@, v) =~= m.insert(
                variant_name@,
                v,
            ));
        }
    }
    component.variants.slot_mut(variant_name)
}

/// The style in a map by its name, made where it is missing.
fn style_slot<'a>(styles: &'a mut TextMap<StyleProps>, name: &str) -> (r: &'a mut StyleProps)
    ensures
        (*r)@ == entry_or(old(styles)@, name@, style::empty_style()),
        final(styles)@ == old(styles)@.insert(name@, (*final(r))@),
{
    if !styles.contains_key(name) {
        styles.insert(owned(name), StyleProps::new());
    }
    proof {
        let m = old(styles)@;
        assert forall|s: Style| #[trigger]
            m.insert(name@, style::empty_style()).insert(name@, s) == m.insert(name@, s) by {
            assert(m.insert(name@, style::empty_style()).insert(name@, s) =~= m.insert(name@, s));
        }
    }
    styles.slot_mut(name)
}

/// The size style of a variant by its name, made where it is missing.
pub fn size_style_mut<'a>(variant: &'a mut VariantTheme, size_name: &str) -> (r: &'a mut StyleProps)
    ensures
        (*r)@ == entry_or(old(variant)@.sizes, size_name@, style::empty_style()),
        final(variant)@ == (Variant {
            sizes: old(variant)@.sizes.insert(size_name@, (*final(r))@),
            ..old(variant)@
        }),
{
    style_slot(&mut variant.sizes, size_name)
}

/// The state style of a variant by its name, made where it is missing.
pub fn state_style_mut<'a>(variant: &'a mut VariantTheme, state_key: &str) -> (r:
    &'a mut StyleProps)
    ensures
        (*r)@ == entry_or(old(variant)@.states, state_key@, style::empty_style()),
        final(variant)@ == (Variant {
            states: old(variant)@.states.insert(state_key@, (*final(r))@),
            ..old(variant)@
        }),
{
    style_slot(&mut variant.states, state_key)
}

/// A value that names a variant/size/state within a component theme.
pub trait ComponentKey: Copy {
    /// The text that the value stands for: some text, where an implementation does not say which.
    open spec fn text(self) -> Seq<char> {
        arbitrary::<spec_fn(Self) -> Seq<char>>()(self)
    }

    /// Stable text used as the key inside `Theme`.
    fn key(self) -> (r: &'static str)
        ensures
            r@ == self.text(),
    ;
}

impl ComponentKey for ComponentState {
    open spec fn text(self) -> Seq<char> {
        state_key(self)
    }

    fn key(self) -> (r: &'static str) {
        ComponentState::key(self)
    }
}

/// A typed view onto a UI component's theme entries.
pub trait ThemedComponent {
    /// The text under which this component's styles are stored in `Theme::components`.
    const NAME: &'static str;

    type Variant: ComponentKey;

    type Size: ComponentKey;

    type State: ComponentKey;
}

/// The text of an optional typed size.
pub open spec fn size_text<K: ComponentKey>(size: Option<K>) -> Option<Seq<char>> {
    match size {
        Some(k) => Some(k.text()),
        None => None,
    }
}

impl Theme {
    /// Typed style resolution. Equivalent to `resolve_style_for_state_key_with_scheme` with the
    /// texts of the typed keys.
    pub fn resolve<C: ThemedComponent>(
        &self,
        variant: C::Variant,
        size: Option<C::Size>,
        state: C::State,
        scheme: ColorScheme,
    ) -> (r: StyleProps)
        ensures
            r@ == component_style(
                self@,
                C::NAME@,
                variant.text(),
                size_text(size),
                state.text(),
                scheme,
            ),
    {
        let size_key: Option<&str> = match size {
            Some(s) => Some(s.key()),
            None => None,
        };
        self.resolve_style_for_state_key_with_scheme(
            C::NAME,
            variant.key(),
            size_key,
            state.key(),
            scheme,
        )
    }

    /// Like `resolve`, but resolves against the default (light) color scheme.
    pub fn resolve_light<C: ThemedComponent>(
        &self,
        variant: C::Variant,
        size: Option<C::Size>,
        state: C::State,
    ) -> (r: StyleProps)
        ensures
            r@ == component_style(
                self@,
                C::NAME@,
                variant.text(),
                size_text(size),
                state.text(),
                ColorScheme::Light,
            ),
    {
        self.resolve::<C>(variant, size, state, ColorScheme::Light)
    }
}

/// A component or a variant that a theme does not have has the empty style, whatever the rest.
pub proof fn missing_entry_has_empty_style(
    theme: ThemeModel,
    component: Seq<char>,
    variant: Seq<char>,
    size: Option<Seq<char>>,
    state: Seq<char>,
    scheme: ColorScheme,
)
    requires
        !theme.components.dom().contains(component)
            || !theme.components[component].variants.dom().contains(variant),
    ensures
        component_style(theme, component, variant, size, state, scheme) == style::empty_style(),
{
}

/// No two states have one name.
pub proof fn state_names_differ(a: ComponentState, b: ComponentState)
    requires
        state_key(a) == state_key(b),
    ensures
        a == b,
{
    reveal_strlit("default");
    reveal_strlit("focused");
    reveal_strlit("loading");
    reveal_strlit("pressed");
    reveal_strlit("disabled");
    reveal_strlit("confirmed");
    reveal_strlit("visited");
    assert("default"@.len() == 7 && "focused"@.len() == 7 && "loading"@.len() == 7 && "pressed"@.len() == 7);
    assert("disabled"@.len() == 8 && "confirmed"@.len() == 9 && "visited"@.len() == 7);
    assert("default"@[0] != "focused"@[0] && "default"@[0] != "loading"@[0] && "default"@[0] != "pressed"@[0]
        && "default"@[0] != "visited"@[0]);
    assert("focused"@[0] != "loading"@[0] && "focused"@[0] != "pressed"@[0] && "focused"@[0] != "visited"@[0]);
    assert("loading"@[0] != "pressed"@[0] && "loading"@[0] != "visited"@[0]);
    assert("pressed"@[0] != "visited"@[0]);
}

/// A token that is set in a scheme is found in it; every other token of the scheme, and the other scheme,
/// stay as they were.
pub proof fn set_token_is_found(
    t: SchemeTokens,
    scheme: ColorScheme,
    category: Seq<char>,
    key: Seq<char>,
    v: Value,
    other_category: Seq<char>,
    other_key: Seq<char>,
)
    ensures
        ({
            let after = with_token(t, scheme, category, key, v);
            let (was, is) = if scheme == ColorScheme::Light {
                (t.light, after.light)
            } else {
                (t.dark, after.dark)
            };
            &&& tokens::lookup(is, category, key) == Some(v)
            &&& other_category != category || other_key != key ==> tokens::lookup(is, other_category, other_key)
                == tokens::lookup(was, other_category, other_key)
            &&& scheme == ColorScheme::Light ==> after.dark == t.dark
            &&& scheme == ColorScheme::Dark ==> after.light == t.light
        }),
{
    tokens::stored_is_found(t.light, category, key, v, other_category, other_key);
    tokens::stored_is_found(t.dark, category, key, v, other_category, other_key);
}

} // verus!
