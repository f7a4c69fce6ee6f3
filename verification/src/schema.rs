//! Component schemas: the properties of a component and their default values.

use vstd::prelude::*;
use crate::scalar::{self, Scalar};
use crate::style::{self, copy_text};
use crate::text::{self, contains_text, integer_to_text, owned, starts_with, text_eq};
use crate::textmap::{self, duplicate_all, Duplicate, TextMap};

verus! {

/// A double precision number by what is read of it: its single precision value, the whole number
/// that a cast to 64 bits gives, whether it has no fraction, and its shortest decimal text.
#[derive(Debug, PartialEq)]
pub struct Real {
    pub single: Scalar,
    pub whole: i64,
    pub integral: bool,
    pub text: String,
}

/// The model of a double precision number.
#[verifier::ext_equal]
pub struct RealModel {
    pub single: Scalar,
    pub whole: i64,
    pub integral: bool,
    pub text: Seq<char>,
}

impl View for Real {
    type V = RealModel;

    open spec fn view(&self) -> RealModel {
        RealModel {
            single: self.single,
            whole: self.whole,
            integral: self.integral,
            text: self.text@,
        }
    }
}

impl Duplicate for Real {
    fn duplicate(&self) -> (r: Self) {
        Real {
            single: self.single,
            whole: self.whole,
            integral: self.integral,
            text: self.text.clone(),
        }
    }
}

/// The double precision number of a whole number.
pub open spec fn whole_real(n: i32) -> RealModel {
    RealModel {
        single: scalar::int_scalar(n as int),
        whole: n as i64,
        integral: true,
        text: text::int_text(n as int),
    }
}

impl Real {
    /// The double precision number of a whole number.
    pub fn from_whole(n: i32) -> (r: Real)
        ensures
            r@ == whole_real(n),
    {
        Real {
            single: Scalar::from_int(n),
            whole: n as i64,
            integral: true,
            text: integer_to_text(n as i64),
        }
    }
}

/// One half, as a double precision number.
pub open spec fn half_real() -> RealModel {
    RealModel { single: Scalar { bits: 0x3F00_0000 }, whole: 0, integral: false, text: "0.5"@ }
}

/// One half, as a double precision number.
pub fn half() -> (r: Real)
    ensures
        r@ == half_real(),
{
    Real { single: Scalar { bits: 0x3F00_0000 }, whole: 0, integral: false, text: owned("0.5") }
}

/// A value that can be either a token reference or a literal value.
#[derive(Debug, PartialEq)]
pub enum TokenOrValue {
    /// String value - could be a token reference like "color.primary" or a hex color like "#ff0000"
    String(String),
    /// Float value
    Float(Real),
    /// Integer value
    Int(i64),
    /// Boolean value
    Bool(bool),
}

/// The model of a token reference or literal.
#[verifier::ext_equal]
pub enum Raw {
    Text(Seq<char>),
    Float(RealModel),
    Int(i64),
    Bool(bool),
}

impl View for TokenOrValue {
    type V = Raw;

    open spec fn view(&self) -> Raw {
        match *self {
            TokenOrValue::String(s) => Raw::Text(s@),
            TokenOrValue::Float(f) => Raw::Float(f@),
            TokenOrValue::Int(i) => Raw::Int(i),
            TokenOrValue::Bool(b) => Raw::Bool(b),
        }
    }
}

impl Duplicate for TokenOrValue {
    fn duplicate(&self) -> (r: Self) {
        match self {
            TokenOrValue::String(s) => TokenOrValue::String(s.clone()),
            TokenOrValue::Float(f) => TokenOrValue::Float(f.duplicate()),
            TokenOrValue::Int(i) => TokenOrValue::Int(*i),
            TokenOrValue::Bool(b) => TokenOrValue::Bool(*b),
        }
    }
}

impl Clone for TokenOrValue {
    fn clone(&self) -> (r: Self)
        ensures
            r@ == self@,
    {
        self.duplicate()
    }
}

/// Whether a text is written as a token reference: it has a dot and does not start with `#`.
pub open spec fn looks_like_token(s: Seq<char>) -> bool {
    text::text_contains(s, seq!['.']) && !text::has_prefix(s, seq!['#'])
}

/// Whether a text is written as a token reference.
pub fn is_token_text(s: &str) -> (r: bool)
    ensures
        r == looks_like_token(s@),
{
    proof {
        reveal_strlit(".");
        reveal_strlit("#");
        assert("."@ =~= seq!['.']);
        assert("#"@ =~= seq!['#']);
    }
    contains_text(s, ".") && !starts_with(s, "#")
}

impl TokenOrValue {
    /// Check if this is a token reference (contains a dot and doesn't start with #)
    pub fn is_token_reference(&self) -> (r: bool)
        ensures
            r == (match self@ {
                Raw::Text(s) => looks_like_token(s),
                _ => false,
            }),
    {
        match self {
            TokenOrValue::String(s) => is_token_text(s.as_str()),
            _ => false,
        }
    }
}

/// A default value can be:
/// - A direct value (for size props)
/// - A nested map of state -> value (for variant props)
#[derive(Debug, PartialEq)]
pub enum DefaultValue {
    /// Nested: { "normal": "color.primary", "pressed": "color.primary.dark" }
    Nested(TextMap<TokenOrValue>),
    /// Direct value (token reference or literal)
    Direct(TokenOrValue),
}

/// The model of a default value.
#[verifier::ext_equal]
pub enum DefaultModel {
    Nested(Map<Seq<char>, Raw>),
    Direct(Raw),
}

impl View for DefaultValue {
    type V = DefaultModel;

    open spec fn view(&self) -> DefaultModel {
        match *self {
            DefaultValue::Nested(m) => DefaultModel::Nested(m@),
            DefaultValue::Direct(v) => DefaultModel::Direct(v@),
        }
    }
}

impl Duplicate for DefaultValue {
    fn duplicate(&self) -> (r: Self) {
        match self {
            DefaultValue::Nested(m) => DefaultValue::Nested(m.duplicate()),
            DefaultValue::Direct(v) => DefaultValue::Direct(v.duplicate()),
        }
    }
}

impl Clone for DefaultValue {
    fn clone(&self) -> (r: Self)
        ensures
            r@ == self@,
    {
        self.duplicate()
    }
}

impl DefaultModel {
    /// The value for a state: a direct value counts for every state.
    pub open spec fn state(self, state: Seq<char>) -> Option<Raw> {
        match self {
            DefaultModel::Nested(m) => if m.dom().contains(state) {
                Some(m[state])
            } else {
                None
            },
            DefaultModel::Direct(v) => Some(v),
        }
    }

    /// The value, where it does not depend on the state.
    pub open spec fn direct(self) -> Option<Raw> {
        match self {
            DefaultModel::Nested(_) => None,
            DefaultModel::Direct(v) => Some(v),
        }
    }
}

/// The view of an optional reference.
pub open spec fn option_view<T: View + ?Sized>(r: Option<&T>) -> Option<T::V> {
    match r {
        Some(v) => Some(v@),
        None => None,
    }
}

impl DefaultValue {
    /// Get value for a specific state (for variant props)
    pub fn get_state(&self, state: &str) -> (r: Option<&TokenOrValue>)
        ensures
            option_view(r) == self@.state(state@),
    {
        match self {
            DefaultValue::Nested(map) => map.get(state),
            DefaultValue::Direct(val) => Some(val),
        }
    }

    /// Get direct value (for size props)
    pub fn get_direct(&self) -> (r: Option<&TokenOrValue>)
        ensures
            option_view(r) == self@.direct(),
    {
        match self {
            DefaultValue::Direct(val) => Some(val),
            DefaultValue::Nested(_) => None,
        }
    }
}

/// Default values for a property.
/// Can be nested (variant -> state -> value) or flat (size -> value).
#[derive(Debug, PartialEq)]
pub struct PropDefaults {
    /// Outer key is variant or size, inner is state (for variant props) or value (for size props)
    pub values: TextMap<DefaultValue>,
}

impl View for PropDefaults {
    type V = Map<Seq<char>, DefaultModel>;

    open spec fn view(&self) -> Map<Seq<char>, DefaultModel> {
        self.values@
    }
}

impl Duplicate for PropDefaults {
    fn duplicate(&self) -> (r: Self) {
        PropDefaults { values: self.values.duplicate() }
    }
}

impl Clone for PropDefaults {
    fn clone(&self) -> (r: Self)
        ensures
            r@ == self@,
    {
        self.duplicate()
    }
}

impl Default for PropDefaults {
    fn default() -> (r: Self)
        ensures
            r@ == Map::<Seq<char>, DefaultModel>::empty(),
    {
        PropDefaults { values: TextMap::new() }
    }
}

/// Definition of a single property.
#[derive(Debug, PartialEq)]
pub struct PropDefinition {
    /// Property name (e.g., "background", "fontSize")
    pub name: String,
    /// Display name for UI (e.g., "Background", "Font Size")
    pub display_name: Option<String>,
    /// Property type: "color", "float", "int", "bool", "string"
    pub prop_type: String,
    /// Minimum value (for numeric types)
    pub min: Option<Scalar>,
    /// Maximum value (for numeric types)
    pub max: Option<Scalar>,
    /// Step value (for numeric types)
    pub step: Option<Scalar>,
    /// Default values.
    /// For variant props: { "variant": { "state": "value_or_token" } }
    /// For size props: { "size": "value_or_token" }
    pub defaults: PropDefaults,
}

/// The model of a property definition.
#[verifier::ext_equal]
pub struct PropModel {
    pub name: Seq<char>,
    pub display_name: Option<Seq<char>>,
    pub prop_type: Seq<char>,
    pub min: Option<Scalar>,
    pub max: Option<Scalar>,
    pub step: Option<Scalar>,
    pub defaults: Map<Seq<char>, DefaultModel>,
}

impl View for PropDefinition {
    type V = PropModel;

    open spec fn view(&self) -> PropModel {
        PropModel {
            name: self.name@,
            display_name: style::text_view(self.display_name),
            prop_type: self.prop_type@,
            min: self.min,
            max: self.max,
            step: self.step,
            defaults: self.defaults@,
        }
    }
}

impl Duplicate for PropDefinition {
    fn duplicate(&self) -> (r: Self) {
        PropDefinition {
            name: self.name.clone(),
            display_name: copy_text(&self.display_name),
            prop_type: self.prop_type.clone(),
            min: self.min,
            max: self.max,
            step: self.step,
            defaults: self.defaults.duplicate(),
        }
    }
}

impl Clone for PropDefinition {
    fn clone(&self) -> (r: Self)
        ensures
            r@ == self@,
    {
        self.duplicate()
    }
}

impl PropDefinition {
    /// Get the display name, falling back to the property name
    pub fn display_name(&self) -> (r: &str)
        ensures
            r@ == (match self@.display_name {
                Some(n) => n,
                None => self@.name,
            }),
    {
        match &self.display_name {
            Some(n) => n.as_str(),
            None => self.name.as_str(),
        }
    }

    /// Get min value with default
    pub fn min_value(&self) -> (r: Scalar)
        ensures
            r == (match self.min {
                Some(v) => v,
                None => scalar::int_scalar(0),
            }),
    {
        match self.min {
            Some(v) => v,
            None => Scalar::from_int(0),
        }
    }

    /// Get max value with default
    pub fn max_value(&self) -> (r: Scalar)
        ensures
            r == (match self.max {
                Some(v) => v,
                None => scalar::int_scalar(100),
            }),
    {
        match self.max {
            Some(v) => v,
            None => Scalar::from_int(100),
        }
    }

    /// Get step value with default
    pub fn step_value(&self) -> (r: Scalar)
        ensures
            r == (match self.step {
                Some(v) => v,
                None => scalar::int_scalar(1),
            }),
    {
        match self.step {
            Some(v) => v,
            None => Scalar::from_int(1),
        }
    }
}

/// A complete plugin definition.
#[derive(Debug, PartialEq)]
pub struct PluginDefinition {
    /// Component name (e.g., "Button")
    pub component: String,
    /// Optional parent component to inherit variants/states/sizes and prop definitions from.
    pub extends: Option<String>,
    /// The component this plugin extended, preserved after the inheritance merge clears `extends`.
    pub parent_key: Option<String>,
    /// Available variants (e.g., ["primary", "secondary", "tertiary", "ghost", "danger"])
    pub variants: Vec<String>,
    /// Available states (e.g., ["normal", "focused", "pressed", "disabled"])
    pub states: Vec<String>,
    /// Available sizes (e.g., ["small", "medium", "large"])
    pub sizes: Vec<String>,
    /// Properties that vary by variant and state
    pub variant_props: Vec<PropDefinition>,
    /// Properties that vary by size only
    pub size_props: Vec<PropDefinition>,
}

/// The model of a plugin definition.
#[verifier::ext_equal]
pub struct PluginModel {
    pub component: Seq<char>,
    pub extends: Option<Seq<char>>,
    pub parent_key: Option<Seq<char>>,
    pub variants: Seq<Seq<char>>,
    pub states: Seq<Seq<char>>,
    pub sizes: Seq<Seq<char>>,
    pub variant_props: Seq<PropModel>,
    pub size_props: Seq<PropModel>,
}

impl View for PluginDefinition {
    type V = PluginModel;

    open spec fn view(&self) -> PluginModel {
        PluginModel {
            component: self.component@,
            extends: style::text_view(self.extends),
            parent_key: style::text_view(self.parent_key),
            variants: textmap::views(self.variants@),
            states: textmap::views(self.states@),
            sizes: textmap::views(self.sizes@),
            variant_props: textmap::views(self.variant_props@),
            size_props: textmap::views(self.size_props@),
        }
    }
}

impl Duplicate for PluginDefinition {
    fn duplicate(&self) -> (r: Self) {
        PluginDefinition {
            component: self.component.clone(),
            extends: copy_text(&self.extends),
            parent_key: copy_text(&self.parent_key),
            variants: duplicate_all(&self.variants),
            states: duplicate_all(&self.states),
            sizes: duplicate_all(&self.sizes),
            variant_props: duplicate_all(&self.variant_props),
            size_props: duplicate_all(&self.size_props),
        }
    }
}

impl Clone for PluginDefinition {
    fn clone(&self) -> (r: Self)
        ensures
            r@ == self@,
    {
        self.duplicate()
    }
}

/// Per-app overrides for one component. Each present entry replaces the schema default
/// for that exact variant/state/prop (variant props) or size/prop (size props).
#[derive(Debug, PartialEq)]
pub struct ComponentOverrides {
    /// variant -> state -> prop name -> value
    pub variant_props: TextMap<TextMap<TextMap<TokenOrValue>>>,
    /// size -> prop name -> value
    pub size_props: TextMap<TextMap<TokenOrValue>>,
}

/// The model of overrides.
#[verifier::ext_equal]
pub struct OverridesModel {
    pub variant_props: Map<Seq<char>, Map<Seq<char>, Map<Seq<char>, Raw>>>,
    pub size_props: Map<Seq<char>, Map<Seq<char>, Raw>>,
}

impl View for ComponentOverrides {
    type V = OverridesModel;

    open spec fn view(&self) -> OverridesModel {
        OverridesModel { variant_props: self.variant_props@, size_props: self.size_props@ }
    }
}

impl Default for ComponentOverrides {
    fn default() -> (r: Self)
        ensures
            r@.variant_props == Map::<Seq<char>, Map<Seq<char>, Map<Seq<char>, Raw>>>::empty(),
            r@.size_props == Map::<Seq<char>, Map<Seq<char>, Raw>>::empty(),
    {
        ComponentOverrides { variant_props: TextMap::new(), size_props: TextMap::new() }
    }
}

/// The entry of a map.
pub open spec fn entry<T>(m: Map<Seq<char>, T>, k: Seq<char>) -> Option<T> {
    if m.dom().contains(k) {
        Some(m[k])
    } else {
        None
    }
}

/// The entry of a map of maps.
pub open spec fn entry2<T>(m: Map<Seq<char>, Map<Seq<char>, T>>, a: Seq<char>, b: Seq<char>) -> Option<
    T,
> {
    match entry(m, a) {
        Some(inner) => entry(inner, b),
        None => None,
    }
}

/// The first of two options that holds something.
pub open spec fn or_else<T>(a: Option<T>, b: Option<T>) -> Option<T> {
    match a {
        Some(v) => Some(v),
        None => b,
    }
}

impl OverridesModel {
    /// The override for exactly one variant, state and property.
    pub open spec fn variant_exact(
        self,
        variant: Seq<char>,
        state: Seq<char>,
        prop: Seq<char>,
    ) -> Option<Raw> {
        match entry2(self.variant_props, variant, state) {
            Some(props) => entry(props, prop),
            None => None,
        }
    }

    /// The override for a size and a property: that of the size, else that of `common`, else that of
    /// `default`.
    pub open spec fn size(self, size: Seq<char>, prop: Seq<char>) -> Option<Raw> {
        or_else(
            entry2(self.size_props, size, prop),
            or_else(
                entry2(self.size_props, "common"@, prop),
                entry2(self.size_props, "default"@, prop),
            ),
        )
    }
}

/// The value in a map of maps.
pub fn get2<'a, V: View>(m: &'a TextMap<TextMap<V>>, a: &str, b: &str) -> (r: Option<&'a V>)
    ensures
        option_view(r) == entry2(m@, a@, b@),
{
    match m.get(a) {
        Some(inner) => inner.get(b),
        None => None,
    }
}

impl ComponentOverrides {
    /// The override for exactly one variant, state and property.
    pub fn variant_exact(&self, variant: &str, state: &str, prop: &str) -> (r: Option<
        &TokenOrValue,
    >)
        ensures
            option_view(r) == self@.variant_exact(variant@, state@, prop@),
    {
        match self.variant_props.get(variant) {
            Some(states) => match states.get(state) {
                Some(props) => props.get(prop),
                None => None,
            },
            None => None,
        }
    }

    /// Size override with the same Common cascade as the schema: a per-size override wins, else a
    /// `common` override applies to every size, else a `default` one.
    pub fn size(&self, size: &str, prop: &str) -> (r: Option<&TokenOrValue>)
        ensures
            option_view(r) == self@.size(size@, prop@),
    {
        match get2(&self.size_props, size, prop) {
            Some(v) => Some(v),
            None => match get2(&self.size_props, "common", prop) {
                Some(v) => Some(v),
                None => get2(&self.size_props, "default", prop),
            },
        }
    }
}

/// The override that counts for a variant, a state and a property: the exact one, else that of the
/// variant's normal state, else that of the first variant's normal state.
pub open spec fn effective_override(
    variants: Seq<Seq<char>>,
    overrides: Option<OverridesModel>,
    variant: Seq<char>,
    state: Seq<char>,
    prop: Seq<char>,
) -> Option<Raw> {
    match overrides {
        None => None,
        Some(o) => or_else(
            o.variant_exact(variant, state, prop),
            or_else(
                o.variant_exact(variant, "normal"@, prop),
                if variants.len() > 0 {
                    o.variant_exact(variants[0], "normal"@, prop)
                } else {
                    None
                },
            ),
        ),
    }
}

/// The schema default that counts for a variant and a state: the exact one, else that of the
/// variant's normal state, else that of the first variant's normal state.
pub open spec fn effective_default(
    variants: Seq<Seq<char>>,
    defaults: Map<Seq<char>, DefaultModel>,
    variant: Seq<char>,
    state: Seq<char>,
) -> Option<Raw> {
    or_else(
        default_at(defaults, variant, state),
        or_else(
            default_at(defaults, variant, "normal"@),
            if variants.len() > 0 {
                default_at(defaults, variants[0], "normal"@)
            } else {
                None
            },
        ),
    )
}

/// The default for exactly one variant and state.
pub open spec fn default_at(
    defaults: Map<Seq<char>, DefaultModel>,
    variant: Seq<char>,
    state: Seq<char>,
) -> Option<Raw> {
    match entry(defaults, variant) {
        Some(d) => d.state(state),
        None => None,
    }
}

/// The view of optional overrides.
pub open spec fn overrides_view(o: Option<&ComponentOverrides>) -> Option<OverridesModel> {
    option_view(o)
}

/// The override that counts for a variant, a state and a property.
pub fn variant_override<'a>(
    plugin: &'a PluginDefinition,
    overrides: Option<&'a ComponentOverrides>,
    variant: &str,
    state: &str,
    prop: &str,
) -> (r: Option<&'a TokenOrValue>)
    ensures
        option_view(r) == effective_override(
            plugin@.variants,
            overrides_view(overrides),
            variant@,
            state@,
            prop@,
        ),
{
    match overrides {
        None => None,
        Some(o) => {
            if let Some(value) = o.variant_exact(variant, state, prop) {
                return Some(value);
            }
            if !text_eq(state, "normal") {
                if let Some(value) = o.variant_exact(variant, "normal", prop) {
                    return Some(value);
                }
            }
            if plugin.variants.len() == 0 {
                return None;
            }
            let common_variant = &plugin.variants[0];
            assert(common_variant@ == plugin@.variants[0]);
            if !text_eq(variant, common_variant.as_str()) {
                return o.variant_exact(common_variant.as_str(), "normal", prop);
            }
            None
        },
    }
}

fn default_for<'a>(prop: &'a PropDefinition, variant: &str, state: &str) -> (r: Option<
    &'a TokenOrValue,
>)
    ensures
        option_view(r) == default_at(prop@.defaults, variant@, state@),
{
    match prop.defaults.values.get(variant) {
        Some(d) => d.get_state(state),
        None => None,
    }
}

/// The schema default that counts for a variant and a state.
pub fn schema_variant_default<'a>(
    plugin: &'a PluginDefinition,
    prop: &'a PropDefinition,
    variant: &str,
    state: &str,
) -> (r: Option<&'a TokenOrValue>)
    ensures
        option_view(r) == effective_default(
            plugin@.variants,
            prop@.defaults,
            variant@,
            state@,
        ),
{
    if let Some(value) = default_for(prop, variant, state) {
        return Some(value);
    }
    if !text_eq(state, "normal") {
        if let Some(value) = default_for(prop, variant, "normal") {
            return Some(value);
        }
    }
    if plugin.variants.len() == 0 {
        return None;
    }
    let common_variant = &plugin.variants[0];
    assert(common_variant@ == plugin@.variants[0]);
    if !text_eq(variant, common_variant.as_str()) {
        return default_for(prop, common_variant.as_str(), "normal");
    }
    None
}

/// The name of the Slint type of a property. A float is a length unless its name speaks of opacity.
pub open spec fn slint_type_of(p: PropModel) -> Seq<char> {
    if p.prop_type == "string"@ {
        "string"@
    } else if p.prop_type == "color"@ {
        "color"@
    } else if p.prop_type == "int"@ {
        "int"@
    } else if p.prop_type == "bool"@ {
        "bool"@
    } else if p.prop_type == "float"@ && !text::text_contains(p.name, "opacity"@) {
        "length"@
    } else {
        "float"@
    }
}

/// Slint type for a prop.
pub fn slint_type(prop: &PropDefinition) -> (r: &'static str)
    ensures
        r@ == slint_type_of(prop@),
{
    let t = prop.prop_type.as_str();
    if text_eq(t, "string") {
        "string"
    } else if text_eq(t, "color") {
        "color"
    } else if text_eq(t, "int") {
        "int"
    } else if text_eq(t, "bool") {
        "bool"
    } else if text_eq(t, "float") && !contains_text(prop.name.as_str(), "opacity") {
        "length"
    } else {
        "float"
    }
}

} // verus!
