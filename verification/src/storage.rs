//! Dynamic property storage for theme data.
//!
//! A flexible storage for theme properties that can be modified at runtime: values by variant and
//! state, values by size, and the record of which of them override what they would inherit.

use vstd::prelude::*;
use crate::chain;
use crate::color::{self, parse_loose_hex, Color};
use crate::scalar::{self, Scalar};
use crate::schema::{
    self, is_token_text, PluginDefinition, PluginModel, PropDefinition, PropModel, Raw, TokenOrValue,
};
use crate::store::TokenStore;
use crate::style::{self, copy_text};
use crate::text::{self, owned, text_eq, to_plain_name};
use crate::textmap::{self, duplicate_all, Duplicate, TextMap, TextSet};
use crate::value::{self, Value};

verus! {

/// In-memory key for the virtual size row that holds the shared Common value for every size prop.
pub const DEFAULT_SIZE_KEY: &'static str = "default";

/// The state that the other states of a variant inherit from.
pub const NORMAL_STATE_KEY: &'static str = "normal";

/// Serialized key used for Common size values in newly-written theme JSON.
pub const COMMON_SIZE_KEY: &'static str = "common";

/// Serialized key accepted for Common size values in old theme JSON and plugin defaults.
pub const LEGACY_COMMON_SIZE_KEY: &'static str = "default";

/// Whether a serialized size key means the Common size.
pub open spec fn means_common(key: Seq<char>) -> bool {
    key == COMMON_SIZE_KEY@ || key == LEGACY_COMMON_SIZE_KEY@
}

/// The in-memory key for a serialized size key.
pub open spec fn size_key_in_memory(key: Seq<char>) -> Seq<char> {
    if means_common(key) {
        DEFAULT_SIZE_KEY@
    } else {
        key
    }
}

/// The serialized key for an in-memory size key.
pub open spec fn size_key_in_file(key: Seq<char>) -> Seq<char> {
    if key == DEFAULT_SIZE_KEY@ {
        COMMON_SIZE_KEY@
    } else {
        key
    }
}

/// Whether a serialized size key means the Common size.
pub fn is_common_size_key(key: &str) -> (r: bool)
    ensures
        r == means_common(key@),
{
    text_eq(key, COMMON_SIZE_KEY) || text_eq(key, LEGACY_COMMON_SIZE_KEY)
}

/// The in-memory key for a serialized size key.
pub fn normalize_size_key(key: &str) -> (r: &str)
    ensures
        r@ == size_key_in_memory(key@),
{
    if is_common_size_key(key) {
        DEFAULT_SIZE_KEY
    } else {
        key
    }
}

/// The serialized key for an in-memory size key.
pub fn serialize_size_key(key: &str) -> (r: &str)
    ensures
        r@ == size_key_in_file(key@),
{
    if text_eq(key, DEFAULT_SIZE_KEY) {
        COMMON_SIZE_KEY
    } else {
        key
    }
}

/// A size key that is written and read again is the normalized key, and a normalized key stays.
pub proof fn size_key_round_trip(key: Seq<char>)
    ensures
        size_key_in_memory(size_key_in_file(key)) == size_key_in_memory(key),
        size_key_in_memory(size_key_in_memory(key)) == size_key_in_memory(key),
{
}

/// A size key that is not the serialized Common key comes back as it was written.
pub proof fn size_key_comes_back(key: Seq<char>)
    requires
        key != COMMON_SIZE_KEY@,
    ensures
        size_key_in_memory(size_key_in_file(key)) == key,
{
}

/// A resolved property value that can be stored and edited.
#[derive(Debug, PartialEq)]
pub enum PropertyValue {
    Token(String),
    Color(Color),
    Float(Scalar),
    Int(i32),
    Bool(bool),
    String(String),
}

impl View for PropertyValue {
    type V = Value;

    open spec fn view(&self) -> Value {
        match *self {
            PropertyValue::Token(t) => Value::Ref(t@),
            PropertyValue::Color(c) => Value::Color(c),
            PropertyValue::Float(f) => Value::Float(f),
            PropertyValue::Int(i) => Value::Int(i),
            PropertyValue::Bool(b) => Value::Bool(b),
            PropertyValue::String(s) => Value::Text(s@),
        }
    }
}

impl Duplicate for PropertyValue {
    fn duplicate(&self) -> (r: Self) {
        match self {
            PropertyValue::Token(t) => PropertyValue::Token(t.clone()),
            PropertyValue::Color(c) => PropertyValue::Color(*c),
            PropertyValue::Float(f) => PropertyValue::Float(*f),
            PropertyValue::Int(i) => PropertyValue::Int(*i),
            PropertyValue::Bool(b) => PropertyValue::Bool(*b),
            PropertyValue::String(s) => PropertyValue::String(s.clone()),
        }
    }
}

impl Clone for PropertyValue {
    fn clone(&self) -> (r: Self)
        ensures
            r@ == self@,
    {
        self.duplicate()
    }
}

/// A value as a float, where it is a number.
pub open spec fn value_float(v: Value) -> Option<Scalar> {
    match v {
        Value::Float(f) => Some(f),
        Value::Int(i) => Some(scalar::int_scalar(i as int)),
        _ => None,
    }
}

/// A value as an integer, where it is a number.
pub open spec fn value_int(v: Value) -> Option<int> {
    match v {
        Value::Int(i) => Some(i as int),
        Value::Float(f) => Some(scalar::truncated(f)),
        _ => None,
    }
}

impl PropertyValue {
    /// Get as color
    pub fn as_color(&self) -> (r: Option<Color>)
        ensures
            r == (match self@ {
                Value::Color(c) => Some(c),
                _ => None,
            }),
    {
        match self {
            PropertyValue::Color(c) => Some(*c),
            _ => None,
        }
    }

    /// Get as float
    pub fn as_float(&self) -> (r: Option<Scalar>)
        ensures
            r == value_float(self@),
    {
        match self {
            PropertyValue::Float(f) => Some(*f),
            PropertyValue::Int(i) => Some(Scalar::from_int(*i)),
            _ => None,
        }
    }

    /// Get as int
    pub fn as_int(&self) -> (r: Option<i32>)
        ensures
            match r {
                Some(i) => value_int(self@) == Some(i as int),
                None => value_int(self@) is None,
            },
    {
        match self {
            PropertyValue::Int(i) => Some(*i),
            PropertyValue::Float(f) => Some(f.to_int()),
            _ => None,
        }
    }

    /// The token that the value refers to.
    pub fn token_key(&self) -> (r: Option<&str>)
        ensures
            schema::option_view(r) == (match self@ {
                Value::Ref(t) => Some(t),
                _ => None,
            }),
    {
        match self {
            PropertyValue::Token(key) => Some(key.as_str()),
            _ => None,
        }
    }

    /// Whether two values are equal; numbers are compared as numbers.
    pub fn same(&self, other: &PropertyValue) -> (r: bool)
        ensures
            r == value::same_value(self@, other@),
    {
        match (self, other) {
            (PropertyValue::Token(a), PropertyValue::Token(b)) => text_eq(a.as_str(), b.as_str()),
            (PropertyValue::Color(a), PropertyValue::Color(b)) => *a == *b,
            (PropertyValue::Float(a), PropertyValue::Float(b)) => a.same(b),
            (PropertyValue::Int(a), PropertyValue::Int(b)) => *a == *b,
            (PropertyValue::Bool(a), PropertyValue::Bool(b)) => *a == *b,
            (PropertyValue::String(a), PropertyValue::String(b)) => text_eq(a.as_str(), b.as_str()),
            _ => false,
        }
    }
}

// ---------------------------------------------------------------------------------------------
// Defaults
// ---------------------------------------------------------------------------------------------
/// The value for a property of a type that nothing gives a value.
pub open spec fn type_default(prop_type: Seq<char>) -> Value {
    if prop_type == "color"@ {
        Value::Color(Color { r: 128, g: 128, b: 128, a: 255 })
    } else if prop_type == "int"@ {
        Value::Int(0)
    } else if prop_type == "bool"@ {
        Value::Bool(false)
    } else if prop_type == "string"@ {
        Value::Text(Seq::empty())
    } else {
        Value::Float(Scalar { bits: 0 })
    }
}

/// Get a default value for a property type.
pub fn default_for_type(prop_type: &str) -> (r: PropertyValue)
    ensures
        r@ == type_default(prop_type@),
{
    if text_eq(prop_type, "color") {
        PropertyValue::Color(Color { r: 128, g: 128, b: 128, a: 255 })
    } else if text_eq(prop_type, "int") {
        PropertyValue::Int(0)
    } else if text_eq(prop_type, "bool") {
        PropertyValue::Bool(false)
    } else if text_eq(prop_type, "string") {
        let s = String::new();
        assert(s@ =~= Seq::<char>::empty());
        PropertyValue::String(s)
    } else {
        PropertyValue::Float(Scalar::zero())
    }
}

/// The value that a default of a property's type stands for. A token reference stays one.
pub open spec fn default_value(v: Raw, prop_type: Seq<char>) -> Value {
    match v {
        Raw::Text(s) => if schema::looks_like_token(s) {
            Value::Ref(s)
        } else if prop_type == "color"@ {
            Value::Color(
                match color::color_of_loose_hex(s) {
                    Some(c) => c,
                    None => Color { r: 0, g: 0, b: 0, a: 255 },
                },
            )
        } else {
            Value::Text(s)
        },
        Raw::Float(f) => Value::Float(f.single),
        Raw::Int(i) => if prop_type == "int"@ {
            Value::Int(i as i32)
        } else {
            Value::Float(scalar::int_scalar(i as int))
        },
        Raw::Bool(b) => Value::Bool(b),
    }
}

/// The value that a default of a property's type stands for.
pub fn resolve_token_or_value(token_or_value: &TokenOrValue, prop_type: &str) -> (r: PropertyValue)
    ensures
        r@ == default_value(token_or_value@, prop_type@),
{
    match token_or_value {
        TokenOrValue::String(s) => {
            if is_token_text(s.as_str()) {
                PropertyValue::Token(s.clone())
            } else if text_eq(prop_type, "color") {
                PropertyValue::Color(
                    match parse_loose_hex(s.as_str()) {
                        Some(c) => c,
                        None => Color { r: 0, g: 0, b: 0, a: 255 },
                    },
                )
            } else {
                PropertyValue::String(s.clone())
            }
        },
        TokenOrValue::Float(f) => PropertyValue::Float(f.single),
        TokenOrValue::Int(i) => {
            if text_eq(prop_type, "int") {
                PropertyValue::Int(
                    #[verifier::truncate]
                    (*i as i32),
                )
            } else {
                PropertyValue::Float(Scalar::from_long(*i))
            }
        },
        TokenOrValue::Bool(b) => PropertyValue::Bool(*b),
    }
}

/// The default that a property declares for a variant in a state.
pub open spec fn state_default(p: PropModel, variant: Seq<char>, state: Seq<char>) -> Option<Raw> {
    match schema::entry(p.defaults, variant) {
        Some(d) => d.state(state),
        None => None,
    }
}

/// The default that counts for a property in a variant and a state: the declared one, else that of
/// the variant's normal state, else that of the common variant's normal state.
pub open spec fn declared_default(
    p: PropModel,
    common: Option<Seq<char>>,
    variant: Seq<char>,
    state: Seq<char>,
) -> Option<Raw> {
    schema::or_else(
        state_default(p, variant, state),
        schema::or_else(
            state_default(p, variant, NORMAL_STATE_KEY@),
            match common {
                Some(c) => state_default(p, c, NORMAL_STATE_KEY@),
                None => None,
            },
        ),
    )
}

/// The value of a property in a variant and a state before any edit.
pub open spec fn variant_default(
    p: PropModel,
    common: Option<Seq<char>>,
    variant: Seq<char>,
    state: Seq<char>,
) -> Value {
    match declared_default(p, common, variant, state) {
        Some(v) => default_value(v, p.prop_type),
        None => type_default(p.prop_type),
    }
}

fn declared_state_default<'a>(prop_def: &'a PropDefinition, variant: &str, state: &str) -> (r: Option<
    &'a TokenOrValue,
>)
    ensures
        schema::option_view(r) == state_default(prop_def@, variant@, state@),
{
    match prop_def.defaults.values.get(variant) {
        Some(d) => d.get_state(state),
        None => None,
    }
}

/// Resolve a default value for a variant property.
pub fn resolve_variant_default(
    prop_def: &PropDefinition,
    common_variant: Option<&str>,
    variant: &str,
    state: &str,
) -> (r: PropertyValue)
    ensures
        r@ == variant_default(prop_def@, schema::option_view(common_variant), variant@, state@),
{
    if let Some(v) = declared_state_default(prop_def, variant, state) {
        return resolve_token_or_value(v, prop_def.prop_type.as_str());
    }
    if let Some(v) = declared_state_default(prop_def, variant, NORMAL_STATE_KEY) {
        return resolve_token_or_value(v, prop_def.prop_type.as_str());
    }
    if let Some(common) = common_variant {
        if let Some(v) = declared_state_default(prop_def, common, NORMAL_STATE_KEY) {
            return resolve_token_or_value(v, prop_def.prop_type.as_str());
        }
    }
    default_for_type(prop_def.prop_type.as_str())
}

/// The direct default that a property declares for a key.
pub open spec fn direct_default(p: PropModel, key: Seq<char>) -> Option<Raw> {
    match schema::entry(p.defaults, key) {
        Some(d) => d.direct(),
        None => None,
    }
}

/// The direct default of the Common size: that of `common` where there is an entry for it, else
/// that of `default`.
pub open spec fn common_default(p: PropModel) -> Option<Raw> {
    match schema::or_else(
        schema::entry(p.defaults, COMMON_SIZE_KEY@),
        schema::entry(p.defaults, LEGACY_COMMON_SIZE_KEY@),
    ) {
        Some(d) => d.direct(),
        None => None,
    }
}

/// The direct default of the first key in ascending order.
pub open spec fn first_default(p: PropModel) -> Option<Raw> {
    if p.defaults.dom() == Set::<Seq<char>>::empty() {
        None
    } else {
        p.defaults[textmap::sorted_keys(p.defaults)[0]].direct()
    }
}

/// The Common value of a size property before any edit: its Common default, else that of the middle
/// size, else the first declared one, else that of its type.
pub open spec fn size_base(p: PropModel) -> Value {
    match schema::or_else(
        common_default(p),
        schema::or_else(
            direct_default(p, "md"@),
            schema::or_else(direct_default(p, "medium"@), first_default(p)),
        ),
    ) {
        Some(v) => default_value(v, p.prop_type),
        None => type_default(p.prop_type),
    }
}

/// The value of a size property in a size before any edit: the size's own default, else the Common
/// value.
pub open spec fn size_default(p: PropModel, size: Seq<char>) -> Value {
    match direct_default(p, size) {
        Some(v) => default_value(v, p.prop_type),
        None => size_base(p),
    }
}

fn declared_direct<'a>(prop_def: &'a PropDefinition, key: &str) -> (r: Option<&'a TokenOrValue>)
    ensures
        schema::option_view(r) == direct_default(prop_def@, key@),
{
    match prop_def.defaults.values.get(key) {
        Some(d) => d.get_direct(),
        None => None,
    }
}

fn declared_common<'a>(prop_def: &'a PropDefinition) -> (r: Option<&'a TokenOrValue>)
    ensures
        schema::option_view(r) == common_default(prop_def@),
{
    let base = match prop_def.defaults.values.get(COMMON_SIZE_KEY) {
        Some(d) => Some(d),
        None => prop_def.defaults.values.get(LEGACY_COMMON_SIZE_KEY),
    };
    match base {
        Some(d) => d.get_direct(),
        None => None,
    }
}

fn declared_first<'a>(prop_def: &'a PropDefinition) -> (r: Option<&'a TokenOrValue>)
    ensures
        schema::option_view(r) == first_default(prop_def@),
{
    if prop_def.defaults.values.is_empty() {
        None
    } else {
        let n: usize = prop_def.defaults.values.len();
        proof {
            if n == 0 {
                assert(prop_def.defaults.values@.dom() =~= Set::<Seq<char>>::empty());
            }
        }
        prop_def.defaults.values.value_at(0).get_direct()
    }
}

/// Resolve the shared base value for a size property — used to seed the virtual Common row.
pub fn resolve_size_base(prop_def: &PropDefinition) -> (r: PropertyValue)
    ensures
        r@ == size_base(prop_def@),
{
    let prop_type = prop_def.prop_type.as_str();
    if let Some(v) = declared_common(prop_def) {
        return resolve_token_or_value(v, prop_type);
    }
    if let Some(v) = declared_direct(prop_def, "md") {
        return resolve_token_or_value(v, prop_type);
    }
    if let Some(v) = declared_direct(prop_def, "medium") {
        return resolve_token_or_value(v, prop_type);
    }
    if let Some(v) = declared_first(prop_def) {
        return resolve_token_or_value(v, prop_type);
    }
    default_for_type(prop_type)
}

/// Resolve a default value for a size property: the size's own value, then the shared base that
/// applies to every size which does not override it.
pub fn resolve_size_default(prop_def: &PropDefinition, size: &str) -> (r: PropertyValue)
    ensures
        r@ == size_default(prop_def@, size@),
{
    match declared_direct(prop_def, size) {
        Some(v) => resolve_token_or_value(v, prop_def.prop_type.as_str()),
        None => resolve_size_base(prop_def),
    }
}

// ---------------------------------------------------------------------------------------------
// Theme data
// ---------------------------------------------------------------------------------------------
/// Storage for all theme data for a component.
/// Organized as: variant -> state -> prop_name -> value (for variant props)
/// And: size -> prop_name -> value (for size props)
#[derive(Debug, PartialEq)]
pub struct ComponentThemeData {
    /// Variant properties: variant -> state -> prop_name -> value
    pub variant_props: TextMap<TextMap<TextMap<PropertyValue>>>,
    /// The props of each variant and state that override what they would inherit.
    pub variant_overrides: TextMap<TextMap<TextSet>>,
    /// Size properties: size -> prop_name -> value, with the virtual `DEFAULT_SIZE_KEY` entry.
    pub size_props: TextMap<TextMap<PropertyValue>>,
    /// The props of each size that override the Common base.
    pub size_overrides: TextMap<TextSet>,
    /// Optional parent component key.
    pub parent_key: Option<String>,
    /// The props whose Common value no longer follows the parent's.
    pub parent_overrides: TextSet,
    /// First plugin variant: the baseline for override comparisons.
    pub common_variant_key: Option<String>,
    /// The states
    pub states: Vec<String>,
    /// Variant property definitions
    pub variant_prop_defs: Vec<PropDefinition>,
    /// Size property definitions
    pub size_prop_defs: Vec<PropDefinition>,
}

/// Values by variant, state and property.
pub type VariantValues = Map<Seq<char>, Map<Seq<char>, Map<Seq<char>, Value>>>;

/// Overriding properties by variant and state.
pub type VariantFlags = Map<Seq<char>, Map<Seq<char>, Set<Seq<char>>>>;

/// Values by size and property.
pub type SizeValues = Map<Seq<char>, Map<Seq<char>, Value>>;

/// Overriding properties by size.
pub type SizeFlags = Map<Seq<char>, Set<Seq<char>>>;

/// The model of a component's theme data.
#[verifier::ext_equal]
pub struct ThemeData {
    pub variant_props: VariantValues,
    pub variant_overrides: VariantFlags,
    pub size_props: SizeValues,
    pub size_overrides: SizeFlags,
    pub parent_key: Option<Seq<char>>,
    pub parent_overrides: Set<Seq<char>>,
    pub common_variant_key: Option<Seq<char>>,
    pub states: Seq<Seq<char>>,
    pub variant_prop_defs: Seq<PropModel>,
    pub size_prop_defs: Seq<PropModel>,
}

impl View for ComponentThemeData {
    type V = ThemeData;

    open spec fn view(&self) -> ThemeData {
        ThemeData {
            variant_props: self.variant_props@,
            variant_overrides: self.variant_overrides@,
            size_props: self.size_props@,
            size_overrides: self.size_overrides@,
            parent_key: style::text_view(self.parent_key),
            parent_overrides: self.parent_overrides@,
            common_variant_key: style::text_view(self.common_variant_key),
            states: textmap::views(self.states@),
            variant_prop_defs: textmap::views(self.variant_prop_defs@),
            size_prop_defs: textmap::views(self.size_prop_defs@),
        }
    }
}

impl Duplicate for ComponentThemeData {
    fn duplicate(&self) -> (r: Self) {
        ComponentThemeData {
            variant_props: self.variant_props.duplicate(),
            variant_overrides: self.variant_overrides.duplicate(),
            size_props: self.size_props.duplicate(),
            size_overrides: self.size_overrides.duplicate(),
            parent_key: copy_text(&self.parent_key),
            parent_overrides: self.parent_overrides.duplicate(),
            common_variant_key: copy_text(&self.common_variant_key),
            states: duplicate_all(&self.states),
            variant_prop_defs: duplicate_all(&self.variant_prop_defs),
            size_prop_defs: duplicate_all(&self.size_prop_defs),
        }
    }
}

impl Clone for ComponentThemeData {
    fn clone(&self) -> (r: Self)
        ensures
            r@ == self@,
    {
        self.duplicate()
    }
}

/// The value stored for a variant, a state and a property.
pub open spec fn variant_value(
    m: VariantValues,
    variant: Seq<char>,
    state: Seq<char>,
    prop: Seq<char>,
) -> Option<Value> {
    if m.dom().contains(variant) {
        textmap::at2(m[variant], state, prop)
    } else {
        None
    }
}

/// Whether a variant's property is marked as an override in a state.
pub open spec fn variant_flagged(
    m: VariantFlags,
    variant: Seq<char>,
    state: Seq<char>,
    prop: Seq<char>,
) -> bool {
    match textmap::at2(m, variant, state) {
        Some(props) => props.contains(prop),
        None => false,
    }
}

/// Whether a size's property is marked as an override.
pub open spec fn size_flagged(m: SizeFlags, size: Seq<char>, prop: Seq<char>) -> bool {
    m.dom().contains(size) && m[size].contains(prop)
}

/// Values with one stored for a variant and a state that are there.
pub open spec fn with_variant_value(
    m: VariantValues,
    variant: Seq<char>,
    state: Seq<char>,
    prop: Seq<char>,
    v: Value,
) -> VariantValues {
    if m.dom().contains(variant) && m[variant].dom().contains(state) {
        m.insert(variant, m[variant].insert(state, m[variant][state].insert(prop, v)))
    } else {
        m
    }
}

/// Marks with that of a variant's property in a state set or cleared.
pub open spec fn with_variant_flag(
    m: VariantFlags,
    variant: Seq<char>,
    state: Seq<char>,
    prop: Seq<char>,
    flag: bool,
) -> VariantFlags {
    let states = if m.dom().contains(variant) {
        m[variant]
    } else {
        Map::<Seq<char>, Set<Seq<char>>>::empty()
    };
    let props = if states.dom().contains(state) {
        states[state]
    } else {
        Set::<Seq<char>>::empty()
    };
    m.insert(
        variant,
        states.insert(
            state,
            if flag {
                props.insert(prop)
            } else {
                props.remove(prop)
            },
        ),
    )
}

/// Values of a size that is there, with one property's value set.
pub open spec fn with_size_value(m: SizeValues, size: Seq<char>, prop: Seq<char>, v: Value) -> SizeValues {
    if m.dom().contains(size) {
        m.insert(size, m[size].insert(prop, v))
    } else {
        m
    }
}

impl ThemeData {
    /// Whether a variant is the Common one.
    pub open spec fn is_common(self, variant: Seq<char>) -> bool {
        self.common_variant_key == Some(variant)
    }

    /// Whether a variant and state are the root of all inheritance among variants.
    pub open spec fn is_root(self, variant: Seq<char>, state: Seq<char>) -> bool {
        self.is_common(variant) && state == NORMAL_STATE_KEY@
    }

    /// What a variant's property would inherit in a state: the variant's normal value, or for the
    /// normal state that of the Common variant.
    pub open spec fn inherited(self, variant: Seq<char>, state: Seq<char>, prop: Seq<char>) -> Option<
        Value,
    > {
        if state != NORMAL_STATE_KEY@ {
            variant_value(self.variant_props, variant, NORMAL_STATE_KEY@, prop)
        } else if !self.is_common(variant) {
            match self.common_variant_key {
                Some(common) => variant_value(self.variant_props, common, NORMAL_STATE_KEY@, prop),
                None => None,
            }
        } else {
            None
        }
    }

    /// A variant's normal value of a property, once the Common variant's has been passed on.
    pub open spec fn settled_normal(self, variant: Seq<char>, prop: Seq<char>) -> Option<Value> {
        let own = variant_value(self.variant_props, variant, NORMAL_STATE_KEY@, prop);
        let common = match self.common_variant_key {
            Some(c) => variant_value(self.variant_props, c, NORMAL_STATE_KEY@, prop),
            None => None,
        };
        if !self.is_common(variant) && !variant_flagged(
            self.variant_overrides,
            variant,
            NORMAL_STATE_KEY@,
            prop,
        ) && self.variant_props[variant].dom().contains(NORMAL_STATE_KEY@) && common is Some {
            common
        } else {
            own
        }
    }

    /// What inheritance writes for a variant's property in a state; `None` where it writes nothing.
    pub open spec fn settled(self, variant: Seq<char>, state: Seq<char>, prop: Seq<char>) -> Option<
        Value,
    > {
        if state == NORMAL_STATE_KEY@ {
            self.settled_normal(variant, prop)
        } else if variant_flagged(self.variant_overrides, variant, state, prop) {
            None
        } else {
            self.settled_normal(variant, prop)
        }
    }

    /// The values of a variant once a property's inheritance has been applied.
    pub open spec fn settled_states(self, variant: Seq<char>, prop: Seq<char>) -> Map<
        Seq<char>,
        Map<Seq<char>, Value>,
    > {
        Map::new(
            |s: Seq<char>| self.variant_props[variant].dom().contains(s),
            |s: Seq<char>|
                match self.settled(variant, s, prop) {
                    Some(v) => self.variant_props[variant][s].insert(prop, v),
                    None => self.variant_props[variant][s],
                },
        )
    }

    /// The data once a property's inheritance among variants and states has been applied: every
    /// normal value that is no override takes the Common variant's, then every other value that is
    /// no override takes its variant's normal one.
    pub open spec fn reinherited(self, prop: Seq<char>) -> ThemeData {
        if self.common_variant_key is None {
            self
        } else {
            ThemeData {
                variant_props: Map::new(
                    |v: Seq<char>| self.variant_props.dom().contains(v),
                    |v: Seq<char>| self.settled_states(v, prop),
                ),
                ..self
            }
        }
    }

    /// The data with a value and a mark set for a variant's property in a state.
    pub open spec fn with_resolved(
        self,
        variant: Seq<char>,
        state: Seq<char>,
        prop: Seq<char>,
        v: Value,
        flag: bool,
    ) -> ThemeData {
        ThemeData {
            variant_props: with_variant_value(self.variant_props, variant, state, prop, v),
            variant_overrides: with_variant_flag(
                self.variant_overrides,
                variant,
                state,
                prop,
                flag,
            ),
            ..self
        }
    }

    /// Whether setting a value makes it an override: at the root always, elsewhere where it differs
    /// from what would be inherited.
    pub open spec fn becomes_override(
        self,
        variant: Seq<char>,
        state: Seq<char>,
        prop: Seq<char>,
        v: Value,
    ) -> bool {
        let stored = ThemeData {
            variant_props: with_variant_value(self.variant_props, variant, state, prop, v),
            ..self
        };
        if self.is_root(variant, state) {
            true
        } else {
            match stored.inherited(variant, state, prop) {
                Some(f) => !value::same_value(f, v),
                None => true,
            }
        }
    }

    /// The data with a variant's property set in a state, and what follows from it.
    pub open spec fn variant_set(
        self,
        variant: Seq<char>,
        state: Seq<char>,
        prop: Seq<char>,
        v: Value,
    ) -> ThemeData {
        self.with_resolved(
            variant,
            state,
            prop,
            v,
            self.becomes_override(variant, state, prop, v),
        ).reinherited(prop)
    }

    /// The data with a variant's override cleared to a value, and what follows from it.
    pub open spec fn variant_cleared_to(
        self,
        variant: Seq<char>,
        state: Seq<char>,
        prop: Seq<char>,
        v: Value,
    ) -> ThemeData {
        self.with_resolved(variant, state, prop, v, false).reinherited(prop)
    }

    /// The data with a variant's override cleared to what it inherits; unchanged where it inherits
    /// nothing.
    pub open spec fn variant_cleared(self, variant: Seq<char>, state: Seq<char>, prop: Seq<char>) -> ThemeData {
        match self.inherited(variant, state, prop) {
            Some(v) => self.variant_cleared_to(variant, state, prop, v),
            None => self,
        }
    }

    /// Whether a size follows the Common value of a property: it is one of the sizes whose overrides
    /// are recorded, it is not the Common row, and the property is not among its overrides.
    pub open spec fn follows(self, size: Seq<char>, prop: Seq<char>) -> bool {
        &&& self.size_overrides.dom().contains(size)
        &&& size != DEFAULT_SIZE_KEY@
        &&& !self.size_overrides[size].contains(prop)
    }

    /// The data with the Common value of a property set, in the Common row and in every size that
    /// follows it.
    pub open spec fn size_default_set(self, prop: Seq<char>, v: Value) -> ThemeData {
        ThemeData {
            size_props: Map::new(
                |s: Seq<char>| self.size_props.dom().contains(s),
                |s: Seq<char>|
                    if s == DEFAULT_SIZE_KEY@ || self.follows(s, prop) {
                        self.size_props[s].insert(prop, v)
                    } else {
                        self.size_props[s]
                    },
            ),
            ..self
        }
    }

    /// The Common value of a property.
    pub open spec fn base(self, prop: Seq<char>) -> Option<Value> {
        textmap::at2(self.size_props, DEFAULT_SIZE_KEY@, prop)
    }

    /// The marks with a size's property marked.
    pub open spec fn size_marked(self, size: Seq<char>, prop: Seq<char>) -> SizeFlags {
        let props = if self.size_overrides.dom().contains(size) {
            self.size_overrides[size]
        } else {
            Set::<Seq<char>>::empty()
        };
        self.size_overrides.insert(size, props.insert(prop))
    }

    /// The marks without that of a size's property.
    pub open spec fn size_unmarked(self, size: Seq<char>, prop: Seq<char>) -> SizeFlags {
        if self.size_overrides.dom().contains(size) {
            self.size_overrides.insert(size, self.size_overrides[size].remove(prop))
        } else {
            self.size_overrides
        }
    }

    /// The data with a size's property set and marked as an override.
    pub open spec fn size_set(self, size: Seq<char>, prop: Seq<char>, v: Value) -> ThemeData {
        ThemeData {
            size_props: with_size_value(self.size_props, size, prop, v),
            size_overrides: self.size_marked(size, prop),
            ..self
        }
    }

    /// The data with a size's override cleared: it takes the Common value again.
    pub open spec fn size_cleared(self, size: Seq<char>, prop: Seq<char>) -> ThemeData {
        ThemeData {
            size_overrides: self.size_unmarked(size, prop),
            size_props: match self.base(prop) {
                Some(v) => with_size_value(self.size_props, size, prop, v),
                None => self.size_props,
            },
            ..self
        }
    }

    /// The data with the Common value of a property marked as an override.
    pub open spec fn default_marked(self, prop: Seq<char>) -> ThemeData {
        ThemeData { size_overrides: self.size_marked(DEFAULT_SIZE_KEY@, prop), ..self }
    }

    /// The data without any mark.
    pub open spec fn unmarked(self) -> ThemeData {
        ThemeData {
            variant_overrides: Map::new(
                |v: Seq<char>| self.variant_overrides.dom().contains(v),
                |v: Seq<char>|
                    Map::new(
                        |s: Seq<char>| self.variant_overrides[v].dom().contains(s),
                        |s: Seq<char>| Set::<Seq<char>>::empty(),
                    ),
            ),
            size_overrides: Map::new(
                |s: Seq<char>| self.size_overrides.dom().contains(s),
                |s: Seq<char>| Set::<Seq<char>>::empty(),
            ),
            parent_overrides: Set::empty(),
            ..self
        }
    }

    /// The data with a size's property taken from a file.
    pub open spec fn size_imported(self, size: Seq<char>, prop: Seq<char>, v: Value) -> ThemeData {
        if size == DEFAULT_SIZE_KEY@ {
            let d = self.size_default_set(prop, v).default_marked(prop);
            if self.parent_key is Some {
                ThemeData { parent_overrides: d.parent_overrides.insert(prop), ..d }
            } else {
                d
            }
        } else {
            self.size_set(size, prop, v)
        }
    }
}

fn get3<'a>(
    m: &'a TextMap<TextMap<TextMap<PropertyValue>>>,
    variant: &str,
    state: &str,
    prop: &str,
) -> (r: Option<&'a PropertyValue>)
    ensures
        schema::option_view(r) == variant_value(m@, variant@, state@, prop@),
{
    match m.get(variant) {
        Some(states) => states.get2(state, prop),
        None => None,
    }
}

fn duplicate_found(v: Option<&PropertyValue>) -> (r: Option<PropertyValue>)
    ensures
        (match r {
            Some(x) => Some(x@),
            None => None,
        }) == schema::option_view(v),
{
    match v {
        Some(x) => Some(x.duplicate()),
        None => None,
    }
}

/// What an optional value stands for.
pub open spec fn found(v: Option<PropertyValue>) -> Option<Value> {
    match v {
        Some(x) => Some(x@),
        None => None,
    }
}

impl ComponentThemeData {
    /// True when this concrete size has an override for the given prop (false means the size is
    /// inheriting the Common base).
    pub fn size_prop_is_overridden(&self, size: &str, prop_name: &str) -> (r: bool)
        ensures
            r == size_flagged(self@.size_overrides, size@, prop_name@),
    {
        match self.size_overrides.get(size) {
            Some(s) => s.contains(prop_name),
            None => false,
        }
    }

    /// True when this variant/state has an override for the given prop. For Normal on later variants
    /// this means it overrides the Common variant; for non-Normal states this means it overrides that
    /// variant's Normal state.
    pub fn variant_prop_is_overridden(&self, variant: &str, state: &str, prop_name: &str) -> (r: bool)
        ensures
            r == variant_flagged(self@.variant_overrides, variant@, state@, prop_name@),
    {
        match self.variant_overrides.get2(variant, state) {
            Some(props) => props.contains(prop_name),
            None => false,
        }
    }

    /// The Common variant.
    pub fn common_variant_key(&self) -> (r: Option<&str>)
        ensures
            schema::option_view(r) == self@.common_variant_key,
    {
        match &self.common_variant_key {
            Some(k) => Some(k.as_str()),
            None => None,
        }
    }

    /// Whether a variant is the Common one.
    pub fn variant_is_common(&self, variant: &str) -> (r: bool)
        ensures
            r == self@.is_common(variant@),
    {
        match &self.common_variant_key {
            Some(k) => text_eq(k.as_str(), variant),
            None => false,
        }
    }

    /// Whether a variant and state are the root of all inheritance among variants.
    pub fn variant_state_is_root(&self, variant: &str, state: &str) -> (r: bool)
        ensures
            r == self@.is_root(variant@, state@),
    {
        self.variant_is_common(variant) && text_eq(state, NORMAL_STATE_KEY)
    }

    /// Forgets every override; the values stay.
    pub fn clear_local_override_flags(&mut self)
        ensures
            final(self)@ == old(self)@.unmarked(),
    {
        self.variant_overrides = self.variant_overrides.map_values(
            |_variant: &String, states: &TextMap<TextSet>| -> (r: TextMap<TextSet>)
                ensures
                    r@ == Map::new(
                        |s: Seq<char>| states@.dom().contains(s),
                        |s: Seq<char>| Set::<Seq<char>>::empty(),
                    )
                {
                    let r = states.map_values(
                        |_state: &String, _props: &TextSet| -> (e: TextSet)
                            ensures
                                e@ == Set::<Seq<char>>::empty()
                            { TextSet::new() },
                    );
                    assert(r@ =~= Map::new(
                        |s: Seq<char>| states@.dom().contains(s),
                        |s: Seq<char>| Set::<Seq<char>>::empty(),
                    ));
                    r
                },
        );
        self.size_overrides = self.size_overrides.map_values(
            |_size: &String, _props: &TextSet| -> (e: TextSet)
                ensures
                    e@ == Set::<Seq<char>>::empty()
                { TextSet::new() },
        );
        self.parent_overrides = TextSet::new();
        proof {
            assert(self@.variant_overrides =~= Map::new(
                |v: Seq<char>| old(self)@.variant_overrides.dom().contains(v),
                |v: Seq<char>|
                    Map::new(
                        |s: Seq<char>| old(self)@.variant_overrides[v].dom().contains(s),
                        |s: Seq<char>| Set::<Seq<char>>::empty(),
                    ),
            ));
            assert(self@.size_overrides =~= Map::new(
                |s: Seq<char>| old(self)@.size_overrides.dom().contains(s),
                |s: Seq<char>| Set::<Seq<char>>::empty(),
            ));
        }
    }

    /// What a variant's property would inherit in a state.
    pub fn variant_immediate_fallback_value(&self, variant: &str, state: &str, prop_name: &str) -> (r:
        Option<PropertyValue>)
        ensures
            found(r) == self@.inherited(variant@, state@, prop_name@),
    {
        if !text_eq(state, NORMAL_STATE_KEY) {
            return duplicate_found(get3(&self.variant_props, variant, NORMAL_STATE_KEY, prop_name));
        }
        if !self.variant_is_common(variant) {
            return match &self.common_variant_key {
                Some(common) => duplicate_found(
                    get3(&self.variant_props, common.as_str(), NORMAL_STATE_KEY, prop_name),
                ),
                None => None,
            };
        }
        None
    }

    fn set_variant_prop_value(&mut self, variant: &str, state: &str, prop_name: &str, value: PropertyValue)
        ensures
            final(self)@ == (ThemeData {
                variant_props: with_variant_value(
                    old(self)@.variant_props,
                    variant@,
                    state@,
                    prop_name@,
                    value@,
                ),
                ..old(self)@
            }),
    {
        let there = match self.variant_props.get(variant) {
            Some(states) => states.contains_key(state),
            None => false,
        };
        if there {
            self.variant_props.slot_mut(variant).slot_mut(state).insert(owned(prop_name), value);
        }
    }

    fn set_variant_override_flag(
        &mut self,
        variant: &str,
        state: &str,
        prop_name: &str,
        is_overridden: bool,
    )
        ensures
            final(self)@ == (ThemeData {
                variant_overrides: with_variant_flag(
                    old(self)@.variant_overrides,
                    variant@,
                    state@,
                    prop_name@,
                    is_overridden,
                ),
                ..old(self)@
            }),
    {
        if !self.variant_overrides.contains_key(variant) {
            self.variant_overrides.insert(owned(variant), TextMap::new());
        }
        let states = self.variant_overrides.slot_mut(variant);
        if !states.contains_key(state) {
            states.insert(owned(state), TextSet::new());
        }
        let overrides = states.slot_mut(state);
        if is_overridden {
            overrides.insert(owned(prop_name));
        } else {
            overrides.remove(prop_name);
        }
        proof {
            let goal = with_variant_flag(
                old(self)@.variant_overrides,
                variant@,
                state@,
                prop_name@,
                is_overridden,
            );
            assert(self@.variant_overrides[variant@] =~= goal[variant@]);
            assert(self@.variant_overrides =~= with_variant_flag(
                old(self)@.variant_overrides,
                variant@,
                state@,
                prop_name@,
                is_overridden,
            ));
        }
    }

    /// Set a resolved variant value and its local override flag without re-running the
    /// component-local variant/state cascade.
    pub fn set_variant_resolved_value(
        &mut self,
        variant: &str,
        state: &str,
        prop_name: &str,
        value: PropertyValue,
        is_overridden: bool,
    )
        ensures
            final(self)@ == old(self)@.with_resolved(
                variant@,
                state@,
                prop_name@,
                value@,
                is_overridden,
            ),
    {
        self.set_variant_prop_value(variant, state, prop_name, value);
        self.set_variant_override_flag(variant, state, prop_name, is_overridden);
    }

    fn settled_normal_of(&self, variant: &str, prop_name: &str) -> (r: Option<PropertyValue>)
        requires
            self@.variant_props.dom().contains(variant@),
        ensures
            found(r) == self@.settled_normal(variant@, prop_name@),
    {
        let has_normal = match self.variant_props.get(variant) {
            Some(states) => states.contains_key(NORMAL_STATE_KEY),
            None => false,
        };
        if has_normal && !self.variant_is_common(variant) && !self.variant_prop_is_overridden(
            variant,
            NORMAL_STATE_KEY,
            prop_name,
        ) {
            if let Some(common) = &self.common_variant_key {
                if let Some(v) = get3(
                    &self.variant_props,
                    common.as_str(),
                    NORMAL_STATE_KEY,
                    prop_name,
                ) {
                    return Some(v.duplicate());
                }
            }
        }
        duplicate_found(get3(&self.variant_props, variant, NORMAL_STATE_KEY, prop_name))
    }

    fn settle_states(&self, variant: &str, states: &TextMap<TextMap<PropertyValue>>, prop_name: &str) -> (r:
        TextMap<TextMap<PropertyValue>>)
        requires
            self@.variant_props.dom().contains(variant@),
            states@ == self@.variant_props[variant@],
        ensures
            r@ == self@.settled_states(variant@, prop_name@),
    {
        let normal = self.settled_normal_of(variant, prop_name);
        let r = states.map_values(
            |state: &String, props: &TextMap<PropertyValue>| -> (u: TextMap<PropertyValue>)
                ensures
                    u@ == (match self@.settled(variant@, state@, prop_name@) {
                        Some(v) => props@.insert(prop_name@, v),
                        None => props@,
                    })
                {
                    let mut u = props.duplicate();
                    if text_eq(state.as_str(), NORMAL_STATE_KEY) || !self.variant_prop_is_overridden(
                        variant,
                        state.as_str(),
                        prop_name,
                    ) {
                        if let Some(v) = &normal {
                            u.insert(owned(prop_name), v.duplicate());
                        }
                    }
                    u
                },
        );
        assert(r@ =~= self@.settled_states(variant@, prop_name@));
        r
    }

    fn reapply_variant_inheritance_for_prop(&mut self, prop_name: &str)
        ensures
            final(self)@ == old(self)@.reinherited(prop_name@),
    {
        if self.common_variant_key.is_none() {
            return;
        }
        let names: Vec<String> = self.variant_names();
        let mut next: TextMap<TextMap<TextMap<PropertyValue>>> = TextMap::new();
        let ghost all = textmap::views(names@);
        for i in 0..names.len()
            invariant
                *self == *old(self),
                all == textmap::views(names@),
                forall|v: Seq<char>| all.contains(v) <==> #[trigger] self@.variant_props.dom().contains(v),
                forall|v: Seq<char>| #[trigger]
                    next@.dom().contains(v) <==> all.take(i as int).contains(v),
                forall|v: Seq<char>| #[trigger]
                    next@.dom().contains(v) ==> next@[v] == self@.settled_states(v, prop_name@),
        {
            proof {
                textmap::take_step(all, i as int);
                assert(all.contains(all[i as int]));
                assert(self@.variant_props.dom().contains(names@[i as int]@));
            }
            if let Some(states) = self.variant_props.get(names[i].as_str()) {
                let settled = self.settle_states(names[i].as_str(), states, prop_name);
                next.insert(names[i].clone(), settled);
            }
        }
        proof {
            assert(all.take(names@.len() as int) =~= all);
            assert(next@ =~= old(self)@.reinherited(prop_name@).variant_props);
        }
        self.variant_props = next;
    }

    fn variant_names(&self) -> (r: Vec<String>)
        ensures
            forall|v: Seq<char>|
                textmap::views(r@).contains(v) <==> #[trigger] self@.variant_props.dom().contains(v),
    {
        let mut out: Vec<String> = Vec::new();
        let n: usize = self.variant_props.len();
        let ghost names = textmap::sorted_keys(self@.variant_props);
        for i in 0..n
            invariant
                names == textmap::sorted_keys(self@.variant_props),
                n == names.len(),
                out@.len() == i,
                forall|j: int| 0 <= j < i ==> (#[trigger] out@[j])@ == names[j],
        {
            out.push(self.variant_props.key_at(i).clone());
        }
        assert(textmap::views(out@) =~= names);
        out
    }

    /// Set a Common variant prop and cascade to every variant/state prop that currently inherits
    /// from it.
    pub fn set_variant_default(&mut self, state: &str, prop_name: &str, value: PropertyValue)
        ensures
            final(self)@ == (match old(self)@.common_variant_key {
                Some(common) => old(self)@.variant_set(common, state@, prop_name@, value@),
                None => old(self)@,
            }),
    {
        if let Some(common) = copy_text(&self.common_variant_key) {
            self.set_variant_override(common.as_str(), state, prop_name, value);
        }
    }

    /// Clear a Common variant override and restore the schema default. The restored value cascades
    /// to variants that still inherit from Common.
    pub fn clear_variant_default(&mut self, state: &str, prop_name: &str, tokens: &TokenStore)
        ensures
            final(self)@ == (match old(self)@.common_variant_key {
                Some(common) => old(self)@.variant_cleared_to(
                    common,
                    state@,
                    prop_name@,
                    match first_prop(old(self)@.variant_prop_defs, prop_name@) {
                        Some(p) => variant_default(
                            p,
                            old(self)@.common_variant_key,
                            common,
                            state@,
                        ),
                        None => Value::Float(Scalar { bits: 0 }),
                    },
                ),
                None => old(self)@,
            }),
    {
        if let Some(common) = copy_text(&self.common_variant_key) {
            let default_value = match find_prop(&self.variant_prop_defs, prop_name) {
                Some(i) => resolve_variant_default(
                    &self.variant_prop_defs[i],
                    Some(common.as_str()),
                    common.as_str(),
                    state,
                ),
                None => PropertyValue::Float(Scalar::zero()),
            };
            self.clear_variant_default_to_value(state, prop_name, default_value);
        }
    }

    /// Clear a Common variant override to a value.
    pub fn clear_variant_default_to_value(&mut self, state: &str, prop_name: &str, value: PropertyValue)
        ensures
            final(self)@ == (match old(self)@.common_variant_key {
                Some(common) => old(self)@.variant_cleared_to(common, state@, prop_name@, value@),
                None => old(self)@,
            }),
    {
        if let Some(common) = copy_text(&self.common_variant_key) {
            self.clear_variant_override_to_value(common.as_str(), state, prop_name, value);
        }
    }

    /// Set a per-variant prop override.
    pub fn set_variant_override(
        &mut self,
        variant: &str,
        state: &str,
        prop_name: &str,
        value: PropertyValue,
    )
        ensures
            final(self)@ == old(self)@.variant_set(variant@, state@, prop_name@, value@),
    {
        let kept = value.duplicate();
        self.set_variant_prop_value(variant, state, prop_name, value);
        let is_overridden = if self.variant_state_is_root(variant, state) {
            true
        } else {
            match self.variant_immediate_fallback_value(variant, state, prop_name) {
                Some(fallback) => !fallback.same(&kept),
                None => true,
            }
        };
        self.set_variant_override_flag(variant, state, prop_name, is_overridden);
        self.reapply_variant_inheritance_for_prop(prop_name);
    }

    /// Set a per-variant prop override that a file gives.
    pub fn set_variant_import_override(
        &mut self,
        variant: &str,
        state: &str,
        prop_name: &str,
        value: PropertyValue,
    )
        ensures
            final(self)@ == old(self)@.variant_set(variant@, state@, prop_name@, value@),
    {
        self.set_variant_override(variant, state, prop_name, value);
    }

    /// Clear a per-variant override and re-inherit from the Common variant.
    pub fn clear_variant_override(&mut self, variant: &str, state: &str, prop_name: &str)
        ensures
            final(self)@ == old(self)@.variant_cleared(variant@, state@, prop_name@),
    {
        if self.variant_state_is_root(variant, state) {
            return;
        }
        if let Some(value) = self.variant_immediate_fallback_value(variant, state, prop_name) {
            self.clear_variant_override_to_value(variant, state, prop_name, value);
        }
    }

    /// Clear a per-variant override to a value.
    pub fn clear_variant_override_to_value(
        &mut self,
        variant: &str,
        state: &str,
        prop_name: &str,
        value: PropertyValue,
    )
        ensures
            final(self)@ == old(self)@.variant_cleared_to(variant@, state@, prop_name@, value@),
    {
        self.set_variant_override_flag(variant, state, prop_name, false);
        self.set_variant_prop_value(variant, state, prop_name, value);
        self.reapply_variant_inheritance_for_prop(prop_name);
    }

    /// Set a size prop that a file gives.
    pub fn set_size_import_override(&mut self, size: &str, prop_name: &str, value: PropertyValue)
        ensures
            final(self)@ == old(self)@.size_imported(size@, prop_name@, value@),
    {
        if text_eq(size, DEFAULT_SIZE_KEY) {
            self.set_size_default(prop_name, value);
            self.mark_size_default_override(prop_name);
            if self.parent_key.is_some() {
                self.mark_parent_override(prop_name);
            }
            return;
        }
        self.set_size_override(size, prop_name, value);
    }

    /// Mark the Common size value as explicitly supplied by the theme JSON (or by a user edit). This
    /// is distinct from the schema seed held in `size_props`.
    pub fn mark_size_default_override(&mut self, prop_name: &str)
        ensures
            final(self)@ == old(self)@.default_marked(prop_name@),
    {
        self.mark_size(DEFAULT_SIZE_KEY, prop_name);
    }

    fn mark_size(&mut self, size: &str, prop_name: &str)
        ensures
            final(self)@ == (ThemeData {
                size_overrides: old(self)@.size_marked(size@, prop_name@),
                ..old(self)@
            }),
    {
        if !self.size_overrides.contains_key(size) {
            self.size_overrides.insert(owned(size), TextSet::new());
        }
        self.size_overrides.slot_mut(size).insert(owned(prop_name));
        assert(self@.size_overrides =~= old(self)@.size_marked(size@, prop_name@));
    }

    fn unmark_size(&mut self, size: &str, prop_name: &str)
        ensures
            final(self)@ == (ThemeData {
                size_overrides: old(self)@.size_unmarked(size@, prop_name@),
                ..old(self)@
            }),
    {
        if self.size_overrides.contains_key(size) {
            self.size_overrides.slot_mut(size).remove(prop_name);
        }
    }

    fn set_size_prop_value(&mut self, size: &str, prop_name: &str, value: PropertyValue)
        ensures
            final(self)@ == (ThemeData {
                size_props: with_size_value(old(self)@.size_props, size@, prop_name@, value@),
                ..old(self)@
            }),
    {
        if self.size_props.contains_key(size) {
            self.size_props.slot_mut(size).insert(owned(prop_name), value);
        }
    }

    /// Set the Common base for a prop and cascade the new value into every concrete size that is
    /// currently inheriting (no override).
    pub fn set_size_default(&mut self, prop_name: &str, value: PropertyValue)
        ensures
            final(self)@ == old(self)@.size_default_set(prop_name@, value@),
    {
        let overrides = &self.size_overrides;
        let next = self.size_props.map_values(
            |size: &String, props: &TextMap<PropertyValue>| -> (u: TextMap<PropertyValue>)
                ensures
                    u@ == (if size@ == DEFAULT_SIZE_KEY@ || (overrides@.dom().contains(size@)
                        && !overrides@[size@].contains(prop_name@)) {
                        props@.insert(prop_name@, value@)
                    } else {
                        props@
                    })
                {
                    let mut u = props.duplicate();
                    let follows = text_eq(size.as_str(), DEFAULT_SIZE_KEY) || (match overrides.get(
                        size.as_str(),
                    ) {
                        Some(set) => !set.contains(prop_name),
                        None => false,
                    });
                    if follows {
                        u.insert(owned(prop_name), value.duplicate());
                    }
                    u
                },
        );
        assert(next@ =~= old(self)@.size_default_set(prop_name@, value@).size_props);
        self.size_props = next;
    }

    /// Clear a Common size value to a value.
    pub fn clear_size_default_to_value(&mut self, prop_name: &str, value: PropertyValue)
        ensures
            final(self)@ == old(self)@.size_default_set(prop_name@, value@),
    {
        self.set_size_default(prop_name, value);
    }

    /// Clear a Common size value back to the schema seed.
    pub fn clear_size_default(&mut self, prop_name: &str, tokens: &TokenStore)
        ensures
            final(self)@ == old(self)@.size_default_set(
                prop_name@,
                match first_prop(old(self)@.size_prop_defs, prop_name@) {
                    Some(p) => size_base(p),
                    None => Value::Float(Scalar { bits: 0 }),
                },
            ),
    {
        let default_value = match find_prop(&self.size_prop_defs, prop_name) {
            Some(i) => resolve_size_base(&self.size_prop_defs[i]),
            None => PropertyValue::Float(Scalar::zero()),
        };
        self.clear_size_default_to_value(prop_name, default_value);
    }

    /// Set a per-size override for a prop (marks the prop as overridden for that size; future Common
    /// edits won't cascade into it).
    pub fn set_size_override(&mut self, size: &str, prop_name: &str, value: PropertyValue)
        ensures
            final(self)@ == old(self)@.size_set(size@, prop_name@, value@),
    {
        self.set_size_prop_value(size, prop_name, value);
        self.mark_size(size, prop_name);
    }

    /// Clear a per-size override and re-inherit from the Common base.
    pub fn clear_size_override(&mut self, size: &str, prop_name: &str)
        ensures
            final(self)@ == old(self)@.size_cleared(size@, prop_name@),
    {
        self.unmark_size(size, prop_name);
        let base_value = duplicate_found(self.size_props.get2(DEFAULT_SIZE_KEY, prop_name));
        if let Some(value) = base_value {
            self.set_size_prop_value(size, prop_name, value);
        }
    }

    /// True when this child component has locally overridden the parent's Common value for the given
    /// prop (so live parent edits won't reach it).
    pub fn parent_prop_is_overridden(&self, prop_name: &str) -> (r: bool)
        ensures
            r == self@.parent_overrides.contains(prop_name@),
    {
        self.parent_overrides.contains(prop_name)
    }

    /// Mark a prop's Common value as locally overridden in this child.
    pub fn mark_parent_override(&mut self, prop_name: &str)
        ensures
            final(self)@ == (ThemeData {
                parent_overrides: old(self)@.parent_overrides.insert(prop_name@),
                ..old(self)@
            }),
    {
        self.parent_overrides.insert(owned(prop_name));
    }

    /// Drop the local parent-level override and re-inherit `parent_value` from the parent's current
    /// Common value. Also cascades within the child so per-size rows that inherit follow.
    pub fn clear_parent_override(&mut self, prop_name: &str, parent_value: PropertyValue)
        ensures
            final(self)@ == (ThemeData {
                parent_overrides: old(self)@.parent_overrides.remove(prop_name@),
                ..old(self)@
            }).size_default_set(prop_name@, parent_value@),
    {
        self.parent_overrides.remove(prop_name);
        self.set_size_default(prop_name, parent_value);
    }

    /// Get all variant property values for a variant+state as a flat list. Order matches
    /// variant_prop_defs.
    pub fn get_variant_state_values(&self, variant: &str, state: &str) -> (r: Vec<PropertyValue>)
        ensures
            textmap::views(r@) == (if self@.variant_props.dom().contains(variant@)
                && self@.variant_props[variant@].dom().contains(state@) {
                listed_values(self@.variant_prop_defs, self@.variant_props[variant@][state@])
            } else {
                Seq::empty()
            }),
    {
        match self.variant_props.get2(variant, state) {
            Some(props) => list_values(&self.variant_prop_defs, props),
            None => {
                let none: Vec<PropertyValue> = Vec::new();
                assert(textmap::views(none@) =~= Seq::<Value>::empty());
                none
            },
        }
    }

    /// Get all size property values for a size as a flat list. Order matches size_prop_defs.
    pub fn get_size_values(&self, size: &str) -> (r: Vec<PropertyValue>)
        ensures
            textmap::views(r@) == (if self@.size_props.dom().contains(size@) {
                listed_values(self@.size_prop_defs, self@.size_props[size@])
            } else {
                Seq::empty()
            }),
    {
        match self.size_props.get(size) {
            Some(props) => list_values(&self.size_prop_defs, props),
            None => {
                let none: Vec<PropertyValue> = Vec::new();
                assert(textmap::views(none@) =~= Seq::<Value>::empty());
                none
            },
        }
    }
}

/// The values of properties in the order of their definitions; zero for one that has none.
pub open spec fn listed_values(defs: Seq<PropModel>, props: Map<Seq<char>, Value>) -> Seq<Value> {
    Seq::new(
        defs.len(),
        |i: int|
            if props.dom().contains(defs[i].name) {
                props[defs[i].name]
            } else {
                Value::Float(Scalar { bits: 0 })
            },
    )
}

fn list_values(defs: &Vec<PropDefinition>, props: &TextMap<PropertyValue>) -> (r: Vec<PropertyValue>)
    ensures
        textmap::views(r@) == listed_values(textmap::views(defs@), props@),
{
    let r = textmap::map_all(
        defs,
        |d: &PropDefinition| -> (v: PropertyValue)
            ensures
                v@ == (if props@.dom().contains(d@.name) {
                    props@[d@.name]
                } else {
                    Value::Float(Scalar { bits: 0 })
                })
            {
                match props.get(d.name.as_str()) {
                    Some(v) => v.duplicate(),
                    None => PropertyValue::Float(Scalar::zero()),
                }
            },
    );
    assert(textmap::views(r@) =~= listed_values(textmap::views(defs@), props@));
    r
}

/// The index of the first property with a name: the number of properties where there is none.
pub open spec fn prop_index(props: Seq<PropModel>, name: Seq<char>) -> int
    decreases props.len(),
{
    if props.len() == 0 {
        0
    } else {
        let i = prop_index(props.drop_last(), name);
        if i < props.len() - 1 || props.last().name == name {
            i
        } else {
            props.len() as int
        }
    }
}

/// The first property with a name.
pub open spec fn first_prop(props: Seq<PropModel>, name: Seq<char>) -> Option<PropModel> {
    if prop_index(props, name) < props.len() {
        Some(props[prop_index(props, name)])
    } else {
        None
    }
}

/// What the first index of a name means.
pub proof fn prop_index_is(props: Seq<PropModel>, name: Seq<char>)
    ensures
        0 <= prop_index(props, name) <= props.len(),
        prop_index(props, name) < props.len() ==> props[prop_index(props, name)].name == name,
        forall|i: int| 0 <= i < prop_index(props, name) ==> (#[trigger] props[i]).name != name,
    decreases props.len(),
{
    if props.len() > 0 {
        prop_index_is(props.drop_last(), name);
        assert forall|i: int| 0 <= i < prop_index(props, name) implies (#[trigger] props[i]).name
            != name by {
            if i < props.len() - 1 {
                assert(props.drop_last()[i] == props[i]);
            }
        }
    }
}

/// The index of the first property with a name.
pub fn find_prop(props: &Vec<PropDefinition>, name: &str) -> (r: Option<usize>)
    ensures
        match r {
            Some(i) => i < props@.len() && i == prop_index(textmap::views(props@), name@)
                && first_prop(textmap::views(props@), name@) == Some(props@[i as int]@),
            None => prop_index(textmap::views(props@), name@) == props@.len() && first_prop(
                textmap::views(props@),
                name@,
            ) is None,
        },
{
    let ghost all = textmap::views(props@);
    proof {
        prop_index_is(all, name@);
    }
    for i in 0..props.len()
        invariant
            all == textmap::views(props@),
            prop_index(all, name@) <= props@.len(),
            prop_index(all, name@) < props@.len() ==> all[prop_index(all, name@)].name == name@,
            forall|j: int| 0 <= j < prop_index(all, name@) ==> (#[trigger] all[j]).name != name@,
            prop_index(all, name@) >= i,
    {
        if text_eq(props[i].name.as_str(), name) {
            assert(all[i as int].name == name@);
            return Some(i);
        }
        assert(all[i as int].name != name@);
    }
    None
}

// ---------------------------------------------------------------------------------------------
// Theme data of a plugin
// ---------------------------------------------------------------------------------------------
/// The last property with a name.
pub open spec fn last_prop(props: Seq<PropModel>, name: Seq<char>) -> Option<PropModel>
    decreases props.len(),
{
    if props.len() == 0 {
        None
    } else if props.last().name == name {
        Some(props.last())
    } else {
        last_prop(props.drop_last(), name)
    }
}

/// Values by property name. Of two properties with one name the later one counts.
pub open spec fn prop_values(props: Seq<PropModel>, f: spec_fn(PropModel) -> Value) -> Map<
    Seq<char>,
    Value,
> {
    Map::new(
        |n: Seq<char>| last_prop(props, n) is Some,
        |n: Seq<char>| f(last_prop(props, n)->Some_0),
    )
}

fn build_props<F: Fn(&PropDefinition) -> PropertyValue>(
    props: &Vec<PropDefinition>,
    f: F,
    Ghost(g): Ghost<spec_fn(PropModel) -> Value>,
) -> (r: TextMap<PropertyValue>)
    requires
        forall|d: &PropDefinition| f.requires((d,)),
        forall|d: &PropDefinition, v: PropertyValue| #[trigger] f.ensures((d,), v) ==> v@ == g(d@),
    ensures
        r@ == prop_values(textmap::views(props@), g),
{
    let mut out: TextMap<PropertyValue> = TextMap::new();
    let ghost all = textmap::views(props@);
    assert(out@ =~= prop_values(all.take(0), g));
    for i in 0..props.len()
        invariant
            all == textmap::views(props@),
            forall|d: &PropDefinition| f.requires((d,)),
            forall|d: &PropDefinition, v: PropertyValue| #[trigger]
                f.ensures((d,), v) ==> v@ == g(d@),
            out@ == prop_values(all.take(i as int), g),
    {
        let value = f(&props[i]);
        out.insert(props[i].name.clone(), value);
        proof {
            assert(all.take(i + 1).drop_last() =~= all.take(i as int));
            assert(all.take(i + 1).last() == all[i as int]);
            assert(out@ =~= prop_values(all.take(i + 1), g));
        }
    }
    assert(all.take(props@.len() as int) =~= all);
    out
}

/// The Common variant of a plugin: its first one.
pub open spec fn common_of(plugin: PluginModel) -> Option<Seq<char>> {
    if plugin.variants.len() > 0 {
        Some(plugin.variants[0])
    } else {
        None
    }
}

/// The values of a plugin's variant in its states, before any edit.
pub open spec fn seeded_states(plugin: PluginModel, variant: Seq<char>) -> Map<
    Seq<char>,
    Map<Seq<char>, Value>,
> {
    Map::new(
        |s: Seq<char>| plugin.states.contains(s),
        |s: Seq<char>|
            prop_values(
                plugin.variant_props,
                |p: PropModel| variant_default(p, common_of(plugin), variant, s),
            ),
    )
}

/// The values of a plugin's variants, before any edit.
pub open spec fn seeded_variants(plugin: PluginModel) -> VariantValues {
    Map::new(
        |v: Seq<char>| plugin.variants.contains(v),
        |v: Seq<char>| seeded_states(plugin, v),
    )
}

/// Whether a property starts out as an override in a variant and a state: it is not the root, one of
/// its definitions declares a default for the variant, and its value differs from what it would
/// inherit.
pub open spec fn seeds_override(
    d: ThemeData,
    defs: Seq<PropModel>,
    variant: Seq<char>,
    state: Seq<char>,
    name: Seq<char>,
) -> bool {
    &&& !d.is_root(variant, state)
    &&& exists|i: int|
        0 <= i < defs.len() && (#[trigger] defs[i]).name == name && defs[i].defaults.dom().contains(
            variant,
        )
    &&& match (variant_value(d.variant_props, variant, state, name), d.inherited(variant, state, name)) {
        (Some(v), Some(f)) => !value::same_value(v, f),
        _ => false,
    }
}

/// The values of a plugin's sizes, before any edit. The Common row holds the Common values, also where
/// the plugin lists a size under its key.
pub open spec fn seeded_sizes(plugin: PluginModel) -> SizeValues {
    Map::new(
        |s: Seq<char>| s == DEFAULT_SIZE_KEY@ || plugin.sizes.contains(s),
        |s: Seq<char>|
            if s != DEFAULT_SIZE_KEY@ && plugin.sizes.contains(s) {
                prop_values(plugin.size_props, |p: PropModel| size_default(p, s))
            } else {
                prop_values(plugin.size_props, |p: PropModel| size_base(p))
            },
    )
}

/// Whether a size property starts out as an override in a size: one of its definitions declares a
/// default for the size that differs from the Common value.
pub open spec fn seeds_size_override(defs: Seq<PropModel>, size: Seq<char>, name: Seq<char>) -> bool {
    exists|i: int|
        0 <= i < defs.len() && (#[trigger] defs[i]).name == name && defs[i].defaults.dom().contains(
            size,
        ) && !value::same_value(size_base(last_prop(defs, name)->Some_0), size_default(defs[i], size))
}

/// The overrides of a plugin's sizes, before any edit.
pub open spec fn seeded_size_flags(plugin: PluginModel) -> SizeFlags {
    Map::new(
        |s: Seq<char>| s == DEFAULT_SIZE_KEY@ || plugin.sizes.contains(s),
        |s: Seq<char>|
            if s != DEFAULT_SIZE_KEY@ && plugin.sizes.contains(s) {
                Set::new(|n: Seq<char>| seeds_size_override(plugin.size_props, s, n))
            } else {
                Set::empty()
            },
    )
}

/// The theme data of a plugin without the record of the variants' overrides.
pub open spec fn plain_data(plugin: PluginModel) -> ThemeData {
    ThemeData {
        variant_props: seeded_variants(plugin),
        variant_overrides: Map::empty(),
        size_props: seeded_sizes(plugin),
        size_overrides: seeded_size_flags(plugin),
        parent_key: plugin.parent_key,
        parent_overrides: Set::empty(),
        common_variant_key: common_of(plugin),
        states: plugin.states,
        variant_prop_defs: plugin.variant_props,
        size_prop_defs: plugin.size_props,
    }
}

/// The overrides of a plugin's variants, before any edit.
pub open spec fn seeded_flags(plugin: PluginModel) -> VariantFlags {
    let d = plain_data(plugin);
    Map::new(
        |v: Seq<char>| plugin.states.len() > 0 && plugin.variants.contains(v),
        |v: Seq<char>|
            Map::new(
                |s: Seq<char>| plugin.states.contains(s),
                |s: Seq<char>|
                    Set::new(|n: Seq<char>| seeds_override(d, plugin.variant_props, v, s, n)),
            ),
    )
}

/// The theme data of a plugin, before any edit.
pub open spec fn seeded_data(plugin: PluginModel) -> ThemeData {
    ThemeData { variant_overrides: seeded_flags(plugin), ..plain_data(plugin) }
}

impl ComponentThemeData {
    fn seeded_names(&self, defs: &Vec<PropDefinition>, variant: &str, state: &str) -> (r: TextSet)
        ensures
            r@ == Set::new(
                |n: Seq<char>|
                    seeds_override(self@, textmap::views(defs@), variant@, state@, n),
            ),
    {
        let mut out = TextSet::new();
        let ghost all = textmap::views(defs@);
        let ghost goal = Set::new(
            |n: Seq<char>| seeds_override(self@, all, variant@, state@, n),
        );
        if self.variant_state_is_root(variant, state) {
            assert(out@ =~= goal);
            return out;
        }
        for i in 0..defs.len()
            invariant
                all == textmap::views(defs@),
                !self@.is_root(variant@, state@),
                forall|n: Seq<char>| #[trigger]
                    out@.contains(n) <==> seeds_override(
                        self@,
                        all.take(i as int),
                        variant@,
                        state@,
                        n,
                    ),
        {
            let def = &defs[i];
            let name = def.name.as_str();
            let ghost before = out@;
            if def.defaults.values.contains_key(variant) {
                if let Some(v) = get3(&self.variant_props, variant, state, name) {
                    if let Some(f) = self.variant_immediate_fallback_value(variant, state, name) {
                        if !v.same(&f) {
                            out.insert(def.name.clone());
                        }
                    }
                }
            }
            proof {
                let front = all.take(i as int);
                let more = all.take(i + 1);
                assert(more =~= front.push(all[i as int]));
                assert forall|n: Seq<char>| #[trigger] out@.contains(n) <==> seeds_override(
                    self@,
                    more,
                    variant@,
                    state@,
                    n,
                ) by {
                    assert(before.contains(n) <==> seeds_override(self@, front, variant@, state@, n));
                    if seeds_override(self@, front, variant@, state@, n) {
                        let k = choose|k: int|
                            0 <= k < front.len() && (#[trigger] front[k]).name == n
                                && front[k].defaults.dom().contains(variant@);
                        assert(more[k] == front[k]);
                    }
                    if seeds_override(self@, more, variant@, state@, n) {
                        let k = choose|k: int|
                            0 <= k < more.len() && (#[trigger] more[k]).name == n
                                && more[k].defaults.dom().contains(variant@);
                        if k < i {
                            assert(front[k] == more[k]);
                        }
                    }
                    if n == all[i as int].name {
                        assert(more[i as int] == all[i as int]);
                    }
                }
            }
        }
        proof {
            assert(all.take(defs@.len() as int) =~= all);
            assert(out@ =~= goal);
        }
        out
    }

    /// Create theme data from a plugin definition.
    pub fn from_plugin(plugin: &PluginDefinition, tokens: &TokenStore) -> (r: Self)
        ensures
            r@ == seeded_data(plugin@),
    {
        let common: Option<String> = if plugin.variants.len() > 0 {
            Some(plugin.variants[0].clone())
        } else {
            None
        };
        assert(style::text_view(common) == common_of(plugin@));
        let common_text: Option<&str> = match &common {
            Some(c) => Some(c.as_str()),
            None => None,
        };
        let variant_props = TextMap::keyed(
            &plugin.variants,
            |variant: &String| -> (states: TextMap<TextMap<PropertyValue>>)
                ensures
                    states@ == seeded_states(plugin@, variant@)
            { seed_states(plugin, common_text, variant) },
        );
        assert(variant_props@ =~= seeded_variants(plugin@));
        let mut data = ComponentThemeData {
            variant_props,
            variant_overrides: TextMap::new(),
            size_props: seed_sizes(plugin),
            size_overrides: seed_size_flags(plugin),
            parent_key: copy_text(&plugin.parent_key),
            parent_overrides: TextSet::new(),
            common_variant_key: copy_text(&common),
            states: duplicate_all(&plugin.states),
            variant_prop_defs: duplicate_all(&plugin.variant_props),
            size_prop_defs: duplicate_all(&plugin.size_props),
        };
        assert(data@ =~= plain_data(plugin@));
        if plugin.states.len() > 0 {
            let flags = data.seed_variant_override_flags_from_defaults(plugin);
            data.variant_overrides = flags;
        } else {
            assert(seeded_flags(plugin@) =~= Map::<
                Seq<char>,
                Map<Seq<char>, Set<Seq<char>>>,
            >::empty());
        }
        data
    }

    fn seed_variant_override_flags_from_defaults(&self, plugin: &PluginDefinition) -> (r: TextMap<
        TextMap<TextSet>,
    >)
        requires
            self@ == plain_data(plugin@),
            plugin@.states.len() > 0,
        ensures
            r@ == seeded_flags(plugin@),
    {
        let flags = TextMap::keyed(
            &plugin.variants,
            |variant: &String| -> (states: TextMap<TextSet>)
                ensures
                    states@ == Map::new(
                        |s: Seq<char>| plugin@.states.contains(s),
                        |s: Seq<char>|
                            Set::new(
                                |n: Seq<char>|
                                    seeds_override(
                                        plain_data(plugin@),
                                        plugin@.variant_props,
                                        variant@,
                                        s,
                                        n,
                                    ),
                            ),
                    )
            { self.seed_state_flags(plugin, variant) },
        );
        assert(flags@ =~= seeded_flags(plugin@));
        flags
    }

    fn seed_state_flags(&self, plugin: &PluginDefinition, variant: &String) -> (r: TextMap<TextSet>)
        requires
            self@ == plain_data(plugin@),
        ensures
            r@ == Map::new(
                |s: Seq<char>| plugin@.states.contains(s),
                |s: Seq<char>|
                    Set::new(
                        |n: Seq<char>|
                            seeds_override(
                                plain_data(plugin@),
                                plugin@.variant_props,
                                variant@,
                                s,
                                n,
                            ),
                    ),
            ),
    {
        let r = TextMap::keyed(
            &plugin.states,
            |state: &String| -> (names: TextSet)
                ensures
                    names@ == Set::new(
                        |n: Seq<char>|
                            seeds_override(
                                plain_data(plugin@),
                                plugin@.variant_props,
                                variant@,
                                state@,
                                n,
                            ),
                    )
            { self.seeded_names(&plugin.variant_props, variant.as_str(), state.as_str()) },
        );
        assert(r@ =~= Map::new(
            |s: Seq<char>| plugin@.states.contains(s),
            |s: Seq<char>|
                Set::new(
                    |n: Seq<char>|
                        seeds_override(plain_data(plugin@), plugin@.variant_props, variant@, s, n),
                ),
        ));
        r
    }
}

fn seed_states(plugin: &PluginDefinition, common: Option<&str>, variant: &String) -> (r: TextMap<
    TextMap<PropertyValue>,
>)
    requires
        schema::option_view(common) == common_of(plugin@),
    ensures
        r@ == seeded_states(plugin@, variant@),
{
    let r = TextMap::keyed(
        &plugin.states,
        |state: &String| -> (props: TextMap<PropertyValue>)
            ensures
                props@ == prop_values(
                    plugin@.variant_props,
                    |p: PropModel| variant_default(p, common_of(plugin@), variant@, state@),
                )
        {
            build_props(
                &plugin.variant_props,
                |d: &PropDefinition| -> (v: PropertyValue)
                    ensures
                        v@ == variant_default(d@, common_of(plugin@), variant@, state@)
                { resolve_variant_default(d, common, variant.as_str(), state.as_str()) },
                Ghost(|p: PropModel| variant_default(p, common_of(plugin@), variant@, state@)),
            )
        },
    );
    assert(r@ =~= seeded_states(plugin@, variant@));
    r
}

fn seed_sizes(plugin: &PluginDefinition) -> (r: TextMap<TextMap<PropertyValue>>)
    ensures
        r@ == seeded_sizes(plugin@),
{
    let mut sizes = TextMap::keyed(
        &plugin.sizes,
        |size: &String| -> (props: TextMap<PropertyValue>)
            ensures
                props@ == prop_values(
                    plugin@.size_props,
                    |p: PropModel| size_default(p, size@),
                )
        {
            build_props(
                &plugin.size_props,
                |d: &PropDefinition| -> (v: PropertyValue)
                    ensures
                        v@ == size_default(d@, size@)
                { resolve_size_default(d, size.as_str()) },
                Ghost(|p: PropModel| size_default(p, size@)),
            )
        },
    );
    let base = build_props(
        &plugin.size_props,
        |d: &PropDefinition| -> (v: PropertyValue)
            ensures
                v@ == size_base(d@)
        { resolve_size_base(d) },
        Ghost(|p: PropModel| size_base(p)),
    );
    sizes.insert(owned(DEFAULT_SIZE_KEY), base);
    assert(sizes@ =~= seeded_sizes(plugin@));
    sizes
}

fn find_last_prop(props: &Vec<PropDefinition>, name: &str) -> (r: Option<usize>)
    ensures
        match r {
            Some(i) => i < props@.len() && last_prop(textmap::views(props@), name@) == Some(
                props@[i as int]@,
            ),
            None => last_prop(textmap::views(props@), name@) is None,
        },
{
    let mut out: Option<usize> = None;
    let ghost all = textmap::views(props@);
    for i in 0..props.len()
        invariant
            all == textmap::views(props@),
            match out {
                Some(k) => k < i && last_prop(all.take(i as int), name@) == Some(all[k as int]),
                None => last_prop(all.take(i as int), name@) is None,
            },
    {
        proof {
            assert(all.take(i + 1).drop_last() =~= all.take(i as int));
            assert(all.take(i + 1).last() == all[i as int]);
        }
        if text_eq(props[i].name.as_str(), name) {
            out = Some(i);
        }
    }
    assert(all.take(props@.len() as int) =~= all);
    out
}

fn seeded_size_names(defs: &Vec<PropDefinition>, size: &str) -> (r: TextSet)
    ensures
        r@ == Set::new(
            |n: Seq<char>| seeds_size_override(textmap::views(defs@), size@, n),
        ),
{
    let mut out = TextSet::new();
    let ghost all = textmap::views(defs@);
    for i in 0..defs.len()
        invariant
            all == textmap::views(defs@),
            forall|n: Seq<char>| #[trigger]
                out@.contains(n) <==> exists|k: int|
                    0 <= k < i && (#[trigger] all[k]).name == n && all[k].defaults.dom().contains(
                        size@,
                    ) && !value::same_value(
                        size_base(last_prop(all, n)->Some_0),
                        size_default(all[k], size@),
                    ),
    {
        let def = &defs[i];
        let ghost before = out@;
        proof {
            lemma_last_prop(all, i as int);
        }
        if def.defaults.values.contains_key(size) {
            if let Some(k) = find_last_prop(defs, def.name.as_str()) {
                let base = resolve_size_base(&defs[k]);
                let value = resolve_size_default(def, size);
                if !base.same(&value) {
                    out.insert(def.name.clone());
                }
            }
        }
        proof {
            assert forall|n: Seq<char>| #[trigger] out@.contains(n) <==> exists|k: int|
                0 <= k < i + 1 && (#[trigger] all[k]).name == n && all[k].defaults.dom().contains(
                    size@,
                ) && !value::same_value(
                    size_base(last_prop(all, n)->Some_0),
                    size_default(all[k], size@),
                ) by {
                assert(before.contains(n) ==> out@.contains(n));
                if out@.contains(n) && !before.contains(n) {
                    assert(all[i as int].name == n);
                }
            }
        }
    }
    assert(out@ =~= Set::new(|n: Seq<char>| seeds_size_override(all, size@, n)));
    out
}

proof fn lemma_last_prop(props: Seq<PropModel>, i: int)
    requires
        0 <= i < props.len(),
    ensures
        last_prop(props, props[i].name) is Some,
    decreases props.len(),
{
    if props.last().name != props[i].name {
        assert(props.drop_last()[i] == props[i]);
        lemma_last_prop(props.drop_last(), i);
    }
}

fn seed_size_flags(plugin: &PluginDefinition) -> (r: TextMap<TextSet>)
    ensures
        r@ == seeded_size_flags(plugin@),
{
    let mut flags = TextMap::keyed(
        &plugin.sizes,
        |size: &String| -> (names: TextSet)
            ensures
                names@ == Set::new(
                    |n: Seq<char>| seeds_size_override(plugin@.size_props, size@, n),
                )
        { seeded_size_names(&plugin.size_props, size.as_str()) },
    );
    flags.insert(owned(DEFAULT_SIZE_KEY), TextSet::new());
    assert(flags@ =~= seeded_size_flags(plugin@));
    flags
}

// ---------------------------------------------------------------------------------------------
// Inheritance between components
// ---------------------------------------------------------------------------------------------
/// The first of some keys that a component's name stands for: case, underscores and hyphens aside,
/// the two are the same.
pub open spec fn matching_key(keys: Seq<Seq<char>>, name: Seq<char>) -> Option<Seq<char>>
    decreases keys.len(),
{
    if keys.len() == 0 {
        None
    } else {
        let before = matching_key(keys.drop_last(), name);
        if before is Some {
            before
        } else if text::plain_name(keys.last()) == text::plain_name(name) {
            Some(keys.last())
        } else {
            None
        }
    }
}

/// The key of the component that a text stands for: the component of that key, else the first of that
/// name.
pub open spec fn key_named(themes: Map<Seq<char>, ThemeData>, name: Seq<char>) -> Option<Seq<char>> {
    if themes.dom().contains(name) {
        Some(name)
    } else {
        matching_key(textmap::sorted_keys(themes), name)
    }
}

/// Whether a component takes the Common value of a property from a given parent.
pub open spec fn takes_from(
    themes: Map<Seq<char>, ThemeData>,
    prop: Seq<char>,
    key: Seq<char>,
    parent: Seq<char>,
) -> bool {
    themes.dom().contains(key) && !themes[key].parent_overrides.contains(prop)
        && themes[key].parent_key == Some(parent)
}

/// The key of the component whose Common value of a property a component follows.
pub open spec fn followed_key(themes: Map<Seq<char>, ThemeData>, prop: Seq<char>) -> spec_fn(
    Seq<char>,
) -> Option<Seq<char>> {
    |k: Seq<char>|
        if themes.dom().contains(k) && !themes[k].parent_overrides.contains(prop) {
            match themes[k].parent_key {
                Some(name) => key_named(themes, name),
                None => None,
            }
        } else {
            None
        }
}

/// Whether the component that is some steps up from another takes a property from a given parent.
pub open spec fn takes_after(
    themes: Map<Seq<char>, ThemeData>,
    prop: Seq<char>,
    key: Seq<char>,
    steps: nat,
    parent: Seq<char>,
) -> bool {
    match chain::walk(followed_key(themes, prop), key, steps) {
        Some(k) => takes_from(themes, prop, k, parent),
        None => false,
    }
}

/// Whether a component follows another in a property, directly or through others.
pub open spec fn descends(
    themes: Map<Seq<char>, ThemeData>,
    prop: Seq<char>,
    key: Seq<char>,
    ancestor: Seq<char>,
) -> bool {
    exists|n: nat| #[trigger] takes_after(themes, prop, key, n, ancestor)
}

/// The themes with the Common value of a property set in every component that follows another.
pub open spec fn cascaded_default(
    themes: Map<Seq<char>, ThemeData>,
    parent: Seq<char>,
    prop: Seq<char>,
    v: Value,
) -> Map<Seq<char>, ThemeData> {
    Map::new(
        |k: Seq<char>| themes.dom().contains(k),
        |k: Seq<char>|
            if descends(themes, prop, k, parent) {
                themes[k].size_default_set(prop, v)
            } else {
                themes[k]
            },
    )
}

fn text_seen(visited: &Vec<String>, key: &str) -> (r: Option<usize>)
    ensures
        match r {
            Some(i) => i < visited@.len() && textmap::views(visited@)[i as int] == key@,
            None => !textmap::views(visited@).contains(key@),
        },
{
    for i in 0..visited.len()
        invariant
            forall|j: int| 0 <= j < i ==> #[trigger] textmap::views(visited@)[j] != key@,
    {
        if text_eq(visited[i].as_str(), key) {
            return Some(i);
        }
    }
    None
}

proof fn lemma_matching_stays(keys: Seq<Seq<char>>, n: int, name: Seq<char>)
    requires
        0 <= n <= keys.len(),
        matching_key(keys.take(n), name) is Some,
    ensures
        matching_key(keys, name) == matching_key(keys.take(n), name),
    decreases keys.len() - n,
{
    if n < keys.len() {
        assert(keys.take(n + 1).drop_last() =~= keys.take(n));
        lemma_matching_stays(keys, n + 1, name);
    } else {
        assert(keys.take(n) =~= keys);
    }
}

fn find_key_named(themes: &TextMap<ComponentThemeData>, name: &str) -> (r: Option<String>)
    ensures
        style::text_view(r) == key_named(themes@, name@),
        r matches Some(k) ==> themes@.dom().contains(k@),
{
    if themes.contains_key(name) {
        return Some(owned(name));
    }
    let plain = to_plain_name(name);
    let n: usize = themes.len();
    let ghost keys = textmap::sorted_keys(themes@);
    for i in 0..n
        invariant
            keys == textmap::sorted_keys(themes@),
            n == keys.len(),
            plain@ == text::plain_name(name@),
            !themes@.dom().contains(name@),
            matching_key(keys.take(i as int), name@) is None,
    {
        proof {
            assert(keys.take(i + 1).drop_last() =~= keys.take(i as int));
            assert(keys.take(i + 1).last() == keys[i as int]);
        }
        let key = themes.key_at(i);
        let plain_key = to_plain_name(key.as_str());
        if text_eq(plain_key.as_str(), plain.as_str()) {
            proof {
                lemma_matching_stays(keys, i + 1, name@);
            }
            return Some(key.clone());
        }
    }
    assert(keys.take(n as int) =~= keys);
    None
}

fn component_descends(
    themes: &TextMap<ComponentThemeData>,
    prop_name: &str,
    key: &str,
    ancestor: &str,
) -> (r: bool)
    ensures
        r == descends(themes@, prop_name@, key@, ancestor@),
{
    let ghost next = followed_key(themes@, prop_name@);
    let mut visited: Vec<String> = Vec::new();
    let mut current = owned(key);
    proof {
        textmap::keys_finite(*themes);
    }
    loop
        invariant
            next == followed_key(themes@, prop_name@),
            themes@.dom().finite(),
            textmap::views(visited@).no_duplicates(),
            forall|i: int|
                0 <= i < visited@.len() ==> themes@.dom().contains(
                    #[trigger] textmap::views(visited@)[i],
                ) && chain::walk(next, key@, i as nat) == Some(textmap::views(visited@)[i])
                    && !takes_from(
                    themes@,
                    prop_name@,
                    textmap::views(visited@)[i],
                    ancestor@,
                ),
            chain::walk(next, key@, visited@.len()) == Some(current@),
        decreases themes@.dom().len() - visited@.len(),
    {
        let ghost n = visited@.len();
        let ghost here = current@;
        let ghost before = textmap::views(visited@);
        if let Some(i) = text_seen(&visited, current.as_str()) {
            proof {
                assert forall|m: nat| !#[trigger] takes_after(
                    themes@,
                    prop_name@,
                    key@,
                    m,
                    ancestor@,
                ) by {
                    let k = chain::circle_covers(next, key@, i as nat, n, m);
                    assert(chain::walk(next, key@, k) == Some(before[k as int]));
                }
            }
            return false;
        }
        let parent: Option<String> = match themes.get(current.as_str()) {
            Some(d) => if d.parent_prop_is_overridden(prop_name) {
                None
            } else {
                copy_text(&d.parent_key)
            },
            None => None,
        };
        let followed: Option<String> = match &parent {
            Some(p) => {
                if text_eq(p.as_str(), ancestor) {
                    assert(takes_after(themes@, prop_name@, key@, n, ancestor@));
                    return true;
                }
                find_key_named(themes, p.as_str())
            },
            None => None,
        };
        assert(style::text_view(followed) == next(here));
        assert(!takes_from(themes@, prop_name@, here, ancestor@));
        match followed {
            None => {
                proof {
                    assert(chain::stops_after(next, key@, n));
                    assert forall|m: nat| !#[trigger] takes_after(
                        themes@,
                        prop_name@,
                        key@,
                        m,
                        ancestor@,
                    ) by {
                        if m > n {
                            chain::walk_past_end(next, key@, n, m);
                        } else if m < n {
                            assert(chain::walk(next, key@, m) == Some(before[m as int]));
                        }
                    }
                }
                return false;
            },
            Some(k) => {
                assert(chain::walk(next, key@, (n + 1) as nat) == Some(k@));
                visited.push(current);
                proof {
                    let after = textmap::views(visited@);
                    assert(after =~= before.push(here));
                    assert forall|i: int| 0 <= i < after.len() implies themes@.dom().contains(
                        #[trigger] after[i],
                    ) && chain::walk(next, key@, i as nat) == Some(after[i]) && !takes_from(
                        themes@,
                        prop_name@,
                        after[i],
                        ancestor@,
                    ) by {
                        if i < n {
                            assert(after[i] == before[i]);
                        }
                    }
                    crate::tokens::distinct_within(after, themes@.dom());
                }
                current = k;
            },
        }
    }
}

/// Cross-component live cascade for a Common-base edit: every component that follows `parent_key` in
/// this property, directly or through others, gets its own Common value updated (which then cascades
/// within that component to every per-size row that is still inheriting). Components give their
/// parents by name; from there the chain goes on at the key that the name stands for.
pub fn cascade_default_to_children(
    themes: &mut TextMap<ComponentThemeData>,
    parent_key: &str,
    prop_name: &str,
    value: &PropertyValue,
)
    ensures
        final(themes)@ == cascaded_default(old(themes)@, parent_key@, prop_name@, value@),
{
    let next = {
        let all = &*themes;
        all.map_values(
            |key: &String, data: &ComponentThemeData| -> (u: ComponentThemeData)
                ensures
                    u@ == (if descends(all@, prop_name@, key@, parent_key@) {
                        data@.size_default_set(prop_name@, value@)
                    } else {
                        data@
                    })
            {
                let mut u = data.duplicate();
                if component_descends(all, prop_name, key.as_str(), parent_key) {
                    u.set_size_default(prop_name, value.duplicate());
                }
                u
            },
        )
    };
    assert(next@ =~= cascaded_default(old(themes)@, parent_key@, prop_name@, value@));
    *themes = next;
}

// ---------------------------------------------------------------------------------------------
// What holds of edits
// ---------------------------------------------------------------------------------------------
/// Once a property's inheritance has been applied, every value that is not marked as an override is
/// the one it inherits.
pub proof fn unmarked_value_is_inherited(
    d: ThemeData,
    prop: Seq<char>,
    variant: Seq<char>,
    state: Seq<char>,
)
    requires
        d.common_variant_key is Some,
        d.variant_props.dom().contains(variant),
        d.variant_props[variant].dom().contains(state),
        !variant_flagged(d.variant_overrides, variant, state, prop),
        d.reinherited(prop).inherited(variant, state, prop) is Some,
    ensures
        variant_value(d.reinherited(prop).variant_props, variant, state, prop)
            == d.reinherited(prop).inherited(variant, state, prop),
{
    let e = d.reinherited(prop);
    let common = d.common_variant_key->Some_0;
    assert(e.variant_props[variant] == d.settled_states(variant, prop));
    if state != NORMAL_STATE_KEY@ {
        assert(e.variant_props[variant].dom().contains(NORMAL_STATE_KEY@));
    } else {
        assert(e.variant_props.dom().contains(common));
        assert(e.variant_props[common] == d.settled_states(common, prop));
    }
}

/// Applying a property's inheritance leaves every marked value, and the Common variant's normal one,
/// as it was.
pub proof fn marked_value_stays(
    d: ThemeData,
    prop: Seq<char>,
    variant: Seq<char>,
    state: Seq<char>,
)
    requires
        variant_flagged(d.variant_overrides, variant, state, prop) || d.is_root(variant, state),
    ensures
        variant_value(d.reinherited(prop).variant_props, variant, state, prop) == variant_value(
            d.variant_props,
            variant,
            state,
            prop,
        ),
{
}

/// Applying a property's inheritance leaves the other properties as they were.
pub proof fn other_props_stay(
    d: ThemeData,
    prop: Seq<char>,
    variant: Seq<char>,
    state: Seq<char>,
    other: Seq<char>,
)
    requires
        other != prop,
    ensures
        variant_value(d.reinherited(prop).variant_props, variant, state, other) == variant_value(
            d.variant_props,
            variant,
            state,
            other,
        ),
{
}

/// A value that is set is the one that is read, unless it is equal to what is inherited.
pub proof fn set_variant_value_is_read(
    d: ThemeData,
    variant: Seq<char>,
    state: Seq<char>,
    prop: Seq<char>,
    v: Value,
)
    requires
        d.variant_props.dom().contains(variant),
        d.variant_props[variant].dom().contains(state),
        d.becomes_override(variant, state, prop, v),
    ensures
        variant_value(d.variant_set(variant, state, prop, v).variant_props, variant, state, prop)
            == Some(v),
        variant_flagged(d.variant_set(variant, state, prop, v).variant_overrides, variant, state, prop),
{
    let e = d.with_resolved(variant, state, prop, v, true);
    assert(variant_flagged(e.variant_overrides, variant, state, prop));
    marked_value_stays(e, prop, variant, state);
}

/// Clearing an override takes away its mark and gives it the value that it inherits.
pub proof fn cleared_variant_is_inherited(
    d: ThemeData,
    variant: Seq<char>,
    state: Seq<char>,
    prop: Seq<char>,
)
    requires
        d.common_variant_key is Some,
        d.variant_props.dom().contains(variant),
        d.variant_props[variant].dom().contains(state),
        d.inherited(variant, state, prop) is Some,
    ensures
        !variant_flagged(d.variant_cleared(variant, state, prop).variant_overrides, variant, state, prop),
        variant_value(d.variant_cleared(variant, state, prop).variant_props, variant, state, prop)
            == d.variant_cleared(variant, state, prop).inherited(variant, state, prop),
        d.variant_cleared(variant, state, prop).inherited(variant, state, prop) is Some,
{
    let v = d.inherited(variant, state, prop)->Some_0;
    let e = d.with_resolved(variant, state, prop, v, false);
    let after = e.reinherited(prop);
    let common = d.common_variant_key->Some_0;
    assert(after.variant_props[variant] == e.settled_states(variant, prop));
    if state != NORMAL_STATE_KEY@ {
        assert(variant_value(e.variant_props, variant, NORMAL_STATE_KEY@, prop) == variant_value(
            d.variant_props,
            variant,
            NORMAL_STATE_KEY@,
            prop,
        ));
        assert(after.variant_props[variant].dom().contains(NORMAL_STATE_KEY@));
        assert(e.settled_normal(variant, prop) is Some);
    } else {
        assert(common != variant);
        assert(after.variant_props[common] == e.settled_states(common, prop));
    }
    unmarked_value_is_inherited(e, prop, variant, state);
}

/// A Common edit reaches the Common row and the sizes that follow it, and no other size.
pub proof fn size_default_reaches_followers(d: ThemeData, prop: Seq<char>, v: Value, size: Seq<char>)
    requires
        d.size_props.dom().contains(size),
    ensures
        size == DEFAULT_SIZE_KEY@ || d.follows(size, prop) ==> textmap::at2(
            d.size_default_set(prop, v).size_props,
            size,
            prop,
        ) == Some(v),
        size != DEFAULT_SIZE_KEY@ && !d.follows(size, prop) ==> d.size_default_set(prop, v).size_props[size]
            == d.size_props[size],
{
}

/// A size whose value has been set keeps it through every later edit of the Common value, also where
/// the two were the same.
pub proof fn set_size_stays(
    d: ThemeData,
    size: Seq<char>,
    prop: Seq<char>,
    v: Value,
    common: Value,
)
    requires
        size != DEFAULT_SIZE_KEY@,
        d.size_props.dom().contains(size),
    ensures
        size_flagged(d.size_set(size, prop, v).size_overrides, size, prop),
        textmap::at2(d.size_set(size, prop, v).size_default_set(prop, common).size_props, size, prop)
            == Some(v),
{
}

/// Whether two values are the same or compare as equal.
pub open spec fn alike(a: Option<Value>, b: Option<Value>) -> bool {
    a == b || (a is Some && b is Some && value::same_value(a->Some_0, b->Some_0))
}

/// Whether a size either has the Common value of a property or is marked as an override there.
pub open spec fn size_in_line(d: ThemeData, size: Seq<char>, prop: Seq<char>) -> bool {
    &&& d.size_props.dom().contains(DEFAULT_SIZE_KEY@)
    &&& d.size_props.dom().contains(size)
    &&& d.size_overrides.dom().contains(size)
    &&& size_flagged(d.size_overrides, size, prop) || alike(
        d.base(prop),
        textmap::at2(d.size_props, size, prop),
    )
}

/// Before any edit every size of a plugin has the Common value of a property or is marked as an
/// override there.
pub proof fn seeded_size_is_in_line(plugin: PluginModel, size: Seq<char>, prop: PropModel)
    requires
        size != DEFAULT_SIZE_KEY@,
        plugin.sizes.contains(size),
        plugin.size_props.contains(prop),
    ensures
        size_in_line(seeded_data(plugin), size, prop.name),
        seeded_data(plugin).base(prop.name) is Some,
        textmap::at2(seeded_data(plugin).size_props, size, prop.name) is Some,
{
    let k = choose|k: int| 0 <= k < plugin.size_props.len() && plugin.size_props[k] == prop;
    lemma_last_prop(plugin.size_props, k);
    let i = lemma_last_prop_at(plugin.size_props, prop.name);
    let last = plugin.size_props[i];
    if last.defaults.dom().contains(size) && !value::same_value(size_base(last), size_default(last, size)) {
        assert(seeds_size_override(plugin.size_props, size, prop.name));
    }
}

/// Every edit of sizes keeps each size with the Common value or a mark: of the Common value, of a
/// size, of either by a file, and the reset of a size to the Common value.
pub proof fn edits_keep_sizes_in_line(
    d: ThemeData,
    at: Seq<char>,
    at_prop: Seq<char>,
    size: Seq<char>,
    prop: Seq<char>,
    v: Value,
)
    requires
        at != DEFAULT_SIZE_KEY@,
        size_in_line(d, at, at_prop),
    ensures
        size_in_line(d.size_default_set(prop, v), at, at_prop),
        size != DEFAULT_SIZE_KEY@ ==> size_in_line(d.size_set(size, prop, v), at, at_prop),
        size_in_line(d.size_imported(size, prop, v), at, at_prop),
        d.base(prop) is Some ==> size_in_line(d.size_cleared(size, prop), at, at_prop),
{
}

/// Before any edit every value of a variant and a state is the one it inherits or is marked as an
/// override.
pub proof fn seeded_variant_inherits_or_is_marked(
    plugin: PluginModel,
    variant: Seq<char>,
    state: Seq<char>,
    prop: PropModel,
)
    requires
        plugin.variants.contains(variant),
        plugin.states.contains(state),
        plugin.states.contains(NORMAL_STATE_KEY@),
        plugin.variant_props.contains(prop),
        !seeded_data(plugin).is_root(variant, state),
    ensures
        variant_flagged(seeded_data(plugin).variant_overrides, variant, state, prop.name) || alike(
            variant_value(seeded_data(plugin).variant_props, variant, state, prop.name),
            seeded_data(plugin).inherited(variant, state, prop.name),
        ),
{
    let d = plain_data(plugin);
    let common = plugin.variants[0];
    assert(plugin.variants.contains(common));
    assert(common_of(plugin) == Some(common));
    let k = choose|k: int| 0 <= k < plugin.variant_props.len() && plugin.variant_props[k] == prop;
    lemma_last_prop(plugin.variant_props, k);
    let i = lemma_last_prop_at(plugin.variant_props, prop.name);
    let last = plugin.variant_props[i];
    let own = variant_value(d.variant_props, variant, state, prop.name);
    let from = d.inherited(variant, state, prop.name);
    assert(own == Some(variant_default(last, Some(common), variant, state)));
    if last.defaults.dom().contains(variant) {
        if from is Some && !value::same_value(own->Some_0, from->Some_0) {
            assert(seeds_override(d, plugin.variant_props, variant, state, prop.name));
        }
    }
}

proof fn lemma_last_prop_at(props: Seq<PropModel>, name: Seq<char>) -> (i: int)
    requires
        last_prop(props, name) is Some,
    ensures
        0 <= i < props.len(),
        last_prop(props, name) == Some(props[i]),
        props[i].name == name,
    decreases props.len(),
{
    if props.last().name == name {
        props.len() - 1
    } else {
        lemma_last_prop_at(props.drop_last(), name)
    }
}

/// Setting a size's value and clearing it again leaves the Common value there, without a mark.
pub proof fn set_and_cleared_size_is_common(
    d: ThemeData,
    size: Seq<char>,
    prop: Seq<char>,
    v: Value,
    base: Value,
)
    requires
        size != DEFAULT_SIZE_KEY@,
        d.size_props.dom().contains(size),
        d.base(prop) == Some(base),
    ensures
        !size_flagged(d.size_set(size, prop, v).size_cleared(size, prop).size_overrides, size, prop),
        textmap::at2(d.size_set(size, prop, v).size_cleared(size, prop).size_props, size, prop) == Some(
            base,
        ),
{
}

/// Clearing a size's override never marks anything.
pub proof fn clearing_size_marks_nothing(
    d: ThemeData,
    size: Seq<char>,
    prop: Seq<char>,
    other_size: Seq<char>,
    other: Seq<char>,
)
    requires
        size_flagged(d.size_cleared(size, prop).size_overrides, other_size, other),
    ensures
        size_flagged(d.size_overrides, other_size, other),
{
}

/// A component that overrides its parent's Common value is not reached by the parent's edits.
pub proof fn overriding_child_is_not_reached(
    themes: Map<Seq<char>, ThemeData>,
    parent: Seq<char>,
    prop: Seq<char>,
    v: Value,
    child: Seq<char>,
)
    requires
        themes.dom().contains(child),
        themes[child].parent_overrides.contains(prop),
    ensures
        cascaded_default(themes, parent, prop, v)[child] == themes[child],
{
    let next = followed_key(themes, prop);
    assert(next(child) is None);
    assert(chain::walk(next, child, 0) == Some(child));
    assert(chain::stops_after(next, child, 0));
    assert forall|n: nat| !#[trigger] takes_after(themes, prop, child, n, parent) by {
        if n > 0 {
            chain::walk_past_end(next, child, 0, n);
        }
    }
}

/// A component that follows its parent is reached by the parent's edits.
pub proof fn following_child_is_reached(
    themes: Map<Seq<char>, ThemeData>,
    parent: Seq<char>,
    prop: Seq<char>,
    v: Value,
    child: Seq<char>,
)
    requires
        themes.dom().contains(child),
        themes[child].parent_key == Some(parent),
        !themes[child].parent_overrides.contains(prop),
        themes[child].size_props.dom().contains(DEFAULT_SIZE_KEY@),
    ensures
        cascaded_default(themes, parent, prop, v)[child].base(prop) == Some(v),
{
    assert(takes_after(themes, prop, child, 0, parent));
}

/// A component that follows one that is reached is reached too: its parent is given by name.
pub proof fn chained_child_is_reached(
    themes: Map<Seq<char>, ThemeData>,
    ancestor: Seq<char>,
    prop: Seq<char>,
    v: Value,
    name: Seq<char>,
    middle: Seq<char>,
    child: Seq<char>,
)
    requires
        themes.dom().contains(child),
        themes[child].parent_key == Some(name),
        !themes[child].parent_overrides.contains(prop),
        themes[child].size_props.dom().contains(DEFAULT_SIZE_KEY@),
        key_named(themes, name) == Some(middle),
        descends(themes, prop, middle, ancestor),
    ensures
        cascaded_default(themes, ancestor, prop, v)[child].base(prop) == Some(v),
{
    let next = followed_key(themes, prop);
    let n = choose|n: nat| #[trigger] takes_after(themes, prop, middle, n, ancestor);
    assert(next(child) == Some(middle));
    chain::walk_rest(next, child, middle, n);
    assert(takes_after(themes, prop, child, (n + 1) as nat, ancestor));
}

/// A state without a declared default has that of the normal state, and a variant without one that of
/// the Common variant.
pub proof fn undeclared_default_is_the_nearest(
    p: PropModel,
    common: Option<Seq<char>>,
    variant: Seq<char>,
    state: Seq<char>,
)
    ensures
        state_default(p, variant, state) is None ==> variant_default(p, common, variant, state) == variant_default(
            p,
            common,
            variant,
            NORMAL_STATE_KEY@,
        ),
        common is Some && state_default(p, variant, state) is None && state_default(
            p,
            variant,
            NORMAL_STATE_KEY@,
        ) is None ==> variant_default(p, common, variant, state) == variant_default(
            p,
            common,
            common->Some_0,
            NORMAL_STATE_KEY@,
        ),
{
}

/// A declared default counts whatever else is declared, and is the same in every state where it does
/// not depend on the state.
pub proof fn declared_default_counts(
    p: PropModel,
    common: Option<Seq<char>>,
    variant: Seq<char>,
    state: Seq<char>,
    d: schema::DefaultModel,
)
    requires
        p.defaults.dom().contains(variant),
        p.defaults[variant] == d,
    ensures
        d matches schema::DefaultModel::Direct(raw) ==> variant_default(p, common, variant, state) == default_value(
            raw,
            p.prop_type,
        ),
        d matches schema::DefaultModel::Nested(m) ==> m.dom().contains(state) ==> variant_default(p, common, variant, state)
            == default_value(m[state], p.prop_type),
        d matches schema::DefaultModel::Direct(raw) ==> size_default(p, variant) == default_value(raw, p.prop_type),
{
}

/// Sizes without a default of their own have one value, that of the Common size where it is declared.
pub proof fn undeclared_size_has_common_default(p: PropModel, a: Seq<char>, b: Seq<char>, raw: Raw)
    requires
        !p.defaults.dom().contains(a),
        !p.defaults.dom().contains(b),
    ensures
        size_default(p, a) == size_default(p, b),
        p.defaults.dom().contains(COMMON_SIZE_KEY@) && p.defaults[COMMON_SIZE_KEY@] == schema::DefaultModel::Direct(raw)
            ==> size_default(p, a) == size_default(p, COMMON_SIZE_KEY@),
        !p.defaults.dom().contains(COMMON_SIZE_KEY@) && !p.defaults.dom().contains(LEGACY_COMMON_SIZE_KEY@)
            && p.defaults.dom().contains("md"@) && p.defaults["md"@] == schema::DefaultModel::Direct(raw)
            ==> size_default(p, a) == size_default(p, "md"@),
{
}

/// A color written in hexadecimal digits stands for itself as the default of a color, and a dotted text
/// is a reference whatever the property's type.
pub proof fn written_default_is_read(c: Color, path: Seq<char>, prop_type: Seq<char>)
    ensures
        default_value(Raw::Text(color::hash_hex_of(c)), "color"@) == Value::Color(c),
        schema::looks_like_token(path) ==> default_value(Raw::Text(path), prop_type) == Value::Ref(path),
{
    let s = color::hash_hex_of(c);
    assert(s.take(1) =~= seq!['#']);
    assert(!schema::looks_like_token(s));
    color::loose_hex_round_trip(c);
}

} // verus!
