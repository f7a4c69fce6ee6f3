//! Token themes: the design tokens that the editor edits, how they are written to and read from
//! theme files, and the token stores made of them.

use vstd::prelude::*;
use crate::color::{self, color_hex, parse_hex_color, Color};
use crate::defaults::{self, create_schema_fallback_tokens};
use crate::json::{self, json_float, json_int, Json, JsonModel, JsonObject, ObjectModel};
use crate::scalar::{self, Scalar};
use crate::store::{self, Measure, Store, Token, TokenStore};
use crate::text::{self, joined, owned, split_on, strip_prefix, text_eq};
use crate::textmap::{self, Duplicate, TextMap, TextSet};
use crate::tokens::{self, SchemeTokens, ThemeTokens, TokenSet, TokenValue, Tokens};
use crate::value::Value;

verus! {

// ---------------------------------------------------------------------------------------------
// Entries
// ---------------------------------------------------------------------------------------------
/// The key of a token in a section.
pub open spec fn token_key(section: Seq<char>, key: Seq<char>) -> Seq<char> {
    section + "."@ + key
}

fn owns(owned_keys: &TextSet, section: &str, key: &str) -> (r: bool)
    ensures
        r == owned_keys@.contains(token_key(section@, key@)),
{
    let mut path = owned(section);
    path.push_str(".");
    path.push_str(key);
    owned_keys.contains(path.as_str())
}

/// An object with a color, where it is owned or differs from the parent's.
pub open spec fn color_entry(
    m: ObjectModel,
    key: Seq<char>,
    current: Color,
    parent: Option<Color>,
    force: bool,
) -> ObjectModel {
    if force || (parent is Some && parent->Some_0 != current) {
        m.insert(key, JsonModel::Text(color::hash_hex_of(current)))
    } else {
        m
    }
}

/// Puts a color into an object, where it is owned or differs from the parent's.
pub fn insert_color_if_changed(
    map: &mut JsonObject,
    key: &str,
    current: Color,
    parent: Option<Color>,
    force: bool,
)
    ensures
        final(map)@ == color_entry(old(map)@, key@, current, parent, force),
{
    let changed = match parent {
        Some(p) => p != current,
        None => false,
    };
    if force || changed {
        map.insert(owned(key), Json::String(color_hex(current)));
    }
}

/// An object with a float, where it is owned or differs from the parent's.
pub open spec fn float_entry(
    m: ObjectModel,
    key: Seq<char>,
    current: Scalar,
    parent: Option<Scalar>,
    force: bool,
) -> ObjectModel {
    if force || (parent is Some && scalar::far_scalar(parent->Some_0, current)) {
        m.insert(key, json::float_json(current))
    } else {
        m
    }
}

/// Puts a float into an object, where it is owned or differs from the parent's.
pub fn insert_float_if_changed(
    map: &mut JsonObject,
    key: &str,
    current: Scalar,
    parent: Option<Scalar>,
    force: bool,
)
    ensures
        final(map)@ == float_entry(old(map)@, key@, current, parent, force),
{
    let changed = match parent {
        Some(p) => p.far(&current),
        None => false,
    };
    if force || changed {
        map.insert(owned(key), json_float(current));
    }
}

/// An object with an integer, where it is owned or differs from the parent's.
pub open spec fn int_entry(
    m: ObjectModel,
    key: Seq<char>,
    current: i32,
    parent: Option<i32>,
    force: bool,
) -> ObjectModel {
    if force || (parent is Some && parent->Some_0 != current) {
        m.insert(key, json::int_json(current))
    } else {
        m
    }
}

/// Puts an integer into an object, where it is owned or differs from the parent's.
pub fn insert_int_if_changed(
    map: &mut JsonObject,
    key: &str,
    current: i32,
    parent: Option<i32>,
    force: bool,
)
    ensures
        final(map)@ == int_entry(old(map)@, key@, current, parent, force),
{
    let changed = match parent {
        Some(p) => p != current,
        None => false,
    };
    if force || changed {
        map.insert(owned(key), json_int(current));
    }
}

/// An object with a text, where it is owned or differs from the parent's.
pub open spec fn text_entry(
    m: ObjectModel,
    key: Seq<char>,
    current: Seq<char>,
    parent: Option<Seq<char>>,
    force: bool,
) -> ObjectModel {
    if force || (parent is Some && parent->Some_0 != current) {
        m.insert(key, JsonModel::Text(current))
    } else {
        m
    }
}

/// Puts a text into an object, where it is owned or differs from the parent's.
pub fn insert_string_if_changed(
    map: &mut JsonObject,
    key: &str,
    current: &str,
    parent: Option<&str>,
    force: bool,
)
    ensures
        final(map)@ == text_entry(
            old(map)@,
            key@,
            current@,
            match parent {
                Some(p) => Some(p@),
                None => None,
            },
            force,
        ),
{
    let changed = match parent {
        Some(p) => !text_eq(p, current),
        None => false,
    };
    if force || changed {
        map.insert(owned(key), Json::String(owned(current)));
    }
}

// ---------------------------------------------------------------------------------------------
// Values that stand beside a token
// ---------------------------------------------------------------------------------------------
/// An object with the token that a property refers to, or that it refers to none, where that is
/// another than the parent's.
pub open spec fn token_entry(
    m: ObjectModel,
    token_key: Seq<char>,
    current: Option<Seq<char>>,
    parent: Option<Seq<char>>,
) -> ObjectModel {
    if current != parent {
        m.insert(
            token_key,
            match current {
                Some(t) => JsonModel::Text(t),
                None => JsonModel::Null,
            },
        )
    } else {
        m
    }
}

fn insert_token_if_changed(map: &mut JsonObject, token_key: &str, current: Option<&str>, parent: Option<&str>)
    ensures
        final(map)@ == token_entry(
            old(map)@,
            token_key@,
            crate::schema::option_view(current),
            crate::schema::option_view(parent),
        ),
{
    let same = match (current, parent) {
        (Some(a), Some(b)) => text_eq(a, b),
        (None, None) => true,
        _ => false,
    };
    if !same {
        match current {
            Some(t) => {
                map.insert(owned(token_key), Json::String(owned(t)));
            },
            None => {
                map.insert(owned(token_key), Json::Null);
            },
        }
    }
}

/// Puts a property into an object: the token that it refers to, where that is another than the
/// parent's, and without a token the value, where that is another than the parent's.
pub fn insert_button_color_prop(
    map: &mut JsonObject,
    value_key: &str,
    token_key: &str,
    current_color: Color,
    current_token: Option<&str>,
    parent_color: Option<Color>,
    parent_token: Option<&str>,
)
    ensures
        ({
            let m = token_entry(
                old(map)@,
                token_key@,
                crate::schema::option_view(current_token),
                crate::schema::option_view(parent_token),
            );
            final(map)@ == (if current_token is None {
                color_entry(m, value_key@, current_color, parent_color, false)
            } else {
                m
            })
        }),
{
    insert_token_if_changed(map, token_key, current_token, parent_token);
    if current_token.is_none() {
        insert_color_if_changed(map, value_key, current_color, parent_color, false);
    }
}

/// Puts a property into an object: the token that it refers to, where that is another than the
/// parent's, and without a token the value, where that is another than the parent's.
pub fn insert_button_float_prop(
    map: &mut JsonObject,
    value_key: &str,
    token_key: &str,
    current_value: Scalar,
    current_token: Option<&str>,
    parent_value: Option<Scalar>,
    parent_token: Option<&str>,
)
    ensures
        ({
            let m = token_entry(
                old(map)@,
                token_key@,
                crate::schema::option_view(current_token),
                crate::schema::option_view(parent_token),
            );
            final(map)@ == (if current_token is None {
                float_entry(m, value_key@, current_value, parent_value, false)
            } else {
                m
            })
        }),
{
    insert_token_if_changed(map, token_key, current_token, parent_token);
    if current_token.is_none() {
        insert_float_if_changed(map, value_key, current_value, parent_value, false);
    }
}

/// Puts a property into an object: the token that it refers to, where that is another than the
/// parent's, and without a token the value, where that is another than the parent's.
pub fn insert_button_string_prop(
    map: &mut JsonObject,
    value_key: &str,
    token_key: &str,
    current_value: &str,
    current_token: Option<&str>,
    parent_value: Option<&str>,
    parent_token: Option<&str>,
)
    ensures
        ({
            let m = token_entry(
                old(map)@,
                token_key@,
                crate::schema::option_view(current_token),
                crate::schema::option_view(parent_token),
            );
            final(map)@ == (if current_token is None {
                text_entry(m, value_key@, current_value@, crate::schema::option_view(parent_value), false)
            } else {
                m
            })
        }),
{
    insert_token_if_changed(map, token_key, current_token, parent_token);
    if current_token.is_none() {
        insert_string_if_changed(map, value_key, current_value, parent_value, false);
    }
}

/// The value of a key of an optional JSON value.
pub open spec fn field(j: Option<JsonModel>, key: Seq<char>) -> Option<JsonModel> {
    match j {
        Some(v) => json::at(v, key),
        None => None,
    }
}

fn field_of<'a>(j: Option<&'a Json>, key: &str) -> (r: Option<&'a Json>)
    ensures
        json::json_view(r) == field(json::json_view(j), key@),
{
    match j {
        Some(v) => v.get(key),
        None => None,
    }
}

/// The color that a key gives, or the current one.
#[verifier::opaque]
pub open spec fn color_field(j: Option<JsonModel>, key: Seq<char>, current: Color) -> Color {
    match json::text_of(field(j, key)) {
        Some(s) => color::color_or_missing(s),
        None => current,
    }
}

fn parse_color_field(j: Option<&Json>, key: &str, current: Color) -> (r: Color)
    ensures
        r == color_field(json::json_view(j), key@, current),
{
    reveal(color_field);
    match field_of(j, key) {
        Some(v) => match v.as_str() {
            Some(s) => parse_hex_color(s),
            None => current,
        },
        None => current,
    }
}

/// The float that a key gives, or the current one.
pub open spec fn float_field(j: Option<JsonModel>, key: Seq<char>, current: Scalar) -> Scalar {
    match json::number_of(field(j, key)) {
        Some(n) => n.single,
        None => current,
    }
}

fn parse_float_field(j: Option<&Json>, key: &str, current: Scalar) -> (r: Scalar)
    ensures
        r == float_field(json::json_view(j), key@, current),
{
    match field_of(j, key) {
        Some(v) => match v.as_number() {
            Some(n) => n.single,
            None => current,
        },
        None => current,
    }
}

/// The integer that a key gives, cut to 32 bits, or the current one.
pub open spec fn int_field(j: Option<JsonModel>, key: Seq<char>, current: i32) -> i32 {
    match json::number_of(field(j, key)) {
        Some(n) => match n.long {
            Some(i) => i as i32,
            None => current,
        },
        None => current,
    }
}

fn parse_int_field(j: Option<&Json>, key: &str, current: i32) -> (r: i32)
    ensures
        r == int_field(json::json_view(j), key@, current),
{
    match field_of(j, key) {
        Some(v) => match v.as_number() {
            Some(n) => match n.long {
                Some(i) =>
                    #[verifier::truncate]
                    (i as i32),
                None => current,
            },
            None => current,
        },
        None => current,
    }
}

/// The text that a key gives, or the current one.
pub open spec fn text_field(j: Option<JsonModel>, key: Seq<char>, current: Seq<char>) -> Seq<char> {
    match json::text_of(field(j, key)) {
        Some(s) => s,
        None => current,
    }
}

fn parse_string_field(j: Option<&Json>, key: &str, current: &str) -> (r: String)
    ensures
        r@ == text_field(json::json_view(j), key@, current@),
{
    match field_of(j, key) {
        Some(v) => match v.as_str() {
            Some(s) => owned(s),
            None => owned(current),
        },
        None => owned(current),
    }
}

/// The key of the default radius that a key gives, with or without the category, or the current one.
pub open spec fn radius_field(j: Option<JsonModel>, key: Seq<char>, current: Seq<char>) -> Seq<char> {
    match json::text_of(field(j, key)) {
        Some(s) => match text::after_prefix(s, "radius."@) {
            Some(rest) => rest,
            None => s,
        },
        None => current,
    }
}

fn parse_radius_field(j: Option<&Json>, key: &str, current: &str) -> (r: String)
    ensures
        r@ == radius_field(json::json_view(j), key@, current@),
{
    match field_of(j, key) {
        Some(v) => match v.as_str() {
            Some(s) => match strip_prefix(s, "radius.") {
                Some(rest) => rest,
                None => owned(s),
            },
            None => owned(current),
        },
        None => owned(current),
    }
}

/// A color that is written, or that is the parent's, is read again.
proof fn lemma_color_read(o: ObjectModel, key: Seq<char>, over: Color, c: Color)
    requires
        o.dom().contains(key) ==> o[key] == JsonModel::Text(color::hash_hex_of(c)),
        o.dom().contains(key) || over == c,
    ensures
        color_field(Some(JsonModel::Object(o)), key, over) == c,
{
    reveal(color_field);
    color::loose_hex_round_trip(c);
}

/// An integer that is written is read again.
proof fn lemma_int_read(n: i32)
    ensures
        (n as i64) as i32 == n,
{
}

/// A radius key that is written is read again.
proof fn lemma_radius_read(key: Seq<char>)
    ensures
        text::after_prefix("radius."@ + key, "radius."@) == Some(key),
{
    let whole = "radius."@ + key;
    assert(whole.take("radius."@.len() as int) =~= "radius."@);
    assert(whole.skip("radius."@.len() as int) =~= key);
}

fn put_number(store: &mut TokenStore, category: &str, key: &str, s: Scalar)
    ensures
        final(store)@ == textmap::put2(
            old(store)@,
            category@,
            key@,
            Token::Number(store::single_measure(s)),
        ),
{
    store.categories.put2(category, key, store::TokenValue::Number(Measure::from_single(s)));
}

fn put_text(store: &mut TokenStore, category: &str, key: &str, s: &str)
    ensures
        final(store)@ == textmap::put2(old(store)@, category@, key@, Token::Text(s@)),
{
    store.categories.put2(category, key, store::TokenValue::String(owned(s)));
}

fn put_color(store: &mut TokenStore, key: &str, c: Color)
    ensures
        final(store)@ == textmap::put2(
            old(store)@,
            "color"@,
            key@,
            Token::Text(color::hash_hex_of(c)),
        ),
{
    store.categories.put2("color", key, store::TokenValue::String(color_hex(c)));
}

// ---------------------------------------------------------------------------------------------
// The colors of one scheme
// ---------------------------------------------------------------------------------------------
/// The colors of one scheme.
#[derive(Clone, Copy, Debug, PartialEq, Eq, Structural)]
pub struct Palette {
    pub primary: Color,
    pub primary_pressed: Color,
    pub secondary: Color,
    pub danger: Color,
    pub surface: Color,
    pub background: Color,
    pub text: Color,
    pub text_muted: Color,
}

impl Palette {
    /// What is written of all of it.
    pub open spec fn written(self) -> ObjectModel {
        let m = Map::<Seq<char>, JsonModel>::empty();
        let m = m.insert("primary"@, JsonModel::Text(color::hash_hex_of(self.primary)));
        let m = m.insert("primary-pressed"@, JsonModel::Text(color::hash_hex_of(self.primary_pressed)));
        let m = m.insert("secondary"@, JsonModel::Text(color::hash_hex_of(self.secondary)));
        let m = m.insert("danger"@, JsonModel::Text(color::hash_hex_of(self.danger)));
        let m = m.insert("surface"@, JsonModel::Text(color::hash_hex_of(self.surface)));
        let m = m.insert("background"@, JsonModel::Text(color::hash_hex_of(self.background)));
        let m = m.insert("text"@, JsonModel::Text(color::hash_hex_of(self.text)));
        let m = m.insert("text-muted"@, JsonModel::Text(color::hash_hex_of(self.text_muted)));
        let m = m.insert("transparent"@, JsonModel::Text("#00000000"@));
        m
    }

    /// What is written of what is owned or differs from the parent's.
    #[verifier::opaque]
    pub open spec fn patch(
        self,
        parent: Option<Palette>,
        section: Seq<char>,
        owned_keys: Set<Seq<char>>,
    ) -> ObjectModel {
        let m = Map::<Seq<char>, JsonModel>::empty();
        let m = color_entry(
            m,
            "primary"@,
            self.primary,
            match parent {
                Some(p) => Some(p.primary),
                None => None,
            },
            owned_keys.contains(token_key(section, "primary"@)),
        );
        let m = color_entry(
            m,
            "primary-pressed"@,
            self.primary_pressed,
            match parent {
                Some(p) => Some(p.primary_pressed),
                None => None,
            },
            owned_keys.contains(token_key(section, "primary-pressed"@)),
        );
        let m = color_entry(
            m,
            "secondary"@,
            self.secondary,
            match parent {
                Some(p) => Some(p.secondary),
                None => None,
            },
            owned_keys.contains(token_key(section, "secondary"@)),
        );
        let m = color_entry(
            m,
            "danger"@,
            self.danger,
            match parent {
                Some(p) => Some(p.danger),
                None => None,
            },
            owned_keys.contains(token_key(section, "danger"@)),
        );
        let m = color_entry(
            m,
            "surface"@,
            self.surface,
            match parent {
                Some(p) => Some(p.surface),
                None => None,
            },
            owned_keys.contains(token_key(section, "surface"@)),
        );
        let m = color_entry(
            m,
            "background"@,
            self.background,
            match parent {
                Some(p) => Some(p.background),
                None => None,
            },
            owned_keys.contains(token_key(section, "background"@)),
        );
        let m = color_entry(
            m,
            "text"@,
            self.text,
            match parent {
                Some(p) => Some(p.text),
                None => None,
            },
            owned_keys.contains(token_key(section, "text"@)),
        );
        let m = color_entry(
            m,
            "text-muted"@,
            self.text_muted,
            match parent {
                Some(p) => Some(p.text_muted),
                None => None,
            },
            owned_keys.contains(token_key(section, "text-muted"@)),
        );
        if owned_keys.contains(token_key(section, "transparent"@)) {
            m.insert("transparent"@, JsonModel::Text("#00000000"@))
        } else {
            m
        }
    }

    /// It with what a file gives in place of what it gives.
    #[verifier::opaque]
    pub open spec fn read(self, j: Option<JsonModel>) -> Palette {
        Palette {
            primary: color_field(j, "primary"@, self.primary),
            primary_pressed: color_field(j, "primary-pressed"@, self.primary_pressed),
            secondary: color_field(j, "secondary"@, self.secondary),
            danger: color_field(j, "danger"@, self.danger),
            surface: color_field(j, "surface"@, self.surface),
            background: color_field(j, "background"@, self.background),
            text: color_field(j, "text"@, self.text),
            text_muted: color_field(j, "text-muted"@, self.text_muted),
        }
    }

    /// The token set with the colors of a scheme and those made of them.
    pub open spec fn exported(self, t: Tokens) -> Tokens {
        let t = tokens::stored(t, "color"@, "primary"@, Value::Color(self.primary));
        let t = tokens::stored(t, "color"@, "primary.light"@, Value::Color(color::lighter(self.primary, 20)));
        let t = tokens::stored(t, "color"@, "primary.dark"@, Value::Color(self.primary_pressed));
        let t = tokens::stored(t, "color"@, "primary_pressed"@, Value::Color(self.primary_pressed));
        let t = tokens::stored(t, "color"@, "secondary"@, Value::Color(self.secondary));
        let t = tokens::stored(t, "color"@, "secondary.dark"@, Value::Color(color::darker(self.secondary, 10)));
        let t = tokens::stored(t, "color"@, "danger"@, Value::Color(self.danger));
        let t = tokens::stored(t, "color"@, "danger.light"@, Value::Color(color::lighter(self.danger, 15)));
        let t = tokens::stored(t, "color"@, "danger.dark"@, Value::Color(color::darker(self.danger, 10)));
        let t = tokens::stored(t, "color"@, "surface"@, Value::Color(self.surface));
        let t = tokens::stored(t, "color"@, "background"@, Value::Color(self.background));
        let t = tokens::stored(t, "color"@, "foreground"@, Value::Color(self.text));
        let t = tokens::stored(t, "color"@, "foreground.light"@, Value::Color(color::faded(self.text, 10)));
        let t = tokens::stored(t, "color"@, "text"@, Value::Color(self.text));
        let t = tokens::stored(t, "color"@, "muted"@, Value::Color(self.text_muted));
        tokens::stored(t, "color"@, "text_muted"@, Value::Color(self.text_muted))
    }

    /// The store with the color tokens of a scheme.
    pub open spec fn in_store(self, t: Store) -> Store {
        let t = textmap::put2(t, "color"@, "primary"@, Token::Text(color::hash_hex_of(self.primary)));
        let t = textmap::put2(t, "color"@, "primary.light"@, Token::Text(color::hash_hex_of(color::lighter(self.primary, 20))));
        let t = textmap::put2(t, "color"@, "primary.dark"@, Token::Text(color::hash_hex_of(self.primary_pressed)));
        let t = textmap::put2(t, "color"@, "secondary"@, Token::Text(color::hash_hex_of(self.secondary)));
        let t = textmap::put2(t, "color"@, "secondary.dark"@, Token::Text(color::hash_hex_of(color::darker(self.secondary, 10))));
        let t = textmap::put2(t, "color"@, "danger"@, Token::Text(color::hash_hex_of(self.danger)));
        let t = textmap::put2(t, "color"@, "surface"@, Token::Text(color::hash_hex_of(self.surface)));
        let t = textmap::put2(t, "color"@, "background"@, Token::Text(color::hash_hex_of(self.background)));
        let t = textmap::put2(t, "color"@, "foreground"@, Token::Text(color::hash_hex_of(self.text)));
        let t = textmap::put2(t, "color"@, "foreground.light"@, Token::Text(color::hash_hex_of(color::faded(self.text, 10))));
        let t = textmap::put2(t, "color"@, "danger.light"@, Token::Text(color::hash_hex_of(color::lighter(self.danger, 15))));
        let t = textmap::put2(t, "color"@, "danger.dark"@, Token::Text(color::hash_hex_of(color::darker(self.danger, 10))));
        let t = textmap::put2(t, "color"@, "success"@, Token::Text("#16a34a"@));
        let t = textmap::put2(t, "color"@, "warning"@, Token::Text("#d97706"@));
        let t = textmap::put2(t, "color"@, "transparent"@, Token::Text("#00000000"@));
        let t = textmap::put2(t, "color"@, "white"@, Token::Text("#ffffff"@));
        let t = textmap::put2(t, "color"@, "muted"@, Token::Text(color::hash_hex_of(self.text_muted)));
        textmap::put2(t, "color"@, "border"@, Token::Text("#e0e0e0"@))
    }
}

impl Palette {
    /// What is written of all of it.
    pub fn to_json(&self) -> (r: JsonObject)
        ensures
            r@ == self.written(),
    {
        let mut map = JsonObject::new();
        map.insert(owned("primary"), Json::String(color_hex(self.primary)));
        map.insert(owned("primary-pressed"), Json::String(color_hex(self.primary_pressed)));
        map.insert(owned("secondary"), Json::String(color_hex(self.secondary)));
        map.insert(owned("danger"), Json::String(color_hex(self.danger)));
        map.insert(owned("surface"), Json::String(color_hex(self.surface)));
        map.insert(owned("background"), Json::String(color_hex(self.background)));
        map.insert(owned("text"), Json::String(color_hex(self.text)));
        map.insert(owned("text-muted"), Json::String(color_hex(self.text_muted)));
        map.insert(owned("transparent"), Json::String(owned("#00000000")));
        map
    }

    /// What is written of what is owned or differs from the parent's.
    pub fn to_patch(&self, parent: Option<&Palette>, section: &str, owned_keys: &TextSet) -> (r: JsonObject)
        ensures
            r@ == self.patch(
                match parent {
                    Some(p) => Some(*p),
                    None => None,
                },
                section@,
                owned_keys@,
            ),
    {
        reveal(Palette::patch);
        let mut map = JsonObject::new();
        insert_color_if_changed(
            &mut map,
            "primary",
            self.primary,
            match parent {
                Some(p) => Some(p.primary),
                None => None,
            },
            owns(owned_keys, section, "primary"),
        );
        insert_color_if_changed(
            &mut map,
            "primary-pressed",
            self.primary_pressed,
            match parent {
                Some(p) => Some(p.primary_pressed),
                None => None,
            },
            owns(owned_keys, section, "primary-pressed"),
        );
        insert_color_if_changed(
            &mut map,
            "secondary",
            self.secondary,
            match parent {
                Some(p) => Some(p.secondary),
                None => None,
            },
            owns(owned_keys, section, "secondary"),
        );
        insert_color_if_changed(
            &mut map,
            "danger",
            self.danger,
            match parent {
                Some(p) => Some(p.danger),
                None => None,
            },
            owns(owned_keys, section, "danger"),
        );
        insert_color_if_changed(
            &mut map,
            "surface",
            self.surface,
            match parent {
                Some(p) => Some(p.surface),
                None => None,
            },
            owns(owned_keys, section, "surface"),
        );
        insert_color_if_changed(
            &mut map,
            "background",
            self.background,
            match parent {
                Some(p) => Some(p.background),
                None => None,
            },
            owns(owned_keys, section, "background"),
        );
        insert_color_if_changed(
            &mut map,
            "text",
            self.text,
            match parent {
                Some(p) => Some(p.text),
                None => None,
            },
            owns(owned_keys, section, "text"),
        );
        insert_color_if_changed(
            &mut map,
            "text-muted",
            self.text_muted,
            match parent {
                Some(p) => Some(p.text_muted),
                None => None,
            },
            owns(owned_keys, section, "text-muted"),
        );
        if owns(owned_keys, section, "transparent") {
            map.insert(owned("transparent"), Json::String(owned("#00000000")));
        }
        map
    }

    /// Takes over what a file gives.
    pub fn read_json(&mut self, j: Option<&Json>)
        ensures
            *final(self) == old(self).read(json::json_view(j)),
    {
        reveal(Palette::read);
        self.primary = parse_color_field(j, "primary", self.primary);
        self.primary_pressed = parse_color_field(j, "primary-pressed", self.primary_pressed);
        self.secondary = parse_color_field(j, "secondary", self.secondary);
        self.danger = parse_color_field(j, "danger", self.danger);
        self.surface = parse_color_field(j, "surface", self.surface);
        self.background = parse_color_field(j, "background", self.background);
        self.text = parse_color_field(j, "text", self.text);
        self.text_muted = parse_color_field(j, "text-muted", self.text_muted);
    }

    /// Puts the colors of a scheme and those made of them into a token set.
    pub fn put_tokens(&self, set: &mut TokenSet)
        ensures
            final(set)@ == self.exported(old(set)@),
    {
        set.set("color", "primary", TokenValue::Color(self.primary));
        set.set("color", "primary.light", TokenValue::Color(self.primary.lighten_percent(20)));
        set.set("color", "primary.dark", TokenValue::Color(self.primary_pressed));
        set.set("color", "primary_pressed", TokenValue::Color(self.primary_pressed));
        set.set("color", "secondary", TokenValue::Color(self.secondary));
        set.set("color", "secondary.dark", TokenValue::Color(self.secondary.darken_percent(10)));
        set.set("color", "danger", TokenValue::Color(self.danger));
        set.set("color", "danger.light", TokenValue::Color(self.danger.lighten_percent(15)));
        set.set("color", "danger.dark", TokenValue::Color(self.danger.darken_percent(10)));
        set.set("color", "surface", TokenValue::Color(self.surface));
        set.set("color", "background", TokenValue::Color(self.background));
        set.set("color", "foreground", TokenValue::Color(self.text));
        set.set("color", "foreground.light", TokenValue::Color(self.text.with_alpha_percent(10)));
        set.set("color", "text", TokenValue::Color(self.text));
        set.set("color", "muted", TokenValue::Color(self.text_muted));
        set.set("color", "text_muted", TokenValue::Color(self.text_muted));
    }

    /// Puts the color tokens of a scheme into a store.
    pub fn put_store(&self, store: &mut TokenStore)
        ensures
            final(store)@ == self.in_store(old(store)@),
    {
        put_color(store, "primary", self.primary);
        put_color(store, "primary.light", self.primary.lighten_percent(20));
        put_color(store, "primary.dark", self.primary_pressed);
        put_color(store, "secondary", self.secondary);
        put_color(store, "secondary.dark", self.secondary.darken_percent(10));
        put_color(store, "danger", self.danger);
        put_color(store, "surface", self.surface);
        put_color(store, "background", self.background);
        put_color(store, "foreground", self.text);
        put_color(store, "foreground.light", self.text.with_alpha_percent(10));
        put_color(store, "danger.light", self.danger.lighten_percent(15));
        put_color(store, "danger.dark", self.danger.darken_percent(10));
        put_text(store, "color", "success", "#16a34a");
        put_text(store, "color", "warning", "#d97706");
        put_text(store, "color", "transparent", "#00000000");
        put_text(store, "color", "white", "#ffffff");
        put_color(store, "muted", self.text_muted);
        put_text(store, "color", "border", "#e0e0e0");
    }
}

impl Palette {
    /// Whether all values are equal; numbers are compared as numbers.
    pub open spec fn same_as(self, other: Palette) -> bool {
        &&& self.primary == other.primary
        &&& self.primary_pressed == other.primary_pressed
        &&& self.secondary == other.secondary
        &&& self.danger == other.danger
        &&& self.surface == other.surface
        &&& self.background == other.background
        &&& self.text == other.text
        &&& self.text_muted == other.text_muted
    }
}

impl Palette {
    /// Whether all values are equal; numbers are compared as numbers.
    pub fn same(&self, other: &Palette) -> (r: bool)
        ensures
            r == self.same_as(*other),
    {
        self.primary == other.primary
            && self.primary_pressed == other.primary_pressed
            && self.secondary == other.secondary
            && self.danger == other.danger
            && self.surface == other.surface
            && self.background == other.background
            && self.text == other.text
            && self.text_muted == other.text_muted
    }
}

proof fn lemma_palette_keys()
    ensures
        "primary"@ != "primary-pressed"@,
        "primary"@ != "secondary"@,
        "primary"@ != "danger"@,
        "primary"@ != "surface"@,
        "primary"@ != "background"@,
        "primary"@ != "text"@,
        "primary"@ != "text-muted"@,
        "primary"@ != "transparent"@,
        "primary-pressed"@ != "secondary"@,
        "primary-pressed"@ != "danger"@,
        "primary-pressed"@ != "surface"@,
        "primary-pressed"@ != "background"@,
        "primary-pressed"@ != "text"@,
        "primary-pressed"@ != "text-muted"@,
        "primary-pressed"@ != "transparent"@,
        "secondary"@ != "danger"@,
        "secondary"@ != "surface"@,
        "secondary"@ != "background"@,
        "secondary"@ != "text"@,
        "secondary"@ != "text-muted"@,
        "secondary"@ != "transparent"@,
        "danger"@ != "surface"@,
        "danger"@ != "background"@,
        "danger"@ != "text"@,
        "danger"@ != "text-muted"@,
        "danger"@ != "transparent"@,
        "surface"@ != "background"@,
        "surface"@ != "text"@,
        "surface"@ != "text-muted"@,
        "surface"@ != "transparent"@,
        "background"@ != "text"@,
        "background"@ != "text-muted"@,
        "background"@ != "transparent"@,
        "text"@ != "text-muted"@,
        "text"@ != "transparent"@,
        "text-muted"@ != "transparent"@,
{
    reveal_strlit("primary");
    reveal_strlit("primary-pressed");
    reveal_strlit("secondary");
    reveal_strlit("danger");
    reveal_strlit("surface");
    reveal_strlit("background");
    reveal_strlit("text");
    reveal_strlit("text-muted");
    reveal_strlit("transparent");
    assert("primary"@.len() == 7);
    assert("primary-pressed"@.len() == 15);
    assert("secondary"@.len() == 9);
    assert("danger"@.len() == 6);
    assert("surface"@.len() == 7);
    assert("background"@.len() == 10);
    assert("text"@.len() == 4);
    assert("text-muted"@.len() == 10);
    assert("transparent"@.len() == 11);
    assert("primary"@[0] != "surface"@[0]);
    assert("background"@[0] != "text-muted"@[0]);
}

/// What is written of all of it is read again, whatever it is read over.
pub proof fn palette_written_is_read(s: Palette, over: Palette)
    ensures
        over.read(Some(JsonModel::Object(s.written()))) == s,
{
    reveal(Palette::read);
    lemma_palette_keys();
    let o = s.written();
    let j = Some(JsonModel::Object(o));
    lemma_color_read(o, "primary"@, over.primary, s.primary);
    lemma_color_read(o, "primary-pressed"@, over.primary_pressed, s.primary_pressed);
    lemma_color_read(o, "secondary"@, over.secondary, s.secondary);
    lemma_color_read(o, "danger"@, over.danger, s.danger);
    lemma_color_read(o, "surface"@, over.surface, s.surface);
    lemma_color_read(o, "background"@, over.background, s.background);
    lemma_color_read(o, "text"@, over.text, s.text);
    lemma_color_read(o, "text-muted"@, over.text_muted, s.text_muted);
    assert(field(j, "primary"@) == Some(JsonModel::Text(color::hash_hex_of(s.primary))));
    assert(field(j, "primary-pressed"@) == Some(JsonModel::Text(color::hash_hex_of(s.primary_pressed))));
    assert(field(j, "secondary"@) == Some(JsonModel::Text(color::hash_hex_of(s.secondary))));
    assert(field(j, "danger"@) == Some(JsonModel::Text(color::hash_hex_of(s.danger))));
    assert(field(j, "surface"@) == Some(JsonModel::Text(color::hash_hex_of(s.surface))));
    assert(field(j, "background"@) == Some(JsonModel::Text(color::hash_hex_of(s.background))));
    assert(field(j, "text"@) == Some(JsonModel::Text(color::hash_hex_of(s.text))));
    assert(field(j, "text-muted"@) == Some(JsonModel::Text(color::hash_hex_of(s.text_muted))));
}

/// A key is written where it is owned or its value differs from the parent's, and nowhere else.
pub proof fn palette_patch_keys(
    s: Palette,
    parent: Option<Palette>,
    section: Seq<char>,
    owned_keys: Set<Seq<char>>,
    key: Seq<char>,
)
    ensures
        s.patch(parent, section, owned_keys).dom().contains(key) <==> {
            ||| key == "primary"@ && (owned_keys.contains(token_key(section, "primary"@)) || (parent is Some && parent->Some_0.primary != s.primary))
            ||| key == "primary-pressed"@ && (owned_keys.contains(token_key(section, "primary-pressed"@)) || (parent is Some && parent->Some_0.primary_pressed != s.primary_pressed))
            ||| key == "secondary"@ && (owned_keys.contains(token_key(section, "secondary"@)) || (parent is Some && parent->Some_0.secondary != s.secondary))
            ||| key == "danger"@ && (owned_keys.contains(token_key(section, "danger"@)) || (parent is Some && parent->Some_0.danger != s.danger))
            ||| key == "surface"@ && (owned_keys.contains(token_key(section, "surface"@)) || (parent is Some && parent->Some_0.surface != s.surface))
            ||| key == "background"@ && (owned_keys.contains(token_key(section, "background"@)) || (parent is Some && parent->Some_0.background != s.background))
            ||| key == "text"@ && (owned_keys.contains(token_key(section, "text"@)) || (parent is Some && parent->Some_0.text != s.text))
            ||| key == "text-muted"@ && (owned_keys.contains(token_key(section, "text-muted"@)) || (parent is Some && parent->Some_0.text_muted != s.text_muted))
            ||| key == "transparent"@ && owned_keys.contains(token_key(section, "transparent"@))
        },
{
    reveal(Palette::patch);
    lemma_palette_keys();
}

/// What is written of a key is its value.
pub proof fn palette_patch_values(
    s: Palette,
    parent: Option<Palette>,
    section: Seq<char>,
    owned_keys: Set<Seq<char>>,
)
    ensures
        ({
            let o = s.patch(parent, section, owned_keys);
            &&& o.dom().contains("primary"@) ==> o["primary"@] == JsonModel::Text(color::hash_hex_of(s.primary))
            &&& o.dom().contains("primary-pressed"@) ==> o["primary-pressed"@] == JsonModel::Text(color::hash_hex_of(s.primary_pressed))
            &&& o.dom().contains("secondary"@) ==> o["secondary"@] == JsonModel::Text(color::hash_hex_of(s.secondary))
            &&& o.dom().contains("danger"@) ==> o["danger"@] == JsonModel::Text(color::hash_hex_of(s.danger))
            &&& o.dom().contains("surface"@) ==> o["surface"@] == JsonModel::Text(color::hash_hex_of(s.surface))
            &&& o.dom().contains("background"@) ==> o["background"@] == JsonModel::Text(color::hash_hex_of(s.background))
            &&& o.dom().contains("text"@) ==> o["text"@] == JsonModel::Text(color::hash_hex_of(s.text))
            &&& o.dom().contains("text-muted"@) ==> o["text-muted"@] == JsonModel::Text(color::hash_hex_of(s.text_muted))
        }),
{
    reveal(Palette::patch);
    lemma_palette_keys();
}

/// What is written against a parent and read over that parent is the whole again, where a float is
/// only left out when it is the parent's.
pub proof fn palette_patch_is_read(s: Palette, parent: Palette, section: Seq<char>, owned_keys: Set<Seq<char>>)
    ensures
        parent.read(Some(JsonModel::Object(s.patch(Some(parent), section, owned_keys)))) == s,
{
    reveal(Palette::read);
    let o = s.patch(Some(parent), section, owned_keys);
    let j = Some(JsonModel::Object(o));
    palette_patch_values(s, Some(parent), section, owned_keys);
    palette_patch_keys(s, Some(parent), section, owned_keys, "primary"@);
    lemma_color_read(o, "primary"@, parent.primary, s.primary);
    palette_patch_keys(s, Some(parent), section, owned_keys, "primary-pressed"@);
    lemma_color_read(o, "primary-pressed"@, parent.primary_pressed, s.primary_pressed);
    palette_patch_keys(s, Some(parent), section, owned_keys, "secondary"@);
    lemma_color_read(o, "secondary"@, parent.secondary, s.secondary);
    palette_patch_keys(s, Some(parent), section, owned_keys, "danger"@);
    lemma_color_read(o, "danger"@, parent.danger, s.danger);
    palette_patch_keys(s, Some(parent), section, owned_keys, "surface"@);
    lemma_color_read(o, "surface"@, parent.surface, s.surface);
    palette_patch_keys(s, Some(parent), section, owned_keys, "background"@);
    lemma_color_read(o, "background"@, parent.background, s.background);
    palette_patch_keys(s, Some(parent), section, owned_keys, "text"@);
    lemma_color_read(o, "text"@, parent.text, s.text);
    palette_patch_keys(s, Some(parent), section, owned_keys, "text-muted"@);
    lemma_color_read(o, "text-muted"@, parent.text_muted, s.text_muted);
    assert(color_field(j, "primary"@, parent.primary) == s.primary);
    assert(color_field(j, "primary-pressed"@, parent.primary_pressed) == s.primary_pressed);
    assert(color_field(j, "secondary"@, parent.secondary) == s.secondary);
    assert(color_field(j, "danger"@, parent.danger) == s.danger);
    assert(color_field(j, "surface"@, parent.surface) == s.surface);
    assert(color_field(j, "background"@, parent.background) == s.background);
    assert(color_field(j, "text"@, parent.text) == s.text);
    assert(color_field(j, "text-muted"@, parent.text_muted) == s.text_muted);
}

// ---------------------------------------------------------------------------------------------
// The spacing scale
// ---------------------------------------------------------------------------------------------
/// The spacing scale.
#[derive(Clone, Copy, Debug, PartialEq, Eq, Structural)]
pub struct Spacing {
    pub xs: Scalar,
    pub sm: Scalar,
    pub md: Scalar,
    pub lg: Scalar,
    pub xl: Scalar,
}

impl Spacing {
    /// What is written of all of it.
    pub open spec fn written(self) -> ObjectModel {
        let m = Map::<Seq<char>, JsonModel>::empty();
        let m = m.insert("xs"@, json::float_json(self.xs));
        let m = m.insert("sm"@, json::float_json(self.sm));
        let m = m.insert("md"@, json::float_json(self.md));
        let m = m.insert("lg"@, json::float_json(self.lg));
        let m = m.insert("xl"@, json::float_json(self.xl));
        m
    }

    /// What is written of what is owned or differs from the parent's.
    #[verifier::opaque]
    pub open spec fn patch(
        self,
        parent: Option<Spacing>,
        section: Seq<char>,
        owned_keys: Set<Seq<char>>,
    ) -> ObjectModel {
        let m = Map::<Seq<char>, JsonModel>::empty();
        let m = float_entry(
            m,
            "xs"@,
            self.xs,
            match parent {
                Some(p) => Some(p.xs),
                None => None,
            },
            owned_keys.contains(token_key(section, "xs"@)),
        );
        let m = float_entry(
            m,
            "sm"@,
            self.sm,
            match parent {
                Some(p) => Some(p.sm),
                None => None,
            },
            owned_keys.contains(token_key(section, "sm"@)),
        );
        let m = float_entry(
            m,
            "md"@,
            self.md,
            match parent {
                Some(p) => Some(p.md),
                None => None,
            },
            owned_keys.contains(token_key(section, "md"@)),
        );
        let m = float_entry(
            m,
            "lg"@,
            self.lg,
            match parent {
                Some(p) => Some(p.lg),
                None => None,
            },
            owned_keys.contains(token_key(section, "lg"@)),
        );
        let m = float_entry(
            m,
            "xl"@,
            self.xl,
            match parent {
                Some(p) => Some(p.xl),
                None => None,
            },
            owned_keys.contains(token_key(section, "xl"@)),
        );
        m
    }

    /// It with what a file gives in place of what it gives.
    #[verifier::opaque]
    pub open spec fn read(self, j: Option<JsonModel>) -> Spacing {
        Spacing {
            xs: float_field(j, "xs"@, self.xs),
            sm: float_field(j, "sm"@, self.sm),
            md: float_field(j, "md"@, self.md),
            lg: float_field(j, "lg"@, self.lg),
            xl: float_field(j, "xl"@, self.xl),
        }
    }

    /// The token set with these tokens.
    pub open spec fn exported(self, t: Tokens) -> Tokens {
        let t = tokens::stored(t, "spacing"@, "xs"@, Value::Float(self.xs));
        let t = tokens::stored(t, "spacing"@, "sm"@, Value::Float(self.sm));
        let t = tokens::stored(t, "spacing"@, "md"@, Value::Float(self.md));
        let t = tokens::stored(t, "spacing"@, "lg"@, Value::Float(self.lg));
        let t = tokens::stored(t, "spacing"@, "xl"@, Value::Float(self.xl));
        t
    }

    /// The store with these tokens.
    pub open spec fn in_store(self, t: Store) -> Store {
        let t = textmap::put2(t, "spacing"@, "xs"@, Token::Number(store::single_measure(self.xs)));
        let t = textmap::put2(t, "spacing"@, "sm"@, Token::Number(store::single_measure(self.sm)));
        let t = textmap::put2(t, "spacing"@, "md"@, Token::Number(store::single_measure(self.md)));
        let t = textmap::put2(t, "spacing"@, "lg"@, Token::Number(store::single_measure(self.lg)));
        let t = textmap::put2(t, "spacing"@, "xl"@, Token::Number(store::single_measure(self.xl)));
        t
    }
}

impl Spacing {
    /// What is written of all of it.
    pub fn to_json(&self) -> (r: JsonObject)
        ensures
            r@ == self.written(),
    {
        let mut map = JsonObject::new();
        map.insert(owned("xs"), json_float(self.xs));
        map.insert(owned("sm"), json_float(self.sm));
        map.insert(owned("md"), json_float(self.md));
        map.insert(owned("lg"), json_float(self.lg));
        map.insert(owned("xl"), json_float(self.xl));
        map
    }

    /// What is written of what is owned or differs from the parent's.
    pub fn to_patch(&self, parent: Option<&Spacing>, section: &str, owned_keys: &TextSet) -> (r: JsonObject)
        ensures
            r@ == self.patch(
                match parent {
                    Some(p) => Some(*p),
                    None => None,
                },
                section@,
                owned_keys@,
            ),
    {
        reveal(Spacing::patch);
        let mut map = JsonObject::new();
        insert_float_if_changed(
            &mut map,
            "xs",
            self.xs,
            match parent {
                Some(p) => Some(p.xs),
                None => None,
            },
            owns(owned_keys, section, "xs"),
        );
        insert_float_if_changed(
            &mut map,
            "sm",
            self.sm,
            match parent {
                Some(p) => Some(p.sm),
                None => None,
            },
            owns(owned_keys, section, "sm"),
        );
        insert_float_if_changed(
            &mut map,
            "md",
            self.md,
            match parent {
                Some(p) => Some(p.md),
                None => None,
            },
            owns(owned_keys, section, "md"),
        );
        insert_float_if_changed(
            &mut map,
            "lg",
            self.lg,
            match parent {
                Some(p) => Some(p.lg),
                None => None,
            },
            owns(owned_keys, section, "lg"),
        );
        insert_float_if_changed(
            &mut map,
            "xl",
            self.xl,
            match parent {
                Some(p) => Some(p.xl),
                None => None,
            },
            owns(owned_keys, section, "xl"),
        );
        map
    }

    /// Takes over what a file gives.
    pub fn read_json(&mut self, j: Option<&Json>)
        ensures
            *final(self) == old(self).read(json::json_view(j)),
    {
        reveal(Spacing::read);
        self.xs = parse_float_field(j, "xs", self.xs);
        self.sm = parse_float_field(j, "sm", self.sm);
        self.md = parse_float_field(j, "md", self.md);
        self.lg = parse_float_field(j, "lg", self.lg);
        self.xl = parse_float_field(j, "xl", self.xl);
    }

    /// Puts these tokens into a token set.
    pub fn put_tokens(&self, set: &mut TokenSet)
        ensures
            final(set)@ == self.exported(old(set)@),
    {
        set.set("spacing", "xs", TokenValue::Float(self.xs));
        set.set("spacing", "sm", TokenValue::Float(self.sm));
        set.set("spacing", "md", TokenValue::Float(self.md));
        set.set("spacing", "lg", TokenValue::Float(self.lg));
        set.set("spacing", "xl", TokenValue::Float(self.xl));
    }

    /// Puts these tokens into a store.
    pub fn put_store(&self, store: &mut TokenStore)
        ensures
            final(store)@ == self.in_store(old(store)@),
    {
        put_number(store, "spacing", "xs", self.xs);
        put_number(store, "spacing", "sm", self.sm);
        put_number(store, "spacing", "md", self.md);
        put_number(store, "spacing", "lg", self.lg);
        put_number(store, "spacing", "xl", self.xl);
    }
}

impl Spacing {
    /// Whether all values are equal; numbers are compared as numbers.
    pub open spec fn same_as(self, other: Spacing) -> bool {
        &&& scalar::same_scalar(self.xs, other.xs)
        &&& scalar::same_scalar(self.sm, other.sm)
        &&& scalar::same_scalar(self.md, other.md)
        &&& scalar::same_scalar(self.lg, other.lg)
        &&& scalar::same_scalar(self.xl, other.xl)
    }
}

impl Spacing {
    /// Whether all values are equal; numbers are compared as numbers.
    pub fn same(&self, other: &Spacing) -> (r: bool)
        ensures
            r == self.same_as(*other),
    {
        self.xs.same(&other.xs)
            && self.sm.same(&other.sm)
            && self.md.same(&other.md)
            && self.lg.same(&other.lg)
            && self.xl.same(&other.xl)
    }
}

proof fn lemma_spacing_keys()
    ensures
        "xs"@ != "sm"@,
        "xs"@ != "md"@,
        "xs"@ != "lg"@,
        "xs"@ != "xl"@,
        "sm"@ != "md"@,
        "sm"@ != "lg"@,
        "sm"@ != "xl"@,
        "md"@ != "lg"@,
        "md"@ != "xl"@,
        "lg"@ != "xl"@,
{
    reveal_strlit("xs");
    reveal_strlit("sm");
    reveal_strlit("md");
    reveal_strlit("lg");
    reveal_strlit("xl");
    assert("xs"@.len() == 2);
    assert("sm"@.len() == 2);
    assert("md"@.len() == 2);
    assert("lg"@.len() == 2);
    assert("xl"@.len() == 2);
    assert("xs"@[0] != "sm"@[0]);
    assert("xs"@[0] != "md"@[0]);
    assert("xs"@[0] != "lg"@[0]);
    assert("xs"@[1] != "xl"@[1]);
    assert("sm"@[0] != "md"@[0]);
    assert("sm"@[0] != "lg"@[0]);
    assert("sm"@[0] != "xl"@[0]);
    assert("md"@[0] != "lg"@[0]);
    assert("md"@[0] != "xl"@[0]);
    assert("lg"@[0] != "xl"@[0]);
}

/// What is written of all of it is read again, whatever it is read over.
pub proof fn spacing_written_is_read(s: Spacing, over: Spacing)
    requires
        s.xs.finite(),
        s.sm.finite(),
        s.md.finite(),
        s.lg.finite(),
        s.xl.finite(),
    ensures
        over.read(Some(JsonModel::Object(s.written()))) == s,
{
    reveal(Spacing::read);
    lemma_spacing_keys();
    let o = s.written();
    let j = Some(JsonModel::Object(o));
    assert(field(j, "xs"@) == Some(json::float_json(s.xs)));
    assert(field(j, "sm"@) == Some(json::float_json(s.sm)));
    assert(field(j, "md"@) == Some(json::float_json(s.md)));
    assert(field(j, "lg"@) == Some(json::float_json(s.lg)));
    assert(field(j, "xl"@) == Some(json::float_json(s.xl)));
}

/// A key is written where it is owned or its value differs from the parent's, and nowhere else.
pub proof fn spacing_patch_keys(
    s: Spacing,
    parent: Option<Spacing>,
    section: Seq<char>,
    owned_keys: Set<Seq<char>>,
    key: Seq<char>,
)
    ensures
        s.patch(parent, section, owned_keys).dom().contains(key) <==> {
            ||| key == "xs"@ && (owned_keys.contains(token_key(section, "xs"@)) || (parent is Some && scalar::far_scalar(parent->Some_0.xs, s.xs)))
            ||| key == "sm"@ && (owned_keys.contains(token_key(section, "sm"@)) || (parent is Some && scalar::far_scalar(parent->Some_0.sm, s.sm)))
            ||| key == "md"@ && (owned_keys.contains(token_key(section, "md"@)) || (parent is Some && scalar::far_scalar(parent->Some_0.md, s.md)))
            ||| key == "lg"@ && (owned_keys.contains(token_key(section, "lg"@)) || (parent is Some && scalar::far_scalar(parent->Some_0.lg, s.lg)))
            ||| key == "xl"@ && (owned_keys.contains(token_key(section, "xl"@)) || (parent is Some && scalar::far_scalar(parent->Some_0.xl, s.xl)))
        },
{
    reveal(Spacing::patch);
    lemma_spacing_keys();
}

/// What is written of a key is its value.
pub proof fn spacing_patch_values(
    s: Spacing,
    parent: Option<Spacing>,
    section: Seq<char>,
    owned_keys: Set<Seq<char>>,
)
    ensures
        ({
            let o = s.patch(parent, section, owned_keys);
            &&& o.dom().contains("xs"@) ==> o["xs"@] == json::float_json(s.xs)
            &&& o.dom().contains("sm"@) ==> o["sm"@] == json::float_json(s.sm)
            &&& o.dom().contains("md"@) ==> o["md"@] == json::float_json(s.md)
            &&& o.dom().contains("lg"@) ==> o["lg"@] == json::float_json(s.lg)
            &&& o.dom().contains("xl"@) ==> o["xl"@] == json::float_json(s.xl)
        }),
{
    reveal(Spacing::patch);
    lemma_spacing_keys();
}

/// Whether all floats are numbers, and a float that may be left out is the parent's.
#[verifier::opaque]
pub open spec fn kept_spacing(s: Spacing, parent: Spacing) -> bool {
    &&& s.xs.finite()
    &&& scalar::far_scalar(parent.xs, s.xs) || parent.xs == s.xs
    &&& s.sm.finite()
    &&& scalar::far_scalar(parent.sm, s.sm) || parent.sm == s.sm
    &&& s.md.finite()
    &&& scalar::far_scalar(parent.md, s.md) || parent.md == s.md
    &&& s.lg.finite()
    &&& scalar::far_scalar(parent.lg, s.lg) || parent.lg == s.lg
    &&& s.xl.finite()
    &&& scalar::far_scalar(parent.xl, s.xl) || parent.xl == s.xl
}

/// What is written against a parent and read over that parent is the whole again, where a float is
/// only left out when it is the parent's.
pub proof fn spacing_patch_is_read(s: Spacing, parent: Spacing, section: Seq<char>, owned_keys: Set<Seq<char>>)
    requires
        kept_spacing(s, parent),
    ensures
        parent.read(Some(JsonModel::Object(s.patch(Some(parent), section, owned_keys)))) == s,
{
    reveal(Spacing::read);
    reveal(kept_spacing);
    let o = s.patch(Some(parent), section, owned_keys);
    let j = Some(JsonModel::Object(o));
    spacing_patch_values(s, Some(parent), section, owned_keys);
    spacing_patch_keys(s, Some(parent), section, owned_keys, "xs"@);
    spacing_patch_keys(s, Some(parent), section, owned_keys, "sm"@);
    spacing_patch_keys(s, Some(parent), section, owned_keys, "md"@);
    spacing_patch_keys(s, Some(parent), section, owned_keys, "lg"@);
    spacing_patch_keys(s, Some(parent), section, owned_keys, "xl"@);
    assert(float_field(j, "xs"@, parent.xs) == s.xs);
    assert(float_field(j, "sm"@, parent.sm) == s.sm);
    assert(float_field(j, "md"@, parent.md) == s.md);
    assert(float_field(j, "lg"@, parent.lg) == s.lg);
    assert(float_field(j, "xl"@, parent.xl) == s.xl);
}

// ---------------------------------------------------------------------------------------------
// A measure for each of the three sizes
// ---------------------------------------------------------------------------------------------
/// A measure for each of the three sizes.
#[derive(Clone, Copy, Debug, PartialEq, Eq, Structural)]
pub struct SizeScale {
    pub sm: Scalar,
    pub md: Scalar,
    pub lg: Scalar,
}

impl SizeScale {
    /// What is written of all of it.
    pub open spec fn written(self) -> ObjectModel {
        let m = Map::<Seq<char>, JsonModel>::empty();
        let m = m.insert("sm"@, json::float_json(self.sm));
        let m = m.insert("md"@, json::float_json(self.md));
        let m = m.insert("lg"@, json::float_json(self.lg));
        m
    }

    /// What is written of what is owned or differs from the parent's.
    #[verifier::opaque]
    pub open spec fn patch(
        self,
        parent: Option<SizeScale>,
        section: Seq<char>,
        owned_keys: Set<Seq<char>>,
    ) -> ObjectModel {
        let m = Map::<Seq<char>, JsonModel>::empty();
        let m = float_entry(
            m,
            "sm"@,
            self.sm,
            match parent {
                Some(p) => Some(p.sm),
                None => None,
            },
            owned_keys.contains(token_key(section, "sm"@)),
        );
        let m = float_entry(
            m,
            "md"@,
            self.md,
            match parent {
                Some(p) => Some(p.md),
                None => None,
            },
            owned_keys.contains(token_key(section, "md"@)),
        );
        let m = float_entry(
            m,
            "lg"@,
            self.lg,
            match parent {
                Some(p) => Some(p.lg),
                None => None,
            },
            owned_keys.contains(token_key(section, "lg"@)),
        );
        m
    }

    /// It with what a file gives in place of what it gives.
    #[verifier::opaque]
    pub open spec fn read(self, j: Option<JsonModel>) -> SizeScale {
        SizeScale {
            sm: float_field(j, "sm"@, self.sm),
            md: float_field(j, "md"@, self.md),
            lg: float_field(j, "lg"@, self.lg),
        }
    }

    /// The token set with these tokens.
    pub open spec fn exported(self, t: Tokens, category: Seq<char>) -> Tokens {
        let t = tokens::stored(t, category, "sm"@, Value::Float(self.sm));
        let t = tokens::stored(t, category, "md"@, Value::Float(self.md));
        let t = tokens::stored(t, category, "lg"@, Value::Float(self.lg));
        t
    }

    /// The store with these tokens.
    pub open spec fn in_store(self, t: Store, category: Seq<char>) -> Store {
        let t = textmap::put2(t, category, "sm"@, Token::Number(store::single_measure(self.sm)));
        let t = textmap::put2(t, category, "md"@, Token::Number(store::single_measure(self.md)));
        let t = textmap::put2(t, category, "lg"@, Token::Number(store::single_measure(self.lg)));
        t
    }
}

impl SizeScale {
    /// What is written of all of it.
    pub fn to_json(&self) -> (r: JsonObject)
        ensures
            r@ == self.written(),
    {
        let mut map = JsonObject::new();
        map.insert(owned("sm"), json_float(self.sm));
        map.insert(owned("md"), json_float(self.md));
        map.insert(owned("lg"), json_float(self.lg));
        map
    }

    /// What is written of what is owned or differs from the parent's.
    pub fn to_patch(&self, parent: Option<&SizeScale>, section: &str, owned_keys: &TextSet) -> (r: JsonObject)
        ensures
            r@ == self.patch(
                match parent {
                    Some(p) => Some(*p),
                    None => None,
                },
                section@,
                owned_keys@,
            ),
    {
        reveal(SizeScale::patch);
        let mut map = JsonObject::new();
        insert_float_if_changed(
            &mut map,
            "sm",
            self.sm,
            match parent {
                Some(p) => Some(p.sm),
                None => None,
            },
            owns(owned_keys, section, "sm"),
        );
        insert_float_if_changed(
            &mut map,
            "md",
            self.md,
            match parent {
                Some(p) => Some(p.md),
                None => None,
            },
            owns(owned_keys, section, "md"),
        );
        insert_float_if_changed(
            &mut map,
            "lg",
            self.lg,
            match parent {
                Some(p) => Some(p.lg),
                None => None,
            },
            owns(owned_keys, section, "lg"),
        );
        map
    }

    /// Takes over what a file gives.
    pub fn read_json(&mut self, j: Option<&Json>)
        ensures
            *final(self) == old(self).read(json::json_view(j)),
    {
        reveal(SizeScale::read);
        self.sm = parse_float_field(j, "sm", self.sm);
        self.md = parse_float_field(j, "md", self.md);
        self.lg = parse_float_field(j, "lg", self.lg);
    }

    /// Puts these tokens into a token set.
    pub fn put_tokens(&self, set: &mut TokenSet, category: &str)
        ensures
            final(set)@ == self.exported(old(set)@, category@),
    {
        set.set(category, "sm", TokenValue::Float(self.sm));
        set.set(category, "md", TokenValue::Float(self.md));
        set.set(category, "lg", TokenValue::Float(self.lg));
    }

    /// Puts these tokens into a store.
    pub fn put_store(&self, store: &mut TokenStore, category: &str)
        ensures
            final(store)@ == self.in_store(old(store)@, category@),
    {
        put_number(store, category, "sm", self.sm);
        put_number(store, category, "md", self.md);
        put_number(store, category, "lg", self.lg);
    }
}

impl SizeScale {
    /// Whether all values are equal; numbers are compared as numbers.
    pub open spec fn same_as(self, other: SizeScale) -> bool {
        &&& scalar::same_scalar(self.sm, other.sm)
        &&& scalar::same_scalar(self.md, other.md)
        &&& scalar::same_scalar(self.lg, other.lg)
    }
}

impl SizeScale {
    /// Whether all values are equal; numbers are compared as numbers.
    pub fn same(&self, other: &SizeScale) -> (r: bool)
        ensures
            r == self.same_as(*other),
    {
        self.sm.same(&other.sm)
            && self.md.same(&other.md)
            && self.lg.same(&other.lg)
    }
}

proof fn lemma_size_scale_keys()
    ensures
        "sm"@ != "md"@,
        "sm"@ != "lg"@,
        "md"@ != "lg"@,
{
    reveal_strlit("sm");
    reveal_strlit("md");
    reveal_strlit("lg");
    assert("sm"@.len() == 2);
    assert("md"@.len() == 2);
    assert("lg"@.len() == 2);
    assert("sm"@[0] != "md"@[0]);
    assert("sm"@[0] != "lg"@[0]);
    assert("md"@[0] != "lg"@[0]);
}

/// What is written of all of it is read again, whatever it is read over.
pub proof fn size_scale_written_is_read(s: SizeScale, over: SizeScale)
    requires
        s.sm.finite(),
        s.md.finite(),
        s.lg.finite(),
    ensures
        over.read(Some(JsonModel::Object(s.written()))) == s,
{
    reveal(SizeScale::read);
    lemma_size_scale_keys();
    let o = s.written();
    let j = Some(JsonModel::Object(o));
    assert(field(j, "sm"@) == Some(json::float_json(s.sm)));
    assert(field(j, "md"@) == Some(json::float_json(s.md)));
    assert(field(j, "lg"@) == Some(json::float_json(s.lg)));
}

/// A key is written where it is owned or its value differs from the parent's, and nowhere else.
pub proof fn size_scale_patch_keys(
    s: SizeScale,
    parent: Option<SizeScale>,
    section: Seq<char>,
    owned_keys: Set<Seq<char>>,
    key: Seq<char>,
)
    ensures
        s.patch(parent, section, owned_keys).dom().contains(key) <==> {
            ||| key == "sm"@ && (owned_keys.contains(token_key(section, "sm"@)) || (parent is Some && scalar::far_scalar(parent->Some_0.sm, s.sm)))
            ||| key == "md"@ && (owned_keys.contains(token_key(section, "md"@)) || (parent is Some && scalar::far_scalar(parent->Some_0.md, s.md)))
            ||| key == "lg"@ && (owned_keys.contains(token_key(section, "lg"@)) || (parent is Some && scalar::far_scalar(parent->Some_0.lg, s.lg)))
        },
{
    reveal(SizeScale::patch);
    lemma_size_scale_keys();
}

/// What is written of a key is its value.
pub proof fn size_scale_patch_values(
    s: SizeScale,
    parent: Option<SizeScale>,
    section: Seq<char>,
    owned_keys: Set<Seq<char>>,
)
    ensures
        ({
            let o = s.patch(parent, section, owned_keys);
            &&& o.dom().contains("sm"@) ==> o["sm"@] == json::float_json(s.sm)
            &&& o.dom().contains("md"@) ==> o["md"@] == json::float_json(s.md)
            &&& o.dom().contains("lg"@) ==> o["lg"@] == json::float_json(s.lg)
        }),
{
    reveal(SizeScale::patch);
    lemma_size_scale_keys();
}

/// Whether all floats are numbers, and a float that may be left out is the parent's.
#[verifier::opaque]
pub open spec fn kept_size_scale(s: SizeScale, parent: SizeScale) -> bool {
    &&& s.sm.finite()
    &&& scalar::far_scalar(parent.sm, s.sm) || parent.sm == s.sm
    &&& s.md.finite()
    &&& scalar::far_scalar(parent.md, s.md) || parent.md == s.md
    &&& s.lg.finite()
    &&& scalar::far_scalar(parent.lg, s.lg) || parent.lg == s.lg
}

/// What is written against a parent and read over that parent is the whole again, where a float is
/// only left out when it is the parent's.
pub proof fn size_scale_patch_is_read(s: SizeScale, parent: SizeScale, section: Seq<char>, owned_keys: Set<Seq<char>>)
    requires
        kept_size_scale(s, parent),
    ensures
        parent.read(Some(JsonModel::Object(s.patch(Some(parent), section, owned_keys)))) == s,
{
    reveal(SizeScale::read);
    reveal(kept_size_scale);
    let o = s.patch(Some(parent), section, owned_keys);
    let j = Some(JsonModel::Object(o));
    size_scale_patch_values(s, Some(parent), section, owned_keys);
    size_scale_patch_keys(s, Some(parent), section, owned_keys, "sm"@);
    size_scale_patch_keys(s, Some(parent), section, owned_keys, "md"@);
    size_scale_patch_keys(s, Some(parent), section, owned_keys, "lg"@);
    assert(float_field(j, "sm"@, parent.sm) == s.sm);
    assert(float_field(j, "md"@, parent.md) == s.md);
    assert(float_field(j, "lg"@, parent.lg) == s.lg);
}

// ---------------------------------------------------------------------------------------------
// The border widths
// ---------------------------------------------------------------------------------------------
/// The border widths.
#[derive(Clone, Copy, Debug, PartialEq, Eq, Structural)]
pub struct BorderWidths {
    pub none: Scalar,
    pub sm: Scalar,
    pub focus: Scalar,
}

impl BorderWidths {
    /// What is written of all of it.
    pub open spec fn written(self) -> ObjectModel {
        let m = Map::<Seq<char>, JsonModel>::empty();
        let m = m.insert("none"@, json::float_json(self.none));
        let m = m.insert("sm"@, json::float_json(self.sm));
        let m = m.insert("focus"@, json::float_json(self.focus));
        m
    }

    /// What is written of what is owned or differs from the parent's.
    #[verifier::opaque]
    pub open spec fn patch(
        self,
        parent: Option<BorderWidths>,
        section: Seq<char>,
        owned_keys: Set<Seq<char>>,
    ) -> ObjectModel {
        let m = Map::<Seq<char>, JsonModel>::empty();
        let m = float_entry(
            m,
            "none"@,
            self.none,
            match parent {
                Some(p) => Some(p.none),
                None => None,
            },
            owned_keys.contains(token_key(section, "none"@)),
        );
        let m = float_entry(
            m,
            "sm"@,
            self.sm,
            match parent {
                Some(p) => Some(p.sm),
                None => None,
            },
            owned_keys.contains(token_key(section, "sm"@)),
        );
        let m = float_entry(
            m,
            "focus"@,
            self.focus,
            match parent {
                Some(p) => Some(p.focus),
                None => None,
            },
            owned_keys.contains(token_key(section, "focus"@)),
        );
        m
    }

    /// It with what a file gives in place of what it gives.
    #[verifier::opaque]
    pub open spec fn read(self, j: Option<JsonModel>) -> BorderWidths {
        BorderWidths {
            none: float_field(j, "none"@, self.none),
            sm: float_field(j, "sm"@, self.sm),
            focus: float_field(j, "focus"@, self.focus),
        }
    }

    /// The token set with these tokens.
    pub open spec fn exported(self, t: Tokens) -> Tokens {
        let t = tokens::stored(t, "borderWidth"@, "none"@, Value::Float(self.none));
        let t = tokens::stored(t, "borderWidth"@, "sm"@, Value::Float(self.sm));
        let t = tokens::stored(t, "borderWidth"@, "focus"@, Value::Float(self.focus));
        t
    }

    /// The store with these tokens.
    pub open spec fn in_store(self, t: Store) -> Store {
        let t = textmap::put2(t, "borderWidth"@, "none"@, Token::Number(store::single_measure(self.none)));
        let t = textmap::put2(t, "borderWidth"@, "sm"@, Token::Number(store::single_measure(self.sm)));
        let t = textmap::put2(t, "borderWidth"@, "focus"@, Token::Number(store::single_measure(self.focus)));
        t
    }
}

impl BorderWidths {
    /// What is written of all of it.
    pub fn to_json(&self) -> (r: JsonObject)
        ensures
            r@ == self.written(),
    {
        let mut map = JsonObject::new();
        map.insert(owned("none"), json_float(self.none));
        map.insert(owned("sm"), json_float(self.sm));
        map.insert(owned("focus"), json_float(self.focus));
        map
    }

    /// What is written of what is owned or differs from the parent's.
    pub fn to_patch(&self, parent: Option<&BorderWidths>, section: &str, owned_keys: &TextSet) -> (r: JsonObject)
        ensures
            r@ == self.patch(
                match parent {
                    Some(p) => Some(*p),
                    None => None,
                },
                section@,
                owned_keys@,
            ),
    {
        reveal(BorderWidths::patch);
        let mut map = JsonObject::new();
        insert_float_if_changed(
            &mut map,
            "none",
            self.none,
            match parent {
                Some(p) => Some(p.none),
                None => None,
            },
            owns(owned_keys, section, "none"),
        );
        insert_float_if_changed(
            &mut map,
            "sm",
            self.sm,
            match parent {
                Some(p) => Some(p.sm),
                None => None,
            },
            owns(owned_keys, section, "sm"),
        );
        insert_float_if_changed(
            &mut map,
            "focus",
            self.focus,
            match parent {
                Some(p) => Some(p.focus),
                None => None,
            },
            owns(owned_keys, section, "focus"),
        );
        map
    }

    /// Takes over what a file gives.
    pub fn read_json(&mut self, j: Option<&Json>)
        ensures
            *final(self) == old(self).read(json::json_view(j)),
    {
        reveal(BorderWidths::read);
        self.none = parse_float_field(j, "none", self.none);
        self.sm = parse_float_field(j, "sm", self.sm);
        self.focus = parse_float_field(j, "focus", self.focus);
    }

    /// Puts these tokens into a token set.
    pub fn put_tokens(&self, set: &mut TokenSet)
        ensures
            final(set)@ == self.exported(old(set)@),
    {
        set.set("borderWidth", "none", TokenValue::Float(self.none));
        set.set("borderWidth", "sm", TokenValue::Float(self.sm));
        set.set("borderWidth", "focus", TokenValue::Float(self.focus));
    }

    /// Puts these tokens into a store.
    pub fn put_store(&self, store: &mut TokenStore)
        ensures
            final(store)@ == self.in_store(old(store)@),
    {
        put_number(store, "borderWidth", "none", self.none);
        put_number(store, "borderWidth", "sm", self.sm);
        put_number(store, "borderWidth", "focus", self.focus);
    }
}

impl BorderWidths {
    /// Whether all values are equal; numbers are compared as numbers.
    pub open spec fn same_as(self, other: BorderWidths) -> bool {
        &&& scalar::same_scalar(self.none, other.none)
        &&& scalar::same_scalar(self.sm, other.sm)
        &&& scalar::same_scalar(self.focus, other.focus)
    }
}

impl BorderWidths {
    /// Whether all values are equal; numbers are compared as numbers.
    pub fn same(&self, other: &BorderWidths) -> (r: bool)
        ensures
            r == self.same_as(*other),
    {
        self.none.same(&other.none)
            && self.sm.same(&other.sm)
            && self.focus.same(&other.focus)
    }
}

proof fn lemma_border_widths_keys()
    ensures
        "none"@ != "sm"@,
        "none"@ != "focus"@,
        "sm"@ != "focus"@,
{
    reveal_strlit("none");
    reveal_strlit("sm");
    reveal_strlit("focus");
    assert("none"@.len() == 4);
    assert("sm"@.len() == 2);
    assert("focus"@.len() == 5);
}

/// What is written of all of it is read again, whatever it is read over.
pub proof fn border_widths_written_is_read(s: BorderWidths, over: BorderWidths)
    requires
        s.none.finite(),
        s.sm.finite(),
        s.focus.finite(),
    ensures
        over.read(Some(JsonModel::Object(s.written()))) == s,
{
    reveal(BorderWidths::read);
    lemma_border_widths_keys();
    let o = s.written();
    let j = Some(JsonModel::Object(o));
    assert(field(j, "none"@) == Some(json::float_json(s.none)));
    assert(field(j, "sm"@) == Some(json::float_json(s.sm)));
    assert(field(j, "focus"@) == Some(json::float_json(s.focus)));
}

/// A key is written where it is owned or its value differs from the parent's, and nowhere else.
pub proof fn border_widths_patch_keys(
    s: BorderWidths,
    parent: Option<BorderWidths>,
    section: Seq<char>,
    owned_keys: Set<Seq<char>>,
    key: Seq<char>,
)
    ensures
        s.patch(parent, section, owned_keys).dom().contains(key) <==> {
            ||| key == "none"@ && (owned_keys.contains(token_key(section, "none"@)) || (parent is Some && scalar::far_scalar(parent->Some_0.none, s.none)))
            ||| key == "sm"@ && (owned_keys.contains(token_key(section, "sm"@)) || (parent is Some && scalar::far_scalar(parent->Some_0.sm, s.sm)))
            ||| key == "focus"@ && (owned_keys.contains(token_key(section, "focus"@)) || (parent is Some && scalar::far_scalar(parent->Some_0.focus, s.focus)))
        },
{
    reveal(BorderWidths::patch);
    lemma_border_widths_keys();
}

/// What is written of a key is its value.
pub proof fn border_widths_patch_values(
    s: BorderWidths,
    parent: Option<BorderWidths>,
    section: Seq<char>,
    owned_keys: Set<Seq<char>>,
)
    ensures
        ({
            let o = s.patch(parent, section, owned_keys);
            &&& o.dom().contains("none"@) ==> o["none"@] == json::float_json(s.none)
            &&& o.dom().contains("sm"@) ==> o["sm"@] == json::float_json(s.sm)
            &&& o.dom().contains("focus"@) ==> o["focus"@] == json::float_json(s.focus)
        }),
{
    reveal(BorderWidths::patch);
    lemma_border_widths_keys();
}

/// Whether all floats are numbers, and a float that may be left out is the parent's.
#[verifier::opaque]
pub open spec fn kept_border_widths(s: BorderWidths, parent: BorderWidths) -> bool {
    &&& s.none.finite()
    &&& scalar::far_scalar(parent.none, s.none) || parent.none == s.none
    &&& s.sm.finite()
    &&& scalar::far_scalar(parent.sm, s.sm) || parent.sm == s.sm
    &&& s.focus.finite()
    &&& scalar::far_scalar(parent.focus, s.focus) || parent.focus == s.focus
}

/// What is written against a parent and read over that parent is the whole again, where a float is
/// only left out when it is the parent's.
pub proof fn border_widths_patch_is_read(s: BorderWidths, parent: BorderWidths, section: Seq<char>, owned_keys: Set<Seq<char>>)
    requires
        kept_border_widths(s, parent),
    ensures
        parent.read(Some(JsonModel::Object(s.patch(Some(parent), section, owned_keys)))) == s,
{
    reveal(BorderWidths::read);
    reveal(kept_border_widths);
    let o = s.patch(Some(parent), section, owned_keys);
    let j = Some(JsonModel::Object(o));
    border_widths_patch_values(s, Some(parent), section, owned_keys);
    border_widths_patch_keys(s, Some(parent), section, owned_keys, "none"@);
    border_widths_patch_keys(s, Some(parent), section, owned_keys, "sm"@);
    border_widths_patch_keys(s, Some(parent), section, owned_keys, "focus"@);
    assert(float_field(j, "none"@, parent.none) == s.none);
    assert(float_field(j, "sm"@, parent.sm) == s.sm);
    assert(float_field(j, "focus"@, parent.focus) == s.focus);
}

// ---------------------------------------------------------------------------------------------
// The font sizes and font families
// ---------------------------------------------------------------------------------------------
/// The font sizes and font families.
#[derive(Debug, PartialEq)]
pub struct Typography {
    pub size_xs: Scalar,
    pub size_caption: Scalar,
    pub size_sm: Scalar,
    pub size_md: Scalar,
    pub size_lg: Scalar,
    pub size_helper: Scalar,
    pub primary: String,
    pub secondary: String,
    pub tertiary: String,
}

/// The model of typography.
#[verifier::ext_equal]
pub struct TypographyModel {
    pub size_xs: Scalar,
    pub size_caption: Scalar,
    pub size_sm: Scalar,
    pub size_md: Scalar,
    pub size_lg: Scalar,
    pub size_helper: Scalar,
    pub primary: Seq<char>,
    pub secondary: Seq<char>,
    pub tertiary: Seq<char>,
}

impl View for Typography {
    type V = TypographyModel;

    open spec fn view(&self) -> TypographyModel {
        TypographyModel {
            size_xs: self.size_xs,
            size_caption: self.size_caption,
            size_sm: self.size_sm,
            size_md: self.size_md,
            size_lg: self.size_lg,
            size_helper: self.size_helper,
            primary: self.primary@,
            secondary: self.secondary@,
            tertiary: self.tertiary@,
        }
    }
}

impl Duplicate for Typography {
    fn duplicate(&self) -> (r: Self) {
        Typography {
            size_xs: self.size_xs,
            size_caption: self.size_caption,
            size_sm: self.size_sm,
            size_md: self.size_md,
            size_lg: self.size_lg,
            size_helper: self.size_helper,
            primary: self.primary.clone(),
            secondary: self.secondary.clone(),
            tertiary: self.tertiary.clone(),
        }
    }
}

impl TypographyModel {
    /// What is written of all of it.
    pub open spec fn written(self) -> ObjectModel {
        let m = Map::<Seq<char>, JsonModel>::empty();
        let m = m.insert("font-size-xs"@, json::float_json(self.size_xs));
        let m = m.insert("font-size-caption"@, json::float_json(self.size_caption));
        let m = m.insert("font-size-sm"@, json::float_json(self.size_sm));
        let m = m.insert("font-size-md"@, json::float_json(self.size_md));
        let m = m.insert("font-size-lg"@, json::float_json(self.size_lg));
        let m = m.insert("font-size-helper"@, json::float_json(self.size_helper));
        let m = m.insert("font-primary"@, JsonModel::Text(self.primary));
        let m = m.insert("font-secondary"@, JsonModel::Text(self.secondary));
        let m = m.insert("font-tertiary"@, JsonModel::Text(self.tertiary));
        m
    }

    /// What is written of what is owned or differs from the parent's.
    #[verifier::opaque]
    pub open spec fn patch(
        self,
        parent: Option<TypographyModel>,
        section: Seq<char>,
        owned_keys: Set<Seq<char>>,
    ) -> ObjectModel {
        let m = Map::<Seq<char>, JsonModel>::empty();
        let m = float_entry(
            m,
            "font-size-xs"@,
            self.size_xs,
            match parent {
                Some(p) => Some(p.size_xs),
                None => None,
            },
            owned_keys.contains(token_key(section, "font-size-xs"@)),
        );
        let m = float_entry(
            m,
            "font-size-caption"@,
            self.size_caption,
            match parent {
                Some(p) => Some(p.size_caption),
                None => None,
            },
            owned_keys.contains(token_key(section, "font-size-caption"@)),
        );
        let m = float_entry(
            m,
            "font-size-sm"@,
            self.size_sm,
            match parent {
                Some(p) => Some(p.size_sm),
                None => None,
            },
            owned_keys.contains(token_key(section, "font-size-sm"@)),
        );
        let m = float_entry(
            m,
            "font-size-md"@,
            self.size_md,
            match parent {
                Some(p) => Some(p.size_md),
                None => None,
            },
            owned_keys.contains(token_key(section, "font-size-md"@)),
        );
        let m = float_entry(
            m,
            "font-size-lg"@,
            self.size_lg,
            match parent {
                Some(p) => Some(p.size_lg),
                None => None,
            },
            owned_keys.contains(token_key(section, "font-size-lg"@)),
        );
        let m = float_entry(
            m,
            "font-size-helper"@,
            self.size_helper,
            match parent {
                Some(p) => Some(p.size_helper),
                None => None,
            },
            owned_keys.contains(token_key(section, "font-size-helper"@)),
        );
        let m = text_entry(
            m,
            "font-primary"@,
            self.primary,
            match parent {
                Some(p) => Some(p.primary),
                None => None,
            },
            owned_keys.contains(token_key(section, "font-primary"@)),
        );
        let m = text_entry(
            m,
            "font-secondary"@,
            self.secondary,
            match parent {
                Some(p) => Some(p.secondary),
                None => None,
            },
            owned_keys.contains(token_key(section, "font-secondary"@)),
        );
        let m = text_entry(
            m,
            "font-tertiary"@,
            self.tertiary,
            match parent {
                Some(p) => Some(p.tertiary),
                None => None,
            },
            owned_keys.contains(token_key(section, "font-tertiary"@)),
        );
        m
    }

    /// It with what a file gives in place of what it gives.
    #[verifier::opaque]
    pub open spec fn read(self, j: Option<JsonModel>) -> TypographyModel {
        TypographyModel {
            size_xs: float_field(j, "font-size-xs"@, self.size_xs),
            size_caption: float_field(j, "font-size-caption"@, self.size_caption),
            size_sm: float_field(j, "font-size-sm"@, self.size_sm),
            size_md: float_field(j, "font-size-md"@, self.size_md),
            size_lg: float_field(j, "font-size-lg"@, self.size_lg),
            size_helper: float_field(j, "font-size-helper"@, self.size_helper),
            primary: text_field(j, "font-primary"@, self.primary),
            secondary: text_field(j, "font-secondary"@, self.secondary),
            tertiary: text_field(j, "font-tertiary"@, self.tertiary),
        }
    }

    /// The token set with these tokens.
    pub open spec fn exported(self, t: Tokens) -> Tokens {
        let t = tokens::stored(t, "fontSize"@, "xs"@, Value::Float(self.size_xs));
        let t = tokens::stored(t, "fontSize"@, "caption"@, Value::Float(self.size_caption));
        let t = tokens::stored(t, "fontSize"@, "sm"@, Value::Float(self.size_sm));
        let t = tokens::stored(t, "fontSize"@, "md"@, Value::Float(self.size_md));
        let t = tokens::stored(t, "fontSize"@, "lg"@, Value::Float(self.size_lg));
        let t = tokens::stored(t, "fontSize"@, "helper"@, Value::Float(self.size_helper));
        let t = tokens::stored(t, "font"@, "primary"@, Value::Text(self.primary));
        let t = tokens::stored(t, "font"@, "secondary"@, Value::Text(self.secondary));
        let t = tokens::stored(t, "font"@, "tertiary"@, Value::Text(self.tertiary));
        t
    }

    /// The store with these tokens.
    pub open spec fn in_store(self, t: Store) -> Store {
        let t = textmap::put2(t, "fontSize"@, "xs"@, Token::Number(store::single_measure(self.size_xs)));
        let t = textmap::put2(t, "fontSize"@, "caption"@, Token::Number(store::single_measure(self.size_caption)));
        let t = textmap::put2(t, "fontSize"@, "sm"@, Token::Number(store::single_measure(self.size_sm)));
        let t = textmap::put2(t, "fontSize"@, "md"@, Token::Number(store::single_measure(self.size_md)));
        let t = textmap::put2(t, "fontSize"@, "lg"@, Token::Number(store::single_measure(self.size_lg)));
        let t = textmap::put2(t, "fontSize"@, "helper"@, Token::Number(store::single_measure(self.size_helper)));
        let t = textmap::put2(t, "font"@, "primary"@, Token::Text(self.primary));
        let t = textmap::put2(t, "font"@, "secondary"@, Token::Text(self.secondary));
        let t = textmap::put2(t, "font"@, "tertiary"@, Token::Text(self.tertiary));
        t
    }
}

impl Typography {
    /// What is written of all of it.
    pub fn to_json(&self) -> (r: JsonObject)
        ensures
            r@ == self@.written(),
    {
        let mut map = JsonObject::new();
        map.insert(owned("font-size-xs"), json_float(self.size_xs));
        map.insert(owned("font-size-caption"), json_float(self.size_caption));
        map.insert(owned("font-size-sm"), json_float(self.size_sm));
        map.insert(owned("font-size-md"), json_float(self.size_md));
        map.insert(owned("font-size-lg"), json_float(self.size_lg));
        map.insert(owned("font-size-helper"), json_float(self.size_helper));
        map.insert(owned("font-primary"), Json::String(self.primary.clone()));
        map.insert(owned("font-secondary"), Json::String(self.secondary.clone()));
        map.insert(owned("font-tertiary"), Json::String(self.tertiary.clone()));
        map
    }

    /// What is written of what is owned or differs from the parent's.
    pub fn to_patch(&self, parent: Option<&Typography>, section: &str, owned_keys: &TextSet) -> (r: JsonObject)
        ensures
            r@ == self@.patch(
                match parent {
                    Some(p) => Some(p@),
                    None => None,
                },
                section@,
                owned_keys@,
            ),
    {
        reveal(TypographyModel::patch);
        let mut map = JsonObject::new();
        insert_float_if_changed(
            &mut map,
            "font-size-xs",
            self.size_xs,
            match parent {
                Some(p) => Some(p.size_xs),
                None => None,
            },
            owns(owned_keys, section, "font-size-xs"),
        );
        insert_float_if_changed(
            &mut map,
            "font-size-caption",
            self.size_caption,
            match parent {
                Some(p) => Some(p.size_caption),
                None => None,
            },
            owns(owned_keys, section, "font-size-caption"),
        );
        insert_float_if_changed(
            &mut map,
            "font-size-sm",
            self.size_sm,
            match parent {
                Some(p) => Some(p.size_sm),
                None => None,
            },
            owns(owned_keys, section, "font-size-sm"),
        );
        insert_float_if_changed(
            &mut map,
            "font-size-md",
            self.size_md,
            match parent {
                Some(p) => Some(p.size_md),
                None => None,
            },
            owns(owned_keys, section, "font-size-md"),
        );
        insert_float_if_changed(
            &mut map,
            "font-size-lg",
            self.size_lg,
            match parent {
                Some(p) => Some(p.size_lg),
                None => None,
            },
            owns(owned_keys, section, "font-size-lg"),
        );
        insert_float_if_changed(
            &mut map,
            "font-size-helper",
            self.size_helper,
            match parent {
                Some(p) => Some(p.size_helper),
                None => None,
            },
            owns(owned_keys, section, "font-size-helper"),
        );
        insert_string_if_changed(
            &mut map,
            "font-primary",
            self.primary.as_str(),
            match parent {
                Some(p) => Some(p.primary.as_str()),
                None => None,
            },
            owns(owned_keys, section, "font-primary"),
        );
        insert_string_if_changed(
            &mut map,
            "font-secondary",
            self.secondary.as_str(),
            match parent {
                Some(p) => Some(p.secondary.as_str()),
                None => None,
            },
            owns(owned_keys, section, "font-secondary"),
        );
        insert_string_if_changed(
            &mut map,
            "font-tertiary",
            self.tertiary.as_str(),
            match parent {
                Some(p) => Some(p.tertiary.as_str()),
                None => None,
            },
            owns(owned_keys, section, "font-tertiary"),
        );
        map
    }

    /// Takes over what a file gives.
    pub fn read_json(&mut self, j: Option<&Json>)
        ensures
            final(self)@ == old(self)@.read(json::json_view(j)),
    {
        reveal(TypographyModel::read);
        self.size_xs = parse_float_field(j, "font-size-xs", self.size_xs);
        self.size_caption = parse_float_field(j, "font-size-caption", self.size_caption);
        self.size_sm = parse_float_field(j, "font-size-sm", self.size_sm);
        self.size_md = parse_float_field(j, "font-size-md", self.size_md);
        self.size_lg = parse_float_field(j, "font-size-lg", self.size_lg);
        self.size_helper = parse_float_field(j, "font-size-helper", self.size_helper);
        self.primary = parse_string_field(j, "font-primary", self.primary.as_str());
        self.secondary = parse_string_field(j, "font-secondary", self.secondary.as_str());
        self.tertiary = parse_string_field(j, "font-tertiary", self.tertiary.as_str());
    }

    /// Puts these tokens into a token set.
    pub fn put_tokens(&self, set: &mut TokenSet)
        ensures
            final(set)@ == self@.exported(old(set)@),
    {
        set.set("fontSize", "xs", TokenValue::Float(self.size_xs));
        set.set("fontSize", "caption", TokenValue::Float(self.size_caption));
        set.set("fontSize", "sm", TokenValue::Float(self.size_sm));
        set.set("fontSize", "md", TokenValue::Float(self.size_md));
        set.set("fontSize", "lg", TokenValue::Float(self.size_lg));
        set.set("fontSize", "helper", TokenValue::Float(self.size_helper));
        set.set("font", "primary", TokenValue::String(self.primary.clone()));
        set.set("font", "secondary", TokenValue::String(self.secondary.clone()));
        set.set("font", "tertiary", TokenValue::String(self.tertiary.clone()));
    }

    /// Puts these tokens into a store.
    pub fn put_store(&self, store: &mut TokenStore)
        ensures
            final(store)@ == self@.in_store(old(store)@),
    {
        put_number(store, "fontSize", "xs", self.size_xs);
        put_number(store, "fontSize", "caption", self.size_caption);
        put_number(store, "fontSize", "sm", self.size_sm);
        put_number(store, "fontSize", "md", self.size_md);
        put_number(store, "fontSize", "lg", self.size_lg);
        put_number(store, "fontSize", "helper", self.size_helper);
        put_text(store, "font", "primary", self.primary.as_str());
        put_text(store, "font", "secondary", self.secondary.as_str());
        put_text(store, "font", "tertiary", self.tertiary.as_str());
    }
}

impl TypographyModel {
    /// Whether all values are equal; numbers are compared as numbers.
    pub open spec fn same_as(self, other: TypographyModel) -> bool {
        &&& scalar::same_scalar(self.size_xs, other.size_xs)
        &&& scalar::same_scalar(self.size_caption, other.size_caption)
        &&& scalar::same_scalar(self.size_sm, other.size_sm)
        &&& scalar::same_scalar(self.size_md, other.size_md)
        &&& scalar::same_scalar(self.size_lg, other.size_lg)
        &&& scalar::same_scalar(self.size_helper, other.size_helper)
        &&& self.primary == other.primary
        &&& self.secondary == other.secondary
        &&& self.tertiary == other.tertiary
    }
}

impl Typography {
    /// Whether all values are equal; numbers are compared as numbers.
    pub fn same(&self, other: &Typography) -> (r: bool)
        ensures
            r == self@.same_as(other@),
    {
        self.size_xs.same(&other.size_xs)
            && self.size_caption.same(&other.size_caption)
            && self.size_sm.same(&other.size_sm)
            && self.size_md.same(&other.size_md)
            && self.size_lg.same(&other.size_lg)
            && self.size_helper.same(&other.size_helper)
            && text_eq(self.primary.as_str(), other.primary.as_str())
            && text_eq(self.secondary.as_str(), other.secondary.as_str())
            && text_eq(self.tertiary.as_str(), other.tertiary.as_str())
    }
}

proof fn lemma_typography_keys()
    ensures
        "font-size-xs"@ != "font-size-caption"@,
        "font-size-xs"@ != "font-size-sm"@,
        "font-size-xs"@ != "font-size-md"@,
        "font-size-xs"@ != "font-size-lg"@,
        "font-size-xs"@ != "font-size-helper"@,
        "font-size-xs"@ != "font-primary"@,
        "font-size-xs"@ != "font-secondary"@,
        "font-size-xs"@ != "font-tertiary"@,
        "font-size-caption"@ != "font-size-sm"@,
        "font-size-caption"@ != "font-size-md"@,
        "font-size-caption"@ != "font-size-lg"@,
        "font-size-caption"@ != "font-size-helper"@,
        "font-size-caption"@ != "font-primary"@,
        "font-size-caption"@ != "font-secondary"@,
        "font-size-caption"@ != "font-tertiary"@,
        "font-size-sm"@ != "font-size-md"@,
        "font-size-sm"@ != "font-size-lg"@,
        "font-size-sm"@ != "font-size-helper"@,
        "font-size-sm"@ != "font-primary"@,
        "font-size-sm"@ != "font-secondary"@,
        "font-size-sm"@ != "font-tertiary"@,
        "font-size-md"@ != "font-size-lg"@,
        "font-size-md"@ != "font-size-helper"@,
        "font-size-md"@ != "font-primary"@,
        "font-size-md"@ != "font-secondary"@,
        "font-size-md"@ != "font-tertiary"@,
        "font-size-lg"@ != "font-size-helper"@,
        "font-size-lg"@ != "font-primary"@,
        "font-size-lg"@ != "font-secondary"@,
        "font-size-lg"@ != "font-tertiary"@,
        "font-size-helper"@ != "font-primary"@,
        "font-size-helper"@ != "font-secondary"@,
        "font-size-helper"@ != "font-tertiary"@,
        "font-primary"@ != "font-secondary"@,
        "font-primary"@ != "font-tertiary"@,
        "font-secondary"@ != "font-tertiary"@,
{
    reveal_strlit("font-size-xs");
    reveal_strlit("font-size-caption");
    reveal_strlit("font-size-sm");
    reveal_strlit("font-size-md");
    reveal_strlit("font-size-lg");
    reveal_strlit("font-size-helper");
    reveal_strlit("font-primary");
    reveal_strlit("font-secondary");
    reveal_strlit("font-tertiary");
    assert("font-size-xs"@.len() == 12);
    assert("font-size-caption"@.len() == 17);
    assert("font-size-sm"@.len() == 12);
    assert("font-size-md"@.len() == 12);
    assert("font-size-lg"@.len() == 12);
    assert("font-size-helper"@.len() == 16);
    assert("font-primary"@.len() == 12);
    assert("font-secondary"@.len() == 14);
    assert("font-tertiary"@.len() == 13);
    assert("font-size-xs"@[10] != "font-size-sm"@[10]);
    assert("font-size-xs"@[10] != "font-size-md"@[10]);
    assert("font-size-xs"@[10] != "font-size-lg"@[10]);
    assert("font-size-xs"@[5] != "font-primary"@[5]);
    assert("font-size-sm"@[10] != "font-size-md"@[10]);
    assert("font-size-sm"@[10] != "font-size-lg"@[10]);
    assert("font-size-sm"@[5] != "font-primary"@[5]);
    assert("font-size-md"@[10] != "font-size-lg"@[10]);
    assert("font-size-md"@[5] != "font-primary"@[5]);
    assert("font-size-lg"@[5] != "font-primary"@[5]);
}

/// What is written of all of it is read again, whatever it is read over.
pub proof fn typography_written_is_read(s: TypographyModel, over: TypographyModel)
    requires
        s.size_xs.finite(),
        s.size_caption.finite(),
        s.size_sm.finite(),
        s.size_md.finite(),
        s.size_lg.finite(),
        s.size_helper.finite(),
    ensures
        over.read(Some(JsonModel::Object(s.written()))) == s,
{
    reveal(TypographyModel::read);
    lemma_typography_keys();
    let o = s.written();
    let j = Some(JsonModel::Object(o));
    assert(field(j, "font-size-xs"@) == Some(json::float_json(s.size_xs)));
    assert(field(j, "font-size-caption"@) == Some(json::float_json(s.size_caption)));
    assert(field(j, "font-size-sm"@) == Some(json::float_json(s.size_sm)));
    assert(field(j, "font-size-md"@) == Some(json::float_json(s.size_md)));
    assert(field(j, "font-size-lg"@) == Some(json::float_json(s.size_lg)));
    assert(field(j, "font-size-helper"@) == Some(json::float_json(s.size_helper)));
    assert(field(j, "font-primary"@) == Some(JsonModel::Text(s.primary)));
    assert(field(j, "font-secondary"@) == Some(JsonModel::Text(s.secondary)));
    assert(field(j, "font-tertiary"@) == Some(JsonModel::Text(s.tertiary)));
}

/// A key is written where it is owned or its value differs from the parent's, and nowhere else.
pub proof fn typography_patch_keys(
    s: TypographyModel,
    parent: Option<TypographyModel>,
    section: Seq<char>,
    owned_keys: Set<Seq<char>>,
    key: Seq<char>,
)
    ensures
        s.patch(parent, section, owned_keys).dom().contains(key) <==> {
            ||| key == "font-size-xs"@ && (owned_keys.contains(token_key(section, "font-size-xs"@)) || (parent is Some && scalar::far_scalar(parent->Some_0.size_xs, s.size_xs)))
            ||| key == "font-size-caption"@ && (owned_keys.contains(token_key(section, "font-size-caption"@)) || (parent is Some && scalar::far_scalar(parent->Some_0.size_caption, s.size_caption)))
            ||| key == "font-size-sm"@ && (owned_keys.contains(token_key(section, "font-size-sm"@)) || (parent is Some && scalar::far_scalar(parent->Some_0.size_sm, s.size_sm)))
            ||| key == "font-size-md"@ && (owned_keys.contains(token_key(section, "font-size-md"@)) || (parent is Some && scalar::far_scalar(parent->Some_0.size_md, s.size_md)))
            ||| key == "font-size-lg"@ && (owned_keys.contains(token_key(section, "font-size-lg"@)) || (parent is Some && scalar::far_scalar(parent->Some_0.size_lg, s.size_lg)))
            ||| key == "font-size-helper"@ && (owned_keys.contains(token_key(section, "font-size-helper"@)) || (parent is Some && scalar::far_scalar(parent->Some_0.size_helper, s.size_helper)))
            ||| key == "font-primary"@ && (owned_keys.contains(token_key(section, "font-primary"@)) || (parent is Some && parent->Some_0.primary != s.primary))
            ||| key == "font-secondary"@ && (owned_keys.contains(token_key(section, "font-secondary"@)) || (parent is Some && parent->Some_0.secondary != s.secondary))
            ||| key == "font-tertiary"@ && (owned_keys.contains(token_key(section, "font-tertiary"@)) || (parent is Some && parent->Some_0.tertiary != s.tertiary))
        },
{
    reveal(TypographyModel::patch);
    lemma_typography_keys();
}

/// What is written of a key is its value.
pub proof fn typography_patch_values(
    s: TypographyModel,
    parent: Option<TypographyModel>,
    section: Seq<char>,
    owned_keys: Set<Seq<char>>,
)
    ensures
        ({
            let o = s.patch(parent, section, owned_keys);
            &&& o.dom().contains("font-size-xs"@) ==> o["font-size-xs"@] == json::float_json(s.size_xs)
            &&& o.dom().contains("font-size-caption"@) ==> o["font-size-caption"@] == json::float_json(s.size_caption)
            &&& o.dom().contains("font-size-sm"@) ==> o["font-size-sm"@] == json::float_json(s.size_sm)
            &&& o.dom().contains("font-size-md"@) ==> o["font-size-md"@] == json::float_json(s.size_md)
            &&& o.dom().contains("font-size-lg"@) ==> o["font-size-lg"@] == json::float_json(s.size_lg)
            &&& o.dom().contains("font-size-helper"@) ==> o["font-size-helper"@] == json::float_json(s.size_helper)
            &&& o.dom().contains("font-primary"@) ==> o["font-primary"@] == JsonModel::Text(s.primary)
            &&& o.dom().contains("font-secondary"@) ==> o["font-secondary"@] == JsonModel::Text(s.secondary)
            &&& o.dom().contains("font-tertiary"@) ==> o["font-tertiary"@] == JsonModel::Text(s.tertiary)
        }),
{
    reveal(TypographyModel::patch);
    lemma_typography_keys();
}

/// Whether all floats are numbers, and a float that may be left out is the parent's.
#[verifier::opaque]
pub open spec fn kept_typography(s: TypographyModel, parent: TypographyModel) -> bool {
    &&& s.size_xs.finite()
    &&& scalar::far_scalar(parent.size_xs, s.size_xs) || parent.size_xs == s.size_xs
    &&& s.size_caption.finite()
    &&& scalar::far_scalar(parent.size_caption, s.size_caption) || parent.size_caption == s.size_caption
    &&& s.size_sm.finite()
    &&& scalar::far_scalar(parent.size_sm, s.size_sm) || parent.size_sm == s.size_sm
    &&& s.size_md.finite()
    &&& scalar::far_scalar(parent.size_md, s.size_md) || parent.size_md == s.size_md
    &&& s.size_lg.finite()
    &&& scalar::far_scalar(parent.size_lg, s.size_lg) || parent.size_lg == s.size_lg
    &&& s.size_helper.finite()
    &&& scalar::far_scalar(parent.size_helper, s.size_helper) || parent.size_helper == s.size_helper
}

/// What is written against a parent and read over that parent is the whole again, where a float is
/// only left out when it is the parent's.
pub proof fn typography_patch_is_read(s: TypographyModel, parent: TypographyModel, section: Seq<char>, owned_keys: Set<Seq<char>>)
    requires
        kept_typography(s, parent),
    ensures
        parent.read(Some(JsonModel::Object(s.patch(Some(parent), section, owned_keys)))) == s,
{
    reveal(TypographyModel::read);
    reveal(kept_typography);
    let o = s.patch(Some(parent), section, owned_keys);
    let j = Some(JsonModel::Object(o));
    typography_patch_values(s, Some(parent), section, owned_keys);
    typography_patch_keys(s, Some(parent), section, owned_keys, "font-size-xs"@);
    typography_patch_keys(s, Some(parent), section, owned_keys, "font-size-caption"@);
    typography_patch_keys(s, Some(parent), section, owned_keys, "font-size-sm"@);
    typography_patch_keys(s, Some(parent), section, owned_keys, "font-size-md"@);
    typography_patch_keys(s, Some(parent), section, owned_keys, "font-size-lg"@);
    typography_patch_keys(s, Some(parent), section, owned_keys, "font-size-helper"@);
    typography_patch_keys(s, Some(parent), section, owned_keys, "font-primary"@);
    typography_patch_keys(s, Some(parent), section, owned_keys, "font-secondary"@);
    typography_patch_keys(s, Some(parent), section, owned_keys, "font-tertiary"@);
    assert(float_field(j, "font-size-xs"@, parent.size_xs) == s.size_xs);
    assert(float_field(j, "font-size-caption"@, parent.size_caption) == s.size_caption);
    assert(float_field(j, "font-size-sm"@, parent.size_sm) == s.size_sm);
    assert(float_field(j, "font-size-md"@, parent.size_md) == s.size_md);
    assert(float_field(j, "font-size-lg"@, parent.size_lg) == s.size_lg);
    assert(float_field(j, "font-size-helper"@, parent.size_helper) == s.size_helper);
    assert(text_field(j, "font-primary"@, parent.primary) == s.primary);
    assert(text_field(j, "font-secondary"@, parent.secondary) == s.secondary);
    assert(text_field(j, "font-tertiary"@, parent.tertiary) == s.tertiary);
}

// ---------------------------------------------------------------------------------------------
// The font weights
// ---------------------------------------------------------------------------------------------
/// The font weights.
#[derive(Clone, Copy, Debug, PartialEq, Eq, Structural)]
pub struct FontWeights {
    pub normal: i32,
    pub medium: i32,
    pub semibold: i32,
    pub bold: i32,
}

impl FontWeights {
    /// What is written of all of it.
    pub open spec fn written(self) -> ObjectModel {
        let m = Map::<Seq<char>, JsonModel>::empty();
        let m = m.insert("normal"@, json::int_json(self.normal));
        let m = m.insert("medium"@, json::int_json(self.medium));
        let m = m.insert("semibold"@, json::int_json(self.semibold));
        let m = m.insert("bold"@, json::int_json(self.bold));
        m
    }

    /// What is written of what is owned or differs from the parent's.
    #[verifier::opaque]
    pub open spec fn patch(
        self,
        parent: Option<FontWeights>,
        section: Seq<char>,
        owned_keys: Set<Seq<char>>,
    ) -> ObjectModel {
        let m = Map::<Seq<char>, JsonModel>::empty();
        let m = int_entry(
            m,
            "normal"@,
            self.normal,
            match parent {
                Some(p) => Some(p.normal),
                None => None,
            },
            owned_keys.contains(token_key(section, "normal"@)),
        );
        let m = int_entry(
            m,
            "medium"@,
            self.medium,
            match parent {
                Some(p) => Some(p.medium),
                None => None,
            },
            owned_keys.contains(token_key(section, "medium"@)),
        );
        let m = int_entry(
            m,
            "semibold"@,
            self.semibold,
            match parent {
                Some(p) => Some(p.semibold),
                None => None,
            },
            owned_keys.contains(token_key(section, "semibold"@)),
        );
        let m = int_entry(
            m,
            "bold"@,
            self.bold,
            match parent {
                Some(p) => Some(p.bold),
                None => None,
            },
            owned_keys.contains(token_key(section, "bold"@)),
        );
        m
    }

    /// It with what a file gives in place of what it gives.
    #[verifier::opaque]
    pub open spec fn read(self, j: Option<JsonModel>) -> FontWeights {
        FontWeights {
            normal: int_field(j, "normal"@, self.normal),
            medium: int_field(j, "medium"@, self.medium),
            semibold: int_field(j, "semibold"@, self.semibold),
            bold: int_field(j, "bold"@, self.bold),
        }
    }

    /// The token set with these tokens.
    pub open spec fn exported(self, t: Tokens) -> Tokens {
        let t = tokens::stored(t, "fontWeight"@, "normal"@, Value::Int(self.normal));
        let t = tokens::stored(t, "fontWeight"@, "medium"@, Value::Int(self.medium));
        let t = tokens::stored(t, "fontWeight"@, "semibold"@, Value::Int(self.semibold));
        let t = tokens::stored(t, "fontWeight"@, "bold"@, Value::Int(self.bold));
        t
    }

    /// The store with these tokens.
    pub open spec fn in_store(self, t: Store) -> Store {
        let t = textmap::put2(t, "fontWeight"@, "normal"@, Token::Int(self.normal as i64));
        let t = textmap::put2(t, "fontWeight"@, "medium"@, Token::Int(self.medium as i64));
        let t = textmap::put2(t, "fontWeight"@, "semibold"@, Token::Int(self.semibold as i64));
        let t = textmap::put2(t, "fontWeight"@, "bold"@, Token::Int(self.bold as i64));
        t
    }
}

impl FontWeights {
    /// What is written of all of it.
    pub fn to_json(&self) -> (r: JsonObject)
        ensures
            r@ == self.written(),
    {
        let mut map = JsonObject::new();
        map.insert(owned("normal"), json_int(self.normal));
        map.insert(owned("medium"), json_int(self.medium));
        map.insert(owned("semibold"), json_int(self.semibold));
        map.insert(owned("bold"), json_int(self.bold));
        map
    }

    /// What is written of what is owned or differs from the parent's.
    pub fn to_patch(&self, parent: Option<&FontWeights>, section: &str, owned_keys: &TextSet) -> (r: JsonObject)
        ensures
            r@ == self.patch(
                match parent {
                    Some(p) => Some(*p),
                    None => None,
                },
                section@,
                owned_keys@,
            ),
    {
        reveal(FontWeights::patch);
        let mut map = JsonObject::new();
        insert_int_if_changed(
            &mut map,
            "normal",
            self.normal,
            match parent {
                Some(p) => Some(p.normal),
                None => None,
            },
            owns(owned_keys, section, "normal"),
        );
        insert_int_if_changed(
            &mut map,
            "medium",
            self.medium,
            match parent {
                Some(p) => Some(p.medium),
                None => None,
            },
            owns(owned_keys, section, "medium"),
        );
        insert_int_if_changed(
            &mut map,
            "semibold",
            self.semibold,
            match parent {
                Some(p) => Some(p.semibold),
                None => None,
            },
            owns(owned_keys, section, "semibold"),
        );
        insert_int_if_changed(
            &mut map,
            "bold",
            self.bold,
            match parent {
                Some(p) => Some(p.bold),
                None => None,
            },
            owns(owned_keys, section, "bold"),
        );
        map
    }

    /// Takes over what a file gives.
    pub fn read_json(&mut self, j: Option<&Json>)
        ensures
            *final(self) == old(self).read(json::json_view(j)),
    {
        reveal(FontWeights::read);
        self.normal = parse_int_field(j, "normal", self.normal);
        self.medium = parse_int_field(j, "medium", self.medium);
        self.semibold = parse_int_field(j, "semibold", self.semibold);
        self.bold = parse_int_field(j, "bold", self.bold);
    }

    /// Puts these tokens into a token set.
    pub fn put_tokens(&self, set: &mut TokenSet)
        ensures
            final(set)@ == self.exported(old(set)@),
    {
        set.set("fontWeight", "normal", TokenValue::Int(self.normal));
        set.set("fontWeight", "medium", TokenValue::Int(self.medium));
        set.set("fontWeight", "semibold", TokenValue::Int(self.semibold));
        set.set("fontWeight", "bold", TokenValue::Int(self.bold));
    }

    /// Puts these tokens into a store.
    pub fn put_store(&self, store: &mut TokenStore)
        ensures
            final(store)@ == self.in_store(old(store)@),
    {
        store.categories.put2("fontWeight", "normal", store::TokenValue::Int(self.normal as i64));
        store.categories.put2("fontWeight", "medium", store::TokenValue::Int(self.medium as i64));
        store.categories.put2("fontWeight", "semibold", store::TokenValue::Int(self.semibold as i64));
        store.categories.put2("fontWeight", "bold", store::TokenValue::Int(self.bold as i64));
    }
}

impl FontWeights {
    /// Whether all values are equal; numbers are compared as numbers.
    pub open spec fn same_as(self, other: FontWeights) -> bool {
        &&& self.normal == other.normal
        &&& self.medium == other.medium
        &&& self.semibold == other.semibold
        &&& self.bold == other.bold
    }
}

impl FontWeights {
    /// Whether all values are equal; numbers are compared as numbers.
    pub fn same(&self, other: &FontWeights) -> (r: bool)
        ensures
            r == self.same_as(*other),
    {
        self.normal == other.normal
            && self.medium == other.medium
            && self.semibold == other.semibold
            && self.bold == other.bold
    }
}

proof fn lemma_font_weights_keys()
    ensures
        "normal"@ != "medium"@,
        "normal"@ != "semibold"@,
        "normal"@ != "bold"@,
        "medium"@ != "semibold"@,
        "medium"@ != "bold"@,
        "semibold"@ != "bold"@,
{
    reveal_strlit("normal");
    reveal_strlit("medium");
    reveal_strlit("semibold");
    reveal_strlit("bold");
    assert("normal"@.len() == 6);
    assert("medium"@.len() == 6);
    assert("semibold"@.len() == 8);
    assert("bold"@.len() == 4);
    assert("normal"@[0] != "medium"@[0]);
}

/// What is written of all of it is read again, whatever it is read over.
pub proof fn font_weights_written_is_read(s: FontWeights, over: FontWeights)
    ensures
        over.read(Some(JsonModel::Object(s.written()))) == s,
{
    reveal(FontWeights::read);
    lemma_font_weights_keys();
    let o = s.written();
    let j = Some(JsonModel::Object(o));
    lemma_int_read(s.normal);
    lemma_int_read(s.medium);
    lemma_int_read(s.semibold);
    lemma_int_read(s.bold);
    assert(field(j, "normal"@) == Some(json::int_json(s.normal)));
    assert(field(j, "medium"@) == Some(json::int_json(s.medium)));
    assert(field(j, "semibold"@) == Some(json::int_json(s.semibold)));
    assert(field(j, "bold"@) == Some(json::int_json(s.bold)));
}

/// A key is written where it is owned or its value differs from the parent's, and nowhere else.
pub proof fn font_weights_patch_keys(
    s: FontWeights,
    parent: Option<FontWeights>,
    section: Seq<char>,
    owned_keys: Set<Seq<char>>,
    key: Seq<char>,
)
    ensures
        s.patch(parent, section, owned_keys).dom().contains(key) <==> {
            ||| key == "normal"@ && (owned_keys.contains(token_key(section, "normal"@)) || (parent is Some && parent->Some_0.normal != s.normal))
            ||| key == "medium"@ && (owned_keys.contains(token_key(section, "medium"@)) || (parent is Some && parent->Some_0.medium != s.medium))
            ||| key == "semibold"@ && (owned_keys.contains(token_key(section, "semibold"@)) || (parent is Some && parent->Some_0.semibold != s.semibold))
            ||| key == "bold"@ && (owned_keys.contains(token_key(section, "bold"@)) || (parent is Some && parent->Some_0.bold != s.bold))
        },
{
    reveal(FontWeights::patch);
    lemma_font_weights_keys();
}

/// What is written of a key is its value.
pub proof fn font_weights_patch_values(
    s: FontWeights,
    parent: Option<FontWeights>,
    section: Seq<char>,
    owned_keys: Set<Seq<char>>,
)
    ensures
        ({
            let o = s.patch(parent, section, owned_keys);
            &&& o.dom().contains("normal"@) ==> o["normal"@] == json::int_json(s.normal)
            &&& o.dom().contains("medium"@) ==> o["medium"@] == json::int_json(s.medium)
            &&& o.dom().contains("semibold"@) ==> o["semibold"@] == json::int_json(s.semibold)
            &&& o.dom().contains("bold"@) ==> o["bold"@] == json::int_json(s.bold)
        }),
{
    reveal(FontWeights::patch);
    lemma_font_weights_keys();
}

/// What is written against a parent and read over that parent is the whole again, where a float is
/// only left out when it is the parent's.
pub proof fn font_weights_patch_is_read(s: FontWeights, parent: FontWeights, section: Seq<char>, owned_keys: Set<Seq<char>>)
    ensures
        parent.read(Some(JsonModel::Object(s.patch(Some(parent), section, owned_keys)))) == s,
{
    reveal(FontWeights::read);
    let o = s.patch(Some(parent), section, owned_keys);
    let j = Some(JsonModel::Object(o));
    font_weights_patch_values(s, Some(parent), section, owned_keys);
    font_weights_patch_keys(s, Some(parent), section, owned_keys, "normal"@);
    lemma_int_read(s.normal);
    font_weights_patch_keys(s, Some(parent), section, owned_keys, "medium"@);
    lemma_int_read(s.medium);
    font_weights_patch_keys(s, Some(parent), section, owned_keys, "semibold"@);
    lemma_int_read(s.semibold);
    font_weights_patch_keys(s, Some(parent), section, owned_keys, "bold"@);
    lemma_int_read(s.bold);
    assert(int_field(j, "normal"@, parent.normal) == s.normal);
    assert(int_field(j, "medium"@, parent.medium) == s.medium);
    assert(int_field(j, "semibold"@, parent.semibold) == s.semibold);
    assert(int_field(j, "bold"@, parent.bold) == s.bold);
}

// ---------------------------------------------------------------------------------------------
// The corner radii. The default is one of them, by its key
// ---------------------------------------------------------------------------------------------
/// The corner radii. The default is one of them, by its key.
#[derive(Debug, PartialEq)]
pub struct Radii {
    pub sm: Scalar,
    pub md: Scalar,
    pub lg: Scalar,
    pub full: Scalar,
    pub default_key: String,
}

/// The model of radii.
#[verifier::ext_equal]
pub struct RadiiModel {
    pub sm: Scalar,
    pub md: Scalar,
    pub lg: Scalar,
    pub full: Scalar,
    pub default_key: Seq<char>,
}

impl View for Radii {
    type V = RadiiModel;

    open spec fn view(&self) -> RadiiModel {
        RadiiModel {
            sm: self.sm,
            md: self.md,
            lg: self.lg,
            full: self.full,
            default_key: self.default_key@,
        }
    }
}

impl Duplicate for Radii {
    fn duplicate(&self) -> (r: Self) {
        Radii {
            sm: self.sm,
            md: self.md,
            lg: self.lg,
            full: self.full,
            default_key: self.default_key.clone(),
        }
    }
}

impl RadiiModel {
    /// What is written of all of it.
    pub open spec fn written(self) -> ObjectModel {
        let m = Map::<Seq<char>, JsonModel>::empty();
        let m = m.insert("sm"@, json::float_json(self.sm));
        let m = m.insert("md"@, json::float_json(self.md));
        let m = m.insert("lg"@, json::float_json(self.lg));
        let m = m.insert("full"@, json::float_json(self.full));
        let m = m.insert("default"@, JsonModel::Text("radius."@ + self.default_key));
        m
    }

    /// What is written of what is owned or differs from the parent's.
    #[verifier::opaque]
    pub open spec fn patch(
        self,
        parent: Option<RadiiModel>,
        section: Seq<char>,
        owned_keys: Set<Seq<char>>,
    ) -> ObjectModel {
        let m = Map::<Seq<char>, JsonModel>::empty();
        let m = float_entry(
            m,
            "sm"@,
            self.sm,
            match parent {
                Some(p) => Some(p.sm),
                None => None,
            },
            owned_keys.contains(token_key(section, "sm"@)),
        );
        let m = float_entry(
            m,
            "md"@,
            self.md,
            match parent {
                Some(p) => Some(p.md),
                None => None,
            },
            owned_keys.contains(token_key(section, "md"@)),
        );
        let m = float_entry(
            m,
            "lg"@,
            self.lg,
            match parent {
                Some(p) => Some(p.lg),
                None => None,
            },
            owned_keys.contains(token_key(section, "lg"@)),
        );
        let m = float_entry(
            m,
            "full"@,
            self.full,
            match parent {
                Some(p) => Some(p.full),
                None => None,
            },
            owned_keys.contains(token_key(section, "full"@)),
        );
        let m = text_entry(
            m,
            "default"@,
            "radius."@ + self.default_key,
            match parent {
                Some(p) => Some("radius."@ + p.default_key),
                None => None,
            },
            owned_keys.contains(token_key(section, "default"@)),
        );
        m
    }

    /// It with what a file gives in place of what it gives.
    #[verifier::opaque]
    pub open spec fn read(self, j: Option<JsonModel>) -> RadiiModel {
        RadiiModel {
            sm: float_field(j, "sm"@, self.sm),
            md: float_field(j, "md"@, self.md),
            lg: float_field(j, "lg"@, self.lg),
            full: float_field(j, "full"@, self.full),
            default_key: radius_field(j, "default"@, self.default_key),
        }
    }

    /// The token set with these tokens.
    pub open spec fn exported(self, t: Tokens) -> Tokens {
        let t = tokens::stored(t, "radius"@, "sm"@, Value::Float(self.sm));
        let t = tokens::stored(t, "radius"@, "md"@, Value::Float(self.md));
        let t = tokens::stored(t, "radius"@, "lg"@, Value::Float(self.lg));
        let t = tokens::stored(t, "radius"@, "full"@, Value::Float(self.full));
        let t = tokens::stored(t, "radius"@, "default"@, Value::Ref("radius."@ + self.default_key));
        t
    }

    /// The store with these tokens.
    pub open spec fn in_store(self, t: Store) -> Store {
        let t = textmap::put2(t, "radius"@, "sm"@, Token::Number(store::single_measure(self.sm)));
        let t = textmap::put2(t, "radius"@, "md"@, Token::Number(store::single_measure(self.md)));
        let t = textmap::put2(t, "radius"@, "lg"@, Token::Number(store::single_measure(self.lg)));
        let t = textmap::put2(t, "radius"@, "full"@, Token::Number(store::single_measure(self.full)));
        let t = textmap::put2(t, "radius"@, "default"@, Token::Text("radius."@ + self.default_key));
        t
    }
}

impl Radii {
    /// What is written of all of it.
    pub fn to_json(&self) -> (r: JsonObject)
        ensures
            r@ == self@.written(),
    {
        let mut map = JsonObject::new();
        map.insert(owned("sm"), json_float(self.sm));
        map.insert(owned("md"), json_float(self.md));
        map.insert(owned("lg"), json_float(self.lg));
        map.insert(owned("full"), json_float(self.full));
        map.insert(owned("default"), Json::String(joined("radius.", self.default_key.as_str())));
        map
    }

    /// What is written of what is owned or differs from the parent's.
    pub fn to_patch(&self, parent: Option<&Radii>, section: &str, owned_keys: &TextSet) -> (r: JsonObject)
        ensures
            r@ == self@.patch(
                match parent {
                    Some(p) => Some(p@),
                    None => None,
                },
                section@,
                owned_keys@,
            ),
    {
        reveal(RadiiModel::patch);
        let mut map = JsonObject::new();
        insert_float_if_changed(
            &mut map,
            "sm",
            self.sm,
            match parent {
                Some(p) => Some(p.sm),
                None => None,
            },
            owns(owned_keys, section, "sm"),
        );
        insert_float_if_changed(
            &mut map,
            "md",
            self.md,
            match parent {
                Some(p) => Some(p.md),
                None => None,
            },
            owns(owned_keys, section, "md"),
        );
        insert_float_if_changed(
            &mut map,
            "lg",
            self.lg,
            match parent {
                Some(p) => Some(p.lg),
                None => None,
            },
            owns(owned_keys, section, "lg"),
        );
        insert_float_if_changed(
            &mut map,
            "full",
            self.full,
            match parent {
                Some(p) => Some(p.full),
                None => None,
            },
            owns(owned_keys, section, "full"),
        );
        let current_default = joined("radius.", self.default_key.as_str());
        let parent_default: Option<String> = match parent {
            Some(p) => Some(joined("radius.", p.default_key.as_str())),
            None => None,
        };
        insert_string_if_changed(
            &mut map,
            "default",
            current_default.as_str(),
            match &parent_default {
                Some(p) => Some(p.as_str()),
                None => None,
            },
            owns(owned_keys, section, "default"),
        );
        map
    }

    /// Takes over what a file gives.
    pub fn read_json(&mut self, j: Option<&Json>)
        ensures
            final(self)@ == old(self)@.read(json::json_view(j)),
    {
        reveal(RadiiModel::read);
        self.sm = parse_float_field(j, "sm", self.sm);
        self.md = parse_float_field(j, "md", self.md);
        self.lg = parse_float_field(j, "lg", self.lg);
        self.full = parse_float_field(j, "full", self.full);
        self.default_key = parse_radius_field(j, "default", self.default_key.as_str());
    }

    /// Puts these tokens into a token set.
    pub fn put_tokens(&self, set: &mut TokenSet)
        ensures
            final(set)@ == self@.exported(old(set)@),
    {
        set.set("radius", "sm", TokenValue::Float(self.sm));
        set.set("radius", "md", TokenValue::Float(self.md));
        set.set("radius", "lg", TokenValue::Float(self.lg));
        set.set("radius", "full", TokenValue::Float(self.full));
        set.set("radius", "default", TokenValue::Ref(joined("radius.", self.default_key.as_str())));
    }

    /// Puts these tokens into a store.
    pub fn put_store(&self, store: &mut TokenStore)
        ensures
            final(store)@ == self@.in_store(old(store)@),
    {
        put_number(store, "radius", "sm", self.sm);
        put_number(store, "radius", "md", self.md);
        put_number(store, "radius", "lg", self.lg);
        put_number(store, "radius", "full", self.full);
        put_text(store, "radius", "default", joined("radius.", self.default_key.as_str()).as_str());
    }
}

impl RadiiModel {
    /// Whether all values are equal; numbers are compared as numbers.
    pub open spec fn same_as(self, other: RadiiModel) -> bool {
        &&& scalar::same_scalar(self.sm, other.sm)
        &&& scalar::same_scalar(self.md, other.md)
        &&& scalar::same_scalar(self.lg, other.lg)
        &&& scalar::same_scalar(self.full, other.full)
        &&& self.default_key == other.default_key
    }
}

impl Radii {
    /// Whether all values are equal; numbers are compared as numbers.
    pub fn same(&self, other: &Radii) -> (r: bool)
        ensures
            r == self@.same_as(other@),
    {
        self.sm.same(&other.sm)
            && self.md.same(&other.md)
            && self.lg.same(&other.lg)
            && self.full.same(&other.full)
            && text_eq(self.default_key.as_str(), other.default_key.as_str())
    }
}

proof fn lemma_radii_keys()
    ensures
        "sm"@ != "md"@,
        "sm"@ != "lg"@,
        "sm"@ != "full"@,
        "sm"@ != "default"@,
        "md"@ != "lg"@,
        "md"@ != "full"@,
        "md"@ != "default"@,
        "lg"@ != "full"@,
        "lg"@ != "default"@,
        "full"@ != "default"@,
{
    reveal_strlit("sm");
    reveal_strlit("md");
    reveal_strlit("lg");
    reveal_strlit("full");
    reveal_strlit("default");
    assert("sm"@.len() == 2);
    assert("md"@.len() == 2);
    assert("lg"@.len() == 2);
    assert("full"@.len() == 4);
    assert("default"@.len() == 7);
    assert("sm"@[0] != "md"@[0]);
    assert("sm"@[0] != "lg"@[0]);
    assert("md"@[0] != "lg"@[0]);
}

/// What is written of all of it is read again, whatever it is read over.
pub proof fn radii_written_is_read(s: RadiiModel, over: RadiiModel)
    requires
        s.sm.finite(),
        s.md.finite(),
        s.lg.finite(),
        s.full.finite(),
    ensures
        over.read(Some(JsonModel::Object(s.written()))) == s,
{
    reveal(RadiiModel::read);
    lemma_radii_keys();
    let o = s.written();
    let j = Some(JsonModel::Object(o));
    lemma_radius_read(s.default_key);
    assert(field(j, "sm"@) == Some(json::float_json(s.sm)));
    assert(field(j, "md"@) == Some(json::float_json(s.md)));
    assert(field(j, "lg"@) == Some(json::float_json(s.lg)));
    assert(field(j, "full"@) == Some(json::float_json(s.full)));
    assert(field(j, "default"@) == Some(JsonModel::Text("radius."@ + s.default_key)));
}

/// A key is written where it is owned or its value differs from the parent's, and nowhere else.
pub proof fn radii_patch_keys(
    s: RadiiModel,
    parent: Option<RadiiModel>,
    section: Seq<char>,
    owned_keys: Set<Seq<char>>,
    key: Seq<char>,
)
    ensures
        s.patch(parent, section, owned_keys).dom().contains(key) <==> {
            ||| key == "sm"@ && (owned_keys.contains(token_key(section, "sm"@)) || (parent is Some && scalar::far_scalar(parent->Some_0.sm, s.sm)))
            ||| key == "md"@ && (owned_keys.contains(token_key(section, "md"@)) || (parent is Some && scalar::far_scalar(parent->Some_0.md, s.md)))
            ||| key == "lg"@ && (owned_keys.contains(token_key(section, "lg"@)) || (parent is Some && scalar::far_scalar(parent->Some_0.lg, s.lg)))
            ||| key == "full"@ && (owned_keys.contains(token_key(section, "full"@)) || (parent is Some && scalar::far_scalar(parent->Some_0.full, s.full)))
            ||| key == "default"@ && (owned_keys.contains(token_key(section, "default"@)) || (parent is Some && parent->Some_0.default_key != s.default_key))
        },
{
    reveal(RadiiModel::patch);
    lemma_radii_keys();
    if parent is Some {
        lemma_radius_read(s.default_key);
        lemma_radius_read(parent->Some_0.default_key);
    }
}

/// What is written of a key is its value.
pub proof fn radii_patch_values(
    s: RadiiModel,
    parent: Option<RadiiModel>,
    section: Seq<char>,
    owned_keys: Set<Seq<char>>,
)
    ensures
        ({
            let o = s.patch(parent, section, owned_keys);
            &&& o.dom().contains("sm"@) ==> o["sm"@] == json::float_json(s.sm)
            &&& o.dom().contains("md"@) ==> o["md"@] == json::float_json(s.md)
            &&& o.dom().contains("lg"@) ==> o["lg"@] == json::float_json(s.lg)
            &&& o.dom().contains("full"@) ==> o["full"@] == json::float_json(s.full)
            &&& o.dom().contains("default"@) ==> o["default"@] == JsonModel::Text("radius."@ + s.default_key)
        }),
{
    reveal(RadiiModel::patch);
    lemma_radii_keys();
}

/// Whether all floats are numbers, and a float that may be left out is the parent's.
#[verifier::opaque]
pub open spec fn kept_radii(s: RadiiModel, parent: RadiiModel) -> bool {
    &&& s.sm.finite()
    &&& scalar::far_scalar(parent.sm, s.sm) || parent.sm == s.sm
    &&& s.md.finite()
    &&& scalar::far_scalar(parent.md, s.md) || parent.md == s.md
    &&& s.lg.finite()
    &&& scalar::far_scalar(parent.lg, s.lg) || parent.lg == s.lg
    &&& s.full.finite()
    &&& scalar::far_scalar(parent.full, s.full) || parent.full == s.full
}

/// What is written against a parent and read over that parent is the whole again, where a float is
/// only left out when it is the parent's.
pub proof fn radii_patch_is_read(s: RadiiModel, parent: RadiiModel, section: Seq<char>, owned_keys: Set<Seq<char>>)
    requires
        kept_radii(s, parent),
    ensures
        parent.read(Some(JsonModel::Object(s.patch(Some(parent), section, owned_keys)))) == s,
{
    reveal(RadiiModel::read);
    reveal(kept_radii);
    let o = s.patch(Some(parent), section, owned_keys);
    let j = Some(JsonModel::Object(o));
    radii_patch_values(s, Some(parent), section, owned_keys);
    radii_patch_keys(s, Some(parent), section, owned_keys, "sm"@);
    radii_patch_keys(s, Some(parent), section, owned_keys, "md"@);
    radii_patch_keys(s, Some(parent), section, owned_keys, "lg"@);
    radii_patch_keys(s, Some(parent), section, owned_keys, "full"@);
    radii_patch_keys(s, Some(parent), section, owned_keys, "default"@);
    lemma_radius_read(s.default_key);
    assert(float_field(j, "sm"@, parent.sm) == s.sm);
    assert(float_field(j, "md"@, parent.md) == s.md);
    assert(float_field(j, "lg"@, parent.lg) == s.lg);
    assert(float_field(j, "full"@, parent.full) == s.full);
    assert(radius_field(j, "default"@, parent.default_key) == s.default_key);
}

// ---------------------------------------------------------------------------------------------
// Token themes
// ---------------------------------------------------------------------------------------------
/// The design tokens of a theme.
#[derive(Debug, PartialEq)]
pub struct TokenTheme {
    pub light: Palette,
    pub dark: Palette,
    pub spacing: Spacing,
    pub control_size: SizeScale,
    pub choice_control_size: SizeScale,
    pub switch_size: SizeScale,
    pub icon_size: SizeScale,
    pub border_width: BorderWidths,
    pub control_radius: SizeScale,
    pub control_padding_inline: SizeScale,
    pub typography: Typography,
    pub font_weight: FontWeights,
    pub radius: Radii,
}

/// The model of a token theme.
#[verifier::ext_equal]
pub struct TokenModel {
    pub light: Palette,
    pub dark: Palette,
    pub spacing: Spacing,
    pub control_size: SizeScale,
    pub choice_control_size: SizeScale,
    pub switch_size: SizeScale,
    pub icon_size: SizeScale,
    pub border_width: BorderWidths,
    pub control_radius: SizeScale,
    pub control_padding_inline: SizeScale,
    pub typography: TypographyModel,
    pub font_weight: FontWeights,
    pub radius: RadiiModel,
}

impl View for TokenTheme {
    type V = TokenModel;

    open spec fn view(&self) -> TokenModel {
        TokenModel {
            light: self.light,
            dark: self.dark,
            spacing: self.spacing,
            control_size: self.control_size,
            choice_control_size: self.choice_control_size,
            switch_size: self.switch_size,
            icon_size: self.icon_size,
            border_width: self.border_width,
            control_radius: self.control_radius,
            control_padding_inline: self.control_padding_inline,
            typography: self.typography@,
            font_weight: self.font_weight,
            radius: self.radius@,
        }
    }
}

impl Duplicate for TokenTheme {
    fn duplicate(&self) -> (r: Self) {
        TokenTheme {
            light: self.light,
            dark: self.dark,
            spacing: self.spacing,
            control_size: self.control_size,
            choice_control_size: self.choice_control_size,
            switch_size: self.switch_size,
            icon_size: self.icon_size,
            border_width: self.border_width,
            control_radius: self.control_radius,
            control_padding_inline: self.control_padding_inline,
            typography: self.typography.duplicate(),
            font_weight: self.font_weight,
            radius: self.radius.duplicate(),
        }
    }
}

impl Clone for TokenTheme {
    fn clone(&self) -> (r: Self)
        ensures
            r@ == self@,
    {
        self.duplicate()
    }
}

/// An object with a section, where the section has keys.
pub open spec fn section_entry(m: ObjectModel, section: Seq<char>, o: ObjectModel) -> ObjectModel {
    if o.dom() == Set::<Seq<char>>::empty() {
        m
    } else {
        m.insert(section, JsonModel::Object(o))
    }
}

/// The sections that have keys.
pub open spec fn sections(
    colors: ObjectModel,
    spacing: ObjectModel,
    control_size: ObjectModel,
    choice_control_size: ObjectModel,
    switch_size: ObjectModel,
    icon_size: ObjectModel,
    border_width: ObjectModel,
    control_radius: ObjectModel,
    control_padding_inline: ObjectModel,
    typography: ObjectModel,
    font_weight: ObjectModel,
    radius: ObjectModel,
) -> ObjectModel {
    let m = section_entry(Map::empty(), "colors"@, colors);
    let m = section_entry(m, "spacing"@, spacing);
    let m = section_entry(m, "controlSize"@, control_size);
    let m = section_entry(m, "choiceControlSize"@, choice_control_size);
    let m = section_entry(m, "switchSize"@, switch_size);
    let m = section_entry(m, "iconSize"@, icon_size);
    let m = section_entry(m, "borderWidth"@, border_width);
    let m = section_entry(m, "controlRadius"@, control_radius);
    let m = section_entry(m, "controlPaddingInline"@, control_padding_inline);
    let m = section_entry(m, "typography"@, typography);
    let m = section_entry(m, "fontWeight"@, font_weight);
    let m = section_entry(m, "radius"@, radius);
    m
}

fn insert_section(map: &mut JsonObject, section: &str, o: JsonObject)
    ensures
        final(map)@ == section_entry(old(map)@, section@, o@),
{
    if !o.is_empty() {
        map.insert(owned(section), Json::Object(o));
    }
}

impl TokenModel {
    /// What is written of all tokens.
    pub open spec fn written(self) -> ObjectModel {
        let colors = Map::<Seq<char>, JsonModel>::empty().insert(
            "light"@,
            JsonModel::Object(self.light.written()),
        ).insert("dark"@, JsonModel::Object(self.dark.written()));
        let m = Map::<Seq<char>, JsonModel>::empty().insert("colors"@, JsonModel::Object(colors));
        let m = m.insert("spacing"@, JsonModel::Object(self.spacing.written()));
        let m = m.insert("controlSize"@, JsonModel::Object(self.control_size.written()));
        let m = m.insert("choiceControlSize"@, JsonModel::Object(self.choice_control_size.written()));
        let m = m.insert("switchSize"@, JsonModel::Object(self.switch_size.written()));
        let m = m.insert("iconSize"@, JsonModel::Object(self.icon_size.written()));
        let m = m.insert("borderWidth"@, JsonModel::Object(self.border_width.written()));
        let m = m.insert("controlRadius"@, JsonModel::Object(self.control_radius.written()));
        let m = m.insert("controlPaddingInline"@, JsonModel::Object(self.control_padding_inline.written()));
        let m = m.insert("typography"@, JsonModel::Object(self.typography.written()));
        let m = m.insert("fontWeight"@, JsonModel::Object(self.font_weight.written()));
        let m = m.insert("radius"@, JsonModel::Object(self.radius.written()));
        m
    }

    /// What is written of the tokens that are owned or differ from the parent's. Sections without
    /// such tokens are left out.
    pub open spec fn patch(self, parent: Option<TokenModel>, owned_keys: Set<Seq<char>>) -> ObjectModel {
        let colors = section_entry(
            section_entry(
                Map::empty(),
                "light"@,
                self.light.patch(
                    match parent {
                        Some(p) => Some(p.light),
                        None => None,
                    },
                    "colors.light"@,
                    owned_keys,
                ),
            ),
            "dark"@,
            self.dark.patch(
                match parent {
                    Some(p) => Some(p.dark),
                    None => None,
                },
                "colors.dark"@,
                owned_keys,
            ),
        );
        sections(
            colors,
            self.spacing.patch(
                match parent {
                    Some(p) => Some(p.spacing),
                    None => None,
                },
                "spacing"@,
                owned_keys,
            ),
            self.control_size.patch(
                match parent {
                    Some(p) => Some(p.control_size),
                    None => None,
                },
                "controlSize"@,
                owned_keys,
            ),
            self.choice_control_size.patch(
                match parent {
                    Some(p) => Some(p.choice_control_size),
                    None => None,
                },
                "choiceControlSize"@,
                owned_keys,
            ),
            self.switch_size.patch(
                match parent {
                    Some(p) => Some(p.switch_size),
                    None => None,
                },
                "switchSize"@,
                owned_keys,
            ),
            self.icon_size.patch(
                match parent {
                    Some(p) => Some(p.icon_size),
                    None => None,
                },
                "iconSize"@,
                owned_keys,
            ),
            self.border_width.patch(
                match parent {
                    Some(p) => Some(p.border_width),
                    None => None,
                },
                "borderWidth"@,
                owned_keys,
            ),
            self.control_radius.patch(
                match parent {
                    Some(p) => Some(p.control_radius),
                    None => None,
                },
                "controlRadius"@,
                owned_keys,
            ),
            self.control_padding_inline.patch(
                match parent {
                    Some(p) => Some(p.control_padding_inline),
                    None => None,
                },
                "controlPaddingInline"@,
                owned_keys,
            ),
            self.typography.patch(
                match parent {
                    Some(p) => Some(p.typography),
                    None => None,
                },
                "typography"@,
                owned_keys,
            ),
            self.font_weight.patch(
                match parent {
                    Some(p) => Some(p.font_weight),
                    None => None,
                },
                "fontWeight"@,
                owned_keys,
            ),
            self.radius.patch(
                match parent {
                    Some(p) => Some(p.radius),
                    None => None,
                },
                "radius"@,
                owned_keys,
            ),
        )
    }

    /// The tokens with what a file gives in place of what it gives.
    pub open spec fn read(self, j: Option<JsonModel>) -> TokenModel {
        TokenModel {
            light: self.light.read(field(field(j, "colors"@), "light"@)),
            dark: self.dark.read(field(field(j, "colors"@), "dark"@)),
            spacing: self.spacing.read(field(j, "spacing"@)),
            control_size: self.control_size.read(field(j, "controlSize"@)),
            choice_control_size: self.choice_control_size.read(field(j, "choiceControlSize"@)),
            switch_size: self.switch_size.read(field(j, "switchSize"@)),
            icon_size: self.icon_size.read(field(j, "iconSize"@)),
            border_width: self.border_width.read(field(j, "borderWidth"@)),
            control_radius: self.control_radius.read(field(j, "controlRadius"@)),
            control_padding_inline: self.control_padding_inline.read(field(j, "controlPaddingInline"@)),
            typography: self.typography.read(field(j, "typography"@)),
            font_weight: self.font_weight.read(field(j, "fontWeight"@)),
            radius: self.radius.read(field(j, "radius"@)),
        }
    }

    /// The token store of the theme; its colors are those of the light scheme.
    pub open spec fn in_store(self) -> Store {
        let t = self.light.in_store(Map::empty());
        let t = self.spacing.in_store(t);
        let t = self.control_size.in_store(t, "controlSize"@);
        let t = self.choice_control_size.in_store(t, "choiceControlSize"@);
        let t = self.switch_size.in_store(t, "switchSize"@);
        let t = self.icon_size.in_store(t, "iconSize"@);
        let t = self.border_width.in_store(t);
        let t = self.control_radius.in_store(t, "controlRadius"@);
        let t = self.control_padding_inline.in_store(t, "controlPaddingInline"@);
        let t = self.typography.in_store(t);
        let t = self.font_weight.in_store(t);
        let t = self.radius.in_store(t);
        textmap::put2(
            t,
            "opacity"@,
            "disabled"@,
            Token::Number(store::single_measure(Scalar { bits: 0x3F00_0000 })),
        )
    }

    /// A scheme's token set with the tokens that the schemes share.
    pub open spec fn shared(self, t: Tokens) -> Tokens {
        let t = self.spacing.exported(t);
        let t = self.control_size.exported(t, "controlSize"@);
        let t = self.choice_control_size.exported(t, "choiceControlSize"@);
        let t = self.switch_size.exported(t, "switchSize"@);
        let t = self.icon_size.exported(t, "iconSize"@);
        let t = self.border_width.exported(t);
        let t = self.control_radius.exported(t, "controlRadius"@);
        let t = self.control_padding_inline.exported(t, "controlPaddingInline"@);
        let t = self.typography.exported(t);
        let t = self.font_weight.exported(t);
        let t = self.radius.exported(t);
        t
    }

    /// The tokens of an exported theme: the default tokens with those of the theme over them.
    pub open spec fn exported(self) -> SchemeTokens {
        let base = defaults::fallback_tokens();
        SchemeTokens {
            light: self.light.exported(self.shared(base.light)),
            dark: self.dark.exported(self.shared(base.dark)),
        }
    }
}

/// What is written of all tokens.
pub fn export_token_theme_json(tokens: &TokenTheme) -> (r: Json)
    ensures
        r@ == JsonModel::Object(tokens@.written()),
{
    let mut colors = JsonObject::new();
    colors.insert(owned("light"), Json::Object(tokens.light.to_json()));
    colors.insert(owned("dark"), Json::Object(tokens.dark.to_json()));
    let mut map = JsonObject::new();
    map.insert(owned("colors"), Json::Object(colors));
    map.insert(owned("spacing"), Json::Object(tokens.spacing.to_json()));
    map.insert(owned("controlSize"), Json::Object(tokens.control_size.to_json()));
    map.insert(owned("choiceControlSize"), Json::Object(tokens.choice_control_size.to_json()));
    map.insert(owned("switchSize"), Json::Object(tokens.switch_size.to_json()));
    map.insert(owned("iconSize"), Json::Object(tokens.icon_size.to_json()));
    map.insert(owned("borderWidth"), Json::Object(tokens.border_width.to_json()));
    map.insert(owned("controlRadius"), Json::Object(tokens.control_radius.to_json()));
    map.insert(owned("controlPaddingInline"), Json::Object(tokens.control_padding_inline.to_json()));
    map.insert(owned("typography"), Json::Object(tokens.typography.to_json()));
    map.insert(owned("fontWeight"), Json::Object(tokens.font_weight.to_json()));
    map.insert(owned("radius"), Json::Object(tokens.radius.to_json()));
    Json::Object(map)
}

/// What is written of the tokens that are owned or differ from the parent's; `None` where there are
/// none.
pub fn export_token_theme_json_patch(
    tokens: &TokenTheme,
    parent: Option<&TokenTheme>,
    owned_keys: &TextSet,
) -> (r: Option<Json>)
    ensures
        ({
            let patch = tokens@.patch(
                match parent {
                    Some(p) => Some(p@),
                    None => None,
                },
                owned_keys@,
            );
            match r {
                Some(j) => patch.dom() != Set::<Seq<char>>::empty() && j@ == JsonModel::Object(patch),
                None => patch.dom() == Set::<Seq<char>>::empty(),
            }
        }),
{
    let mut colors = JsonObject::new();
    insert_section(
        &mut colors,
        "light",
        tokens.light.to_patch(
            match parent {
                Some(p) => Some(&p.light),
                None => None,
            },
            "colors.light",
            owned_keys,
        ),
    );
    insert_section(
        &mut colors,
        "dark",
        tokens.dark.to_patch(
            match parent {
                Some(p) => Some(&p.dark),
                None => None,
            },
            "colors.dark",
            owned_keys,
        ),
    );
    let mut map = JsonObject::new();
    insert_section(&mut map, "colors", colors);
    insert_section(
        &mut map,
        "spacing",
        tokens.spacing.to_patch(
            match parent {
                Some(p) => Some(&p.spacing),
                None => None,
            },
            "spacing",
            owned_keys,
        ),
    );
    insert_section(
        &mut map,
        "controlSize",
        tokens.control_size.to_patch(
            match parent {
                Some(p) => Some(&p.control_size),
                None => None,
            },
            "controlSize",
            owned_keys,
        ),
    );
    insert_section(
        &mut map,
        "choiceControlSize",
        tokens.choice_control_size.to_patch(
            match parent {
                Some(p) => Some(&p.choice_control_size),
                None => None,
            },
            "choiceControlSize",
            owned_keys,
        ),
    );
    insert_section(
        &mut map,
        "switchSize",
        tokens.switch_size.to_patch(
            match parent {
                Some(p) => Some(&p.switch_size),
                None => None,
            },
            "switchSize",
            owned_keys,
        ),
    );
    insert_section(
        &mut map,
        "iconSize",
        tokens.icon_size.to_patch(
            match parent {
                Some(p) => Some(&p.icon_size),
                None => None,
            },
            "iconSize",
            owned_keys,
        ),
    );
    insert_section(
        &mut map,
        "borderWidth",
        tokens.border_width.to_patch(
            match parent {
                Some(p) => Some(&p.border_width),
                None => None,
            },
            "borderWidth",
            owned_keys,
        ),
    );
    insert_section(
        &mut map,
        "controlRadius",
        tokens.control_radius.to_patch(
            match parent {
                Some(p) => Some(&p.control_radius),
                None => None,
            },
            "controlRadius",
            owned_keys,
        ),
    );
    insert_section(
        &mut map,
        "controlPaddingInline",
        tokens.control_padding_inline.to_patch(
            match parent {
                Some(p) => Some(&p.control_padding_inline),
                None => None,
            },
            "controlPaddingInline",
            owned_keys,
        ),
    );
    insert_section(
        &mut map,
        "typography",
        tokens.typography.to_patch(
            match parent {
                Some(p) => Some(&p.typography),
                None => None,
            },
            "typography",
            owned_keys,
        ),
    );
    insert_section(
        &mut map,
        "fontWeight",
        tokens.font_weight.to_patch(
            match parent {
                Some(p) => Some(&p.font_weight),
                None => None,
            },
            "fontWeight",
            owned_keys,
        ),
    );
    insert_section(
        &mut map,
        "radius",
        tokens.radius.to_patch(
            match parent {
                Some(p) => Some(&p.radius),
                None => None,
            },
            "radius",
            owned_keys,
        ),
    );
    if map.is_empty() {
        None
    } else {
        Some(Json::Object(map))
    }
}

/// Takes over the tokens that a file gives.
pub fn import_token_theme_json(tokens: &mut TokenTheme, value: &Json)
    ensures
        final(tokens)@ == old(tokens)@.read(Some(value@)),
{
    let colors = value.get("colors");
    tokens.light.read_json(field_of(colors, "light"));
    tokens.dark.read_json(field_of(colors, "dark"));
    tokens.spacing.read_json(value.get("spacing"));
    tokens.control_size.read_json(value.get("controlSize"));
    tokens.choice_control_size.read_json(value.get("choiceControlSize"));
    tokens.switch_size.read_json(value.get("switchSize"));
    tokens.icon_size.read_json(value.get("iconSize"));
    tokens.border_width.read_json(value.get("borderWidth"));
    tokens.control_radius.read_json(value.get("controlRadius"));
    tokens.control_padding_inline.read_json(value.get("controlPaddingInline"));
    tokens.typography.read_json(value.get("typography"));
    tokens.font_weight.read_json(value.get("fontWeight"));
    tokens.radius.read_json(value.get("radius"));
}

/// The token store of a theme.
pub fn token_store_from_theme(theme: &TokenTheme) -> (r: TokenStore)
    ensures
        r@ == theme@.in_store(),
{
    let mut store = TokenStore { categories: TextMap::new() };
    theme.light.put_store(&mut store);
    theme.spacing.put_store(&mut store);
    theme.control_size.put_store(&mut store, "controlSize");
    theme.choice_control_size.put_store(&mut store, "choiceControlSize");
    theme.switch_size.put_store(&mut store, "switchSize");
    theme.icon_size.put_store(&mut store, "iconSize");
    theme.border_width.put_store(&mut store);
    theme.control_radius.put_store(&mut store, "controlRadius");
    theme.control_padding_inline.put_store(&mut store, "controlPaddingInline");
    theme.typography.put_store(&mut store);
    theme.font_weight.put_store(&mut store);
    theme.radius.put_store(&mut store);
    put_number(&mut store, "opacity", "disabled", Scalar { bits: 0x3F00_0000 });
    store
}

fn put_shared(tokens: &TokenTheme, set: &mut TokenSet)
    ensures
        final(set)@ == tokens@.shared(old(set)@),
{
    tokens.spacing.put_tokens(set);
    tokens.control_size.put_tokens(set, "controlSize");
    tokens.choice_control_size.put_tokens(set, "choiceControlSize");
    tokens.switch_size.put_tokens(set, "switchSize");
    tokens.icon_size.put_tokens(set, "iconSize");
    tokens.border_width.put_tokens(set);
    tokens.control_radius.put_tokens(set, "controlRadius");
    tokens.control_padding_inline.put_tokens(set, "controlPaddingInline");
    tokens.typography.put_tokens(set);
    tokens.font_weight.put_tokens(set);
    tokens.radius.put_tokens(set);
}

/// The tokens of an exported theme.
pub fn editor_tokens_to_export_tokens(tokens: &TokenTheme) -> (r: ThemeTokens)
    ensures
        r@ == tokens@.exported(),
{
    let mut out = create_schema_fallback_tokens();
    put_shared(tokens, &mut out.light);
    put_shared(tokens, &mut out.dark);
    tokens.light.put_tokens(&mut out.light);
    tokens.dark.put_tokens(&mut out.dark);
    out
}

impl TokenModel {
    /// Whether all tokens are equal; numbers are compared as numbers.
    pub open spec fn same_as(self, other: TokenModel) -> bool {
        &&& self.light.same_as(other.light)
        &&& self.dark.same_as(other.dark)
        &&& self.spacing.same_as(other.spacing)
        &&& self.control_size.same_as(other.control_size)
        &&& self.choice_control_size.same_as(other.choice_control_size)
        &&& self.switch_size.same_as(other.switch_size)
        &&& self.icon_size.same_as(other.icon_size)
        &&& self.border_width.same_as(other.border_width)
        &&& self.control_radius.same_as(other.control_radius)
        &&& self.control_padding_inline.same_as(other.control_padding_inline)
        &&& self.typography.same_as(other.typography)
        &&& self.font_weight.same_as(other.font_weight)
        &&& self.radius.same_as(other.radius)
    }
}

impl TokenTheme {
    /// Whether all tokens are equal; numbers are compared as numbers.
    pub fn same(&self, other: &TokenTheme) -> (r: bool)
        ensures
            r == self@.same_as(other@),
    {
        self.light.same(&other.light)
            && self.dark.same(&other.dark)
            && self.spacing.same(&other.spacing)
            && self.control_size.same(&other.control_size)
            && self.choice_control_size.same(&other.choice_control_size)
            && self.switch_size.same(&other.switch_size)
            && self.icon_size.same(&other.icon_size)
            && self.border_width.same(&other.border_width)
            && self.control_radius.same(&other.control_radius)
            && self.control_padding_inline.same(&other.control_padding_inline)
            && self.typography.same(&other.typography)
            && self.font_weight.same(&other.font_weight)
            && self.radius.same(&other.radius)
    }
}

/// The tokens that a theme owns or inherits: section and key.
pub open spec fn token_table() -> Seq<(Seq<char>, Seq<char>)> {
    seq![
        ("colors.light"@, "primary"@),
        ("colors.light"@, "primary-pressed"@),
        ("colors.light"@, "secondary"@),
        ("colors.light"@, "danger"@),
        ("colors.light"@, "surface"@),
        ("colors.light"@, "background"@),
        ("colors.light"@, "text"@),
        ("colors.light"@, "text-muted"@),
        ("colors.light"@, "transparent"@),
        ("colors.dark"@, "primary"@),
        ("colors.dark"@, "primary-pressed"@),
        ("colors.dark"@, "secondary"@),
        ("colors.dark"@, "danger"@),
        ("colors.dark"@, "surface"@),
        ("colors.dark"@, "background"@),
        ("colors.dark"@, "text"@),
        ("colors.dark"@, "text-muted"@),
        ("colors.dark"@, "transparent"@),
        ("spacing"@, "xs"@),
        ("spacing"@, "sm"@),
        ("spacing"@, "md"@),
        ("spacing"@, "lg"@),
        ("spacing"@, "xl"@),
        ("controlSize"@, "sm"@),
        ("controlSize"@, "md"@),
        ("controlSize"@, "lg"@),
        ("choiceControlSize"@, "sm"@),
        ("choiceControlSize"@, "md"@),
        ("choiceControlSize"@, "lg"@),
        ("switchSize"@, "sm"@),
        ("switchSize"@, "md"@),
        ("switchSize"@, "lg"@),
        ("iconSize"@, "sm"@),
        ("iconSize"@, "md"@),
        ("iconSize"@, "lg"@),
        ("borderWidth"@, "none"@),
        ("borderWidth"@, "sm"@),
        ("borderWidth"@, "focus"@),
        ("controlRadius"@, "sm"@),
        ("controlRadius"@, "md"@),
        ("controlRadius"@, "lg"@),
        ("controlPaddingInline"@, "sm"@),
        ("controlPaddingInline"@, "md"@),
        ("controlPaddingInline"@, "lg"@),
        ("typography"@, "font-size-xs"@),
        ("typography"@, "font-size-caption"@),
        ("typography"@, "font-size-sm"@),
        ("typography"@, "font-size-md"@),
        ("typography"@, "font-size-lg"@),
        ("typography"@, "font-size-helper"@),
        ("typography"@, "font-primary"@),
        ("typography"@, "font-secondary"@),
        ("typography"@, "font-tertiary"@),
        ("fontWeight"@, "normal"@),
        ("fontWeight"@, "medium"@),
        ("fontWeight"@, "semibold"@),
        ("fontWeight"@, "bold"@),
        ("radius"@, "sm"@),
        ("radius"@, "md"@),
        ("radius"@, "lg"@),
        ("radius"@, "full"@),
        ("radius"@, "default"@),
    ]
}

/// The keys of the tokens that a theme owns or inherits.
pub open spec fn token_theme_keys() -> Seq<Seq<char>> {
    Seq::new(token_table().len(), |i: int| token_key(token_table()[i].0, token_table()[i].1))
}

/// A token by section and key.
#[derive(Clone, Copy, Debug)]
pub struct TokenName {
    pub section: &'static str,
    pub key: &'static str,
}

impl View for TokenName {
    type V = (Seq<char>, Seq<char>);

    open spec fn view(&self) -> (Seq<char>, Seq<char>) {
        (self.section@, self.key@)
    }
}

fn named(section: &'static str, key: &'static str) -> (r: TokenName)
    ensures
        r@ == (section@, key@),
{
    TokenName { section, key }
}

fn token_names() -> (r: Vec<TokenName>)
    ensures
        textmap::views(r@) == token_table(),
{
    let r = vec![
        named("colors.light", "primary"),
        named("colors.light", "primary-pressed"),
        named("colors.light", "secondary"),
        named("colors.light", "danger"),
        named("colors.light", "surface"),
        named("colors.light", "background"),
        named("colors.light", "text"),
        named("colors.light", "text-muted"),
        named("colors.light", "transparent"),
        named("colors.dark", "primary"),
        named("colors.dark", "primary-pressed"),
        named("colors.dark", "secondary"),
        named("colors.dark", "danger"),
        named("colors.dark", "surface"),
        named("colors.dark", "background"),
        named("colors.dark", "text"),
        named("colors.dark", "text-muted"),
        named("colors.dark", "transparent"),
        named("spacing", "xs"),
        named("spacing", "sm"),
        named("spacing", "md"),
        named("spacing", "lg"),
        named("spacing", "xl"),
        named("controlSize", "sm"),
        named("controlSize", "md"),
        named("controlSize", "lg"),
        named("choiceControlSize", "sm"),
        named("choiceControlSize", "md"),
        named("choiceControlSize", "lg"),
        named("switchSize", "sm"),
        named("switchSize", "md"),
        named("switchSize", "lg"),
        named("iconSize", "sm"),
        named("iconSize", "md"),
        named("iconSize", "lg"),
        named("borderWidth", "none"),
        named("borderWidth", "sm"),
        named("borderWidth", "focus"),
        named("controlRadius", "sm"),
        named("controlRadius", "md"),
        named("controlRadius", "lg"),
        named("controlPaddingInline", "sm"),
        named("controlPaddingInline", "md"),
        named("controlPaddingInline", "lg"),
        named("typography", "font-size-xs"),
        named("typography", "font-size-caption"),
        named("typography", "font-size-sm"),
        named("typography", "font-size-md"),
        named("typography", "font-size-lg"),
        named("typography", "font-size-helper"),
        named("typography", "font-primary"),
        named("typography", "font-secondary"),
        named("typography", "font-tertiary"),
        named("fontWeight", "normal"),
        named("fontWeight", "medium"),
        named("fontWeight", "semibold"),
        named("fontWeight", "bold"),
        named("radius", "sm"),
        named("radius", "md"),
        named("radius", "lg"),
        named("radius", "full"),
        named("radius", "default"),
    ];
    assert(textmap::views(r@) =~= token_table());
    r
}

/// The keys of the tokens that a theme owns or inherits.
pub fn list_token_keys() -> (r: Vec<String>)
    ensures
        textmap::views(r@) == token_theme_keys(),
{
    let names = token_names();
    let r = textmap::map_all(
        &names,
        |n: &TokenName| -> (s: String)
            ensures
                s@ == token_key(n@.0, n@.1)
        {
            let mut path = owned(n.section);
            path.push_str(".");
            path.push_str(n.key);
            path
        },
    );
    assert(textmap::views(r@) =~= token_theme_keys()) by {
        assert forall|i: int| 0 <= i < r@.len() implies #[trigger] textmap::views(r@)[i]
            == token_theme_keys()[i] by {
            assert(textmap::views(names@)[i] == names@[i]@);
        }
    }
    r
}

/// Every token key.
pub open spec fn every_token_key() -> Set<Seq<char>> {
    Set::new(|k: Seq<char>| token_theme_keys().contains(k))
}

/// Every token key.
pub fn all_token_override_keys() -> (r: TextSet)
    ensures
        r@ == every_token_key(),
{
    let keys = list_token_keys();
    let ghost all = token_theme_keys();
    let mut out = TextSet::new();
    for i in 0..keys.len()
        invariant
            all == textmap::views(keys@),
            forall|k: Seq<char>| #[trigger] out@.contains(k) <==> all.take(i as int).contains(k),
    {
        proof {
            textmap::take_step(all, i as int);
        }
        out.insert(keys[i].clone());
    }
    proof {
        assert(all.take(keys@.len() as int) =~= all);
        assert(out@ =~= every_token_key());
    }
    out
}

/// What a path of keys leads to.
pub open spec fn path_value(j: JsonModel, path: Seq<Seq<char>>) -> Option<JsonModel>
    decreases path.len(),
{
    if path.len() == 0 {
        Some(j)
    } else {
        field(path_value(j, path.drop_last()), path.last())
    }
}

/// Whether a path of keys, written with dots, leads to a value.
pub open spec fn has_path(j: JsonModel, path: Seq<char>) -> bool {
    path_value(j, text::split_char(path, '.')) is Some
}

/// Whether a path of keys, written with dots, leads to a value.
pub fn json_path_exists(value: &Json, path: &str) -> (r: bool)
    ensures
        r == has_path(value@, path@),
{
    path_at(value, path).is_some()
}

/// The token keys that a file gives values for.
pub open spec fn given_keys(j: JsonModel) -> Set<Seq<char>> {
    Set::new(|k: Seq<char>| token_theme_keys().contains(k) && has_path(j, k))
}

/// The token keys that a file gives values for.
pub fn collect_token_override_keys(value: &Json) -> (r: TextSet)
    ensures
        r@ == given_keys(value@),
{
    let keys = list_token_keys();
    let ghost all = token_theme_keys();
    let mut out = TextSet::new();
    for i in 0..keys.len()
        invariant
            all == textmap::views(keys@),
            forall|k: Seq<char>| #[trigger]
                out@.contains(k) <==> all.take(i as int).contains(k) && has_path(value@, k),
    {
        proof {
            textmap::take_step(all, i as int);
        }
        if json_path_exists(value, keys[i].as_str()) {
            out.insert(keys[i].clone());
        }
    }
    proof {
        assert(all.take(keys@.len() as int) =~= all);
        assert(out@ =~= given_keys(value@));
    }
    out
}

proof fn lemma_section_names()
    ensures
        "light"@ != "dark"@,
        "colors"@ != "spacing"@,
        "colors"@ != "controlSize"@,
        "colors"@ != "choiceControlSize"@,
        "colors"@ != "switchSize"@,
        "colors"@ != "iconSize"@,
        "colors"@ != "borderWidth"@,
        "colors"@ != "controlRadius"@,
        "colors"@ != "controlPaddingInline"@,
        "colors"@ != "typography"@,
        "colors"@ != "fontWeight"@,
        "colors"@ != "radius"@,
        "spacing"@ != "controlSize"@,
        "spacing"@ != "choiceControlSize"@,
        "spacing"@ != "switchSize"@,
        "spacing"@ != "iconSize"@,
        "spacing"@ != "borderWidth"@,
        "spacing"@ != "controlRadius"@,
        "spacing"@ != "controlPaddingInline"@,
        "spacing"@ != "typography"@,
        "spacing"@ != "fontWeight"@,
        "spacing"@ != "radius"@,
        "controlSize"@ != "choiceControlSize"@,
        "controlSize"@ != "switchSize"@,
        "controlSize"@ != "iconSize"@,
        "controlSize"@ != "borderWidth"@,
        "controlSize"@ != "controlRadius"@,
        "controlSize"@ != "controlPaddingInline"@,
        "controlSize"@ != "typography"@,
        "controlSize"@ != "fontWeight"@,
        "controlSize"@ != "radius"@,
        "choiceControlSize"@ != "switchSize"@,
        "choiceControlSize"@ != "iconSize"@,
        "choiceControlSize"@ != "borderWidth"@,
        "choiceControlSize"@ != "controlRadius"@,
        "choiceControlSize"@ != "controlPaddingInline"@,
        "choiceControlSize"@ != "typography"@,
        "choiceControlSize"@ != "fontWeight"@,
        "choiceControlSize"@ != "radius"@,
        "switchSize"@ != "iconSize"@,
        "switchSize"@ != "borderWidth"@,
        "switchSize"@ != "controlRadius"@,
        "switchSize"@ != "controlPaddingInline"@,
        "switchSize"@ != "typography"@,
        "switchSize"@ != "fontWeight"@,
        "switchSize"@ != "radius"@,
        "iconSize"@ != "borderWidth"@,
        "iconSize"@ != "controlRadius"@,
        "iconSize"@ != "controlPaddingInline"@,
        "iconSize"@ != "typography"@,
        "iconSize"@ != "fontWeight"@,
        "iconSize"@ != "radius"@,
        "borderWidth"@ != "controlRadius"@,
        "borderWidth"@ != "controlPaddingInline"@,
        "borderWidth"@ != "typography"@,
        "borderWidth"@ != "fontWeight"@,
        "borderWidth"@ != "radius"@,
        "controlRadius"@ != "controlPaddingInline"@,
        "controlRadius"@ != "typography"@,
        "controlRadius"@ != "fontWeight"@,
        "controlRadius"@ != "radius"@,
        "controlPaddingInline"@ != "typography"@,
        "controlPaddingInline"@ != "fontWeight"@,
        "controlPaddingInline"@ != "radius"@,
        "typography"@ != "fontWeight"@,
        "typography"@ != "radius"@,
        "fontWeight"@ != "radius"@,
{
    reveal_strlit("colors");
    reveal_strlit("light");
    reveal_strlit("dark");
    reveal_strlit("spacing");
    reveal_strlit("controlSize");
    reveal_strlit("choiceControlSize");
    reveal_strlit("switchSize");
    reveal_strlit("iconSize");
    reveal_strlit("borderWidth");
    reveal_strlit("controlRadius");
    reveal_strlit("controlPaddingInline");
    reveal_strlit("typography");
    reveal_strlit("fontWeight");
    reveal_strlit("radius");
    assert("colors"@.len() == 6);
    assert("light"@.len() == 5);
    assert("dark"@.len() == 4);
    assert("spacing"@.len() == 7);
    assert("controlSize"@.len() == 11);
    assert("choiceControlSize"@.len() == 17);
    assert("switchSize"@.len() == 10);
    assert("iconSize"@.len() == 8);
    assert("borderWidth"@.len() == 11);
    assert("controlRadius"@.len() == 13);
    assert("controlPaddingInline"@.len() == 20);
    assert("typography"@.len() == 10);
    assert("fontWeight"@.len() == 10);
    assert("radius"@.len() == 6);
    assert("colors"@[0] != "radius"@[0]);
    assert("controlSize"@[0] != "borderWidth"@[0]);
    assert("switchSize"@[0] != "typography"@[0]);
    assert("switchSize"@[0] != "fontWeight"@[0]);
    assert("typography"@[0] != "fontWeight"@[0]);
}

/// Whether all floats are numbers.
pub open spec fn all_finite(t: TokenModel) -> bool {
    &&& t.spacing.xs.finite()
    &&& t.spacing.sm.finite()
    &&& t.spacing.md.finite()
    &&& t.spacing.lg.finite()
    &&& t.spacing.xl.finite()
    &&& t.control_size.sm.finite()
    &&& t.control_size.md.finite()
    &&& t.control_size.lg.finite()
    &&& t.choice_control_size.sm.finite()
    &&& t.choice_control_size.md.finite()
    &&& t.choice_control_size.lg.finite()
    &&& t.switch_size.sm.finite()
    &&& t.switch_size.md.finite()
    &&& t.switch_size.lg.finite()
    &&& t.icon_size.sm.finite()
    &&& t.icon_size.md.finite()
    &&& t.icon_size.lg.finite()
    &&& t.border_width.none.finite()
    &&& t.border_width.sm.finite()
    &&& t.border_width.focus.finite()
    &&& t.control_radius.sm.finite()
    &&& t.control_radius.md.finite()
    &&& t.control_radius.lg.finite()
    &&& t.control_padding_inline.sm.finite()
    &&& t.control_padding_inline.md.finite()
    &&& t.control_padding_inline.lg.finite()
    &&& t.typography.size_xs.finite()
    &&& t.typography.size_caption.finite()
    &&& t.typography.size_sm.finite()
    &&& t.typography.size_md.finite()
    &&& t.typography.size_lg.finite()
    &&& t.typography.size_helper.finite()
    &&& t.radius.sm.finite()
    &&& t.radius.md.finite()
    &&& t.radius.lg.finite()
    &&& t.radius.full.finite()
}

/// Tokens that are written are read again, whatever they are read over.
pub proof fn written_tokens_are_read(t: TokenModel, over: TokenModel)
    requires
        all_finite(t),
    ensures
        over.read(Some(JsonModel::Object(t.written()))) == t,
{
    lemma_section_names();
    let j = Some(JsonModel::Object(t.written()));
    palette_written_is_read(t.light, over.light);
    palette_written_is_read(t.dark, over.dark);
    spacing_written_is_read(t.spacing, over.spacing);
    size_scale_written_is_read(t.control_size, over.control_size);
    size_scale_written_is_read(t.choice_control_size, over.choice_control_size);
    size_scale_written_is_read(t.switch_size, over.switch_size);
    size_scale_written_is_read(t.icon_size, over.icon_size);
    border_widths_written_is_read(t.border_width, over.border_width);
    size_scale_written_is_read(t.control_radius, over.control_radius);
    size_scale_written_is_read(t.control_padding_inline, over.control_padding_inline);
    typography_written_is_read(t.typography, over.typography);
    font_weights_written_is_read(t.font_weight, over.font_weight);
    radii_written_is_read(t.radius, over.radius);
    assert(field(field(j, "colors"@), "light"@) == Some(JsonModel::Object(t.light.written())));
    assert(field(field(j, "colors"@), "dark"@) == Some(JsonModel::Object(t.dark.written())));
    assert(field(j, "spacing"@) == Some(JsonModel::Object(t.spacing.written())));
    assert(field(j, "controlSize"@) == Some(JsonModel::Object(t.control_size.written())));
    assert(field(j, "choiceControlSize"@) == Some(JsonModel::Object(t.choice_control_size.written())));
    assert(field(j, "switchSize"@) == Some(JsonModel::Object(t.switch_size.written())));
    assert(field(j, "iconSize"@) == Some(JsonModel::Object(t.icon_size.written())));
    assert(field(j, "borderWidth"@) == Some(JsonModel::Object(t.border_width.written())));
    assert(field(j, "controlRadius"@) == Some(JsonModel::Object(t.control_radius.written())));
    assert(field(j, "controlPaddingInline"@) == Some(JsonModel::Object(t.control_padding_inline.written())));
    assert(field(j, "typography"@) == Some(JsonModel::Object(t.typography.written())));
    assert(field(j, "fontWeight"@) == Some(JsonModel::Object(t.font_weight.written())));
    assert(field(j, "radius"@) == Some(JsonModel::Object(t.radius.written())));
}

/// Whether all floats are numbers, and a float that may be left out is the parent's.
pub open spec fn tokens_kept(t: TokenModel, parent: TokenModel) -> bool {
    &&& kept_spacing(t.spacing, parent.spacing)
    &&& kept_size_scale(t.control_size, parent.control_size)
    &&& kept_size_scale(t.choice_control_size, parent.choice_control_size)
    &&& kept_size_scale(t.switch_size, parent.switch_size)
    &&& kept_size_scale(t.icon_size, parent.icon_size)
    &&& kept_border_widths(t.border_width, parent.border_width)
    &&& kept_size_scale(t.control_radius, parent.control_radius)
    &&& kept_size_scale(t.control_padding_inline, parent.control_padding_inline)
    &&& kept_typography(t.typography, parent.typography)
    &&& kept_radii(t.radius, parent.radius)
}

proof fn lemma_palette_empty(s: Palette)
    ensures
        s.read(None) == s,
        s.read(Some(JsonModel::Object(Map::empty()))) == s,
{
    reveal(Palette::read);
    reveal(color_field);
}

proof fn lemma_palette_section(s: Palette, parent: Palette, section: Seq<char>, owned_keys: Set<Seq<char>>)
    requires
        parent.read(Some(JsonModel::Object(s.patch(Some(parent), section, owned_keys)))) == s,
    ensures
        parent.read(json::filled(s.patch(Some(parent), section, owned_keys))) == s,
{
    let o = s.patch(Some(parent), section, owned_keys);
    lemma_palette_empty(parent);
    assert(o.dom() == Set::<Seq<char>>::empty() ==> o =~= Map::empty());
}

proof fn lemma_spacing_empty(s: Spacing)
    ensures
        s.read(None) == s,
        s.read(Some(JsonModel::Object(Map::empty()))) == s,
{
    reveal(Spacing::read);
}

proof fn lemma_spacing_section(s: Spacing, parent: Spacing, section: Seq<char>, owned_keys: Set<Seq<char>>)
    requires
        parent.read(Some(JsonModel::Object(s.patch(Some(parent), section, owned_keys)))) == s,
    ensures
        parent.read(json::filled(s.patch(Some(parent), section, owned_keys))) == s,
{
    let o = s.patch(Some(parent), section, owned_keys);
    lemma_spacing_empty(parent);
    assert(o.dom() == Set::<Seq<char>>::empty() ==> o =~= Map::empty());
}

proof fn lemma_size_scale_empty(s: SizeScale)
    ensures
        s.read(None) == s,
        s.read(Some(JsonModel::Object(Map::empty()))) == s,
{
    reveal(SizeScale::read);
}

proof fn lemma_size_scale_section(s: SizeScale, parent: SizeScale, section: Seq<char>, owned_keys: Set<Seq<char>>)
    requires
        parent.read(Some(JsonModel::Object(s.patch(Some(parent), section, owned_keys)))) == s,
    ensures
        parent.read(json::filled(s.patch(Some(parent), section, owned_keys))) == s,
{
    let o = s.patch(Some(parent), section, owned_keys);
    lemma_size_scale_empty(parent);
    assert(o.dom() == Set::<Seq<char>>::empty() ==> o =~= Map::empty());
}

proof fn lemma_border_widths_empty(s: BorderWidths)
    ensures
        s.read(None) == s,
        s.read(Some(JsonModel::Object(Map::empty()))) == s,
{
    reveal(BorderWidths::read);
}

proof fn lemma_border_widths_section(s: BorderWidths, parent: BorderWidths, section: Seq<char>, owned_keys: Set<Seq<char>>)
    requires
        parent.read(Some(JsonModel::Object(s.patch(Some(parent), section, owned_keys)))) == s,
    ensures
        parent.read(json::filled(s.patch(Some(parent), section, owned_keys))) == s,
{
    let o = s.patch(Some(parent), section, owned_keys);
    lemma_border_widths_empty(parent);
    assert(o.dom() == Set::<Seq<char>>::empty() ==> o =~= Map::empty());
}

proof fn lemma_typography_empty(s: TypographyModel)
    ensures
        s.read(None) == s,
        s.read(Some(JsonModel::Object(Map::empty()))) == s,
{
    reveal(TypographyModel::read);
}

proof fn lemma_typography_section(s: TypographyModel, parent: TypographyModel, section: Seq<char>, owned_keys: Set<Seq<char>>)
    requires
        parent.read(Some(JsonModel::Object(s.patch(Some(parent), section, owned_keys)))) == s,
    ensures
        parent.read(json::filled(s.patch(Some(parent), section, owned_keys))) == s,
{
    let o = s.patch(Some(parent), section, owned_keys);
    lemma_typography_empty(parent);
    assert(o.dom() == Set::<Seq<char>>::empty() ==> o =~= Map::empty());
}

proof fn lemma_font_weights_empty(s: FontWeights)
    ensures
        s.read(None) == s,
        s.read(Some(JsonModel::Object(Map::empty()))) == s,
{
    reveal(FontWeights::read);
}

proof fn lemma_font_weights_section(s: FontWeights, parent: FontWeights, section: Seq<char>, owned_keys: Set<Seq<char>>)
    requires
        parent.read(Some(JsonModel::Object(s.patch(Some(parent), section, owned_keys)))) == s,
    ensures
        parent.read(json::filled(s.patch(Some(parent), section, owned_keys))) == s,
{
    let o = s.patch(Some(parent), section, owned_keys);
    lemma_font_weights_empty(parent);
    assert(o.dom() == Set::<Seq<char>>::empty() ==> o =~= Map::empty());
}

proof fn lemma_radii_empty(s: RadiiModel)
    ensures
        s.read(None) == s,
        s.read(Some(JsonModel::Object(Map::empty()))) == s,
{
    reveal(RadiiModel::read);
}

proof fn lemma_radii_section(s: RadiiModel, parent: RadiiModel, section: Seq<char>, owned_keys: Set<Seq<char>>)
    requires
        parent.read(Some(JsonModel::Object(s.patch(Some(parent), section, owned_keys)))) == s,
    ensures
        parent.read(json::filled(s.patch(Some(parent), section, owned_keys))) == s,
{
    let o = s.patch(Some(parent), section, owned_keys);
    lemma_radii_empty(parent);
    assert(o.dom() == Set::<Seq<char>>::empty() ==> o =~= Map::empty());
}

/// A file that gives nothing leaves the tokens as they are.
pub proof fn nothing_is_read(t: TokenModel)
    ensures
        t.read(None) == t,
        t.read(Some(JsonModel::Object(Map::empty()))) == t,
{
    lemma_palette_empty(t.light);
    lemma_palette_empty(t.dark);
    lemma_spacing_empty(t.spacing);
    lemma_size_scale_empty(t.control_size);
    lemma_size_scale_empty(t.choice_control_size);
    lemma_size_scale_empty(t.switch_size);
    lemma_size_scale_empty(t.icon_size);
    lemma_border_widths_empty(t.border_width);
    lemma_size_scale_empty(t.control_radius);
    lemma_size_scale_empty(t.control_padding_inline);
    lemma_typography_empty(t.typography);
    lemma_font_weights_empty(t.font_weight);
    lemma_radii_empty(t.radius);
}

proof fn lemma_sections(
    colors: ObjectModel,
    spacing: ObjectModel,
    control_size: ObjectModel,
    choice_control_size: ObjectModel,
    switch_size: ObjectModel,
    icon_size: ObjectModel,
    border_width: ObjectModel,
    control_radius: ObjectModel,
    control_padding_inline: ObjectModel,
    typography: ObjectModel,
    font_weight: ObjectModel,
    radius: ObjectModel,
)
    ensures
        ({
            let j = Some(
                JsonModel::Object(sections(colors, spacing, control_size, choice_control_size, switch_size, icon_size, border_width, control_radius, control_padding_inline, typography, font_weight, radius)),
            );
            &&& field(j, "colors"@) == json::filled(colors)
            &&& field(j, "spacing"@) == json::filled(spacing)
            &&& field(j, "controlSize"@) == json::filled(control_size)
            &&& field(j, "choiceControlSize"@) == json::filled(choice_control_size)
            &&& field(j, "switchSize"@) == json::filled(switch_size)
            &&& field(j, "iconSize"@) == json::filled(icon_size)
            &&& field(j, "borderWidth"@) == json::filled(border_width)
            &&& field(j, "controlRadius"@) == json::filled(control_radius)
            &&& field(j, "controlPaddingInline"@) == json::filled(control_padding_inline)
            &&& field(j, "typography"@) == json::filled(typography)
            &&& field(j, "fontWeight"@) == json::filled(font_weight)
            &&& field(j, "radius"@) == json::filled(radius)
        }),
{
    lemma_section_names();
}

/// Tokens that are written against a parent and read over that parent are the whole again.
pub proof fn patched_tokens_are_read(t: TokenModel, parent: TokenModel, owned_keys: Set<Seq<char>>)
    requires
        tokens_kept(t, parent),
    ensures
        parent.read(Some(JsonModel::Object(t.patch(Some(parent), owned_keys)))) == t,
{
    let j = Some(JsonModel::Object(t.patch(Some(parent), owned_keys)));
    let p_light = t.light.patch(Some(parent.light), "colors.light"@, owned_keys);
    palette_patch_is_read(t.light, parent.light, "colors.light"@, owned_keys);
    lemma_palette_section(t.light, parent.light, "colors.light"@, owned_keys);
    let p_dark = t.dark.patch(Some(parent.dark), "colors.dark"@, owned_keys);
    palette_patch_is_read(t.dark, parent.dark, "colors.dark"@, owned_keys);
    lemma_palette_section(t.dark, parent.dark, "colors.dark"@, owned_keys);
    let p_spacing = t.spacing.patch(Some(parent.spacing), "spacing"@, owned_keys);
    spacing_patch_is_read(t.spacing, parent.spacing, "spacing"@, owned_keys);
    lemma_spacing_section(t.spacing, parent.spacing, "spacing"@, owned_keys);
    let p_control_size = t.control_size.patch(Some(parent.control_size), "controlSize"@, owned_keys);
    size_scale_patch_is_read(t.control_size, parent.control_size, "controlSize"@, owned_keys);
    lemma_size_scale_section(t.control_size, parent.control_size, "controlSize"@, owned_keys);
    let p_choice_control_size = t.choice_control_size.patch(Some(parent.choice_control_size), "choiceControlSize"@, owned_keys);
    size_scale_patch_is_read(t.choice_control_size, parent.choice_control_size, "choiceControlSize"@, owned_keys);
    lemma_size_scale_section(t.choice_control_size, parent.choice_control_size, "choiceControlSize"@, owned_keys);
    let p_switch_size = t.switch_size.patch(Some(parent.switch_size), "switchSize"@, owned_keys);
    size_scale_patch_is_read(t.switch_size, parent.switch_size, "switchSize"@, owned_keys);
    lemma_size_scale_section(t.switch_size, parent.switch_size, "switchSize"@, owned_keys);
    let p_icon_size = t.icon_size.patch(Some(parent.icon_size), "iconSize"@, owned_keys);
    size_scale_patch_is_read(t.icon_size, parent.icon_size, "iconSize"@, owned_keys);
    lemma_size_scale_section(t.icon_size, parent.icon_size, "iconSize"@, owned_keys);
    let p_border_width = t.border_width.patch(Some(parent.border_width), "borderWidth"@, owned_keys);
    border_widths_patch_is_read(t.border_width, parent.border_width, "borderWidth"@, owned_keys);
    lemma_border_widths_section(t.border_width, parent.border_width, "borderWidth"@, owned_keys);
    let p_control_radius = t.control_radius.patch(Some(parent.control_radius), "controlRadius"@, owned_keys);
    size_scale_patch_is_read(t.control_radius, parent.control_radius, "controlRadius"@, owned_keys);
    lemma_size_scale_section(t.control_radius, parent.control_radius, "controlRadius"@, owned_keys);
    let p_control_padding_inline = t.control_padding_inline.patch(Some(parent.control_padding_inline), "controlPaddingInline"@, owned_keys);
    size_scale_patch_is_read(t.control_padding_inline, parent.control_padding_inline, "controlPaddingInline"@, owned_keys);
    lemma_size_scale_section(t.control_padding_inline, parent.control_padding_inline, "controlPaddingInline"@, owned_keys);
    let p_typography = t.typography.patch(Some(parent.typography), "typography"@, owned_keys);
    typography_patch_is_read(t.typography, parent.typography, "typography"@, owned_keys);
    lemma_typography_section(t.typography, parent.typography, "typography"@, owned_keys);
    let p_font_weight = t.font_weight.patch(Some(parent.font_weight), "fontWeight"@, owned_keys);
    font_weights_patch_is_read(t.font_weight, parent.font_weight, "fontWeight"@, owned_keys);
    lemma_font_weights_section(t.font_weight, parent.font_weight, "fontWeight"@, owned_keys);
    let p_radius = t.radius.patch(Some(parent.radius), "radius"@, owned_keys);
    radii_patch_is_read(t.radius, parent.radius, "radius"@, owned_keys);
    lemma_radii_section(t.radius, parent.radius, "radius"@, owned_keys);
    let colors = section_entry(section_entry(Map::empty(), "light"@, p_light), "dark"@, p_dark);
    lemma_sections(colors, p_spacing, p_control_size, p_choice_control_size, p_switch_size, p_icon_size, p_border_width, p_control_radius, p_control_padding_inline, p_typography, p_font_weight, p_radius);
    assert(field(json::filled(colors), "light"@) == json::filled(p_light) && field(
        json::filled(colors),
        "dark"@,
    ) == json::filled(p_dark)) by {
        lemma_section_names();
        let none = Set::<Seq<char>>::empty();
        assert(p_light.dom() != none ==> colors.dom().contains("light"@));
        assert(p_dark.dom() != none ==> colors.dom().contains("dark"@));
    }
}

// ---------------------------------------------------------------------------------------------
// Unknown keys
// ---------------------------------------------------------------------------------------------
/// The keys that a token file may have at its top.
pub open spec fn top_keys() -> Seq<Seq<char>> {
    seq!["colors"@, "spacing"@, "controlSize"@, "choiceControlSize"@, "switchSize"@, "iconSize"@, "borderWidth"@, "controlRadius"@, "controlPaddingInline"@, "fontWeight"@, "typography"@, "radius"@]
}

/// The keys that the sections of a token file may have.
pub open spec fn section_keys() -> Seq<(Seq<char>, Seq<Seq<char>>)> {
    seq![
        ("colors"@, seq!["light"@, "dark"@]),
        ("colors.light"@, seq!["primary"@, "primary-pressed"@, "secondary"@, "danger"@, "surface"@, "background"@, "text"@, "text-muted"@, "transparent"@]),
        ("colors.dark"@, seq!["primary"@, "primary-pressed"@, "secondary"@, "danger"@, "surface"@, "background"@, "text"@, "text-muted"@, "transparent"@]),
        ("spacing"@, seq!["xs"@, "sm"@, "md"@, "lg"@, "xl"@]),
        ("controlSize"@, seq!["sm"@, "md"@, "lg"@]),
        ("choiceControlSize"@, seq!["sm"@, "md"@, "lg"@]),
        ("switchSize"@, seq!["sm"@, "md"@, "lg"@]),
        ("iconSize"@, seq!["sm"@, "md"@, "lg"@]),
        ("borderWidth"@, seq!["none"@, "sm"@, "focus"@]),
        ("controlRadius"@, seq!["sm"@, "md"@, "lg"@]),
        ("controlPaddingInline"@, seq!["sm"@, "md"@, "lg"@]),
        ("fontWeight"@, seq!["normal"@, "medium"@, "semibold"@, "bold"@]),
        ("typography"@, seq!["font-size-xs"@, "font-size-caption"@, "font-size-sm"@, "font-size-md"@, "font-size-lg"@, "font-size-title"@, "font-size-body"@, "font-size-subtitle"@, "font-size-label"@, "font-size-helper"@, "font-primary"@, "font-secondary"@, "font-tertiary"@]),
        ("radius"@, seq!["sm"@, "md"@, "default"@, "lg"@, "full"@]),
    ]
}

/// The warning for a key that is not known.
pub open spec fn unknown_key(key: Seq<char>) -> Seq<char> {
    "warning: ignoring unknown token-theme key '"@ + key + "'"@
}

/// The keys of an object that are none of the known ones, behind a prefix.
pub open spec fn unknown_in(j: Option<JsonModel>, prefix: Seq<char>, known: Seq<Seq<char>>) -> Seq<Seq<char>> {
    match json::object_of(j) {
        Some(o) => unknown_of(textmap::sorted_keys(o), prefix, known),
        None => Seq::empty(),
    }
}

/// The warnings for those of some keys that are not known.
pub open spec fn unknown_of(keys: Seq<Seq<char>>, prefix: Seq<char>, known: Seq<Seq<char>>) -> Seq<Seq<char>>
    decreases keys.len(),
{
    if keys.len() == 0 {
        Seq::empty()
    } else {
        let before = unknown_of(keys.drop_last(), prefix, known);
        if known.contains(keys.last()) {
            before
        } else {
            before.push(unknown_key(prefix + keys.last()))
        }
    }
}

/// The warnings for the unknown keys of sections.
pub open spec fn unknown_in_sections(j: JsonModel, rows: Seq<(Seq<char>, Seq<Seq<char>>)>) -> Seq<Seq<char>>
    decreases rows.len(),
{
    if rows.len() == 0 {
        Seq::empty()
    } else {
        let (section, known) = rows.last();
        unknown_in_sections(j, rows.drop_last()) + unknown_in(
            path_value(j, text::split_char(section, '.')),
            section + "."@,
            known,
        )
    }
}

fn note_unknown(out: &mut Vec<String>, j: Option<&Json>, prefix: &str, known: &Vec<&str>)
    ensures
        textmap::views(final(out)@) == textmap::views(old(out)@) + unknown_in(
            json::json_view(j),
            prefix@,
            textmap::views(known@),
        ),
{
    let ghost start = textmap::views(out@);
    let o = match j {
        Some(v) => v.as_object(),
        None => None,
    };
    match o {
        Some(o) => {
            let keys = o.keys();
            let ghost all = textmap::sorted_keys(o@);
            assert(start + unknown_of(all.take(0), prefix@, textmap::views(known@)) =~= start);
            for i in 0..keys.len()
                invariant
                    all == textmap::views(keys@),
                    textmap::views(out@) == start + unknown_of(
                        all.take(i as int),
                        prefix@,
                        textmap::views(known@),
                    ),
            {
                proof {
                    assert(all.take(i + 1).drop_last() =~= all.take(i as int));
                    assert(all.take(i + 1).last() == all[i as int]);
                }
                if !textmap::one_of(keys[i].as_str(), known) {
                    let mut line = owned("warning: ignoring unknown token-theme key '");
                    line.push_str(joined(prefix, keys[i].as_str()).as_str());
                    line.push_str("'");
                    let ghost before = textmap::views(out@);
                    out.push(line);
                    assert(textmap::views(out@) =~= before.push(line@));
                    assert(textmap::views(out@) =~= start + unknown_of(
                        all.take(i + 1),
                        prefix@,
                        textmap::views(known@),
                    ));
                }
            }
            assert(all.take(keys@.len() as int) =~= all);
        },
        None => {
            assert(textmap::views(out@) =~= start + Seq::<Seq<char>>::empty());
        },
    }
}

fn path_at<'a>(value: &'a Json, path: &str) -> (r: Option<&'a Json>)
    ensures
        json::json_view(r) == path_value(value@, text::split_char(path@, '.')),
{
    let parts = split_on(path, '.');
    let ghost all = textmap::views(parts@);
    let mut current: Option<&Json> = Some(value);
    for i in 0..parts.len()
        invariant
            all == textmap::views(parts@),
            json::json_view(current) == path_value(value@, all.take(i as int)),
    {
        proof {
            assert(all.take(i + 1).drop_last() =~= all.take(i as int));
            assert(all.take(i + 1).last() == all[i as int]);
        }
        current = field_of(current, parts[i].as_str());
    }
    assert(all.take(parts@.len() as int) =~= all);
    current
}

fn note_section(
    out: &mut Vec<String>,
    value: &Json,
    section: &str,
    known: &Vec<&str>,
    Ghost(start): Ghost<Seq<Seq<char>>>,
    Ghost(rows): Ghost<Seq<(Seq<char>, Seq<Seq<char>>)>>,
)
    requires
        textmap::views(old(out)@) == start + unknown_in_sections(value@, rows),
    ensures
        textmap::views(final(out)@) == start + unknown_in_sections(
            value@,
            rows.push((section@, textmap::views(known@))),
        ),
{
    note_unknown(out, path_at(value, section), joined(section, ".").as_str(), known);
    proof {
        let more = rows.push((section@, textmap::views(known@)));
        assert(more.drop_last() =~= rows);
        assert(textmap::views(out@) =~= start + unknown_in_sections(value@, more));
    }
}

/// The warnings for the keys of a token file that are not known.
pub fn unknown_token_keys(value: &Json) -> (r: Vec<String>)
    ensures
        textmap::views(r@) == unknown_in(Some(value@), Seq::empty(), top_keys()) + unknown_in_sections(
            value@,
            section_keys(),
        ),
{
    let mut out: Vec<String> = Vec::new();
    let known = vec!["colors", "spacing", "controlSize", "choiceControlSize", "switchSize", "iconSize", "borderWidth", "controlRadius", "controlPaddingInline", "fontWeight", "typography", "radius"];
    assert(textmap::views(known@) =~= top_keys());
    proof {
        reveal_strlit("");
        assert(""@ =~= Seq::<char>::empty());
    }
    note_unknown(&mut out, Some(value), "", &known);
    let ghost start = unknown_in(Some(value@), Seq::empty(), top_keys());
    let ghost mut rows: Seq<(Seq<char>, Seq<Seq<char>>)> = Seq::empty();
    assert(textmap::views(out@) =~= start + unknown_in_sections(value@, rows));
    let known = vec!["light", "dark"];
    assert(textmap::views(known@) =~= seq!["light"@, "dark"@]);
    note_section(&mut out, value, "colors", &known, Ghost(start), Ghost(rows));
    proof {
        rows = rows.push(("colors"@, seq!["light"@, "dark"@]));
    }
    let known = vec!["primary", "primary-pressed", "secondary", "danger", "surface", "background", "text", "text-muted", "transparent"];
    assert(textmap::views(known@) =~= seq!["primary"@, "primary-pressed"@, "secondary"@, "danger"@, "surface"@, "background"@, "text"@, "text-muted"@, "transparent"@]);
    note_section(&mut out, value, "colors.light", &known, Ghost(start), Ghost(rows));
    proof {
        rows = rows.push(("colors.light"@, seq!["primary"@, "primary-pressed"@, "secondary"@, "danger"@, "surface"@, "background"@, "text"@, "text-muted"@, "transparent"@]));
    }
    let known = vec!["primary", "primary-pressed", "secondary", "danger", "surface", "background", "text", "text-muted", "transparent"];
    assert(textmap::views(known@) =~= seq!["primary"@, "primary-pressed"@, "secondary"@, "danger"@, "surface"@, "background"@, "text"@, "text-muted"@, "transparent"@]);
    note_section(&mut out, value, "colors.dark", &known, Ghost(start), Ghost(rows));
    proof {
        rows = rows.push(("colors.dark"@, seq!["primary"@, "primary-pressed"@, "secondary"@, "danger"@, "surface"@, "background"@, "text"@, "text-muted"@, "transparent"@]));
    }
    let known = vec!["xs", "sm", "md", "lg", "xl"];
    assert(textmap::views(known@) =~= seq!["xs"@, "sm"@, "md"@, "lg"@, "xl"@]);
    note_section(&mut out, value, "spacing", &known, Ghost(start), Ghost(rows));
    proof {
        rows = rows.push(("spacing"@, seq!["xs"@, "sm"@, "md"@, "lg"@, "xl"@]));
    }
    let known = vec!["sm", "md", "lg"];
    assert(textmap::views(known@) =~= seq!["sm"@, "md"@, "lg"@]);
    note_section(&mut out, value, "controlSize", &known, Ghost(start), Ghost(rows));
    proof {
        rows = rows.push(("controlSize"@, seq!["sm"@, "md"@, "lg"@]));
    }
    let known = vec!["sm", "md", "lg"];
    assert(textmap::views(known@) =~= seq!["sm"@, "md"@, "lg"@]);
    note_section(&mut out, value, "choiceControlSize", &known, Ghost(start), Ghost(rows));
    proof {
        rows = rows.push(("choiceControlSize"@, seq!["sm"@, "md"@, "lg"@]));
    }
    let known = vec!["sm", "md", "lg"];
    assert(textmap::views(known@) =~= seq!["sm"@, "md"@, "lg"@]);
    note_section(&mut out, value, "switchSize", &known, Ghost(start), Ghost(rows));
    proof {
        rows = rows.push(("switchSize"@, seq!["sm"@, "md"@, "lg"@]));
    }
    let known = vec!["sm", "md", "lg"];
    assert(textmap::views(known@) =~= seq!["sm"@, "md"@, "lg"@]);
    note_section(&mut out, value, "iconSize", &known, Ghost(start), Ghost(rows));
    proof {
        rows = rows.push(("iconSize"@, seq!["sm"@, "md"@, "lg"@]));
    }
    let known = vec!["none", "sm", "focus"];
    assert(textmap::views(known@) =~= seq!["none"@, "sm"@, "focus"@]);
    note_section(&mut out, value, "borderWidth", &known, Ghost(start), Ghost(rows));
    proof {
        rows = rows.push(("borderWidth"@, seq!["none"@, "sm"@, "focus"@]));
    }
    let known = vec!["sm", "md", "lg"];
    assert(textmap::views(known@) =~= seq!["sm"@, "md"@, "lg"@]);
    note_section(&mut out, value, "controlRadius", &known, Ghost(start), Ghost(rows));
    proof {
        rows = rows.push(("controlRadius"@, seq!["sm"@, "md"@, "lg"@]));
    }
    let known = vec!["sm", "md", "lg"];
    assert(textmap::views(known@) =~= seq!["sm"@, "md"@, "lg"@]);
    note_section(&mut out, value, "controlPaddingInline", &known, Ghost(start), Ghost(rows));
    proof {
        rows = rows.push(("controlPaddingInline"@, seq!["sm"@, "md"@, "lg"@]));
    }
    let known = vec!["normal", "medium", "semibold", "bold"];
    assert(textmap::views(known@) =~= seq!["normal"@, "medium"@, "semibold"@, "bold"@]);
    note_section(&mut out, value, "fontWeight", &known, Ghost(start), Ghost(rows));
    proof {
        rows = rows.push(("fontWeight"@, seq!["normal"@, "medium"@, "semibold"@, "bold"@]));
    }
    let known = vec!["font-size-xs", "font-size-caption", "font-size-sm", "font-size-md", "font-size-lg", "font-size-title", "font-size-body", "font-size-subtitle", "font-size-label", "font-size-helper", "font-primary", "font-secondary", "font-tertiary"];
    assert(textmap::views(known@) =~= seq!["font-size-xs"@, "font-size-caption"@, "font-size-sm"@, "font-size-md"@, "font-size-lg"@, "font-size-title"@, "font-size-body"@, "font-size-subtitle"@, "font-size-label"@, "font-size-helper"@, "font-primary"@, "font-secondary"@, "font-tertiary"@]);
    note_section(&mut out, value, "typography", &known, Ghost(start), Ghost(rows));
    proof {
        rows = rows.push(("typography"@, seq!["font-size-xs"@, "font-size-caption"@, "font-size-sm"@, "font-size-md"@, "font-size-lg"@, "font-size-title"@, "font-size-body"@, "font-size-subtitle"@, "font-size-label"@, "font-size-helper"@, "font-primary"@, "font-secondary"@, "font-tertiary"@]));
    }
    let known = vec!["sm", "md", "default", "lg", "full"];
    assert(textmap::views(known@) =~= seq!["sm"@, "md"@, "default"@, "lg"@, "full"@]);
    note_section(&mut out, value, "radius", &known, Ghost(start), Ghost(rows));
    proof {
        rows = rows.push(("radius"@, seq!["sm"@, "md"@, "default"@, "lg"@, "full"@]));
    }
    assert(rows =~= section_keys());
    out
}

// ---------------------------------------------------------------------------------------------
// What a written theme owns
// ---------------------------------------------------------------------------------------------
proof fn lemma_path(j: JsonModel, section: Seq<char>, key: Seq<char>)
    requires
        !key.contains('.'),
    ensures
        has_path(j, token_key(section, key)) <==> field(
            path_value(j, text::split_char(section, '.')),
            key,
        ) is Some,
{
    reveal_strlit(".");
    assert("."@ =~= seq!['.']);
    text::split_char_behind(section, '.', key);
    let parts = text::split_char(section, '.');
    assert(parts.push(key).drop_last() =~= parts);
}

proof fn lemma_section_path(j: JsonModel, section: Seq<char>)
    requires
        !section.contains('.'),
    ensures
        path_value(j, text::split_char(section, '.')) == field(Some(j), section),
{
    text::split_char_plain(section, '.');
    let parts = seq![section];
    assert(parts.drop_last() =~= Seq::<Seq<char>>::empty());
    assert(path_value(j, parts.drop_last()) == Some(j));
}

proof fn lemma_scheme_path(j: JsonModel, scheme: Seq<char>)
    requires
        !scheme.contains('.'),
    ensures
        path_value(j, text::split_char("colors"@ + "."@ + scheme, '.')) == field(
            field(Some(j), "colors"@),
            scheme,
        ),
{
    reveal_strlit("colors");
    reveal_strlit(".");
    assert("."@ =~= seq!['.']);
    text::split_char_behind("colors"@, '.', scheme);
    lemma_section_path(j, "colors"@);
    let parts = text::split_char("colors"@, '.');
    assert(parts.push(scheme).drop_last() =~= parts);
}

proof fn lemma_patch_sections(t: TokenModel, parent: Option<TokenModel>, owned_keys: Set<Seq<char>>)
    ensures
        ({
            let j = JsonModel::Object(t.patch(parent, owned_keys));
            &&& path_value(j, text::split_char("colors.light"@, '.')) == json::filled(
                t.light.patch(
                    match parent {
                        Some(p) => Some(p.light),
                        None => None,
                    },
                    "colors.light"@,
                    owned_keys,
                ),
            )
            &&& path_value(j, text::split_char("colors.dark"@, '.')) == json::filled(
                t.dark.patch(
                    match parent {
                        Some(p) => Some(p.dark),
                        None => None,
                    },
                    "colors.dark"@,
                    owned_keys,
                ),
            )
            &&& path_value(j, text::split_char("spacing"@, '.')) == json::filled(
                t.spacing.patch(
                    match parent {
                        Some(p) => Some(p.spacing),
                        None => None,
                    },
                    "spacing"@,
                    owned_keys,
                ),
            )
            &&& path_value(j, text::split_char("controlSize"@, '.')) == json::filled(
                t.control_size.patch(
                    match parent {
                        Some(p) => Some(p.control_size),
                        None => None,
                    },
                    "controlSize"@,
                    owned_keys,
                ),
            )
            &&& path_value(j, text::split_char("choiceControlSize"@, '.')) == json::filled(
                t.choice_control_size.patch(
                    match parent {
                        Some(p) => Some(p.choice_control_size),
                        None => None,
                    },
                    "choiceControlSize"@,
                    owned_keys,
                ),
            )
            &&& path_value(j, text::split_char("switchSize"@, '.')) == json::filled(
                t.switch_size.patch(
                    match parent {
                        Some(p) => Some(p.switch_size),
                        None => None,
                    },
                    "switchSize"@,
                    owned_keys,
                ),
            )
            &&& path_value(j, text::split_char("iconSize"@, '.')) == json::filled(
                t.icon_size.patch(
                    match parent {
                        Some(p) => Some(p.icon_size),
                        None => None,
                    },
                    "iconSize"@,
                    owned_keys,
                ),
            )
            &&& path_value(j, text::split_char("borderWidth"@, '.')) == json::filled(
                t.border_width.patch(
                    match parent {
                        Some(p) => Some(p.border_width),
                        None => None,
                    },
                    "borderWidth"@,
                    owned_keys,
                ),
            )
            &&& path_value(j, text::split_char("controlRadius"@, '.')) == json::filled(
                t.control_radius.patch(
                    match parent {
                        Some(p) => Some(p.control_radius),
                        None => None,
                    },
                    "controlRadius"@,
                    owned_keys,
                ),
            )
            &&& path_value(j, text::split_char("controlPaddingInline"@, '.')) == json::filled(
                t.control_padding_inline.patch(
                    match parent {
                        Some(p) => Some(p.control_padding_inline),
                        None => None,
                    },
                    "controlPaddingInline"@,
                    owned_keys,
                ),
            )
            &&& path_value(j, text::split_char("typography"@, '.')) == json::filled(
                t.typography.patch(
                    match parent {
                        Some(p) => Some(p.typography),
                        None => None,
                    },
                    "typography"@,
                    owned_keys,
                ),
            )
            &&& path_value(j, text::split_char("fontWeight"@, '.')) == json::filled(
                t.font_weight.patch(
                    match parent {
                        Some(p) => Some(p.font_weight),
                        None => None,
                    },
                    "fontWeight"@,
                    owned_keys,
                ),
            )
            &&& path_value(j, text::split_char("radius"@, '.')) == json::filled(
                t.radius.patch(
                    match parent {
                        Some(p) => Some(p.radius),
                        None => None,
                    },
                    "radius"@,
                    owned_keys,
                ),
            )
        }),
{
    let j = JsonModel::Object(t.patch(parent, owned_keys));
    let p_light = t.light.patch(
        match parent {
            Some(p) => Some(p.light),
            None => None,
        },
        "colors.light"@,
        owned_keys,
    );
    let p_dark = t.dark.patch(
        match parent {
            Some(p) => Some(p.dark),
            None => None,
        },
        "colors.dark"@,
        owned_keys,
    );
    let p_spacing = t.spacing.patch(
        match parent {
            Some(p) => Some(p.spacing),
            None => None,
        },
        "spacing"@,
        owned_keys,
    );
    let p_control_size = t.control_size.patch(
        match parent {
            Some(p) => Some(p.control_size),
            None => None,
        },
        "controlSize"@,
        owned_keys,
    );
    let p_choice_control_size = t.choice_control_size.patch(
        match parent {
            Some(p) => Some(p.choice_control_size),
            None => None,
        },
        "choiceControlSize"@,
        owned_keys,
    );
    let p_switch_size = t.switch_size.patch(
        match parent {
            Some(p) => Some(p.switch_size),
            None => None,
        },
        "switchSize"@,
        owned_keys,
    );
    let p_icon_size = t.icon_size.patch(
        match parent {
            Some(p) => Some(p.icon_size),
            None => None,
        },
        "iconSize"@,
        owned_keys,
    );
    let p_border_width = t.border_width.patch(
        match parent {
            Some(p) => Some(p.border_width),
            None => None,
        },
        "borderWidth"@,
        owned_keys,
    );
    let p_control_radius = t.control_radius.patch(
        match parent {
            Some(p) => Some(p.control_radius),
            None => None,
        },
        "controlRadius"@,
        owned_keys,
    );
    let p_control_padding_inline = t.control_padding_inline.patch(
        match parent {
            Some(p) => Some(p.control_padding_inline),
            None => None,
        },
        "controlPaddingInline"@,
        owned_keys,
    );
    let p_typography = t.typography.patch(
        match parent {
            Some(p) => Some(p.typography),
            None => None,
        },
        "typography"@,
        owned_keys,
    );
    let p_font_weight = t.font_weight.patch(
        match parent {
            Some(p) => Some(p.font_weight),
            None => None,
        },
        "fontWeight"@,
        owned_keys,
    );
    let p_radius = t.radius.patch(
        match parent {
            Some(p) => Some(p.radius),
            None => None,
        },
        "radius"@,
        owned_keys,
    );
    let colors = section_entry(section_entry(Map::empty(), "light"@, p_light), "dark"@, p_dark);
    lemma_sections(colors, p_spacing, p_control_size, p_choice_control_size, p_switch_size, p_icon_size, p_border_width, p_control_radius, p_control_padding_inline, p_typography, p_font_weight, p_radius);
    lemma_section_names();
    let none = Set::<Seq<char>>::empty();
    assert(p_light.dom() != none ==> colors.dom().contains("light"@));
    assert(p_dark.dom() != none ==> colors.dom().contains("dark"@));
    assert(field(json::filled(colors), "light"@) == json::filled(p_light));
    assert(field(json::filled(colors), "dark"@) == json::filled(p_dark));
    lemma_scheme_names();
    lemma_plain_names();
    lemma_scheme_path(j, "light"@);
    lemma_scheme_path(j, "dark"@);
    lemma_section_path(j, "spacing"@);
    lemma_section_path(j, "controlSize"@);
    lemma_section_path(j, "choiceControlSize"@);
    lemma_section_path(j, "switchSize"@);
    lemma_section_path(j, "iconSize"@);
    lemma_section_path(j, "borderWidth"@);
    lemma_section_path(j, "controlRadius"@);
    lemma_section_path(j, "controlPaddingInline"@);
    lemma_section_path(j, "typography"@);
    lemma_section_path(j, "fontWeight"@);
    lemma_section_path(j, "radius"@);
}

proof fn lemma_plain_names()
    ensures
        !"light"@.contains('.'),
        !"dark"@.contains('.'),
        !"spacing"@.contains('.'),
        !"controlSize"@.contains('.'),
        !"choiceControlSize"@.contains('.'),
        !"switchSize"@.contains('.'),
        !"iconSize"@.contains('.'),
        !"borderWidth"@.contains('.'),
        !"controlRadius"@.contains('.'),
        !"controlPaddingInline"@.contains('.'),
        !"typography"@.contains('.'),
        !"fontWeight"@.contains('.'),
        !"radius"@.contains('.'),
{
    reveal_strlit("light");
    assert(!"light"@.contains('.')) by {
        assert(forall|i: int| 0 <= i < 5 ==> "light"@[i] != '.');
    }
    reveal_strlit("dark");
    assert(!"dark"@.contains('.')) by {
        assert(forall|i: int| 0 <= i < 4 ==> "dark"@[i] != '.');
    }
    reveal_strlit("spacing");
    assert(!"spacing"@.contains('.')) by {
        assert(forall|i: int| 0 <= i < 7 ==> "spacing"@[i] != '.');
    }
    reveal_strlit("controlSize");
    assert(!"controlSize"@.contains('.')) by {
        assert(forall|i: int| 0 <= i < 11 ==> "controlSize"@[i] != '.');
    }
    reveal_strlit("choiceControlSize");
    assert(!"choiceControlSize"@.contains('.')) by {
        assert(forall|i: int| 0 <= i < 17 ==> "choiceControlSize"@[i] != '.');
    }
    reveal_strlit("switchSize");
    assert(!"switchSize"@.contains('.')) by {
        assert(forall|i: int| 0 <= i < 10 ==> "switchSize"@[i] != '.');
    }
    reveal_strlit("iconSize");
    assert(!"iconSize"@.contains('.')) by {
        assert(forall|i: int| 0 <= i < 8 ==> "iconSize"@[i] != '.');
    }
    reveal_strlit("borderWidth");
    assert(!"borderWidth"@.contains('.')) by {
        assert(forall|i: int| 0 <= i < 11 ==> "borderWidth"@[i] != '.');
    }
    reveal_strlit("controlRadius");
    assert(!"controlRadius"@.contains('.')) by {
        assert(forall|i: int| 0 <= i < 13 ==> "controlRadius"@[i] != '.');
    }
    reveal_strlit("controlPaddingInline");
    assert(!"controlPaddingInline"@.contains('.')) by {
        assert(forall|i: int| 0 <= i < 20 ==> "controlPaddingInline"@[i] != '.');
    }
    reveal_strlit("typography");
    assert(!"typography"@.contains('.')) by {
        assert(forall|i: int| 0 <= i < 10 ==> "typography"@[i] != '.');
    }
    reveal_strlit("fontWeight");
    assert(!"fontWeight"@.contains('.')) by {
        assert(forall|i: int| 0 <= i < 10 ==> "fontWeight"@[i] != '.');
    }
    reveal_strlit("radius");
    assert(!"radius"@.contains('.')) by {
        assert(forall|i: int| 0 <= i < 6 ==> "radius"@[i] != '.');
    }
}

proof fn lemma_scheme_names()
    ensures
        "colors"@ + "."@ + "light"@ == "colors.light"@,
        "colors"@ + "."@ + "dark"@ == "colors.dark"@,
{
    reveal_strlit("colors");
    reveal_strlit(".");
    reveal_strlit("light");
    reveal_strlit("dark");
    reveal_strlit("colors.light");
    reveal_strlit("colors.dark");
    assert("colors"@ + "."@ + "light"@ =~= "colors.light"@);
    assert("colors"@ + "."@ + "dark"@ =~= "colors.dark"@);
}

proof fn lemma_palette_owned(
    s: Palette,
    parent: Option<Palette>,
    j: JsonModel,
    section: Seq<char>,
    owned_keys: Set<Seq<char>>,
)
    requires
        path_value(j, text::split_char(section, '.')) == json::filled(s.patch(parent, section, owned_keys)),
    ensures
        owned_keys.contains(token_key(section, "primary"@)) ==> has_path(j, token_key(section, "primary"@)),
        owned_keys.contains(token_key(section, "primary-pressed"@)) ==> has_path(j, token_key(section, "primary-pressed"@)),
        owned_keys.contains(token_key(section, "secondary"@)) ==> has_path(j, token_key(section, "secondary"@)),
        owned_keys.contains(token_key(section, "danger"@)) ==> has_path(j, token_key(section, "danger"@)),
        owned_keys.contains(token_key(section, "surface"@)) ==> has_path(j, token_key(section, "surface"@)),
        owned_keys.contains(token_key(section, "background"@)) ==> has_path(j, token_key(section, "background"@)),
        owned_keys.contains(token_key(section, "text"@)) ==> has_path(j, token_key(section, "text"@)),
        owned_keys.contains(token_key(section, "text-muted"@)) ==> has_path(j, token_key(section, "text-muted"@)),
        owned_keys.contains(token_key(section, "transparent"@)) ==> has_path(j, token_key(section, "transparent"@)),
{
    let o = s.patch(parent, section, owned_keys);
    assert(owned_keys.contains(token_key(section, "primary"@)) ==> has_path(j, token_key(section, "primary"@))) by {
        reveal_strlit("primary");
        assert(!"primary"@.contains('.')) by {
            assert(forall|i: int| 0 <= i < 7 ==> "primary"@[i] != '.');
        }
        lemma_path(j, section, "primary"@);
        palette_patch_keys(s, parent, section, owned_keys, "primary"@);
        if o.dom().contains("primary"@) {
            assert(o.dom() != Set::<Seq<char>>::empty());
        }
    }
    assert(owned_keys.contains(token_key(section, "primary-pressed"@)) ==> has_path(j, token_key(section, "primary-pressed"@))) by {
        reveal_strlit("primary-pressed");
        assert(!"primary-pressed"@.contains('.')) by {
            assert(forall|i: int| 0 <= i < 15 ==> "primary-pressed"@[i] != '.');
        }
        lemma_path(j, section, "primary-pressed"@);
        palette_patch_keys(s, parent, section, owned_keys, "primary-pressed"@);
        if o.dom().contains("primary-pressed"@) {
            assert(o.dom() != Set::<Seq<char>>::empty());
        }
    }
    assert(owned_keys.contains(token_key(section, "secondary"@)) ==> has_path(j, token_key(section, "secondary"@))) by {
        reveal_strlit("secondary");
        assert(!"secondary"@.contains('.')) by {
            assert(forall|i: int| 0 <= i < 9 ==> "secondary"@[i] != '.');
        }
        lemma_path(j, section, "secondary"@);
        palette_patch_keys(s, parent, section, owned_keys, "secondary"@);
        if o.dom().contains("secondary"@) {
            assert(o.dom() != Set::<Seq<char>>::empty());
        }
    }
    assert(owned_keys.contains(token_key(section, "danger"@)) ==> has_path(j, token_key(section, "danger"@))) by {
        reveal_strlit("danger");
        assert(!"danger"@.contains('.')) by {
            assert(forall|i: int| 0 <= i < 6 ==> "danger"@[i] != '.');
        }
        lemma_path(j, section, "danger"@);
        palette_patch_keys(s, parent, section, owned_keys, "danger"@);
        if o.dom().contains("danger"@) {
            assert(o.dom() != Set::<Seq<char>>::empty());
        }
    }
    assert(owned_keys.contains(token_key(section, "surface"@)) ==> has_path(j, token_key(section, "surface"@))) by {
        reveal_strlit("surface");
        assert(!"surface"@.contains('.')) by {
            assert(forall|i: int| 0 <= i < 7 ==> "surface"@[i] != '.');
        }
        lemma_path(j, section, "surface"@);
        palette_patch_keys(s, parent, section, owned_keys, "surface"@);
        if o.dom().contains("surface"@) {
            assert(o.dom() != Set::<Seq<char>>::empty());
        }
    }
    assert(owned_keys.contains(token_key(section, "background"@)) ==> has_path(j, token_key(section, "background"@))) by {
        reveal_strlit("background");
        assert(!"background"@.contains('.')) by {
            assert(forall|i: int| 0 <= i < 10 ==> "background"@[i] != '.');
        }
        lemma_path(j, section, "background"@);
        palette_patch_keys(s, parent, section, owned_keys, "background"@);
        if o.dom().contains("background"@) {
            assert(o.dom() != Set::<Seq<char>>::empty());
        }
    }
    assert(owned_keys.contains(token_key(section, "text"@)) ==> has_path(j, token_key(section, "text"@))) by {
        reveal_strlit("text");
        assert(!"text"@.contains('.')) by {
            assert(forall|i: int| 0 <= i < 4 ==> "text"@[i] != '.');
        }
        lemma_path(j, section, "text"@);
        palette_patch_keys(s, parent, section, owned_keys, "text"@);
        if o.dom().contains("text"@) {
            assert(o.dom() != Set::<Seq<char>>::empty());
        }
    }
    assert(owned_keys.contains(token_key(section, "text-muted"@)) ==> has_path(j, token_key(section, "text-muted"@))) by {
        reveal_strlit("text-muted");
        assert(!"text-muted"@.contains('.')) by {
            assert(forall|i: int| 0 <= i < 10 ==> "text-muted"@[i] != '.');
        }
        lemma_path(j, section, "text-muted"@);
        palette_patch_keys(s, parent, section, owned_keys, "text-muted"@);
        if o.dom().contains("text-muted"@) {
            assert(o.dom() != Set::<Seq<char>>::empty());
        }
    }
    assert(owned_keys.contains(token_key(section, "transparent"@)) ==> has_path(j, token_key(section, "transparent"@))) by {
        reveal_strlit("transparent");
        assert(!"transparent"@.contains('.')) by {
            assert(forall|i: int| 0 <= i < 11 ==> "transparent"@[i] != '.');
        }
        lemma_path(j, section, "transparent"@);
        palette_patch_keys(s, parent, section, owned_keys, "transparent"@);
        if o.dom().contains("transparent"@) {
            assert(o.dom() != Set::<Seq<char>>::empty());
        }
    }
}

proof fn lemma_spacing_owned(
    s: Spacing,
    parent: Option<Spacing>,
    j: JsonModel,
    section: Seq<char>,
    owned_keys: Set<Seq<char>>,
)
    requires
        path_value(j, text::split_char(section, '.')) == json::filled(s.patch(parent, section, owned_keys)),
    ensures
        owned_keys.contains(token_key(section, "xs"@)) ==> has_path(j, token_key(section, "xs"@)),
        owned_keys.contains(token_key(section, "sm"@)) ==> has_path(j, token_key(section, "sm"@)),
        owned_keys.contains(token_key(section, "md"@)) ==> has_path(j, token_key(section, "md"@)),
        owned_keys.contains(token_key(section, "lg"@)) ==> has_path(j, token_key(section, "lg"@)),
        owned_keys.contains(token_key(section, "xl"@)) ==> has_path(j, token_key(section, "xl"@)),
{
    let o = s.patch(parent, section, owned_keys);
    assert(owned_keys.contains(token_key(section, "xs"@)) ==> has_path(j, token_key(section, "xs"@))) by {
        reveal_strlit("xs");
        assert(!"xs"@.contains('.')) by {
            assert(forall|i: int| 0 <= i < 2 ==> "xs"@[i] != '.');
        }
        lemma_path(j, section, "xs"@);
        spacing_patch_keys(s, parent, section, owned_keys, "xs"@);
        if o.dom().contains("xs"@) {
            assert(o.dom() != Set::<Seq<char>>::empty());
        }
    }
    assert(owned_keys.contains(token_key(section, "sm"@)) ==> has_path(j, token_key(section, "sm"@))) by {
        reveal_strlit("sm");
        assert(!"sm"@.contains('.')) by {
            assert(forall|i: int| 0 <= i < 2 ==> "sm"@[i] != '.');
        }
        lemma_path(j, section, "sm"@);
        spacing_patch_keys(s, parent, section, owned_keys, "sm"@);
        if o.dom().contains("sm"@) {
            assert(o.dom() != Set::<Seq<char>>::empty());
        }
    }
    assert(owned_keys.contains(token_key(section, "md"@)) ==> has_path(j, token_key(section, "md"@))) by {
        reveal_strlit("md");
        assert(!"md"@.contains('.')) by {
            assert(forall|i: int| 0 <= i < 2 ==> "md"@[i] != '.');
        }
        lemma_path(j, section, "md"@);
        spacing_patch_keys(s, parent, section, owned_keys, "md"@);
        if o.dom().contains("md"@) {
            assert(o.dom() != Set::<Seq<char>>::empty());
        }
    }
    assert(owned_keys.contains(token_key(section, "lg"@)) ==> has_path(j, token_key(section, "lg"@))) by {
        reveal_strlit("lg");
        assert(!"lg"@.contains('.')) by {
            assert(forall|i: int| 0 <= i < 2 ==> "lg"@[i] != '.');
        }
        lemma_path(j, section, "lg"@);
        spacing_patch_keys(s, parent, section, owned_keys, "lg"@);
        if o.dom().contains("lg"@) {
            assert(o.dom() != Set::<Seq<char>>::empty());
        }
    }
    assert(owned_keys.contains(token_key(section, "xl"@)) ==> has_path(j, token_key(section, "xl"@))) by {
        reveal_strlit("xl");
        assert(!"xl"@.contains('.')) by {
            assert(forall|i: int| 0 <= i < 2 ==> "xl"@[i] != '.');
        }
        lemma_path(j, section, "xl"@);
        spacing_patch_keys(s, parent, section, owned_keys, "xl"@);
        if o.dom().contains("xl"@) {
            assert(o.dom() != Set::<Seq<char>>::empty());
        }
    }
}

proof fn lemma_size_scale_owned(
    s: SizeScale,
    parent: Option<SizeScale>,
    j: JsonModel,
    section: Seq<char>,
    owned_keys: Set<Seq<char>>,
)
    requires
        path_value(j, text::split_char(section, '.')) == json::filled(s.patch(parent, section, owned_keys)),
    ensures
        owned_keys.contains(token_key(section, "sm"@)) ==> has_path(j, token_key(section, "sm"@)),
        owned_keys.contains(token_key(section, "md"@)) ==> has_path(j, token_key(section, "md"@)),
        owned_keys.contains(token_key(section, "lg"@)) ==> has_path(j, token_key(section, "lg"@)),
{
    let o = s.patch(parent, section, owned_keys);
    assert(owned_keys.contains(token_key(section, "sm"@)) ==> has_path(j, token_key(section, "sm"@))) by {
        reveal_strlit("sm");
        assert(!"sm"@.contains('.')) by {
            assert(forall|i: int| 0 <= i < 2 ==> "sm"@[i] != '.');
        }
        lemma_path(j, section, "sm"@);
        size_scale_patch_keys(s, parent, section, owned_keys, "sm"@);
        if o.dom().contains("sm"@) {
            assert(o.dom() != Set::<Seq<char>>::empty());
        }
    }
    assert(owned_keys.contains(token_key(section, "md"@)) ==> has_path(j, token_key(section, "md"@))) by {
        reveal_strlit("md");
        assert(!"md"@.contains('.')) by {
            assert(forall|i: int| 0 <= i < 2 ==> "md"@[i] != '.');
        }
        lemma_path(j, section, "md"@);
        size_scale_patch_keys(s, parent, section, owned_keys, "md"@);
        if o.dom().contains("md"@) {
            assert(o.dom() != Set::<Seq<char>>::empty());
        }
    }
    assert(owned_keys.contains(token_key(section, "lg"@)) ==> has_path(j, token_key(section, "lg"@))) by {
        reveal_strlit("lg");
        assert(!"lg"@.contains('.')) by {
            assert(forall|i: int| 0 <= i < 2 ==> "lg"@[i] != '.');
        }
        lemma_path(j, section, "lg"@);
        size_scale_patch_keys(s, parent, section, owned_keys, "lg"@);
        if o.dom().contains("lg"@) {
            assert(o.dom() != Set::<Seq<char>>::empty());
        }
    }
}

proof fn lemma_border_widths_owned(
    s: BorderWidths,
    parent: Option<BorderWidths>,
    j: JsonModel,
    section: Seq<char>,
    owned_keys: Set<Seq<char>>,
)
    requires
        path_value(j, text::split_char(section, '.')) == json::filled(s.patch(parent, section, owned_keys)),
    ensures
        owned_keys.contains(token_key(section, "none"@)) ==> has_path(j, token_key(section, "none"@)),
        owned_keys.contains(token_key(section, "sm"@)) ==> has_path(j, token_key(section, "sm"@)),
        owned_keys.contains(token_key(section, "focus"@)) ==> has_path(j, token_key(section, "focus"@)),
{
    let o = s.patch(parent, section, owned_keys);
    assert(owned_keys.contains(token_key(section, "none"@)) ==> has_path(j, token_key(section, "none"@))) by {
        reveal_strlit("none");
        assert(!"none"@.contains('.')) by {
            assert(forall|i: int| 0 <= i < 4 ==> "none"@[i] != '.');
        }
        lemma_path(j, section, "none"@);
        border_widths_patch_keys(s, parent, section, owned_keys, "none"@);
        if o.dom().contains("none"@) {
            assert(o.dom() != Set::<Seq<char>>::empty());
        }
    }
    assert(owned_keys.contains(token_key(section, "sm"@)) ==> has_path(j, token_key(section, "sm"@))) by {
        reveal_strlit("sm");
        assert(!"sm"@.contains('.')) by {
            assert(forall|i: int| 0 <= i < 2 ==> "sm"@[i] != '.');
        }
        lemma_path(j, section, "sm"@);
        border_widths_patch_keys(s, parent, section, owned_keys, "sm"@);
        if o.dom().contains("sm"@) {
            assert(o.dom() != Set::<Seq<char>>::empty());
        }
    }
    assert(owned_keys.contains(token_key(section, "focus"@)) ==> has_path(j, token_key(section, "focus"@))) by {
        reveal_strlit("focus");
        assert(!"focus"@.contains('.')) by {
            assert(forall|i: int| 0 <= i < 5 ==> "focus"@[i] != '.');
        }
        lemma_path(j, section, "focus"@);
        border_widths_patch_keys(s, parent, section, owned_keys, "focus"@);
        if o.dom().contains("focus"@) {
            assert(o.dom() != Set::<Seq<char>>::empty());
        }
    }
}

proof fn lemma_typography_owned(
    s: TypographyModel,
    parent: Option<TypographyModel>,
    j: JsonModel,
    section: Seq<char>,
    owned_keys: Set<Seq<char>>,
)
    requires
        path_value(j, text::split_char(section, '.')) == json::filled(s.patch(parent, section, owned_keys)),
    ensures
        owned_keys.contains(token_key(section, "font-size-xs"@)) ==> has_path(j, token_key(section, "font-size-xs"@)),
        owned_keys.contains(token_key(section, "font-size-caption"@)) ==> has_path(j, token_key(section, "font-size-caption"@)),
        owned_keys.contains(token_key(section, "font-size-sm"@)) ==> has_path(j, token_key(section, "font-size-sm"@)),
        owned_keys.contains(token_key(section, "font-size-md"@)) ==> has_path(j, token_key(section, "font-size-md"@)),
        owned_keys.contains(token_key(section, "font-size-lg"@)) ==> has_path(j, token_key(section, "font-size-lg"@)),
        owned_keys.contains(token_key(section, "font-size-helper"@)) ==> has_path(j, token_key(section, "font-size-helper"@)),
        owned_keys.contains(token_key(section, "font-primary"@)) ==> has_path(j, token_key(section, "font-primary"@)),
        owned_keys.contains(token_key(section, "font-secondary"@)) ==> has_path(j, token_key(section, "font-secondary"@)),
        owned_keys.contains(token_key(section, "font-tertiary"@)) ==> has_path(j, token_key(section, "font-tertiary"@)),
{
    let o = s.patch(parent, section, owned_keys);
    assert(owned_keys.contains(token_key(section, "font-size-xs"@)) ==> has_path(j, token_key(section, "font-size-xs"@))) by {
        reveal_strlit("font-size-xs");
        assert(!"font-size-xs"@.contains('.')) by {
            assert(forall|i: int| 0 <= i < 12 ==> "font-size-xs"@[i] != '.');
        }
        lemma_path(j, section, "font-size-xs"@);
        typography_patch_keys(s, parent, section, owned_keys, "font-size-xs"@);
        if o.dom().contains("font-size-xs"@) {
            assert(o.dom() != Set::<Seq<char>>::empty());
        }
    }
    assert(owned_keys.contains(token_key(section, "font-size-caption"@)) ==> has_path(j, token_key(section, "font-size-caption"@))) by {
        reveal_strlit("font-size-caption");
        assert(!"font-size-caption"@.contains('.')) by {
            assert(forall|i: int| 0 <= i < 17 ==> "font-size-caption"@[i] != '.');
        }
        lemma_path(j, section, "font-size-caption"@);
        typography_patch_keys(s, parent, section, owned_keys, "font-size-caption"@);
        if o.dom().contains("font-size-caption"@) {
            assert(o.dom() != Set::<Seq<char>>::empty());
        }
    }
    assert(owned_keys.contains(token_key(section, "font-size-sm"@)) ==> has_path(j, token_key(section, "font-size-sm"@))) by {
        reveal_strlit("font-size-sm");
        assert(!"font-size-sm"@.contains('.')) by {
            assert(forall|i: int| 0 <= i < 12 ==> "font-size-sm"@[i] != '.');
        }
        lemma_path(j, section, "font-size-sm"@);
        typography_patch_keys(s, parent, section, owned_keys, "font-size-sm"@);
        if o.dom().contains("font-size-sm"@) {
            assert(o.dom() != Set::<Seq<char>>::empty());
        }
    }
    assert(owned_keys.contains(token_key(section, "font-size-md"@)) ==> has_path(j, token_key(section, "font-size-md"@))) by {
        reveal_strlit("font-size-md");
        assert(!"font-size-md"@.contains('.')) by {
            assert(forall|i: int| 0 <= i < 12 ==> "font-size-md"@[i] != '.');
        }
        lemma_path(j, section, "font-size-md"@);
        typography_patch_keys(s, parent, section, owned_keys, "font-size-md"@);
        if o.dom().contains("font-size-md"@) {
            assert(o.dom() != Set::<Seq<char>>::empty());
        }
    }
    assert(owned_keys.contains(token_key(section, "font-size-lg"@)) ==> has_path(j, token_key(section, "font-size-lg"@))) by {
        reveal_strlit("font-size-lg");
        assert(!"font-size-lg"@.contains('.')) by {
            assert(forall|i: int| 0 <= i < 12 ==> "font-size-lg"@[i] != '.');
        }
        lemma_path(j, section, "font-size-lg"@);
        typography_patch_keys(s, parent, section, owned_keys, "font-size-lg"@);
        if o.dom().contains("font-size-lg"@) {
            assert(o.dom() != Set::<Seq<char>>::empty());
        }
    }
    assert(owned_keys.contains(token_key(section, "font-size-helper"@)) ==> has_path(j, token_key(section, "font-size-helper"@))) by {
        reveal_strlit("font-size-helper");
        assert(!"font-size-helper"@.contains('.')) by {
            assert(forall|i: int| 0 <= i < 16 ==> "font-size-helper"@[i] != '.');
        }
        lemma_path(j, section, "font-size-helper"@);
        typography_patch_keys(s, parent, section, owned_keys, "font-size-helper"@);
        if o.dom().contains("font-size-helper"@) {
            assert(o.dom() != Set::<Seq<char>>::empty());
        }
    }
    assert(owned_keys.contains(token_key(section, "font-primary"@)) ==> has_path(j, token_key(section, "font-primary"@))) by {
        reveal_strlit("font-primary");
        assert(!"font-primary"@.contains('.')) by {
            assert(forall|i: int| 0 <= i < 12 ==> "font-primary"@[i] != '.');
        }
        lemma_path(j, section, "font-primary"@);
        typography_patch_keys(s, parent, section, owned_keys, "font-primary"@);
        if o.dom().contains("font-primary"@) {
            assert(o.dom() != Set::<Seq<char>>::empty());
        }
    }
    assert(owned_keys.contains(token_key(section, "font-secondary"@)) ==> has_path(j, token_key(section, "font-secondary"@))) by {
        reveal_strlit("font-secondary");
        assert(!"font-secondary"@.contains('.')) by {
            assert(forall|i: int| 0 <= i < 14 ==> "font-secondary"@[i] != '.');
        }
        lemma_path(j, section, "font-secondary"@);
        typography_patch_keys(s, parent, section, owned_keys, "font-secondary"@);
        if o.dom().contains("font-secondary"@) {
            assert(o.dom() != Set::<Seq<char>>::empty());
        }
    }
    assert(owned_keys.contains(token_key(section, "font-tertiary"@)) ==> has_path(j, token_key(section, "font-tertiary"@))) by {
        reveal_strlit("font-tertiary");
        assert(!"font-tertiary"@.contains('.')) by {
            assert(forall|i: int| 0 <= i < 13 ==> "font-tertiary"@[i] != '.');
        }
        lemma_path(j, section, "font-tertiary"@);
        typography_patch_keys(s, parent, section, owned_keys, "font-tertiary"@);
        if o.dom().contains("font-tertiary"@) {
            assert(o.dom() != Set::<Seq<char>>::empty());
        }
    }
}

proof fn lemma_font_weights_owned(
    s: FontWeights,
    parent: Option<FontWeights>,
    j: JsonModel,
    section: Seq<char>,
    owned_keys: Set<Seq<char>>,
)
    requires
        path_value(j, text::split_char(section, '.')) == json::filled(s.patch(parent, section, owned_keys)),
    ensures
        owned_keys.contains(token_key(section, "normal"@)) ==> has_path(j, token_key(section, "normal"@)),
        owned_keys.contains(token_key(section, "medium"@)) ==> has_path(j, token_key(section, "medium"@)),
        owned_keys.contains(token_key(section, "semibold"@)) ==> has_path(j, token_key(section, "semibold"@)),
        owned_keys.contains(token_key(section, "bold"@)) ==> has_path(j, token_key(section, "bold"@)),
{
    let o = s.patch(parent, section, owned_keys);
    assert(owned_keys.contains(token_key(section, "normal"@)) ==> has_path(j, token_key(section, "normal"@))) by {
        reveal_strlit("normal");
        assert(!"normal"@.contains('.')) by {
            assert(forall|i: int| 0 <= i < 6 ==> "normal"@[i] != '.');
        }
        lemma_path(j, section, "normal"@);
        font_weights_patch_keys(s, parent, section, owned_keys, "normal"@);
        if o.dom().contains("normal"@) {
            assert(o.dom() != Set::<Seq<char>>::empty());
        }
    }
    assert(owned_keys.contains(token_key(section, "medium"@)) ==> has_path(j, token_key(section, "medium"@))) by {
        reveal_strlit("medium");
        assert(!"medium"@.contains('.')) by {
            assert(forall|i: int| 0 <= i < 6 ==> "medium"@[i] != '.');
        }
        lemma_path(j, section, "medium"@);
        font_weights_patch_keys(s, parent, section, owned_keys, "medium"@);
        if o.dom().contains("medium"@) {
            assert(o.dom() != Set::<Seq<char>>::empty());
        }
    }
    assert(owned_keys.contains(token_key(section, "semibold"@)) ==> has_path(j, token_key(section, "semibold"@))) by {
        reveal_strlit("semibold");
        assert(!"semibold"@.contains('.')) by {
            assert(forall|i: int| 0 <= i < 8 ==> "semibold"@[i] != '.');
        }
        lemma_path(j, section, "semibold"@);
        font_weights_patch_keys(s, parent, section, owned_keys, "semibold"@);
        if o.dom().contains("semibold"@) {
            assert(o.dom() != Set::<Seq<char>>::empty());
        }
    }
    assert(owned_keys.contains(token_key(section, "bold"@)) ==> has_path(j, token_key(section, "bold"@))) by {
        reveal_strlit("bold");
        assert(!"bold"@.contains('.')) by {
            assert(forall|i: int| 0 <= i < 4 ==> "bold"@[i] != '.');
        }
        lemma_path(j, section, "bold"@);
        font_weights_patch_keys(s, parent, section, owned_keys, "bold"@);
        if o.dom().contains("bold"@) {
            assert(o.dom() != Set::<Seq<char>>::empty());
        }
    }
}

proof fn lemma_radii_owned(
    s: RadiiModel,
    parent: Option<RadiiModel>,
    j: JsonModel,
    section: Seq<char>,
    owned_keys: Set<Seq<char>>,
)
    requires
        path_value(j, text::split_char(section, '.')) == json::filled(s.patch(parent, section, owned_keys)),
    ensures
        owned_keys.contains(token_key(section, "sm"@)) ==> has_path(j, token_key(section, "sm"@)),
        owned_keys.contains(token_key(section, "md"@)) ==> has_path(j, token_key(section, "md"@)),
        owned_keys.contains(token_key(section, "lg"@)) ==> has_path(j, token_key(section, "lg"@)),
        owned_keys.contains(token_key(section, "full"@)) ==> has_path(j, token_key(section, "full"@)),
        owned_keys.contains(token_key(section, "default"@)) ==> has_path(j, token_key(section, "default"@)),
{
    let o = s.patch(parent, section, owned_keys);
    assert(owned_keys.contains(token_key(section, "sm"@)) ==> has_path(j, token_key(section, "sm"@))) by {
        reveal_strlit("sm");
        assert(!"sm"@.contains('.')) by {
            assert(forall|i: int| 0 <= i < 2 ==> "sm"@[i] != '.');
        }
        lemma_path(j, section, "sm"@);
        radii_patch_keys(s, parent, section, owned_keys, "sm"@);
        if o.dom().contains("sm"@) {
            assert(o.dom() != Set::<Seq<char>>::empty());
        }
    }
    assert(owned_keys.contains(token_key(section, "md"@)) ==> has_path(j, token_key(section, "md"@))) by {
        reveal_strlit("md");
        assert(!"md"@.contains('.')) by {
            assert(forall|i: int| 0 <= i < 2 ==> "md"@[i] != '.');
        }
        lemma_path(j, section, "md"@);
        radii_patch_keys(s, parent, section, owned_keys, "md"@);
        if o.dom().contains("md"@) {
            assert(o.dom() != Set::<Seq<char>>::empty());
        }
    }
    assert(owned_keys.contains(token_key(section, "lg"@)) ==> has_path(j, token_key(section, "lg"@))) by {
        reveal_strlit("lg");
        assert(!"lg"@.contains('.')) by {
            assert(forall|i: int| 0 <= i < 2 ==> "lg"@[i] != '.');
        }
        lemma_path(j, section, "lg"@);
        radii_patch_keys(s, parent, section, owned_keys, "lg"@);
        if o.dom().contains("lg"@) {
            assert(o.dom() != Set::<Seq<char>>::empty());
        }
    }
    assert(owned_keys.contains(token_key(section, "full"@)) ==> has_path(j, token_key(section, "full"@))) by {
        reveal_strlit("full");
        assert(!"full"@.contains('.')) by {
            assert(forall|i: int| 0 <= i < 4 ==> "full"@[i] != '.');
        }
        lemma_path(j, section, "full"@);
        radii_patch_keys(s, parent, section, owned_keys, "full"@);
        if o.dom().contains("full"@) {
            assert(o.dom() != Set::<Seq<char>>::empty());
        }
    }
    assert(owned_keys.contains(token_key(section, "default"@)) ==> has_path(j, token_key(section, "default"@))) by {
        reveal_strlit("default");
        assert(!"default"@.contains('.')) by {
            assert(forall|i: int| 0 <= i < 7 ==> "default"@[i] != '.');
        }
        lemma_path(j, section, "default"@);
        radii_patch_keys(s, parent, section, owned_keys, "default"@);
        if o.dom().contains("default"@) {
            assert(o.dom() != Set::<Seq<char>>::empty());
        }
    }
}

/// The tokens that a theme owns are all given in what is written of it.
pub proof fn owned_tokens_are_given(t: TokenModel, parent: Option<TokenModel>, owned_keys: Set<Seq<char>>, key: Seq<char>)
    requires
        owned_keys.contains(key),
        token_theme_keys().contains(key),
    ensures
        given_keys(JsonModel::Object(t.patch(parent, owned_keys))).contains(key),
{
    let j = JsonModel::Object(t.patch(parent, owned_keys));
    lemma_patch_sections(t, parent, owned_keys);
    lemma_palette_owned(
        t.light,
        match parent {
            Some(p) => Some(p.light),
            None => None,
        },
        j,
        "colors.light"@,
        owned_keys,
    );
    lemma_palette_owned(
        t.dark,
        match parent {
            Some(p) => Some(p.dark),
            None => None,
        },
        j,
        "colors.dark"@,
        owned_keys,
    );
    lemma_spacing_owned(
        t.spacing,
        match parent {
            Some(p) => Some(p.spacing),
            None => None,
        },
        j,
        "spacing"@,
        owned_keys,
    );
    lemma_size_scale_owned(
        t.control_size,
        match parent {
            Some(p) => Some(p.control_size),
            None => None,
        },
        j,
        "controlSize"@,
        owned_keys,
    );
    lemma_size_scale_owned(
        t.choice_control_size,
        match parent {
            Some(p) => Some(p.choice_control_size),
            None => None,
        },
        j,
        "choiceControlSize"@,
        owned_keys,
    );
    lemma_size_scale_owned(
        t.switch_size,
        match parent {
            Some(p) => Some(p.switch_size),
            None => None,
        },
        j,
        "switchSize"@,
        owned_keys,
    );
    lemma_size_scale_owned(
        t.icon_size,
        match parent {
            Some(p) => Some(p.icon_size),
            None => None,
        },
        j,
        "iconSize"@,
        owned_keys,
    );
    lemma_border_widths_owned(
        t.border_width,
        match parent {
            Some(p) => Some(p.border_width),
            None => None,
        },
        j,
        "borderWidth"@,
        owned_keys,
    );
    lemma_size_scale_owned(
        t.control_radius,
        match parent {
            Some(p) => Some(p.control_radius),
            None => None,
        },
        j,
        "controlRadius"@,
        owned_keys,
    );
    lemma_size_scale_owned(
        t.control_padding_inline,
        match parent {
            Some(p) => Some(p.control_padding_inline),
            None => None,
        },
        j,
        "controlPaddingInline"@,
        owned_keys,
    );
    lemma_typography_owned(
        t.typography,
        match parent {
            Some(p) => Some(p.typography),
            None => None,
        },
        j,
        "typography"@,
        owned_keys,
    );
    lemma_font_weights_owned(
        t.font_weight,
        match parent {
            Some(p) => Some(p.font_weight),
            None => None,
        },
        j,
        "fontWeight"@,
        owned_keys,
    );
    lemma_radii_owned(
        t.radius,
        match parent {
            Some(p) => Some(p.radius),
            None => None,
        },
        j,
        "radius"@,
        owned_keys,
    );
    let i = choose|i: int| 0 <= i < token_theme_keys().len() && token_theme_keys()[i] == key;
    assert(has_path(j, token_key(token_table()[i].0, token_table()[i].1)));
}

proof fn lemma_palette_unchanged(s: Palette, section: Seq<char>)
    ensures
        s.patch(Some(s), section, Set::empty()) == Map::<Seq<char>, JsonModel>::empty(),
{
    let o = s.patch(Some(s), section, Set::empty());
    assert forall|key: Seq<char>| !(#[trigger] o.dom().contains(key)) by {
        palette_patch_keys(s, Some(s), section, Set::empty(), key);
    }
    assert(o =~= Map::empty());
}

proof fn lemma_spacing_unchanged(s: Spacing, section: Seq<char>)
    ensures
        s.patch(Some(s), section, Set::empty()) == Map::<Seq<char>, JsonModel>::empty(),
{
    scalar::near_itself(s.xs);
    scalar::near_itself(s.sm);
    scalar::near_itself(s.md);
    scalar::near_itself(s.lg);
    scalar::near_itself(s.xl);
    let o = s.patch(Some(s), section, Set::empty());
    assert forall|key: Seq<char>| !(#[trigger] o.dom().contains(key)) by {
        spacing_patch_keys(s, Some(s), section, Set::empty(), key);
    }
    assert(o =~= Map::empty());
}

proof fn lemma_size_scale_unchanged(s: SizeScale, section: Seq<char>)
    ensures
        s.patch(Some(s), section, Set::empty()) == Map::<Seq<char>, JsonModel>::empty(),
{
    scalar::near_itself(s.sm);
    scalar::near_itself(s.md);
    scalar::near_itself(s.lg);
    let o = s.patch(Some(s), section, Set::empty());
    assert forall|key: Seq<char>| !(#[trigger] o.dom().contains(key)) by {
        size_scale_patch_keys(s, Some(s), section, Set::empty(), key);
    }
    assert(o =~= Map::empty());
}

proof fn lemma_border_widths_unchanged(s: BorderWidths, section: Seq<char>)
    ensures
        s.patch(Some(s), section, Set::empty()) == Map::<Seq<char>, JsonModel>::empty(),
{
    scalar::near_itself(s.none);
    scalar::near_itself(s.sm);
    scalar::near_itself(s.focus);
    let o = s.patch(Some(s), section, Set::empty());
    assert forall|key: Seq<char>| !(#[trigger] o.dom().contains(key)) by {
        border_widths_patch_keys(s, Some(s), section, Set::empty(), key);
    }
    assert(o =~= Map::empty());
}

proof fn lemma_typography_unchanged(s: TypographyModel, section: Seq<char>)
    ensures
        s.patch(Some(s), section, Set::empty()) == Map::<Seq<char>, JsonModel>::empty(),
{
    scalar::near_itself(s.size_xs);
    scalar::near_itself(s.size_caption);
    scalar::near_itself(s.size_sm);
    scalar::near_itself(s.size_md);
    scalar::near_itself(s.size_lg);
    scalar::near_itself(s.size_helper);
    let o = s.patch(Some(s), section, Set::empty());
    assert forall|key: Seq<char>| !(#[trigger] o.dom().contains(key)) by {
        typography_patch_keys(s, Some(s), section, Set::empty(), key);
    }
    assert(o =~= Map::empty());
}

proof fn lemma_font_weights_unchanged(s: FontWeights, section: Seq<char>)
    ensures
        s.patch(Some(s), section, Set::empty()) == Map::<Seq<char>, JsonModel>::empty(),
{
    let o = s.patch(Some(s), section, Set::empty());
    assert forall|key: Seq<char>| !(#[trigger] o.dom().contains(key)) by {
        font_weights_patch_keys(s, Some(s), section, Set::empty(), key);
    }
    assert(o =~= Map::empty());
}

proof fn lemma_radii_unchanged(s: RadiiModel, section: Seq<char>)
    ensures
        s.patch(Some(s), section, Set::empty()) == Map::<Seq<char>, JsonModel>::empty(),
{
    scalar::near_itself(s.sm);
    scalar::near_itself(s.md);
    scalar::near_itself(s.lg);
    scalar::near_itself(s.full);
    let o = s.patch(Some(s), section, Set::empty());
    assert forall|key: Seq<char>| !(#[trigger] o.dom().contains(key)) by {
        radii_patch_keys(s, Some(s), section, Set::empty(), key);
    }
    assert(o =~= Map::empty());
}

/// Nothing is written of a theme's tokens where they are the parent's and the theme owns none.
pub proof fn inherited_tokens_are_not_written(t: TokenModel)
    ensures
        t.patch(Some(t), Set::empty()) == Map::<Seq<char>, JsonModel>::empty(),
{
    lemma_palette_unchanged(t.light, "colors.light"@);
    lemma_palette_unchanged(t.dark, "colors.dark"@);
    lemma_spacing_unchanged(t.spacing, "spacing"@);
    lemma_size_scale_unchanged(t.control_size, "controlSize"@);
    lemma_size_scale_unchanged(t.choice_control_size, "choiceControlSize"@);
    lemma_size_scale_unchanged(t.switch_size, "switchSize"@);
    lemma_size_scale_unchanged(t.icon_size, "iconSize"@);
    lemma_border_widths_unchanged(t.border_width, "borderWidth"@);
    lemma_size_scale_unchanged(t.control_radius, "controlRadius"@);
    lemma_size_scale_unchanged(t.control_padding_inline, "controlPaddingInline"@);
    lemma_typography_unchanged(t.typography, "typography"@);
    lemma_font_weights_unchanged(t.font_weight, "fontWeight"@);
    lemma_radii_unchanged(t.radius, "radius"@);
    assert(t.patch(Some(t), Set::empty()) =~= Map::empty());
}

proof fn lemma_unknown_of(keys: Seq<Seq<char>>, prefix: Seq<char>, known: Seq<Seq<char>>, key: Seq<char>)
    requires
        keys.contains(key),
        !known.contains(key),
    ensures
        unknown_of(keys, prefix, known).contains(unknown_key(prefix + key)),
    decreases keys.len(),
{
    let all = unknown_of(keys, prefix, known);
    let before = unknown_of(keys.drop_last(), prefix, known);
    let i = choose|i: int| 0 <= i < keys.len() && keys[i] == key;
    if i == keys.len() - 1 {
        assert(all[all.len() - 1] == unknown_key(prefix + key));
    } else {
        assert(keys.drop_last()[i] == key);
        lemma_unknown_of(keys.drop_last(), prefix, known, key);
        let k = choose|k: int| 0 <= k < before.len() && before[k] == unknown_key(prefix + key);
        assert(all[k] == before[k]);
    }
}

proof fn lemma_all_known(keys: Seq<Seq<char>>, prefix: Seq<char>, known: Seq<Seq<char>>)
    requires
        forall|i: int| 0 <= i < keys.len() ==> known.contains(#[trigger] keys[i]),
    ensures
        unknown_of(keys, prefix, known).len() == 0,
    decreases keys.len(),
{
    if keys.len() > 0 {
        let front = keys.drop_last();
        assert forall|i: int| 0 <= i < front.len() implies known.contains(#[trigger] front[i]) by {
            assert(front[i] == keys[i]);
        }
        assert(keys[keys.len() - 1] == keys.last());
        lemma_all_known(front, prefix, known);
    }
}

/// Of every key of an object that is not known there is a warning, and where all are known there is none.
pub proof fn unknown_keys_are_warned_of(o: ObjectModel, prefix: Seq<char>, known: Seq<Seq<char>>, key: Seq<char>)
    requires
        o.dom().finite(),
    ensures
        o.dom().contains(key) && !known.contains(key) ==> unknown_in(
            Some(JsonModel::Object(o)),
            prefix,
            known,
        ).contains("warning: ignoring unknown token-theme key '"@ + (prefix + key) + "'"@),
        (forall|k: Seq<char>| #[trigger] o.dom().contains(k) ==> known.contains(k)) ==> unknown_in(
            Some(JsonModel::Object(o)),
            prefix,
            known,
        ).len() == 0,
        unknown_in(None, prefix, known).len() == 0,
{
    let keys = textmap::sorted_keys(o);
    textmap::sorted_lists(o.dom());
    if o.dom().contains(key) && !known.contains(key) {
        lemma_unknown_of(keys, prefix, known, key);
    }
    if forall|k: Seq<char>| #[trigger] o.dom().contains(k) ==> known.contains(k) {
        assert forall|i: int| 0 <= i < keys.len() implies known.contains(#[trigger] keys[i]) by {
            assert(keys.contains(keys[i]));
            assert(o.dom().contains(keys[i]));
        }
        lemma_all_known(keys, prefix, known);
    }
}

/// A token file has no key of spacing, sizes, widths or weights that is not written with these.
pub proof fn written_keys_are_known(
    spacing: Spacing,
    scale: SizeScale,
    widths: BorderWidths,
    weights: FontWeights,
    key: Seq<char>,
)
    ensures
        spacing.written().dom().contains(key) ==> section_keys()[3].1.contains(key),
        scale.written().dom().contains(key) ==> section_keys()[4].1.contains(key) && section_keys()[5].1.contains(key)
            && section_keys()[6].1.contains(key) && section_keys()[7].1.contains(key) && section_keys()[9].1.contains(
            key,
        ) && section_keys()[10].1.contains(key),
        widths.written().dom().contains(key) ==> section_keys()[8].1.contains(key),
        weights.written().dom().contains(key) ==> section_keys()[11].1.contains(key),
{
    let a = section_keys()[3].1;
    assert(a[0] == "xs"@ && a[1] == "sm"@ && a[2] == "md"@ && a[3] == "lg"@ && a[4] == "xl"@);
    let b = seq!["sm"@, "md"@, "lg"@];
    assert(b[0] == "sm"@ && b[1] == "md"@ && b[2] == "lg"@);
    assert(section_keys()[4].1 == b && section_keys()[5].1 == b && section_keys()[6].1 == b && section_keys()[7].1 == b
        && section_keys()[9].1 == b && section_keys()[10].1 == b);
    let c = section_keys()[8].1;
    assert(c[0] == "none"@ && c[1] == "sm"@ && c[2] == "focus"@);
    let d = section_keys()[11].1;
    assert(d[0] == "normal"@ && d[1] == "medium"@ && d[2] == "semibold"@ && d[3] == "bold"@);
}

} // verus!
