//! JSON values in texts.

use serde_json::Value as OutsideValue;
use vstd::prelude::*;
use crate::decimal::{self, exact_text};
use crate::double::{self, Double};
use crate::json::{Json, JsonModel, JsonNumber, JsonObject, ObjectModel};
use crate::style;
use crate::text::owned;
use crate::textmap;

verus! {

// ---------------------------------------------------------------------------------------------
// Reading
// ---------------------------------------------------------------------------------------------
/// A JSON value as it comes out of a text: numbers as doubles, the entries of an object one after
/// the other.
#[derive(Debug)]
pub enum ParsedJson {
    Null,
    Bool(bool),
    Number(ParsedNumber),
    String(String),
    Array,
    Object(Vec<(String, ParsedJson)>),
}

/// A JSON number as it comes out of a text.
#[derive(Clone, Copy, Debug)]
pub struct ParsedNumber {
    /// The pattern of the double that the number is read as.
    pub double: Option<u64>,
    /// Its value, where it is written as an integer of 64 bits.
    pub long: Option<i64>,
    /// Its value, where it is written as a natural number of 64 bits.
    pub natural: Option<u64>,
}

/// What a number that comes out of a text stands for. One that is no double stands for nothing.
pub open spec fn number_model(n: ParsedNumber) -> JsonModel {
    match n.double {
        Some(bits) => JsonModel::Number(
            JsonNumber {
                single: double::narrowed(Double { bits }),
                int: double::cut(Double { bits }) as i32,
                integral: double::integral(Double { bits }),
                long: n.long,
                natural: n.natural,
            },
        ),
        None => JsonModel::Null,
    }
}

impl ParsedJson {
    /// What a value that comes out of a text stands for.
    pub open spec fn model(self) -> JsonModel
        decreases self,
    {
        match self {
            ParsedJson::Null => JsonModel::Null,
            ParsedJson::Bool(b) => JsonModel::Bool(b),
            ParsedJson::Number(n) => number_model(n),
            ParsedJson::String(s) => JsonModel::Text(s@),
            ParsedJson::Array => JsonModel::Array,
            ParsedJson::Object(entries) => JsonModel::Object(parsed_entries(entries@)),
        }
    }
}

/// What entries that come out of a text stand for. Of two with one key the later one counts.
pub open spec fn parsed_entries(e: Seq<(String, ParsedJson)>) -> ObjectModel
    decreases e,
{
    if e.len() == 0 {
        Map::empty()
    } else {
        parsed_entries(e.drop_last()).insert(e.last().0@, e.last().1.model())
    }
}

impl View for ParsedJson {
    type V = JsonModel;

    open spec fn view(&self) -> JsonModel {
        self.model()
    }
}

/// A value of `serde_json`.
#[verifier::external_type_specification]
#[verifier::external_body]
pub struct JsonValue(OutsideValue);

/// What `serde_json::from_str` reads from a text as a `serde_json::Value`, or the text of its error.
pub uninterp spec fn parsed_json(text: Seq<char>) -> Result<JsonModel, Seq<char>>;

/// The models of what was read from a text.
pub open spec fn read_view<T: View<V = JsonModel>>(r: Result<T, String>) -> Result<JsonModel, Seq<char>> {
    match r {
        Ok(v) => Ok(v@),
        Err(e) => Err(e@),
    }
}

/// Turns a `serde_json::Value` into plain values, variant by variant: a number into the pattern of
/// `as_f64` and into `as_i64` and `as_u64`, an object into its entries. Nothing reads what an array
/// holds. Nothing is claimed of the result here: `parse_text` names it.
#[verifier::external_body]
fn plain(value: OutsideValue) -> (r: ParsedJson) {
    match value {
        OutsideValue::Null => ParsedJson::Null,
        OutsideValue::Bool(b) => ParsedJson::Bool(b),
        OutsideValue::Number(n) => ParsedJson::Number(
            ParsedNumber { double: n.as_f64().map(|d| d.to_bits()), long: n.as_i64(), natural: n.as_u64() },
        ),
        OutsideValue::String(s) => ParsedJson::String(s),
        OutsideValue::Array(_) => ParsedJson::Array,
        OutsideValue::Object(m) => ParsedJson::Object(m.into_iter().map(|(k, v)| (k, plain(v))).collect()),
    }
}

/// Calls `serde_json::from_str` for a `serde_json::Value`, and turns that value, or the error into its
/// text. Both depend on the text alone.
#[verifier::external_body]
fn parse_text(text: &str) -> (r: Result<ParsedJson, String>)
    ensures
        read_view(r) == parsed_json(text@),
{
    match serde_json::from_str::<OutsideValue>(text) {
        Ok(value) => Ok(plain(value)),
        Err(e) => Err(e.to_string()),
    }
}

impl ParsedJson {
    /// The value with its numbers rounded and its entries in the order of their keys.
    pub fn to_json(&self) -> (r: Json)
        ensures
            r@ == self@,
        decreases self,
    {
        match self {
            ParsedJson::Null => Json::Null,
            ParsedJson::Bool(b) => Json::Bool(*b),
            ParsedJson::Number(n) => match n.double {
                Some(bits) => {
                    let d = Double { bits };
                    Json::Number(
                        JsonNumber {
                            single: d.to_single(),
                            int: d.to_int(),
                            integral: d.is_integral(),
                            long: n.long,
                            natural: n.natural,
                        },
                    )
                },
                None => Json::Null,
            },
            ParsedJson::String(s) => Json::String(owned(s.as_str())),
            ParsedJson::Array => Json::Array,
            ParsedJson::Object(entries) => {
                let mut out = JsonObject::new();
                for i in 0..entries.len()
                    invariant
                        *self == ParsedJson::Object(*entries),
                        out@ == parsed_entries(entries@.take(i as int)),
                {
                    proof {
                        let held = self->Object_0;
                        assert(decreases_to!(self => self->Object_0));
                        assert(decreases_to!(held => held@));
                        assert(decreases_to!(held@ => held@[i as int]));
                        assert(decreases_to!(held@[i as int] => held@[i as int].1));
                    }
                    let v = entries[i].1.to_json();
                    out.insert(entries[i].0.clone(), v);
                    proof {
                        assert(entries@.take(i + 1).drop_last() =~= entries@.take(i as int));
                        assert(entries@.take(i + 1).last() == entries@[i as int]);
                    }
                }
                assert(entries@.take(entries@.len() as int) =~= entries@);
                Json::Object(out)
            },
        }
    }
}

/// Reads a JSON value from a text. The error is that of the parser.
pub fn json_from_text(text: &str) -> (r: Result<Json, String>)
    ensures
        read_view(r) == parsed_json(text@),
{
    match parse_text(text) {
        Ok(value) => Ok(value.to_json()),
        Err(e) => Err(e),
    }
}

// ---------------------------------------------------------------------------------------------
// Writing
// ---------------------------------------------------------------------------------------------
/// A JSON value as it goes into a text.
#[derive(Debug)]
pub enum WrittenJson {
    Null,
    Bool(bool),
    Number(JsonNumber, WrittenNumber),
    String(String),
    Array,
    Object(Vec<(String, WrittenJson)>),
}

/// A JSON number as it goes into a text: as an integer where it is one, else as a decimal text of its
/// exact value.
#[derive(Debug)]
pub enum WrittenNumber {
    Natural(u64),
    Long(i64),
    Decimal(String),
}

/// Whether a number goes into a text as it should.
pub open spec fn written_right(n: JsonNumber, w: WrittenNumber) -> bool {
    match (n.natural, n.long) {
        (Some(natural), _) => w == WrittenNumber::Natural(natural),
        (None, Some(long)) => w == WrittenNumber::Long(long),
        (None, None) => w matches WrittenNumber::Decimal(t) && t@ == decimal::exact_decimal(n.single),
    }
}

impl WrittenJson {
    /// What a value that goes into a text stands for.
    pub open spec fn model(self) -> JsonModel
        decreases self,
    {
        match self {
            WrittenJson::Null => JsonModel::Null,
            WrittenJson::Bool(b) => JsonModel::Bool(b),
            WrittenJson::Number(n, _) => JsonModel::Number(n),
            WrittenJson::String(s) => JsonModel::Text(s@),
            WrittenJson::Array => JsonModel::Array,
            WrittenJson::Object(entries) => JsonModel::Object(written_entries(entries@)),
        }
    }

    /// Whether every number in the value goes into the text as it should.
    pub open spec fn right(self) -> bool
        decreases self,
    {
        match self {
            WrittenJson::Number(n, w) => written_right(n, w),
            WrittenJson::Object(entries) => entries_right(entries@),
            _ => true,
        }
    }
}

/// What entries that go into a text stand for.
pub open spec fn written_entries(e: Seq<(String, WrittenJson)>) -> ObjectModel
    decreases e,
{
    if e.len() == 0 {
        Map::empty()
    } else {
        written_entries(e.drop_last()).insert(e.last().0@, e.last().1.model())
    }
}

/// Whether every number in some entries goes into the text as it should.
pub open spec fn entries_right(e: Seq<(String, WrittenJson)>) -> bool
    decreases e,
{
    if e.len() == 0 {
        true
    } else {
        entries_right(e.drop_last()) && e.last().1.right()
    }
}

impl View for WrittenJson {
    type V = JsonModel;

    open spec fn view(&self) -> JsonModel {
        self.model()
    }
}

/// The text that `serde_json::to_string_pretty` writes of a value.
pub uninterp spec fn printed_json(value: JsonModel) -> Option<Seq<char>>;

/// Turns plain values into a `serde_json::Value`, variant by variant: a decimal text into the float
/// that it is read as, through `serde_json::Number::from_f64`, and into null where it is no number.
/// Nothing is claimed of the result here: `print_text` names it.
#[verifier::external_body]
fn outside(value: &WrittenJson) -> (r: OutsideValue) {
    match value {
        WrittenJson::Null => OutsideValue::Null,
        WrittenJson::Bool(b) => OutsideValue::Bool(*b),
        WrittenJson::Number(_, WrittenNumber::Natural(n)) => OutsideValue::from(*n),
        WrittenJson::Number(_, WrittenNumber::Long(n)) => OutsideValue::from(*n),
        WrittenJson::Number(_, WrittenNumber::Decimal(t)) => OutsideValue::from(
            t.parse().ok().and_then(serde_json::Number::from_f64),
        ),
        WrittenJson::String(s) => OutsideValue::String(s.clone()),
        WrittenJson::Array => OutsideValue::Array(Vec::new()),
        WrittenJson::Object(e) => e.iter().map(|(k, v)| (k.clone(), outside(v))).collect(),
    }
}

/// Calls `serde_json::to_string_pretty` on a `serde_json::Value`. The text depends on the value alone.
#[verifier::external_body]
fn print_text(value: &WrittenJson) -> (r: Option<String>)
    requires
        value.right(),
    ensures
        style::text_view(r) == printed_json(value@),
{
    serde_json::to_string_pretty(&outside(value)).ok()
}

fn written_number(n: JsonNumber) -> (r: WrittenNumber)
    ensures
        written_right(n, r),
{
    match (n.natural, n.long) {
        (Some(natural), _) => WrittenNumber::Natural(natural),
        (None, Some(long)) => WrittenNumber::Long(long),
        (None, None) => WrittenNumber::Decimal(exact_text(n.single)),
    }
}

fn written(value: &Json) -> (r: WrittenJson)
    ensures
        r@ == value@,
        r.right(),
    decreases value@,
{
    match value {
        Json::Null => WrittenJson::Null,
        Json::Bool(b) => WrittenJson::Bool(*b),
        Json::Number(n) => WrittenJson::Number(*n, written_number(*n)),
        Json::String(s) => WrittenJson::String(owned(s.as_str())),
        Json::Array => WrittenJson::Array,
        Json::Object(o) => {
            let n: usize = o.len();
            let ghost keys = textmap::sorted_keys(o@);
            let mut out: Vec<(String, WrittenJson)> = Vec::new();
            proof {
                vstd::seq_lib::seq_to_set_is_finite(keys);
                assert(o@.dom() =~= keys.to_set());
                assert(keys.take(0) =~= Seq::<Seq<char>>::empty());
                assert(written_entries(out@) =~= Map::<Seq<char>, JsonModel>::empty());
            }
            for i in 0..n
                invariant
                    *value == Json::Object(*o),
                    keys == textmap::sorted_keys(o@),
                    n == keys.len(),
                    textmap::lists(keys, o@.dom()),
                    o@.dom().finite(),
                    entries_right(out@),
                    forall|k: Seq<char>| #[trigger]
                        written_entries(out@).dom().contains(k) <==> keys.take(i as int).contains(k),
                    forall|k: Seq<char>| #[trigger]
                        written_entries(out@).dom().contains(k) ==> written_entries(out@)[k] == o@[k],
            {
                let entry = o.value_at(i);
                proof {
                    textmap::take_step(keys, i as int);
                    assert(value@ == JsonModel::Object(o@));
                    assert(decreases_to!(value@ => value@->Object_0));
                    assert(decreases_to!(o@ => o@[keys[i as int]]));
                }
                let ghost before = out@;
                let made = written(entry);
                out.push((o.key_at(i).clone(), made));
                proof {
                    assert(out@.drop_last() =~= before);
                    assert(out@.last().0@ == keys[i as int]);
                    assert(out@.last().1.model() == o@[keys[i as int]]);
                    assert(written_entries(out@) == written_entries(before).insert(
                        keys[i as int],
                        o@[keys[i as int]],
                    ));
                }
            }
            proof {
                assert(keys.take(n as int) =~= keys);
                assert(written_entries(out@) =~= o@);
            }
            WrittenJson::Object(out)
        },
    }
}

/// Writes a JSON value to a text.
pub fn json_to_text(value: &Json) -> (r: Option<String>)
    ensures
        style::text_view(r) == printed_json(value@),
{
    print_text(&written(value))
}

} // verus!
