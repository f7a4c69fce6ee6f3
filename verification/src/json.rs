//! JSON values by what is read and written of them.

use vstd::prelude::*;
use crate::scalar::{self, Scalar};
use crate::text::{self, text_eq, text_less};
use crate::textmap::{self, TextMap};

verus! {

/// A JSON number by what is read of it.
#[derive(Clone, Copy, Debug, PartialEq, Eq, Structural)]
pub struct JsonNumber {
    /// Its value rounded to a single.
    pub single: Scalar,
    /// Its value cut to a 32 bit integer.
    pub int: i32,
    /// Whether its value is a whole number.
    pub integral: bool,
    /// Its value, where it is written as an integer of 64 bits.
    pub long: Option<i64>,
    /// Its value, where it is written as a natural number of 64 bits.
    pub natural: Option<u64>,
}

/// A JSON value. What an array holds is never read.
#[derive(Debug, PartialEq)]
pub enum Json {
    Null,
    Bool(bool),
    Number(JsonNumber),
    String(String),
    Array,
    Object(JsonObject),
}

/// A JSON object: its entries in the order of their keys.
#[derive(Debug, PartialEq)]
pub struct JsonObject {
    entries: Vec<(String, Json)>,
}

/// The model of a JSON value.
#[verifier::ext_equal]
pub enum JsonModel {
    Null,
    Bool(bool),
    Number(JsonNumber),
    Text(Seq<char>),
    Array,
    Object(Map<Seq<char>, JsonModel>),
}

/// The model of a JSON object.
pub type ObjectModel = Map<Seq<char>, JsonModel>;

impl Json {
    /// What a JSON value stands for.
    pub open spec fn model(self) -> JsonModel
        decreases self,
    {
        match self {
            Json::Null => JsonModel::Null,
            Json::Bool(b) => JsonModel::Bool(b),
            Json::Number(n) => JsonModel::Number(n),
            Json::String(s) => JsonModel::Text(s@),
            Json::Array => JsonModel::Array,
            Json::Object(o) => JsonModel::Object(o.model()),
        }
    }
}

impl JsonObject {
    /// What a JSON object stands for.
    pub closed spec fn model(self) -> ObjectModel
        decreases self,
    {
        entries_model(self.entries@)
    }
}

spec fn entries_model(e: Seq<(String, Json)>) -> ObjectModel
    decreases e,
{
    if e.len() == 0 {
        Map::empty()
    } else {
        entries_model(e.drop_last()).insert(e.last().0@, e.last().1.model())
    }
}

impl View for Json {
    type V = JsonModel;

    open spec fn view(&self) -> JsonModel {
        self.model()
    }
}

impl View for JsonObject {
    type V = ObjectModel;

    open spec fn view(&self) -> ObjectModel {
        self.model()
    }
}

spec fn entry_keys(e: Seq<(String, Json)>) -> Seq<Seq<char>> {
    Seq::new(e.len(), |i: int| e[i].0@)
}

impl JsonObject {
    #[verifier::type_invariant]
    spec fn ordered(self) -> bool {
        textmap::ascending(entry_keys(self.entries@))
    }
}

proof fn lemma_entries_at(e: Seq<(String, Json)>, i: int)
    requires
        textmap::ascending(entry_keys(e)),
        0 <= i < e.len(),
    ensures
        entries_model(e).dom().contains(e[i].0@),
        entries_model(e)[e[i].0@] == e[i].1.model(),
    decreases e.len(),
{
    let keys = entry_keys(e);
    let front = e.drop_last();
    assert(textmap::ascending(entry_keys(front))) by {
        assert forall|a: int, b: int| 0 <= a < b < front.len() implies text::text_lt(
            #[trigger] entry_keys(front)[a],
            #[trigger] entry_keys(front)[b],
        ) by {
            assert(text::text_lt(keys[a], keys[b]));
        }
    }
    if i < e.len() - 1 {
        lemma_entries_at(front, i);
        assert(front[i] == e[i]);
        assert(text::text_lt(keys[i], keys[e.len() - 1]));
        text::text_lt_irreflexive(keys[i]);
    }
}

proof fn lemma_entries_dom(e: Seq<(String, Json)>, k: Seq<char>) -> (i: int)
    requires
        entries_model(e).dom().contains(k),
    ensures
        0 <= i < e.len(),
        e[i].0@ == k,
    decreases e.len(),
{
    if e.last().0@ == k {
        e.len() - 1
    } else {
        let i = lemma_entries_dom(e.drop_last(), k);
        assert(e.drop_last()[i] == e[i]);
        i
    }
}

proof fn lemma_entries_list(e: Seq<(String, Json)>)
    requires
        textmap::ascending(entry_keys(e)),
    ensures
        textmap::lists(entry_keys(e), entries_model(e).dom()),
        textmap::sorted_keys(entries_model(e)) == entry_keys(e),
{
    let keys = entry_keys(e);
    let m = entries_model(e);
    assert forall|k: Seq<char>| #[trigger] m.dom().contains(k) <==> keys.contains(k) by {
        if m.dom().contains(k) {
            let i = lemma_entries_dom(e, k);
            assert(keys[i] == k);
        }
        if keys.contains(k) {
            let i = choose|i: int| 0 <= i < keys.len() && keys[i] == k;
            lemma_entries_at(e, i);
        }
    }
    textmap::sorted_is(keys, m.dom());
}

fn locate_entry(e: &Vec<(String, Json)>, key: &str) -> (r: (bool, usize))
    requires
        textmap::ascending(entry_keys(e@)),
    ensures
        r.1 <= e@.len(),
        r.0 ==> r.1 < e@.len() && e@[r.1 as int].0@ == key@,
        !r.0 ==> !entries_model(e@).dom().contains(key@),
        forall|i: int| 0 <= i < r.1 ==> text::text_lt(#[trigger] entry_keys(e@)[i], key@),
        !r.0 ==> forall|i: int| r.1 <= i < e@.len() ==> text::text_lt(key@, #[trigger] entry_keys(e@)[i]),
{
    let ghost keys = entry_keys(e@);
    let mut i: usize = 0;
    while i < e.len() && text_less(e[i].0.as_str(), key)
        invariant
            i <= e@.len(),
            keys == entry_keys(e@),
            forall|j: int| 0 <= j < i ==> text::text_lt(#[trigger] keys[j], key@),
        decreases e@.len() - i,
    {
        i = i + 1;
    }
    let found = i < e.len() && text_eq(e[i].0.as_str(), key);
    proof {
        text::text_lt_irreflexive(key@);
        if !found {
            assert forall|j: int| i <= j < e@.len() implies text::text_lt(key@, #[trigger] keys[j]) by {
                text::text_lt_total(keys[i as int], key@);
                if j > i {
                    assert(text::text_lt(keys[i as int], keys[j]));
                    text::text_lt_transitive(key@, keys[i as int], keys[j]);
                }
            }
            if entries_model(e@).dom().contains(key@) {
                let j = lemma_entries_dom(e@, key@);
                assert(keys[j] == key@);
            }
        }
    }
    (found, i)
}

proof fn lemma_entry_set(e: Seq<(String, Json)>, at: int, v: Json)
    requires
        textmap::ascending(entry_keys(e)),
        0 <= at < e.len(),
    ensures
        textmap::ascending(entry_keys(e.update(at, (e[at].0, v)))),
        entries_model(e.update(at, (e[at].0, v))) == entries_model(e).insert(e[at].0@, v.model()),
{
    let f = e.update(at, (e[at].0, v));
    assert(entry_keys(f) =~= entry_keys(e));
    lemma_same_models(e, f, at, e[at].0@, v);
}

proof fn lemma_entry_insert(e: Seq<(String, Json)>, at: int, key: String, v: Json)
    requires
        textmap::ascending(entry_keys(e)),
        0 <= at <= e.len(),
        forall|i: int| 0 <= i < at ==> text::text_lt(#[trigger] entry_keys(e)[i], key@),
        forall|i: int| at <= i < e.len() ==> text::text_lt(key@, #[trigger] entry_keys(e)[i]),
    ensures
        textmap::ascending(entry_keys(e.insert(at, (key, v)))),
        entries_model(e.insert(at, (key, v))) == entries_model(e).insert(key@, v.model()),
{
    let f = e.insert(at, (key, v));
    let old_keys = entry_keys(e);
    let keys = entry_keys(f);
    assert forall|i: int, j: int| 0 <= i < j < keys.len() implies text::text_lt(
        #[trigger] keys[i],
        #[trigger] keys[j],
    ) by {
        let oi = if i < at { i } else { i - 1 };
        let oj = if j < at { j } else { j - 1 };
        if i != at && j != at {
            assert(keys[i] == old_keys[oi] && keys[j] == old_keys[oj]);
            assert(text::text_lt(old_keys[oi], old_keys[oj]));
        } else if i == at {
            assert(keys[j] == old_keys[oj]);
        } else {
            assert(keys[i] == old_keys[oi]);
        }
    }
    lemma_same_models(e, f, at, key@, v);
}

proof fn lemma_same_models(
    e: Seq<(String, Json)>,
    f: Seq<(String, Json)>,
    at: int,
    key: Seq<char>,
    v: Json,
)
    requires
        textmap::ascending(entry_keys(e)),
        textmap::ascending(entry_keys(f)),
        0 <= at < f.len(),
        f[at].0@ == key,
        f[at].1 == v,
        (f.len() == e.len() && f == e.update(at, f[at]) && e[at].0@ == key) || (at <= e.len() && f
            == e.insert(at, f[at])),
    ensures
        entries_model(f) == entries_model(e).insert(key, v.model()),
{
    let m0 = entries_model(e);
    let m1 = entries_model(f);
    let goal = m0.insert(key, v.model());
    lemma_entries_at(f, at);
    assert forall|k: Seq<char>|
        #![trigger m1.dom().contains(k)]
        #![trigger m1[k]]
        m1.dom().contains(k) == goal.dom().contains(k) && (m1.dom().contains(k) ==> m1[k] == goal[k]) by {
        if m0.dom().contains(k) {
            let i = lemma_entries_dom(e, k);
            lemma_entries_at(e, i);
            let n = if f.len() == e.len() || i < at { i } else { i + 1 };
            if n != at {
                assert(f[n] == e[i]);
                lemma_entries_at(f, n);
            }
        }
        if m1.dom().contains(k) {
            let i = lemma_entries_dom(f, k);
            lemma_entries_at(f, i);
            if i != at {
                let o = if f.len() == e.len() || i < at { i } else { i - 1 };
                assert(e[o] == f[i]);
                lemma_entries_at(e, o);
            }
        }
    }
    assert(m1 =~= goal);
}

impl JsonObject {
    /// The empty object.
    pub fn new() -> (r: Self)
        ensures
            r@ == Map::<Seq<char>, JsonModel>::empty(),
    {
        JsonObject { entries: Vec::new() }
    }

    /// How many keys the object has.
    pub fn len(&self) -> (n: usize)
        ensures
            textmap::lists(textmap::sorted_keys(self@), self@.dom()),
            n == textmap::sorted_keys(self@).len(),
    {
        proof {
            use_type_invariant(self);
            lemma_entries_list(self.entries@);
        }
        self.entries.len()
    }

    /// Whether the object has no key.
    pub fn is_empty(&self) -> (r: bool)
        ensures
            r == (self@ == Map::<Seq<char>, JsonModel>::empty()),
            r == (self@.dom() == Set::<Seq<char>>::empty()),
    {
        proof {
            use_type_invariant(self);
            if self.entries@.len() > 0 {
                lemma_entries_at(self.entries@, 0);
                assert(self@.dom().contains(self.entries@[0].0@));
            }
        }
        self.entries.len() == 0
    }

    /// The key at a position of the ascending order.
    pub fn key_at(&self, i: usize) -> (k: &String)
        requires
            i < textmap::sorted_keys(self@).len(),
        ensures
            k@ == textmap::sorted_keys(self@)[i as int],
            self@.dom().contains(k@),
    {
        proof {
            use_type_invariant(self);
            lemma_entries_list(self.entries@);
            lemma_entries_at(self.entries@, i as int);
        }
        &self.entries[i].0
    }

    /// The value at a position of the ascending order of the keys.
    pub fn value_at(&self, i: usize) -> (v: &Json)
        requires
            i < textmap::sorted_keys(self@).len(),
        ensures
            v@ == self@[textmap::sorted_keys(self@)[i as int]],
            self@.dom().contains(textmap::sorted_keys(self@)[i as int]),
    {
        proof {
            use_type_invariant(self);
            lemma_entries_list(self.entries@);
            lemma_entries_at(self.entries@, i as int);
        }
        &self.entries[i].1
    }

    /// The keys, in ascending order.
    pub fn keys(&self) -> (r: Vec<String>)
        ensures
            textmap::lists(textmap::sorted_keys(self@), self@.dom()),
            textmap::views(r@) == textmap::sorted_keys(self@),
    {
        proof {
            use_type_invariant(self);
            lemma_entries_list(self.entries@);
        }
        let mut out: Vec<String> = Vec::new();
        for i in 0..self.entries.len()
            invariant
                out@.len() == i,
                forall|k: int| 0 <= k < i ==> (#[trigger] out@[k])@ == self.entries@[k].0@,
        {
            out.push(self.entries[i].0.clone());
        }
        assert(textmap::views(out@) =~= entry_keys(self.entries@));
        out
    }

    /// The value of a key.
    pub fn get(&self, key: &str) -> (r: Option<&Json>)
        ensures
            match r {
                Some(v) => self@.dom().contains(key@) && v@ == self@[key@],
                None => !self@.dom().contains(key@),
            },
    {
        proof {
            use_type_invariant(self);
        }
        let (found, at) = locate_entry(&self.entries, key);
        if found {
            proof {
                lemma_entries_at(self.entries@, at as int);
            }
            Some(&self.entries[at].1)
        } else {
            None
        }
    }

    /// Gives a key a value, in place of the one it may have had.
    pub fn insert(&mut self, key: String, value: Json)
        ensures
            final(self)@ == old(self)@.insert(key@, value@),
    {
        let mut whole = JsonObject { entries: Vec::new() };
        std::mem::swap(self, &mut whole);
        proof {
            use_type_invariant(&whole);
        }
        let JsonObject { mut entries } = whole;
        let (found, at) = locate_entry(&entries, key.as_str());
        if found {
            proof {
                lemma_entry_set(entries@, at as int, value);
            }
            let ghost before = entries@;
            let ghost v = value;
            let (k, _) = entries.remove(at);
            entries.insert(at, (k, value));
            assert(entries@ =~= before.update(at as int, (before[at as int].0, v)));
        } else {
            proof {
                lemma_entry_insert(entries@, at as int, key, value);
            }
            entries.insert(at, (key, value));
        }
        *self = JsonObject { entries };
    }
}

/// The value of a key of a JSON value: `None` where it is no object or has no such key.
pub open spec fn at(j: JsonModel, key: Seq<char>) -> Option<JsonModel> {
    match j {
        JsonModel::Object(o) => if o.dom().contains(key) {
            Some(o[key])
        } else {
            None
        },
        _ => None,
    }
}

/// The text of a JSON value, where it is one.
pub open spec fn text_of(j: Option<JsonModel>) -> Option<Seq<char>> {
    match j {
        Some(JsonModel::Text(s)) => Some(s),
        _ => None,
    }
}

/// The number of a JSON value, where it is one.
pub open spec fn number_of(j: Option<JsonModel>) -> Option<JsonNumber> {
    match j {
        Some(JsonModel::Number(n)) => Some(n),
        _ => None,
    }
}

/// The object of a JSON value, where it is one.
pub open spec fn object_of(j: Option<JsonModel>) -> Option<ObjectModel> {
    match j {
        Some(JsonModel::Object(o)) => Some(o),
        _ => None,
    }
}

/// What an optional JSON value stands for.
pub open spec fn json_view(j: Option<&Json>) -> Option<JsonModel> {
    match j {
        Some(v) => Some(v@),
        None => None,
    }
}

impl Json {
    /// The value of a key: `None` where the value is no object or has no such key.
    pub fn get(&self, key: &str) -> (r: Option<&Json>)
        ensures
            json_view(r) == at(self@, key@),
    {
        match self {
            Json::Object(o) => o.get(key),
            _ => None,
        }
    }

    /// The text, where the value is one.
    pub fn as_str(&self) -> (r: Option<&str>)
        ensures
            (match r {
                Some(s) => Some(s@),
                None => None,
            }) == text_of(Some(self@)),
    {
        match self {
            Json::String(s) => Some(s.as_str()),
            _ => None,
        }
    }

    /// The number, where the value is one.
    pub fn as_number(&self) -> (r: Option<JsonNumber>)
        ensures
            r == number_of(Some(self@)),
    {
        match self {
            Json::Number(n) => Some(*n),
            _ => None,
        }
    }

    /// The object, where the value is one.
    pub fn as_object(&self) -> (r: Option<&JsonObject>)
        ensures
            (match r {
                Some(o) => Some(o@),
                None => None,
            }) == object_of(Some(self@)),
    {
        match self {
            Json::Object(o) => Some(o),
            _ => None,
        }
    }
}

/// The object as a value, where it has keys.
pub open spec fn filled(o: ObjectModel) -> Option<JsonModel> {
    if o.dom() == Set::<Seq<char>>::empty() {
        None
    } else {
        Some(JsonModel::Object(o))
    }
}

/// The object as a value, where it has keys.
pub fn fill(o: JsonObject) -> (r: Option<Json>)
    ensures
        owned_view(r) == filled(o@),
{
    if o.is_empty() {
        None
    } else {
        Some(Json::Object(o))
    }
}

/// What an optional JSON value stands for.
pub open spec fn owned_view(j: Option<Json>) -> Option<JsonModel> {
    match j {
        Some(v) => Some(v@),
        None => None,
    }
}

/// The object with what is made of the entries of a map: an entry of which nothing is made has no
/// key.
pub open spec fn chosen<T>(m: Map<Seq<char>, T>, g: spec_fn(Seq<char>, T) -> Option<JsonModel>) -> ObjectModel {
    Map::new(
        |k: Seq<char>| m.dom().contains(k) && g(k, m[k]) is Some,
        |k: Seq<char>| g(k, m[k])->Some_0,
    )
}

/// A key is there where something is made of its entry.
pub proof fn chosen_key<T>(
    m: Map<Seq<char>, T>,
    g: spec_fn(Seq<char>, T) -> Option<JsonModel>,
    k: Seq<char>,
)
    ensures
        chosen(m, g).dom().contains(k) <==> m.dom().contains(k) && g(k, m[k]) is Some,
        chosen(m, g).dom().contains(k) ==> chosen(m, g)[k] == g(k, m[k])->Some_0,
{
}

impl JsonObject {
    /// The object with what is made of the entries of a map.
    pub fn from_map<V: View, F: Fn(&String, &V) -> Option<Json>>(
        m: &TextMap<V>,
        f: F,
        Ghost(g): Ghost<spec_fn(Seq<char>, V::V) -> Option<JsonModel>>,
    ) -> (r: JsonObject)
        requires
            forall|k: &String, v: &V| f.requires((k, v)),
            forall|k: &String, v: &V, j: Option<Json>| #[trigger]
                f.ensures((k, v), j) ==> owned_view(j) == g(k@, v@),
        ensures
            r@ == chosen(m@, g),
    {
        let mut out = JsonObject::new();
        let n: usize = m.len();
        let ghost names = textmap::sorted_keys(m@);
        for i in 0..n
            invariant
                names == textmap::sorted_keys(m@),
                n == names.len(),
                textmap::lists(names, m@.dom()),
                forall|k: &String, v: &V| f.requires((k, v)),
                forall|k: &String, v: &V, j: Option<Json>| #[trigger]
                    f.ensures((k, v), j) ==> owned_view(j) == g(k@, v@),
                forall|k: Seq<char>| #[trigger]
                    out@.dom().contains(k) <==> names.take(i as int).contains(k) && g(k, m@[k]) is Some,
                forall|k: Seq<char>| #[trigger]
                    out@.dom().contains(k) ==> out@[k] == g(k, m@[k])->Some_0,
        {
            proof {
                textmap::take_step(names, i as int);
            }
            let key = m.key_at(i);
            let made = f(key, m.value_at(i));
            if let Some(v) = made {
                out.insert(key.clone(), v);
            }
        }
        proof {
            assert(names.take(n as int) =~= names);
            assert(out@ =~= chosen(m@, g));
        }
        out
    }
}

/// The JSON value of a float: what is no number is written as null.
pub open spec fn float_json(s: Scalar) -> JsonModel {
    if s.finite() {
        JsonModel::Number(
            JsonNumber {
                single: s,
                int: scalar::truncated(s) as i32,
                integral: scalar::integral(s),
                long: None,
                natural: None,
            },
        )
    } else {
        JsonModel::Null
    }
}

/// The JSON value of a float.
pub fn json_float(s: Scalar) -> (r: Json)
    ensures
        r@ == float_json(s),
{
    if (s.bits / 0x80_0000) % 256 == 255 {
        Json::Null
    } else {
        Json::Number(
            JsonNumber {
                single: s,
                int: s.to_int(),
                integral: s.is_integral(),
                long: None,
                natural: None,
            },
        )
    }
}

/// The JSON value of an integer.
pub open spec fn int_json(n: i32) -> JsonModel {
    JsonModel::Number(
        JsonNumber {
            single: scalar::int_scalar(n as int),
            int: n,
            integral: true,
            long: Some(n as i64),
            natural: if n >= 0 {
                Some(n as u64)
            } else {
                None
            },
        },
    )
}

/// The JSON value of an integer.
pub fn json_int(n: i32) -> (r: Json)
    ensures
        r@ == int_json(n),
{
    Json::Number(
        JsonNumber {
            single: Scalar::from_int(n),
            int: n,
            integral: true,
            long: Some(n as i64),
            natural: if n >= 0 {
                Some(n as u64)
            } else {
                None
            },
        },
    )
}

} // verus!
