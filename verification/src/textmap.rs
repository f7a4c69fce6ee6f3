//! Maps and sets keyed by text, kept in the order of their keys.

use vstd::prelude::*;
use crate::text::{self, owned, text_eq, text_less};

verus! {

/// A value that can be copied without changing what it stands for.
pub trait Duplicate: View + Sized {
    /// A second value with the same view.
    fn duplicate(&self) -> (r: Self)
        ensures
            r@ == self@,
    ;
}

impl Duplicate for String {
    fn duplicate(&self) -> (r: Self) {
        self.clone()
    }
}

/// Whether a text is one of a list.
pub fn one_of(s: &str, list: &Vec<&str>) -> (r: bool)
    ensures
        r == views(list@).contains(s@),
{
    for i in 0..list.len()
        invariant
            forall|j: int| 0 <= j < i ==> (#[trigger] list@[j])@ != s@,
    {
        if text_eq(list[i], s) {
            assert(views(list@)[i as int] == s@);
            return true;
        }
    }
    false
}

/// The views of a sequence of values.
pub open spec fn views<T: View>(s: Seq<T>) -> Seq<T::V> {
    Seq::new(s.len(), |i: int| s[i]@)
}

/// A copy of a vector, element by element.
pub fn duplicate_all<T: Duplicate>(v: &Vec<T>) -> (r: Vec<T>)
    ensures
        views(r@) == views(v@),
        r@.len() == v@.len(),
{
    let mut out: Vec<T> = Vec::new();
    for i in 0..v.len()
        invariant
            out@.len() == i,
            forall|j: int| 0 <= j < i ==> (#[trigger] out@[j])@ == v@[j]@,
    {
        out.push(v[i].duplicate());
    }
    assert(views(out@) =~= views(v@));
    out
}

/// Every text comes before those that follow it.
pub open spec fn ascending(keys: Seq<Seq<char>>) -> bool {
    forall|i: int, j: int| 0 <= i < j < keys.len() ==> text::text_lt(#[trigger] keys[i], #[trigger] keys[j])
}

/// `keys` lists the members of `dom` in ascending order, each once.
pub open spec fn lists(keys: Seq<Seq<char>>, dom: Set<Seq<char>>) -> bool {
    &&& ascending(keys)
    &&& forall|k: Seq<char>| #[trigger] dom.contains(k) <==> keys.contains(k)
}

/// The members of a finite set of texts, in ascending order.
pub open spec fn sorted(dom: Set<Seq<char>>) -> Seq<Seq<char>> {
    choose|keys: Seq<Seq<char>>| lists(keys, dom)
}

/// The keys of a map, in ascending order.
pub open spec fn sorted_keys<T>(m: Map<Seq<char>, T>) -> Seq<Seq<char>> {
    sorted(m.dom())
}

/// There is one ascending listing of a set.
pub proof fn lists_unique(a: Seq<Seq<char>>, b: Seq<Seq<char>>, dom: Set<Seq<char>>)
    requires
        lists(a, dom),
        lists(b, dom),
    ensures
        a == b,
    decreases a.len(),
{
    if a.len() == 0 {
        if b.len() > 0 {
            assert(b.contains(b[0]));
            assert(dom.contains(b[0]));
            assert(a.contains(b[0]));
        }
        assert(a =~= b);
    } else {
        assert(a.contains(a.last()));
        assert(dom.contains(a.last()));
        assert(b.contains(a.last()));
        assert(b.contains(b.last()));
        assert(dom.contains(b.last()));
        assert(a.contains(b.last()));
        let i = choose|i: int| 0 <= i < b.len() && b[i] == a.last();
        let j = choose|j: int| 0 <= j < a.len() && a[j] == b.last();
        if a.last() != b.last() {
            assert(text::text_lt(b[i], b[b.len() - 1]));
            assert(text::text_lt(a[j], a[a.len() - 1]));
            text::text_lt_asymmetric(a.last(), b.last());
        }
        let x = a.last();
        let rest = dom.remove(x);
        assert forall|k: Seq<char>| #[trigger] rest.contains(k) <==> a.drop_last().contains(k) by {
            lemma_drop_last_contains(a, k);
        }
        assert forall|k: Seq<char>| #[trigger] rest.contains(k) <==> b.drop_last().contains(k) by {
            lemma_drop_last_contains(b, k);
        }
        lists_unique(a.drop_last(), b.drop_last(), rest);
        assert(a =~= a.drop_last().push(x));
        assert(b =~= b.drop_last().push(x));
    }
}

proof fn lemma_drop_last_contains(a: Seq<Seq<char>>, k: Seq<char>)
    requires
        ascending(a),
        a.len() > 0,
    ensures
        a.drop_last().contains(k) <==> (a.contains(k) && k != a.last()),
{
    if a.contains(k) && k != a.last() {
        let i = choose|i: int| 0 <= i < a.len() && a[i] == k;
        assert(a.drop_last()[i] == k);
    }
    if a.drop_last().contains(k) {
        let i = choose|i: int| 0 <= i < a.len() - 1 && a.drop_last()[i] == k;
        assert(a[i] == k);
        assert(text::text_lt(a[i], a[a.len() - 1]));
        text::text_lt_irreflexive(k);
    }
}

/// Where a set has an ascending listing, `sorted` is that listing.
pub proof fn sorted_is(keys: Seq<Seq<char>>, dom: Set<Seq<char>>)
    requires
        lists(keys, dom),
    ensures
        sorted(dom) == keys,
{
    lists_unique(sorted(dom), keys, dom);
}

/// Every finite set has an ascending listing.
pub proof fn sorted_lists(dom: Set<Seq<char>>)
    requires
        dom.finite(),
    ensures
        lists(sorted(dom), dom),
    decreases dom.len(),
{
    if dom.len() == 0 {
        let none = Seq::<Seq<char>>::empty();
        assert(dom =~= Set::<Seq<char>>::empty());
        assert(lists(none, dom));
    } else {
        let x = dom.choose();
        let rest = dom.remove(x);
        sorted_lists(rest);
        let keys = sorted(rest);
        assert(!keys.contains(x)) by {
            assert(!rest.contains(x));
        }
        let at = lemma_place(keys, x);
        let all = keys.insert(at, x);
        assert forall|i: int, j: int| 0 <= i < j < all.len() implies text::text_lt(
            #[trigger] all[i],
            #[trigger] all[j],
        ) by {
            if i < at {
                assert(all[i] == keys[i]);
            } else if i > at {
                assert(all[i] == keys[i - 1]);
            }
            if j < at {
                assert(all[j] == keys[j]);
            } else if j > at {
                assert(all[j] == keys[j - 1]);
            }
        }
        assert forall|k: Seq<char>| #[trigger] dom.contains(k) <==> all.contains(k) by {
            assert(all[at] == x);
            if dom.contains(k) && k != x {
                assert(rest.contains(k));
                let i = choose|i: int| 0 <= i < keys.len() && keys[i] == k;
                assert(all[if i < at { i } else { i + 1 }] == k);
            }
            if all.contains(k) && k != x {
                let i = choose|i: int| 0 <= i < all.len() && all[i] == k;
                assert(keys[if i < at { i } else { i - 1 }] == k);
                assert(rest.contains(k));
            }
        }
        assert(lists(all, dom));
    }
}

proof fn lemma_place(keys: Seq<Seq<char>>, x: Seq<char>) -> (at: int)
    requires
        ascending(keys),
        !keys.contains(x),
    ensures
        0 <= at <= keys.len(),
        forall|i: int| 0 <= i < at ==> text::text_lt(#[trigger] keys[i], x),
        forall|i: int| at <= i < keys.len() ==> text::text_lt(x, #[trigger] keys[i]),
    decreases keys.len(),
{
    if keys.len() == 0 {
        0
    } else {
        let last = keys.last();
        assert(keys[keys.len() - 1] == last);
        text::text_lt_total(last, x);
        if text::text_lt(last, x) {
            assert forall|i: int| 0 <= i < keys.len() implies text::text_lt(#[trigger] keys[i], x) by {
                if i < keys.len() - 1 {
                    text::text_lt_transitive(keys[i], last, x);
                }
            }
            keys.len() as int
        } else {
            let front = keys.drop_last();
            assert(!front.contains(x)) by {
                if front.contains(x) {
                    let i = choose|i: int| 0 <= i < front.len() && front[i] == x;
                    assert(keys[i] == x);
                }
            }
            let at = lemma_place(front, x);
            assert forall|i: int| 0 <= i < at implies text::text_lt(#[trigger] keys[i], x) by {
                assert(keys[i] == front[i]);
            }
            assert forall|i: int| at <= i < keys.len() implies text::text_lt(x, #[trigger] keys[i]) by {
                if i < keys.len() - 1 {
                    assert(keys[i] == front[i]);
                }
            }
            at
        }
    }
}

/// The place of `key` in ascending keys: whether it is there, and the index at which it stands or
/// would have to be put.
fn locate(keys: &Vec<String>, key: &str) -> (r: (bool, usize))
    requires
        ascending(views(keys@)),
    ensures
        r.1 <= keys@.len(),
        r.0 ==> r.1 < keys@.len() && views(keys@)[r.1 as int] == key@,
        !r.0 ==> !views(keys@).contains(key@),
        forall|i: int| 0 <= i < r.1 ==> text::text_lt(#[trigger] views(keys@)[i], key@),
        forall|i: int| r.1 <= i < keys@.len() && !r.0 ==> text::text_lt(key@, #[trigger] views(keys@)[i]),
{
    let mut i: usize = 0;
    while i < keys.len() && text_less(keys[i].as_str(), key)
        invariant
            i <= keys@.len(),
            forall|j: int| 0 <= j < i ==> text::text_lt(#[trigger] views(keys@)[j], key@),
        decreases keys@.len() - i,
    {
        i = i + 1;
    }
    if i < keys.len() && text_eq(keys[i].as_str(), key) {
        return (true, i);
    }
    proof {
        let names = views(keys@);
        if i < keys@.len() {
            text::text_lt_total(names[i as int], key@);
            assert forall|j: int| i <= j < keys@.len() implies text::text_lt(key@, #[trigger] names[j]) by {
                if j > i {
                    text::text_lt_transitive(key@, names[i as int], names[j]);
                }
            }
        }
        if names.contains(key@) {
            let j = choose|j: int| 0 <= j < names.len() && names[j] == key@;
            text::text_lt_irreflexive(key@);
        }
    }
    (false, i)
}

proof fn lemma_insert_ascending(keys: Seq<String>, at: int, key: String)
    requires
        ascending(views(keys)),
        0 <= at <= keys.len(),
        forall|i: int| 0 <= i < at ==> text::text_lt(#[trigger] views(keys)[i], key@),
        forall|i: int| at <= i < keys.len() ==> text::text_lt(key@, #[trigger] views(keys)[i]),
    ensures
        ascending(views(keys.insert(at, key))),
{
    let old_names = views(keys);
    let names = views(keys.insert(at, key));
    assert forall|i: int, j: int| 0 <= i < j < names.len() implies text::text_lt(
        #[trigger] names[i],
        #[trigger] names[j],
    ) by {
        if i < at {
            assert(names[i] == old_names[i]);
        } else if i > at {
            assert(names[i] == old_names[i - 1]);
        }
        if j < at {
            assert(names[j] == old_names[j]);
        } else if j > at {
            assert(names[j] == old_names[j - 1]);
        }
    }
}

proof fn lemma_remove_ascending(keys: Seq<String>, at: int)
    requires
        ascending(views(keys)),
        0 <= at < keys.len(),
    ensures
        ascending(views(keys.remove(at))),
{
    let old_names = views(keys);
    let names = views(keys.remove(at));
    assert forall|i: int, j: int| 0 <= i < j < names.len() implies text::text_lt(
        #[trigger] names[i],
        #[trigger] names[j],
    ) by {
        let oi = if i < at { i } else { i + 1 };
        let oj = if j < at { j } else { j + 1 };
        assert(names[i] == old_names[oi]);
        assert(names[j] == old_names[oj]);
    }
}

/// A map from texts to values, held in the order of its keys.
#[derive(Debug, PartialEq)]
pub struct TextMap<V> {
    keys: Vec<String>,
    values: Vec<V>,
}

spec fn map_of<V: View>(keys: Seq<String>, values: Seq<V>) -> Map<Seq<char>, V::V> {
    Map::new(
        |k: Seq<char>| views(keys).contains(k),
        |k: Seq<char>| values[views(keys).index_of(k)]@,
    )
}

proof fn lemma_map_of_at<V: View>(keys: Seq<String>, values: Seq<V>, i: int)
    requires
        ascending(views(keys)),
        0 <= i < keys.len(),
    ensures
        map_of(keys, values).dom().contains(keys[i]@),
        map_of(keys, values)[keys[i]@] == values[i]@,
{
    let names = views(keys);
    assert(names[i] == keys[i]@);
    assert(names.contains(keys[i]@));
    let j = names.index_of(keys[i]@);
    assert(names[j] == keys[i]@);
    text::text_lt_irreflexive(keys[i]@);
    assert(i == j) by {
        if i < j {
            assert(text::text_lt(names[i], names[j]));
        } else if j < i {
            assert(text::text_lt(names[j], names[i]));
        }
    }
}

/// A map from texts has finitely many keys.
pub proof fn keys_finite<V: View>(m: TextMap<V>)
    ensures
        m@.dom().finite(),
{
    let names = views(m.keys@);
    vstd::seq_lib::seq_to_set_is_finite(names);
    assert(m@.dom() =~= names.to_set());
}

/// So has every map in a map of maps.
pub proof fn inner_keys_finite<V: View>(m: TextMap<TextMap<V>>)
    ensures
        forall|k: Seq<char>| #[trigger] m@.dom().contains(k) ==> m@[k].dom().finite(),
{
    assert forall|k: Seq<char>| #[trigger] m@.dom().contains(k) implies m@[k].dom().finite() by {
        keys_finite(m.values@[views(m.keys@).index_of(k)]);
    }
}

impl<V: View> View for TextMap<V> {
    type V = Map<Seq<char>, V::V>;

    closed spec fn view(&self) -> Map<Seq<char>, V::V> {
        map_of(self.keys@, self.values@)
    }
}

impl<V> TextMap<V> {
    #[verifier::type_invariant]
    spec fn ordered(self) -> bool {
        &&& self.keys@.len() == self.values@.len()
        &&& ascending(views(self.keys@))
    }
}

impl<V: View> TextMap<V> {
    /// The empty map.
    pub fn new() -> (r: Self)
        ensures
            r@ == Map::<Seq<char>, V::V>::empty(),
    {
        let r = TextMap { keys: Vec::new(), values: Vec::new() };
        assert(r@ =~= Map::<Seq<char>, V::V>::empty());
        r
    }

    /// How many keys the map has.
    pub fn len(&self) -> (n: usize)
        ensures
            lists(sorted_keys(self@), self@.dom()),
            n == sorted_keys(self@).len(),
    {
        proof {
            use_type_invariant(self);
            sorted_is(views(self.keys@), self@.dom());
        }
        self.keys.len()
    }

    /// Whether the map has no key.
    pub fn is_empty(&self) -> (r: bool)
        ensures
            r == (self@ == Map::<Seq<char>, V::V>::empty()),
            r == (self@.dom() == Set::<Seq<char>>::empty()),
    {
        proof {
            use_type_invariant(self);
            if self.keys@.len() == 0 {
                assert(self@ =~= Map::<Seq<char>, V::V>::empty());
            } else {
                lemma_map_of_at(self.keys@, self.values@, 0);
                assert(self@.dom().contains(self.keys@[0]@));
            }
        }
        self.keys.len() == 0
    }

    /// The key at a position of the ascending order.
    pub fn key_at(&self, i: usize) -> (k: &String)
        requires
            i < sorted_keys(self@).len(),
        ensures
            k@ == sorted_keys(self@)[i as int],
            self@.dom().contains(k@),
    {
        proof {
            use_type_invariant(self);
            sorted_is(views(self.keys@), self@.dom());
            lemma_map_of_at(self.keys@, self.values@, i as int);
        }
        &self.keys[i]
    }

    /// The value at a position of the ascending order of the keys.
    pub fn value_at(&self, i: usize) -> (v: &V)
        requires
            i < sorted_keys(self@).len(),
        ensures
            v@ == self@[sorted_keys(self@)[i as int]],
            self@.dom().contains(sorted_keys(self@)[i as int]),
    {
        proof {
            use_type_invariant(self);
            sorted_is(views(self.keys@), self@.dom());
            lemma_map_of_at(self.keys@, self.values@, i as int);
        }
        &self.values[i]
    }

    /// The keys, in ascending order.
    pub fn keys(&self) -> (r: Vec<String>)
        ensures
            lists(sorted_keys(self@), self@.dom()),
            views(r@) == sorted_keys(self@),
    {
        proof {
            use_type_invariant(self);
            sorted_is(views(self.keys@), self@.dom());
        }
        duplicate_all(&self.keys)
    }

    /// The value of a key.
    pub fn get(&self, key: &str) -> (r: Option<&V>)
        ensures
            match r {
                Some(v) => self@.dom().contains(key@) && v@ == self@[key@],
                None => !self@.dom().contains(key@),
            },
    {
        proof {
            use_type_invariant(self);
        }
        let (found, at) = locate(&self.keys, key);
        if found {
            proof {
                lemma_map_of_at(self.keys@, self.values@, at as int);
            }
            Some(&self.values[at])
        } else {
            None
        }
    }

    /// Whether the map has a key.
    pub fn contains_key(&self, key: &str) -> (r: bool)
        ensures
            r == self@.dom().contains(key@),
    {
        self.get(key).is_some()
    }

    /// Gives a key a value, in place of the one it may have had.
    pub fn insert(&mut self, key: String, value: V)
        ensures
            final(self)@ == old(self)@.insert(key@, value@),
    {
        proof {
            use_type_invariant(&*self);
        }
        let mut whole = TextMap { keys: Vec::new(), values: Vec::new() };
        std::mem::swap(self, &mut whole);
        proof {
            use_type_invariant(&whole);
        }
        let TextMap { mut keys, mut values } = whole;
        let (found, at) = locate(&keys, key.as_str());
        let ghost keys0 = keys@;
        let ghost values0 = values@;
        if found {
            values.set(at, value);
        } else {
            proof {
                lemma_insert_ascending(keys0, at as int, key);
            }
            keys.insert(at, key);
            values.insert(at, value);
        }
        proof {
            let m0 = map_of(keys0, values0);
            let m1 = map_of(keys@, values@);
            assert(keys@[at as int]@ == key@);
            lemma_map_of_at(keys@, values@, at as int);
            assert forall|k: Seq<char>|
                #![trigger m1.dom().contains(k)]
                #![trigger m1[k]]
                m1.dom().contains(k) == m0.insert(key@, value@).dom().contains(k) && (
                m1.dom().contains(k) ==> m1[k] == m0.insert(key@, value@)[k]) by {
                if views(keys0).contains(k) {
                    let i = views(keys0).index_of(k);
                    assert(keys0[i]@ == k);
                    lemma_map_of_at(keys0, values0, i);
                    let n = if found || i < at { i } else { i + 1 };
                    assert(keys@[n] == keys0[i]);
                    lemma_map_of_at(keys@, values@, n);
                }
                if views(keys@).contains(k) {
                    let i = views(keys@).index_of(k);
                    assert(keys@[i]@ == k);
                    lemma_map_of_at(keys@, values@, i);
                    if i != at {
                        let o = if found || i < at { i } else { i - 1 };
                        assert(keys0[o] == keys@[i]);
                        lemma_map_of_at(keys0, values0, o);
                    }
                }
            }
            assert(m1 =~= m0.insert(key@, value@));
        }
        *self = TextMap { keys, values };
    }

    /// Takes a key and its value out of the map.
    pub fn remove(&mut self, key: &str)
        ensures
            final(self)@ == old(self)@.remove(key@),
    {
        proof {
            use_type_invariant(&*self);
        }
        let mut whole = TextMap { keys: Vec::new(), values: Vec::new() };
        std::mem::swap(self, &mut whole);
        proof {
            use_type_invariant(&whole);
        }
        let TextMap { mut keys, mut values } = whole;
        let (found, at) = locate(&keys, key);
        let ghost keys0 = keys@;
        let ghost values0 = values@;
        if found {
            proof {
                lemma_remove_ascending(keys0, at as int);
            }
            keys.remove(at);
            values.remove(at);
        }
        proof {
            let m0 = map_of(keys0, values0);
            let m1 = map_of(keys@, values@);
            assert forall|k: Seq<char>|
                #![trigger m1.dom().contains(k)]
                #![trigger m1[k]]
                m1.dom().contains(k) == m0.remove(key@).dom().contains(k) && (m1.dom().contains(k)
                    ==> m1[k] == m0.remove(key@)[k]) by {
                if views(keys0).contains(k) && k != key@ {
                    let i = views(keys0).index_of(k);
                    assert(keys0[i]@ == k);
                    lemma_map_of_at(keys0, values0, i);
                    let n = if found && i > at { i - 1 } else { i };
                    assert(keys@[n] == keys0[i]);
                    lemma_map_of_at(keys@, values@, n);
                }
                if views(keys@).contains(k) {
                    let i = views(keys@).index_of(k);
                    assert(keys@[i]@ == k);
                    let o = if found && i >= at { i + 1 } else { i };
                    assert(keys0[o] == keys@[i]);
                    lemma_map_of_at(keys0, values0, o);
                    if found {
                        text::text_lt_irreflexive(key@);
                        assert(views(keys0)[o] == k);
                        assert(views(keys0)[at as int] == key@);
                    }
                }
            }
            assert(m1 =~= m0.remove(key@));
        }
        *self = TextMap { keys, values };
    }

    /// The value of a key that is there, to be changed in place.
    pub fn slot_mut(&mut self, key: &str) -> (r: &mut V)
        requires
            old(self)@.dom().contains(key@),
        ensures
            (*r)@ == old(self)@[key@],
            final(self)@ == old(self)@.insert(key@, (*final(r))@),
    {
        proof {
            use_type_invariant(&*self);
        }
        let (found, at) = locate(&self.keys, key);
        proof {
            let keys = self.keys@;
            let values = self.values@;
            lemma_map_of_at(keys, values, at as int);
            assert forall|v: V| #[trigger] map_of(keys, values.update(at as int, v)) == map_of(
                keys,
                values,
            ).insert(key@, v@) by {
                let m0 = map_of(keys, values);
                let m1 = map_of(keys, values.update(at as int, v));
                assert forall|k: Seq<char>| m1.dom().contains(k) implies #[trigger] m1[k] == m0.insert(
                    key@,
                    v@,
                )[k] by {
                    let i = views(keys).index_of(k);
                    assert(keys[i]@ == k);
                    lemma_map_of_at(keys, values, i);
                    lemma_map_of_at(keys, values.update(at as int, v), i);
                    lemma_map_of_at(keys, values.update(at as int, v), at as int);
                }
                assert(m1 =~= m0.insert(key@, v@));
            }
        }
        &mut self.values[at]
    }
}

/// The part of a map whose keys are among the first `n` in ascending order.
pub open spec fn first_keys<T>(m: Map<Seq<char>, T>, n: int) -> Map<Seq<char>, T> {
    Map::new(|k: Seq<char>| m.dom().contains(k) && sorted_keys(m).take(n).contains(k), |k: Seq<char>| m[k])
}

/// With none of its keys the part of a map is empty, with all of them it is the map.
pub proof fn first_keys_bounds<T>(m: Map<Seq<char>, T>)
    requires
        lists(sorted_keys(m), m.dom()),
    ensures
        first_keys(m, 0) == Map::<Seq<char>, T>::empty(),
        first_keys(m, sorted_keys(m).len() as int) == m,
{
    let keys = sorted_keys(m);
    assert(keys.take(0) =~= Seq::<Seq<char>>::empty());
    assert(keys.take(keys.len() as int) =~= keys);
    assert(first_keys(m, 0) =~= Map::<Seq<char>, T>::empty());
    assert(first_keys(m, keys.len() as int) =~= m);
}

/// What the first `n + 1` elements hold.
pub proof fn take_step<T>(s: Seq<T>, n: int)
    requires
        0 <= n < s.len(),
    ensures
        s.take(n + 1) == s.take(n).push(s[n]),
        forall|x: T| #[trigger] s.take(n + 1).contains(x) <==> (s.take(n).contains(x) || x == s[n]),
{
    assert(s.take(n + 1) =~= s.take(n).push(s[n]));
    assert forall|x: T| #[trigger] s.take(n + 1).contains(x) <==> (s.take(n).contains(x) || x == s[n]) by {
        if s.take(n).contains(x) {
            let i = choose|i: int| 0 <= i < n && s.take(n)[i] == x;
            assert(s.take(n + 1)[i] == x);
        }
        if x == s[n] {
            assert(s.take(n + 1)[n] == x);
        }
    }
}

/// One more key adds one entry.
pub proof fn first_keys_step<T>(m: Map<Seq<char>, T>, n: int)
    requires
        lists(sorted_keys(m), m.dom()),
        0 <= n < sorted_keys(m).len(),
    ensures
        first_keys(m, n + 1) == first_keys(m, n).insert(sorted_keys(m)[n], m[sorted_keys(m)[n]]),
        !first_keys(m, n).dom().contains(sorted_keys(m)[n]),
        m.dom().contains(sorted_keys(m)[n]),
{
    let keys = sorted_keys(m);
    assert(keys.contains(keys[n]));
    take_step(keys, n);
    if keys.take(n).contains(keys[n]) {
        let i = choose|i: int| 0 <= i < n && keys.take(n)[i] == keys[n];
        assert(keys[i] == keys[n]);
        text::text_lt_irreflexive(keys[n]);
    }
    assert(first_keys(m, n + 1) =~= first_keys(m, n).insert(keys[n], m[keys[n]]));
}

impl<V: Duplicate> TextMap<V> {
    /// Takes over every entry of another map, in place of one with the same key.
    pub fn extend_from(&mut self, other: &TextMap<V>)
        ensures
            final(self)@ == old(self)@.union_prefer_right(other@),
    {
        let n: usize = other.len();
        proof {
            first_keys_bounds(other@);
            assert(old(self)@.union_prefer_right(first_keys(other@, 0)) =~= old(self)@);
        }
        for i in 0..n
            invariant
                n == sorted_keys(other@).len(),
                lists(sorted_keys(other@), other@.dom()),
                self@ == old(self)@.union_prefer_right(first_keys(other@, i as int)),
        {
            let key = other.key_at(i);
            let value = other.value_at(i);
            self.insert(key.clone(), value.duplicate());
            proof {
                first_keys_step(other@, i as int);
                assert(self@ =~= old(self)@.union_prefer_right(first_keys(other@, i + 1)));
            }
        }
    }
}

impl<V: Duplicate> Clone for TextMap<V> {
    fn clone(&self) -> (r: Self)
        ensures
            r@ == self@,
    {
        self.duplicate()
    }
}

impl<V: Duplicate> Duplicate for TextMap<V> {
    fn duplicate(&self) -> (r: Self) {
        proof {
            use_type_invariant(self);
        }
        let mut keys: Vec<String> = Vec::new();
        let mut values: Vec<V> = Vec::new();
        for i in 0..self.keys.len()
            invariant
                keys@.len() == i,
                values@.len() == i,
                self.keys@.len() == self.values@.len(),
                forall|j: int| 0 <= j < i ==> #[trigger] keys@[j] == self.keys@[j],
                forall|j: int| 0 <= j < i ==> (#[trigger] values@[j])@ == self.values@[j]@,
        {
            keys.push(self.keys[i].clone());
            values.push(self.values[i].duplicate());
        }
        proof {
            assert(keys@ =~= self.keys@);
            assert(map_of(keys@, values@) =~= map_of(self.keys@, self.values@)) by {
                assert forall|k: Seq<char>| views(keys@).contains(k) implies #[trigger] map_of(
                    keys@,
                    values@,
                )[k] == map_of(self.keys@, self.values@)[k] by {
                    let i = views(keys@).index_of(k);
                    assert(keys@[i]@ == k);
                    lemma_map_of_at(keys@, values@, i);
                    lemma_map_of_at(self.keys@, self.values@, i);
                }
            }
        }
        TextMap { keys, values }
    }
}

impl<V: View> TextMap<V> {
    /// The map with the same keys whose values a function makes of the keys and values.
    pub fn map_values<U: View, F: Fn(&String, &V) -> U>(&self, f: F) -> (r: TextMap<U>)
        requires
            forall|k: &String, v: &V| f.requires((k, v)),
        ensures
            r@.dom() == self@.dom(),
            forall|k: Seq<char>| #[trigger]
                self@.dom().contains(k) ==> exists|key: &String, v: &V, u: U|
                    key@ == k && v@ == self@[k] && #[trigger] f.ensures((key, v), u) && u@ == r@[k],
    {
        proof {
            use_type_invariant(self);
        }
        let mut keys: Vec<String> = Vec::new();
        let mut values: Vec<U> = Vec::new();
        for i in 0..self.keys.len()
            invariant
                keys@.len() == i,
                values@.len() == i,
                self.keys@.len() == self.values@.len(),
                forall|k: &String, v: &V| f.requires((k, v)),
                forall|j: int| 0 <= j < i ==> #[trigger] keys@[j] == self.keys@[j],
                forall|j: int|
                    0 <= j < i ==> f.ensures(
                        (&self.keys@[j], &self.values@[j]),
                        #[trigger] values@[j],
                    ),
        {
            keys.push(self.keys[i].clone());
            values.push(f(&self.keys[i], &self.values[i]));
        }
        proof {
            assert(keys@ =~= self.keys@);
            assert(map_of(keys@, values@).dom() =~= self@.dom());
            assert forall|k: Seq<char>| #[trigger] self@.dom().contains(k) implies exists|
                key: &String,
                v: &V,
                u: U,
            |
                key@ == k && v@ == self@[k] && #[trigger] f.ensures((key, v), u) && u@ == map_of(
                    keys@,
                    values@,
                )[k] by {
                let i = views(keys@).index_of(k);
                assert(keys@[i]@ == k);
                lemma_map_of_at(keys@, values@, i);
                lemma_map_of_at(self.keys@, self.values@, i);
                assert(f.ensures((&self.keys@[i], &self.values@[i]), values@[i]));
            }
        }
        TextMap { keys, values }
    }
}

/// What a function makes of each element of a vector.
pub fn map_all<T, U, F: Fn(&T) -> U>(v: &Vec<T>, f: F) -> (r: Vec<U>)
    requires
        forall|x: &T| f.requires((x,)),
    ensures
        r@.len() == v@.len(),
        forall|i: int| 0 <= i < v@.len() ==> f.ensures((&v@[i],), #[trigger] r@[i]),
{
    let mut out: Vec<U> = Vec::new();
    for i in 0..v.len()
        invariant
            out@.len() == i,
            forall|x: &T| f.requires((x,)),
            forall|j: int| 0 <= j < i ==> f.ensures((&v@[j],), #[trigger] out@[j]),
    {
        out.push(f(&v[i]));
    }
    out
}

/// The elements of a vector that a test accepts; the test is told by what the elements stand for.
pub fn filter_all<T: Duplicate, F: Fn(&T) -> bool>(v: &Vec<T>, f: F, Ghost(p): Ghost<
    spec_fn(T::V) -> bool,
>) -> (r: Vec<T>)
    requires
        forall|x: &T| f.requires((x,)),
        forall|x: &T, b: bool| #[trigger] f.ensures((x,), b) ==> b == p(x@),
    ensures
        views(r@) == views(v@).filter(p),
{
    let mut out: Vec<T> = Vec::new();
    let ghost all = views(v@);
    proof {
        assert(views(out@) =~= Seq::<T::V>::empty());
        assert(all.take(0).filter(p) =~= Seq::<T::V>::empty()) by {
            reveal(Seq::filter);
        }
    }
    for i in 0..v.len()
        invariant
            all == views(v@),
            forall|x: &T| f.requires((x,)),
            forall|x: &T, b: bool| #[trigger] f.ensures((x,), b) ==> b == p(x@),
            views(out@) == all.take(i as int).filter(p),
    {
        proof {
            reveal(Seq::filter);
            assert(all.take(i + 1).drop_last() =~= all.take(i as int));
            assert(all.take(i + 1).last() == v@[i as int]@);
        }
        if f(&v[i]) {
            let ghost before = views(out@);
            out.push(v[i].duplicate());
            assert(views(out@) =~= before.push(v@[i as int]@));
        }
    }
    assert(all.take(v@.len() as int) =~= all);
    out
}

impl<V: View> TextMap<V> {
    /// The map with the given keys whose values a function makes of the keys.
    pub fn keyed<F: Fn(&String) -> V>(names: &Vec<String>, f: F) -> (r: TextMap<V>)
        requires
            forall|k: &String| f.requires((k,)),
        ensures
            forall|k: Seq<char>| #[trigger]
                r@.dom().contains(k) <==> views(names@).contains(k),
            forall|k: Seq<char>| #[trigger]
                r@.dom().contains(k) ==> exists|key: &String, u: V|
                    key@ == k && #[trigger] f.ensures((key,), u) && u@ == r@[k],
    {
        let mut out: TextMap<V> = TextMap::new();
        let ghost all = views(names@);
        for i in 0..names.len()
            invariant
                all == views(names@),
                forall|k: &String| f.requires((k,)),
                forall|k: Seq<char>| #[trigger]
                    out@.dom().contains(k) <==> all.take(i as int).contains(k),
                forall|k: Seq<char>| #[trigger]
                    out@.dom().contains(k) ==> exists|key: &String, u: V|
                        key@ == k && #[trigger] f.ensures((key,), u) && u@ == out@[k],
        {
            proof {
                take_step(all, i as int);
            }
            let value = f(&names[i]);
            let ghost before = out@;
            proof {
                assert(f.ensures((&names@[i as int],), value));
            }
            out.insert(names[i].clone(), value);
            proof {
                assert forall|k: Seq<char>| #[trigger] out@.dom().contains(k) implies exists|
                    key: &String,
                    u: V,
                |
                    key@ == k && #[trigger] f.ensures((key,), u) && u@ == out@[k] by {
                    if k == names@[i as int]@ {
                        assert(f.ensures((&names@[i as int],), value));
                    } else {
                        assert(before.dom().contains(k));
                        let (key, u) = choose|key: &String, u: V|
                            key@ == k && #[trigger] f.ensures((key,), u) && u@ == before[k];
                        assert(f.ensures((key,), u));
                    }
                }
            }
        }
        assert(all.take(names@.len() as int) =~= all);
        out
    }
}

impl<V: Duplicate> TextMap<V> {
    /// The entries whose keys a test accepts; the test is told by what the keys stand for.
    pub fn filter_keys<F: Fn(&String) -> bool>(&self, f: F, Ghost(p): Ghost<
        spec_fn(Seq<char>) -> bool,
    >) -> (r: TextMap<V>)
        requires
            forall|k: &String| f.requires((k,)),
            forall|k: &String, b: bool| #[trigger] f.ensures((k,), b) ==> b == p(k@),
        ensures
            r@ == only_keys(self@, p),
    {
        let mut out: TextMap<V> = TextMap::new();
        let n: usize = self.len();
        let ghost names = sorted_keys(self@);
        for i in 0..n
            invariant
                names == sorted_keys(self@),
                n == names.len(),
                lists(names, self@.dom()),
                forall|k: &String| f.requires((k,)),
                forall|k: &String, b: bool| #[trigger] f.ensures((k,), b) ==> b == p(k@),
                forall|k: Seq<char>| #[trigger]
                    out@.dom().contains(k) <==> p(k) && names.take(i as int).contains(k),
                forall|k: Seq<char>| #[trigger] out@.dom().contains(k) ==> out@[k] == self@[k],
        {
            proof {
                take_step(names, i as int);
            }
            let key = self.key_at(i);
            if f(key) {
                out.insert(key.clone(), self.value_at(i).duplicate());
            }
        }
        proof {
            assert(names.take(n as int) =~= names);
            assert(out@ =~= only_keys(self@, p));
        }
        out
    }
}

/// The entries of a map whose keys have a property.
pub open spec fn only_keys<T>(m: Map<Seq<char>, T>, p: spec_fn(Seq<char>) -> bool) -> Map<
    Seq<char>,
    T,
> {
    Map::new(|k: Seq<char>| m.dom().contains(k) && p(k), |k: Seq<char>| m[k])
}

/// The value stored under two keys.
pub open spec fn at2<T>(m: Map<Seq<char>, Map<Seq<char>, T>>, a: Seq<char>, b: Seq<char>) -> Option<T> {
    if m.dom().contains(a) && m[a].dom().contains(b) {
        Some(m[a][b])
    } else {
        None
    }
}

/// The map of maps with a value stored under two keys.
#[verifier::opaque]
pub open spec fn put2<T>(
    m: Map<Seq<char>, Map<Seq<char>, T>>,
    a: Seq<char>,
    b: Seq<char>,
    v: T,
) -> Map<Seq<char>, Map<Seq<char>, T>> {
    let inner = if m.dom().contains(a) {
        m[a]
    } else {
        Map::<Seq<char>, T>::empty()
    };
    m.insert(a, inner.insert(b, v))
}

/// The pairs of keys that have a value.
pub open spec fn key_pairs<T>(m: Map<Seq<char>, Map<Seq<char>, T>>) -> Set<(Seq<char>, Seq<char>)> {
    Set::new(|p: (Seq<char>, Seq<char>)| at2(m, p.0, p.1) is Some)
}

proof fn lemma_pairs_finite<T>(m: Map<Seq<char>, Map<Seq<char>, T>>, first: Set<Seq<char>>)
    requires
        first.finite(),
        forall|c: Seq<char>| #[trigger] m.dom().contains(c) ==> m[c].dom().finite(),
    ensures
        Set::new(
            |p: (Seq<char>, Seq<char>)| at2(m, p.0, p.1) is Some && first.contains(p.0),
        ).finite(),
    decreases first.len(),
{
    let all = Set::new(|p: (Seq<char>, Seq<char>)| at2(m, p.0, p.1) is Some && first.contains(p.0));
    if first.len() == 0 {
        assert(all =~= Set::<(Seq<char>, Seq<char>)>::empty());
    } else {
        let c = first.choose();
        let rest = first.remove(c);
        lemma_pairs_finite(m, rest);
        let others = Set::new(
            |p: (Seq<char>, Seq<char>)| at2(m, p.0, p.1) is Some && rest.contains(p.0),
        );
        if m.dom().contains(c) {
            let f = |k: Seq<char>| (c, k);
            let here = m[c].dom().map(f);
            m[c].dom().lemma_map_finite(f);
            assert(all =~= others.union(here)) by {
                assert forall|p: (Seq<char>, Seq<char>)| all.contains(p) implies others.union(
                    here,
                ).contains(p) by {
                    if p.0 == c {
                        assert(f(p.1) == p);
                        assert(here.contains(p));
                    }
                }
            }
        } else {
            assert(all =~= others);
        }
    }
}

/// A map of maps has finitely many values.
pub proof fn key_pairs_finite<V: View>(m: TextMap<TextMap<V>>)
    ensures
        key_pairs(m@).finite(),
{
    keys_finite(m);
    inner_keys_finite(m);
    lemma_pairs_finite(m@, m@.dom());
    assert(key_pairs(m@) =~= Set::new(
        |p: (Seq<char>, Seq<char>)| at2(m@, p.0, p.1) is Some && m@.dom().contains(p.0),
    ));
}

impl<V: View> TextMap<TextMap<V>> {
    /// Stores a value under two keys.
    pub fn put2(&mut self, a: &str, b: &str, value: V)
        ensures
            final(self)@ == put2(old(self)@, a@, b@, value@),
    {
        if !self.contains_key(a) {
            self.insert(owned(a), TextMap::new());
        }
        self.slot_mut(a).insert(owned(b), value);
        proof {
            reveal(put2);
            assert(self@ =~= put2(old(self)@, a@, b@, value@));
        }
    }

    /// The value stored under two keys.
    pub fn get2(&self, a: &str, b: &str) -> (r: Option<&V>)
        ensures
            match r {
                Some(v) => at2(self@, a@, b@) == Some(v@),
                None => at2(self@, a@, b@) is None,
            },
    {
        match self.get(a) {
            Some(inner) => inner.get(b),
            None => None,
        }
    }
}

/// A set of texts, held in ascending order.
#[derive(Debug, PartialEq)]
pub struct TextSet {
    items: Vec<String>,
}

impl View for TextSet {
    type V = Set<Seq<char>>;

    closed spec fn view(&self) -> Set<Seq<char>> {
        views(self.items@).to_set()
    }
}

impl TextSet {
    #[verifier::type_invariant]
    spec fn ordered(self) -> bool {
        ascending(views(self.items@))
    }

    /// The empty set.
    pub fn new() -> (r: Self)
        ensures
            r@ == Set::<Seq<char>>::empty(),
    {
        let r = TextSet { items: Vec::new() };
        assert(r@ =~= Set::<Seq<char>>::empty());
        r
    }

    /// How many members the set has.
    pub fn len(&self) -> (n: usize)
        ensures
            lists(sorted(self@), self@),
            n == sorted(self@).len(),
    {
        proof {
            use_type_invariant(self);
            sorted_is(views(self.items@), self@);
        }
        self.items.len()
    }

    /// The member at a position of the ascending order.
    pub fn at(&self, i: usize) -> (k: &String)
        requires
            i < sorted(self@).len(),
        ensures
            k@ == sorted(self@)[i as int],
            self@.contains(k@),
    {
        proof {
            use_type_invariant(self);
            sorted_is(views(self.items@), self@);
            assert(views(self.items@)[i as int] == self.items@[i as int]@);
        }
        &self.items[i]
    }

    /// Whether a text is a member.
    pub fn contains(&self, item: &str) -> (r: bool)
        ensures
            r == self@.contains(item@),
    {
        proof {
            use_type_invariant(self);
        }
        let (found, at) = locate(&self.items, item);
        found
    }

    /// Adds a member. Tells whether it was missing.
    pub fn insert(&mut self, item: String) -> (added: bool)
        ensures
            final(self)@ == old(self)@.insert(item@),
            added == !old(self)@.contains(item@),
    {
        proof {
            use_type_invariant(&*self);
        }
        let mut items: Vec<String> = Vec::new();
        std::mem::swap(&mut self.items, &mut items);
        let (found, at) = locate(&items, item.as_str());
        let ghost items0 = items@;
        if !found {
            proof {
                lemma_insert_ascending(items0, at as int, item);
            }
            items.insert(at, item);
        }
        proof {
            let s0 = views(items0).to_set();
            let s1 = views(items@).to_set();
            assert forall|k: Seq<char>| #[trigger] s1.contains(k) == s0.insert(item@).contains(k) by {
                if views(items0).contains(k) {
                    let i = views(items0).index_of(k);
                    let n = if found || i < at { i } else { i + 1 };
                    assert(views(items@)[n] == k);
                }
                if !found {
                    assert(views(items@)[at as int] == item@);
                }
                if views(items@).contains(k) {
                    let i = views(items@).index_of(k);
                    if !found && i != at {
                        let o = if i < at { i } else { i - 1 };
                        assert(views(items0)[o] == k);
                    }
                }
            }
            assert(s1 =~= s0.insert(item@));
        }
        self.items = items;
        !found
    }

    /// The members for which a test holds.
    pub fn filtered<F: Fn(&String) -> bool>(&self, f: F, Ghost(p): Ghost<spec_fn(Seq<char>) -> bool>) -> (r:
        TextSet)
        requires
            forall|k: &String| f.requires((k,)),
            forall|k: &String, b: bool| #[trigger] f.ensures((k,), b) ==> b == p(k@),
        ensures
            r@ == self@.filter(p),
    {
        let mut out = TextSet::new();
        let n: usize = self.len();
        let ghost names = sorted(self@);
        for i in 0..n
            invariant
                names == sorted(self@),
                n == names.len(),
                forall|k: &String| f.requires((k,)),
                forall|k: &String, b: bool| #[trigger] f.ensures((k,), b) ==> b == p(k@),
                forall|k: Seq<char>| #[trigger]
                    out@.contains(k) <==> p(k) && names.take(i as int).contains(k),
        {
            proof {
                take_step(names, i as int);
            }
            let item = self.at(i);
            if f(item) {
                out.insert(item.clone());
            }
        }
        proof {
            assert(names.take(n as int) =~= names);
            assert(out@ =~= self@.filter(p));
        }
        out
    }

    /// Takes a member out.
    pub fn remove(&mut self, item: &str)
        ensures
            final(self)@ == old(self)@.remove(item@),
    {
        proof {
            use_type_invariant(&*self);
        }
        let mut items: Vec<String> = Vec::new();
        std::mem::swap(&mut self.items, &mut items);
        let (found, at) = locate(&items, item);
        let ghost items0 = items@;
        if found {
            proof {
                lemma_remove_ascending(items0, at as int);
            }
            items.remove(at);
        }
        proof {
            let s0 = views(items0).to_set();
            let s1 = views(items@).to_set();
            assert forall|k: Seq<char>| #[trigger] s1.contains(k) == s0.remove(item@).contains(k) by {
                if views(items0).contains(k) && k != item@ {
                    let i = views(items0).index_of(k);
                    let n = if found && i > at { i - 1 } else { i };
                    assert(views(items@)[n] == k);
                }
                if views(items@).contains(k) {
                    let i = views(items@).index_of(k);
                    let o = if found && i >= at { i + 1 } else { i };
                    assert(views(items0)[o] == k);
                    text::text_lt_irreflexive(item@);
                    assert(found ==> views(items0)[at as int] == item@);
                }
            }
            assert(s1 =~= s0.remove(item@));
        }
        self.items = items;
    }
}

impl Clone for TextSet {
    fn clone(&self) -> (r: Self)
        ensures
            r@ == self@,
    {
        self.duplicate()
    }
}

impl Duplicate for TextSet {
    fn duplicate(&self) -> (r: Self) {
        proof {
            use_type_invariant(self);
        }
        let mut items: Vec<String> = Vec::new();
        for i in 0..self.items.len()
            invariant
                items@.len() == i,
                forall|j: int| 0 <= j < i ==> #[trigger] items@[j] == self.items@[j],
        {
            items.push(self.items[i].clone());
        }
        assert(items@ =~= self.items@);
        TextSet { items }
    }
}

} // verus!
