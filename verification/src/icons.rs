//! The icons of the editor.

use vstd::prelude::*;
use crate::text::{self, contains_text, owned, text_eq, to_lower, trimmed};
use crate::textmap::{self, filter_all};

verus! {

/// The names of the icons. The first stands for no icon; the images of the others are held beside
/// the registry, in the same order.
#[derive(Debug, PartialEq)]
pub struct IconRegistry {
    names: Vec<String>,
}

impl View for IconRegistry {
    type V = Seq<Seq<char>>;

    closed spec fn view(&self) -> Seq<Seq<char>> {
        textmap::views(self.names@)
    }
}

/// The names of a registry of images.
pub open spec fn registered(images: Seq<Seq<char>>) -> Seq<Seq<char>> {
    seq!["none"@] + images
}

/// The names that have a text in them, whatever the case of ASCII letters; all of them for a blank
/// one.
pub open spec fn icons_named(names: Seq<Seq<char>>, query: Seq<char>) -> Seq<Seq<char>> {
    let wanted = text::lowercased(text::trim(query));
    if wanted.len() == 0 {
        names
    } else {
        names.filter(|n: Seq<char>| text::text_contains(text::lowercased(n), wanted))
    }
}

/// The place of the image of an icon: the last of its name. No name, and the name `none`, have none.
pub open spec fn image_place(names: Seq<Seq<char>>, name: Seq<char>) -> Option<int>
    decreases names.len(),
{
    if name.len() == 0 || name == "none"@ || names.len() <= 1 {
        None
    } else if names.last() == name {
        Some(names.len() - 2)
    } else {
        image_place(names.drop_last(), name)
    }
}

impl IconRegistry {
    /// The registry of images, by their names.
    pub fn from_names(images: Vec<String>) -> (r: Self)
        ensures
            r@ == registered(textmap::views(images@)),
    {
        let mut names: Vec<String> = Vec::new();
        names.push(owned("none"));
        let ghost given = textmap::views(images@);
        assert(textmap::views(names@) =~= seq!["none"@] + given.take(0));
        for i in 0..images.len()
            invariant
                given == textmap::views(images@),
                textmap::views(names@) == seq!["none"@] + given.take(i as int),
        {
            let ghost before = textmap::views(names@);
            names.push(images[i].clone());
            assert(textmap::views(names@) =~= before.push(given[i as int]));
            assert(seq!["none"@] + given.take(i + 1) =~= (seq!["none"@] + given.take(i as int)).push(
                given[i as int],
            ));
        }
        assert(given.take(images@.len() as int) =~= given);
        IconRegistry { names }
    }

    /// The names that have a text in them.
    pub fn filter(&self, query: &str) -> (r: Vec<String>)
        ensures
            textmap::views(r@) == icons_named(self@, query@),
    {
        let wanted = to_lower(trimmed(query).as_str());
        if wanted.as_str().is_empty() {
            return textmap::duplicate_all(&self.names);
        }
        filter_all(
            &self.names,
            |n: &String| -> (b: bool)
                ensures
                    b == text::text_contains(text::lowercased(n@), wanted@)
                { contains_text(to_lower(n.as_str()).as_str(), wanted.as_str()) },
            Ghost(|n: Seq<char>| text::text_contains(text::lowercased(n), wanted@)),
        )
    }

    /// The place of the image of an icon, or that it has none.
    pub fn image(&self, name: &str) -> (r: Option<usize>)
        ensures
            match r {
                Some(i) => image_place(self@, name@) == Some(i as int),
                None => image_place(self@, name@) is None,
            },
    {
        if name.is_empty() || text_eq(name, "none") {
            return None;
        }
        let ghost all = self@;
        let mut n: usize = self.names.len();
        assert(all.take(n as int) =~= all);
        while n > 1
            invariant
                n <= self.names@.len(),
                all == textmap::views(self.names@),
                name@.len() > 0,
                name@ != "none"@,
                image_place(all, name@) == image_place(all.take(n as int), name@),
            decreases n,
        {
            assert(all.take(n as int).last() == self.names@[n - 1]@);
            assert(all.take(n as int).drop_last() =~= all.take(n - 1));
            if text_eq(self.names[n - 1].as_str(), name) {
                return Some(n - 2);
            }
            n = n - 1;
        }
        None
    }
}

/// The image of an icon is one that was registered under its name, and an icon that was registered
/// has one.
pub proof fn image_has_its_name(images: Seq<Seq<char>>, name: Seq<char>)
    requires
        name.len() > 0,
        name != "none"@,
    ensures
        match image_place(registered(images), name) {
            Some(i) => 0 <= i < images.len() && images[i] == name,
            None => !images.contains(name),
        },
    decreases images.len(),
{
    if images.len() > 0 {
        let front = images.drop_last();
        assert(registered(images).drop_last() =~= registered(front));
        assert(registered(images).last() == images.last());
        image_has_its_name(front, name);
        if images.last() == name {
            assert(images[images.len() - 1] == name);
        } else if images.contains(name) {
            let i = choose|i: int| 0 <= i < images.len() && images[i] == name;
            assert(front[i] == name);
        }
    }
}

/// The names that a search finds are those that have the searched text in them, whatever the case of
/// their letters; a blank search finds all.
pub proof fn found_names_have_the_text(names: Seq<Seq<char>>, query: Seq<char>, name: Seq<char>)
    ensures
        text::trim(query).len() == 0 ==> icons_named(names, query) == names,
        text::trim(query).len() > 0 ==> (icons_named(names, query).contains(name) <==> names.contains(name)
            && text::occurs(text::lowercased(name), text::lowercased(text::trim(query)))),
{
    let wanted = text::lowercased(text::trim(query));
    if wanted.len() > 0 {
        let keep = |n: Seq<char>| text::text_contains(text::lowercased(n), wanted);
        let found = names.filter(keep);
        text::contained_means_occurs(text::lowercased(name), wanted);
        broadcast use vstd::seq_lib::group_filter_ensures;

        if found.contains(name) {
            let k = choose|k: int| 0 <= k < found.len() && found[k] == name;
            lemma_found_is_of(names, keep, k);
        }
        if names.contains(name) && keep(name) {
            let k = choose|k: int| 0 <= k < names.len() && names[k] == name;
            assert(found.contains(names[k]));
        }
    }
}

proof fn lemma_found_is_of(names: Seq<Seq<char>>, keep: spec_fn(Seq<char>) -> bool, k: int)
    requires
        0 <= k < names.filter(keep).len(),
    ensures
        names.contains(names.filter(keep)[k]),
        keep(names.filter(keep)[k]),
    decreases names.len(),
{
    reveal(Seq::filter);
    if names.len() > 0 {
        let front = names.drop_last().filter(keep);
        if k < front.len() {
            lemma_found_is_of(names.drop_last(), keep, k);
            assert(names.filter(keep)[k] == front[k]);
            let j = choose|j: int| 0 <= j < names.drop_last().len() && names.drop_last()[j] == front[k];
            assert(names[j] == front[k]);
        } else {
            assert(names[names.len() - 1] == names.last());
        }
    }
}

} // verus!
