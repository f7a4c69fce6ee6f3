//! The report on what a theme still has to define.

use vstd::prelude::*;
use crate::storage::DEFAULT_SIZE_KEY;
use crate::text::{
    self, char_is_white, char_upper, join_texts, owned, split_once, strip_prefix, text_eq, to_chars, trimmed_end,
};
use crate::textmap::{self, TextMap, TextSet};

verus! {

// ---------------------------------------------------------------------------------------------
// Titles
// ---------------------------------------------------------------------------------------------
/// Whether a capital behind a character starts a new word.
pub open spec fn ends_word(c: char) -> bool {
    text::is_lower(c) || text::is_digit(c)
}

/// An identifier with spaces between its words.
pub open spec fn spaced(s: Seq<char>) -> Seq<char>
    decreases s.len(),
{
    if s.len() == 0 {
        Seq::empty()
    } else {
        let front = s.drop_last();
        let c = s.last();
        if c == '-' || c == '_' || c == '/' {
            spaced(front).push(' ')
        } else if text::is_upper(c) && front.len() > 0 && ends_word(front.last()) {
            spaced(front).push(' ').push(c)
        } else {
            spaced(front).push(c)
        }
    }
}

/// The words of a text, between white space.
pub open spec fn words(s: Seq<char>) -> Seq<Seq<char>>
    decreases s.len(),
{
    if s.len() == 0 {
        Seq::empty()
    } else {
        let front = s.drop_last();
        let before = words(front);
        let c = s.last();
        if text::is_white(c) {
            before
        } else if front.len() == 0 || text::is_white(front.last()) {
            before.push(seq![c])
        } else {
            before.drop_last().push(before.last().push(c))
        }
    }
}

/// A word with its first letter in upper case.
pub open spec fn titled(w: Seq<char>) -> Seq<char> {
    if w.len() == 0 {
        w
    } else {
        seq![text::upper(w[0])] + w.skip(1)
    }
}

/// The words of an identifier, each with its first letter in upper case.
pub open spec fn title_words(s: Seq<char>) -> Seq<Seq<char>> {
    words(spaced(s)).map_values(|w: Seq<char>| titled(w))
}

/// An identifier as a title.
pub open spec fn title(s: Seq<char>) -> Seq<char> {
    text::join(title_words(s), " "@)
}

proof fn lemma_words_open(s: Seq<char>)
    ensures
        s.len() > 0 && !text::is_white(s.last()) ==> words(s).len() > 0 && words(s).last().len() > 0,
    decreases s.len(),
{
    if s.len() > 0 && !text::is_white(s.last()) {
        lemma_words_open(s.drop_last());
    }
}

proof fn lemma_titled_push(w: Seq<char>, c: char)
    requires
        w.len() > 0,
    ensures
        titled(w.push(c)) == titled(w).push(c),
{
    assert(w.push(c).skip(1) =~= w.skip(1).push(c));
    assert(titled(w.push(c)) =~= titled(w).push(c));
}

/// An identifier as a title.
pub fn title_case_identifier(value: &str) -> (r: String)
    ensures
        r@ == title(value@),
{
    let chars = to_chars(value);
    let mut spaced_chars: Vec<char> = Vec::new();
    assert(spaced_chars@ =~= spaced(value@.take(0)));
    for i in 0..chars.len()
        invariant
            chars@ == value@,
            spaced_chars@ == spaced(value@.take(i as int)),
    {
        proof {
            assert(value@.take(i + 1).drop_last() =~= value@.take(i as int));
            assert(value@.take(i + 1).last() == value@[i as int]);
            if i > 0 {
                assert(value@.take(i as int).last() == value@[i - 1]);
            }
        }
        let c = chars[i];
        if c == '-' || c == '_' || c == '/' {
            spaced_chars.push(' ');
        } else {
            if i > 0 && ('A' <= c && c <= 'Z') {
                let b = chars[i - 1];
                if ('a' <= b && b <= 'z') || ('0' <= b && b <= '9') {
                    spaced_chars.push(' ');
                }
            }
            spaced_chars.push(c);
        }
    }
    assert(value@.take(chars@.len() as int) =~= value@);
    let ghost all = spaced(value@);
    let mut out: Vec<String> = Vec::new();
    let mut in_word = false;
    let ghost f = |w: Seq<char>| titled(w);
    assert(textmap::views(out@) =~= words(all.take(0)).map_values(f));
    for i in 0..spaced_chars.len()
        invariant
            spaced_chars@ == all,
            f == |w: Seq<char>| titled(w),
            textmap::views(out@) == words(all.take(i as int)).map_values(f),
            in_word == (i > 0 && !text::is_white(all[i - 1])),
    {
        proof {
            assert(all.take(i + 1).drop_last() =~= all.take(i as int));
            assert(all.take(i + 1).last() == all[i as int]);
            if i > 0 {
                assert(all.take(i as int).last() == all[i - 1]);
            }
            lemma_words_open(all.take(i as int));
        }
        let c = spaced_chars[i];
        let ghost before = textmap::views(out@);
        let ghost old_words = words(all.take(i as int));
        if char_is_white(c) {
            in_word = false;
        } else if !in_word {
            let mut w = owned("");
            w.push(char_upper(c));
            proof {
                reveal_strlit("");
                assert(w@ =~= titled(seq![c]));
            }
            out.push(w);
            in_word = true;
            proof {
                assert(textmap::views(out@) =~= before.push(f(seq![c])));
                assert(words(all.take(i + 1)) == old_words.push(seq![c]));
                assert(textmap::views(out@) =~= words(all.take(i + 1)).map_values(f));
            }
        } else {
            assert(before.len() == old_words.len() && before.len() == out@.len());
            let at: usize = out.len() - 1;
            assert(textmap::views(out@)[at as int] == f(old_words[at as int]));
            let mut w = out[at].clone();
            w.push(c);
            proof {
                lemma_titled_push(old_words.last(), c);
            }
            out.set(at, w);
            proof {
                let grown = old_words.drop_last().push(old_words.last().push(c));
                assert(words(all.take(i + 1)) == grown);
                let after = textmap::views(out@);
                assert forall|k: int| 0 <= k < grown.len() implies #[trigger] after[k] == grown.map_values(
                    f,
                )[k] by {
                    if k < at {
                        assert(after[k] == before[k]);
                        assert(grown[k] == old_words[k]);
                        assert(before[k] == f(old_words[k]));
                    } else {
                        assert(after[k] == titled(old_words.last()).push(c));
                    }
                }
                assert(after =~= grown.map_values(f));
            }
        }
    }
    assert(all.take(spaced_chars@.len() as int) =~= all);
    join_texts(&out, " ")
}

// ---------------------------------------------------------------------------------------------
// Groups
// ---------------------------------------------------------------------------------------------
/// The path of a variant's property in the report.
pub open spec fn variant_path(variant: Seq<char>, state: Seq<char>, prop: Seq<char>) -> Seq<char> {
    "Variants."@ + title(variant) + "."@ + title(state) + "."@ + title(prop)
}

/// The path of a size's property in the report.
pub open spec fn size_path(size: Seq<char>, prop: Seq<char>) -> Seq<char> {
    if size == DEFAULT_SIZE_KEY@ || size == "common"@ {
        "Sizes."@ + title(prop)
    } else {
        "Sizes."@ + title(size) + "."@ + title(prop)
    }
}

/// Group and path of what is reported of a variant, where that is what is reported.
pub open spec fn variant_entry(rest: Seq<char>) -> Option<(Seq<char>, Seq<char>)> {
    match text::split_at_first(rest, " variant "@) {
        Some((component, more)) => match text::split_at_first(more, " property "@) {
            Some((variant_state, prop)) => match text::split_at_first(variant_state, "/"@) {
                Some((variant, state)) => Some((title(component), variant_path(variant, state, prop))),
                None => None,
            },
            None => None,
        },
        None => None,
    }
}

/// Group and path of what is reported of a size, where that is what is reported.
pub open spec fn size_entry(rest: Seq<char>) -> Option<(Seq<char>, Seq<char>)> {
    match text::split_at_first(rest, " size "@) {
        Some((component, more)) => match text::split_at_first(more, " property "@) {
            Some((size, prop)) => Some((title(component), size_path(size, prop))),
            None => None,
        },
        None => None,
    }
}

/// Group and path of one thing that is missing.
pub open spec fn report_entry(item: Seq<char>) -> (Seq<char>, Seq<char>) {
    match text::after_prefix(item, "token "@) {
        Some(token) => ("Tokens"@, token),
        None => match text::after_prefix(item, "component "@) {
            Some(rest) => match variant_entry(rest) {
                Some(e) => e,
                None => match size_entry(rest) {
                    Some(e) => e,
                    None => ("Other"@, item),
                },
            },
            None => ("Other"@, item),
        },
    }
}

/// What is missing, by group.
pub open spec fn groups(items: Seq<Seq<char>>) -> Map<Seq<char>, Set<Seq<char>>>
    decreases items.len(),
{
    if items.len() == 0 {
        Map::empty()
    } else {
        let before = groups(items.drop_last());
        let (group, path) = report_entry(items.last());
        let paths = if before.dom().contains(group) {
            before[group]
        } else {
            Set::empty()
        };
        before.insert(group, paths.insert(path))
    }
}

/// The lines of a group.
pub open spec fn path_lines(paths: Seq<Seq<char>>) -> Seq<char>
    decreases paths.len(),
{
    if paths.len() == 0 {
        Seq::empty()
    } else {
        path_lines(paths.drop_last()) + "  "@ + paths.last() + "\n"@
    }
}

/// The lines of groups.
pub open spec fn group_lines(m: Map<Seq<char>, Set<Seq<char>>>, names: Seq<Seq<char>>) -> Seq<char>
    decreases names.len(),
{
    if names.len() == 0 {
        Seq::empty()
    } else {
        group_lines(m, names.drop_last()) + names.last() + "\n"@ + path_lines(
            textmap::sorted(m[names.last()]),
        ) + "\n"@
    }
}

/// The report: the groups in order, and in each of them what is missing, in order and each once.
pub open spec fn missing_report(items: Seq<Seq<char>>) -> Seq<char> {
    let m = groups(items);
    text::trim_end(
        "The following components/props are missing values:\n\n"@ + group_lines(m, textmap::sorted_keys(m)),
    )
}

fn dotted(a: &str, b: &str, c: &str, d: &str) -> (r: String)
    ensures
        r@ == a@ + b@ + "."@ + c@ + "."@ + d@,
{
    let mut s = owned(a);
    s.push_str(b);
    s.push_str(".");
    s.push_str(c);
    s.push_str(".");
    s.push_str(d);
    s
}

fn read_variant_entry(rest: &str) -> (r: Option<(String, String)>)
    ensures
        match r {
            Some(e) => variant_entry(rest@) == Some((e.0@, e.1@)),
            None => variant_entry(rest@) is None,
        },
{
    if let Some((component, more)) = split_once(rest, " variant ") {
        if let Some((variant_state, prop)) = split_once(more.as_str(), " property ") {
            if let Some((variant, state)) = split_once(variant_state.as_str(), "/") {
                return Some(
                    (
                        title_case_identifier(component.as_str()),
                        dotted(
                            "Variants.",
                            title_case_identifier(variant.as_str()).as_str(),
                            title_case_identifier(state.as_str()).as_str(),
                            title_case_identifier(prop.as_str()).as_str(),
                        ),
                    ),
                );
            }
        }
    }
    None
}

fn read_size_entry(rest: &str) -> (r: Option<(String, String)>)
    ensures
        match r {
            Some(e) => size_entry(rest@) == Some((e.0@, e.1@)),
            None => size_entry(rest@) is None,
        },
{
    if let Some((component, more)) = split_once(rest, " size ") {
        if let Some((size, prop)) = split_once(more.as_str(), " property ") {
            let mut path = owned("Sizes.");
            if !text_eq(size.as_str(), DEFAULT_SIZE_KEY) && !text_eq(size.as_str(), "common") {
                path.push_str(title_case_identifier(size.as_str()).as_str());
                path.push_str(".");
            }
            path.push_str(title_case_identifier(prop.as_str()).as_str());
            return Some((title_case_identifier(component.as_str()), path));
        }
    }
    None
}

fn read_entry(item: &str) -> (r: (String, String))
    ensures
        (r.0@, r.1@) == report_entry(item@),
{
    if let Some(token) = strip_prefix(item, "token ") {
        return (owned("Tokens"), token);
    }
    if let Some(rest) = strip_prefix(item, "component ") {
        if let Some(e) = read_variant_entry(rest.as_str()) {
            return e;
        }
        if let Some(e) = read_size_entry(rest.as_str()) {
            return e;
        }
    }
    (owned("Other"), owned(item))
}

fn write_paths(message: &mut String, paths: &TextSet)
    ensures
        final(message)@ == old(message)@ + path_lines(textmap::sorted(paths@)),
{
    let n: usize = paths.len();
    let ghost all = textmap::sorted(paths@);
    let ghost start = message@;
    assert(start =~= start + path_lines(all.take(0)));
    for i in 0..n
        invariant
            all == textmap::sorted(paths@),
            n == all.len(),
            message@ == start + path_lines(all.take(i as int)),
    {
        proof {
            assert(all.take(i + 1).drop_last() =~= all.take(i as int));
            assert(all.take(i + 1).last() == all[i as int]);
        }
        message.push_str("  ");
        message.push_str(paths.at(i).as_str());
        message.push_str("\n");
        assert(message@ =~= start + path_lines(all.take(i + 1)));
    }
    assert(all.take(n as int) =~= all);
}

/// The report on what is missing.
pub fn format_missing_base_values(missing: &Vec<String>) -> (r: String)
    ensures
        r@ == missing_report(textmap::views(missing@)),
{
    let ghost items = textmap::views(missing@);
    let mut grouped: TextMap<TextSet> = TextMap::new();
    for i in 0..missing.len()
        invariant
            items == textmap::views(missing@),
            grouped@ == groups(items.take(i as int)),
    {
        proof {
            assert(items.take(i + 1).drop_last() =~= items.take(i as int));
            assert(items.take(i + 1).last() == items[i as int]);
        }
        let (group, path) = read_entry(missing[i].as_str());
        if grouped.contains_key(group.as_str()) {
            grouped.slot_mut(group.as_str()).insert(path);
        } else {
            let mut paths = TextSet::new();
            paths.insert(path);
            grouped.insert(group, paths);
        }
    }
    assert(items.take(missing@.len() as int) =~= items);
    let mut message = owned("The following components/props are missing values:\n\n");
    let n: usize = grouped.len();
    let ghost names = textmap::sorted_keys(grouped@);
    let ghost start = message@;
    assert(start =~= start + group_lines(grouped@, names.take(0)));
    for i in 0..n
        invariant
            names == textmap::sorted_keys(grouped@),
            n == names.len(),
            message@ == start + group_lines(grouped@, names.take(i as int)),
    {
        proof {
            assert(names.take(i + 1).drop_last() =~= names.take(i as int));
            assert(names.take(i + 1).last() == names[i as int]);
        }
        message.push_str(grouped.key_at(i).as_str());
        message.push_str("\n");
        write_paths(&mut message, grouped.value_at(i));
        message.push_str("\n");
        assert(message@ =~= start + group_lines(grouped@, names.take(i + 1)));
    }
    assert(names.take(n as int) =~= names);
    trimmed_end(message.as_str())
}

// ---------------------------------------------------------------------------------------------
// Laws
// ---------------------------------------------------------------------------------------------
/// Everything that is missing is in its group, and nothing else is.
pub proof fn grouped_where_missing(items: Seq<Seq<char>>, group: Seq<char>, path: Seq<char>)
    ensures
        (groups(items).dom().contains(group) && groups(items)[group].contains(path)) <==> exists|i: int|
            0 <= i < items.len() && #[trigger] report_entry(items[i]) == (group, path),
    decreases items.len(),
{
    if items.len() > 0 {
        let front = items.drop_last();
        grouped_where_missing(front, group, path);
        if exists|i: int| 0 <= i < front.len() && #[trigger] report_entry(front[i]) == (group, path) {
            let i = choose|i: int| 0 <= i < front.len() && #[trigger] report_entry(front[i]) == (group, path);
            assert(report_entry(items[i]) == (group, path));
        }
        if exists|i: int| 0 <= i < items.len() && #[trigger] report_entry(items[i]) == (group, path) {
            let i = choose|i: int| 0 <= i < items.len() && #[trigger] report_entry(items[i]) == (group, path);
            if i < front.len() {
                assert(report_entry(front[i]) == (group, path));
            }
        }
        if report_entry(items.last()) == (group, path) {
            assert(report_entry(items[items.len() - 1]) == (group, path));
        }
    }
}

#[verifier::spinoff_prover]
proof fn lemma_first_spaced(a: Seq<char>, pat: Seq<char>, b: Seq<char>)
    requires
        pat.len() > 0,
        pat[0] == ' ',
        !a.contains(' '),
    ensures
        text::split_at_first(a + pat + b, pat) == Some((a, b)),
{
    let whole = a + pat + b;
    let n = a.len() as int;
    let m = pat.len() as int;
    assert(whole.subrange(n, n + m) =~= pat);
    text::lemma_find_from_least(whole, pat, 0, n);
    text::find_from_bounds(whole, pat, 0);
    let i = text::find_from(whole, pat, 0)->Some_0;
    assert(i == n) by {
        if i < n {
            assert(whole.subrange(i, i + m)[0] == whole[i]);
            assert(a[i] == whole[i]);
            assert(a.contains(a[i]));
        }
    }
    assert(whole.take(n) =~= a);
    assert(whole.skip(n + m) =~= b);
}

#[verifier::spinoff_prover]
proof fn lemma_first_slash(a: Seq<char>, b: Seq<char>)
    requires
        !a.contains('/'),
    ensures
        text::split_at_first(a + "/"@ + b, "/"@) == Some((a, b)),
{
    reveal_strlit("/");
    let pat = "/"@;
    let whole = a + pat + b;
    let n = a.len() as int;
    let m = pat.len() as int;
    assert(whole.subrange(n, n + m) =~= pat);
    text::lemma_find_from_least(whole, pat, 0, n);
    text::find_from_bounds(whole, pat, 0);
    let i = text::find_from(whole, pat, 0)->Some_0;
    assert(i == n) by {
        if i < n {
            assert(whole.subrange(i, i + m)[0] == whole[i]);
            assert(a[i] == whole[i]);
            assert(a.contains(a[i]));
        }
    }
    assert(whole.take(n) =~= a);
    assert(whole.skip(n + m) =~= b);
}

/// What is missing of a token is reported among the tokens by its path.
pub proof fn missing_token_is_grouped(key: Seq<char>)
    ensures
        report_entry("token "@ + key) == ("Tokens"@, key),
{
    let item = "token "@ + key;
    let n = "token "@.len() as int;
    assert(item.take(n) =~= "token "@);
    assert(item.skip(n) =~= key);
}

/// What is missing of a variant is reported in the group of its component, by its variant, state and
/// property.
pub proof fn missing_variant_is_grouped(
    component: Seq<char>,
    variant: Seq<char>,
    state: Seq<char>,
    prop: Seq<char>,
)
    requires
        !component.contains(' '),
        !variant.contains(' '),
        !variant.contains('/'),
        !state.contains(' '),
    ensures
        report_entry("component "@ + component + " variant "@ + variant + "/"@ + state + " property "@ + prop) == (
            title(component),
            "Variants."@ + title(variant) + "."@ + title(state) + "."@ + title(prop),
        ),
{
    reveal_strlit("token ");
    reveal_strlit("component ");
    reveal_strlit(" variant ");
    reveal_strlit(" property ");
    reveal_strlit("/");
    let item = "component "@ + component + " variant "@ + variant + "/"@ + state + " property "@ + prop;
    let n = "component "@.len() as int;
    assert(item[0] == 'c');
    assert("token "@[0] == 't');
    if "token "@.len() <= item.len() && item.take("token "@.len() as int) == "token "@ {
        assert(item.take("token "@.len() as int)[0] == item[0]);
    }
    assert(text::after_prefix(item, "token "@) is None);
    assert(item.take(n) =~= "component "@);
    let place = variant + "/"@ + state;
    let more = place + " property "@ + prop;
    let rest = component + " variant "@ + more;
    assert(item.skip(n) =~= rest);
    lemma_first_spaced(component, " variant "@, more);
    assert(!place.contains(' ')) by {
        if place.contains(' ') {
            let k = choose|k: int| 0 <= k < place.len() && place[k] == ' ';
            if k < variant.len() {
                assert(variant[k] == ' ');
            } else if k > variant.len() {
                assert(state[k - variant.len() - 1] == ' ');
            }
        }
    }
    lemma_first_spaced(place, " property "@, prop);
    lemma_first_slash(variant, state);
}

/// What is missing of a size is reported in the group of its component, by its size and property; of the
/// Common size by the property alone.
pub proof fn missing_size_is_grouped(component: Seq<char>, size: Seq<char>, prop: Seq<char>)
    requires
        !component.contains(' '),
        !size.contains(' '),
        !text::text_contains(component + " size "@ + size + " property "@ + prop, " variant "@),
    ensures
        report_entry("component "@ + component + " size "@ + size + " property "@ + prop) == (
            title(component),
            if size == DEFAULT_SIZE_KEY@ || size == "common"@ {
                "Sizes."@ + title(prop)
            } else {
                "Sizes."@ + title(size) + "."@ + title(prop)
            },
        ),
{
    reveal_strlit("token ");
    reveal_strlit("component ");
    reveal_strlit(" size ");
    reveal_strlit(" property ");
    let item = "component "@ + component + " size "@ + size + " property "@ + prop;
    let n = "component "@.len() as int;
    assert(item[0] == 'c');
    assert("token "@[0] == 't');
    if "token "@.len() <= item.len() && item.take("token "@.len() as int) == "token "@ {
        assert(item.take("token "@.len() as int)[0] == item[0]);
    }
    assert(text::after_prefix(item, "token "@) is None);
    assert(item.take(n) =~= "component "@);
    let more = size + " property "@ + prop;
    let rest = component + " size "@ + more;
    assert(rest =~= component + " size "@ + size + " property "@ + prop);
    assert(item.skip(n) =~= rest);
    lemma_first_spaced(component, " size "@, more);
    lemma_first_spaced(size, " property "@, prop);
}

proof fn lemma_path_line(paths: Seq<Seq<char>>, path: Seq<char>)
    requires
        paths.contains(path),
    ensures
        exists|a: Seq<char>, b: Seq<char>| path_lines(paths) == #[trigger] (a + ("  "@ + path + "\n"@) + b),
    decreases paths.len(),
{
    let l = "  "@ + path + "\n"@;
    let i = choose|i: int| 0 <= i < paths.len() && paths[i] == path;
    let before = path_lines(paths.drop_last());
    if i == paths.len() - 1 {
        assert(path_lines(paths) =~= before + l + Seq::<char>::empty());
    } else {
        assert(paths.drop_last()[i] == path);
        lemma_path_line(paths.drop_last(), path);
        let (a, b) = choose|a: Seq<char>, b: Seq<char>| before == #[trigger] (a + l + b);
        let c = b + "  "@ + paths.last() + "\n"@;
        assert(path_lines(paths) =~= a + l + c);
    }
}

/// Every path of a group has a line of its own in the lines of the group.
pub proof fn grouped_path_has_a_line(paths: Set<Seq<char>>, path: Seq<char>)
    requires
        paths.finite(),
        paths.contains(path),
    ensures
        exists|a: Seq<char>, b: Seq<char>|
            path_lines(textmap::sorted(paths)) == #[trigger] (a + ("  "@ + path + "\n"@) + b),
{
    textmap::sorted_lists(paths);
    lemma_path_line(textmap::sorted(paths), path);
}

proof fn lemma_group(m: Map<Seq<char>, Set<Seq<char>>>, names: Seq<Seq<char>>, name: Seq<char>)
    requires
        names.contains(name),
    ensures
        text::occurs(
            group_lines(m, names),
            name + "\n"@ + path_lines(textmap::sorted(m[name])) + "\n"@,
        ),
    decreases names.len(),
{
    let l = name + "\n"@ + path_lines(textmap::sorted(m[name])) + "\n"@;
    let i = choose|i: int| 0 <= i < names.len() && names[i] == name;
    let before = group_lines(m, names.drop_last());
    let all = group_lines(m, names);
    if i == names.len() - 1 {
        let n = before.len() as int;
        assert(all.subrange(n, n + l.len()) =~= l);
    } else {
        assert(names.drop_last()[i] == name);
        lemma_group(m, names.drop_last(), name);
        let k = choose|k: int|
            0 <= k && k + l.len() <= before.len() && #[trigger] before.subrange(k, k + l.len()) == l;
        assert(all.subrange(k, k + l.len()) =~= before.subrange(k, k + l.len()));
    }
}

/// Every group of the report stands in it with its name and, below, its paths in order.
pub proof fn every_group_is_reported(items: Seq<Seq<char>>, name: Seq<char>)
    requires
        groups(items).dom().finite(),
        groups(items).dom().contains(name),
    ensures
        text::occurs(
            group_lines(groups(items), textmap::sorted_keys(groups(items))),
            name + "\n"@ + path_lines(textmap::sorted(groups(items)[name])) + "\n"@,
        ),
{
    let m = groups(items);
    textmap::sorted_lists(m.dom());
    lemma_group(m, textmap::sorted_keys(m), name);
}

/// The report begins with its heading, goes on with its groups, and leaves out nothing but white space at
/// the end.
pub proof fn report_has_all_groups(items: Seq<Seq<char>>)
    ensures
        exists|b: Seq<char>|
            #![trigger text::all_white(b)]
            text::all_white(b) && "The following components/props are missing values:\n\n"@ + group_lines(
                groups(items),
                textmap::sorted_keys(groups(items)),
            ) == missing_report(items) + b,
{
    let whole = "The following components/props are missing values:\n\n"@ + group_lines(
        groups(items),
        textmap::sorted_keys(groups(items)),
    );
    let n = text::lemma_white_behind(whole);
    let b = whole.skip(n);
    assert(whole =~= missing_report(items) + b);
    assert(text::all_white(b));
}

} // verus!
