//! Themes: what they hold, how they are named, and how they follow one another.

use vstd::prelude::*;
use crate::chain;
use crate::loader::{self, builtin_component_specs, BuiltinComponentSpec};
use crate::sorting::{self, sort_all};
use crate::storage::{ComponentThemeData, ThemeData};
use crate::style::{self, copy_text};
use crate::text::{self, char_is_alnum, char_lower, owned, strip_trailing, text_eq, text_less, to_chars};
use crate::textmap::{self, Duplicate, TextMap, TextSet};
use crate::token_theme::{self, all_token_override_keys, TokenModel, TokenTheme};

verus! {

/// The name of the theme that all others are based on.
pub const BASE_THEME_NAME: &'static str = "Base Theme";

/// The name that the base theme had once.
pub const LEGACY_DEFAULT_THEME_NAME: &'static str = "Default Theme";

/// The identifier of the base theme.
pub const BASE_THEME_ID: &'static str = "base_theme";

/// The identifier that the base theme had once.
pub const LEGACY_DEFAULT_THEME_ID: &'static str = "default_theme";

/// Theme metadata.
#[derive(Debug, PartialEq)]
pub struct ThemeMeta {
    pub name: String,
    pub is_builtin: bool,
    pub parent_name: Option<String>,
}

/// The model of theme metadata.
#[verifier::ext_equal]
pub struct MetaModel {
    pub name: Seq<char>,
    pub is_builtin: bool,
    pub parent_name: Option<Seq<char>>,
}

impl View for ThemeMeta {
    type V = MetaModel;

    open spec fn view(&self) -> MetaModel {
        MetaModel {
            name: self.name@,
            is_builtin: self.is_builtin,
            parent_name: style::text_view(self.parent_name),
        }
    }
}

impl Duplicate for ThemeMeta {
    fn duplicate(&self) -> (r: Self) {
        ThemeMeta {
            name: self.name.clone(),
            is_builtin: self.is_builtin,
            parent_name: copy_text(&self.parent_name),
        }
    }
}

impl Clone for ThemeMeta {
    fn clone(&self) -> (r: Self)
        ensures
            r@ == self@,
    {
        self.duplicate()
    }
}

/// A theme: its tokens, which of them it owns, and the data of its components.
#[derive(Debug, PartialEq)]
pub struct ThemeRecord {
    pub meta: ThemeMeta,
    pub tokens: TokenTheme,
    pub token_overrides: TextSet,
    pub component_themes: TextMap<ComponentThemeData>,
}

/// The model of a theme.
#[verifier::ext_equal]
pub struct RecordModel {
    pub meta: MetaModel,
    pub tokens: TokenModel,
    pub token_overrides: Set<Seq<char>>,
    pub component_themes: Map<Seq<char>, ThemeData>,
}

impl View for ThemeRecord {
    type V = RecordModel;

    open spec fn view(&self) -> RecordModel {
        RecordModel {
            meta: self.meta@,
            tokens: self.tokens@,
            token_overrides: self.token_overrides@,
            component_themes: self.component_themes@,
        }
    }
}

impl Duplicate for ThemeRecord {
    fn duplicate(&self) -> (r: Self) {
        ThemeRecord {
            meta: self.meta.duplicate(),
            tokens: self.tokens.duplicate(),
            token_overrides: self.token_overrides.duplicate(),
            component_themes: self.component_themes.duplicate(),
        }
    }
}

impl Clone for ThemeRecord {
    fn clone(&self) -> (r: Self)
        ensures
            r@ == self@,
    {
        self.duplicate()
    }
}

// ---------------------------------------------------------------------------------------------
// Names
// ---------------------------------------------------------------------------------------------
/// The letters and digits of a name in lower case, with one underscore for each run of other
/// characters between them, and one in front of a leading digit.
pub open spec fn identifier_chars(s: Seq<char>) -> Seq<char>
    decreases s.len(),
{
    if s.len() == 0 {
        Seq::empty()
    } else {
        let before = identifier_chars(s.drop_last());
        let c = s.last();
        if text::is_alnum(c) {
            if before.len() == 0 && text::is_digit(c) {
                seq!['_', text::lower(c)]
            } else {
                before.push(text::lower(c))
            }
        } else if before.len() == 0 || before.last() == '_' {
            before
        } else {
            before.push('_')
        }
    }
}

/// The identifier of a name.
pub open spec fn identifier(s: Seq<char>) -> Seq<char> {
    let ident = text::without_trailing(identifier_chars(s), '_');
    if ident.len() == 0 {
        "theme"@
    } else {
        ident
    }
}

/// The identifier of a name.
pub fn normalize_theme_identifier(value: &str) -> (r: String)
    ensures
        r@ == identifier(value@),
{
    let chars = to_chars(value);
    let mut ident = owned("");
    let mut empty = true;
    let mut last_was_underscore = true;
    proof {
        reveal_strlit("");
        assert(ident@ =~= Seq::<char>::empty());
    }
    for i in 0..chars.len()
        invariant
            chars@ == value@,
            ident@ == identifier_chars(value@.take(i as int)),
            empty == (ident@.len() == 0),
            last_was_underscore == (ident@.len() == 0 || ident@.last() == '_'),
    {
        proof {
            assert(value@.take(i + 1).drop_last() =~= value@.take(i as int));
            assert(value@.take(i + 1).last() == value@[i as int]);
        }
        let c = chars[i];
        if char_is_alnum(c) {
            if empty && ('0' <= c && c <= '9') {
                ident.push('_');
            }
            ident.push(char_lower(c));
            assert(ident@ =~= identifier_chars(value@.take(i + 1)));
            empty = false;
            last_was_underscore = false;
        } else if !last_was_underscore {
            ident.push('_');
            last_was_underscore = true;
        }
    }
    assert(value@.take(chars@.len() as int) =~= value@);
    let ident = strip_trailing(ident.as_str(), '_');
    if text_eq(ident.as_str(), "") {
        owned("theme")
    } else {
        proof {
            assert(ident@.len() > 0) by {
                if ident@.len() == 0 {
                    reveal_strlit("");
                    assert(ident@ =~= ""@);
                }
            }
        }
        ident
    }
}

/// Whether a text is made as identifiers are: lower case letters, digits, and single underscores; at
/// the front an underscore only before a digit, and no digit.
pub open spec fn identifier_like(s: Seq<char>) -> bool {
    &&& forall|i: int|
        0 <= i < s.len() ==> (#[trigger] s[i]) == '_' || (text::is_alnum(s[i]) && text::lower(s[i]) == s[i])
    &&& forall|i: int| 0 <= i < s.len() - 1 ==> !(s[i] == '_' && #[trigger] s[i + 1] == '_')
    &&& s.len() > 0 ==> !text::is_digit(s[0])
    &&& s.len() > 0 && s[0] == '_' ==> s.len() > 1 && text::is_digit(s[1])
}

proof fn lemma_chars_like(s: Seq<char>)
    ensures
        identifier_like(identifier_chars(s)),
    decreases s.len(),
{
    if s.len() > 0 {
        lemma_chars_like(s.drop_last());
        let before = identifier_chars(s.drop_last());
        let r = identifier_chars(s);
        if before.len() > 0 {
            assert(before[0] == r[0]);
            if before.len() > 1 {
                assert(before[1] == r[1]);
            }
        }
        assert forall|i: int| 0 <= i < r.len() - 1 implies !(r[i] == '_' && #[trigger] r[i + 1] == '_') by {
            if i + 1 < before.len() {
                assert(before[i + 1] == r[i + 1] && before[i] == r[i]);
            }
        }
    }
}

proof fn lemma_like_stripped(s: Seq<char>)
    requires
        identifier_like(s),
    ensures
        identifier_like(text::without_trailing(s, '_')),
        text::without_trailing(s, '_').len() > 0 ==> text::without_trailing(s, '_').last() != '_',
    decreases s.len(),
{
    if s.len() > 0 && s.last() == '_' {
        let t = s.drop_last();
        assert forall|i: int| 0 <= i < t.len() - 1 implies !(t[i] == '_' && #[trigger] t[i + 1] == '_') by {
            assert(s[i + 1] == t[i + 1] && s[i] == t[i]);
        }
        lemma_like_stripped(t);
    }
}

proof fn lemma_like_kept(s: Seq<char>, n: int)
    requires
        identifier_like(s),
        0 <= n <= s.len(),
    ensures
        identifier_chars(s.take(n)) == (if n == 1 && s[0] == '_' {
            Seq::<char>::empty()
        } else {
            s.take(n)
        }),
    decreases n,
{
    if n > 0 {
        lemma_like_kept(s, n - 1);
        assert(s.take(n).drop_last() =~= s.take(n - 1));
        assert(s.take(n).last() == s[n - 1]);
        if n > 1 {
            assert(s.take(n - 1).last() == s[n - 2]);
            assert(!(s[n - 2] == '_' && s[(n - 2) + 1] == '_'));
        }
        assert(identifier_chars(s.take(n)) =~= (if n == 1 && s[0] == '_' {
            Seq::<char>::empty()
        } else {
            s.take(n)
        }));
    } else {
        assert(s.take(0) =~= Seq::<char>::empty());
    }
}

/// An identifier that is made of a name is never empty, is made as identifiers are, and does not end
/// in an underscore.
pub proof fn identifier_is_well_formed(name: Seq<char>)
    ensures
        identifier(name).len() > 0,
        identifier_like(identifier(name)),
        identifier(name).last() != '_',
{
    lemma_chars_like(name);
    lemma_like_stripped(identifier_chars(name));
    reveal_strlit("theme");
}

/// The identifier of an identifier is that identifier.
pub proof fn identifier_is_fixed(name: Seq<char>)
    ensures
        identifier(identifier(name)) == identifier(name),
{
    let t = identifier(name);
    lemma_chars_like(name);
    lemma_like_stripped(identifier_chars(name));
    reveal_strlit("theme");
    assert(identifier_like(t));
    lemma_like_kept(t, t.len() as int);
    assert(t.take(t.len() as int) =~= t);
    assert(t.last() != '_');
}

/// Whether a name is one of the base theme's.
pub open spec fn names_base(name: Seq<char>) -> bool {
    ||| name == BASE_THEME_NAME@
    ||| name == LEGACY_DEFAULT_THEME_NAME@
    ||| identifier(name) == BASE_THEME_ID@
    ||| identifier(name) == LEGACY_DEFAULT_THEME_ID@
}

/// Whether a name is one of the base theme's.
pub fn is_base_theme_name(name: &str) -> (r: bool)
    ensures
        r == names_base(name@),
{
    let ident = normalize_theme_identifier(name);
    text_eq(name, BASE_THEME_NAME) || text_eq(name, LEGACY_DEFAULT_THEME_NAME) || text_eq(
        ident.as_str(),
        BASE_THEME_ID,
    ) || text_eq(ident.as_str(), LEGACY_DEFAULT_THEME_ID)
}

/// Whether a theme is the base theme that comes with the editor.
pub open spec fn is_builtin_base(m: MetaModel) -> bool {
    m.is_builtin && names_base(m.name)
}

/// Whether a theme is the base theme that comes with the editor.
pub fn is_builtin_base_theme(theme: &ThemeRecord) -> (r: bool)
    ensures
        r == is_builtin_base(theme@.meta),
{
    theme.meta.is_builtin && is_base_theme_name(theme.meta.name.as_str())
}

/// The identifier of a theme in files.
pub open spec fn json_id(m: MetaModel) -> Seq<char> {
    if is_builtin_base(m) {
        BASE_THEME_ID@
    } else {
        identifier(m.name)
    }
}

/// The identifier of a theme in files.
pub fn theme_record_json_id(theme: &ThemeRecord) -> (r: String)
    ensures
        r@ == json_id(theme@.meta),
{
    if is_builtin_base_theme(theme) {
        owned(BASE_THEME_ID)
    } else {
        normalize_theme_identifier(theme.meta.name.as_str())
    }
}

/// The key of a color token of a scheme; `None` where it is none that can be edited.
pub open spec fn color_path(token: Seq<char>, is_dark: bool) -> Option<Seq<char>> {
    if token == "primary"@ || token == "primary-pressed"@ || token == "secondary"@ || token == "danger"@ || token
        == "surface"@ || token == "background"@ || token == "text"@ || token == "text-muted"@ {
        Some(
            token_theme::token_key(
                if is_dark {
                    "colors.dark"@
                } else {
                    "colors.light"@
                },
                token,
            ),
        )
    } else {
        None
    }
}

/// The key of a color token of a scheme.
pub fn color_token_override_path(token_name: &str, is_dark: bool) -> (r: Option<String>)
    ensures
        style::text_view(r) == color_path(token_name@, is_dark),
{
    if text_eq(token_name, "primary") || text_eq(token_name, "primary-pressed") || text_eq(
        token_name,
        "secondary",
    ) || text_eq(token_name, "danger") || text_eq(token_name, "surface") || text_eq(token_name, "background")
        || text_eq(token_name, "text") || text_eq(token_name, "text-muted") {
        let mut path = owned(
            if is_dark {
                "colors.dark"
            } else {
                "colors.light"
            },
        );
        path.push_str(".");
        path.push_str(token_name);
        Some(path)
    } else {
        None
    }
}

// ---------------------------------------------------------------------------------------------
// Lists of themes
// ---------------------------------------------------------------------------------------------
/// The index of the first theme with a name.
pub open spec fn index_by_name(themes: Seq<RecordModel>, name: Seq<char>) -> Option<int>
    decreases themes.len(),
{
    if themes.len() == 0 {
        None
    } else {
        let before = index_by_name(themes.drop_last(), name);
        if before is Some {
            before
        } else if themes.last().meta.name == name {
            Some(themes.len() - 1)
        } else {
            None
        }
    }
}

proof fn lemma_index_bounds(themes: Seq<RecordModel>, name: Seq<char>)
    ensures
        index_by_name(themes, name) matches Some(i) ==> 0 <= i < themes.len() && themes[i].meta.name == name,
        index_by_name(themes, name) is None ==> forall|i: int|
            0 <= i < themes.len() ==> (#[trigger] themes[i]).meta.name != name,
    decreases themes.len(),
{
    if themes.len() > 0 {
        lemma_index_bounds(themes.drop_last(), name);
        if index_by_name(themes, name) is None {
            assert forall|i: int| 0 <= i < themes.len() implies (#[trigger] themes[i]).meta.name != name by {
                if i < themes.len() - 1 {
                    assert(themes.drop_last()[i] == themes[i]);
                }
            }
        }
    }
}

proof fn lemma_index_stays(themes: Seq<RecordModel>, n: int, name: Seq<char>)
    requires
        0 <= n <= themes.len(),
        index_by_name(themes.take(n), name) is Some,
    ensures
        index_by_name(themes, name) == index_by_name(themes.take(n), name),
    decreases themes.len() - n,
{
    if n == themes.len() {
        assert(themes.take(n) =~= themes);
    } else {
        assert(themes.take(n + 1).drop_last() =~= themes.take(n));
        lemma_index_stays(themes, n + 1, name);
    }
}

/// An index as a mathematical one.
pub open spec fn index_view(i: Option<usize>) -> Option<int> {
    match i {
        Some(n) => Some(n as int),
        None => None,
    }
}

/// The index of the first theme with a name.
pub fn find_theme_index_by_name(themes: &Vec<ThemeRecord>, name: &str) -> (r: Option<usize>)
    ensures
        index_view(r) == index_by_name(textmap::views(themes@), name@),
        r matches Some(i) ==> i < themes@.len() && themes@[i as int]@.meta.name == name@,
{
    let ghost all = textmap::views(themes@);
    for i in 0..themes.len()
        invariant
            all == textmap::views(themes@),
            index_by_name(all.take(i as int), name@) is None,
    {
        proof {
            assert(all.take(i + 1).drop_last() =~= all.take(i as int));
            assert(all.take(i + 1).last() == all[i as int]);
        }
        if text_eq(themes[i].meta.name.as_str(), name) {
            proof {
                lemma_index_stays(all, i + 1, name@);
            }
            return Some(i);
        }
    }
    assert(all.take(themes@.len() as int) =~= all);
    None
}

/// The index of the first theme that is the base theme that comes with the editor.
pub open spec fn builtin_base_index(themes: Seq<RecordModel>) -> Option<int>
    decreases themes.len(),
{
    if themes.len() == 0 {
        None
    } else {
        let before = builtin_base_index(themes.drop_last());
        if before is Some {
            before
        } else if is_builtin_base(themes.last().meta) {
            Some(themes.len() - 1)
        } else {
            None
        }
    }
}

proof fn lemma_base_stays(themes: Seq<RecordModel>, n: int)
    requires
        0 <= n <= themes.len(),
        builtin_base_index(themes.take(n)) is Some,
    ensures
        builtin_base_index(themes) == builtin_base_index(themes.take(n)),
    decreases themes.len() - n,
{
    if n == themes.len() {
        assert(themes.take(n) =~= themes);
    } else {
        assert(themes.take(n + 1).drop_last() =~= themes.take(n));
        lemma_base_stays(themes, n + 1);
    }
}

/// The index of the base theme that comes with the editor.
pub fn find_builtin_base_theme(themes: &Vec<ThemeRecord>) -> (r: Option<usize>)
    ensures
        index_view(r) == builtin_base_index(textmap::views(themes@)),
        r matches Some(i) ==> i < themes@.len(),
{
    let ghost all = textmap::views(themes@);
    for i in 0..themes.len()
        invariant
            all == textmap::views(themes@),
            builtin_base_index(all.take(i as int)) is None,
    {
        proof {
            assert(all.take(i + 1).drop_last() =~= all.take(i as int));
            assert(all.take(i + 1).last() == all[i as int]);
        }
        if is_builtin_base_theme(&themes[i]) {
            proof {
                lemma_base_stays(all, i + 1);
            }
            return Some(i);
        }
    }
    assert(all.take(themes@.len() as int) =~= all);
    None
}

/// The index of the base theme: that which comes with the editor, or else the first theme.
pub open spec fn base_index(themes: Seq<RecordModel>) -> Option<int> {
    match builtin_base_index(themes) {
        Some(i) => Some(i),
        None => if themes.len() > 0 {
            Some(0)
        } else {
            None
        },
    }
}

/// The index of the base theme.
pub fn base_theme_index(themes: &Vec<ThemeRecord>) -> (r: Option<usize>)
    ensures
        index_view(r) == base_index(textmap::views(themes@)),
        r matches Some(i) ==> i < themes@.len(),
{
    match find_builtin_base_theme(themes) {
        Some(i) => Some(i),
        None => if themes.len() > 0 {
            Some(0)
        } else {
            None
        },
    }
}

/// The index of a theme's parent.
pub open spec fn parent_index(themes: Seq<RecordModel>, i: int) -> Option<int> {
    if 0 <= i < themes.len() {
        match themes[i].meta.parent_name {
            Some(name) => index_by_name(themes, name),
            None => None,
        }
    } else {
        None
    }
}

/// The index of a theme's parent.
pub fn explicit_parent_theme_index(themes: &Vec<ThemeRecord>, theme_idx: usize) -> (r: Option<usize>)
    ensures
        index_view(r) == parent_index(textmap::views(themes@), theme_idx as int),
        r matches Some(i) ==> i < themes@.len(),
{
    if theme_idx < themes.len() {
        match &themes[theme_idx].meta.parent_name {
            Some(name) => find_theme_index_by_name(themes, name.as_str()),
            None => None,
        }
    } else {
        None
    }
}

/// A theme's parent.
pub open spec fn parent_record(themes: Seq<RecordModel>, i: int) -> Option<RecordModel> {
    match parent_index(themes, i) {
        Some(p) => Some(themes[p]),
        None => None,
    }
}

/// A theme's parent.
pub fn explicit_parent_theme<'a>(themes: &'a Vec<ThemeRecord>, theme_idx: usize) -> (r: Option<&'a ThemeRecord>)
    ensures
        crate::schema::option_view(r) == parent_record(textmap::views(themes@), theme_idx as int),
{
    match explicit_parent_theme_index(themes, theme_idx) {
        Some(i) => Some(&themes[i]),
        None => None,
    }
}

// ---------------------------------------------------------------------------------------------
// Circles
// ---------------------------------------------------------------------------------------------
/// From a theme to its parent.
pub open spec fn to_parent(themes: Seq<RecordModel>) -> spec_fn(int) -> Option<int> {
    |i: int| parent_index(themes, i)
}

/// Whether a theme would be among its own ancestors, were it given a parent; also where the parent's
/// own ancestors run in a circle.
pub open spec fn would_cycle(themes: Seq<RecordModel>, i: int, candidate: Seq<char>) -> bool {
    match index_by_name(themes, candidate) {
        Some(p) => !chain::stops(to_parent(themes), p) || reaches(themes, p, i),
        None => false,
    }
}

/// Whether a theme is another one or among its ancestors.
pub open spec fn reaches(themes: Seq<RecordModel>, from: int, to: int) -> bool {
    exists|n: nat| #[trigger] chain::walk(to_parent(themes), from, n) == Some(to)
}

proof fn lemma_distinct_bound(visited: Seq<int>, n: int)
    requires
        0 <= n,
        visited.no_duplicates(),
        forall|i: int| 0 <= i < visited.len() ==> 0 <= #[trigger] visited[i] < n,
    ensures
        visited.len() <= n,
{
    if visited.len() > 0 {
        assert(0 <= visited[0] < n);
        visited.unique_seq_to_set();
        vstd::set_lib::lemma_int_range(0, n);
        let range = vstd::set_lib::set_int_range(0, n);
        assert(visited.to_set().subset_of(range));
        vstd::set_lib::lemma_len_subset(visited.to_set(), range);
    }
}

fn seen(visited: &Vec<usize>, index: usize) -> (r: Option<usize>)
    ensures
        match r {
            Some(k) => k < visited@.len() && visited@[k as int] == index,
            None => forall|k: int| 0 <= k < visited@.len() ==> #[trigger] visited@[k] != index,
        },
{
    for k in 0..visited.len()
        invariant
            forall|j: int| 0 <= j < k ==> #[trigger] visited@[j] != index,
    {
        if visited[k] == index {
            return Some(k);
        }
    }
    None
}

/// Whether a theme would be among its own ancestors, were it given a parent.
pub fn theme_parent_would_cycle(themes: &Vec<ThemeRecord>, theme_idx: usize, candidate_parent: &str) -> (r: bool)
    ensures
        r == would_cycle(textmap::views(themes@), theme_idx as int, candidate_parent@),
{
    let ghost all = textmap::views(themes@);
    let ghost next = to_parent(all);
    let first = match find_theme_index_by_name(themes, candidate_parent) {
        Some(i) => i,
        None => {
            return false;
        },
    };
    let mut visited: Vec<usize> = Vec::new();
    let mut index: usize = first;
    assert(chain::walk(next, first as int, 0) == Some(first as int));
    loop
        invariant
            all == textmap::views(themes@),
            next == to_parent(all),
            index_by_name(all, candidate_parent@) == Some(first as int),
            index < themes@.len(),
            visited@.len() <= themes@.len(),
            visited@.map_values(|v: usize| v as int).no_duplicates(),
            forall|k: int| 0 <= k < visited@.len() ==> #[trigger] visited@[k] < themes@.len() && visited@[k]
                != theme_idx && chain::walk(next, first as int, k as nat) == Some(visited@[k] as int),
            chain::walk(next, first as int, visited@.len()) == Some(index as int),
        decreases themes@.len() - visited@.len(),
    {
        let ghost n = visited@.len();
        if let Some(k) = seen(&visited, index) {
            proof {
                chain::circle_never_stops(next, first as int, k as nat, n);
            }
            return true;
        }
        if index == theme_idx {
            assert(reaches(all, first as int, theme_idx as int));
            return true;
        }
        let ghost before = visited@;
        visited.push(index);
        proof {
            let ints = visited@.map_values(|v: usize| v as int);
            assert forall|i: int, j: int| 0 <= i < ints.len() && 0 <= j < ints.len() && i != j implies ints[i]
                != ints[j] by {
                let olds = before.map_values(|v: usize| v as int);
                if i < n && j < n {
                    assert(olds[i] == ints[i] && olds[j] == ints[j]);
                } else if i < n {
                    assert(before[i] != index);
                } else {
                    assert(before[j] != index);
                }
            }
            assert forall|i: int| 0 <= i < ints.len() implies 0 <= #[trigger] ints[i] < themes@.len() by {
                assert(visited@[i] < themes@.len()) by {
                    if i < n {
                        assert(visited@[i] == before[i]);
                    }
                }
            }
            lemma_distinct_bound(ints, themes@.len() as int);
        }
        match explicit_parent_theme_index(themes, index) {
            Some(p) => {
                proof {
                    assert(chain::walk(next, first as int, (n + 1) as nat) == Some(p as int));
                }
                index = p;
            },
            None => {
                proof {
                    assert(chain::stops_after(next, first as int, n));
                    assert forall|m: nat| #[trigger] chain::walk(next, first as int, m) != Some(
                        theme_idx as int,
                    ) by {
                        if m > n {
                            chain::walk_past_end(next, first as int, n, m);
                        } else {
                            assert(visited@[m as int] != theme_idx);
                        }
                    }
                }
                return false;
            },
        }
    }
}

/// The themes with another parent for one of them.
pub open spec fn with_parent(themes: Seq<RecordModel>, i: int, parent: Option<Seq<char>>) -> Seq<RecordModel> {
    themes.update(
        i,
        RecordModel {
            meta: MetaModel { parent_name: parent, ..themes[i].meta },
            ..themes[i]
        },
    )
}

proof fn lemma_names_stay(themes: Seq<RecordModel>, i: int, parent: Option<Seq<char>>, name: Seq<char>)
    requires
        0 <= i < themes.len(),
    ensures
        index_by_name(with_parent(themes, i, parent), name) == index_by_name(themes, name),
    decreases themes.len(),
{
    let after = with_parent(themes, i, parent);
    if i < themes.len() - 1 {
        assert(after.drop_last() =~= with_parent(themes.drop_last(), i, parent));
        lemma_names_stay(themes.drop_last(), i, parent, name);
    } else {
        assert(after.drop_last() =~= themes.drop_last());
    }
}

proof fn lemma_same_walk(themes: Seq<RecordModel>, i: int, candidate: Seq<char>, p: int, n: nat)
    requires
        0 <= i < themes.len(),
        !reaches(themes, p, i),
    ensures
        chain::walk(to_parent(with_parent(themes, i, Some(candidate))), p, n) == chain::walk(
            to_parent(themes),
            p,
            n,
        ),
    decreases n,
{
    let after = with_parent(themes, i, Some(candidate));
    if n > 0 {
        lemma_same_walk(themes, i, candidate, p, (n - 1) as nat);
        if let Some(q) = chain::walk(to_parent(themes), p, (n - 1) as nat) {
            assert(q != i);
            if 0 <= q < themes.len() {
                assert(after[q] == themes[q]);
                if let Some(name) = themes[q].meta.parent_name {
                    lemma_names_stay(themes, i, Some(candidate), name);
                }
            }
        }
    }
}

proof fn lemma_still_stops(themes: Seq<RecordModel>, i: int, candidate: Seq<char>, j: int, n: nat)
    requires
        0 <= i < themes.len(),
        chain::stops_after(to_parent(themes), j, n),
        chain::stops(to_parent(with_parent(themes, i, Some(candidate))), i),
    ensures
        chain::stops(to_parent(with_parent(themes, i, Some(candidate))), j),
    decreases n,
{
    let next = to_parent(themes);
    let after = with_parent(themes, i, Some(candidate));
    let next2 = to_parent(after);
    if j != i {
        assert(next2(j) == next(j)) by {
            if 0 <= j < themes.len() {
                assert(after[j] == themes[j]);
                if let Some(name) = themes[j].meta.parent_name {
                    lemma_names_stay(themes, i, Some(candidate), name);
                }
            }
        }
        match next(j) {
            None => {
                assert(chain::walk(next2, j, 0) == Some(j));
                assert(chain::stops_after(next2, j, 0));
            },
            Some(q) => {
                assert(n > 0) by {
                    if n == 0 {
                        assert(chain::walk(next, j, 0) == Some(j));
                    }
                }
                chain::walk_rest(next, j, q, (n - 1) as nat);
                assert(chain::stops_after(next, q, (n - 1) as nat));
                lemma_still_stops(themes, i, candidate, q, (n - 1) as nat);
                chain::chain_end_of_rest(next2, j, q);
            },
        }
    }
}

/// Where no theme is among its own ancestors, none is after one has been given a parent with which
/// it would not be.
pub proof fn accepted_parent_keeps_order(themes: Seq<RecordModel>, i: int, candidate: Seq<char>)
    requires
        0 <= i < themes.len(),
        forall|j: int| 0 <= j < themes.len() ==> #[trigger] chain::stops(to_parent(themes), j),
        !would_cycle(themes, i, candidate),
    ensures
        forall|j: int|
            0 <= j < themes.len() ==> #[trigger] chain::stops(
                to_parent(with_parent(themes, i, Some(candidate))),
                j,
            ),
{
    let after = with_parent(themes, i, Some(candidate));
    let next = to_parent(themes);
    let next2 = to_parent(after);
    lemma_names_stay(themes, i, Some(candidate), candidate);
    match index_by_name(themes, candidate) {
        None => {
            assert(next2(i) is None);
            assert(chain::walk(next2, i, 0) == Some(i));
            assert(chain::stops_after(next2, i, 0));
        },
        Some(p) => {
            lemma_index_bounds(themes, candidate);
            assert(chain::stops(next, p));
            let n = choose|n: nat| chain::stops_after(next, p, n);
            lemma_same_walk(themes, i, candidate, p, n);
            lemma_same_walk(themes, i, candidate, p, (n + 1) as nat);
            assert(chain::walk(next, p, (n + 1) as nat) is None);
            assert(chain::walk(next2, p, (n + 1) as nat) is None);
            assert(chain::stops_after(next2, p, n));
            assert(next2(i) == Some(p));
            chain::chain_end_of_rest(next2, i, p);
        },
    }
    assert forall|j: int| 0 <= j < themes.len() implies #[trigger] chain::stops(next2, j) by {
        assert(chain::stops(next, j));
        let n = choose|n: nat| chain::stops_after(next, j, n);
        lemma_still_stops(themes, i, candidate, j, n);
    }
}

/// Where no theme is among its own ancestors, none is after one has been left without a parent.
pub proof fn orphan_keeps_order(themes: Seq<RecordModel>, i: int)
    requires
        0 <= i < themes.len(),
        forall|j: int| 0 <= j < themes.len() ==> #[trigger] chain::stops(to_parent(themes), j),
    ensures
        forall|j: int|
            0 <= j < themes.len() ==> #[trigger] chain::stops(to_parent(with_parent(themes, i, None)), j),
{
    let next = to_parent(themes);
    assert forall|j: int| 0 <= j < themes.len() implies #[trigger] chain::stops(
        to_parent(with_parent(themes, i, None)),
        j,
    ) by {
        assert(chain::stops(next, j));
        let n = choose|n: nat| chain::stops_after(next, j, n);
        lemma_orphan_stops(themes, i, j, n);
    }
}

proof fn lemma_orphan_stops(themes: Seq<RecordModel>, i: int, j: int, n: nat)
    requires
        0 <= i < themes.len(),
        chain::stops_after(to_parent(themes), j, n),
    ensures
        chain::stops(to_parent(with_parent(themes, i, None)), j),
    decreases n,
{
    let next = to_parent(themes);
    let after = with_parent(themes, i, None);
    let next2 = to_parent(after);
    if j == i {
        assert(next2(j) is None);
        assert(chain::walk(next2, j, 0) == Some(j));
        assert(chain::stops_after(next2, j, 0));
    } else {
        assert(next2(j) == next(j)) by {
            if 0 <= j < themes.len() {
                assert(after[j] == themes[j]);
                if let Some(name) = themes[j].meta.parent_name {
                    lemma_names_stay(themes, i, None, name);
                }
            }
        }
        match next(j) {
            None => {
                assert(chain::walk(next2, j, 0) == Some(j));
                assert(chain::stops_after(next2, j, 0));
            },
            Some(q) => {
                assert(n > 0) by {
                    if n == 0 {
                        assert(chain::walk(next, j, 0) == Some(j));
                    }
                }
                chain::walk_rest(next, j, q, (n - 1) as nat);
                assert(chain::stops_after(next, q, (n - 1) as nat));
                lemma_orphan_stops(themes, i, q, (n - 1) as nat);
                chain::chain_end_of_rest(next2, j, q);
            },
        }
    }
}

/// A theme whose name no other theme has is found by it.
pub proof fn index_of_only(themes: Seq<RecordModel>, i: int)
    requires
        0 <= i < themes.len(),
        forall|k: int| 0 <= k < themes.len() && k != i ==> (#[trigger] themes[k]).meta.name != themes[i].meta.name,
    ensures
        index_by_name(themes, themes[i].meta.name) == Some(i),
{
    lemma_index_bounds(themes, themes[i].meta.name);
}

/// No theme can be made its own parent.
pub proof fn own_name_would_cycle(themes: Seq<RecordModel>, i: int)
    requires
        0 <= i < themes.len(),
        index_by_name(themes, themes[i].meta.name) == Some(i),
    ensures
        would_cycle(themes, i, themes[i].meta.name),
{
    assert(chain::walk(to_parent(themes), i, 0) == Some(i));
}

// ---------------------------------------------------------------------------------------------
// Choices
// ---------------------------------------------------------------------------------------------
/// What can be chosen as a theme's parent, and which of it is chosen.
pub open spec fn parent_choices(themes: Seq<RecordModel>, current: Seq<char>, parent: Option<Seq<char>>) -> (
    Seq<Seq<char>>,
    int,
)
    decreases themes.len(),
{
    if themes.len() == 0 {
        (seq!["None"@], 0)
    } else {
        let (options, selected) = parent_choices(themes.drop_last(), current, parent);
        let name = themes.last().meta.name;
        if name == current {
            (options, selected)
        } else {
            (
                options.push(name),
                if parent == Some(name) {
                    options.len() as int
                } else {
                    selected
                },
            )
        }
    }
}

/// What can be chosen as the parent of a theme: nothing, or any other theme; and the index of what
/// is chosen.
pub fn parent_theme_options(themes: &Vec<ThemeRecord>, current_idx: usize) -> (r: (Vec<String>, i32))
    ensures
        ({
            let all = textmap::views(themes@);
            let (options, selected) = if current_idx < all.len() {
                parent_choices(
                    all,
                    all[current_idx as int].meta.name,
                    all[current_idx as int].meta.parent_name,
                )
            } else {
                parent_choices(all, Seq::empty(), None)
            };
            textmap::views(r.0@) == options && r.1 == selected as i32
        }),
{
    let (current, parent): (String, Option<String>) = if current_idx < themes.len() {
        (themes[current_idx].meta.name.clone(), copy_text(&themes[current_idx].meta.parent_name))
    } else {
        (owned(""), None)
    };
    proof {
        reveal_strlit("");
        assert(""@ =~= Seq::<char>::empty());
    }
    let ghost all = textmap::views(themes@);
    let mut options: Vec<String> = Vec::new();
    options.push(owned("None"));
    assert(textmap::views(options@) =~= seq!["None"@]);
    let mut selected: usize = 0;
    for i in 0..themes.len()
        invariant
            all == textmap::views(themes@),
            (textmap::views(options@), selected as int) == parent_choices(
                all.take(i as int),
                current@,
                style::text_view(parent),
            ),
    {
        proof {
            assert(all.take(i + 1).drop_last() =~= all.take(i as int));
            assert(all.take(i + 1).last() == all[i as int]);
        }
        let name = &themes[i].meta.name;
        if !text_eq(name.as_str(), current.as_str()) {
            let chosen = match &parent {
                Some(p) => text_eq(p.as_str(), name.as_str()),
                None => false,
            };
            if chosen {
                selected = options.len();
            }
            let ghost before = textmap::views(options@);
            options.push(name.clone());
            assert(textmap::views(options@) =~= before.push(name@));
        }
    }
    assert(all.take(themes@.len() as int) =~= all);
    (
        options,
        #[verifier::truncate]
        (selected as i32),
    )
}

impl Duplicate for BuiltinComponentSpec {
    fn duplicate(&self) -> (r: Self) {
        *self
    }
}

/// Whether a component's name comes before another's.
pub open spec fn component_before() -> spec_fn((Seq<char>, Seq<char>, Seq<char>), (Seq<char>, Seq<char>, Seq<char>)) -> bool {
    |a: (Seq<char>, Seq<char>, Seq<char>), b: (Seq<char>, Seq<char>, Seq<char>)| text::text_lt(a.1, b.1)
}

/// The components that come with the library, by the order of their names.
pub fn sorted_theme_component_specs() -> (r: Vec<BuiltinComponentSpec>)
    ensures
        textmap::views(r@) == sorting::in_order(loader::builtin_specs(), component_before()),
{
    let specs = builtin_component_specs();
    sort_all(
        &specs,
        |a: &BuiltinComponentSpec, b: &BuiltinComponentSpec| -> (c: bool)
            ensures
                c == text::text_lt(a@.1, b@.1)
            { text_less(a.component, b.component) },
        Ghost(component_before()),
    )
}

/// The order of the components is one.
pub proof fn component_order_orders()
    ensures
        sorting::orders(component_before()),
{
    let before = component_before();
    assert forall|a: (Seq<char>, Seq<char>, Seq<char>), b: (Seq<char>, Seq<char>, Seq<char>)| #[trigger]
        before(a, b) implies !before(b, a) by {
        text::text_lt_asymmetric(a.1, b.1);
    }
    assert forall|
        a: (Seq<char>, Seq<char>, Seq<char>),
        b: (Seq<char>, Seq<char>, Seq<char>),
        c: (Seq<char>, Seq<char>, Seq<char>),
    |
        #![trigger before(a, b), before(b, c)]
        !before(a, b) && !before(b, c) implies !before(a, c) by {
        lemma_not_before(a.1, b.1, c.1);
    }
}

proof fn lemma_not_before(a: Seq<char>, b: Seq<char>, c: Seq<char>)
    requires
        !text::text_lt(a, b),
        !text::text_lt(b, c),
    ensures
        !text::text_lt(a, c),
{
    if text::text_lt(a, c) {
        if a == b {
        } else {
            text::text_lt_total(a, b);
            text::text_lt_transitive(b, a, c);
        }
    }
}

/// The index of a component among those that come with the library, by the order of their names;
/// the first where it is none of them.
pub fn theme_component_index(component_key: &str) -> (r: i32)
    ensures
        ({
            let specs = sorting::in_order(loader::builtin_specs(), component_before());
            if exists|i: int| 0 <= i < specs.len() && (#[trigger] specs[i]).0 == component_key@ {
                &&& 0 <= r < specs.len()
                &&& specs[r as int].0 == component_key@
                &&& forall|i: int| 0 <= i < r ==> (#[trigger] specs[i]).0 != component_key@
            } else {
                r == 0
            }
        }),
{
    let specs = sorted_theme_component_specs();
    let ghost all = textmap::views(specs@);
    proof {
        sorting::in_order_members(loader::builtin_specs(), component_before());
    }
    let n: usize = specs.len();
    for i in 0..n
        invariant
            n == specs@.len(),
            n == 27,
            all == textmap::views(specs@),
            all == sorting::in_order(loader::builtin_specs(), component_before()),
            forall|j: int| 0 <= j < i ==> (#[trigger] all[j]).0 != component_key@,
    {
        if text_eq(specs[i].key, component_key) {
            assert(all[i as int].0 == component_key@);
            return i as i32;
        }
    }
    0
}

// ---------------------------------------------------------------------------------------------
// Resetting
// ---------------------------------------------------------------------------------------------
/// A component's data without its marks.
pub open spec fn unowned(themes: Map<Seq<char>, ThemeData>) -> Map<Seq<char>, ThemeData> {
    Map::new(|k: Seq<char>| themes.dom().contains(k), |k: Seq<char>| themes[k].unmarked())
}

/// Forgets which of the components' values a theme owns.
pub fn clear_component_override_ownership(record: &mut ThemeRecord)
    ensures
        final(record)@ == (RecordModel {
            component_themes: unowned(old(record)@.component_themes),
            ..old(record)@
        }),
{
    let cleared = record.component_themes.map_values(
        |k: &String, d: &ComponentThemeData| -> (u: ComponentThemeData)
            ensures
                u@ == d@.unmarked()
            {
                let mut u = d.duplicate();
                u.clear_local_override_flags();
                u
            },
    );
    assert(cleared@ =~= unowned(record.component_themes@));
    record.component_themes = cleared;
}

/// The tokens that a new theme owns: all where it has no parent, none where it has one.
pub open spec fn initial_overrides(parent: Option<Seq<char>>) -> Set<Seq<char>> {
    if parent is None {
        token_theme::every_token_key()
    } else {
        Set::empty()
    }
}

fn starting_overrides(parent: &Option<String>) -> (r: TextSet)
    ensures
        r@ == initial_overrides(style::text_view(*parent)),
{
    if parent.is_none() {
        all_token_override_keys()
    } else {
        TextSet::new()
    }
}

/// The index of the theme that a theme is reset to: its parent, or else the base theme; none where
/// that is the theme itself.
pub open spec fn baseline_index(themes: Seq<RecordModel>, i: int) -> Option<int> {
    let b = match parent_index(themes, i) {
        Some(p) => Some(p),
        None => base_index(themes),
    };
    if b == Some(i) {
        None
    } else {
        b
    }
}

/// A theme with everything but its metadata taken from another.
pub open spec fn reset_to(meta: MetaModel, baseline: RecordModel) -> RecordModel {
    RecordModel {
        meta,
        tokens: baseline.tokens,
        token_overrides: initial_overrides(meta.parent_name),
        component_themes: if meta.parent_name is Some {
            unowned(baseline.component_themes)
        } else {
            baseline.component_themes
        },
    }
}

/// Resets a theme to its parent, or else to the base theme.
pub fn reset_theme_record_from_baseline(themes: &mut Vec<ThemeRecord>, theme_idx: usize)
    ensures
        ({
            let before = textmap::views(old(themes)@);
            textmap::views(final(themes)@) == (if theme_idx < before.len() {
                match baseline_index(before, theme_idx as int) {
                    Some(b) => before.update(
                        theme_idx as int,
                        reset_to(before[theme_idx as int].meta, before[b]),
                    ),
                    None => before,
                }
            } else {
                before
            })
        }),
{
    if theme_idx >= themes.len() {
        return;
    }
    let baseline = match explicit_parent_theme_index(themes, theme_idx) {
        Some(p) => Some(p),
        None => base_theme_index(themes),
    };
    if let Some(b) = baseline {
        if b != theme_idx {
            let ghost before = textmap::views(themes@);
            let mut reset = themes[b].duplicate();
            reset.meta = themes[theme_idx].meta.duplicate();
            reset.token_overrides = starting_overrides(&reset.meta.parent_name);
            if reset.meta.parent_name.is_some() {
                clear_component_override_ownership(&mut reset);
            }
            themes.set(theme_idx, reset);
            assert(textmap::views(themes@) =~= before.update(
                theme_idx as int,
                reset_to(before[theme_idx as int].meta, before[b as int]),
            ));
        }
    }
}

} // verus!
