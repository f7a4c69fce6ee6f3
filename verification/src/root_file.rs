//! Themes without a parent in theme files.

use vstd::prelude::*;
use crate::json::{self, JsonModel};
use crate::reconcile::Plugins;
use crate::record_json::{self, Loaded};
use crate::records::{self, RecordModel, BASE_THEME_ID, BASE_THEME_NAME, LEGACY_DEFAULT_THEME_ID};
use crate::token_theme::{
    self, BorderWidths, FontWeights, Palette, RadiiModel, SizeScale, Spacing, TokenModel, TypographyModel,
};

verus! {

/// Whether all tokens of a theme are owned.
pub open spec fn owns_all(owned_keys: Set<Seq<char>>) -> bool {
    forall|k: Seq<char>| #[trigger] token_theme::token_theme_keys().contains(k) ==> owned_keys.contains(k)
}

proof fn lemma_owned(owned_keys: Set<Seq<char>>, i: int)
    requires
        owns_all(owned_keys),
        0 <= i < token_theme::token_table().len(),
    ensures
        owned_keys.contains(
            token_theme::token_key(token_theme::token_table()[i].0, token_theme::token_table()[i].1),
        ),
{
    assert(token_theme::token_theme_keys()[i] == token_theme::token_key(
        token_theme::token_table()[i].0,
        token_theme::token_table()[i].1,
    ));
    assert(token_theme::token_theme_keys().contains(token_theme::token_theme_keys()[i]));
}

proof fn lemma_palette_whole(s: Palette, section: Seq<char>, owned_keys: Set<Seq<char>>)
    requires
        owned_keys.contains(token_theme::token_key(section, "primary"@)),
        owned_keys.contains(token_theme::token_key(section, "primary-pressed"@)),
        owned_keys.contains(token_theme::token_key(section, "secondary"@)),
        owned_keys.contains(token_theme::token_key(section, "danger"@)),
        owned_keys.contains(token_theme::token_key(section, "surface"@)),
        owned_keys.contains(token_theme::token_key(section, "background"@)),
        owned_keys.contains(token_theme::token_key(section, "text"@)),
        owned_keys.contains(token_theme::token_key(section, "text-muted"@)),
        owned_keys.contains(token_theme::token_key(section, "transparent"@)),
    ensures
        s.patch(None, section, owned_keys) == s.written(),
        s.written().dom() != Set::<Seq<char>>::empty(),
{
    reveal(Palette::patch);
    assert(s.written().dom().contains("transparent"@));
}

proof fn lemma_spacing_whole(s: Spacing, section: Seq<char>, owned_keys: Set<Seq<char>>)
    requires
        owned_keys.contains(token_theme::token_key(section, "xs"@)),
        owned_keys.contains(token_theme::token_key(section, "sm"@)),
        owned_keys.contains(token_theme::token_key(section, "md"@)),
        owned_keys.contains(token_theme::token_key(section, "lg"@)),
        owned_keys.contains(token_theme::token_key(section, "xl"@)),
    ensures
        s.patch(None, section, owned_keys) == s.written(),
        s.written().dom() != Set::<Seq<char>>::empty(),
{
    reveal(Spacing::patch);
    assert(s.written().dom().contains("xl"@));
}

proof fn lemma_size_scale_whole(s: SizeScale, section: Seq<char>, owned_keys: Set<Seq<char>>)
    requires
        owned_keys.contains(token_theme::token_key(section, "sm"@)),
        owned_keys.contains(token_theme::token_key(section, "md"@)),
        owned_keys.contains(token_theme::token_key(section, "lg"@)),
    ensures
        s.patch(None, section, owned_keys) == s.written(),
        s.written().dom() != Set::<Seq<char>>::empty(),
{
    reveal(SizeScale::patch);
    assert(s.written().dom().contains("lg"@));
}

proof fn lemma_border_widths_whole(s: BorderWidths, section: Seq<char>, owned_keys: Set<Seq<char>>)
    requires
        owned_keys.contains(token_theme::token_key(section, "none"@)),
        owned_keys.contains(token_theme::token_key(section, "sm"@)),
        owned_keys.contains(token_theme::token_key(section, "focus"@)),
    ensures
        s.patch(None, section, owned_keys) == s.written(),
        s.written().dom() != Set::<Seq<char>>::empty(),
{
    reveal(BorderWidths::patch);
    assert(s.written().dom().contains("focus"@));
}

proof fn lemma_typography_whole(s: TypographyModel, section: Seq<char>, owned_keys: Set<Seq<char>>)
    requires
        owned_keys.contains(token_theme::token_key(section, "font-size-xs"@)),
        owned_keys.contains(token_theme::token_key(section, "font-size-caption"@)),
        owned_keys.contains(token_theme::token_key(section, "font-size-sm"@)),
        owned_keys.contains(token_theme::token_key(section, "font-size-md"@)),
        owned_keys.contains(token_theme::token_key(section, "font-size-lg"@)),
        owned_keys.contains(token_theme::token_key(section, "font-size-helper"@)),
        owned_keys.contains(token_theme::token_key(section, "font-primary"@)),
        owned_keys.contains(token_theme::token_key(section, "font-secondary"@)),
        owned_keys.contains(token_theme::token_key(section, "font-tertiary"@)),
    ensures
        s.patch(None, section, owned_keys) == s.written(),
        s.written().dom() != Set::<Seq<char>>::empty(),
{
    reveal(TypographyModel::patch);
    assert(s.written().dom().contains("font-tertiary"@));
}

proof fn lemma_font_weights_whole(s: FontWeights, section: Seq<char>, owned_keys: Set<Seq<char>>)
    requires
        owned_keys.contains(token_theme::token_key(section, "normal"@)),
        owned_keys.contains(token_theme::token_key(section, "medium"@)),
        owned_keys.contains(token_theme::token_key(section, "semibold"@)),
        owned_keys.contains(token_theme::token_key(section, "bold"@)),
    ensures
        s.patch(None, section, owned_keys) == s.written(),
        s.written().dom() != Set::<Seq<char>>::empty(),
{
    reveal(FontWeights::patch);
    assert(s.written().dom().contains("bold"@));
}

proof fn lemma_radii_whole(s: RadiiModel, section: Seq<char>, owned_keys: Set<Seq<char>>)
    requires
        owned_keys.contains(token_theme::token_key(section, "sm"@)),
        owned_keys.contains(token_theme::token_key(section, "md"@)),
        owned_keys.contains(token_theme::token_key(section, "lg"@)),
        owned_keys.contains(token_theme::token_key(section, "full"@)),
        owned_keys.contains(token_theme::token_key(section, "default"@)),
    ensures
        s.patch(None, section, owned_keys) == s.written(),
        s.written().dom() != Set::<Seq<char>>::empty(),
{
    reveal(RadiiModel::patch);
    assert(s.written().dom().contains("default"@));
}

proof fn lemma_own_light(s: Palette, owned_keys: Set<Seq<char>>)
    requires
        owns_all(owned_keys),
    ensures
        s.patch(None, "colors.light"@, owned_keys) == s.written(),
        s.written().dom() != Set::<Seq<char>>::empty(),
{
    let table = token_theme::token_table();
    assert(table[0] == ("colors.light"@, "primary"@));
    lemma_owned(owned_keys, 0);
    assert(table[1] == ("colors.light"@, "primary-pressed"@));
    lemma_owned(owned_keys, 1);
    assert(table[2] == ("colors.light"@, "secondary"@));
    lemma_owned(owned_keys, 2);
    assert(table[3] == ("colors.light"@, "danger"@));
    lemma_owned(owned_keys, 3);
    assert(table[4] == ("colors.light"@, "surface"@));
    lemma_owned(owned_keys, 4);
    assert(table[5] == ("colors.light"@, "background"@));
    lemma_owned(owned_keys, 5);
    assert(table[6] == ("colors.light"@, "text"@));
    lemma_owned(owned_keys, 6);
    assert(table[7] == ("colors.light"@, "text-muted"@));
    lemma_owned(owned_keys, 7);
    assert(table[8] == ("colors.light"@, "transparent"@));
    lemma_owned(owned_keys, 8);
    lemma_palette_whole(s, "colors.light"@, owned_keys);
}

proof fn lemma_own_dark(s: Palette, owned_keys: Set<Seq<char>>)
    requires
        owns_all(owned_keys),
    ensures
        s.patch(None, "colors.dark"@, owned_keys) == s.written(),
        s.written().dom() != Set::<Seq<char>>::empty(),
{
    let table = token_theme::token_table();
    assert(table[9] == ("colors.dark"@, "primary"@));
    lemma_owned(owned_keys, 9);
    assert(table[10] == ("colors.dark"@, "primary-pressed"@));
    lemma_owned(owned_keys, 10);
    assert(table[11] == ("colors.dark"@, "secondary"@));
    lemma_owned(owned_keys, 11);
    assert(table[12] == ("colors.dark"@, "danger"@));
    lemma_owned(owned_keys, 12);
    assert(table[13] == ("colors.dark"@, "surface"@));
    lemma_owned(owned_keys, 13);
    assert(table[14] == ("colors.dark"@, "background"@));
    lemma_owned(owned_keys, 14);
    assert(table[15] == ("colors.dark"@, "text"@));
    lemma_owned(owned_keys, 15);
    assert(table[16] == ("colors.dark"@, "text-muted"@));
    lemma_owned(owned_keys, 16);
    assert(table[17] == ("colors.dark"@, "transparent"@));
    lemma_owned(owned_keys, 17);
    lemma_palette_whole(s, "colors.dark"@, owned_keys);
}

proof fn lemma_own_spacing(s: Spacing, owned_keys: Set<Seq<char>>)
    requires
        owns_all(owned_keys),
    ensures
        s.patch(None, "spacing"@, owned_keys) == s.written(),
        s.written().dom() != Set::<Seq<char>>::empty(),
{
    let table = token_theme::token_table();
    assert(table[18] == ("spacing"@, "xs"@));
    lemma_owned(owned_keys, 18);
    assert(table[19] == ("spacing"@, "sm"@));
    lemma_owned(owned_keys, 19);
    assert(table[20] == ("spacing"@, "md"@));
    lemma_owned(owned_keys, 20);
    assert(table[21] == ("spacing"@, "lg"@));
    lemma_owned(owned_keys, 21);
    assert(table[22] == ("spacing"@, "xl"@));
    lemma_owned(owned_keys, 22);
    lemma_spacing_whole(s, "spacing"@, owned_keys);
}

proof fn lemma_own_control_size(s: SizeScale, owned_keys: Set<Seq<char>>)
    requires
        owns_all(owned_keys),
    ensures
        s.patch(None, "controlSize"@, owned_keys) == s.written(),
        s.written().dom() != Set::<Seq<char>>::empty(),
{
    let table = token_theme::token_table();
    assert(table[23] == ("controlSize"@, "sm"@));
    lemma_owned(owned_keys, 23);
    assert(table[24] == ("controlSize"@, "md"@));
    lemma_owned(owned_keys, 24);
    assert(table[25] == ("controlSize"@, "lg"@));
    lemma_owned(owned_keys, 25);
    lemma_size_scale_whole(s, "controlSize"@, owned_keys);
}

proof fn lemma_own_choice_control_size(s: SizeScale, owned_keys: Set<Seq<char>>)
    requires
        owns_all(owned_keys),
    ensures
        s.patch(None, "choiceControlSize"@, owned_keys) == s.written(),
        s.written().dom() != Set::<Seq<char>>::empty(),
{
    let table = token_theme::token_table();
    assert(table[26] == ("choiceControlSize"@, "sm"@));
    lemma_owned(owned_keys, 26);
    assert(table[27] == ("choiceControlSize"@, "md"@));
    lemma_owned(owned_keys, 27);
    assert(table[28] == ("choiceControlSize"@, "lg"@));
    lemma_owned(owned_keys, 28);
    lemma_size_scale_whole(s, "choiceControlSize"@, owned_keys);
}

proof fn lemma_own_switch_size(s: SizeScale, owned_keys: Set<Seq<char>>)
    requires
        owns_all(owned_keys),
    ensures
        s.patch(None, "switchSize"@, owned_keys) == s.written(),
        s.written().dom() != Set::<Seq<char>>::empty(),
{
    let table = token_theme::token_table();
    assert(table[29] == ("switchSize"@, "sm"@));
    lemma_owned(owned_keys, 29);
    assert(table[30] == ("switchSize"@, "md"@));
    lemma_owned(owned_keys, 30);
    assert(table[31] == ("switchSize"@, "lg"@));
    lemma_owned(owned_keys, 31);
    lemma_size_scale_whole(s, "switchSize"@, owned_keys);
}

proof fn lemma_own_icon_size(s: SizeScale, owned_keys: Set<Seq<char>>)
    requires
        owns_all(owned_keys),
    ensures
        s.patch(None, "iconSize"@, owned_keys) == s.written(),
        s.written().dom() != Set::<Seq<char>>::empty(),
{
    let table = token_theme::token_table();
    assert(table[32] == ("iconSize"@, "sm"@));
    lemma_owned(owned_keys, 32);
    assert(table[33] == ("iconSize"@, "md"@));
    lemma_owned(owned_keys, 33);
    assert(table[34] == ("iconSize"@, "lg"@));
    lemma_owned(owned_keys, 34);
    lemma_size_scale_whole(s, "iconSize"@, owned_keys);
}

proof fn lemma_own_border_width(s: BorderWidths, owned_keys: Set<Seq<char>>)
    requires
        owns_all(owned_keys),
    ensures
        s.patch(None, "borderWidth"@, owned_keys) == s.written(),
        s.written().dom() != Set::<Seq<char>>::empty(),
{
    let table = token_theme::token_table();
    assert(table[35] == ("borderWidth"@, "none"@));
    lemma_owned(owned_keys, 35);
    assert(table[36] == ("borderWidth"@, "sm"@));
    lemma_owned(owned_keys, 36);
    assert(table[37] == ("borderWidth"@, "focus"@));
    lemma_owned(owned_keys, 37);
    lemma_border_widths_whole(s, "borderWidth"@, owned_keys);
}

proof fn lemma_own_control_radius(s: SizeScale, owned_keys: Set<Seq<char>>)
    requires
        owns_all(owned_keys),
    ensures
        s.patch(None, "controlRadius"@, owned_keys) == s.written(),
        s.written().dom() != Set::<Seq<char>>::empty(),
{
    let table = token_theme::token_table();
    assert(table[38] == ("controlRadius"@, "sm"@));
    lemma_owned(owned_keys, 38);
    assert(table[39] == ("controlRadius"@, "md"@));
    lemma_owned(owned_keys, 39);
    assert(table[40] == ("controlRadius"@, "lg"@));
    lemma_owned(owned_keys, 40);
    lemma_size_scale_whole(s, "controlRadius"@, owned_keys);
}

proof fn lemma_own_control_padding_inline(s: SizeScale, owned_keys: Set<Seq<char>>)
    requires
        owns_all(owned_keys),
    ensures
        s.patch(None, "controlPaddingInline"@, owned_keys) == s.written(),
        s.written().dom() != Set::<Seq<char>>::empty(),
{
    let table = token_theme::token_table();
    assert(table[41] == ("controlPaddingInline"@, "sm"@));
    lemma_owned(owned_keys, 41);
    assert(table[42] == ("controlPaddingInline"@, "md"@));
    lemma_owned(owned_keys, 42);
    assert(table[43] == ("controlPaddingInline"@, "lg"@));
    lemma_owned(owned_keys, 43);
    lemma_size_scale_whole(s, "controlPaddingInline"@, owned_keys);
}

proof fn lemma_own_typography(s: TypographyModel, owned_keys: Set<Seq<char>>)
    requires
        owns_all(owned_keys),
    ensures
        s.patch(None, "typography"@, owned_keys) == s.written(),
        s.written().dom() != Set::<Seq<char>>::empty(),
{
    let table = token_theme::token_table();
    assert(table[44] == ("typography"@, "font-size-xs"@));
    lemma_owned(owned_keys, 44);
    assert(table[45] == ("typography"@, "font-size-caption"@));
    lemma_owned(owned_keys, 45);
    assert(table[46] == ("typography"@, "font-size-sm"@));
    lemma_owned(owned_keys, 46);
    assert(table[47] == ("typography"@, "font-size-md"@));
    lemma_owned(owned_keys, 47);
    assert(table[48] == ("typography"@, "font-size-lg"@));
    lemma_owned(owned_keys, 48);
    assert(table[49] == ("typography"@, "font-size-helper"@));
    lemma_owned(owned_keys, 49);
    assert(table[50] == ("typography"@, "font-primary"@));
    lemma_owned(owned_keys, 50);
    assert(table[51] == ("typography"@, "font-secondary"@));
    lemma_owned(owned_keys, 51);
    assert(table[52] == ("typography"@, "font-tertiary"@));
    lemma_owned(owned_keys, 52);
    lemma_typography_whole(s, "typography"@, owned_keys);
}

proof fn lemma_own_font_weight(s: FontWeights, owned_keys: Set<Seq<char>>)
    requires
        owns_all(owned_keys),
    ensures
        s.patch(None, "fontWeight"@, owned_keys) == s.written(),
        s.written().dom() != Set::<Seq<char>>::empty(),
{
    let table = token_theme::token_table();
    assert(table[53] == ("fontWeight"@, "normal"@));
    lemma_owned(owned_keys, 53);
    assert(table[54] == ("fontWeight"@, "medium"@));
    lemma_owned(owned_keys, 54);
    assert(table[55] == ("fontWeight"@, "semibold"@));
    lemma_owned(owned_keys, 55);
    assert(table[56] == ("fontWeight"@, "bold"@));
    lemma_owned(owned_keys, 56);
    lemma_font_weights_whole(s, "fontWeight"@, owned_keys);
}

proof fn lemma_own_radius(s: RadiiModel, owned_keys: Set<Seq<char>>)
    requires
        owns_all(owned_keys),
    ensures
        s.patch(None, "radius"@, owned_keys) == s.written(),
        s.written().dom() != Set::<Seq<char>>::empty(),
{
    let table = token_theme::token_table();
    assert(table[57] == ("radius"@, "sm"@));
    lemma_owned(owned_keys, 57);
    assert(table[58] == ("radius"@, "md"@));
    lemma_owned(owned_keys, 58);
    assert(table[59] == ("radius"@, "lg"@));
    lemma_owned(owned_keys, 59);
    assert(table[60] == ("radius"@, "full"@));
    lemma_owned(owned_keys, 60);
    assert(table[61] == ("radius"@, "default"@));
    lemma_owned(owned_keys, 61);
    lemma_radii_whole(s, "radius"@, owned_keys);
}

/// Where a theme without a parent owns all of its tokens, all of them are written.
pub proof fn owned_tokens_are_written(t: TokenModel, owned_keys: Set<Seq<char>>)
    requires
        owns_all(owned_keys),
    ensures
        t.patch(None, owned_keys) == t.written(),
{
    lemma_own_light(t.light, owned_keys);
    lemma_own_dark(t.dark, owned_keys);
    lemma_own_spacing(t.spacing, owned_keys);
    lemma_own_control_size(t.control_size, owned_keys);
    lemma_own_choice_control_size(t.choice_control_size, owned_keys);
    lemma_own_switch_size(t.switch_size, owned_keys);
    lemma_own_icon_size(t.icon_size, owned_keys);
    lemma_own_border_width(t.border_width, owned_keys);
    lemma_own_control_radius(t.control_radius, owned_keys);
    lemma_own_control_padding_inline(t.control_padding_inline, owned_keys);
    lemma_own_typography(t.typography, owned_keys);
    lemma_own_font_weight(t.font_weight, owned_keys);
    lemma_own_radius(t.radius, owned_keys);
    let light = Map::<Seq<char>, JsonModel>::empty().insert("light"@, JsonModel::Object(t.light.written()));
    let colors = light.insert("dark"@, JsonModel::Object(t.dark.written()));
    assert(colors.dom().contains("dark"@));
    assert(colors.dom() != Set::<Seq<char>>::empty());
}

/// Whether a theme without a parent is the base theme, by its name or by its identifier.
pub open spec fn is_base(record: RecordModel) -> bool {
    let id = records::identifier(records::json_id(record.meta));
    records::names_base(record.meta.name) || id == BASE_THEME_ID@ || id == LEGACY_DEFAULT_THEME_ID@
}

/// A theme without a parent that owns all of its tokens, all numbers, has them again when it is
/// written and read. It has its name again too, but a base theme is called by the one name.
pub proof fn written_root_is_read(
    record: RecordModel,
    plugins: Plugins,
    loaded: Loaded,
    existing: Seq<RecordModel>,
    base: TokenModel,
)
    requires
        owns_all(record.token_overrides),
        token_theme::all_finite(record.tokens),
    ensures
        ({
            let j = JsonModel::Object(record_json::record_json(record, None, plugins));
            let r = record_json::record_read(j, loaded, existing, base);
            &&& r is Ok
            &&& r->Ok_0.meta.parent_name is None
            &&& r->Ok_0.meta.name == if is_base(record) {
                BASE_THEME_NAME@
            } else {
                record.meta.name
            }
            &&& r->Ok_0.tokens == record.tokens
            &&& owns_all(r->Ok_0.token_overrides)
        }),
{
    record_json::record_keys_differ();
    let j = JsonModel::Object(record_json::record_json(record, None, plugins));
    let patch = record.tokens.patch(None, record.token_overrides);
    owned_tokens_are_written(record.tokens, record.token_overrides);
    assert(patch.dom().contains("radius"@));
    assert(json::at(j, "version"@) == Some(json::int_json(record_json::THEME_RECORD_SCHEMA_VERSION as i32)));
    assert(json::at(j, "name"@) == Some(JsonModel::Text(record.meta.name)));
    assert(json::at(j, "parent"@) is None);
    assert(json::at(j, "id"@) == Some(JsonModel::Text(records::json_id(record.meta))));
    assert(json::at(j, "tokens"@) == Some(JsonModel::Object(patch)));
    token_theme::written_tokens_are_read(
        record.tokens,
        record_json::file_start(j, loaded, existing, base).tokens,
    );
    assert forall|k: Seq<char>| #[trigger] token_theme::token_theme_keys().contains(k) implies record_json::file_record(
        j,
        loaded,
        existing,
        base,
    ).token_overrides.contains(k) by {
        token_theme::owned_tokens_are_given(record.tokens, None, record.token_overrides, k);
    }
}

} // verus!
