//! Plugin definitions made from component sources: what a `.slint` file declares, and the defaults
//! that its properties get.

use vstd::prelude::*;
use crate::loader::BuiltinComponentSpec;
use crate::scalar::{self, Scalar};
use crate::schema::{
    self, DefaultModel, DefaultValue, PluginDefinition, PluginModel, PropDefaults, PropDefinition,
    PropModel, Raw, Real, TokenOrValue,
};
use crate::slint_gen::has_text;
use crate::text::{self, capitalize, contains_text, join_texts, leading_word, owned, split_on, split_once, starts_with, strip_leading, strip_prefix, strip_trailing, text_eq, trimmed};
use crate::textmap::{self, duplicate_all, map_all, TextMap};

verus! {

// ---------------------------------------------------------------------------------------------
// Component sources
// ---------------------------------------------------------------------------------------------
/// A property that a component declares.
#[derive(Debug, PartialEq)]
pub struct ParsedProperty {
    pub declared_type: String,
    pub name: String,
}

impl View for ParsedProperty {
    type V = (Seq<char>, Seq<char>);

    open spec fn view(&self) -> (Seq<char>, Seq<char>) {
        (self.declared_type@, self.name@)
    }
}

/// An import: the names that it brings and the file that they come from.
#[derive(Debug, PartialEq)]
pub struct ParsedImport {
    pub symbols: Vec<String>,
    pub source: String,
}

impl View for ParsedImport {
    type V = (Seq<Seq<char>>, Seq<char>);

    open spec fn view(&self) -> (Seq<Seq<char>>, Seq<char>) {
        (textmap::views(self.symbols@), self.source@)
    }
}

/// A list of texts that can stand in a map.
#[derive(Debug, PartialEq)]
pub struct TextList {
    pub items: Vec<String>,
}

impl View for TextList {
    type V = Seq<Seq<char>>;

    open spec fn view(&self) -> Seq<Seq<char>> {
        textmap::views(self.items@)
    }
}

/// What a component file declares.
#[derive(Debug, PartialEq)]
pub struct ParsedComponentFile {
    pub enums: TextMap<TextList>,
    pub properties: Vec<ParsedProperty>,
    pub imports: Vec<ParsedImport>,
}

/// The model of what a component file declares, and of the enum that is still open.
#[verifier::ext_equal]
pub struct Declared {
    pub enums: Map<Seq<char>, Seq<Seq<char>>>,
    pub properties: Seq<(Seq<char>, Seq<char>)>,
    pub imports: Seq<(Seq<Seq<char>>, Seq<char>)>,
    pub open: Option<(Seq<char>, Seq<Seq<char>>)>,
}

impl View for ParsedComponentFile {
    type V = Declared;

    open spec fn view(&self) -> Declared {
        Declared {
            enums: self.enums@,
            properties: textmap::views(self.properties@),
            imports: textmap::views(self.imports@),
            open: None,
        }
    }
}

/// Whether a line begins an input property.
pub open spec fn begins_property(line: Seq<char>) -> bool {
    text::has_prefix(line, "in property <"@) || text::has_prefix(line, "in-out property <"@)
}

fn starts_property(line: &str) -> (r: bool)
    ensures
        r == begins_property(line@),
{
    starts_with(line, "in property <") || starts_with(line, "in-out property <")
}

/// The type of a property line, and what follows the type.
pub open spec fn typed_part(line: Seq<char>) -> Option<(Seq<char>, Seq<char>)> {
    match text::split_at_first(line, "property <"@) {
        None => None,
        Some((_, rest)) => match text::split_at_first(rest, ">"@) {
            None => None,
            Some((t, after)) => Some((text::trim(t), text::trim(after))),
        },
    }
}

fn split_type(line: &str) -> (r: Option<(String, String)>)
    ensures
        match r {
            Some((t, after)) => typed_part(line@) == Some((t@, after@)),
            None => typed_part(line@) is None,
        },
{
    match split_once(line, "property <") {
        None => None,
        Some((_, rest)) => match split_once(rest.as_str(), ">") {
            None => None,
            Some((t, after)) => Some((trimmed(t.as_str()), trimmed(after.as_str()))),
        },
    }
}

/// The property name that stands before a colon.
pub open spec fn name_part(after: Seq<char>) -> Option<Seq<char>> {
    text::first_word(text::split_char(after, ':')[0])
}

fn property_name(after: &str) -> (r: Option<String>)
    ensures
        match r {
            Some(n) => name_part(after@) == Some(n@),
            None => name_part(after@) is None,
        },
{
    let parts = split_on(after, ':');
    proof {
        text::split_char_some(after@, ':');
        assert(textmap::views(parts@)[0] == parts@[0]@);
    }
    leading_word(parts[0].as_str())
}

/// The types whose properties can be themed.
pub open spec fn themeable_type(t: Seq<char>) -> bool {
    t == "color"@ || t == "length"@ || t == "float"@ || t == "int"@ || t == "string"@
}

/// Whether a type's properties can be themed.
pub fn is_themeable_type(t: &str) -> (r: bool)
    ensures
        r == themeable_type(t@),
{
    text_eq(t, "color") || text_eq(t, "length") || text_eq(t, "float") || text_eq(t, "int")
        || text_eq(t, "string")
}

/// Whether a property varies by size: by its name.
pub open spec fn size_prop(name: Seq<char>) -> bool {
    ||| name == "font-family"@
    ||| name == "stroke-width"@
    ||| name == "border-width"@
    ||| text::text_contains(name, "size"@)
    ||| text::text_contains(name, "height"@)
    ||| text::text_contains(name, "radius"@)
    ||| text::text_contains(name, "padding"@)
}

/// Whether a property varies by size.
pub fn is_size_prop(prop_name: &str) -> (r: bool)
    ensures
        r == size_prop(prop_name@),
{
    text_eq(prop_name, "font-family") || text_eq(prop_name, "stroke-width") || text_eq(prop_name, "border-width") || contains_text(prop_name, "size") || contains_text(prop_name, "height") || contains_text(prop_name, "radius") || contains_text(prop_name, "padding")
}

/// Whether a property varies by variant: by its name.
pub open spec fn variant_prop(name: Seq<char>) -> bool {
    ||| name == "background"@
    ||| name == "foreground"@
    ||| name == "placeholder-color"@
    ||| name == "border-color"@
    ||| name == "border-color-focus"@
    ||| name == "border-color-error"@
    ||| name == "description-color"@
    ||| name == "error-color"@
    ||| name == "icon-color"@
    ||| name == "track-color"@
    ||| name == "track-border-color"@
    ||| name == "fill-color"@
    ||| name == "fill-color-override"@
    ||| name == "thumb-color"@
    ||| name == "thumb-border-color"@
    ||| name == "thumb-label-color"@
    ||| name == "label-color"@
    ||| name == "value-color"@
    ||| name == "text-color"@
    ||| name == "underline-color"@
    ||| name == "visited-color"@
    ||| name == "divider-color"@
    ||| name == "menu-background"@
    ||| name == "menu-border-color"@
    ||| name == "menu-border-width"@
    ||| name == "pressed-background"@
    ||| name == "separator-color"@
    ||| name == "accent-color-override"@
    ||| name == "button-opacity"@
    ||| name == "opacity"@
    ||| name == "font-weight"@
    ||| name == "touch-expansion"@
}

fn check_variant_prop(name: &str) -> (r: bool)
    ensures
        r == variant_prop(name@),
{
    text_eq(name, "background") || text_eq(name, "foreground") || text_eq(name, "placeholder-color") || text_eq(name, "border-color") || text_eq(name, "border-color-focus") || text_eq(name, "border-color-error") || text_eq(name, "description-color") || text_eq(name, "error-color") || text_eq(name, "icon-color") || text_eq(name, "track-color") || text_eq(name, "track-border-color") || text_eq(name, "fill-color") || text_eq(name, "fill-color-override") || text_eq(name, "thumb-color") || text_eq(name, "thumb-border-color") || text_eq(name, "thumb-label-color") || text_eq(name, "label-color") || text_eq(name, "value-color") || text_eq(name, "text-color") || text_eq(name, "underline-color") || text_eq(name, "visited-color") || text_eq(name, "divider-color") || text_eq(name, "menu-background") || text_eq(name, "menu-border-color") || text_eq(name, "menu-border-width") || text_eq(name, "pressed-background") || text_eq(name, "separator-color") || text_eq(name, "accent-color-override") || text_eq(name, "button-opacity") || text_eq(name, "opacity") || text_eq(name, "font-weight") || text_eq(name, "touch-expansion")
}

/// The property that a line declares, where it can be themed. White space around the line does not
/// count.
pub open spec fn themeable_property(whole: Seq<char>) -> Option<(Seq<char>, Seq<char>)> {
    let line = text::trim(whole);
    if !begins_property(line) {
        None
    } else {
        match typed_part(line) {
            None => None,
            Some((t, after)) => if !themeable_type(t) {
                None
            } else {
                match name_part(after) {
                    None => None,
                    Some(n) => if size_prop(n) || variant_prop(n) {
                        Some((t, n))
                    } else {
                        None
                    },
                }
            },
        }
    }
}

/// The property that a line declares, where it can be themed.
pub fn parse_themeable_property(line: &str) -> (r: Option<ParsedProperty>)
    ensures
        match r {
            Some(p) => themeable_property(line@) == Some(p@),
            None => themeable_property(line@) is None,
        },
{
    let line = trimmed(line);
    if !starts_property(line.as_str()) {
        return None;
    }
    match split_type(line.as_str()) {
        None => None,
        Some((declared_type, after)) => {
            if !is_themeable_type(declared_type.as_str()) {
                return None;
            }
            match property_name(after.as_str()) {
                None => None,
                Some(name) => {
                    if is_size_prop(name.as_str()) || check_variant_prop(name.as_str()) {
                        Some(ParsedProperty { declared_type, name })
                    } else {
                        None
                    }
                },
            }
        },
    }
}

/// The trimmed parts of a list that are not empty.
pub open spec fn listed_names(parts: Seq<Seq<char>>) -> Seq<Seq<char>>
    decreases parts.len(),
{
    if parts.len() == 0 {
        Seq::empty()
    } else {
        let front = listed_names(parts.drop_last());
        if text::trim(parts.last()).len() > 0 {
            front.push(text::trim(parts.last()))
        } else {
            front
        }
    }
}

/// The import that a line makes.
pub open spec fn import_of(line: Seq<char>) -> Option<(Seq<Seq<char>>, Seq<char>)> {
    match text::after_prefix(line, "import {"@) {
        None => None,
        Some(body) => match text::split_at_first(body, "} from "@) {
            None => None,
            Some((symbols, source)) => Some(
                (
                    listed_names(text::split_char(symbols, ',')),
                    text::without_trailing(
                        text::without_leading(
                            text::without_trailing(text::trim(source), ';'),
                            '"',
                        ),
                        '"',
                    ),
                ),
            ),
        },
    }
}

/// The import that a line makes.
pub fn parse_import_line(line: &str) -> (r: Option<ParsedImport>)
    ensures
        match r {
            Some(i) => import_of(line@) == Some(i@),
            None => import_of(line@) is None,
        },
{
    match strip_prefix(line, "import {") {
        None => None,
        Some(body) => match split_once(body.as_str(), "} from ") {
            None => None,
            Some((symbols_part, source_part)) => {
                let parts = split_on(symbols_part.as_str(), ',');
                let mut symbols: Vec<String> = Vec::new();
                let ghost all = textmap::views(parts@);
                assert(textmap::views(symbols@) =~= Seq::<Seq<char>>::empty());
                for i in 0..parts.len()
                    invariant
                        all == textmap::views(parts@),
                        textmap::views(symbols@) == listed_names(all.take(i as int)),
                {
                    proof {
                        assert(all.take(i + 1).drop_last() =~= all.take(i as int));
                        assert(all.take(i + 1).last() == all[i as int]);
                    }
                    let name = trimmed(parts[i].as_str());
                    if !name.as_str().is_empty() {
                        let ghost before = textmap::views(symbols@);
                        let ghost kept = name@;
                        symbols.push(name);
                        assert(textmap::views(symbols@) =~= before.push(kept));
                    }
                }
                assert(all.take(parts@.len() as int) =~= all);
                let plain = strip_trailing(trimmed(source_part.as_str()).as_str(), ';');
                let source = strip_trailing(strip_leading(plain.as_str(), '"').as_str(), '"');
                Some(ParsedImport { symbols, source })
            },
        },
    }
}

/// The enum that a line begins.
pub open spec fn enum_begun(line: Seq<char>) -> Option<Seq<char>> {
    match text::after_prefix(line, "export enum "@) {
        None => None,
        Some(rest) => text::first_word(rest),
    }
}

fn begin_enum(line: &str) -> (r: Option<String>)
    ensures
        match r {
            Some(n) => enum_begun(line@) == Some(n@),
            None => enum_begun(line@) is None,
        },
{
    match strip_prefix(line, "export enum ") {
        None => None,
        Some(rest) => leading_word(rest.as_str()),
    }
}

impl Declared {
    /// What is declared once the open enum is closed.
    pub open spec fn closed(self) -> Declared {
        match self.open {
            Some((name, values)) => Declared {
                enums: self.enums.insert(name, values),
                open: None,
                ..self
            },
            None => self,
        }
    }

    /// What is declared after one more line. Inside an enum a line is one of its values, unless it
    /// is empty or a comment; a closing brace ends the enum.
    pub open spec fn after_line(self, line: Seq<char>) -> Declared {
        match self.open {
            Some((name, values)) => {
                let value = text::without_trailing(line, ',');
                if value == "}"@ {
                    self.closed()
                } else if value.len() > 0 && !text::has_prefix(value, "//"@) {
                    Declared { open: Some((name, values.push(value))), ..self }
                } else {
                    self
                }
            },
            None => {
                let with_import = match import_of(line) {
                    Some(i) => Declared { imports: self.imports.push(i), ..self },
                    None => self,
                };
                match enum_begun(line) {
                    Some(name) => Declared { open: Some((name, Seq::empty())), ..with_import },
                    None => match themeable_property(line) {
                        Some(p) => Declared {
                            properties: with_import.properties.push(p),
                            ..with_import
                        },
                        None => with_import,
                    },
                }
            },
        }
    }
}

/// What the first `n` lines declare.
pub open spec fn declared_by(lines: Seq<Seq<char>>, n: int) -> Declared
    decreases n,
{
    if n <= 0 {
        Declared {
            enums: Map::empty(),
            properties: Seq::empty(),
            imports: Seq::empty(),
            open: None,
        }
    } else {
        declared_by(lines, n - 1).after_line(text::trim(lines[n - 1]))
    }
}

/// What a component file declares.
pub open spec fn declared(content: Seq<char>) -> Declared {
    let lines = text::split_char(content, '\n');
    declared_by(lines, lines.len() as int).closed()
}

/// What a component file declares.
pub fn parse_component_file(content: &str) -> (r: ParsedComponentFile)
    ensures
        r@ == declared(content@),
{
    let lines = split_on(content, '\n');
    let ghost all = textmap::views(lines@);
    let mut enums: TextMap<TextList> = TextMap::new();
    let mut properties: Vec<ParsedProperty> = Vec::new();
    let mut imports: Vec<ParsedImport> = Vec::new();
    let mut in_enum = false;
    let mut enum_name = String::new();
    let mut values: Vec<String> = Vec::new();
    proof {
        assert(textmap::views(properties@) =~= Seq::<(Seq<char>, Seq<char>)>::empty());
        assert(textmap::views(imports@) =~= Seq::<(Seq<Seq<char>>, Seq<char>)>::empty());
    }
    for i in 0..lines.len()
        invariant
            all == textmap::views(lines@),
            declared_by(all, i as int) == (Declared {
                enums: enums@,
                properties: textmap::views(properties@),
                imports: textmap::views(imports@),
                open: if in_enum {
                    Some((enum_name@, textmap::views(values@)))
                } else {
                    None
                },
            }),
    {
        let line = trimmed(lines[i].as_str());
        assert(all[i as int] == lines@[i as int]@);
        let ghost before = declared_by(all, i as int);
        if in_enum {
            let value = strip_trailing(line.as_str(), ',');
            if text_eq(value.as_str(), "}") {
                enums.insert(enum_name.clone(), TextList { items: values });
                values = Vec::new();
                in_enum = false;
            } else if !value.as_str().is_empty() && !starts_with(value.as_str(), "//") {
                let ghost seen = textmap::views(values@);
                let ghost kept = value@;
                values.push(value);
                assert(textmap::views(values@) =~= seen.push(kept));
            }
        } else {
            if let Some(import) = parse_import_line(line.as_str()) {
                let ghost seen = textmap::views(imports@);
                let ghost kept = import@;
                imports.push(import);
                assert(textmap::views(imports@) =~= seen.push(kept));
            }
            match begin_enum(line.as_str()) {
                Some(name) => {
                    enum_name = name;
                    values = Vec::new();
                    in_enum = true;
                    assert(textmap::views(values@) =~= Seq::<Seq<char>>::empty());
                },
                None => {
                    if let Some(property) = parse_themeable_property(line.as_str()) {
                        let ghost seen = textmap::views(properties@);
                        let ghost kept = property@;
                        properties.push(property);
                        assert(textmap::views(properties@) =~= seen.push(kept));
                    }
                },
            }
        }
    }
    if in_enum {
        enums.insert(enum_name, TextList { items: values });
    }
    ParsedComponentFile { enums, properties, imports }
}

/// The type of the first input property of a name. A property line without an end of its type ends
/// the search.
pub open spec fn property_type(lines: Seq<Seq<char>>, from: int, name: Seq<char>) -> Option<Seq<char>>
    decreases lines.len() - from,
{
    if from >= lines.len() {
        None
    } else {
        let line = text::trim(lines[from]);
        if !begins_property(line) {
            property_type(lines, from + 1, name)
        } else {
            match typed_part(line) {
                None => None,
                Some((t, after)) => {
                    let found = match name_part(after) {
                        Some(n) => n,
                        None => Seq::empty(),
                    };
                    if found == name {
                        Some(t)
                    } else {
                        property_type(lines, from + 1, name)
                    }
                },
            }
        }
    }
}

/// The type of the first input property of a name.
pub fn property_type_for_name(content: &str, name: &str) -> (r: Option<String>)
    ensures
        match r {
            Some(t) => property_type(text::split_char(content@, '\n'), 0, name@) == Some(t@),
            None => property_type(text::split_char(content@, '\n'), 0, name@) is None,
        },
{
    let lines = split_on(content, '\n');
    let ghost all = textmap::views(lines@);
    for i in 0..lines.len()
        invariant
            all == textmap::views(lines@),
            all == text::split_char(content@, '\n'),
            property_type(all, 0, name@) == property_type(all, i as int, name@),
    {
        let line = trimmed(lines[i].as_str());
        assert(all[i as int] == lines@[i as int]@);
        if starts_property(line.as_str()) {
            match split_type(line.as_str()) {
                None => {
                    return None;
                },
                Some((t, after)) => {
                    let found = match property_name(after.as_str()) {
                        Some(n) => n,
                        None => String::new(),
                    };
                    assert(name_part(after@) is None ==> found@ =~= Seq::<char>::empty());
                    if text_eq(found.as_str(), name) {
                        return Some(t);
                    }
                },
            }
        }
    }
    None
}

/// A file's text, or why it could not be read.
#[derive(Debug, PartialEq)]
pub enum SourceText {
    Read(String),
    Failed(String),
}

/// The model of a file's text.
#[verifier::ext_equal]
pub enum Source {
    Read(Seq<char>),
    Failed(Seq<char>),
}

impl View for SourceText {
    type V = Source;

    open spec fn view(&self) -> Source {
        match *self {
            SourceText::Read(s) => Source::Read(s@),
            SourceText::Failed(e) => Source::Failed(e@),
        }
    }
}

/// Files by the path under which they are imported.
pub type Sources = Map<Seq<char>, Source>;

/// The declarations of an imported file, or why there are none.
pub open spec fn imported(sources: Sources, path: Seq<char>) -> Result<Declared, Seq<char>> {
    match schema::entry(sources, path) {
        Some(Source::Read(content)) => Ok(declared(content)),
        Some(Source::Failed(e)) => Err(e),
        None => Err("Failed to read component file "@ + path),
    }
}

/// The values of an enum that the imports from `from` on bring.
pub open spec fn imported_enum(
    imports: Seq<(Seq<Seq<char>>, Seq<char>)>,
    from: int,
    sources: Sources,
    name: Seq<char>,
) -> Result<Option<Seq<Seq<char>>>, Seq<char>>
    decreases imports.len() - from,
{
    if from >= imports.len() {
        Ok(None)
    } else if !imports[from].0.contains(name) {
        imported_enum(imports, from + 1, sources, name)
    } else {
        match imported(sources, imports[from].1) {
            Err(e) => Err(e),
            Ok(d) => if d.enums.dom().contains(name) {
                Ok(Some(d.enums[name]))
            } else {
                imported_enum(imports, from + 1, sources, name)
            },
        }
    }
}

/// The values of an enum: the file's own, else what its imports bring.
pub open spec fn enum_values(d: Declared, sources: Sources, name: Seq<char>) -> Result<
    Option<Seq<Seq<char>>>,
    Seq<char>,
> {
    if d.enums.dom().contains(name) {
        Ok(Some(d.enums[name]))
    } else {
        imported_enum(d.imports, 0, sources, name)
    }
}

/// What a search for enum values found.
pub open spec fn found_values(r: Result<Option<Vec<String>>, String>) -> Result<
    Option<Seq<Seq<char>>>,
    Seq<char>,
> {
    match r {
        Ok(Some(v)) => Ok(Some(textmap::views(v@))),
        Ok(None) => Ok(None),
        Err(e) => Err(e@),
    }
}

fn read_import(sources: &TextMap<SourceText>, path: &str) -> (r: Result<ParsedComponentFile, String>)
    ensures
        match r {
            Ok(d) => imported(sources@, path@) == Ok::<Declared, Seq<char>>(d@),
            Err(e) => imported(sources@, path@) == Err::<Declared, Seq<char>>(e@),
        },
{
    match sources.get(path) {
        Some(SourceText::Read(content)) => Ok(parse_component_file(content.as_str())),
        Some(SourceText::Failed(e)) => Err(e.clone()),
        None => {
            let mut out = owned("Failed to read component file ");
            out.push_str(path);
            Err(out)
        },
    }
}

/// The values of an enum: the file's own, else what its imports bring.
pub fn resolve_enum_values(
    parsed: &ParsedComponentFile,
    sources: &TextMap<SourceText>,
    enum_name: &str,
) -> (r: Result<Option<Vec<String>>, String>)
    ensures
        found_values(r) == enum_values(parsed@, sources@, enum_name@),
{
    if let Some(values) = parsed.enums.get(enum_name) {
        return Ok(Some(duplicate_all(&values.items)));
    }
    let ghost all = textmap::views(parsed.imports@);
    for i in 0..parsed.imports.len()
        invariant
            all == textmap::views(parsed.imports@),
            imported_enum(all, 0, sources@, enum_name@) == imported_enum(
                all,
                i as int,
                sources@,
                enum_name@,
            ),
            !parsed@.enums.dom().contains(enum_name@),
    {
        let import = &parsed.imports[i];
        assert(all[i as int] == import@);
        if has_text(&import.symbols, enum_name) {
            match read_import(sources, import.source.as_str()) {
                Err(e) => {
                    return Err(e);
                },
                Ok(d) => {
                    if let Some(values) = d.enums.get(enum_name) {
                        return Ok(Some(duplicate_all(&values.items)));
                    }
                },
            }
        }
    }
    Ok(None)
}

/// The values of the enum that types an axis.
pub open spec fn axis_values(content: Seq<char>, sources: Sources, axis: Seq<char>) -> Result<
    Option<Seq<Seq<char>>>,
    Seq<char>,
> {
    match property_type(text::split_char(content, '\n'), 0, axis) {
        Some(t) => enum_values(declared(content), sources, t),
        None => Ok(None),
    }
}

fn axis_enum_values(
    content: &str,
    parsed: &ParsedComponentFile,
    sources: &TextMap<SourceText>,
    axis: &str,
) -> (r: Result<Option<Vec<String>>, String>)
    requires
        parsed@ == declared(content@),
    ensures
        found_values(r) == axis_values(content@, sources@, axis@),
{
    match property_type_for_name(content, axis) {
        Some(t) => resolve_enum_values(parsed, sources, t.as_str()),
        None => Ok(None),
    }
}

/// The values of the variant axis: that of `variant`, `tone` or `color`, whichever has an enum first.
pub open spec fn variant_axis(content: Seq<char>, sources: Sources) -> Result<
    Option<Seq<Seq<char>>>,
    Seq<char>,
> {
    match axis_values(content, sources, "variant"@) {
        Ok(None) => match axis_values(content, sources, "tone"@) {
            Ok(None) => axis_values(content, sources, "color"@),
            other => other,
        },
        other => other,
    }
}

fn variant_axis_values(
    content: &str,
    parsed: &ParsedComponentFile,
    sources: &TextMap<SourceText>,
) -> (r: Result<Option<Vec<String>>, String>)
    requires
        parsed@ == declared(content@),
    ensures
        found_values(r) == variant_axis(content@, sources@),
{
    match axis_enum_values(content, parsed, sources, "variant") {
        Ok(None) => match axis_enum_values(content, parsed, sources, "tone") {
            Ok(None) => axis_enum_values(content, parsed, sources, "color"),
            other => other,
        },
        other => other,
    }
}

/// The states that a component's text speaks of.
pub open spec fn inferred_states(content: Seq<char>) -> Seq<Seq<char>> {
    let a = seq!["normal"@];
    let b = if text::text_contains(content, "force-focused"@) || text::text_contains(
        content,
        "has-focus"@,
    ) {
        a.push("focused"@)
    } else {
        a
    };
    let c = if text::text_contains(content, "force-pressed"@) || text::text_contains(
        content,
        "pressed ?"@,
    ) || text::text_contains(content, "pressed-color"@) {
        b.push("pressed"@)
    } else {
        b
    };
    if text::text_contains(content, "disabled"@) {
        c.push("disabled"@)
    } else {
        c
    }
}

fn push_name(list: &mut Vec<String>, name: &str)
    ensures
        textmap::views(final(list)@) == textmap::views(old(list)@).push(name@),
{
    list.push(owned(name));
    assert(textmap::views(list@) =~= textmap::views(old(list)@).push(name@));
}

/// Whether a list of states names exactly the states that a text speaks of: `normal` first, `focused`
/// where it holds `force-focused` or `has-focus`, `pressed` where it holds `force-pressed`, `pressed ?`
/// or `pressed-color`, `disabled` where it holds `disabled`, each once, and no other.
pub open spec fn speaks_of_states(content: Seq<char>, states: Seq<Seq<char>>) -> bool {
    &&& states.len() > 0
    &&& states[0] == "normal"@
    &&& states.no_duplicates()
    &&& states.contains("focused"@) <==> text::occurs(content, "force-focused"@) || text::occurs(
        content,
        "has-focus"@,
    )
    &&& states.contains("pressed"@) <==> text::occurs(content, "force-pressed"@) || text::occurs(
        content,
        "pressed ?"@,
    ) || text::occurs(content, "pressed-color"@)
    &&& states.contains("disabled"@) <==> text::occurs(content, "disabled"@)
    &&& forall|s: Seq<char>| #[trigger]
        states.contains(s) ==> s == "normal"@ || s == "focused"@ || s == "pressed"@ || s == "disabled"@
}

/// The inferred states are exactly those that the text speaks of.
pub proof fn inferred_states_are_spoken_of(content: Seq<char>)
    ensures
        speaks_of_states(content, inferred_states(content)),
{
    reveal_strlit("normal");
    reveal_strlit("focused");
    reveal_strlit("pressed");
    reveal_strlit("disabled");
    assert("normal"@.len() == 6 && "focused"@.len() == 7 && "pressed"@.len() == 7 && "disabled"@.len() == 8);
    assert("focused"@[0] != "pressed"@[0]);
    text::contained_means_occurs(content, "force-focused"@);
    text::contained_means_occurs(content, "has-focus"@);
    text::contained_means_occurs(content, "force-pressed"@);
    text::contained_means_occurs(content, "pressed ?"@);
    text::contained_means_occurs(content, "pressed-color"@);
    text::contained_means_occurs(content, "disabled"@);
    let focused = text::occurs(content, "force-focused"@) || text::occurs(content, "has-focus"@);
    let pressed = text::occurs(content, "force-pressed"@) || text::occurs(content, "pressed ?"@)
        || text::occurs(content, "pressed-color"@);
    let disabled = text::occurs(content, "disabled"@);
    let states = inferred_states(content);
    assert(states[0] == "normal"@);
    let at_pressed: int = if focused {
        2
    } else {
        1
    };
    let at_disabled: int = if pressed {
        at_pressed + 1
    } else {
        at_pressed
    };
    if focused {
        assert(states[1] == "focused"@);
    }
    if pressed {
        assert(states[at_pressed] == "pressed"@);
    }
    if disabled {
        assert(states[at_disabled] == "disabled"@);
    }
}

/// The states that a component's text speaks of.
pub fn infer_states(content: &str) -> (r: Vec<String>)
    ensures
        textmap::views(r@) == inferred_states(content@),
        speaks_of_states(content@, textmap::views(r@)),
{
    proof {
        inferred_states_are_spoken_of(content@);
    }
    let mut states = vec![owned("normal")];
    assert(textmap::views(states@) =~= seq!["normal"@]);
    if contains_text(content, "force-focused") || contains_text(content, "has-focus") {
        push_name(&mut states, "focused");
    }
    if contains_text(content, "force-pressed") || contains_text(content, "pressed ?")
        || contains_text(content, "pressed-color") {
        push_name(&mut states, "pressed");
    }
    if contains_text(content, "disabled") {
        push_name(&mut states, "disabled");
    }
    states
}

// ---------------------------------------------------------------------------------------------
// Defaults of properties
// ---------------------------------------------------------------------------------------------
/// The schema type for a Slint type.
pub open spec fn schema_type(t: Seq<char>) -> Seq<char> {
    if t == "color"@ {
        "color"@
    } else if t == "int"@ {
        "int"@
    } else if t == "float"@ || t == "length"@ {
        "float"@
    } else {
        "string"@
    }
}

/// The schema type for a Slint type.
pub fn map_prop_type(declared_type: &str) -> (r: String)
    ensures
        r@ == schema_type(declared_type@),
{
    if text_eq(declared_type, "color") {
        owned("color")
    } else if text_eq(declared_type, "int") {
        owned("int")
    } else if text_eq(declared_type, "float") || text_eq(declared_type, "length") {
        owned("float")
    } else {
        owned("string")
    }
}

/// A family of accent tokens.
#[derive(Clone, Copy, Debug, PartialEq, Eq, Structural)]
pub enum AccentFamily {
    Primary,
    Danger,
    Success,
    Warning,
    Secondary,
    Neutral,
}

impl AccentFamily {
    /// The token of the family in the normal state.
    pub open spec fn normal(self) -> Seq<char> {
        match self {
            AccentFamily::Primary => "color.primary"@,
            AccentFamily::Danger => "color.danger"@,
            AccentFamily::Success => "color.success"@,
            AccentFamily::Warning => "color.warning"@,
            AccentFamily::Secondary => "color.secondary"@,
            AccentFamily::Neutral => "color.foreground"@,
        }
    }

    /// The token of the family in the pressed state.
    pub open spec fn pressed(self) -> Seq<char> {
        match self {
            AccentFamily::Primary => "color.primary.dark"@,
            AccentFamily::Danger => "color.danger.dark"@,
            AccentFamily::Success => "color.success"@,
            AccentFamily::Warning => "color.warning"@,
            AccentFamily::Secondary => "color.secondary.dark"@,
            AccentFamily::Neutral => "color.foreground.light"@,
        }
    }

    /// The token of the family in the focused state.
    pub open spec fn focus(self) -> Seq<char> {
        match self {
            AccentFamily::Primary => "color.primary"@,
            AccentFamily::Danger => "color.danger"@,
            AccentFamily::Success => "color.success"@,
            AccentFamily::Warning => "color.warning"@,
            AccentFamily::Secondary => "color.secondary.dark"@,
            AccentFamily::Neutral => "color.foreground"@,
        }
    }

    /// The token of the family in the normal state.
    pub fn normal_token(self) -> (r: &'static str)
        ensures
            r@ == self.normal(),
    {
        match self {
            AccentFamily::Primary => "color.primary",
            AccentFamily::Danger => "color.danger",
            AccentFamily::Success => "color.success",
            AccentFamily::Warning => "color.warning",
            AccentFamily::Secondary => "color.secondary",
            AccentFamily::Neutral => "color.foreground",
        }
    }

    /// The token of the family in the pressed state.
    pub fn pressed_token(self) -> (r: &'static str)
        ensures
            r@ == self.pressed(),
    {
        match self {
            AccentFamily::Primary => "color.primary.dark",
            AccentFamily::Danger => "color.danger.dark",
            AccentFamily::Success => "color.success",
            AccentFamily::Warning => "color.warning",
            AccentFamily::Secondary => "color.secondary.dark",
            AccentFamily::Neutral => "color.foreground.light",
        }
    }

    /// The token of the family in the focused state.
    pub fn focus_token(self) -> (r: &'static str)
        ensures
            r@ == self.focus(),
    {
        match self {
            AccentFamily::Primary => "color.primary",
            AccentFamily::Danger => "color.danger",
            AccentFamily::Success => "color.success",
            AccentFamily::Warning => "color.warning",
            AccentFamily::Secondary => "color.secondary.dark",
            AccentFamily::Neutral => "color.foreground",
        }
    }
}

/// The accent family of a component's variant.
pub open spec fn accent_of(component: Seq<char>, variant: Seq<char>) -> AccentFamily {
    if variant == "danger"@ || variant == "error"@ {
        AccentFamily::Danger
    } else if variant == "success"@ {
        AccentFamily::Success
    } else if variant == "warning"@ {
        AccentFamily::Warning
    } else if variant == "secondary"@ {
        AccentFamily::Secondary
    } else if variant == "neutral"@ {
        AccentFamily::Neutral
    } else if variant == "default"@ && component == "icon_button"@ {
        AccentFamily::Secondary
    } else {
        AccentFamily::Primary
    }
}

/// The accent family of a component's variant.
pub fn accent_token_for_variant(component_key: &str, variant: &str) -> (r: AccentFamily)
    ensures
        r == accent_of(component_key@, variant@),
{
    if text_eq(variant, "danger") || text_eq(variant, "error") {
        AccentFamily::Danger
    } else if text_eq(variant, "success") {
        AccentFamily::Success
    } else if text_eq(variant, "warning") {
        AccentFamily::Warning
    } else if text_eq(variant, "secondary") {
        AccentFamily::Secondary
    } else if text_eq(variant, "neutral") {
        AccentFamily::Neutral
    } else if text_eq(variant, "default") && text_eq(component_key, "icon_button") {
        AccentFamily::Secondary
    } else {
        AccentFamily::Primary
    }
}

/// Whether a component's background is the surface.
pub open spec fn on_surface(component: Seq<char>) -> bool {
    ||| component == "icon_button"@
    ||| component == "checkbox"@
    ||| component == "radio"@
    ||| component == "switch"@
    ||| component == "dropdown"@
    ||| component == "input"@
    ||| component == "search"@
    ||| component == "menu"@
    ||| component == "menu_item"@
    ||| component == "dialog"@
    ||| component == "sheet"@
    ||| component == "toast"@
    ||| component == "card"@
    ||| component == "accordion"@
    ||| component == "image"@
}

fn check_on_surface(component: &str) -> (r: bool)
    ensures
        r == on_surface(component@),
{
    text_eq(component, "icon_button") || text_eq(component, "checkbox") || text_eq(component, "radio") || text_eq(component, "switch") || text_eq(component, "dropdown") || text_eq(component, "input") || text_eq(component, "search") || text_eq(component, "menu") || text_eq(component, "menu_item") || text_eq(component, "dialog") || text_eq(component, "sheet") || text_eq(component, "toast") || text_eq(component, "card") || text_eq(component, "accordion") || text_eq(component, "image")
}

/// Whether a component has a border in every state.
pub open spec fn bordered(component: Seq<char>) -> bool {
    ||| component == "input"@
    ||| component == "search"@
    ||| component == "dropdown"@
    ||| component == "menu"@
    ||| component == "accordion"@
    ||| component == "dialog"@
    ||| component == "sheet"@
    ||| component == "toast"@
    ||| component == "card"@
    ||| component == "image"@
}

fn check_bordered(component: &str) -> (r: bool)
    ensures
        r == bordered(component@),
{
    text_eq(component, "input") || text_eq(component, "search") || text_eq(component, "dropdown") || text_eq(component, "menu") || text_eq(component, "accordion") || text_eq(component, "dialog") || text_eq(component, "sheet") || text_eq(component, "toast") || text_eq(component, "card") || text_eq(component, "image")
}

/// The background token of a component in a state.
pub open spec fn background_of(component: Seq<char>, accent: AccentFamily, state: Seq<char>) -> Seq<char> {
    if on_surface(component) {
        if state == "pressed"@ {
            "color.secondary.dark"@
        } else {
            "color.surface"@
        }
    } else if state == "pressed"@ {
        accent.pressed()
    } else {
        accent.normal()
    }
}

/// The foreground token of a component's variant.
pub open spec fn foreground_of(component: Seq<char>, accent: AccentFamily, variant: Seq<char>) -> Seq<char> {
    if component == "chip"@ || component == "button"@ {
        if variant == "primary"@ || variant == "danger"@ {
            "color.white"@
        } else {
            "color.foreground"@
        }
    } else if accent == AccentFamily::Secondary || accent == AccentFamily::Neutral {
        "color.foreground"@
    } else {
        accent.normal()
    }
}

/// The border token of a component in a state.
pub open spec fn border_of(component: Seq<char>, accent: AccentFamily, state: Seq<char>) -> Seq<char> {
    if state == "focused"@ {
        accent.focus()
    } else if bordered(component) {
        "color.border"@
    } else {
        "color.transparent"@
    }
}

fn background_token_for_state(component_key: &str, accent: AccentFamily, state: &str) -> (r: &'static str)
    ensures
        r@ == background_of(component_key@, accent, state@),
{
    if check_on_surface(component_key) {
        if text_eq(state, "pressed") {
            "color.secondary.dark"
        } else {
            "color.surface"
        }
    } else if text_eq(state, "pressed") {
        accent.pressed_token()
    } else {
        accent.normal_token()
    }
}

fn foreground_token_for_variant(component_key: &str, accent: AccentFamily, variant: &str) -> (r: &'static str)
    ensures
        r@ == foreground_of(component_key@, accent, variant@),
{
    if text_eq(component_key, "chip") || text_eq(component_key, "button") {
        if text_eq(variant, "primary") || text_eq(variant, "danger") {
            "color.white"
        } else {
            "color.foreground"
        }
    } else if accent == AccentFamily::Secondary || accent == AccentFamily::Neutral {
        "color.foreground"
    } else {
        accent.normal_token()
    }
}

fn border_token_for_state(component_key: &str, accent: AccentFamily, state: &str) -> (r: &'static str)
    ensures
        r@ == border_of(component_key@, accent, state@),
{
    if text_eq(state, "focused") {
        accent.focus_token()
    } else if check_bordered(component_key) {
        "color.border"
    } else {
        "color.transparent"
    }
}

/// The long name of a size.
pub open spec fn long_size(size: Seq<char>) -> Seq<char> {
    if size == "sm"@ {
        "small"@
    } else if size == "md"@ {
        "medium"@
    } else if size == "lg"@ {
        "large"@
    } else {
        size
    }
}

/// One of three values by size: small, large, and any other.
pub open spec fn by_size<T>(size: Seq<char>, small: T, other: T, large: T) -> T {
    if long_size(size) == "small"@ {
        small
    } else if long_size(size) == "large"@ {
        large
    } else {
        other
    }
}

fn pick_text(size: &str, small: &'static str, other: &'static str, large: &'static str) -> (r: &'static str)
    ensures
        r@ == by_size(size@, small@, other@, large@),
{
    if size_is_small(size) {
        small
    } else if size_is_large(size) {
        large
    } else {
        other
    }
}

fn pick_number(size: &str, small: i32, other: i32, large: i32) -> (r: i32)
    ensures
        r == by_size(size@, small, other, large),
{
    if size_is_small(size) {
        small
    } else if size_is_large(size) {
        large
    } else {
        other
    }
}

fn long_name(size: &str) -> (r: &str)
    ensures
        r@ == long_size(size@),
{
    if text_eq(size, "sm") {
        "small"
    } else if text_eq(size, "md") {
        "medium"
    } else if text_eq(size, "lg") {
        "large"
    } else {
        size
    }
}

fn size_is_small(size: &str) -> (r: bool)
    ensures
        r == (long_size(size@) == "small"@),
{
    text_eq(long_name(size), "small")
}

fn size_is_large(size: &str) -> (r: bool)
    ensures
        r == (long_size(size@) == "large"@),
{
    text_eq(long_name(size), "large")
}

/// The default of a numeric property in a size.
pub open spec fn numeric_default(name: Seq<char>, size: Seq<char>) -> i32 {
    if name == "border-width"@ {
        1
    } else if name == "menu-height"@ {
        172
    } else if name == "field-height"@ {
        42
    } else if name == "control-size"@ {
        by_size(size, 32i32, 40i32, 48i32)
    } else if name == "icon-size"@ {
        by_size(size, 16i32, 18i32, 20i32)
    } else if name == "bar-height"@ {
        10
    } else if name == "spinner-size"@ {
        by_size(size, 18i32, 26i32, 36i32)
    } else if name == "stroke-width"@ {
        by_size(size, 2i32, 3i32, 4i32)
    } else if name == "padding"@ {
        4
    } else {
        14
    }
}

/// The default of a numeric property in a size.
pub fn default_numeric_value(prop_name: &str, size: &str) -> (r: i32)
    ensures
        r == numeric_default(prop_name@, size@),
{
    if text_eq(prop_name, "border-width") {
        1
    } else if text_eq(prop_name, "menu-height") {
        172
    } else if text_eq(prop_name, "field-height") {
        42
    } else if text_eq(prop_name, "control-size") {
        pick_number(size, 32, 40, 48)
    } else if text_eq(prop_name, "icon-size") {
        pick_number(size, 16, 18, 20)
    } else if text_eq(prop_name, "bar-height") {
        10
    } else if text_eq(prop_name, "spinner-size") {
        pick_number(size, 18, 26, 36)
    } else if text_eq(prop_name, "stroke-width") {
        pick_number(size, 2, 3, 4)
    } else if text_eq(prop_name, "padding") {
        4
    } else {
        14
    }
}

/// The default color token of a property in a component's variant and state.
pub open spec fn color_default(
    component: Seq<char>,
    name: Seq<char>,
    variant: Seq<char>,
    state: Seq<char>,
) -> Seq<char> {
    let accent = accent_of(component, variant);
    if name == "background"@ {
        background_of(component, accent, state)
    } else if name == "foreground"@ || name == "icon-color"@ {
        foreground_of(component, accent, variant)
    } else if name == "placeholder-color"@ {
        "color.foreground.light"@
    } else if name == "border-color"@ {
        border_of(component, accent, state)
    } else if name == "border-color-focus"@ {
        accent.focus()
    } else if name == "border-color-error"@ {
        "color.danger"@
    } else if name == "track-color"@ {
        "color.secondary"@
    } else if name == "fill-color-override"@ || name == "accent-color-override"@ {
        accent.normal()
    } else {
        "color.foreground"@
    }
}

fn color_token(component_key: &str, prop_name: &str, variant: &str, state: &str) -> (r: &'static str)
    ensures
        r@ == color_default(component_key@, prop_name@, variant@, state@),
{
    let accent = accent_token_for_variant(component_key, variant);
    if text_eq(prop_name, "background") {
        background_token_for_state(component_key, accent, state)
    } else if text_eq(prop_name, "foreground") || text_eq(prop_name, "icon-color") {
        foreground_token_for_variant(component_key, accent, variant)
    } else if text_eq(prop_name, "placeholder-color") {
        "color.foreground.light"
    } else if text_eq(prop_name, "border-color") {
        border_token_for_state(component_key, accent, state)
    } else if text_eq(prop_name, "border-color-focus") {
        accent.focus_token()
    } else if text_eq(prop_name, "border-color-error") {
        "color.danger"
    } else if text_eq(prop_name, "track-color") {
        "color.secondary"
    } else if text_eq(prop_name, "fill-color-override") || text_eq(
        prop_name,
        "accent-color-override",
    ) {
        accent.normal_token()
    } else {
        "color.foreground"
    }
}

/// The default of a property in a component's variant and state.
pub open spec fn generated_variant_default(
    component: Seq<char>,
    name: Seq<char>,
    prop_type: Seq<char>,
    variant: Seq<char>,
    state: Seq<char>,
) -> Raw {
    if prop_type == "color"@ {
        Raw::Text(color_default(component, name, variant, state))
    } else if name == "button-opacity"@ || name == "opacity"@ {
        if state == "disabled"@ {
            Raw::Float(schema::half_real())
        } else {
            Raw::Float(schema::whole_real(1))
        }
    } else if name == "font-weight"@ {
        Raw::Int(500)
    } else if name == "touch-expansion"@ {
        Raw::Float(schema::whole_real(4))
    } else if prop_type == "string"@ {
        Raw::Text("font.primary"@)
    } else {
        Raw::Float(schema::whole_real(numeric_default(name, "default"@)))
    }
}

/// The default of a property in a component's variant and state.
pub fn default_variant_value(
    component_key: &str,
    prop_name: &str,
    prop_type: &str,
    variant: &str,
    state: &str,
) -> (r: TokenOrValue)
    ensures
        r@ == generated_variant_default(
            component_key@,
            prop_name@,
            prop_type@,
            variant@,
            state@,
        ),
{
    if text_eq(prop_type, "color") {
        TokenOrValue::String(owned(color_token(component_key, prop_name, variant, state)))
    } else if text_eq(prop_name, "button-opacity") || text_eq(prop_name, "opacity") {
        if text_eq(state, "disabled") {
            TokenOrValue::Float(schema::half())
        } else {
            TokenOrValue::Float(Real::from_whole(1))
        }
    } else if text_eq(prop_name, "font-weight") {
        TokenOrValue::Int(500)
    } else if text_eq(prop_name, "touch-expansion") {
        TokenOrValue::Float(Real::from_whole(4))
    } else if text_eq(prop_type, "string") {
        TokenOrValue::String(owned("font.primary"))
    } else {
        TokenOrValue::Float(Real::from_whole(default_numeric_value(prop_name, "default")))
    }
}

/// The default of a property in a size.
pub open spec fn generated_size_default(name: Seq<char>, prop_type: Seq<char>, size: Seq<char>) -> Raw {
    if prop_type == "string"@ {
        Raw::Text("font.primary"@)
    } else if name == "font-size"@ {
        Raw::Text(by_size(size, "fontSize.sm"@, "fontSize.md"@, "fontSize.lg"@))
    } else if name == "padding-horizontal"@ {
        Raw::Text(by_size(size, "spacing.sm"@, "spacing.md"@, "spacing.xl"@))
    } else if name == "padding-vertical"@ {
        Raw::Text(by_size(size, "spacing.xs"@, "spacing.sm"@, "spacing.md"@))
    } else if name == "border-radius"@ {
        Raw::Text("radius.default"@)
    } else {
        Raw::Float(schema::whole_real(numeric_default(name, size)))
    }
}

/// The default of a property in a size.
pub fn default_size_value(prop_name: &str, prop_type: &str, size: &str) -> (r: TokenOrValue)
    ensures
        r@ == generated_size_default(prop_name@, prop_type@, size@),
{
    if text_eq(prop_type, "string") {
        TokenOrValue::String(owned("font.primary"))
    } else if text_eq(prop_name, "font-size") {
        TokenOrValue::String(owned(pick_text(size, "fontSize.sm", "fontSize.md", "fontSize.lg")))
    } else if text_eq(prop_name, "padding-horizontal") {
        TokenOrValue::String(owned(pick_text(size, "spacing.sm", "spacing.md", "spacing.xl")))
    } else if text_eq(prop_name, "padding-vertical") {
        TokenOrValue::String(owned(pick_text(size, "spacing.xs", "spacing.sm", "spacing.md")))
    } else if text_eq(prop_name, "border-radius") {
        TokenOrValue::String(owned("radius.default"))
    } else {
        TokenOrValue::Float(Real::from_whole(default_numeric_value(prop_name, size)))
    }
}

/// The defaults of a property for every variant and state.
pub open spec fn generated_variant_defaults(
    component: Seq<char>,
    name: Seq<char>,
    prop_type: Seq<char>,
    variants: Seq<Seq<char>>,
    states: Seq<Seq<char>>,
) -> Map<Seq<char>, DefaultModel> {
    Map::new(
        |v: Seq<char>| variants.contains(v),
        |v: Seq<char>|
            DefaultModel::Nested(
                Map::new(
                    |s: Seq<char>| states.contains(s),
                    |s: Seq<char>| generated_variant_default(component, name, prop_type, v, s),
                ),
            ),
    )
}

/// The defaults of a property for every size.
pub open spec fn generated_size_defaults(name: Seq<char>, prop_type: Seq<char>, sizes: Seq<Seq<char>>) -> Map<
    Seq<char>,
    DefaultModel,
> {
    Map::new(
        |s: Seq<char>| sizes.contains(s),
        |s: Seq<char>| DefaultModel::Direct(generated_size_default(name, prop_type, s)),
    )
}

fn build_state_defaults(
    component_key: &str,
    prop_name: &str,
    prop_type: &str,
    variant: &str,
    states: &Vec<String>,
) -> (r: TextMap<TokenOrValue>)
    ensures
        r@ == Map::new(
            |s: Seq<char>| textmap::views(states@).contains(s),
            |s: Seq<char>|
                generated_variant_default(component_key@, prop_name@, prop_type@, variant@, s),
        ),
{
    let r = TextMap::keyed(
        states,
        |s: &String| -> (v: TokenOrValue)
            ensures
                v@ == generated_variant_default(
                    component_key@,
                    prop_name@,
                    prop_type@,
                    variant@,
                    s@,
                )
        { default_variant_value(component_key, prop_name, prop_type, variant, s.as_str()) },
    );
    assert(r@ =~= Map::new(
        |s: Seq<char>| textmap::views(states@).contains(s),
        |s: Seq<char>|
            generated_variant_default(component_key@, prop_name@, prop_type@, variant@, s),
    ));
    r
}

/// The defaults of a property for every variant and state.
pub fn build_variant_defaults(
    component_key: &str,
    prop_name: &str,
    prop_type: &str,
    variants: &Vec<String>,
    states: &Vec<String>,
) -> (r: PropDefaults)
    ensures
        r@ == generated_variant_defaults(
            component_key@,
            prop_name@,
            prop_type@,
            textmap::views(variants@),
            textmap::views(states@),
        ),
{
    let values = TextMap::keyed(
        variants,
        |v: &String| -> (d: DefaultValue)
            ensures
                d@ == DefaultModel::Nested(
                    Map::new(
                        |s: Seq<char>| textmap::views(states@).contains(s),
                        |s: Seq<char>|
                            generated_variant_default(
                                component_key@,
                                prop_name@,
                                prop_type@,
                                v@,
                                s,
                            ),
                    ),
                )
        {
            DefaultValue::Nested(
                build_state_defaults(component_key, prop_name, prop_type, v.as_str(), states),
            )
        },
    );
    assert(values@ =~= generated_variant_defaults(
        component_key@,
        prop_name@,
        prop_type@,
        textmap::views(variants@),
        textmap::views(states@),
    ));
    PropDefaults { values }
}

/// The defaults of a property for every size.
pub fn build_size_defaults(prop_name: &str, prop_type: &str, sizes: &Vec<String>) -> (r: PropDefaults)
    ensures
        r@ == generated_size_defaults(prop_name@, prop_type@, textmap::views(sizes@)),
{
    let values = TextMap::keyed(
        sizes,
        |s: &String| -> (d: DefaultValue)
            ensures
                d@ == DefaultModel::Direct(generated_size_default(prop_name@, prop_type@, s@))
        { DefaultValue::Direct(default_size_value(prop_name, prop_type, s.as_str())) },
    );
    assert(values@ =~= generated_size_defaults(prop_name@, prop_type@, textmap::views(sizes@)));
    PropDefaults { values }
}

/// A property name in words: its parts between hyphens, each with its first letter in upper case.
pub open spec fn humanized(name: Seq<char>) -> Seq<char> {
    let parts = text::split_char(name, '-');
    text::join(Seq::new(parts.len(), |i: int| text::capitalized(parts[i])), " "@)
}

/// A property name in words.
pub fn humanize_prop_name(prop_name: &str) -> (r: String)
    ensures
        r@ == humanized(prop_name@),
{
    let parts = split_on(prop_name, '-');
    let words = map_all(
        &parts,
        |p: &String| -> (w: String)
            ensures
                w@ == text::capitalized(p@)
        { capitalize(p.as_str()) },
    );
    assert(textmap::views(words@) =~= Seq::new(
        parts@.len(),
        |i: int| text::capitalized(textmap::views(parts@)[i]),
    ));
    join_texts(&words, " ")
}

/// Whether a property is an opacity.
pub open spec fn is_opacity(name: Seq<char>) -> bool {
    name == "button-opacity"@ || name == "opacity"@
}

/// The least value of a property.
pub open spec fn least(name: Seq<char>) -> Scalar {
    if name == "font-weight"@ {
        scalar::int_scalar(100)
    } else {
        scalar::int_scalar(0)
    }
}

/// The greatest value of a property.
pub open spec fn greatest(name: Seq<char>) -> Scalar {
    if is_opacity(name) {
        scalar::int_scalar(1)
    } else if name == "font-weight"@ {
        scalar::int_scalar(900)
    } else if name == "menu-height"@ {
        scalar::int_scalar(480)
    } else if name == "spinner-size"@ || name == "control-size"@ || name == "field-height"@ {
        scalar::int_scalar(160)
    } else {
        scalar::int_scalar(256)
    }
}

/// The step of a property: a twentieth for an opacity, a half for a width, else whole numbers.
pub open spec fn step_of(name: Seq<char>) -> Scalar {
    if is_opacity(name) {
        Scalar { bits: 0x3D4C_CCCD }
    } else if name == "font-weight"@ {
        scalar::int_scalar(100)
    } else if name == "border-width"@ || name == "stroke-width"@ {
        Scalar { bits: 0x3F00_0000 }
    } else {
        scalar::int_scalar(1)
    }
}

/// The least value of a property.
pub fn infer_min(prop_name: &str) -> (r: Option<Scalar>)
    ensures
        r == Some(least(prop_name@)),
{
    Some(
        if text_eq(prop_name, "font-weight") {
            Scalar::from_int(100)
        } else {
            Scalar::from_int(0)
        },
    )
}

/// The greatest value of a property.
pub fn infer_max(prop_name: &str) -> (r: Option<Scalar>)
    ensures
        r == Some(greatest(prop_name@)),
{
    Some(
        if text_eq(prop_name, "button-opacity") || text_eq(prop_name, "opacity") {
            Scalar::from_int(1)
        } else if text_eq(prop_name, "font-weight") {
            Scalar::from_int(900)
        } else if text_eq(prop_name, "menu-height") {
            Scalar::from_int(480)
        } else if text_eq(prop_name, "spinner-size") || text_eq(prop_name, "control-size")
            || text_eq(prop_name, "field-height") {
            Scalar::from_int(160)
        } else {
            Scalar::from_int(256)
        },
    )
}

/// The step of a property.
pub fn infer_step(prop_name: &str) -> (r: Option<Scalar>)
    ensures
        r == Some(step_of(prop_name@)),
{
    Some(
        if text_eq(prop_name, "button-opacity") || text_eq(prop_name, "opacity") {
            Scalar { bits: 0x3D4C_CCCD }
        } else if text_eq(prop_name, "font-weight") {
            Scalar::from_int(100)
        } else if text_eq(prop_name, "border-width") || text_eq(prop_name, "stroke-width") {
            Scalar { bits: 0x3F00_0000 }
        } else {
            Scalar::from_int(1)
        },
    )
}

// ---------------------------------------------------------------------------------------------
// Generated definitions
// ---------------------------------------------------------------------------------------------
/// The definition of a declared property.
pub open spec fn generated_prop(
    component: Seq<char>,
    p: (Seq<char>, Seq<char>),
    variants: Seq<Seq<char>>,
    states: Seq<Seq<char>>,
    sizes: Seq<Seq<char>>,
) -> PropModel {
    PropModel {
        name: p.1,
        display_name: Some(humanized(p.1)),
        prop_type: schema_type(p.0),
        min: Some(least(p.1)),
        max: Some(greatest(p.1)),
        step: Some(step_of(p.1)),
        defaults: if size_prop(p.1) {
            generated_size_defaults(p.1, schema_type(p.0), sizes)
        } else {
            generated_variant_defaults(component, p.1, schema_type(p.0), variants, states)
        },
    }
}

/// The definitions of the declared properties that vary by size, or of those that do not.
pub open spec fn generated_props(
    component: Seq<char>,
    properties: Seq<(Seq<char>, Seq<char>)>,
    variants: Seq<Seq<char>>,
    states: Seq<Seq<char>>,
    sizes: Seq<Seq<char>>,
    by_size: bool,
) -> Seq<PropModel>
    decreases properties.len(),
{
    if properties.len() == 0 {
        Seq::empty()
    } else {
        let front = generated_props(
            component,
            properties.drop_last(),
            variants,
            states,
            sizes,
            by_size,
        );
        if size_prop(properties.last().1) == by_size {
            front.push(generated_prop(component, properties.last(), variants, states, sizes))
        } else {
            front
        }
    }
}

/// Whether some declared property varies by size, or whether some does not.
pub open spec fn some_prop(properties: Seq<(Seq<char>, Seq<char>)>, by_size: bool) -> bool {
    exists|i: int| 0 <= i < properties.len() && size_prop((#[trigger] properties[i]).1) == by_size
}

/// The values of an axis that some property varies by; `default` where there are none.
pub open spec fn axis_or_default(used: bool, values: Option<Seq<Seq<char>>>) -> Seq<Seq<char>> {
    match values {
        Some(v) => if used {
            v
        } else {
            seq!["default"@]
        },
        None => seq!["default"@],
    }
}

/// The definition made from a component's source.
pub open spec fn generated_plugin(
    key: Seq<char>,
    component: Seq<char>,
    content: Seq<char>,
    sources: Sources,
) -> Result<PluginModel, Seq<char>> {
    match variant_axis(content, sources) {
        Err(e) => Err(e),
        Ok(variant_values) => match axis_values(content, sources, "size"@) {
            Err(e) => Err(e),
            Ok(size_values) => {
                let props = declared(content).properties;
                let variants = axis_or_default(some_prop(props, false), variant_values);
                let states = inferred_states(content);
                let sizes = axis_or_default(some_prop(props, true), size_values);
                Ok(
                    PluginModel {
                        component,
                        extends: None,
                        parent_key: None,
                        variants,
                        states,
                        sizes,
                        variant_props: generated_props(key, props, variants, states, sizes, false),
                        size_props: generated_props(key, props, variants, states, sizes, true),
                    },
                )
            },
        },
    }
}

fn has_prop(properties: &Vec<ParsedProperty>, by_size: bool) -> (r: bool)
    ensures
        r == some_prop(textmap::views(properties@), by_size),
{
    let ghost all = textmap::views(properties@);
    for i in 0..properties.len()
        invariant
            all == textmap::views(properties@),
            forall|j: int| 0 <= j < i ==> size_prop((#[trigger] all[j]).1) != by_size,
    {
        assert(all[i as int] == properties@[i as int]@);
        if is_size_prop(properties[i].name.as_str()) == by_size {
            return true;
        }
    }
    false
}

fn values_or_default(used: bool, values: Option<Vec<String>>) -> (r: Vec<String>)
    ensures
        textmap::views(r@) == axis_or_default(
            used,
            match values {
                Some(v) => Some(textmap::views(v@)),
                None => None,
            },
        ),
{
    if let Some(v) = values {
        if used {
            return v;
        }
    }
    let r = vec![owned("default")];
    assert(textmap::views(r@) =~= seq!["default"@]);
    r
}

fn generate_prop(
    component_key: &str,
    p: &ParsedProperty,
    variants: &Vec<String>,
    states: &Vec<String>,
    sizes: &Vec<String>,
) -> (r: PropDefinition)
    ensures
        r@ == generated_prop(
            component_key@,
            p@,
            textmap::views(variants@),
            textmap::views(states@),
            textmap::views(sizes@),
        ),
{
    let name = p.name.as_str();
    let prop_type = map_prop_type(p.declared_type.as_str());
    let defaults = if is_size_prop(name) {
        build_size_defaults(name, prop_type.as_str(), sizes)
    } else {
        build_variant_defaults(component_key, name, prop_type.as_str(), variants, states)
    };
    PropDefinition {
        name: p.name.clone(),
        display_name: Some(humanize_prop_name(name)),
        prop_type,
        min: infer_min(name),
        max: infer_max(name),
        step: infer_step(name),
        defaults,
    }
}

fn generate_props(
    component_key: &str,
    properties: &Vec<ParsedProperty>,
    variants: &Vec<String>,
    states: &Vec<String>,
    sizes: &Vec<String>,
    by_size: bool,
) -> (r: Vec<PropDefinition>)
    ensures
        textmap::views(r@) == generated_props(
            component_key@,
            textmap::views(properties@),
            textmap::views(variants@),
            textmap::views(states@),
            textmap::views(sizes@),
            by_size,
        ),
{
    let mut out: Vec<PropDefinition> = Vec::new();
    let ghost all = textmap::views(properties@);
    assert(textmap::views(out@) =~= Seq::<PropModel>::empty());
    for i in 0..properties.len()
        invariant
            all == textmap::views(properties@),
            textmap::views(out@) == generated_props(
                component_key@,
                all.take(i as int),
                textmap::views(variants@),
                textmap::views(states@),
                textmap::views(sizes@),
                by_size,
            ),
    {
        proof {
            assert(all.take(i + 1).drop_last() =~= all.take(i as int));
            assert(all.take(i + 1).last() == properties@[i as int]@);
        }
        if is_size_prop(properties[i].name.as_str()) == by_size {
            let ghost before = textmap::views(out@);
            let made = generate_prop(component_key, &properties[i], variants, states, sizes);
            let ghost kept = made@;
            out.push(made);
            assert(textmap::views(out@) =~= before.push(kept));
        }
    }
    assert(all.take(properties@.len() as int) =~= all);
    out
}

/// The definition made from a component's source. `sources` holds the files that it imports, by the
/// paths under which it imports them.
pub fn auto_generate_plugin(
    spec: &BuiltinComponentSpec,
    content: &str,
    sources: &TextMap<SourceText>,
) -> (r: Result<PluginDefinition, String>)
    ensures
        match r {
            Ok(p) => generated_plugin(spec.key@, spec.component@, content@, sources@) == Ok::<
                PluginModel,
                Seq<char>,
            >(p@),
            Err(e) => generated_plugin(spec.key@, spec.component@, content@, sources@) == Err::<
                PluginModel,
                Seq<char>,
            >(e@),
        },
{
    let parsed = parse_component_file(content);
    let variant_values = match variant_axis_values(content, &parsed, sources) {
        Ok(v) => v,
        Err(e) => {
            return Err(e);
        },
    };
    let size_values = match axis_enum_values(content, &parsed, sources, "size") {
        Ok(v) => v,
        Err(e) => {
            return Err(e);
        },
    };
    let variants = values_or_default(has_prop(&parsed.properties, false), variant_values);
    let states = infer_states(content);
    let sizes = values_or_default(has_prop(&parsed.properties, true), size_values);
    let variant_props = generate_props(
        spec.key,
        &parsed.properties,
        &variants,
        &states,
        &sizes,
        false,
    );
    let size_props = generate_props(
        spec.key,
        &parsed.properties,
        &variants,
        &states,
        &sizes,
        true,
    );
    Ok(
        PluginDefinition {
            component: owned(spec.component),
            extends: None,
            parent_key: None,
            variants,
            states,
            sizes,
            variant_props,
            size_props,
        },
    )
}

// ---------------------------------------------------------------------------------------------
// Laws
// ---------------------------------------------------------------------------------------------
/// Whether a list has a property of a name and type.
pub open spec fn listed(list: Seq<PropModel>, name: Seq<char>, prop_type: Seq<char>) -> bool {
    exists|k: int| 0 <= k < list.len() && (#[trigger] list[k]).name == name && list[k].prop_type == prop_type
}

/// Whether a definition has a property of a name and type among those that vary by size, or among
/// those that do not.
pub open spec fn defines(p: PluginModel, by_size: bool, name: Seq<char>, prop_type: Seq<char>) -> bool {
    if by_size {
        listed(p.size_props, name, prop_type)
    } else {
        listed(p.variant_props, name, prop_type)
    }
}

/// Whether a property has a default for every variant and state of a definition, and no other.
pub open spec fn covers_variants(p: PluginModel, d: PropModel) -> bool {
    &&& forall|v: Seq<char>| #[trigger] d.defaults.dom().contains(v) <==> p.variants.contains(v)
    &&& forall|v: Seq<char>|
        p.variants.contains(v) ==> ((#[trigger] d.defaults[v]) matches DefaultModel::Nested(m)
            && forall|s: Seq<char>| #[trigger] m.dom().contains(s) <==> p.states.contains(s))
}

/// Whether a property has a default for every size of a definition, and no other.
pub open spec fn covers_sizes(p: PluginModel, d: PropModel) -> bool {
    &&& forall|z: Seq<char>| #[trigger] d.defaults.dom().contains(z) <==> p.sizes.contains(z)
    &&& forall|z: Seq<char>| p.sizes.contains(z) ==> (#[trigger] d.defaults[z]) is Direct
}

proof fn lemma_generated(
    component: Seq<char>,
    properties: Seq<(Seq<char>, Seq<char>)>,
    variants: Seq<Seq<char>>,
    states: Seq<Seq<char>>,
    sizes: Seq<Seq<char>>,
    sized: bool,
    k: int,
)
    requires
        0 <= k < generated_props(component, properties, variants, states, sizes, sized).len(),
    ensures
        exists|i: int|
            0 <= i < properties.len() && size_prop((#[trigger] properties[i]).1) == sized && generated_props(
                component,
                properties,
                variants,
                states,
                sizes,
                sized,
            )[k] == generated_prop(component, properties[i], variants, states, sizes),
    decreases properties.len(),
{
    let front = generated_props(component, properties.drop_last(), variants, states, sizes, sized);
    if k < front.len() {
        lemma_generated(component, properties.drop_last(), variants, states, sizes, sized, k);
        let i = choose|i: int|
            0 <= i < properties.drop_last().len() && size_prop((#[trigger] properties.drop_last()[i]).1) == sized
                && front[k] == generated_prop(component, properties.drop_last()[i], variants, states, sizes);
        assert(properties[i] == properties.drop_last()[i]);
    } else {
        assert(properties[properties.len() - 1] == properties.last());
    }
}

proof fn lemma_kept(
    component: Seq<char>,
    properties: Seq<(Seq<char>, Seq<char>)>,
    variants: Seq<Seq<char>>,
    states: Seq<Seq<char>>,
    sizes: Seq<Seq<char>>,
    i: int,
) -> (k: int)
    requires
        0 <= i < properties.len(),
    ensures
        ({
            let list = generated_props(
                component,
                properties,
                variants,
                states,
                sizes,
                size_prop(properties[i].1),
            );
            0 <= k < list.len() && list[k] == generated_prop(
                component,
                properties[i],
                variants,
                states,
                sizes,
            )
        }),
    decreases properties.len(),
{
    let sized = size_prop(properties[i].1);
    let front = generated_props(component, properties.drop_last(), variants, states, sizes, sized);
    let list = generated_props(component, properties, variants, states, sizes, sized);
    if i == properties.len() - 1 {
        list.len() - 1
    } else {
        assert(properties.drop_last()[i] == properties[i]);
        let k = lemma_kept(component, properties.drop_last(), variants, states, sizes, i);
        assert(list[k] == front[k]);
        k
    }
}

proof fn lemma_split_count(
    component: Seq<char>,
    properties: Seq<(Seq<char>, Seq<char>)>,
    variants: Seq<Seq<char>>,
    states: Seq<Seq<char>>,
    sizes: Seq<Seq<char>>,
)
    ensures
        generated_props(component, properties, variants, states, sizes, true).len() + generated_props(
            component,
            properties,
            variants,
            states,
            sizes,
            false,
        ).len() == properties.len(),
    decreases properties.len(),
{
    if properties.len() > 0 {
        lemma_split_count(component, properties.drop_last(), variants, states, sizes);
    }
}

/// A generated definition has every declared property, once among those that vary by size or among
/// those that vary by variant, and each of them has a default for every size, or for every variant in
/// every state.
pub proof fn declared_properties_are_defined(
    key: Seq<char>,
    component: Seq<char>,
    content: Seq<char>,
    sources: Sources,
    p: PluginModel,
)
    requires
        generated_plugin(key, component, content, sources) == Ok::<PluginModel, Seq<char>>(p),
    ensures
        p.component == component,
        p.variant_props.len() + p.size_props.len() == declared(content).properties.len(),
        forall|i: int|
            0 <= i < declared(content).properties.len() ==> defines(
                p,
                size_prop((#[trigger] declared(content).properties[i]).1),
                declared(content).properties[i].1,
                schema_type(declared(content).properties[i].0),
            ),
        forall|k: int| 0 <= k < p.variant_props.len() ==> covers_variants(p, #[trigger] p.variant_props[k]),
        forall|k: int| 0 <= k < p.size_props.len() ==> covers_sizes(p, #[trigger] p.size_props[k]),
{
    let props = declared(content).properties;
    lemma_split_count(key, props, p.variants, p.states, p.sizes);
    assert forall|i: int| 0 <= i < props.len() implies defines(
        p,
        size_prop((#[trigger] props[i]).1),
        props[i].1,
        schema_type(props[i].0),
    ) by {
        let k = lemma_kept(key, props, p.variants, p.states, p.sizes, i);
        if size_prop(props[i].1) {
            assert(p.size_props[k].name == props[i].1);
        } else {
            assert(p.variant_props[k].name == props[i].1);
        }
    }
    assert forall|k: int| 0 <= k < p.variant_props.len() implies covers_variants(
        p,
        #[trigger] p.variant_props[k],
    ) by {
        lemma_generated(key, props, p.variants, p.states, p.sizes, false, k);
    }
    assert forall|k: int| 0 <= k < p.size_props.len() implies covers_sizes(p, #[trigger] p.size_props[k]) by {
        lemma_generated(key, props, p.variants, p.states, p.sizes, true, k);
    }
}

proof fn lemma_leading(a: Seq<char>, s: Seq<char>)
    requires
        text::all_white(a),
        s.len() > 0,
        !text::is_white(s[0]),
    ensures
        text::trim_start(a + s) == s,
    decreases a.len(),
{
    if a.len() > 0 {
        assert(text::is_white(a[0]));
        assert((a + s).drop_first() =~= a.drop_first() + s);
        assert forall|i: int| 0 <= i < a.drop_first().len() implies text::is_white(
            #[trigger] a.drop_first()[i],
        ) by {
            assert(a.drop_first()[i] == a[i + 1]);
        }
        lemma_leading(a.drop_first(), s);
    } else {
        assert(a + s =~= s);
        assert(s[0] == (a + s)[0]);
    }
}

proof fn lemma_trim_keeps(s: Seq<char>, n: int) -> (m: int)
    requires
        0 <= n < s.len(),
        !text::is_white(s[n]),
        !text::is_white(s[0]),
    ensures
        n < m <= s.len(),
        text::trim(s) == s.take(m),
{
    let m = text::lemma_white_behind(s);
    assert(text::trim_start(s) == s);
    if m <= n {
        assert(s.skip(m)[n - m] == s[n]);
    }
    m
}

/// The start of a property line.
pub open spec fn line_start(in_out: bool) -> Seq<char> {
    if in_out {
        "in-out property <"@
    } else {
        "in property <"@
    }
}

proof fn lemma_typed(in_out: bool, t: Seq<char>, after: Seq<char>)
    requires
        themeable_type(t),
    ensures
        typed_part(line_start(in_out) + t + ">"@ + after) == Some((t, text::trim(after))),
        begins_property(line_start(in_out) + t + ">"@ + after),
        t.len() > 0,
{
    reveal_strlit("in-out property <");
    reveal_strlit("in property <");
    reveal_strlit("property <");
    reveal_strlit(">");
    reveal_strlit("color");
    reveal_strlit("length");
    reveal_strlit("float");
    reveal_strlit("int");
    reveal_strlit("string");
    let start = line_start(in_out);
    let line = start + t + ">"@ + after;
    let pat = "property <"@;
    let k: int = if in_out {
        7
    } else {
        3
    };
    assert(line.take(start.len() as int) =~= start);
    assert(line.subrange(k, k + pat.len()) =~= pat);
    text::lemma_find_from_least(line, pat, 0, k);
    text::find_from_bounds(line, pat, 0);
    let i = text::find_from(line, pat, 0)->Some_0;
    assert(line.subrange(i, i + pat.len())[0] == line[i]);
    assert(pat[0] == 'p');
    if i < k {
        assert(line[i] == start[i]);
        assert(start[i] != 'p');
    }
    let rest = line.skip(k + pat.len());
    assert(rest =~= t + ">"@ + after);
    let close = ">"@;
    assert(rest.subrange(t.len() as int, t.len() as int + close.len()) =~= close);
    text::lemma_find_from_least(rest, close, 0, t.len() as int);
    text::find_from_bounds(rest, close, 0);
    let j = text::find_from(rest, close, 0)->Some_0;
    assert(rest.subrange(j, j + close.len())[0] == rest[j]);
    if j < t.len() {
        assert(rest[j] == t[j]);
    }
    assert(rest.take(j) =~= t);
    assert(rest.skip(j + close.len()) =~= after);
    assert(text::trim(t) == t);
}

/// The name of a property: neither white space nor a colon is in it.
pub open spec fn is_name(name: Seq<char>) -> bool {
    &&& name.len() > 0
    &&& !name.contains(':')
    &&& forall|i: int| 0 <= i < name.len() ==> !text::is_white(#[trigger] name[i])
}

proof fn lemma_first_part(a: Seq<char>, c: char, b: Seq<char>)
    requires
        !a.contains(c),
    ensures
        text::split_char(a + seq![c] + b, c).len() > 1,
        text::split_char(a + seq![c] + b, c)[0] == a,
    decreases b.len(),
{
    let s = a + seq![c] + b;
    if b.len() == 0 {
        text::split_char_plain(a, c);
        assert(s.drop_last() =~= a);
        assert(s.last() == c);
    } else {
        lemma_first_part(a, c, b.drop_last());
        assert(s.drop_last() =~= a + seq![c] + b.drop_last());
    }
}

proof fn lemma_named(name: Seq<char>, more: Seq<char>)
    requires
        is_name(name),
    ensures
        name_part(text::trim(" "@ + name + ":"@ + more)) == Some(name),
{
    reveal_strlit(" ");
    reveal_strlit(":");
    let s = name + ":"@ + more;
    assert(" "@ + name + ":"@ + more =~= " "@ + s);
    assert(text::is_white(' '));
    assert(s[0] == name[0]);
    lemma_leading(" "@, s);
    assert(s[name.len() as int] == ':');
    let m = text::lemma_white_behind(s);
    if m <= name.len() {
        assert(s.skip(m)[name.len() - m] == ':');
    }
    let kept = more.take(m - name.len() - 1);
    assert(s.take(m) =~= name + seq![':'] + kept);
    lemma_first_part(name, ':', kept);
    let first = text::split_char(s.take(m), ':')[0];
    assert(first == name);
    text::first_word_is_first(name);
    let n = text::lemma_word_end(name);
    assert(text::trim_start(name) == name);
    assert(n == name.len());
    assert(name.take(n) =~= name);
}

/// A line that declares an input property with a default is read back: its type and its name, where
/// the type can be themed and the name is one that varies by size or by variant, and nothing where
/// the name is neither. White space in front of the line does not count, nor does what the default is.
pub proof fn property_line_is_read(in_out: bool, indent: Seq<char>, t: Seq<char>, name: Seq<char>, more: Seq<char>)
    requires
        text::all_white(indent),
        themeable_type(t),
        is_name(name),
    ensures
        themeable_property(indent + line_start(in_out) + t + ">"@ + " "@ + name + ":"@ + more) == (if size_prop(
            name,
        ) || variant_prop(name) {
            Some((t, name))
        } else {
            None
        }),
{
    reveal_strlit("in-out property <");
    reveal_strlit("in property <");
    reveal_strlit(">");
    reveal_strlit(" ");
    reveal_strlit(":");
    let start = line_start(in_out);
    let front = start + t + ">"@ + " "@ + name;
    let core = front + ":"@ + more;
    let whole = indent + line_start(in_out) + t + ">"@ + " "@ + name + ":"@ + more;
    assert(whole =~= indent + core);
    assert(core[0] == 'i');
    lemma_leading(indent, core);
    let n = front.len() as int;
    assert(core[n] == ':');
    let m = lemma_trim_keeps(core, n);
    assert(text::trim_start(core) == core);
    assert(text::trim(whole) == core.take(m));
    let kept = more.take(m - n - 1);
    let after = " "@ + name + ":"@ + kept;
    assert(core.take(m) =~= start + t + ">"@ + after);
    lemma_typed(in_out, t, after);
    lemma_named(name, kept);
}

/// The values of an enum are the file's own where it declares the enum, else those of the first import
/// that names it and declares it, as long as every import before it that names it can be read.
pub proof fn own_enum_counts_before_imported(d: Declared, sources: Sources, name: Seq<char>, k: int, of: Declared)
    requires
        0 <= k < d.imports.len(),
        d.imports[k].0.contains(name),
        imported(sources, d.imports[k].1) == Ok::<Declared, Seq<char>>(of),
        of.enums.dom().contains(name),
        forall|j: int|
            0 <= j < k && (#[trigger] d.imports[j]).0.contains(name) ==> (imported(sources, d.imports[j].1) matches Ok(
                other,
            ) && !other.enums.dom().contains(name)),
    ensures
        d.enums.dom().contains(name) ==> enum_values(d, sources, name) == Ok::<
            Option<Seq<Seq<char>>>,
            Seq<char>,
        >(Some(d.enums[name])),
        !d.enums.dom().contains(name) ==> enum_values(d, sources, name) == Ok::<
            Option<Seq<Seq<char>>>,
            Seq<char>,
        >(Some(of.enums[name])),
{
    lemma_first_import(d.imports, 0, sources, name, k, of);
}

proof fn lemma_first_import(
    imports: Seq<(Seq<Seq<char>>, Seq<char>)>,
    from: int,
    sources: Sources,
    name: Seq<char>,
    k: int,
    of: Declared,
)
    requires
        0 <= from <= k < imports.len(),
        imports[k].0.contains(name),
        imported(sources, imports[k].1) == Ok::<Declared, Seq<char>>(of),
        of.enums.dom().contains(name),
        forall|j: int|
            0 <= j < k && (#[trigger] imports[j]).0.contains(name) ==> (imported(sources, imports[j].1) matches Ok(
                other,
            ) && !other.enums.dom().contains(name)),
    ensures
        imported_enum(imports, from, sources, name) == Ok::<Option<Seq<Seq<char>>>, Seq<char>>(
            Some(of.enums[name]),
        ),
    decreases k - from,
{
    if from < k {
        lemma_first_import(imports, from + 1, sources, name, k, of);
    }
}

/// A definition takes the values of its variants from the type of a property `variant`, else from that
/// of `tone`, else from that of `color`.
pub proof fn variants_come_from_first_axis(content: Seq<char>, sources: Sources, values: Seq<Seq<char>>)
    ensures
        axis_values(content, sources, "variant"@) == Ok::<Option<Seq<Seq<char>>>, Seq<char>>(Some(values))
            ==> variant_axis(content, sources) == Ok::<Option<Seq<Seq<char>>>, Seq<char>>(Some(values)),
        axis_values(content, sources, "variant"@) == Ok::<Option<Seq<Seq<char>>>, Seq<char>>(None)
            && axis_values(content, sources, "tone"@) == Ok::<Option<Seq<Seq<char>>>, Seq<char>>(Some(values))
            ==> variant_axis(content, sources) == Ok::<Option<Seq<Seq<char>>>, Seq<char>>(Some(values)),
{
}

/// Numbers that vary by size do not shrink from small over medium to large, and the short names of
/// sizes stand for the long ones.
pub proof fn defaults_grow_with_size(name: Seq<char>)
    ensures
        0 < numeric_default(name, "small"@) <= numeric_default(name, "medium"@) <= numeric_default(
            name,
            "large"@,
        ),
        numeric_default(name, "sm"@) == numeric_default(name, "small"@),
        numeric_default(name, "md"@) == numeric_default(name, "medium"@),
        numeric_default(name, "lg"@) == numeric_default(name, "large"@),
        name == "control-size"@ || name == "icon-size"@ || name == "spinner-size"@ || name == "stroke-width"@
            ==> numeric_default(name, "small"@) < numeric_default(name, "medium"@) < numeric_default(
            name,
            "large"@,
        ),
{
    reveal_strlit("sm");
    reveal_strlit("md");
    reveal_strlit("lg");
    reveal_strlit("small");
    reveal_strlit("medium");
    reveal_strlit("large");
    assert("sm"@[0] != "md"@[0]);
    assert("lg"@[0] != "md"@[0]);
    assert("lg"@[0] != "sm"@[0]);
    assert("small"@.len() != "medium"@.len());
    assert("small"@[0] != "large"@[0]);
    assert("medium"@.len() != "large"@.len());
    reveal_strlit("border-width");
    reveal_strlit("menu-height");
    reveal_strlit("field-height");
    reveal_strlit("bar-height");
    reveal_strlit("control-size");
    reveal_strlit("icon-size");
    reveal_strlit("spinner-size");
    reveal_strlit("stroke-width");
    assert("control-size"@[0] != "border-width"@[0] && "control-size"@[0] != "menu-height"@[0]
        && "control-size"@[0] != "field-height"@[0]);
    assert("icon-size"@.len() != "border-width"@.len() && "icon-size"@.len() != "menu-height"@.len()
        && "icon-size"@.len() != "field-height"@.len() && "icon-size"@.len() != "control-size"@.len());
    assert("spinner-size"@[0] != "border-width"@[0] && "spinner-size"@[0] != "menu-height"@[0]
        && "spinner-size"@[0] != "field-height"@[0] && "spinner-size"@[0] != "control-size"@[0]
        && "spinner-size"@[0] != "icon-size"@[0] && "spinner-size"@[0] != "bar-height"@[0]);
    assert("stroke-width"@[0] != "border-width"@[0] && "stroke-width"@[0] != "menu-height"@[0]
        && "stroke-width"@[0] != "field-height"@[0] && "stroke-width"@[0] != "control-size"@[0]
        && "stroke-width"@[0] != "icon-size"@[0] && "stroke-width"@[0] != "bar-height"@[0]
        && "stroke-width"@[1] != "spinner-size"@[1]);
}

/// A background depends on the state only where it is pressed, a border only where it is focused, and
/// an opacity only where it is disabled; a foreground does not depend on the state at all.
pub proof fn state_shows_where_it_counts(component: Seq<char>, variant: Seq<char>, a: Seq<char>, b: Seq<char>)
    ensures
        a != "pressed"@ && b != "pressed"@ ==> generated_variant_default(
            component,
            "background"@,
            "color"@,
            variant,
            a,
        ) == generated_variant_default(component, "background"@, "color"@, variant, b),
        a != "focused"@ && b != "focused"@ ==> generated_variant_default(
            component,
            "border-color"@,
            "color"@,
            variant,
            a,
        ) == generated_variant_default(component, "border-color"@, "color"@, variant, b),
        generated_variant_default(component, "foreground"@, "color"@, variant, a) == generated_variant_default(
            component,
            "foreground"@,
            "color"@,
            variant,
            b,
        ),
        a != "disabled"@ && b != "disabled"@ ==> generated_variant_default(
            component,
            "opacity"@,
            "float"@,
            variant,
            a,
        ) == generated_variant_default(component, "opacity"@, "float"@, variant, b),
{
    reveal_strlit("background");
    reveal_strlit("foreground");
    reveal_strlit("icon-color");
    reveal_strlit("placeholder-color");
    reveal_strlit("border-color");
    reveal_strlit("border-color-focus");
    reveal_strlit("border-color-error");
    reveal_strlit("color");
    reveal_strlit("float");
    assert("color"@[0] != "float"@[0]);
    assert("background"@[0] != "foreground"@[0]);
    assert("border-color"@[0] != "foreground"@[0]);
    assert("border-color"@.len() != "background"@.len());
    assert("border-color"@.len() != "icon-color"@.len());
    assert("border-color"@.len() != "placeholder-color"@.len());
}

/// In the pressed state a background on the surface is another than in the normal one.
pub proof fn pressed_surface_differs(component: Seq<char>, variant: Seq<char>, state: Seq<char>)
    requires
        on_surface(component),
        state != "pressed"@,
    ensures
        generated_variant_default(component, "background"@, "color"@, variant, "pressed"@)
            != generated_variant_default(component, "background"@, "color"@, variant, state),
{
    reveal_strlit("color.secondary.dark");
    reveal_strlit("color.surface");
    assert("color.secondary.dark"@.len() != "color.surface"@.len());
}

} // verus!
