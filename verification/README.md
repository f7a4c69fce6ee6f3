# theme_editor

A library for editing the themes of a component set: design tokens, component plugins, theme records
and the files and sources that are made of them. The library is written in Verus; what its functions
do is stated in their contracts and proved.

## Layout

- `src/` is the library.
  - `text`, `textmap`, `scalar`, `color`, `chain`, `sorting`: texts, ordered maps and sets, single
    precision numbers by their bits, colors, chains of references, stable sorting.
  - `value`, `tokens`, `style`, `theme`, `cascade`, `defaults`: token sets, styles and themes, and how
    they are merged and resolved.
  - `schema`, `loader`, `inherit`, `generate`, `plugin_files`: plugin definitions, how older ones are
    brought up to date, how they extend each other and how they are made from component sources.
  - `slint_gen`: the theme file of a component.
  - `store`, `storage`, `fallback`, `reconcile`: tokens of the editor, the values of a component with
    what they inherit, and how components follow the ones that they extend.
  - `json`, `json_text`, `double`, `decimal`: JSON values, their texts and the numbers in them.
  - `token_theme`, `component_json`, `records`, `record_json`, `root_file`, `read_back`: themes and
    theme files, and what is read of what was written.
  - `validate`, `report`: what a base theme lacks.
  - `literals`, `export_theme`, `theme_source`, `rust_export`: themes as Rust source.
  - `live`, `panels`, `icons`, `editor`: what the editor shows, and its operations with undo and redo.
- `tests/` are its tests.
- `app/` is the program around it: files, arguments and commands.

Numbers of single precision are held by their bits, and compared, rounded and written as single
precision arithmetic does it. Theme files are read from their texts and written to texts through
`serde_json`, whose numbers come and go as bits and as exact decimals; the files of plugins and tokens
are parsed in `app/`.
