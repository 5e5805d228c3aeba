# OAI Enchant

An editor for OpenAPI specifications (up to 3.2): open a YAML or JSON document, edit it
through forms, check it for problems, and save it back without losing the file's key
order or its extension fields.

## Layout

- `src/` — the verified library (Verus). It holds the document model, the checks that
  report errors and warnings, the editing operations behind every form and menu, search,
  syntax highlighting of the raw editor, the merge that keeps a file's layout on save, and
  the editor's reactions to opening, saving and closing. Each public function states its
  result in its contract; `src/laws.rs` states and proves the properties that span
  several operations.
  - `text.rs`, `ordered_map.rs`, `json.rs`, `yaml.rs`: strings, insertion-ordered maps,
    JSON and YAML values.
  - `codec.rs`: reading YAML trees and JSON values from text and writing both as text,
    through serde_yaml and serde_json behind trusted wrappers whose results are named; the
    load and save steps of `document.rs` and the value fields of the forms use it.
  - `model.rs`: the OpenAPI document.
  - `lint.rs`: the document checks.
  - `editor.rs`, `crud.rs`, `schema_edit.rs`, `operation_edit.rs`, `doc_edit.rs`,
    `document.rs`: editor state and the edits.
  - `resource.rs`: resource names for generated CRUD paths.
  - `search.rs`, `highlight.rs`: the sidebar's search and overview, and highlighting.
  - `laws.rs`, `lint_laws.rs`: the laws, and the lemmas behind the law on the checks.
- `tests/` — tests of the library on concrete documents.
- `app/` — the desktop program: windows and widgets (egui/eframe), file dialogs, file
  reading and writing, and turning documents into and out of YAML or JSON with serde's
  derives. It hands the library plain values and shows what the library returns.

The insertion-ordered maps are written here rather than taken from `indexmap`: JSON objects
and schema properties hold maps of themselves, and Verus refuses such a recursive type when
the map is a type of another crate, whether declared to Verus or held in a field it does not
see ("recursively uses type ... in a non-positive position"). The maps keep their keys
distinct as a type invariant.
