//! The editor's state and the operations that change the document.
use vstd::prelude::*;
use crate::json::JsonValue;
use crate::model::{
    method_slot, Components, FileFormat, Info, MediaType, OaExample, OpenApiSpec, Operation,
    Parameter, PathItem, Ref, RefOr, RequestBody, Response, Schema,
};
use crate::ordered_map::{find_key, has_key, keys_of, lemma_find_key, lookup, remove_spec, OrderedMap};
use crate::text::{cat, cat3, lemma_numbered_injective, lemma_pigeonhole, numbered, usize_to_decimal};
use crate::yaml::{merge_yaml, YamlValue};

verus! {

/// What the editor shows.
#[derive(Debug, Clone, PartialEq, Default)]
pub enum Selection {
    #[default]
    Nothing,
    Info,
    Servers,
    Tags,
    Tag(String),
    ExternalDocs,
    Path(String),
    /// A path and a method.
    Operation(String, String),
    Schema(String),
    RequestBody(String),
    ComponentResponse(String),
    ComponentParameter(String),
    Example(String),
    Header(String),
    SecurityScheme(String),
    RawEditor,
}

/// A `Selection` with its strings taken as character sequences.
pub enum SelectionView {
    Nothing,
    Info,
    Servers,
    Tags,
    Tag(Seq<char>),
    ExternalDocs,
    Path(Seq<char>),
    Operation(Seq<char>, Seq<char>),
    Schema(Seq<char>),
    RequestBody(Seq<char>),
    ComponentResponse(Seq<char>),
    ComponentParameter(Seq<char>),
    Example(Seq<char>),
    Header(Seq<char>),
    SecurityScheme(Seq<char>),
    RawEditor,
}

impl View for Selection {
    type V = SelectionView;

    open spec fn view(&self) -> SelectionView {
        match self {
            Selection::Nothing => SelectionView::Nothing,
            Selection::Info => SelectionView::Info,
            Selection::Servers => SelectionView::Servers,
            Selection::Tags => SelectionView::Tags,
            Selection::Tag(s) => SelectionView::Tag(s@),
            Selection::ExternalDocs => SelectionView::ExternalDocs,
            Selection::Path(s) => SelectionView::Path(s@),
            Selection::Operation(p, m) => SelectionView::Operation(p@, m@),
            Selection::Schema(s) => SelectionView::Schema(s@),
            Selection::RequestBody(s) => SelectionView::RequestBody(s@),
            Selection::ComponentResponse(s) => SelectionView::ComponentResponse(s@),
            Selection::ComponentParameter(s) => SelectionView::ComponentParameter(s@),
            Selection::Example(s) => SelectionView::Example(s@),
            Selection::Header(s) => SelectionView::Header(s@),
            Selection::SecurityScheme(s) => SelectionView::SecurityScheme(s@),
            Selection::RawEditor => SelectionView::RawEditor,
        }
    }
}

impl Selection {
    /// A copy of this selection.
    pub fn duplicate(&self) -> (r: Selection)
        ensures
            r@ == self@,
    {
        match self {
            Selection::Nothing => Selection::Nothing,
            Selection::Info => Selection::Info,
            Selection::Servers => Selection::Servers,
            Selection::Tags => Selection::Tags,
            Selection::Tag(s) => Selection::Tag(s.clone()),
            Selection::ExternalDocs => Selection::ExternalDocs,
            Selection::Path(s) => Selection::Path(s.clone()),
            Selection::Operation(p, m) => Selection::Operation(p.clone(), m.clone()),
            Selection::Schema(s) => Selection::Schema(s.clone()),
            Selection::RequestBody(s) => Selection::RequestBody(s.clone()),
            Selection::ComponentResponse(s) => Selection::ComponentResponse(s.clone()),
            Selection::ComponentParameter(s) => Selection::ComponentParameter(s.clone()),
            Selection::Example(s) => Selection::Example(s.clone()),
            Selection::Header(s) => Selection::Header(s.clone()),
            Selection::SecurityScheme(s) => Selection::SecurityScheme(s.clone()),
            Selection::RawEditor => Selection::RawEditor,
        }
    }
}

// ── Fresh names ──────────────────────────────────────────────────────────────

/// `r` is the first name of the series `base + first`, `base + next + 2`, ... that `taken`
/// does not hold.
pub open spec fn first_free<T>(
    base: Seq<char>,
    first: Seq<char>,
    next: Seq<char>,
    taken: Seq<(Seq<char>, T)>,
    r: Seq<char>,
) -> bool {
    exists|k: int|
        k >= 1 && r == numbered(base, first, next, k) && !has_key(taken, r) && (forall|j: int|
            1 <= j < k ==> has_key(taken, #[trigger] numbered(base, first, next, j)))
}

proof fn lemma_has_key_contains<T>(s: Seq<(Seq<char>, T)>, k: Seq<char>)
    requires
        has_key(s, k),
    ensures
        keys_of(s).contains(k),
{
    lemma_find_key(s, k);
    assert(keys_of(s)[find_key(s, k)] == k);
}

fn first_free_name<T>(base: &str, first: &str, next: &str, taken: &OrderedMap<T>) -> (r: String)
    requires
        first@.len() <= next@.len(),
        taken@.len() < usize::MAX,
    ensures
        first_free(base@, first@, next@, taken@, r@),
{
    let c = cat(base, first);
    if !taken.contains_key(c.as_str()) {
        assert(first_free(base@, first@, next@, taken@, c@) ) by {
            assert(c@ == numbered(base@, first@, next@, 1));
        }
        return c;
    }
    let mut i: usize = 2;
    loop
        invariant
            2 <= i <= taken@.len() + 1,
            taken@.len() < usize::MAX,
            first@.len() <= next@.len(),
            forall|j: int| 1 <= j < i ==> has_key(taken@, #[trigger] numbered(base@, first@, next@, j)),
        decreases taken@.len() + 2 - i,
    {
        let num = usize_to_decimal(i);
        let c = cat3(base, next, num.as_str());
        assert(c@ == numbered(base@, first@, next@, i as int));
        if !taken.contains_key(c.as_str()) {
            return c;
        }
        proof {
            let f = |j: int| numbered(base@, first@, next@, j + 1);
            assert forall|a: int, b: int| 0 <= a < i && 0 <= b < i && a != b implies #[trigger] f(a) != #[trigger] f(b) by {
                lemma_numbered_injective(base@, first@, next@, a + 1, b + 1);
            }
            assert forall|a: int| 0 <= a < i implies keys_of(taken@).contains(#[trigger] f(a)) by {
                lemma_has_key_contains(taken@, numbered(base@, first@, next@, a + 1));
            }
            lemma_pigeonhole(keys_of(taken@), f, i as int);
        }
        i += 1;
    }
}

// ── Editor state ─────────────────────────────────────────────────────────────

/// Text typed into the "new item" fields.
#[derive(Debug, Default)]
pub struct NewItemBuffers {
    pub path: String,
    pub schema_name: String,
    pub request_body_name: String,
    pub response_name: String,
    pub parameter_name: String,
    pub example_name: String,
    pub response_code: String,
}

impl NewItemBuffers {
    pub fn new() -> (b: NewItemBuffers)
        ensures
            b.path@.len() == 0,
            b.schema_name@.len() == 0,
            b.request_body_name@.len() == 0,
            b.response_name@.len() == 0,
            b.parameter_name@.len() == 0,
            b.example_name@.len() == 0,
            b.response_code@.len() == 0,
    {
        NewItemBuffers {
            path: String::new(),
            schema_name: String::new(),
            request_body_name: String::new(),
            response_name: String::new(),
            parameter_name: String::new(),
            example_name: String::new(),
            response_code: String::new(),
        }
    }
}

/// The editor: the open document and everything around it.
pub struct App {
    pub spec: Option<OpenApiSpec>,
    /// Where the document was read from or last saved to, as shown to the user.
    pub current_file: Option<String>,
    pub format: FileFormat,
    pub selection: Selection,
    pub dirty: bool,
    /// The document as last read or written, kept to preserve key order and extensions.
    pub raw: Option<YamlValue>,
    pub status: String,
    pub new_item: NewItemBuffers,
    pub raw_editor_buf: String,
    pub raw_editor_err: String,
    pub show_exit_dialog: bool,
    pub search_query: String,
}

/// Which component map an operation works on.
pub enum CompKindField {
    Schemas,
    Responses,
    Parameters,
    Examples,
    RequestBodies,
}

/// `new` holds the component maps of `old` (or empty ones when there were no components),
/// except possibly the map `f`.
pub open spec fn others_kept(old: Option<Components>, new: Components, f: CompKindField) -> bool {
    match old {
        Some(c) => {
            &&& (!(f is Schemas) ==> new.schemas == c.schemas)
            &&& (!(f is Responses) ==> new.responses == c.responses)
            &&& (!(f is Parameters) ==> new.parameters == c.parameters)
            &&& (!(f is Examples) ==> new.examples == c.examples)
            &&& (!(f is RequestBodies) ==> new.request_bodies == c.request_bodies)
            &&& new.headers == c.headers
            &&& new.security_schemes == c.security_schemes
            &&& new.links == c.links
            &&& new.path_items == c.path_items
        },
        None => {
            &&& (!(f is Schemas) ==> new.schemas@.len() == 0)
            &&& (!(f is Responses) ==> new.responses@.len() == 0)
            &&& (!(f is Parameters) ==> new.parameters@.len() == 0)
            &&& (!(f is Examples) ==> new.examples@.len() == 0)
            &&& (!(f is RequestBodies) ==> new.request_bodies@.len() == 0)
            &&& new.headers@.len() == 0
            &&& new.security_schemes@.len() == 0
            &&& new.links@.len() == 0
            &&& new.path_items@.len() == 0
        },
    }
}

/// The entries of a component map before a change: those of `old`, or none.
pub open spec fn old_entries<T>(old: Option<Components>, pick: spec_fn(Components) -> Seq<(Seq<char>, T)>) -> Seq<(Seq<char>, T)> {
    match old {
        Some(c) => pick(c),
        None => Seq::empty(),
    }
}

/// `new` is `old` with a name added unless present, the added value satisfying `fresh`.
pub open spec fn added<T>(
    old: Seq<(Seq<char>, T)>,
    new: Seq<(Seq<char>, T)>,
    name: Seq<char>,
    fresh: spec_fn(T) -> bool,
) -> bool {
    if has_key(old, name) {
        new =~= old
    } else {
        new.len() == old.len() + 1 && new.drop_last() =~= old && new.last().0 == name && fresh(
            new.last().1,
        )
    }
}

/// The value stored by an "add" operation: a default item.
pub open spec fn fresh_schema(v: RefOr<Schema>) -> bool {
    v matches RefOr::Item(x) && x.is_default_value()
}

pub open spec fn fresh_response(v: RefOr<Response>) -> bool {
    v matches RefOr::Item(x) && x.is_default_value()
}

pub open spec fn fresh_parameter(v: RefOr<Parameter>) -> bool {
    v matches RefOr::Item(x) && x.is_default_value()
}

pub open spec fn fresh_example(v: RefOr<OaExample>) -> bool {
    v matches RefOr::Item(x) && x.is_default_value()
}

pub open spec fn fresh_request_body(v: RefOr<RequestBody>) -> bool {
    v matches RefOr::Item(x) && x.is_default_value()
}

impl App {
    /// The editor as it starts: nothing open.
    pub fn new() -> (app: App)
        ensures
            app.spec is None,
            app.current_file is None,
            app.format == FileFormat::Yaml,
            app.selection@ == SelectionView::Nothing,
            !app.dirty,
            app.raw is None,
            app.status@ == "Ready. Open or create an OpenAPI specification."@,
            app.raw_editor_buf@.len() == 0,
            app.raw_editor_err@.len() == 0,
            !app.show_exit_dialog,
            app.search_query@.len() == 0,
            app.new_item.path@.len() == 0,
    {
        App {
            spec: None,
            current_file: None,
            format: FileFormat::Yaml,
            selection: Selection::Nothing,
            dirty: false,
            raw: None,
            status: String::from_str("Ready. Open or create an OpenAPI specification."),
            new_item: NewItemBuffers::new(),
            raw_editor_buf: String::new(),
            raw_editor_err: String::new(),
            show_exit_dialog: false,
            search_query: String::new(),
        }
    }

    /// Starts a new document: OpenAPI 3.1.0, titled "New API", version 1.0.0.
    pub fn new_spec(&mut self)
        ensures
            final(self).spec matches Some(s) && {
                &&& s.openapi@ == "3.1.0"@
                &&& s.info.title@ == "New API"@
                &&& s.info.version@ == "1.0.0"@
                &&& s.info.rest_is_empty()
                &&& s.rest_is_empty()
            },
            final(self).current_file is None,
            final(self).raw is None,
            final(self).dirty,
            final(self).selection@ == SelectionView::Info,
            final(self).status@ == "New specification created."@,
            *final(self) == (App {
                spec: final(self).spec,
                current_file: None,
                raw: None,
                dirty: true,
                selection: final(self).selection,
                status: final(self).status,
                ..*old(self)
            }),
    {
        let mut info = Info::default();
        info.title = String::from_str("New API");
        info.version = String::from_str("1.0.0");
        let mut spec = OpenApiSpec::default();
        spec.openapi = String::from_str("3.1.0");
        spec.info = info;
        self.spec = Some(spec);
        self.current_file = None;
        self.raw = None;
        self.dirty = true;
        self.selection = Selection::Info;
        self.status = String::from_str("New specification created.");
    }

    /// Gives an open document an empty components section when it has none.
    pub fn ensure_components(&mut self)
        ensures
            match old(self).spec {
                Some(s) => (final(self).spec matches Some(t) && {
                    &&& t == (OpenApiSpec { components: t.components, ..s })
                    &&& (t.components matches Some(c) && match s.components {
                        Some(oc) => c == oc,
                        None => c.is_default_value(),
                    })
                }),
                None => final(self).spec is None,
            },
            *final(self) == (App { spec: final(self).spec, ..*old(self) }),
    {
        if let Some(spec) = &mut self.spec {
            if spec.components.is_none() {
                spec.components = Some(Components::default());
            }
        }
    }
}

/// `new` differs from `old` at most in the document, the dirty flag and the selection.
pub open spec fn only_doc_changed(old: App, new: App) -> bool {
    new == App { spec: new.spec, dirty: new.dirty, selection: new.selection, ..old }
}

/// An "add component" step: the document gains a components section when it had none, and
/// the component map picked by `f` gains `name` unless present, with a value that `fresh`
/// describes; everything else in the document stays.
pub open spec fn component_added<T>(
    old: App,
    new: App,
    name: Seq<char>,
    f: CompKindField,
    pick: spec_fn(Components) -> Seq<(Seq<char>, T)>,
    fresh: spec_fn(T) -> bool,
) -> bool {
    &&& old.spec matches Some(os)
    &&& new.spec matches Some(ns)
    &&& ns == (OpenApiSpec { components: ns.components, ..os })
    &&& ns.components matches Some(c)
    &&& others_kept(os.components, c, f)
    &&& added(old_entries(os.components, pick), pick(c), name, fresh)
}


/// The component map picked by `pick` lost `name`; everything else in the document stays.
/// Without a document or without components nothing changes.
pub open spec fn component_removed<T>(
    old: App,
    new: App,
    name: Seq<char>,
    f: CompKindField,
    pick: spec_fn(Components) -> Seq<(Seq<char>, T)>,
) -> bool {
    match old.spec {
        Some(os) => match os.components {
            Some(oc) => {
                &&& new.spec matches Some(ns)
                &&& ns == (OpenApiSpec { components: ns.components, ..os })
                &&& ns.components matches Some(nc)
                &&& others_kept(Some(oc), nc, f)
                &&& pick(nc) =~= remove_spec(pick(oc), name)
                &&& new.dirty
            },
            None => new.spec == old.spec && new.dirty == old.dirty,
        },
        None => new.spec == old.spec && new.dirty == old.dirty,
    }
}

/// The component map picked by `pick` gained a copy of the entry `name` under the name
/// `new_name`, appended at the end; everything else in the document stays.
pub open spec fn component_duplicated<T: Clone>(
    old: App,
    new: App,
    name: Seq<char>,
    new_name: Seq<char>,
    f: CompKindField,
    pick: spec_fn(Components) -> Seq<(Seq<char>, T)>,
) -> bool {
    &&& old.spec matches Some(os)
    &&& os.components matches Some(oc)
    &&& new.spec matches Some(ns)
    &&& ns == (OpenApiSpec { components: ns.components, ..os })
    &&& ns.components matches Some(nc)
    &&& others_kept(Some(oc), nc, f)
    &&& copied_entry(pick(oc), pick(nc), name, new_name, " copy"@, " copy "@)
}

/// `new` is `old` with the entry `name` copied under `new_name`, the first free name of the
/// series `name + first`, `name + next + 2`, ...
pub open spec fn copied_entry<T: Clone>(
    old: Seq<(Seq<char>, T)>,
    new: Seq<(Seq<char>, T)>,
    name: Seq<char>,
    new_name: Seq<char>,
    first: Seq<char>,
    next: Seq<char>,
) -> bool {
    &&& has_key(old, name)
    &&& first_free(name, first, next, old, new_name)
    &&& new.len() == old.len() + 1
    &&& new.drop_last() =~= old
    &&& new.last().0 == new_name
    &&& cloned(lookup(old, name)->0, new.last().1)
}

/// The selection after deleting the item that `deleted` would select: cleared when it was
/// that item, else unchanged.
pub open spec fn selection_after_delete(old: Selection, new: Selection, deleted: SelectionView) -> bool {
    if old@ == deleted {
        new@ == SelectionView::Nothing
    } else {
        new == old
    }
}

/// Copies the entry `name` under the first free name of the series `name + first`,
/// `name + next + 2`, ..., appending it. Returns the new name, or `None` when `name` is absent.
fn duplicate_entry<T: Clone>(map: &mut OrderedMap<T>, name: &str, first: &str, next: &str) -> (r: Option<String>)
    requires
        old(map)@.len() < usize::MAX,
        first@.len() <= next@.len(),
    ensures
        match r {
            Some(nn) => copied_entry(old(map)@, final(map)@, name@, nn@, first@, next@),
            None => !has_key(old(map)@, name@) && *final(map) == *old(map),
        },
{
    match map.get(name) {
        Some(item) => {
            let copy = item.clone();
            let new_name = first_free_name(name, first, next, map);
            let ghost pre = map@;
            map.insert(new_name.clone(), copy);
            proof {
                lemma_find_key(pre, name@);
            }
            assert(map@.drop_last() =~= pre);
            Some(new_name)
        },
        None => None,
    }
}

/// Whether the selection is the component item `name` of the kind that `make` builds.
fn selection_is(sel: &Selection, kind: CompKindField, name: &str) -> (r: bool)
    ensures
        r == (sel@ == kind_selection(kind, name@)),
{
    let n = String::from_str(name);
    match (sel, kind) {
        (Selection::Schema(x), CompKindField::Schemas) => *x == n,
        (Selection::ComponentResponse(x), CompKindField::Responses) => *x == n,
        (Selection::ComponentParameter(x), CompKindField::Parameters) => *x == n,
        (Selection::Example(x), CompKindField::Examples) => *x == n,
        (Selection::RequestBody(x), CompKindField::RequestBodies) => *x == n,
        _ => false,
    }
}

/// The selection of the component item `name` of a kind.
pub open spec fn kind_selection(kind: CompKindField, name: Seq<char>) -> SelectionView {
    match kind {
        CompKindField::Schemas => SelectionView::Schema(name),
        CompKindField::Responses => SelectionView::ComponentResponse(name),
        CompKindField::Parameters => SelectionView::ComponentParameter(name),
        CompKindField::Examples => SelectionView::Example(name),
        CompKindField::RequestBodies => SelectionView::RequestBody(name),
    }
}

fn make_selection(kind: CompKindField, name: String) -> (r: Selection)
    ensures
        r@ == kind_selection(kind, name@),
{
    match kind {
        CompKindField::Schemas => Selection::Schema(name),
        CompKindField::Responses => Selection::ComponentResponse(name),
        CompKindField::Parameters => Selection::ComponentParameter(name),
        CompKindField::Examples => Selection::Example(name),
        CompKindField::RequestBodies => Selection::RequestBody(name),
    }
}

impl App {
    /// Adds the schema `name` (an empty schema) unless present, and selects it.
    /// An empty name, or no open document, changes nothing.
    pub fn add_schema(&mut self, name: String)
        ensures
            (name@.len() == 0 || old(self).spec is None) ==> *final(self) == *old(self),
            (name@.len() > 0 && old(self).spec is Some) ==> {
                &&& component_added(
                    *old(self),
                    *final(self),
                    name@,
                    CompKindField::Schemas,
                    |c: Components| c.schemas@,
                    |v: RefOr<Schema>| fresh_schema(v),
                )
                &&& final(self).dirty
                &&& final(self).selection@ == kind_selection(CompKindField::Schemas, name@)
                &&& only_doc_changed(*old(self), *final(self))
            },
    {
        if name.as_str().is_empty() {
            return;
        }
        if self.spec.is_none() {
            return;
        }
        self.ensure_components();
        if let Some(spec) = &mut self.spec {
            if let Some(comps) = &mut spec.components {
                comps.schemas.insert_if_absent(name.clone(), RefOr::Item(Schema::default()));
            }
            self.dirty = true;
            self.selection = make_selection(CompKindField::Schemas, name);
        }
    }

    /// Removes the component `name`; a selection of it is cleared.
    pub fn delete_schema(&mut self, name: &str)
        ensures
            component_removed(*old(self), *final(self), name@, CompKindField::Schemas, |c: Components| c.schemas@),
            selection_after_delete(old(self).selection, final(self).selection, kind_selection(CompKindField::Schemas, name@)),
            only_doc_changed(*old(self), *final(self)),
    {
        if let Some(spec) = &mut self.spec {
            if let Some(comps) = &mut spec.components {
                comps.schemas.shift_remove(name);
                self.dirty = true;
            }
        }
        if selection_is(&self.selection, CompKindField::Schemas, name) {
            self.selection = Selection::Nothing;
        }
    }

    /// Copies the component `name` under the first free name of `"<name> copy"`,
    /// `"<name> copy 2"`, ..., and selects the copy. Nothing changes when `name` is absent.
    pub fn duplicate_schema(&mut self, name: &str)
        requires
            old(self).spec matches Some(s) && s.components matches Some(c) ==> c.schemas@.len() < usize::MAX,
        ensures
            ({
                let pick = |c: Components| c.schemas@;
                if old(self).spec matches Some(os) && os.components matches Some(oc) && has_key(pick(oc), name@) {
                    exists|nn: Seq<char>| {
                        &&& #[trigger] component_duplicated(*old(self), *final(self), name@, nn, CompKindField::Schemas, pick)
                        &&& final(self).dirty
                        &&& final(self).selection@ == kind_selection(CompKindField::Schemas, nn)
                    }
                } else {
                    *final(self) == *old(self)
                }
            }),
            only_doc_changed(*old(self), *final(self)),
    {
        proof {
            reveal_strlit(" copy");
            reveal_strlit(" copy ");
        }
        let ghost mut nn: Seq<char> = Seq::empty();
        if let Some(spec) = &mut self.spec {
            if let Some(comps) = &mut spec.components {
                if let Some(new_name) = duplicate_entry(&mut comps.schemas, name, " copy", " copy ") {
                    proof {
                        nn = new_name@;
                    }
                    self.dirty = true;
                    self.selection = make_selection(CompKindField::Schemas, new_name);
                }
            }
        }
        proof {
            let pick = |c: Components| c.schemas@;
            if old(self).spec matches Some(os) && os.components matches Some(oc) && has_key(pick(oc), name@) {
                assert(component_duplicated(*old(self), *self, name@, nn, CompKindField::Schemas, pick));
            }
        }
    }

    /// Adds the request body `name` (an empty one) unless present, and selects it.
    /// An empty name, or no open document, changes nothing.
    pub fn add_request_body(&mut self, name: String)
        ensures
            (name@.len() == 0 || old(self).spec is None) ==> *final(self) == *old(self),
            (name@.len() > 0 && old(self).spec is Some) ==> {
                &&& component_added(
                    *old(self),
                    *final(self),
                    name@,
                    CompKindField::RequestBodies,
                    |c: Components| c.request_bodies@,
                    |v: RefOr<RequestBody>| fresh_request_body(v),
                )
                &&& final(self).dirty
                &&& final(self).selection@ == kind_selection(CompKindField::RequestBodies, name@)
                &&& only_doc_changed(*old(self), *final(self))
            },
    {
        if name.as_str().is_empty() {
            return;
        }
        if self.spec.is_none() {
            return;
        }
        self.ensure_components();
        if let Some(spec) = &mut self.spec {
            if let Some(comps) = &mut spec.components {
                comps.request_bodies.insert_if_absent(name.clone(), RefOr::Item(RequestBody::default()));
            }
            self.dirty = true;
            self.selection = make_selection(CompKindField::RequestBodies, name);
        }
    }

    /// Removes the component `name`; a selection of it is cleared.
    pub fn delete_request_body(&mut self, name: &str)
        ensures
            component_removed(*old(self), *final(self), name@, CompKindField::RequestBodies, |c: Components| c.request_bodies@),
            selection_after_delete(old(self).selection, final(self).selection, kind_selection(CompKindField::RequestBodies, name@)),
            only_doc_changed(*old(self), *final(self)),
    {
        if let Some(spec) = &mut self.spec {
            if let Some(comps) = &mut spec.components {
                comps.request_bodies.shift_remove(name);
                self.dirty = true;
            }
        }
        if selection_is(&self.selection, CompKindField::RequestBodies, name) {
            self.selection = Selection::Nothing;
        }
    }

    /// Copies the component `name` under the first free name of `"<name> copy"`,
    /// `"<name> copy 2"`, ..., and selects the copy. Nothing changes when `name` is absent.
    pub fn duplicate_request_body(&mut self, name: &str)
        requires
            old(self).spec matches Some(s) && s.components matches Some(c) ==> c.request_bodies@.len() < usize::MAX,
        ensures
            ({
                let pick = |c: Components| c.request_bodies@;
                if old(self).spec matches Some(os) && os.components matches Some(oc) && has_key(pick(oc), name@) {
                    exists|nn: Seq<char>| {
                        &&& #[trigger] component_duplicated(*old(self), *final(self), name@, nn, CompKindField::RequestBodies, pick)
                        &&& final(self).dirty
                        &&& final(self).selection@ == kind_selection(CompKindField::RequestBodies, nn)
                    }
                } else {
                    *final(self) == *old(self)
                }
            }),
            only_doc_changed(*old(self), *final(self)),
    {
        proof {
            reveal_strlit(" copy");
            reveal_strlit(" copy ");
        }
        let ghost mut nn: Seq<char> = Seq::empty();
        if let Some(spec) = &mut self.spec {
            if let Some(comps) = &mut spec.components {
                if let Some(new_name) = duplicate_entry(&mut comps.request_bodies, name, " copy", " copy ") {
                    proof {
                        nn = new_name@;
                    }
                    self.dirty = true;
                    self.selection = make_selection(CompKindField::RequestBodies, new_name);
                }
            }
        }
        proof {
            let pick = |c: Components| c.request_bodies@;
            if old(self).spec matches Some(os) && os.components matches Some(oc) && has_key(pick(oc), name@) {
                assert(component_duplicated(*old(self), *self, name@, nn, CompKindField::RequestBodies, pick));
            }
        }
    }

    /// Adds the response `name` (an empty one) unless present, and selects it.
    /// An empty name, or no open document, changes nothing.
    pub fn add_component_response(&mut self, name: String)
        ensures
            (name@.len() == 0 || old(self).spec is None) ==> *final(self) == *old(self),
            (name@.len() > 0 && old(self).spec is Some) ==> {
                &&& component_added(
                    *old(self),
                    *final(self),
                    name@,
                    CompKindField::Responses,
                    |c: Components| c.responses@,
                    |v: RefOr<Response>| fresh_response(v),
                )
                &&& final(self).dirty
                &&& final(self).selection@ == kind_selection(CompKindField::Responses, name@)
                &&& only_doc_changed(*old(self), *final(self))
            },
    {
        if name.as_str().is_empty() {
            return;
        }
        if self.spec.is_none() {
            return;
        }
        self.ensure_components();
        if let Some(spec) = &mut self.spec {
            if let Some(comps) = &mut spec.components {
                comps.responses.insert_if_absent(name.clone(), RefOr::Item(Response::default()));
            }
            self.dirty = true;
            self.selection = make_selection(CompKindField::Responses, name);
        }
    }

    /// Removes the component `name`; a selection of it is cleared.
    pub fn delete_component_response(&mut self, name: &str)
        ensures
            component_removed(*old(self), *final(self), name@, CompKindField::Responses, |c: Components| c.responses@),
            selection_after_delete(old(self).selection, final(self).selection, kind_selection(CompKindField::Responses, name@)),
            only_doc_changed(*old(self), *final(self)),
    {
        if let Some(spec) = &mut self.spec {
            if let Some(comps) = &mut spec.components {
                comps.responses.shift_remove(name);
                self.dirty = true;
            }
        }
        if selection_is(&self.selection, CompKindField::Responses, name) {
            self.selection = Selection::Nothing;
        }
    }

    /// Copies the component `name` under the first free name of `"<name> copy"`,
    /// `"<name> copy 2"`, ..., and selects the copy. Nothing changes when `name` is absent.
    pub fn duplicate_component_response(&mut self, name: &str)
        requires
            old(self).spec matches Some(s) && s.components matches Some(c) ==> c.responses@.len() < usize::MAX,
        ensures
            ({
                let pick = |c: Components| c.responses@;
                if old(self).spec matches Some(os) && os.components matches Some(oc) && has_key(pick(oc), name@) {
                    exists|nn: Seq<char>| {
                        &&& #[trigger] component_duplicated(*old(self), *final(self), name@, nn, CompKindField::Responses, pick)
                        &&& final(self).dirty
                        &&& final(self).selection@ == kind_selection(CompKindField::Responses, nn)
                    }
                } else {
                    *final(self) == *old(self)
                }
            }),
            only_doc_changed(*old(self), *final(self)),
    {
        proof {
            reveal_strlit(" copy");
            reveal_strlit(" copy ");
        }
        let ghost mut nn: Seq<char> = Seq::empty();
        if let Some(spec) = &mut self.spec {
            if let Some(comps) = &mut spec.components {
                if let Some(new_name) = duplicate_entry(&mut comps.responses, name, " copy", " copy ") {
                    proof {
                        nn = new_name@;
                    }
                    self.dirty = true;
                    self.selection = make_selection(CompKindField::Responses, new_name);
                }
            }
        }
        proof {
            let pick = |c: Components| c.responses@;
            if old(self).spec matches Some(os) && os.components matches Some(oc) && has_key(pick(oc), name@) {
                assert(component_duplicated(*old(self), *self, name@, nn, CompKindField::Responses, pick));
            }
        }
    }

    /// Adds the parameter `name` (an empty one) unless present, and selects it.
    /// An empty name, or no open document, changes nothing.
    pub fn add_component_parameter(&mut self, name: String)
        ensures
            (name@.len() == 0 || old(self).spec is None) ==> *final(self) == *old(self),
            (name@.len() > 0 && old(self).spec is Some) ==> {
                &&& component_added(
                    *old(self),
                    *final(self),
                    name@,
                    CompKindField::Parameters,
                    |c: Components| c.parameters@,
                    |v: RefOr<Parameter>| fresh_parameter(v),
                )
                &&& final(self).dirty
                &&& final(self).selection@ == kind_selection(CompKindField::Parameters, name@)
                &&& only_doc_changed(*old(self), *final(self))
            },
    {
        if name.as_str().is_empty() {
            return;
        }
        if self.spec.is_none() {
            return;
        }
        self.ensure_components();
        if let Some(spec) = &mut self.spec {
            if let Some(comps) = &mut spec.components {
                comps.parameters.insert_if_absent(name.clone(), RefOr::Item(Parameter::default()));
            }
            self.dirty = true;
            self.selection = make_selection(CompKindField::Parameters, name);
        }
    }

    /// Removes the component `name`; a selection of it is cleared.
    pub fn delete_component_parameter(&mut self, name: &str)
        ensures
            component_removed(*old(self), *final(self), name@, CompKindField::Parameters, |c: Components| c.parameters@),
            selection_after_delete(old(self).selection, final(self).selection, kind_selection(CompKindField::Parameters, name@)),
            only_doc_changed(*old(self), *final(self)),
    {
        if let Some(spec) = &mut self.spec {
            if let Some(comps) = &mut spec.components {
                comps.parameters.shift_remove(name);
                self.dirty = true;
            }
        }
        if selection_is(&self.selection, CompKindField::Parameters, name) {
            self.selection = Selection::Nothing;
        }
    }

    /// Copies the component `name` under the first free name of `"<name> copy"`,
    /// `"<name> copy 2"`, ..., and selects the copy. Nothing changes when `name` is absent.
    pub fn duplicate_component_parameter(&mut self, name: &str)
        requires
            old(self).spec matches Some(s) && s.components matches Some(c) ==> c.parameters@.len() < usize::MAX,
        ensures
            ({
                let pick = |c: Components| c.parameters@;
                if old(self).spec matches Some(os) && os.components matches Some(oc) && has_key(pick(oc), name@) {
                    exists|nn: Seq<char>| {
                        &&& #[trigger] component_duplicated(*old(self), *final(self), name@, nn, CompKindField::Parameters, pick)
                        &&& final(self).dirty
                        &&& final(self).selection@ == kind_selection(CompKindField::Parameters, nn)
                    }
                } else {
                    *final(self) == *old(self)
                }
            }),
            only_doc_changed(*old(self), *final(self)),
    {
        proof {
            reveal_strlit(" copy");
            reveal_strlit(" copy ");
        }
        let ghost mut nn: Seq<char> = Seq::empty();
        if let Some(spec) = &mut self.spec {
            if let Some(comps) = &mut spec.components {
                if let Some(new_name) = duplicate_entry(&mut comps.parameters, name, " copy", " copy ") {
                    proof {
                        nn = new_name@;
                    }
                    self.dirty = true;
                    self.selection = make_selection(CompKindField::Parameters, new_name);
                }
            }
        }
        proof {
            let pick = |c: Components| c.parameters@;
            if old(self).spec matches Some(os) && os.components matches Some(oc) && has_key(pick(oc), name@) {
                assert(component_duplicated(*old(self), *self, name@, nn, CompKindField::Parameters, pick));
            }
        }
    }

    /// Adds the example `name` (an empty one) unless present, and selects it.
    /// An empty name, or no open document, changes nothing.
    pub fn add_example(&mut self, name: String)
        ensures
            (name@.len() == 0 || old(self).spec is None) ==> *final(self) == *old(self),
            (name@.len() > 0 && old(self).spec is Some) ==> {
                &&& component_added(
                    *old(self),
                    *final(self),
                    name@,
                    CompKindField::Examples,
                    |c: Components| c.examples@,
                    |v: RefOr<OaExample>| fresh_example(v),
                )
                &&& final(self).dirty
                &&& final(self).selection@ == kind_selection(CompKindField::Examples, name@)
                &&& only_doc_changed(*old(self), *final(self))
            },
    {
        if name.as_str().is_empty() {
            return;
        }
        if self.spec.is_none() {
            return;
        }
        self.ensure_components();
        if let Some(spec) = &mut self.spec {
            if let Some(comps) = &mut spec.components {
                comps.examples.insert_if_absent(name.clone(), RefOr::Item(OaExample::default()));
            }
            self.dirty = true;
            self.selection = make_selection(CompKindField::Examples, name);
        }
    }

    /// Removes the component `name`; a selection of it is cleared.
    pub fn delete_example(&mut self, name: &str)
        ensures
            component_removed(*old(self), *final(self), name@, CompKindField::Examples, |c: Components| c.examples@),
            selection_after_delete(old(self).selection, final(self).selection, kind_selection(CompKindField::Examples, name@)),
            only_doc_changed(*old(self), *final(self)),
    {
        if let Some(spec) = &mut self.spec {
            if let Some(comps) = &mut spec.components {
                comps.examples.shift_remove(name);
                self.dirty = true;
            }
        }
        if selection_is(&self.selection, CompKindField::Examples, name) {
            self.selection = Selection::Nothing;
        }
    }

    /// Copies the component `name` under the first free name of `"<name> copy"`,
    /// `"<name> copy 2"`, ..., and selects the copy. Nothing changes when `name` is absent.
    pub fn duplicate_example(&mut self, name: &str)
        requires
            old(self).spec matches Some(s) && s.components matches Some(c) ==> c.examples@.len() < usize::MAX,
        ensures
            ({
                let pick = |c: Components| c.examples@;
                if old(self).spec matches Some(os) && os.components matches Some(oc) && has_key(pick(oc), name@) {
                    exists|nn: Seq<char>| {
                        &&& #[trigger] component_duplicated(*old(self), *final(self), name@, nn, CompKindField::Examples, pick)
                        &&& final(self).dirty
                        &&& final(self).selection@ == kind_selection(CompKindField::Examples, nn)
                    }
                } else {
                    *final(self) == *old(self)
                }
            }),
            only_doc_changed(*old(self), *final(self)),
    {
        proof {
            reveal_strlit(" copy");
            reveal_strlit(" copy ");
        }
        let ghost mut nn: Seq<char> = Seq::empty();
        if let Some(spec) = &mut self.spec {
            if let Some(comps) = &mut spec.components {
                if let Some(new_name) = duplicate_entry(&mut comps.examples, name, " copy", " copy ") {
                    proof {
                        nn = new_name@;
                    }
                    self.dirty = true;
                    self.selection = make_selection(CompKindField::Examples, new_name);
                }
            }
        }
        proof {
            let pick = |c: Components| c.examples@;
            if old(self).spec matches Some(os) && os.components matches Some(oc) && has_key(pick(oc), name@) {
                assert(component_duplicated(*old(self), *self, name@, nn, CompKindField::Examples, pick));
            }
        }
    }
}

/// The key under which `add_path` stores a path: with a leading `/`.
pub open spec fn path_key(p: Seq<char>) -> Seq<char> {
    if p.len() > 0 && p[0] == '/' {
        p
    } else {
        "/"@ + p
    }
}

/// The document of `new` is that of `old` with other `paths`.
pub open spec fn paths_changed(old: App, new: App) -> bool {
    &&& old.spec matches Some(os)
    &&& new.spec matches Some(ns)
    &&& ns == (OpenApiSpec { paths: ns.paths, ..os })
}

/// The first free name of `"<base> copy"`, `"<base> copy 2"`, ... among the keys of `taken`.
pub fn unique_name<T>(base: &str, taken: &OrderedMap<T>) -> (r: String)
    requires
        taken@.len() < usize::MAX,
    ensures
        first_free(base@, " copy"@, " copy "@, taken@, r@),
{
    proof {
        reveal_strlit(" copy");
        reveal_strlit(" copy ");
    }
    first_free_name(base, " copy", " copy ", taken)
}

/// The first free key of `"<base>_copy"`, `"<base>_copy2"`, ... among the keys of `taken`.
pub fn unique_path_key<T>(base: &str, taken: &OrderedMap<T>) -> (r: String)
    requires
        taken@.len() < usize::MAX,
    ensures
        first_free(base@, "_copy"@, "_copy"@, taken@, r@),
{
    first_free_name(base, "_copy", "_copy", taken)
}

impl App {
    /// Adds the path `path` (with a leading `/` added when missing) unless present, and
    /// selects it. An empty path, or no open document, changes nothing.
    pub fn add_path(&mut self, path: String)
        ensures
            (path@.len() == 0 || old(self).spec is None) ==> *final(self) == *old(self),
            (path@.len() > 0 && old(self).spec is Some) ==> {
                &&& paths_changed(*old(self), *final(self))
                &&& added(
                    old(self).spec->0.paths@,
                    final(self).spec->0.paths@,
                    path_key(path@),
                    |v: PathItem| v.is_default_value(),
                )
                &&& final(self).dirty
                &&& final(self).selection@ == SelectionView::Path(path_key(path@))
                &&& only_doc_changed(*old(self), *final(self))
            },
    {
        if path.as_str().is_empty() {
            return;
        }
        if let Some(spec) = &mut self.spec {
            let key = if crate::text::starts_with_char(path.as_str(), '/') {
                path.clone()
            } else {
                cat("/", path.as_str())
            };
            spec.paths.insert_if_absent(key.clone(), PathItem::default());
            self.dirty = true;
            self.selection = Selection::Path(key);
        }
    }

    /// Gives the path `path` an empty operation for `method` and selects it. Nothing changes
    /// when there is no document or no such path; a `method` that is not an HTTP method
    /// leaves the path item as it was but still selects.
    pub fn add_operation(&mut self, path: &str, method: &str)
        ensures
            (old(self).spec matches Some(os) && has_key(os.paths@, path@)) ==> {
                let os = old(self).spec->0;
                let i = find_key(os.paths@, path@);
                &&& paths_changed(*old(self), *final(self))
                &&& exists|op: Operation| #[trigger] op.is_default_value() && final(self).spec->0.paths@
                    =~= os.paths@.update(
                    i,
                    (path@, os.paths@[i].1.with_slot(method_slot(method@), Some(op))),
                )
                &&& final(self).dirty
                &&& final(self).selection@ == SelectionView::Operation(path@, method@)
                &&& only_doc_changed(*old(self), *final(self))
            },
            !(old(self).spec matches Some(os) && has_key(os.paths@, path@)) ==> *final(self)
                == *old(self),
    {
        if let Some(spec) = &mut self.spec {
            if let Some(i) = spec.paths.index_of(path) {
                proof {
                    lemma_find_key(spec.paths@, path@);
                }
                let item = spec.paths.value_at_mut(i);
                let op = Operation::default();
                let ghost opv = op;
                item.set_operation(method, Some(op));
                self.dirty = true;
                self.selection = Selection::Operation(String::from_str(path), String::from_str(method));
                assert(opv.is_default_value());
            }
        }
    }

    /// Removes the path `path`; a selection of it or of one of its operations is cleared.
    pub fn delete_path(&mut self, path: &str)
        ensures
            match old(self).spec {
                Some(os) => {
                    &&& paths_changed(*old(self), *final(self))
                    &&& final(self).spec->0.paths@ == remove_spec(os.paths@, path@)
                    &&& final(self).dirty
                },
                None => final(self).spec is None && final(self).dirty == old(self).dirty,
            },
            match old(self).selection@ {
                SelectionView::Path(p) => if p == path@ {
                    final(self).selection@ == SelectionView::Nothing
                } else {
                    final(self).selection == old(self).selection
                },
                SelectionView::Operation(p, _) => if p == path@ {
                    final(self).selection@ == SelectionView::Nothing
                } else {
                    final(self).selection == old(self).selection
                },
                _ => final(self).selection == old(self).selection,
            },
            only_doc_changed(*old(self), *final(self)),
    {
        if let Some(spec) = &mut self.spec {
            spec.paths.shift_remove(path);
            self.dirty = true;
        }
        let n = String::from_str(path);
        let clear = match &self.selection {
            Selection::Path(p) => *p == n,
            Selection::Operation(p, _) => *p == n,
            _ => false,
        };
        if clear {
            self.selection = Selection::Nothing;
        }
    }

    /// Copies the path `path` under the first free key of `"<path>_copy"`,
    /// `"<path>_copy2"`, ..., and selects the copy. Nothing changes when it is absent.
    pub fn duplicate_path(&mut self, path: &str)
        requires
            old(self).spec matches Some(s) ==> s.paths@.len() < usize::MAX,
        ensures
            (old(self).spec matches Some(os) && has_key(os.paths@, path@)) ==> exists|nk: Seq<char>| {
                &&& paths_changed(*old(self), *final(self))
                &&& #[trigger] copied_entry(
                    old(self).spec->0.paths@,
                    final(self).spec->0.paths@,
                    path@,
                    nk,
                    "_copy"@,
                    "_copy"@,
                )
                &&& final(self).dirty
                &&& final(self).selection@ == SelectionView::Path(nk)
            },
            !(old(self).spec matches Some(os) && has_key(os.paths@, path@)) ==> *final(self)
                == *old(self),
            only_doc_changed(*old(self), *final(self)),
    {
        let ghost mut nk: Seq<char> = Seq::empty();
        if let Some(spec) = &mut self.spec {
            if let Some(new_key) = duplicate_entry(&mut spec.paths, path, "_copy", "_copy") {
                proof {
                    nk = new_key@;
                }
                self.dirty = true;
                self.selection = Selection::Path(new_key);
            }
        }
        proof {
            if old(self).spec matches Some(os) && has_key(os.paths@, path@) {
                assert(copied_entry(old(self).spec->0.paths@, self.spec->0.paths@, path@, nk, "_copy"@, "_copy"@));
            }
        }
    }
}

} // verus!
