//! Default CRUD paths for a schema: a collection path with list and create, and an item
//! path with get, update, partial update and delete.
use vstd::prelude::*;
use crate::editor::{paths_changed, App, Selection, SelectionView};
use crate::json::JsonValue;
use crate::model::{MediaType, Operation, Parameter, PathItem, Ref, RefOr, RequestBody, Response, Schema};
use crate::ordered_map::{find_key, has_key, lemma_find_key, OrderedMap};
use crate::resource::{display_spec, kebab_spec, pluralize_spec, schema_to_resource_parts};
use crate::text::{cat, cat3, push_char, to_chars};

verus! {

/// `s` with every space removed.
pub open spec fn without_spaces(s: Seq<char>) -> Seq<char>
    decreases s.len(),
{
    if s.len() == 0 {
        s
    } else {
        without_spaces(s.drop_last()) + (if s.last() == ' ' {
            Seq::empty()
        } else {
            seq![s.last()]
        })
    }
}

/// The collection path of a schema: `/` and the kebab-case plural of its name.
pub open spec fn collection_path(name: Seq<char>) -> Seq<char> {
    "/"@ + pluralize_spec(kebab_spec(name))
}

/// The item path of a schema: its collection path and `/{id}`.
pub open spec fn item_path(name: Seq<char>) -> Seq<char> {
    collection_path(name) + "/{id}"@
}

/// The reference to a schema among the components.
pub open spec fn schema_ref(name: Seq<char>) -> Seq<char> {
    "#/components/schemas/"@ + name
}

/// The plural of a schema name for display (`"BlogPost"` → `"Blog Posts"`).
pub open spec fn plural_display(name: Seq<char>) -> Seq<char> {
    display_spec(pluralize_spec(kebab_spec(name)))
}

/// A single `application/json` entry whose schema is a reference to `target`.
pub open spec fn json_ref_content(c: Seq<(Seq<char>, MediaType)>, target: Seq<char>) -> bool {
    &&& c.len() == 1
    &&& c[0].0 == "application/json"@
    &&& c[0].1.schema matches Some(RefOr::Ref(r)) && r.ref_@ == target && r.summary is None
        && r.description is None
    &&& c[0].1.example is None
    &&& c[0].1.examples@.len() == 0
}

/// An array schema whose items are a reference to `target`, and nothing else.
pub open spec fn array_of_ref(s: Schema, target: Seq<char>) -> bool {
    &&& s.type_ matches Some(JsonValue::String(t)) && t@ == "array"@
    &&& s.items matches Some(b) && b.ref_ matches Some(r) && r@ == target && (Schema {
        ref_: None,
        ..*b
    }).is_default_value()
    &&& (Schema { type_: None, items: None, ..s }).is_default_value()
}

/// A single `application/json` entry whose schema is an array of `target`.
pub open spec fn json_list_content(c: Seq<(Seq<char>, MediaType)>, target: Seq<char>) -> bool {
    &&& c.len() == 1
    &&& c[0].0 == "application/json"@
    &&& c[0].1.schema matches Some(RefOr::Item(s)) && array_of_ref(s, target)
    &&& c[0].1.example is None
    &&& c[0].1.examples@.len() == 0
}

/// A response with description `d`, no headers and no links.
pub open spec fn described(v: RefOr<Response>, d: Seq<char>) -> bool {
    v matches RefOr::Item(r) && r.description@ == d && r.headers@.len() == 0 && r.links@.len() == 0
}

/// A response with description `d` and nothing else.
pub open spec fn plain_response(v: RefOr<Response>, d: Seq<char>) -> bool {
    described(v, d) && v->Item_0.content@.len() == 0
}

/// `OK` with the schema `target` as JSON.
pub open spec fn ok_response(v: RefOr<Response>, target: Seq<char>) -> bool {
    described(v, "OK"@) && json_ref_content(v->Item_0.content@, target)
}

/// `OK` with an array of `target` as JSON.
pub open spec fn list_response(v: RefOr<Response>, target: Seq<char>) -> bool {
    described(v, "OK"@) && json_list_content(v->Item_0.content@, target)
}

/// The required path parameter `id`, a string.
pub open spec fn id_parameter(p: RefOr<Parameter>) -> bool {
    &&& p matches RefOr::Item(x)
    &&& x.name@ == "id"@
    &&& x.in_@ == "path"@
    &&& x.required == Some(true)
    &&& x.schema matches Some(RefOr::Item(s)) && s.type_ matches Some(JsonValue::String(t)) && t@
        == "string"@ && (Schema { type_: None, ..s }).is_default_value()
    &&& x.description is None
    &&& x.deprecated is None
    &&& x.allow_empty_value is None
    &&& x.style is None
    &&& x.explode is None
    &&& x.example is None
    &&& x.examples@.len() == 0
}

/// A required JSON request body of the schema `target`.
pub open spec fn json_body(b: Option<RefOr<RequestBody>>, target: Seq<char>) -> bool {
    b matches Some(RefOr::Item(x)) && x.description is None && x.required == Some(true)
        && json_ref_content(x.content@, target)
}

/// An operation with the given id and summary, and no tags, description, documentation,
/// deprecation, security or servers.
pub open spec fn titled(op: Operation, id: Seq<char>, summary: Seq<char>) -> bool {
    &&& op.operation_id matches Some(s) && s@ == id
    &&& op.summary matches Some(t) && t@ == summary
    &&& op.tags@.len() == 0
    &&& op.description is None
    &&& op.external_docs is None
    &&& op.deprecated is None
    &&& op.security is None
    &&& op.servers@.len() == 0
}

/// Its parameters are the `id` parameter alone.
pub open spec fn takes_id(op: Operation) -> bool {
    op.parameters@.len() == 1 && id_parameter(op.parameters@[0])
}

/// `200` with the item, `404` when it is missing.
pub open spec fn ok_or_not_found(op: Operation, target: Seq<char>) -> bool {
    &&& op.responses@.len() == 2
    &&& op.responses@[0].0 == "200"@ && ok_response(op.responses@[0].1, target)
    &&& op.responses@[1].0 == "404"@ && plain_response(op.responses@[1].1, "Not Found"@)
}

/// `GET` on the collection: lists the items.
pub open spec fn list_op(op: Operation, name: Seq<char>) -> bool {
    &&& titled(op, "list"@ + without_spaces(plural_display(name)), "List "@ + plural_display(name))
    &&& op.parameters@.len() == 0
    &&& op.request_body is None
    &&& op.responses@.len() == 1
    &&& op.responses@[0].0 == "200"@ && list_response(op.responses@[0].1, schema_ref(name))
}

/// `POST` on the collection: creates an item.
pub open spec fn create_op(op: Operation, name: Seq<char>) -> bool {
    &&& titled(op, "create"@ + name, "Create "@ + name)
    &&& op.parameters@.len() == 0
    &&& json_body(op.request_body, schema_ref(name))
    &&& op.responses@.len() == 1
    &&& op.responses@[0].0 == "201"@ && plain_response(op.responses@[0].1, "Created"@)
}

/// `GET` on the item.
pub open spec fn get_op(op: Operation, name: Seq<char>) -> bool {
    &&& titled(op, "get"@ + name, "Get "@ + name)
    &&& takes_id(op)
    &&& op.request_body is None
    &&& ok_or_not_found(op, schema_ref(name))
}

/// `PUT` on the item.
pub open spec fn update_op(op: Operation, name: Seq<char>) -> bool {
    &&& titled(op, "update"@ + name, "Update "@ + name)
    &&& takes_id(op)
    &&& json_body(op.request_body, schema_ref(name))
    &&& ok_or_not_found(op, schema_ref(name))
}

/// `PATCH` on the item.
pub open spec fn patch_op(op: Operation, name: Seq<char>) -> bool {
    &&& titled(op, "patch"@ + name, "Partially Update "@ + name)
    &&& takes_id(op)
    &&& json_body(op.request_body, schema_ref(name))
    &&& ok_or_not_found(op, schema_ref(name))
}

/// `DELETE` on the item.
pub open spec fn delete_op(op: Operation, name: Seq<char>) -> bool {
    &&& titled(op, "delete"@ + name, "Delete "@ + name)
    &&& takes_id(op)
    &&& op.request_body is None
    &&& op.responses@.len() == 2
    &&& op.responses@[0].0 == "204"@ && plain_response(op.responses@[0].1, "No Content"@)
    &&& op.responses@[1].0 == "404"@ && plain_response(op.responses@[1].1, "Not Found"@)
}

/// An operation that was there stays; an empty slot gets one that satisfies `made`.
pub open spec fn kept_or_made(old: Option<Operation>, new: Option<Operation>, made: bool) -> bool {
    match old {
        Some(_) => new == old,
        None => new is Some && made,
    }
}

/// The operation in slot `i` of a path item that may be absent.
pub open spec fn old_op(o: Option<PathItem>, i: int) -> Option<Operation> {
    match o {
        Some(p) => p.slot(i),
        None => None,
    }
}

/// `n` is the path item `o` (an empty one when absent) with its empty slots among those
/// of the collection (`GET`, `POST`) or of the item (`GET`, `PUT`, `PATCH`, `DELETE`)
/// filled with the generated operations.
pub open spec fn path_filled(o: Option<PathItem>, n: PathItem, name: Seq<char>, is_item: bool) -> bool {
    if is_item {
        &&& match o {
            Some(p) => n == PathItem { get: n.get, put: n.put, patch: n.patch, delete: n.delete, ..p },
            None => (PathItem { get: None, put: None, patch: None, delete: None, ..n }).is_default_value(),
        }
        &&& kept_or_made(old_op(o, 0), n.get, get_op(n.get->0, name))
        &&& kept_or_made(old_op(o, 1), n.put, update_op(n.put->0, name))
        &&& kept_or_made(old_op(o, 6), n.patch, patch_op(n.patch->0, name))
        &&& kept_or_made(old_op(o, 3), n.delete, delete_op(n.delete->0, name))
    } else {
        &&& match o {
            Some(p) => n == PathItem { get: n.get, post: n.post, ..p },
            None => (PathItem { get: None, post: None, ..n }).is_default_value(),
        }
        &&& kept_or_made(old_op(o, 0), n.get, list_op(n.get->0, name))
        &&& kept_or_made(old_op(o, 2), n.post, create_op(n.post->0, name))
    }
}

/// `new` is `old` with the entry `key` filled as `path_filled` says: in place when it was
/// there, appended when it was not.
pub open spec fn entry_filled(
    old: Seq<(Seq<char>, PathItem)>,
    new: Seq<(Seq<char>, PathItem)>,
    key: Seq<char>,
    name: Seq<char>,
    is_item: bool,
) -> bool {
    if has_key(old, key) {
        let i = find_key(old, key);
        &&& new.len() == old.len()
        &&& new[i].0 == key
        &&& path_filled(Some(old[i].1), new[i].1, name, is_item)
        &&& forall|j: int| 0 <= j < old.len() && j != i ==> new[j] == old[j]
    } else {
        &&& new.len() == old.len() + 1
        &&& new.drop_last() =~= old
        &&& new.last().0 == key
        &&& path_filled(None, new.last().1, name, is_item)
    }
}

/// The characters of `s` without its spaces.
fn remove_spaces(s: &str) -> (r: String)
    ensures
        r@ == without_spaces(s@),
{
    let v = to_chars(s);
    let mut r = String::new();
    let mut i: usize = 0;
    assert(v@.subrange(0, 0) =~= Seq::<char>::empty());
    while i < v.len()
        invariant
            v@ == s@,
            i <= v@.len(),
            r@ == without_spaces(v@.subrange(0, i as int)),
        decreases v@.len() - i,
    {
        assert(v@.subrange(0, i + 1).drop_last() =~= v@.subrange(0, i as int));
        if v[i] != ' ' {
            push_char(&mut r, v[i]);
        }
        i += 1;
        assert(r@ =~= without_spaces(v@.subrange(0, i as int)));
    }
    assert(v@.subrange(0, v@.len() as int) =~= v@);
    r
}

/// A map holding the single entry `application/json` with `m`.
fn json_content(m: MediaType) -> (c: OrderedMap<MediaType>)
    ensures
        c@ == seq![("application/json"@, m)],
{
    let mut c = OrderedMap::new();
    c.insert(String::from_str("application/json"), m);
    assert(c@ =~= seq![("application/json"@, m)]);
    c
}

/// A media type whose schema is a reference to `target`.
fn ref_media(target: &str) -> (m: MediaType)
    ensures
        m.schema matches Some(RefOr::Ref(r)) && r.ref_@ == target@ && r.summary is None
            && r.description is None,
        m.example is None,
        m.examples@.len() == 0,
{
    let mut m = MediaType::default();
    m.schema = Some(RefOr::Ref(Ref::to(String::from_str(target))));
    m
}

/// A response with description `d` and nothing else.
fn plain(d: &str) -> (r: RefOr<Response>)
    ensures
        plain_response(r, d@),
{
    let mut x = Response::default();
    x.description = String::from_str(d);
    RefOr::Item(x)
}

/// `OK` with the schema `target` as JSON.
fn ok_resp(target: &str) -> (r: RefOr<Response>)
    ensures
        ok_response(r, target@),
{
    let mut x = Response::default();
    x.description = String::from_str("OK");
    x.content = json_content(ref_media(target));
    RefOr::Item(x)
}

/// `OK` with an array of `target` as JSON.
fn list_resp(target: &str) -> (r: RefOr<Response>)
    ensures
        list_response(r, target@),
{
    let mut item = Schema::default();
    item.ref_ = Some(String::from_str(target));
    let mut arr = Schema::default();
    arr.type_ = Some(JsonValue::String(String::from_str("array")));
    arr.items = Some(Box::new(item));
    let mut m = MediaType::default();
    m.schema = Some(RefOr::Item(arr));
    let mut x = Response::default();
    x.description = String::from_str("OK");
    x.content = json_content(m);
    RefOr::Item(x)
}

/// The required path parameter `id`, a string.
fn id_param() -> (p: RefOr<Parameter>)
    ensures
        id_parameter(p),
{
    let mut s = Schema::default();
    s.type_ = Some(JsonValue::String(String::from_str("string")));
    let mut x = Parameter::default();
    x.name = String::from_str("id");
    x.in_ = String::from_str("path");
    x.required = Some(true);
    x.schema = Some(RefOr::Item(s));
    RefOr::Item(x)
}

/// A required JSON request body of the schema `target`.
fn body(target: &str) -> (b: Option<RefOr<RequestBody>>)
    ensures
        json_body(b, target@),
{
    let mut x = RequestBody::default();
    x.content = json_content(ref_media(target));
    x.required = Some(true);
    Some(RefOr::Item(x))
}

/// An operation with the given id and summary and nothing else.
fn titled_op(id: String, summary: String) -> (op: Operation)
    ensures
        titled(op, id@, summary@),
        op.parameters@.len() == 0,
        op.request_body is None,
        op.responses@.len() == 0,
{
    let mut op = Operation::default();
    op.operation_id = Some(id);
    op.summary = Some(summary);
    op
}

/// A map of the response `r` under `code` (`200` or `204`) and `Not Found` under `404`.
fn with_not_found(code: &str, r: RefOr<Response>) -> (m: OrderedMap<RefOr<Response>>)
    requires
        code@ == "200"@ || code@ == "204"@,
    ensures
        m@.len() == 2,
        m@[0] == (code@, r),
        m@[1].0 == "404"@ && plain_response(m@[1].1, "Not Found"@),
{
    proof {
        reveal_strlit("200");
        reveal_strlit("204");
        reveal_strlit("404");
        assert(code@[0] != "404"@[0]);
    }
    let mut m = OrderedMap::new();
    m.insert(String::from_str(code), r);
    proof {
        lemma_find_key(m@, "404"@);
    }
    m.insert(String::from_str("404"), plain("Not Found"));
    assert(m@.len() == 2);
    m
}

/// A map of one response.
fn one_response(c: &str, r: RefOr<Response>) -> (m: OrderedMap<RefOr<Response>>)
    ensures
        m@ == seq![(c@, r)],
{
    let mut m = OrderedMap::new();
    m.insert(String::from_str(c), r);
    assert(m@ =~= seq![(c@, r)]);
    m
}

/// Fills the empty collection slots (`GET`, `POST`) of `e`.
fn fill_collection(e: &mut PathItem, name: &str, display: &str, target: &str)
    requires
        display@ == plural_display(name@),
        target@ == schema_ref(name@),
    ensures
        path_filled(Some(*old(e)), *final(e), name@, false),
{
    if e.get.is_none() {
        let mut op = titled_op(cat("list", remove_spaces(display).as_str()), cat("List ", display));
        op.responses = one_response("200", list_resp(target));
        e.get = Some(op);
    }
    if e.post.is_none() {
        let mut op = titled_op(cat("create", name), cat("Create ", name));
        op.request_body = body(target);
        op.responses = one_response("201", plain("Created"));
        e.post = Some(op);
    }
}

/// Fills the empty item slots (`GET`, `PUT`, `PATCH`, `DELETE`) of `e`.
fn fill_item(e: &mut PathItem, name: &str, target: &str)
    requires
        target@ == schema_ref(name@),
    ensures
        path_filled(Some(*old(e)), *final(e), name@, true),
{
    if e.get.is_none() {
        let mut op = titled_op(cat("get", name), cat("Get ", name));
        op.parameters = vec![id_param()];
        op.responses = with_not_found("200", ok_resp(target));
        e.get = Some(op);
    }
    if e.put.is_none() {
        let mut op = titled_op(cat("update", name), cat("Update ", name));
        op.parameters = vec![id_param()];
        op.request_body = body(target);
        op.responses = with_not_found("200", ok_resp(target));
        e.put = Some(op);
    }
    if e.patch.is_none() {
        let mut op = titled_op(cat("patch", name), cat("Partially Update ", name));
        op.parameters = vec![id_param()];
        op.request_body = body(target);
        op.responses = with_not_found("200", ok_resp(target));
        e.patch = Some(op);
    }
    if e.delete.is_none() {
        let mut op = titled_op(cat("delete", name), cat("Delete ", name));
        op.parameters = vec![id_param()];
        op.responses = with_not_found("204", plain("No Content"));
        e.delete = Some(op);
    }
}

/// Fills the entry `key` of `paths`, adding an empty path item first when it is absent.
fn fill_entry(
    paths: &mut OrderedMap<PathItem>,
    key: String,
    name: &str,
    display: &str,
    target: &str,
    is_item: bool,
)
    requires
        display@ == plural_display(name@),
        target@ == schema_ref(name@),
    ensures
        entry_filled(old(paths)@, final(paths)@, key@, name@, is_item),
{
    let ghost k = key@;
    let i = paths.entry_index(key, PathItem::default());
    let ghost mid = paths@;
    let e = paths.value_at_mut(i);
    let ghost before = *e;
    if is_item {
        fill_item(e, name, target);
    } else {
        fill_collection(e, name, display, target);
    }
    proof {
        lemma_find_key(old(paths)@, k);
        if has_key(old(paths)@, k) {
            assert(mid == old(paths)@);
        } else {
            assert(paths@.drop_last() =~= old(paths)@);
            assert(before.is_default_value());
        }
    }
}

/// `new` is `old` after adding the default CRUD paths of the schema `name` to an open
/// document: the collection path filled, then the item path, and the collection selected.
pub open spec fn default_paths_added(old: App, new: App, name: Seq<char>) -> bool {
    &&& paths_changed(old, new)
    &&& exists|mid: Seq<(Seq<char>, PathItem)>| #[trigger]
        entry_filled(old.spec->0.paths@, mid, collection_path(name), name, false) && entry_filled(
            mid,
            new.spec->0.paths@,
            item_path(name),
            name,
            true,
        )
    &&& new.dirty
    &&& new.selection@ == SelectionView::Path(collection_path(name))
    &&& new.status@ == "Added default CRUD paths for "@ + name + "."@
    &&& new == (App { spec: new.spec, dirty: true, selection: new.selection, status: new.status, ..old })
}

impl App {
    /// Adds the default CRUD paths for the schema `schema_name` and selects the collection
    /// path: `/<plural>` gets `GET` (list) and `POST` (create), `/<plural>/{id}` gets `GET`,
    /// `PUT`, `PATCH` and `DELETE`. Operations already present stay as they are. Nothing
    /// changes when no document is open.
    pub fn add_default_paths_for_schema(&mut self, schema_name: String)
        ensures
            old(self).spec is None ==> *final(self) == *old(self),
            old(self).spec is Some ==> default_paths_added(*old(self), *final(self), schema_name@),
    {
        if self.spec.is_none() {
            return;
        }
        let (_op_prefix, plural_kebab, display) = schema_to_resource_parts(schema_name.as_str());
        let collection = cat("/", plural_kebab.as_str());
        let item = cat(collection.as_str(), "/{id}");
        let target = cat("#/components/schemas/", schema_name.as_str());
        let ghost mut mid: Seq<(Seq<char>, PathItem)> = Seq::empty();
        if let Some(spec) = &mut self.spec {
            fill_entry(
                &mut spec.paths,
                collection.clone(),
                schema_name.as_str(),
                display.as_str(),
                target.as_str(),
                false,
            );
            proof {
                mid = spec.paths@;
            }
            fill_entry(
                &mut spec.paths,
                item,
                schema_name.as_str(),
                display.as_str(),
                target.as_str(),
                true,
            );
        }
        self.dirty = true;
        self.selection = Selection::Path(collection);
        self.status = cat3("Added default CRUD paths for ", schema_name.as_str(), ".");
        assert(entry_filled(
            old(self).spec->0.paths@,
            mid,
            collection_path(schema_name@),
            schema_name@,
            false,
        ));
        assert(entry_filled(mid, self.spec->0.paths@, item_path(schema_name@), schema_name@, true));
        assert(paths_changed(*old(self), *self));
    }
}

} // verus!
