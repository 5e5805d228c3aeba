//! Edits that span the document: tags and the operations that use them, renaming a path,
//! servers, and where a component example is used.
use vstd::prelude::*;
use crate::editor::{path_key, App, Selection, SelectionView};
use crate::lint::str_views;
use crate::model::{
    Contact, ExternalDocs, Info, License, MediaType, OaExample, OpenApiSpec, Operation, PathItem,
    RefOr, RequestBody, Response, Server, Tag,
};
use crate::ordered_map::{find_key, has_key, lemma_find_key, OrderedMap};
use crate::schema_edit::without;
use crate::text::{cat, cat3, is_blank, is_blank_spec, str_eq, usize_to_decimal, decimal};

verus! {

// ── Tags across operations ───────────────────────────────────────────────────

/// A change to the tag lists of operations: renaming one tag, or dropping one.
pub enum TagEdit {
    Rename(Seq<char>, Seq<char>),
    Drop(Seq<char>),
}

pub open spec fn retag(tags: Seq<Seq<char>>, e: TagEdit) -> Seq<Seq<char>> {
    match e {
        TagEdit::Rename(a, b) => tags.map_values(|t: Seq<char>| if t == a { b } else { t }),
        TagEdit::Drop(a) => without(tags, a),
    }
}

/// An operation slot after the edit: absent stays absent; an operation changes only in
/// its tags, as `e` says.
pub open spec fn op_retagged(o: Option<Operation>, n: Option<Operation>, e: TagEdit) -> bool {
    match o {
        None => n is None,
        Some(op) => n matches Some(nop) && nop == (Operation { tags: nop.tags, ..op }) && str_views(
            nop.tags@,
        ) == retag(str_views(op.tags@), e),
    }
}

/// A path item after the edit: every operation retagged, nothing else changed.
pub open spec fn item_retagged(o: PathItem, n: PathItem, e: TagEdit) -> bool {
    &&& n == PathItem {
        get: n.get,
        put: n.put,
        post: n.post,
        delete: n.delete,
        options: n.options,
        head: n.head,
        patch: n.patch,
        trace: n.trace,
        ..o
    }
    &&& op_retagged(o.get, n.get, e)
    &&& op_retagged(o.put, n.put, e)
    &&& op_retagged(o.post, n.post, e)
    &&& op_retagged(o.delete, n.delete, e)
    &&& op_retagged(o.options, n.options, e)
    &&& op_retagged(o.head, n.head, e)
    &&& op_retagged(o.patch, n.patch, e)
    &&& op_retagged(o.trace, n.trace, e)
}

/// The paths after the edit: same keys in the same order, every item retagged.
pub open spec fn paths_retagged(o: Seq<(Seq<char>, PathItem)>, n: Seq<(Seq<char>, PathItem)>, e: TagEdit) -> bool {
    &&& n.len() == o.len()
    &&& forall|i: int| 0 <= i < o.len() ==> #[trigger] n[i].0 == o[i].0 && item_retagged(o[i].1, n[i].1, e)
}

/// Renames the tag `from` to `to` (when `to` is given) or drops it, in one tag list.
fn retag_list(tags: &mut Vec<String>, from: &str, to: &Option<String>)
    ensures
        str_views(final(tags)@) == retag(
            str_views(old(tags)@),
            match to {
                Some(t) => TagEdit::Rename(from@, t@),
                None => TagEdit::Drop(from@),
            },
        ),
{
    let ghost sv = str_views(tags@);
    let ghost e = match to {
        Some(t) => TagEdit::Rename(from@, t@),
        None => TagEdit::Drop(from@),
    };
    let f = String::from_str(from);
    let mut out: Vec<String> = Vec::new();
    let mut i: usize = 0;
    while i < tags.len()
        invariant
            sv == str_views(tags@),
            f@ == from@,
            e == (match to {
                Some(t) => TagEdit::Rename(from@, t@),
                None => TagEdit::Drop(from@),
            }),
            i <= tags@.len(),
            str_views(out@) == retag(sv.take(i as int), e),
        decreases tags@.len() - i,
    {
        assert(sv.take(i + 1).drop_last() =~= sv.take(i as int));
        assert(sv.take(i + 1) =~= sv.take(i as int).push(sv[i as int]));
        let ghost prev = str_views(out@);
        if tags[i] == f {
            match to {
                Some(t) => {
                    out.push(t.clone());
                    assert(str_views(out@) =~= prev.push(t@));
                    assert(retag(sv.take(i + 1), e) =~= retag(sv.take(i as int), e).push(t@));
                },
                None => {
                    assert(str_views(out@) =~= prev);
                },
            }
        } else {
            out.push(tags[i].clone());
            assert(str_views(out@) =~= prev.push(sv[i as int]));
            match to {
                Some(t) => {
                    assert(retag(sv.take(i + 1), e) =~= retag(sv.take(i as int), e).push(sv[i as int]));
                },
                None => {},
            }
        }
        i += 1;
        assert(str_views(out@) =~= retag(sv.take(i as int), e));
    }
    assert(sv.take(tags@.len() as int) =~= sv);
    *tags = out;
}

fn retag_op(o: &mut Option<Operation>, from: &str, to: &Option<String>)
    ensures
        op_retagged(
            *old(o),
            *final(o),
            match to {
                Some(t) => TagEdit::Rename(from@, t@),
                None => TagEdit::Drop(from@),
            },
        ),
{
    match o {
        Some(op) => {
            retag_list(&mut op.tags, from, to);
        },
        None => {},
    }
}

fn retag_item(item: &mut PathItem, from: &str, to: &Option<String>)
    ensures
        item_retagged(
            *old(item),
            *final(item),
            match to {
                Some(t) => TagEdit::Rename(from@, t@),
                None => TagEdit::Drop(from@),
            },
        ),
{
    retag_op(&mut item.get, from, to);
    retag_op(&mut item.put, from, to);
    retag_op(&mut item.post, from, to);
    retag_op(&mut item.delete, from, to);
    retag_op(&mut item.options, from, to);
    retag_op(&mut item.head, from, to);
    retag_op(&mut item.patch, from, to);
    retag_op(&mut item.trace, from, to);
}

fn retag_paths(paths: &mut OrderedMap<PathItem>, from: &str, to: &Option<String>)
    ensures
        paths_retagged(
            old(paths)@,
            final(paths)@,
            match to {
                Some(t) => TagEdit::Rename(from@, t@),
                None => TagEdit::Drop(from@),
            },
        ),
{
    let ghost e = match to {
        Some(t) => TagEdit::Rename(from@, t@),
        None => TagEdit::Drop(from@),
    };
    let mut i: usize = 0;
    while i < paths.len()
        invariant
            e == (match to {
                Some(t) => TagEdit::Rename(from@, t@),
                None => TagEdit::Drop(from@),
            }),
            i <= paths@.len(),
            paths@.len() == old(paths)@.len(),
            forall|j: int| 0 <= j < i ==> #[trigger] paths@[j].0 == old(paths)@[j].0 && item_retagged(
                old(paths)@[j].1,
                paths@[j].1,
                e,
            ),
            forall|j: int| i <= j < paths@.len() ==> #[trigger] paths@[j] == old(paths)@[j],
        decreases paths@.len() - i,
    {
        let ghost before = paths@;
        let item = paths.value_at_mut(i);
        retag_item(item, from, to);
        assert(paths@[i as int].0 == old(paths)@[i as int].0);
        assert(item_retagged(old(paths)@[i as int].1, paths@[i as int].1, e));
        assert forall|j: int| 0 <= j < paths@.len() && j != i implies #[trigger] paths@[j] == before[j] by {}
        i += 1;
    }
}

impl OpenApiSpec {
    /// Position of the tag `name` among the document's tags.
    pub fn tag_index(&self, name: &str) -> (r: Option<usize>)
        ensures
            match r {
                Some(i) => i < self.tags@.len() && self.tags@[i as int].name@ == name@ && forall|j: int|
                    0 <= j < i ==> #[trigger] self.tags@[j].name@ != name@,
                None => forall|j: int| 0 <= j < self.tags@.len() ==> #[trigger] self.tags@[j].name@ != name@,
            },
    {
        let n = String::from_str(name);
        let mut i: usize = 0;
        while i < self.tags.len()
            invariant
                n@ == name@,
                i <= self.tags@.len(),
                forall|j: int| 0 <= j < i ==> #[trigger] self.tags@[j].name@ != name@,
            decreases self.tags@.len() - i,
        {
            if self.tags[i].name == n {
                return Some(i);
            }
            i += 1;
        }
        None
    }

    /// Gives the tag at `idx` the name `new_name`; when the name changes, every operation
    /// that had the old name gets the new one.
    pub fn rename_tag(&mut self, idx: usize, new_name: String)
        requires
            idx < old(self).tags@.len(),
        ensures
            final(self).tags@ == old(self).tags@.update(
                idx as int,
                Tag { name: final(self).tags@[idx as int].name, ..old(self).tags@[idx as int] },
            ),
            final(self).tags@[idx as int].name@ == new_name@,
            new_name@ == old(self).tags@[idx as int].name@ ==> final(self).paths == old(self).paths,
            new_name@ != old(self).tags@[idx as int].name@ ==> paths_retagged(
                old(self).paths@,
                final(self).paths@,
                TagEdit::Rename(old(self).tags@[idx as int].name@, new_name@),
            ),
            *final(self) == (OpenApiSpec { tags: final(self).tags, paths: final(self).paths, ..*old(self) }),
    {
        let old_name = self.tags[idx].name.clone();
        let changed = !str_eq(old_name.as_str(), new_name.as_str());
        let to = Some(new_name.clone());
        let mut tag = self.tags.remove(idx);
        tag.name = new_name;
        self.tags.insert(idx, tag);
        assert(self.tags@ =~= old(self).tags@.update(
            idx as int,
            Tag { name: self.tags@[idx as int].name, ..old(self).tags@[idx as int] },
        ));
        if changed {
            retag_paths(&mut self.paths, old_name.as_str(), &to);
        }
    }

    /// Deletes the tag at `idx` and takes it off every operation.
    pub fn delete_tag(&mut self, idx: usize)
        requires
            idx < old(self).tags@.len(),
        ensures
            final(self).tags@ == old(self).tags@.remove(idx as int),
            paths_retagged(
                old(self).paths@,
                final(self).paths@,
                TagEdit::Drop(old(self).tags@[idx as int].name@),
            ),
            *final(self) == (OpenApiSpec { tags: final(self).tags, paths: final(self).paths, ..*old(self) }),
    {
        let name = self.tags[idx].name.clone();
        retag_paths(&mut self.paths, name.as_str(), &None);
        self.tags.remove(idx);
    }

    /// Adds a server with an empty URL.
    pub fn add_server(&mut self)
        ensures
            final(self).servers@.drop_last() == old(self).servers@,
            final(self).servers@.len() == old(self).servers@.len() + 1,
            final(self).servers@.last().url@.len() == 0,
            final(self).servers@.last().description is None,
            final(self).servers@.last().variables@.len() == 0,
            *final(self) == (OpenApiSpec { servers: final(self).servers, ..*old(self) }),
    {
        self.servers.push(Server { url: String::new(), description: None, variables: OrderedMap::new() });
        assert(self.servers@.drop_last() =~= old(self).servers@);
    }

    /// Removes the server at `idx`.
    pub fn remove_server(&mut self, idx: usize)
        requires
            idx < old(self).servers@.len(),
        ensures
            final(self).servers@ == old(self).servers@.remove(idx as int),
            *final(self) == (OpenApiSpec { servers: final(self).servers, ..*old(self) }),
    {
        self.servers.remove(idx);
    }

    /// Adds a tag named `tag<n>`, `n` being the number of tags after adding it.
    pub fn add_numbered_tag(&mut self)
        requires
            old(self).tags@.len() < usize::MAX,
        ensures
            final(self).tags@.drop_last() == old(self).tags@,
            final(self).tags@.len() == old(self).tags@.len() + 1,
            final(self).tags@.last().name@ == "tag"@ + decimal((old(self).tags@.len() + 1) as nat),
            final(self).tags@.last().description is None,
            final(self).tags@.last().external_docs is None,
            *final(self) == (OpenApiSpec { tags: final(self).tags, ..*old(self) }),
    {
        let n = self.tags.len() + 1;
        self.tags.push(Tag { name: cat("tag", usize_to_decimal(n).as_str()), description: None, external_docs: None });
        assert(self.tags@.drop_last() =~= old(self).tags@);
    }

    /// Removes the tag at `idx` from the tag list (operations keep their tags).
    pub fn remove_tag_at(&mut self, idx: usize)
        requires
            idx < old(self).tags@.len(),
        ensures
            final(self).tags@ == old(self).tags@.remove(idx as int),
            *final(self) == (OpenApiSpec { tags: final(self).tags, ..*old(self) }),
    {
        self.tags.remove(idx);
    }
}

// ── Renaming a path ──────────────────────────────────────────────────────────

/// What renaming a path came to.
pub enum PathRename {
    /// Nothing to do: the text is blank or names the same path.
    Unchanged,
    /// Another path already has the new key.
    Conflict,
    /// The path now has this key.
    Renamed(String),
}

impl OpenApiSpec {
    /// Renames the path `path` to the text `buf` (a `/` added in front when missing),
    /// keeping its place among the paths. A blank text or the same text changes nothing;
    /// a key that another path has is a conflict and changes nothing.
    pub fn rename_path(&mut self, path: &str, buf: &str) -> (r: PathRename)
        ensures
            (is_blank_spec(buf@) || buf@ == path@) ==> r is Unchanged && *final(self) == *old(self),
            !(is_blank_spec(buf@) || buf@ == path@) && has_key(old(self).paths@, path_key(buf@))
                ==> r is Conflict && *final(self) == *old(self),
            !(is_blank_spec(buf@) || buf@ == path@) && !has_key(old(self).paths@, path_key(buf@))
                ==> {
                &&& r matches PathRename::Renamed(k) && k@ == path_key(buf@)
                &&& final(self).paths@ == (if has_key(old(self).paths@, path@) {
                    let i = find_key(old(self).paths@, path@);
                    old(self).paths@.update(i, (path_key(buf@), old(self).paths@[i].1))
                } else {
                    old(self).paths@
                })
                &&& *final(self) == (OpenApiSpec { paths: final(self).paths, ..*old(self) })
            },
    {
        if is_blank(buf) || str_eq(buf, path) {
            return PathRename::Unchanged;
        }
        let key = if crate::text::starts_with_char(buf, '/') {
            String::from_str(buf)
        } else {
            cat("/", buf)
        };
        if self.paths.contains_key(key.as_str()) {
            return PathRename::Conflict;
        }
        proof {
            lemma_find_key(self.paths@, path@);
            lemma_find_key(self.paths@, key@);
        }
        match self.paths.index_of(path) {
            Some(i) => {
                self.paths.set_key_at(i, key.clone());
            },
            None => {},
        }
        PathRename::Renamed(key)
    }
}

impl App {
    /// Adds a server to the open document and shows the servers.
    pub fn add_server(&mut self)
        ensures
            old(self).spec is None ==> *final(self) == *old(self),
            old(self).spec matches Some(os) ==> {
                &&& final(self).spec matches Some(ns) && {
                    &&& ns == (OpenApiSpec { servers: ns.servers, ..os })
                    &&& ns.servers@.drop_last() == os.servers@
                    &&& ns.servers@.len() == os.servers@.len() + 1
                    &&& ns.servers@.last().url@.len() == 0
                    &&& ns.servers@.last().description is None
                    &&& ns.servers@.last().variables@.len() == 0
                }
                &&& final(self).dirty
                &&& final(self).selection@ == SelectionView::Servers
                &&& crate::editor::only_doc_changed(*old(self), *final(self))
            },
    {
        if let Some(spec) = &mut self.spec {
            spec.add_server();
            self.dirty = true;
            self.selection = Selection::Servers;
        }
    }

    /// Adds a numbered tag to the open document and shows the tags.
    pub fn add_tag(&mut self)
        requires
            old(self).spec matches Some(s) ==> s.tags@.len() < usize::MAX,
        ensures
            old(self).spec is None ==> *final(self) == *old(self),
            old(self).spec matches Some(os) ==> {
                &&& final(self).spec matches Some(ns) && {
                    &&& ns == (OpenApiSpec { tags: ns.tags, ..os })
                    &&& ns.tags@.drop_last() == os.tags@
                    &&& ns.tags@.len() == os.tags@.len() + 1
                    &&& ns.tags@.last().name@ == "tag"@ + decimal((os.tags@.len() + 1) as nat)
                    &&& ns.tags@.last().description is None
                    &&& ns.tags@.last().external_docs is None
                }
                &&& final(self).dirty
                &&& final(self).selection@ == SelectionView::Tags
                &&& crate::editor::only_doc_changed(*old(self), *final(self))
            },
    {
        if let Some(spec) = &mut self.spec {
            spec.add_numbered_tag();
            self.dirty = true;
            self.selection = Selection::Tags;
        }
    }
}

// ── Operations of a tag ──────────────────────────────────────────────────────

/// The operations carrying the tag `name`: path, method and summary, in document order.
pub open spec fn ops_of_tag_in(ops: Seq<(Seq<char>, Operation)>, p: Seq<char>, name: Seq<char>) -> Seq<(Seq<char>, Seq<char>, Option<Seq<char>>)>
    decreases ops.len(),
{
    if ops.len() == 0 {
        Seq::empty()
    } else {
        let (m, op) = ops.last();
        ops_of_tag_in(ops.drop_last(), p, name) + (if str_views(op.tags@).contains(name) {
            seq![(p, m, match op.summary {
                Some(s) => Some(s@),
                None => None,
            })]
        } else {
            Seq::empty()
        })
    }
}

pub open spec fn ops_of_tag(paths: Seq<(Seq<char>, PathItem)>, name: Seq<char>) -> Seq<(Seq<char>, Seq<char>, Option<Seq<char>>)>
    decreases paths.len(),
{
    if paths.len() == 0 {
        Seq::empty()
    } else {
        ops_of_tag(paths.drop_last(), name) + ops_of_tag_in(paths.last().1.operations_spec(), paths.last().0, name)
    }
}

pub open spec fn tag_rows_view(v: Seq<(String, String, Option<String>)>) -> Seq<(Seq<char>, Seq<char>, Option<Seq<char>>)> {
    v.map_values(|r: (String, String, Option<String>)| (r.0@, r.1@, match r.2 {
        Some(s) => Some(s@),
        None => None,
    }))
}

impl OpenApiSpec {
    /// The operations that carry the tag `name`, with their path, method and summary.
    pub fn operations_with_tag(&self, name: &str) -> (r: Vec<(String, String, Option<String>)>)
        ensures
            tag_rows_view(r@) == ops_of_tag(self.paths@, name@),
    {
        let n = String::from_str(name);
        let mut r: Vec<(String, String, Option<String>)> = Vec::new();
        let mut i: usize = 0;
        while i < self.paths.len()
            invariant
                n@ == name@,
                i <= self.paths@.len(),
                tag_rows_view(r@) == ops_of_tag(self.paths@.take(i as int), name@),
            decreases self.paths@.len() - i,
        {
            assert(self.paths@.take(i + 1).drop_last() =~= self.paths@.take(i as int));
            let p = self.paths.key_at(i);
            let item = self.paths.value_at(i);
            let ops = item.operations();
            let ghost ov = ops@.map_values(|q: (&'static str, &Operation)| (q.0@, *q.1));
            let ghost base = tag_rows_view(r@);
            let mut k: usize = 0;
            while k < ops.len()
                invariant
                    n@ == name@,
                    ov == ops@.map_values(|q: (&'static str, &Operation)| (q.0@, *q.1)),
                    ov == item.operations_spec(),
                    k <= ops@.len(),
                    tag_rows_view(r@) == base + ops_of_tag_in(ov.take(k as int), p@, name@),
                decreases ops@.len() - k,
            {
                assert(ov.take(k + 1).drop_last() =~= ov.take(k as int));
                let (m, op) = ops[k];
                let ghost prev = tag_rows_view(r@);
                if crate::lint::contains_string(&op.tags, &n) {
                    let summary = match &op.summary {
                        Some(s) => Some(s.clone()),
                        None => None,
                    };
                    let ghost row = (p@, m@, match op.summary {
                        Some(ref s) => Some(s@),
                        None => None,
                    });
                    r.push((p.clone(), String::from_str(m), summary));
                    assert(tag_rows_view(r@) =~= prev.push(row));
                } else {
                    assert(tag_rows_view(r@) =~= prev);
                }
                assert(ov.take(k + 1) =~= ov.take(k as int).push(ov[k as int]));
                k += 1;
                assert(tag_rows_view(r@) =~= base + ops_of_tag_in(ov.take(k as int), p@, name@));
            }
            assert(ov.take(ops@.len() as int) =~= ov);
            i += 1;
        }
        assert(self.paths@.take(self.paths@.len() as int) =~= self.paths@);
        r
    }
}

// ── Where an example is used ─────────────────────────────────────────────────

/// Some example of the map is a reference to `target`.
pub open spec fn refers_to(examples: Seq<(Seq<char>, RefOr<OaExample>)>, target: Seq<char>) -> bool {
    exists|j: int| 0 <= j < examples.len() && is_ref_to(#[trigger] examples[j].1, target)
}

/// The example is a reference to `target`.
pub open spec fn is_ref_to(e: RefOr<OaExample>, target: Seq<char>) -> bool {
    e matches RefOr::Ref(r) && r.ref_@ == target
}

/// A use: a description and, for uses inside an operation, its path and method.
pub type UseView = (Seq<char>, Option<(Seq<char>, Seq<char>)>);

/// The content types of `content` whose examples refer to `target`, each described as
/// `prefix` and the content type.
pub open spec fn content_uses(
    content: Seq<(Seq<char>, MediaType)>,
    target: Seq<char>,
    prefix: Seq<char>,
    nav: Option<(Seq<char>, Seq<char>)>,
) -> Seq<UseView>
    decreases content.len(),
{
    if content.len() == 0 {
        Seq::empty()
    } else {
        let (ct, m) = content.last();
        content_uses(content.drop_last(), target, prefix, nav) + (if refers_to(m.examples@, target) {
            seq![(prefix + ct, nav)]
        } else {
            Seq::empty()
        })
    }
}

pub open spec fn response_uses(
    resps: Seq<(Seq<char>, RefOr<Response>)>,
    target: Seq<char>,
    p: Seq<char>,
    m: Seq<char>,
) -> Seq<UseView>
    decreases resps.len(),
{
    if resps.len() == 0 {
        Seq::empty()
    } else {
        let (code, r) = resps.last();
        response_uses(resps.drop_last(), target, p, m) + match r {
            RefOr::Item(x) => content_uses(x.content@, target, m + " "@ + p + "  ·  "@ + code + "  ·  "@, Some((p, m))),
            RefOr::Ref(_) => Seq::empty(),
        }
    }
}

pub open spec fn op_uses(ops: Seq<(Seq<char>, Operation)>, target: Seq<char>, p: Seq<char>) -> Seq<UseView>
    decreases ops.len(),
{
    if ops.len() == 0 {
        Seq::empty()
    } else {
        let (m, op) = ops.last();
        op_uses(ops.drop_last(), target, p) + match op.request_body {
            Some(RefOr::Item(b)) => content_uses(b.content@, target, m + " "@ + p + "  ·  Request Body  ·  "@, Some((p, m))),
            _ => Seq::empty(),
        } + response_uses(op.responses@, target, p, m)
    }
}

pub open spec fn path_uses(paths: Seq<(Seq<char>, PathItem)>, target: Seq<char>) -> Seq<UseView>
    decreases paths.len(),
{
    if paths.len() == 0 {
        Seq::empty()
    } else {
        path_uses(paths.drop_last(), target) + op_uses(paths.last().1.operations_spec(), target, paths.last().0)
    }
}

pub open spec fn body_component_uses(bodies: Seq<(Seq<char>, RefOr<RequestBody>)>, target: Seq<char>) -> Seq<UseView>
    decreases bodies.len(),
{
    if bodies.len() == 0 {
        Seq::empty()
    } else {
        let (n, b) = bodies.last();
        body_component_uses(bodies.drop_last(), target) + match b {
            RefOr::Item(x) => content_uses(x.content@, target, "Component Request Body: "@ + n + "  ·  "@, None),
            RefOr::Ref(_) => Seq::empty(),
        }
    }
}

pub open spec fn response_component_uses(resps: Seq<(Seq<char>, RefOr<Response>)>, target: Seq<char>) -> Seq<UseView>
    decreases resps.len(),
{
    if resps.len() == 0 {
        Seq::empty()
    } else {
        let (n, r) = resps.last();
        response_component_uses(resps.drop_last(), target) + match r {
            RefOr::Item(x) => content_uses(x.content@, target, "Component Response: "@ + n + "  ·  "@, None),
            RefOr::Ref(_) => Seq::empty(),
        }
    }
}

/// Every place whose examples refer to `target`: the request bodies and responses of
/// each operation, then the component request bodies and responses.
pub open spec fn example_uses_spec(spec: OpenApiSpec, target: Seq<char>) -> Seq<UseView> {
    path_uses(spec.paths@, target) + match spec.components {
        Some(c) => body_component_uses(c.request_bodies@, target) + response_component_uses(c.responses@, target),
        None => Seq::empty(),
    }
}

pub open spec fn uses_view(v: Seq<(String, Option<(String, String)>)>) -> Seq<UseView> {
    v.map_values(|u: (String, Option<(String, String)>)| (u.0@, match u.1 {
        Some(pm) => Some((pm.0@, pm.1@)),
        None => None,
    }))
}

fn examples_refer(examples: &OrderedMap<RefOr<OaExample>>, target: &str) -> (r: bool)
    ensures
        r == refers_to(examples@, target@),
{
    let t = String::from_str(target);
    let mut j: usize = 0;
    while j < examples.len()
        invariant
            t@ == target@,
            j <= examples@.len(),
            forall|k: int| 0 <= k < j ==> !is_ref_to(#[trigger] examples@[k].1, target@),
        decreases examples@.len() - j,
    {
        match examples.value_at(j) {
            RefOr::Ref(r) => {
                if r.ref_ == t {
                    assert(is_ref_to(examples@[j as int].1, target@));
                    return true;
                }
            },
            RefOr::Item(_) => {},
        }
        j += 1;
    }
    false
}

fn push_content_uses(
    out: &mut Vec<(String, Option<(String, String)>)>,
    content: &OrderedMap<MediaType>,
    target: &str,
    prefix: &str,
    nav: &Option<(String, String)>,
)
    ensures
        uses_view(final(out)@) == uses_view(old(out)@) + content_uses(
            content@,
            target@,
            prefix@,
            match nav {
                Some(pm) => Some((pm.0@, pm.1@)),
                None => None,
            },
        ),
{
    let ghost nv = match nav {
        Some(pm) => Some((pm.0@, pm.1@)),
        None => None,
    };
    let mut i: usize = 0;
    while i < content.len()
        invariant
            nv == (match nav {
                Some(pm) => Some((pm.0@, pm.1@)),
                None => None,
            }),
            i <= content@.len(),
            uses_view(out@) == uses_view(old(out)@) + content_uses(content@.take(i as int), target@, prefix@, nv),
        decreases content@.len() - i,
    {
        assert(content@.take(i + 1).drop_last() =~= content@.take(i as int));
        let ghost prev = uses_view(out@);
        if examples_refer(&content.value_at(i).examples, target) {
            let n = match nav {
                Some(pm) => Some((pm.0.clone(), pm.1.clone())),
                None => None,
            };
            let ghost u = (prefix@ + content@[i as int].0, nv);
            out.push((cat(prefix, content.key_at(i).as_str()), n));
            assert(uses_view(out@) =~= prev.push(u));
        } else {
            assert(uses_view(out@) =~= prev);
        }
        assert(content@.take(i + 1) =~= content@.take(i as int).push(content@[i as int]));
        i += 1;
        assert(uses_view(out@) =~= uses_view(old(out)@) + content_uses(content@.take(i as int), target@, prefix@, nv));
    }
    assert(content@.take(content@.len() as int) =~= content@);
}

fn push_op_uses(out: &mut Vec<(String, Option<(String, String)>)>, item: &PathItem, p: &str, target: &str)
    ensures
        uses_view(final(out)@) == uses_view(old(out)@) + op_uses(item.operations_spec(), target@, p@),
{
    let ops = item.operations();
    let ghost ov = ops@.map_values(|q: (&'static str, &Operation)| (q.0@, *q.1));
    let mut k: usize = 0;
    while k < ops.len()
        invariant
            ov == ops@.map_values(|q: (&'static str, &Operation)| (q.0@, *q.1)),
            ov == item.operations_spec(),
            k <= ops@.len(),
            uses_view(out@) == uses_view(old(out)@) + op_uses(ov.take(k as int), target@, p@),
        decreases ops@.len() - k,
    {
        assert(ov.take(k + 1).drop_last() =~= ov.take(k as int));
        let (m, op) = ops[k];
        let nav = Some((String::from_str(p), String::from_str(m)));
        let ghost before = uses_view(out@);
        match &op.request_body {
            Some(RefOr::Item(b)) => {
                let prefix = cat(cat3(m, " ", p).as_str(), "  ·  Request Body  ·  ");
                push_content_uses(out, &b.content, target, prefix.as_str(), &nav);
            },
            _ => {},
        }
        let ghost mid = uses_view(out@);
        let mut j: usize = 0;
        while j < op.responses.len()
            invariant
                j <= op.responses@.len(),
                nav matches Some(pm) && pm.0@ == p@ && pm.1@ == m@,
                uses_view(out@) == mid + response_uses(op.responses@.take(j as int), target@, p@, m@),
            decreases op.responses@.len() - j,
        {
            assert(op.responses@.take(j + 1).drop_last() =~= op.responses@.take(j as int));
            let code = op.responses.key_at(j);
            match op.responses.value_at(j) {
                RefOr::Item(x) => {
                    let prefix = cat3(cat3(m, " ", p).as_str(), "  ·  ", cat(code.as_str(), "  ·  ").as_str());
                    assert(prefix@ =~= m@ + " "@ + p@ + "  ·  "@ + code@ + "  ·  "@);
                    push_content_uses(out, &x.content, target, prefix.as_str(), &nav);
                },
                RefOr::Ref(_) => {},
            }
            j += 1;
            assert(uses_view(out@) =~= mid + response_uses(op.responses@.take(j as int), target@, p@, m@));
        }
        assert(op.responses@.take(op.responses@.len() as int) =~= op.responses@);
        k += 1;
        assert(uses_view(out@) =~= uses_view(old(out)@) + op_uses(ov.take(k as int), target@, p@));
    }
    assert(ov.take(ops@.len() as int) =~= ov);
}

/// Where the component example `ref_path` (such as `#/components/examples/Pet`) is
/// referred to: each use described, with the path and method for uses in an operation.
pub fn example_uses(spec: &OpenApiSpec, ref_path: &str) -> (r: Vec<(String, Option<(String, String)>)>)
    ensures
        uses_view(r@) == example_uses_spec(*spec, ref_path@),
{
    let mut out: Vec<(String, Option<(String, String)>)> = Vec::new();
    assert(uses_view(out@) =~= Seq::<UseView>::empty());
    let mut i: usize = 0;
    while i < spec.paths.len()
        invariant
            i <= spec.paths@.len(),
            uses_view(out@) == path_uses(spec.paths@.take(i as int), ref_path@),
        decreases spec.paths@.len() - i,
    {
        assert(spec.paths@.take(i + 1).drop_last() =~= spec.paths@.take(i as int));
        push_op_uses(&mut out, spec.paths.value_at(i), spec.paths.key_at(i).as_str(), ref_path);
        i += 1;
    }
    assert(spec.paths@.take(spec.paths@.len() as int) =~= spec.paths@);
    let ghost base = uses_view(out@);
    if let Some(c) = &spec.components {
        let mut j: usize = 0;
        while j < c.request_bodies.len()
            invariant
                j <= c.request_bodies@.len(),
                uses_view(out@) == base + body_component_uses(c.request_bodies@.take(j as int), ref_path@),
            decreases c.request_bodies@.len() - j,
        {
            assert(c.request_bodies@.take(j + 1).drop_last() =~= c.request_bodies@.take(j as int));
            match c.request_bodies.value_at(j) {
                RefOr::Item(x) => {
                    let prefix = cat3("Component Request Body: ", c.request_bodies.key_at(j).as_str(), "  ·  ");
                    push_content_uses(&mut out, &x.content, ref_path, prefix.as_str(), &None);
                },
                RefOr::Ref(_) => {},
            }
            j += 1;
        }
        assert(c.request_bodies@.take(c.request_bodies@.len() as int) =~= c.request_bodies@);
        let ghost mid = uses_view(out@);
        let mut j: usize = 0;
        while j < c.responses.len()
            invariant
                j <= c.responses@.len(),
                uses_view(out@) == mid + response_component_uses(c.responses@.take(j as int), ref_path@),
            decreases c.responses@.len() - j,
        {
            assert(c.responses@.take(j + 1).drop_last() =~= c.responses@.take(j as int));
            match c.responses.value_at(j) {
                RefOr::Item(x) => {
                    let prefix = cat3("Component Response: ", c.responses.key_at(j).as_str(), "  ·  ");
                    push_content_uses(&mut out, &x.content, ref_path, prefix.as_str(), &None);
                },
                RefOr::Ref(_) => {},
            }
            j += 1;
        }
        assert(c.responses@.take(c.responses@.len() as int) =~= c.responses@);
        assert(uses_view(out@) =~= base + (body_component_uses(c.request_bodies@, ref_path@)
            + response_component_uses(c.responses@, ref_path@)));
    } else {
        assert(uses_view(out@) =~= base + Seq::<UseView>::empty());
    }
    out
}

// ── Form fields ──────────────────────────────────────────────────────────────

/// The value of a text field for an optional string: nothing when the text is empty.
pub fn optional_text(s: String) -> (r: Option<String>)
    ensures
        s@.len() == 0 ==> r is None,
        s@.len() > 0 ==> r == Some(s),
{
    if s.as_str().is_empty() {
        None
    } else {
        Some(s)
    }
}

impl Info {
    /// Gives the info an empty contact when it has none; returns whether it added one.
    pub fn ensure_contact(&mut self) -> (added: bool)
        ensures
            added == old(self).contact is None,
            final(self).contact matches Some(c) && match old(self).contact {
                Some(oc) => c == oc,
                None => c.name is None && c.url is None && c.email is None,
            },
            *final(self) == (Info { contact: final(self).contact, ..*old(self) }),
    {
        if self.contact.is_none() {
            self.contact = Some(Contact { name: None, url: None, email: None });
            true
        } else {
            false
        }
    }

    /// Gives the info an empty license when it has none; returns whether it added one.
    pub fn ensure_license(&mut self) -> (added: bool)
        ensures
            added == old(self).license is None,
            final(self).license matches Some(l) && match old(self).license {
                Some(ol) => l == ol,
                None => l.name@.len() == 0 && l.identifier is None && l.url is None,
            },
            *final(self) == (Info { license: final(self).license, ..*old(self) }),
    {
        if self.license.is_none() {
            self.license = Some(License { name: String::new(), identifier: None, url: None });
            true
        } else {
            false
        }
    }
}

impl OpenApiSpec {
    /// Gives the document empty external documentation when it has none; returns whether it
    /// added it.
    pub fn ensure_external_docs(&mut self) -> (added: bool)
        ensures
            added == old(self).external_docs is None,
            final(self).external_docs matches Some(d) && match old(self).external_docs {
                Some(od) => d == od,
                None => d.url@.len() == 0 && d.description is None,
            },
            *final(self) == (OpenApiSpec { external_docs: final(self).external_docs, ..*old(self) }),
    {
        if self.external_docs.is_none() {
            self.external_docs = Some(ExternalDocs { url: String::new(), description: None });
            true
        } else {
            false
        }
    }
}

} // verus!
