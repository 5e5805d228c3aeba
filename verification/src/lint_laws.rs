//! What the checks report about the paths that `add_default_paths_for_schema` generates.
use vstd::prelude::*;
use crate::crud::{
    collection_path, create_op, default_paths_added, delete_op, entry_filled, get_op, item_path,
    list_op, patch_op, path_filled, plural_display, update_op, without_spaces,
};
use crate::editor::{App, SelectionView};
use crate::lint::{
    at_level, char_index, components_diags, covered_names, dedup, dup_diags, dup_groups, has_success,
    id_sites, info_diags, lemma_char_index, lint_spec, op_diags, op_id_sites, opid_diags, ops_diags,
    param_diag, params_diags, path_diags, paths_diags, raw_diags, rb_diags, resp_entry_diags,
    resp_list_diags, responses_diags, schema_ref_diags, sites_with_id, success_code, tag_diags,
    template_diags, template_names, DiagnosticView, IdSite, Level, OpSite,
};
use crate::model::{OpenApiSpec, Operation, Parameter, PathItem, RefOr, Response};
use crate::ordered_map::{has_key, lemma_find_key};
use crate::text::{is_blank_spec, is_space};

verus! {

/// `d` does not point at an operation under `path`.
pub open spec fn not_on_path(d: DiagnosticView, path: Seq<char>) -> bool {
    !(d.goto matches Some(SelectionView::Operation(q, _)) && q == path)
}

/// No finding of `ds` points at an operation under `path`.
pub open spec fn none_on_path(ds: Seq<DiagnosticView>, path: Seq<char>) -> bool {
    forall|i: int| 0 <= i < ds.len() ==> not_on_path(#[trigger] ds[i], path)
}

/// Every finding of `ds` points at `sel`.
spec fn all_at(ds: Seq<DiagnosticView>, sel: Option<SelectionView>) -> bool {
    forall|i: int| 0 <= i < ds.len() ==> (#[trigger] ds[i]).goto == sel
}

/// Every finding of `ds` points at an operation under `path`.
spec fn all_on(ds: Seq<DiagnosticView>, path: Seq<char>) -> bool {
    forall|i: int|
        0 <= i < ds.len() ==> ((#[trigger] ds[i]).goto matches Some(SelectionView::Operation(q, _))
            && q == path)
}

proof fn lemma_at_level_none(ds: Seq<DiagnosticView>, l: Level, n: int, p: Seq<char>)
    requires
        none_on_path(ds, p),
        n <= ds.len(),
    ensures
        none_on_path(at_level(ds, l, n), p),
    decreases n,
{
    if n > 0 {
        lemma_at_level_none(ds, l, n - 1, p);
        let prev = at_level(ds, l, n - 1);
        let cur = at_level(ds, l, n);
        assert forall|i: int| 0 <= i < cur.len() implies not_on_path(#[trigger] cur[i], p) by {
            if i < prev.len() {
                assert(cur[i] == prev[i]);
            } else {
                assert(cur[i] == ds[n - 1]);
            }
        }
    }
}

proof fn lemma_resp_list_at(
    o: OpSite,
    rs: Seq<(Seq<char>, RefOr<Response>)>,
    t: Seq<Seq<char>>,
    n: int,
)
    ensures
        all_at(resp_list_diags(o, rs, t, n), o.sel()),
    decreases n,
{
    if n > 0 {
        lemma_resp_list_at(o, rs, t, n - 1);
    }
}

proof fn lemma_tag_at(o: OpSite, tags: Seq<Seq<char>>, declared: Seq<Seq<char>>, n: int)
    ensures
        all_at(tag_diags(o, tags, declared, n), o.sel()),
    decreases n,
{
    if n > 0 {
        lemma_tag_at(o, tags, declared, n - 1);
    }
}

proof fn lemma_params_at(
    o: OpSite,
    ps: Seq<RefOr<Parameter>>,
    t: Seq<Seq<char>>,
    template: Seq<Seq<char>>,
    n: int,
)
    ensures
        all_at(params_diags(o, ps, t, template, n), o.sel()),
    decreases n,
{
    if n > 0 {
        lemma_params_at(o, ps, t, template, n - 1);
    }
}

proof fn lemma_template_at(o: OpSite, template: Seq<Seq<char>>, covered: Seq<Seq<char>>, n: int)
    ensures
        all_at(template_diags(o, template, covered, n), o.sel()),
    decreases n,
{
    if n > 0 {
        lemma_template_at(o, template, covered, n - 1);
    }
}

proof fn lemma_op_at(s: OpenApiSpec, o: OpSite, item: PathItem, op: Operation, template: Seq<Seq<char>>)
    ensures
        all_at(op_diags(s, o, item, op, template), o.sel()),
{
    let ps = item.parameters@ + op.parameters@;
    lemma_resp_list_at(o, op.responses@, crate::lint::resp_targets(s), op.responses@.len() as int);
    lemma_tag_at(
        o,
        crate::lint::str_views(op.tags@),
        crate::lint::declared_tags(s),
        op.tags@.len() as int,
    );
    lemma_params_at(o, ps, crate::lint::param_targets(s), template, ps.len() as int);
    lemma_template_at(
        o,
        template,
        crate::lint::covered_names(ps, ps.len() as int),
        template.len() as int,
    );
    let ds = op_diags(s, o, item, op, template);
    assert forall|i: int| 0 <= i < ds.len() implies (#[trigger] ds[i]).goto == o.sel() by {}
}

proof fn lemma_ops_on(s: OpenApiSpec, path: Seq<char>, item: PathItem, template: Seq<Seq<char>>, n: int)
    ensures
        all_on(ops_diags(s, path, item, template, n), path),
    decreases n,
{
    if n > 0 {
        lemma_ops_on(s, path, item, template, n - 1);
        let e = item.operations_spec()[n - 1];
        let o = OpSite { path, method: e.0 };
        lemma_op_at(s, o, item, e.1, template);
        let prev = ops_diags(s, path, item, template, n - 1);
        let last = op_diags(s, o, item, e.1, template);
        let cur = ops_diags(s, path, item, template, n);
        assert(cur == prev + last);
        assert forall|i: int| 0 <= i < cur.len() implies ((#[trigger] cur[i]).goto matches Some(
            SelectionView::Operation(q, _),
        ) && q == path) by {
            if i < prev.len() {
                assert(cur[i] == prev[i]);
            } else {
                assert(cur[i] == last[i - prev.len()]);
            }
        }
    }
}

proof fn lemma_paths_none(s: OpenApiSpec, n: int, p: Seq<char>)
    requires
        n <= s.paths@.len(),
        forall|j: int| 0 <= j < n ==> (#[trigger] s.paths@[j]).0 != p,
    ensures
        none_on_path(paths_diags(s, n), p),
    decreases n,
{
    if n > 0 {
        lemma_paths_none(s, n - 1, p);
        let e = s.paths@[n - 1];
        let prev = paths_diags(s, n - 1);
        let last = crate::lint::path_diags(s, e.0, e.1);
        lemma_ops_on(
            s,
            e.0,
            e.1,
            crate::lint::dedup(crate::lint::template_names(e.0)),
            e.1.operations_spec().len() as int,
        );
        let cur = paths_diags(s, n);
        assert(cur == prev + last);
        assert forall|i: int| 0 <= i < cur.len() implies not_on_path(#[trigger] cur[i], p) by {
            if i < prev.len() {
                assert(cur[i] == prev[i]);
            } else {
                assert(cur[i] == last[i - prev.len()]);
            }
        }
    }
}

proof fn lemma_schema_refs_none(
    entries: Seq<(Seq<char>, RefOr<crate::model::Schema>)>,
    t: Seq<Seq<char>>,
    n: int,
    p: Seq<char>,
)
    ensures
        none_on_path(schema_ref_diags(entries, t, n), p),
    decreases n,
{
    if n > 0 {
        lemma_schema_refs_none(entries, t, n - 1, p);
        let prev = schema_ref_diags(entries, t, n - 1);
        let cur = schema_ref_diags(entries, t, n);
        assert forall|i: int| 0 <= i < cur.len() implies not_on_path(#[trigger] cur[i], p) by {
            if i < prev.len() {
                assert(cur[i] == prev[i]);
            }
        }
    }
}

proof fn lemma_info_components_none(s: OpenApiSpec, p: Seq<char>)
    ensures
        none_on_path(info_diags(s), p),
        none_on_path(components_diags(s), p),
{
    if let Some(c) = s.components {
        lemma_schema_refs_none(
            c.schemas@,
            crate::lint::schema_targets(s),
            c.schemas@.len() as int,
            p,
        );
    }
    let d = info_diags(s);
    assert forall|i: int| 0 <= i < d.len() implies not_on_path(#[trigger] d[i], p) by {}
}

proof fn lemma_sites_with_id_none(sites: Seq<IdSite>, id: Seq<char>, n: int, p: Seq<char>)
    requires
        forall|k: int| 0 <= k < n && (#[trigger] sites[k]).0 == id ==> sites[k].1 != p,
    ensures
        none_on_path(sites_with_id(sites, id, n), p),
    decreases n,
{
    if n > 0 {
        lemma_sites_with_id_none(sites, id, n - 1, p);
        let prev = sites_with_id(sites, id, n - 1);
        let cur = sites_with_id(sites, id, n);
        assert forall|i: int| 0 <= i < cur.len() implies not_on_path(#[trigger] cur[i], p) by {
            if i < prev.len() {
                assert(cur[i] == prev[i]);
            } else {
                assert(sites[n - 1].0 == id);
            }
        }
    }
}

proof fn lemma_sites_with_id_len(sites: Seq<IdSite>, id: Seq<char>, n: int, k0: int)
    requires
        forall|k: int| 0 <= k < n && k != k0 ==> (#[trigger] sites[k]).0 != id,
    ensures
        sites_with_id(sites, id, n).len() <= 1,
        (k0 < 0 || k0 >= n) ==> sites_with_id(sites, id, n).len() == 0,
    decreases n,
{
    if n > 0 {
        if k0 == n - 1 {
            lemma_sites_with_id_len(sites, id, n - 1, -1);
        } else {
            lemma_sites_with_id_len(sites, id, n - 1, k0);
        }
    }
}

/// The sites at `p` carry ids that no other site carries.
spec fn unique_at(sites: Seq<IdSite>, p: Seq<char>) -> bool {
    forall|k: int, j: int|
        0 <= k < sites.len() && 0 <= j < sites.len() && j != k && (#[trigger] sites[k]).1 == p
            ==> (#[trigger] sites[j]).0 != sites[k].0
}

proof fn lemma_dup_groups_none(sites: Seq<IdSite>, ids: Seq<Seq<char>>, n: int, p: Seq<char>)
    requires
        unique_at(sites, p),
    ensures
        none_on_path(dup_groups(sites, ids, n), p),
    decreases n,
{
    if n > 0 {
        lemma_dup_groups_none(sites, ids, n - 1, p);
        let id = ids[n - 1];
        let len = sites.len() as int;
        let g = sites_with_id(sites, id, len);
        if exists|k: int| 0 <= k < len && (#[trigger] sites[k]).0 == id && sites[k].1 == p {
            let k0 = choose|k: int| 0 <= k < len && (#[trigger] sites[k]).0 == id && sites[k].1 == p;
            assert forall|k: int| 0 <= k < len && k != k0 implies (#[trigger] sites[k]).0 != id by {
                assert(sites[k0].1 == p);
            }
            lemma_sites_with_id_len(sites, id, len, k0);
            assert(dup_groups(sites, ids, n) == dup_groups(sites, ids, n - 1));
        } else {
            lemma_sites_with_id_none(sites, id, len, p);
            let prev = dup_groups(sites, ids, n - 1);
            let cur = dup_groups(sites, ids, n);
            assert forall|i: int| 0 <= i < cur.len() implies not_on_path(#[trigger] cur[i], p) by {
                if i < prev.len() {
                    assert(cur[i] == prev[i]);
                } else {
                    assert(cur[i] == g[i - prev.len()]);
                }
            }
        }
    }
}

/// A response given in place whose description is not blank.
spec fn described_response(r: RefOr<Response>) -> bool {
    r matches RefOr::Item(x) && !is_blank_spec(x.description@)
}

proof fn lemma_resp_list_clean(
    o: OpSite,
    rs: Seq<(Seq<char>, RefOr<Response>)>,
    t: Seq<Seq<char>>,
    n: int,
)
    requires
        n <= rs.len(),
        forall|i: int| 0 <= i < rs.len() ==> described_response(#[trigger] rs[i].1),
    ensures
        resp_list_diags(o, rs, t, n).len() == 0,
    decreases n,
{
    if n > 0 {
        lemma_resp_list_clean(o, rs, t, n - 1);
        assert(described_response(rs[n - 1].1));
        assert(resp_entry_diags(o, rs[n - 1].0, rs[n - 1].1, t).len() == 0);
    }
}

/// A parameter given in place, with a name, whose name appears in `template` when it
/// sits in the path.
spec fn named_parameter(p: RefOr<Parameter>, template: Seq<Seq<char>>) -> bool {
    p matches RefOr::Item(x) && !is_blank_spec(x.name@) && (x.in_@ == "path"@ ==> template.contains(
        x.name@,
    ))
}

proof fn lemma_params_clean(
    o: OpSite,
    ps: Seq<RefOr<Parameter>>,
    t: Seq<Seq<char>>,
    template: Seq<Seq<char>>,
    n: int,
)
    requires
        n <= ps.len(),
        forall|i: int| 0 <= i < ps.len() ==> named_parameter(#[trigger] ps[i], template),
    ensures
        params_diags(o, ps, t, template, n).len() == 0,
    decreases n,
{
    if n > 0 {
        lemma_params_clean(o, ps, t, template, n - 1);
        assert(named_parameter(ps[n - 1], template));
        assert(param_diag(o, ps[n - 1], t, template).len() == 0);
    }
}

proof fn lemma_template_clean(o: OpSite, template: Seq<Seq<char>>, covered: Seq<Seq<char>>, n: int)
    requires
        n <= template.len(),
        forall|i: int| 0 <= i < template.len() ==> covered.contains(#[trigger] template[i]),
    ensures
        template_diags(o, template, covered, n).len() == 0,
    decreases n,
{
    if n > 0 {
        lemma_template_clean(o, template, covered, n - 1);
        assert(covered.contains(template[n - 1]));
    }
}

/// The conditions under which the checks find nothing to report about an operation.
spec fn clean_op(item: PathItem, op: Operation, template: Seq<Seq<char>>) -> bool {
    let ps = item.parameters@ + op.parameters@;
    &&& op.operation_id matches Some(id) && id@.len() > 0
    &&& op.responses@.len() > 0
    &&& has_success(op.responses@)
    &&& forall|i: int|
        0 <= i < op.responses@.len() ==> described_response(#[trigger] op.responses@[i].1)
    &&& op.tags@.len() == 0
    &&& !(op.request_body matches Some(RefOr::Ref(_)))
    &&& forall|i: int| 0 <= i < ps.len() ==> named_parameter(#[trigger] ps[i], template)
    &&& forall|i: int|
        0 <= i < template.len() ==> covered_names(ps, ps.len() as int).contains(
            #[trigger] template[i],
        )
}

proof fn lemma_clean_op(s: OpenApiSpec, o: OpSite, item: PathItem, op: Operation, template: Seq<Seq<char>>)
    requires
        clean_op(item, op, template),
    ensures
        op_diags(s, o, item, op, template).len() == 0,
{
    let ps = item.parameters@ + op.parameters@;
    lemma_resp_list_clean(o, op.responses@, crate::lint::resp_targets(s), op.responses@.len() as int);
    lemma_params_clean(o, ps, crate::lint::param_targets(s), template, ps.len() as int);
    lemma_template_clean(o, template, covered_names(ps, ps.len() as int), template.len() as int);
    assert(opid_diags(o, op).len() == 0);
    assert(responses_diags(o, op.responses@, crate::lint::resp_targets(s)).len() == 0);
    assert(rb_diags(o, op, crate::lint::rb_targets(s)).len() == 0);
    assert(tag_diags(
        o,
        crate::lint::str_views(op.tags@),
        crate::lint::declared_tags(s),
        op.tags@.len() as int,
    ).len() == 0);
}

proof fn lemma_not_blank_words()
    ensures
        !is_blank_spec("OK"@),
        !is_blank_spec("Created"@),
        !is_blank_spec("No Content"@),
        !is_blank_spec("Not Found"@),
        !is_blank_spec("id"@),
        success_code("200"@),
        success_code("201"@),
        success_code("204"@),
{
    reveal_strlit("OK");
    reveal_strlit("Created");
    reveal_strlit("No Content");
    reveal_strlit("Not Found");
    reveal_strlit("id");
    reveal_strlit("200");
    reveal_strlit("201");
    reveal_strlit("204");
    assert(!is_space("OK"@[0]));
    assert(!is_space("Created"@[0]));
    assert(!is_space("No Content"@[0]));
    assert(!is_space("Not Found"@[0]));
    assert(!is_space("id"@[0]));
}

proof fn lemma_collection_ops_clean(op: Operation, name: Seq<char>, item: PathItem)
    requires
        list_op(op, name) || create_op(op, name),
        item.parameters@.len() == 0,
    ensures
        clean_op(item, op, Seq::empty()),
{
    lemma_not_blank_words();
    reveal_strlit("list");
    reveal_strlit("create");
    let rs = op.responses@;
    assert(success_code(rs[0].0));
    let ps = item.parameters@ + op.parameters@;
    assert(ps.len() == 0);
}

proof fn lemma_item_ops_clean(op: Operation, name: Seq<char>, item: PathItem)
    requires
        get_op(op, name) || update_op(op, name) || patch_op(op, name) || delete_op(op, name),
        item.parameters@.len() == 0,
    ensures
        clean_op(item, op, seq!["id"@]),
{
    lemma_not_blank_words();
    reveal_strlit("get");
    reveal_strlit("update");
    reveal_strlit("patch");
    reveal_strlit("delete");
    reveal_strlit("path");
    let rs = op.responses@;
    assert(success_code(rs[0].0));
    assert(has_success(rs));
    let ps = item.parameters@ + op.parameters@;
    assert(ps =~= op.parameters@);
    assert(ps.len() == 1);
    assert(seq!["id"@].contains("id"@)) by {
        assert(seq!["id"@][0] == "id"@);
    }
    assert(named_parameter(ps[0], seq!["id"@]));
    let cov = covered_names(ps, 1);
    assert(covered_names(ps, 0) =~= Seq::<Seq<char>>::empty());
    assert(cov =~= seq!["id"@]);
    assert(cov.contains("id"@)) by {
        assert(cov[0] == "id"@);
    }
}

proof fn lemma_template_names_plain(s: Seq<char>)
    requires
        forall|i: int| 0 <= i < s.len() ==> s[i] != '{',
    ensures
        template_names(s) == Seq::<Seq<char>>::empty(),
{
    lemma_char_index(s, '{');
}

proof fn lemma_template_names_item(c: Seq<char>)
    requires
        forall|i: int| 0 <= i < c.len() ==> c[i] != '{',
    ensures
        dedup(template_names(c + "/{id}"@)) == seq!["id"@],
{
    reveal_strlit("/{id}");
    reveal_strlit("id");
    let s = c + "/{id}"@;
    let at: int = c.len() as int + 1;
    lemma_char_index(s, '{');
    assert(s[at] == '{');
    let i = char_index(s, '{');
    assert(i == at) by {
        if i < at {
            if i < c.len() {
                assert(s[i] == c[i]);
            } else {
                assert(s[i] == '/');
            }
        }
    }
    let rest = s.subrange(i + 1, s.len() as int);
    assert(rest =~= seq!['i', 'd', '}']);
    lemma_char_index(rest, '}');
    let j = char_index(rest, '}');
    assert(j == 2) by {
        assert(rest[2] == '}');
        assert(rest[0] != '}' && rest[1] != '}');
    }
    let tail = rest.subrange(j + 1, rest.len() as int);
    assert(tail.len() == 0);
    lemma_char_index(tail, '{');
    assert(template_names(tail) == Seq::<Seq<char>>::empty());
    assert(rest.subrange(0, j) =~= "id"@);
    assert(template_names(s) =~= seq!["id"@]);
    let one = seq!["id"@];
    assert(one.drop_last() =~= Seq::<Seq<char>>::empty());
    assert(dedup(one.drop_last()) =~= Seq::<Seq<char>>::empty());
    assert(dedup(one) =~= seq!["id"@]);
}

proof fn lemma_ops_collection(n: PathItem)
    requires
        n.get is Some,
        n.put is None,
        n.post is Some,
        n.delete is None,
        n.options is None,
        n.head is None,
        n.patch is None,
        n.trace is None,
    ensures
        n.operations_spec() == seq![("GET"@, n.get->0), ("POST"@, n.post->0)],
{
    assert(n.present_ops(0) =~= Seq::empty());
    assert(n.present_ops(1) =~= seq![("GET"@, n.get->0)]);
    assert(n.present_ops(2) =~= n.present_ops(1));
    assert(n.present_ops(3) =~= seq![("GET"@, n.get->0), ("POST"@, n.post->0)]);
    assert(n.present_ops(4) =~= n.present_ops(3));
    assert(n.present_ops(5) =~= n.present_ops(3));
    assert(n.present_ops(6) =~= n.present_ops(3));
    assert(n.present_ops(7) =~= n.present_ops(3));
    assert(n.present_ops(8) =~= n.present_ops(3));
}

proof fn lemma_ops_item(n: PathItem)
    requires
        n.get is Some,
        n.put is Some,
        n.post is None,
        n.delete is Some,
        n.options is None,
        n.head is None,
        n.patch is Some,
        n.trace is None,
    ensures
        n.operations_spec() == seq![
            ("GET"@, n.get->0),
            ("PUT"@, n.put->0),
            ("DELETE"@, n.delete->0),
            ("PATCH"@, n.patch->0),
        ],
{
    assert(n.present_ops(0) =~= Seq::empty());
    assert(n.present_ops(1) =~= seq![("GET"@, n.get->0)]);
    assert(n.present_ops(2) =~= seq![("GET"@, n.get->0), ("PUT"@, n.put->0)]);
    assert(n.present_ops(3) =~= n.present_ops(2));
    assert(n.present_ops(4) =~= seq![("GET"@, n.get->0), ("PUT"@, n.put->0), ("DELETE"@, n.delete->0)]);
    assert(n.present_ops(5) =~= n.present_ops(4));
    assert(n.present_ops(6) =~= n.present_ops(4));
    assert(n.present_ops(7) =~= n.present_ops(4).push(("PATCH"@, n.patch->0)));
    assert(n.present_ops(8) =~= n.present_ops(7));
}

proof fn lemma_collection_path_clean(s: OpenApiSpec, c: Seq<char>, n: PathItem, name: Seq<char>)
    requires
        forall|i: int| 0 <= i < c.len() ==> c[i] != '{',
        path_filled(None, n, name, false),
    ensures
        path_diags(s, c, n).len() == 0,
{
    lemma_template_names_plain(c);
    let t = dedup(template_names(c));
    assert(t =~= Seq::<Seq<char>>::empty());
    lemma_ops_collection(n);
    lemma_collection_ops_clean(n.get->0, name, n);
    lemma_collection_ops_clean(n.post->0, name, n);
    lemma_clean_op(s, OpSite { path: c, method: "GET"@ }, n, n.get->0, t);
    lemma_clean_op(s, OpSite { path: c, method: "POST"@ }, n, n.post->0, t);
    assert(ops_diags(s, c, n, t, 0).len() == 0);
    assert(ops_diags(s, c, n, t, 1).len() == 0);
    assert(ops_diags(s, c, n, t, 2).len() == 0);
}

proof fn lemma_item_path_clean(s: OpenApiSpec, c: Seq<char>, n: PathItem, name: Seq<char>)
    requires
        forall|i: int| 0 <= i < c.len() ==> c[i] != '{',
        path_filled(None, n, name, true),
    ensures
        path_diags(s, c + "/{id}"@, n).len() == 0,
{
    let p = c + "/{id}"@;
    lemma_template_names_item(c);
    let t = dedup(template_names(p));
    lemma_ops_item(n);
    lemma_item_ops_clean(n.get->0, name, n);
    lemma_item_ops_clean(n.put->0, name, n);
    lemma_item_ops_clean(n.delete->0, name, n);
    lemma_item_ops_clean(n.patch->0, name, n);
    lemma_clean_op(s, OpSite { path: p, method: "GET"@ }, n, n.get->0, t);
    lemma_clean_op(s, OpSite { path: p, method: "PUT"@ }, n, n.put->0, t);
    lemma_clean_op(s, OpSite { path: p, method: "DELETE"@ }, n, n.delete->0, t);
    lemma_clean_op(s, OpSite { path: p, method: "PATCH"@ }, n, n.patch->0, t);
    assert(ops_diags(s, p, n, t, 0).len() == 0);
    assert(ops_diags(s, p, n, t, 1).len() == 0);
    assert(ops_diags(s, p, n, t, 2).len() == 0);
    assert(ops_diags(s, p, n, t, 3).len() == 0);
    assert(ops_diags(s, p, n, t, 4).len() == 0);
}

/// The operation ids of the operations that `add_default_paths_for_schema` creates for the
/// schema `name`, in the order in which the checks meet them.
pub open spec fn generated_ids(name: Seq<char>) -> Seq<Seq<char>> {
    seq![
        "list"@ + without_spaces(plural_display(name)),
        "create"@ + name,
        "get"@ + name,
        "update"@ + name,
        "delete"@ + name,
        "patch"@ + name,
    ]
}

/// No operation of `s` carries an id among `ids`.
pub open spec fn ids_unused(s: OpenApiSpec, ids: Seq<Seq<char>>) -> bool {
    forall|j: int, k: int|
        0 <= j < s.paths@.len() && 0 <= k < s.paths@[j].1.operations_spec().len() ==> match (
        #[trigger] s.paths@[j].1.operations_spec()[k]).1.operation_id {
            Some(id) => !ids.contains(id@),
            None => true,
        }
}

proof fn lemma_op_id_sites(
    path: Seq<char>,
    ops: Seq<(Seq<char>, Operation)>,
    n: int,
    bad: Seq<Seq<char>>,
)
    requires
        n <= ops.len(),
        forall|k: int|
            0 <= k < ops.len() ==> match (#[trigger] ops[k]).1.operation_id {
                Some(id) => !bad.contains(id@),
                None => true,
            },
    ensures
        forall|i: int|
            0 <= i < op_id_sites(path, ops, n).len() ==> (#[trigger] op_id_sites(path, ops, n)[i]).1
                == path && !bad.contains(op_id_sites(path, ops, n)[i].0),
    decreases n,
{
    if n > 0 {
        lemma_op_id_sites(path, ops, n - 1, bad);
        assert(match ops[n - 1].1.operation_id {
            Some(id) => !bad.contains(id@),
            None => true,
        });
        let prev = op_id_sites(path, ops, n - 1);
        let cur = op_id_sites(path, ops, n);
        assert forall|i: int| 0 <= i < cur.len() implies (#[trigger] cur[i]).1 == path && !bad.contains(
            cur[i].0,
        ) by {
            if i < prev.len() {
                assert(cur[i] == prev[i]);
            }
        }
    }
}

proof fn lemma_id_sites(s: OpenApiSpec, n: int, bad: Seq<Seq<char>>, p1: Seq<char>, p2: Seq<char>)
    requires
        n <= s.paths@.len(),
        forall|j: int| 0 <= j < n ==> (#[trigger] s.paths@[j]).0 != p1 && s.paths@[j].0 != p2,
        ids_unused(s, bad),
    ensures
        forall|i: int|
            0 <= i < id_sites(s, n).len() ==> (#[trigger] id_sites(s, n)[i]).1 != p1
                && id_sites(s, n)[i].1 != p2 && !bad.contains(id_sites(s, n)[i].0),
    decreases n,
{
    if n > 0 {
        lemma_id_sites(s, n - 1, bad, p1, p2);
        let e = s.paths@[n - 1];
        let ops = e.1.operations_spec();
        assert forall|k: int| 0 <= k < ops.len() implies match (#[trigger] ops[k]).1.operation_id {
            Some(id) => !bad.contains(id@),
            None => true,
        } by {
            assert(s.paths@[n - 1].1.operations_spec()[k] == ops[k]);
        }
        lemma_op_id_sites(e.0, ops, ops.len() as int, bad);
        let prev = id_sites(s, n - 1);
        let last = op_id_sites(e.0, ops, ops.len() as int);
        let cur = id_sites(s, n);
        assert(cur == prev + last);
        assert forall|i: int| 0 <= i < cur.len() implies (#[trigger] cur[i]).1 != p1 && cur[i].1 != p2
            && !bad.contains(cur[i].0) by {
            if i < prev.len() {
                assert(cur[i] == prev[i]);
            } else {
                assert(cur[i] == last[i - prev.len()]);
            }
        }
    }
}

proof fn lemma_id_sites_prefix(s: OpenApiSpec, t: OpenApiSpec, n: int)
    requires
        n <= s.paths@.len(),
        n <= t.paths@.len(),
        forall|j: int| 0 <= j < n ==> s.paths@[j] == t.paths@[j],
    ensures
        id_sites(s, n) == id_sites(t, n),
    decreases n,
{
    if n > 0 {
        lemma_id_sites_prefix(s, t, n - 1);
        assert(s.paths@[n - 1] == t.paths@[n - 1]);
    }
}

proof fn lemma_none_concat(a: Seq<DiagnosticView>, b: Seq<DiagnosticView>, p: Seq<char>)
    requires
        none_on_path(a, p),
        none_on_path(b, p),
    ensures
        none_on_path(a + b, p),
{
    assert forall|i: int| 0 <= i < (a + b).len() implies not_on_path(#[trigger] (a + b)[i], p) by {
        if i < a.len() {
            assert((a + b)[i] == a[i]);
        } else {
            assert((a + b)[i] == b[i - a.len()]);
        }
    }
}

proof fn lemma_generated_ids_distinct(name: Seq<char>)
    ensures
        generated_ids(name).len() == 6,
        forall|a: int, b: int|
            0 <= a < 6 && 0 <= b < 6 && a != b ==> #[trigger] generated_ids(name)[a]
                != #[trigger] generated_ids(name)[b],
{
    reveal_strlit("list");
    reveal_strlit("create");
    reveal_strlit("get");
    reveal_strlit("update");
    reveal_strlit("delete");
    reveal_strlit("patch");
    let g = generated_ids(name);
    assert(g[0][0] == 'l');
    assert(g[1][0] == 'c');
    assert(g[2][0] == 'g');
    assert(g[3][0] == 'u');
    assert(g[4][0] == 'd');
    assert(g[5][0] == 'p');
    assert forall|a: int, b: int| 0 <= a < 6 && 0 <= b < 6 && a != b implies #[trigger] g[a]
        != #[trigger] g[b] by {
        assert(g[a][0] != g[b][0]);
    }
}

proof fn lemma_generated_sites(c: Seq<char>, nc: PathItem, ci: Seq<char>, ni: PathItem, name: Seq<char>)
    requires
        path_filled(None, nc, name, false),
        path_filled(None, ni, name, true),
    ensures
        nc.operations_spec().len() == 2,
        ni.operations_spec().len() == 4,
        op_id_sites(c, nc.operations_spec(), 2) + op_id_sites(ci, ni.operations_spec(), 4) == seq![
            (generated_ids(name)[0], c, "GET"@),
            (generated_ids(name)[1], c, "POST"@),
            (generated_ids(name)[2], ci, "GET"@),
            (generated_ids(name)[3], ci, "PUT"@),
            (generated_ids(name)[4], ci, "DELETE"@),
            (generated_ids(name)[5], ci, "PATCH"@),
        ],
{
    reveal_strlit("list");
    reveal_strlit("create");
    reveal_strlit("get");
    reveal_strlit("update");
    reveal_strlit("delete");
    reveal_strlit("patch");
    lemma_ops_collection(nc);
    lemma_ops_item(ni);
    let oc = nc.operations_spec();
    let oi = ni.operations_spec();
    let g = generated_ids(name);
    assert(op_id_sites(c, oc, 0) =~= Seq::<IdSite>::empty());
    assert(op_id_sites(c, oc, 1) =~= seq![(g[0], c, "GET"@)]);
    assert(op_id_sites(c, oc, 2) =~= seq![(g[0], c, "GET"@), (g[1], c, "POST"@)]);
    assert(op_id_sites(ci, oi, 0) =~= Seq::<IdSite>::empty());
    assert(op_id_sites(ci, oi, 1) =~= seq![(g[2], ci, "GET"@)]);
    assert(op_id_sites(ci, oi, 2) =~= seq![(g[2], ci, "GET"@), (g[3], ci, "PUT"@)]);
    assert(op_id_sites(ci, oi, 3) =~= seq![
        (g[2], ci, "GET"@),
        (g[3], ci, "PUT"@),
        (g[4], ci, "DELETE"@),
    ]);
    assert(op_id_sites(ci, oi, 4) =~= seq![
        (g[2], ci, "GET"@),
        (g[3], ci, "PUT"@),
        (g[4], ci, "DELETE"@),
        (g[5], ci, "PATCH"@),
    ]);
}

/// The proof of `law_generated_paths_lint_clean` (in `laws`).
pub proof fn lemma_generated_paths_lint_clean(a0: App, a1: App, name: Seq<char>)
    requires
        default_paths_added(a0, a1, name),
        !has_key(a0.spec->0.paths@, collection_path(name)),
        !has_key(a0.spec->0.paths@, item_path(name)),
        forall|i: int| 0 <= i < collection_path(name).len() ==> collection_path(name)[i] != '{',
        ids_unused(a0.spec->0, generated_ids(name)),
    ensures
        none_on_path(lint_spec(a1.spec->0), collection_path(name)),
        none_on_path(lint_spec(a1.spec->0), item_path(name)),
{
    let s0 = a0.spec->0;
    let s1 = a1.spec->0;
    let c = collection_path(name);
    let ci = item_path(name);
    let bad = generated_ids(name);
    let n0 = s0.paths@.len() as int;
    reveal_strlit("/{id}");
    assert(ci.len() == c.len() + 5);
    let mid = choose|mid: Seq<(Seq<char>, PathItem)>| #[trigger]
        entry_filled(s0.paths@, mid, c, name, false) && entry_filled(mid, s1.paths@, ci, name, true);
    lemma_find_key(s0.paths@, c);
    lemma_find_key(s0.paths@, ci);
    assert(mid.len() == n0 + 1);
    assert(mid.drop_last() == s0.paths@);
    let nc = mid.last().1;
    lemma_find_key(mid, ci);
    assert forall|j: int| 0 <= j < mid.len() implies mid[j].0 != ci by {
        if j < n0 {
            assert(mid[j] == mid.drop_last()[j]);
        }
    }
    let paths1 = s1.paths@;
    assert(paths1.len() == n0 + 2);
    assert(paths1.drop_last() == mid);
    let ni = paths1.last().1;
    assert forall|j: int| 0 <= j < n0 implies #[trigger] paths1[j] == s0.paths@[j] by {
        assert(paths1[j] == paths1.drop_last()[j]);
        assert(mid[j] == mid.drop_last()[j]);
    }
    assert(paths1[n0] == (c, nc)) by {
        assert(paths1[n0] == paths1.drop_last()[n0]);
    }
    assert(paths1[n0 + 1] == (ci, ni));
    // The paths: the old entries lie elsewhere, the new ones draw no finding.
    lemma_collection_path_clean(s1, c, nc, name);
    lemma_item_path_clean(s1, c, ni, name);
    assert(paths_diags(s1, n0 + 2) =~= paths_diags(s1, n0)) by {
        assert(paths_diags(s1, n0 + 2) == paths_diags(s1, n0 + 1) + path_diags(s1, ci, ni));
        assert(paths_diags(s1, n0 + 1) == paths_diags(s1, n0) + path_diags(s1, c, nc));
    }
    assert forall|j: int| 0 <= j < n0 implies (#[trigger] s1.paths@[j]).0 != c && s1.paths@[j].0
        != ci by {
        assert(paths1[j] == s0.paths@[j]);
    }
    lemma_paths_none(s1, n0, c);
    lemma_paths_none(s1, n0, ci);
    // The repeated ids: the new operations carry ids that nothing else carries.
    lemma_generated_sites(c, nc, ci, ni, name);
    lemma_generated_ids_distinct(name);
    lemma_id_sites_prefix(s1, s0, n0);
    lemma_id_sites(s0, n0, bad, c, ci);
    let a = id_sites(s0, n0);
    let g = op_id_sites(c, nc.operations_spec(), 2) + op_id_sites(ci, ni.operations_spec(), 4);
    let sites = id_sites(s1, n0 + 2);
    assert(sites =~= a + g) by {
        assert(id_sites(s1, n0 + 2) == id_sites(s1, n0 + 1) + op_id_sites(
            ci,
            ni.operations_spec(),
            4,
        ));
        assert(id_sites(s1, n0 + 1) == id_sites(s1, n0) + op_id_sites(
            c,
            nc.operations_spec(),
            2,
        ));
    }
    assert forall|m: int| 0 <= m < 6 implies bad.contains(#[trigger] g[m].0) by {
        assert(bad[m] == g[m].0);
    }
    assert forall|k: int, j: int|
        0 <= k < sites.len() && 0 <= j < sites.len() && j != k && (#[trigger] sites[k]).1 == c
            implies (#[trigger] sites[j]).0 != sites[k].0 by {
        if k < a.len() {
            assert(sites[k] == a[k]);
        } else {
            assert(sites[k] == g[k - a.len()]);
            if j < a.len() {
                assert(sites[j] == a[j]);
            } else {
                assert(sites[j] == g[j - a.len()]);
                assert(bad[k - a.len()] != bad[j - a.len()]);
            }
        }
    }
    assert forall|k: int, j: int|
        0 <= k < sites.len() && 0 <= j < sites.len() && j != k && (#[trigger] sites[k]).1 == ci
            implies (#[trigger] sites[j]).0 != sites[k].0 by {
        if k < a.len() {
            assert(sites[k] == a[k]);
        } else {
            assert(sites[k] == g[k - a.len()]);
            if j < a.len() {
                assert(sites[j] == a[j]);
            } else {
                assert(sites[j] == g[j - a.len()]);
                assert(bad[k - a.len()] != bad[j - a.len()]);
            }
        }
    }
    let ids = dedup(sites.map_values(|x: IdSite| x.0));
    lemma_dup_groups_none(sites, ids, ids.len() as int, c);
    lemma_dup_groups_none(sites, ids, ids.len() as int, ci);
    // The rest points elsewhere.
    lemma_info_components_none(s1, c);
    lemma_info_components_none(s1, ci);
    let raw = raw_diags(s1);
    lemma_none_concat(info_diags(s1), paths_diags(s1, n0 + 2), c);
    lemma_none_concat(info_diags(s1) + paths_diags(s1, n0 + 2), dup_diags(s1), c);
    lemma_none_concat(
        info_diags(s1) + paths_diags(s1, n0 + 2) + dup_diags(s1),
        components_diags(s1),
        c,
    );
    lemma_none_concat(info_diags(s1), paths_diags(s1, n0 + 2), ci);
    lemma_none_concat(info_diags(s1) + paths_diags(s1, n0 + 2), dup_diags(s1), ci);
    lemma_none_concat(
        info_diags(s1) + paths_diags(s1, n0 + 2) + dup_diags(s1),
        components_diags(s1),
        ci,
    );
    let n = raw.len() as int;
    let e = at_level(raw, Level::Error, n);
    let w = at_level(raw, Level::Warning, n);
    let f = at_level(raw, Level::Info, n);
    lemma_at_level_none(raw, Level::Error, n, c);
    lemma_at_level_none(raw, Level::Warning, n, c);
    lemma_at_level_none(raw, Level::Info, n, c);
    lemma_none_concat(e, w, c);
    lemma_none_concat(e + w, f, c);
    lemma_at_level_none(raw, Level::Error, n, ci);
    lemma_at_level_none(raw, Level::Warning, n, ci);
    lemma_at_level_none(raw, Level::Info, n, ci);
    lemma_none_concat(e, w, ci);
    lemma_none_concat(e + w, f, ci);
}

} // verus!
