//! Checks of a document for mistakes and omissions.
use vstd::prelude::*;
use crate::editor::{Selection, SelectionView};
use crate::model::{Components, OpenApiSpec, Operation, Parameter, PathItem, RefOr, Response};
use crate::ordered_map::OrderedMap;
use crate::text::{is_blank, is_blank_spec, push_char, to_chars};

verus! {

/// Index of the first `c` in `s`, or `-1`.
pub open spec fn char_index(s: Seq<char>, c: char) -> int
    decreases s.len(),
{
    if s.len() == 0 {
        -1
    } else {
        let r = char_index(s.drop_last(), c);
        if r >= 0 {
            r
        } else if s.last() == c {
            s.len() - 1
        } else {
            -1
        }
    }
}

pub proof fn lemma_char_index(s: Seq<char>, c: char)
    ensures
        -1 <= char_index(s, c) < s.len(),
        char_index(s, c) == -1 <==> (forall|j: int| 0 <= j < s.len() ==> s[j] != c),
        char_index(s, c) >= 0 ==> s[char_index(s, c)] == c && (forall|j: int|
            0 <= j < char_index(s, c) ==> s[j] != c),
    decreases s.len(),
{
    if s.len() > 0 {
        lemma_char_index(s.drop_last(), c);
        assert forall|j: int| 0 <= j < s.len() - 1 implies s.drop_last()[j] == s[j] by {}
    }
}

/// The names between `{` and `}` in a URL template, in order, repeats included.
/// Scanning stops at a `{` that no `}` closes.
pub open spec fn template_names(s: Seq<char>) -> Seq<Seq<char>>
    decreases s.len(),
{
    let i = char_index(s, '{');
    proof {
        lemma_char_index(s, '{');
    }
    if i < 0 {
        Seq::empty()
    } else {
        let rest = s.subrange(i + 1, s.len() as int);
        let j = char_index(rest, '}');
        proof {
            lemma_char_index(rest, '}');
        }
        if j < 0 {
            Seq::empty()
        } else {
            seq![rest.subrange(0, j)] + template_names(rest.subrange(j + 1, rest.len() as int))
        }
    }
}

/// `s` with later repeats removed.
pub open spec fn dedup<A>(s: Seq<A>) -> Seq<A>
    decreases s.len(),
{
    if s.len() == 0 {
        s
    } else {
        let d = dedup(s.drop_last());
        if d.contains(s.last()) {
            d
        } else {
            d.push(s.last())
        }
    }
}

/// The views of a list of strings.
pub open spec fn str_views(v: Seq<String>) -> Seq<Seq<char>> {
    v.map_values(|x: String| x@)
}

/// First position at or after `from` holding `c`.
fn find_char_from(v: &Vec<char>, c: char, from: usize) -> (r: Option<usize>)
    requires
        from <= v@.len(),
    ensures
        match r {
            Some(k) => from <= k < v@.len() && (k - from) == char_index(
                v@.subrange(from as int, v@.len() as int),
                c,
            ),
            None => char_index(v@.subrange(from as int, v@.len() as int), c) == -1,
        },
{
    let ghost sub = v@.subrange(from as int, v@.len() as int);
    proof {
        lemma_char_index(sub, c);
    }
    let mut k = from;
    while k < v.len()
        invariant
            from <= k <= v@.len(),
            sub == v@.subrange(from as int, v@.len() as int),
            forall|j: int| from <= j < k ==> v@[j] != c,
        decreases v@.len() - k,
    {
        if v[k] == c {
            proof {
                lemma_char_index(sub, c);
                assert(sub[k - from] == c);
                assert forall|j: int| 0 <= j < k - from implies sub[j] != c by {
                    assert(sub[j] == v@[from + j]);
                }
            }
            return Some(k);
        }
        k += 1;
    }
    proof {
        assert forall|j: int| 0 <= j < sub.len() implies sub[j] != c by {
            assert(sub[j] == v@[from + j]);
        }
    }
    None
}

/// Whether one of the strings equals `s`.
pub fn contains_string(v: &Vec<String>, s: &String) -> (r: bool)
    ensures
        r == str_views(v@).contains(s@),
{
    let mut i: usize = 0;
    while i < v.len()
        invariant
            i <= v@.len(),
            forall|j: int| 0 <= j < i ==> v@[j]@ != s@,
        decreases v@.len() - i,
    {
        if v[i] == *s {
            assert(str_views(v@)[i as int] == s@);
            return true;
        }
        i += 1;
    }
    assert(!str_views(v@).contains(s@));
    false
}

/// The distinct parameter names of a URL template such as `/users/{id}`, in order of
/// first appearance.
pub fn extract_path_params(path: &str) -> (params: Vec<String>)
    ensures
        str_views(params@) == dedup(template_names(path@)),
{
    let v = to_chars(path);
    let mut params: Vec<String> = Vec::new();
    let ghost mut found: Seq<Seq<char>> = Seq::empty();
    let mut pos: usize = 0;
    let vlen = v.len();
    assert(v@.subrange(0, v@.len() as int) =~= v@);
    loop
        invariant
            v@ == path@,
            vlen == v@.len(),
            pos <= v@.len(),
            found + template_names(v@.subrange(pos as int, v@.len() as int)) == template_names(
                path@,
            ),
            str_views(params@) == dedup(found),
        ensures
            found == template_names(path@),
            str_views(params@) == dedup(found),
        decreases v@.len() - pos,
    {
        let ghost s = v@.subrange(pos as int, v@.len() as int);
        match find_char_from(&v, '{', pos) {
            None => {
                assert(template_names(s) =~= Seq::<Seq<char>>::empty());
                assert(found + template_names(s) =~= found);
                break;
            },
            Some(open) => {
                let start = open + 1;
                let ghost rest = s.subrange(open - pos + 1, s.len() as int);
                assert(rest =~= v@.subrange(start as int, v@.len() as int));
                match find_char_from(&v, '}', start) {
                    None => {
                        assert(template_names(s) =~= Seq::<Seq<char>>::empty());
                        assert(found + template_names(s) =~= found);
                        break;
                    },
                    Some(close) => {
                        let mut name = String::new();
                        let mut k = start;
                        while k < close
                            invariant
                                start <= k <= close,
                                close < v@.len(),
                                name@ == v@.subrange(start as int, k as int),
                            decreases close - k,
                        {
                            push_char(&mut name, v[k]);
                            k += 1;
                            assert(name@ =~= v@.subrange(start as int, k as int));
                        }
                        let ghost x = name@;
                        assert(x =~= rest.subrange(0, close - start));
                        assert(rest.subrange(close - start + 1, rest.len() as int)
                            =~= v@.subrange(close + 1, v@.len() as int));
                        assert(template_names(s) == seq![x] + template_names(
                            v@.subrange(close + 1, v@.len() as int),
                        ));
                        proof {
                            assert((found + seq![x]).drop_last() =~= found);
                            assert(found + template_names(s) =~= (found + seq![x])
                                + template_names(v@.subrange(close + 1, v@.len() as int)));
                        }
                        if !contains_string(&params, &name) {
                            params.push(name);
                            assert(str_views(params@) =~= dedup(found).push(x));
                        }
                        proof {
                            found = found + seq![x];
                        }
                        pos = close + 1;
                    },
                }
            },
        }
    }
    params
}

/// How serious a finding is. Errors sort first, then warnings, then notes.
#[derive(Debug, Clone, Copy, PartialEq, Eq, Structural, PartialOrd, Ord)]
pub enum Level {
    Error,
    Warning,
    Info,
}

/// One finding.
#[derive(Debug, Clone)]
pub struct Diagnostic {
    pub level: Level,
    pub message: String,
    /// What to show when the user picks this finding.
    pub goto: Option<Selection>,
}

pub struct DiagnosticView {
    pub level: Level,
    pub message: Seq<char>,
    pub goto: Option<SelectionView>,
}

impl View for Diagnostic {
    type V = DiagnosticView;

    open spec fn view(&self) -> DiagnosticView {
        DiagnosticView {
            level: self.level,
            message: self.message@,
            goto: match self.goto {
                Some(s) => Some(s@),
                None => None,
            },
        }
    }
}

pub open spec fn diag_views(v: Seq<Diagnostic>) -> Seq<DiagnosticView> {
    v.map_values(|d: Diagnostic| d@)
}

pub open spec fn dv(level: Level, message: Seq<char>, goto: Option<SelectionView>) -> DiagnosticView {
    DiagnosticView { level, message, goto }
}

pub open spec fn one_if(c: bool, d: DiagnosticView) -> Seq<DiagnosticView> {
    if c {
        seq![d]
    } else {
        Seq::empty()
    }
}

impl Diagnostic {
    pub fn error(msg: String, goto: Option<Selection>) -> (d: Self)
        ensures
            d.level == Level::Error,
            d.message == msg,
            d.goto == goto,
    {
        Diagnostic { level: Level::Error, message: msg, goto }
    }

    pub fn warning(msg: String, goto: Option<Selection>) -> (d: Self)
        ensures
            d.level == Level::Warning,
            d.message == msg,
            d.goto == goto,
    {
        Diagnostic { level: Level::Warning, message: msg, goto }
    }

    pub fn info(msg: String, goto: Option<Selection>) -> (d: Self)
        ensures
            d.level == Level::Info,
            d.message == msg,
            d.goto == goto,
    {
        Diagnostic { level: Level::Info, message: msg, goto }
    }
}

impl Diagnostic {
    /// A copy of this finding.
    pub fn duplicate(&self) -> (r: Diagnostic)
        ensures
            r@ == self@,
    {
        Diagnostic {
            level: self.level,
            message: self.message.clone(),
            goto: match &self.goto {
                Some(s) => Some(s.duplicate()),
                None => None,
            },
        }
    }
}

// ── What the checks report, stated over the document ─────────────────────────

pub open spec fn opt_blank(s: Option<String>) -> bool {
    match s {
        Some(t) => is_blank_spec(t@),
        None => true,
    }
}

/// Findings about the `info` section and about an empty document.
pub open spec fn info_diags(s: OpenApiSpec) -> Seq<DiagnosticView> {
    one_if(
        is_blank_spec(s.info.title@),
        dv(Level::Error, "API title is empty"@, Some(SelectionView::Info)),
    ) + one_if(
        is_blank_spec(s.info.version@),
        dv(Level::Warning, "API version is empty"@, Some(SelectionView::Info)),
    ) + one_if(
        opt_blank(s.info.description),
        dv(Level::Info, "API description is missing"@, Some(SelectionView::Info)),
    ) + one_if(
        s.paths@.len() == 0 && s.webhooks@.len() == 0,
        dv(Level::Info, "No paths or webhooks defined"@, None),
    )
}

/// The `$ref` strings that point at the entries of a component map.
pub open spec fn ref_targets<T>(entries: Seq<(Seq<char>, T)>, prefix: Seq<char>) -> Seq<Seq<char>> {
    entries.map_values(|e: (Seq<char>, T)| prefix + e.0)
}

pub open spec fn schema_targets(s: OpenApiSpec) -> Seq<Seq<char>> {
    match s.components {
        Some(c) => ref_targets(c.schemas@, "#/components/schemas/"@),
        None => Seq::empty(),
    }
}

pub open spec fn param_targets(s: OpenApiSpec) -> Seq<Seq<char>> {
    match s.components {
        Some(c) => ref_targets(c.parameters@, "#/components/parameters/"@),
        None => Seq::empty(),
    }
}

pub open spec fn resp_targets(s: OpenApiSpec) -> Seq<Seq<char>> {
    match s.components {
        Some(c) => ref_targets(c.responses@, "#/components/responses/"@),
        None => Seq::empty(),
    }
}

pub open spec fn rb_targets(s: OpenApiSpec) -> Seq<Seq<char>> {
    match s.components {
        Some(c) => ref_targets(c.request_bodies@, "#/components/requestBodies/"@),
        None => Seq::empty(),
    }
}

/// The names of the tags that the document declares.
pub open spec fn declared_tags(s: OpenApiSpec) -> Seq<Seq<char>> {
    s.tags@.map_values(|t: crate::model::Tag| t.name@)
}

/// Where an operation sits: `"<method> <path>"` and the operation as a target.
pub struct OpSite {
    pub path: Seq<char>,
    pub method: Seq<char>,
}

impl OpSite {
    pub open spec fn pre(self) -> Seq<char> {
        self.method + " "@ + self.path
    }

    pub open spec fn sel(self) -> Option<SelectionView> {
        Some(SelectionView::Operation(self.path, self.method))
    }

    pub open spec fn err(self, message: Seq<char>) -> DiagnosticView {
        dv(Level::Error, message, self.sel())
    }

    pub open spec fn warn(self, message: Seq<char>) -> DiagnosticView {
        dv(Level::Warning, message, self.sel())
    }
}

pub open spec fn opid_diags(o: OpSite, op: Operation) -> Seq<DiagnosticView> {
    match op.operation_id {
        None => seq![o.warn(o.pre() + ": missing operationId"@)],
        Some(id) => one_if(id@.len() == 0, o.warn(o.pre() + ": missing operationId"@)),
    }
}

/// A response code that counts as success: `default`, `2..` or `3..`.
pub open spec fn success_code(k: Seq<char>) -> bool {
    k == "default"@ || (k.len() > 0 && (k[0] == '2' || k[0] == '3'))
}

pub open spec fn has_success(rs: Seq<(Seq<char>, RefOr<Response>)>) -> bool {
    exists|i: int| 0 <= i < rs.len() && success_code(#[trigger] rs[i].0)
}

pub open spec fn resp_entry_diags(
    o: OpSite,
    code: Seq<char>,
    rr: RefOr<Response>,
    targets: Seq<Seq<char>>,
) -> Seq<DiagnosticView> {
    match rr {
        RefOr::Ref(r) => one_if(
            !targets.contains(r.ref_@),
            o.err(o.pre() + " ["@ + code + "]: broken $ref '"@ + r.ref_@ + "'"@),
        ),
        RefOr::Item(resp) => one_if(
            is_blank_spec(resp.description@),
            o.warn(o.pre() + " ["@ + code + "]: response description is empty"@),
        ),
    }
}

pub open spec fn resp_list_diags(
    o: OpSite,
    rs: Seq<(Seq<char>, RefOr<Response>)>,
    targets: Seq<Seq<char>>,
    n: int,
) -> Seq<DiagnosticView>
    decreases n,
{
    if n <= 0 {
        Seq::empty()
    } else {
        resp_list_diags(o, rs, targets, n - 1) + resp_entry_diags(
            o,
            rs[n - 1].0,
            rs[n - 1].1,
            targets,
        )
    }
}

pub open spec fn responses_diags(
    o: OpSite,
    rs: Seq<(Seq<char>, RefOr<Response>)>,
    targets: Seq<Seq<char>>,
) -> Seq<DiagnosticView> {
    if rs.len() == 0 {
        seq![o.err(o.pre() + ": no responses defined"@)]
    } else {
        one_if(!has_success(rs), o.warn(o.pre() + ": no 2xx/3xx/default response defined"@))
            + resp_list_diags(o, rs, targets, rs.len() as int)
    }
}

pub open spec fn tag_diags(o: OpSite, tags: Seq<Seq<char>>, declared: Seq<Seq<char>>, n: int) -> Seq<
    DiagnosticView,
>
    decreases n,
{
    if n <= 0 {
        Seq::empty()
    } else {
        tag_diags(o, tags, declared, n - 1) + one_if(
            !declared.contains(tags[n - 1]),
            o.warn(o.pre() + ": tag '"@ + tags[n - 1] + "' not declared in global Tags"@),
        )
    }
}

pub open spec fn rb_diags(o: OpSite, op: Operation, targets: Seq<Seq<char>>) -> Seq<DiagnosticView> {
    match op.request_body {
        Some(RefOr::Ref(r)) => one_if(
            !targets.contains(r.ref_@),
            o.err(o.pre() + ": broken requestBody $ref '"@ + r.ref_@ + "'"@),
        ),
        _ => Seq::empty(),
    }
}

pub open spec fn param_diag(
    o: OpSite,
    p: RefOr<Parameter>,
    targets: Seq<Seq<char>>,
    template: Seq<Seq<char>>,
) -> Seq<DiagnosticView> {
    match p {
        RefOr::Ref(r) => one_if(
            !targets.contains(r.ref_@),
            o.err(o.pre() + ": broken parameter $ref '"@ + r.ref_@ + "'"@),
        ),
        RefOr::Item(pp) => one_if(is_blank_spec(pp.name@), o.warn(o.pre() + ": a parameter has no name"@))
            + one_if(
            pp.in_@ == "path"@ && !template.contains(pp.name@),
            o.warn(o.pre() + ": path parameter '"@ + pp.name@ + "' not in URL template"@),
        ),
    }
}

pub open spec fn params_diags(
    o: OpSite,
    ps: Seq<RefOr<Parameter>>,
    targets: Seq<Seq<char>>,
    template: Seq<Seq<char>>,
    n: int,
) -> Seq<DiagnosticView>
    decreases n,
{
    if n <= 0 {
        Seq::empty()
    } else {
        params_diags(o, ps, targets, template, n - 1) + param_diag(o, ps[n - 1], targets, template)
    }
}

/// The names of the path parameters among `ps`.
pub open spec fn covered_names(ps: Seq<RefOr<Parameter>>, n: int) -> Seq<Seq<char>>
    decreases n,
{
    if n <= 0 {
        Seq::empty()
    } else {
        let prev = covered_names(ps, n - 1);
        match ps[n - 1] {
            RefOr::Item(p) => if p.in_@ == "path"@ {
                prev.push(p.name@)
            } else {
                prev
            },
            RefOr::Ref(_) => prev,
        }
    }
}

pub open spec fn template_diags(
    o: OpSite,
    template: Seq<Seq<char>>,
    covered: Seq<Seq<char>>,
    n: int,
) -> Seq<DiagnosticView>
    decreases n,
{
    if n <= 0 {
        Seq::empty()
    } else {
        template_diags(o, template, covered, n - 1) + one_if(
            !covered.contains(template[n - 1]),
            o.warn(o.pre() + ": {"@ + template[n - 1] + "} in URL has no parameter definition"@),
        )
    }
}

/// Every finding about one operation, in the order the checks run.
pub open spec fn op_diags(
    s: OpenApiSpec,
    o: OpSite,
    item: PathItem,
    op: Operation,
    template: Seq<Seq<char>>,
) -> Seq<DiagnosticView> {
    let ps = item.parameters@ + op.parameters@;
    opid_diags(o, op) + responses_diags(o, op.responses@, resp_targets(s)) + tag_diags(
        o,
        str_views(op.tags@),
        declared_tags(s),
        op.tags@.len() as int,
    ) + rb_diags(o, op, rb_targets(s)) + params_diags(o, ps, param_targets(s), template, ps.len() as int)
        + template_diags(o, template, covered_names(ps, ps.len() as int), template.len() as int)
}

pub open spec fn ops_diags(
    s: OpenApiSpec,
    path: Seq<char>,
    item: PathItem,
    template: Seq<Seq<char>>,
    n: int,
) -> Seq<DiagnosticView>
    decreases n,
{
    if n <= 0 {
        Seq::empty()
    } else {
        let e = item.operations_spec()[n - 1];
        ops_diags(s, path, item, template, n - 1) + op_diags(
            s,
            OpSite { path, method: e.0 },
            item,
            e.1,
            template,
        )
    }
}

pub open spec fn path_diags(s: OpenApiSpec, path: Seq<char>, item: PathItem) -> Seq<DiagnosticView> {
    ops_diags(s, path, item, dedup(template_names(path)), item.operations_spec().len() as int)
}

pub open spec fn paths_diags(s: OpenApiSpec, n: int) -> Seq<DiagnosticView>
    decreases n,
{
    if n <= 0 {
        Seq::empty()
    } else {
        paths_diags(s, n - 1) + path_diags(s, s.paths@[n - 1].0, s.paths@[n - 1].1)
    }
}

/// An operation that has an `operationId`: `(id, path, method)`.
pub type IdSite = (Seq<char>, Seq<char>, Seq<char>);

pub open spec fn op_id_sites(path: Seq<char>, ops: Seq<(Seq<char>, Operation)>, n: int) -> Seq<IdSite>
    decreases n,
{
    if n <= 0 {
        Seq::empty()
    } else {
        let prev = op_id_sites(path, ops, n - 1);
        match ops[n - 1].1.operation_id {
            Some(id) => if id@.len() > 0 {
                prev.push((id@, path, ops[n - 1].0))
            } else {
                prev
            },
            None => prev,
        }
    }
}

pub open spec fn id_sites(s: OpenApiSpec, n: int) -> Seq<IdSite>
    decreases n,
{
    if n <= 0 {
        Seq::empty()
    } else {
        let e = s.paths@[n - 1];
        id_sites(s, n - 1) + op_id_sites(
            e.0,
            e.1.operations_spec(),
            e.1.operations_spec().len() as int,
        )
    }
}

pub open spec fn dup_diag(site: IdSite) -> DiagnosticView {
    dv(
        Level::Error,
        site.2 + " "@ + site.1 + ": duplicate operationId '"@ + site.0 + "'"@,
        Some(SelectionView::Operation(site.1, site.2)),
    )
}

/// The findings for the sites among the first `n` that carry `id`.
pub open spec fn sites_with_id(sites: Seq<IdSite>, id: Seq<char>, n: int) -> Seq<DiagnosticView>
    decreases n,
{
    if n <= 0 {
        Seq::empty()
    } else {
        sites_with_id(sites, id, n - 1) + (if sites[n - 1].0 == id {
            seq![dup_diag(sites[n - 1])]
        } else {
            Seq::empty()
        })
    }
}

/// Repeated ids, each group in the order in which its id first appears.
pub open spec fn dup_groups(sites: Seq<IdSite>, ids: Seq<Seq<char>>, n: int) -> Seq<DiagnosticView>
    decreases n,
{
    if n <= 0 {
        Seq::empty()
    } else {
        let g = sites_with_id(sites, ids[n - 1], sites.len() as int);
        dup_groups(sites, ids, n - 1) + (if g.len() > 1 {
            g
        } else {
            Seq::empty()
        })
    }
}

pub open spec fn dup_diags(s: OpenApiSpec) -> Seq<DiagnosticView> {
    let sites = id_sites(s, s.paths@.len() as int);
    let ids = dedup(sites.map_values(|x: IdSite| x.0));
    dup_groups(sites, ids, ids.len() as int)
}

pub open spec fn schema_ref_diags(
    entries: Seq<(Seq<char>, RefOr<crate::model::Schema>)>,
    targets: Seq<Seq<char>>,
    n: int,
) -> Seq<DiagnosticView>
    decreases n,
{
    if n <= 0 {
        Seq::empty()
    } else {
        let name = entries[n - 1].0;
        schema_ref_diags(entries, targets, n - 1) + match entries[n - 1].1 {
            RefOr::Ref(r) => one_if(
                !targets.contains(r.ref_@),
                dv(
                    Level::Error,
                    "Schema '"@ + name + "': broken $ref '"@ + r.ref_@ + "'"@,
                    Some(SelectionView::Schema(name)),
                ),
            ),
            RefOr::Item(_) => Seq::empty(),
        }
    }
}

pub open spec fn components_diags(s: OpenApiSpec) -> Seq<DiagnosticView> {
    match s.components {
        Some(c) => schema_ref_diags(c.schemas@, schema_targets(s), c.schemas@.len() as int),
        None => Seq::empty(),
    }
}

/// All findings in the order the checks produce them.
pub open spec fn raw_diags(s: OpenApiSpec) -> Seq<DiagnosticView> {
    info_diags(s) + paths_diags(s, s.paths@.len() as int) + dup_diags(s) + components_diags(s)
}

/// The findings of level `l` among the first `n`, in order.
pub open spec fn at_level(ds: Seq<DiagnosticView>, l: Level, n: int) -> Seq<DiagnosticView>
    decreases n,
{
    if n <= 0 {
        Seq::empty()
    } else {
        at_level(ds, l, n - 1) + (if ds[n - 1].level == l {
            seq![ds[n - 1]]
        } else {
            Seq::empty()
        })
    }
}

/// Stable ordering by level: errors, then warnings, then notes.
pub open spec fn by_level(ds: Seq<DiagnosticView>) -> Seq<DiagnosticView> {
    at_level(ds, Level::Error, ds.len() as int) + at_level(ds, Level::Warning, ds.len() as int)
        + at_level(ds, Level::Info, ds.len() as int)
}

/// What `lint` reports for a document.
pub open spec fn lint_spec(s: OpenApiSpec) -> Seq<DiagnosticView> {
    by_level(raw_diags(s))
}

// ── The checks ───────────────────────────────────────────────────────────────

fn push_diag(d: &mut Vec<Diagnostic>, x: Diagnostic)
    ensures
        diag_views(final(d)@) == diag_views(old(d)@).push(x@),
{
    d.push(x);
    assert(diag_views(d@) =~= diag_views(old(d)@).push(x@));
}

fn append_diags(d: &mut Vec<Diagnostic>, more: &mut Vec<Diagnostic>)
    ensures
        diag_views(final(d)@) == diag_views(old(d)@) + diag_views(old(more)@),
{
    d.append(more);
    assert(diag_views(d@) =~= diag_views(old(d)@) + diag_views(old(more)@));
}

/// `"<method> <path>"`.
fn op_prefix(method: &str, path: &str) -> (r: String)
    ensures
        r@ == method@ + " "@ + path@,
{
    let mut r = String::from_str(method);
    r.append(" ");
    r.append(path);
    r
}

fn op_goto(path: &str, method: &str) -> (r: Option<Selection>)
    ensures
        r matches Some(x) && x@ == SelectionView::Operation(path@, method@),
{
    Some(Selection::Operation(String::from_str(path), String::from_str(method)))
}

fn op_message(method: &str, path: &str, rest: &str) -> (r: String)
    ensures
        r@ == method@ + " "@ + path@ + rest@,
{
    let mut m = op_prefix(method, path);
    m.append(rest);
    m
}

fn ref_targets_of<T>(m: &OrderedMap<T>, prefix: &str) -> (r: Vec<String>)
    ensures
        str_views(r@) == ref_targets(m@, prefix@),
{
    let mut r: Vec<String> = Vec::new();
    let mut i: usize = 0;
    while i < m.len()
        invariant
            i <= m@.len(),
            str_views(r@) == ref_targets(m@, prefix@).take(i as int),
        decreases m@.len() - i,
    {
        let mut t = String::from_str(prefix);
        t.append(m.key_at(i).as_str());
        assert(t@ == ref_targets(m@, prefix@)[i as int]);
        let ghost r0 = r@;
        assert(ref_targets(m@, prefix@).len() == m@.len());
        assert(ref_targets(m@, prefix@).take(i as int).len() == i);
        assert(str_views(r0).len() == r0.len());
        assert(r0.len() == i);
        r.push(t);
        assert(r@ == r0.push(t));
        assert(str_views(r@).len() == i + 1);
        assert(str_views(r@)[i as int] == ref_targets(m@, prefix@)[i as int]);
        i += 1;
        assert(str_views(r@) =~= ref_targets(m@, prefix@).take(i as int));
    }
    assert(ref_targets(m@, prefix@).take(m@.len() as int) =~= ref_targets(m@, prefix@));
    r
}

fn check_opid(d: &mut Vec<Diagnostic>, path: &str, method: &str, op: &Operation)
    ensures
        diag_views(final(d)@) == diag_views(old(d)@) + opid_diags(
            OpSite { path: path@, method: method@ },
            *op,
        ),
{
    let o = Ghost(OpSite { path: path@, method: method@ });
    let missing = match &op.operation_id {
        None => true,
        Some(id) => id.as_str().is_empty(),
    };
    if missing {
        push_diag(d, Diagnostic::warning(op_message(method, path, ": missing operationId"), op_goto(path, method)));
        assert(diag_views(d@) =~= diag_views(old(d)@) + opid_diags(o@, *op));
    } else {
        assert(diag_views(d@) =~= diag_views(old(d)@) + opid_diags(o@, *op));
    }
}

/// Whether a response code counts as success.
fn is_success_code(k: &str) -> (r: bool)
    ensures
        r == success_code(k@),
{
    if crate::text::str_eq(k, "default") {
        return true;
    }
    if k.unicode_len() == 0 {
        return false;
    }
    let c = k.get_char(0);
    c == '2' || c == '3'
}

fn check_responses(
    d: &mut Vec<Diagnostic>,
    path: &str,
    method: &str,
    op: &Operation,
    resp_t: &Vec<String>,
)
    ensures
        diag_views(final(d)@) == diag_views(old(d)@) + responses_diags(
            OpSite { path: path@, method: method@ },
            op.responses@,
            str_views(resp_t@),
        ),
{
    let ghost o = OpSite { path: path@, method: method@ };
    let ghost base = diag_views(d@);
    let rs = &op.responses;
    if rs.len() == 0 {
        push_diag(d, Diagnostic::error(op_message(method, path, ": no responses defined"), op_goto(path, method)));
        assert(diag_views(d@) =~= base + responses_diags(o, rs@, str_views(resp_t@)));
        return;
    }
    let mut found = false;
    let mut i: usize = 0;
    while i < rs.len()
        invariant
            i <= rs@.len(),
            found == exists|j: int| 0 <= j < i && success_code(#[trigger] rs@[j].0),
        decreases rs@.len() - i,
    {
        if is_success_code(rs.key_at(i).as_str()) {
            found = true;
        }
        i += 1;
    }
    if !found {
        push_diag(d, Diagnostic::warning(op_message(method, path, ": no 2xx/3xx/default response defined"), op_goto(path, method)));
    }
    let ghost mid = diag_views(d@);
    assert(mid =~= base + one_if(!has_success(rs@), o.warn(o.pre() + ": no 2xx/3xx/default response defined"@)));
    let mut i: usize = 0;
    while i < rs.len()
        invariant
            i <= rs@.len(),
            diag_views(d@) == mid + resp_list_diags(o, rs@, str_views(resp_t@), i as int),
            o == (OpSite { path: path@, method: method@ }),
        decreases rs@.len() - i,
    {
        let code = rs.key_at(i);
        let ghost before = diag_views(d@);
        match rs.value_at(i) {
            RefOr::Ref(r) => {
                if !crate::lint::contains_string(resp_t, &r.ref_) {
                    let mut m = op_prefix(method, path);
                    m.append(" [");
                    m.append(code.as_str());
                    m.append("]: broken $ref '");
                    m.append(r.ref_.as_str());
                    m.append("'");
                    push_diag(d, Diagnostic::error(m, op_goto(path, method)));
                }
            },
            RefOr::Item(resp) => {
                if is_blank(resp.description.as_str()) {
                    let mut m = op_prefix(method, path);
                    m.append(" [");
                    m.append(code.as_str());
                    m.append("]: response description is empty");
                    push_diag(d, Diagnostic::warning(m, op_goto(path, method)));
                }
            },
        }
        assert(diag_views(d@) =~= before + resp_entry_diags(o, rs@[i as int].0, rs@[i as int].1, str_views(resp_t@)));
        i += 1;
        assert(diag_views(d@) =~= mid + resp_list_diags(o, rs@, str_views(resp_t@), i as int));
    }
    assert(diag_views(d@) =~= base + responses_diags(o, rs@, str_views(resp_t@)));
}

fn check_tags(d: &mut Vec<Diagnostic>, path: &str, method: &str, op: &Operation, declared: &Vec<String>)
    ensures
        diag_views(final(d)@) == diag_views(old(d)@) + tag_diags(
            OpSite { path: path@, method: method@ },
            str_views(op.tags@),
            str_views(declared@),
            op.tags@.len() as int,
        ),
{
    let ghost o = OpSite { path: path@, method: method@ };
    let ghost base = diag_views(d@);
    let mut i: usize = 0;
    while i < op.tags.len()
        invariant
            i <= op.tags@.len(),
            diag_views(d@) == base + tag_diags(o, str_views(op.tags@), str_views(declared@), i as int),
            o == (OpSite { path: path@, method: method@ }),
        decreases op.tags@.len() - i,
    {
        let tag = &op.tags[i];
        assert(str_views(op.tags@)[i as int] == tag@);
        if !contains_string(declared, tag) {
            let mut m = op_prefix(method, path);
            m.append(": tag '");
            m.append(tag.as_str());
            m.append("' not declared in global Tags");
            push_diag(d, Diagnostic::warning(m, op_goto(path, method)));
        }
        i += 1;
        assert(diag_views(d@) =~= base + tag_diags(o, str_views(op.tags@), str_views(declared@), i as int));
    }
}

fn check_request_body(d: &mut Vec<Diagnostic>, path: &str, method: &str, op: &Operation, rb_t: &Vec<String>)
    ensures
        diag_views(final(d)@) == diag_views(old(d)@) + rb_diags(
            OpSite { path: path@, method: method@ },
            *op,
            str_views(rb_t@),
        ),
{
    let ghost o = OpSite { path: path@, method: method@ };
    if let Some(RefOr::Ref(r)) = &op.request_body {
        if !contains_string(rb_t, &r.ref_) {
            let mut m = op_prefix(method, path);
            m.append(": broken requestBody $ref '");
            m.append(r.ref_.as_str());
            m.append("'");
            push_diag(d, Diagnostic::error(m, op_goto(path, method)));
        }
    }
    assert(diag_views(d@) =~= diag_views(old(d)@) + rb_diags(o, *op, str_views(rb_t@)));
}

/// Findings for one parameter; records the name of a path parameter in `covered`.
fn check_param(
    d: &mut Vec<Diagnostic>,
    covered: &mut Vec<String>,
    path: &str,
    method: &str,
    p: &RefOr<Parameter>,
    param_t: &Vec<String>,
    template: &Vec<String>,
)
    ensures
        diag_views(final(d)@) == diag_views(old(d)@) + param_diag(
            OpSite { path: path@, method: method@ },
            *p,
            str_views(param_t@),
            str_views(template@),
        ),
        str_views(final(covered)@) == match *p {
            RefOr::Item(pp) => if pp.in_@ == "path"@ {
                str_views(old(covered)@).push(pp.name@)
            } else {
                str_views(old(covered)@)
            },
            RefOr::Ref(_) => str_views(old(covered)@),
        },
{
    let ghost o = OpSite { path: path@, method: method@ };
    match p {
        RefOr::Ref(r) => {
            if !contains_string(param_t, &r.ref_) {
                let mut m = op_prefix(method, path);
                m.append(": broken parameter $ref '");
                m.append(r.ref_.as_str());
                m.append("'");
                push_diag(d, Diagnostic::error(m, op_goto(path, method)));
            }
            assert(diag_views(d@) =~= diag_views(old(d)@) + param_diag(o, *p, str_views(param_t@), str_views(template@)));
        },
        RefOr::Item(pp) => {
            if is_blank(pp.name.as_str()) {
                push_diag(d, Diagnostic::warning(op_message(method, path, ": a parameter has no name"), op_goto(path, method)));
            }
            let ghost mid = diag_views(d@);
            if crate::text::str_eq(pp.in_.as_str(), "path") {
                covered.push(pp.name.clone());
                assert(str_views(covered@) =~= str_views(old(covered)@).push(pp.name@));
                if !contains_string(template, &pp.name) {
                    let mut m = op_prefix(method, path);
                    m.append(": path parameter '");
                    m.append(pp.name.as_str());
                    m.append("' not in URL template");
                    push_diag(d, Diagnostic::warning(m, op_goto(path, method)));
                }
            }
            assert(diag_views(d@) =~= diag_views(old(d)@) + param_diag(o, *p, str_views(param_t@), str_views(template@)));
        },
    }
}

fn check_params(
    d: &mut Vec<Diagnostic>,
    path: &str,
    method: &str,
    item: &PathItem,
    op: &Operation,
    param_t: &Vec<String>,
    template: &Vec<String>,
)
    ensures
        ({
            let ps = item.parameters@ + op.parameters@;
            let o = OpSite { path: path@, method: method@ };
            diag_views(final(d)@) == diag_views(old(d)@) + params_diags(
                o,
                ps,
                str_views(param_t@),
                str_views(template@),
                ps.len() as int,
            ) + template_diags(
                o,
                str_views(template@),
                covered_names(ps, ps.len() as int),
                template@.len() as int,
            )
        }),
{
    let ghost o = OpSite { path: path@, method: method@ };
    let ghost ps = item.parameters@ + op.parameters@;
    let ghost base = diag_views(d@);
    let mut covered: Vec<String> = Vec::new();
    let n1 = item.parameters.len();
    let mut i: usize = 0;
    while i < n1
        invariant
            n1 == item.parameters@.len(),
            i <= n1,
            ps == item.parameters@ + op.parameters@,
            o == (OpSite { path: path@, method: method@ }),
            diag_views(d@) == base + params_diags(o, ps, str_views(param_t@), str_views(template@), i as int),
            str_views(covered@) == covered_names(ps, i as int),
        decreases n1 - i,
    {
        assert(ps[i as int] == item.parameters@[i as int]);
        let ghost before = diag_views(d@);
        check_param(d, &mut covered, path, method, &item.parameters[i], param_t, template);
        i += 1;
        assert(diag_views(d@) =~= base + params_diags(o, ps, str_views(param_t@), str_views(template@), i as int));
    }
    let mut j: usize = 0;
    while j < op.parameters.len()
        invariant
            n1 == item.parameters@.len(),
            j <= op.parameters@.len(),
            ps == item.parameters@ + op.parameters@,
            o == (OpSite { path: path@, method: method@ }),
            diag_views(d@) == base + params_diags(o, ps, str_views(param_t@), str_views(template@), n1 + j),
            str_views(covered@) == covered_names(ps, n1 + j),
        decreases op.parameters@.len() - j,
    {
        assert(ps[n1 + j] == op.parameters@[j as int]);
        check_param(d, &mut covered, path, method, &op.parameters[j], param_t, template);
        j += 1;
        assert(diag_views(d@) =~= base + params_diags(o, ps, str_views(param_t@), str_views(template@), n1 + j));
    }
    let ghost mid = diag_views(d@);
    let mut k: usize = 0;
    while k < template.len()
        invariant
            k <= template@.len(),
            o == (OpSite { path: path@, method: method@ }),
            str_views(covered@) == covered_names(ps, ps.len() as int),
            diag_views(d@) == mid + template_diags(o, str_views(template@), str_views(covered@), k as int),
        decreases template@.len() - k,
    {
        let pp = &template[k];
        assert(str_views(template@)[k as int] == pp@);
        if !contains_string(&covered, pp) {
            let mut m = op_prefix(method, path);
            m.append(": {");
            m.append(pp.as_str());
            m.append("} in URL has no parameter definition");
            push_diag(d, Diagnostic::warning(m, op_goto(path, method)));
        }
        k += 1;
        assert(diag_views(d@) =~= mid + template_diags(o, str_views(template@), str_views(covered@), k as int));
    }
}

/// Every finding about one operation.
fn check_operation(
    d: &mut Vec<Diagnostic>,
    spec: &OpenApiSpec,
    path: &str,
    item: &PathItem,
    method: &str,
    op: &Operation,
    template: &Vec<String>,
    t: &Targets,
)
    requires
        t.matches(*spec),
    ensures
        diag_views(final(d)@) == diag_views(old(d)@) + op_diags(
            *spec,
            OpSite { path: path@, method: method@ },
            *item,
            *op,
            str_views(template@),
        ),
{
    let ghost o = OpSite { path: path@, method: method@ };
    let ghost base = diag_views(d@);
    check_opid(d, path, method, op);
    let ghost a = diag_views(d@);
    check_responses(d, path, method, op, &t.resp);
    let ghost b = diag_views(d@);
    check_tags(d, path, method, op, &t.declared);
    let ghost c = diag_views(d@);
    check_request_body(d, path, method, op, &t.rb);
    let ghost e = diag_views(d@);
    check_params(d, path, method, item, op, &t.param, template);
    assert(diag_views(d@) =~= base + op_diags(*spec, o, *item, *op, str_views(template@)));
}

/// The `$ref` targets and declared tags that the checks look names up in.
struct Targets {
    schema: Vec<String>,
    param: Vec<String>,
    resp: Vec<String>,
    rb: Vec<String>,
    declared: Vec<String>,
}

impl Targets {
    spec fn matches(&self, s: OpenApiSpec) -> bool {
        &&& str_views(self.schema@) == schema_targets(s)
        &&& str_views(self.param@) == param_targets(s)
        &&& str_views(self.resp@) == resp_targets(s)
        &&& str_views(self.rb@) == rb_targets(s)
        &&& str_views(self.declared@) == declared_tags(s)
    }

    fn of(spec: &OpenApiSpec) -> (t: Targets)
        ensures
            t.matches(*spec),
    {
        let (schema, param, resp, rb) = match &spec.components {
            Some(c) => (
                ref_targets_of(&c.schemas, "#/components/schemas/"),
                ref_targets_of(&c.parameters, "#/components/parameters/"),
                ref_targets_of(&c.responses, "#/components/responses/"),
                ref_targets_of(&c.request_bodies, "#/components/requestBodies/"),
            ),
            None => {
                let r = (Vec::new(), Vec::new(), Vec::new(), Vec::new());
                assert(str_views(r.0@) =~= Seq::<Seq<char>>::empty());
                r
            },
        };
        let mut declared: Vec<String> = Vec::new();
        let mut i: usize = 0;
        while i < spec.tags.len()
            invariant
                i <= spec.tags@.len(),
                str_views(declared@) == declared_tags(*spec).take(i as int),
            decreases spec.tags@.len() - i,
        {
            let ghost d0 = declared@;
            assert(declared_tags(*spec).take(i as int).len() == i);
            assert(str_views(d0).len() == d0.len());
            declared.push(spec.tags[i].name.clone());
            assert(declared@ == d0.push(spec.tags@[i as int].name));
            assert(str_views(declared@)[i as int] == declared_tags(*spec)[i as int]);
            i += 1;
            assert(str_views(declared@) =~= declared_tags(*spec).take(i as int));
        }
        assert(declared_tags(*spec).take(spec.tags@.len() as int) =~= declared_tags(*spec));
        Targets { schema, param, resp, rb, declared }
    }
}

pub open spec fn site_views(v: Seq<(String, String, String)>) -> Seq<IdSite> {
    v.map_values(|t: (String, String, String)| (t.0@, t.1@, t.2@))
}

/// Findings for every operation of every path; collects the operations that have ids.
fn check_paths(d: &mut Vec<Diagnostic>, sites: &mut Vec<(String, String, String)>, spec: &OpenApiSpec, t: &Targets)
    requires
        t.matches(*spec),
        old(sites)@.len() == 0,
    ensures
        diag_views(final(d)@) == diag_views(old(d)@) + paths_diags(*spec, spec.paths@.len() as int),
        site_views(final(sites)@) == id_sites(*spec, spec.paths@.len() as int),
{
    let ghost base = diag_views(d@);
    assert(site_views(sites@) =~= id_sites(*spec, 0));
    let mut i: usize = 0;
    while i < spec.paths.len()
        invariant
            i <= spec.paths@.len(),
            t.matches(*spec),
            diag_views(d@) == base + paths_diags(*spec, i as int),
            site_views(sites@) == id_sites(*spec, i as int),
        decreases spec.paths@.len() - i,
    {
        let path = spec.paths.key_at(i);
        let item = spec.paths.value_at(i);
        let template = extract_path_params(path.as_str());
        let ops = item.operations();
        let ghost ov = item.operations_spec();
        assert(ops@.len() == ov.len());
        let ghost mid = diag_views(d@);
        let ghost smid = site_views(sites@);
        let mut j: usize = 0;
        while j < ops.len()
            invariant
                j <= ops@.len(),
                t.matches(*spec),
                ov == item.operations_spec(),
                ops@.map_values(|p: (&'static str, &Operation)| (p.0@, *p.1)) == ov,
                str_views(template@) == dedup(template_names(path@)),
                diag_views(d@) == mid + ops_diags(*spec, path@, *item, str_views(template@), j as int),
                site_views(sites@) == smid + op_id_sites(path@, ov, j as int),
            decreases ops@.len() - j,
        {
            let (method, op) = ops[j];
            assert(ov[j as int] == (method@, *op));
            check_operation(d, spec, path.as_str(), item, method, op, &template, t);
            let ghost s0 = sites@;
            assert(site_views(s0).len() == s0.len());
            if let Some(id) = &op.operation_id {
                if !id.as_str().is_empty() {
                    let site = (id.clone(), path.clone(), String::from_str(method));
                    assert((site.0@, site.1@, site.2@) == (id@, path@, method@));
                    sites.push(site);
                    assert(sites@ == s0.push(site));
                    assert(site_views(sites@) =~= site_views(s0).push((id@, path@, method@)));
                }
            }
            j += 1;
            assert(site_views(sites@) =~= smid + op_id_sites(path@, ov, j as int));
            assert(diag_views(d@) =~= mid + ops_diags(*spec, path@, *item, str_views(template@), j as int));
        }
        assert(spec.paths@[i as int] == (path@, *item));
        i += 1;
        assert(diag_views(d@) =~= base + paths_diags(*spec, i as int));
        assert(site_views(sites@) =~= id_sites(*spec, i as int));
    }
}

/// Findings for operation ids used more than once.
fn check_duplicate_ids(d: &mut Vec<Diagnostic>, sites: &Vec<(String, String, String)>)
    ensures
        ({
            let sv = site_views(sites@);
            let ids = dedup(sv.map_values(|x: IdSite| x.0));
            diag_views(final(d)@) == diag_views(old(d)@) + dup_groups(sv, ids, ids.len() as int)
        }),
{
    let ghost sv = site_views(sites@);
    let ghost all_ids = sv.map_values(|x: IdSite| x.0);
    let mut ids: Vec<String> = Vec::new();
    let mut k: usize = 0;
    assert(all_ids.take(0) =~= Seq::<Seq<char>>::empty());
    while k < sites.len()
        invariant
            k <= sites@.len(),
            sv == site_views(sites@),
            all_ids == sv.map_values(|x: IdSite| x.0),
            str_views(ids@) == dedup(all_ids.take(k as int)),
        decreases sites@.len() - k,
    {
        let id = &sites[k].0;
        assert(all_ids.take(k + 1).drop_last() =~= all_ids.take(k as int));
        assert(all_ids.take(k + 1).last() == id@);
        let ghost prev = str_views(ids@);
        if !contains_string(&ids, id) {
            ids.push(id.clone());
            assert(str_views(ids@) =~= prev.push(id@));
        }
        k += 1;
    }
    assert(all_ids.take(sites@.len() as int) =~= all_ids);
    let ghost idv = dedup(all_ids);
    let ghost base = diag_views(d@);
    let mut g: usize = 0;
    while g < ids.len()
        invariant
            g <= ids@.len(),
            sv == site_views(sites@),
            str_views(ids@) == idv,
            diag_views(d@) == base + dup_groups(sv, idv, g as int),
        decreases ids@.len() - g,
    {
        let id = &ids[g];
        assert(idv[g as int] == id@);
        let mut group: Vec<Diagnostic> = Vec::new();
        let mut m: usize = 0;
        while m < sites.len()
            invariant
                m <= sites@.len(),
                sv == site_views(sites@),
                diag_views(group@) == sites_with_id(sv, id@, m as int),
            decreases sites@.len() - m,
        {
            let site = &sites[m];
            assert(sv[m as int] == (site.0@, site.1@, site.2@));
            if site.0 == *id {
                let mut msg = op_prefix(site.2.as_str(), site.1.as_str());
                msg.append(": duplicate operationId '");
                msg.append(site.0.as_str());
                msg.append("'");
                push_diag(&mut group, Diagnostic::error(msg, op_goto(site.1.as_str(), site.2.as_str())));
            }
            m += 1;
            assert(diag_views(group@) =~= sites_with_id(sv, id@, m as int));
        }
        if group.len() > 1 {
            append_diags(d, &mut group);
        }
        g += 1;
        assert(diag_views(d@) =~= base + dup_groups(sv, idv, g as int));
    }
}

/// Findings for component schemas whose `$ref` points nowhere.
fn check_schema_refs(d: &mut Vec<Diagnostic>, spec: &OpenApiSpec, t: &Targets)
    requires
        t.matches(*spec),
    ensures
        diag_views(final(d)@) == diag_views(old(d)@) + components_diags(*spec),
{
    let ghost base = diag_views(d@);
    match &spec.components {
        None => {
            assert(diag_views(d@) =~= base + components_diags(*spec));
        },
        Some(comps) => {
            let schemas = &comps.schemas;
            let mut i: usize = 0;
            while i < schemas.len()
                invariant
                    i <= schemas@.len(),
                    spec.components == Some(*comps),
                    t.matches(*spec),
                    diag_views(d@) == base + schema_ref_diags(schemas@, schema_targets(*spec), i as int),
                decreases schemas@.len() - i,
            {
                let name = schemas.key_at(i);
                if let RefOr::Ref(r) = schemas.value_at(i) {
                    if !contains_string(&t.schema, &r.ref_) {
                        let mut msg = String::from_str("Schema '");
                        msg.append(name.as_str());
                        msg.append("': broken $ref '");
                        msg.append(r.ref_.as_str());
                        msg.append("'");
                        push_diag(d, Diagnostic::error(msg, Some(Selection::Schema(name.clone()))));
                    }
                }
                i += 1;
                assert(diag_views(d@) =~= base + schema_ref_diags(schemas@, schema_targets(*spec), i as int));
            }
        },
    }
}

fn level_eq(a: Level, b: Level) -> (r: bool)
    ensures
        r == (a == b),
{
    a == b
}

/// Reviews a document and reports what is wrong or missing: errors first, then warnings,
/// then notes, each group in the order the checks found them.
pub fn lint(spec: &OpenApiSpec) -> (diags: Vec<Diagnostic>)
    ensures
        diag_views(diags@) == lint_spec(*spec),
{
    let mut d: Vec<Diagnostic> = Vec::new();
    assert(diag_views(d@) =~= Seq::<DiagnosticView>::empty());

    if is_blank(spec.info.title.as_str()) {
        push_diag(&mut d, Diagnostic::error(String::from_str("API title is empty"), Some(Selection::Info)));
    }
    if is_blank(spec.info.version.as_str()) {
        push_diag(&mut d, Diagnostic::warning(String::from_str("API version is empty"), Some(Selection::Info)));
    }
    let desc_blank = match &spec.info.description {
        Some(t) => is_blank(t.as_str()),
        None => true,
    };
    if desc_blank {
        push_diag(&mut d, Diagnostic::info(String::from_str("API description is missing"), Some(Selection::Info)));
    }
    if spec.paths.is_empty() && spec.webhooks.is_empty() {
        push_diag(&mut d, Diagnostic::info(String::from_str("No paths or webhooks defined"), None));
    }
    assert(diag_views(d@) =~= info_diags(*spec));

    let t = Targets::of(spec);
    let mut sites: Vec<(String, String, String)> = Vec::new();
    check_paths(&mut d, &mut sites, spec, &t);
    check_duplicate_ids(&mut d, &sites);
    check_schema_refs(&mut d, spec, &t);
    let ghost raw = diag_views(d@);
    assert(raw =~= raw_diags(*spec));

    // Stable order: errors, then warnings, then notes.
    let mut out: Vec<Diagnostic> = Vec::new();
    let mut pass: usize = 0;
    while pass < 3
        invariant
            pass <= 3,
            raw == diag_views(d@),
            diag_views(out@) == (if pass == 0 {
                Seq::<DiagnosticView>::empty()
            } else if pass == 1 {
                at_level(raw, Level::Error, raw.len() as int)
            } else if pass == 2 {
                at_level(raw, Level::Error, raw.len() as int) + at_level(raw, Level::Warning, raw.len() as int)
            } else {
                by_level(raw)
            }),
        decreases 3 - pass,
    {
        let lvl = if pass == 0 {
            Level::Error
        } else if pass == 1 {
            Level::Warning
        } else {
            Level::Info
        };
        let ghost start = diag_views(out@);
        let mut i: usize = 0;
        while i < d.len()
            invariant
                i <= d@.len(),
                raw == diag_views(d@),
                diag_views(out@) == start + at_level(raw, lvl, i as int),
            decreases d@.len() - i,
        {
            assert(raw[i as int] == d@[i as int]@);
            if level_eq(d[i].level, lvl) {
                push_diag(&mut out, d[i].duplicate());
            }
            i += 1;
            assert(diag_views(out@) =~= start + at_level(raw, lvl, i as int));
        }
        pass += 1;
    }
    out
}

} // verus!
