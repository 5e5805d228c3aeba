//! Searching a document, and the overview that the sidebar shows of it.
use vstd::prelude::*;
use crate::editor::{Selection, SelectionView};
use crate::lint::{contains_string, diag_views, lint, lint_spec, str_views, Diagnostic, DiagnosticView, Level};
use crate::model::{
    Components, OaExample, OpenApiSpec, Operation, Parameter, PathItem, RefOr, RequestBody, Response, Schema,
    SecurityScheme, Server, Tag,
};
use crate::ordered_map::{keys_of, OrderedMap};
use crate::text::{
    cat, cat3, contains_seq, decimal, seq_contains, str_to_lowercase, to_chars, unicode_lower_str,
    usize_to_decimal,
};

verus! {

// ── Colours ──────────────────────────────────────────────────────────────────

/// A colour by its red, green and blue components.
#[derive(Debug, Clone, Copy, PartialEq, Eq, Structural)]
pub struct Rgb {
    pub r: u8,
    pub g: u8,
    pub b: u8,
}

pub open spec fn rgb(r: u8, g: u8, b: u8) -> Rgb {
    Rgb { r, g, b }
}

fn make_rgb(r: u8, g: u8, b: u8) -> (c: Rgb)
    ensures
        c == rgb(r, g, b),
{
    Rgb { r, g, b }
}

/// The colour of a method's label: one per common method, grey for the others.
pub open spec fn method_rgb(m: Seq<char>) -> Rgb {
    if m == "GET"@ {
        rgb(97, 175, 95)
    } else if m == "POST"@ {
        rgb(73, 135, 230)
    } else if m == "PUT"@ {
        rgb(252, 161, 48)
    } else if m == "PATCH"@ {
        rgb(80, 200, 200)
    } else if m == "DELETE"@ {
        rgb(220, 80, 80)
    } else if m == "OPTIONS"@ || m == "HEAD"@ || m == "TRACE"@ {
        rgb(155, 89, 182)
    } else {
        rgb(160, 160, 160)
    }
}

pub fn method_color(method: &str) -> (c: Rgb)
    ensures
        c == method_rgb(method@),
{
    let m = String::from_str(method);
    if m == String::from_str("GET") {
        make_rgb(97, 175, 95)
    } else if m == String::from_str("POST") {
        make_rgb(73, 135, 230)
    } else if m == String::from_str("PUT") {
        make_rgb(252, 161, 48)
    } else if m == String::from_str("PATCH") {
        make_rgb(80, 200, 200)
    } else if m == String::from_str("DELETE") {
        make_rgb(220, 80, 80)
    } else if m == String::from_str("OPTIONS") || m == String::from_str("HEAD") || m
        == String::from_str("TRACE") {
        make_rgb(155, 89, 182)
    } else {
        make_rgb(160, 160, 160)
    }
}

pub open spec fn grey() -> Rgb {
    rgb(110, 110, 140)
}

pub open spec fn purple() -> Rgb {
    rgb(130, 100, 200)
}

pub open spec fn teal() -> Rgb {
    rgb(60, 160, 160)
}

pub open spec fn orange() -> Rgb {
    rgb(200, 130, 60)
}

pub open spec fn blue() -> Rgb {
    rgb(80, 140, 220)
}

pub open spec fn green() -> Rgb {
    rgb(80, 160, 100)
}

pub open spec fn pink() -> Rgb {
    rgb(190, 100, 150)
}

// ── Hits ─────────────────────────────────────────────────────────────────────

/// One search result: what kind of item it is, a label, an excerpt of its text and where
/// it leads.
pub struct SearchHit {
    pub kind: &'static str,
    pub kind_color: Rgb,
    pub label: String,
    pub excerpt: String,
    pub sel: Selection,
}

/// A `SearchHit` with its strings as character sequences.
pub struct HitView {
    pub kind: Seq<char>,
    pub color: Rgb,
    pub label: Seq<char>,
    pub excerpt: Seq<char>,
    pub sel: SelectionView,
}

pub open spec fn hit_view(h: SearchHit) -> HitView {
    HitView { kind: h.kind@, color: h.kind_color, label: h.label@, excerpt: h.excerpt@, sel: h.sel@ }
}

pub open spec fn hits_view(v: Seq<SearchHit>) -> Seq<HitView> {
    v.map_values(|h: SearchHit| hit_view(h))
}

pub open spec fn hv(kind: Seq<char>, color: Rgb, label: Seq<char>, excerpt: Seq<char>, sel: SelectionView) -> HitView {
    HitView { kind, color, label, excerpt, sel }
}

/// The first `max` characters of `s`, followed by `…` when `s` is longer.
pub open spec fn excerpt_spec(s: Seq<char>, max: nat) -> Seq<char> {
    if s.len() <= max {
        s
    } else {
        s.take(max as int) + "…"@
    }
}

/// The text of an optional string, empty when absent.
pub open spec fn opt_text(o: Option<String>) -> Seq<char> {
    match o {
        Some(s) => s@,
        None => Seq::empty(),
    }
}

/// The first of two optional strings that is present, else the empty string.
pub open spec fn first_text(a: Option<String>, b: Option<String>) -> Seq<char> {
    match a {
        Some(s) => s@,
        None => opt_text(b),
    }
}

/// An optional string as a list of zero or one parts.
pub open spec fn part(o: Option<String>) -> Seq<Seq<char>> {
    match o {
        Some(s) => seq![s@],
        None => Seq::empty(),
    }
}

/// The parts joined by `" · "`.
pub open spec fn join_dot(parts: Seq<Seq<char>>) -> Seq<char>
    decreases parts.len(),
{
    if parts.len() == 0 {
        Seq::empty()
    } else if parts.len() == 1 {
        parts[0]
    } else {
        join_dot(parts.drop_last()) + " · "@ + parts.last()
    }
}

/// A hit is kept when its lowercased label or excerpt contains the lowercased query `q`.
pub open spec fn matches_query(label: Seq<char>, excerpt: Seq<char>, q: Seq<char>) -> bool {
    contains_seq(unicode_lower_str(label), q) || contains_seq(unicode_lower_str(excerpt), q)
}

pub open spec fn keep(h: HitView, q: Seq<char>) -> Seq<HitView> {
    if matches_query(h.label, h.excerpt, q) {
        seq![h]
    } else {
        Seq::empty()
    }
}

pub open spec fn info_hit(spec: OpenApiSpec) -> HitView {
    hv("INFO"@, grey(), spec.info.title@, excerpt_spec(opt_text(spec.info.description), 50), SelectionView::Info)
}

pub open spec fn tag_hits(tags: Seq<Tag>, q: Seq<char>) -> Seq<HitView>
    decreases tags.len(),
{
    if tags.len() == 0 {
        Seq::empty()
    } else {
        let t = tags.last();
        tag_hits(tags.drop_last(), q) + keep(
            hv("TAG"@, grey(), t.name@, excerpt_spec(opt_text(t.description), 50), SelectionView::Tag(t.name@)),
            q,
        )
    }
}

pub open spec fn server_hits(servers: Seq<Server>, q: Seq<char>) -> Seq<HitView>
    decreases servers.len(),
{
    if servers.len() == 0 {
        Seq::empty()
    } else {
        let s = servers.last();
        server_hits(servers.drop_last(), q) + keep(
            hv("SERVER"@, grey(), s.url@, excerpt_spec(opt_text(s.description), 50), SelectionView::Servers),
            q,
        )
    }
}

pub open spec fn param_hits(params: Seq<RefOr<Parameter>>, m: Seq<char>, p: Seq<char>, q: Seq<char>) -> Seq<HitView>
    decreases params.len(),
{
    if params.len() == 0 {
        Seq::empty()
    } else {
        param_hits(params.drop_last(), m, p, q) + match params.last() {
            RefOr::Item(x) => keep(
                hv(
                    "PARAM"@,
                    teal(),
                    m + "  "@ + p + "  › "@ + x.name@,
                    excerpt_spec(opt_text(x.description), 45),
                    SelectionView::Operation(p, m),
                ),
                q,
            ),
            RefOr::Ref(_) => Seq::empty(),
        }
    }
}

/// The id, summary and description of an operation, those that are present.
pub open spec fn op_details(op: Operation) -> Seq<Seq<char>> {
    part(op.operation_id) + part(op.summary) + part(op.description)
}

pub open spec fn op_hits(ops: Seq<(Seq<char>, Operation)>, p: Seq<char>, q: Seq<char>) -> Seq<HitView>
    decreases ops.len(),
{
    if ops.len() == 0 {
        Seq::empty()
    } else {
        let (m, op) = ops.last();
        op_hits(ops.drop_last(), p, q) + keep(
            hv(
                "OPER"@,
                method_rgb(m),
                m + "  "@ + p,
                excerpt_spec(join_dot(op_details(op)), 55),
                SelectionView::Operation(p, m),
            ),
            q,
        ) + param_hits(op.parameters@, m, p, q)
    }
}

pub open spec fn path_hits(paths: Seq<(Seq<char>, PathItem)>, q: Seq<char>) -> Seq<HitView>
    decreases paths.len(),
{
    if paths.len() == 0 {
        Seq::empty()
    } else {
        let (p, item) = paths.last();
        path_hits(paths.drop_last(), q) + keep(
            hv(
                "PATH"@,
                green(),
                p,
                excerpt_spec(first_text(item.summary, item.description), 50),
                SelectionView::Path(p),
            ),
            q,
        ) + op_hits(item.operations_spec(), p, q)
    }
}

pub open spec fn prop_hits(props: Seq<(Seq<char>, Box<Schema>)>, name: Seq<char>, q: Seq<char>) -> Seq<HitView>
    decreases props.len(),
{
    if props.len() == 0 {
        Seq::empty()
    } else {
        let (pn, ps) = props.last();
        prop_hits(props.drop_last(), name, q) + keep(
            hv(
                "PROP"@,
                purple(),
                name + "  › "@ + pn,
                excerpt_spec(opt_text(ps.description), 45),
                SelectionView::Schema(name),
            ),
            q,
        )
    }
}

pub open spec fn schema_hits(schemas: Seq<(Seq<char>, RefOr<Schema>)>, q: Seq<char>) -> Seq<HitView>
    decreases schemas.len(),
{
    if schemas.len() == 0 {
        Seq::empty()
    } else {
        let (n, r) = schemas.last();
        schema_hits(schemas.drop_last(), q) + match r {
            RefOr::Item(s) => keep(
                hv(
                    "SCHEMA"@,
                    purple(),
                    n,
                    excerpt_spec(first_text(s.description, s.title), 50),
                    SelectionView::Schema(n),
                ),
                q,
            ) + prop_hits(s.properties@, n, q),
            RefOr::Ref(_) => Seq::empty(),
        }
    }
}

pub open spec fn body_hits(bodies: Seq<(Seq<char>, RefOr<RequestBody>)>, q: Seq<char>) -> Seq<HitView>
    decreases bodies.len(),
{
    if bodies.len() == 0 {
        Seq::empty()
    } else {
        let (n, r) = bodies.last();
        body_hits(bodies.drop_last(), q) + match r {
            RefOr::Item(b) => keep(
                hv("REQ BODY"@, orange(), n, excerpt_spec(opt_text(b.description), 50), SelectionView::RequestBody(n)),
                q,
            ),
            RefOr::Ref(_) => Seq::empty(),
        }
    }
}

pub open spec fn response_hits(resps: Seq<(Seq<char>, RefOr<Response>)>, q: Seq<char>) -> Seq<HitView>
    decreases resps.len(),
{
    if resps.len() == 0 {
        Seq::empty()
    } else {
        let (n, r) = resps.last();
        response_hits(resps.drop_last(), q) + match r {
            RefOr::Item(x) => keep(
                hv("RESPONSE"@, blue(), n, excerpt_spec(x.description@, 50), SelectionView::ComponentResponse(n)),
                q,
            ),
            RefOr::Ref(_) => Seq::empty(),
        }
    }
}

pub open spec fn cparam_hits(params: Seq<(Seq<char>, RefOr<Parameter>)>, q: Seq<char>) -> Seq<HitView>
    decreases params.len(),
{
    if params.len() == 0 {
        Seq::empty()
    } else {
        let (n, r) = params.last();
        cparam_hits(params.drop_last(), q) + match r {
            RefOr::Item(x) => keep(
                hv("PARAM"@, teal(), n, excerpt_spec(opt_text(x.description), 50), SelectionView::ComponentParameter(n)),
                q,
            ),
            RefOr::Ref(_) => Seq::empty(),
        }
    }
}

pub open spec fn example_hits(examples: Seq<(Seq<char>, RefOr<OaExample>)>, q: Seq<char>) -> Seq<HitView>
    decreases examples.len(),
{
    if examples.len() == 0 {
        Seq::empty()
    } else {
        let (n, r) = examples.last();
        example_hits(examples.drop_last(), q) + match r {
            RefOr::Item(x) => keep(
                hv(
                    "EXAMPLE"@,
                    pink(),
                    n,
                    excerpt_spec(join_dot(part(x.summary) + part(x.description)), 50),
                    SelectionView::Example(n),
                ),
                q,
            ),
            RefOr::Ref(_) => Seq::empty(),
        }
    }
}

pub open spec fn scheme_hits(schemes: Seq<(Seq<char>, RefOr<SecurityScheme>)>, q: Seq<char>) -> Seq<HitView>
    decreases schemes.len(),
{
    if schemes.len() == 0 {
        Seq::empty()
    } else {
        let (n, r) = schemes.last();
        scheme_hits(schemes.drop_last(), q) + match r {
            RefOr::Item(x) => keep(
                hv(
                    "SEC SCHEME"@,
                    grey(),
                    n,
                    excerpt_spec(
                        match x.description {
                            Some(d) => d@,
                            None => x.type_@,
                        },
                        50,
                    ),
                    SelectionView::SecurityScheme(n),
                ),
                q,
            ),
            RefOr::Ref(_) => Seq::empty(),
        }
    }
}

/// The hits among the components: schemas with their properties, request bodies,
/// responses, parameters, examples and security schemes.
pub open spec fn component_hits(c: Components, q: Seq<char>) -> Seq<HitView> {
    schema_hits(c.schemas@, q) + body_hits(c.request_bodies@, q) + response_hits(c.responses@, q)
        + cparam_hits(c.parameters@, q) + example_hits(c.examples@, q) + scheme_hits(
        c.security_schemes@,
        q,
    )
}

/// Every hit of the document for the lowercased query `q`, in document order: the info,
/// the tags, the servers, each path with its operations and their inline parameters, then
/// the components.
pub open spec fn search_hits(spec: OpenApiSpec, q: Seq<char>) -> Seq<HitView> {
    keep(info_hit(spec), q) + tag_hits(spec.tags@, q) + server_hits(spec.servers@, q) + path_hits(
        spec.paths@,
        q,
    ) + match spec.components {
        Some(c) => component_hits(c, q),
        None => Seq::empty(),
    }
}

/// At most `max` characters of `s`, with `…` appended when some were cut.
pub fn excerpt(s: &str, max: usize) -> (r: String)
    ensures
        r@ == excerpt_spec(s@, max as nat),
{
    let v = to_chars(s);
    if v.len() <= max {
        String::from_str(s)
    } else {
        let mut r = String::new();
        let mut i: usize = 0;
        while i < max
            invariant
                v@ == s@,
                max < v@.len(),
                i <= max,
                r@ == s@.take(i as int),
            decreases max - i,
        {
            crate::text::push_char(&mut r, v[i]);
            i += 1;
            assert(r@ =~= s@.take(i as int));
        }
        r.append("…");
        r
    }
}

/// Whether the lowercased label or excerpt contains `q`.
fn hit_matches(label: &str, excerpt: &str, q: &Vec<char>) -> (r: bool)
    ensures
        r == matches_query(label@, excerpt@, q@),
{
    let l = to_chars(str_to_lowercase(label).as_str());
    if seq_contains(l.as_slice(), q.as_slice()) {
        return true;
    }
    let e = to_chars(str_to_lowercase(excerpt).as_str());
    seq_contains(e.as_slice(), q.as_slice())
}

/// Appends the hit when it matches `q`.
fn push_hit(
    hits: &mut Vec<SearchHit>,
    q: &Vec<char>,
    kind: &'static str,
    color: Rgb,
    label: String,
    excerpt: String,
    sel: Selection,
)
    ensures
        hits_view(final(hits)@) == hits_view(old(hits)@) + keep(hv(kind@, color, label@, excerpt@, sel@), q@),
{
    let ghost h = hv(kind@, color, label@, excerpt@, sel@);
    if hit_matches(label.as_str(), excerpt.as_str(), q) {
        let hit = SearchHit { kind, kind_color: color, label, excerpt, sel };
        hits.push(hit);
        assert(hits_view(hits@) =~= hits_view(old(hits)@) + seq![h]);
    } else {
        assert(hits_view(hits@) =~= hits_view(old(hits)@) + Seq::<HitView>::empty());
    }
}

/// The text of an optional string, empty when absent.
fn text_of(o: &Option<String>) -> (r: &str)
    ensures
        r@ == opt_text(*o),
{
    match o {
        Some(s) => s.as_str(),
        None => {
            proof {
                reveal_strlit("");
            }
            ""
        },
    }
}

/// The parts joined by `" · "`.
fn join_parts(parts: &Vec<String>) -> (r: String)
    ensures
        r@ == join_dot(parts@.map_values(|s: String| s@)),
{
    let ghost pv = parts@.map_values(|s: String| s@);
    let mut r = String::new();
    let mut i: usize = 0;
    while i < parts.len()
        invariant
            pv == parts@.map_values(|s: String| s@),
            i <= parts@.len(),
            r@ == join_dot(pv.take(i as int)),
        decreases parts@.len() - i,
    {
        assert(pv.take(i + 1).drop_last() =~= pv.take(i as int));
        if i > 0 {
            r.append(" · ");
        }
        r.append(parts[i].as_str());
        i += 1;
    }
    assert(pv.take(parts@.len() as int) =~= pv);
    r
}

fn push_part(parts: &mut Vec<String>, o: &Option<String>)
    ensures
        final(parts)@.map_values(|s: String| s@) == old(parts)@.map_values(|s: String| s@) + part(*o),
{
    if let Some(s) = o {
        parts.push(s.clone());
    }
    assert(parts@.map_values(|s: String| s@) =~= old(parts)@.map_values(|s: String| s@) + part(*o));
}

fn push_tag_hits(hits: &mut Vec<SearchHit>, q: &Vec<char>, tags: &Vec<Tag>)
    ensures
        hits_view(final(hits)@) == hits_view(old(hits)@) + tag_hits(tags@, q@),
{
    let mut i: usize = 0;
    while i < tags.len()
        invariant
            i <= tags@.len(),
            hits_view(hits@) == hits_view(old(hits)@) + tag_hits(tags@.take(i as int), q@),
        decreases tags@.len() - i,
    {
        let t = &tags[i];
        assert(tags@.take(i + 1).drop_last() =~= tags@.take(i as int));
        push_hit(
            hits,
            q,
            "TAG",
            make_rgb(110, 110, 140),
            t.name.clone(),
            excerpt(text_of(&t.description), 50),
            Selection::Tag(t.name.clone()),
        );
        i += 1;
    }
    assert(tags@.take(tags@.len() as int) =~= tags@);
}

fn push_server_hits(hits: &mut Vec<SearchHit>, q: &Vec<char>, servers: &Vec<Server>)
    ensures
        hits_view(final(hits)@) == hits_view(old(hits)@) + server_hits(servers@, q@),
{
    let mut i: usize = 0;
    while i < servers.len()
        invariant
            i <= servers@.len(),
            hits_view(hits@) == hits_view(old(hits)@) + server_hits(servers@.take(i as int), q@),
        decreases servers@.len() - i,
    {
        let s = &servers[i];
        assert(servers@.take(i + 1).drop_last() =~= servers@.take(i as int));
        push_hit(
            hits,
            q,
            "SERVER",
            make_rgb(110, 110, 140),
            s.url.clone(),
            excerpt(text_of(&s.description), 50),
            Selection::Servers,
        );
        i += 1;
    }
    assert(servers@.take(servers@.len() as int) =~= servers@);
}

fn push_param_hits(
    hits: &mut Vec<SearchHit>,
    q: &Vec<char>,
    params: &Vec<RefOr<Parameter>>,
    method: &str,
    path: &str,
)
    ensures
        hits_view(final(hits)@) == hits_view(old(hits)@) + param_hits(params@, method@, path@, q@),
{
    let mut i: usize = 0;
    while i < params.len()
        invariant
            i <= params@.len(),
            hits_view(hits@) == hits_view(old(hits)@) + param_hits(params@.take(i as int), method@, path@, q@),
        decreases params@.len() - i,
    {
        assert(params@.take(i + 1).drop_last() =~= params@.take(i as int));
        match &params[i] {
            RefOr::Item(x) => {
                let label = cat3(cat3(method, "  ", path).as_str(), "  › ", x.name.as_str());
                push_hit(
                    hits,
                    q,
                    "PARAM",
                    make_rgb(60, 160, 160),
                    label,
                    excerpt(text_of(&x.description), 45),
                    Selection::Operation(String::from_str(path), String::from_str(method)),
                );
            },
            RefOr::Ref(_) => {
                assert(hits_view(hits@) =~= hits_view(hits@) + Seq::<HitView>::empty());
            },
        }
        i += 1;
    }
    assert(params@.take(params@.len() as int) =~= params@);
}

fn push_op_hits(hits: &mut Vec<SearchHit>, q: &Vec<char>, item: &PathItem, path: &str)
    ensures
        hits_view(final(hits)@) == hits_view(old(hits)@) + op_hits(item.operations_spec(), path@, q@),
{
    let ops = item.operations();
    let ghost ov = ops@.map_values(|p: (&'static str, &Operation)| (p.0@, *p.1));
    let mut i: usize = 0;
    while i < ops.len()
        invariant
            ov == ops@.map_values(|p: (&'static str, &Operation)| (p.0@, *p.1)),
            ov == item.operations_spec(),
            i <= ops@.len(),
            hits_view(hits@) == hits_view(old(hits)@) + op_hits(ov.take(i as int), path@, q@),
        decreases ops@.len() - i,
    {
        assert(ov.take(i + 1).drop_last() =~= ov.take(i as int));
        let (m, op) = ops[i];
        let mut details: Vec<String> = Vec::new();
        push_part(&mut details, &op.operation_id);
        push_part(&mut details, &op.summary);
        push_part(&mut details, &op.description);
        assert(details@.map_values(|s: String| s@) =~= op_details(*op));
        let d = join_parts(&details);
        push_hit(
            hits,
            q,
            "OPER",
            method_color(m),
            cat3(m, "  ", path),
            excerpt(d.as_str(), 55),
            Selection::Operation(String::from_str(path), String::from_str(m)),
        );
        push_param_hits(hits, q, &op.parameters, m, path);
        i += 1;
    }
    assert(ov.take(ops@.len() as int) =~= ov);
}

fn push_path_hits(hits: &mut Vec<SearchHit>, q: &Vec<char>, paths: &OrderedMap<PathItem>)
    ensures
        hits_view(final(hits)@) == hits_view(old(hits)@) + path_hits(paths@, q@),
{
    let mut i: usize = 0;
    while i < paths.len()
        invariant
            i <= paths@.len(),
            hits_view(hits@) == hits_view(old(hits)@) + path_hits(paths@.take(i as int), q@),
        decreases paths@.len() - i,
    {
        assert(paths@.take(i + 1).drop_last() =~= paths@.take(i as int));
        let p = paths.key_at(i);
        let item = paths.value_at(i);
        let summary = match &item.summary {
            Some(s) => s.as_str(),
            None => text_of(&item.description),
        };
        push_hit(
            hits,
            q,
            "PATH",
            make_rgb(80, 160, 100),
            p.clone(),
            excerpt(summary, 50),
            Selection::Path(p.clone()),
        );
        push_op_hits(hits, q, item, p.as_str());
        i += 1;
    }
    assert(paths@.take(paths@.len() as int) =~= paths@);
}

fn push_prop_hits(hits: &mut Vec<SearchHit>, q: &Vec<char>, schema: &Schema, name: &str)
    ensures
        hits_view(final(hits)@) == hits_view(old(hits)@) + prop_hits(schema.properties@, name@, q@),
{
    let props = &schema.properties;
    let mut i: usize = 0;
    while i < props.len()
        invariant
            i <= props@.len(),
            hits_view(hits@) == hits_view(old(hits)@) + prop_hits(props@.take(i as int), name@, q@),
        decreases props@.len() - i,
    {
        assert(props@.take(i + 1).drop_last() =~= props@.take(i as int));
        let pn = props.key_at(i);
        let ps = props.value_at(i);
        push_hit(
            hits,
            q,
            "PROP",
            make_rgb(130, 100, 200),
            cat3(name, "  › ", pn.as_str()),
            excerpt(text_of(&ps.description), 45),
            Selection::Schema(String::from_str(name)),
        );
        i += 1;
    }
    assert(props@.take(props@.len() as int) =~= props@);
}

fn push_schema_hits(hits: &mut Vec<SearchHit>, q: &Vec<char>, schemas: &OrderedMap<RefOr<Schema>>)
    ensures
        hits_view(final(hits)@) == hits_view(old(hits)@) + schema_hits(schemas@, q@),
{
    let mut i: usize = 0;
    while i < schemas.len()
        invariant
            i <= schemas@.len(),
            hits_view(hits@) == hits_view(old(hits)@) + schema_hits(schemas@.take(i as int), q@),
        decreases schemas@.len() - i,
    {
        assert(schemas@.take(i + 1).drop_last() =~= schemas@.take(i as int));
        let n = schemas.key_at(i);
        match schemas.value_at(i) {
            RefOr::Item(s) => {
                let desc = match &s.description {
                    Some(d) => d.as_str(),
                    None => text_of(&s.title),
                };
                push_hit(
                    hits,
                    q,
                    "SCHEMA",
                    make_rgb(130, 100, 200),
                    n.clone(),
                    excerpt(desc, 50),
                    Selection::Schema(n.clone()),
                );
                push_prop_hits(hits, q, s, n.as_str());
            },
            RefOr::Ref(_) => {
                assert(hits_view(hits@) =~= hits_view(hits@) + Seq::<HitView>::empty());
            },
        }
        i += 1;
    }
    assert(schemas@.take(schemas@.len() as int) =~= schemas@);
}

fn push_body_hits(hits: &mut Vec<SearchHit>, q: &Vec<char>, bodies: &OrderedMap<RefOr<RequestBody>>)
    ensures
        hits_view(final(hits)@) == hits_view(old(hits)@) + body_hits(bodies@, q@),
{
    let mut i: usize = 0;
    while i < bodies.len()
        invariant
            i <= bodies@.len(),
            hits_view(hits@) == hits_view(old(hits)@) + body_hits(bodies@.take(i as int), q@),
        decreases bodies@.len() - i,
    {
        assert(bodies@.take(i + 1).drop_last() =~= bodies@.take(i as int));
        let n = bodies.key_at(i);
        match bodies.value_at(i) {
            RefOr::Item(b) => {
                push_hit(
                    hits,
                    q,
                    "REQ BODY",
                    make_rgb(200, 130, 60),
                    n.clone(),
                    excerpt(text_of(&b.description), 50),
                    Selection::RequestBody(n.clone()),
                );
            },
            RefOr::Ref(_) => {
                assert(hits_view(hits@) =~= hits_view(hits@) + Seq::<HitView>::empty());
            },
        }
        i += 1;
    }
    assert(bodies@.take(bodies@.len() as int) =~= bodies@);
}

fn push_response_hits(hits: &mut Vec<SearchHit>, q: &Vec<char>, resps: &OrderedMap<RefOr<Response>>)
    ensures
        hits_view(final(hits)@) == hits_view(old(hits)@) + response_hits(resps@, q@),
{
    let mut i: usize = 0;
    while i < resps.len()
        invariant
            i <= resps@.len(),
            hits_view(hits@) == hits_view(old(hits)@) + response_hits(resps@.take(i as int), q@),
        decreases resps@.len() - i,
    {
        assert(resps@.take(i + 1).drop_last() =~= resps@.take(i as int));
        let n = resps.key_at(i);
        match resps.value_at(i) {
            RefOr::Item(x) => {
                push_hit(
                    hits,
                    q,
                    "RESPONSE",
                    make_rgb(80, 140, 220),
                    n.clone(),
                    excerpt(x.description.as_str(), 50),
                    Selection::ComponentResponse(n.clone()),
                );
            },
            RefOr::Ref(_) => {
                assert(hits_view(hits@) =~= hits_view(hits@) + Seq::<HitView>::empty());
            },
        }
        i += 1;
    }
    assert(resps@.take(resps@.len() as int) =~= resps@);
}

fn push_cparam_hits(hits: &mut Vec<SearchHit>, q: &Vec<char>, params: &OrderedMap<RefOr<Parameter>>)
    ensures
        hits_view(final(hits)@) == hits_view(old(hits)@) + cparam_hits(params@, q@),
{
    let mut i: usize = 0;
    while i < params.len()
        invariant
            i <= params@.len(),
            hits_view(hits@) == hits_view(old(hits)@) + cparam_hits(params@.take(i as int), q@),
        decreases params@.len() - i,
    {
        assert(params@.take(i + 1).drop_last() =~= params@.take(i as int));
        let n = params.key_at(i);
        match params.value_at(i) {
            RefOr::Item(x) => {
                push_hit(
                    hits,
                    q,
                    "PARAM",
                    make_rgb(60, 160, 160),
                    n.clone(),
                    excerpt(text_of(&x.description), 50),
                    Selection::ComponentParameter(n.clone()),
                );
            },
            RefOr::Ref(_) => {
                assert(hits_view(hits@) =~= hits_view(hits@) + Seq::<HitView>::empty());
            },
        }
        i += 1;
    }
    assert(params@.take(params@.len() as int) =~= params@);
}

fn push_example_hits(hits: &mut Vec<SearchHit>, q: &Vec<char>, examples: &OrderedMap<RefOr<OaExample>>)
    ensures
        hits_view(final(hits)@) == hits_view(old(hits)@) + example_hits(examples@, q@),
{
    let mut i: usize = 0;
    while i < examples.len()
        invariant
            i <= examples@.len(),
            hits_view(hits@) == hits_view(old(hits)@) + example_hits(examples@.take(i as int), q@),
        decreases examples@.len() - i,
    {
        assert(examples@.take(i + 1).drop_last() =~= examples@.take(i as int));
        let n = examples.key_at(i);
        match examples.value_at(i) {
            RefOr::Item(x) => {
                let mut details: Vec<String> = Vec::new();
                push_part(&mut details, &x.summary);
                push_part(&mut details, &x.description);
                assert(details@.map_values(|s: String| s@) =~= part(x.summary) + part(x.description));
                let d = join_parts(&details);
                push_hit(
                    hits,
                    q,
                    "EXAMPLE",
                    make_rgb(190, 100, 150),
                    n.clone(),
                    excerpt(d.as_str(), 50),
                    Selection::Example(n.clone()),
                );
            },
            RefOr::Ref(_) => {
                assert(hits_view(hits@) =~= hits_view(hits@) + Seq::<HitView>::empty());
            },
        }
        i += 1;
    }
    assert(examples@.take(examples@.len() as int) =~= examples@);
}

fn push_scheme_hits(hits: &mut Vec<SearchHit>, q: &Vec<char>, schemes: &OrderedMap<RefOr<SecurityScheme>>)
    ensures
        hits_view(final(hits)@) == hits_view(old(hits)@) + scheme_hits(schemes@, q@),
{
    let mut i: usize = 0;
    while i < schemes.len()
        invariant
            i <= schemes@.len(),
            hits_view(hits@) == hits_view(old(hits)@) + scheme_hits(schemes@.take(i as int), q@),
        decreases schemes@.len() - i,
    {
        assert(schemes@.take(i + 1).drop_last() =~= schemes@.take(i as int));
        let n = schemes.key_at(i);
        match schemes.value_at(i) {
            RefOr::Item(x) => {
                let d = match &x.description {
                    Some(d) => d.as_str(),
                    None => x.type_.as_str(),
                };
                push_hit(
                    hits,
                    q,
                    "SEC SCHEME",
                    make_rgb(110, 110, 140),
                    n.clone(),
                    excerpt(d, 50),
                    Selection::SecurityScheme(n.clone()),
                );
            },
            RefOr::Ref(_) => {
                assert(hits_view(hits@) =~= hits_view(hits@) + Seq::<HitView>::empty());
            },
        }
        i += 1;
    }
    assert(schemes@.take(schemes@.len() as int) =~= schemes@);
}

fn push_component_hits(hits: &mut Vec<SearchHit>, q: &Vec<char>, c: &Components)
    ensures
        hits_view(final(hits)@) == hits_view(old(hits)@) + component_hits(*c, q@),
{
    push_schema_hits(hits, q, &c.schemas);
    push_body_hits(hits, q, &c.request_bodies);
    push_response_hits(hits, q, &c.responses);
    push_cparam_hits(hits, q, &c.parameters);
    push_example_hits(hits, q, &c.examples);
    push_scheme_hits(hits, q, &c.security_schemes);
    assert(hits_view(hits@) =~= hits_view(old(hits)@) + component_hits(*c, q@));
}

/// The items of `spec` whose label or excerpt contains `query`, ignoring case.
pub fn search_spec(spec: &OpenApiSpec, query: &str) -> (hits: Vec<SearchHit>)
    ensures
        hits_view(hits@) == search_hits(*spec, unicode_lower_str(query@)),
{
    let q = to_chars(str_to_lowercase(query).as_str());
    let mut hits: Vec<SearchHit> = Vec::new();
    assert(hits_view(hits@) =~= Seq::<HitView>::empty());
    push_hit(
        &mut hits,
        &q,
        "INFO",
        make_rgb(110, 110, 140),
        spec.info.title.clone(),
        excerpt(text_of(&spec.info.description), 50),
        Selection::Info,
    );
    push_tag_hits(&mut hits, &q, &spec.tags);
    push_server_hits(&mut hits, &q, &spec.servers);
    push_path_hits(&mut hits, &q, &spec.paths);
    let ghost before = hits_view(hits@);
    if let Some(c) = &spec.components {
        push_component_hits(&mut hits, &q, c);
    } else {
        assert(hits_view(hits@) =~= before + Seq::<HitView>::empty());
    }
    hits
}


// ── Sidebar overview ─────────────────────────────────────────────────────────

/// The label of the server at position `i`: the position, then its description or, when
/// it has none, its URL.
pub open spec fn server_label(i: int, s: Server) -> Seq<char> {
    decimal(i as nat) + ": "@ + match s.description {
        Some(d) => d@,
        None => s.url@,
    }
}

/// The method names of a path item's operations, in method order.
pub open spec fn method_names(item: PathItem) -> Seq<Seq<char>> {
    item.operations_spec().map_values(|p: (Seq<char>, Operation)| p.0)
}

/// The names of one component map (`0` schemas, `1` request bodies, `2` responses,
/// `3` parameters, `4` examples, `5` headers, `6` security schemes); none without
/// components.
pub open spec fn component_names(spec: OpenApiSpec, k: int) -> Seq<Seq<char>> {
    match spec.components {
        Some(c) => if k == 0 {
            keys_of(c.schemas@)
        } else if k == 1 {
            keys_of(c.request_bodies@)
        } else if k == 2 {
            keys_of(c.responses@)
        } else if k == 3 {
            keys_of(c.parameters@)
        } else if k == 4 {
            keys_of(c.examples@)
        } else if k == 5 {
            keys_of(c.headers@)
        } else {
            keys_of(c.security_schemes@)
        },
        None => Seq::empty(),
    }
}

/// Everything the sidebar lists of a document, gathered in one pass.
pub struct SidebarData {
    pub server_labels: Vec<String>,
    pub tag_names: Vec<String>,
    /// Each path with the methods of its operations.
    pub paths: Vec<(String, Vec<String>)>,
    pub schema_names: Vec<String>,
    pub rb_names: Vec<String>,
    pub resp_names: Vec<String>,
    pub param_names: Vec<String>,
    pub ex_names: Vec<String>,
    pub hdr_names: Vec<String>,
    pub ss_names: Vec<String>,
    pub diagnostics: Vec<Diagnostic>,
}

pub open spec fn path_rows(v: Seq<(String, Vec<String>)>) -> Seq<(Seq<char>, Seq<Seq<char>>)> {
    v.map_values(|p: (String, Vec<String>)| (p.0@, str_views(p.1@)))
}

/// The keys of a map, in order.
pub fn names_of<T>(m: &OrderedMap<T>) -> (r: Vec<String>)
    ensures
        str_views(r@) == keys_of(m@),
{
    let mut r: Vec<String> = Vec::new();
    let mut i: usize = 0;
    while i < m.len()
        invariant
            i <= m@.len(),
            str_views(r@) == keys_of(m@.take(i as int)),
        decreases m@.len() - i,
    {
        let ghost prev = str_views(r@);
        r.push(m.key_at(i).clone());
        assert(m@.take(i + 1) =~= m@.take(i as int).push(m@[i as int]));
        assert(str_views(r@) =~= prev.push(m@[i as int].0));
        i += 1;
        assert(str_views(r@) =~= keys_of(m@.take(i as int)));
    }
    assert(m@.take(m@.len() as int) =~= m@);
    r
}

fn component_names_of(spec: &OpenApiSpec, k: usize) -> (r: Vec<String>)
    ensures
        str_views(r@) == component_names(*spec, k as int),
{
    match &spec.components {
        Some(c) => if k == 0 {
            names_of(&c.schemas)
        } else if k == 1 {
            names_of(&c.request_bodies)
        } else if k == 2 {
            names_of(&c.responses)
        } else if k == 3 {
            names_of(&c.parameters)
        } else if k == 4 {
            names_of(&c.examples)
        } else if k == 5 {
            names_of(&c.headers)
        } else {
            names_of(&c.security_schemes)
        },
        None => {
            let r: Vec<String> = Vec::new();
            assert(str_views(r@) =~= Seq::<Seq<char>>::empty());
            r
        },
    }
}

/// The method names of a path item's operations.
fn method_list(item: &PathItem) -> (r: Vec<String>)
    ensures
        str_views(r@) == method_names(*item),
{
    let ops = item.operations();
    let ghost ov = ops@.map_values(|p: (&'static str, &Operation)| (p.0@, *p.1));
    let mut r: Vec<String> = Vec::new();
    let mut i: usize = 0;
    while i < ops.len()
        invariant
            ov == ops@.map_values(|p: (&'static str, &Operation)| (p.0@, *p.1)),
            ov == item.operations_spec(),
            i <= ops@.len(),
            str_views(r@) == ov.take(i as int).map_values(|p: (Seq<char>, Operation)| p.0),
        decreases ops@.len() - i,
    {
        let ghost prev = str_views(r@);
        r.push(String::from_str(ops[i].0));
        assert(ov.take(i + 1) =~= ov.take(i as int).push(ov[i as int]));
        assert(str_views(r@) =~= prev.push(ov[i as int].0));
        i += 1;
        assert(str_views(r@) =~= ov.take(i as int).map_values(|p: (Seq<char>, Operation)| p.0));
    }
    assert(ov.take(ops@.len() as int) =~= ov);
    r
}

impl SidebarData {
    /// The sidebar's lists for `spec`, and its findings.
    pub fn from_spec(spec: &OpenApiSpec) -> (d: SidebarData)
        ensures
            str_views(d.server_labels@) == Seq::new(
                spec.servers@.len(),
                |i: int| server_label(i, spec.servers@[i]),
            ),
            str_views(d.tag_names@) == spec.tags@.map_values(|t: Tag| t.name@),
            path_rows(d.paths@) == spec.paths@.map_values(
                |e: (Seq<char>, PathItem)| (e.0, method_names(e.1)),
            ),
            str_views(d.schema_names@) == component_names(*spec, 0),
            str_views(d.rb_names@) == component_names(*spec, 1),
            str_views(d.resp_names@) == component_names(*spec, 2),
            str_views(d.param_names@) == component_names(*spec, 3),
            str_views(d.ex_names@) == component_names(*spec, 4),
            str_views(d.hdr_names@) == component_names(*spec, 5),
            str_views(d.ss_names@) == component_names(*spec, 6),
            diag_views(d.diagnostics@) == lint_spec(*spec),
    {
        let mut server_labels: Vec<String> = Vec::new();
        let mut i: usize = 0;
        while i < spec.servers.len()
            invariant
                i <= spec.servers@.len(),
                str_views(server_labels@) == Seq::new(
                    i as nat,
                    |j: int| server_label(j, spec.servers@[j]),
                ),
            decreases spec.servers@.len() - i,
        {
            let s = &spec.servers[i];
            let text = match &s.description {
                Some(d) => d.as_str(),
                None => s.url.as_str(),
            };
            let ghost prev = str_views(server_labels@);
            server_labels.push(cat3(usize_to_decimal(i).as_str(), ": ", text));
            assert(str_views(server_labels@) =~= prev.push(server_label(i as int, spec.servers@[i as int])));
            i += 1;
            assert(str_views(server_labels@) =~= Seq::new(
                i as nat,
                |j: int| server_label(j, spec.servers@[j]),
            ));
        }
        let mut tag_names: Vec<String> = Vec::new();
        let mut i: usize = 0;
        while i < spec.tags.len()
            invariant
                i <= spec.tags@.len(),
                str_views(tag_names@) == spec.tags@.take(i as int).map_values(|t: Tag| t.name@),
            decreases spec.tags@.len() - i,
        {
            let ghost prev = str_views(tag_names@);
            tag_names.push(spec.tags[i].name.clone());
            assert(spec.tags@.take(i + 1) =~= spec.tags@.take(i as int).push(spec.tags@[i as int]));
            assert(str_views(tag_names@) =~= prev.push(spec.tags@[i as int].name@));
            i += 1;
            assert(str_views(tag_names@) =~= spec.tags@.take(i as int).map_values(|t: Tag| t.name@));
        }
        assert(spec.tags@.take(spec.tags@.len() as int) =~= spec.tags@);
        let mut paths: Vec<(String, Vec<String>)> = Vec::new();
        let mut i: usize = 0;
        while i < spec.paths.len()
            invariant
                i <= spec.paths@.len(),
                path_rows(paths@) == spec.paths@.take(i as int).map_values(
                    |e: (Seq<char>, PathItem)| (e.0, method_names(e.1)),
                ),
            decreases spec.paths@.len() - i,
        {
            let ghost prev = path_rows(paths@);
            let row = (spec.paths.key_at(i).clone(), method_list(spec.paths.value_at(i)));
            paths.push(row);
            assert(spec.paths@.take(i + 1) =~= spec.paths@.take(i as int).push(spec.paths@[i as int]));
            assert(path_rows(paths@) =~= prev.push((spec.paths@[i as int].0, method_names(spec.paths@[i as int].1))));
            i += 1;
            assert(path_rows(paths@) =~= spec.paths@.take(i as int).map_values(
                |e: (Seq<char>, PathItem)| (e.0, method_names(e.1)),
            ));
        }
        assert(spec.paths@.take(spec.paths@.len() as int) =~= spec.paths@);
        SidebarData {
            server_labels,
            tag_names,
            paths,
            schema_names: component_names_of(spec, 0),
            rb_names: component_names_of(spec, 1),
            resp_names: component_names_of(spec, 2),
            param_names: component_names_of(spec, 3),
            ex_names: component_names_of(spec, 4),
            hdr_names: component_names_of(spec, 5),
            ss_names: component_names_of(spec, 6),
            diagnostics: lint(spec),
        }
    }
}

/// The eight HTTP methods in the order the sidebar offers them.
pub open spec fn offered_methods() -> Seq<Seq<char>> {
    seq!["GET"@, "POST"@, "PUT"@, "DELETE"@, "PATCH"@, "OPTIONS"@, "HEAD"@, "TRACE"@]
}

/// The first `n` offered methods that `present` does not hold, in order.
pub open spec fn missing_methods(present: Seq<Seq<char>>, n: int) -> Seq<Seq<char>>
    decreases n,
{
    if n <= 0 {
        Seq::empty()
    } else {
        let m = offered_methods()[n - 1];
        missing_methods(present, n - 1) + (if present.contains(m) {
            Seq::empty()
        } else {
            seq![m]
        })
    }
}

/// The methods that a path can still be given an operation for.
pub fn available_methods(methods: &Vec<String>) -> (r: Vec<&'static str>)
    ensures
        r@.map_values(|m: &'static str| m@) == missing_methods(str_views(methods@), 8),
{
    let all: Vec<&'static str> = vec!["GET", "POST", "PUT", "DELETE", "PATCH", "OPTIONS", "HEAD", "TRACE"];
    assert(all@.map_values(|m: &'static str| m@) =~= offered_methods());
    let mut r: Vec<&'static str> = Vec::new();
    let mut i: usize = 0;
    while i < all.len()
        invariant
            all@.map_values(|m: &'static str| m@) == offered_methods(),
            all@.len() == 8,
            i <= 8,
            r@.map_values(|m: &'static str| m@) == missing_methods(str_views(methods@), i as int),
        decreases 8 - i,
    {
        let m = all[i];
        assert(m@ == offered_methods()[i as int]);
        if !contains_string(methods, &String::from_str(m)) {
            r.push(m);
        }
        i += 1;
        assert(r@.map_values(|m: &'static str| m@) =~= missing_methods(str_views(methods@), i as int));
    }
    r
}

/// The number of findings at `level`.
pub open spec fn level_count(d: Seq<DiagnosticView>, level: Level) -> nat
    decreases d.len(),
{
    if d.len() == 0 {
        0
    } else {
        level_count(d.drop_last(), level) + (if d.last().level == level {
            1nat
        } else {
            0nat
        })
    }
}

/// The heading of the findings section and the level that colours it: with errors it
/// counts errors and warnings, with warnings only those, and otherwise it is plain.
pub open spec fn findings_heading(errors: nat, warnings: nat) -> (Seq<char>, Option<Level>) {
    if errors > 0 {
        ("Errors & Warnings  ("@ + decimal(errors) + "E "@ + decimal(warnings) + "W)"@, Some(Level::Error))
    } else if warnings > 0 {
        ("Errors & Warnings  ("@ + decimal(warnings) + "W)"@, Some(Level::Warning))
    } else {
        ("Errors & Warnings"@, None)
    }
}

/// The heading of the findings section for `diags`; the section starts open exactly when
/// the level is present.
pub fn diagnostics_heading(diags: &Vec<Diagnostic>) -> (r: (String, Option<Level>))
    ensures
        (r.0@, r.1) == findings_heading(
            level_count(diag_views(diags@), Level::Error),
            level_count(diag_views(diags@), Level::Warning),
        ),
{
    let ghost dv = diag_views(diags@);
    let mut errors: usize = 0;
    let mut warnings: usize = 0;
    let mut i: usize = 0;
    while i < diags.len()
        invariant
            dv == diag_views(diags@),
            i <= diags@.len(),
            errors == level_count(dv.take(i as int), Level::Error),
            warnings == level_count(dv.take(i as int), Level::Warning),
            errors + warnings <= i,
        decreases diags@.len() - i,
    {
        assert(dv.take(i + 1).drop_last() =~= dv.take(i as int));
        match diags[i].level {
            Level::Error => errors += 1,
            Level::Warning => warnings += 1,
            Level::Info => {},
        }
        i += 1;
    }
    assert(dv.take(diags@.len() as int) =~= dv);
    if errors > 0 {
        let mut t = cat3("Errors & Warnings  (", usize_to_decimal(errors).as_str(), "E ");
        t.append(usize_to_decimal(warnings).as_str());
        t.append("W)");
        (t, Some(Level::Error))
    } else if warnings > 0 {
        (cat3("Errors & Warnings  (", usize_to_decimal(warnings).as_str(), "W)"), Some(Level::Warning))
    } else {
        (String::from_str("Errors & Warnings"), None)
    }
}

/// The count line above search results: `"  1 result"`, `"  3 results"`.
pub fn results_label(n: usize) -> (r: String)
    ensures
        r@ == "  "@ + decimal(n as nat) + (if n == 1 {
            " result"@
        } else {
            " results"@
        }),
{
    if n == 1 {
        cat3("  ", usize_to_decimal(n).as_str(), " result")
    } else {
        cat3("  ", usize_to_decimal(n).as_str(), " results")
    }
}

} // verus!
