//! Edits of an operation: its tags, parameters, request body, responses and security.
use vstd::prelude::*;
use crate::lint::{contains_string, str_views};
use crate::model::{MediaType, Operation, Parameter, Ref, RefOr, RequestBody, Response, Schema};
use crate::ordered_map::{
    find_key, has_key, insert_spec, keys_of, lemma_find_key, lemma_insert_found, remove_spec, OrderedMap,
};
use crate::resource::split_spec;
use crate::text::{
    cat, cat3, chars_range, decimal, is_space, is_whitespace, lead_len, leading_space_count,
    str_eq, to_chars, trim_end_spec, usize_to_decimal,
};

verus! {

/// The operation with only the named field possibly changed.
pub open spec fn tags_changed(old: Operation, new: Operation) -> bool {
    new == Operation { tags: new.tags, ..old }
}

pub open spec fn params_changed(old: Operation, new: Operation) -> bool {
    new == Operation { parameters: new.parameters, ..old }
}

pub open spec fn responses_changed(old: Operation, new: Operation) -> bool {
    new == Operation { responses: new.responses, ..old }
}

pub open spec fn security_changed(old: Operation, new: Operation) -> bool {
    new == Operation { security: new.security, ..old }
}

/// The strings of `defined` that `used` does not hold, in order.
pub open spec fn not_in(defined: Seq<Seq<char>>, used: Seq<Seq<char>>) -> Seq<Seq<char>>
    decreases defined.len(),
{
    if defined.len() == 0 {
        defined
    } else {
        not_in(defined.drop_last(), used) + (if used.contains(defined.last()) {
            Seq::empty()
        } else {
            seq![defined.last()]
        })
    }
}

/// The strings of `defined` that `used` does not hold, in order.
pub fn strings_not_in(defined: &Vec<String>, used: &Vec<String>) -> (r: Vec<String>)
    ensures
        str_views(r@) == not_in(str_views(defined@), str_views(used@)),
{
    let ghost dv = str_views(defined@);
    let mut r: Vec<String> = Vec::new();
    let mut i: usize = 0;
    while i < defined.len()
        invariant
            dv == str_views(defined@),
            i <= defined@.len(),
            str_views(r@) == not_in(dv.take(i as int), str_views(used@)),
        decreases defined@.len() - i,
    {
        assert(dv.take(i + 1).drop_last() =~= dv.take(i as int));
        if !contains_string(used, &defined[i]) {
            r.push(defined[i].clone());
        }
        i += 1;
        assert(str_views(r@) =~= not_in(dv.take(i as int), str_views(used@)));
    }
    assert(dv.take(defined@.len() as int) =~= dv);
    r
}

/// The standard responses that an operation can be given, with their descriptions.
pub open spec fn standard_responses() -> Seq<(Seq<char>, Seq<char>)> {
    seq![
        ("200"@, "OK"@), ("201"@, "Created"@), ("202"@, "Accepted"@), ("204"@, "No Content"@),
        ("301"@, "Moved Permanently"@), ("302"@, "Found"@), ("304"@, "Not Modified"@),
        ("400"@, "Bad Request"@), ("401"@, "Unauthorized"@), ("403"@, "Forbidden"@),
        ("404"@, "Not Found"@), ("405"@, "Method Not Allowed"@), ("409"@, "Conflict"@),
        ("410"@, "Gone"@), ("422"@, "Unprocessable Entity"@), ("429"@, "Too Many Requests"@),
        ("500"@, "Internal Server Error"@), ("502"@, "Bad Gateway"@), ("503"@, "Service Unavailable"@),
        ("default"@, "Default"@),
    ]
}

/// The standard responses, in the order the menu lists them.
pub fn standard_response_list() -> (r: Vec<(&'static str, &'static str)>)
    ensures
        r@.map_values(|p: (&'static str, &'static str)| (p.0@, p.1@)) == standard_responses(),
{
    let r: Vec<(&'static str, &'static str)> = vec![
        ("200", "OK"), ("201", "Created"), ("202", "Accepted"), ("204", "No Content"),
        ("301", "Moved Permanently"), ("302", "Found"), ("304", "Not Modified"),
        ("400", "Bad Request"), ("401", "Unauthorized"), ("403", "Forbidden"), ("404", "Not Found"),
        ("405", "Method Not Allowed"), ("409", "Conflict"), ("410", "Gone"),
        ("422", "Unprocessable Entity"), ("429", "Too Many Requests"),
        ("500", "Internal Server Error"), ("502", "Bad Gateway"), ("503", "Service Unavailable"),
        ("default", "Default"),
    ];
    assert(r@.map_values(|p: (&'static str, &'static str)| (p.0@, p.1@)) =~= standard_responses());
    r
}

/// A parameter with no name and nothing set but possibly its location.
pub open spec fn bare_parameter(p: Parameter) -> bool {
    &&& p.name@.len() == 0
    &&& p.description is None
    &&& p.required is None
    &&& p.deprecated is None
    &&& p.allow_empty_value is None
    &&& p.schema is None
    &&& p.style is None
    &&& p.explode is None
    &&& p.example is None
    &&& p.examples@.len() == 0
}

impl Operation {
    /// Removes the tag at position `i`.
    pub fn remove_tag_at(&mut self, i: usize)
        requires
            i < old(self).tags@.len(),
        ensures
            str_views(final(self).tags@) == str_views(old(self).tags@).remove(i as int),
            tags_changed(*old(self), *final(self)),
    {
        self.tags.remove(i);
        assert(str_views(self.tags@) =~= str_views(old(self).tags@).remove(i as int));
    }

    /// Assigns the tag `name`.
    pub fn add_tag(&mut self, name: String)
        ensures
            str_views(final(self).tags@) == str_views(old(self).tags@).push(name@),
            tags_changed(*old(self), *final(self)),
    {
        self.tags.push(name);
        assert(str_views(self.tags@) =~= str_views(old(self).tags@).push(name@));
    }

    /// The document's tags that this operation does not have yet.
    pub fn unassigned_tags(&self, defined: &Vec<String>) -> (r: Vec<String>)
        ensures
            str_views(r@) == not_in(str_views(defined@), str_views(self.tags@)),
    {
        strings_not_in(defined, &self.tags)
    }

    /// Removes the parameter at position `i`.
    pub fn remove_parameter_at(&mut self, i: usize)
        requires
            i < old(self).parameters@.len(),
        ensures
            final(self).parameters@ == old(self).parameters@.remove(i as int),
            params_changed(*old(self), *final(self)),
    {
        self.parameters.remove(i);
    }

    /// Adds an unnamed query parameter.
    pub fn add_query_parameter(&mut self)
        ensures
            final(self).parameters@.drop_last() == old(self).parameters@,
            final(self).parameters@.len() == old(self).parameters@.len() + 1,
            final(self).parameters@.last() matches RefOr::Item(p) && p.in_@ == "query"@
                && bare_parameter(p),
            params_changed(*old(self), *final(self)),
    {
        let mut p = Parameter::default();
        p.in_ = String::from_str("query");
        self.parameters.push(RefOr::Item(p));
        assert(self.parameters@.drop_last() =~= old(self).parameters@);
    }

    /// Adds a reference to the parameter `target` when it is not empty, and empties it.
    pub fn add_parameter_ref(&mut self, target: &mut String) -> (added: bool)
        ensures
            added == (old(target)@.len() > 0),
            added ==> {
                &&& final(self).parameters@.drop_last() == old(self).parameters@
                &&& final(self).parameters@.len() == old(self).parameters@.len() + 1
                &&& final(self).parameters@.last() matches RefOr::Ref(r) && r.ref_@ == old(target)@
                    && r.summary is None && r.description is None
                &&& final(target)@.len() == 0
                &&& params_changed(*old(self), *final(self))
            },
            !added ==> *final(self) == *old(self) && *final(target) == *old(target),
    {
        if target.as_str().is_empty() {
            return false;
        }
        let mut r = String::new();
        std::mem::swap(&mut r, target);
        self.parameters.push(RefOr::Ref(Ref::to(r)));
        assert(self.parameters@.drop_last() =~= old(self).parameters@);
        true
    }

    /// Gives the operation an empty request body.
    pub fn add_request_body(&mut self)
        ensures
            final(self).request_body matches Some(RefOr::Item(b)) && b.is_default_value(),
            *final(self) == (Operation { request_body: final(self).request_body, ..*old(self) }),
    {
        self.request_body = Some(RefOr::Item(RequestBody::default()));
    }

    /// Removes the response for `code`.
    pub fn remove_response(&mut self, code: &str)
        ensures
            final(self).responses@ == remove_spec(old(self).responses@, code@),
            responses_changed(*old(self), *final(self)),
    {
        self.responses.shift_remove(code);
    }

    /// Adds the standard response at position `i` of the menu, described as the menu says,
    /// unless its code already has a response. Returns whether it was added.
    pub fn add_standard_response(&mut self, i: usize) -> (added: bool)
        requires
            i < standard_responses().len(),
        ensures
            added == !has_key(old(self).responses@, standard_responses()[i as int].0),
            added ==> {
                let (code, desc) = standard_responses()[i as int];
                &&& final(self).responses@.drop_last() == old(self).responses@
                &&& final(self).responses@.last().0 == code
                &&& final(self).responses@.last().1 matches RefOr::Item(r) && r.description@ == desc
                    && r.headers@.len() == 0 && r.content@.len() == 0 && r.links@.len() == 0
                &&& responses_changed(*old(self), *final(self))
            },
            !added ==> *final(self) == *old(self),
    {
        let list = standard_response_list();
        let (code, desc) = list[i];
        assert((code@, desc@) == standard_responses()[i as int]);
        if self.responses.contains_key(code) {
            return false;
        }
        let mut r = Response::default();
        r.description = String::from_str(desc);
        proof {
            lemma_find_key(self.responses@, code@);
        }
        self.responses.insert(String::from_str(code), RefOr::Item(r));
        assert(self.responses@.drop_last() =~= old(self).responses@);
        true
    }
}

// ── Security ─────────────────────────────────────────────────────────────────

/// How an operation's security is set: inherited from the document, switched off (an
/// empty list), or its own requirements.
#[derive(Debug, Clone, Copy, PartialEq, Eq, Structural)]
pub enum SecurityState {
    Inherit,
    Disabled,
    Custom,
}

pub open spec fn security_state_of(s: Option<Vec<OrderedMap<Vec<String>>>>) -> SecurityState {
    match s {
        None => SecurityState::Inherit,
        Some(v) => if v@.len() == 0 {
            SecurityState::Disabled
        } else {
            SecurityState::Custom
        },
    }
}

/// A fresh requirement: the first available scheme with no scopes, or nothing when no
/// scheme is available.
pub open spec fn is_initial_requirement(r: Seq<(Seq<char>, Vec<String>)>, available: Seq<Seq<char>>) -> bool {
    if available.len() > 0 {
        r.len() == 1 && r[0].0 == available[0] && r[0].1@.len() == 0
    } else {
        r.len() == 0
    }
}

pub fn initial_requirement(available: &Vec<String>) -> (r: OrderedMap<Vec<String>>)
    ensures
        is_initial_requirement(r@, str_views(available@)),
{
    let mut m = OrderedMap::new();
    if available.len() > 0 {
        m.insert(available[0].clone(), Vec::new());
    }
    m
}

/// The keys of each requirement joined by `" + "`, the requirements joined by `"  |  "`.
pub open spec fn join_with(parts: Seq<Seq<char>>, sep: Seq<char>) -> Seq<char>
    decreases parts.len(),
{
    if parts.len() == 0 {
        Seq::empty()
    } else if parts.len() == 1 {
        parts[0]
    } else {
        join_with(parts.drop_last(), sep) + sep + parts.last()
    }
}

pub open spec fn requirement_names(reqs: Seq<OrderedMap<Vec<String>>>) -> Seq<Seq<char>> {
    reqs.map_values(|r: OrderedMap<Vec<String>>| join_with(keys_of(r@), " + "@))
}

/// The line that says what an inherited security resolves to.
pub open spec fn global_security_line(reqs: Seq<OrderedMap<Vec<String>>>) -> Seq<char> {
    if reqs.len() == 0 {
        "  ↳ No global security defined — this operation is open."@
    } else {
        "  ↳ Global: "@ + join_with(requirement_names(reqs), "  |  "@)
    }
}

/// The strings joined by `sep`.
pub fn join_strings(parts: &Vec<String>, sep: &str) -> (r: String)
    ensures
        r@ == join_with(str_views(parts@), sep@),
{
    let ghost pv = str_views(parts@);
    let mut r = String::new();
    let mut i: usize = 0;
    while i < parts.len()
        invariant
            pv == str_views(parts@),
            i <= parts@.len(),
            r@ == join_with(pv.take(i as int), sep@),
        decreases parts@.len() - i,
    {
        assert(pv.take(i + 1).drop_last() =~= pv.take(i as int));
        if i > 0 {
            r.append(sep);
        }
        r.append(parts[i].as_str());
        i += 1;
    }
    assert(pv.take(parts@.len() as int) =~= pv);
    r
}

pub fn global_security_preview(reqs: &Vec<OrderedMap<Vec<String>>>) -> (r: String)
    ensures
        r@ == global_security_line(reqs@),
{
    if reqs.len() == 0 {
        return String::from_str("  ↳ No global security defined — this operation is open.");
    }
    let mut names: Vec<String> = Vec::new();
    let mut i: usize = 0;
    while i < reqs.len()
        invariant
            i <= reqs@.len(),
            str_views(names@) == requirement_names(reqs@.take(i as int)),
        decreases reqs@.len() - i,
    {
        let keys = crate::search::names_of(&reqs[i]);
        let ghost prev = str_views(names@);
        names.push(join_strings(&keys, " + "));
        assert(reqs@.take(i + 1) =~= reqs@.take(i as int).push(reqs@[i as int]));
        assert(str_views(names@) =~= prev.push(join_with(keys_of(reqs@[i as int]@), " + "@)));
        i += 1;
        assert(str_views(names@) =~= requirement_names(reqs@.take(i as int)));
    }
    assert(reqs@.take(reqs@.len() as int) =~= reqs@);
    cat("  ↳ Global: ", join_strings(&names, "  |  ").as_str())
}

/// The label in front of a requirement: numbered options when there are several.
pub fn requirement_label(idx: usize, count: usize) -> (r: String)
    requires
        idx < usize::MAX,
    ensures
        r@ == (if count > 1 {
            "Option "@ + decimal((idx + 1) as nat) + "  (OR):"@
        } else {
            "Schemes:"@
        }),
{
    if count > 1 {
        cat3("Option ", usize_to_decimal(idx + 1).as_str(), "  (OR):")
    } else {
        String::from_str("Schemes:")
    }
}

/// The first `n` characters of `s` with white space removed at both ends.
pub open spec fn trim_spec(s: Seq<char>) -> Seq<char> {
    trim_end_spec(s.skip(lead_len(s) as int))
}

/// The scopes typed as a comma-separated list: each piece trimmed, empty pieces dropped.
pub open spec fn scopes_spec(s: Seq<char>) -> Seq<Seq<char>> {
    nonempty(split_spec(s, ',').map_values(|p: Seq<char>| trim_spec(p)))
}

pub open spec fn nonempty(s: Seq<Seq<char>>) -> Seq<Seq<char>>
    decreases s.len(),
{
    if s.len() == 0 {
        s
    } else {
        nonempty(s.drop_last()) + (if s.last().len() == 0 {
            Seq::empty()
        } else {
            seq![s.last()]
        })
    }
}

/// `s` with white space removed at both ends.
pub fn trim(s: &str) -> (r: String)
    ensures
        r@ == trim_spec(s@),
{
    let v = to_chars(s);
    let n = leading_space_count(&v);
    let rest = chars_range(&v, n, v.len());
    assert(rest@ =~= s@.skip(n as int));
    String::from_str(crate::text::trim_end(rest.as_str()))
}

/// Reads a scope list such as `"read, write"`.
pub fn parse_scopes(text: &str) -> (r: Vec<String>)
    ensures
        str_views(r@) == scopes_spec(text@),
{
    let v = to_chars(text);
    let mut pieces: Vec<Vec<char>> = Vec::new();
    pieces.push(Vec::new());
    let mut i: usize = 0;
    assert(v@.take(0) =~= Seq::<char>::empty());
    assert(pieces@.map_values(|w: Vec<char>| w@) =~= split_spec(v@.take(0), ','));
    while i < v.len()
        invariant
            v@ == text@,
            i <= v@.len(),
            pieces@.len() >= 1,
            pieces@.map_values(|w: Vec<char>| w@) == split_spec(v@.take(i as int), ','),
        decreases v@.len() - i,
    {
        let ghost prev = pieces@.map_values(|w: Vec<char>| w@);
        assert(v@.take(i + 1).drop_last() =~= v@.take(i as int));
        if v[i] == ',' {
            pieces.push(Vec::new());
            assert(pieces@.map_values(|w: Vec<char>| w@) =~= prev.push(Seq::empty()));
        } else {
            let last = pieces.len() - 1;
            let mut w = pieces.remove(last);
            w.push(v[i]);
            pieces.push(w);
            assert(pieces@.map_values(|w: Vec<char>| w@) =~= prev.update(
                prev.len() - 1,
                prev.last().push(v@[i as int]),
            ));
        }
        i += 1;
    }
    assert(v@.take(v@.len() as int) =~= v@);
    let ghost pv = pieces@.map_values(|w: Vec<char>| w@);
    let ghost tv = pv.map_values(|p: Seq<char>| trim_spec(p));
    let mut out: Vec<String> = Vec::new();
    let mut j: usize = 0;
    while j < pieces.len()
        invariant
            pv == pieces@.map_values(|w: Vec<char>| w@),
            tv == pv.map_values(|p: Seq<char>| trim_spec(p)),
            j <= pieces@.len(),
            str_views(out@) == nonempty(tv.take(j as int)),
        decreases pieces@.len() - j,
    {
        let piece = chars_range(&pieces[j], 0, pieces[j].len());
        assert(piece@ =~= pv[j as int]);
        let t = trim(piece.as_str());
        assert(tv.take(j + 1).drop_last() =~= tv.take(j as int));
        if !t.as_str().is_empty() {
            out.push(t);
        }
        j += 1;
        assert(str_views(out@) =~= nonempty(tv.take(j as int)));
    }
    assert(tv.take(pieces@.len() as int) =~= tv);
    out
}

impl Operation {
    pub fn security_state(&self) -> (r: SecurityState)
        ensures
            r == security_state_of(self.security),
    {
        match &self.security {
            None => SecurityState::Inherit,
            Some(v) => if v.len() == 0 {
                SecurityState::Disabled
            } else {
                SecurityState::Custom
            },
        }
    }

    /// Switches the security to `state` when it is not already in it: inheriting removes
    /// the operation's own setting, disabling sets an empty list, and a custom setting
    /// starts with one fresh requirement. Returns whether it switched.
    pub fn set_security_state(&mut self, state: SecurityState, available: &Vec<String>) -> (changed: bool)
        ensures
            changed == (state != security_state_of(old(self).security)),
            !changed ==> *final(self) == *old(self),
            changed ==> {
                &&& security_changed(*old(self), *final(self))
                &&& security_state_of(final(self).security) == state
                &&& (state == SecurityState::Custom ==> final(self).security->0@.len() == 1
                    && is_initial_requirement(final(self).security->0@[0]@, str_views(available@)))
            },
    {
        if state == self.security_state() {
            return false;
        }
        match state {
            SecurityState::Inherit => {
                self.security = None;
            },
            SecurityState::Disabled => {
                self.security = Some(Vec::new());
            },
            SecurityState::Custom => {
                let mut v: Vec<OrderedMap<Vec<String>>> = Vec::new();
                v.push(initial_requirement(available));
                self.security = Some(v);
            },
        }
        true
    }
}

/// The schemes of `available` that the requirement does not use yet.
pub fn unused_schemes(available: &Vec<String>, requirement: &OrderedMap<Vec<String>>) -> (r: Vec<String>)
    ensures
        str_views(r@) == not_in(str_views(available@), keys_of(requirement@)),
{
    let used = crate::search::names_of(requirement);
    strings_not_in(available, &used)
}

/// Adds the scheme `name` without scopes to a requirement (replacing its scopes when it
/// is there).
pub fn add_scheme(requirement: &mut OrderedMap<Vec<String>>, name: String)
    ensures
        has_key(final(requirement)@, name@),
        final(requirement)@ == insert_spec(old(requirement)@, name@, final(requirement)@[find_key(final(requirement)@, name@)].1),
        final(requirement)@[find_key(final(requirement)@, name@)].1@.len() == 0,
{
    let v: Vec<String> = Vec::new();
    let ghost vv = v;
    let ghost k = name@;
    requirement.insert(name, v);
    proof {
        lemma_insert_found(old(requirement)@, k, vv);
    }
}

// ── Content types ────────────────────────────────────────────────────────────

/// A media type whose schema is an empty object schema.
pub open spec fn object_media(m: MediaType) -> bool {
    &&& m.schema matches Some(RefOr::Item(s)) && s.type_str_spec() == "object"@ && (Schema {
        type_: None,
        ..s
    }).is_default_value()
    &&& m.example is None
    &&& m.examples@.len() == 0
}

/// A media type whose schema is an empty reference, to be picked.
pub open spec fn ref_media(m: MediaType) -> bool {
    &&& m.schema matches Some(RefOr::Item(s)) && s.ref_ matches Some(r) && r@.len() == 0 && (Schema {
        ref_: None,
        ..s
    }).is_default_value()
    &&& m.example is None
    &&& m.examples@.len() == 0
}

fn object_media_type() -> (m: MediaType)
    ensures
        object_media(m),
{
    let mut s = Schema::default();
    s.set_type_str("object");
    let mut m = MediaType::default();
    m.schema = Some(RefOr::Item(s));
    m
}

/// The content types a request body is offered, after `application/json`.
pub open spec fn form_content_types() -> Seq<Seq<char>> {
    seq!["application/x-www-form-urlencoded"@, "multipart/form-data"@]
}

/// The content types a response is offered; only `application/json` starts with an
/// object schema.
pub open spec fn response_content_types() -> Seq<(Seq<char>, bool)> {
    seq![
        ("application/json"@, true), ("text/plain"@, false), ("text/html"@, false),
        ("application/xml"@, false), ("application/octet-stream"@, false),
        ("application/pdf"@, false),
    ]
}

/// The content types a request body is offered after `application/json`, in menu order.
pub fn form_content_type_list() -> (r: Vec<&'static str>)
    ensures
        r@.map_values(|s: &'static str| s@) == form_content_types(),
{
    let r: Vec<&'static str> = vec!["application/x-www-form-urlencoded", "multipart/form-data"];
    assert(r@.map_values(|s: &'static str| s@) =~= form_content_types());
    r
}

/// The content types a response is offered, in menu order.
pub fn response_content_type_list() -> (r: Vec<&'static str>)
    ensures
        r@.map_values(|s: &'static str| s@) == response_content_types().map_values(
            |p: (Seq<char>, bool)| p.0,
        ),
{
    let r: Vec<&'static str> = vec![
        "application/json", "text/plain", "text/html", "application/xml",
        "application/octet-stream", "application/pdf",
    ];
    assert(r@.map_values(|s: &'static str| s@) =~= response_content_types().map_values(
        |p: (Seq<char>, bool)| p.0,
    ));
    r
}

/// `new` is `old` with `ct` appended, carrying a media type that satisfies `ok`, unless
/// `ct` was present.
pub open spec fn content_added(
    old: Seq<(Seq<char>, MediaType)>,
    new: Seq<(Seq<char>, MediaType)>,
    ct: Seq<char>,
    ok: spec_fn(MediaType) -> bool,
) -> bool {
    if has_key(old, ct) {
        new == old
    } else {
        new.drop_last() == old && new.len() == old.len() + 1 && new.last().0 == ct && ok(new.last().1)
    }
}

fn add_content(content: &mut OrderedMap<MediaType>, ct: &str, m: MediaType) -> (added: bool)
    ensures
        added == !has_key(old(content)@, ct@),
        content_added(old(content)@, final(content)@, ct@, |x: MediaType| x == m),
{
    if content.contains_key(ct) {
        return false;
    }
    proof {
        lemma_find_key(content@, ct@);
    }
    content.insert(String::from_str(ct), m);
    assert(content@.drop_last() =~= old(content)@);
    true
}

impl RequestBody {
    /// Adds `application/json` with an empty object schema, unless present.
    pub fn add_json_object(&mut self) -> (added: bool)
        ensures
            added == !has_key(old(self).content@, "application/json"@),
            content_added(old(self).content@, final(self).content@, "application/json"@, |m: MediaType| object_media(m)),
            *final(self) == (RequestBody { content: final(self).content, ..*old(self) }),
    {
        let m = object_media_type();
        add_content(&mut self.content, "application/json", m)
    }

    /// Adds `application/json` with a schema reference to be picked, unless present.
    pub fn add_json_ref(&mut self) -> (added: bool)
        ensures
            added == !has_key(old(self).content@, "application/json"@),
            content_added(old(self).content@, final(self).content@, "application/json"@, |m: MediaType| ref_media(m)),
            *final(self) == (RequestBody { content: final(self).content, ..*old(self) }),
    {
        let mut s = Schema::default();
        s.ref_ = Some(String::new());
        let mut m = MediaType::default();
        m.schema = Some(RefOr::Item(s));
        add_content(&mut self.content, "application/json", m)
    }

    /// Adds the form content type at position `i` with an empty object schema, unless
    /// present.
    pub fn add_form_content(&mut self, i: usize) -> (added: bool)
        requires
            i < form_content_types().len(),
        ensures
            added == !has_key(old(self).content@, form_content_types()[i as int]),
            content_added(old(self).content@, final(self).content@, form_content_types()[i as int], |m: MediaType| object_media(m)),
            *final(self) == (RequestBody { content: final(self).content, ..*old(self) }),
    {
        let list: Vec<&'static str> = vec!["application/x-www-form-urlencoded", "multipart/form-data"];
        assert(list@.map_values(|s: &'static str| s@) =~= form_content_types());
        let ct = list[i];
        assert(ct@ == form_content_types()[i as int]);
        let m = object_media_type();
        add_content(&mut self.content, ct, m)
    }
}

impl Response {
    /// Adds the content type at position `i` of the menu, unless present; JSON starts with
    /// an empty object schema, the others with nothing.
    pub fn add_content_type(&mut self, i: usize) -> (added: bool)
        requires
            i < response_content_types().len(),
        ensures
            added == !has_key(old(self).content@, response_content_types()[i as int].0),
            content_added(
                old(self).content@,
                final(self).content@,
                response_content_types()[i as int].0,
                |m: MediaType| if response_content_types()[i as int].1 {
                    object_media(m)
                } else {
                    m.is_default_value()
                },
            ),
            *final(self) == (Response { content: final(self).content, ..*old(self) }),
    {
        let list: Vec<(&'static str, bool)> = vec![
            ("application/json", true), ("text/plain", false), ("text/html", false),
            ("application/xml", false), ("application/octet-stream", false),
            ("application/pdf", false),
        ];
        assert(list@.map_values(|p: (&'static str, bool)| (p.0@, p.1)) =~= response_content_types());
        let (ct, init_object) = list[i];
        assert((ct@, init_object) == response_content_types()[i as int]);
        let m = if init_object {
            object_media_type()
        } else {
            MediaType::default()
        };
        add_content(&mut self.content, ct, m)
    }
}

impl MediaType {
    /// Gives the media type an empty schema.
    pub fn set_empty_schema(&mut self)
        ensures
            final(self).schema matches Some(RefOr::Item(s)) && s.is_default_value(),
            *final(self) == (MediaType { schema: final(self).schema, ..*old(self) }),
    {
        self.schema = Some(RefOr::Item(Schema::default()));
    }

    /// What the media type's schema is shown as: its reference, else its type, else
    /// "(inline schema)". Nothing without a schema.
    pub fn schema_summary(&self) -> (r: Option<String>)
        ensures
            r matches Some(x) <==> self.schema is Some,
            r matches Some(x) ==> x@ == (match self.schema->0 {
                RefOr::Ref(rf) => "$ref: "@ + rf.ref_@,
                RefOr::Item(s) => if s.type_str_spec().len() > 0 {
                    s.type_str_spec()
                } else {
                    "(inline schema)"@
                },
            }),
    {
        match &self.schema {
            None => None,
            Some(RefOr::Ref(rf)) => Some(cat("$ref: ", rf.ref_.as_str())),
            Some(RefOr::Item(s)) => {
                let t = s.type_str();
                if !t.is_empty() {
                    Some(String::from_str(t))
                } else {
                    Some(String::from_str("(inline schema)"))
                }
            },
        }
    }

    /// Links the example `key` to the component example `target` when both are given.
    /// Returns whether it linked.
    pub fn link_example(&mut self, key: &str, target: &str) -> (linked: bool)
        ensures
            linked == (key@.len() > 0 && target@.len() > 0),
            linked ==> final(self).examples@ == insert_spec(
                old(self).examples@,
                key@,
                final(self).examples@[find_key(final(self).examples@, key@)].1,
            ),
            linked ==> (final(self).examples@[find_key(final(self).examples@, key@)].1 matches RefOr::Ref(r)
                && r.ref_@ == target@ && r.summary is None && r.description is None),
            linked ==> *final(self) == (MediaType { examples: final(self).examples, ..*old(self) }),
            !linked ==> *final(self) == *old(self),
    {
        if key.is_empty() || target.is_empty() {
            return false;
        }
        let v = RefOr::Ref(Ref::to(String::from_str(target)));
        let ghost vv = v;
        self.examples.insert(String::from_str(key), v);
        proof {
            lemma_insert_found(old(self).examples@, key@, vv);
        }
        true
    }
}

/// The text after the last `/` of a reference (all of it when there is none).
pub open spec fn last_segment(s: Seq<char>) -> Seq<char> {
    split_spec(s, '/').last()
}

/// The name a reference picker shows for a reference such as `#/components/schemas/Pet`.
pub fn ref_short_name(r: &str) -> (n: String)
    ensures
        n@ == last_segment(r@),
{
    let v = to_chars(r);
    let mut start: usize = 0;
    let mut i: usize = 0;
    proof {
        crate::resource::lemma_split_nonempty(v@.take(0), '/');
    }
    assert(v@.take(0) =~= Seq::<char>::empty());
    while i < v.len()
        invariant
            v@ == r@,
            start <= i <= v@.len(),
            split_spec(v@.take(i as int), '/').last() == v@.subrange(start as int, i as int),
        decreases v@.len() - i,
    {
        assert(v@.take(i + 1).drop_last() =~= v@.take(i as int));
        proof {
            crate::resource::lemma_split_nonempty(v@.take(i as int), '/');
        }
        if v[i] == '/' {
            start = i + 1;
            assert(v@.subrange(start as int, i + 1) =~= Seq::<char>::empty());
        } else {
            assert(v@.subrange(start as int, i + 1) =~= v@.subrange(start as int, i as int).push(v@[i as int]));
        }
        i += 1;
    }
    assert(v@.take(v@.len() as int) =~= v@);
    chars_range(&v, start, v.len())
}

} // verus!
