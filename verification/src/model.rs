//! The OpenAPI document model.
//!
//! Maps keep the order in which their entries were written. Numbers that a document gives
//! as JSON numbers with a fraction (`minimum`, `maximum`, `multipleOf`) are held as their
//! decimal text.
use vstd::prelude::*;
use crate::json::{jview, jview_seq, lemma_jview_seq_same, JsonValue, JsonView};
use crate::text::str_eq;
use crate::ordered_map::{
    find_key, has_key, insert_spec, lookup, move_spec, pairs_index_of, pairs_insert, pairs_move,
    pairs_shift_remove,
    entries_cloned, lemma_find_key, lemma_fresh_key, lemma_move_unique, pairs_value_mut, pairs_view,
    remove_spec, unique_keys, OrderedMap,
};

verus! {

// ── File format ──────────────────────────────────────────────────────────────

#[derive(Debug, Clone, Copy, PartialEq, Eq)]
pub enum FileFormat {
    Yaml,
    Json,
}

impl FileFormat {
    /// The name shown to the user.
    pub fn display_name(&self) -> (s: &'static str)
        ensures
            s@ == (match self {
                FileFormat::Yaml => "YAML"@,
                FileFormat::Json => "JSON"@,
            }),
    {
        match self {
            FileFormat::Yaml => "YAML",
            FileFormat::Json => "JSON",
        }
    }
}

impl Default for FileFormat {
    fn default() -> (r: Self)
        ensures
            r == FileFormat::Yaml,
    {
        FileFormat::Yaml
    }
}

// ── RefOr ────────────────────────────────────────────────────────────────────

/// Either a `$ref` to a reusable component or the item itself.
#[derive(Debug)]
pub enum RefOr<T> {
    Ref(Ref),
    Item(T),
}

impl<T> RefOr<T> {
    /// The reference target, when this is a reference.
    pub fn ref_str(&self) -> (r: Option<&str>)
        ensures
            match self {
                RefOr::Ref(rf) => r is Some && r->0@ == rf.ref_@,
                RefOr::Item(_) => r is None,
            },
    {
        match self {
            RefOr::Ref(r) => Some(r.ref_.as_str()),
            RefOr::Item(_) => None,
        }
    }

    /// The item, when this is not a reference.
    pub fn as_item(&self) -> (r: Option<&T>)
        ensures
            match self {
                RefOr::Item(t) => r == Some(t),
                RefOr::Ref(_) => r is None,
            },
    {
        match self {
            RefOr::Item(t) => Some(t),
            RefOr::Ref(_) => None,
        }
    }

    /// Mutable access to the item, when this is not a reference.
    pub fn as_item_mut(&mut self) -> (r: Option<&mut T>)
        ensures
            match *old(self) {
                RefOr::Item(t) => r is Some && *r->0 == t && *final(self) == RefOr::<T>::Item(
                    *final(r->0),
                ),
                RefOr::Ref(_) => r is None && *final(self) == *old(self),
            },
    {
        match self {
            RefOr::Item(t) => Some(t),
            RefOr::Ref(_) => None,
        }
    }
}

#[derive(Debug)]
pub struct Ref {
    pub ref_: String,
    pub summary: Option<String>,
    pub description: Option<String>,
}

impl<T: Clone> Clone for RefOr<T> {
    fn clone(&self) -> (r: Self)
        ensures
            match (*self, r) {
                (RefOr::Ref(a), RefOr::Ref(b)) => b == a,
                (RefOr::Item(a), RefOr::Item(b)) => cloned(a, b),
                _ => false,
            },
    {
        match self {
            RefOr::Ref(x) => RefOr::Ref(x.clone()),
            RefOr::Item(x) => RefOr::Item(x.clone()),
        }
    }
}

impl Clone for Ref {
    fn clone(&self) -> (r: Self)
        ensures
            r == *self,
    {
        Ref { ref_: self.ref_.clone(), summary: self.summary.clone(), description: self.description.clone() }
    }
}

impl Ref {
    /// A reference to `target` with no summary or description.
    pub fn to(target: String) -> (r: Ref)
        ensures
            r.ref_ == target,
            r.summary is None,
            r.description is None,
    {
        Ref { ref_: target, summary: None, description: None }
    }
}

/// The root of a document.
#[derive(Debug, Clone)]
pub struct OpenApiSpec {
    pub openapi: String,
    pub info: Info,
    pub servers: Vec<Server>,
    pub paths: OrderedMap<PathItem>,
    pub webhooks: OrderedMap<PathItem>,
    pub components: Option<Components>,
    pub security: Vec<OrderedMap<Vec<String>>>,
    pub tags: Vec<Tag>,
    pub external_docs: Option<ExternalDocs>,
}

#[derive(Debug, Clone)]
pub struct Info {
    pub title: String,
    pub summary: Option<String>,
    pub description: Option<String>,
    pub terms_of_service: Option<String>,
    pub contact: Option<Contact>,
    pub license: Option<License>,
    pub version: String,
}

#[derive(Debug, Clone, Default)]
pub struct Contact {
    pub name: Option<String>,
    pub url: Option<String>,
    pub email: Option<String>,
}

#[derive(Debug, Clone, Default)]
pub struct License {
    pub name: String,
    pub identifier: Option<String>,
    pub url: Option<String>,
}

#[derive(Debug, Default)]
pub struct Server {
    pub url: String,
    pub description: Option<String>,
    pub variables: OrderedMap<ServerVariable>,
}

#[derive(Debug, Default)]
pub struct ServerVariable {
    pub enum_: Vec<String>,
    pub default: String,
    pub description: Option<String>,
}

#[derive(Debug, Clone, Default)]
pub struct Tag {
    pub name: String,
    pub description: Option<String>,
    pub external_docs: Option<ExternalDocs>,
}

#[derive(Debug, Default)]
pub struct ExternalDocs {
    pub url: String,
    pub description: Option<String>,
}

#[derive(Debug, Clone)]
pub struct Components {
    pub schemas: OrderedMap<RefOr<Schema>>,
    pub responses: OrderedMap<RefOr<Response>>,
    pub parameters: OrderedMap<RefOr<Parameter>>,
    pub examples: OrderedMap<RefOr<OaExample>>,
    pub request_bodies: OrderedMap<RefOr<RequestBody>>,
    pub headers: OrderedMap<RefOr<Header>>,
    pub security_schemes: OrderedMap<RefOr<SecurityScheme>>,
    pub links: OrderedMap<RefOr<Link>>,
    pub path_items: OrderedMap<PathItem>,
}

#[derive(Debug)]
pub struct PathItem {
    pub ref_: Option<String>,
    pub summary: Option<String>,
    pub description: Option<String>,
    pub get: Option<Operation>,
    pub put: Option<Operation>,
    pub post: Option<Operation>,
    pub delete: Option<Operation>,
    pub options: Option<Operation>,
    pub head: Option<Operation>,
    pub patch: Option<Operation>,
    pub trace: Option<Operation>,
    pub servers: Vec<Server>,
    pub parameters: Vec<RefOr<Parameter>>,
}

#[derive(Debug)]
pub struct Operation {
    pub tags: Vec<String>,
    pub summary: Option<String>,
    pub description: Option<String>,
    pub external_docs: Option<ExternalDocs>,
    pub operation_id: Option<String>,
    pub parameters: Vec<RefOr<Parameter>>,
    pub request_body: Option<RefOr<RequestBody>>,
    pub responses: OrderedMap<RefOr<Response>>,
    pub deprecated: Option<bool>,
    pub security: Option<Vec<OrderedMap<Vec<String>>>>,
    pub servers: Vec<Server>,
}

#[derive(Debug)]
pub struct Parameter {
    pub name: String,
    pub in_: String,
    pub description: Option<String>,
    pub required: Option<bool>,
    pub deprecated: Option<bool>,
    pub allow_empty_value: Option<bool>,
    pub schema: Option<RefOr<Schema>>,
    pub style: Option<String>,
    pub explode: Option<bool>,
    pub example: Option<JsonValue>,
    pub examples: OrderedMap<RefOr<OaExample>>,
}

#[derive(Debug)]
pub struct RequestBody {
    pub description: Option<String>,
    pub content: OrderedMap<MediaType>,
    pub required: Option<bool>,
}

#[derive(Debug)]
pub struct MediaType {
    pub schema: Option<RefOr<Schema>>,
    pub example: Option<JsonValue>,
    pub examples: OrderedMap<RefOr<OaExample>>,
}

#[derive(Debug)]
pub struct Response {
    pub description: String,
    pub headers: OrderedMap<RefOr<Header>>,
    pub content: OrderedMap<MediaType>,
    pub links: OrderedMap<RefOr<Link>>,
}

#[derive(Debug, Default)]
pub struct Header {
    pub description: Option<String>,
    pub required: Option<bool>,
    pub deprecated: Option<bool>,
    pub schema: Option<RefOr<Schema>>,
    pub example: Option<JsonValue>,
    pub examples: OrderedMap<RefOr<OaExample>>,
}

#[derive(Debug)]
pub struct OaExample {
    pub summary: Option<String>,
    pub description: Option<String>,
    pub value: Option<JsonValue>,
    pub external_value: Option<String>,
}

#[derive(Debug, Default)]
pub struct Link {
    pub operation_ref: Option<String>,
    pub operation_id: Option<String>,
    pub parameters: OrderedMap<JsonValue>,
    pub request_body: Option<JsonValue>,
    pub description: Option<String>,
    pub server: Option<Server>,
}

#[derive(Debug, Clone, Default)]
pub struct SecurityScheme {
    pub type_: String,
    pub description: Option<String>,
    pub name: Option<String>,
    pub in_: Option<String>,
    pub scheme: Option<String>,
    pub bearer_format: Option<String>,
    pub flows: Option<OAuthFlows>,
    pub open_id_connect_url: Option<String>,
}

#[derive(Debug, Clone, Default)]
pub struct OAuthFlows {
    pub implicit: Option<OAuthFlow>,
    pub password: Option<OAuthFlow>,
    pub client_credentials: Option<OAuthFlow>,
    pub authorization_code: Option<OAuthFlow>,
}

#[derive(Debug, Clone, Default)]
pub struct OAuthFlow {
    pub authorization_url: Option<String>,
    pub token_url: Option<String>,
    pub refresh_url: Option<String>,
    pub scopes: OrderedMap<String>,
}

#[derive(Debug, Clone, Default)]
pub struct Discriminator {
    pub property_name: String,
    pub mapping: OrderedMap<String>,
}

// ── Copies ───────────────────────────────────────────────────────────────────

/// `b` copies `a`: both absent, or `b` a clone of `a`.
pub open spec fn opt_cloned<T: Clone>(a: Option<T>, b: Option<T>) -> bool {
    match a {
        Some(x) => b matches Some(y) && cloned(x, y),
        None => b is None,
    }
}

/// `b` copies `a` item by item.
pub open spec fn seq_cloned<T: Clone>(a: Seq<T>, b: Seq<T>) -> bool {
    &&& a.len() == b.len()
    &&& forall|i: int| 0 <= i < a.len() ==> cloned(#[trigger] a[i], b[i])
}

/// An optional JSON value as a value.
pub open spec fn jopt(o: Option<JsonValue>) -> Option<JsonView> {
    match o {
        Some(j) => Some(j@),
        None => None,
    }
}

/// A copy of an optional JSON value.
fn clone_json_opt(o: &Option<JsonValue>) -> (r: Option<JsonValue>)
    ensures
        jopt(r) == jopt(*o),
{
    match o {
        Some(j) => Some(j.deep_clone()),
        None => None,
    }
}

/// A copy of a list of strings.
fn clone_strings(v: &Vec<String>) -> (r: Vec<String>)
    ensures
        r@ == v@,
{
    let mut out: Vec<String> = Vec::new();
    let mut i: usize = 0;
    while i < v.len()
        invariant
            i <= v@.len(),
            out@ == v@.take(i as int),
        decreases v@.len() - i,
    {
        out.push(v[i].clone());
        proof {
            assert(out@ =~= v@.take(i + 1));
        }
        i += 1;
    }
    assert(out@ =~= v@);
    out
}

impl Clone for ExternalDocs {
    fn clone(&self) -> (r: Self)
        ensures
            r == *self,
    {
        ExternalDocs { url: self.url.clone(), description: self.description.clone() }
    }
}

impl Clone for ServerVariable {
    fn clone(&self) -> (r: Self)
        ensures
            r.enum_@ == self.enum_@,
            r.default == self.default,
            r.description == self.description,
    {
        ServerVariable {
            enum_: clone_strings(&self.enum_),
            default: self.default.clone(),
            description: self.description.clone(),
        }
    }
}

impl Clone for Server {
    fn clone(&self) -> (r: Self)
        ensures
            r.url == self.url,
            r.description == self.description,
            entries_cloned(self.variables@, r.variables@),
    {
        Server { url: self.url.clone(), description: self.description.clone(), variables: self.variables.clone() }
    }
}

impl Clone for OaExample {
    fn clone(&self) -> (r: Self)
        ensures
            r.summary == self.summary,
            r.description == self.description,
            jopt(r.value) == jopt(self.value),
            r.external_value == self.external_value,
    {
        OaExample {
            summary: self.summary.clone(),
            description: self.description.clone(),
            value: clone_json_opt(&self.value),
            external_value: self.external_value.clone(),
        }
    }
}

impl Clone for MediaType {
    fn clone(&self) -> (r: Self)
        ensures
            opt_cloned(self.schema, r.schema),
            jopt(r.example) == jopt(self.example),
            entries_cloned(self.examples@, r.examples@),
    {
        MediaType {
            schema: self.schema.clone(),
            example: clone_json_opt(&self.example),
            examples: self.examples.clone(),
        }
    }
}

impl Clone for Header {
    fn clone(&self) -> (r: Self)
        ensures
            r.description == self.description,
            r.required == self.required,
            r.deprecated == self.deprecated,
            opt_cloned(self.schema, r.schema),
            jopt(r.example) == jopt(self.example),
            entries_cloned(self.examples@, r.examples@),
    {
        Header {
            description: self.description.clone(),
            required: self.required,
            deprecated: self.deprecated,
            schema: self.schema.clone(),
            example: clone_json_opt(&self.example),
            examples: self.examples.clone(),
        }
    }
}

impl Clone for Link {
    fn clone(&self) -> (r: Self)
        ensures
            r.operation_ref == self.operation_ref,
            r.operation_id == self.operation_id,
            entries_cloned(self.parameters@, r.parameters@),
            jopt(r.request_body) == jopt(self.request_body),
            r.description == self.description,
            opt_cloned(self.server, r.server),
    {
        Link {
            operation_ref: self.operation_ref.clone(),
            operation_id: self.operation_id.clone(),
            parameters: self.parameters.clone(),
            request_body: clone_json_opt(&self.request_body),
            description: self.description.clone(),
            server: self.server.clone(),
        }
    }
}

impl Clone for Response {
    fn clone(&self) -> (r: Self)
        ensures
            r.description == self.description,
            entries_cloned(self.headers@, r.headers@),
            entries_cloned(self.content@, r.content@),
            entries_cloned(self.links@, r.links@),
    {
        Response {
            description: self.description.clone(),
            headers: self.headers.clone(),
            content: self.content.clone(),
            links: self.links.clone(),
        }
    }
}

impl Clone for RequestBody {
    fn clone(&self) -> (r: Self)
        ensures
            r.description == self.description,
            entries_cloned(self.content@, r.content@),
            r.required == self.required,
    {
        RequestBody {
            description: self.description.clone(),
            content: self.content.clone(),
            required: self.required,
        }
    }
}

impl Clone for Parameter {
    fn clone(&self) -> (r: Self)
        ensures
            r.name == self.name,
            r.in_ == self.in_,
            r.description == self.description,
            r.required == self.required,
            r.deprecated == self.deprecated,
            r.allow_empty_value == self.allow_empty_value,
            opt_cloned(self.schema, r.schema),
            r.style == self.style,
            r.explode == self.explode,
            jopt(r.example) == jopt(self.example),
            entries_cloned(self.examples@, r.examples@),
    {
        Parameter {
            name: self.name.clone(),
            in_: self.in_.clone(),
            description: self.description.clone(),
            required: self.required,
            deprecated: self.deprecated,
            allow_empty_value: self.allow_empty_value,
            schema: self.schema.clone(),
            style: self.style.clone(),
            explode: self.explode,
            example: clone_json_opt(&self.example),
            examples: self.examples.clone(),
        }
    }
}

impl Clone for Operation {
    fn clone(&self) -> (r: Self)
        ensures
            r.tags@ == self.tags@,
            r.summary == self.summary,
            r.description == self.description,
            r.external_docs == self.external_docs,
            r.operation_id == self.operation_id,
            seq_cloned(self.parameters@, r.parameters@),
            opt_cloned(self.request_body, r.request_body),
            entries_cloned(self.responses@, r.responses@),
            r.deprecated == self.deprecated,
            opt_cloned(self.security, r.security),
            seq_cloned(self.servers@, r.servers@),
    {
        Operation {
            tags: clone_strings(&self.tags),
            summary: self.summary.clone(),
            description: self.description.clone(),
            external_docs: self.external_docs.clone(),
            operation_id: self.operation_id.clone(),
            parameters: self.parameters.clone(),
            request_body: self.request_body.clone(),
            responses: self.responses.clone(),
            deprecated: self.deprecated,
            security: self.security.clone(),
            servers: self.servers.clone(),
        }
    }
}

impl Clone for PathItem {
    fn clone(&self) -> (r: Self)
        ensures
            r.ref_ == self.ref_,
            r.summary == self.summary,
            r.description == self.description,
            opt_cloned(self.get, r.get),
            opt_cloned(self.put, r.put),
            opt_cloned(self.post, r.post),
            opt_cloned(self.delete, r.delete),
            opt_cloned(self.options, r.options),
            opt_cloned(self.head, r.head),
            opt_cloned(self.patch, r.patch),
            opt_cloned(self.trace, r.trace),
            seq_cloned(self.servers@, r.servers@),
            seq_cloned(self.parameters@, r.parameters@),
    {
        PathItem {
            ref_: self.ref_.clone(),
            summary: self.summary.clone(),
            description: self.description.clone(),
            get: self.get.clone(),
            put: self.put.clone(),
            post: self.post.clone(),
            delete: self.delete.clone(),
            options: self.options.clone(),
            head: self.head.clone(),
            patch: self.patch.clone(),
            trace: self.trace.clone(),
            servers: self.servers.clone(),
            parameters: self.parameters.clone(),
        }
    }
}

impl OpenApiSpec {
    /// Every field is empty or absent.
    pub open spec fn is_default_value(&self) -> bool {
        &&& self.openapi@.len() == 0
        &&& self.info.is_default_value()
        &&& self.rest_is_empty()
    }

    /// Every field but `openapi` and `info` is empty or absent.
    pub open spec fn rest_is_empty(&self) -> bool {
        &&& self.servers@.len() == 0
        &&& self.paths@.len() == 0
        &&& self.webhooks@.len() == 0
        &&& self.components is None
        &&& self.security@.len() == 0
        &&& self.tags@.len() == 0
        &&& self.external_docs is None
    }
}

impl Default for OpenApiSpec {
    fn default() -> (r: Self)
        ensures
            r.is_default_value(),
    {
        OpenApiSpec {
            openapi: String::new(),
            info: Info::default(),
            servers: Vec::new(),
            paths: OrderedMap::new(),
            webhooks: OrderedMap::new(),
            components: None,
            security: Vec::new(),
            tags: Vec::new(),
            external_docs: None,
        }
    }
}

impl Info {
    /// Every field is empty or absent.
    pub open spec fn is_default_value(&self) -> bool {
        &&& self.title@.len() == 0
        &&& self.version@.len() == 0
        &&& self.rest_is_empty()
    }

    /// Every field but `title` and `version` is empty or absent.
    pub open spec fn rest_is_empty(&self) -> bool {
        &&& self.summary is None
        &&& self.description is None
        &&& self.terms_of_service is None
        &&& self.contact is None
        &&& self.license is None
    }
}

impl Default for Info {
    fn default() -> (r: Self)
        ensures
            r.is_default_value(),
    {
        Info {
            title: String::new(),
            summary: None,
            description: None,
            terms_of_service: None,
            contact: None,
            license: None,
            version: String::new(),
        }
    }
}

impl Components {
    /// Every field is empty or absent.
    pub open spec fn is_default_value(&self) -> bool {
        &&& self.schemas@.len() == 0
        &&& self.responses@.len() == 0
        &&& self.parameters@.len() == 0
        &&& self.examples@.len() == 0
        &&& self.request_bodies@.len() == 0
        &&& self.headers@.len() == 0
        &&& self.security_schemes@.len() == 0
        &&& self.links@.len() == 0
        &&& self.path_items@.len() == 0
    }
}

impl Default for Components {
    fn default() -> (r: Self)
        ensures
            r.is_default_value(),
    {
        Components {
            schemas: OrderedMap::new(),
            responses: OrderedMap::new(),
            parameters: OrderedMap::new(),
            examples: OrderedMap::new(),
            request_bodies: OrderedMap::new(),
            headers: OrderedMap::new(),
            security_schemes: OrderedMap::new(),
            links: OrderedMap::new(),
            path_items: OrderedMap::new(),
        }
    }
}

impl PathItem {
    /// Every field is empty or absent.
    pub open spec fn is_default_value(&self) -> bool {
        &&& self.ref_ is None
        &&& self.summary is None
        &&& self.description is None
        &&& self.get is None
        &&& self.put is None
        &&& self.post is None
        &&& self.delete is None
        &&& self.options is None
        &&& self.head is None
        &&& self.patch is None
        &&& self.trace is None
        &&& self.servers@.len() == 0
        &&& self.parameters@.len() == 0
    }
}

impl Default for PathItem {
    fn default() -> (r: Self)
        ensures
            r.is_default_value(),
    {
        PathItem {
            ref_: None,
            summary: None,
            description: None,
            get: None,
            put: None,
            post: None,
            delete: None,
            options: None,
            head: None,
            patch: None,
            trace: None,
            servers: Vec::new(),
            parameters: Vec::new(),
        }
    }
}

impl Operation {
    /// Every field is empty or absent.
    pub open spec fn is_default_value(&self) -> bool {
        &&& self.tags@.len() == 0
        &&& self.summary is None
        &&& self.description is None
        &&& self.external_docs is None
        &&& self.operation_id is None
        &&& self.parameters@.len() == 0
        &&& self.request_body is None
        &&& self.responses@.len() == 0
        &&& self.deprecated is None
        &&& self.security is None
        &&& self.servers@.len() == 0
    }
}

impl Default for Operation {
    fn default() -> (r: Self)
        ensures
            r.is_default_value(),
    {
        Operation {
            tags: Vec::new(),
            summary: None,
            description: None,
            external_docs: None,
            operation_id: None,
            parameters: Vec::new(),
            request_body: None,
            responses: OrderedMap::new(),
            deprecated: None,
            security: None,
            servers: Vec::new(),
        }
    }
}

impl Parameter {
    /// Every field is empty or absent.
    pub open spec fn is_default_value(&self) -> bool {
        &&& self.name@.len() == 0
        &&& self.in_@.len() == 0
        &&& self.description is None
        &&& self.required is None
        &&& self.deprecated is None
        &&& self.allow_empty_value is None
        &&& self.schema is None
        &&& self.style is None
        &&& self.explode is None
        &&& self.example is None
        &&& self.examples@.len() == 0
    }
}

impl Default for Parameter {
    fn default() -> (r: Self)
        ensures
            r.is_default_value(),
    {
        Parameter {
            name: String::new(),
            in_: String::new(),
            description: None,
            required: None,
            deprecated: None,
            allow_empty_value: None,
            schema: None,
            style: None,
            explode: None,
            example: None,
            examples: OrderedMap::new(),
        }
    }
}

impl RequestBody {
    /// Every field is empty or absent.
    pub open spec fn is_default_value(&self) -> bool {
        &&& self.description is None
        &&& self.content@.len() == 0
        &&& self.required is None
    }
}

impl Default for RequestBody {
    fn default() -> (r: Self)
        ensures
            r.is_default_value(),
    {
        RequestBody {
            description: None,
            content: OrderedMap::new(),
            required: None,
        }
    }
}

impl MediaType {
    /// Every field is empty or absent.
    pub open spec fn is_default_value(&self) -> bool {
        &&& self.schema is None
        &&& self.example is None
        &&& self.examples@.len() == 0
    }
}

impl Default for MediaType {
    fn default() -> (r: Self)
        ensures
            r.is_default_value(),
    {
        MediaType {
            schema: None,
            example: None,
            examples: OrderedMap::new(),
        }
    }
}

impl Response {
    /// Every field is empty or absent.
    pub open spec fn is_default_value(&self) -> bool {
        &&& self.description@.len() == 0
        &&& self.headers@.len() == 0
        &&& self.content@.len() == 0
        &&& self.links@.len() == 0
    }
}

impl Default for Response {
    fn default() -> (r: Self)
        ensures
            r.is_default_value(),
    {
        Response {
            description: String::new(),
            headers: OrderedMap::new(),
            content: OrderedMap::new(),
            links: OrderedMap::new(),
        }
    }
}

impl OaExample {
    /// Every field is empty or absent.
    pub open spec fn is_default_value(&self) -> bool {
        &&& self.summary is None
        &&& self.description is None
        &&& self.value is None
        &&& self.external_value is None
    }
}

impl Default for OaExample {
    fn default() -> (r: Self)
        ensures
            r.is_default_value(),
    {
        OaExample {
            summary: None,
            description: None,
            value: None,
            external_value: None,
        }
    }
}

/// The `properties` and `$defs` of a schema: an insertion-ordered map from names to schemas.
/// A schema holds it, so it is written here for the reason given in `ordered_map`.
#[derive(Debug)]
pub struct SchemaMap {
    entries: Vec<(String, Box<Schema>)>,
}

impl View for SchemaMap {
    type V = Seq<(Seq<char>, Box<Schema>)>;

    closed spec fn view(&self) -> Seq<(Seq<char>, Box<Schema>)> {
        pairs_view(self.entries@)
    }
}

impl SchemaMap {
    /// No key occurs twice.
    #[verifier::type_invariant]
    spec fn keys_distinct(self) -> bool {
        unique_keys(pairs_view(self.entries@))
    }

    /// The entries, leaving the map empty.
    fn take_entries(&mut self) -> (e: Vec<(String, Box<Schema>)>)
        ensures
            pairs_view(e@) == old(self)@,
            unique_keys(old(self)@),
            final(self)@.len() == 0,
    {
        proof {
            use_type_invariant(&*self);
        }
        let mut e: Vec<(String, Box<Schema>)> = Vec::new();
        std::mem::swap(&mut e, &mut self.entries);
        assert(pairs_view(self.entries@) =~= Seq::<(Seq<char>, Box<Schema>)>::empty());
        e
    }

    /// Each stored schema is structurally smaller than the map.
    pub proof fn lemma_value_decreases(&self, i: int)
        requires
            0 <= i < self@.len(),
        ensures
            decreases_to!(*self => self@[i].1),
    {
        let e = self.entries@[i];
        assert(pairs_view(self.entries@)[i] == (e.0@, e.1));
        assert(decreases_to!(*self => self.entries));
        assert(decreases_to!(self.entries => self.entries@));
        assert(decreases_to!(self.entries@ => self.entries@[i]));
        assert(decreases_to!(e => e.1));
    }

    pub fn new() -> (m: Self)
        ensures
            m@ == Seq::<(Seq<char>, Box<Schema>)>::empty(),
    {
        let m = SchemaMap { entries: Vec::new() };
        assert(m@ =~= Seq::<(Seq<char>, Box<Schema>)>::empty());
        m
    }

    /// Number of entries; the keys are distinct.
    pub fn len(&self) -> (n: usize)
        ensures
            n == self@.len(),
            unique_keys(self@),
    {
        proof {
            use_type_invariant(self);
        }
        self.entries.len()
    }

    pub fn is_empty(&self) -> (b: bool)
        ensures
            b == (self@.len() == 0),
    {
        self.entries.len() == 0
    }

    pub fn key_at(&self, i: usize) -> (k: &String)
        requires
            i < self@.len(),
        ensures
            k@ == self@[i as int].0,
    {
        assert(pairs_view(self.entries@)[i as int] == (self.entries@[i as int].0@, self.entries@[i as int].1));
        &self.entries[i].0
    }

    pub fn value_at(&self, i: usize) -> (v: &Box<Schema>)
        requires
            i < self@.len(),
        ensures
            *v == self@[i as int].1,
    {
        assert(pairs_view(self.entries@)[i as int] == (self.entries@[i as int].0@, self.entries@[i as int].1));
        &self.entries[i].1
    }

    pub fn value_at_mut(&mut self, i: usize) -> (v: &mut Box<Schema>)
        requires
            i < old(self)@.len(),
        ensures
            *v == old(self)@[i as int].1,
            final(self)@ == old(self)@.update(i as int, (old(self)@[i as int].0, *final(v))),
    {
        proof {
            use_type_invariant(&*self);
        }
        pairs_value_mut(&mut self.entries, i)
    }

    pub fn index_of(&self, k: &str) -> (r: Option<usize>)
        ensures
            match r {
                Some(i) => i as int == find_key(self@, k@),
                None => find_key(self@, k@) == -1,
            },
    {
        pairs_index_of(&self.entries, k)
    }

    pub fn contains_key(&self, k: &str) -> (b: bool)
        ensures
            b == has_key(self@, k@),
    {
        pairs_index_of(&self.entries, k).is_some()
    }

    /// Appends the entry `(k, v)` after the others, `k` being absent.
    pub(crate) fn push_entry(&mut self, k: String, v: Box<Schema>)
        requires
            !has_key(old(self)@, k@),
        ensures
            final(self)@ == old(self)@.push((k@, v)),
    {
        let mut e = self.take_entries();
        let ghost pre = pairs_view(e@);
        e.push((k, v));
        proof {
            lemma_find_key(pre, k@);
        }
        assert(pairs_view(e@) =~= pre.push((k@, v)));
        assert(unique_keys(pairs_view(e@))) by {
            assert forall|a: int, b: int| 0 <= a < b < pairs_view(e@).len() implies pairs_view(e@)[a].0
                != pairs_view(e@)[b].0 by {
                assert(pairs_view(e@)[a] == pre[a]);
                if b < pre.len() {
                    assert(pairs_view(e@)[b] == pre[b]);
                }
            }
        }
        self.entries = e;
    }

    pub fn insert(&mut self, k: String, v: Box<Schema>) -> (r: Option<Box<Schema>>)
        ensures
            final(self)@ == insert_spec(old(self)@, k@, v),
            r == lookup(old(self)@, k@),
            unique_keys(final(self)@),
    {
        let mut e = self.take_entries();
        let r = pairs_insert(&mut e, k, v);
        self.entries = e;
        r
    }

    /// Moves the entry at `from` before the entry at `to`.
    pub fn move_entry(&mut self, from: usize, to: usize)
        requires
            from < old(self)@.len(),
            to <= old(self)@.len(),
        ensures
            final(self)@ == move_spec(old(self)@, from as int, to as int),
            unique_keys(final(self)@),
    {
        let mut e = self.take_entries();
        pairs_move(&mut e, from, to);
        proof {
            lemma_move_unique(pairs_view(old(self).entries@), from as int, to as int);
        }
        self.entries = e;
    }

    pub fn shift_remove(&mut self, k: &str) -> (r: Option<Box<Schema>>)
        ensures
            final(self)@ == remove_spec(old(self)@, k@),
            r == lookup(old(self)@, k@),
            unique_keys(final(self)@),
            !has_key(final(self)@, k@),
    {
        let mut e = self.take_entries();
        let r = pairs_shift_remove(&mut e, k);
        self.entries = e;
        r
    }
}

// ── Schema ───────────────────────────────────────────────────────────────────

/// A schema object. `type_` is a string in 3.0 and a string or an array of strings in 3.1.
#[derive(Debug)]
pub struct Schema {
    pub ref_: Option<String>,
    pub title: Option<String>,
    pub description: Option<String>,
    pub type_: Option<JsonValue>,
    pub format: Option<String>,
    pub nullable: Option<bool>,
    pub enum_: Option<Vec<JsonValue>>,
    pub default: Option<JsonValue>,
    pub example: Option<JsonValue>,
    pub properties: SchemaMap,
    pub required: Vec<String>,
    pub additional_properties: Option<Box<AdditionalProperties>>,
    pub min_properties: Option<u64>,
    pub max_properties: Option<u64>,
    pub items: Option<Box<Schema>>,
    pub min_items: Option<u64>,
    pub max_items: Option<u64>,
    pub unique_items: Option<bool>,
    pub prefix_items: Vec<Box<Schema>>,
    pub min_length: Option<u64>,
    pub max_length: Option<u64>,
    pub pattern: Option<String>,
    pub minimum: Option<String>,
    pub maximum: Option<String>,
    pub exclusive_minimum: Option<JsonValue>,
    pub exclusive_maximum: Option<JsonValue>,
    pub multiple_of: Option<String>,
    pub all_of: Vec<Box<Schema>>,
    pub any_of: Vec<Box<Schema>>,
    pub one_of: Vec<Box<Schema>>,
    pub not: Option<Box<Schema>>,
    pub if_: Option<Box<Schema>>,
    pub then_: Option<Box<Schema>>,
    pub else_: Option<Box<Schema>>,
    pub discriminator: Option<Discriminator>,
    pub read_only: Option<bool>,
    pub write_only: Option<bool>,
    pub deprecated: Option<bool>,
    pub external_docs: Option<ExternalDocs>,
    pub defs: SchemaMap,
}

/// `additionalProperties`: a flag or a schema.
#[derive(Debug)]
pub enum AdditionalProperties {
    Bool(bool),
    Schema(Schema),
}

impl Schema {
    /// Every field is empty or absent.
    pub open spec fn is_default_value(&self) -> bool {
        &&& self.ref_ is None
        &&& self.title is None
        &&& self.description is None
        &&& self.type_ is None
        &&& self.format is None
        &&& self.nullable is None
        &&& self.enum_ is None
        &&& self.default is None
        &&& self.example is None
        &&& self.properties@.len() == 0
        &&& self.required@.len() == 0
        &&& self.additional_properties is None
        &&& self.min_properties is None
        &&& self.max_properties is None
        &&& self.items is None
        &&& self.min_items is None
        &&& self.max_items is None
        &&& self.unique_items is None
        &&& self.prefix_items@.len() == 0
        &&& self.min_length is None
        &&& self.max_length is None
        &&& self.pattern is None
        &&& self.minimum is None
        &&& self.maximum is None
        &&& self.exclusive_minimum is None
        &&& self.exclusive_maximum is None
        &&& self.multiple_of is None
        &&& self.all_of@.len() == 0
        &&& self.any_of@.len() == 0
        &&& self.one_of@.len() == 0
        &&& self.not is None
        &&& self.if_ is None
        &&& self.then_ is None
        &&& self.else_ is None
        &&& self.discriminator is None
        &&& self.read_only is None
        &&& self.write_only is None
        &&& self.deprecated is None
        &&& self.external_docs is None
        &&& self.defs@.len() == 0
    }

    /// The `type` when it is a single string, else the empty string.
    pub open spec fn type_str_spec(&self) -> Seq<char> {
        match self.type_ {
            Some(JsonValue::String(s)) => s@,
            _ => Seq::empty(),
        }
    }

    pub fn type_str(&self) -> (r: &str)
        ensures
            r@ == self.type_str_spec(),
    {
        match &self.type_ {
            Some(JsonValue::String(s)) => s.as_str(),
            _ => {
                let e = "";
                proof {
                    reveal_strlit("");
                }
                e
            },
        }
    }

    /// Sets `type` to the string `s`, or removes it when `s` is empty.
    pub fn set_type_str(&mut self, s: &str)
        ensures
            s@.len() == 0 ==> final(self).type_ is None,
            s@.len() > 0 ==> (final(self).type_ matches Some(JsonValue::String(t)) && t@ == s@),
            final(self).type_str_spec() == s@,
            *final(self) == (Schema { type_: final(self).type_, ..*old(self) }),
    {
        if s.is_empty() {
            self.type_ = None;
        } else {
            self.type_ = Some(JsonValue::String(String::from_str(s)));
        }
    }

    #[verifier::loop_isolation(false)]
    fn clone_map(m: &SchemaMap) -> (r: SchemaMap)
        ensures
            sview_map(r, r@.len()) == sview_map(*m, m@.len()),
        decreases *m, 0nat,
    {
        let mut out: SchemaMap = SchemaMap::new();
        let mut i: usize = 0;
        while i < m.len()
            invariant
                i <= m@.len(),
                out@.len() == i,
                forall|j: int| 0 <= j < i ==> #[trigger] out@[j].0 == m@[j].0 && sview(*out@[j].1) == sview(*m@[j].1),
            decreases m@.len() - i,
        {
            proof {
                m.lemma_value_decreases(i as int);
            }
            let v = m.value_at(i);
            let c = (**v).deep_clone();
            proof {
                lemma_fresh_key(out@, m@, i as int);
            }
            out.push_entry(m.key_at(i).clone(), Box::new(c));
            i += 1;
        }
        proof {
            lemma_sview_map(out, out@.len());
            lemma_sview_map(*m, m@.len());
            assert(sview_map(out, out@.len()) =~= sview_map(*m, m@.len()));
        }
        out
    }

    #[verifier::loop_isolation(false)]
    fn clone_list(v: &Vec<Box<Schema>>) -> (r: Vec<Box<Schema>>)
        ensures
            sview_list(r@, r@.len()) == sview_list(v@, v@.len()),
        decreases *v, 0nat,
    {
        let mut out: Vec<Box<Schema>> = Vec::new();
        let mut i: usize = 0;
        while i < v.len()
            invariant
                i <= v@.len(),
                out@.len() == i,
                forall|j: int| 0 <= j < i ==> sview(*#[trigger] out@[j]) == sview(*v@[j]),
            decreases v@.len() - i,
        {
            proof {
                assert(decreases_to!(*v => v@));
                assert(decreases_to!(v@ => v@[i as int]));
            }
            let c = v[i].deep_clone();
            out.push(Box::new(c));
            i += 1;
        }
        proof {
            lemma_sview_list(out@, out@.len());
            lemma_sview_list(v@, v@.len());
            assert(sview_list(out@, out@.len()) =~= sview_list(v@, v@.len()));
        }
        out
    }

    fn clone_opt(o: &Option<Box<Schema>>) -> (r: Option<Box<Schema>>)
        ensures
            sview_opt(r) == sview_opt(*o),
        decreases *o, 0nat,
    {
        match o {
            Some(b) => {
                proof {
                    assert(decreases_to!(*o => (*o)->Some_0));
                }
                Some(Box::new((**b).deep_clone()))
            },
            None => None,
        }
    }

    /// A copy of the whole schema tree.
    #[verifier::spinoff_prover]
    #[verifier::rlimit(60)]
    pub fn deep_clone(&self) -> (r: Schema)
        ensures
            r@ == self@,
        decreases *self, 1nat,
    {
        proof {
            assert(decreases_to!(*self => self.properties));
            assert(decreases_to!(*self => self.defs));
            assert(decreases_to!(*self => self.items));
            assert(decreases_to!(*self => self.prefix_items));
            assert(decreases_to!(*self => self.all_of));
            assert(decreases_to!(*self => self.any_of));
            assert(decreases_to!(*self => self.one_of));
            assert(decreases_to!(*self => self.not));
            assert(decreases_to!(*self => self.if_));
            assert(decreases_to!(*self => self.then_));
            assert(decreases_to!(*self => self.else_));
            assert(decreases_to!(*self => self.additional_properties));
            if self.additional_properties is Some {
                assert(decreases_to!(self.additional_properties => self.additional_properties->Some_0));
            }
        }
        let r = Schema {
            ref_: self.ref_.clone(),
            title: self.title.clone(),
            description: self.description.clone(),
            type_: clone_json_opt(&self.type_),
            format: self.format.clone(),
            nullable: self.nullable,
            enum_: clone_json_list(&self.enum_),
            default: clone_json_opt(&self.default),
            example: clone_json_opt(&self.example),
            properties: Schema::clone_map(&self.properties),
            required: clone_strings(&self.required),
            additional_properties: match &self.additional_properties {
                Some(a) => Some(Box::new(a.deep_clone())),
                None => None,
            },
            min_properties: self.min_properties,
            max_properties: self.max_properties,
            items: Schema::clone_opt(&self.items),
            min_items: self.min_items,
            max_items: self.max_items,
            unique_items: self.unique_items,
            prefix_items: Schema::clone_list(&self.prefix_items),
            min_length: self.min_length,
            max_length: self.max_length,
            pattern: self.pattern.clone(),
            minimum: self.minimum.clone(),
            maximum: self.maximum.clone(),
            exclusive_minimum: clone_json_opt(&self.exclusive_minimum),
            exclusive_maximum: clone_json_opt(&self.exclusive_maximum),
            multiple_of: self.multiple_of.clone(),
            all_of: Schema::clone_list(&self.all_of),
            any_of: Schema::clone_list(&self.any_of),
            one_of: Schema::clone_list(&self.one_of),
            not: Schema::clone_opt(&self.not),
            if_: Schema::clone_opt(&self.if_),
            then_: Schema::clone_opt(&self.then_),
            else_: Schema::clone_opt(&self.else_),
            discriminator: clone_discriminator(&self.discriminator),
            read_only: self.read_only,
            write_only: self.write_only,
            deprecated: self.deprecated,
            external_docs: clone_docs(&self.external_docs),
            defs: Schema::clone_map(&self.defs),
        };
        r
    }
}


/// A copy of an optional list of JSON values.
fn clone_json_list(o: &Option<Vec<JsonValue>>) -> (r: Option<Vec<JsonValue>>)
    ensures
        jlist(r) == jlist(*o),
{
    match o {
        Some(v) => {
            let mut out: Vec<JsonValue> = Vec::new();
            let mut i: usize = 0;
            while i < v.len()
                invariant
                    i <= v@.len(),
                    out@.len() == i,
                    forall|j: int| 0 <= j < i ==> jview(#[trigger] out@[j]) == jview(v@[j]),
                decreases v@.len() - i,
            {
                out.push(v[i].deep_clone());
                i += 1;
            }
            proof {
                lemma_jview_seq_same(out@, v@, v@.len());
            }
            Some(out)
        },
        None => None,
    }
}


/// A copy of a map of strings.
fn clone_string_map(m: &OrderedMap<String>) -> (r: OrderedMap<String>)
    ensures
        r@ == m@,
{
    let mut out: OrderedMap<String> = OrderedMap::new();
    let mut i: usize = 0;
    while i < m.len()
        invariant
            i <= m@.len(),
            out@ == m@.take(i as int),
        decreases m@.len() - i,
    {
        proof {
            assert forall|j: int| 0 <= j < i implies #[trigger] out@[j].0 == m@[j].0 by {
                assert(out@[j] == m@.take(i as int)[j]);
            }
            lemma_fresh_key(out@, m@, i as int);
        }
        out.push_entry(m.key_at(i).clone(), m.value_at(i).clone());
        proof {
            assert(out@ =~= m@.take(i + 1));
        }
        i += 1;
    }
    assert(out@ =~= m@);
    out
}

fn clone_discriminator(d: &Option<Discriminator>) -> (r: Option<Discriminator>)
    ensures
        dview(r) == dview(*d),
{
    match d {
        Some(x) => Some(Discriminator {
            property_name: x.property_name.clone(),
            mapping: clone_string_map(&x.mapping),
        }),
        None => None,
    }
}

fn clone_docs(d: &Option<ExternalDocs>) -> (r: Option<ExternalDocs>)
    ensures
        r == *d,
{
    match d {
        Some(x) => Some(ExternalDocs { url: x.url.clone(), description: x.description.clone() }),
        None => None,
    }
}

impl AdditionalProperties {
    /// A copy of the whole value.
    pub fn deep_clone(&self) -> (r: AdditionalProperties)
        ensures
            aview(r) == aview(*self),
        decreases *self, 1nat,
    {
        match self {
            AdditionalProperties::Bool(b) => AdditionalProperties::Bool(*b),
            AdditionalProperties::Schema(s) => {
                proof {
                    assert(decreases_to!(*self => (*self)->Schema_0));
                }
                AdditionalProperties::Schema(s.deep_clone())
            },
        }
    }
}

impl Clone for Schema {
    fn clone(&self) -> (r: Self)
        ensures
            r@ == self@,
    {
        self.deep_clone()
    }
}

impl Clone for AdditionalProperties {
    fn clone(&self) -> (r: Self)
        ensures
            aview(r) == aview(*self),
    {
        self.deep_clone()
    }
}

// ── Schemas as values ────────────────────────────────────────────────────────

/// A schema with its JSON values and nested schemas taken as values, so that two
/// schemas with the same content have the same view.
pub struct SchemaView {
    pub ref_: Option<String>,
    pub title: Option<String>,
    pub description: Option<String>,
    pub type_: Option<JsonView>,
    pub format: Option<String>,
    pub nullable: Option<bool>,
    pub enum_: Option<Seq<JsonView>>,
    pub default: Option<JsonView>,
    pub example: Option<JsonView>,
    pub properties: Seq<(Seq<char>, SchemaView)>,
    pub required: Seq<String>,
    pub additional_properties: Option<AdditionalView>,
    pub min_properties: Option<u64>,
    pub max_properties: Option<u64>,
    pub items: Option<Box<SchemaView>>,
    pub min_items: Option<u64>,
    pub max_items: Option<u64>,
    pub unique_items: Option<bool>,
    pub prefix_items: Seq<SchemaView>,
    pub min_length: Option<u64>,
    pub max_length: Option<u64>,
    pub pattern: Option<String>,
    pub minimum: Option<String>,
    pub maximum: Option<String>,
    pub exclusive_minimum: Option<JsonView>,
    pub exclusive_maximum: Option<JsonView>,
    pub multiple_of: Option<String>,
    pub all_of: Seq<SchemaView>,
    pub any_of: Seq<SchemaView>,
    pub one_of: Seq<SchemaView>,
    pub not: Option<Box<SchemaView>>,
    pub if_: Option<Box<SchemaView>>,
    pub then_: Option<Box<SchemaView>>,
    pub else_: Option<Box<SchemaView>>,
    pub discriminator: Option<(String, Seq<(Seq<char>, String)>)>,
    pub read_only: Option<bool>,
    pub write_only: Option<bool>,
    pub deprecated: Option<bool>,
    pub external_docs: Option<ExternalDocs>,
    pub defs: Seq<(Seq<char>, SchemaView)>,
}

/// `additionalProperties` as a value.
pub enum AdditionalView {
    Bool(bool),
    Schema(Box<SchemaView>),
}


pub open spec fn jlist(o: Option<Vec<JsonValue>>) -> Option<Seq<JsonView>> {
    match o {
        Some(v) => Some(jview_seq(v@, v@.len())),
        None => None,
    }
}

pub open spec fn dview(d: Option<Discriminator>) -> Option<(String, Seq<(Seq<char>, String)>)> {
    match d {
        Some(x) => Some((x.property_name, x.mapping@)),
        None => None,
    }
}

pub open spec fn sview(s: Schema) -> SchemaView
    decreases s, 0nat,
{
    proof {
        assert(decreases_to!(s => s.properties));
        assert(decreases_to!(s => s.defs));
        assert(decreases_to!(s => s.items));
        assert(decreases_to!(s => s.prefix_items));
        assert(decreases_to!(s.prefix_items => s.prefix_items@));
        assert(decreases_to!(s => s.all_of));
        assert(decreases_to!(s.all_of => s.all_of@));
        assert(decreases_to!(s => s.any_of));
        assert(decreases_to!(s.any_of => s.any_of@));
        assert(decreases_to!(s => s.one_of));
        assert(decreases_to!(s.one_of => s.one_of@));
        assert(decreases_to!(s => s.not));
        assert(decreases_to!(s => s.if_));
        assert(decreases_to!(s => s.then_));
        assert(decreases_to!(s => s.else_));
        assert(decreases_to!(s => s.additional_properties));
        if s.additional_properties is Some {
            assert(decreases_to!(s.additional_properties => s.additional_properties->Some_0));
        }
    }
    SchemaView {
        ref_: s.ref_,
        title: s.title,
        description: s.description,
        type_: jopt(s.type_),
        format: s.format,
        nullable: s.nullable,
        enum_: jlist(s.enum_),
        default: jopt(s.default),
        example: jopt(s.example),
        properties: sview_map(s.properties, s.properties@.len()),
        required: s.required@,
        additional_properties: match s.additional_properties {
            Some(a) => Some(aview(*a)),
            None => None,
        },
        min_properties: s.min_properties,
        max_properties: s.max_properties,
        items: sview_opt(s.items),
        min_items: s.min_items,
        max_items: s.max_items,
        unique_items: s.unique_items,
        prefix_items: sview_list(s.prefix_items@, s.prefix_items@.len()),
        min_length: s.min_length,
        max_length: s.max_length,
        pattern: s.pattern,
        minimum: s.minimum,
        maximum: s.maximum,
        exclusive_minimum: jopt(s.exclusive_minimum),
        exclusive_maximum: jopt(s.exclusive_maximum),
        multiple_of: s.multiple_of,
        all_of: sview_list(s.all_of@, s.all_of@.len()),
        any_of: sview_list(s.any_of@, s.any_of@.len()),
        one_of: sview_list(s.one_of@, s.one_of@.len()),
        not: sview_opt(s.not),
        if_: sview_opt(s.if_),
        then_: sview_opt(s.then_),
        else_: sview_opt(s.else_),
        discriminator: dview(s.discriminator),
        read_only: s.read_only,
        write_only: s.write_only,
        deprecated: s.deprecated,
        external_docs: s.external_docs,
        defs: sview_map(s.defs, s.defs@.len()),
    }
}

pub open spec fn aview(a: AdditionalProperties) -> AdditionalView
    decreases a, 0nat,
{
    match a {
        AdditionalProperties::Bool(b) => AdditionalView::Bool(b),
        AdditionalProperties::Schema(x) => {
            proof {
                assert(decreases_to!(a => a->Schema_0));
            }
            AdditionalView::Schema(Box::new(sview(x)))
        },
    }
}

pub open spec fn sview_opt(o: Option<Box<Schema>>) -> Option<Box<SchemaView>>
    decreases o, 0nat,
{
    match o {
        Some(b) => {
            proof {
                assert(decreases_to!(o => o->Some_0));
            }
            Some(Box::new(sview(*b)))
        },
        None => None,
    }
}

/// Views of the first `n` schemas of a list.
pub open spec fn sview_list(v: Seq<Box<Schema>>, n: nat) -> Seq<SchemaView>
    decreases v, n,
{
    if n == 0 || n > v.len() {
        Seq::empty()
    } else {
        proof {
            assert(decreases_to!(v => v[n - 1]));
        }
        sview_list(v, (n - 1) as nat).push(sview(*v[n - 1]))
    }
}

/// Views of the first `n` entries of a map of schemas.
pub open spec fn sview_map(m: SchemaMap, n: nat) -> Seq<(Seq<char>, SchemaView)>
    decreases m, n,
{
    if n == 0 || n > m@.len() {
        Seq::empty()
    } else {
        proof {
            m.lemma_value_decreases(n - 1);
        }
        sview_map(m, (n - 1) as nat).push((m@[n - 1].0, sview(*m@[n - 1].1)))
    }
}

impl View for Schema {
    type V = SchemaView;

    open spec fn view(&self) -> SchemaView {
        sview(*self)
    }
}

proof fn lemma_sview_list(v: Seq<Box<Schema>>, n: nat)
    requires
        n <= v.len(),
    ensures
        sview_list(v, n).len() == n,
        forall|i: int| 0 <= i < n ==> #[trigger] sview_list(v, n)[i] == sview(*v[i]),
    decreases n,
{
    if n > 0 {
        lemma_sview_list(v, (n - 1) as nat);
    }
}

proof fn lemma_sview_map(m: SchemaMap, n: nat)
    requires
        n <= m@.len(),
    ensures
        sview_map(m, n).len() == n,
        forall|i: int| 0 <= i < n ==> #[trigger] sview_map(m, n)[i] == (m@[i].0, sview(*m@[i].1)),
    decreases n,
{
    if n > 0 {
        lemma_sview_map(m, (n - 1) as nat);
    }
}

impl Default for Schema {
    fn default() -> (r: Self)
        ensures
            r.is_default_value(),
    {
        Schema {
            ref_: None,
            title: None,
            description: None,
            type_: None,
            format: None,
            nullable: None,
            enum_: None,
            default: None,
            example: None,
            properties: SchemaMap::new(),
            required: Vec::new(),
            additional_properties: None,
            min_properties: None,
            max_properties: None,
            items: None,
            min_items: None,
            max_items: None,
            unique_items: None,
            prefix_items: Vec::new(),
            min_length: None,
            max_length: None,
            pattern: None,
            minimum: None,
            maximum: None,
            exclusive_minimum: None,
            exclusive_maximum: None,
            multiple_of: None,
            all_of: Vec::new(),
            any_of: Vec::new(),
            one_of: Vec::new(),
            not: None,
            if_: None,
            then_: None,
            else_: None,
            discriminator: None,
            read_only: None,
            write_only: None,
            deprecated: None,
            external_docs: None,
            defs: SchemaMap::new(),
        }
    }
}

// ── Operations of a path item ────────────────────────────────────────────────

/// The HTTP methods of a path item, in the order in which the document lists them.
pub open spec fn method_name(i: int) -> Seq<char> {
    if i == 0 {
        "GET"@
    } else if i == 1 {
        "PUT"@
    } else if i == 2 {
        "POST"@
    } else if i == 3 {
        "DELETE"@
    } else if i == 4 {
        "OPTIONS"@
    } else if i == 5 {
        "HEAD"@
    } else if i == 6 {
        "PATCH"@
    } else {
        "TRACE"@
    }
}

/// The slot that a method name selects, or `-1` for a name that is not a method.
pub open spec fn method_slot(m: Seq<char>) -> int {
    if m == "GET"@ {
        0
    } else if m == "PUT"@ {
        1
    } else if m == "POST"@ {
        2
    } else if m == "DELETE"@ {
        3
    } else if m == "OPTIONS"@ {
        4
    } else if m == "HEAD"@ {
        5
    } else if m == "PATCH"@ {
        6
    } else if m == "TRACE"@ {
        7
    } else {
        -1
    }
}

impl PathItem {
    /// The operation stored in slot `i`.
    pub open spec fn slot(&self, i: int) -> Option<Operation> {
        if i == 0 {
            self.get
        } else if i == 1 {
            self.put
        } else if i == 2 {
            self.post
        } else if i == 3 {
            self.delete
        } else if i == 4 {
            self.options
        } else if i == 5 {
            self.head
        } else if i == 6 {
            self.patch
        } else if i == 7 {
            self.trace
        } else {
            None
        }
    }

    /// This path item with slot `i` replaced by `o`.
    pub open spec fn with_slot(&self, i: int, o: Option<Operation>) -> PathItem {
        if i == 0 {
            PathItem { get: o, ..*self }
        } else if i == 1 {
            PathItem { put: o, ..*self }
        } else if i == 2 {
            PathItem { post: o, ..*self }
        } else if i == 3 {
            PathItem { delete: o, ..*self }
        } else if i == 4 {
            PathItem { options: o, ..*self }
        } else if i == 5 {
            PathItem { head: o, ..*self }
        } else if i == 6 {
            PathItem { patch: o, ..*self }
        } else if i == 7 {
            PathItem { trace: o, ..*self }
        } else {
            *self
        }
    }

    /// The operations present among the first `n` slots, with their method names.
    pub open spec fn present_ops(&self, n: int) -> Seq<(Seq<char>, Operation)>
        decreases n,
    {
        if n <= 0 {
            Seq::empty()
        } else {
            let prev = self.present_ops(n - 1);
            match self.slot(n - 1) {
                Some(op) => prev.push((method_name(n - 1), op)),
                None => prev,
            }
        }
    }

    /// The operations of this path item in method order.
    pub open spec fn operations_spec(&self) -> Seq<(Seq<char>, Operation)> {
        self.present_ops(8)
    }

    pub fn operations(&self) -> (r: Vec<(&'static str, &Operation)>)
        ensures
            r@.map_values(|p: (&'static str, &Operation)| (p.0@, *p.1)) == self.operations_spec(),
    {
        let mut ops: Vec<(&'static str, &Operation)> = Vec::new();
        assert(self.present_ops(0) =~= Seq::<(Seq<char>, Operation)>::empty());
        if let Some(op) = &self.get {
            ops.push(("GET", op));
        }
        assert(ops@.map_values(|p: (&'static str, &Operation)| (p.0@, *p.1)) =~= self.present_ops(1));
        if let Some(op) = &self.put {
            ops.push(("PUT", op));
        }
        assert(ops@.map_values(|p: (&'static str, &Operation)| (p.0@, *p.1)) =~= self.present_ops(2));
        if let Some(op) = &self.post {
            ops.push(("POST", op));
        }
        assert(ops@.map_values(|p: (&'static str, &Operation)| (p.0@, *p.1)) =~= self.present_ops(3));
        if let Some(op) = &self.delete {
            ops.push(("DELETE", op));
        }
        assert(ops@.map_values(|p: (&'static str, &Operation)| (p.0@, *p.1)) =~= self.present_ops(4));
        if let Some(op) = &self.options {
            ops.push(("OPTIONS", op));
        }
        assert(ops@.map_values(|p: (&'static str, &Operation)| (p.0@, *p.1)) =~= self.present_ops(5));
        if let Some(op) = &self.head {
            ops.push(("HEAD", op));
        }
        assert(ops@.map_values(|p: (&'static str, &Operation)| (p.0@, *p.1)) =~= self.present_ops(6));
        if let Some(op) = &self.patch {
            ops.push(("PATCH", op));
        }
        assert(ops@.map_values(|p: (&'static str, &Operation)| (p.0@, *p.1)) =~= self.present_ops(7));
        if let Some(op) = &self.trace {
            ops.push(("TRACE", op));
        }
        assert(ops@.map_values(|p: (&'static str, &Operation)| (p.0@, *p.1)) =~= self.present_ops(8));
        ops
    }

    /// Mutable access to the operation of `method`, when that method has one.
    pub fn operation_mut(&mut self, method: &str) -> (r: Option<&mut Operation>)
        ensures
            match old(self).slot(method_slot(method@)) {
                Some(op) => r is Some && *r->0 == op && *final(self) == old(self).with_slot(
                    method_slot(method@),
                    Some(*final(r->0)),
                ),
                None => r is None && *final(self) == *old(self),
            },
    {
        if str_eq(method, "GET") {
            self.get.as_mut()
        } else if str_eq(method, "PUT") {
            self.put.as_mut()
        } else if str_eq(method, "POST") {
            self.post.as_mut()
        } else if str_eq(method, "DELETE") {
            self.delete.as_mut()
        } else if str_eq(method, "OPTIONS") {
            self.options.as_mut()
        } else if str_eq(method, "HEAD") {
            self.head.as_mut()
        } else if str_eq(method, "PATCH") {
            self.patch.as_mut()
        } else if str_eq(method, "TRACE") {
            self.trace.as_mut()
        } else {
            None
        }
    }

    /// Puts `op` into the slot of `method`; a name that is not a method changes nothing.
    pub fn set_operation(&mut self, method: &str, op: Option<Operation>)
        ensures
            *final(self) == old(self).with_slot(method_slot(method@), op),
    {
        if str_eq(method, "GET") {
            self.get = op;
        } else if str_eq(method, "PUT") {
            self.put = op;
        } else if str_eq(method, "POST") {
            self.post = op;
        } else if str_eq(method, "DELETE") {
            self.delete = op;
        } else if str_eq(method, "OPTIONS") {
            self.options = op;
        } else if str_eq(method, "HEAD") {
            self.head = op;
        } else if str_eq(method, "PATCH") {
            self.patch = op;
        } else if str_eq(method, "TRACE") {
            self.trace = op;
        }
    }
}

} // verus!
