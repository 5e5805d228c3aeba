use oai_enchant::editor::{App, Selection};
use oai_enchant::lint::{extract_path_params, lint, Diagnostic, Level};
use oai_enchant::model::{
    Components, OpenApiSpec, Operation, Parameter, PathItem, Ref, RefOr, Response, Schema, Tag,
};

fn titled_spec() -> OpenApiSpec {
    let mut spec = OpenApiSpec::default();
    spec.openapi = "3.1.0".to_string();
    spec.info.title = "Pets".to_string();
    spec.info.version = "1.0.0".to_string();
    spec.info.description = Some("A pet store".to_string());
    spec
}

fn ok_operation(id: &str) -> Operation {
    let mut op = Operation::default();
    op.operation_id = Some(id.to_string());
    let mut r = Response::default();
    r.description = "OK".to_string();
    op.responses.insert("200".to_string(), RefOr::Item(r));
    op
}

fn with_get(spec: &mut OpenApiSpec, path: &str, op: Operation) {
    let mut item = PathItem::default();
    item.get = Some(op);
    spec.paths.insert(path.to_string(), item);
}

fn messages(d: &[Diagnostic]) -> Vec<(Level, String)> {
    d.iter().map(|x| (x.level, x.message.clone())).collect()
}

#[test]
fn empty_document_findings_sorted_by_level() {
    let spec = OpenApiSpec::default();
    let d = lint(&spec);
    assert_eq!(
        messages(&d),
        vec![
            (Level::Error, "API title is empty".to_string()),
            (Level::Warning, "API version is empty".to_string()),
            (Level::Info, "API description is missing".to_string()),
            (Level::Info, "No paths or webhooks defined".to_string()),
        ]
    );
    assert_eq!(d[0].goto, Some(Selection::Info));
    assert_eq!(d[3].goto, None);
}

#[test]
fn new_document_only_notes() {
    let mut app = App::new();
    app.new_spec();
    let d = lint(app.spec.as_ref().unwrap());
    assert_eq!(
        messages(&d),
        vec![
            (Level::Info, "API description is missing".to_string()),
            (Level::Info, "No paths or webhooks defined".to_string()),
        ]
    );
}

#[test]
fn blank_title_counts_as_empty() {
    let mut spec = titled_spec();
    spec.info.title = "   ".to_string();
    with_get(&mut spec, "/pets", ok_operation("listPets"));
    let d = lint(&spec);
    assert_eq!(messages(&d), vec![(Level::Error, "API title is empty".to_string())]);
}

#[test]
fn operation_without_id_and_responses() {
    let mut spec = titled_spec();
    with_get(&mut spec, "/pets", Operation::default());
    let d = lint(&spec);
    assert_eq!(
        messages(&d),
        vec![
            (Level::Error, "GET /pets: no responses defined".to_string()),
            (Level::Warning, "GET /pets: missing operationId".to_string()),
        ]
    );
    assert_eq!(d[0].goto, Some(Selection::Operation("/pets".to_string(), "GET".to_string())));
}

#[test]
fn no_success_response_and_empty_description() {
    let mut spec = titled_spec();
    let mut op = Operation::default();
    op.operation_id = Some("getPet".to_string());
    op.responses.insert("404".to_string(), RefOr::Item(Response::default()));
    with_get(&mut spec, "/pets", op);
    let d = lint(&spec);
    assert_eq!(
        messages(&d),
        vec![
            (Level::Warning, "GET /pets: no 2xx/3xx/default response defined".to_string()),
            (Level::Warning, "GET /pets [404]: response description is empty".to_string()),
        ]
    );
}

#[test]
fn template_parameter_without_definition() {
    let mut spec = titled_spec();
    with_get(&mut spec, "/pets/{id}", ok_operation("getPet"));
    let d = lint(&spec);
    assert_eq!(
        messages(&d),
        vec![(Level::Warning, "GET /pets/{id}: {id} in URL has no parameter definition".to_string())]
    );
}

#[test]
fn path_parameter_not_in_template() {
    let mut spec = titled_spec();
    let mut op = ok_operation("getPet");
    let mut p = Parameter::default();
    p.name = "petId".to_string();
    p.in_ = "path".to_string();
    op.parameters.push(RefOr::Item(p));
    with_get(&mut spec, "/pets/{id}", op);
    let d = lint(&spec);
    assert_eq!(
        messages(&d),
        vec![
            (Level::Warning, "GET /pets/{id}: path parameter 'petId' not in URL template".to_string()),
            (Level::Warning, "GET /pets/{id}: {id} in URL has no parameter definition".to_string()),
        ]
    );
}

#[test]
fn duplicate_operation_ids_reported_for_each() {
    let mut spec = titled_spec();
    with_get(&mut spec, "/a", ok_operation("same"));
    with_get(&mut spec, "/b", ok_operation("same"));
    let d = lint(&spec);
    assert_eq!(
        messages(&d),
        vec![
            (Level::Error, "GET /a: duplicate operationId 'same'".to_string()),
            (Level::Error, "GET /b: duplicate operationId 'same'".to_string()),
        ]
    );
}

#[test]
fn broken_references() {
    let mut spec = titled_spec();
    let mut op = ok_operation("getA");
    op.responses.insert(
        "500".to_string(),
        RefOr::Ref(Ref::to("#/components/responses/Missing".to_string())),
    );
    op.request_body = Some(RefOr::Ref(Ref::to("#/components/requestBodies/Nope".to_string())));
    op.parameters.push(RefOr::Ref(Ref::to("#/components/parameters/P".to_string())));
    with_get(&mut spec, "/a", op);
    let d = lint(&spec);
    assert_eq!(
        messages(&d),
        vec![
            (Level::Error, "GET /a [500]: broken $ref '#/components/responses/Missing'".to_string()),
            (Level::Error, "GET /a: broken requestBody $ref '#/components/requestBodies/Nope'".to_string()),
            (Level::Error, "GET /a: broken parameter $ref '#/components/parameters/P'".to_string()),
        ]
    );
}

#[test]
fn undeclared_tag() {
    let mut spec = titled_spec();
    let mut op = ok_operation("listPets");
    op.tags.push("pets".to_string());
    op.tags.push("known".to_string());
    spec.tags.push(Tag { name: "known".to_string(), description: None, external_docs: None });
    with_get(&mut spec, "/pets", op);
    let d = lint(&spec);
    assert_eq!(
        messages(&d),
        vec![(Level::Warning, "GET /pets: tag 'pets' not declared in global Tags".to_string())]
    );
}

#[test]
fn broken_schema_reference() {
    let mut spec = titled_spec();
    with_get(&mut spec, "/a", ok_operation("a"));
    let mut c = Components::default();
    c.schemas.insert("A".to_string(), RefOr::Ref(Ref::to("#/components/schemas/B".to_string())));
    c.schemas.insert("C".to_string(), RefOr::Ref(Ref::to("#/components/schemas/A".to_string())));
    c.schemas.insert("D".to_string(), RefOr::Item(Schema::default()));
    spec.components = Some(c);
    let d = lint(&spec);
    assert_eq!(
        messages(&d),
        vec![(Level::Error, "Schema 'A': broken $ref '#/components/schemas/B'".to_string())]
    );
    assert_eq!(d[0].goto, Some(Selection::Schema("A".to_string())));
}

#[test]
fn path_params_in_order_without_repeats() {
    assert_eq!(extract_path_params("/users/{id}/posts/{postId}/{id}"), vec!["id", "postId"]);
    assert_eq!(extract_path_params("/plain"), Vec::<String>::new());
    assert_eq!(extract_path_params("/open/{x"), Vec::<String>::new());
    assert_eq!(extract_path_params("/{a}{b}"), vec!["a", "b"]);
}

#[test]
fn diagnostic_constructors() {
    let e = Diagnostic::error("bad".to_string(), None);
    let w = Diagnostic::warning("meh".to_string(), Some(Selection::Info));
    let i = Diagnostic::info("fyi".to_string(), None);
    assert_eq!(e.level, Level::Error);
    assert_eq!(w.level, Level::Warning);
    assert_eq!(w.goto, Some(Selection::Info));
    assert_eq!(i.level, Level::Info);
    assert_eq!(i.message, "fyi");
}
