use oai_enchant::editor::{unique_name, unique_path_key, App, Selection};
use oai_enchant::lint::lint;
use oai_enchant::model::{FileFormat, Operation, RefOr};
use oai_enchant::ordered_map::OrderedMap;

fn app_with_doc() -> App {
    let mut app = App::new();
    app.new_spec();
    app.dirty = false;
    app
}

fn keys<T>(m: &OrderedMap<T>) -> Vec<String> {
    (0..m.len()).map(|i| m.key_at(i).clone()).collect()
}

#[test]
fn fresh_app_state() {
    let app = App::new();
    assert!(app.spec.is_none());
    assert_eq!(app.format, FileFormat::Yaml);
    assert_eq!(app.selection, Selection::Nothing);
    assert!(!app.dirty);
    assert_eq!(app.status, "Ready. Open or create an OpenAPI specification.");
}

#[test]
fn new_spec_defaults() {
    let mut app = App::new();
    app.new_spec();
    let spec = app.spec.as_ref().unwrap();
    assert_eq!(spec.openapi, "3.1.0");
    assert_eq!(spec.info.title, "New API");
    assert_eq!(spec.info.version, "1.0.0");
    assert!(app.dirty);
    assert_eq!(app.selection, Selection::Info);
    assert_eq!(app.status, "New specification created.");
}

#[test]
fn add_schema_once_and_select() {
    let mut app = app_with_doc();
    app.add_schema("Pet".to_string());
    app.add_schema("Pet".to_string());
    let c = app.spec.as_ref().unwrap().components.as_ref().unwrap();
    assert_eq!(keys(&c.schemas), vec!["Pet"]);
    assert!(app.dirty);
    assert_eq!(app.selection, Selection::Schema("Pet".to_string()));
}

#[test]
fn add_schema_without_document_does_nothing() {
    let mut app = App::new();
    app.add_schema("Pet".to_string());
    assert!(app.spec.is_none());
    assert!(!app.dirty);
}

#[test]
fn duplicate_schema_names() {
    let mut app = app_with_doc();
    app.add_schema("Pet".to_string());
    app.duplicate_schema("Pet");
    assert_eq!(app.selection, Selection::Schema("Pet copy".to_string()));
    app.duplicate_schema("Pet");
    let c = app.spec.as_ref().unwrap().components.as_ref().unwrap();
    assert_eq!(keys(&c.schemas), vec!["Pet", "Pet copy", "Pet copy 2"]);
    assert_eq!(app.selection, Selection::Schema("Pet copy 2".to_string()));
}

#[test]
fn delete_schema_clears_its_selection() {
    let mut app = app_with_doc();
    app.add_schema("Pet".to_string());
    app.add_schema("Owner".to_string());
    app.delete_schema("Owner");
    assert_eq!(app.selection, Selection::Nothing);
    app.selection = Selection::Schema("Pet".to_string());
    app.delete_schema("Missing");
    assert_eq!(app.selection, Selection::Schema("Pet".to_string()));
    let c = app.spec.as_ref().unwrap().components.as_ref().unwrap();
    assert_eq!(keys(&c.schemas), vec!["Pet"]);
}

#[test]
fn other_components_add_and_duplicate() {
    let mut app = app_with_doc();
    app.add_request_body("Body".to_string());
    app.add_component_response("NotFound".to_string());
    app.add_component_parameter("Limit".to_string());
    app.add_example("Sample".to_string());
    app.duplicate_example("Sample");
    app.duplicate_component_parameter("Limit");
    app.duplicate_component_response("NotFound");
    app.duplicate_request_body("Body");
    let c = app.spec.as_ref().unwrap().components.as_ref().unwrap();
    assert_eq!(keys(&c.request_bodies), vec!["Body", "Body copy"]);
    assert_eq!(keys(&c.responses), vec!["NotFound", "NotFound copy"]);
    assert_eq!(keys(&c.parameters), vec!["Limit", "Limit copy"]);
    assert_eq!(keys(&c.examples), vec!["Sample", "Sample copy"]);
    app.delete_example("Sample copy");
    app.delete_request_body("Body");
    app.delete_component_response("NotFound");
    app.delete_component_parameter("Limit copy");
    let c = app.spec.as_ref().unwrap().components.as_ref().unwrap();
    assert_eq!(keys(&c.examples), vec!["Sample"]);
    assert_eq!(keys(&c.request_bodies), vec!["Body copy"]);
    assert_eq!(keys(&c.responses), vec!["NotFound copy"]);
    assert_eq!(keys(&c.parameters), vec!["Limit"]);
}

#[test]
fn add_path_adds_leading_slash() {
    let mut app = app_with_doc();
    app.add_path("pets".to_string());
    app.add_path("/pets".to_string());
    app.add_path(String::new());
    let spec = app.spec.as_ref().unwrap();
    assert_eq!(keys(&spec.paths), vec!["/pets"]);
    assert_eq!(app.selection, Selection::Path("/pets".to_string()));
}

#[test]
fn add_operation_to_path() {
    let mut app = app_with_doc();
    app.add_path("/pets".to_string());
    app.add_operation("/pets", "POST");
    let item = app.spec.as_ref().unwrap().paths.get("/pets").unwrap();
    assert!(item.post.is_some());
    assert!(item.get.is_none());
    assert_eq!(app.selection, Selection::Operation("/pets".to_string(), "POST".to_string()));
    app.add_operation("/missing", "GET");
    assert_eq!(app.spec.as_ref().unwrap().paths.len(), 1);
}

#[test]
fn duplicate_and_delete_paths() {
    let mut app = app_with_doc();
    app.add_path("/pets".to_string());
    app.duplicate_path("/pets");
    app.duplicate_path("/pets");
    assert_eq!(keys(&app.spec.as_ref().unwrap().paths), vec!["/pets", "/pets_copy", "/pets_copy2"]);
    assert_eq!(app.selection, Selection::Path("/pets_copy2".to_string()));
    app.selection = Selection::Operation("/pets_copy".to_string(), "GET".to_string());
    app.delete_path("/pets_copy");
    assert_eq!(app.selection, Selection::Nothing);
    assert_eq!(keys(&app.spec.as_ref().unwrap().paths), vec!["/pets", "/pets_copy2"]);
}

#[test]
fn unique_names_skip_taken() {
    let mut m: OrderedMap<u8> = OrderedMap::new();
    assert_eq!(unique_name("Pet", &m), "Pet copy");
    m.insert("Pet copy".to_string(), 0);
    m.insert("Pet copy 2".to_string(), 0);
    assert_eq!(unique_name("Pet", &m), "Pet copy 3");
    let mut p: OrderedMap<u8> = OrderedMap::new();
    p.insert("/a_copy".to_string(), 0);
    assert_eq!(unique_path_key("/a", &p), "/a_copy2");
}

fn ids(op: &Option<Operation>) -> (String, String) {
    let op = op.as_ref().unwrap();
    (op.operation_id.clone().unwrap(), op.summary.clone().unwrap())
}

#[test]
fn default_crud_paths() {
    let mut app = app_with_doc();
    app.add_default_paths_for_schema("BlogPost".to_string());
    assert!(app.dirty);
    assert_eq!(app.selection, Selection::Path("/blog-posts".to_string()));
    assert_eq!(app.status, "Added default CRUD paths for BlogPost.");
    let spec = app.spec.as_ref().unwrap();
    assert_eq!(keys(&spec.paths), vec!["/blog-posts", "/blog-posts/{id}"]);
    let coll = spec.paths.get("/blog-posts").unwrap();
    assert_eq!(ids(&coll.get), ("listBlogPosts".to_string(), "List Blog Posts".to_string()));
    assert_eq!(ids(&coll.post), ("createBlogPost".to_string(), "Create BlogPost".to_string()));
    assert!(coll.put.is_none() && coll.delete.is_none());
    let item = spec.paths.get("/blog-posts/{id}").unwrap();
    assert_eq!(ids(&item.get), ("getBlogPost".to_string(), "Get BlogPost".to_string()));
    assert_eq!(ids(&item.put), ("updateBlogPost".to_string(), "Update BlogPost".to_string()));
    assert_eq!(ids(&item.patch), ("patchBlogPost".to_string(), "Partially Update BlogPost".to_string()));
    assert_eq!(ids(&item.delete), ("deleteBlogPost".to_string(), "Delete BlogPost".to_string()));
    assert!(item.post.is_none());

    let get = item.get.as_ref().unwrap();
    assert_eq!(keys(&get.responses), vec!["200", "404"]);
    match &get.parameters[0] {
        RefOr::Item(p) => {
            assert_eq!(p.name, "id");
            assert_eq!(p.in_, "path");
            assert_eq!(p.required, Some(true));
            match p.schema.as_ref().unwrap() {
                RefOr::Item(s) => assert_eq!(s.type_str(), "string"),
                RefOr::Ref(_) => panic!("inline schema expected"),
            }
        },
        RefOr::Ref(_) => panic!("inline parameter expected"),
    }
    let del = item.delete.as_ref().unwrap();
    assert_eq!(keys(&del.responses), vec!["204", "404"]);
    let post = coll.post.as_ref().unwrap();
    assert_eq!(keys(&post.responses), vec!["201"]);
    match post.request_body.as_ref().unwrap() {
        RefOr::Item(b) => {
            assert_eq!(b.required, Some(true));
            let media = b.content.get("application/json").unwrap();
            assert_eq!(media.schema.as_ref().unwrap().ref_str(), Some("#/components/schemas/BlogPost"));
        },
        RefOr::Ref(_) => panic!("inline body expected"),
    }
    let list = coll.get.as_ref().unwrap();
    match list.responses.get("200").unwrap() {
        RefOr::Item(r) => {
            assert_eq!(r.description, "OK");
            match r.content.get("application/json").unwrap().schema.as_ref().unwrap() {
                RefOr::Item(s) => {
                    assert_eq!(s.type_str(), "array");
                    assert_eq!(s.items.as_ref().unwrap().ref_.as_deref(), Some("#/components/schemas/BlogPost"));
                },
                RefOr::Ref(_) => panic!("inline array expected"),
            }
        },
        RefOr::Ref(_) => panic!("inline response expected"),
    }
}

#[test]
fn default_crud_paths_keep_existing_operations() {
    let mut app = app_with_doc();
    app.add_path("/categories".to_string());
    app.add_operation("/categories", "GET");
    app.add_default_paths_for_schema("Category".to_string());
    let spec = app.spec.as_ref().unwrap();
    let coll = spec.paths.get("/categories").unwrap();
    assert!(coll.get.as_ref().unwrap().operation_id.is_none());
    assert_eq!(ids(&coll.post), ("createCategory".to_string(), "Create Category".to_string()));
    app.add_default_paths_for_schema("Category".to_string());
    let spec = app.spec.as_ref().unwrap();
    assert_eq!(keys(&spec.paths), vec!["/categories", "/categories/{id}"]);
}

fn findings_at(app: &App, path: &str) -> usize {
    lint(app.spec.as_ref().unwrap())
        .iter()
        .filter(|d| matches!(&d.goto, Some(Selection::Operation(p, _)) if p == path))
        .count()
}

#[test]
fn default_crud_paths_draw_no_findings() {
    let mut app = app_with_doc();
    app.add_default_paths_for_schema("BlogPost".to_string());
    assert_eq!(findings_at(&app, "/blog-posts"), 0);
    assert_eq!(findings_at(&app, "/blog-posts/{id}"), 0);
}

#[test]
fn default_crud_paths_clash_with_a_taken_id() {
    let mut app = app_with_doc();
    app.add_path("/posts".to_string());
    app.add_operation("/posts", "GET");
    let paths = &mut app.spec.as_mut().unwrap().paths;
    let i = paths.index_of("/posts").unwrap();
    paths.value_at_mut(i).get.as_mut().unwrap().operation_id = Some("getBlogPost".to_string());
    app.add_default_paths_for_schema("BlogPost".to_string());
    assert_eq!(findings_at(&app, "/blog-posts"), 0);
    assert_eq!(findings_at(&app, "/blog-posts/{id}"), 1);
}

#[test]
fn default_crud_paths_need_a_document() {
    let mut app = App::new();
    app.add_default_paths_for_schema("Pet".to_string());
    assert!(app.spec.is_none());
    assert_eq!(app.selection, Selection::Nothing);
}

#[test]
fn ensure_components_creates_once() {
    let mut app = app_with_doc();
    app.ensure_components();
    assert!(app.spec.as_ref().unwrap().components.is_some());
    app.add_schema("A".to_string());
    app.ensure_components();
    assert_eq!(app.spec.as_ref().unwrap().components.as_ref().unwrap().schemas.len(), 1);
}

#[test]
fn duplicate_schema_copies_content() {
    let mut app = app_with_doc();
    app.add_schema("Pet".to_string());
    {
        let c = app.spec.as_mut().unwrap().components.as_mut().unwrap();
        let i = c.schemas.index_of("Pet").unwrap();
        if let RefOr::Item(s) = c.schemas.value_at_mut(i) {
            s.title = Some("A pet".to_string());
            s.set_type_str("object");
            s.add_property("name");
            s.set_required("name", true);
        }
    }
    app.duplicate_schema("Pet");
    let c = app.spec.as_ref().unwrap().components.as_ref().unwrap();
    assert_eq!(keys(&c.schemas), vec!["Pet", "Pet copy"]);
    match c.schemas.value_at(1) {
        RefOr::Item(s) => {
            assert_eq!(s.title.as_deref(), Some("A pet"));
            assert_eq!(s.type_str(), "object");
            assert_eq!(s.properties.len(), 1);
            assert_eq!(s.properties.key_at(0), "name");
            assert_eq!(s.required, vec!["name".to_string()]);
        }
        RefOr::Ref(_) => panic!("the copy of an inline schema is inline"),
    }
}
