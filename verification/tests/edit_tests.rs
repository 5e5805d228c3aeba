use oai_enchant::doc_edit::{example_uses, optional_text, PathRename};
use oai_enchant::document::{format_for_extension, SaveError};
use oai_enchant::editor::{App, Selection};
use oai_enchant::json::JsonValue;
use oai_enchant::model::{
    FileFormat, MediaType, OaExample, OpenApiSpec, Operation, PathItem, Ref, RefOr, RequestBody,
    Response, Schema, Tag,
};
use oai_enchant::operation_edit::{
    global_security_preview, parse_scopes, ref_short_name, requirement_label, unused_schemes,
    SecurityState,
};
use oai_enchant::ordered_map::OrderedMap;
use oai_enchant::schema_edit::{enum_lines, format_options, parse_u64, CompKind};
use oai_enchant::yaml::YamlValue;

fn prop_names(s: &Schema) -> Vec<String> {
    (0..s.properties.len()).map(|i| s.properties.key_at(i).clone()).collect()
}

fn keys<T>(m: &OrderedMap<T>) -> Vec<String> {
    (0..m.len()).map(|i| m.key_at(i).clone()).collect()
}

#[test]
fn properties_add_require_rename_move_remove() {
    let mut s = Schema::default();
    assert!(s.add_property("id"));
    assert!(s.add_property("name"));
    assert!(!s.add_property(""));
    s.set_required("id", true);
    s.set_required("id", true);
    assert_eq!(s.required, vec!["id"]);
    assert!(s.rename_property("id", "pk"));
    assert_eq!(prop_names(&s), vec!["name", "pk"]);
    assert_eq!(s.required, vec!["pk"]);
    assert!(!s.rename_property("pk", "name"));
    assert!(!s.rename_property("missing", "other"));
    assert!(s.move_property(1, 0));
    assert_eq!(prop_names(&s), vec!["pk", "name"]);
    assert!(!s.move_property(0, 1));
    assert!(s.move_property(0, 2));
    assert_eq!(prop_names(&s), vec!["name", "pk"]);
    s.remove_property("pk");
    assert_eq!(prop_names(&s), vec!["name"]);
    assert!(s.required.is_empty());
    s.set_required("name", true);
    s.set_required("name", false);
    assert!(s.required.is_empty());
}

#[test]
fn property_type_choices() {
    let mut p = Schema::default();
    p.set_type_choice("$ref");
    assert_eq!(p.ref_.as_deref(), Some(""));
    assert!(p.type_.is_none());
    assert_eq!(p.type_label(), "$ref");
    p.set_type_choice("integer");
    assert!(p.ref_.is_none());
    assert_eq!(p.type_label(), "integer");
    p.set_type_choice("");
    assert!(p.type_.is_none());
    let sec = {
        let mut o = Schema::default();
        o.set_type_str("object");
        o.sections()
    };
    assert!(sec.properties && !sec.string && !sec.number && !sec.array);
    assert!(Schema::default().sections().string);
}

#[test]
fn enum_values_and_boolean_defaults() {
    let mut p = Schema::default();
    p.add_enum_value();
    p.add_enum_value();
    p.set_enum_text(1, "b".to_string());
    assert_eq!(p.enum_.as_ref().unwrap().len(), 2);
    p.remove_enum_value(0);
    p.remove_enum_value(0);
    assert!(p.enum_.is_none());
    assert_eq!(p.bool_default_label(), "");
    p.set_bool_default("true");
    assert_eq!(p.bool_default_label(), "true");
    p.set_bool_default("false");
    assert!(matches!(p.default, Some(JsonValue::Bool(false))));
    p.set_bool_default("");
    assert!(p.default.is_none());
}

#[test]
fn formats_by_type() {
    assert_eq!(format_options("number"), vec!["", "float", "double"]);
    assert_eq!(format_options("integer"), vec!["", "int32", "int64"]);
    assert_eq!(format_options("boolean"), vec![""]);
    let f = format_options("string");
    assert_eq!(f.len(), 23);
    assert_eq!(f[1], "date");
    assert_eq!(f[22], "password");
}

#[test]
fn counts_typed_by_the_user() {
    assert_eq!(parse_u64("42"), Some(42));
    assert_eq!(parse_u64("+7"), Some(7));
    assert_eq!(parse_u64("007"), Some(7));
    assert_eq!(parse_u64("18446744073709551615"), Some(u64::MAX));
    assert_eq!(parse_u64("18446744073709551616"), None);
    assert_eq!(parse_u64(""), None);
    assert_eq!(parse_u64("+"), None);
    assert_eq!(parse_u64("-1"), None);
    assert_eq!(parse_u64("4 2"), None);
}

#[test]
fn enum_editor_lines() {
    assert_eq!(enum_lines("1\r\n\n  \n\"a\"\n"), vec!["1", "\"a\""]);
    assert_eq!(enum_lines("x\r"), vec!["x\r"]);
    assert!(enum_lines("").is_empty());
}

#[test]
fn composition_lists() {
    let mut s = Schema::default();
    assert!(!s.has_composition());
    assert_eq!(s.inferred_comp_kind(), CompKind::OneOf);
    s.add_comp_entry(CompKind::AnyOf);
    s.add_comp_entry(CompKind::AnyOf);
    assert_eq!(s.inferred_comp_kind(), CompKind::AnyOf);
    s.migrate_composition(CompKind::AnyOf, CompKind::AllOf);
    assert_eq!(s.all_of.len(), 2);
    assert!(s.any_of.is_empty());
    s.remove_comp_entry(CompKind::AllOf, 0);
    assert_eq!(s.comp_len(CompKind::AllOf), 1);
    assert_eq!(CompKind::AllOf.label(), "allOf");
    assert_eq!(CompKind::OneOf.label(), "oneOf");
    let e = s.comp_entry_mut(CompKind::AllOf, 0);
    assert_eq!(e.comp_entry_label(0), "Entry 1");
    e.set_entry_ref(true);
    e.ref_ = Some("#/components/schemas/Pet".to_string());
    assert_eq!(e.comp_entry_label(0), "$ref: #/components/schemas/Pet");
    e.set_entry_ref(false);
    e.set_type_str("string");
    assert_eq!(e.comp_entry_label(4), "string");
    s.set_discriminator_name("kind".to_string());
    assert_eq!(s.discriminator.as_ref().unwrap().property_name, "kind");
    s.set_discriminator_name(String::new());
    assert!(s.discriminator.is_none());
}

#[test]
fn operation_tags_parameters_responses() {
    let mut op = Operation::default();
    op.add_tag("pets".to_string());
    let defined = vec!["pets".to_string(), "store".to_string()];
    assert_eq!(op.unassigned_tags(&defined), vec!["store"]);
    op.remove_tag_at(0);
    assert!(op.tags.is_empty());
    op.add_query_parameter();
    let mut buf = "#/components/parameters/Limit".to_string();
    assert!(op.add_parameter_ref(&mut buf));
    assert!(buf.is_empty());
    assert!(!op.add_parameter_ref(&mut buf));
    assert_eq!(op.parameters.len(), 2);
    match &op.parameters[0] {
        RefOr::Item(p) => assert_eq!(p.in_, "query"),
        RefOr::Ref(_) => panic!("inline parameter expected"),
    }
    op.remove_parameter_at(0);
    assert_eq!(op.parameters[0].ref_str(), Some("#/components/parameters/Limit"));
    assert!(op.add_standard_response(10));
    assert!(!op.add_standard_response(10));
    assert!(op.add_standard_response(0));
    assert_eq!(keys(&op.responses), vec!["404", "200"]);
    match op.responses.get("404").unwrap() {
        RefOr::Item(r) => assert_eq!(r.description, "Not Found"),
        RefOr::Ref(_) => panic!("inline response expected"),
    }
    op.remove_response("404");
    assert_eq!(keys(&op.responses), vec!["200"]);
    op.add_request_body();
    assert!(op.request_body.is_some());
}

#[test]
fn operation_security_states() {
    let mut op = Operation::default();
    let schemes = vec!["apiKey".to_string(), "oauth".to_string()];
    assert_eq!(op.security_state(), SecurityState::Inherit);
    assert!(!op.set_security_state(SecurityState::Inherit, &schemes));
    assert!(op.set_security_state(SecurityState::Disabled, &schemes));
    assert_eq!(op.security.as_ref().unwrap().len(), 0);
    assert!(op.set_security_state(SecurityState::Custom, &schemes));
    let reqs = op.security.as_ref().unwrap();
    assert_eq!(reqs.len(), 1);
    assert_eq!(keys(&reqs[0]), vec!["apiKey"]);
    assert_eq!(unused_schemes(&schemes, &reqs[0]), vec!["oauth"]);
    assert!(op.set_security_state(SecurityState::Inherit, &schemes));
    assert!(op.security.is_none());
    assert!(op.set_security_state(SecurityState::Custom, &Vec::new()));
    assert_eq!(op.security.as_ref().unwrap()[0].len(), 0);
}

#[test]
fn security_texts() {
    assert_eq!(global_security_preview(&Vec::new()), "  ↳ No global security defined — this operation is open.");
    let mut a = OrderedMap::new();
    a.insert("k1".to_string(), Vec::new());
    a.insert("k2".to_string(), Vec::new());
    let mut b = OrderedMap::new();
    b.insert("oauth".to_string(), vec!["read".to_string()]);
    assert_eq!(global_security_preview(&vec![a, b]), "  ↳ Global: k1 + k2  |  oauth");
    assert_eq!(requirement_label(0, 2), "Option 1  (OR):");
    assert_eq!(requirement_label(0, 1), "Schemes:");
    assert_eq!(parse_scopes(" read, ,write "), vec!["read", "write"]);
    assert!(parse_scopes("").is_empty());
}

#[test]
fn content_types_and_examples() {
    let mut body = RequestBody::default();
    assert!(body.add_json_object());
    assert!(!body.add_json_ref());
    assert!(body.add_form_content(1));
    assert_eq!(keys(&body.content), vec!["application/json", "multipart/form-data"]);
    let json = body.content.get("application/json").unwrap();
    assert_eq!(json.schema_summary().as_deref(), Some("object"));
    let mut resp = Response::default();
    assert!(resp.add_content_type(1));
    assert!(resp.content.get("text/plain").unwrap().schema.is_none());
    let mut media = MediaType::default();
    assert_eq!(media.schema_summary(), None);
    media.set_empty_schema();
    assert_eq!(media.schema_summary().as_deref(), Some("(inline schema)"));
    assert!(media.link_example("one", "#/components/examples/One"));
    assert!(!media.link_example("", "#/components/examples/One"));
    assert_eq!(media.examples.get("one").unwrap().ref_str(), Some("#/components/examples/One"));
    assert_eq!(ref_short_name("#/components/schemas/Pet"), "Pet");
    assert_eq!(ref_short_name("Pet"), "Pet");
    assert_eq!(ref_short_name("a/"), "");
}

fn tagged_op(tags: &[&str]) -> Operation {
    let mut op = Operation::default();
    for t in tags {
        op.tags.push(t.to_string());
    }
    op.summary = Some("s".to_string());
    op
}

#[test]
fn tags_across_operations() {
    let mut spec = OpenApiSpec::default();
    spec.tags.push(Tag { name: "pets".to_string(), description: None, external_docs: None });
    spec.tags.push(Tag { name: "store".to_string(), description: None, external_docs: None });
    let mut item = PathItem::default();
    item.get = Some(tagged_op(&["pets", "store"]));
    item.post = Some(tagged_op(&["store"]));
    spec.paths.insert("/pets".to_string(), item);
    assert_eq!(spec.tag_index("store"), Some(1));
    assert_eq!(spec.tag_index("nope"), None);
    assert_eq!(
        spec.operations_with_tag("store"),
        vec![
            ("/pets".to_string(), "GET".to_string(), Some("s".to_string())),
            ("/pets".to_string(), "POST".to_string(), Some("s".to_string())),
        ]
    );
    spec.rename_tag(0, "animals".to_string());
    assert_eq!(spec.tags[0].name, "animals");
    let item = spec.paths.get("/pets").unwrap();
    assert_eq!(item.get.as_ref().unwrap().tags, vec!["animals", "store"]);
    spec.delete_tag(1);
    assert_eq!(spec.tags.len(), 1);
    let item = spec.paths.get("/pets").unwrap();
    assert_eq!(item.get.as_ref().unwrap().tags, vec!["animals"]);
    assert!(item.post.as_ref().unwrap().tags.is_empty());
    spec.add_numbered_tag();
    assert_eq!(spec.tags[1].name, "tag2");
    spec.add_server();
    spec.remove_server(0);
    assert!(spec.servers.is_empty());
}

#[test]
fn renaming_paths() {
    let mut app = App::new();
    app.new_spec();
    app.add_path("/a".to_string());
    app.add_path("/b".to_string());
    app.add_path("/c".to_string());
    app.dirty = false;
    assert!(matches!(app.rename_selected_path("/b", "  "), PathRename::Unchanged));
    assert!(matches!(app.rename_selected_path("/b", "/b"), PathRename::Unchanged));
    assert!(matches!(app.rename_selected_path("/b", "c"), PathRename::Conflict));
    assert!(!app.dirty);
    match app.rename_selected_path("/b", "items") {
        PathRename::Renamed(k) => assert_eq!(k, "/items"),
        _ => panic!("rename expected"),
    }
    assert_eq!(keys(&app.spec.as_ref().unwrap().paths), vec!["/a", "/items", "/c"]);
    assert_eq!(app.selection, Selection::Path("/items".to_string()));
    assert!(app.dirty);
}

fn media_with_example(target: &str) -> MediaType {
    let mut m = MediaType::default();
    m.examples.insert("e".to_string(), RefOr::Ref(Ref::to(target.to_string())));
    m
}

#[test]
fn where_examples_are_used() {
    let target = "#/components/examples/Pet";
    let mut spec = OpenApiSpec::default();
    let mut op = Operation::default();
    let mut body = RequestBody::default();
    body.content.insert("application/json".to_string(), media_with_example(target));
    op.request_body = Some(RefOr::Item(body));
    let mut resp = Response::default();
    resp.content.insert("application/xml".to_string(), media_with_example(target));
    resp.content.insert("text/plain".to_string(), media_with_example("#/components/examples/Other"));
    op.responses.insert("200".to_string(), RefOr::Item(resp));
    let mut item = PathItem::default();
    item.put = Some(op);
    spec.paths.insert("/pets".to_string(), item);
    let mut c = oai_enchant::model::Components::default();
    let mut r = Response::default();
    r.content.insert("application/json".to_string(), media_with_example(target));
    c.responses.insert("Found".to_string(), RefOr::Item(r));
    c.examples.insert("Pet".to_string(), RefOr::Item(OaExample::default()));
    spec.components = Some(c);
    let uses = example_uses(&spec, target);
    assert_eq!(
        uses,
        vec![
            (
                "PUT /pets  ·  Request Body  ·  application/json".to_string(),
                Some(("/pets".to_string(), "PUT".to_string())),
            ),
            (
                "PUT /pets  ·  200  ·  application/xml".to_string(),
                Some(("/pets".to_string(), "PUT".to_string())),
            ),
            ("Component Response: Found  ·  application/json".to_string(), None),
        ]
    );
}

#[test]
fn loading_and_saving() {
    assert_eq!(format_for_extension("JSON"), FileFormat::Json);
    assert_eq!(format_for_extension("yml"), FileFormat::Yaml);
    assert_eq!(format_for_extension(""), FileFormat::Yaml);
    let mut app = App::new();
    app.finish_load("/tmp/x.yaml".to_string(), FileFormat::Json, Err("bad".to_string()), None);
    assert_eq!(app.status, "Parse error: bad");
    assert!(app.spec.is_none());
    let mut spec = OpenApiSpec::default();
    spec.info.title = "T".to_string();
    spec.info.version = "2".to_string();
    app.finish_load("/tmp/x.json".to_string(), FileFormat::Json, Ok(spec), Some(YamlValue::Null));
    assert_eq!(app.status, "Opened: /tmp/x.json");
    assert_eq!(app.current_file.as_deref(), Some("/tmp/x.json"));
    assert_eq!(app.format, FileFormat::Json);
    assert_eq!(app.selection, Selection::Info);
    assert_eq!(app.title_line(), "T v2");
    app.dirty = true;
    assert_eq!(app.title_line(), "T v2 *");
    assert!(!app.request_close());
    assert!(app.show_exit_dialog);
    app.prepare_save(YamlValue::Bool(true));
    assert!(matches!(app.raw, Some(YamlValue::Bool(true))));
    app.finish_save("/tmp/x.json", Err(SaveError::Write("denied".to_string())));
    assert_eq!(app.status, "Write error: denied");
    assert!(app.dirty);
    assert!(!app.close_after_save());
    app.finish_save("/tmp/x.json", Ok(()));
    assert_eq!(app.status, "Saved: /tmp/x.json");
    assert!(!app.dirty);
    assert!(app.request_close());
    app.read_failed("gone");
    assert_eq!(app.status, "Error reading file: gone");
}

#[test]
fn raw_editor_flow() {
    let mut app = App::new();
    app.open_raw_editor("ignored".to_string());
    assert_eq!(app.selection, Selection::RawEditor);
    assert!(app.raw_editor_buf.is_empty());
    app.new_spec();
    app.raw_editor_err = "old".to_string();
    app.open_raw_editor("openapi: 3.1.0".to_string());
    assert_eq!(app.raw_editor_buf, "openapi: 3.1.0");
    assert!(app.raw_editor_err.is_empty());
    app.apply_raw_editor(Err("line 1".to_string()), None);
    assert_eq!(app.raw_editor_err, "line 1");
    app.dirty = false;
    app.apply_raw_editor(Ok(OpenApiSpec::default()), None);
    assert!(app.dirty);
    assert!(app.raw_editor_err.is_empty());
    assert_eq!(app.status, "Applied raw editor changes.");
    app.discard_and_close();
    assert!(!app.dirty);
    app.search_query = "pet".to_string();
    app.open_search_hit(Selection::Servers);
    assert_eq!(app.selection, Selection::Servers);
    assert!(app.search_query.is_empty());
    assert_eq!(optional_text(String::new()), None);
    assert_eq!(optional_text("x".to_string()), Some("x".to_string()));
}

#[test]
fn sidebar_add_server_and_tag() {
    let mut app = App::new();
    app.add_server();
    assert!(app.spec.is_none());
    app.new_spec();
    app.dirty = false;
    app.add_server();
    assert_eq!(app.selection, Selection::Servers);
    app.add_tag();
    app.add_tag();
    let spec = app.spec.as_ref().unwrap();
    assert_eq!(spec.servers.len(), 1);
    assert_eq!(spec.tags[1].name, "tag2");
    assert_eq!(app.selection, Selection::Tags);
    assert!(app.dirty);
}

#[test]
fn json_copy_keeps_nesting_and_order() {
    let mut obj = OrderedMap::new();
    obj.insert("b".to_string(), JsonValue::Number("1.50".to_string()));
    obj.insert("a".to_string(), JsonValue::Array(vec![JsonValue::Bool(true), JsonValue::Null]));
    let v = JsonValue::Object(obj);
    let c = v.clone();
    match c {
        JsonValue::Object(m) => {
            assert_eq!(m.len(), 2);
            assert_eq!(m.key_at(0), "b");
            assert_eq!(m.key_at(1), "a");
            assert!(matches!(m.value_at(0), JsonValue::Number(n) if n == "1.50"));
            assert!(matches!(m.value_at(1), JsonValue::Array(a) if a.len() == 2
                && matches!(a[0], JsonValue::Bool(true)) && matches!(a[1], JsonValue::Null)));
        }
        _ => panic!("an object copies to an object"),
    }
}

#[test]
fn duplicate_path_copies_operations() {
    let mut app = App::new();
    app.new_spec();
    app.add_path("/pets".to_string());
    app.add_operation("/pets", "GET");
    {
        let spec = app.spec.as_mut().unwrap();
        let i = spec.paths.index_of("/pets").unwrap();
        let op = spec.paths.value_at_mut(i).operation_mut("GET").unwrap();
        op.operation_id = Some("listPets".to_string());
        op.add_tag("pets".to_string());
        op.add_standard_response(0);
    }
    app.duplicate_path("/pets");
    let spec = app.spec.as_ref().unwrap();
    let i = spec.paths.index_of("/pets_copy").unwrap();
    let get = spec.paths.value_at(i).get.as_ref().unwrap();
    assert_eq!(get.operation_id.as_deref(), Some("listPets"));
    assert_eq!(get.tags, vec!["pets".to_string()]);
    assert_eq!(get.responses.len(), 1);
    assert_eq!(get.responses.key_at(0), "200");
}

#[test]
fn ensure_entries_report_additions() {
    let mut app = App::new();
    app.new_spec();
    let spec = app.spec.as_mut().unwrap();
    assert!(spec.info.ensure_contact());
    assert!(!spec.info.ensure_contact());
    assert!(spec.info.ensure_license());
    assert!(!spec.info.ensure_license());
    assert!(spec.ensure_external_docs());
    assert!(!spec.ensure_external_docs());
}

#[test]
fn cancel_close_keeps_changes() {
    let mut app = App::new();
    app.new_spec();
    assert!(!app.request_close());
    assert!(app.show_exit_dialog);
    app.cancel_close();
    assert!(!app.show_exit_dialog);
    assert!(app.dirty);
}
