use oai_enchant::codec::{
    bound_text, enum_text, enum_values_of_lines, example_text, example_value_edit, field_text,
    json_field_value, parse_json_text, read_yaml_tree, tree_text,
};
use oai_enchant::document::SaveError;
use oai_enchant::editor::App;
use oai_enchant::json::JsonValue;
use oai_enchant::model::{FileFormat, OpenApiSpec};
use oai_enchant::yaml::{yaml_eq, YamlValue};

fn s(t: &str) -> YamlValue {
    YamlValue::String(t.to_string())
}

fn n(t: &str) -> YamlValue {
    YamlValue::Number(t.to_string())
}

#[test]
fn reads_a_yaml_tree() {
    let t = read_yaml_tree("b: 1\na: [x, true]\n").unwrap();
    let expected = YamlValue::Mapping(vec![
        (s("b"), n("1")),
        (s("a"), YamlValue::Sequence(vec![s("x"), YamlValue::Bool(true)])),
    ]);
    assert!(yaml_eq(&t, &expected));
    assert!(read_yaml_tree("a: [1").is_none());
}

#[test]
fn writes_a_yaml_tree() {
    let t = YamlValue::Mapping(vec![(s("b"), n("1")), (s("a"), s("x"))]);
    assert_eq!(tree_text(&t, false).unwrap(), "b: 1\na: x\n");
    assert_eq!(tree_text(&t, true).unwrap(), "{\n  \"b\": 1,\n  \"a\": \"x\"\n}");
    let tagged = YamlValue::Tagged(String::new(), Box::new(YamlValue::Null));
    assert!(tree_text(&tagged, false).is_err());
    let numeric_key = YamlValue::Mapping(vec![(n("200"), s("a"))]);
    assert_eq!(tree_text(&numeric_key, false).unwrap(), "200: a\n");
    let seq_key = YamlValue::Mapping(vec![(YamlValue::Sequence(vec![]), s("a"))]);
    assert!(tree_text(&seq_key, true).is_err());
}

#[test]
fn load_then_save_keeps_the_file_structure() {
    let mut app = App::new();
    let content = "b: 1\n200: ok\na: 2\n";
    app.load_text("f.yaml".to_string(), FileFormat::Yaml, content, Ok(OpenApiSpec::default()));
    assert_eq!(app.status, "Opened: f.yaml");
    assert!(app.raw.is_some());
    let updated = YamlValue::Mapping(vec![(s("a"), n("3")), (s("c"), s("new"))]);
    let text = app.save_text(updated, FileFormat::Yaml).ok().unwrap();
    assert_eq!(text, "b: 1\n200: ok\na: 3\nc: new\n");
    let json = app.save_text(YamlValue::Mapping(vec![]), FileFormat::Json).ok().unwrap();
    assert_eq!(json, "{\n  \"b\": 1,\n  \"200\": \"ok\",\n  \"a\": 3,\n  \"c\": \"new\"\n}");
    app.raw = None;
    let unnamed = YamlValue::Tagged(String::new(), Box::new(YamlValue::Null));
    assert!(matches!(app.save_text(unnamed, FileFormat::Yaml), Err(SaveError::Serialize(_))));
}

#[test]
fn load_text_with_a_parse_error_keeps_no_tree() {
    let mut app = App::new();
    app.load_text("f.yaml".to_string(), FileFormat::Yaml, "b: 1", Err("bad".to_string()));
    assert_eq!(app.status, "Parse error: bad");
    assert!(app.raw.is_none());
}

#[test]
fn raw_text_is_read_as_a_tree() {
    let mut app = App::new();
    app.new_spec();
    app.raw_editor_buf = "x-a: 1\n".to_string();
    app.apply_raw_text(Ok(OpenApiSpec::default()));
    assert!(app.dirty);
    assert!(yaml_eq(app.raw.as_ref().unwrap(), &YamlValue::Mapping(vec![(s("x-a"), n("1"))])));
}

#[test]
fn parses_json_values() {
    assert!(matches!(parse_json_text("[1, \"a\"]"), Some(JsonValue::Array(v)) if v.len() == 2));
    assert!(parse_json_text("{").is_none());
    assert!(matches!(json_field_value("42".to_string()), Some(JsonValue::Number(t)) if t == "42"));
    assert!(matches!(json_field_value("abc".to_string()), Some(JsonValue::String(t)) if t == "abc"));
    assert!(json_field_value(String::new()).is_none());
}

#[test]
fn enum_values_skip_what_is_not_json() {
    let vals = enum_values_of_lines("1\n\nnot json\n\"s\"").unwrap();
    assert_eq!(vals.len(), 2);
    assert!(matches!(&vals[0], JsonValue::Number(t) if t == "1"));
    assert!(matches!(&vals[1], JsonValue::String(t) if t == "s"));
    assert!(enum_values_of_lines("not json\n\n").is_none());
}

#[test]
fn example_value_edits() {
    assert!(matches!(example_value_edit("  "), Some(None)));
    assert!(example_value_edit("{").is_none());
    assert!(matches!(example_value_edit("{\"a\": true}"), Some(Some(JsonValue::Object(m))) if m.len() == 1));
}

#[test]
fn value_texts() {
    let arr = parse_json_text("[1, \"a\", {\"k\": null}]").unwrap();
    assert_eq!(field_text(Some(&arr)), "[1,\"a\",{\"k\":null}]");
    assert_eq!(field_text(Some(&JsonValue::String("plain".to_string()))), "plain");
    assert_eq!(field_text(None), "");
    assert_eq!(bound_text(Some(&JsonValue::Bool(true))), "true");
    assert_eq!(bound_text(Some(&JsonValue::Number("5".to_string()))), "5");
    assert_eq!(example_text(Some(&parse_json_text("{\"a\":1}").unwrap())), "{\n  \"a\": 1\n}");
    assert_eq!(example_text(None), "");
    let vals = vec![JsonValue::Number("1".to_string()), JsonValue::String("s".to_string())];
    assert_eq!(enum_text(&vals), "1\n\"s\"");
    assert_eq!(enum_text(&vec![]), "");
}
