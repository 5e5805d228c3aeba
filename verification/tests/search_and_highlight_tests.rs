use oai_enchant::editor::Selection;
use oai_enchant::highlight::{
    can_highlight_json, highlight_json, highlight_yaml, yaml_key_colon, yaml_split_comment,
    yaml_value_color, JsonTok, YamlTok,
};
use oai_enchant::lint::{lint, Level};
use oai_enchant::model::{Components, OpenApiSpec, Operation, Parameter, PathItem, RefOr, Schema, Server};
use oai_enchant::search::{
    available_methods, diagnostics_heading, excerpt, method_color, results_label, search_spec, Rgb,
    SidebarData,
};

fn pet_store() -> OpenApiSpec {
    let mut spec = OpenApiSpec::default();
    spec.info.title = "Pet Store".to_string();
    spec.info.version = "1".to_string();
    let mut op = Operation::default();
    op.operation_id = Some("listPets".to_string());
    op.summary = Some("List all pets".to_string());
    let mut p = Parameter::default();
    p.name = "limit".to_string();
    p.description = Some("How many pets to return".to_string());
    op.parameters.push(RefOr::Item(p));
    let mut item = PathItem::default();
    item.get = Some(op);
    spec.paths.insert("/pets".to_string(), item);
    let mut c = Components::default();
    let mut s = Schema::default();
    s.description = Some("A pet".to_string());
    let mut name = Schema::default();
    name.description = Some("The pet's name".to_string());
    s.properties.insert("name".to_string(), Box::new(name));
    c.schemas.insert("Pet".to_string(), RefOr::Item(s));
    spec.components = Some(c);
    spec
}

#[test]
fn search_finds_matching_items_in_document_order() {
    let spec = pet_store();
    let hits = search_spec(&spec, "PET");
    let got: Vec<(&str, String, String)> =
        hits.iter().map(|h| (h.kind, h.label.clone(), h.excerpt.clone())).collect();
    assert_eq!(
        got,
        vec![
            ("INFO", "Pet Store".to_string(), String::new()),
            ("PATH", "/pets".to_string(), String::new()),
            ("OPER", "GET  /pets".to_string(), "listPets · List all pets".to_string()),
            ("PARAM", "GET  /pets  › limit".to_string(), "How many pets to return".to_string()),
            ("SCHEMA", "Pet".to_string(), "A pet".to_string()),
            ("PROP", "Pet  › name".to_string(), "The pet's name".to_string()),
        ]
    );
    assert_eq!(hits[2].sel, Selection::Operation("/pets".to_string(), "GET".to_string()));
    assert_eq!(hits[2].kind_color, Rgb { r: 97, g: 175, b: 95 });
    assert_eq!(hits[5].sel, Selection::Schema("Pet".to_string()));
}

#[test]
fn search_with_no_match() {
    let spec = pet_store();
    assert!(search_spec(&spec, "zebra").is_empty());
    let hits = search_spec(&spec, "return");
    assert_eq!(hits.len(), 1);
    assert_eq!(hits[0].kind, "PARAM");
}

#[test]
fn excerpts_cut_with_ellipsis() {
    assert_eq!(excerpt("abcdef", 3), "abc…");
    assert_eq!(excerpt("abc", 3), "abc");
    assert_eq!(excerpt("", 0), "");
    assert_eq!(excerpt("ééé", 2), "éé…");
}

#[test]
fn method_colours() {
    assert_eq!(method_color("GET"), Rgb { r: 97, g: 175, b: 95 });
    assert_eq!(method_color("DELETE"), Rgb { r: 220, g: 80, b: 80 });
    assert_eq!(method_color("TRACE"), Rgb { r: 155, g: 89, b: 182 });
    assert_eq!(method_color("get"), Rgb { r: 160, g: 160, b: 160 });
}

#[test]
fn sidebar_overview() {
    let mut spec = pet_store();
    spec.servers.push(Server { url: "https://a".to_string(), description: None, variables: Default::default() });
    spec.servers.push(Server {
        url: "https://b".to_string(),
        description: Some("staging".to_string()),
        variables: Default::default(),
    });
    let d = SidebarData::from_spec(&spec);
    assert_eq!(d.server_labels, vec!["0: https://a", "1: staging"]);
    assert_eq!(d.paths, vec![("/pets".to_string(), vec!["GET".to_string()])]);
    assert_eq!(d.schema_names, vec!["Pet"]);
    assert!(d.rb_names.is_empty());
    assert_eq!(d.diagnostics.len(), lint(&spec).len());
}

#[test]
fn methods_left_to_add() {
    let present = vec!["GET".to_string(), "POST".to_string()];
    assert_eq!(available_methods(&present), vec!["PUT", "DELETE", "PATCH", "OPTIONS", "HEAD", "TRACE"]);
}

#[test]
fn findings_heading() {
    let empty = OpenApiSpec::default();
    let (text, level) = diagnostics_heading(&lint(&empty));
    assert_eq!(text, "Errors & Warnings  (1E 1W)");
    assert_eq!(level, Some(Level::Error));
    let (text, level) = diagnostics_heading(&Vec::new());
    assert_eq!(text, "Errors & Warnings");
    assert_eq!(level, None);
    assert_eq!(results_label(1), "  1 result");
    assert_eq!(results_label(12), "  12 results");
}

#[test]
fn key_colon_positions() {
    assert_eq!(yaml_key_colon("key: value"), Some(3));
    assert_eq!(yaml_key_colon("key:"), Some(3));
    assert_eq!(yaml_key_colon("a:b"), None);
    assert_eq!(yaml_key_colon("'a: b': c"), Some(6));
    assert_eq!(yaml_key_colon("url: http://x"), Some(3));
    assert_eq!(yaml_key_colon("é: x"), Some(2));
    assert_eq!(yaml_key_colon("\"x:\ty\"\t:\t"), Some(7));
}

#[test]
fn comment_split() {
    assert_eq!(yaml_split_comment("value # note"), ("value", " # note"));
    assert_eq!(yaml_split_comment("value   # note"), ("value", " # note"));
    assert_eq!(yaml_split_comment("a#b"), ("a#b", ""));
    assert_eq!(yaml_split_comment("'x # y' # z"), ("'x # y'", " # z"));
    assert_eq!(yaml_split_comment("# only"), ("# only", ""));
}

#[test]
fn scalar_classes() {
    assert_eq!(yaml_value_color("'s'"), YamlTok::Str);
    assert_eq!(yaml_value_color("\"s"), YamlTok::Str);
    assert_eq!(yaml_value_color("true  "), YamlTok::Keyword);
    assert_eq!(yaml_value_color("~"), YamlTok::Keyword);
    assert_eq!(yaml_value_color("42"), YamlTok::Number);
    assert_eq!(yaml_value_color("-3.5e2"), YamlTok::Number);
    assert_eq!(yaml_value_color("1_000"), YamlTok::Number);
    assert_eq!(yaml_value_color("1a"), YamlTok::Plain);
    assert_eq!(yaml_value_color("-x"), YamlTok::Plain);
    assert_eq!(yaml_value_color(""), YamlTok::Plain);
}

fn yt(s: &str, k: YamlTok) -> (String, YamlTok) {
    (s.to_string(), k)
}

#[test]
fn yaml_pieces() {
    assert_eq!(
        highlight_yaml("a: 1\n# c"),
        vec![
            yt("a", YamlTok::Key),
            yt(":", YamlTok::Plain),
            yt(" ", YamlTok::Plain),
            yt("1", YamlTok::Number),
            yt("\n", YamlTok::Plain),
            yt("# c", YamlTok::Comment),
            yt("\n", YamlTok::Plain),
        ]
    );
    assert_eq!(
        highlight_yaml("  - $ref: '#/x' # r\n---"),
        vec![
            yt("  ", YamlTok::Plain),
            yt("- ", YamlTok::Marker),
            yt("$ref", YamlTok::RefKey),
            yt(":", YamlTok::Plain),
            yt(" ", YamlTok::Plain),
            yt("'#/x'", YamlTok::RefKey),
            yt(" # r", YamlTok::Comment),
            yt("\n", YamlTok::Plain),
            yt("---", YamlTok::Marker),
            yt("\n", YamlTok::Plain),
        ]
    );
    assert_eq!(
        highlight_yaml("-\nplain"),
        vec![
            yt("-", YamlTok::Marker),
            yt("\n", YamlTok::Plain),
            yt("plain", YamlTok::Plain),
            yt("\n", YamlTok::Plain),
        ]
    );
}

fn jt(s: &str, k: JsonTok) -> (String, JsonTok) {
    (s.to_string(), k)
}

#[test]
fn json_pieces() {
    assert_eq!(
        highlight_json("{\"a\": 1, \"b\": [true, \"x\\\"y\", -2.5]}"),
        vec![
            jt("{", JsonTok::Punct),
            jt("\"a\"", JsonTok::Key),
            jt(":", JsonTok::Punct),
            jt(" ", JsonTok::Plain),
            jt("1", JsonTok::Number),
            jt(",", JsonTok::Punct),
            jt(" ", JsonTok::Plain),
            jt("\"b\"", JsonTok::Key),
            jt(":", JsonTok::Punct),
            jt(" ", JsonTok::Plain),
            jt("[", JsonTok::Punct),
            jt("true", JsonTok::Literal),
            jt(",", JsonTok::Punct),
            jt(" ", JsonTok::Plain),
            jt("\"x\\\"y\"", JsonTok::Str),
            jt(",", JsonTok::Punct),
            jt(" ", JsonTok::Plain),
            jt("-2.5", JsonTok::Number),
            jt("]", JsonTok::Punct),
            jt("}", JsonTok::Punct),
        ]
    );
    assert_eq!(highlight_json("\"open"), vec![jt("\"open", JsonTok::Str)]);
    assert_eq!(highlight_json(""), Vec::<(String, JsonTok)>::new());
}

#[test]
fn json_texts_the_highlighter_takes() {
    assert!(can_highlight_json("{\"a\": \"€\"}"));
    assert!(!can_highlight_json("€"));
    assert!(can_highlight_json("é"));
    assert!(!can_highlight_json("\"abc\\"));
    assert!(can_highlight_json("\"abc\\\""));
}

fn joined<K>(pieces: &[(String, K)]) -> String {
    pieces.iter().map(|p| p.0.as_str()).collect()
}

#[test]
fn highlighted_pieces_give_back_the_text() {
    let json = "{\n  \"a\": [1, -2.5e3, true, null],\n  \"b\": \"x\\\"y\"\n}";
    assert_eq!(joined(&highlight_json(json)), json);
    let yaml = "openapi: 3.1.0\npaths:\n  /pets:\n    - get: '#/x'\n  # note\n---\n-\n";
    assert_eq!(joined(&highlight_yaml(yaml)), format!("{}\n", yaml));
}

#[test]
fn highlighting_drops_space_after_a_bare_key() {
    assert_eq!(joined(&highlight_yaml("a:   ")), "a:\n");
    assert_eq!(joined(&highlight_yaml("a: x   # c")), "a: x # c\n");
}
