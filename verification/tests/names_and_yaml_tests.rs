use oai_enchant::resource::{camel_case, kebab_case, pluralize_kebab, schema_to_resource_parts, title_case};
use oai_enchant::yaml::{merge_yaml, YamlValue};

#[test]
fn plural_forms() {
    assert_eq!(pluralize_kebab("user"), "users");
    assert_eq!(pluralize_kebab("category"), "categories");
    assert_eq!(pluralize_kebab("day"), "days");
    assert_eq!(pluralize_kebab("bus"), "buses");
    assert_eq!(pluralize_kebab("box"), "boxes");
    assert_eq!(pluralize_kebab("dish"), "dishes");
    assert_eq!(pluralize_kebab("match"), "matches");
    assert_eq!(pluralize_kebab("quiz"), "quizes");
    assert_eq!(pluralize_kebab("y"), "ies");
    assert_eq!(pluralize_kebab(""), "s");
    assert_eq!(pluralize_kebab("blog-post"), "blog-posts");
}

#[test]
fn resource_parts_of_pascal_case() {
    assert_eq!(
        schema_to_resource_parts("BlogPost"),
        ("blogPost".to_string(), "blog-posts".to_string(), "Blog Posts".to_string())
    );
    assert_eq!(
        schema_to_resource_parts("Category"),
        ("category".to_string(), "categories".to_string(), "Categories".to_string())
    );
    assert_eq!(
        schema_to_resource_parts("HTTPServer"),
        ("hTTPServer".to_string(), "h-t-t-p-servers".to_string(), "H T T P Servers".to_string())
    );
}

#[test]
fn case_conversions() {
    assert_eq!(kebab_case("BlogPost"), "blog-post");
    assert_eq!(kebab_case("pet"), "pet");
    assert_eq!(camel_case("BlogPost"), "blogPost");
    assert_eq!(camel_case("Éclair"), "Éclair");
    assert_eq!(camel_case(""), "");
    assert_eq!(title_case("blog-posts"), "Blog Posts");
    assert_eq!(title_case("a--b"), "A  B");
}

fn s(x: &str) -> YamlValue {
    YamlValue::String(x.to_string())
}

fn n(x: &str) -> YamlValue {
    YamlValue::Number(x.to_string())
}

fn map(entries: Vec<(&str, YamlValue)>) -> YamlValue {
    YamlValue::Mapping(entries.into_iter().map(|(k, v)| (s(k), v)).collect())
}

fn show(v: &YamlValue) -> String {
    match v {
        YamlValue::Null => "~".to_string(),
        YamlValue::Bool(b) => b.to_string(),
        YamlValue::Number(x) => x.clone(),
        YamlValue::String(x) => format!("'{x}'"),
        YamlValue::Sequence(items) => {
            format!("[{}]", items.iter().map(show).collect::<Vec<_>>().join(", "))
        },
        YamlValue::Mapping(entries) => format!(
            "{{{}}}",
            entries.iter().map(|(k, v)| format!("{}: {}", show(k), show(v))).collect::<Vec<_>>().join(", ")
        ),
        YamlValue::Tagged(t, v) => format!("!{t} {}", show(v)),
    }
}

#[test]
fn merge_keeps_order_and_extensions() {
    let mut original = map(vec![("b", n("1")), ("a", n("2")), ("x-ext", s("keep"))]);
    let updated = map(vec![("a", n("5")), ("b", n("1")), ("c", n("9"))]);
    merge_yaml(&mut original, &updated);
    assert_eq!(show(&original), "{'b': 1, 'a': 5, 'x-ext': 'keep', 'c': 9}");
}

#[test]
fn merge_recurses_into_mappings() {
    let mut original = map(vec![("info", map(vec![("title", s("Old")), ("x-logo", s("l"))]))]);
    let updated = map(vec![("info", map(vec![("version", s("1")), ("title", s("New"))]))]);
    merge_yaml(&mut original, &updated);
    assert_eq!(show(&original), "{'info': {'title': 'New', 'x-logo': 'l', 'version': '1'}}");
}

#[test]
fn merge_replaces_sequences_and_scalars() {
    let mut original = map(vec![("tags", YamlValue::Sequence(vec![s("a"), s("b")]))]);
    let updated = map(vec![("tags", YamlValue::Sequence(vec![s("c")]))]);
    merge_yaml(&mut original, &updated);
    assert_eq!(show(&original), "{'tags': ['c']}");

    let mut scalar = s("x");
    merge_yaml(&mut scalar, &map(vec![("k", YamlValue::Bool(true))]));
    assert_eq!(show(&scalar), "{'k': true}");

    let mut m = map(vec![("k", n("1"))]);
    merge_yaml(&mut m, &YamlValue::Null);
    assert_eq!(show(&m), "~");
}

#[test]
fn merge_keeps_non_string_keys() {
    let mut original = YamlValue::Mapping(vec![(n("200"), s("a"))]);
    merge_yaml(&mut original, &YamlValue::Mapping(vec![]));
    assert_eq!(show(&original), "{200: 'a'}");

    let mut original = YamlValue::Mapping(vec![(n("1"), s("one")), (s("a"), n("2"))]);
    let updated = YamlValue::Mapping(vec![(s("a"), n("3")), (n("1"), s("uno")), (n("2"), s("two"))]);
    merge_yaml(&mut original, &updated);
    assert_eq!(show(&original), "{1: 'uno', 'a': 3, 2: 'two'}");
}

#[test]
fn merge_keeps_keys_distinct() {
    let s = |t: &str| YamlValue::String(t.to_string());
    let mut original = YamlValue::Mapping(vec![(s("a"), s("1")), (s("b"), s("2"))]);
    let updated = YamlValue::Mapping(vec![(s("b"), s("3")), (s("c"), s("4"))]);
    merge_yaml(&mut original, &updated);
    match &original {
        YamlValue::Mapping(m) => {
            let keys: Vec<String> = m
                .iter()
                .map(|(k, _)| match k {
                    YamlValue::String(t) => t.clone(),
                    _ => String::new(),
                })
                .collect();
            assert_eq!(keys, vec!["a", "b", "c"]);
        },
        _ => panic!("a mapping stays a mapping"),
    }
}
