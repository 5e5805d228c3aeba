//! Reading YAML trees and JSON values from text, and writing YAML trees as text, through
//! serde_yaml and serde_json.
use vstd::prelude::*;
use serde_json::Value as Jv;
use serde_yaml::value::{Tag, TaggedValue};
use serde_yaml::Value as Yv;
use crate::json::{JsonValue, JsonView};
use crate::ordered_map::OrderedMap;
use crate::lint::str_views;
use crate::schema_edit::{enum_lines, filled_lines, lines_spec};
use crate::text::{is_blank, is_blank_spec};
use crate::yaml::{
    lemma_yview_pairs, lemma_yview_seq, well_formed, yview, yview_pairs, yview_seq, YamlValue,
    YamlView,
};

verus! {

#[verifier::external_type_specification]
#[verifier::external_body]
pub struct ExSerdeYamlValue(serde_yaml::Value);

#[verifier::external_type_specification]
#[verifier::external_body]
pub struct ExSerdeJsonValue(serde_json::Value);

/// The tree that serde_yaml reads from `text` as a `serde_yaml::Value`, or `None` where it
/// reports an error.
pub uninterp spec fn yaml_tree_of(text: Seq<char>) -> Option<YamlView>;

/// The text that `serde_yaml::to_string` writes for `tree`, or `None` where it reports an
/// error.
pub uninterp spec fn yaml_text_of(tree: YamlView) -> Option<Seq<char>>;

/// The text that `serde_json::to_string_pretty` writes for `tree`, or `None` where it
/// reports an error (a mapping key that is a sequence or a mapping, for one).
pub uninterp spec fn json_text_of(tree: YamlView) -> Option<Seq<char>>;

/// The one-line text that `serde_json::to_string` writes for `v`.
pub uninterp spec fn json_line_of(v: JsonView) -> Seq<char>;

/// The indented text that `serde_json::to_string_pretty` writes for `v`.
pub uninterp spec fn json_pretty_of(v: JsonView) -> Seq<char>;

/// The value that serde_json reads from `text` as a `serde_json::Value`, or `None` where it
/// reports an error.
pub uninterp spec fn json_of(text: Seq<char>) -> Option<JsonView>;

/// A serde_yaml value as the library holds it: numbers by their text, tags by their text.
#[verifier::external_body]
fn yaml_in(v: serde_yaml::Value) -> YamlValue {
    match v {
        Yv::Null => YamlValue::Null,
        Yv::Bool(b) => YamlValue::Bool(b),
        Yv::Number(n) => YamlValue::Number(n.to_string()),
        Yv::String(s) => YamlValue::String(s),
        Yv::Sequence(s) => YamlValue::Sequence(s.into_iter().map(yaml_in).collect()),
        Yv::Mapping(m) => YamlValue::Mapping(
            m.into_iter().map(|(k, v)| (yaml_in(k), yaml_in(v))).collect(),
        ),
        Yv::Tagged(t) => YamlValue::Tagged(t.tag.to_string(), Box::new(yaml_in(t.value))),
    }
}

/// A library tree as a serde_yaml value; a number text that serde_yaml does not read as a
/// number is written as a string. Its callers ask that every tag be named.
#[verifier::external_body]
fn yaml_out(v: &YamlValue) -> serde_yaml::Value {
    match v {
        YamlValue::Null => Yv::Null,
        YamlValue::Bool(b) => Yv::Bool(*b),
        YamlValue::Number(t) => t.parse().map(Yv::Number).unwrap_or_else(
            |_| Yv::String(t.clone()),
        ),
        YamlValue::String(s) => Yv::String(s.clone()),
        YamlValue::Sequence(s) => Yv::Sequence(s.iter().map(yaml_out).collect()),
        YamlValue::Mapping(m) => Yv::Mapping(m.iter().map(|(k, v)| (yaml_out(k), yaml_out(v))).collect()),
        YamlValue::Tagged(t, b) => Yv::Tagged(Box::new(TaggedValue {
            tag: Tag::new(t.clone()),
            value: yaml_out(b),
        })),
    }
}

/// A library JSON value as a serde_json value; a number text that serde_json does not read
/// as a number is written as `null`.
#[verifier::external_body]
fn json_out(v: &JsonValue) -> serde_json::Value {
    match v {
        JsonValue::Null => Jv::Null,
        JsonValue::Bool(b) => Jv::Bool(*b),
        JsonValue::Number(t) => t.parse().map(Jv::Number).unwrap_or(Jv::Null),
        JsonValue::String(s) => Jv::String(s.clone()),
        JsonValue::Array(a) => Jv::Array(a.iter().map(json_out).collect()),
        JsonValue::Object(m) => Jv::Object(
            (0..m.len()).map(|i| (m.key_at(i).clone(), json_out(m.value_at(i)))).collect(),
        ),
    }
}

/// A serde_json value as the library holds it: numbers by their text, object entries in
/// their order.
#[verifier::external_body]
fn json_in(v: serde_json::Value) -> JsonValue {
    match v {
        Jv::Null => JsonValue::Null,
        Jv::Bool(b) => JsonValue::Bool(b),
        Jv::Number(n) => JsonValue::Number(n.to_string()),
        Jv::String(s) => JsonValue::String(s),
        Jv::Array(a) => JsonValue::Array(a.into_iter().map(json_in).collect()),
        Jv::Object(m) => {
            let mut out = OrderedMap::new();
            for (k, v) in m {
                out.insert(k, json_in(v));
            }
            JsonValue::Object(out)
        },
    }
}

/// Reads `text` as a YAML tree (`serde_yaml::from_str::<serde_yaml::Value>`): the tree it
/// reads, or `None` where serde_yaml reads no tree. What tree a text reads as is left to
/// serde_yaml and named `yaml_tree_of`. The tree is well formed: every serde_yaml mapping
/// is an `IndexMap` of values, whose keys are distinct under serde_yaml's equality, and
/// unequal values are kept apart by the conversion (numbers are written by `itoa` and
/// `ryu`, which give unequal numbers different texts; tags are written as `!` and their
/// name without a leading `!`, which is what their equality compares).
#[verifier::external_body]
pub fn read_yaml_tree(text: &str) -> (r: Option<YamlValue>)
    ensures
        match r {
            Some(t) => yaml_tree_of(text@) == Some(t@) && well_formed(t@),
            None => yaml_tree_of(text@) is None,
        },
{
    serde_yaml::from_str::<serde_yaml::Value>(text).ok().map(yaml_in)
}

/// Writes `tree` as YAML (`serde_yaml::to_string`), or gives serde_yaml's error message.
/// The text is left to serde_yaml and named `yaml_text_of`; the message is not stated.
/// Every tag in the tree is non-empty, as serde_yaml's `Tag::new` asks.
#[verifier::external_body]
fn write_yaml_text(tree: &YamlValue) -> (r: Result<String, String>)
    requires
        tags_named(tree@),
    ensures
        match r {
            Ok(t) => yaml_text_of(tree@) == Some(t@),
            Err(_) => yaml_text_of(tree@) is None,
        },
{
    serde_yaml::to_string(&yaml_out(tree)).map_err(|e| e.to_string())
}

/// Writes `tree` as indented JSON (`serde_json::to_string_pretty`), or gives serde_json's
/// error message. The text is left to serde_json and named `json_text_of`; the message is
/// not stated. Every tag in the tree is non-empty, as serde_yaml's `Tag::new` asks.
#[verifier::external_body]
fn write_json_text(tree: &YamlValue) -> (r: Result<String, String>)
    requires
        tags_named(tree@),
    ensures
        match r {
            Ok(t) => json_text_of(tree@) == Some(t@),
            Err(_) => json_text_of(tree@) is None,
        },
{
    serde_json::to_string_pretty(&yaml_out(tree)).map_err(|e| e.to_string())
}

/// Reads `text` as a JSON value (`serde_json::from_str::<serde_json::Value>`): the value it
/// reads, or `None` where serde_json reports an error. What value a text reads as is left
/// to serde_json and named `json_of`.
#[verifier::external_body]
pub fn parse_json_text(text: &str) -> (r: Option<JsonValue>)
    ensures
        match r {
            Some(v) => json_of(text@) == Some(v@),
            None => json_of(text@) is None,
        },
{
    serde_json::from_str::<serde_json::Value>(text).ok().map(json_in)
}

/// Writes `v` as one-line JSON (`serde_json::to_string`); writing a `serde_json::Value`
/// reports no error. The text is left to serde_json and named `json_line_of`.
#[verifier::external_body]
fn write_json_line(v: &JsonValue) -> (r: String)
    ensures
        r@ == json_line_of(v@),
{
    serde_json::to_string(&json_out(v)).unwrap_or_default()
}

/// Writes `v` as indented JSON (`serde_json::to_string_pretty`); writing a
/// `serde_json::Value` reports no error. The text is left to serde_json and named
/// `json_pretty_of`.
#[verifier::external_body]
fn write_json_pretty(v: &JsonValue) -> (r: String)
    ensures
        r@ == json_pretty_of(v@),
{
    serde_json::to_string_pretty(&json_out(v)).unwrap_or_default()
}

// ── Tags ─────────────────────────────────────────────────────────────────────

/// Every tag in the tree has a name.
pub open spec fn tags_named(y: YamlView) -> bool
    decreases y, 0nat,
{
    match y {
        YamlView::Sequence(s) => tags_named_seq(s, s.len()),
        YamlView::Mapping(m) => tags_named_pairs(m, m.len()),
        YamlView::Tagged(t, b) => t.len() > 0 && tags_named(*b),
        _ => true,
    }
}

/// Every tag in the first `n` items has a name.
pub open spec fn tags_named_seq(s: Seq<YamlView>, n: nat) -> bool
    decreases s, n,
{
    if n == 0 || n > s.len() {
        true
    } else {
        proof {
            assert(decreases_to!(s => s[n - 1]));
        }
        tags_named_seq(s, (n - 1) as nat) && tags_named(s[n - 1])
    }
}

/// Every tag in the first `n` entries has a name.
pub open spec fn tags_named_pairs(s: Seq<(YamlView, YamlView)>, n: nat) -> bool
    decreases s, n,
{
    if n == 0 || n > s.len() {
        true
    } else {
        proof {
            assert(decreases_to!(s => s[n - 1]));
            assert(decreases_to!(s[n - 1] => s[n - 1].0));
            assert(decreases_to!(s[n - 1] => s[n - 1].1));
        }
        tags_named_pairs(s, (n - 1) as nat) && tags_named(s[n - 1].0) && tags_named(s[n - 1].1)
    }
}

proof fn lemma_tags_named_seq(s: Seq<YamlView>, n: nat)
    requires
        n <= s.len(),
    ensures
        tags_named_seq(s, n) <==> forall|j: int| 0 <= j < n ==> tags_named(#[trigger] s[j]),
    decreases n,
{
    if n > 0 {
        lemma_tags_named_seq(s, (n - 1) as nat);
    }
}

proof fn lemma_tags_named_pairs(s: Seq<(YamlView, YamlView)>, n: nat)
    requires
        n <= s.len(),
    ensures
        tags_named_pairs(s, n) <==> forall|j: int|
            0 <= j < n ==> tags_named(#[trigger] s[j].0) && tags_named(s[j].1),
    decreases n,
{
    if n > 0 {
        lemma_tags_named_pairs(s, (n - 1) as nat);
    }
}

/// Whether every tag in the tree has a name.
#[verifier::loop_isolation(false)]
#[verifier::spinoff_prover]
pub fn has_named_tags(y: &YamlValue) -> (r: bool)
    ensures
        r == tags_named(y@),
    decreases y,
{
    match y {
        YamlValue::Sequence(x) => {
            proof {
                lemma_yview_seq(x@, x@.len());
                lemma_tags_named_seq(yview_seq(x@, x@.len()), x@.len());
            }
            let mut i: usize = 0;
            while i < x.len()
                invariant
                    i <= x@.len(),
                    forall|j: int| 0 <= j < i ==> tags_named(yview(#[trigger] x@[j])),
                decreases x@.len() - i,
            {
                proof {
                    assert(decreases_to!(*y => (*y)->Sequence_0));
                    assert(decreases_to!(*x => x@));
                    assert(decreases_to!(x@ => x@[i as int]));
                }
                if !has_named_tags(&x[i]) {
                    assert(!tags_named(yview_seq(x@, x@.len())[i as int]));
                    return false;
                }
                i += 1;
            }
            assert forall|j: int| 0 <= j < x@.len() implies tags_named(
                #[trigger] yview_seq(x@, x@.len())[j],
            ) by {
                assert(tags_named(yview(x@[j])));
            }
            true
        },
        YamlValue::Mapping(x) => {
            proof {
                lemma_yview_pairs(x@, x@.len());
                lemma_tags_named_pairs(yview_pairs(x@, x@.len()), x@.len());
            }
            let mut i: usize = 0;
            while i < x.len()
                invariant
                    i <= x@.len(),
                    forall|j: int|
                        0 <= j < i ==> tags_named(yview(#[trigger] x@[j].0)) && tags_named(
                            yview(x@[j].1),
                        ),
                decreases x@.len() - i,
            {
                proof {
                    assert(decreases_to!(*y => (*y)->Mapping_0));
                    assert(decreases_to!(*x => x@));
                    assert(decreases_to!(x@ => x@[i as int]));
                    assert(decreases_to!(x@[i as int] => x@[i as int].0));
                    assert(decreases_to!(x@[i as int] => x@[i as int].1));
                }
                if !has_named_tags(&x[i].0) || !has_named_tags(&x[i].1) {
                    assert(yview_pairs(x@, x@.len())[i as int] == (yview(x@[i as int].0), yview(
                        x@[i as int].1,
                    )));
                    assert(!(tags_named(yview_pairs(x@, x@.len())[i as int].0) && tags_named(
                        yview_pairs(x@, x@.len())[i as int].1,
                    )));
                    return false;
                }
                i += 1;
            }
            assert forall|j: int| 0 <= j < x@.len() implies tags_named(
                #[trigger] yview_pairs(x@, x@.len())[j].0,
            ) && tags_named(yview_pairs(x@, x@.len())[j].1) by {
                assert(tags_named(yview(x@[j].0)));
            }
            true
        },
        YamlValue::Tagged(t, b) => !t.as_str().is_empty() && has_named_tags(b),
        _ => true,
    }
}

/// The text of a tree written as JSON (`json`) or as YAML.
pub open spec fn tree_text_of(tree: YamlView, json: bool) -> Option<Seq<char>> {
    if json {
        json_text_of(tree)
    } else {
        yaml_text_of(tree)
    }
}

/// Writes a tree as JSON (`json`) or as YAML. A tree with a tag that has no name cannot be
/// written; serde's message is given where serde reports an error.
pub fn tree_text(tree: &YamlValue, json: bool) -> (r: Result<String, String>)
    ensures
        !tags_named(tree@) ==> r is Err,
        tags_named(tree@) ==> match r {
            Ok(t) => tree_text_of(tree@, json) == Some(t@),
            Err(_) => tree_text_of(tree@, json) is None,
        },
{
    if !has_named_tags(tree) {
        return Err(String::from_str("empty YAML tag is not allowed"));
    }
    if json {
        write_json_text(tree)
    } else {
        write_yaml_text(tree)
    }
}

// ── Values typed into the editor ─────────────────────────────────────────────

/// The values read from `lines`, skipping the lines that do not read as JSON.
pub open spec fn json_values_of(lines: Seq<Seq<char>>) -> Seq<JsonView>
    decreases lines.len(),
{
    if lines.len() == 0 {
        Seq::empty()
    } else {
        let prev = json_values_of(lines.drop_last());
        match json_of(lines.last()) {
            Some(v) => prev.push(v),
            None => prev,
        }
    }
}

/// The enum values typed one per line into `text`: blank lines and lines that do not read
/// as JSON are skipped; when no value is left there is no enum restriction (`None`).
pub fn enum_values_of_lines(text: &str) -> (r: Option<Vec<JsonValue>>)
    ensures
        match r {
            Some(v) => v@.map_values(|x: JsonValue| x@) == json_values_of(
                filled_lines(lines_spec(text@)),
            ) && v@.len() > 0,
            None => json_values_of(filled_lines(lines_spec(text@))).len() == 0,
        },
{
    let lines = enum_lines(text);
    let ghost ls = str_views(lines@);
    let mut vals: Vec<JsonValue> = Vec::new();
    let mut i: usize = 0;
    assert(ls.take(0) =~= Seq::<Seq<char>>::empty());
    while i < lines.len()
        invariant
            ls == str_views(lines@),
            i <= lines@.len(),
            vals@.map_values(|x: JsonValue| x@) == json_values_of(ls.take(i as int)),
        decreases lines@.len() - i,
    {
        assert(ls.take(i + 1).drop_last() =~= ls.take(i as int));
        assert(ls.take(i + 1).last() == lines@[i as int]@);
        match parse_json_text(lines[i].as_str()) {
            Some(v) => {
                vals.push(v);
            },
            None => {},
        }
        i += 1;
        assert(vals@.map_values(|x: JsonValue| x@) =~= json_values_of(ls.take(i as int)));
    }
    assert(ls.take(lines@.len() as int) =~= ls);
    if vals.len() == 0 {
        None
    } else {
        Some(vals)
    }
}

/// What a one-line value field holds for the text `text`: nothing when it is empty, the
/// JSON value it reads as, or else the text itself as a string.
pub open spec fn field_value_of(text: Seq<char>) -> Option<JsonView> {
    if text.len() == 0 {
        None
    } else {
        match json_of(text) {
            Some(v) => Some(v),
            None => Some(JsonView::String(text)),
        }
    }
}

/// The value of a one-line value field (a default or an example) holding `text`.
pub fn json_field_value(text: String) -> (r: Option<JsonValue>)
    ensures
        match r {
            Some(v) => field_value_of(text@) == Some(v@),
            None => field_value_of(text@) is None,
        },
{
    if text.as_str().is_empty() {
        return None;
    }
    match parse_json_text(text.as_str()) {
        Some(v) => Some(v),
        None => Some(JsonValue::String(text)),
    }
}

/// What typing `text` into the example value box does: a blank text clears the value
/// (`Some(None)`), a text that reads as JSON sets it, and any other text leaves the value
/// as it was (`None`).
pub fn example_value_edit(text: &str) -> (r: Option<Option<JsonValue>>)
    ensures
        match r {
            None => !is_blank_spec(text@) && json_of(text@) is None,
            Some(None) => is_blank_spec(text@),
            Some(Some(v)) => !is_blank_spec(text@) && json_of(text@) == Some(v@),
        },
{
    if is_blank(text) {
        return Some(None);
    }
    match parse_json_text(text) {
        Some(v) => Some(Some(v)),
        None => None,
    }
}

/// What a one-line value field shows for `v`: nothing, a string's own text, or any other
/// value as one-line JSON.
pub open spec fn field_text_of(v: Option<JsonView>) -> Seq<char> {
    match v {
        None => Seq::empty(),
        Some(JsonView::String(t)) => t,
        Some(x) => json_line_of(x),
    }
}

/// The text of a one-line value field (a default, an example or an enum value).
pub fn field_text(v: Option<&JsonValue>) -> (r: String)
    ensures
        r@ == field_text_of(match v {
            Some(x) => Some(x@),
            None => None,
        }),
{
    match v {
        None => String::new(),
        Some(JsonValue::String(t)) => t.clone(),
        Some(x) => write_json_line(x),
    }
}

/// What an exclusive-bound field shows for `v`: nothing, a number's text, `true` or
/// `false`, or any other value as one-line JSON.
pub open spec fn bound_text_of(v: Option<JsonView>) -> Seq<char> {
    match v {
        None => Seq::empty(),
        Some(JsonView::Number(t)) => t,
        Some(JsonView::Bool(b)) => if b {
            "true"@
        } else {
            "false"@
        },
        Some(x) => json_line_of(x),
    }
}

/// The text of an exclusive-bound field.
pub fn bound_text(v: Option<&JsonValue>) -> (r: String)
    ensures
        r@ == bound_text_of(match v {
            Some(x) => Some(x@),
            None => None,
        }),
{
    match v {
        None => String::new(),
        Some(JsonValue::Number(t)) => t.clone(),
        Some(JsonValue::Bool(b)) => if *b {
            String::from_str("true")
        } else {
            String::from_str("false")
        },
        Some(x) => write_json_line(x),
    }
}

/// The example value box's text for `v`: nothing, or the value as indented JSON.
pub fn example_text(v: Option<&JsonValue>) -> (r: String)
    ensures
        r@ == match v {
            Some(x) => json_pretty_of(x@),
            None => Seq::empty(),
        },
{
    match v {
        None => String::new(),
        Some(x) => write_json_pretty(x),
    }
}

/// Lines joined by line ends.
pub open spec fn join_lines(ls: Seq<Seq<char>>) -> Seq<char>
    decreases ls.len(),
{
    if ls.len() == 0 {
        Seq::empty()
    } else if ls.len() == 1 {
        ls[0]
    } else {
        join_lines(ls.drop_last()) + "\n"@ + ls.last()
    }
}

/// The enum box's text for `vals`: each value as one-line JSON, one per line.
pub fn enum_text(vals: &Vec<JsonValue>) -> (r: String)
    ensures
        r@ == join_lines(vals@.map_values(|x: JsonValue| json_line_of(x@))),
{
    let ghost ls = vals@.map_values(|x: JsonValue| json_line_of(x@));
    let mut r = String::new();
    let mut i: usize = 0;
    assert(ls.take(0) =~= Seq::<Seq<char>>::empty());
    while i < vals.len()
        invariant
            ls == vals@.map_values(|x: JsonValue| json_line_of(x@)),
            i <= vals@.len(),
            r@ == join_lines(ls.take(i as int)),
        decreases vals@.len() - i,
    {
        let t = write_json_line(&vals[i]);
        assert(ls.take(i + 1).drop_last() =~= ls.take(i as int));
        assert(ls.take(i + 1).last() == t@);
        if i > 0 {
            r.append("\n");
        } else {
            assert(ls.take(1) =~= seq![t@]);
            assert(r@ =~= Seq::<char>::empty());
        }
        r.append(t.as_str());
        proof {
            reveal_strlit("\n");
        }
        i += 1;
        assert(r@ =~= join_lines(ls.take(i as int)));
    }
    assert(ls.take(vals@.len() as int) =~= ls);
    r
}

} // verus!
