//! Edits of a schema: its properties and their order, which of them are required, types,
//! formats, enumerations and composition lists.
use vstd::prelude::*;
use crate::json::JsonValue;
use crate::lint::str_views;
use crate::model::{Discriminator, Schema};
use crate::ordered_map::{find_key, has_key, insert_spec, lemma_find_key, move_spec, remove_spec, OrderedMap};
use crate::resource::split_spec;
use crate::text::{is_blank, is_blank_spec, str_eq, to_chars};

verus! {

// ── Formats ──────────────────────────────────────────────────────────────────

/// The formats offered for a type; the empty string stands for "no format".
pub open spec fn format_list(t: Seq<char>) -> Seq<Seq<char>> {
    if t == "string"@ {
        seq![
            ""@, "date"@, "date-time"@, "time"@, "duration"@, "email"@, "idn-email"@, "hostname"@,
            "idn-hostname"@, "ipv4"@, "ipv6"@, "uri"@, "uri-reference"@, "iri"@, "iri-reference"@,
            "uuid"@, "uri-template"@, "json-pointer"@, "relative-json-pointer"@, "regex"@, "byte"@,
            "binary"@, "password"@,
        ]
    } else if t == "number"@ {
        seq![""@, "float"@, "double"@]
    } else if t == "integer"@ {
        seq![""@, "int32"@, "int64"@]
    } else {
        seq![""@]
    }
}

pub fn format_options(type_str: &str) -> (r: Vec<&'static str>)
    ensures
        r@.map_values(|s: &'static str| s@) == format_list(type_str@),
{
    let r: Vec<&'static str> = if str_eq(type_str, "string") {
        vec![
            "", "date", "date-time", "time", "duration", "email", "idn-email", "hostname",
            "idn-hostname", "ipv4", "ipv6", "uri", "uri-reference", "iri", "iri-reference", "uuid",
            "uri-template", "json-pointer", "relative-json-pointer", "regex", "byte", "binary",
            "password",
        ]
    } else if str_eq(type_str, "number") {
        vec!["", "float", "double"]
    } else if str_eq(type_str, "integer") {
        vec!["", "int32", "int64"]
    } else {
        vec![""]
    };
    assert(r@.map_values(|s: &'static str| s@) =~= format_list(type_str@));
    r
}

/// Sets the format, or removes it for the empty choice.
pub fn set_format(schema: &mut Schema, opt: &str)
    ensures
        opt@.len() == 0 ==> final(schema).format is None,
        opt@.len() > 0 ==> (final(schema).format matches Some(f) && f@ == opt@),
        *final(schema) == (Schema { format: final(schema).format, ..*old(schema) }),
{
    if opt.is_empty() {
        schema.format = None;
    } else {
        schema.format = Some(String::from_str(opt));
    }
}

/// Which groups of constraints the schema editor shows for a type.
pub struct SchemaSections {
    pub string: bool,
    pub number: bool,
    pub array: bool,
    pub properties: bool,
}

impl Schema {
    /// String constraints for `string` and untyped schemas, number constraints for
    /// `number` and `integer`, array settings for `array`, and properties for `object` or
    /// whenever there are some.
    pub fn sections(&self) -> (r: SchemaSections)
        ensures
            r.string == (self.type_str_spec() == "string"@ || self.type_str_spec().len() == 0),
            r.number == (self.type_str_spec() == "number"@ || self.type_str_spec() == "integer"@),
            r.array == (self.type_str_spec() == "array"@),
            r.properties == (self.type_str_spec() == "object"@ || self.properties@.len() > 0),
    {
        let t = self.type_str();
        SchemaSections {
            string: str_eq(t, "string") || t.is_empty(),
            number: str_eq(t, "number") || str_eq(t, "integer"),
            array: str_eq(t, "array"),
            properties: str_eq(t, "object") || !self.properties.is_empty(),
        }
    }
}

// ── Properties ───────────────────────────────────────────────────────────────

/// `s` without the occurrences of `x`.
pub open spec fn without(s: Seq<Seq<char>>, x: Seq<char>) -> Seq<Seq<char>>
    decreases s.len(),
{
    if s.len() == 0 {
        s
    } else {
        without(s.drop_last(), x) + (if s.last() == x {
            Seq::empty()
        } else {
            seq![s.last()]
        })
    }
}

/// Position of the first `x` in `s`, or `-1`.
pub open spec fn first_index(s: Seq<Seq<char>>, x: Seq<char>) -> int
    decreases s.len(),
{
    if s.len() == 0 {
        -1
    } else {
        let r = first_index(s.drop_last(), x);
        if r >= 0 {
            r
        } else if s.last() == x {
            s.len() - 1
        } else {
            -1
        }
    }
}

proof fn lemma_first_index(s: Seq<Seq<char>>, x: Seq<char>)
    ensures
        -1 <= first_index(s, x) < s.len(),
        first_index(s, x) == -1 <==> !s.contains(x),
        first_index(s, x) >= 0 ==> s[first_index(s, x)] == x,
    decreases s.len(),
{
    if s.len() > 0 {
        lemma_first_index(s.drop_last(), x);
        if first_index(s, x) == -1 {
            assert forall|j: int| 0 <= j < s.len() implies s[j] != x by {
                if j < s.len() - 1 {
                    assert(s.drop_last()[j] == s[j]);
                }
            }
        } else if first_index(s.drop_last(), x) >= 0 {
            assert(s.drop_last()[first_index(s, x)] == s[first_index(s, x)]);
        }
        if s.contains(x) {
            let j = choose|j: int| 0 <= j < s.len() && s[j] == x;
            if j < s.len() - 1 {
                assert(s.drop_last()[j] == x);
            }
        }
    }
}

/// `s` with its first `x` replaced by `y`.
pub open spec fn replace_first(s: Seq<Seq<char>>, x: Seq<char>, y: Seq<char>) -> Seq<Seq<char>> {
    let i = first_index(s, x);
    if i >= 0 {
        s.update(i, y)
    } else {
        s
    }
}

/// Position of the first string equal to `x`.
fn position_of(v: &Vec<String>, x: &str) -> (r: Option<usize>)
    ensures
        match r {
            Some(i) => i as int == first_index(str_views(v@), x@),
            None => first_index(str_views(v@), x@) == -1,
        },
{
    let ghost sv = str_views(v@);
    let target = String::from_str(x);
    let mut i: usize = 0;
    while i < v.len()
        invariant
            sv == str_views(v@),
            target@ == x@,
            i <= v@.len(),
            first_index(sv.take(i as int), x@) == -1,
        decreases v@.len() - i,
    {
        assert(sv.take(i + 1).drop_last() =~= sv.take(i as int));
        if v[i] == target {
            assert(first_index(sv.take(i + 1), x@) == i);
            proof {
                lemma_first_index_prefix(sv, x@, i + 1);
            }
            return Some(i);
        }
        i += 1;
    }
    assert(sv.take(v@.len() as int) =~= sv);
    None
}

/// A first occurrence within a prefix is the first occurrence in the whole.
proof fn lemma_first_index_prefix(s: Seq<Seq<char>>, x: Seq<char>, n: int)
    requires
        0 <= n <= s.len(),
        first_index(s.take(n), x) >= 0,
    ensures
        first_index(s, x) == first_index(s.take(n), x),
    decreases s.len() - n,
{
    if n < s.len() {
        assert(s.take(n + 1).drop_last() =~= s.take(n));
        lemma_first_index_prefix(s, x, n + 1);
    } else {
        assert(s.take(n) =~= s);
    }
}

/// Removes every occurrence of `x` from `v`.
fn remove_all(v: &mut Vec<String>, x: &str)
    ensures
        str_views(final(v)@) == without(str_views(old(v)@), x@),
{
    let ghost sv = str_views(v@);
    let target = String::from_str(x);
    let mut out: Vec<String> = Vec::new();
    let mut i: usize = 0;
    while i < v.len()
        invariant
            sv == str_views(v@),
            target@ == x@,
            i <= v@.len(),
            str_views(out@) == without(sv.take(i as int), x@),
        decreases v@.len() - i,
    {
        assert(sv.take(i + 1).drop_last() =~= sv.take(i as int));
        if v[i] != target {
            out.push(v[i].clone());
        }
        i += 1;
        assert(str_views(out@) =~= without(sv.take(i as int), x@));
    }
    assert(sv.take(v@.len() as int) =~= sv);
    *v = out;
}

/// The schema with only its properties and required list possibly changed.
pub open spec fn props_changed(old: Schema, new: Schema) -> bool {
    new == Schema { properties: new.properties, required: new.required, ..old }
}

impl Schema {
    /// Marks the property `name` as required or not: requiring adds it at the end of the
    /// required list unless it is there; not requiring removes every mention of it.
    pub fn set_required(&mut self, name: &str, required: bool)
        ensures
            required ==> str_views(final(self).required@) == (if str_views(
                old(self).required@,
            ).contains(name@) {
                str_views(old(self).required@)
            } else {
                str_views(old(self).required@).push(name@)
            }),
            !required ==> str_views(final(self).required@) == without(
                str_views(old(self).required@),
                name@,
            ),
            *final(self) == (Schema { required: final(self).required, ..*old(self) }),
    {
        if required {
            let n = String::from_str(name);
            if !crate::lint::contains_string(&self.required, &n) {
                self.required.push(n);
                assert(str_views(self.required@) =~= str_views(old(self).required@).push(name@));
            }
        } else {
            remove_all(&mut self.required, name);
        }
    }

    /// Removes the property `name`, and its mentions in the required list.
    pub fn remove_property(&mut self, name: &str)
        ensures
            final(self).properties@ == remove_spec(old(self).properties@, name@),
            str_views(final(self).required@) == without(str_views(old(self).required@), name@),
            props_changed(*old(self), *final(self)),
    {
        self.properties.shift_remove(name);
        remove_all(&mut self.required, name);
    }

    /// Renames the property `old_name` to `new_name` when `new_name` is not empty, differs
    /// and is not taken and `old_name` exists: the property moves to the end under its new
    /// name, and its first mention in the required list is renamed. Returns whether it was
    /// renamed; otherwise nothing changes.
    pub fn rename_property(&mut self, old_name: &str, new_name: &str) -> (r: bool)
        ensures
            r == (new_name@.len() > 0 && new_name@ != old_name@ && !has_key(
                old(self).properties@,
                new_name@,
            ) && has_key(old(self).properties@, old_name@)),
            r ==> {
                &&& final(self).properties@ == remove_spec(old(self).properties@, old_name@).push(
                    (new_name@, old(self).properties@[find_key(old(self).properties@, old_name@)].1),
                )
                &&& str_views(final(self).required@) == replace_first(
                    str_views(old(self).required@),
                    old_name@,
                    new_name@,
                )
                &&& props_changed(*old(self), *final(self))
            },
            !r ==> *final(self) == *old(self),
    {
        if new_name.is_empty() || str_eq(new_name, old_name) || self.properties.contains_key(
            new_name,
        ) || !self.properties.contains_key(old_name) {
            return false;
        }
        proof {
            lemma_find_key(self.properties@, old_name@);
        }
        match self.properties.shift_remove(old_name) {
            Some(val) => {
                let ghost mid = self.properties@;
                proof {
                    lemma_find_key(mid, new_name@);
                    if has_key(mid, new_name@) {
                        let j = find_key(mid, new_name@);
                        lemma_find_key(old(self).properties@, new_name@);
                        let i = find_key(old(self).properties@, old_name@);
                        if j < i {
                            assert(mid[j] == old(self).properties@[j]);
                        } else {
                            assert(mid[j] == old(self).properties@[j + 1]);
                        }
                    }
                }
                self.properties.insert(String::from_str(new_name), val);
                let ghost rv = str_views(self.required@);
                proof {
                    lemma_first_index(rv, old_name@);
                }
                match position_of(&self.required, old_name) {
                    Some(pos) => {
                        self.required.set(pos, String::from_str(new_name));
                        assert(str_views(self.required@) =~= rv.update(pos as int, new_name@));
                    },
                    None => {},
                }
                true
            },
            None => false,
        }
    }

    /// Moves the property at `from` before the one at `to` (`to` equal to the number of
    /// properties moves it to the end). Positions out of range, and moves onto its own place,
    /// change nothing. Returns whether it moved.
    pub fn move_property(&mut self, from: usize, to: usize) -> (r: bool)
        ensures
            r == (from < old(self).properties@.len() && to <= old(self).properties@.len() && from
                != to && from + 1 != to),
            r ==> final(self).properties@ == move_spec(old(self).properties@, from as int, to as int),
            r ==> *final(self) == (Schema { properties: final(self).properties, ..*old(self) }),
            !r ==> *final(self) == *old(self),
    {
        let n = self.properties.len();
        if from < n && to <= n && from != to && from + 1 != to {
            self.properties.move_entry(from, to);
            true
        } else {
            false
        }
    }

    /// Adds an empty property `name` (replacing one of that name in place); an empty name
    /// changes nothing. Returns whether it added.
    pub fn add_property(&mut self, name: &str) -> (r: bool)
        ensures
            r == (name@.len() > 0),
            r ==> {
                let i = find_key(final(self).properties@, name@);
                &&& has_key(final(self).properties@, name@)
                &&& final(self).properties@[i].1.is_default_value()
                &&& final(self).properties@ == insert_spec(
                    old(self).properties@,
                    name@,
                    final(self).properties@[i].1,
                )
                &&& *final(self) == (Schema { properties: final(self).properties, ..*old(self) })
            },
            !r ==> *final(self) == *old(self),
    {
        if name.is_empty() {
            return false;
        }
        let v = Box::new(Schema::default());
        let ghost vv = v;
        self.properties.insert(String::from_str(name), v);
        proof {
            lemma_find_key(old(self).properties@, name@);
            lemma_find_key(self.properties@, name@);
            if has_key(old(self).properties@, name@) {
                let i = find_key(old(self).properties@, name@);
                assert(self.properties@[i] == (name@, vv));
                assert forall|j: int| 0 <= j < i implies self.properties@[j].0 != name@ by {
                    assert(self.properties@[j] == old(self).properties@[j]);
                }
            } else {
                assert(self.properties@.drop_last() == old(self).properties@);
                assert forall|j: int| 0 <= j < old(self).properties@.len() implies self.properties@[j].0 != name@ by {
                    assert(self.properties@[j] == old(self).properties@[j]);
                }
            }
        }
        true
    }

    /// What the property editor shows as the type: `$ref` for a reference, else the type.
    pub fn type_label(&self) -> (r: &str)
        ensures
            r@ == (if self.ref_ is Some {
                "$ref"@
            } else {
                self.type_str_spec()
            }),
    {
        if self.ref_.is_some() {
            "$ref"
        } else {
            self.type_str()
        }
    }

    /// Sets the type as chosen in the property editor: `$ref` clears the type and starts an
    /// empty reference unless there is one; any other choice removes the reference and sets
    /// the type (the empty choice removes it).
    pub fn set_type_choice(&mut self, t: &str)
        ensures
            t@ == "$ref"@ ==> {
                &&& final(self).type_ is None
                &&& final(self).ref_ == (match old(self).ref_ {
                    Some(r) => Some(r),
                    None => final(self).ref_,
                })
                &&& final(self).ref_ matches Some(r) && (old(self).ref_ is None ==> r@.len() == 0)
            },
            t@ != "$ref"@ ==> {
                &&& final(self).ref_ is None
                &&& final(self).type_str_spec() == t@
                &&& (t@.len() == 0 <==> final(self).type_ is None)
                &&& (final(self).type_ is Some ==> final(self).type_ matches Some(JsonValue::String(_)))
            },
            *final(self) == (Schema { ref_: final(self).ref_, type_: final(self).type_, ..*old(self) }),
    {
        if str_eq(t, "$ref") {
            proof {
                reveal_strlit("");
            }
            self.set_type_str("");
            if self.ref_.is_none() {
                self.ref_ = Some(String::new());
            }
        } else {
            self.ref_ = None;
            self.set_type_str(t);
        }
    }

    /// Gives an array schema an empty items schema when it has none.
    pub fn ensure_items(&mut self)
        ensures
            final(self).items matches Some(b) && match old(self).items {
                Some(ob) => b == ob,
                None => b.is_default_value(),
            },
            *final(self) == (Schema { items: final(self).items, ..*old(self) }),
    {
        if self.items.is_none() {
            self.items = Some(Box::new(Schema::default()));
        }
    }
}

// ── Enumerations ─────────────────────────────────────────────────────────────

/// The values of an enumeration as a list (none when absent).
pub open spec fn enum_values(s: Schema) -> Seq<JsonValue> {
    match s.enum_ {
        Some(v) => v@,
        None => Seq::empty(),
    }
}

impl Schema {
    /// Replaces the enumeration value at `i` by the string `text`.
    pub fn set_enum_text(&mut self, i: usize, text: String)
        requires
            i < enum_values(*old(self)).len(),
        ensures
            final(self).enum_ is Some,
            enum_values(*final(self)) == enum_values(*old(self)).update(i as int, JsonValue::String(text)),
            *final(self) == (Schema { enum_: final(self).enum_, ..*old(self) }),
    {
        match &mut self.enum_ {
            Some(v) => {
                v.set(i, JsonValue::String(text));
            },
            None => {},
        }
    }

    /// Removes the enumeration value at `i`; removing the last one removes the enumeration.
    pub fn remove_enum_value(&mut self, i: usize)
        requires
            i < enum_values(*old(self)).len(),
        ensures
            enum_values(*final(self)) == enum_values(*old(self)).remove(i as int),
            final(self).enum_ is None <==> enum_values(*old(self)).len() == 1,
            *final(self) == (Schema { enum_: final(self).enum_, ..*old(self) }),
    {
        let mut empty = false;
        match &mut self.enum_ {
            Some(v) => {
                v.remove(i);
                empty = v.len() == 0;
            },
            None => {},
        }
        if empty {
            self.enum_ = None;
        }
    }

    /// Adds an empty string to the enumeration, starting one when there is none.
    pub fn add_enum_value(&mut self)
        ensures
            final(self).enum_ is Some,
            enum_values(*final(self)) == enum_values(*old(self)).push(JsonValue::String(final(self).enum_->0@.last()->String_0)),
            final(self).enum_->0@.last() matches JsonValue::String(s) && s@.len() == 0,
            *final(self) == (Schema { enum_: final(self).enum_, ..*old(self) }),
    {
        if self.enum_.is_none() {
            self.enum_ = Some(Vec::new());
        }
        match &mut self.enum_ {
            Some(v) => {
                v.push(JsonValue::String(String::new()));
            },
            None => {},
        }
    }

    /// The default of a boolean property as offered in its menu: `"true"`, `"false"`, or
    /// `""` for anything else.
    pub fn bool_default_label(&self) -> (r: &'static str)
        ensures
            r@ == (match self.default {
                Some(JsonValue::Bool(true)) => "true"@,
                Some(JsonValue::Bool(false)) => "false"@,
                _ => ""@,
            }),
    {
        match &self.default {
            Some(JsonValue::Bool(b)) => if *b {
                "true"
            } else {
                "false"
            },
            _ => "",
        }
    }

    /// Sets the default of a boolean property from its menu choice; any choice other than
    /// `"true"` and `"false"` removes the default.
    pub fn set_bool_default(&mut self, opt: &str)
        ensures
            final(self).default == (if opt@ == "true"@ {
                Some(JsonValue::Bool(true))
            } else if opt@ == "false"@ {
                Some(JsonValue::Bool(false))
            } else {
                None
            }),
            *final(self) == (Schema { default: final(self).default, ..*old(self) }),
    {
        if str_eq(opt, "true") {
            self.default = Some(JsonValue::Bool(true));
        } else if str_eq(opt, "false") {
            self.default = Some(JsonValue::Bool(false));
        } else {
            self.default = None;
        }
    }
}

/// The lines of `s` in the sense of `str::lines`: split at `\n`, a `\r` before a `\n`
/// dropped, and no empty last line after a final line end.
pub open spec fn lines_spec(s: Seq<char>) -> Seq<Seq<char>> {
    let parts = split_spec(s, '\n');
    let n = parts.len() - 1;
    let body = Seq::new(
        n as nat,
        |i: int|
            if parts[i].len() > 0 && parts[i].last() == '\r' {
                parts[i].drop_last()
            } else {
                parts[i]
            },
    );
    if parts[n].len() == 0 {
        body
    } else {
        body.push(parts[n])
    }
}

/// The lines of `s` that are not blank.
pub open spec fn filled_lines(lines: Seq<Seq<char>>) -> Seq<Seq<char>>
    decreases lines.len(),
{
    if lines.len() == 0 {
        lines
    } else {
        filled_lines(lines.drop_last()) + (if is_blank_spec(lines.last()) {
            Seq::empty()
        } else {
            seq![lines.last()]
        })
    }
}

/// The enumeration editor's lines that hold a value: those that are not blank.
pub fn enum_lines(text: &str) -> (r: Vec<String>)
    ensures
        str_views(r@) == filled_lines(lines_spec(text@)),
{
    let v = to_chars(text);
    let mut parts: Vec<Vec<char>> = Vec::new();
    parts.push(Vec::new());
    let mut i: usize = 0;
    assert(v@.take(0) =~= Seq::<char>::empty());
    assert(parts@.map_values(|w: Vec<char>| w@) =~= split_spec(v@.take(0), '\n'));
    while i < v.len()
        invariant
            v@ == text@,
            i <= v@.len(),
            parts@.len() >= 1,
            parts@.map_values(|w: Vec<char>| w@) == split_spec(v@.take(i as int), '\n'),
        decreases v@.len() - i,
    {
        let ghost prev = parts@.map_values(|w: Vec<char>| w@);
        assert(v@.take(i + 1).drop_last() =~= v@.take(i as int));
        if v[i] == '\n' {
            parts.push(Vec::new());
            assert(parts@.map_values(|w: Vec<char>| w@) =~= prev.push(Seq::empty()));
        } else {
            let last = parts.len() - 1;
            let mut w = parts.remove(last);
            w.push(v[i]);
            parts.push(w);
            assert(parts@.map_values(|w: Vec<char>| w@) =~= prev.update(
                prev.len() - 1,
                prev.last().push(v@[i as int]),
            ));
        }
        i += 1;
    }
    assert(v@.take(v@.len() as int) =~= v@);
    let ghost pv = parts@.map_values(|w: Vec<char>| w@);
    let ghost lines = lines_spec(text@);
    let n = parts.len() - 1;
    let mut out: Vec<String> = Vec::new();
    let mut j: usize = 0;
    while j < parts.len()
        invariant
            pv == parts@.map_values(|w: Vec<char>| w@),
            pv == split_spec(text@, '\n'),
            lines == lines_spec(text@),
            n + 1 == parts@.len(),
            j <= parts@.len(),
            j <= n ==> str_views(out@) == filled_lines(lines.take(j as int)),
            j == n + 1 ==> str_views(out@) == filled_lines(lines),
        decreases parts@.len() - j,
    {
        let w = &parts[j];
        if j < n {
            let mut len = w.len();
            if len > 0 && w[len - 1] == '\r' {
                len = len - 1;
            }
            let line = crate::text::chars_range(w, 0, len);
            assert(line@ =~= lines[j as int]);
            assert(lines.take(j + 1).drop_last() =~= lines.take(j as int));
            if !is_blank(line.as_str()) {
                out.push(line);
            }
            assert(str_views(out@) =~= filled_lines(lines.take(j + 1)));
        } else {
            let line = crate::text::chars_range(w, 0, w.len());
            assert(line@ =~= pv[n as int]);
            if line.as_str().is_empty() {
                assert(lines =~= lines.take(n as int));
            } else {
                assert(lines.drop_last() =~= lines.take(n as int));
                if !is_blank(line.as_str()) {
                    out.push(line);
                }
                assert(str_views(out@) =~= filled_lines(lines));
            }
        }
        j += 1;
    }
    out
}

// ── Composition ──────────────────────────────────────────────────────────────

/// The three ways of composing schemas.
#[derive(Debug, Clone, Copy, PartialEq, Eq, Structural)]
pub enum CompKind {
    AllOf,
    AnyOf,
    OneOf,
}

impl CompKind {
    /// The keyword of the composition.
    pub fn label(self) -> (r: &'static str)
        ensures
            r@ == (match self {
                CompKind::AllOf => "allOf"@,
                CompKind::AnyOf => "anyOf"@,
                CompKind::OneOf => "oneOf"@,
            }),
    {
        match self {
            CompKind::AllOf => "allOf",
            CompKind::AnyOf => "anyOf",
            CompKind::OneOf => "oneOf",
        }
    }
}

/// The entries of the composition list `k`.
pub open spec fn comp_list(s: Schema, k: CompKind) -> Seq<Box<Schema>> {
    match k {
        CompKind::AllOf => s.all_of@,
        CompKind::AnyOf => s.any_of@,
        CompKind::OneOf => s.one_of@,
    }
}

/// `new` is `old` except possibly in its composition lists.
pub open spec fn comps_changed(old: Schema, new: Schema) -> bool {
    new == Schema { all_of: new.all_of, any_of: new.any_of, one_of: new.one_of, ..old }
}

/// The lists other than those named keep their entries.
pub open spec fn other_lists_kept(old: Schema, new: Schema, a: CompKind, b: CompKind) -> bool {
    forall|k: CompKind| k != a && k != b ==> comp_list(new, k) == comp_list(old, k)
}

impl Schema {
    /// Whether the schema uses any composition list.
    pub fn has_composition(&self) -> (r: bool)
        ensures
            r == (self.all_of@.len() > 0 || self.any_of@.len() > 0 || self.one_of@.len() > 0),
    {
        !self.all_of.is_empty() || !self.any_of.is_empty() || !self.one_of.is_empty()
    }

    /// The composition a schema shows first: `allOf` when it has entries, else `anyOf` when
    /// it has entries, else `oneOf`.
    pub fn inferred_comp_kind(&self) -> (r: CompKind)
        ensures
            r == (if self.all_of@.len() > 0 {
                CompKind::AllOf
            } else if self.any_of@.len() > 0 {
                CompKind::AnyOf
            } else {
                CompKind::OneOf
            }),
    {
        if !self.all_of.is_empty() {
            CompKind::AllOf
        } else if !self.any_of.is_empty() {
            CompKind::AnyOf
        } else {
            CompKind::OneOf
        }
    }

    fn take_list(&mut self, k: CompKind) -> (r: Vec<Box<Schema>>)
        ensures
            r@ == comp_list(*old(self), k),
            comp_list(*final(self), k).len() == 0,
            other_lists_kept(*old(self), *final(self), k, k),
            comps_changed(*old(self), *final(self)),
    {
        let mut out: Vec<Box<Schema>> = Vec::new();
        match k {
            CompKind::AllOf => std::mem::swap(&mut out, &mut self.all_of),
            CompKind::AnyOf => std::mem::swap(&mut out, &mut self.any_of),
            CompKind::OneOf => std::mem::swap(&mut out, &mut self.one_of),
        }
        out
    }

    fn list_mut(&mut self, k: CompKind) -> (r: &mut Vec<Box<Schema>>)
        ensures
            r@ == comp_list(*old(self), k),
            comp_list(*final(self), k) == final(r)@,
            other_lists_kept(*old(self), *final(self), k, k),
            comps_changed(*old(self), *final(self)),
    {
        match k {
            CompKind::AllOf => &mut self.all_of,
            CompKind::AnyOf => &mut self.any_of,
            CompKind::OneOf => &mut self.one_of,
        }
    }

    /// Moves the entries of the list `from` to the end of the list `to` when the kind of
    /// composition changes; the same kind changes nothing.
    pub fn migrate_composition(&mut self, from: CompKind, to: CompKind)
        ensures
            from == to ==> *final(self) == *old(self),
            from != to ==> {
                &&& comp_list(*final(self), to) == comp_list(*old(self), to) + comp_list(*old(self), from)
                &&& comp_list(*final(self), from).len() == 0
                &&& other_lists_kept(*old(self), *final(self), from, to)
                &&& comps_changed(*old(self), *final(self))
            },
    {
        if from == to {
            return;
        }
        let mut entries = self.take_list(from);
        let ghost mid = *self;
        let target = self.list_mut(to);
        target.append(&mut entries);
    }

    /// The number of entries of the list `k`.
    pub fn comp_len(&self, k: CompKind) -> (n: usize)
        ensures
            n == comp_list(*self, k).len(),
    {
        match k {
            CompKind::AllOf => self.all_of.len(),
            CompKind::AnyOf => self.any_of.len(),
            CompKind::OneOf => self.one_of.len(),
        }
    }

    /// The entry `i` of the list `k`.
    pub fn comp_entry_mut(&mut self, k: CompKind, i: usize) -> (r: &mut Schema)
        requires
            i < comp_list(*old(self), k).len(),
        ensures
            *r == *comp_list(*old(self), k)[i as int],
            comp_list(*final(self), k) == comp_list(*old(self), k).update(i as int, Box::new(*final(r))),
            other_lists_kept(*old(self), *final(self), k, k),
            comps_changed(*old(self), *final(self)),
    {
        let list = self.list_mut(k);
        let b = &mut list[i];
        &mut **b
    }

    /// Removes the entry `i` of the list `k`.
    pub fn remove_comp_entry(&mut self, k: CompKind, i: usize)
        requires
            i < comp_list(*old(self), k).len(),
        ensures
            comp_list(*final(self), k) == comp_list(*old(self), k).remove(i as int),
            other_lists_kept(*old(self), *final(self), k, k),
            comps_changed(*old(self), *final(self)),
    {
        let list = self.list_mut(k);
        list.remove(i);
    }

    /// Adds an empty entry at the end of the list `k`.
    pub fn add_comp_entry(&mut self, k: CompKind)
        ensures
            comp_list(*final(self), k).len() == comp_list(*old(self), k).len() + 1,
            comp_list(*final(self), k).drop_last() == comp_list(*old(self), k),
            comp_list(*final(self), k).last().is_default_value(),
            other_lists_kept(*old(self), *final(self), k, k),
            comps_changed(*old(self), *final(self)),
    {
        let list = self.list_mut(k);
        list.push(Box::new(Schema::default()));
        assert(list@.drop_last() =~= comp_list(*old(self), k));
    }

    /// How an entry of a composition is titled: its reference, else its type, else its
    /// number (counting from 1).
    pub fn comp_entry_label(&self, i: usize) -> (r: String)
        requires
            i < usize::MAX,
        ensures
            r@ == (match self.ref_ {
                Some(x) => "$ref: "@ + x@,
                None => if self.type_str_spec().len() > 0 {
                    self.type_str_spec()
                } else {
                    "Entry "@ + crate::text::decimal((i + 1) as nat)
                },
            }),
    {
        match &self.ref_ {
            Some(x) => crate::text::cat("$ref: ", x.as_str()),
            None => {
                let t = self.type_str();
                if !t.is_empty() {
                    String::from_str(t)
                } else {
                    crate::text::cat("Entry ", crate::text::usize_to_decimal(i + 1).as_str())
                }
            },
        }
    }

    /// Makes a composition entry inline (no reference) or a reference (an empty one when
    /// it had none).
    pub fn set_entry_ref(&mut self, as_ref: bool)
        ensures
            !as_ref ==> final(self).ref_ is None,
            as_ref ==> (final(self).ref_ matches Some(r) && match old(self).ref_ {
                Some(o) => r == o,
                None => r@.len() == 0,
            }),
            *final(self) == (Schema { ref_: final(self).ref_, ..*old(self) }),
    {
        if !as_ref {
            self.ref_ = None;
        } else if self.ref_.is_none() {
            self.ref_ = Some(String::new());
        }
    }

    /// Sets the discriminator's property name; a schema is left without a discriminator
    /// whenever the name is empty.
    pub fn set_discriminator_name(&mut self, name: String)
        ensures
            name@.len() == 0 ==> final(self).discriminator is None,
            name@.len() > 0 ==> (final(self).discriminator matches Some(d) && d.property_name@ == name@
                && match old(self).discriminator {
                Some(od) => d.mapping == od.mapping,
                None => d.mapping@.len() == 0,
            }),
            *final(self) == (Schema { discriminator: final(self).discriminator, ..*old(self) }),
    {
        if name.as_str().is_empty() {
            self.discriminator = None;
        } else {
            match &mut self.discriminator {
                Some(d) => {
                    d.property_name = name;
                },
                None => {
                    self.discriminator = Some(Discriminator { property_name: name, mapping: OrderedMap::new() });
                },
            }
        }
    }

    /// Drops a discriminator whose property name is empty.
    pub fn drop_empty_discriminator(&mut self)
        ensures
            final(self).discriminator == (match old(self).discriminator {
                Some(d) => if d.property_name@.len() == 0 {
                    None
                } else {
                    Some(d)
                },
                None => None,
            }),
            *final(self) == (Schema { discriminator: final(self).discriminator, ..*old(self) }),
    {
        let empty = match &self.discriminator {
            Some(d) => d.property_name.as_str().is_empty(),
            None => false,
        };
        if empty {
            self.discriminator = None;
        }
    }
}

// ── Numbers typed by the user ────────────────────────────────────────────────

pub open spec fn digit_value(c: char) -> nat {
    ((c as u32) - ('0' as u32)) as nat
}

/// The value of a string of decimal digits.
pub open spec fn digits_value(s: Seq<char>) -> nat
    decreases s.len(),
{
    if s.len() == 0 {
        0
    } else {
        digits_value(s.drop_last()) * 10 + digit_value(s.last())
    }
}

pub open spec fn all_digits(s: Seq<char>) -> bool {
    forall|i: int| 0 <= i < s.len() ==> '0' <= #[trigger] s[i] <= '9'
}

/// What `u64::from_str` accepts: an optional `+` and at least one decimal digit, with a
/// value that fits in 64 bits.
pub open spec fn parse_u64_spec(s: Seq<char>) -> Option<u64> {
    let d = if s.len() > 0 && s[0] == '+' {
        s.drop_first()
    } else {
        s
    };
    if d.len() > 0 && all_digits(d) && digits_value(d) <= u64::MAX {
        Some(digits_value(d) as u64)
    } else {
        None
    }
}

/// Reads a count typed into a field (`min length` and the like): `None` for anything
/// that is not a 64-bit unsigned number.
pub fn parse_u64(s: &str) -> (r: Option<u64>)
    ensures
        r == parse_u64_spec(s@),
{
    let v = to_chars(s);
    let start: usize = if v.len() > 0 && v[0] == '+' {
        1
    } else {
        0
    };
    let ghost d = s@.skip(start as int);
    assert(d =~= (if s@.len() > 0 && s@[0] == '+' {
        s@.drop_first()
    } else {
        s@
    }));
    if start >= v.len() {
        return None;
    }
    let mut acc: u64 = 0;
    let mut i = start;
    while i < v.len()
        invariant
            v@ == s@,
            start <= i <= v@.len(),
            d == s@.skip(start as int),
            d == (if s@.len() > 0 && s@[0] == '+' {
                s@.drop_first()
            } else {
                s@
            }),
            all_digits(s@.subrange(start as int, i as int)),
            acc as nat == digits_value(s@.subrange(start as int, i as int)),
        decreases v@.len() - i,
    {
        let c = v[i];
        if !('0' <= c && c <= '9') {
            assert(d[i - start] == c);
            return None;
        }
        let dv = ((c as u32) - ('0' as u32)) as u64;
        assert(s@.subrange(start as int, i + 1).drop_last() =~= s@.subrange(start as int, i as int));
        if acc > (u64::MAX - dv) / 10 {
            proof {
                assert(d.take(i - start + 1) =~= s@.subrange(start as int, i + 1));
                assert(acc * 10 + dv > u64::MAX) by (nonlinear_arith)
                    requires
                        acc > (u64::MAX - dv) / 10,
                        dv <= 9,
                ;
                if all_digits(d) {
                    lemma_digits_monotone(d, (i - start + 1) as int);
                }
            }
            return None;
        }
        assert(acc * 10 + dv <= u64::MAX) by (nonlinear_arith)
            requires
                acc <= (u64::MAX - dv) / 10,
                dv <= 9,
        ;
        acc = acc * 10 + dv;
        i += 1;
    }
    assert(s@.subrange(start as int, v@.len() as int) =~= d);
    Some(acc)
}

/// A string of digits is worth at least each of its prefixes.
proof fn lemma_digits_monotone(d: Seq<char>, n: int)
    requires
        0 <= n <= d.len(),
        all_digits(d),
    ensures
        digits_value(d.take(n)) <= digits_value(d),
    decreases d.len() - n,
{
    if n < d.len() {
        lemma_digits_monotone(d, n + 1);
        assert(d.take(n + 1).drop_last() =~= d.take(n));
        assert(digits_value(d.take(n + 1)) == digits_value(d.take(n)) * 10 + digit_value(d[n]));
    } else {
        assert(d.take(n) =~= d);
    }
}

} // verus!
