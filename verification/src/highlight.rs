//! Syntax classes for the raw YAML editor: each piece of text gets the class that decides
//! its colour.
use vstd::prelude::*;
use crate::resource::split_spec;
use crate::text::{
    byte_index, byte_offset, chars_range, is_space, is_whitespace, lead_len, leading_space_count,
    split_chars_at, to_chars, trim_end, trim_end_spec, utf8_width,
};

verus! {

/// The class of a piece of highlighted text.
#[derive(Debug, Clone, Copy, PartialEq, Eq, Structural)]
pub enum YamlTok {
    /// Ordinary text: indentation, separators, unclassified scalars, line ends.
    Plain,
    Comment,
    /// A mapping key.
    Key,
    /// The key `$ref` and its value.
    RefKey,
    /// A quoted scalar.
    Str,
    Number,
    /// `true`, `false`, `null` and the other YAML keywords.
    Keyword,
    /// A document marker or a list dash.
    Marker,
}

// ── Quotes, keys and comments ────────────────────────────────────────────────

/// Whether a single-quoted and a double-quoted string are open before position `n`:
/// each quote toggles its kind unless it stands inside the other kind.
pub open spec fn quotes_open(s: Seq<char>, n: int) -> (bool, bool)
    decreases n,
{
    if n <= 0 {
        (false, false)
    } else {
        let (sq, dq) = quotes_open(s, n - 1);
        let c = s[n - 1];
        if c == '\'' && !dq {
            (!sq, dq)
        } else if c == '"' && !sq {
            (sq, !dq)
        } else {
            (sq, dq)
        }
    }
}

pub open spec fn outside_quotes(s: Seq<char>, i: int) -> bool {
    !quotes_open(s, i).0 && !quotes_open(s, i).1
}

/// The `:` at `i` ends a key: it is outside quotes and is followed by the end, a space
/// or a tab.
pub open spec fn is_key_colon(s: Seq<char>, i: int) -> bool {
    &&& 0 <= i < s.len()
    &&& s[i] == ':'
    &&& outside_quotes(s, i)
    &&& (i + 1 == s.len() || s[i + 1] == ' ' || s[i + 1] == '\t')
}

/// The first key colon at or after `i`, or `-1`.
pub open spec fn key_colon_from(s: Seq<char>, i: int) -> int
    decreases s.len() - i,
{
    if i >= s.len() {
        -1
    } else if i >= 0 && is_key_colon(s, i) {
        i
    } else {
        key_colon_from(s, i + 1)
    }
}

/// A `#` at `i` starts a comment: it follows a space and is outside quotes.
pub open spec fn is_comment_start(s: Seq<char>, i: int) -> bool {
    &&& 0 < i < s.len()
    &&& s[i] == '#'
    &&& s[i - 1] == ' '
    &&& outside_quotes(s, i)
}

/// The first comment start at or after `i`, or `-1`.
pub open spec fn comment_from(s: Seq<char>, i: int) -> int
    decreases s.len() - i,
{
    if i >= s.len() {
        -1
    } else if i >= 0 && is_comment_start(s, i) {
        i
    } else {
        comment_from(s, i + 1)
    }
}

pub proof fn lemma_key_colon_from(s: Seq<char>, i: int)
    requires
        0 <= i,
    ensures
        key_colon_from(s, i) == -1 || (i <= key_colon_from(s, i) < s.len() && is_key_colon(
            s,
            key_colon_from(s, i),
        )),
    decreases s.len() - i,
{
    if i < s.len() && !is_key_colon(s, i) {
        lemma_key_colon_from(s, i + 1);
    }
}

/// The first comment start, when there is one, lies inside the text after position 0.
pub proof fn lemma_comment_from_bounds(s: Seq<char>, i: int)
    requires
        0 <= i,
    ensures
        comment_from(s, i) == -1 || (i <= comment_from(s, i) < s.len() && comment_from(s, i) > 0),
{
    lemma_comment_from(s, i);
}

proof fn lemma_comment_from(s: Seq<char>, i: int)
    requires
        0 <= i,
    ensures
        comment_from(s, i) == -1 || (i <= comment_from(s, i) < s.len() && is_comment_start(
            s,
            comment_from(s, i),
        )),
    decreases s.len() - i,
{
    if i < s.len() && !is_comment_start(s, i) {
        lemma_comment_from(s, i + 1);
    }
}

/// Position of the first key colon of `v`.
fn key_colon_index(v: &Vec<char>) -> (r: Option<usize>)
    ensures
        match r {
            Some(i) => i as int == key_colon_from(v@, 0) && i < v@.len(),
            None => key_colon_from(v@, 0) == -1,
        },
{
    proof {
        lemma_key_colon_from(v@, 0);
    }
    let mut sq = false;
    let mut dq = false;
    let mut i: usize = 0;
    while i < v.len()
        invariant
            i <= v@.len(),
            (sq, dq) == quotes_open(v@, i as int),
            key_colon_from(v@, 0) == key_colon_from(v@, i as int),
        decreases v@.len() - i,
    {
        let c = v[i];
        if c == ':' && !sq && !dq {
            if i + 1 == v.len() || v[i + 1] == ' ' || v[i + 1] == '\t' {
                return Some(i);
            }
        }
        if c == '\'' && !dq {
            sq = !sq;
        } else if c == '"' && !sq {
            dq = !dq;
        }
        i += 1;
    }
    None
}

/// Position of the first comment start of `v`.
fn comment_index(v: &Vec<char>) -> (r: Option<usize>)
    ensures
        match r {
            Some(i) => i as int == comment_from(v@, 0) && 0 < i < v@.len(),
            None => comment_from(v@, 0) == -1,
        },
{
    proof {
        lemma_comment_from(v@, 0);
    }
    let mut sq = false;
    let mut dq = false;
    let mut i: usize = 0;
    while i < v.len()
        invariant
            i <= v@.len(),
            (sq, dq) == quotes_open(v@, i as int),
            comment_from(v@, 0) == comment_from(v@, i as int),
        decreases v@.len() - i,
    {
        let c = v[i];
        if c == '#' && !sq && !dq && i > 0 && v[i - 1] == ' ' {
            return Some(i);
        }
        if c == '\'' && !dq {
            sq = !sq;
        } else if c == '"' && !sq {
            dq = !dq;
        }
        i += 1;
    }
    None
}

/// The byte offset of the `:` that ends a YAML key in `s`, when there is one: the first
/// `:` outside quotes that is followed by the end, a space or a tab.
pub fn yaml_key_colon(s: &str) -> (r: Option<usize>)
    ensures
        match r {
            Some(b) => key_colon_from(s@, 0) >= 0 && b == byte_offset(s@, key_colon_from(s@, 0)),
            None => key_colon_from(s@, 0) == -1,
        },
{
    let v = to_chars(s);
    match key_colon_index(&v) {
        Some(i) => Some(byte_index(s, i)),
        None => None,
    }
}

/// The value and the comment of a scalar: `"value # note"` gives `("value", " # note")`.
/// The comment starts at the space before the first `#` outside quotes that follows a
/// space; the value is what precedes it, without trailing white space. Without such a
/// `#` the value is all of `s`.
pub open spec fn split_comment_spec(s: Seq<char>) -> (Seq<char>, Seq<char>) {
    let i = comment_from(s, 0);
    if i > 0 {
        (trim_end_spec(s.take(i - 1)), s.skip(i - 1))
    } else {
        (s, Seq::empty())
    }
}

pub fn yaml_split_comment(s: &str) -> (r: (&str, &str))
    ensures
        (r.0@, r.1@) == split_comment_spec(s@),
{
    let v = to_chars(s);
    match comment_index(&v) {
        Some(i) => {
            let (head, tail) = split_chars_at(s, i - 1);
            (trim_end(head), tail)
        },
        None => {
            let (_, e) = split_chars_at(s, v.len());
            assert(s@.take(s@.len() as int) =~= s@);
            assert(s@.skip(s@.len() as int) =~= Seq::<char>::empty());
            (s, e)
        },
    }
}

// ── Scalars ──────────────────────────────────────────────────────────────────

pub open spec fn is_ascii_digit(c: char) -> bool {
    '0' <= c <= '9'
}

/// A character that may occur in a number: a digit or one of `._eE+-`.
pub open spec fn numeric_char(c: char) -> bool {
    is_ascii_digit(c) || c == '.' || c == '_' || c == 'e' || c == 'E' || c == '+' || c == '-'
}

pub open spec fn is_yaml_keyword(t: Seq<char>) -> bool {
    t == "true"@ || t == "false"@ || t == "null"@ || t == "~"@ || t == "yes"@ || t == "no"@
        || t == "on"@ || t == "off"@
}

/// The class of a scalar: quoted text is a string; a keyword (trailing white space
/// aside) is a keyword; text that starts with a digit, or with `-` and a digit, and holds
/// only number characters is a number; anything else is plain.
pub open spec fn value_class(val: Seq<char>) -> YamlTok {
    let t = trim_end_spec(val);
    if val.len() > 0 && (val[0] == '\'' || val[0] == '"') {
        YamlTok::Str
    } else if is_yaml_keyword(t) {
        YamlTok::Keyword
    } else if ((t.len() > 0 && is_ascii_digit(t[0])) || (t.len() > 1 && t[0] == '-' && is_ascii_digit(
        t[1],
    ))) && (forall|i: int| 0 <= i < t.len() ==> numeric_char(#[trigger] t[i])) {
        YamlTok::Number
    } else {
        YamlTok::Plain
    }
}

fn str_is(s: &str, lit: &str) -> (r: bool)
    ensures
        r == (s@ == lit@),
{
    crate::text::str_eq(s, lit)
}

/// The colour class of a YAML scalar.
pub fn yaml_value_color(val: &str) -> (r: YamlTok)
    ensures
        r == value_class(val@),
{
    let v = to_chars(val);
    if v.len() > 0 && (v[0] == '\'' || v[0] == '"') {
        return YamlTok::Str;
    }
    let t = trim_end(val);
    if str_is(t, "true") || str_is(t, "false") || str_is(t, "null") || str_is(t, "~") || str_is(
        t,
        "yes",
    ) || str_is(t, "no") || str_is(t, "on") || str_is(t, "off") {
        return YamlTok::Keyword;
    }
    let w = to_chars(t);
    let starts = (w.len() > 0 && '0' <= w[0] && w[0] <= '9') || (w.len() > 1 && w[0] == '-' && '0'
        <= w[1] && w[1] <= '9');
    if starts {
        let mut i: usize = 0;
        while i < w.len()
            invariant
                w@ == t@,
                t@ == trim_end_spec(val@),
                !(val@.len() > 0 && (val@[0] == '\'' || val@[0] == '"')),
                !is_yaml_keyword(t@),
                i <= w@.len(),
                forall|j: int| 0 <= j < i ==> numeric_char(#[trigger] w@[j]),
            decreases w@.len() - i,
        {
            let c = w[i];
            if !(('0' <= c && c <= '9') || c == '.' || c == '_' || c == 'e' || c == 'E' || c == '+'
                || c == '-') {
                assert(!numeric_char(w@[i as int]));
                return YamlTok::Plain;
            }
            i += 1;
        }
        YamlTok::Number
    } else {
        YamlTok::Plain
    }
}

// ── Lines ────────────────────────────────────────────────────────────────────

/// A piece of text with its class; empty text gives no piece.
pub open spec fn tok(t: Seq<char>, k: YamlTok) -> Seq<(Seq<char>, YamlTok)> {
    if t.len() == 0 {
        Seq::empty()
    } else {
        seq![(t, k)]
    }
}

/// The pieces after a key's colon: the space before the value, the value (in the key's
/// class for `$ref`) and its comment; nothing when only white space follows.
pub open spec fn value_toks(rest: Seq<char>, is_ref: bool) -> Seq<(Seq<char>, YamlTok)> {
    let vs = lead_len(rest);
    if vs < rest.len() {
        let (val, cmt) = split_comment_spec(rest.skip(vs as int));
        tok(rest.take(vs as int), YamlTok::Plain) + tok(
            val,
            if is_ref {
                YamlTok::RefKey
            } else {
                value_class(val)
            },
        ) + tok(cmt, YamlTok::Comment)
    } else {
        Seq::empty()
    }
}

/// The pieces of the text after an optional list dash: a key, its colon and what
/// follows; or, without a key, the whole as a scalar.
pub open spec fn content_toks(content: Seq<char>) -> Seq<(Seq<char>, YamlTok)> {
    let k = key_colon_from(content, 0);
    if k >= 0 {
        let key = content.take(k);
        let is_ref = key == "$ref"@;
        tok(key, if is_ref { YamlTok::RefKey } else { YamlTok::Key }) + tok(":"@, YamlTok::Plain)
            + value_toks(content.skip(k + 1), is_ref)
    } else {
        tok(content, value_class(content))
    }
}

/// The pieces of one line, without its line end: a comment line, a document marker, or
/// the indentation, an optional list dash and the content.
pub open spec fn line_toks(line: Seq<char>) -> Seq<(Seq<char>, YamlTok)> {
    let n = lead_len(line);
    let t = line.skip(n as int);
    if t.len() > 0 && t[0] == '#' {
        tok(line, YamlTok::Comment)
    } else if t == "---"@ || t == "..."@ {
        tok(line, YamlTok::Marker)
    } else if t == "-"@ {
        tok(line.take(n as int), YamlTok::Plain) + tok("-"@, YamlTok::Marker)
    } else if t.len() >= 2 && t[0] == '-' && t[1] == ' ' {
        tok(line.take(n as int), YamlTok::Plain) + tok("- "@, YamlTok::Marker) + content_toks(t.skip(2))
    } else {
        tok(line.take(n as int), YamlTok::Plain) + content_toks(t)
    }
}

/// The pieces of the first `n` lines, each followed by a line end.
pub open spec fn lines_toks(lines: Seq<Seq<char>>, n: int) -> Seq<(Seq<char>, YamlTok)>
    decreases n,
{
    if n <= 0 {
        Seq::empty()
    } else {
        lines_toks(lines, n - 1) + line_toks(lines[n - 1]) + tok("\n"@, YamlTok::Plain)
    }
}

/// The pieces of a YAML text, line by line.
pub open spec fn yaml_toks(code: Seq<char>) -> Seq<(Seq<char>, YamlTok)> {
    let lines = split_spec(code, '\n');
    lines_toks(lines, lines.len() as int)
}

pub open spec fn toks_view(v: Seq<(String, YamlTok)>) -> Seq<(Seq<char>, YamlTok)> {
    v.map_values(|p: (String, YamlTok)| (p.0@, p.1))
}

/// Appends a piece unless its text is empty.
fn push_tok(out: &mut Vec<(String, YamlTok)>, t: String, k: YamlTok)
    ensures
        toks_view(final(out)@) == toks_view(old(out)@) + tok(t@, k),
{
    if !t.as_str().is_empty() {
        let ghost tv = t@;
        out.push((t, k));
        assert(toks_view(out@) =~= toks_view(old(out)@) + seq![(tv, k)]);
    } else {
        assert(toks_view(out@) =~= toks_view(old(out)@) + Seq::<(Seq<char>, YamlTok)>::empty());
    }
}

fn push_value(out: &mut Vec<(String, YamlTok)>, rest: &str, is_ref: bool)
    ensures
        toks_view(final(out)@) == toks_view(old(out)@) + value_toks(rest@, is_ref),
{
    let rv = to_chars(rest);
    let vs = leading_space_count(&rv);
    if vs < rv.len() {
        let space = chars_range(&rv, 0, vs);
        assert(space@ =~= rest@.take(vs as int));
        push_tok(out, space, YamlTok::Plain);
        let value = chars_range(&rv, vs, rv.len());
        assert(value@ =~= rest@.skip(vs as int));
        let (val, cmt) = yaml_split_comment(value.as_str());
        let vk = if is_ref {
            YamlTok::RefKey
        } else {
            yaml_value_color(val)
        };
        push_tok(out, String::from_str(val), vk);
        push_tok(out, String::from_str(cmt), YamlTok::Comment);
    } else {
        assert(toks_view(out@) =~= toks_view(old(out)@) + value_toks(rest@, is_ref));
    }
}

fn push_content(out: &mut Vec<(String, YamlTok)>, content: &str)
    ensures
        toks_view(final(out)@) == toks_view(old(out)@) + content_toks(content@),
{
    let v = to_chars(content);
    match key_colon_index(&v) {
        Some(k) => {
            let n = v.len();
            assert(k < n);
            let key = chars_range(&v, 0, k);
            assert(key@ =~= content@.take(k as int));
            let is_ref = crate::text::str_eq(key.as_str(), "$ref");
            let kk = if is_ref {
                YamlTok::RefKey
            } else {
                YamlTok::Key
            };
            push_tok(out, key, kk);
            push_tok(out, String::from_str(":"), YamlTok::Plain);
            let rest = chars_range(&v, k + 1, n);
            assert(rest@ =~= content@.skip(k + 1));
            push_value(out, rest.as_str(), is_ref);
        },
        None => {
            push_tok(out, String::from_str(content), yaml_value_color(content));
        },
    }
}

/// Appends the pieces of one line and its line end.
fn push_line(out: &mut Vec<(String, YamlTok)>, line: &Vec<char>)
    ensures
        toks_view(final(out)@) == toks_view(old(out)@) + line_toks(line@) + tok("\n"@, YamlTok::Plain),
{
    let n = leading_space_count(line);
    let indent = chars_range(line, 0, n);
    let t = chars_range(line, n, line.len());
    assert(indent@ =~= line@.take(n as int));
    assert(t@ =~= line@.skip(n as int));
    let tv = to_chars(t.as_str());
    if tv.len() > 0 && tv[0] == '#' {
        push_tok(out, chars_range(line, 0, line.len()), YamlTok::Comment);
        assert(line@.subrange(0, line@.len() as int) =~= line@);
    } else if crate::text::str_eq(t.as_str(), "---") || crate::text::str_eq(t.as_str(), "...") {
        push_tok(out, chars_range(line, 0, line.len()), YamlTok::Marker);
        assert(line@.subrange(0, line@.len() as int) =~= line@);
    } else if crate::text::str_eq(t.as_str(), "-") {
        push_tok(out, indent, YamlTok::Plain);
        push_tok(out, String::from_str("-"), YamlTok::Marker);
    } else if tv.len() >= 2 && tv[0] == '-' && tv[1] == ' ' {
        push_tok(out, indent, YamlTok::Plain);
        push_tok(out, String::from_str("- "), YamlTok::Marker);
        let c = chars_range(&tv, 2, tv.len());
        assert(c@ =~= t@.skip(2));
        push_content(out, c.as_str());
    } else {
        push_tok(out, indent, YamlTok::Plain);
        push_content(out, t.as_str());
    }
    push_tok(out, String::from_str("\n"), YamlTok::Plain);
}

/// The highlighted pieces of a YAML text, in order; together they spell the text with a
/// line end after every line.
pub fn highlight_yaml(code: &str) -> (r: Vec<(String, YamlTok)>)
    ensures
        toks_view(r@) == yaml_toks(code@),
{
    let v = to_chars(code);
    let mut out: Vec<(String, YamlTok)> = Vec::new();
    let mut line: Vec<char> = Vec::new();
    let mut i: usize = 0;
    let ghost mut done: Seq<Seq<char>> = Seq::empty();
    assert(v@.take(0) =~= Seq::<char>::empty());
    assert(toks_view(out@) =~= Seq::<(Seq<char>, YamlTok)>::empty());
    while i < v.len()
        invariant
            v@ == code@,
            i <= v@.len(),
            done.push(line@) == split_spec(v@.take(i as int), '\n'),
            toks_view(out@) == lines_toks(done.push(line@), done.len() as int),
        decreases v@.len() - i,
    {
        assert(v@.take(i + 1).drop_last() =~= v@.take(i as int));
        let c = v[i];
        if c == '\n' {
            push_line(&mut out, &line);
            proof {
                assert(lines_toks(done.push(line@), done.len() as int) == lines_toks(
                    done.push(line@).push(Seq::empty()),
                    done.len() as int,
                )) by {
                    lemma_lines_toks_prefix(done.push(line@), done.push(line@).push(Seq::empty()), done.len() as int);
                }
                done = done.push(line@);
            }
            line = Vec::new();
            assert(done.push(line@) =~= split_spec(v@.take(i + 1), '\n'));
        } else {
            let ghost before = line@;
            line.push(c);
            proof {
                lemma_lines_toks_prefix(done.push(before), done.push(line@), done.len() as int);
            }
            assert(done.push(line@) =~= split_spec(v@.take(i as int), '\n').update(
                done.len() as int,
                before.push(c),
            ));
        }
        i += 1;
    }
    assert(v@.take(v@.len() as int) =~= v@);
    push_line(&mut out, &line);
    proof {
        let all = done.push(line@);
        assert(all[done.len() as int] == line@);
    }
    out
}

/// `lines_toks` of the first `n` lines depends on those lines only.
proof fn lemma_lines_toks_prefix(a: Seq<Seq<char>>, b: Seq<Seq<char>>, n: int)
    requires
        0 <= n <= a.len(),
        n <= b.len(),
        forall|j: int| 0 <= j < n ==> a[j] == b[j],
    ensures
        lines_toks(a, n) == lines_toks(b, n),
    decreases n,
{
    if n > 0 {
        lemma_lines_toks_prefix(a, b, n - 1);
    }
}

// ── JSON ─────────────────────────────────────────────────────────────────────

/// The class of a piece of highlighted JSON.
#[derive(Debug, Clone, Copy, PartialEq, Eq, Structural)]
pub enum JsonTok {
    Plain,
    /// A string followed by `:`.
    Key,
    Str,
    Number,
    /// `true`, `false` and `null`.
    Literal,
    /// One of `{}[]:,`.
    Punct,
}

/// The end of a string whose text starts at `j` (just after its opening quote): just after
/// the closing quote, or the end of the text. A backslash hides the character after it.
/// A backslash as the very last character gives one past the end.
pub open spec fn scan_str(s: Seq<char>, j: int) -> int
    decreases s.len() - j,
{
    if j < 0 || j >= s.len() {
        j
    } else if s[j] == '\\' {
        if j + 2 > s.len() {
            (s.len() + 1) as int
        } else {
            scan_str(s, j + 2)
        }
    } else if s[j] == '"' {
        j + 1
    } else {
        scan_str(s, j + 1)
    }
}

pub proof fn lemma_scan_str(s: Seq<char>, j: int)
    requires
        0 <= j,
    ensures
        j <= scan_str(s, j) <= s.len() + 1 || (j > s.len() && scan_str(s, j) == j),
        j <= s.len() ==> scan_str(s, j) <= s.len() + 1,
    decreases s.len() - j,
{
    if j < s.len() {
        if s[j] == '\\' {
            if j + 2 <= s.len() {
                lemma_scan_str(s, j + 2);
            }
        } else if s[j] != '"' {
            lemma_scan_str(s, j + 1);
        }
    }
}

/// The first `"` at or after `i`, or the end.
pub open spec fn next_quote(s: Seq<char>, i: int) -> int
    decreases s.len() - i,
{
    if i < 0 || i >= s.len() {
        s.len() as int
    } else if s[i] == '"' {
        i
    } else {
        next_quote(s, i + 1)
    }
}

pub proof fn lemma_next_quote(s: Seq<char>, i: int)
    requires
        0 <= i <= s.len(),
    ensures
        i <= next_quote(s, i) <= s.len(),
        next_quote(s, i) < s.len() ==> s[next_quote(s, i)] == '"',
        forall|k: int| i <= k < next_quote(s, i) ==> s[k] != '"',
    decreases s.len() - i,
{
    if i < s.len() && s[i] != '"' {
        lemma_next_quote(s, i + 1);
    }
}

/// After position `e` comes a `:`, white space aside: the string before it is a key.
pub open spec fn is_key_at(s: Seq<char>, e: int) -> bool {
    let r = s.skip(e);
    let k = lead_len(r);
    k < r.len() && r[k as int] == ':'
}

pub open spec fn is_punct(c: char) -> bool {
    c == '{' || c == '}' || c == '[' || c == ']' || c == ':' || c == ','
}

/// A character that continues a number: a digit or one of `.eE+-`.
pub open spec fn num_char(c: char) -> bool {
    is_ascii_digit(c) || c == '.' || c == 'e' || c == 'E' || c == '+' || c == '-'
}

/// The end of the number characters from `k`.
pub open spec fn num_end(t: Seq<char>, k: int) -> int
    decreases t.len() - k,
{
    if 0 <= k < t.len() && num_char(t[k]) {
        num_end(t, k + 1)
    } else {
        k
    }
}

pub proof fn lemma_num_end(t: Seq<char>, k: int)
    requires
        0 <= k <= t.len(),
    ensures
        k <= num_end(t, k) <= t.len(),
    decreases t.len() - k,
{
    if k < t.len() && num_char(t[k]) {
        lemma_num_end(t, k + 1);
    }
}

pub open spec fn word_true() -> Seq<char> {
    seq!['t', 'r', 'u', 'e']
}

pub open spec fn word_false() -> Seq<char> {
    seq!['f', 'a', 'l', 's', 'e']
}

pub open spec fn word_null() -> Seq<char> {
    seq!['n', 'u', 'l', 'l']
}

pub open spec fn starts_at(t: Seq<char>, k: int, w: Seq<char>) -> bool {
    k + w.len() <= t.len() && t.subrange(k, k + w.len()) == w
}

/// The pieces of text outside strings, from position `k`: punctuation, literals,
/// numbers, and every other character on its own.
pub open spec fn plain_toks(t: Seq<char>, k: int) -> Seq<(Seq<char>, JsonTok)>
    decreases t.len() - k,
{
    if k < 0 || k >= t.len() {
        Seq::empty()
    } else {
        let c = t[k];
        if is_punct(c) {
            seq![(seq![c], JsonTok::Punct)] + plain_toks(t, k + 1)
        } else if starts_at(t, k, word_true()) {
            seq![(word_true(), JsonTok::Literal)] + plain_toks(t, k + 4)
        } else if starts_at(t, k, word_false()) {
            seq![(word_false(), JsonTok::Literal)] + plain_toks(t, k + 5)
        } else if starts_at(t, k, word_null()) {
            seq![(word_null(), JsonTok::Literal)] + plain_toks(t, k + 4)
        } else if is_ascii_digit(c) || (c == '-' && k + 1 < t.len() && is_ascii_digit(t[k + 1])) {
            let e = num_end(t, k + 1);
            proof {
                lemma_num_end(t, k + 1);
            }
            seq![(t.subrange(k, e), JsonTok::Number)] + plain_toks(t, e)
        } else {
            seq![(seq![c], JsonTok::Plain)] + plain_toks(t, k + 1)
        }
    }
}

/// The pieces of a JSON text from position `i`, which is outside any string: the text up
/// to the next quote, then the string (a key when a `:` follows it), then the rest.
pub open spec fn json_toks_from(s: Seq<char>, i: int) -> Seq<(Seq<char>, JsonTok)>
    decreases s.len() - i,
{
    if i < 0 || i > s.len() {
        Seq::empty()
    } else {
        let q = next_quote(s, i);
        proof {
            lemma_next_quote(s, i);
        }
        plain_toks(s.subrange(i, q), 0) + if q < s.len() {
            let e = scan_str(s, q + 1);
            proof {
                lemma_scan_str(s, q + 1);
            }
            if e > s.len() {
                Seq::empty()
            } else {
                seq![(s.subrange(q, e), if is_key_at(s, e) { JsonTok::Key } else { JsonTok::Str })]
                    + json_toks_from(s, e)
            }
        } else {
            Seq::empty()
        }
    }
}

pub open spec fn json_toks(s: Seq<char>) -> Seq<(Seq<char>, JsonTok)> {
    json_toks_from(s, 0)
}

/// Outside strings every character takes at most two bytes in UTF-8.
pub open spec fn narrow_chars(t: Seq<char>) -> bool {
    forall|k: int| 0 <= k < t.len() ==> utf8_width(#[trigger] t[k]) <= 2
}

/// The texts that the JSON highlighter takes from position `i`: outside strings no
/// character wider than two bytes, and no string that ends in a lone backslash.
pub open spec fn json_ok_from(s: Seq<char>, i: int) -> bool
    decreases s.len() - i,
{
    if i < 0 || i > s.len() {
        true
    } else {
        let q = next_quote(s, i);
        proof {
            lemma_next_quote(s, i);
        }
        narrow_chars(s.subrange(i, q)) && (q < s.len() ==> {
            let e = scan_str(s, q + 1);
            proof {
                lemma_scan_str(s, q + 1);
            }
            e <= s.len() && json_ok_from(s, e)
        })
    }
}

pub open spec fn json_highlightable(s: Seq<char>) -> bool {
    json_ok_from(s, 0)
}

pub open spec fn jtoks_view(v: Seq<(String, JsonTok)>) -> Seq<(Seq<char>, JsonTok)> {
    v.map_values(|p: (String, JsonTok)| (p.0@, p.1))
}

fn push_jtok(out: &mut Vec<(String, JsonTok)>, t: String, k: JsonTok)
    ensures
        jtoks_view(final(out)@) == jtoks_view(old(out)@).push((t@, k)),
{
    out.push((t, k));
    assert(jtoks_view(out@) =~= jtoks_view(old(out)@).push((t@, k)));
}

fn chars_start_at(v: &Vec<char>, k: usize, w: &str) -> (r: bool)
    ensures
        r == starts_at(v@, k as int, w@),
{
    let wv = to_chars(w);
    let n = v.len();
    if k > n || wv.len() > n - k {
        return false;
    }
    let mut j: usize = 0;
    while j < wv.len()
        invariant
            wv@ == w@,
            n == v@.len(),
            k + wv@.len() <= n,
            j <= wv@.len(),
            forall|m: int| 0 <= m < j ==> v@[k + m] == wv@[m],
        decreases wv@.len() - j,
    {
        if v[k + j] != wv[j] {
            assert(v@.subrange(k as int, k + wv@.len())[j as int] != wv@[j as int]);
            return false;
        }
        j += 1;
    }
    assert(v@.subrange(k as int, k + wv@.len()) =~= wv@);
    true
}

fn is_digit_char(c: char) -> (r: bool)
    ensures
        r == is_ascii_digit(c),
{
    '0' <= c && c <= '9'
}

/// The pieces of a stretch of JSON outside strings.
fn push_plain(out: &mut Vec<(String, JsonTok)>, t: &Vec<char>)
    requires
        narrow_chars(t@),
    ensures
        jtoks_view(final(out)@) == jtoks_view(old(out)@) + plain_toks(t@, 0),
{
    proof {
        reveal_strlit("true");
        reveal_strlit("false");
        reveal_strlit("null");
        assert("true"@ =~= word_true());
        assert("false"@ =~= word_false());
        assert("null"@ =~= word_null());
    }
    let mut k: usize = 0;
    while k < t.len()
        invariant
            k <= t@.len(),
            "true"@ == word_true(),
            "false"@ == word_false(),
            "null"@ == word_null(),
            jtoks_view(out@) + plain_toks(t@, k as int) == jtoks_view(old(out)@) + plain_toks(t@, 0),
        decreases t@.len() - k,
    {
        let c = t[k];
        let ghost before = jtoks_view(out@);
        let ghost k0 = k as int;
        let ghost piece: (Seq<char>, JsonTok);
        if c == '{' || c == '}' || c == '[' || c == ']' || c == ':' || c == ',' {
            push_jtok(out, chars_range(t, k, k + 1), JsonTok::Punct);
            assert(t@.subrange(k as int, k + 1) =~= seq![c]);
            proof {
                piece = (seq![c], JsonTok::Punct);
            }
            k += 1;
        } else if chars_start_at(t, k, "true") {
            push_jtok(out, String::from_str("true"), JsonTok::Literal);
            proof {
                piece = (word_true(), JsonTok::Literal);
            }
            k += 4;
        } else if chars_start_at(t, k, "false") {
            push_jtok(out, String::from_str("false"), JsonTok::Literal);
            proof {
                piece = (word_false(), JsonTok::Literal);
            }
            k += 5;
        } else if chars_start_at(t, k, "null") {
            push_jtok(out, String::from_str("null"), JsonTok::Literal);
            proof {
                piece = (word_null(), JsonTok::Literal);
            }
            k += 4;
        } else if is_digit_char(c) || (c == '-' && k + 1 < t.len() && is_digit_char(t[k + 1])) {
            let start = k;
            k += 1;
            proof {
                lemma_num_end(t@, k as int);
            }
            while k < t.len() && (is_digit_char(t[k]) || t[k] == '.' || t[k] == 'e' || t[k] == 'E'
                || t[k] == '+' || t[k] == '-')
                invariant
                    start < k <= t@.len(),
                    num_end(t@, k as int) == num_end(t@, start + 1),
                decreases t@.len() - k,
            {
                k += 1;
            }
            push_jtok(out, chars_range(t, start, k), JsonTok::Number);
            proof {
                piece = (t@.subrange(start as int, k as int), JsonTok::Number);
            }
        } else {
            push_jtok(out, chars_range(t, k, k + 1), JsonTok::Plain);
            assert(t@.subrange(k as int, k + 1) =~= seq![c]);
            proof {
                piece = (seq![c], JsonTok::Plain);
            }
            k += 1;
        }
        assert(plain_toks(t@, k0) == seq![piece] + plain_toks(t@, k as int));
        assert(jtoks_view(out@) + plain_toks(t@, k as int) =~= before + plain_toks(t@, k0));
    }
}

/// The highlighted pieces of a JSON text, in order: strings (keys apart), literals,
/// numbers, punctuation, and every other character on its own.
pub fn highlight_json(code: &str) -> (r: Vec<(String, JsonTok)>)
    requires
        json_highlightable(code@),
    ensures
        jtoks_view(r@) == json_toks(code@),
{
    let v = to_chars(code);
    let n = v.len();
    let mut out: Vec<(String, JsonTok)> = Vec::new();
    let mut i: usize = 0;
    assert(jtoks_view(out@) =~= Seq::<(Seq<char>, JsonTok)>::empty());
    while i < n
        invariant
            v@ == code@,
            n == v@.len(),
            i <= n,
            json_ok_from(code@, i as int),
            jtoks_view(out@) + json_toks_from(code@, i as int) == json_toks(code@),
        decreases n - i,
    {
        proof {
            lemma_next_quote(code@, i as int);
        }
        let ghost before = jtoks_view(out@);
        let mut q = i;
        while q < n && v[q] != '"'
            invariant
                v@ == code@,
                n == v@.len(),
                i <= q <= n,
                next_quote(code@, q as int) == next_quote(code@, i as int),
            decreases n - q,
        {
            q += 1;
        }
        let seg = crate::text::chars_range(&v, i, q);
        let segv = to_chars(seg.as_str());
        push_plain(&mut out, &segv);
        assert(jtoks_view(out@) == before + plain_toks(code@.subrange(i as int, q as int), 0));
        if q < n {
            proof {
                lemma_scan_str(code@, q + 1);
            }
            let mut e = q + 1;
            let ghost target = scan_str(code@, q + 1);
            while e < n && v[e] != '"'
                invariant
                    v@ == code@,
                    n == v@.len(),
                    q < e <= n,
                    target == scan_str(code@, q + 1),
                    target <= n,
                    scan_str(code@, e as int) == target,
                decreases n - e,
            {
                if v[e] == '\\' {
                    e += 2;
                } else {
                    e += 1;
                }
            }
            if e < n {
                e += 1;
            }
            let is_key = {
                let rest = crate::text::chars_range(&v, e, n);
                let rv = to_chars(rest.as_str());
                let k = leading_space_count(&rv);
                k < rv.len() && rv[k] == ':'
            };
            assert(e as int == target);
            let s = crate::text::chars_range(&v, q, e);
            push_jtok(&mut out, s, if is_key { JsonTok::Key } else { JsonTok::Str });
            assert(is_key == is_key_at(code@, e as int)) by {
                assert(code@.skip(e as int) =~= code@.subrange(e as int, n as int));
            }
            assert(jtoks_view(out@) + json_toks_from(code@, e as int) =~= before + json_toks_from(code@, i as int));
            i = e;
        } else {
            assert(jtoks_view(out@) + json_toks_from(code@, n as int) =~= before + json_toks_from(code@, i as int));
            i = n;
        }
    }
    out
}

/// Whether the JSON highlighter takes `code` (see `json_highlightable`).
pub fn can_highlight_json(code: &str) -> (r: bool)
    ensures
        r == json_highlightable(code@),
{
    let v = to_chars(code);
    let n = v.len();
    let mut i: usize = 0;
    while i < n
        invariant
            v@ == code@,
            n == v@.len(),
            i <= n,
            json_highlightable(code@) == json_ok_from(code@, i as int),
        decreases n - i,
    {
        proof {
            lemma_next_quote(code@, i as int);
        }
        let mut q = i;
        while q < n && v[q] != '"'
            invariant
                v@ == code@,
                n == v@.len(),
                i <= q <= n,
                json_highlightable(code@) == json_ok_from(code@, i as int),
                next_quote(code@, q as int) == next_quote(code@, i as int),
                forall|k: int| i <= k < q ==> utf8_width(#[trigger] code@[k]) <= 2,
            decreases n - q,
        {
            if (v[q] as u32) >= 0x800 {
                proof {
                    lemma_next_quote(code@, q as int);
                    let nq = next_quote(code@, i as int);
                    assert(nq > q);
                    assert(code@.subrange(i as int, nq)[q - i] == code@[q as int]);
                    assert(!narrow_chars(code@.subrange(i as int, nq)));
                }
                return false;
            }
            q += 1;
        }
        assert(next_quote(code@, i as int) == q);
        assert(narrow_chars(code@.subrange(i as int, q as int))) by {
            assert forall|k: int| 0 <= k < q - i implies utf8_width(#[trigger] code@.subrange(i as int, q as int)[k]) <= 2 by {
                assert(code@.subrange(i as int, q as int)[k] == code@[i + k]);
            }
        }
        if q < n {
            proof {
                lemma_scan_str(code@, q + 1);
            }
            let mut e = q + 1;
            let ghost target = scan_str(code@, q + 1);
            while e < n && v[e] != '"'
                invariant
                    v@ == code@,
                    n == v@.len(),
                    q < e <= n,
                    q < n,
                    q == next_quote(code@, i as int),
                    i <= q,
                    json_highlightable(code@) == json_ok_from(code@, i as int),
                    target == scan_str(code@, q + 1),
                    scan_str(code@, e as int) == target,
                decreases n - e,
            {
                if v[e] == '\\' {
                    if e + 1 >= n {
                        assert(scan_str(code@, e as int) == n + 1);
                        return false;
                    }
                    e += 2;
                } else {
                    e += 1;
                }
            }
            if e < n {
                e += 1;
            }
            i = e;
        } else {
            i = n;
        }
    }
    true
}

} // verus!
