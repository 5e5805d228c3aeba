//! Resource names derived from a schema name, for generated CRUD paths.
use vstd::prelude::*;
use crate::text::{
    ascii_lower, char_is_uppercase, char_to_lowercase, char_to_uppercase, from_chars, push_char,
    to_chars, unicode_is_upper, unicode_lower, unicode_upper,
};

verus! {

pub open spec fn is_vowel(c: char) -> bool {
    c == 'a' || c == 'e' || c == 'i' || c == 'o' || c == 'u'
}

/// The English plural of a kebab-case name: `y` after a consonant becomes `ies`; names
/// ending in `sh`, `ch`, `x`, `z` or `s` take `es`; all others take `s`.
pub open spec fn pluralize_spec(s: Seq<char>) -> Seq<char> {
    if s.len() > 0 && s.last() == 'y' {
        let stem = s.drop_last();
        let before = if stem.len() > 0 {
            stem.last()
        } else {
            '_'
        };
        if is_vowel(before) {
            s + "s"@
        } else {
            stem + "ies"@
        }
    } else if (s.len() >= 2 && s[s.len() - 2] == 's' && s.last() == 'h') || (s.len() >= 2 && s[s.len()
        - 2] == 'c' && s.last() == 'h') || (s.len() > 0 && (s.last() == 'x' || s.last() == 'z'
        || s.last() == 's')) {
        s + "es"@
    } else {
        s + "s"@
    }
}

/// The kebab-case form of the first `n` characters of a PascalCase name: each uppercase
/// character but the first is preceded by `-`, and every character is lowercased.
pub open spec fn kebab_prefix(s: Seq<char>, n: int) -> Seq<char>
    decreases n,
{
    if n <= 0 {
        Seq::empty()
    } else {
        let c = s[n - 1];
        kebab_prefix(s, n - 1) + (if unicode_is_upper(c) && n - 1 > 0 {
            seq!['-']
        } else {
            Seq::empty()
        }) + unicode_lower(c)
    }
}

pub open spec fn kebab_spec(s: Seq<char>) -> Seq<char> {
    kebab_prefix(s, s.len() as int)
}

/// The name with its first character lowercased when that character is ASCII.
pub open spec fn camel_spec(s: Seq<char>) -> Seq<char> {
    if s.len() > 0 && (s[0] as u32) < 128 {
        s.update(0, ascii_lower(s[0]))
    } else {
        s
    }
}

/// The pieces of `s` between the separators `c` (what `str::split` yields).
pub open spec fn split_spec(s: Seq<char>, c: char) -> Seq<Seq<char>>
    decreases s.len(),
{
    if s.len() == 0 {
        seq![Seq::empty()]
    } else {
        let p = split_spec(s.drop_last(), c);
        if s.last() == c {
            p.push(Seq::empty())
        } else {
            p.update(p.len() - 1, p.last().push(s.last()))
        }
    }
}

pub proof fn lemma_split_nonempty(s: Seq<char>, c: char)
    ensures
        split_spec(s, c).len() >= 1,
    decreases s.len(),
{
    if s.len() > 0 {
        lemma_split_nonempty(s.drop_last(), c);
    }
}

/// A word with its first character uppercased.
pub open spec fn capitalize_spec(w: Seq<char>) -> Seq<char> {
    if w.len() == 0 {
        w
    } else {
        unicode_upper(w[0]) + w.drop_first()
    }
}

/// The first `n` words, capitalized and joined by single spaces.
pub open spec fn title_words(ws: Seq<Seq<char>>, n: int) -> Seq<char>
    decreases n,
{
    if n <= 0 {
        Seq::empty()
    } else if n == 1 {
        capitalize_spec(ws[0])
    } else {
        title_words(ws, n - 1) + " "@ + capitalize_spec(ws[n - 1])
    }
}

/// `"blog-posts"` becomes `"Blog Posts"`.
pub open spec fn display_spec(s: Seq<char>) -> Seq<char> {
    let ws = split_spec(s, '-');
    title_words(ws, ws.len() as int)
}

/// The plural of a kebab-case name (`"user"` → `"users"`, `"category"` → `"categories"`).
pub fn pluralize_kebab(s: &str) -> (r: String)
    ensures
        r@ == pluralize_spec(s@),
{
    let v = to_chars(s);
    let n = v.len();
    if n > 0 && v[n - 1] == 'y' {
        let before = if n >= 2 {
            v[n - 2]
        } else {
            '_'
        };
        let vowel = before == 'a' || before == 'e' || before == 'i' || before == 'o' || before
            == 'u';
        if vowel {
            let mut r = String::from_str(s);
            r.append("s");
            r
        } else {
            let stem = from_chars(v.as_slice().split_at(n - 1).0);
            assert(stem@ =~= s@.drop_last());
            let mut r = stem;
            r.append("ies");
            r
        }
    } else {
        let es = (n >= 2 && v[n - 2] == 's' && v[n - 1] == 'h') || (n >= 2 && v[n - 2] == 'c' && v[n
            - 1] == 'h') || (n > 0 && (v[n - 1] == 'x' || v[n - 1] == 'z' || v[n - 1] == 's'));
        let mut r = String::from_str(s);
        if es {
            r.append("es");
        } else {
            r.append("s");
        }
        r
    }
}

/// PascalCase to kebab-case (`"BlogPost"` → `"blog-post"`).
pub fn kebab_case(name: &str) -> (r: String)
    ensures
        r@ == kebab_spec(name@),
{
    let v = to_chars(name);
    let mut r = String::new();
    let mut i: usize = 0;
    while i < v.len()
        invariant
            v@ == name@,
            i <= v@.len(),
            r@ == kebab_prefix(name@, i as int),
        decreases v@.len() - i,
    {
        let c = v[i];
        let ghost before = r@;
        if char_is_uppercase(c) && i > 0 {
            push_char(&mut r, '-');
        }
        let ghost mid = r@;
        let lower = char_to_lowercase(c);
        let mut k: usize = 0;
        while k < lower.len()
            invariant
                k <= lower@.len(),
                r@ == mid + lower@.subrange(0, k as int),
            decreases lower@.len() - k,
        {
            push_char(&mut r, lower[k]);
            k += 1;
            assert(r@ =~= mid + lower@.subrange(0, k as int));
        }
        assert(lower@.subrange(0, lower@.len() as int) =~= lower@);
        i += 1;
        assert(r@ =~= kebab_prefix(name@, i as int));
    }
    r
}

/// The name with its first character lowercased when that character is ASCII
/// (`"BlogPost"` → `"blogPost"`).
pub fn camel_case(name: &str) -> (r: String)
    ensures
        r@ == camel_spec(name@),
{
    let mut v = to_chars(name);
    if v.len() > 0 && (v[0] as u32) < 128 {
        let c = v[0];
        let lower = if 'A' <= c && c <= 'Z' {
            ((c as u32) + 32) as u8 as char
        } else {
            c
        };
        assert(lower == ascii_lower(c)) by {
            if 'A' <= c && c <= 'Z' {
                assert(((c as u32) + 32) as u8 as char == ((c as u32) + 32) as char);
            }
        }
        v.set(0, lower);
    }
    from_chars(v.as_slice())
}

/// A word with its first character uppercased.
fn capitalize(w: &Vec<char>) -> (r: Vec<char>)
    ensures
        r@ == capitalize_spec(w@),
{
    if w.len() == 0 {
        return Vec::new();
    }
    let mut r = char_to_uppercase(w[0]);
    let mut k: usize = 1;
    let ghost up = r@;
    while k < w.len()
        invariant
            1 <= k <= w@.len(),
            r@ == up + w@.subrange(1, k as int),
        decreases w@.len() - k,
    {
        r.push(w[k]);
        k += 1;
        assert(r@ =~= up + w@.subrange(1, k as int));
    }
    assert(w@.subrange(1, w@.len() as int) =~= w@.drop_first());
    r
}

/// The words of a kebab-case name as a title (`"blog-posts"` → `"Blog Posts"`).
pub fn title_case(s: &str) -> (r: String)
    ensures
        r@ == display_spec(s@),
{
    let v = to_chars(s);
    let mut words: Vec<Vec<char>> = Vec::new();
    words.push(Vec::new());
    let mut i: usize = 0;
    assert(v@.subrange(0, 0) =~= Seq::<char>::empty());
    assert(words@.map_values(|w: Vec<char>| w@) =~= split_spec(v@.subrange(0, 0), '-'));
    while i < v.len()
        invariant
            v@ == s@,
            i <= v@.len(),
            words@.len() >= 1,
            words@.map_values(|w: Vec<char>| w@) == split_spec(v@.subrange(0, i as int), '-'),
        decreases v@.len() - i,
    {
        let ghost prev = words@.map_values(|w: Vec<char>| w@);
        assert(v@.subrange(0, i + 1).drop_last() =~= v@.subrange(0, i as int));
        if v[i] == '-' {
            words.push(Vec::new());
            assert(words@.map_values(|w: Vec<char>| w@) =~= prev.push(Seq::empty()));
        } else {
            let last = words.len() - 1;
            let mut w = words.remove(last);
            w.push(v[i]);
            words.push(w);
            assert(words@.map_values(|w: Vec<char>| w@) =~= prev.update(
                prev.len() - 1,
                prev.last().push(v@[i as int]),
            ));
        }
        i += 1;
    }
    assert(v@.subrange(0, v@.len() as int) =~= v@);
    let ghost ws = split_spec(s@, '-');
    let mut r = String::new();
    let mut j: usize = 0;
    while j < words.len()
        invariant
            ws == words@.map_values(|w: Vec<char>| w@),
            j <= words@.len(),
            r@ == title_words(ws, j as int),
        decreases words@.len() - j,
    {
        let cap = capitalize(&words[j]);
        if j > 0 {
            r.append(" ");
        }
        let ghost mid = r@;
        let mut k: usize = 0;
        while k < cap.len()
            invariant
                k <= cap@.len(),
                r@ == mid + cap@.subrange(0, k as int),
            decreases cap@.len() - k,
        {
            push_char(&mut r, cap[k]);
            k += 1;
            assert(r@ =~= mid + cap@.subrange(0, k as int));
        }
        assert(cap@.subrange(0, cap@.len() as int) =~= cap@);
        j += 1;
        assert(r@ =~= title_words(ws, j as int));
    }
    r
}

/// The resource names for a PascalCase schema name:
/// the camelCase singular (`"blogPost"`), the kebab-case plural (`"blog-posts"`) and the
/// plural for display (`"Blog Posts"`).
pub fn schema_to_resource_parts(name: &str) -> (r: (String, String, String))
    ensures
        r.0@ == camel_spec(name@),
        r.1@ == pluralize_spec(kebab_spec(name@)),
        r.2@ == display_spec(pluralize_spec(kebab_spec(name@))),
{
    let kebab = kebab_case(name);
    let plural_kebab = pluralize_kebab(kebab.as_str());
    let op_prefix = camel_case(name);
    let plural_display = title_case(plural_kebab.as_str());
    (op_prefix, plural_kebab, plural_display)
}

} // verus!
