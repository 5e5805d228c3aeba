//! Character and string helpers shared by the rest of the library.
use vstd::prelude::*;
use vstd::utf8::{
    char_is_scalar, encode_scalar, encode_utf8, encode_utf8_decode_utf8, encode_utf8_first_scalar,
    encode_utf8_valid_utf8, is_char_boundary, pop_first_scalar,
};
use vstd::string::StringSliceAdditionalSpecFns;

verus! {

/// The Unicode `White_Space` property, as `char::is_whitespace` documents it.
pub open spec fn is_space(c: char) -> bool {
    let u = c as u32;
    ||| 0x9 <= u <= 0xd
    ||| u == 0x20
    ||| u == 0x85
    ||| u == 0xa0
    ||| u == 0x1680
    ||| 0x2000 <= u <= 0x200a
    ||| u == 0x2028
    ||| u == 0x2029
    ||| u == 0x202f
    ||| u == 0x205f
    ||| u == 0x3000
}

/// A string is blank when trimming it leaves nothing.
pub open spec fn is_blank_spec(s: Seq<char>) -> bool {
    forall|i: int| 0 <= i < s.len() ==> is_space(#[trigger] s[i])
}

/// Number of characters left after removing trailing white space.
pub open spec fn trim_end_len(s: Seq<char>) -> nat
    decreases s.len(),
{
    if s.len() == 0 {
        0
    } else if is_space(s.last()) {
        trim_end_len(s.drop_last())
    } else {
        s.len()
    }
}

/// `s` with trailing white space removed.
pub open spec fn trim_end_spec(s: Seq<char>) -> Seq<char> {
    s.subrange(0, trim_end_len(s) as int)
}

/// `needle` occurs somewhere inside `hay`.
pub open spec fn contains_seq(hay: Seq<char>, needle: Seq<char>) -> bool {
    exists|i: int|
        0 <= i && i + needle.len() <= hay.len() && #[trigger] hay.subrange(i, i + needle.len())
            == needle
}

pub open spec fn digit_char(d: nat) -> char {
    if d == 0 {
        '0'
    } else if d == 1 {
        '1'
    } else if d == 2 {
        '2'
    } else if d == 3 {
        '3'
    } else if d == 4 {
        '4'
    } else if d == 5 {
        '5'
    } else if d == 6 {
        '6'
    } else if d == 7 {
        '7'
    } else if d == 8 {
        '8'
    } else {
        '9'
    }
}

/// Decimal notation of a natural number, without leading zeros.
pub open spec fn decimal(n: nat) -> Seq<char>
    decreases n,
{
    if n < 10 {
        seq![digit_char(n)]
    } else {
        decimal(n / 10).push(digit_char(n % 10))
    }
}

pub open spec fn is_ascii_upper(c: char) -> bool {
    'A' <= c <= 'Z'
}

pub open spec fn ascii_lower(c: char) -> char {
    if is_ascii_upper(c) {
        ((c as u32) + 32) as char
    } else {
        c
    }
}

pub open spec fn ascii_upper(c: char) -> char {
    if 'a' <= c <= 'z' {
        ((c as u32) - 32) as char
    } else {
        c
    }
}

/// What `char::is_uppercase` returns for `c` (the Unicode `Uppercase` property).
pub uninterp spec fn unicode_is_upper(c: char) -> bool;

/// The characters that `char::to_lowercase` yields for `c`.
pub uninterp spec fn unicode_lower(c: char) -> Seq<char>;

/// The characters that `char::to_uppercase` yields for `c`.
pub uninterp spec fn unicode_upper(c: char) -> Seq<char>;

/// What `str::to_lowercase` returns for `s`.
pub uninterp spec fn unicode_lower_str(s: Seq<char>) -> Seq<char>;

/// Calls `char::is_uppercase`. Claimed: the result is the named Unicode property of `c`,
/// which for an ASCII character is exactly "is one of `A`..`Z`".
#[verifier::external_body]
pub(crate) fn char_is_uppercase(c: char) -> (r: bool)
    ensures
        r == unicode_is_upper(c),
        (c as u32) < 128 ==> (r <==> is_ascii_upper(c)),
{
    c.is_uppercase()
}

/// Collects `char::to_lowercase`. Claimed: the result is the named lowercase mapping of `c`,
/// which for an ASCII character is the single character that ASCII case folding gives.
#[verifier::external_body]
pub(crate) fn char_to_lowercase(c: char) -> (r: Vec<char>)
    ensures
        r@ == unicode_lower(c),
        (c as u32) < 128 ==> r@ == seq![ascii_lower(c)],
{
    c.to_lowercase().collect()
}

/// Collects `char::to_uppercase`. Claimed: the result is the named uppercase mapping of `c`,
/// which for an ASCII character is the single character that ASCII case folding gives.
#[verifier::external_body]
pub(crate) fn char_to_uppercase(c: char) -> (r: Vec<char>)
    ensures
        r@ == unicode_upper(c),
        (c as u32) < 128 ==> r@ == seq![ascii_upper(c)],
{
    c.to_uppercase().collect()
}

/// Calls `str::to_lowercase`. Claimed: the result is the named lowercase form of `s`,
/// which for an all-ASCII string is the character-wise ASCII lowercase.
#[verifier::external_body]
pub(crate) fn str_to_lowercase(s: &str) -> (r: String)
    ensures
        r@ == unicode_lower_str(s@),
        (forall|i: int| 0 <= i < s@.len() ==> (#[trigger] s@[i] as u32) < 128) ==> r@
            == s@.map_values(|c: char| ascii_lower(c)),
{
    s.to_lowercase()
}

/// Calls `String::push`: the string grows by one character at its end.
#[verifier::external_body]
pub(crate) fn push_char(s: &mut String, c: char)
    ensures
        final(s)@ == old(s)@.push(c),
{
    s.push(c);
}

/// The characters of `s`, in order.
pub fn to_chars(s: &str) -> (v: Vec<char>)
    ensures
        v@ == s@,
{
    let mut v: Vec<char> = Vec::new();
    for c in it: s.chars()
        invariant
            v@ == it.seq().take(it.index() as int),
            it.seq() == s@,
    {
        v.push(c);
    }
    v
}

/// A string holding the characters of `v`.
pub fn from_chars(v: &[char]) -> (s: String)
    ensures
        s@ == v@,
{
    let mut s = String::new();
    let mut i: usize = 0;
    while i < v.len()
        invariant
            i <= v@.len(),
            s@ == v@.subrange(0, i as int),
        decreases v@.len() - i,
    {
        push_char(&mut s, v[i]);
        i += 1;
        assert(s@ =~= v@.subrange(0, i as int));
    }
    assert(v@.subrange(0, v@.len() as int) =~= v@);
    s
}

/// `a` followed by `b`.
pub fn cat(a: &str, b: &str) -> (s: String)
    ensures
        s@ == a@ + b@,
{
    let mut s = String::from_str(a);
    s.append(b);
    s
}

/// `a`, `b` and `c` one after the other.
pub fn cat3(a: &str, b: &str, c: &str) -> (s: String)
    ensures
        s@ == a@ + b@ + c@,
{
    let mut s = String::from_str(a);
    s.append(b);
    s.append(c);
    s
}

/// Whether two strings are equal.
pub fn str_eq(a: &str, b: &str) -> (r: bool)
    ensures
        r == (a@ == b@),
{
    String::from_str(a) == String::from_str(b)
}

/// Whether `c` is white space in the sense of `char::is_whitespace`.
pub fn is_whitespace(c: char) -> (r: bool)
    ensures
        r == is_space(c),
{
    let u = c as u32;
    (0x9 <= u && u <= 0xd) || u == 0x20 || u == 0x85 || u == 0xa0 || u == 0x1680 || (0x2000 <= u
        && u <= 0x200a) || u == 0x2028 || u == 0x2029 || u == 0x202f || u == 0x205f || u == 0x3000
}

/// Whether `s.trim().is_empty()`.
pub fn is_blank(s: &str) -> (r: bool)
    ensures
        r == is_blank_spec(s@),
{
    let v = to_chars(s);
    let mut i: usize = 0;
    while i < v.len()
        invariant
            v@ == s@,
            i <= v@.len(),
            forall|j: int| 0 <= j < i ==> is_space(#[trigger] v@[j]),
        decreases v@.len() - i,
    {
        if !is_whitespace(v[i]) {
            return false;
        }
        i += 1;
    }
    true
}

/// Whether the string starts with the character `c`.
pub fn starts_with_char(s: &str, c: char) -> (r: bool)
    ensures
        r == (s@.len() > 0 && s@[0] == c),
{
    if s.unicode_len() == 0 {
        false
    } else {
        s.get_char(0) == c
    }
}

/// Whether `needle` occurs in `hay`.
pub fn seq_contains(hay: &[char], needle: &[char]) -> (r: bool)
    ensures
        r == contains_seq(hay@, needle@),
{
    if needle.len() > hay.len() {
        assert(!contains_seq(hay@, needle@));
        return false;
    }
    let last = hay.len() - needle.len();
    let mut i: usize = 0;
    while i <= last
        invariant
            needle@.len() <= hay@.len(),
            hay@.len() <= usize::MAX,
            last == hay@.len() - needle@.len(),
            forall|k: int|
                0 <= k < i ==> #[trigger] hay@.subrange(k, k + needle@.len()) != needle@,
        decreases last + 1 - i,
    {
        let mut j: usize = 0;
        let mut ok = true;
        while ok && j < needle.len()
            invariant
                needle@.len() <= hay@.len(),
                hay@.len() <= usize::MAX,
                i <= last,
                last == hay@.len() - needle@.len(),
                j <= needle@.len(),
                needle@.len() == 0 ==> ok,
                ok ==> forall|m: int| 0 <= m < j ==> hay@[i + m] == needle@[m],
                !ok ==> hay@.subrange(i as int, i + needle@.len()) != needle@,
            decreases needle@.len() - j + (if ok { 1int } else { 0int }),
        {
            if hay[i + j] != needle[j] {
                assert(hay@.subrange(i as int, i + needle@.len())[j as int] != needle@[j as int]);
                ok = false;
            } else {
                j += 1;
            }
        }
        if ok {
            assert(hay@.subrange(i as int, i + needle@.len()) =~= needle@);
            return true;
        }
        i += 1;
    }
    false
}

/// Decimal digit as a character.
pub fn digit(d: usize) -> (c: char)
    requires
        d < 10,
    ensures
        c == digit_char(d as nat),
{
    if d == 0 {
        '0'
    } else if d == 1 {
        '1'
    } else if d == 2 {
        '2'
    } else if d == 3 {
        '3'
    } else if d == 4 {
        '4'
    } else if d == 5 {
        '5'
    } else if d == 6 {
        '6'
    } else if d == 7 {
        '7'
    } else if d == 8 {
        '8'
    } else {
        '9'
    }
}

/// Decimal notation of `n` (what `n.to_string()` gives).
pub fn usize_to_decimal(n: usize) -> (s: String)
    ensures
        s@ == decimal(n as nat),
    decreases n,
{
    if n < 10 {
        let mut s = String::new();
        push_char(&mut s, digit(n));
        assert(s@ =~= seq![digit_char(n as nat)]);
        s
    } else {
        let mut s = usize_to_decimal(n / 10);
        push_char(&mut s, digit(n % 10));
        s
    }
}

/// The `i`-th name of a numbered series: `base + first` for `i == 1`, then
/// `base + next + i` (such as `"Pet copy"`, `"Pet copy 2"`, `"Pet copy 3"`).
pub open spec fn numbered(base: Seq<char>, first: Seq<char>, next: Seq<char>, i: int) -> Seq<char> {
    if i == 1 {
        base + first
    } else {
        base + next + decimal(i as nat)
    }
}

/// Different positions of a numbered series give different names.
pub proof fn lemma_numbered_injective(
    base: Seq<char>,
    first: Seq<char>,
    next: Seq<char>,
    i: int,
    j: int,
)
    requires
        first.len() <= next.len(),
        1 <= i,
        1 <= j,
        i != j,
    ensures
        numbered(base, first, next, i) != numbered(base, first, next, j),
{
    lemma_decimal_len(i as nat);
    lemma_decimal_len(j as nat);
    if i >= 2 && j >= 2 {
        let p = base + next;
        if numbered(base, first, next, i) == numbered(base, first, next, j) {
            let a = p + decimal(i as nat);
            let b = p + decimal(j as nat);
            assert(a.subrange(p.len() as int, a.len() as int) =~= decimal(i as nat));
            assert(b.subrange(p.len() as int, b.len() as int) =~= decimal(j as nat));
            lemma_decimal_injective(i as nat, j as nat);
        }
    } else {
        assert(numbered(base, first, next, i).len() != numbered(base, first, next, j).len());
    }
}

/// More than `keys.len()` distinct values cannot all be among `keys`.
pub proof fn lemma_pigeonhole(keys: Seq<Seq<char>>, f: spec_fn(int) -> Seq<char>, m: int)
    requires
        0 <= m,
        forall|i: int, j: int| 0 <= i < m && 0 <= j < m && i != j ==> #[trigger] f(i) != #[trigger] f(j),
        forall|i: int| 0 <= i < m ==> keys.contains(#[trigger] f(i)),
    ensures
        m <= keys.len(),
    decreases keys.len(),
{
    if m > 0 {
        let p = choose|p: int| 0 <= p < keys.len() && keys[p] == f(m - 1);
        let rest = keys.remove(p);
        assert forall|i: int| 0 <= i < m - 1 implies rest.contains(#[trigger] f(i)) by {
            let q = choose|q: int| 0 <= q < keys.len() && keys[q] == f(i);
            assert(q != p);
            if q < p {
                assert(rest[q] == f(i));
            } else {
                assert(rest[q - 1] == f(i));
            }
        }
        lemma_pigeonhole(rest, f, m - 1);
    }
}

pub proof fn lemma_decimal_len(n: nat)
    ensures
        decimal(n).len() >= 1,
        decimal(n).len() == 1 <==> n < 10,
    decreases n,
{
    if n >= 10 {
        lemma_decimal_len(n / 10);
    }
}

/// Different numbers have different decimal notations.
pub proof fn lemma_decimal_injective(a: nat, b: nat)
    requires
        decimal(a) == decimal(b),
    ensures
        a == b,
    decreases a,
{
    lemma_decimal_len(a);
    lemma_decimal_len(b);
    if a >= 10 && b >= 10 {
        assert(decimal(a).drop_last() =~= decimal(a / 10));
        assert(decimal(b).drop_last() =~= decimal(b / 10));
        assert(decimal(a).last() == digit_char(a % 10));
        assert(decimal(b).last() == digit_char(b % 10));
        lemma_decimal_injective(a / 10, b / 10);
    } else if a < 10 && b < 10 {
        assert(decimal(a)[0] == digit_char(a));
        assert(decimal(b)[0] == digit_char(b));
    }
}


// ── Positions in UTF-8 text ──────────────────────────────────────────────────

/// The number of bytes that UTF-8 takes for `c`.
pub open spec fn utf8_width(c: char) -> nat {
    if (c as u32) < 0x80 {
        1
    } else if (c as u32) < 0x800 {
        2
    } else if (c as u32) < 0x10000 {
        3
    } else {
        4
    }
}

/// The byte offset of the character at position `i` of `s`.
pub open spec fn byte_offset(s: Seq<char>, i: int) -> nat {
    encode_utf8(s.take(i)).len()
}

pub proof fn lemma_encode_concat(a: Seq<char>, b: Seq<char>)
    ensures
        encode_utf8(a + b) == encode_utf8(a) + encode_utf8(b),
    decreases a.len(),
{
    if a.len() == 0 {
        assert(a + b =~= b);
        assert(encode_utf8(a) =~= Seq::<u8>::empty());
        assert(encode_utf8(a) + encode_utf8(b) =~= encode_utf8(b));
    } else {
        assert((a + b).drop_first() =~= a.drop_first() + b);
        assert((a + b)[0] == a[0]);
        lemma_encode_concat(a.drop_first(), b);
        assert(encode_utf8(a + b) =~= encode_utf8(a) + encode_utf8(b));
    }
}

pub proof fn lemma_scalar_width(c: char)
    ensures
        encode_scalar(c as u32).len() == utf8_width(c),
        encode_scalar(c as u32).len() > 0,
{
    char_is_scalar(c);
}

/// The bytes of the first `i + 1` characters are those of the first `i` and of the next.
pub proof fn lemma_byte_offset_step(s: Seq<char>, i: int)
    requires
        0 <= i < s.len(),
    ensures
        byte_offset(s, i + 1) == byte_offset(s, i) + utf8_width(s[i]),
{
    assert(s.take(i + 1) =~= s.take(i) + seq![s[i]]);
    lemma_encode_concat(s.take(i), seq![s[i]]);
    assert(seq![s[i]].drop_first() =~= Seq::<char>::empty());
    assert(encode_utf8(Seq::<char>::empty()) =~= Seq::<u8>::empty());
    assert(encode_utf8(seq![s[i]]) =~= encode_scalar(s[i] as u32));
    lemma_scalar_width(s[i]);
}

/// The end of the encoding of a prefix is a character boundary of the whole.
pub proof fn lemma_prefix_boundary(a: Seq<char>, b: Seq<char>)
    ensures
        is_char_boundary(encode_utf8(a + b), encode_utf8(a).len() as int),
    decreases a.len(),
{
    let bytes = encode_utf8(a + b);
    encode_utf8_valid_utf8(a + b);
    if a.len() == 0 {
        assert(encode_utf8(a).len() == 0);
    } else {
        encode_utf8_first_scalar(a + b);
        lemma_encode_concat(a, b);
        assert((a + b).drop_first() =~= a.drop_first() + b);
        assert((a + b)[0] == a[0]);
        assert(pop_first_scalar(bytes) =~= encode_utf8((a + b).drop_first()));
        lemma_scalar_width(a[0]);
        lemma_prefix_boundary(a.drop_first(), b);
    }
}

/// The byte offset in `s` of the character at position `i`.
pub fn byte_index(s: &str, i: usize) -> (b: usize)
    requires
        i <= s@.len(),
    ensures
        b == byte_offset(s@, i as int),
        b <= s.spec_bytes().len(),
{
    let v = to_chars(s);
    let nbytes = s.as_bytes().len();
    let mut b: usize = 0;
    let mut k: usize = 0;
    proof {
        assert(s@ =~= s@.take(i as int) + s@.skip(i as int));
        lemma_encode_concat(s@.take(i as int), s@.skip(i as int));
        assert(s@.take(0) =~= Seq::<char>::empty());
    }
    while k < i
        invariant
            v@ == s@,
            k <= i <= s@.len(),
            b == byte_offset(s@, k as int),
            byte_offset(s@, i as int) <= s.spec_bytes().len(),
            s.spec_bytes().len() <= usize::MAX,
        decreases i - k,
    {
        proof {
            lemma_byte_offset_step(s@, k as int);
            assert(s@.take(i as int) =~= s@.take(k + 1) + s@.take(i as int).skip(k + 1));
            lemma_encode_concat(s@.take(k + 1), s@.take(i as int).skip(k + 1));
        }
        let c = v[k];
        let w: usize = if (c as u32) < 0x80 {
            1
        } else if (c as u32) < 0x800 {
            2
        } else if (c as u32) < 0x10000 {
            3
        } else {
            4
        };
        b = b + w;
        k += 1;
    }
    b
}

/// The two parts of `s` before and from the character position `i`.
pub fn split_chars_at(s: &str, i: usize) -> (r: (&str, &str))
    requires
        i <= s@.len(),
    ensures
        r.0@ == s@.take(i as int),
        r.1@ == s@.skip(i as int),
{
    let b = byte_index(s, i);
    proof {
        lemma_encode_concat(s@.take(i as int), s@.skip(i as int));
        lemma_prefix_boundary(s@.take(i as int), s@.skip(i as int));
        assert(s@.take(i as int) + s@.skip(i as int) =~= s@);
    }
    let r = s.split_at(b);
    proof {
        assert(s.spec_bytes().subrange(0, b as int) =~= encode_utf8(s@.take(i as int)));
        assert(s.spec_bytes().subrange(b as int, s.spec_bytes().len() as int) =~= encode_utf8(
            s@.skip(i as int),
        ));
        encode_utf8_decode_utf8(r.0@);
        encode_utf8_decode_utf8(r.1@);
        encode_utf8_decode_utf8(s@.take(i as int));
        encode_utf8_decode_utf8(s@.skip(i as int));
    }
    r
}

/// `s` without its trailing white space.
pub fn trim_end(s: &str) -> (r: &str)
    ensures
        r@ == trim_end_spec(s@),
{
    let v = to_chars(s);
    let mut n = v.len();
    assert(s@.take(n as int) =~= s@);
    while n > 0 && is_whitespace(v[n - 1])
        invariant
            v@ == s@,
            n <= v@.len(),
            trim_end_len(s@) == trim_end_len(s@.take(n as int)),
        decreases n,
    {
        assert(s@.take(n as int).drop_last() =~= s@.take(n - 1));
        n -= 1;
    }
    split_chars_at(s, n).0
}

/// The number of white-space characters at the start of `s`.
pub open spec fn lead_len(s: Seq<char>) -> nat
    decreases s.len(),
{
    if s.len() == 0 {
        0
    } else if is_space(s[0]) {
        1 + lead_len(s.drop_first())
    } else {
        0
    }
}

pub fn leading_space_count(v: &Vec<char>) -> (n: usize)
    ensures
        n == lead_len(v@),
        n <= v@.len(),
{
    let mut n: usize = 0;
    assert(v@.skip(0) =~= v@);
    while n < v.len() && is_whitespace(v[n])
        invariant
            n <= v@.len(),
            lead_len(v@) == n + lead_len(v@.skip(n as int)),
        decreases v@.len() - n,
    {
        assert(v@.skip(n as int).drop_first() =~= v@.skip(n + 1));
        n += 1;
    }
    proof {
        if n < v@.len() {
            assert(v@.skip(n as int)[0] == v@[n as int]);
        }
    }
    n
}

/// The characters of `v` from `a` up to `b`.
pub fn chars_range(v: &Vec<char>, a: usize, b: usize) -> (r: String)
    requires
        a <= b <= v@.len(),
    ensures
        r@ == v@.subrange(a as int, b as int),
{
    let mut r = String::new();
    let mut k = a;
    while k < b
        invariant
            a <= k <= b <= v@.len(),
            r@ == v@.subrange(a as int, k as int),
        decreases b - k,
    {
        push_char(&mut r, v[k]);
        k += 1;
        assert(r@ =~= v@.subrange(a as int, k as int));
    }
    r
}
} // verus!
