//! Properties of the library as a whole: what its operations keep, undo and promise.
use vstd::prelude::*;
use crate::lint::{at_level, by_level, lint_spec, raw_diags, DiagnosticView, Level};
use crate::ordered_map::{
    find_key, has_key, insert_spec, lemma_find_key, lemma_insert_found, lookup, move_spec,
    remove_spec, unique_keys,
};
use crate::editor::{added, copied_entry, path_key};
use crate::crud::{collection_path, item_path};
use crate::resource::pluralize_spec;
use crate::text::{decimal, digit_char, lemma_numbered_injective, numbered};
use crate::schema_edit::{all_digits, digit_value, digits_value, parse_u64_spec, without};
use crate::doc_edit::{retag, TagEdit};
use crate::search::{
    body_hits, blue, component_hits, cparam_hits, example_hits, excerpt_spec, first_text, green,
    grey, hv, info_hit, join_dot, keep, matches_query, method_rgb, op_details, op_hits, opt_text,
    orange, param_hits, part, path_hits, pink, prop_hits, purple, response_hits, schema_hits,
    scheme_hits, search_hits, server_hits, tag_hits, teal, HitView,
};
use crate::editor::SelectionView;
use crate::model::{PathItem, RefOr, Schema};
use crate::yaml::{distinct_keys, lemma_entries_well_formed, well_formed};
use crate::yaml::{added_entries, key_index, kept_entries, lemma_key_index, lemma_kept_entries, merge_view, YamlView};
use crate::crud::{default_paths_added, entry_filled, path_filled};
use crate::editor::App;
use crate::document::{close_cancelled, close_discarded, close_requested, closed_after_save};
use crate::model::OpenApiSpec;
use crate::lint::dedup;
use crate::lint::{resp_list_diags, responses_diags, OpSite};
use crate::highlight::value_class;
use crate::search::component_names;
use crate::model::{Operation, Response};
use crate::lint_laws::{generated_ids, ids_unused, lemma_generated_paths_lint_clean, none_on_path};
use crate::highlight::{comment_from, lemma_comment_from_bounds, split_comment_spec};
use crate::highlight::{
    is_punct, json_ok_from, json_highlightable, json_toks, json_toks_from, lemma_next_quote,
    lemma_num_end, lemma_scan_str, next_quote, num_end, plain_toks, scan_str, starts_at,
    word_false, word_null, word_true,
};
use crate::highlight::{
    content_toks, is_comment_start, key_colon_from, lemma_key_colon_from, line_toks, lines_toks,
    tok, value_toks, yaml_toks, YamlTok,
};
use crate::resource::split_spec;
use crate::text::{is_space, lead_len};
use crate::text::{trim_end_len, trim_end_spec};

verus! {

// ── Findings ─────────────────────────────────────────────────────────────────

pub open spec fn level_rank(l: Level) -> int {
    match l {
        Level::Error => 0,
        Level::Warning => 1,
        Level::Info => 2,
    }
}

proof fn lemma_at_level(ds: Seq<DiagnosticView>, l: Level, n: int)
    requires
        0 <= n <= ds.len(),
    ensures
        forall|i: int| 0 <= i < at_level(ds, l, n).len() ==> (#[trigger] at_level(ds, l, n)[i]).level == l,
        at_level(ds, l, n).len() <= n,
    decreases n,
{
    if n > 0 {
        lemma_at_level(ds, l, n - 1);
        let prev = at_level(ds, l, n - 1);
        assert forall|i: int| 0 <= i < at_level(ds, l, n).len() implies (#[trigger] at_level(ds, l, n)[i]).level == l by {
            if i < prev.len() {
                assert(at_level(ds, l, n)[i] == prev[i]);
            }
        }
    }
}

proof fn lemma_levels_partition(ds: Seq<DiagnosticView>, n: int)
    requires
        0 <= n <= ds.len(),
    ensures
        at_level(ds, Level::Error, n).len() + at_level(ds, Level::Warning, n).len() + at_level(
            ds,
            Level::Info,
            n,
        ).len() == n,
    decreases n,
{
    if n > 0 {
        lemma_levels_partition(ds, n - 1);
    }
}

/// The findings come sorted by level, errors first, then warnings, then notes; and none is
/// lost or added by the sorting.
pub proof fn law_findings_sorted(s: crate::model::OpenApiSpec)
    ensures
        forall|i: int, j: int|
            0 <= i < j < lint_spec(s).len() ==> level_rank(#[trigger] lint_spec(s)[i].level) <= level_rank(
                #[trigger] lint_spec(s)[j].level,
            ),
        lint_spec(s).len() == raw_diags(s).len(),
{
    let ds = raw_diags(s);
    let n = ds.len() as int;
    lemma_at_level(ds, Level::Error, n);
    lemma_at_level(ds, Level::Warning, n);
    lemma_at_level(ds, Level::Info, n);
    lemma_levels_partition(ds, n);
    let e = at_level(ds, Level::Error, n);
    let w = at_level(ds, Level::Warning, n);
    let f = at_level(ds, Level::Info, n);
    let all = lint_spec(s);
    assert(all == e + w + f);
    assert forall|i: int| 0 <= i < all.len() implies #[trigger] level_rank(all[i].level) == (if i < e.len() {
        0int
    } else if i < e.len() + w.len() {
        1int
    } else {
        2int
    }) by {
        if i < e.len() {
            assert(all[i] == e[i]);
        } else if i < e.len() + w.len() {
            assert(all[i] == w[i - e.len()]);
        } else {
            assert(all[i] == f[i - e.len() - w.len()]);
        }
    }
}

// ── Ordered maps ─────────────────────────────────────────────────────────────

/// Looking up a key right after storing a value under it gives that value; other keys
/// keep what they had.
pub proof fn law_insert_then_lookup<T>(s: Seq<(Seq<char>, T)>, k: Seq<char>, v: T, other: Seq<char>)
    ensures
        lookup(insert_spec(s, k, v), k) == Some(v),
        other != k ==> lookup(insert_spec(s, k, v), other) == lookup(s, other),
        unique_keys(s) ==> unique_keys(insert_spec(s, k, v)),
{
    lemma_insert_found(s, k, v);
    let t = insert_spec(s, k, v);
    lemma_find_key(s, other);
    lemma_find_key(t, other);
    lemma_find_key(s, k);
    if other != k {
        if has_key(s, k) {
            let i = find_key(s, k);
            assert forall|j: int| 0 <= j < s.len() implies #[trigger] t[j].0 == s[j].0 by {
                if j == i {
                } else {
                    assert(t[j] == s[j]);
                }
            }
            if has_key(s, other) {
                let o = find_key(s, other);
                assert(t[o] == s[o]);
                let p = find_key(t, other);
                if p < o {
                    assert(t[p].0 == s[p].0);
                }
            } else {
                assert forall|j: int| 0 <= j < t.len() implies t[j].0 != other by {
                    assert(t[j].0 == s[j].0);
                }
            }
        } else {
            assert forall|j: int| 0 <= j < s.len() implies #[trigger] t[j] == s[j] by {}
            if has_key(s, other) {
                let o = find_key(s, other);
                assert(t[o] == s[o]);
                let p = find_key(t, other);
                if p < o {
                    assert(t[p] == s[p]);
                }
            } else {
                assert forall|j: int| 0 <= j < t.len() implies t[j].0 != other by {
                    if j < s.len() {
                        assert(t[j] == s[j]);
                    }
                }
            }
        }
    }
    if unique_keys(s) {
        if has_key(s, k) {
            let i = find_key(s, k);
            assert forall|a: int, b: int| 0 <= a < b < t.len() implies t[a].0 != t[b].0 by {
                if a != i && b != i {
                    assert(t[a] == s[a] && t[b] == s[b]);
                } else if a == i {
                    assert(t[b] == s[b]);
                } else {
                    assert(t[a] == s[a]);
                }
            }
        } else {
            assert forall|a: int, b: int| 0 <= a < b < t.len() implies t[a].0 != t[b].0 by {
                if b < s.len() {
                    assert(t[a] == s[a] && t[b] == s[b]);
                } else {
                    assert(t[a] == s[a]);
                }
            }
        }
    }
}

/// After removing a key from a map whose keys are distinct, the key is gone and every
/// other key keeps its value.
pub proof fn law_remove_then_lookup<T>(s: Seq<(Seq<char>, T)>, k: Seq<char>, other: Seq<char>)
    requires
        unique_keys(s),
    ensures
        lookup(remove_spec(s, k), k) is None,
        other != k ==> lookup(remove_spec(s, k), other) == lookup(s, other),
        unique_keys(remove_spec(s, k)),
{
    let t = remove_spec(s, k);
    lemma_find_key(s, k);
    lemma_find_key(s, other);
    lemma_find_key(t, k);
    lemma_find_key(t, other);
    if has_key(s, k) {
        let i = find_key(s, k);
        assert forall|j: int| 0 <= j < t.len() implies #[trigger] t[j] == (if j < i { s[j] } else { s[j + 1] }) by {}
        assert forall|j: int| 0 <= j < t.len() implies t[j].0 != k by {
            if j >= i {
                assert(s[j + 1].0 != s[i].0);
            }
        }
        assert forall|a: int, b: int| 0 <= a < b < t.len() implies t[a].0 != t[b].0 by {
            let a2 = if a < i { a } else { a + 1 };
            let b2 = if b < i { b } else { b + 1 };
            assert(s[a2].0 != s[b2].0);
        }
        if other != k {
            if has_key(s, other) {
                let o = find_key(s, other);
                let o2 = if o < i { o } else { o - 1 };
                assert(t[o2] == s[o]);
                let p = find_key(t, other);
                if p >= 0 && p != o2 {
                    let p2 = if p < i { p } else { p + 1 };
                    assert(s[p2].0 == other);
                    assert(s[o].0 == other);
                }
            } else {
                assert forall|j: int| 0 <= j < t.len() implies t[j].0 != other by {
                    let j2 = if j < i { j } else { j + 1 };
                    assert(t[j] == s[j2]);
                }
            }
        }
    }
}

/// Moving an entry keeps every entry: the result is a rearrangement of the original.
pub proof fn law_move_keeps_entries<A>(s: Seq<A>, from: int, to: int)
    requires
        0 <= from < s.len(),
        0 <= to <= s.len(),
    ensures
        move_spec(s, from, to).to_multiset() == s.to_multiset(),
        move_spec(s, from, to).len() == s.len(),
{
    broadcast use vstd::seq_lib::to_multiset_remove, vstd::seq_lib::to_multiset_insert;
    broadcast use vstd::multiset::group_multiset_axioms;

    let r = s.remove(from);
    let at = if to > from { to - 1 } else { to };
    assert(r.insert(at, s[from]).to_multiset() == r.to_multiset().insert(s[from]));
    assert(r.to_multiset() == s.to_multiset().remove(s[from]));
    assert(s.to_multiset().count(s[from]) > 0) by {
        vstd::seq_lib::to_multiset_contains(s, s[from]);
    }
    assert(s.to_multiset().remove(s[from]).insert(s[from]) =~= s.to_multiset());
}


// ── Components ───────────────────────────────────────────────────────────────

/// Adding an item under a new name and then deleting that name gives back the map as it
/// was.
pub proof fn law_add_then_delete_restores<T>(
    old: Seq<(Seq<char>, T)>,
    mid: Seq<(Seq<char>, T)>,
    name: Seq<char>,
    fresh: spec_fn(T) -> bool,
)
    requires
        added(old, mid, name, fresh),
        !has_key(old, name),
    ensures
        remove_spec(mid, name) == old,
{
    lemma_find_key(old, name);
    lemma_find_key(mid, name);
    assert forall|j: int| 0 <= j < old.len() implies mid[j].0 != name by {
        assert(mid[j] == mid.drop_last()[j]);
    }
    assert(mid[old.len() as int].0 == name);
    assert(find_key(mid, name) == old.len());
    assert(mid.remove(old.len() as int) =~= old);
}

/// Adding an item under a name a second time changes nothing.
pub proof fn law_add_twice<T>(
    old: Seq<(Seq<char>, T)>,
    mid: Seq<(Seq<char>, T)>,
    new: Seq<(Seq<char>, T)>,
    name: Seq<char>,
    fresh: spec_fn(T) -> bool,
)
    requires
        added(old, mid, name, fresh),
        added(mid, new, name, fresh),
    ensures
        new == mid,
        has_key(mid, name),
{
    lemma_find_key(old, name);
    lemma_find_key(mid, name);
    if !has_key(old, name) {
        assert(mid[mid.len() - 1].0 == name);
    }
}

/// Duplicating keeps the original and adds the copy under a name that was free.
pub proof fn law_duplicate_adds_fresh<T: Clone>(
    old: Seq<(Seq<char>, T)>,
    new: Seq<(Seq<char>, T)>,
    name: Seq<char>,
    new_name: Seq<char>,
    first: Seq<char>,
    next: Seq<char>,
)
    requires
        copied_entry(old, new, name, new_name, first, next),
    ensures
        !has_key(old, new_name),
        new_name != name,
        has_key(new, name),
        has_key(new, new_name),
        lookup(new, name) == lookup(old, name),
{
    lemma_find_key(old, name);
    lemma_find_key(new, name);
    lemma_find_key(new, new_name);
    lemma_find_key(old, new_name);
    let i = find_key(old, name);
    assert(new[i] == old[i]);
    assert forall|j: int| 0 <= j < i implies new[j].0 != name by {
        assert(new[j] == old[j]);
    }
    assert(new[old.len() as int].0 == new_name);
}

/// Duplicating a component schema copies its content: the copy of a reference is the same
/// reference, and the copy of an inline schema has the same view.
pub proof fn law_duplicate_schema_same_content(
    old: Seq<(Seq<char>, RefOr<Schema>)>,
    new: Seq<(Seq<char>, RefOr<Schema>)>,
    name: Seq<char>,
    new_name: Seq<char>,
)
    requires
        copied_entry(old, new, name, new_name, " copy"@, " copy "@),
    ensures
        lookup(new, new_name) matches Some(c) && match (lookup(old, name)->0, c) {
            (RefOr::Ref(x), RefOr::Ref(y)) => y == x,
            (RefOr::Item(x), RefOr::Item(y)) => y@ == x@,
            _ => false,
        },
{
    law_duplicate_adds_fresh(old, new, name, new_name, " copy"@, " copy "@);
    lemma_find_key(new, new_name);
    let k = find_key(new, new_name);
    assert forall|j: int| 0 <= j < old.len() implies new[j].0 != new_name by {
        assert(new[j] == old[j]);
        lemma_find_key(old, new_name);
    }
    assert(k == old.len());
}

// ── Names ────────────────────────────────────────────────────────────────────

/// A plural always ends in `s`.
pub proof fn law_plural_ends_in_s(s: Seq<char>)
    ensures
        pluralize_spec(s).len() > 0,
        pluralize_spec(s).last() == 's',
{
    reveal_strlit("s");
    reveal_strlit("es");
    reveal_strlit("ies");
}

/// A path key starts with `/`, and making a key of a key changes nothing.
pub proof fn law_path_key_rooted(p: Seq<char>)
    ensures
        path_key(p).len() > 0,
        path_key(p)[0] == '/',
        path_key(path_key(p)) == path_key(p),
{
    reveal_strlit("/");
    if !(p.len() > 0 && p[0] == '/') {
        assert(("/"@ + p)[0] == '/');
    }
}

/// The generated collection and item paths start with `/` and differ.
pub proof fn law_crud_paths(name: Seq<char>)
    ensures
        collection_path(name)[0] == '/',
        item_path(name) != collection_path(name),
        item_path(name).len() == collection_path(name).len() + 5,
{
    reveal_strlit("/");
    reveal_strlit("/{id}");
    assert(collection_path(name)[0] == '/');
}

/// Names of a numbered series differ from each other.
pub proof fn law_numbered_distinct(base: Seq<char>, first: Seq<char>, next: Seq<char>, i: int, j: int)
    requires
        first.len() <= next.len(),
        1 <= i,
        1 <= j,
        i != j,
    ensures
        numbered(base, first, next, i) != numbered(base, first, next, j),
{
    lemma_numbered_injective(base, first, next, i, j);
}

// ── Numbers ──────────────────────────────────────────────────────────────────

proof fn lemma_digit_char(d: nat)
    requires
        d < 10,
    ensures
        digit_value(digit_char(d)) == d,
        '0' <= digit_char(d) <= '9',
{
}

proof fn lemma_decimal_digits(n: nat)
    ensures
        all_digits(decimal(n)),
        digits_value(decimal(n)) == n,
        decimal(n).len() > 0,
    decreases n,
{
    if n < 10 {
        lemma_digit_char(n);
        assert(decimal(n) == seq![digit_char(n)]);
        assert(seq![digit_char(n)].drop_last() =~= Seq::<char>::empty());
        assert(digits_value(Seq::<char>::empty()) == 0);
    } else {
        lemma_decimal_digits(n / 10);
        lemma_digit_char(n % 10);
        let d = decimal(n);
        assert(d.drop_last() =~= decimal(n / 10));
        assert(digit_value(digit_char(n % 10)) == n % 10);
        assert((n / 10) * 10 + n % 10 == n);
        assert forall|i: int| 0 <= i < d.len() implies '0' <= #[trigger] d[i] <= '9' by {
            if i < d.len() - 1 {
                assert(d[i] == decimal(n / 10)[i]);
            }
        }
    }
}

/// Reading back a count written in decimal gives the count.
pub proof fn law_parse_reads_decimal(n: u64)
    ensures
        parse_u64_spec(decimal(n as nat)) == Some(n),
{
    lemma_decimal_digits(n as nat);
    let d = decimal(n as nat);
    assert(d[0] != '+');
}

// ── Tags ─────────────────────────────────────────────────────────────────────

proof fn lemma_without(s: Seq<Seq<char>>, x: Seq<char>)
    ensures
        !without(s, x).contains(x),
        without(s, x).len() <= s.len(),
    decreases s.len(),
{
    if s.len() > 0 {
        lemma_without(s.drop_last(), x);
        let w = without(s, x);
        let p = without(s.drop_last(), x);
        if w.contains(x) {
            let j = choose|j: int| 0 <= j < w.len() && w[j] == x;
            if j < p.len() {
                assert(w[j] == p[j]);
            }
        }
    }
}

/// After renaming a tag to a different name, or dropping it, no operation carries it.
pub proof fn law_retag_removes_old(tags: Seq<Seq<char>>, a: Seq<char>, b: Seq<char>)
    ensures
        a != b ==> !retag(tags, TagEdit::Rename(a, b)).contains(a),
        !retag(tags, TagEdit::Drop(a)).contains(a),
        retag(tags, TagEdit::Rename(a, b)).len() == tags.len(),
{
    lemma_without(tags, a);
    let r = retag(tags, TagEdit::Rename(a, b));
    if a != b && r.contains(a) {
        let j = choose|j: int| 0 <= j < r.len() && r[j] == a;
        assert(r[j] == (if tags[j] == a { b } else { tags[j] }));
    }
}

// ── Excerpts ─────────────────────────────────────────────────────────────────

/// An excerpt keeps at most `max` characters of the text, in order, marking a cut with
/// one `…`.
pub proof fn law_excerpt_bounded(s: Seq<char>, max: nat)
    ensures
        excerpt_spec(s, max).len() <= max + 1,
        s.len() <= max ==> excerpt_spec(s, max) == s,
        s.len() > max ==> excerpt_spec(s, max) == s.take(max as int) + seq!['…'],
{
    reveal_strlit("…");
    assert("…"@ =~= seq!['…']);
}

// ── Search ───────────────────────────────────────────────────────────────────

/// Every hit's label or excerpt contains the query.
pub open spec fn all_match(hits: Seq<HitView>, q: Seq<char>) -> bool {
    forall|i: int| 0 <= i < hits.len() ==> matches_query(#[trigger] hits[i].label, hits[i].excerpt, q)
}

proof fn lemma_match_concat(a: Seq<HitView>, b: Seq<HitView>, q: Seq<char>)
    requires
        all_match(a, q),
        all_match(b, q),
    ensures
        all_match(a + b, q),
{
    assert forall|i: int| 0 <= i < (a + b).len() implies matches_query(#[trigger] (a + b)[i].label, (a + b)[i].excerpt, q) by {
        if i < a.len() {
            assert((a + b)[i] == a[i]);
        } else {
            assert((a + b)[i] == b[i - a.len()]);
        }
    }
}

proof fn lemma_keep(h: HitView, q: Seq<char>)
    ensures
        all_match(keep(h, q), q),
{
}

proof fn lemma_tag_hits(t: Seq<crate::model::Tag>, q: Seq<char>)
    ensures
        all_match(tag_hits(t, q), q),
    decreases t.len(),
{
    if t.len() > 0 {
        lemma_tag_hits(t.drop_last(), q);
        let x = t.last();
        lemma_keep(hv("TAG"@, grey(), x.name@, excerpt_spec(opt_text(x.description), 50), SelectionView::Tag(x.name@)), q);
        lemma_match_concat(tag_hits(t.drop_last(), q), keep(hv("TAG"@, grey(), x.name@, excerpt_spec(opt_text(x.description), 50), SelectionView::Tag(x.name@)), q), q);
    }
}

proof fn lemma_server_hits(t: Seq<crate::model::Server>, q: Seq<char>)
    ensures
        all_match(server_hits(t, q), q),
    decreases t.len(),
{
    if t.len() > 0 {
        lemma_server_hits(t.drop_last(), q);
        let x = t.last();
        let h = hv("SERVER"@, grey(), x.url@, excerpt_spec(opt_text(x.description), 50), SelectionView::Servers);
        lemma_match_concat(server_hits(t.drop_last(), q), keep(h, q), q);
    }
}

proof fn lemma_param_hits(t: Seq<RefOr<crate::model::Parameter>>, m: Seq<char>, p: Seq<char>, q: Seq<char>)
    ensures
        all_match(param_hits(t, m, p, q), q),
    decreases t.len(),
{
    if t.len() > 0 {
        lemma_param_hits(t.drop_last(), m, p, q);
        let tail = match t.last() {
            RefOr::Item(x) => keep(
                hv("PARAM"@, teal(), m + "  "@ + p + "  › "@ + x.name@, excerpt_spec(opt_text(x.description), 45), SelectionView::Operation(p, m)),
                q,
            ),
            RefOr::Ref(_) => Seq::empty(),
        };
        lemma_match_concat(param_hits(t.drop_last(), m, p, q), tail, q);
    }
}

proof fn lemma_op_hits(ops: Seq<(Seq<char>, crate::model::Operation)>, p: Seq<char>, q: Seq<char>)
    ensures
        all_match(op_hits(ops, p, q), q),
    decreases ops.len(),
{
    if ops.len() > 0 {
        lemma_op_hits(ops.drop_last(), p, q);
        let (m, op) = ops.last();
        let h = hv("OPER"@, method_rgb(m), m + "  "@ + p, excerpt_spec(join_dot(op_details(op)), 55), SelectionView::Operation(p, m));
        lemma_param_hits(op.parameters@, m, p, q);
        lemma_match_concat(op_hits(ops.drop_last(), p, q), keep(h, q), q);
        lemma_match_concat(op_hits(ops.drop_last(), p, q) + keep(h, q), param_hits(op.parameters@, m, p, q), q);
    }
}

proof fn lemma_path_hits(paths: Seq<(Seq<char>, crate::model::PathItem)>, q: Seq<char>)
    ensures
        all_match(path_hits(paths, q), q),
    decreases paths.len(),
{
    if paths.len() > 0 {
        lemma_path_hits(paths.drop_last(), q);
        let (p, item) = paths.last();
        let h = hv("PATH"@, green(), p, excerpt_spec(first_text(item.summary, item.description), 50), SelectionView::Path(p));
        lemma_op_hits(item.operations_spec(), p, q);
        lemma_match_concat(path_hits(paths.drop_last(), q), keep(h, q), q);
        lemma_match_concat(path_hits(paths.drop_last(), q) + keep(h, q), op_hits(item.operations_spec(), p, q), q);
    }
}

proof fn lemma_prop_hits(props: Seq<(Seq<char>, Box<crate::model::Schema>)>, n: Seq<char>, q: Seq<char>)
    ensures
        all_match(prop_hits(props, n, q), q),
    decreases props.len(),
{
    if props.len() > 0 {
        lemma_prop_hits(props.drop_last(), n, q);
        let (pn, ps) = props.last();
        let h = hv("PROP"@, purple(), n + "  › "@ + pn, excerpt_spec(opt_text(ps.description), 45), SelectionView::Schema(n));
        lemma_match_concat(prop_hits(props.drop_last(), n, q), keep(h, q), q);
    }
}

proof fn lemma_schema_hits(t: Seq<(Seq<char>, RefOr<crate::model::Schema>)>, q: Seq<char>)
    ensures
        all_match(schema_hits(t, q), q),
    decreases t.len(),
{
    if t.len() > 0 {
        lemma_schema_hits(t.drop_last(), q);
        let (n, r) = t.last();
        match r {
            RefOr::Item(x) => {
                let h = hv("SCHEMA"@, purple(), n, excerpt_spec(first_text(x.description, x.title), 50), SelectionView::Schema(n));
                lemma_prop_hits(x.properties@, n, q);
                lemma_match_concat(keep(h, q), prop_hits(x.properties@, n, q), q);
                lemma_match_concat(schema_hits(t.drop_last(), q), keep(h, q) + prop_hits(x.properties@, n, q), q);
            },
            RefOr::Ref(_) => {
                lemma_match_concat(schema_hits(t.drop_last(), q), Seq::empty(), q);
            },
        }
    }
}

proof fn lemma_body_hits(t: Seq<(Seq<char>, RefOr<crate::model::RequestBody>)>, q: Seq<char>)
    ensures
        all_match(body_hits(t, q), q),
    decreases t.len(),
{
    if t.len() > 0 {
        lemma_body_hits(t.drop_last(), q);
        let (n, r) = t.last();
        let tail = match r {
            RefOr::Item(b) => keep(hv("REQ BODY"@, orange(), n, excerpt_spec(opt_text(b.description), 50), SelectionView::RequestBody(n)), q),
            RefOr::Ref(_) => Seq::empty(),
        };
        lemma_match_concat(body_hits(t.drop_last(), q), tail, q);
    }
}

proof fn lemma_response_hits(t: Seq<(Seq<char>, RefOr<crate::model::Response>)>, q: Seq<char>)
    ensures
        all_match(response_hits(t, q), q),
    decreases t.len(),
{
    if t.len() > 0 {
        lemma_response_hits(t.drop_last(), q);
        let (n, r) = t.last();
        let tail = match r {
            RefOr::Item(x) => keep(hv("RESPONSE"@, blue(), n, excerpt_spec(x.description@, 50), SelectionView::ComponentResponse(n)), q),
            RefOr::Ref(_) => Seq::empty(),
        };
        lemma_match_concat(response_hits(t.drop_last(), q), tail, q);
    }
}

proof fn lemma_cparam_hits(t: Seq<(Seq<char>, RefOr<crate::model::Parameter>)>, q: Seq<char>)
    ensures
        all_match(cparam_hits(t, q), q),
    decreases t.len(),
{
    if t.len() > 0 {
        lemma_cparam_hits(t.drop_last(), q);
        let (n, r) = t.last();
        let tail = match r {
            RefOr::Item(x) => keep(hv("PARAM"@, teal(), n, excerpt_spec(opt_text(x.description), 50), SelectionView::ComponentParameter(n)), q),
            RefOr::Ref(_) => Seq::empty(),
        };
        lemma_match_concat(cparam_hits(t.drop_last(), q), tail, q);
    }
}

proof fn lemma_example_hits(t: Seq<(Seq<char>, RefOr<crate::model::OaExample>)>, q: Seq<char>)
    ensures
        all_match(example_hits(t, q), q),
    decreases t.len(),
{
    if t.len() > 0 {
        lemma_example_hits(t.drop_last(), q);
        let (n, r) = t.last();
        let tail = match r {
            RefOr::Item(x) => keep(
                hv("EXAMPLE"@, pink(), n, excerpt_spec(join_dot(part(x.summary) + part(x.description)), 50), SelectionView::Example(n)),
                q,
            ),
            RefOr::Ref(_) => Seq::empty(),
        };
        lemma_match_concat(example_hits(t.drop_last(), q), tail, q);
    }
}

proof fn lemma_scheme_hits(t: Seq<(Seq<char>, RefOr<crate::model::SecurityScheme>)>, q: Seq<char>)
    ensures
        all_match(scheme_hits(t, q), q),
    decreases t.len(),
{
    if t.len() > 0 {
        lemma_scheme_hits(t.drop_last(), q);
        let (n, r) = t.last();
        let tail = match r {
            RefOr::Item(x) => keep(
                hv(
                    "SEC SCHEME"@,
                    grey(),
                    n,
                    excerpt_spec(
                        match x.description {
                            Some(d) => d@,
                            None => x.type_@,
                        },
                        50,
                    ),
                    SelectionView::SecurityScheme(n),
                ),
                q,
            ),
            RefOr::Ref(_) => Seq::empty(),
        };
        lemma_match_concat(scheme_hits(t.drop_last(), q), tail, q);
    }
}

/// Every search result contains the query, ignoring case, in its label or its excerpt.
pub proof fn law_search_hits_match(spec: crate::model::OpenApiSpec, q: Seq<char>)
    ensures
        all_match(search_hits(spec, q), q),
{
    lemma_keep(info_hit(spec), q);
    lemma_tag_hits(spec.tags@, q);
    lemma_server_hits(spec.servers@, q);
    lemma_path_hits(spec.paths@, q);
    let a = keep(info_hit(spec), q);
    let b = tag_hits(spec.tags@, q);
    let c = server_hits(spec.servers@, q);
    let d = path_hits(spec.paths@, q);
    lemma_match_concat(a, b, q);
    lemma_match_concat(a + b, c, q);
    lemma_match_concat(a + b + c, d, q);
    match spec.components {
        Some(comp) => {
            lemma_schema_hits(comp.schemas@, q);
            lemma_body_hits(comp.request_bodies@, q);
            lemma_response_hits(comp.responses@, q);
            lemma_cparam_hits(comp.parameters@, q);
            lemma_example_hits(comp.examples@, q);
            lemma_scheme_hits(comp.security_schemes@, q);
            let x1 = schema_hits(comp.schemas@, q);
            let x2 = body_hits(comp.request_bodies@, q);
            let x3 = response_hits(comp.responses@, q);
            let x4 = cparam_hits(comp.parameters@, q);
            let x5 = example_hits(comp.examples@, q);
            let x6 = scheme_hits(comp.security_schemes@, q);
            lemma_match_concat(x1, x2, q);
            lemma_match_concat(x1 + x2, x3, q);
            lemma_match_concat(x1 + x2 + x3, x4, q);
            lemma_match_concat(x1 + x2 + x3 + x4, x5, q);
            lemma_match_concat(x1 + x2 + x3 + x4 + x5, x6, q);
            lemma_match_concat(a + b + c + d, component_hits(comp, q), q);
        },
        None => {
            lemma_match_concat(a + b + c + d, Seq::empty(), q);
        },
    }
}

// ── Saving ───────────────────────────────────────────────────────────────────

/// The keys among the first `n` entries of `um` that `om` lacks, in order.
pub open spec fn new_keys(om: Seq<(YamlView, YamlView)>, um: Seq<(YamlView, YamlView)>, n: nat) -> Seq<YamlView>
    decreases n,
{
    if n == 0 || n > um.len() {
        Seq::empty()
    } else {
        new_keys(om, um, (n - 1) as nat) + if key_index(om, um[n - 1].0) < 0 {
            seq![um[n - 1].0]
        } else {
            Seq::empty()
        }
    }
}

pub open spec fn keys_of_entries(m: Seq<(YamlView, YamlView)>) -> Seq<YamlView> {
    m.map_values(|e: (YamlView, YamlView)| e.0)
}

proof fn lemma_kept_keys(om: Seq<(YamlView, YamlView)>, um: Seq<(YamlView, YamlView)>, n: nat)
    requires
        n <= om.len(),
    ensures
        keys_of_entries(kept_entries(om, um, n)) == keys_of_entries(om.take(n as int)),
{
    lemma_kept_entries(om, um, n);
    assert forall|i: int| 0 <= i < n implies #[trigger] keys_of_entries(kept_entries(om, um, n))[i]
        == keys_of_entries(om.take(n as int))[i] by {
        assert(kept_entries(om, um, n)[i].0 == om[i].0);
    }
    assert(keys_of_entries(kept_entries(om, um, n)) =~= keys_of_entries(om.take(n as int)));
}

proof fn lemma_added_keys(om: Seq<(YamlView, YamlView)>, um: Seq<(YamlView, YamlView)>, n: nat)
    requires
        n <= um.len(),
    ensures
        keys_of_entries(added_entries(om, um, n)) == new_keys(om, um, n),
    decreases n,
{
    if n > 0 {
        lemma_added_keys(om, um, (n - 1) as nat);
        let prev = added_entries(om, um, (n - 1) as nat);
        if key_index(om, um[n - 1].0) < 0 {
            assert(keys_of_entries(added_entries(om, um, n)) =~= keys_of_entries(prev).push(um[n - 1].0));
        }
        assert(keys_of_entries(added_entries(om, um, n)) =~= new_keys(om, um, n));
    } else {
        assert(keys_of_entries(added_entries(om, um, n)) =~= Seq::<YamlView>::empty());
    }
}

/// Saving keeps the file's structure: merging an edited mapping into the mapping the file
/// was read as gives every key of the file's mapping in the file's order, followed by the
/// keys that only the edited mapping has, in its order.
pub proof fn law_merge_keeps_key_order(om: Seq<(YamlView, YamlView)>, um: Seq<(YamlView, YamlView)>)
    ensures
        merge_view(YamlView::Mapping(om), YamlView::Mapping(um)) is Mapping,
        keys_of_entries(merge_view(YamlView::Mapping(om), YamlView::Mapping(um))->Mapping_0)
            == keys_of_entries(om) + new_keys(om, um, um.len()),
{
    lemma_kept_keys(om, um, om.len());
    lemma_added_keys(om, um, um.len());
    assert(om.take(om.len() as int) =~= om);
    let r = kept_entries(om, um, om.len()) + added_entries(om, um, um.len());
    assert(keys_of_entries(r) =~= keys_of_entries(kept_entries(om, um, om.len())) + keys_of_entries(
        added_entries(om, um, um.len()),
    ));
}

/// An entry found only in the file's mapping is kept as it is, whatever its key.
pub proof fn law_merge_keeps_file_only_entries(
    om: Seq<(YamlView, YamlView)>,
    um: Seq<(YamlView, YamlView)>,
    i: int,
)
    requires
        0 <= i < om.len(),
        key_index(um, om[i].0) < 0,
    ensures
        merge_view(YamlView::Mapping(om), YamlView::Mapping(um))->Mapping_0[i] == om[i],
{
    lemma_kept_entries(om, um, om.len());
}

/// Anything but a pair of mappings is replaced by the edited value when saving; in
/// particular sequences are replaced as a whole.
pub proof fn law_merge_replaces_non_mappings(original: YamlView, updated: YamlView)
    requires
        !(original is Mapping && updated is Mapping),
    ensures
        merge_view(original, updated) == updated,
{
}


proof fn lemma_key_index_at(m: Seq<(YamlView, YamlView)>, i: int)
    requires
        distinct_keys(m),
        0 <= i < m.len(),
    ensures
        key_index(m, m[i].0) == i,
{
    lemma_key_index(m, m[i].0);
    let k = key_index(m, m[i].0);
    if k != i {
        if k < i {
            assert(m[k].0 != m[i].0);
        }
    }
}

proof fn lemma_added_none(om: Seq<(YamlView, YamlView)>, um: Seq<(YamlView, YamlView)>, n: nat)
    requires
        n <= um.len(),
        forall|j: int| 0 <= j < n ==> key_index(om, #[trigger] um[j].0) >= 0,
    ensures
        added_entries(om, um, n) == Seq::<(YamlView, YamlView)>::empty(),
    decreases n,
{
    if n > 0 {
        lemma_added_none(om, um, (n - 1) as nat);
    }
}

/// Every added entry is an entry of the edited mapping whose key the file's mapping lacks.
proof fn lemma_added_from(om: Seq<(YamlView, YamlView)>, um: Seq<(YamlView, YamlView)>, n: nat)
    requires
        n <= um.len(),
    ensures
        forall|t: int| 0 <= t < added_entries(om, um, n).len() ==> exists|j: int|
            0 <= j < n && #[trigger] added_entries(om, um, n)[t] == um[j] && key_index(om, um[j].0) < 0,
    decreases n,
{
    if n > 0 {
        lemma_added_from(om, um, (n - 1) as nat);
        let prev = added_entries(om, um, (n - 1) as nat);
        assert forall|t: int| 0 <= t < added_entries(om, um, n).len() implies exists|j: int|
            0 <= j < n && #[trigger] added_entries(om, um, n)[t] == um[j] && key_index(om, um[j].0) < 0 by {
            if t < prev.len() {
                let j = choose|j: int| 0 <= j < n - 1 && #[trigger] prev[t] == um[j] && key_index(om, um[j].0) < 0;
                assert(added_entries(om, um, n)[t] == um[j]);
            } else {
                assert(added_entries(om, um, n)[t] == um[n - 1]);
            }
        }
    }
}

/// An entry of the edited mapping whose key the file's mapping lacks is among the added ones.
proof fn lemma_added_contains(om: Seq<(YamlView, YamlView)>, um: Seq<(YamlView, YamlView)>, n: nat, j: int)
    requires
        0 <= j < n <= um.len(),
        key_index(om, um[j].0) < 0,
    ensures
        exists|t: int| 0 <= t < added_entries(om, um, n).len() && #[trigger] added_entries(om, um, n)[t] == um[j],
    decreases n,
{
    if j == n - 1 {
        let t = added_entries(om, um, (n - 1) as nat).len() as int;
        assert(added_entries(om, um, n)[t] == um[j]);
    } else {
        lemma_added_contains(om, um, (n - 1) as nat, j);
        let t = choose|t: int|
            0 <= t < added_entries(om, um, (n - 1) as nat).len() && #[trigger] added_entries(om, um, (n - 1) as nat)[t] == um[j];
        assert(added_entries(om, um, n)[t] == um[j]);
    }
}

/// Merging a well-formed tree into itself gives it back.
pub proof fn lemma_merge_self(x: YamlView)
    requires
        well_formed(x),
    ensures
        merge_view(x, x) == x,
    decreases x,
{
    match x {
        YamlView::Mapping(m) => {
            lemma_entries_well_formed(m, m.len());
            lemma_kept_entries(m, m, m.len());
            assert forall|i: int| 0 <= i < m.len() implies #[trigger] kept_entries(m, m, m.len())[i] == m[i] by {
                lemma_key_index_at(m, i);
                assert(decreases_to!(x => m));
                assert(decreases_to!(m => m[i]));
                assert(decreases_to!(m[i] => m[i].1));
                lemma_merge_self(m[i].1);
            }
            assert forall|j: int| 0 <= j < m.len() implies key_index(m, #[trigger] m[j].0) >= 0 by {
                lemma_key_index_at(m, j);
            }
            lemma_added_none(m, m, m.len());
            assert(kept_entries(m, m, m.len()) + added_entries(m, m, m.len()) =~= m);
        },
        _ => {},
    }
}

/// Saving the same edit twice changes nothing more: merging a well-formed edited tree into
/// the result of merging it gives that result again.
pub proof fn law_merge_twice(original: YamlView, updated: YamlView)
    requires
        well_formed(updated),
    ensures
        merge_view(merge_view(original, updated), updated) == merge_view(original, updated),
    decreases original,
{
    lemma_merge_self(updated);
    match (original, updated) {
        (YamlView::Mapping(om), YamlView::Mapping(um)) => {
            lemma_entries_well_formed(um, um.len());
            let k = kept_entries(om, um, om.len());
            let a = added_entries(om, um, um.len());
            let m1 = k + a;
            lemma_kept_entries(om, um, om.len());
            lemma_added_from(om, um, um.len());
            lemma_kept_entries(m1, um, m1.len());
            assert forall|i: int| 0 <= i < m1.len() implies #[trigger] kept_entries(m1, um, m1.len())[i] == m1[i] by {
                if i < k.len() {
                    assert(m1[i] == k[i]);
                    let j = key_index(um, om[i].0);
                    if j >= 0 {
                        lemma_key_index(um, om[i].0);
                        assert(decreases_to!(original => om));
                        assert(decreases_to!(om => om[i]));
                        assert(decreases_to!(om[i] => om[i].1));
                        law_merge_twice(om[i].1, um[j].1);
                    }
                } else {
                    let t = i - k.len();
                    assert(m1[i] == a[t]);
                    let j = choose|j: int| 0 <= j < um.len() && #[trigger] a[t] == um[j] && key_index(om, um[j].0) < 0;
                    lemma_key_index_at(um, j);
                    lemma_merge_self(um[j].1);
                }
            }
            assert forall|j: int| 0 <= j < um.len() implies key_index(m1, #[trigger] um[j].0) >= 0 by {
                lemma_key_index(m1, um[j].0);
                lemma_key_index(om, um[j].0);
                if key_index(om, um[j].0) >= 0 {
                    let i = key_index(om, um[j].0);
                    assert(m1[i].0 == um[j].0);
                } else {
                    lemma_added_contains(om, um, um.len(), j);
                    let t = choose|t: int| 0 <= t < a.len() && #[trigger] a[t] == um[j];
                    assert(m1[k.len() + t].0 == um[j].0);
                }
            }
            lemma_added_none(m1, um, um.len());
            assert(kept_entries(m1, um, m1.len()) + added_entries(m1, um, um.len()) =~= m1);
        },
        _ => {},
    }
}

/// The keys of the added entries are distinct when those of the edited mapping are.
proof fn lemma_added_distinct(om: Seq<(YamlView, YamlView)>, um: Seq<(YamlView, YamlView)>, n: nat)
    requires
        n <= um.len(),
        distinct_keys(um),
    ensures
        distinct_keys(added_entries(om, um, n)),
    decreases n,
{
    if n > 0 {
        lemma_added_distinct(om, um, (n - 1) as nat);
        lemma_added_from(om, um, (n - 1) as nat);
        let prev = added_entries(om, um, (n - 1) as nat);
        let cur = added_entries(om, um, n);
        assert forall|i: int, j: int| 0 <= i < j < cur.len() implies cur[i].0 != cur[j].0 by {
            if j < prev.len() {
                assert(cur[i] == prev[i] && cur[j] == prev[j]);
            } else {
                assert(cur[i] == prev[i]);
                assert(cur[j] == um[n - 1]);
                let t = choose|t: int| 0 <= t < n - 1 && #[trigger] prev[i] == um[t] && key_index(om, um[t].0) < 0;
                assert(um[t].0 != um[n - 1].0);
            }
        }
    }
}

/// Saving keeps a tree well formed: merging a well-formed edited tree into a well-formed
/// tree gives a well-formed tree.
pub proof fn law_merge_keeps_well_formed(original: YamlView, updated: YamlView)
    requires
        well_formed(original),
        well_formed(updated),
    ensures
        well_formed(merge_view(original, updated)),
    decreases original,
{
    match (original, updated) {
        (YamlView::Mapping(om), YamlView::Mapping(um)) => {
            lemma_entries_well_formed(om, om.len());
            lemma_entries_well_formed(um, um.len());
            let k = kept_entries(om, um, om.len());
            let a = added_entries(om, um, um.len());
            let m1 = k + a;
            lemma_kept_entries(om, um, om.len());
            lemma_added_from(om, um, um.len());
            lemma_added_distinct(om, um, um.len());
            assert forall|i: int| 0 <= i < m1.len() implies well_formed(#[trigger] m1[i].0) && well_formed(m1[i].1) by {
                if i < k.len() {
                    assert(m1[i] == k[i]);
                    let j = key_index(um, om[i].0);
                    if j >= 0 {
                        lemma_key_index(um, om[i].0);
                        assert(decreases_to!(original => om));
                        assert(decreases_to!(om => om[i]));
                        assert(decreases_to!(om[i] => om[i].1));
                        law_merge_keeps_well_formed(om[i].1, um[j].1);
                    }
                } else {
                    let t = i - k.len();
                    assert(m1[i] == a[t]);
                    let j = choose|j: int| 0 <= j < um.len() && #[trigger] a[t] == um[j] && key_index(om, um[j].0) < 0;
                    assert(well_formed(um[j].0));
                }
            }
            assert forall|i: int, j: int| 0 <= i < j < m1.len() implies m1[i].0 != m1[j].0 by {
                if j < k.len() {
                    assert(m1[i] == k[i] && m1[j] == k[j]);
                    assert(k[i].0 == om[i].0 && k[j].0 == om[j].0);
                } else if i < k.len() {
                    assert(m1[i] == k[i]);
                    assert(k[i].0 == om[i].0);
                    let t = j - k.len();
                    assert(m1[j] == a[t]);
                    let jj = choose|jj: int| 0 <= jj < um.len() && #[trigger] a[t] == um[jj] && key_index(om, um[jj].0) < 0;
                    lemma_key_index(om, um[jj].0);
                } else {
                    assert(m1[i] == a[i - k.len()] && m1[j] == a[j - k.len()]);
                }
            }
            lemma_entries_well_formed(m1, m1.len());
        },
        _ => {},
    }
}

// ── Generated paths ──────────────────────────────────────────────────────────

proof fn lemma_find_key_same_keys(a: Seq<(Seq<char>, PathItem)>, b: Seq<(Seq<char>, PathItem)>, k: Seq<char>)
    requires
        a.len() == b.len(),
        forall|j: int| 0 <= j < a.len() ==> #[trigger] a[j].0 == b[j].0,
    ensures
        find_key(a, k) == find_key(b, k),
    decreases a.len(),
{
    if a.len() > 0 {
        lemma_find_key_same_keys(a.drop_last(), b.drop_last(), k);
        assert(a.last().0 == b.last().0);
    }
}

proof fn lemma_filled_twice(o: PathItem, n: PathItem, name: Seq<char>, is_item: bool, n2: PathItem)
    requires
        path_filled(Some(o), n, name, is_item) || path_filled(None, n, name, is_item),
        path_filled(Some(n), n2, name, is_item),
    ensures
        n2 == n,
{
}

/// Adding the default paths of a schema a second time changes nothing: every operation
/// the first time filled in is kept.
pub proof fn law_default_paths_idempotent(
    old: Seq<(Seq<char>, PathItem)>,
    mid: Seq<(Seq<char>, PathItem)>,
    new: Seq<(Seq<char>, PathItem)>,
    key: Seq<char>,
    name: Seq<char>,
    is_item: bool,
)
    requires
        entry_filled(old, mid, key, name, is_item),
        entry_filled(mid, new, key, name, is_item),
    ensures
        new == mid,
{
    lemma_find_key(old, key);
    lemma_find_key(mid, key);
    if has_key(old, key) {
        let i = find_key(old, key);
        assert forall|j: int| 0 <= j < old.len() implies #[trigger] old[j].0 == mid[j].0 by {}
        lemma_find_key_same_keys(old, mid, key);
        lemma_filled_twice(old[i].1, mid[i].1, name, is_item, new[i].1);
    } else {
        let i = old.len() as int;
        assert(mid[i].0 == key);
        assert forall|j: int| 0 <= j < i implies mid[j].0 != key by {
            assert(mid[j] == mid.drop_last()[j]);
        }
        assert(find_key(mid, key) == i);
        lemma_filled_twice(mid[i].1, mid[i].1, name, is_item, new[i].1);
    }
    assert(new =~= mid);
}


proof fn lemma_filled_entry(
    old: Seq<(Seq<char>, PathItem)>,
    new: Seq<(Seq<char>, PathItem)>,
    key: Seq<char>,
    name: Seq<char>,
    is_item: bool,
)
    requires
        entry_filled(old, new, key, name, is_item),
    ensures
        has_key(new, key),
        path_filled(Some(new[find_key(new, key)].1), new[find_key(new, key)].1, name, is_item),
{
    lemma_find_key(old, key);
    lemma_find_key(new, key);
    if has_key(old, key) {
        let i = find_key(old, key);
        assert forall|j: int| 0 <= j < old.len() implies #[trigger] old[j].0 == new[j].0 by {}
        lemma_find_key_same_keys(old, new, key);
        lemma_filled_twice(old[i].1, new[i].1, name, is_item, new[i].1);
    } else {
        let i = old.len() as int;
        assert forall|j: int| 0 <= j < i implies new[j].0 != key by {
            assert(new[j] == new.drop_last()[j]);
        }
        assert(find_key(new, key) == i);
    }
}

proof fn lemma_other_entry_kept(
    old: Seq<(Seq<char>, PathItem)>,
    new: Seq<(Seq<char>, PathItem)>,
    key: Seq<char>,
    name: Seq<char>,
    is_item: bool,
    k2: Seq<char>,
)
    requires
        entry_filled(old, new, key, name, is_item),
        k2 != key,
        has_key(old, k2),
    ensures
        has_key(new, k2),
        new[find_key(new, k2)] == old[find_key(old, k2)],
{
    lemma_find_key(old, k2);
    lemma_find_key(new, k2);
    lemma_find_key(old, key);
    if has_key(old, key) {
        assert forall|j: int| 0 <= j < old.len() implies #[trigger] old[j].0 == new[j].0 by {}
        lemma_find_key_same_keys(old, new, k2);
    } else {
        let f = find_key(old, k2);
        assert(new[f] == old[f]);
        assert forall|j: int| 0 <= j < f implies new[j].0 != k2 by {
            assert(new[j] == old[j]);
        }
    }
}

proof fn lemma_refill(
    old: Seq<(Seq<char>, PathItem)>,
    new: Seq<(Seq<char>, PathItem)>,
    key: Seq<char>,
    name: Seq<char>,
    is_item: bool,
)
    requires
        entry_filled(old, new, key, name, is_item),
        has_key(old, key),
        path_filled(Some(old[find_key(old, key)].1), old[find_key(old, key)].1, name, is_item),
    ensures
        new == old,
{
    lemma_find_key(old, key);
    let i = find_key(old, key);
    lemma_filled_twice(old[i].1, old[i].1, name, is_item, new[i].1);
    assert(new[i] == old[i]);
    assert(new =~= old);
}

/// Adding the default paths of a schema a second time changes nothing: the document,
/// the selection, the status and the modified flag are as after the first time.
pub proof fn law_default_paths_twice(a0: App, a1: App, a2: App, name: Seq<char>)
    requires
        default_paths_added(a0, a1, name),
        default_paths_added(a1, a2, name),
    ensures
        a2.spec->0.paths@ == a1.spec->0.paths@,
        a2.spec->0 == (OpenApiSpec { paths: a2.spec->0.paths, ..a1.spec->0 }),
        a2.selection@ == a1.selection@,
        a2.status@ == a1.status@,
        a2.dirty == a1.dirty,
        a2 == (App { spec: a2.spec, selection: a2.selection, status: a2.status, ..a1 }),
{
    let c = collection_path(name);
    let it = item_path(name);
    law_crud_paths(name);
    let p0 = a0.spec->0.paths@;
    let p1 = a1.spec->0.paths@;
    let p2 = a2.spec->0.paths@;
    let m1 = choose|mid: Seq<(Seq<char>, PathItem)>| #[trigger]
        entry_filled(p0, mid, c, name, false) && entry_filled(mid, p1, it, name, true);
    let m2 = choose|mid: Seq<(Seq<char>, PathItem)>| #[trigger]
        entry_filled(p1, mid, c, name, false) && entry_filled(mid, p2, it, name, true);
    lemma_filled_entry(p0, m1, c, name, false);
    lemma_other_entry_kept(m1, p1, it, name, true, c);
    lemma_refill(p1, m2, c, name, false);
    lemma_filled_entry(m1, p1, it, name, true);
    lemma_refill(m2, p2, it, name, true);
}

// ── Closing ──────────────────────────────────────────────────────────────────

/// Closing loses no changes unawares. A close request with unsaved changes does not close:
/// it keeps them and shows the unsaved-changes dialog. From the dialog the window closes
/// only through "Don't Save", which drops the changes on purpose, or through "Save" exactly
/// when the save left nothing unsaved; "Cancel" only hides the dialog. Whenever a step lets
/// the window close, nothing unsaved remains.
pub proof fn law_close_protocol(a0: App, a1: App, c1: bool, a2: App, c2: bool)
    ensures
        close_requested(a0, a1, c1) ==> (c1 ==> !a1.dirty) && (a0.dirty ==> !c1 && a1.dirty
            && a1.show_exit_dialog),
        close_discarded(a1, a2) ==> !a2.dirty && !a2.show_exit_dialog,
        closed_after_save(a1, a2, c2) ==> (c2 <==> !a2.dirty) && !a2.show_exit_dialog,
        close_cancelled(a1, a2) ==> !a2.show_exit_dialog && a2.dirty == a1.dirty && a2.spec
            == a1.spec,
{
}

// ── Path templates ───────────────────────────────────────────────────────────

/// The names taken from a path template have no repeats and all occur in the template.
pub proof fn law_dedup_distinct(s: Seq<Seq<char>>)
    ensures
        forall|i: int, j: int| 0 <= i < j < dedup(s).len() ==> dedup(s)[i] != dedup(s)[j],
        forall|i: int| 0 <= i < dedup(s).len() ==> s.contains(#[trigger] dedup(s)[i]),
    decreases s.len(),
{
    if s.len() > 0 {
        law_dedup_distinct(s.drop_last());
        let d = dedup(s.drop_last());
        assert forall|i: int| 0 <= i < d.len() implies s.contains(#[trigger] d[i]) by {
            let k = choose|k: int| 0 <= k < s.drop_last().len() && s.drop_last()[k] == d[i];
            assert(s[k] == d[i]);
        }
        if !d.contains(s.last()) {
            let e = d.push(s.last());
            assert forall|i: int, j: int| 0 <= i < j < e.len() implies e[i] != e[j] by {
                if j == d.len() {
                    assert(e[i] == d[i]);
                } else {
                    assert(e[i] == d[i] && e[j] == d[j]);
                }
            }
            assert forall|i: int| 0 <= i < e.len() implies s.contains(#[trigger] e[i]) by {
                if i < d.len() {
                    assert(e[i] == d[i]);
                } else {
                    assert(s[s.len() - 1] == e[i]);
                }
            }
        }
    }
}

// ── Comments ─────────────────────────────────────────────────────────────────

proof fn lemma_trim_end_len(s: Seq<char>)
    ensures
        trim_end_len(s) <= s.len(),
    decreases s.len(),
{
    if s.len() > 0 {
        lemma_trim_end_len(s.drop_last());
    }
}

/// Splitting off a comment gives a value that starts the text and a comment that ends it,
/// never overlapping; without a comment the value is the whole text.
pub proof fn law_split_comment_parts(s: Seq<char>)
    ensures
        ({
            let (v, c) = split_comment_spec(s);
            &&& v.len() + c.len() <= s.len()
            &&& s.take(v.len() as int) == v
            &&& s.skip(s.len() - c.len()) == c
            &&& (c.len() == 0 ==> v == s)
        }),
{
    let i = comment_from(s, 0);
    lemma_comment_from_bounds(s, 0);
    if i > 0 {
        let head = s.take(i - 1);
        lemma_trim_end_len(head);
        assert(s.take(trim_end_len(head) as int) =~= trim_end_spec(head));
        assert(s.skip(s.len() - s.skip(i - 1).len()) =~= s.skip(i - 1));
        assert(s.skip(i - 1).len() > 0);
    } else {
        assert(s.take(s.len() as int) =~= s);
        assert(s.skip(s.len() as int) =~= Seq::<char>::empty());
    }
}

/// Adding the default CRUD paths of a schema leaves the checks nothing to report about the
/// operations it creates: no finding points at an operation under the new collection path or
/// under the new item path. This holds when neither path was in the document before, the
/// collection path holds no `{`, and no operation of the document already carries one of the
/// ids that the new operations get.
pub proof fn law_generated_paths_lint_clean(a0: App, a1: App, name: Seq<char>)
    requires
        default_paths_added(a0, a1, name),
        !has_key(a0.spec->0.paths@, collection_path(name)),
        !has_key(a0.spec->0.paths@, item_path(name)),
        forall|i: int| 0 <= i < collection_path(name).len() ==> collection_path(name)[i] != '{',
        ids_unused(a0.spec->0, generated_ids(name)),
    ensures
        none_on_path(lint_spec(a1.spec->0), collection_path(name)),
        none_on_path(lint_spec(a1.spec->0), item_path(name)),
{
    lemma_generated_paths_lint_clean(a0, a1, name);
}

// ── Highlighting ─────────────────────────────────────────────────────────────

/// The texts of highlighted pieces, one after the other.
pub open spec fn tok_texts<K>(ts: Seq<(Seq<char>, K)>) -> Seq<char>
    decreases ts.len(),
{
    if ts.len() == 0 {
        Seq::empty()
    } else {
        tok_texts(ts.drop_last()) + ts.last().0
    }
}

pub proof fn lemma_tok_texts_add<K>(a: Seq<(Seq<char>, K)>, b: Seq<(Seq<char>, K)>)
    ensures
        tok_texts(a + b) == tok_texts(a) + tok_texts(b),
    decreases b.len(),
{
    if b.len() == 0 {
        assert(a + b =~= a);
        assert(tok_texts(a) + tok_texts(b) =~= tok_texts(a));
    } else {
        lemma_tok_texts_add(a, b.drop_last());
        assert((a + b).drop_last() =~= a + b.drop_last());
        assert(tok_texts(a + b) =~= tok_texts(a) + tok_texts(b));
    }
}

proof fn lemma_tok_texts_one<K>(t: Seq<char>, k: K)
    ensures
        tok_texts(seq![(t, k)]) == t,
{
    let one = seq![(t, k)];
    assert(one.drop_last() =~= Seq::<(Seq<char>, K)>::empty());
    assert(tok_texts(one.drop_last()) == Seq::<char>::empty());
    assert(one.last().0 == t);
    assert(Seq::<char>::empty() + t =~= t);
}

proof fn lemma_plain_texts(t: Seq<char>, k: int)
    requires
        0 <= k <= t.len(),
    ensures
        tok_texts(plain_toks(t, k)) == t.subrange(k, t.len() as int),
    decreases t.len() - k,
{
    if k == t.len() {
        assert(t.subrange(k, t.len() as int) =~= Seq::<char>::empty());
    } else {
        let c = t[k];
        let next = if is_punct(c) {
            k + 1
        } else if starts_at(t, k, word_true()) {
            k + 4
        } else if starts_at(t, k, word_false()) {
            k + 5
        } else if starts_at(t, k, word_null()) {
            k + 4
        } else if crate::highlight::is_ascii_digit(c) || (c == '-' && k + 1 < t.len()
            && crate::highlight::is_ascii_digit(t[k + 1])) {
            lemma_num_end(t, k + 1);
            num_end(t, k + 1)
        } else {
            k + 1
        };
        lemma_plain_texts(t, next);
        let head = t.subrange(k, next);
        assert(plain_toks(t, k) == seq![(head, plain_toks(t, k)[0].1)] + plain_toks(t, next)) by {
            if is_punct(c) {
                assert(head =~= seq![c]);
            } else if starts_at(t, k, word_true()) {
            } else if starts_at(t, k, word_false()) {
            } else if starts_at(t, k, word_null()) {
            } else if crate::highlight::is_ascii_digit(c) || (c == '-' && k + 1 < t.len()
                && crate::highlight::is_ascii_digit(t[k + 1])) {
            } else {
                assert(head =~= seq![c]);
            }
        }
        lemma_tok_texts_add(seq![(head, plain_toks(t, k)[0].1)], plain_toks(t, next));
        lemma_tok_texts_one(head, plain_toks(t, k)[0].1);
        assert(t.subrange(k, t.len() as int) =~= head + t.subrange(next, t.len() as int));
    }
}

proof fn lemma_json_texts_from(s: Seq<char>, i: int)
    requires
        0 <= i <= s.len(),
        json_ok_from(s, i),
    ensures
        tok_texts(json_toks_from(s, i)) == s.subrange(i, s.len() as int),
    decreases s.len() - i,
{
    let q = next_quote(s, i);
    lemma_next_quote(s, i);
    let t = s.subrange(i, q);
    lemma_plain_texts(t, 0);
    assert(t.subrange(0, t.len() as int) =~= t);
    if q < s.len() {
        let e = scan_str(s, q + 1);
        lemma_scan_str(s, q + 1);
        lemma_json_texts_from(s, e);
        let k = if crate::highlight::is_key_at(s, e) {
            crate::highlight::JsonTok::Key
        } else {
            crate::highlight::JsonTok::Str
        };
        let rest = seq![(s.subrange(q, e), k)] + json_toks_from(s, e);
        assert(json_toks_from(s, i) == plain_toks(t, 0) + rest);
        lemma_tok_texts_add(plain_toks(t, 0), rest);
        lemma_tok_texts_add(seq![(s.subrange(q, e), k)], json_toks_from(s, e));
        lemma_tok_texts_one(s.subrange(q, e), k);
        assert(s.subrange(i, s.len() as int) =~= t + s.subrange(q, e) + s.subrange(e, s.len() as int));
    } else {
        assert(json_toks_from(s, i) =~= plain_toks(t, 0) + Seq::empty());
        assert(s.subrange(i, s.len() as int) =~= t);
    }
}

/// The pieces of highlighted JSON, one after the other, give back the text, for every
/// text the highlighter takes.
pub proof fn law_json_pieces_cover_text(s: Seq<char>)
    requires
        json_highlightable(s),
    ensures
        tok_texts(json_toks(s)) == s,
{
    lemma_json_texts_from(s, 0);
    assert(s.subrange(0, s.len() as int) =~= s);
}

/// No `#` in `x` follows a space, so no comment starts in it.
pub open spec fn no_hash_after_space(x: Seq<char>) -> bool {
    forall|i: int| 0 < i < x.len() && #[trigger] x[i] == '#' ==> x[i - 1] != ' '
}

/// `x` does not end in white space.
pub open spec fn ends_unspaced(x: Seq<char>) -> bool {
    x.len() == 0 || !is_space(x.last())
}

/// A line whose highlighted pieces give it back: a comment line, or a line with no `#`
/// after a space and no white space at its end. (The highlighter drops white space after a
/// key that has no value, and before a comment.)
pub open spec fn line_kept(l: Seq<char>) -> bool {
    let t = l.skip(lead_len(l) as int);
    (t.len() > 0 && t[0] == '#') || (no_hash_after_space(l) && ends_unspaced(l))
}

/// Lines, each followed by a line end.
pub open spec fn joined_lines(ls: Seq<Seq<char>>) -> Seq<char>
    decreases ls.len(),
{
    if ls.len() == 0 {
        Seq::empty()
    } else {
        joined_lines(ls.drop_last()) + ls.last() + "\n"@
    }
}

proof fn lemma_suffix_kept(x: Seq<char>, m: int)
    requires
        0 <= m <= x.len(),
        no_hash_after_space(x),
        ends_unspaced(x),
    ensures
        no_hash_after_space(x.skip(m)),
        ends_unspaced(x.skip(m)),
{
    let y = x.skip(m);
    assert forall|i: int| 0 < i < y.len() && #[trigger] y[i] == '#' implies y[i - 1] != ' ' by {
        assert(y[i] == x[i + m]);
        assert(y[i - 1] == x[i + m - 1]);
    }
    if y.len() > 0 {
        assert(y.last() == x.last());
    }
}

proof fn lemma_lead_len(x: Seq<char>)
    ensures
        lead_len(x) <= x.len(),
        forall|i: int| 0 <= i < lead_len(x) ==> is_space(#[trigger] x[i]),
    decreases x.len(),
{
    if x.len() > 0 && is_space(x[0]) {
        lemma_lead_len(x.drop_first());
        assert forall|i: int| 0 <= i < lead_len(x) implies is_space(#[trigger] x[i]) by {
            if i > 0 {
                assert(x[i] == x.drop_first()[i - 1]);
            }
        }
    }
}

proof fn lemma_no_comment(x: Seq<char>, j: int)
    requires
        0 <= j,
        no_hash_after_space(x),
    ensures
        comment_from(x, j) == -1,
    decreases x.len() - j,
{
    if j < x.len() {
        if is_comment_start(x, j) {
            assert(x[j] == '#');
        }
        lemma_no_comment(x, j + 1);
    }
}

proof fn lemma_tok_texts(t: Seq<char>, k: YamlTok)
    ensures
        tok_texts(tok(t, k)) == t,
{
    if t.len() == 0 {
        assert(tok_texts(Seq::<(Seq<char>, YamlTok)>::empty()) == Seq::<char>::empty());
        assert(t =~= Seq::<char>::empty());
    } else {
        lemma_tok_texts_one(t, k);
    }
}

proof fn lemma_value_texts(rest: Seq<char>, is_ref: bool)
    requires
        no_hash_after_space(rest),
        ends_unspaced(rest),
    ensures
        tok_texts(value_toks(rest, is_ref)) == rest,
{
    let vs = lead_len(rest);
    lemma_lead_len(rest);
    if vs < rest.len() {
        let x = rest.skip(vs as int);
        lemma_suffix_kept(rest, vs as int);
        lemma_no_comment(x, 0);
        let (val, cmt) = split_comment_spec(x);
        assert(val == x && cmt.len() == 0);
        let k = value_toks(rest, is_ref);
        let a = tok(rest.take(vs as int), YamlTok::Plain);
        let b = tok(val, if is_ref { YamlTok::RefKey } else { crate::highlight::value_class(val) });
        let c = tok(cmt, YamlTok::Comment);
        assert(k == a + b + c);
        lemma_tok_texts_add(a + b, c);
        lemma_tok_texts_add(a, b);
        lemma_tok_texts(rest.take(vs as int), YamlTok::Plain);
        lemma_tok_texts(val, if is_ref { YamlTok::RefKey } else { crate::highlight::value_class(val) });
        lemma_tok_texts(cmt, YamlTok::Comment);
        assert(rest =~= rest.take(vs as int) + x + cmt);
    } else {
        if rest.len() > 0 {
            assert(is_space(rest[rest.len() - 1]));
        }
        assert(rest =~= Seq::<char>::empty());
        assert(tok_texts(Seq::<(Seq<char>, YamlTok)>::empty()) == Seq::<char>::empty());
    }
}

proof fn lemma_content_texts(c: Seq<char>)
    requires
        no_hash_after_space(c),
        ends_unspaced(c),
    ensures
        tok_texts(content_toks(c)) == c,
{
    let k = key_colon_from(c, 0);
    lemma_key_colon_from(c, 0);
    if k >= 0 {
        let key = c.take(k);
        let is_ref = key == "$ref"@;
        let rest = c.skip(k + 1);
        lemma_suffix_kept(c, k + 1);
        lemma_value_texts(rest, is_ref);
        let a = tok(key, if is_ref { YamlTok::RefKey } else { YamlTok::Key });
        let b = tok(":"@, YamlTok::Plain);
        let v = value_toks(rest, is_ref);
        assert(content_toks(c) == a + b + v);
        lemma_tok_texts_add(a + b, v);
        lemma_tok_texts_add(a, b);
        lemma_tok_texts(key, if is_ref { YamlTok::RefKey } else { YamlTok::Key });
        lemma_tok_texts(":"@, YamlTok::Plain);
        reveal_strlit(":");
        assert(c =~= key + ":"@ + rest);
    } else {
        lemma_tok_texts(c, crate::highlight::value_class(c));
    }
}

proof fn lemma_line_texts(l: Seq<char>)
    requires
        line_kept(l),
    ensures
        tok_texts(line_toks(l)) == l,
{
    let n = lead_len(l);
    lemma_lead_len(l);
    let t = l.skip(n as int);
    let ind = l.take(n as int);
    reveal_strlit("---");
    reveal_strlit("...");
    reveal_strlit("-");
    reveal_strlit("- ");
    if t.len() > 0 && t[0] == '#' {
        lemma_tok_texts(l, YamlTok::Comment);
    } else if t == "---"@ || t == "..."@ {
        lemma_tok_texts(l, YamlTok::Marker);
    } else if t == "-"@ {
        let a = tok(ind, YamlTok::Plain);
        let b = tok("-"@, YamlTok::Marker);
        lemma_tok_texts_add(a, b);
        lemma_tok_texts(ind, YamlTok::Plain);
        lemma_tok_texts("-"@, YamlTok::Marker);
        assert(l =~= ind + t);
    } else if t.len() >= 2 && t[0] == '-' && t[1] == ' ' {
        lemma_suffix_kept(l, n as int);
        lemma_suffix_kept(t, 2);
        lemma_content_texts(t.skip(2));
        let a = tok(ind, YamlTok::Plain);
        let b = tok("- "@, YamlTok::Marker);
        let c = content_toks(t.skip(2));
        lemma_tok_texts_add(a + b, c);
        lemma_tok_texts_add(a, b);
        lemma_tok_texts(ind, YamlTok::Plain);
        lemma_tok_texts("- "@, YamlTok::Marker);
        assert(t =~= "- "@ + t.skip(2));
        assert(l =~= ind + t);
    } else {
        lemma_suffix_kept(l, n as int);
        lemma_content_texts(t);
        let a = tok(ind, YamlTok::Plain);
        lemma_tok_texts_add(a, content_toks(t));
        lemma_tok_texts(ind, YamlTok::Plain);
        assert(l =~= ind + t);
    }
}

proof fn lemma_lines_texts(lines: Seq<Seq<char>>, n: int)
    requires
        0 <= n <= lines.len(),
        forall|i: int| 0 <= i < lines.len() ==> line_kept(#[trigger] lines[i]),
    ensures
        tok_texts(lines_toks(lines, n)) == joined_lines(lines.take(n)),
    decreases n,
{
    if n == 0 {
        assert(lines.take(0) =~= Seq::<Seq<char>>::empty());
        assert(tok_texts(Seq::<(Seq<char>, YamlTok)>::empty()) == Seq::<char>::empty());
    } else {
        lemma_lines_texts(lines, n - 1);
        lemma_line_texts(lines[n - 1]);
        let a = lines_toks(lines, n - 1);
        let b = line_toks(lines[n - 1]);
        let c = tok("\n"@, YamlTok::Plain);
        lemma_tok_texts_add(a + b, c);
        lemma_tok_texts_add(a, b);
        lemma_tok_texts("\n"@, YamlTok::Plain);
        assert(lines.take(n).drop_last() =~= lines.take(n - 1));
    }
}

proof fn lemma_joined_split(code: Seq<char>)
    ensures
        joined_lines(split_spec(code, '\n')) == code + "\n"@,
    decreases code.len(),
{
    reveal_strlit("\n");
    crate::resource::lemma_split_nonempty(code, '\n');
    if code.len() == 0 {
        let p = split_spec(code, '\n');
        assert(p == seq![Seq::<char>::empty()]);
        assert(p.drop_last() =~= Seq::<Seq<char>>::empty());
        assert(joined_lines(p.drop_last()) == Seq::<char>::empty());
        assert(joined_lines(p) =~= code + "\n"@);
    } else {
        let s0 = code.drop_last();
        lemma_joined_split(s0);
        crate::resource::lemma_split_nonempty(s0, '\n');
        let p = split_spec(s0, '\n');
        if code.last() == '\n' {
            assert(split_spec(code, '\n').drop_last() =~= p);
            assert(joined_lines(split_spec(code, '\n')) =~= code + "\n"@);
        } else {
            let q = split_spec(code, '\n');
            assert(q.drop_last() =~= p.drop_last());
            let nl = "\n"@;
            let a = joined_lines(p.drop_last()) + p.last();
            assert(joined_lines(p) == a + nl);
            assert(a + nl == s0 + nl);
            assert(a.len() == s0.len());
            assert(a =~= (a + nl).subrange(0, a.len() as int));
            assert(s0 =~= (s0 + nl).subrange(0, s0.len() as int));
            assert(a == s0);
            assert(q.last() == p.last().push(code.last()));
            assert(joined_lines(q) == joined_lines(q.drop_last()) + q.last() + nl);
            assert(code =~= s0.push(code.last()));
            assert(joined_lines(q) =~= code + nl);
        }
    }
}

/// The pieces of highlighted YAML, one after the other, give back the text followed by a
/// line end, when every line is kept whole (see `line_kept`).
pub proof fn law_yaml_pieces_cover_text(code: Seq<char>)
    requires
        forall|i: int|
            0 <= i < split_spec(code, '\n').len() ==> line_kept(#[trigger] split_spec(code, '\n')[i]),
    ensures
        tok_texts(yaml_toks(code)) == code + "\n"@,
{
    let lines = split_spec(code, '\n');
    lemma_lines_texts(lines, lines.len() as int);
    assert(lines.take(lines.len() as int) =~= lines);
    lemma_joined_split(code);
}

// ── Names, checks, search and the sidebar ────────────────────────────────────

/// The plural of a word ending in `y`: after one of the vowels `a`, `e`, `i`, `o`, `u` the
/// word takes `s` (`key` → `keys`, `day` → `days`); after any other character, or alone,
/// the `y` becomes `ies` (`category` → `categories`).
pub proof fn law_plural_of_y(w: Seq<char>, c: char)
    ensures
        (c == 'a' || c == 'e' || c == 'i' || c == 'o' || c == 'u') ==> pluralize_spec(
            w + seq![c, 'y'],
        ) == w + seq![c, 'y', 's'],
        !(c == 'a' || c == 'e' || c == 'i' || c == 'o' || c == 'u') ==> pluralize_spec(
            w + seq![c, 'y'],
        ) == w + seq![c, 'i', 'e', 's'],
        pluralize_spec(seq!['y']) == seq!['i', 'e', 's'],
{
    reveal_strlit("s");
    reveal_strlit("ies");
    let x = w + seq![c, 'y'];
    assert(x.drop_last() =~= w + seq![c]);
    assert(x.drop_last().last() == c);
    assert(x + "s"@ =~= w + seq![c, 'y', 's']);
    assert(x.drop_last() + "ies"@ =~= w + seq![c, 'i', 'e', 's']);
    assert(seq!['y'].drop_last() =~= Seq::<char>::empty());
    assert(seq!['y'].drop_last() + "ies"@ =~= seq!['i', 'e', 's']);
}

/// The plural of a word not ending in `y`: `es` after `sh`, `ch`, `x`, `z` or `s`, and
/// `s` after anything else.
pub proof fn law_plural_other(w: Seq<char>)
    requires
        w.len() == 0 || w.last() != 'y',
    ensures
        (w.len() > 0 && (w.last() == 'x' || w.last() == 'z' || w.last() == 's')) ==> pluralize_spec(w)
            == w + seq!['e', 's'],
        (w.len() >= 2 && w.last() == 'h' && (w[w.len() - 2] == 's' || w[w.len() - 2] == 'c'))
            ==> pluralize_spec(w) == w + seq!['e', 's'],
        !(w.len() > 0 && (w.last() == 'x' || w.last() == 'z' || w.last() == 's' || w.last() == 'y'))
            && !(w.len() >= 2 && w.last() == 'h' && (w[w.len() - 2] == 's' || w[w.len() - 2] == 'c'))
            ==> pluralize_spec(w) == w + seq!['s'],
{
    reveal_strlit("s");
    reveal_strlit("es");
    assert(w + "s"@ =~= w + seq!['s']);
    assert(w + "es"@ =~= w + seq!['e', 's']);
}

/// The checks warn that an operation has no success response exactly when none of its
/// response codes is `default` or starts with `2` or `3`: with such a code the findings
/// are those of the responses alone; without one the warning comes first.
pub proof fn law_success_responses(o: OpSite, rs: Seq<(Seq<char>, RefOr<Response>)>, targets: Seq<Seq<char>>)
    requires
        rs.len() > 0,
    ensures
        (exists|i: int|
            0 <= i < rs.len() && (#[trigger] rs[i].0 == "default"@ || (rs[i].0.len() > 0 && (rs[i].0[0]
                == '2' || rs[i].0[0] == '3')))) ==> responses_diags(o, rs, targets) == resp_list_diags(
            o,
            rs,
            targets,
            rs.len() as int,
        ),
        (forall|i: int|
            0 <= i < rs.len() ==> !(#[trigger] rs[i].0 == "default"@ || (rs[i].0.len() > 0 && (
            rs[i].0[0] == '2' || rs[i].0[0] == '3')))) ==> responses_diags(o, rs, targets) == seq![
            o.warn(o.pre() + ": no 2xx/3xx/default response defined"@),
        ] + resp_list_diags(o, rs, targets, rs.len() as int),
{
    let l = resp_list_diags(o, rs, targets, rs.len() as int);
    if exists|i: int|
        0 <= i < rs.len() && (#[trigger] rs[i].0 == "default"@ || (rs[i].0.len() > 0 && (rs[i].0[0]
            == '2' || rs[i].0[0] == '3'))) {
        let i = choose|i: int|
            0 <= i < rs.len() && (#[trigger] rs[i].0 == "default"@ || (rs[i].0.len() > 0 && (rs[i].0[0]
                == '2' || rs[i].0[0] == '3')));
        assert(crate::lint::success_code(rs[i].0));
        assert(Seq::<DiagnosticView>::empty() + l =~= l);
    } else {
        assert forall|i: int| 0 <= i < rs.len() implies !crate::lint::success_code(#[trigger] rs[i].0) by {}
    }
}

/// Every YAML keyword (`true`, `false`, `null`, `~`, `yes`, `no`, `on`, `off`), unquoted and
/// with any trailing white space, is highlighted as a keyword; quoted text is a string.
pub proof fn law_yaml_keywords(val: Seq<char>)
    ensures
        ({
            let t = trim_end_spec(val);
            t == "true"@ || t == "false"@ || t == "null"@ || t == "~"@ || t == "yes"@ || t == "no"@
                || t == "on"@ || t == "off"@
        }) ==> value_class(val) == YamlTok::Keyword,
        val.len() > 0 && (val[0] == '\'' || val[0] == '"') ==> value_class(val) == YamlTok::Str,
{
    reveal_strlit("true");
    reveal_strlit("false");
    reveal_strlit("null");
    reveal_strlit("~");
    reveal_strlit("yes");
    reveal_strlit("no");
    reveal_strlit("on");
    reveal_strlit("off");
    let t = trim_end_spec(val);
    lemma_trim_end_len(val);
    if t.len() > 0 {
        assert(val[0] == t[0]);
    }
}

/// One or two optional texts joined by `" · "`, those that are present.
pub open spec fn with_detail(acc: Option<Seq<char>>, o: Option<String>) -> Option<Seq<char>> {
    match o {
        None => acc,
        Some(x) => match acc {
            None => Some(x@),
            Some(a) => Some(a + " · "@ + x@),
        },
    }
}

/// The line of details that search shows for an operation: its id, summary and
/// description, those that are present, in that order, separated by `" · "`.
pub open spec fn op_detail_line(op: Operation) -> Seq<char> {
    match with_detail(with_detail(with_detail(None, op.operation_id), op.summary), op.description) {
        Some(t) => t,
        None => Seq::empty(),
    }
}

proof fn lemma_detail_line(op: Operation)
    ensures
        join_dot(op_details(op)) == op_detail_line(op),
{
    reveal_with_fuel(join_dot, 4);
    let d = op_details(op);
    assert(d =~= part(op.operation_id) + part(op.summary) + part(op.description));
    let a = part(op.operation_id);
    let b = part(op.summary);
    let c = part(op.description);
    assert((a + b + c).drop_last() =~= if c.len() == 1 { a + b } else { (a + b).drop_last() });
    assert((a + b).drop_last() =~= if b.len() == 1 { a } else { a.drop_last() });
    if c.len() == 1 {
        assert((a + b + c).last() == c[0]);
    }
    if b.len() == 1 {
        assert((a + b).last() == b[0]);
    }
}

proof fn lemma_contains_add<A>(a: Seq<A>, b: Seq<A>, x: A)
    ensures
        a.contains(x) ==> (a + b).contains(x),
        b.contains(x) ==> (a + b).contains(x),
{
    if a.contains(x) {
        let i = choose|i: int| 0 <= i < a.len() && a[i] == x;
        assert((a + b)[i] == x);
    }
    if b.contains(x) {
        let i = choose|i: int| 0 <= i < b.len() && b[i] == x;
        assert((a + b)[a.len() + i] == x);
    }
}

/// The search hit of the operation `k` of `ops` under `p`.
pub open spec fn op_hit(ops: Seq<(Seq<char>, Operation)>, p: Seq<char>, k: int) -> HitView {
    hv(
        "OPER"@,
        method_rgb(ops[k].0),
        ops[k].0 + "  "@ + p,
        excerpt_spec(op_detail_line(ops[k].1), 55),
        SelectionView::Operation(p, ops[k].0),
    )
}

proof fn lemma_op_hits_contain(ops: Seq<(Seq<char>, Operation)>, p: Seq<char>, q: Seq<char>, k: int)
    requires
        0 <= k < ops.len(),
        matches_query(op_hit(ops, p, k).label, op_hit(ops, p, k).excerpt, q),
    ensures
        op_hits(ops, p, q).contains(op_hit(ops, p, k)),
    decreases ops.len(),
{
    let n = ops.len() - 1;
    let (m, op) = ops.last();
    let prev = op_hits(ops.drop_last(), p, q);
    let h = hv("OPER"@, method_rgb(m), m + "  "@ + p, excerpt_spec(join_dot(op_details(op)), 55), SelectionView::Operation(p, m));
    let mid = keep(h, q);
    let tail = param_hits(op.parameters@, m, p, q);
    assert(op_hits(ops, p, q) == prev + mid + tail);
    if k == n {
        lemma_detail_line(op);
        assert(h == op_hit(ops, p, k));
        assert(mid == seq![h]);
        assert(mid.contains(h)) by {
            assert(mid[0] == h);
        }
        lemma_contains_add(prev, mid, h);
    } else {
        assert(ops.drop_last()[k] == ops[k]);
        assert(op_hit(ops.drop_last(), p, k) == op_hit(ops, p, k));
        lemma_op_hits_contain(ops.drop_last(), p, q, k);
        lemma_contains_add(prev, mid, op_hit(ops, p, k));
    }
    lemma_contains_add(prev + mid, tail, op_hit(ops, p, k));
}

proof fn lemma_path_hits_contain(paths: Seq<(Seq<char>, PathItem)>, q: Seq<char>, j: int, h: HitView)
    requires
        0 <= j < paths.len(),
        op_hits(paths[j].1.operations_spec(), paths[j].0, q).contains(h),
    ensures
        path_hits(paths, q).contains(h),
    decreases paths.len(),
{
    let (p, item) = paths.last();
    let prev = path_hits(paths.drop_last(), q);
    let mid = keep(
        hv("PATH"@, green(), p, excerpt_spec(first_text(item.summary, item.description), 50), SelectionView::Path(p)),
        q,
    );
    let tail = op_hits(item.operations_spec(), p, q);
    assert(path_hits(paths, q) == prev + mid + tail);
    if j == paths.len() - 1 {
        lemma_contains_add(prev + mid, tail, h);
    } else {
        assert(paths.drop_last()[j] == paths[j]);
        lemma_path_hits_contain(paths.drop_last(), q, j, h);
        lemma_contains_add(prev, mid, h);
        lemma_contains_add(prev + mid, tail, h);
    }
}

/// Search finds every operation it matches: when the lowercased query `q` occurs in an
/// operation's label (`"<method>  <path>"`, lowercased) or in its excerpt (the first 55
/// characters of its id, summary and description, those present, joined by `" · "`,
/// lowercased), the hits hold that operation's hit with that label and excerpt.
pub proof fn law_search_finds_operations(s: OpenApiSpec, q: Seq<char>, j: int, k: int)
    requires
        0 <= j < s.paths@.len(),
        0 <= k < s.paths@[j].1.operations_spec().len(),
        matches_query(
            op_hit(s.paths@[j].1.operations_spec(), s.paths@[j].0, k).label,
            op_hit(s.paths@[j].1.operations_spec(), s.paths@[j].0, k).excerpt,
            q,
        ),
    ensures
        search_hits(s, q).contains(op_hit(s.paths@[j].1.operations_spec(), s.paths@[j].0, k)),
{
    let ops = s.paths@[j].1.operations_spec();
    let h = op_hit(ops, s.paths@[j].0, k);
    lemma_op_hits_contain(ops, s.paths@[j].0, q, k);
    lemma_path_hits_contain(s.paths@, q, j, h);
    let a = keep(info_hit(s), q) + tag_hits(s.tags@, q) + server_hits(s.servers@, q);
    let c = match s.components {
        Some(cs) => component_hits(cs, q),
        None => Seq::empty(),
    };
    assert(search_hits(s, q) == a + path_hits(s.paths@, q) + c);
    lemma_contains_add(a, path_hits(s.paths@, q), h);
    lemma_contains_add(a + path_hits(s.paths@, q), c, h);
}

/// The sidebar lists each kind of component by the keys of its own map, in order:
/// schemas, request bodies, responses, parameters, examples, headers and security
/// schemes; nothing without components.
pub proof fn law_sidebar_component_names(s: OpenApiSpec)
    ensures
        s.components is None ==> forall|k: int| #[trigger] component_names(s, k) == Seq::<Seq<char>>::empty(),
        s.components matches Some(c) ==> {
            &&& component_names(s, 0) == c.schemas@.map_values(|e: (Seq<char>, RefOr<Schema>)| e.0)
            &&& component_names(s, 1) == c.request_bodies@.map_values(
                |e: (Seq<char>, RefOr<crate::model::RequestBody>)| e.0,
            )
            &&& component_names(s, 2) == c.responses@.map_values(|e: (Seq<char>, RefOr<Response>)| e.0)
            &&& component_names(s, 3) == c.parameters@.map_values(
                |e: (Seq<char>, RefOr<crate::model::Parameter>)| e.0,
            )
            &&& component_names(s, 4) == c.examples@.map_values(
                |e: (Seq<char>, RefOr<crate::model::OaExample>)| e.0,
            )
            &&& component_names(s, 5) == c.headers@.map_values(
                |e: (Seq<char>, RefOr<crate::model::Header>)| e.0,
            )
            &&& component_names(s, 6) == c.security_schemes@.map_values(
                |e: (Seq<char>, RefOr<crate::model::SecurityScheme>)| e.0,
            )
        },
{
}

} // verus!
