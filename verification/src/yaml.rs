//! YAML value trees, and merging an edited tree into the tree a file was read from.
use vstd::prelude::*;
use crate::text::str_eq;

verus! {

/// A YAML value. A number is kept as its text. A mapping holds its entries in order.
#[derive(Debug)]
pub enum YamlValue {
    Null,
    Bool(bool),
    Number(String),
    String(String),
    Sequence(Vec<YamlValue>),
    Mapping(Vec<(YamlValue, YamlValue)>),
    Tagged(String, Box<YamlValue>),
}

/// A YAML value with its strings taken as character sequences.
pub enum YamlView {
    Null,
    Bool(bool),
    Number(Seq<char>),
    String(Seq<char>),
    Sequence(Seq<YamlView>),
    Mapping(Seq<(YamlView, YamlView)>),
    Tagged(Seq<char>, Box<YamlView>),
}

pub open spec fn yview(y: YamlValue) -> YamlView
    decreases y, 0nat,
{
    match y {
        YamlValue::Null => YamlView::Null,
        YamlValue::Bool(b) => YamlView::Bool(b),
        YamlValue::Number(n) => YamlView::Number(n@),
        YamlValue::String(s) => YamlView::String(s@),
        YamlValue::Sequence(v) => {
            proof {
                assert(decreases_to!(y => v));
                assert(decreases_to!(v => v@));
            }
            YamlView::Sequence(yview_seq(v@, v@.len()))
        },
        YamlValue::Mapping(m) => {
            proof {
                assert(decreases_to!(y => m));
                assert(decreases_to!(m => m@));
            }
            YamlView::Mapping(yview_pairs(m@, m@.len()))
        },
        YamlValue::Tagged(t, b) => YamlView::Tagged(t@, Box::new(yview(*b))),
    }
}

/// Views of the first `n` items.
pub open spec fn yview_seq(s: Seq<YamlValue>, n: nat) -> Seq<YamlView>
    decreases s, n,
{
    if n == 0 || n > s.len() {
        Seq::empty()
    } else {
        proof {
            assert(decreases_to!(s => s[n - 1]));
        }
        yview_seq(s, (n - 1) as nat).push(yview(s[n - 1]))
    }
}

/// Views of the first `n` entries.
pub open spec fn yview_pairs(s: Seq<(YamlValue, YamlValue)>, n: nat) -> Seq<(YamlView, YamlView)>
    decreases s, n,
{
    if n == 0 || n > s.len() {
        Seq::empty()
    } else {
        proof {
            assert(decreases_to!(s => s[n - 1]));
            assert(decreases_to!(s[n - 1] => s[n - 1].0));
            assert(decreases_to!(s[n - 1] => s[n - 1].1));
        }
        yview_pairs(s, (n - 1) as nat).push((yview(s[n - 1].0), yview(s[n - 1].1)))
    }
}

impl View for YamlValue {
    type V = YamlView;

    open spec fn view(&self) -> YamlView {
        yview(*self)
    }
}

pub proof fn lemma_yview_seq(s: Seq<YamlValue>, n: nat)
    requires
        n <= s.len(),
    ensures
        yview_seq(s, n).len() == n,
        forall|i: int| 0 <= i < n ==> #[trigger] yview_seq(s, n)[i] == yview(s[i]),
    decreases n,
{
    if n > 0 {
        lemma_yview_seq(s, (n - 1) as nat);
    }
}

pub proof fn lemma_yview_pairs(s: Seq<(YamlValue, YamlValue)>, n: nat)
    requires
        n <= s.len(),
    ensures
        yview_pairs(s, n).len() == n,
        forall|i: int|
            0 <= i < n ==> #[trigger] yview_pairs(s, n)[i] == (yview(s[i].0), yview(s[i].1)),
    decreases n,
{
    if n > 0 {
        lemma_yview_pairs(s, (n - 1) as nat);
    }
}

// ── Merging ──────────────────────────────────────────────────────────────────

/// Index of the first entry whose key is `k`, or `-1`.
pub open spec fn key_index(m: Seq<(YamlView, YamlView)>, k: YamlView) -> int
    decreases m.len(),
{
    if m.len() == 0 {
        -1
    } else {
        let r = key_index(m.drop_last(), k);
        if r >= 0 {
            r
        } else if m.last().0 == k {
            m.len() - 1
        } else {
            -1
        }
    }
}

pub proof fn lemma_key_index(m: Seq<(YamlView, YamlView)>, k: YamlView)
    ensures
        -1 <= key_index(m, k) < m.len(),
        key_index(m, k) == -1 <==> (forall|j: int| 0 <= j < m.len() ==> m[j].0 != k),
        key_index(m, k) >= 0 ==> m[key_index(m, k)].0 == k && (forall|j: int|
            0 <= j < key_index(m, k) ==> m[j].0 != k),
    decreases m.len(),
{
    if m.len() > 0 {
        lemma_key_index(m.drop_last(), k);
        assert forall|j: int| 0 <= j < m.len() - 1 implies m.drop_last()[j] == m[j] by {}
    }
}

/// The entries of the original mapping among its first `n`, in their order: an entry whose
/// key the edited mapping also has gets the merged value; any other entry stays as it was.
pub open spec fn kept_entries(
    om: Seq<(YamlView, YamlView)>,
    um: Seq<(YamlView, YamlView)>,
    n: nat,
) -> Seq<(YamlView, YamlView)>
    decreases om, n, 0nat,
{
    if n == 0 || n > om.len() {
        Seq::empty()
    } else {
        let prev = kept_entries(om, um, (n - 1) as nat);
        let e = om[n - 1];
        let j = key_index(um, e.0);
        if j >= 0 {
            proof {
                assert(decreases_to!(om => om[n - 1]));
                assert(decreases_to!(om[n - 1] => om[n - 1].1));
            }
            prev.push((e.0, merge_view(e.1, um[j].1)))
        } else {
            prev.push(e)
        }
    }
}

/// The entries of the edited mapping among its first `n` whose key the original mapping
/// lacks, in their order.
pub open spec fn added_entries(
    om: Seq<(YamlView, YamlView)>,
    um: Seq<(YamlView, YamlView)>,
    n: nat,
) -> Seq<(YamlView, YamlView)>
    decreases n,
{
    if n == 0 || n > um.len() {
        Seq::empty()
    } else {
        let prev = added_entries(om, um, (n - 1) as nat);
        let e = um[n - 1];
        if key_index(om, e.0) < 0 {
            prev.push(e)
        } else {
            prev
        }
    }
}

/// The result of merging `updated` into `original`: two mappings merge entry by entry,
/// keeping the original order and appending new keys; anything else is replaced.
pub open spec fn merge_view(original: YamlView, updated: YamlView) -> YamlView
    decreases original, 1nat,
{
    match original {
        YamlView::Mapping(om) => match updated {
            YamlView::Mapping(um) => {
                proof {
                    assert(decreases_to!(original => om));
                }
                YamlView::Mapping(
                    kept_entries(om, um, om.len()) + added_entries(om, um, um.len()),
                )
            },
            _ => updated,
        },
        _ => updated,
    }
}

impl YamlValue {
    /// A copy of the whole tree.
    #[verifier::loop_isolation(false)]
    pub fn deep_clone(&self) -> (r: YamlValue)
        ensures
            r@ == self@,
        decreases self,
    {
        match self {
            YamlValue::Null => YamlValue::Null,
            YamlValue::Bool(b) => YamlValue::Bool(*b),
            YamlValue::Number(n) => YamlValue::Number(n.clone()),
            YamlValue::String(s) => YamlValue::String(s.clone()),
            YamlValue::Sequence(items) => {
                let mut out: Vec<YamlValue> = Vec::new();
                let mut i: usize = 0;
                while i < items.len()
                    invariant
                        i <= items@.len(),
                        out@.len() == i,
                        yview_seq(out@, i as nat) == yview_seq(items@, i as nat),
                    decreases items@.len() - i,
                {
                    proof {
                        assert(decreases_to!(*self => (*self)->Sequence_0));
                        assert(decreases_to!(*items => items@));
                        assert(decreases_to!(items@ => items@[i as int]));
                    }
                    let c = items[i].deep_clone();
                    let ghost o0 = out@;
                    out.push(c);
                    proof {
                        lemma_yview_seq(o0, i as nat);
                        lemma_yview_seq(out@, i as nat);
                        assert(yview_seq(out@, i as nat) =~= yview_seq(o0, i as nat));
                    }
                    i += 1;
                }
                YamlValue::Sequence(out)
            },
            YamlValue::Mapping(entries) => {
                let mut out: Vec<(YamlValue, YamlValue)> = Vec::new();
                let mut i: usize = 0;
                while i < entries.len()
                    invariant
                        i <= entries@.len(),
                        out@.len() == i,
                        yview_pairs(out@, i as nat) == yview_pairs(entries@, i as nat),
                    decreases entries@.len() - i,
                {
                    proof {
                        assert(decreases_to!(*self => (*self)->Mapping_0));
                        assert(decreases_to!(*entries => entries@));
                        assert(decreases_to!(entries@ => entries@[i as int]));
                        assert(decreases_to!(entries@[i as int] => entries@[i as int].0));
                        assert(decreases_to!(entries@[i as int] => entries@[i as int].1));
                    }
                    let k = entries[i].0.deep_clone();
                    let v = entries[i].1.deep_clone();
                    let ghost o0 = out@;
                    out.push((k, v));
                    proof {
                        lemma_yview_pairs(o0, i as nat);
                        lemma_yview_pairs(out@, i as nat);
                        assert(yview_pairs(out@, i as nat) =~= yview_pairs(o0, i as nat));
                    }
                    i += 1;
                }
                YamlValue::Mapping(out)
            },
            YamlValue::Tagged(t, b) => {
                proof {
                    assert(decreases_to!(*self => (*self)->Tagged_1));
                }
                YamlValue::Tagged(t.clone(), Box::new((**b).deep_clone()))
            },
        }
    }
}

impl Clone for YamlValue {
    fn clone(&self) -> (r: Self) {
        self.deep_clone()
    }
}

pub proof fn lemma_kept_entries(om: Seq<(YamlView, YamlView)>, um: Seq<(YamlView, YamlView)>, n: nat)
    requires
        n <= om.len(),
    ensures
        kept_entries(om, um, n).len() == n,
        forall|i: int| 0 <= i < n ==> #[trigger] kept_entries(om, um, n)[i] == (if key_index(um, om[i].0) >= 0 {
            (om[i].0, merge_view(om[i].1, um[key_index(um, om[i].0)].1))
        } else {
            om[i]
        }),
    decreases n,
{
    if n > 0 {
        lemma_kept_entries(om, um, (n - 1) as nat);
    }
}

/// The keys of a mapping's entries are distinct.
pub open spec fn distinct_keys(m: Seq<(YamlView, YamlView)>) -> bool {
    forall|i: int, j: int| 0 <= i < j < m.len() ==> m[i].0 != m[j].0
}

/// Every mapping in the tree, at any depth, has distinct keys, as in every tree that
/// serde_yaml reads (its mappings are maps).
pub open spec fn well_formed(v: YamlView) -> bool
    decreases v, 1nat,
{
    match v {
        YamlView::Mapping(m) => {
            proof {
                assert(decreases_to!(v => m));
            }
            distinct_keys(m) && entries_well_formed(m, m.len())
        },
        YamlView::Sequence(s) => {
            proof {
                assert(decreases_to!(v => s));
            }
            items_well_formed(s, s.len())
        },
        YamlView::Tagged(_, b) => well_formed(*b),
        _ => true,
    }
}

/// The keys and values of the first `n` entries are well formed.
pub open spec fn entries_well_formed(m: Seq<(YamlView, YamlView)>, n: nat) -> bool
    decreases m, n,
{
    if n == 0 || n > m.len() {
        true
    } else {
        proof {
            assert(decreases_to!(m => m[n - 1]));
            assert(decreases_to!(m[n - 1] => m[n - 1].0));
            assert(decreases_to!(m[n - 1] => m[n - 1].1));
        }
        entries_well_formed(m, (n - 1) as nat) && well_formed(m[n - 1].0) && well_formed(m[n - 1].1)
    }
}

/// The first `n` items are well formed.
pub open spec fn items_well_formed(s: Seq<YamlView>, n: nat) -> bool
    decreases s, n,
{
    if n == 0 || n > s.len() {
        true
    } else {
        proof {
            assert(decreases_to!(s => s[n - 1]));
        }
        items_well_formed(s, (n - 1) as nat) && well_formed(s[n - 1])
    }
}

pub proof fn lemma_entries_well_formed(m: Seq<(YamlView, YamlView)>, n: nat)
    requires
        n <= m.len(),
    ensures
        entries_well_formed(m, n) <==> forall|i: int|
            0 <= i < n ==> well_formed(#[trigger] m[i].0) && well_formed(m[i].1),
    decreases n,
{
    if n > 0 {
        lemma_entries_well_formed(m, (n - 1) as nat);
    }
}

/// Whether two trees are the same value.
#[verifier::loop_isolation(false)]
pub fn yaml_eq(a: &YamlValue, b: &YamlValue) -> (r: bool)
    ensures
        r == (a@ == b@),
    decreases a,
{
    match (a, b) {
        (YamlValue::Null, YamlValue::Null) => true,
        (YamlValue::Bool(x), YamlValue::Bool(y)) => *x == *y,
        (YamlValue::Number(x), YamlValue::Number(y)) => str_eq(x.as_str(), y.as_str()),
        (YamlValue::String(x), YamlValue::String(y)) => str_eq(x.as_str(), y.as_str()),
        (YamlValue::Sequence(x), YamlValue::Sequence(y)) => {
            proof {
                lemma_yview_seq(x@, x@.len());
                lemma_yview_seq(y@, y@.len());
            }
            if x.len() != y.len() {
                return false;
            }
            let mut i: usize = 0;
            while i < x.len()
                invariant
                    i <= x@.len(),
                    x@.len() == y@.len(),
                    forall|j: int| 0 <= j < i ==> yview(#[trigger] x@[j]) == yview(y@[j]),
                decreases x@.len() - i,
            {
                proof {
                    assert(decreases_to!(*a => (*a)->Sequence_0));
                    assert(decreases_to!(*x => x@));
                    assert(decreases_to!(x@ => x@[i as int]));
                }
                if !yaml_eq(&x[i], &y[i]) {
                    assert(yview_seq(x@, x@.len())[i as int] != yview_seq(y@, y@.len())[i as int]);
                    return false;
                }
                i += 1;
            }
            assert(yview_seq(x@, x@.len()) =~= yview_seq(y@, y@.len()));
            true
        },
        (YamlValue::Mapping(x), YamlValue::Mapping(y)) => {
            proof {
                lemma_yview_pairs(x@, x@.len());
                lemma_yview_pairs(y@, y@.len());
            }
            if x.len() != y.len() {
                return false;
            }
            let mut i: usize = 0;
            while i < x.len()
                invariant
                    i <= x@.len(),
                    x@.len() == y@.len(),
                    forall|j: int| 0 <= j < i ==> yview(#[trigger] x@[j].0) == yview(y@[j].0) && yview(x@[j].1) == yview(y@[j].1),
                decreases x@.len() - i,
            {
                proof {
                    assert(decreases_to!(*a => (*a)->Mapping_0));
                    assert(decreases_to!(*x => x@));
                    assert(decreases_to!(x@ => x@[i as int]));
                    assert(decreases_to!(x@[i as int] => x@[i as int].0));
                    assert(decreases_to!(x@[i as int] => x@[i as int].1));
                }
                if !yaml_eq(&x[i].0, &y[i].0) || !yaml_eq(&x[i].1, &y[i].1) {
                    assert(yview_pairs(x@, x@.len())[i as int] != yview_pairs(y@, y@.len())[i as int]);
                    return false;
                }
                i += 1;
            }
            assert(yview_pairs(x@, x@.len()) =~= yview_pairs(y@, y@.len()));
            true
        },
        (YamlValue::Tagged(t, x), YamlValue::Tagged(u, y)) => {
            proof {
                assert(decreases_to!(*a => (*a)->Tagged_1));
            }
            str_eq(t.as_str(), u.as_str()) && yaml_eq(&**x, &**y)
        },
        _ => false,
    }
}

/// Position of the first entry of `m` whose key is `k`.
fn find_key_entry(m: &Vec<(YamlValue, YamlValue)>, k: &YamlValue) -> (r: Option<usize>)
    ensures
        ({
            let mv = yview_pairs(m@, m@.len());
            match r {
                Some(j) => j < m@.len() && j as int == key_index(mv, k@),
                None => key_index(mv, k@) == -1,
            }
        }),
{
    let ghost mv = yview_pairs(m@, m@.len());
    proof {
        lemma_yview_pairs(m@, m@.len());
        lemma_key_index(mv, k@);
    }
    let mut j: usize = 0;
    while j < m.len()
        invariant
            j <= m@.len(),
            mv == yview_pairs(m@, m@.len()),
            mv.len() == m@.len(),
            forall|i: int| 0 <= i < m@.len() ==> #[trigger] mv[i] == (yview(m@[i].0), yview(m@[i].1)),
            forall|i: int| 0 <= i < j ==> mv[i].0 != k@,
        decreases m@.len() - j,
    {
        if yaml_eq(&m[j].0, k) {
            assert(mv[j as int].0 == k@);
            proof {
                lemma_key_index(mv, k@);
            }
            return Some(j);
        }
        j += 1;
    }
    None
}

/// The merged tree, leaving both inputs untouched.
#[verifier::loop_isolation(false)]
fn merged(original: &YamlValue, updated: &YamlValue) -> (r: YamlValue)
    ensures
        r@ == merge_view(original@, updated@),
    decreases original,
{
    match original {
        YamlValue::Mapping(om) => match updated {
            YamlValue::Mapping(um) => {
                let ghost omv = yview_pairs(om@, om@.len());
                let ghost umv = yview_pairs(um@, um@.len());
                proof {
                    lemma_yview_pairs(om@, om@.len());
                    lemma_yview_pairs(um@, um@.len());
                    assert(original@ == YamlView::Mapping(omv));
                    assert(updated@ == YamlView::Mapping(umv));
                }
                let mut result: Vec<(YamlValue, YamlValue)> = Vec::new();
                let mut i: usize = 0;
                while i < om.len()
                    invariant
                        i <= om@.len(),
                        yview_pairs(result@, result@.len()) == kept_entries(omv, umv, i as nat),
                    decreases om@.len() - i,
                {
                    let ghost r0 = result@;
                    proof {
                        lemma_yview_pairs(r0, r0.len());
                        assert(decreases_to!(*original => (*original)->Mapping_0));
                        assert(decreases_to!(*om => om@));
                        assert(decreases_to!(om@ => om@[i as int]));
                        assert(decreases_to!(om@[i as int] => om@[i as int].1));
                    }
                    let k = om[i].0.deep_clone();
                    let v = match find_key_entry(um, &om[i].0) {
                        Some(j) => merged(&om[i].1, &um[j].1),
                        None => om[i].1.deep_clone(),
                    };
                    result.push((k, v));
                    proof {
                        lemma_yview_pairs(result@, result@.len());
                        assert(yview_pairs(result@, result@.len()) =~= kept_entries(omv, umv, (i + 1) as nat));
                    }
                    i += 1;
                }
                let ghost kept = yview_pairs(result@, result@.len());
                let mut j: usize = 0;
                while j < um.len()
                    invariant
                        j <= um@.len(),
                        yview_pairs(result@, result@.len()) == kept + added_entries(omv, umv, j as nat),
                    decreases um@.len() - j,
                {
                    let ghost r0 = result@;
                    proof {
                        lemma_yview_pairs(r0, r0.len());
                    }
                    let ghost e = umv[j as int];
                    assert(e == (yview(um@[j as int].0), yview(um@[j as int].1)));
                    if find_key_entry(om, &um[j].0).is_none() {
                        let k = um[j].0.deep_clone();
                        let v = um[j].1.deep_clone();
                        result.push((k, v));
                        proof {
                            lemma_yview_pairs(result@, result@.len());
                            assert(yview_pairs(result@, result@.len()) =~= yview_pairs(r0, r0.len()).push(e));
                        }
                    } else {
                        assert(added_entries(omv, umv, (j + 1) as nat) == added_entries(omv, umv, j as nat));
                    }
                    proof {
                        lemma_yview_pairs(result@, result@.len());
                        assert(yview_pairs(result@, result@.len()) =~= kept + added_entries(omv, umv, (j + 1) as nat));
                    }
                    j += 1;
                }
                YamlValue::Mapping(result)
            },
            _ => updated.deep_clone(),
        },
        _ => updated.deep_clone(),
    }
}

/// Merges `updated` into `original`, keeping the original key order.
///
/// When both are mappings: a key present in both keeps its position and gets the
/// recursively merged value; a key only in `original` stays as it was (so extension fields
/// and fields that serialisation left out survive); a key only in `updated` is appended.
/// Otherwise `updated` replaces `original`; sequences are replaced as a whole. Two
/// well-formed trees merge into a well-formed tree.
pub fn merge_yaml(original: &mut YamlValue, updated: &YamlValue)
    ensures
        final(original)@ == merge_view(old(original)@, updated@),
        well_formed(old(original)@) && well_formed(updated@) ==> well_formed(final(original)@),
{
    proof {
        if well_formed(original@) && well_formed(updated@) {
            crate::laws::law_merge_keeps_well_formed(original@, updated@);
        }
    }
    let m = merged(original, updated);
    *original = m;
}

} // verus!
