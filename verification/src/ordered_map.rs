//! An insertion-ordered map from string keys to values.
//!
//! A map is viewed as the sequence of its `(key, value)` entries in insertion order.
//! Lookups find the first entry with a key; every operation keeps the keys distinct.
//!
//! JSON objects and schema properties hold maps of themselves. Verus refuses such a
//! recursive type when the map is a type of another crate (declared to Verus, or held in a
//! field Verus does not see): it cannot tell that the nesting is positive. So the map is a
//! vector of entries whose contracts Verus checks here.
use vstd::prelude::*;

verus! {

/// Index of the first entry whose key is `k`, or `-1` when there is none.
pub open spec fn find_key<T>(s: Seq<(Seq<char>, T)>, k: Seq<char>) -> int
    decreases s.len(),
{
    if s.len() == 0 {
        -1
    } else {
        let r = find_key(s.drop_last(), k);
        if r >= 0 {
            r
        } else if s.last().0 == k {
            s.len() - 1
        } else {
            -1
        }
    }
}

pub open spec fn has_key<T>(s: Seq<(Seq<char>, T)>, k: Seq<char>) -> bool {
    find_key(s, k) >= 0
}

/// The value stored under `k`.
pub open spec fn lookup<T>(s: Seq<(Seq<char>, T)>, k: Seq<char>) -> Option<T> {
    if has_key(s, k) {
        Some(s[find_key(s, k)].1)
    } else {
        None
    }
}

/// The keys, in order.
pub open spec fn keys_of<T>(s: Seq<(Seq<char>, T)>) -> Seq<Seq<char>> {
    s.map_values(|e: (Seq<char>, T)| e.0)
}

/// No key occurs twice.
pub open spec fn unique_keys<T>(s: Seq<(Seq<char>, T)>) -> bool {
    forall|i: int, j: int| 0 <= i < j < s.len() ==> s[i].0 != s[j].0
}

/// Inserting keeps the position of an existing key and appends a new one.
pub open spec fn insert_spec<T>(s: Seq<(Seq<char>, T)>, k: Seq<char>, v: T) -> Seq<(Seq<char>, T)> {
    if has_key(s, k) {
        s.update(find_key(s, k), (k, v))
    } else {
        s.push((k, v))
    }
}

/// Removing closes the gap, keeping the order of the remaining entries.
pub open spec fn remove_spec<T>(s: Seq<(Seq<char>, T)>, k: Seq<char>) -> Seq<(Seq<char>, T)> {
    if has_key(s, k) {
        s.remove(find_key(s, k))
    } else {
        s
    }
}

/// `find_key` in terms of the entries.
pub proof fn lemma_find_key<T>(s: Seq<(Seq<char>, T)>, k: Seq<char>)
    ensures
        -1 <= find_key(s, k) < s.len(),
        find_key(s, k) == -1 <==> (forall|j: int| 0 <= j < s.len() ==> s[j].0 != k),
        find_key(s, k) >= 0 ==> s[find_key(s, k)].0 == k && (forall|j: int|
            0 <= j < find_key(s, k) ==> s[j].0 != k),
    decreases s.len(),
{
    if s.len() > 0 {
        lemma_find_key(s.drop_last(), k);
        assert forall|j: int| 0 <= j < s.len() - 1 implies s.drop_last()[j] == s[j] by {}
    }
}

/// After inserting `v` under `k`, looking `k` up finds `v`.
pub proof fn lemma_insert_found<T>(s: Seq<(Seq<char>, T)>, k: Seq<char>, v: T)
    ensures
        has_key(insert_spec(s, k, v), k),
        insert_spec(s, k, v)[find_key(insert_spec(s, k, v), k)] == (k, v),
        lookup(insert_spec(s, k, v), k) == Some(v),
{
    lemma_find_key(s, k);
    let t = insert_spec(s, k, v);
    lemma_find_key(t, k);
    if has_key(s, k) {
        let i = find_key(s, k);
        assert(t[i] == (k, v));
        assert forall|j: int| 0 <= j < i implies t[j].0 != k by {
            assert(t[j] == s[j]);
        }
        let f = find_key(t, k);
        if f < i {
            assert(t[f].0 != k);
        }
        if f > i {
            assert(t[i].0 != k);
        }
    } else {
        let n = s.len() as int;
        assert(t[n] == (k, v));
        assert forall|j: int| 0 <= j < n implies t[j].0 != k by {
            assert(t[j] == s[j]);
        }
        let f = find_key(t, k);
        if 0 <= f < n {
            assert(t[f].0 != k);
        }
    }
}

/// The entries of a map as the library stores them.
pub open spec fn pairs_view<T>(v: Seq<(String, T)>) -> Seq<(Seq<char>, T)> {
    v.map_values(|e: (String, T)| (e.0@, e.1))
}

proof fn lemma_pairs_view<T>(v: Seq<(String, T)>)
    ensures
        pairs_view(v).len() == v.len(),
        forall|i: int| 0 <= i < v.len() ==> #[trigger] pairs_view(v)[i] == (v[i].0@, v[i].1),
{
}

/// Position of `k` among stored entries.
pub fn pairs_index_of<T>(v: &Vec<(String, T)>, k: &str) -> (r: Option<usize>)
    ensures
        match r {
            Some(i) => i as int == find_key(pairs_view(v@), k@),
            None => find_key(pairs_view(v@), k@) == -1,
        },
{
    proof {
        lemma_find_key(pairs_view(v@), k@);
        lemma_pairs_view(v@);
    }
    let key = String::from_str(k);
    let mut i: usize = 0;
    while i < v.len()
        invariant
            key@ == k@,
            i <= v@.len(),
            forall|j: int| 0 <= j < i ==> pairs_view(v@)[j].0 != k@,
        decreases v@.len() - i,
    {
        proof {
            lemma_pairs_view(v@);
        }
        if v[i].0 == key {
            assert(pairs_view(v@)[i as int].0 == k@);
            proof {
                lemma_find_key(pairs_view(v@), k@);
            }
            return Some(i);
        }
        i += 1;
    }
    None
}

/// Stores `val` under `k`; an existing key keeps its position.
pub fn pairs_insert<T>(v: &mut Vec<(String, T)>, k: String, val: T) -> (r: Option<T>)
    ensures
        pairs_view(final(v)@) == insert_spec(pairs_view(old(v)@), k@, val),
        r == lookup(pairs_view(old(v)@), k@),
        unique_keys(pairs_view(old(v)@)) ==> unique_keys(pairs_view(final(v)@)),
{
    let ghost pre = pairs_view(v@);
    proof {
        lemma_find_key(pre, k@);
        lemma_pairs_view(v@);
    }
    match pairs_index_of(v, k.as_str()) {
        Some(i) => {
            let old_entry = v.remove(i);
            v.insert(i, (k, val));
            proof {
                lemma_pairs_view(v@);
            }
            assert(pairs_view(v@) =~= pre.update(i as int, (k@, val)));
            Some(old_entry.1)
        },
        None => {
            v.push((k, val));
            proof {
                lemma_pairs_view(v@);
            }
            assert(pairs_view(v@) =~= pre.push((k@, val)));
            None
        },
    }
}

/// Stores `val` under `k` unless `k` is present.
pub fn pairs_insert_if_absent<T>(v: &mut Vec<(String, T)>, k: String, val: T)
    ensures
        pairs_view(final(v)@) == (if has_key(pairs_view(old(v)@), k@) {
            pairs_view(old(v)@)
        } else {
            pairs_view(old(v)@).push((k@, val))
        }),
        unique_keys(pairs_view(old(v)@)) ==> unique_keys(pairs_view(final(v)@)),
{
    let ghost pre = pairs_view(v@);
    proof {
        lemma_find_key(pre, k@);
    }
    if pairs_index_of(v, k.as_str()).is_none() {
        v.push((k, val));
        proof {
            lemma_pairs_view(v@);
            lemma_pairs_view(old(v)@);
        }
        assert(pairs_view(v@) =~= pre.push((k@, val)));
    }
}

/// Removes `k`, closing the gap.
pub fn pairs_shift_remove<T>(v: &mut Vec<(String, T)>, k: &str) -> (r: Option<T>)
    ensures
        pairs_view(final(v)@) == remove_spec(pairs_view(old(v)@), k@),
        r == lookup(pairs_view(old(v)@), k@),
        unique_keys(pairs_view(old(v)@)) ==> unique_keys(pairs_view(final(v)@)) && !has_key(
            pairs_view(final(v)@),
            k@,
        ),
{
    let ghost pre = pairs_view(v@);
    proof {
        lemma_find_key(pre, k@);
        lemma_pairs_view(v@);
    }
    match pairs_index_of(v, k) {
        Some(i) => {
            let old_entry = v.remove(i);
            proof {
                lemma_pairs_view(v@);
            }
            assert(pairs_view(v@) =~= pre.remove(i as int));
            proof {
                if unique_keys(pre) {
                    let post = pairs_view(v@);
                    lemma_find_key(post, k@);
                    assert forall|j: int| 0 <= j < post.len() implies post[j].0 != k@ by {
                        if j < i {
                            assert(post[j] == pre[j]);
                        } else {
                            assert(post[j] == pre[j + 1]);
                        }
                    }
                }
            }
            Some(old_entry.1)
        },
        None => None,
    }
}

/// The entry at `from` moved so that it lands before the entry that was at `to`
/// (`to` equal to the length moves it to the end).
pub open spec fn move_spec<A>(s: Seq<A>, from: int, to: int) -> Seq<A> {
    s.remove(from).insert(if to > from { to - 1 } else { to }, s[from])
}

/// In a map with distinct keys, the key at `i` is not among the keys of a copy of the
/// entries before `i`.
pub proof fn lemma_fresh_key<T, U>(out: Seq<(Seq<char>, U)>, s: Seq<(Seq<char>, T)>, i: int)
    requires
        unique_keys(s),
        0 <= i < s.len(),
        out.len() == i,
        forall|j: int| 0 <= j < i ==> #[trigger] out[j].0 == s[j].0,
    ensures
        !has_key(out, s[i].0),
{
    lemma_find_key(out, s[i].0);
    if has_key(out, s[i].0) {
        let f = find_key(out, s[i].0);
        assert(out[f].0 == s[f].0);
    }
}

/// Moving an entry keeps the keys distinct.
pub proof fn lemma_move_unique<T>(s: Seq<(Seq<char>, T)>, from: int, to: int)
    requires
        unique_keys(s),
        0 <= from < s.len(),
        0 <= to <= s.len(),
    ensures
        unique_keys(move_spec(s, from, to)),
{
    let r = s.remove(from);
    let at = if to > from { to - 1 } else { to };
    let m = r.insert(at, s[from]);
    assert forall|i: int, j: int| 0 <= i < j < m.len() implies m[i].0 != m[j].0 by {
        // each position of `m` comes from a distinct position of `s`
        let si = if i < at { if i < from { i } else { i + 1 } } else if i == at { from } else if i - 1 < from { i - 1 } else { i };
        let sj = if j < at { if j < from { j } else { j + 1 } } else if j == at { from } else if j - 1 < from { j - 1 } else { j };
        assert(m[i] == s[si]);
        assert(m[j] == s[sj]);
        assert(si != sj);
    }
}

/// Moves the entry at `from` before the entry at `to`.
pub fn pairs_move<T>(v: &mut Vec<(String, T)>, from: usize, to: usize)
    requires
        from < old(v)@.len(),
        to <= old(v)@.len(),
    ensures
        pairs_view(final(v)@) == move_spec(pairs_view(old(v)@), from as int, to as int),
{
    proof {
        lemma_pairs_view(v@);
    }
    let e = v.remove(from);
    let at = if to > from {
        to - 1
    } else {
        to
    };
    v.insert(at, e);
    proof {
        lemma_pairs_view(v@);
    }
    assert(pairs_view(v@) =~= move_spec(pairs_view(old(v)@), from as int, to as int));
}

/// Replaces the key of the entry at `i`.
pub fn pairs_set_key<T>(v: &mut Vec<(String, T)>, i: usize, k: String)
    requires
        i < old(v)@.len(),
    ensures
        pairs_view(final(v)@) == pairs_view(old(v)@).update(i as int, (k@, pairs_view(old(v)@)[i as int].1)),
{
    proof {
        lemma_pairs_view(v@);
    }
    let e = v.remove(i);
    v.insert(i, (k, e.1));
    proof {
        lemma_pairs_view(v@);
    }
    assert(pairs_view(v@) =~= pairs_view(old(v)@).update(i as int, (k@, pairs_view(old(v)@)[i as int].1)));
}

/// Mutable access to the value at position `i`.
pub fn pairs_value_mut<T>(v: &mut Vec<(String, T)>, i: usize) -> (r: &mut T)
    requires
        i < old(v)@.len(),
    ensures
        *r == pairs_view(old(v)@)[i as int].1,
        pairs_view(final(v)@) == pairs_view(old(v)@).update(
            i as int,
            (pairs_view(old(v)@)[i as int].0, *final(r)),
        ),
        unique_keys(pairs_view(old(v)@)) ==> unique_keys(pairs_view(final(v)@)),
    no_unwind
{
    proof {
        lemma_pairs_view(v@);
    }
    let r = &mut v[i].1;
    r
}

/// Insertion-ordered map with string keys.
#[derive(Debug)]
pub struct OrderedMap<T> {
    entries: Vec<(String, T)>,
}

impl<T> View for OrderedMap<T> {
    type V = Seq<(Seq<char>, T)>;

    closed spec fn view(&self) -> Seq<(Seq<char>, T)> {
        pairs_view(self.entries@)
    }
}

/// `b` copies the entries of `a`: the same keys in the same order, each value cloned.
pub open spec fn entries_cloned<T: Clone>(a: Seq<(Seq<char>, T)>, b: Seq<(Seq<char>, T)>) -> bool {
    &&& a.len() == b.len()
    &&& forall|i: int| 0 <= i < a.len() ==> #[trigger] b[i].0 == a[i].0 && cloned(a[i].1, b[i].1)
}

impl<T: Clone> Clone for OrderedMap<T> {
    fn clone(&self) -> (r: Self)
        ensures
            entries_cloned(self@, r@),
    {
        let mut out: OrderedMap<T> = OrderedMap::new();
        let n = self.len();
        let mut i: usize = 0;
        while i < n
            invariant
                n == self@.len(),
                unique_keys(self@),
                i <= self@.len(),
                out@.len() == i,
                forall|j: int| 0 <= j < i ==> #[trigger] out@[j].0 == self@[j].0 && cloned(self@[j].1, out@[j].1),
            decreases self@.len() - i,
        {
            let v = self.value_at(i).clone();
            proof {
                lemma_fresh_key(out@, self@, i as int);
            }
            out.push_entry(self.key_at(i).clone(), v);
            i += 1;
        }
        out
    }
}

impl<T> Default for OrderedMap<T> {
    fn default() -> (m: Self)
        ensures
            m@ == Seq::<(Seq<char>, T)>::empty(),
    {
        OrderedMap::new()
    }
}

impl<T> OrderedMap<T> {
    /// No key occurs twice.
    #[verifier::type_invariant]
    spec fn keys_distinct(self) -> bool {
        unique_keys(pairs_view(self.entries@))
    }

    /// Each stored value is structurally smaller than the map.
    pub proof fn lemma_value_decreases(&self, i: int)
        requires
            0 <= i < self@.len(),
        ensures
            decreases_to!(*self => self@[i].1),
    {
        lemma_pairs_view(self.entries@);
        let e = self.entries@[i];
        assert(decreases_to!(*self => self.entries));
        assert(decreases_to!(self.entries => self.entries@));
        assert(decreases_to!(self.entries@ => self.entries@[i]));
        assert(decreases_to!(e => e.1));
    }

    /// An empty map.
    pub fn new() -> (m: Self)
        ensures
            m@ == Seq::<(Seq<char>, T)>::empty(),
    {
        let m = OrderedMap { entries: Vec::new() };
        assert(m@ =~= Seq::<(Seq<char>, T)>::empty());
        m
    }

    /// Number of entries.
    /// Number of entries; the keys are distinct.
    pub fn len(&self) -> (n: usize)
        ensures
            n == self@.len(),
            unique_keys(self@),
    {
        proof {
            use_type_invariant(self);
            lemma_pairs_view(self.entries@);
        }
        self.entries.len()
    }

    pub fn is_empty(&self) -> (b: bool)
        ensures
            b == (self@.len() == 0),
    {
        self.len() == 0
    }

    /// Key of the entry at position `i`.
    pub fn key_at(&self, i: usize) -> (k: &String)
        requires
            i < self@.len(),
        ensures
            k@ == self@[i as int].0,
    {
        proof {
            lemma_pairs_view(self.entries@);
        }
        &self.entries[i].0
    }

    /// Value of the entry at position `i`.
    pub fn value_at(&self, i: usize) -> (v: &T)
        requires
            i < self@.len(),
        ensures
            *v == self@[i as int].1,
    {
        proof {
            lemma_pairs_view(self.entries@);
        }
        &self.entries[i].1
    }

    /// Mutable access to the value at position `i`; the key and the other entries stay.
    pub fn value_at_mut(&mut self, i: usize) -> (v: &mut T)
        requires
            i < old(self)@.len(),
        ensures
            *v == old(self)@[i as int].1,
            final(self)@ == old(self)@.update(i as int, (old(self)@[i as int].0, *final(v))),
    {
        proof {
            use_type_invariant(&*self);
        }
        pairs_value_mut(&mut self.entries, i)
    }

    /// The entries, leaving the map empty.
    fn take_entries(&mut self) -> (e: Vec<(String, T)>)
        ensures
            pairs_view(e@) == old(self)@,
            unique_keys(old(self)@),
            final(self)@.len() == 0,
    {
        proof {
            use_type_invariant(&*self);
        }
        let mut e: Vec<(String, T)> = Vec::new();
        std::mem::swap(&mut e, &mut self.entries);
        proof {
            lemma_pairs_view(self.entries@);
        }
        e
    }

    /// Appends the entry `(k, v)` after the others, `k` being absent.
    pub(crate) fn push_entry(&mut self, k: String, v: T)
        requires
            !has_key(old(self)@, k@),
        ensures
            final(self)@ == old(self)@.push((k@, v)),
    {
        let mut e = self.take_entries();
        let ghost pre = pairs_view(e@);
        e.push((k, v));
        proof {
            lemma_pairs_view(e@);
            lemma_find_key(pre, k@);
        }
        assert(pairs_view(e@) =~= pre.push((k@, v)));
        assert(unique_keys(pairs_view(e@))) by {
            assert forall|i: int, j: int| 0 <= i < j < pairs_view(e@).len() implies pairs_view(e@)[i].0
                != pairs_view(e@)[j].0 by {
                if j == pre.len() {
                    assert(pairs_view(e@)[i] == pre[i]);
                } else {
                    assert(pairs_view(e@)[i] == pre[i]);
                    assert(pairs_view(e@)[j] == pre[j]);
                }
            }
        }
        self.entries = e;
    }

    /// Position of the key `k`, if present.
    pub fn index_of(&self, k: &str) -> (r: Option<usize>)
        ensures
            match r {
                Some(i) => i as int == find_key(self@, k@),
                None => find_key(self@, k@) == -1,
            },
    {
        pairs_index_of(&self.entries, k)
    }

    pub fn contains_key(&self, k: &str) -> (b: bool)
        ensures
            b == has_key(self@, k@),
    {
        self.index_of(k).is_some()
    }

    /// The value stored under `k`.
    pub fn get(&self, k: &str) -> (r: Option<&T>)
        ensures
            match r {
                Some(v) => lookup(self@, k@) == Some(*v),
                None => lookup(self@, k@) is None,
            },
    {
        proof {
            lemma_find_key(self@, k@);
        }
        match self.index_of(k) {
            Some(i) => Some(self.value_at(i)),
            None => None,
        }
    }

    /// Stores `v` under `k`; an existing key keeps its position. Returns the previous value.
    pub fn insert(&mut self, k: String, v: T) -> (r: Option<T>)
        ensures
            final(self)@ == insert_spec(old(self)@, k@, v),
            r == lookup(old(self)@, k@),
            unique_keys(final(self)@),
    {
        let mut e = self.take_entries();
        let r = pairs_insert(&mut e, k, v);
        self.entries = e;
        r
    }

    /// Stores `v` under `k` unless `k` is already present.
    pub fn insert_if_absent(&mut self, k: String, v: T)
        ensures
            final(self)@ == (if has_key(old(self)@, k@) {
                old(self)@
            } else {
                old(self)@.push((k@, v))
            }),
            unique_keys(final(self)@),
    {
        let mut e = self.take_entries();
        pairs_insert_if_absent(&mut e, k, v);
        self.entries = e;
    }

    /// Position of `k`, after storing `v` under it at the end when `k` was absent.
    pub fn entry_index(&mut self, k: String, v: T) -> (i: usize)
        ensures
            final(self)@ == (if has_key(old(self)@, k@) {
                old(self)@
            } else {
                old(self)@.push((k@, v))
            }),
            i as int == find_key(final(self)@, k@),
            i < final(self)@.len(),
            final(self)@[i as int].0 == k@,
            unique_keys(old(self)@) ==> unique_keys(final(self)@),
    {
        proof {
            lemma_find_key(self@, k@);
        }
        match self.index_of(k.as_str()) {
            Some(i) => i,
            None => {
                let n = self.len();
                let ghost kv = k@;
                self.insert_if_absent(k, v);
                proof {
                    assert(self@.drop_last() =~= old(self)@);
                    lemma_find_key(self@, kv);
                }
                n
            },
        }
    }

    /// Moves the entry at `from` before the entry at `to`.
    pub fn move_entry(&mut self, from: usize, to: usize)
        requires
            from < old(self)@.len(),
            to <= old(self)@.len(),
        ensures
            final(self)@ == move_spec(old(self)@, from as int, to as int),
            unique_keys(final(self)@),
    {
        let mut e = self.take_entries();
        pairs_move(&mut e, from, to);
        proof {
            lemma_move_unique(pairs_view(old(self).entries@), from as int, to as int);
        }
        self.entries = e;
    }

    /// Replaces the key of the entry at `i`, keeping its value and position; no other
    /// entry has the key `k`.
    pub fn set_key_at(&mut self, i: usize, k: String)
        requires
            i < old(self)@.len(),
            forall|j: int| 0 <= j < old(self)@.len() && j != i ==> old(self)@[j].0 != k@,
        ensures
            final(self)@ == old(self)@.update(i as int, (k@, old(self)@[i as int].1)),
            unique_keys(final(self)@),
    {
        let mut e = self.take_entries();
        pairs_set_key(&mut e, i, k);
        self.entries = e;
    }

    /// Removes `k`, closing the gap. Returns the removed value.
    pub fn shift_remove(&mut self, k: &str) -> (r: Option<T>)
        ensures
            final(self)@ == remove_spec(old(self)@, k@),
            r == lookup(old(self)@, k@),
            unique_keys(final(self)@),
            !has_key(final(self)@, k@),
    {
        let mut e = self.take_entries();
        let r = pairs_shift_remove(&mut e, k);
        self.entries = e;
        r
    }
}

} // verus!
