//! JSON values as the specification document holds them (examples, enum values, defaults).
use vstd::prelude::*;
use crate::ordered_map::{lemma_fresh_key, OrderedMap};

verus! {

/// A JSON value. A number is kept as its decimal text, exactly as it was written.
#[derive(Debug)]
pub enum JsonValue {
    Null,
    Bool(bool),
    Number(String),
    String(String),
    Array(Vec<JsonValue>),
    Object(OrderedMap<JsonValue>),
}

/// A JSON value with its strings taken as character sequences.
pub enum JsonView {
    Null,
    Bool(bool),
    Number(Seq<char>),
    String(Seq<char>),
    Array(Seq<JsonView>),
    Object(Seq<(Seq<char>, JsonView)>),
}

pub open spec fn jview(j: JsonValue) -> JsonView
    decreases j, 0nat,
{
    match j {
        JsonValue::Null => JsonView::Null,
        JsonValue::Bool(b) => JsonView::Bool(b),
        JsonValue::Number(n) => JsonView::Number(n@),
        JsonValue::String(s) => JsonView::String(s@),
        JsonValue::Array(v) => {
            proof {
                assert(decreases_to!(j => v));
                assert(decreases_to!(v => v@));
            }
            JsonView::Array(jview_seq(v@, v@.len()))
        },
        JsonValue::Object(m) => {
            proof {
                assert(decreases_to!(j => m));
            }
            JsonView::Object(jview_entries(m, m@.len()))
        },
    }
}

/// Views of the first `n` items.
pub open spec fn jview_seq(s: Seq<JsonValue>, n: nat) -> Seq<JsonView>
    decreases s, n,
{
    if n == 0 || n > s.len() {
        Seq::empty()
    } else {
        proof {
            assert(decreases_to!(s => s[n - 1]));
        }
        jview_seq(s, (n - 1) as nat).push(jview(s[n - 1]))
    }
}

/// Views of the first `n` entries of an object.
pub open spec fn jview_entries(m: OrderedMap<JsonValue>, n: nat) -> Seq<(Seq<char>, JsonView)>
    decreases m, n,
{
    if n == 0 || n > m@.len() {
        Seq::empty()
    } else {
        proof {
            m.lemma_value_decreases(n - 1);
        }
        jview_entries(m, (n - 1) as nat).push((m@[n - 1].0, jview(m@[n - 1].1)))
    }
}

impl View for JsonValue {
    type V = JsonView;

    open spec fn view(&self) -> JsonView {
        jview(*self)
    }
}

pub proof fn lemma_jview_seq(s: Seq<JsonValue>, n: nat)
    requires
        n <= s.len(),
    ensures
        jview_seq(s, n).len() == n,
        forall|i: int| 0 <= i < n ==> #[trigger] jview_seq(s, n)[i] == jview(s[i]),
    decreases n,
{
    if n > 0 {
        lemma_jview_seq(s, (n - 1) as nat);
    }
}

pub proof fn lemma_jview_entries(m: OrderedMap<JsonValue>, n: nat)
    requires
        n <= m@.len(),
    ensures
        jview_entries(m, n).len() == n,
        forall|i: int| 0 <= i < n ==> #[trigger] jview_entries(m, n)[i] == (m@[i].0, jview(m@[i].1)),
    decreases n,
{
    if n > 0 {
        lemma_jview_entries(m, (n - 1) as nat);
    }
}

/// Entry views depend only on the entries.
proof fn lemma_jview_entries_same(a: OrderedMap<JsonValue>, b: OrderedMap<JsonValue>, n: nat)
    requires
        n <= a@.len(),
        n <= b@.len(),
        forall|i: int| 0 <= i < n ==> #[trigger] a@[i].0 == b@[i].0 && jview(a@[i].1) == jview(b@[i].1),
    ensures
        jview_entries(a, n) == jview_entries(b, n),
{
    lemma_jview_entries(a, n);
    lemma_jview_entries(b, n);
    assert(jview_entries(a, n) =~= jview_entries(b, n));
}

/// Item views depend only on the items.
pub proof fn lemma_jview_seq_same(a: Seq<JsonValue>, b: Seq<JsonValue>, n: nat)
    requires
        n <= a.len(),
        n <= b.len(),
        forall|i: int| 0 <= i < n ==> jview(#[trigger] a[i]) == jview(b[i]),
    ensures
        jview_seq(a, n) == jview_seq(b, n),
{
    lemma_jview_seq(a, n);
    lemma_jview_seq(b, n);
    assert(jview_seq(a, n) =~= jview_seq(b, n));
}

impl JsonValue {
    /// A copy of the whole value.
    #[verifier::loop_isolation(false)]
    pub fn deep_clone(&self) -> (r: JsonValue)
        ensures
            r@ == self@,
        decreases self,
    {
        match self {
            JsonValue::Null => JsonValue::Null,
            JsonValue::Bool(b) => JsonValue::Bool(*b),
            JsonValue::Number(n) => JsonValue::Number(n.clone()),
            JsonValue::String(s) => JsonValue::String(s.clone()),
            JsonValue::Array(items) => {
                let mut out: Vec<JsonValue> = Vec::new();
                let mut i: usize = 0;
                while i < items.len()
                    invariant
                        i <= items@.len(),
                        out@.len() == i,
                        forall|j: int| 0 <= j < i ==> jview(#[trigger] out@[j]) == jview(items@[j]),
                    decreases items@.len() - i,
                {
                    proof {
                        assert(decreases_to!(*self => (*self)->Array_0));
                        assert(decreases_to!(*items => items@));
                        assert(decreases_to!(items@ => items@[i as int]));
                    }
                    let c = items[i].deep_clone();
                    out.push(c);
                    i += 1;
                }
                proof {
                    lemma_jview_seq_same(out@, items@, items@.len());
                }
                JsonValue::Array(out)
            },
            JsonValue::Object(m) => {
                let mut out: OrderedMap<JsonValue> = OrderedMap::new();
                let mut i: usize = 0;
                while i < m.len()
                    invariant
                        i <= m@.len(),
                        out@.len() == i,
                        forall|j: int| 0 <= j < i ==> #[trigger] out@[j].0 == m@[j].0 && jview(out@[j].1) == jview(m@[j].1),
                    decreases m@.len() - i,
                {
                    proof {
                        assert(decreases_to!(*self => (*self)->Object_0));
                        m.lemma_value_decreases(i as int);
                    }
                    let v = m.value_at(i).deep_clone();
                    proof {
                        lemma_fresh_key(out@, m@, i as int);
                    }
                    out.push_entry(m.key_at(i).clone(), v);
                    i += 1;
                }
                proof {
                    lemma_jview_entries_same(out, *m, m@.len());
                }
                JsonValue::Object(out)
            },
        }
    }
}

impl Clone for JsonValue {
    fn clone(&self) -> (r: Self)
        ensures
            r@ == self@,
    {
        self.deep_clone()
    }
}

} // verus!
