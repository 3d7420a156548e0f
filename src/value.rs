//! Literal values, type references and directives shared by the query tree.
use vstd::prelude::*;
use crate::text::{Text, lemma_text_lt_total, lemma_text_lt_transitive, text_less, text_lt};

verus! {

/// A line and column in the source text, kept for diagnostics only.
#[derive(Debug, Clone, Copy, PartialEq, Eq)]
pub struct Pos {
    pub line: usize,
    pub column: usize,
}

/// A literal value, or a reference to a variable.
#[derive(Debug, PartialEq)]
pub enum Value<T: Text> {
    Variable(T),
    Int(i64),
    String(String),
    Boolean(bool),
    Null,
    Enum(T),
    List(Vec<Value<T>>),
    /// Entries kept in strictly increasing key order (see `keys_sorted`).
    Object(Vec<(T, Value<T>)>),
}

/// A reference to a type: a named type, a list of a type, or a non-null type.
#[derive(Debug, PartialEq)]
pub enum Type<T: Text> {
    NamedType(T),
    ListType(Box<Type<T>>),
    NonNullType(Box<Type<T>>),
}

/// A named annotation with an ordered list of arguments.
#[derive(Debug, PartialEq)]
pub struct Directive<T: Text> {
    pub position: Pos,
    pub name: T,
    pub arguments: Vec<(T, Value<T>)>,
}

/// Each key is less than the next one, so keys are unique and ordered.
pub open spec fn keys_sorted<T: Text>(s: Seq<(T, Value<T>)>) -> bool {
    forall|j: int|
        0 <= j < s.len() - 1 ==> text_lt(#[trigger] s[j].0.text_view(), s[j + 1].0.text_view())
}

/// The entries after `(k, v)` is put into the key-ordered entries `s`: it
/// replaces an entry with an equal key, or goes before the first larger key.
pub open spec fn entries_insert<T: Text>(s: Seq<(T, Value<T>)>, k: T, v: Value<T>) -> Seq<
    (T, Value<T>),
>
    decreases s.len(),
{
    if s.len() == 0 {
        seq![(k, v)]
    } else if text_lt(s[0].0.text_view(), k.text_view()) {
        seq![s[0]] + entries_insert(s.drop_first(), k, v)
    } else if s[0].0.text_view() == k.text_view() {
        s.update(0, (k, v))
    } else {
        seq![(k, v)] + s
    }
}

/// The key-ordered entries got by putting each of `s` in turn into empty entries.
pub open spec fn entries_from<T: Text>(s: Seq<(T, Value<T>)>) -> Seq<(T, Value<T>)>
    decreases s.len(),
{
    if s.len() == 0 {
        seq![]
    } else {
        entries_insert(entries_from(s.drop_last()), s.last().0, s.last().1)
    }
}

proof fn lemma_insert_after_prefix<T: Text>(s: Seq<(T, Value<T>)>, k: T, v: Value<T>, i: int)
    requires
        0 <= i <= s.len(),
        forall|j: int| 0 <= j < i ==> text_lt(#[trigger] s[j].0.text_view(), k.text_view()),
    ensures
        entries_insert(s, k, v) == s.subrange(0, i) + entries_insert(s.subrange(i, s.len() as int), k, v),
    decreases i,
{
    if i == 0 {
        assert(s.subrange(0, 0) + s.subrange(0, s.len() as int) =~= s);
        assert(s.subrange(0, s.len() as int) =~= s);
    } else {
        let t = s.drop_first();
        assert forall|j: int| 0 <= j < i - 1 implies text_lt(#[trigger] t[j].0.text_view(), k.text_view()) by {
            assert(t[j] == s[j + 1]);
        }
        lemma_insert_after_prefix(t, k, v, i - 1);
        assert(t.subrange(i - 1, t.len() as int) =~= s.subrange(i, s.len() as int));
        assert(seq![s[0]] + t.subrange(0, i - 1) =~= s.subrange(0, i));
        assert(entries_insert(s, k, v) == seq![s[0]] + entries_insert(t, k, v));
        assert(seq![s[0]] + (t.subrange(0, i - 1) + entries_insert(t.subrange(i - 1, t.len() as int), k, v))
            =~= (seq![s[0]] + t.subrange(0, i - 1)) + entries_insert(t.subrange(i - 1, t.len() as int), k, v));
    }
}

/// Puts `(key, value)` into key-ordered entries: an entry with an equal key is
/// replaced, otherwise the pair goes before the first larger key.
pub fn insert_entry<T: Text>(entries: &mut Vec<(T, Value<T>)>, key: T, value: Value<T>)
    requires
        keys_sorted(old(entries)@),
    ensures
        final(entries)@ == entries_insert(old(entries)@, key, value),
        keys_sorted(final(entries)@),
{
    let ghost s = entries@;
    let ghost kv = key.text_view();
    let n = entries.len();
    let mut i: usize = 0;
    while i < n
        invariant
            entries@ == s,
            n == s.len(),
            i <= n,
            kv == key.text_view(),
            forall|j: int| 0 <= j < i ==> text_lt(#[trigger] s[j].0.text_view(), kv),
        ensures
            i == n || !text_lt(s[i as int].0.text_view(), kv),
        decreases n - i,
    {
        if !text_less(entries[i].0.as_text(), key.as_text()) {
            break;
        }
        i = i + 1;
    }
    proof {
        lemma_insert_after_prefix(s, key, value, i as int);
    }
    let ghost t = s.subrange(i as int, s.len() as int);
    if i == n {
        assert(t =~= Seq::<(T, Value<T>)>::empty());
        entries.push((key, value));
        assert(entries@ =~= s.subrange(0, i as int) + seq![(key, value)]);
        assert forall|j: int| 0 <= j < entries@.len() - 1 implies text_lt(
            #[trigger] entries@[j].0.text_view(),
            entries@[j + 1].0.text_view(),
        ) by {
            if j + 1 < n {
                assert(entries@[j] == s[j] && entries@[j + 1] == s[j + 1]);
            }
        }
    } else {
        let ghost ki = s[i as int].0.text_view();
        let back = text_less(key.as_text(), entries[i].0.as_text());
        proof {
            lemma_text_lt_total(ki, kv);
            assert(t[0] == s[i as int]);
        }
        if !back {
            assert(ki == kv);
            entries.set(i, (key, value));
            assert(entries@ =~= s.subrange(0, i as int) + t.update(0, (key, value)));
            assert forall|j: int| 0 <= j < entries@.len() - 1 implies text_lt(
                #[trigger] entries@[j].0.text_view(),
                entries@[j + 1].0.text_view(),
            ) by {
                assert(entries@[j].0.text_view() == s[j].0.text_view());
                assert(entries@[j + 1].0.text_view() == s[j + 1].0.text_view());
            }
        } else {
            entries.insert(i, (key, value));
            assert(entries@ =~= s.subrange(0, i as int) + (seq![(key, value)] + t));
            assert forall|j: int| 0 <= j < entries@.len() - 1 implies text_lt(
                #[trigger] entries@[j].0.text_view(),
                entries@[j + 1].0.text_view(),
            ) by {
                if j + 1 < i {
                    assert(entries@[j] == s[j] && entries@[j + 1] == s[j + 1]);
                } else if j + 1 == i {
                    assert(entries@[j] == s[j]);
                } else if j > i {
                    assert(entries@[j] == s[j - 1] && entries@[j + 1] == s[j]);
                }
            }
        }
    }
}

/// Entries with different keys can be put into an object in either order:
/// the result is the same, so it depends on the keys, not on insertion order.
pub proof fn lemma_insert_order_irrelevant<T: Text>(
    s: Seq<(T, Value<T>)>,
    k1: T,
    v1: Value<T>,
    k2: T,
    v2: Value<T>,
)
    requires
        k1.text_view() != k2.text_view(),
    ensures
        entries_insert(entries_insert(s, k1, v1), k2, v2) == entries_insert(
            entries_insert(s, k2, v2),
            k1,
            v1,
        ),
    decreases s.len(),
{
    let a = k1.text_view();
    let b = k2.text_view();
    lemma_text_lt_total(a, b);
    if s.len() == 0 {
        assert(entries_insert(s, k1, v1) == seq![(k1, v1)]);
        assert(entries_insert(s, k2, v2) == seq![(k2, v2)]);
        assert(seq![(k1, v1)].drop_first() =~= Seq::<(T, Value<T>)>::empty());
        assert(seq![(k2, v2)].drop_first() =~= Seq::<(T, Value<T>)>::empty());
        let e = Seq::<(T, Value<T>)>::empty();
        assert(entries_insert(e, k1, v1) == seq![(k1, v1)]);
        assert(entries_insert(e, k2, v2) == seq![(k2, v2)]);
        if text_lt(a, b) {
            assert(entries_insert(seq![(k1, v1)], k2, v2) =~= seq![(k1, v1), (k2, v2)]);
            assert(entries_insert(seq![(k2, v2)], k1, v1) =~= seq![(k1, v1), (k2, v2)]);
        } else {
            assert(entries_insert(seq![(k1, v1)], k2, v2) =~= seq![(k2, v2), (k1, v1)]);
            assert(entries_insert(seq![(k2, v2)], k1, v1) =~= seq![(k2, v2), (k1, v1)]);
        }
    } else {
        let h = s[0].0.text_view();
        let t = s.drop_first();
        lemma_text_lt_total(h, a);
        lemma_text_lt_total(h, b);
        if text_lt(h, a) && text_lt(h, b) {
            lemma_insert_order_irrelevant(t, k1, v1, k2, v2);
            let x = entries_insert(s, k1, v1);
            let y = entries_insert(s, k2, v2);
            assert(x == seq![s[0]] + entries_insert(t, k1, v1));
            assert(y == seq![s[0]] + entries_insert(t, k2, v2));
            assert(x[0] == s[0] && x.drop_first() =~= entries_insert(t, k1, v1));
            assert(y[0] == s[0] && y.drop_first() =~= entries_insert(t, k2, v2));
        } else if text_lt(h, a) {
            // k2 goes at or before the head, k1 after it
            if h == b {
                let x = entries_insert(s, k1, v1);
                assert(x[0] == s[0] && x.drop_first() =~= entries_insert(t, k1, v1));
                assert(entries_insert(x, k2, v2) =~= x.update(0, (k2, v2)));
                let y = s.update(0, (k2, v2));
                assert(y.drop_first() =~= t);
                assert(entries_insert(y, k1, v1) =~= seq![(k2, v2)] + entries_insert(t, k1, v1));
            } else {
                lemma_text_lt_transitive(b, h, a);
                let x = entries_insert(s, k1, v1);
                assert(x[0] == s[0] && x.drop_first() =~= entries_insert(t, k1, v1));
                let y = seq![(k2, v2)] + s;
                assert(y.drop_first() =~= s);
                assert(entries_insert(y, k1, v1) =~= seq![(k2, v2)] + x);
            }
        } else if text_lt(h, b) {
            if h == a {
                let y = entries_insert(s, k2, v2);
                assert(y[0] == s[0] && y.drop_first() =~= entries_insert(t, k2, v2));
                assert(entries_insert(y, k1, v1) =~= y.update(0, (k1, v1)));
                let x = s.update(0, (k1, v1));
                assert(x.drop_first() =~= t);
                assert(entries_insert(x, k2, v2) =~= seq![(k1, v1)] + entries_insert(t, k2, v2));
            } else {
                lemma_text_lt_transitive(a, h, b);
                let y = entries_insert(s, k2, v2);
                assert(y[0] == s[0] && y.drop_first() =~= entries_insert(t, k2, v2));
                let x = seq![(k1, v1)] + s;
                assert(x.drop_first() =~= s);
                assert(entries_insert(x, k2, v2) =~= seq![(k1, v1)] + y);
            }
        } else {
            // neither key is after the head
            let x = entries_insert(s, k1, v1);
            let y = entries_insert(s, k2, v2);
            if h == a {
                assert(x == s.update(0, (k1, v1)));
                assert(y == seq![(k2, v2)] + s);
                assert(x.drop_first() =~= t);
                assert(y.drop_first() =~= s);
                assert(entries_insert(x, k2, v2) =~= seq![(k2, v2)] + x);
                assert(entries_insert(y, k1, v1) =~= seq![(k2, v2)] + x);
            } else if h == b {
                assert(y == s.update(0, (k2, v2)));
                assert(x == seq![(k1, v1)] + s);
                assert(y.drop_first() =~= t);
                assert(x.drop_first() =~= s);
                assert(entries_insert(y, k1, v1) =~= seq![(k1, v1)] + y);
                assert(entries_insert(x, k2, v2) =~= seq![(k1, v1)] + y);
            } else {
                assert(x == seq![(k1, v1)] + s);
                assert(y == seq![(k2, v2)] + s);
                assert(x.drop_first() =~= s);
                assert(y.drop_first() =~= s);
                if text_lt(a, b) {
                    assert(entries_insert(x, k2, v2) =~= seq![(k1, v1)] + y);
                    assert(entries_insert(y, k1, v1) =~= seq![(k1, v1)] + y);
                } else {
                    assert(entries_insert(y, k1, v1) =~= seq![(k2, v2)] + x);
                    assert(entries_insert(x, k2, v2) =~= seq![(k2, v2)] + x);
                }
            }
        }
    }
}

impl<T: Text> Value<T> {
    /// An object literal keeps its keys unique and in increasing order.
    pub open spec fn wf(&self) -> bool {
        match self {
            Value::Object(e) => keys_sorted(e@),
            _ => true,
        }
    }

    /// An object literal holding `entries` in key order; of two entries with
    /// equal keys the later one is kept.
    pub fn object_from(entries: Vec<(T, Value<T>)>) -> (r: Value<T>)
        ensures
            r matches Value::Object(e) && e@ == entries_from(entries@),
            r.wf(),
    {
        let ghost src = entries@;
        let mut out: Vec<(T, Value<T>)> = Vec::new();
        let total = entries.len();
        let mut rest = entries;
        let mut i: usize = 0;
        assert(rest@ =~= src.subrange(0, src.len() as int));
        while rest.len() > 0
            invariant
                i <= src.len(),
                total == src.len(),
                rest@ == src.subrange(i as int, src.len() as int),
                out@ == entries_from(src.subrange(0, i as int)),
                keys_sorted(out@),
            decreases rest@.len(),
        {
            let (k, v) = rest.remove(0);
            assert(rest@ =~= src.subrange(i as int + 1, src.len() as int));
            assert(src.subrange(0, i as int + 1).drop_last() =~= src.subrange(0, i as int));
            insert_entry(&mut out, k, v);
            i = i + 1;
        }
        assert(src.subrange(0, i as int) =~= src);
        Value::Object(out)
    }
}

} // verus!
