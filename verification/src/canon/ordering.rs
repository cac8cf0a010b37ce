//! Stable ordering semantics for canonical forms.
use vstd::prelude::*;
use vstd::multiset::Multiset;

use crate::canon::canonical_path::CanonicalPath;
use crate::text::{seq_le, seq_lt, str_lt};
use crate::text::{lemma_seq_lt_asymmetric, lemma_seq_lt_total, lemma_seq_lt_transitive};

verus! {

broadcast use vstd::seq_lib::group_to_multiset_ensures;

/// Values ordered by a text key compared lexicographically.
pub trait TextKeyed: Sized {
    /// The key the value is ordered by.
    spec fn text_key(&self) -> Seq<char>;

    /// Strict comparison of the keys.
    fn key_precedes(&self, other: &Self) -> (r: bool)
        ensures
            r == seq_lt(self.text_key(), other.text_key()),
    ;
}

impl TextKeyed for String {
    open spec fn text_key(&self) -> Seq<char> {
        self@
    }

    fn key_precedes(&self, other: &Self) -> (r: bool) {
        str_lt(self.as_str(), other.as_str())
    }
}

impl TextKeyed for CanonicalPath {
    open spec fn text_key(&self) -> Seq<char> {
        self@
    }

    fn key_precedes(&self, other: &Self) -> (r: bool) {
        str_lt(self.as_str(), other.as_str())
    }
}

/// The keys of `s` never decrease.
pub open spec fn sorted_by_key<T: TextKeyed>(s: Seq<T>) -> bool {
    forall|i: int, j: int| 0 <= i < j < s.len() ==> seq_le(s[i].text_key(), s[j].text_key())
}

/// The keys of `s` strictly increase.
pub open spec fn strictly_sorted_by_key<T: TextKeyed>(s: Seq<T>) -> bool {
    forall|i: int, j: int| 0 <= i < j < s.len() ==> seq_lt(s[i].text_key(), s[j].text_key())
}

/// The values of `s` whose key is `k`, in their order in `s`.
pub open spec fn with_text_key<T: TextKeyed>(s: Seq<T>, k: Seq<char>) -> Seq<T>
    decreases s.len(),
{
    if s.len() == 0 {
        Seq::empty()
    } else {
        with_text_key(s.drop_last(), k) + if s.last().text_key() == k {
            seq![s.last()]
        } else {
            Seq::empty()
        }
    }
}

proof fn lemma_with_text_key_append<T: TextKeyed>(a: Seq<T>, b: Seq<T>, k: Seq<char>)
    ensures
        with_text_key(a + b, k) == with_text_key(a, k) + with_text_key(b, k),
    decreases b.len(),
{
    if b.len() == 0 {
        assert(a + b =~= a);
        assert(with_text_key(a, k) + with_text_key(b, k) =~= with_text_key(a, k));
    } else {
        lemma_with_text_key_append(a, b.drop_last(), k);
        assert((a + b).drop_last() =~= a + b.drop_last());
        assert((a + b).last() == b.last());
        let tail = if b.last().text_key() == k {
            seq![b.last()]
        } else {
            Seq::<T>::empty()
        };
        assert(with_text_key(a, k) + with_text_key(b.drop_last(), k) + tail =~= with_text_key(a, k)
            + (with_text_key(b.drop_last(), k) + tail));
    }
}

proof fn lemma_with_text_key_none<T: TextKeyed>(s: Seq<T>, k: Seq<char>)
    requires
        forall|i: int| 0 <= i < s.len() ==> (#[trigger] s[i]).text_key() != k,
    ensures
        with_text_key(s, k) == Seq::<T>::empty(),
    decreases s.len(),
{
    if s.len() > 0 {
        assert(s.last() == s[s.len() - 1]);
        assert forall|i: int| 0 <= i < s.drop_last().len() implies (
        #[trigger] s.drop_last()[i]).text_key() != k by {
            assert(s.drop_last()[i] == s[i]);
        }
        lemma_with_text_key_none(s.drop_last(), k);
        assert(with_text_key(s, k) =~= Seq::<T>::empty());
    }
}

/// Inserting a value before only values of other keys puts it last among
/// the values of its key and moves no other.
proof fn lemma_with_text_key_insert<T: TextKeyed>(s: Seq<T>, i: int, x: T, k: Seq<char>)
    requires
        0 <= i <= s.len(),
        forall|j: int| i <= j < s.len() ==> (#[trigger] s[j]).text_key() != x.text_key(),
    ensures
        with_text_key(s.insert(i, x), k) == with_text_key(s, k) + if x.text_key() == k {
            seq![x]
        } else {
            Seq::<T>::empty()
        },
{
    let t = s.take(i);
    let u = s.skip(i);
    assert(s.insert(i, x) =~= t + seq![x] + u);
    assert(s =~= t + u);
    lemma_with_text_key_append(t + seq![x], u, k);
    lemma_with_text_key_append(t, seq![x], k);
    lemma_with_text_key_append(t, u, k);
    assert(seq![x].drop_last() =~= Seq::<T>::empty());
    assert(with_text_key(Seq::<T>::empty(), k) == Seq::<T>::empty());
    assert(seq![x].last() == x);
    if x.text_key() == k {
        assert(with_text_key(seq![x], k) =~= seq![x]);
        assert forall|j: int| 0 <= j < u.len() implies (#[trigger] u[j]).text_key() != k by {
            assert(u[j] == s[i + j]);
        }
        lemma_with_text_key_none(u, k);
        assert(with_text_key(t, k) + with_text_key(seq![x], k) + with_text_key(u, k) =~= with_text_key(
            t,
            k,
        ) + seq![x]);
        assert(with_text_key(t, k) + with_text_key(u, k) =~= with_text_key(t, k));
    } else {
        assert(with_text_key(seq![x], k) =~= Seq::<T>::empty());
        assert(with_text_key(t, k) + with_text_key(seq![x], k) =~= with_text_key(t, k));
    }
}

/// The text key of a value, as a function.
pub open spec fn text_key_of<T: TextKeyed>() -> spec_fn(T) -> Seq<char> {
    |x: T| x.text_key()
}

/// No two values of `s` share a text key.
pub open spec fn keys_distinct<T: TextKeyed>(s: Seq<T>) -> bool {
    s.map_values(text_key_of::<T>()).no_duplicates()
}

/// Two sequences sorted by text key, each a rearrangement of one of two
/// rearranged sequences whose keys are distinct, are the same sequence.
pub proof fn lemma_sorted_rearrangements_agree<T: TextKeyed>(
    n1: Seq<T>,
    n2: Seq<T>,
    d1: Seq<T>,
    d2: Seq<T>,
)
    requires
        sorted_by_key(n1),
        sorted_by_key(n2),
        n1.to_multiset() == d1.to_multiset(),
        n2.to_multiset() == d2.to_multiset(),
        d1.to_multiset() == d2.to_multiset(),
        keys_distinct(d1),
    ensures
        n1 == n2,
{
    lemma_distinct_keys_rearranged(n1, d1, text_key_of::<T>());
    lemma_sorted_rearrangement_unique(n1, n2, text_key_of::<T>());
}

/// The values of `s` whose key under `key` is `k`, in their order in `s`.
pub open spec fn keyed_by<T, K>(s: Seq<T>, key: spec_fn(T) -> K, k: K) -> Seq<T>
    decreases s.len(),
{
    if s.len() == 0 {
        Seq::empty()
    } else {
        keyed_by(s.drop_last(), key, k) + if key(s.last()) == k {
            seq![s.last()]
        } else {
            Seq::empty()
        }
    }
}

proof fn lemma_keyed_by_append<T, K>(a: Seq<T>, b: Seq<T>, key: spec_fn(T) -> K, k: K)
    ensures
        keyed_by(a + b, key, k) == keyed_by(a, key, k) + keyed_by(b, key, k),
    decreases b.len(),
{
    if b.len() == 0 {
        assert(a + b =~= a);
        assert(keyed_by(a, key, k) + keyed_by(b, key, k) =~= keyed_by(a, key, k));
    } else {
        lemma_keyed_by_append(a, b.drop_last(), key, k);
        assert((a + b).drop_last() =~= a + b.drop_last());
        assert((a + b).last() == b.last());
        let tail = if key(b.last()) == k {
            seq![b.last()]
        } else {
            Seq::<T>::empty()
        };
        assert(keyed_by(a, key, k) + keyed_by(b.drop_last(), key, k) + tail =~= keyed_by(a, key, k)
            + (keyed_by(b.drop_last(), key, k) + tail));
    }
}

proof fn lemma_keyed_by_none<T, K>(s: Seq<T>, key: spec_fn(T) -> K, k: K)
    requires
        forall|i: int| 0 <= i < s.len() ==> key(#[trigger] s[i]) != k,
    ensures
        keyed_by(s, key, k) == Seq::<T>::empty(),
    decreases s.len(),
{
    if s.len() > 0 {
        assert(s.last() == s[s.len() - 1]);
        assert forall|i: int| 0 <= i < s.drop_last().len() implies key(#[trigger] s.drop_last()[i])
            != k by {
            assert(s.drop_last()[i] == s[i]);
        }
        lemma_keyed_by_none(s.drop_last(), key, k);
        assert(keyed_by(s, key, k) =~= Seq::<T>::empty());
    }
}

/// Inserting a value before only values of other keys puts it last among
/// the values of its key and moves no other.
pub proof fn lemma_keyed_by_insert<T, K>(s: Seq<T>, i: int, x: T, key: spec_fn(T) -> K, k: K)
    requires
        0 <= i <= s.len(),
        forall|j: int| i <= j < s.len() ==> key(#[trigger] s[j]) != key(x),
    ensures
        keyed_by(s.insert(i, x), key, k) == keyed_by(s, key, k) + if key(x) == k {
            seq![x]
        } else {
            Seq::<T>::empty()
        },
{
    let t = s.take(i);
    let u = s.skip(i);
    assert(s.insert(i, x) =~= t + seq![x] + u);
    assert(s =~= t + u);
    lemma_keyed_by_append(t + seq![x], u, key, k);
    lemma_keyed_by_append(t, seq![x], key, k);
    lemma_keyed_by_append(t, u, key, k);
    assert(seq![x].drop_last() =~= Seq::<T>::empty());
    assert(keyed_by(Seq::<T>::empty(), key, k) == Seq::<T>::empty());
    assert(seq![x].last() == x);
    if key(x) == k {
        assert(keyed_by(seq![x], key, k) =~= seq![x]);
        assert forall|j: int| 0 <= j < u.len() implies key(#[trigger] u[j]) != k by {
            assert(u[j] == s[i + j]);
        }
        lemma_keyed_by_none(u, key, k);
        assert(keyed_by(t, key, k) + keyed_by(seq![x], key, k) + keyed_by(u, key, k) =~= keyed_by(
            t,
            key,
            k,
        ) + seq![x]);
        assert(keyed_by(t, key, k) + keyed_by(u, key, k) =~= keyed_by(t, key, k));
    } else {
        assert(keyed_by(seq![x], key, k) =~= Seq::<T>::empty());
        assert(keyed_by(t, key, k) + keyed_by(seq![x], key, k) =~= keyed_by(t, key, k));
    }
}

/// Taking one more value of a sequence adds it to its key's values.
pub proof fn lemma_keyed_by_take<T, K>(s: Seq<T>, n: int, key: spec_fn(T) -> K, k: K)
    requires
        0 <= n < s.len(),
    ensures
        keyed_by(s.take(n + 1), key, k) == keyed_by(s.take(n), key, k) + if key(s[n]) == k {
            seq![s[n]]
        } else {
            Seq::<T>::empty()
        },
{
    assert(s.take(n + 1).drop_last() =~= s.take(n));
    assert(s.take(n + 1).last() == s[n]);
}

proof fn lemma_seq_le_antisymmetric(a: Seq<char>, b: Seq<char>)
    requires
        seq_le(a, b),
        seq_le(b, a),
    ensures
        a == b,
{
    if seq_lt(a, b) {
        lemma_seq_lt_asymmetric(a, b);
    }
}

/// A value of `t` that its rearrangement `s` holds too, with its position.
proof fn lemma_rearranged_at<T>(s: Seq<T>, t: Seq<T>, i: int) -> (j: int)
    requires
        s.to_multiset() == t.to_multiset(),
        0 <= i < s.len(),
    ensures
        0 <= j < t.len(),
        t[j] == s[i],
{
    assert(s.to_multiset().count(s[i]) > 0);
    assert(t.contains(s[i]));
    choose|j: int| 0 <= j < t.len() && t[j] == s[i]
}

/// Two sequences ordered by a text key, one a rearrangement of the other,
/// in which no key occurs twice, are one and the same sequence.
pub proof fn lemma_sorted_rearrangement_unique<T>(
    s: Seq<T>,
    t: Seq<T>,
    key: spec_fn(T) -> Seq<char>,
)
    requires
        forall|i: int, j: int| 0 <= i < j < s.len() ==> seq_le(key(s[i]), key(s[j])),
        forall|i: int, j: int| 0 <= i < j < t.len() ==> seq_le(key(t[i]), key(t[j])),
        s.to_multiset() == t.to_multiset(),
        s.map_values(key).no_duplicates(),
    ensures
        s == t,
    decreases s.len(),
{
    broadcast use vstd::multiset::group_multiset_axioms;

    vstd::seq_lib::to_multiset_len(s);
    vstd::seq_lib::to_multiset_len(t);
    if s.len() == 0 {
        assert(s =~= t);
    } else {
        let j = lemma_rearranged_at(s, t, 0);
        let i = lemma_rearranged_at(t, s, 0);
        if j > 0 {
            assert(seq_le(key(t[0]), key(t[j])));
        }
        if i > 0 {
            assert(seq_le(key(s[0]), key(s[i])));
        }
        if i > 0 && j > 0 {
            lemma_seq_le_antisymmetric(key(s[0]), key(s[i]));
        }
        if i != 0 {
            assert(s.map_values(key)[0] == s.map_values(key)[i]);
        }
        assert(t[0] == s[0]);
        let s1 = s.drop_first();
        let t1 = t.drop_first();
        assert(s1 =~= s.remove(0));
        assert(t1 =~= t.remove(0));
        vstd::seq_lib::to_multiset_remove(s, 0);
        vstd::seq_lib::to_multiset_remove(t, 0);
        assert forall|a: int, b: int| 0 <= a < b < s1.len() implies seq_le(key(s1[a]), key(s1[b])) by {
            assert(s1[a] == s[a + 1] && s1[b] == s[b + 1]);
        }
        assert forall|a: int, b: int| 0 <= a < b < t1.len() implies seq_le(key(t1[a]), key(t1[b])) by {
            assert(t1[a] == t[a + 1] && t1[b] == t[b + 1]);
        }
        assert(s1.map_values(key) =~= s.map_values(key).drop_first());
        lemma_sorted_rearrangement_unique(s1, t1, key);
        assert(s =~= t) by {
            assert forall|a: int| 0 <= a < s.len() implies s[a] == t[a] by {
                if a > 0 {
                    assert(s[a] == s1[a - 1] && t[a] == t1[a - 1]);
                }
            }
        }
    }
}

/// Two sequences ordered by an integer key, one a rearrangement of the
/// other, in which no key occurs twice, are one and the same sequence.
pub proof fn lemma_ranked_rearrangement_unique<T>(s: Seq<T>, t: Seq<T>, key: spec_fn(T) -> int)
    requires
        forall|i: int, j: int| 0 <= i < j < s.len() ==> key(s[i]) <= key(s[j]),
        forall|i: int, j: int| 0 <= i < j < t.len() ==> key(t[i]) <= key(t[j]),
        s.to_multiset() == t.to_multiset(),
        s.map_values(key).no_duplicates(),
    ensures
        s == t,
    decreases s.len(),
{
    broadcast use vstd::multiset::group_multiset_axioms;

    vstd::seq_lib::to_multiset_len(s);
    vstd::seq_lib::to_multiset_len(t);
    if s.len() == 0 {
        assert(s =~= t);
    } else {
        let j = lemma_rearranged_at(s, t, 0);
        let i = lemma_rearranged_at(t, s, 0);
        if j > 0 {
            assert(key(t[0]) <= key(t[j]));
        }
        if i > 0 {
            assert(key(s[0]) <= key(s[i]));
        }
        if i != 0 {
            assert(s.map_values(key)[0] == s.map_values(key)[i]);
        }
        assert(t[0] == s[0]);
        let s1 = s.drop_first();
        let t1 = t.drop_first();
        assert(s1 =~= s.remove(0));
        assert(t1 =~= t.remove(0));
        vstd::seq_lib::to_multiset_remove(s, 0);
        vstd::seq_lib::to_multiset_remove(t, 0);
        assert forall|a: int, b: int| 0 <= a < b < s1.len() implies key(s1[a]) <= key(s1[b]) by {
            assert(s1[a] == s[a + 1] && s1[b] == s[b + 1]);
        }
        assert forall|a: int, b: int| 0 <= a < b < t1.len() implies key(t1[a]) <= key(t1[b]) by {
            assert(t1[a] == t[a + 1] && t1[b] == t[b + 1]);
        }
        assert(s1.map_values(key) =~= s.map_values(key).drop_first());
        lemma_ranked_rearrangement_unique(s1, t1, key);
        assert(s =~= t) by {
            assert forall|a: int| 0 <= a < s.len() implies s[a] == t[a] by {
                if a > 0 {
                    assert(s[a] == s1[a - 1] && t[a] == t1[a - 1]);
                }
            }
        }
    }
}

/// A rearrangement of a sequence with no key twice has no key twice.
pub proof fn lemma_distinct_keys_rearranged<T, K>(s: Seq<T>, t: Seq<T>, key: spec_fn(T) -> K)
    requires
        s.to_multiset() == t.to_multiset(),
        t.map_values(key).no_duplicates(),
    ensures
        s.map_values(key).no_duplicates(),
{
    crate::policy::compile::lemma_map_multiset(s, t, key);
    t.map_values(key).lemma_multiset_has_no_duplicates();
    s.map_values(key).lemma_multiset_has_no_duplicates_conv();
}

/// The position at which `x` goes into the sorted `out`: after every element
/// whose key is not greater.
fn insertion_point<T: TextKeyed>(out: &Vec<T>, x: &T) -> (j: usize)
    requires
        sorted_by_key(out@),
    ensures
        j <= out@.len(),
        forall|k: int| 0 <= k < j ==> seq_le(#[trigger] out@[k].text_key(), x.text_key()),
        forall|k: int| j <= k < out@.len() ==> seq_lt(x.text_key(), #[trigger] out@[k].text_key()),
{
    let mut j: usize = 0;
    while j < out.len()
        invariant
            j <= out@.len(),
            sorted_by_key(out@),
            forall|k: int| 0 <= k < j ==> seq_le(#[trigger] out@[k].text_key(), x.text_key()),
        decreases out@.len() - j,
    {
        if x.key_precedes(&out[j]) {
            assert forall|k: int| j <= k < out@.len() implies seq_lt(
                x.text_key(),
                #[trigger] out@[k].text_key(),
            ) by {
                if k > j {
                    assert(seq_le(out@[j as int].text_key(), out@[k].text_key()));
                    if out@[j as int].text_key() != out@[k].text_key() {
                        lemma_seq_lt_transitive(
                            x.text_key(),
                            out@[j as int].text_key(),
                            out@[k].text_key(),
                        );
                    }
                }
            }
            return j;
        }
        proof {
            lemma_seq_lt_total(x.text_key(), out@[j as int].text_key());
        }
        j = j + 1;
    }
    j
}

/// Sorts by key; the result is a permutation of the input whose keys never
/// decrease, and values with equal keys keep their order.
pub fn sort_by_text_key<T: TextKeyed>(v: &mut Vec<T>)
    ensures
        sorted_by_key(final(v)@),
        final(v)@.to_multiset() == old(v)@.to_multiset(),
        final(v)@.len() == old(v)@.len(),
        forall|k: Seq<char>| #[trigger] with_text_key(final(v)@, k) == with_text_key(old(v)@, k),
{
    let ghost original = v@;
    let ghost mut taken: int = 0;
    let mut out: Vec<T> = Vec::new();
    proof {
        assert(original.take(0) =~= Seq::<T>::empty());
        assert(v@ =~= original.skip(0));
    }
    while v.len() > 0
        invariant
            sorted_by_key(out@),
            out@.to_multiset().add(v@.to_multiset()) == original.to_multiset(),
            out@.len() + v@.len() == original.len(),
            0 <= taken <= original.len(),
            v@ == original.skip(taken),
            forall|k: Seq<char>| #[trigger] with_text_key(out@, k) == with_text_key(original.take(taken), k),
        decreases v@.len(),
    {
        let ghost before_v = v@;
        let ghost before_out = out@;
        let x = v.remove(0);
        let j = insertion_point(&out, &x);
        proof {
            assert forall|m: int| j <= m < before_out.len() implies (#[trigger] before_out[m]).text_key()
                != x.text_key() by {
                lemma_seq_lt_asymmetric(x.text_key(), before_out[m].text_key());
            }
            assert forall|k: Seq<char>| #[trigger] with_text_key(before_out.insert(j as int, x), k)
                == with_text_key(before_out, k) + if x.text_key() == k {
                seq![x]
            } else {
                Seq::<T>::empty()
            } by {
                lemma_with_text_key_insert(before_out, j as int, x, k);
            }
        }
        out.insert(j, x);
        proof {
            assert(before_v.remove(0) == v@);
            assert(out@ == before_out.insert(j as int, x));
            assert(before_v.to_multiset() == v@.to_multiset().insert(x)) by {
                assert(before_v.remove(0).to_multiset() == before_v.to_multiset().remove(
                    before_v[0],
                ));
                assert(before_v.to_multiset().count(x) > 0);
            }
            assert(out@.to_multiset().add(v@.to_multiset()) =~= original.to_multiset());
            assert forall|a: int, b: int| 0 <= a < b < out@.len() implies seq_le(
                out@[a].text_key(),
                out@[b].text_key(),
            ) by {
                if a < j && b == j {
                } else if a == j && b > j {
                    assert(out@[b] == before_out[b - 1]);
                } else if a < j && b > j {
                    assert(out@[b] == before_out[b - 1]);
                } else if a > j {
                    assert(out@[a] == before_out[a - 1]);
                    assert(out@[b] == before_out[b - 1]);
                }
            }
            assert(x == original[taken]);
            assert(original.take(taken + 1).drop_last() =~= original.take(taken));
            assert(original.take(taken + 1).last() == x);
            assert(v@ =~= original.skip(taken + 1));
            taken = taken + 1;
        }
    }
    assert(v@.to_multiset() =~= Multiset::<T>::empty());
    proof {
        assert(original.take(taken) =~= original);
    }
    *v = out;
}

/// Sorts a vector of strings lexicographically.
pub fn sort_strings(v: &mut Vec<String>)
    ensures
        sorted_by_key(final(v)@),
        final(v)@.to_multiset() == old(v)@.to_multiset(),
        final(v)@.len() == old(v)@.len(),
{
    sort_by_text_key(v);
}

/// Stable ordering semantics for canonical forms.
#[derive(Debug, Clone, Copy, PartialEq, Eq, Hash, Structural)]
pub enum CanonicalOrdering {
    Lexicographic,
    StableInput,
}

impl CanonicalOrdering {
    /// Lexicographic ordering sorts the strings; stable-input ordering leaves
    /// them as they are.
    pub fn order_strings(self, values: &mut Vec<String>)
        ensures
            self == CanonicalOrdering::StableInput ==> final(values)@ == old(values)@,
            self == CanonicalOrdering::Lexicographic ==> sorted_by_key(final(values)@)
                && final(values)@.to_multiset() == old(values)@.to_multiset(),
    {
        if let CanonicalOrdering::Lexicographic = self {
            sort_strings(values);
        }
    }

    /// Lexicographic ordering sorts the paths by their text; stable-input
    /// ordering leaves them as they are.
    pub fn order_paths(self, values: &mut Vec<CanonicalPath>)
        ensures
            self == CanonicalOrdering::StableInput ==> final(values)@ == old(values)@,
            self == CanonicalOrdering::Lexicographic ==> sorted_by_key(final(values)@)
                && final(values)@.to_multiset() == old(values)@.to_multiset(),
    {
        if let CanonicalOrdering::Lexicographic = self {
            sort_by_text_key(values);
        }
    }
}

/// Sorting twice changes nothing: a sorted input is already its own sort.
pub proof fn lemma_sorted_is_unique<T: TextKeyed>(x: Seq<T>, y: Seq<T>)
    requires
        strictly_sorted_by_key(x),
        strictly_sorted_by_key(y),
        x.to_multiset() == y.to_multiset(),
    ensures
        x == y,
    decreases x.len(),
{
    broadcast use vstd::seq_lib::group_to_multiset_ensures;
    if x.len() > 0 || y.len() > 0 {
        if x.len() == 0 {
            assert(y.to_multiset().count(y[0]) > 0);
        } else if y.len() == 0 {
            assert(x.to_multiset().count(x[0]) > 0);
        } else {
            // the first elements are the minima of equal multisets
            assert(x.to_multiset().count(y[0]) > 0);
            assert(y.to_multiset().count(x[0]) > 0);
            let i = choose|i: int| 0 <= i < x.len() && x[i] == y[0];
            let k = choose|k: int| 0 <= k < y.len() && y[k] == x[0];
            if i > 0 && k > 0 {
                lemma_seq_lt_asymmetric(x[0].text_key(), x[i].text_key());
            }
            if i > 0 && k == 0 {
                crate::text::lemma_seq_lt_irreflexive(x[0].text_key());
            }
            if i == 0 && k > 0 {
                crate::text::lemma_seq_lt_irreflexive(y[0].text_key());
            }
            assert(x[0] == y[0]);
            assert(x.drop_first().to_multiset() == x.to_multiset().remove(x[0])) by {
                assert(x.remove(0) == x.drop_first());
            }
            assert(y.drop_first().to_multiset() == y.to_multiset().remove(y[0])) by {
                assert(y.remove(0) == y.drop_first());
            }
            lemma_sorted_is_unique(x.drop_first(), y.drop_first());
            assert(x =~= seq![x[0]] + x.drop_first());
            assert(y =~= seq![y[0]] + y.drop_first());
        }
    }
}

/// Values with a three-way order: negative, zero or positive as the first
/// goes before, with, or after the second.
pub trait ThreeWay: Sized {
    spec fn order(&self, other: &Self) -> int;

    fn compare(&self, other: &Self) -> (r: i8)
        ensures
            r == self.order(other),
    ;

    /// Swapping the two negates their order.
    proof fn lemma_antisymmetric(a: &Self, b: &Self)
        ensures
            a.order(b) == -b.order(a),
    ;
}

/// Each value goes no later than the next.
pub open spec fn ordered_adjacent<T: ThreeWay>(s: Seq<T>) -> bool {
    forall|i: int| 0 <= i < s.len() - 1 ==> (#[trigger] s[i]).order(&s[i + 1]) <= 0
}

fn insert_ordered<T: ThreeWay>(out: &mut Vec<T>, e: T)
    requires
        ordered_adjacent(old(out)@),
    ensures
        ordered_adjacent(final(out)@),
        final(out)@.to_multiset() == old(out)@.to_multiset().insert(e),
{
    let mut k: usize = out.len();
    while k > 0 && out[k - 1].compare(&e) > 0
        invariant
            k <= out@.len(),
            out@ == old(out)@,
            k < out@.len() ==> out@[k as int].order(&e) > 0,
        decreases k,
    {
        k = k - 1;
    }
    let ghost before = out@;
    proof {
        if k < before.len() {
            T::lemma_antisymmetric(&before[k as int], &e);
        }
    }
    out.insert(k, e);
    proof {
        let after = out@;
        assert forall|i: int| 0 <= i < after.len() - 1 implies (#[trigger] after[i]).order(&after[i + 1]) <= 0 by {
            if i + 1 < k {
                assert(after[i] == before[i] && after[i + 1] == before[i + 1]);
            } else if i + 1 == k {
                assert(after[i] == before[i] && after[i + 1] == e);
            } else if i == k {
                assert(after[i] == e && after[i + 1] == before[i]);
            } else {
                assert(after[i] == before[i - 1] && after[i + 1] == before[i]);
            }
        }
        vstd::seq_lib::to_multiset_insert(before, k as int, e);
    }
}

/// Sorts by the three-way order: the result is a permutation of the input in
/// which each value goes no later than the next.
pub fn sort_three_way<T: ThreeWay>(v: Vec<T>) -> (r: Vec<T>)
    ensures
        ordered_adjacent(r@),
        r@.to_multiset() == v@.to_multiset(),
{
    let ghost all = v@;
    let mut rest = v;
    let mut out: Vec<T> = Vec::new();
    assert(out@.to_multiset() =~= Multiset::<T>::empty());
    while rest.len() > 0
        invariant
            ordered_adjacent(out@),
            out@.to_multiset().add(rest@.to_multiset()) == all.to_multiset(),
        decreases rest@.len(),
    {
        let ghost r0 = rest@;
        let e = rest.remove(0);
        let ghost o0 = out@;
        insert_ordered(&mut out, e);
        proof {
            broadcast use vstd::multiset::group_multiset_axioms;
            assert(r0.to_multiset() == rest@.to_multiset().insert(e)) by {
                assert(r0.remove(0).to_multiset() == r0.to_multiset().remove(r0[0]));
                assert(r0.to_multiset().count(e) > 0);
            }
            assert(out@.to_multiset().add(rest@.to_multiset()) =~= o0.to_multiset().add(r0.to_multiset()));
        }
    }
    assert(rest@.to_multiset() =~= Multiset::<T>::empty());
    assert(out@.to_multiset() =~= all.to_multiset());
    out
}

/// `perm` lists distinct positions of a sequence of length `n`, one for each
/// of its own entries.
pub open spec fn is_permutation(perm: Seq<int>, n: nat) -> bool {
    &&& perm.len() == n
    &&& forall|i: int| 0 <= i < perm.len() ==> 0 <= #[trigger] perm[i] < n
    &&& forall|i: int, j: int| 0 <= i < j < perm.len() ==> perm[i] != perm[j]
}

/// Entries ordered by key, ties by their original position.
pub open spec fn stably_ordered(perm: Seq<int>, keys: Seq<u64>) -> bool {
    forall|i: int, j: int|
        0 <= i < j < perm.len() ==> keys[#[trigger] perm[i]] < keys[#[trigger] perm[j]] || (
        keys[perm[i]] == keys[perm[j]] && perm[i] < perm[j])
}

/// Sorts by the key the function gives each value, keeping values of equal
/// keys in their input order: the result takes each input value once, at
/// the position `perm` says, and the keys, one the function can give for
/// each input value, never decrease, ties going by input position.
#[verifier::spinoff_prover]
#[verifier::rlimit(50)]
pub fn stable_sort_by_key<T, F: Fn(&T) -> u64>(values: &mut Vec<T>, key: F)
    requires
        forall|x: &T| #[trigger] key.requires((x,)),
    ensures
        exists|perm: Seq<int>, keys: Seq<u64>|
            {
                &&& is_permutation(perm, old(values)@.len())
                &&& keys.len() == old(values)@.len()
                &&& forall|i: int|
                    0 <= i < keys.len() ==> key.ensures((&old(values)@[i],), #[trigger] keys[i])
                &&& forall|i: int|
                    0 <= i < perm.len() ==> final(values)@[i] == old(values)@[#[trigger] perm[i]]
                &&& stably_ordered(perm, keys)
            },
{
    let ghost original = values@;
    let ghost n = original.len();
    let mut out: Vec<T> = Vec::new();
    let mut out_keys: Vec<u64> = Vec::new();
    let ghost mut perm: Seq<int> = Seq::empty();
    let ghost mut keys: Seq<u64> = Seq::empty();
    let mut taken: usize = 0;
    let count = values.len();
    assert(n == count);
    while values.len() > 0
        invariant
            forall|x: &T| #[trigger] key.requires((x,)),
            n == original.len(),
            n <= usize::MAX,
            taken as nat + values@.len() == n,
            values@ == original.skip(taken as int),
            keys.len() == taken,
            forall|i: int| 0 <= i < taken ==> key.ensures((&original[i],), #[trigger] keys[i]),
            out@.len() == taken,
            out_keys@.len() == taken,
            perm.len() == taken,
            forall|i: int| 0 <= i < perm.len() ==> 0 <= #[trigger] perm[i] < taken,
            forall|i: int, j: int| 0 <= i < j < perm.len() ==> perm[i] != perm[j],
            forall|i: int| 0 <= i < perm.len() ==> out@[i] == original[#[trigger] perm[i]],
            forall|i: int| 0 <= i < perm.len() ==> out_keys@[i] == keys[#[trigger] perm[i]],
            stably_ordered(perm, keys),
        decreases values@.len(),
    {
        let ghost before_values = values@;
        let x = values.remove(0);
        assert(x == original[taken as int]) by {
            assert(before_values[0] == original.skip(taken as int)[0]);
        }
        let k = key(&x);
        proof {
            assert(values@ =~= original.skip(taken + 1));
        }
        let mut j: usize = 0;
        while j < out_keys.len() && out_keys[j] <= k
            invariant
                j <= out_keys@.len(),
                forall|m: int| 0 <= m < j ==> out_keys@[m] <= k,
            decreases out_keys@.len() - j,
        {
            j = j + 1;
        }
        let ghost old_perm = perm;
        let ghost old_keys = keys;
        let ghost old_out = out@;
        let ghost old_out_keys = out_keys@;
        out.insert(j, x);
        out_keys.insert(j, k);
        proof {
            keys = keys.push(k);
            perm = perm.insert(j as int, taken as int);
            assert forall|i: int| 0 <= i < perm.len() implies 0 <= #[trigger] perm[i] < taken + 1 by {
                if i < j {
                    assert(perm[i] == old_perm[i]);
                } else if i > j {
                    assert(perm[i] == old_perm[i - 1]);
                }
            }
            assert forall|a: int, b: int| 0 <= a < b < perm.len() implies perm[a] != perm[b] by {
                if a < j && b > j {
                    assert(perm[a] == old_perm[a] && perm[b] == old_perm[b - 1]);
                } else if a > j {
                    assert(perm[a] == old_perm[a - 1] && perm[b] == old_perm[b - 1]);
                } else if b < j {
                    assert(perm[a] == old_perm[a] && perm[b] == old_perm[b]);
                } else if a == j {
                    assert(perm[b] == old_perm[b - 1]);
                } else {
                    assert(perm[a] == old_perm[a]);
                }
            }
            assert forall|i: int| 0 <= i < perm.len() implies out@[i] == original[#[trigger] perm[i]]
                by {
                if i < j {
                    assert(out@[i] == old_out[i] && perm[i] == old_perm[i]);
                } else if i > j {
                    assert(out@[i] == old_out[i - 1] && perm[i] == old_perm[i - 1]);
                }
            }
            assert forall|i: int| 0 <= i < taken + 1 implies key.ensures(
                (&original[i],),
                #[trigger] keys[i],
            ) by {
                if i < taken {
                    assert(keys[i] == old_keys[i]);
                }
            }
            assert forall|i: int| 0 <= i < perm.len() implies out_keys@[i] == keys[
                #[trigger] perm[i]
            ] by {
                if i < j {
                    assert(out_keys@[i] == old_out_keys[i] && perm[i] == old_perm[i]);
                    assert(keys[old_perm[i]] == old_keys[old_perm[i]]);
                } else if i > j {
                    assert(out_keys@[i] == old_out_keys[i - 1] && perm[i] == old_perm[i - 1]);
                    assert(keys[old_perm[i - 1]] == old_keys[old_perm[i - 1]]);
                }
            }
            assert forall|a: int, b: int| 0 <= a < b < perm.len() implies keys[#[trigger] perm[a]]
                < keys[#[trigger] perm[b]] || (keys[perm[a]] == keys[perm[b]] && perm[a] < perm[b])
                by {
                assert(out_keys@[a] == keys[perm[a]]);
                assert(out_keys@[b] == keys[perm[b]]);
                if a < j && b < j {
                    assert(perm[a] == old_perm[a] && perm[b] == old_perm[b]);
                } else if a > j && b > j {
                    assert(perm[a] == old_perm[a - 1] && perm[b] == old_perm[b - 1]);
                } else if a < j && b > j {
                    assert(perm[a] == old_perm[a] && perm[b] == old_perm[b - 1]);
                } else if a < j && b == j {
                    assert(perm[a] == old_perm[a]);
                    assert(old_out_keys[a] <= k);
                } else {
                    assert(perm[b] == old_perm[b - 1]);
                    assert(old_out_keys[b - 1] > k);
                }
            }
        }
        taken = taken + 1;
    }
    proof {
        assert(taken == n);
    }
    *values = out;
}

} // verus!
