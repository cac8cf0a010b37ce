//! Normalization of textual values and collections.
use vstd::prelude::*;

use crate::canon::ordering::{sort_strings, sorted_by_key, strictly_sorted_by_key, TextKeyed};
use crate::text::{owned, seq_le, seq_lt, str_eq};

verus! {

broadcast use vstd::seq_lib::group_to_multiset_ensures;

/// Canonical representation of normalized textual input.
#[derive(Debug, Clone, PartialEq, Eq, Hash, PartialOrd, Ord)]
pub struct NormalizedText(pub String);

impl NormalizedText {
    pub fn new(value: &str) -> (r: Self)
        ensures
            r.0@ == value@,
    {
        NormalizedText(owned(value))
    }

    pub fn as_str(&self) -> (r: &str)
        ensures
            r@ == self.0@,
    {
        self.0.as_str()
    }
}

/// The elements of a sequence as a set.
pub open spec fn elements(s: Seq<String>) -> Set<Seq<char>> {
    Set::new(|x: Seq<char>| exists|i: int| 0 <= i < s.len() && s[i]@ == x)
}

/// Appending an element adds its text to the elements.
proof fn lemma_elements_push(s: Seq<String>, x: String)
    ensures
        elements(s.push(x)) == elements(s).insert(x@),
{
    assert forall|y: Seq<char>| elements(s.push(x)).contains(y) implies elements(s).insert(
        x@,
    ).contains(y) by {
        let i = choose|i: int| 0 <= i < s.push(x).len() && s.push(x)[i]@ == y;
        if i < s.len() {
            assert(s[i]@ == y);
        }
    }
    assert forall|y: Seq<char>| elements(s).insert(x@).contains(y) implies elements(
        s.push(x),
    ).contains(y) by {
        if y == x@ {
            assert(s.push(x)[s.len() as int]@ == y);
        } else {
            let i = choose|i: int| 0 <= i < s.len() && s[i]@ == y;
            assert(s.push(x)[i]@ == y);
        }
    }
    assert(elements(s.push(x)) =~= elements(s).insert(x@));
}

/// Drops adjacent repeats from a sorted vector.
fn dedup_sorted(v: Vec<String>) -> (r: Vec<String>)
    requires
        sorted_by_key(v@),
    ensures
        strictly_sorted_by_key(r@),
        elements(r@) == elements(v@),
{
    let mut r: Vec<String> = Vec::new();
    let mut i: usize = 0;
    proof {
        assert(elements(r@) =~= elements(v@.take(0)));
    }
    while i < v.len()
        invariant
            i <= v@.len(),
            sorted_by_key(v@),
            strictly_sorted_by_key(r@),
            r@.len() > 0 ==> i > 0 && r@.last()@ == v@[i - 1]@,
            r@.len() == 0 ==> i == 0,
            elements(r@) == elements(v@.take(i as int)),
        decreases v@.len() - i,
    {
        let keep = if r.len() == 0 {
            true
        } else {
            let last = r.len() - 1;
            !str_eq(r[last].as_str(), v[i].as_str())
        };
        let ghost old_r = r@;
        proof {
            assert(v@.take(i + 1) == v@.take(i as int).push(v@[i as int]));
            lemma_elements_push(v@.take(i as int), v@[i as int]);
        }
        if keep {
            let s = v[i].clone();
            proof {
                if old_r.len() > 0 {
                    let last = old_r.len() - 1;
                    assert(seq_le(v@[i - 1].text_key(), v@[i as int].text_key()));
                    assert forall|k: int| 0 <= k < old_r.len() implies seq_lt(
                        #[trigger] old_r[k]@,
                        s@,
                    ) by {
                        if k < last {
                            assert(seq_lt(old_r[k].text_key(), old_r[last].text_key()));
                            crate::text::lemma_seq_lt_transitive(old_r[k]@, old_r[last]@, s@);
                        }
                    }
                }
                lemma_elements_push(old_r, s);
            }
            r.push(s);
            proof {
                assert forall|a: int, b: int| 0 <= a < b < r@.len() implies seq_lt(
                    r@[a].text_key(),
                    r@[b].text_key(),
                ) by {
                    assert(r@[a] == old_r[a]);
                    if b < old_r.len() {
                        assert(r@[b] == old_r[b]);
                    }
                }
            }
        } else {
            proof {
                assert(elements(old_r).contains(v@[i as int]@)) by {
                    assert(old_r[old_r.len() - 1]@ == v@[i as int]@);
                }
                assert(elements(old_r).insert(v@[i as int]@) =~= elements(old_r));
            }
        }
        i = i + 1;
    }
    proof {
        assert(v@.take(v@.len() as int) == v@);
    }
    r
}

/// The texts of a sequence of strings, in order.
pub open spec fn texts(s: Seq<String>) -> Seq<Seq<char>> {
    s.map_values(|x: String| x@)
}

/// Normalizes an unordered collection: the result holds each distinct input
/// text once, in strictly increasing lexicographic order.
pub fn normalize_unordered(values: Vec<String>) -> (r: Vec<String>)
    ensures
        strictly_sorted_by_key(r@),
        elements(r@) == elements(values@),
{
    let mut normalized = values;
    let ghost original = normalized@;
    sort_strings(&mut normalized);
    proof {
        lemma_multiset_elements(normalized@, original);
    }
    dedup_sorted(normalized)
}

/// Sequences with the same multiset hold the same texts.
proof fn lemma_multiset_elements(a: Seq<String>, b: Seq<String>)
    requires
        a.to_multiset() == b.to_multiset(),
    ensures
        elements(a) == elements(b),
{
    assert forall|x: Seq<char>| elements(a).contains(x) implies elements(b).contains(x) by {
        let i = choose|i: int| 0 <= i < a.len() && a[i]@ == x;
        assert(a.to_multiset().count(a[i]) > 0);
        assert(b.contains(a[i]));
        let k = choose|k: int| 0 <= k < b.len() && b[k] == a[i];
    }
    assert forall|x: Seq<char>| elements(b).contains(x) implies elements(a).contains(x) by {
        let i = choose|i: int| 0 <= i < b.len() && b[i]@ == x;
        assert(b.to_multiset().count(b[i]) > 0);
        assert(a.contains(b[i]));
        let k = choose|k: int| 0 <= k < a.len() && a[k] == b[i];
    }
    assert(elements(a) =~= elements(b));
}

/// Normalizing an unordered collection does not depend on the order, nor on
/// the repeats, of its input: two strictly ordered results that hold the same
/// texts are the same texts in the same order.
pub proof fn lemma_normalized_unordered_is_canonical(x: Seq<String>, y: Seq<String>)
    requires
        strictly_sorted_by_key(x),
        strictly_sorted_by_key(y),
        elements(x) == elements(y),
    ensures
        texts(x) == texts(y),
    decreases x.len() + y.len(),
{
    if x.len() == 0 && y.len() == 0 {
        assert(texts(x) =~= texts(y));
    } else if x.len() == 0 {
        assert(elements(y).contains(y[0]@));
    } else if y.len() == 0 {
        assert(elements(x).contains(x[0]@));
    } else {
        assert(elements(x).contains(y[0]@));
        assert(elements(y).contains(x[0]@));
        let i = choose|i: int| 0 <= i < x.len() && x[i]@ == y[0]@;
        let k = choose|k: int| 0 <= k < y.len() && y[k]@ == x[0]@;
        if i > 0 && k > 0 {
            assert(seq_lt(x[0].text_key(), x[i].text_key()));
            assert(seq_lt(y[0].text_key(), y[k].text_key()));
            crate::text::lemma_seq_lt_asymmetric(x[0]@, y[0]@);
        }
        if i > 0 && k == 0 {
            assert(seq_lt(x[0].text_key(), x[i].text_key()));
            crate::text::lemma_seq_lt_irreflexive(x[0]@);
        }
        if i == 0 && k > 0 {
            assert(seq_lt(y[0].text_key(), y[k].text_key()));
            crate::text::lemma_seq_lt_irreflexive(y[0]@);
        }
        assert(x[0]@ == y[0]@);
        let xs = x.drop_first();
        let ys = y.drop_first();
        assert forall|t: Seq<char>| elements(xs).contains(t) implies elements(ys).contains(t) by {
            let a = choose|a: int| 0 <= a < xs.len() && xs[a]@ == t;
            assert(x[a + 1]@ == t);
            assert(seq_lt(x[0].text_key(), x[a + 1].text_key()));
            assert(elements(y).contains(t));
            let b = choose|b: int| 0 <= b < y.len() && y[b]@ == t;
            if b == 0 {
                crate::text::lemma_seq_lt_irreflexive(x[0]@);
            }
            assert(ys[b - 1]@ == t);
        }
        assert forall|t: Seq<char>| elements(ys).contains(t) implies elements(xs).contains(t) by {
            let a = choose|a: int| 0 <= a < ys.len() && ys[a]@ == t;
            assert(y[a + 1]@ == t);
            assert(seq_lt(y[0].text_key(), y[a + 1].text_key()));
            assert(elements(x).contains(t));
            let b = choose|b: int| 0 <= b < x.len() && x[b]@ == t;
            if b == 0 {
                crate::text::lemma_seq_lt_irreflexive(y[0]@);
            }
            assert(xs[b - 1]@ == t);
        }
        assert(elements(xs) =~= elements(ys));
        assert(strictly_sorted_by_key(xs)) by {
            assert forall|a: int, b: int| 0 <= a < b < xs.len() implies seq_lt(
                xs[a].text_key(),
                xs[b].text_key(),
            ) by {
                assert(seq_lt(x[a + 1].text_key(), x[b + 1].text_key()));
            }
        }
        assert(strictly_sorted_by_key(ys)) by {
            assert forall|a: int, b: int| 0 <= a < b < ys.len() implies seq_lt(
                ys[a].text_key(),
                ys[b].text_key(),
            ) by {
                assert(seq_lt(y[a + 1].text_key(), y[b + 1].text_key()));
            }
        }
        lemma_normalized_unordered_is_canonical(xs, ys);
        assert(texts(x) =~= seq![x[0]@] + texts(xs));
        assert(texts(y) =~= seq![y[0]@] + texts(ys));
    }
}

/// Normalizes an ordered collection by preserving input order.
pub fn normalize_ordered<T>(values: Vec<T>) -> (r: Vec<T>)
    ensures
        r@ == values@,
{
    values
}

/// Ordered collection validation failures.
#[derive(Debug, Clone, Copy, PartialEq, Eq, Hash, Structural)]
pub enum OrderedValidationError {
    LengthMismatch,
    ReorderedAt(usize),
}

/// Validates that normalized values preserve exactly the original order: a
/// length mismatch first, else the first position whose texts differ.
pub fn validate_preserved_order(original: &[&str], normalized: &[&str]) -> (r: Result<
    (),
    OrderedValidationError,
>)
    ensures
        original@.len() != normalized@.len() <==> r == Err::<(), _>(
            OrderedValidationError::LengthMismatch,
        ),
        r is Ok <==> original@.len() == normalized@.len() && forall|i: int|
            0 <= i < original@.len() ==> #[trigger] original@[i]@ == normalized@[i]@,
        forall|i: usize|
            r == Err::<(), _>(OrderedValidationError::ReorderedAt(i)) ==> {
                &&& original@.len() == normalized@.len()
                &&& i < original@.len()
                &&& original@[i as int]@ != normalized@[i as int]@
                &&& forall|k: int| 0 <= k < i ==> #[trigger] original@[k]@ == normalized@[k]@
            },
{
    if original.len() != normalized.len() {
        return Err(OrderedValidationError::LengthMismatch);
    }
    let mut i: usize = 0;
    while i < original.len()
        invariant
            i <= original@.len(),
            original@.len() == normalized@.len(),
            forall|k: int| 0 <= k < i ==> #[trigger] original@[k]@ == normalized@[k]@,
        decreases original@.len() - i,
    {
        if !str_eq(original[i], normalized[i]) {
            return Err(OrderedValidationError::ReorderedAt(i));
        }
        i = i + 1;
    }
    Ok(())
}

/// Explicit wrapper for optional values.
///
/// `Unspecified` means the field was omitted, while `ExplicitNone` and
/// `ExplicitSome` represent explicit declaration.
#[derive(Debug, Clone, PartialEq, Eq, Hash, PartialOrd, Ord)]
pub enum ExplicitOption<T> {
    Unspecified,
    ExplicitNone,
    ExplicitSome(T),
}

impl<T> ExplicitOption<T> {
    pub fn unspecified() -> (r: Self)
        ensures
            r is Unspecified,
    {
        ExplicitOption::Unspecified
    }

    pub fn explicit_none() -> (r: Self)
        ensures
            r is ExplicitNone,
    {
        ExplicitOption::ExplicitNone
    }

    pub fn explicit_some(value: T) -> (r: Self)
        ensures
            r == ExplicitOption::ExplicitSome(value),
    {
        ExplicitOption::ExplicitSome(value)
    }

    /// `Some` becomes an explicit value, `None` an explicit absence.
    pub fn from_option(value: Option<T>) -> (r: Self)
        ensures
            match value {
                Some(inner) => r == ExplicitOption::ExplicitSome(inner),
                None => r is ExplicitNone,
            },
    {
        match value {
            Some(inner) => ExplicitOption::ExplicitSome(inner),
            None => ExplicitOption::ExplicitNone,
        }
    }

    pub fn is_explicit(&self) -> (r: bool)
        ensures
            r == !(self is Unspecified),
    {
        !matches!(self, ExplicitOption::Unspecified)
    }

    pub fn is_some(&self) -> (r: bool)
        ensures
            r == (self is ExplicitSome),
    {
        matches!(self, ExplicitOption::ExplicitSome(_))
    }

    pub fn is_none(&self) -> (r: bool)
        ensures
            r == (self is ExplicitNone),
    {
        matches!(self, ExplicitOption::ExplicitNone)
    }

    /// The value when one was declared; an omission and an explicit absence
    /// both give `None`.
    pub fn into_option(self) -> (r: Option<T>)
        ensures
            match self {
                ExplicitOption::ExplicitSome(v) => r == Some(v),
                _ => r is None,
            },
    {
        match self {
            ExplicitOption::ExplicitSome(value) => Some(value),
            _ => None,
        }
    }
}

} // verus!
