//! The referents of one sort, in a deterministic order.
use vstd::prelude::*;

use crate::kernel::declared::{DeclaredModel, ReferentDeclaration, ReferentSortId};
use crate::kernel::id::ReferentId;

verus! {

broadcast use vstd::seq_lib::group_to_multiset_ensures;

/// The identifier's bytes read as a big-endian number: the order of these
/// numbers is the lexicographic order of the bytes.
pub open spec fn be_value(b: Seq<u8>) -> nat
    decreases b.len(),
{
    if b.len() == 0 {
        0
    } else {
        be_value(b.drop_last()) * 256 + b.last() as nat
    }
}

/// 256 to the power `n`.
pub open spec fn exp256(n: nat) -> nat
    decreases n,
{
    if n == 0 {
        1
    } else {
        exp256((n - 1) as nat) * 256
    }
}

proof fn lemma_exp256_monotone(i: nat, j: nat)
    requires
        i <= j,
    ensures
        exp256(i) <= exp256(j),
    decreases j,
{
    if i < j {
        lemma_exp256_monotone(i, (j - 1) as nat);
    }
}

proof fn lemma_be_value_bound(b: Seq<u8>)
    ensures
        be_value(b) < exp256(b.len()),
    decreases b.len(),
{
    if b.len() > 0 {
        lemma_be_value_bound(b.drop_last());
        let p = exp256((b.len() - 1) as nat);
        let v = be_value(b.drop_last());
        assert(v * 256 + b.last() < p * 256) by (nonlinear_arith)
            requires
                v < p,
                b.last() < 256,
        ;
    }
}

/// The sort key of an identifier.
pub fn id_key(id: &ReferentId) -> (r: u128)
    ensures
        r == be_value(id.0@),
{
    let mut acc: u128 = 0;
    let mut i: usize = 0;
    proof {
        reveal_with_fuel(exp256, 17);
        assert(exp256(16) == 0x1_0000_0000_0000_0000_0000_0000_0000_0000);
    }
    while i < 16
        invariant
            i <= 16,
            id.0@.len() == 16,
            acc == be_value(id.0@.take(i as int)),
            exp256(16) == 0x1_0000_0000_0000_0000_0000_0000_0000_0000,
        decreases 16 - i,
    {
        proof {
            assert(id.0@.take(i + 1).drop_last() =~= id.0@.take(i as int));
            lemma_be_value_bound(id.0@.take(i + 1));
            lemma_exp256_monotone((i + 1) as nat, 16);
        }
        acc = acc * 256 + id.0[i] as u128;
        i = i + 1;
    }
    assert(id.0@.take(16) =~= id.0@);
    acc
}

/// Identifiers in nondecreasing order of their bytes.
pub open spec fn ids_sorted(s: Seq<ReferentId>) -> bool {
    forall|i: int, j: int| 0 <= i < j < s.len() ==> be_value(s[i].0@) <= be_value(s[j].0@)
}

/// The identifiers of the referents of one sort, in declaration order.
pub open spec fn ids_of_sort(referents: Seq<ReferentDeclaration>, sort: ReferentSortId) -> Seq<ReferentId>
    decreases referents.len(),
{
    if referents.len() == 0 {
        Seq::empty()
    } else {
        let rest = ids_of_sort(referents.drop_last(), sort);
        if referents.last().sort == sort {
            rest.push(referents.last().id)
        } else {
            rest
        }
    }
}

/// Sorts identifiers by their bytes, keeping the input order of equal ones.
fn sort_ids(v: &mut Vec<ReferentId>)
    ensures
        ids_sorted(final(v)@),
        final(v)@.to_multiset() == old(v)@.to_multiset(),
{
    let ghost original = v@;
    let mut out: Vec<ReferentId> = Vec::new();
    while v.len() > 0
        invariant
            ids_sorted(out@),
            out@.to_multiset().add(v@.to_multiset()) == original.to_multiset(),
        decreases v@.len(),
    {
        let ghost before_v = v@;
        let ghost before_out = out@;
        let x = v.remove(0);
        let key = id_key(&x);
        let mut j: usize = 0;
        while j < out.len() && id_key(&out[j]) <= key
            invariant
                j <= out@.len(),
                out@ == before_out,
                ids_sorted(out@),
                forall|k: int| 0 <= k < j ==> be_value((#[trigger] out@[k]).0@) <= key,
            decreases out@.len() - j,
        {
            j = j + 1;
        }
        out.insert(j, x);
        proof {
            assert(before_v.remove(0) == v@);
            assert(out@ == before_out.insert(j as int, x));
            assert(before_v.to_multiset() == v@.to_multiset().insert(x)) by {
                assert(before_v.remove(0).to_multiset() == before_v.to_multiset().remove(
                    before_v[0],
                ));
                assert(before_v.to_multiset().count(x) > 0);
            }
            assert(out@.to_multiset().add(v@.to_multiset()) =~= original.to_multiset());
            assert forall|a: int, b: int| 0 <= a < b < out@.len() implies be_value(out@[a].0@)
                <= be_value(out@[b].0@) by {
                if a < j && b == j {
                } else if a == j && b > j {
                    assert(out@[b] == before_out[b - 1]);
                    if j < before_out.len() {
                        assert(be_value(before_out[j as int].0@) > key);
                        assert(be_value(before_out[j as int].0@) <= be_value(before_out[b - 1].0@));
                    }
                } else if a < j && b > j {
                    assert(out@[b] == before_out[b - 1]);
                } else if a > j {
                    assert(out@[a] == before_out[a - 1]);
                    assert(out@[b] == before_out[b - 1]);
                }
            }
        }
    }
    assert(v@.to_multiset() =~= vstd::multiset::Multiset::<ReferentId>::empty());
    *v = out;
}

/// Deterministic carrier for one referent sort.
#[derive(Debug, Clone, PartialEq, Eq)]
pub struct Carrier {
    referent_sort: ReferentSortId,
    referent_ids: Vec<ReferentId>,
}

impl Carrier {
    pub closed spec fn sort(self) -> ReferentSortId {
        self.referent_sort
    }

    pub closed spec fn ids(self) -> Seq<ReferentId> {
        self.referent_ids@
    }

    /// The identifiers of the model's referents of the sort, ordered by their
    /// bytes (equal ones keep declaration order).
    pub fn from_declared_model(model: &DeclaredModel, referent_sort: ReferentSortId) -> (r: Self)
        ensures
            r.sort() == referent_sort,
            ids_sorted(r.ids()),
            r.ids().to_multiset() == ids_of_sort(model.referents@, referent_sort).to_multiset(),
    {
        let mut referent_ids: Vec<ReferentId> = Vec::new();
        let mut i: usize = 0;
        while i < model.referents.len()
            invariant
                i <= model.referents@.len(),
                referent_ids@ == ids_of_sort(model.referents@.take(i as int), referent_sort),
            decreases model.referents@.len() - i,
        {
            proof {
                assert(model.referents@.take(i + 1).drop_last() =~= model.referents@.take(i as int));
            }
            if model.referents[i].sort == referent_sort {
                referent_ids.push(model.referents[i].id);
            }
            i = i + 1;
        }
        assert(model.referents@.take(model.referents@.len() as int) =~= model.referents@);
        sort_ids(&mut referent_ids);
        Carrier { referent_sort, referent_ids }
    }

    pub fn referent_sort(&self) -> (r: ReferentSortId)
        ensures
            r == self.sort(),
    {
        self.referent_sort
    }

    pub fn referent_ids(&self) -> (r: &[ReferentId])
        ensures
            r@ == self.ids(),
    {
        self.referent_ids.as_slice()
    }
}

} // verus!
