//! Tri-state membership of referents in a typed scope.
use vstd::prelude::*;

use crate::kernel::declared::{CanonicalName, MembershipPredicate};
use crate::kernel::id::{PredicateId, ReferentId};

verus! {

/// Explicit tri-state membership semantics.
#[derive(Debug, Clone, Copy, PartialEq, Eq, Hash, Structural)]
pub enum Membership {
    Member,
    NonMember,
    Unknown,
}

/// Context used to evaluate membership for one referent.
#[derive(Debug, Clone)]
pub struct ReferentContext<'a> {
    pub referent_id: ReferentId,
    pub name: Option<&'a CanonicalName>,
    pub tags: Option<&'a [CanonicalName]>,
    pub predicate_refs: Option<&'a [PredicateId]>,
}

impl<'a> ReferentContext<'a> {
    pub fn new(
        referent_id: ReferentId,
        name: Option<&'a CanonicalName>,
        tags: Option<&'a [CanonicalName]>,
        predicate_refs: Option<&'a [PredicateId]>,
    ) -> (r: Self)
        ensures
            r.referent_id == referent_id,
            r.name == name,
            r.tags == tags,
            r.predicate_refs == predicate_refs,
    {
        ReferentContext { referent_id, name, tags, predicate_refs }
    }

    pub fn referent_id(&self) -> (r: ReferentId)
        ensures
            r == self.referent_id,
    {
        self.referent_id
    }
}

/// Membership output for one carrier referent.
#[derive(Debug, Clone, Copy, PartialEq, Eq, Hash)]
pub struct MembershipSelection {
    pub referent_id: ReferentId,
    pub membership: Membership,
}

impl MembershipSelection {
    pub fn new(referent_id: ReferentId, membership: Membership) -> (r: Self)
        ensures
            r.referent_id == referent_id,
            r.membership == membership,
    {
        MembershipSelection { referent_id, membership }
    }

    pub fn referent_id(self) -> (r: ReferentId)
        ensures
            r == self.referent_id,
    {
        self.referent_id
    }

    pub fn membership(self) -> (r: Membership)
        ensures
            r == self.membership,
    {
        self.membership
    }
}

/// Member or non-member as a condition holds, known.
pub open spec fn known(member: bool) -> Membership {
    if member {
        Membership::Member
    } else {
        Membership::NonMember
    }
}

/// The membership a predicate gives a referent: `All` admits every referent;
/// the other predicates need the evidence they read (the context, and in it
/// the tags, the name or the predicate references), and are unknown without
/// it.
pub open spec fn membership_of(
    predicate: MembershipPredicate,
    context: Option<ReferentContext<'_>>,
) -> Membership {
    match predicate {
        MembershipPredicate::All => Membership::Member,
        MembershipPredicate::HasTag(expected) => match context {
            None => Membership::Unknown,
            Some(c) => match c.tags {
                None => Membership::Unknown,
                Some(tags) => known(exists|i: int| 0 <= i < tags@.len() && tags@[i]@ == expected@),
            },
        },
        MembershipPredicate::NameEquals(expected) => match context {
            None => Membership::Unknown,
            Some(c) => match c.name {
                None => Membership::Unknown,
                Some(name) => known(name@ == expected@),
            },
        },
        MembershipPredicate::PredicateRef(expected) => match context {
            None => Membership::Unknown,
            Some(c) => match c.predicate_refs {
                None => Membership::Unknown,
                Some(refs) => known(exists|i: int| 0 <= i < refs@.len() && refs@[i] == expected),
            },
        },
    }
}

/// A name predicate on a referent whose name is known decides membership by
/// the name alone: member exactly when the name's text is the expected
/// text, non-member otherwise; without the context or the name it is
/// unknown.
pub proof fn lemma_name_equals_decides_by_name<'a>(
    expected: CanonicalName,
    context: Option<ReferentContext<'a>>,
)
    ensures
        match context {
            Some(c) => match c.name {
                Some(name) => (membership_of(MembershipPredicate::NameEquals(expected), context)
                    == Membership::Member) == (name@ == expected@) && membership_of(
                    MembershipPredicate::NameEquals(expected),
                    context,
                ) != Membership::Unknown,
                None => membership_of(MembershipPredicate::NameEquals(expected), context)
                    == Membership::Unknown,
            },
            None => membership_of(MembershipPredicate::NameEquals(expected), context)
                == Membership::Unknown,
        },
{
}

/// A tag predicate on a referent whose tags are known is member exactly when
/// one of the tags has the expected text, and non-member otherwise.
pub proof fn lemma_has_tag_decides_by_tags<'a>(
    expected: CanonicalName,
    c: ReferentContext<'a>,
    i: int,
)
    requires
        c.tags is Some,
    ensures
        0 <= i < c.tags->0@.len() && c.tags->0@[i]@ == expected@ ==> membership_of(
            MembershipPredicate::HasTag(expected),
            Some(c),
        ) == Membership::Member,
        (forall|k: int| 0 <= k < c.tags->0@.len() ==> c.tags->0@[k]@ != expected@) ==> membership_of(
            MembershipPredicate::HasTag(expected),
            Some(c),
        ) == Membership::NonMember,
{
}

/// A predicate-reference predicate on a referent whose references are known
/// is member exactly when one of them is the expected reference.
pub proof fn lemma_predicate_ref_decides_by_refs<'a>(
    expected: PredicateId,
    c: ReferentContext<'a>,
    i: int,
)
    requires
        c.predicate_refs is Some,
    ensures
        0 <= i < c.predicate_refs->0@.len() && c.predicate_refs->0@[i] == expected ==> membership_of(
            MembershipPredicate::PredicateRef(expected),
            Some(c),
        ) == Membership::Member,
        (forall|k: int| 0 <= k < c.predicate_refs->0@.len() ==> c.predicate_refs->0@[k] != expected)
            ==> membership_of(MembershipPredicate::PredicateRef(expected), Some(c))
            == Membership::NonMember,
{
}

/// Membership of one referent under the predicate.
pub fn evaluate_membership(
    predicate: &MembershipPredicate,
    context: Option<&ReferentContext<'_>>,
) -> (r: Membership)
    ensures
        r == membership_of(
            *predicate,
            match context {
                Some(c) => Some(*c),
                None => None,
            },
        ),
{
    match predicate {
        MembershipPredicate::All => Membership::Member,
        MembershipPredicate::HasTag(expected_tag) => {
            let ctx = match context {
                Some(c) => c,
                None => {
                    return Membership::Unknown;
                },
            };
            let tags = match ctx.tags {
                Some(t) => t,
                None => {
                    return Membership::Unknown;
                },
            };
            let mut i: usize = 0;
            while i < tags.len()
                invariant
                    i <= tags@.len(),
                    context == Some(ctx),
                    ctx.tags == Some(tags),
                    *predicate == MembershipPredicate::HasTag(*expected_tag),
                    forall|k: int| 0 <= k < i ==> tags@[k]@ != expected_tag@,
                decreases tags@.len() - i,
            {
                if tags[i].same_text(expected_tag) {
                    assert(tags@[i as int]@ == expected_tag@);
                    assert(exists|j: int| 0 <= j < tags@.len() && tags@[j]@ == expected_tag@);
                    assert(membership_of(*predicate, Some(*ctx)) == Membership::Member);
                    return Membership::Member;
                }
                i = i + 1;
            }
            Membership::NonMember
        },
        MembershipPredicate::NameEquals(expected_name) => {
            let ctx = match context {
                Some(c) => c,
                None => {
                    return Membership::Unknown;
                },
            };
            match ctx.name {
                Some(name) => if name.same_text(expected_name) {
                    Membership::Member
                } else {
                    Membership::NonMember
                },
                None => Membership::Unknown,
            }
        },
        MembershipPredicate::PredicateRef(expected_predicate) => {
            let ctx = match context {
                Some(c) => c,
                None => {
                    return Membership::Unknown;
                },
            };
            let refs = match ctx.predicate_refs {
                Some(p) => p,
                None => {
                    return Membership::Unknown;
                },
            };
            let mut i: usize = 0;
            while i < refs.len()
                invariant
                    i <= refs@.len(),
                    context == Some(ctx),
                    ctx.predicate_refs == Some(refs),
                    *predicate == MembershipPredicate::PredicateRef(*expected_predicate),
                    forall|k: int| 0 <= k < i ==> refs@[k] != *expected_predicate,
                decreases refs@.len() - i,
            {
                if refs[i].same(expected_predicate) {
                    assert(refs@[i as int] == *expected_predicate);
                    assert(exists|j: int| 0 <= j < refs@.len() && refs@[j] == *expected_predicate);
                    assert(membership_of(*predicate, Some(*ctx)) == Membership::Member);
                    return Membership::Member;
                }
                i = i + 1;
            }
            Membership::NonMember
        },
    }
}

/// The first context about the referent.
pub open spec fn first_context<'a>(contexts: Seq<ReferentContext<'a>>, id: ReferentId) -> Option<
    ReferentContext<'a>,
>
    decreases contexts.len(),
{
    if contexts.len() == 0 {
        None
    } else if contexts[0].referent_id == id {
        Some(contexts[0])
    } else {
        first_context(contexts.drop_first(), id)
    }
}

/// `first_context` finds the context at the lowest position that is about
/// the referent, and nothing when no context is about it.
pub proof fn lemma_first_context_is_first<'a>(contexts: Seq<ReferentContext<'a>>, id: ReferentId)
    ensures
        match first_context(contexts, id) {
            None => forall|k: int|
                0 <= k < contexts.len() ==> (#[trigger] contexts[k]).referent_id != id,
            Some(c) => exists|k: int|
                0 <= k < contexts.len() && #[trigger] contexts[k] == c && c.referent_id == id
                    && forall|m: int| 0 <= m < k ==> (#[trigger] contexts[m]).referent_id != id,
        },
    decreases contexts.len(),
{
    if contexts.len() > 0 {
        let rest = contexts.drop_first();
        lemma_first_context_is_first(rest, id);
        if contexts[0].referent_id == id {
            assert(contexts[0] == contexts[0]);
        } else {
            match first_context(rest, id) {
                None => {
                    assert forall|k: int| 0 <= k < contexts.len() implies (
                    #[trigger] contexts[k]).referent_id != id by {
                        if k > 0 {
                            assert(contexts[k] == rest[k - 1]);
                        }
                    }
                },
                Some(c) => {
                    let k = choose|k: int|
                        0 <= k < rest.len() && #[trigger] rest[k] == c && c.referent_id == id
                            && forall|m: int| 0 <= m < k ==> (#[trigger] rest[m]).referent_id != id;
                    assert(contexts[k + 1] == c);
                    assert forall|m: int| 0 <= m < k + 1 implies (
                    #[trigger] contexts[m]).referent_id != id by {
                        if m > 0 {
                            assert(contexts[m] == rest[m - 1]);
                        }
                    }
                },
            }
        }
    }
}

/// Position of the first context about the referent.
fn find_context(contexts: &[ReferentContext<'_>], id: &ReferentId) -> (r: Option<usize>)
    ensures
        r matches Some(k) ==> k < contexts@.len() && first_context(contexts@, *id) == Some(
            contexts@[k as int],
        ),
        r is None ==> first_context(contexts@, *id) is None,
{
    let mut k: usize = 0;
    assert(contexts@.skip(0) =~= contexts@);
    while k < contexts.len()
        invariant
            k <= contexts@.len(),
            first_context(contexts@, *id) == first_context(contexts@.skip(k as int), *id),
        decreases contexts@.len() - k,
    {
        assert(contexts@.skip(k as int)[0] == contexts@[k as int]);
        if contexts[k].referent_id.same(id) {
            return Some(k);
        }
        assert(contexts@.skip(k as int).drop_first() =~= contexts@.skip(k + 1));
        k = k + 1;
    }
    None
}

/// Membership of each carrier referent, in carrier order, from the first
/// context about it.
pub fn evaluate_membership_for_carrier(
    predicate: &MembershipPredicate,
    carrier_referent_ids: &[ReferentId],
    referent_contexts: &[ReferentContext<'_>],
) -> (r: Vec<MembershipSelection>)
    ensures
        r@.len() == carrier_referent_ids@.len(),
        forall|i: int|
            0 <= i < r@.len() ==> (#[trigger] r@[i]).referent_id == carrier_referent_ids@[i]
                && r@[i].membership == membership_of(
                *predicate,
                first_context(referent_contexts@, carrier_referent_ids@[i]),
            ),
{
    let mut out: Vec<MembershipSelection> = Vec::new();
    let mut i: usize = 0;
    while i < carrier_referent_ids.len()
        invariant
            i <= carrier_referent_ids@.len(),
            out@.len() == i,
            forall|k: int|
                0 <= k < i ==> (#[trigger] out@[k]).referent_id == carrier_referent_ids@[k]
                    && out@[k].membership == membership_of(
                    *predicate,
                    first_context(referent_contexts@, carrier_referent_ids@[k]),
                ),
        decreases carrier_referent_ids@.len() - i,
    {
        let referent_id = carrier_referent_ids[i];
        let found = find_context(referent_contexts, &referent_id);
        let membership = match found {
            Some(k) => evaluate_membership(predicate, Some(&referent_contexts[k])),
            None => evaluate_membership(predicate, None),
        };
        out.push(MembershipSelection { referent_id, membership });
        i = i + 1;
    }
    out
}

} // verus!
