//! Requirements evaluated over tri-state membership, keeping uncertainty.
use vstd::prelude::*;

use crate::eval::predicate::{Membership, MembershipSelection};
use crate::kernel::declared::{
    operator_accepts, operator_accepts_value, RequirementDeclaration, RequirementOperator,
    RequirementValue,
};

verus! {

#[derive(Debug, Clone, Copy, PartialEq, Eq, Hash, Structural)]
pub enum RequirementOutcome {
    Satisfied,
    Violated,
    Unknown,
    OperatorValueMismatch,
}

#[derive(Debug, Clone, Copy, PartialEq, Eq, Hash, Structural)]
pub enum RequirementReasonTag {
    OperatorValueMismatch,
    PresenceSatisfied,
    PresenceViolated,
    CountSatisfied,
    CountViolated,
    MembershipUnknown,
    UnsupportedOperator,
}

#[derive(Debug, Clone, Copy, PartialEq, Eq, Hash, Structural)]
pub struct RequirementEvaluation {
    pub outcome: RequirementOutcome,
    pub reason: RequirementReasonTag,
}

impl RequirementEvaluation {
    pub fn new(outcome: RequirementOutcome, reason: RequirementReasonTag) -> (r: Self)
        ensures
            r == (RequirementEvaluation { outcome, reason }),
    {
        RequirementEvaluation { outcome, reason }
    }

    pub fn outcome(self) -> (r: RequirementOutcome)
        ensures
            r == self.outcome,
    {
        self.outcome
    }

    pub fn reason(self) -> (r: RequirementReasonTag)
        ensures
            r == self.reason,
    {
        self.reason
    }
}

/// An evaluation with the outcome and reason.
pub open spec fn eval(o: RequirementOutcome, r: RequirementReasonTag) -> RequirementEvaluation {
    RequirementEvaluation { outcome: o, reason: r }
}

/// How many selections have the membership.
pub open spec fn count_of(s: Seq<MembershipSelection>, m: Membership) -> nat
    decreases s.len(),
{
    if s.len() == 0 {
        0
    } else {
        count_of(s.drop_last(), m) + if s.last().membership == m {
            1nat
        } else {
            0nat
        }
    }
}

proof fn lemma_counts_bounded(s: Seq<MembershipSelection>)
    ensures
        count_of(s, Membership::Member) + count_of(s, Membership::Unknown) <= s.len(),
    decreases s.len(),
{
    if s.len() > 0 {
        lemma_counts_bounded(s.drop_last());
    }
}

/// Presence is required: some member satisfies; otherwise an unknown
/// membership leaves it unknown; otherwise it is violated.
pub open spec fn presence_required(member: nat, unknown: nat) -> RequirementEvaluation {
    if member > 0 {
        eval(RequirementOutcome::Satisfied, RequirementReasonTag::PresenceSatisfied)
    } else if unknown > 0 {
        eval(RequirementOutcome::Unknown, RequirementReasonTag::MembershipUnknown)
    } else {
        eval(RequirementOutcome::Violated, RequirementReasonTag::PresenceViolated)
    }
}

/// Presence is forbidden: some member violates; otherwise an unknown
/// membership leaves it unknown; otherwise it is satisfied.
pub open spec fn presence_forbidden(member: nat, unknown: nat) -> RequirementEvaluation {
    if member > 0 {
        eval(RequirementOutcome::Violated, RequirementReasonTag::PresenceViolated)
    } else if unknown > 0 {
        eval(RequirementOutcome::Unknown, RequirementReasonTag::MembershipUnknown)
    } else {
        eval(RequirementOutcome::Satisfied, RequirementReasonTag::PresenceSatisfied)
    }
}

/// Exactly `target` members: violated when no resolution of the unknowns can
/// reach it, unknown while unknowns remain, else decided by the count.
pub open spec fn count_equal(target: nat, member: nat, unknown: nat) -> RequirementEvaluation {
    if target < member || target > member + unknown {
        eval(RequirementOutcome::Violated, RequirementReasonTag::CountViolated)
    } else if unknown > 0 {
        eval(RequirementOutcome::Unknown, RequirementReasonTag::MembershipUnknown)
    } else if member == target {
        eval(RequirementOutcome::Satisfied, RequirementReasonTag::CountSatisfied)
    } else {
        eval(RequirementOutcome::Violated, RequirementReasonTag::CountViolated)
    }
}

/// At least `target` members: satisfied by the known members, violated when
/// even every unknown cannot reach it, else unknown.
pub open spec fn count_min(target: nat, member: nat, unknown: nat) -> RequirementEvaluation {
    if member >= target {
        eval(RequirementOutcome::Satisfied, RequirementReasonTag::CountSatisfied)
    } else if member + unknown < target {
        eval(RequirementOutcome::Violated, RequirementReasonTag::CountViolated)
    } else {
        eval(RequirementOutcome::Unknown, RequirementReasonTag::MembershipUnknown)
    }
}

/// At most `target` members: violated by the known members, satisfied when
/// even every unknown stays within it, else unknown.
pub open spec fn count_max(target: nat, member: nat, unknown: nat) -> RequirementEvaluation {
    if member > target {
        eval(RequirementOutcome::Violated, RequirementReasonTag::CountViolated)
    } else if member + unknown <= target {
        eval(RequirementOutcome::Satisfied, RequirementReasonTag::CountSatisfied)
    } else {
        eval(RequirementOutcome::Unknown, RequirementReasonTag::MembershipUnknown)
    }
}

/// The evaluation of a requirement over a membership selection.
pub open spec fn requirement_evaluation(
    req: RequirementDeclaration,
    s: Seq<MembershipSelection>,
) -> RequirementEvaluation {
    let m = count_of(s, Membership::Member);
    let u = count_of(s, Membership::Unknown);
    if !operator_accepts(req.operator, req.value) {
        eval(RequirementOutcome::OperatorValueMismatch, RequirementReasonTag::OperatorValueMismatch)
    } else {
        match req.operator {
            RequirementOperator::PresenceRequired => presence_required(m, u),
            RequirementOperator::PresenceForbidden => presence_forbidden(m, u),
            RequirementOperator::PresenceOptional => eval(
                RequirementOutcome::Satisfied,
                RequirementReasonTag::PresenceSatisfied,
            ),
            RequirementOperator::CountEqual => match req.value {
                RequirementValue::U64(t) => count_equal(t as nat, m, u),
                _ => eval(
                    RequirementOutcome::OperatorValueMismatch,
                    RequirementReasonTag::OperatorValueMismatch,
                ),
            },
            RequirementOperator::CountMin => match req.value {
                RequirementValue::U64(t) => count_min(t as nat, m, u),
                _ => eval(
                    RequirementOutcome::OperatorValueMismatch,
                    RequirementReasonTag::OperatorValueMismatch,
                ),
            },
            RequirementOperator::CountMax => match req.value {
                RequirementValue::U64(t) => count_max(t as nat, m, u),
                _ => eval(
                    RequirementOutcome::OperatorValueMismatch,
                    RequirementReasonTag::OperatorValueMismatch,
                ),
            },
            _ => eval(RequirementOutcome::Unknown, RequirementReasonTag::UnsupportedOperator),
        }
    }
}

/// Member and unknown counts of a selection.
#[derive(Debug, Clone, Copy)]
struct MembershipTally {
    member_count: u64,
    unknown_count: u64,
}

impl MembershipTally {
    fn from_selection(selection: &[MembershipSelection]) -> (r: Self)
        ensures
            r.member_count == count_of(selection@, Membership::Member),
            r.unknown_count == count_of(selection@, Membership::Unknown),
            r.member_count + r.unknown_count <= u64::MAX,
    {
        let mut member_count: u64 = 0;
        let mut unknown_count: u64 = 0;
        let mut i: usize = 0;
        while i < selection.len()
            invariant
                i <= selection@.len(),
                member_count == count_of(selection@.take(i as int), Membership::Member),
                unknown_count == count_of(selection@.take(i as int), Membership::Unknown),
            decreases selection@.len() - i,
        {
            proof {
                assert(selection@.take(i + 1).drop_last() =~= selection@.take(i as int));
                lemma_counts_bounded(selection@.take(i + 1));
            }
            match selection[i].membership {
                Membership::Member => {
                    member_count = member_count + 1;
                },
                Membership::NonMember => {},
                Membership::Unknown => {
                    unknown_count = unknown_count + 1;
                },
            }
            i = i + 1;
        }
        assert(selection@.take(selection@.len() as int) =~= selection@);
        proof {
            lemma_counts_bounded(selection@);
        }
        MembershipTally { member_count, unknown_count }
    }
}

fn evaluate_presence_required(tally: &MembershipTally) -> (r: RequirementEvaluation)
    ensures
        r == presence_required(tally.member_count as nat, tally.unknown_count as nat),
{
    if tally.member_count > 0 {
        RequirementEvaluation::new(RequirementOutcome::Satisfied, RequirementReasonTag::PresenceSatisfied)
    } else if tally.unknown_count > 0 {
        RequirementEvaluation::new(RequirementOutcome::Unknown, RequirementReasonTag::MembershipUnknown)
    } else {
        RequirementEvaluation::new(RequirementOutcome::Violated, RequirementReasonTag::PresenceViolated)
    }
}

fn evaluate_presence_forbidden(tally: &MembershipTally) -> (r: RequirementEvaluation)
    ensures
        r == presence_forbidden(tally.member_count as nat, tally.unknown_count as nat),
{
    if tally.member_count > 0 {
        RequirementEvaluation::new(RequirementOutcome::Violated, RequirementReasonTag::PresenceViolated)
    } else if tally.unknown_count > 0 {
        RequirementEvaluation::new(RequirementOutcome::Unknown, RequirementReasonTag::MembershipUnknown)
    } else {
        RequirementEvaluation::new(RequirementOutcome::Satisfied, RequirementReasonTag::PresenceSatisfied)
    }
}

fn evaluate_count_equal(target: u64, tally: &MembershipTally) -> (r: RequirementEvaluation)
    requires
        tally.member_count + tally.unknown_count <= u64::MAX,
    ensures
        r == count_equal(target as nat, tally.member_count as nat, tally.unknown_count as nat),
{
    let min_possible = tally.member_count;
    let max_possible = tally.member_count + tally.unknown_count;
    if target < min_possible || target > max_possible {
        return RequirementEvaluation::new(RequirementOutcome::Violated, RequirementReasonTag::CountViolated);
    }
    if tally.unknown_count > 0 {
        return RequirementEvaluation::new(RequirementOutcome::Unknown, RequirementReasonTag::MembershipUnknown);
    }
    if tally.member_count == target {
        RequirementEvaluation::new(RequirementOutcome::Satisfied, RequirementReasonTag::CountSatisfied)
    } else {
        RequirementEvaluation::new(RequirementOutcome::Violated, RequirementReasonTag::CountViolated)
    }
}

fn evaluate_count_min(target: u64, tally: &MembershipTally) -> (r: RequirementEvaluation)
    requires
        tally.member_count + tally.unknown_count <= u64::MAX,
    ensures
        r == count_min(target as nat, tally.member_count as nat, tally.unknown_count as nat),
{
    if tally.member_count >= target {
        return RequirementEvaluation::new(RequirementOutcome::Satisfied, RequirementReasonTag::CountSatisfied);
    }
    if tally.member_count + tally.unknown_count < target {
        return RequirementEvaluation::new(RequirementOutcome::Violated, RequirementReasonTag::CountViolated);
    }
    RequirementEvaluation::new(RequirementOutcome::Unknown, RequirementReasonTag::MembershipUnknown)
}

fn evaluate_count_max(target: u64, tally: &MembershipTally) -> (r: RequirementEvaluation)
    requires
        tally.member_count + tally.unknown_count <= u64::MAX,
    ensures
        r == count_max(target as nat, tally.member_count as nat, tally.unknown_count as nat),
{
    if tally.member_count > target {
        return RequirementEvaluation::new(RequirementOutcome::Violated, RequirementReasonTag::CountViolated);
    }
    if tally.member_count + tally.unknown_count <= target {
        return RequirementEvaluation::new(RequirementOutcome::Satisfied, RequirementReasonTag::CountSatisfied);
    }
    RequirementEvaluation::new(RequirementOutcome::Unknown, RequirementReasonTag::MembershipUnknown)
}

/// Whether the value has the type the operator compares against.
pub fn operator_value_compatible(operator: RequirementOperator, value: &RequirementValue) -> (r: bool)
    ensures
        r == operator_accepts(operator, *value),
{
    operator_accepts_value(operator, value)
}

/// Evaluates a requirement over a membership selection, keeping unknown
/// memberships as uncertainty rather than collapsing them.
pub fn evaluate_requirement(
    requirement: &RequirementDeclaration,
    membership_selection: &[MembershipSelection],
) -> (r: RequirementEvaluation)
    ensures
        r == requirement_evaluation(*requirement, membership_selection@),
{
    if !operator_value_compatible(requirement.operator, &requirement.value) {
        return RequirementEvaluation::new(
            RequirementOutcome::OperatorValueMismatch,
            RequirementReasonTag::OperatorValueMismatch,
        );
    }
    let tally = MembershipTally::from_selection(membership_selection);
    match requirement.operator {
        RequirementOperator::PresenceRequired => evaluate_presence_required(&tally),
        RequirementOperator::PresenceForbidden => evaluate_presence_forbidden(&tally),
        RequirementOperator::PresenceOptional => RequirementEvaluation::new(
            RequirementOutcome::Satisfied,
            RequirementReasonTag::PresenceSatisfied,
        ),
        RequirementOperator::CountEqual => match &requirement.value {
            RequirementValue::U64(target) => evaluate_count_equal(*target, &tally),
            _ => RequirementEvaluation::new(
                RequirementOutcome::OperatorValueMismatch,
                RequirementReasonTag::OperatorValueMismatch,
            ),
        },
        RequirementOperator::CountMin => match &requirement.value {
            RequirementValue::U64(target) => evaluate_count_min(*target, &tally),
            _ => RequirementEvaluation::new(
                RequirementOutcome::OperatorValueMismatch,
                RequirementReasonTag::OperatorValueMismatch,
            ),
        },
        RequirementOperator::CountMax => match &requirement.value {
            RequirementValue::U64(target) => evaluate_count_max(*target, &tally),
            _ => RequirementEvaluation::new(
                RequirementOutcome::OperatorValueMismatch,
                RequirementReasonTag::OperatorValueMismatch,
            ),
        },
        _ => RequirementEvaluation::new(
            RequirementOutcome::Unknown,
            RequirementReasonTag::UnsupportedOperator,
        ),
    }
}

/// `r` resolves the unknown memberships of `s`: the same referents, each
/// known membership kept and each unknown one made member or non-member.
pub open spec fn resolves(r: Seq<MembershipSelection>, s: Seq<MembershipSelection>) -> bool {
    &&& r.len() == s.len()
    &&& forall|i: int|
        0 <= i < s.len() ==> (#[trigger] r[i]).referent_id == s[i].referent_id && if s[i].membership
            is Unknown {
            !(r[i].membership is Unknown)
        } else {
            r[i].membership == s[i].membership
        }
}

proof fn lemma_resolution_counts(r: Seq<MembershipSelection>, s: Seq<MembershipSelection>)
    requires
        resolves(r, s),
    ensures
        count_of(r, Membership::Unknown) == 0,
        count_of(s, Membership::Member) <= count_of(r, Membership::Member),
        count_of(r, Membership::Member) <= count_of(s, Membership::Member) + count_of(
            s,
            Membership::Unknown,
        ),
    decreases s.len(),
{
    if s.len() > 0 {
        assert(resolves(r.drop_last(), s.drop_last())) by {
            assert forall|i: int| 0 <= i < s.drop_last().len() implies (#[trigger] r.drop_last()[i]).referent_id
                == s.drop_last()[i].referent_id && if s.drop_last()[i].membership is Unknown {
                !(r.drop_last()[i].membership is Unknown)
            } else {
                r.drop_last()[i].membership == s.drop_last()[i].membership
            } by {
                assert(r.drop_last()[i] == r[i]);
            }
        }
        lemma_resolution_counts(r.drop_last(), s.drop_last());
        assert(r.last() == r[r.len() - 1]);
    }
}

/// `s` with its first `k` unknown memberships made members and the other
/// unknown ones non-members.
pub open spec fn resolve_first(s: Seq<MembershipSelection>, k: nat) -> Seq<MembershipSelection>
    decreases s.len(),
{
    if s.len() == 0 {
        s
    } else {
        let head = s[0];
        let rest = s.drop_first();
        if head.membership is Unknown {
            let made = MembershipSelection {
                referent_id: head.referent_id,
                membership: if k > 0 {
                    Membership::Member
                } else {
                    Membership::NonMember
                },
            };
            seq![made] + resolve_first(rest, if k > 0 {
                (k - 1) as nat
            } else {
                0
            })
        } else {
            seq![head] + resolve_first(rest, k)
        }
    }
}

proof fn lemma_count_front(x: MembershipSelection, s: Seq<MembershipSelection>, m: Membership)
    ensures
        count_of(seq![x] + s, m) == count_of(s, m) + if x.membership == m {
            1nat
        } else {
            0nat
        },
    decreases s.len(),
{
    if s.len() > 0 {
        assert((seq![x] + s).drop_last() =~= seq![x] + s.drop_last());
        assert((seq![x] + s).last() == s.last());
        lemma_count_front(x, s.drop_last(), m);
    } else {
        assert((seq![x] + s).drop_last() =~= Seq::<MembershipSelection>::empty());
        assert(seq![x] + s =~= seq![x]);
        assert(count_of(Seq::<MembershipSelection>::empty(), m) == 0);
        assert(count_of(s, m) == 0);
    }
}

proof fn lemma_resolve_first(s: Seq<MembershipSelection>, k: nat)
    requires
        k <= count_of(s, Membership::Unknown),
    ensures
        resolves(resolve_first(s, k), s),
        count_of(resolve_first(s, k), Membership::Member) == count_of(s, Membership::Member) + k,
    decreases s.len(),
{
    if s.len() > 0 {
        let head = s[0];
        let rest = s.drop_first();
        assert(s =~= seq![head] + rest);
        lemma_count_front(head, rest, Membership::Unknown);
        lemma_count_front(head, rest, Membership::Member);
        let k2: nat = if head.membership is Unknown && k > 0 {
            (k - 1) as nat
        } else {
            k
        };
        lemma_resolve_first(rest, k2);
        let out = resolve_first(s, k);
        let front = out[0];
        assert(out =~= seq![front] + resolve_first(rest, k2));
        lemma_count_front(front, resolve_first(rest, k2), Membership::Member);
        assert forall|i: int| 0 <= i < s.len() implies (#[trigger] out[i]).referent_id
            == s[i].referent_id && if s[i].membership is Unknown {
            !(out[i].membership is Unknown)
        } else {
            out[i].membership == s[i].membership
        } by {
            if i > 0 {
                assert(out[i] == resolve_first(rest, k2)[i - 1]);
                assert(s[i] == rest[i - 1]);
            }
        }
    } else {
        assert(k == 0);
    }
}

/// A definite verdict is sound under uncertainty: when a requirement is
/// satisfied or violated while some memberships are unknown, every
/// resolution of the unknown memberships gives the same verdict.
pub proof fn lemma_definite_verdict_holds_for_every_resolution(
    req: RequirementDeclaration,
    s: Seq<MembershipSelection>,
    r: Seq<MembershipSelection>,
)
    requires
        resolves(r, s),
        requirement_evaluation(req, s).outcome is Satisfied || requirement_evaluation(
            req,
            s,
        ).outcome is Violated,
    ensures
        requirement_evaluation(req, r).outcome == requirement_evaluation(req, s).outcome,
{
    lemma_resolution_counts(r, s);
}

/// Uncertainty is not collapsed: when unknown memberships leave a
/// requirement unknown, one resolution of them satisfies it and another
/// violates it.
pub proof fn lemma_unknown_verdict_is_undecided(
    req: RequirementDeclaration,
    s: Seq<MembershipSelection>,
)
    requires
        requirement_evaluation(req, s).reason is MembershipUnknown,
    ensures
        exists|r: Seq<MembershipSelection>|
            resolves(r, s) && (#[trigger] requirement_evaluation(req, r)).outcome is Satisfied,
        exists|r: Seq<MembershipSelection>|
            resolves(r, s) && (#[trigger] requirement_evaluation(req, r)).outcome is Violated,
{
    let m = count_of(s, Membership::Member);
    let u = count_of(s, Membership::Unknown);
    let all = resolve_first(s, u);
    let none = resolve_first(s, 0);
    lemma_resolve_first(s, u);
    lemma_resolve_first(s, 0);
    lemma_resolution_counts(all, s);
    lemma_resolution_counts(none, s);
    match req.value {
        RequirementValue::U64(t) => {
            if m <= t {
                let hit = resolve_first(s, (t - m) as nat);
                if t - m <= u {
                    lemma_resolve_first(s, (t - m) as nat);
                    lemma_resolution_counts(hit, s);
                    assert(requirement_evaluation(req, hit).outcome is Satisfied || !(req.operator
                        is CountEqual));
                }
            }
        },
        _ => {},
    }
    // Every unknown made a member, or none: one of the two satisfies the
    // requirement (for an exact count, the resolution that hits it does), and
    // one of them violates it.
    assert(requirement_evaluation(req, all).outcome is Violated || requirement_evaluation(
        req,
        none,
    ).outcome is Violated);
    assert(requirement_evaluation(req, all).outcome is Satisfied || requirement_evaluation(
        req,
        none,
    ).outcome is Satisfied || req.operator is CountEqual);
}

/// An optional presence is satisfied whatever is selected: evaluating a
/// presence-optional requirement with a boolean value over any membership
/// selection gives a satisfied verdict for presence.
pub proof fn lemma_optional_presence_always_satisfied(
    req: RequirementDeclaration,
    s: Seq<MembershipSelection>,
)
    requires
        req.operator == RequirementOperator::PresenceOptional,
        req.value is Bool,
    ensures
        requirement_evaluation(req, s).outcome == RequirementOutcome::Satisfied,
        requirement_evaluation(req, s).reason == RequirementReasonTag::PresenceSatisfied,
{
}

proof fn lemma_count_zero_means_none(s: Seq<MembershipSelection>, m: Membership)
    ensures
        count_of(s, m) == 0 <==> forall|i: int| 0 <= i < s.len() ==> (#[trigger] s[i]).membership != m,
    decreases s.len(),
{
    if s.len() > 0 {
        lemma_count_zero_means_none(s.drop_last(), m);
        assert forall|i: int| 0 <= i < s.drop_last().len() implies (#[trigger] s.drop_last()[i])
            == s[i] by {}
        if count_of(s, m) == 0 {
            assert forall|i: int| 0 <= i < s.len() implies (#[trigger] s[i]).membership != m by {
                if i < s.len() - 1 {
                    assert(s.drop_last()[i] == s[i]);
                }
            }
        } else if count_of(s.drop_last(), m) > 0 {
            let k = choose|k: int| 0 <= k < s.drop_last().len() && (#[trigger] s.drop_last()[k]).membership == m;
            assert(s[k] == s.drop_last()[k]);
        } else {
            assert(s[s.len() - 1] == s.last());
        }
    }
}

/// When every membership is known, a requirement means what it says:
/// required presence is met exactly when some referent is a member,
/// forbidden presence exactly when none is, and the count operators exactly
/// when the number of members is equal to, at least, or at most the target;
/// a requirement that is not met is violated, never left unknown.
pub proof fn lemma_known_selection_verdict(req: RequirementDeclaration, s: Seq<MembershipSelection>)
    requires
        forall|i: int| 0 <= i < s.len() ==> !((#[trigger] s[i]).membership is Unknown),
        operator_accepts(req.operator, req.value),
    ensures
        req.operator is PresenceRequired ==> (requirement_evaluation(req, s).outcome is Satisfied
            <==> exists|i: int| 0 <= i < s.len() && (#[trigger] s[i]).membership is Member),
        req.operator is PresenceForbidden ==> (requirement_evaluation(req, s).outcome is Satisfied
            <==> forall|i: int| 0 <= i < s.len() ==> !((#[trigger] s[i]).membership is Member)),
        req.value matches RequirementValue::U64(t) ==> {
            &&& req.operator is CountEqual ==> (requirement_evaluation(req, s).outcome is Satisfied
                <==> count_of(s, Membership::Member) == t)
            &&& req.operator is CountMin ==> (requirement_evaluation(req, s).outcome is Satisfied
                <==> count_of(s, Membership::Member) >= t)
            &&& req.operator is CountMax ==> (requirement_evaluation(req, s).outcome is Satisfied
                <==> count_of(s, Membership::Member) <= t)
        },
        (req.operator is PresenceRequired || req.operator is PresenceForbidden
            || req.operator is PresenceOptional || req.operator is CountEqual
            || req.operator is CountMin || req.operator is CountMax) ==> (requirement_evaluation(
            req,
            s,
        ).outcome is Satisfied || requirement_evaluation(req, s).outcome is Violated),
{
    lemma_count_zero_means_none(s, Membership::Unknown);
    lemma_count_zero_means_none(s, Membership::Member);
}

} // verus!
