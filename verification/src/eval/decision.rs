//! Policy decisions over a declared model and referent evidence.
use vstd::prelude::*;

use crate::eval::carrier::{ids_of_sort, ids_sorted, Carrier};
use crate::eval::predicate::{
    evaluate_membership_for_carrier, first_context, membership_of,
    MembershipSelection, ReferentContext,
};
use crate::eval::requirement_eval::{
    evaluate_requirement, requirement_evaluation, RequirementOutcome, RequirementReasonTag,
};
use crate::kernel::declared::{
    DeclaredModel, MembershipPredicate, PolicyDeclaration, RequirementDeclaration,
    TypedScopeDeclaration,
};
use crate::kernel::id::{PolicyId, ReferentId, RequirementId, ScopeId};

verus! {

#[derive(Debug, Clone, Copy, PartialEq, Eq, Hash, Structural)]
pub enum DecisionOutcome {
    Satisfied,
    Violated,
    Unknown,
    NotApplicable,
    OperatorValueMismatch,
}

#[derive(Debug, Clone, Copy, PartialEq, Eq, Hash, Structural)]
pub enum DecisionReasonTag {
    ScopeMissing,
    RequirementMissing,
    RequirementSatisfied,
    RequirementViolated,
    MembershipUnknown,
    UnsupportedOperator,
    OperatorValueMismatch,
}

#[derive(Debug, Clone, Copy, PartialEq, Eq, Hash)]
pub struct Decision {
    pub policy_id: PolicyId,
    pub outcome: DecisionOutcome,
    pub reason: DecisionReasonTag,
}

impl Decision {
    pub fn new(policy_id: PolicyId, outcome: DecisionOutcome, reason: DecisionReasonTag) -> (r:
        Self)
        ensures
            r == (Decision { policy_id, outcome, reason }),
    {
        Decision { policy_id, outcome, reason }
    }

    pub fn policy_id(&self) -> (r: PolicyId)
        ensures
            r == self.policy_id,
    {
        self.policy_id
    }

    pub fn outcome(&self) -> (r: DecisionOutcome)
        ensures
            r == self.outcome,
    {
        self.outcome
    }

    pub fn reason(&self) -> (r: DecisionReasonTag)
        ensures
            r == self.reason,
    {
        self.reason
    }
}

/// The first scope declared with the identifier.
pub open spec fn first_scope(scopes: Seq<TypedScopeDeclaration>, id: ScopeId) -> Option<
    TypedScopeDeclaration,
>
    decreases scopes.len(),
{
    if scopes.len() == 0 {
        None
    } else if scopes[0].id == id {
        Some(scopes[0])
    } else {
        first_scope(scopes.drop_first(), id)
    }
}

/// The first requirement declared with the identifier.
pub open spec fn first_requirement(reqs: Seq<RequirementDeclaration>, id: RequirementId) -> Option<
    RequirementDeclaration,
>
    decreases reqs.len(),
{
    if reqs.len() == 0 {
        None
    } else if reqs[0].id == id {
        Some(reqs[0])
    } else {
        first_requirement(reqs.drop_first(), id)
    }
}

/// The selection of each carrier referent under the predicate.
pub open spec fn selection_of<'a>(
    ids: Seq<ReferentId>,
    predicate: MembershipPredicate,
    contexts: Seq<ReferentContext<'a>>,
) -> Seq<MembershipSelection> {
    ids.map_values(
        |id: ReferentId|
            MembershipSelection {
                referent_id: id,
                membership: membership_of(predicate, first_context(contexts, id)),
            },
    )
}

/// The decision a requirement evaluation gives: the outcome carried over,
/// unknown outcomes naming an unsupported operator or unknown membership.
pub open spec fn decision_from(
    policy: PolicyId,
    outcome: RequirementOutcome,
    reason: RequirementReasonTag,
) -> Decision {
    match outcome {
        RequirementOutcome::Satisfied => Decision {
            policy_id: policy,
            outcome: DecisionOutcome::Satisfied,
            reason: DecisionReasonTag::RequirementSatisfied,
        },
        RequirementOutcome::Violated => Decision {
            policy_id: policy,
            outcome: DecisionOutcome::Violated,
            reason: DecisionReasonTag::RequirementViolated,
        },
        RequirementOutcome::OperatorValueMismatch => Decision {
            policy_id: policy,
            outcome: DecisionOutcome::OperatorValueMismatch,
            reason: DecisionReasonTag::OperatorValueMismatch,
        },
        RequirementOutcome::Unknown => if reason == RequirementReasonTag::UnsupportedOperator {
            Decision {
                policy_id: policy,
                outcome: DecisionOutcome::Unknown,
                reason: DecisionReasonTag::UnsupportedOperator,
            }
        } else {
            Decision {
                policy_id: policy,
                outcome: DecisionOutcome::Unknown,
                reason: DecisionReasonTag::MembershipUnknown,
            }
        },
    }
}

/// The decision on a policy given the ordered carrier of its scope's sort.
pub open spec fn decision_over<'a>(
    model: DeclaredModel,
    policy: PolicyDeclaration,
    contexts: Seq<ReferentContext<'a>>,
    carrier: Seq<ReferentId>,
) -> Decision {
    match first_scope(model.scopes@, policy.scope) {
        None => Decision {
            policy_id: policy.id,
            outcome: DecisionOutcome::NotApplicable,
            reason: DecisionReasonTag::ScopeMissing,
        },
        Some(scope) => match first_requirement(model.requirements@, policy.requirement) {
            None => Decision {
                policy_id: policy.id,
                outcome: DecisionOutcome::NotApplicable,
                reason: DecisionReasonTag::RequirementMissing,
            },
            Some(req) => {
                let ev = requirement_evaluation(req, selection_of(carrier, scope.predicate, contexts));
                decision_from(policy.id, ev.outcome, ev.reason)
            },
        },
    }
}

fn find_scope(scopes: &Vec<TypedScopeDeclaration>, id: &ScopeId) -> (r: Option<usize>)
    ensures
        r matches Some(k) ==> k < scopes@.len() && first_scope(scopes@, *id) == Some(scopes@[k as int]),
        r is None ==> first_scope(scopes@, *id) is None,
{
    let mut k: usize = 0;
    assert(scopes@.skip(0) =~= scopes@);
    while k < scopes.len()
        invariant
            k <= scopes@.len(),
            first_scope(scopes@, *id) == first_scope(scopes@.skip(k as int), *id),
        decreases scopes@.len() - k,
    {
        assert(scopes@.skip(k as int)[0] == scopes@[k as int]);
        if scopes[k].id.same(id) {
            return Some(k);
        }
        assert(scopes@.skip(k as int).drop_first() =~= scopes@.skip(k + 1));
        k = k + 1;
    }
    None
}

fn find_requirement(reqs: &Vec<RequirementDeclaration>, id: &RequirementId) -> (r: Option<usize>)
    ensures
        r matches Some(k) ==> k < reqs@.len() && first_requirement(reqs@, *id) == Some(
            reqs@[k as int],
        ),
        r is None ==> first_requirement(reqs@, *id) is None,
{
    let mut k: usize = 0;
    assert(reqs@.skip(0) =~= reqs@);
    while k < reqs.len()
        invariant
            k <= reqs@.len(),
            first_requirement(reqs@, *id) == first_requirement(reqs@.skip(k as int), *id),
        decreases reqs@.len() - k,
    {
        assert(reqs@.skip(k as int)[0] == reqs@[k as int]);
        if reqs[k].id.same(id) {
            return Some(k);
        }
        assert(reqs@.skip(k as int).drop_first() =~= reqs@.skip(k + 1));
        k = k + 1;
    }
    None
}

/// Decides a policy: its scope and requirement must be declared; the
/// requirement is then evaluated over the membership of the referents of the
/// scope's sort, ordered by their bytes, keeping unknown memberships unknown.
pub fn evaluate_policy(
    model: &DeclaredModel,
    policy: &PolicyDeclaration,
    referent_contexts: &[ReferentContext<'_>],
) -> (r: Decision)
    ensures
        exists|carrier: Seq<ReferentId>|
            ids_sorted(carrier) && carrier.to_multiset() == ids_of_sort(
                model.referents@,
                match first_scope(model.scopes@, policy.scope) {
                    Some(s) => s.referent_sort,
                    None => crate::kernel::declared::ReferentSortId(0),
                },
            ).to_multiset() && r == decision_over(*model, *policy, referent_contexts@, carrier),
{
    let scope_index = find_scope(&model.scopes, &policy.scope);
    let scope = match scope_index {
        Some(k) => &model.scopes[k],
        None => {
            let c = Carrier::from_declared_model(model, crate::kernel::declared::ReferentSortId(0));
            assert(ids_sorted(c.ids()));
            return Decision::new(
                policy.id,
                DecisionOutcome::NotApplicable,
                DecisionReasonTag::ScopeMissing,
            );
        },
    };
    let carrier = Carrier::from_declared_model(model, scope.referent_sort);
    let requirement_index = find_requirement(&model.requirements, &policy.requirement);
    let requirement = match requirement_index {
        Some(k) => &model.requirements[k],
        None => {
            return Decision::new(
                policy.id,
                DecisionOutcome::NotApplicable,
                DecisionReasonTag::RequirementMissing,
            );
        },
    };
    let membership_selection = evaluate_membership_for_carrier(
        &scope.predicate,
        carrier.referent_ids(),
        referent_contexts,
    );
    assert(membership_selection@ =~= selection_of(
        carrier.ids(),
        scope.predicate,
        referent_contexts@,
    ));
    let requirement_evaluation = evaluate_requirement(requirement, membership_selection.as_slice());
    match requirement_evaluation.outcome() {
        RequirementOutcome::Satisfied => Decision::new(
            policy.id,
            DecisionOutcome::Satisfied,
            DecisionReasonTag::RequirementSatisfied,
        ),
        RequirementOutcome::Violated => Decision::new(
            policy.id,
            DecisionOutcome::Violated,
            DecisionReasonTag::RequirementViolated,
        ),
        RequirementOutcome::OperatorValueMismatch => Decision::new(
            policy.id,
            DecisionOutcome::OperatorValueMismatch,
            DecisionReasonTag::OperatorValueMismatch,
        ),
        RequirementOutcome::Unknown => {
            if requirement_evaluation.reason() == RequirementReasonTag::UnsupportedOperator {
                Decision::new(
                    policy.id,
                    DecisionOutcome::Unknown,
                    DecisionReasonTag::UnsupportedOperator,
                )
            } else {
                Decision::new(
                    policy.id,
                    DecisionOutcome::Unknown,
                    DecisionReasonTag::MembershipUnknown,
                )
            }
        },
    }
}

} // verus!
