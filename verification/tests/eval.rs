use jw_guard::eval::carrier::Carrier;
use jw_guard::eval::decision::{evaluate_policy, DecisionOutcome, DecisionReasonTag};
use jw_guard::eval::predicate::{
    evaluate_membership, evaluate_membership_for_carrier, Membership, MembershipSelection,
    ReferentContext,
};
use jw_guard::eval::requirement_eval::{
    evaluate_requirement, operator_value_compatible, RequirementOutcome, RequirementReasonTag,
};
use jw_guard::kernel::declared::{
    ActorDeclaration, CanonicalName, CanonicalPaths, DeclaredModel, EvaluationContext,
    MembershipPredicate, ModelDeclaration, PolicyDeclaration, ReferentDeclaration,
    ReferentSortId, RequirementDeclaration, RequirementDeclarationError, RequirementOperator,
    RequirementSortId, RequirementValue, ScalarViolation, SemVer, Timestamp,
    TypedScopeDeclaration,
};
use jw_guard::kernel::id::{
    ActorId, ModelId, PolicyId, PredicateId, ReferentId, RequirementId, ScopeId,
};

fn id16(value: u8) -> [u8; 16] {
    [value; 16]
}

fn build_model(
    requirement: RequirementDeclaration,
) -> (DeclaredModel, PolicyDeclaration, ReferentId) {
    let actor = ActorDeclaration {
        id: ActorId::from_bytes(id16(2)),
        role: CanonicalName::new("owner".to_string()).expect("valid role"),
    };
    let referent = ReferentDeclaration {
        id: ReferentId::from_bytes(id16(3)),
        sort: ReferentSortId(1),
    };
    let referent_id = referent.id;
    let scope = TypedScopeDeclaration::new(
        ScopeId::from_bytes(id16(4)),
        ReferentSortId(1),
        EvaluationContext {
            model_version: SemVer::new(0, 1, 0),
            snapshot: Timestamp::from_unix_seconds(1),
            namespace: CanonicalName::new("default".to_string()).expect("valid namespace"),
            mapper_version: SemVer::new(0, 1, 0),
        },
        MembershipPredicate::HasTag(CanonicalName::new("tier1".to_string()).expect("valid tag")),
    );
    let policy = PolicyDeclaration::new(
        PolicyId::from_bytes(id16(5)),
        actor.id,
        scope.id,
        requirement.id,
    );

    let model = DeclaredModel {
        model: ModelDeclaration {
            id: ModelId::from_bytes(id16(1)),
            version: SemVer::new(0, 1, 0),
            declared_at: Timestamp::from_unix_seconds(1),
            declared_by: actor.id,
        },
        actors: vec![actor],
        referents: vec![referent],
        boundaries: vec![],
        edges: vec![],
        scopes: vec![scope],
        requirements: vec![requirement],
        policies: vec![policy.clone()],
        canonical_paths: CanonicalPaths {
            model: "model/root".to_string(),
            actors: vec!["actor/owner".to_string()],
            referents: vec!["referent/service".to_string()],
            boundaries: vec![],
            edges: vec![],
            scopes: vec!["scope/default".to_string()],
            requirements: vec!["requirement/default".to_string()],
            policies: vec!["policy/default".to_string()],
        },
    };

    (model, policy, referent_id)
}

fn requirement(operator: RequirementOperator, value: RequirementValue) -> RequirementDeclaration {
    RequirementDeclaration {
        id: RequirementId::from_bytes(id16(40)),
        sort: RequirementSortId(2),
        operator,
        value,
    }
}

fn selection(members: &[Membership]) -> Vec<MembershipSelection> {
    members
        .iter()
        .enumerate()
        .map(|(index, membership)| {
            MembershipSelection::new(ReferentId::from_bytes(id16(index as u8 + 1)), *membership)
        })
        .collect()
}

#[test]
fn evaluate_policy_propagates_unknown_when_context_is_missing() {
    let requirement = RequirementDeclaration {
        id: RequirementId::from_bytes(id16(10)),
        sort: RequirementSortId(1),
        operator: RequirementOperator::CountMin,
        value: RequirementValue::U64(1),
    };
    let (model, policy, _) = build_model(requirement);

    let decision = evaluate_policy(&model, &policy, &[]);

    assert_eq!(decision.outcome(), DecisionOutcome::Unknown);
    assert_eq!(decision.reason(), DecisionReasonTag::MembershipUnknown);
}

#[test]
fn evaluate_policy_returns_satisfied_when_predicate_matches_and_requirement_holds() {
    let requirement = RequirementDeclaration {
        id: RequirementId::from_bytes(id16(11)),
        sort: RequirementSortId(1),
        operator: RequirementOperator::CountMin,
        value: RequirementValue::U64(1),
    };
    let (model, policy, referent_id) = build_model(requirement);
    let tag = CanonicalName::new("tier1".to_string()).expect("valid tag");
    let tags = vec![tag];
    let contexts = vec![ReferentContext::new(
        referent_id,
        None,
        Some(tags.as_slice()),
        None,
    )];

    let decision = evaluate_policy(&model, &policy, contexts.as_slice());

    assert_eq!(decision.outcome(), DecisionOutcome::Satisfied);
    assert_eq!(decision.reason(), DecisionReasonTag::RequirementSatisfied);
    assert_eq!(decision.policy_id(), policy.id);
}

#[test]
fn evaluate_policy_distinguishes_operator_value_mismatch_from_violation() {
    let mismatch_requirement = RequirementDeclaration {
        id: RequirementId::from_bytes(id16(12)),
        sort: RequirementSortId(1),
        operator: RequirementOperator::CountMin,
        value: RequirementValue::Bool(true),
    };
    let (mismatch_model, mismatch_policy, _) = build_model(mismatch_requirement);
    let mismatch_decision = evaluate_policy(&mismatch_model, &mismatch_policy, &[]);
    assert_eq!(
        mismatch_decision.outcome(),
        DecisionOutcome::OperatorValueMismatch
    );

    let violated_requirement = RequirementDeclaration {
        id: RequirementId::from_bytes(id16(13)),
        sort: RequirementSortId(1),
        operator: RequirementOperator::CountMin,
        value: RequirementValue::U64(2),
    };
    let (violated_model, violated_policy, referent_id) = build_model(violated_requirement);
    let tag = CanonicalName::new("tier1".to_string()).expect("valid tag");
    let tags = vec![tag];
    let contexts = vec![ReferentContext::new(
        referent_id,
        None,
        Some(tags.as_slice()),
        None,
    )];
    let violated_decision = evaluate_policy(&violated_model, &violated_policy, contexts.as_slice());
    assert_eq!(violated_decision.outcome(), DecisionOutcome::Violated);
    assert_eq!(
        violated_decision.reason(),
        DecisionReasonTag::RequirementViolated
    );
}

#[test]
fn has_tag_returns_unknown_when_evidence_is_missing() {
    let predicate =
        MembershipPredicate::HasTag(CanonicalName::new("hardened".to_string()).expect("valid tag"));

    let membership = evaluate_membership(&predicate, None);

    assert_eq!(membership, Membership::Unknown);
}

#[test]
fn name_equals_returns_member_on_exact_match() {
    let predicate = MembershipPredicate::NameEquals(
        CanonicalName::new("gateway".to_string()).expect("valid name"),
    );
    let referent_id = ReferentId::from_bytes(id16(1));
    let referent_name = CanonicalName::new("gateway".to_string()).expect("valid name");
    let context = ReferentContext::new(referent_id, Some(&referent_name), None, None);

    let membership = evaluate_membership(&predicate, Some(&context));

    assert_eq!(membership, Membership::Member);
}

#[test]
fn predicate_ref_returns_non_member_when_not_listed() {
    let predicate_id = PredicateId::from_bytes(id16(9));
    let predicate = MembershipPredicate::PredicateRef(predicate_id);
    let referent_id = ReferentId::from_bytes(id16(2));
    let known_predicates = vec![
        PredicateId::from_bytes(id16(3)),
        PredicateId::from_bytes(id16(4)),
    ];
    let context = ReferentContext::new(referent_id, None, None, Some(known_predicates.as_slice()));

    let membership = evaluate_membership(&predicate, Some(&context));

    assert_eq!(membership, Membership::NonMember);
}

#[test]
fn all_predicate_is_member_without_evidence() {
    assert_eq!(
        evaluate_membership(&MembershipPredicate::All, None),
        Membership::Member
    );
}

#[test]
fn membership_for_carrier_uses_first_matching_context() {
    let predicate =
        MembershipPredicate::HasTag(CanonicalName::new("tier1".to_string()).expect("valid tag"));
    let tier1 = vec![CanonicalName::new("tier1".to_string()).unwrap()];
    let other = vec![CanonicalName::new("other".to_string()).unwrap()];
    let first = ReferentId::from_bytes(id16(1));
    let second = ReferentId::from_bytes(id16(2));
    let contexts = vec![
        ReferentContext::new(second, None, Some(other.as_slice()), None),
        ReferentContext::new(second, None, Some(tier1.as_slice()), None),
    ];
    let carrier = [first, second];

    let selected = evaluate_membership_for_carrier(&predicate, &carrier, &contexts);

    assert_eq!(selected.len(), 2);
    assert_eq!(selected[0].referent_id(), first);
    assert_eq!(selected[0].membership(), Membership::Unknown);
    assert_eq!(selected[1].membership(), Membership::NonMember);
}

#[test]
fn count_min_propagates_unknown_when_threshold_depends_on_missing_membership() {
    let requirement = requirement(RequirementOperator::CountMin, RequirementValue::U64(2));
    let selection = vec![
        MembershipSelection::new(ReferentId::from_bytes(id16(1)), Membership::Member),
        MembershipSelection::new(ReferentId::from_bytes(id16(2)), Membership::Unknown),
    ];

    let evaluation = evaluate_requirement(&requirement, &selection);

    assert_eq!(evaluation.outcome(), RequirementOutcome::Unknown);
}

#[test]
fn count_min_violates_when_known_and_unknown_cannot_reach_threshold() {
    let requirement = requirement(RequirementOperator::CountMin, RequirementValue::U64(3));
    let selection = vec![
        MembershipSelection::new(ReferentId::from_bytes(id16(1)), Membership::Member),
        MembershipSelection::new(ReferentId::from_bytes(id16(2)), Membership::Unknown),
    ];

    let evaluation = evaluate_requirement(&requirement, &selection);

    assert_eq!(evaluation.outcome(), RequirementOutcome::Violated);
}

#[test]
fn operator_value_mismatch_is_explicit() {
    let requirement = requirement(RequirementOperator::CountMin, RequirementValue::Bool(true));
    let selection = vec![MembershipSelection::new(
        ReferentId::from_bytes(id16(1)),
        Membership::Member,
    )];

    let evaluation = evaluate_requirement(&requirement, &selection);

    assert_eq!(
        evaluation.outcome(),
        RequirementOutcome::OperatorValueMismatch
    );
}

#[test]
fn presence_requirements_follow_member_and_unknown_counts() {
    let required = requirement(RequirementOperator::PresenceRequired, RequirementValue::Bool(true));
    let forbidden =
        requirement(RequirementOperator::PresenceForbidden, RequirementValue::Bool(true));
    let members = selection(&[Membership::NonMember, Membership::Member]);
    let unknowns = selection(&[Membership::NonMember, Membership::Unknown]);
    let none = selection(&[Membership::NonMember]);

    assert_eq!(
        evaluate_requirement(&required, &members).reason(),
        RequirementReasonTag::PresenceSatisfied
    );
    assert_eq!(
        evaluate_requirement(&required, &unknowns).outcome(),
        RequirementOutcome::Unknown
    );
    assert_eq!(
        evaluate_requirement(&required, &none).outcome(),
        RequirementOutcome::Violated
    );
    assert_eq!(
        evaluate_requirement(&forbidden, &members).outcome(),
        RequirementOutcome::Violated
    );
    assert_eq!(
        evaluate_requirement(&forbidden, &none).outcome(),
        RequirementOutcome::Satisfied
    );
}

#[test]
fn count_equal_and_count_max_bounds() {
    let equal_two = requirement(RequirementOperator::CountEqual, RequirementValue::U64(2));
    let max_one = requirement(RequirementOperator::CountMax, RequirementValue::U64(1));
    let two_members = selection(&[Membership::Member, Membership::Member]);
    let member_unknown = selection(&[Membership::Member, Membership::Unknown]);

    assert_eq!(
        evaluate_requirement(&equal_two, &two_members).reason(),
        RequirementReasonTag::CountSatisfied
    );
    assert_eq!(
        evaluate_requirement(&equal_two, &member_unknown).outcome(),
        RequirementOutcome::Unknown
    );
    assert_eq!(
        evaluate_requirement(&max_one, &two_members).outcome(),
        RequirementOutcome::Violated
    );
    assert_eq!(
        evaluate_requirement(&max_one, &member_unknown).outcome(),
        RequirementOutcome::Unknown
    );
    assert_eq!(
        evaluate_requirement(&max_one, &selection(&[Membership::Unknown])).outcome(),
        RequirementOutcome::Satisfied
    );
}

#[test]
fn unsupported_operators_stay_unknown() {
    let temporal = requirement(
        RequirementOperator::TemporalWithin,
        RequirementValue::DurationSeconds(10),
    );
    let evaluation = evaluate_requirement(&temporal, &[]);
    assert_eq!(evaluation.outcome(), RequirementOutcome::Unknown);
    assert_eq!(evaluation.reason(), RequirementReasonTag::UnsupportedOperator);
    assert!(operator_value_compatible(
        RequirementOperator::SetIncludes,
        &RequirementValue::Names(Vec::new())
    ));
    assert!(!operator_value_compatible(
        RequirementOperator::SetIncludes,
        &RequirementValue::U64(1)
    ));
}

#[test]
fn requirement_declaration_rejects_mismatched_value() {
    assert_eq!(
        RequirementDeclaration::new(
            RequirementId::from_bytes(id16(1)),
            RequirementSortId(1),
            RequirementOperator::CountMin,
            RequirementValue::Bool(true),
        ),
        Err(RequirementDeclarationError::OperatorValueMismatch)
    );
    assert!(RequirementDeclaration::new(
        RequirementId::from_bytes(id16(1)),
        RequirementSortId(1),
        RequirementOperator::CountMin,
        RequirementValue::U64(1),
    )
    .is_ok());
}

#[test]
fn canonical_name_rejects_invalid_text() {
    assert!(CanonicalName::new("ok-name_1".to_string()).is_ok());
    assert!(CanonicalName::new(String::new()).is_err());
    assert!(CanonicalName::new("Bad".to_string()).is_err());
    let _: Option<ScalarViolation> = CanonicalName::new(String::new()).err();
}

#[test]
fn carrier_is_sorted_by_referent_id_bytes_within_sort() {
    let requirement = requirement(RequirementOperator::CountMin, RequirementValue::U64(1));
    let (mut model, _, _) = build_model(requirement);
    model.referents = vec![
        ReferentDeclaration {
            id: ReferentId::from_bytes(id16(4)),
            sort: ReferentSortId(2),
        },
        ReferentDeclaration {
            id: ReferentId::from_bytes(id16(9)),
            sort: ReferentSortId(1),
        },
        ReferentDeclaration {
            id: ReferentId::from_bytes(id16(1)),
            sort: ReferentSortId(1),
        },
        ReferentDeclaration {
            id: ReferentId::from_bytes(id16(5)),
            sort: ReferentSortId(1),
        },
    ];

    let carrier = Carrier::from_declared_model(&model, ReferentSortId(1));
    let ordered_ids: Vec<[u8; 16]> = carrier
        .referent_ids()
        .iter()
        .map(|id| id.as_bytes())
        .collect();

    assert_eq!(ordered_ids, vec![id16(1), id16(5), id16(9)]);
    assert_eq!(carrier.referent_sort(), ReferentSortId(1));
}
