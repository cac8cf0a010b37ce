use jw_guard::kernel::id::{
    ActorId, BoundaryId, EdgeId, EvaluationId, EvidenceSourceId, ModelId, ObservationId,
    PolicyId, ReferentId, RequirementId, ScopeId, SurfaceId,
};
use jw_guard::kernel::scalars::{NonEmptyString, NonEmptyVec, SemVer, UtcTimestamp};
use jw_guard::kernel::theory::{
    ActorDeclaration, ActorRole, BoundaryDeclaration, Edge, EdgeDeclaration, EdgeSort,
    EdgeToPredicateDeclaration, EvaluationContextDeclaration, EvaluationDeclaration,
    EvaluationResult, EvidenceBasis, EvidenceItem, EvidenceSourceDeclaration,
    MembershipPredicateDeclaration, ModelDeclaration, ObservationDeclaration, PolicyDeclaration,
    PresenceOperator, Referent, ReferentDeclaration, ReferentSort, RequirementDeclaration,
    RequirementOperator, RequirementSort, SideDeclaration, SideLabel, SurfaceDeclaration,
    TypedScopeDeclaration, TypedValue,
};
use jw_guard::kernel::theory_validation::{
    validate_core_theory_library, CoreTheoryLibrary, TheorySubject, TheoryViolationCode,
};

fn timestamp() -> UtcTimestamp {
    UtcTimestamp::new("2026-05-15T00:00:00Z").unwrap()
}

fn sample_core_theory_library() -> CoreTheoryLibrary {
    let actor_id = ActorId::from_bytes([1u8; 16]);
    let boundary_referent = ReferentId::from_bytes([2u8; 16]);
    let artifact_referent = ReferentId::from_bytes([3u8; 16]);
    let boundary_id = BoundaryId::from_bytes([4u8; 16]);
    let scope_id = ScopeId::from_bytes([5u8; 16]);
    let requirement_id = RequirementId::from_bytes([6u8; 16]);
    let policy_id = PolicyId::from_bytes([7u8; 16]);
    let source_id = EvidenceSourceId::from_bytes([8u8; 16]);
    let observation_id = ObservationId::from_bytes([9u8; 16]);
    let evaluation_id = EvaluationId::from_bytes([10u8; 16]);

    CoreTheoryLibrary {
        model: ModelDeclaration {
            id: ModelId::from_bytes([11u8; 16]),
            version: SemVer::new("1.0.0").unwrap(),
            declared_at: timestamp(),
            declared_by: actor_id,
        },
        actors: vec![ActorDeclaration {
            id: actor_id,
            role: ActorRole::System,
        }],
        referents: vec![
            ReferentDeclaration {
                id: boundary_referent,
                sort: ReferentSort::Boundary,
            },
            ReferentDeclaration {
                id: artifact_referent,
                sort: ReferentSort::ReleaseArtifact,
            },
        ],
        boundaries: vec![
            BoundaryDeclaration::new(
                boundary_id,
                SideDeclaration {
                    label: SideLabel::A,
                    anchor: boundary_referent,
                },
                SideDeclaration {
                    label: SideLabel::B,
                    anchor: artifact_referent,
                },
                SurfaceDeclaration {
                    id: SurfaceId::from_bytes([12u8; 16]),
                    boundary_id,
                    facing: SideLabel::A,
                },
                SurfaceDeclaration {
                    id: SurfaceId::from_bytes([13u8; 16]),
                    boundary_id,
                    facing: SideLabel::B,
                },
            )
            .unwrap(),
        ],
        edges: vec![
            EdgeDeclaration::new(
                EdgeId::from_bytes([14u8; 16]),
                EdgeSort::CrossesBoundary,
                boundary_referent,
                artifact_referent,
            )
            .unwrap(),
        ],
        scopes: vec![TypedScopeDeclaration {
            id: scope_id,
            referent_sort: ReferentSort::ReleaseArtifact,
            context: EvaluationContextDeclaration {
                model_version: SemVer::new("1.0.0").unwrap(),
                namespace: None,
                boundary: None,
                actor_authority: None,
                snapshot_at: None,
                evidence_source: None,
            },
            predicate: MembershipPredicateDeclaration::ReferentIds {
                ids: NonEmptyVec::from_item(artifact_referent),
            },
        }],
        requirements: vec![
            RequirementDeclaration::new(
                requirement_id,
                RequirementSort::Presence,
                RequirementOperator::Presence(PresenceOperator::Required),
                TypedValue::Bool(true),
            )
            .unwrap(),
        ],
        policies: vec![PolicyDeclaration {
            id: policy_id,
            declared_by: actor_id,
            scope: scope_id,
            requirement: requirement_id,
        }],
        evidence_sources: vec![EvidenceSourceDeclaration {
            id: source_id,
            source_type: NonEmptyString::new("scanner").unwrap(),
            mapper: NonEmptyString::new("mapper-v1").unwrap(),
            trust_assumption: NonEmptyString::new("signed feed").unwrap(),
        }],
        observations: vec![ObservationDeclaration {
            id: observation_id,
            source: source_id,
            observed_referent: Some(artifact_referent),
            observed_sort: ReferentSort::ReleaseArtifact,
            at: timestamp(),
            claim: TypedValue::Bool(true),
        }],
        evaluations: vec![EvaluationDeclaration {
            id: evaluation_id,
            policy: policy_id,
            evidence_basis: EvidenceBasis::from_references(NonEmptyVec::from_item(observation_id))
                .unwrap(),
            result: EvaluationResult::Unknown,
        }],
    }
}

#[test]
fn foundational_referent_and_edge_types_construct_coherently() {
    let from = Referent {
        id: ReferentId::from_bytes([70u8; 16]),
        sort: ReferentSort::Actor,
    };
    let to = Referent {
        id: ReferentId::from_bytes([71u8; 16]),
        sort: ReferentSort::Boundary,
    };

    let edge = Edge::new(
        EdgeId::from_bytes([72u8; 16]),
        EdgeSort::DependsOn,
        from.id,
        to.id,
    )
    .unwrap();

    assert_eq!(edge.from, from.id);
    assert_eq!(edge.to, to.id);
}

#[test]
fn evidence_basis_rejects_duplicate_references() {
    let observation = ObservationId::from_bytes([73u8; 16]);
    let result = EvidenceBasis::new(
        NonEmptyVec::new(vec![observation, observation], "references").unwrap(),
        Vec::new(),
    );
    assert!(result.is_err());
}

#[test]
fn evidence_item_and_observation_alias_match_shape() {
    let item = EvidenceItem {
        id: ObservationId::from_bytes([74u8; 16]),
        source: EvidenceSourceId::from_bytes([75u8; 16]),
        observed_referent: Some(ReferentId::from_bytes([76u8; 16])),
        observed_sort: ReferentSort::ReleaseArtifact,
        at: timestamp(),
        claim: TypedValue::Bool(true),
    };
    let observation: ObservationDeclaration = item.clone();

    assert_eq!(observation.id, item.id);
    assert_eq!(observation.source, item.source);
}

#[test]
fn core_theory_validation_accepts_minimal_coherent_library() {
    let library = sample_core_theory_library();
    let violations = validate_core_theory_library(&library);
    assert!(violations.is_empty());
}

#[test]
fn core_theory_validation_rejects_policy_missing_requirement_reference() {
    let mut library = sample_core_theory_library();
    library.policies[0].requirement = RequirementId::from_bytes([99u8; 16]);

    let violations = validate_core_theory_library(&library);

    assert!(violations.iter().any(|violation| {
        violation.code == TheoryViolationCode::MissingReference
            && violation.subject == TheorySubject::Policy(library.policies[0].id)
    }));
}

#[test]
fn core_theory_validation_rejects_model_declared_by_missing_actor() {
    let mut library = sample_core_theory_library();
    library.model.declared_by = ActorId::from_bytes([99u8; 16]);

    let violations = validate_core_theory_library(&library);

    assert!(violations.iter().any(|violation| {
        violation.code == TheoryViolationCode::MissingReference
            && violation.subject == TheorySubject::Model
    }));
}

#[test]
fn core_theory_validation_rejects_boundary_with_missing_anchor_referent() {
    let mut library = sample_core_theory_library();
    library.boundaries[0].side_a.anchor = ReferentId::from_bytes([99u8; 16]);

    let violations = validate_core_theory_library(&library);

    assert!(violations.iter().any(|violation| {
        violation.code == TheoryViolationCode::MissingReference
            && violation.subject == TheorySubject::Boundary(library.boundaries[0].id)
    }));
}

#[test]
fn core_theory_validation_rejects_scope_context_version_mismatch() {
    let mut library = sample_core_theory_library();
    library.scopes[0].context.model_version = SemVer::new("9.9.9").unwrap();

    let violations = validate_core_theory_library(&library);

    assert!(violations.iter().any(|violation| {
        violation.code == TheoryViolationCode::ContextInvariant
            && violation.subject == TheorySubject::Scope(library.scopes[0].id)
    }));
}

#[test]
fn core_theory_validation_rejects_edge_to_predicate_with_missing_referent() {
    let mut library = sample_core_theory_library();
    library.scopes[0].predicate = MembershipPredicateDeclaration::EdgeTo(EdgeToPredicateDeclaration {
        source_sort: library.scopes[0].referent_sort.clone(),
        edge_sort: EdgeSort::CrossesBoundary,
        to: ReferentId::from_bytes([88u8; 16]),
    });

    let violations = validate_core_theory_library(&library);

    assert!(violations.iter().any(|violation| {
        violation.code == TheoryViolationCode::MissingReference
            && violation.subject == TheorySubject::Scope(library.scopes[0].id)
    }));
}

#[test]
fn core_theory_validation_accepts_edge_to_with_typed_source_edges() {
    let mut library = sample_core_theory_library();
    let actor_referent = ReferentId::from_bytes([87u8; 16]);
    let target_referent = library.referents[1].id;
    library.referents.push(ReferentDeclaration {
        id: actor_referent,
        sort: ReferentSort::Actor,
    });
    library.edges.push(
        EdgeDeclaration::new(
            EdgeId::from_bytes([86u8; 16]),
            EdgeSort::DependsOn,
            actor_referent,
            target_referent,
        )
        .unwrap(),
    );
    library.scopes[0].referent_sort = ReferentSort::Actor;
    library.scopes[0].predicate = MembershipPredicateDeclaration::EdgeTo(EdgeToPredicateDeclaration {
        source_sort: ReferentSort::Actor,
        edge_sort: EdgeSort::DependsOn,
        to: target_referent,
    });

    let violations = validate_core_theory_library(&library);

    assert!(!violations.iter().any(|violation| {
        violation.subject == TheorySubject::Scope(library.scopes[0].id)
            && (violation.code == TheoryViolationCode::ScopeSortMismatch
                || violation.code == TheoryViolationCode::MissingReference)
    }));
}

#[test]
fn core_theory_validation_rejects_edge_to_with_mismatched_source_sort() {
    let mut library = sample_core_theory_library();
    library.scopes[0].referent_sort = ReferentSort::Actor;
    library.scopes[0].predicate = MembershipPredicateDeclaration::EdgeTo(EdgeToPredicateDeclaration {
        source_sort: ReferentSort::Actor,
        edge_sort: EdgeSort::CrossesBoundary,
        to: library.referents[1].id,
    });

    let violations = validate_core_theory_library(&library);

    assert!(violations.iter().any(|violation| {
        violation.code == TheoryViolationCode::ScopeSortMismatch
            && violation.subject == TheorySubject::Scope(library.scopes[0].id)
    }));
}

#[test]
fn core_theory_validation_rejects_edge_to_without_matching_edge_relation() {
    let mut library = sample_core_theory_library();
    library.scopes[0].referent_sort = ReferentSort::Boundary;
    library.scopes[0].predicate = MembershipPredicateDeclaration::EdgeTo(EdgeToPredicateDeclaration {
        source_sort: ReferentSort::Boundary,
        edge_sort: EdgeSort::DependsOn,
        to: library.referents[1].id,
    });

    let violations = validate_core_theory_library(&library);

    assert!(violations.iter().any(|violation| {
        violation.code == TheoryViolationCode::MissingReference
            && violation.subject == TheorySubject::Scope(library.scopes[0].id)
    }));
}

#[test]
fn core_theory_validation_rejects_requirement_operator_value_mismatch() {
    let mut library = sample_core_theory_library();
    library.requirements[0].operator = RequirementOperator::Presence(PresenceOperator::Required);
    library.requirements[0].value = TypedValue::U64(1);

    let violations = validate_core_theory_library(&library);

    assert!(violations.iter().any(|violation| {
        violation.code == TheoryViolationCode::ContextInvariant
            && violation.subject == TheorySubject::Requirement(library.requirements[0].id)
    }));
}

#[test]
fn core_theory_validation_rejects_requirement_sort_operator_mismatch() {
    let mut library = sample_core_theory_library();
    library.requirements[0].sort = RequirementSort::Count;
    library.requirements[0].operator = RequirementOperator::Presence(PresenceOperator::Required);
    library.requirements[0].value = TypedValue::Bool(true);

    let violations = validate_core_theory_library(&library);

    assert!(violations.iter().any(|violation| {
        violation.code == TheoryViolationCode::ContextInvariant
            && violation.subject == TheorySubject::Requirement(library.requirements[0].id)
    }));
}

#[test]
fn core_theory_validation_rejects_edge_to_scope_source_sort_invariant_bypass() {
    let mut library = sample_core_theory_library();
    library.scopes[0].referent_sort = ReferentSort::Actor;
    library.scopes[0].predicate = MembershipPredicateDeclaration::EdgeTo(EdgeToPredicateDeclaration {
        source_sort: ReferentSort::Boundary,
        edge_sort: EdgeSort::CrossesBoundary,
        to: library.referents[1].id,
    });

    let violations = validate_core_theory_library(&library);

    assert!(violations.iter().any(|violation| {
        violation.code == TheoryViolationCode::ContextInvariant
            && violation.subject == TheorySubject::Scope(library.scopes[0].id)
    }));
}

#[test]
fn core_theory_validation_rejects_boundary_side_label_invariant_bypass() {
    let mut library = sample_core_theory_library();
    library.boundaries[0].side_a.label = SideLabel::B;

    let violations = validate_core_theory_library(&library);

    assert!(violations.iter().any(|violation| {
        violation.code == TheoryViolationCode::ContextInvariant
            && violation.subject == TheorySubject::Boundary(library.boundaries[0].id)
    }));
}

#[test]
fn core_theory_validation_rejects_boundary_surface_label_invariant_bypass() {
    let mut library = sample_core_theory_library();
    library.boundaries[0].surface_a.facing = SideLabel::B;

    let violations = validate_core_theory_library(&library);

    assert!(violations.iter().any(|violation| {
        violation.code == TheoryViolationCode::ContextInvariant
            && violation.subject == TheorySubject::Boundary(library.boundaries[0].id)
    }));
}

#[test]
fn core_theory_validation_rejects_boundary_surface_boundary_link_invariant_bypass() {
    let mut library = sample_core_theory_library();
    library.boundaries[0].surface_a.boundary_id = BoundaryId::from_bytes([98u8; 16]);

    let violations = validate_core_theory_library(&library);

    assert!(violations.iter().any(|violation| {
        violation.code == TheoryViolationCode::ContextInvariant
            && violation.subject == TheorySubject::Boundary(library.boundaries[0].id)
    }));
}

#[test]
fn core_theory_validation_rejects_boundary_distinct_anchor_invariant_bypass() {
    let mut library = sample_core_theory_library();
    library.boundaries[0].side_b.anchor = library.boundaries[0].side_a.anchor;

    let violations = validate_core_theory_library(&library);

    assert!(violations.iter().any(|violation| {
        violation.code == TheoryViolationCode::ContextInvariant
            && violation.subject == TheorySubject::Boundary(library.boundaries[0].id)
    }));
}

#[test]
fn typed_scope_new_rejects_edge_to_source_sort_mismatch() {
    let scope_id = ScopeId::from_bytes([91u8; 16]);
    let edge_to = EdgeToPredicateDeclaration {
        source_sort: ReferentSort::Actor,
        edge_sort: EdgeSort::DependsOn,
        to: ReferentId::from_bytes([92u8; 16]),
    };

    let result = TypedScopeDeclaration::new(
        scope_id,
        ReferentSort::Boundary,
        EvaluationContextDeclaration {
            model_version: SemVer::new("1.0.0").unwrap(),
            namespace: None,
            boundary: None,
            actor_authority: None,
            snapshot_at: None,
            evidence_source: None,
        },
        MembershipPredicateDeclaration::EdgeTo(edge_to),
    );

    assert!(result.is_err());
}

#[test]
fn typed_scope_edge_to_constructor_uses_edge_to_source_sort() {
    let scope_id = ScopeId::from_bytes([93u8; 16]);
    let edge_to = EdgeToPredicateDeclaration {
        source_sort: ReferentSort::ProcessEvent,
        edge_sort: EdgeSort::LogsTo,
        to: ReferentId::from_bytes([94u8; 16]),
    };

    let scope = TypedScopeDeclaration::edge_to(
        scope_id,
        EvaluationContextDeclaration {
            model_version: SemVer::new("1.0.0").unwrap(),
            namespace: None,
            boundary: None,
            actor_authority: None,
            snapshot_at: None,
            evidence_source: None,
        },
        edge_to.clone(),
    );

    assert_eq!(scope.referent_sort, edge_to.source_sort);
    assert_eq!(scope.predicate, MembershipPredicateDeclaration::EdgeTo(edge_to));
}

#[test]
fn edge_declaration_rejects_self_loop() {
    let referent = ReferentId::from_bytes([60u8; 16]);
    assert!(EdgeDeclaration::new(
        EdgeId::from_bytes([61u8; 16]),
        EdgeSort::DependsOn,
        referent,
        referent
    )
    .is_err());
}

#[test]
fn boundary_declaration_rejects_shared_anchor() {
    let boundary_id = BoundaryId::from_bytes([62u8; 16]);
    let anchor = ReferentId::from_bytes([63u8; 16]);
    let result = BoundaryDeclaration::new(
        boundary_id,
        SideDeclaration {
            label: SideLabel::A,
            anchor,
        },
        SideDeclaration {
            label: SideLabel::B,
            anchor,
        },
        SurfaceDeclaration {
            id: SurfaceId::from_bytes([64u8; 16]),
            boundary_id,
            facing: SideLabel::A,
        },
        SurfaceDeclaration {
            id: SurfaceId::from_bytes([65u8; 16]),
            boundary_id,
            facing: SideLabel::B,
        },
    );
    assert!(result.is_err());
}

#[test]
fn evidence_basis_rejects_reference_repeated_in_context() {
    let observation = ObservationId::from_bytes([66u8; 16]);
    assert!(EvidenceBasis::new(NonEmptyVec::from_item(observation), vec![observation]).is_err());
    let other = ObservationId::from_bytes([67u8; 16]);
    let basis = EvidenceBasis::new(NonEmptyVec::from_item(observation), vec![other]).unwrap();
    assert_eq!(basis.context, vec![other]);
}

#[test]
fn core_theory_validation_reports_duplicate_actor_ids() {
    let mut library = sample_core_theory_library();
    let duplicate = library.actors[0].clone();
    library.actors.push(duplicate);

    let violations = validate_core_theory_library(&library);

    assert!(violations.iter().any(|violation| {
        violation.code == TheoryViolationCode::DuplicateId
            && violation.subject == TheorySubject::Actor(library.actors[0].id)
    }));
}

#[test]
fn core_theory_validation_reports_empty_required_sets() {
    let mut library = sample_core_theory_library();
    library.actors.clear();

    let violations = validate_core_theory_library(&library);

    assert!(violations
        .iter()
        .any(|violation| violation.code == TheoryViolationCode::EmptyRequiredSet));
}
