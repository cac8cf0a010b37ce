use jw_guard::declare::error::SymbolicNameError;
use jw_guard::declare::name::SymbolicName;
use jw_guard::declare::spec::{RequirementValueSpec, ScopePredicateSpec, VersionSpec};
use jw_guard::kernel::declared::{Direction, RequirementOperator};
use jw_guard::policy::compile::compile_document;
use jw_guard::policy::fragment::{merge_compiled_fragments, CompiledPolicyFragment, PolicyCompileError};
use jw_guard::policy::schema::{
    ApiVersion, EdgeBudgetPolicyScope, EdgeBudgetRequirement, EdgeDeclaration, EdgeDirection,
    GraphKind, NodeClass, PhaseLifecycle, PhaseName, PhaseRelation, PhaseSeparationPolicyScope,
    PhaseSeparationRequirement, PolicyDeclarations, PolicyDocument, PolicyEnvelope, PolicyKind,
    PolicyMetadata, PortEnvironment, PortExposure, PortProfile, PortProfilePolicyScope,
    PortProfileRequirement, ReferentDeclaration, RouteAction, RouteEndpoint, RouteTopology,
    ScopeConstraint, ScopePolicyDocument, ScopePolicyRequirement, ScopePolicyScope,
    ScopeSelector, ScopeTarget, TransportProtocol, TransportRouteRequirement,
    TransportRoutesPolicyScope,
};

fn name(value: &str) -> SymbolicName {
    SymbolicName::new(value).expect("test symbolic name should be valid")
}

fn scope_document() -> PolicyDocument {
    PolicyDocument::ScopePolicy(scope_policy_envelope())
}

fn scope_policy_envelope() -> ScopePolicyDocument {
    PolicyEnvelope {
        api_version: ApiVersion::V1Alpha1,
        kind: PolicyKind::ScopePolicy,
        metadata: PolicyMetadata {
            name: "scope-policy".into(),
            version: "1.0.0".into(),
        },
        scope: ScopePolicyScope {
            target: ScopeTarget::Workspace,
        },
        requirements: vec![ScopePolicyRequirement {
            selector: ScopeSelector::Source,
            constraint: ScopeConstraint::InScope,
        }],
        declarations: PolicyDeclarations::default(),
    }
}

fn phase_document() -> PolicyDocument {
    PolicyDocument::PhaseSeparationPolicy(PolicyEnvelope {
        api_version: ApiVersion::V1Alpha1,
        kind: PolicyKind::PhaseSeparationPolicy,
        metadata: PolicyMetadata {
            name: "phase-policy".into(),
            version: "1.0.0".into(),
        },
        scope: PhaseSeparationPolicyScope {
            lifecycle: PhaseLifecycle::BuildRuntime,
        },
        requirements: vec![PhaseSeparationRequirement {
            producer: PhaseName::Build,
            consumer: PhaseName::Sign,
            relation: PhaseRelation::Isolated,
        }],
        declarations: PolicyDeclarations::default(),
    })
}

fn edge_budget_document() -> PolicyDocument {
    PolicyDocument::EdgeBudgetPolicy(PolicyEnvelope {
        api_version: ApiVersion::V1Alpha1,
        kind: PolicyKind::EdgeBudgetPolicy,
        metadata: PolicyMetadata {
            name: "edge-policy".into(),
            version: "1.0.0".into(),
        },
        scope: EdgeBudgetPolicyScope {
            graph: GraphKind::Dependency,
        },
        requirements: vec![EdgeBudgetRequirement {
            source: NodeClass::Package,
            target: NodeClass::Service,
            max_edges: 4,
        }],
        declarations: PolicyDeclarations::default(),
    })
}

fn port_profile_document() -> PolicyDocument {
    PolicyDocument::PortProfilePolicy(PolicyEnvelope {
        api_version: ApiVersion::V1Alpha1,
        kind: PolicyKind::PortProfilePolicy,
        metadata: PolicyMetadata {
            name: "port-policy".into(),
            version: "1.0.0".into(),
        },
        scope: PortProfilePolicyScope {
            environment: PortEnvironment::Production,
        },
        requirements: vec![PortProfileRequirement {
            profile: PortProfile::ControlPlane,
            transport: TransportProtocol::Tcp,
            port: 9443,
            exposure: PortExposure::Internal,
        }],
        declarations: PolicyDeclarations::default(),
    })
}

fn transport_routes_document() -> PolicyDocument {
    PolicyDocument::TransportRoutesPolicy(PolicyEnvelope {
        api_version: ApiVersion::V1Alpha1,
        kind: PolicyKind::TransportRoutesPolicy,
        metadata: PolicyMetadata {
            name: "routes-policy".into(),
            version: "1.0.0".into(),
        },
        scope: TransportRoutesPolicyScope {
            topology: RouteTopology::Mesh,
        },
        requirements: vec![TransportRouteRequirement {
            from: RouteEndpoint::Runtime,
            to: RouteEndpoint::ControlPlane,
            transport: TransportProtocol::Grpc,
            action: RouteAction::Allow,
        }],
        declarations: PolicyDeclarations::default(),
    })
}

#[test]
fn compile_output_is_deterministic_for_same_input() {
    let document = scope_document();

    let first = compile_document(&document).expect("compile should succeed");
    let second = compile_document(&document).expect("compile should succeed");

    assert_eq!(first, second);
}

#[test]
fn merge_detects_conflicting_duplicates() {
    let base = compile_document(&scope_document()).expect("compile should succeed");
    let mut conflicting = base.clone();
    conflicting.scopes[0].referent_sort = 9_999;

    let error =
        merge_compiled_fragments(&[base, conflicting]).expect_err("merge should detect conflict");
    assert!(matches!(
        error,
        PolicyCompileError::ConflictingDuplicate { section: "scopes", .. }
    ));
}

#[test]
fn compile_first_five_policy_kinds_into_expected_fragments() {
    let cases = [
        (
            scope_document(),
            RequirementOperator::PresenceRequired,
            RequirementValueSpec::Name(name("selector-source")),
        ),
        (
            phase_document(),
            RequirementOperator::RelationNotExists,
            RequirementValueSpec::Name(name("phase-build-to-sign")),
        ),
        (
            edge_budget_document(),
            RequirementOperator::RelationEdgeCountMax,
            RequirementValueSpec::U64(4),
        ),
        (
            port_profile_document(),
            RequirementOperator::CountEqual,
            RequirementValueSpec::U64(9443),
        ),
        (
            transport_routes_document(),
            RequirementOperator::RelationExists,
            RequirementValueSpec::Name(name("route-runtime-to-control-plane-via-grpc")),
        ),
    ];

    for (document, expected_operator, expected_value) in cases {
        let fragment = compile_document(&document).expect("compile should succeed");
        assert_eq!(fragment.scopes.len(), 1);
        assert_eq!(fragment.requirements.len(), 1);
        assert_eq!(fragment.policies.len(), 1);
        assert_eq!(fragment.requirements[0].operator, expected_operator);
        assert_eq!(fragment.requirements[0].value, expected_value);
        assert!(matches!(
            fragment.scopes[0].predicate,
            ScopePredicateSpec::HasTag(_)
        ));
    }
}

#[test]
fn compile_emits_explicit_declarations_only_when_present() {
    let document = scope_document();
    let fragment = compile_document(&document).expect("compile should succeed");
    assert!(fragment.referents.is_empty());
    assert!(fragment.edges.is_empty());

    let mut with_declarations = scope_policy_envelope();
    with_declarations.declarations = PolicyDeclarations {
        referents: vec![ReferentDeclaration {
            name: "runtime".into(),
            sort: 1,
        }],
        edges: vec![EdgeDeclaration {
            name: "runtime-calls-audit".into(),
            sort: 1,
            direction: EdgeDirection::Directed,
            first: "runtime".into(),
            second: "audit".into(),
        }],
    };

    let fragment_with_declarations =
        compile_document(&PolicyDocument::ScopePolicy(with_declarations))
            .expect("compile should succeed");
    assert_eq!(fragment_with_declarations.referents.len(), 1);
    assert_eq!(fragment_with_declarations.edges.len(), 1);
    assert_eq!(fragment_with_declarations.edges[0].direction, Direction::Directed);
    assert_eq!(fragment_with_declarations.edges[0].second, name("audit"));
}

#[test]
fn compile_derives_names_version_and_scope_from_metadata() {
    let fragment = compile_document(&scope_document()).expect("compile should succeed");
    let scope = &fragment.scopes[0];
    assert_eq!(scope.name, name("scope-policy-scope-policy-scope"));
    assert_eq!(scope.referent_sort, 101);
    assert_eq!(scope.snapshot_unix_seconds, 0);
    assert_eq!(scope.namespace, name("policy-scope-policy"));
    assert_eq!(scope.mapper_version, VersionSpec { major: 1, minor: 0, patch: 0 });
    assert_eq!(scope.predicate, ScopePredicateSpec::HasTag(name("target-workspace")));
    assert_eq!(fragment.requirements[0].name, name("scope-policy-scope-policy-requirement-000"));
    assert_eq!(fragment.requirements[0].sort, 1);
    let policy = &fragment.policies[0];
    assert_eq!(policy.name, name("scope-policy-scope-policy-policy-000"));
    assert_eq!(policy.declared_by, name("scope-policy"));
    assert_eq!(policy.scope, name("scope-policy-scope-policy-scope"));
    assert_eq!(policy.requirement, name("scope-policy-scope-policy-requirement-000"));
}

#[test]
fn compile_sorts_requirements_by_name() {
    let mut envelope = scope_policy_envelope();
    envelope.requirements = (0..12)
        .map(|_| ScopePolicyRequirement {
            selector: ScopeSelector::Build,
            constraint: ScopeConstraint::OutOfScope,
        })
        .collect();
    let fragment =
        compile_document(&PolicyDocument::ScopePolicy(envelope)).expect("compile should succeed");
    assert_eq!(fragment.requirements.len(), 12);
    assert_eq!(fragment.requirements[11].name, name("scope-policy-scope-policy-requirement-011"));
    assert_eq!(fragment.requirements[11].sort, 12);
    assert_eq!(
        fragment.requirements[0].operator,
        RequirementOperator::PresenceForbidden
    );
    for pair in fragment.requirements.windows(2) {
        assert!(pair[0].name < pair[1].name);
    }
}

#[test]
fn compile_refuses_inconsistent_kind() {
    let mut envelope = scope_policy_envelope();
    envelope.kind = PolicyKind::PortProfilePolicy;
    let error = compile_document(&PolicyDocument::ScopePolicy(envelope)).expect_err("kind");
    assert_eq!(
        error,
        PolicyCompileError::InconsistentPolicyKind {
            expected: PolicyKind::ScopePolicy,
            found: PolicyKind::PortProfilePolicy,
        }
    );
}

#[test]
fn compile_refuses_empty_requirements() {
    let mut envelope = scope_policy_envelope();
    envelope.requirements = vec![];
    let error = compile_document(&PolicyDocument::ScopePolicy(envelope)).expect_err("empty");
    assert_eq!(
        error,
        PolicyCompileError::EmptyRequirements {
            kind: PolicyKind::ScopePolicy,
            policy_name: "scope-policy".to_string(),
        }
    );
}

#[test]
fn compile_refuses_invalid_policy_name() {
    let mut envelope = scope_policy_envelope();
    envelope.metadata.name = "Scope".into();
    let error = compile_document(&PolicyDocument::ScopePolicy(envelope)).expect_err("name");
    assert_eq!(
        error,
        PolicyCompileError::InvalidSymbolicName {
            field: "scope.name",
            value: "scope-policy-Scope-scope".to_string(),
            source: SymbolicNameError::InvalidCharacter { index: 13, character: 'S' },
        }
    );

    let mut unnamed = scope_policy_envelope();
    unnamed.metadata.name = "".into();
    let error = compile_document(&PolicyDocument::ScopePolicy(unnamed)).expect_err("empty name");
    assert_eq!(
        error,
        PolicyCompileError::InvalidSymbolicName {
            field: "policy.declared_by",
            value: String::new(),
            source: SymbolicNameError::Empty,
        }
    );
}

#[test]
fn compile_refuses_invalid_versions() {
    for version in ["1.0", "1.0.0.0", "1.x.0", "1..0", "70000.0.0", ""] {
        let mut envelope = scope_policy_envelope();
        envelope.metadata.version = version.into();
        let error = compile_document(&PolicyDocument::ScopePolicy(envelope)).expect_err("version");
        assert_eq!(
            error,
            PolicyCompileError::InvalidVersion {
                value: version.to_string(),
            }
        );
    }
    let mut envelope = scope_policy_envelope();
    envelope.metadata.version = "+2.10.65535".into();
    let fragment =
        compile_document(&PolicyDocument::ScopePolicy(envelope)).expect("plus sign is accepted");
    assert_eq!(
        fragment.scopes[0].mapper_version,
        VersionSpec { major: 2, minor: 10, patch: 65535 }
    );
}

#[test]
fn compile_refuses_invalid_declared_edge_endpoint() {
    let mut envelope = scope_policy_envelope();
    envelope.declarations.edges = vec![EdgeDeclaration {
        name: "runtime-calls-audit".into(),
        sort: 1,
        direction: EdgeDirection::Undirected,
        first: "runtime".into(),
        second: "Audit".into(),
    }];
    let error = compile_document(&PolicyDocument::ScopePolicy(envelope)).expect_err("edge");
    assert_eq!(
        error,
        PolicyCompileError::InvalidSymbolicName {
            field: "declarations.edges.second",
            value: "Audit".to_string(),
            source: SymbolicNameError::InvalidCharacter { index: 0, character: 'A' },
        }
    );
}

#[test]
fn merge_collapses_identical_duplicates_and_sorts() {
    let scope = compile_document(&scope_document()).expect("compile should succeed");
    let phase = compile_document(&phase_document()).expect("compile should succeed");
    let merged = merge_compiled_fragments(&[phase.clone(), scope.clone(), scope.clone()])
        .expect("identical duplicates merge");
    assert_eq!(merged.scopes.len(), 2);
    assert_eq!(merged.requirements.len(), 2);
    assert_eq!(merged.policies.len(), 2);
    assert_eq!(merged.scopes[0].name, name("phase-separation-phase-policy-scope"));
    assert_eq!(merged.scopes[1].name, name("scope-policy-scope-policy-scope"));

    let again = merge_compiled_fragments(&[merged.clone()]).expect("merge is idempotent");
    assert_eq!(again, merged);

    let empty = merge_compiled_fragments(&[]).expect("nothing to merge");
    assert_eq!(empty, CompiledPolicyFragment::default());
}

#[test]
fn merge_reports_first_conflicting_section_and_name() {
    let base = compile_document(&scope_document()).expect("compile should succeed");
    let mut conflicting = base.clone();
    conflicting.policies[0].declared_by = name("someone-else");
    let error = merge_compiled_fragments(&[base, conflicting]).expect_err("conflict");
    assert_eq!(
        error,
        PolicyCompileError::ConflictingDuplicate {
            section: "policies",
            name: "scope-policy-scope-policy-policy-000".to_string(),
        }
    );
}

#[test]
fn document_kind_follows_the_variant() {
    assert_eq!(scope_document().kind(), PolicyKind::ScopePolicy);
    assert_eq!(phase_document().kind(), PolicyKind::PhaseSeparationPolicy);
    assert_eq!(edge_budget_document().kind(), PolicyKind::EdgeBudgetPolicy);
    assert_eq!(port_profile_document().kind(), PolicyKind::PortProfilePolicy);
    assert_eq!(transport_routes_document().kind(), PolicyKind::TransportRoutesPolicy);
}
