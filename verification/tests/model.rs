use jw_guard::kernel::composites::{
    AccessDecision, GateEvaluation, TrustChain,
    ArtifactContract, BoundarySpec, IntegrityRequirement, Policy, SecurityModel, TrustRequirement,
};
use jw_guard::kernel::enums::{
    Cadence, Capability, CredentialMechanism, CredentialStrength, FailMode, GateVerdict,
    IdentityKind, IsolationMechanism, LayerHardness, LayerMechanism, PolicyStatus, SurfaceFacing,
    TrustBasis, TrustLevel, VerificationKind, ZoneKind,
};
use jw_guard::kernel::id::{
    BoundaryId, CredentialId, GateId, IdentityId, LayerId, PolicyId, RouteId, ScopeId, SurfaceId,
    TrustId, ZoneId,
};
use jw_guard::kernel::scalars::{
    AbsolutePath, DisplayName, GateSequence, MediaType, NonEmptyVec, Port, SemVer, UtcTimestamp,
    ZonePurpose,
};
use jw_guard::kernel::structs::{
    Boundary, BoundaryEnd, Credential, CredentialBinding, CredentialLifecycle, CredentialMaterial,
    DeclarationMetadata, Gate, Identity, Layer, Route, RouteEndpoints, Scope, Surface, Trust,
    TrustGrant, TrustParties, Zone,
};
use jw_guard::kernel::scalars::NonEmptyString;
use jw_guard::kernel::validation::{
    validate_access_decision, validate_trust_chain,
    summarize_violation_classifications, validate_security_model, ValidationSubject, Violation,
    ViolationClassification, ViolationClassificationCounts, ViolationCode, ViolationSeverity,
};

fn zone_id(byte: u8) -> ZoneId {
    ZoneId::from_bytes([byte; 16])
}

fn boundary_id(byte: u8) -> BoundaryId {
    BoundaryId::from_bytes([byte; 16])
}

fn surface_id(byte: u8) -> SurfaceId {
    SurfaceId::from_bytes([byte; 16])
}

fn route_id(byte: u8) -> RouteId {
    RouteId::from_bytes([byte; 16])
}

fn layer_id(byte: u8) -> LayerId {
    LayerId::from_bytes([byte; 16])
}

fn gate_id(byte: u8) -> GateId {
    GateId::from_bytes([byte; 16])
}

fn identity_id(byte: u8) -> IdentityId {
    IdentityId::from_bytes([byte; 16])
}

fn scope_id(byte: u8) -> ScopeId {
    ScopeId::from_bytes([byte; 16])
}

fn credential_id(byte: u8) -> CredentialId {
    CredentialId::from_bytes([byte; 16])
}

fn trust_id(byte: u8) -> TrustId {
    TrustId::from_bytes([byte; 16])
}

fn timestamp() -> UtcTimestamp {
    UtcTimestamp::new("2026-05-15T00:00:00Z").unwrap()
}

fn empty_model() -> SecurityModel {
    SecurityModel {
        model_version: SemVer::new("0.1.0").unwrap(),
        zones: Vec::new(),
        boundary_specs: Vec::new(),
        routes: Vec::new(),
        policies: Vec::new(),
        identities: Vec::new(),
        scopes: Vec::new(),
        credentials: Vec::new(),
        trusts: Vec::new(),
    }
}

fn zone(
    byte: u8,
    kind: ZoneKind,
    trust_level: TrustLevel,
    isolation: IsolationMechanism,
    root: &str,
) -> Zone {
    Zone::new(
        zone_id(byte),
        kind,
        ZonePurpose::new("test zone").unwrap(),
        trust_level,
        isolation,
        NonEmptyVec::new(vec![AbsolutePath::new(root).unwrap()], "filesystem_roots").unwrap(),
        timestamp(),
    )
    .unwrap()
}

fn boundary_spec(byte: u8, side_a: BoundaryEnd, side_b: BoundaryEnd) -> BoundarySpec {
    let boundary = Boundary::new(boundary_id(byte), side_a, side_b).unwrap();
    let surface_a = Surface {
        id: surface_id(byte),
        boundary_id: boundary.id,
        facing: SurfaceFacing::A,
        exposed_paths: Vec::new(),
        exposed_listeners: Vec::new(),
        exposed_capabilities: Vec::new(),
    };
    let surface_b = Surface {
        id: surface_id(byte + 1),
        boundary_id: boundary.id,
        facing: SurfaceFacing::B,
        exposed_paths: Vec::new(),
        exposed_listeners: Vec::new(),
        exposed_capabilities: Vec::new(),
    };
    BoundarySpec::new(boundary, Vec::new(), [surface_a, surface_b])
}

fn scope(id: ScopeId, zone_id: ZoneId, capability: Capability) -> Scope {
    Scope {
        id,
        zone_id,
        capabilities: NonEmptyVec::from_item(capability),
        constraints: Vec::new(),
    }
}

fn has_violation(
    violations: &[Violation],
    code: ViolationCode,
    subject: ValidationSubject,
) -> bool {
    violations
        .iter()
        .any(|violation| violation.code == code && violation.subject == subject)
}

#[test]
fn violation_code_classifies_neutral_invariant() {
    assert_eq!(
        ViolationCode::DuplicateId.classification(),
        ViolationClassification::NeutralCoreInvariant
    );
}

#[test]
fn violation_code_classifies_policy_profile_invariant() {
    assert_eq!(
        ViolationCode::GateMissingVerification.classification(),
        ViolationClassification::PolicyProfileInvariant
    );
}

#[test]
fn violation_summary_counts_by_classification() {
    let violations = vec![
        Violation {
            severity: ViolationSeverity::Error,
            code: ViolationCode::DuplicateId,
            subject: ValidationSubject::Model,
        },
        Violation {
            severity: ViolationSeverity::Warning,
            code: ViolationCode::BoundarySpecUnprotected,
            subject: ValidationSubject::Model,
        },
        Violation {
            severity: ViolationSeverity::Error,
            code: ViolationCode::MissingReference,
            subject: ValidationSubject::Model,
        },
    ];

    assert_eq!(
        summarize_violation_classifications(&violations),
        ViolationClassificationCounts {
            neutral_core_invariant: 2,
            policy_profile_invariant: 1,
        }
    );
}

#[test]
fn port_zero_is_rejected() {
    assert!(Port::new(0).is_err());
    assert_eq!(Port::new(443).unwrap().get(), 443);
}

#[test]
fn signature_contract_requires_hash() {
    let media_types =
        NonEmptyVec::new(vec![MediaType::new("application/json").unwrap()], "media").unwrap();

    assert!(ArtifactContract::from_flags(media_types, Vec::new(), false, true, None).is_err());
}

#[test]
fn boundary_spec_computes_empty_posture() {
    let boundary = Boundary::new(
        boundary_id(10),
        BoundaryEnd::Zone(zone_id(1)),
        BoundaryEnd::Zone(zone_id(2)),
    )
    .unwrap();
    let surface_a = Surface {
        id: surface_id(1),
        boundary_id: boundary.id,
        facing: SurfaceFacing::A,
        exposed_paths: Vec::new(),
        exposed_listeners: Vec::new(),
        exposed_capabilities: Vec::new(),
    };
    let surface_b = Surface {
        id: surface_id(2),
        boundary_id: boundary.id,
        facing: SurfaceFacing::B,
        exposed_paths: Vec::new(),
        exposed_listeners: Vec::new(),
        exposed_capabilities: Vec::new(),
    };

    let spec = BoundarySpec::new(boundary, Vec::new(), [surface_a, surface_b]);

    assert_eq!(spec.effective_hardness(), None);
    assert_eq!(spec.effective_fail_mode(), FailMode::FailOpen);
}

#[test]
fn model_validation_detects_overlapping_zone_roots() {
    let zone_a = Zone::new(
        zone_id(1),
        ZoneKind::Dev,
        ZonePurpose::new("source authoring").unwrap(),
        TrustLevel::Standard,
        IsolationMechanism::UserAccount,
        NonEmptyVec::new(
            vec![AbsolutePath::new("/Users/dev-admin").unwrap()],
            "filesystem_roots",
        )
        .unwrap(),
        timestamp(),
    )
    .unwrap();
    let zone_b = Zone::new(
        zone_id(2),
        ZoneKind::Build,
        ZonePurpose::new("build execution").unwrap(),
        TrustLevel::High,
        IsolationMechanism::Vm,
        NonEmptyVec::new(
            vec![AbsolutePath::new("/Users/dev-admin/project").unwrap()],
            "filesystem_roots",
        )
        .unwrap(),
        timestamp(),
    )
    .unwrap();
    let model = SecurityModel {
        model_version: SemVer::new("0.1.0").unwrap(),
        zones: vec![zone_a, zone_b],
        boundary_specs: Vec::new(),
        routes: Vec::new(),
        policies: Vec::new(),
        identities: Vec::new(),
        scopes: Vec::new(),
        credentials: Vec::new(),
        trusts: Vec::new(),
    };

    let violations = validate_security_model(&model);

    assert!(violations
        .iter()
        .any(|violation| violation.code == ViolationCode::FilesystemRootOverlap));
}

#[test]
fn model_validation_detects_duplicate_scope_ids() {
    let dev_zone = zone(
        1,
        ZoneKind::Dev,
        TrustLevel::Standard,
        IsolationMechanism::UserAccount,
        "/zones/dev",
    );
    let duplicate_id = scope_id(1);
    let mut model = empty_model();
    model.zones = vec![dev_zone.clone()];
    model.scopes = vec![
        scope(duplicate_id, dev_zone.id, Capability::FsRead),
        scope(duplicate_id, dev_zone.id, Capability::FsWrite),
    ];

    let violations = validate_security_model(&model);

    assert!(has_violation(
        &violations,
        ViolationCode::DuplicateId,
        ValidationSubject::Scope(duplicate_id),
    ));
}

#[test]
fn model_validation_detects_missing_route_declarer() {
    let dev_zone = zone(
        1,
        ZoneKind::Dev,
        TrustLevel::Standard,
        IsolationMechanism::UserAccount,
        "/zones/dev",
    );
    let build_zone = zone(
        2,
        ZoneKind::Build,
        TrustLevel::Low,
        IsolationMechanism::Container,
        "/zones/build",
    );
    let boundary = boundary_spec(
        1,
        BoundaryEnd::Zone(dev_zone.id),
        BoundaryEnd::Zone(build_zone.id),
    );
    let route = Route::new(
        route_id(1),
        RouteEndpoints::new(
            BoundaryEnd::Zone(dev_zone.id),
            BoundaryEnd::Zone(build_zone.id),
        )
        .unwrap(),
        boundary.boundary.id,
        Cadence::Push,
        true,
        DeclarationMetadata {
            declared_at: timestamp(),
            declared_by: identity_id(99),
        },
    )
    .unwrap();
    let mut model = empty_model();
    model.zones = vec![dev_zone, build_zone];
    model.boundary_specs = vec![boundary];
    model.routes = vec![route];

    let violations = validate_security_model(&model);

    assert!(has_violation(
        &violations,
        ViolationCode::MissingReference,
        ValidationSubject::Route(route_id(1)),
    ));
}

#[test]
fn model_validation_allows_non_airlock_signing_route_with_required_verification() {
    let signing_zone = zone(
        1,
        ZoneKind::Signing,
        TrustLevel::Critical,
        IsolationMechanism::Physical,
        "/zones/signing",
    );
    let release_zone = zone(
        2,
        ZoneKind::Release,
        TrustLevel::Standard,
        IsolationMechanism::UserAccount,
        "/zones/release",
    );
    let boundary = boundary_spec(
        1,
        BoundaryEnd::Zone(signing_zone.id),
        BoundaryEnd::Zone(release_zone.id),
    );
    let route = Route::new(
        route_id(2),
        RouteEndpoints::new(
            BoundaryEnd::Zone(signing_zone.id),
            BoundaryEnd::Zone(release_zone.id),
        )
        .unwrap(),
        boundary.boundary.id,
        Cadence::Push,
        true,
        DeclarationMetadata {
            declared_at: timestamp(),
            declared_by: identity_id(1),
        },
    )
    .unwrap();
    let gate = Gate {
        id: gate_id(1),
        route_id: route.id,
        sequence: GateSequence::new(1).unwrap(),
        required_verifications: NonEmptyVec::from_item(VerificationKind::SignatureValidity),
        verdict: GateVerdict::Pending,
    };
    let policy = Policy {
        id: PolicyId::from_bytes([1; 16]),
        route_id: route.id,
        contract: ArtifactContract::new(
            NonEmptyVec::from_item(MediaType::new("application/octet-stream").unwrap()),
            Vec::new(),
            IntegrityRequirement::Hash,
            None,
        ),
        gates: NonEmptyVec::from_item(gate),
        required_trust: NonEmptyVec::from_item(TrustRequirement {
            role: IdentityKind::Service,
            minimum_credential: CredentialStrength::PrimarySoftware,
            required_capabilities: NonEmptyVec::from_item(Capability::RouteExecuteTransfer),
        }),
        status: PolicyStatus::Active,
        version: SemVer::new("1.0.0").unwrap(),
        declared_at: timestamp(),
        declared_by: identity_id(1),
    };
    let mut secured_boundary = boundary.clone();
    secured_boundary.layers.push(Layer {
        id: layer_id(1),
        boundary_id: boundary.boundary.id,
        mechanism: LayerMechanism::Hypervisor,
        hardness: LayerHardness::H4,
        fail_mode: FailMode::FailClosed,
        enforced: true,
        verified_at: Some(timestamp()),
    });
    let declarer = Identity::new(
        identity_id(1),
        IdentityKind::Service,
        DisplayName::new("Route declarer").unwrap(),
        Some(signing_zone.id),
        false,
        timestamp(),
    )
    .unwrap();

    let mut model = empty_model();
    model.zones = vec![signing_zone, release_zone];
    model.boundary_specs = vec![secured_boundary];
    model.routes = vec![route];
    model.policies = vec![policy];
    model.identities = vec![declarer];

    let violations = validate_security_model(&model);

    assert!(!has_violation(
        &violations,
        ViolationCode::GateMissingVerification,
        ValidationSubject::Gate(gate_id(1)),
    ));
    assert!(violations.is_empty());
}

#[test]
fn model_validation_detects_trust_grant_without_authority() {
    let dev_zone = zone(
        1,
        ZoneKind::Dev,
        TrustLevel::Standard,
        IsolationMechanism::UserAccount,
        "/zones/dev",
    );
    let admin = Identity::new(
        identity_id(1),
        IdentityKind::ZoneAdmin,
        DisplayName::new("Dev admin").unwrap(),
        Some(dev_zone.id),
        false,
        timestamp(),
    )
    .unwrap();
    let service = Identity::new(
        identity_id(2),
        IdentityKind::Service,
        DisplayName::new("Build service").unwrap(),
        Some(dev_zone.id),
        false,
        timestamp(),
    )
    .unwrap();
    let read_scope = scope(scope_id(1), dev_zone.id, Capability::FsRead);
    let trust = Trust::new(
        trust_id(1),
        TrustParties {
            identity_id: service.id,
            scope_id: read_scope.id,
            granted_by: admin.id,
        },
        TrustGrant {
            basis: TrustBasis::RoleAssignment,
            granted_at: timestamp(),
            expires_at: None,
            requires_credential: CredentialStrength::PrimarySoftware,
            active: true,
        },
    )
    .unwrap();
    let mut model = empty_model();
    model.zones = vec![dev_zone];
    model.identities = vec![admin, service];
    model.scopes = vec![read_scope];
    model.trusts = vec![trust];

    let violations = validate_security_model(&model);

    assert!(has_violation(
        &violations,
        ViolationCode::TrustGrantAuthorityMissing,
        ValidationSubject::Trust(trust_id(1)),
    ));
}

#[test]
fn model_validation_rejects_multiple_root_bootstrap_self_grants() {
    let identity_zone = zone(
        1,
        ZoneKind::Identity,
        TrustLevel::Critical,
        IsolationMechanism::Physical,
        "/zones/identity",
    );
    let root = Identity::new(
        identity_id(1),
        IdentityKind::Root,
        DisplayName::new("Root").unwrap(),
        None,
        false,
        timestamp(),
    )
    .unwrap();
    let credential = Credential::new(
        credential_id(1),
        CredentialBinding {
            identity_id: root.id,
            stored_in: identity_zone.id,
        },
        CredentialMaterial {
            mechanism: CredentialMechanism::PasswordOffline,
            strength: CredentialStrength::PrimaryHardware,
            fingerprint: None,
        },
        CredentialLifecycle {
            expires_at: None,
            rotated_at: timestamp(),
        },
    )
    .unwrap();
    let root_scope = scope(scope_id(1), identity_zone.id, Capability::ZoneDeclare);
    let first_bootstrap = Trust::new(
        trust_id(1),
        TrustParties {
            identity_id: root.id,
            scope_id: root_scope.id,
            granted_by: root.id,
        },
        TrustGrant {
            basis: TrustBasis::SystemBootstrap,
            granted_at: timestamp(),
            expires_at: None,
            requires_credential: CredentialStrength::PrimaryHardware,
            active: true,
        },
    )
    .unwrap();
    let second_bootstrap = Trust::new(
        trust_id(2),
        TrustParties {
            identity_id: root.id,
            scope_id: root_scope.id,
            granted_by: root.id,
        },
        TrustGrant {
            basis: TrustBasis::SystemBootstrap,
            granted_at: timestamp(),
            expires_at: None,
            requires_credential: CredentialStrength::PrimaryHardware,
            active: true,
        },
    )
    .unwrap();
    let mut model = empty_model();
    model.zones = vec![identity_zone];
    model.identities = vec![root];
    model.scopes = vec![root_scope];
    model.credentials = vec![credential];
    model.trusts = vec![first_bootstrap, second_bootstrap];

    let violations = validate_security_model(&model);

    assert!(has_violation(
        &violations,
        ViolationCode::TrustInvariant,
        ValidationSubject::Trust(trust_id(2)),
    ));
}


fn layer(byte: u8, boundary: BoundaryId, hardness: LayerHardness, fail_mode: FailMode, enforced: bool) -> Layer {
    Layer {
        id: layer_id(byte),
        boundary_id: boundary,
        mechanism: LayerMechanism::CapabilityRestriction,
        hardness,
        fail_mode,
        enforced,
        verified_at: None,
    }
}

#[test]
fn constructors_enforce_static_invariants() {
    let roots = || NonEmptyVec::new(vec![AbsolutePath::new("/z").unwrap()], "filesystem_roots").unwrap();
    assert!(Zone::new(
        zone_id(1),
        ZoneKind::Signing,
        ZonePurpose::new("sign").unwrap(),
        TrustLevel::Critical,
        IsolationMechanism::Container,
        roots(),
        timestamp(),
    )
    .is_err());
    assert!(Zone::new(
        zone_id(1),
        ZoneKind::Quarantine,
        ZonePurpose::new("intake").unwrap(),
        TrustLevel::Low,
        IsolationMechanism::Vm,
        roots(),
        timestamp(),
    )
    .is_err());
    assert!(Boundary::new(boundary_id(1), BoundaryEnd::Outside, BoundaryEnd::Outside).is_err());
    assert!(RouteEndpoints::new(BoundaryEnd::Zone(zone_id(1)), BoundaryEnd::Zone(zone_id(1))).is_err());
    assert!(Identity::new(
        identity_id(1),
        IdentityKind::Service,
        DisplayName::new("svc").unwrap(),
        None,
        false,
        timestamp(),
    )
    .is_err());
    assert!(Identity::new(
        identity_id(1),
        IdentityKind::Root,
        DisplayName::new("root").unwrap(),
        None,
        true,
        timestamp(),
    )
    .is_err());
    assert!(Credential::new(
        credential_id(1),
        CredentialBinding {
            identity_id: identity_id(1),
            stored_in: zone_id(1),
        },
        CredentialMaterial {
            mechanism: CredentialMechanism::Biometric,
            strength: CredentialStrength::PrimaryHardware,
            fingerprint: None,
        },
        CredentialLifecycle {
            expires_at: None,
            rotated_at: timestamp(),
        },
    )
    .is_err());
    let grant = |strength| TrustGrant {
        basis: TrustBasis::RoleAssignment,
        granted_at: timestamp(),
        expires_at: None,
        requires_credential: strength,
        active: true,
    };
    let parties = TrustParties {
        identity_id: identity_id(1),
        scope_id: scope_id(1),
        granted_by: identity_id(2),
    };
    assert!(Trust::new(trust_id(1), parties, grant(CredentialStrength::Ephemeral)).is_err());
    let self_parties = TrustParties {
        identity_id: identity_id(1),
        scope_id: scope_id(1),
        granted_by: identity_id(1),
    };
    assert!(Trust::new(trust_id(1), self_parties, grant(CredentialStrength::PrimarySoftware)).is_err());
}

#[test]
fn boundary_spec_posture_follows_enforced_layers() {
    let boundary = Boundary::new(
        boundary_id(10),
        BoundaryEnd::Zone(zone_id(1)),
        BoundaryEnd::Outside,
    )
    .unwrap();
    let spec = boundary_spec(10, BoundaryEnd::Zone(zone_id(1)), BoundaryEnd::Outside);
    let mut spec = BoundarySpec::new(boundary, Vec::new(), spec.surfaces.clone());
    spec.layers = vec![
        layer(1, boundary.id, LayerHardness::H2, FailMode::FailOpen, true),
        layer(2, boundary.id, LayerHardness::H3, FailMode::FailClosed, false),
    ];
    assert_eq!(spec.effective_hardness(), Some(LayerHardness::H2));
    assert_eq!(spec.effective_fail_mode(), FailMode::FailOpen);
    spec.layers[1].enforced = true;
    assert_eq!(spec.effective_hardness(), Some(LayerHardness::H3));
    assert_eq!(spec.effective_fail_mode(), FailMode::FailClosed);
}

#[test]
fn model_validation_reports_layer_and_fail_open_on_high_trust_boundary() {
    let high = zone(
        1,
        ZoneKind::Build,
        TrustLevel::High,
        IsolationMechanism::Vm,
        "/zones/high",
    );
    let low = zone(
        2,
        ZoneKind::Dev,
        TrustLevel::Low,
        IsolationMechanism::UserAccount,
        "/zones/low",
    );
    let mut spec = boundary_spec(1, BoundaryEnd::Zone(low.id), BoundaryEnd::Zone(high.id));
    let id = spec.boundary.id;
    spec.layers.push(layer(1, id, LayerHardness::H5, FailMode::FailOpen, true));
    let mut model = empty_model();
    model.zones = vec![high, low];
    model.boundary_specs = vec![spec];

    let violations = validate_security_model(&model);

    assert!(has_violation(&violations, ViolationCode::LayerHardnessMismatch, ValidationSubject::Boundary(id)));
    assert!(has_violation(&violations, ViolationCode::HighTrustBoundaryFailOpen, ValidationSubject::Boundary(id)));
    assert!(has_violation(&violations, ViolationCode::BoundaryTrustOrder, ValidationSubject::Boundary(id)));
}

#[test]
fn model_validation_reports_route_without_gate_and_missing_boundary() {
    let route = Route::new(
        route_id(7),
        RouteEndpoints::new(BoundaryEnd::Zone(zone_id(1)), BoundaryEnd::Outside).unwrap(),
        boundary_id(9),
        Cadence::Pull,
        true,
        DeclarationMetadata {
            declared_at: timestamp(),
            declared_by: identity_id(3),
        },
    )
    .unwrap();
    let mut model = empty_model();
    model.routes = vec![route];

    let violations = validate_security_model(&model);

    assert_eq!(
        violations,
        vec![
            Violation {
                severity: ViolationSeverity::Error,
                code: ViolationCode::MissingReference,
                subject: ValidationSubject::Route(route_id(7)),
            },
            Violation {
                severity: ViolationSeverity::Error,
                code: ViolationCode::RouteWithoutGate,
                subject: ValidationSubject::Route(route_id(7)),
            },
        ]
    );
}

#[test]
fn empty_model_has_no_violations() {
    assert!(validate_security_model(&empty_model()).is_empty());
}

#[test]
fn root_without_offline_password_is_reported() {
    let root = Identity::new(
        identity_id(1),
        IdentityKind::Root,
        DisplayName::new("Root").unwrap(),
        None,
        false,
        timestamp(),
    )
    .unwrap();
    let mut model = empty_model();
    model.identities = vec![root];
    let violations = validate_security_model(&model);
    assert!(has_violation(
        &violations,
        ViolationCode::RootOfflineCredentialMissing,
        ValidationSubject::Identity(identity_id(1)),
    ));
    assert_eq!(
        summarize_violation_classifications(&violations),
        ViolationClassificationCounts {
            neutral_core_invariant: 0,
            policy_profile_invariant: 1,
        }
    );
}

#[test]
fn policy_gates_must_increase_and_stay_on_route() {
    let gate = |byte: u8, route: RouteId, sequence: u32| Gate {
        id: gate_id(byte),
        route_id: route,
        sequence: GateSequence::new(sequence).unwrap(),
        required_verifications: NonEmptyVec::from_item(VerificationKind::HashIntegrity),
        verdict: GateVerdict::Pending,
    };
    let policy = Policy {
        id: PolicyId::from_bytes([4; 16]),
        route_id: route_id(1),
        contract: ArtifactContract::new(
            NonEmptyVec::from_item(MediaType::new("application/json").unwrap()),
            Vec::new(),
            IntegrityRequirement::Hash,
            None,
        ),
        gates: NonEmptyVec::new(vec![gate(1, route_id(1), 2), gate(2, route_id(2), 2)], "gates").unwrap(),
        required_trust: NonEmptyVec::from_item(TrustRequirement {
            role: IdentityKind::Service,
            minimum_credential: CredentialStrength::PrimarySoftware,
            required_capabilities: NonEmptyVec::from_item(Capability::RouteExecuteTransfer),
        }),
        status: PolicyStatus::Active,
        version: SemVer::new("1.0.0").unwrap(),
        declared_at: timestamp(),
        declared_by: identity_id(1),
    };
    let violations = jw_guard::kernel::validation::validate_policy(&policy);
    assert_eq!(
        violations,
        vec![Violation {
            severity: ViolationSeverity::Error,
            code: ViolationCode::PolicyInvariant,
            subject: ValidationSubject::Policy(PolicyId::from_bytes([4; 16])),
        }]
    );
}

#[test]
fn gate_evaluation_and_trust_chain_rules() {

    let denial = GateEvaluation {
        gate_id: gate_id(1),
        verdict: GateVerdict::Deny,
        reason: None,
        evaluated_at: timestamp(),
    };
    assert_eq!(validate_access_decision(&AccessDecision::GateEvaluation(denial)).len(), 1);
    assert!(validate_access_decision(&AccessDecision::PreGateDenial(
        NonEmptyString::new("no route").unwrap()
    ))
    .is_empty());

    let trust = |byte: u8, identity: u8, granted_by: u8, basis: TrustBasis| Trust {
        id: trust_id(byte),
        identity_id: identity_id(identity),
        scope_id: scope_id(1),
        basis,
        granted_by: identity_id(granted_by),
        granted_at: timestamp(),
        expires_at: None,
        requires_credential: CredentialStrength::PrimaryHardware,
        active: true,
    };
    let root = trust(1, 1, 1, TrustBasis::SystemBootstrap);
    let link = trust(2, 2, 1, TrustBasis::Delegation);
    let good = TrustChain {
        root: root.clone(),
        links: vec![link.clone()],
        leaf: link.clone(),
        chain_valid: true,
    };
    assert!(validate_trust_chain(&good).is_empty());
    let broken = TrustChain {
        root,
        links: vec![trust(3, 3, 9, TrustBasis::Delegation)],
        leaf: link,
        chain_valid: true,
    };
    let violations = validate_trust_chain(&broken);
    assert!(has_violation(&violations, ViolationCode::TrustChainInvariant, ValidationSubject::Trust(trust_id(2))));
    assert!(has_violation(&violations, ViolationCode::TrustChainInvariant, ValidationSubject::Trust(trust_id(3))));
}

#[test]
fn concept_feedback_loop_passes_primitive_layer_before_advancing() {
    let report = jw_guard::kernel::concept_feedback::run_core_concept_feedback_loop();
    assert!(!report.layers.is_empty());
    assert_eq!(report.layers[0].layer, jw_guard::kernel::concept_feedback::ConceptLayer::PrimitiveDatatypes);
    assert!(report.layers[0].passed());
}

#[test]
fn concept_feedback_loop_reaches_top_layer_when_core_atoms_exist() {
    let report = jw_guard::kernel::concept_feedback::run_core_concept_feedback_loop();
    assert_eq!(report.halted_at, None);
    assert_eq!(report.layers.len(), 6);
    assert!(report.passed_all());
    assert!(report
        .layers
        .iter()
        .all(|layer| layer.layer >= jw_guard::kernel::concept_feedback::ConceptLayer::PrimitiveDatatypes && layer.passed()));
}

#[test]
fn concept_feedback_loop_progress_score_reports_all_pass() {
    let report = jw_guard::kernel::concept_feedback::run_core_concept_feedback_loop();
    let score = report.progress_score();

    assert_eq!(score.passed_stages, 6);
    assert_eq!(score.total_stages, 6);
    assert_eq!(score.completion_ratio, 100);
    assert_eq!(score.first_failed_stage, None);
}

