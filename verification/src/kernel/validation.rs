//! Validation of the concrete security model: the local rules of each object
//! and the semantic rules that relate objects across the model.
use vstd::prelude::*;

use crate::kernel::composites::{
    AccessDecision, ArtifactContract, BoundarySpec, GateEvaluation, Policy, SecurityModel,
    TrustChain,
};
use crate::kernel::enums::{
    Capability, CredentialMechanism, CredentialStrength, FailMode, GateVerdict, IdentityKind,
    IsolationMechanism, PolicyStatus, SurfaceFacing, TrustBasis, TrustLevel,
    ZoneKind,
};
use crate::kernel::id::{
    BoundaryId, CredentialId, GateId, IdentityId, PolicyId, RouteId, ScopeId, TrustId, ZoneId,
};
use crate::kernel::scalars::AbsolutePath;
use crate::kernel::structs::{
    quarantine_untrusted, signing_isolated, Boundary, BoundaryEnd, Credential, Gate, Identity,
    Layer, Route, Scope, Trust, Zone,
};

verus! {

/// Severity of a validation violation.
#[derive(Debug, Copy, Clone, PartialEq, Eq, PartialOrd, Ord, Hash, Structural)]
pub enum ViolationSeverity {
    /// Model can still be interpreted, but posture is weaker than intended.
    Warning,
    /// Model violates a hard invariant.
    Error,
}

/// Whether a violation is neutral core typing or policy/profile opinion.
#[derive(Debug, Copy, Clone, PartialEq, Eq, PartialOrd, Ord, Hash, Structural)]
pub enum ViolationClassification {
    /// Structural invariant independent of policy posture.
    NeutralCoreInvariant,
    /// Policy/profile choice about desired security posture.
    PolicyProfileInvariant,
}

/// Machine-readable validation code.
#[derive(Debug, Copy, Clone, PartialEq, Eq, PartialOrd, Ord, Hash, Structural)]
#[non_exhaustive]
pub enum ViolationCode {
    /// Required non-empty sequence is empty.
    EmptyRequiredSequence,
    /// Duplicate identifier was found.
    DuplicateId,
    /// Filesystem roots overlap across zones.
    FilesystemRootOverlap,
    /// Signing zone is not VM or physically isolated.
    SigningZoneSoftIsolation,
    /// Quarantine zone is not untrusted.
    QuarantineZoneTrust,
    /// Boundary connects the same side to itself.
    BoundarySelfConnection,
    /// Boundary connects outside to outside.
    BoundaryOutsideOnly,
    /// Boundary side order does not follow trust order.
    BoundaryTrustOrder,
    /// Duplicate boundary pair was found.
    DuplicateBoundaryPair,
    /// Referenced object does not exist.
    MissingReference,
    /// Layer hardness does not match its mechanism range.
    LayerHardnessMismatch,
    /// High-trust boundary has a fail-open layer.
    HighTrustBoundaryFailOpen,
    /// Boundary spec surface order is invalid.
    BoundarySpecSurfaceOrder,
    /// Boundary spec has no layers.
    BoundarySpecUnprotected,
    /// Route endpoints do not match the referenced boundary.
    RouteBoundaryMismatch,
    /// Route has no gate in any policy.
    RouteWithoutGate,
    /// Gate lacks a verification that its route requires.
    GateMissingVerification,
    /// Identity violates its kind-specific invariants.
    IdentityKindInvariant,
    /// Scope violates zone-specific capability rules.
    ScopeCapabilityInvariant,
    /// Credential violates mechanism or storage rules.
    CredentialInvariant,
    /// Root identity lacks offline password credential.
    RootOfflineCredentialMissing,
    /// Trust grant violates authority or credential rules.
    TrustInvariant,
    /// Trust was granted by an identity without authority in the target zone.
    TrustGrantAuthorityMissing,
    /// Artifact contract violates hash/signature rules.
    ArtifactContractInvariant,
    /// Policy violates gate, trust, status, or route invariants.
    PolicyInvariant,
    /// Access decision verdict and reason are inconsistent.
    AccessDecisionInvariant,
    /// Trust chain shape is invalid.
    TrustChainInvariant,
}

impl ViolationCode {
    /// The class of each code: posture choices (soft signing isolation,
    /// trusted quarantine, fail-open high-trust boundaries, unprotected
    /// boundaries, scope capability rules, missing offline root credentials,
    /// grants without authority, missing gate verifications) are policy or
    /// profile invariants; every other code is a neutral core invariant.
    pub open spec fn class_of(self) -> ViolationClassification {
        match self {
            ViolationCode::SigningZoneSoftIsolation | ViolationCode::QuarantineZoneTrust
            | ViolationCode::HighTrustBoundaryFailOpen | ViolationCode::BoundarySpecUnprotected
            | ViolationCode::ScopeCapabilityInvariant | ViolationCode::RootOfflineCredentialMissing
            | ViolationCode::TrustGrantAuthorityMissing
            | ViolationCode::GateMissingVerification => ViolationClassification::PolicyProfileInvariant,
            _ => ViolationClassification::NeutralCoreInvariant,
        }
    }

    /// Returns high-level invariant classification for this violation code.
    pub fn classification(self) -> (r: ViolationClassification)
        ensures
            r == self.class_of(),
    {
        match self {
            ViolationCode::SigningZoneSoftIsolation | ViolationCode::QuarantineZoneTrust
            | ViolationCode::HighTrustBoundaryFailOpen | ViolationCode::BoundarySpecUnprotected
            | ViolationCode::ScopeCapabilityInvariant | ViolationCode::RootOfflineCredentialMissing
            | ViolationCode::TrustGrantAuthorityMissing
            | ViolationCode::GateMissingVerification => ViolationClassification::PolicyProfileInvariant,
            _ => ViolationClassification::NeutralCoreInvariant,
        }
    }
}

/// Object a validation result refers to.
#[derive(Debug, Copy, Clone, PartialEq, Eq, PartialOrd, Ord, Hash)]
pub enum ValidationSubject {
    /// Whole model.
    Model,
    /// Zone.
    Zone(ZoneId),
    /// Boundary.
    Boundary(BoundaryId),
    /// Route.
    Route(RouteId),
    /// Gate.
    Gate(GateId),
    /// Identity.
    Identity(IdentityId),
    /// Scope.
    Scope(ScopeId),
    /// Credential.
    Credential(CredentialId),
    /// Trust.
    Trust(TrustId),
    /// Policy.
    Policy(PolicyId),
}

/// Pure validation result.
#[derive(Debug, Copy, Clone, PartialEq, Eq, Hash)]
pub struct Violation {
    /// Warning or error.
    pub severity: ViolationSeverity,
    /// Machine-readable code.
    pub code: ViolationCode,
    /// Subject that failed validation.
    pub subject: ValidationSubject,
}

/// Count summary of violations by high-level invariant class.
#[derive(Debug, Copy, Clone, PartialEq, Eq)]
pub struct ViolationClassificationCounts {
    /// Neutral core-typing invariant violations.
    pub neutral_core_invariant: usize,
    /// Policy/profile invariant violations.
    pub policy_profile_invariant: usize,
}

/// The number of violations whose code has the class.
pub open spec fn count_class(vs: Seq<Violation>, class: ViolationClassification) -> nat
    decreases vs.len(),
{
    if vs.len() == 0 {
        0
    } else {
        count_class(vs.drop_last(), class) + if vs.last().code.class_of() == class {
            1nat
        } else {
            0nat
        }
    }
}

/// Summarizes violations into counts grouped by classification.
pub fn summarize_violation_classifications(violations: &[Violation]) -> (r:
    ViolationClassificationCounts)
    ensures
        r.neutral_core_invariant == count_class(
            violations@,
            ViolationClassification::NeutralCoreInvariant,
        ),
        r.policy_profile_invariant == count_class(
            violations@,
            ViolationClassification::PolicyProfileInvariant,
        ),
{
    let mut neutral: usize = 0;
    let mut profile: usize = 0;
    let mut i: usize = 0;
    while i < violations.len()
        invariant
            i <= violations@.len(),
            neutral == count_class(
                violations@.take(i as int),
                ViolationClassification::NeutralCoreInvariant,
            ),
            profile == count_class(
                violations@.take(i as int),
                ViolationClassification::PolicyProfileInvariant,
            ),
            neutral + profile == i,
        decreases violations@.len() - i,
    {
        proof {
            assert(violations@.take(i + 1).drop_last() =~= violations@.take(i as int));
        }
        match violations[i].code.classification() {
            ViolationClassification::NeutralCoreInvariant => neutral = neutral + 1,
            ViolationClassification::PolicyProfileInvariant => profile = profile + 1,
        }
        i = i + 1;
    }
    assert(violations@.take(violations@.len() as int) =~= violations@);
    ViolationClassificationCounts { neutral_core_invariant: neutral, policy_profile_invariant: profile }
}

/// An error about the subject.
pub open spec fn error(code: ViolationCode, subject: ValidationSubject) -> Violation {
    Violation { severity: ViolationSeverity::Error, code, subject }
}

/// The violation when the condition holds, and nothing otherwise.
pub open spec fn flag(c: bool, v: Violation) -> Seq<Violation> {
    if c {
        seq![v]
    } else {
        Seq::empty()
    }
}

/// The violations of each item, in order, one list after another.
pub open spec fn flat<A>(items: Seq<A>, f: spec_fn(A) -> Seq<Violation>) -> Seq<Violation>
    decreases items.len(),
{
    if items.len() == 0 {
        Seq::empty()
    } else {
        flat(items.drop_last(), f) + f(items.last())
    }
}

/// One step of `flat` over a growing prefix.
pub proof fn lemma_flat_step<A>(items: Seq<A>, f: spec_fn(A) -> Seq<Violation>, i: int)
    requires
        0 <= i < items.len(),
    ensures
        flat(items.take(i + 1), f) == flat(items.take(i), f) + f(items[i]),
{
    assert(items.take(i + 1).drop_last() =~= items.take(i));
}

fn err(code: ViolationCode, subject: ValidationSubject) -> (r: Violation)
    ensures
        r == error(code, subject),
{
    Violation { severity: ViolationSeverity::Error, code, subject }
}

fn push_if(violations: &mut Vec<Violation>, c: bool, v: Violation)
    ensures
        final(violations)@ == old(violations)@ + flag(c, v),
{
    if c {
        violations.push(v);
    } else {
        assert(old(violations)@ + flag(c, v) =~= old(violations)@);
    }
}

fn append_all(violations: &mut Vec<Violation>, more: Vec<Violation>)
    ensures
        final(violations)@ == old(violations)@ + more@,
{
    let mut more = more;
    violations.append(&mut more);
}

/// Applies `f` to every item, in order, and gathers what it reports.
fn collect_each<T>(
    items: &[T],
    f: impl Fn(&T) -> Vec<Violation>,
    Ghost(g): Ghost<spec_fn(T) -> Seq<Violation>>,
) -> (r: Vec<Violation>)
    requires
        forall|x: &T| #[trigger] f.requires((x,)),
        forall|x: &T, out: Vec<Violation>| f.ensures((x,), out) ==> out@ == g(*x),
    ensures
        r@ == flat(items@, g),
{
    let mut out: Vec<Violation> = Vec::new();
    let mut i: usize = 0;
    while i < items.len()
        invariant
            i <= items@.len(),
            out@ == flat(items@.take(i as int), g),
            forall|x: &T| #[trigger] f.requires((x,)),
            forall|x: &T, o: Vec<Violation>| f.ensures((x,), o) ==> o@ == g(*x),
        decreases items@.len() - i,
    {
        proof {
            lemma_flat_step(items@, g, i as int);
        }
        let found = f(&items[i]);
        append_all(&mut out, found);
        i = i + 1;
    }
    assert(items@.take(items@.len() as int) =~= items@);
    out
}

/// Zone rules: roots present, signing zones hard-isolated, quarantine untrusted.
pub open spec fn zone_violations(z: Zone) -> Seq<Violation> {
    flag(z.filesystem_roots@.len() == 0, error(ViolationCode::EmptyRequiredSequence, ValidationSubject::Zone(z.id)))
        + flag(!signing_isolated(z.kind, z.isolation), error(ViolationCode::SigningZoneSoftIsolation, ValidationSubject::Zone(z.id)))
        + flag(!quarantine_untrusted(z.kind, z.trust_level), error(ViolationCode::QuarantineZoneTrust, ValidationSubject::Zone(z.id)))
}

/// Validates static zone invariants.
pub fn validate_zone(zone: &Zone) -> (r: Vec<Violation>)
    ensures
        r@ == zone_violations(*zone),
{
    let mut v: Vec<Violation> = Vec::new();
    let s = ValidationSubject::Zone(zone.id);
    push_if(&mut v, zone.filesystem_roots.is_empty(), err(ViolationCode::EmptyRequiredSequence, s));
    let soft = zone.kind == ZoneKind::Signing && !(zone.isolation == IsolationMechanism::Vm
        || zone.isolation == IsolationMechanism::Physical);
    push_if(&mut v, soft, err(ViolationCode::SigningZoneSoftIsolation, s));
    let trusted = zone.kind == ZoneKind::Quarantine && zone.trust_level != TrustLevel::Untrusted;
    push_if(&mut v, trusted, err(ViolationCode::QuarantineZoneTrust, s));
    v
}

/// Boundary rules: distinct sides, not outside on both.
pub open spec fn boundary_violations(b: Boundary) -> Seq<Violation> {
    flag(b.side_a == b.side_b, error(ViolationCode::BoundarySelfConnection, ValidationSubject::Boundary(b.id)))
        + flag(b.side_a is Outside && b.side_b is Outside, error(ViolationCode::BoundaryOutsideOnly, ValidationSubject::Boundary(b.id)))
}

/// Validates static boundary invariants.
pub fn validate_boundary(boundary: &Boundary) -> (r: Vec<Violation>)
    ensures
        r@ == boundary_violations(*boundary),
{
    let mut v: Vec<Violation> = Vec::new();
    let s = ValidationSubject::Boundary(boundary.id);
    push_if(&mut v, boundary.side_a.same(&boundary.side_b), err(ViolationCode::BoundarySelfConnection, s));
    let outside = matches!(boundary.side_a, BoundaryEnd::Outside) && matches!(boundary.side_b, BoundaryEnd::Outside);
    push_if(&mut v, outside, err(ViolationCode::BoundaryOutsideOnly, s));
    v
}

/// A layer's hardness must lie in its mechanism's band.
pub open spec fn layer_violations(l: Layer) -> Seq<Violation> {
    let band = l.mechanism.hardness_band();
    flag(
        l.hardness.rank() < band.0.rank() || l.hardness.rank() > band.1.rank(),
        error(ViolationCode::LayerHardnessMismatch, ValidationSubject::Boundary(l.boundary_id)),
    )
}

/// Validates layer mechanism and hardness compatibility.
pub fn validate_layer(layer: &Layer) -> (r: Vec<Violation>)
    ensures
        r@ == layer_violations(*layer),
{
    let mut v: Vec<Violation> = Vec::new();
    let (min, max) = layer.mechanism.hardness_range();
    let h = layer.hardness.level();
    push_if(
        &mut v,
        h < min.level() || h > max.level(),
        err(ViolationCode::LayerHardnessMismatch, ValidationSubject::Boundary(layer.boundary_id)),
    );
    v
}

/// Route rules: distinct ends, not outside on both.
pub open spec fn route_violations(r: Route) -> Seq<Violation> {
    flag(r.from_zone == r.to_zone, error(ViolationCode::BoundarySelfConnection, ValidationSubject::Route(r.id)))
        + flag(r.from_zone is Outside && r.to_zone is Outside, error(ViolationCode::BoundaryOutsideOnly, ValidationSubject::Route(r.id)))
}

/// Validates static route invariants.
pub fn validate_route(route: &Route) -> (r: Vec<Violation>)
    ensures
        r@ == route_violations(*route),
{
    let mut v: Vec<Violation> = Vec::new();
    let s = ValidationSubject::Route(route.id);
    push_if(&mut v, route.from_zone.same(&route.to_zone), err(ViolationCode::BoundarySelfConnection, s));
    let outside = matches!(route.from_zone, BoundaryEnd::Outside) && matches!(route.to_zone, BoundaryEnd::Outside);
    push_if(&mut v, outside, err(ViolationCode::BoundaryOutsideOnly, s));
    v
}

/// A gate must require some verification.
pub open spec fn gate_violations(g: Gate) -> Seq<Violation> {
    flag(g.required_verifications@.len() == 0, error(ViolationCode::EmptyRequiredSequence, ValidationSubject::Gate(g.id)))
}

/// Validates static gate invariants.
pub fn validate_gate(gate: &Gate) -> (r: Vec<Violation>)
    ensures
        r@ == gate_violations(*gate),
{
    let mut v: Vec<Violation> = Vec::new();
    push_if(
        &mut v,
        gate.required_verifications.is_empty(),
        err(ViolationCode::EmptyRequiredSequence, ValidationSubject::Gate(gate.id)),
    );
    v
}

/// Whether an identity breaks its kind's rules.
pub open spec fn identity_invalid(i: Identity) -> bool {
    (match i.kind {
        IdentityKind::ZoneAdmin | IdentityKind::Service => i.bound_to_zone is None,
        IdentityKind::Root => i.bound_to_zone is Some || i.can_escalate,
        IdentityKind::Auditor => false,
    }) || (i.kind is ZoneAdmin && i.can_escalate)
}

pub open spec fn identity_violations(i: Identity) -> Seq<Violation> {
    flag(identity_invalid(i), error(ViolationCode::IdentityKindInvariant, ValidationSubject::Identity(i.id)))
}

/// Validates static identity invariants.
pub fn validate_identity(identity: &Identity) -> (r: Vec<Violation>)
    ensures
        r@ == identity_violations(*identity),
{
    let invalid = match identity.kind {
        IdentityKind::ZoneAdmin | IdentityKind::Service => identity.bound_to_zone.is_none(),
        IdentityKind::Root => identity.bound_to_zone.is_some() || identity.can_escalate,
        IdentityKind::Auditor => false,
    } || (identity.kind == IdentityKind::ZoneAdmin && identity.can_escalate);
    let mut v: Vec<Violation> = Vec::new();
    push_if(&mut v, invalid, err(ViolationCode::IdentityKindInvariant, ValidationSubject::Identity(identity.id)));
    v
}

pub open spec fn scope_violations(s: Scope) -> Seq<Violation> {
    flag(s.capabilities@.len() == 0, error(ViolationCode::EmptyRequiredSequence, ValidationSubject::Scope(s.id)))
}

/// Validates scope invariants that do not require zone lookup.
pub fn validate_scope(scope: &Scope) -> (r: Vec<Violation>)
    ensures
        r@ == scope_violations(*scope),
{
    let mut v: Vec<Violation> = Vec::new();
    push_if(
        &mut v,
        scope.capabilities.is_empty(),
        err(ViolationCode::EmptyRequiredSequence, ValidationSubject::Scope(scope.id)),
    );
    v
}

/// Credential rules, each reported on its own: offline passwords are
/// hardware-strength, biometrics secondary, ephemeral credentials expire.
pub open spec fn credential_violations(c: Credential) -> Seq<Violation> {
    let v = error(ViolationCode::CredentialInvariant, ValidationSubject::Credential(c.id));
    flag(c.mechanism is PasswordOffline && !(c.strength is PrimaryHardware), v)
        + flag(c.mechanism is Biometric && !(c.strength is Secondary), v)
        + flag(c.strength is Ephemeral && c.expires_at is None, v)
}

/// Validates credential invariants that do not require model lookup.
pub fn validate_credential(credential: &Credential) -> (r: Vec<Violation>)
    ensures
        r@ == credential_violations(*credential),
{
    let mut v: Vec<Violation> = Vec::new();
    let e = err(ViolationCode::CredentialInvariant, ValidationSubject::Credential(credential.id));
    push_if(
        &mut v,
        credential.mechanism == CredentialMechanism::PasswordOffline && credential.strength
            != CredentialStrength::PrimaryHardware,
        e,
    );
    push_if(
        &mut v,
        credential.mechanism == CredentialMechanism::Biometric && credential.strength
            != CredentialStrength::Secondary,
        e,
    );
    push_if(
        &mut v,
        credential.strength == CredentialStrength::Ephemeral && credential.expires_at.is_none(),
        e,
    );
    v
}

/// Trust rules: activation needs a primary credential; only bootstrap may
/// grant trust to its own grantor.
pub open spec fn trust_violations(t: Trust) -> Seq<Violation> {
    let v = error(ViolationCode::TrustInvariant, ValidationSubject::Trust(t.id));
    flag(t.requires_credential.rank() < CredentialStrength::PrimarySoftware.rank(), v)
        + flag(t.identity_id == t.granted_by && !(t.basis is SystemBootstrap), v)
}

/// Validates trust invariants that do not require full authority lookup.
pub fn validate_trust(trust: &Trust) -> (r: Vec<Violation>)
    ensures
        r@ == trust_violations(*trust),
{
    let mut v: Vec<Violation> = Vec::new();
    let e = err(ViolationCode::TrustInvariant, ValidationSubject::Trust(trust.id));
    push_if(
        &mut v,
        trust.requires_credential.level() < CredentialStrength::PrimarySoftware.level(),
        e,
    );
    push_if(
        &mut v,
        trust.identity_id.same(&trust.granted_by) && trust.basis != TrustBasis::SystemBootstrap,
        e,
    );
    v
}

pub open spec fn artifact_contract_violations(c: ArtifactContract) -> Seq<Violation> {
    flag(c.allowed_media_types@.len() == 0, error(ViolationCode::EmptyRequiredSequence, ValidationSubject::Model))
}

/// Validates artifact contract invariants.
pub fn validate_artifact_contract(contract: &ArtifactContract) -> (r: Vec<Violation>)
    ensures
        r@ == artifact_contract_violations(*contract),
{
    let mut v: Vec<Violation> = Vec::new();
    push_if(
        &mut v,
        contract.allowed_media_types.is_empty(),
        err(ViolationCode::EmptyRequiredSequence, ValidationSubject::Model),
    );
    v
}

/// What one layer of a boundary spec reports: its hardness band, and a
/// missing reference when it names another boundary.
pub open spec fn spec_layer_violations(l: Layer, id: BoundaryId) -> Seq<Violation> {
    layer_violations(l) + flag(l.boundary_id != id, error(ViolationCode::MissingReference, ValidationSubject::Boundary(id)))
}

/// Boundary spec rules: the boundary's own rules, a warning when no layer
/// protects it, surfaces facing A then B and naming the boundary, and each
/// layer's rules.
pub open spec fn boundary_spec_violations(s: BoundarySpec) -> Seq<Violation> {
    let id = s.boundary.id;
    let subject = ValidationSubject::Boundary(id);
    boundary_violations(s.boundary)
        + flag(s.layers@.len() == 0, Violation { severity: ViolationSeverity::Warning, code: ViolationCode::BoundarySpecUnprotected, subject })
        + flag(!(s.surfaces[0].facing is A && s.surfaces[1].facing is B), error(ViolationCode::BoundarySpecSurfaceOrder, subject))
        + flag(s.surfaces[0].boundary_id != id, error(ViolationCode::MissingReference, subject))
        + flag(s.surfaces[1].boundary_id != id, error(ViolationCode::MissingReference, subject))
        + flat(s.layers@, |l: Layer| spec_layer_violations(l, id))
}

/// Validates boundary spec invariants.
pub fn validate_boundary_spec(spec: &BoundarySpec) -> (r: Vec<Violation>)
    ensures
        r@ == boundary_spec_violations(*spec),
{
    let id = spec.boundary.id;
    let subject = ValidationSubject::Boundary(id);
    let mut v = validate_boundary(&spec.boundary);
    push_if(
        &mut v,
        spec.layers.len() == 0,
        Violation {
            severity: ViolationSeverity::Warning,
            code: ViolationCode::BoundarySpecUnprotected,
            subject,
        },
    );
    push_if(
        &mut v,
        !(spec.surfaces[0].facing == SurfaceFacing::A && spec.surfaces[1].facing
            == SurfaceFacing::B),
        err(ViolationCode::BoundarySpecSurfaceOrder, subject),
    );
    push_if(&mut v, !spec.surfaces[0].boundary_id.same(&id), err(ViolationCode::MissingReference, subject));
    push_if(&mut v, !spec.surfaces[1].boundary_id.same(&id), err(ViolationCode::MissingReference, subject));
    let check = |l: &Layer| -> (r: Vec<Violation>)
        ensures
            r@ == spec_layer_violations(*l, id),
        {
            let mut w = validate_layer(l);
            push_if(
                &mut w,
                !l.boundary_id.same(&id),
                err(ViolationCode::MissingReference, ValidationSubject::Boundary(id)),
            );
            w
        };
    let layers = collect_each(
        spec.layers.as_slice(),
        check,
        Ghost(|l: Layer| spec_layer_violations(l, id)),
    );
    append_all(&mut v, layers);
    v
}

/// Position of the second-to-last gate; zero when there is none.
pub open spec fn previous_sequence(gates: Seq<Gate>) -> u32 {
    if gates.len() >= 2 {
        gates[gates.len() - 2].sequence.position()
    } else {
        0
    }
}

/// Each gate's own rules, and a policy violation for each gate whose
/// sequence number does not exceed the one before it.
pub open spec fn gate_order_violations(gates: Seq<Gate>, id: PolicyId) -> Seq<Violation>
    decreases gates.len(),
{
    if gates.len() == 0 {
        Seq::empty()
    } else {
        gate_order_violations(gates.drop_last(), id) + gate_violations(gates.last()) + flag(
            gates.last().sequence.position() <= previous_sequence(gates),
            error(ViolationCode::PolicyInvariant, ValidationSubject::Policy(id)),
        )
    }
}

/// Policy rules: the contract's rules, gates and trust present, gates in
/// strictly increasing sequence.
pub open spec fn policy_violations(p: Policy) -> Seq<Violation> {
    artifact_contract_violations(p.contract) + flag(
        p.gates@.len() == 0 || p.required_trust@.len() == 0,
        error(ViolationCode::EmptyRequiredSequence, ValidationSubject::Policy(p.id)),
    ) + gate_order_violations(p.gates@, p.id)
}

/// Validates policy invariants that are local to the policy value.
pub fn validate_policy(policy: &Policy) -> (r: Vec<Violation>)
    ensures
        r@ == policy_violations(*policy),
{
    let mut v = validate_artifact_contract(&policy.contract);
    push_if(
        &mut v,
        policy.gates.is_empty() || policy.required_trust.is_empty(),
        err(ViolationCode::EmptyRequiredSequence, ValidationSubject::Policy(policy.id)),
    );
    let ghost head = v@;
    let gates = policy.gates.as_slice();
    let mut last: u32 = 0;
    let mut i: usize = 0;
    while i < gates.len()
        invariant
            i <= gates@.len(),
            gates@ == policy.gates@,
            v@ == head + gate_order_violations(gates@.take(i as int), policy.id),
            last == (if i == 0 {
                0u32
            } else {
                gates@[i - 1].sequence.position()
            }),
        decreases gates@.len() - i,
    {
        proof {
            assert(gates@.take(i + 1).drop_last() =~= gates@.take(i as int));
            assert(gates@.take(i + 1).last() == gates@[i as int]);
            if i > 0 {
                assert(gates@.take(i + 1)[i - 1] == gates@[i - 1]);
            }
            assert(last == previous_sequence(gates@.take(i + 1)));
        }
        let gate = &gates[i];
        let own = validate_gate(gate);
        append_all(&mut v, own);
        let sequence = gate.sequence.get();
        push_if(
            &mut v,
            sequence <= last,
            err(ViolationCode::PolicyInvariant, ValidationSubject::Policy(policy.id)),
        );
        proof {
            assert(v@ =~= head + gate_order_violations(gates@.take(i + 1), policy.id));
        }
        last = sequence;
        i = i + 1;
    }
    assert(gates@.take(gates@.len() as int) =~= gates@);
    v
}

/// A gate's evaluation must give a reason exactly when it denies; a pending
/// one may carry either.
pub open spec fn gate_evaluation_violations(e: GateEvaluation) -> Seq<Violation> {
    flag(
        match e.verdict {
            GateVerdict::Deny => e.reason is None,
            GateVerdict::Permit => e.reason is Some,
            GateVerdict::Pending => false,
        },
        error(ViolationCode::AccessDecisionInvariant, ValidationSubject::Gate(e.gate_id)),
    )
}

/// Validates gate evaluation invariants.
pub fn validate_gate_evaluation(evaluation: &GateEvaluation) -> (r: Vec<Violation>)
    ensures
        r@ == gate_evaluation_violations(*evaluation),
{
    let invalid = match evaluation.verdict {
        GateVerdict::Deny => evaluation.reason.is_none(),
        GateVerdict::Permit => evaluation.reason.is_some(),
        GateVerdict::Pending => false,
    };
    let mut v: Vec<Violation> = Vec::new();
    push_if(
        &mut v,
        invalid,
        err(ViolationCode::AccessDecisionInvariant, ValidationSubject::Gate(evaluation.gate_id)),
    );
    v
}

/// A denial before any gate has nothing to check; a gate evaluation its own
/// rules.
pub open spec fn access_decision_violations(d: AccessDecision) -> Seq<Violation> {
    match d {
        AccessDecision::PreGateDenial(_) => Seq::empty(),
        AccessDecision::GateEvaluation(e) => gate_evaluation_violations(e),
    }
}

/// Validates access decision invariants.
pub fn validate_access_decision(decision: &AccessDecision) -> (r: Vec<Violation>)
    ensures
        r@ == access_decision_violations(*decision),
{
    match decision {
        AccessDecision::PreGateDenial(_) => Vec::new(),
        AccessDecision::GateEvaluation(evaluation) => validate_gate_evaluation(evaluation),
    }
}

/// Two optional timestamps hold the same text, or are both absent.
pub open spec fn same_instant(a: Option<crate::kernel::scalars::UtcTimestamp>, b: Option<crate::kernel::scalars::UtcTimestamp>) -> bool {
    match (a, b) {
        (None, None) => true,
        (Some(x), Some(y)) => x@ == y@,
        _ => false,
    }
}

/// Two trust grants with the same content, field by field.
pub open spec fn same_grant(a: Trust, b: Trust) -> bool {
    &&& a.id == b.id
    &&& a.identity_id == b.identity_id
    &&& a.scope_id == b.scope_id
    &&& a.basis == b.basis
    &&& a.granted_by == b.granted_by
    &&& a.granted_at@ == b.granted_at@
    &&& same_instant(a.expires_at, b.expires_at)
    &&& a.requires_credential == b.requires_credential
    &&& a.active == b.active
}

fn grants_match(a: &Trust, b: &Trust) -> (r: bool)
    ensures
        r == same_grant(*a, *b),
{
    let expiry = match (&a.expires_at, &b.expires_at) {
        (None, None) => true,
        (Some(x), Some(y)) => x.same_text(y),
        _ => false,
    };
    a.id.same(&b.id) && a.identity_id.same(&b.identity_id) && a.scope_id.same(&b.scope_id)
        && a.basis == b.basis && a.granted_by.same(&b.granted_by) && a.granted_at.same_text(
        &b.granted_at,
    ) && expiry && a.requires_credential == b.requires_credential && a.active == b.active
}

/// Each link after the first must be granted by the identity the link
/// before it trusts.
pub open spec fn link_violations(links: Seq<Trust>) -> Seq<Violation>
    decreases links.len(),
{
    if links.len() < 2 {
        Seq::empty()
    } else {
        link_violations(links.drop_last()) + flag(
            links.last().granted_by != links[links.len() - 2].identity_id,
            error(ViolationCode::TrustChainInvariant, ValidationSubject::Trust(links.last().id)),
        )
    }
}

/// The last link of the chain, or its root when it has no links.
pub open spec fn chain_end(c: TrustChain) -> Trust {
    if c.links@.len() == 0 {
        c.root
    } else {
        c.links@.last()
    }
}

/// Trust chain rules: a bootstrap root; the last link is the leaf; the first
/// link granted by the root's identity and each later one by the identity
/// before it; and a chain holding an inactive or expiring link is not
/// marked valid.
pub open spec fn trust_chain_violations(c: TrustChain) -> Seq<Violation> {
    let leaf = ValidationSubject::Trust(c.leaf.id);
    flag(!(c.root.basis is SystemBootstrap), error(ViolationCode::TrustChainInvariant, ValidationSubject::Trust(c.root.id)))
        + flag(!same_grant(chain_end(c), c.leaf), error(ViolationCode::TrustChainInvariant, leaf))
        + (if c.links@.len() > 0 {
            flag(
                c.links@[0].granted_by != c.root.identity_id,
                error(ViolationCode::TrustChainInvariant, ValidationSubject::Trust(c.links@[0].id)),
            )
        } else {
            Seq::empty()
        })
        + link_violations(c.links@)
        + flag(
            (exists|i: int| 0 <= i < c.links@.len() && (!(#[trigger] c.links@[i]).active || c.links@[i].expires_at is Some))
                && c.chain_valid,
            error(ViolationCode::TrustChainInvariant, leaf),
        )
}

/// Validates trust chain shape.
pub fn validate_trust_chain(chain: &TrustChain) -> (r: Vec<Violation>)
    ensures
        r@ == trust_chain_violations(*chain),
{
    let mut v: Vec<Violation> = Vec::new();
    let leaf = ValidationSubject::Trust(chain.leaf.id);
    push_if(
        &mut v,
        chain.root.basis != TrustBasis::SystemBootstrap,
        err(ViolationCode::TrustChainInvariant, ValidationSubject::Trust(chain.root.id)),
    );
    let n = chain.links.len();
    let end = if n == 0 {
        &chain.root
    } else {
        &chain.links[n - 1]
    };
    push_if(&mut v, !grants_match(end, &chain.leaf), err(ViolationCode::TrustChainInvariant, leaf));
    if n > 0 {
        push_if(
            &mut v,
            !chain.links[0].granted_by.same(&chain.root.identity_id),
            err(ViolationCode::TrustChainInvariant, ValidationSubject::Trust(chain.links[0].id)),
        );
    } else {
        assert(v@ + Seq::<Violation>::empty() =~= v@);
    }
    let ghost head = v@;
    if n > 0 {
        let mut i: usize = 1;
        assert(link_violations(chain.links@.take(1)) =~= Seq::<Violation>::empty());
        while i < n
            invariant
                1 <= i <= n,
                n == chain.links@.len(),
                v@ == head + link_violations(chain.links@.take(i as int)),
            decreases n - i,
        {
            proof {
                let t = chain.links@.take(i + 1);
                assert(t.drop_last() =~= chain.links@.take(i as int));
                assert(t.last() == chain.links@[i as int]);
                assert(t[t.len() - 2] == chain.links@[i - 1]);
            }
            push_if(
                &mut v,
                !chain.links[i].granted_by.same(&chain.links[i - 1].identity_id),
                err(ViolationCode::TrustChainInvariant, ValidationSubject::Trust(chain.links[i].id)),
            );
            proof {
                assert(v@ =~= head + link_violations(chain.links@.take(i + 1)));
            }
            i = i + 1;
        }
        assert(chain.links@.take(n as int) =~= chain.links@);
    } else {
        assert(link_violations(chain.links@) =~= Seq::<Violation>::empty());
        assert(v@ =~= head + link_violations(chain.links@));
    }
    let mut weak = false;
    let mut k: usize = 0;
    while k < n
        invariant
            k <= n,
            n == chain.links@.len(),
            weak == exists|j: int| 0 <= j < k && (!(#[trigger] chain.links@[j]).active
                || chain.links@[j].expires_at is Some),
        decreases n - k,
    {
        if !chain.links[k].active || chain.links[k].expires_at.is_some() {
            weak = true;
        }
        k = k + 1;
    }
    push_if(&mut v, weak && chain.chain_valid, err(ViolationCode::TrustChainInvariant, leaf));
    v
}

/// An object of the model known by an identifier.
pub trait Keyed {
    /// The identifier's payload.
    spec fn key(&self) -> [u8; 16];

    /// The subject a violation about this object names.
    spec fn subject_of(&self) -> ValidationSubject;

    fn key_bytes(&self) -> (r: [u8; 16])
        ensures
            r == self.key(),
    ;

    fn subject(&self) -> (r: ValidationSubject)
        ensures
            r == self.subject_of(),
    ;
}

impl Keyed for Zone {
    open spec fn key(&self) -> [u8; 16] {
        self.id.0
    }

    open spec fn subject_of(&self) -> ValidationSubject {
        ValidationSubject::Zone(self.id)
    }

    fn key_bytes(&self) -> (r: [u8; 16]) {
        self.id.0
    }

    fn subject(&self) -> (r: ValidationSubject) {
        ValidationSubject::Zone(self.id)
    }
}

impl Keyed for Identity {
    open spec fn key(&self) -> [u8; 16] {
        self.id.0
    }

    open spec fn subject_of(&self) -> ValidationSubject {
        ValidationSubject::Identity(self.id)
    }

    fn key_bytes(&self) -> (r: [u8; 16]) {
        self.id.0
    }

    fn subject(&self) -> (r: ValidationSubject) {
        ValidationSubject::Identity(self.id)
    }
}

impl Keyed for Scope {
    open spec fn key(&self) -> [u8; 16] {
        self.id.0
    }

    open spec fn subject_of(&self) -> ValidationSubject {
        ValidationSubject::Scope(self.id)
    }

    fn key_bytes(&self) -> (r: [u8; 16]) {
        self.id.0
    }

    fn subject(&self) -> (r: ValidationSubject) {
        ValidationSubject::Scope(self.id)
    }
}

impl Keyed for Credential {
    open spec fn key(&self) -> [u8; 16] {
        self.id.0
    }

    open spec fn subject_of(&self) -> ValidationSubject {
        ValidationSubject::Credential(self.id)
    }

    fn key_bytes(&self) -> (r: [u8; 16]) {
        self.id.0
    }

    fn subject(&self) -> (r: ValidationSubject) {
        ValidationSubject::Credential(self.id)
    }
}

impl Keyed for Trust {
    open spec fn key(&self) -> [u8; 16] {
        self.id.0
    }

    open spec fn subject_of(&self) -> ValidationSubject {
        ValidationSubject::Trust(self.id)
    }

    fn key_bytes(&self) -> (r: [u8; 16]) {
        self.id.0
    }

    fn subject(&self) -> (r: ValidationSubject) {
        ValidationSubject::Trust(self.id)
    }
}

impl Keyed for Route {
    open spec fn key(&self) -> [u8; 16] {
        self.id.0
    }

    open spec fn subject_of(&self) -> ValidationSubject {
        ValidationSubject::Route(self.id)
    }

    fn key_bytes(&self) -> (r: [u8; 16]) {
        self.id.0
    }

    fn subject(&self) -> (r: ValidationSubject) {
        ValidationSubject::Route(self.id)
    }
}

impl Keyed for Policy {
    open spec fn key(&self) -> [u8; 16] {
        self.id.0
    }

    open spec fn subject_of(&self) -> ValidationSubject {
        ValidationSubject::Policy(self.id)
    }

    fn key_bytes(&self) -> (r: [u8; 16]) {
        self.id.0
    }

    fn subject(&self) -> (r: ValidationSubject) {
        ValidationSubject::Policy(self.id)
    }
}

impl Keyed for BoundarySpec {
    open spec fn key(&self) -> [u8; 16] {
        self.boundary.id.0
    }

    open spec fn subject_of(&self) -> ValidationSubject {
        ValidationSubject::Boundary(self.boundary.id)
    }

    fn key_bytes(&self) -> (r: [u8; 16]) {
        self.boundary.id.0
    }

    fn subject(&self) -> (r: ValidationSubject) {
        ValidationSubject::Boundary(self.boundary.id)
    }
}

/// A duplicate-identifier error for every object whose identifier an
/// earlier object already holds.
pub open spec fn duplicates<T: Keyed>(items: Seq<T>) -> Seq<Violation>
    decreases items.len(),
{
    if items.len() == 0 {
        Seq::empty()
    } else {
        let init = items.drop_last();
        duplicates(init) + flag(
            exists|k: int| 0 <= k < init.len() && #[trigger] init[k].key() == items.last().key(),
            error(ViolationCode::DuplicateId, items.last().subject_of()),
        )
    }
}

/// Whether an object before `end` holds the identifier payload.
fn key_seen<T: Keyed>(items: &[T], end: usize, key: &[u8; 16]) -> (r: bool)
    requires
        end <= items@.len(),
    ensures
        r == exists|k: int| 0 <= k < end && #[trigger] items@[k].key() == *key,
{
    let mut k: usize = 0;
    while k < end
        invariant
            k <= end <= items@.len(),
            forall|m: int| 0 <= m < k ==> #[trigger] items@[m].key() != *key,
        decreases end - k,
    {
        let p = items[k].key_bytes();
        if crate::kernel::id::same_bytes(&p, key) {
            return true;
        }
        k = k + 1;
    }
    false
}

/// Reports every object whose identifier repeats an earlier one.
fn validate_unique<T: Keyed>(items: &[T]) -> (r: Vec<Violation>)
    ensures
        r@ == duplicates(items@),
{
    let mut v: Vec<Violation> = Vec::new();
    let mut i: usize = 0;
    while i < items.len()
        invariant
            i <= items@.len(),
            v@ == duplicates(items@.take(i as int)),
        decreases items@.len() - i,
    {
        let ghost pre = items@.take(i as int);
        let p = items[i].key_bytes();
        let seen = key_seen(items, i, &p);
        proof {
            assert(items@.take(i + 1).drop_last() =~= pre);
            assert(items@.take(i + 1).last() == items@[i as int]);
            assert(seen == exists|k: int| 0 <= k < pre.len() && #[trigger] pre[k].key()
                == items@[i as int].key()) by {
                if seen {
                    let k = choose|k: int| 0 <= k < i && #[trigger] items@[k].key() == p;
                    assert(pre[k] == items@[k]);
                }
                if exists|k: int| 0 <= k < pre.len() && #[trigger] pre[k].key() == items@[i as int].key() {
                    let k = choose|k: int| 0 <= k < pre.len() && #[trigger] pre[k].key()
                        == items@[i as int].key();
                    assert(pre[k] == items@[k]);
                }
            }
        }
        push_if(&mut v, seen, err(ViolationCode::DuplicateId, items[i].subject()));
        i = i + 1;
    }
    assert(items@.take(items@.len() as int) =~= items@);
    v
}

/// The first object holding the identifier payload.
pub open spec fn first_keyed<T: Keyed>(items: Seq<T>, key: [u8; 16]) -> Option<T>
    decreases items.len(),
{
    if items.len() == 0 {
        None
    } else if items[0].key() == key {
        Some(items[0])
    } else {
        first_keyed(items.drop_first(), key)
    }
}

/// Position of the first object holding the identifier payload.
fn find_keyed<T: Keyed>(items: &[T], key: &[u8; 16]) -> (r: Option<usize>)
    ensures
        r matches Some(i) ==> i < items@.len() && first_keyed(items@, *key) == Some(items@[i as int]),
        r is None ==> first_keyed(items@, *key) is None,
{
    let mut k: usize = 0;
    assert(items@.skip(0) =~= items@);
    while k < items.len()
        invariant
            k <= items@.len(),
            first_keyed(items@, *key) == first_keyed(items@.skip(k as int), *key),
        decreases items@.len() - k,
    {
        assert(items@.skip(k as int)[0] == items@[k as int]);
        let p = items[k].key_bytes();
        if crate::kernel::id::same_bytes(&p, key) {
            return Some(k);
        }
        assert(items@.skip(k as int).drop_first() =~= items@.skip(k + 1));
        k = k + 1;
    }
    None
}

/// The first zone of the model with the identifier.
pub open spec fn zone_of(m: SecurityModel, id: ZoneId) -> Option<Zone> {
    first_keyed(m.zones@, id.0)
}

/// The first identity of the model with the identifier.
pub open spec fn identity_of(m: SecurityModel, id: IdentityId) -> Option<Identity> {
    first_keyed(m.identities@, id.0)
}

/// The first scope of the model with the identifier.
pub open spec fn scope_of(m: SecurityModel, id: ScopeId) -> Option<Scope> {
    first_keyed(m.scopes@, id.0)
}

/// The first route of the model with the identifier.
pub open spec fn route_of(m: SecurityModel, id: RouteId) -> Option<Route> {
    first_keyed(m.routes@, id.0)
}

/// The boundary of the first boundary spec with the identifier.
pub open spec fn boundary_of(m: SecurityModel, id: BoundaryId) -> Option<Boundary> {
    match first_keyed(m.boundary_specs@, id.0) {
        Some(s) => Some(s.boundary),
        None => None,
    }
}

/// Whether `p` is `q` or a directory prefix of it: `q` goes on past `p`
/// after a separator.
pub open spec fn is_path_prefix(p: Seq<char>, q: Seq<char>) -> bool {
    p == q || (p.len() <= q.len() && q.take(p.len() as int) == p && ((p.len() > 0 && p.last()
        == '/') || (q.len() > p.len() && q[p.len() as int] == '/')))
}

/// Two paths overlap when one lies under the other.
pub open spec fn paths_overlap(a: Seq<char>, b: Seq<char>) -> bool {
    is_path_prefix(a, b) || is_path_prefix(b, a)
}

/// Roots overlap only on a directory boundary: when `q` merely begins with
/// the characters of a different `p` that does not end in `/`, and the next
/// character of `q` is not `/`, the two roots do not overlap (so `/srv/app`
/// and `/srv/app-data` are siblings).
pub proof fn lemma_no_overlap_without_separator(p: Seq<char>, q: Seq<char>)
    requires
        p.len() < q.len(),
        q.take(p.len() as int) == p,
        p.len() == 0 || p.last() != '/',
        q[p.len() as int] != '/',
    ensures
        !is_path_prefix(p, q),
        !is_path_prefix(q, p),
        !paths_overlap(p, q),
{
}

/// A root overlaps every path beneath it: itself, and any path that goes on
/// past it after a separator.
pub proof fn lemma_overlap_on_separator(p: Seq<char>, rest: Seq<char>)
    ensures
        paths_overlap(p, p),
        paths_overlap(p, p + seq!['/'] + rest),
        p.len() > 0 && p.last() == '/' ==> paths_overlap(p, p + rest),
{
    let q = p + seq!['/'] + rest;
    assert(q.take(p.len() as int) =~= p);
    assert(q[p.len() as int] == '/');
    let r = p + rest;
    assert(r.take(p.len() as int) =~= p);
}

fn path_prefix(p: &[char], q: &[char]) -> (r: bool)
    ensures
        r == is_path_prefix(p@, q@),
{
    let same_len = p.len() == q.len();
    let mut starts = p.len() <= q.len();
    let mut i: usize = 0;
    while starts && i < p.len()
        invariant
            starts ==> p@.len() <= q@.len(),
            i <= p@.len(),
            starts == (p@.len() <= q@.len() && forall|k: int| 0 <= k < i ==> p@[k] == q@[k]),
        decreases p@.len() - i,
    {
        if p[i] != q[i] {
            starts = false;
        }
        i = i + 1;
    }
    proof {
        if starts {
            assert(q@.take(p@.len() as int) =~= p@);
        } else if p@.len() <= q@.len() {
            assert(!(q@.take(p@.len() as int) =~= p@));
        }
        if same_len && starts {
            assert(p@ =~= q@);
        }
        if p@ == q@ {
            assert(q@.take(p@.len() as int) =~= p@);
        }
    }
    if !starts {
        return false;
    }
    if same_len {
        return true;
    }
    (p.len() > 0 && p[p.len() - 1] == '/') || (q.len() > p.len() && q[p.len()] == '/')
}

/// A root-overlap error on the right-hand zone for each of its roots that
/// overlaps the left-hand root `lp`.
pub open spec fn row_overlaps(lp: Seq<char>, rps: Seq<AbsolutePath>, right: ZoneId) -> Seq<Violation>
    decreases rps.len(),
{
    if rps.len() == 0 {
        Seq::empty()
    } else {
        row_overlaps(lp, rps.drop_last(), right) + flag(
            paths_overlap(lp, rps.last()@),
            error(ViolationCode::FilesystemRootOverlap, ValidationSubject::Zone(right)),
        )
    }
}

/// The row of overlaps of each left-hand root, in order.
pub open spec fn grid_overlaps(lps: Seq<AbsolutePath>, rps: Seq<AbsolutePath>, right: ZoneId) -> Seq<Violation>
    decreases lps.len(),
{
    if lps.len() == 0 {
        Seq::empty()
    } else {
        grid_overlaps(lps.drop_last(), rps, right) + row_overlaps(lps.last()@, rps, right)
    }
}

/// A root-overlap error on the right-hand zone for each overlapping pair of
/// its roots with the left-hand zone's.
pub open spec fn pair_overlaps(left: Zone, right: Zone) -> Seq<Violation> {
    grid_overlaps(left.filesystem_roots@, right.filesystem_roots@, right.id)
}

/// The overlaps of the zone at `i` with every later zone.
pub open spec fn later_overlaps(zones: Seq<Zone>, i: int) -> Seq<Violation> {
    flat(zones.skip(i + 1), |right: Zone| pair_overlaps(zones[i], right))
}

/// The root overlaps of every pair of zones, in order of the earlier zone.
pub open spec fn root_overlaps(zones: Seq<Zone>) -> Seq<Violation> {
    flat(Seq::new(zones.len(), |i: int| i), |i: int| later_overlaps(zones, i))
}

fn root_chars(z: &Zone) -> (r: Vec<Vec<char>>)
    ensures
        r@.len() == z.filesystem_roots@.len(),
        forall|k: int| 0 <= k < r@.len() ==> (#[trigger] r@[k])@ == z.filesystem_roots@[k]@,
{
    let roots = z.filesystem_roots.as_slice();
    let mut out: Vec<Vec<char>> = Vec::new();
    let mut k: usize = 0;
    while k < roots.len()
        invariant
            k <= roots@.len(),
            roots@ == z.filesystem_roots@,
            out@.len() == k,
            forall|j: int| 0 <= j < k ==> (#[trigger] out@[j])@ == roots@[j]@,
        decreases roots@.len() - k,
    {
        out.push(crate::text::chars_of(roots[k].as_str()));
        k = k + 1;
    }
    out
}

fn validate_pair_overlaps(left: &Zone, right: &Zone) -> (r: Vec<Violation>)
    ensures
        r@ == pair_overlaps(*left, *right),
{
    let ls = root_chars(left);
    let rs = root_chars(right);
    let ghost lps = left.filesystem_roots@;
    let ghost rps = right.filesystem_roots@;
    let subject = ValidationSubject::Zone(right.id);
    let mut v: Vec<Violation> = Vec::new();
    let mut a: usize = 0;
    while a < ls.len()
        invariant
            a <= ls@.len(),
            ls@.len() == lps.len(),
            rs@.len() == rps.len(),
            lps == left.filesystem_roots@,
            rps == right.filesystem_roots@,
            subject == ValidationSubject::Zone(right.id),
            forall|k: int| 0 <= k < ls@.len() ==> (#[trigger] ls@[k])@ == lps[k]@,
            forall|k: int| 0 <= k < rs@.len() ==> (#[trigger] rs@[k])@ == rps[k]@,
            v@ == grid_overlaps(lps.take(a as int), rps, right.id),
        decreases ls@.len() - a,
    {
        let ghost lp = lps[a as int]@;
        let ghost head = v@;
        let mut b: usize = 0;
        while b < rs.len()
            invariant
                b <= rs@.len(),
                a < ls@.len(),
                rs@.len() == rps.len(),
                ls@[a as int]@ == lp,
                subject == ValidationSubject::Zone(right.id),
                forall|k: int| 0 <= k < rs@.len() ==> (#[trigger] rs@[k])@ == rps[k]@,
                v@ == head + row_overlaps(lp, rps.take(b as int), right.id),
            decreases rs@.len() - b,
        {
            proof {
                assert(rps.take(b + 1).drop_last() =~= rps.take(b as int));
                assert(rps.take(b + 1).last() == rps[b as int]);
            }
            let o = path_prefix(ls[a].as_slice(), rs[b].as_slice()) || path_prefix(
                rs[b].as_slice(),
                ls[a].as_slice(),
            );
            push_if(&mut v, o, err(ViolationCode::FilesystemRootOverlap, subject));
            proof {
                assert(v@ =~= head + row_overlaps(lp, rps.take(b + 1), right.id));
            }
            b = b + 1;
        }
        proof {
            assert(rps.take(rs@.len() as int) =~= rps);
            assert(lps.take(a + 1).drop_last() =~= lps.take(a as int));
            assert(lps.take(a + 1).last() == lps[a as int]);
            assert(v@ =~= grid_overlaps(lps.take(a + 1), rps, right.id));
        }
        a = a + 1;
    }
    assert(lps.take(ls@.len() as int) =~= lps);
    v
}

fn validate_filesystem_roots(zones: &[Zone]) -> (r: Vec<Violation>)
    ensures
        r@ == root_overlaps(zones@),
{
    let ghost idx = Seq::new(zones@.len(), |i: int| i);
    let ghost f = |i: int| later_overlaps(zones@, i);
    let mut v: Vec<Violation> = Vec::new();
    let mut i: usize = 0;
    while i < zones.len()
        invariant
            i <= zones@.len(),
            idx == Seq::new(zones@.len(), |i: int| i),
            f == (|i: int| later_overlaps(zones@, i)),
            v@ == flat(idx.take(i as int), f),
        decreases zones@.len() - i,
    {
        let ghost head = v@;
        let ghost later = zones@.skip(i + 1);
        let ghost g = |right: Zone| pair_overlaps(zones@[i as int], right);
        let mut j: usize = i + 1;
        assert(later.take(0) =~= Seq::<Zone>::empty());
        while j < zones.len()
            invariant
                i < j <= zones@.len(),
                later == zones@.skip(i + 1),
                g == (|right: Zone| pair_overlaps(zones@[i as int], right)),
                v@ == head + flat(later.take(j - i - 1), g),
            decreases zones@.len() - j,
        {
            proof {
                lemma_flat_step(later, g, j - i - 1);
                assert(later[j - i - 1] == zones@[j as int]);
            }
            let found = validate_pair_overlaps(&zones[i], &zones[j]);
            append_all(&mut v, found);
            proof {
                assert(v@ =~= head + flat(later.take(j - i), g));
            }
            j = j + 1;
        }
        proof {
            assert(later.take(zones@.len() - i - 1) =~= later);
            lemma_flat_step(idx, f, i as int);
            assert(idx[i as int] == i);
        }
        i = i + 1;
    }
    assert(idx.take(zones@.len() as int) =~= idx);
    v
}

/// Whether a zone end names no zone of the model.
pub open spec fn end_missing(m: SecurityModel, end: BoundaryEnd) -> bool {
    match end {
        BoundaryEnd::Zone(id) => zone_of(m, id) is None,
        BoundaryEnd::Outside => false,
    }
}

/// Whether both sides are declared zones and side A is less trusted than
/// side B.
pub open spec fn trust_inverted(m: SecurityModel, b: Boundary) -> bool {
    match (b.side_a, b.side_b) {
        (BoundaryEnd::Zone(x), BoundaryEnd::Zone(y)) => match (zone_of(m, x), zone_of(m, y)) {
            (Some(za), Some(zb)) => za.trust_level.rank() < zb.trust_level.rank(),
            _ => false,
        },
        _ => false,
    }
}

/// Boundary rules against the model: both zone sides declared, side A at
/// least as trusted as side B.
pub open spec fn boundary_semantic(m: SecurityModel, b: Boundary) -> Seq<Violation> {
    let s = ValidationSubject::Boundary(b.id);
    flag(end_missing(m, b.side_a), error(ViolationCode::MissingReference, s))
        + flag(end_missing(m, b.side_b), error(ViolationCode::MissingReference, s))
        + flag(trust_inverted(m, b), error(ViolationCode::BoundaryTrustOrder, s))
}

fn end_is_missing(model: &SecurityModel, end: &BoundaryEnd) -> (r: bool)
    ensures
        r == end_missing(*model, *end),
{
    match end {
        BoundaryEnd::Zone(id) => find_keyed(model.zones.as_slice(), &id.0).is_none(),
        BoundaryEnd::Outside => false,
    }
}

fn validate_boundary_semantic(boundary: &Boundary, model: &SecurityModel) -> (r: Vec<Violation>)
    ensures
        r@ == boundary_semantic(*model, *boundary),
{
    let s = ValidationSubject::Boundary(boundary.id);
    let mut v: Vec<Violation> = Vec::new();
    push_if(&mut v, end_is_missing(model, &boundary.side_a), err(ViolationCode::MissingReference, s));
    push_if(&mut v, end_is_missing(model, &boundary.side_b), err(ViolationCode::MissingReference, s));
    let inverted = match (&boundary.side_a, &boundary.side_b) {
        (BoundaryEnd::Zone(x), BoundaryEnd::Zone(y)) => {
            match (find_keyed(model.zones.as_slice(), &x.0), find_keyed(model.zones.as_slice(), &y.0)) {
                (Some(i), Some(j)) => model.zones[i].trust_level.level() < model.zones[j].trust_level.level(),
                _ => false,
            }
        },
        _ => false,
    };
    push_if(&mut v, inverted, err(ViolationCode::BoundaryTrustOrder, s));
    v
}

/// Whether an end is a declared zone of high or critical trust.
pub open spec fn end_high_trust(m: SecurityModel, end: BoundaryEnd) -> bool {
    match end {
        BoundaryEnd::Zone(id) => match zone_of(m, id) {
            Some(z) => z.trust_level is High || z.trust_level is Critical,
            None => false,
        },
        BoundaryEnd::Outside => false,
    }
}

/// On a boundary that touches a high-trust zone, each layer that does not
/// fail closed is an error.
pub open spec fn layers_semantic(m: SecurityModel, s: BoundarySpec) -> Seq<Violation> {
    if end_high_trust(m, s.boundary.side_a) || end_high_trust(m, s.boundary.side_b) {
        flat(
            s.layers@,
            |l: Layer|
                flag(
                    !(l.fail_mode is FailClosed),
                    error(ViolationCode::HighTrustBoundaryFailOpen, ValidationSubject::Boundary(s.boundary.id)),
                ),
        )
    } else {
        Seq::empty()
    }
}

fn is_end_high_trust(model: &SecurityModel, end: &BoundaryEnd) -> (r: bool)
    ensures
        r == end_high_trust(*model, *end),
{
    match end {
        BoundaryEnd::Zone(id) => match find_keyed(model.zones.as_slice(), &id.0) {
            Some(i) => model.zones[i].trust_level == TrustLevel::High || model.zones[i].trust_level
                == TrustLevel::Critical,
            None => false,
        },
        BoundaryEnd::Outside => false,
    }
}

fn validate_boundary_layers_semantic(spec: &BoundarySpec, model: &SecurityModel) -> (r: Vec<
    Violation,
>)
    ensures
        r@ == layers_semantic(*model, *spec),
{
    if is_end_high_trust(model, &spec.boundary.side_a) || is_end_high_trust(model, &spec.boundary.side_b) {
        let id = spec.boundary.id;
        let check = |l: &Layer| -> (r: Vec<Violation>)
            ensures
                r@ == flag(
                    !(l.fail_mode is FailClosed),
                    error(ViolationCode::HighTrustBoundaryFailOpen, ValidationSubject::Boundary(id)),
                ),
            {
                let mut w: Vec<Violation> = Vec::new();
                push_if(
                    &mut w,
                    l.fail_mode != FailMode::FailClosed,
                    err(ViolationCode::HighTrustBoundaryFailOpen, ValidationSubject::Boundary(id)),
                );
                w
            };
        collect_each(
            spec.layers.as_slice(),
            check,
            Ghost(
                |l: Layer|
                    flag(
                        !(l.fail_mode is FailClosed),
                        error(ViolationCode::HighTrustBoundaryFailOpen, ValidationSubject::Boundary(spec.boundary.id)),
                    ),
            ),
        )
    } else {
        Vec::new()
    }
}

/// The order of boundary ends: zones by identifier bytes, then the outside.
pub open spec fn end_le(a: BoundaryEnd, b: BoundaryEnd) -> bool {
    match (a, b) {
        (BoundaryEnd::Zone(x), BoundaryEnd::Zone(y)) => !crate::kernel::id::bytes_lt(y.0, x.0),
        (BoundaryEnd::Zone(_), BoundaryEnd::Outside) => true,
        (BoundaryEnd::Outside, BoundaryEnd::Zone(_)) => false,
        (BoundaryEnd::Outside, BoundaryEnd::Outside) => true,
    }
}

/// The two ends in order, so that a pair and its reverse coincide.
pub open spec fn ordered_pair(a: BoundaryEnd, b: BoundaryEnd) -> (BoundaryEnd, BoundaryEnd) {
    if end_le(a, b) {
        (a, b)
    } else {
        (b, a)
    }
}

fn end_at_most(a: &BoundaryEnd, b: &BoundaryEnd) -> (r: bool)
    ensures
        r == end_le(*a, *b),
{
    match (a, b) {
        (BoundaryEnd::Zone(x), BoundaryEnd::Zone(y)) => !crate::kernel::id::bytes_less(&y.0, &x.0),
        (BoundaryEnd::Zone(_), BoundaryEnd::Outside) => true,
        (BoundaryEnd::Outside, BoundaryEnd::Zone(_)) => false,
        (BoundaryEnd::Outside, BoundaryEnd::Outside) => true,
    }
}

fn order_pair(a: BoundaryEnd, b: BoundaryEnd) -> (r: (BoundaryEnd, BoundaryEnd))
    ensures
        r == ordered_pair(a, b),
{
    if end_at_most(&a, &b) {
        (a, b)
    } else {
        (b, a)
    }
}

fn same_pair(p: (BoundaryEnd, BoundaryEnd), q: (BoundaryEnd, BoundaryEnd)) -> (r: bool)
    ensures
        r == (p == q),
{
    p.0.same(&q.0) && p.1.same(&q.1)
}

/// Whether the model declares an identity with the identifier.
pub open spec fn identity_declared(m: SecurityModel, id: IdentityId) -> bool {
    identity_of(m, id) is Some
}

/// Route rules against the model: its boundary declared, its ends those of
/// the boundary in either direction, its declarer declared.
pub open spec fn route_semantic(m: SecurityModel, r: Route) -> Seq<Violation> {
    let s = ValidationSubject::Route(r.id);
    match boundary_of(m, r.boundary_id) {
        None => seq![error(ViolationCode::MissingReference, s)],
        Some(b) => flag(
            ordered_pair(r.from_zone, r.to_zone) != ordered_pair(b.side_a, b.side_b),
            error(ViolationCode::RouteBoundaryMismatch, s),
        ) + flag(!identity_declared(m, r.declared_by), error(ViolationCode::MissingReference, s)),
    }
}

fn validate_route_semantic(route: &Route, model: &SecurityModel) -> (r: Vec<Violation>)
    ensures
        r@ == route_semantic(*model, *route),
{
    let s = ValidationSubject::Route(route.id);
    let mut v: Vec<Violation> = Vec::new();
    match find_keyed(model.boundary_specs.as_slice(), &route.boundary_id.0) {
        None => {
            v.push(err(ViolationCode::MissingReference, s));
        },
        Some(k) => {
            let b = &model.boundary_specs[k].boundary;
            let mismatch = !same_pair(
                order_pair(route.from_zone, route.to_zone),
                order_pair(b.side_a, b.side_b),
            );
            push_if(&mut v, mismatch, err(ViolationCode::RouteBoundaryMismatch, s));
            let declared = find_keyed(model.identities.as_slice(), &route.declared_by.0).is_some();
            push_if(&mut v, !declared, err(ViolationCode::MissingReference, s));
        },
    }
    v
}

/// Whether the capabilities hold the capability.
pub open spec fn has_capability(caps: Seq<Capability>, c: Capability) -> bool {
    exists|i: int| 0 <= i < caps.len() && caps[i] == c
}

/// Whether some capability is neither of the audit family nor a file read.
pub open spec fn beyond_audit(caps: Seq<Capability>) -> bool {
    exists|i: int| 0 <= i < caps.len() && !(#[trigger] caps[i] is AuditReadLog || caps[i] is AuditWriteEvent || caps[i] is AuditVerifyChain) && !(caps[i] is FsRead)
}

fn holds_capability(caps: &[Capability], c: Capability) -> (r: bool)
    ensures
        r == has_capability(caps@, c),
{
    let mut i: usize = 0;
    while i < caps.len()
        invariant
            i <= caps@.len(),
            forall|k: int| 0 <= k < i ==> caps@[k] != c,
        decreases caps@.len() - i,
    {
        if caps[i] == c {
            return true;
        }
        i = i + 1;
    }
    false
}

fn reaches_beyond_audit(caps: &[Capability]) -> (r: bool)
    ensures
        r == beyond_audit(caps@),
{
    let mut i: usize = 0;
    while i < caps.len()
        invariant
            i <= caps@.len(),
            forall|k: int| 0 <= k < i ==> (#[trigger] caps@[k] is AuditReadLog || caps@[k] is AuditWriteEvent || caps@[k] is AuditVerifyChain) || caps@[k] is FsRead,
        decreases caps@.len() - i,
    {
        if !caps[i].is_audit() && caps[i] != Capability::FsRead {
            return true;
        }
        i = i + 1;
    }
    false
}

/// Scope rules against the model: its zone declared; in an audit zone only
/// audit capabilities and file reads; in a signing zone signing and no
/// network reach.
pub open spec fn scope_semantic(m: SecurityModel, s: Scope) -> Seq<Violation> {
    let subject = ValidationSubject::Scope(s.id);
    let caps = s.capabilities@;
    match zone_of(m, s.zone_id) {
        None => seq![error(ViolationCode::MissingReference, subject)],
        Some(z) => flag(z.kind is Audit && beyond_audit(caps), error(ViolationCode::ScopeCapabilityInvariant, subject))
            + flag(
            z.kind is Signing && (!has_capability(caps, Capability::CryptoSign) || has_capability(caps, Capability::NetConnectOutbound) || has_capability(caps, Capability::NetListen)),
            error(ViolationCode::ScopeCapabilityInvariant, subject),
        ),
    }
}

fn validate_scope_semantic(scope: &Scope, model: &SecurityModel) -> (r: Vec<Violation>)
    ensures
        r@ == scope_semantic(*model, *scope),
{
    let subject = ValidationSubject::Scope(scope.id);
    let mut v: Vec<Violation> = Vec::new();
    match find_keyed(model.zones.as_slice(), &scope.zone_id.0) {
        None => {
            v.push(err(ViolationCode::MissingReference, subject));
        },
        Some(k) => {
            let kind = model.zones[k].kind;
            let caps = scope.capabilities.as_slice();
            push_if(
                &mut v,
                kind == ZoneKind::Audit && reaches_beyond_audit(caps),
                err(ViolationCode::ScopeCapabilityInvariant, subject),
            );
            push_if(
                &mut v,
                kind == ZoneKind::Signing && (!holds_capability(caps, Capability::CryptoSign)
                    || holds_capability(caps, Capability::NetConnectOutbound) || holds_capability(
                    caps,
                    Capability::NetListen,
                )),
                err(ViolationCode::ScopeCapabilityInvariant, subject),
            );
        },
    }
    v
}

/// Credential rules against the model: its identity declared, stored in a
/// declared identity or signing zone.
pub open spec fn credential_semantic(m: SecurityModel, c: Credential) -> Seq<Violation> {
    let s = ValidationSubject::Credential(c.id);
    flag(!identity_declared(m, c.identity_id), error(ViolationCode::MissingReference, s))
        + match zone_of(m, c.stored_in) {
        None => seq![error(ViolationCode::MissingReference, s)],
        Some(z) => flag(!(z.kind is Identity || z.kind is Signing), error(ViolationCode::CredentialInvariant, s)),
    }
}

fn validate_credential_semantic(credential: &Credential, model: &SecurityModel) -> (r: Vec<
    Violation,
>)
    ensures
        r@ == credential_semantic(*model, *credential),
{
    let s = ValidationSubject::Credential(credential.id);
    let mut v: Vec<Violation> = Vec::new();
    let declared = find_keyed(model.identities.as_slice(), &credential.identity_id.0).is_some();
    push_if(&mut v, !declared, err(ViolationCode::MissingReference, s));
    let ghost head = v@;
    match find_keyed(model.zones.as_slice(), &credential.stored_in.0) {
        None => {
            v.push(err(ViolationCode::MissingReference, s));
        },
        Some(k) => {
            let kind = model.zones[k].kind;
            push_if(
                &mut v,
                !(kind == ZoneKind::Identity || kind == ZoneKind::Signing),
                err(ViolationCode::CredentialInvariant, s),
            );
        },
    }
    v
}

/// A grant of `t` is authority for `grantor` over `zone`: the grantor is
/// trusted, actively, in a declared scope of that zone that may declare or
/// modify zones.
pub open spec fn grants_zone_authority(m: SecurityModel, t: Trust, grantor: IdentityId, zone: ZoneId) -> bool {
    t.identity_id == grantor && t.active && match scope_of(m, t.scope_id) {
        Some(s) => s.zone_id == zone && (has_capability(s.capabilities@, Capability::ZoneDeclare)
            || has_capability(s.capabilities@, Capability::ZoneModify)),
        None => false,
    }
}

/// Whether some trust of the model gives the grantor authority over the zone.
pub open spec fn has_zone_authority(m: SecurityModel, grantor: IdentityId, zone: ZoneId) -> bool {
    exists|k: int| 0 <= k < m.trusts@.len() && grants_zone_authority(m, #[trigger] m.trusts@[k], grantor, zone)
}

/// The root's bootstrap grant of trust to itself.
pub open spec fn root_bootstrap_self_grant(t: Trust, identity: Identity, grantor: Option<Identity>) -> bool {
    t.identity_id == t.granted_by && t.basis is SystemBootstrap && identity.kind is Root && (
    grantor matches Some(g) && g.kind is Root)
}

/// Trust rules against the model. The trusted identity and the scope must
/// be declared (each absence ends the check), and the grantor too. Only
/// the root may grant trust to itself, and only at bootstrap; a bootstrap
/// grant comes from the root; an identity bound to a zone is trusted only
/// in scopes of that zone; and apart from the root's bootstrap self-grant,
/// the grantor must hold authority over the scope's zone.
pub open spec fn trust_semantic(m: SecurityModel, t: Trust) -> Seq<Violation> {
    let s = ValidationSubject::Trust(t.id);
    match identity_of(m, t.identity_id) {
        None => seq![error(ViolationCode::MissingReference, s)],
        Some(identity) => {
            let grantor = identity_of(m, t.granted_by);
            flag(grantor is None, error(ViolationCode::MissingReference, s)) + match scope_of(m, t.scope_id) {
                None => seq![error(ViolationCode::MissingReference, s)],
                Some(scope) => flag(
                    t.identity_id == t.granted_by && !(t.basis is SystemBootstrap && identity.kind is Root),
                    error(ViolationCode::TrustInvariant, s),
                ) + flag(
                    t.basis is SystemBootstrap && !(grantor matches Some(g) && g.kind is Root),
                    error(ViolationCode::TrustInvariant, s),
                ) + flag(
                    identity.bound_to_zone matches Some(z) && z != scope.zone_id,
                    error(ViolationCode::TrustInvariant, s),
                ) + flag(
                    grantor is Some && !root_bootstrap_self_grant(t, identity, grantor)
                        && !has_zone_authority(m, t.granted_by, scope.zone_id),
                    error(ViolationCode::TrustGrantAuthorityMissing, s),
                ),
            }
        },
    }
}

fn zone_authority(model: &SecurityModel, grantor: &IdentityId, zone: &ZoneId) -> (r: bool)
    ensures
        r == has_zone_authority(*model, *grantor, *zone),
{
    let mut k: usize = 0;
    while k < model.trusts.len()
        invariant
            k <= model.trusts@.len(),
            forall|j: int| 0 <= j < k ==> !grants_zone_authority(*model, #[trigger] model.trusts@[j], *grantor, *zone),
        decreases model.trusts@.len() - k,
    {
        let t = &model.trusts[k];
        if t.identity_id.same(grantor) && t.active {
            match find_keyed(model.scopes.as_slice(), &t.scope_id.0) {
                Some(j) => {
                    let sc = &model.scopes[j];
                    let caps = sc.capabilities.as_slice();
                    if sc.zone_id.same(zone) && (holds_capability(caps, Capability::ZoneDeclare)
                        || holds_capability(caps, Capability::ZoneModify)) {
                        assert(grants_zone_authority(*model, model.trusts@[k as int], *grantor, *zone));
                        return true;
                    }
                },
                None => {},
            }
        }
        k = k + 1;
    }
    false
}

fn validate_trust_semantic(trust: &Trust, model: &SecurityModel) -> (r: Vec<Violation>)
    ensures
        r@ == trust_semantic(*model, *trust),
{
    let s = ValidationSubject::Trust(trust.id);
    let mut v: Vec<Violation> = Vec::new();
    let ids = model.identities.as_slice();
    let identity = match find_keyed(ids, &trust.identity_id.0) {
        None => {
            v.push(err(ViolationCode::MissingReference, s));
            return v;
        },
        Some(k) => &ids[k],
    };
    let grantor = find_keyed(ids, &trust.granted_by.0);
    push_if(&mut v, grantor.is_none(), err(ViolationCode::MissingReference, s));
    let scope = match find_keyed(model.scopes.as_slice(), &trust.scope_id.0) {
        None => {
            v.push(err(ViolationCode::MissingReference, s));
            return v;
        },
        Some(k) => &model.scopes[k],
    };
    let self_grant = trust.identity_id.same(&trust.granted_by);
    let bootstrap = trust.basis == TrustBasis::SystemBootstrap;
    let is_root = identity.kind == IdentityKind::Root;
    let grantor_root = match grantor {
        Some(g) => ids[g].kind == IdentityKind::Root,
        None => false,
    };
    push_if(&mut v, self_grant && !(bootstrap && is_root), err(ViolationCode::TrustInvariant, s));
    push_if(&mut v, bootstrap && !grantor_root, err(ViolationCode::TrustInvariant, s));
    let misbound = match identity.bound_to_zone {
        Some(z) => !z.same(&scope.zone_id),
        None => false,
    };
    push_if(&mut v, misbound, err(ViolationCode::TrustInvariant, s));
    let exempt = self_grant && bootstrap && is_root && grantor_root;
    let unauthorised = grantor.is_some() && !exempt && !zone_authority(
        model,
        &trust.granted_by,
        &scope.zone_id,
    );
    push_if(&mut v, unauthorised, err(ViolationCode::TrustGrantAuthorityMissing, s));
    v
}

/// Policy rules against the model: its route declared (else the check
/// ends), a retired policy not on an enabled route, its declarer declared,
/// and every gate on the policy's route.
pub open spec fn policy_semantic(m: SecurityModel, p: Policy) -> Seq<Violation> {
    let s = ValidationSubject::Policy(p.id);
    match route_of(m, p.route_id) {
        None => seq![error(ViolationCode::MissingReference, s)],
        Some(route) => flag(p.status is Retired && route.enabled, error(ViolationCode::PolicyInvariant, s))
            + flag(!identity_declared(m, p.declared_by), error(ViolationCode::MissingReference, s))
            + flat(p.gates@, |g: Gate| flag(g.route_id != p.route_id, error(ViolationCode::PolicyInvariant, ValidationSubject::Policy(p.id)))),
    }
}

fn validate_policy_semantic(policy: &Policy, model: &SecurityModel) -> (r: Vec<Violation>)
    ensures
        r@ == policy_semantic(*model, *policy),
{
    let s = ValidationSubject::Policy(policy.id);
    let mut v: Vec<Violation> = Vec::new();
    let route = match find_keyed(model.routes.as_slice(), &policy.route_id.0) {
        None => {
            v.push(err(ViolationCode::MissingReference, s));
            return v;
        },
        Some(k) => &model.routes[k],
    };
    push_if(
        &mut v,
        policy.status == PolicyStatus::Retired && route.enabled,
        err(ViolationCode::PolicyInvariant, s),
    );
    let declared = find_keyed(model.identities.as_slice(), &policy.declared_by.0).is_some();
    push_if(&mut v, !declared, err(ViolationCode::MissingReference, s));
    let route_id = policy.route_id;
    let pid = policy.id;
    let check = |g: &Gate| -> (r: Vec<Violation>)
        ensures
            r@ == flag(g.route_id != route_id, error(ViolationCode::PolicyInvariant, ValidationSubject::Policy(pid))),
        {
            let mut w: Vec<Violation> = Vec::new();
            push_if(
                &mut w,
                !g.route_id.same(&route_id),
                err(ViolationCode::PolicyInvariant, ValidationSubject::Policy(pid)),
            );
            w
        };
    let gates = collect_each(
        policy.gates.as_slice(),
        check,
        Ghost(|g: Gate| flag(g.route_id != policy.route_id, error(ViolationCode::PolicyInvariant, ValidationSubject::Policy(policy.id)))),
    );
    append_all(&mut v, gates);
    v
}

/// Whether the identity holds an offline password credential.
pub open spec fn has_offline_password(m: SecurityModel, id: IdentityId) -> bool {
    exists|k: int| 0 <= k < m.credentials@.len() && (#[trigger] m.credentials@[k]).identity_id == id
        && m.credentials@[k].mechanism is PasswordOffline
}

/// Each root identity without an offline password credential.
pub open spec fn root_offline_violations(m: SecurityModel) -> Seq<Violation> {
    flat(
        m.identities@,
        |i: Identity|
            flag(
                i.kind is Root && !has_offline_password(m, i.id),
                error(ViolationCode::RootOfflineCredentialMissing, ValidationSubject::Identity(i.id)),
            ),
    )
}

fn offline_password(model: &SecurityModel, id: &IdentityId) -> (r: bool)
    ensures
        r == has_offline_password(*model, *id),
{
    let mut k: usize = 0;
    while k < model.credentials.len()
        invariant
            k <= model.credentials@.len(),
            forall|j: int| 0 <= j < k ==> !((#[trigger] model.credentials@[j]).identity_id == *id
                && model.credentials@[j].mechanism is PasswordOffline),
        decreases model.credentials@.len() - k,
    {
        if model.credentials[k].identity_id.same(id) && model.credentials[k].mechanism
            == CredentialMechanism::PasswordOffline {
            return true;
        }
        k = k + 1;
    }
    false
}

fn validate_root_offline_credential(model: &SecurityModel) -> (r: Vec<Violation>)
    ensures
        r@ == root_offline_violations(*model),
{
    let check = |i: &Identity| -> (r: Vec<Violation>)
        ensures
            r@ == flag(
                i.kind is Root && !has_offline_password(*model, i.id),
                error(ViolationCode::RootOfflineCredentialMissing, ValidationSubject::Identity(i.id)),
            ),
        {
            let mut w: Vec<Violation> = Vec::new();
            let missing = i.kind == IdentityKind::Root && !offline_password(model, &i.id);
            push_if(
                &mut w,
                missing,
                err(ViolationCode::RootOfflineCredentialMissing, ValidationSubject::Identity(i.id)),
            );
            w
        };
    collect_each(
        model.identities.as_slice(),
        check,
        Ghost(
            |i: Identity|
                flag(
                    i.kind is Root && !has_offline_password(*model, i.id),
                    error(ViolationCode::RootOfflineCredentialMissing, ValidationSubject::Identity(i.id)),
                ),
        ),
    )
}

/// A root's bootstrap grant of trust to itself.
pub open spec fn root_bootstrap(m: SecurityModel, t: Trust) -> bool {
    t.identity_id == t.granted_by && t.basis is SystemBootstrap && (identity_of(m, t.identity_id) matches Some(
        i,
    ) && i.kind is Root)
}

/// Every root bootstrap self-grant after the first is an error.
pub open spec fn bootstrap_repeats(m: SecurityModel, ts: Seq<Trust>) -> Seq<Violation>
    decreases ts.len(),
{
    if ts.len() == 0 {
        Seq::empty()
    } else {
        let init = ts.drop_last();
        bootstrap_repeats(m, init) + flag(
            root_bootstrap(m, ts.last()) && exists|k: int| 0 <= k < init.len() && root_bootstrap(m, #[trigger] init[k]),
            error(ViolationCode::TrustInvariant, ValidationSubject::Trust(ts.last().id)),
        )
    }
}

fn is_root_bootstrap(model: &SecurityModel, t: &Trust) -> (r: bool)
    ensures
        r == root_bootstrap(*model, *t),
{
    t.identity_id.same(&t.granted_by) && t.basis == TrustBasis::SystemBootstrap && match find_keyed(
        model.identities.as_slice(),
        &t.identity_id.0,
    ) {
        Some(k) => model.identities[k].kind == IdentityKind::Root,
        None => false,
    }
}

fn validate_unique_root_bootstrap_self_grant(model: &SecurityModel) -> (r: Vec<Violation>)
    ensures
        r@ == bootstrap_repeats(*model, model.trusts@),
{
    let ts = model.trusts.as_slice();
    let mut v: Vec<Violation> = Vec::new();
    let mut seen = false;
    let mut i: usize = 0;
    while i < ts.len()
        invariant
            i <= ts@.len(),
            ts@ == model.trusts@,
            v@ == bootstrap_repeats(*model, ts@.take(i as int)),
            seen == exists|k: int| 0 <= k < i && root_bootstrap(*model, #[trigger] ts@[k]),
        decreases ts@.len() - i,
    {
        let ghost pre = ts@.take(i as int);
        proof {
            assert(ts@.take(i + 1).drop_last() =~= pre);
            assert(ts@.take(i + 1).last() == ts@[i as int]);
            assert(seen == exists|k: int| 0 <= k < pre.len() && root_bootstrap(*model, #[trigger] pre[k])) by {
                if seen {
                    let k = choose|k: int| 0 <= k < i && root_bootstrap(*model, #[trigger] ts@[k]);
                    assert(pre[k] == ts@[k]);
                }
                if exists|k: int| 0 <= k < pre.len() && root_bootstrap(*model, #[trigger] pre[k]) {
                    let k = choose|k: int| 0 <= k < pre.len() && root_bootstrap(*model, #[trigger] pre[k]);
                    assert(pre[k] == ts@[k]);
                }
            }
        }
        let rb = is_root_bootstrap(model, &ts[i]);
        push_if(
            &mut v,
            rb && seen,
            err(ViolationCode::TrustInvariant, ValidationSubject::Trust(ts[i].id)),
        );
        if rb {
            seen = true;
        }
        i = i + 1;
    }
    assert(ts@.take(ts@.len() as int) =~= ts@);
    v
}

/// Whether some gate of some policy stands on the route.
pub open spec fn route_gated(m: SecurityModel, id: RouteId) -> bool {
    exists|p: int, g: int|
        0 <= p < m.policies@.len() && 0 <= g < m.policies@[p].gates@.len()
            && (#[trigger] m.policies@[p].gates@[g]).route_id == id
}

/// Each route on which no gate of any policy stands.
pub open spec fn ungated_routes(m: SecurityModel) -> Seq<Violation> {
    flat(
        m.routes@,
        |r: Route| flag(!route_gated(m, r.id), error(ViolationCode::RouteWithoutGate, ValidationSubject::Route(r.id))),
    )
}

fn has_gate(model: &SecurityModel, id: &RouteId) -> (r: bool)
    ensures
        r == route_gated(*model, *id),
{
    let mut p: usize = 0;
    while p < model.policies.len()
        invariant
            p <= model.policies@.len(),
            forall|q: int, g: int|
                0 <= q < p && 0 <= g < model.policies@[q].gates@.len() ==> (
                #[trigger] model.policies@[q].gates@[g]).route_id != *id,
        decreases model.policies@.len() - p,
    {
        let gates = model.policies[p].gates.as_slice();
        let mut g: usize = 0;
        while g < gates.len()
            invariant
                p < model.policies@.len(),
                g <= gates@.len(),
                gates@ == model.policies@[p as int].gates@,
                forall|h: int| 0 <= h < g ==> (#[trigger] gates@[h]).route_id != *id,
            decreases gates@.len() - g,
        {
            if gates[g].route_id.same(id) {
                assert(model.policies@[p as int].gates@[g as int].route_id == *id);
                return true;
            }
            g = g + 1;
        }
        p = p + 1;
    }
    false
}

fn validate_routes_have_gates(model: &SecurityModel) -> (r: Vec<Violation>)
    ensures
        r@ == ungated_routes(*model),
{
    let check = |r: &Route| -> (out: Vec<Violation>)
        ensures
            out@ == flag(!route_gated(*model, r.id), error(ViolationCode::RouteWithoutGate, ValidationSubject::Route(r.id))),
        {
            let mut w: Vec<Violation> = Vec::new();
            push_if(
                &mut w,
                !has_gate(model, &r.id),
                err(ViolationCode::RouteWithoutGate, ValidationSubject::Route(r.id)),
            );
            w
        };
    collect_each(
        model.routes.as_slice(),
        check,
        Ghost(|r: Route| flag(!route_gated(*model, r.id), error(ViolationCode::RouteWithoutGate, ValidationSubject::Route(r.id)))),
    )
}

/// Boundary specs repeating an earlier identifier, or joining a pair of ends
/// an earlier one already joins in either direction.
pub open spec fn boundary_repeats(specs: Seq<BoundarySpec>) -> Seq<Violation>
    decreases specs.len(),
{
    if specs.len() == 0 {
        Seq::empty()
    } else {
        let init = specs.drop_last();
        let b = specs.last().boundary;
        let s = ValidationSubject::Boundary(b.id);
        boundary_repeats(init) + flag(
            exists|k: int| 0 <= k < init.len() && (#[trigger] init[k]).boundary.id == b.id,
            error(ViolationCode::DuplicateId, s),
        ) + flag(
            exists|k: int| 0 <= k < init.len() && ordered_pair((#[trigger] init[k]).boundary.side_a, init[k].boundary.side_b)
                == ordered_pair(b.side_a, b.side_b),
            error(ViolationCode::DuplicateBoundaryPair, s),
        )
    }
}

fn validate_unique_boundaries(specs: &[BoundarySpec]) -> (r: Vec<Violation>)
    ensures
        r@ == boundary_repeats(specs@),
{
    let mut v: Vec<Violation> = Vec::new();
    let mut i: usize = 0;
    while i < specs.len()
        invariant
            i <= specs@.len(),
            v@ == boundary_repeats(specs@.take(i as int)),
        decreases specs@.len() - i,
    {
        let ghost pre = specs@.take(i as int);
        let b = &specs[i].boundary;
        let pair = order_pair(b.side_a, b.side_b);
        let mut id_seen = false;
        let mut pair_seen = false;
        let mut k: usize = 0;
        while k < i
            invariant
                k <= i < specs@.len(),
                *b == specs@[i as int].boundary,
                pair == ordered_pair(b.side_a, b.side_b),
                id_seen == exists|j: int| 0 <= j < k && (#[trigger] specs@[j]).boundary.id == b.id,
                pair_seen == exists|j: int| 0 <= j < k && ordered_pair((#[trigger] specs@[j]).boundary.side_a, specs@[j].boundary.side_b) == pair,
            decreases i - k,
        {
            let other = &specs[k].boundary;
            if other.id.same(&b.id) {
                id_seen = true;
            }
            if same_pair(order_pair(other.side_a, other.side_b), pair) {
                pair_seen = true;
            }
            k = k + 1;
        }
        proof {
            assert(specs@.take(i + 1).drop_last() =~= pre);
            assert(specs@.take(i + 1).last() == specs@[i as int]);
            assert(id_seen == exists|j: int| 0 <= j < pre.len() && (#[trigger] pre[j]).boundary.id == b.id) by {
                if id_seen {
                    let j = choose|j: int| 0 <= j < i && (#[trigger] specs@[j]).boundary.id == b.id;
                    assert(pre[j] == specs@[j]);
                }
                if exists|j: int| 0 <= j < pre.len() && (#[trigger] pre[j]).boundary.id == b.id {
                    let j = choose|j: int| 0 <= j < pre.len() && (#[trigger] pre[j]).boundary.id == b.id;
                    assert(pre[j] == specs@[j]);
                }
            }
            assert(pair_seen == exists|j: int| 0 <= j < pre.len() && ordered_pair((#[trigger] pre[j]).boundary.side_a, pre[j].boundary.side_b) == pair) by {
                if pair_seen {
                    let j = choose|j: int| 0 <= j < i && ordered_pair((#[trigger] specs@[j]).boundary.side_a, specs@[j].boundary.side_b) == pair;
                    assert(pre[j] == specs@[j]);
                }
                if exists|j: int| 0 <= j < pre.len() && ordered_pair((#[trigger] pre[j]).boundary.side_a, pre[j].boundary.side_b) == pair {
                    let j = choose|j: int| 0 <= j < pre.len() && ordered_pair((#[trigger] pre[j]).boundary.side_a, pre[j].boundary.side_b) == pair;
                    assert(pre[j] == specs@[j]);
                }
            }
        }
        let subject = ValidationSubject::Boundary(b.id);
        push_if(&mut v, id_seen, err(ViolationCode::DuplicateId, subject));
        push_if(&mut v, pair_seen, err(ViolationCode::DuplicateBoundaryPair, subject));
        proof {
            assert(v@ =~= boundary_repeats(specs@.take(i + 1)));
        }
        i = i + 1;
    }
    assert(specs@.take(specs@.len() as int) =~= specs@);
    v
}

/// Everything a scope reports: its own rules, then those against the model.
pub open spec fn scope_all(m: SecurityModel, s: Scope) -> Seq<Violation> {
    scope_violations(s) + scope_semantic(m, s)
}

/// Everything a credential reports.
pub open spec fn credential_all(m: SecurityModel, c: Credential) -> Seq<Violation> {
    credential_violations(c) + credential_semantic(m, c)
}

/// Everything a trust grant reports.
pub open spec fn trust_all(m: SecurityModel, t: Trust) -> Seq<Violation> {
    trust_violations(t) + trust_semantic(m, t)
}

/// Everything a boundary spec reports.
pub open spec fn boundary_spec_all(m: SecurityModel, s: BoundarySpec) -> Seq<Violation> {
    boundary_spec_violations(s) + boundary_semantic(m, s.boundary) + layers_semantic(m, s)
}

/// Everything a route reports.
pub open spec fn route_all(m: SecurityModel, r: Route) -> Seq<Violation> {
    route_violations(r) + route_semantic(m, r)
}

/// Everything a policy reports.
pub open spec fn policy_all(m: SecurityModel, p: Policy) -> Seq<Violation> {
    policy_violations(p) + policy_semantic(m, p)
}

/// The violations of a model, in this order: repeated identifiers of zones,
/// identities, scopes, credentials, trusts, routes and policies;
/// overlapping zone roots; each zone's and identity's rules; each scope's,
/// credential's and trust's rules with those against the model; each
/// boundary spec's; repeated boundaries; each route's and policy's; root
/// identities without an offline password; repeated root bootstrap grants;
/// routes without a gate.
pub open spec fn model_violations(m: SecurityModel) -> Seq<Violation> {
    duplicates(m.zones@) + duplicates(m.identities@) + duplicates(m.scopes@) + duplicates(
        m.credentials@,
    ) + duplicates(m.trusts@) + duplicates(m.routes@) + duplicates(m.policies@) + root_overlaps(
        m.zones@,
    ) + flat(m.zones@, |z: Zone| zone_violations(z)) + flat(
        m.identities@,
        |i: Identity| identity_violations(i),
    ) + flat(m.scopes@, |s: Scope| scope_all(m, s)) + flat(
        m.credentials@,
        |c: Credential| credential_all(m, c),
    ) + flat(m.trusts@, |t: Trust| trust_all(m, t)) + flat(
        m.boundary_specs@,
        |s: BoundarySpec| boundary_spec_all(m, s),
    ) + boundary_repeats(m.boundary_specs@) + flat(m.routes@, |r: Route| route_all(m, r)) + flat(
        m.policies@,
        |p: Policy| policy_all(m, p),
    ) + root_offline_violations(m) + bootstrap_repeats(m, m.trusts@) + ungated_routes(m)
}

/// Validates model-level semantic invariants.
pub fn validate_security_model(model: &SecurityModel) -> (r: Vec<Violation>)
    ensures
        r@ == model_violations(*model),
{
    let mut v = validate_unique(model.zones.as_slice());
    append_all(&mut v, validate_unique(model.identities.as_slice()));
    append_all(&mut v, validate_unique(model.scopes.as_slice()));
    append_all(&mut v, validate_unique(model.credentials.as_slice()));
    append_all(&mut v, validate_unique(model.trusts.as_slice()));
    append_all(&mut v, validate_unique(model.routes.as_slice()));
    append_all(&mut v, validate_unique(model.policies.as_slice()));
    append_all(&mut v, validate_filesystem_roots(model.zones.as_slice()));
    let zone_check = |z: &Zone| -> (r: Vec<Violation>)
        ensures
            r@ == zone_violations(*z),
        { validate_zone(z) };
    append_all(&mut v, collect_each(model.zones.as_slice(), zone_check, Ghost(|z: Zone| zone_violations(z))));
    let identity_check = |i: &Identity| -> (r: Vec<Violation>)
        ensures
            r@ == identity_violations(*i),
        { validate_identity(i) };
    append_all(
        &mut v,
        collect_each(model.identities.as_slice(), identity_check, Ghost(|i: Identity| identity_violations(i))),
    );
    let scope_check = |s: &Scope| -> (r: Vec<Violation>)
        ensures
            r@ == scope_all(*model, *s),
        {
            let mut w = validate_scope(s);
            append_all(&mut w, validate_scope_semantic(s, model));
            w
        };
    append_all(&mut v, collect_each(model.scopes.as_slice(), scope_check, Ghost(|s: Scope| scope_all(*model, s))));
    let credential_check = |c: &Credential| -> (r: Vec<Violation>)
        ensures
            r@ == credential_all(*model, *c),
        {
            let mut w = validate_credential(c);
            append_all(&mut w, validate_credential_semantic(c, model));
            w
        };
    append_all(
        &mut v,
        collect_each(model.credentials.as_slice(), credential_check, Ghost(|c: Credential| credential_all(*model, c))),
    );
    let trust_check = |t: &Trust| -> (r: Vec<Violation>)
        ensures
            r@ == trust_all(*model, *t),
        {
            let mut w = validate_trust(t);
            append_all(&mut w, validate_trust_semantic(t, model));
            w
        };
    append_all(&mut v, collect_each(model.trusts.as_slice(), trust_check, Ghost(|t: Trust| trust_all(*model, t))));
    let spec_check = |s: &BoundarySpec| -> (r: Vec<Violation>)
        ensures
            r@ == boundary_spec_all(*model, *s),
        {
            let mut w = validate_boundary_spec(s);
            append_all(&mut w, validate_boundary_semantic(&s.boundary, model));
            append_all(&mut w, validate_boundary_layers_semantic(s, model));
            w
        };
    append_all(
        &mut v,
        collect_each(model.boundary_specs.as_slice(), spec_check, Ghost(|s: BoundarySpec| boundary_spec_all(*model, s))),
    );
    append_all(&mut v, validate_unique_boundaries(model.boundary_specs.as_slice()));
    let route_check = |r: &Route| -> (out: Vec<Violation>)
        ensures
            out@ == route_all(*model, *r),
        {
            let mut w = validate_route(r);
            append_all(&mut w, validate_route_semantic(r, model));
            w
        };
    append_all(&mut v, collect_each(model.routes.as_slice(), route_check, Ghost(|r: Route| route_all(*model, r))));
    let policy_check = |p: &Policy| -> (r: Vec<Violation>)
        ensures
            r@ == policy_all(*model, *p),
        {
            let mut w = validate_policy(p);
            append_all(&mut w, validate_policy_semantic(p, model));
            w
        };
    append_all(&mut v, collect_each(model.policies.as_slice(), policy_check, Ghost(|p: Policy| policy_all(*model, p))));
    append_all(&mut v, validate_root_offline_credential(model));
    append_all(&mut v, validate_unique_root_bootstrap_self_grant(model));
    append_all(&mut v, validate_routes_have_gates(model));
    v
}

} // verus!
