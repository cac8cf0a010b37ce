//! A gated self-check of the core concepts, from primitive datatypes up to
//! evidence atoms: each layer builds the atoms of its concept and reports
//! where they fail to behave as the concept demands.
use vstd::prelude::*;

use crate::kernel::id::{
    ActorId, BoundaryId, EdgeId, EvaluationId, EvidenceSourceId, ModelId, ObservationId, PolicyId,
    ReferentId, RequirementId, ScopeId, SurfaceId,
};
use crate::kernel::scalars::{
    GateSequence, NonEmptyString, NonEmptyVec, Port, Rate, SemVer, UtcTimestamp,
};
use crate::kernel::structs::{Boundary, BoundaryEnd, RouteEndpoints};
use crate::kernel::theory::{
    ActorDeclaration, ActorRole, BoundaryDeclaration, CountOperator, EdgeDeclaration, EdgeSort,
    EvaluationContextDeclaration, EvaluationDeclaration, EvaluationResult, EvidenceBasis,
    EvidenceSourceDeclaration, MembershipPredicateDeclaration, ModelDeclaration,
    ObservationDeclaration, PolicyDeclaration, PresenceOperator, ReferentDeclaration, ReferentSort,
    RequirementDeclaration, RequirementOperator, RequirementSort, SideDeclaration, SideLabel,
    SurfaceDeclaration, TypedScopeDeclaration, TypedValue,
};
use crate::kernel::theory_validation::{
    boundary_violations, core_theory_violations, duplicate_section, duplicate_violations,
    edge_violations, empty_set_violations, evaluation_violations, flat_map, holds_payload,
    listed_referent_violations, model_violations, observation_violations, policy_violations,
    requirement_violations, scope_violations, validate_core_theory_library, CoreTheoryLibrary,
    Identified, TheoryViolation,
};

verus! {

broadcast use vstd::array::group_array_axioms;

/// Ordered concept layers, from primitives upward.
#[derive(Debug, Copy, Clone, PartialEq, Eq, PartialOrd, Ord, Hash, Structural)]
pub enum ConceptLayer {
    /// Primitive scalar and branded-id atoms.
    PrimitiveDatatypes,
    /// Identity atoms (`ModelId`, `ActorId`, `ReferentId`).
    IdentityAtoms,
    /// Sort atoms (`ReferentSort`, `EdgeSort`, `RequirementSort`).
    SortAtoms,
    /// Graph atoms (`Referent`, `Boundary`, `Side`, `Surface`, `Edge`).
    GraphAtoms,
    /// Policy atoms (`Policy`, `TypedScope`, `Requirement`).
    PolicyAtoms,
    /// Evidence atoms (`EvidenceItem`, `EvidenceBasis`, `Evaluation`).
    EvidenceAtoms,
}

/// The stable key of each layer.
pub open spec fn layer_key(layer: ConceptLayer) -> Seq<char> {
    match layer {
        ConceptLayer::PrimitiveDatatypes => "primitive_datatypes"@,
        ConceptLayer::IdentityAtoms => "identity_atoms"@,
        ConceptLayer::SortAtoms => "sort_atoms"@,
        ConceptLayer::GraphAtoms => "graph_atoms"@,
        ConceptLayer::PolicyAtoms => "policy_atoms"@,
        ConceptLayer::EvidenceAtoms => "evidence_atoms"@,
    }
}

impl ConceptLayer {
    /// Stable stage key for progress reporting.
    pub fn stage_key(self) -> (r: &'static str)
        ensures
            r@ == layer_key(self),
    {
        match self {
            ConceptLayer::PrimitiveDatatypes => "primitive_datatypes",
            ConceptLayer::IdentityAtoms => "identity_atoms",
            ConceptLayer::SortAtoms => "sort_atoms",
            ConceptLayer::GraphAtoms => "graph_atoms",
            ConceptLayer::PolicyAtoms => "policy_atoms",
            ConceptLayer::EvidenceAtoms => "evidence_atoms",
        }
    }
}

/// Severity for concept-layer findings.
#[derive(Debug, Copy, Clone, PartialEq, Eq, PartialOrd, Ord, Hash, Structural)]
pub enum AlignmentSeverity {
    /// Fundamental mismatch against the concept layer.
    Error,
    /// Non-fundamental mismatch that should still be resolved.
    Warning,
}

/// Single concept alignment finding.
#[derive(Debug, Copy, Clone, PartialEq, Eq, Hash)]
pub struct AlignmentFinding {
    /// Error or warning.
    pub severity: AlignmentSeverity,
    /// Concept atom or declaration name.
    pub concept: &'static str,
    /// Deterministic explanation of the mismatch.
    pub detail: &'static str,
}

/// Evaluation outcome for one concept layer.
#[derive(Debug, Clone, PartialEq, Eq, Hash)]
pub struct LayerFeedback {
    /// Layer that was evaluated.
    pub layer: ConceptLayer,
    /// Findings reported for this layer.
    pub findings: Vec<AlignmentFinding>,
}

/// Whether a layer's findings hold no error.
pub open spec fn layer_passes(f: LayerFeedback) -> bool {
    !exists|i: int| 0 <= i < f.findings@.len() && (#[trigger] f.findings@[i]).severity is Error
}

impl LayerFeedback {
    /// Returns true when this layer has no hard errors.
    pub fn passed(&self) -> (r: bool)
        ensures
            r == layer_passes(*self),
    {
        let mut i: usize = 0;
        while i < self.findings.len()
            invariant
                i <= self.findings@.len(),
                forall|k: int| 0 <= k < i ==> !((#[trigger] self.findings@[k]).severity is Error),
            decreases self.findings@.len() - i,
        {
            if self.findings[i].severity == AlignmentSeverity::Error {
                return false;
            }
            i = i + 1;
        }
        true
    }
}

/// Strict gated feedback-loop report.
#[derive(Debug, Clone, PartialEq, Eq, Hash)]
pub struct ConceptFeedbackLoopReport {
    /// Evaluated layers, in order.
    pub layers: Vec<LayerFeedback>,
    /// First failing layer when the loop halts.
    pub halted_at: Option<ConceptLayer>,
}

/// Compact deterministic progress score for concept feedback loops.
#[derive(Debug, Copy, Clone, PartialEq, Eq, Hash)]
pub struct ConceptFeedbackProgressScore {
    /// Number of stages that completed successfully.
    pub passed_stages: usize,
    /// Number of stages that were evaluated.
    pub total_stages: usize,
    /// Integer completion ratio in percent.
    pub completion_ratio: u8,
    /// First failed stage key, when any stage failed.
    pub first_failed_stage: Option<&'static str>,
}

/// Length of the run of passing layers at the front.
pub open spec fn passing_prefix(layers: Seq<LayerFeedback>) -> nat
    decreases layers.len(),
{
    if layers.len() == 0 || !layer_passes(layers[0]) {
        0
    } else {
        1 + passing_prefix(layers.drop_first())
    }
}

impl ConceptFeedbackLoopReport {
    /// Returns true when the loop reached the top layer without halting.
    pub fn passed_all(&self) -> (r: bool)
        ensures
            r == (self.halted_at is None),
    {
        self.halted_at.is_none()
    }

    /// Computes a compact score: the run of passing layers at the front, the
    /// number of layers, the integer percentage of the two, and the key of
    /// the first failing layer.
    pub fn progress_score(&self) -> (r: ConceptFeedbackProgressScore)
        ensures
            r.total_stages == self.layers@.len(),
            r.passed_stages == passing_prefix(self.layers@),
            r.completion_ratio == (if self.layers@.len() == 0 {
                0
            } else {
                passing_prefix(self.layers@) * 100 / self.layers@.len()
            }),
            r.passed_stages < self.layers@.len() ==> (r.first_failed_stage matches Some(k) && k@
                == layer_key(self.layers@[r.passed_stages as int].layer)),
            r.passed_stages == self.layers@.len() ==> r.first_failed_stage is None,
    {
        let total_stages = self.layers.len();
        let mut passed_stages: usize = 0;
        assert(self.layers@.skip(0) =~= self.layers@);
        while passed_stages < total_stages && self.layers[passed_stages].passed()
            invariant
                passed_stages <= total_stages == self.layers@.len(),
                passing_prefix(self.layers@) == passed_stages + passing_prefix(
                    self.layers@.skip(passed_stages as int),
                ),
            decreases total_stages - passed_stages,
        {
            assert(self.layers@.skip(passed_stages as int)[0] == self.layers@[passed_stages as int]);
            assert(self.layers@.skip(passed_stages as int).drop_first() =~= self.layers@.skip(
                passed_stages + 1,
            ));
            passed_stages = passed_stages + 1;
        }
        proof {
            if passed_stages < total_stages {
                assert(self.layers@.skip(passed_stages as int)[0] == self.layers@[passed_stages as int]);
            }
        }
        let completion_ratio: u8 = if total_stages == 0 {
            0
        } else {
            let p: u128 = passed_stages as u128;
            let t: u128 = total_stages as u128;
            assert((p * 100) / (t as int) <= 100) by (nonlinear_arith)
                requires
                    p <= t,
                    t > 0,
            ;
            ((p * 100) / t) as u8
        };
        let first_failed_stage = if passed_stages < total_stages {
            Some(self.layers[passed_stages].layer.stage_key())
        } else {
            None
        };
        ConceptFeedbackProgressScore { passed_stages, total_stages, completion_ratio, first_failed_stage }
    }
}

fn finding(concept: &'static str, detail: &'static str) -> (r: AlignmentFinding)
    ensures
        r.severity is Error,
        r.concept == concept,
        r.detail == detail,
{
    AlignmentFinding { severity: AlignmentSeverity::Error, concept, detail }
}

/// Primitive atoms refuse what their concept excludes: port zero, a zero
/// rate, gate sequence zero, an empty non-empty sequence, a malformed
/// timestamp.
fn evaluate_primitive_datatypes() -> (r: LayerFeedback)
    ensures
        r.layer is PrimitiveDatatypes,
        r.findings@.len() == 0,
{
    let mut findings: Vec<AlignmentFinding> = Vec::new();
    if Port::new(0).is_ok() {
        findings.push(
            finding("Port", "port 0 must be rejected to keep boundary exposure atom non-empty"),
        );
    }
    if Rate::new(0).is_ok() {
        findings.push(
            finding("Rate", "rate must be strictly positive for deterministic temporal constraints"),
        );
    }
    if GateSequence::new(0).is_ok() {
        findings.push(
            finding(
                "GateSequence",
                "gate sequence must be one-based to keep policy order meaningful",
            ),
        );
    }
    if NonEmptyVec::<u8>::new(Vec::new(), "primitive_probe").is_ok() {
        findings.push(finding("NonEmptyVec", "non-empty atom accepted empty payload"));
    }
    proof {
        reveal_strlit("not-a-timestamp");
    }
    if UtcTimestamp::new("not-a-timestamp").is_ok() {
        findings.push(finding("UtcTimestamp", "timestamp atom accepted invalid UTC format"));
    }
    LayerFeedback { layer: ConceptLayer::PrimitiveDatatypes, findings }
}

fn version_one() -> (r: SemVer)
    ensures
        r@ == "1.0.0"@,
{
    SemVer::new_unchecked("1.0.0")
}

fn new_year() -> (r: UtcTimestamp)
    ensures
        r@ == "2026-01-01T00:00:00Z"@,
{
    UtcTimestamp::new_unchecked("2026-01-01T00:00:00Z")
}

/// Identity atoms wire a model to the actor that declared it.
fn evaluate_identity_atoms() -> (r: LayerFeedback)
    ensures
        r.layer is IdentityAtoms,
        r.findings@.len() == 0,
{
    let mut findings: Vec<AlignmentFinding> = Vec::new();
    let actor = ActorDeclaration { id: ActorId::from_bytes([1u8; 16]), role: ActorRole::System };
    let model = ModelDeclaration {
        id: ModelId::from_bytes([2u8; 16]),
        version: version_one(),
        declared_at: new_year(),
        declared_by: actor.id,
    };
    let referent = ReferentDeclaration {
        id: ReferentId::from_bytes([3u8; 16]),
        sort: ReferentSort::Actor,
    };
    if !model.declared_by.same(&actor.id) || !matches!(referent.sort, ReferentSort::Actor) {
        findings.push(
            finding("IdentityAtoms", "identity atoms failed deterministic declaration wiring"),
        );
    }
    LayerFeedback { layer: ConceptLayer::IdentityAtoms, findings }
}

/// Sort atoms form a coherent presence requirement.
fn evaluate_sort_atoms() -> (r: LayerFeedback)
    ensures
        r.layer is SortAtoms,
        r.findings@.len() == 0,
{
    let mut findings: Vec<AlignmentFinding> = Vec::new();
    let sort = ReferentSort::ReleaseArtifact;
    let edge = EdgeSort::CrossesBoundary;
    let req = RequirementDeclaration::new(
        RequirementId::from_bytes([4u8; 16]),
        RequirementSort::Presence,
        RequirementOperator::Presence(PresenceOperator::Required),
        TypedValue::Bool(true),
    );
    if !matches!(sort, ReferentSort::ReleaseArtifact) || !matches!(edge, EdgeSort::CrossesBoundary)
        || req.is_err() {
        findings.push(
            finding("SortAtoms", "sort atoms failed to produce coherent typed requirement form"),
        );
    }
    LayerFeedback { layer: ConceptLayer::SortAtoms, findings }
}

/// Graph atoms refuse outside-to-outside boundaries and routes, and build a
/// two-sided boundary declaration and a typed edge.
fn evaluate_graph_atoms() -> (r: LayerFeedback)
    ensures
        r.layer is GraphAtoms,
        r.findings@.len() == 0,
{
    let mut findings: Vec<AlignmentFinding> = Vec::new();
    if Boundary::new(BoundaryId::from_bytes([1u8; 16]), BoundaryEnd::Outside, BoundaryEnd::Outside).is_ok() {
        findings.push(
            finding("Boundary", "boundary accepted outside-to-outside and broke separation axiom"),
        );
    }
    if RouteEndpoints::new(BoundaryEnd::Outside, BoundaryEnd::Outside).is_ok() {
        findings.push(
            finding("Side", "route endpoints accepted outside-to-outside and broke side anchoring"),
        );
    }
    let left = ReferentId::from_bytes([10u8; 16]);
    let right = ReferentId::from_bytes([11u8; 16]);
    assert(left.0[0] != right.0[0]);
    let side_a = SideDeclaration { label: SideLabel::A, anchor: left };
    let side_b = SideDeclaration { label: SideLabel::B, anchor: right };
    let boundary_id = BoundaryId::from_bytes([12u8; 16]);
    let surface_a = SurfaceDeclaration {
        id: SurfaceId::from_bytes([13u8; 16]),
        boundary_id,
        facing: SideLabel::A,
    };
    let surface_b = SurfaceDeclaration {
        id: SurfaceId::from_bytes([14u8; 16]),
        boundary_id,
        facing: SideLabel::B,
    };
    if BoundaryDeclaration::new(boundary_id, side_a, side_b, surface_a, surface_b).is_err() {
        findings.push(
            finding(
                "BoundaryDeclaration",
                "graph atoms failed to construct two-sided boundary declaration",
            ),
        );
    }
    if EdgeDeclaration::new(EdgeId::from_bytes([15u8; 16]), EdgeSort::CrossesBoundary, left, right).is_err() {
        findings.push(
            finding("EdgeDeclaration", "graph atoms failed to construct typed edge declaration"),
        );
    }
    LayerFeedback { layer: ConceptLayer::GraphAtoms, findings }
}

fn empty_context() -> (r: EvaluationContextDeclaration)
    ensures
        r.model_version@ == "1.0.0"@,
        r.namespace is None,
        r.boundary is None,
        r.actor_authority is None,
        r.snapshot_at is None,
        r.evidence_source is None,
{
    EvaluationContextDeclaration {
        model_version: version_one(),
        namespace: None,
        boundary: None,
        actor_authority: None,
        snapshot_at: None,
        evidence_source: None,
    }
}

/// Policy atoms bind an actor, a typed scope and a count requirement.
fn evaluate_policy_atoms() -> (r: LayerFeedback)
    ensures
        r.layer is PolicyAtoms,
        r.findings@.len() == 0,
{
    let mut findings: Vec<AlignmentFinding> = Vec::new();
    let scope = TypedScopeDeclaration {
        id: ScopeId::from_bytes([20u8; 16]),
        referent_sort: ReferentSort::ReleaseArtifact,
        context: empty_context(),
        predicate: MembershipPredicateDeclaration::All,
    };
    let requirement = RequirementDeclaration::new(
        RequirementId::from_bytes([21u8; 16]),
        RequirementSort::Count,
        RequirementOperator::Count(CountOperator::Min),
        TypedValue::U64(1),
    );
    let policy = PolicyDeclaration {
        id: PolicyId::from_bytes([22u8; 16]),
        declared_by: ActorId::from_bytes([23u8; 16]),
        scope: scope.id,
        requirement: RequirementId::from_bytes([21u8; 16]),
    };
    if requirement.is_err() || !policy.scope.same(&scope.id) {
        findings.push(
            finding(
                "PolicyAtoms",
                "policy atom form failed to bind actor + typed-scope + requirement",
            ),
        );
    }
    LayerFeedback { layer: ConceptLayer::PolicyAtoms, findings }
}

proof fn lemma_single_is_unique<T: Identified>(s: Seq<T>)
    requires
        s.len() == 1,
    ensures
        duplicate_violations(s) == Seq::<TheoryViolation>::empty(),
{
    assert(s.drop_last() =~= Seq::<T>::empty());
    assert(duplicate_violations(Seq::<T>::empty()) == Seq::<TheoryViolation>::empty());
}

proof fn lemma_pair_is_unique<T: Identified>(s: Seq<T>)
    requires
        s.len() == 2,
        s[0].id_bytes() != s[1].id_bytes(),
    ensures
        duplicate_violations(s) == Seq::<TheoryViolation>::empty(),
{
    lemma_single_is_unique(s.drop_last());
    assert(s.drop_last()[0] == s[0]);
}

proof fn lemma_flat_map_single<T>(s: Seq<T>, f: spec_fn(T) -> Seq<TheoryViolation>)
    requires
        s.len() == 1,
    ensures
        flat_map(s, f) == f(s[0]),
{
    assert(s.drop_last() =~= Seq::<T>::empty());
    assert(flat_map(Seq::<T>::empty(), f) == Seq::<TheoryViolation>::empty());
    assert(flat_map(s, f) =~= f(s[0]));
}

/// A library of the shape the evidence layer builds validates clean: one
/// actor that declared the model; two referents of distinct identifiers, an
/// artifact and an anchor; one well-formed boundary between them; one edge
/// from the anchor to the artifact; one scope listing the artifact; one count
/// requirement; one policy binding them; one source, one observation of the
/// artifact from it, and one evaluation of the policy resting on it.
proof fn lemma_minimal_library_is_clean(lib: CoreTheoryLibrary)
    requires
        lib.actors@.len() == 1,
        lib.model.declared_by == lib.actors@[0].id,
        lib.referents@.len() == 2,
        lib.referents@[0].id.0 != lib.referents@[1].id.0,
        lib.boundaries@.len() == 1,
        lib.boundaries@[0].side_a.label is A,
        lib.boundaries@[0].side_b.label is B,
        lib.boundaries@[0].surface_a.facing is A,
        lib.boundaries@[0].surface_b.facing is B,
        lib.boundaries@[0].surface_a.boundary_id == lib.boundaries@[0].id,
        lib.boundaries@[0].surface_b.boundary_id == lib.boundaries@[0].id,
        lib.boundaries@[0].side_a.anchor == lib.referents@[1].id,
        lib.boundaries@[0].side_b.anchor == lib.referents@[0].id,
        lib.edges@.len() == 1,
        lib.edges@[0].from == lib.referents@[1].id,
        lib.edges@[0].to == lib.referents@[0].id,
        lib.scopes@.len() == 1,
        lib.scopes@[0].referent_sort == lib.referents@[0].sort,
        lib.scopes@[0].context.model_version@ == lib.model.version@,
        lib.scopes@[0].predicate matches MembershipPredicateDeclaration::ReferentIds { ids }
            && ids@ == seq![lib.referents@[0].id],
        lib.requirements@.len() == 1,
        lib.requirements@[0].sort == RequirementSort::Count,
        lib.requirements@[0].operator == RequirementOperator::Count(CountOperator::Min),
        lib.requirements@[0].value == TypedValue::U64(1),
        lib.policies@.len() == 1,
        lib.policies@[0].declared_by == lib.actors@[0].id,
        lib.policies@[0].scope == lib.scopes@[0].id,
        lib.policies@[0].requirement == lib.requirements@[0].id,
        lib.evidence_sources@.len() == 1,
        lib.observations@.len() == 1,
        lib.observations@[0].source == lib.evidence_sources@[0].id,
        lib.observations@[0].observed_referent == Some(lib.referents@[0].id),
        lib.observations@[0].observed_sort == lib.referents@[0].sort,
        lib.evaluations@.len() == 1,
        lib.evaluations@[0].policy == lib.policies@[0].id,
        lib.evaluations@[0].evidence_basis.references@ == seq![lib.observations@[0].id],
    ensures
        core_theory_violations(lib).len() == 0,
{
    assert(empty_set_violations(lib) =~= Seq::<TheoryViolation>::empty());
    lemma_single_is_unique(lib.actors@);
    lemma_pair_is_unique(lib.referents@);
    lemma_single_is_unique(lib.boundaries@);
    lemma_single_is_unique(lib.edges@);
    lemma_single_is_unique(lib.scopes@);
    lemma_single_is_unique(lib.requirements@);
    lemma_single_is_unique(lib.policies@);
    lemma_single_is_unique(lib.evidence_sources@);
    lemma_single_is_unique(lib.observations@);
    lemma_single_is_unique(lib.evaluations@);
    assert(duplicate_section(lib) =~= Seq::<TheoryViolation>::empty());
    assert(lib.actors@[0].id_bytes() == lib.model.declared_by.0);
    assert(holds_payload(lib.actors@, lib.model.declared_by.0));
    assert(model_violations(lib) =~= Seq::<TheoryViolation>::empty());
    assert(lib.referents@[0].id_bytes() == lib.referents@[0].id.0);
    assert(lib.referents@[1].id_bytes() == lib.referents@[1].id.0);
    assert(holds_payload(lib.referents@, lib.referents@[0].id.0));
    assert(holds_payload(lib.referents@, lib.referents@[1].id.0));
    let e = lib.edges@[0];
    assert(edge_violations(lib, e) =~= Seq::<TheoryViolation>::empty());
    lemma_flat_map_single(lib.edges@, |x: EdgeDeclaration| edge_violations(lib, x));
    let b = lib.boundaries@[0];
    assert(b.side_a.anchor != b.side_b.anchor);
    assert(boundary_violations(lib, b) =~= Seq::<TheoryViolation>::empty());
    lemma_flat_map_single(lib.boundaries@, |x: BoundaryDeclaration| boundary_violations(lib, x));
    let sc = lib.scopes@[0];
    let ids = sc.predicate->ids;
    assert(crate::kernel::theory_validation::first_referent(lib.referents@, lib.referents@[0].id)
        == Some(lib.referents@[0]));
    assert(listed_referent_violations(lib, sc, lib.referents@[0].id) =~= Seq::<TheoryViolation>::empty());
    lemma_flat_map_single(ids@, |id: ReferentId| listed_referent_violations(lib, sc, id));
    assert(scope_violations(lib, sc) =~= Seq::<TheoryViolation>::empty());
    lemma_flat_map_single(lib.scopes@, |x: TypedScopeDeclaration| scope_violations(lib, x));
    let q = lib.requirements@[0];
    assert(requirement_violations(lib, q) =~= Seq::<TheoryViolation>::empty());
    lemma_flat_map_single(lib.requirements@, |x: RequirementDeclaration| requirement_violations(lib, x));
    let p = lib.policies@[0];
    assert(lib.scopes@[0].id_bytes() == p.scope.0);
    assert(lib.requirements@[0].id_bytes() == p.requirement.0);
    assert(lib.actors@[0].id_bytes() == p.declared_by.0);
    assert(holds_payload(lib.actors@, p.declared_by.0));
    assert(holds_payload(lib.scopes@, p.scope.0));
    assert(holds_payload(lib.requirements@, p.requirement.0));
    assert(policy_violations(lib, p) =~= Seq::<TheoryViolation>::empty());
    lemma_flat_map_single(lib.policies@, |x: PolicyDeclaration| policy_violations(lib, x));
    let o = lib.observations@[0];
    assert(lib.evidence_sources@[0].id_bytes() == o.source.0);
    assert(holds_payload(lib.evidence_sources@, o.source.0));
    assert(observation_violations(lib, o) =~= Seq::<TheoryViolation>::empty());
    lemma_flat_map_single(lib.observations@, |x: ObservationDeclaration| observation_violations(lib, x));
    let v = lib.evaluations@[0];
    assert(lib.policies@[0].id_bytes() == v.policy.0);
    assert(holds_payload(lib.policies@, v.policy.0));
    assert(lib.observations@[0].id_bytes() == lib.observations@[0].id.0);
    assert(holds_payload(lib.observations@, lib.observations@[0].id.0));
    let g = |id: ObservationId|
        crate::kernel::theory_validation::when(
            !holds_payload(lib.observations@, id.0),
            crate::kernel::theory_validation::TheoryViolationCode::MissingReference,
            crate::kernel::theory_validation::TheorySubject::Evaluation(v.id),
        );
    lemma_flat_map_single(v.evidence_basis.references@, g);
    assert(evaluation_violations(lib, v) =~= Seq::<TheoryViolation>::empty());
    lemma_flat_map_single(lib.evaluations@, |x: EvaluationDeclaration| evaluation_violations(lib, x));
    assert(core_theory_violations(lib) =~= Seq::<TheoryViolation>::empty());
}

/// Evidence atoms: an observation of a source backs an evaluation, and a
/// minimal coherent theory library around them validates clean, so the
/// layer reports nothing.
fn evaluate_evidence_atoms() -> (r: LayerFeedback)
    ensures
        r.layer is EvidenceAtoms,
        r.findings@.len() == 0,
{
    let mut findings: Vec<AlignmentFinding> = Vec::new();
    let source_id = EvidenceSourceId::from_bytes([30u8; 16]);
    let source = EvidenceSourceDeclaration {
        id: source_id,
        source_type: NonEmptyString::new_unchecked("scanner"),
        mapper: NonEmptyString::new_unchecked("mapper-v1"),
        trust_assumption: NonEmptyString::new_unchecked("signed feed"),
    };
    let observation = ObservationDeclaration {
        id: ObservationId::from_bytes([31u8; 16]),
        source: source.id,
        observed_referent: Some(ReferentId::from_bytes([32u8; 16])),
        observed_sort: ReferentSort::ReleaseArtifact,
        at: new_year(),
        claim: TypedValue::Bool(true),
    };
    let basis = match EvidenceBasis::from_references(NonEmptyVec::from_item(observation.id)) {
        Ok(b) => b,
        Err(_) => {
            proof {
                assert(crate::kernel::theory::distinct_observations(seq![observation.id]));
            }
            return LayerFeedback { layer: ConceptLayer::EvidenceAtoms, findings };
        },
    };
    let evaluation = EvaluationDeclaration {
        id: EvaluationId::from_bytes([33u8; 16]),
        policy: PolicyId::from_bytes([22u8; 16]),
        evidence_basis: basis,
        result: EvaluationResult::Unknown,
    };
    let artifact = ReferentId::from_bytes([32u8; 16]);
    let anchor = ReferentId::from_bytes([37u8; 16]);
    assert(artifact.0[0] != anchor.0[0]);
    let boundary = BoundaryDeclaration::new(
        BoundaryId::from_bytes([38u8; 16]),
        SideDeclaration { label: SideLabel::A, anchor },
        SideDeclaration { label: SideLabel::B, anchor: artifact },
        SurfaceDeclaration {
            id: SurfaceId::from_bytes([39u8; 16]),
            boundary_id: BoundaryId::from_bytes([38u8; 16]),
            facing: SideLabel::A,
        },
        SurfaceDeclaration {
            id: SurfaceId::from_bytes([40u8; 16]),
            boundary_id: BoundaryId::from_bytes([38u8; 16]),
            facing: SideLabel::B,
        },
    );
    let edge = EdgeDeclaration::new(
        EdgeId::from_bytes([41u8; 16]),
        EdgeSort::CrossesBoundary,
        anchor,
        artifact,
    );
    let requirement = RequirementDeclaration::new(
        RequirementId::from_bytes([21u8; 16]),
        RequirementSort::Count,
        RequirementOperator::Count(CountOperator::Min),
        TypedValue::U64(1),
    );
    let (boundary, edge, requirement) = match (boundary, edge, requirement) {
        (Ok(b), Ok(e), Ok(q)) => (b, e, q),
        _ => {
            return LayerFeedback { layer: ConceptLayer::EvidenceAtoms, findings };
        },
    };
    let library = CoreTheoryLibrary {
        model: ModelDeclaration {
            id: ModelId::from_bytes([35u8; 16]),
            version: version_one(),
            declared_at: new_year(),
            declared_by: ActorId::from_bytes([36u8; 16]),
        },
        actors: vec![ActorDeclaration { id: ActorId::from_bytes([36u8; 16]), role: ActorRole::System }],
        referents: vec![
            ReferentDeclaration {
                id: ReferentId::from_bytes([32u8; 16]),
                sort: ReferentSort::ReleaseArtifact,
            },
            ReferentDeclaration { id: ReferentId::from_bytes([37u8; 16]), sort: ReferentSort::Boundary },
        ],
        boundaries: vec![boundary],
        edges: vec![edge],
        scopes: vec![
            TypedScopeDeclaration {
                id: ScopeId::from_bytes([20u8; 16]),
                referent_sort: ReferentSort::ReleaseArtifact,
                context: empty_context(),
                predicate: MembershipPredicateDeclaration::ReferentIds {
                    ids: NonEmptyVec::from_item(ReferentId::from_bytes([32u8; 16])),
                },
            },
        ],
        requirements: vec![requirement],
        policies: vec![
            PolicyDeclaration {
                id: PolicyId::from_bytes([22u8; 16]),
                declared_by: ActorId::from_bytes([36u8; 16]),
                scope: ScopeId::from_bytes([20u8; 16]),
                requirement: RequirementId::from_bytes([21u8; 16]),
            },
        ],
        evidence_sources: vec![source],
        observations: vec![observation],
        evaluations: vec![evaluation],
    };
    proof {
        lemma_minimal_library_is_clean(library);
    }
    let violations = validate_core_theory_library(&library);
    if violations.len() != 0 {
        findings.push(
            finding(
                "TheoryValidation",
                "minimal theory library failed deterministic reference validation",
            ),
        );
    }
    LayerFeedback { layer: ConceptLayer::EvidenceAtoms, findings }
}

/// The report of the concept loop: all six layers, in order from primitive
/// datatypes to evidence atoms, each without findings, and no halt.
pub open spec fn concept_report(r: ConceptFeedbackLoopReport) -> bool {
    &&& r.layers@.len() == 6
    &&& r.layers@[0].layer is PrimitiveDatatypes
    &&& r.layers@[1].layer is IdentityAtoms
    &&& r.layers@[2].layer is SortAtoms
    &&& r.layers@[3].layer is GraphAtoms
    &&& r.layers@[4].layer is PolicyAtoms
    &&& r.layers@[5].layer is EvidenceAtoms
    &&& forall|i: int| 0 <= i < 6 ==> (#[trigger] r.layers@[i]).findings@.len() == 0
    &&& r.halted_at is None
}

/// Runs the gated concept loop over core atoms, from primitive datatypes
/// upward, advancing only while the current layer is error-free.
pub fn run_core_concept_feedback_loop() -> (r: ConceptFeedbackLoopReport)
    ensures
        concept_report(r),
{
    let mut layers: Vec<LayerFeedback> = Vec::new();
    let first = evaluate_primitive_datatypes();
    let second = evaluate_identity_atoms();
    let third = evaluate_sort_atoms();
    let fourth = evaluate_graph_atoms();
    let fifth = evaluate_policy_atoms();
    assert(layer_passes(first) && layer_passes(second) && layer_passes(third) && layer_passes(fourth)
        && layer_passes(fifth));
    layers.push(first);
    layers.push(second);
    layers.push(third);
    layers.push(fourth);
    layers.push(fifth);
    let evidence = evaluate_evidence_atoms();
    let passed = evidence.passed();
    layers.push(evidence);
    let halted_at = if passed {
        None
    } else {
        Some(ConceptLayer::EvidenceAtoms)
    };
    let r = ConceptFeedbackLoopReport { layers, halted_at };
    assert(concept_report(r));
    r
}

} // verus!
