//! Deterministic concretisation of a security declaration into the canonical
//! theory graph, as a strict fail-fast loop of stages.
use vstd::prelude::*;

use crate::kernel::duplicate::Duplicate;

use crate::canon::ordering::{
    keyed_by, keys_distinct, lemma_distinct_keys_rearranged, lemma_keyed_by_insert,
    lemma_keyed_by_take, lemma_ranked_rearrangement_unique, lemma_sorted_rearrangement_unique,
    lemma_sorted_rearrangements_agree, sort_by_text_key, sorted_by_key, text_key_of,
    with_text_key, TextKeyed,
};
use crate::declare::declaration::{
    BoundaryDeclaration, BoundaryEndRef, LayerRequirement, RouteDeclaration,
    RoutePolicyDeclaration, ScopeDeclaration, SecurityDeclaration, ZoneDeclaration,
};
use crate::declare::name::DeclarationName;
use crate::kernel::enums::LayerMechanism;
use crate::declare::validation::{
    boundary_violations, declaration_violations, lemma_flat_map_empty, named_in, policy_violations,
    route_violations, scope_violations, validate_security_declaration, DeclarationViolation, Named,
};
use crate::declare::scope::ScopeTarget;
use crate::kernel::id::{
    ActorId, BoundaryId, EdgeId, ModelId, PolicyId, ReferentId, RequirementId, ScopeId, SurfaceId,
};
use crate::kernel::scalars::{NonEmptyString, NonEmptyVec, SemVer, UtcTimestamp};
use crate::kernel::theory::{
    ActorDeclaration, ActorRole, BoundaryDeclaration as TheoryBoundaryDeclaration, EdgeDeclaration,
    EdgeSort, EvaluationContextDeclaration, MembershipPredicateDeclaration, ModelDeclaration,
    PolicyDeclaration, ReferentDeclaration, ReferentSort, RelationOperator, RequirementDeclaration,
    RequirementOperator, RequirementSort, SideDeclaration, SideLabel, SurfaceDeclaration,
    TypedScopeDeclaration, TypedValue,
};
use crate::kernel::theory_validation::{
    core_theory_violations, validate_core_theory_library, CoreTheoryLibrary, TheoryViolation,
};
use crate::text::{owned, push_str, seq_lt, str_eq};
use vstd::string::StringSliceAdditionalSpecFns;
use vstd::utf8::encode_utf8;

verus! {

broadcast use vstd::seq_lib::group_to_multiset_ensures;

/// Ordered deterministic concretisation pipeline stage.
#[derive(Debug, Copy, Clone, PartialEq, Eq, PartialOrd, Ord, Hash, Structural)]
pub enum ConcretisationStage {
    ValidateDeclaration,
    NormalizeDeclaration,
    DeriveCanonicalPaths,
    DeriveDeterministicIds,
    BuildCanonicalTheoryGraph,
    ValidateCanonicalTheoryGraph,
}

/// The stable key of each stage.
pub open spec fn stage_key_text(stage: ConcretisationStage) -> Seq<char> {
    match stage {
        ConcretisationStage::ValidateDeclaration => "validate_declaration"@,
        ConcretisationStage::NormalizeDeclaration => "normalize_declaration"@,
        ConcretisationStage::DeriveCanonicalPaths => "derive_canonical_paths"@,
        ConcretisationStage::DeriveDeterministicIds => "derive_deterministic_ids"@,
        ConcretisationStage::BuildCanonicalTheoryGraph => "build_canonical_theory_graph"@,
        ConcretisationStage::ValidateCanonicalTheoryGraph => "validate_canonical_theory_graph"@,
    }
}

impl ConcretisationStage {
    /// Stable stage key for progress reporting.
    pub fn stage_key(self) -> (r: &'static str)
        ensures
            r@ == stage_key_text(self),
    {
        match self {
            ConcretisationStage::ValidateDeclaration => "validate_declaration",
            ConcretisationStage::NormalizeDeclaration => "normalize_declaration",
            ConcretisationStage::DeriveCanonicalPaths => "derive_canonical_paths",
            ConcretisationStage::DeriveDeterministicIds => "derive_deterministic_ids",
            ConcretisationStage::BuildCanonicalTheoryGraph => "build_canonical_theory_graph",
            ConcretisationStage::ValidateCanonicalTheoryGraph => "validate_canonical_theory_graph",
        }
    }
}

/// Failure reason for a concretisation stage.
#[derive(Debug, Clone, PartialEq, Eq, Hash)]
pub enum ConcretisationFailure {
    DeclarationViolations(Vec<DeclarationViolation>),
    CanonicalPathContractViolations(Vec<CanonicalPathContractViolation>),
    SchemaVersionDomainViolation { value: String },
    DeterministicIdCollisions(Vec<DeterministicIdCollision>),
    MissingTraceEntries(Vec<TraceEntryViolation>),
    TheoryViolations(Vec<TheoryViolation>),
}

/// Canonical path contract violation detail.
#[derive(Debug, Clone, PartialEq, Eq, Hash)]
pub struct CanonicalPathContractViolation {
    pub namespace: String,
    pub path: String,
    pub reason: String,
}

/// Deterministic-id collision detail.
#[derive(Debug, Clone, PartialEq, Eq, Hash)]
pub struct DeterministicIdCollision {
    pub kind: DeterministicIdKind,
    pub first_path: String,
    pub second_path: String,
}

/// Canonical trace-map contract violation detail.
#[derive(Debug, Clone, PartialEq, Eq, Hash)]
pub struct TraceEntryViolation {
    pub namespace: String,
    pub declaration_name: String,
    pub reason: String,
}

/// One concretisation stage result.
#[derive(Debug, Clone, Copy, PartialEq, Eq, Hash, Structural)]
pub struct ConcretisationStageResult {
    pub stage: ConcretisationStage,
    pub passed: bool,
}

/// Full concretisation report with strict fail-fast stage gating.
#[derive(Debug, Clone, PartialEq, Eq, Hash)]
pub struct ConcretisationReport {
    pub stages: Vec<ConcretisationStageResult>,
    pub halted_at: Option<ConcretisationStage>,
    pub failure: Option<ConcretisationFailure>,
    pub canonical_model: Option<CanonicalModel>,
}

/// Compact deterministic progress score for concretisation loops.
#[derive(Debug, Copy, Clone, PartialEq, Eq, Hash)]
pub struct ConcretisationProgressScore {
    /// Number of stages that completed successfully.
    pub passed_stages: usize,
    /// Number of stages that were evaluated.
    pub total_stages: usize,
    /// Integer completion ratio in percent.
    pub completion_ratio: u8,
    /// First failed stage key, when any stage failed.
    pub first_failed_stage: Option<&'static str>,
}

/// Length of the run of passed stages at the front.
pub open spec fn passed_prefix(stages: Seq<ConcretisationStageResult>) -> nat
    decreases stages.len(),
{
    if stages.len() == 0 || !stages[0].passed {
        0
    } else {
        1 + passed_prefix(stages.drop_first())
    }
}

impl ConcretisationReport {
    /// Returns true when every stage passed.
    pub fn passed(&self) -> (r: bool)
        ensures
            r == (self.halted_at is None),
    {
        self.halted_at.is_none()
    }

    /// Computes a compact score: the run of passed stages at the front, the
    /// number of stages, the integer percentage of the two, and the key of
    /// the first failed stage.
    pub fn progress_score(&self) -> (r: ConcretisationProgressScore)
        ensures
            r.total_stages == self.stages@.len(),
            r.passed_stages == passed_prefix(self.stages@),
            r.completion_ratio == (if self.stages@.len() == 0 {
                0
            } else {
                passed_prefix(self.stages@) * 100 / self.stages@.len()
            }),
            r.passed_stages < self.stages@.len() ==> (r.first_failed_stage matches Some(k) && k@
                == stage_key_text(self.stages@[r.passed_stages as int].stage)),
            r.passed_stages == self.stages@.len() ==> r.first_failed_stage is None,
    {
        let total_stages = self.stages.len();
        let mut passed_stages: usize = 0;
        assert(self.stages@.skip(0) =~= self.stages@);
        while passed_stages < total_stages && self.stages[passed_stages].passed
            invariant
                passed_stages <= total_stages == self.stages@.len(),
                passed_prefix(self.stages@) == passed_stages + passed_prefix(
                    self.stages@.skip(passed_stages as int),
                ),
            decreases total_stages - passed_stages,
        {
            assert(self.stages@.skip(passed_stages as int).drop_first() =~= self.stages@.skip(
                passed_stages + 1,
            ));
            passed_stages = passed_stages + 1;
        }
        proof {
            if passed_stages < total_stages {
                assert(self.stages@.skip(passed_stages as int)[0] == self.stages@[passed_stages as int]);
            }
        }
        let completion_ratio: u8 = if total_stages == 0 {
            0
        } else {
            let p: u128 = passed_stages as u128;
            let t: u128 = total_stages as u128;
            assert((p * 100) / (t as int) <= 100) by (nonlinear_arith)
                requires
                    p <= t,
                    t > 0,
            ;
            ((p * 100) / t) as u8
        };
        let first_failed_stage = if passed_stages < total_stages {
            Some(self.stages[passed_stages].stage.stage_key())
        } else {
            None
        };
        ConcretisationProgressScore {
            passed_stages,
            total_stages,
            completion_ratio,
            first_failed_stage,
        }
    }
}

/// Deterministic domain-separated id kinds.
#[derive(Debug, Copy, Clone, PartialEq, Eq, PartialOrd, Ord, Hash, Structural)]
pub enum DeterministicIdKind {
    Model,
    Actor,
    Referent,
    Boundary,
    Surface,
    Edge,
    Scope,
    Requirement,
    Policy,
}

/// The domain label of each kind.
pub open spec fn kind_text(kind: DeterministicIdKind) -> Seq<char> {
    match kind {
        DeterministicIdKind::Model => "model"@,
        DeterministicIdKind::Actor => "actor"@,
        DeterministicIdKind::Referent => "referent"@,
        DeterministicIdKind::Boundary => "boundary"@,
        DeterministicIdKind::Surface => "surface"@,
        DeterministicIdKind::Edge => "edge"@,
        DeterministicIdKind::Scope => "scope"@,
        DeterministicIdKind::Requirement => "requirement"@,
        DeterministicIdKind::Policy => "policy"@,
    }
}

impl DeterministicIdKind {
    pub fn as_str(self) -> (r: &'static str)
        ensures
            r@ == kind_text(self),
    {
        match self {
            DeterministicIdKind::Model => "model",
            DeterministicIdKind::Actor => "actor",
            DeterministicIdKind::Referent => "referent",
            DeterministicIdKind::Boundary => "boundary",
            DeterministicIdKind::Surface => "surface",
            DeterministicIdKind::Edge => "edge",
            DeterministicIdKind::Scope => "scope",
            DeterministicIdKind::Requirement => "requirement",
            DeterministicIdKind::Policy => "policy",
        }
    }
}

/// What `sha2::Sha256::digest` gives for these bytes.
pub uninterp spec fn sha256_digest(data: Seq<u8>) -> Seq<u8>;

/// `sha2::Sha256::digest`: the SHA-256 digest of the bytes. Its value is named
/// (`sha256_digest`), a function of the bytes alone; the contract adds that a
/// SHA-256 digest is thirty-two bytes long, which the crate's output size
/// fixes.
#[verifier::external_body]
fn sha256(data: &[u8]) -> (r: Vec<u8>)
    ensures
        r@ == sha256_digest(data@),
        r@.len() == 32,
{
    <sha2::Sha256 as sha2::Digest>::digest(data).to_vec()
}

/// The text a deterministic id is derived from:
/// `jw-guard:{kind}:{schema version}:{canonical path}`.
pub open spec fn id_input(kind: DeterministicIdKind, schema: Seq<char>, path: Seq<char>) -> Seq<
    char,
> {
    "jw-guard:"@ + kind_text(kind) + ":"@ + schema + ":"@ + path
}

/// The first sixteen bytes of the SHA-256 digest of the UTF-8 encoded input.
pub open spec fn derived_id(kind: DeterministicIdKind, schema: Seq<char>, path: Seq<char>) -> Seq<u8> {
    sha256_digest(encode_utf8(id_input(kind, schema, path))).take(16)
}

/// Derives deterministic 128-bit ids from schema version and canonical path.
pub fn derive_deterministic_id(
    kind: DeterministicIdKind,
    schema_version: &SemVer,
    canonical_path: &str,
) -> (r: [u8; 16])
    ensures
        r@ == derived_id(kind, schema_version@, canonical_path@),
{
    let mut input = owned("jw-guard:");
    push_str(&mut input, kind.as_str());
    push_str(&mut input, ":");
    push_str(&mut input, schema_version.as_str());
    push_str(&mut input, ":");
    push_str(&mut input, canonical_path);
    assert(input@ == id_input(kind, schema_version@, canonical_path@));
    let digest = sha256(input.as_str().as_bytes());
    let mut out = [0u8; 16];
    let mut i: usize = 0;
    while i < 16
        invariant
            i <= 16,
            digest@.len() == 32,
            forall|k: int| 0 <= k < i ==> out@[k] == digest@[k],
        decreases 16 - i,
    {
        out.set(i, digest[i]);
        i = i + 1;
    }
    assert(out@ =~= digest@.take(16));
    out
}

/// Normalized declaration form used as canonicalization input.
#[derive(Debug, Clone, PartialEq, Eq, Hash)]
pub struct NormalizedSecurityDeclaration {
    pub declaration_version: SemVer,
    pub zones: Vec<ZoneDeclaration>,
    pub boundaries: Vec<BoundaryDeclaration>,
    pub scopes: Vec<ScopeDeclaration>,
    pub routes: Vec<RouteDeclaration>,
    pub route_policies: Vec<RoutePolicyDeclaration>,
}

/// Canonical path references for declaration objects.
#[derive(Debug, Clone, PartialEq, Eq, Hash)]
pub struct CanonicalPaths {
    pub model: String,
    pub actor_system: String,
    pub zones: Vec<(DeclarationName, String)>,
    pub boundaries: Vec<(DeclarationName, String)>,
    pub scopes: Vec<(DeclarationName, String)>,
    pub routes: Vec<(DeclarationName, String)>,
    pub policies: Vec<(DeclarationName, String)>,
    pub requirements: Vec<(DeclarationName, String)>,
    pub policy_scopes: Vec<(DeclarationName, String)>,
}

/// Deterministically-built canonical model.
#[derive(Debug, Clone, PartialEq, Eq, Hash)]
pub struct CanonicalModel {
    pub normalized: NormalizedSecurityDeclaration,
    pub paths: CanonicalPaths,
    pub trace: CanonicalTraceMap,
    pub theory: CoreTheoryLibrary,
}

/// Deterministic trace entry from declaration name to canonical object.
#[derive(Debug, Clone, PartialEq, Eq, Hash)]
pub struct CanonicalTraceEntry {
    pub canonical_path: String,
    pub deterministic_id: [u8; 16],
}

/// Deterministic declaration-to-canonical trace map.
#[derive(Debug, Clone, PartialEq, Eq, Hash)]
pub struct CanonicalTraceMap {
    pub model: CanonicalTraceEntry,
    pub zones: Vec<(DeclarationName, CanonicalTraceEntry)>,
    pub boundaries: Vec<(DeclarationName, CanonicalTraceEntry)>,
    pub routes: Vec<(DeclarationName, CanonicalTraceEntry)>,
    pub scopes: Vec<(DeclarationName, CanonicalTraceEntry)>,
    pub policies: Vec<(DeclarationName, CanonicalTraceEntry)>,
    pub requirements: Vec<(DeclarationName, CanonicalTraceEntry)>,
}

impl TextKeyed for ZoneDeclaration {
    open spec fn text_key(&self) -> Seq<char> {
        self.name@
    }

    fn key_precedes(&self, other: &Self) -> (r: bool) {
        self.name.precedes(&other.name)
    }
}

impl TextKeyed for BoundaryDeclaration {
    open spec fn text_key(&self) -> Seq<char> {
        self.name@
    }

    fn key_precedes(&self, other: &Self) -> (r: bool) {
        self.name.precedes(&other.name)
    }
}

impl TextKeyed for ScopeDeclaration {
    open spec fn text_key(&self) -> Seq<char> {
        self.name@
    }

    fn key_precedes(&self, other: &Self) -> (r: bool) {
        self.name.precedes(&other.name)
    }
}

impl TextKeyed for RouteDeclaration {
    open spec fn text_key(&self) -> Seq<char> {
        self.name@
    }

    fn key_precedes(&self, other: &Self) -> (r: bool) {
        self.name.precedes(&other.name)
    }
}

impl TextKeyed for RoutePolicyDeclaration {
    open spec fn text_key(&self) -> Seq<char> {
        self.name@
    }

    fn key_precedes(&self, other: &Self) -> (r: bool) {
        self.name.precedes(&other.name)
    }
}

/// Layer requirements in mechanism order.
pub open spec fn layers_sorted(s: Seq<LayerRequirement>) -> bool {
    forall|i: int, j: int| 0 <= i < j < s.len() ==> s[i].mechanism.rank() <= s[j].mechanism.rank()
}

/// The mechanism a layer requirement is ordered by.
pub open spec fn mechanism_key() -> spec_fn(LayerRequirement) -> LayerMechanism {
    |l: LayerRequirement| l.mechanism
}

/// Sorts layer requirements by mechanism, keeping the input order among
/// requirements on the same mechanism.
pub fn sort_layers(v: &mut Vec<LayerRequirement>)
    ensures
        layers_sorted(final(v)@),
        final(v)@.to_multiset() == old(v)@.to_multiset(),
        final(v)@.len() == old(v)@.len(),
        forall|m: LayerMechanism|
            #[trigger] keyed_by(final(v)@, mechanism_key(), m) == keyed_by(old(v)@, mechanism_key(), m),
{
    let ghost original = v@;
    let ghost mut taken: int = 0;
    let mut out: Vec<LayerRequirement> = Vec::new();
    proof {
        assert(original.take(0) =~= Seq::<LayerRequirement>::empty());
        assert(v@ =~= original.skip(0));
    }
    while v.len() > 0
        invariant
            layers_sorted(out@),
            out@.to_multiset().add(v@.to_multiset()) == original.to_multiset(),
            out@.len() + v@.len() == original.len(),
            0 <= taken <= original.len(),
            v@ == original.skip(taken),
            forall|m: LayerMechanism|
                #[trigger] keyed_by(out@, mechanism_key(), m) == keyed_by(
                    original.take(taken),
                    mechanism_key(),
                    m,
                ),
        decreases v@.len(),
    {
        let ghost before_v = v@;
        let ghost before_out = out@;
        let x = v.remove(0);
        let key = x.mechanism.position();
        let mut j: usize = 0;
        while j < out.len() && out[j].mechanism.position() <= key
            invariant
                j <= out@.len(),
                out@ == before_out,
                layers_sorted(out@),
                forall|k: int| 0 <= k < j ==> #[trigger] out@[k].mechanism.rank() <= key,
            decreases out@.len() - j,
        {
            j = j + 1;
        }
        proof {
            assert forall|m: int| j <= m < before_out.len() implies (mechanism_key())(
                #[trigger] before_out[m],
            ) != (mechanism_key())(x) by {
                assert(before_out[j as int].mechanism.rank() > key);
                assert(before_out[j as int].mechanism.rank() <= before_out[m].mechanism.rank());
            }
            assert forall|m: LayerMechanism|
                #[trigger] keyed_by(before_out.insert(j as int, x), mechanism_key(), m) == keyed_by(
                    before_out,
                    mechanism_key(),
                    m,
                ) + if (mechanism_key())(x) == m {
                    seq![x]
                } else {
                    Seq::<LayerRequirement>::empty()
                } by {
                lemma_keyed_by_insert(before_out, j as int, x, mechanism_key(), m);
            }
        }
        out.insert(j, x);
        proof {
            assert(before_v.remove(0) == v@);
            assert(out@ == before_out.insert(j as int, x));
            assert(before_v.to_multiset() == v@.to_multiset().insert(x)) by {
                assert(before_v.remove(0).to_multiset() == before_v.to_multiset().remove(
                    before_v[0],
                ));
                assert(before_v.to_multiset().count(x) > 0);
            }
            assert(out@.to_multiset().add(v@.to_multiset()) =~= original.to_multiset());
            assert forall|a: int, b: int| 0 <= a < b < out@.len() implies out@[a].mechanism.rank()
                <= out@[b].mechanism.rank() by {
                if a < j && b == j {
                } else if a == j && b > j {
                    assert(out@[b] == before_out[b - 1]);
                    if j < before_out.len() {
                        assert(before_out[j as int].mechanism.rank() > key);
                        assert(before_out[j as int].mechanism.rank() <= before_out[b - 1].mechanism.rank());
                    }
                } else if a < j && b > j {
                    assert(out@[b] == before_out[b - 1]);
                } else if a > j {
                    assert(out@[a] == before_out[a - 1]);
                    assert(out@[b] == before_out[b - 1]);
                }
            }
            assert(x == original[taken]);
            assert forall|m: LayerMechanism|
                #[trigger] keyed_by(original.take(taken + 1), mechanism_key(), m) == keyed_by(
                    original.take(taken),
                    mechanism_key(),
                    m,
                ) + if (mechanism_key())(x) == m {
                    seq![x]
                } else {
                    Seq::<LayerRequirement>::empty()
                } by {
                lemma_keyed_by_take(original, taken, mechanism_key(), m);
            }
            assert(v@ =~= original.skip(taken + 1));
            taken = taken + 1;
        }
    }
    assert(v@.to_multiset() =~= vstd::multiset::Multiset::<LayerRequirement>::empty());
    proof {
        assert(original.take(taken) =~= original);
    }
    *v = out;
}

/// A boundary whose layer requirements are sorted copies of the original's.
pub open spec fn relayered(normal: BoundaryDeclaration, original: BoundaryDeclaration) -> bool {
    &&& normal.name == original.name
    &&& normal.side_a == original.side_a
    &&& normal.side_b == original.side_b
    &&& layers_sorted(normal.layer_requirements@)
    &&& normal.layer_requirements@.to_multiset() == original.layer_requirements@.to_multiset()
    &&& forall|m: LayerMechanism|
        #[trigger] keyed_by(normal.layer_requirements@, mechanism_key(), m) == keyed_by(
            original.layer_requirements@,
            mechanism_key(),
            m,
        )
}

/// The normal form of a declaration: every collection ordered by name (a
/// permutation of the input in which entries of one name keep their input
/// order), each boundary's layer requirements ordered by mechanism in the
/// same way.
pub open spec fn is_normal_form(n: NormalizedSecurityDeclaration, d: SecurityDeclaration) -> bool {
    &&& n.declaration_version == d.declaration_version
    &&& sorted_by_key(n.zones@) && n.zones@.to_multiset() == d.zones@.to_multiset()
    &&& sorted_by_key(n.scopes@) && n.scopes@.to_multiset() == d.scopes@.to_multiset()
    &&& sorted_by_key(n.routes@) && n.routes@.to_multiset() == d.routes@.to_multiset()
    &&& sorted_by_key(n.route_policies@) && n.route_policies@.to_multiset()
        == d.route_policies@.to_multiset()
    &&& forall|k: Seq<char>| #[trigger] with_text_key(n.zones@, k) == with_text_key(d.zones@, k)
    &&& forall|k: Seq<char>| #[trigger] with_text_key(n.scopes@, k) == with_text_key(d.scopes@, k)
    &&& forall|k: Seq<char>| #[trigger] with_text_key(n.routes@, k) == with_text_key(d.routes@, k)
    &&& forall|k: Seq<char>|
        #[trigger] with_text_key(n.route_policies@, k) == with_text_key(d.route_policies@, k)
    &&& sorted_by_key(n.boundaries@)
    &&& exists|fixed: Seq<BoundaryDeclaration>|
        #![trigger fixed.to_multiset()]
        fixed.len() == d.boundaries@.len() && (forall|i: int|
            0 <= i < fixed.len() ==> relayered(#[trigger] fixed[i], d.boundaries@[i]))
            && n.boundaries@.to_multiset() == fixed.to_multiset() && (forall|k: Seq<char>|
            #[trigger] with_text_key(n.boundaries@, k) == with_text_key(fixed, k))
}

/// A boundary by the values it holds.
pub open spec fn boundary_view(b: BoundaryDeclaration) -> (
    DeclarationName,
    BoundaryEndRef,
    BoundaryEndRef,
    Seq<LayerRequirement>,
) {
    (b.name, b.side_a, b.side_b, b.layer_requirements@)
}

/// The boundaries by the values they hold.
pub open spec fn boundary_views(s: Seq<BoundaryDeclaration>) -> Seq<
    (DeclarationName, BoundaryEndRef, BoundaryEndRef, Seq<LayerRequirement>),
> {
    s.map_values(|b: BoundaryDeclaration| boundary_view(b))
}

/// `d2` holds the entries of `d1`, each collection perhaps in another order,
/// under the same version.
pub open spec fn rearranges(d1: SecurityDeclaration, d2: SecurityDeclaration) -> bool {
    &&& d1.declaration_version == d2.declaration_version
    &&& d1.zones@.to_multiset() == d2.zones@.to_multiset()
    &&& d1.boundaries@.to_multiset() == d2.boundaries@.to_multiset()
    &&& d1.scopes@.to_multiset() == d2.scopes@.to_multiset()
    &&& d1.routes@.to_multiset() == d2.routes@.to_multiset()
    &&& d1.route_policies@.to_multiset() == d2.route_policies@.to_multiset()
}

/// Names are distinct within each collection, and mechanisms within each
/// boundary's layer requirements.
pub open spec fn names_unique(d: SecurityDeclaration) -> bool {
    &&& keys_distinct(d.zones@)
    &&& keys_distinct(d.boundaries@)
    &&& keys_distinct(d.scopes@)
    &&& keys_distinct(d.routes@)
    &&& keys_distinct(d.route_policies@)
    &&& forall|i: int|
        0 <= i < d.boundaries@.len() ==> (#[trigger] d.boundaries@[i]).layer_requirements@.map_values(
            mechanism_key(),
        ).no_duplicates()
}

/// Two normal forms hold the same values in the same order.
pub open spec fn same_normal_form(
    n1: NormalizedSecurityDeclaration,
    n2: NormalizedSecurityDeclaration,
) -> bool {
    &&& n1.declaration_version == n2.declaration_version
    &&& n1.zones@ == n2.zones@
    &&& n1.scopes@ == n2.scopes@
    &&& n1.routes@ == n2.routes@
    &&& n1.route_policies@ == n2.route_policies@
    &&& boundary_views(n1.boundaries@) == boundary_views(n2.boundaries@)
}

/// Layer requirements in mechanism order that rearrange a boundary's own.
pub open spec fn sorted_layers_of(b: BoundaryDeclaration) -> Seq<LayerRequirement> {
    choose|s: Seq<LayerRequirement>|
        layers_sorted(s) && s.to_multiset() == b.layer_requirements@.to_multiset()
}

/// The values a boundary holds once its layer requirements are in order.
pub open spec fn relayered_view(b: BoundaryDeclaration) -> (
    DeclarationName,
    BoundaryEndRef,
    BoundaryEndRef,
    Seq<LayerRequirement>,
) {
    (b.name, b.side_a, b.side_b, sorted_layers_of(b))
}

/// The rank a layer requirement is ordered by, as a function.
pub open spec fn rank_key() -> spec_fn(LayerRequirement) -> int {
    |l: LayerRequirement| l.mechanism.rank() as int
}

proof fn lemma_rank_injective(a: LayerMechanism, b: LayerMechanism)
    requires
        a.rank() == b.rank(),
    ensures
        a == b,
{
}

proof fn lemma_distinct_ranks(s: Seq<LayerRequirement>)
    requires
        s.map_values(mechanism_key()).no_duplicates(),
    ensures
        s.map_values(rank_key()).no_duplicates(),
{
    assert forall|i: int, j: int|
        0 <= i < s.len() && 0 <= j < s.len() && i != j implies s.map_values(rank_key())[i]
        != s.map_values(rank_key())[j] by {
        if s[i].mechanism.rank() == s[j].mechanism.rank() {
            lemma_rank_injective(s[i].mechanism, s[j].mechanism);
            assert(s.map_values(mechanism_key())[i] == s.map_values(mechanism_key())[j]);
        }
    }
}

/// With distinct mechanisms, the boundary's requirements in mechanism order
/// are determined by the boundary.
proof fn lemma_relayered_view(a: BoundaryDeclaration, b: BoundaryDeclaration)
    requires
        relayered(a, b),
        b.layer_requirements@.map_values(mechanism_key()).no_duplicates(),
    ensures
        boundary_view(a) == relayered_view(b),
{
    let s = a.layer_requirements@;
    assert(layers_sorted(s) && s.to_multiset() == b.layer_requirements@.to_multiset());
    let t = sorted_layers_of(b);
    assert(layers_sorted(t) && t.to_multiset() == b.layer_requirements@.to_multiset());
    lemma_distinct_ranks(b.layer_requirements@);
    lemma_distinct_keys_rearranged(s, b.layer_requirements@, rank_key());
    lemma_ranked_rearrangement_unique(s, t, rank_key());
}

/// A boundary list whose entries are relayered copies of `d`'s.
proof fn lemma_relayered_list(fixed: Seq<BoundaryDeclaration>, d: Seq<BoundaryDeclaration>)
    requires
        fixed.len() == d.len(),
        forall|i: int| 0 <= i < fixed.len() ==> relayered(#[trigger] fixed[i], d[i]),
        forall|i: int|
            0 <= i < d.len() ==> (#[trigger] d[i]).layer_requirements@.map_values(
                mechanism_key(),
            ).no_duplicates(),
    ensures
        boundary_views(fixed) == d.map_values(|b: BoundaryDeclaration| relayered_view(b)),
        fixed.map_values(text_key_of::<BoundaryDeclaration>()) == d.map_values(
            text_key_of::<BoundaryDeclaration>(),
        ),
{
    assert forall|i: int| 0 <= i < fixed.len() implies boundary_views(fixed)[i] == d.map_values(
        |b: BoundaryDeclaration| relayered_view(b),
    )[i] by {
        lemma_relayered_view(fixed[i], d[i]);
    }
    assert(boundary_views(fixed) =~= d.map_values(|b: BoundaryDeclaration| relayered_view(b)));
    assert(fixed.map_values(text_key_of::<BoundaryDeclaration>()) =~= d.map_values(
        text_key_of::<BoundaryDeclaration>(),
    ));
}

/// Normalization does not depend on the order of the collections: two
/// declarations that hold the same entries under the same version, with
/// names distinct in each collection and mechanisms distinct in each
/// boundary, have normal forms that hold the same values in the same order.
pub proof fn lemma_normalization_ignores_input_order(
    d1: SecurityDeclaration,
    d2: SecurityDeclaration,
    n1: NormalizedSecurityDeclaration,
    n2: NormalizedSecurityDeclaration,
)
    requires
        rearranges(d1, d2),
        names_unique(d1),
        is_normal_form(n1, d1),
        is_normal_form(n2, d2),
    ensures
        same_normal_form(n1, n2),
{
    lemma_sorted_rearrangements_agree(n1.zones@, n2.zones@, d1.zones@, d2.zones@);
    lemma_sorted_rearrangements_agree(n1.scopes@, n2.scopes@, d1.scopes@, d2.scopes@);
    lemma_sorted_rearrangements_agree(n1.routes@, n2.routes@, d1.routes@, d2.routes@);
    lemma_sorted_rearrangements_agree(
        n1.route_policies@,
        n2.route_policies@,
        d1.route_policies@,
        d2.route_policies@,
    );
    let f1 = choose|fixed: Seq<BoundaryDeclaration>|
        #![trigger fixed.to_multiset()]
        fixed.len() == d1.boundaries@.len() && (forall|i: int|
            0 <= i < fixed.len() ==> relayered(#[trigger] fixed[i], d1.boundaries@[i]))
            && n1.boundaries@.to_multiset() == fixed.to_multiset() && (forall|k: Seq<char>|
            #[trigger] with_text_key(n1.boundaries@, k) == with_text_key(fixed, k));
    let f2 = choose|fixed: Seq<BoundaryDeclaration>|
        #![trigger fixed.to_multiset()]
        fixed.len() == d2.boundaries@.len() && (forall|i: int|
            0 <= i < fixed.len() ==> relayered(#[trigger] fixed[i], d2.boundaries@[i]))
            && n2.boundaries@.to_multiset() == fixed.to_multiset() && (forall|k: Seq<char>|
            #[trigger] with_text_key(n2.boundaries@, k) == with_text_key(fixed, k));
    let b1 = d1.boundaries@;
    let b2 = d2.boundaries@;
    assert forall|i: int| 0 <= i < b2.len() implies (#[trigger] b2[i]).layer_requirements@.map_values(
        mechanism_key(),
    ).no_duplicates() by {
        assert(b2.to_multiset().count(b2[i]) > 0);
        assert(b1.contains(b2[i]));
    }
    lemma_relayered_list(f1, b1);
    lemma_relayered_list(f2, b2);
    let rv = |b: BoundaryDeclaration| relayered_view(b);
    let bv = |b: BoundaryDeclaration| boundary_view(b);
    crate::policy::compile::lemma_map_multiset(n1.boundaries@, f1, bv);
    crate::policy::compile::lemma_map_multiset(n2.boundaries@, f2, bv);
    crate::policy::compile::lemma_map_multiset(b1, b2, rv);
    assert(boundary_views(n1.boundaries@) == n1.boundaries@.map_values(bv));
    assert(boundary_views(n2.boundaries@) == n2.boundaries@.map_values(bv));
    assert(boundary_views(f1) == f1.map_values(bv));
    assert(boundary_views(f2) == f2.map_values(bv));
    let v1 = boundary_views(n1.boundaries@);
    let v2 = boundary_views(n2.boundaries@);
    let name_key = |v: (DeclarationName, BoundaryEndRef, BoundaryEndRef, Seq<LayerRequirement>)|
        v.0@;
    lemma_distinct_keys_rearranged(n1.boundaries@, f1, text_key_of::<BoundaryDeclaration>());
    assert(v1.map_values(name_key) =~= n1.boundaries@.map_values(
        text_key_of::<BoundaryDeclaration>(),
    ));
    assert forall|i: int, j: int| 0 <= i < j < v1.len() implies crate::text::seq_le(
        name_key(v1[i]),
        name_key(v1[j]),
    ) by {
        assert(n1.boundaries@[i].text_key() == name_key(v1[i]));
        assert(n1.boundaries@[j].text_key() == name_key(v1[j]));
    }
    assert forall|i: int, j: int| 0 <= i < j < v2.len() implies crate::text::seq_le(
        name_key(v2[i]),
        name_key(v2[j]),
    ) by {
        assert(n2.boundaries@[i].text_key() == name_key(v2[i]));
        assert(n2.boundaries@[j].text_key() == name_key(v2[j]));
    }
    lemma_sorted_rearrangement_unique(v1, v2, name_key);
}

/// Normalizes declaration collections to deterministic canonical order.
pub fn normalize_security_declaration(declaration: SecurityDeclaration) -> (r:
    NormalizedSecurityDeclaration)
    ensures
        is_normal_form(r, declaration),
{
    let ghost d = declaration;
    let SecurityDeclaration {
        declaration_version,
        zones,
        boundaries,
        scopes,
        routes,
        route_policies,
    } = declaration;
    let mut zones = zones;
    let mut scopes = scopes;
    let mut routes = routes;
    let mut route_policies = route_policies;
    sort_by_text_key(&mut zones);
    sort_by_text_key(&mut scopes);
    sort_by_text_key(&mut routes);
    sort_by_text_key(&mut route_policies);

    let mut source = boundaries;
    let mut fixed: Vec<BoundaryDeclaration> = Vec::new();
    let ghost all = d.boundaries@;
    while source.len() > 0
        invariant
            fixed@.len() + source@.len() == all.len(),
            source@ == all.skip(fixed@.len() as int),
            forall|i: int| 0 <= i < fixed@.len() ==> relayered(#[trigger] fixed@[i], all[i]),
        decreases source@.len(),
    {
        let ghost k = fixed@.len();
        let b = source.remove(0);
        assert(b == all[k as int]);
        assert(source@ =~= all.skip((k + 1) as int));
        let BoundaryDeclaration { name, side_a, side_b, layer_requirements } = b;
        let mut layers = layer_requirements;
        sort_layers(&mut layers);
        fixed.push(BoundaryDeclaration { name, side_a, side_b, layer_requirements: layers });
    }
    let ghost fixed_view = fixed@;
    let mut boundaries = fixed;
    sort_by_text_key(&mut boundaries);
    assert(fixed_view.len() == d.boundaries@.len() && (forall|i: int|
        0 <= i < fixed_view.len() ==> relayered(#[trigger] fixed_view[i], d.boundaries@[i]))
        && boundaries@.to_multiset() == fixed_view.to_multiset() && (forall|k: Seq<char>|
        #[trigger] with_text_key(boundaries@, k) == with_text_key(fixed_view, k)));
    NormalizedSecurityDeclaration {
        declaration_version,
        zones,
        boundaries,
        scopes,
        routes,
        route_policies,
    }
}

/// Each pair names an item, in order, with the prefix followed by the name.
pub open spec fn pairs_match<T: Named>(
    pairs: Seq<(DeclarationName, String)>,
    items: Seq<T>,
    prefix: Seq<char>,
) -> bool {
    pairs.len() == items.len() && forall|i: int|
        0 <= i < pairs.len() ==> (#[trigger] pairs[i]).0 == items[i].name_of() && pairs[i].1@
            == prefix + items[i].name_of()@
}

/// The canonical paths of a normalized declaration: the model under its
/// version, the system actor, and each object under its family's prefix.
pub open spec fn paths_of(p: CanonicalPaths, n: NormalizedSecurityDeclaration) -> bool {
    &&& p.model@ == "model/jw-guard/"@ + n.declaration_version@
    &&& p.actor_system@ == "actor/system"@
    &&& pairs_match(p.zones@, n.zones@, "referent/zone/"@)
    &&& pairs_match(p.boundaries@, n.boundaries@, "boundary/"@)
    &&& pairs_match(p.scopes@, n.scopes@, "scope/"@)
    &&& pairs_match(p.routes@, n.routes@, "edge/route/"@)
    &&& pairs_match(p.policies@, n.route_policies@, "policy/"@)
    &&& pairs_match(p.requirements@, n.route_policies@, "requirement/route-policy/"@)
    &&& pairs_match(p.policy_scopes@, n.route_policies@, "scope/route-policy/"@)
}

/// The prefix followed by the text.
fn prefixed(prefix: &str, text: &str) -> (r: String)
    ensures
        r@ == prefix@ + text@,
{
    let mut r = owned(prefix);
    push_str(&mut r, text);
    r
}

/// Pairs each item's name with its path under the prefix.
fn named_paths<T: Named>(items: &[T], prefix: &str) -> (r: Vec<(DeclarationName, String)>)
    ensures
        pairs_match(r@, items@, prefix@),
{
    let mut out: Vec<(DeclarationName, String)> = Vec::new();
    let mut i: usize = 0;
    while i < items.len()
        invariant
            i <= items@.len(),
            out@.len() == i,
            forall|k: int|
                0 <= k < i ==> (#[trigger] out@[k]).0 == items@[k].name_of() && out@[k].1@ == prefix@
                    + items@[k].name_of()@,
        decreases items@.len() - i,
    {
        let name = items[i].name_ref();
        let path = prefixed(prefix, name.as_str());
        out.push((name.duplicate(), path));
        i = i + 1;
    }
    out
}

/// Derives canonical declaration paths from normalized declaration.
pub fn derive_canonical_paths(normalized: &NormalizedSecurityDeclaration) -> (r: CanonicalPaths)
    ensures
        paths_of(r, *normalized),
{
    let model = prefixed("model/jw-guard/", normalized.declaration_version.as_str());
    let actor_system = owned("actor/system");
    let zones = named_paths(normalized.zones.as_slice(), "referent/zone/");
    let boundaries = named_paths(normalized.boundaries.as_slice(), "boundary/");
    let scopes = named_paths(normalized.scopes.as_slice(), "scope/");
    let routes = named_paths(normalized.routes.as_slice(), "edge/route/");
    let policies = named_paths(normalized.route_policies.as_slice(), "policy/");
    let requirements = named_paths(
        normalized.route_policies.as_slice(),
        "requirement/route-policy/",
    );
    let policy_scopes = named_paths(normalized.route_policies.as_slice(), "scope/route-policy/");
    CanonicalPaths {
        model,
        actor_system,
        zones,
        boundaries,
        scopes,
        routes,
        policies,
        requirements,
        policy_scopes,
    }
}

/// A reference to a declared zone, or to the outside.
pub open spec fn end_resolves(n: NormalizedSecurityDeclaration, end: BoundaryEndRef) -> bool {
    match end {
        BoundaryEndRef::Zone(x) => crate::declare::validation::named_in(n.zones@, x@),
        BoundaryEndRef::Outside => true,
    }
}

/// Every reference of the declaration names a declared object: boundary
/// sides and route ends name zones, scope targets name objects of their kind,
/// route policies name routes.
pub open spec fn references_resolve(n: NormalizedSecurityDeclaration) -> bool {
    &&& forall|i: int|
        0 <= i < n.boundaries@.len() ==> end_resolves(n, (#[trigger] n.boundaries@[i]).side_a)
            && end_resolves(n, n.boundaries@[i].side_b)
    &&& forall|i: int|
        0 <= i < n.routes@.len() ==> end_resolves(n, (#[trigger] n.routes@[i]).from)
            && end_resolves(n, n.routes@[i].to)
    &&& forall|i: int|
        0 <= i < n.scopes@.len() ==> match (#[trigger] n.scopes@[i]).target {
            ScopeTarget::Zone(x) => crate::declare::validation::named_in(n.zones@, x@),
            ScopeTarget::Boundary(x) => crate::declare::validation::named_in(n.boundaries@, x@),
            ScopeTarget::Route(x) => crate::declare::validation::named_in(n.routes@, x@),
        }
    &&& forall|i: int|
        0 <= i < n.route_policies@.len() ==> crate::declare::validation::named_in(
            n.routes@,
            (#[trigger] n.route_policies@[i]).route@,
        )
}

/// The path of the referent standing for everything outside the model.
pub open spec fn outside_path() -> Seq<char> {
    "referent/outside/default"@
}

/// The referent id of a boundary or route end.
pub open spec fn end_id(v: Seq<char>, end: BoundaryEndRef) -> Seq<u8> {
    match end {
        BoundaryEndRef::Zone(x) => derived_id(DeterministicIdKind::Referent, v, "referent/zone/"@ + x@),
        BoundaryEndRef::Outside => derived_id(DeterministicIdKind::Referent, v, outside_path()),
    }
}

/// The referent a scope targets.
pub open spec fn target_id(v: Seq<char>, t: ScopeTarget) -> Seq<u8> {
    match t {
        ScopeTarget::Zone(x) => derived_id(DeterministicIdKind::Referent, v, "referent/zone/"@ + x@),
        ScopeTarget::Boundary(x) => derived_id(DeterministicIdKind::Referent, v, "boundary/"@ + x@),
        ScopeTarget::Route(x) => derived_id(DeterministicIdKind::Referent, v, "edge/route/"@ + x@),
    }
}

/// The referent sort a scope target selects.
pub open spec fn target_sort_key(t: ScopeTarget) -> (int, Seq<char>) {
    match t {
        ScopeTarget::Zone(_) => (10, "zone"@),
        ScopeTarget::Boundary(_) => (1, Seq::empty()),
        ScopeTarget::Route(_) => (3, Seq::empty()),
    }
}

/// The context every canonical scope is evaluated in: the model's version and
/// the system actor's authority.
pub open spec fn canonical_context(
    c: EvaluationContextDeclaration,
    version: SemVer,
    actor: ActorId,
) -> bool {
    c.model_version == version && c.namespace is None && c.boundary is None && c.actor_authority
        == Some(actor) && c.snapshot_at is None && c.evidence_source is None
}

/// A predicate listing exactly one referent, with the given id.
pub open spec fn single_referent(p: MembershipPredicateDeclaration, id: Seq<u8>) -> bool {
    match p {
        MembershipPredicateDeclaration::ReferentIds { ids } => ids@.len() == 1 && ids@[0].0@ == id,
        _ => false,
    }
}

/// The canonical theory graph of a normalized declaration, `v` its version
/// text: the model and its system actor, a referent per zone, boundary and
/// route plus one for the outside, a boundary per boundary with its surfaces,
/// a boundary-crossing edge per route, a scope per scope and per route
/// policy, and an existence requirement and a policy per route policy.
pub open spec fn theory_of(t: CoreTheoryLibrary, n: NormalizedSecurityDeclaration) -> bool {
    let v = n.declaration_version@;
    let actor = derived_id(DeterministicIdKind::Actor, v, "actor/system"@);
    let nz = n.zones@.len();
    let nb = n.boundaries@.len();
    let nr = n.routes@.len();
    &&& t.model.id.0@ == derived_id(DeterministicIdKind::Model, v, "model/jw-guard/"@ + v)
    &&& t.model.version == n.declaration_version
    &&& t.model.declared_at@ == "2026-01-01T00:00:00Z"@
    &&& t.model.declared_by.0@ == actor
    &&& t.actors@.len() == 1 && t.actors@[0].id == t.model.declared_by && t.actors@[0].role is System
    &&& t.referents@.len() == nz + nb + nr + 1
    &&& forall|i: int|
        0 <= i < nz ==> (#[trigger] t.referents@[i]).id.0@ == derived_id(
            DeterministicIdKind::Referent,
            v,
            "referent/zone/"@ + n.zones@[i].name@,
        ) && t.referents@[i].sort.key() == (10int, "zone"@)
    &&& forall|i: int|
        0 <= i < nb ==> (#[trigger] t.referents@[nz + i]).id.0@ == derived_id(
            DeterministicIdKind::Referent,
            v,
            "boundary/"@ + n.boundaries@[i].name@,
        ) && t.referents@[nz + i].sort is Boundary
    &&& forall|i: int|
        0 <= i < nr ==> (#[trigger] t.referents@[nz + nb + i]).id.0@ == derived_id(
            DeterministicIdKind::Referent,
            v,
            "edge/route/"@ + n.routes@[i].name@,
        ) && t.referents@[nz + nb + i].sort is Edge
    &&& t.referents@[(nz + nb + nr) as int].id.0@ == derived_id(DeterministicIdKind::Referent, v, outside_path())
    &&& t.referents@[(nz + nb + nr) as int].sort.key() == (10int, "outside"@)
    &&& t.boundaries@.len() == nb
    &&& forall|i: int|
        0 <= i < nb ==> {
            let b = #[trigger] t.boundaries@[i];
            let d = n.boundaries@[i];
            let path = "boundary/"@ + d.name@;
            &&& b.id.0@ == derived_id(DeterministicIdKind::Boundary, v, path)
            &&& b.side_a.label is A && b.side_a.anchor.0@ == end_id(v, d.side_a)
            &&& b.side_b.label is B && b.side_b.anchor.0@ == end_id(v, d.side_b)
            &&& b.surface_a.id.0@ == derived_id(DeterministicIdKind::Surface, v, path + "/surface/a"@)
            &&& b.surface_a.boundary_id == b.id && b.surface_a.facing is A
            &&& b.surface_b.id.0@ == derived_id(DeterministicIdKind::Surface, v, path + "/surface/b"@)
            &&& b.surface_b.boundary_id == b.id && b.surface_b.facing is B
        }
    &&& t.edges@.len() == nr
    &&& forall|i: int|
        0 <= i < nr ==> {
            let e = #[trigger] t.edges@[i];
            let r = n.routes@[i];
            &&& e.id.0@ == derived_id(DeterministicIdKind::Edge, v, "edge/route/"@ + r.name@)
            &&& e.sort is CrossesBoundary
            &&& e.from.0@ == end_id(v, r.from)
            &&& e.to.0@ == end_id(v, r.to)
        }
    &&& t.scopes@.len() == n.scopes@.len() + n.route_policies@.len()
    &&& forall|i: int|
        0 <= i < n.scopes@.len() ==> {
            let s = #[trigger] t.scopes@[i];
            let d = n.scopes@[i];
            &&& s.id.0@ == derived_id(DeterministicIdKind::Scope, v, "scope/"@ + d.name@)
            &&& s.referent_sort.key() == target_sort_key(d.target)
            &&& canonical_context(s.context, n.declaration_version, t.model.declared_by)
            &&& single_referent(s.predicate, target_id(v, d.target))
        }
    &&& forall|i: int|
        0 <= i < n.route_policies@.len() ==> {
            let s = #[trigger] t.scopes@[n.scopes@.len() + i];
            let p = n.route_policies@[i];
            &&& s.id.0@ == derived_id(DeterministicIdKind::Scope, v, "scope/route-policy/"@ + p.name@)
            &&& s.referent_sort is Edge
            &&& canonical_context(s.context, n.declaration_version, t.model.declared_by)
            &&& single_referent(
                s.predicate,
                derived_id(DeterministicIdKind::Referent, v, "edge/route/"@ + p.route@),
            )
        }
    &&& t.requirements@.len() == n.route_policies@.len()
    &&& forall|i: int|
        0 <= i < n.route_policies@.len() ==> {
            let q = #[trigger] t.requirements@[i];
            &&& q.id.0@ == derived_id(
                DeterministicIdKind::Requirement,
                v,
                "requirement/route-policy/"@ + n.route_policies@[i].name@,
            )
            &&& q.sort is Relation
            &&& q.operator == RequirementOperator::Relation(RelationOperator::Exists)
            &&& q.value == TypedValue::Bool(true)
        }
    &&& t.policies@.len() == n.route_policies@.len()
    &&& forall|i: int|
        0 <= i < n.route_policies@.len() ==> {
            let p = #[trigger] t.policies@[i];
            let name = n.route_policies@[i].name@;
            &&& p.id.0@ == derived_id(DeterministicIdKind::Policy, v, "policy/"@ + name)
            &&& p.declared_by == t.model.declared_by
            &&& p.scope.0@ == derived_id(DeterministicIdKind::Scope, v, "scope/route-policy/"@ + name)
            &&& p.requirement.0@ == derived_id(
                DeterministicIdKind::Requirement,
                v,
                "requirement/route-policy/"@ + name,
            )
        }
    &&& t.evidence_sources@.len() == 0 && t.observations@.len() == 0 && t.evaluations@.len() == 0
}

/// Derives the id of the path under the prefix.
fn derive_prefixed(kind: DeterministicIdKind, version: &SemVer, prefix: &str, text: &str) -> (r: [u8;
    16])
    ensures
        r@ == derived_id(kind, version@, prefix@ + text@),
{
    let path = prefixed(prefix, text);
    derive_deterministic_id(kind, version, path.as_str())
}

/// The referent id of a boundary or route end.
fn resolve_end_referent_id(end: &BoundaryEndRef, version: &SemVer) -> (r: ReferentId)
    ensures
        r.0@ == end_id(version@, *end),
{
    match end {
        BoundaryEndRef::Outside => ReferentId::from_bytes(
            derive_deterministic_id(DeterministicIdKind::Referent, version, "referent/outside/default"),
        ),
        BoundaryEndRef::Zone(name) => ReferentId::from_bytes(
            derive_prefixed(DeterministicIdKind::Referent, version, "referent/zone/", name.as_str()),
        ),
    }
}

/// The referent a scope targets.
fn scope_target_referent_id(target: &ScopeTarget, version: &SemVer) -> (r: ReferentId)
    ensures
        r.0@ == target_id(version@, *target),
{
    match target {
        ScopeTarget::Zone(name) => ReferentId::from_bytes(
            derive_prefixed(DeterministicIdKind::Referent, version, "referent/zone/", name.as_str()),
        ),
        ScopeTarget::Boundary(name) => ReferentId::from_bytes(
            derive_prefixed(DeterministicIdKind::Referent, version, "boundary/", name.as_str()),
        ),
        ScopeTarget::Route(name) => ReferentId::from_bytes(
            derive_prefixed(DeterministicIdKind::Referent, version, "edge/route/", name.as_str()),
        ),
    }
}

/// The referent sort a scope target selects.
fn scope_target_sort(target: &ScopeTarget) -> (r: ReferentSort)
    ensures
        r.key() == target_sort_key(*target),
{
    match target {
        ScopeTarget::Zone(_) => ReferentSort::Custom { name: NonEmptyString::new_unchecked("zone") },
        ScopeTarget::Boundary(_) => ReferentSort::Boundary,
        ScopeTarget::Route(_) => ReferentSort::Edge,
    }
}

/// The evaluation context of a canonical scope.
fn canonical_scope_context(version: &SemVer, actor: ActorId) -> (r: EvaluationContextDeclaration)
    ensures
        canonical_context(r, *version, actor),
{
    EvaluationContextDeclaration {
        model_version: version.duplicate(),
        namespace: None,
        boundary: None,
        actor_authority: Some(actor),
        snapshot_at: None,
        evidence_source: None,
    }
}

/// Appends a referent of the given sort for each named item, under the prefix.
fn push_referents<T: Named>(
    out: &mut Vec<ReferentDeclaration>,
    items: &[T],
    version: &SemVer,
    prefix: &str,
    sort_index: u8,
)
    requires
        sort_index == 0 || sort_index == 1 || sort_index == 3,
    ensures
        final(out)@.len() == old(out)@.len() + items@.len(),
        forall|i: int| 0 <= i < old(out)@.len() ==> final(out)@[i] == old(out)@[i],
        forall|i: int|
            0 <= i < items@.len() ==> (#[trigger] final(out)@[old(out)@.len() + i]).id.0@
                == derived_id(DeterministicIdKind::Referent, version@, prefix@ + items@[i].name_of()@)
                && final(out)@[old(out)@.len() + i].sort.key() == (if sort_index == 0 {
                (10int, "zone"@)
            } else {
                (sort_index as int, Seq::<char>::empty())
            }),
{
    let ghost start = out@;
    let mut i: usize = 0;
    while i < items.len()
        invariant
            sort_index == 0 || sort_index == 1 || sort_index == 3,
            i <= items@.len(),
            out@.len() == start.len() + i,
            forall|k: int| 0 <= k < start.len() ==> out@[k] == start[k],
            forall|k: int|
                0 <= k < i ==> (#[trigger] out@[start.len() + k]).id.0@ == derived_id(
                    DeterministicIdKind::Referent,
                    version@,
                    prefix@ + items@[k].name_of()@,
                ) && out@[start.len() + k].sort.key() == (if sort_index == 0 {
                    (10int, "zone"@)
                } else {
                    (sort_index as int, Seq::<char>::empty())
                }),
        decreases items@.len() - i,
    {
        let id = ReferentId::from_bytes(
            derive_prefixed(
                DeterministicIdKind::Referent,
                version,
                prefix,
                items[i].name_ref().as_str(),
            ),
        );
        let sort = if sort_index == 0 {
            ReferentSort::Custom { name: NonEmptyString::new_unchecked("zone") }
        } else if sort_index == 1 {
            ReferentSort::Boundary
        } else {
            ReferentSort::Edge
        };
        out.push(ReferentDeclaration { id, sort });
        i = i + 1;
    }
}

fn build_boundaries(n: &NormalizedSecurityDeclaration) -> (r: Vec<TheoryBoundaryDeclaration>)
    ensures
        r@.len() == n.boundaries@.len(),
        forall|i: int|
            0 <= i < n.boundaries@.len() ==> {
                let b = #[trigger] r@[i];
                let d = n.boundaries@[i];
                let v = n.declaration_version@;
                let path = "boundary/"@ + d.name@;
                &&& b.id.0@ == derived_id(DeterministicIdKind::Boundary, v, path)
                &&& b.side_a.label is A && b.side_a.anchor.0@ == end_id(v, d.side_a)
                &&& b.side_b.label is B && b.side_b.anchor.0@ == end_id(v, d.side_b)
                &&& b.surface_a.id.0@ == derived_id(
                    DeterministicIdKind::Surface,
                    v,
                    path + "/surface/a"@,
                )
                &&& b.surface_a.boundary_id == b.id && b.surface_a.facing is A
                &&& b.surface_b.id.0@ == derived_id(
                    DeterministicIdKind::Surface,
                    v,
                    path + "/surface/b"@,
                )
                &&& b.surface_b.boundary_id == b.id && b.surface_b.facing is B
            },
{
    let version = &n.declaration_version;
    let mut out: Vec<TheoryBoundaryDeclaration> = Vec::new();
    let mut i: usize = 0;
    while i < n.boundaries.len()
        invariant
            i <= n.boundaries@.len(),
            version == &n.declaration_version,
            out@.len() == i,
            forall|k: int|
                0 <= k < i ==> {
                    let b = #[trigger] out@[k];
                    let d = n.boundaries@[k];
                    let v = n.declaration_version@;
                    let path = "boundary/"@ + d.name@;
                    &&& b.id.0@ == derived_id(DeterministicIdKind::Boundary, v, path)
                    &&& b.side_a.label is A && b.side_a.anchor.0@ == end_id(v, d.side_a)
                    &&& b.side_b.label is B && b.side_b.anchor.0@ == end_id(v, d.side_b)
                    &&& b.surface_a.id.0@ == derived_id(
                        DeterministicIdKind::Surface,
                        v,
                        path + "/surface/a"@,
                    )
                    &&& b.surface_a.boundary_id == b.id && b.surface_a.facing is A
                    &&& b.surface_b.id.0@ == derived_id(
                        DeterministicIdKind::Surface,
                        v,
                        path + "/surface/b"@,
                    )
                    &&& b.surface_b.boundary_id == b.id && b.surface_b.facing is B
                },
        decreases n.boundaries@.len() - i,
    {
        let d = &n.boundaries[i];
        let path = prefixed("boundary/", d.name.as_str());
        let boundary_id = BoundaryId::from_bytes(
            derive_deterministic_id(DeterministicIdKind::Boundary, version, path.as_str()),
        );
        let side_a_anchor = resolve_end_referent_id(&d.side_a, version);
        let side_b_anchor = resolve_end_referent_id(&d.side_b, version);
        let path_a = prefixed(path.as_str(), "/surface/a");
        let path_b = prefixed(path.as_str(), "/surface/b");
        let surface_a = SurfaceDeclaration {
            id: SurfaceId::from_bytes(
                derive_deterministic_id(DeterministicIdKind::Surface, version, path_a.as_str()),
            ),
            boundary_id,
            facing: SideLabel::A,
        };
        let surface_b = SurfaceDeclaration {
            id: SurfaceId::from_bytes(
                derive_deterministic_id(DeterministicIdKind::Surface, version, path_b.as_str()),
            ),
            boundary_id,
            facing: SideLabel::B,
        };
        out.push(
            TheoryBoundaryDeclaration {
                id: boundary_id,
                side_a: SideDeclaration { label: SideLabel::A, anchor: side_a_anchor },
                side_b: SideDeclaration { label: SideLabel::B, anchor: side_b_anchor },
                surface_a,
                surface_b,
            },
        );
        i = i + 1;
    }
    out
}

fn build_edges(n: &NormalizedSecurityDeclaration) -> (r: Vec<EdgeDeclaration>)
    ensures
        r@.len() == n.routes@.len(),
        forall|i: int|
            0 <= i < n.routes@.len() ==> {
                let e = #[trigger] r@[i];
                let d = n.routes@[i];
                let v = n.declaration_version@;
                &&& e.id.0@ == derived_id(DeterministicIdKind::Edge, v, "edge/route/"@ + d.name@)
                &&& e.sort is CrossesBoundary
                &&& e.from.0@ == end_id(v, d.from)
                &&& e.to.0@ == end_id(v, d.to)
            },
{
    let version = &n.declaration_version;
    let mut out: Vec<EdgeDeclaration> = Vec::new();
    let mut i: usize = 0;
    while i < n.routes.len()
        invariant
            i <= n.routes@.len(),
            version == &n.declaration_version,
            out@.len() == i,
            forall|k: int|
                0 <= k < i ==> {
                    let e = #[trigger] out@[k];
                    let d = n.routes@[k];
                    let v = n.declaration_version@;
                    &&& e.id.0@ == derived_id(DeterministicIdKind::Edge, v, "edge/route/"@ + d.name@)
                    &&& e.sort is CrossesBoundary
                    &&& e.from.0@ == end_id(v, d.from)
                    &&& e.to.0@ == end_id(v, d.to)
                },
        decreases n.routes@.len() - i,
    {
        let d = &n.routes[i];
        let id = EdgeId::from_bytes(
            derive_prefixed(DeterministicIdKind::Edge, version, "edge/route/", d.name.as_str()),
        );
        let from = resolve_end_referent_id(&d.from, version);
        let to = resolve_end_referent_id(&d.to, version);
        out.push(EdgeDeclaration { id, sort: EdgeSort::CrossesBoundary, from, to });
        i = i + 1;
    }
    out
}

fn build_scopes(n: &NormalizedSecurityDeclaration, actor: ActorId) -> (r: Vec<
    TypedScopeDeclaration,
>)
    ensures
        r@.len() == n.scopes@.len() + n.route_policies@.len(),
        forall|i: int|
            0 <= i < n.scopes@.len() ==> {
                let s = #[trigger] r@[i];
                let d = n.scopes@[i];
                let v = n.declaration_version@;
                &&& s.id.0@ == derived_id(DeterministicIdKind::Scope, v, "scope/"@ + d.name@)
                &&& s.referent_sort.key() == target_sort_key(d.target)
                &&& canonical_context(s.context, n.declaration_version, actor)
                &&& single_referent(s.predicate, target_id(v, d.target))
            },
        forall|i: int|
            0 <= i < n.route_policies@.len() ==> {
                let s = #[trigger] r@[n.scopes@.len() + i];
                let p = n.route_policies@[i];
                let v = n.declaration_version@;
                &&& s.id.0@ == derived_id(
                    DeterministicIdKind::Scope,
                    v,
                    "scope/route-policy/"@ + p.name@,
                )
                &&& s.referent_sort is Edge
                &&& canonical_context(s.context, n.declaration_version, actor)
                &&& single_referent(
                    s.predicate,
                    derived_id(DeterministicIdKind::Referent, v, "edge/route/"@ + p.route@),
                )
            },
{
    let version = &n.declaration_version;
    let mut out: Vec<TypedScopeDeclaration> = Vec::new();
    let mut i: usize = 0;
    while i < n.scopes.len()
        invariant
            i <= n.scopes@.len(),
            version == &n.declaration_version,
            out@.len() == i,
            forall|k: int|
                0 <= k < i ==> {
                    let s = #[trigger] out@[k];
                    let d = n.scopes@[k];
                    let v = n.declaration_version@;
                    &&& s.id.0@ == derived_id(DeterministicIdKind::Scope, v, "scope/"@ + d.name@)
                    &&& s.referent_sort.key() == target_sort_key(d.target)
                    &&& canonical_context(s.context, n.declaration_version, actor)
                    &&& single_referent(s.predicate, target_id(v, d.target))
                },
        decreases n.scopes@.len() - i,
    {
        let d = &n.scopes[i];
        let id = ScopeId::from_bytes(
            derive_prefixed(DeterministicIdKind::Scope, version, "scope/", d.name.as_str()),
        );
        let target = scope_target_referent_id(&d.target, version);
        out.push(
            TypedScopeDeclaration {
                id,
                referent_sort: scope_target_sort(&d.target),
                context: canonical_scope_context(version, actor),
                predicate: MembershipPredicateDeclaration::ReferentIds {
                    ids: NonEmptyVec::from_item(target),
                },
            },
        );
        i = i + 1;
    }
    let base = out.len();
    let mut j: usize = 0;
    while j < n.route_policies.len()
        invariant
            j <= n.route_policies@.len(),
            version == &n.declaration_version,
            base == n.scopes@.len(),
            out@.len() == base + j,
            forall|k: int|
                0 <= k < n.scopes@.len() ==> {
                    let s = #[trigger] out@[k];
                    let d = n.scopes@[k];
                    let v = n.declaration_version@;
                    &&& s.id.0@ == derived_id(DeterministicIdKind::Scope, v, "scope/"@ + d.name@)
                    &&& s.referent_sort.key() == target_sort_key(d.target)
                    &&& canonical_context(s.context, n.declaration_version, actor)
                    &&& single_referent(s.predicate, target_id(v, d.target))
                },
            forall|k: int|
                0 <= k < j ==> {
                    let s = #[trigger] out@[base + k];
                    let p = n.route_policies@[k];
                    let v = n.declaration_version@;
                    &&& s.id.0@ == derived_id(
                        DeterministicIdKind::Scope,
                        v,
                        "scope/route-policy/"@ + p.name@,
                    )
                    &&& s.referent_sort is Edge
                    &&& canonical_context(s.context, n.declaration_version, actor)
                    &&& single_referent(
                        s.predicate,
                        derived_id(DeterministicIdKind::Referent, v, "edge/route/"@ + p.route@),
                    )
                },
        decreases n.route_policies@.len() - j,
    {
        let p = &n.route_policies[j];
        let id = ScopeId::from_bytes(
            derive_prefixed(DeterministicIdKind::Scope, version, "scope/route-policy/", p.name.as_str()),
        );
        let target = ReferentId::from_bytes(
            derive_prefixed(DeterministicIdKind::Referent, version, "edge/route/", p.route.as_str()),
        );
        out.push(
            TypedScopeDeclaration {
                id,
                referent_sort: ReferentSort::Edge,
                context: canonical_scope_context(version, actor),
                predicate: MembershipPredicateDeclaration::ReferentIds {
                    ids: NonEmptyVec::from_item(target),
                },
            },
        );
        j = j + 1;
    }
    out
}

fn build_requirements_and_policies(n: &NormalizedSecurityDeclaration, actor: ActorId) -> (r: (
    Vec<RequirementDeclaration>,
    Vec<PolicyDeclaration>,
))
    ensures
        r.0@.len() == n.route_policies@.len(),
        r.1@.len() == n.route_policies@.len(),
        forall|i: int|
            0 <= i < n.route_policies@.len() ==> {
                let q = #[trigger] r.0@[i];
                &&& q.id.0@ == derived_id(
                    DeterministicIdKind::Requirement,
                    n.declaration_version@,
                    "requirement/route-policy/"@ + n.route_policies@[i].name@,
                )
                &&& q.sort is Relation
                &&& q.operator == RequirementOperator::Relation(RelationOperator::Exists)
                &&& q.value == TypedValue::Bool(true)
            },
        forall|i: int|
            0 <= i < n.route_policies@.len() ==> {
                let p = #[trigger] r.1@[i];
                let name = n.route_policies@[i].name@;
                let v = n.declaration_version@;
                &&& p.id.0@ == derived_id(DeterministicIdKind::Policy, v, "policy/"@ + name)
                &&& p.declared_by == actor
                &&& p.scope.0@ == derived_id(
                    DeterministicIdKind::Scope,
                    v,
                    "scope/route-policy/"@ + name,
                )
                &&& p.requirement.0@ == derived_id(
                    DeterministicIdKind::Requirement,
                    v,
                    "requirement/route-policy/"@ + name,
                )
            },
{
    let version = &n.declaration_version;
    let mut requirements: Vec<RequirementDeclaration> = Vec::new();
    let mut policies: Vec<PolicyDeclaration> = Vec::new();
    let mut i: usize = 0;
    while i < n.route_policies.len()
        invariant
            i <= n.route_policies@.len(),
            version == &n.declaration_version,
            requirements@.len() == i,
            policies@.len() == i,
            forall|k: int|
                0 <= k < i ==> {
                    let q = #[trigger] requirements@[k];
                    &&& q.id.0@ == derived_id(
                        DeterministicIdKind::Requirement,
                        n.declaration_version@,
                        "requirement/route-policy/"@ + n.route_policies@[k].name@,
                    )
                    &&& q.sort is Relation
                    &&& q.operator == RequirementOperator::Relation(RelationOperator::Exists)
                    &&& q.value == TypedValue::Bool(true)
                },
            forall|k: int|
                0 <= k < i ==> {
                    let p = #[trigger] policies@[k];
                    let name = n.route_policies@[k].name@;
                    let v = n.declaration_version@;
                    &&& p.id.0@ == derived_id(DeterministicIdKind::Policy, v, "policy/"@ + name)
                    &&& p.declared_by == actor
                    &&& p.scope.0@ == derived_id(
                        DeterministicIdKind::Scope,
                        v,
                        "scope/route-policy/"@ + name,
                    )
                    &&& p.requirement.0@ == derived_id(
                        DeterministicIdKind::Requirement,
                        v,
                        "requirement/route-policy/"@ + name,
                    )
                },
        decreases n.route_policies@.len() - i,
    {
        let name = n.route_policies[i].name.as_str();
        let requirement_id = RequirementId::from_bytes(
            derive_prefixed(DeterministicIdKind::Requirement, version, "requirement/route-policy/", name),
        );
        requirements.push(
            RequirementDeclaration {
                id: requirement_id,
                sort: RequirementSort::Relation,
                operator: RequirementOperator::Relation(RelationOperator::Exists),
                value: TypedValue::Bool(true),
            },
        );
        let policy_id = PolicyId::from_bytes(
            derive_prefixed(DeterministicIdKind::Policy, version, "policy/", name),
        );
        let scope_id = ScopeId::from_bytes(
            derive_prefixed(DeterministicIdKind::Scope, version, "scope/route-policy/", name),
        );
        policies.push(
            PolicyDeclaration {
                id: policy_id,
                declared_by: actor,
                scope: scope_id,
                requirement: requirement_id,
            },
        );
        i = i + 1;
    }
    (requirements, policies)
}

impl TextKeyed for (DeclarationName, CanonicalTraceEntry) {
    open spec fn text_key(&self) -> Seq<char> {
        self.0@
    }

    fn key_precedes(&self, other: &Self) -> (r: bool) {
        self.0.precedes(&other.0)
    }
}

/// The entry a (name, path) pair gets: the path and the id derived from it.
pub open spec fn entry_for(
    e: (DeclarationName, CanonicalTraceEntry),
    pair: (DeclarationName, String),
    kind: DeterministicIdKind,
    v: Seq<char>,
) -> bool {
    e.0 == pair.0 && e.1.canonical_path@ == pair.1@ && e.1.deterministic_id@ == derived_id(
        kind,
        v,
        pair.1@,
    )
}

/// Trace entries for the pairs, ordered by name.
pub open spec fn entries_for(
    r: Seq<(DeclarationName, CanonicalTraceEntry)>,
    pairs: Seq<(DeclarationName, String)>,
    kind: DeterministicIdKind,
    v: Seq<char>,
) -> bool {
    sorted_by_key(r) && exists|e: Seq<(DeclarationName, CanonicalTraceEntry)>|
        #![trigger e.to_multiset()]
        e.len() == pairs.len() && (forall|i: int|
            0 <= i < e.len() ==> entry_for(#[trigger] e[i], pairs[i], kind, v)) && r.to_multiset()
            == e.to_multiset()
}

/// The trace map of canonical paths under a schema version.
pub open spec fn trace_of(t: CanonicalTraceMap, p: CanonicalPaths, v: Seq<char>) -> bool {
    &&& t.model.canonical_path@ == p.model@
    &&& t.model.deterministic_id@ == derived_id(DeterministicIdKind::Model, v, p.model@)
    &&& entries_for(t.zones@, p.zones@, DeterministicIdKind::Referent, v)
    &&& entries_for(t.boundaries@, p.boundaries@, DeterministicIdKind::Boundary, v)
    &&& entries_for(t.routes@, p.routes@, DeterministicIdKind::Edge, v)
    &&& entries_for(t.scopes@, p.scopes@, DeterministicIdKind::Scope, v)
    &&& entries_for(t.policies@, p.policies@, DeterministicIdKind::Policy, v)
    &&& entries_for(t.requirements@, p.requirements@, DeterministicIdKind::Requirement, v)
}

fn trace_entries(
    pairs: &Vec<(DeclarationName, String)>,
    kind: DeterministicIdKind,
    version: &SemVer,
) -> (r: Vec<(DeclarationName, CanonicalTraceEntry)>)
    ensures
        entries_for(r@, pairs@, kind, version@),
{
    let mut out: Vec<(DeclarationName, CanonicalTraceEntry)> = Vec::new();
    let mut i: usize = 0;
    while i < pairs.len()
        invariant
            i <= pairs@.len(),
            out@.len() == i,
            forall|k: int| 0 <= k < i ==> entry_for(#[trigger] out@[k], pairs@[k], kind, version@),
        decreases pairs@.len() - i,
    {
        let path = &pairs[i].1;
        let entry = CanonicalTraceEntry {
            canonical_path: path.clone(),
            deterministic_id: derive_deterministic_id(kind, version, path.as_str()),
        };
        out.push((pairs[i].0.duplicate(), entry));
        i = i + 1;
    }
    let ghost e = out@;
    sort_by_text_key(&mut out);
    assert(e.len() == pairs@.len() && (forall|i: int|
        0 <= i < e.len() ==> entry_for(#[trigger] e[i], pairs@[i], kind, version@))
        && out@.to_multiset() == e.to_multiset());
    out
}

/// Builds the trace map of canonical paths, each family ordered by name.
fn build_canonical_trace_map(paths: &CanonicalPaths, version: &SemVer) -> (r: CanonicalTraceMap)
    ensures
        trace_of(r, *paths, version@),
{
    CanonicalTraceMap {
        model: CanonicalTraceEntry {
            canonical_path: paths.model.clone(),
            deterministic_id: derive_deterministic_id(
                DeterministicIdKind::Model,
                version,
                paths.model.as_str(),
            ),
        },
        zones: trace_entries(&paths.zones, DeterministicIdKind::Referent, version),
        boundaries: trace_entries(&paths.boundaries, DeterministicIdKind::Boundary, version),
        routes: trace_entries(&paths.routes, DeterministicIdKind::Edge, version),
        scopes: trace_entries(&paths.scopes, DeterministicIdKind::Scope, version),
        policies: trace_entries(&paths.policies, DeterministicIdKind::Policy, version),
        requirements: trace_entries(&paths.requirements, DeterministicIdKind::Requirement, version),
    }
}

/// The canonical model of a normalized declaration: its paths, their trace
/// map and the theory graph built from them.
pub open spec fn canonical_model_of(m: CanonicalModel, n: NormalizedSecurityDeclaration) -> bool {
    &&& m.normalized == n
    &&& paths_of(m.paths, n)
    &&& trace_of(m.trace, m.paths, n.declaration_version@)
    &&& theory_of(m.theory, n)
}

/// What the canonical model describes of a normal form, it describes alike
/// of any normal form holding the same values in the same order.
pub proof fn lemma_same_normal_form_same_model(
    n1: NormalizedSecurityDeclaration,
    n2: NormalizedSecurityDeclaration,
    m: CanonicalModel,
)
    requires
        same_normal_form(n1, n2),
        canonical_model_of(m, n1),
    ensures
        paths_of(m.paths, n2),
        trace_of(m.trace, m.paths, n2.declaration_version@),
        theory_of(m.theory, n2),
{
    let b1 = n1.boundaries@;
    let b2 = n2.boundaries@;
    assert(boundary_views(b1).len() == b1.len());
    assert(boundary_views(b2).len() == b2.len());
    assert forall|i: int| 0 <= i < b2.len() implies #[trigger] b2[i].name == b1[i].name
        && b2[i].side_a == b1[i].side_a && b2[i].side_b == b1[i].side_b by {
        assert(boundary_views(b1)[i] == boundary_views(b2)[i]);
    }
    assert(pairs_match(m.paths.boundaries@, b2, "boundary/"@));
}

/// Builds a canonical theory graph from normalized declarations. Every
/// reference of the declaration must name a declared object.
pub fn build_canonical_model(normalized: NormalizedSecurityDeclaration) -> (r: CanonicalModel)
    requires
        references_resolve(normalized),
    ensures
        canonical_model_of(r, normalized),
{
    let paths = derive_canonical_paths(&normalized);
    let version = &normalized.declaration_version;
    let trace = build_canonical_trace_map(&paths, version);
    let model_id = ModelId::from_bytes(
        derive_deterministic_id(DeterministicIdKind::Model, version, paths.model.as_str()),
    );
    let actor_id = ActorId::from_bytes(
        derive_deterministic_id(DeterministicIdKind::Actor, version, paths.actor_system.as_str()),
    );
    let model = ModelDeclaration {
        id: model_id,
        version: version.duplicate(),
        declared_at: UtcTimestamp::new_unchecked("2026-01-01T00:00:00Z"),
        declared_by: actor_id,
    };
    let mut actors: Vec<ActorDeclaration> = Vec::new();
    actors.push(ActorDeclaration { id: actor_id, role: ActorRole::System });

    let mut referents: Vec<ReferentDeclaration> = Vec::new();
    push_referents(&mut referents, normalized.zones.as_slice(), version, "referent/zone/", 0);
    assert forall|i: int| 0 <= i < normalized.zones@.len() implies (#[trigger] referents@[i]).id.0@
        == derived_id(
        DeterministicIdKind::Referent,
        normalized.declaration_version@,
        "referent/zone/"@ + normalized.zones@[i].name@,
    ) && referents@[i].sort.key() == (10int, "zone"@) by {
        assert(referents@[0 + i] == referents@[i]);
    }
    push_referents(&mut referents, normalized.boundaries.as_slice(), version, "boundary/", 1);
    push_referents(&mut referents, normalized.routes.as_slice(), version, "edge/route/", 3);
    let outside_referent_id = ReferentId::from_bytes(
        derive_deterministic_id(DeterministicIdKind::Referent, version, "referent/outside/default"),
    );
    referents.push(
        ReferentDeclaration {
            id: outside_referent_id,
            sort: ReferentSort::Custom { name: NonEmptyString::new_unchecked("outside") },
        },
    );

    let boundaries = build_boundaries(&normalized);
    let edges = build_edges(&normalized);
    let scopes = build_scopes(&normalized, actor_id);
    let (requirements, policies) = build_requirements_and_policies(&normalized, actor_id);
    let theory = CoreTheoryLibrary {
        model,
        actors,
        referents,
        boundaries,
        edges,
        scopes,
        requirements,
        policies,
        evidence_sources: Vec::new(),
        observations: Vec::new(),
        evaluations: Vec::new(),
    };
    proof {
        let nz = normalized.zones@.len();
        let nb = normalized.boundaries@.len();
        assert forall|i: int| 0 <= i < nb implies (#[trigger] theory.referents@[nz + i]).id.0@
            == derived_id(
            DeterministicIdKind::Referent,
            normalized.declaration_version@,
            "boundary/"@ + normalized.boundaries@[i].name@,
        ) && theory.referents@[nz + i].sort is Boundary by {
            assert(theory.referents@[nz + i].sort.key() == (1int, Seq::<char>::empty()));
        }
        let nr = normalized.routes@.len();
        assert forall|i: int| 0 <= i < nr implies (#[trigger] theory.referents@[nz + nb + i]).id.0@
            == derived_id(
            DeterministicIdKind::Referent,
            normalized.declaration_version@,
            "edge/route/"@ + normalized.routes@[i].name@,
        ) && theory.referents@[nz + nb + i].sort is Edge by {
            assert(theory.referents@[nz + nb + i].sort.key() == (3int, Seq::<char>::empty()));
        }
        let v = normalized.declaration_version@;
    }
    CanonicalModel { normalized, paths, trace, theory }
}

/// Mapping commutes with appending.
pub proof fn lemma_map_push<A, B>(s: Seq<A>, x: A, f: spec_fn(A) -> B)
    ensures
        s.push(x).map_values(f) == s.map_values(f).push(f(x)),
{
    assert(s.push(x).map_values(f) =~= s.map_values(f).push(f(x)));
}

/// Mapping a prefix one longer appends the mapped element.
pub proof fn lemma_map_take<A, B>(s: Seq<A>, i: int, f: spec_fn(A) -> B)
    requires
        0 <= i < s.len(),
    ensures
        s.take(i + 1).map_values(f) == s.take(i).map_values(f).push(f(s[i])),
{
    assert(s.take(i + 1) =~= s.take(i).push(s[i]));
    lemma_map_push(s.take(i), s[i], f);
}

/// The texts of a path contract violation: namespace, path, reason.
pub open spec fn contract_view(v: CanonicalPathContractViolation) -> (Seq<char>, Seq<char>, Seq<char>) {
    (v.namespace@, v.path@, v.reason@)
}

/// The paths of a family, each with the namespace it is recorded under.
pub open spec fn in_namespace(ns: Seq<char>, pairs: Seq<(DeclarationName, String)>) -> Seq<
    (Seq<char>, Seq<char>),
> {
    pairs.map_values(|e: (DeclarationName, String)| (ns, e.1@))
}

/// Every canonical path with its namespace, in the order they are recorded.
pub open spec fn namespace_records(p: CanonicalPaths) -> Seq<(Seq<char>, Seq<char>)> {
    seq![("model"@, p.model@), ("actor"@, p.actor_system@)] + in_namespace("referent"@, p.zones@)
        + in_namespace("boundary"@, p.boundaries@) + in_namespace("scope"@, p.scopes@)
        + in_namespace("edge"@, p.routes@) + in_namespace("policy"@, p.policies@) + in_namespace(
        "requirement"@,
        p.requirements@,
    ) + in_namespace("scope"@, p.policy_scopes@)
}

/// A duplicate violation for every record that repeats an earlier one.
pub open spec fn duplicate_records(records: Seq<(Seq<char>, Seq<char>)>) -> Seq<
    (Seq<char>, Seq<char>, Seq<char>),
>
    decreases records.len(),
{
    if records.len() == 0 {
        Seq::empty()
    } else {
        let last = records.last();
        let rest = duplicate_records(records.drop_last());
        if records.drop_last().contains(last) {
            rest.push(
                (last.0, last.1, "duplicate canonical path (first seen as "@ + last.1 + ")"@),
            )
        } else {
            rest
        }
    }
}

/// A path carrying the prefix followed by a non-empty last segment.
pub open spec fn family_path_ok(path: Seq<char>, prefix: Seq<char>) -> bool {
    path.len() > prefix.len() && path.take(prefix.len() as int) == prefix && path.last() != '/'
}

/// The paths checked for their family prefix, with namespace and prefix.
pub open spec fn family_records(p: CanonicalPaths) -> Seq<(Seq<char>, Seq<char>, Seq<char>)> {
    seq![("model"@, p.model@, "model/"@), ("actor"@, p.actor_system@, "actor/"@)]
        + p.scopes@.map_values(|e: (DeclarationName, String)| ("scope"@, e.1@, "scope/"@))
        + p.policy_scopes@.map_values(|e: (DeclarationName, String)| ("scope"@, e.1@, "scope/"@))
        + p.policies@.map_values(|e: (DeclarationName, String)| ("policy"@, e.1@, "policy/"@))
        + p.requirements@.map_values(
        |e: (DeclarationName, String)| ("requirement"@, e.1@, "requirement/"@),
    )
}

/// A violation for every checked path outside its family.
pub open spec fn family_violations(records: Seq<(Seq<char>, Seq<char>, Seq<char>)>) -> Seq<
    (Seq<char>, Seq<char>, Seq<char>),
>
    decreases records.len(),
{
    if records.len() == 0 {
        Seq::empty()
    } else {
        let last = records.last();
        let rest = family_violations(records.drop_last());
        if !family_path_ok(last.1, last.2) {
            rest.push(
                (
                    last.0,
                    last.1,
                    "expected prefix `"@ + last.2 + "` with non-empty name segment"@,
                ),
            )
        } else {
            rest
        }
    }
}

/// Whether the path has the prefix followed by a non-empty last segment.
pub fn has_prefix_and_non_empty_name_segment(path: &str, required_prefix: &str) -> (r: bool)
    ensures
        r == family_path_ok(path@, required_prefix@),
{
    let cs = crate::text::chars_of(path);
    let ps = crate::text::chars_of(required_prefix);
    if cs.len() <= ps.len() {
        return false;
    }
    let mut i: usize = 0;
    while i < ps.len()
        invariant
            i <= ps@.len() < cs@.len(),
            cs@ == path@,
            ps@ == required_prefix@,
            cs@.take(i as int) == ps@.take(i as int),
        decreases ps@.len() - i,
    {
        if cs[i] != ps[i] {
            assert(cs@.take(ps@.len() as int)[i as int] != ps@[i as int]);
            assert(path@.take(required_prefix@.len() as int)[i as int] != required_prefix@[i as int]);
            assert(path@.take(required_prefix@.len() as int) != required_prefix@);
            return false;
        }
        i = i + 1;
        assert(cs@.take(i as int) =~= ps@.take(i as int));
    }
    assert(ps@.take(ps@.len() as int) =~= ps@);
    cs[cs.len() - 1] != '/'
}

/// Adds the records of a family of paths.
fn push_namespace(
    out: &mut Vec<(String, String)>,
    ns: &str,
    pairs: &Vec<(DeclarationName, String)>,
)
    ensures
        final(out)@.map_values(|r: (String, String)| (r.0@, r.1@)) == old(out)@.map_values(
            |r: (String, String)| (r.0@, r.1@),
        ) + in_namespace(ns@, pairs@),
{
    let ghost start = old(out)@.map_values(|r: (String, String)| (r.0@, r.1@));
    let ghost f = |r: (String, String)| (r.0@, r.1@);
    let ghost g = |e: (DeclarationName, String)| (ns@, e.1@);
    let mut i: usize = 0;
    while i < pairs.len()
        invariant
            i <= pairs@.len(),
            f == (|r: (String, String)| (r.0@, r.1@)),
            g == (|e: (DeclarationName, String)| (ns@, e.1@)),
            out@.map_values(f) == start + pairs@.take(i as int).map_values(g),
        decreases pairs@.len() - i,
    {
        let ghost before = out@;
        let item = (owned(ns), pairs[i].1.clone());
        out.push(item);
        proof {
            lemma_map_push(before, item, f);
            lemma_map_take(pairs@, i as int, g);
            assert(out@.map_values(f) =~= start + pairs@.take(i + 1).map_values(g));
        }
        i = i + 1;
    }
    assert(pairs@.take(pairs@.len() as int) =~= pairs@);
}

/// Adds the family records of a family of paths.
fn push_family(
    out: &mut Vec<(String, String, String)>,
    ns: &str,
    prefix: &str,
    pairs: &Vec<(DeclarationName, String)>,
)
    ensures
        final(out)@.map_values(|r: (String, String, String)| (r.0@, r.1@, r.2@)) == old(
            out,
        )@.map_values(|r: (String, String, String)| (r.0@, r.1@, r.2@)) + pairs@.map_values(
            |e: (DeclarationName, String)| (ns@, e.1@, prefix@),
        ),
{
    let ghost start = old(out)@.map_values(|r: (String, String, String)| (r.0@, r.1@, r.2@));
    let ghost f = |r: (String, String, String)| (r.0@, r.1@, r.2@);
    let ghost g = |e: (DeclarationName, String)| (ns@, e.1@, prefix@);
    let mut i: usize = 0;
    while i < pairs.len()
        invariant
            i <= pairs@.len(),
            f == (|r: (String, String, String)| (r.0@, r.1@, r.2@)),
            g == (|e: (DeclarationName, String)| (ns@, e.1@, prefix@)),
            out@.map_values(f) == start + pairs@.take(i as int).map_values(g),
        decreases pairs@.len() - i,
    {
        let ghost before = out@;
        let item = (owned(ns), pairs[i].1.clone(), owned(prefix));
        out.push(item);
        proof {
            lemma_map_push(before, item, f);
            lemma_map_take(pairs@, i as int, g);
            assert(out@.map_values(f) =~= start + pairs@.take(i + 1).map_values(g));
        }
        i = i + 1;
    }
    assert(pairs@.take(pairs@.len() as int) =~= pairs@);
}

/// Validates that canonical paths are unique within their namespace and
/// carry their family's prefix with a non-empty name.
pub fn validate_canonical_path_contracts(paths: &CanonicalPaths) -> (r: Vec<
    CanonicalPathContractViolation,
>)
    ensures
        r@.map_values(|v: CanonicalPathContractViolation| contract_view(v)) == duplicate_records(
            namespace_records(*paths),
        ) + family_violations(family_records(*paths)),
{
    let mut records: Vec<(String, String)> = Vec::new();
    records.push((owned("model"), paths.model.clone()));
    records.push((owned("actor"), paths.actor_system.clone()));
    assert(records@.map_values(|r: (String, String)| (r.0@, r.1@)) =~= seq![
        ("model"@, paths.model@),
        ("actor"@, paths.actor_system@),
    ]);
    push_namespace(&mut records, "referent", &paths.zones);
    push_namespace(&mut records, "boundary", &paths.boundaries);
    push_namespace(&mut records, "scope", &paths.scopes);
    push_namespace(&mut records, "edge", &paths.routes);
    push_namespace(&mut records, "policy", &paths.policies);
    push_namespace(&mut records, "requirement", &paths.requirements);
    push_namespace(&mut records, "scope", &paths.policy_scopes);
    let ghost rv = records@.map_values(|r: (String, String)| (r.0@, r.1@));
    assert(rv == namespace_records(*paths));

    let mut violations: Vec<CanonicalPathContractViolation> = Vec::new();
    let mut i: usize = 0;
    while i < records.len()
        invariant
            i <= records@.len(),
            rv == records@.map_values(|r: (String, String)| (r.0@, r.1@)),
            violations@.map_values(|v: CanonicalPathContractViolation| contract_view(v))
                == duplicate_records(rv.take(i as int)),
        decreases records@.len() - i,
    {
        let mut seen = false;
        let mut k: usize = 0;
        while k < i
            invariant
                k <= i < records@.len(),
                rv == records@.map_values(|r: (String, String)| (r.0@, r.1@)),
                seen == exists|m: int| 0 <= m < k && rv[m] == rv[i as int],
            decreases i - k,
        {
            assert(rv[k as int] == (records@[k as int].0@, records@[k as int].1@));
            assert(rv[i as int] == (records@[i as int].0@, records@[i as int].1@));
            if str_eq(records[k].0.as_str(), records[i].0.as_str()) && str_eq(
                records[k].1.as_str(),
                records[i].1.as_str(),
            ) {
                seen = true;
            }
            k = k + 1;
        }
        proof {
            if seen {
                let m = choose|m: int| 0 <= m < i && rv[m] == rv[i as int];
                assert(rv.take(i as int)[m] == rv[i as int]);
            }
            if rv.take(i as int).contains(rv[i as int]) {
                let m = choose|m: int| 0 <= m < i && rv.take(i as int)[m] == rv[i as int];
                assert(rv[m] == rv[i as int]);
            }
        }
        let ghost before = violations@.map_values(|v: CanonicalPathContractViolation| contract_view(v));
        proof {
            assert(rv.take(i + 1).drop_last() == rv.take(i as int));
        }
        if seen {
            let mut reason = owned("duplicate canonical path (first seen as ");
            push_str(&mut reason, records[i].1.as_str());
            push_str(&mut reason, ")");
            let v = CanonicalPathContractViolation {
                namespace: records[i].0.clone(),
                path: records[i].1.clone(),
                reason,
            };
            let ghost prior = violations@;
            violations.push(v);
            proof {
                lemma_map_push(prior, v, |v: CanonicalPathContractViolation| contract_view(v));
            }
        }
        assert(rv[i as int] == (records@[i as int].0@, records@[i as int].1@));
        assert(rv.take(i + 1).last() == rv[i as int]);
        assert(violations@.map_values(|v: CanonicalPathContractViolation| contract_view(v))
            =~= duplicate_records(rv.take(i + 1)));
        i = i + 1;
    }
    assert(rv.take(records@.len() as int) =~= rv);

    let ghost dup_part = violations@.map_values(|v: CanonicalPathContractViolation| contract_view(v));
    let mut families: Vec<(String, String, String)> = Vec::new();
    families.push((owned("model"), paths.model.clone(), owned("model/")));
    families.push((owned("actor"), paths.actor_system.clone(), owned("actor/")));
    assert(families@.map_values(|r: (String, String, String)| (r.0@, r.1@, r.2@)) =~= seq![
        ("model"@, paths.model@, "model/"@),
        ("actor"@, paths.actor_system@, "actor/"@),
    ]);
    push_family(&mut families, "scope", "scope/", &paths.scopes);
    push_family(&mut families, "scope", "scope/", &paths.policy_scopes);
    push_family(&mut families, "policy", "policy/", &paths.policies);
    push_family(&mut families, "requirement", "requirement/", &paths.requirements);
    let ghost fv = families@.map_values(|r: (String, String, String)| (r.0@, r.1@, r.2@));
    assert(fv == family_records(*paths));
    let mut f: usize = 0;
    while f < families.len()
        invariant
            f <= families@.len(),
            fv == families@.map_values(|r: (String, String, String)| (r.0@, r.1@, r.2@)),
            violations@.map_values(|v: CanonicalPathContractViolation| contract_view(v)) == dup_part
                + family_violations(fv.take(f as int)),
        decreases families@.len() - f,
    {
        proof {
            assert(fv.take(f + 1).drop_last() == fv.take(f as int));
        }
        let ok = has_prefix_and_non_empty_name_segment(
            families[f].1.as_str(),
            families[f].2.as_str(),
        );
        if !ok {
            let mut reason = owned("expected prefix `");
            push_str(&mut reason, families[f].2.as_str());
            push_str(&mut reason, "` with non-empty name segment");
            let v = CanonicalPathContractViolation {
                namespace: families[f].0.clone(),
                path: families[f].1.clone(),
                reason,
            };
            let ghost prior = violations@;
            violations.push(v);
            proof {
                lemma_map_push(prior, v, |v: CanonicalPathContractViolation| contract_view(v));
            }
        }
        assert(fv[f as int] == (families@[f as int].0@, families@[f as int].1@, families@[f as int].2@));
        assert(fv.take(f + 1).last() == fv[f as int]);
        assert(violations@.map_values(|v: CanonicalPathContractViolation| contract_view(v))
            =~= dup_part + family_violations(fv.take(f + 1)));
        f = f + 1;
    }
    assert(fv.take(families@.len() as int) =~= fv);
    violations
}

/// The paths of a family, each with the kind its id is derived under.
pub open spec fn family_ids(kind: DeterministicIdKind, pairs: Seq<(DeclarationName, String)>) -> Seq<
    (DeterministicIdKind, Seq<char>),
> {
    pairs.map_values(|e: (DeclarationName, String)| (kind, e.1@))
}

/// The ids a boundary path gives: the boundary, its two surfaces and its
/// referent.
pub open spec fn boundary_id_records(pairs: Seq<(DeclarationName, String)>) -> Seq<
    (DeterministicIdKind, Seq<char>),
>
    decreases pairs.len(),
{
    if pairs.len() == 0 {
        Seq::empty()
    } else {
        let p = pairs.last().1@;
        boundary_id_records(pairs.drop_last()) + seq![
            (DeterministicIdKind::Boundary, p),
            (DeterministicIdKind::Surface, p + "/surface/a"@),
            (DeterministicIdKind::Surface, p + "/surface/b"@),
            (DeterministicIdKind::Referent, p),
        ]
    }
}

/// The ids a route path gives: the edge and its referent.
pub open spec fn route_id_records(pairs: Seq<(DeclarationName, String)>) -> Seq<
    (DeterministicIdKind, Seq<char>),
>
    decreases pairs.len(),
{
    if pairs.len() == 0 {
        Seq::empty()
    } else {
        let p = pairs.last().1@;
        route_id_records(pairs.drop_last()) + seq![
            (DeterministicIdKind::Edge, p),
            (DeterministicIdKind::Referent, p),
        ]
    }
}

/// Every id the canonical model derives, with its kind and path, in the order
/// they are recorded.
pub open spec fn id_records(p: CanonicalPaths) -> Seq<(DeterministicIdKind, Seq<char>)> {
    seq![(DeterministicIdKind::Model, p.model@), (DeterministicIdKind::Actor, p.actor_system@)]
        + family_ids(DeterministicIdKind::Referent, p.zones@) + seq![
        (DeterministicIdKind::Referent, outside_path()),
    ] + boundary_id_records(p.boundaries@) + route_id_records(p.routes@) + family_ids(
        DeterministicIdKind::Scope,
        p.scopes@,
    ) + family_ids(DeterministicIdKind::Scope, p.policy_scopes@) + family_ids(
        DeterministicIdKind::Policy,
        p.policies@,
    ) + family_ids(DeterministicIdKind::Requirement, p.requirements@)
}

/// Two records give the same id of the same kind.
pub open spec fn same_key(a: (DeterministicIdKind, Seq<char>), b: (DeterministicIdKind, Seq<char>), v: Seq<char>) -> bool {
    a.0 == b.0 && derived_id(a.0, v, a.1) == derived_id(b.0, v, b.1)
}

/// The first record at or after `j` and before `i` with the key of record `i`.
pub open spec fn earliest_key(
    records: Seq<(DeterministicIdKind, Seq<char>)>,
    v: Seq<char>,
    i: int,
    j: int,
) -> Option<int>
    decreases i - j,
{
    if j >= i || j < 0 {
        None
    } else if same_key(records[j], records[i], v) {
        Some(j)
    } else {
        earliest_key(records, v, i, j + 1)
    }
}

/// The collision record `i` makes: the first record with its key, when that
/// record has another path.
pub open spec fn collision_at(records: Seq<(DeterministicIdKind, Seq<char>)>, v: Seq<char>, i: int) -> Seq<
    (DeterministicIdKind, Seq<char>, Seq<char>),
> {
    match earliest_key(records, v, i, 0) {
        Some(j) => if records[j].1 != records[i].1 {
            seq![(records[i].0, records[j].1, records[i].1)]
        } else {
            Seq::empty()
        },
        None => Seq::empty(),
    }
}

/// The collisions of the first `n` records.
pub open spec fn collisions_upto(records: Seq<(DeterministicIdKind, Seq<char>)>, v: Seq<char>, n: int) -> Seq<
    (DeterministicIdKind, Seq<char>, Seq<char>),
>
    decreases n,
{
    if n <= 0 {
        Seq::empty()
    } else {
        collisions_upto(records, v, n - 1) + collision_at(records, v, n - 1)
    }
}

/// The texts of a collision: kind, first path, second path.
pub open spec fn collision_view(c: DeterministicIdCollision) -> (DeterministicIdKind, Seq<char>, Seq<char>) {
    (c.kind, c.first_path@, c.second_path@)
}

/// Adds the id records of a family of paths.
fn push_ids(
    out: &mut Vec<(DeterministicIdKind, String)>,
    kind: DeterministicIdKind,
    pairs: &Vec<(DeclarationName, String)>,
)
    ensures
        final(out)@.map_values(|r: (DeterministicIdKind, String)| (r.0, r.1@)) == old(
            out,
        )@.map_values(|r: (DeterministicIdKind, String)| (r.0, r.1@)) + family_ids(kind, pairs@),
{
    let ghost start = old(out)@.map_values(|r: (DeterministicIdKind, String)| (r.0, r.1@));
    let ghost f = |r: (DeterministicIdKind, String)| (r.0, r.1@);
    let ghost g = |e: (DeclarationName, String)| (kind, e.1@);
    let mut i: usize = 0;
    while i < pairs.len()
        invariant
            i <= pairs@.len(),
            f == (|r: (DeterministicIdKind, String)| (r.0, r.1@)),
            g == (|e: (DeclarationName, String)| (kind, e.1@)),
            out@.map_values(f) == start + pairs@.take(i as int).map_values(g),
        decreases pairs@.len() - i,
    {
        let ghost before = out@;
        let item = (kind, pairs[i].1.clone());
        out.push(item);
        proof {
            lemma_map_push(before, item, f);
            lemma_map_take(pairs@, i as int, g);
            assert(out@.map_values(f) =~= start + pairs@.take(i + 1).map_values(g));
        }
        i = i + 1;
    }
    assert(pairs@.take(pairs@.len() as int) =~= pairs@);
}

/// Appends one id record.
fn push_id(out: &mut Vec<(DeterministicIdKind, String)>, kind: DeterministicIdKind, path: String)
    ensures
        final(out)@.map_values(|r: (DeterministicIdKind, String)| (r.0, r.1@)) == old(
            out,
        )@.map_values(|r: (DeterministicIdKind, String)| (r.0, r.1@)).push((kind, path@)),
{
    let ghost before = out@;
    out.push((kind, path));
    proof {
        lemma_map_push(before, (kind, path), |r: (DeterministicIdKind, String)| (r.0, r.1@));
    }
}

/// Adds the id records of the boundary paths.
fn push_boundary_ids(out: &mut Vec<(DeterministicIdKind, String)>, pairs: &Vec<(DeclarationName, String)>)
    ensures
        final(out)@.map_values(|r: (DeterministicIdKind, String)| (r.0, r.1@)) == old(
            out,
        )@.map_values(|r: (DeterministicIdKind, String)| (r.0, r.1@)) + boundary_id_records(pairs@),
{
    let ghost start = old(out)@.map_values(|r: (DeterministicIdKind, String)| (r.0, r.1@));
    let mut i: usize = 0;
    while i < pairs.len()
        invariant
            i <= pairs@.len(),
            out@.map_values(|r: (DeterministicIdKind, String)| (r.0, r.1@)) == start
                + boundary_id_records(pairs@.take(i as int)),
        decreases pairs@.len() - i,
    {
        let p = &pairs[i].1;
        push_id(out, DeterministicIdKind::Boundary, p.clone());
        push_id(out, DeterministicIdKind::Surface, prefixed(p.as_str(), "/surface/a"));
        push_id(out, DeterministicIdKind::Surface, prefixed(p.as_str(), "/surface/b"));
        push_id(out, DeterministicIdKind::Referent, p.clone());
        proof {
            assert(pairs@.take(i + 1).drop_last() =~= pairs@.take(i as int));
        }
        i = i + 1;
        assert(out@.map_values(|r: (DeterministicIdKind, String)| (r.0, r.1@)) =~= start
            + boundary_id_records(pairs@.take(i as int)));
    }
    assert(pairs@.take(pairs@.len() as int) =~= pairs@);
}

/// Adds the id records of the route paths.
fn push_route_ids(out: &mut Vec<(DeterministicIdKind, String)>, pairs: &Vec<(DeclarationName, String)>)
    ensures
        final(out)@.map_values(|r: (DeterministicIdKind, String)| (r.0, r.1@)) == old(
            out,
        )@.map_values(|r: (DeterministicIdKind, String)| (r.0, r.1@)) + route_id_records(pairs@),
{
    let ghost start = old(out)@.map_values(|r: (DeterministicIdKind, String)| (r.0, r.1@));
    let mut i: usize = 0;
    while i < pairs.len()
        invariant
            i <= pairs@.len(),
            out@.map_values(|r: (DeterministicIdKind, String)| (r.0, r.1@)) == start
                + route_id_records(pairs@.take(i as int)),
        decreases pairs@.len() - i,
    {
        let p = &pairs[i].1;
        push_id(out, DeterministicIdKind::Edge, p.clone());
        push_id(out, DeterministicIdKind::Referent, p.clone());
        proof {
            assert(pairs@.take(i + 1).drop_last() =~= pairs@.take(i as int));
        }
        i = i + 1;
        assert(out@.map_values(|r: (DeterministicIdKind, String)| (r.0, r.1@)) =~= start
            + route_id_records(pairs@.take(i as int)));
    }
    assert(pairs@.take(pairs@.len() as int) =~= pairs@);
}

/// The first record before `i` with the kind and id of record `i`.
fn earliest_match(
    records: &Vec<(DeterministicIdKind, String)>,
    ids: &Vec<[u8; 16]>,
    i: usize,
    v: Ghost<Seq<char>>,
) -> (r: Option<usize>)
    requires
        i < records@.len(),
        ids@.len() == records@.len(),
        forall|k: int|
            0 <= k < ids@.len() ==> (#[trigger] ids@[k])@ == derived_id(
                records@[k].0,
                v@,
                records@[k].1@,
            ),
    ensures
        r matches Some(j) ==> j < i && earliest_key(
            records@.map_values(|r: (DeterministicIdKind, String)| (r.0, r.1@)),
            v@,
            i as int,
            0,
        ) == Some(j as int),
        r is None ==> earliest_key(
            records@.map_values(|r: (DeterministicIdKind, String)| (r.0, r.1@)),
            v@,
            i as int,
            0,
        ) is None,
{
    let ghost rv = records@.map_values(|r: (DeterministicIdKind, String)| (r.0, r.1@));
    let mut j: usize = 0;
    while j < i
        invariant
            j <= i < records@.len(),
            rv == records@.map_values(|r: (DeterministicIdKind, String)| (r.0, r.1@)),
            ids@.len() == records@.len(),
            forall|k: int|
                0 <= k < ids@.len() ==> (#[trigger] ids@[k])@ == derived_id(
                    records@[k].0,
                    v@,
                    records@[k].1@,
                ),
            earliest_key(rv, v@, i as int, 0) == earliest_key(rv, v@, i as int, j as int),
        decreases i - j,
    {
        let same = records[j].0 == records[i].0 && crate::kernel::id::same_bytes(&ids[j], &ids[i]);
        proof {
            assert(rv[j as int] == (records@[j as int].0, records@[j as int].1@));
            assert(rv[i as int] == (records@[i as int].0, records@[i as int].1@));
            assert(ids@[j as int]@ == derived_id(rv[j as int].0, v@, rv[j as int].1));
            assert(ids@[i as int]@ == derived_id(rv[i as int].0, v@, rv[i as int].1));
            if !same && records@[j as int].0 == records@[i as int].0 {
                if ids@[j as int]@ == ids@[i as int]@ {
                    assert(ids@[j as int] =~= ids@[i as int]);
                }
            }
        }
        if same {
            return Some(j);
        }
        j = j + 1;
    }
    None
}

/// Reports every pair of distinct canonical paths whose derived ids of one
/// kind coincide, naming the first path recorded with that id.
pub fn detect_deterministic_id_collisions(paths: &CanonicalPaths, schema_version: &SemVer) -> (r: Vec<
    DeterministicIdCollision,
>)
    ensures
        r@.map_values(|c: DeterministicIdCollision| collision_view(c)) == collisions_upto(
            id_records(*paths),
            schema_version@,
            id_records(*paths).len() as int,
        ),
{
    let mut records: Vec<(DeterministicIdKind, String)> = Vec::new();
    push_id(&mut records, DeterministicIdKind::Model, paths.model.clone());
    push_id(&mut records, DeterministicIdKind::Actor, paths.actor_system.clone());
    push_ids(&mut records, DeterministicIdKind::Referent, &paths.zones);
    push_id(&mut records, DeterministicIdKind::Referent, owned("referent/outside/default"));
    push_boundary_ids(&mut records, &paths.boundaries);
    push_route_ids(&mut records, &paths.routes);
    push_ids(&mut records, DeterministicIdKind::Scope, &paths.scopes);
    push_ids(&mut records, DeterministicIdKind::Scope, &paths.policy_scopes);
    push_ids(&mut records, DeterministicIdKind::Policy, &paths.policies);
    push_ids(&mut records, DeterministicIdKind::Requirement, &paths.requirements);
    let ghost rv = records@.map_values(|r: (DeterministicIdKind, String)| (r.0, r.1@));
    assert(rv =~= id_records(*paths));
    let v = schema_version;

    let mut ids: Vec<[u8; 16]> = Vec::new();
    let mut m: usize = 0;
    while m < records.len()
        invariant
            m <= records@.len(),
            rv == records@.map_values(|r: (DeterministicIdKind, String)| (r.0, r.1@)),
            ids@.len() == m,
            forall|k: int| 0 <= k < m ==> (#[trigger] ids@[k])@ == derived_id(rv[k].0, v@, rv[k].1),
        decreases records@.len() - m,
    {
        ids.push(derive_deterministic_id(records[m].0, v, records[m].1.as_str()));
        m = m + 1;
    }

    let mut collisions: Vec<DeterministicIdCollision> = Vec::new();
    let mut i: usize = 0;
    while i < records.len()
        invariant
            i <= records@.len(),
            rv == records@.map_values(|r: (DeterministicIdKind, String)| (r.0, r.1@)),
            ids@.len() == records@.len(),
            forall|k: int| 0 <= k < ids@.len() ==> (#[trigger] ids@[k])@ == derived_id(rv[k].0, v@, rv[k].1),
            collisions@.map_values(|c: DeterministicIdCollision| collision_view(c))
                == collisions_upto(rv, v@, i as int),
        decreases records@.len() - i,
    {
        let found = earliest_match(&records, &ids, i, Ghost(v@));
        proof {
            assert(rv[i as int] == (records@[i as int].0, records@[i as int].1@));
        }
        let ghost prior = collisions@;
        match found {
            Some(j) => {
                assert(rv[j as int] == (records@[j as int].0, records@[j as int].1@));
                if !str_eq(records[j].1.as_str(), records[i].1.as_str()) {
                    let c = DeterministicIdCollision {
                        kind: records[i].0,
                        first_path: records[j].1.clone(),
                        second_path: records[i].1.clone(),
                    };
                    collisions.push(c);
                    proof {
                        lemma_map_push(prior, c, |c: DeterministicIdCollision| collision_view(c));
                    }
                }
            },
            None => {},
        }
        proof {
            assert(collisions_upto(rv, v@, i + 1) == collisions_upto(rv, v@, i as int)
                + collision_at(rv, v@, i as int));
            match found {
                Some(j) => {
                    assert(earliest_key(rv, v@, i as int, 0) == Some(j as int));
                    assert(rv[j as int] == (records@[j as int].0, records@[j as int].1@));
                },
                None => {
                    assert(earliest_key(rv, v@, i as int, 0) is None);
                },
            }
        }
        assert(collisions@.map_values(|c: DeterministicIdCollision| collision_view(c))
            =~= collisions_upto(rv, v@, i + 1));
        i = i + 1;
    }
    collisions
}

/// A schema version usable as an id domain: three dot-separated runs of
/// ASCII digits.
pub fn is_schema_version_domain_valid(version: &str) -> (r: bool)
    ensures
        r == crate::kernel::scalars::semver_ok(version@),
{
    crate::kernel::scalars::is_semver(version)
}

/// Texts in strictly increasing order.
pub open spec fn texts_increasing(ks: Seq<Seq<char>>) -> bool {
    forall|i: int, j: int| 0 <= i < j < ks.len() ==> seq_lt(ks[i], ks[j])
}

/// The keys of a map in increasing order.
pub open spec fn sorted_keys(m: Map<Seq<char>, Seq<char>>) -> Seq<Seq<char>> {
    choose|ks: Seq<Seq<char>>| texts_increasing(ks) && ks.to_set() == m.dom()
}

/// Two increasing sequences of the same texts are the same sequence.
pub proof fn lemma_increasing_unique(x: Seq<Seq<char>>, y: Seq<Seq<char>>)
    requires
        texts_increasing(x),
        texts_increasing(y),
        x.to_set() == y.to_set(),
    ensures
        x == y,
    decreases x.len() + y.len(),
{
    if x.len() == 0 && y.len() == 0 {
        assert(x =~= y);
    } else if x.len() == 0 {
        assert(y.to_set().contains(y[0]));
    } else if y.len() == 0 {
        assert(x.to_set().contains(x[0]));
    } else {
        assert(x.to_set().contains(x[0]));
        assert(y.to_set().contains(y[0]));
        let i = choose|i: int| 0 <= i < x.len() && x[i] == y[0];
        let k = choose|k: int| 0 <= k < y.len() && y[k] == x[0];
        if i > 0 && k > 0 {
            crate::text::lemma_seq_lt_asymmetric(x[0], x[i]);
        }
        if i > 0 && k == 0 {
            crate::text::lemma_seq_lt_irreflexive(x[0]);
        }
        if i == 0 && k > 0 {
            crate::text::lemma_seq_lt_irreflexive(y[0]);
        }
        let xs = x.drop_first();
        let ys = y.drop_first();
        assert forall|t: Seq<char>| xs.to_set().contains(t) implies ys.to_set().contains(t) by {
            let a = choose|a: int| 0 <= a < xs.len() && xs[a] == t;
            assert(x[a + 1] == t);
            assert(x.to_set().contains(t));
            let b = choose|b: int| 0 <= b < y.len() && y[b] == t;
            if b == 0 {
                crate::text::lemma_seq_lt_irreflexive(x[0]);
            }
            assert(ys[b - 1] == t);
        }
        assert forall|t: Seq<char>| ys.to_set().contains(t) implies xs.to_set().contains(t) by {
            let a = choose|a: int| 0 <= a < ys.len() && ys[a] == t;
            assert(y[a + 1] == t);
            assert(y.to_set().contains(t));
            let b = choose|b: int| 0 <= b < x.len() && x[b] == t;
            if b == 0 {
                crate::text::lemma_seq_lt_irreflexive(y[0]);
            }
            assert(xs[b - 1] == t);
        }
        assert(xs.to_set() =~= ys.to_set());
        lemma_increasing_unique(xs, ys);
        assert(x =~= seq![x[0]] + xs);
        assert(y =~= seq![y[0]] + ys);
    }
}

/// Path of each name, the last pair naming it winning.
pub open spec fn last_map(pairs: Seq<(DeclarationName, String)>) -> Map<Seq<char>, Seq<char>>
    decreases pairs.len(),
{
    if pairs.len() == 0 {
        Map::empty()
    } else {
        last_map(pairs.drop_last()).insert(pairs.last().0@, pairs.last().1@)
    }
}

/// The last trace entry carrying the name.
pub open spec fn last_entry(actual: Seq<(DeclarationName, CanonicalTraceEntry)>, k: Seq<char>) -> Option<
    CanonicalTraceEntry,
>
    decreases actual.len(),
{
    if actual.len() == 0 {
        None
    } else if actual.last().0@ == k {
        Some(actual.last().1)
    } else {
        last_entry(actual.drop_last(), k)
    }
}

/// The texts of a trace entry violation: namespace, name, reason.
pub open spec fn trace_view(v: TraceEntryViolation) -> (Seq<char>, Seq<char>, Seq<char>) {
    (v.namespace@, v.declaration_name@, v.reason@)
}

/// The checks of one expected name: its entry exists, with the expected path
/// and the id derived from it.
pub open spec fn entry_checks(
    ns: Seq<char>,
    kind: DeterministicIdKind,
    v: Seq<char>,
    k: Seq<char>,
    expected_path: Seq<char>,
    actual: Seq<(DeclarationName, CanonicalTraceEntry)>,
) -> Seq<(Seq<char>, Seq<char>, Seq<char>)> {
    match last_entry(actual, k) {
        None => seq![(ns, k, "missing trace entry"@)],
        Some(e) => (if e.canonical_path@ != expected_path {
            seq![(ns, k, "canonical path mismatch"@)]
        } else {
            Seq::empty()
        }) + (if e.deterministic_id@ != derived_id(kind, v, expected_path) {
            seq![(ns, k, "deterministic id mismatch"@)]
        } else {
            Seq::empty()
        }),
    }
}

/// The checks of the first `n` names of `ks`.
pub open spec fn checks_upto(
    ns: Seq<char>,
    kind: DeterministicIdKind,
    v: Seq<char>,
    ks: Seq<Seq<char>>,
    m: Map<Seq<char>, Seq<char>>,
    actual: Seq<(DeclarationName, CanonicalTraceEntry)>,
    n: int,
) -> Seq<(Seq<char>, Seq<char>, Seq<char>)>
    decreases n,
{
    if n <= 0 {
        Seq::empty()
    } else {
        checks_upto(ns, kind, v, ks, m, actual, n - 1) + entry_checks(
            ns,
            kind,
            v,
            ks[n - 1],
            m[ks[n - 1]],
            actual,
        )
    }
}

/// The violations of one family of trace entries: for each expected name in
/// increasing order (the last expected path of a name winning), its last
/// entry must exist and carry the expected path and derived id.
pub open spec fn family_trace_violations(
    ns: Seq<char>,
    kind: DeterministicIdKind,
    v: Seq<char>,
    expected: Seq<(DeclarationName, String)>,
    actual: Seq<(DeclarationName, CanonicalTraceEntry)>,
) -> Seq<(Seq<char>, Seq<char>, Seq<char>)> {
    let m = last_map(expected);
    let ks = sorted_keys(m);
    checks_upto(ns, kind, v, ks, m, actual, ks.len() as int)
}

/// The names of pairs.
pub open spec fn pair_names(u: Seq<(DeclarationName, String)>) -> Seq<Seq<char>> {
    u.map_values(|e: (DeclarationName, String)| e.0@)
}

/// Position at which a name goes into pairs in increasing name order, and
/// whether it is already there.
fn locate_name(u: &Vec<(DeclarationName, String)>, name: &DeclarationName) -> (r: (usize, bool))
    requires
        texts_increasing(pair_names(u@)),
    ensures
        r.0 <= u@.len(),
        r.1 ==> r.0 < u@.len() && u@[r.0 as int].0@ == name@,
        !r.1 ==> forall|k: int| 0 <= k < r.0 ==> seq_lt(#[trigger] u@[k].0@, name@),
        !r.1 ==> forall|k: int| r.0 <= k < u@.len() ==> seq_lt(name@, #[trigger] u@[k].0@),
{
    let mut k: usize = 0;
    while k < u.len()
        invariant
            k <= u@.len(),
            texts_increasing(pair_names(u@)),
            forall|m: int| 0 <= m < k ==> seq_lt(#[trigger] u@[m].0@, name@),
        decreases u@.len() - k,
    {
        if u[k].0.same_text(name) {
            return (k, true);
        }
        if name.precedes(&u[k].0) {
            assert forall|m: int| k <= m < u@.len() implies seq_lt(name@, #[trigger] u@[m].0@) by {
                if m > k {
                    assert(pair_names(u@)[k as int] == u@[k as int].0@);
                    assert(pair_names(u@)[m] == u@[m].0@);
                    crate::text::lemma_seq_lt_transitive(name@, u@[k as int].0@, u@[m].0@);
                }
            }
            return (k, false);
        }
        proof {
            crate::text::lemma_seq_lt_total(name@, u@[k as int].0@);
        }
        k = k + 1;
    }
    (k, false)
}

/// The expected (name, path) pairs with one pair per name, the last path of
/// a name winning, in increasing name order.
fn expected_by_name(expected: &[(DeclarationName, String)]) -> (r: Vec<(DeclarationName, String)>)
    ensures
        texts_increasing(pair_names(r@)),
        pair_names(r@).to_set() == last_map(expected@).dom(),
        forall|k: int| 0 <= k < r@.len() ==> last_map(expected@)[(#[trigger] r@[k]).0@] == r@[k].1@,
{
    let mut u: Vec<(DeclarationName, String)> = Vec::new();
    let mut i: usize = 0;
    assert(pair_names(u@).to_set() =~= last_map(expected@.take(0)).dom());
    while i < expected.len()
        invariant
            i <= expected@.len(),
            texts_increasing(pair_names(u@)),
            pair_names(u@).to_set() == last_map(expected@.take(i as int)).dom(),
            forall|k: int|
                0 <= k < u@.len() ==> last_map(expected@.take(i as int))[(#[trigger] u@[k]).0@]
                    == u@[k].1@,
        decreases expected@.len() - i,
    {
        let ghost before = u@;
        let ghost mp = last_map(expected@.take(i as int));
        let name = &expected[i].0;
        let path = &expected[i].1;
        assert(expected@.take(i + 1).drop_last() =~= expected@.take(i as int));
        assert(expected@.take(i + 1).last() == expected@[i as int]);
        let (pos, present) = locate_name(&u, name);
        if present {
            u.set(pos, (name.duplicate(), path.clone()));
            proof {
                assert(pair_names(u@) =~= pair_names(before));
                assert forall|k: int| 0 <= k < u@.len() implies last_map(
                    expected@.take(i + 1),
                )[(#[trigger] u@[k]).0@] == u@[k].1@ by {
                    if k != pos {
                        let pn = pair_names(before);
                        assert(pn[k] == before[k].0@);
                        assert(pn[pos as int] == before[pos as int].0@);
                        if before[k].0@ == name@ {
                            if k < pos {
                                assert(seq_lt(pn[k], pn[pos as int]));
                            } else {
                                assert(seq_lt(pn[pos as int], pn[k]));
                            }
                            crate::text::lemma_seq_lt_irreflexive(name@);
                        }
                    }
                }
                assert(pair_names(before).to_set().contains(name@)) by {
                    assert(pair_names(before)[pos as int] == name@);
                }
                assert(pair_names(u@).to_set() =~= last_map(expected@.take(i + 1)).dom());
            }
        } else {
            u.insert(pos, (name.duplicate(), path.clone()));
            proof {
                assert(pair_names(u@) =~= pair_names(before).insert(pos as int, name@));
                assert forall|a: int, b: int| 0 <= a < b < pair_names(u@).len() implies seq_lt(
                    pair_names(u@)[a],
                    pair_names(u@)[b],
                ) by {
                    let pn = pair_names(before);
                    if b < pos {
                        assert(pn[a] == before[a].0@ && pn[b] == before[b].0@);
                    } else if b == pos {
                        assert(pn[a] == before[a].0@);
                    } else if a < pos {
                        assert(pn[a] == before[a].0@ && pn[b - 1] == before[b - 1].0@);
                        crate::text::lemma_seq_lt_transitive(before[a].0@, name@, before[b - 1].0@);
                    } else if a == pos {
                        assert(pn[b - 1] == before[b - 1].0@);
                    } else {
                        assert(pn[a - 1] == before[a - 1].0@ && pn[b - 1] == before[b - 1].0@);
                    }
                }
                assert forall|k: int| 0 <= k < u@.len() implies last_map(
                    expected@.take(i + 1),
                )[(#[trigger] u@[k]).0@] == u@[k].1@ by {
                    if k < pos {
                        assert(u@[k] == before[k]);
                        assert(seq_lt(before[k].0@, name@));
                        if before[k].0@ == name@ {
                            crate::text::lemma_seq_lt_irreflexive(name@);
                        }
                    } else if k > pos {
                        assert(u@[k] == before[k - 1]);
                        assert(seq_lt(name@, before[k - 1].0@));
                        if before[k - 1].0@ == name@ {
                            crate::text::lemma_seq_lt_irreflexive(name@);
                        }
                    }
                }
                let pn = pair_names(before);
                let pu = pair_names(u@);
                assert forall|x: Seq<char>| pu.to_set().contains(x) implies pn.to_set().insert(
                    name@,
                ).contains(x) by {
                    let a = choose|a: int| 0 <= a < pu.len() && pu[a] == x;
                    if a < pos {
                        assert(pn[a] == x);
                    } else if a > pos {
                        assert(pn[a - 1] == x);
                    }
                }
                assert forall|x: Seq<char>| pn.to_set().insert(name@).contains(x) implies pu.to_set().contains(
                    x,
                ) by {
                    if x == name@ {
                        assert(pu[pos as int] == x);
                    } else {
                        let a = choose|a: int| 0 <= a < pn.len() && pn[a] == x;
                        if a < pos {
                            assert(pu[a] == x);
                        } else {
                            assert(pu[a + 1] == x);
                        }
                    }
                }
                assert(pair_names(u@).to_set() =~= last_map(expected@.take(i + 1)).dom());
            }
        }
        i = i + 1;
    }
    assert(expected@.take(expected@.len() as int) =~= expected@);
    u
}

/// The last trace entry carrying the name.
fn find_last_entry(actual: &[(DeclarationName, CanonicalTraceEntry)], name: &DeclarationName) -> (r:
    Option<usize>)
    ensures
        r matches Some(k) ==> k < actual@.len() && last_entry(actual@, name@) == Some(
            actual@[k as int].1,
        ),
        r is None ==> last_entry(actual@, name@) is None,
{
    let mut k: usize = actual.len();
    assert(actual@.take(k as int) =~= actual@);
    while k > 0
        invariant
            k <= actual@.len(),
            last_entry(actual@, name@) == last_entry(actual@.take(k as int), name@),
        decreases k,
    {
        assert(actual@.take(k as int).last() == actual@[k - 1]);
        assert(actual@.take(k as int).drop_last() =~= actual@.take(k - 1));
        if actual[k - 1].0.same_text(name) {
            return Some(k - 1);
        }
        k = k - 1;
    }
    None
}

/// Appends a violation with the three texts.
fn push_trace_violation(
    out: &mut Vec<TraceEntryViolation>,
    namespace: &str,
    name: &str,
    reason: &str,
)
    ensures
        final(out)@.map_values(|v: TraceEntryViolation| trace_view(v)) == old(out)@.map_values(
            |v: TraceEntryViolation| trace_view(v),
        ).push((namespace@, name@, reason@)),
{
    let ghost before = out@;
    let v = TraceEntryViolation {
        namespace: owned(namespace),
        declaration_name: owned(name),
        reason: owned(reason),
    };
    out.push(v);
    proof {
        lemma_map_push(before, v, |v: TraceEntryViolation| trace_view(v));
    }
}

/// Checks one family of trace entries against the expected paths.
fn validate_trace_entries(
    violations: &mut Vec<TraceEntryViolation>,
    namespace: &str,
    kind: DeterministicIdKind,
    expected_paths: &[(DeclarationName, String)],
    actual_entries: &[(DeclarationName, CanonicalTraceEntry)],
    schema_version: &SemVer,
)
    ensures
        final(violations)@.map_values(|v: TraceEntryViolation| trace_view(v)) == old(
            violations,
        )@.map_values(|v: TraceEntryViolation| trace_view(v)) + family_trace_violations(
            namespace@,
            kind,
            schema_version@,
            expected_paths@,
            actual_entries@,
        ),
{
    let u = expected_by_name(expected_paths);
    let ghost m = last_map(expected_paths@);
    let ghost ks = pair_names(u@);
    proof {
        lemma_increasing_unique(ks, sorted_keys(m));
    }
    let ghost start = old(violations)@.map_values(|v: TraceEntryViolation| trace_view(v));
    let mut i: usize = 0;
    while i < u.len()
        invariant
            i <= u@.len(),
            ks == pair_names(u@),
            forall|k: int| 0 <= k < u@.len() ==> m[(#[trigger] u@[k]).0@] == u@[k].1@,
            violations@.map_values(|v: TraceEntryViolation| trace_view(v)) == start + checks_upto(
                namespace@,
                kind,
                schema_version@,
                ks,
                m,
                actual_entries@,
                i as int,
            ),
        decreases u@.len() - i,
    {
        let name = &u[i].0;
        let expected_path = &u[i].1;
        assert(ks[i as int] == name@);
        match find_last_entry(actual_entries, name) {
            None => {
                push_trace_violation(violations, namespace, name.as_str(), "missing trace entry");
            },
            Some(k) => {
                let entry = &actual_entries[k].1;
                if !str_eq(entry.canonical_path.as_str(), expected_path.as_str()) {
                    push_trace_violation(
                        violations,
                        namespace,
                        name.as_str(),
                        "canonical path mismatch",
                    );
                }
                let expected_id = derive_deterministic_id(kind, schema_version, expected_path.as_str());
                let same = crate::kernel::id::same_bytes(&entry.deterministic_id, &expected_id);
                proof {
                    if !same && entry.deterministic_id@ == expected_id@ {
                        assert(entry.deterministic_id =~= expected_id);
                    }
                }
                if !same {
                    push_trace_violation(
                        violations,
                        namespace,
                        name.as_str(),
                        "deterministic id mismatch",
                    );
                }
            },
        }
        assert(violations@.map_values(|v: TraceEntryViolation| trace_view(v)) =~= start
            + checks_upto(namespace@, kind, schema_version@, ks, m, actual_entries@, i + 1));
        i = i + 1;
    }
}

/// The violations of the trace map of a canonical model against its paths.
pub open spec fn trace_contract_violations(m: CanonicalModel) -> Seq<(Seq<char>, Seq<char>, Seq<char>)> {
    let v = m.normalized.declaration_version@;
    let p = m.paths;
    let t = m.trace;
    (if t.model.canonical_path@ != p.model@ {
        seq![("model"@, "model"@, "canonical path mismatch"@)]
    } else {
        Seq::empty()
    }) + (if t.model.deterministic_id@ != derived_id(DeterministicIdKind::Model, v, p.model@) {
        seq![("model"@, "model"@, "deterministic id mismatch"@)]
    } else {
        Seq::empty()
    }) + family_trace_violations("zone"@, DeterministicIdKind::Referent, v, p.zones@, t.zones@)
        + family_trace_violations("boundary"@, DeterministicIdKind::Boundary, v, p.boundaries@, t.boundaries@)
        + family_trace_violations("route"@, DeterministicIdKind::Edge, v, p.routes@, t.routes@)
        + family_trace_violations("scope"@, DeterministicIdKind::Scope, v, p.scopes@, t.scopes@)
        + family_trace_violations("policy"@, DeterministicIdKind::Policy, v, p.policies@, t.policies@)
        + family_trace_violations(
        "requirement"@,
        DeterministicIdKind::Requirement,
        v,
        p.requirements@,
        t.requirements@,
    )
}

/// Checks that the trace map of a canonical model records, for every
/// canonical path, the path and its derived id.
pub fn validate_trace_map_contract(canonical_model: &CanonicalModel) -> (r: Vec<TraceEntryViolation>)
    ensures
        r@.map_values(|v: TraceEntryViolation| trace_view(v)) == trace_contract_violations(
            *canonical_model,
        ),
{
    let mut violations: Vec<TraceEntryViolation> = Vec::new();
    let schema_version = &canonical_model.normalized.declaration_version;
    let paths = &canonical_model.paths;
    let trace = &canonical_model.trace;
    assert(violations@.map_values(|v: TraceEntryViolation| trace_view(v)) =~= Seq::empty());
    if !str_eq(trace.model.canonical_path.as_str(), paths.model.as_str()) {
        push_trace_violation(&mut violations, "model", "model", "canonical path mismatch");
    }
    let expected_model_id = derive_deterministic_id(
        DeterministicIdKind::Model,
        schema_version,
        paths.model.as_str(),
    );
    let same = crate::kernel::id::same_bytes(&trace.model.deterministic_id, &expected_model_id);
    proof {
        if !same && trace.model.deterministic_id@ == expected_model_id@ {
            assert(trace.model.deterministic_id =~= expected_model_id);
        }
    }
    if !same {
        push_trace_violation(&mut violations, "model", "model", "deterministic id mismatch");
    }
    validate_trace_entries(
        &mut violations,
        "zone",
        DeterministicIdKind::Referent,
        paths.zones.as_slice(),
        trace.zones.as_slice(),
        schema_version,
    );
    validate_trace_entries(
        &mut violations,
        "boundary",
        DeterministicIdKind::Boundary,
        paths.boundaries.as_slice(),
        trace.boundaries.as_slice(),
        schema_version,
    );
    validate_trace_entries(
        &mut violations,
        "route",
        DeterministicIdKind::Edge,
        paths.routes.as_slice(),
        trace.routes.as_slice(),
        schema_version,
    );
    validate_trace_entries(
        &mut violations,
        "scope",
        DeterministicIdKind::Scope,
        paths.scopes.as_slice(),
        trace.scopes.as_slice(),
        schema_version,
    );
    validate_trace_entries(
        &mut violations,
        "policy",
        DeterministicIdKind::Policy,
        paths.policies.as_slice(),
        trace.policies.as_slice(),
        schema_version,
    );
    validate_trace_entries(
        &mut violations,
        "requirement",
        DeterministicIdKind::Requirement,
        paths.requirements.as_slice(),
        trace.requirements.as_slice(),
        schema_version,
    );
    assert(violations@.map_values(|v: TraceEntryViolation| trace_view(v)) =~= trace_contract_violations(
        *canonical_model,
    ));
    violations
}

/// Sequences holding the same items carry the same names.
proof fn lemma_named_in_multiset<T: Named>(a: Seq<T>, b: Seq<T>, x: Seq<char>)
    requires
        a.to_multiset() == b.to_multiset(),
    ensures
        named_in(a, x) == named_in(b, x),
{
    if named_in(a, x) {
        let k = choose|k: int| 0 <= k < a.len() && #[trigger] a[k].name_of()@ == x;
        assert(a.to_multiset().count(a[k]) > 0);
        assert(b.contains(a[k]));
        let m = choose|m: int| 0 <= m < b.len() && b[m] == a[k];
        assert(b[m].name_of()@ == x);
    }
    if named_in(b, x) {
        let k = choose|k: int| 0 <= k < b.len() && #[trigger] b[k].name_of()@ == x;
        assert(b.to_multiset().count(b[k]) > 0);
        assert(a.contains(b[k]));
        let m = choose|m: int| 0 <= m < a.len() && a[m] == b[k];
        assert(a[m].name_of()@ == x);
    }
}

/// An item of a sequence holding the same items as another is one of the
/// other's.
proof fn lemma_member_of_multiset<T>(a: Seq<T>, b: Seq<T>, i: int) -> (k: int)
    requires
        a.to_multiset() == b.to_multiset(),
        0 <= i < a.len(),
    ensures
        0 <= k < b.len() && b[k] == a[i],
{
    assert(a.to_multiset().count(a[i]) > 0);
    assert(b.contains(a[i]));
    choose|k: int| 0 <= k < b.len() && b[k] == a[i]
}

/// A declaration without violations normalizes to one whose every reference
/// resolves.
proof fn lemma_valid_declaration_resolves(d: SecurityDeclaration, n: NormalizedSecurityDeclaration)
    requires
        declaration_violations(d).len() == 0,
        is_normal_form(n, d),
    ensures
        references_resolve(n),
{
    let fb = |b: BoundaryDeclaration| boundary_violations(d, b);
    let fs = |s: ScopeDeclaration| scope_violations(d, s);
    let fr = |r: RouteDeclaration| route_violations(d, r);
    let fp = |p: RoutePolicyDeclaration| policy_violations(d, p);
    assert(crate::declare::validation::flat_map(d.boundaries@, fb).len() == 0);
    assert(crate::declare::validation::flat_map(d.scopes@, fs).len() == 0);
    assert(crate::declare::validation::flat_map(d.routes@, fr).len() == 0);
    assert(crate::declare::validation::flat_map(d.route_policies@, fp).len() == 0);
    let fixed = choose|fixed: Seq<BoundaryDeclaration>|
        #![trigger fixed.to_multiset()]
        fixed.len() == d.boundaries@.len() && (forall|i: int|
            0 <= i < fixed.len() ==> relayered(#[trigger] fixed[i], d.boundaries@[i]))
            && n.boundaries@.to_multiset() == fixed.to_multiset();
    assert forall|x: Seq<char>| named_in(d.zones@, x) implies named_in(n.zones@, x) by {
        lemma_named_in_multiset(n.zones@, d.zones@, x);
    }
    assert forall|x: Seq<char>| named_in(d.routes@, x) implies named_in(n.routes@, x) by {
        lemma_named_in_multiset(n.routes@, d.routes@, x);
    }
    assert forall|x: Seq<char>| named_in(d.boundaries@, x) implies named_in(n.boundaries@, x) by {
        let k = choose|k: int| 0 <= k < d.boundaries@.len() && #[trigger] d.boundaries@[k].name_of()@ == x;
        assert(relayered(fixed[k], d.boundaries@[k]));
        assert(fixed[k].name_of()@ == x);
        lemma_named_in_multiset(n.boundaries@, fixed, x);
    }
    assert forall|i: int| 0 <= i < n.boundaries@.len() implies end_resolves(
        n,
        (#[trigger] n.boundaries@[i]).side_a,
    ) && end_resolves(n, n.boundaries@[i].side_b) by {
        let k = lemma_member_of_multiset(n.boundaries@, fixed, i);
        assert(relayered(fixed[k], d.boundaries@[k]));
        lemma_flat_map_empty(d.boundaries@, fb, k);
        let b = d.boundaries@[k];
        assert(boundary_violations(d, b).len() == 0);
        assert(crate::declare::validation::end_known(d, b.side_a));
        assert(crate::declare::validation::end_known(d, b.side_b));
    }
    assert forall|i: int| 0 <= i < n.routes@.len() implies end_resolves(
        n,
        (#[trigger] n.routes@[i]).from,
    ) && end_resolves(n, n.routes@[i].to) by {
        let k = lemma_member_of_multiset(n.routes@, d.routes@, i);
        lemma_flat_map_empty(d.routes@, fr, k);
        let r = d.routes@[k];
        assert(route_violations(d, r).len() == 0);
    }
    assert forall|i: int| 0 <= i < n.scopes@.len() implies match (#[trigger] n.scopes@[i]).target {
        ScopeTarget::Zone(x) => named_in(n.zones@, x@),
        ScopeTarget::Boundary(x) => named_in(n.boundaries@, x@),
        ScopeTarget::Route(x) => named_in(n.routes@, x@),
    } by {
        let k = lemma_member_of_multiset(n.scopes@, d.scopes@, i);
        lemma_flat_map_empty(d.scopes@, fs, k);
        assert(scope_violations(d, d.scopes@[k]).len() == 0);
    }
    assert forall|i: int| 0 <= i < n.route_policies@.len() implies named_in(
        n.routes@,
        (#[trigger] n.route_policies@[i]).route@,
    ) by {
        let k = lemma_member_of_multiset(n.route_policies@, d.route_policies@, i);
        lemma_flat_map_empty(d.route_policies@, fp, k);
        assert(policy_violations(d, d.route_policies@[k]).len() == 0);
    }
}

/// One stage outcome.
pub open spec fn outcome(stage: ConcretisationStage, passed: bool) -> ConcretisationStageResult {
    ConcretisationStageResult { stage, passed }
}

/// The stages that pass before the canonical graph is built.
pub open spec fn early_stages() -> Seq<ConcretisationStageResult> {
    seq![
        outcome(ConcretisationStage::ValidateDeclaration, true),
        outcome(ConcretisationStage::NormalizeDeclaration, true),
        outcome(ConcretisationStage::DeriveCanonicalPaths, true),
    ]
}

/// The report the loop owes a declaration once its normal form `n` and the
/// canonical paths `p` of `n` are fixed: stages run in order and the first
/// one that fails halts the loop with its failure.
pub open spec fn report_for(
    r: ConcretisationReport,
    d: SecurityDeclaration,
    n: NormalizedSecurityDeclaration,
    p: CanonicalPaths,
) -> bool {
    let v = n.declaration_version@;
    let path_violations = duplicate_records(namespace_records(p)) + family_violations(
        family_records(p),
    );
    let records = id_records(p);
    let collisions = collisions_upto(records, v, records.len() as int);
    if declaration_violations(d).len() > 0 {
        &&& r.stages@ == seq![outcome(ConcretisationStage::ValidateDeclaration, false)]
        &&& r.halted_at == Some(ConcretisationStage::ValidateDeclaration)
        &&& r.failure matches Some(ConcretisationFailure::DeclarationViolations(x)) && x@
            == declaration_violations(d)
        &&& r.canonical_model is None
    } else if path_violations.len() > 0 {
        &&& r.stages@ == seq![
            outcome(ConcretisationStage::ValidateDeclaration, true),
            outcome(ConcretisationStage::NormalizeDeclaration, true),
            outcome(ConcretisationStage::DeriveCanonicalPaths, false),
        ]
        &&& r.halted_at == Some(ConcretisationStage::DeriveCanonicalPaths)
        &&& r.failure matches Some(ConcretisationFailure::CanonicalPathContractViolations(x))
            && x@.map_values(|c: CanonicalPathContractViolation| contract_view(c)) == path_violations
        &&& r.canonical_model is None
    } else if !crate::kernel::scalars::semver_ok(v) {
        &&& r.stages@ == early_stages().push(
            outcome(ConcretisationStage::DeriveDeterministicIds, false),
        )
        &&& r.halted_at == Some(ConcretisationStage::DeriveDeterministicIds)
        &&& r.failure matches Some(ConcretisationFailure::SchemaVersionDomainViolation { value })
            && value@ == v
        &&& r.canonical_model is None
    } else if collisions.len() > 0 {
        &&& r.stages@ == early_stages().push(
            outcome(ConcretisationStage::DeriveDeterministicIds, false),
        )
        &&& r.halted_at == Some(ConcretisationStage::DeriveDeterministicIds)
        &&& r.failure matches Some(ConcretisationFailure::DeterministicIdCollisions(x))
            && x@.map_values(|c: DeterministicIdCollision| collision_view(c)) == collisions
        &&& r.canonical_model is None
    } else {
        &&& r.canonical_model matches Some(m) && canonical_model_of(m, n) && {
            let trace_violations = trace_contract_violations(m);
            let theory_violations = core_theory_violations(m.theory);
            let built = early_stages().push(
                outcome(ConcretisationStage::DeriveDeterministicIds, true),
            );
            if trace_violations.len() > 0 {
                &&& r.stages@ == built.push(
                    outcome(ConcretisationStage::BuildCanonicalTheoryGraph, false),
                )
                &&& r.halted_at == Some(ConcretisationStage::BuildCanonicalTheoryGraph)
                &&& r.failure matches Some(ConcretisationFailure::MissingTraceEntries(x))
                    && x@.map_values(|t: TraceEntryViolation| trace_view(t)) == trace_violations
            } else if theory_violations.len() > 0 {
                &&& r.stages@ == built.push(
                    outcome(ConcretisationStage::BuildCanonicalTheoryGraph, true),
                ).push(outcome(ConcretisationStage::ValidateCanonicalTheoryGraph, false))
                &&& r.halted_at == Some(ConcretisationStage::ValidateCanonicalTheoryGraph)
                &&& r.failure matches Some(ConcretisationFailure::TheoryViolations(x)) && x@
                    == theory_violations
            } else {
                &&& r.stages@ == built.push(
                    outcome(ConcretisationStage::BuildCanonicalTheoryGraph, true),
                ).push(outcome(ConcretisationStage::ValidateCanonicalTheoryGraph, true))
                &&& r.halted_at is None
                &&& r.failure is None
            }
        }
    }
}

/// Runs the strict fail-fast concretisation loop: validate the declaration,
/// normalize it, derive and check canonical paths, check the schema version
/// and the derived ids, build the canonical graph and check its trace map,
/// then validate the graph. The first failing stage halts the loop.
#[verifier::spinoff_prover]
#[verifier::rlimit(60)]
pub fn run_concretisation_loop(declaration: SecurityDeclaration) -> (r: ConcretisationReport)
    ensures
        exists|n: NormalizedSecurityDeclaration, p: CanonicalPaths|
            is_normal_form(n, declaration) && paths_of(p, n) && report_for(r, declaration, n, p),
{
    let ghost d = declaration;
    let mut stages: Vec<ConcretisationStageResult> = Vec::new();
    let declaration_violations = validate_security_declaration(&declaration);
    let declaration_passed = declaration_violations.len() == 0;
    stages.push(
        ConcretisationStageResult {
            stage: ConcretisationStage::ValidateDeclaration,
            passed: declaration_passed,
        },
    );
    let normalized = normalize_security_declaration(declaration);
    let paths = derive_canonical_paths(&normalized);
    if !declaration_passed {
        assert(stages@ =~= seq![outcome(ConcretisationStage::ValidateDeclaration, false)]);
        return ConcretisationReport {
            stages,
            halted_at: Some(ConcretisationStage::ValidateDeclaration),
            failure: Some(ConcretisationFailure::DeclarationViolations(declaration_violations)),
            canonical_model: None,
        };
    }
    stages.push(
        ConcretisationStageResult { stage: ConcretisationStage::NormalizeDeclaration, passed: true },
    );
    let path_contract_violations = validate_canonical_path_contracts(&paths);
    let paths_passed = path_contract_violations.len() == 0;
    stages.push(
        ConcretisationStageResult {
            stage: ConcretisationStage::DeriveCanonicalPaths,
            passed: paths_passed,
        },
    );
    if !paths_passed {
        assert(stages@ =~= seq![
            outcome(ConcretisationStage::ValidateDeclaration, true),
            outcome(ConcretisationStage::NormalizeDeclaration, true),
            outcome(ConcretisationStage::DeriveCanonicalPaths, false),
        ]);
        return ConcretisationReport {
            stages,
            halted_at: Some(ConcretisationStage::DeriveCanonicalPaths),
            failure: Some(
                ConcretisationFailure::CanonicalPathContractViolations(path_contract_violations),
            ),
            canonical_model: None,
        };
    }
    assert(stages@ =~= early_stages());
    let schema_value = normalized.declaration_version.as_str();
    if !is_schema_version_domain_valid(schema_value) {
        stages.push(
            ConcretisationStageResult {
                stage: ConcretisationStage::DeriveDeterministicIds,
                passed: false,
            },
        );
        return ConcretisationReport {
            stages,
            halted_at: Some(ConcretisationStage::DeriveDeterministicIds),
            failure: Some(
                ConcretisationFailure::SchemaVersionDomainViolation { value: owned(schema_value) },
            ),
            canonical_model: None,
        };
    }
    let collisions = detect_deterministic_id_collisions(&paths, &normalized.declaration_version);
    let ids_passed = collisions.len() == 0;
    stages.push(
        ConcretisationStageResult {
            stage: ConcretisationStage::DeriveDeterministicIds,
            passed: ids_passed,
        },
    );
    if !ids_passed {
        return ConcretisationReport {
            stages,
            halted_at: Some(ConcretisationStage::DeriveDeterministicIds),
            failure: Some(ConcretisationFailure::DeterministicIdCollisions(collisions)),
            canonical_model: None,
        };
    }
    let ghost n = normalized;
    proof {
        lemma_valid_declaration_resolves(d, normalized);
    }
    let canonical_model = build_canonical_model(normalized);
    assert(paths_of(canonical_model.paths, n));
    let trace_violations = validate_trace_map_contract(&canonical_model);
    let trace_passed = trace_violations.len() == 0;
    stages.push(
        ConcretisationStageResult {
            stage: ConcretisationStage::BuildCanonicalTheoryGraph,
            passed: trace_passed,
        },
    );
    if !trace_passed {
        return ConcretisationReport {
            stages,
            halted_at: Some(ConcretisationStage::BuildCanonicalTheoryGraph),
            failure: Some(ConcretisationFailure::MissingTraceEntries(trace_violations)),
            canonical_model: Some(canonical_model),
        };
    }
    let theory_violations = validate_core_theory_library(&canonical_model.theory);
    let theory_passed = theory_violations.len() == 0;
    stages.push(
        ConcretisationStageResult {
            stage: ConcretisationStage::ValidateCanonicalTheoryGraph,
            passed: theory_passed,
        },
    );
    if !theory_passed {
        return ConcretisationReport {
            stages,
            halted_at: Some(ConcretisationStage::ValidateCanonicalTheoryGraph),
            failure: Some(ConcretisationFailure::TheoryViolations(theory_violations)),
            canonical_model: Some(canonical_model),
        };
    }
    ConcretisationReport {
        stages,
        halted_at: None,
        failure: None,
        canonical_model: Some(canonical_model),
    }
}

} // verus!
