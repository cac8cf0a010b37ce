//! The abstract theory graph: referents, boundaries, edges, typed scopes,
//! requirements, policies, evidence and evaluations.
use vstd::prelude::*;

use crate::kernel::error::GuardError;
use crate::kernel::id::{
    ActorId, BoundaryId, EdgeId, EvaluationId, EvidenceSourceId, ModelId, ObservationId, PolicyId,
    ReferentId, RequirementId, ScopeId, SurfaceId,
};
use crate::kernel::scalars::{NonEmptyString, NonEmptyVec, SemVer, UtcTimestamp};
use crate::kernel::duplicate::Duplicate;

verus! {

/// Semantic type of a referent selected by a typed scope.
#[derive(Debug, Clone, PartialEq, Eq, PartialOrd, Ord, Hash)]
pub enum ReferentSort {
    Actor,
    Boundary,
    Surface,
    Edge,
    StoredObject,
    DependencyEdge,
    TrustHandover,
    BoundaryPath,
    ProcessEvent,
    ReleaseArtifact,
    Custom { name: NonEmptyString },
}

impl ReferentSort {
    /// The variant's position and, for a custom sort, its name: two sorts are
    /// the same sort exactly when their keys are equal.
    pub open spec fn key(&self) -> (int, Seq<char>) {
        match self {
            ReferentSort::Actor => (0, Seq::empty()),
            ReferentSort::Boundary => (1, Seq::empty()),
            ReferentSort::Surface => (2, Seq::empty()),
            ReferentSort::Edge => (3, Seq::empty()),
            ReferentSort::StoredObject => (4, Seq::empty()),
            ReferentSort::DependencyEdge => (5, Seq::empty()),
            ReferentSort::TrustHandover => (6, Seq::empty()),
            ReferentSort::BoundaryPath => (7, Seq::empty()),
            ReferentSort::ProcessEvent => (8, Seq::empty()),
            ReferentSort::ReleaseArtifact => (9, Seq::empty()),
            ReferentSort::Custom { name } => (10, name@),
        }
    }

    /// Whether two sorts are the same sort.
    pub fn same_as(&self, other: &Self) -> (r: bool)
        ensures
            r == (self.key() == other.key()),
    {
        match (self, other) {
            (ReferentSort::Custom { name: a }, ReferentSort::Custom { name: b }) => a.same_text(b),
            (ReferentSort::Actor, ReferentSort::Actor) => true,
            (ReferentSort::Boundary, ReferentSort::Boundary) => true,
            (ReferentSort::Surface, ReferentSort::Surface) => true,
            (ReferentSort::Edge, ReferentSort::Edge) => true,
            (ReferentSort::StoredObject, ReferentSort::StoredObject) => true,
            (ReferentSort::DependencyEdge, ReferentSort::DependencyEdge) => true,
            (ReferentSort::TrustHandover, ReferentSort::TrustHandover) => true,
            (ReferentSort::BoundaryPath, ReferentSort::BoundaryPath) => true,
            (ReferentSort::ProcessEvent, ReferentSort::ProcessEvent) => true,
            (ReferentSort::ReleaseArtifact, ReferentSort::ReleaseArtifact) => true,
            _ => false,
        }
    }

}

/// Semantic type of an edge relation.
#[derive(Debug, Clone, PartialEq, Eq, PartialOrd, Ord, Hash)]
pub enum EdgeSort {
    CrossesBoundary,
    DependsOn,
    Trusts,
    Signs,
    LogsTo,
    BacksUpTo,
    Contains,
    Serves,
    Builds,
    Custom { name: NonEmptyString },
}

impl EdgeSort {
    /// The variant's position and, for a custom sort, its name: two sorts are
    /// the same sort exactly when their keys are equal.
    pub open spec fn key(&self) -> (int, Seq<char>) {
        match self {
            EdgeSort::CrossesBoundary => (0, Seq::empty()),
            EdgeSort::DependsOn => (1, Seq::empty()),
            EdgeSort::Trusts => (2, Seq::empty()),
            EdgeSort::Signs => (3, Seq::empty()),
            EdgeSort::LogsTo => (4, Seq::empty()),
            EdgeSort::BacksUpTo => (5, Seq::empty()),
            EdgeSort::Contains => (6, Seq::empty()),
            EdgeSort::Serves => (7, Seq::empty()),
            EdgeSort::Builds => (8, Seq::empty()),
            EdgeSort::Custom { name } => (9, name@),
        }
    }

    /// Whether two sorts are the same sort.
    pub fn same_as(&self, other: &Self) -> (r: bool)
        ensures
            r == (self.key() == other.key()),
    {
        match (self, other) {
            (EdgeSort::Custom { name: a }, EdgeSort::Custom { name: b }) => a.same_text(b),
            (EdgeSort::CrossesBoundary, EdgeSort::CrossesBoundary) => true,
            (EdgeSort::DependsOn, EdgeSort::DependsOn) => true,
            (EdgeSort::Trusts, EdgeSort::Trusts) => true,
            (EdgeSort::Signs, EdgeSort::Signs) => true,
            (EdgeSort::LogsTo, EdgeSort::LogsTo) => true,
            (EdgeSort::BacksUpTo, EdgeSort::BacksUpTo) => true,
            (EdgeSort::Contains, EdgeSort::Contains) => true,
            (EdgeSort::Serves, EdgeSort::Serves) => true,
            (EdgeSort::Builds, EdgeSort::Builds) => true,
            _ => false,
        }
    }

}

/// Semantic class of requirement intent.
#[derive(Debug, Clone, PartialEq, Eq, PartialOrd, Ord, Hash)]
pub enum RequirementSort {
    Presence,
    Order,
    SetMembership,
    Count,
    Temporal,
    Relation,
    Custom { name: NonEmptyString },
}

impl RequirementSort {
    /// The variant's position and, for a custom sort, its name: two sorts are
    /// the same sort exactly when their keys are equal.
    pub open spec fn key(&self) -> (int, Seq<char>) {
        match self {
            RequirementSort::Presence => (0, Seq::empty()),
            RequirementSort::Order => (1, Seq::empty()),
            RequirementSort::SetMembership => (2, Seq::empty()),
            RequirementSort::Count => (3, Seq::empty()),
            RequirementSort::Temporal => (4, Seq::empty()),
            RequirementSort::Relation => (5, Seq::empty()),
            RequirementSort::Custom { name } => (6, name@),
        }
    }

    /// Whether two sorts are the same sort.
    pub fn same_as(&self, other: &Self) -> (r: bool)
        ensures
            r == (self.key() == other.key()),
    {
        match (self, other) {
            (RequirementSort::Custom { name: a }, RequirementSort::Custom { name: b }) => a.same_text(b),
            (RequirementSort::Presence, RequirementSort::Presence) => true,
            (RequirementSort::Order, RequirementSort::Order) => true,
            (RequirementSort::SetMembership, RequirementSort::SetMembership) => true,
            (RequirementSort::Count, RequirementSort::Count) => true,
            (RequirementSort::Temporal, RequirementSort::Temporal) => true,
            (RequirementSort::Relation, RequirementSort::Relation) => true,
            _ => false,
        }
    }

}

/// Presence requirement operators.
#[derive(Debug, Copy, Clone, PartialEq, Eq, PartialOrd, Ord, Hash, Structural)]
pub enum PresenceOperator {
    Required,
    Forbidden,
    Optional,
}

/// Ordering operators.
#[derive(Debug, Copy, Clone, PartialEq, Eq, PartialOrd, Ord, Hash, Structural)]
pub enum OrderOperator {
    Exactly,
    AtLeast,
    AtMost,
}

/// Set operators.
#[derive(Debug, Copy, Clone, PartialEq, Eq, PartialOrd, Ord, Hash, Structural)]
pub enum SetOperator {
    Includes,
    Excludes,
    Equals,
}

/// Count operators.
#[derive(Debug, Copy, Clone, PartialEq, Eq, PartialOrd, Ord, Hash, Structural)]
pub enum CountOperator {
    Equal,
    Min,
    Max,
}

/// Temporal operators.
#[derive(Debug, Copy, Clone, PartialEq, Eq, PartialOrd, Ord, Hash, Structural)]
pub enum TemporalOperator {
    Before,
    After,
    Within,
    Every,
}

/// Relation operators.
#[derive(Debug, Copy, Clone, PartialEq, Eq, PartialOrd, Ord, Hash, Structural)]
pub enum RelationOperator {
    Exists,
    NotExists,
    PathLength,
    EdgeCount,
}

/// Unified requirement operator.
#[derive(Debug, Copy, Clone, PartialEq, Eq, PartialOrd, Ord, Hash, Structural)]
pub enum RequirementOperator {
    Presence(PresenceOperator),
    Order(OrderOperator),
    SetRelation(SetOperator),
    Count(CountOperator),
    Temporal(TemporalOperator),
    Relation(RelationOperator),
}

/// Type universe for requirement values.
#[derive(Debug, Clone, PartialEq, Eq, PartialOrd, Ord, Hash)]
pub enum TypedValue {
    Bool(bool),
    U64(u64),
    String(NonEmptyString),
    Timestamp(UtcTimestamp),
    SemVer(SemVer),
    ReferentSort(ReferentSort),
    EdgeSort(EdgeSort),
}

/// One closed model declaration.
#[derive(Debug, Clone, PartialEq, Eq, Hash)]
pub struct ModelDeclaration {
    pub id: ModelId,
    pub version: SemVer,
    pub declared_at: UtcTimestamp,
    pub declared_by: ActorId,
}

/// Accountable actor role.
#[derive(Debug, Clone, PartialEq, Eq, PartialOrd, Ord, Hash)]
pub enum ActorRole {
    Human,
    Service,
    System,
    External,
    Custom { name: NonEmptyString },
}

/// Accountable actor declaration.
#[derive(Debug, Clone, PartialEq, Eq, Hash)]
pub struct ActorDeclaration {
    pub id: ActorId,
    pub role: ActorRole,
}

/// Abstract model referent declaration.
#[derive(Debug, Clone, PartialEq, Eq, Hash)]
pub struct ReferentDeclaration {
    pub id: ReferentId,
    pub sort: ReferentSort,
}

/// The foundational referent shape.
pub type Referent = ReferentDeclaration;

/// Boundary side marker.
#[derive(Debug, Copy, Clone, PartialEq, Eq, PartialOrd, Ord, Hash, Structural)]
pub enum SideLabel {
    A,
    B,
}

/// One declared side of a boundary.
#[derive(Debug, Clone, Copy, PartialEq, Eq, Hash)]
pub struct SideDeclaration {
    pub label: SideLabel,
    pub anchor: ReferentId,
}

/// One declared boundary surface.
#[derive(Debug, Clone, Copy, PartialEq, Eq, Hash)]
pub struct SurfaceDeclaration {
    pub id: SurfaceId,
    pub boundary_id: BoundaryId,
    pub facing: SideLabel,
}

/// Abstract boundary declaration with exactly two sides and two surfaces.
#[derive(Debug, Clone, Copy, PartialEq, Eq, Hash)]
pub struct BoundaryDeclaration {
    pub id: BoundaryId,
    pub side_a: SideDeclaration,
    pub side_b: SideDeclaration,
    pub surface_a: SurfaceDeclaration,
    pub surface_b: SurfaceDeclaration,
}

impl BoundaryDeclaration {
    /// Builds a boundary whose sides are labelled A then B, whose anchors
    /// differ, and whose surfaces belong to it and face A then B; the first
    /// broken rule, in that order, is the error.
    pub fn new(
        id: BoundaryId,
        side_a: SideDeclaration,
        side_b: SideDeclaration,
        surface_a: SurfaceDeclaration,
        surface_b: SurfaceDeclaration,
    ) -> (r: Result<Self, GuardError>)
        ensures
            !(side_a.label is A && side_b.label is B) ==> r == Err::<Self, _>(
                GuardError::Invariant { field: "boundary_declaration.side_labels" },
            ),
            side_a.label is A && side_b.label is B && side_a.anchor == side_b.anchor ==> r == Err::<
                Self,
                _,
            >(GuardError::Invariant { field: "boundary_declaration.distinct_anchors" }),
            side_a.label is A && side_b.label is B && side_a.anchor != side_b.anchor && (
            surface_a.boundary_id != id || surface_b.boundary_id != id) ==> r == Err::<Self, _>(
                GuardError::Invariant { field: "boundary_declaration.surface_boundary" },
            ),
            side_a.label is A && side_b.label is B && side_a.anchor != side_b.anchor
                && surface_a.boundary_id == id && surface_b.boundary_id == id && !(
            surface_a.facing is A && surface_b.facing is B) ==> r == Err::<Self, _>(
                GuardError::Invariant { field: "boundary_declaration.surface_labels" },
            ),
            side_a.label is A && side_b.label is B && side_a.anchor != side_b.anchor
                && surface_a.boundary_id == id && surface_b.boundary_id == id
                && surface_a.facing is A && surface_b.facing is B ==> r == Ok::<Self, GuardError>(
                BoundaryDeclaration { id, side_a, side_b, surface_a, surface_b },
            ),
    {
        if side_a.label != SideLabel::A || side_b.label != SideLabel::B {
            return Err(GuardError::Invariant { field: "boundary_declaration.side_labels" });
        }
        if side_a.anchor.same(&side_b.anchor) {
            return Err(GuardError::Invariant { field: "boundary_declaration.distinct_anchors" });
        }
        if !surface_a.boundary_id.same(&id) || !surface_b.boundary_id.same(&id) {
            return Err(GuardError::Invariant { field: "boundary_declaration.surface_boundary" });
        }
        if surface_a.facing != SideLabel::A || surface_b.facing != SideLabel::B {
            return Err(GuardError::Invariant { field: "boundary_declaration.surface_labels" });
        }
        Ok(BoundaryDeclaration { id, side_a, side_b, surface_a, surface_b })
    }
}

/// Typed edge declaration between two referents.
#[derive(Debug, Clone, PartialEq, Eq, Hash)]
pub struct EdgeDeclaration {
    pub id: EdgeId,
    pub sort: EdgeSort,
    pub from: ReferentId,
    pub to: ReferentId,
}

/// The foundational edge shape.
pub type Edge = EdgeDeclaration;

impl EdgeDeclaration {
    /// Builds an edge between two distinct referents.
    pub fn new(id: EdgeId, sort: EdgeSort, from: ReferentId, to: ReferentId) -> (r: Result<
        Self,
        GuardError,
    >)
        ensures
            from == to ==> r == Err::<Self, _>(
                GuardError::Invariant { field: "edge_declaration.distinct_ends" },
            ),
            from != to ==> r == Ok::<Self, GuardError>(EdgeDeclaration { id, sort, from, to }),
    {
        if from.same(&to) {
            return Err(GuardError::Invariant { field: "edge_declaration.distinct_ends" });
        }
        Ok(EdgeDeclaration { id, sort, from, to })
    }
}

/// Deterministic context used to construct scope carriers.
#[derive(Debug, Clone, PartialEq, Eq, Hash)]
pub struct EvaluationContextDeclaration {
    pub model_version: SemVer,
    pub namespace: Option<NonEmptyString>,
    pub boundary: Option<BoundaryId>,
    pub actor_authority: Option<ActorId>,
    pub snapshot_at: Option<UtcTimestamp>,
    pub evidence_source: Option<EvidenceSourceId>,
}

/// Membership by an edge of a given sort into a given referent, from
/// referents of a given sort.
#[derive(Debug, Clone, PartialEq, Eq, Hash)]
pub struct EdgeToPredicateDeclaration {
    pub source_sort: ReferentSort,
    pub edge_sort: EdgeSort,
    pub to: ReferentId,
}

/// Typed membership predicate declaration.
#[derive(Debug, Clone, PartialEq, Eq, Hash)]
pub enum MembershipPredicateDeclaration {
    All,
    ReferentIds { ids: NonEmptyVec<ReferentId> },
    EdgeTo(EdgeToPredicateDeclaration),
}

/// Typed scope declaration.
#[derive(Debug, Clone, PartialEq, Eq, Hash)]
pub struct TypedScopeDeclaration {
    pub id: ScopeId,
    pub referent_sort: ReferentSort,
    pub context: EvaluationContextDeclaration,
    pub predicate: MembershipPredicateDeclaration,
}

impl TypedScopeDeclaration {
    /// Builds a typed scope; an edge-to predicate must select referents of the
    /// scope's own sort.
    pub fn new(
        id: ScopeId,
        referent_sort: ReferentSort,
        context: EvaluationContextDeclaration,
        predicate: MembershipPredicateDeclaration,
    ) -> (r: Result<Self, GuardError>)
        ensures
            (predicate matches MembershipPredicateDeclaration::EdgeTo(e) && e.source_sort.key()
                != referent_sort.key()) ==> r == Err::<Self, _>(
                GuardError::Invariant { field: "typed_scope_declaration.edge_to_source_sort" },
            ),
            !(predicate matches MembershipPredicateDeclaration::EdgeTo(e) && e.source_sort.key()
                != referent_sort.key()) ==> r == Ok::<Self, GuardError>(
                TypedScopeDeclaration { id, referent_sort, context, predicate },
            ),
    {
        if let MembershipPredicateDeclaration::EdgeTo(edge_to) = &predicate {
            if !edge_to.source_sort.same_as(&referent_sort) {
                return Err(
                    GuardError::Invariant { field: "typed_scope_declaration.edge_to_source_sort" },
                );
            }
        }
        Ok(TypedScopeDeclaration { id, referent_sort, context, predicate })
    }

    /// Builds an edge-to scope over the referents of the predicate's source
    /// sort.
    pub fn edge_to(
        id: ScopeId,
        context: EvaluationContextDeclaration,
        edge_to: EdgeToPredicateDeclaration,
    ) -> (r: Self)
        ensures
            r.id == id,
            r.referent_sort == edge_to.source_sort,
            r.context == context,
            r.predicate == MembershipPredicateDeclaration::EdgeTo(edge_to),
    {
        let referent_sort = edge_to.source_sort.duplicate();
        TypedScopeDeclaration {
            id,
            referent_sort,
            context,
            predicate: MembershipPredicateDeclaration::EdgeTo(edge_to),
        }
    }
}

/// Which values an operator family compares against: presence takes a
/// boolean, order and count an integer, set a string or a sort, temporal a
/// timestamp or an integer, relation an integer, a boolean or a sort.
pub open spec fn operator_value_fits(operator: RequirementOperator, value: TypedValue) -> bool {
    match operator {
        RequirementOperator::Presence(_) => value is Bool,
        RequirementOperator::Order(_) | RequirementOperator::Count(_) => value is U64,
        RequirementOperator::SetRelation(_) => value is String || value is ReferentSort || value is EdgeSort,
        RequirementOperator::Temporal(_) => value is Timestamp || value is U64,
        RequirementOperator::Relation(_) => value is U64 || value is Bool || value is ReferentSort
            || value is EdgeSort,
    }
}

/// A requirement sort admits the operator family of the same name; a custom
/// sort admits any operator.
pub open spec fn sort_operator_fits(sort: RequirementSort, operator: RequirementOperator) -> bool {
    match (sort, operator) {
        (RequirementSort::Presence, RequirementOperator::Presence(_)) => true,
        (RequirementSort::Order, RequirementOperator::Order(_)) => true,
        (RequirementSort::SetMembership, RequirementOperator::SetRelation(_)) => true,
        (RequirementSort::Count, RequirementOperator::Count(_)) => true,
        (RequirementSort::Temporal, RequirementOperator::Temporal(_)) => true,
        (RequirementSort::Relation, RequirementOperator::Relation(_)) => true,
        (RequirementSort::Custom { .. }, _) => true,
        _ => false,
    }
}

/// Whether the value has the type the operator compares against.
pub fn operator_matches_value(operator: &RequirementOperator, value: &TypedValue) -> (r: bool)
    ensures
        r == operator_value_fits(*operator, *value),
{
    match operator {
        RequirementOperator::Presence(_) => matches!(value, TypedValue::Bool(_)),
        RequirementOperator::Order(_) | RequirementOperator::Count(_) => {
            matches!(value, TypedValue::U64(_))
        },
        RequirementOperator::SetRelation(_) => matches!(
            value,
            TypedValue::String(_) | TypedValue::ReferentSort(_) | TypedValue::EdgeSort(_)
        ),
        RequirementOperator::Temporal(_) => matches!(
            value,
            TypedValue::Timestamp(_) | TypedValue::U64(_)
        ),
        RequirementOperator::Relation(_) => matches!(
            value,
            TypedValue::U64(_) | TypedValue::Bool(_) | TypedValue::ReferentSort(_)
                | TypedValue::EdgeSort(_)
        ),
    }
}

/// Whether the requirement sort admits the operator.
pub fn sort_matches_operator(sort: &RequirementSort, operator: &RequirementOperator) -> (r: bool)
    ensures
        r == sort_operator_fits(*sort, *operator),
{
    match (sort, operator) {
        (RequirementSort::Presence, RequirementOperator::Presence(_)) => true,
        (RequirementSort::Order, RequirementOperator::Order(_)) => true,
        (RequirementSort::SetMembership, RequirementOperator::SetRelation(_)) => true,
        (RequirementSort::Count, RequirementOperator::Count(_)) => true,
        (RequirementSort::Temporal, RequirementOperator::Temporal(_)) => true,
        (RequirementSort::Relation, RequirementOperator::Relation(_)) => true,
        (RequirementSort::Custom { .. }, _) => true,
        _ => false,
    }
}

/// Normative requirement declaration.
#[derive(Debug, Clone, PartialEq, Eq, Hash)]
pub struct RequirementDeclaration {
    pub id: RequirementId,
    pub sort: RequirementSort,
    pub operator: RequirementOperator,
    pub value: TypedValue,
}

impl RequirementDeclaration {
    /// Builds a requirement whose value fits its operator and whose sort
    /// admits its operator, checked in that order.
    pub fn new(
        id: RequirementId,
        sort: RequirementSort,
        operator: RequirementOperator,
        value: TypedValue,
    ) -> (r: Result<Self, GuardError>)
        ensures
            !operator_value_fits(operator, value) ==> r == Err::<Self, _>(
                GuardError::Invariant { field: "requirement_declaration.operator_value" },
            ),
            operator_value_fits(operator, value) && !sort_operator_fits(sort, operator) ==> r
                == Err::<Self, _>(
                GuardError::Invariant { field: "requirement_declaration.sort_operator" },
            ),
            operator_value_fits(operator, value) && sort_operator_fits(sort, operator) ==> r
                == Ok::<Self, GuardError>(RequirementDeclaration { id, sort, operator, value }),
    {
        if !operator_matches_value(&operator, &value) {
            return Err(GuardError::Invariant { field: "requirement_declaration.operator_value" });
        }
        if !sort_matches_operator(&sort, &operator) {
            return Err(GuardError::Invariant { field: "requirement_declaration.sort_operator" });
        }
        Ok(RequirementDeclaration { id, sort, operator, value })
    }
}

/// Policy declaration in minimum abstract form.
#[derive(Debug, Clone, Copy, PartialEq, Eq, Hash)]
pub struct PolicyDeclaration {
    pub id: PolicyId,
    pub declared_by: ActorId,
    pub scope: ScopeId,
    pub requirement: RequirementId,
}

/// Evidence source declaration.
#[derive(Debug, Clone, PartialEq, Eq, Hash)]
pub struct EvidenceSourceDeclaration {
    pub id: EvidenceSourceId,
    pub source_type: NonEmptyString,
    pub mapper: NonEmptyString,
    pub trust_assumption: NonEmptyString,
}

/// Observation declaration mapped from evidence.
#[derive(Debug, Clone, PartialEq, Eq, Hash)]
pub struct ObservationDeclaration {
    pub id: ObservationId,
    pub source: EvidenceSourceId,
    pub observed_referent: Option<ReferentId>,
    pub observed_sort: ReferentSort,
    pub at: UtcTimestamp,
    pub claim: TypedValue,
}

/// One evidence item: the shape of an observation.
pub type EvidenceItem = ObservationDeclaration;

/// Evaluation outcome vocabulary.
#[derive(Debug, Copy, Clone, PartialEq, Eq, PartialOrd, Ord, Hash, Structural)]
pub enum EvaluationResult {
    Satisfied,
    Violated,
    Unknown,
    NotApplicable,
    ContradictoryEvidence,
    StaleEvidence,
}

/// No identifier occurs twice in the sequence.
pub open spec fn distinct_observations(ids: Seq<ObservationId>) -> bool {
    forall|i: int, j: int| 0 <= i < j < ids.len() ==> ids[i] != ids[j]
}

/// The observations an evaluation relies on, with those it consulted as
/// context; no observation is named twice across both.
#[derive(Debug, Clone, PartialEq, Eq, Hash)]
pub struct EvidenceBasis {
    pub references: NonEmptyVec<ObservationId>,
    pub context: Vec<ObservationId>,
}

/// Whether `ids[0..end]` names `id`.
fn observation_listed(ids: &[ObservationId], end: usize, id: &ObservationId) -> (r: bool)
    requires
        end <= ids@.len(),
    ensures
        r == exists|k: int| 0 <= k < end && ids@[k] == *id,
{
    let mut k: usize = 0;
    while k < end
        invariant
            k <= end <= ids@.len(),
            forall|m: int| 0 <= m < k ==> ids@[m] != *id,
        decreases end - k,
    {
        if ids[k].same(id) {
            return true;
        }
        k = k + 1;
    }
    false
}

/// Whether the observations are pairwise distinct.
fn observations_distinct(ids: &[ObservationId]) -> (r: bool)
    ensures
        r == distinct_observations(ids@),
{
    let mut i: usize = 0;
    while i < ids.len()
        invariant
            i <= ids@.len(),
            distinct_observations(ids@.take(i as int)),
        decreases ids@.len() - i,
    {
        if observation_listed(ids, i, &ids[i]) {
            return false;
        }
        i = i + 1;
        assert(distinct_observations(ids@.take(i as int))) by {
            assert forall|a: int, b: int| 0 <= a < b < i implies ids@.take(i as int)[a]
                != ids@.take(i as int)[b] by {
                if b < i - 1 {
                    assert(ids@.take(i - 1)[a] == ids@[a]);
                    assert(ids@.take(i - 1)[b] == ids@[b]);
                }
            }
        }
    }
    assert(ids@.take(ids@.len() as int) =~= ids@);
    true
}

impl EvidenceBasis {
    /// Builds a basis; an observation named twice, among the references, the
    /// context, or across both, is refused.
    pub fn new(references: NonEmptyVec<ObservationId>, context: Vec<ObservationId>) -> (r: Result<
        Self,
        GuardError,
    >)
        ensures
            distinct_observations(references@ + context@) ==> (r matches Ok(b) && b.references@
                == references@ && b.context@ == context@),
            !distinct_observations(references@ + context@) ==> r == Err::<Self, _>(
                GuardError::Invariant { field: "evidence_basis.distinct_references" },
            ),
    {
        let mut all: Vec<ObservationId> = Vec::new();
        let refs = references.as_slice();
        let mut i: usize = 0;
        while i < refs.len()
            invariant
                i <= refs@.len(),
                all@ == refs@.take(i as int),
            decreases refs@.len() - i,
        {
            all.push(refs[i]);
            i = i + 1;
            assert(all@ =~= refs@.take(i as int));
        }
        let mut k: usize = 0;
        while k < context.len()
            invariant
                k <= context@.len(),
                all@ == refs@ + context@.take(k as int),
            decreases context@.len() - k,
        {
            all.push(context[k]);
            k = k + 1;
            assert(all@ =~= refs@ + context@.take(k as int));
        }
        assert(all@ =~= references@ + context@);
        if !observations_distinct(all.as_slice()) {
            return Err(GuardError::Invariant { field: "evidence_basis.distinct_references" });
        }
        Ok(EvidenceBasis { references, context })
    }

    /// Builds a basis from references alone.
    pub fn from_references(references: NonEmptyVec<ObservationId>) -> (r: Result<
        Self,
        GuardError,
    >)
        ensures
            distinct_observations(references@) ==> (r matches Ok(b) && b.references@
                == references@ && b.context@.len() == 0),
            !distinct_observations(references@) ==> r == Err::<Self, _>(
                GuardError::Invariant { field: "evidence_basis.distinct_references" },
            ),
    {
        let ghost refs = references@;
        let r = EvidenceBasis::new(references, Vec::new());
        assert(refs + Seq::<ObservationId>::empty() =~= refs);
        r
    }
}

/// Evaluation declaration binding policy and evidence basis.
#[derive(Debug, Clone, PartialEq, Eq, Hash)]
pub struct EvaluationDeclaration {
    pub id: EvaluationId,
    pub policy: PolicyId,
    pub evidence_basis: EvidenceBasis,
    pub result: EvaluationResult,
}

impl Duplicate for ReferentSort {
    fn duplicate(&self) -> (r: Self) {
        match self {
            ReferentSort::Custom { name } => ReferentSort::Custom { name: name.duplicate() },
            ReferentSort::Actor => ReferentSort::Actor,
            ReferentSort::Boundary => ReferentSort::Boundary,
            ReferentSort::Surface => ReferentSort::Surface,
            ReferentSort::Edge => ReferentSort::Edge,
            ReferentSort::StoredObject => ReferentSort::StoredObject,
            ReferentSort::DependencyEdge => ReferentSort::DependencyEdge,
            ReferentSort::TrustHandover => ReferentSort::TrustHandover,
            ReferentSort::BoundaryPath => ReferentSort::BoundaryPath,
            ReferentSort::ProcessEvent => ReferentSort::ProcessEvent,
            ReferentSort::ReleaseArtifact => ReferentSort::ReleaseArtifact,
        }
    }
}

impl Duplicate for EdgeSort {
    fn duplicate(&self) -> (r: Self) {
        match self {
            EdgeSort::Custom { name } => EdgeSort::Custom { name: name.duplicate() },
            EdgeSort::CrossesBoundary => EdgeSort::CrossesBoundary,
            EdgeSort::DependsOn => EdgeSort::DependsOn,
            EdgeSort::Trusts => EdgeSort::Trusts,
            EdgeSort::Signs => EdgeSort::Signs,
            EdgeSort::LogsTo => EdgeSort::LogsTo,
            EdgeSort::BacksUpTo => EdgeSort::BacksUpTo,
            EdgeSort::Contains => EdgeSort::Contains,
            EdgeSort::Serves => EdgeSort::Serves,
            EdgeSort::Builds => EdgeSort::Builds,
        }
    }
}

impl Duplicate for RequirementSort {
    fn duplicate(&self) -> (r: Self) {
        match self {
            RequirementSort::Custom { name } => RequirementSort::Custom { name: name.duplicate() },
            RequirementSort::Presence => RequirementSort::Presence,
            RequirementSort::Order => RequirementSort::Order,
            RequirementSort::SetMembership => RequirementSort::SetMembership,
            RequirementSort::Count => RequirementSort::Count,
            RequirementSort::Temporal => RequirementSort::Temporal,
            RequirementSort::Relation => RequirementSort::Relation,
        }
    }
}

} // verus!
