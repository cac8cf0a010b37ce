//! Coherence rules of the abstract theory graph.
use vstd::prelude::*;

use crate::kernel::duplicate::Duplicate;

use crate::kernel::id::{
    ActorId, BoundaryId, EdgeId, EvaluationId, EvidenceSourceId, ObservationId, PolicyId,
    ReferentId, RequirementId, ScopeId,
};
use crate::kernel::theory::{
    operator_matches_value, operator_value_fits, sort_matches_operator, sort_operator_fits,
    ActorDeclaration, BoundaryDeclaration, EdgeDeclaration, EvaluationDeclaration,
    EvidenceSourceDeclaration, MembershipPredicateDeclaration, ModelDeclaration,
    ObservationDeclaration, PolicyDeclaration, ReferentDeclaration, RequirementDeclaration,
    SideLabel, TypedScopeDeclaration,
};

verus! {

/// Subject tied to a theory-layer violation.
#[derive(Debug, Copy, Clone, PartialEq, Eq, PartialOrd, Ord, Hash)]
pub enum TheorySubject {
    Model,
    Actor(ActorId),
    Referent(ReferentId),
    Boundary(BoundaryId),
    Edge(EdgeId),
    Scope(ScopeId),
    Requirement(RequirementId),
    Policy(PolicyId),
    EvidenceSource(EvidenceSourceId),
    Observation(ObservationId),
    Evaluation(EvaluationId),
}

/// Machine-readable theory validity code.
#[derive(Debug, Copy, Clone, PartialEq, Eq, PartialOrd, Ord, Hash, Structural)]
pub enum TheoryViolationCode {
    EmptyRequiredSet,
    DuplicateId,
    MissingReference,
    ScopeSortMismatch,
    ContextInvariant,
}

/// Theory-level validation violation.
#[derive(Debug, Copy, Clone, PartialEq, Eq, Hash)]
pub struct TheoryViolation {
    pub code: TheoryViolationCode,
    pub subject: TheorySubject,
}

/// Unopinionated type-theory library aggregate for system security modeling.
#[derive(Debug, Clone, PartialEq, Eq, Hash)]
pub struct CoreTheoryLibrary {
    pub model: ModelDeclaration,
    pub actors: Vec<ActorDeclaration>,
    pub referents: Vec<ReferentDeclaration>,
    pub boundaries: Vec<BoundaryDeclaration>,
    pub edges: Vec<EdgeDeclaration>,
    pub scopes: Vec<TypedScopeDeclaration>,
    pub requirements: Vec<RequirementDeclaration>,
    pub policies: Vec<PolicyDeclaration>,
    pub evidence_sources: Vec<EvidenceSourceDeclaration>,
    pub observations: Vec<ObservationDeclaration>,
    pub evaluations: Vec<EvaluationDeclaration>,
}

/// The violation of `code` about `subject`.
pub open spec fn violation(code: TheoryViolationCode, subject: TheorySubject) -> TheoryViolation {
    TheoryViolation { code, subject }
}

/// The violations of each item, in order, one list after another.
pub open spec fn flat_map<T>(items: Seq<T>, f: spec_fn(T) -> Seq<TheoryViolation>) -> Seq<
    TheoryViolation,
>
    decreases items.len(),
{
    if items.len() == 0 {
        Seq::empty()
    } else {
        flat_map(items.drop_last(), f) + f(items.last())
    }
}

/// One step of `flat_map` over a growing prefix.
pub proof fn lemma_flat_map_step<T>(items: Seq<T>, f: spec_fn(T) -> Seq<TheoryViolation>, i: int)
    requires
        0 <= i < items.len(),
    ensures
        flat_map(items.take(i + 1), f) == flat_map(items.take(i), f) + f(items[i]),
{
    assert(items.take(i + 1).drop_last() =~= items.take(i));
}

/// An identified declaration of the graph.
pub trait Identified {
    /// The identifier's payload.
    spec fn id_bytes(&self) -> [u8; 16];

    /// The subject a violation about this declaration names.
    spec fn subject_of(&self) -> TheorySubject;

    fn payload(&self) -> (r: [u8; 16])
        ensures
            r == self.id_bytes(),
    ;

    fn subject(&self) -> (r: TheorySubject)
        ensures
            r == self.subject_of(),
    ;
}

/// A duplicate violation for every declaration whose identifier an earlier
/// declaration already holds.
pub open spec fn duplicate_violations<T: Identified>(items: Seq<T>) -> Seq<TheoryViolation>
    decreases items.len(),
{
    if items.len() == 0 {
        Seq::empty()
    } else {
        let init = items.drop_last();
        let rest = duplicate_violations(init);
        if exists|k: int| 0 <= k < init.len() && #[trigger] init[k].id_bytes() == items.last().id_bytes() {
            rest.push(violation(TheoryViolationCode::DuplicateId, items.last().subject_of()))
        } else {
            rest
        }
    }
}

/// Whether an item before `end` holds the identifier payload.
fn payload_seen<T: Identified>(items: &[T], end: usize, id: &[u8; 16]) -> (r: bool)
    requires
        end <= items@.len(),
    ensures
        r == exists|k: int| 0 <= k < end && #[trigger] items@[k].id_bytes() == *id,
{
    let mut k: usize = 0;
    while k < end
        invariant
            k <= end <= items@.len(),
            forall|m: int| 0 <= m < k ==> #[trigger] items@[m].id_bytes() != *id,
        decreases end - k,
    {
        let p = items[k].payload();
        if crate::kernel::id::same_bytes(&p, id) {
            return true;
        }
        k = k + 1;
    }
    false
}

/// Reports every declaration whose identifier repeats an earlier one.
pub fn validate_unique<T: Identified>(items: &[T]) -> (r: Vec<TheoryViolation>)
    ensures
        r@ == duplicate_violations(items@),
{
    let mut violations: Vec<TheoryViolation> = Vec::new();
    let mut i: usize = 0;
    while i < items.len()
        invariant
            i <= items@.len(),
            violations@ == duplicate_violations(items@.take(i as int)),
        decreases items@.len() - i,
    {
        let ghost pre = items@.take(i as int);
        let p = items[i].payload();
        let seen = payload_seen(items, i, &p);
        proof {
            assert(items@.take(i + 1).drop_last() =~= pre);
            assert(items@.take(i + 1).last() == items@[i as int]);
            assert(seen == exists|k: int| 0 <= k < pre.len() && #[trigger] pre[k].id_bytes()
                == items@[i as int].id_bytes()) by {
                if seen {
                    let k = choose|k: int| 0 <= k < i && #[trigger] items@[k].id_bytes() == p;
                    assert(pre[k] == items@[k]);
                }
                if exists|k: int| 0 <= k < pre.len() && #[trigger] pre[k].id_bytes()
                    == items@[i as int].id_bytes() {
                    let k = choose|k: int| 0 <= k < pre.len() && #[trigger] pre[k].id_bytes()
                        == items@[i as int].id_bytes();
                    assert(pre[k] == items@[k]);
                }
            }
        }
        if seen {
            violations.push(
                TheoryViolation {
                    code: TheoryViolationCode::DuplicateId,
                    subject: items[i].subject(),
                },
            );
        }
        i = i + 1;
    }
    assert(items@.take(items@.len() as int) =~= items@);
    violations
}

impl Identified for ActorDeclaration {
    open spec fn id_bytes(&self) -> [u8; 16] {
        self.id.0
    }

    open spec fn subject_of(&self) -> TheorySubject {
        TheorySubject::Actor(self.id)
    }

    fn payload(&self) -> (r: [u8; 16]) {
        self.id.0
    }

    fn subject(&self) -> (r: TheorySubject) {
        TheorySubject::Actor(self.id)
    }
}

impl Identified for ReferentDeclaration {
    open spec fn id_bytes(&self) -> [u8; 16] {
        self.id.0
    }

    open spec fn subject_of(&self) -> TheorySubject {
        TheorySubject::Referent(self.id)
    }

    fn payload(&self) -> (r: [u8; 16]) {
        self.id.0
    }

    fn subject(&self) -> (r: TheorySubject) {
        TheorySubject::Referent(self.id)
    }
}

impl Identified for BoundaryDeclaration {
    open spec fn id_bytes(&self) -> [u8; 16] {
        self.id.0
    }

    open spec fn subject_of(&self) -> TheorySubject {
        TheorySubject::Boundary(self.id)
    }

    fn payload(&self) -> (r: [u8; 16]) {
        self.id.0
    }

    fn subject(&self) -> (r: TheorySubject) {
        TheorySubject::Boundary(self.id)
    }
}

impl Identified for EdgeDeclaration {
    open spec fn id_bytes(&self) -> [u8; 16] {
        self.id.0
    }

    open spec fn subject_of(&self) -> TheorySubject {
        TheorySubject::Edge(self.id)
    }

    fn payload(&self) -> (r: [u8; 16]) {
        self.id.0
    }

    fn subject(&self) -> (r: TheorySubject) {
        TheorySubject::Edge(self.id)
    }
}

impl Identified for TypedScopeDeclaration {
    open spec fn id_bytes(&self) -> [u8; 16] {
        self.id.0
    }

    open spec fn subject_of(&self) -> TheorySubject {
        TheorySubject::Scope(self.id)
    }

    fn payload(&self) -> (r: [u8; 16]) {
        self.id.0
    }

    fn subject(&self) -> (r: TheorySubject) {
        TheorySubject::Scope(self.id)
    }
}

impl Identified for RequirementDeclaration {
    open spec fn id_bytes(&self) -> [u8; 16] {
        self.id.0
    }

    open spec fn subject_of(&self) -> TheorySubject {
        TheorySubject::Requirement(self.id)
    }

    fn payload(&self) -> (r: [u8; 16]) {
        self.id.0
    }

    fn subject(&self) -> (r: TheorySubject) {
        TheorySubject::Requirement(self.id)
    }
}

impl Identified for PolicyDeclaration {
    open spec fn id_bytes(&self) -> [u8; 16] {
        self.id.0
    }

    open spec fn subject_of(&self) -> TheorySubject {
        TheorySubject::Policy(self.id)
    }

    fn payload(&self) -> (r: [u8; 16]) {
        self.id.0
    }

    fn subject(&self) -> (r: TheorySubject) {
        TheorySubject::Policy(self.id)
    }
}

impl Identified for EvidenceSourceDeclaration {
    open spec fn id_bytes(&self) -> [u8; 16] {
        self.id.0
    }

    open spec fn subject_of(&self) -> TheorySubject {
        TheorySubject::EvidenceSource(self.id)
    }

    fn payload(&self) -> (r: [u8; 16]) {
        self.id.0
    }

    fn subject(&self) -> (r: TheorySubject) {
        TheorySubject::EvidenceSource(self.id)
    }
}

impl Identified for ObservationDeclaration {
    open spec fn id_bytes(&self) -> [u8; 16] {
        self.id.0
    }

    open spec fn subject_of(&self) -> TheorySubject {
        TheorySubject::Observation(self.id)
    }

    fn payload(&self) -> (r: [u8; 16]) {
        self.id.0
    }

    fn subject(&self) -> (r: TheorySubject) {
        TheorySubject::Observation(self.id)
    }
}

impl Identified for EvaluationDeclaration {
    open spec fn id_bytes(&self) -> [u8; 16] {
        self.id.0
    }

    open spec fn subject_of(&self) -> TheorySubject {
        TheorySubject::Evaluation(self.id)
    }

    fn payload(&self) -> (r: [u8; 16]) {
        self.id.0
    }

    fn subject(&self) -> (r: TheorySubject) {
        TheorySubject::Evaluation(self.id)
    }
}

pub fn validate_unique_actors(actors: &[ActorDeclaration]) -> (r: Vec<TheoryViolation>)
    ensures
        r@ == duplicate_violations(actors@),
{
    validate_unique(actors)
}

pub fn validate_unique_referents(referents: &[ReferentDeclaration]) -> (r: Vec<TheoryViolation>)
    ensures
        r@ == duplicate_violations(referents@),
{
    validate_unique(referents)
}

pub fn validate_unique_boundaries(boundaries: &[BoundaryDeclaration]) -> (r: Vec<TheoryViolation>)
    ensures
        r@ == duplicate_violations(boundaries@),
{
    validate_unique(boundaries)
}

pub fn validate_unique_edges(edges: &[EdgeDeclaration]) -> (r: Vec<TheoryViolation>)
    ensures
        r@ == duplicate_violations(edges@),
{
    validate_unique(edges)
}

pub fn validate_unique_scopes(scopes: &[TypedScopeDeclaration]) -> (r: Vec<TheoryViolation>)
    ensures
        r@ == duplicate_violations(scopes@),
{
    validate_unique(scopes)
}

pub fn validate_unique_requirements(requirements: &[RequirementDeclaration]) -> (r: Vec<
    TheoryViolation,
>)
    ensures
        r@ == duplicate_violations(requirements@),
{
    validate_unique(requirements)
}

pub fn validate_unique_policies(policies: &[PolicyDeclaration]) -> (r: Vec<TheoryViolation>)
    ensures
        r@ == duplicate_violations(policies@),
{
    validate_unique(policies)
}

pub fn validate_unique_evidence_sources(evidence_sources: &[EvidenceSourceDeclaration]) -> (r: Vec<
    TheoryViolation,
>)
    ensures
        r@ == duplicate_violations(evidence_sources@),
{
    validate_unique(evidence_sources)
}

pub fn validate_unique_observations(observations: &[ObservationDeclaration]) -> (r: Vec<
    TheoryViolation,
>)
    ensures
        r@ == duplicate_violations(observations@),
{
    validate_unique(observations)
}

pub fn validate_unique_evaluations(evaluations: &[EvaluationDeclaration]) -> (r: Vec<
    TheoryViolation,
>)
    ensures
        r@ == duplicate_violations(evaluations@),
{
    validate_unique(evaluations)
}

/// Some item holds the identifier payload.
pub open spec fn holds_payload<T: Identified>(items: Seq<T>, id: [u8; 16]) -> bool {
    exists|k: int| 0 <= k < items.len() && #[trigger] items[k].id_bytes() == id
}

/// Whether some item holds the identifier payload.
pub fn contains_payload<T: Identified>(items: &[T], id: &[u8; 16]) -> (r: bool)
    ensures
        r == holds_payload(items@, *id),
{
    payload_seen(items, items.len(), id)
}

/// The first referent declared with the identifier.
pub open spec fn first_referent(rs: Seq<ReferentDeclaration>, id: ReferentId) -> Option<
    ReferentDeclaration,
>
    decreases rs.len(),
{
    if rs.len() == 0 {
        None
    } else if rs[0].id == id {
        Some(rs[0])
    } else {
        first_referent(rs.drop_first(), id)
    }
}

/// Position of the first referent declared with the identifier.
pub fn find_referent(referents: &[ReferentDeclaration], id: &ReferentId) -> (r: Option<usize>)
    ensures
        r matches Some(i) ==> i < referents@.len() && first_referent(referents@, *id) == Some(
            referents@[i as int],
        ),
        r is None ==> first_referent(referents@, *id) is None,
{
    let mut k: usize = 0;
    assert(referents@.skip(0) =~= referents@);
    while k < referents.len()
        invariant
            k <= referents@.len(),
            first_referent(referents@, *id) == first_referent(referents@.skip(k as int), *id),
        decreases referents@.len() - k,
    {
        assert(referents@.skip(k as int)[0] == referents@[k as int]);
        if referents[k].id.same(id) {
            return Some(k);
        }
        assert(referents@.skip(k as int).drop_first() =~= referents@.skip(k + 1));
        k = k + 1;
    }
    None
}

/// The violations that sets which must not be empty produce, in the order
/// actors, boundaries, edges, scopes, requirements, policies.
pub open spec fn empty_set_violations(lib: CoreTheoryLibrary) -> Seq<TheoryViolation> {
    let v = seq![violation(TheoryViolationCode::EmptyRequiredSet, TheorySubject::Model)];
    let e = Seq::<TheoryViolation>::empty();
    (if lib.actors@.len() == 0 { v } else { e }) + (if lib.boundaries@.len() == 0 { v } else { e })
        + (if lib.edges@.len() == 0 { v } else { e }) + (if lib.scopes@.len() == 0 { v } else { e })
        + (if lib.requirements@.len() == 0 { v } else { e }) + (if lib.policies@.len() == 0 { v } else { e })
}

/// The duplicate-identifier violations of every collection.
pub open spec fn duplicate_section(lib: CoreTheoryLibrary) -> Seq<TheoryViolation> {
    duplicate_violations(lib.actors@) + duplicate_violations(lib.referents@)
        + duplicate_violations(lib.boundaries@) + duplicate_violations(lib.edges@)
        + duplicate_violations(lib.scopes@) + duplicate_violations(lib.requirements@)
        + duplicate_violations(lib.policies@) + duplicate_violations(lib.evidence_sources@)
        + duplicate_violations(lib.observations@) + duplicate_violations(lib.evaluations@)
}

/// A single violation when `cond` holds.
pub open spec fn when(cond: bool, code: TheoryViolationCode, subject: TheorySubject) -> Seq<
    TheoryViolation,
> {
    if cond {
        seq![violation(code, subject)]
    } else {
        Seq::empty()
    }
}

/// The model must be declared by a declared actor.
pub open spec fn model_violations(lib: CoreTheoryLibrary) -> Seq<TheoryViolation> {
    when(
        !holds_payload(lib.actors@, lib.model.declared_by.0),
        TheoryViolationCode::MissingReference,
        TheorySubject::Model,
    )
}

/// Both ends of an edge must be declared referents.
pub open spec fn edge_violations(lib: CoreTheoryLibrary, e: EdgeDeclaration) -> Seq<TheoryViolation> {
    when(
        !holds_payload(lib.referents@, e.from.0) || !holds_payload(lib.referents@, e.to.0),
        TheoryViolationCode::MissingReference,
        TheorySubject::Edge(e.id),
    )
}

/// A boundary's sides are labelled A then B, its surfaces face A then B and
/// belong to it, its anchors differ and are declared referents.
pub open spec fn boundary_violations(lib: CoreTheoryLibrary, b: BoundaryDeclaration) -> Seq<
    TheoryViolation,
> {
    let subject = TheorySubject::Boundary(b.id);
    when(!(b.side_a.label is A && b.side_b.label is B), TheoryViolationCode::ContextInvariant, subject)
        + when(
        !(b.surface_a.facing is A && b.surface_b.facing is B),
        TheoryViolationCode::ContextInvariant,
        subject,
    ) + when(
        b.surface_a.boundary_id != b.id || b.surface_b.boundary_id != b.id,
        TheoryViolationCode::ContextInvariant,
        subject,
    ) + when(b.side_a.anchor == b.side_b.anchor, TheoryViolationCode::ContextInvariant, subject)
        + when(
        !holds_payload(lib.referents@, b.side_a.anchor.0) || !holds_payload(
            lib.referents@,
            b.side_b.anchor.0,
        ),
        TheoryViolationCode::MissingReference,
        subject,
    )
}

/// A referent a scope lists must be declared, with the scope's sort.
pub open spec fn listed_referent_violations(
    lib: CoreTheoryLibrary,
    s: TypedScopeDeclaration,
    id: ReferentId,
) -> Seq<TheoryViolation> {
    match first_referent(lib.referents@, id) {
        None => seq![violation(TheoryViolationCode::MissingReference, TheorySubject::Scope(s.id))],
        Some(r) => when(
            r.sort.key() != s.referent_sort.key(),
            TheoryViolationCode::ScopeSortMismatch,
            TheorySubject::Scope(s.id),
        ),
    }
}

/// An edge of the predicate's sort into the predicate's target.
pub open spec fn edge_matches(edge: EdgeDeclaration, to: ReferentId, sort_key: (int, Seq<char>)) -> bool {
    edge.sort.key() == sort_key && edge.to == to
}

/// A matching edge must start at a declared referent of the predicate's
/// source sort.
pub open spec fn matching_edge_violations(
    lib: CoreTheoryLibrary,
    s: TypedScopeDeclaration,
    source_key: (int, Seq<char>),
    to: ReferentId,
    edge_key: (int, Seq<char>),
    edge: EdgeDeclaration,
) -> Seq<TheoryViolation> {
    if edge_matches(edge, to, edge_key) {
        match first_referent(lib.referents@, edge.from) {
            None => seq![violation(TheoryViolationCode::MissingReference, TheorySubject::Scope(s.id))],
            Some(r) => when(
                r.sort.key() != source_key,
                TheoryViolationCode::ScopeSortMismatch,
                TheorySubject::Scope(s.id),
            ),
        }
    } else {
        Seq::empty()
    }
}

/// The violations of a scope: its context must carry the model's version, a
/// listed referent must exist with the scope's sort, and an edge-to predicate
/// must select the scope's sort, target a declared referent and be realised
/// by at least one edge from referents of that sort.
pub open spec fn scope_violations(lib: CoreTheoryLibrary, s: TypedScopeDeclaration) -> Seq<
    TheoryViolation,
> {
    let subject = TheorySubject::Scope(s.id);
    when(s.context.model_version@ != lib.model.version@, TheoryViolationCode::ContextInvariant, subject)
        + match s.predicate {
        MembershipPredicateDeclaration::All => Seq::empty(),
        MembershipPredicateDeclaration::ReferentIds { ids } => flat_map(
            ids@,
            |id: ReferentId| listed_referent_violations(lib, s, id),
        ),
        MembershipPredicateDeclaration::EdgeTo(e) => when(
            s.referent_sort.key() != e.source_sort.key(),
            TheoryViolationCode::ContextInvariant,
            subject,
        ) + if !holds_payload(lib.referents@, e.to.0) {
            seq![violation(TheoryViolationCode::MissingReference, subject)]
        } else {
            flat_map(
                lib.edges@,
                |edge: EdgeDeclaration|
                    matching_edge_violations(lib, s, e.source_sort.key(), e.to, e.edge_sort.key(), edge),
            ) + when(
                !(exists|k: int|
                    0 <= k < lib.edges@.len() && edge_matches(
                        #[trigger] lib.edges@[k],
                        e.to,
                        e.edge_sort.key(),
                    )),
                TheoryViolationCode::MissingReference,
                subject,
            )
        },
    }
}

/// A requirement's value must fit its operator and its sort admit it.
pub open spec fn requirement_violations(lib: CoreTheoryLibrary, q: RequirementDeclaration) -> Seq<
    TheoryViolation,
> {
    when(
        !operator_value_fits(q.operator, q.value) || !sort_operator_fits(q.sort, q.operator),
        TheoryViolationCode::ContextInvariant,
        TheorySubject::Requirement(q.id),
    )
}

/// A policy's declarer, scope and requirement must be declared.
pub open spec fn policy_violations(lib: CoreTheoryLibrary, p: PolicyDeclaration) -> Seq<
    TheoryViolation,
> {
    when(
        !holds_payload(lib.actors@, p.declared_by.0) || !holds_payload(lib.scopes@, p.scope.0)
            || !holds_payload(lib.requirements@, p.requirement.0),
        TheoryViolationCode::MissingReference,
        TheorySubject::Policy(p.id),
    )
}

/// An observation's source must be declared, and a referent it observes must
/// be declared with the observed sort.
pub open spec fn observation_violations(lib: CoreTheoryLibrary, o: ObservationDeclaration) -> Seq<
    TheoryViolation,
> {
    let subject = TheorySubject::Observation(o.id);
    when(
        !holds_payload(lib.evidence_sources@, o.source.0),
        TheoryViolationCode::MissingReference,
        subject,
    ) + match o.observed_referent {
        None => Seq::empty(),
        Some(id) => match first_referent(lib.referents@, id) {
            None => seq![violation(TheoryViolationCode::MissingReference, subject)],
            Some(r) => when(
                r.sort.key() != o.observed_sort.key(),
                TheoryViolationCode::ScopeSortMismatch,
                subject,
            ),
        },
    }
}

/// An evaluation's policy and every observation it relies on must be
/// declared.
pub open spec fn evaluation_violations(lib: CoreTheoryLibrary, v: EvaluationDeclaration) -> Seq<
    TheoryViolation,
> {
    let subject = TheorySubject::Evaluation(v.id);
    when(!holds_payload(lib.policies@, v.policy.0), TheoryViolationCode::MissingReference, subject)
        + flat_map(
        v.evidence_basis.references@,
        |id: ObservationId|
            when(
                !holds_payload(lib.observations@, id.0),
                TheoryViolationCode::MissingReference,
                subject,
            ),
    )
}

/// Every violation of the library, in the order the checks run.
pub open spec fn core_theory_violations(lib: CoreTheoryLibrary) -> Seq<TheoryViolation> {
    empty_set_violations(lib) + duplicate_section(lib) + model_violations(lib) + flat_map(
        lib.edges@,
        |e: EdgeDeclaration| edge_violations(lib, e),
    ) + flat_map(lib.boundaries@, |b: BoundaryDeclaration| boundary_violations(lib, b)) + flat_map(
        lib.scopes@,
        |s: TypedScopeDeclaration| scope_violations(lib, s),
    ) + flat_map(lib.requirements@, |q: RequirementDeclaration| requirement_violations(lib, q))
        + flat_map(lib.policies@, |p: PolicyDeclaration| policy_violations(lib, p)) + flat_map(
        lib.observations@,
        |o: ObservationDeclaration| observation_violations(lib, o),
    ) + flat_map(lib.evaluations@, |v: EvaluationDeclaration| evaluation_violations(lib, v))
}

/// Appends a violation when `cond` holds.
fn push_when(
    out: &mut Vec<TheoryViolation>,
    cond: bool,
    code: TheoryViolationCode,
    subject: TheorySubject,
)
    ensures
        final(out)@ == old(out)@ + when(cond, code, subject),
{
    if cond {
        out.push(TheoryViolation { code, subject });
    }
    assert(final(out)@ =~= old(out)@ + when(cond, code, subject));
}

/// Appends all of `more`.
fn append_all(out: &mut Vec<TheoryViolation>, more: Vec<TheoryViolation>)
    ensures
        final(out)@ == old(out)@ + more@,
{
    let mut more = more;
    out.append(&mut more);
}

fn check_edge(lib: &CoreTheoryLibrary, e: &EdgeDeclaration) -> (r: Vec<TheoryViolation>)
    ensures
        r@ == edge_violations(*lib, *e),
{
    let mut out: Vec<TheoryViolation> = Vec::new();
    let cond = !contains_payload(lib.referents.as_slice(), &e.from.0) || !contains_payload(
        lib.referents.as_slice(),
        &e.to.0,
    );
    push_when(&mut out, cond, TheoryViolationCode::MissingReference, TheorySubject::Edge(e.id));
    out
}

fn check_boundary(lib: &CoreTheoryLibrary, b: &BoundaryDeclaration) -> (r: Vec<TheoryViolation>)
    ensures
        r@ == boundary_violations(*lib, *b),
{
    let mut out: Vec<TheoryViolation> = Vec::new();
    let subject = TheorySubject::Boundary(b.id);
    push_when(
        &mut out,
        b.side_a.label != SideLabel::A || b.side_b.label != SideLabel::B,
        TheoryViolationCode::ContextInvariant,
        subject,
    );
    push_when(
        &mut out,
        b.surface_a.facing != SideLabel::A || b.surface_b.facing != SideLabel::B,
        TheoryViolationCode::ContextInvariant,
        subject,
    );
    push_when(
        &mut out,
        !b.surface_a.boundary_id.same(&b.id) || !b.surface_b.boundary_id.same(&b.id),
        TheoryViolationCode::ContextInvariant,
        subject,
    );
    push_when(
        &mut out,
        b.side_a.anchor.same(&b.side_b.anchor),
        TheoryViolationCode::ContextInvariant,
        subject,
    );
    let missing = !contains_payload(lib.referents.as_slice(), &b.side_a.anchor.0)
        || !contains_payload(lib.referents.as_slice(), &b.side_b.anchor.0);
    push_when(&mut out, missing, TheoryViolationCode::MissingReference, subject);
    assert(out@ =~= boundary_violations(*lib, *b));
    out
}

fn check_listed_referent(
    lib: &CoreTheoryLibrary,
    s: &TypedScopeDeclaration,
    id: &ReferentId,
) -> (r: Vec<TheoryViolation>)
    ensures
        r@ == listed_referent_violations(*lib, *s, *id),
{
    let mut out: Vec<TheoryViolation> = Vec::new();
    match find_referent(lib.referents.as_slice(), id) {
        None => {
            out.push(
                TheoryViolation {
                    code: TheoryViolationCode::MissingReference,
                    subject: TheorySubject::Scope(s.id),
                },
            );
        },
        Some(i) => {
            let mismatch = !lib.referents[i].sort.same_as(&s.referent_sort);
            push_when(
                &mut out,
                mismatch,
                TheoryViolationCode::ScopeSortMismatch,
                TheorySubject::Scope(s.id),
            );
        },
    }
    assert(out@ =~= listed_referent_violations(*lib, *s, *id));
    out
}

fn check_matching_edge(
    lib: &CoreTheoryLibrary,
    s: &TypedScopeDeclaration,
    e: &crate::kernel::theory::EdgeToPredicateDeclaration,
    edge: &EdgeDeclaration,
) -> (r: (Vec<TheoryViolation>, bool))
    ensures
        r.0@ == matching_edge_violations(
            *lib,
            *s,
            e.source_sort.key(),
            e.to,
            e.edge_sort.key(),
            *edge,
        ),
        r.1 == edge_matches(*edge, e.to, e.edge_sort.key()),
{
    let mut out: Vec<TheoryViolation> = Vec::new();
    let matches = edge.sort.same_as(&e.edge_sort) && edge.to.same(&e.to);
    if matches {
        match find_referent(lib.referents.as_slice(), &edge.from) {
            None => {
                out.push(
                    TheoryViolation {
                        code: TheoryViolationCode::MissingReference,
                        subject: TheorySubject::Scope(s.id),
                    },
                );
            },
            Some(i) => {
                let mismatch = !lib.referents[i].sort.same_as(&e.source_sort);
                push_when(
                    &mut out,
                    mismatch,
                    TheoryViolationCode::ScopeSortMismatch,
                    TheorySubject::Scope(s.id),
                );
            },
        }
    }
    assert(out@ =~= matching_edge_violations(
        *lib,
        *s,
        e.source_sort.key(),
        e.to,
        e.edge_sort.key(),
        *edge,
    ));
    (out, matches)
}

fn check_scope(lib: &CoreTheoryLibrary, s: &TypedScopeDeclaration) -> (r: Vec<TheoryViolation>)
    ensures
        r@ == scope_violations(*lib, *s),
{
    let mut out: Vec<TheoryViolation> = Vec::new();
    let subject = TheorySubject::Scope(s.id);
    push_when(
        &mut out,
        !s.context.model_version.same_text(&lib.model.version),
        TheoryViolationCode::ContextInvariant,
        subject,
    );
    let ghost head = out@;
    match &s.predicate {
        MembershipPredicateDeclaration::All => {},
        MembershipPredicateDeclaration::ReferentIds { ids } => {
            let items = ids.as_slice();
            let ghost f = |id: ReferentId| listed_referent_violations(*lib, *s, id);
            let mut i: usize = 0;
            while i < items.len()
                invariant
                    i <= items@.len(),
                    items@ == ids@,
                    f == (|id: ReferentId| listed_referent_violations(*lib, *s, id)),
                    out@ == head + flat_map(items@.take(i as int), f),
                decreases items@.len() - i,
            {
                let more = check_listed_referent(lib, s, &items[i]);
                proof {
                    lemma_flat_map_step(items@, f, i as int);
                }
                append_all(&mut out, more);
                i = i + 1;
            }
            assert(items@.take(items@.len() as int) =~= items@);
        },
        MembershipPredicateDeclaration::EdgeTo(e) => {
            push_when(
                &mut out,
                !s.referent_sort.same_as(&e.source_sort),
                TheoryViolationCode::ContextInvariant,
                subject,
            );
            if !contains_payload(lib.referents.as_slice(), &e.to.0) {
                out.push(TheoryViolation { code: TheoryViolationCode::MissingReference, subject });
            } else {
                let ghost mid = out@;
                let ghost f = |edge: EdgeDeclaration|
                    matching_edge_violations(*lib, *s, e.source_sort.key(), e.to, e.edge_sort.key(), edge);
                let mut has_matching_edge = false;
                let mut i: usize = 0;
                while i < lib.edges.len()
                    invariant
                        i <= lib.edges@.len(),
                        f == (|edge: EdgeDeclaration|
                            matching_edge_violations(
                                *lib,
                                *s,
                                e.source_sort.key(),
                                e.to,
                                e.edge_sort.key(),
                                edge,
                            )),
                        out@ == mid + flat_map(lib.edges@.take(i as int), f),
                        has_matching_edge == exists|k: int|
                            0 <= k < i && edge_matches(
                                #[trigger] lib.edges@[k],
                                e.to,
                                e.edge_sort.key(),
                            ),
                    decreases lib.edges@.len() - i,
                {
                    let (more, matched) = check_matching_edge(lib, s, e, &lib.edges[i]);
                    proof {
                        lemma_flat_map_step(lib.edges@, f, i as int);
                    }
                    append_all(&mut out, more);
                    has_matching_edge = has_matching_edge || matched;
                    i = i + 1;
                }
                assert(lib.edges@.take(lib.edges@.len() as int) =~= lib.edges@);
                push_when(&mut out, !has_matching_edge, TheoryViolationCode::MissingReference, subject);
            }
        },
    }
    assert(out@ =~= scope_violations(*lib, *s));
    out
}

fn check_requirement(lib: &CoreTheoryLibrary, q: &RequirementDeclaration) -> (r: Vec<
    TheoryViolation,
>)
    ensures
        r@ == requirement_violations(*lib, *q),
{
    let mut out: Vec<TheoryViolation> = Vec::new();
    let cond = !operator_matches_value(&q.operator, &q.value) || !sort_matches_operator(
        &q.sort,
        &q.operator,
    );
    push_when(
        &mut out,
        cond,
        TheoryViolationCode::ContextInvariant,
        TheorySubject::Requirement(q.id),
    );
    out
}

fn check_policy(lib: &CoreTheoryLibrary, p: &PolicyDeclaration) -> (r: Vec<TheoryViolation>)
    ensures
        r@ == policy_violations(*lib, *p),
{
    let mut out: Vec<TheoryViolation> = Vec::new();
    let cond = !contains_payload(lib.actors.as_slice(), &p.declared_by.0) || !contains_payload(
        lib.scopes.as_slice(),
        &p.scope.0,
    ) || !contains_payload(lib.requirements.as_slice(), &p.requirement.0);
    push_when(&mut out, cond, TheoryViolationCode::MissingReference, TheorySubject::Policy(p.id));
    out
}

fn check_observation(lib: &CoreTheoryLibrary, o: &ObservationDeclaration) -> (r: Vec<
    TheoryViolation,
>)
    ensures
        r@ == observation_violations(*lib, *o),
{
    let mut out: Vec<TheoryViolation> = Vec::new();
    let subject = TheorySubject::Observation(o.id);
    push_when(
        &mut out,
        !contains_payload(lib.evidence_sources.as_slice(), &o.source.0),
        TheoryViolationCode::MissingReference,
        subject,
    );
    if let Some(id) = &o.observed_referent {
        match find_referent(lib.referents.as_slice(), id) {
            None => {
                out.push(TheoryViolation { code: TheoryViolationCode::MissingReference, subject });
            },
            Some(i) => {
                let mismatch = !lib.referents[i].sort.same_as(&o.observed_sort);
                push_when(&mut out, mismatch, TheoryViolationCode::ScopeSortMismatch, subject);
            },
        }
    }
    assert(out@ =~= observation_violations(*lib, *o));
    out
}

fn check_evaluation(lib: &CoreTheoryLibrary, v: &EvaluationDeclaration) -> (r: Vec<
    TheoryViolation,
>)
    ensures
        r@ == evaluation_violations(*lib, *v),
{
    let mut out: Vec<TheoryViolation> = Vec::new();
    let subject = TheorySubject::Evaluation(v.id);
    push_when(
        &mut out,
        !contains_payload(lib.policies.as_slice(), &v.policy.0),
        TheoryViolationCode::MissingReference,
        subject,
    );
    let ghost head = out@;
    let refs = v.evidence_basis.references.as_slice();
    let ghost f = |id: ObservationId|
        when(!holds_payload(lib.observations@, id.0), TheoryViolationCode::MissingReference, subject);
    let mut i: usize = 0;
    while i < refs.len()
        invariant
            i <= refs@.len(),
            refs@ == v.evidence_basis.references@,
            f == (|id: ObservationId|
                when(
                    !holds_payload(lib.observations@, id.0),
                    TheoryViolationCode::MissingReference,
                    subject,
                )),
            out@ == head + flat_map(refs@.take(i as int), f),
        decreases refs@.len() - i,
    {
        let ghost before = out@;
        proof {
            lemma_flat_map_step(refs@, f, i as int);
        }
        push_when(
            &mut out,
            !contains_payload(lib.observations.as_slice(), &refs[i].0),
            TheoryViolationCode::MissingReference,
            subject,
        );
        i = i + 1;
    }
    assert(refs@.take(refs@.len() as int) =~= refs@);
    assert(out@ =~= evaluation_violations(*lib, *v));
    out
}

/// The violations of every item of `edges`, in order.
fn check_all_edges(lib: &CoreTheoryLibrary) -> (r: Vec<TheoryViolation>)
    ensures
        r@ == flat_map(lib.edges@, |e: EdgeDeclaration| edge_violations(*lib, e)),
{
    let ghost f = |e: EdgeDeclaration| edge_violations(*lib, e);
    let mut out: Vec<TheoryViolation> = Vec::new();
    let mut i: usize = 0;
    while i < lib.edges.len()
        invariant
            i <= lib.edges@.len(),
            f == (|e: EdgeDeclaration| edge_violations(*lib, e)),
            out@ == flat_map(lib.edges@.take(i as int), f),
        decreases lib.edges@.len() - i,
    {
        let more = check_edge(lib, &lib.edges[i]);
        proof {
            lemma_flat_map_step(lib.edges@, f, i as int);
        }
        append_all(&mut out, more);
        i = i + 1;
    }
    assert(lib.edges@.take(lib.edges@.len() as int) =~= lib.edges@);
    out
}

/// The violations of every item of `boundaries`, in order.
fn check_all_boundaries(lib: &CoreTheoryLibrary) -> (r: Vec<TheoryViolation>)
    ensures
        r@ == flat_map(lib.boundaries@, |b: BoundaryDeclaration| boundary_violations(*lib, b)),
{
    let ghost f = |b: BoundaryDeclaration| boundary_violations(*lib, b);
    let mut out: Vec<TheoryViolation> = Vec::new();
    let mut i: usize = 0;
    while i < lib.boundaries.len()
        invariant
            i <= lib.boundaries@.len(),
            f == (|b: BoundaryDeclaration| boundary_violations(*lib, b)),
            out@ == flat_map(lib.boundaries@.take(i as int), f),
        decreases lib.boundaries@.len() - i,
    {
        let more = check_boundary(lib, &lib.boundaries[i]);
        proof {
            lemma_flat_map_step(lib.boundaries@, f, i as int);
        }
        append_all(&mut out, more);
        i = i + 1;
    }
    assert(lib.boundaries@.take(lib.boundaries@.len() as int) =~= lib.boundaries@);
    out
}

/// The violations of every item of `scopes`, in order.
fn check_all_scopes(lib: &CoreTheoryLibrary) -> (r: Vec<TheoryViolation>)
    ensures
        r@ == flat_map(lib.scopes@, |s: TypedScopeDeclaration| scope_violations(*lib, s)),
{
    let ghost f = |s: TypedScopeDeclaration| scope_violations(*lib, s);
    let mut out: Vec<TheoryViolation> = Vec::new();
    let mut i: usize = 0;
    while i < lib.scopes.len()
        invariant
            i <= lib.scopes@.len(),
            f == (|s: TypedScopeDeclaration| scope_violations(*lib, s)),
            out@ == flat_map(lib.scopes@.take(i as int), f),
        decreases lib.scopes@.len() - i,
    {
        let more = check_scope(lib, &lib.scopes[i]);
        proof {
            lemma_flat_map_step(lib.scopes@, f, i as int);
        }
        append_all(&mut out, more);
        i = i + 1;
    }
    assert(lib.scopes@.take(lib.scopes@.len() as int) =~= lib.scopes@);
    out
}

/// The violations of every item of `requirements`, in order.
fn check_all_requirements(lib: &CoreTheoryLibrary) -> (r: Vec<TheoryViolation>)
    ensures
        r@ == flat_map(lib.requirements@, |q: RequirementDeclaration| requirement_violations(*lib, q)),
{
    let ghost f = |q: RequirementDeclaration| requirement_violations(*lib, q);
    let mut out: Vec<TheoryViolation> = Vec::new();
    let mut i: usize = 0;
    while i < lib.requirements.len()
        invariant
            i <= lib.requirements@.len(),
            f == (|q: RequirementDeclaration| requirement_violations(*lib, q)),
            out@ == flat_map(lib.requirements@.take(i as int), f),
        decreases lib.requirements@.len() - i,
    {
        let more = check_requirement(lib, &lib.requirements[i]);
        proof {
            lemma_flat_map_step(lib.requirements@, f, i as int);
        }
        append_all(&mut out, more);
        i = i + 1;
    }
    assert(lib.requirements@.take(lib.requirements@.len() as int) =~= lib.requirements@);
    out
}

/// The violations of every item of `policies`, in order.
fn check_all_policies(lib: &CoreTheoryLibrary) -> (r: Vec<TheoryViolation>)
    ensures
        r@ == flat_map(lib.policies@, |p: PolicyDeclaration| policy_violations(*lib, p)),
{
    let ghost f = |p: PolicyDeclaration| policy_violations(*lib, p);
    let mut out: Vec<TheoryViolation> = Vec::new();
    let mut i: usize = 0;
    while i < lib.policies.len()
        invariant
            i <= lib.policies@.len(),
            f == (|p: PolicyDeclaration| policy_violations(*lib, p)),
            out@ == flat_map(lib.policies@.take(i as int), f),
        decreases lib.policies@.len() - i,
    {
        let more = check_policy(lib, &lib.policies[i]);
        proof {
            lemma_flat_map_step(lib.policies@, f, i as int);
        }
        append_all(&mut out, more);
        i = i + 1;
    }
    assert(lib.policies@.take(lib.policies@.len() as int) =~= lib.policies@);
    out
}

/// The violations of every item of `observations`, in order.
fn check_all_observations(lib: &CoreTheoryLibrary) -> (r: Vec<TheoryViolation>)
    ensures
        r@ == flat_map(lib.observations@, |o: ObservationDeclaration| observation_violations(*lib, o)),
{
    let ghost f = |o: ObservationDeclaration| observation_violations(*lib, o);
    let mut out: Vec<TheoryViolation> = Vec::new();
    let mut i: usize = 0;
    while i < lib.observations.len()
        invariant
            i <= lib.observations@.len(),
            f == (|o: ObservationDeclaration| observation_violations(*lib, o)),
            out@ == flat_map(lib.observations@.take(i as int), f),
        decreases lib.observations@.len() - i,
    {
        let more = check_observation(lib, &lib.observations[i]);
        proof {
            lemma_flat_map_step(lib.observations@, f, i as int);
        }
        append_all(&mut out, more);
        i = i + 1;
    }
    assert(lib.observations@.take(lib.observations@.len() as int) =~= lib.observations@);
    out
}

/// The violations of every item of `evaluations`, in order.
fn check_all_evaluations(lib: &CoreTheoryLibrary) -> (r: Vec<TheoryViolation>)
    ensures
        r@ == flat_map(lib.evaluations@, |v: EvaluationDeclaration| evaluation_violations(*lib, v)),
{
    let ghost f = |v: EvaluationDeclaration| evaluation_violations(*lib, v);
    let mut out: Vec<TheoryViolation> = Vec::new();
    let mut i: usize = 0;
    while i < lib.evaluations.len()
        invariant
            i <= lib.evaluations@.len(),
            f == (|v: EvaluationDeclaration| evaluation_violations(*lib, v)),
            out@ == flat_map(lib.evaluations@.take(i as int), f),
        decreases lib.evaluations@.len() - i,
    {
        let more = check_evaluation(lib, &lib.evaluations[i]);
        proof {
            lemma_flat_map_step(lib.evaluations@, f, i as int);
        }
        append_all(&mut out, more);
        i = i + 1;
    }
    assert(lib.evaluations@.take(lib.evaluations@.len() as int) =~= lib.evaluations@);
    out
}

fn check_empty_sets(library: &CoreTheoryLibrary) -> (r: Vec<TheoryViolation>)
    ensures
        r@ == empty_set_violations(*library),
{
    let mut violations: Vec<TheoryViolation> = Vec::new();
    let code = TheoryViolationCode::EmptyRequiredSet;
    push_when(&mut violations, library.actors.len() == 0, code, TheorySubject::Model);
    push_when(&mut violations, library.boundaries.len() == 0, code, TheorySubject::Model);
    push_when(&mut violations, library.edges.len() == 0, code, TheorySubject::Model);
    push_when(&mut violations, library.scopes.len() == 0, code, TheorySubject::Model);
    push_when(&mut violations, library.requirements.len() == 0, code, TheorySubject::Model);
    push_when(&mut violations, library.policies.len() == 0, code, TheorySubject::Model);
    assert(violations@ =~= empty_set_violations(*library));
    violations
}

fn check_duplicates(library: &CoreTheoryLibrary) -> (r: Vec<TheoryViolation>)
    ensures
        r@ == duplicate_section(*library),
{
    let mut violations = validate_unique_actors(library.actors.as_slice());
    append_all(&mut violations, validate_unique_referents(library.referents.as_slice()));
    append_all(&mut violations, validate_unique_boundaries(library.boundaries.as_slice()));
    append_all(&mut violations, validate_unique_edges(library.edges.as_slice()));
    append_all(&mut violations, validate_unique_scopes(library.scopes.as_slice()));
    append_all(&mut violations, validate_unique_requirements(library.requirements.as_slice()));
    append_all(&mut violations, validate_unique_policies(library.policies.as_slice()));
    append_all(
        &mut violations,
        validate_unique_evidence_sources(library.evidence_sources.as_slice()),
    );
    append_all(&mut violations, validate_unique_observations(library.observations.as_slice()));
    append_all(&mut violations, validate_unique_evaluations(library.evaluations.as_slice()));
    violations
}

fn check_model(library: &CoreTheoryLibrary) -> (r: Vec<TheoryViolation>)
    ensures
        r@ == model_violations(*library),
{
    let mut violations: Vec<TheoryViolation> = Vec::new();
    push_when(
        &mut violations,
        !contains_payload(library.actors.as_slice(), &library.model.declared_by.0),
        TheoryViolationCode::MissingReference,
        TheorySubject::Model,
    );
    violations
}

/// Validates minimum declaration coherence for the abstract theory library:
/// required sets are non-empty, identifiers are unique per collection, every
/// reference resolves, sorts agree and each declaration keeps its own
/// invariants. The violations come in the order of those checks.
pub fn validate_core_theory_library(library: &CoreTheoryLibrary) -> (r: Vec<TheoryViolation>)
    ensures
        r@ == core_theory_violations(*library),
{
    let mut violations = check_empty_sets(library);
    append_all(&mut violations, check_duplicates(library));
    append_all(&mut violations, check_model(library));
    append_all(&mut violations, check_all_edges(library));
    append_all(&mut violations, check_all_boundaries(library));
    append_all(&mut violations, check_all_scopes(library));
    append_all(&mut violations, check_all_requirements(library));
    append_all(&mut violations, check_all_policies(library));
    append_all(&mut violations, check_all_observations(library));
    append_all(&mut violations, check_all_evaluations(library));
    violations
}

} // verus!
