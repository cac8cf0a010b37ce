//! The canonical model does not depend on the order in which a declaration
//! lists its entries.
use vstd::prelude::*;

use crate::canon::ordering::{
    keys_distinct, lemma_distinct_keys_rearranged, lemma_sorted_rearrangement_unique, sorted_by_key,
    text_key_of, TextKeyed,
};
use crate::declare::concretise::{
    canonical_model_of, entries_for, entry_for, is_normal_form, lemma_normalization_ignores_input_order,
    lemma_same_normal_form_same_model, names_unique, pairs_match, paths_of, rearranges, theory_of,
    trace_of, CanonicalModel, CanonicalPaths, CanonicalTraceEntry, CanonicalTraceMap,
    DeterministicIdKind, NormalizedSecurityDeclaration,
};
use crate::declare::declaration::SecurityDeclaration;
use crate::declare::name::DeclarationName;
use crate::declare::validation::Named;
use crate::kernel::id::{ActorId, ModelId, ReferentId, ScopeId};
use crate::kernel::theory::{
    ActorDeclaration, BoundaryDeclaration, EdgeDeclaration, EdgeToPredicateDeclaration,
    EvaluationContextDeclaration, MembershipPredicateDeclaration, PolicyDeclaration,
    RequirementDeclaration, TypedScopeDeclaration,
};
use crate::kernel::theory_validation::CoreTheoryLibrary;

verus! {

broadcast use vstd::array::group_array_axioms;

/// A name and path pair by the values it holds.
pub open spec fn pairs_view(s: Seq<(DeclarationName, String)>) -> Seq<(DeclarationName, Seq<char>)> {
    s.map_values(|q: (DeclarationName, String)| (q.0, q.1@))
}

/// The canonical paths by the values they hold.
pub open spec fn paths_view(p: CanonicalPaths) -> (
    Seq<char>,
    Seq<char>,
    Seq<Seq<(DeclarationName, Seq<char>)>>,
) {
    (
        p.model@,
        p.actor_system@,
        seq![
            pairs_view(p.zones@),
            pairs_view(p.boundaries@),
            pairs_view(p.scopes@),
            pairs_view(p.routes@),
            pairs_view(p.policies@),
            pairs_view(p.requirements@),
            pairs_view(p.policy_scopes@),
        ],
    )
}

/// Trace entries by the values they hold: name, path and id.
pub open spec fn entries_view(s: Seq<(DeclarationName, CanonicalTraceEntry)>) -> Seq<
    (DeclarationName, Seq<char>, [u8; 16]),
> {
    s.map_values(
        |e: (DeclarationName, CanonicalTraceEntry)|
            (e.0, e.1.canonical_path@, e.1.deterministic_id),
    )
}

/// The trace map by the values it holds.
pub open spec fn trace_view(t: CanonicalTraceMap) -> (
    Seq<char>,
    [u8; 16],
    Seq<Seq<(DeclarationName, Seq<char>, [u8; 16])>>,
) {
    (
        t.model.canonical_path@,
        t.model.deterministic_id,
        seq![
            entries_view(t.zones@),
            entries_view(t.boundaries@),
            entries_view(t.routes@),
            entries_view(t.scopes@),
            entries_view(t.policies@),
            entries_view(t.requirements@),
        ],
    )
}

/// An optional text by its characters.
pub open spec fn text_option<T: View<V = Seq<char>>>(o: Option<T>) -> Option<Seq<char>> {
    match o {
        Some(x) => Some(x@),
        None => None,
    }
}

/// A scope's context by the values it holds.
pub open spec fn context_view(c: EvaluationContextDeclaration) -> (
    Seq<char>,
    Option<Seq<char>>,
    Option<crate::kernel::id::BoundaryId>,
    Option<ActorId>,
    Option<Seq<char>>,
    Option<crate::kernel::id::EvidenceSourceId>,
) {
    (
        c.model_version@,
        text_option(c.namespace),
        c.boundary,
        c.actor_authority,
        text_option(c.snapshot_at),
        c.evidence_source,
    )
}

/// A membership predicate by the values it holds: every referent, a list of
/// referents, or an edge-to predicate.
pub open spec fn predicate_view(p: MembershipPredicateDeclaration) -> (
    int,
    Seq<ReferentId>,
    Option<EdgeToPredicateDeclaration>,
) {
    match p {
        MembershipPredicateDeclaration::All => (0, Seq::empty(), None),
        MembershipPredicateDeclaration::ReferentIds { ids } => (1, ids@, None),
        MembershipPredicateDeclaration::EdgeTo(e) => (2, Seq::empty(), Some(e)),
    }
}

/// A typed scope by the values it holds.
pub open spec fn scope_view(s: TypedScopeDeclaration) -> (
    ScopeId,
    (int, Seq<char>),
    (
        Seq<char>,
        Option<Seq<char>>,
        Option<crate::kernel::id::BoundaryId>,
        Option<ActorId>,
        Option<Seq<char>>,
        Option<crate::kernel::id::EvidenceSourceId>,
    ),
    (int, Seq<ReferentId>, Option<EdgeToPredicateDeclaration>),
) {
    (s.id, s.referent_sort.key(), context_view(s.context), predicate_view(s.predicate))
}

/// The theory library by the values it holds.
pub open spec fn theory_view(t: CoreTheoryLibrary) -> (
    (ModelId, Seq<char>, Seq<char>, ActorId),
    Seq<ActorDeclaration>,
    Seq<(ReferentId, (int, Seq<char>))>,
    Seq<BoundaryDeclaration>,
    Seq<EdgeDeclaration>,
    Seq<
        (
            ScopeId,
            (int, Seq<char>),
            (
                Seq<char>,
                Option<Seq<char>>,
                Option<crate::kernel::id::BoundaryId>,
                Option<ActorId>,
                Option<Seq<char>>,
                Option<crate::kernel::id::EvidenceSourceId>,
            ),
            (int, Seq<ReferentId>, Option<EdgeToPredicateDeclaration>),
        ),
    >,
    Seq<RequirementDeclaration>,
    Seq<PolicyDeclaration>,
    (nat, nat, nat),
) {
    (
        (t.model.id, t.model.version@, t.model.declared_at@, t.model.declared_by),
        t.actors@,
        t.referents@.map_values(|r: crate::kernel::theory::ReferentDeclaration| (r.id, r.sort.key())),
        t.boundaries@,
        t.edges@,
        t.scopes@.map_values(|s: TypedScopeDeclaration| scope_view(s)),
        t.requirements@,
        t.policies@,
        (t.evidence_sources@.len(), t.observations@.len(), t.evaluations@.len()),
    )
}

proof fn lemma_pairs_determined<T: Named>(
    a: Seq<(DeclarationName, String)>,
    b: Seq<(DeclarationName, String)>,
    items: Seq<T>,
    prefix: Seq<char>,
)
    requires
        pairs_match(a, items, prefix),
        pairs_match(b, items, prefix),
    ensures
        pairs_view(a) == pairs_view(b),
{
    assert(pairs_view(a) =~= pairs_view(b));
}

/// Two path sets that a normal form calls for hold the same values.
proof fn lemma_paths_determined(p1: CanonicalPaths, p2: CanonicalPaths, n: NormalizedSecurityDeclaration)
    requires
        paths_of(p1, n),
        paths_of(p2, n),
    ensures
        paths_view(p1) == paths_view(p2),
{
    lemma_pairs_determined(p1.zones@, p2.zones@, n.zones@, "referent/zone/"@);
    lemma_pairs_determined(p1.boundaries@, p2.boundaries@, n.boundaries@, "boundary/"@);
    lemma_pairs_determined(p1.scopes@, p2.scopes@, n.scopes@, "scope/"@);
    lemma_pairs_determined(p1.routes@, p2.routes@, n.routes@, "edge/route/"@);
    lemma_pairs_determined(p1.policies@, p2.policies@, n.route_policies@, "policy/"@);
    lemma_pairs_determined(
        p1.requirements@,
        p2.requirements@,
        n.route_policies@,
        "requirement/route-policy/"@,
    );
    lemma_pairs_determined(
        p1.policy_scopes@,
        p2.policy_scopes@,
        n.route_policies@,
        "scope/route-policy/"@,
    );
}

proof fn lemma_entries_determined(
    r1: Seq<(DeclarationName, CanonicalTraceEntry)>,
    r2: Seq<(DeclarationName, CanonicalTraceEntry)>,
    p1: Seq<(DeclarationName, String)>,
    p2: Seq<(DeclarationName, String)>,
    kind: DeterministicIdKind,
    v: Seq<char>,
)
    requires
        entries_for(r1, p1, kind, v),
        entries_for(r2, p2, kind, v),
        pairs_view(p1) == pairs_view(p2),
        p1.map_values(|q: (DeclarationName, String)| q.0@).no_duplicates(),
    ensures
        entries_view(r1) == entries_view(r2),
{
    let e1 = choose|e: Seq<(DeclarationName, CanonicalTraceEntry)>|
        #![trigger e.to_multiset()]
        e.len() == p1.len() && (forall|i: int|
            0 <= i < e.len() ==> entry_for(#[trigger] e[i], p1[i], kind, v)) && r1.to_multiset()
            == e.to_multiset();
    let e2 = choose|e: Seq<(DeclarationName, CanonicalTraceEntry)>|
        #![trigger e.to_multiset()]
        e.len() == p2.len() && (forall|i: int|
            0 <= i < e.len() ==> entry_for(#[trigger] e[i], p2[i], kind, v)) && r2.to_multiset()
            == e.to_multiset();
    assert(pairs_view(p1).len() == p1.len() && pairs_view(p2).len() == p2.len());
    assert forall|i: int| 0 <= i < e1.len() implies #[trigger] entries_view(e1)[i] == entries_view(
        e2,
    )[i] by {
        assert(entry_for(e1[i], p1[i], kind, v));
        assert(entry_for(e2[i], p2[i], kind, v));
        assert(pairs_view(p1)[i] == pairs_view(p2)[i]);
        assert(e1[i].1.deterministic_id =~= e2[i].1.deterministic_id);
    }
    assert(entries_view(e1) =~= entries_view(e2));
    let ev = |e: (DeclarationName, CanonicalTraceEntry)|
        (e.0, e.1.canonical_path@, e.1.deterministic_id);
    crate::policy::compile::lemma_map_multiset(r1, e1, ev);
    crate::policy::compile::lemma_map_multiset(r2, e2, ev);
    assert(entries_view(r1) == r1.map_values(ev));
    assert(entries_view(r2) == r2.map_values(ev));
    assert(entries_view(e1) == e1.map_values(ev));
    assert(entries_view(e2) == e2.map_values(ev));
    let key = |x: (DeclarationName, Seq<char>, [u8; 16])| x.0@;
    assert(e1.map_values(ev).map_values(key) =~= p1.map_values(
        |q: (DeclarationName, String)| q.0@,
    ));
    lemma_distinct_keys_rearranged(r1.map_values(ev), e1.map_values(ev), key);
    assert forall|i: int, j: int| 0 <= i < j < r1.len() implies crate::text::seq_le(
        key(r1.map_values(ev)[i]),
        key(r1.map_values(ev)[j]),
    ) by {
        assert(sorted_by_key(r1));
        assert(r1[i].text_key() == key(r1.map_values(ev)[i]));
        assert(r1[j].text_key() == key(r1.map_values(ev)[j]));
    }
    assert forall|i: int, j: int| 0 <= i < j < r2.len() implies crate::text::seq_le(
        key(r2.map_values(ev)[i]),
        key(r2.map_values(ev)[j]),
    ) by {
        assert(sorted_by_key(r2));
        assert(r2[i].text_key() == key(r2.map_values(ev)[i]));
        assert(r2[j].text_key() == key(r2.map_values(ev)[j]));
    }
    lemma_sorted_rearrangement_unique(r1.map_values(ev), r2.map_values(ev), key);
}

/// The names of the pairs, as texts.
pub open spec fn pair_names(s: Seq<(DeclarationName, String)>) -> Seq<Seq<char>> {
    s.map_values(|q: (DeclarationName, String)| q.0@)
}

/// Two trace maps of path sets holding the same values, whose names are
/// distinct, hold the same values.
proof fn lemma_trace_determined(
    t1: CanonicalTraceMap,
    t2: CanonicalTraceMap,
    p1: CanonicalPaths,
    p2: CanonicalPaths,
    v: Seq<char>,
)
    requires
        trace_of(t1, p1, v),
        trace_of(t2, p2, v),
        paths_view(p1) == paths_view(p2),
        pair_names(p1.zones@).no_duplicates(),
        pair_names(p1.boundaries@).no_duplicates(),
        pair_names(p1.scopes@).no_duplicates(),
        pair_names(p1.routes@).no_duplicates(),
        pair_names(p1.policies@).no_duplicates(),
        pair_names(p1.requirements@).no_duplicates(),
    ensures
        trace_view(t1) == trace_view(t2),
{
    let a = paths_view(p1).2;
    let b = paths_view(p2).2;
    assert(a[0] == b[0] && a[1] == b[1] && a[2] == b[2] && a[3] == b[3] && a[4] == b[4] && a[5]
        == b[5]);
    lemma_entries_determined(t1.zones@, t2.zones@, p1.zones@, p2.zones@, DeterministicIdKind::Referent, v);
    lemma_entries_determined(
        t1.boundaries@,
        t2.boundaries@,
        p1.boundaries@,
        p2.boundaries@,
        DeterministicIdKind::Boundary,
        v,
    );
    lemma_entries_determined(t1.routes@, t2.routes@, p1.routes@, p2.routes@, DeterministicIdKind::Edge, v);
    lemma_entries_determined(t1.scopes@, t2.scopes@, p1.scopes@, p2.scopes@, DeterministicIdKind::Scope, v);
    lemma_entries_determined(
        t1.policies@,
        t2.policies@,
        p1.policies@,
        p2.policies@,
        DeterministicIdKind::Policy,
        v,
    );
    lemma_entries_determined(
        t1.requirements@,
        t2.requirements@,
        p1.requirements@,
        p2.requirements@,
        DeterministicIdKind::Requirement,
        v,
    );
    assert(t1.model.deterministic_id =~= t2.model.deterministic_id);
    assert(trace_view(t1).2 =~= trace_view(t2).2);
}

/// Two theory libraries that a normal form calls for hold the same values.
proof fn lemma_theory_determined(t1: CoreTheoryLibrary, t2: CoreTheoryLibrary, n: NormalizedSecurityDeclaration)
    requires
        theory_of(t1, n),
        theory_of(t2, n),
    ensures
        theory_view(t1) == theory_view(t2),
{
    assert(t1.model.id.0 =~= t2.model.id.0);
    assert(t1.model.declared_by.0 =~= t2.model.declared_by.0);
    assert(t1.actors@ =~= t2.actors@);
    let rv = |r: crate::kernel::theory::ReferentDeclaration| (r.id, r.sort.key());
    assert forall|i: int| 0 <= i < t1.referents@.len() implies #[trigger] t1.referents@.map_values(
        rv,
    )[i] == t2.referents@.map_values(rv)[i] by {
        let nz = n.zones@.len() as int;
        let nb = n.boundaries@.len() as int;
        let nr = n.routes@.len() as int;
        if i < nz {
            assert(t1.referents@[i] == t1.referents@[i] && t2.referents@[i] == t2.referents@[i]);
        } else if i < nz + nb {
            assert(t1.referents@[nz + (i - nz)] == t1.referents@[i]);
            assert(t2.referents@[nz + (i - nz)] == t2.referents@[i]);
        } else if i < nz + nb + nr {
            assert(t1.referents@[nz + nb + (i - nz - nb)] == t1.referents@[i]);
            assert(t2.referents@[nz + nb + (i - nz - nb)] == t2.referents@[i]);
        }
        assert(t1.referents@[i].id.0 =~= t2.referents@[i].id.0);
    }
    assert(t1.referents@.map_values(rv) =~= t2.referents@.map_values(rv));
    assert forall|i: int| 0 <= i < t1.boundaries@.len() implies #[trigger] t1.boundaries@[i]
        == t2.boundaries@[i] by {
        let b1 = t1.boundaries@[i];
        let b2 = t2.boundaries@[i];
        assert(b1.id.0 =~= b2.id.0);
        assert(b1.side_a.anchor.0 =~= b2.side_a.anchor.0);
        assert(b1.side_b.anchor.0 =~= b2.side_b.anchor.0);
        assert(b1.surface_a.id.0 =~= b2.surface_a.id.0);
        assert(b1.surface_b.id.0 =~= b2.surface_b.id.0);
    }
    assert(t1.boundaries@ =~= t2.boundaries@);
    assert forall|i: int| 0 <= i < t1.edges@.len() implies #[trigger] t1.edges@[i] == t2.edges@[i] by {
        let e1 = t1.edges@[i];
        let e2 = t2.edges@[i];
        assert(e1.id.0 =~= e2.id.0);
        assert(e1.from.0 =~= e2.from.0);
        assert(e1.to.0 =~= e2.to.0);
    }
    assert(t1.edges@ =~= t2.edges@);
    let sv = |s: TypedScopeDeclaration| scope_view(s);
    let ns = n.scopes@.len();
    assert forall|i: int| 0 <= i < t1.scopes@.len() implies #[trigger] t1.scopes@.map_values(sv)[i]
        == t2.scopes@.map_values(sv)[i] by {
        let s1 = t1.scopes@[i];
        let s2 = t2.scopes@[i];
        assert(s1.id.0 =~= s2.id.0);
        let ids1 = s1.predicate->ids;
        let ids2 = s2.predicate->ids;
        assert(ids1@[0].0 =~= ids2@[0].0);
        assert(ids1@ =~= ids2@);
        if i >= ns {
            assert(t1.scopes@[ns + (i - ns)] == s1);
        }
    }
    assert(t1.scopes@.map_values(sv) =~= t2.scopes@.map_values(sv));
    assert forall|i: int| 0 <= i < t1.requirements@.len() implies #[trigger] t1.requirements@[i]
        == t2.requirements@[i] by {
        assert(t1.requirements@[i].id.0 =~= t2.requirements@[i].id.0);
    }
    assert(t1.requirements@ =~= t2.requirements@);
    assert forall|i: int| 0 <= i < t1.policies@.len() implies #[trigger] t1.policies@[i]
        == t2.policies@[i] by {
        let q1 = t1.policies@[i];
        let q2 = t2.policies@[i];
        assert(q1.id.0 =~= q2.id.0);
        assert(q1.scope.0 =~= q2.scope.0);
        assert(q1.requirement.0 =~= q2.requirement.0);
    }
    assert(t1.policies@ =~= t2.policies@);
}

/// A normal form of a declaration with distinct names has distinct names.
proof fn lemma_normal_names_distinct(d: SecurityDeclaration, n: NormalizedSecurityDeclaration)
    requires
        names_unique(d),
        is_normal_form(n, d),
    ensures
        keys_distinct(n.zones@),
        keys_distinct(n.boundaries@),
        keys_distinct(n.scopes@),
        keys_distinct(n.routes@),
        keys_distinct(n.route_policies@),
{
    lemma_distinct_keys_rearranged(n.zones@, d.zones@, text_key_of::<crate::declare::declaration::ZoneDeclaration>());
    lemma_distinct_keys_rearranged(n.scopes@, d.scopes@, text_key_of::<crate::declare::declaration::ScopeDeclaration>());
    lemma_distinct_keys_rearranged(n.routes@, d.routes@, text_key_of::<crate::declare::declaration::RouteDeclaration>());
    lemma_distinct_keys_rearranged(
        n.route_policies@,
        d.route_policies@,
        text_key_of::<crate::declare::declaration::RoutePolicyDeclaration>(),
    );
    let fixed = choose|fixed: Seq<crate::declare::declaration::BoundaryDeclaration>|
        #![trigger fixed.to_multiset()]
        fixed.len() == d.boundaries@.len() && (forall|i: int|
            0 <= i < fixed.len() ==> crate::declare::concretise::relayered(
                #[trigger] fixed[i],
                d.boundaries@[i],
            )) && n.boundaries@.to_multiset() == fixed.to_multiset() && (forall|k: Seq<char>|
            #[trigger] crate::canon::ordering::with_text_key(n.boundaries@, k)
                == crate::canon::ordering::with_text_key(fixed, k));
    let key = text_key_of::<crate::declare::declaration::BoundaryDeclaration>();
    assert forall|i: int| 0 <= i < fixed.len() implies #[trigger] fixed.map_values(key)[i]
        == d.boundaries@.map_values(key)[i] by {
        assert(crate::declare::concretise::relayered(fixed[i], d.boundaries@[i]));
    }
    assert(fixed.map_values(key) =~= d.boundaries@.map_values(key));
    lemma_distinct_keys_rearranged(n.boundaries@, fixed, key);
}

proof fn lemma_pair_names<T: Named + TextKeyed>(
    pairs: Seq<(DeclarationName, String)>,
    items: Seq<T>,
    prefix: Seq<char>,
)
    requires
        pairs_match(pairs, items, prefix),
        keys_distinct(items),
        forall|i: int| 0 <= i < items.len() ==> (#[trigger] items[i]).text_key() == items[i].name_of()@,
    ensures
        pair_names(pairs).no_duplicates(),
{
    assert(pair_names(pairs) =~= items.map_values(text_key_of::<T>()));
}

/// Building the canonical model does not depend on the order of the
/// collections: when two declarations hold the same entries under the same
/// version, with names distinct in each collection and mechanisms distinct
/// in each boundary, the canonical models built from their normal forms hold
/// the same paths, the same trace and the same theory, value for value and in
/// the same order.
pub proof fn lemma_canonical_model_ignores_input_order(
    d1: SecurityDeclaration,
    d2: SecurityDeclaration,
    n1: NormalizedSecurityDeclaration,
    n2: NormalizedSecurityDeclaration,
    m1: CanonicalModel,
    m2: CanonicalModel,
)
    requires
        rearranges(d1, d2),
        names_unique(d1),
        is_normal_form(n1, d1),
        is_normal_form(n2, d2),
        canonical_model_of(m1, n1),
        canonical_model_of(m2, n2),
    ensures
        paths_view(m1.paths) == paths_view(m2.paths),
        trace_view(m1.trace) == trace_view(m2.trace),
        theory_view(m1.theory) == theory_view(m2.theory),
{
    lemma_normalization_ignores_input_order(d1, d2, n1, n2);
    lemma_same_normal_form_same_model(n1, n2, m1);
    lemma_paths_determined(m1.paths, m2.paths, n2);
    lemma_theory_determined(m1.theory, m2.theory, n2);
    lemma_normal_names_distinct(d1, n1);
    let p = m1.paths;
    lemma_pair_names(p.zones@, n1.zones@, "referent/zone/"@);
    lemma_pair_names(p.boundaries@, n1.boundaries@, "boundary/"@);
    lemma_pair_names(p.scopes@, n1.scopes@, "scope/"@);
    lemma_pair_names(p.routes@, n1.routes@, "edge/route/"@);
    lemma_pair_names(p.policies@, n1.route_policies@, "policy/"@);
    lemma_pair_names(p.requirements@, n1.route_policies@, "requirement/route-policy/"@);
    lemma_trace_determined(m1.trace, m2.trace, m1.paths, m2.paths, n1.declaration_version@);
}

} // verus!
