//! Static coherence rules of a security declaration.
use vstd::prelude::*;

use crate::kernel::duplicate::Duplicate;

use crate::declare::declaration::{
    BoundaryDeclaration, BoundaryEndRef, LayerRequirement, RouteDeclaration,
    RoutePolicyDeclaration, ScopeDeclaration, SecurityDeclaration, ZoneDeclaration,
};
use crate::declare::name::DeclarationName;
use crate::declare::requirement::{
    none_held, slice_none_held, strength_satisfiable, PresenceRequirement,
};
use crate::declare::scope::{kind_accepts, ScopeTarget};
use crate::kernel::enums::LayerMechanism;

verus! {

/// Machine-readable declaration rule that was broken.
#[derive(Debug, Copy, Clone, PartialEq, Eq, PartialOrd, Ord, Hash, Structural)]
pub enum DeclarationViolationCode {
    /// The declaration names no zone.
    EmptyDeclaration,
    /// Two objects of one kind share a name.
    DuplicateName,
    /// A zone reference names no declared zone.
    UnknownZone,
    /// A route names no declared boundary.
    UnknownBoundary,
    /// A route policy names no declared route.
    UnknownRoute,
    /// A scope's target names no declared object of its kind.
    UnknownTarget,
    /// Both sides of a boundary are the same end.
    DegenerateBoundary,
    /// Both ends of a route are the same end.
    DegenerateRoute,
    /// No mechanism of the kind can reach the required hardness.
    ImpossibleLayerRequirement,
    /// The scope kind cannot apply to the kind of its target.
    ScopeTargetMismatch,
    /// A route's ends are not the two sides of the boundary it crosses.
    RouteBoundaryMismatch,
    /// A capability is both required and forbidden.
    CapabilityContradiction,
}

/// The declared object a violation is about.
#[derive(Debug, Clone, PartialEq, Eq, Hash)]
pub enum DeclarationSubject {
    Declaration,
    Zone(DeclarationName),
    Boundary(DeclarationName),
    LayerRequirement { boundary: DeclarationName, mechanism: LayerMechanism },
    Scope(DeclarationName),
    Route(DeclarationName),
    RoutePolicy(DeclarationName),
}

/// One broken declaration rule.
#[derive(Debug, Clone, PartialEq, Eq, Hash)]
pub struct DeclarationViolation {
    pub code: DeclarationViolationCode,
    pub subject: DeclarationSubject,
}

/// A single violation when `cond` holds.
pub open spec fn when(cond: bool, code: DeclarationViolationCode, subject: DeclarationSubject) -> Seq<
    DeclarationViolation,
> {
    if cond {
        seq![DeclarationViolation { code, subject }]
    } else {
        Seq::empty()
    }
}

/// The violations of each item, in order, one list after another.
pub open spec fn flat_map<T>(items: Seq<T>, f: spec_fn(T) -> Seq<DeclarationViolation>) -> Seq<
    DeclarationViolation,
>
    decreases items.len(),
{
    if items.len() == 0 {
        Seq::empty()
    } else {
        flat_map(items.drop_last(), f) + f(items.last())
    }
}

/// One step of `flat_map` over a growing prefix.
pub proof fn lemma_flat_map_step<T>(
    items: Seq<T>,
    f: spec_fn(T) -> Seq<DeclarationViolation>,
    i: int,
)
    requires
        0 <= i < items.len(),
    ensures
        flat_map(items.take(i + 1), f) == flat_map(items.take(i), f) + f(items[i]),
{
    assert(items.take(i + 1).drop_last() =~= items.take(i));
}

/// When the lists of all items together are empty, the list of each is.
pub proof fn lemma_flat_map_empty<T>(items: Seq<T>, f: spec_fn(T) -> Seq<DeclarationViolation>, i: int)
    requires
        flat_map(items, f).len() == 0,
        0 <= i < items.len(),
    ensures
        f(items[i]).len() == 0,
    decreases items.len(),
{
    if i < items.len() - 1 {
        lemma_flat_map_empty(items.drop_last(), f, i);
    }
}

/// A declared object of one kind, known by its name.
pub trait Named {
    spec fn name_of(&self) -> DeclarationName;

    /// The subject a violation about an object of this name is about.
    spec fn subject_named(name: DeclarationName) -> DeclarationSubject;

    fn name_ref(&self) -> (r: &DeclarationName)
        ensures
            *r == self.name_of(),
    ;

    fn subject_for(name: DeclarationName) -> (r: DeclarationSubject)
        ensures
            r == Self::subject_named(name),
    ;
}

impl Named for ZoneDeclaration {
    open spec fn name_of(&self) -> DeclarationName {
        self.name
    }

    open spec fn subject_named(name: DeclarationName) -> DeclarationSubject {
        DeclarationSubject::Zone(name)
    }

    fn name_ref(&self) -> (r: &DeclarationName) {
        &self.name
    }

    fn subject_for(name: DeclarationName) -> (r: DeclarationSubject) {
        DeclarationSubject::Zone(name)
    }
}

impl Named for BoundaryDeclaration {
    open spec fn name_of(&self) -> DeclarationName {
        self.name
    }

    open spec fn subject_named(name: DeclarationName) -> DeclarationSubject {
        DeclarationSubject::Boundary(name)
    }

    fn name_ref(&self) -> (r: &DeclarationName) {
        &self.name
    }

    fn subject_for(name: DeclarationName) -> (r: DeclarationSubject) {
        DeclarationSubject::Boundary(name)
    }
}

impl Named for ScopeDeclaration {
    open spec fn name_of(&self) -> DeclarationName {
        self.name
    }

    open spec fn subject_named(name: DeclarationName) -> DeclarationSubject {
        DeclarationSubject::Scope(name)
    }

    fn name_ref(&self) -> (r: &DeclarationName) {
        &self.name
    }

    fn subject_for(name: DeclarationName) -> (r: DeclarationSubject) {
        DeclarationSubject::Scope(name)
    }
}

impl Named for RouteDeclaration {
    open spec fn name_of(&self) -> DeclarationName {
        self.name
    }

    open spec fn subject_named(name: DeclarationName) -> DeclarationSubject {
        DeclarationSubject::Route(name)
    }

    fn name_ref(&self) -> (r: &DeclarationName) {
        &self.name
    }

    fn subject_for(name: DeclarationName) -> (r: DeclarationSubject) {
        DeclarationSubject::Route(name)
    }
}

impl Named for RoutePolicyDeclaration {
    open spec fn name_of(&self) -> DeclarationName {
        self.name
    }

    open spec fn subject_named(name: DeclarationName) -> DeclarationSubject {
        DeclarationSubject::RoutePolicy(name)
    }

    fn name_ref(&self) -> (r: &DeclarationName) {
        &self.name
    }

    fn subject_for(name: DeclarationName) -> (r: DeclarationSubject) {
        DeclarationSubject::RoutePolicy(name)
    }
}

/// Some item carries the name text.
pub open spec fn named_in<T: Named>(items: Seq<T>, name: Seq<char>) -> bool {
    exists|k: int| 0 <= k < items.len() && #[trigger] items[k].name_of()@ == name
}

/// A duplicate-name violation for every object whose name an earlier object
/// of the same kind already carries.
pub open spec fn duplicate_names<T: Named>(items: Seq<T>) -> Seq<DeclarationViolation>
    decreases items.len(),
{
    if items.len() == 0 {
        Seq::empty()
    } else {
        duplicate_names(items.drop_last()) + when(
            named_in(items.drop_last(), items.last().name_of()@),
            DeclarationViolationCode::DuplicateName,
            T::subject_named(items.last().name_of()),
        )
    }
}

/// Whether an item before `end` carries the name text.
pub fn name_seen<T: Named>(items: &[T], end: usize, name: &DeclarationName) -> (r: bool)
    requires
        end <= items@.len(),
    ensures
        r == named_in(items@.take(end as int), name@),
{
    let mut k: usize = 0;
    while k < end
        invariant
            k <= end <= items@.len(),
            forall|m: int| 0 <= m < k ==> #[trigger] items@[m].name_of()@ != name@,
        decreases end - k,
    {
        if items[k].name_ref().same_text(name) {
            assert(items@.take(end as int)[k as int] == items@[k as int]);
            return true;
        }
        k = k + 1;
    }
    assert forall|m: int| 0 <= m < end implies #[trigger] items@.take(end as int)[m].name_of()@
        != name@ by {
        assert(items@.take(end as int)[m] == items@[m]);
    }
    false
}

/// Reports every object whose name repeats an earlier one of its kind.
pub fn collect_duplicate_names<T: Named>(items: &[T]) -> (r: Vec<DeclarationViolation>)
    ensures
        r@ == duplicate_names(items@),
{
    let mut out: Vec<DeclarationViolation> = Vec::new();
    let mut i: usize = 0;
    while i < items.len()
        invariant
            i <= items@.len(),
            out@ == duplicate_names(items@.take(i as int)),
        decreases items@.len() - i,
    {
        let seen = name_seen(items, i, items[i].name_ref());
        proof {
            assert(items@.take(i + 1).drop_last() =~= items@.take(i as int));
            assert(items@.take(i + 1).last() == items@[i as int]);
        }
        let ghost before = out@;
        if seen {
            let subject = T::subject_for(items[i].name_ref().duplicate());
            out.push(DeclarationViolation { code: DeclarationViolationCode::DuplicateName, subject });
        }
        assert(out@ =~= before + when(
            seen,
            DeclarationViolationCode::DuplicateName,
            T::subject_named(items@[i as int].name_of()),
        ));
        i = i + 1;
    }
    assert(items@.take(items@.len() as int) =~= items@);
    out
}

/// A reference to a declared zone, or to the outside.
pub open spec fn end_known(d: SecurityDeclaration, end: BoundaryEndRef) -> bool {
    match end {
        BoundaryEndRef::Zone(n) => named_in(d.zones@, n@),
        BoundaryEndRef::Outside => true,
    }
}

/// Two references to the same end.
pub open spec fn same_end(a: BoundaryEndRef, b: BoundaryEndRef) -> bool {
    match (a, b) {
        (BoundaryEndRef::Zone(x), BoundaryEndRef::Zone(y)) => x@ == y@,
        (BoundaryEndRef::Outside, BoundaryEndRef::Outside) => true,
        _ => false,
    }
}

/// Whether two references are to the same end.
pub fn ends_match(a: &BoundaryEndRef, b: &BoundaryEndRef) -> (r: bool)
    ensures
        r == same_end(*a, *b),
{
    match (a, b) {
        (BoundaryEndRef::Zone(x), BoundaryEndRef::Zone(y)) => x.same_text(y),
        (BoundaryEndRef::Outside, BoundaryEndRef::Outside) => true,
        _ => false,
    }
}

/// Whether the end is the outside or a declared zone.
fn end_declared(d: &SecurityDeclaration, end: &BoundaryEndRef) -> (r: bool)
    ensures
        r == end_known(*d, *end),
{
    match end {
        BoundaryEndRef::Zone(n) => {
            let r = name_seen(d.zones.as_slice(), d.zones.len(), n);
            assert(d.zones@.take(d.zones@.len() as int) =~= d.zones@);
            r
        },
        BoundaryEndRef::Outside => true,
    }
}

/// A layer requirement that is not a prohibition asks for a hardness no
/// mechanism of its kind can reach.
pub open spec fn layer_impossible(l: LayerRequirement) -> bool {
    l.presence != PresenceRequirement::Forbidden && match l.hardness {
        Some(h) => !strength_satisfiable(h, l.mechanism.hardness_band().0, l.mechanism.hardness_band().1),
        None => false,
    }
}

/// The violations of one boundary: both sides must be known, distinct ends,
/// and each layer requirement must be reachable by its mechanism.
pub open spec fn boundary_violations(d: SecurityDeclaration, b: BoundaryDeclaration) -> Seq<
    DeclarationViolation,
> {
    let subject = DeclarationSubject::Boundary(b.name);
    when(
        !end_known(d, b.side_a) || !end_known(d, b.side_b),
        DeclarationViolationCode::UnknownZone,
        subject,
    ) + when(same_end(b.side_a, b.side_b), DeclarationViolationCode::DegenerateBoundary, subject)
        + flat_map(
        b.layer_requirements@,
        |l: LayerRequirement|
            when(
                layer_impossible(l),
                DeclarationViolationCode::ImpossibleLayerRequirement,
                DeclarationSubject::LayerRequirement { boundary: b.name, mechanism: l.mechanism },
            ),
    )
}

/// A scope's target names a declared object of its kind.
pub open spec fn target_known(d: SecurityDeclaration, t: ScopeTarget) -> bool {
    match t {
        ScopeTarget::Zone(n) => named_in(d.zones@, n@),
        ScopeTarget::Boundary(n) => named_in(d.boundaries@, n@),
        ScopeTarget::Route(n) => named_in(d.routes@, n@),
    }
}

/// The violations of one scope: a known target of a kind its scope kind
/// applies to, and no capability both required and forbidden.
pub open spec fn scope_violations(d: SecurityDeclaration, s: ScopeDeclaration) -> Seq<
    DeclarationViolation,
> {
    let subject = DeclarationSubject::Scope(s.name);
    when(!target_known(d, s.target), DeclarationViolationCode::UnknownTarget, subject) + when(
        !kind_accepts(s.kind, s.target),
        DeclarationViolationCode::ScopeTargetMismatch,
        subject,
    ) + when(
        !none_held(s.required_capabilities@, s.forbidden_capabilities@),
        DeclarationViolationCode::CapabilityContradiction,
        subject,
    )
}

/// The first boundary declared with the name text.
pub open spec fn first_boundary(bs: Seq<BoundaryDeclaration>, name: Seq<char>) -> Option<
    BoundaryDeclaration,
>
    decreases bs.len(),
{
    if bs.len() == 0 {
        None
    } else if bs[0].name@ == name {
        Some(bs[0])
    } else {
        first_boundary(bs.drop_first(), name)
    }
}

/// A route joins the two sides of the boundary, in either direction.
pub open spec fn route_spans(r: RouteDeclaration, b: BoundaryDeclaration) -> bool {
    (same_end(r.from, b.side_a) && same_end(r.to, b.side_b)) || (same_end(r.from, b.side_b)
        && same_end(r.to, b.side_a))
}

/// The violations of one route: known, distinct ends, a declared boundary,
/// and ends that are that boundary's two sides.
pub open spec fn route_violations(d: SecurityDeclaration, r: RouteDeclaration) -> Seq<
    DeclarationViolation,
> {
    let subject = DeclarationSubject::Route(r.name);
    when(!end_known(d, r.from) || !end_known(d, r.to), DeclarationViolationCode::UnknownZone, subject)
        + when(same_end(r.from, r.to), DeclarationViolationCode::DegenerateRoute, subject)
        + match first_boundary(d.boundaries@, r.boundary@) {
        None => seq![DeclarationViolation { code: DeclarationViolationCode::UnknownBoundary, subject }],
        Some(b) => when(!route_spans(r, b), DeclarationViolationCode::RouteBoundaryMismatch, subject),
    }
}

/// A route policy names a declared route.
pub open spec fn policy_violations(d: SecurityDeclaration, p: RoutePolicyDeclaration) -> Seq<
    DeclarationViolation,
> {
    when(
        !named_in(d.routes@, p.route@),
        DeclarationViolationCode::UnknownRoute,
        DeclarationSubject::RoutePolicy(p.name),
    )
}

/// Every violation of a declaration, in the order the checks run.
pub open spec fn declaration_violations(d: SecurityDeclaration) -> Seq<DeclarationViolation> {
    when(d.zones@.len() == 0, DeclarationViolationCode::EmptyDeclaration, DeclarationSubject::Declaration)
        + duplicate_names(d.zones@) + duplicate_names(d.boundaries@) + duplicate_names(d.scopes@)
        + duplicate_names(d.routes@) + duplicate_names(d.route_policies@) + flat_map(
        d.boundaries@,
        |b: BoundaryDeclaration| boundary_violations(d, b),
    ) + flat_map(d.scopes@, |s: ScopeDeclaration| scope_violations(d, s)) + flat_map(
        d.routes@,
        |r: RouteDeclaration| route_violations(d, r),
    ) + flat_map(d.route_policies@, |p: RoutePolicyDeclaration| policy_violations(d, p))
}

/// Appends a violation when `cond` holds.
fn push_when(
    out: &mut Vec<DeclarationViolation>,
    cond: bool,
    code: DeclarationViolationCode,
    subject: DeclarationSubject,
)
    ensures
        final(out)@ == old(out)@ + when(cond, code, subject),
{
    if cond {
        out.push(DeclarationViolation { code, subject });
    }
    assert(final(out)@ =~= old(out)@ + when(cond, code, subject));
}

/// Appends all of `more`.
fn append_all(out: &mut Vec<DeclarationViolation>, more: Vec<DeclarationViolation>)
    ensures
        final(out)@ == old(out)@ + more@,
{
    let mut more = more;
    out.append(&mut more);
}

fn check_boundary(d: &SecurityDeclaration, b: &BoundaryDeclaration) -> (r: Vec<
    DeclarationViolation,
>)
    ensures
        r@ == boundary_violations(*d, *b),
{
    let mut out: Vec<DeclarationViolation> = Vec::new();
    let unknown = !end_declared(d, &b.side_a) || !end_declared(d, &b.side_b);
    push_when(
        &mut out,
        unknown,
        DeclarationViolationCode::UnknownZone,
        DeclarationSubject::Boundary(b.name.duplicate()),
    );
    push_when(
        &mut out,
        ends_match(&b.side_a, &b.side_b),
        DeclarationViolationCode::DegenerateBoundary,
        DeclarationSubject::Boundary(b.name.duplicate()),
    );
    let ghost head = out@;
    let ghost f = |l: LayerRequirement|
        when(
            layer_impossible(l),
            DeclarationViolationCode::ImpossibleLayerRequirement,
            DeclarationSubject::LayerRequirement { boundary: b.name, mechanism: l.mechanism },
        );
    let mut i: usize = 0;
    while i < b.layer_requirements.len()
        invariant
            i <= b.layer_requirements@.len(),
            f == (|l: LayerRequirement|
                when(
                    layer_impossible(l),
                    DeclarationViolationCode::ImpossibleLayerRequirement,
                    DeclarationSubject::LayerRequirement { boundary: b.name, mechanism: l.mechanism },
                )),
            out@ == head + flat_map(b.layer_requirements@.take(i as int), f),
        decreases b.layer_requirements@.len() - i,
    {
        let l = b.layer_requirements[i];
        let impossible = match l.hardness {
            Some(h) => {
                let band = l.mechanism.hardness_range();
                l.presence != PresenceRequirement::Forbidden && !h.is_satisfiable_within(
                    band.0,
                    band.1,
                )
            },
            None => false,
        };
        proof {
            lemma_flat_map_step(b.layer_requirements@, f, i as int);
        }
        push_when(
            &mut out,
            impossible,
            DeclarationViolationCode::ImpossibleLayerRequirement,
            DeclarationSubject::LayerRequirement {
                boundary: b.name.duplicate(),
                mechanism: l.mechanism,
            },
        );
        i = i + 1;
    }
    assert(b.layer_requirements@.take(b.layer_requirements@.len() as int)
        =~= b.layer_requirements@);
    assert(out@ =~= boundary_violations(*d, *b));
    out
}

fn check_scope(d: &SecurityDeclaration, s: &ScopeDeclaration) -> (r: Vec<DeclarationViolation>)
    ensures
        r@ == scope_violations(*d, *s),
{
    let mut out: Vec<DeclarationViolation> = Vec::new();
    let known = match &s.target {
        ScopeTarget::Zone(n) => name_seen(d.zones.as_slice(), d.zones.len(), n),
        ScopeTarget::Boundary(n) => name_seen(d.boundaries.as_slice(), d.boundaries.len(), n),
        ScopeTarget::Route(n) => name_seen(d.routes.as_slice(), d.routes.len(), n),
    };
    assert(d.zones@.take(d.zones@.len() as int) =~= d.zones@);
    assert(d.boundaries@.take(d.boundaries@.len() as int) =~= d.boundaries@);
    assert(d.routes@.take(d.routes@.len() as int) =~= d.routes@);
    push_when(
        &mut out,
        !known,
        DeclarationViolationCode::UnknownTarget,
        DeclarationSubject::Scope(s.name.duplicate()),
    );
    push_when(
        &mut out,
        !s.kind.accepts_target(&s.target),
        DeclarationViolationCode::ScopeTargetMismatch,
        DeclarationSubject::Scope(s.name.duplicate()),
    );
    let clash = !slice_none_held(
        s.required_capabilities.as_slice(),
        s.forbidden_capabilities.as_slice(),
    );
    push_when(
        &mut out,
        clash,
        DeclarationViolationCode::CapabilityContradiction,
        DeclarationSubject::Scope(s.name.duplicate()),
    );
    assert(out@ =~= scope_violations(*d, *s));
    out
}

/// Position of the first boundary declared with the name.
pub fn find_boundary(boundaries: &[BoundaryDeclaration], name: &DeclarationName) -> (r: Option<
    usize,
>)
    ensures
        r matches Some(i) ==> i < boundaries@.len() && first_boundary(boundaries@, name@) == Some(
            boundaries@[i as int],
        ),
        r is None ==> first_boundary(boundaries@, name@) is None,
{
    let mut k: usize = 0;
    assert(boundaries@.skip(0) =~= boundaries@);
    while k < boundaries.len()
        invariant
            k <= boundaries@.len(),
            first_boundary(boundaries@, name@) == first_boundary(boundaries@.skip(k as int), name@),
        decreases boundaries@.len() - k,
    {
        assert(boundaries@.skip(k as int)[0] == boundaries@[k as int]);
        if boundaries[k].name.same_text(name) {
            return Some(k);
        }
        assert(boundaries@.skip(k as int).drop_first() =~= boundaries@.skip(k + 1));
        k = k + 1;
    }
    None
}

fn check_route(d: &SecurityDeclaration, r: &RouteDeclaration) -> (out_r: Vec<DeclarationViolation>)
    ensures
        out_r@ == route_violations(*d, *r),
{
    let mut out: Vec<DeclarationViolation> = Vec::new();
    let unknown = !end_declared(d, &r.from) || !end_declared(d, &r.to);
    push_when(
        &mut out,
        unknown,
        DeclarationViolationCode::UnknownZone,
        DeclarationSubject::Route(r.name.duplicate()),
    );
    push_when(
        &mut out,
        ends_match(&r.from, &r.to),
        DeclarationViolationCode::DegenerateRoute,
        DeclarationSubject::Route(r.name.duplicate()),
    );
    match find_boundary(d.boundaries.as_slice(), &r.boundary) {
        None => {
            out.push(
                DeclarationViolation {
                    code: DeclarationViolationCode::UnknownBoundary,
                    subject: DeclarationSubject::Route(r.name.duplicate()),
                },
            );
        },
        Some(k) => {
            let b = &d.boundaries[k];
            let spans = (ends_match(&r.from, &b.side_a) && ends_match(&r.to, &b.side_b)) || (
            ends_match(&r.from, &b.side_b) && ends_match(&r.to, &b.side_a));
            push_when(
                &mut out,
                !spans,
                DeclarationViolationCode::RouteBoundaryMismatch,
                DeclarationSubject::Route(r.name.duplicate()),
            );
        },
    }
    assert(out@ =~= route_violations(*d, *r));
    out
}

fn check_policy(d: &SecurityDeclaration, p: &RoutePolicyDeclaration) -> (r: Vec<
    DeclarationViolation,
>)
    ensures
        r@ == policy_violations(*d, *p),
{
    let mut out: Vec<DeclarationViolation> = Vec::new();
    let known = name_seen(d.routes.as_slice(), d.routes.len(), &p.route);
    assert(d.routes@.take(d.routes@.len() as int) =~= d.routes@);
    push_when(
        &mut out,
        !known,
        DeclarationViolationCode::UnknownRoute,
        DeclarationSubject::RoutePolicy(p.name.duplicate()),
    );
    out
}

fn check_all_boundaries(d: &SecurityDeclaration) -> (out_r: Vec<DeclarationViolation>)
    ensures
        out_r@ == flat_map(d.boundaries@, |b: BoundaryDeclaration| boundary_violations(*d, b)),
{
    let ghost f = |b: BoundaryDeclaration| boundary_violations(*d, b);
    let mut out: Vec<DeclarationViolation> = Vec::new();
    let mut i: usize = 0;
    while i < d.boundaries.len()
        invariant
            i <= d.boundaries@.len(),
            f == (|b: BoundaryDeclaration| boundary_violations(*d, b)),
            out@ == flat_map(d.boundaries@.take(i as int), f),
        decreases d.boundaries@.len() - i,
    {
        let more = check_boundary(d, &d.boundaries[i]);
        proof {
            lemma_flat_map_step(d.boundaries@, f, i as int);
        }
        append_all(&mut out, more);
        i = i + 1;
    }
    assert(d.boundaries@.take(d.boundaries@.len() as int) =~= d.boundaries@);
    out
}

fn check_all_scopes(d: &SecurityDeclaration) -> (out_r: Vec<DeclarationViolation>)
    ensures
        out_r@ == flat_map(d.scopes@, |s: ScopeDeclaration| scope_violations(*d, s)),
{
    let ghost f = |s: ScopeDeclaration| scope_violations(*d, s);
    let mut out: Vec<DeclarationViolation> = Vec::new();
    let mut i: usize = 0;
    while i < d.scopes.len()
        invariant
            i <= d.scopes@.len(),
            f == (|s: ScopeDeclaration| scope_violations(*d, s)),
            out@ == flat_map(d.scopes@.take(i as int), f),
        decreases d.scopes@.len() - i,
    {
        let more = check_scope(d, &d.scopes[i]);
        proof {
            lemma_flat_map_step(d.scopes@, f, i as int);
        }
        append_all(&mut out, more);
        i = i + 1;
    }
    assert(d.scopes@.take(d.scopes@.len() as int) =~= d.scopes@);
    out
}

fn check_all_routes(d: &SecurityDeclaration) -> (out_r: Vec<DeclarationViolation>)
    ensures
        out_r@ == flat_map(d.routes@, |r: RouteDeclaration| route_violations(*d, r)),
{
    let ghost f = |r: RouteDeclaration| route_violations(*d, r);
    let mut out: Vec<DeclarationViolation> = Vec::new();
    let mut i: usize = 0;
    while i < d.routes.len()
        invariant
            i <= d.routes@.len(),
            f == (|r: RouteDeclaration| route_violations(*d, r)),
            out@ == flat_map(d.routes@.take(i as int), f),
        decreases d.routes@.len() - i,
    {
        let more = check_route(d, &d.routes[i]);
        proof {
            lemma_flat_map_step(d.routes@, f, i as int);
        }
        append_all(&mut out, more);
        i = i + 1;
    }
    assert(d.routes@.take(d.routes@.len() as int) =~= d.routes@);
    out
}

fn check_all_route_policies(d: &SecurityDeclaration) -> (out_r: Vec<DeclarationViolation>)
    ensures
        out_r@ == flat_map(d.route_policies@, |p: RoutePolicyDeclaration| policy_violations(*d, p)),
{
    let ghost f = |p: RoutePolicyDeclaration| policy_violations(*d, p);
    let mut out: Vec<DeclarationViolation> = Vec::new();
    let mut i: usize = 0;
    while i < d.route_policies.len()
        invariant
            i <= d.route_policies@.len(),
            f == (|p: RoutePolicyDeclaration| policy_violations(*d, p)),
            out@ == flat_map(d.route_policies@.take(i as int), f),
        decreases d.route_policies@.len() - i,
    {
        let more = check_policy(d, &d.route_policies[i]);
        proof {
            lemma_flat_map_step(d.route_policies@, f, i as int);
        }
        append_all(&mut out, more);
        i = i + 1;
    }
    assert(d.route_policies@.take(d.route_policies@.len() as int) =~= d.route_policies@);
    out
}

/// Validates a declaration's static coherence: it names a zone, names are
/// unique per kind, every reference resolves, boundaries and routes join two
/// different ends, routes run along the boundary they cross, layer
/// requirements are reachable by their mechanism, scopes apply to their
/// target's kind, and no capability is both required and forbidden. Names are
/// not checked for format here. The violations come in the order of those
/// checks.
pub fn validate_security_declaration(declaration: &SecurityDeclaration) -> (r: Vec<
    DeclarationViolation,
>)
    ensures
        r@ == declaration_violations(*declaration),
{
    let mut violations: Vec<DeclarationViolation> = Vec::new();
    push_when(
        &mut violations,
        declaration.zones.len() == 0,
        DeclarationViolationCode::EmptyDeclaration,
        DeclarationSubject::Declaration,
    );
    append_all(&mut violations, collect_duplicate_names(declaration.zones.as_slice()));
    append_all(&mut violations, collect_duplicate_names(declaration.boundaries.as_slice()));
    append_all(&mut violations, collect_duplicate_names(declaration.scopes.as_slice()));
    append_all(&mut violations, collect_duplicate_names(declaration.routes.as_slice()));
    append_all(&mut violations, collect_duplicate_names(declaration.route_policies.as_slice()));
    append_all(&mut violations, check_all_boundaries(declaration));
    append_all(&mut violations, check_all_scopes(declaration));
    append_all(&mut violations, check_all_routes(declaration));
    append_all(&mut violations, check_all_route_policies(declaration));
    violations
}

} // verus!
