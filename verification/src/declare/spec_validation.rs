//! Reference and value checks of a declared-model specification.
use vstd::prelude::*;

use crate::declare::name::SymbolicName;
use crate::declare::spec::{
    ActorSpec, BoundarySpec, DeclaredSpec, EdgeSpec, PolicySpec, ReferentSpec, RequirementSpec,
    RequirementValueSpec, ScopeSpec,
};
use crate::kernel::declared::{
    CanonicalName, RequirementDeclaration, RequirementOperator, RequirementSortId,
    RequirementValue,
};
use crate::kernel::duplicate::Duplicate;
use crate::kernel::id::RequirementId;

verus! {

/// A broken rule of a specification.
#[derive(Debug, Clone, PartialEq, Eq)]
pub enum ValidationError {
    EmptySection { section: &'static str },
    DuplicateName { section: &'static str, name: SymbolicName },
    MissingReference { section: &'static str, field: &'static str, name: SymbolicName },
    InvalidRequirementValue { name: SymbolicName, operator: RequirementOperator },
}

/// An entry of a specification section, known by its symbolic name.
pub trait SpecNamed {
    spec fn sym(&self) -> SymbolicName;

    fn sym_ref(&self) -> (r: &SymbolicName)
        ensures
            *r == self.sym(),
    ;
}

impl SpecNamed for ActorSpec {
    open spec fn sym(&self) -> SymbolicName {
        self.name
    }

    fn sym_ref(&self) -> (r: &SymbolicName) {
        &self.name
    }
}

impl SpecNamed for ReferentSpec {
    open spec fn sym(&self) -> SymbolicName {
        self.name
    }

    fn sym_ref(&self) -> (r: &SymbolicName) {
        &self.name
    }
}

impl SpecNamed for BoundarySpec {
    open spec fn sym(&self) -> SymbolicName {
        self.name
    }

    fn sym_ref(&self) -> (r: &SymbolicName) {
        &self.name
    }
}

impl SpecNamed for EdgeSpec {
    open spec fn sym(&self) -> SymbolicName {
        self.name
    }

    fn sym_ref(&self) -> (r: &SymbolicName) {
        &self.name
    }
}

impl SpecNamed for ScopeSpec {
    open spec fn sym(&self) -> SymbolicName {
        self.name
    }

    fn sym_ref(&self) -> (r: &SymbolicName) {
        &self.name
    }
}

impl SpecNamed for RequirementSpec {
    open spec fn sym(&self) -> SymbolicName {
        self.name
    }

    fn sym_ref(&self) -> (r: &SymbolicName) {
        &self.name
    }
}

impl SpecNamed for PolicySpec {
    open spec fn sym(&self) -> SymbolicName {
        self.name
    }

    fn sym_ref(&self) -> (r: &SymbolicName) {
        &self.name
    }
}

/// Some entry carries the name text.
pub open spec fn sym_in<T: SpecNamed>(items: Seq<T>, x: Seq<char>) -> bool {
    exists|k: int| 0 <= k < items.len() && #[trigger] items[k].sym()@ == x
}

/// A duplicate error for every entry whose name an earlier entry carries.
pub open spec fn duplicate_errors<T: SpecNamed>(items: Seq<T>, section: &'static str) -> Seq<
    ValidationError,
>
    decreases items.len(),
{
    if items.len() == 0 {
        Seq::empty()
    } else {
        duplicate_errors(items.drop_last(), section) + if sym_in(
            items.drop_last(),
            items.last().sym()@,
        ) {
            seq![ValidationError::DuplicateName { section, name: items.last().sym() }]
        } else {
            Seq::empty()
        }
    }
}

/// A missing-reference error unless the name is present.
pub open spec fn missing(
    present: bool,
    section: &'static str,
    field: &'static str,
    name: SymbolicName,
) -> Seq<ValidationError> {
    if present {
        Seq::empty()
    } else {
        seq![ValidationError::MissingReference { section, field, name }]
    }
}

/// The errors of each item, in order, one list after another.
pub open spec fn flat_errors<T>(items: Seq<T>, f: spec_fn(T) -> Seq<ValidationError>) -> Seq<
    ValidationError,
>
    decreases items.len(),
{
    if items.len() == 0 {
        Seq::empty()
    } else {
        flat_errors(items.drop_last(), f) + f(items.last())
    }
}

/// A specified value has the type its operator compares against.
pub open spec fn value_fits(operator: RequirementOperator, value: RequirementValueSpec) -> bool {
    match operator {
        RequirementOperator::PresenceRequired | RequirementOperator::PresenceForbidden
        | RequirementOperator::PresenceOptional => value is Bool,
        RequirementOperator::CountEqual | RequirementOperator::CountMin
        | RequirementOperator::CountMax | RequirementOperator::RelationPathLengthMax
        | RequirementOperator::RelationEdgeCountMax => value is U64,
        RequirementOperator::SetIncludes | RequirementOperator::SetExcludes
        | RequirementOperator::SetEquals => value is Names,
        RequirementOperator::TemporalBefore | RequirementOperator::TemporalAfter
        | RequirementOperator::TemporalWithin => value is DurationSeconds,
        RequirementOperator::RelationExists | RequirementOperator::RelationNotExists => value is Bool,
    }
}

/// Every error of a specification, in the order the checks run: empty
/// sections, repeated names, then references that name nothing, then values
/// that do not fit their operator.
pub open spec fn spec_errors(spec: DeclaredSpec) -> Seq<ValidationError> {
    (if spec.actors@.len() == 0 {
        seq![ValidationError::EmptySection { section: "actors" }]
    } else {
        Seq::empty()
    }) + (if spec.referents@.len() == 0 {
        seq![ValidationError::EmptySection { section: "referents" }]
    } else {
        Seq::empty()
    }) + duplicate_errors(spec.actors@, "actors") + duplicate_errors(spec.referents@, "referents")
        + duplicate_errors(spec.boundaries@, "boundaries") + duplicate_errors(spec.edges@, "edges")
        + duplicate_errors(spec.scopes@, "scopes") + duplicate_errors(
        spec.requirements@,
        "requirements",
    ) + duplicate_errors(spec.policies@, "policies") + missing(
        sym_in(spec.actors@, spec.model.declared_by@),
        "model",
        "declared_by",
        spec.model.declared_by,
    ) + flat_errors(
        spec.boundaries@,
        |b: BoundarySpec|
            missing(sym_in(spec.referents@, b.side_a_anchor@), "boundaries", "side_a_anchor", b.side_a_anchor)
                + missing(
                sym_in(spec.referents@, b.side_b_anchor@),
                "boundaries",
                "side_b_anchor",
                b.side_b_anchor,
            ),
    ) + flat_errors(
        spec.edges@,
        |e: EdgeSpec|
            missing(sym_in(spec.referents@, e.first@), "edges", "first", e.first) + missing(
                sym_in(spec.referents@, e.second@),
                "edges",
                "second",
                e.second,
            ),
    ) + flat_errors(
        spec.policies@,
        |p: PolicySpec|
            missing(sym_in(spec.actors@, p.declared_by@), "policies", "declared_by", p.declared_by)
                + missing(sym_in(spec.scopes@, p.scope@), "policies", "scope", p.scope) + missing(
                sym_in(spec.requirements@, p.requirement@),
                "policies",
                "requirement",
                p.requirement,
            ),
    ) + flat_errors(
        spec.requirements@,
        |q: RequirementSpec|
            if value_fits(q.operator, q.value) {
                Seq::empty()
            } else {
                seq![ValidationError::InvalidRequirementValue { name: q.name, operator: q.operator }]
            },
    )
}

/// Whether an entry before `end` carries the name text.
fn sym_seen<T: SpecNamed>(items: &[T], end: usize, name: &SymbolicName) -> (r: bool)
    requires
        end <= items@.len(),
    ensures
        r == sym_in(items@.take(end as int), name@),
{
    let mut k: usize = 0;
    while k < end
        invariant
            k <= end <= items@.len(),
            forall|m: int| 0 <= m < k ==> #[trigger] items@[m].sym()@ != name@,
        decreases end - k,
    {
        if items[k].sym_ref().same_text(name) {
            assert(items@.take(end as int)[k as int] == items@[k as int]);
            return true;
        }
        k = k + 1;
    }
    assert forall|m: int| 0 <= m < end implies #[trigger] items@.take(end as int)[m].sym()@
        != name@ by {
        assert(items@.take(end as int)[m] == items@[m]);
    }
    false
}

/// Whether some entry carries the name text.
fn sym_present<T: SpecNamed>(items: &Vec<T>, name: &SymbolicName) -> (r: bool)
    ensures
        r == sym_in(items@, name@),
{
    let r = sym_seen(items.as_slice(), items.len(), name);
    assert(items@.take(items@.len() as int) =~= items@);
    r
}

/// Reports every entry whose name repeats an earlier one.
fn collect_duplicate_names<T: SpecNamed>(
    items: &Vec<T>,
    section: &'static str,
    errors: &mut Vec<ValidationError>,
)
    ensures
        final(errors)@ == old(errors)@ + duplicate_errors(items@, section),
{
    let ghost start = old(errors)@;
    let mut i: usize = 0;
    while i < items.len()
        invariant
            i <= items@.len(),
            errors@ == start + duplicate_errors(items@.take(i as int), section),
        decreases items@.len() - i,
    {
        let seen = sym_seen(items.as_slice(), i, items[i].sym_ref());
        proof {
            assert(items@.take(i + 1).drop_last() =~= items@.take(i as int));
            assert(items@.take(i + 1).last() == items@[i as int]);
        }
        let ghost before = errors@;
        if seen {
            errors.push(
                ValidationError::DuplicateName { section, name: items[i].sym_ref().duplicate() },
            );
        }
        assert(errors@ =~= start + duplicate_errors(items@.take(i + 1), section));
        i = i + 1;
    }
    assert(items@.take(items@.len() as int) =~= items@);
}

/// Appends a missing-reference error unless the name is present.
fn push_missing(
    errors: &mut Vec<ValidationError>,
    present: bool,
    section: &'static str,
    field: &'static str,
    name: &SymbolicName,
)
    ensures
        final(errors)@ == old(errors)@ + missing(present, section, field, *name),
{
    if !present {
        errors.push(ValidationError::MissingReference { section, field, name: name.duplicate() });
    }
    assert(final(errors)@ =~= old(errors)@ + missing(present, section, field, *name));
}

/// The canonical name of a symbolic name.
fn canonical_of(name: &SymbolicName) -> (r: CanonicalName)
    ensures
        r@ == name@,
{
    name.check_well_formed();
    let text = crate::text::owned(name.as_str());
    proof {
        assert(crate::kernel::declared::first_non_canonical(text@) is None) by {
            if exists|i: int| 0 <= i < text@.len() && !crate::kernel::declared::is_canonical_char(text@[i]) {
                let i = choose|i: int| 0 <= i < text@.len() && !crate::kernel::declared::is_canonical_char(text@[i]);
                assert(!crate::declare::name::is_name_char(name@[i]));
                assert(exists|j: int| 0 <= j < name@.len() && !crate::declare::name::is_name_char(name@[j]));
            }
        }
    }
    match CanonicalName::new(text) {
        Ok(n) => n,
        Err(_) => vstd::pervasive::unreached(),
    }
}

/// The value of a specified requirement, with names made canonical.
fn to_requirement_value(value: &RequirementValueSpec) -> (r: RequirementValue)
    ensures
        (r is Bool) == (*value is Bool),
        (r is U64) == (*value is U64),
        (r is Name) == (*value is Name),
        (r is Names) == (*value is Names),
        (r is DurationSeconds) == (*value is DurationSeconds),
{
    match value {
        RequirementValueSpec::Bool(item) => RequirementValue::Bool(*item),
        RequirementValueSpec::U64(item) => RequirementValue::U64(*item),
        RequirementValueSpec::Name(item) => RequirementValue::Name(canonical_of(item)),
        RequirementValueSpec::Names(items) => {
            let mut names: Vec<CanonicalName> = Vec::new();
            let mut i: usize = 0;
            while i < items.len()
                invariant
                    i <= items@.len(),
                decreases items@.len() - i,
            {
                names.push(canonical_of(&items[i]));
                i = i + 1;
            }
            RequirementValue::Names(names)
        },
        RequirementValueSpec::DurationSeconds(item) => RequirementValue::DurationSeconds(*item),
    }
}

/// Checks a specification: required sections are non-empty, names are unique
/// per section, every reference names a declared entry, and every requirement
/// value fits its operator. The errors come in the order of those checks.
pub fn validate_spec(spec: &DeclaredSpec) -> (r: Vec<ValidationError>)
    ensures
        r@ == spec_errors(*spec),
{
    let mut errors: Vec<ValidationError> = Vec::new();
    if spec.actors.len() == 0 {
        errors.push(ValidationError::EmptySection { section: "actors" });
    }
    if spec.referents.len() == 0 {
        errors.push(ValidationError::EmptySection { section: "referents" });
    }
    let ghost head = errors@;
    collect_duplicate_names(&spec.actors, "actors", &mut errors);
    collect_duplicate_names(&spec.referents, "referents", &mut errors);
    collect_duplicate_names(&spec.boundaries, "boundaries", &mut errors);
    collect_duplicate_names(&spec.edges, "edges", &mut errors);
    collect_duplicate_names(&spec.scopes, "scopes", &mut errors);
    collect_duplicate_names(&spec.requirements, "requirements", &mut errors);
    collect_duplicate_names(&spec.policies, "policies", &mut errors);
    push_missing(
        &mut errors,
        sym_present(&spec.actors, &spec.model.declared_by),
        "model",
        "declared_by",
        &spec.model.declared_by,
    );
    let ghost after_model = errors@;

    let ghost fb = |b: BoundarySpec|
        missing(sym_in(spec.referents@, b.side_a_anchor@), "boundaries", "side_a_anchor", b.side_a_anchor)
            + missing(sym_in(spec.referents@, b.side_b_anchor@), "boundaries", "side_b_anchor", b.side_b_anchor);
    let mut i: usize = 0;
    while i < spec.boundaries.len()
        invariant
            i <= spec.boundaries@.len(),
            fb == (|b: BoundarySpec|
                missing(sym_in(spec.referents@, b.side_a_anchor@), "boundaries", "side_a_anchor", b.side_a_anchor)
                    + missing(sym_in(spec.referents@, b.side_b_anchor@), "boundaries", "side_b_anchor", b.side_b_anchor)),
            errors@ == after_model + flat_errors(spec.boundaries@.take(i as int), fb),
        decreases spec.boundaries@.len() - i,
    {
        let b = &spec.boundaries[i];
        let ghost before = errors@;
        push_missing(&mut errors, sym_present(&spec.referents, &b.side_a_anchor), "boundaries", "side_a_anchor", &b.side_a_anchor);
        push_missing(&mut errors, sym_present(&spec.referents, &b.side_b_anchor), "boundaries", "side_b_anchor", &b.side_b_anchor);
        assert(spec.boundaries@.take(i + 1).drop_last() =~= spec.boundaries@.take(i as int));
        assert(errors@ =~= after_model + flat_errors(spec.boundaries@.take(i + 1), fb));
        i = i + 1;
    }
    assert(spec.boundaries@.take(spec.boundaries@.len() as int) =~= spec.boundaries@);
    let ghost after_boundaries = errors@;

    let ghost fe = |e: EdgeSpec|
        missing(sym_in(spec.referents@, e.first@), "edges", "first", e.first) + missing(
            sym_in(spec.referents@, e.second@), "edges", "second", e.second);
    let mut i: usize = 0;
    while i < spec.edges.len()
        invariant
            i <= spec.edges@.len(),
            fe == (|e: EdgeSpec|
                missing(sym_in(spec.referents@, e.first@), "edges", "first", e.first) + missing(
                    sym_in(spec.referents@, e.second@), "edges", "second", e.second)),
            errors@ == after_boundaries + flat_errors(spec.edges@.take(i as int), fe),
        decreases spec.edges@.len() - i,
    {
        let e = &spec.edges[i];
        push_missing(&mut errors, sym_present(&spec.referents, &e.first), "edges", "first", &e.first);
        push_missing(&mut errors, sym_present(&spec.referents, &e.second), "edges", "second", &e.second);
        assert(spec.edges@.take(i + 1).drop_last() =~= spec.edges@.take(i as int));
        assert(errors@ =~= after_boundaries + flat_errors(spec.edges@.take(i + 1), fe));
        i = i + 1;
    }
    assert(spec.edges@.take(spec.edges@.len() as int) =~= spec.edges@);
    let ghost after_edges = errors@;

    let ghost fp = |p: PolicySpec|
        missing(sym_in(spec.actors@, p.declared_by@), "policies", "declared_by", p.declared_by)
            + missing(sym_in(spec.scopes@, p.scope@), "policies", "scope", p.scope) + missing(
            sym_in(spec.requirements@, p.requirement@), "policies", "requirement", p.requirement);
    let mut i: usize = 0;
    while i < spec.policies.len()
        invariant
            i <= spec.policies@.len(),
            fp == (|p: PolicySpec|
                missing(sym_in(spec.actors@, p.declared_by@), "policies", "declared_by", p.declared_by)
                    + missing(sym_in(spec.scopes@, p.scope@), "policies", "scope", p.scope) + missing(
                    sym_in(spec.requirements@, p.requirement@), "policies", "requirement", p.requirement)),
            errors@ == after_edges + flat_errors(spec.policies@.take(i as int), fp),
        decreases spec.policies@.len() - i,
    {
        let p = &spec.policies[i];
        push_missing(&mut errors, sym_present(&spec.actors, &p.declared_by), "policies", "declared_by", &p.declared_by);
        push_missing(&mut errors, sym_present(&spec.scopes, &p.scope), "policies", "scope", &p.scope);
        push_missing(&mut errors, sym_present(&spec.requirements, &p.requirement), "policies", "requirement", &p.requirement);
        assert(spec.policies@.take(i + 1).drop_last() =~= spec.policies@.take(i as int));
        assert(errors@ =~= after_edges + flat_errors(spec.policies@.take(i + 1), fp));
        i = i + 1;
    }
    assert(spec.policies@.take(spec.policies@.len() as int) =~= spec.policies@);
    let ghost after_policies = errors@;

    let ghost fq = |q: RequirementSpec|
        if value_fits(q.operator, q.value) {
            Seq::<ValidationError>::empty()
        } else {
            seq![ValidationError::InvalidRequirementValue { name: q.name, operator: q.operator }]
        };
    let mut i: usize = 0;
    while i < spec.requirements.len()
        invariant
            i <= spec.requirements@.len(),
            fq == (|q: RequirementSpec|
                if value_fits(q.operator, q.value) {
                    Seq::<ValidationError>::empty()
                } else {
                    seq![ValidationError::InvalidRequirementValue { name: q.name, operator: q.operator }]
                }),
            errors@ == after_policies + flat_errors(spec.requirements@.take(i as int), fq),
        decreases spec.requirements@.len() - i,
    {
        let q = &spec.requirements[i];
        let check = RequirementDeclaration::new(
            RequirementId::from_bytes([0u8; 16]),
            RequirementSortId(q.sort),
            q.operator,
            to_requirement_value(&q.value),
        );
        if check.is_err() {
            errors.push(
                ValidationError::InvalidRequirementValue { name: q.name.duplicate(), operator: q.operator },
            );
        }
        assert(spec.requirements@.take(i + 1).drop_last() =~= spec.requirements@.take(i as int));
        assert(errors@ =~= after_policies + flat_errors(spec.requirements@.take(i + 1), fq));
        i = i + 1;
    }
    assert(spec.requirements@.take(spec.requirements@.len() as int) =~= spec.requirements@);
    errors
}

} // verus!
