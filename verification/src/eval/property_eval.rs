//! Whether mapped evidence shows a referent's property with an expected value.
use vstd::prelude::*;

use crate::kernel::declared::CanonicalName;
use crate::mapper::{
    names_order, names_referent, value_kind, value_order, MappedEvidence, MappedPropertyClaim,
    MappedReferent, MappedValue,
};
use crate::text::{lemma_seq_lt_irreflexive, str_eq, text_order};

verus! {

/// The verdict on one property requirement.
#[derive(Clone, Copy, Debug, PartialEq, Eq, Hash, Structural)]
pub enum PropertyOutcome {
    Satisfied,
    Violated,
    Unknown,
    NotApplicable,
    ValueTypeMismatch,
}

/// Why a property requirement got its verdict.
#[derive(Clone, Copy, Debug, PartialEq, Eq, Hash, Structural)]
pub enum PropertyReasonTag {
    PropertySatisfied,
    PropertyViolated,
    PropertyMissing,
    SubjectMissing,
    ValueTypeMismatch,
}

/// A requirement that a subject's property has an expected value.
#[derive(Clone, Debug, PartialEq, Eq)]
pub struct PropertyRequirement {
    subject: CanonicalName,
    property: CanonicalName,
    expected: MappedValue,
}

impl PropertyRequirement {
    pub closed spec fn subject_of(self) -> CanonicalName {
        self.subject
    }

    pub closed spec fn property_of(self) -> CanonicalName {
        self.property
    }

    pub closed spec fn expected_of(self) -> MappedValue {
        self.expected
    }

    pub fn new(subject: CanonicalName, property: CanonicalName, expected: MappedValue) -> (r: Self)
        ensures
            r.subject_of() == subject,
            r.property_of() == property,
            r.expected_of() == expected,
    {
        PropertyRequirement { subject, property, expected }
    }

    pub fn subject(&self) -> (r: &CanonicalName)
        ensures
            *r == self.subject_of(),
    {
        &self.subject
    }

    pub fn property(&self) -> (r: &CanonicalName)
        ensures
            *r == self.property_of(),
    {
        &self.property
    }

    pub fn expected(&self) -> (r: &MappedValue)
        ensures
            *r == self.expected_of(),
    {
        &self.expected
    }
}

/// A verdict together with its reason.
#[derive(Clone, Copy, Debug, PartialEq, Eq, Hash, Structural)]
pub struct PropertyEvaluation {
    outcome: PropertyOutcome,
    reason: PropertyReasonTag,
}

impl PropertyEvaluation {
    pub closed spec fn outcome_of(self) -> PropertyOutcome {
        self.outcome
    }

    pub closed spec fn reason_of(self) -> PropertyReasonTag {
        self.reason
    }

    pub fn new(outcome: PropertyOutcome, reason: PropertyReasonTag) -> (r: Self)
        ensures
            r.outcome_of() == outcome,
            r.reason_of() == reason,
    {
        PropertyEvaluation { outcome, reason }
    }

    pub fn outcome(self) -> (r: PropertyOutcome)
        ensures
            r == self.outcome_of(),
    {
        self.outcome
    }

    pub fn reason(self) -> (r: PropertyReasonTag)
        ensures
            r == self.reason_of(),
    {
        self.reason
    }
}

/// Two values are the same: of one kind, and equal, names compared by text.
pub open spec fn same_value(a: MappedValue, b: MappedValue) -> bool {
    match (a, b) {
        (MappedValue::Bool(x), MappedValue::Bool(y)) => x == y,
        (MappedValue::U64(x), MappedValue::U64(y)) => x == y,
        (MappedValue::Name(x), MappedValue::Name(y)) => x@ == y@,
        (MappedValue::Names(x), MappedValue::Names(y)) => x@.len() == y@.len() && forall|i: int|
            0 <= i < x@.len() ==> (#[trigger] x@[i])@ == y@[i]@,
        (MappedValue::DurationSeconds(x), MappedValue::DurationSeconds(y)) => x == y,
        _ => false,
    }
}

/// The first claim, in evidence order, about the subject's property.
pub open spec fn first_claim(cs: Seq<MappedPropertyClaim>, subject: Seq<char>, property: Seq<char>)
    -> Option<MappedPropertyClaim>
    decreases cs.len(),
{
    if cs.len() == 0 {
        None
    } else if cs[0].subject@ == subject && cs[0].property@ == property {
        Some(cs[0])
    } else {
        first_claim(cs.drop_first(), subject, property)
    }
}

/// The verdict and reason of a requirement against referents and claims: not
/// applicable without the subject; unknown without a claim about the
/// property; a type mismatch when the claimed value is of another kind;
/// else satisfied exactly when the claimed value is the expected one.
pub open spec fn property_evaluation(
    subject: Seq<char>,
    property: Seq<char>,
    expected: MappedValue,
    rs: Seq<MappedReferent>,
    cs: Seq<MappedPropertyClaim>,
) -> (PropertyOutcome, PropertyReasonTag) {
    if !names_referent(rs, subject) {
        (PropertyOutcome::NotApplicable, PropertyReasonTag::SubjectMissing)
    } else {
        match first_claim(cs, subject, property) {
            None => (
                PropertyOutcome::Unknown,
                PropertyReasonTag::PropertyMissing,
            ),
            Some(c) => if value_kind(c.value) != value_kind(expected) {
                (
                    PropertyOutcome::ValueTypeMismatch,
                    PropertyReasonTag::ValueTypeMismatch,
                )
            } else if same_value(c.value, expected) {
                (
                    PropertyOutcome::Satisfied,
                    PropertyReasonTag::PropertySatisfied,
                )
            } else {
                (
                    PropertyOutcome::Violated,
                    PropertyReasonTag::PropertyViolated,
                )
            },
        }
    }
}

proof fn lemma_text_order_zero(a: Seq<char>, b: Seq<char>)
    ensures
        text_order(a, b) == 0 <==> a == b,
{
    if a == b {
        lemma_seq_lt_irreflexive(a);
    }
}

proof fn lemma_names_order_zero(a: Seq<CanonicalName>, b: Seq<CanonicalName>)
    ensures
        names_order(a, b) == 0 <==> (a.len() == b.len() && forall|i: int|
            0 <= i < a.len() ==> (#[trigger] a[i])@ == b[i]@),
    decreases a.len(),
{
    if a.len() > 0 && b.len() > 0 {
        lemma_text_order_zero(a[0]@, b[0]@);
        lemma_names_order_zero(a.drop_first(), b.drop_first());
        if a.len() == b.len() && forall|i: int| 0 <= i < a.len() ==> (#[trigger] a[i])@ == b[i]@ {
            assert forall|i: int| 0 <= i < a.drop_first().len() implies (
            #[trigger] a.drop_first()[i])@ == b.drop_first()[i]@ by {
                assert(a.drop_first()[i] == a[i + 1]);
                assert(b.drop_first()[i] == b[i + 1]);
            }
        }
        if names_order(a, b) == 0 {
            assert forall|i: int| 0 <= i < a.len() implies (#[trigger] a[i])@ == b[i]@ by {
                if i > 0 {
                    assert(a.drop_first()[i - 1] == a[i]);
                    assert(b.drop_first()[i - 1] == b[i]);
                }
            }
        }
    }
}

proof fn lemma_value_order_zero(a: MappedValue, b: MappedValue)
    ensures
        value_order(a, b) == 0 <==> same_value(a, b),
{
    match (a, b) {
        (MappedValue::Name(x), MappedValue::Name(y)) => lemma_text_order_zero(x@, y@),
        (MappedValue::Names(x), MappedValue::Names(y)) => lemma_names_order_zero(x@, y@),
        _ => {},
    }
}

fn same_kind(a: &MappedValue, b: &MappedValue) -> (r: bool)
    ensures
        r == (value_kind(*a) == value_kind(*b)),
{
    match (a, b) {
        (MappedValue::Bool(_), MappedValue::Bool(_)) => true,
        (MappedValue::U64(_), MappedValue::U64(_)) => true,
        (MappedValue::Name(_), MappedValue::Name(_)) => true,
        (MappedValue::Names(_), MappedValue::Names(_)) => true,
        (MappedValue::DurationSeconds(_), MappedValue::DurationSeconds(_)) => true,
        _ => false,
    }
}

fn values_equal(a: &MappedValue, b: &MappedValue) -> (r: bool)
    ensures
        r == same_value(*a, *b),
{
    proof {
        lemma_value_order_zero(*a, *b);
    }
    crate::mapper::value_compare(a, b) == 0
}

fn has_referent(rs: &[MappedReferent], subject: &CanonicalName) -> (r: bool)
    ensures
        r == names_referent(rs@, subject@),
{
    let mut i: usize = 0;
    while i < rs.len()
        invariant
            i <= rs@.len(),
            forall|j: int| 0 <= j < i ==> (#[trigger] rs@[j]).name@ != subject@,
        decreases rs@.len() - i,
    {
        if str_eq(rs[i].name.as_str(), subject.as_str()) {
            assert(rs@[i as int].name@ == subject@);
            return true;
        }
        i = i + 1;
    }
    false
}

fn find_property_claim<'a>(
    cs: &'a [MappedPropertyClaim],
    subject: &CanonicalName,
    property: &CanonicalName,
) -> (r: Option<&'a MappedPropertyClaim>)
    ensures
        r == match first_claim(cs@, subject@, property@) {
            Some(c) => Some(&c),
            None => None::<&MappedPropertyClaim>,
        },
{
    let mut i: usize = 0;
    assert(cs@.skip(0) =~= cs@);
    while i < cs.len()
        invariant
            i <= cs@.len(),
            first_claim(cs@, subject@, property@) == first_claim(
                cs@.skip(i as int),
                subject@,
                property@,
            ),
        decreases cs@.len() - i,
    {
        assert(cs@.skip(i as int)[0] == cs@[i as int]);
        let c = &cs[i];
        if str_eq(c.subject.as_str(), subject.as_str()) && str_eq(
            c.property.as_str(),
            property.as_str(),
        ) {
            return Some(c);
        }
        assert(cs@.skip(i as int).drop_first() =~= cs@.skip(i + 1));
        i = i + 1;
    }
    None
}

/// Evaluates a property requirement against mapped evidence, as
/// `property_evaluation` states.
pub fn evaluate_property_requirement(
    requirement: &PropertyRequirement,
    evidence: &MappedEvidence,
) -> (r: PropertyEvaluation)
    ensures
        (r.outcome_of(), r.reason_of()) == property_evaluation(
            requirement.subject_of()@,
            requirement.property_of()@,
            requirement.expected_of(),
            evidence.referents_of(),
            evidence.claims_of(),
        ),
{
    if !has_referent(evidence.referents(), requirement.subject()) {
        return PropertyEvaluation::new(
            PropertyOutcome::NotApplicable,
            PropertyReasonTag::SubjectMissing,
        );
    }
    let found = find_property_claim(
        evidence.property_claims(),
        requirement.subject(),
        requirement.property(),
    );
    match found {
        None => PropertyEvaluation::new(PropertyOutcome::Unknown, PropertyReasonTag::PropertyMissing),
        Some(claim) => {
            if !same_kind(&claim.value, requirement.expected()) {
                PropertyEvaluation::new(
                    PropertyOutcome::ValueTypeMismatch,
                    PropertyReasonTag::ValueTypeMismatch,
                )
            } else if values_equal(&claim.value, requirement.expected()) {
                PropertyEvaluation::new(
                    PropertyOutcome::Satisfied,
                    PropertyReasonTag::PropertySatisfied,
                )
            } else {
                PropertyEvaluation::new(
                    PropertyOutcome::Violated,
                    PropertyReasonTag::PropertyViolated,
                )
            }
        },
    }
}

} // verus!
