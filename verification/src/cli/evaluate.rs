//! Evaluation of one boolean property of a Compose service: the names are
//! checked, the services mapped into evidence, and the requirement's verdict
//! reported under stable labels.
use vstd::prelude::*;

use crate::canon::ordering::ordered_adjacent;
use crate::docker::compose::{
    claim_pairs, privileged_claims, referent_pairs, service_referents, ComposeService,
    DockerComposeMapper,
};
use crate::docker::vocab::is_canonical_text;
use crate::eval::property_eval::{
    evaluate_property_requirement, property_evaluation, PropertyEvaluation, PropertyOutcome,
    PropertyReasonTag, PropertyRequirement,
};
use crate::kernel::declared::{name_violation, CanonicalName, ScalarViolation, Timestamp};
use crate::kernel::duplicate::Duplicate;
use crate::mapper::{
    evidence_violations, violations_view, MapError, MapErrorCode, MappedPropertyClaim,
    MappedReferent, MappedValue,
};
use crate::text::owned;

verus! {

/// std's I/O error, carried as it is.
#[verifier::external_type_specification]
#[verifier::external_body]
pub struct ExIoError(std::io::Error);

/// Why an evaluation could not be made.
#[derive(Debug)]
pub enum EvaluateFailure {
    Io(std::io::Error),
    InvalidCanonicalName { field: &'static str, source: ScalarViolation },
    Mapping(MapError),
}

/// The report of one evaluation.
#[derive(Debug, Clone, PartialEq, Eq)]
pub struct EvaluateReport {
    pub report_version: String,
    pub kind: String,
    pub subject: String,
    pub property: String,
    pub expected_bool: bool,
    pub outcome: &'static str,
    pub reason: &'static str,
}

pub open spec fn outcome_label(o: PropertyOutcome) -> Seq<char> {
    match o {
        PropertyOutcome::Satisfied => "satisfied"@,
        PropertyOutcome::Violated => "violated"@,
        PropertyOutcome::Unknown => "unknown"@,
        PropertyOutcome::NotApplicable => "not_applicable"@,
        PropertyOutcome::ValueTypeMismatch => "value_type_mismatch"@,
    }
}

pub open spec fn reason_label(r: PropertyReasonTag) -> Seq<char> {
    match r {
        PropertyReasonTag::PropertySatisfied => "property_satisfied"@,
        PropertyReasonTag::PropertyViolated => "property_violated"@,
        PropertyReasonTag::PropertyMissing => "property_missing"@,
        PropertyReasonTag::SubjectMissing => "subject_missing"@,
        PropertyReasonTag::ValueTypeMismatch => "value_type_mismatch"@,
    }
}

fn outcome_label_str(o: PropertyOutcome) -> (r: &'static str)
    ensures
        r@ == outcome_label(o),
{
    match o {
        PropertyOutcome::Satisfied => "satisfied",
        PropertyOutcome::Violated => "violated",
        PropertyOutcome::Unknown => "unknown",
        PropertyOutcome::NotApplicable => "not_applicable",
        PropertyOutcome::ValueTypeMismatch => "value_type_mismatch",
    }
}

fn reason_label_str(r: PropertyReasonTag) -> (s: &'static str)
    ensures
        s@ == reason_label(r),
{
    match r {
        PropertyReasonTag::PropertySatisfied => "property_satisfied",
        PropertyReasonTag::PropertyViolated => "property_violated",
        PropertyReasonTag::PropertyMissing => "property_missing",
        PropertyReasonTag::SubjectMissing => "subject_missing",
        PropertyReasonTag::ValueTypeMismatch => "value_type_mismatch",
    }
}

fn parse_name(field: &'static str, value: &str) -> (r: Result<CanonicalName, EvaluateFailure>)
    ensures
        match name_violation(value@) {
            Some(v) => r matches Err(EvaluateFailure::InvalidCanonicalName { field: f, source })
                && f == field && source == v,
            None => r matches Ok(n) && n@ == value@,
        },
{
    match CanonicalName::new(owned(value)) {
        Ok(n) => Ok(n),
        Err(source) => Err(EvaluateFailure::InvalidCanonicalName { field, source }),
    }
}

/// The report of an evaluation of the subject's property against `expected`.
pub open spec fn reports(
    report: EvaluateReport,
    subject: Seq<char>,
    property: Seq<char>,
    expected: bool,
    evaluation: (PropertyOutcome, PropertyReasonTag),
) -> bool {
    &&& report.report_version@ == "1"@
    &&& report.kind@ == "docker_compose_property"@
    &&& report.subject@ == subject
    &&& report.property@ == property
    &&& report.expected_bool == expected
    &&& report.outcome@ == outcome_label(evaluation.0)
    &&& report.reason@ == reason_label(evaluation.1)
}

fn report(
    subject: &CanonicalName,
    property: &CanonicalName,
    expected_bool: bool,
    evaluation: PropertyEvaluation,
) -> (r: EvaluateReport)
    ensures
        reports(
            r,
            subject@,
            property@,
            expected_bool,
            (evaluation.outcome_of(), evaluation.reason_of()),
        ),
{
    EvaluateReport {
        report_version: owned("1"),
        kind: owned("docker_compose_property"),
        subject: owned(subject.as_str()),
        property: owned(property.as_str()),
        expected_bool,
        outcome: outcome_label_str(evaluation.outcome()),
        reason: reason_label_str(evaluation.reason()),
    }
}

/// What evaluating mapped services gives: the mapping's refusal, or the
/// report of the requirement's verdict on the evidence the services map to.
pub open spec fn evaluates(
    r: Result<EvaluateReport, EvaluateFailure>,
    services: Seq<ComposeService>,
    subject: Seq<char>,
    property: Seq<char>,
    expected: bool,
) -> bool {
    &&& (exists|i: int| 0 <= i < services.len() && !is_canonical_text(#[trigger] services[i].name@))
        ==> (r matches Err(EvaluateFailure::Mapping(MapError::InvalidInput(c)))
        && c == MapErrorCode::InvalidInputShape)
    &&& (forall|i: int| 0 <= i < services.len() ==> is_canonical_text(#[trigger] services[i].name@))
        ==> exists|rs: Seq<MappedReferent>, cs: Seq<MappedPropertyClaim>|
        #![trigger evidence_violations(rs, cs)]
        ordered_adjacent(rs) && ordered_adjacent(cs) && referent_pairs(rs).to_multiset()
            == service_referents(services).to_multiset() && claim_pairs(cs).to_multiset()
            == privileged_claims(services).to_multiset() && match r {
            Ok(report) => evidence_violations(rs, cs).len() == 0 && reports(
                report,
                subject,
                property,
                expected,
                property_evaluation(subject, property, MappedValue::Bool(expected), rs, cs),
            ),
            Err(EvaluateFailure::Mapping(MapError::InvalidOutput(v))) => violations_view(v@)
                == evidence_violations(rs, cs),
            _ => false,
        }
}

/// Evaluates whether the subject's boolean property has the expected value
/// in the Compose services read at the given instant: the subject and then
/// the property must be canonical names, the services must have been read,
/// and they must map into valid evidence.
pub fn evaluate_compose_bool_property(
    services: Result<Vec<ComposeService>, MapError>,
    subject: &str,
    property: &str,
    expected: bool,
    observed_at_unix_seconds: u64,
) -> (r: Result<EvaluateReport, EvaluateFailure>)
    ensures
        match name_violation(subject@) {
            Some(v) => r matches Err(EvaluateFailure::InvalidCanonicalName { field, source })
                && field@ == "subject"@ && source == v,
            None => match name_violation(property@) {
                Some(v) => r matches Err(EvaluateFailure::InvalidCanonicalName { field, source })
                    && field@ == "property"@ && source == v,
                None => match services {
                    Err(e) => r matches Err(EvaluateFailure::Mapping(m)) && m == e,
                    Ok(list) => evaluates(r, list@, subject@, property@, expected),
                },
            },
        },
{
    let subject_name = match parse_name("subject", subject) {
        Ok(n) => n,
        Err(e) => {
            return Err(e);
        },
    };
    let property_name = match parse_name("property", property) {
        Ok(n) => n,
        Err(e) => {
            return Err(e);
        },
    };
    let list = match services {
        Ok(list) => list,
        Err(e) => {
            return Err(EvaluateFailure::Mapping(e));
        },
    };
    let mapper = DockerComposeMapper::new(Timestamp::from_unix_seconds(observed_at_unix_seconds));
    let evidence = match mapper.map_services(list.as_slice()) {
        Ok(evidence) => evidence,
        Err(e) => {
            return Err(EvaluateFailure::Mapping(e));
        },
    };
    let requirement = PropertyRequirement::new(
        subject_name.duplicate(),
        property_name.duplicate(),
        MappedValue::Bool(expected),
    );
    let evaluation = evaluate_property_requirement(&requirement, &evidence);
    Ok(report(&subject_name, &property_name, expected, evaluation))
}

} // verus!
