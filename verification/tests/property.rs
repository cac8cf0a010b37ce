use jw_guard::eval::property_eval::{
    evaluate_property_requirement, PropertyEvaluation, PropertyOutcome, PropertyReasonTag,
    PropertyRequirement,
};
use jw_guard::kernel::declared::{CanonicalName, SemVer, Timestamp};
use jw_guard::mapper::{
    MappedEvidence, MappedPropertyClaim, MappedReferent, MappedSource, MappedValue,
    MapperIdentity,
};

fn name(value: &str) -> CanonicalName {
    CanonicalName::new(value.to_string()).expect("test name should be canonical")
}

fn source() -> MappedSource {
    MappedSource::new(
        MapperIdentity::new(name("docker-compose"), SemVer::new(0, 1, 0)),
        name("docker-compose-yaml"),
        Timestamp::from_unix_seconds(1),
    )
}

fn evidence_with_property(value: MappedValue) -> MappedEvidence {
    MappedEvidence::new(
        source(),
        vec![MappedReferent::new(name("web"), name("service"))],
        vec![MappedPropertyClaim::new(
            name("web"),
            name("privileged"),
            value,
            Timestamp::from_unix_seconds(1),
        )],
    )
    .expect("mapped evidence should be valid")
}

fn privileged_requirement(expected: MappedValue) -> PropertyRequirement {
    PropertyRequirement::new(name("web"), name("privileged"), expected)
}

#[test]
fn property_requirement_is_satisfied_when_observed_value_matches() {
    let evidence = evidence_with_property(MappedValue::Bool(false));
    let requirement = privileged_requirement(MappedValue::Bool(false));

    let evaluation = evaluate_property_requirement(&requirement, &evidence);

    assert_eq!(evaluation.outcome(), PropertyOutcome::Satisfied);
    assert_eq!(evaluation.reason(), PropertyReasonTag::PropertySatisfied);
}

#[test]
fn property_requirement_is_violated_when_observed_value_differs() {
    let evidence = evidence_with_property(MappedValue::Bool(true));
    let requirement = privileged_requirement(MappedValue::Bool(false));

    let evaluation = evaluate_property_requirement(&requirement, &evidence);

    assert_eq!(evaluation.outcome(), PropertyOutcome::Violated);
    assert_eq!(evaluation.reason(), PropertyReasonTag::PropertyViolated);
}

#[test]
fn property_requirement_is_unknown_when_claim_is_missing() {
    let evidence = MappedEvidence::new(
        source(),
        vec![MappedReferent::new(name("web"), name("service"))],
        vec![],
    )
    .expect("mapped evidence should be valid");
    let requirement = privileged_requirement(MappedValue::Bool(false));

    let evaluation = evaluate_property_requirement(&requirement, &evidence);

    assert_eq!(evaluation.outcome(), PropertyOutcome::Unknown);
    assert_eq!(evaluation.reason(), PropertyReasonTag::PropertyMissing);
}

#[test]
fn property_requirement_is_not_applicable_when_subject_is_missing() {
    let evidence =
        MappedEvidence::new(source(), vec![], vec![]).expect("mapped evidence should be valid");
    let requirement = privileged_requirement(MappedValue::Bool(false));

    let evaluation = evaluate_property_requirement(&requirement, &evidence);

    assert_eq!(evaluation.outcome(), PropertyOutcome::NotApplicable);
    assert_eq!(evaluation.reason(), PropertyReasonTag::SubjectMissing);
}

#[test]
fn property_requirement_distinguishes_value_type_mismatch() {
    let evidence = evidence_with_property(MappedValue::Bool(false));
    let requirement = privileged_requirement(MappedValue::U64(0));

    let evaluation = evaluate_property_requirement(&requirement, &evidence);

    assert_eq!(evaluation.outcome(), PropertyOutcome::ValueTypeMismatch);
    assert_eq!(evaluation.reason(), PropertyReasonTag::ValueTypeMismatch);
}

#[test]
fn property_requirement_compares_name_lists_by_text() {
    let evidence = evidence_with_property(MappedValue::Names(vec![name("net_admin"), name("sys_time")]));
    let same = privileged_requirement(MappedValue::Names(vec![name("net_admin"), name("sys_time")]));
    let shorter = privileged_requirement(MappedValue::Names(vec![name("net_admin")]));

    assert_eq!(
        evaluate_property_requirement(&same, &evidence).outcome(),
        PropertyOutcome::Satisfied
    );
    assert_eq!(
        evaluate_property_requirement(&shorter, &evidence).outcome(),
        PropertyOutcome::Violated
    );
}

#[test]
fn property_requirement_unknown_for_other_property_of_present_subject() {
    let evidence = evidence_with_property(MappedValue::Bool(false));
    let requirement = PropertyRequirement::new(name("web"), name("user"), MappedValue::Bool(false));

    let evaluation = evaluate_property_requirement(&requirement, &evidence);

    assert_eq!(
        evaluation,
        PropertyEvaluation::new(PropertyOutcome::Unknown, PropertyReasonTag::PropertyMissing)
    );
    assert_eq!(requirement.subject(), &name("web"));
    assert_eq!(requirement.property(), &name("user"));
    assert_eq!(requirement.expected(), &MappedValue::Bool(false));
}
