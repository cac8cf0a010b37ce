use jw_guard::docker::policy::{
    property_requirement_from_entries, BoolRequirementEntry, PolicyDockerError,
};
use jw_guard::kernel::declared::ScalarViolation;
use jw_guard::mapper::MappedValue;

fn entry(subject: &str, property: &str, expected_bool: bool) -> BoolRequirementEntry {
    BoolRequirementEntry {
        subject: subject.to_string(),
        property: property.to_string(),
        expected_bool,
    }
}

#[test]
fn parses_single_bool_requirement_from_policy_yaml() {
    let req = property_requirement_from_entries(vec![entry("web", "privileged", false)])
        .expect("policy should parse");
    assert_eq!(req.subject().as_str(), "web");
    assert_eq!(req.property().as_str(), "privileged");
    assert_eq!(req.expected(), &MappedValue::Bool(false));
}

#[test]
fn rejects_policy_with_zero_or_many_requirements() {
    assert_eq!(
        property_requirement_from_entries(vec![]).expect_err("count"),
        PolicyDockerError::RequirementCount(0)
    );
    let two = vec![entry("web", "privileged", false), entry("db", "privileged", false)];
    assert_eq!(
        property_requirement_from_entries(two).expect_err("count"),
        PolicyDockerError::RequirementCount(2)
    );
}

#[test]
fn docker_policy_names_must_be_canonical_subject_first() {
    assert_eq!(
        property_requirement_from_entries(vec![entry("Web", "Privileged", true)])
            .expect_err("subject"),
        PolicyDockerError::InvalidCanonicalName {
            field: "subject",
            source: ScalarViolation::InvalidCharacter { index: 0, character: 'W' },
        }
    );
    assert_eq!(
        property_requirement_from_entries(vec![entry("web", "", true)]).expect_err("property"),
        PolicyDockerError::InvalidCanonicalName { field: "property", source: ScalarViolation::Empty }
    );
}

#[test]
fn docker_policy_keeps_the_expected_value() {
    let req = property_requirement_from_entries(vec![entry("db", "read_only", true)])
        .expect("policy should parse");
    assert_eq!(req.expected(), &MappedValue::Bool(true));
}
