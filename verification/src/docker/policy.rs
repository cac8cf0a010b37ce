//! The narrow Docker policy authoring shape: a file that declares exactly one
//! boolean property requirement, lowered into a typed requirement for the
//! generic property evaluation.
use vstd::prelude::*;

use crate::eval::property_eval::PropertyRequirement;
use crate::kernel::declared::{name_violation, CanonicalName, ScalarViolation};
use crate::mapper::MappedValue;

verus! {

/// One entry of `property_requirements`, as the file states it.
#[derive(Debug, Clone, PartialEq, Eq)]
pub struct BoolRequirementEntry {
    pub subject: String,
    pub property: String,
    pub expected_bool: bool,
}

/// Why a Docker policy could not be lowered into a requirement.
#[derive(Debug, Clone, PartialEq, Eq)]
pub enum PolicyDockerError {
    /// The file is not YAML of the expected shape; the parser's message.
    SerdeYaml(String),
    /// The file does not declare exactly one requirement; how many it does.
    RequirementCount(usize),
    /// A name of the requirement is not canonical.
    InvalidCanonicalName { field: &'static str, source: ScalarViolation },
}

/// What lowering the entries gives: a refusal unless there is exactly one,
/// then a refusal for the first of its subject and property that is not a
/// canonical name, else the requirement of the subject's property having the
/// expected boolean value.
pub open spec fn lowered(
    entries: Seq<BoolRequirementEntry>,
    r: Result<PropertyRequirement, PolicyDockerError>,
) -> bool {
    if entries.len() != 1 {
        r == Err::<PropertyRequirement, _>(PolicyDockerError::RequirementCount(entries.len() as usize))
    } else {
        let e = entries[0];
        match name_violation(e.subject@) {
            Some(v) => r == Err::<PropertyRequirement, _>(
                PolicyDockerError::InvalidCanonicalName { field: "subject", source: v },
            ),
            None => match name_violation(e.property@) {
                Some(v) => r == Err::<PropertyRequirement, _>(
                    PolicyDockerError::InvalidCanonicalName { field: "property", source: v },
                ),
                None => r matches Ok(q) && q.subject_of()@ == e.subject@ && q.property_of()@
                    == e.property@ && q.expected_of() == MappedValue::Bool(e.expected_bool),
            },
        }
    }
}

fn canonical(field: &'static str, value: String) -> (r: Result<CanonicalName, PolicyDockerError>)
    ensures
        match name_violation(value@) {
            Some(v) => r == Err::<CanonicalName, _>(
                PolicyDockerError::InvalidCanonicalName { field, source: v },
            ),
            None => r matches Ok(n) && n@ == value@,
        },
{
    match CanonicalName::new(value) {
        Ok(n) => Ok(n),
        Err(source) => Err(PolicyDockerError::InvalidCanonicalName { field, source }),
    }
}

/// Lowers the declared entries into the one requirement they must hold.
pub fn property_requirement_from_entries(entries: Vec<BoolRequirementEntry>) -> (r: Result<
    PropertyRequirement,
    PolicyDockerError,
>)
    ensures
        lowered(entries@, r),
{
    let count = entries.len();
    if count != 1 {
        return Err(PolicyDockerError::RequirementCount(count));
    }
    let mut entries = entries;
    let entry = entries.remove(0);
    let subject = match canonical("subject", entry.subject) {
        Ok(n) => n,
        Err(e) => {
            return Err(e);
        },
    };
    let property = match canonical("property", entry.property) {
        Ok(n) => n,
        Err(e) => {
            return Err(e);
        },
    };
    Ok(PropertyRequirement::new(subject, property, MappedValue::Bool(entry.expected_bool)))
}

} // verus!
