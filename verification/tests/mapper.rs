use jw_guard::docker::compose::{ComposeService, DockerComposeMapper};
use jw_guard::docker::vocab::{
    canonical_name, vocabulary_version, CAP_ADD, HEALTHCHECK, IMAGE, IMAGE_REF, IMAGE_TAG,
    NETWORK, PRIVILEGED, SERVICE, USER, VOLUME,
};
use jw_guard::kernel::declared::{CanonicalName, SemVer, Timestamp};
use jw_guard::mapper::{
    MapError, MapErrorCode, MapViolation, MappedEvidence, MappedPropertyClaim, MappedReferent,
    MappedSource, MappedValue, Mapper, MapperIdentity,
};

fn name(value: &str) -> CanonicalName {
    CanonicalName::new(value.to_string()).expect("test name should be canonical")
}

fn source() -> MappedSource {
    MappedSource::new(
        MapperIdentity::new(name("docker-compose"), SemVer::new(0, 1, 0)),
        name("docker-compose-yaml"),
        Timestamp::from_unix_seconds(1),
    )
}

#[test]
fn mapped_evidence_sorts_referents_and_property_claims() {
    let evidence = MappedEvidence::new(
        source(),
        vec![
            MappedReferent::new(name("web"), name("service")),
            MappedReferent::new(name("db"), name("service")),
        ],
        vec![
            MappedPropertyClaim::new(
                name("web"),
                name("privileged"),
                MappedValue::Bool(false),
                Timestamp::from_unix_seconds(1),
            ),
            MappedPropertyClaim::new(
                name("db"),
                name("privileged"),
                MappedValue::Bool(false),
                Timestamp::from_unix_seconds(1),
            ),
        ],
    )
    .expect("mapped evidence should be valid");

    assert_eq!(evidence.referents()[0].name, name("db"));
    assert_eq!(evidence.property_claims()[0].subject, name("db"));
    assert_eq!(evidence.source(), &source());
}

#[test]
fn mapped_evidence_rejects_property_claim_for_unknown_referent() {
    let error = MappedEvidence::new(
        source(),
        vec![MappedReferent::new(name("web"), name("service"))],
        vec![MappedPropertyClaim::new(
            name("db"),
            name("privileged"),
            MappedValue::Bool(false),
            Timestamp::from_unix_seconds(1),
        )],
    )
    .expect_err("unknown referent should fail");

    assert_eq!(
        error,
        MapError::InvalidOutput(vec![MapViolation::PropertyClaimSubjectMissing {
            subject: name("db"),
            property: name("privileged"),
        }])
    );
}

#[test]
fn mapped_evidence_rejects_duplicate_policy_agnostic_property_claims() {
    let error = MappedEvidence::new(
        source(),
        vec![MappedReferent::new(name("web"), name("service"))],
        vec![
            MappedPropertyClaim::new(
                name("web"),
                name("privileged"),
                MappedValue::Bool(false),
                Timestamp::from_unix_seconds(1),
            ),
            MappedPropertyClaim::new(
                name("web"),
                name("privileged"),
                MappedValue::Bool(true),
                Timestamp::from_unix_seconds(1),
            ),
        ],
    )
    .expect_err("duplicate property claim should fail");

    assert_eq!(
        error,
        MapError::InvalidOutput(vec![MapViolation::DuplicatePropertyClaim {
            subject: name("web"),
            property: name("privileged"),
        }])
    );
}

#[test]
fn mapped_evidence_reports_every_violation_in_order() {
    let error = MappedEvidence::new(
        source(),
        vec![
            MappedReferent::new(name("web"), name("service")),
            MappedReferent::new(name("web"), name("image")),
        ],
        vec![MappedPropertyClaim::new(
            name("api"),
            name("user"),
            MappedValue::Names(vec![name("a"), name("b")]),
            Timestamp::from_unix_seconds(2),
        )],
    )
    .expect_err("duplicates and dangling claims fail");
    assert_eq!(
        error,
        MapError::InvalidOutput(vec![
            MapViolation::DuplicateReferent(name("web")),
            MapViolation::PropertyClaimSubjectMissing {
                subject: name("api"),
                property: name("user"),
            },
        ])
    );
}

#[test]
fn mapped_claims_are_ordered_by_value_after_subject_and_property() {
    let evidence = MappedEvidence::new(
        source(),
        vec![MappedReferent::new(name("web"), name("service"))],
        vec![
            MappedPropertyClaim::new(
                name("web"),
                name("user"),
                MappedValue::U64(9),
                Timestamp::from_unix_seconds(1),
            ),
            MappedPropertyClaim::new(
                name("web"),
                name("privileged"),
                MappedValue::Bool(true),
                Timestamp::from_unix_seconds(1),
            ),
        ],
    )
    .expect("valid evidence");
    assert_eq!(evidence.property_claims()[0].property, name("privileged"));
    assert_eq!(evidence.property_claims()[1].value, MappedValue::U64(9));
}

#[test]
fn docker_vocabulary_names_are_canonical() {
    let names = [
        SERVICE,
        NETWORK,
        VOLUME,
        IMAGE,
        PRIVILEGED,
        IMAGE_REF,
        IMAGE_TAG,
        USER,
        HEALTHCHECK,
        CAP_ADD,
    ];

    for name in names {
        assert_eq!(canonical_name(name).as_str(), name);
    }
    assert_eq!(vocabulary_version(), SemVer::new(0, 1, 0));
}

fn service(name: &str, privileged: Option<bool>) -> ComposeService {
    ComposeService {
        name: name.to_owned(),
        privileged,
    }
}

#[test]
fn docker_compose_mapper_emits_neutral_privileged_property_claims() {
    let services = vec![service("db", Some(false)), service("web", Some(true))];
    let mapper = DockerComposeMapper::new(Timestamp::from_unix_seconds(1));

    let evidence = mapper.map(&services).expect("compose should map");

    assert_eq!(evidence.referents().len(), 2);
    assert_eq!(evidence.referents()[0].name.as_str(), "db");
    assert_eq!(evidence.property_claims().len(), 2);
    assert_eq!(evidence.property_claims()[0].subject.as_str(), "db");
    assert_eq!(evidence.property_claims()[0].property.as_str(), "privileged");
    assert_eq!(evidence.property_claims()[0].value, MappedValue::Bool(false));
    assert_eq!(evidence.property_claims()[1].subject.as_str(), "web");
    assert_eq!(evidence.property_claims()[1].value, MappedValue::Bool(true));
    assert_eq!(mapper.identity().name.as_str(), "docker-compose");
}

#[test]
fn docker_compose_mapper_leaves_missing_privileged_as_missing_evidence() {
    let services = vec![service("web", None)];
    let mapper = DockerComposeMapper::new(Timestamp::from_unix_seconds(1));

    let evidence = mapper.map(&services).expect("compose should map");

    assert_eq!(evidence.referents().len(), 1);
    assert!(evidence.property_claims().is_empty());
}

#[test]
fn docker_compose_mapper_rejects_non_canonical_service_names() {
    let services = vec![service("Web", Some(true))];
    let mapper = DockerComposeMapper::new(Timestamp::from_unix_seconds(1));
    assert_eq!(
        mapper.map_services(&services),
        Err(MapError::InvalidInput(MapErrorCode::InvalidInputShape))
    );
}
