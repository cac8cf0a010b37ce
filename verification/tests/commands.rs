use jw_guard::cli::evaluate::{evaluate_compose_bool_property, EvaluateFailure};
use jw_guard::cli::report::{InputFormat, OutputFormat, Outcome, Stage, StageStop, ValidationReport};
use jw_guard::cli::run::{failure_exit_code, output_mode, report_exit_code, USAGE_EXIT_CODE};
use jw_guard::cli::report::{ErrorCode, PathSegment};
use jw_guard::cli::validate::{
    close_concretise_stage, close_syntax_stage, close_validation_stage, close_wire_stage,
    select_format, ValidateFailure,
};
use jw_guard::declare::error::{ConversionError, SymbolicNameError};
use jw_guard::declare::name::SymbolicName;
use jw_guard::declare::spec::{DeclaredSpec, ModelSpec, VersionSpec};
use jw_guard::docker::compose::ComposeService;
use jw_guard::kernel::declared::ScalarViolation;
use jw_guard::mapper::{MapError, MapErrorCode};

fn service(name: &str, privileged: Option<bool>) -> ComposeService {
    ComposeService { name: name.to_string(), privileged }
}

#[test]
fn compose_property_is_reported_with_stable_labels() {
    let services = Ok(vec![service("web", Some(false)), service("db", None)]);
    let report = evaluate_compose_bool_property(services, "web", "privileged", false, 7)
        .expect("evaluation should succeed");
    assert_eq!(report.report_version, "1");
    assert_eq!(report.kind, "docker_compose_property");
    assert_eq!(report.subject, "web");
    assert_eq!(report.property, "privileged");
    assert!(!report.expected_bool);
    assert_eq!(report.outcome, "satisfied");
    assert_eq!(report.reason, "property_satisfied");
}

#[test]
fn compose_property_keeps_uncertainty() {
    let missing_claim = evaluate_compose_bool_property(
        Ok(vec![service("db", None)]),
        "db",
        "privileged",
        false,
        1,
    )
    .expect("evaluation should succeed");
    assert_eq!(missing_claim.outcome, "unknown");
    assert_eq!(missing_claim.reason, "property_missing");

    let missing_subject =
        evaluate_compose_bool_property(Ok(vec![]), "web", "privileged", true, 1)
            .expect("evaluation should succeed");
    assert_eq!(missing_subject.outcome, "not_applicable");
    assert_eq!(missing_subject.reason, "subject_missing");

    let violated = evaluate_compose_bool_property(
        Ok(vec![service("web", Some(true))]),
        "web",
        "privileged",
        false,
        1,
    )
    .expect("evaluation should succeed");
    assert_eq!(violated.outcome, "violated");
    assert_eq!(violated.reason, "property_violated");
}

#[test]
fn compose_evaluation_checks_names_before_mapping() {
    let failure = evaluate_compose_bool_property(
        Err(MapError::InvalidInput(MapErrorCode::InvalidInputShape)),
        "Web",
        "privileged",
        false,
        1,
    )
    .expect_err("subject is not canonical");
    assert!(matches!(
        failure,
        EvaluateFailure::InvalidCanonicalName {
            field: "subject",
            source: ScalarViolation::InvalidCharacter { index: 0, character: 'W' },
        }
    ));

    let failure = evaluate_compose_bool_property(Ok(vec![]), "web", "", false, 1)
        .expect_err("property is empty");
    assert!(matches!(
        failure,
        EvaluateFailure::InvalidCanonicalName { field: "property", source: ScalarViolation::Empty }
    ));

    let failure = evaluate_compose_bool_property(
        Err(MapError::InvalidInput(MapErrorCode::AmbiguousInput)),
        "web",
        "privileged",
        false,
        1,
    )
    .expect_err("the services could not be read");
    assert!(matches!(
        failure,
        EvaluateFailure::Mapping(MapError::InvalidInput(MapErrorCode::AmbiguousInput))
    ));

    let failure = evaluate_compose_bool_property(
        Ok(vec![service("Web", Some(true))]),
        "web",
        "privileged",
        false,
        1,
    )
    .expect_err("service name is not canonical");
    assert!(matches!(
        failure,
        EvaluateFailure::Mapping(MapError::InvalidInput(MapErrorCode::InvalidInputShape))
    ));

    let failure = evaluate_compose_bool_property(
        Ok(vec![service("web", Some(true)), service("web", Some(false))]),
        "web",
        "privileged",
        false,
        1,
    )
    .expect_err("duplicate services");
    assert!(matches!(failure, EvaluateFailure::Mapping(MapError::InvalidOutput(_))));
}

#[test]
fn input_format_comes_from_override_or_extension() {
    assert!(matches!(select_format("spec.txt", Some(InputFormat::Toml)), Ok(InputFormat::Toml)));
    assert!(matches!(select_format("dir/spec.yml", None), Ok(InputFormat::Yaml)));
    assert!(matches!(select_format("spec.json", None), Ok(InputFormat::Json)));
    match select_format("spec.txt", None) {
        Err(ValidateFailure::UnsupportedFormat(path)) => assert_eq!(path, "spec.txt"),
        other => panic!("unexpected {other:?}"),
    }
}

#[test]
fn syntax_stage_closes_only_for_passing_reports() {
    let mut report = ValidationReport::new("spec.json".to_string(), InputFormat::Json);
    assert!(close_syntax_stage(&mut report, StageStop::Concretise));
    assert_eq!(report.stage_reached, Stage::Syntax);

    let mut stopped = ValidationReport::new("spec.json".to_string(), InputFormat::Json);
    assert!(!close_syntax_stage(&mut stopped, StageStop::Parse));
    assert_eq!(stopped.outcome, Outcome::Success);
}

#[test]
fn exit_codes_and_output_modes_follow_the_run_contract() {
    assert_eq!(output_mode(None, true), OutputFormat::Human);
    assert_eq!(output_mode(None, false), OutputFormat::Json);
    assert_eq!(output_mode(Some(OutputFormat::Human), false), OutputFormat::Human);

    let report = ValidationReport::new("spec.json".to_string(), InputFormat::Json);
    assert_eq!(report_exit_code(&report), 0);
    let mut failed = report.clone();
    failed.outcome = Outcome::ValidationError;
    assert_eq!(report_exit_code(&failed), 1);

    let io = ValidateFailure::Io(std::io::Error::new(std::io::ErrorKind::NotFound, "gone"));
    assert!(io.is_io());
    assert_eq!(failure_exit_code(&io), 3);
    let unsupported = ValidateFailure::UnsupportedFormat("spec.txt".to_string());
    assert!(!unsupported.is_io());
    assert_eq!(failure_exit_code(&unsupported), 1);
    assert_eq!(USAGE_EXIT_CODE, 2);
}

fn empty_spec() -> DeclaredSpec {
    DeclaredSpec {
        schema_version: SymbolicName::new("v1").expect("valid name"),
        model: ModelSpec {
            name: SymbolicName::new("model").expect("valid name"),
            version: VersionSpec { major: 1, minor: 0, patch: 0 },
            declared_at_unix_seconds: 0,
            declared_by: SymbolicName::new("owner").expect("valid name"),
        },
        actors: vec![],
        referents: vec![],
        boundaries: vec![],
        edges: vec![],
        scopes: vec![],
        requirements: vec![],
        policies: vec![],
    }
}

#[test]
fn wire_stage_records_conversion_errors_or_passes_the_spec_on() {
    let mut report = ValidationReport::new("spec.json".to_string(), InputFormat::Json);
    let next = close_wire_stage(
        &mut report,
        Err(vec![ConversionError::InvalidSymbolicName {
            path: "scopes[0].name".to_string(),
            reason: SymbolicNameError::Empty,
        }]),
        StageStop::Concretise,
    );
    assert!(next.is_none());
    assert_eq!(report.outcome, Outcome::WireError);
    assert_eq!(report.stage_reached, Stage::Wire);
    assert_eq!(report.errors.len(), 1);
    assert_eq!(report.errors[0].code, ErrorCode::InvalidSymbolicName);
    assert_eq!(
        report.errors[0].path,
        vec![PathSegment::Key("scopes".to_string()), PathSegment::Index(0), PathSegment::Key("name".to_string())]
    );

    let mut passing = ValidationReport::new("spec.json".to_string(), InputFormat::Json);
    assert!(close_wire_stage(&mut passing, Ok(empty_spec()), StageStop::Concretise).is_some());
    assert_eq!(passing.stage_reached, Stage::Wire);
    let mut stopping = ValidationReport::new("spec.json".to_string(), InputFormat::Json);
    assert!(close_wire_stage(&mut stopping, Ok(empty_spec()), StageStop::Wire).is_none());
    assert_eq!(stopping.outcome, Outcome::Success);
}

#[test]
fn validation_stage_records_every_validation_error() {
    let mut report = ValidationReport::new("spec.json".to_string(), InputFormat::Json);
    let go_on = close_validation_stage(&mut report, &empty_spec(), StageStop::Concretise);
    assert!(!go_on);
    assert_eq!(report.outcome, Outcome::ValidationError);
    assert_eq!(report.stage_reached, Stage::Validation);
    let codes: Vec<ErrorCode> = report.errors.iter().map(|e| e.code).collect();
    assert_eq!(
        codes,
        vec![
            ErrorCode::ValidationEmptySection,
            ErrorCode::ValidationMissingReference,
            ErrorCode::ValidationEmptySection,
        ]
    );
}

#[test]
fn concretise_stage_records_its_outcome() {
    let mut report = ValidationReport::new("spec.json".to_string(), InputFormat::Json);
    close_concretise_stage(&mut report, Ok(()));
    assert_eq!(report.stage_reached, Stage::Concretise);
    assert_eq!(report.outcome, Outcome::Success);

    let mut failed = ValidationReport::new("spec.json".to_string(), InputFormat::Json);
    close_concretise_stage(
        &mut failed,
        Err(ConversionError::MissingReference {
            section: "policies",
            field: "scope",
            name: "ghost".to_string(),
        }),
    );
    assert_eq!(failed.stage_reached, Stage::Concretise);
    assert_eq!(failed.outcome, Outcome::ValidationError);
    assert_eq!(failed.errors.len(), 1);
    assert_eq!(failed.errors[0].code, ErrorCode::MissingReference);
}
