use jw_guard::canon::canonical_path::CanonicalPathError;
use jw_guard::cli::error_map::{map_declare_error, map_validation_error, map_wire_shape_error};
use jw_guard::cli::output_human::render_human_report;
use jw_guard::cli::report::{
    compare_errors, parse_path, ErrorCode, InputFormat, Outcome, PathSegment, ReportError,
    SourceLocation, Stage, ValidationReport,
};
use jw_guard::declare::error::{ConstructionViolation, ConversionError};
use jw_guard::declare::name::SymbolicName;
use jw_guard::declare::spec_validation::ValidationError;
use jw_guard::kernel::declared::RequirementOperator;

fn error(stage: Stage, code: ErrorCode, path: Vec<PathSegment>, message: &str) -> ReportError {
    ReportError {
        stage,
        code,
        path,
        message: message.to_owned(),
        source: None,
    }
}

#[test]
fn parse_path_splits_indexes_and_keys() {
    let parsed = parse_path("scopes[0].predicate.kind");
    assert_eq!(
        parsed,
        vec![
            PathSegment::Key("scopes".to_owned()),
            PathSegment::Index(0),
            PathSegment::Key("predicate".to_owned()),
            PathSegment::Key("kind".to_owned()),
        ]
    );
}

#[test]
fn parse_path_ignores_root_marker() {
    let parsed = parse_path("$.root[1].value");
    assert_eq!(
        parsed,
        vec![
            PathSegment::Key("root".to_owned()),
            PathSegment::Index(1),
            PathSegment::Key("value".to_owned()),
        ]
    );
}

#[test]
fn parse_path_keeps_non_numeric_brackets_as_keys() {
    assert_eq!(
        parse_path("a[x]b[]c[+7"),
        vec![
            PathSegment::Key("a".to_owned()),
            PathSegment::Key("x".to_owned()),
            PathSegment::Key("b".to_owned()),
            PathSegment::Key("c".to_owned()),
            PathSegment::Index(7),
        ]
    );
    assert!(parse_path("").is_empty());
    assert_eq!(
        parse_path("[99999999999999999999999]"),
        vec![PathSegment::Key("99999999999999999999999".to_owned())]
    );
}

#[test]
fn compare_errors_sorts_by_stage_path_and_code() {
    let left = ReportError {
        stage: Stage::Wire,
        code: ErrorCode::UnknownField,
        path: vec![PathSegment::Key("model".to_owned())],
        message: "message".to_owned(),
        source: Some(SourceLocation { line: 1, column: 1 }),
    };
    let right = ReportError {
        stage: Stage::Validation,
        code: ErrorCode::ValidationMissingReference,
        path: vec![PathSegment::Key("model".to_owned())],
        message: "message".to_owned(),
        source: None,
    };

    assert!(compare_errors(&left, &right).is_lt());
}

#[test]
fn compare_errors_orders_keys_before_indexes_and_prefixes_first() {
    let key = error(Stage::Wire, ErrorCode::UnknownField, vec![PathSegment::Key("a".to_owned())], "m");
    let index = error(Stage::Wire, ErrorCode::UnknownField, vec![PathSegment::Index(0)], "m");
    let longer = error(
        Stage::Wire,
        ErrorCode::UnknownField,
        vec![PathSegment::Key("a".to_owned()), PathSegment::Index(0)],
        "m",
    );
    assert!(compare_errors(&key, &index).is_lt());
    assert!(compare_errors(&key, &longer).is_lt());
    assert!(compare_errors(&longer, &key).is_gt());
    assert!(compare_errors(&key, &key).is_eq());
}

#[test]
fn push_error_keeps_errors_sorted_and_sets_outcome() {
    let mut report = ValidationReport::new("/tmp/spec.json".to_owned(), InputFormat::Json);
    assert!(report.outcome.is_ok());
    report.push_error(error(Stage::Validation, ErrorCode::ValidationEmptySection, Vec::new(), "b"));
    report.push_error(error(Stage::Wire, ErrorCode::UnknownField, Vec::new(), "a"));
    assert_eq!(report.outcome, Outcome::WireError);
    assert_eq!(report.stage_reached, Stage::Wire);
    assert_eq!(report.errors[0].stage, Stage::Wire);
    assert_eq!(report.errors[1].stage, Stage::Validation);
    report.set_stage_reached(Stage::Concretise);
    assert_eq!(report.stage_reached, Stage::Concretise);
}

#[test]
fn input_format_is_detected_from_the_extension() {
    assert_eq!(InputFormat::detect("spec.json"), Some(InputFormat::Json));
    assert_eq!(InputFormat::detect("dir/spec.yml"), Some(InputFormat::Yaml));
    assert_eq!(InputFormat::detect("/a/b/spec.yaml"), Some(InputFormat::Yaml));
    assert_eq!(InputFormat::detect("spec.toml/"), Some(InputFormat::Toml));
    assert_eq!(InputFormat::detect(".json"), None);
    assert_eq!(InputFormat::detect("spec.txt"), None);
    assert_eq!(InputFormat::detect("spec"), None);
}

#[test]
fn unknown_field_maps_to_unknown_field_code() {
    let report = map_wire_shape_error(Stage::Wire, "unknown field `x`".to_owned(), None);
    assert_eq!(report.code, ErrorCode::UnknownField);
    assert!(report.source.is_none());
}

#[test]
fn unknown_variant_maps_to_discriminator_code() {
    let report = map_wire_shape_error(Stage::Wire, "unknown variant `x`".to_owned(), None);
    assert_eq!(report.code, ErrorCode::InvalidDiscriminator);
    assert!(report.source.is_none());
}

#[test]
fn other_wire_messages_map_to_decode_failure() {
    let report = map_wire_shape_error(
        Stage::Wire,
        "expected value".to_owned(),
        Some(SourceLocation { line: 2, column: 3 }),
    );
    assert_eq!(report.code, ErrorCode::WireShapeDecodeFailed);
    assert_eq!(report.source, Some(SourceLocation { line: 2, column: 3 }));
}

#[test]
fn concretise_construction_violation_uses_distinct_code() {
    let error = ConversionError::InvalidConstruction(ConstructionViolation::InvalidRequirementValueType);
    let report = map_declare_error(&error, Stage::Concretise);
    assert_eq!(report.code, ErrorCode::InvalidConstruction);
}

#[test]
fn concretise_canonical_path_violation_uses_distinct_code() {
    let error = ConversionError::CanonicalPath(CanonicalPathError::EmptyPath);
    let report = map_declare_error(&error, Stage::Concretise);
    assert_eq!(report.code, ErrorCode::CanonicalPathError);
    assert!(report.source.is_none());
}

#[test]
fn concretise_error_snapshot_has_null_source() {
    let error = ConversionError::InvalidConstruction(ConstructionViolation::InvalidRequirementValueType);
    let report = map_declare_error(&error, Stage::Concretise);
    assert_eq!(report.stage, Stage::Concretise);
    assert_eq!(report.code, ErrorCode::InvalidConstruction);
    assert!(report.path.is_empty());
    assert_eq!(
        report.message,
        "core declaration construction failed: requirement value type is incompatible with operator"
    );
    assert!(report.source.is_none());
}

#[test]
fn declare_errors_carry_their_paths() {
    let missing = ConversionError::MissingReference {
        section: "policies",
        field: "scope",
        name: "public".to_owned(),
    };
    let report = map_declare_error(&missing, Stage::Concretise);
    assert_eq!(report.code, ErrorCode::MissingReference);
    assert_eq!(
        report.path,
        vec![
            PathSegment::Key("policies".to_owned()),
            PathSegment::Key("scope".to_owned()),
            PathSegment::Key("public".to_owned()),
        ]
    );
    let failed = ConversionError::ValidationFailed(Vec::new());
    assert_eq!(
        map_declare_error(&failed, Stage::Validation).message,
        "validation failed with 0 error(s)"
    );
}

#[test]
fn validation_errors_map_to_paths_and_messages() {
    let report = map_validation_error(&ValidationError::EmptySection { section: "actors" });
    assert_eq!(report.code, ErrorCode::ValidationEmptySection);
    assert_eq!(report.path, vec![PathSegment::Key("actors".to_owned())]);
    assert_eq!(report.message, "section 'actors' must not be empty");

    let name = SymbolicName::new("gate").unwrap();
    let report = map_validation_error(&ValidationError::InvalidRequirementValue {
        name,
        operator: RequirementOperator::CountMin,
    });
    assert_eq!(report.stage, Stage::Validation);
    assert_eq!(
        report.message,
        "invalid requirement value for 'gate' and operator 'CountMin'"
    );
}

#[test]
fn human_report_renders_each_error_line() {
    let mut report = ValidationReport::new("/tmp/spec.json".to_owned(), InputFormat::Json);
    assert_eq!(
        render_human_report(&report),
        "ok: /tmp/spec.json (Json) stage_reached=Syntax\n"
    );
    report.push_error(ReportError {
        stage: Stage::Wire,
        code: ErrorCode::UnknownField,
        path: vec![PathSegment::Key("scopes".to_owned()), PathSegment::Index(0)],
        message: "unknown field".to_owned(),
        source: Some(SourceLocation { line: 3, column: 7 }),
    });
    assert_eq!(
        render_human_report(&report),
        "outcome=WireError path=/tmp/spec.json format=Json stage_reached=Wire\n1. [wire::UnknownField] unknown field at 3:7 (scopes[0])\n"
    );
}

#[test]
fn sort_errors_orders_by_key_and_keeps_equal_errors_in_place() {
    let located = |line: usize, path: Vec<PathSegment>| ReportError {
        stage: Stage::Wire,
        code: ErrorCode::UnknownField,
        path,
        message: "unknown field".to_string(),
        source: Some(SourceLocation { line, column: 1 }),
    };
    let mut report = ValidationReport::new("spec.json".to_string(), InputFormat::Json);
    report.errors = vec![
        located(3, vec![PathSegment::Key("b".to_string())]),
        located(2, vec![PathSegment::Key("a".to_string())]),
        located(1, vec![PathSegment::Key("a".to_string())]),
        error(Stage::Syntax, ErrorCode::EmptyInput, vec![], "empty"),
    ];
    report.sort_errors();
    assert_eq!(report.errors[0].stage, Stage::Syntax);
    let lines: Vec<usize> = report.errors[1..]
        .iter()
        .map(|e| e.source.as_ref().expect("located").line)
        .collect();
    assert_eq!(lines, vec![2, 1, 3]);
}

#[test]
fn push_error_sorts_every_error_of_the_report() {
    let mut report = ValidationReport::new("spec.json".to_string(), InputFormat::Json);
    report.errors = vec![
        error(Stage::Validation, ErrorCode::ValidationEmptySection, vec![], "late"),
        error(Stage::Syntax, ErrorCode::EmptyInput, vec![], "early"),
    ];
    report.push_error(error(Stage::Wire, ErrorCode::UnknownField, vec![], "middle"));
    let stages: Vec<Stage> = report.errors.iter().map(|e| e.stage).collect();
    assert_eq!(stages, vec![Stage::Syntax, Stage::Wire, Stage::Validation]);
    assert_eq!(report.stage_reached, Stage::Wire);
    assert_eq!(report.outcome, Outcome::WireError);
}
