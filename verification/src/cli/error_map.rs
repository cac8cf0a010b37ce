//! Mapping of library errors into report errors.
use vstd::prelude::*;

use crate::cli::report::{
    parse_path, path_steps, segments_view, ErrorCode, PathSegment, ReportError, SegmentView,
    SourceLocation, Stage,
};
use crate::declare::error::{ConstructionViolation, ConversionError};
use crate::declare::spec_validation::ValidationError;
use crate::kernel::declared::RequirementOperator;
use crate::text::{contains_text, decimal, owned, push_str, str_contains, usize_to_decimal};

verus! {

/// The code a wire-shape decoding message maps to: unknown fields, then
/// unknown variants, wrong types and a missing `kind` discriminator, then
/// every other decoding failure.
pub open spec fn wire_shape_code(message: Seq<char>) -> ErrorCode {
    if contains_text(message, "unknown field"@) {
        ErrorCode::UnknownField
    } else if contains_text(message, "unknown variant"@) || contains_text(message, "invalid type"@)
        || contains_text(message, "missing field `kind`"@) {
        ErrorCode::InvalidDiscriminator
    } else {
        ErrorCode::WireShapeDecodeFailed
    }
}

/// Maps a wire-shape decoding message into a report error at the stage,
/// with no path, keeping the message and source location.
pub fn map_wire_shape_error(stage: Stage, message: String, source: Option<SourceLocation>) -> (r:
    ReportError)
    ensures
        r.stage == stage,
        r.code == wire_shape_code(message@),
        r.path@.len() == 0,
        r.message == message,
        r.source == source,
{
    let code = if str_contains(message.as_str(), "unknown field") {
        ErrorCode::UnknownField
    } else if str_contains(message.as_str(), "unknown variant") || str_contains(
        message.as_str(),
        "invalid type",
    ) || str_contains(message.as_str(), "missing field `kind`") {
        ErrorCode::InvalidDiscriminator
    } else {
        ErrorCode::WireShapeDecodeFailed
    };
    ReportError { stage, code, path: Vec::new(), message, source }
}

/// The code of a JSON syntax message: duplicate keys, then trailing data,
/// then any other malformed input.
pub open spec fn json_syntax_code(message: Seq<char>) -> ErrorCode {
    if contains_text(message, "duplicate key"@) {
        ErrorCode::DuplicateKey
    } else if contains_text(message, "trailing"@) {
        ErrorCode::TrailingData
    } else {
        ErrorCode::InvalidShape
    }
}

/// Maps a JSON syntax message at a one-based line and column into a report
/// error at the syntax stage, with no path.
pub fn map_json_syntax_message(message: String, line: usize, column: usize) -> (r: ReportError)
    ensures
        r.stage is Syntax,
        r.code == json_syntax_code(message@),
        r.path@.len() == 0,
        r.message == message,
        r.source == Some(SourceLocation { line, column }),
{
    let code = if str_contains(message.as_str(), "duplicate key") {
        ErrorCode::DuplicateKey
    } else if str_contains(message.as_str(), "trailing") {
        ErrorCode::TrailingData
    } else {
        ErrorCode::InvalidShape
    };
    ReportError {
        stage: Stage::Syntax,
        code,
        path: Vec::new(),
        message,
        source: Some(SourceLocation { line, column }),
    }
}

/// A JSON decoder's position as a source location: none when it reports
/// line and column zero.
pub fn json_source(line: usize, column: usize) -> (r: Option<SourceLocation>)
    ensures
        r == if line == 0 && column == 0 {
            None
        } else {
            Some(SourceLocation { line, column })
        },
{
    if line == 0 && column == 0 {
        None
    } else {
        Some(SourceLocation { line, column })
    }
}

/// The kinds of syntax failure that YAML and TOML input can have.
#[derive(Debug, Clone, Copy, PartialEq, Eq, Structural)]
pub enum SyntaxFailure {
    InvalidUtf8,
    EmptyInput,
    Malformed,
    ForbiddenFeature,
}

/// Maps a syntax failure into a report error at the syntax stage, with its
/// message, path and source location.
pub fn map_syntax_failure(
    failure: SyntaxFailure,
    message: String,
    path: Vec<PathSegment>,
    source: Option<SourceLocation>,
) -> (r: ReportError)
    ensures
        r.stage is Syntax,
        r.code == match failure {
            SyntaxFailure::InvalidUtf8 => ErrorCode::InvalidUtf8,
            SyntaxFailure::EmptyInput => ErrorCode::EmptyInput,
            SyntaxFailure::Malformed => ErrorCode::InvalidShape,
            SyntaxFailure::ForbiddenFeature => ErrorCode::ForbiddenYamlFeature,
        },
        r.path == path,
        r.message == message,
        r.source == source,
{
    let code = match failure {
        SyntaxFailure::InvalidUtf8 => ErrorCode::InvalidUtf8,
        SyntaxFailure::EmptyInput => ErrorCode::EmptyInput,
        SyntaxFailure::Malformed => ErrorCode::InvalidShape,
        SyntaxFailure::ForbiddenFeature => ErrorCode::ForbiddenYamlFeature,
    };
    ReportError { stage: Stage::Syntax, code, path, message, source }
}

/// The text of a conversion error.
pub open spec fn conversion_message(e: ConversionError) -> Seq<char> {
    match e {
        ConversionError::InvalidSymbolicName { path, .. } => "invalid symbolic name at "@ + path@,
        ConversionError::ValidationFailed(errors) => "validation failed with "@ + decimal(
            errors@.len(),
        ) + " error(s)"@,
        ConversionError::CanonicalPath(_) => "canonical path construction failed"@,
        ConversionError::DeterministicId(_) => "deterministic id derivation failed"@,
        ConversionError::InvalidCanonicalName(_) => "invalid canonical name"@,
        ConversionError::InvalidConstruction(ConstructionViolation::InvalidRequirementValueType) =>
            "core declaration construction failed: requirement value type is incompatible with operator"@,
        ConversionError::MissingReference { section, field, name } => "missing reference '"@
            + name@ + "' for "@ + section@ + "."@ + field@,
    }
}

/// The code of each conversion error.
pub open spec fn conversion_code(e: ConversionError) -> ErrorCode {
    match e {
        ConversionError::InvalidSymbolicName { .. } => ErrorCode::InvalidSymbolicName,
        ConversionError::ValidationFailed(_) => ErrorCode::DeclareConversionFailed,
        ConversionError::CanonicalPath(_) => ErrorCode::CanonicalPathError,
        ConversionError::DeterministicId(_) => ErrorCode::DeterministicIdError,
        ConversionError::InvalidCanonicalName(_) => ErrorCode::InvalidCanonicalName,
        ConversionError::InvalidConstruction(_) => ErrorCode::InvalidConstruction,
        ConversionError::MissingReference { .. } => ErrorCode::MissingReference,
    }
}

/// The path of each conversion error: the steps of the offending name's
/// path, the section, field and name of a missing reference, else none.
pub open spec fn conversion_path(e: ConversionError) -> Seq<SegmentView> {
    match e {
        ConversionError::InvalidSymbolicName { path, .. } => path_steps(path@),
        ConversionError::MissingReference { section, field, name } => seq![
            SegmentView::Key(section@),
            SegmentView::Key(field@),
            SegmentView::Key(name@),
        ],
        _ => Seq::empty(),
    }
}

fn key(text: &str) -> (r: PathSegment)
    ensures
        r@ == SegmentView::Key(text@),
{
    PathSegment::Key(owned(text))
}

fn conversion_text(error: &ConversionError) -> (r: String)
    ensures
        r@ == conversion_message(*error),
{
    match error {
        ConversionError::InvalidSymbolicName { path, .. } => {
            let mut m = owned("invalid symbolic name at ");
            push_str(&mut m, path.as_str());
            m
        },
        ConversionError::ValidationFailed(errors) => {
            let mut m = owned("validation failed with ");
            let n = usize_to_decimal(errors.len());
            push_str(&mut m, n.as_str());
            push_str(&mut m, " error(s)");
            m
        },
        ConversionError::CanonicalPath(_) => owned("canonical path construction failed"),
        ConversionError::DeterministicId(_) => owned("deterministic id derivation failed"),
        ConversionError::InvalidCanonicalName(_) => owned("invalid canonical name"),
        ConversionError::InvalidConstruction(ConstructionViolation::InvalidRequirementValueType) => {
            owned(
                "core declaration construction failed: requirement value type is incompatible with operator",
            )
        },
        ConversionError::MissingReference { section, field, name } => {
            let mut m = owned("missing reference '");
            push_str(&mut m, name.as_str());
            push_str(&mut m, "' for ");
            push_str(&mut m, section);
            push_str(&mut m, ".");
            push_str(&mut m, field);
            m
        },
    }
}

/// Maps a conversion error into a report error at the stage: its code, its
/// path, its text, and no source location.
pub fn map_declare_error(error: &ConversionError, stage: Stage) -> (r: ReportError)
    ensures
        r.stage == stage,
        r.code == conversion_code(*error),
        segments_view(r.path@) == conversion_path(*error),
        r.message@ == conversion_message(*error),
        r.source is None,
{
    let message = conversion_text(error);
    let (code, path) = match error {
        ConversionError::InvalidSymbolicName { path, .. } => (
            ErrorCode::InvalidSymbolicName,
            parse_path(path.as_str()),
        ),
        ConversionError::ValidationFailed(_) => (ErrorCode::DeclareConversionFailed, Vec::new()),
        ConversionError::CanonicalPath(_) => (ErrorCode::CanonicalPathError, Vec::new()),
        ConversionError::DeterministicId(_) => (ErrorCode::DeterministicIdError, Vec::new()),
        ConversionError::InvalidCanonicalName(_) => (ErrorCode::InvalidCanonicalName, Vec::new()),
        ConversionError::InvalidConstruction(_) => (ErrorCode::InvalidConstruction, Vec::new()),
        ConversionError::MissingReference { section, field, name } => {
            let path = vec![key(section), key(field), key(name.as_str())];
            assert(segments_view(path@) =~= conversion_path(*error));
            (ErrorCode::MissingReference, path)
        },
    };
    proof {
        if path@.len() == 0 {
            assert(segments_view(path@) =~= Seq::<SegmentView>::empty());
        }
    }
    ReportError { stage, code, path, message, source: None }
}

/// The name an operator is shown by.
pub open spec fn operator_text(o: RequirementOperator) -> Seq<char> {
    match o {
        RequirementOperator::PresenceRequired => "PresenceRequired"@,
        RequirementOperator::PresenceForbidden => "PresenceForbidden"@,
        RequirementOperator::PresenceOptional => "PresenceOptional"@,
        RequirementOperator::CountEqual => "CountEqual"@,
        RequirementOperator::CountMin => "CountMin"@,
        RequirementOperator::CountMax => "CountMax"@,
        RequirementOperator::SetIncludes => "SetIncludes"@,
        RequirementOperator::SetExcludes => "SetExcludes"@,
        RequirementOperator::SetEquals => "SetEquals"@,
        RequirementOperator::TemporalBefore => "TemporalBefore"@,
        RequirementOperator::TemporalAfter => "TemporalAfter"@,
        RequirementOperator::TemporalWithin => "TemporalWithin"@,
        RequirementOperator::RelationExists => "RelationExists"@,
        RequirementOperator::RelationNotExists => "RelationNotExists"@,
        RequirementOperator::RelationPathLengthMax => "RelationPathLengthMax"@,
        RequirementOperator::RelationEdgeCountMax => "RelationEdgeCountMax"@,
    }
}

fn operator_name(o: RequirementOperator) -> (r: &'static str)
    ensures
        r@ == operator_text(o),
{
    match o {
        RequirementOperator::PresenceRequired => "PresenceRequired",
        RequirementOperator::PresenceForbidden => "PresenceForbidden",
        RequirementOperator::PresenceOptional => "PresenceOptional",
        RequirementOperator::CountEqual => "CountEqual",
        RequirementOperator::CountMin => "CountMin",
        RequirementOperator::CountMax => "CountMax",
        RequirementOperator::SetIncludes => "SetIncludes",
        RequirementOperator::SetExcludes => "SetExcludes",
        RequirementOperator::SetEquals => "SetEquals",
        RequirementOperator::TemporalBefore => "TemporalBefore",
        RequirementOperator::TemporalAfter => "TemporalAfter",
        RequirementOperator::TemporalWithin => "TemporalWithin",
        RequirementOperator::RelationExists => "RelationExists",
        RequirementOperator::RelationNotExists => "RelationNotExists",
        RequirementOperator::RelationPathLengthMax => "RelationPathLengthMax",
        RequirementOperator::RelationEdgeCountMax => "RelationEdgeCountMax",
    }
}

/// The code, path and text of each specification validation error.
pub open spec fn validation_report(e: ValidationError) -> (ErrorCode, Seq<SegmentView>, Seq<char>) {
    match e {
        ValidationError::EmptySection { section } => (
            ErrorCode::ValidationEmptySection,
            seq![SegmentView::Key(section@)],
            "section '"@ + section@ + "' must not be empty"@,
        ),
        ValidationError::DuplicateName { section, name } => (
            ErrorCode::ValidationDuplicateName,
            seq![SegmentView::Key(section@), SegmentView::Key(name@)],
            "duplicate name '"@ + name@ + "' in section '"@ + section@ + "'"@,
        ),
        ValidationError::MissingReference { section, field, name } => (
            ErrorCode::ValidationMissingReference,
            seq![SegmentView::Key(section@), SegmentView::Key(field@), SegmentView::Key(name@)],
            "missing reference '"@ + name@ + "' for "@ + section@ + "."@ + field@,
        ),
        ValidationError::InvalidRequirementValue { name, operator } => (
            ErrorCode::InvalidRequirementValue,
            seq![SegmentView::Key("requirements"@), SegmentView::Key(name@)],
            "invalid requirement value for '"@ + name@ + "' and operator '"@ + operator_text(
                operator,
            ) + "'"@,
        ),
    }
}

/// Maps a specification validation error into a report error at the
/// validation stage, with its code, path and text, and no source location.
pub fn map_validation_error(error: &ValidationError) -> (r: ReportError)
    ensures
        r.stage is Validation,
        r.code == validation_report(*error).0,
        segments_view(r.path@) == validation_report(*error).1,
        r.message@ == validation_report(*error).2,
        r.source is None,
{
    match error {
        ValidationError::EmptySection { section } => {
            let path = vec![key(section)];
            let mut m = owned("section '");
            push_str(&mut m, section);
            push_str(&mut m, "' must not be empty");
            assert(segments_view(path@) =~= validation_report(*error).1);
            ReportError {
                stage: Stage::Validation,
                code: ErrorCode::ValidationEmptySection,
                path,
                message: m,
                source: None,
            }
        },
        ValidationError::DuplicateName { section, name } => {
            let path = vec![key(section), key(name.as_str())];
            let mut m = owned("duplicate name '");
            push_str(&mut m, name.as_str());
            push_str(&mut m, "' in section '");
            push_str(&mut m, section);
            push_str(&mut m, "'");
            assert(segments_view(path@) =~= validation_report(*error).1);
            ReportError {
                stage: Stage::Validation,
                code: ErrorCode::ValidationDuplicateName,
                path,
                message: m,
                source: None,
            }
        },
        ValidationError::MissingReference { section, field, name } => {
            let path = vec![key(section), key(field), key(name.as_str())];
            let mut m = owned("missing reference '");
            push_str(&mut m, name.as_str());
            push_str(&mut m, "' for ");
            push_str(&mut m, section);
            push_str(&mut m, ".");
            push_str(&mut m, field);
            assert(segments_view(path@) =~= validation_report(*error).1);
            ReportError {
                stage: Stage::Validation,
                code: ErrorCode::ValidationMissingReference,
                path,
                message: m,
                source: None,
            }
        },
        ValidationError::InvalidRequirementValue { name, operator } => {
            let path = vec![key("requirements"), key(name.as_str())];
            let mut m = owned("invalid requirement value for '");
            push_str(&mut m, name.as_str());
            push_str(&mut m, "' and operator '");
            push_str(&mut m, operator_name(*operator));
            push_str(&mut m, "'");
            assert(segments_view(path@) =~= validation_report(*error).1);
            ReportError {
                stage: Stage::Validation,
                code: ErrorCode::InvalidRequirementValue,
                path,
                message: m,
                source: None,
            }
        },
    }
}

} // verus!
