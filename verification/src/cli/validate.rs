//! The decisions of a validation run that do not read the input: which
//! syntax the input is read as, and how far the stages go.
use vstd::prelude::*;

use crate::cli::error_map::{
    conversion_code, conversion_message, conversion_path, map_declare_error, map_validation_error,
    validation_report,
};
use crate::cli::report::{
    detected_format, errors_sorted, outcome_of_stage, segments_view, ErrorCode, InputFormat,
    ReportError, SegmentView, SourceLocation, Stage, StageStop, ValidationReport,
};
use crate::declare::error::ConversionError;
use crate::declare::spec::DeclaredSpec;
use crate::declare::spec_validation::{spec_errors, validate_spec, ValidationError};
use crate::policy::compile::lemma_map_multiset;
use crate::text::owned;

verus! {

/// Why a file could not be validated at all.
#[derive(Debug)]
pub enum ValidateFailure {
    Io(std::io::Error),
    UnsupportedFormat(String),
}

impl ValidateFailure {
    /// Whether the input could not be read.
    pub fn is_io(&self) -> (r: bool)
        ensures
            r == (*self is Io),
    {
        matches!(self, ValidateFailure::Io(_))
    }
}

/// The syntax to read the input as: the one asked for, else the one its
/// extension names; an input with neither is refused.
pub fn select_format(path: &str, format_override: Option<InputFormat>) -> (r: Result<
    InputFormat,
    ValidateFailure,
>)
    ensures
        match format_override {
            Some(f) => r matches Ok(g) && g == f,
            None => match detected_format(path@) {
                Some(f) => r matches Ok(g) && g == f,
                None => r matches Err(ValidateFailure::UnsupportedFormat(p)) && p@ == path@,
            },
        },
{
    match format_override {
        Some(f) => Ok(f),
        None => match InputFormat::detect(path) {
            Some(f) => Ok(f),
            None => Err(ValidateFailure::UnsupportedFormat(owned(path))),
        },
    }
}

/// Closes the syntax stage: a report without errors reaches it; the run goes
/// on only without errors and when not asked to stop after parsing.
pub fn close_syntax_stage(report: &mut ValidationReport, stage_stop: StageStop) -> (go_on: bool)
    ensures
        final(report).stage_reached == if old(report).outcome is Success {
            Stage::Syntax
        } else {
            old(report).stage_reached
        },
        final(report).outcome == old(report).outcome,
        final(report).errors == old(report).errors,
        final(report).input == old(report).input,
        final(report).report_version == old(report).report_version,
        go_on == (old(report).outcome is Success && !(stage_stop is Parse)),
{
    let ok = report.outcome.is_ok();
    if ok {
        report.set_stage_reached(Stage::Syntax);
    }
    ok && !matches!(stage_stop, StageStop::Parse)
}

/// A report error by the values it holds.
pub open spec fn report_error_view(e: ReportError) -> (
    Stage,
    ErrorCode,
    Seq<SegmentView>,
    Seq<char>,
    Option<SourceLocation>,
) {
    (e.stage, e.code, segments_view(e.path@), e.message@, e.source)
}

/// The report errors by the values they hold.
pub open spec fn report_views(s: Seq<ReportError>) -> Seq<
    (Stage, ErrorCode, Seq<SegmentView>, Seq<char>, Option<SourceLocation>),
> {
    s.map_values(|e: ReportError| report_error_view(e))
}

/// The report error a conversion error becomes at a stage.
pub open spec fn declare_error_view(e: ConversionError, stage: Stage) -> (
    Stage,
    ErrorCode,
    Seq<SegmentView>,
    Seq<char>,
    Option<SourceLocation>,
) {
    (stage, conversion_code(e), conversion_path(e), conversion_message(e), None)
}

/// The report error a specification validation error becomes.
pub open spec fn validation_error_view(e: ValidationError) -> (
    Stage,
    ErrorCode,
    Seq<SegmentView>,
    Seq<char>,
    Option<SourceLocation>,
) {
    (Stage::Validation, validation_report(e).0, validation_report(e).1, validation_report(e).2, None)
}

/// The report keeps its input and version.
pub open spec fn same_report_frame(before: ValidationReport, after: ValidationReport) -> bool {
    &&& after.input == before.input
    &&& after.report_version == before.report_version
}

proof fn lemma_views_insert(after: Seq<ReportError>, before: Seq<ReportError>, e: ReportError)
    requires
        after.to_multiset() == before.to_multiset().insert(e),
    ensures
        report_views(after).to_multiset() == report_views(before).to_multiset().insert(
            report_error_view(e),
        ),
{
    broadcast use vstd::seq_lib::group_to_multiset_ensures;

    assert(before.push(e).to_multiset() == before.to_multiset().insert(e));
    lemma_map_multiset(after, before.push(e), |x: ReportError| report_error_view(x));
    assert(before.push(e).map_values(|x: ReportError| report_error_view(x)) =~= report_views(
        before,
    ).push(report_error_view(e)));
}

/// Records each conversion error at the stage.
fn push_conversion_errors(report: &mut ValidationReport, errors: &Vec<ConversionError>, stage: Stage)
    ensures
        same_report_frame(*old(report), *final(report)),
        report_views(final(report).errors@).to_multiset() == report_views(
            old(report).errors@,
        ).to_multiset().add(
            errors@.map_values(|c: ConversionError| declare_error_view(c, stage)).to_multiset(),
        ),
        errors@.len() == 0 ==> *final(report) == *old(report),
        errors@.len() > 0 ==> final(report).stage_reached == stage && final(report).outcome
            == outcome_of_stage(stage) && errors_sorted(final(report).errors@),
{
    broadcast use vstd::seq_lib::group_to_multiset_ensures;

    let ghost start = *report;
    let mut i: usize = 0;
    assert(errors@.take(0).map_values(|c: ConversionError| declare_error_view(c, stage))
        =~= Seq::empty());
    while i < errors.len()
        invariant
            i <= errors@.len(),
            same_report_frame(start, *report),
            report_views(report.errors@).to_multiset() == report_views(
                start.errors@,
            ).to_multiset().add(
                errors@.take(i as int).map_values(
                    |c: ConversionError| declare_error_view(c, stage),
                ).to_multiset(),
            ),
            i == 0 ==> *report == start,
            i > 0 ==> report.stage_reached == stage && report.outcome == outcome_of_stage(stage)
                && errors_sorted(report.errors@),
        decreases errors@.len() - i,
    {
        let error = map_declare_error(&errors[i], stage);
        let ghost before = report.errors@;
        let ghost view = report_error_view(error);
        report.push_error(error);
        proof {
            broadcast use vstd::multiset::group_multiset_axioms;

            lemma_views_insert(report.errors@, before, error);
            assert(view == declare_error_view(errors@[i as int], stage));
            let b = errors@.take(i as int).map_values(
                |c: ConversionError| declare_error_view(c, stage),
            );
            assert(errors@.take(i + 1).map_values(|c: ConversionError| declare_error_view(c, stage))
                =~= b.push(view));
            vstd::seq_lib::to_multiset_build(b, view);
            assert(report_views(start.errors@).to_multiset().add(b.to_multiset()).insert(view)
                =~= report_views(start.errors@).to_multiset().add(b.to_multiset().insert(view)));
            assert(report_views(report.errors@).to_multiset() =~= report_views(
                start.errors@,
            ).to_multiset().add(
                errors@.take(i + 1).map_values(
                    |c: ConversionError| declare_error_view(c, stage),
                ).to_multiset(),
            ));
        }
        i = i + 1;
    }
    assert(errors@.take(errors@.len() as int) =~= errors@);
}

/// Closes the wire stage with the outcome of decoding the input into a
/// declared specification: its errors are recorded at the wire stage, or
/// the stage is reached and the specification passed on unless the run is
/// asked to stop there.
pub fn close_wire_stage(
    report: &mut ValidationReport,
    decoded: Result<DeclaredSpec, Vec<ConversionError>>,
    stage_stop: StageStop,
) -> (next: Option<DeclaredSpec>)
    ensures
        same_report_frame(*old(report), *final(report)),
        match decoded {
            Err(errors) => next is None && report_views(final(report).errors@).to_multiset()
                == report_views(old(report).errors@).to_multiset().add(
                errors@.map_values(
                    |c: ConversionError| declare_error_view(c, Stage::Wire),
                ).to_multiset(),
            ) && (errors@.len() == 0 ==> *final(report) == *old(report)) && (errors@.len() > 0
                ==> final(report).stage_reached is Wire && final(report).outcome is WireError
                && errors_sorted(final(report).errors@)),
            Ok(spec) => final(report).stage_reached is Wire && final(report).outcome == old(report).outcome && final(report).errors == old(report).errors && next == if stage_stop
                is Wire {
                None
            } else {
                Some(spec)
            },
        },
{
    match decoded {
        Err(errors) => {
            push_conversion_errors(report, &errors, Stage::Wire);
            None
        },
        Ok(spec) => {
            report.set_stage_reached(Stage::Wire);
            if matches!(stage_stop, StageStop::Wire) {
                None
            } else {
                Some(spec)
            }
        },
    }
}

/// Closes the validation stage: the specification's validation errors are
/// recorded, or the stage is reached and the run goes on unless asked to
/// stop there.
pub fn close_validation_stage(
    report: &mut ValidationReport,
    spec: &DeclaredSpec,
    stage_stop: StageStop,
) -> (go_on: bool)
    ensures
        same_report_frame(*old(report), *final(report)),
        spec_errors(*spec).len() > 0 ==> !go_on && final(report).stage_reached is Validation
            && final(report).outcome is ValidationError && errors_sorted(final(report).errors@)
            && report_views(
            final(report).errors@,
        ).to_multiset() == report_views(old(report).errors@).to_multiset().add(
            spec_errors(*spec).map_values(|v: ValidationError| validation_error_view(v)).to_multiset(),
        ),
        spec_errors(*spec).len() == 0 ==> final(report).stage_reached is Validation && final(report).outcome == old(report).outcome && final(report).errors == old(report).errors && go_on
            == !(stage_stop is Validate),
{
    broadcast use vstd::seq_lib::group_to_multiset_ensures;

    let errors = validate_spec(spec);
    if errors.len() == 0 {
        report.set_stage_reached(Stage::Validation);
        return !matches!(stage_stop, StageStop::Validate);
    }
    let ghost start = *report;
    let mut i: usize = 0;
    assert(errors@.take(0).map_values(|v: ValidationError| validation_error_view(v))
        =~= Seq::empty());
    while i < errors.len()
        invariant
            i <= errors@.len(),
            errors@ == spec_errors(*spec),
            same_report_frame(start, *report),
            report_views(report.errors@).to_multiset() == report_views(
                start.errors@,
            ).to_multiset().add(
                errors@.take(i as int).map_values(
                    |v: ValidationError| validation_error_view(v),
                ).to_multiset(),
            ),
            i > 0 ==> report.stage_reached is Validation && report.outcome is ValidationError
                && errors_sorted(report.errors@),
        decreases errors@.len() - i,
    {
        let error = map_validation_error(&errors[i]);
        let ghost before = report.errors@;
        let ghost view = report_error_view(error);
        report.push_error(error);
        proof {
            broadcast use vstd::multiset::group_multiset_axioms;

            lemma_views_insert(report.errors@, before, error);
            assert(view == validation_error_view(errors@[i as int]));
            let b = errors@.take(i as int).map_values(
                |v: ValidationError| validation_error_view(v),
            );
            assert(errors@.take(i + 1).map_values(|v: ValidationError| validation_error_view(v))
                =~= b.push(view));
            vstd::seq_lib::to_multiset_build(b, view);
            assert(report_views(start.errors@).to_multiset().add(b.to_multiset()).insert(view)
                =~= report_views(start.errors@).to_multiset().add(b.to_multiset().insert(view)));
            assert(report_views(report.errors@).to_multiset() =~= report_views(
                start.errors@,
            ).to_multiset().add(
                errors@.take(i + 1).map_values(
                    |v: ValidationError| validation_error_view(v),
                ).to_multiset(),
            ));
        }
        i = i + 1;
    }
    assert(errors@.take(errors@.len() as int) =~= errors@);
    false
}

/// Closes the concretisation stage with its outcome: its error is recorded
/// at that stage, or the stage is reached.
pub fn close_concretise_stage(report: &mut ValidationReport, outcome: Result<(), ConversionError>)
    ensures
        same_report_frame(*old(report), *final(report)),
        final(report).stage_reached is Concretise,
        match outcome {
            Err(e) => final(report).outcome is ValidationError && errors_sorted(final(report).errors@)
                && report_views(
                final(report).errors@,
            ).to_multiset() == report_views(old(report).errors@).to_multiset().insert(
                declare_error_view(e, Stage::Concretise),
            ),
            Ok(()) => final(report).outcome == old(report).outcome && final(report).errors == old(report).errors,
        },
{
    match outcome {
        Err(e) => {
            let error = map_declare_error(&e, Stage::Concretise);
            let ghost before = report.errors@;
            report.push_error(error);
            proof {
                lemma_views_insert(report.errors@, before, error);
            }
        },
        Ok(()) => {
            report.set_stage_reached(Stage::Concretise);
        },
    }
}

} // verus!
