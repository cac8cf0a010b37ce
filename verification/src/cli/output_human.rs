//! The human-readable rendering of a validation report.
use vstd::prelude::*;

use crate::cli::report::{
    segments_view, ErrorCode, InputFormat, Outcome, PathSegment, ReportError, SegmentView, Stage,
    ValidationReport,
};
use crate::text::{decimal, owned, push_char, push_str, usize_to_decimal};

verus! {

/// The name a format is shown by.
pub open spec fn format_text(f: InputFormat) -> Seq<char> {
    match f {
        InputFormat::Json => "Json"@,
        InputFormat::Yaml => "Yaml"@,
        InputFormat::Toml => "Toml"@,
    }
}

fn format_name(f: InputFormat) -> (r: &'static str)
    ensures
        r@ == format_text(f),
{
    match f {
        InputFormat::Json => "Json",
        InputFormat::Yaml => "Yaml",
        InputFormat::Toml => "Toml",
    }
}

/// The name a stage is shown by in the report header.
pub open spec fn stage_text(s: Stage) -> Seq<char> {
    match s {
        Stage::Syntax => "Syntax"@,
        Stage::Wire => "Wire"@,
        Stage::Validation => "Validation"@,
        Stage::Concretise => "Concretise"@,
    }
}

fn stage_name(s: Stage) -> (r: &'static str)
    ensures
        r@ == stage_text(s),
{
    match s {
        Stage::Syntax => "Syntax",
        Stage::Wire => "Wire",
        Stage::Validation => "Validation",
        Stage::Concretise => "Concretise",
    }
}

/// The label a stage is shown by before an error.
pub open spec fn stage_label_text(s: Stage) -> Seq<char> {
    match s {
        Stage::Syntax => "syntax"@,
        Stage::Wire => "wire"@,
        Stage::Validation => "validation"@,
        Stage::Concretise => "concretise"@,
    }
}

fn stage_label(s: Stage) -> (r: &'static str)
    ensures
        r@ == stage_label_text(s),
{
    match s {
        Stage::Syntax => "syntax",
        Stage::Wire => "wire",
        Stage::Validation => "validation",
        Stage::Concretise => "concretise",
    }
}

/// The name an outcome is shown by.
pub open spec fn outcome_text(o: Outcome) -> Seq<char> {
    match o {
        Outcome::Success => "Ok"@,
        Outcome::SyntaxError => "SyntaxError"@,
        Outcome::WireError => "WireError"@,
        Outcome::ValidationError => "ValidationError"@,
    }
}

fn outcome_name(o: Outcome) -> (r: &'static str)
    ensures
        r@ == outcome_text(o),
{
    match o {
        Outcome::Success => "Ok",
        Outcome::SyntaxError => "SyntaxError",
        Outcome::WireError => "WireError",
        Outcome::ValidationError => "ValidationError",
    }
}

/// The name a code is shown by.
pub open spec fn code_text(c: ErrorCode) -> Seq<char> {
    match c {
        ErrorCode::CanonicalPathError => "CanonicalPathError"@,
        ErrorCode::DeclareConversionFailed => "DeclareConversionFailed"@,
        ErrorCode::DeterministicIdError => "DeterministicIdError"@,
        ErrorCode::DuplicateKey => "DuplicateKey"@,
        ErrorCode::EmptyInput => "EmptyInput"@,
        ErrorCode::ForbiddenYamlFeature => "ForbiddenYamlFeature"@,
        ErrorCode::InvalidCanonicalName => "InvalidCanonicalName"@,
        ErrorCode::InvalidConstruction => "InvalidConstruction"@,
        ErrorCode::InvalidDiscriminator => "InvalidDiscriminator"@,
        ErrorCode::InvalidRequirementValue => "InvalidRequirementValue"@,
        ErrorCode::InvalidShape => "InvalidShape"@,
        ErrorCode::InvalidSymbolicName => "InvalidSymbolicName"@,
        ErrorCode::InvalidUtf8 => "InvalidUtf8"@,
        ErrorCode::MissingReference => "MissingReference"@,
        ErrorCode::TrailingData => "TrailingData"@,
        ErrorCode::UnknownField => "UnknownField"@,
        ErrorCode::ValidationDuplicateName => "ValidationDuplicateName"@,
        ErrorCode::ValidationEmptySection => "ValidationEmptySection"@,
        ErrorCode::ValidationMissingReference => "ValidationMissingReference"@,
        ErrorCode::WireShapeDecodeFailed => "WireShapeDecodeFailed"@,
    }
}

fn code_name(c: ErrorCode) -> (r: &'static str)
    ensures
        r@ == code_text(c),
{
    match c {
        ErrorCode::CanonicalPathError => "CanonicalPathError",
        ErrorCode::DeclareConversionFailed => "DeclareConversionFailed",
        ErrorCode::DeterministicIdError => "DeterministicIdError",
        ErrorCode::DuplicateKey => "DuplicateKey",
        ErrorCode::EmptyInput => "EmptyInput",
        ErrorCode::ForbiddenYamlFeature => "ForbiddenYamlFeature",
        ErrorCode::InvalidCanonicalName => "InvalidCanonicalName",
        ErrorCode::InvalidConstruction => "InvalidConstruction",
        ErrorCode::InvalidDiscriminator => "InvalidDiscriminator",
        ErrorCode::InvalidRequirementValue => "InvalidRequirementValue",
        ErrorCode::InvalidShape => "InvalidShape",
        ErrorCode::InvalidSymbolicName => "InvalidSymbolicName",
        ErrorCode::InvalidUtf8 => "InvalidUtf8",
        ErrorCode::MissingReference => "MissingReference",
        ErrorCode::TrailingData => "TrailingData",
        ErrorCode::UnknownField => "UnknownField",
        ErrorCode::ValidationDuplicateName => "ValidationDuplicateName",
        ErrorCode::ValidationEmptySection => "ValidationEmptySection",
        ErrorCode::ValidationMissingReference => "ValidationMissingReference",
        ErrorCode::WireShapeDecodeFailed => "WireShapeDecodeFailed",
    }
}

/// A path written out: keys joined by dots, indexes in brackets.
pub open spec fn rendered_steps(path: Seq<SegmentView>) -> Seq<char>
    decreases path.len(),
{
    if path.len() == 0 {
        Seq::empty()
    } else {
        let before = rendered_steps(path.drop_last());
        match path.last() {
            SegmentView::Key(k) => if before.len() > 0 {
                before + seq!['.'] + k
            } else {
                k
            },
            SegmentView::Index(n) => before + seq!['['] + decimal(n) + seq![']'],
        }
    }
}

/// A path written out, or `-` when it is empty.
pub open spec fn path_text(path: Seq<SegmentView>) -> Seq<char> {
    if path.len() == 0 {
        seq!['-']
    } else {
        rendered_steps(path)
    }
}

fn format_path(path: &[PathSegment]) -> (r: String)
    ensures
        r@ == path_text(segments_view(path@)),
{
    if path.len() == 0 {
        proof {
            reveal_strlit("-");
        }
        assert("-"@ =~= seq!['-']);
        return owned("-");
    }
    let mut rendered = String::new();
    let mut i: usize = 0;
    while i < path.len()
        invariant
            i <= path@.len(),
            rendered@ == rendered_steps(segments_view(path@.take(i as int))),
        decreases path@.len() - i,
    {
        let ghost before = segments_view(path@.take(i as int));
        proof {
            assert(segments_view(path@.take(i + 1)).drop_last() =~= before);
            assert(segments_view(path@.take(i + 1)).last() == path@[i as int]@);
        }
        match &path[i] {
            PathSegment::Key(k) => {
                if rendered.as_str().unicode_len() > 0 {
                    push_char(&mut rendered, '.');
                }
                push_str(&mut rendered, k.as_str());
            },
            PathSegment::Index(n) => {
                push_char(&mut rendered, '[');
                let d = usize_to_decimal(*n);
                push_str(&mut rendered, d.as_str());
                push_char(&mut rendered, ']');
            },
        }
        proof {
            assert(rendered@ =~= rendered_steps(segments_view(path@.take(i + 1))));
        }
        i = i + 1;
    }
    assert(path@.take(path@.len() as int) =~= path@);
    assert(segments_view(path@).len() > 0);
    rendered
}

/// The line of the error at `index`, counting from one.
pub open spec fn error_line(index: nat, e: ReportError) -> Seq<char> {
    decimal(index + 1) + ". ["@ + stage_label_text(e.stage) + "::"@ + code_text(e.code) + "] "@
        + e.message@ + match e.source {
        Some(s) => " at "@ + decimal(s.line as nat) + ":"@ + decimal(s.column as nat),
        None => Seq::empty(),
    } + " ("@ + path_text(segments_view(e.path@)) + ")\n"@
}

/// The lines of the errors, numbered in order.
pub open spec fn error_lines(errors: Seq<ReportError>) -> Seq<char>
    decreases errors.len(),
{
    if errors.len() == 0 {
        Seq::empty()
    } else {
        error_lines(errors.drop_last()) + error_line((errors.len() - 1) as nat, errors.last())
    }
}

/// A report written for people: a one-line success, or a header line and
/// one numbered line per error.
pub open spec fn human_text(r: ValidationReport) -> Seq<char> {
    if r.errors@.len() == 0 {
        "ok: "@ + r.input.path@ + " ("@ + format_text(r.input.format) + ") stage_reached="@
            + stage_text(r.stage_reached) + "\n"@
    } else {
        "outcome="@ + outcome_text(r.outcome) + " path="@ + r.input.path@ + " format="@
            + format_text(r.input.format) + " stage_reached="@ + stage_text(r.stage_reached)
            + "\n"@ + error_lines(r.errors@)
    }
}

fn render_error(out: &mut String, index: usize, e: &ReportError)
    requires
        index < usize::MAX,
    ensures
        final(out)@ == old(out)@ + error_line(index as nat, *e),
{
    let n = usize_to_decimal(index + 1);
    push_str(out, n.as_str());
    push_str(out, ". [");
    push_str(out, stage_label(e.stage));
    push_str(out, "::");
    push_str(out, code_name(e.code));
    push_str(out, "] ");
    push_str(out, e.message.as_str());
    let ghost mid = out@;
    match &e.source {
        Some(s) => {
            push_str(out, " at ");
            let l = usize_to_decimal(s.line);
            push_str(out, l.as_str());
            push_str(out, ":");
            let c = usize_to_decimal(s.column);
            push_str(out, c.as_str());
        },
        None => {
            assert(out@ =~= mid + Seq::<char>::empty());
        },
    }
    push_str(out, " (");
    let p = format_path(e.path.as_slice());
    push_str(out, p.as_str());
    push_str(out, ")\n");
    assert(out@ =~= old(out)@ + error_line(index as nat, *e));
}

/// Renders the report for people, as the text to write out.
pub fn render_human_report(report: &ValidationReport) -> (r: String)
    ensures
        r@ == human_text(*report),
{
    let mut out = String::new();
    if report.errors.len() == 0 {
        push_str(&mut out, "ok: ");
        push_str(&mut out, report.input.path.as_str());
        push_str(&mut out, " (");
        push_str(&mut out, format_name(report.input.format));
        push_str(&mut out, ") stage_reached=");
        push_str(&mut out, stage_name(report.stage_reached));
        push_str(&mut out, "\n");
        assert(out@ =~= human_text(*report));
        return out;
    }
    push_str(&mut out, "outcome=");
    push_str(&mut out, outcome_name(report.outcome));
    push_str(&mut out, " path=");
    push_str(&mut out, report.input.path.as_str());
    push_str(&mut out, " format=");
    push_str(&mut out, format_name(report.input.format));
    push_str(&mut out, " stage_reached=");
    push_str(&mut out, stage_name(report.stage_reached));
    push_str(&mut out, "\n");
    let ghost head = out@;
    let mut i: usize = 0;
    while i < report.errors.len()
        invariant
            i <= report.errors@.len(),
            out@ == head + error_lines(report.errors@.take(i as int)),
        decreases report.errors@.len() - i,
    {
        proof {
            assert(report.errors@.take(i + 1).drop_last() =~= report.errors@.take(i as int));
            assert(report.errors@.take(i + 1).last() == report.errors@[i as int]);
        }
        render_error(&mut out, i, &report.errors[i]);
        proof {
            assert(out@ =~= head + error_lines(report.errors@.take(i + 1)));
        }
        i = i + 1;
    }
    assert(report.errors@.take(report.errors@.len() as int) =~= report.errors@);
    assert(out@ =~= human_text(*report));
    out
}

} // verus!
