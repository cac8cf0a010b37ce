//! The validation report: where validation stopped, what went wrong, and
//! where in the input; errors are kept in a deterministic order.
use vstd::prelude::*;

use std::cmp::Ordering;

use crate::text::{
    chars_of, lemma_seq_lt_irreflexive, lemma_text_antisymmetric, owned, parse_usize, sign_of,
    str_eq,
    string_from_chars, text_compare, text_order, usize_of_text,
};

verus! {

/// The stage after which validation is asked to stop.
#[derive(Debug, Clone, Copy, PartialEq, Eq, Structural)]
pub enum StageStop {
    Parse,
    Wire,
    Validate,
    Concretise,
}

/// A stage of validation, in the order they run.
#[derive(Debug, Clone, Copy, PartialEq, Eq, PartialOrd, Ord, Structural)]
pub enum Stage {
    Syntax,
    Wire,
    Validation,
    Concretise,
}

/// An input syntax.
#[derive(Debug, Clone, Copy, PartialEq, Eq, Structural)]
pub enum InputFormat {
    Json,
    Yaml,
    Toml,
}

/// The format an extension names.
pub open spec fn format_of_extension(e: Seq<char>) -> Option<InputFormat> {
    if e == "json"@ {
        Some(InputFormat::Json)
    } else if e == "yaml"@ || e == "yml"@ {
        Some(InputFormat::Yaml)
    } else if e == "toml"@ {
        Some(InputFormat::Toml)
    } else {
        None
    }
}

/// The format of a path's file, by its extension.
pub open spec fn detected_format(p: Seq<char>) -> Option<InputFormat> {
    match crate::text::file_name_of(p) {
        Some(name) => match crate::text::extension_of(name) {
            Some(e) => format_of_extension(e),
            None => None,
        },
        None => None,
    }
}

impl InputFormat {
    /// Detects the format from the extension of the path's file name:
    /// `json`, `yaml` or `yml`, `toml`.
    pub fn detect(path: &str) -> (r: Option<Self>)
        ensures
            r == detected_format(path@),
    {
        let cs = chars_of(path);
        let name = match crate::text::path_file_name(cs.as_slice()) {
            Some(n) => n,
            None => return None,
        };
        let ext = match crate::text::file_extension(name.as_slice()) {
            Some(e) => e,
            None => return None,
        };
        let e = string_from_chars(ext.as_slice());
        proof {
            reveal_strlit("json");
            reveal_strlit("yaml");
            reveal_strlit("yml");
            reveal_strlit("toml");
        }
        if str_eq(e.as_str(), "json") {
            Some(InputFormat::Json)
        } else if str_eq(e.as_str(), "yaml") || str_eq(e.as_str(), "yml") {
            Some(InputFormat::Yaml)
        } else if str_eq(e.as_str(), "toml") {
            Some(InputFormat::Toml)
        } else {
            None
        }
    }
}

/// How a report is rendered.
#[derive(Debug, Clone, Copy, PartialEq, Eq, Structural)]
pub enum OutputFormat {
    Human,
    Json,
}

/// The outcome of validation.
#[derive(Debug, Clone, Copy, PartialEq, Eq, Structural)]
pub enum Outcome {
    Success,
    SyntaxError,
    WireError,
    ValidationError,
}

impl Outcome {
    pub fn is_ok(self) -> (r: bool)
        ensures
            r == (self is Success),
    {
        matches!(self, Outcome::Success)
    }
}

/// The input a report is about.
#[derive(Debug, Clone, PartialEq, Eq)]
pub struct InputDescriptor {
    pub path: String,
    pub format: InputFormat,
}

/// A one-based line and column in the input.
#[derive(Debug, Clone, Copy, PartialEq, Eq, Structural)]
pub struct SourceLocation {
    pub line: usize,
    pub column: usize,
}

/// One step of a path into a document: a key or an index.
#[derive(Debug, Clone, PartialEq, Eq, PartialOrd, Ord)]
pub enum PathSegment {
    Key(String),
    Index(usize),
}

/// A path step as a value.
pub enum SegmentView {
    Key(Seq<char>),
    Index(nat),
}

impl View for PathSegment {
    type V = SegmentView;

    open spec fn view(&self) -> SegmentView {
        match self {
            PathSegment::Key(k) => SegmentView::Key(k@),
            PathSegment::Index(i) => SegmentView::Index(*i as nat),
        }
    }
}

/// The path steps as values.
pub open spec fn segments_view(path: Seq<PathSegment>) -> Seq<SegmentView> {
    path.map_values(|s: PathSegment| s@)
}

/// Machine-readable error code of the report.
#[derive(Debug, Clone, Copy, PartialEq, Eq, PartialOrd, Ord, Structural)]
#[non_exhaustive]
pub enum ErrorCode {
    CanonicalPathError,
    DeclareConversionFailed,
    DeterministicIdError,
    DuplicateKey,
    EmptyInput,
    ForbiddenYamlFeature,
    InvalidCanonicalName,
    InvalidConstruction,
    InvalidDiscriminator,
    InvalidRequirementValue,
    InvalidShape,
    InvalidSymbolicName,
    InvalidUtf8,
    MissingReference,
    TrailingData,
    UnknownField,
    ValidationDuplicateName,
    ValidationEmptySection,
    ValidationMissingReference,
    WireShapeDecodeFailed,
}

/// One error of a report.
#[derive(Debug, Clone, PartialEq, Eq)]
pub struct ReportError {
    pub stage: Stage,
    pub code: ErrorCode,
    pub path: Vec<PathSegment>,
    pub message: String,
    pub source: Option<SourceLocation>,
}

/// The report of one validation run.
#[derive(Debug, Clone, PartialEq, Eq)]
pub struct ValidationReport {
    pub report_version: String,
    pub outcome: Outcome,
    pub input: InputDescriptor,
    pub stage_reached: Stage,
    pub errors: Vec<ReportError>,
}

/// The rank of a stage in the order they run.
pub open spec fn stage_rank(s: Stage) -> int {
    match s {
        Stage::Syntax => 0,
        Stage::Wire => 1,
        Stage::Validation => 2,
        Stage::Concretise => 3,
    }
}

fn stage_position(s: Stage) -> (r: u8)
    ensures
        r == stage_rank(s),
{
    match s {
        Stage::Syntax => 0,
        Stage::Wire => 1,
        Stage::Validation => 2,
        Stage::Concretise => 3,
    }
}

/// The rank of a code in declaration order.
pub open spec fn code_rank(c: ErrorCode) -> int {
    match c {
        ErrorCode::CanonicalPathError => 0,
        ErrorCode::DeclareConversionFailed => 1,
        ErrorCode::DeterministicIdError => 2,
        ErrorCode::DuplicateKey => 3,
        ErrorCode::EmptyInput => 4,
        ErrorCode::ForbiddenYamlFeature => 5,
        ErrorCode::InvalidCanonicalName => 6,
        ErrorCode::InvalidConstruction => 7,
        ErrorCode::InvalidDiscriminator => 8,
        ErrorCode::InvalidRequirementValue => 9,
        ErrorCode::InvalidShape => 10,
        ErrorCode::InvalidSymbolicName => 11,
        ErrorCode::InvalidUtf8 => 12,
        ErrorCode::MissingReference => 13,
        ErrorCode::TrailingData => 14,
        ErrorCode::UnknownField => 15,
        ErrorCode::ValidationDuplicateName => 16,
        ErrorCode::ValidationEmptySection => 17,
        ErrorCode::ValidationMissingReference => 18,
        ErrorCode::WireShapeDecodeFailed => 19,
    }
}

fn code_position(c: ErrorCode) -> (r: u8)
    ensures
        r == code_rank(c),
{
    match c {
        ErrorCode::CanonicalPathError => 0,
        ErrorCode::DeclareConversionFailed => 1,
        ErrorCode::DeterministicIdError => 2,
        ErrorCode::DuplicateKey => 3,
        ErrorCode::EmptyInput => 4,
        ErrorCode::ForbiddenYamlFeature => 5,
        ErrorCode::InvalidCanonicalName => 6,
        ErrorCode::InvalidConstruction => 7,
        ErrorCode::InvalidDiscriminator => 8,
        ErrorCode::InvalidRequirementValue => 9,
        ErrorCode::InvalidShape => 10,
        ErrorCode::InvalidSymbolicName => 11,
        ErrorCode::InvalidUtf8 => 12,
        ErrorCode::MissingReference => 13,
        ErrorCode::TrailingData => 14,
        ErrorCode::UnknownField => 15,
        ErrorCode::ValidationDuplicateName => 16,
        ErrorCode::ValidationEmptySection => 17,
        ErrorCode::ValidationMissingReference => 18,
        ErrorCode::WireShapeDecodeFailed => 19,
    }
}

/// Keys before indexes; keys by text, indexes by value.
pub open spec fn segment_order(a: SegmentView, b: SegmentView) -> int {
    match (a, b) {
        (SegmentView::Key(x), SegmentView::Key(y)) => text_order(x, y),
        (SegmentView::Index(x), SegmentView::Index(y)) => sign_of(x as int, y as int),
        (SegmentView::Key(_), SegmentView::Index(_)) => -1,
        (SegmentView::Index(_), SegmentView::Key(_)) => 1,
    }
}

/// Lexicographic comparison of paths, a proper prefix first.
pub open spec fn path_order(a: Seq<SegmentView>, b: Seq<SegmentView>) -> int
    decreases a.len(),
{
    if a.len() == 0 {
        if b.len() == 0 {
            0
        } else {
            -1
        }
    } else if b.len() == 0 {
        1
    } else if segment_order(a[0], b[0]) != 0 {
        segment_order(a[0], b[0])
    } else {
        path_order(a.drop_first(), b.drop_first())
    }
}

/// The order of report errors: by stage, then path, then code, then message.
pub open spec fn error_order(l: ReportError, r: ReportError) -> int {
    if stage_rank(l.stage) != stage_rank(r.stage) {
        sign_of(stage_rank(l.stage), stage_rank(r.stage))
    } else if path_order(segments_view(l.path@), segments_view(r.path@)) != 0 {
        path_order(segments_view(l.path@), segments_view(r.path@))
    } else if code_rank(l.code) != code_rank(r.code) {
        sign_of(code_rank(l.code), code_rank(r.code))
    } else {
        text_order(l.message@, r.message@)
    }
}

fn segment_compare(a: &PathSegment, b: &PathSegment) -> (r: i8)
    ensures
        r == segment_order(a@, b@),
{
    match (a, b) {
        (PathSegment::Key(x), PathSegment::Key(y)) => text_compare(x.as_str(), y.as_str()),
        (PathSegment::Index(x), PathSegment::Index(y)) => if *x < *y {
            -1
        } else if *x == *y {
            0
        } else {
            1
        },
        (PathSegment::Key(_), PathSegment::Index(_)) => -1,
        (PathSegment::Index(_), PathSegment::Key(_)) => 1,
    }
}

fn path_compare(a: &[PathSegment], b: &[PathSegment]) -> (r: i8)
    ensures
        r == path_order(segments_view(a@), segments_view(b@)),
{
    let mut i: usize = 0;
    assert(a@.skip(0) =~= a@);
    assert(b@.skip(0) =~= b@);
    while i < a.len() && i < b.len()
        invariant
            i <= a@.len(),
            i <= b@.len(),
            path_order(segments_view(a@), segments_view(b@)) == path_order(
                segments_view(a@.skip(i as int)),
                segments_view(b@.skip(i as int)),
            ),
        decreases a@.len() - i,
    {
        let ghost sa = segments_view(a@.skip(i as int));
        let ghost sb = segments_view(b@.skip(i as int));
        assert(sa[0] == a@[i as int]@);
        assert(sb[0] == b@[i as int]@);
        let c = segment_compare(&a[i], &b[i]);
        if c != 0 {
            return c;
        }
        assert(sa.drop_first() =~= segments_view(a@.skip(i + 1)));
        assert(sb.drop_first() =~= segments_view(b@.skip(i + 1)));
        i = i + 1;
    }
    if i < a.len() {
        1
    } else if i < b.len() {
        -1
    } else {
        0
    }
}

/// The comparison result for a sign.
pub open spec fn ordering_of(sign: int) -> Ordering {
    if sign < 0 {
        Ordering::Less
    } else if sign == 0 {
        Ordering::Equal
    } else {
        Ordering::Greater
    }
}

fn error_compare(left: &ReportError, right: &ReportError) -> (r: i8)
    ensures
        r == error_order(*left, *right),
{
    let ls = stage_position(left.stage);
    let rs = stage_position(right.stage);
    if ls != rs {
        return if ls < rs {
            -1
        } else {
            1
        };
    }
    let p = path_compare(left.path.as_slice(), right.path.as_slice());
    if p != 0 {
        return p;
    }
    let lc = code_position(left.code);
    let rc = code_position(right.code);
    if lc != rc {
        return if lc < rc {
            -1
        } else {
            1
        };
    }
    text_compare(left.message.as_str(), right.message.as_str())
}

/// Orders report errors by stage, then path, then code, then message.
pub fn compare_errors(left: &ReportError, right: &ReportError) -> (r: Ordering)
    ensures
        r == ordering_of(error_order(*left, *right)),
{
    let c = error_compare(left, right);
    if c < 0 {
        Ordering::Less
    } else if c == 0 {
        Ordering::Equal
    } else {
        Ordering::Greater
    }
}

proof fn lemma_path_antisymmetric(a: Seq<SegmentView>, b: Seq<SegmentView>)
    ensures
        path_order(a, b) == -path_order(b, a),
    decreases a.len(),
{
    if a.len() > 0 && b.len() > 0 {
        match (a[0], b[0]) {
            (SegmentView::Key(x), SegmentView::Key(y)) => lemma_text_antisymmetric(x, y),
            _ => {},
        }
        lemma_path_antisymmetric(a.drop_first(), b.drop_first());
    }
}

/// Swapping two errors negates their order.
pub proof fn lemma_error_order_antisymmetric(l: ReportError, r: ReportError)
    ensures
        error_order(l, r) == -error_order(r, l),
{
    lemma_path_antisymmetric(segments_view(l.path@), segments_view(r.path@));
    lemma_text_antisymmetric(l.message@, r.message@);
}

/// Each error is ordered no later than the next.
pub open spec fn errors_sorted(s: Seq<ReportError>) -> bool {
    forall|i: int| 0 <= i < s.len() - 1 ==> error_order(#[trigger] s[i], s[i + 1]) <= 0
}

/// What the order of errors looks at: the stage, the path, the code and the
/// message.
pub open spec fn error_key(e: ReportError) -> (Stage, Seq<SegmentView>, ErrorCode, Seq<char>) {
    (e.stage, segments_view(e.path@), e.code, e.message@)
}

/// The errors of `s` whose key is `k`, in their order in `s`.
pub open spec fn with_key(s: Seq<ReportError>, k: (Stage, Seq<SegmentView>, ErrorCode, Seq<char>)) -> Seq<
    ReportError,
>
    decreases s.len(),
{
    if s.len() == 0 {
        Seq::empty()
    } else {
        with_key(s.drop_last(), k) + if error_key(s.last()) == k {
            seq![s.last()]
        } else {
            Seq::empty()
        }
    }
}

proof fn lemma_path_order_reflexive(p: Seq<SegmentView>)
    ensures
        path_order(p, p) == 0,
    decreases p.len(),
{
    if p.len() > 0 {
        match p[0] {
            SegmentView::Key(x) => lemma_seq_lt_irreflexive(x),
            SegmentView::Index(_) => {},
        }
        lemma_path_order_reflexive(p.drop_first());
    }
}

/// Errors with one key are ordered alike.
proof fn lemma_same_key_level(a: ReportError, b: ReportError)
    requires
        error_key(a) == error_key(b),
    ensures
        error_order(a, b) == 0,
{
    lemma_path_order_reflexive(segments_view(a.path@));
    lemma_seq_lt_irreflexive(a.message@);
}

proof fn lemma_with_key_append(
    a: Seq<ReportError>,
    b: Seq<ReportError>,
    k: (Stage, Seq<SegmentView>, ErrorCode, Seq<char>),
)
    ensures
        with_key(a + b, k) == with_key(a, k) + with_key(b, k),
    decreases b.len(),
{
    if b.len() == 0 {
        assert(a + b =~= a);
        assert(with_key(a, k) + with_key(b, k) =~= with_key(a, k));
    } else {
        lemma_with_key_append(a, b.drop_last(), k);
        assert((a + b).drop_last() =~= a + b.drop_last());
        assert((a + b).last() == b.last());
        let tail = if error_key(b.last()) == k {
            seq![b.last()]
        } else {
            Seq::<ReportError>::empty()
        };
        assert(with_key(a, k) + with_key(b.drop_last(), k) + tail =~= with_key(a, k) + (with_key(
            b.drop_last(),
            k,
        ) + tail));
    }
}

proof fn lemma_with_key_none(s: Seq<ReportError>, k: (Stage, Seq<SegmentView>, ErrorCode, Seq<char>))
    requires
        forall|i: int| 0 <= i < s.len() ==> error_key(#[trigger] s[i]) != k,
    ensures
        with_key(s, k) == Seq::<ReportError>::empty(),
    decreases s.len(),
{
    if s.len() > 0 {
        assert(s.last() == s[s.len() - 1]);
        assert forall|i: int| 0 <= i < s.drop_last().len() implies error_key(
            #[trigger] s.drop_last()[i],
        ) != k by {
            assert(s.drop_last()[i] == s[i]);
        }
        lemma_with_key_none(s.drop_last(), k);
        assert(with_key(s, k) =~= Seq::<ReportError>::empty());
    }
}

proof fn lemma_with_key_single(e: ReportError, k: (Stage, Seq<SegmentView>, ErrorCode, Seq<char>))
    ensures
        with_key(seq![e], k) == if error_key(e) == k {
            seq![e]
        } else {
            Seq::<ReportError>::empty()
        },
{
    assert(seq![e].drop_last() =~= Seq::<ReportError>::empty());
    assert(with_key(Seq::<ReportError>::empty(), k) == Seq::<ReportError>::empty());
    assert(seq![e].last() == e);
    assert(with_key(seq![e], k) =~= if error_key(e) == k {
        seq![e]
    } else {
        Seq::<ReportError>::empty()
    });
}

/// Inserting an error before only errors of other keys puts it last among
/// the errors of its key and moves no other.
proof fn lemma_with_key_insert(
    s: Seq<ReportError>,
    i: int,
    e: ReportError,
    k: (Stage, Seq<SegmentView>, ErrorCode, Seq<char>),
)
    requires
        0 <= i <= s.len(),
        forall|j: int| i <= j < s.len() ==> error_key(#[trigger] s[j]) != error_key(e),
    ensures
        with_key(s.insert(i, e), k) == with_key(s, k) + if error_key(e) == k {
            seq![e]
        } else {
            Seq::<ReportError>::empty()
        },
{
    let t = s.take(i);
    let u = s.skip(i);
    assert(s.insert(i, e) =~= t + seq![e] + u);
    assert(s =~= t + u);
    lemma_with_key_append(t + seq![e], u, k);
    lemma_with_key_append(t, seq![e], k);
    lemma_with_key_append(t, u, k);
    lemma_with_key_single(e, k);
    if error_key(e) == k {
        assert forall|j: int| 0 <= j < u.len() implies error_key(#[trigger] u[j]) != k by {
            assert(u[j] == s[i + j]);
        }
        lemma_with_key_none(u, k);
        assert(with_key(t, k) + with_key(seq![e], k) + with_key(u, k) =~= with_key(t, k) + seq![e]);
        assert(with_key(t, k) + with_key(u, k) =~= with_key(t, k));
    } else {
        assert(with_key(t, k) + with_key(seq![e], k) =~= with_key(t, k));
    }
}

/// Inserts the error after every error ordered no later than it.
fn insert_sorted(out: &mut Vec<ReportError>, e: ReportError)
    requires
        errors_sorted(old(out)@),
    ensures
        errors_sorted(final(out)@),
        final(out)@.to_multiset() == old(out)@.to_multiset().insert(e),
        forall|key: (Stage, Seq<SegmentView>, ErrorCode, Seq<char>)|
            #[trigger] with_key(final(out)@, key) == with_key(old(out)@, key) + if error_key(e)
                == key {
                seq![e]
            } else {
                Seq::<ReportError>::empty()
            },
{
    let mut k: usize = out.len();
    while k > 0 && error_compare(&out[k - 1], &e) > 0
        invariant
            k <= out@.len(),
            out@ == old(out)@,
            forall|j: int| k <= j < out@.len() ==> error_order(#[trigger] out@[j], e) > 0,
        decreases k,
    {
        k = k - 1;
    }
    let ghost before = out@;
    proof {
        if k < before.len() {
            lemma_error_order_antisymmetric(before[k as int], e);
        }
        assert forall|j: int| k <= j < before.len() implies error_key(#[trigger] before[j])
            != error_key(e) by {
            if error_key(before[j]) == error_key(e) {
                lemma_same_key_level(before[j], e);
            }
        }
        assert forall|key: (Stage, Seq<SegmentView>, ErrorCode, Seq<char>)|
            #[trigger] with_key(before.insert(k as int, e), key) == with_key(before, key) + if error_key(
                e,
            ) == key {
                seq![e]
            } else {
                Seq::<ReportError>::empty()
            } by {
            lemma_with_key_insert(before, k as int, e, key);
        }
    }
    out.insert(k, e);
    proof {
        let after = out@;
        assert(after == before.insert(k as int, e));
        assert forall|i: int| 0 <= i < after.len() - 1 implies error_order(#[trigger] after[i], after[i + 1]) <= 0 by {
            if i + 1 < k {
                assert(after[i] == before[i] && after[i + 1] == before[i + 1]);
            } else if i + 1 == k {
                assert(after[i] == before[i] && after[i + 1] == e);
            } else if i == k {
                assert(after[i] == e && after[i + 1] == before[i]);
            } else {
                assert(after[i] == before[i - 1] && after[i + 1] == before[i]);
            }
        }
        vstd::seq_lib::to_multiset_insert(before, k as int, e);
    }
}

/// The outcome a failure at the stage gives.
pub open spec fn outcome_of_stage(s: Stage) -> Outcome {
    match s {
        Stage::Syntax => Outcome::SyntaxError,
        Stage::Wire => Outcome::WireError,
        Stage::Validation | Stage::Concretise => Outcome::ValidationError,
    }
}

impl ValidationReport {
    /// A passing report about the input, at the syntax stage, with no
    /// errors, of report version `1`.
    pub fn new(path: String, format: InputFormat) -> (r: Self)
        ensures
            r.report_version@ == "1"@,
            r.outcome is Success,
            r.input.path == path,
            r.input.format == format,
            r.stage_reached is Syntax,
            r.errors@.len() == 0,
    {
        ValidationReport {
            report_version: owned("1"),
            outcome: Outcome::Success,
            input: InputDescriptor { path, format },
            stage_reached: Stage::Syntax,
            errors: Vec::new(),
        }
    }

    /// Records an error: the report reaches the error's stage, takes the
    /// outcome of a failure there, and its errors, the new one among them,
    /// are sorted again; errors that agree on stage, path, code and message
    /// keep their order, the new one last among them.
    pub fn push_error(&mut self, error: ReportError)
        ensures
            final(self).stage_reached == error.stage,
            final(self).outcome == outcome_of_stage(error.stage),
            final(self).errors@.to_multiset() == old(self).errors@.to_multiset().insert(error),
            errors_sorted(final(self).errors@),
            forall|key: (Stage, Seq<SegmentView>, ErrorCode, Seq<char>)|
                #[trigger] with_key(final(self).errors@, key) == with_key(old(self).errors@, key)
                    + if error_key(error) == key {
                    seq![error]
                } else {
                    Seq::<ReportError>::empty()
                },
            final(self).report_version == old(self).report_version,
            final(self).input == old(self).input,
    {
        self.stage_reached = error.stage;
        self.outcome = match error.stage {
            Stage::Syntax => Outcome::SyntaxError,
            Stage::Wire => Outcome::WireError,
            Stage::Validation | Stage::Concretise => Outcome::ValidationError,
        };
        let ghost before = self.errors@;
        self.errors.push(error);
        proof {
            broadcast use vstd::seq_lib::group_to_multiset_ensures;

            assert(self.errors@ == before.push(error));
            assert(self.errors@.drop_last() =~= before);
            assert(self.errors@.last() == error);
        }
        self.sort_errors();
    }

    pub fn set_stage_reached(&mut self, stage: Stage)
        ensures
            final(self).stage_reached == stage,
            final(self).outcome == old(self).outcome,
            final(self).errors == old(self).errors,
            final(self).report_version == old(self).report_version,
            final(self).input == old(self).input,
    {
        self.stage_reached = stage;
    }

    /// Sorts the errors by stage, then path, then code, then message; errors
    /// that agree on all four keep their order.
    pub fn sort_errors(&mut self)
        ensures
            errors_sorted(final(self).errors@),
            final(self).errors@.to_multiset() == old(self).errors@.to_multiset(),
            forall|key: (Stage, Seq<SegmentView>, ErrorCode, Seq<char>)|
                #[trigger] with_key(final(self).errors@, key) == with_key(old(self).errors@, key),
            final(self).stage_reached == old(self).stage_reached,
            final(self).outcome == old(self).outcome,
            final(self).report_version == old(self).report_version,
            final(self).input == old(self).input,
    {
        let mut rest: Vec<ReportError> = Vec::new();
        std::mem::swap(&mut rest, &mut self.errors);
        let ghost all = rest@;
        let ghost mut taken: int = 0;
        let mut out: Vec<ReportError> = Vec::new();
        proof {
            broadcast use vstd::multiset::group_multiset_axioms;
            vstd::seq_lib::to_multiset_len(out@);
            vstd::multiset::lemma_multiset_empty_len(out@.to_multiset());
            assert(out@.to_multiset() =~= vstd::multiset::Multiset::empty());
            assert(all.take(0) =~= Seq::<ReportError>::empty());
            assert(rest@ =~= all.skip(0));
        }
        while rest.len() > 0
            invariant
                errors_sorted(out@),
                out@.to_multiset().add(rest@.to_multiset()) == all.to_multiset(),
                0 <= taken <= all.len(),
                rest@ == all.skip(taken),
                forall|key: (Stage, Seq<SegmentView>, ErrorCode, Seq<char>)|
                    #[trigger] with_key(out@, key) == with_key(all.take(taken), key),
            decreases rest@.len(),
        {
            let ghost r0 = rest@;
            let e = rest.remove(0);
            proof {
                vstd::seq_lib::to_multiset_remove(r0, 0);
            }
            let ghost o0 = out@;
            insert_sorted(&mut out, e);
            proof {
                broadcast use vstd::multiset::group_multiset_axioms;
                assert(r0.to_multiset().count(e) > 0) by {
                    vstd::seq_lib::to_multiset_contains(r0, e);
                }
                assert(out@.to_multiset().add(rest@.to_multiset()) =~= o0.to_multiset().add(r0.to_multiset()));
                assert(e == all[taken]);
                assert(all.take(taken + 1).drop_last() =~= all.take(taken));
                assert(all.take(taken + 1).last() == e);
                assert(rest@ =~= all.skip(taken + 1));
                taken = taken + 1;
            }
        }
        proof {
            broadcast use vstd::multiset::group_multiset_axioms;
            vstd::seq_lib::to_multiset_len(rest@);
            vstd::multiset::lemma_multiset_empty_len(rest@.to_multiset());
            assert(rest@.to_multiset() =~= vstd::multiset::Multiset::empty());
            assert(out@.to_multiset() =~= all.to_multiset());
            assert(all.take(taken) =~= all);
        }
        self.errors = out;
    }
}

/// The position of the first `]` from `j` on, or the end.
pub open spec fn bracket_end(cs: Seq<char>, j: int) -> int
    decreases cs.len() - j,
{
    if j < 0 || j >= cs.len() {
        cs.len() as int
    } else if cs[j] == ']' {
        j
    } else {
        bracket_end(cs, j + 1)
    }
}

pub proof fn lemma_bracket_end_bounds(cs: Seq<char>, j: int)
    requires
        0 <= j,
    ensures
        j <= bracket_end(cs, j) <= cs.len() || (j > cs.len() && bracket_end(cs, j) == cs.len()),
        bracket_end(cs, j) < cs.len() ==> cs[bracket_end(cs, j)] == ']',
    decreases cs.len() - j,
{
    if j < cs.len() && cs[j] != ']' {
        lemma_bracket_end_bounds(cs, j + 1);
    }
}

/// The path with a pending key closed off, when there is one.
pub open spec fn flush_key(acc: Seq<SegmentView>, key: Seq<char>) -> Seq<SegmentView> {
    if key.len() > 0 {
        acc.push(SegmentView::Key(key))
    } else {
        acc
    }
}

/// The path with the text between brackets added: an index when it is an
/// unsigned integer, a key when it is other non-empty text.
pub open spec fn bracket_segment(acc: Seq<SegmentView>, text: Seq<char>) -> Seq<SegmentView> {
    match usize_of_text(text) {
        Some(n) => acc.push(SegmentView::Index(n)),
        None => if text.len() > 0 {
            acc.push(SegmentView::Key(text))
        } else {
            acc
        },
    }
}

/// Reading a path from position `i` on, with a pending key and the steps
/// read so far: `.` closes the pending key; `[` closes it and reads up to
/// the next `]`; `$` is skipped; any other character extends the key.
pub open spec fn parse_from(cs: Seq<char>, i: int, key: Seq<char>, acc: Seq<SegmentView>) -> Seq<
    SegmentView,
>
    decreases cs.len() - i,
{
    if i < 0 || i >= cs.len() {
        flush_key(acc, key)
    } else if cs[i] == '.' {
        parse_from(cs, i + 1, Seq::empty(), flush_key(acc, key))
    } else if cs[i] == '[' {
        let close = bracket_end(cs, i + 1);
        proof {
            lemma_bracket_end_bounds(cs, i + 1);
        }
        let next = if close < cs.len() {
            close + 1
        } else {
            close
        };
        parse_from(cs, next, Seq::empty(), bracket_segment(flush_key(acc, key), cs.subrange(i + 1, close)))
    } else if cs[i] == '$' {
        parse_from(cs, i + 1, key, acc)
    } else {
        parse_from(cs, i + 1, key.push(cs[i]), acc)
    }
}

/// The steps of a path such as `$.scopes[0].predicate`.
pub open spec fn path_steps(p: Seq<char>) -> Seq<SegmentView> {
    parse_from(p, 0, Seq::empty(), Seq::empty())
}

fn flush(result: &mut Vec<PathSegment>, key: &mut Vec<char>)
    ensures
        segments_view(final(result)@) == flush_key(segments_view(old(result)@), old(key)@),
        final(key)@.len() == 0,
{
    if key.len() > 0 {
        let k = string_from_chars(key.as_slice());
        let ghost before = result@;
        result.push(PathSegment::Key(k));
        assert(segments_view(result@) =~= segments_view(before).push(SegmentView::Key(old(key)@)));
        *key = Vec::new();
    } else {
        assert(old(key)@.len() == 0);
    }
}

/// Splits a path into its steps: keys between dots, indexes between
/// brackets; a leading `$` is ignored.
pub fn parse_path(path: &str) -> (r: Vec<PathSegment>)
    ensures
        segments_view(r@) == path_steps(path@),
{
    let cs = chars_of(path);
    let n = cs.len();
    let mut result: Vec<PathSegment> = Vec::new();
    let mut key: Vec<char> = Vec::new();
    let mut i: usize = 0;
    assert(segments_view(result@) =~= Seq::<SegmentView>::empty());
    assert(key@ =~= Seq::<char>::empty());
    while i < n
        invariant
            n == cs@.len(),
            cs@ == path@,
            i <= n,
            path_steps(path@) == parse_from(cs@, i as int, key@, segments_view(result@)),
        decreases n - i,
    {
        let ch = cs[i];
        if ch == '.' {
            flush(&mut result, &mut key);
            assert(key@ =~= Seq::<char>::empty());
            i = i + 1;
        } else if ch == '[' {
            flush(&mut result, &mut key);
            assert(key@ =~= Seq::<char>::empty());
            let mut j: usize = i + 1;
            while j < n && cs[j] != ']'
                invariant
                    n == cs@.len(),
                    i < n,
                    i + 1 <= j <= n,
                    bracket_end(cs@, i + 1) == bracket_end(cs@, j as int),
                decreases n - j,
            {
                j = j + 1;
            }
            let text = crate::text::slice_range(cs.as_slice(), i + 1, j);
            let ghost before = result@;
            match parse_usize(text.as_slice()) {
                Some(index) => {
                    result.push(PathSegment::Index(index));
                    assert(segments_view(result@) =~= segments_view(before).push(SegmentView::Index(index as nat)));
                },
                None => {
                    if text.len() > 0 {
                        result.push(PathSegment::Key(string_from_chars(text.as_slice())));
                        assert(segments_view(result@) =~= segments_view(before).push(SegmentView::Key(text@)));
                    }
                },
            }
            i = if j < n {
                j + 1
            } else {
                j
            };
        } else if ch == '$' {
            i = i + 1;
        } else {
            key.push(ch);
            i = i + 1;
        }
    }
    flush(&mut result, &mut key);
    result
}

} // verus!
