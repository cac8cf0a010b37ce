//! Compilation of policy documents into declaration fragments.
//!
//! Each document becomes one scope, one requirement and one policy per
//! requirement entry, and the referents and edges it declares explicitly,
//! under names derived from the policy name. The compiler makes its names and
//! reads its version in a fixed order and stops at the first that is refused.
use vstd::prelude::*;

use crate::canon::ordering::{sort_by_text_key, sorted_by_key, with_text_key};
use crate::declare::error::SymbolicNameError;
use crate::declare::name::{first_bad_name_char, SymbolicName};
use crate::declare::spec::{
    EdgeSpec, PolicySpec, PredicateView, ReferentSpec, RequirementSpec, RequirementValueSpec,
    ScopePredicateSpec, ScopeSpec, ValueView, VersionSpec,
};
use crate::kernel::declared::{Direction, RequirementOperator};
use crate::policy::fragment::{lemma_in_permutation, CompiledPolicyFragment, PolicyCompileError};
use crate::policy::schema::{
    EdgeBudgetPolicyDocument, EdgeBudgetPolicyScope, EdgeBudgetRequirement, EdgeDeclaration,
    EdgeDirection, GraphKind, PhaseLifecycle, PhaseName, PhaseRelation,
    PhaseSeparationPolicyDocument, PhaseSeparationPolicyScope, PhaseSeparationRequirement,
    PolicyDeclarations, PolicyDocument, PolicyEnvelope, PolicyKind, PolicyMetadata,
    PortEnvironment, PortProfilePolicyDocument, PortProfilePolicyScope, PortProfileRequirement,
    ReferentDeclaration, RouteAction, RouteEndpoint, RouteTopology, ScopeConstraint,
    ScopePolicyDocument, ScopePolicyRequirement, ScopePolicyScope, ScopeSelector, ScopeTarget,
    TransportProtocol, TransportRouteRequirement, TransportRoutesPolicyDocument,
    TransportRoutesPolicyScope,
};
use crate::text::{
    char_digits_value, chars_of, decimal, find_char, first_index_of, is_ascii_digit,
    digit_char, lemma_decimal_value, lemma_digit_char, lemma_leading_zeros_value,
    lemma_seq_lt_skip, owned, seq_lt, parse_usize, push_char, push_str,
    slice_range, unsigned_text, usize_of_text, usize_to_decimal,
};

verus! {

broadcast use vstd::seq_lib::group_to_multiset_ensures;

/// A compile error by the texts it holds.
pub enum CompileErrorView {
    UnsupportedPolicyKind(PolicyKind),
    InconsistentPolicyKind(PolicyKind, PolicyKind),
    InvalidSymbolicName(Seq<char>, Seq<char>, SymbolicNameError),
    InvalidVersion(Seq<char>),
    EmptyRequirements(PolicyKind, Seq<char>),
    ConflictingDuplicate(Seq<char>, Seq<char>),
}

pub open spec fn error_view(e: PolicyCompileError) -> CompileErrorView {
    match e {
        PolicyCompileError::UnsupportedPolicyKind { kind } => CompileErrorView::UnsupportedPolicyKind(
            kind,
        ),
        PolicyCompileError::InconsistentPolicyKind { expected, found } =>
            CompileErrorView::InconsistentPolicyKind(expected, found),
        PolicyCompileError::InvalidSymbolicName { field, value, source } =>
            CompileErrorView::InvalidSymbolicName(field@, value@, source),
        PolicyCompileError::InvalidVersion { value } => CompileErrorView::InvalidVersion(value@),
        PolicyCompileError::EmptyRequirements { kind, policy_name } =>
            CompileErrorView::EmptyRequirements(kind, policy_name@),
        PolicyCompileError::ConflictingDuplicate { section, name } =>
            CompileErrorView::ConflictingDuplicate(section@, name@),
    }
}

/// One step of compilation that can be refused: making a symbolic name from
/// a text for a field, or reading a semantic version.
pub enum Check {
    Name(Seq<char>, Seq<char>),
    Version(Seq<char>),
}

/// Why a text is not a symbolic name, if it is not.
pub open spec fn name_refusal(text: Seq<char>) -> Option<SymbolicNameError> {
    if text.len() == 0 {
        Some(SymbolicNameError::Empty)
    } else {
        match first_bad_name_char(text) {
            Some(i) => Some(
                SymbolicNameError::InvalidCharacter { index: i as usize, character: text[i] },
            ),
            None => None,
        }
    }
}

/// The pieces of `s` between occurrences of `c`, as `str::split` gives them.
pub open spec fn split_on(s: Seq<char>, c: char) -> Seq<Seq<char>>
    decreases s.len(),
{
    match first_index_of(s, c) {
        Some(i) => if 0 <= i < s.len() {
            seq![s.take(i)] + split_on(s.skip(i + 1), c)
        } else {
            seq![s]
        },
        None => seq![s],
    }
}

/// What `u16::from_str` gives for the text: an optional `+` and at least one
/// digit, of value at most `u16::MAX`.
pub open spec fn u16_of_text(s: Seq<char>) -> Option<u16> {
    let d = unsigned_text(s);
    if d.len() > 0 && (forall|i: int| 0 <= i < d.len() ==> is_ascii_digit(#[trigger] d[i]))
        && char_digits_value(d) <= u16::MAX {
        Some(char_digits_value(d) as u16)
    } else {
        None
    }
}

/// A semantic version `<major>.<minor>.<patch>`: exactly three pieces
/// between dots, each a `u16`.
pub open spec fn version_of(text: Seq<char>) -> Option<VersionSpec> {
    let p = split_on(text, '.');
    if p.len() == 3 && u16_of_text(p[0]) is Some && u16_of_text(p[1]) is Some && u16_of_text(
        p[2],
    ) is Some {
        Some(
            VersionSpec {
                major: u16_of_text(p[0])->0,
                minor: u16_of_text(p[1])->0,
                patch: u16_of_text(p[2])->0,
            },
        )
    } else {
        None
    }
}

/// The error a check fails with, if it fails.
pub open spec fn check_failure(c: Check) -> Option<CompileErrorView> {
    match c {
        Check::Name(field, text) => match name_refusal(text) {
            Some(e) => Some(CompileErrorView::InvalidSymbolicName(field, text, e)),
            None => None,
        },
        Check::Version(text) => if version_of(text) is None {
            Some(CompileErrorView::InvalidVersion(text))
        } else {
            None
        },
    }
}

/// The error of the first check that fails, in order.
pub open spec fn first_failure(cs: Seq<Check>) -> Option<CompileErrorView>
    decreases cs.len(),
{
    if cs.len() == 0 {
        None
    } else if check_failure(cs[0]) is Some {
        check_failure(cs[0])
    } else {
        first_failure(cs.drop_first())
    }
}

pub proof fn lemma_first_failure_append(a: Seq<Check>, b: Seq<Check>)
    ensures
        first_failure(a + b) == if first_failure(a) is Some {
            first_failure(a)
        } else {
            first_failure(b)
        },
    decreases a.len(),
{
    if a.len() > 0 {
        assert((a + b).drop_first() =~= a.drop_first() + b);
        lemma_first_failure_append(a.drop_first(), b);
    } else {
        assert(a + b =~= b);
    }
}

/// Makes a symbolic name for a field, or says why the text is refused.
fn symbolic(field: &'static str, text: &str) -> (r: Result<SymbolicName, PolicyCompileError>)
    ensures
        match r {
            Ok(n) => check_failure(Check::Name(field@, text@)) is None && n@ == text@,
            Err(e) => check_failure(Check::Name(field@, text@)) == Some(error_view(e)),
        },
{
    match SymbolicName::new(text) {
        Ok(n) => Ok(n),
        Err(source) => Err(
            PolicyCompileError::InvalidSymbolicName { field, value: owned(text), source },
        ),
    }
}

/// Splits the characters at each `.`.
#[verifier::rlimit(40)]
fn split_dots(cs: &[char]) -> (r: Vec<Vec<char>>)
    ensures
        r@.len() == split_on(cs@, '.').len(),
        forall|i: int| 0 <= i < r@.len() ==> (#[trigger] r@[i])@ == split_on(cs@, '.')[i],
{
    let mut pieces: Vec<Vec<char>> = Vec::new();
    let mut rest: Vec<char> = slice_range(cs, 0, cs.len());
    assert(cs@.subrange(0, cs@.len() as int) =~= cs@);
    loop
        invariant
            split_on(cs@, '.') =~= pieces@.map_values(|p: Vec<char>| p@) + split_on(rest@, '.'),
        decreases rest@.len(),
    {
        let ghost before = pieces@;
        match find_char(rest.as_slice(), '.') {
            None => {
                pieces.push(rest);
                assert(pieces@.map_values(|p: Vec<char>| p@) =~= before.map_values(
                    |p: Vec<char>| p@,
                ) + seq![rest@]);
                assert forall|i: int| 0 <= i < pieces@.len() implies (#[trigger] pieces@[i])@
                    == split_on(cs@, '.')[i] by {
                    assert(pieces@.map_values(|p: Vec<char>| p@)[i] == pieces@[i]@);
                }
                return pieces;
            },
            Some(i) => {
                let n = rest.len();
                assert(i < n);
                let piece = slice_range(rest.as_slice(), 0, i);
                let next = slice_range(rest.as_slice(), i + 1, n);
                assert(piece@ =~= rest@.take(i as int));
                assert(next@ =~= rest@.skip(i + 1));
                pieces.push(piece);
                assert(pieces@.map_values(|p: Vec<char>| p@) =~= before.map_values(
                    |p: Vec<char>| p@,
                ).push(piece@));
                rest = next;
            },
        }
    }
}

proof fn lemma_u16_of_usize(s: Seq<char>)
    ensures
        match usize_of_text(s) {
            Some(n) => if n <= u16::MAX {
                u16_of_text(s) == Some(n as u16)
            } else {
                u16_of_text(s) is None
            },
            None => u16_of_text(s) is None,
        },
{
}

/// Reads a `u16` the way `u16::from_str` does.
fn parse_u16(cs: &[char]) -> (r: Option<u16>)
    ensures
        r == u16_of_text(cs@),
{
    proof {
        lemma_u16_of_usize(cs@);
    }
    match parse_usize(cs) {
        Some(n) => if n <= 65535 {
            Some(n as u16)
        } else {
            None
        },
        None => None,
    }
}

/// Reads `<major>.<minor>.<patch>`.
fn parse_version(value: &str) -> (r: Result<VersionSpec, PolicyCompileError>)
    ensures
        match r {
            Ok(v) => version_of(value@) == Some(v),
            Err(e) => version_of(value@) is None && error_view(e) == CompileErrorView::InvalidVersion(
                value@,
            ),
        },
{
    let cs = chars_of(value);
    let pieces = split_dots(cs.as_slice());
    if pieces.len() != 3 {
        return Err(PolicyCompileError::InvalidVersion { value: owned(value) });
    }
    let major = parse_u16(pieces[0].as_slice());
    let minor = parse_u16(pieces[1].as_slice());
    let patch = parse_u16(pieces[2].as_slice());
    match (major, minor, patch) {
        (Some(major), Some(minor), Some(patch)) => Ok(VersionSpec { major, minor, patch }),
        _ => Err(PolicyCompileError::InvalidVersion { value: owned(value) }),
    }
}

/// The number written with at least three digits, zeros in front.
pub open spec fn padded3(n: nat) -> Seq<char> {
    if decimal(n).len() >= 3 {
        decimal(n)
    } else {
        Seq::new((3 - decimal(n).len()) as nat, |_i: int| '0') + decimal(n)
    }
}

/// Writes the number with at least three digits, zeros in front.
fn write_padded3(n: usize) -> (s: String)
    ensures
        s@ == padded3(n as nat),
{
    let digits = usize_to_decimal(n);
    let width = digits.unicode_len();
    let mut s = String::new();
    let mut k: usize = width;
    while k < 3
        invariant
            width == decimal(n as nat).len(),
            width <= k <= 3 || (width >= 3 && k == width),
            s@ == Seq::new((k - width) as nat, |_i: int| '0'),
        decreases 3 - k,
    {
        push_char(&mut s, '0');
        k = k + 1;
        assert(s@ =~= Seq::new((k - width) as nat, |_i: int| '0'));
    }
    push_str(&mut s, digits.as_str());
    assert(s@ =~= padded3(n as nat));
    s
}

/// The prefix of every name a policy of the kind compiles to.
pub open spec fn kind_prefix(k: PolicyKind) -> Seq<char> {
    match k {
        PolicyKind::ScopePolicy => "scope-policy-"@,
        PolicyKind::PhaseSeparationPolicy => "phase-separation-"@,
        PolicyKind::EdgeBudgetPolicy => "edge-budget-"@,
        PolicyKind::PortProfilePolicy => "port-profile-"@,
        PolicyKind::TransportRoutesPolicy => "transport-routes-"@,
    }
}

fn kind_prefix_str(k: PolicyKind) -> (r: &'static str)
    ensures
        r@ == kind_prefix(k),
{
    match k {
        PolicyKind::ScopePolicy => "scope-policy-",
        PolicyKind::PhaseSeparationPolicy => "phase-separation-",
        PolicyKind::EdgeBudgetPolicy => "edge-budget-",
        PolicyKind::PortProfilePolicy => "port-profile-",
        PolicyKind::TransportRoutesPolicy => "transport-routes-",
    }
}

/// The namespace of the scope a policy of the kind compiles to.
pub open spec fn kind_namespace(k: PolicyKind) -> Seq<char> {
    match k {
        PolicyKind::ScopePolicy => "policy-scope-policy"@,
        PolicyKind::PhaseSeparationPolicy => "policy-phase-separation"@,
        PolicyKind::EdgeBudgetPolicy => "policy-edge-budget"@,
        PolicyKind::PortProfilePolicy => "policy-port-profile"@,
        PolicyKind::TransportRoutesPolicy => "policy-transport-routes"@,
    }
}

fn kind_namespace_str(k: PolicyKind) -> (r: &'static str)
    ensures
        r@ == kind_namespace(k),
{
    match k {
        PolicyKind::ScopePolicy => "policy-scope-policy",
        PolicyKind::PhaseSeparationPolicy => "policy-phase-separation",
        PolicyKind::EdgeBudgetPolicy => "policy-edge-budget",
        PolicyKind::PortProfilePolicy => "policy-port-profile",
        PolicyKind::TransportRoutesPolicy => "policy-transport-routes",
    }
}

/// The referent sort of the scope a policy of the kind compiles to.
pub open spec fn kind_referent_sort(k: PolicyKind) -> u16 {
    match k {
        PolicyKind::ScopePolicy => 101,
        PolicyKind::PhaseSeparationPolicy => 102,
        PolicyKind::EdgeBudgetPolicy => 103,
        PolicyKind::PortProfilePolicy => 104,
        PolicyKind::TransportRoutesPolicy => 105,
    }
}

fn policy_referent_sort(k: PolicyKind) -> (r: u16)
    ensures
        r == kind_referent_sort(k),
{
    match k {
        PolicyKind::ScopePolicy => 101,
        PolicyKind::PhaseSeparationPolicy => 102,
        PolicyKind::EdgeBudgetPolicy => 103,
        PolicyKind::PortProfilePolicy => 104,
        PolicyKind::TransportRoutesPolicy => 105,
    }
}

pub open spec fn scope_text(k: PolicyKind, name: Seq<char>) -> Seq<char> {
    kind_prefix(k) + name + "-scope"@
}

pub open spec fn requirement_text(k: PolicyKind, name: Seq<char>, i: nat) -> Seq<char> {
    kind_prefix(k) + name + "-requirement-"@ + padded3(i)
}

pub open spec fn policy_text(k: PolicyKind, name: Seq<char>, i: nat) -> Seq<char> {
    kind_prefix(k) + name + "-policy-"@ + padded3(i)
}

/// The value of a requirement line: a name still to be checked, or a count.
pub enum LineValue {
    Name(Seq<char>),
    Count(u64),
}

/// What one requirement entry of a document contributes: an operator and a
/// value.
pub struct LineSpec {
    pub operator: RequirementOperator,
    pub value: LineValue,
}

/// The checks that open every compilation, in order.
pub open spec fn header_checks(
    k: PolicyKind,
    name: Seq<char>,
    version: Seq<char>,
    predicate: Seq<char>,
) -> Seq<Check> {
    seq![
        Check::Name("scope.name"@, scope_text(k, name)),
        Check::Name("policy.declared_by"@, name),
        Check::Version(version),
        Check::Name("scope.namespace"@, kind_namespace(k)),
        Check::Name("scope.predicate"@, predicate),
    ]
}

/// The checks of the requirement entry at index `i`.
pub open spec fn line_checks_at(k: PolicyKind, name: Seq<char>, line: LineSpec, i: nat) -> Seq<
    Check,
> {
    seq![
        Check::Name("requirement.name"@, requirement_text(k, name, i)),
        Check::Name("policy.name"@, policy_text(k, name, i)),
    ] + match line.value {
        LineValue::Name(t) => seq![Check::Name("requirement.value"@, t)],
        LineValue::Count(_) => Seq::empty(),
    }
}

/// The checks of the requirement entries, entry by entry.
pub open spec fn line_checks(k: PolicyKind, name: Seq<char>, lines: Seq<LineSpec>) -> Seq<Check>
    decreases lines.len(),
{
    if lines.len() == 0 {
        Seq::empty()
    } else {
        line_checks(k, name, lines.drop_last()) + line_checks_at(
            k,
            name,
            lines.last(),
            (lines.len() - 1) as nat,
        )
    }
}

/// The checks of the declared referents' names.
pub open spec fn referent_checks(rs: Seq<ReferentDeclaration>) -> Seq<Check> {
    rs.map_values(|r: ReferentDeclaration| Check::Name("declarations.referents.name"@, r.name@))
}

/// The checks of the declared edges: name, first and second, edge by edge.
pub open spec fn edge_checks(es: Seq<EdgeDeclaration>) -> Seq<Check>
    decreases es.len(),
{
    if es.len() == 0 {
        Seq::empty()
    } else {
        edge_checks(es.drop_last()) + edge_checks_of(es.last())
    }
}

/// Every check of a compilation, in the order the compiler makes them.
pub open spec fn compile_checks(
    k: PolicyKind,
    name: Seq<char>,
    version: Seq<char>,
    predicate: Seq<char>,
    lines: Seq<LineSpec>,
    decl: PolicyDeclarations,
) -> Seq<Check> {
    header_checks(k, name, version, predicate) + line_checks(k, name, lines) + referent_checks(
        decl.referents@,
    ) + edge_checks(decl.edges@)
}

/// Why the compilation of a document of kind `k` is refused, if it is: a
/// document whose own kind is another, a document without requirements, or
/// the first check that fails.
pub open spec fn compile_failure(
    k: PolicyKind,
    found: PolicyKind,
    name: Seq<char>,
    version: Seq<char>,
    predicate: Seq<char>,
    lines: Seq<LineSpec>,
    decl: PolicyDeclarations,
) -> Option<CompileErrorView> {
    if found != k {
        Some(CompileErrorView::InconsistentPolicyKind(k, found))
    } else if lines.len() == 0 {
        Some(CompileErrorView::EmptyRequirements(k, name))
    } else {
        first_failure(compile_checks(k, name, version, predicate, lines, decl))
    }
}

/// A compiled fragment by the texts it holds.
pub struct FragmentView {
    pub scopes: Seq<(Seq<char>, u16, u64, Seq<char>, VersionSpec, PredicateView)>,
    pub requirements: Seq<(Seq<char>, u16, RequirementOperator, ValueView)>,
    pub policies: Seq<(Seq<char>, Seq<char>, Seq<char>, Seq<char>)>,
    pub referents: Seq<(Seq<char>, u16)>,
    pub edges: Seq<(Seq<char>, u16, Direction, Seq<char>, Seq<char>)>,
}

pub open spec fn fragment_view(f: CompiledPolicyFragment) -> FragmentView {
    FragmentView {
        scopes: f.scopes@.map_values(|x: ScopeSpec| x@),
        requirements: f.requirements@.map_values(|x: RequirementSpec| x@),
        policies: f.policies@.map_values(|x: PolicySpec| x@),
        referents: f.referents@.map_values(|x: ReferentSpec| x@),
        edges: f.edges@.map_values(|x: EdgeSpec| x@),
    }
}

/// The sort of the requirement at index `i`: its position from one, capped
/// at `u16::MAX`.
pub open spec fn line_sort(i: nat) -> u16 {
    if i + 1 <= u16::MAX {
        (i + 1) as u16
    } else {
        u16::MAX
    }
}

pub open spec fn line_value_view(v: LineValue) -> ValueView {
    match v {
        LineValue::Name(t) => ValueView::Name(t),
        LineValue::Count(n) => ValueView::U64(n),
    }
}

pub open spec fn requirement_views(k: PolicyKind, name: Seq<char>, lines: Seq<LineSpec>) -> Seq<
    (Seq<char>, u16, RequirementOperator, ValueView),
> {
    Seq::new(
        lines.len(),
        |i: int|
            (
                requirement_text(k, name, i as nat),
                line_sort(i as nat),
                lines[i].operator,
                line_value_view(lines[i].value),
            ),
    )
}

pub open spec fn policy_views(k: PolicyKind, name: Seq<char>, n: nat) -> Seq<
    (Seq<char>, Seq<char>, Seq<char>, Seq<char>),
> {
    Seq::new(
        n,
        |i: int|
            (
                policy_text(k, name, i as nat),
                name,
                scope_text(k, name),
                requirement_text(k, name, i as nat),
            ),
    )
}

pub open spec fn edge_direction(d: EdgeDirection) -> Direction {
    match d {
        EdgeDirection::Directed => Direction::Directed,
        EdgeDirection::Undirected => Direction::Undirected,
    }
}

pub open spec fn referent_views(rs: Seq<ReferentDeclaration>) -> Seq<(Seq<char>, u16)> {
    rs.map_values(|r: ReferentDeclaration| (r.name@, r.sort))
}

pub open spec fn edge_views(es: Seq<EdgeDeclaration>) -> Seq<
    (Seq<char>, u16, Direction, Seq<char>, Seq<char>),
> {
    es.map_values(
        |e: EdgeDeclaration| (e.name@, e.sort, edge_direction(e.direction), e.first@, e.second@),
    )
}

/// What a document of kind `k` compiles to, in the order of its entries:
/// one scope, a requirement and a policy per entry, then the declared
/// referents and edges.
pub open spec fn compiled_view(
    k: PolicyKind,
    name: Seq<char>,
    version: Seq<char>,
    predicate: Seq<char>,
    lines: Seq<LineSpec>,
    decl: PolicyDeclarations,
) -> FragmentView {
    FragmentView {
        scopes: seq![
            (
                scope_text(k, name),
                kind_referent_sort(k),
                0u64,
                kind_namespace(k),
                version_of(version)->0,
                PredicateView::HasTag(predicate),
            ),
        ],
        requirements: requirement_views(k, name, lines),
        policies: policy_views(k, name, lines.len()),
        referents: referent_views(decl.referents@),
        edges: edge_views(decl.edges@),
    }
}

/// The names and version that open every compilation.
struct Header {
    scope_name: SymbolicName,
    declared_by: SymbolicName,
    version: VersionSpec,
    namespace: SymbolicName,
    predicate: SymbolicName,
}

fn concat2(a: &str, b: &str) -> (r: String)
    ensures
        r@ == a@ + b@,
{
    let mut r = owned(a);
    push_str(&mut r, b);
    r
}

fn concat3(a: &str, b: &str, c: &str) -> (r: String)
    ensures
        r@ == a@ + b@ + c@,
{
    let mut r = owned(a);
    push_str(&mut r, b);
    push_str(&mut r, c);
    r
}

fn concat4(a: &str, b: &str, c: &str, d: &str) -> (r: String)
    ensures
        r@ == a@ + b@ + c@ + d@,
{
    let mut r = concat3(a, b, c);
    push_str(&mut r, d);
    r
}

fn compile_header(k: PolicyKind, name: &str, version: &str, predicate: &str) -> (r: Result<
    Header,
    PolicyCompileError,
>)
    ensures
        match r {
            Ok(h) => first_failure(header_checks(k, name@, version@, predicate@)) is None
                && h.scope_name@ == scope_text(k, name@) && h.declared_by@ == name@ && version_of(
                version@,
            ) == Some(h.version) && h.namespace@ == kind_namespace(k) && h.predicate@
                == predicate@,
            Err(e) => first_failure(header_checks(k, name@, version@, predicate@)) == Some(
                error_view(e),
            ),
        },
{
    proof {
        reveal_with_fuel(first_failure, 6);
    }
    let ghost cs = header_checks(k, name@, version@, predicate@);
    let scope_text_value = concat3(kind_prefix_str(k), name, "-scope");
    let scope_name = match symbolic("scope.name", scope_text_value.as_str()) {
        Ok(n) => n,
        Err(e) => {
            return Err(e);
        },
    };
    assert(check_failure(cs[0]) is None);
    let declared_by = match symbolic("policy.declared_by", name) {
        Ok(n) => n,
        Err(e) => {
            assert(cs.drop_first()[0] == cs[1]);
            return Err(e);
        },
    };
    assert(check_failure(cs[1]) is None);
    let version = match parse_version(version) {
        Ok(v) => v,
        Err(e) => {
            assert(cs.drop_first().drop_first()[0] == cs[2]);
            return Err(e);
        },
    };
    let namespace = match symbolic("scope.namespace", kind_namespace_str(k)) {
        Ok(n) => n,
        Err(e) => {
            assert(cs.drop_first().drop_first().drop_first()[0] == cs[3]);
            return Err(e);
        },
    };
    let predicate_name = match symbolic("scope.predicate", predicate) {
        Ok(n) => n,
        Err(e) => {
            assert(cs.drop_first().drop_first().drop_first().drop_first()[0] == cs[4]);
            return Err(e);
        },
    };
    assert(cs.drop_first().drop_first().drop_first().drop_first().drop_first().len() == 0);
    Ok(Header { scope_name, declared_by, version, namespace, predicate: predicate_name })
}

/// The value of a requirement line as the compiler holds it.
enum LineText {
    Name(String),
    Count(u64),
}

/// A requirement line as the compiler holds it.
struct Line {
    operator: RequirementOperator,
    value: LineText,
}

spec fn line_view(l: Line) -> LineSpec {
    LineSpec {
        operator: l.operator,
        value: match l.value {
            LineText::Name(t) => LineValue::Name(t@),
            LineText::Count(n) => LineValue::Count(n),
        },
    }
}

spec fn lines_view(ls: Seq<Line>) -> Seq<LineSpec> {
    ls.map_values(|l: Line| line_view(l))
}

/// Once a prefix of the entries fails, the whole list fails the same way.
proof fn lemma_line_checks_prefix(k: PolicyKind, name: Seq<char>, lines: Seq<LineSpec>, i: int)
    requires
        0 <= i <= lines.len(),
        first_failure(line_checks(k, name, lines.take(i))) is Some,
    ensures
        first_failure(line_checks(k, name, lines)) == first_failure(
            line_checks(k, name, lines.take(i)),
        ),
    decreases lines.len(),
{
    if i == lines.len() {
        assert(lines.take(i) =~= lines);
    } else {
        let shorter = lines.drop_last();
        assert(shorter.take(i) =~= lines.take(i));
        lemma_line_checks_prefix(k, name, shorter, i);
        lemma_first_failure_append(
            line_checks(k, name, shorter),
            line_checks_at(k, name, lines.last(), (lines.len() - 1) as nat),
        );
    }
}

proof fn lemma_line_checks_step(k: PolicyKind, name: Seq<char>, lines: Seq<LineSpec>, i: int)
    requires
        0 <= i < lines.len(),
    ensures
        line_checks(k, name, lines.take(i + 1)) == line_checks(k, name, lines.take(i))
            + line_checks_at(k, name, lines[i], i as nat),
{
    assert(lines.take(i + 1).drop_last() =~= lines.take(i));
}

pub open spec fn requirement_view_at(k: PolicyKind, name: Seq<char>, line: LineSpec, i: nat) -> (
    Seq<char>,
    u16,
    RequirementOperator,
    ValueView,
) {
    (requirement_text(k, name, i), line_sort(i), line.operator, line_value_view(line.value))
}

proof fn lemma_line_checks_at(k: PolicyKind, name: Seq<char>, line: LineSpec, i: nat)
    ensures
        ({
            let here = line_checks_at(k, name, line, i);
            let c0 = Check::Name("requirement.name"@, requirement_text(k, name, i));
            let c1 = Check::Name("policy.name"@, policy_text(k, name, i));
            first_failure(here) == if check_failure(c0) is Some {
                check_failure(c0)
            } else if check_failure(c1) is Some {
                check_failure(c1)
            } else {
                match line.value {
                    LineValue::Name(t) => check_failure(Check::Name("requirement.value"@, t)),
                    LineValue::Count(_) => None,
                }
            }
        }),
{
    let c0 = Check::Name("requirement.name"@, requirement_text(k, name, i));
    let c1 = Check::Name("policy.name"@, policy_text(k, name, i));
    let tail = match line.value {
        LineValue::Name(t) => seq![Check::Name("requirement.value"@, t)],
        LineValue::Count(_) => Seq::empty(),
    };
    lemma_first_failure_append(seq![c0, c1], tail);
    reveal_with_fuel(first_failure, 3);
    assert(seq![c0, c1].drop_first() =~= seq![c1]);
    assert(seq![c1].drop_first() =~= Seq::<Check>::empty());
    if tail.len() > 0 {
        assert(tail.drop_first() =~= Seq::<Check>::empty());
    }
}

/// Compiles the requirement entry at index `i`.
fn compile_line(
    k: PolicyKind,
    name: &str,
    scope_name: &SymbolicName,
    declared_by: &SymbolicName,
    line: &Line,
    i: usize,
) -> (r: Result<(RequirementSpec, PolicySpec), PolicyCompileError>)
    requires
        scope_name@ == scope_text(k, name@),
        declared_by@ == name@,
    ensures
        match r {
            Ok((rq, p)) => first_failure(line_checks_at(k, name@, line_view(*line), i as nat))
                is None && rq@ == requirement_view_at(k, name@, line_view(*line), i as nat) && p@
                == (policy_text(k, name@, i as nat), name@, scope_text(k, name@), requirement_text(
                k,
                name@,
                i as nat,
            )),
            Err(e) => first_failure(line_checks_at(k, name@, line_view(*line), i as nat)) == Some(
                error_view(e),
            ),
        },
{
    proof {
        lemma_line_checks_at(k, name@, line_view(*line), i as nat);
    }
    let prefix = kind_prefix_str(k);
    let number = write_padded3(i);
    let requirement_text_value = concat4(prefix, name, "-requirement-", number.as_str());
    let requirement_name = match symbolic("requirement.name", requirement_text_value.as_str()) {
        Ok(n) => n,
        Err(e) => {
            return Err(e);
        },
    };
    let policy_text_value = concat4(prefix, name, "-policy-", number.as_str());
    let policy_name = match symbolic("policy.name", policy_text_value.as_str()) {
        Ok(n) => n,
        Err(e) => {
            return Err(e);
        },
    };
    let value = match &line.value {
        LineText::Name(t) => match symbolic("requirement.value", t.as_str()) {
            Ok(n) => RequirementValueSpec::Name(n),
            Err(e) => {
                return Err(e);
            },
        },
        LineText::Count(n) => RequirementValueSpec::U64(*n),
    };
    let sort: u16 = if i < 65535 {
        (i + 1) as u16
    } else {
        65535
    };
    let requirement = RequirementSpec {
        name: requirement_name.clone(),
        sort,
        operator: line.operator,
        value,
    };
    let policy = PolicySpec {
        name: policy_name,
        declared_by: declared_by.clone(),
        scope: scope_name.clone(),
        requirement: requirement_name,
    };
    Ok((requirement, policy))
}

fn compile_lines(
    k: PolicyKind,
    name: &str,
    scope_name: &SymbolicName,
    declared_by: &SymbolicName,
    lines: &Vec<Line>,
) -> (r: Result<(Vec<RequirementSpec>, Vec<PolicySpec>), PolicyCompileError>)
    requires
        scope_name@ == scope_text(k, name@),
        declared_by@ == name@,
    ensures
        match r {
            Ok((rq, ps)) => first_failure(line_checks(k, name@, lines_view(lines@))) is None
                && rq@.map_values(|x: RequirementSpec| x@) == requirement_views(
                k,
                name@,
                lines_view(lines@),
            ) && ps@.map_values(|x: PolicySpec| x@) == policy_views(k, name@, lines@.len()),
            Err(e) => first_failure(line_checks(k, name@, lines_view(lines@))) == Some(
                error_view(e),
            ),
        },
{
    let ghost ls = lines_view(lines@);
    let mut requirements: Vec<RequirementSpec> = Vec::new();
    let mut policies: Vec<PolicySpec> = Vec::new();
    let mut i: usize = 0;
    assert(ls.take(0) =~= Seq::<LineSpec>::empty());
    assert(requirements@.map_values(|x: RequirementSpec| x@) =~= requirement_views(
        k,
        name@,
        ls.take(0),
    ));
    assert(policies@.map_values(|x: PolicySpec| x@) =~= policy_views(k, name@, 0));
    while i < lines.len()
        invariant
            ls == lines_view(lines@),
            ls.len() == lines@.len(),
            i <= lines@.len(),
            scope_name@ == scope_text(k, name@),
            declared_by@ == name@,
            first_failure(line_checks(k, name@, ls.take(i as int))) is None,
            requirements@.map_values(|x: RequirementSpec| x@) == requirement_views(
                k,
                name@,
                ls.take(i as int),
            ),
            policies@.map_values(|x: PolicySpec| x@) == policy_views(k, name@, i as nat),
        decreases lines@.len() - i,
    {
        proof {
            assert(ls[i as int] == line_view(lines@[i as int]));
            lemma_line_checks_step(k, name@, ls, i as int);
            lemma_first_failure_append(
                line_checks(k, name@, ls.take(i as int)),
                line_checks_at(k, name@, ls[i as int], i as nat),
            );
        }
        let (requirement, policy) = match compile_line(
            k,
            name,
            scope_name,
            declared_by,
            &lines[i],
            i,
        ) {
            Ok(pair) => pair,
            Err(e) => {
                proof {
                    lemma_line_checks_prefix(k, name@, ls, i + 1);
                }
                return Err(e);
            },
        };
        let ghost before_requirements = requirements@;
        let ghost before_policies = policies@;
        requirements.push(requirement);
        policies.push(policy);
        proof {
            lemma_views_push_requirement(k, name@, ls, before_requirements, requirements@, i as int);
            lemma_views_push_policy(k, name@, before_policies, policies@, i as int);
        }
        i = i + 1;
    }
    assert(ls.take(lines@.len() as int) =~= ls);
    Ok((requirements, policies))
}

proof fn lemma_views_push_requirement(
    k: PolicyKind,
    name: Seq<char>,
    ls: Seq<LineSpec>,
    before: Seq<RequirementSpec>,
    after: Seq<RequirementSpec>,
    i: int,
)
    requires
        0 <= i < ls.len(),
        before.map_values(|x: RequirementSpec| x@) == requirement_views(k, name, ls.take(i)),
        after.len() == before.len() + 1,
        forall|j: int| 0 <= j < before.len() ==> after[j] == before[j],
        after[before.len() as int]@ == requirement_view_at(k, name, ls[i], i as nat),
    ensures
        after.map_values(|x: RequirementSpec| x@) == requirement_views(k, name, ls.take(i + 1)),
{
    let am = after.map_values(|x: RequirementSpec| x@);
    let bm = before.map_values(|x: RequirementSpec| x@);
    let want = requirement_views(k, name, ls.take(i + 1));
    let had = requirement_views(k, name, ls.take(i));
    assert(bm.len() == had.len());
    assert forall|j: int| 0 <= j < am.len() implies #[trigger] am[j] == want[j] by {
        assert(am[j] == after[j]@);
        if j < before.len() {
            assert(after[j] == before[j]);
            assert(bm[j] == before[j]@);
            assert(bm[j] == had[j]);
        }
        if j == i {
            assert(ls.take(i + 1)[j] == ls[i]);
        } else {
            assert(ls.take(i + 1)[j] == ls.take(i)[j]);
        }
    }
    assert(am =~= want);
}

proof fn lemma_views_push_policy(
    k: PolicyKind,
    name: Seq<char>,
    before: Seq<PolicySpec>,
    after: Seq<PolicySpec>,
    i: int,
)
    requires
        0 <= i,
        before.map_values(|x: PolicySpec| x@) == policy_views(k, name, i as nat),
        after.len() == before.len() + 1,
        forall|j: int| 0 <= j < before.len() ==> after[j] == before[j],
        after[before.len() as int]@ == (
            policy_text(k, name, i as nat),
            name,
            scope_text(k, name),
            requirement_text(k, name, i as nat),
        ),
    ensures
        after.map_values(|x: PolicySpec| x@) == policy_views(k, name, (i + 1) as nat),
{
    let am = after.map_values(|x: PolicySpec| x@);
    let bm = before.map_values(|x: PolicySpec| x@);
    let want = policy_views(k, name, (i + 1) as nat);
    let had = policy_views(k, name, i as nat);
    assert(bm.len() == had.len());
    assert forall|j: int| 0 <= j < am.len() implies #[trigger] am[j] == want[j] by {
        assert(am[j] == after[j]@);
        if j < before.len() {
            assert(after[j] == before[j]);
            assert(bm[j] == before[j]@);
            assert(bm[j] == had[j]);
        }
    }
    assert(am =~= want);
}

proof fn lemma_first_failure_single(c: Check)
    ensures
        first_failure(seq![c]) == check_failure(c),
{
    reveal_with_fuel(first_failure, 2);
    assert(seq![c].drop_first() =~= Seq::<Check>::empty());
}

fn compile_referents(rs: &Vec<ReferentDeclaration>) -> (r: Result<
    Vec<ReferentSpec>,
    PolicyCompileError,
>)
    ensures
        match r {
            Ok(v) => first_failure(referent_checks(rs@)) is None && v@.map_values(
                |x: ReferentSpec| x@,
            ) == referent_views(rs@),
            Err(e) => first_failure(referent_checks(rs@)) == Some(error_view(e)),
        },
{
    let mut out: Vec<ReferentSpec> = Vec::new();
    let mut i: usize = 0;
    assert(referent_checks(rs@.take(0)) =~= Seq::<Check>::empty());
    assert(out@.map_values(|x: ReferentSpec| x@) =~= referent_views(rs@.take(0)));
    while i < rs.len()
        invariant
            i <= rs@.len(),
            first_failure(referent_checks(rs@.take(i as int))) is None,
            out@.map_values(|x: ReferentSpec| x@) == referent_views(rs@.take(i as int)),
        decreases rs@.len() - i,
    {
        let declaration = &rs[i];
        let ghost c = Check::Name("declarations.referents.name"@, declaration.name@);
        proof {
            assert(referent_checks(rs@.take(i + 1)) =~= referent_checks(rs@.take(i as int)) + seq![
                c,
            ]);
            lemma_first_failure_append(referent_checks(rs@.take(i as int)), seq![c]);
            lemma_first_failure_single(c);
        }
        let name = match symbolic("declarations.referents.name", declaration.name.as_str()) {
            Ok(n) => n,
            Err(e) => {
                proof {
                    assert(referent_checks(rs@) =~= referent_checks(rs@.take(i + 1))
                        + referent_checks(rs@.skip(i + 1)));
                    lemma_first_failure_append(
                        referent_checks(rs@.take(i + 1)),
                        referent_checks(rs@.skip(i + 1)),
                    );
                }
                return Err(e);
            },
        };
        let ghost before = out@;
        out.push(ReferentSpec { name, sort: declaration.sort });
        proof {
            assert(out@.map_values(|x: ReferentSpec| x@) =~= before.map_values(
                |x: ReferentSpec| x@,
            ).push(out@[i as int]@));
            assert(referent_views(rs@.take(i + 1)) =~= referent_views(rs@.take(i as int)).push(
                (declaration.name@, declaration.sort),
            ));
        }
        i = i + 1;
    }
    assert(rs@.take(rs@.len() as int) =~= rs@);
    Ok(out)
}

proof fn lemma_edge_checks_prefix(es: Seq<EdgeDeclaration>, i: int)
    requires
        0 <= i <= es.len(),
        first_failure(edge_checks(es.take(i))) is Some,
    ensures
        first_failure(edge_checks(es)) == first_failure(edge_checks(es.take(i))),
    decreases es.len(),
{
    if i == es.len() {
        assert(es.take(i) =~= es);
    } else {
        let shorter = es.drop_last();
        assert(shorter.take(i) =~= es.take(i));
        lemma_edge_checks_prefix(shorter, i);
        lemma_first_failure_append(edge_checks(shorter), edge_checks_of(es.last()));
    }
}

proof fn lemma_three_checks(c0: Check, c1: Check, c2: Check)
    ensures
        first_failure(seq![c0, c1, c2]) == if check_failure(c0) is Some {
            check_failure(c0)
        } else if check_failure(c1) is Some {
            check_failure(c1)
        } else {
            check_failure(c2)
        },
{
    reveal_with_fuel(first_failure, 4);
    assert(seq![c0, c1, c2].drop_first() =~= seq![c1, c2]);
    assert(seq![c1, c2].drop_first() =~= seq![c2]);
    assert(seq![c2].drop_first() =~= Seq::<Check>::empty());
}

fn edge_direction_of(d: EdgeDirection) -> (r: Direction)
    ensures
        r == edge_direction(d),
{
    match d {
        EdgeDirection::Directed => Direction::Directed,
        EdgeDirection::Undirected => Direction::Undirected,
    }
}

pub open spec fn edge_checks_of(e: EdgeDeclaration) -> Seq<Check> {
    seq![
        Check::Name("declarations.edges.name"@, e.name@),
        Check::Name("declarations.edges.first"@, e.first@),
        Check::Name("declarations.edges.second"@, e.second@),
    ]
}

fn compile_edge(edge: &EdgeDeclaration) -> (r: Result<EdgeSpec, PolicyCompileError>)
    ensures
        match r {
            Ok(x) => first_failure(edge_checks_of(*edge)) is None && x@ == (
                edge.name@,
                edge.sort,
                edge_direction(edge.direction),
                edge.first@,
                edge.second@,
            ),
            Err(e) => first_failure(edge_checks_of(*edge)) == Some(error_view(e)),
        },
{
    proof {
        lemma_three_checks(
            Check::Name("declarations.edges.name"@, edge.name@),
            Check::Name("declarations.edges.first"@, edge.first@),
            Check::Name("declarations.edges.second"@, edge.second@),
        );
    }
    let name = match symbolic("declarations.edges.name", edge.name.as_str()) {
        Ok(n) => n,
        Err(e) => {
            return Err(e);
        },
    };
    let first = match symbolic("declarations.edges.first", edge.first.as_str()) {
        Ok(n) => n,
        Err(e) => {
            return Err(e);
        },
    };
    let second = match symbolic("declarations.edges.second", edge.second.as_str()) {
        Ok(n) => n,
        Err(e) => {
            return Err(e);
        },
    };
    Ok(
        EdgeSpec {
            name,
            sort: edge.sort,
            direction: edge_direction_of(edge.direction),
            first,
            second,
        },
    )
}

fn compile_edges(es: &Vec<EdgeDeclaration>) -> (r: Result<Vec<EdgeSpec>, PolicyCompileError>)
    ensures
        match r {
            Ok(v) => first_failure(edge_checks(es@)) is None && v@.map_values(|x: EdgeSpec| x@)
                == edge_views(es@),
            Err(e) => first_failure(edge_checks(es@)) == Some(error_view(e)),
        },
{
    let mut out: Vec<EdgeSpec> = Vec::new();
    let mut i: usize = 0;
    assert(es@.take(0) =~= Seq::<EdgeDeclaration>::empty());
    assert(out@.map_values(|x: EdgeSpec| x@) =~= edge_views(es@.take(0)));
    while i < es.len()
        invariant
            i <= es@.len(),
            first_failure(edge_checks(es@.take(i as int))) is None,
            out@.map_values(|x: EdgeSpec| x@) == edge_views(es@.take(i as int)),
        decreases es@.len() - i,
    {
        proof {
            assert(es@.take(i + 1).drop_last() =~= es@.take(i as int));
            assert(es@.take(i + 1).last() == es@[i as int]);
            assert(edge_checks(es@.take(i + 1)) == edge_checks(es@.take(i as int)) + edge_checks_of(
                es@[i as int],
            ));
            lemma_first_failure_append(
                edge_checks(es@.take(i as int)),
                edge_checks_of(es@[i as int]),
            );
        }
        let edge = match compile_edge(&es[i]) {
            Ok(x) => x,
            Err(e) => {
                proof {
                    lemma_edge_checks_prefix(es@, i + 1);
                }
                return Err(e);
            },
        };
        let ghost before = out@;
        out.push(edge);
        proof {
            assert(out@.map_values(|x: EdgeSpec| x@) =~= before.map_values(|x: EdgeSpec| x@).push(
                out@[i as int]@,
            ));
            assert(edge_views(es@.take(i + 1)) =~= edge_views(es@.take(i as int)).push(
                out@[i as int]@,
            ));
        }
        i = i + 1;
    }
    assert(es@.take(es@.len() as int) =~= es@);
    Ok(out)
}

/// The outcome of compiling a document of kind `k` whose lines are `lines`.
pub open spec fn compiled_as(
    r: Result<CompiledPolicyFragment, PolicyCompileError>,
    k: PolicyKind,
    found: PolicyKind,
    metadata: PolicyMetadata,
    predicate: Seq<char>,
    lines: Seq<LineSpec>,
    decl: PolicyDeclarations,
) -> bool {
    let name = metadata.name@;
    let version = metadata.version@;
    match r {
        Ok(f) => compile_failure(k, found, name, version, predicate, lines, decl) is None
            && fragment_view(f) == compiled_view(k, name, version, predicate, lines, decl),
        Err(e) => compile_failure(k, found, name, version, predicate, lines, decl) == Some(
            error_view(e),
        ),
    }
}

fn compile_envelope(
    k: PolicyKind,
    found: PolicyKind,
    metadata: &PolicyMetadata,
    predicate: &str,
    lines: &Vec<Line>,
    declarations: &PolicyDeclarations,
) -> (r: Result<CompiledPolicyFragment, PolicyCompileError>)
    ensures
        compiled_as(r, k, found, *metadata, predicate@, lines_view(lines@), *declarations),
{
    let ghost name = metadata.name@;
    let ghost version = metadata.version@;
    let ghost ls = lines_view(lines@);
    let ghost h = header_checks(k, name, version, predicate@);
    let ghost l = line_checks(k, name, ls);
    let ghost rc = referent_checks(declarations.referents@);
    let ghost ec = edge_checks(declarations.edges@);
    proof {
        lemma_first_failure_append(h, l);
        lemma_first_failure_append(h + l, rc);
        lemma_first_failure_append(h + l + rc, ec);
    }
    if found != k {
        return Err(PolicyCompileError::InconsistentPolicyKind { expected: k, found });
    }
    if lines.len() == 0 {
        return Err(
            PolicyCompileError::EmptyRequirements {
                kind: k,
                policy_name: owned(metadata.name.as_str()),
            },
        );
    }
    let header = match compile_header(
        k,
        metadata.name.as_str(),
        metadata.version.as_str(),
        predicate,
    ) {
        Ok(h) => h,
        Err(e) => {
            return Err(e);
        },
    };
    let (requirements, policies) = match compile_lines(
        k,
        metadata.name.as_str(),
        &header.scope_name,
        &header.declared_by,
        lines,
    ) {
        Ok(pair) => pair,
        Err(e) => {
            return Err(e);
        },
    };
    let referents = match compile_referents(&declarations.referents) {
        Ok(v) => v,
        Err(e) => {
            return Err(e);
        },
    };
    let edges = match compile_edges(&declarations.edges) {
        Ok(v) => v,
        Err(e) => {
            return Err(e);
        },
    };
    let scope = ScopeSpec {
        name: header.scope_name,
        referent_sort: policy_referent_sort(k),
        snapshot_unix_seconds: 0,
        namespace: header.namespace,
        mapper_version: header.version,
        predicate: ScopePredicateSpec::HasTag(header.predicate),
    };
    let mut scopes: Vec<ScopeSpec> = Vec::new();
    scopes.push(scope);
    let fragment = CompiledPolicyFragment { scopes, requirements, policies, referents, edges };
    proof {
        assert(fragment_view(fragment).scopes =~= compiled_view(
            k,
            name,
            version,
            predicate@,
            ls,
            *declarations,
        ).scopes);
    }
    Ok(fragment)
}

pub open spec fn scope_target_token(v: ScopeTarget) -> Seq<char> {
    match v {
        ScopeTarget::Workspace => "workspace"@,
        ScopeTarget::Package => "package"@,
        ScopeTarget::Artifact => "artifact"@,
    }
}

fn scope_target_str(v: ScopeTarget) -> (r: &'static str)
    ensures
        r@ == scope_target_token(v),
{
    match v {
        ScopeTarget::Workspace => "workspace",
        ScopeTarget::Package => "package",
        ScopeTarget::Artifact => "artifact",
    }
}

pub open spec fn scope_selector_token(v: ScopeSelector) -> Seq<char> {
    match v {
        ScopeSelector::Source => "source"@,
        ScopeSelector::Build => "build"@,
        ScopeSelector::Runtime => "runtime"@,
    }
}

fn scope_selector_str(v: ScopeSelector) -> (r: &'static str)
    ensures
        r@ == scope_selector_token(v),
{
    match v {
        ScopeSelector::Source => "source",
        ScopeSelector::Build => "build",
        ScopeSelector::Runtime => "runtime",
    }
}

pub open spec fn phase_lifecycle_token(v: PhaseLifecycle) -> Seq<char> {
    match v {
        PhaseLifecycle::BuildRuntime => "build-runtime"@,
        PhaseLifecycle::RuntimeOperations => "runtime-operations"@,
    }
}

fn phase_lifecycle_str(v: PhaseLifecycle) -> (r: &'static str)
    ensures
        r@ == phase_lifecycle_token(v),
{
    match v {
        PhaseLifecycle::BuildRuntime => "build-runtime",
        PhaseLifecycle::RuntimeOperations => "runtime-operations",
    }
}

pub open spec fn phase_name_token(v: PhaseName) -> Seq<char> {
    match v {
        PhaseName::Build => "build"@,
        PhaseName::Sign => "sign"@,
        PhaseName::Release => "release"@,
        PhaseName::Runtime => "runtime"@,
    }
}

fn phase_name_str(v: PhaseName) -> (r: &'static str)
    ensures
        r@ == phase_name_token(v),
{
    match v {
        PhaseName::Build => "build",
        PhaseName::Sign => "sign",
        PhaseName::Release => "release",
        PhaseName::Runtime => "runtime",
    }
}

pub open spec fn graph_kind_token(v: GraphKind) -> Seq<char> {
    match v {
        GraphKind::Dependency => "dependency"@,
        GraphKind::RuntimeCall => "runtime-call"@,
    }
}

fn graph_kind_str(v: GraphKind) -> (r: &'static str)
    ensures
        r@ == graph_kind_token(v),
{
    match v {
        GraphKind::Dependency => "dependency",
        GraphKind::RuntimeCall => "runtime-call",
    }
}

pub open spec fn port_environment_token(v: PortEnvironment) -> Seq<char> {
    match v {
        PortEnvironment::Development => "development"@,
        PortEnvironment::Staging => "staging"@,
        PortEnvironment::Production => "production"@,
    }
}

fn port_environment_str(v: PortEnvironment) -> (r: &'static str)
    ensures
        r@ == port_environment_token(v),
{
    match v {
        PortEnvironment::Development => "development",
        PortEnvironment::Staging => "staging",
        PortEnvironment::Production => "production",
    }
}

pub open spec fn route_topology_token(v: RouteTopology) -> Seq<char> {
    match v {
        RouteTopology::Cluster => "cluster"@,
        RouteTopology::Mesh => "mesh"@,
    }
}

fn route_topology_str(v: RouteTopology) -> (r: &'static str)
    ensures
        r@ == route_topology_token(v),
{
    match v {
        RouteTopology::Cluster => "cluster",
        RouteTopology::Mesh => "mesh",
    }
}

pub open spec fn route_endpoint_token(v: RouteEndpoint) -> Seq<char> {
    match v {
        RouteEndpoint::Runtime => "runtime"@,
        RouteEndpoint::ControlPlane => "control-plane"@,
        RouteEndpoint::AuditSink => "audit-sink"@,
    }
}

fn route_endpoint_str(v: RouteEndpoint) -> (r: &'static str)
    ensures
        r@ == route_endpoint_token(v),
{
    match v {
        RouteEndpoint::Runtime => "runtime",
        RouteEndpoint::ControlPlane => "control-plane",
        RouteEndpoint::AuditSink => "audit-sink",
    }
}

pub open spec fn transport_protocol_token(v: TransportProtocol) -> Seq<char> {
    match v {
        TransportProtocol::Tcp => "tcp"@,
        TransportProtocol::Udp => "udp"@,
        TransportProtocol::Http => "http"@,
        TransportProtocol::Https => "https"@,
        TransportProtocol::Grpc => "grpc"@,
    }
}

fn transport_protocol_str(v: TransportProtocol) -> (r: &'static str)
    ensures
        r@ == transport_protocol_token(v),
{
    match v {
        TransportProtocol::Tcp => "tcp",
        TransportProtocol::Udp => "udp",
        TransportProtocol::Http => "http",
        TransportProtocol::Https => "https",
        TransportProtocol::Grpc => "grpc",
    }
}

/// A scope policy entry requires the selector present when in scope and
/// absent when out of scope.
pub open spec fn scope_line(r: ScopePolicyRequirement) -> LineSpec {
    LineSpec {
        operator: match r.constraint {
            ScopeConstraint::InScope => RequirementOperator::PresenceRequired,
            ScopeConstraint::OutOfScope => RequirementOperator::PresenceForbidden,
        },
        value: LineValue::Name("selector-"@ + scope_selector_token(r.selector)),
    }
}

/// A phase separation entry forbids the producer-to-consumer relation when
/// the phases are isolated and requires it for a read-only handoff.
pub open spec fn phase_line(r: PhaseSeparationRequirement) -> LineSpec {
    LineSpec {
        operator: match r.relation {
            PhaseRelation::Isolated => RequirementOperator::RelationNotExists,
            PhaseRelation::ReadOnlyHandoff => RequirementOperator::RelationExists,
        },
        value: LineValue::Name(
            "phase-"@ + phase_name_token(r.producer) + "-to-"@ + phase_name_token(r.consumer),
        ),
    }
}

/// An edge budget entry caps the number of edges.
pub open spec fn edge_budget_line(r: EdgeBudgetRequirement) -> LineSpec {
    LineSpec {
        operator: RequirementOperator::RelationEdgeCountMax,
        value: LineValue::Count(r.max_edges as u64),
    }
}

/// A port profile entry requires exactly the port.
pub open spec fn port_profile_line(r: PortProfileRequirement) -> LineSpec {
    LineSpec { operator: RequirementOperator::CountEqual, value: LineValue::Count(r.port as u64) }
}

/// A transport route entry requires the route when allowed and forbids it
/// when denied.
pub open spec fn route_line(r: TransportRouteRequirement) -> LineSpec {
    LineSpec {
        operator: match r.action {
            RouteAction::Allow => RequirementOperator::RelationExists,
            RouteAction::Deny => RequirementOperator::RelationNotExists,
        },
        value: LineValue::Name(
            "route-"@ + route_endpoint_token(r.from) + "-to-"@ + route_endpoint_token(r.to)
                + "-via-"@ + transport_protocol_token(r.transport),
        ),
    }
}

/// Allowing and denying a route compile to opposite requirements on the same
/// route: an allow entry requires the route to exist, a deny entry requires
/// it not to, and two entries that differ only in their action name the same
/// route under different operators.
pub proof fn lemma_route_actions_are_opposite(a: TransportRouteRequirement, b: TransportRouteRequirement)
    ensures
        a.action is Allow ==> route_line(a).operator == RequirementOperator::RelationExists,
        a.action is Deny ==> route_line(a).operator == RequirementOperator::RelationNotExists,
        a.from == b.from && a.to == b.to && a.transport == b.transport && a.action != b.action ==> (
        route_line(a).operator != route_line(b).operator && route_line(a).value == route_line(
            b,
        ).value),
{
}

/// In the fragment a transport-routes document calls for, the requirement of
/// each route entry forbids the route when the entry denies it and requires
/// it when the entry allows it.
pub proof fn lemma_route_entry_operator(d: PolicyDocument, i: int)
    requires
        d matches PolicyDocument::TransportRoutesPolicy(x) && 0 <= i < x.requirements@.len(),
    ensures
        document_view(d).requirements.len() == d->TransportRoutesPolicy_0.requirements@.len(),
        document_view(d).requirements[i].2 == match d->TransportRoutesPolicy_0.requirements@[i].action {
            RouteAction::Allow => RequirementOperator::RelationExists,
            RouteAction::Deny => RequirementOperator::RelationNotExists,
        },
{
}

/// What a kind-specific scope contributes: the tag of the scope predicate.
trait ScopeEntry {
    spec fn predicate_text(&self) -> Seq<char>;

    fn predicate(&self) -> (r: String)
        ensures
            r@ == self.predicate_text(),
    ;
}

/// What a kind-specific requirement entry contributes.
trait RequirementEntry {
    spec fn entry_line(&self) -> LineSpec;

    fn to_line(&self) -> (r: Line)
        ensures
            line_view(r) == self.entry_line(),
    ;
}

impl ScopeEntry for ScopePolicyScope {
    spec fn predicate_text(&self) -> Seq<char> {
        "target-"@ + scope_target_token(self.target)
    }

    fn predicate(&self) -> (r: String) {
        concat2("target-", scope_target_str(self.target))
    }
}

impl ScopeEntry for PhaseSeparationPolicyScope {
    spec fn predicate_text(&self) -> Seq<char> {
        "lifecycle-"@ + phase_lifecycle_token(self.lifecycle)
    }

    fn predicate(&self) -> (r: String) {
        concat2("lifecycle-", phase_lifecycle_str(self.lifecycle))
    }
}

impl ScopeEntry for EdgeBudgetPolicyScope {
    spec fn predicate_text(&self) -> Seq<char> {
        "graph-"@ + graph_kind_token(self.graph)
    }

    fn predicate(&self) -> (r: String) {
        concat2("graph-", graph_kind_str(self.graph))
    }
}

impl ScopeEntry for PortProfilePolicyScope {
    spec fn predicate_text(&self) -> Seq<char> {
        "environment-"@ + port_environment_token(self.environment)
    }

    fn predicate(&self) -> (r: String) {
        concat2("environment-", port_environment_str(self.environment))
    }
}

impl ScopeEntry for TransportRoutesPolicyScope {
    spec fn predicate_text(&self) -> Seq<char> {
        "topology-"@ + route_topology_token(self.topology)
    }

    fn predicate(&self) -> (r: String) {
        concat2("topology-", route_topology_str(self.topology))
    }
}

impl RequirementEntry for ScopePolicyRequirement {
    spec fn entry_line(&self) -> LineSpec {
        scope_line(*self)
    }

    fn to_line(&self) -> (r: Line) {
        let operator = match self.constraint {
            ScopeConstraint::InScope => RequirementOperator::PresenceRequired,
            ScopeConstraint::OutOfScope => RequirementOperator::PresenceForbidden,
        };
        let text = concat2("selector-", scope_selector_str(self.selector));
        Line { operator, value: LineText::Name(text) }
    }
}

impl RequirementEntry for PhaseSeparationRequirement {
    spec fn entry_line(&self) -> LineSpec {
        phase_line(*self)
    }

    fn to_line(&self) -> (r: Line) {
        let operator = match self.relation {
            PhaseRelation::Isolated => RequirementOperator::RelationNotExists,
            PhaseRelation::ReadOnlyHandoff => RequirementOperator::RelationExists,
        };
        let text = concat4(
            "phase-",
            phase_name_str(self.producer),
            "-to-",
            phase_name_str(self.consumer),
        );
        Line { operator, value: LineText::Name(text) }
    }
}

impl RequirementEntry for EdgeBudgetRequirement {
    spec fn entry_line(&self) -> LineSpec {
        edge_budget_line(*self)
    }

    fn to_line(&self) -> (r: Line) {
        Line {
            operator: RequirementOperator::RelationEdgeCountMax,
            value: LineText::Count(self.max_edges as u64),
        }
    }
}

impl RequirementEntry for PortProfileRequirement {
    spec fn entry_line(&self) -> LineSpec {
        port_profile_line(*self)
    }

    fn to_line(&self) -> (r: Line) {
        Line { operator: RequirementOperator::CountEqual, value: LineText::Count(self.port as u64) }
    }
}

impl RequirementEntry for TransportRouteRequirement {
    spec fn entry_line(&self) -> LineSpec {
        route_line(*self)
    }

    fn to_line(&self) -> (r: Line) {
        let operator = match self.action {
            RouteAction::Allow => RequirementOperator::RelationExists,
            RouteAction::Deny => RequirementOperator::RelationNotExists,
        };
        let mut text = concat4(
            "route-",
            route_endpoint_str(self.from),
            "-to-",
            route_endpoint_str(self.to),
        );
        push_str(&mut text, "-via-");
        push_str(&mut text, transport_protocol_str(self.transport));
        Line { operator, value: LineText::Name(text) }
    }
}

spec fn entry_lines<R: RequirementEntry>(rs: Seq<R>) -> Seq<LineSpec> {
    rs.map_values(|x: R| x.entry_line())
}

fn lines_of<R: RequirementEntry>(rs: &Vec<R>) -> (r: Vec<Line>)
    ensures
        lines_view(r@) == entry_lines(rs@),
{
    let mut out: Vec<Line> = Vec::new();
    let mut i: usize = 0;
    while i < rs.len()
        invariant
            i <= rs@.len(),
            lines_view(out@) == entry_lines(rs@.take(i as int)),
        decreases rs@.len() - i,
    {
        let ghost before = out@;
        out.push(rs[i].to_line());
        proof {
            assert(lines_view(out@) =~= lines_view(before).push(line_view(out@[i as int])));
            assert(entry_lines(rs@.take(i + 1)) =~= entry_lines(rs@.take(i as int)).push(
                rs@[i as int].entry_line(),
            ));
        }
        i = i + 1;
    }
    assert(rs@.take(rs@.len() as int) =~= rs@);
    out
}

fn compile_policy<S: ScopeEntry, R: RequirementEntry>(
    k: PolicyKind,
    document: &PolicyEnvelope<S, R>,
) -> (r: Result<CompiledPolicyFragment, PolicyCompileError>)
    ensures
        compiled_as(
            r,
            k,
            document.kind,
            document.metadata,
            document.scope.predicate_text(),
            entry_lines(document.requirements@),
            document.declarations,
        ),
{
    let predicate = document.scope.predicate();
    let lines = lines_of(&document.requirements);
    compile_envelope(
        k,
        document.kind,
        &document.metadata,
        predicate.as_str(),
        &lines,
        &document.declarations,
    )
}

fn compile_scope_policy(document: &ScopePolicyDocument) -> (r: Result<
    CompiledPolicyFragment,
    PolicyCompileError,
>)
    ensures
        compiled_as(
            r,
            PolicyKind::ScopePolicy,
            document.kind,
            document.metadata,
            "target-"@ + scope_target_token(document.scope.target),
            document.requirements@.map_values(|x: ScopePolicyRequirement| scope_line(x)),
            document.declarations,
        ),
{
    let r = compile_policy(PolicyKind::ScopePolicy, document);
    assert(entry_lines(document.requirements@) =~= document.requirements@.map_values(
        |x: ScopePolicyRequirement| scope_line(x),
    ));
    r
}

fn compile_phase_separation_policy(document: &PhaseSeparationPolicyDocument) -> (r: Result<
    CompiledPolicyFragment,
    PolicyCompileError,
>)
    ensures
        compiled_as(
            r,
            PolicyKind::PhaseSeparationPolicy,
            document.kind,
            document.metadata,
            "lifecycle-"@ + phase_lifecycle_token(document.scope.lifecycle),
            document.requirements@.map_values(|x: PhaseSeparationRequirement| phase_line(x)),
            document.declarations,
        ),
{
    let r = compile_policy(PolicyKind::PhaseSeparationPolicy, document);
    assert(entry_lines(document.requirements@) =~= document.requirements@.map_values(
        |x: PhaseSeparationRequirement| phase_line(x),
    ));
    r
}

fn compile_edge_budget_policy(document: &EdgeBudgetPolicyDocument) -> (r: Result<
    CompiledPolicyFragment,
    PolicyCompileError,
>)
    ensures
        compiled_as(
            r,
            PolicyKind::EdgeBudgetPolicy,
            document.kind,
            document.metadata,
            "graph-"@ + graph_kind_token(document.scope.graph),
            document.requirements@.map_values(|x: EdgeBudgetRequirement| edge_budget_line(x)),
            document.declarations,
        ),
{
    let r = compile_policy(PolicyKind::EdgeBudgetPolicy, document);
    assert(entry_lines(document.requirements@) =~= document.requirements@.map_values(
        |x: EdgeBudgetRequirement| edge_budget_line(x),
    ));
    r
}

fn compile_port_profile_policy(document: &PortProfilePolicyDocument) -> (r: Result<
    CompiledPolicyFragment,
    PolicyCompileError,
>)
    ensures
        compiled_as(
            r,
            PolicyKind::PortProfilePolicy,
            document.kind,
            document.metadata,
            "environment-"@ + port_environment_token(document.scope.environment),
            document.requirements@.map_values(|x: PortProfileRequirement| port_profile_line(x)),
            document.declarations,
        ),
{
    let r = compile_policy(PolicyKind::PortProfilePolicy, document);
    assert(entry_lines(document.requirements@) =~= document.requirements@.map_values(
        |x: PortProfileRequirement| port_profile_line(x),
    ));
    r
}

fn compile_transport_routes_policy(document: &TransportRoutesPolicyDocument) -> (r: Result<
    CompiledPolicyFragment,
    PolicyCompileError,
>)
    ensures
        compiled_as(
            r,
            PolicyKind::TransportRoutesPolicy,
            document.kind,
            document.metadata,
            "topology-"@ + route_topology_token(document.scope.topology),
            document.requirements@.map_values(|x: TransportRouteRequirement| route_line(x)),
            document.declarations,
        ),
{
    let r = compile_policy(PolicyKind::TransportRoutesPolicy, document);
    assert(entry_lines(document.requirements@) =~= document.requirements@.map_values(
        |x: TransportRouteRequirement| route_line(x),
    ));
    r
}

/// A document as the compiler reads it.
pub struct DocumentParts {
    /// The kind its variant stands for.
    pub kind: PolicyKind,
    /// The kind its envelope states.
    pub found: PolicyKind,
    pub metadata: PolicyMetadata,
    /// The tag of its scope predicate.
    pub predicate: Seq<char>,
    /// What each requirement entry contributes, in order.
    pub lines: Seq<LineSpec>,
    pub declarations: PolicyDeclarations,
}

pub open spec fn document_parts(d: PolicyDocument) -> DocumentParts {
    match d {
        PolicyDocument::ScopePolicy(x) => DocumentParts {
            kind: PolicyKind::ScopePolicy,
            found: x.kind,
            metadata: x.metadata,
            predicate: "target-"@ + scope_target_token(x.scope.target),
            lines: x.requirements@.map_values(|q: ScopePolicyRequirement| scope_line(q)),
            declarations: x.declarations,
        },
        PolicyDocument::PhaseSeparationPolicy(x) => DocumentParts {
            kind: PolicyKind::PhaseSeparationPolicy,
            found: x.kind,
            metadata: x.metadata,
            predicate: "lifecycle-"@ + phase_lifecycle_token(x.scope.lifecycle),
            lines: x.requirements@.map_values(|q: PhaseSeparationRequirement| phase_line(q)),
            declarations: x.declarations,
        },
        PolicyDocument::EdgeBudgetPolicy(x) => DocumentParts {
            kind: PolicyKind::EdgeBudgetPolicy,
            found: x.kind,
            metadata: x.metadata,
            predicate: "graph-"@ + graph_kind_token(x.scope.graph),
            lines: x.requirements@.map_values(|q: EdgeBudgetRequirement| edge_budget_line(q)),
            declarations: x.declarations,
        },
        PolicyDocument::PortProfilePolicy(x) => DocumentParts {
            kind: PolicyKind::PortProfilePolicy,
            found: x.kind,
            metadata: x.metadata,
            predicate: "environment-"@ + port_environment_token(x.scope.environment),
            lines: x.requirements@.map_values(|q: PortProfileRequirement| port_profile_line(q)),
            declarations: x.declarations,
        },
        PolicyDocument::TransportRoutesPolicy(x) => DocumentParts {
            kind: PolicyKind::TransportRoutesPolicy,
            found: x.kind,
            metadata: x.metadata,
            predicate: "topology-"@ + route_topology_token(x.scope.topology),
            lines: x.requirements@.map_values(|q: TransportRouteRequirement| route_line(q)),
            declarations: x.declarations,
        },
    }
}

/// Why the document is refused, if it is.
pub open spec fn document_failure(d: PolicyDocument) -> Option<CompileErrorView> {
    let p = document_parts(d);
    compile_failure(
        p.kind,
        p.found,
        p.metadata.name@,
        p.metadata.version@,
        p.predicate,
        p.lines,
        p.declarations,
    )
}

/// What the document compiles to, in the order of its entries.
pub open spec fn document_view(d: PolicyDocument) -> FragmentView {
    let p = document_parts(d);
    compiled_view(
        p.kind,
        p.metadata.name@,
        p.metadata.version@,
        p.predicate,
        p.lines,
        p.declarations,
    )
}

/// Mapping both sides of a permutation keeps them a permutation.
pub proof fn lemma_map_multiset<A, B>(s1: Seq<A>, s2: Seq<A>, f: spec_fn(A) -> B)
    requires
        s1.to_multiset() == s2.to_multiset(),
    ensures
        s1.map_values(f).to_multiset() == s2.map_values(f).to_multiset(),
    decreases s1.len(),
{
    if s1.len() == 0 {
        assert(s2.to_multiset().len() == 0);
        assert(s1.map_values(f) =~= Seq::<B>::empty());
        assert(s2.map_values(f) =~= Seq::<B>::empty());
    } else {
        let x = s1[0];
        let k = lemma_in_permutation(s1, s2, 0);
        let t1 = s1.remove(0);
        let t2 = s2.remove(k);
        assert(t1.to_multiset() == s1.to_multiset().remove(x));
        assert(t2.to_multiset() == s2.to_multiset().remove(x));
        lemma_map_multiset(t1, t2, f);
        assert(s1.map_values(f).remove(0) =~= t1.map_values(f));
        assert(s2.map_values(f).remove(k) =~= t2.map_values(f));
        assert(s1.map_values(f).remove(0).to_multiset() == s1.map_values(f).to_multiset().remove(
            f(x),
        ));
        assert(s2.map_values(f).remove(k).to_multiset() == s2.map_values(f).to_multiset().remove(
            f(x),
        ));
        assert(s1.map_values(f).to_multiset().count(f(x)) > 0);
        assert(s2.map_values(f).to_multiset().count(f(x)) > 0);
        assert(s1.map_values(f).to_multiset() =~= s1.map_values(f).to_multiset().remove(
            f(x),
        ).insert(f(x)));
        assert(s2.map_values(f).to_multiset() =~= s2.map_values(f).to_multiset().remove(
            f(x),
        ).insert(f(x)));
    }
}

/// The fragment holds what `v` describes, each section sorted by name.
pub open spec fn arranged(f: CompiledPolicyFragment, v: FragmentView) -> bool {
    &&& sorted_by_key(f.scopes@)
    &&& sorted_by_key(f.requirements@)
    &&& sorted_by_key(f.policies@)
    &&& sorted_by_key(f.referents@)
    &&& sorted_by_key(f.edges@)
    &&& fragment_view(f).scopes.to_multiset() == v.scopes.to_multiset()
    &&& fragment_view(f).requirements.to_multiset() == v.requirements.to_multiset()
    &&& fragment_view(f).policies.to_multiset() == v.policies.to_multiset()
    &&& fragment_view(f).referents.to_multiset() == v.referents.to_multiset()
    &&& fragment_view(f).edges.to_multiset() == v.edges.to_multiset()
}

/// In every section of `f`, the entries that share a name come in the order
/// they have in `g`.
pub open spec fn name_order_kept(f: CompiledPolicyFragment, g: CompiledPolicyFragment) -> bool {
    forall|k: Seq<char>|
        {
            &&& #[trigger] with_text_key(f.scopes@, k) == with_text_key(g.scopes@, k)
            &&& with_text_key(f.requirements@, k) == with_text_key(g.requirements@, k)
            &&& with_text_key(f.policies@, k) == with_text_key(g.policies@, k)
            &&& with_text_key(f.referents@, k) == with_text_key(g.referents@, k)
            &&& with_text_key(f.edges@, k) == with_text_key(g.edges@, k)
        }
}

/// Sorts every section of the fragment by name, keeping the order of
/// entries that share a name.
fn sort_fragment(fragment: &mut CompiledPolicyFragment)
    ensures
        arranged(*final(fragment), fragment_view(*old(fragment))),
        name_order_kept(*final(fragment), *old(fragment)),
{
    let ghost before = *fragment;
    sort_by_text_key(&mut fragment.scopes);
    sort_by_text_key(&mut fragment.requirements);
    sort_by_text_key(&mut fragment.policies);
    sort_by_text_key(&mut fragment.referents);
    sort_by_text_key(&mut fragment.edges);
    proof {
        lemma_map_multiset(fragment.scopes@, before.scopes@, |x: ScopeSpec| x@);
        lemma_map_multiset(fragment.requirements@, before.requirements@, |x: RequirementSpec| x@);
        lemma_map_multiset(fragment.policies@, before.policies@, |x: PolicySpec| x@);
        lemma_map_multiset(fragment.referents@, before.referents@, |x: ReferentSpec| x@);
        lemma_map_multiset(fragment.edges@, before.edges@, |x: EdgeSpec| x@);
    }
}

/// Compiles a policy document of any kind into a fragment whose sections
/// are sorted by name; entries that share a name keep the order the
/// document gives them.
pub fn compile_document(document: &PolicyDocument) -> (r: Result<
    CompiledPolicyFragment,
    PolicyCompileError,
>)
    ensures
        match r {
            Ok(f) => {
                &&& document_failure(*document) is None
                &&& arranged(f, document_view(*document))
                &&& exists|g: CompiledPolicyFragment|
                    fragment_view(g) == document_view(*document) && name_order_kept(f, g)
            },
            Err(e) => document_failure(*document) == Some(error_view(e)),
        },
{
    let compiled = match document {
        PolicyDocument::ScopePolicy(policy) => compile_scope_policy(policy),
        PolicyDocument::PhaseSeparationPolicy(policy) => compile_phase_separation_policy(policy),
        PolicyDocument::EdgeBudgetPolicy(policy) => compile_edge_budget_policy(policy),
        PolicyDocument::PortProfilePolicy(policy) => compile_port_profile_policy(policy),
        PolicyDocument::TransportRoutesPolicy(policy) => compile_transport_routes_policy(policy),
    };
    let mut fragment = match compiled {
        Ok(f) => f,
        Err(e) => {
            return Err(e);
        },
    };
    let ghost unsorted = fragment;
    sort_fragment(&mut fragment);
    assert(fragment_view(unsorted) == document_view(*document) && name_order_kept(fragment, unsorted));
    Ok(fragment)
}

proof fn lemma_padded3_value(n: nat)
    ensures
        char_digits_value(padded3(n)) == n,
{
    lemma_decimal_value(n);
    if decimal(n).len() < 3 {
        lemma_leading_zeros_value((3 - decimal(n).len()) as nat, decimal(n));
    }
}

/// Every requirement entry gets names of its own: entries at different
/// indices never share a requirement name or a policy name.
pub proof fn lemma_entry_names_distinct(k: PolicyKind, name: Seq<char>, i: nat, j: nat)
    requires
        i != j,
    ensures
        requirement_text(k, name, i) != requirement_text(k, name, j),
        policy_text(k, name, i) != policy_text(k, name, j),
{
    lemma_padded3_value(i);
    lemma_padded3_value(j);
    let a = kind_prefix(k) + name + "-requirement-"@;
    if requirement_text(k, name, i) == requirement_text(k, name, j) {
        assert(padded3(i) =~= requirement_text(k, name, i).skip(a.len() as int));
        assert(padded3(j) =~= requirement_text(k, name, j).skip(a.len() as int));
    }
    let b = kind_prefix(k) + name + "-policy-"@;
    if policy_text(k, name, i) == policy_text(k, name, j) {
        assert(padded3(i) =~= policy_text(k, name, i).skip(b.len() as int));
        assert(padded3(j) =~= policy_text(k, name, j).skip(b.len() as int));
    }
}

proof fn lemma_padded3_digits(n: nat)
    requires
        n < 1000,
    ensures
        padded3(n) == seq![
            digit_char(n / 100),
            digit_char((n / 10) % 10),
            digit_char(n % 10),
        ],
{
    assert(digit_char(0) == '0');
    if n < 10 {
        assert(decimal(n) =~= seq![digit_char(n % 10)]);
        assert(padded3(n) =~= seq!['0', '0', digit_char(n % 10)]);
    } else if n < 100 {
        assert(decimal(n / 10) =~= seq![digit_char((n / 10) % 10)]);
        assert(decimal(n) =~= seq![digit_char((n / 10) % 10), digit_char(n % 10)]);
        assert(padded3(n) =~= seq!['0', digit_char((n / 10) % 10), digit_char(n % 10)]);
    } else {
        assert(decimal(n / 100) =~= seq![digit_char((n / 100) % 10)]);
        assert((n / 10) / 10 == n / 100);
        assert(decimal(n / 10) =~= seq![digit_char(n / 100), digit_char((n / 10) % 10)]);
        assert(decimal(n) =~= seq![
            digit_char(n / 100),
            digit_char((n / 10) % 10),
            digit_char(n % 10),
        ]);
    }
}

/// Below a thousand entries, the zero-padded numbers sort as the numbers do.
#[verifier::spinoff_prover]
#[verifier::rlimit(50)]
proof fn lemma_padded3_order(i: nat, j: nat)
    requires
        i < j < 1000,
    ensures
        seq_lt(padded3(i), padded3(j)),
{
    lemma_padded3_digits(i);
    lemma_padded3_digits(j);
    lemma_digit_char(i / 100);
    lemma_digit_char(j / 100);
    lemma_digit_char((i / 10) % 10);
    lemma_digit_char((j / 10) % 10);
    lemma_digit_char(i % 10);
    lemma_digit_char(j % 10);
    let a = padded3(i);
    let b = padded3(j);
    reveal_with_fuel(seq_lt, 4);
    assert(a.drop_first() =~= seq![digit_char((i / 10) % 10), digit_char(i % 10)]);
    assert(b.drop_first() =~= seq![digit_char((j / 10) % 10), digit_char(j % 10)]);
    assert(a.drop_first().drop_first() =~= seq![digit_char(i % 10)]);
    assert(b.drop_first().drop_first() =~= seq![digit_char(j % 10)]);
    if i / 100 == j / 100 {
        if (i / 10) % 10 == (j / 10) % 10 {
            assert(i % 10 < j % 10);
        } else {
            assert((i / 10) % 10 < (j / 10) % 10);
        }
    } else {
        assert(i / 100 < j / 100);
    }
}

/// Below a thousand entries, the names of the entries sort in the order of
/// the entries: sorting a compiled document by name keeps its entry order.
pub proof fn lemma_entry_names_ordered(k: PolicyKind, name: Seq<char>, i: nat, j: nat)
    requires
        i < j < 1000,
    ensures
        seq_lt(requirement_text(k, name, i), requirement_text(k, name, j)),
        seq_lt(policy_text(k, name, i), policy_text(k, name, j)),
{
    lemma_padded3_order(i, j);
    let a = kind_prefix(k) + name + "-requirement-"@;
    let ri = requirement_text(k, name, i);
    let rj = requirement_text(k, name, j);
    assert(ri.take(a.len() as int) =~= rj.take(a.len() as int));
    assert(ri.skip(a.len() as int) =~= padded3(i));
    assert(rj.skip(a.len() as int) =~= padded3(j));
    lemma_seq_lt_skip(ri, rj, a.len() as int);
    let b = kind_prefix(k) + name + "-policy-"@;
    let pi = policy_text(k, name, i);
    let pj = policy_text(k, name, j);
    assert(pi.take(b.len() as int) =~= pj.take(b.len() as int));
    assert(pi.skip(b.len() as int) =~= padded3(i));
    assert(pj.skip(b.len() as int) =~= padded3(j));
    lemma_seq_lt_skip(pi, pj, b.len() as int);
}

} // verus!
