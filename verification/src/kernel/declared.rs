//! The declared model that policy evaluation works on: canonical names,
//! numbered sorts, flat requirement operators and typed scopes.
use vstd::prelude::*;

use crate::kernel::duplicate::Duplicate;
use crate::kernel::id::{
    ActorId, BoundaryId, EdgeId, ModelId, PolicyId, PredicateId, ReferentId, RequirementId, ScopeId,
};
use crate::text::{chars_of, str_eq};

verus! {

/// Why a scalar value was refused.
#[derive(Debug, Clone, Copy, PartialEq, Eq, Hash, Structural)]
pub enum ScalarViolation {
    /// The value was empty.
    Empty,
    /// The character at `index` may not stand in the value.
    InvalidCharacter { index: usize, character: char },
}

/// A character allowed in a canonical name: lowercase ASCII letters, ASCII
/// digits, `_` and `-`.
pub open spec fn is_canonical_char(c: char) -> bool {
    ('a' <= c && c <= 'z') || ('0' <= c && c <= '9') || c == '_' || c == '-'
}

/// Position of the first character that may not stand in a canonical name.
pub open spec fn first_non_canonical(s: Seq<char>) -> Option<int> {
    if exists|i: int| 0 <= i < s.len() && !is_canonical_char(s[i]) {
        Some(
            choose|i: int|
                0 <= i < s.len() && !is_canonical_char(s[i]) && forall|k: int|
                    0 <= k < i ==> is_canonical_char(s[k]),
        )
    } else {
        None
    }
}

/// Why a text is not a canonical name, if it is not.
pub open spec fn name_violation(s: Seq<char>) -> Option<ScalarViolation> {
    if s.len() == 0 {
        Some(ScalarViolation::Empty)
    } else {
        match first_non_canonical(s) {
            Some(i) => Some(ScalarViolation::InvalidCharacter { index: i as usize, character: s[i] }),
            None => None,
        }
    }
}

/// A validated canonical name.
#[derive(Debug, Clone, PartialEq, Eq, PartialOrd, Ord, Hash)]
pub struct CanonicalName(String);

impl View for CanonicalName {
    type V = Seq<char>;

    closed spec fn view(&self) -> Seq<char> {
        self.0@
    }
}

impl CanonicalName {
    /// Accepts a non-empty name of lowercase ASCII letters, digits, `_` and
    /// `-`; otherwise names the first offending character.
    pub fn new(value: String) -> (r: Result<Self, ScalarViolation>)
        ensures
            value@.len() == 0 ==> r == Err::<Self, _>(ScalarViolation::Empty),
            value@.len() > 0 ==> match first_non_canonical(value@) {
                Some(i) => r == Err::<Self, _>(
                    ScalarViolation::InvalidCharacter { index: i as usize, character: value@[i] },
                ),
                None => r matches Ok(n) && n@ == value@,
            },
    {
        let cs = chars_of(value.as_str());
        if cs.len() == 0 {
            return Err(ScalarViolation::Empty);
        }
        let mut i: usize = 0;
        while i < cs.len()
            invariant
                i <= cs@.len(),
                cs@ == value@,
                forall|k: int| 0 <= k < i ==> is_canonical_char(cs@[k]),
            decreases cs@.len() - i,
        {
            let c = cs[i];
            if !(('a' <= c && c <= 'z') || ('0' <= c && c <= '9') || c == '_' || c == '-') {
                proof {
                    let w = choose|w: int|
                        0 <= w < cs@.len() && !is_canonical_char(cs@[w]) && forall|k: int|
                            0 <= k < w ==> is_canonical_char(cs@[k]);
                    if w > i {
                        assert(is_canonical_char(cs@[i as int]));
                    }
                }
                return Err(ScalarViolation::InvalidCharacter { index: i, character: c });
            }
            i = i + 1;
        }
        Ok(CanonicalName(value))
    }

    pub fn as_str(&self) -> (r: &str)
        ensures
            r@ == self@,
    {
        self.0.as_str()
    }

    /// Whether two names are the same text.
    pub fn same_text(&self, other: &Self) -> (r: bool)
        ensures
            r == (self@ == other@),
    {
        str_eq(self.0.as_str(), other.0.as_str())
    }
}

impl Duplicate for CanonicalName {
    fn duplicate(&self) -> (r: Self) {
        CanonicalName(self.0.clone())
    }
}

/// A version `major.minor.patch`.
#[derive(Debug, Clone, Copy, PartialEq, Eq, PartialOrd, Ord, Hash, Structural)]
pub struct SemVer {
    pub major: u16,
    pub minor: u16,
    pub patch: u16,
}

impl SemVer {
    pub fn new(major: u16, minor: u16, patch: u16) -> (r: Self)
        ensures
            r == (SemVer { major, minor, patch }),
    {
        SemVer { major, minor, patch }
    }
}

/// An instant, in whole seconds since the Unix epoch.
#[derive(Debug, Clone, Copy, PartialEq, Eq, PartialOrd, Ord, Hash, Structural)]
pub struct Timestamp {
    pub unix_seconds: u64,
}

impl Timestamp {
    pub fn from_unix_seconds(unix_seconds: u64) -> (r: Self)
        ensures
            r.unix_seconds == unix_seconds,
    {
        Timestamp { unix_seconds }
    }
}

/// Numbered sort of a referent.
#[derive(Debug, Clone, Copy, PartialEq, Eq, PartialOrd, Ord, Hash, Structural)]
pub struct ReferentSortId(pub u16);

/// Numbered sort of a requirement.
#[derive(Debug, Clone, Copy, PartialEq, Eq, PartialOrd, Ord, Hash, Structural)]
pub struct RequirementSortId(pub u16);

/// Whether an edge has a direction.
#[derive(Debug, Clone, Copy, PartialEq, Eq, PartialOrd, Ord, Hash, Structural)]
pub enum Direction {
    Directed,
    Undirected,
}

/// Requirement operator of the declared model.
#[derive(Debug, Clone, Copy, PartialEq, Eq, PartialOrd, Ord, Hash, Structural)]
pub enum RequirementOperator {
    PresenceRequired,
    PresenceForbidden,
    PresenceOptional,
    CountEqual,
    CountMin,
    CountMax,
    SetIncludes,
    SetExcludes,
    SetEquals,
    TemporalBefore,
    TemporalAfter,
    TemporalWithin,
    RelationExists,
    RelationNotExists,
    RelationPathLengthMax,
    RelationEdgeCountMax,
}

/// Value a requirement compares against.
#[derive(Debug, Clone, PartialEq, Eq, Hash)]
pub enum RequirementValue {
    Bool(bool),
    U64(u64),
    Name(CanonicalName),
    Names(Vec<CanonicalName>),
    DurationSeconds(u64),
}

/// Which value each operator compares against: presence and existence a
/// boolean, counts and relation bounds an integer, set operators a list of
/// names, temporal operators a duration.
pub open spec fn operator_accepts(operator: RequirementOperator, value: RequirementValue) -> bool {
    match operator {
        RequirementOperator::PresenceRequired | RequirementOperator::PresenceForbidden
        | RequirementOperator::PresenceOptional => value is Bool,
        RequirementOperator::CountEqual | RequirementOperator::CountMin
        | RequirementOperator::CountMax | RequirementOperator::RelationPathLengthMax
        | RequirementOperator::RelationEdgeCountMax => value is U64,
        RequirementOperator::SetIncludes | RequirementOperator::SetExcludes
        | RequirementOperator::SetEquals => value is Names,
        RequirementOperator::TemporalBefore | RequirementOperator::TemporalAfter
        | RequirementOperator::TemporalWithin => value is DurationSeconds,
        RequirementOperator::RelationExists | RequirementOperator::RelationNotExists => value is Bool,
    }
}

/// Whether the value has the type the operator compares against.
pub fn operator_accepts_value(operator: RequirementOperator, value: &RequirementValue) -> (r: bool)
    ensures
        r == operator_accepts(operator, *value),
{
    match operator {
        RequirementOperator::PresenceRequired | RequirementOperator::PresenceForbidden
        | RequirementOperator::PresenceOptional => matches!(value, RequirementValue::Bool(_)),
        RequirementOperator::CountEqual | RequirementOperator::CountMin
        | RequirementOperator::CountMax | RequirementOperator::RelationPathLengthMax
        | RequirementOperator::RelationEdgeCountMax => matches!(value, RequirementValue::U64(_)),
        RequirementOperator::SetIncludes | RequirementOperator::SetExcludes
        | RequirementOperator::SetEquals => matches!(value, RequirementValue::Names(_)),
        RequirementOperator::TemporalBefore | RequirementOperator::TemporalAfter
        | RequirementOperator::TemporalWithin => matches!(value, RequirementValue::DurationSeconds(_)),
        RequirementOperator::RelationExists | RequirementOperator::RelationNotExists => matches!(
            value,
            RequirementValue::Bool(_)
        ),
    }
}

/// Membership predicate of a typed scope.
#[derive(Debug, Clone, PartialEq, Eq, Hash)]
pub enum MembershipPredicate {
    All,
    HasTag(CanonicalName),
    NameEquals(CanonicalName),
    PredicateRef(PredicateId),
}

/// Context a scope is evaluated in.
#[derive(Debug, Clone, PartialEq, Eq, Hash)]
pub struct EvaluationContext {
    pub model_version: SemVer,
    pub snapshot: Timestamp,
    pub namespace: CanonicalName,
    pub mapper_version: SemVer,
}

/// One closed declared model.
#[derive(Debug, Clone, PartialEq, Eq, Hash)]
pub struct ModelDeclaration {
    pub id: ModelId,
    pub version: SemVer,
    pub declared_at: Timestamp,
    pub declared_by: ActorId,
}

/// Accountable actor, with its role.
#[derive(Debug, Clone, PartialEq, Eq, Hash)]
pub struct ActorDeclaration {
    pub id: ActorId,
    pub role: CanonicalName,
}

/// A referent of a numbered sort.
#[derive(Debug, Clone, Copy, PartialEq, Eq, Hash)]
pub struct ReferentDeclaration {
    pub id: ReferentId,
    pub sort: ReferentSortId,
}

/// A boundary between two referents.
#[derive(Debug, Clone, Copy, PartialEq, Eq, Hash)]
pub struct BoundaryDeclaration {
    pub id: BoundaryId,
    pub side_a_anchor: ReferentId,
    pub side_b_anchor: ReferentId,
}

/// An edge of a numbered sort between two referents.
#[derive(Debug, Clone, Copy, PartialEq, Eq, Hash)]
pub struct EdgeDeclaration {
    pub id: EdgeId,
    pub sort: u16,
    pub direction: Direction,
    pub first: ReferentId,
    pub second: ReferentId,
}

/// A typed scope: the referents of one sort that its predicate selects.
#[derive(Debug, Clone, PartialEq, Eq, Hash)]
pub struct TypedScopeDeclaration {
    pub id: ScopeId,
    pub referent_sort: ReferentSortId,
    pub context: EvaluationContext,
    pub predicate: MembershipPredicate,
}

impl TypedScopeDeclaration {
    pub fn new(
        id: ScopeId,
        referent_sort: ReferentSortId,
        context: EvaluationContext,
        predicate: MembershipPredicate,
    ) -> (r: Self)
        ensures
            r == (TypedScopeDeclaration { id, referent_sort, context, predicate }),
    {
        TypedScopeDeclaration { id, referent_sort, context, predicate }
    }
}

/// Why a requirement was refused.
#[derive(Debug, Clone, Copy, PartialEq, Eq, Hash, Structural)]
pub enum RequirementDeclarationError {
    /// The value does not have the type the operator compares against.
    OperatorValueMismatch,
}

/// A requirement of the declared model.
#[derive(Debug, Clone, PartialEq, Eq, Hash)]
pub struct RequirementDeclaration {
    pub id: RequirementId,
    pub sort: RequirementSortId,
    pub operator: RequirementOperator,
    pub value: RequirementValue,
}

impl RequirementDeclaration {
    /// Builds a requirement whose value fits its operator.
    pub fn new(
        id: RequirementId,
        sort: RequirementSortId,
        operator: RequirementOperator,
        value: RequirementValue,
    ) -> (r: Result<Self, RequirementDeclarationError>)
        ensures
            operator_accepts(operator, value) ==> r == Ok::<Self, RequirementDeclarationError>(
                RequirementDeclaration { id, sort, operator, value },
            ),
            !operator_accepts(operator, value) ==> r == Err::<Self, _>(
                RequirementDeclarationError::OperatorValueMismatch,
            ),
    {
        if !operator_accepts_value(operator, &value) {
            return Err(RequirementDeclarationError::OperatorValueMismatch);
        }
        Ok(RequirementDeclaration { id, sort, operator, value })
    }
}

/// A policy: an actor's requirement on a scope.
#[derive(Debug, Clone, Copy, PartialEq, Eq, Hash)]
pub struct PolicyDeclaration {
    pub id: PolicyId,
    pub declared_by: ActorId,
    pub scope: ScopeId,
    pub requirement: RequirementId,
}

impl PolicyDeclaration {
    pub fn new(id: PolicyId, declared_by: ActorId, scope: ScopeId, requirement: RequirementId) -> (r:
        Self)
        ensures
            r == (PolicyDeclaration { id, declared_by, scope, requirement }),
    {
        PolicyDeclaration { id, declared_by, scope, requirement }
    }
}

/// Canonical paths of the declared objects.
#[derive(Debug, Clone, PartialEq, Eq, Hash)]
pub struct CanonicalPaths {
    pub model: String,
    pub actors: Vec<String>,
    pub referents: Vec<String>,
    pub boundaries: Vec<String>,
    pub edges: Vec<String>,
    pub scopes: Vec<String>,
    pub requirements: Vec<String>,
    pub policies: Vec<String>,
}

/// A declared model: everything policy evaluation needs.
#[derive(Debug, Clone, PartialEq, Eq, Hash)]
pub struct DeclaredModel {
    pub model: ModelDeclaration,
    pub actors: Vec<ActorDeclaration>,
    pub referents: Vec<ReferentDeclaration>,
    pub boundaries: Vec<BoundaryDeclaration>,
    pub edges: Vec<EdgeDeclaration>,
    pub scopes: Vec<TypedScopeDeclaration>,
    pub requirements: Vec<RequirementDeclaration>,
    pub policies: Vec<PolicyDeclaration>,
    pub canonical_paths: CanonicalPaths,
}

} // verus!
