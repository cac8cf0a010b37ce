//! The declared-model specification as read from a document, with symbolic
//! names in place of identifiers.
use vstd::prelude::*;

use crate::declare::name::SymbolicName;
use crate::kernel::declared::{Direction, RequirementOperator};

verus! {

#[derive(Debug, Clone, PartialEq, Eq)]
pub struct DeclaredSpec {
    pub schema_version: SymbolicName,
    pub model: ModelSpec,
    pub actors: Vec<ActorSpec>,
    pub referents: Vec<ReferentSpec>,
    pub boundaries: Vec<BoundarySpec>,
    pub edges: Vec<EdgeSpec>,
    pub scopes: Vec<ScopeSpec>,
    pub requirements: Vec<RequirementSpec>,
    pub policies: Vec<PolicySpec>,
}

#[derive(Debug, Clone, PartialEq, Eq)]
pub struct ModelSpec {
    pub name: SymbolicName,
    pub version: VersionSpec,
    pub declared_at_unix_seconds: u64,
    pub declared_by: SymbolicName,
}

#[derive(Debug, Clone, Copy, PartialEq, Eq)]
pub struct VersionSpec {
    pub major: u16,
    pub minor: u16,
    pub patch: u16,
}

#[derive(Debug, Clone, PartialEq, Eq)]
pub struct ActorSpec {
    pub name: SymbolicName,
    pub role: SymbolicName,
}

#[derive(Debug, Clone, PartialEq, Eq)]
pub struct ReferentSpec {
    pub name: SymbolicName,
    pub sort: u16,
}

#[derive(Debug, Clone, PartialEq, Eq)]
pub struct BoundarySpec {
    pub name: SymbolicName,
    pub side_a_anchor: SymbolicName,
    pub side_b_anchor: SymbolicName,
}

#[derive(Debug, Clone, PartialEq, Eq)]
pub struct EdgeSpec {
    pub name: SymbolicName,
    pub sort: u16,
    pub direction: Direction,
    pub first: SymbolicName,
    pub second: SymbolicName,
}

#[derive(Debug, Clone, PartialEq, Eq)]
pub struct ScopeSpec {
    pub name: SymbolicName,
    pub referent_sort: u16,
    pub snapshot_unix_seconds: u64,
    pub namespace: SymbolicName,
    pub mapper_version: VersionSpec,
    pub predicate: ScopePredicateSpec,
}

#[derive(Debug, Clone, PartialEq, Eq)]
pub enum ScopePredicateSpec {
    All,
    HasTag(SymbolicName),
    NameEquals(SymbolicName),
}

#[derive(Debug, Clone, PartialEq, Eq)]
pub struct RequirementSpec {
    pub name: SymbolicName,
    pub sort: u16,
    pub operator: RequirementOperator,
    pub value: RequirementValueSpec,
}

#[derive(Debug, Clone, PartialEq, Eq)]
pub enum RequirementValueSpec {
    Bool(bool),
    U64(u64),
    Name(SymbolicName),
    Names(Vec<SymbolicName>),
    DurationSeconds(u64),
}

#[derive(Debug, Clone, PartialEq, Eq)]
pub struct PolicySpec {
    pub name: SymbolicName,
    pub declared_by: SymbolicName,
    pub scope: SymbolicName,
    pub requirement: SymbolicName,
}

/// A scope predicate by the texts it names.
pub enum PredicateView {
    All,
    HasTag(Seq<char>),
    NameEquals(Seq<char>),
}

impl View for ScopePredicateSpec {
    type V = PredicateView;

    open spec fn view(&self) -> PredicateView {
        match self {
            ScopePredicateSpec::All => PredicateView::All,
            ScopePredicateSpec::HasTag(n) => PredicateView::HasTag(n@),
            ScopePredicateSpec::NameEquals(n) => PredicateView::NameEquals(n@),
        }
    }
}

/// A requirement value by the texts it names.
pub enum ValueView {
    Bool(bool),
    U64(u64),
    Name(Seq<char>),
    Names(Seq<Seq<char>>),
    DurationSeconds(u64),
}

/// The texts of a list of names.
pub open spec fn names_view(v: Seq<SymbolicName>) -> Seq<Seq<char>> {
    v.map_values(|n: SymbolicName| n@)
}

impl View for RequirementValueSpec {
    type V = ValueView;

    open spec fn view(&self) -> ValueView {
        match self {
            RequirementValueSpec::Bool(b) => ValueView::Bool(*b),
            RequirementValueSpec::U64(n) => ValueView::U64(*n),
            RequirementValueSpec::Name(n) => ValueView::Name(n@),
            RequirementValueSpec::Names(v) => ValueView::Names(names_view(v@)),
            RequirementValueSpec::DurationSeconds(n) => ValueView::DurationSeconds(*n),
        }
    }
}

impl View for ScopeSpec {
    type V = (Seq<char>, u16, u64, Seq<char>, VersionSpec, PredicateView);

    open spec fn view(&self) -> Self::V {
        (
            self.name@,
            self.referent_sort,
            self.snapshot_unix_seconds,
            self.namespace@,
            self.mapper_version,
            self.predicate@,
        )
    }
}

impl View for RequirementSpec {
    type V = (Seq<char>, u16, RequirementOperator, ValueView);

    open spec fn view(&self) -> Self::V {
        (self.name@, self.sort, self.operator, self.value@)
    }
}

impl View for PolicySpec {
    type V = (Seq<char>, Seq<char>, Seq<char>, Seq<char>);

    open spec fn view(&self) -> Self::V {
        (self.name@, self.declared_by@, self.scope@, self.requirement@)
    }
}

impl View for ReferentSpec {
    type V = (Seq<char>, u16);

    open spec fn view(&self) -> Self::V {
        (self.name@, self.sort)
    }
}

impl View for EdgeSpec {
    type V = (Seq<char>, u16, Direction, Seq<char>, Seq<char>);

    open spec fn view(&self) -> Self::V {
        (self.name@, self.sort, self.direction, self.first@, self.second@)
    }
}

} // verus!
