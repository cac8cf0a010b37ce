//! The policy documents that authors write: an envelope of api version, kind,
//! metadata, a kind-specific scope and requirements, and optional explicit
//! declarations.
use vstd::prelude::*;

verus! {

/// The schema version of a policy document.
#[derive(Debug, Clone, Copy, PartialEq, Eq, Hash, Structural)]
pub enum ApiVersion {
    V1Alpha1,
}

/// The kinds of policy document.
#[derive(Debug, Clone, Copy, PartialEq, Eq, Hash, Structural)]
pub enum PolicyKind {
    ScopePolicy,
    PhaseSeparationPolicy,
    EdgeBudgetPolicy,
    PortProfilePolicy,
    TransportRoutesPolicy,
}

/// The name and semantic version of a policy.
#[derive(Debug, Clone, PartialEq, Eq)]
pub struct PolicyMetadata {
    pub name: String,
    pub version: String,
}

/// A policy document with its scope of type `S` and requirements of type `R`.
#[derive(Debug, Clone, PartialEq, Eq)]
pub struct PolicyEnvelope<S, R> {
    pub api_version: ApiVersion,
    pub kind: PolicyKind,
    pub metadata: PolicyMetadata,
    pub scope: S,
    pub requirements: Vec<R>,
    pub declarations: PolicyDeclarations,
}

/// Referents and edges that a policy declares explicitly.
#[derive(Debug, Clone, PartialEq, Eq)]
pub struct PolicyDeclarations {
    pub referents: Vec<ReferentDeclaration>,
    pub edges: Vec<EdgeDeclaration>,
}

impl Default for PolicyDeclarations {
    /// No referents and no edges.
    fn default() -> (r: Self)
        ensures
            r.referents@.len() == 0,
            r.edges@.len() == 0,
    {
        PolicyDeclarations { referents: Vec::new(), edges: Vec::new() }
    }
}

/// An explicitly declared referent.
#[derive(Debug, Clone, PartialEq, Eq)]
pub struct ReferentDeclaration {
    pub name: String,
    pub sort: u16,
}

/// An explicitly declared edge between two referents.
#[derive(Debug, Clone, PartialEq, Eq)]
pub struct EdgeDeclaration {
    pub name: String,
    pub sort: u16,
    pub direction: EdgeDirection,
    pub first: String,
    pub second: String,
}

#[derive(Debug, Clone, Copy, PartialEq, Eq, Hash, Structural)]
pub enum EdgeDirection {
    Directed,
    Undirected,
}

#[derive(Debug, Clone, PartialEq, Eq, Structural)]
pub struct ScopePolicyScope {
    pub target: ScopeTarget,
}

#[derive(Debug, Clone, Copy, PartialEq, Eq, Hash, Structural)]
pub enum ScopeTarget {
    Workspace,
    Package,
    Artifact,
}

#[derive(Debug, Clone, PartialEq, Eq, Structural)]
pub struct ScopePolicyRequirement {
    pub selector: ScopeSelector,
    pub constraint: ScopeConstraint,
}

#[derive(Debug, Clone, Copy, PartialEq, Eq, Hash, Structural)]
pub enum ScopeSelector {
    Source,
    Build,
    Runtime,
}

#[derive(Debug, Clone, Copy, PartialEq, Eq, Hash, Structural)]
pub enum ScopeConstraint {
    InScope,
    OutOfScope,
}

#[derive(Debug, Clone, PartialEq, Eq, Structural)]
pub struct PhaseSeparationPolicyScope {
    pub lifecycle: PhaseLifecycle,
}

#[derive(Debug, Clone, Copy, PartialEq, Eq, Hash, Structural)]
pub enum PhaseLifecycle {
    BuildRuntime,
    RuntimeOperations,
}

#[derive(Debug, Clone, PartialEq, Eq, Structural)]
pub struct PhaseSeparationRequirement {
    pub producer: PhaseName,
    pub consumer: PhaseName,
    pub relation: PhaseRelation,
}

#[derive(Debug, Clone, Copy, PartialEq, Eq, Hash, Structural)]
pub enum PhaseName {
    Build,
    Sign,
    Release,
    Runtime,
}

#[derive(Debug, Clone, Copy, PartialEq, Eq, Hash, Structural)]
pub enum PhaseRelation {
    Isolated,
    ReadOnlyHandoff,
}

#[derive(Debug, Clone, PartialEq, Eq, Structural)]
pub struct EdgeBudgetPolicyScope {
    pub graph: GraphKind,
}

#[derive(Debug, Clone, Copy, PartialEq, Eq, Hash, Structural)]
pub enum GraphKind {
    Dependency,
    RuntimeCall,
}

#[derive(Debug, Clone, PartialEq, Eq, Structural)]
pub struct EdgeBudgetRequirement {
    pub source: NodeClass,
    pub target: NodeClass,
    pub max_edges: u32,
}

#[derive(Debug, Clone, Copy, PartialEq, Eq, Hash, Structural)]
pub enum NodeClass {
    Service,
    Package,
    RuntimeComponent,
}

#[derive(Debug, Clone, PartialEq, Eq, Structural)]
pub struct PortProfilePolicyScope {
    pub environment: PortEnvironment,
}

#[derive(Debug, Clone, Copy, PartialEq, Eq, Hash, Structural)]
pub enum PortEnvironment {
    Development,
    Staging,
    Production,
}

#[derive(Debug, Clone, PartialEq, Eq, Structural)]
pub struct PortProfileRequirement {
    pub profile: PortProfile,
    pub transport: TransportProtocol,
    pub port: u16,
    pub exposure: PortExposure,
}

#[derive(Debug, Clone, Copy, PartialEq, Eq, Hash, Structural)]
pub enum PortProfile {
    ControlPlane,
    DataPlane,
    Metrics,
}

#[derive(Debug, Clone, Copy, PartialEq, Eq, Hash, Structural)]
pub enum PortExposure {
    Internal,
    External,
}

#[derive(Debug, Clone, PartialEq, Eq, Structural)]
pub struct TransportRoutesPolicyScope {
    pub topology: RouteTopology,
}

#[derive(Debug, Clone, Copy, PartialEq, Eq, Hash, Structural)]
pub enum RouteTopology {
    Cluster,
    Mesh,
}

#[derive(Debug, Clone, PartialEq, Eq, Structural)]
pub struct TransportRouteRequirement {
    pub from: RouteEndpoint,
    pub to: RouteEndpoint,
    pub transport: TransportProtocol,
    pub action: RouteAction,
}

#[derive(Debug, Clone, Copy, PartialEq, Eq, Hash, Structural)]
pub enum RouteEndpoint {
    Runtime,
    ControlPlane,
    AuditSink,
}

#[derive(Debug, Clone, Copy, PartialEq, Eq, Hash, Structural)]
pub enum TransportProtocol {
    Tcp,
    Udp,
    Http,
    Https,
    Grpc,
}

#[derive(Debug, Clone, Copy, PartialEq, Eq, Hash, Structural)]
pub enum RouteAction {
    Allow,
    Deny,
}

pub type ScopePolicyDocument = PolicyEnvelope<ScopePolicyScope, ScopePolicyRequirement>;

pub type PhaseSeparationPolicyDocument = PolicyEnvelope<
    PhaseSeparationPolicyScope,
    PhaseSeparationRequirement,
>;

pub type EdgeBudgetPolicyDocument = PolicyEnvelope<EdgeBudgetPolicyScope, EdgeBudgetRequirement>;

pub type PortProfilePolicyDocument = PolicyEnvelope<PortProfilePolicyScope, PortProfileRequirement>;

pub type TransportRoutesPolicyDocument = PolicyEnvelope<
    TransportRoutesPolicyScope,
    TransportRouteRequirement,
>;

/// A policy document of any supported kind.
#[derive(Debug, Clone, PartialEq, Eq)]
pub enum PolicyDocument {
    ScopePolicy(ScopePolicyDocument),
    PhaseSeparationPolicy(PhaseSeparationPolicyDocument),
    EdgeBudgetPolicy(EdgeBudgetPolicyDocument),
    PortProfilePolicy(PortProfilePolicyDocument),
    TransportRoutesPolicy(TransportRoutesPolicyDocument),
}

/// The kind that each variant of a document stands for.
pub open spec fn variant_kind(d: PolicyDocument) -> PolicyKind {
    match d {
        PolicyDocument::ScopePolicy(_) => PolicyKind::ScopePolicy,
        PolicyDocument::PhaseSeparationPolicy(_) => PolicyKind::PhaseSeparationPolicy,
        PolicyDocument::EdgeBudgetPolicy(_) => PolicyKind::EdgeBudgetPolicy,
        PolicyDocument::PortProfilePolicy(_) => PolicyKind::PortProfilePolicy,
        PolicyDocument::TransportRoutesPolicy(_) => PolicyKind::TransportRoutesPolicy,
    }
}

impl PolicyDocument {
    /// The kind of the variant, whatever the envelope's own `kind` field says.
    pub fn kind(&self) -> (r: PolicyKind)
        ensures
            r == variant_kind(*self),
    {
        match self {
            PolicyDocument::ScopePolicy(_) => PolicyKind::ScopePolicy,
            PolicyDocument::PhaseSeparationPolicy(_) => PolicyKind::PhaseSeparationPolicy,
            PolicyDocument::EdgeBudgetPolicy(_) => PolicyKind::EdgeBudgetPolicy,
            PolicyDocument::PortProfilePolicy(_) => PolicyKind::PortProfilePolicy,
            PolicyDocument::TransportRoutesPolicy(_) => PolicyKind::TransportRoutesPolicy,
        }
    }
}

/// Why a policy document could not be read.
#[derive(Debug, Clone, PartialEq, Eq)]
pub enum PolicySchemaError {
    YamlParse(String),
}

} // verus!
