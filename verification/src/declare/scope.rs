//! What kind of evidence a scope declaration constrains, and on what object.
use vstd::prelude::*;

use crate::declare::name::DeclarationName;

verus! {

/// Real-world observation shape a declaration is intended to constrain.
#[derive(Debug, Copy, Clone, PartialEq, Eq, PartialOrd, Ord, Hash, Structural)]
#[non_exhaustive]
pub enum ScopeKind {
    /// Filesystem roots, mounts, paths, ACLs, and write/read/execute reach.
    Filesystem,
    /// Listeners, egress destinations, bind surfaces, and protocol reach.
    Network,
    /// Process launch, inspect, signal, sandbox, and privilege surfaces.
    Process,
    /// Credential storage, signing material custody, and authentication proof.
    CredentialCustody,
    /// Movement of artifacts or data across a declared route.
    ArtifactFlow,
    /// Audit log production, read visibility, and chain verification.
    AuditStream,
    /// Boundary-facing exposure such as visible paths, listeners, and caps.
    BoundarySurface,
}

/// Declaration object a scope requirement applies to.
#[derive(Debug, Clone, PartialEq, Eq, PartialOrd, Ord, Hash)]
pub enum ScopeTarget {
    /// Requirement applies inside a declared zone.
    Zone(DeclarationName),
    /// Requirement applies to one declared boundary.
    Boundary(DeclarationName),
    /// Requirement applies to one declared route.
    Route(DeclarationName),
}

/// Artifact flow is about routes, boundary surface about boundaries, and
/// every other kind about zones.
pub open spec fn kind_accepts(kind: ScopeKind, target: ScopeTarget) -> bool {
    match kind {
        ScopeKind::ArtifactFlow => target is Route,
        ScopeKind::BoundarySurface => target is Boundary,
        _ => target is Zone,
    }
}

impl ScopeKind {
    /// Returns true when this scope kind is meaningful for the target kind.
    pub fn accepts_target(self, target: &ScopeTarget) -> (r: bool)
        ensures
            r == kind_accepts(self, *target),
    {
        match self {
            ScopeKind::Filesystem | ScopeKind::Network | ScopeKind::Process
            | ScopeKind::CredentialCustody | ScopeKind::AuditStream => matches!(
                target,
                ScopeTarget::Zone(_)
            ),
            ScopeKind::ArtifactFlow => matches!(target, ScopeTarget::Route(_)),
            ScopeKind::BoundarySurface => matches!(target, ScopeTarget::Boundary(_)),
        }
    }
}

} // verus!
