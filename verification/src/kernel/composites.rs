//! Composite values built from the core vocabulary.
use vstd::prelude::*;

use crate::kernel::enums::{
    Capability, CredentialStrength, FailMode, GateVerdict, IdentityKind, LayerHardness,
    PolicyStatus,
};
use crate::kernel::error::GuardError;
use crate::kernel::id::{GateId, IdentityId, PolicyId, RouteId};
use crate::kernel::scalars::{
    ByteSize, GlobPattern, MediaType, NonEmptyString, NonEmptyVec, SemVer, UtcTimestamp,
};
use crate::kernel::structs::{
    Boundary, Credential, Gate, Identity, Layer, Route, Scope, Surface, Trust, Zone,
};

verus! {

/// How strongly an artifact's integrity must be established.
#[derive(Debug, Copy, Clone, PartialEq, Eq, PartialOrd, Ord, Hash, Structural)]
pub enum IntegrityRequirement {
    /// No integrity evidence is required.
    Unverified,
    /// A content hash must match.
    Hash,
    /// A content hash must match and a signature over it must verify.
    HashAndSignature,
}

/// Payload contract of a route.
#[derive(Debug, Clone, PartialEq, Eq, Hash)]
pub struct ArtifactContract {
    /// Media types an artifact may have.
    pub allowed_media_types: NonEmptyVec<MediaType>,
    /// Content patterns an artifact must not hold.
    pub forbidden_patterns: Vec<GlobPattern>,
    /// Integrity evidence required.
    pub integrity: IntegrityRequirement,
    /// Largest admitted artifact.
    pub max_size: Option<ByteSize>,
}

impl ArtifactContract {
    pub fn new(
        allowed_media_types: NonEmptyVec<MediaType>,
        forbidden_patterns: Vec<GlobPattern>,
        integrity: IntegrityRequirement,
        max_size: Option<ByteSize>,
    ) -> (r: Self)
        ensures
            r == (ArtifactContract { allowed_media_types, forbidden_patterns, integrity, max_size }),
    {
        ArtifactContract { allowed_media_types, forbidden_patterns, integrity, max_size }
    }

    /// Builds a contract from the two integrity flags: a signature can only
    /// be required on top of a hash.
    pub fn from_flags(
        allowed_media_types: NonEmptyVec<MediaType>,
        forbidden_patterns: Vec<GlobPattern>,
        require_hash: bool,
        require_signature: bool,
        max_size: Option<ByteSize>,
    ) -> (r: Result<Self, GuardError>)
        ensures
            require_signature && !require_hash ==> r == Err::<Self, _>(
                GuardError::Invariant { field: "artifact_contract.signature_requires_hash" },
            ),
            !(require_signature && !require_hash) ==> r == Ok::<Self, GuardError>(
                ArtifactContract {
                    allowed_media_types,
                    forbidden_patterns,
                    integrity: if require_signature {
                        IntegrityRequirement::HashAndSignature
                    } else if require_hash {
                        IntegrityRequirement::Hash
                    } else {
                        IntegrityRequirement::Unverified
                    },
                    max_size,
                },
            ),
    {
        if require_signature && !require_hash {
            return Err(GuardError::Invariant { field: "artifact_contract.signature_requires_hash" });
        }
        let integrity = if require_signature {
            IntegrityRequirement::HashAndSignature
        } else if require_hash {
            IntegrityRequirement::Hash
        } else {
            IntegrityRequirement::Unverified
        };
        Ok(ArtifactContract { allowed_media_types, forbidden_patterns, integrity, max_size })
    }
}

/// Trust an identity must hold to pass a route.
#[derive(Debug, Clone, PartialEq, Eq, Hash)]
pub struct TrustRequirement {
    pub role: IdentityKind,
    pub minimum_credential: CredentialStrength,
    pub required_capabilities: NonEmptyVec<Capability>,
}

/// A boundary with its protection layers and its two faces, A then B.
#[derive(Debug, Clone, PartialEq, Eq, Hash)]
pub struct BoundarySpec {
    pub boundary: Boundary,
    pub layers: Vec<Layer>,
    pub surfaces: [Surface; 2],
}

/// The hardest hardness among the enforced layers, if any layer is enforced.
pub open spec fn strongest_enforced(layers: Seq<Layer>) -> Option<LayerHardness>
    decreases layers.len(),
{
    if layers.len() == 0 {
        None
    } else {
        let rest = strongest_enforced(layers.drop_last());
        let last = layers.last();
        if !last.enforced {
            rest
        } else {
            match rest {
                Some(h) if h.rank() >= last.hardness.rank() => Some(h),
                _ => Some(last.hardness),
            }
        }
    }
}

/// Whether some enforced layer fails closed.
pub open spec fn some_enforced_fails_closed(layers: Seq<Layer>) -> bool {
    exists|i: int| 0 <= i < layers.len() && #[trigger] layers[i].enforced && layers[i].fail_mode is FailClosed
}

impl BoundarySpec {
    pub fn new(boundary: Boundary, layers: Vec<Layer>, surfaces: [Surface; 2]) -> (r: Self)
        ensures
            r == (BoundarySpec { boundary, layers, surfaces }),
    {
        BoundarySpec { boundary, layers, surfaces }
    }

    /// The boundary's effective hardness: crossing it means defeating every
    /// enforced layer, so it is the hardest enforced layer; `None` when no
    /// layer is enforced.
    pub fn effective_hardness(&self) -> (r: Option<LayerHardness>)
        ensures
            r == strongest_enforced(self.layers@),
    {
        let mut best: Option<LayerHardness> = None;
        let mut i: usize = 0;
        while i < self.layers.len()
            invariant
                i <= self.layers@.len(),
                best == strongest_enforced(self.layers@.take(i as int)),
            decreases self.layers@.len() - i,
        {
            let layer = &self.layers[i];
            proof {
                assert(self.layers@.take(i + 1).drop_last() =~= self.layers@.take(i as int));
            }
            if layer.enforced {
                best = match best {
                    Some(h) if h.level() >= layer.hardness.level() => Some(h),
                    _ => Some(layer.hardness),
                };
            }
            i = i + 1;
        }
        assert(self.layers@.take(self.layers@.len() as int) =~= self.layers@);
        best
    }

    /// The boundary's effective failure behaviour: it fails closed when some
    /// enforced layer does, and open otherwise.
    pub fn effective_fail_mode(&self) -> (r: FailMode)
        ensures
            r == (if some_enforced_fails_closed(self.layers@) {
                FailMode::FailClosed
            } else {
                FailMode::FailOpen
            }),
    {
        let mut i: usize = 0;
        while i < self.layers.len()
            invariant
                i <= self.layers@.len(),
                forall|k: int| 0 <= k < i ==> !(#[trigger] self.layers@[k].enforced
                    && self.layers@[k].fail_mode is FailClosed),
            decreases self.layers@.len() - i,
        {
            if self.layers[i].enforced && self.layers[i].fail_mode == FailMode::FailClosed {
                return FailMode::FailClosed;
            }
            i = i + 1;
        }
        FailMode::FailOpen
    }
}

/// Route policy: the contract, ordered gates and trust a route demands.
#[derive(Debug, Clone, PartialEq, Eq, Hash)]
pub struct Policy {
    pub id: PolicyId,
    pub route_id: RouteId,
    pub contract: ArtifactContract,
    pub gates: NonEmptyVec<Gate>,
    pub required_trust: NonEmptyVec<TrustRequirement>,
    pub status: PolicyStatus,
    pub version: SemVer,
    pub declared_at: UtcTimestamp,
    pub declared_by: IdentityId,
}

/// The whole concrete security model.
#[derive(Debug, Clone, PartialEq, Eq, Hash)]
pub struct SecurityModel {
    pub model_version: SemVer,
    pub zones: Vec<Zone>,
    pub boundary_specs: Vec<BoundarySpec>,
    pub routes: Vec<Route>,
    pub policies: Vec<Policy>,
    pub identities: Vec<Identity>,
    pub scopes: Vec<Scope>,
    pub credentials: Vec<Credential>,
    pub trusts: Vec<Trust>,
}

/// The decision a gate reached, with the reason for a denial.
#[derive(Debug, Clone, PartialEq, Eq, Hash)]
pub struct GateEvaluation {
    pub gate_id: GateId,
    pub verdict: GateVerdict,
    pub reason: Option<NonEmptyString>,
    pub evaluated_at: UtcTimestamp,
}

/// An access decision: refused before any gate ran, or a gate's evaluation.
#[derive(Debug, Clone, PartialEq, Eq, Hash)]
pub enum AccessDecision {
    PreGateDenial(NonEmptyString),
    GateEvaluation(GateEvaluation),
}

/// A delegation chain from a bootstrap root grant, through links, to a leaf.
#[derive(Debug, Clone, PartialEq, Eq, Hash)]
pub struct TrustChain {
    pub root: Trust,
    pub links: Vec<Trust>,
    pub leaf: Trust,
    pub chain_valid: bool,
}

} // verus!
