//! Opaque 128-bit identifiers of model objects.
use vstd::prelude::*;

verus! {

broadcast use vstd::array::group_array_axioms;

/// Byte-wise equality of two identifier payloads.
pub fn same_bytes(a: &[u8; 16], b: &[u8; 16]) -> (r: bool)
    ensures
        r == (*a == *b),
{
    let mut i: usize = 0;
    while i < 16
        invariant
            i <= 16,
            forall|k: int| 0 <= k < i ==> a[k] == b[k],
        decreases 16 - i,
    {
        if a[i] != b[i] {
            return false;
        }
        i = i + 1;
    }
    assert(*a =~= *b);
    true
}

/// Byte-wise lexicographic order of two identifier payloads.
pub open spec fn bytes_lt(a: [u8; 16], b: [u8; 16]) -> bool {
    exists|i: int|
        0 <= i < 16 && a[i] < b[i] && forall|k: int| 0 <= k < i ==> #[trigger] a[k] == b[k]
}

/// Strict byte-wise lexicographic comparison of two identifier payloads.
pub fn bytes_less(a: &[u8; 16], b: &[u8; 16]) -> (r: bool)
    ensures
        r == bytes_lt(*a, *b),
{
    let mut i: usize = 0;
    while i < 16
        invariant
            i <= 16,
            forall|k: int| 0 <= k < i ==> a[k] == b[k],
        decreases 16 - i,
    {
        if a[i] != b[i] {
            if a[i] < b[i] {
                assert(bytes_lt(*a, *b));
                return true;
            }
            assert(!bytes_lt(*a, *b)) by {
                if bytes_lt(*a, *b) {
                    let j = choose|j: int|
                        0 <= j < 16 && a[j] < b[j] && forall|k: int|
                            0 <= k < j ==> #[trigger] a[k] == b[k];
                    if j > i {
                        assert(a[i as int] == b[i as int]);
                    }
                }
            }
            return false;
        }
        i = i + 1;
    }
    assert(!bytes_lt(*a, *b)) by {
        if bytes_lt(*a, *b) {
            let j = choose|j: int|
                0 <= j < 16 && a[j] < b[j] && forall|k: int| 0 <= k < j ==> #[trigger] a[k] == b[k];
            assert(a[j] == b[j]);
        }
    }
    false
}

/// Opaque identifier of one model object.
#[derive(Debug, Clone, Copy, PartialEq, Eq, PartialOrd, Ord, Hash)]
pub struct ModelId(pub [u8; 16]);

impl ModelId {
    pub fn from_bytes(bytes: [u8; 16]) -> (r: Self)
        ensures
            r.0 == bytes,
    {
        ModelId(bytes)
    }

    pub fn as_bytes(self) -> (r: [u8; 16])
        ensures
            r == self.0,
    {
        self.0
    }

    /// Identity of two identifiers.
    pub fn same(&self, other: &Self) -> (r: bool)
        ensures
            r == (*self == *other),
    {
        same_bytes(&self.0, &other.0)
    }
}

/// Opaque identifier of one model object.
#[derive(Debug, Clone, Copy, PartialEq, Eq, PartialOrd, Ord, Hash)]
pub struct ActorId(pub [u8; 16]);

impl ActorId {
    pub fn from_bytes(bytes: [u8; 16]) -> (r: Self)
        ensures
            r.0 == bytes,
    {
        ActorId(bytes)
    }

    pub fn as_bytes(self) -> (r: [u8; 16])
        ensures
            r == self.0,
    {
        self.0
    }

    /// Identity of two identifiers.
    pub fn same(&self, other: &Self) -> (r: bool)
        ensures
            r == (*self == *other),
    {
        same_bytes(&self.0, &other.0)
    }
}

/// Opaque identifier of one model object.
#[derive(Debug, Clone, Copy, PartialEq, Eq, PartialOrd, Ord, Hash)]
pub struct ReferentId(pub [u8; 16]);

impl ReferentId {
    pub fn from_bytes(bytes: [u8; 16]) -> (r: Self)
        ensures
            r.0 == bytes,
    {
        ReferentId(bytes)
    }

    pub fn as_bytes(self) -> (r: [u8; 16])
        ensures
            r == self.0,
    {
        self.0
    }

    /// Identity of two identifiers.
    pub fn same(&self, other: &Self) -> (r: bool)
        ensures
            r == (*self == *other),
    {
        same_bytes(&self.0, &other.0)
    }
}

/// Opaque identifier of one model object.
#[derive(Debug, Clone, Copy, PartialEq, Eq, PartialOrd, Ord, Hash)]
pub struct BoundaryId(pub [u8; 16]);

impl BoundaryId {
    pub fn from_bytes(bytes: [u8; 16]) -> (r: Self)
        ensures
            r.0 == bytes,
    {
        BoundaryId(bytes)
    }

    pub fn as_bytes(self) -> (r: [u8; 16])
        ensures
            r == self.0,
    {
        self.0
    }

    /// Identity of two identifiers.
    pub fn same(&self, other: &Self) -> (r: bool)
        ensures
            r == (*self == *other),
    {
        same_bytes(&self.0, &other.0)
    }
}

/// Opaque identifier of one model object.
#[derive(Debug, Clone, Copy, PartialEq, Eq, PartialOrd, Ord, Hash)]
pub struct SideId(pub [u8; 16]);

impl SideId {
    pub fn from_bytes(bytes: [u8; 16]) -> (r: Self)
        ensures
            r.0 == bytes,
    {
        SideId(bytes)
    }

    pub fn as_bytes(self) -> (r: [u8; 16])
        ensures
            r == self.0,
    {
        self.0
    }

    /// Identity of two identifiers.
    pub fn same(&self, other: &Self) -> (r: bool)
        ensures
            r == (*self == *other),
    {
        same_bytes(&self.0, &other.0)
    }
}

/// Opaque identifier of one model object.
#[derive(Debug, Clone, Copy, PartialEq, Eq, PartialOrd, Ord, Hash)]
pub struct SurfaceId(pub [u8; 16]);

impl SurfaceId {
    pub fn from_bytes(bytes: [u8; 16]) -> (r: Self)
        ensures
            r.0 == bytes,
    {
        SurfaceId(bytes)
    }

    pub fn as_bytes(self) -> (r: [u8; 16])
        ensures
            r == self.0,
    {
        self.0
    }

    /// Identity of two identifiers.
    pub fn same(&self, other: &Self) -> (r: bool)
        ensures
            r == (*self == *other),
    {
        same_bytes(&self.0, &other.0)
    }
}

/// Opaque identifier of one model object.
#[derive(Debug, Clone, Copy, PartialEq, Eq, PartialOrd, Ord, Hash)]
pub struct EdgeId(pub [u8; 16]);

impl EdgeId {
    pub fn from_bytes(bytes: [u8; 16]) -> (r: Self)
        ensures
            r.0 == bytes,
    {
        EdgeId(bytes)
    }

    pub fn as_bytes(self) -> (r: [u8; 16])
        ensures
            r == self.0,
    {
        self.0
    }

    /// Identity of two identifiers.
    pub fn same(&self, other: &Self) -> (r: bool)
        ensures
            r == (*self == *other),
    {
        same_bytes(&self.0, &other.0)
    }
}

/// Opaque identifier of one model object.
#[derive(Debug, Clone, Copy, PartialEq, Eq, PartialOrd, Ord, Hash)]
pub struct ScopeId(pub [u8; 16]);

impl ScopeId {
    pub fn from_bytes(bytes: [u8; 16]) -> (r: Self)
        ensures
            r.0 == bytes,
    {
        ScopeId(bytes)
    }

    pub fn as_bytes(self) -> (r: [u8; 16])
        ensures
            r == self.0,
    {
        self.0
    }

    /// Identity of two identifiers.
    pub fn same(&self, other: &Self) -> (r: bool)
        ensures
            r == (*self == *other),
    {
        same_bytes(&self.0, &other.0)
    }
}

/// Opaque identifier of one model object.
#[derive(Debug, Clone, Copy, PartialEq, Eq, PartialOrd, Ord, Hash)]
pub struct RequirementId(pub [u8; 16]);

impl RequirementId {
    pub fn from_bytes(bytes: [u8; 16]) -> (r: Self)
        ensures
            r.0 == bytes,
    {
        RequirementId(bytes)
    }

    pub fn as_bytes(self) -> (r: [u8; 16])
        ensures
            r == self.0,
    {
        self.0
    }

    /// Identity of two identifiers.
    pub fn same(&self, other: &Self) -> (r: bool)
        ensures
            r == (*self == *other),
    {
        same_bytes(&self.0, &other.0)
    }
}

/// Opaque identifier of one model object.
#[derive(Debug, Clone, Copy, PartialEq, Eq, PartialOrd, Ord, Hash)]
pub struct PolicyId(pub [u8; 16]);

impl PolicyId {
    pub fn from_bytes(bytes: [u8; 16]) -> (r: Self)
        ensures
            r.0 == bytes,
    {
        PolicyId(bytes)
    }

    pub fn as_bytes(self) -> (r: [u8; 16])
        ensures
            r == self.0,
    {
        self.0
    }

    /// Identity of two identifiers.
    pub fn same(&self, other: &Self) -> (r: bool)
        ensures
            r == (*self == *other),
    {
        same_bytes(&self.0, &other.0)
    }
}

/// Opaque identifier of one model object.
#[derive(Debug, Clone, Copy, PartialEq, Eq, PartialOrd, Ord, Hash)]
pub struct ClaimId(pub [u8; 16]);

impl ClaimId {
    pub fn from_bytes(bytes: [u8; 16]) -> (r: Self)
        ensures
            r.0 == bytes,
    {
        ClaimId(bytes)
    }

    pub fn as_bytes(self) -> (r: [u8; 16])
        ensures
            r == self.0,
    {
        self.0
    }

    /// Identity of two identifiers.
    pub fn same(&self, other: &Self) -> (r: bool)
        ensures
            r == (*self == *other),
    {
        same_bytes(&self.0, &other.0)
    }
}

/// Opaque identifier of one model object.
#[derive(Debug, Clone, Copy, PartialEq, Eq, PartialOrd, Ord, Hash)]
pub struct EvidenceId(pub [u8; 16]);

impl EvidenceId {
    pub fn from_bytes(bytes: [u8; 16]) -> (r: Self)
        ensures
            r.0 == bytes,
    {
        EvidenceId(bytes)
    }

    pub fn as_bytes(self) -> (r: [u8; 16])
        ensures
            r == self.0,
    {
        self.0
    }

    /// Identity of two identifiers.
    pub fn same(&self, other: &Self) -> (r: bool)
        ensures
            r == (*self == *other),
    {
        same_bytes(&self.0, &other.0)
    }
}

/// Opaque identifier of one model object.
#[derive(Debug, Clone, Copy, PartialEq, Eq, PartialOrd, Ord, Hash)]
pub struct SourceId(pub [u8; 16]);

impl SourceId {
    pub fn from_bytes(bytes: [u8; 16]) -> (r: Self)
        ensures
            r.0 == bytes,
    {
        SourceId(bytes)
    }

    pub fn as_bytes(self) -> (r: [u8; 16])
        ensures
            r == self.0,
    {
        self.0
    }

    /// Identity of two identifiers.
    pub fn same(&self, other: &Self) -> (r: bool)
        ensures
            r == (*self == *other),
    {
        same_bytes(&self.0, &other.0)
    }
}

/// Opaque identifier of one model object.
#[derive(Debug, Clone, Copy, PartialEq, Eq, PartialOrd, Ord, Hash)]
pub struct EvaluationId(pub [u8; 16]);

impl EvaluationId {
    pub fn from_bytes(bytes: [u8; 16]) -> (r: Self)
        ensures
            r.0 == bytes,
    {
        EvaluationId(bytes)
    }

    pub fn as_bytes(self) -> (r: [u8; 16])
        ensures
            r == self.0,
    {
        self.0
    }

    /// Identity of two identifiers.
    pub fn same(&self, other: &Self) -> (r: bool)
        ensures
            r == (*self == *other),
    {
        same_bytes(&self.0, &other.0)
    }
}

/// Opaque identifier of one model object.
#[derive(Debug, Clone, Copy, PartialEq, Eq, PartialOrd, Ord, Hash)]
pub struct RevisionId(pub [u8; 16]);

impl RevisionId {
    pub fn from_bytes(bytes: [u8; 16]) -> (r: Self)
        ensures
            r.0 == bytes,
    {
        RevisionId(bytes)
    }

    pub fn as_bytes(self) -> (r: [u8; 16])
        ensures
            r == self.0,
    {
        self.0
    }

    /// Identity of two identifiers.
    pub fn same(&self, other: &Self) -> (r: bool)
        ensures
            r == (*self == *other),
    {
        same_bytes(&self.0, &other.0)
    }
}

/// Opaque identifier of one model object.
#[derive(Debug, Clone, Copy, PartialEq, Eq, PartialOrd, Ord, Hash)]
pub struct PredicateId(pub [u8; 16]);

impl PredicateId {
    pub fn from_bytes(bytes: [u8; 16]) -> (r: Self)
        ensures
            r.0 == bytes,
    {
        PredicateId(bytes)
    }

    pub fn as_bytes(self) -> (r: [u8; 16])
        ensures
            r == self.0,
    {
        self.0
    }

    /// Identity of two identifiers.
    pub fn same(&self, other: &Self) -> (r: bool)
        ensures
            r == (*self == *other),
    {
        same_bytes(&self.0, &other.0)
    }
}

/// Opaque identifier of one model object.
#[derive(Debug, Clone, Copy, PartialEq, Eq, PartialOrd, Ord, Hash)]
pub struct EvidenceSourceId(pub [u8; 16]);

impl EvidenceSourceId {
    pub fn from_bytes(bytes: [u8; 16]) -> (r: Self)
        ensures
            r.0 == bytes,
    {
        EvidenceSourceId(bytes)
    }

    pub fn as_bytes(self) -> (r: [u8; 16])
        ensures
            r == self.0,
    {
        self.0
    }

    /// Identity of two identifiers.
    pub fn same(&self, other: &Self) -> (r: bool)
        ensures
            r == (*self == *other),
    {
        same_bytes(&self.0, &other.0)
    }
}

/// Opaque identifier of one model object.
#[derive(Debug, Clone, Copy, PartialEq, Eq, PartialOrd, Ord, Hash)]
pub struct ObservationId(pub [u8; 16]);

impl ObservationId {
    pub fn from_bytes(bytes: [u8; 16]) -> (r: Self)
        ensures
            r.0 == bytes,
    {
        ObservationId(bytes)
    }

    pub fn as_bytes(self) -> (r: [u8; 16])
        ensures
            r == self.0,
    {
        self.0
    }

    /// Identity of two identifiers.
    pub fn same(&self, other: &Self) -> (r: bool)
        ensures
            r == (*self == *other),
    {
        same_bytes(&self.0, &other.0)
    }
}

/// Opaque identifier of one model object.
#[derive(Debug, Clone, Copy, PartialEq, Eq, PartialOrd, Ord, Hash)]
pub struct ZoneId(pub [u8; 16]);

impl ZoneId {
    pub fn from_bytes(bytes: [u8; 16]) -> (r: Self)
        ensures
            r.0 == bytes,
    {
        ZoneId(bytes)
    }

    pub fn as_bytes(self) -> (r: [u8; 16])
        ensures
            r == self.0,
    {
        self.0
    }

    /// Identity of two identifiers.
    pub fn same(&self, other: &Self) -> (r: bool)
        ensures
            r == (*self == *other),
    {
        same_bytes(&self.0, &other.0)
    }
}

/// Opaque identifier of one model object.
#[derive(Debug, Clone, Copy, PartialEq, Eq, PartialOrd, Ord, Hash)]
pub struct GateId(pub [u8; 16]);

impl GateId {
    pub fn from_bytes(bytes: [u8; 16]) -> (r: Self)
        ensures
            r.0 == bytes,
    {
        GateId(bytes)
    }

    pub fn as_bytes(self) -> (r: [u8; 16])
        ensures
            r == self.0,
    {
        self.0
    }

    /// Identity of two identifiers.
    pub fn same(&self, other: &Self) -> (r: bool)
        ensures
            r == (*self == *other),
    {
        same_bytes(&self.0, &other.0)
    }
}

/// Opaque identifier of one model object.
#[derive(Debug, Clone, Copy, PartialEq, Eq, PartialOrd, Ord, Hash)]
pub struct IdentityId(pub [u8; 16]);

impl IdentityId {
    pub fn from_bytes(bytes: [u8; 16]) -> (r: Self)
        ensures
            r.0 == bytes,
    {
        IdentityId(bytes)
    }

    pub fn as_bytes(self) -> (r: [u8; 16])
        ensures
            r == self.0,
    {
        self.0
    }

    /// Identity of two identifiers.
    pub fn same(&self, other: &Self) -> (r: bool)
        ensures
            r == (*self == *other),
    {
        same_bytes(&self.0, &other.0)
    }
}

/// Opaque identifier of one model object.
#[derive(Debug, Clone, Copy, PartialEq, Eq, PartialOrd, Ord, Hash)]
pub struct LayerId(pub [u8; 16]);

impl LayerId {
    pub fn from_bytes(bytes: [u8; 16]) -> (r: Self)
        ensures
            r.0 == bytes,
    {
        LayerId(bytes)
    }

    pub fn as_bytes(self) -> (r: [u8; 16])
        ensures
            r == self.0,
    {
        self.0
    }

    /// Identity of two identifiers.
    pub fn same(&self, other: &Self) -> (r: bool)
        ensures
            r == (*self == *other),
    {
        same_bytes(&self.0, &other.0)
    }
}

/// Opaque identifier of one model object.
#[derive(Debug, Clone, Copy, PartialEq, Eq, PartialOrd, Ord, Hash)]
pub struct RouteId(pub [u8; 16]);

impl RouteId {
    pub fn from_bytes(bytes: [u8; 16]) -> (r: Self)
        ensures
            r.0 == bytes,
    {
        RouteId(bytes)
    }

    pub fn as_bytes(self) -> (r: [u8; 16])
        ensures
            r == self.0,
    {
        self.0
    }

    /// Identity of two identifiers.
    pub fn same(&self, other: &Self) -> (r: bool)
        ensures
            r == (*self == *other),
    {
        same_bytes(&self.0, &other.0)
    }
}

/// Opaque identifier of one model object.
#[derive(Debug, Clone, Copy, PartialEq, Eq, PartialOrd, Ord, Hash)]
pub struct CredentialId(pub [u8; 16]);

impl CredentialId {
    pub fn from_bytes(bytes: [u8; 16]) -> (r: Self)
        ensures
            r.0 == bytes,
    {
        CredentialId(bytes)
    }

    pub fn as_bytes(self) -> (r: [u8; 16])
        ensures
            r == self.0,
    {
        self.0
    }

    /// Identity of two identifiers.
    pub fn same(&self, other: &Self) -> (r: bool)
        ensures
            r == (*self == *other),
    {
        same_bytes(&self.0, &other.0)
    }
}

/// Opaque identifier of one model object.
#[derive(Debug, Clone, Copy, PartialEq, Eq, PartialOrd, Ord, Hash)]
pub struct TrustId(pub [u8; 16]);

impl TrustId {
    pub fn from_bytes(bytes: [u8; 16]) -> (r: Self)
        ensures
            r.0 == bytes,
    {
        TrustId(bytes)
    }

    pub fn as_bytes(self) -> (r: [u8; 16])
        ensures
            r == self.0,
    {
        self.0
    }

    /// Identity of two identifiers.
    pub fn same(&self, other: &Self) -> (r: bool)
        ensures
            r == (*self == *other),
    {
        same_bytes(&self.0, &other.0)
    }
}

} // verus!
