//! Core vocabulary enumerations.
use vstd::prelude::*;

verus! {

/// Bounded execution domain category.
#[derive(Debug, Copy, Clone, PartialEq, Eq, PartialOrd, Ord, Hash, Structural)]
#[non_exhaustive]
pub enum ZoneKind {
    /// Credential and key custody zone.
    Identity,
    /// Read-only witness and log aggregation zone.
    Audit,
    /// Untrusted artifact intake zone.
    Quarantine,
    /// Source authoring and local runtime zone.
    Dev,
    /// Deterministic compilation and test execution zone.
    Build,
    /// Cryptographic signing operations zone.
    Signing,
    /// Publication zone for external consumers.
    Release,
    /// Deployed service execution zone.
    Runtime,
}

/// Concrete isolation mechanism realizing a zone.
#[derive(Debug, Copy, Clone, PartialEq, Eq, PartialOrd, Ord, Hash, Structural)]
#[non_exhaustive]
pub enum IsolationMechanism {
    /// Separate POSIX user and filesystem ACL boundary.
    UserAccount,
    /// Host sandbox profile such as sandbox-exec, AppArmor, or SELinux.
    SandboxProfile,
    /// Full hypervisor-backed virtual machine.
    Vm,
    /// Namespace and cgroup isolation.
    Container,
    /// Separate hardware or physical custody boundary.
    Physical,
}

/// Relative trust assigned to a zone or trust context.
#[derive(Debug, Copy, Clone, PartialEq, Eq, PartialOrd, Ord, Hash, Structural)]
pub enum TrustLevel {
    /// No trust should be assumed.
    Untrusted,
    /// Low trust for constrained activity.
    Low,
    /// Standard trust for ordinary controlled work.
    Standard,
    /// High trust for sensitive work.
    High,
    /// Critical trust for root, custody, and signing boundaries.
    Critical,
}

/// Directional face of a boundary.
#[derive(Debug, Copy, Clone, PartialEq, Eq, PartialOrd, Ord, Hash, Structural)]
pub enum SurfaceFacing {
    /// Surface facing boundary side A.
    A,
    /// Surface facing boundary side B.
    B,
}

/// Network bind reachability visible through a surface.
#[derive(Debug, Copy, Clone, PartialEq, Eq, PartialOrd, Ord, Hash, Structural)]
pub enum BindScope {
    /// Listener bound only to loopback.
    Loopback,
    /// Listener bound to zone-local interfaces.
    ZoneLocal,
    /// Listener bound to host interfaces.
    Host,
    /// Listener publicly reachable.
    Public,
}

/// Network protocol for low-level listeners and routes.
#[derive(Debug, Copy, Clone, PartialEq, Eq, PartialOrd, Ord, Hash, Structural)]
pub enum Protocol {
    /// Transmission Control Protocol.
    Tcp,
    /// User Datagram Protocol.
    Udp,
}

/// Protection mechanism applied to a boundary.
#[derive(Debug, Copy, Clone, PartialEq, Eq, PartialOrd, Ord, Hash, Structural)]
#[non_exhaustive]
pub enum LayerMechanism {
    /// Packet filter such as pf, iptables, or nftables.
    PacketFilter,
    /// Application-level outbound filtering proxy.
    EgressProxy,
    /// Mandatory access control such as SELinux, AppArmor, or macOS sandbox.
    MandatoryAccessControl,
    /// Capability or entitlement restriction.
    CapabilityRestriction,
    /// Code-signing enforcement such as Gatekeeper.
    CodeSigningEnforcement,
    /// Filesystem ACL or extended attribute control.
    FilesystemAcl,
    /// Volume encryption such as FileVault or LUKS.
    VolumeEncryption,
    /// Integrity protection such as SIP or dm-verity.
    IntegrityProtection,
    /// Separate UID/GID or account boundary.
    UserSeparation,
    /// Privilege boundary such as no-sudo enforcement or capability drop.
    PrivilegeBoundary,
    /// Consent gate such as TCC, polkit, or UAC.
    ConsentGate,
    /// Hypervisor-backed virtual machine boundary.
    Hypervisor,
    /// Namespace isolation such as containers.
    NamespaceIsolation,
    /// Air gap or separate physical device.
    PhysicalSeparation,
}

/// Protection hardness ordered from soft application controls to physical separation.
#[derive(Debug, Copy, Clone, PartialEq, Eq, PartialOrd, Ord, Hash, Structural)]
pub enum LayerHardness {
    /// Process or application-level controls.
    H1,
    /// User boundary or privilege separation.
    H2,
    /// Host-level kernel policy.
    H3,
    /// Virtual machine or kernel separation.
    H4,
    /// Air gap or physical separation.
    H5,
}

/// How a control behaves when it cannot evaluate.
#[derive(Debug, Copy, Clone, PartialEq, Eq, PartialOrd, Ord, Hash, Structural)]
pub enum FailMode {
    /// Deny when evaluation fails or state is unknown.
    FailClosed,
    /// Permit when evaluation fails or state is unknown.
    FailOpen,
}

/// Route transfer cadence.
#[derive(Debug, Copy, Clone, PartialEq, Eq, PartialOrd, Ord, Hash, Structural)]
pub enum Cadence {
    /// Source initiates transfer.
    Push,
    /// Destination polls for artifacts.
    Pull,
    /// Manual deposit through root-arbitrated staging.
    Airlock,
}

/// Verification kind required by a gate.
#[derive(Debug, Copy, Clone, PartialEq, Eq, PartialOrd, Ord, Hash, Structural)]
#[non_exhaustive]
pub enum VerificationKind {
    /// Artifact hash matches a manifest.
    HashIntegrity,
    /// Cryptographic signature verifies.
    SignatureValidity,
    /// Provenance chain from source to artifact verifies.
    ProvenanceChain,
    /// Behavioral or malware content scan passes.
    ContentScan,
    /// Explicit human review and sign-off exists.
    HumanApproval,
    /// Artifact matches its route artifact contract.
    ContractConformance,
    /// Caller proves the claimed identity.
    IdentityAuthentication,
}

/// Current gate decision.
#[derive(Debug, Copy, Clone, PartialEq, Eq, PartialOrd, Ord, Hash, Structural)]
pub enum GateVerdict {
    /// Passage is permitted.
    Permit,
    /// Passage is denied.
    Deny,
    /// Passage has not yet been evaluated.
    Pending,
}

/// Principal category.
#[derive(Debug, Copy, Clone, PartialEq, Eq, PartialOrd, Ord, Hash, Structural)]
#[non_exhaustive]
pub enum IdentityKind {
    /// Floor-level system administrator.
    Root,
    /// Scoped operator of exactly one zone.
    ZoneAdmin,
    /// Automated process identity.
    Service,
    /// Read-only observer.
    Auditor,
}

/// Atomic operation that may be present in a scope.
#[derive(Debug, Copy, Clone, PartialEq, Eq, PartialOrd, Ord, Hash, Structural)]
#[non_exhaustive]
pub enum Capability {
    /// Read filesystem data.
    FsRead,
    /// Write filesystem data.
    FsWrite,
    /// Execute filesystem data.
    FsExecute,
    /// Listen on a network port.
    NetListen,
    /// Connect to an outbound network endpoint.
    NetConnectOutbound,
    /// Accept inbound network connections.
    NetAcceptInbound,
    /// Spawn a process.
    ProcSpawn,
    /// Signal a process.
    ProcSignal,
    /// Inspect a process.
    ProcInspect,
    /// Create a cryptographic signature.
    CryptoSign,
    /// Verify a cryptographic signature.
    CryptoVerify,
    /// Encrypt data.
    CryptoEncrypt,
    /// Decrypt data.
    CryptoDecrypt,
    /// Generate cryptographic keys.
    CryptoGenerateKey,
    /// Propose a route transfer.
    RouteProposeTransfer,
    /// Approve a route transfer.
    RouteApproveTransfer,
    /// Execute a route transfer.
    RouteExecuteTransfer,
    /// Declare a zone.
    ZoneDeclare,
    /// Modify a zone.
    ZoneModify,
    /// Destroy a zone.
    ZoneDestroy,
    /// Read an audit log.
    AuditReadLog,
    /// Write an audit event.
    AuditWriteEvent,
    /// Verify an audit hash chain.
    AuditVerifyChain,
}

impl Capability {
    /// Returns true when this capability belongs to the audit family.
    pub fn is_audit(self) -> (r: bool)
        ensures
            r == (self is AuditReadLog || self is AuditWriteEvent || self is AuditVerifyChain),
    {
        matches!(
            self,
            Capability::AuditReadLog | Capability::AuditWriteEvent | Capability::AuditVerifyChain
        )
    }
}

/// Day-of-week selector for time restricted scopes.
#[derive(Debug, Copy, Clone, PartialEq, Eq, PartialOrd, Ord, Hash, Structural)]
pub enum DayOfWeek {
    /// Monday.
    Mon,
    /// Tuesday.
    Tue,
    /// Wednesday.
    Wed,
    /// Thursday.
    Thu,
    /// Friday.
    Fri,
    /// Saturday.
    Sat,
    /// Sunday.
    Sun,
}

/// Credential mechanism.
#[derive(Debug, Copy, Clone, PartialEq, Eq, PartialOrd, Ord, Hash, Structural)]
#[non_exhaustive]
pub enum CredentialMechanism {
    /// Offline password stored on physical media or in a vault.
    PasswordOffline,
    /// FIDO2 resident hardware key.
    HardwareKeyFido2,
    /// Secure Enclave-bound key.
    HardwareKeySecureEnclave,
    /// SSH key backed by a hardware token.
    SshKeyHardware,
    /// SSH key stored in software.
    SshKeySoftware,
    /// Scoped token such as a PAT, API token, or session token.
    TokenScoped,
    /// Biometric factor that must augment a primary factor.
    Biometric,
    /// X.509 certificate.
    CertificateX509,
}

/// Credential strength ordered by standalone authentication strength.
#[derive(Debug, Copy, Clone, PartialEq, Eq, PartialOrd, Ord, Hash, Structural)]
pub enum CredentialStrength {
    /// Secondary factor that cannot activate trust alone.
    Secondary,
    /// Short-lived token that expires automatically.
    Ephemeral,
    /// Software-stored primary credential.
    PrimarySoftware,
    /// Hardware-bound primary credential.
    PrimaryHardware,
}

/// Reason a trust grant exists.
#[derive(Debug, Copy, Clone, PartialEq, Eq, PartialOrd, Ord, Hash, Structural)]
#[non_exhaustive]
pub enum TrustBasis {
    /// Identity was assigned a role.
    RoleAssignment,
    /// Identity presented a valid credential.
    CredentialPresentation,
    /// Another trusted identity delegated authority.
    Delegation,
    /// Trust was established during system bootstrap.
    SystemBootstrap,
}

/// Lifecycle status of a route policy.
#[derive(Debug, Copy, Clone, PartialEq, Eq, PartialOrd, Ord, Hash, Structural)]
pub enum PolicyStatus {
    /// Policy is being authored.
    Draft,
    /// Policy is currently enforced.
    Active,
    /// Policy remains readable but should be replaced.
    Deprecated,
    /// Policy is no longer valid.
    Retired,
}

/// Transfer workflow state.
#[derive(Debug, Copy, Clone, PartialEq, Eq, PartialOrd, Ord, Hash, Structural)]
pub enum TransferState {
    /// Transfer has been proposed.
    Proposed,
    /// Intake checks passed.
    IntakeValidated,
    /// Verification is running.
    VerificationRunning,
    /// A human approval gate is waiting.
    AwaitingHumanApproval,
    /// Transfer is approved.
    Approved,
    /// Transfer is rejected.
    Rejected,
    /// Artifact has been promoted.
    Promoted,
    /// Transfer is archived and terminal.
    Archived,
}

/// Accepted or rejected route decision.
#[derive(Debug, Copy, Clone, PartialEq, Eq, PartialOrd, Ord, Hash, Structural)]
pub enum RouteDecision {
    /// Route transfer was accepted.
    Accepted,
    /// Route transfer was rejected.
    Rejected,
}

/// Runtime policy service identity.
#[derive(Debug, Copy, Clone, PartialEq, Eq, PartialOrd, Ord, Hash, Structural)]
#[non_exhaustive]
pub enum ServiceId {
    /// Authorizes commands from model and policy.
    PolicyEngine,
    /// Runs hash, signature, and scan checks.
    VerificationEngine,
    /// Enforces quarantine promotion and rejection workflow.
    QuarantineGate,
    /// Performs allowed one-way transfers.
    RouteExecutor,
    /// Persists transfer aggregates and events.
    WorkflowStore,
    /// Maps workflow events into floor audit events.
    AuditBridge,
    /// Publishes signed zone and route declarations.
    ZoneRegistry,
}

/// Runtime mode of a policy service.
#[derive(Debug, Copy, Clone, PartialEq, Eq, PartialOrd, Ord, Hash, Structural)]
pub enum ServiceMode {
    /// Service is fully active.
    Active,
    /// Service is degraded but still partially useful.
    Degraded,
    /// Service is read-only.
    ReadOnly,
    /// Service is offline.
    Offline,
}

/// Strict policy object category.
#[derive(Debug, Copy, Clone, PartialEq, Eq, PartialOrd, Ord, Hash, Structural)]
#[non_exhaustive]
pub enum PolicyType {
    /// Firewall policy.
    Firewall,
    /// Isolation policy.
    Isolation,
    /// Scoped rights policy.
    ScopedRights,
    /// Traceability policy.
    Traceability,
    /// Storage protection policy.
    Storage,
    /// Patch management policy.
    Patch,
    /// Exception policy.
    Exception,
    /// Observability policy.
    Observability,
    /// Route control policy.
    RouteControl,
}

/// Review cadence for governed policies.
#[derive(Debug, Copy, Clone, PartialEq, Eq, PartialOrd, Ord, Hash, Structural)]
pub enum ReviewRate {
    /// Review every week.
    Weekly,
    /// Review every two weeks.
    Biweekly,
    /// Review every month.
    Monthly,
    /// Review every quarter.
    Quarterly,
}

/// Severity for controls and findings.
#[derive(Debug, Copy, Clone, PartialEq, Eq, PartialOrd, Ord, Hash, Structural)]
pub enum Severity {
    /// Critical impact.
    Critical,
    /// High impact.
    High,
    /// Medium impact.
    Medium,
    /// Low impact.
    Low,
}

/// Schema layer gate status.
#[derive(Debug, Copy, Clone, PartialEq, Eq, PartialOrd, Ord, Hash, Structural)]
pub enum LayerGateStatus {
    /// Promotion to this layer is blocked.
    Blocked,
    /// Promotion to this layer is ready.
    Ready,
}

/// Strict schema layer name.
#[derive(Debug, Copy, Clone, PartialEq, Eq, PartialOrd, Ord, Hash, Structural)]
pub enum LayerName {
    /// Manifest layer.
    L0Manifest,
    /// Atomic type layer.
    L1Atoms,
    /// Structural object layer.
    L2Structural,
    /// Policy value envelope layer.
    L3PolicyValues,
    /// Policy object layer.
    L4PolicyObjects,
    /// Scoped environment layer.
    L5ScopeEnvironments,
    /// Enforcement layer.
    L6Enforcement,
    /// Observability layer.
    L7Observability,
    /// Governance layer.
    L8Governance,
}

/// Outside-world destination class.
#[derive(Debug, Copy, Clone, PartialEq, Eq, PartialOrd, Ord, Hash, Structural)]
#[non_exhaustive]
pub enum OutsideWorldClass {
    /// Tailscale control plane.
    TailscaleControl,
    /// Operating system update endpoint.
    OsUpdate,
    /// Time synchronization endpoint.
    TimeSync,
    /// Source hosting endpoint.
    SourceHosting,
    /// Package registry endpoint.
    PackageRegistry,
    /// Notarization endpoint.
    Notarization,
    /// Public release endpoint.
    PublicRelease,
    /// Blocked or unclassified endpoint.
    Blocked,
}

/// External edge protocol.
#[derive(Debug, Copy, Clone, PartialEq, Eq, PartialOrd, Ord, Hash, Structural)]
pub enum ExternalProtocol {
    /// TCP transport.
    Tcp,
    /// UDP transport.
    Udp,
    /// HTTPS over TCP.
    Https,
}

/// Default action for an external edge policy.
#[derive(Debug, Copy, Clone, PartialEq, Eq, PartialOrd, Ord, Hash, Structural)]
pub enum DefaultAction {
    /// Allow by default for this declared edge.
    Allow,
    /// Deny by default for this declared edge.
    Deny,
}

impl TrustLevel {
    /// Position of the level in the order from untrusted to critical.
    pub open spec fn rank(self) -> u8 {
        match self {
            TrustLevel::Untrusted => 0,
            TrustLevel::Low => 1,
            TrustLevel::Standard => 2,
            TrustLevel::High => 3,
            TrustLevel::Critical => 4,
        }
    }

    /// The level's rank, in the order the variants are declared.
    pub fn level(self) -> (r: u8)
        ensures
            r == self.rank(),
    {
        match self {
            TrustLevel::Untrusted => 0,
            TrustLevel::Low => 1,
            TrustLevel::Standard => 2,
            TrustLevel::High => 3,
            TrustLevel::Critical => 4,
        }
    }
}

impl LayerHardness {
    /// Numeric hardness, from one (application) to five (physical).
    pub open spec fn rank(self) -> u8 {
        match self {
            LayerHardness::H1 => 1,
            LayerHardness::H2 => 2,
            LayerHardness::H3 => 3,
            LayerHardness::H4 => 4,
            LayerHardness::H5 => 5,
        }
    }

    /// The numeric hardness.
    pub fn level(self) -> (r: u8)
        ensures
            r == self.rank(),
    {
        match self {
            LayerHardness::H1 => 1,
            LayerHardness::H2 => 2,
            LayerHardness::H3 => 3,
            LayerHardness::H4 => 4,
            LayerHardness::H5 => 5,
        }
    }
}

impl CredentialStrength {
    /// Position of the strength in the order from secondary to hardware.
    pub open spec fn rank(self) -> u8 {
        match self {
            CredentialStrength::Secondary => 0,
            CredentialStrength::Ephemeral => 1,
            CredentialStrength::PrimarySoftware => 2,
            CredentialStrength::PrimaryHardware => 3,
        }
    }

    /// The strength's rank.
    pub fn level(self) -> (r: u8)
        ensures
            r == self.rank(),
    {
        match self {
            CredentialStrength::Secondary => 0,
            CredentialStrength::Ephemeral => 1,
            CredentialStrength::PrimarySoftware => 2,
            CredentialStrength::PrimaryHardware => 3,
        }
    }
}

impl LayerMechanism {
    /// Position of the mechanism in declaration order.
    pub open spec fn rank(self) -> u8 {
        match self {
            LayerMechanism::PacketFilter => 0,
            LayerMechanism::EgressProxy => 1,
            LayerMechanism::MandatoryAccessControl => 2,
            LayerMechanism::CapabilityRestriction => 3,
            LayerMechanism::CodeSigningEnforcement => 4,
            LayerMechanism::FilesystemAcl => 5,
            LayerMechanism::VolumeEncryption => 6,
            LayerMechanism::IntegrityProtection => 7,
            LayerMechanism::UserSeparation => 8,
            LayerMechanism::PrivilegeBoundary => 9,
            LayerMechanism::ConsentGate => 10,
            LayerMechanism::Hypervisor => 11,
            LayerMechanism::NamespaceIsolation => 12,
            LayerMechanism::PhysicalSeparation => 13,
        }
    }

    /// The mechanism's position in declaration order.
    pub fn position(self) -> (r: u8)
        ensures
            r == self.rank(),
    {
        match self {
            LayerMechanism::PacketFilter => 0,
            LayerMechanism::EgressProxy => 1,
            LayerMechanism::MandatoryAccessControl => 2,
            LayerMechanism::CapabilityRestriction => 3,
            LayerMechanism::CodeSigningEnforcement => 4,
            LayerMechanism::FilesystemAcl => 5,
            LayerMechanism::VolumeEncryption => 6,
            LayerMechanism::IntegrityProtection => 7,
            LayerMechanism::UserSeparation => 8,
            LayerMechanism::PrivilegeBoundary => 9,
            LayerMechanism::ConsentGate => 10,
            LayerMechanism::Hypervisor => 11,
            LayerMechanism::NamespaceIsolation => 12,
            LayerMechanism::PhysicalSeparation => 13,
        }
    }

    /// The hardness band a mechanism of this kind can reach, as (softest,
    /// hardest): application-level controls reach H1, account and privilege
    /// separation H2, host kernel policy H3, virtual machines H4 and physical
    /// separation H5.
    pub open spec fn hardness_band(self) -> (LayerHardness, LayerHardness) {
        match self {
            LayerMechanism::PacketFilter => (LayerHardness::H3, LayerHardness::H3),
            LayerMechanism::EgressProxy => (LayerHardness::H1, LayerHardness::H1),
            LayerMechanism::MandatoryAccessControl => (LayerHardness::H3, LayerHardness::H3),
            LayerMechanism::CapabilityRestriction => (LayerHardness::H2, LayerHardness::H3),
            LayerMechanism::CodeSigningEnforcement => (LayerHardness::H3, LayerHardness::H3),
            LayerMechanism::FilesystemAcl => (LayerHardness::H2, LayerHardness::H2),
            LayerMechanism::VolumeEncryption => (LayerHardness::H3, LayerHardness::H3),
            LayerMechanism::IntegrityProtection => (LayerHardness::H3, LayerHardness::H3),
            LayerMechanism::UserSeparation => (LayerHardness::H2, LayerHardness::H2),
            LayerMechanism::PrivilegeBoundary => (LayerHardness::H2, LayerHardness::H2),
            LayerMechanism::ConsentGate => (LayerHardness::H1, LayerHardness::H2),
            LayerMechanism::Hypervisor => (LayerHardness::H4, LayerHardness::H4),
            LayerMechanism::NamespaceIsolation => (LayerHardness::H3, LayerHardness::H3),
            LayerMechanism::PhysicalSeparation => (LayerHardness::H5, LayerHardness::H5),
        }
    }

    /// The hardness band of the mechanism, as (softest, hardest).
    pub fn hardness_range(self) -> (r: (LayerHardness, LayerHardness))
        ensures
            r == self.hardness_band(),
    {
        match self {
            LayerMechanism::PacketFilter => (LayerHardness::H3, LayerHardness::H3),
            LayerMechanism::EgressProxy => (LayerHardness::H1, LayerHardness::H1),
            LayerMechanism::MandatoryAccessControl => (LayerHardness::H3, LayerHardness::H3),
            LayerMechanism::CapabilityRestriction => (LayerHardness::H2, LayerHardness::H3),
            LayerMechanism::CodeSigningEnforcement => (LayerHardness::H3, LayerHardness::H3),
            LayerMechanism::FilesystemAcl => (LayerHardness::H2, LayerHardness::H2),
            LayerMechanism::VolumeEncryption => (LayerHardness::H3, LayerHardness::H3),
            LayerMechanism::IntegrityProtection => (LayerHardness::H3, LayerHardness::H3),
            LayerMechanism::UserSeparation => (LayerHardness::H2, LayerHardness::H2),
            LayerMechanism::PrivilegeBoundary => (LayerHardness::H2, LayerHardness::H2),
            LayerMechanism::ConsentGate => (LayerHardness::H1, LayerHardness::H2),
            LayerMechanism::Hypervisor => (LayerHardness::H4, LayerHardness::H4),
            LayerMechanism::NamespaceIsolation => (LayerHardness::H3, LayerHardness::H3),
            LayerMechanism::PhysicalSeparation => (LayerHardness::H5, LayerHardness::H5),
        }
    }
}

impl Capability {
    /// Position of the capability in declaration order.
    pub open spec fn rank(self) -> u8 {
        match self {
            Capability::FsRead => 0,
            Capability::FsWrite => 1,
            Capability::FsExecute => 2,
            Capability::NetListen => 3,
            Capability::NetConnectOutbound => 4,
            Capability::NetAcceptInbound => 5,
            Capability::ProcSpawn => 6,
            Capability::ProcSignal => 7,
            Capability::ProcInspect => 8,
            Capability::CryptoSign => 9,
            Capability::CryptoVerify => 10,
            Capability::CryptoEncrypt => 11,
            Capability::CryptoDecrypt => 12,
            Capability::CryptoGenerateKey => 13,
            Capability::RouteProposeTransfer => 14,
            Capability::RouteApproveTransfer => 15,
            Capability::RouteExecuteTransfer => 16,
            Capability::ZoneDeclare => 17,
            Capability::ZoneModify => 18,
            Capability::ZoneDestroy => 19,
            Capability::AuditReadLog => 20,
            Capability::AuditWriteEvent => 21,
            Capability::AuditVerifyChain => 22,
        }
    }
}

} // verus!
