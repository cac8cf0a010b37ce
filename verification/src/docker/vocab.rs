//! The Docker vocabulary: referent sorts, properties, and its version.
use vstd::prelude::*;

use crate::kernel::declared::{first_non_canonical, CanonicalName, SemVer};
use crate::text::owned;

verus! {

/// The sort of a Compose service.
pub const SERVICE: &'static str = "service";

/// The sort of a Compose network.
pub const NETWORK: &'static str = "network";

/// The sort of a Compose volume.
pub const VOLUME: &'static str = "volume";

/// The sort of an image.
pub const IMAGE: &'static str = "image";

/// Whether a service runs privileged.
pub const PRIVILEGED: &'static str = "privileged";

/// The image a service runs.
pub const IMAGE_REF: &'static str = "image";

/// The tag of a service's image.
pub const IMAGE_TAG: &'static str = "image_tag";

/// The user a service runs as.
pub const USER: &'static str = "user";

/// Whether a service declares a health check.
pub const HEALTHCHECK: &'static str = "healthcheck";

/// Capabilities a service adds.
pub const CAP_ADD: &'static str = "cap_add";

/// The version of the vocabulary: 0.1.0.
pub fn vocabulary_version() -> (r: SemVer)
    ensures
        r == (SemVer { major: 0, minor: 1, patch: 0 }),
{
    SemVer::new(0, 1, 0)
}

/// Text that is a canonical name.
pub open spec fn is_canonical_text(s: Seq<char>) -> bool {
    s.len() > 0 && first_non_canonical(s) is None
}

/// The canonical name of a vocabulary constant, which must be canonical.
pub fn canonical_name(value: &str) -> (r: CanonicalName)
    requires
        is_canonical_text(value@),
    ensures
        r@ == value@,
{
    CanonicalName::new(owned(value)).unwrap()
}

} // verus!
