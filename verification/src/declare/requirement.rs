//! Presence, ordered-strength and set-membership requirements.
use vstd::prelude::*;

use crate::kernel::enums::{Capability, CredentialStrength, LayerHardness};

verus! {

/// Whether a declared object or mechanism must appear in an observation.
#[derive(Debug, Copy, Clone, PartialEq, Eq, PartialOrd, Ord, Hash, Structural)]
pub enum PresenceRequirement {
    /// The item must be present.
    Required,
    /// The item must not be present.
    Forbidden,
    /// The item may be present, but is not required.
    Optional,
}

impl PresenceRequirement {
    /// Returns true when an observed presence satisfies this requirement.
    pub fn is_satisfied_by(self, present: bool) -> (r: bool)
        ensures
            r == match self {
                PresenceRequirement::Required => present,
                PresenceRequirement::Forbidden => !present,
                PresenceRequirement::Optional => true,
            },
    {
        match self {
            PresenceRequirement::Required => present,
            PresenceRequirement::Forbidden => !present,
            PresenceRequirement::Optional => true,
        }
    }
}

/// Values with a total order by grade: the order in which their variants are
/// declared.
pub trait Graded: Copy {
    spec fn grade(&self) -> int;

    fn grade_of(&self) -> (r: u8)
        ensures
            r == self.grade(),
    ;
}

impl Graded for LayerHardness {
    open spec fn grade(&self) -> int {
        self.rank() as int
    }

    fn grade_of(&self) -> (r: u8) {
        self.level()
    }
}

impl Graded for CredentialStrength {
    open spec fn grade(&self) -> int {
        self.rank() as int
    }

    fn grade_of(&self) -> (r: u8) {
        self.level()
    }
}

/// Ordered strength requirement.
///
/// Use this for values where stronger/weaker has a typed order, such as layer
/// hardness or credential strength. Most security declarations should prefer
/// `AtLeast` over `Exactly`.
#[derive(Debug, Copy, Clone, PartialEq, Eq, PartialOrd, Ord, Hash)]
pub enum StrengthRequirement<T> {
    /// The observed value must equal the declared value.
    Exactly(T),
    /// The observed value must be greater than or equal to the declared value.
    AtLeast(T),
    /// The observed value must be less than or equal to the declared value.
    AtMost(T),
}

/// Whether an observed grade meets the requirement.
pub open spec fn strength_satisfied<T: Graded>(req: StrengthRequirement<T>, observed: T) -> bool {
    match req {
        StrengthRequirement::Exactly(e) => observed.grade() == e.grade(),
        StrengthRequirement::AtLeast(m) => observed.grade() >= m.grade(),
        StrengthRequirement::AtMost(m) => observed.grade() <= m.grade(),
    }
}

/// Whether some grade in `[minimum, maximum]` meets the requirement.
pub open spec fn strength_satisfiable<T: Graded>(
    req: StrengthRequirement<T>,
    minimum: T,
    maximum: T,
) -> bool {
    match req {
        StrengthRequirement::Exactly(e) => e.grade() >= minimum.grade() && e.grade()
            <= maximum.grade(),
        StrengthRequirement::AtLeast(m) => maximum.grade() >= m.grade(),
        StrengthRequirement::AtMost(m) => minimum.grade() <= m.grade(),
    }
}

/// A requirement can be met within a non-empty band of grades exactly when
/// some value whose grade lies in the band meets it.
pub proof fn lemma_satisfiable_means_some_grade_in_band<T: Graded>(
    req: StrengthRequirement<T>,
    minimum: T,
    maximum: T,
)
    requires
        minimum.grade() <= maximum.grade(),
    ensures
        strength_satisfiable(req, minimum, maximum) <==> exists|x: T|
            minimum.grade() <= x.grade() <= maximum.grade() && #[trigger] strength_satisfied(req, x),
{
    if strength_satisfiable(req, minimum, maximum) {
        match req {
            StrengthRequirement::Exactly(e) => {
                assert(strength_satisfied(req, e));
            },
            StrengthRequirement::AtLeast(_) => {
                assert(strength_satisfied(req, maximum));
            },
            StrengthRequirement::AtMost(_) => {
                assert(strength_satisfied(req, minimum));
            },
        }
    }
}

/// A requirement is met by its own bound, and the bound is where it turns:
/// an at-least requirement is met by every value at least as strong as its
/// bound and by no weaker one, an at-most requirement by every value at most
/// as strong and by no stronger one, and an exact one by the values of its
/// grade only.
pub proof fn lemma_strength_bounds<T: Graded>(bound: T, x: T)
    ensures
        strength_satisfied(StrengthRequirement::Exactly(bound), bound),
        strength_satisfied(StrengthRequirement::AtLeast(bound), bound),
        strength_satisfied(StrengthRequirement::AtMost(bound), bound),
        strength_satisfied(StrengthRequirement::AtLeast(bound), x) <==> bound.grade() <= x.grade(),
        strength_satisfied(StrengthRequirement::AtMost(bound), x) <==> x.grade() <= bound.grade(),
        strength_satisfied(StrengthRequirement::Exactly(bound), x) <==> x.grade() == bound.grade(),
{
}

impl<T: Graded> StrengthRequirement<T> {
    /// Returns true when an observed value satisfies this requirement.
    pub fn is_satisfied_by(self, observed: T) -> (r: bool)
        ensures
            r == strength_satisfied(self, observed),
    {
        let g = observed.grade_of();
        match self {
            StrengthRequirement::Exactly(expected) => g == expected.grade_of(),
            StrengthRequirement::AtLeast(minimum) => g >= minimum.grade_of(),
            StrengthRequirement::AtMost(maximum) => g <= maximum.grade_of(),
        }
    }

    /// Returns true when some value in an allowed inclusive range could satisfy
    /// this requirement.
    pub fn is_satisfiable_within(self, minimum: T, maximum: T) -> (r: bool)
        ensures
            r == strength_satisfiable(self, minimum, maximum),
    {
        let lo = minimum.grade_of();
        let hi = maximum.grade_of();
        match self {
            StrengthRequirement::Exactly(expected) => {
                let e = expected.grade_of();
                e >= lo && e <= hi
            },
            StrengthRequirement::AtLeast(required_minimum) => hi >= required_minimum.grade_of(),
            StrengthRequirement::AtMost(required_maximum) => lo <= required_maximum.grade_of(),
        }
    }
}

/// Requirement alias for boundary protection hardness.
pub type HardnessRequirement = StrengthRequirement<LayerHardness>;

/// Requirement alias for identity activation credential strength.
pub type CredentialRequirement = StrengthRequirement<CredentialStrength>;

/// Items compared by identity.
pub trait SetItem: Copy {
    spec fn item_key(&self) -> int;

    fn same_item(&self, other: &Self) -> (r: bool)
        ensures
            r == (self.item_key() == other.item_key()),
    ;
}

impl SetItem for Capability {
    open spec fn item_key(&self) -> int {
        self.rank() as int
    }

    fn same_item(&self, other: &Self) -> (r: bool) {
        *self == *other
    }
}

/// Set membership requirement.
#[derive(Debug, Clone, PartialEq, Eq, Hash)]
pub enum SetRequirement<T> {
    /// The observed set must contain every declared item.
    Includes(Vec<T>),
    /// The observed set must contain none of the declared items.
    Excludes(Vec<T>),
    /// The observed set must equal the declared set, ignoring order.
    Equals(Vec<T>),
}

/// Some item of `s` is the same item as `x`.
pub open spec fn holds_item<T: SetItem>(s: Seq<T>, x: T) -> bool {
    exists|i: int| 0 <= i < s.len() && #[trigger] s[i].item_key() == x.item_key()
}

/// Every item of `a` is among `b`.
pub open spec fn all_held<T: SetItem>(a: Seq<T>, b: Seq<T>) -> bool {
    forall|i: int| 0 <= i < a.len() ==> holds_item(b, #[trigger] a[i])
}

/// No item of `a` is among `b`.
pub open spec fn none_held<T: SetItem>(a: Seq<T>, b: Seq<T>) -> bool {
    forall|i: int| 0 <= i < a.len() ==> !holds_item(b, #[trigger] a[i])
}

/// Whether the slice holds the same item as `x`.
pub fn slice_holds<T: SetItem>(s: &[T], x: &T) -> (r: bool)
    ensures
        r == holds_item(s@, *x),
{
    let mut i: usize = 0;
    while i < s.len()
        invariant
            i <= s@.len(),
            forall|k: int| 0 <= k < i ==> #[trigger] s@[k].item_key() != x.item_key(),
        decreases s@.len() - i,
    {
        if s[i].same_item(x) {
            return true;
        }
        i = i + 1;
    }
    false
}

/// Whether every item of `a` is among `b`.
pub fn slice_all_held<T: SetItem>(a: &[T], b: &[T]) -> (r: bool)
    ensures
        r == all_held(a@, b@),
{
    let mut i: usize = 0;
    while i < a.len()
        invariant
            i <= a@.len(),
            forall|k: int| 0 <= k < i ==> holds_item(b@, #[trigger] a@[k]),
        decreases a@.len() - i,
    {
        if !slice_holds(b, &a[i]) {
            return false;
        }
        i = i + 1;
    }
    true
}

/// Whether no item of `a` is among `b`.
pub fn slice_none_held<T: SetItem>(a: &[T], b: &[T]) -> (r: bool)
    ensures
        r == none_held(a@, b@),
{
    let mut i: usize = 0;
    while i < a.len()
        invariant
            i <= a@.len(),
            forall|k: int| 0 <= k < i ==> !holds_item(b@, #[trigger] a@[k]),
        decreases a@.len() - i,
    {
        if slice_holds(b, &a[i]) {
            return false;
        }
        i = i + 1;
    }
    true
}

impl<T: SetItem> SetRequirement<T> {
    /// Returns true when observed items satisfy this set requirement: all
    /// declared items observed, none of them observed, or the same items with
    /// the same count.
    pub fn is_satisfied_by(&self, observed: &[T]) -> (r: bool)
        ensures
            r == match self {
                SetRequirement::Includes(required) => all_held(required@, observed@),
                SetRequirement::Excludes(forbidden) => none_held(forbidden@, observed@),
                SetRequirement::Equals(expected) => expected@.len() == observed@.len() && all_held(
                    expected@,
                    observed@,
                ) && all_held(observed@, expected@),
            },
    {
        match self {
            SetRequirement::Includes(required) => slice_all_held(required.as_slice(), observed),
            SetRequirement::Excludes(forbidden) => slice_none_held(forbidden.as_slice(), observed),
            SetRequirement::Equals(expected) => {
                expected.len() == observed.len() && slice_all_held(expected.as_slice(), observed)
                    && slice_all_held(observed, expected.as_slice())
            },
        }
    }
}

} // verus!
