//! The neutral mapping contract: what a mapper reports about its input is a
//! source, the referents it saw and property claims about them, in a
//! deterministic order and free of duplicates and dangling claims.
use vstd::prelude::*;

use crate::canon::ordering::{ordered_adjacent, sort_three_way, ThreeWay};
use crate::kernel::declared::{CanonicalName, SemVer, Timestamp};
use crate::kernel::duplicate::Duplicate;
use crate::text::{lemma_text_antisymmetric, sign_of, text_compare, text_order};

verus! {

/// The name and version of a mapper.
#[derive(Clone, Debug, PartialEq, Eq)]
pub struct MapperIdentity {
    pub name: CanonicalName,
    pub version: SemVer,
}

impl MapperIdentity {
    pub fn new(name: CanonicalName, version: SemVer) -> (r: Self)
        ensures
            r == (MapperIdentity { name, version }),
    {
        MapperIdentity { name, version }
    }
}

/// A translator of some input into mapped evidence.
pub trait Mapper {
    type Input;

    fn identity(&self) -> MapperIdentity;

    fn map(&self, input: &Self::Input) -> Result<MappedEvidence, MapError>;
}

/// Where evidence came from: which mapper, what kind of input, when.
#[derive(Clone, Debug, PartialEq, Eq)]
pub struct MappedSource {
    pub mapper: MapperIdentity,
    pub input_kind: CanonicalName,
    pub observed_at: Timestamp,
}

impl MappedSource {
    pub fn new(mapper: MapperIdentity, input_kind: CanonicalName, observed_at: Timestamp) -> (r:
        Self)
        ensures
            r == (MappedSource { mapper, input_kind, observed_at }),
    {
        MappedSource { mapper, input_kind, observed_at }
    }
}

/// A referent the mapper saw, with its sort.
#[derive(Clone, Debug, PartialEq, Eq)]
pub struct MappedReferent {
    pub name: CanonicalName,
    pub sort: CanonicalName,
}

impl MappedReferent {
    pub fn new(name: CanonicalName, sort: CanonicalName) -> (r: Self)
        ensures
            r == (MappedReferent { name, sort }),
    {
        MappedReferent { name, sort }
    }
}

/// A value the mapper observed for a property.
#[derive(Clone, Debug, PartialEq, Eq)]
pub enum MappedValue {
    Bool(bool),
    U64(u64),
    Name(CanonicalName),
    Names(Vec<CanonicalName>),
    DurationSeconds(u64),
}

/// A claim that a referent's property had a value when observed.
#[derive(Clone, Debug, PartialEq, Eq)]
pub struct MappedPropertyClaim {
    pub subject: CanonicalName,
    pub property: CanonicalName,
    pub value: MappedValue,
    pub observed_at: Timestamp,
}

impl MappedPropertyClaim {
    pub fn new(
        subject: CanonicalName,
        property: CanonicalName,
        value: MappedValue,
        observed_at: Timestamp,
    ) -> (r: Self)
        ensures
            r == (MappedPropertyClaim { subject, property, value, observed_at }),
    {
        MappedPropertyClaim { subject, property, value, observed_at }
    }
}

/// Why mapping failed.
#[derive(Clone, Debug, PartialEq, Eq)]
pub enum MapError {
    InvalidInput(MapErrorCode),
    InvalidOutput(Vec<MapViolation>),
}

/// Why an input could not be mapped.
#[derive(Clone, Copy, Debug, PartialEq, Eq, Structural)]
pub enum MapErrorCode {
    UnsupportedInput,
    InvalidInputShape,
    AmbiguousInput,
}

/// A rule that mapped evidence broke.
#[derive(Clone, Debug, PartialEq, Eq)]
pub enum MapViolation {
    DuplicateReferent(CanonicalName),
    DuplicatePropertyClaim { subject: CanonicalName, property: CanonicalName },
    PropertyClaimSubjectMissing { subject: CanonicalName, property: CanonicalName },
}

impl ThreeWay for MappedReferent {
    /// By name, then by sort.
    open spec fn order(&self, other: &Self) -> int {
        if text_order(self.name@, other.name@) != 0 {
            text_order(self.name@, other.name@)
        } else {
            text_order(self.sort@, other.sort@)
        }
    }

    fn compare(&self, other: &Self) -> (r: i8) {
        let c = text_compare(self.name.as_str(), other.name.as_str());
        if c != 0 {
            c
        } else {
            text_compare(self.sort.as_str(), other.sort.as_str())
        }
    }

    proof fn lemma_antisymmetric(a: &Self, b: &Self) {
        lemma_text_antisymmetric(a.name@, b.name@);
        lemma_text_antisymmetric(a.sort@, b.sort@);
    }
}

/// The position of each kind of value in the order of kinds.
pub open spec fn value_kind(v: MappedValue) -> int {
    match v {
        MappedValue::Bool(_) => 0,
        MappedValue::U64(_) => 1,
        MappedValue::Name(_) => 2,
        MappedValue::Names(_) => 3,
        MappedValue::DurationSeconds(_) => 4,
    }
}

/// Lexicographic order of name lists, a proper prefix first.
pub open spec fn names_order(a: Seq<CanonicalName>, b: Seq<CanonicalName>) -> int
    decreases a.len(),
{
    if a.len() == 0 {
        if b.len() == 0 {
            0
        } else {
            -1
        }
    } else if b.len() == 0 {
        1
    } else if text_order(a[0]@, b[0]@) != 0 {
        text_order(a[0]@, b[0]@)
    } else {
        names_order(a.drop_first(), b.drop_first())
    }
}

/// Values by kind, then by what they hold: false before true, numbers by
/// value, names by text, name lists lexicographically.
pub open spec fn value_order(a: MappedValue, b: MappedValue) -> int {
    if value_kind(a) != value_kind(b) {
        sign_of(value_kind(a), value_kind(b))
    } else {
        match (a, b) {
            (MappedValue::Bool(x), MappedValue::Bool(y)) => sign_of(
                if x {
                    1int
                } else {
                    0int
                },
                if y {
                    1int
                } else {
                    0int
                },
            ),
            (MappedValue::U64(x), MappedValue::U64(y)) => sign_of(x as int, y as int),
            (MappedValue::Name(x), MappedValue::Name(y)) => text_order(x@, y@),
            (MappedValue::Names(x), MappedValue::Names(y)) => names_order(x@, y@),
            (MappedValue::DurationSeconds(x), MappedValue::DurationSeconds(y)) => sign_of(
                x as int,
                y as int,
            ),
            _ => 0,
        }
    }
}

proof fn lemma_names_antisymmetric(a: Seq<CanonicalName>, b: Seq<CanonicalName>)
    ensures
        names_order(a, b) == -names_order(b, a),
    decreases a.len(),
{
    if a.len() > 0 && b.len() > 0 {
        lemma_text_antisymmetric(a[0]@, b[0]@);
        lemma_names_antisymmetric(a.drop_first(), b.drop_first());
    }
}

fn int_compare(x: u64, y: u64) -> (r: i8)
    ensures
        r == sign_of(x as int, y as int),
{
    if x < y {
        -1
    } else if x == y {
        0
    } else {
        1
    }
}

fn names_compare(a: &[CanonicalName], b: &[CanonicalName]) -> (r: i8)
    ensures
        r == names_order(a@, b@),
{
    let mut i: usize = 0;
    assert(a@.skip(0) =~= a@);
    assert(b@.skip(0) =~= b@);
    while i < a.len() && i < b.len()
        invariant
            i <= a@.len(),
            i <= b@.len(),
            names_order(a@, b@) == names_order(a@.skip(i as int), b@.skip(i as int)),
        decreases a@.len() - i,
    {
        assert(a@.skip(i as int)[0] == a@[i as int]);
        assert(b@.skip(i as int)[0] == b@[i as int]);
        let c = text_compare(a[i].as_str(), b[i].as_str());
        if c != 0 {
            return c;
        }
        assert(a@.skip(i as int).drop_first() =~= a@.skip(i + 1));
        assert(b@.skip(i as int).drop_first() =~= b@.skip(i + 1));
        i = i + 1;
    }
    if i < a.len() {
        1
    } else if i < b.len() {
        -1
    } else {
        0
    }
}

fn kind_position(v: &MappedValue) -> (r: u8)
    ensures
        r == value_kind(*v),
{
    match v {
        MappedValue::Bool(_) => 0,
        MappedValue::U64(_) => 1,
        MappedValue::Name(_) => 2,
        MappedValue::Names(_) => 3,
        MappedValue::DurationSeconds(_) => 4,
    }
}

pub(crate) fn value_compare(a: &MappedValue, b: &MappedValue) -> (r: i8)
    ensures
        r == value_order(*a, *b),
{
    let ka = kind_position(a);
    let kb = kind_position(b);
    if ka != kb {
        return if ka < kb {
            -1
        } else {
            1
        };
    }
    match (a, b) {
        (MappedValue::Bool(x), MappedValue::Bool(y)) => {
            if *x == *y {
                0
            } else if !*x {
                -1
            } else {
                1
            }
        },
        (MappedValue::U64(x), MappedValue::U64(y)) => int_compare(*x, *y),
        (MappedValue::Name(x), MappedValue::Name(y)) => text_compare(x.as_str(), y.as_str()),
        (MappedValue::Names(x), MappedValue::Names(y)) => names_compare(x.as_slice(), y.as_slice()),
        (MappedValue::DurationSeconds(x), MappedValue::DurationSeconds(y)) => int_compare(*x, *y),
        _ => 0,
    }
}

impl ThreeWay for MappedPropertyClaim {
    /// By subject, then property, then value.
    open spec fn order(&self, other: &Self) -> int {
        if text_order(self.subject@, other.subject@) != 0 {
            text_order(self.subject@, other.subject@)
        } else if text_order(self.property@, other.property@) != 0 {
            text_order(self.property@, other.property@)
        } else {
            value_order(self.value, other.value)
        }
    }

    fn compare(&self, other: &Self) -> (r: i8) {
        let c = text_compare(self.subject.as_str(), other.subject.as_str());
        if c != 0 {
            return c;
        }
        let p = text_compare(self.property.as_str(), other.property.as_str());
        if p != 0 {
            return p;
        }
        value_compare(&self.value, &other.value)
    }

    proof fn lemma_antisymmetric(a: &Self, b: &Self) {
        lemma_text_antisymmetric(a.subject@, b.subject@);
        lemma_text_antisymmetric(a.property@, b.property@);
        match (a.value, b.value) {
            (MappedValue::Name(x), MappedValue::Name(y)) => lemma_text_antisymmetric(x@, y@),
            (MappedValue::Names(x), MappedValue::Names(y)) => lemma_names_antisymmetric(x@, y@),
            _ => {},
        }
    }
}

/// A violation value, by the texts it names.
pub enum ViolationView {
    DuplicateReferent(Seq<char>),
    DuplicatePropertyClaim(Seq<char>, Seq<char>),
    PropertyClaimSubjectMissing(Seq<char>, Seq<char>),
}

impl View for MapViolation {
    type V = ViolationView;

    open spec fn view(&self) -> ViolationView {
        match self {
            MapViolation::DuplicateReferent(n) => ViolationView::DuplicateReferent(n@),
            MapViolation::DuplicatePropertyClaim { subject, property } =>
                ViolationView::DuplicatePropertyClaim(subject@, property@),
            MapViolation::PropertyClaimSubjectMissing { subject, property } =>
                ViolationView::PropertyClaimSubjectMissing(subject@, property@),
        }
    }
}

/// The violations as values.
pub open spec fn violations_view(v: Seq<MapViolation>) -> Seq<ViolationView> {
    v.map_values(|x: MapViolation| x@)
}

/// A duplicate for each referent named as the one before it.
pub open spec fn duplicate_referents(rs: Seq<MappedReferent>) -> Seq<ViolationView>
    decreases rs.len(),
{
    if rs.len() < 2 {
        Seq::empty()
    } else {
        let before = rs[rs.len() - 2];
        duplicate_referents(rs.drop_last()) + if before.name@ == rs.last().name@ {
            seq![ViolationView::DuplicateReferent(rs.last().name@)]
        } else {
            Seq::empty()
        }
    }
}

/// A duplicate for each claim with the subject and property of the one
/// before it.
pub open spec fn duplicate_claims(cs: Seq<MappedPropertyClaim>) -> Seq<ViolationView>
    decreases cs.len(),
{
    if cs.len() < 2 {
        Seq::empty()
    } else {
        let before = cs[cs.len() - 2];
        let c = cs.last();
        duplicate_claims(cs.drop_last()) + if before.subject@ == c.subject@ && before.property@
            == c.property@ {
            seq![ViolationView::DuplicatePropertyClaim(c.subject@, c.property@)]
        } else {
            Seq::empty()
        }
    }
}

/// Whether some referent has the name.
pub open spec fn names_referent(rs: Seq<MappedReferent>, name: Seq<char>) -> bool {
    exists|i: int| 0 <= i < rs.len() && (#[trigger] rs[i]).name@ == name
}

/// A missing-subject violation for each claim about no referent.
pub open spec fn dangling_claims(rs: Seq<MappedReferent>, cs: Seq<MappedPropertyClaim>) -> Seq<
    ViolationView,
>
    decreases cs.len(),
{
    if cs.len() == 0 {
        Seq::empty()
    } else {
        let c = cs.last();
        dangling_claims(rs, cs.drop_last()) + if names_referent(rs, c.subject@) {
            Seq::empty()
        } else {
            seq![ViolationView::PropertyClaimSubjectMissing(c.subject@, c.property@)]
        }
    }
}

/// Every violation of sorted referents and claims, in the order: duplicate
/// referents, duplicate claims, dangling claims.
pub open spec fn evidence_violations(rs: Seq<MappedReferent>, cs: Seq<MappedPropertyClaim>) -> Seq<
    ViolationView,
> {
    duplicate_referents(rs) + duplicate_claims(cs) + dangling_claims(rs, cs)
}

/// Mapped evidence: the source, and its referents and claims in order.
#[derive(Clone, Debug, PartialEq, Eq)]
pub struct MappedEvidence {
    source: MappedSource,
    referents: Vec<MappedReferent>,
    property_claims: Vec<MappedPropertyClaim>,
}

impl MappedEvidence {
    pub closed spec fn source_of(self) -> MappedSource {
        self.source
    }

    pub closed spec fn referents_of(self) -> Seq<MappedReferent> {
        self.referents@
    }

    pub closed spec fn claims_of(self) -> Seq<MappedPropertyClaim> {
        self.property_claims@
    }

    /// Builds evidence from referents and claims in any order: both are
    /// sorted (referents by name then sort; claims by subject, property,
    /// value), and the evidence is refused, with every violation, when a
    /// referent repeats a name, a claim repeats a subject and property, or a
    /// claim is about no referent.
    pub fn new(
        source: MappedSource,
        referents: Vec<MappedReferent>,
        property_claims: Vec<MappedPropertyClaim>,
    ) -> (r: Result<Self, MapError>)
        ensures
            exists|rs: Seq<MappedReferent>, cs: Seq<MappedPropertyClaim>|
                #![trigger evidence_violations(rs, cs)]
                ordered_adjacent(rs) && rs.to_multiset() == referents@.to_multiset()
                    && ordered_adjacent(cs) && cs.to_multiset() == property_claims@.to_multiset()
                    && match r {
                    Ok(e) => evidence_violations(rs, cs).len() == 0 && e.source_of() == source
                        && e.referents_of() == rs && e.claims_of() == cs,
                    Err(MapError::InvalidOutput(v)) => evidence_violations(rs, cs).len() > 0
                        && violations_view(v@) == evidence_violations(rs, cs),
                    Err(MapError::InvalidInput(_)) => false,
                },
    {
        let referents = sort_three_way(referents);
        let property_claims = sort_three_way(property_claims);
        let mut violations: Vec<MapViolation> = Vec::new();
        let mut i: usize = 1;
        assert(violations_view(violations@) =~= Seq::<ViolationView>::empty());
        while i < referents.len()
            invariant
                1 <= i,
                i <= referents@.len() || referents@.len() == 0,
                referents@.len() > 0 ==> violations_view(violations@) == duplicate_referents(
                    referents@.take(i as int),
                ),
                referents@.len() == 0 ==> violations@.len() == 0,
            decreases referents@.len() - i,
        {
            proof {
                let t = referents@.take(i + 1);
                assert(t.drop_last() =~= referents@.take(i as int));
                assert(t.last() == referents@[i as int]);
                assert(t[t.len() - 2] == referents@[i - 1]);
            }
            let ghost before = violations@;
            if referents[i - 1].name.same_text(&referents[i].name) {
                violations.push(MapViolation::DuplicateReferent(referents[i].name.duplicate()));
            }
            proof {
                assert(violations_view(violations@) =~= duplicate_referents(referents@.take(i + 1)));
            }
            i = i + 1;
        }
        proof {
            if referents@.len() > 0 {
                assert(referents@.take(referents@.len() as int) =~= referents@);
            } else {
                assert(violations_view(violations@) =~= duplicate_referents(referents@));
            }
        }
        let ghost after_referents = violations@;
        let mut j: usize = 1;
        while j < property_claims.len()
            invariant
                1 <= j,
                j <= property_claims@.len() || property_claims@.len() == 0,
                property_claims@.len() > 0 ==> violations_view(violations@) == violations_view(
                    after_referents,
                ) + duplicate_claims(property_claims@.take(j as int)),
                property_claims@.len() == 0 ==> violations@ == after_referents,
            decreases property_claims@.len() - j,
        {
            proof {
                let t = property_claims@.take(j + 1);
                assert(t.drop_last() =~= property_claims@.take(j as int));
                assert(t.last() == property_claims@[j as int]);
                assert(t[t.len() - 2] == property_claims@[j - 1]);
                if j == 1 {
                    assert(duplicate_claims(property_claims@.take(1)) =~= Seq::<ViolationView>::empty());
                }
            }
            let ghost before = violations@;
            let prev = &property_claims[j - 1];
            let cur = &property_claims[j];
            if prev.subject.same_text(&cur.subject) && prev.property.same_text(&cur.property) {
                violations.push(
                    MapViolation::DuplicatePropertyClaim {
                        subject: cur.subject.duplicate(),
                        property: cur.property.duplicate(),
                    },
                );
            }
            proof {
                let t = property_claims@.take(j + 1);
                let step = duplicate_claims(t).subrange(duplicate_claims(t.drop_last()).len() as int, duplicate_claims(t).len() as int);
                assert(duplicate_claims(t) =~= duplicate_claims(t.drop_last()) + step);
                assert(violations_view(violations@) =~= violations_view(before) + step);
                assert(violations_view(violations@) =~= violations_view(after_referents)
                    + duplicate_claims(property_claims@.take(j + 1)));
            }
            j = j + 1;
        }
        proof {
            if property_claims@.len() > 0 {
                assert(property_claims@.take(property_claims@.len() as int) =~= property_claims@);
            } else {
                assert(duplicate_claims(property_claims@) =~= Seq::<ViolationView>::empty());
                assert(violations_view(violations@) =~= violations_view(after_referents)
                    + duplicate_claims(property_claims@));
            }
        }
        let ghost after_duplicates = violations@;
        let mut k: usize = 0;
        while k < property_claims.len()
            invariant
                k <= property_claims@.len(),
                violations_view(violations@) == violations_view(after_duplicates) + dangling_claims(
                    referents@,
                    property_claims@.take(k as int),
                ),
            decreases property_claims@.len() - k,
        {
            proof {
                let t = property_claims@.take(k + 1);
                assert(t.drop_last() =~= property_claims@.take(k as int));
                assert(t.last() == property_claims@[k as int]);
            }
            let claim = &property_claims[k];
            let mut found = false;
            let mut m: usize = 0;
            while m < referents.len()
                invariant
                    m <= referents@.len(),
                    found == exists|x: int| 0 <= x < m && (#[trigger] referents@[x]).name@
                        == claim.subject@,
                decreases referents@.len() - m,
            {
                if referents[m].name.same_text(&claim.subject) {
                    found = true;
                }
                m = m + 1;
            }
            let ghost before_missing = violations@;
            if !found {
                violations.push(
                    MapViolation::PropertyClaimSubjectMissing {
                        subject: claim.subject.duplicate(),
                        property: claim.property.duplicate(),
                    },
                );
            }
            proof {
                let t = property_claims@.take(k + 1);
                let step = dangling_claims(referents@, t).subrange(
                    dangling_claims(referents@, t.drop_last()).len() as int,
                    dangling_claims(referents@, t).len() as int,
                );
                assert(dangling_claims(referents@, t) =~= dangling_claims(referents@, t.drop_last()) + step);
                assert(found == names_referent(referents@, claim.subject@));
                assert(violations_view(violations@) =~= violations_view(before_missing) + step);
                assert(violations_view(violations@) =~= violations_view(after_duplicates)
                    + dangling_claims(referents@, property_claims@.take(k + 1)));
            }
            k = k + 1;
        }
        proof {
            assert(property_claims@.take(property_claims@.len() as int) =~= property_claims@);
            assert(violations_view(violations@) =~= evidence_violations(referents@, property_claims@));
        }
        if violations.len() > 0 {
            return Err(MapError::InvalidOutput(violations));
        }
        Ok(MappedEvidence { source, referents, property_claims })
    }

    pub fn source(&self) -> (r: &MappedSource)
        ensures
            *r == self.source_of(),
    {
        &self.source
    }

    pub fn referents(&self) -> (r: &[MappedReferent])
        ensures
            r@ == self.referents_of(),
    {
        self.referents.as_slice()
    }

    pub fn property_claims(&self) -> (r: &[MappedPropertyClaim])
        ensures
            r@ == self.claims_of(),
    {
        self.property_claims.as_slice()
    }
}

} // verus!
