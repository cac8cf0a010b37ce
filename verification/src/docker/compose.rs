//! Mapping of Docker Compose services into neutral evidence.
use vstd::prelude::*;

use crate::canon::ordering::ordered_adjacent;
use crate::docker::vocab::{canonical_name, vocabulary_version, PRIVILEGED, SERVICE};
use crate::kernel::declared::{CanonicalName, SemVer, Timestamp};
use crate::kernel::duplicate::Duplicate;
use crate::mapper::{
    evidence_violations, violations_view, MapError, MapErrorCode, MappedEvidence,
    MappedPropertyClaim, MappedReferent, MappedSource, MappedValue, Mapper, MapperIdentity,
};

verus! {

/// One service of a Compose file: its name and, when set, whether it runs
/// privileged.
#[derive(Debug, Clone, PartialEq, Eq)]
pub struct ComposeService {
    pub name: String,
    pub privileged: Option<bool>,
}

/// Maps Compose services into evidence observed at one instant.
#[derive(Debug, Clone, Copy)]
pub struct DockerComposeMapper {
    observed_at: Timestamp,
}

fn name_of(text: &'static str) -> (r: CanonicalName)
    requires
        crate::docker::vocab::is_canonical_text(text@),
    ensures
        r@ == text@,
{
    canonical_name(text)
}

fn compose_name() -> (r: CanonicalName)
    ensures
        r@ == "docker-compose"@,
{
    proof {
        reveal_strlit("docker-compose");
        assert(crate::docker::vocab::is_canonical_text("docker-compose"@));
    }
    name_of("docker-compose")
}

fn compose_yaml_name() -> (r: CanonicalName)
    ensures
        r@ == "docker-compose-yaml"@,
{
    proof {
        reveal_strlit("docker-compose-yaml");
        assert(crate::docker::vocab::is_canonical_text("docker-compose-yaml"@));
    }
    name_of("docker-compose-yaml")
}

fn service_sort() -> (r: CanonicalName)
    ensures
        r@ == "service"@,
{
    proof {
        reveal_strlit("service");
        assert(crate::docker::vocab::is_canonical_text("service"@));
    }
    name_of(SERVICE)
}

fn privileged_property() -> (r: CanonicalName)
    ensures
        r@ == "privileged"@,
{
    proof {
        reveal_strlit("privileged");
        assert(crate::docker::vocab::is_canonical_text("privileged"@));
    }
    name_of(PRIVILEGED)
}

/// The referent each service stands for: its name, of the service sort.
pub open spec fn service_referents(services: Seq<ComposeService>) -> Seq<(Seq<char>, Seq<char>)> {
    services.map_values(|s: ComposeService| (s.name@, "service"@))
}

/// The privileged claims of the services that set it, in order.
pub open spec fn privileged_claims(services: Seq<ComposeService>) -> Seq<(Seq<char>, bool)>
    decreases services.len(),
{
    if services.len() == 0 {
        Seq::empty()
    } else {
        let s = services.last();
        privileged_claims(services.drop_last()) + match s.privileged {
            Some(p) => seq![(s.name@, p)],
            None => Seq::empty(),
        }
    }
}

/// A referent as a pair of texts.
pub open spec fn referent_pair(r: MappedReferent) -> (Seq<char>, Seq<char>) {
    (r.name@, r.sort@)
}

/// A privileged claim as its subject and value, when it is one.
pub open spec fn claim_pair(c: MappedPropertyClaim) -> (Seq<char>, bool) {
    (c.subject@, match c.value {
        MappedValue::Bool(b) => b,
        _ => false,
    })
}

/// The referents as pairs of texts.
pub open spec fn referent_pairs(rs: Seq<MappedReferent>) -> Seq<(Seq<char>, Seq<char>)> {
    rs.map_values(|x: MappedReferent| referent_pair(x))
}

/// The claims as subjects and values.
pub open spec fn claim_pairs(cs: Seq<MappedPropertyClaim>) -> Seq<(Seq<char>, bool)> {
    cs.map_values(|x: MappedPropertyClaim| claim_pair(x))
}

/// Whether every claim is a boolean privileged claim observed at the instant.
pub open spec fn privileged_at(cs: Seq<MappedPropertyClaim>, at: Timestamp) -> bool {
    forall|i: int|
        0 <= i < cs.len() ==> (#[trigger] cs[i]).property@ == "privileged"@ && cs[i].value is Bool
            && cs[i].observed_at == at
}

impl DockerComposeMapper {
    pub fn new(observed_at: Timestamp) -> (r: Self)
        ensures
            r.instant() == observed_at,
    {
        DockerComposeMapper { observed_at }
    }

    pub closed spec fn instant(self) -> Timestamp {
        self.observed_at
    }

    /// Maps services into evidence: a referent of the service sort for each
    /// service, and a privileged claim for each service that sets it. A
    /// service whose name is not canonical makes the input invalid.
    pub fn map_services(&self, services: &[ComposeService]) -> (r: Result<MappedEvidence, MapError>)
        ensures
            (exists|i: int|
                0 <= i < services@.len() && !crate::docker::vocab::is_canonical_text(
                    #[trigger] services@[i].name@,
                )) ==> r == Err::<MappedEvidence, MapError>(
                MapError::InvalidInput(MapErrorCode::InvalidInputShape),
            ),
            (forall|i: int|
                0 <= i < services@.len() ==> crate::docker::vocab::is_canonical_text(
                    #[trigger] services@[i].name@,
                )) ==> exists|rs: Seq<MappedReferent>, cs: Seq<MappedPropertyClaim>|
                #![trigger evidence_violations(rs, cs)]
                ordered_adjacent(rs) && ordered_adjacent(cs) && referent_pairs(rs).to_multiset() == service_referents(services@).to_multiset() && claim_pairs(cs).to_multiset() == privileged_claims(services@).to_multiset() && privileged_at(
                    cs,
                    self.instant(),
                ) && match r {
                    Ok(e) => evidence_violations(rs, cs).len() == 0 && e.referents_of() == rs
                        && e.claims_of() == cs && e.source_of().input_kind@ == "docker-compose-yaml"@
                        && e.source_of().mapper.name@ == "docker-compose"@
                        && e.source_of().mapper.version == vocabulary_version_value()
                        && e.source_of().observed_at == self.instant(),
                    Err(MapError::InvalidOutput(v)) => violations_view(v@) == evidence_violations(
                        rs,
                        cs,
                    ),
                    Err(MapError::InvalidInput(_)) => false,
                },
    {
        let mut referents: Vec<MappedReferent> = Vec::new();
        let mut claims: Vec<MappedPropertyClaim> = Vec::new();
        let mut i: usize = 0;
        while i < services.len()
            invariant
                i <= services@.len(),
                forall|k: int| 0 <= k < i ==> crate::docker::vocab::is_canonical_text(
                    #[trigger] services@[k].name@,
                ),
                referent_pairs(referents@) == service_referents(
                    services@.take(i as int),
                ),
                claim_pairs(claims@) == privileged_claims(
                    services@.take(i as int),
                ),
                privileged_at(claims@, self.observed_at),
            decreases services@.len() - i,
        {
            let service = &services[i];
            let subject = match CanonicalName::new(crate::text::owned(service.name.as_str())) {
                Ok(n) => n,
                Err(_) => {
                    proof {
                        assert(!crate::docker::vocab::is_canonical_text(services@[i as int].name@));
                    }
                    return Err(MapError::InvalidInput(MapErrorCode::InvalidInputShape));
                },
            };
            proof {
                assert(services@.take(i + 1).drop_last() =~= services@.take(i as int));
                assert(services@.take(i + 1).last() == services@[i as int]);
            }
            let ghost rb = referents@;
            let ghost cb = claims@;
            referents.push(MappedReferent::new(subject.duplicate(), service_sort()));
            proof {
                assert(referent_pairs(referents@) =~= referent_pairs(rb).push((services@[i as int].name@, "service"@)));
                assert(service_referents(services@.take(i + 1)) =~= service_referents(services@.take(i as int)).push((services@[i as int].name@, "service"@)));
            }
            assert(referent_pairs(referents@) =~= service_referents(
                services@.take(i + 1),
            ));
            match service.privileged {
                Some(p) => {
                    claims.push(
                        MappedPropertyClaim::new(
                            subject,
                            privileged_property(),
                            MappedValue::Bool(p),
                            self.observed_at,
                        ),
                    );
                },
                None => {},
            }
            assert(claim_pairs(claims@) =~= privileged_claims(
                services@.take(i + 1),
            ));
            i = i + 1;
        }
        assert(services@.take(services@.len() as int) =~= services@);
        let ghost rv = referents@;
        let ghost cv = claims@;
        let source = MappedSource::new(
            MapperIdentity::new(compose_name(), vocabulary_version()),
            compose_yaml_name(),
            self.observed_at,
        );
        let r = MappedEvidence::new(source, referents, claims);
        proof {
            let (rs, cs) = choose|rs: Seq<MappedReferent>, cs: Seq<MappedPropertyClaim>|
                #![trigger evidence_violations(rs, cs)]
                ordered_adjacent(rs) && rs.to_multiset() == rv.to_multiset() && ordered_adjacent(cs)
                    && cs.to_multiset() == cv.to_multiset() && match r {
                    Ok(e) => evidence_violations(rs, cs).len() == 0 && e.source_of() == source
                        && e.referents_of() == rs && e.claims_of() == cs,
                    Err(MapError::InvalidOutput(v)) => evidence_violations(rs, cs).len() > 0
                        && violations_view(v@) == evidence_violations(rs, cs),
                    Err(MapError::InvalidInput(_)) => false,
                };
            lemma_map_multiset(rs, rv, |x: MappedReferent| referent_pair(x));
            lemma_map_multiset(cs, cv, |x: MappedPropertyClaim| claim_pair(x));
            assert(referent_pairs(rs) == rs.map_values(|x: MappedReferent| referent_pair(x)));
            assert forall|k: int| 0 <= k < cs.len() implies (#[trigger] cs[k]).property@
                == "privileged"@ && cs[k].value is Bool && cs[k].observed_at == self.observed_at by {
                vstd::seq_lib::to_multiset_contains(cs, cs[k]);
                assert(cv.to_multiset().count(cs[k]) > 0);
                vstd::seq_lib::to_multiset_contains(cv, cs[k]);
                let j = choose|j: int| 0 <= j < cv.len() && cv[j] == cs[k];
            }
        }
        r
    }
}

/// The vocabulary's version as a value.
pub open spec fn vocabulary_version_value() -> SemVer {
    SemVer { major: 0, minor: 1, patch: 0 }
}

/// Permutations map to permutations.
proof fn lemma_map_multiset<A, B>(x: Seq<A>, y: Seq<A>, f: spec_fn(A) -> B)
    requires
        x.to_multiset() == y.to_multiset(),
    ensures
        x.map_values(f).to_multiset() == y.map_values(f).to_multiset(),
    decreases x.len(),
{
    broadcast use vstd::seq_lib::group_to_multiset_ensures;
    broadcast use vstd::multiset::group_multiset_axioms;

    vstd::seq_lib::to_multiset_len(x);
    vstd::seq_lib::to_multiset_len(y);
    if x.len() == 0 {
        assert(y.len() == 0);
        assert(x.map_values(f) =~= y.map_values(f));
    } else {
        let a = x.last();
        assert(x.to_multiset().count(a) > 0) by {
            vstd::seq_lib::to_multiset_contains(x, a);
        }
        assert(y.contains(a));
        let j = choose|j: int| 0 <= j < y.len() && y[j] == a;
        let y2 = y.remove(j);
        assert(x.drop_last().push(a) =~= x);
        assert(x.drop_last().to_multiset() == x.to_multiset().remove(a));
        assert(y2.to_multiset() == y.to_multiset().remove(a));
        lemma_map_multiset(x.drop_last(), y2, f);
        assert(x.map_values(f) =~= x.drop_last().map_values(f).push(f(a)));
        assert(y2.map_values(f) =~= y.map_values(f).remove(j));
        assert(y.map_values(f)[j] == f(a));
        assert(y.map_values(f).to_multiset().count(f(a)) > 0) by {
            vstd::seq_lib::to_multiset_contains(y.map_values(f), f(a));
        }
        assert(y.map_values(f).to_multiset() =~= y2.map_values(f).to_multiset().insert(f(a)));
    }
}

impl Mapper for DockerComposeMapper {
    type Input = Vec<ComposeService>;

    fn identity(&self) -> MapperIdentity {
        MapperIdentity::new(compose_name(), vocabulary_version())
    }

    fn map(&self, input: &Vec<ComposeService>) -> Result<MappedEvidence, MapError> {
        self.map_services(input.as_slice())
    }
}

} // verus!
