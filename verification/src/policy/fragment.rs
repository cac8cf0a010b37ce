//! Compiled policy fragments and their merge: every section of every fragment
//! is pooled, sorted by name, and items repeated under one name collapse when
//! they agree field for field; when they disagree the merge is refused.
use vstd::prelude::*;

use crate::canon::ordering::{sort_by_text_key, sorted_by_key, strictly_sorted_by_key, TextKeyed};
use crate::declare::error::SymbolicNameError;
use crate::declare::name::SymbolicName;
use crate::declare::spec::{
    names_view, EdgeSpec, PolicySpec, ReferentSpec, RequirementSpec, RequirementValueSpec,
    ScopePredicateSpec, ScopeSpec, VersionSpec,
};
use crate::kernel::duplicate::duplicate_vec;
use crate::policy::schema::PolicyKind;
use crate::text::{
    lemma_seq_lt_asymmetric, lemma_seq_lt_irreflexive, lemma_seq_lt_transitive, owned, seq_le,
    seq_lt, str_lt,
};

verus! {

broadcast use vstd::seq_lib::group_to_multiset_ensures;

/// The declarations that one or more policies compile to.
#[derive(Debug, Clone, PartialEq, Eq)]
pub struct CompiledPolicyFragment {
    pub scopes: Vec<ScopeSpec>,
    pub requirements: Vec<RequirementSpec>,
    pub policies: Vec<PolicySpec>,
    pub referents: Vec<ReferentSpec>,
    pub edges: Vec<EdgeSpec>,
}

impl Default for CompiledPolicyFragment {
    /// A fragment with nothing in it.
    fn default() -> (r: Self)
        ensures
            r.scopes@.len() == 0,
            r.requirements@.len() == 0,
            r.policies@.len() == 0,
            r.referents@.len() == 0,
            r.edges@.len() == 0,
    {
        CompiledPolicyFragment {
            scopes: Vec::new(),
            requirements: Vec::new(),
            policies: Vec::new(),
            referents: Vec::new(),
            edges: Vec::new(),
        }
    }
}

/// Why a policy could not be compiled or fragments merged.
#[derive(Debug, Clone, PartialEq, Eq)]
pub enum PolicyCompileError {
    UnsupportedPolicyKind { kind: PolicyKind },
    InconsistentPolicyKind { expected: PolicyKind, found: PolicyKind },
    InvalidSymbolicName { field: &'static str, value: String, source: SymbolicNameError },
    InvalidVersion { value: String },
    EmptyRequirements { kind: PolicyKind, policy_name: String },
    ConflictingDuplicate { section: &'static str, name: String },
}

/// An item of a fragment section: ordered by its name, compared and copied
/// field for field.
pub trait FragmentItem: TextKeyed + View + Sized {
    /// Whether the two agree in every field.
    fn same_item(&self, other: &Self) -> (r: bool)
        ensures
            r == (self@ == other@),
    ;

    /// A copy that agrees in every field.
    fn copy_item(&self) -> (r: Self)
        ensures
            r@ == self@,
    ;

    /// The item's name.
    fn name_text(&self) -> (r: String)
        ensures
            r@ == self.text_key(),
    ;

    /// Items that agree in every field have the same name.
    proof fn lemma_key_of_view(a: &Self, b: &Self)
        requires
            a@ == b@,
        ensures
            a.text_key() == b.text_key(),
    ;
}

fn symbolic_lt(a: &SymbolicName, b: &SymbolicName) -> (r: bool)
    ensures
        r == seq_lt(a@, b@),
{
    str_lt(a.as_str(), b.as_str())
}

fn same_version(a: &VersionSpec, b: &VersionSpec) -> (r: bool)
    ensures
        r == (*a == *b),
{
    a.major == b.major && a.minor == b.minor && a.patch == b.patch
}

fn copy_version(a: &VersionSpec) -> (r: VersionSpec)
    ensures
        r == *a,
{
    VersionSpec { major: a.major, minor: a.minor, patch: a.patch }
}

fn same_predicate(a: &ScopePredicateSpec, b: &ScopePredicateSpec) -> (r: bool)
    ensures
        r == (a@ == b@),
{
    match (a, b) {
        (ScopePredicateSpec::All, ScopePredicateSpec::All) => true,
        (ScopePredicateSpec::HasTag(x), ScopePredicateSpec::HasTag(y)) => x.same_text(y),
        (ScopePredicateSpec::NameEquals(x), ScopePredicateSpec::NameEquals(y)) => x.same_text(y),
        _ => false,
    }
}

fn copy_predicate(a: &ScopePredicateSpec) -> (r: ScopePredicateSpec)
    ensures
        r@ == a@,
{
    match a {
        ScopePredicateSpec::All => ScopePredicateSpec::All,
        ScopePredicateSpec::HasTag(n) => ScopePredicateSpec::HasTag(n.clone()),
        ScopePredicateSpec::NameEquals(n) => ScopePredicateSpec::NameEquals(n.clone()),
    }
}

fn same_names(a: &Vec<SymbolicName>, b: &Vec<SymbolicName>) -> (r: bool)
    ensures
        r == (names_view(a@) == names_view(b@)),
{
    if a.len() != b.len() {
        proof {
            assert(names_view(a@).len() != names_view(b@).len());
        }
        return false;
    }
    let mut i: usize = 0;
    while i < a.len()
        invariant
            a@.len() == b@.len(),
            i <= a@.len(),
            forall|k: int| 0 <= k < i ==> (#[trigger] a@[k])@ == b@[k]@,
        decreases a@.len() - i,
    {
        if !a[i].same_text(&b[i]) {
            proof {
                assert(names_view(a@)[i as int] != names_view(b@)[i as int]);
            }
            return false;
        }
        i = i + 1;
    }
    assert(names_view(a@) =~= names_view(b@));
    true
}

fn same_value(a: &RequirementValueSpec, b: &RequirementValueSpec) -> (r: bool)
    ensures
        r == (a@ == b@),
{
    match (a, b) {
        (RequirementValueSpec::Bool(x), RequirementValueSpec::Bool(y)) => *x == *y,
        (RequirementValueSpec::U64(x), RequirementValueSpec::U64(y)) => *x == *y,
        (RequirementValueSpec::Name(x), RequirementValueSpec::Name(y)) => x.same_text(y),
        (RequirementValueSpec::Names(x), RequirementValueSpec::Names(y)) => same_names(x, y),
        (
            RequirementValueSpec::DurationSeconds(x),
            RequirementValueSpec::DurationSeconds(y),
        ) => *x == *y,
        _ => false,
    }
}

fn copy_value(a: &RequirementValueSpec) -> (r: RequirementValueSpec)
    ensures
        r@ == a@,
{
    match a {
        RequirementValueSpec::Bool(x) => RequirementValueSpec::Bool(*x),
        RequirementValueSpec::U64(x) => RequirementValueSpec::U64(*x),
        RequirementValueSpec::Name(x) => RequirementValueSpec::Name(x.clone()),
        RequirementValueSpec::Names(x) => RequirementValueSpec::Names(duplicate_vec(x)),
        RequirementValueSpec::DurationSeconds(x) => RequirementValueSpec::DurationSeconds(*x),
    }
}

impl TextKeyed for ScopeSpec {
    open spec fn text_key(&self) -> Seq<char> {
        self.name@
    }

    fn key_precedes(&self, other: &Self) -> (r: bool) {
        symbolic_lt(&self.name, &other.name)
    }
}

impl TextKeyed for RequirementSpec {
    open spec fn text_key(&self) -> Seq<char> {
        self.name@
    }

    fn key_precedes(&self, other: &Self) -> (r: bool) {
        symbolic_lt(&self.name, &other.name)
    }
}

impl TextKeyed for PolicySpec {
    open spec fn text_key(&self) -> Seq<char> {
        self.name@
    }

    fn key_precedes(&self, other: &Self) -> (r: bool) {
        symbolic_lt(&self.name, &other.name)
    }
}

impl TextKeyed for ReferentSpec {
    open spec fn text_key(&self) -> Seq<char> {
        self.name@
    }

    fn key_precedes(&self, other: &Self) -> (r: bool) {
        symbolic_lt(&self.name, &other.name)
    }
}

impl TextKeyed for EdgeSpec {
    open spec fn text_key(&self) -> Seq<char> {
        self.name@
    }

    fn key_precedes(&self, other: &Self) -> (r: bool) {
        symbolic_lt(&self.name, &other.name)
    }
}

impl FragmentItem for ScopeSpec {
    fn same_item(&self, other: &Self) -> (r: bool) {
        self.name.same_text(&other.name) && self.referent_sort == other.referent_sort
            && self.snapshot_unix_seconds == other.snapshot_unix_seconds
            && self.namespace.same_text(&other.namespace) && same_version(
            &self.mapper_version,
            &other.mapper_version,
        ) && same_predicate(&self.predicate, &other.predicate)
    }

    fn copy_item(&self) -> (r: Self) {
        ScopeSpec {
            name: self.name.clone(),
            referent_sort: self.referent_sort,
            snapshot_unix_seconds: self.snapshot_unix_seconds,
            namespace: self.namespace.clone(),
            mapper_version: copy_version(&self.mapper_version),
            predicate: copy_predicate(&self.predicate),
        }
    }

    fn name_text(&self) -> (r: String) {
        owned(self.name.as_str())
    }

    proof fn lemma_key_of_view(a: &Self, b: &Self) {
    }
}

impl FragmentItem for RequirementSpec {
    fn same_item(&self, other: &Self) -> (r: bool) {
        self.name.same_text(&other.name) && self.sort == other.sort && self.operator
            == other.operator && same_value(&self.value, &other.value)
    }

    fn copy_item(&self) -> (r: Self) {
        RequirementSpec {
            name: self.name.clone(),
            sort: self.sort,
            operator: self.operator,
            value: copy_value(&self.value),
        }
    }

    fn name_text(&self) -> (r: String) {
        owned(self.name.as_str())
    }

    proof fn lemma_key_of_view(a: &Self, b: &Self) {
    }
}

impl FragmentItem for PolicySpec {
    fn same_item(&self, other: &Self) -> (r: bool) {
        self.name.same_text(&other.name) && self.declared_by.same_text(&other.declared_by)
            && self.scope.same_text(&other.scope) && self.requirement.same_text(
            &other.requirement,
        )
    }

    fn copy_item(&self) -> (r: Self) {
        PolicySpec {
            name: self.name.clone(),
            declared_by: self.declared_by.clone(),
            scope: self.scope.clone(),
            requirement: self.requirement.clone(),
        }
    }

    fn name_text(&self) -> (r: String) {
        owned(self.name.as_str())
    }

    proof fn lemma_key_of_view(a: &Self, b: &Self) {
    }
}

impl FragmentItem for ReferentSpec {
    fn same_item(&self, other: &Self) -> (r: bool) {
        self.name.same_text(&other.name) && self.sort == other.sort
    }

    fn copy_item(&self) -> (r: Self) {
        ReferentSpec { name: self.name.clone(), sort: self.sort }
    }

    fn name_text(&self) -> (r: String) {
        owned(self.name.as_str())
    }

    proof fn lemma_key_of_view(a: &Self, b: &Self) {
    }
}

impl FragmentItem for EdgeSpec {
    fn same_item(&self, other: &Self) -> (r: bool) {
        self.name.same_text(&other.name) && self.sort == other.sort && self.direction
            == other.direction && self.first.same_text(&other.first) && self.second.same_text(
            &other.second,
        )
    }

    fn copy_item(&self) -> (r: Self) {
        EdgeSpec {
            name: self.name.clone(),
            sort: self.sort,
            direction: self.direction,
            first: self.first.clone(),
            second: self.second.clone(),
        }
    }

    fn name_text(&self) -> (r: String) {
        owned(self.name.as_str())
    }

    proof fn lemma_key_of_view(a: &Self, b: &Self) {
    }
}

/// Two items under `name` disagree in some field.
pub open spec fn conflicts_at<T: FragmentItem>(items: Seq<T>, name: Seq<char>) -> bool {
    exists|i: int, j: int|
        0 <= i < items.len() && 0 <= j < items.len() && (#[trigger] items[i]).text_key() == name
            && (#[trigger] items[j]).text_key() == name && items[i]@ != items[j]@
}

/// Some name has items that disagree.
pub open spec fn has_conflict<T: FragmentItem>(items: Seq<T>) -> bool {
    exists|name: Seq<char>| conflicts_at(items, name)
}

/// `name` is the first name, in text order, whose items disagree.
pub open spec fn least_conflict<T: FragmentItem>(items: Seq<T>, name: Seq<char>) -> bool {
    conflicts_at(items, name) && forall|m: Seq<char>| seq_lt(m, name) ==> !conflicts_at(items, m)
}

/// Some item among the first `n` of `s` agrees with `x` in every field.
pub open spec fn agrees_with_one<T: FragmentItem>(x: T, s: Seq<T>, n: int) -> bool {
    exists|j: int| 0 <= j < n && x@ == (#[trigger] s[j])@
}

/// `out` holds one item for each name of `items`, in strictly increasing
/// name order, each agreeing with the items of its name.
pub open spec fn merged<T: FragmentItem>(out: Seq<T>, items: Seq<T>) -> bool {
    &&& strictly_sorted_by_key(out)
    &&& forall|i: int|
        0 <= i < out.len() ==> #[trigger] agrees_with_one(out[i], items, items.len() as int)
    &&& forall|j: int|
        0 <= j < items.len() ==> #[trigger] agrees_with_one(items[j], out, out.len() as int)
}

/// The error reports a conflict in `section` at the first conflicting name.
pub open spec fn reports_conflict<T: FragmentItem>(
    e: PolicyCompileError,
    section: &'static str,
    items: Seq<T>,
) -> bool {
    e matches PolicyCompileError::ConflictingDuplicate { section: s, name } && s == section
        && least_conflict(items, name@)
}

pub proof fn lemma_in_permutation<T>(s1: Seq<T>, s2: Seq<T>, j: int) -> (k: int)
    requires
        s1.to_multiset() == s2.to_multiset(),
        0 <= j < s1.len(),
    ensures
        0 <= k < s2.len(),
        s2[k] == s1[j],
{
    assert(s1.to_multiset().count(s1[j]) > 0);
    assert(s2.contains(s1[j]));
    choose|k: int| 0 <= k < s2.len() && s2[k] == s1[j]
}

/// In a key-sorted sequence, an item whose key is below another's comes first.
proof fn lemma_sorted_before<T: TextKeyed>(s: Seq<T>, p: int, i: int)
    requires
        sorted_by_key(s),
        0 <= p < s.len(),
        0 <= i < s.len(),
        seq_lt(s[p].text_key(), s[i].text_key()),
    ensures
        p < i,
{
    if p >= i {
        if p > i {
            assert(seq_le(s[i].text_key(), s[p].text_key()));
            if s[i].text_key() != s[p].text_key() {
                lemma_seq_lt_asymmetric(s[i].text_key(), s[p].text_key());
            }
        }
        lemma_seq_lt_irreflexive(s[p].text_key());
    }
}

/// Every item of `out` agrees with one of the first `n` items of `s`.
#[verifier::opaque]
spec fn covers<T: FragmentItem>(out: Seq<T>, s: Seq<T>, n: int) -> bool {
    forall|k: int| 0 <= k < out.len() ==> #[trigger] agrees_with_one(out[k], s, n)
}

/// Each of the first `n` items of `s` agrees with an item of `out`.
#[verifier::opaque]
spec fn covered<T: FragmentItem>(out: Seq<T>, s: Seq<T>, n: int) -> bool {
    forall|j: int| 0 <= j < n ==> #[trigger] agrees_with_one(s[j], out, out.len() as int)
}

/// Among the first `n` items of `s`, items of one name agree.
#[verifier::opaque]
spec fn agree_upto<T: FragmentItem>(s: Seq<T>, n: int) -> bool {
    forall|a: int, b: int|
        0 <= a < n && 0 <= b < n && (#[trigger] s[a]).text_key() == (#[trigger] s[b]).text_key()
            ==> s[a]@ == s[b]@
}

proof fn lemma_skip_step<T: FragmentItem>(s: Seq<T>, out: Seq<T>, i: int)
    requires
        0 < i < s.len(),
        out.len() > 0,
        strictly_sorted_by_key(out),
        out.last()@ == s[i]@,
        covers(out, s, i),
        covered(out, s, i),
        agree_upto(s, i),
    ensures
        covers(out, s, i + 1),
        covered(out, s, i + 1),
        agree_upto(s, i + 1),
{
    lemma_covers_grow(out, s, i);
    lemma_skip_covered(out, s, i);
    lemma_skip_agree(out, s, i);
}

proof fn lemma_covers_grow<T: FragmentItem>(out: Seq<T>, s: Seq<T>, i: int)
    requires
        covers(out, s, i),
    ensures
        covers(out, s, i + 1),
{
    reveal(covers);
    assert forall|k: int| 0 <= k < out.len() implies #[trigger] agrees_with_one(
        out[k],
        s,
        i + 1,
    ) by {
        assert(agrees_with_one(out[k], s, i));
        let j = choose|j: int| 0 <= j < i && out[k]@ == (#[trigger] s[j])@;
        assert(0 <= j < i + 1 && out[k]@ == s[j]@);
    }
}

proof fn lemma_skip_covered<T: FragmentItem>(out: Seq<T>, s: Seq<T>, i: int)
    requires
        0 <= i < s.len(),
        out.len() > 0,
        out.last()@ == s[i]@,
        covered(out, s, i),
    ensures
        covered(out, s, i + 1),
{
    reveal(covered);
    assert forall|j: int| 0 <= j < i + 1 implies #[trigger] agrees_with_one(
        s[j],
        out,
        out.len() as int,
    ) by {
        if j == i {
            let last = out.len() - 1;
            assert(s[j]@ == out[last]@);
        }
    }
}

proof fn lemma_skip_agree<T: FragmentItem>(out: Seq<T>, s: Seq<T>, i: int)
    requires
        0 < i < s.len(),
        out.len() > 0,
        strictly_sorted_by_key(out),
        out.last()@ == s[i]@,
        covered(out, s, i),
        agree_upto(s, i),
    ensures
        agree_upto(s, i + 1),
{
    reveal(agree_upto);
    let last = out.len() - 1;
    T::lemma_key_of_view(&out[last], &s[i]);
    assert forall|a: int, b: int|
        0 <= a < i + 1 && 0 <= b < i + 1 && (#[trigger] s[a]).text_key() == (
        #[trigger] s[b]).text_key() implies s[a]@ == s[b]@ by {
        if a == i && b < i {
            lemma_same_as_last(out, s, i, b);
        } else if b == i && a < i {
            lemma_same_as_last(out, s, i, a);
        }
    }
}

/// An earlier item with the name of the last kept item agrees with it.
proof fn lemma_same_as_last<T: FragmentItem>(out: Seq<T>, s: Seq<T>, i: int, other: int)
    requires
        0 <= other < i < s.len(),
        out.len() > 0,
        strictly_sorted_by_key(out),
        out.last().text_key() == s[i].text_key(),
        s[other].text_key() == s[i].text_key(),
        covered(out, s, i),
    ensures
        s[other]@ == out.last()@,
{
    reveal(covered);
    let last = out.len() - 1;
    assert(agrees_with_one(s[other], out, out.len() as int));
    let k = choose|k: int| 0 <= k < out.len() && s[other]@ == (#[trigger] out[k])@;
    T::lemma_key_of_view(&out[k], &s[other]);
    if k < last {
        assert(seq_lt(out[k].text_key(), out[last].text_key()));
        lemma_seq_lt_irreflexive(s[i].text_key());
    }
}

proof fn lemma_push_step<T: FragmentItem>(s: Seq<T>, before: Seq<T>, copy: T, i: int)
    requires
        sorted_by_key(s),
        0 <= i < s.len(),
        copy@ == s[i]@,
        (i == 0) == (before.len() == 0),
        i > 0 ==> before.last().text_key() == s[i - 1].text_key(),
        i > 0 ==> seq_lt(before.last().text_key(), s[i].text_key()),
        strictly_sorted_by_key(before),
        covers(before, s, i),
        covered(before, s, i),
        agree_upto(s, i),
    ensures
        strictly_sorted_by_key(before.push(copy)),
        covers(before.push(copy), s, i + 1),
        covered(before.push(copy), s, i + 1),
        agree_upto(s, i + 1),
        before.push(copy).last().text_key() == s[i].text_key(),
{
    T::lemma_key_of_view(&copy, &s[i]);
    lemma_push_sorted(before, copy);
    lemma_push_covers(s, before, copy, i);
    lemma_push_covered(s, before, copy, i);
    lemma_push_agree(s, i);
}

proof fn lemma_push_sorted<T: FragmentItem>(before: Seq<T>, copy: T)
    requires
        strictly_sorted_by_key(before),
        before.len() > 0 ==> seq_lt(before.last().text_key(), copy.text_key()),
    ensures
        strictly_sorted_by_key(before.push(copy)),
{
    let out = before.push(copy);
    assert forall|a: int, b: int| 0 <= a < b < out.len() implies seq_lt(
        out[a].text_key(),
        out[b].text_key(),
    ) by {
        if b == out.len() - 1 && a < b - 1 {
            assert(seq_lt(before[a].text_key(), before.last().text_key()));
            lemma_seq_lt_transitive(before[a].text_key(), before.last().text_key(), copy.text_key());
        }
    }
}

proof fn lemma_push_covers<T: FragmentItem>(s: Seq<T>, before: Seq<T>, copy: T, i: int)
    requires
        0 <= i < s.len(),
        copy@ == s[i]@,
        covers(before, s, i),
    ensures
        covers(before.push(copy), s, i + 1),
{
    reveal(covers);
    let out = before.push(copy);
    assert forall|k: int| 0 <= k < out.len() implies #[trigger] agrees_with_one(
        out[k],
        s,
        i + 1,
    ) by {
        if k < before.len() {
            assert(out[k] == before[k]);
            assert(agrees_with_one(before[k], s, i));
            let j = choose|j: int| 0 <= j < i && before[k]@ == (#[trigger] s[j])@;
            assert(out[k]@ == s[j]@);
        } else {
            assert(out[k]@ == s[i]@);
        }
    }
}

proof fn lemma_push_covered<T: FragmentItem>(s: Seq<T>, before: Seq<T>, copy: T, i: int)
    requires
        0 <= i < s.len(),
        copy@ == s[i]@,
        covered(before, s, i),
    ensures
        covered(before.push(copy), s, i + 1),
{
    reveal(covered);
    let out = before.push(copy);
    assert forall|j: int| 0 <= j < i + 1 implies #[trigger] agrees_with_one(
        s[j],
        out,
        out.len() as int,
    ) by {
        if j < i {
            assert(agrees_with_one(s[j], before, before.len() as int));
            let k = choose|k: int| 0 <= k < before.len() && s[j]@ == (#[trigger] before[k])@;
            assert(out[k] == before[k]);
        } else {
            assert(out[before.len() as int] == copy);
        }
    }
}

proof fn lemma_push_agree<T: FragmentItem>(s: Seq<T>, i: int)
    requires
        sorted_by_key(s),
        0 <= i < s.len(),
        i > 0 ==> seq_lt(s[i - 1].text_key(), s[i].text_key()),
        agree_upto(s, i),
    ensures
        agree_upto(s, i + 1),
{
    reveal(agree_upto);
    assert forall|a: int, b: int|
        0 <= a < i + 1 && 0 <= b < i + 1 && (#[trigger] s[a]).text_key() == (
        #[trigger] s[b]).text_key() implies s[a]@ == s[b]@ by {
        if (a == i) != (b == i) {
            let other = if a == i {
                b
            } else {
                a
            };
            assert(seq_le(s[other].text_key(), s[i - 1].text_key()));
            if s[other].text_key() != s[i - 1].text_key() {
                lemma_seq_lt_transitive(s[other].text_key(), s[i - 1].text_key(), s[i].text_key());
            }
            lemma_seq_lt_irreflexive(s[i].text_key());
        }
    }
}

proof fn lemma_conflict_found<T: FragmentItem>(original: Seq<T>, s: Seq<T>, last: T, i: int)
    requires
        sorted_by_key(s),
        s.to_multiset() == original.to_multiset(),
        0 < i < s.len(),
        last.text_key() == s[i].text_key(),
        last@ != s[i]@,
        agrees_with_one(last, s, i),
        agree_upto(s, i),
    ensures
        has_conflict(original),
        least_conflict(original, s[i].text_key()),
{
    reveal(agree_upto);
    let n = s[i].text_key();
    let j = choose|j: int| 0 <= j < i && last@ == (#[trigger] s[j])@;
    T::lemma_key_of_view(&last, &s[j]);
    let pj = lemma_in_permutation(s, original, j);
    let pi = lemma_in_permutation(s, original, i);
    assert(original[pj].text_key() == n && original[pi].text_key() == n);
    assert(conflicts_at(original, n));
    assert forall|m: Seq<char>| seq_lt(m, n) implies !conflicts_at(original, m) by {
        if conflicts_at(original, m) {
            let (x, y) = choose|x: int, y: int|
                0 <= x < original.len() && 0 <= y < original.len() && (
                #[trigger] original[x]).text_key() == m && (#[trigger] original[y]).text_key()
                    == m && original[x]@ != original[y]@;
            let qx = lemma_in_permutation(original, s, x);
            let qy = lemma_in_permutation(original, s, y);
            lemma_sorted_before(s, qx, i);
            lemma_sorted_before(s, qy, i);
            assert(s[qx].text_key() == s[qy].text_key());
        }
    }
}

proof fn lemma_merge_done<T: FragmentItem>(original: Seq<T>, s: Seq<T>, out: Seq<T>)
    requires
        s.to_multiset() == original.to_multiset(),
        strictly_sorted_by_key(out),
        covers(out, s, s.len() as int),
        covered(out, s, s.len() as int),
        agree_upto(s, s.len() as int),
    ensures
        !has_conflict(original),
        merged(out, original),
{
    lemma_done_no_conflict(original, s);
    lemma_done_covers(original, s, out);
    lemma_done_covered(original, s, out);
}

proof fn lemma_done_no_conflict<T: FragmentItem>(original: Seq<T>, s: Seq<T>)
    requires
        s.to_multiset() == original.to_multiset(),
        agree_upto(s, s.len() as int),
    ensures
        !has_conflict(original),
{
    reveal(agree_upto);
    if has_conflict(original) {
        let n = choose|n: Seq<char>| conflicts_at(original, n);
        let (x, y) = choose|x: int, y: int|
            0 <= x < original.len() && 0 <= y < original.len() && (
            #[trigger] original[x]).text_key() == n && (#[trigger] original[y]).text_key() == n
                && original[x]@ != original[y]@;
        let qx = lemma_in_permutation(original, s, x);
        let qy = lemma_in_permutation(original, s, y);
        assert(s[qx].text_key() == s[qy].text_key());
    }
}

proof fn lemma_done_covers<T: FragmentItem>(original: Seq<T>, s: Seq<T>, out: Seq<T>)
    requires
        s.to_multiset() == original.to_multiset(),
        covers(out, s, s.len() as int),
    ensures
        forall|i: int|
            0 <= i < out.len() ==> #[trigger] agrees_with_one(
                out[i],
                original,
                original.len() as int,
            ),
{
    reveal(covers);
    assert forall|k: int| 0 <= k < out.len() implies #[trigger] agrees_with_one(
        out[k],
        original,
        original.len() as int,
    ) by {
        assert(agrees_with_one(out[k], s, s.len() as int));
        let j = choose|j: int| 0 <= j < s.len() && out[k]@ == (#[trigger] s[j])@;
        let p = lemma_in_permutation(s, original, j);
        assert(original[p] == s[j]);
    }
}

proof fn lemma_done_covered<T: FragmentItem>(original: Seq<T>, s: Seq<T>, out: Seq<T>)
    requires
        s.to_multiset() == original.to_multiset(),
        covered(out, s, s.len() as int),
    ensures
        forall|j: int|
            0 <= j < original.len() ==> #[trigger] agrees_with_one(
                original[j],
                out,
                out.len() as int,
            ),
{
    reveal(covered);
    assert forall|j: int| 0 <= j < original.len() implies #[trigger] agrees_with_one(
        original[j],
        out,
        out.len() as int,
    ) by {
        let q = lemma_in_permutation(original, s, j);
        assert(agrees_with_one(s[q], out, out.len() as int));
        let k = choose|k: int| 0 <= k < out.len() && s[q]@ == (#[trigger] out[k])@;
        assert(original[j]@ == out[k]@);
    }
}

/// Pools the items and collapses each name to one item, refusing the first
/// name, in text order, whose items disagree.
pub fn merge_named<T: FragmentItem>(items: Vec<T>, section: &'static str) -> (r: Result<
    Vec<T>,
    PolicyCompileError,
>)
    ensures
        match r {
            Ok(out) => !has_conflict(items@) && merged(out@, items@),
            Err(e) => has_conflict(items@) && reports_conflict(e, section, items@),
        },
{
    let ghost original = items@;
    let mut sorted = items;
    sort_by_text_key(&mut sorted);
    let mut out: Vec<T> = Vec::new();
    let mut i: usize = 0;
    proof {
        reveal(covers);
        reveal(covered);
        reveal(agree_upto);
    }
    while i < sorted.len()
        invariant
            original == items@,
            sorted_by_key(sorted@),
            sorted@.to_multiset() == original.to_multiset(),
            strictly_sorted_by_key(out@),
            i <= sorted@.len(),
            (i == 0) == (out@.len() == 0),
            i > 0 ==> out@.last().text_key() == sorted@[i - 1].text_key(),
            covers(out@, sorted@, i as int),
            covered(out@, sorted@, i as int),
            agree_upto(sorted@, i as int),
        decreases sorted@.len() - i,
    {
        let ghost s = sorted@;
        proof {
            if i > 0 {
                assert(seq_le(s[i - 1].text_key(), s[i as int].text_key()));
            }
        }
        let repeated = out.len() > 0 && !out[out.len() - 1].key_precedes(&sorted[i]);
        if repeated {
            let last = out.len() - 1;
            if !out[last].same_item(&sorted[i]) {
                let name = sorted[i].name_text();
                proof {
                    reveal(covers);
                    assert(agrees_with_one(out@[last as int], s, i as int));
                    lemma_conflict_found(original, s, out@[last as int], i as int);
                }
                return Err(PolicyCompileError::ConflictingDuplicate { section, name });
            }
            proof {
                lemma_skip_step(s, out@, i as int);
            }
        } else {
            let copy = sorted[i].copy_item();
            let ghost before = out@;
            out.push(copy);
            proof {
                lemma_push_step(s, before, copy, i as int);
            }
        }
        i = i + 1;
    }
    proof {
        lemma_merge_done(original, sorted@, out@);
    }
    Ok(out)
}

/// The items of one section, fragment after fragment.
pub open spec fn pooled<T>(sections: Seq<Seq<T>>) -> Seq<T>
    decreases sections.len(),
{
    if sections.len() == 0 {
        Seq::empty()
    } else {
        pooled(sections.drop_last()) + sections.last()
    }
}

pub open spec fn all_scopes(fs: Seq<CompiledPolicyFragment>) -> Seq<ScopeSpec> {
    pooled(fs.map_values(|f: CompiledPolicyFragment| f.scopes@))
}

pub open spec fn all_requirements(fs: Seq<CompiledPolicyFragment>) -> Seq<RequirementSpec> {
    pooled(fs.map_values(|f: CompiledPolicyFragment| f.requirements@))
}

pub open spec fn all_policies(fs: Seq<CompiledPolicyFragment>) -> Seq<PolicySpec> {
    pooled(fs.map_values(|f: CompiledPolicyFragment| f.policies@))
}

pub open spec fn all_referents(fs: Seq<CompiledPolicyFragment>) -> Seq<ReferentSpec> {
    pooled(fs.map_values(|f: CompiledPolicyFragment| f.referents@))
}

pub open spec fn all_edges(fs: Seq<CompiledPolicyFragment>) -> Seq<EdgeSpec> {
    pooled(fs.map_values(|f: CompiledPolicyFragment| f.edges@))
}

/// No section of the fragments has a name whose items disagree.
pub open spec fn mergeable(fs: Seq<CompiledPolicyFragment>) -> bool {
    &&& !has_conflict(all_scopes(fs))
    &&& !has_conflict(all_requirements(fs))
    &&& !has_conflict(all_policies(fs))
    &&& !has_conflict(all_referents(fs))
    &&& !has_conflict(all_edges(fs))
}

/// The refusal names the first section, in the order scopes, requirements,
/// policies, referents, edges, that has a conflict, and its first
/// conflicting name.
pub open spec fn merge_refusal(e: PolicyCompileError, fs: Seq<CompiledPolicyFragment>) -> bool {
    if has_conflict(all_scopes(fs)) {
        reports_conflict(e, "scopes", all_scopes(fs))
    } else if has_conflict(all_requirements(fs)) {
        reports_conflict(e, "requirements", all_requirements(fs))
    } else if has_conflict(all_policies(fs)) {
        reports_conflict(e, "policies", all_policies(fs))
    } else if has_conflict(all_referents(fs)) {
        reports_conflict(e, "referents", all_referents(fs))
    } else {
        has_conflict(all_edges(fs)) && reports_conflict(e, "edges", all_edges(fs))
    }
}

/// The two sequences agree item for item in every field.
pub open spec fn same_views<T: View>(a: Seq<T>, b: Seq<T>) -> bool {
    a.len() == b.len() && forall|i: int| 0 <= i < a.len() ==> (#[trigger] a[i])@ == b[i]@
}

proof fn lemma_same_views_conflicts<T: FragmentItem>(a: Seq<T>, b: Seq<T>, n: Seq<char>)
    requires
        same_views(a, b),
    ensures
        conflicts_at(a, n) == conflicts_at(b, n),
{
    if conflicts_at(a, n) {
        let (x, y) = choose|x: int, y: int|
            0 <= x < a.len() && 0 <= y < a.len() && (#[trigger] a[x]).text_key() == n && (
            #[trigger] a[y]).text_key() == n && a[x]@ != a[y]@;
        T::lemma_key_of_view(&a[x], &b[x]);
        T::lemma_key_of_view(&a[y], &b[y]);
        assert(b[x].text_key() == n && b[y].text_key() == n);
    }
    if conflicts_at(b, n) {
        let (x, y) = choose|x: int, y: int|
            0 <= x < b.len() && 0 <= y < b.len() && (#[trigger] b[x]).text_key() == n && (
            #[trigger] b[y]).text_key() == n && b[x]@ != b[y]@;
        T::lemma_key_of_view(&a[x], &b[x]);
        T::lemma_key_of_view(&a[y], &b[y]);
        assert(a[x].text_key() == n && a[y].text_key() == n);
    }
}

/// What the merge states of the items it pooled holds of any sequence that
/// agrees with them item for item.
proof fn lemma_same_views_merge<T: FragmentItem>(a: Seq<T>, b: Seq<T>, out: Seq<T>)
    requires
        same_views(a, b),
    ensures
        has_conflict(a) == has_conflict(b),
        forall|n: Seq<char>| least_conflict(a, n) == least_conflict(b, n),
        merged(out, a) == merged(out, b),
{
    assert forall|n: Seq<char>| conflicts_at(a, n) == conflicts_at(b, n) by {
        lemma_same_views_conflicts(a, b, n);
    }
    if has_conflict(a) {
        let n = choose|n: Seq<char>| conflicts_at(a, n);
        assert(conflicts_at(b, n));
    }
    if has_conflict(b) {
        let n = choose|n: Seq<char>| conflicts_at(b, n);
        assert(conflicts_at(a, n));
    }
    assert forall|x: T|
        #![trigger agrees_with_one(x, a, a.len() as int)]
        #![trigger agrees_with_one(x, b, b.len() as int)]
        agrees_with_one(x, a, a.len() as int) == agrees_with_one(x, b, b.len() as int) by {
        if agrees_with_one(x, a, a.len() as int) {
            let j = choose|j: int| 0 <= j < a.len() && x@ == (#[trigger] a[j])@;
            assert(x@ == b[j]@);
        }
        if agrees_with_one(x, b, b.len() as int) {
            let j = choose|j: int| 0 <= j < b.len() && x@ == (#[trigger] b[j])@;
            assert(x@ == a[j]@);
        }
    }
    if merged(out, a) {
        assert forall|j: int| 0 <= j < b.len() implies #[trigger] agrees_with_one(
            b[j],
            out,
            out.len() as int,
        ) by {
            assert(agrees_with_one(a[j], out, out.len() as int));
            let w = choose|w: int| 0 <= w < out.len() && a[j]@ == (#[trigger] out[w])@;
            assert(b[j]@ == out[w]@);
        }
    }
    if merged(out, b) {
        assert forall|j: int| 0 <= j < a.len() implies #[trigger] agrees_with_one(
            a[j],
            out,
            out.len() as int,
        ) by {
            assert(agrees_with_one(b[j], out, out.len() as int));
            let w = choose|w: int| 0 <= w < out.len() && b[j]@ == (#[trigger] out[w])@;
            assert(a[j]@ == out[w]@);
        }
    }
}

proof fn lemma_same_views_extend<T: View>(
    now: Seq<T>,
    before: Seq<T>,
    pooled: Seq<T>,
    items: Seq<T>,
)
    requires
        same_views(before, pooled),
        same_views(now, before + items),
    ensures
        same_views(now, pooled + items),
{
    assert forall|i: int| 0 <= i < now.len() implies (#[trigger] now[i])@ == (pooled + items)[i]@ by {
        if i < before.len() {
            assert((before + items)[i] == before[i]);
            assert((pooled + items)[i] == pooled[i]);
        } else {
            assert((before + items)[i] == items[i - before.len()]);
            assert((pooled + items)[i] == items[i - pooled.len()]);
        }
    }
}

proof fn lemma_pooled_push<T>(sections: Seq<Seq<T>>, x: Seq<T>)
    ensures
        pooled(sections.push(x)) == pooled(sections) + x,
{
    assert(sections.push(x).drop_last() =~= sections);
}

/// Appends a field-for-field copy of each item.
fn append_copies<T: FragmentItem>(out: &mut Vec<T>, items: &Vec<T>)
    ensures
        same_views(final(out)@, old(out)@ + items@),
{
    let ghost start = out@;
    let mut i: usize = 0;
    assert(same_views(out@, start + items@.take(0)));
    while i < items.len()
        invariant
            i <= items@.len(),
            same_views(out@, start + items@.take(i as int)),
        decreases items@.len() - i,
    {
        let copy = items[i].copy_item();
        let ghost before = out@;
        out.push(copy);
        i = i + 1;
        assert(start + items@.take(i as int) =~= (start + items@.take(i - 1)).push(items@[i - 1]));
        assert forall|k: int| 0 <= k < out@.len() implies (#[trigger] out@[k])@ == (start
            + items@.take(i as int))[k]@ by {
            if k < before.len() {
                assert(out@[k] == before[k]);
            }
        }
    }
    assert(items@.take(items@.len() as int) =~= items@);
}

/// Merges fragments: each section pools the items of every fragment, sorts
/// them by name and keeps one item per name; the merge is refused at the
/// first section and name whose items disagree.
pub fn merge_compiled_fragments(fragments: &[CompiledPolicyFragment]) -> (r: Result<
    CompiledPolicyFragment,
    PolicyCompileError,
>)
    ensures
        match r {
            Ok(f) => mergeable(fragments@) && merged(f.scopes@, all_scopes(fragments@)) && merged(
                f.requirements@,
                all_requirements(fragments@),
            ) && merged(f.policies@, all_policies(fragments@)) && merged(
                f.referents@,
                all_referents(fragments@),
            ) && merged(f.edges@, all_edges(fragments@)),
            Err(e) => !mergeable(fragments@) && merge_refusal(e, fragments@),
        },
{
    let ghost fs = fragments@;
    let mut scopes: Vec<ScopeSpec> = Vec::new();
    let mut requirements: Vec<RequirementSpec> = Vec::new();
    let mut policies: Vec<PolicySpec> = Vec::new();
    let mut referents: Vec<ReferentSpec> = Vec::new();
    let mut edges: Vec<EdgeSpec> = Vec::new();
    let mut k: usize = 0;
    assert(fs.take(0).map_values(|f: CompiledPolicyFragment| f.scopes@) =~= Seq::empty());
    assert(fs.take(0).map_values(|f: CompiledPolicyFragment| f.requirements@) =~= Seq::empty());
    assert(fs.take(0).map_values(|f: CompiledPolicyFragment| f.policies@) =~= Seq::empty());
    assert(fs.take(0).map_values(|f: CompiledPolicyFragment| f.referents@) =~= Seq::empty());
    assert(fs.take(0).map_values(|f: CompiledPolicyFragment| f.edges@) =~= Seq::empty());
    while k < fragments.len()
        invariant
            fs == fragments@,
            k <= fs.len(),
            same_views(scopes@, all_scopes(fs.take(k as int))),
            same_views(requirements@, all_requirements(fs.take(k as int))),
            same_views(policies@, all_policies(fs.take(k as int))),
            same_views(referents@, all_referents(fs.take(k as int))),
            same_views(edges@, all_edges(fs.take(k as int))),
        decreases fs.len() - k,
    {
        let fragment = &fragments[k];
        let ghost before_scopes = scopes@;
        let ghost before_requirements = requirements@;
        let ghost before_policies = policies@;
        let ghost before_referents = referents@;
        let ghost before_edges = edges@;
        append_copies(&mut scopes, &fragment.scopes);
        append_copies(&mut requirements, &fragment.requirements);
        append_copies(&mut policies, &fragment.policies);
        append_copies(&mut referents, &fragment.referents);
        append_copies(&mut edges, &fragment.edges);
        proof {
            let f = fs[k as int];
            let t = fs.take(k as int);
            assert(fs.take(k + 1) =~= t.push(f));
            assert(t.push(f).map_values(|f: CompiledPolicyFragment| f.scopes@) =~= t.map_values(
                |f: CompiledPolicyFragment| f.scopes@,
            ).push(f.scopes@));
            lemma_pooled_push(t.map_values(|f: CompiledPolicyFragment| f.scopes@), f.scopes@);
            assert(t.push(f).map_values(|f: CompiledPolicyFragment| f.requirements@)
                =~= t.map_values(|f: CompiledPolicyFragment| f.requirements@).push(
                f.requirements@,
            ));
            lemma_pooled_push(
                t.map_values(|f: CompiledPolicyFragment| f.requirements@),
                f.requirements@,
            );
            assert(t.push(f).map_values(|f: CompiledPolicyFragment| f.policies@)
                =~= t.map_values(|f: CompiledPolicyFragment| f.policies@).push(f.policies@));
            lemma_pooled_push(t.map_values(|f: CompiledPolicyFragment| f.policies@), f.policies@);
            assert(t.push(f).map_values(|f: CompiledPolicyFragment| f.referents@)
                =~= t.map_values(|f: CompiledPolicyFragment| f.referents@).push(f.referents@));
            lemma_pooled_push(
                t.map_values(|f: CompiledPolicyFragment| f.referents@),
                f.referents@,
            );
            assert(t.push(f).map_values(|f: CompiledPolicyFragment| f.edges@) =~= t.map_values(
                |f: CompiledPolicyFragment| f.edges@,
            ).push(f.edges@));
            lemma_pooled_push(t.map_values(|f: CompiledPolicyFragment| f.edges@), f.edges@);
            lemma_same_views_extend(scopes@, before_scopes, all_scopes(t), f.scopes@);
            lemma_same_views_extend(
                requirements@,
                before_requirements,
                all_requirements(t),
                f.requirements@,
            );
            lemma_same_views_extend(policies@, before_policies, all_policies(t), f.policies@);
            lemma_same_views_extend(referents@, before_referents, all_referents(t), f.referents@);
            lemma_same_views_extend(edges@, before_edges, all_edges(t), f.edges@);
        }
        k = k + 1;
    }
    proof {
        assert(fs.take(fs.len() as int) =~= fs);
    }
    let ghost pooled_scopes = scopes@;
    let ghost pooled_requirements = requirements@;
    let ghost pooled_policies = policies@;
    let ghost pooled_referents = referents@;
    let ghost pooled_edges = edges@;
    proof {
        lemma_same_views_merge(pooled_scopes, all_scopes(fs), Seq::empty());
        lemma_same_views_merge(pooled_requirements, all_requirements(fs), Seq::empty());
        lemma_same_views_merge(pooled_policies, all_policies(fs), Seq::empty());
        lemma_same_views_merge(pooled_referents, all_referents(fs), Seq::empty());
        lemma_same_views_merge(pooled_edges, all_edges(fs), Seq::empty());
    }
    let scopes = match merge_named(scopes, "scopes") {
        Ok(v) => v,
        Err(e) => {
            return Err(e);
        },
    };
    let requirements = match merge_named(requirements, "requirements") {
        Ok(v) => v,
        Err(e) => {
            return Err(e);
        },
    };
    let policies = match merge_named(policies, "policies") {
        Ok(v) => v,
        Err(e) => {
            return Err(e);
        },
    };
    let referents = match merge_named(referents, "referents") {
        Ok(v) => v,
        Err(e) => {
            return Err(e);
        },
    };
    let edges = match merge_named(edges, "edges") {
        Ok(v) => v,
        Err(e) => {
            return Err(e);
        },
    };
    proof {
        lemma_same_views_merge(pooled_scopes, all_scopes(fs), scopes@);
        lemma_same_views_merge(pooled_requirements, all_requirements(fs), requirements@);
        lemma_same_views_merge(pooled_policies, all_policies(fs), policies@);
        lemma_same_views_merge(pooled_referents, all_referents(fs), referents@);
        lemma_same_views_merge(pooled_edges, all_edges(fs), edges@);
    }
    Ok(CompiledPolicyFragment { scopes, requirements, policies, referents, edges })
}

/// Two strictly increasing sequences of texts with the same members are the
/// same sequence.
proof fn lemma_strict_keys_equal(a: Seq<Seq<char>>, b: Seq<Seq<char>>)
    requires
        forall|i: int, j: int| 0 <= i < j < a.len() ==> seq_lt(a[i], a[j]),
        forall|i: int, j: int| 0 <= i < j < b.len() ==> seq_lt(b[i], b[j]),
        forall|x: Seq<char>| a.contains(x) <==> b.contains(x),
    ensures
        a == b,
    decreases a.len(),
{
    if a.len() == 0 && b.len() > 0 {
        assert(b.contains(b[0]));
    } else if b.len() == 0 && a.len() > 0 {
        assert(a.contains(a[0]));
    } else if a.len() > 0 && b.len() > 0 {
        assert(a.contains(a[0]));
        assert(b.contains(b[0]));
        let l = choose|l: int| 0 <= l < b.len() && b[l] == a[0];
        let m = choose|m: int| 0 <= m < a.len() && a[m] == b[0];
        if l > 0 && m > 0 {
            lemma_seq_lt_transitive(b[0], b[l], a[m]);
            lemma_seq_lt_irreflexive(b[0]);
        } else if l > 0 {
            lemma_seq_lt_irreflexive(b[0]);
        } else if m > 0 {
            lemma_seq_lt_irreflexive(a[0]);
        }
        assert(a[0] == b[0]);
        let ta = a.drop_first();
        let tb = b.drop_first();
        assert forall|x: Seq<char>| ta.contains(x) <==> tb.contains(x) by {
            if ta.contains(x) {
                let i = choose|i: int| 0 <= i < ta.len() && ta[i] == x;
                assert(a.contains(x) && a[i + 1] == x);
                let k = choose|k: int| 0 <= k < b.len() && b[k] == x;
                if k == 0 {
                    lemma_seq_lt_irreflexive(a[0]);
                }
                assert(tb[k - 1] == x);
            }
            if tb.contains(x) {
                let i = choose|i: int| 0 <= i < tb.len() && tb[i] == x;
                assert(b.contains(x) && b[i + 1] == x);
                let k = choose|k: int| 0 <= k < a.len() && a[k] == x;
                if k == 0 {
                    lemma_seq_lt_irreflexive(b[0]);
                }
                assert(ta[k - 1] == x);
            }
        }
        lemma_strict_keys_equal(ta, tb);
        assert(a =~= seq![a[0]] + ta);
        assert(b =~= seq![b[0]] + tb);
    }
}

/// The items of the two sequences agree with the same views.
pub open spec fn same_view_set<T: FragmentItem>(a: Seq<T>, b: Seq<T>) -> bool {
    &&& forall|j: int| 0 <= j < a.len() ==> #[trigger] agrees_with_one(a[j], b, b.len() as int)
    &&& forall|j: int| 0 <= j < b.len() ==> #[trigger] agrees_with_one(b[j], a, a.len() as int)
}

proof fn lemma_agree_chain<T: FragmentItem>(x: T, a: Seq<T>, b: Seq<T>)
    requires
        agrees_with_one(x, a, a.len() as int),
        forall|j: int| 0 <= j < a.len() ==> #[trigger] agrees_with_one(a[j], b, b.len() as int),
    ensures
        agrees_with_one(x, b, b.len() as int),
{
    let j = choose|j: int| 0 <= j < a.len() && x@ == (#[trigger] a[j])@;
    assert(agrees_with_one(a[j], b, b.len() as int));
    let k = choose|k: int| 0 <= k < b.len() && a[j]@ == (#[trigger] b[k])@;
    assert(x@ == b[k]@);
}

/// A merge is determined by the views of what it pools: two merges of items
/// that agree with the same views agree item for item.
pub proof fn lemma_merge_determined<T: FragmentItem>(
    out1: Seq<T>,
    items1: Seq<T>,
    out2: Seq<T>,
    items2: Seq<T>,
)
    requires
        merged(out1, items1),
        merged(out2, items2),
        same_view_set(items1, items2),
    ensures
        same_views(out1, out2),
{
    assert forall|i: int| 0 <= i < out1.len() implies #[trigger] agrees_with_one(
        out1[i],
        out2,
        out2.len() as int,
    ) by {
        assert(agrees_with_one(out1[i], items1, items1.len() as int));
        lemma_agree_chain(out1[i], items1, items2);
        let k = choose|k: int| 0 <= k < items2.len() && out1[i]@ == (#[trigger] items2[k])@;
        assert(agrees_with_one(items2[k], out2, out2.len() as int));
        let l = choose|l: int| 0 <= l < out2.len() && items2[k]@ == (#[trigger] out2[l])@;
        assert(out1[i]@ == out2[l]@);
    }
    assert forall|i: int| 0 <= i < out2.len() implies #[trigger] agrees_with_one(
        out2[i],
        out1,
        out1.len() as int,
    ) by {
        assert(agrees_with_one(out2[i], items2, items2.len() as int));
        lemma_agree_chain(out2[i], items2, items1);
        let k = choose|k: int| 0 <= k < items1.len() && out2[i]@ == (#[trigger] items1[k])@;
        assert(agrees_with_one(items1[k], out1, out1.len() as int));
        let l = choose|l: int| 0 <= l < out1.len() && items1[k]@ == (#[trigger] out1[l])@;
        assert(out2[i]@ == out1[l]@);
    }
    let k1 = out1.map_values(|x: T| x.text_key());
    let k2 = out2.map_values(|x: T| x.text_key());
    assert forall|x: Seq<char>| k1.contains(x) <==> k2.contains(x) by {
        if k1.contains(x) {
            let i = choose|i: int| 0 <= i < k1.len() && k1[i] == x;
            assert(agrees_with_one(out1[i], out2, out2.len() as int));
            let l = choose|l: int| 0 <= l < out2.len() && out1[i]@ == (#[trigger] out2[l])@;
            T::lemma_key_of_view(&out1[i], &out2[l]);
            assert(k2[l] == x);
        }
        if k2.contains(x) {
            let i = choose|i: int| 0 <= i < k2.len() && k2[i] == x;
            assert(agrees_with_one(out2[i], out1, out1.len() as int));
            let l = choose|l: int| 0 <= l < out1.len() && out2[i]@ == (#[trigger] out1[l])@;
            T::lemma_key_of_view(&out2[i], &out1[l]);
            assert(k1[l] == x);
        }
    }
    lemma_strict_keys_equal(k1, k2);
    assert(out1.len() == k1.len() && out2.len() == k2.len());
    assert forall|i: int| 0 <= i < out1.len() implies (#[trigger] out1[i])@ == out2[i]@ by {
        assert(k1[i] == k2[i]);
        assert(agrees_with_one(out1[i], out2, out2.len() as int));
        let l = choose|l: int| 0 <= l < out2.len() && out1[i]@ == (#[trigger] out2[l])@;
        T::lemma_key_of_view(&out1[i], &out2[l]);
        if l < i {
            assert(seq_lt(out2[l].text_key(), out2[i].text_key()));
            lemma_seq_lt_irreflexive(out2[i].text_key());
        } else if l > i {
            assert(seq_lt(out2[i].text_key(), out2[l].text_key()));
            lemma_seq_lt_irreflexive(out2[i].text_key());
        }
    }
}

/// Merging is idempotent: a merge of what a merge gave agrees with it item
/// for item.
pub proof fn lemma_merge_idempotent<T: FragmentItem>(out: Seq<T>, items: Seq<T>, again: Seq<T>)
    requires
        merged(out, items),
        merged(again, out),
    ensures
        same_views(again, out),
{
    assert forall|j: int| 0 <= j < out.len() implies #[trigger] agrees_with_one(
        out[j],
        out,
        out.len() as int,
    ) by {
        assert(out[j]@ == out[j]@);
    }
    lemma_merge_determined(again, out, out, out);
}

/// The order in which items are pooled does not matter: merges of two
/// arrangements of the same items agree item for item.
pub proof fn lemma_merge_order_independent<T: FragmentItem>(
    out1: Seq<T>,
    items1: Seq<T>,
    out2: Seq<T>,
    items2: Seq<T>,
)
    requires
        items1.to_multiset() == items2.to_multiset(),
        merged(out1, items1),
        merged(out2, items2),
    ensures
        same_views(out1, out2),
{
    assert forall|j: int| 0 <= j < items1.len() implies #[trigger] agrees_with_one(
        items1[j],
        items2,
        items2.len() as int,
    ) by {
        let k = lemma_in_permutation(items1, items2, j);
        assert(items1[j]@ == items2[k]@);
    }
    assert forall|j: int| 0 <= j < items2.len() implies #[trigger] agrees_with_one(
        items2[j],
        items1,
        items1.len() as int,
    ) by {
        let k = lemma_in_permutation(items2, items1, j);
        assert(items2[j]@ == items1[k]@);
    }
    lemma_merge_determined(out1, items1, out2, items2);
}

} // verus!
