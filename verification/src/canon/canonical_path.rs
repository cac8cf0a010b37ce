//! Canonical slash-separated path tokens.
use vstd::prelude::*;

use crate::text::{chars_of, owned, push_str};

verus! {

/// Typed canonical-path construction failures.
#[derive(Debug, Clone, PartialEq, Eq, Hash, Structural)]
pub enum CanonicalPathError {
    EmptyPath,
    EmptySegment { segment_index: usize },
    InvalidSegmentChar { segment_index: usize, char_index: usize, found: char },
}

/// A character allowed inside a canonical path segment: lowercase ASCII
/// letters, ASCII digits, `_` and `-`.
pub open spec fn is_segment_char(c: char) -> bool {
    ('a' <= c && c <= 'z') || ('0' <= c && c <= '9') || c == '_' || c == '-'
}

/// The pieces of `s` between occurrences of `sep` (always at least one piece;
/// a sequence without `sep` is one piece).
pub open spec fn split_on(s: Seq<char>, sep: char) -> Seq<Seq<char>>
    decreases s.len(),
{
    if s.len() == 0 {
        seq![Seq::<char>::empty()]
    } else {
        let init = split_on(s.drop_last(), sep);
        if s.last() == sep {
            init.push(Seq::<char>::empty())
        } else {
            init.update(init.len() - 1, init.last().push(s.last()))
        }
    }
}

/// Splitting always yields at least one piece.
pub proof fn lemma_split_nonempty(s: Seq<char>, sep: char)
    ensures
        split_on(s, sep).len() >= 1,
    decreases s.len(),
{
    if s.len() > 0 {
        lemma_split_nonempty(s.drop_last(), sep);
    }
}

/// The pieces joined with `sep` between them.
pub open spec fn join_with(parts: Seq<Seq<char>>, sep: char) -> Seq<char>
    decreases parts.len(),
{
    if parts.len() == 0 {
        Seq::<char>::empty()
    } else if parts.len() == 1 {
        parts[0]
    } else {
        join_with(parts.drop_last(), sep).push(sep) + parts.last()
    }
}

/// Index of the first character of `seg` at or after `i` that may not stand in
/// a segment.
pub open spec fn first_invalid_from(seg: Seq<char>, i: int) -> Option<int>
    decreases seg.len() - i,
{
    if i < 0 || i >= seg.len() {
        None
    } else if !is_segment_char(seg[i]) {
        Some(i)
    } else {
        first_invalid_from(seg, i + 1)
    }
}

/// The error that segment number `index` produces, if any.
pub open spec fn segment_error(seg: Seq<char>, index: int) -> Option<CanonicalPathError> {
    if seg.len() == 0 {
        Some(CanonicalPathError::EmptySegment { segment_index: index as usize })
    } else {
        match first_invalid_from(seg, 0) {
            Some(j) => Some(
                CanonicalPathError::InvalidSegmentChar {
                    segment_index: index as usize,
                    char_index: j as usize,
                    found: seg[j],
                },
            ),
            None => None,
        }
    }
}

/// The first error among the segments from position `i` on, in order.
pub open spec fn segments_error(segs: Seq<Seq<char>>, i: int) -> Option<CanonicalPathError>
    decreases segs.len() - i,
{
    if i < 0 || i >= segs.len() {
        None
    } else {
        match segment_error(segs[i], i) {
            Some(e) => Some(e),
            None => segments_error(segs, i + 1),
        }
    }
}

/// What `CanonicalPath::try_new` answers for the characters `s`.
pub open spec fn path_check(s: Seq<char>) -> Option<CanonicalPathError> {
    if s.len() == 0 {
        Some(CanonicalPathError::EmptyPath)
    } else {
        segments_error(split_on(s, '/'), 0)
    }
}

/// Well-formed canonical path text.
pub open spec fn is_canonical_path(s: Seq<char>) -> bool {
    path_check(s) is None
}

/// No invalid character from `i` on exactly when every later character is
/// allowed.
proof fn lemma_first_invalid_none(seg: Seq<char>, i: int)
    requires
        0 <= i,
    ensures
        first_invalid_from(seg, i) is None <==> forall|k: int|
            i <= k < seg.len() ==> is_segment_char(#[trigger] seg[k]),
    decreases seg.len() - i,
{
    if i < seg.len() {
        lemma_first_invalid_none(seg, i + 1);
    }
}

proof fn lemma_segments_error_none(segs: Seq<Seq<char>>, i: int)
    requires
        0 <= i,
    ensures
        segments_error(segs, i) is None <==> forall|j: int|
            i <= j < segs.len() ==> segment_error(#[trigger] segs[j], j) is None,
    decreases segs.len() - i,
{
    if i < segs.len() {
        lemma_segments_error_none(segs, i + 1);
    }
}

/// A text is a canonical path exactly when it is not empty and every piece
/// between its `/`s is a non-empty run of lowercase ASCII letters, ASCII
/// digits, `_` and `-`.
pub proof fn lemma_canonical_path_characterised(s: Seq<char>)
    ensures
        is_canonical_path(s) <==> (s.len() > 0 && forall|j: int|
            0 <= j < split_on(s, '/').len() ==> (#[trigger] split_on(s, '/')[j]).len() > 0
                && forall|k: int|
                0 <= k < split_on(s, '/')[j].len() ==> is_segment_char(
                    #[trigger] split_on(s, '/')[j][k],
                )),
{
    let segs = split_on(s, '/');
    lemma_segments_error_none(segs, 0);
    assert forall|j: int| 0 <= j < segs.len() implies (segment_error(#[trigger] segs[j], j) is None
        <==> (segs[j].len() > 0 && forall|k: int|
        0 <= k < segs[j].len() ==> is_segment_char(#[trigger] segs[j][k]))) by {
        lemma_first_invalid_none(segs[j], 0);
    }
}

/// Canonical path token retained as deterministic string data.
#[derive(Debug, PartialEq, Eq, Hash, PartialOrd, Ord)]
pub struct CanonicalPath(String);

impl Clone for CanonicalPath {
    fn clone(&self) -> (r: Self)
        ensures
            r@ == self@,
    {
        proof {
            use_type_invariant(self);
        }
        CanonicalPath(self.0.clone())
    }
}

impl View for CanonicalPath {
    type V = Seq<char>;

    closed spec fn view(&self) -> Seq<char> {
        self.0@
    }
}

/// Splits `s` at every `/` into string slices.
fn split_slashes<'a>(s: &'a str) -> (r: Vec<&'a str>)
    ensures
        r@.map_values(|p: &str| p@) == split_on(s@, '/'),
{
    let n = s.unicode_len();
    let chars = chars_of(s);
    let mut r: Vec<&'a str> = Vec::new();
    let mut start: usize = 0;
    let mut i: usize = 0;
    assert(split_on(s@.take(0), '/') =~= seq![Seq::<char>::empty()]);
    assert(r@.map_values(|p: &str| p@) =~= Seq::<Seq<char>>::empty());
    assert(s@.subrange(0, 0) =~= Seq::<char>::empty());
    assert(r@.map_values(|p: &str| p@).push(s@.subrange(0, 0)) =~= seq![Seq::<char>::empty()]);
    while i < n
        invariant
            n == s@.len(),
            chars@ == s@,
            start <= i <= n,
            r@.map_values(|p: &str| p@).push(s@.subrange(start as int, i as int)) == split_on(
                s@.take(i as int),
                '/',
            ),
        decreases n - i,
    {
        let ghost before = split_on(s@.take(i as int), '/');
        let ghost old_r = r@.map_values(|p: &str| p@);
        assert(s@.take(i as int + 1).drop_last() =~= s@.take(i as int));
        assert(s@.take(i as int + 1).last() == s@[i as int]);
        if chars[i] == '/' {
            let piece = s.substring_char(start, i);
            r.push(piece);
            start = i + 1;
            i = i + 1;
            assert(r@.map_values(|p: &str| p@) =~= old_r.push(piece@));
            assert(s@.subrange(start as int, i as int) =~= Seq::<char>::empty());
            assert(before == old_r.push(piece@));
            assert(r@.map_values(|p: &str| p@).push(s@.subrange(start as int, i as int))
                =~= before.push(Seq::<char>::empty()));
        } else {
            i = i + 1;
            assert(s@.subrange(start as int, i as int) =~= s@.subrange(
                start as int,
                i as int - 1,
            ).push(s@[i as int - 1]));
            assert(r@.map_values(|p: &str| p@).push(s@.subrange(start as int, i as int))
                =~= before.update(before.len() - 1, before.last().push(s@[i as int - 1])));
        }
    }
    let last = s.substring_char(start, n);
    let ghost old_r = r@.map_values(|p: &str| p@);
    r.push(last);
    assert(r@.map_values(|p: &str| p@) =~= old_r.push(last@));
    assert(s@.take(n as int) =~= s@);
    r
}

/// Index of the first character from `i` on that may not stand in a segment.
fn first_invalid(seg: &[char], i: usize) -> (r: Option<usize>)
    requires
        i <= seg@.len(),
    ensures
        match r {
            Some(j) => first_invalid_from(seg@, i as int) == Some(j as int) && j < seg@.len(),
            None => first_invalid_from(seg@, i as int) is None,
        },
    decreases seg@.len() - i,
{
    if i >= seg.len() {
        return None;
    }
    let c = seg[i];
    let valid = ('a' <= c && c <= 'z') || ('0' <= c && c <= '9') || c == '_' || c == '-';
    if !valid {
        Some(i)
    } else {
        first_invalid(seg, i + 1)
    }
}

/// Checks one segment, numbered `segment_index`.
fn validate_segment(segment: &str, segment_index: usize) -> (r: Result<(), CanonicalPathError>)
    ensures
        match segment_error(segment@, segment_index as int) {
            Some(e) => r == Err::<(), CanonicalPathError>(e),
            None => r is Ok,
        },
{
    let chars = chars_of(segment);
    if chars.len() == 0 {
        return Err(CanonicalPathError::EmptySegment { segment_index });
    }
    match first_invalid(chars.as_slice(), 0) {
        Some(j) => Err(
            CanonicalPathError::InvalidSegmentChar {
                segment_index,
                char_index: j,
                found: chars[j],
            },
        ),
        None => Ok(()),
    }
}

/// Checks the segments from position `i` on, in order.
fn validate_segments(segs: &[&str], i: usize) -> (r: Result<(), CanonicalPathError>)
    requires
        i <= segs@.len(),
    ensures
        match segments_error(segs@.map_values(|p: &str| p@), i as int) {
            Some(e) => r == Err::<(), CanonicalPathError>(e),
            None => r is Ok,
        },
    decreases segs@.len() - i,
{
    if i >= segs.len() {
        return Ok(());
    }
    let ghost views = segs@.map_values(|p: &str| p@);
    assert(views[i as int] == segs@[i as int]@);
    match validate_segment(segs[i], i) {
        Err(e) => Err(e),
        Ok(()) => validate_segments(segs, i + 1),
    }
}

/// The segments joined with `/` between them.
fn join_slices(segs: &[&str]) -> (s: String)
    ensures
        s@ == join_with(segs@.map_values(|p: &str| p@), '/'),
{
    let mut s = String::new();
    let mut i: usize = 0;
    while i < segs.len()
        invariant
            i <= segs@.len(),
            s@ == join_with(segs@.map_values(|p: &str| p@).take(i as int), '/'),
        decreases segs@.len() - i,
    {
        let ghost views = segs@.map_values(|p: &str| p@);
        assert(views.take(i as int + 1).drop_last() =~= views.take(i as int));
        if i > 0 {
            push_str(&mut s, "/");
            proof {
                reveal_strlit("/");
            }
        }
        push_str(&mut s, segs[i]);
        i = i + 1;
        assert(s@ =~= join_with(views.take(i as int), '/'));
    }
    assert(segs@.map_values(|p: &str| p@).take(i as int) =~= segs@.map_values(|p: &str| p@));
    s
}

impl CanonicalPath {
    #[verifier::type_invariant]
    spec fn inv(self) -> bool {
        is_canonical_path(self.0@)
    }

    /// Validates `value` as a canonical path: non-empty, and every `/`-separated
    /// segment non-empty and made of allowed characters.
    pub fn try_new(value: &str) -> (r: Result<Self, CanonicalPathError>)
        ensures
            match path_check(value@) {
                Some(e) => r == Err::<Self, CanonicalPathError>(e),
                None => r is Ok && r->Ok_0@ == value@,
            },
    {
        let n = value.unicode_len();
        if n == 0 {
            return Err(CanonicalPathError::EmptyPath);
        }
        let segs = split_slashes(value);
        match validate_segments(segs.as_slice(), 0) {
            Err(e) => Err(e),
            Ok(()) => {
                let v = owned(value);
                assert(is_canonical_path(v@));
                Ok(CanonicalPath(v))
            },
        }
    }

    /// Builds the path from its segments, checking each in order.
    pub fn from_segments(segments: &[&str]) -> (r: Result<Self, CanonicalPathError>)
        ensures
            segments@.len() == 0 ==> r == Err::<Self, CanonicalPathError>(
                CanonicalPathError::EmptyPath,
            ),
            segments@.len() > 0 ==> match segments_error(
                segments@.map_values(|p: &str| p@),
                0,
            ) {
                Some(e) => r == Err::<Self, CanonicalPathError>(e),
                None => r is Ok && r->Ok_0@ == join_with(
                    segments@.map_values(|p: &str| p@),
                    '/',
                ),
            },
    {
        match validate_segments(segments, 0) {
            Err(e) => return Err(e),
            Ok(()) => {},
        }
        if segments.len() == 0 {
            return Err(CanonicalPathError::EmptyPath);
        }
        let joined = join_slices(segments);
        proof {
            lemma_join_split(segments@.map_values(|p: &str| p@));
        }
        assert(is_canonical_path(joined@));
        Ok(CanonicalPath(joined))
    }

    /// Appends one more segment; its index in errors is the current number of
    /// segments.
    pub fn join(&self, segment: &str) -> (r: Result<Self, CanonicalPathError>)
        ensures
            match segment_error(segment@, split_on(self@, '/').len() as int) {
                Some(e) => r == Err::<Self, CanonicalPathError>(e),
                None => r is Ok && r->Ok_0@ == self@.push('/') + segment@,
            },
    {
        proof {
            use_type_invariant(self);
        }
        let segs = self.segments();
        let count = segs.len();
        assert(segs@.map_values(|p: &str| p@).len() == segs@.len());
        match validate_segment(segment, count) {
            Err(e) => Err(e),
            Ok(()) => {
                let mut value = self.0.clone();
                push_str(&mut value, "/");
                proof {
                    reveal_strlit("/");
                }
                push_str(&mut value, segment);
                proof {
                    lemma_segment_ok_chars(segment@, count as int);
                    lemma_split_push_segment(self.0@, segment@);
                    lemma_segments_error_push(split_on(self.0@, '/'), segment@);
                    assert((self.0@.push('/') + segment@).len() > 0);
                    assert(value@ == self.0@.push('/') + segment@);
                }
                Ok(CanonicalPath(value))
            },
        }
    }

    /// The path text.
    pub fn as_str(&self) -> (r: &str)
        ensures
            r@ == self@,
            is_canonical_path(self@),
    {
        proof {
            use_type_invariant(self);
        }
        self.0.as_str()
    }

    /// The path text as an owned string.
    pub fn to_string(&self) -> (r: String)
        ensures
            r@ == self@,
    {
        self.0.clone()
    }

    /// The `/`-separated segments, in order.
    pub fn segments(&self) -> (r: Vec<&str>)
        ensures
            r@.map_values(|p: &str| p@) == split_on(self@, '/'),
    {
        split_slashes(self.0.as_str())
    }
}

/// Splitting a joined list of separator-free, non-empty pieces gives the pieces back.
pub proof fn lemma_join_split(parts: Seq<Seq<char>>)
    requires
        parts.len() > 0,
        segments_error(parts, 0) is None,
    ensures
        split_on(join_with(parts, '/'), '/') == parts,
        is_canonical_path(join_with(parts, '/')),
    decreases parts.len(),
{
    lemma_segments_error_none_all(parts, 0);
    lemma_segment_ok_chars(parts.last(), parts.len() - 1);
    if parts.len() == 1 {
        lemma_split_no_sep(parts[0]);
    } else {
        let init = parts.drop_last();
        lemma_segments_error_none_prefix(parts, init);
        lemma_join_split(init);
        assert(segment_error(parts.last(), parts.len() - 1) is None);
        lemma_split_push_segment(join_with(init, '/'), parts.last());
        assert(init.push(parts.last()) =~= parts);
        lemma_segments_error_push(init, parts.last());
    }
    lemma_join_nonempty(parts);
}

/// A joined non-empty list whose first piece is non-empty is non-empty.
proof fn lemma_join_nonempty(parts: Seq<Seq<char>>)
    requires
        parts.len() > 0,
        forall|i: int| 0 <= i < parts.len() ==> parts[i].len() > 0,
    ensures
        join_with(parts, '/').len() > 0,
    decreases parts.len(),
{
    if parts.len() > 1 {
        lemma_join_nonempty(parts.drop_last());
    }
}

/// An error-free segment is made of allowed characters.
proof fn lemma_segment_ok_chars(seg: Seq<char>, index: int)
    requires
        segment_error(seg, index) is None,
    ensures
        forall|k: int| 0 <= k < seg.len() ==> is_segment_char(#[trigger] seg[k]),
        seg.len() > 0,
{
    lemma_first_invalid_none(seg, 0);
}

/// No error from `i` on means every later segment is error-free.
proof fn lemma_segments_error_none_all(segs: Seq<Seq<char>>, i: int)
    requires
        0 <= i <= segs.len(),
        segments_error(segs, i) is None,
    ensures
        forall|k: int| i <= k < segs.len() ==> segment_error(#[trigger] segs[k], k) is None,
        forall|k: int| i <= k < segs.len() ==> (#[trigger] segs[k]).len() > 0,
    decreases segs.len() - i,
{
    if i < segs.len() {
        lemma_segments_error_none_all(segs, i + 1);
    }
}

/// An error-free list stays error-free without its last piece.
proof fn lemma_segments_error_none_prefix(segs: Seq<Seq<char>>, init: Seq<Seq<char>>)
    requires
        segs.len() > 0,
        init == segs.drop_last(),
        segments_error(segs, 0) is None,
    ensures
        segments_error(init, 0) is None,
{
    lemma_segments_error_none_all(segs, 0);
    lemma_segments_error_from_all(init, 0);
}

/// Every segment from `i` on error-free means no error from `i` on.
proof fn lemma_segments_error_from_all(segs: Seq<Seq<char>>, i: int)
    requires
        0 <= i <= segs.len(),
        forall|k: int| i <= k < segs.len() ==> segment_error(#[trigger] segs[k], k) is None,
    ensures
        segments_error(segs, i) is None,
    decreases segs.len() - i,
{
    if i < segs.len() {
        lemma_segments_error_from_all(segs, i + 1);
    }
}

/// Appending an error-free last segment to an error-free list keeps it
/// error-free; appending a faulty one yields that segment's error.
proof fn lemma_segments_error_push(segs: Seq<Seq<char>>, last: Seq<char>)
    requires
        segments_error(segs, 0) is None,
    ensures
        segments_error(segs.push(last), 0) == segment_error(last, segs.len() as int),
{
    lemma_segments_error_none_all(segs, 0);
    lemma_segments_error_push_from(segs, last, 0);
}

proof fn lemma_segments_error_push_from(segs: Seq<Seq<char>>, last: Seq<char>, i: int)
    requires
        0 <= i <= segs.len(),
        forall|k: int| i <= k < segs.len() ==> segment_error(#[trigger] segs[k], k) is None,
    ensures
        segments_error(segs.push(last), i) == segment_error(last, segs.len() as int),
    decreases segs.len() - i,
{
    let p = segs.push(last);
    if i < segs.len() {
        assert(p[i] == segs[i]);
        lemma_segments_error_push_from(segs, last, i + 1);
    } else {
        assert(p[i] == last);
        assert(segments_error(p, i + 1) is None);
    }
}

/// A sequence without the separator splits into itself.
proof fn lemma_split_no_sep(s: Seq<char>)
    requires
        forall|k: int| 0 <= k < s.len() ==> is_segment_char(#[trigger] s[k]),
    ensures
        split_on(s, '/') == seq![s],
    decreases s.len(),
{
    if s.len() > 0 {
        lemma_split_no_sep(s.drop_last());
        assert(s.drop_last().push(s.last()) =~= s);
    } else {
        assert(s =~= Seq::<char>::empty());
    }
}

/// Splitting `p / seg` for a separator-free `seg` adds `seg` as a new piece.
proof fn lemma_split_push_segment(p: Seq<char>, seg: Seq<char>)
    requires
        forall|k: int| 0 <= k < seg.len() ==> is_segment_char(#[trigger] seg[k]),
    ensures
        split_on(p.push('/') + seg, '/') == split_on(p, '/').push(seg),
    decreases seg.len(),
{
    if seg.len() == 0 {
        assert(p.push('/') + seg =~= p.push('/'));
        assert((p.push('/')).drop_last() =~= p);
        assert((p.push('/')).last() == '/');
        assert(seg =~= Seq::<char>::empty());
    } else {
        let s = p.push('/') + seg;
        lemma_split_push_segment(p, seg.drop_last());
        assert(s.drop_last() =~= p.push('/') + seg.drop_last());
        assert(s.last() == seg.last());
        lemma_split_nonempty(p, '/');
        assert(seg.drop_last().push(seg.last()) =~= seg);
        assert(split_on(p, '/').push(seg.drop_last()).update(
            split_on(p, '/').len() as int,
            seg.drop_last().push(seg.last()),
        ) =~= split_on(p, '/').push(seg));
    }
}

} // verus!
