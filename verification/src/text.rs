//! Character-level helpers shared by the string-valued parts of the model.
use vstd::prelude::*;

verus! {

/// Appends one character to a string (std's `String::push`): the string's
/// characters afterwards are the old characters followed by `c`.
#[verifier::external_body]
pub fn push_char(s: &mut String, c: char)
    ensures
        final(s)@ == old(s)@.push(c),
{
    s.push(c);
}

/// Copies the characters of `s` into a vector.
pub fn chars_of(s: &str) -> (v: Vec<char>)
    ensures
        v@ == s@,
{
    let n = s.unicode_len();
    let mut v: Vec<char> = Vec::new();
    let mut i: usize = 0;
    while i < n
        invariant
            n == s@.len(),
            i <= n,
            v@ == s@.take(i as int),
        decreases n - i,
    {
        let c = s.get_char(i);
        v.push(c);
        i = i + 1;
        assert(v@ =~= s@.take(i as int));
    }
    assert(v@ =~= s@);
    v
}

/// Builds a string holding exactly the given characters.
pub fn string_from_chars(cs: &[char]) -> (s: String)
    ensures
        s@ == cs@,
{
    let mut s = String::new();
    let mut i: usize = 0;
    while i < cs.len()
        invariant
            i <= cs@.len(),
            s@ == cs@.take(i as int),
        decreases cs@.len() - i,
    {
        push_char(&mut s, cs[i]);
        i = i + 1;
        assert(s@ =~= cs@.take(i as int));
    }
    assert(s@ =~= cs@);
    s
}

/// Builds an owned string from a string slice.
pub fn owned(s: &str) -> (r: String)
    ensures
        r@ == s@,
{
    String::from_str(s)
}

/// Appends a string slice to a string.
pub fn push_str(s: &mut String, t: &str)
    ensures
        final(s)@ == old(s)@ + t@,
{
    s.append(t);
}

/// Character-wise equality of two string slices.
pub fn str_eq(a: &str, b: &str) -> (r: bool)
    ensures
        r == (a@ == b@),
{
    let x = chars_of(a);
    let y = chars_of(b);
    if x.len() != y.len() {
        return false;
    }
    let mut i: usize = 0;
    while i < x.len()
        invariant
            x@ == a@,
            y@ == b@,
            x@.len() == y@.len(),
            i <= x@.len(),
            x@.take(i as int) == y@.take(i as int),
        decreases x@.len() - i,
    {
        if x[i] != y[i] {
            assert(a@[i as int] != b@[i as int]);
            return false;
        }
        i = i + 1;
        assert(x@.take(i as int) =~= y@.take(i as int));
    }
    assert(x@ =~= x@.take(i as int));
    assert(y@ =~= y@.take(i as int));
    true
}

/// Strict lexicographic order of character sequences by code point, which is
/// also the byte order of their UTF-8 encodings (the order of `str`).
pub open spec fn seq_lt(a: Seq<char>, b: Seq<char>) -> bool
    decreases a.len(),
{
    if a.len() == 0 {
        b.len() > 0
    } else if b.len() == 0 {
        false
    } else if a[0] != b[0] {
        a[0] < b[0]
    } else {
        seq_lt(a.drop_first(), b.drop_first())
    }
}

/// Lexicographic order with equality.
pub open spec fn seq_le(a: Seq<char>, b: Seq<char>) -> bool {
    seq_lt(a, b) || a == b
}

/// Comparing after a common prefix of length `i` is comparing the remainders.
pub proof fn lemma_seq_lt_skip(a: Seq<char>, b: Seq<char>, i: int)
    requires
        0 <= i <= a.len(),
        i <= b.len(),
        a.take(i) == b.take(i),
    ensures
        seq_lt(a, b) == seq_lt(a.skip(i), b.skip(i)),
    decreases i,
{
    if i > 0 {
        assert(a[0] == a.take(i)[0]);
        assert(b[0] == b.take(i)[0]);
        assert(a.drop_first().take(i - 1) =~= a.take(i).drop_first());
        assert(b.drop_first().take(i - 1) =~= b.take(i).drop_first());
        lemma_seq_lt_skip(a.drop_first(), b.drop_first(), i - 1);
        assert(a.drop_first().skip(i - 1) =~= a.skip(i));
        assert(b.drop_first().skip(i - 1) =~= b.skip(i));
    } else {
        assert(a.skip(0) =~= a);
        assert(b.skip(0) =~= b);
    }
}

/// `seq_lt` is irreflexive.
pub proof fn lemma_seq_lt_irreflexive(a: Seq<char>)
    ensures
        !seq_lt(a, a),
    decreases a.len(),
{
    if a.len() > 0 {
        lemma_seq_lt_irreflexive(a.drop_first());
    }
}

/// `seq_lt` is transitive.
pub proof fn lemma_seq_lt_transitive(a: Seq<char>, b: Seq<char>, c: Seq<char>)
    requires
        seq_lt(a, b),
        seq_lt(b, c),
    ensures
        seq_lt(a, c),
    decreases a.len(),
{
    if a.len() > 0 && b.len() > 0 && c.len() > 0 {
        if a[0] == b[0] && b[0] == c[0] {
            lemma_seq_lt_transitive(a.drop_first(), b.drop_first(), c.drop_first());
        }
    }
}

/// `seq_lt` is total on distinct sequences.
pub proof fn lemma_seq_lt_total(a: Seq<char>, b: Seq<char>)
    ensures
        seq_lt(a, b) || seq_lt(b, a) || a == b,
    decreases a.len(),
{
    if a.len() > 0 && b.len() > 0 {
        if a[0] == b[0] {
            lemma_seq_lt_total(a.drop_first(), b.drop_first());
            if a.drop_first() == b.drop_first() {
                assert(a =~= seq![a[0]] + a.drop_first());
                assert(b =~= seq![b[0]] + b.drop_first());
            }
        } else {
        }
    } else if a.len() == 0 && b.len() == 0 {
        assert(a =~= b);
    }
}

/// `seq_lt` is asymmetric.
pub proof fn lemma_seq_lt_asymmetric(a: Seq<char>, b: Seq<char>)
    requires
        seq_lt(a, b),
    ensures
        !seq_lt(b, a),
{
    if seq_lt(b, a) {
        lemma_seq_lt_transitive(a, b, a);
        lemma_seq_lt_irreflexive(a);
    }
}

/// Lexicographic strict order on character sequences.
pub fn chars_lt(x: &[char], y: &[char]) -> (r: bool)
    ensures
        r == seq_lt(x@, y@),
{
    let mut i: usize = 0;
    while i < x.len() && i < y.len()
        invariant
            i <= x@.len(),
            i <= y@.len(),
            x@.take(i as int) == y@.take(i as int),
        decreases x@.len() - i,
    {
        if x[i] != y[i] {
            proof {
                lemma_seq_lt_skip(x@, y@, i as int);
                assert(x@.skip(i as int)[0] == x@[i as int]);
                assert(y@.skip(i as int)[0] == y@[i as int]);
            }
            return x[i] < y[i];
        }
        i = i + 1;
        assert(x@.take(i as int) =~= y@.take(i as int));
    }
    proof {
        lemma_seq_lt_skip(x@, y@, i as int);
    }
    i == x.len() && i < y.len()
}

/// Lexicographic strict order on string slices.
pub fn str_lt(a: &str, b: &str) -> (r: bool)
    ensures
        r == seq_lt(a@, b@),
{
    let x = chars_of(a);
    let y = chars_of(b);
    chars_lt(x.as_slice(), y.as_slice())
}

/// Decimal digits of a number, most significant first, without leading zeros
/// (the number zero is written as one digit).
pub open spec fn decimal(n: nat) -> Seq<char>
    decreases n,
{
    if n < 10 {
        seq![digit_char((n % 10) as nat)]
    } else {
        decimal(n / 10).push(digit_char((n % 10) as nat))
    }
}

/// The decimal digit character for `d < 10`.
pub open spec fn digit_char(d: nat) -> char {
    ((d + 48) as u32) as char
}

pub proof fn lemma_digit_char(d: nat)
    requires
        d < 10,
    ensures
        digit_char(d) as nat == d + '0' as nat,
        is_ascii_digit(digit_char(d)),
{
    if d == 0 {
    } else if d == 1 {
    } else if d == 2 {
    } else if d == 3 {
    } else if d == 4 {
    } else if d == 5 {
    } else if d == 6 {
    } else if d == 7 {
    } else if d == 8 {
    } else {
    }
}

/// Decimal digits read back as the number they write.
pub proof fn lemma_decimal_value(n: nat)
    ensures
        char_digits_value(decimal(n)) == n,
        forall|i: int| 0 <= i < decimal(n).len() ==> is_ascii_digit(#[trigger] decimal(n)[i]),
    decreases n,
{
    lemma_digit_char((n % 10) as nat);
    let d = decimal(n);
    if n >= 10 {
        lemma_decimal_value(n / 10);
        assert(d.drop_last() =~= decimal(n / 10));
        assert(d.last() == digit_char((n % 10) as nat));
        assert(char_digits_value(d) == (n / 10) * 10 + n % 10);
        assert((n / 10) * 10 + n % 10 == n);
    } else {
        assert(d.drop_last() =~= Seq::<char>::empty());
        assert(char_digits_value(d.drop_last()) == 0);
        assert(d.last() == digit_char((n % 10) as nat));
        assert(char_digits_value(d) == n % 10);
    }
}

/// Leading zeros do not change the value of digits.
pub proof fn lemma_leading_zeros_value(m: nat, s: Seq<char>)
    ensures
        char_digits_value(Seq::new(m, |_i: int| '0') + s) == char_digits_value(s),
    decreases s.len(), m,
{
    let z = Seq::new(m, |_i: int| '0');
    if s.len() > 0 {
        assert((z + s).drop_last() =~= z + s.drop_last());
        lemma_leading_zeros_value(m, s.drop_last());
    } else if m > 0 {
        assert(z + s =~= z);
        assert(z.drop_last() =~= Seq::new((m - 1) as nat, |_i: int| '0') + Seq::<char>::empty());
        lemma_leading_zeros_value((m - 1) as nat, Seq::<char>::empty());
    } else {
        assert(z + s =~= Seq::<char>::empty());
    }
}

/// Renders a number in decimal.
pub fn usize_to_decimal(n: usize) -> (s: String)
    ensures
        s@ == decimal(n as nat),
    decreases n,
{
    let d = (n % 10) as u32;
    let c = char_of_digit(d);
    if n < 10 {
        let mut s = String::new();
        push_char(&mut s, c);
        assert(s@ =~= decimal(n as nat));
        s
    } else {
        let mut s = usize_to_decimal(n / 10);
        push_char(&mut s, c);
        s
    }
}

/// The character of one decimal digit.
pub fn char_of_digit(d: u32) -> (c: char)
    requires
        d < 10,
    ensures
        c == digit_char(d as nat),
{
    let r = if d == 0 { '0' } else if d == 1 { '1' } else if d == 2 { '2' } else if d == 3 {
        '3'
    } else if d == 4 { '4' } else if d == 5 { '5' } else if d == 6 { '6' } else if d == 7 {
        '7'
    } else if d == 8 { '8' } else { '9' };
    r
}

/// A character of the Unicode `White_Space` property (what `str::trim`
/// removes).
pub open spec fn is_whitespace(c: char) -> bool {
    ('\t' <= c && c <= '\r') || c == ' ' || c == '\u{85}' || c == '\u{A0}' || c == '\u{1680}'
        || ('\u{2000}' <= c && c <= '\u{200A}') || c == '\u{2028}' || c == '\u{2029}'
        || c == '\u{202F}' || c == '\u{205F}' || c == '\u{3000}'
}

/// Whether a character is Unicode white space.
pub fn char_is_whitespace(c: char) -> (r: bool)
    ensures
        r == is_whitespace(c),
{
    ('\t' <= c && c <= '\r') || c == ' ' || c == '\u{85}' || c == '\u{A0}' || c == '\u{1680}'
        || ('\u{2000}' <= c && c <= '\u{200A}') || c == '\u{2028}' || c == '\u{2029}'
        || c == '\u{202F}' || c == '\u{205F}' || c == '\u{3000}'
}

/// Text that is not blank: some character is not white space (what remains
/// non-empty after `str::trim`).
pub open spec fn is_non_blank(s: Seq<char>) -> bool {
    exists|i: int| 0 <= i < s.len() && !is_whitespace(#[trigger] s[i])
}

/// Whether some character of the slice is not white space.
pub fn chars_non_blank(cs: &[char]) -> (r: bool)
    ensures
        r == is_non_blank(cs@),
{
    let mut i: usize = 0;
    while i < cs.len()
        invariant
            i <= cs@.len(),
            forall|k: int| 0 <= k < i ==> is_whitespace(#[trigger] cs@[k]),
        decreases cs@.len() - i,
    {
        if !char_is_whitespace(cs[i]) {
            return true;
        }
        i = i + 1;
    }
    false
}

/// Whether the text is not blank.
pub fn str_non_blank(s: &str) -> (r: bool)
    ensures
        r == is_non_blank(s@),
{
    let cs = chars_of(s);
    chars_non_blank(cs.as_slice())
}

/// Index of the first occurrence of `c` in `s`.
pub open spec fn first_index_of(s: Seq<char>, c: char) -> Option<int> {
    if exists|i: int| 0 <= i < s.len() && s[i] == c {
        Some(choose|i: int| 0 <= i < s.len() && s[i] == c && forall|k: int| 0 <= k < i ==> s[k] != c)
    } else {
        None
    }
}

/// The first position of `c` in the slice.
pub fn find_char(cs: &[char], c: char) -> (r: Option<usize>)
    ensures
        r matches Some(i) ==> first_index_of(cs@, c) == Some(i as int) && i < cs@.len() && cs@[i as int]
            == c && forall|k: int| 0 <= k < i ==> cs@[k] != c,
        r is None ==> first_index_of(cs@, c) is None && !cs@.contains(c),
{
    let mut i: usize = 0;
    while i < cs.len()
        invariant
            i <= cs@.len(),
            forall|k: int| 0 <= k < i ==> cs@[k] != c,
        decreases cs@.len() - i,
    {
        if cs[i] == c {
            proof {
                let w = choose|w: int|
                    0 <= w < cs@.len() && cs@[w] == c && forall|k: int| 0 <= k < w ==> cs@[k] != c;
                assert(cs@[i as int] == c);
                if w < i {
                } else if w > i {
                    assert(cs@[i as int] != c);
                }
            }
            return Some(i);
        }
        i = i + 1;
    }
    None
}

/// The characters of `cs` from `start` up to `end` as a string.
pub fn string_of_range(cs: &[char], start: usize, end: usize) -> (s: String)
    requires
        start <= end <= cs@.len(),
    ensures
        s@ == cs@.subrange(start as int, end as int),
{
    let mut s = String::new();
    let mut i: usize = start;
    while i < end
        invariant
            start <= i <= end,
            end <= cs@.len(),
            s@ == cs@.subrange(start as int, i as int),
        decreases end - i,
    {
        push_char(&mut s, cs[i]);
        i = i + 1;
        assert(s@ =~= cs@.subrange(start as int, i as int));
    }
    s
}

/// Whether the characters contain `c`.
pub fn chars_contain(cs: &[char], c: char) -> (r: bool)
    ensures
        r == cs@.contains(c),
{
    let mut i: usize = 0;
    while i < cs.len()
        invariant
            i <= cs@.len(),
            forall|k: int| 0 <= k < i ==> cs@[k] != c,
        decreases cs@.len() - i,
    {
        if cs[i] == c {
            return true;
        }
        i = i + 1;
    }
    false
}

/// An ASCII decimal digit.
pub open spec fn is_ascii_digit(c: char) -> bool {
    '0' <= c && c <= '9'
}

/// Decimal value of a run of digit characters.
pub open spec fn char_digits_value(s: Seq<char>) -> nat
    decreases s.len(),
{
    if s.len() == 0 {
        0
    } else {
        char_digits_value(s.drop_last()) * 10 + (s.last() as nat - '0' as nat) as nat
    }
}

/// The digits of an unsigned literal: an optional leading `+`, then the rest.
pub open spec fn unsigned_text(s: Seq<char>) -> Seq<char> {
    if s.len() > 0 && s[0] == '+' {
        s.skip(1)
    } else {
        s
    }
}

/// What `usize::from_str` gives for the text: an optional `+` and at least
/// one digit, of value at most `usize::MAX`.
pub open spec fn usize_of_text(s: Seq<char>) -> Option<nat> {
    let d = unsigned_text(s);
    if d.len() > 0 && (forall|i: int| 0 <= i < d.len() ==> is_ascii_digit(#[trigger] d[i]))
        && char_digits_value(d) <= usize::MAX {
        Some(char_digits_value(d))
    } else {
        None
    }
}

proof fn lemma_char_digits_monotone(s: Seq<char>, i: int)
    requires
        0 <= i <= s.len(),
        forall|k: int| 0 <= k < s.len() ==> is_ascii_digit(#[trigger] s[k]),
    ensures
        char_digits_value(s.take(i)) <= char_digits_value(s),
    decreases s.len() - i,
{
    if i < s.len() {
        lemma_char_digits_monotone(s, i + 1);
        assert(s.take(i + 1).drop_last() =~= s.take(i));
    } else {
        assert(s.take(i) =~= s);
    }
}

/// Parses an unsigned integer the way `usize::from_str` does.
pub fn parse_usize(s: &[char]) -> (r: Option<usize>)
    ensures
        r matches Some(n) ==> usize_of_text(s@) == Some(n as nat),
        r is None ==> usize_of_text(s@) is None,
{
    let start: usize = if s.len() > 0 && s[0] == '+' {
        1
    } else {
        0
    };
    let ghost d = unsigned_text(s@);
    assert(d =~= s@.skip(start as int));
    if start >= s.len() {
        return None;
    }
    let mut value: usize = 0;
    let mut i: usize = start;
    while i < s.len()
        invariant
            start <= i <= s@.len(),
            start < s@.len(),
            d == unsigned_text(s@),
            d =~= s@.skip(start as int),
            forall|k: int| start <= k < i ==> is_ascii_digit(#[trigger] s@[k]),
            value == char_digits_value(s@.subrange(start as int, i as int)),
        decreases s@.len() - i,
    {
        let c = s[i];
        if !('0' <= c && c <= '9') {
            assert(d[i - start] == s@[i as int]);
            return None;
        }
        assert(s@.subrange(start as int, i + 1).drop_last() =~= s@.subrange(start as int, i as int));
        assert(s@.subrange(start as int, i + 1).last() == c);
        let digit: usize = (c as u32 - '0' as u32) as usize;
        let ghost next: nat = char_digits_value(s@.subrange(start as int, i + 1));
        assert(next == value * 10 + digit);
        if value > (usize::MAX - digit) / 10 {
            proof {
                assert(value * 10 + digit > usize::MAX) by (nonlinear_arith)
                    requires
                        value > (usize::MAX - digit) / 10,
                        digit <= 9,
                ;
                if forall|k: int| 0 <= k < d.len() ==> is_ascii_digit(#[trigger] d[k]) {
                    assert(d.take(i + 1 - start) =~= s@.subrange(start as int, i + 1));
                    lemma_char_digits_monotone(d, i + 1 - start);
                }
            }
            return None;
        }
        assert(value * 10 + digit <= usize::MAX) by (nonlinear_arith)
            requires
                value <= (usize::MAX - digit) / 10,
                digit <= 9,
        ;
        value = value * 10 + digit;
        i = i + 1;
    }
    assert(s@.subrange(start as int, s@.len() as int) =~= d);
    Some(value)
}

/// The last position of `c` in `s`.
pub open spec fn last_index_of(s: Seq<char>, c: char) -> Option<int>
    decreases s.len(),
{
    if s.len() == 0 {
        None
    } else if s.last() == c {
        Some(s.len() - 1)
    } else {
        last_index_of(s.drop_last(), c)
    }
}

/// The last position of `c` among the first `end` characters.
pub fn find_last_char(cs: &[char], end: usize, c: char) -> (r: Option<usize>)
    requires
        end <= cs@.len(),
    ensures
        r matches Some(i) ==> last_index_of(cs@.take(end as int), c) == Some(i as int) && i < end,
        r is None ==> last_index_of(cs@.take(end as int), c) is None,
{
    let mut k: usize = end;
    while k > 0
        invariant
            k <= end <= cs@.len(),
            last_index_of(cs@.take(end as int), c) == last_index_of(cs@.take(k as int), c),
        decreases k,
    {
        assert(cs@.take(k as int).last() == cs@[k - 1]);
        if cs[k - 1] == c {
            return Some(k - 1);
        }
        assert(cs@.take(k as int).drop_last() =~= cs@.take(k - 1));
        k = k - 1;
    }
    None
}

/// The last component of a path, leaving out empty and `.` components.
pub open spec fn last_component(p: Seq<char>) -> Option<Seq<char>>
    decreases p.len(),
{
    match last_index_of(p, '/') {
        None => if p.len() == 0 || p == seq!['.'] {
            None
        } else {
            Some(p)
        },
        Some(i) => {
            let seg = p.skip(i + 1);
            if 0 <= i < p.len() && (seg.len() == 0 || seg == seq!['.']) {
                last_component(p.take(i))
            } else {
                Some(seg)
            }
        },
    }
}

proof fn lemma_last_index_in_range(s: Seq<char>, c: char)
    ensures
        last_index_of(s, c) matches Some(i) ==> 0 <= i < s.len() && s[i] == c,
    decreases s.len(),
{
    if s.len() > 0 && s.last() != c {
        lemma_last_index_in_range(s.drop_last(), c);
    }
}

/// The file name of a path: its last component, unless that is `..`.
pub open spec fn file_name_of(p: Seq<char>) -> Option<Seq<char>> {
    match last_component(p) {
        Some(c) => if c == seq!['.', '.'] {
            None
        } else {
            Some(c)
        },
        None => None,
    }
}

fn is_dot(cs: &[char], start: usize, end: usize) -> (r: bool)
    requires
        start <= end <= cs@.len(),
    ensures
        r == (cs@.subrange(start as int, end as int) == seq!['.']),
{
    if end - start == 1 && cs[start] == '.' {
        assert(cs@.subrange(start as int, end as int) =~= seq!['.']);
        true
    } else {
        let ghost sub = cs@.subrange(start as int, end as int);
        assert(seq!['.'].len() == 1);
        if end - start == 1 {
            assert(sub[0] == cs@[start as int]);
            assert(sub[0] != seq!['.'][0]);
        }
        assert(sub != seq!['.']);
        false
    }
}

/// The file name of the path held in the characters.
pub fn path_file_name(cs: &[char]) -> (r: Option<Vec<char>>)
    ensures
        r matches Some(v) ==> file_name_of(cs@) == Some(v@),
        r is None ==> file_name_of(cs@) is None,
{
    let mut end: usize = cs.len();
    assert(cs@.take(end as int) =~= cs@);
    loop
        invariant
            end <= cs@.len(),
            last_component(cs@) == last_component(cs@.take(end as int)),
        decreases end,
    {
        let ghost p = cs@.take(end as int);
        match find_last_char(cs, end, '/') {
            None => {
                if end == 0 || is_dot(cs, 0, end) {
                    assert(cs@.subrange(0, end as int) =~= p);
                    return None;
                }
                assert(cs@.subrange(0, end as int) =~= p);
                let name = crate::text::slice_range(cs, 0, end);
                return finish_name(name);
            },
            Some(i) => {
                proof {
                    lemma_last_index_in_range(p, '/');
                }
                assert(p.skip(i + 1) =~= cs@.subrange(i + 1, end as int));
                if end - (i + 1) == 0 || is_dot(cs, i + 1, end) {
                    assert(p.take(i as int) =~= cs@.take(i as int));
                    end = i;
                } else {
                    let name = crate::text::slice_range(cs, i + 1, end);
                    return finish_name(name);
                }
            },
        }
    }
}

fn finish_name(name: Vec<char>) -> (r: Option<Vec<char>>)
    ensures
        name@ == seq!['.', '.'] ==> r is None,
        name@ != seq!['.', '.'] ==> r == Some(name),
{
    if name.len() == 2 && name[0] == '.' && name[1] == '.' {
        assert(name@ =~= seq!['.', '.']);
        None
    } else {
        if name.len() == 2 {
            assert(name@ != seq!['.', '.'] || (name@[0] == '.' && name@[1] == '.'));
        }
        Some(name)
    }
}

/// The characters between `start` and `end`.
pub fn slice_range(cs: &[char], start: usize, end: usize) -> (r: Vec<char>)
    requires
        start <= end <= cs@.len(),
    ensures
        r@ == cs@.subrange(start as int, end as int),
{
    let mut out: Vec<char> = Vec::new();
    let mut i: usize = start;
    while i < end
        invariant
            start <= i <= end <= cs@.len(),
            out@ == cs@.subrange(start as int, i as int),
        decreases end - i,
    {
        out.push(cs[i]);
        i = i + 1;
        assert(out@ =~= cs@.subrange(start as int, i as int));
    }
    out
}

/// The extension of a file name: what follows its last `.`, unless that dot
/// begins the name.
pub open spec fn extension_of(name: Seq<char>) -> Option<Seq<char>> {
    match last_index_of(name, '.') {
        Some(i) => if i > 0 {
            Some(name.skip(i + 1))
        } else {
            None
        },
        None => None,
    }
}

/// The extension of the file name held in the characters.
pub fn file_extension(name: &[char]) -> (r: Option<Vec<char>>)
    ensures
        r matches Some(v) ==> extension_of(name@) == Some(v@),
        r is None ==> extension_of(name@) is None,
{
    assert(name@.take(name@.len() as int) =~= name@);
    match find_last_char(name, name.len(), '.') {
        Some(i) => {
            if i > 0 {
                proof {
                    lemma_last_index_in_range(name@, '.');
                }
                let e = slice_range(name, i + 1, name.len());
                assert(e@ =~= name@.skip(i + 1));
                Some(e)
            } else {
                None
            }
        },
        None => None,
    }
}

/// Whether `needle` occurs in `hay` at position `i`.
pub open spec fn occurs_at(hay: Seq<char>, needle: Seq<char>, i: int) -> bool {
    0 <= i && i + needle.len() <= hay.len() && hay.subrange(i, i + needle.len()) == needle
}

/// Whether `needle` occurs somewhere in `hay`.
pub open spec fn contains_text(hay: Seq<char>, needle: Seq<char>) -> bool {
    exists|i: int| #[trigger] occurs_at(hay, needle, i)
}

fn matches_at(hay: &[char], needle: &[char], i: usize) -> (r: bool)
    requires
        i + needle@.len() <= hay@.len(),
    ensures
        r == occurs_at(hay@, needle@, i as int),
{
    let mut k: usize = 0;
    while k < needle.len()
        invariant
            k <= needle@.len(),
            i + needle@.len() <= hay@.len(),
            hay@.len() == hay.len(),
            forall|m: int| 0 <= m < k ==> hay@[i + m] == needle@[m],
        decreases needle@.len() - k,
    {
        if hay[i + k] != needle[k] {
            assert(hay@.subrange(i as int, i + needle@.len())[k as int] != needle@[k as int]);
            return false;
        }
        k = k + 1;
    }
    assert(hay@.subrange(i as int, i + needle@.len()) =~= needle@);
    true
}

/// Whether `needle` occurs in `hay`, as `str::contains` tells.
pub fn str_contains(hay: &str, needle: &str) -> (r: bool)
    ensures
        r == contains_text(hay@, needle@),
{
    let h = chars_of(hay);
    let n = chars_of(needle);
    if n.len() > h.len() {
        assert forall|i: int| !occurs_at(hay@, needle@, i) by {}
        return false;
    }
    let mut i: usize = 0;
    let last = h.len() - n.len();
    while i <= last
        invariant
            h@ == hay@,
            n@ == needle@,
            n@.len() <= h@.len(),
            last == h@.len() - n@.len(),
            i <= last + 1,
            forall|j: int| 0 <= j < i ==> !#[trigger] occurs_at(hay@, needle@, j),
        decreases last + 1 - i,
    {
        if matches_at(h.as_slice(), n.as_slice(), i) {
            return true;
        }
        if i == last {
            assert forall|j: int| !#[trigger] occurs_at(hay@, needle@, j) by {
                if 0 <= j && j <= i {
                }
            }
            return false;
        }
        i = i + 1;
    }
    assert forall|j: int| !#[trigger] occurs_at(hay@, needle@, j) by {
        if 0 <= j && j < i {
        }
    }
    false
}

/// Three-way comparison of integers: -1, 0 or 1.
pub open spec fn sign_of(a: int, b: int) -> int {
    if a < b {
        -1
    } else if a == b {
        0
    } else {
        1
    }
}

/// Three-way lexicographic comparison of texts.
pub open spec fn text_order(a: Seq<char>, b: Seq<char>) -> int {
    if seq_lt(a, b) {
        -1
    } else if a == b {
        0
    } else {
        1
    }
}

pub fn text_compare(a: &str, b: &str) -> (r: i8)
    ensures
        r == text_order(a@, b@),
{
    if str_lt(a, b) {
        -1
    } else if str_eq(a, b) {
        0
    } else {
        1
    }
}

pub proof fn lemma_text_antisymmetric(a: Seq<char>, b: Seq<char>)
    ensures
        text_order(a, b) == -text_order(b, a),
{
    lemma_seq_lt_total(a, b);
    if seq_lt(a, b) {
        lemma_seq_lt_asymmetric(a, b);
    }
    if seq_lt(b, a) {
        lemma_seq_lt_asymmetric(b, a);
    }
    if a == b {
        lemma_seq_lt_irreflexive(a);
    }
}


} // verus!
