//! Symbolic names of declared objects.
use vstd::prelude::*;

use crate::declare::error::{DeclareError, SymbolicNameError};
use crate::text::{chars_of, is_non_blank, owned, seq_lt, str_eq, str_lt};
use crate::kernel::duplicate::Duplicate;

verus! {

/// A character allowed in a symbolic name: lowercase ASCII letters, ASCII
/// digits, `_` and `-`.
pub open spec fn is_name_char(c: char) -> bool {
    ('a' <= c && c <= 'z') || ('0' <= c && c <= '9') || c == '_' || c == '-'
}

/// Position of the first character that may not stand in a name.
pub open spec fn first_bad_name_char(s: Seq<char>) -> Option<int> {
    if exists|i: int| 0 <= i < s.len() && !is_name_char(s[i]) {
        Some(
            choose|i: int|
                0 <= i < s.len() && !is_name_char(s[i]) && forall|k: int|
                    0 <= k < i ==> is_name_char(s[k]),
        )
    } else {
        None
    }
}

/// Position of the first character of the slice that may not stand in a name.
fn find_bad_name_char(cs: &[char]) -> (r: Option<usize>)
    ensures
        r matches Some(i) ==> i < cs@.len() && first_bad_name_char(cs@) == Some(i as int),
        r is None ==> first_bad_name_char(cs@) is None,
{
    let mut i: usize = 0;
    while i < cs.len()
        invariant
            i <= cs@.len(),
            forall|k: int| 0 <= k < i ==> is_name_char(cs@[k]),
        decreases cs@.len() - i,
    {
        let c = cs[i];
        if !(('a' <= c && c <= 'z') || ('0' <= c && c <= '9') || c == '_' || c == '-') {
            proof {
                let w = choose|w: int|
                    0 <= w < cs@.len() && !is_name_char(cs@[w]) && forall|k: int|
                        0 <= k < w ==> is_name_char(cs@[k]);
                if w < i {
                } else if w > i {
                    assert(is_name_char(cs@[i as int]));
                }
            }
            return Some(i);
        }
        i = i + 1;
    }
    None
}

/// A validated symbolic name.
#[derive(Debug, PartialEq, Eq, PartialOrd, Ord, Hash)]
pub struct SymbolicName(String);

impl Clone for SymbolicName {
    fn clone(&self) -> (r: Self)
        ensures
            r == *self,
    {
        proof {
            use_type_invariant(self);
        }
        SymbolicName(self.0.clone())
    }
}

impl View for SymbolicName {
    type V = Seq<char>;

    closed spec fn view(&self) -> Seq<char> {
        self.0@
    }
}

impl SymbolicName {
    #[verifier::type_invariant]
    closed spec fn well_formed(self) -> bool {
        self.0@.len() > 0 && first_bad_name_char(self.0@) is None
    }

    /// Every symbolic name is non-empty and made of name characters.
    pub fn check_well_formed(&self)
        ensures
            self@.len() > 0,
            first_bad_name_char(self@) is None,
    {
        proof {
            use_type_invariant(self);
        }
    }

    /// Accepts a non-empty name of lowercase ASCII letters, digits, `_` and
    /// `-`; otherwise names the first offending character.
    pub fn new(value: &str) -> (r: Result<Self, SymbolicNameError>)
        ensures
            value@.len() == 0 ==> r == Err::<Self, _>(SymbolicNameError::Empty),
            value@.len() > 0 ==> match first_bad_name_char(value@) {
                Some(i) => r == Err::<Self, _>(
                    SymbolicNameError::InvalidCharacter { index: i as usize, character: value@[i] },
                ),
                None => r matches Ok(n) && n@ == value@,
            },
    {
        let cs = chars_of(value);
        if cs.len() == 0 {
            return Err(SymbolicNameError::Empty);
        }
        match find_bad_name_char(cs.as_slice()) {
            Some(index) => Err(SymbolicNameError::InvalidCharacter { index, character: cs[index] }),
            None => Ok(SymbolicName(owned(value))),
        }
    }

    pub fn as_str(&self) -> (r: &str)
        ensures
            r@ == self@,
    {
        self.0.as_str()
    }

    /// Whether two names are the same text.
    pub fn same_text(&self, other: &Self) -> (r: bool)
        ensures
            r == (self@ == other@),
    {
        str_eq(self.0.as_str(), other.0.as_str())
    }

}

/// Stable name of a declared object.
#[derive(Debug, Clone, PartialEq, Eq, PartialOrd, Ord, Hash)]
pub struct DeclarationName(String);

impl View for DeclarationName {
    type V = Seq<char>;

    closed spec fn view(&self) -> Seq<char> {
        self.0@
    }
}

impl DeclarationName {
    /// Accepts a non-empty name of lowercase ASCII letters, digits, `_` and
    /// `-`.
    pub fn new(value: &str) -> (r: Result<Self, DeclareError>)
        ensures
            value@.len() == 0 ==> r == Err::<Self, _>(
                DeclareError::Empty { field: "declaration_name" },
            ),
            value@.len() > 0 && first_bad_name_char(value@) is Some ==> r == Err::<Self, _>(
                DeclareError::Invalid { field: "declaration_name" },
            ),
            value@.len() > 0 && first_bad_name_char(value@) is None ==> (r matches Ok(n) && n@
                == value@),
    {
        let cs = chars_of(value);
        if cs.len() == 0 {
            return Err(DeclareError::Empty { field: "declaration_name" });
        }
        match find_bad_name_char(cs.as_slice()) {
            Some(_) => Err(DeclareError::Invalid { field: "declaration_name" }),
            None => Ok(DeclarationName(owned(value))),
        }
    }

    /// Creates a name without validation, for trusted catalogs.
    pub fn new_unchecked(value: &str) -> (r: Self)
        ensures
            r@ == value@,
    {
        DeclarationName(owned(value))
    }

    pub fn as_str(&self) -> (r: &str)
        ensures
            r@ == self@,
    {
        self.0.as_str()
    }

    /// Whether two names are the same text.
    pub fn same_text(&self, other: &Self) -> (r: bool)
        ensures
            r == (self@ == other@),
    {
        str_eq(self.0.as_str(), other.0.as_str())
    }

    /// Whether this name sorts strictly before the other.
    pub fn precedes(&self, other: &Self) -> (r: bool)
        ensures
            r == seq_lt(self@, other@),
    {
        str_lt(self.0.as_str(), other.0.as_str())
    }

}

/// Optional human-readable label of a declared object.
#[derive(Debug, Clone, PartialEq, Eq, PartialOrd, Ord, Hash)]
pub struct Label(String);

impl View for Label {
    type V = Seq<char>;

    closed spec fn view(&self) -> Seq<char> {
        self.0@
    }
}

impl Label {
    /// Accepts any text that is not blank.
    pub fn new(value: &str) -> (r: Result<Self, DeclareError>)
        ensures
            !is_non_blank(value@) ==> r == Err::<Self, _>(DeclareError::Empty { field: "label" }),
            is_non_blank(value@) ==> (r matches Ok(l) && l@ == value@),
    {
        if !crate::text::str_non_blank(value) {
            return Err(DeclareError::Empty { field: "label" });
        }
        Ok(Label(owned(value)))
    }

    pub fn as_str(&self) -> (r: &str)
        ensures
            r@ == self@,
    {
        self.0.as_str()
    }
}

impl Duplicate for SymbolicName {
    fn duplicate(&self) -> (r: Self) {
        proof {
            use_type_invariant(self);
        }
        SymbolicName(self.0.clone())
    }
}

impl Duplicate for DeclarationName {
    fn duplicate(&self) -> (r: Self) {
        DeclarationName(self.0.clone())
    }
}

} // verus!
