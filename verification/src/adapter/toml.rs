//! The `@none` sentinel of TOML input: TOML has no null, so a table whose
//! only entry is `"@none" = true` stands for one.
use vstd::prelude::*;

use crate::text::{owned, push_str};

verus! {

/// What a table's `@none` entry holds, if it has one.
#[derive(Debug, Clone, Copy, PartialEq, Eq, Structural)]
pub enum SentinelMarker {
    /// The table has no `@none` entry.
    Absent,
    /// The entry is a boolean.
    Bool(bool),
    /// The entry is of another type.
    Other,
}

/// What a table stands for.
#[derive(Debug, Clone, Copy, PartialEq, Eq)]
pub enum SentinelVerdict {
    /// An ordinary table, converted entry by entry.
    Table,
    /// The null sentinel.
    Null,
    /// A malformed sentinel, with the reason.
    Invalid(&'static str),
}

/// The verdict on a table of `entries` entries whose `@none` entry is
/// `marker`: nothing without one (an ordinary table); with payload keys
/// beside it, a refusal; otherwise null (`Ok`) when it is `true`, and a
/// refusal when it is `false` or not a boolean.
pub open spec fn sentinel_verdict_of(entries: nat, marker: SentinelMarker) -> Option<
    Result<(), Seq<char>>,
> {
    match marker {
        SentinelMarker::Absent => None,
        SentinelMarker::Bool(b) => if entries != 1 {
            Some(Err("sentinel table must not contain payload keys"@))
        } else if b {
            Some(Ok(()))
        } else {
            Some(Err("@none must be true"@))
        },
        SentinelMarker::Other => if entries != 1 {
            Some(Err("sentinel table must not contain payload keys"@))
        } else {
            Some(Err("@none must be a boolean"@))
        },
    }
}

/// Decides what a table stands for, from its number of entries and its
/// `@none` entry.
pub fn sentinel_verdict(entry_count: usize, marker: SentinelMarker) -> (r: SentinelVerdict)
    ensures
        match sentinel_verdict_of(entry_count as nat, marker) {
            None => r is Table,
            Some(Ok(())) => r is Null,
            Some(Err(text)) => r matches SentinelVerdict::Invalid(reason) && reason@ == text,
        },
{
    match marker {
        SentinelMarker::Absent => SentinelVerdict::Table,
        _ => if entry_count != 1 {
            proof {
                reveal_strlit("sentinel table must not contain payload keys");
            }
            SentinelVerdict::Invalid("sentinel table must not contain payload keys")
        } else {
            match marker {
                SentinelMarker::Bool(true) => SentinelVerdict::Null,
                SentinelMarker::Bool(false) => {
                    proof {
                        reveal_strlit("@none must be true");
                    }
                    SentinelVerdict::Invalid("@none must be true")
                },
                _ => {
                    proof {
                        reveal_strlit("@none must be a boolean");
                    }
                    SentinelVerdict::Invalid("@none must be a boolean")
                },
            }
        },
    }
}

/// The text of a sentinel refusal at a path.
pub fn sentinel_message(path: &str, reason: &str) -> (r: String)
    ensures
        r@ == "invalid @none sentinel at "@ + path@ + ": "@ + reason@,
{
    let mut r = owned("invalid @none sentinel at ");
    push_str(&mut r, path);
    push_str(&mut r, ": ");
    push_str(&mut r, reason);
    r
}

} // verus!
