//! The program's one argument: the tracker event to follow.
use vstd::prelude::*;
use crate::decimal::{parse_u64, parse_u64_str};

verus! {

/// The event followed when no event is named.
pub const DEFAULT_EVENT_ID: u64 = 1;

/// The event named by the optional first argument: the default event when
/// there is none, the argument read as `u64::from_str` reads it otherwise
/// (`None` when it is not such a number).
pub fn event_id_from_arg(arg: Option<&str>) -> (id: Option<u64>)
    ensures
        match arg {
            None => id == Some(DEFAULT_EVENT_ID),
            Some(s) => id == parse_u64(s@),
        },
{
    match arg {
        None => Some(DEFAULT_EVENT_ID),
        Some(s) => parse_u64_str(s),
    }
}

} // verus!
