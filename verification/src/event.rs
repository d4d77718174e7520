//! The tracker's event and the file that shows its donation total.
use vstd::prelude::*;
use crate::config::TOTAL_DONATION_FILENAME;
use crate::decimal::{decimal, push_decimal};
use crate::dollars::{dollars_text, format_dollars};
use crate::write_file::FileWrite;

verus! {

/// A tracker event, with its donation total in whole cents.
#[derive(Debug, Clone, Copy, PartialEq, Eq)]
pub struct Event {
    pub donation_total_cents: i64,
}

/// The address of an event's record, totals included.
pub open spec fn event_url_text(id: u64) -> Seq<char> {
    "https://donate.cherry-rush.org/tracker/api/v2/events/"@ + decimal(id as nat) + "/?totals"@
}

/// The address of the record of event `id`, with its totals.
pub fn event_url(id: u64) -> (url: String)
    ensures
        url@ == event_url_text(id),
{
    let mut url = String::new();
    url.append("https://donate.cherry-rush.org/tracker/api/v2/events/");
    push_decimal(&mut url, id);
    url.append("/?totals");
    url
}

/// The file that shows an event's donation total.
pub fn total_file(total_cents: i64) -> (file: FileWrite)
    requires
        total_cents > i64::MIN,
    ensures
        file@ == (TOTAL_DONATION_FILENAME@, dollars_text(total_cents as int)),
{
    let mut name = String::new();
    name.append(TOTAL_DONATION_FILENAME);
    FileWrite { name, content: format_dollars(total_cents) }
}

} // verus!
