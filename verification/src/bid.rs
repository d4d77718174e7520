//! Donation incentives ("bids"): their overlay files and the paged feed
//! that lists them.
use vstd::prelude::*;
use crate::decimal::{decimal, push_decimal};
use crate::dollars::{dollars_text, format_dollars};
use crate::text::{chars_of, push_char};
use crate::write_file::FileWrite;

verus! {

/// A bid of the tracker, with its running total in whole cents.
#[derive(Debug, Clone, PartialEq, Eq)]
pub struct Bid {
    pub full_name: String,
    pub total_cents: i64,
}

/// `c` is an ASCII letter or digit.
pub open spec fn is_ascii_alphanumeric(c: char) -> bool {
    ||| '0' <= c && c <= '9'
    ||| 'a' <= c && c <= 'z'
    ||| 'A' <= c && c <= 'Z'
}

/// `c` with an ASCII capital letter made small.
pub open spec fn ascii_lowercase(c: char) -> char {
    if 'A' <= c && c <= 'Z' {
        (c as int + 32) as char
    } else {
        c
    }
}

/// The characters that a bid's file name keeps.
pub open spec fn kept_in_file_name(c: char) -> bool {
    is_ascii_alphanumeric(c) || c == ' '
}

/// What a kept character becomes in a bid's file name.
pub open spec fn file_name_char(c: char) -> char {
    if c == ' ' {
        '_'
    } else {
        ascii_lowercase(c)
    }
}

/// A bid name with everything but ASCII letters, digits and spaces dropped,
/// spaces turned into `_` and letters made small.
pub open spec fn stripped_bid_name(s: Seq<char>) -> Seq<char>
    decreases s.len(),
{
    if s.len() == 0 {
        Seq::empty()
    } else if kept_in_file_name(s.last()) {
        stripped_bid_name(s.drop_last()).push(file_name_char(s.last()))
    } else {
        stripped_bid_name(s.drop_last())
    }
}

/// The file of a bid: its stripped name with `.txt`, holding its total.
pub open spec fn bid_file_view(bid: Bid) -> (Seq<char>, Seq<char>) {
    (stripped_bid_name(bid.full_name@) + ".txt"@, dollars_text(bid.total_cents as int))
}

/// The address of the first page of an event's bid feed.
pub open spec fn bids_url_text(event_id: u64) -> Seq<char> {
    "https://donate.cherry-rush.org/tracker/api/v2/events/"@ + decimal(event_id as nat)
        + "/bids/feed_all?limit=500"@
}

/// Turns a bid's name into the stem of its file name.
pub fn strip_bid_name(text: &str) -> (name: String)
    ensures
        name@ == stripped_bid_name(text@),
{
    let v = chars_of(text);
    let mut name = String::new();
    let mut i: usize = 0;
    while i < v.len()
        invariant
            i <= v.len(),
            name@ == stripped_bid_name(v@.take(i as int)),
        decreases v.len() - i,
    {
        let c = v[i];
        assert(v@.take(i + 1).drop_last() =~= v@.take(i as int));
        if ('0' <= c && c <= '9') || ('a' <= c && c <= 'z') || ('A' <= c && c <= 'Z') || c == ' ' {
            if c == ' ' {
                push_char(&mut name, '_');
            } else if 'A' <= c && c <= 'Z' {
                push_char(&mut name, ((c as u32 + 32) as u8) as char);
            } else {
                push_char(&mut name, c);
            }
        }
        i = i + 1;
    }
    assert(v@.take(v.len() as int) =~= v@);
    name
}

/// The file that shows a bid's total: `<stripped name>.txt`.
pub fn bid_file(bid: &Bid) -> (file: FileWrite)
    requires
        bid.total_cents > i64::MIN,
    ensures
        file@ == bid_file_view(*bid),
{
    let mut name = strip_bid_name(bid.full_name.as_str());
    name.append(".txt");
    FileWrite { name, content: format_dollars(bid.total_cents) }
}

/// A character that may appear in a bid's file stem.
pub open spec fn is_file_stem_char(c: char) -> bool {
    ('a' <= c && c <= 'z') || ('0' <= c && c <= '9') || c == '_'
}

/// A bid's file stem holds only small ASCII letters, digits and `_`, and
/// is never longer than the bid's name.
pub proof fn lemma_stripped_name_alphabet(s: Seq<char>)
    ensures
        stripped_bid_name(s).len() <= s.len(),
        forall|i: int|
            0 <= i < stripped_bid_name(s).len() ==> is_file_stem_char(
                #[trigger] stripped_bid_name(s)[i],
            ),
    decreases s.len(),
{
    if s.len() > 0 {
        lemma_stripped_name_alphabet(s.drop_last());
    }
}

/// Every ASCII letter, digit or space of a bid's name adds exactly one
/// character to the file stem, whatever came before it; any other
/// character adds nothing. There is no limit on the stem's length.
pub proof fn lemma_stripped_name_push(s: Seq<char>, c: char)
    ensures
        kept_in_file_name(c) ==> stripped_bid_name(s.push(c)) == stripped_bid_name(s).push(
            file_name_char(c),
        ),
        !kept_in_file_name(c) ==> stripped_bid_name(s.push(c)) == stripped_bid_name(s),
        kept_in_file_name(c) ==> stripped_bid_name(s.push(c)).len() == stripped_bid_name(s).len()
            + 1,
{
    assert(s.push(c).drop_last() =~= s);
}

/// The stem of a name made of two parts is the stem of the first part
/// followed by the stem of the second: each character is kept or dropped
/// on its own, and the kept ones stay in order.
pub proof fn lemma_stripped_name_concat(a: Seq<char>, b: Seq<char>)
    ensures
        stripped_bid_name(a + b) == stripped_bid_name(a) + stripped_bid_name(b),
    decreases b.len(),
{
    if b.len() == 0 {
        assert(a + b =~= a);
        assert(stripped_bid_name(a) + stripped_bid_name(b) =~= stripped_bid_name(a));
    } else {
        lemma_stripped_name_concat(a, b.drop_last());
        assert((a + b).drop_last() =~= a + b.drop_last());
        assert((a + b).last() == b.last());
        if kept_in_file_name(b.last()) {
            assert(stripped_bid_name(a) + stripped_bid_name(b) =~= (stripped_bid_name(a)
                + stripped_bid_name(b.drop_last())).push(file_name_char(b.last())));
        }
    }
}

/// A one-character name keeps that character exactly when it is an ASCII
/// letter, digit or space: then the stem is that character, lower-cased,
/// with a space written `_`.
pub proof fn lemma_stripped_name_single(c: char)
    ensures
        stripped_bid_name(seq![c]) == if kept_in_file_name(c) {
            seq![file_name_char(c)]
        } else {
            Seq::<char>::empty()
        },
{
    assert(seq![c].drop_last() =~= Seq::<char>::empty());
    assert(seq![c].last() == c);
    assert(stripped_bid_name(Seq::<char>::empty()) =~= Seq::<char>::empty());
    if kept_in_file_name(c) {
        assert(Seq::<char>::empty().push(file_name_char(c)) =~= seq![file_name_char(c)]);
    }
}

/// The address of the first page of the bid feed of `event_id`.
pub fn bids_url(event_id: u64) -> (url: String)
    ensures
        url@ == bids_url_text(event_id),
{
    let mut url = String::new();
    url.append("https://donate.cherry-rush.org/tracker/api/v2/events/");
    push_decimal(&mut url, event_id);
    url.append("/bids/feed_all?limit=500");
    url
}

/// The progress through an event's paged bid feed: the bids received so far
/// and the page still to fetch, if any.
pub struct BidFeed {
    pub bids: Vec<Bid>,
    pub next_url: Option<String>,
}

impl BidFeed {
    /// A feed that starts at the first page of `event_id` and has no bids yet.
    pub fn new(event_id: u64) -> (feed: BidFeed)
        ensures
            feed.bids@ == Seq::<Bid>::empty(),
            feed.next_url matches Some(u) && u@ == bids_url_text(event_id),
    {
        BidFeed { bids: Vec::new(), next_url: Some(bids_url(event_id)) }
    }

    /// Whether every page has been received.
    pub fn is_done(&self) -> (done: bool)
        ensures
            done == self.next_url is None,
    {
        self.next_url.is_none()
    }

    /// Takes in one page: its bids come after those already received, and
    /// the page it points to is the next one to fetch (none ends the feed).
    pub fn receive_page(&mut self, results: Vec<Bid>, next: Option<String>)
        ensures
            final(self).bids@ == old(self).bids@ + results@,
            final(self).next_url == next,
    {
        let mut results = results;
        self.bids.append(&mut results);
        self.next_url = next;
    }
}

} // verus!
