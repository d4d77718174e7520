//! The decisions of the websocket read loop: which events end a connection,
//! and what a donation message changes on the overlay.
use vstd::prelude::*;
use crate::bid::{Bid, bid_file, bid_file_view};
use crate::config::TOTAL_DONATION_FILENAME;
use crate::donation::{
    Donation, DonationMessage, amounts_writable, donation_files, donation_writes,
    get_donation_from_message, record_donation, with_new_donation,
};
use crate::dollars::dollars_text;
use crate::event::total_file;
use crate::write_file::FileWrite;

verus! {

/// How a websocket connection ended.
#[derive(Debug, Clone, PartialEq, Eq)]
pub enum ConnectionResult {
    /// The listener was asked to shut down.
    Shutdown,
    /// The connection was lost, for the given reason.
    Disconnected(String),
}

/// What the read loop observed next on a connection.
#[derive(Debug, Clone, PartialEq, Eq)]
pub enum SocketEvent {
    /// A text frame.
    Text(String),
    /// A binary frame of the given length.
    Binary(usize),
    /// A ping frame of the given length.
    Ping(usize),
    /// A pong frame of the given length.
    Pong(usize),
    /// A close frame from the server.
    Close,
    /// Any other frame.
    OtherFrame,
    /// Reading failed with the given error text.
    ReadError(String),
    /// The stream of frames ended.
    StreamEnded,
    /// A shutdown was requested while waiting for a frame.
    ShutdownRequested,
}

/// What the read loop does after an event.
#[derive(Debug, Clone, PartialEq, Eq)]
pub enum ConnectionStep {
    /// Keep reading frames.
    Continue,
    /// Decode the text as a donation message and apply it.
    DecodeDonation(String),
    /// Stop reading; the connection ended this way.
    Finish(ConnectionResult),
}

/// The overlay files that one donation message rewrites, in the groups the
/// loop writes them: the event total, each touched bid, then the donation list.
#[derive(Debug, Clone, PartialEq, Eq)]
pub struct DonationUpdate {
    pub total: FileWrite,
    pub bids: Vec<FileWrite>,
    pub donations: Vec<FileWrite>,
}

/// Every bid total can be written as dollars.
pub open spec fn bid_totals_writable(bids: Seq<Bid>) -> bool {
    forall|i: int| 0 <= i < bids.len() ==> (#[trigger] bids[i]).total_cents > i64::MIN
}

/// Every amount that a donation message carries can be written as dollars.
pub open spec fn message_writable(m: DonationMessage) -> bool {
    &&& m.all_donors_event_total_cents > i64::MIN
    &&& m.amount_cents > i64::MIN
    &&& bid_totals_writable(m.bids@)
}

/// The donation that a message announces.
pub open spec fn announced(m: DonationMessage) -> Donation {
    Donation { donor_name: m.donor_visible_name, amount_cents: m.amount_cents }
}

/// What the read loop does with each event: text frames are decoded,
/// a close frame, a read error or the end of the stream end the connection
/// as lost, a shutdown request ends it as shut down, other frames are skipped.
pub fn connection_step(event: SocketEvent) -> (step: ConnectionStep)
    ensures
        match event {
            SocketEvent::Text(t) => step == ConnectionStep::DecodeDonation(t),
            SocketEvent::Close => step matches ConnectionStep::Finish(
                ConnectionResult::Disconnected(r),
            ) && r@ == "server sent Close"@,
            SocketEvent::ReadError(e) => step == ConnectionStep::Finish(
                ConnectionResult::Disconnected(e),
            ),
            SocketEvent::StreamEnded => step matches ConnectionStep::Finish(
                ConnectionResult::Disconnected(r),
            ) && r@ == "WebSocket stream ended"@,
            SocketEvent::ShutdownRequested => step == ConnectionStep::Finish(
                ConnectionResult::Shutdown,
            ),
            _ => step == ConnectionStep::Continue,
        },
{
    match event {
        SocketEvent::Text(t) => ConnectionStep::DecodeDonation(t),
        SocketEvent::Close => ConnectionStep::Finish(
            ConnectionResult::Disconnected(String::from_str("server sent Close")),
        ),
        SocketEvent::ReadError(e) => ConnectionStep::Finish(ConnectionResult::Disconnected(e)),
        SocketEvent::StreamEnded => ConnectionStep::Finish(
            ConnectionResult::Disconnected(String::from_str("WebSocket stream ended")),
        ),
        SocketEvent::ShutdownRequested => ConnectionStep::Finish(ConnectionResult::Shutdown),
        _ => ConnectionStep::Continue,
    }
}

/// The files that show the given bids, one per bid, in order.
pub fn bid_files(bids: &Vec<Bid>) -> (files: Vec<FileWrite>)
    requires
        bid_totals_writable(bids@),
    ensures
        files@.map_values(|f: FileWrite| f@) == bids@.map_values(|b: Bid| bid_file_view(b)),
{
    let mut files: Vec<FileWrite> = Vec::new();
    let mut i: usize = 0;
    while i < bids.len()
        invariant
            bid_totals_writable(bids@),
            i <= bids.len(),
            files.len() == i,
            forall|k: int| 0 <= k < i ==> (#[trigger] files@[k])@ == bid_file_view(bids@[k]),
        decreases bids.len() - i,
    {
        files.push(bid_file(&bids[i]));
        i = i + 1;
    }
    assert(files@.map_values(|f: FileWrite| f@) =~= bids@.map_values(|b: Bid| bid_file_view(b)));
    files
}

/// Applies a donation message for the followed event: the new donation goes
/// to the head of the recent list, and the update holds the new event
/// total's file, the files of the touched bids and the files of the whole
/// list. A message for another event changes nothing and gives `None`.
pub fn handle_donation_message(
    donations: &mut Vec<Donation>,
    message: DonationMessage,
    event_id: u64,
) -> (update: Option<DonationUpdate>)
    requires
        message.event == event_id ==> message_writable(message) && amounts_writable(
            old(donations)@,
        ),
    ensures
        message.event != event_id ==> update is None && final(donations)@ == old(donations)@,
        message.event == event_id ==> {
            &&& final(donations)@ == with_new_donation(old(donations)@, announced(message))
            &&& update matches Some(u) && {
                &&& u.total@ == (
                    TOTAL_DONATION_FILENAME@,
                    dollars_text(message.all_donors_event_total_cents as int),
                )
                &&& u.bids@.map_values(|f: FileWrite| f@) == message.bids@.map_values(
                    |b: Bid| bid_file_view(b),
                )
                &&& u.donations@.map_values(|f: FileWrite| f@) == donation_writes(
                    final(donations)@,
                )
            }
        },
{
    if message.event != event_id {
        return None;
    }
    let total = total_file(message.all_donors_event_total_cents);
    let bids = bid_files(&message.bids);
    let ghost m = message;
    let donation = get_donation_from_message(message);
    assert(donation == announced(m));
    record_donation(donations, donation);
    assert(amounts_writable(donations@)) by {
        assert forall|i: int| 0 <= i < donations@.len() implies (
        #[trigger] donations@[i]).amount_cents > i64::MIN by {
            if i > 0 {
                assert(donations@[i] == old(donations)@[i - 1]);
            }
        }
    }
    let files = donation_files(donations);
    Some(DonationUpdate { total, bids, donations: files })
}

} // verus!
