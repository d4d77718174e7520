//! Donations: the recent-donations list that the overlay shows, its files,
//! and the message that announces a new donation.
use vstd::prelude::*;
use crate::bid::Bid;
use crate::config::MAX_DONATIONS;
use crate::decimal::{decimal, push_decimal};
use crate::dollars::{dollars_text, format_dollars};
use crate::write_file::{FileWrite, after_writes, lemma_rewriting_is_idempotent};

verus! {

/// A donation as the overlay lists it, with its amount in whole cents.
#[derive(Debug, Clone, PartialEq, Eq)]
pub struct Donation {
    pub donor_name: String,
    pub amount_cents: i64,
}

/// The websocket message that announces a new donation.
#[derive(Debug, Clone, PartialEq, Eq)]
pub struct DonationMessage {
    /// The event that the donation was made to.
    pub event: u64,
    /// The event's total after this donation, in whole cents.
    pub all_donors_event_total_cents: i64,
    /// The donation's amount, in whole cents.
    pub amount_cents: i64,
    /// The bids, with their new totals, that the donation touched.
    pub bids: Vec<Bid>,
    /// The donor's name as the tracker shows it.
    pub donor_visible_name: String,
}

/// The name of the file that shows the amount of the donation in slot `i`.
pub open spec fn amount_file_name(i: nat) -> Seq<char> {
    "donation_amount_"@ + decimal(i) + ".txt"@
}

/// The name of the file that shows the donor of the donation in slot `i`.
pub open spec fn donor_file_name(i: nat) -> Seq<char> {
    "donor_name_"@ + decimal(i) + ".txt"@
}

/// How many slots the donation files cover for `n` donations: at least the
/// overlay's list length, more when more donations are given.
pub open spec fn donation_slots(n: nat) -> nat {
    if n < MAX_DONATIONS {
        MAX_DONATIONS as nat
    } else {
        n
    }
}

/// Write number `k` of the donation files: even numbers hold the amount of
/// slot `k / 2`, odd numbers its donor; slots past the list are blank.
pub open spec fn donation_write(ds: Seq<Donation>, k: int) -> (Seq<char>, Seq<char>) {
    let i = k / 2;
    if k % 2 == 0 {
        (
            amount_file_name(i as nat),
            if i < ds.len() {
                dollars_text(ds[i].amount_cents as int)
            } else {
                Seq::empty()
            },
        )
    } else {
        (donor_file_name(i as nat), if i < ds.len() {
            ds[i].donor_name@
        } else {
            Seq::empty()
        })
    }
}

/// Every write of the donation files, in the order they are made.
pub open spec fn donation_writes(ds: Seq<Donation>) -> Seq<(Seq<char>, Seq<char>)> {
    Seq::new(2 * donation_slots(ds.len()), |k: int| donation_write(ds, k))
}

/// The list after `d` arrives: `d` first, then the earlier donations, with
/// the oldest one dropped once the list is longer than the overlay shows.
pub open spec fn with_new_donation(ds: Seq<Donation>, d: Donation) -> Seq<Donation> {
    let inserted = seq![d] + ds;
    if inserted.len() > MAX_DONATIONS {
        inserted.drop_last()
    } else {
        inserted
    }
}

/// The address of the list of an event's latest donations.
pub open spec fn donations_url_text(event_id: u64) -> Seq<char> {
    "https://donate.cherry-rush.org/tracker/api/v2/events/"@ + decimal(event_id as nat)
        + "/donations/?limit="@ + decimal(MAX_DONATIONS as nat)
}

/// All amounts can be written as dollars.
pub open spec fn amounts_writable(ds: Seq<Donation>) -> bool {
    forall|i: int| 0 <= i < ds.len() ==> (#[trigger] ds[i]).amount_cents > i64::MIN
}

/// The donation that a donation message announces.
pub fn get_donation_from_message(donation: DonationMessage) -> (d: Donation)
    ensures
        d.donor_name == donation.donor_visible_name,
        d.amount_cents == donation.amount_cents,
{
    Donation { donor_name: donation.donor_visible_name, amount_cents: donation.amount_cents }
}

fn slot_file_name(stem: &str, i: usize) -> (name: String)
    ensures
        name@ == stem@ + decimal(i as nat) + ".txt"@,
{
    let mut name = String::new();
    name.append(stem);
    push_decimal(&mut name, i as u64);
    name.append(".txt");
    name
}

/// The files that show the list of recent donations: for each slot, its
/// amount file and its donor file; the slots past the list are emptied.
pub fn donation_files(donations: &Vec<Donation>) -> (files: Vec<FileWrite>)
    requires
        amounts_writable(donations@),
    ensures
        files@.map_values(|f: FileWrite| f@) == donation_writes(donations@),
{
    let n = donations.len();
    let slots = if n < MAX_DONATIONS {
        MAX_DONATIONS
    } else {
        n
    };
    let mut files: Vec<FileWrite> = Vec::new();
    let mut i: usize = 0;
    while i < slots
        invariant
            n == donations.len(),
            slots == donation_slots(n as nat),
            amounts_writable(donations@),
            i <= slots,
            files.len() == 2 * i,
            forall|k: int| 0 <= k < 2 * i ==> (#[trigger] files@[k])@ == donation_write(donations@, k),
        decreases slots - i,
    {
        let amount_name = slot_file_name("donation_amount_", i);
        let donor_name = slot_file_name("donor_name_", i);
        if i < n {
            let d = &donations[i];
            files.push(FileWrite { name: amount_name, content: format_dollars(d.amount_cents) });
            files.push(FileWrite { name: donor_name, content: d.donor_name.clone() });
        } else {
            files.push(FileWrite { name: amount_name, content: String::new() });
            files.push(FileWrite { name: donor_name, content: String::new() });
        }
        assert(files@[2 * i]@ == donation_write(donations@, 2 * i));
        assert(files@[2 * i + 1]@ == donation_write(donations@, 2 * i + 1));
        i = i + 1;
    }
    assert(files@.map_values(|f: FileWrite| f@) =~= donation_writes(donations@));
    files
}

/// Puts a newly announced donation at the head of the recent-donations
/// list, dropping the oldest entry once the list is longer than the overlay shows.
pub fn record_donation(donations: &mut Vec<Donation>, donation: Donation)
    ensures
        final(donations)@ == with_new_donation(old(donations)@, donation),
{
    donations.insert(0, donation);
    assert(donations@ =~= seq![donation] + old(donations)@);
    if donations.len() > MAX_DONATIONS {
        let _ = donations.pop();
    }
}

/// A list that the overlay can show stays one after a donation arrives: it
/// is never longer than the overlay's list, the new donation is first, and
/// the earlier ones follow in their order.
pub proof fn lemma_new_donation_keeps_list_short(ds: Seq<Donation>, d: Donation)
    requires
        ds.len() <= MAX_DONATIONS,
    ensures
        with_new_donation(ds, d).len() <= MAX_DONATIONS,
        with_new_donation(ds, d)[0] == d,
        forall|i: int|
            1 <= i < with_new_donation(ds, d).len() ==> #[trigger] with_new_donation(ds, d)[i] == ds[i
                - 1],
{
}

/// A new donation is always shown first, followed by the earlier ones in
/// their order; an earlier one is dropped only when the list was already
/// full, and then only the oldest: the list grows by one until it holds
/// `MAX_DONATIONS`, and keeps that length afterwards.
pub proof fn lemma_new_donation_drops_only_when_full(ds: Seq<Donation>, d: Donation)
    ensures
        with_new_donation(ds, d).len() == if ds.len() < MAX_DONATIONS {
            ds.len() as int + 1
        } else {
            ds.len() as int + 0
        },
        with_new_donation(ds, d)[0] == d,
        forall|i: int|
            1 <= i < with_new_donation(ds, d).len() ==> #[trigger] with_new_donation(ds, d)[i]
                == ds[i - 1],
        ds.len() < MAX_DONATIONS ==> with_new_donation(ds, d) == seq![d] + ds,
{
    if ds.len() < MAX_DONATIONS {
        assert(with_new_donation(ds, d) =~= seq![d] + ds);
    }
}

/// The donation files show the list slot by slot: for each donation, its
/// amount in dollars and its donor's full name; every slot past the list,
/// up to `MAX_DONATIONS`, is blank; and nothing else is written.
pub proof fn lemma_donation_files_show_each_slot(ds: Seq<Donation>)
    ensures
        donation_writes(ds).len() == 2 * (if ds.len() < MAX_DONATIONS {
            MAX_DONATIONS as int
        } else {
            ds.len() as int
        }),
        forall|i: int|
            0 <= i < ds.len() ==> donation_writes(ds)[2 * i] == (
                amount_file_name(i as nat),
                dollars_text((#[trigger] ds[i]).amount_cents as int),
            ) && donation_writes(ds)[2 * i + 1] == (donor_file_name(i as nat), ds[i].donor_name@),
        forall|i: int|
            ds.len() <= i < MAX_DONATIONS ==> donation_writes(ds)[2 * i] == (
                #[trigger] amount_file_name(i as nat),
                Seq::<char>::empty(),
            ) && donation_writes(ds)[2 * i + 1] == (donor_file_name(i as nat), Seq::<char>::empty()),
{
    assert forall|i: int| 0 <= i < ds.len() implies donation_writes(ds)[2 * i] == (
        amount_file_name(i as nat),
        dollars_text((#[trigger] ds[i]).amount_cents as int),
    ) && donation_writes(ds)[2 * i + 1] == (donor_file_name(i as nat), ds[i].donor_name@) by {
        assert((2 * i) / 2 == i && (2 * i) % 2 == 0);
        assert((2 * i + 1) / 2 == i && (2 * i + 1) % 2 == 1);
    }
    assert forall|i: int| ds.len() <= i < MAX_DONATIONS implies donation_writes(ds)[2 * i] == (
        #[trigger] amount_file_name(i as nat),
        Seq::<char>::empty(),
    ) && donation_writes(ds)[2 * i + 1] == (donor_file_name(i as nat), Seq::<char>::empty()) by {
        assert((2 * i) / 2 == i && (2 * i) % 2 == 0);
        assert((2 * i + 1) / 2 == i && (2 * i + 1) % 2 == 1);
    }
}

/// Writing the donation files of a list a second time leaves every file
/// exactly as the first writing left it.
pub proof fn lemma_donation_files_rewrite_idempotent(
    ds: Seq<Donation>,
    files: Map<Seq<char>, Seq<char>>,
)
    ensures
        after_writes(after_writes(files, donation_writes(ds)), donation_writes(ds)) == after_writes(
            files,
            donation_writes(ds),
        ),
{
    lemma_rewriting_is_idempotent(files, donation_writes(ds));
}

/// The address of the list of the latest donations of `event_id`.
pub fn donations_url(event_id: u64) -> (url: String)
    ensures
        url@ == donations_url_text(event_id),
{
    let mut url = String::new();
    url.append("https://donate.cherry-rush.org/tracker/api/v2/events/");
    push_decimal(&mut url, event_id);
    url.append("/donations/?limit=");
    push_decimal(&mut url, MAX_DONATIONS as u64);
    url
}

} // verus!
