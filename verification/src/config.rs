//! Fixed names of the tracker site and of the overlay's files.
use vstd::prelude::*;

verus! {

/// The tracker site; also the `Origin` the websocket requests carry.
pub const TRACKER_ORIGIN: &'static str = "https://donate.cherry-rush.org";

/// The Django admin login page.
pub const ADMIN_LOGIN_URL: &'static str = "https://donate.cherry-rush.org/admin/login/";

/// The path that the login form redirects back to when the credentials are refused.
pub const ADMIN_LOGIN_PATH: &'static str = "/admin/login";

/// Where the session cookie is kept between runs.
pub const COOKIE_FILE: &'static str = "cookie.txt";

/// The directory that holds the overlay's text files.
pub const TEXT_SOURCES_DIR: &'static str = "text_sources";

/// The file that holds the event's donation total.
pub const TOTAL_DONATION_FILENAME: &'static str = "total_donations.txt";

/// How many recent donations the overlay shows.
pub const MAX_DONATIONS: usize = 20;

/// The longest wait, in seconds, between two connection attempts.
pub const MAX_RECONNECT_DELAY_SECS: u64 = 30;

/// The websocket feed that the listener follows, and its name in the log.
pub const DONATIONS_SOCKET_NAME: &'static str = "donations";

/// The address of the donations websocket feed.
pub const DONATIONS_SOCKET_URL: &'static str = "wss://donate.cherry-rush.org/tracker/ws/donations/";

} // verus!
