use donation_overlay::auth::{
    auth_request_headers, csrf_token_outcome, extract_csrf_token, extract_session_cookie,
    is_success_status, load_cookie, login_form, login_page_token, login_session_cookie,
    LoginError,
};
use donation_overlay::bid::{bid_file, bids_url, strip_bid_name, Bid, BidFeed};
use donation_overlay::cli::event_id_from_arg;
use donation_overlay::decimal::{parse_u64_str, push_decimal};
use donation_overlay::dollars::format_dollars;
use donation_overlay::donation::{
    donation_files, donations_url, get_donation_from_message, record_donation, Donation,
    DonationMessage,
};
use donation_overlay::event::{event_url, total_file};
use donation_overlay::listener::{Listener, ListenerAction, ListenerEvent};
use donation_overlay::text::{chars_of, string_of, string_of_range, trim_bounds};
use donation_overlay::websocket::{
    bid_files, connection_step, handle_donation_message, ConnectionResult, ConnectionStep,
    SocketEvent,
};
use donation_overlay::write_file::{text_source_path, FileWrite};

fn donation(name: &str, cents: i64) -> Donation {
    Donation { donor_name: name.to_string(), amount_cents: cents }
}

fn file(name: &str, content: &str) -> FileWrite {
    FileWrite { name: name.to_string(), content: content.to_string() }
}

#[test]
fn strip_bid_name_keeps_ascii_words() {
    assert_eq!(strip_bid_name("Hello World! 2024"), "hello_world_2024");
    assert_eq!(strip_bid_name("Élan-Vital Run"), "lanvital_run");
    assert_eq!(strip_bid_name(""), "");
}

#[test]
fn stripped_name_alphabet_example() {
    let s = strip_bid_name("A_b C\t9 ☃");
    assert!(s.chars().all(|c| c.is_ascii_lowercase() || c.is_ascii_digit() || c == '_'));
    assert_eq!(s, "ab_c9_");
}

#[test]
fn format_dollars_groups_thousands() {
    assert_eq!(format_dollars(123456), "$1,234.56");
    assert_eq!(format_dollars(0), "$0.00");
    assert_eq!(format_dollars(5), "$0.05");
    assert_eq!(format_dollars(100000000), "$1,000,000.00");
    assert_eq!(format_dollars(i64::MAX), "$92,233,720,368,547,758.07");
}

#[test]
fn format_dollars_negative_amounts() {
    assert_eq!(format_dollars(-12345), "$-123.45");
    assert_eq!(format_dollars(-50), "$0.50");
    assert_eq!(format_dollars(-123456789), "$-1,234,567.89");
}

#[test]
fn bid_file_names_and_content() {
    let bid = Bid { full_name: "Save The Frames".to_string(), total_cents: 250075 };
    assert_eq!(bid_file(&bid), file("save_the_frames.txt", "$2,500.75"));
}

#[test]
fn urls_carry_the_event_id() {
    assert_eq!(
        bids_url(7),
        "https://donate.cherry-rush.org/tracker/api/v2/events/7/bids/feed_all?limit=500"
    );
    assert_eq!(
        donations_url(12),
        "https://donate.cherry-rush.org/tracker/api/v2/events/12/donations/?limit=20"
    );
    assert_eq!(event_url(0), "https://donate.cherry-rush.org/tracker/api/v2/events/0/?totals");
    assert_eq!(
        event_url(u64::MAX),
        "https://donate.cherry-rush.org/tracker/api/v2/events/18446744073709551615/?totals"
    );
}

#[test]
fn bid_feed_concatenates_pages() {
    let mut feed = BidFeed::new(3);
    assert!(!feed.is_done());
    assert_eq!(feed.next_url.clone().unwrap(), bids_url(3));
    let a = Bid { full_name: "A".to_string(), total_cents: 1 };
    let b = Bid { full_name: "B".to_string(), total_cents: 2 };
    let c = Bid { full_name: "C".to_string(), total_cents: 3 };
    feed.receive_page(vec![a.clone(), b.clone()], Some("page2".to_string()));
    assert_eq!(feed.next_url.as_deref(), Some("page2"));
    feed.receive_page(vec![c.clone()], None);
    assert!(feed.is_done());
    assert_eq!(feed.bids, vec![a, b, c]);
}

#[test]
fn donation_files_fill_twenty_slots() {
    let files = donation_files(&vec![donation("Ann", 1000), donation("Bob", 2550)]);
    assert_eq!(files.len(), 40);
    assert_eq!(files[0], file("donation_amount_0.txt", "$10.00"));
    assert_eq!(files[1], file("donor_name_0.txt", "Ann"));
    assert_eq!(files[2], file("donation_amount_1.txt", "$25.50"));
    assert_eq!(files[3], file("donor_name_1.txt", "Bob"));
    assert_eq!(files[4], file("donation_amount_2.txt", ""));
    assert_eq!(files[39], file("donor_name_19.txt", ""));
}

#[test]
fn donation_files_cover_longer_lists() {
    let list: Vec<Donation> = (0..21).map(|i| donation("D", i)).collect();
    let files = donation_files(&list);
    assert_eq!(files.len(), 42);
    assert_eq!(files[40], file("donation_amount_20.txt", "$0.20"));
    assert_eq!(files[41], file("donor_name_20.txt", "D"));
}

#[test]
fn recorded_donation_goes_first() {
    let mut list = vec![donation("Old", 1)];
    record_donation(&mut list, donation("New", 2));
    assert_eq!(list, vec![donation("New", 2), donation("Old", 1)]);
}

#[test]
fn recent_list_never_exceeds_twenty() {
    let mut list: Vec<Donation> = (0..20).map(|i| donation("D", i)).collect();
    record_donation(&mut list, donation("New", 99));
    assert_eq!(list.len(), 20);
    assert_eq!(list[0], donation("New", 99));
    assert_eq!(list[1], donation("D", 0));
    assert_eq!(list[19], donation("D", 18));
}

#[test]
fn donation_from_message_takes_name_and_amount() {
    let m = DonationMessage {
        event: 1,
        all_donors_event_total_cents: 5000,
        amount_cents: 700,
        bids: vec![],
        donor_visible_name: "Zed".to_string(),
    };
    assert_eq!(get_donation_from_message(m), donation("Zed", 700));
}

#[test]
fn donation_message_for_followed_event() {
    let mut list = vec![donation("Old", 100)];
    let m = DonationMessage {
        event: 4,
        all_donors_event_total_cents: 123456,
        amount_cents: 2500,
        bids: vec![Bid { full_name: "Kill the Boss".to_string(), total_cents: 999 }],
        donor_visible_name: "Eve".to_string(),
    };
    let update = handle_donation_message(&mut list, m, 4).unwrap();
    assert_eq!(update.total, file("total_donations.txt", "$1,234.56"));
    assert_eq!(update.bids, vec![file("kill_the_boss.txt", "$9.99")]);
    assert_eq!(list, vec![donation("Eve", 2500), donation("Old", 100)]);
    assert_eq!(update.donations.len(), 40);
    assert_eq!(update.donations[1], file("donor_name_0.txt", "Eve"));
    assert_eq!(update.donations[3], file("donor_name_1.txt", "Old"));
}

#[test]
fn donation_message_for_other_event_is_ignored() {
    let mut list = vec![donation("Old", 100)];
    let m = DonationMessage {
        event: 5,
        all_donors_event_total_cents: 1,
        amount_cents: 1,
        bids: vec![],
        donor_visible_name: "X".to_string(),
    };
    assert!(handle_donation_message(&mut list, m, 4).is_none());
    assert_eq!(list, vec![donation("Old", 100)]);
}

#[test]
fn bid_files_one_per_bid() {
    let bids = vec![
        Bid { full_name: "A B".to_string(), total_cents: 100 },
        Bid { full_name: "c".to_string(), total_cents: 0 },
    ];
    assert_eq!(bid_files(&bids), vec![file("a_b.txt", "$1.00"), file("c.txt", "$0.00")]);
}

#[test]
fn total_file_names_the_total() {
    assert_eq!(total_file(100), file("total_donations.txt", "$1.00"));
}

#[test]
fn connection_steps() {
    assert_eq!(
        connection_step(SocketEvent::Text("{}".to_string())),
        ConnectionStep::DecodeDonation("{}".to_string())
    );
    assert_eq!(
        connection_step(SocketEvent::Close),
        ConnectionStep::Finish(ConnectionResult::Disconnected("server sent Close".to_string()))
    );
    assert_eq!(
        connection_step(SocketEvent::StreamEnded),
        ConnectionStep::Finish(ConnectionResult::Disconnected(
            "WebSocket stream ended".to_string()
        ))
    );
    assert_eq!(
        connection_step(SocketEvent::ReadError("boom".to_string())),
        ConnectionStep::Finish(ConnectionResult::Disconnected("boom".to_string()))
    );
    assert_eq!(
        connection_step(SocketEvent::ShutdownRequested),
        ConnectionStep::Finish(ConnectionResult::Shutdown)
    );
    assert_eq!(connection_step(SocketEvent::Ping(3)), ConnectionStep::Continue);
    assert_eq!(connection_step(SocketEvent::Pong(3)), ConnectionStep::Continue);
    assert_eq!(connection_step(SocketEvent::Binary(8)), ConnectionStep::Continue);
    assert_eq!(connection_step(SocketEvent::OtherFrame), ConnectionStep::Continue);
}

#[test]
fn listener_backoff_doubles_to_thirty() {
    let mut l = Listener::new();
    let mut waits = vec![];
    for _ in 0..7 {
        match l.step(ListenerEvent::ConnectFailed) {
            ListenerAction::Wait(s) => waits.push(s),
            other => panic!("unexpected {:?}", other),
        }
        assert_eq!(l.step(ListenerEvent::WaitElapsed), ListenerAction::Connect);
    }
    assert_eq!(waits, vec![1, 2, 4, 8, 16, 30, 30]);
    assert_eq!(l.reconnect_delay_secs(), 30);
}

#[test]
fn listener_resets_after_connecting() {
    let mut l = Listener::new();
    l.step(ListenerEvent::ConnectFailed);
    l.step(ListenerEvent::WaitElapsed);
    l.step(ListenerEvent::ConnectFailed);
    l.step(ListenerEvent::WaitElapsed);
    assert_eq!(l.reconnect_delay_secs(), 4);
    assert_eq!(l.step(ListenerEvent::Connected), ListenerAction::RunConnection);
    assert_eq!(l.reconnect_delay_secs(), 1);
    let lost = ListenerEvent::ConnectionClosed(ConnectionResult::Disconnected("x".to_string()));
    assert_eq!(l.step(lost), ListenerAction::Wait(1));
}

#[test]
fn listener_stops_for_good() {
    let mut l = Listener::new();
    assert_eq!(
        l.step(ListenerEvent::ConnectionClosed(ConnectionResult::Shutdown)),
        ListenerAction::Stop
    );
    assert_eq!(l.step(ListenerEvent::WaitElapsed), ListenerAction::Stop);
    let mut m = Listener::new();
    assert_eq!(m.step(ListenerEvent::ShutdownRequested), ListenerAction::Stop);
    assert_eq!(m.step(ListenerEvent::Connected), ListenerAction::Stop);
}

#[test]
fn load_cookie_accepts_trimmed_session_cookie() {
    assert_eq!(load_cookie("  sessionid=abc123\n").as_deref(), Some("sessionid=abc123"));
    assert_eq!(
        load_cookie("\u{3000}sessionid=x\u{a0}\r\n").as_deref(),
        Some("sessionid=x")
    );
}

#[test]
fn load_cookie_rejects_other_text() {
    assert_eq!(load_cookie("csrftoken=abc"), None);
    assert_eq!(load_cookie(""), None);
    assert_eq!(load_cookie("SESSIONID=abc"), None);
}

#[test]
fn load_cookie_rejects_invalid_header_value() {
    assert_eq!(load_cookie("sessionid=a\u{7f}b"), None);
    assert_eq!(load_cookie("sessionid=a\u{1}b"), None);
    assert_eq!(load_cookie("sessionid=a\tb").as_deref(), Some("sessionid=a\tb"));
    assert_eq!(load_cookie("sessionid=café").as_deref(), Some("sessionid=café"));
}

#[test]
fn session_cookie_is_picked_from_header() {
    assert_eq!(
        extract_session_cookie("csrftoken=abc; sessionid=xyz; other=1").as_deref(),
        Some("sessionid=xyz")
    );
    assert_eq!(extract_session_cookie("sessionid=first;sessionid=second").as_deref(),
        Some("sessionid=first"));
    assert_eq!(extract_session_cookie("csrftoken=abc"), None);
    assert_eq!(extract_session_cookie(""), None);
}

#[test]
fn saved_session_cookie_reloads() {
    let cookie = extract_session_cookie("a=1;  sessionid=tok  ;b=2").unwrap();
    assert_eq!(cookie, "sessionid=tok");
    assert_eq!(load_cookie(&cookie).as_deref(), Some(cookie.as_str()));
}

#[test]
fn success_status_range() {
    assert!(is_success_status(200));
    assert!(is_success_status(299));
    assert!(!is_success_status(199));
    assert!(!is_success_status(302));
    assert!(!is_success_status(404));
}

#[test]
fn csrf_token_read_from_login_page() {
    let html = r#"<html><body><form><input type="hidden" name="csrfmiddlewaretoken" value="tok42"></form></body></html>"#;
    assert_eq!(extract_csrf_token(html).as_deref(), Some("tok42"));
    assert_eq!(login_page_token(200, html), Ok("tok42".to_string()));
}

#[test]
fn csrf_token_missing() {
    let html = "<html><body><form><input name=\"username\"></form></body></html>";
    assert_eq!(extract_csrf_token(html), None);
    assert_eq!(login_page_token(200, html), Err(LoginError::MissingCsrfToken));
    assert_eq!(csrf_token_outcome(None), Err(LoginError::MissingCsrfToken));
    assert_eq!(csrf_token_outcome(Some("t".to_string())), Ok("t".to_string()));
}

#[test]
fn login_page_error_status() {
    assert_eq!(login_page_token(503, "<html></html>"), Err(LoginError::LoginPageStatus(503)));
}

#[test]
fn login_form_fields() {
    let form = login_form("  alice \n", "pw", "tok");
    let pairs: Vec<(&str, &str)> = form.iter().map(|(a, b)| (a.as_str(), b.as_str())).collect();
    assert_eq!(
        pairs,
        vec![("username", "alice"), ("password", "pw"), ("csrfmiddlewaretoken", "tok"), ("next", "/admin/")]
    );
}

#[test]
fn login_outcomes() {
    let header = Some(Some("csrftoken=a; sessionid=s1".to_string()));
    assert_eq!(login_session_cookie(200, "/admin/", header.clone()), Ok("sessionid=s1".to_string()));
    assert_eq!(login_session_cookie(500, "/admin/", header.clone()), Err(LoginError::LoginStatus(500)));
    assert_eq!(
        login_session_cookie(200, "/admin/login/", header.clone()),
        Err(LoginError::CredentialsRejected)
    );
    assert_eq!(
        login_session_cookie(200, "/admin/login//", header.clone()),
        Err(LoginError::CredentialsRejected)
    );
    assert_eq!(login_session_cookie(200, "/admin/", None), Err(LoginError::NoCookies));
    assert_eq!(login_session_cookie(200, "/admin/", Some(None)), Err(LoginError::InvalidCookieHeader));
    assert_eq!(
        login_session_cookie(200, "/admin/", Some(Some("csrftoken=a".to_string()))),
        Err(LoginError::NoSessionCookie)
    );
    assert_eq!(
        login_session_cookie(200, "/admin/", Some(Some("sessionid=a\u{7f}".to_string()))),
        Err(LoginError::InvalidSessionCookie)
    );
}

#[test]
fn auth_headers_for_websocket() {
    let h = auth_request_headers("sessionid=z");
    assert_eq!(h, vec![
        ("Cookie".to_string(), "sessionid=z".to_string()),
        ("Origin".to_string(), "https://donate.cherry-rush.org".to_string()),
    ]);
}

#[test]
fn event_id_argument() {
    assert_eq!(event_id_from_arg(None), Some(1));
    assert_eq!(event_id_from_arg(Some("42")), Some(42));
    assert_eq!(event_id_from_arg(Some("+7")), Some(7));
    assert_eq!(event_id_from_arg(Some("007")), Some(7));
    assert_eq!(event_id_from_arg(Some("-1")), None);
    assert_eq!(event_id_from_arg(Some("")), None);
    assert_eq!(event_id_from_arg(Some("+")), None);
    assert_eq!(event_id_from_arg(Some(" 5")), None);
    assert_eq!(event_id_from_arg(Some("18446744073709551615")), Some(u64::MAX));
    assert_eq!(event_id_from_arg(Some("18446744073709551616")), None);
    assert_eq!(event_id_from_arg(Some("99999999999999999999x")), None);
}

#[test]
fn parse_matches_std() {
    for s in ["0", "1", "+12", "12a", "", "+", "-0", "184467440737095516150", "00000000000000000000001"] {
        assert_eq!(parse_u64_str(s), s.parse::<u64>().ok(), "input {:?}", s);
    }
}

#[test]
fn decimal_roundtrip() {
    for n in [0u64, 9, 10, 99, 100, 12345, u64::MAX] {
        let mut s = String::new();
        push_decimal(&mut s, n);
        assert_eq!(s, n.to_string());
        assert_eq!(parse_u64_str(&s), Some(n));
    }
}

#[test]
fn text_source_paths() {
    assert_eq!(text_source_path("a.txt"), "text_sources/a.txt");
}

#[test]
fn chars_roundtrip() {
    let v = chars_of("héllo");
    assert_eq!(v, vec!['h', 'é', 'l', 'l', 'o']);
    assert_eq!(string_of(&v), "héllo");
}

#[test]
fn trimming_twice_is_trimming_once() {
    let v = chars_of("\u{2003} a b \n");
    let (from, to) = trim_bounds(&v);
    let once = string_of_range(&v, from, to);
    assert_eq!(once, "a b");
    let w = chars_of(&once);
    let (f2, t2) = trim_bounds(&w);
    assert_eq!(string_of_range(&w, f2, t2), once);
}

#[test]
fn other_event_message_with_unwritable_amounts_is_ignored() {
    let mut list = vec![donation("Old", 100)];
    let m = DonationMessage {
        event: 9,
        all_donors_event_total_cents: i64::MIN,
        amount_cents: i64::MIN,
        bids: vec![Bid { full_name: "x".to_string(), total_cents: i64::MIN }],
        donor_visible_name: "X".to_string(),
    };
    assert!(handle_donation_message(&mut list, m, 4).is_none());
    assert_eq!(list, vec![donation("Old", 100)]);
}

#[test]
fn login_error_messages() {
    assert_eq!(
        LoginError::LoginPageStatus(404).message(),
        "GET https://donate.cherry-rush.org/admin/login/ returned HTTP 404 Not Found"
    );
    assert_eq!(
        LoginError::LoginStatus(500).message(),
        "Login request returned HTTP 500 Internal Server Error"
    );
    assert_eq!(
        LoginError::LoginStatus(599).message(),
        "Login request returned HTTP 599 <unknown status code>"
    );
    assert_eq!(
        LoginError::MissingCsrfToken.message(),
        "Could not find csrfmiddlewaretoken in the Django login page"
    );
    assert_eq!(
        LoginError::CredentialsRejected.message(),
        "Django rejected the username/password (still on the login page)"
    );
    assert_eq!(LoginError::NoCookies.message(), "No cookies were returned by Django");
    assert_eq!(
        LoginError::InvalidCookieHeader.message(),
        "Cookie header contains invalid characters"
    );
    assert_eq!(
        LoginError::NoSessionCookie.message(),
        "Django login succeeded, but no sessionid cookie was found"
    );
    assert_eq!(
        LoginError::InvalidSessionCookie.message(),
        "Failed to parse cookie to HeaderValue"
    );
}

#[test]
fn login_error_message_with_given_reason() {
    assert_eq!(
        LoginError::LoginStatus(404).message_with_reason(Some("Gone Away".to_string())),
        "Login request returned HTTP 404 Gone Away"
    );
    assert_eq!(
        donation_overlay::auth::status_line(302, None),
        "302 <unknown status code>"
    );
}

#[test]
fn listener_waits_over_a_run() {
    let mut l = Listener::new();
    let mut waits = vec![];
    for round in 0..9 {
        if round == 4 {
            assert_eq!(l.step(ListenerEvent::Connected), ListenerAction::RunConnection);
            let lost = ListenerEvent::ConnectionClosed(ConnectionResult::Disconnected("x".to_string()));
            if let ListenerAction::Wait(s) = l.step(lost) { waits.push(s) }
        } else if let ListenerAction::Wait(s) = l.step(ListenerEvent::ConnectFailed) {
            waits.push(s);
        }
        l.step(ListenerEvent::WaitElapsed);
    }
    assert_eq!(waits, vec![1, 2, 4, 8, 1, 2, 4, 8, 16]);
}

#[test]
fn rewriting_donation_files_gives_the_same_writes() {
    let list = vec![donation("Ann", 1000)];
    assert_eq!(donation_files(&list), donation_files(&list));
}
