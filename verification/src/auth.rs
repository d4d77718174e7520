//! The session cookie of the tracker's Django admin: reading a saved one,
//! picking it out of a `Cookie` header after a login, and the decisions of
//! the login exchange.
use vstd::prelude::*;
use vstd::utf8::encode_utf8;
use crate::config::{ADMIN_LOGIN_PATH, ADMIN_LOGIN_URL, TRACKER_ORIGIN};
use crate::decimal::{decimal, push_decimal};
use crate::text::{
    chars_equal, chars_of, has_prefix, lemma_trim_idempotent, push_char, starts_with, string_of,
    string_of_range, trim, trim_bounds, trim_end_char, trim_end_char_len,
};

verus! {

/// What every session cookie starts with.
pub const SESSION_COOKIE_PREFIX: &'static str = "sessionid=";

/// The CSS selector of the login form's CSRF token field.
pub const CSRF_TOKEN_SELECTOR: &'static str = "input[name=\"csrfmiddlewaretoken\"]";

/// The attribute of the CSRF token field that holds the token.
pub const CSRF_TOKEN_ATTRIBUTE: &'static str = "value";

/// Why a login did not produce a session cookie.
#[derive(Debug, Clone, Copy, PartialEq, Eq)]
pub enum LoginError {
    /// The login page answered with this non-success HTTP status.
    LoginPageStatus(u16),
    /// The login page holds no CSRF token.
    MissingCsrfToken,
    /// The login request answered with this non-success HTTP status.
    LoginStatus(u16),
    /// The login request led back to the login page: the credentials were refused.
    CredentialsRejected,
    /// The server set no cookies for the login page.
    NoCookies,
    /// The cookies the server set are not plain text.
    InvalidCookieHeader,
    /// The cookies the server set hold no session cookie.
    NoSessionCookie,
    /// The session cookie cannot be sent as a header value.
    InvalidSessionCookie,
}

/// The bytes that an HTTP header value may hold: visible ASCII, tab, and
/// any byte from 128 up.
pub open spec fn valid_header_bytes(b: Seq<u8>) -> bool {
    forall|i: int| 0 <= i < b.len() ==> (#[trigger] b[i] >= 32 && b[i] != 127) || b[i] == 9
}

/// `<&str as FromStr>::from_str` for `reqwest::header::HeaderValue` (that is,
/// `http::HeaderValue::from_str`). Claimed: it succeeds exactly when every
/// byte of `s` is accepted by its `is_valid` test (`b >= 32 && b != 127 || b == b'\t'`).
#[verifier::external_body]
fn header_value_accepts(s: &str) -> (ok: bool)
    ensures
        ok == valid_header_bytes(encode_utf8(s@)),
{
    s.parse::<reqwest::header::HeaderValue>().is_ok()
}

/// What the query `selector` finds in the HTML document `html`: the value
/// of `attribute` on the first matching element, if that element has it.
pub uninterp spec fn first_attribute_value(
    html: Seq<char>,
    selector: Seq<char>,
    attribute: Seq<char>,
) -> Option<Seq<char>>;

/// The text of an optional string.
pub open spec fn opt_view(o: Option<String>) -> Option<Seq<char>> {
    match o {
        Some(s) => Some(s@),
        None => None,
    }
}

/// `scraper::Html::parse_document`, `scraper::Selector::parse`,
/// `Html::select(..).next()` and `ElementRef::attr`: parses `html` as a
/// document and reads `attribute` of the first element that `selector`
/// matches. Claimed: the result is `first_attribute_value` of the arguments
/// (a selector that does not parse gives `None`); what that is, on a given
/// document, is left unsaid.
#[verifier::external_body]
fn select_first_attribute(html: &str, selector: &str, attribute: &str) -> (r: Option<String>)
    ensures
        opt_view(r) == first_attribute_value(html@, selector@, attribute@),
{
    let document = scraper::Html::parse_document(html);
    let selector = match scraper::Selector::parse(selector) {
        Ok(s) => s,
        Err(_) => return None,
    };
    match document.select(&selector).next() {
        Some(element) => element.attr(attribute).map(str::to_string),
        None => None,
    }
}

/// The standard reason phrase that the `http` crate knows for a status code.
pub uninterp spec fn canonical_reason(code: u16) -> Option<Seq<char>>;

/// `http::StatusCode::from_u16` followed by `StatusCode::canonical_reason`.
/// Claimed: the result is `canonical_reason(code)`, and there is none for a
/// code outside 100 to 999 (which `from_u16` refuses). Which phrase a given
/// code has is left unsaid.
#[verifier::external_body]
fn status_reason(code: u16) -> (r: Option<String>)
    ensures
        opt_view(r) == canonical_reason(code),
        code < 100 || code > 999 ==> r is None,
{
    match reqwest::StatusCode::from_u16(code) {
        Ok(status) => status.canonical_reason().map(str::to_string),
        Err(_) => None,
    }
}

/// A status as `StatusCode`'s `Display` writes it: the number, a space, and
/// the reason phrase, or `<unknown status code>` when there is none.
pub open spec fn status_text(code: u16, reason: Option<Seq<char>>) -> Seq<char> {
    decimal(code as nat) + seq![' '] + match reason {
        Some(r) => r,
        None => "<unknown status code>"@,
    }
}

/// The status that a login error carries (zero for the errors that carry none).
pub open spec fn error_status(e: LoginError) -> u16 {
    match e {
        LoginError::LoginPageStatus(s) => s,
        LoginError::LoginStatus(s) => s,
        _ => 0,
    }
}

/// The text that reports a login error, given the reason phrase of the
/// status it carries.
pub open spec fn login_error_text(e: LoginError, reason: Option<Seq<char>>) -> Seq<char> {
    match e {
        LoginError::LoginPageStatus(s) => "GET "@ + ADMIN_LOGIN_URL@ + " returned HTTP "@
            + status_text(s, reason),
        LoginError::MissingCsrfToken => "Could not find csrfmiddlewaretoken in the Django login page"@,
        LoginError::LoginStatus(s) => "Login request returned HTTP "@ + status_text(s, reason),
        LoginError::CredentialsRejected => "Django rejected the username/password (still on the login page)"@,
        LoginError::NoCookies => "No cookies were returned by Django"@,
        LoginError::InvalidCookieHeader => "Cookie header contains invalid characters"@,
        LoginError::NoSessionCookie => "Django login succeeded, but no sessionid cookie was found"@,
        LoginError::InvalidSessionCookie => "Failed to parse cookie to HeaderValue"@,
    }
}

/// Writes a status with the given reason phrase, as `StatusCode`'s `Display` does.
pub fn status_line(code: u16, reason: Option<String>) -> (line: String)
    ensures
        line@ == status_text(code, opt_view(reason)),
{
    let mut line = String::new();
    push_decimal(&mut line, code as u64);
    push_char(&mut line, ' ');
    match reason {
        Some(r) => line.append(r.as_str()),
        None => line.append("<unknown status code>"),
    }
    assert(line@ =~= status_text(code, opt_view(reason)));
    line
}

impl LoginError {
    /// The report of this error, with `reason` as the phrase of the status it carries.
    pub fn message_with_reason(&self, reason: Option<String>) -> (text: String)
        ensures
            text@ == login_error_text(*self, opt_view(reason)),
    {
        let mut text = String::new();
        match self {
            LoginError::LoginPageStatus(s) => {
                text.append("GET ");
                text.append(ADMIN_LOGIN_URL);
                text.append(" returned HTTP ");
                let line = status_line(*s, reason);
                text.append(line.as_str());
            },
            LoginError::MissingCsrfToken => {
                text.append("Could not find csrfmiddlewaretoken in the Django login page");
            },
            LoginError::LoginStatus(s) => {
                text.append("Login request returned HTTP ");
                let line = status_line(*s, reason);
                text.append(line.as_str());
            },
            LoginError::CredentialsRejected => {
                text.append("Django rejected the username/password (still on the login page)");
            },
            LoginError::NoCookies => {
                text.append("No cookies were returned by Django");
            },
            LoginError::InvalidCookieHeader => {
                text.append("Cookie header contains invalid characters");
            },
            LoginError::NoSessionCookie => {
                text.append("Django login succeeded, but no sessionid cookie was found");
            },
            LoginError::InvalidSessionCookie => {
                text.append("Failed to parse cookie to HeaderValue");
            },
        }
        text
    }

    /// The report of this error; a status is written with its standard reason phrase.
    pub fn message(&self) -> (text: String)
        ensures
            text@ == login_error_text(*self, canonical_reason(error_status(*self))),
    {
        let reason = match self {
            LoginError::LoginPageStatus(s) => status_reason(*s),
            LoginError::LoginStatus(s) => status_reason(*s),
            _ => None,
        };
        self.message_with_reason(reason)
    }
}

/// A saved cookie file is usable when its trimmed text is a session cookie
/// that can be sent as a header value.
pub open spec fn saved_cookie_usable(contents: Seq<char>) -> bool {
    starts_with(trim(contents), SESSION_COOKIE_PREFIX@) && valid_header_bytes(
        encode_utf8(trim(contents)),
    )
}

/// The pieces of `s` between the occurrences of `sep`, as `str::split` gives them.
pub open spec fn split_on(s: Seq<char>, sep: char) -> Seq<Seq<char>>
    decreases s.len(),
{
    if s.len() == 0 {
        seq![Seq::empty()]
    } else {
        let init = split_on(s.drop_last(), sep);
        if s.last() == sep {
            init.push(Seq::empty())
        } else {
            init.update(init.len() - 1, init.last().push(s.last()))
        }
    }
}

/// The first of `parts` that, trimmed, is a session cookie, trimmed.
pub open spec fn first_session_cookie(parts: Seq<Seq<char>>) -> Option<Seq<char>>
    decreases parts.len(),
{
    if parts.len() == 0 {
        None
    } else if starts_with(trim(parts[0]), SESSION_COOKIE_PREFIX@) {
        Some(trim(parts[0]))
    } else {
        first_session_cookie(parts.drop_first())
    }
}

/// The session cookie of a `Cookie` header: its first `;`-separated entry
/// that, trimmed, starts with `sessionid=`.
pub open spec fn session_cookie_of(header: Seq<char>) -> Option<Seq<char>> {
    first_session_cookie(split_on(header, ';'))
}

/// An HTTP status in the success class.
pub open spec fn is_success(status: u16) -> bool {
    200 <= status <= 299
}

/// Reads the contents of the saved cookie file: the trimmed text when it is
/// a session cookie that can be sent as a header value, `None` otherwise.
pub fn load_cookie(contents: &str) -> (cookie: Option<String>)
    ensures
        match cookie {
            Some(c) => c@ == trim(contents@) && saved_cookie_usable(contents@),
            None => !saved_cookie_usable(contents@),
        },
{
    let v = chars_of(contents);
    let (from, to) = trim_bounds(&v);
    let mut trimmed: Vec<char> = Vec::new();
    let mut i = from;
    while i < to
        invariant
            from <= i <= to <= v.len(),
            trimmed@ == v@.subrange(from as int, i as int),
        decreases to - i,
    {
        trimmed.push(v[i]);
        i = i + 1;
        assert(trimmed@ =~= v@.subrange(from as int, i as int));
    }
    let prefix = chars_of(SESSION_COOKIE_PREFIX);
    if !has_prefix(&trimmed, &prefix) {
        return None;
    }
    let cookie = string_of(&trimmed);
    if header_value_accepts(cookie.as_str()) {
        Some(cookie)
    } else {
        None
    }
}

proof fn lemma_split_on_nonempty(s: Seq<char>, sep: char)
    ensures
        split_on(s, sep).len() >= 1,
    decreases s.len(),
{
    if s.len() > 0 {
        lemma_split_on_nonempty(s.drop_last(), sep);
    }
}

/// The pieces of `v` between the occurrences of `sep`.
fn split_chars(v: &Vec<char>, sep: char) -> (parts: Vec<Vec<char>>)
    ensures
        parts.len() == split_on(v@, sep).len(),
        forall|k: int| 0 <= k < parts.len() ==> (#[trigger] parts@[k])@ == split_on(v@, sep)[k],
{
    let mut parts: Vec<Vec<char>> = Vec::new();
    let mut cur: Vec<char> = Vec::new();
    let mut i: usize = 0;
    assert(v@.take(0) =~= Seq::<char>::empty());
    while i < v.len()
        invariant
            i <= v.len(),
            parts.len() + 1 == split_on(v@.take(i as int), sep).len(),
            forall|k: int|
                0 <= k < parts.len() ==> (#[trigger] parts@[k])@ == split_on(
                    v@.take(i as int),
                    sep,
                )[k],
            cur@ == split_on(v@.take(i as int), sep).last(),
        decreases v.len() - i,
    {
        let c = v[i];
        let ghost before = split_on(v@.take(i as int), sep);
        assert(v@.take(i + 1).drop_last() =~= v@.take(i as int));
        assert(v@.take(i + 1).last() == c);
        proof {
            lemma_split_on_nonempty(v@.take(i as int), sep);
        }
        if c == sep {
            parts.push(cur);
            cur = Vec::new();
        } else {
            cur.push(c);
        }
        i = i + 1;
    }
    assert(v@.take(v.len() as int) =~= v@);
    parts.push(cur);
    parts
}

/// Picks the session cookie out of a `Cookie` header: the first
/// `;`-separated entry that, once trimmed, starts with `sessionid=`.
pub fn extract_session_cookie(cookie_header: &str) -> (cookie: Option<String>)
    ensures
        opt_view(cookie) == session_cookie_of(cookie_header@),
{
    let v = chars_of(cookie_header);
    let parts = split_chars(&v, ';');
    let ghost all = split_on(v@, ';');
    let prefix = chars_of(SESSION_COOKIE_PREFIX);
    let mut i: usize = 0;
    assert(all.subrange(0, all.len() as int) =~= all);
    while i < parts.len()
        invariant
            i <= parts.len() == all.len(),
            all == split_on(cookie_header@, ';'),
            prefix@ == SESSION_COOKIE_PREFIX@,
            forall|k: int| 0 <= k < parts.len() ==> (#[trigger] parts@[k])@ == all[k],
            first_session_cookie(all) == first_session_cookie(
                all.subrange(i as int, all.len() as int),
            ),
        decreases parts.len() - i,
    {
        let part = &parts[i];
        let (from, to) = trim_bounds(part);
        let ghost rest = all.subrange(i as int, all.len() as int);
        assert(rest[0] == all[i as int]);
        let mut trimmed: Vec<char> = Vec::new();
        let mut j = from;
        while j < to
            invariant
                from <= j <= to <= part.len(),
                trimmed@ == part@.subrange(from as int, j as int),
            decreases to - j,
        {
            trimmed.push(part[j]);
            j = j + 1;
            assert(trimmed@ =~= part@.subrange(from as int, j as int));
        }
        if has_prefix(&trimmed, &prefix) {
            return Some(string_of(&trimmed));
        }
        assert(rest.drop_first() =~= all.subrange(i + 1, all.len() as int));
        i = i + 1;
    }
    None
}

/// Whether an HTTP status is in the success class (200 to 299).
pub fn is_success_status(status: u16) -> (ok: bool)
    ensures
        ok == is_success(status),
{
    200 <= status && status <= 299
}

/// The CSRF token of the Django login page, read from its token field.
pub fn extract_csrf_token(html: &str) -> (token: Option<String>)
    ensures
        opt_view(token) == first_attribute_value(
            html@,
            CSRF_TOKEN_SELECTOR@,
            CSRF_TOKEN_ATTRIBUTE@,
        ),
{
    select_first_attribute(html, CSRF_TOKEN_SELECTOR, CSRF_TOKEN_ATTRIBUTE)
}

/// The login exchange goes on with a token the page holds; without one it
/// stops with `MissingCsrfToken`.
pub fn csrf_token_outcome(token: Option<String>) -> (r: Result<String, LoginError>)
    ensures
        match token {
            Some(t) => r == Ok::<String, LoginError>(t),
            None => r == Err::<String, LoginError>(LoginError::MissingCsrfToken),
        },
{
    match token {
        Some(t) => Ok(t),
        None => Err(LoginError::MissingCsrfToken),
    }
}

/// The CSRF token to log in with, from the login page's status and HTML:
/// a non-success status stops the login before the page is read.
pub fn login_page_token(status: u16, html: &str) -> (r: Result<String, LoginError>)
    ensures
        !is_success(status) ==> r == Err::<String, LoginError>(LoginError::LoginPageStatus(status)),
        is_success(status) ==> match r {
            Ok(t) => first_attribute_value(html@, CSRF_TOKEN_SELECTOR@, CSRF_TOKEN_ATTRIBUTE@)
                == Some(t@),
            Err(e) => e == LoginError::MissingCsrfToken && first_attribute_value(
                html@,
                CSRF_TOKEN_SELECTOR@,
                CSRF_TOKEN_ATTRIBUTE@,
            ) is None,
        },
{
    if !is_success_status(status) {
        return Err(LoginError::LoginPageStatus(status));
    }
    csrf_token_outcome(extract_csrf_token(html))
}

/// The fields of the login form, in the order they are sent: the username
/// (trimmed, as typed on a line), the password, the CSRF token, and the page
/// to go to afterwards.
pub fn login_form(username_line: &str, password: &str, csrf_token: &str) -> (form: Vec<
    (String, String),
>)
    ensures
        form.len() == 4,
        form@[0].0@ == "username"@ && form@[0].1@ == trim(username_line@),
        form@[1].0@ == "password"@ && form@[1].1@ == password@,
        form@[2].0@ == "csrfmiddlewaretoken"@ && form@[2].1@ == csrf_token@,
        form@[3].0@ == "next"@ && form@[3].1@ == "/admin/"@,
{
    let v = chars_of(username_line);
    let (from, to) = trim_bounds(&v);
    let username = string_of_range(&v, from, to);
    let mut form: Vec<(String, String)> = Vec::new();
    form.push((String::from_str("username"), username));
    form.push((String::from_str("password"), String::from_str(password)));
    form.push((String::from_str("csrfmiddlewaretoken"), String::from_str(csrf_token)));
    form.push((String::from_str("next"), String::from_str("/admin/")));
    form
}

/// The outcome of the login request: its status, the path it ended on after
/// redirects, and the cookies the server set for the login page (`None` when
/// it set none, `Some(None)` when they are not plain text). On success, the
/// session cookie to keep.
pub fn login_session_cookie(
    status: u16,
    final_path: &str,
    cookie_header: Option<Option<String>>,
) -> (r: Result<String, LoginError>)
    ensures
        !is_success(status) ==> r == Err::<String, LoginError>(LoginError::LoginStatus(status)),
        is_success(status) && trim_end_char(final_path@, '/') == ADMIN_LOGIN_PATH@ ==> r == Err::<
            String,
            LoginError,
        >(LoginError::CredentialsRejected),
        is_success(status) && trim_end_char(final_path@, '/') != ADMIN_LOGIN_PATH@ ==> match cookie_header {
            None => r == Err::<String, LoginError>(LoginError::NoCookies),
            Some(None) => r == Err::<String, LoginError>(LoginError::InvalidCookieHeader),
            Some(Some(h)) => match session_cookie_of(h@) {
                None => r == Err::<String, LoginError>(LoginError::NoSessionCookie),
                Some(c) => if valid_header_bytes(encode_utf8(c)) {
                    r matches Ok(s) && s@ == c
                } else {
                    r == Err::<String, LoginError>(LoginError::InvalidSessionCookie)
                },
            },
        },
{
    if !is_success_status(status) {
        return Err(LoginError::LoginStatus(status));
    }
    let path = chars_of(final_path);
    let len = trim_end_char_len(&path, '/');
    let login_path = chars_of(ADMIN_LOGIN_PATH);
    let mut trimmed: Vec<char> = Vec::new();
    let mut i: usize = 0;
    while i < len
        invariant
            i <= len <= path.len(),
            trimmed@ == path@.take(i as int),
        decreases len - i,
    {
        trimmed.push(path[i]);
        i = i + 1;
        assert(trimmed@ =~= path@.take(i as int));
    }
    if chars_equal(&trimmed, &login_path) {
        return Err(LoginError::CredentialsRejected);
    }
    match cookie_header {
        None => Err(LoginError::NoCookies),
        Some(None) => Err(LoginError::InvalidCookieHeader),
        Some(Some(h)) => match extract_session_cookie(h.as_str()) {
            None => Err(LoginError::NoSessionCookie),
            Some(c) => if header_value_accepts(c.as_str()) {
                Ok(c)
            } else {
                Err(LoginError::InvalidSessionCookie)
            },
        },
    }
}

/// The headers that authenticate a websocket request: the session cookie,
/// and the tracker site as origin.
pub fn auth_request_headers(cookie: &str) -> (headers: Vec<(String, String)>)
    ensures
        headers.len() == 2,
        headers@[0].0@ == "Cookie"@ && headers@[0].1@ == cookie@,
        headers@[1].0@ == "Origin"@ && headers@[1].1@ == TRACKER_ORIGIN@,
{
    let mut headers: Vec<(String, String)> = Vec::new();
    headers.push((String::from_str("Cookie"), String::from_str(cookie)));
    headers.push((String::from_str("Origin"), String::from_str(TRACKER_ORIGIN)));
    headers
}

proof fn lemma_first_session_cookie_shape(parts: Seq<Seq<char>>)
    ensures
        first_session_cookie(parts) matches Some(c) ==> starts_with(c, SESSION_COOKIE_PREFIX@)
            && trim(c) == c,
    decreases parts.len(),
{
    if parts.len() > 0 {
        if starts_with(trim(parts[0]), SESSION_COOKIE_PREFIX@) {
            lemma_trim_idempotent(parts[0]);
        } else {
            lemma_first_session_cookie_shape(parts.drop_first());
        }
    }
}

/// A `;`-separated entry of a `Cookie` header that, trimmed, is a session cookie.
pub open spec fn is_session_entry(entry: Seq<char>) -> bool {
    starts_with(trim(entry), SESSION_COOKIE_PREFIX@)
}

/// `parts` put back together with `sep` between each two of them.
pub open spec fn join_on(parts: Seq<Seq<char>>, sep: char) -> Seq<char>
    decreases parts.len(),
{
    if parts.len() == 0 {
        Seq::empty()
    } else if parts.len() == 1 {
        parts[0]
    } else {
        join_on(parts.drop_last(), sep) + seq![sep] + parts.last()
    }
}

/// Splitting on `sep` cuts `s` exactly at its occurrences of `sep`: the
/// pieces hold no `sep`, and joining them with `sep` gives `s` back.
pub proof fn lemma_split_on_cuts_at_separators(s: Seq<char>, sep: char)
    ensures
        split_on(s, sep).len() >= 1,
        join_on(split_on(s, sep), sep) == s,
        forall|k: int, i: int|
            0 <= k < split_on(s, sep).len() && 0 <= i < split_on(s, sep)[k].len() ==> #[trigger] split_on(
                s,
                sep,
            )[k][i] != sep,
    decreases s.len(),
{
    if s.len() == 0 {
        assert(join_on(split_on(s, sep), sep) =~= s);
    } else {
        let init = split_on(s.drop_last(), sep);
        lemma_split_on_cuts_at_separators(s.drop_last(), sep);
        let c = s.last();
        let p = split_on(s, sep);
        if c == sep {
            assert(p.drop_last() =~= init);
            assert(join_on(p, sep) =~= s.drop_last() + seq![sep] + Seq::<char>::empty());
            assert(join_on(p, sep) =~= s);
            assert forall|k: int, i: int| 0 <= k < p.len() && 0 <= i < p[k].len() implies #[trigger] p[k][i]
                != sep by {
                if k < init.len() {
                    assert(p[k] == init[k]);
                }
            }
        } else {
            let x = init.last();
            assert(p == init.update(init.len() - 1, x.push(c)));
            if init.len() == 1 {
                assert(join_on(p, sep) =~= x.push(c));
                assert(join_on(p, sep) =~= s);
            } else {
                assert(p.drop_last() =~= init.drop_last());
                assert(join_on(p, sep) == join_on(init.drop_last(), sep) + seq![sep] + x.push(c));
                assert(join_on(p, sep) =~= join_on(init, sep).push(c));
                assert(join_on(p, sep) =~= s);
            }
            assert forall|k: int, i: int| 0 <= k < p.len() && 0 <= i < p[k].len() implies #[trigger] p[k][i]
                != sep by {
                if k < init.len() - 1 {
                    assert(p[k] == init[k]);
                } else if i < x.len() {
                    assert(p[k][i] == init[k][i]);
                }
            }
        }
    }
}

proof fn lemma_first_session_cookie_is_first_entry(parts: Seq<Seq<char>>)
    ensures
        forall|k: int|
            0 <= k < parts.len() && is_session_entry(#[trigger] parts[k]) && (forall|j: int|
                0 <= j < k ==> !is_session_entry(parts[j])) ==> first_session_cookie(parts) == Some(
                trim(parts[k]),
            ),
        (forall|k: int| 0 <= k < parts.len() ==> !is_session_entry(#[trigger] parts[k]))
            ==> first_session_cookie(parts) is None,
    decreases parts.len(),
{
    if parts.len() > 0 {
        let rest = parts.drop_first();
        lemma_first_session_cookie_is_first_entry(rest);
        assert forall|k: int|
            0 <= k < parts.len() && is_session_entry(#[trigger] parts[k]) && (forall|j: int|
                0 <= j < k ==> !is_session_entry(parts[j])) implies first_session_cookie(parts)
            == Some(trim(parts[k])) by {
            if k > 0 {
                assert(!is_session_entry(parts[0]));
                assert(rest[k - 1] == parts[k]);
                assert forall|j: int| 0 <= j < k - 1 implies !is_session_entry(rest[j]) by {
                    assert(rest[j] == parts[j + 1]);
                }
            }
        }
        if forall|k: int| 0 <= k < parts.len() ==> !is_session_entry(#[trigger] parts[k]) {
            assert(!is_session_entry(parts[0]));
            assert forall|k: int| 0 <= k < rest.len() implies !is_session_entry(#[trigger] rest[k]) by {
                assert(rest[k] == parts[k + 1]);
            }
        }
    }
}

/// The session cookie of a `Cookie` header is the first of its
/// `;`-separated entries that, trimmed, starts with `sessionid=`, whatever
/// its position, trimmed; when no entry does, there is none.
pub proof fn lemma_session_cookie_is_first_session_entry(h: Seq<char>)
    ensures
        forall|k: int|
            0 <= k < split_on(h, ';').len() && is_session_entry(#[trigger] split_on(h, ';')[k]) && (
            forall|j: int| 0 <= j < k ==> !is_session_entry(split_on(h, ';')[j]))
                ==> session_cookie_of(h) == Some(trim(split_on(h, ';')[k])),
        (forall|k: int|
            0 <= k < split_on(h, ';').len() ==> !is_session_entry(#[trigger] split_on(h, ';')[k]))
            ==> session_cookie_of(h) is None,
{
    lemma_first_session_cookie_is_first_entry(split_on(h, ';'));
}

/// A session cookie that a login accepts and saves is read back unchanged
/// from the cookie file by `load_cookie`.
pub proof fn lemma_saved_session_cookie_reloads(header: Seq<char>, cookie: Seq<char>)
    requires
        session_cookie_of(header) == Some(cookie),
        valid_header_bytes(encode_utf8(cookie)),
    ensures
        saved_cookie_usable(cookie),
        trim(cookie) == cookie,
{
    lemma_first_session_cookie_shape(split_on(header, ';'));
}

} // verus!
