//! Login and booking: what to send, how to read the answers, and when to
//! retry a login.

use vstd::prelude::*;
use crate::config::{Credential, Site};
use crate::scraper::{
    booking_fields_view, booking_form_of, login_form_of, BookingFormFields, LoginFormFields,
    Scraper,
};
use crate::text::{contains, contains_spec};
use crate::urls::pair_views;

verus! {

/// What a booking page asks for next.
#[derive(Clone, Debug)]
pub enum BookingPageState {
    /// The page holds a login form.
    LoginRequired(LoginFormFields),
    /// The page holds the booking form.
    BookingReady(BookingFormFields),
    /// Neither form was found; the page as fetched.
    Unknown(String),
}

/// Why a booking did not go through.
#[derive(Clone, Copy, Debug, PartialEq, Eq, Structural)]
pub enum BookingError {
    /// The booking response lacks the site's success indicator.
    SuccessIndicatorMissing,
}

/// A form to post: where, and the fields in order.
#[derive(Clone, Debug)]
pub struct FormPost {
    pub url: String,
    pub fields: Vec<(String, String)>,
}

/// The decisions of login and booking.
pub struct Booker;

/// How many refused logins (a 4xx or 5xx answer) end the login.
pub const MAX_LOGIN_RETRIES: u32 = 2;

/// The first pause before retrying a refused login.
pub const STATUS_RETRY_MS: u64 = 1000;

/// The first pause before retrying a request that timed out.
pub const TIMEOUT_RETRY_MS: u64 = 2000;

/// The first pause before retrying a request that met a network error.
pub const NETWORK_RETRY_MS: u64 = 5000;

/// How often a request that timed out is retried.
pub const MAX_TIMEOUT_RETRIES: u32 = 1;

/// How often a request that met a network error is retried.
pub const MAX_NETWORK_RETRIES: u32 = 3;

/// How a request failed without an answer.
#[derive(Clone, Debug)]
pub enum TransportError {
    /// The request timed out.
    Timeout(String),
    /// Any other failure to get an answer.
    Network(String),
}

/// The message of a failed request.
pub open spec fn transport_message(e: TransportError) -> Seq<char> {
    match e {
        TransportError::Timeout(m) => m@,
        TransportError::Network(m) => m@,
    }
}

/// The retries of one request so far, and the last pause taken.
#[derive(Clone, Copy, Debug)]
pub struct Backoff {
    pub timeouts: u32,
    pub network_errors: u32,
    pub last_pause_ms: u64,
}

/// The pause before the next retry: the kind's first pause, and at least
/// twice the pause before (exponential backoff).
pub open spec fn next_pause(last: int, base: int) -> int {
    if 2 * last > base {
        if 2 * last > u64::MAX {
            u64::MAX as int
        } else {
            2 * last
        }
    } else {
        base
    }
}

/// The retries still allow another attempt.
pub open spec fn backoff_open(b: Backoff) -> bool {
    b.timeouts <= MAX_TIMEOUT_RETRIES && b.network_errors <= MAX_NETWORK_RETRIES
}

/// After a failed request: the retries afterwards, and the pause before the
/// retry, or `None` where the retries of that kind are used up.
pub open spec fn transport_step(b: Backoff, e: TransportError) -> (Backoff, Option<int>) {
    match e {
        TransportError::Timeout(_) => if b.timeouts >= MAX_TIMEOUT_RETRIES {
            (Backoff { timeouts: (MAX_TIMEOUT_RETRIES + 1) as u32, ..b }, None)
        } else {
            let p = next_pause(b.last_pause_ms as int, TIMEOUT_RETRY_MS as int);
            (Backoff { timeouts: (b.timeouts + 1) as u32, last_pause_ms: p as u64, ..b }, Some(p))
        },
        TransportError::Network(_) => if b.network_errors >= MAX_NETWORK_RETRIES {
            (Backoff { network_errors: (MAX_NETWORK_RETRIES + 1) as u32, ..b }, None)
        } else {
            let p = next_pause(b.last_pause_ms as int, NETWORK_RETRY_MS as int);
            (
                Backoff { network_errors: (b.network_errors + 1) as u32, last_pause_ms: p as u64, ..b },
                Some(p),
            )
        },
    }
}

fn next_pause_exec(last: u64, base: u64) -> (r: u64)
    ensures
        r == next_pause(last as int, base as int),
{
    let doubled: u64 = if last > u64::MAX / 2 {
        u64::MAX
    } else {
        last * 2
    };
    if doubled > base {
        doubled
    } else {
        base
    }
}

impl Backoff {
    /// No retry yet.
    pub fn new() -> (r: Backoff)
        ensures
            r.timeouts == 0,
            r.network_errors == 0,
            r.last_pause_ms == 0,
    {
        Backoff { timeouts: 0, network_errors: 0, last_pause_ms: 0 }
    }

    /// Reads a failed request: the pause before retrying it, or `None`
    /// where it is not retried again.
    pub fn on_transport_error(&mut self, e: &TransportError) -> (r: Option<u64>)
        ensures
            (*final(self), match r {
                Some(p) => Some(p as int),
                None => None,
            }) == transport_step(*old(self), *e),
    {
        match e {
            TransportError::Timeout(_) => {
                if self.timeouts >= MAX_TIMEOUT_RETRIES {
                    self.timeouts = MAX_TIMEOUT_RETRIES + 1;
                    None
                } else {
                    self.timeouts = self.timeouts + 1;
                    self.last_pause_ms = next_pause_exec(self.last_pause_ms, TIMEOUT_RETRY_MS);
                    Some(self.last_pause_ms)
                }
            },
            TransportError::Network(_) => {
                if self.network_errors >= MAX_NETWORK_RETRIES {
                    self.network_errors = MAX_NETWORK_RETRIES + 1;
                    None
                } else {
                    self.network_errors = self.network_errors + 1;
                    self.last_pause_ms = next_pause_exec(self.last_pause_ms, NETWORK_RETRY_MS);
                    Some(self.last_pause_ms)
                }
            },
        }
    }
}

/// What to do after a login attempt.
#[derive(Clone, Copy, Debug, PartialEq, Eq, Structural)]
pub enum LoginDecision {
    /// The login went through.
    Succeeded,
    /// The server refused the login too often.
    Failed,
    /// Post the login again after the given milliseconds.
    RetryAfter(u64),
    /// The login request failed too often.
    GiveUp,
}

/// `StatusCode::is_success`.
pub open spec fn is_success_status(status: int) -> bool {
    200 <= status <= 299
}

/// `StatusCode::is_redirection`.
pub open spec fn is_redirection_status(status: int) -> bool {
    300 <= status <= 399
}

/// `StatusCode::is_client_error` or `StatusCode::is_server_error`.
pub open spec fn is_error_status(status: int) -> bool {
    400 <= status <= 599
}

/// The state of one login: refused attempts so far and the retries of
/// failed requests.
#[derive(Clone, Copy, Debug)]
pub struct LoginAttempts {
    pub refusals: u32,
    pub backoff: Backoff,
}

/// The login may go on.
pub open spec fn login_open(a: LoginAttempts) -> bool {
    a.refusals < MAX_LOGIN_RETRIES && backoff_open(a.backoff)
}

/// The decision after an answer with `status`, and the state after it:
/// success and redirection are success; a client or server error is a
/// refusal, retried after a backoff pause until `MAX_LOGIN_RETRIES`
/// refusals; any other status is taken as success.
pub open spec fn login_status_step(a: LoginAttempts, status: int) -> (LoginAttempts, LoginDecision) {
    if is_success_status(status) || is_redirection_status(status) {
        (a, LoginDecision::Succeeded)
    } else if is_error_status(status) {
        let n = a.refusals + 1;
        if n >= MAX_LOGIN_RETRIES {
            (LoginAttempts { refusals: n as u32, ..a }, LoginDecision::Failed)
        } else {
            let p = next_pause(a.backoff.last_pause_ms as int, STATUS_RETRY_MS as int);
            (
                LoginAttempts {
                    refusals: n as u32,
                    backoff: Backoff { last_pause_ms: p as u64, ..a.backoff },
                },
                LoginDecision::RetryAfter(p as u64),
            )
        }
    } else {
        (a, LoginDecision::Succeeded)
    }
}

/// The decision after a failed login request, and the state after it.
pub open spec fn login_error_step(a: LoginAttempts, e: TransportError) -> (LoginAttempts, LoginDecision) {
    let (b, pause) = transport_step(a.backoff, e);
    (
        LoginAttempts { backoff: b, ..a },
        match pause {
            Some(p) => LoginDecision::RetryAfter(p as u64),
            None => LoginDecision::GiveUp,
        },
    )
}

impl LoginAttempts {
    /// No attempt yet.
    pub fn new() -> (r: LoginAttempts)
        ensures
            r.refusals == 0,
            r.backoff.timeouts == 0,
            r.backoff.network_errors == 0,
            r.backoff.last_pause_ms == 0,
    {
        LoginAttempts { refusals: 0, backoff: Backoff::new() }
    }

    /// Reads the status of a login answer.
    pub fn on_status(&mut self, status: u16) -> (d: LoginDecision)
        requires
            login_open(*old(self)),
        ensures
            (*final(self), d) == login_status_step(*old(self), status as int),
    {
        if (200 <= status && status <= 299) || (300 <= status && status <= 399) {
            LoginDecision::Succeeded
        } else if 400 <= status && status <= 599 {
            self.refusals = self.refusals + 1;
            if self.refusals >= MAX_LOGIN_RETRIES {
                LoginDecision::Failed
            } else {
                self.backoff.last_pause_ms = next_pause_exec(
                    self.backoff.last_pause_ms,
                    STATUS_RETRY_MS,
                );
                LoginDecision::RetryAfter(self.backoff.last_pause_ms)
            }
        } else {
            LoginDecision::Succeeded
        }
    }

    /// Reads a failed login request.
    pub fn on_error(&mut self, e: &TransportError) -> (d: LoginDecision)
        requires
            login_open(*old(self)),
        ensures
            (*final(self), d) == login_error_step(*old(self), *e),
    {
        match self.backoff.on_transport_error(e) {
            Some(p) => LoginDecision::RetryAfter(p),
            None => LoginDecision::GiveUp,
        }
    }
}

/// The login form fields: the form's `auth_id` and `login_url`, then the
/// card's username and password.
pub open spec fn login_fields_spec(fields: LoginFormFields, credential: Credential) -> Seq<
    (Seq<char>, Seq<char>),
> {
    seq![
        ("auth_id"@, fields.auth_id@),
        ("login_url"@, fields.login_url@),
        ("username"@, credential.username@),
        ("password"@, credential.password@),
    ]
}

/// The booking form fields: the hidden fields, then the card's email under
/// the email field's name if the form has one.
pub open spec fn booking_fields_spec(fields: BookingFormFields, credential: Credential) -> Seq<
    (Seq<char>, Seq<char>),
> {
    match fields.email_field_name {
        Some(name) => pair_views(fields.hidden_fields@).push((name@, credential.email@)),
        None => pair_views(fields.hidden_fields@),
    }
}

/// What a page at `page_url` asks for: a login form comes first, then the
/// booking form, else the page is unknown.
pub open spec fn page_state_matches(
    s: BookingPageState,
    html: Seq<char>,
    page_url: Seq<char>,
    site: Site,
) -> bool {
    match login_form_of(html, page_url, site.loginform) {
        Some((action, auth_id, login_url)) => s matches BookingPageState::LoginRequired(f)
            && f.action_url@ == action && f.auth_id@ == auth_id && f.login_url@ == login_url,
        None => match booking_form_of(html, page_url, site.bookingform) {
            Some(view) => s matches BookingPageState::BookingReady(f) && booking_fields_view(f)
                == view,
            None => s matches BookingPageState::Unknown(h) && h@ == html,
        },
    }
}

impl Booker {
    /// The login request for a login form and a card.
    pub fn login_request(login_fields: &LoginFormFields, credential: &Credential) -> (r: FormPost)
        ensures
            r.url@ == login_fields.action_url@,
            pair_views(r.fields@) == login_fields_spec(*login_fields, *credential),
    {
        let mut fields: Vec<(String, String)> = Vec::new();
        fields.push(("auth_id".to_owned(), login_fields.auth_id.clone()));
        fields.push(("login_url".to_owned(), login_fields.login_url.clone()));
        fields.push(("username".to_owned(), credential.username.clone()));
        fields.push(("password".to_owned(), credential.password.clone()));
        assert(pair_views(fields@) =~= login_fields_spec(*login_fields, *credential));
        FormPost { url: login_fields.action_url.clone(), fields }
    }

    /// The booking request for a booking form and a card.
    pub fn booking_request(booking_fields: &BookingFormFields, credential: &Credential) -> (r:
        FormPost)
        ensures
            r.url@ == booking_fields.action_url@,
            pair_views(r.fields@) == booking_fields_spec(*booking_fields, *credential),
    {
        let mut fields: Vec<(String, String)> = Vec::new();
        let mut i: usize = 0;
        while i < booking_fields.hidden_fields.len()
            invariant
                i <= booking_fields.hidden_fields@.len(),
                pair_views(fields@) == pair_views(booking_fields.hidden_fields@).take(i as int),
            decreases booking_fields.hidden_fields@.len() - i,
        {
            let pair = &booking_fields.hidden_fields[i];
            let ghost prev = fields@;
            fields.push((pair.0.clone(), pair.1.clone()));
            assert(pair_views(fields@) =~= pair_views(prev).push((pair.0@, pair.1@)));
            assert(pair_views(booking_fields.hidden_fields@)[i as int] == (pair.0@, pair.1@));
            assert(pair_views(fields@) =~= pair_views(booking_fields.hidden_fields@).take(i + 1));
            i = i + 1;
        }
        assert(pair_views(booking_fields.hidden_fields@).take(i as int) =~= pair_views(
            booking_fields.hidden_fields@,
        ));
        match &booking_fields.email_field_name {
            Some(name) => {
                let ghost prev = fields@;
                fields.push((name.clone(), credential.email.clone()));
                assert(pair_views(fields@) =~= pair_views(prev).push((name@, credential.email@)));
            },
            None => {},
        }
        FormPost { url: booking_fields.action_url.clone(), fields }
    }

    /// Reads a booking response: booked where the success indicator shows.
    pub fn booking_outcome(html: &str, success_indicator: &str) -> (r: Result<bool, BookingError>)
        ensures
            contains_spec(html@, success_indicator@) ==> r == Ok::<bool, BookingError>(true),
            !contains_spec(html@, success_indicator@) ==> r == Err::<bool, BookingError>(
                BookingError::SuccessIndicatorMissing,
            ),
    {
        if Scraper::check_success(html, success_indicator) {
            Ok(true)
        } else {
            Err(BookingError::SuccessIndicatorMissing)
        }
    }

    /// What a fetched booking page at `page_url` of the site asks for.
    pub fn booking_page_state(html: &str, page_url: &str, site: &Site) -> (r: BookingPageState)
        ensures
            page_state_matches(r, html@, page_url@, *site),
    {
        match Scraper::detect_login_form(html, page_url, &site.loginform) {
            Some(f) => BookingPageState::LoginRequired(f),
            None => match Scraper::detect_booking_form(html, page_url, &site.bookingform) {
                Some(f) => BookingPageState::BookingReady(f),
                None => BookingPageState::Unknown(html.to_owned()),
            },
        }
    }
}

/// Law: the login post carries the card as it is: its `username` field is
/// the card's username and its `password` field the card's password, next
/// to the form's `auth_id` and `login_url`; no field name occurs twice.
pub proof fn law_login_post_carries_the_card(fields: LoginFormFields, credential: Credential)
    ensures
        crate::agent::distinct_keys(login_fields_spec(fields, credential)),
        crate::agent::field_value(login_fields_spec(fields, credential), "username"@) == Some(
            credential.username@,
        ),
        crate::agent::field_value(login_fields_spec(fields, credential), "password"@) == Some(
            credential.password@,
        ),
        crate::agent::field_value(login_fields_spec(fields, credential), "auth_id"@) == Some(
            fields.auth_id@,
        ),
        crate::agent::field_value(login_fields_spec(fields, credential), "login_url"@) == Some(
            fields.login_url@,
        ),
        login_fields_spec(fields, credential).len() == 4,
{
    reveal_strlit("auth_id");
    reveal_strlit("login_url");
    reveal_strlit("username");
    reveal_strlit("password");
    let f = login_fields_spec(fields, credential);
    assert("auth_id"@.len() == 7 && "login_url"@.len() == 9 && "username"@.len() == 8);
    assert("password"@.len() == 8 && "username"@[0] != "password"@[0]);
    reveal_with_fuel(crate::agent::field_value, 5);
    assert(f.drop_first() =~= seq![f[1], f[2], f[3]]);
    assert(f.drop_first().drop_first() =~= seq![f[2], f[3]]);
    assert(f.drop_first().drop_first().drop_first() =~= seq![f[3]]);
}

/// Law: a login answer decides by its status class: a success or a
/// redirection is a successful login, a client or server error never is
/// (it is counted as a refusal, then retried or ends the login), and the
/// state changes only on such an error.
pub proof fn law_login_status_classes(a: LoginAttempts, status: int)
    requires
        login_open(a),
    ensures
        200 <= status < 400 ==> login_status_step(a, status) == (a, LoginDecision::Succeeded),
        400 <= status < 600 ==> !(login_status_step(a, status).1 is Succeeded)
            && login_status_step(a, status).0.refusals == a.refusals + 1,
{
}

/// Law: every request is retried a bounded number of times, each retry
/// after a pause that is positive and at least twice the one before: from
/// any state in which retries remain, a failed request either asks for a
/// retry, leaving a state with one more failure counted and retries still
/// allowed, or gives up with the retries of its kind used up. So a request
/// is made at most `MAX_TIMEOUT_RETRIES + MAX_NETWORK_RETRIES + 1` times.
pub proof fn law_request_retries_bounded(b: Backoff, e: TransportError)
    requires
        backoff_open(b),
        b.last_pause_ms <= 1_000_000_000,
    ensures
        ({
            let (n, pause) = transport_step(b, e);
            &&& pause matches Some(p) ==> p > 0 && p >= 2 * b.last_pause_ms && n.last_pause_ms == p
                && n.timeouts + n.network_errors == b.timeouts + b.network_errors + 1
                && n.timeouts <= MAX_TIMEOUT_RETRIES && n.network_errors <= MAX_NETWORK_RETRIES
            &&& pause is None ==> match e {
                TransportError::Timeout(_) => b.timeouts == MAX_TIMEOUT_RETRIES,
                TransportError::Network(_) => b.network_errors == MAX_NETWORK_RETRIES,
            }
        }),
{
}

/// Law: a login ends after a bounded number of attempts, and every retry
/// waits longer than the one before: from any state in which the login may
/// go on, an answer or a failed request either ends the login, or asks for
/// a retry after a pause that is positive and at least twice the previous
/// one, leaving a state that counts one more refusal or failure. No state
/// allows more than `MAX_LOGIN_RETRIES` refusals, `MAX_TIMEOUT_RETRIES + 1`
/// timeouts or `MAX_NETWORK_RETRIES + 1` network errors.
pub proof fn law_login_attempts_bounded(a: LoginAttempts, status: int, e: TransportError)
    requires
        login_open(a),
        a.backoff.last_pause_ms <= 1_000_000_000,
    ensures
        ({
            let (n, d) = login_status_step(a, status);
            &&& d is Succeeded ==> n == a
            &&& d is Failed ==> n.refusals == MAX_LOGIN_RETRIES
            &&& d matches LoginDecision::RetryAfter(p) ==> login_open(n) && n.refusals == a.refusals
                + 1 && p > 0 && p >= 2 * a.backoff.last_pause_ms && n.backoff.last_pause_ms == p
            &&& !(d is GiveUp)
        }),
        ({
            let (n, d) = login_error_step(a, e);
            &&& d matches LoginDecision::RetryAfter(p) ==> login_open(n) && n.backoff.timeouts
                + n.backoff.network_errors == a.backoff.timeouts + a.backoff.network_errors + 1
                && p > 0 && p >= 2 * a.backoff.last_pause_ms && n.backoff.last_pause_ms == p
            &&& d is GiveUp ==> n.backoff.timeouts > MAX_TIMEOUT_RETRIES
                || n.backoff.network_errors > MAX_NETWORK_RETRIES
            &&& d is RetryAfter || d is GiveUp
        }),
{
}

} // verus!
