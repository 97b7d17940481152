use appointment_agent::booker::{Backoff, BookingPageState, Booker, BookingError, LoginAttempts, LoginDecision, TransportError};
use appointment_agent::calendar::Date;
use appointment_agent::config::create_default_config;
use appointment_agent::scraper::{ScrapeError, Scraper};
use appointment_agent::urls::{append_pairs, first_value, query_value};
use appointment_agent::html::SelectedElement;

const LOGIN_PAGE: &str = r#"
<form action="https://libauth.com/form_login" method="post">
  <input type="hidden" name="auth_id" value="3001">
  <input type="hidden" name="login_url" value="https://spl.libapps.com/libapps/libauth?auth_id=3001">
  <input type="text" name="username">
  <input type="password" name="password">
  <button type="submit">Login</button>
</form>"#;

const BOOKING_PAGE: &str = r#"
<form id="s-lc-bform" method="post" action="/passes/7f2ac5c414b2/book">
  <input type="hidden" name="museum" value="7f2ac5c414b2">
  <input type="hidden" name="pass" value="63ea409f9fab">
  <input type="hidden" name="date" value="2026-04-15">
  <input type="hidden" name="crc" value="d50ab18d9fa26567aaee1106311fa618">
  <div class="form-group">
    <input type="email" name="email" required>
  </div>
  <button type="submit">Submit my Booking</button>
</form>"#;

#[test]
fn availability_url_of_the_default_site() {
    let c = create_default_config();
    let site = c.get_active_site().unwrap();
    let date = Date::from_ymd_opt(2026, 4, 15).unwrap();
    let url = Scraper::build_availability_url(site, "7f2ac5c414b2", date).unwrap();
    assert_eq!(
        url,
        "https://spl.libcal.com/pass/availability/institution?museum=7f2ac5c414b2&date=2026-04-15&digital=true&physical=false&location=0"
    );
}

#[test]
fn availability_url_reads_back_its_parameters() {
    let c = create_default_config();
    let mut site = c.sites[0].1.clone();
    site.location = "a b&c=d+é".to_string();
    site.availabilityendpoint = "/pass/availability?view=month".to_string();
    let date = Date::from_ymd_opt(2026, 12, 31).unwrap();
    let url = Scraper::build_availability_url(&site, "id/7 f", date).unwrap();
    assert_eq!(query_value(&url, "view"), Some("month".to_string()));
    assert_eq!(query_value(&url, "museum"), Some("id/7 f".to_string()));
    assert_eq!(query_value(&url, "date"), Some("2026-12-31".to_string()));
    assert_eq!(query_value(&url, "digital"), Some("true".to_string()));
    assert_eq!(query_value(&url, "physical"), Some("false".to_string()));
    assert_eq!(query_value(&url, "location"), Some("a b&c=d+é".to_string()));
}

#[test]
fn availability_url_rejects_an_invalid_endpoint() {
    let mut c = create_default_config();
    c.sites[0].1.availabilityendpoint = ":99999/pass".to_string();
    let date = Date::from_ymd_opt(2026, 4, 15).unwrap();
    match Scraper::build_availability_url(&c.sites[0].1, "x", date) {
        Err(ScrapeError::InvalidEndpoint(e)) => assert_eq!(e, ":99999/pass"),
        other => panic!("unexpected {:?}", other),
    }
}

#[test]
fn parsing_rejects_an_unresolvable_booking_link() {
    let c = create_default_config();
    let mut site = c.sites[0].1.clone();
    site.bookinglinkselector = "a.s-lc-pass-available".to_string();
    let html = r#"<a class="s-lc-pass-available" href="http://[">15</a>"#;
    match Scraper::parse_availability(html, &site) {
        Err(ScrapeError::InvalidBookingUrl(h)) => assert_eq!(h, "http://["),
        other => panic!("unexpected {:?}", other),
    }
}

#[test]
fn availability_url_rejects_an_invalid_base() {
    let mut c = create_default_config();
    c.sites[0].1.baseurl = "not a url".to_string();
    let date = Date::from_ymd_opt(2026, 4, 15).unwrap();
    match Scraper::build_availability_url(&c.sites[0].1, "x", date) {
        Err(ScrapeError::InvalidBaseUrl(u)) => assert_eq!(u, "not a url"),
        other => panic!("unexpected {:?}", other),
    }
}

#[test]
fn parsing_skips_links_without_href_or_date() {
    let c = create_default_config();
    let mut site = c.sites[0].1.clone();
    site.bookinglinkselector = "a.s-lc-pass-available".to_string();
    let html = r#"
        <a class="s-lc-pass-available">14</a>
        <a class="s-lc-pass-available" href="/passes/SAM/book?pass=abc">15</a>
        <a class="s-lc-pass-available" href="/passes/SAM/book?date=2026-04-16&pass=abc">
            16
        </a>"#;
    let results = Scraper::parse_availability(html, &site).unwrap();
    assert_eq!(results.len(), 1);
    assert_eq!(results[0].date.to_iso_string(), "2026-04-16");
    assert_eq!(results[0].day_text, "16");
    assert_eq!(results[0].booking_url, "https://spl.libcal.com/passes/SAM/book?date=2026-04-16&pass=abc");
}

#[test]
fn parsing_rejects_an_invalid_selector() {
    let c = create_default_config();
    let mut site = c.sites[0].1.clone();
    site.bookinglinkselector = "a[".to_string();
    match Scraper::parse_availability("<a href='x'>1</a>", &site) {
        Err(ScrapeError::InvalidSelector(s)) => assert_eq!(s, "a["),
        other => panic!("unexpected {:?}", other),
    }
}

#[test]
fn login_form_is_detected() {
    let f = Scraper::detect_login_form(LOGIN_PAGE, "https://spl.libcal.com/passes/SAM/book", &create_default_config().sites[0].1.loginform).unwrap();
    assert_eq!(f.action_url, "https://libauth.com/form_login");
    assert_eq!(f.auth_id, "3001");
    assert_eq!(f.login_url, "https://spl.libapps.com/libapps/libauth?auth_id=3001");
    assert!(Scraper::detect_login_form(BOOKING_PAGE, "https://spl.libcal.com/", &create_default_config().sites[0].1.loginform).is_none());
}

#[test]
fn booking_form_is_detected_with_resolved_action() {
    let f = Scraper::detect_booking_form(BOOKING_PAGE, "https://spl.libcal.com/passes/SAM/book?date=2026-04-15", &create_default_config().sites[0].1.bookingform).unwrap();
    assert_eq!(f.action_url, "https://spl.libcal.com/passes/7f2ac5c414b2/book");
    assert_eq!(f.hidden_fields.len(), 4);
    assert_eq!(f.hidden_fields[1], ("pass".to_string(), "63ea409f9fab".to_string()));
    assert_eq!(f.email_field_name, Some("email".to_string()));
}

#[test]
fn booking_page_state_prefers_login() {
    let form = create_default_config().sites[0].1.clone();
    match Booker::booking_page_state(LOGIN_PAGE, "https://spl.libcal.com/", &form) {
        BookingPageState::LoginRequired(_) => {}
        other => panic!("unexpected {:?}", other),
    }
    match Booker::booking_page_state(BOOKING_PAGE, "https://spl.libcal.com/", &form) {
        BookingPageState::BookingReady(_) => {}
        other => panic!("unexpected {:?}", other),
    }
    match Booker::booking_page_state("<p>nothing</p>", "https://spl.libcal.com/", &form) {
        BookingPageState::Unknown(h) => assert_eq!(h, "<p>nothing</p>"),
        other => panic!("unexpected {:?}", other),
    }
}

#[test]
fn success_indicator_decides_the_booking() {
    let ok = "<h1 id=\"s-lc-eq-success-title\">Thank you!</h1>";
    assert!(Scraper::check_success(ok, "Thank you!"));
    assert_eq!(Booker::booking_outcome(ok, "Thank you!"), Ok(true));
    assert_eq!(Booker::booking_outcome("<h1>Sorry</h1>", "Thank you!"), Err(BookingError::SuccessIndicatorMissing));
}

#[test]
fn login_and_booking_requests() {
    let c = create_default_config();
    let cred = c.get_selected_credential().unwrap();
    let lf = Scraper::detect_login_form(LOGIN_PAGE, "https://spl.libcal.com/", &c.sites[0].1.loginform).unwrap();
    let post = Booker::login_request(&lf, cred);
    assert_eq!(post.url, "https://libauth.com/form_login");
    let names: Vec<&str> = post.fields.iter().map(|(k, _)| k.as_str()).collect();
    assert_eq!(names, vec!["auth_id", "login_url", "username", "password"]);
    assert_eq!(post.fields[3].1, "PIN");
    let bf = Scraper::detect_booking_form(BOOKING_PAGE, "https://spl.libcal.com/", &c.sites[0].1.bookingform).unwrap();
    let post = Booker::booking_request(&bf, cred);
    assert_eq!(post.fields.len(), 5);
    assert_eq!(post.fields[4], ("email".to_string(), "me@example.com".to_string()));
}

#[test]
fn login_retries_then_fails_on_server_errors() {
    let mut a = LoginAttempts::new();
    assert_eq!(a.on_status(500), LoginDecision::RetryAfter(1000));
    assert_eq!(a.on_status(403), LoginDecision::Failed);
    let mut a = LoginAttempts::new();
    assert_eq!(a.on_status(302), LoginDecision::Succeeded);
    let mut a = LoginAttempts::new();
    assert_eq!(a.on_status(101), LoginDecision::Succeeded);
}

#[test]
fn login_gives_up_after_request_failures() {
    let mut a = LoginAttempts::new();
    assert_eq!(a.on_error(&TransportError::Timeout("t".to_string())), LoginDecision::RetryAfter(2000));
    assert_eq!(a.on_error(&TransportError::Timeout("t".to_string())), LoginDecision::GiveUp);
    let mut a = LoginAttempts::new();
    assert_eq!(a.on_error(&TransportError::Network("n".to_string())), LoginDecision::RetryAfter(5000));
    assert_eq!(a.on_error(&TransportError::Network("n".to_string())), LoginDecision::RetryAfter(10000));
    assert_eq!(a.on_error(&TransportError::Network("n".to_string())), LoginDecision::RetryAfter(20000));
    assert_eq!(a.on_error(&TransportError::Network("n".to_string())), LoginDecision::GiveUp);
}

#[test]
fn backoff_pauses_at_least_double() {
    let mut a = LoginAttempts::new();
    assert_eq!(a.on_status(500), LoginDecision::RetryAfter(1000));
    assert_eq!(a.on_error(&TransportError::Timeout("t".to_string())), LoginDecision::RetryAfter(2000));
    assert_eq!(a.on_error(&TransportError::Network("n".to_string())), LoginDecision::RetryAfter(5000));
    assert_eq!(a.on_error(&TransportError::Network("n".to_string())), LoginDecision::RetryAfter(10000));
    let mut b = Backoff::new();
    assert_eq!(b.on_transport_error(&TransportError::Network("n".to_string())), Some(5000));
    assert_eq!(b.on_transport_error(&TransportError::Timeout("t".to_string())), Some(10000));
    assert_eq!(b.on_transport_error(&TransportError::Timeout("t".to_string())), None);
}

#[test]
fn login_form_is_detected_by_its_action_alone() {
    let c = create_default_config();
    let page = r#"<form action="/auth/form_login?x=1"><input name="user"></form>"#;
    let f = Scraper::detect_login_form(page, "https://spl.libcal.com/passes/SAM/book", &c.sites[0].1.loginform).unwrap();
    assert_eq!(f.action_url, "https://spl.libcal.com/auth/form_login?x=1");
    assert_eq!(f.auth_id, "");
    assert_eq!(f.login_url, "");
    let mut form = c.sites[0].1.loginform.clone();
    form.authidselector = "input[name='user']".to_string();
    let page = r#"<form action="form_login"><input name="user" value="u1"></form>"#;
    let f = Scraper::detect_login_form(page, "https://spl.libcal.com/", &form).unwrap();
    assert_eq!(f.auth_id, "u1");
}

#[test]
fn parsing_falls_back_to_every_link() {
    let c = create_default_config();
    let site = c.sites[0].1.clone();
    let html = r#"<div><a href="/passes/SAM/book?date=2026-04-15&pass=x">15</a><a href="/about">about</a></div>"#;
    let results = Scraper::parse_availability(html, &site).unwrap();
    assert_eq!(results.len(), 1);
    assert_eq!(results[0].booking_url, "https://spl.libcal.com/passes/SAM/book?date=2026-04-15&pass=x");
}

#[test]
fn availability_url_keeps_a_path_in_the_base() {
    let c = create_default_config();
    let mut site = c.sites[0].1.clone();
    site.baseurl = "https://example.org/libcal".to_string();
    let date = Date::from_ymd_opt(2026, 4, 15).unwrap();
    let url = Scraper::build_availability_url(&site, "m1", date).unwrap();
    assert_eq!(url, "https://example.org/libcal/pass/availability/institution?museum=m1&date=2026-04-15&digital=true&physical=false&location=0");
}

#[test]
fn query_pairs_are_appended_and_read_back() {
    let pairs = vec![("date".to_string(), "2026-04-15".to_string()), ("q".to_string(), "a b&c".to_string())];
    let url = append_pairs("https://example.com/x", &pairs);
    assert_eq!(url, "https://example.com/x?date=2026-04-15&q=a+b%26c");
    assert_eq!(query_value(&url, "q"), Some("a b&c".to_string()));
    assert_eq!(query_value(&url, "missing"), None);
}

#[test]
fn booking_email_field_follows_the_site() {
    let c = create_default_config();
    let mut form = c.sites[0].1.bookingform.clone();
    let page = r#"<form id="s-lc-bform" action="/b"><input type="text" name="mail"><input type="email" name="email"></form>"#;
    let f = Scraper::detect_booking_form(page, "https://spl.libcal.com/", &form).unwrap();
    assert_eq!(f.email_field_name, Some("email".to_string()));
    form.emailfield = "mail".to_string();
    let f = Scraper::detect_booking_form(page, "https://spl.libcal.com/", &form).unwrap();
    assert_eq!(f.email_field_name, Some("mail".to_string()));
    form.emailfield = String::new();
    let f = Scraper::detect_booking_form(page, "https://spl.libcal.com/", &form).unwrap();
    assert_eq!(f.email_field_name, Some("email".to_string()));
}

#[test]
fn first_value_reads_the_first_pair() {
    let pairs = vec![("a".to_string(), "1".to_string()), ("date".to_string(), "x".to_string()), ("date".to_string(), "y".to_string())];
    assert_eq!(first_value(&pairs, "date"), Some("x".to_string()));
    assert_eq!(first_value(&pairs, "b"), None);
}

#[test]
fn hidden_fields_and_days_from_selected_elements() {
    let inputs = vec![
        SelectedElement { attrs: vec![Some("pass".to_string()), Some("p1".to_string())], text: String::new() },
        SelectedElement { attrs: vec![None, Some("v".to_string())], text: String::new() },
        SelectedElement { attrs: vec![Some("crc".to_string()), None], text: String::new() },
    ];
    assert_eq!(
        appointment_agent::scraper::hidden_fields(&inputs),
        vec![("pass".to_string(), "p1".to_string()), ("crc".to_string(), String::new())]
    );
    let links = vec![
        SelectedElement { attrs: vec![Some("/b?date=2026-04-15".to_string())], text: " 15 ".to_string() },
        SelectedElement { attrs: vec![None], text: "x".to_string() },
    ];
    let days = appointment_agent::scraper::days_from_links(&links, "https://spl.libcal.com").unwrap();
    assert_eq!(days.len(), 1);
    assert_eq!(days[0].booking_url, "https://spl.libcal.com/b?date=2026-04-15");
    assert_eq!(days[0].day_text, "15");
}
