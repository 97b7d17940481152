use appointment_agent::agent::{availability_slots, Agent, AgentError, AgentEvent, AvailabilitySlot, MonthError, MonthFetch};
use appointment_agent::booker::TransportError;
use appointment_agent::booking::{BookingAction, BookingEvent, BookingRun};
use appointment_agent::booker::BookingPageState;
use appointment_agent::calendar::{Date, LocalTime};
use appointment_agent::config::{create_default_config, Mode};
use appointment_agent::run::{Run, RunAction, RunError, RunPhase};
use appointment_agent::scraper::Scraper;

fn slot(date: &str) -> AvailabilitySlot {
    AvailabilitySlot { date: date.to_string(), booking_url: format!("https://spl.libcal.com/book?date={}", date) }
}

fn field<'a>(e: &'a AgentEvent, key: &str) -> Option<&'a str> {
    e.data.iter().find(|(k, _)| k == key).map(|(_, v)| v.as_str())
}

#[test]
fn with_data_replaces_a_field() {
    let e = AgentEvent::new("booking_failed").with_data("date", "a".to_string());
    let e = e.with_data("error", "x".to_string()).with_data("date", "b".to_string());
    assert_eq!(e.event, "booking_failed");
    assert_eq!(e.data.len(), 2);
    assert_eq!(field(&e, "date"), Some("b"));
    assert_eq!(field(&e, "error"), Some("x"));
}

#[test]
fn dates_are_reported_once_per_run() {
    let mut agent = Agent::new(create_default_config());
    let mut found = Vec::new();
    let events = agent.record_slots(vec![slot("2026-04-15"), slot("2026-04-18"), slot("2026-04-15")], &mut found);
    assert_eq!(events.len(), 2);
    assert_eq!(field(&events[1], "date"), Some("2026-04-18"));
    assert_eq!(events[0].event, "availability_found");
    let events = agent.record_slots(vec![slot("2026-04-18"), slot("2026-04-19")], &mut found);
    assert_eq!(events.len(), 1);
    assert_eq!(field(&events[0], "date"), Some("2026-04-19"));
    assert_eq!(found.len(), 3);
}

#[test]
fn weekend_dates_come_first() {
    let agent = Agent::new(create_default_config());
    assert!(agent.is_preferred_day("2026-04-18"));
    assert!(!agent.is_preferred_day("2026-04-15"));
    assert!(!agent.is_preferred_day("someday"));
    let ordered = agent.preferred_order(&vec![slot("2026-04-15"), slot("2026-04-18"), slot("2026-04-16"), slot("2026-04-19")]);
    let dates: Vec<&str> = ordered.iter().map(|s| s.date.as_str()).collect();
    assert_eq!(dates, vec!["2026-04-18", "2026-04-19", "2026-04-15", "2026-04-16"]);
}

#[test]
fn notification_lists_up_to_three_dates() {
    let agent = Agent::new(create_default_config());
    let n = agent.notification(&vec![slot("2026-04-15"), slot("2026-04-16"), slot("2026-04-17"), slot("2026-04-18")]);
    assert_eq!(n.url, "https://ntfy.sh/myappointments");
    assert_eq!(n.title, "🎫 Seattle Public Library Availability Found!");
    assert_eq!(
        n.message,
        "Available dates:\n📅 2026-04-18 - https://spl.libcal.com/book?date=2026-04-18\n📅 2026-04-15 - https://spl.libcal.com/book?date=2026-04-15\n📅 2026-04-16 - https://spl.libcal.com/book?date=2026-04-16\n"
    );
    let mut c = create_default_config();
    c.active_site = "none".to_string();
    let n = Agent::new(c).notification(&vec![]);
    assert_eq!(n.title, "🎫 Appointment Availability Found!");
    assert_eq!(n.message, "Available dates:\n");
}

#[test]
fn booking_plan_needs_site_and_credential() {
    let agent = Agent::new(create_default_config());
    let plan = agent.booking_plan(&vec![slot("2026-04-15")]).unwrap();
    assert_eq!(plan.success_indicator, "Thank you!");
    assert_eq!(plan.credential.email, "me@example.com");
    let mut c = create_default_config();
    c.selected_credential = "nobody".to_string();
    assert_eq!(Agent::new(c).booking_plan(&vec![]).err(), Some(AgentError::NoSelectedCredential));
    let mut c = create_default_config();
    c.active_site = "nowhere".to_string();
    assert_eq!(Agent::new(c).booking_plan(&vec![]).err(), Some(AgentError::NoActiveSite));
}

#[test]
fn availability_requests_cover_calendar_months() {
    let agent = Agent::new(create_default_config());
    let date = Date::from_ymd_opt(2026, 4, 15).unwrap();
    let months = agent.availability_requests(date).unwrap();
    assert_eq!(months.len(), 2);
    assert!(months[0].url.as_ref().unwrap().contains("date=2026-04-15"));
    assert!(months[1].url.as_ref().unwrap().contains("date=2026-05-01"));
    let mut c = create_default_config();
    c.months_to_check = 3;
    let jan = Date::from_ymd_opt(2026, 1, 31).unwrap();
    let months = Agent::new(c).availability_requests(jan).unwrap();
    assert_eq!(months[1].date.unwrap().to_iso_string(), "2026-02-01");
    assert_eq!(months[2].date.unwrap().to_iso_string(), "2026-03-01");
    let mut c = create_default_config();
    c.sites[0].1.preferredslug = "nothing".to_string();
    assert_eq!(Agent::new(c).availability_requests(date).err(), Some(AgentError::NoPreferredMuseum));
    let far = Date::from_ymd_opt(262_142, 12, 15).unwrap();
    let months = agent.availability_requests(far).unwrap();
    assert!(matches!(months[1].url, Err(MonthError::DateOutOfRange)));
    assert!(months[1].date.is_none());
}

#[test]
fn slots_carry_formatted_dates() {
    let c = create_default_config();
    let site = c.get_active_site().unwrap();
    let html = r#"<a class="s-lc-pass-availability s-lc-pass-digital s-lc-pass-available" href="/passes/SAM/book?date=2026-04-15&pass=abc">15</a>"#;
    let (slots, relaxed) = availability_slots(html, site).unwrap();
    assert!(!relaxed);
    assert_eq!(slots.len(), 1);
    assert_eq!(slots[0].date, "2026-04-15");
    assert_eq!(Scraper::parse_availability(html, site).unwrap().len(), 1);
}

fn page(date: &str) -> String {
    format!(r#"<a class="s-lc-pass-availability s-lc-pass-digital s-lc-pass-available" href="/passes/SAM/book?date={}&pass=x">15</a>"#, date)
}

const EMPTY_PAGE: &str = r#"<div class="s-lc-pass-calendar"><span>none</span></div>"#;

/// Drives a fresh run of the agent up to its first check.
fn run_to_first_check(agent: &Agent) -> Run {
    let mut run = Run::new();
    let actions = agent.start_run(&mut run, "r".to_string(), &LocalTime::now());
    assert_eq!(actions.len(), 2);
    assert!(matches!(actions[1], RunAction::ReadClock));
    let far = LocalTime::now().checked_add_seconds(3 * 86_400).unwrap();
    let actions = agent.on_clock_waiting(&mut run, &far);
    assert!(matches!(&actions[0], RunAction::Emit(e) if e.event == "pre_warm_start"));
    assert!(matches!(&actions[1], RunAction::PreWarm(u) if u == "https://spl.libcal.com"));
    assert_eq!(run.phase, RunPhase::PreWarming);
    let actions = agent.on_pre_warm(&mut run, Ok(()));
    assert!(matches!(&actions[0], RunAction::Emit(e) if e.event == "pre_warm_complete"));
    let actions = agent.on_clock_waiting(&mut run, &far);
    assert_eq!(run.phase, RunPhase::Checking);
    assert!(matches!(&actions[0], RunAction::Emit(e) if e.event == "check_window_start"
        && field(e, "deadline") == Some(run.plan.unwrap().window_end.to_rfc3339().as_str())));
    run
}

#[test]
fn run_starts_and_waits_to_pre_warm() {
    let agent = Agent::new(create_default_config());
    let mut run = Run::new();
    let now = LocalTime::now();
    let actions = agent.start_run(&mut run, "run-1".to_string(), &now);
    assert_eq!(actions.len(), 2);
    let plan = run.plan.unwrap();
    match &actions[0] {
        RunAction::Emit(e) => {
            assert_eq!(e.event, "agent_start");
            assert_eq!(field(e, "run_id"), Some("run-1"));
            assert_eq!(field(e, "drop_time"), Some(plan.drop_time.to_rfc3339().as_str()));
        }
        other => panic!("unexpected {:?}", other),
    }
    assert_eq!(plan.pre_warm_deadline.timestamp(), plan.drop_time.timestamp() - 30);
    assert_eq!(run.phase, RunPhase::WaitingForPreWarm { slept: false });
    let actions = agent.on_clock_waiting(&mut run, &now);
    assert!(matches!(actions.last(), Some(RunAction::ReadClock)));
    assert_eq!(run.phase, RunPhase::WaitingForPreWarm { slept: true });
}

#[test]
fn pre_warming_is_retried_before_the_run_fails() {
    let agent = Agent::new(create_default_config());
    let mut run = run_to_first_check(&agent);
    run.phase = RunPhase::PreWarming;
    let actions = agent.on_pre_warm(&mut run, Err(TransportError::Network("refused".to_string())));
    assert!(matches!(actions[0], RunAction::SleepMillis(5000)));
    assert!(matches!(&actions[1], RunAction::PreWarm(_)));
    let actions = agent.on_pre_warm(&mut run, Err(TransportError::Timeout("slow".to_string())));
    assert!(matches!(actions[0], RunAction::SleepMillis(10000)));
    let actions = agent.on_pre_warm(&mut run, Err(TransportError::Network("refused".to_string())));
    assert!(matches!(actions[0], RunAction::SleepMillis(20000)));
    let actions = agent.on_pre_warm(&mut run, Err(TransportError::Network("refused".to_string())));
    assert!(matches!(actions[0], RunAction::SleepMillis(40000)));
    let actions = agent.on_pre_warm(&mut run, Err(TransportError::Network("refused".to_string())));
    assert_eq!(actions.len(), 1);
    assert!(matches!(&actions[0], RunAction::Fail(RunError::PreWarmFailed(m)) if m == "refused"));
    assert_eq!(run.phase, RunPhase::Finished);
}

#[test]
fn run_in_alert_mode_notifies_and_finishes() {
    let mut agent = Agent::new(create_default_config());
    let mut run = run_to_first_check(&agent);
    let actions = agent.on_clock_checking(&mut run, &LocalTime::now());
    assert_eq!(run.phase, RunPhase::AwaitingFetch);
    assert_eq!(actions.len(), 4);
    assert!(matches!(actions[0], RunAction::SleepMillis(ms) if ms <= 2000));
    assert!(matches!(&actions[1], RunAction::Emit(e) if e.event == "availability_fetch"
        && field(e, "url").unwrap().contains("date=") && field(e, "month").is_some()));
    assert!(matches!(&actions[3], RunAction::Fetch(urls) if urls.len() == 2));
    let actions = agent.on_fetched(&mut run, vec![Some(EMPTY_PAGE.to_string()), None]);
    assert!(matches!(&actions[0], RunAction::Warn(_)));
    assert!(matches!(&actions[1], RunAction::Emit(e) if e.event == "no_availability" && field(e, "date").is_some()));
    assert!(matches!(actions[2], RunAction::SleepSeconds(2)));
    assert_eq!(run.check_count, 1);
    agent.on_clock_checking(&mut run, &LocalTime::now());
    let actions = agent.on_fetched(&mut run, vec![Some(page("2026-04-15")), Some(page("2026-04-15"))]);
    assert!(matches!(&actions[0], RunAction::Emit(e) if e.event == "availability_found"));
    assert!(matches!(&actions[1], RunAction::Notify(n) if n.url == "https://ntfy.sh/myappointments"));
    assert_eq!(run.phase, RunPhase::Notifying);
    let actions = agent.on_notified(&mut run, Ok(()));
    assert!(matches!(&actions[0], RunAction::Emit(e) if e.event == "notification_sent"));
    assert!(matches!(&actions[1], RunAction::Emit(e) if e.event == "agent_finished"));
    assert!(matches!(actions[2], RunAction::Finish));
}

#[test]
fn failed_notification_stops_the_run() {
    let agent = Agent::new(create_default_config());
    let mut run = Run::new();
    run.phase = RunPhase::Notifying;
    run.notification_title = Some("t".to_string());
    let actions = agent.on_notified(&mut run, Err("503".to_string()));
    assert_eq!(actions.len(), 1);
    assert!(matches!(&actions[0], RunAction::Fail(RunError::NotificationFailed(m)) if m == "503"));
}

#[test]
fn run_expires_after_the_window() {
    let agent = Agent::new(create_default_config());
    let mut run = run_to_first_check(&agent);
    let far = LocalTime::now().checked_add_seconds(3 * 86_400).unwrap();
    let actions = agent.on_clock_checking(&mut run, &far);
    assert_eq!(actions.len(), 3);
    assert!(matches!(&actions[0], RunAction::Emit(e) if e.event == "check_window_expired"));
    assert!(matches!(actions[2], RunAction::Finish));
    assert_eq!(run.phase, RunPhase::Finished);
}

#[test]
fn run_in_booking_mode_books_found_slots() {
    let mut c = create_default_config();
    c.mode = Mode::Booking;
    let mut agent = Agent::new(c);
    let mut run = run_to_first_check(&agent);
    agent.on_clock_checking(&mut run, &LocalTime::now());
    let actions = agent.on_fetched(&mut run, vec![Some(page("2026-04-15")), None]);
    assert!(matches!(&actions[1], RunAction::Book(p) if p.slots.len() == 1));
    let actions = agent.on_bookings_done(&mut run);
    assert!(matches!(actions[1], RunAction::Finish));
}

#[test]
fn booking_tries_slots_in_order_until_one_succeeds() {
    let agent = Agent::new(create_default_config());
    let plan = agent.booking_plan(&vec![slot("2026-04-15"), slot("2026-04-18")]).unwrap();
    let (mut booking, actions) = BookingRun::start(plan);
    assert!(matches!(&actions[0], BookingAction::Emit(e) if e.event == "booking_attempt" && field(e, "date") == Some("2026-04-18")));
    assert!(matches!(&actions[1], BookingAction::Visit(u) if u.ends_with("2026-04-18")));
    let actions = booking.on_event(BookingEvent::Page(BookingPageState::Unknown("x".to_string())));
    assert!(matches!(&actions[0], BookingAction::Emit(e) if e.event == "booking_failed" && field(e, "error") == Some("Booking returned false")));
    assert!(matches!(&actions[2], BookingAction::Visit(u) if u.ends_with("2026-04-15")));
    let actions = booking.on_event(BookingEvent::Failed("timeout".to_string()));
    assert!(matches!(&actions[0], BookingAction::Emit(e) if field(e, "error") == Some("timeout")));
    assert!(matches!(actions[1], BookingAction::Done(false)));
}

#[test]
fn booking_logs_in_then_submits() {
    let agent = Agent::new(create_default_config());
    let plan = agent.booking_plan(&vec![slot("2026-04-15")]).unwrap();
    let (mut booking, _) = BookingRun::start(plan);
    let login_page = r#"<form action="https://libauth.com/form_login"><input name="auth_id" value="1"><input name="login_url" value="u"></form>"#;
    let form = create_default_config().sites[0].1.clone();
    let page = appointment_agent::booker::Booker::booking_page_state(login_page, "https://spl.libcal.com/", &form);
    let actions = booking.on_event(BookingEvent::Page(page));
    assert!(matches!(&actions[0], BookingAction::Emit(e) if e.event == "login_required"));
    assert!(matches!(&actions[1], BookingAction::LogIn(p) if p.url == "https://libauth.com/form_login"));
    let actions = booking.on_event(BookingEvent::LoggedIn(true));
    assert!(matches!(&actions[0], BookingAction::Emit(e) if e.event == "login_success"));
    assert!(matches!(&actions[1], BookingAction::Visit(_)));
    let booking_page = r#"<form id="s-lc-bform" action="/book"><input type="hidden" name="pass" value="p"></form>"#;
    let page = appointment_agent::booker::Booker::booking_page_state(booking_page, "https://spl.libcal.com/x", &form);
    let actions = booking.on_event(BookingEvent::Page(page));
    assert!(matches!(&actions[0], BookingAction::Submit(p) if p.url == "https://spl.libcal.com/book"));
    let actions = booking.on_event(BookingEvent::Submitted("<h1>Thank you!</h1>".to_string()));
    assert!(matches!(&actions[0], BookingAction::Emit(e) if e.event == "booking_success"));
    assert!(matches!(actions[1], BookingAction::Done(true)));
}

#[test]
fn run_fails_when_the_clock_is_out_of_range() {
    let agent = Agent::new(create_default_config());
    let now = LocalTime::now();
    let far = now.checked_add_seconds(appointment_agent::calendar::SAFE_TIMESTAMP - 2 * 86_400 - now.timestamp()).unwrap();
    let mut run = Run::new();
    let actions = agent.start_run(&mut run, "r".to_string(), &far);
    assert_eq!(actions.len(), 1);
    assert!(matches!(actions[0], RunAction::Fail(RunError::ClockOutOfRange)));
    assert_eq!(run.phase, RunPhase::Finished);
}

#[test]
fn run_fails_when_the_window_ends_out_of_range() {
    let mut c = create_default_config();
    c.check_window = 9_000_000_000_000;
    let agent = Agent::new(c);
    let mut run = Run::new();
    let actions = agent.start_run(&mut run, "r".to_string(), &LocalTime::now());
    assert_eq!(actions.len(), 1);
    assert!(matches!(actions[0], RunAction::Fail(RunError::TimeOutOfRange)));
    assert!(run.plan.is_none());
}

#[test]
fn booking_without_a_credential_stops_the_run() {
    let mut c = create_default_config();
    c.mode = Mode::Booking;
    c.selected_credential = "nobody".to_string();
    let mut agent = Agent::new(c);
    let mut run = Run::new();
    run.phase = RunPhase::AwaitingFetch;
    run.fetches = vec![MonthFetch { offset: 0, date: Date::from_ymd_opt(2026, 4, 15).unwrap(), url: "https://spl.libcal.com/x".to_string() }];
    let actions = agent.on_fetched(&mut run, vec![Some(page("2026-04-15"))]);
    assert_eq!(actions.len(), 2);
    assert!(matches!(&actions[0], RunAction::Emit(e) if e.event == "availability_found"));
    assert!(matches!(actions[1], RunAction::Fail(RunError::Booking(AgentError::NoSelectedCredential))));
    assert_eq!(run.phase, RunPhase::Finished);
    assert_eq!(run.check_count, 1);
}

#[test]
fn refused_login_stops_all_booking() {
    let agent = Agent::new(create_default_config());
    let plan = agent.booking_plan(&vec![slot("2026-04-15"), slot("2026-04-18")]).unwrap();
    let (mut booking, _) = BookingRun::start(plan);
    let login_page = r#"<form action="https://libauth.com/form_login"></form>"#;
    let form = create_default_config().sites[0].1.clone();
    let page = appointment_agent::booker::Booker::booking_page_state(login_page, "https://spl.libcal.com/", &form);
    booking.on_event(BookingEvent::Page(page));
    let actions = booking.on_event(BookingEvent::LoggedIn(false));
    assert_eq!(actions.len(), 2);
    assert!(matches!(&actions[0], BookingAction::Emit(e) if e.event == "booking_failed" && field(e, "error") == Some("Booking returned false")));
    assert!(matches!(actions[1], BookingAction::Done(false)));
}

#[test]
fn dry_run_posts_no_login_and_no_booking() {
    let agent = Agent::new(create_default_config()).with_dry_run(true);
    let plan = agent.booking_plan(&vec![slot("2026-04-15"), slot("2026-04-18")]).unwrap();
    assert!(plan.dry_run);
    let (mut booking, _) = BookingRun::start(plan);
    let site = create_default_config().sites[0].1.clone();
    let login_page = r#"<form action="https://libauth.com/form_login"></form>"#;
    let page = appointment_agent::booker::Booker::booking_page_state(login_page, "https://spl.libcal.com/", &site);
    let actions = booking.on_event(BookingEvent::Page(page));
    assert!(actions.iter().all(|a| !matches!(a, BookingAction::LogIn(_) | BookingAction::Submit(_))));
    assert!(matches!(&actions[0], BookingAction::Emit(e) if e.event == "booking_failed"
        && field(e, "error") == Some("Dry run: no login or booking request sent")));
    let booking_page = r#"<form id="s-lc-bform" action="/book"></form>"#;
    let page = appointment_agent::booker::Booker::booking_page_state(booking_page, "https://spl.libcal.com/x", &site);
    let actions = booking.on_event(BookingEvent::Page(page));
    assert!(actions.iter().all(|a| !matches!(a, BookingAction::LogIn(_) | BookingAction::Submit(_))));
    assert!(matches!(actions[1], BookingAction::Done(false)));
}

#[test]
fn relaxed_selector_is_reported() {
    let mut agent = Agent::new(create_default_config());
    let mut run = Run::new();
    run.phase = RunPhase::AwaitingFetch;
    run.fetches = vec![MonthFetch { offset: 0, date: Date::from_ymd_opt(2026, 4, 15).unwrap(), url: "https://spl.libcal.com/x".to_string() }];
    let html = r#"<a href="/passes/SAM/book?date=2026-04-15&pass=x">15</a>"#;
    let actions = agent.on_fetched(&mut run, vec![Some(html.to_string())]);
    assert!(matches!(&actions[0], RunAction::Warn(m) if m.ends_with("2026-04-15")));
    assert!(matches!(&actions[1], RunAction::Emit(e) if e.event == "availability_found"));
}
