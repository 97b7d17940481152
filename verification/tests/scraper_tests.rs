use appointment_agent::calendar::Date;
use appointment_agent::config::{BookingFormConfig, LoginFormConfig, SiteConfig};
use appointment_agent::scraper::Scraper;

fn mock_site() -> SiteConfig {
    SiteConfig {
        name: "Test Library".into(),
        baseurl: "https://test.libcal.com".into(),
        availabilityendpoint: "/pass/availability".into(),
        digital: true,
        physical: false,
        location: "0".into(),
        bookinglinkselector: "a.s-lc-pass-available".into(),
        successindicator: "Thank you!".into(),
        loginform: LoginFormConfig {
            usernamefield: "u".into(),
            passwordfield: "p".into(),
            submitbutton: "s".into(),
            csrfselector: "".into(),
            authidselector: "input[name='auth_id']".into(),
            loginurlselector: "input[name='login_url']".into(),
        },
        bookingform: BookingFormConfig {
            actionurl: "".into(),
            emailfield: "email".into(),
        },
        museums: Vec::new(),
        preferredslug: "sam".into(),
    }
}

#[test]
fn test_url_construction() {
    let site = mock_site();
    let date = Date::from_ymd_opt(2026, 4, 15).unwrap();
    let url = Scraper::build_availability_url(&site, "7f2ac5c414b2", date).unwrap();

    assert!(url.contains("date=2026-04-15"));
    assert!(url.contains("museum=7f2ac5c414b2"));
    assert!(url.contains("digital=true"));
}

#[test]
fn test_parsing() {
    let site = mock_site();
    let html = r#"
            <div class="day day-2026-04-15">
                <a href="/passes/SAM/book?date=2026-04-15&pass=abc" class="s-lc-pass-available">15</a>
            </div>
        "#;

    let results = Scraper::parse_availability(html, &site).unwrap();
    assert_eq!(results.len(), 1);
    assert_eq!(results[0].date.to_iso_string(), "2026-04-15");
    assert_eq!(results[0].booking_url, "https://test.libcal.com/passes/SAM/book?date=2026-04-15&pass=abc");
}

#[test]
fn test_scraper_url_builder() {
    let site = SiteConfig {
        name: "Test Site".into(),
        baseurl: "https://example.com".into(),
        availabilityendpoint: "/avail".into(),
        digital: true,
        physical: false,
        location: "0".into(),
        bookinglinkselector: "a".into(),
        successindicator: "Success".into(),
        loginform: LoginFormConfig {
            usernamefield: "u".into(),
            passwordfield: "p".into(),
            submitbutton: "s".into(),
            csrfselector: "".into(),
            authidselector: "auth".into(),
            loginurlselector: "url".into(),
        },
        bookingform: BookingFormConfig {
            actionurl: "".into(),
            emailfield: "e".into(),
        },
        museums: Vec::new(),
        preferredslug: "test".into(),
    };

    let date = Date::from_ymd_opt(2026, 4, 15).unwrap();
    let url = Scraper::build_availability_url(&site, "museum123", date).unwrap();

    assert!(url.contains("museum=museum123"));
    assert!(url.contains("date=2026-04-15"));
}

#[test]
fn test_config_loading_and_logic() {
    let date = Date::from_ymd_opt(2026, 4, 15).unwrap();
    assert_eq!(date.to_iso_string(), "2026-04-15");
}
