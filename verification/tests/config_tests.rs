use appointment_agent::calendar::LocalTime;
use appointment_agent::config::{create_default_config, parse_strike_time, Mode};

#[test]
fn default_config_values() {
    let c = create_default_config();
    assert_eq!(c.active_site, "spl");
    assert_eq!(c.mode, Mode::Alert);
    assert_eq!(c.preferred_days, vec!["Saturday".to_string(), "Sunday".to_string()]);
    assert_eq!(c.strike_time, "09:00");
    assert_eq!(c.check_window, 60);
    assert_eq!(c.months_to_check, 2);
    assert_eq!(c.ntfy_topic, "myappointments");
}

#[test]
fn default_config_resolves_site_museum_and_credential() {
    let c = create_default_config();
    let site = c.get_active_site().unwrap();
    assert_eq!(site.name, "Seattle Public Library");
    let (slug, museum) = c.get_preferred_museum().unwrap();
    assert_eq!(slug, "sam");
    assert_eq!(museum.museumid, "7f2ac5c414b2");
    let cred = c.get_selected_credential().unwrap();
    assert_eq!(cred.username, "123456");
}

#[test]
fn lookups_fail_for_unknown_names() {
    let mut c = create_default_config();
    c.active_site = "kcls".to_string();
    c.selected_credential = "other".to_string();
    assert!(c.get_active_site().is_none());
    assert!(c.get_preferred_museum().is_none());
    assert!(c.get_selected_credential().is_none());
    let mut c = create_default_config();
    c.sites[0].1.preferredslug = "kidsquest".to_string();
    assert!(c.get_active_site().is_some());
    assert!(c.get_preferred_museum().is_none());
}

#[test]
fn strike_times_parse_as_hour_and_minute() {
    assert_eq!(parse_strike_time("09:00"), Some((9, 0)));
    assert_eq!(parse_strike_time("23:59"), Some((23, 59)));
    assert_eq!(parse_strike_time("+7:-1"), Some((7, -1)));
    assert_eq!(parse_strike_time("9"), None);
    assert_eq!(parse_strike_time("9:00:00"), None);
    assert_eq!(parse_strike_time("a:b"), None);
}

#[test]
fn drop_time_is_the_next_strike_moment() {
    let c = create_default_config();
    let now = LocalTime::now();
    let d = c.drop_time_at(&now);
    let drop = d.time;
    assert!(now.is_before(&drop));
    let moment = d.strike_moment.expect("09:00 exists on today's date");
    assert_eq!((moment.hour(), moment.minute(), moment.second(), moment.nanosecond()), (9, 0, 0, 0));
    assert_eq!(moment.date().to_iso_string(), now.date().to_iso_string());
    if now.is_before(&moment) {
        assert_eq!(drop.timestamp(), moment.timestamp());
    } else {
        assert_eq!(drop.timestamp(), moment.timestamp() + 86_400);
    }
    assert_eq!(drop.nanosecond(), 0);
    let day_and_hour = now.checked_add_seconds(25 * 3600).unwrap();
    assert!(drop.is_before(&day_and_hour));
    let (clock, computed) = c.calculate_drop_time();
    let computed = computed.unwrap();
    assert_eq!(computed.strike_moment.unwrap().date().to_iso_string(), clock.date().to_iso_string());
}

#[test]
fn unreadable_strike_time_drops_a_day_later() {
    let mut c = create_default_config();
    c.strike_time = "nine".to_string();
    let now = LocalTime::now();
    let d = c.drop_time_at(&now);
    assert!(d.strike_moment.is_none());
    assert_eq!(d.time.timestamp(), now.timestamp() + 86_400);
    c.strike_time = "25:00".to_string();
    let d = c.drop_time_at(&now);
    assert!(d.strike_moment.is_none());
    assert_eq!(d.time.timestamp(), now.timestamp() + 86_400);
}

#[test]
fn configuration_names_each_entry_once() {
    let mut c = create_default_config();
    assert!(c.has_unique_keys());
    let again = c.credentials[0].clone();
    c.credentials.push(again);
    assert!(!c.has_unique_keys());
}
