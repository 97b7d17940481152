//! Agent configuration: the sites, museums and credentials the agent works
//! with, and the timing parameters of a run.

use vstd::prelude::*;
use crate::calendar::{
    LocalTime, LocalTimeView, NANOS_PER_SEC, SAFE_TIMESTAMP, SAFE_TIMESTAMP_MIN, SECS_PER_DAY,
};
use crate::text::{parse_i32, parse_i32_spec, split_char, split_spec};

verus! {

/// What the agent does once availability is found.
#[derive(Clone, Copy, Debug, PartialEq, Eq, Structural)]
pub enum Mode {
    /// Send a notification and stop.
    Alert,
    /// Try to book the found dates.
    Booking,
}

/// A library card used to log in and book.
#[derive(Clone, Debug)]
pub struct Credential {
    pub name: String,
    pub username: String,
    pub password: String,
    pub email: String,
    pub site: String,
}

impl Credential {
    /// A copy of the credential.
    pub fn duplicate(&self) -> (r: Credential)
        ensures
            r == *self,
    {
        Credential {
            name: self.name.clone(),
            username: self.username.clone(),
            password: self.password.clone(),
            email: self.email.clone(),
            site: self.site.clone(),
        }
    }
}

/// Selectors of the login form of a site.
#[derive(Clone, Debug)]
pub struct LoginForm {
    pub usernamefield: String,
    pub passwordfield: String,
    pub submitbutton: String,
    pub csrfselector: String,
    pub authidselector: String,
    pub loginurlselector: String,
}

/// Fields of the booking form of a site.
#[derive(Clone, Debug)]
pub struct BookingForm {
    pub actionurl: String,
    pub emailfield: String,
}

/// A museum whose passes a site offers.
#[derive(Clone, Debug)]
pub struct Museum {
    pub name: String,
    pub slug: String,
    pub museumid: String,
}

/// A LibCal site: where to query availability and how its pages look.
///
/// `museums` lists the museums by slug; a lookup takes the first entry whose
/// slug matches.
#[derive(Clone, Debug)]
pub struct Site {
    pub name: String,
    pub baseurl: String,
    pub availabilityendpoint: String,
    pub digital: bool,
    pub physical: bool,
    pub location: String,
    pub bookinglinkselector: String,
    pub successindicator: String,
    pub loginform: LoginForm,
    pub bookingform: BookingForm,
    pub museums: Vec<(String, Museum)>,
    pub preferredslug: String,
}

/// The names the site, museum and form sections also go by.
pub type SiteConfig = Site;

pub type LoginFormConfig = LoginForm;

pub type BookingFormConfig = BookingForm;

pub type MuseumConfig = Museum;

/// The agent's whole configuration. Durations are whole seconds: the agent
/// reads every duration of the configuration in whole seconds.
#[derive(Clone, Debug)]
pub struct Config {
    pub active_site: String,
    pub mode: Mode,
    pub preferred_days: Vec<String>,
    pub strike_time: String,
    pub check_window: u64,
    pub check_interval: u64,
    pub pre_warm_offset: u64,
    pub request_jitter: u64,
    pub months_to_check: u32,
    pub rest_cycle_checks: u32,
    pub rest_cycle_duration: u64,
    pub ntfy_topic: String,
    pub credentials: Vec<(String, Credential)>,
    pub selected_credential: String,
    pub sites: Vec<(String, Site)>,
}

/// The value of the first entry whose key is `key`.
pub open spec fn lookup<V>(entries: Seq<(String, V)>, key: Seq<char>) -> Option<V>
    decreases entries.len(),
{
    if entries.len() == 0 {
        None
    } else if entries[0].0@ == key {
        Some(entries[0].1)
    } else {
        lookup(entries.drop_first(), key)
    }
}

/// The first entry whose key is `key`.
pub open spec fn lookup_entry<V>(entries: Seq<(String, V)>, key: Seq<char>) -> Option<(String, V)>
    decreases entries.len(),
{
    if entries.len() == 0 {
        None
    } else if entries[0].0@ == key {
        Some(entries[0])
    } else {
        lookup_entry(entries.drop_first(), key)
    }
}

proof fn lemma_lookup_found<V>(entries: Seq<(String, V)>, key: Seq<char>, i: int)
    requires
        0 <= i < entries.len(),
        entries[i].0@ == key,
        forall|j: int| 0 <= j < i ==> entries[j].0@ != key,
    ensures
        lookup(entries, key) == Some(entries[i].1),
        lookup_entry(entries, key) == Some(entries[i]),
    decreases i,
{
    if i > 0 {
        lemma_lookup_found(entries.drop_first(), key, i - 1);
    }
}

proof fn lemma_lookup_missing<V>(entries: Seq<(String, V)>, key: Seq<char>)
    requires
        forall|j: int| 0 <= j < entries.len() ==> entries[j].0@ != key,
    ensures
        lookup(entries, key) is None,
        lookup_entry(entries, key) is None,
    decreases entries.len(),
{
    if entries.len() > 0 {
        lemma_lookup_missing(entries.drop_first(), key);
    }
}

/// No key occurs twice, as in the maps the configuration file holds.
pub open spec fn keys_unique<V>(entries: Seq<(String, V)>) -> bool {
    forall|i: int, j: int| 0 <= i < j < entries.len() ==> entries[i].0@ != entries[j].0@
}

/// Law: in entries with unique keys, a lookup finds the one entry with the
/// key asked for, wherever it stands.
pub proof fn law_lookup_finds_the_entry<V>(entries: Seq<(String, V)>, i: int)
    requires
        keys_unique(entries),
        0 <= i < entries.len(),
    ensures
        lookup(entries, entries[i].0@) == Some(entries[i].1),
        lookup_entry(entries, entries[i].0@) == Some(entries[i]),
{
    lemma_lookup_found(entries, entries[i].0@, i);
}

/// Whether no key occurs twice.
pub fn unique_keys<V>(entries: &Vec<(String, V)>) -> (r: bool)
    ensures
        r == keys_unique(entries@),
{
    let mut i: usize = 0;
    while i < entries.len()
        invariant
            i <= entries@.len(),
            forall|a: int, b: int| 0 <= a < b < entries@.len() && a < i ==> entries@[a].0@
                != entries@[b].0@,
        decreases entries@.len() - i,
    {
        let mut j: usize = i + 1;
        while j < entries.len()
            invariant
                i < entries@.len(),
                i + 1 <= j <= entries@.len(),
                forall|a: int, b: int| 0 <= a < b < entries@.len() && a < i ==> entries@[a].0@
                    != entries@[b].0@,
                forall|b: int| i < b < j ==> entries@[i as int].0@ != entries@[b].0@,
            decreases entries@.len() - j,
        {
            if entries[i].0 == entries[j].0 {
                return false;
            }
            j = j + 1;
        }
        i = i + 1;
    }
    true
}

/// The index of the first entry whose key is `key`.
pub(crate) fn find_key<V>(entries: &Vec<(String, V)>, key: &String) -> (r: Option<usize>)
    ensures
        match r {
            Some(i) => i < entries@.len() && lookup(entries@, key@) == Some(entries@[i as int].1)
                && lookup_entry(entries@, key@) == Some(entries@[i as int]) && entries@[i as int].0@
                == key@ && forall|j: int| 0 <= j < i ==> entries@[j].0@ != key@,
            None => lookup(entries@, key@) is None && lookup_entry(entries@, key@) is None && forall|
                j: int,
            |
                0 <= j < entries@.len() ==> entries@[j].0@ != key@,
        },
{
    let mut i: usize = 0;
    while i < entries.len()
        invariant
            i <= entries@.len(),
            forall|j: int| 0 <= j < i ==> entries@[j].0@ != key@,
        decreases entries@.len() - i,
    {
        if entries[i].0 == *key {
            proof {
                lemma_lookup_found(entries@, key@, i as int);
            }
            return Some(i);
        }
        i = i + 1;
    }
    proof {
        lemma_lookup_missing(entries@, key@);
    }
    None
}

impl Config {
    /// No site, credential or museum of a site is named twice.
    pub open spec fn wf(&self) -> bool {
        &&& keys_unique(self.sites@)
        &&& keys_unique(self.credentials@)
        &&& forall|i: int| 0 <= i < self.sites@.len() ==> keys_unique(#[trigger] self.sites@[i].1.museums@)
    }

    /// Whether no site, credential or museum of a site is named twice.
    pub fn has_unique_keys(&self) -> (r: bool)
        ensures
            r == self.wf(),
    {
        if !unique_keys(&self.sites) || !unique_keys(&self.credentials) {
            return false;
        }
        let mut i: usize = 0;
        while i < self.sites.len()
            invariant
                i <= self.sites@.len(),
                forall|k: int| 0 <= k < i ==> keys_unique(#[trigger] self.sites@[k].1.museums@),
            decreases self.sites@.len() - i,
        {
            if !unique_keys(&self.sites[i].1.museums) {
                return false;
            }
            i = i + 1;
        }
        true
    }
}

/// The hour and minute of an `HH:MM` strike time: exactly one `:`, with an
/// `i32` on each side.
pub open spec fn strike_hour_minute(text: Seq<char>) -> Option<(int, int)> {
    let parts = split_spec(text, ':');
    if parts.len() == 2 {
        match (parse_i32_spec(parts[0]), parse_i32_spec(parts[1])) {
            (Some(h), Some(m)) => Some((h, m)),
            _ => None,
        }
    } else {
        None
    }
}

/// Parses an `HH:MM` strike time.
pub fn parse_strike_time(text: &str) -> (r: Option<(i32, i32)>)
    ensures
        match r {
            Some((h, m)) => strike_hour_minute(text@) == Some((h as int, m as int)),
            None => strike_hour_minute(text@) is None,
        },
{
    let parts = split_char(text, ':');
    proof {
        assert(crate::text::string_views(parts@).len() == parts@.len());
    }
    if parts.len() != 2 {
        return None;
    }
    proof {
        assert(crate::text::string_views(parts@)[0] == parts@[0]@);
        assert(crate::text::string_views(parts@)[1] == parts@[1]@);
    }
    match (parse_i32(parts[0].as_str()), parse_i32(parts[1].as_str())) {
        (Some(h), Some(m)) => Some((h, m)),
        _ => None,
    }
}

/// The hour and minute of a strike time that names a time of day.
pub open spec fn strike_of_day(text: Seq<char>) -> Option<(int, int)> {
    match strike_hour_minute(text) {
        Some((h, m)) => if 0 <= h < 24 && 0 <= m < 60 {
            Some((h, m))
        } else {
            None
        },
        None => None,
    }
}

/// `t` is `hour:minute:00.000000000` on `day`'s local date.
pub open spec fn at_strike(t: LocalTimeView, day: LocalTimeView, hour: int, minute: int) -> bool {
    &&& t.wf()
    &&& t.date == day.date
    &&& t.hour == hour
    &&& t.minute == minute
    &&& t.second == 0
    &&& t.nanosecond == 0
}

/// `later` is exactly one day after `earlier`.
pub open spec fn one_day_after(later: LocalTimeView, earlier: LocalTimeView) -> bool {
    later.wf() && later.instant() == earlier.instant() + SECS_PER_DAY * NANOS_PER_SEC
}

/// A drop time together with the strike moment on the clock's local date it
/// was computed from (`None` where the strike time names no time of day,
/// or that local time does not exist there).
#[derive(Clone, Copy, Debug)]
pub struct DropTime {
    pub strike_moment: Option<LocalTime>,
    pub time: LocalTime,
}

/// The drop time for `strike` seen from the clock reading `now`: the strike
/// moment on `now`'s local date (seconds and nanoseconds zero) where it is
/// later than `now`, one day after it where it is not, and one day after
/// `now` where there is no strike moment.
pub open spec fn is_drop_time(d: DropTime, strike: Seq<char>, now: LocalTimeView) -> bool {
    &&& d.time@.wf()
    &&& match strike_of_day(strike) {
        Some((h, m)) => match d.strike_moment {
            Some(c) => at_strike(c@, now, h, m) && if now.instant() < c@.instant() {
                d.time@ == c@
            } else {
                one_day_after(d.time@, c@)
            },
            None => one_day_after(d.time@, now),
        },
        None => d.strike_moment is None && one_day_after(d.time@, now),
    }
}

/// A clock reading the drop time can be computed from.
pub open spec fn clock_reading_ok(now: LocalTimeView) -> bool {
    now.wf() && SAFE_TIMESTAMP_MIN + 4 * SECS_PER_DAY <= now.timestamp <= SAFE_TIMESTAMP - 4
        * SECS_PER_DAY
}

/// Two local times on one local date are less than three days apart.
proof fn lemma_same_local_date(a: LocalTimeView, b: LocalTimeView)
    requires
        a.wf(),
        b.wf(),
        a.date == b.date,
    ensures
        b.timestamp - 3 * SECS_PER_DAY < a.timestamp < b.timestamp + 3 * SECS_PER_DAY,
{
    let la = a.timestamp + a.offset;
    let lb = b.timestamp + b.offset;
    assert(la / 86400 == lb / 86400);
    assert(la - 86400 < lb < la + 86400) by (nonlinear_arith)
        requires
            la / 86400 == lb / 86400,
    ;
}

/// The strike moment on `now`'s local date, for a strike time `hour:minute`.
fn strike_moment_at(now: &LocalTime, hour: i32, minute: i32) -> (r: Option<LocalTime>)
    requires
        now@.wf(),
        0 <= hour < 24,
        0 <= minute < 60,
    ensures
        r matches Some(c) ==> at_strike(c@, now@, hour as int, minute as int),
{
    let t1 = match now.with_hour(hour as u32) {
        Some(t) => t,
        None => return None,
    };
    let t2 = match t1.with_minute(minute as u32) {
        Some(t) => t,
        None => return None,
    };
    let t3 = match t2.with_second(0) {
        Some(t) => t,
        None => return None,
    };
    t3.at_whole_second()
}

impl Config {
    /// The site named by `active_site`.
    pub fn get_active_site(&self) -> (r: Option<&Site>)
        ensures
            match lookup(self.sites@, self.active_site@) {
                Some(site) => r matches Some(x) && *x == site,
                None => r is None,
            },
    {
        match find_key(&self.sites, &self.active_site) {
            Some(i) => Some(&self.sites[i].1),
            None => None,
        }
    }

    /// The credential named by `selected_credential`.
    pub fn get_selected_credential(&self) -> (r: Option<&Credential>)
        ensures
            match lookup(self.credentials@, self.selected_credential@) {
                Some(cred) => r matches Some(x) && *x == cred,
                None => r is None,
            },
    {
        match find_key(&self.credentials, &self.selected_credential) {
            Some(i) => Some(&self.credentials[i].1),
            None => None,
        }
    }

    /// The active site's preferred museum with its slug.
    pub fn get_preferred_museum(&self) -> (r: Option<(&str, &Museum)>)
        ensures
            match lookup(self.sites@, self.active_site@) {
                None => r is None,
                Some(site) => match lookup_entry(site.museums@, site.preferredslug@) {
                    None => r is None,
                    Some(entry) => r matches Some((slug, museum)) && slug@ == entry.0@ && *museum
                        == entry.1,
                },
            },
    {
        match self.get_active_site() {
            Some(site) => match find_key(&site.museums, &site.preferredslug) {
                Some(i) => Some((site.museums[i].0.as_str(), &site.museums[i].1)),
                None => None,
            },
            None => None,
        }
    }

    /// The drop time for the strike time, seen from `now`, with the strike
    /// moment it was computed from.
    pub fn drop_time_at(&self, now: &LocalTime) -> (r: DropTime)
        requires
            clock_reading_ok(now@),
        ensures
            is_drop_time(r, self.strike_time@, now@),
    {
        let moment = match parse_strike_time(self.strike_time.as_str()) {
            Some((h, m)) => if 0 <= h && h < 24 && 0 <= m && m < 60 {
                strike_moment_at(now, h, m)
            } else {
                None
            },
            None => None,
        };
        proof {
            if let Some(c) = moment {
                lemma_same_local_date(c@, now@);
            }
        }
        let time = match moment {
            Some(c) => {
                if now.is_before(&c) {
                    c
                } else {
                    match c.checked_add_seconds(SECS_PER_DAY) {
                        Some(next) => next,
                        None => {
                            assert(false);
                            c
                        },
                    }
                }
            },
            None => match now.checked_add_seconds(SECS_PER_DAY) {
                Some(next) => next,
                None => {
                    assert(false);
                    *now
                },
            },
        };
        DropTime { strike_moment: moment, time }
    }

    /// The drop time seen from the current local time, with the clock
    /// reading it was computed from. `None` only where the clock reads within
    /// five days of an end of chrono's range.
    pub fn calculate_drop_time(&self) -> (r: (LocalTime, Option<DropTime>))
        ensures
            r.0@.wf(),
            r.1 is Some <==> clock_reading_ok(r.0@),
            r.1 matches Some(d) ==> is_drop_time(d, self.strike_time@, r.0@),
    {
        let now = LocalTime::now();
        let ts = now.timestamp();
        if SAFE_TIMESTAMP_MIN + 4 * SECS_PER_DAY <= ts && ts <= SAFE_TIMESTAMP - 4 * SECS_PER_DAY {
            let d = self.drop_time_at(&now);
            (now, Some(d))
        } else {
            (now, None)
        }
    }
}

/// The configuration used when none can be loaded: the Seattle Public
/// Library with the Seattle Art Museum, alert mode on weekends at 09:00.
pub fn create_default_config() -> (c: Config)
    ensures
        c.active_site@ == "spl"@,
        c.mode == Mode::Alert,
        crate::text::string_views(c.preferred_days@) == seq!["Saturday"@, "Sunday"@],
        c.strike_time@ == "09:00"@,
        c.check_window == 60,
        c.check_interval == 2,
        c.pre_warm_offset == 30,
        c.request_jitter == 2,
        c.months_to_check == 2,
        c.rest_cycle_checks == 20,
        c.rest_cycle_duration == 3,
        c.ntfy_topic@ == "myappointments"@,
        c.selected_credential@ == "my_card"@,
        c.credentials@.len() == 1,
        c.credentials@[0].0@ == "my_card"@,
        c.credentials@[0].1.name@ == "My Library Card"@,
        c.credentials@[0].1.username@ == "123456"@,
        c.credentials@[0].1.password@ == "PIN"@,
        c.credentials@[0].1.email@ == "me@example.com"@,
        c.credentials@[0].1.site@ == "spl"@,
        c.sites@.len() == 1,
        c.sites@[0].0@ == "spl"@,
        c.sites@[0].1.name@ == "Seattle Public Library"@,
        c.sites@[0].1.baseurl@ == "https://spl.libcal.com"@,
        c.sites@[0].1.availabilityendpoint@ == "/pass/availability/institution"@,
        c.sites@[0].1.digital,
        !c.sites@[0].1.physical,
        c.sites@[0].1.location@ == "0"@,
        c.sites@[0].1.bookinglinkselector@
            == "a.s-lc-pass-availability.s-lc-pass-digital.s-lc-pass-available"@,
        c.sites@[0].1.successindicator@ == "Thank you!"@,
        c.sites@[0].1.loginform.usernamefield@ == "username"@,
        c.sites@[0].1.loginform.passwordfield@ == "password"@,
        c.sites@[0].1.loginform.submitbutton@ == "submit"@,
        c.sites@[0].1.loginform.csrfselector@ == Seq::<char>::empty(),
        c.sites@[0].1.loginform.authidselector@ == "input[name='auth_id']"@,
        c.sites@[0].1.loginform.loginurlselector@ == "input[name='login_url']"@,
        c.sites@[0].1.bookingform.actionurl@ == Seq::<char>::empty(),
        c.sites@[0].1.bookingform.emailfield@ == "email"@,
        c.sites@[0].1.museums@.len() == 1,
        c.sites@[0].1.museums@[0].0@ == "sam"@,
        c.sites@[0].1.museums@[0].1.name@ == "Seattle Art Museum"@,
        c.sites@[0].1.museums@[0].1.slug@ == "SAM"@,
        c.sites@[0].1.museums@[0].1.museumid@ == "7f2ac5c414b2"@,
        c.sites@[0].1.preferredslug@ == "sam"@,
        lookup(c.sites@, c.active_site@) == Some(c.sites@[0].1),
        lookup_entry(c.sites@[0].1.museums@, c.sites@[0].1.preferredslug@) == Some(
            c.sites@[0].1.museums@[0],
        ),
        lookup(c.credentials@, c.selected_credential@) == Some(c.credentials@[0].1),
        c.wf(),
{
    let mut museums: Vec<(String, Museum)> = Vec::new();
    museums.push(
        (
            "sam".to_owned(),
            Museum {
                name: "Seattle Art Museum".to_owned(),
                slug: "SAM".to_owned(),
                museumid: "7f2ac5c414b2".to_owned(),
            },
        ),
    );
    let site = Site {
        name: "Seattle Public Library".to_owned(),
        baseurl: "https://spl.libcal.com".to_owned(),
        availabilityendpoint: "/pass/availability/institution".to_owned(),
        digital: true,
        physical: false,
        location: "0".to_owned(),
        bookinglinkselector: "a.s-lc-pass-availability.s-lc-pass-digital.s-lc-pass-available".to_owned(),
        successindicator: "Thank you!".to_owned(),
        loginform: LoginForm {
            usernamefield: "username".to_owned(),
            passwordfield: "password".to_owned(),
            submitbutton: "submit".to_owned(),
            csrfselector: String::new(),
            authidselector: "input[name='auth_id']".to_owned(),
            loginurlselector: "input[name='login_url']".to_owned(),
        },
        bookingform: BookingForm { actionurl: String::new(), emailfield: "email".to_owned() },
        museums,
        preferredslug: "sam".to_owned(),
    };
    let mut sites: Vec<(String, Site)> = Vec::new();
    sites.push(("spl".to_owned(), site));
    let mut credentials: Vec<(String, Credential)> = Vec::new();
    credentials.push(
        (
            "my_card".to_owned(),
            Credential {
                name: "My Library Card".to_owned(),
                username: "123456".to_owned(),
                password: "PIN".to_owned(),
                email: "me@example.com".to_owned(),
                site: "spl".to_owned(),
            },
        ),
    );
    let mut preferred_days: Vec<String> = Vec::new();
    preferred_days.push("Saturday".to_owned());
    preferred_days.push("Sunday".to_owned());
    let c = Config {
        active_site: "spl".to_owned(),
        mode: Mode::Alert,
        preferred_days,
        strike_time: "09:00".to_owned(),
        check_window: 60,
        check_interval: 2,
        pre_warm_offset: 30,
        request_jitter: 2,
        months_to_check: 2,
        rest_cycle_checks: 20,
        rest_cycle_duration: 3,
        ntfy_topic: "myappointments".to_owned(),
        credentials,
        selected_credential: "my_card".to_owned(),
        sites,
    };
    assert(crate::text::string_views(c.preferred_days@) =~= seq!["Saturday"@, "Sunday"@]);
    proof {
        lemma_lookup_found(c.sites@, c.active_site@, 0);
        lemma_lookup_found(c.sites@[0].1.museums@, c.sites@[0].1.preferredslug@, 0);
        lemma_lookup_found(c.credentials@, c.selected_credential@, 0);
    }
    c
}

} // verus!
