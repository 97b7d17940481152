//! Availability URLs and the parsing of LibCal pages.

use vstd::prelude::*;
use crate::calendar::{date_text, parsed_iso_date, Date};
use crate::config::{BookingForm, LoginForm, Site};
use crate::html::{element_view, element_views, html_select, ElementView, SelectedElement, selected_elements};
use crate::text::{contains, contains_spec, string_views, trim, trim_spec};
use crate::urls::{
    append_pairs, first_query_value, is_url, joined_url, pair_views, parsed_url, query_value,
    url_join, url_parse, url_query_pairs, url_with_pairs,
};

verus! {

/// Why a page or URL could not be processed.
#[derive(Clone, Debug)]
pub enum ScrapeError {
    /// The site's base URL does not parse.
    InvalidBaseUrl(String),
    /// The availability endpoint does not resolve against the base URL.
    InvalidEndpoint(String),
    /// The booking link selector is no valid CSS selector.
    InvalidSelector(String),
    /// A booking link does not resolve against the base URL.
    InvalidBookingUrl(String),
}

/// A bookable day found on an availability page.
#[derive(Clone, Debug)]
pub struct Availability {
    pub date: Date,
    pub booking_url: String,
    pub day_text: String,
}

/// The pages of a LibCal site: availability URLs and page parsing.
pub struct Scraper;

/// `bool::to_string`.
pub open spec fn bool_text(b: bool) -> Seq<char> {
    if b {
        "true"@
    } else {
        "false"@
    }
}

/// The query of an availability request, in order.
pub open spec fn availability_query(site: Site, museum_id: Seq<char>, date: (int, int, int)) -> Seq<
    (Seq<char>, Seq<char>),
> {
    seq![
        ("museum"@, museum_id),
        ("date"@, date_text(date)),
        ("digital"@, bool_text(site.digital)),
        ("physical"@, bool_text(site.physical)),
        ("location"@, site.location@),
    ]
}

/// The availability URL: the base URL followed by the endpoint, parsed, with
/// the query appended; `None` where that text is no URL.
pub open spec fn availability_url(site: Site, museum_id: Seq<char>, date: (int, int, int)) -> Option<
    Seq<char>,
> {
    match parsed_url(site.baseurl@ + site.availabilityendpoint@) {
        Some(endpoint) => Some(url_with_pairs(endpoint, availability_query(site, museum_id, date))),
        None => None,
    }
}

fn bool_string(b: bool) -> (r: String)
    ensures
        r@ == bool_text(b),
{
    if b {
        "true".to_owned()
    } else {
        "false".to_owned()
    }
}

/// The result of building an availability URL: the URL, or which part of
/// the site is invalid.
pub open spec fn is_availability_url_result(
    site: Site,
    museum_id: Seq<char>,
    date: (int, int, int),
    r: Result<String, ScrapeError>,
) -> bool {
    match (parsed_url(site.baseurl@), availability_url(site, museum_id, date)) {
        (None, _) => r matches Err(ScrapeError::InvalidBaseUrl(u)) && u@ == site.baseurl@,
        (Some(_), None) => r matches Err(ScrapeError::InvalidEndpoint(e)) && e@
            == site.availabilityendpoint@,
        (Some(_), Some(url)) => r matches Ok(u) && u@ == url,
    }
}

impl Scraper {
    /// `{baseurl}{availabilityendpoint}?museum=..&date=YYYY-MM-DD&digital=..&physical=..&location=..`:
    /// the base URL followed by the endpoint, with the query appended.
    pub fn build_availability_url(site: &Site, museum_id: &str, date: Date) -> (r: Result<
        String,
        ScrapeError,
    >)
        ensures
            is_availability_url_result(*site, museum_id@, date@, r),
            r matches Ok(u) ==> (parsed_url(site.baseurl@ + site.availabilityendpoint@) matches Some(
                endpoint,
            ) && url_query_pairs(u@) == url_query_pairs(endpoint) + availability_query(
                *site,
                museum_id@,
                date@,
            )),
    {
        if url_parse(site.baseurl.as_str()).is_none() {
            return Err(ScrapeError::InvalidBaseUrl(site.baseurl.clone()));
        }
        let mut text = site.baseurl.clone();
        text.append(site.availabilityendpoint.as_str());
        let endpoint = match url_parse(text.as_str()) {
            Some(u) => u,
            None => return Err(ScrapeError::InvalidEndpoint(site.availabilityendpoint.clone())),
        };
        let mut pairs: Vec<(String, String)> = Vec::new();
        pairs.push(("museum".to_owned(), museum_id.to_owned()));
        pairs.push(("date".to_owned(), date.to_iso_string()));
        pairs.push(("digital".to_owned(), bool_string(site.digital)));
        pairs.push(("physical".to_owned(), bool_string(site.physical)));
        pairs.push(("location".to_owned(), site.location.clone()));
        assert(pair_views(pairs@) =~= availability_query(*site, museum_id@, date@));
        Ok(append_pairs(endpoint.as_str(), &pairs))
    }
}

/// Law: an availability URL reads back what was written into it: where
/// the endpoint's own query names none of the five parameters, the first
/// value of each parameter in the URL's query is the one the site, museum
/// and date give.
pub proof fn law_availability_query_reads_back(
    endpoint_pairs: Seq<(Seq<char>, Seq<char>)>,
    site: Site,
    museum_id: Seq<char>,
    date: (int, int, int),
)
    requires
        forall|j: int|
            0 <= j < endpoint_pairs.len() ==> {
                let k = #[trigger] endpoint_pairs[j].0;
                &&& k != "museum"@
                &&& k != "date"@
                &&& k != "digital"@
                &&& k != "physical"@
                &&& k != "location"@
            },
    ensures
        ({
            let pairs = endpoint_pairs + availability_query(site, museum_id, date);
            &&& first_query_value(pairs, "museum"@) == Some(museum_id)
            &&& first_query_value(pairs, "date"@) == Some(date_text(date))
            &&& first_query_value(pairs, "digital"@) == Some(bool_text(site.digital))
            &&& first_query_value(pairs, "physical"@) == Some(bool_text(site.physical))
            &&& first_query_value(pairs, "location"@) == Some(site.location@)
        }),
{
    let q = availability_query(site, museum_id, date);
    let pairs = endpoint_pairs + q;
    let n = endpoint_pairs.len() as int;
    reveal_strlit("museum");
    reveal_strlit("date");
    reveal_strlit("digital");
    reveal_strlit("physical");
    reveal_strlit("location");
    assert(pairs.skip(n) =~= q);
    assert forall|key: Seq<char>|
        key == "museum"@ || key == "date"@ || key == "digital"@ || key == "physical"@ || key
            == "location"@ implies first_query_value(pairs, key) == first_query_value(q, key) by {
        assert forall|j: int| 0 <= j < n implies pairs[j].0 != key by {
            assert(pairs[j] == endpoint_pairs[j]);
        }
        crate::urls::lemma_first_query_value(pairs, key, n);
    }
    assert("museum"@.len() == 6 && "date"@.len() == 4 && "digital"@.len() == 7);
    assert("physical"@.len() == 8 && "location"@.len() == 8);
    assert("physical"@[0] != "location"@[0]);
    let q1 = q.drop_first();
    let q2 = q1.drop_first();
    let q3 = q2.drop_first();
    let q4 = q3.drop_first();
    assert(q1[0] == q[1] && q2[0] == q[2] && q3[0] == q[3] && q4[0] == q[4]);
    assert(first_query_value(q, "museum"@) == Some(museum_id));
    assert(first_query_value(q1, "date"@) == Some(date_text(date)));
    assert(first_query_value(q, "date"@) == first_query_value(q1, "date"@));
    assert(first_query_value(q2, "digital"@) == Some(bool_text(site.digital)));
    assert(first_query_value(q1, "digital"@) == first_query_value(q2, "digital"@));
    assert(first_query_value(q, "digital"@) == first_query_value(q1, "digital"@));
    assert(first_query_value(q3, "physical"@) == Some(bool_text(site.physical)));
    assert(first_query_value(q2, "physical"@) == first_query_value(q3, "physical"@));
    assert(first_query_value(q1, "physical"@) == first_query_value(q2, "physical"@));
    assert(first_query_value(q, "physical"@) == first_query_value(q1, "physical"@));
    assert(first_query_value(q4, "location"@) == Some(site.location@));
    assert(first_query_value(q3, "location"@) == first_query_value(q4, "location"@));
    assert(first_query_value(q2, "location"@) == first_query_value(q3, "location"@));
    assert(first_query_value(q1, "location"@) == first_query_value(q2, "location"@));
    assert(first_query_value(q, "location"@) == first_query_value(q1, "location"@));
}

/// What the logic reads of a found day: its date, booking URL and text.
pub type AvailabilityView = ((int, int, int), Seq<char>, Seq<char>);

/// The view of a found day.
pub open spec fn availability_view(a: Availability) -> AvailabilityView {
    (a.date@, a.booking_url@, a.day_text@)
}

/// The views of found days.
pub open spec fn availability_views(v: Seq<Availability>) -> Seq<AvailabilityView> {
    v.map_values(|a: Availability| availability_view(a))
}

/// What one matched booking link gives: nothing without an `href`; the
/// failing `href` where it does not resolve against `base`; nothing where
/// the resolved URL has no `date` query value that parses as a date; else
/// the day with the resolved URL and the link's trimmed text.
pub open spec fn link_availability(e: ElementView, base: Seq<char>) -> Result<
    Option<AvailabilityView>,
    Seq<char>,
> {
    match e.0[0] {
        None => Ok(None),
        Some(href) => match joined_url(base, href) {
            None => Err(href),
            Some(url) => match first_query_value(url_query_pairs(url), "date"@) {
                None => Ok(None),
                Some(date) => match parsed_iso_date(date) {
                    None => Ok(None),
                    Some(d) => Ok(Some((d, url, trim_spec(e.1)))),
                },
            },
        },
    }
}

/// The days the matched links give, in order, or the first `href` that
/// does not resolve.
pub open spec fn links_availability(es: Seq<ElementView>, base: Seq<char>) -> Result<
    Seq<AvailabilityView>,
    Seq<char>,
>
    decreases es.len(),
{
    if es.len() == 0 {
        Ok(Seq::empty())
    } else {
        match links_availability(es.drop_last(), base) {
            Err(h) => Err(h),
            Ok(prev) => match link_availability(es.last(), base) {
                Err(h) => Err(h),
                Ok(None) => Ok(prev),
                Ok(Some(a)) => Ok(prev.push(a)),
            },
        }
    }
}

/// Law: a link gives the day named by its own URL. A link gives a day
/// exactly when it has an `href` that resolves against the base URL and
/// the resolved URL's first `date` query value reads as a date; the day
/// then carries that date, that resolved URL and the link's trimmed text.
/// An `href` that does not resolve is the only failure.
pub proof fn law_link_gives_its_own_day(e: ElementView, base: Seq<char>)
    ensures
        match link_availability(e, base) {
            Ok(Some(a)) => match e.0[0] {
                Some(h) => joined_url(base, h) == Some(a.1) && match first_query_value(
                    url_query_pairs(a.1),
                    "date"@,
                ) {
                    Some(v) => parsed_iso_date(v) == Some(a.0),
                    None => false,
                } && a.2 == trim_spec(e.1),
                None => false,
            },
            Ok(None) => match e.0[0] {
                Some(h) => match joined_url(base, h) {
                    Some(u) => match first_query_value(url_query_pairs(u), "date"@) {
                        Some(v) => parsed_iso_date(v) is None,
                        None => true,
                    },
                    None => false,
                },
                None => true,
            },
            Err(x) => e.0[0] == Some(x) && joined_url(base, x) is None,
        },
{
}

/// How many of the links give a bookable day.
pub open spec fn day_link_count(es: Seq<ElementView>, base: Seq<char>) -> nat
    decreases es.len(),
{
    if es.len() == 0 {
        0
    } else {
        day_link_count(es.drop_last(), base) + if link_availability(es.last(), base) matches Ok(
            Some(_),
        ) {
            1nat
        } else {
            0nat
        }
    }
}

/// Law: every link that gives a day is kept, in document order. Reading the
/// links succeeds exactly when every link's `href` resolves; then there are
/// as many days as links that give one, and the link at position `k` that
/// gives day `a` puts `a` at the position that counts the day-giving links
/// before it.
pub proof fn law_every_linked_day_is_kept(es: Seq<ElementView>, base: Seq<char>)
    ensures
        links_availability(es, base) is Ok <==> forall|k: int|
            0 <= k < es.len() ==> #[trigger] link_availability(es[k], base) is Ok,
        links_availability(es, base) matches Ok(days) ==> days.len() == day_link_count(es, base)
            && forall|k: int|
            0 <= k < es.len() && (#[trigger] link_availability(es[k], base) matches Ok(Some(_)))
                ==> day_link_count(es.take(k), base) < days.len() && Some(
                days[day_link_count(es.take(k), base) as int],
            ) == link_availability(es[k], base)->Ok_0,
    decreases es.len(),
{
    if es.len() > 0 {
        let init = es.drop_last();
        let n = es.len() - 1;
        law_every_linked_day_is_kept(init, base);
        assert forall|k: int| 0 <= k < n implies es[k] == init[k] && #[trigger] es.take(k) == init.take(
            k,
        ) by {
            assert(es.take(k) =~= init.take(k));
        }
        assert(es.take(n) =~= init);
        assert(es.last() == es[n]);
        if links_availability(es, base) is Ok {
            assert forall|k: int| 0 <= k < es.len() implies #[trigger] link_availability(
                es[k],
                base,
            ) is Ok by {
                if k < n {
                    assert(link_availability(init[k], base) is Ok);
                }
            }
        }
        if forall|k: int| 0 <= k < es.len() ==> #[trigger] link_availability(es[k], base) is Ok {
            assert forall|k: int| 0 <= k < init.len() implies #[trigger] link_availability(
                init[k],
                base,
            ) is Ok by {
                assert(link_availability(es[k], base) is Ok);
            }
            assert(link_availability(es[n], base) is Ok);
        }
        if links_availability(es, base) is Ok {
            let prev = links_availability(init, base)->Ok_0;
            let days = links_availability(es, base)->Ok_0;
            assert forall|k: int|
                0 <= k < es.len() && (#[trigger] link_availability(es[k], base) matches Ok(
                    Some(_),
                )) implies day_link_count(es.take(k), base) < days.len() && Some(
                days[day_link_count(es.take(k), base) as int],
            ) == link_availability(es[k], base)->Ok_0 by {
                if k < n {
                    assert(link_availability(init[k], base) matches Ok(Some(_)));
                    assert(day_link_count(init.take(k), base) < prev.len());
                } else {
                    assert(day_link_count(es.take(k), base) == prev.len());
                }
            }
        }
    }
}

proof fn lemma_links_error_persists(
    es: Seq<ElementView>,
    base: Seq<char>,
    i: int,
    h: Seq<char>,
)
    requires
        0 <= i <= es.len(),
        links_availability(es.take(i), base) == Err::<Seq<AvailabilityView>, Seq<char>>(h),
    ensures
        links_availability(es, base) == Err::<Seq<AvailabilityView>, Seq<char>>(h),
    decreases es.len() - i,
{
    if i < es.len() {
        assert(es.take(i + 1).drop_last() =~= es.take(i));
        lemma_links_error_persists(es, base, i + 1, h);
    } else {
        assert(es.take(i) =~= es);
    }
}

/// The booking links of a page: the elements the site's booking link
/// selector matches; where it matches none, every link (the relaxed selector
/// `a`). `None` where the site's selector is invalid.
pub open spec fn booking_links(html: Seq<char>, site: Site) -> Option<Seq<ElementView>> {
    match selected_elements(html, site.bookinglinkselector@, seq!["href"@]) {
        None => None,
        Some(es) => if es.len() > 0 {
            Some(es)
        } else {
            match selected_elements(html, "a"@, seq!["href"@]) {
                Some(all) => Some(all),
                None => Some(es),
            }
        },
    }
}

/// Whether the site's booking link selector matches nothing on the page,
/// so that every link is read instead.
pub open spec fn relaxed_selector_used(html: Seq<char>, site: Site) -> bool {
    selected_elements(html, site.bookinglinkselector@, seq!["href"@]) matches Some(es) && es.len()
        == 0
}

/// The bookable days the matched links give, resolved against `base`: each
/// link's booking URL, the date in its `date` query value, and its trimmed
/// text; links without `href` or without a date are skipped. Fails on the
/// first `href` that does not resolve.
pub fn days_from_links(elements: &Vec<SelectedElement>, base: &str) -> (r: Result<
    Vec<Availability>,
    ScrapeError,
>)
    requires
        parsed_url(base@) is Some,
        forall|k: int| 0 <= k < elements@.len() ==> #[trigger] elements@[k].attrs@.len() == 1,
    ensures
        match links_availability(element_views(elements@), base@) {
        Err(h) => r matches Err(ScrapeError::InvalidBookingUrl(x)) && x@ == h,
        Ok(avs) => r matches Ok(v) && availability_views(v@) == avs,
    },
{
    let ghost es = element_views(elements@);
    let mut results: Vec<Availability> = Vec::new();
    let mut i: usize = 0;
    assert(es.take(0) =~= Seq::<ElementView>::empty());
    assert(availability_views(results@) =~= Seq::<AvailabilityView>::empty());
    while i < elements.len()
        invariant
            i <= elements@.len(),
            es == element_views(elements@),
            parsed_url(base@) is Some,
            forall|k: int| 0 <= k < elements@.len() ==> #[trigger] elements@[k].attrs@.len() == 1,
            links_availability(es.take(i as int), base@) == Ok::<
                Seq<AvailabilityView>,
                Seq<char>,
            >(availability_views(results@)),
        decreases elements@.len() - i,
    {
        let element = &elements[i];
        proof {
            assert(es.take(i + 1).drop_last() =~= es.take(i as int));
            assert(es.take(i + 1).last() == element_view(*element));
            assert(element_view(*element).0[0] == crate::html::opt_view(element.attrs@[0]));
        }
        let href = match &element.attrs[0] {
            Some(h) => h,
            None => {
                i = i + 1;
                continue;
            },
        };
        let booking_url = match url_join(base, href.as_str()) {
            Some(u) => u,
            None => {
                proof {
                    lemma_links_error_persists(es, base@, i + 1, href@);
                }
                return Err(ScrapeError::InvalidBookingUrl(href.clone()));
            },
        };
        let day_text = trim(element.text.as_str());
        let date_value = query_value(booking_url.as_str(), "date");
        let ghost e = es[i as int];
        assert(e == element_view(*element));
        let mut found = false;
        if let Some(ds) = date_value {
            if let Some(date) = Date::parse_iso(ds.as_str()) {
                assert(link_availability(e, base@) == Ok::<
                    Option<AvailabilityView>,
                    Seq<char>,
                >(Some((date@, booking_url@, day_text@))));
                let ghost prev = results@;
                results.push(Availability { date, booking_url, day_text });
                assert(availability_views(results@) =~= availability_views(prev).push(
                    (date@, booking_url@, day_text@),
                ));
                found = true;
            }
        }
        if !found {
            assert(link_availability(e, base@) == Ok::<
                Option<AvailabilityView>,
                Seq<char>,
            >(None));
        }
        i = i + 1;
    }
    assert(es.take(elements@.len() as int) =~= es);
    Ok(results)
}

impl Scraper {
    /// The bookable days on an availability page, and whether the relaxed
    /// selector was used: each link that the site's booking link selector
    /// matches (every link, where it matches none) gives its resolved booking
    /// URL, the date in that URL's `date` query value, and its trimmed text.
    pub fn parse_availability_reporting(html_content: &str, site: &Site) -> (r: Result<
        (Vec<Availability>, bool),
        ScrapeError,
    >)
        ensures
            match booking_links(html_content@, *site) {
                None => r matches Err(ScrapeError::InvalidSelector(s)) && s@
                    == site.bookinglinkselector@,
                Some(es) => match parsed_url(site.baseurl@) {
                    None => r matches Err(ScrapeError::InvalidBaseUrl(u)) && u@ == site.baseurl@,
                    Some(_) => match links_availability(es, site.baseurl@) {
                        Err(h) => r matches Err(ScrapeError::InvalidBookingUrl(x)) && x@ == h,
                        Ok(avs) => r matches Ok(v) && availability_views(v.0@) == avs && v.1
                            == relaxed_selector_used(html_content@, *site),
                    },
                },
            },
    {
        let mut attrs: Vec<String> = Vec::new();
        attrs.push("href".to_owned());
        assert(string_views(attrs@) =~= seq!["href"@]);
        let matched = match html_select(html_content, site.bookinglinkselector.as_str(), &attrs) {
            Some(v) => v,
            None => return Err(ScrapeError::InvalidSelector(site.bookinglinkselector.clone())),
        };
        let relaxed = matched.len() == 0;
        let elements = if matched.len() > 0 {
            matched
        } else {
            match html_select(html_content, "a", &attrs) {
                Some(all) => all,
                None => matched,
            }
        };
        if url_parse(site.baseurl.as_str()).is_none() {
            return Err(ScrapeError::InvalidBaseUrl(site.baseurl.clone()));
        }
        match days_from_links(&elements, site.baseurl.as_str()) {
            Ok(days) => Ok((days, relaxed)),
            Err(e) => Err(e),
        }
    }

    /// The bookable days on an availability page: each link that the site's
    /// booking link selector matches (every link, where it matches none)
    /// gives its resolved booking URL, the date in that URL's `date` query
    /// value, and its trimmed text.
    pub fn parse_availability(html_content: &str, site: &Site) -> (r: Result<
        Vec<Availability>,
        ScrapeError,
    >)
        ensures
            match booking_links(html_content@, *site) {
                None => r matches Err(ScrapeError::InvalidSelector(s)) && s@
                    == site.bookinglinkselector@,
                Some(es) => match parsed_url(site.baseurl@) {
                    None => r matches Err(ScrapeError::InvalidBaseUrl(u)) && u@ == site.baseurl@,
                    Some(_) => match links_availability(es, site.baseurl@) {
                        Err(h) => r matches Err(ScrapeError::InvalidBookingUrl(x)) && x@ == h,
                        Ok(avs) => r matches Ok(v) && availability_views(v@) == avs,
                    },
                },
            },
    {
        match Scraper::parse_availability_reporting(html_content, site) {
            Ok((days, _)) => Ok(days),
            Err(e) => Err(e),
        }
    }
}

/// The login form on a booking page, as the login request needs it.
#[derive(Clone, Debug)]
pub struct LoginFormFields {
    pub action_url: String,
    pub auth_id: String,
    pub login_url: String,
}

/// The booking form on a booking page, as the booking request needs it.
#[derive(Clone, Debug)]
pub struct BookingFormFields {
    pub action_url: String,
    pub hidden_fields: Vec<(String, String)>,
    pub email_field_name: Option<String>,
}

/// A login form: one whose action contains `form_login`.
pub open spec fn login_form_selector() -> Seq<char> {
    "form[action*=\"form_login\"]"@
}

/// An input inside a login form, chosen by the site's selector, or by
/// `fallback` where the site gives none.
pub open spec fn login_input_selector(site_selector: Seq<char>, fallback: Seq<char>) -> Seq<char> {
    login_form_selector() + " "@ + if site_selector.len() == 0 {
        fallback
    } else {
        site_selector
    }
}

/// The `auth_id` input of a login form.
pub open spec fn login_auth_id_selector(form: LoginForm) -> Seq<char> {
    login_input_selector(form.authidselector@, "input[name=\"auth_id\"]"@)
}

/// The `login_url` input of a login form.
pub open spec fn login_url_selector(form: LoginForm) -> Seq<char> {
    login_input_selector(form.loginurlselector@, "input[name=\"login_url\"]"@)
}

/// A value read from a page, empty where it is absent.
pub open spec fn or_empty(v: Option<Seq<char>>) -> Seq<char> {
    match v {
        Some(t) => t,
        None => Seq::<char>::empty(),
    }
}

/// The booking form.
pub open spec fn booking_form_selector() -> Seq<char> {
    "form#s-lc-bform"@
}

/// The hidden inputs of the booking form.
pub open spec fn booking_hidden_selector() -> Seq<char> {
    "form#s-lc-bform input[type=\"hidden\"]"@
}

/// The email input of the booking form: the input named by the site's
/// email field, or any email input where the site names none.
pub open spec fn booking_email_selector(form: BookingForm) -> Seq<char> {
    if form.emailfield@.len() == 0 {
        "form#s-lc-bform input[type=\"email\"]"@
    } else {
        "form#s-lc-bform input[name=\""@ + form.emailfield@ + "\"]"@
    }
}

fn booking_email_selector_exec(form: &BookingForm) -> (r: String)
    ensures
        r@ == booking_email_selector(*form),
{
    if form.emailfield.as_str().is_empty() {
        "form#s-lc-bform input[type=\"email\"]".to_owned()
    } else {
        let mut sel = "form#s-lc-bform input[name=\"".to_owned();
        sel.append(form.emailfield.as_str());
        sel.append("\"]");
        sel
    }
}

/// The attribute values of the first element of `html` that `selector`
/// matches, if any.
pub open spec fn first_match(html: Seq<char>, selector: Seq<char>, attrs: Seq<Seq<char>>) -> Option<
    Seq<Option<Seq<char>>>,
> {
    match selected_elements(html, selector, attrs) {
        Some(es) => if es.len() > 0 {
            Some(es[0].0)
        } else {
            None
        },
        None => None,
    }
}

/// A form action resolved against the URL of the page it stands on, where
/// both resolve; otherwise the action as written.
pub open spec fn resolve_action(page_url: Seq<char>, action: Seq<char>) -> Seq<char> {
    match parsed_url(page_url) {
        Some(_) => match joined_url(page_url, action) {
            Some(u) => u,
            None => action,
        },
        None => action,
    }
}

/// The value of the first attribute asked for, of the first match.
pub open spec fn first_match_value(html: Seq<char>, selector: Seq<char>, attr: Seq<char>) -> Option<
    Seq<char>,
> {
    match first_match(html, selector, seq![attr]) {
        Some(a) => a[0],
        None => None,
    }
}

/// The login form of a page: the first form whose action contains
/// `form_login`, with the values of the first inputs in such a form that
/// the site's `auth_id` and `login_url` selectors match (empty where none
/// matches or it has no value).
pub open spec fn login_form_of(html: Seq<char>, page_url: Seq<char>, form: LoginForm) -> Option<
    (Seq<char>, Seq<char>, Seq<char>),
> {
    match first_match_value(html, login_form_selector(), "action"@) {
        Some(action) => Some(
            (
                resolve_action(page_url, action),
                or_empty(first_match_value(html, login_auth_id_selector(form), "value"@)),
                or_empty(first_match_value(html, login_url_selector(form), "value"@)),
            ),
        ),
        None => None,
    }
}

/// The name/value pairs of the matched hidden inputs that have a name; a
/// missing value is empty.
pub open spec fn hidden_pairs(es: Seq<ElementView>) -> Seq<(Seq<char>, Seq<char>)>
    decreases es.len(),
{
    if es.len() == 0 {
        Seq::empty()
    } else {
        let prev = hidden_pairs(es.drop_last());
        match es.last().0[0] {
            Some(name) => prev.push(
                (
                    name,
                    match es.last().0[1] {
                        Some(v) => v,
                        None => Seq::<char>::empty(),
                    },
                ),
            ),
            None => prev,
        }
    }
}

/// The view of detected booking form fields.
pub open spec fn booking_fields_view(f: BookingFormFields) -> (
    Seq<char>,
    Seq<(Seq<char>, Seq<char>)>,
    Option<Seq<char>>,
) {
    (f.action_url@, pair_views(f.hidden_fields@), crate::html::opt_view(f.email_field_name))
}

/// The booking form of a page: the form with id `s-lc-bform` (its action,
/// empty if absent), the hidden inputs inside it, and the name of its email
/// input (as the site's email field chooses it) if it has one.
pub open spec fn booking_form_of(html: Seq<char>, page_url: Seq<char>, form: BookingForm) -> Option<
    (Seq<char>, Seq<(Seq<char>, Seq<char>)>, Option<Seq<char>>),
> {
    match first_match(html, booking_form_selector(), seq!["action"@]) {
        None => None,
        Some(found) => {
            let action = match found[0] {
                Some(a) => a,
                None => Seq::<char>::empty(),
            };
            let hidden = match selected_elements(
                html,
                booking_hidden_selector(),
                seq!["name"@, "value"@],
            ) {
                Some(es) => hidden_pairs(es),
                None => Seq::empty(),
            };
            Some(
                (
                    resolve_action(page_url, action),
                    hidden,
                    first_match_value(html, booking_email_selector(form), "name"@),
                ),
            )
        },
    }
}

fn first_match_exec(html: &str, selector: &str, attr: &str) -> (r: Option<String>)
    ensures
        opt_view_s(r) == first_match_value(html@, selector@, attr@),
{
    let mut attrs: Vec<String> = Vec::new();
    attrs.push(attr.to_owned());
    assert(string_views(attrs@) =~= seq![attr@]);
    match html_select(html, selector, &attrs) {
        Some(es) => {
            if es.len() > 0 {
                assert(element_views(es@)[0] == element_view(es@[0]));
                match &es[0].attrs[0] {
                    Some(v) => Some(v.clone()),
                    None => None,
                }
            } else {
                None
            }
        },
        None => None,
    }
}

/// The view of an optional string.
pub open spec fn opt_view_s(o: Option<String>) -> Option<Seq<char>> {
    crate::html::opt_view(o)
}

fn resolve_action_exec(page_url: &str, action: String) -> (r: String)
    ensures
        r@ == resolve_action(page_url@, action@),
{
    if url_parse(page_url).is_some() {
        match url_join(page_url, action.as_str()) {
            Some(u) => u,
            None => action,
        }
    } else {
        action
    }
}

fn login_input_selector_exec(site_selector: &String, fallback: &str) -> (r: String)
    ensures
        r@ == login_input_selector(site_selector@, fallback@),
{
    let mut sel = "form[action*=\"form_login\"] ".to_owned();
    if site_selector.as_str().is_empty() {
        sel.append(fallback);
    } else {
        sel.append(site_selector.as_str());
    }
    proof {
        reveal_strlit("form[action*=\"form_login\"] ");
        reveal_strlit("form[action*=\"form_login\"]");
        reveal_strlit(" ");
        assert("form[action*=\"form_login\"] "@ =~= login_form_selector() + " "@);
    }
    sel
}

fn value_or_empty(v: Option<String>) -> (r: String)
    ensures
        r@ == or_empty(opt_view_s(v)),
{
    match v {
        Some(t) => t,
        None => String::new(),
    }
}

impl Scraper {
    /// The login form of a page at `page_url`, if it has one: a form whose
    /// action contains `form_login`, read with the site's login form
    /// selectors.
    pub fn detect_login_form(html: &str, page_url: &str, form: &LoginForm) -> (r: Option<
        LoginFormFields,
    >)
        ensures
            match login_form_of(html@, page_url@, *form) {
                Some((action, auth_id, login_url)) => r matches Some(f) && f.action_url@ == action
                    && f.auth_id@ == auth_id && f.login_url@ == login_url,
                None => r is None,
            },
    {
        let action = match first_match_exec(html, "form[action*=\"form_login\"]", "action") {
            Some(a) => a,
            None => return None,
        };
        let auth_sel = login_input_selector_exec(&form.authidselector, "input[name=\"auth_id\"]");
        let url_sel = login_input_selector_exec(
            &form.loginurlselector,
            "input[name=\"login_url\"]",
        );
        let auth_id = value_or_empty(first_match_exec(html, auth_sel.as_str(), "value"));
        let login_url = value_or_empty(first_match_exec(html, url_sel.as_str(), "value"));
        Some(
            LoginFormFields {
                action_url: resolve_action_exec(page_url, action),
                auth_id,
                login_url,
            },
        )
    }
}

/// The name/value pairs of matched hidden inputs (the attributes `name`
/// and `value` of each, in that order) that have a name.
pub fn hidden_fields(es: &Vec<SelectedElement>) -> (r: Vec<(String, String)>)
    requires
        forall|k: int| 0 <= k < es@.len() ==> #[trigger] es@[k].attrs@.len() == 2,
    ensures
        pair_views(r@) == hidden_pairs(element_views(es@)),
{
    let ghost ev = element_views(es@);
    let mut out: Vec<(String, String)> = Vec::new();
    let mut i: usize = 0;
    assert(ev.take(0) =~= Seq::<ElementView>::empty());
    assert(pair_views(out@) =~= Seq::<(Seq<char>, Seq<char>)>::empty());
    while i < es.len()
        invariant
            i <= es@.len(),
            ev == element_views(es@),
            forall|k: int| 0 <= k < es@.len() ==> #[trigger] es@[k].attrs@.len() == 2,
            pair_views(out@) == hidden_pairs(ev.take(i as int)),
        decreases es@.len() - i,
    {
        proof {
            assert(ev.take(i + 1).drop_last() =~= ev.take(i as int));
            assert(ev.take(i + 1).last() == element_view(es@[i as int]));
        }
        let e = &es[i];
        match &e.attrs[0] {
            Some(name) => {
                let value = match &e.attrs[1] {
                    Some(v) => v.clone(),
                    None => String::new(),
                };
                let ghost prev = out@;
                out.push((name.clone(), value));
                assert(pair_views(out@) =~= pair_views(prev).push((name@, value@)));
            },
            None => {},
        }
        i = i + 1;
    }
    assert(ev.take(es@.len() as int) =~= ev);
    out
}

impl Scraper {
    /// The booking form of a page at `page_url`, if it has one, with the
    /// site's email field.
    pub fn detect_booking_form(html: &str, page_url: &str, form: &BookingForm) -> (r: Option<
        BookingFormFields,
    >)
        ensures
            match booking_form_of(html@, page_url@, *form) {
                Some(view) => r matches Some(f) && booking_fields_view(f) == view,
                None => r is None,
            },
    {
        let mut form_attrs: Vec<String> = Vec::new();
        form_attrs.push("action".to_owned());
        assert(string_views(form_attrs@) =~= seq!["action"@]);
        let forms = html_select(html, "form#s-lc-bform", &form_attrs);
        let action = match forms {
            Some(fs) => {
                if fs.len() > 0 {
                    assert(element_views(fs@)[0] == element_view(fs@[0]));
                    match &fs[0].attrs[0] {
                        Some(a) => a.clone(),
                        None => String::new(),
                    }
                } else {
                    return None;
                }
            },
            None => return None,
        };
        let mut input_attrs: Vec<String> = Vec::new();
        input_attrs.push("name".to_owned());
        input_attrs.push("value".to_owned());
        assert(string_views(input_attrs@) =~= seq!["name"@, "value"@]);
        let hidden_fields = match html_select(
            html,
            "form#s-lc-bform input[type=\"hidden\"]",
            &input_attrs,
        ) {
            Some(es) => hidden_fields(&es),
            None => {
                let v: Vec<(String, String)> = Vec::new();
                assert(pair_views(v@) =~= Seq::<(Seq<char>, Seq<char>)>::empty());
                v
            },
        };
        let email_selector = booking_email_selector_exec(form);
        let email_field_name = first_match_exec(html, email_selector.as_str(), "name");
        Some(
            BookingFormFields {
                action_url: resolve_action_exec(page_url, action),
                hidden_fields,
                email_field_name,
            },
        )
    }

    /// Whether a booking response shows the site's success indicator.
    pub fn check_success(html: &str, success_indicator: &str) -> (r: bool)
        ensures
            r == contains_spec(html@, success_indicator@),
    {
        contains(html, success_indicator)
    }
}

} // verus!
