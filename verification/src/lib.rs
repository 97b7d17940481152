//! Decision logic of a library-pass appointment agent: configuration lookups,
//! availability URL construction, HTML scraping of availability and booking
//! pages, the login retry policy, and the check-window state machine.

pub mod agent;
pub mod booker;
pub mod booking;
pub mod calendar;
pub mod config;
pub mod html;
pub mod run;
pub mod scraper;
pub mod text;
pub mod urls;
