//! Booking found slots one after another: for each, visit its booking page,
//! log in if asked to, submit the booking form, and read the answer.

use vstd::prelude::*;
use crate::agent::{field_value, slot_view, AgentEvent, BookingPlan};
use crate::booker::{
    booking_fields_spec, login_fields_spec, BookingError, BookingPageState, Booker, FormPost,
};
use crate::text::contains_spec;
use crate::urls::pair_views;

verus! {

/// Where the booking of the current slot stands.
#[derive(Clone, Copy, Debug, PartialEq, Eq, Structural)]
pub enum SlotStep {
    /// Waiting for the booking page.
    FirstVisit,
    /// Waiting for the login.
    LoggingIn,
    /// Waiting for the booking page after logging in.
    SecondVisit,
    /// Waiting for the answer to the booking form.
    Submitting,
    /// All attempts are over.
    Over,
}

/// What the outside world reports during booking.
#[derive(Debug)]
pub enum BookingEvent {
    /// The booking page was fetched and read.
    Page(BookingPageState),
    /// The login ended: accepted, or refused too often (which ends all
    /// booking).
    LoggedIn(bool),
    /// The booking form was posted; the answer page.
    Submitted(String),
    /// A request failed; the error.
    Failed(String),
}

/// What the outside world is to do next during booking.
#[derive(Debug)]
pub enum BookingAction {
    /// Log the event.
    Emit(AgentEvent),
    /// Fetch the booking page at the URL and read it.
    Visit(String),
    /// Log in with the form (retrying as the login policy says).
    LogIn(FormPost),
    /// Post the booking form.
    Submit(FormPost),
    /// All attempts are over: whether a booking went through.
    Done(bool),
}

/// The booking attempts of a plan.
#[derive(Debug)]
pub struct BookingRun {
    pub plan: BookingPlan,
    pub index: usize,
    pub step: SlotStep,
}

/// The action logs an event with this name and exactly the given date (and
/// error, where one is given).
pub open spec fn emits_slot_event(a: BookingAction, name: Seq<char>, date: Seq<char>, error: Option<Seq<char>>) -> bool {
    a matches BookingAction::Emit(e) && e.event@ == name && field_value(e.fields(), "date"@)
        == Some(date) && match error {
        Some(msg) => field_value(e.fields(), "error"@) == Some(msg),
        None => forall|k: Seq<char>| k != "date"@ ==> field_value(e.fields(), k) is None,
    }
}

/// The actions that start the attempt at slot `i`: log `booking_attempt`
/// with its date and visit its booking URL.
pub open spec fn starts_attempt(actions: Seq<BookingAction>, plan: BookingPlan, i: int) -> bool {
    &&& actions.len() == 2
    &&& emits_slot_event(actions[0], "booking_attempt"@, slot_view(plan.slots@[i]).0, None)
    &&& actions[1] matches BookingAction::Visit(u) && u@ == slot_view(plan.slots@[i]).1
}

/// The actions after the attempt at the current slot ended with `result`
/// (`Ok(true)` booked, `Ok(false)` not, `Err` with a message): log
/// `booking_success` and stop, or log `booking_failed` and go on with the
/// next slot or stop when none is left.
pub open spec fn ends_attempt(
    actions: Seq<BookingAction>,
    old_run: BookingRun,
    new_run: BookingRun,
    result: Result<bool, Seq<char>>,
) -> bool {
    let date = slot_view(old_run.plan.slots@[old_run.index as int]).0;
    let next = old_run.index + 1;
    match result {
        Ok(true) => new_run.step == SlotStep::Over && actions.len() == 2 && emits_slot_event(
            actions[0],
            "booking_success"@,
            date,
            None,
        ) && actions[1] == BookingAction::Done(true),
        _ => {
            let msg = match result {
                Err(m) => m,
                Ok(_) => not_booked_text(),
            };
            &&& emits_slot_event(actions[0], "booking_failed"@, date, Some(msg))
            &&& if next < old_run.plan.slots@.len() {
                &&& new_run.step == SlotStep::FirstVisit
                &&& new_run.index == next
                &&& actions.len() == 3
                &&& starts_attempt(actions.skip(1), old_run.plan, next)
            } else {
                &&& new_run.step == SlotStep::Over
                &&& actions.len() == 2
                &&& actions[1] == BookingAction::Done(false)
            }
        },
    }
}

/// The action logs an event with this name and no data.
pub open spec fn emits_event(a: BookingAction, name: Seq<char>) -> bool {
    a matches BookingAction::Emit(e) && e.event@ == name && e.fields().len() == 0
}

fn slot_event(name: &str, date: &String, error: Option<String>) -> (r: BookingAction)
    ensures
        emits_slot_event(r, name@, date@, match error {
            Some(m) => Some(m@),
            None => None,
        }),
{
    let e = AgentEvent::new(name).with_data("date", date.clone());
    match error {
        Some(msg) => {
            let e = e.with_data("error", msg);
            proof {
                reveal_strlit("date");
                reveal_strlit("error");
                assert("date"@.len() != "error"@.len());
            }
            BookingAction::Emit(e)
        },
        None => BookingAction::Emit(e),
    }
}

/// The error logged when an attempt ends without a booking: the page was
/// neither a login nor a booking form, or the login was refused too often.
pub open spec fn not_booked_text() -> Seq<char> {
    "Booking returned false"@
}

/// The error logged in a dry run where a login or a booking would be posted.
pub open spec fn dry_run_text() -> Seq<char> {
    "Dry run: no login or booking request sent"@
}

/// The error logged when a booking answer lacks the success indicator.
pub open spec fn missing_indicator_text() -> Seq<char> {
    "Booking failed - success indicator not found"@
}

/// What the current step makes of an event: `Some` result where the
/// attempt at the current slot ends.
pub open spec fn attempt_result(run: BookingRun, event: BookingEvent) -> Option<Result<bool, Seq<char>>> {
    match event {
        BookingEvent::Failed(msg) => Some(Err(msg@)),
        BookingEvent::Page(page) => match (run.step, page) {
            (SlotStep::FirstVisit, BookingPageState::Unknown(_)) => Some(Ok(false)),
            (SlotStep::FirstVisit, _) => if run.plan.dry_run {
                Some(Err(dry_run_text()))
            } else {
                None
            },
            (SlotStep::SecondVisit, BookingPageState::BookingReady(_)) => if run.plan.dry_run {
                Some(Err(dry_run_text()))
            } else {
                None
            },
            (SlotStep::SecondVisit, _) => Some(Ok(false)),
            _ => None,
        },
        BookingEvent::LoggedIn(_) => None,
        BookingEvent::Submitted(html) => if run.step == SlotStep::Submitting {
            if contains_spec(html@, run.plan.success_indicator@) {
                Some(Ok(true))
            } else {
                Some(Err(missing_indicator_text()))
            }
        } else {
            None
        },
    }
}

impl BookingRun {
    /// Starts the attempts of a plan with its first slot; with no slot there
    /// is nothing to book.
    pub fn start(plan: BookingPlan) -> (r: (BookingRun, Vec<BookingAction>))
        ensures
            r.0.plan == plan,
            r.0.index == 0,
            plan.slots@.len() == 0 ==> r.0.step == SlotStep::Over && r.1@.len() == 1 && r.1@[0]
                == BookingAction::Done(false),
            plan.slots@.len() > 0 ==> r.0.step == SlotStep::FirstVisit && starts_attempt(
                r.1@,
                plan,
                0,
            ),
    {
        let mut actions: Vec<BookingAction> = Vec::new();
        if plan.slots.len() == 0 {
            actions.push(BookingAction::Done(false));
            return (BookingRun { plan, index: 0, step: SlotStep::Over }, actions);
        }
        actions.push(slot_event("booking_attempt", &plan.slots[0].date, None));
        actions.push(BookingAction::Visit(plan.slots[0].booking_url.clone()));
        (BookingRun { plan, index: 0, step: SlotStep::FirstVisit }, actions)
    }

    fn end_attempt(&mut self, result: Result<bool, String>) -> (actions: Vec<BookingAction>)
        requires
            old(self).index < old(self).plan.slots@.len(),
        ensures
            final(self).plan == old(self).plan,
            ends_attempt(actions@, *old(self), *final(self), match result {
                Ok(b) => Ok(b),
                Err(m) => Err(m@),
            }),
    {
        let mut actions: Vec<BookingAction> = Vec::new();
        let i = self.index;
        let len = self.plan.slots.len();
        match result {
            Ok(true) => {
                actions.push(slot_event("booking_success", &self.plan.slots[i].date, None));
                actions.push(BookingAction::Done(true));
                self.step = SlotStep::Over;
                return actions;
            },
            Ok(false) => {
                actions.push(
                    slot_event(
                        "booking_failed",
                        &self.plan.slots[i].date,
                        Some("Booking returned false".to_owned()),
                    ),
                );
            },
            Err(msg) => {
                actions.push(slot_event("booking_failed", &self.plan.slots[i].date, Some(msg)));
            },
        }
        let next = i + 1;
        if next < len {
            actions.push(slot_event("booking_attempt", &self.plan.slots[next].date, None));
            actions.push(BookingAction::Visit(self.plan.slots[next].booking_url.clone()));
            self.index = next;
            self.step = SlotStep::FirstVisit;
            assert(actions@.skip(1) =~= seq![actions@[1], actions@[2]]);
        } else {
            actions.push(BookingAction::Done(false));
            self.step = SlotStep::Over;
        }
        actions
    }

    /// Reads an event of the attempt at the current slot.
    pub fn on_event(&mut self, event: BookingEvent) -> (actions: Vec<BookingAction>)
        requires
            old(self).step != SlotStep::Over,
            old(self).index < old(self).plan.slots@.len(),
        ensures
            final(self).plan == old(self).plan,
            final(self).step != SlotStep::Over ==> final(self).index < final(self).plan.slots@.len(),
            old(self).plan.dry_run ==> forall|k: int|
                0 <= k < actions@.len() ==> !(#[trigger] actions@[k] is LogIn) && !(
                actions@[k] is Submit),
            match attempt_result(*old(self), event) {
                Some(result) => ends_attempt(actions@, *old(self), *final(self), result),
                None => match (old(self).step, event) {
                    (SlotStep::FirstVisit, BookingEvent::Page(BookingPageState::LoginRequired(f))) =>
                        final(self).step == SlotStep::LoggingIn && final(self).index == old(self).index
                        && actions@.len() == 2 && emits_event(actions@[0], "login_required"@) && (
                    actions@[1] matches BookingAction::LogIn(p) && p.url@ == f.action_url@
                        && pair_views(p.fields@) == login_fields_spec(f, old(self).plan.credential)),
                    (SlotStep::FirstVisit, BookingEvent::Page(BookingPageState::BookingReady(f)))
                    | (SlotStep::SecondVisit, BookingEvent::Page(BookingPageState::BookingReady(f))) =>
                        final(self).step == SlotStep::Submitting && final(self).index == old(
                        self,
                    ).index && actions@.len() == 1 && (actions@[0] matches BookingAction::Submit(p)
                        && p.url@ == f.action_url@ && pair_views(p.fields@) == booking_fields_spec(
                        f,
                        old(self).plan.credential,
                    )),
                    (SlotStep::LoggingIn, BookingEvent::LoggedIn(true)) => final(self).step
                        == SlotStep::SecondVisit && final(self).index == old(self).index
                        && actions@.len() == 2 && emits_event(actions@[0], "login_success"@) && (
                    actions@[1] matches BookingAction::Visit(u) && u@ == slot_view(
                        old(self).plan.slots@[old(self).index as int],
                    ).1),
                    (SlotStep::LoggingIn, BookingEvent::LoggedIn(false)) => final(self).step
                        == SlotStep::Over && actions@.len() == 2 && emits_slot_event(
                        actions@[0],
                        "booking_failed"@,
                        slot_view(old(self).plan.slots@[old(self).index as int]).0,
                        Some(not_booked_text()),
                    ) && actions@[1] == BookingAction::Done(false),
                    _ => final(self).step == old(self).step && final(self).index == old(self).index
                        && actions@.len() == 0,
                },
            },
    {
        let step = self.step;
        match event {
            BookingEvent::Failed(msg) => self.end_attempt(Err(msg)),
            BookingEvent::Page(page) => match (step, page) {
                (SlotStep::FirstVisit, BookingPageState::LoginRequired(f)) => {
                    if self.plan.dry_run {
                        return self.end_attempt(
                            Err("Dry run: no login or booking request sent".to_owned()),
                        );
                    }
                    let post = Booker::login_request(&f, &self.plan.credential);
                    self.step = SlotStep::LoggingIn;
                    let mut actions: Vec<BookingAction> = Vec::new();
                    actions.push(BookingAction::Emit(AgentEvent::new("login_required")));
                    actions.push(BookingAction::LogIn(post));
                    actions
                },
                (SlotStep::FirstVisit, BookingPageState::BookingReady(f)) | (
                    SlotStep::SecondVisit,
                    BookingPageState::BookingReady(f),
                ) => {
                    if self.plan.dry_run {
                        return self.end_attempt(
                            Err("Dry run: no login or booking request sent".to_owned()),
                        );
                    }
                    let post = Booker::booking_request(&f, &self.plan.credential);
                    self.step = SlotStep::Submitting;
                    let mut actions: Vec<BookingAction> = Vec::new();
                    actions.push(BookingAction::Submit(post));
                    actions
                },
                (SlotStep::FirstVisit, BookingPageState::Unknown(_)) => self.end_attempt(Ok(false)),
                (SlotStep::SecondVisit, _) => self.end_attempt(Ok(false)),
                _ => Vec::new(),
            },
            BookingEvent::LoggedIn(ok) => {
                if step == SlotStep::LoggingIn {
                    let mut actions: Vec<BookingAction> = Vec::new();
                    if ok {
                        self.step = SlotStep::SecondVisit;
                        actions.push(BookingAction::Emit(AgentEvent::new("login_success")));
                        actions.push(
                            BookingAction::Visit(self.plan.slots[self.index].booking_url.clone()),
                        );
                    } else {
                        actions.push(
                            slot_event(
                                "booking_failed",
                                &self.plan.slots[self.index].date,
                                Some("Booking returned false".to_owned()),
                            ),
                        );
                        actions.push(BookingAction::Done(false));
                        self.step = SlotStep::Over;
                    }
                    actions
                } else {
                    Vec::new()
                }
            },
            BookingEvent::Submitted(html) => {
                if step == SlotStep::Submitting {
                    match Booker::booking_outcome(html.as_str(), self.plan.success_indicator.as_str()) {
                        Ok(b) => self.end_attempt(Ok(b)),
                        Err(_) => self.end_attempt(
                            Err("Booking failed - success indicator not found".to_owned()),
                        ),
                    }
                } else {
                    Vec::new()
                }
            },
        }
    }
}

/// Law: a failed attempt never ends the booking while dates remain. When
/// the attempt at a slot ends without a booking, whatever the failure, the
/// failure is logged for that slot's date; if a later slot remains, the next
/// actions log `booking_attempt` for the next slot's date and visit its
/// booking URL, and no `Done` comes; `Done(false)` comes only after the last
/// slot. `Done(true)` comes only from a booking that went through.
pub proof fn law_failed_attempt_moves_on(
    actions: Seq<BookingAction>,
    old_run: BookingRun,
    new_run: BookingRun,
    result: Result<bool, Seq<char>>,
)
    requires
        ends_attempt(actions, old_run, new_run, result),
        old_run.index < old_run.plan.slots@.len(),
    ensures
        (exists|k: int| 0 <= k < actions.len() && actions[k] == BookingAction::Done(true))
            ==> result == Ok::<bool, Seq<char>>(true),
        result != Ok::<bool, Seq<char>>(true) ==> (actions[0] matches BookingAction::Emit(e)
            && e.event@ == "booking_failed"@ && field_value(e.fields(), "date"@) == Some(
            slot_view(old_run.plan.slots@[old_run.index as int]).0,
        )),
        result != Ok::<bool, Seq<char>>(true) && old_run.index + 1 < old_run.plan.slots@.len() ==> {
            let next = old_run.plan.slots@[old_run.index + 1];
            &&& new_run.index == old_run.index + 1
            &&& new_run.step == SlotStep::FirstVisit
            &&& actions.len() == 3
            &&& actions[1] matches BookingAction::Emit(e) && e.event@ == "booking_attempt"@
                && field_value(e.fields(), "date"@) == Some(slot_view(next).0)
            &&& actions[2] matches BookingAction::Visit(u) && u@ == slot_view(next).1
            &&& forall|k: int| 0 <= k < actions.len() ==> !(#[trigger] actions[k] is Done)
        },
        result != Ok::<bool, Seq<char>>(true) && old_run.index + 1 >= old_run.plan.slots@.len()
            ==> new_run.step == SlotStep::Over && actions.last() == BookingAction::Done(false),
{
    if result != Ok::<bool, Seq<char>>(true) && old_run.index + 1 < old_run.plan.slots@.len() {
        let rest = actions.skip(1);
        assert(rest[0] == actions[1] && rest[1] == actions[2]);
    }
}

/// Law: an answer counts as a booking exactly when it shows the site's
/// success indicator; an answer without it ends the attempt with the
/// missing-indicator error.
pub proof fn law_booked_only_with_indicator(run: BookingRun, html: String)
    requires
        run.step == SlotStep::Submitting,
    ensures
        attempt_result(run, BookingEvent::Submitted(html)) == Some(Ok::<bool, Seq<char>>(true))
            <==> contains_spec(html@, run.plan.success_indicator@),
        !contains_spec(html@, run.plan.success_indicator@) ==> attempt_result(
            run,
            BookingEvent::Submitted(html),
        ) == Some(Err::<bool, Seq<char>>(missing_indicator_text())),
{
}

} // verus!
